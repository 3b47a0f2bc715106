//! The GitHub Copilot module of a status bar.

use crate::decimal::{decimal, decimal_text, fixed, fixed_text, signed_decimal, signed_decimal_text};
use crate::placeholders::Placeholders;
use crate::reset::Instant;
use crate::toolkit::{
    color_given, countdown_given, frame_given, lines_view, span_given, substitution_given,
    text_given, update_given, LineView, Theme, Toolkit, TooltipLine,
};
use crate::types::{count, count_text, labelled, text_of, Quota, Snapshot};
use vstd::prelude::*;
use vstd::string::StringExecFns;

verus! {

/// Headline the worst quota the plan actually has rather than a fixed bucket:
/// the severity already comes from the worst percentage, and a plan without
/// premium requests (Copilot Free) otherwise shows a figure for an allowance
/// that does not exist.
pub const DEFAULT_FORMAT: &'static str = "{copilot_pct}% · {copilot_reset}";

/// Stands for a figure that there is none of.
pub const UNAVAILABLE: &'static str = "—";

/// The short name of the provider.
pub const SHORT_NAME: &'static str = "ghc";

/// The sign of the provider in an icon font.
pub const ICON: &'static str = "󰊤";

/// The figures of a quota, as texts.
#[derive(Debug)]
pub struct QuotaValues {
    pub percent: String,
    pub used: String,
    pub limit: String,
}

/// What [`QuotaValues`] hold.
pub struct QuotaTexts {
    pub percent: Seq<char>,
    pub used: Seq<char>,
    pub limit: Seq<char>,
}

impl View for QuotaValues {
    type V = QuotaTexts;

    open spec fn view(&self) -> QuotaTexts {
        QuotaTexts { percent: self.percent@, used: self.used@, limit: self.limit@ }
    }
}

/// The figures of a quota: none where the plan does not include it.
pub open spec fn quota_texts(quota: Option<Quota>) -> QuotaTexts {
    match quota {
        Some(q) => if !q.included() {
            QuotaTexts { percent: UNAVAILABLE@, used: UNAVAILABLE@, limit: UNAVAILABLE@ }
        } else if q.unlimited {
            QuotaTexts { percent: "0"@, used: "0"@, limit: "unlimited"@ }
        } else {
            let percent = decimal(q.used_percentage() as nat);
            match q.used_amounts() {
                Some((used, limit)) => QuotaTexts {
                    percent,
                    used: count_text(used),
                    limit: count_text(limit),
                },
                None => QuotaTexts { percent, used: UNAVAILABLE@, limit: UNAVAILABLE@ },
            }
        },
        None => QuotaTexts { percent: UNAVAILABLE@, used: UNAVAILABLE@, limit: UNAVAILABLE@ },
    }
}

fn unavailable() -> (r: QuotaValues)
    ensures
        r@ == quota_texts(None),
{
    QuotaValues {
        percent: UNAVAILABLE.to_owned(),
        used: UNAVAILABLE.to_owned(),
        limit: UNAVAILABLE.to_owned(),
    }
}

fn percent_text(quota: &Quota) -> (r: String)
    ensures
        r@ == decimal(quota.used_percentage() as nat),
{
    let used: i32 = quota.used_pct();
    decimal_text(used as u64)
}

/// The figures of a quota, as texts.
pub fn quota_values(quota: Option<&Quota>) -> (r: QuotaValues)
    ensures
        r@ == quota_texts(
            match quota {
                Some(q) => Some(*q),
                None => None,
            },
        ),
{
    match quota {
        Some(q) => {
            if !q.in_plan() {
                return unavailable();
            }
            if q.unlimited {
                return QuotaValues {
                    percent: "0".to_owned(),
                    used: "0".to_owned(),
                    limit: "unlimited".to_owned(),
                };
            }
            match q.used_and_entitlement() {
                Some((used, limit)) => QuotaValues {
                    percent: percent_text(q),
                    used: count(used),
                    limit: count(limit),
                },
                None => QuotaValues {
                    percent: percent_text(q),
                    used: UNAVAILABLE.to_owned(),
                    limit: UNAVAILABLE.to_owned(),
                },
            }
        },
        None => unavailable(),
    }
}

/// The placeholders of a snapshot, where its plan and the time to its reset
/// are written as given.
pub open spec fn placeholder_texts(
    snap: Snapshot,
    plan: Seq<char>,
    reset: Seq<char>,
) -> Map<Seq<char>, Seq<char>> {
    let premium = quota_texts(snap.premium);
    let chat = quota_texts(snap.chat);
    let completions = quota_texts(snap.completions);
    Map::<Seq<char>, Seq<char>>::empty()
        .insert("icon"@, ICON@)
        .insert("vendor_short"@, SHORT_NAME@)
        .insert("plan"@, plan)
        .insert("session_pct"@, premium.percent)
        .insert("session_reset"@, reset)
        .insert("weekly_pct"@, chat.percent)
        .insert("weekly_reset"@, reset)
        .insert("copilot_plan"@, plan)
        .insert("copilot_reset"@, reset)
        .insert("copilot_pct"@, decimal(snap.worst() as nat))
        .insert("copilot_premium_pct"@, premium.percent)
        .insert("copilot_premium_used"@, premium.used)
        .insert("copilot_premium_limit"@, premium.limit)
        .insert("copilot_chat_pct"@, chat.percent)
        .insert("copilot_chat_used"@, chat.used)
        .insert("copilot_chat_limit"@, chat.limit)
        .insert("copilot_completions_pct"@, completions.percent)
        .insert("copilot_completions_used"@, completions.used)
        .insert("copilot_completions_limit"@, completions.limit)
}

/// The names of the placeholders differ from each other.
pub(crate) proof fn lemma_placeholder_names()
    ensures
        "icon"@.len() == 4 && "icon"@[0] == 'i',
        "vendor_short"@.len() == 12,
        "plan"@.len() == 4 && "plan"@[0] == 'p',
        "session_pct"@.len() == 11 && "session_pct"@[0] == 's',
        "session_reset"@.len() == 13 && "session_reset"@[0] == 's',
        "weekly_pct"@.len() == 10,
        "weekly_reset"@.len() == 12 && "weekly_reset"@[0] == 'w',
        "copilot_plan"@.len() == 12 && "copilot_plan"@[0] == 'c',
        "copilot_reset"@.len() == 13 && "copilot_reset"@[0] == 'c',
        "copilot_pct"@.len() == 11 && "copilot_pct"@[0] == 'c',
        "copilot_premium_pct"@.len() == 19,
        "copilot_premium_used"@.len() == 20,
        "copilot_premium_limit"@.len() == 21,
        "copilot_chat_pct"@.len() == 16,
        "copilot_chat_used"@.len() == 17,
        "copilot_chat_limit"@.len() == 18,
        "copilot_completions_pct"@.len() == 23,
        "copilot_completions_used"@.len() == 24,
        "copilot_completions_limit"@.len() == 25,
        "vendor_short"@[0] == 'v',
{
    reveal_strlit("icon");
    reveal_strlit("vendor_short");
    reveal_strlit("plan");
    reveal_strlit("session_pct");
    reveal_strlit("session_reset");
    reveal_strlit("weekly_pct");
    reveal_strlit("weekly_reset");
    reveal_strlit("copilot_plan");
    reveal_strlit("copilot_reset");
    reveal_strlit("copilot_pct");
    reveal_strlit("copilot_premium_pct");
    reveal_strlit("copilot_premium_used");
    reveal_strlit("copilot_premium_limit");
    reveal_strlit("copilot_chat_pct");
    reveal_strlit("copilot_chat_used");
    reveal_strlit("copilot_chat_limit");
    reveal_strlit("copilot_completions_pct");
    reveal_strlit("copilot_completions_used");
    reveal_strlit("copilot_completions_limit");
}

/// The plan stands in for the placeholder of that name.
proof fn lemma_plan_placeholder(snap: Snapshot, plan: Seq<char>, reset: Seq<char>)
    ensures
        placeholder_texts(snap, plan, reset).contains_key("plan"@),
        placeholder_texts(snap, plan, reset)["plan"@] == plan,
{
    lemma_placeholder_names();
}

/// The placeholders of a snapshot, for a plan that has been made safe to show
/// and a time to the reset that has been put into words.
pub fn placeholders_from(snap: &Snapshot, plan: &str, reset: &str) -> (r: Placeholders)
    ensures
        r@ == placeholder_texts(*snap, plan@, reset@),
{
    let premium: QuotaValues = quota_values(snap.premium.as_ref());
    let chat: QuotaValues = quota_values(snap.chat.as_ref());
    let completions: QuotaValues = quota_values(snap.completions.as_ref());
    let worst: i32 = snap.worst_pct();
    let mut values: Placeholders = Placeholders::new();
    values.insert("icon", ICON.to_owned());
    values.insert("vendor_short", SHORT_NAME.to_owned());
    values.insert("plan", plan.to_owned());
    values.insert("session_pct", premium.percent.clone());
    values.insert("session_reset", reset.to_owned());
    values.insert("weekly_pct", chat.percent.clone());
    values.insert("weekly_reset", reset.to_owned());
    values.insert("copilot_plan", plan.to_owned());
    values.insert("copilot_reset", reset.to_owned());
    values.insert("copilot_pct", decimal_text(worst as u64));
    values.insert("copilot_premium_pct", premium.percent);
    values.insert("copilot_premium_used", premium.used);
    values.insert("copilot_premium_limit", premium.limit);
    values.insert("copilot_chat_pct", chat.percent);
    values.insert("copilot_chat_used", chat.used);
    values.insert("copilot_chat_limit", chat.limit);
    values.insert("copilot_completions_pct", completions.percent);
    values.insert("copilot_completions_used", completions.used);
    values.insert("copilot_completions_limit", completions.limit);
    values
}

/// The values of the placeholders of a snapshot, for some plan and some words
/// for its reset that the functions may give.
pub open spec fn placeholders_given<
    Countdown: Fn(Option<Instant>, Instant) -> String,
    Sanitize: Fn(&str) -> String,
>(
    snap: Snapshot,
    now: Instant,
    countdown: Countdown,
    sanitize: Sanitize,
    plan: Seq<char>,
    reset: Seq<char>,
    values: Map<Seq<char>, Seq<char>>,
) -> bool {
    &&& text_given(sanitize, snap.plan@, plan)
    &&& countdown_given(countdown, snap.reset_at, now, reset)
    &&& values == placeholder_texts(snap, plan, reset)
}

/// The placeholders of a snapshot.
pub fn build_placeholders<
    Countdown: Fn(Option<Instant>, Instant) -> String,
    Sanitize: Fn(&str) -> String,
>(snap: &Snapshot, now: Instant, countdown: &Countdown, sanitize: &Sanitize) -> (r: Placeholders)
    requires
        forall|at: Option<Instant>, now: Instant| countdown.requires((at, now)),
        forall|text: &str| sanitize.requires((text,)),
    ensures
        exists|plan: Seq<char>, reset: Seq<char>| #[trigger]
            placeholders_given(*snap, now, *countdown, *sanitize, plan, reset, r@),
{
    let plan: String = sanitize(snap.plan.as_str());
    let reset: String = countdown(snap.reset_at, now);
    let values: Placeholders = placeholders_from(snap, plan.as_str(), reset.as_str());
    assert(placeholders_given(*snap, now, *countdown, *sanitize, plan@, reset@, values@));
    values
}

/// How severe the use of the quotas is: as severe as the worst percentage.
pub fn severity<Severity, SeverityFor: Fn(i32) -> Severity>(
    snap: &Snapshot,
    severity_for: &SeverityFor,
) -> (r: Severity)
    requires
        forall|percentage: i32| severity_for.requires((percentage,)),
    ensures
        severity_for.ensures((snap.worst() as i32,), r),
{
    severity_for(snap.worst_pct())
}

/// How a module is to be laid out, where it is not by default. This one shows no
/// pace, so what is set for the pace has no effect on it.
#[derive(Debug)]
pub struct RenderOpts {
    pub format: Option<String>,
    pub tooltip_format: Option<String>,
    pub icon: Option<String>,
    pub pace_tolerance: i64,
    pub format_pace_color: bool,
    pub tooltip_pace_pts: bool,
}

/// A snapshot of any of the providers that the status bar has a module for.
#[derive(Debug)]
pub enum VendorSnapshot {
    Copilot(Snapshot),
}

/// A snapshot of this provider, and how it was come by.
#[derive(Debug)]
pub struct FetchOutcome<Age> {
    pub snapshot: Snapshot,
    /// The snapshot is an old one, for want of a new one.
    pub stale: bool,
    /// The code and the message of the last failure.
    pub last_error: Option<(i64, String)>,
    /// The age of the snapshot.
    pub cache_age: Age,
}

/// A snapshot of any provider, and how it was come by.
#[derive(Debug)]
pub struct VendorOutcome<Age> {
    pub snapshot: VendorSnapshot,
    /// The snapshot is an old one, for want of a new one.
    pub stale: bool,
    /// The code and the message of the last failure.
    pub last_error: Option<(i64, String)>,
    /// The age of the snapshot.
    pub cache_age: Age,
}

impl<Age> From<FetchOutcome<Age>> for VendorOutcome<Age> {
    fn from(outcome: FetchOutcome<Age>) -> (r: VendorOutcome<Age>) {
        VendorOutcome {
            snapshot: VendorSnapshot::Copilot(outcome.snapshot),
            stale: outcome.stale,
            last_error: outcome.last_error,
            cache_age: outcome.cache_age,
        }
    }
}

impl<Age> vstd::std_specs::convert::FromSpecImpl<FetchOutcome<Age>> for VendorOutcome<Age> {
    open spec fn obeys_from_spec() -> bool {
        true
    }

    open spec fn from_spec(outcome: FetchOutcome<Age>) -> VendorOutcome<Age> {
        VendorOutcome {
            snapshot: VendorSnapshot::Copilot(outcome.snapshot),
            stale: outcome.stale,
            last_error: outcome.last_error,
            cache_age: outcome.cache_age,
        }
    }
}

/// What the status bar shows.
#[derive(Debug)]
pub struct WaybarOutput<Class> {
    pub text: String,
    pub tooltip: String,
    pub class: Class,
}

/// The use of a quota in words.
pub open spec fn usage_words(quota: Quota) -> Seq<char> {
    let percentage = decimal(quota.used_percentage() as nat);
    if quota.unlimited {
        "Unlimited"@
    } else {
        match quota.used_text() {
            Some(used) => percentage + "% · "@ + used + " used"@,
            None => percentage + "% · "@ + fixed(quota.percent_remaining, false) + "% remaining"@,
        }
    }
}

/// Puts the use of a quota into words.
pub fn usage_text(quota: &Quota) -> (r: String)
    ensures
        r@ == usage_words(*quota),
{
    if quota.unlimited {
        return "Unlimited".to_owned();
    }
    let mut text: String = percent_text(quota);
    text.append("% · ");
    match quota.used_of_entitlement() {
        Some(used) => {
            text.append(used.as_str());
            text.append(" used");
        },
        None => {
            let left: String = fixed_text(&quota.percent_remaining, false);
            text.append(left.as_str());
            text.append("% remaining");
        },
    }
    text
}

/// The texts that a tooltip is made of, ready for markup.
#[derive(Debug)]
pub struct TooltipTexts {
    pub plan: String,
    /// The use of each quota that is shown.
    pub usages: Vec<String>,
    pub reset: String,
    /// The message of the last failure; of no account where none is shown.
    pub message: String,
    pub updated: String,
}

/// What [`TooltipTexts`] hold.
pub struct TooltipTextsView {
    pub plan: Seq<char>,
    pub usages: Seq<Seq<char>>,
    pub reset: Seq<char>,
    pub message: Seq<char>,
    pub updated: Seq<char>,
}

impl View for TooltipTexts {
    type V = TooltipTextsView;

    open spec fn view(&self) -> TooltipTextsView {
        TooltipTextsView {
            plan: self.plan@,
            usages: self.usages@.map_values(|usage: String| usage@),
            reset: self.reset@,
            message: self.message@,
            updated: self.updated@,
        }
    }
}

/// The code of the last failure, where the tooltip tells of it.
pub open spec fn failure_code<Age>(outcome: VendorOutcome<Age>) -> Option<i64> {
    match outcome.last_error {
        Some((code, _)) => if code != 0 {
            Some(code)
        } else {
            None
        },
        None => None,
    }
}

/// The message of the last failure.
pub open spec fn failure_message<Age>(outcome: VendorOutcome<Age>) -> Seq<char> {
    match outcome.last_error {
        Some((_, message)) => message@,
        None => seq![],
    }
}

/// The lines that tell of an old snapshot.
pub open spec fn stale_lines(stale: bool, theme: Theme) -> Seq<LineView> {
    if stale {
        seq![
            LineView::Body(""@),
            LineView::Body(
                " <span foreground='"@ + theme.orange@ + "'>  ⏸  Showing cached data</span>"@,
            ),
        ]
    } else {
        seq![]
    }
}

/// The lines that tell of a failure.
pub open spec fn failure_lines(
    code: Option<i64>,
    message: Seq<char>,
    theme: Theme,
) -> Seq<LineView> {
    match code {
        Some(code) => seq![
            LineView::Body(""@),
            LineView::Sep,
            LineView::Body(
                " <span foreground='"@ + theme.orange@ + "'>  HTTP "@ + signed_decimal(code as int)
                    + ": "@ + message + "</span>"@,
            ),
        ],
        None => seq![],
    }
}

/// The lines that tell of the quotas.
pub open spec fn usage_lines(
    shown: Seq<(Seq<char>, Quota)>,
    usages: Seq<Seq<char>>,
) -> Seq<LineView> {
    Seq::new(
        shown.len(),
        |i: int| LineView::Body("  "@ + shown[i].0 + "  "@ + usages[i]),
    )
}

/// The lines of the tooltip, made of the given texts.
pub open spec fn tooltip_view<Age>(
    outcome: VendorOutcome<Age>,
    snap: Snapshot,
    theme: Theme,
    texts: TooltipTextsView,
) -> Seq<LineView> {
    seq![
        LineView::Center(
            "<span font_weight='bold' foreground='"@ + theme.blue@ + "'>GitHub Copilot "@
                + texts.plan + "</span>"@,
        ),
        LineView::Sep,
        LineView::Body(""@),
    ] + usage_lines(snap.shown(), texts.usages) + seq![
        LineView::Body("  Resets  "@ + texts.reset),
    ] + stale_lines(outcome.stale, theme) + failure_lines(
        failure_code(outcome),
        texts.message,
        theme,
    ) + seq![
        LineView::Body(""@),
        LineView::Sep,
        LineView::Body(
            " <span foreground='"@ + theme.dim@ + "'>  Updated "@ + texts.updated + "</span>"@,
        ),
    ]
}

/// Joins texts around a colour: the start of a span, the colour, and the rest.
fn colored(start: &str, color: &str, rest: &str) -> (r: String)
    ensures
        r@ == start@ + color@ + rest@,
{
    let mut text: String = start.to_owned();
    text.append(color);
    text.append(rest);
    text
}

fn blank() -> (r: TooltipLine)
    ensures
        r@ == LineView::Body(""@),
{
    TooltipLine::Body("".to_owned())
}

fn push_line(lines: &mut Vec<TooltipLine>, line: TooltipLine)
    ensures
        lines_view(final(lines)@) == lines_view(old(lines)@).push(line@),
{
    lines.push(line);
    assert(lines_view(lines@) =~= lines_view(old(lines)@).push(line@));
}

/// Lays out the tooltip, given the texts that it is made of.
pub fn tooltip_lines<Age>(
    outcome: &VendorOutcome<Age>,
    snap: &Snapshot,
    theme: &Theme,
    texts: &TooltipTexts,
) -> (r: Vec<TooltipLine>)
    requires
        texts.usages@.len() == snap.shown().len(),
    ensures
        lines_view(r@) == tooltip_view(*outcome, *snap, *theme, texts@),
{
    let mut lines: Vec<TooltipLine> = Vec::new();
    let mut title: String = colored(
        "<span font_weight='bold' foreground='",
        theme.blue.as_str(),
        "'>GitHub Copilot ",
    );
    title.append(texts.plan.as_str());
    title.append("</span>");
    push_line(&mut lines, TooltipLine::Center(title));
    push_line(&mut lines, TooltipLine::Sep);
    push_line(&mut lines, blank());
    let ghost head = lines_view(lines@);
    let quotas: Vec<(&'static str, &Quota)> = snap.quotas();
    let mut i: usize = 0;
    let ghost all = usage_lines(snap.shown(), texts@.usages);
    assert(lines_view(lines@) =~= head + all.take(0));
    while i < quotas.len()
        invariant
            i <= quotas@.len() == snap.shown().len() == texts.usages@.len(),
            labelled(quotas@) == snap.shown(),
            all == usage_lines(snap.shown(), texts@.usages),
            lines_view(lines@) == head + all.take(i as int),
        decreases quotas@.len() - i,
    {
        let mut line: String = "  ".to_owned();
        line.append(quotas[i].0);
        line.append("  ");
        line.append(texts.usages[i].as_str());
        assert(labelled(quotas@)[i as int].0 == quotas@[i as int].0@);
        assert(all[i as int] == LineView::Body(line@));
        push_line(&mut lines, TooltipLine::Body(line));
        assert(head + all.take(i + 1) =~= (head + all.take(i as int)).push(all[i as int]));
        i = i + 1;
    }
    assert(all.take(i as int) =~= all);
    let mut resets: String = "  Resets  ".to_owned();
    resets.append(texts.reset.as_str());
    push_line(&mut lines, TooltipLine::Body(resets));
    let ghost upto_reset = lines_view(lines@);
    if outcome.stale {
        push_line(&mut lines, blank());
        let notice: String = colored(
            " <span foreground='",
            theme.orange.as_str(),
            "'>  ⏸  Showing cached data</span>",
        );
        push_line(&mut lines, TooltipLine::Body(notice));
    }
    assert(lines_view(lines@) =~= upto_reset + stale_lines(outcome.stale, *theme));
    let ghost upto_stale = lines_view(lines@);
    if let Some((code, _)) = &outcome.last_error {
        if *code != 0 {
            push_line(&mut lines, blank());
            push_line(&mut lines, TooltipLine::Sep);
            let mut failure: String = colored(
                " <span foreground='",
                theme.orange.as_str(),
                "'>  HTTP ",
            );
            let number: String = signed_decimal_text(*code);
            failure.append(number.as_str());
            failure.append(": ");
            failure.append(texts.message.as_str());
            failure.append("</span>");
            push_line(&mut lines, TooltipLine::Body(failure));
        }
    }
    assert(lines_view(lines@) =~= upto_stale + failure_lines(
        failure_code(*outcome),
        texts@.message,
        *theme,
    ));
    push_line(&mut lines, blank());
    push_line(&mut lines, TooltipLine::Sep);
    let mut updated: String = colored(" <span foreground='", theme.dim.as_str(), "'>  Updated ");
    updated.append(texts.updated.as_str());
    updated.append("</span>");
    push_line(&mut lines, TooltipLine::Body(updated));
    assert(lines_view(lines@) =~= tooltip_view(*outcome, *snap, *theme, texts@));
    lines
}

/// The headline: the icon if there is one, the text, and a mark for an old
/// snapshot.
pub open spec fn headline_words(
    icon: Option<Seq<char>>,
    text: Seq<char>,
    stale: bool,
) -> Seq<char> {
    (match icon {
        Some(icon) => icon + " "@,
        None => ""@,
    }) + (text + (if stale {
        " ⏸"@
    } else {
        ""@
    }))
}

/// Lays out the headline, given the icon and the text that are ready for
/// markup.
pub fn headline(icon: Option<String>, text: String, stale: bool) -> (r: String)
    ensures
        r@ == headline_words(text_of(icon), text@, stale),
{
    proof {
        reveal_strlit("");
    }
    let mut line: String = String::new();
    if let Some(icon) = &icon {
        line.append(icon.as_str());
        line.append(" ");
    }
    line.append(text.as_str());
    if stale {
        line.append(" ⏸");
    }
    assert(line@ =~= headline_words(text_of(icon), text@, stale));
    line
}

/// The texts of the tooltip are such as the functions may give: the plan made
/// safe and escaped, the use of each quota escaped, the words for the reset
/// escaped, the message escaped where a failure is told of, and the time of the
/// update.
pub open spec fn tooltip_texts_given<
    Age,
    Countdown: Fn(Option<Instant>, Instant) -> String,
    Sanitize: Fn(&str) -> String,
    Escape: Fn(&str) -> String,
    UpdatedAt: Fn(Instant, Age) -> String,
>(
    outcome: VendorOutcome<Age>,
    snap: Snapshot,
    now: Instant,
    countdown: Countdown,
    sanitize: Sanitize,
    escape: Escape,
    updated_at: UpdatedAt,
    texts: TooltipTextsView,
) -> bool {
    &&& exists|plan: Seq<char>| #[trigger]
        text_given(sanitize, snap.plan@, plan) && text_given(escape, plan, texts.plan)
    &&& texts.usages.len() == snap.shown().len()
    &&& forall|i: int|
        0 <= i < texts.usages.len() ==> text_given(
            escape,
            usage_words(snap.shown()[i].1),
            #[trigger] texts.usages[i],
        )
    &&& exists|words: Seq<char>| #[trigger]
        countdown_given(countdown, snap.reset_at, now, words) && text_given(
            escape,
            words,
            texts.reset,
        )
    &&& failure_code(outcome) is Some ==> text_given(
        escape,
        failure_message(outcome),
        texts.message,
    )
    &&& update_given(updated_at, now, outcome.cache_age, texts.updated)
}

/// A tooltip that the functions may give.
pub open spec fn tooltip_given<
    Age,
    Countdown: Fn(Option<Instant>, Instant) -> String,
    Sanitize: Fn(&str) -> String,
    Escape: Fn(&str) -> String,
    UpdatedAt: Fn(Instant, Age) -> String,
    Bordered: Fn(&Vec<TooltipLine>, &Theme) -> String,
>(
    outcome: VendorOutcome<Age>,
    snap: Snapshot,
    theme: Theme,
    now: Instant,
    countdown: Countdown,
    sanitize: Sanitize,
    escape: Escape,
    updated_at: UpdatedAt,
    bordered: Bordered,
    output: Seq<char>,
) -> bool {
    exists|texts: TooltipTextsView| #[trigger]
        tooltip_texts_given(
            outcome,
            snap,
            now,
            countdown,
            sanitize,
            escape,
            updated_at,
            texts,
        ) && frame_given(bordered, tooltip_view(outcome, snap, theme, texts), theme, output)
}

/// The use of each quota that is shown, ready for markup.
fn escaped_usages<Escape: Fn(&str) -> String>(snap: &Snapshot, escape: &Escape) -> (r: Vec<String>)
    requires
        forall|text: &str| escape.requires((text,)),
    ensures
        r@.len() == snap.shown().len(),
        forall|i: int|
            0 <= i < r@.len() ==> text_given(
                *escape,
                usage_words(snap.shown()[i].1),
                #[trigger] r@[i]@,
            ),
{
    let quotas: Vec<(&'static str, &Quota)> = snap.quotas();
    let mut usages: Vec<String> = Vec::new();
    let mut i: usize = 0;
    while i < quotas.len()
        invariant
            i <= quotas@.len(),
            usages@.len() == i,
            labelled(quotas@) == snap.shown(),
            forall|text: &str| escape.requires((text,)),
            forall|j: int|
                0 <= j < i ==> text_given(
                    *escape,
                    usage_words(snap.shown()[j].1),
                    #[trigger] usages@[j]@,
                ),
        decreases quotas@.len() - i,
    {
        let words: String = usage_text(quotas[i].1);
        assert(labelled(quotas@)[i as int].1 == *quotas@[i as int].1);
        let usage: String = escape(words.as_str());
        assert(text_given(*escape, words@, usage@));
        usages.push(usage);
        i = i + 1;
    }
    usages
}

/// Lays out the tooltip.
fn render_tooltip<
    Age: Copy,
    Countdown: Fn(Option<Instant>, Instant) -> String,
    Sanitize: Fn(&str) -> String,
    Escape: Fn(&str) -> String,
    UpdatedAt: Fn(Instant, Age) -> String,
    Bordered: Fn(&Vec<TooltipLine>, &Theme) -> String,
>(
    outcome: &VendorOutcome<Age>,
    snap: &Snapshot,
    theme: &Theme,
    now: Instant,
    countdown: &Countdown,
    sanitize: &Sanitize,
    escape: &Escape,
    updated_at: &UpdatedAt,
    bordered: &Bordered,
) -> (r: String)
    requires
        forall|at: Option<Instant>, now: Instant| countdown.requires((at, now)),
        forall|text: &str| sanitize.requires((text,)),
        forall|text: &str| escape.requires((text,)),
        forall|now: Instant, age: Age| updated_at.requires((now, age)),
        forall|lines: &Vec<TooltipLine>, theme: &Theme| bordered.requires((lines, theme)),
    ensures
        tooltip_given(
            *outcome,
            *snap,
            *theme,
            now,
            *countdown,
            *sanitize,
            *escape,
            *updated_at,
            *bordered,
            r@,
        ),
{
    let safe: String = sanitize(snap.plan.as_str());
    let plan: String = escape(safe.as_str());
    let usages: Vec<String> = escaped_usages(snap, escape);
    let words: String = countdown(snap.reset_at, now);
    let reset: String = escape(words.as_str());
    let mut message: String = String::new();
    if let Some((code, text)) = &outcome.last_error {
        if *code != 0 {
            message = escape(text.as_str());
            assert(text_given(*escape, text@, message@));
        }
    }
    let updated: String = updated_at(now, outcome.cache_age);
    let texts: TooltipTexts = TooltipTexts { plan, usages, reset, message, updated };
    let lines: Vec<TooltipLine> = tooltip_lines(outcome, snap, theme, &texts);
    let tooltip: String = bordered(&lines, theme);
    proof {
        assert(text_given(*sanitize, snap.plan@, safe@));
        assert(text_given(*escape, safe@, texts.plan@));
        assert(countdown_given(*countdown, snap.reset_at, now, words@));
        assert(text_given(*escape, words@, texts.reset@));
        assert forall|i: int| 0 <= i < texts@.usages.len() implies text_given(
            *escape,
            usage_words(snap.shown()[i].1),
            #[trigger] texts@.usages[i],
        ) by {
            assert(texts@.usages[i] == texts.usages@[i]@);
        }
        assert(tooltip_texts_given(
            *outcome,
            *snap,
            now,
            *countdown,
            *sanitize,
            *escape,
            *updated_at,
            texts@,
        ));
        assert(frame_given(*bordered, lines_view(lines@), *theme, tooltip@));
    }
    tooltip
}

/// The icon to show, if one is set.
pub open spec fn icon_set(opts: RenderOpts) -> Option<Seq<char>> {
    match opts.icon {
        Some(icon) => if icon@.len() > 0 {
            Some(icon@)
        } else {
            None
        },
        None => None,
    }
}

/// The format of the headline.
pub open spec fn format_set(opts: RenderOpts) -> Seq<char> {
    match text_of(opts.format) {
        Some(format) => format,
        None => DEFAULT_FORMAT@,
    }
}

/// The values of the placeholders in markup, where the plan is escaped.
pub open spec fn markup_values(
    values: Map<Seq<char>, Seq<char>>,
    plan: Seq<char>,
) -> Map<Seq<char>, Seq<char>> {
    values.insert("plan"@, plan).insert("copilot_plan"@, plan)
}

/// Texts on the way to what the status bar shows.
pub struct RenderTexts {
    /// The plan, safe to show.
    pub plan: Seq<char>,
    /// The words for the reset.
    pub reset: Seq<char>,
    /// The values of the placeholders.
    pub values: Map<Seq<char>, Seq<char>>,
    /// The plan, escaped.
    pub escaped_plan: Seq<char>,
    /// The text of the headline.
    pub text: Seq<char>,
    /// The icon, escaped.
    pub icon: Option<Seq<char>>,
    /// The colour of the headline.
    pub color: Seq<char>,
}

/// What the status bar shows is such as the functions may give, by way of the
/// given texts and severity.
pub open spec fn output_given<
    Age,
    Severity,
    Class,
    Countdown: Fn(Option<Instant>, Instant) -> String,
    Sanitize: Fn(&str) -> String,
    Escape: Fn(&str) -> String,
    Substitute: Fn(&str, &Placeholders) -> String,
    UpdatedAt: Fn(Instant, Age) -> String,
    Bordered: Fn(&Vec<TooltipLine>, &Theme) -> String,
    SeverityFor: Fn(i32) -> Severity,
    SeverityColor: Fn(Severity, &Theme) -> String,
    ColorSpan: Fn(&str, &str) -> String,
    ClassOf: Fn(Severity) -> Class,
>(
    outcome: VendorOutcome<Age>,
    snap: Snapshot,
    theme: Theme,
    opts: RenderOpts,
    now: Instant,
    kit: Toolkit<
        Countdown,
        Sanitize,
        Escape,
        Substitute,
        UpdatedAt,
        Bordered,
        SeverityFor,
        SeverityColor,
        ColorSpan,
        ClassOf,
    >,
    texts: RenderTexts,
    severity: Severity,
    output: WaybarOutput<Class>,
) -> bool {
    let values = markup_values(texts.values, texts.escaped_plan);
    &&& kit.severity_for.ensures((snap.worst() as i32,), severity)
    &&& placeholders_given(
        snap,
        now,
        kit.countdown,
        kit.sanitize,
        texts.plan,
        texts.reset,
        texts.values,
    )
    &&& text_given(kit.escape, texts.plan, texts.escaped_plan)
    &&& substitution_given(kit.substitute, format_set(opts), values, texts.text)
    &&& match (icon_set(opts), texts.icon) {
        (Some(icon), Some(escaped)) => text_given(kit.escape, icon, escaped),
        (None, None) => true,
        _ => false,
    }
    &&& color_given(kit.severity_color, severity, theme, texts.color)
    &&& span_given(
        kit.color_span,
        texts.color,
        headline_words(texts.icon, texts.text, outcome.stale),
        output.text@,
    )
    &&& match text_of(opts.tooltip_format) {
        Some(format) => substitution_given(kit.substitute, format, values, output.tooltip@),
        None => tooltip_given(
            outcome,
            snap,
            theme,
            now,
            kit.countdown,
            kit.sanitize,
            kit.escape,
            kit.updated_at,
            kit.bordered,
            output.tooltip@,
        ),
    }
    &&& kit.class_of.ensures((severity,), output.class)
}

/// Lays out the module: the headline in the colour of the worst quota, the
/// tooltip, and the style class.
pub fn render<
    Age: Copy,
    Severity: Copy,
    Class,
    Countdown: Fn(Option<Instant>, Instant) -> String,
    Sanitize: Fn(&str) -> String,
    Escape: Fn(&str) -> String,
    Substitute: Fn(&str, &Placeholders) -> String,
    UpdatedAt: Fn(Instant, Age) -> String,
    Bordered: Fn(&Vec<TooltipLine>, &Theme) -> String,
    SeverityFor: Fn(i32) -> Severity,
    SeverityColor: Fn(Severity, &Theme) -> String,
    ColorSpan: Fn(&str, &str) -> String,
    ClassOf: Fn(Severity) -> Class,
>(
    outcome: &VendorOutcome<Age>,
    snap: &Snapshot,
    theme: &Theme,
    opts: &RenderOpts,
    now: Instant,
    kit: &Toolkit<
        Countdown,
        Sanitize,
        Escape,
        Substitute,
        UpdatedAt,
        Bordered,
        SeverityFor,
        SeverityColor,
        ColorSpan,
        ClassOf,
    >,
) -> (r: WaybarOutput<Class>)
    requires
        forall|at: Option<Instant>, now: Instant| kit.countdown.requires((at, now)),
        forall|text: &str| kit.sanitize.requires((text,)),
        forall|text: &str| kit.escape.requires((text,)),
        forall|format: &str, values: &Placeholders| kit.substitute.requires((format, values)),
        forall|now: Instant, age: Age| kit.updated_at.requires((now, age)),
        forall|lines: &Vec<TooltipLine>, theme: &Theme| kit.bordered.requires((lines, theme)),
        forall|percentage: i32| kit.severity_for.requires((percentage,)),
        forall|severity: Severity, theme: &Theme| kit.severity_color.requires((severity, theme)),
        forall|color: &str, text: &str| kit.color_span.requires((color, text)),
        forall|severity: Severity| kit.class_of.requires((severity,)),
    ensures
        exists|texts: RenderTexts, severity: Severity| #[trigger]
            output_given(*outcome, *snap, *theme, *opts, now, *kit, texts, severity, r),
{
    let level: Severity = severity(snap, &kit.severity_for);
    let mut values: Placeholders = build_placeholders(snap, now, &kit.countdown, &kit.sanitize);
    let ghost plain = values@;
    let ghost (plan, reset): (Seq<char>, Seq<char>) = choose|plan: Seq<char>, reset: Seq<char>|
        #[trigger]
        placeholders_given(*snap, now, kit.countdown, kit.sanitize, plan, reset, plain);
    proof {
        lemma_plan_placeholder(*snap, plan, reset);
    }
    let escaped_plan: String = match values.get("plan") {
        Some(plan) => (kit.escape)(plan.as_str()),
        None => String::new(),
    };
    assert(text_given(kit.escape, plan, escaped_plan@));
    values.insert("plan", escaped_plan.clone());
    values.insert("copilot_plan", escaped_plan.clone());
    let text: String = match &opts.format {
        Some(format) => (kit.substitute)(format.as_str(), &values),
        None => (kit.substitute)(DEFAULT_FORMAT, &values),
    };
    assert(substitution_given(kit.substitute, format_set(*opts), values@, text@));
    let mut icon: Option<String> = None;
    if let Some(set) = &opts.icon {
        if !set.as_str().is_empty() {
            let escaped: String = (kit.escape)(set.as_str());
            assert(text_given(kit.escape, set@, escaped@));
            icon = Some(escaped);
        }
    }
    let tooltip: String = match &opts.tooltip_format {
        Some(format) => {
            let tooltip: String = (kit.substitute)(format.as_str(), &values);
            assert(substitution_given(kit.substitute, format@, values@, tooltip@));
            tooltip
        },
        None => render_tooltip(
            outcome,
            snap,
            theme,
            now,
            &kit.countdown,
            &kit.sanitize,
            &kit.escape,
            &kit.updated_at,
            &kit.bordered,
        ),
    };
    let ghost texts = RenderTexts {
        plan,
        reset,
        values: plain,
        escaped_plan: escaped_plan@,
        text: text@,
        icon: text_of(icon),
        color: Seq::empty(),
    };
    let line: String = headline(icon, text, outcome.stale);
    let color: String = (kit.severity_color)(level, theme);
    let span: String = (kit.color_span)(color.as_str(), line.as_str());
    let class: Class = (kit.class_of)(level);
    let output: WaybarOutput<Class> = WaybarOutput { text: span, tooltip, class };
    proof {
        let texts = RenderTexts { color: color@, ..texts };
        assert(color_given(kit.severity_color, level, *theme, texts.color));
        assert(span_given(
            kit.color_span,
            texts.color,
            headline_words(texts.icon, texts.text, outcome.stale),
            output.text@,
        ));
        assert(output_given(*outcome, *snap, *theme, *opts, now, *kit, texts, level, output));
    }
    output
}

} // verus!
