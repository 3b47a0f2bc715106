//! What holds of the lines, texts and colours that are shown, in terms of the
//! outcome, the options and what the status bar's functions give.

use crate::decimal::signed_decimal;
use crate::laws::answers_alike;
use crate::placeholders::Placeholders;
use crate::reset::Instant;
use crate::toolkit::{
    color_given, countdown_given, frame_given, lines_view, span_given, substitution_given,
    text_given, update_given, LineView, Theme, Toolkit, TooltipLine,
};
use crate::types::Snapshot;
use crate::vendor::{
    headline_words, lemma_placeholder_names, markup_values, output_given, placeholder_texts,
    placeholders_given, tooltip_texts_given, tooltip_view, usage_words,
    FetchOutcome, QuotaValues, RenderOpts, RenderTexts, TooltipTexts, TooltipTextsView,
    VendorOutcome, VendorSnapshot, WaybarOutput,
};
use vstd::prelude::*;
use vstd::std_specs::convert::FromSpec;

verus! {

/// The last fetch failed with a code that is not zero.
pub open spec fn failed<Age>(outcome: VendorOutcome<Age>) -> bool {
    outcome.last_error matches Some((code, _)) && code != 0
}

/// The body line that tells of cached data, in the orange of a theme.
pub open spec fn cached_notice(theme: Theme) -> LineView {
    LineView::Body(" <span foreground='"@ + theme.orange@ + "'>  ⏸  Showing cached data</span>"@)
}

/// The start of the body line that tells of a failure, in the orange of a theme.
pub open spec fn failure_start(theme: Theme) -> Seq<char> {
    " <span foreground='"@ + theme.orange@ + "'>  HTTP "@
}

/// The body line that tells of a failure by its code and message.
pub open spec fn failure_notice(theme: Theme, code: i64, message: Seq<char>) -> LineView {
    LineView::Body(
        failure_start(theme) + signed_decimal(code as int) + ": "@ + message + "</span>"@,
    )
}

/// The body line that tells of the update, in the dim colour of a theme.
pub open spec fn update_text(theme: Theme, updated: Seq<char>) -> Seq<char> {
    " <span foreground='"@ + theme.dim@ + "'>  Updated "@ + updated + "</span>"@
}

/// How many lines tell of cached data.
pub open spec fn cached_count(stale: bool) -> int {
    if stale {
        2
    } else {
        0
    }
}

/// How many lines tell of a failure.
pub open spec fn failure_count(failed: bool) -> int {
    if failed {
        3
    } else {
        0
    }
}

/// The tooltip is made of these lines, in this order, and of no others: the title
/// with the plan, a separator and a blank; a line for each quota that is shown; the
/// reset; for an old snapshot a blank and the notice of cached data, whether or not
/// there was a failure; for a failure a blank, a separator and its code and message,
/// whether or not the snapshot is old; at last a blank, a separator and the update.
pub proof fn law_tooltip_lines<Age>(
    outcome: VendorOutcome<Age>,
    snap: Snapshot,
    theme: Theme,
    texts: TooltipTextsView,
)
    ensures
        ({
            let lines = tooltip_view(outcome, snap, theme, texts);
            let n = snap.shown().len() as int;
            let k = n + 4 + cached_count(outcome.stale);
            let end = k + failure_count(failed(outcome));
            &&& lines.len() == end + 3
            &&& lines[0] == LineView::Center(
                "<span font_weight='bold' foreground='"@ + theme.blue@ + "'>GitHub Copilot "@
                    + texts.plan + "</span>"@,
            )
            &&& lines[1] == LineView::Sep
            &&& lines[2] == LineView::Body(""@)
            &&& forall|i: int|
                #![trigger snap.shown()[i]]
                0 <= i < n ==> lines[3 + i] == LineView::Body(
                    "  "@ + snap.shown()[i].0 + "  "@ + texts.usages[i],
                )
            &&& lines[3 + n] == LineView::Body("  Resets  "@ + texts.reset)
            &&& outcome.stale ==> lines[n + 4] == LineView::Body(""@) && lines[n + 5]
                == cached_notice(theme)
            &&& outcome.last_error matches Some((code, _)) ==> code != 0 ==> lines[k]
                == LineView::Body(""@) && lines[k + 1] == LineView::Sep && lines[k + 2]
                == failure_notice(theme, code, texts.message)
            &&& lines[end] == LineView::Body(""@)
            &&& lines[end + 1] == LineView::Sep
            &&& lines[end + 2] == LineView::Body(update_text(theme, texts.updated))
        }),
{
    let lines = tooltip_view(outcome, snap, theme, texts);
    assert forall|i: int|
        #![trigger snap.shown()[i]]
        0 <= i < snap.shown().len() implies lines[3 + i] == LineView::Body(
        "  "@ + snap.shown()[i].0 + "  "@ + texts.usages[i],
    ) by {}
}

/// The tooltips of an old and of a new snapshot, all else alike, differ by the two
/// lines that tell of cached data alone, whatever failure there was.
pub proof fn law_cached_lines_alone<Age>(
    old_outcome: VendorOutcome<Age>,
    new_outcome: VendorOutcome<Age>,
    snap: Snapshot,
    theme: Theme,
    texts: TooltipTextsView,
)
    requires
        old_outcome.stale,
        !new_outcome.stale,
        old_outcome.last_error == new_outcome.last_error,
    ensures
        ({
            let lines = tooltip_view(new_outcome, snap, theme, texts);
            let k = snap.shown().len() + 4;
            tooltip_view(old_outcome, snap, theme, texts) == lines.take(k as int) + seq![
                LineView::Body(""@),
                cached_notice(theme),
            ] + lines.skip(k as int)
        }),
{
    let lines = tooltip_view(new_outcome, snap, theme, texts);
    let k = snap.shown().len() + 4;
    assert(tooltip_view(old_outcome, snap, theme, texts) =~= lines.take(k as int) + seq![
        LineView::Body(""@),
        cached_notice(theme),
    ] + lines.skip(k as int));
}

/// The tooltips after a failure and without one, all else alike, differ by the three
/// lines that tell of the failure alone, whether or not the snapshot is old.
pub proof fn law_failure_lines_alone<Age>(
    outcome: VendorOutcome<Age>,
    other: VendorOutcome<Age>,
    code: i64,
    message: String,
    snap: Snapshot,
    theme: Theme,
    texts: TooltipTextsView,
)
    requires
        outcome.last_error == Some((code, message)),
        code != 0,
        !failed(other),
        outcome.stale == other.stale,
    ensures
        ({
            let lines = tooltip_view(other, snap, theme, texts);
            let k = lines.len() - 3;
            tooltip_view(outcome, snap, theme, texts) == lines.take(k) + seq![
                LineView::Body(""@),
                LineView::Sep,
                failure_notice(theme, code, texts.message),
            ] + lines.skip(k)
        }),
{
    let lines = tooltip_view(other, snap, theme, texts);
    let k = lines.len() - 3;
    assert(tooltip_view(outcome, snap, theme, texts) =~= lines.take(k) + seq![
        LineView::Body(""@),
        LineView::Sep,
        failure_notice(theme, code, texts.message),
    ] + lines.skip(k));
}

proof fn lemma_line_starts(theme: Theme, code: i64, message: Seq<char>, rest: Seq<char>)
    ensures
        cached_notice(theme) != LineView::Body(""@),
        cached_notice(theme) != LineView::Body("  "@ + rest),
        cached_notice(theme) != LineView::Body("  Resets  "@ + rest),
        cached_notice(theme) != failure_notice(theme, code, message),
        !failure_start(theme).is_prefix_of(""@),
        !failure_start(theme).is_prefix_of("  "@ + rest),
        !failure_start(theme).is_prefix_of("  Resets  "@ + rest),
        !failure_start(theme).is_prefix_of(cached_notice(theme)->Body_0),
        failure_start(theme).is_prefix_of(failure_notice(theme, code, message)->Body_0),
{
    reveal_strlit(" <span foreground='");
    reveal_strlit("'>  ⏸  Showing cached data</span>");
    reveal_strlit("'>  HTTP ");
    reveal_strlit("");
    reveal_strlit("  ");
    reveal_strlit("  Resets  ");
    let start = failure_start(theme);
    let notice = cached_notice(theme)->Body_0;
    let failure = failure_notice(theme, code, message)->Body_0;
    let place = " <span foreground='"@.len() + theme.orange@.len() + 4;
    assert(notice.len() > place && start.len() > place && failure.len() > place);
    assert(notice[place as int] == '⏸');
    assert(start[place as int] == 'H');
    assert(failure[place as int] == 'H');
    assert(notice[1] == '<' && start[1] == '<');
    assert(("  "@ + rest)[1] == ' ');
    assert(("  Resets  "@ + rest)[1] == ' ');
    assert(failure.take(start.len() as int) =~= start);
    assert forall|t: Seq<char>| #[trigger] start.is_prefix_of(t) implies t.len() >= start.len()
        && t[1] == '<' && t[place as int] == 'H' by {
        assert(t.take(start.len() as int)[1] == start[1]);
        assert(t.take(start.len() as int)[place as int] == start[place as int]);
    }
}

/// The tooltip tells of cached data exactly where the snapshot is old, whatever
/// the last failure was. The line of the update is the only other one that could
/// read the same, for an odd colour and time of day; that it does not is asked for.
pub proof fn law_cached_data_is_told_where_stale<Age>(
    outcome: VendorOutcome<Age>,
    snap: Snapshot,
    theme: Theme,
    texts: TooltipTextsView,
)
    requires
        LineView::Body(update_text(theme, texts.updated)) != cached_notice(theme),
    ensures
        tooltip_view(outcome, snap, theme, texts).contains(cached_notice(theme)) <==> outcome.stale,
{
    let lines = tooltip_view(outcome, snap, theme, texts);
    let n = snap.shown().len() as int;
    law_tooltip_lines(outcome, snap, theme, texts);
    if outcome.stale {
        assert(lines[n + 5] == cached_notice(theme));
    } else {
        assert forall|i: int| 0 <= i < lines.len() implies lines[i] != cached_notice(theme) by {
            lemma_line_starts(theme, 0, texts.message, texts.reset);
            if 3 <= i < n + 3 {
                let shown = snap.shown()[i - 3];
                assert(lines[3 + (i - 3)] == lines[i]);
                assert("  "@ + shown.0 + "  "@ + texts.usages[i - 3] =~= "  "@ + (shown.0 + "  "@
                    + texts.usages[i - 3]));
                lemma_line_starts(theme, 0, texts.message, shown.0 + "  "@ + texts.usages[i - 3]);
            }
            if let Some((code, _)) = outcome.last_error {
                lemma_line_starts(theme, code, texts.message, texts.reset);
            }
        }
    }
}

/// The tooltip tells of a failure exactly where the last fetch failed with a code
/// that is not zero, whether or not the snapshot is old, and then by that code and
/// the message. The line of the update is the only other one that could start the
/// same, for an odd colour and time of day; that it does not is asked for.
pub proof fn law_failure_is_told_where_there_was_one<Age>(
    outcome: VendorOutcome<Age>,
    snap: Snapshot,
    theme: Theme,
    texts: TooltipTextsView,
)
    requires
        !failure_start(theme).is_prefix_of(update_text(theme, texts.updated)),
    ensures
        (exists|i: int|
            0 <= i < tooltip_view(outcome, snap, theme, texts).len() && (
            #[trigger] tooltip_view(outcome, snap, theme, texts)[i] matches LineView::Body(text)
                && failure_start(theme).is_prefix_of(text))) <==> failed(outcome),
        outcome.last_error matches Some((code, _)) ==> code != 0 ==> tooltip_view(
            outcome,
            snap,
            theme,
            texts,
        ).contains(failure_notice(theme, code, texts.message)),
{
    let lines = tooltip_view(outcome, snap, theme, texts);
    let n = snap.shown().len() as int;
    law_tooltip_lines(outcome, snap, theme, texts);
    let k = n + 4 + cached_count(outcome.stale);
    if let Some((code, _)) = outcome.last_error {
        if code != 0 {
            lemma_line_starts(theme, code, texts.message, texts.reset);
            assert(lines[k + 2] == failure_notice(theme, code, texts.message));
        }
    }
    if !failed(outcome) {
        assert forall|i: int| 0 <= i < lines.len() implies !(#[trigger] lines[i] matches
            LineView::Body(text) && failure_start(theme).is_prefix_of(text)) by {
            lemma_line_starts(theme, 0, texts.message, texts.reset);
            if 3 <= i < n + 3 {
                let shown = snap.shown()[i - 3];
                assert(lines[3 + (i - 3)] == lines[i]);
                assert("  "@ + shown.0 + "  "@ + texts.usages[i - 3] =~= "  "@ + (shown.0 + "  "@
                    + texts.usages[i - 3]));
                lemma_line_starts(theme, 0, texts.message, shown.0 + "  "@ + texts.usages[i - 3]);
            }
        }
    }
}

/// The texts of a tooltip come from what they tell of: the plan made safe and then
/// escaped; for each quota that is shown the words for its use, escaped; the words
/// for the time from now to the reset, escaped; after a failure its message,
/// escaped, whether or not the snapshot is old; and the time of the update, by the
/// age of the snapshot.
pub proof fn law_tooltip_texts<
    Age,
    Countdown: Fn(Option<Instant>, Instant) -> String,
    Sanitize: Fn(&str) -> String,
    Escape: Fn(&str) -> String,
    UpdatedAt: Fn(Instant, Age) -> String,
>(
    outcome: VendorOutcome<Age>,
    snap: Snapshot,
    now: Instant,
    countdown: Countdown,
    sanitize: Sanitize,
    escape: Escape,
    updated_at: UpdatedAt,
    texts: TooltipTextsView,
)
    requires
        tooltip_texts_given(
            outcome,
            snap,
            now,
            countdown,
            sanitize,
            escape,
            updated_at,
            texts,
        ),
    ensures
        exists|safe: Seq<char>| #[trigger]
            text_given(sanitize, snap.plan@, safe) && text_given(escape, safe, texts.plan),
        texts.usages.len() == snap.shown().len(),
        forall|i: int|
            #![trigger texts.usages[i]]
            0 <= i < snap.shown().len() ==> text_given(
                escape,
                usage_words(snap.shown()[i].1),
                texts.usages[i],
            ),
        exists|words: Seq<char>| #[trigger]
            countdown_given(countdown, snap.reset_at, now, words) && text_given(
                escape,
                words,
                texts.reset,
            ),
        outcome.last_error matches Some((code, message)) ==> code != 0 ==> text_given(
            escape,
            message@,
            texts.message,
        ),
        update_given(updated_at, now, outcome.cache_age, texts.updated),
{
}

/// The placeholders of a snapshot are those for its plan made safe and for the words
/// for the time from now to its reset.
pub proof fn law_placeholders_given<
    Countdown: Fn(Option<Instant>, Instant) -> String,
    Sanitize: Fn(&str) -> String,
>(
    snap: Snapshot,
    now: Instant,
    countdown: Countdown,
    sanitize: Sanitize,
    plan: Seq<char>,
    reset: Seq<char>,
    values: Map<Seq<char>, Seq<char>>,
)
    requires
        placeholders_given(snap, now, countdown, sanitize, plan, reset, values),
    ensures
        text_given(sanitize, snap.plan@, plan),
        countdown_given(countdown, snap.reset_at, now, reset),
        values == placeholder_texts(snap, plan, reset),
{
}

/// The placeholders in markup are the placeholders for a plan that is escaped.
pub proof fn law_markup_is_for_an_escaped_plan(
    snap: Snapshot,
    plan: Seq<char>,
    reset: Seq<char>,
    escaped: Seq<char>,
)
    ensures
        markup_values(placeholder_texts(snap, plan, reset), escaped) == placeholder_texts(
            snap,
            escaped,
            reset,
        ),
{
    lemma_placeholder_names();
    let a = markup_values(placeholder_texts(snap, plan, reset), escaped);
    let b = placeholder_texts(snap, escaped, reset);
    assert(a.dom() =~= b.dom());
    assert(a =~= b);
}

/// The provider has one sign and one short name, whatever the snapshot.
pub proof fn law_provider_signs(snap: Snapshot, plan: Seq<char>, reset: Seq<char>)
    ensures
        placeholder_texts(snap, plan, reset)["icon"@] == "󰊤"@,
        placeholder_texts(snap, plan, reset)["vendor_short"@] == "ghc"@,
{
    lemma_placeholder_names();
}

/// A headline is its text; an icon stands before it with a space between, and an old
/// snapshot puts its mark behind it, the one whether or not there is the other.
pub proof fn law_headline(icon: Seq<char>, text: Seq<char>, stale: bool)
    ensures
        headline_words(None, text, false) == text,
        headline_words(Some(icon), text, stale) == icon + " "@ + headline_words(None, text, stale),
        headline_words(None, text, true) == text + " ⏸"@,
        headline_words(Some(icon), text, true) == headline_words(Some(icon), text, false) + " ⏸"@,
{
    reveal_strlit("");
    assert(headline_words(None, text, false) =~= text);
    assert(headline_words(None, text, true) =~= text + " ⏸"@);
    assert(headline_words(Some(icon), text, stale) =~= icon + " "@ + headline_words(
        None,
        text,
        stale,
    ));
    assert(headline_words(Some(icon), text, true) =~= headline_words(Some(icon), text, false)
        + " ⏸"@);
}

/// The mark for an old snapshot, if it is one.
pub open spec fn stale_mark(stale: bool) -> Seq<char> {
    if stale {
        seq![' ', '⏸']
    } else {
        seq![]
    }
}

/// The text that is put into colour is the substituted format, with the mark for an
/// old snapshot behind it exactly where the snapshot is old, whatever the options
/// are. An icon that is set and not empty stands escaped before it, with a space
/// between; no other icon does. The format is the one that is set or else the default
/// one, and the colour is that of the severity of the worst percentage in the theme.
pub proof fn law_rendered_text<
    Age,
    Severity,
    Class,
    Countdown: Fn(Option<Instant>, Instant) -> String,
    Sanitize: Fn(&str) -> String,
    Escape: Fn(&str) -> String,
    Substitute: Fn(&str, &Placeholders) -> String,
    UpdatedAt: Fn(Instant, Age) -> String,
    Bordered: Fn(&Vec<TooltipLine>, &Theme) -> String,
    SeverityFor: Fn(i32) -> Severity,
    SeverityColor: Fn(Severity, &Theme) -> String,
    ColorSpan: Fn(&str, &str) -> String,
    ClassOf: Fn(Severity) -> Class,
>(
    outcome: VendorOutcome<Age>,
    snap: Snapshot,
    theme: Theme,
    opts: RenderOpts,
    now: Instant,
    kit: Toolkit<
        Countdown,
        Sanitize,
        Escape,
        Substitute,
        UpdatedAt,
        Bordered,
        SeverityFor,
        SeverityColor,
        ColorSpan,
        ClassOf,
    >,
    texts: RenderTexts,
    severity: Severity,
    output: WaybarOutput<Class>,
)
    requires
        output_given(outcome, snap, theme, opts, now, kit, texts, severity, output),
    ensures
        text_given(kit.sanitize, snap.plan@, texts.plan),
        text_given(kit.escape, texts.plan, texts.escaped_plan),
        countdown_given(kit.countdown, snap.reset_at, now, texts.reset),
        opts.format matches Some(format) ==> substitution_given(
            kit.substitute,
            format@,
            placeholder_texts(snap, texts.escaped_plan, texts.reset),
            texts.text,
        ),
        opts.format is None ==> substitution_given(
            kit.substitute,
            "{copilot_pct}% · {copilot_reset}"@,
            placeholder_texts(snap, texts.escaped_plan, texts.reset),
            texts.text,
        ),
        kit.severity_for.ensures((snap.worst() as i32,), severity),
        color_given(kit.severity_color, severity, theme, texts.color),
        kit.class_of.ensures((severity,), output.class),
        opts.icon matches Some(icon) ==> icon@.len() > 0 ==> exists|escaped: Seq<char>| #[trigger]
            text_given(kit.escape, icon@, escaped) && span_given(
                kit.color_span,
                texts.color,
                escaped + seq![' '] + texts.text + stale_mark(outcome.stale),
                output.text@,
            ),
        opts.icon is None || opts.icon->0@.len() == 0 ==> span_given(
            kit.color_span,
            texts.color,
            texts.text + stale_mark(outcome.stale),
            output.text@,
        ),
{
    law_markup_is_for_an_escaped_plan(snap, texts.plan, texts.reset, texts.escaped_plan);
    reveal_strlit(" ⏸");
    reveal_strlit(" ");
    reveal_strlit("");
    let mark = stale_mark(outcome.stale);
    let line = headline_words(texts.icon, texts.text, outcome.stale);
    match texts.icon {
        Some(escaped) => {
            assert(line =~= escaped + seq![' '] + texts.text + mark);
        },
        None => {
            assert(line =~= texts.text + mark);
        },
    }
}

/// The tooltip is the substituted tooltip format where one is set, and else the
/// framed lines, whatever the other options are and whether or not the snapshot is
/// old.
pub proof fn law_rendered_tooltip<
    Age,
    Severity,
    Class,
    Countdown: Fn(Option<Instant>, Instant) -> String,
    Sanitize: Fn(&str) -> String,
    Escape: Fn(&str) -> String,
    Substitute: Fn(&str, &Placeholders) -> String,
    UpdatedAt: Fn(Instant, Age) -> String,
    Bordered: Fn(&Vec<TooltipLine>, &Theme) -> String,
    SeverityFor: Fn(i32) -> Severity,
    SeverityColor: Fn(Severity, &Theme) -> String,
    ColorSpan: Fn(&str, &str) -> String,
    ClassOf: Fn(Severity) -> Class,
>(
    outcome: VendorOutcome<Age>,
    snap: Snapshot,
    theme: Theme,
    opts: RenderOpts,
    now: Instant,
    kit: Toolkit<
        Countdown,
        Sanitize,
        Escape,
        Substitute,
        UpdatedAt,
        Bordered,
        SeverityFor,
        SeverityColor,
        ColorSpan,
        ClassOf,
    >,
    texts: RenderTexts,
    severity: Severity,
    output: WaybarOutput<Class>,
)
    requires
        output_given(outcome, snap, theme, opts, now, kit, texts, severity, output),
    ensures
        opts.tooltip_format matches Some(format) ==> substitution_given(
            kit.substitute,
            format@,
            placeholder_texts(snap, texts.escaped_plan, texts.reset),
            output.tooltip@,
        ),
        opts.tooltip_format is None ==> exists|lines: TooltipTextsView| #[trigger]
            tooltip_texts_given(
                outcome,
                snap,
                now,
                kit.countdown,
                kit.sanitize,
                kit.escape,
                kit.updated_at,
                lines,
            ) && frame_given(
                kit.bordered,
                tooltip_view(outcome, snap, theme, lines),
                theme,
                output.tooltip@,
            ),
{
    law_markup_is_for_an_escaped_plan(snap, texts.plan, texts.reset, texts.escaped_plan);
}

/// Two renderings of an old and of a new snapshot, all else alike, hand over texts
/// that differ by the mark alone: the same text in the same colour, once with the
/// mark behind it and once without. So it is whatever formats and icon are set. The
/// class is the same, and so is the tooltip where it has a format of its own.
pub proof fn law_stale_mark_alone<
    Age,
    Severity,
    Class,
    Countdown: Fn(Option<Instant>, Instant) -> String,
    Sanitize: Fn(&str) -> String,
    Escape: Fn(&str) -> String,
    Substitute: Fn(&str, &Placeholders) -> String,
    UpdatedAt: Fn(Instant, Age) -> String,
    Bordered: Fn(&Vec<TooltipLine>, &Theme) -> String,
    SeverityFor: Fn(i32) -> Severity,
    SeverityColor: Fn(Severity, &Theme) -> String,
    ColorSpan: Fn(&str, &str) -> String,
    ClassOf: Fn(Severity) -> Class,
>(
    old_outcome: VendorOutcome<Age>,
    new_outcome: VendorOutcome<Age>,
    snap: Snapshot,
    theme: Theme,
    opts: RenderOpts,
    now: Instant,
    kit: Toolkit<
        Countdown,
        Sanitize,
        Escape,
        Substitute,
        UpdatedAt,
        Bordered,
        SeverityFor,
        SeverityColor,
        ColorSpan,
        ClassOf,
    >,
    old_texts: RenderTexts,
    new_texts: RenderTexts,
    old_severity: Severity,
    new_severity: Severity,
    old_output: WaybarOutput<Class>,
    new_output: WaybarOutput<Class>,
)
    requires
        answers_alike::<
            Age,
            Severity,
            Class,
            Countdown,
            Sanitize,
            Escape,
            Substitute,
            UpdatedAt,
            Bordered,
            SeverityFor,
            SeverityColor,
            ColorSpan,
            ClassOf,
        >(kit),
        old_outcome.stale,
        !new_outcome.stale,
        output_given(
            old_outcome,
            snap,
            theme,
            opts,
            now,
            kit,
            old_texts,
            old_severity,
            old_output,
        ),
        output_given(
            new_outcome,
            snap,
            theme,
            opts,
            now,
            kit,
            new_texts,
            new_severity,
            new_output,
        ),
    ensures
        exists|color: Seq<char>, text: Seq<char>| #[trigger]
            span_given(kit.color_span, color, text, new_output.text@) && span_given(
                kit.color_span,
                color,
                text + seq![' ', '⏸'],
                old_output.text@,
            ),
        old_output.class == new_output.class,
        opts.tooltip_format is Some ==> old_output.tooltip@ == new_output.tooltip@,
{
    reveal_strlit(" ⏸");
    reveal_strlit("");
    assert(old_severity == new_severity);
    assert(old_texts.plan == new_texts.plan);
    assert(old_texts.reset == new_texts.reset);
    assert(old_texts.escaped_plan == new_texts.escaped_plan);
    assert(old_texts.text == new_texts.text);
    assert(old_texts.icon == new_texts.icon);
    assert(old_texts.color == new_texts.color);
    let text = headline_words(new_texts.icon, new_texts.text, false);
    assert(headline_words(old_texts.icon, old_texts.text, true) =~= text + seq![' ', '⏸']);
    assert(span_given(kit.color_span, new_texts.color, text, new_output.text@));
}

/// An outcome of this provider keeps all that it holds as one of any provider.
pub proof fn law_outcomes_are_kept<Age>(outcome: FetchOutcome<Age>)
    ensures
        ({
            let r = <VendorOutcome<Age> as FromSpec<FetchOutcome<Age>>>::from_spec(outcome);
            &&& r.snapshot == VendorSnapshot::Copilot(outcome.snapshot)
            &&& r.stale == outcome.stale
            &&& r.last_error == outcome.last_error
            &&& r.cache_age == outcome.cache_age
        }),
{
}

/// The functions of the status bar, as formulas for what they give.
#[verifier::reject_recursive_types(Age)]
#[verifier::reject_recursive_types(Severity)]
pub struct Formulas<Age, Severity, Class> {
    pub countdown: spec_fn(Option<Instant>, Instant) -> Seq<char>,
    pub sanitize: spec_fn(Seq<char>) -> Seq<char>,
    pub escape: spec_fn(Seq<char>) -> Seq<char>,
    pub substitute: spec_fn(Seq<char>, Map<Seq<char>, Seq<char>>) -> Seq<char>,
    pub updated_at: spec_fn(Instant, Age) -> Seq<char>,
    pub bordered: spec_fn(Seq<LineView>, Theme) -> Seq<char>,
    pub severity_for: spec_fn(i32) -> Severity,
    pub severity_color: spec_fn(Severity, Theme) -> Seq<char>,
    pub color_span: spec_fn(Seq<char>, Seq<char>) -> Seq<char>,
    pub class_of: spec_fn(Severity) -> Class,
}

/// The functions of the status bar give what the formulas say.
pub open spec fn follows<
    Age,
    Severity,
    Class,
    Countdown: Fn(Option<Instant>, Instant) -> String,
    Sanitize: Fn(&str) -> String,
    Escape: Fn(&str) -> String,
    Substitute: Fn(&str, &Placeholders) -> String,
    UpdatedAt: Fn(Instant, Age) -> String,
    Bordered: Fn(&Vec<TooltipLine>, &Theme) -> String,
    SeverityFor: Fn(i32) -> Severity,
    SeverityColor: Fn(Severity, &Theme) -> String,
    ColorSpan: Fn(&str, &str) -> String,
    ClassOf: Fn(Severity) -> Class,
>(
    kit: Toolkit<
        Countdown,
        Sanitize,
        Escape,
        Substitute,
        UpdatedAt,
        Bordered,
        SeverityFor,
        SeverityColor,
        ColorSpan,
        ClassOf,
    >,
    by: Formulas<Age, Severity, Class>,
) -> bool {
    &&& forall|at: Option<Instant>, now: Instant, r: String| #[trigger]
        kit.countdown.ensures((at, now), r) ==> r@ == (by.countdown)(at, now)
    &&& forall|s: &str, r: String| #[trigger]
        kit.sanitize.ensures((s,), r) ==> r@ == (by.sanitize)(s@)
    &&& forall|s: &str, r: String| #[trigger]
        kit.escape.ensures((s,), r) ==> r@ == (by.escape)(s@)
    &&& forall|s: &str, v: &Placeholders, r: String| #[trigger]
        kit.substitute.ensures((s, v), r) ==> r@ == (by.substitute)(s@, v@)
    &&& forall|now: Instant, age: Age, r: String| #[trigger]
        kit.updated_at.ensures((now, age), r) ==> r@ == (by.updated_at)(now, age)
    &&& forall|v: &Vec<TooltipLine>, theme: &Theme, r: String| #[trigger]
        kit.bordered.ensures((v, theme), r) ==> r@ == (by.bordered)(lines_view(v@), *theme)
    &&& forall|p: i32, r: Severity| #[trigger]
        kit.severity_for.ensures((p,), r) ==> r == (by.severity_for)(p)
    &&& forall|x: Severity, theme: &Theme, r: String| #[trigger]
        kit.severity_color.ensures((x, theme), r) ==> r@ == (by.severity_color)(x, *theme)
    &&& forall|c: &str, s: &str, r: String| #[trigger]
        kit.color_span.ensures((c, s), r) ==> r@ == (by.color_span)(c@, s@)
    &&& forall|x: Severity, r: Class| #[trigger]
        kit.class_of.ensures((x,), r) ==> r == (by.class_of)(x)
}

/// Where formulas say what the functions of the status bar give, what is shown is
/// determined by them: the text and its colour, the class, and the tooltip.
pub proof fn law_output_by_formulas<
    Age,
    Severity,
    Class,
    Countdown: Fn(Option<Instant>, Instant) -> String,
    Sanitize: Fn(&str) -> String,
    Escape: Fn(&str) -> String,
    Substitute: Fn(&str, &Placeholders) -> String,
    UpdatedAt: Fn(Instant, Age) -> String,
    Bordered: Fn(&Vec<TooltipLine>, &Theme) -> String,
    SeverityFor: Fn(i32) -> Severity,
    SeverityColor: Fn(Severity, &Theme) -> String,
    ColorSpan: Fn(&str, &str) -> String,
    ClassOf: Fn(Severity) -> Class,
>(
    outcome: VendorOutcome<Age>,
    snap: Snapshot,
    theme: Theme,
    opts: RenderOpts,
    now: Instant,
    kit: Toolkit<
        Countdown,
        Sanitize,
        Escape,
        Substitute,
        UpdatedAt,
        Bordered,
        SeverityFor,
        SeverityColor,
        ColorSpan,
        ClassOf,
    >,
    by: Formulas<Age, Severity, Class>,
    texts: RenderTexts,
    severity: Severity,
    output: WaybarOutput<Class>,
)
    requires
        follows(kit, by),
        output_given(outcome, snap, theme, opts, now, kit, texts, severity, output),
    ensures
        ({
            let plan = (by.escape)((by.sanitize)(snap.plan@));
            let reset = (by.countdown)(snap.reset_at, now);
            let values = placeholder_texts(snap, plan, reset);
            let level = (by.severity_for)(snap.worst() as i32);
            let text = (by.substitute)(
                match opts.format {
                    Some(format) => format@,
                    None => "{copilot_pct}% · {copilot_reset}"@,
                },
                values,
            );
            let shown = TooltipTextsView {
                plan,
                usages: Seq::new(
                    snap.shown().len(),
                    |i: int| (by.escape)(usage_words(snap.shown()[i].1)),
                ),
                reset: (by.escape)(reset),
                message: match outcome.last_error {
                    Some((_, message)) => (by.escape)(message@),
                    None => seq![],
                },
                updated: (by.updated_at)(now, outcome.cache_age),
            };
            &&& output.text@ == (by.color_span)(
                (by.severity_color)(level, theme),
                (match opts.icon {
                    Some(icon) => if icon@.len() > 0 {
                        (by.escape)(icon@) + seq![' ']
                    } else {
                        seq![]
                    },
                    None => seq![],
                }) + text + stale_mark(outcome.stale),
            )
            &&& output.class == (by.class_of)(level)
            &&& output.tooltip@ == (match opts.tooltip_format {
                Some(format) => (by.substitute)(format@, values),
                None => (by.bordered)(tooltip_view(outcome, snap, theme, shown), theme),
            })
        }),
{
    law_rendered_text(outcome, snap, theme, opts, now, kit, texts, severity, output);
    law_rendered_tooltip(outcome, snap, theme, opts, now, kit, texts, severity, output);
    let plan = (by.escape)((by.sanitize)(snap.plan@));
    let reset = (by.countdown)(snap.reset_at, now);
    assert(texts.escaped_plan == plan);
    assert(texts.reset == reset);
    match opts.icon {
        Some(icon) => if icon@.len() > 0 {} else {
            assert(seq![] + texts.text =~= texts.text);
        },
        None => {
            assert(seq![] + texts.text =~= texts.text);
        },
    }
    if opts.tooltip_format is None {
        let given = choose|given: TooltipTextsView| #[trigger]
            tooltip_texts_given(
                outcome,
                snap,
                now,
                kit.countdown,
                kit.sanitize,
                kit.escape,
                kit.updated_at,
                given,
            ) && frame_given(
                kit.bordered,
                tooltip_view(outcome, snap, theme, given),
                theme,
                output.tooltip@,
            );
        let shown = TooltipTextsView {
            plan,
            usages: Seq::new(
                snap.shown().len(),
                |i: int| (by.escape)(usage_words(snap.shown()[i].1)),
            ),
            reset: (by.escape)(reset),
            message: match outcome.last_error {
                Some((_, message)) => (by.escape)(message@),
                None => seq![],
            },
            updated: (by.updated_at)(now, outcome.cache_age),
        };
        assert(given.plan == shown.plan);
        assert(given.reset == shown.reset);
        assert(given.updated == shown.updated);
        assert forall|i: int| 0 <= i < given.usages.len() implies given.usages[i]
            == shown.usages[i] by {
            assert(text_given(kit.escape, usage_words(snap.shown()[i].1), given.usages[i]));
        }
        assert(given.usages =~= shown.usages);
        if failed(outcome) {
            assert(given.message == shown.message);
        }
        assert(tooltip_view(outcome, snap, theme, given) =~= tooltip_view(
            outcome,
            snap,
            theme,
            shown,
        ));
    }
}

/// Lines, figures and texts are seen as they are.
pub proof fn law_texts_are_seen_as_they_are(
    lines: Seq<TooltipLine>,
    figures: QuotaValues,
    texts: TooltipTexts,
    text: String,
)
    ensures
        lines_view(lines).len() == lines.len(),
        forall|i: int| 0 <= i < lines.len() ==> #[trigger] lines_view(lines)[i] == lines[i]@,
        TooltipLine::Center(text)@ == LineView::Center(text@),
        TooltipLine::Body(text)@ == LineView::Body(text@),
        TooltipLine::Sep@ == LineView::Sep,
        figures@.percent == figures.percent@,
        figures@.used == figures.used@,
        figures@.limit == figures.limit@,
        texts@.plan == texts.plan@,
        texts@.reset == texts.reset@,
        texts@.message == texts.message@,
        texts@.updated == texts.updated@,
        texts@.usages.len() == texts.usages@.len(),
        forall|i: int|
            0 <= i < texts.usages@.len() ==> #[trigger] texts@.usages[i] == texts.usages@[i]@,
{
}

} // verus!
