//! What holds of quotas, snapshots and what is shown of them as a whole.

use crate::binary64::{lemma_hundred, Binary64, HUNDRED};
use crate::decimal::{counts_as_whole, decimal, digit_char, fixed};
use crate::numeral::{appended, is_digit, number_from, numeral, run_end};
use crate::placeholders::Placeholders;
use crate::reset::{midnight, reset_of, Instant, EPOCH_DAY};
use crate::rounding::{
    half_even, law_exact_is_kept, law_nearest_keeps_order, lemma_half_even,
    lemma_magnitude_ordered, magnitude, one, BINADE, INFINITE,
};
use crate::toolkit::{
    color_given, countdown_given, frame_given, span_given, substitution_given, text_given,
    update_given, LineView, Theme, Toolkit, TooltipLine,
};
use crate::types::{
    amount, count_text, lemma_whole_percentage_range, listed, text_of, worst_of, Quota,
    QuotaFieldsView, Response, Snapshot,
};
use crate::vendor::{
    failure_code, icon_set, lemma_placeholder_names, markup_values, output_given,
    placeholder_texts, quota_texts, tooltip_given, tooltip_texts_given, tooltip_view, usage_words,
    RenderOpts, RenderTexts, TooltipTextsView, VendorOutcome, WaybarOutput, ICON, SHORT_NAME,
    UNAVAILABLE,
};
use vstd::arithmetic::div_mod::lemma_div_is_ordered;
use vstd::arithmetic::div_mod::lemma_fundamental_div_mod_converse;
use vstd::arithmetic::power2::lemma_pow2_pos;
use vstd::prelude::*;

verus! {

/// A quota that the plan does not include counts as unused, shows no figures and
/// is not listed.
pub proof fn law_outside_the_plan(quota: Quota, credit_label: Seq<char>, count_label: Seq<char>)
    requires
        !quota.included(),
    ensures
        quota.used_percentage() == 0,
        quota_texts(Some(quota)) == quota_texts(None),
        listed(credit_label, count_label, Some(quota)) == listed(credit_label, count_label, None),
{
}

/// An unlimited quota is part of the plan whatever else is said of it, and
/// counts as unused.
pub proof fn law_unlimited(quota: Quota)
    requires
        quota.unlimited,
    ensures
        quota.included(),
        quota.used_percentage() == 0,
        usage_words(quota) == "Unlimited"@,
{
}

/// Where a whole percentage is left, the rest to a hundred is used. So an
/// allowance that is fully spent reads 100, and an untouched one 0.
pub proof fn law_whole_percentages(quota: Quota, left: nat)
    requires
        quota.included(),
        !quota.unlimited,
        left <= 100,
        quota.percent_remaining.finite(),
        quota.percent_remaining.units() == left * one(),
    ensures
        quota.used_percentage() == 100 - left,
{
    let used = (100 - left) as nat;
    let o = one();
    lemma_hundred();
    lemma_pow2_pos(1074);
    let hundred = Binary64 { bits: HUNDRED };
    assert(hundred.units() == 100 * o);
    assert(100 * o - left * o == used * o) by (nonlinear_arith)
        requires
            used == 100 - left,
    ;
    let surplus = hundred.surplus(quota.percent_remaining);
    if used == 0 {
        assert(surplus.bits == 0);
    } else {
        assert(used * o > 0) by (nonlinear_arith)
            requires
                used > 0,
                o > 0,
        ;
        assert(used * o * 1 == used * o) by (nonlinear_arith);
        law_exact_is_kept(used * o, 1, used, 1074);
    }
    assert(magnitude(surplus.pattern()) == used * o);
    assert(2 * (used * o) + o == used * (2 * o) + o) by (nonlinear_arith);
    lemma_fundamental_div_mod_converse(
        (2 * (used * o) + o) as int,
        (2 * o) as int,
        used as int,
        o as int,
    );
}

proof fn lemma_whole_percentage_ordered(a: Binary64, b: Binary64)
    requires
        a.pattern() <= b.pattern(),
    ensures
        a.whole_percentage() <= b.whole_percentage(),
{
    if a.pattern() < b.pattern() {
        lemma_magnitude_ordered(a.pattern(), b.pattern());
    }
    lemma_pow2_pos(1074);
    lemma_div_is_ordered(
        (2 * magnitude(a.pattern()) + one()) as int,
        (2 * magnitude(b.pattern()) + one()) as int,
        (2 * one()) as int,
    );
}

/// The less is left, the more is used: of two quotas with limits, the one of
/// which no more is left is used at least as much.
pub proof fn law_less_left_is_not_less_used(a: Quota, b: Quota)
    requires
        a.included() && b.included(),
        !a.unlimited && !b.unlimited,
        !a.percent_remaining.nan() && !b.percent_remaining.nan(),
        a.percent_remaining.units() <= b.percent_remaining.units(),
    ensures
        a.used_percentage() >= b.used_percentage(),
{
    let hundred = Binary64 { bits: HUNDRED };
    let x = a.percent_remaining;
    let y = b.percent_remaining;
    let more = hundred.surplus(x);
    let less = hundred.surplus(y);
    lemma_hundred();
    if x.pattern() < INFINITE {
        lemma_magnitude_ordered(x.pattern(), INFINITE as nat);
    }
    if y.pattern() < INFINITE {
        lemma_magnitude_ordered(y.pattern(), INFINITE as nat);
    }
    lemma_magnitude_ordered(0, INFINITE as nat);
    if hundred.units() > x.units() && hundred.units() > y.units() && x.finite() && y.finite() {
        law_nearest_keeps_order(
            (hundred.units() - y.units()) as nat,
            (hundred.units() - x.units()) as nat,
        );
    }
    assert(less.pattern() <= more.pattern());
    lemma_whole_percentage_ordered(less, more);
}

proof fn lemma_worst_of(quotas: Seq<(Seq<char>, Quota)>)
    ensures
        0 <= worst_of(quotas) <= 100,
        forall|i: int|
            0 <= i < quotas.len() ==> (#[trigger] quotas[i]).1.used_percentage() <= worst_of(
                quotas,
            ),
        quotas.len() > 0 ==> exists|i: int|
            0 <= i < quotas.len() && (#[trigger] quotas[i]).1.used_percentage() == worst_of(quotas),
    decreases quotas.len(),
{
    if quotas.len() > 0 {
        let rest = quotas.drop_last();
        let last = quotas.last().1;
        lemma_worst_of(rest);
        lemma_whole_percentage_range(
            Binary64 { bits: HUNDRED }.surplus(last.percent_remaining),
        );
        assert forall|i: int|
            0 <= i < quotas.len() implies (#[trigger] quotas[i]).1.used_percentage() <= worst_of(
            quotas,
        ) by {
            if i < rest.len() {
                assert(rest[i] == quotas[i]);
            }
        }
        if worst_of(rest) < last.used_percentage() || rest.len() == 0 {
            assert(quotas[quotas.len() - 1].1.used_percentage() == worst_of(quotas));
        } else {
            let i = choose|i: int|
                0 <= i < rest.len() && (#[trigger] rest[i]).1.used_percentage() == worst_of(rest);
            assert(quotas[i] == rest[i]);
        }
    }
}

/// The worst percentage is that of a quota that is shown, and none that is shown
/// is worse. Where none is shown it is zero.
pub proof fn law_worst_is_the_highest_shown(snap: Snapshot)
    ensures
        0 <= snap.worst() <= 100,
        forall|i: int|
            0 <= i < snap.shown().len() ==> (#[trigger] snap.shown()[i]).1.used_percentage()
                <= snap.worst(),
        snap.shown().len() > 0 ==> exists|i: int|
            0 <= i < snap.shown().len() && (#[trigger] snap.shown()[i]).1.used_percentage()
                == snap.worst(),
        snap.shown().len() == 0 ==> snap.worst() == 0,
{
    lemma_worst_of(snap.shown());
}

/// What is shown is what the plan includes: every quota that is shown is
/// included, and every quota of the snapshot that is included is shown.
pub proof fn law_shown_is_what_the_plan_includes(snap: Snapshot)
    ensures
        forall|i: int| 0 <= i < snap.shown().len() ==> (#[trigger] snap.shown()[i]).1.included(),
        snap.premium matches Some(quota) ==> quota.included() ==> snap.shown().contains(
            ("Premium requests"@, quota),
        ),
        snap.chat matches Some(quota) ==> quota.included() ==> snap.shown().contains(
            (
                if quota.token_based_billing {
                    "Credits"@
                } else {
                    "Chat"@
                },
                quota,
            ),
        ),
        snap.completions matches Some(quota) ==> quota.included() ==> snap.shown().contains(
            (
                if quota.token_based_billing {
                    "Inline suggestions"@
                } else {
                    "Completions"@
                },
                quota,
            ),
        ),
{
    let premium = listed("Premium requests"@, "Premium requests"@, snap.premium);
    let chat = listed("Credits"@, "Chat"@, snap.chat);
    let completions = listed("Inline suggestions"@, "Completions"@, snap.completions);
    let shown = snap.shown();
    assert(shown == premium + chat + completions);
    if premium.len() > 0 {
        assert(shown[0] == premium[0]);
    }
    if chat.len() > 0 {
        assert(shown[premium.len() as int] == chat[0]);
    }
    if completions.len() > 0 {
        assert(shown[(premium.len() + chat.len()) as int] == completions[0]);
    }
}

/// The tooltip and the panel agree on how much of an allowance is spent: the
/// figures of a quota, with "of" between them, are its single rendering.
pub proof fn law_figures_agree(quota: Quota)
    requires
        quota.included(),
        !quota.unlimited,
    ensures
        match quota.used_text() {
            Some(text) => text == quota_texts(Some(quota)).used + " of "@ + quota_texts(
                Some(quota),
            ).limit,
            None => quota_texts(Some(quota)).used == UNAVAILABLE@ && quota_texts(
                Some(quota),
            ).limit == UNAVAILABLE@,
        },
{
}

/// The placeholder of the headline is the worst percentage, which also decides
/// the severity, so that the number and the colour cannot disagree.
pub proof fn law_headline_is_the_worst(snap: Snapshot, plan: Seq<char>, reset: Seq<char>)
    ensures
        placeholder_texts(snap, plan, reset).contains_key("copilot_pct"@),
        placeholder_texts(snap, plan, reset)["copilot_pct"@] == decimal(snap.worst() as nat),
{
    lemma_placeholder_names();
}

/// Every placeholder stands for what its name says: the general ones for a
/// session and a week are those of premium requests and of chat.
pub proof fn law_placeholders(snap: Snapshot, plan: Seq<char>, reset: Seq<char>)
    ensures
        ({
            let values = placeholder_texts(snap, plan, reset);
            let premium = quota_texts(snap.premium);
            let chat = quota_texts(snap.chat);
            let completions = quota_texts(snap.completions);
            &&& values["icon"@] == ICON@
            &&& values["vendor_short"@] == SHORT_NAME@
            &&& values["plan"@] == plan
            &&& values["session_pct"@] == premium.percent
            &&& values["session_reset"@] == reset
            &&& values["weekly_pct"@] == chat.percent
            &&& values["weekly_reset"@] == reset
            &&& values["copilot_plan"@] == plan
            &&& values["copilot_reset"@] == reset
            &&& values["copilot_premium_pct"@] == premium.percent
            &&& values["copilot_premium_used"@] == premium.used
            &&& values["copilot_premium_limit"@] == premium.limit
            &&& values["copilot_chat_pct"@] == chat.percent
            &&& values["copilot_chat_used"@] == chat.used
            &&& values["copilot_chat_limit"@] == chat.limit
            &&& values["copilot_completions_pct"@] == completions.percent
            &&& values["copilot_completions_used"@] == completions.used
            &&& values["copilot_completions_limit"@] == completions.limit
            &&& values.dom().len() == 19
        }),
{
    lemma_placeholder_names();
}

/// In markup the plan is escaped under both of its names, and no other value is
/// touched; so the headline still gives the worst percentage.
pub proof fn law_markup_escapes_the_plan(
    snap: Snapshot,
    plan: Seq<char>,
    reset: Seq<char>,
    escaped: Seq<char>,
)
    ensures
        ({
            let plain = placeholder_texts(snap, plan, reset);
            let values = markup_values(plain, escaped);
            &&& values["plan"@] == escaped
            &&& values["copilot_plan"@] == escaped
            &&& values["copilot_pct"@] == decimal(snap.worst() as nat)
            &&& values.dom() == plain.dom()
            &&& forall|name: Seq<char>|
                name != "plan"@ && name != "copilot_plan"@ ==> #[trigger] values[name]
                    == plain[name]
        }),
{
    lemma_placeholder_names();
    let plain = placeholder_texts(snap, plan, reset);
    assert(markup_values(plain, escaped).dom() =~= plain.dom());
}

pub(crate) proof fn lemma_decimal_digits(n: nat)
    ensures
        decimal(n).len() > 0,
        forall|i: int| 0 <= i < decimal(n).len() ==> is_digit(#[trigger] decimal(n)[i]),
        appended(0, decimal(n), 0, decimal(n).len()) == n,
    decreases n,
{
    if n >= 10 {
        lemma_decimal_digits(n / 10);
        lemma_appended_prefix(decimal(n / 10), decimal(n), decimal(n / 10).len());
        assert(decimal(n).drop_last() =~= decimal(n / 10));
    } else {
        reveal_with_fuel(appended, 2);
    }
}

proof fn lemma_appended_prefix(s: Seq<char>, t: Seq<char>, j: nat)
    requires
        j <= s.len(),
        j <= t.len(),
        forall|i: int| 0 <= i < j ==> s[i] == t[i],
    ensures
        appended(0, s, 0, j) == appended(0, t, 0, j),
    decreases j,
{
    if j > 0 {
        lemma_appended_prefix(s, t, (j - 1) as nat);
    }
}

proof fn lemma_run_of_digits(s: Seq<char>, i: nat)
    requires
        i <= s.len(),
        forall|k: int| i <= k < s.len() ==> is_digit(#[trigger] s[k]),
    ensures
        run_end(s, i) == s.len(),
    decreases s.len() - i,
{
    if i < s.len() {
        lemma_run_of_digits(s, i + 1);
    }
}

/// An amount that is given as text counts like the same amount given as a
/// number: the decimal notation of a whole number below `2^53` reads as that
/// number.
pub proof fn law_whole_numbers_in_text(n: nat)
    requires
        n < 2 * BINADE,
    ensures
        numeral(decimal(n)) matches Some(value) && value.finite() && value.not_below_zero()
            && value.units() == n * one(),
{
    let s = decimal(n);
    lemma_decimal_digits(n);
    lemma_run_of_digits(s, 0);
    assert(is_digit(s[0]));
    assert(number_from(s, 0) == Some((n, 0int)));
    assert(n * 1 * one() == n * one() && n * one() * 1 == n * one()) by (nonlinear_arith);
    law_exact_is_kept(n * one(), 1, n, 1074);
}

/// A whole count stays whole: it is written as its digits alone.
pub proof fn law_whole_counts(value: Binary64, n: nat)
    requires
        value.finite(),
        value.units() == n * one(),
        !value.negative(),
    ensures
        count_text(value) == decimal(n),
{
    let o = one();
    lemma_pow2_pos(1074);
    lemma_fundamental_div_mod_converse((n * o) as int, o as int, n as int, 0);
    assert(half_even(n * o, o) == n);
    assert(n * o * 10 == (n * 10) * o) by (nonlinear_arith);
    lemma_fundamental_div_mod_converse((n * o * 10) as int, o as int, (n * 10) as int, 0);
    assert(half_even(n * o * 10, o) == n * 10);
    assert(seq![] + decimal(n) =~= decimal(n));
}

/// A count that is finite is written without a point where it counts as whole,
/// and with one point and one digit behind it, which is not zero, where it does
/// not. So it never ends in `.0`.
pub proof fn law_counts_have_one_place_or_none(value: Binary64)
    requires
        value.finite(),
    ensures
        counts_as_whole(value) ==> !count_text(value).contains('.'),
        !counts_as_whole(value) ==> ({
            let text = count_text(value);
            let k = text.len() - 2;
            &&& k > 0
            &&& text[k] == '.'
            &&& is_digit(text[k + 1])
            &&& text[k + 1] != '0'
            &&& !text.take(k).contains('.')
        }),
        !(seq!['.', '0'].is_suffix_of(count_text(value))),
{
    let m = magnitude(value.pattern());
    let sign: Seq<char> = if value.negative() {
        seq!['-']
    } else {
        seq![]
    };
    let text = count_text(value);
    if counts_as_whole(value) {
        let digits = decimal(half_even(m, one()));
        lemma_decimal_digits(half_even(m, one()));
        assert(text == sign + digits);
        assert forall|i: int| 0 <= i < text.len() implies text[i] != '.' by {
            if i >= sign.len() {
                assert(text[i] == digits[i - sign.len()]);
                assert(is_digit(digits[i - sign.len()]));
            }
        }
        assert(text.len() >= 2 ==> text[text.len() - 2] != '.');
    } else {
        let t = half_even(m * 10, one());
        let digits = decimal(t / 10);
        lemma_decimal_digits(t / 10);
        assert(text == sign + digits + seq!['.', digit_char(t % 10)]);
        let k = text.len() - 2;
        assert(text.take(k) =~= sign + digits);
        assert forall|i: int| 0 <= i < k implies text.take(k)[i] != '.' by {
            if i >= sign.len() {
                assert(text[i] == digits[i - sign.len()]);
                assert(is_digit(digits[i - sign.len()]));
            }
        }
    }
}

/// A count is the number at one place after the point, less a `.0` and nothing
/// else: where it counts as whole, putting the `.0` back gives the notation with
/// one place, and elsewhere it is that notation.
pub proof fn law_counts_leave_out_a_zero_alone(value: Binary64)
    requires
        value.finite(),
    ensures
        fixed(value, true) == count_text(value) + (if counts_as_whole(value) {
            seq!['.', '0']
        } else {
            seq![]
        }),
{
    let m = magnitude(value.pattern());
    let o = one();
    let t = half_even(m * 10, o);
    lemma_pow2_pos(1074);
    if counts_as_whole(value) {
        let w = t / 10;
        lemma_half_even(m * 10, o);
        lemma_half_even(m, o);
        let q = half_even(m, o);
        assert(t * o == 10 * (w * o)) by (nonlinear_arith)
            requires
                t == 10 * w,
        ;
        // Both are nearest to the number, and it is not half way between any two.
        assert(q == w) by (nonlinear_arith)
            requires
                20 * (w * o) <= 20 * m + o,
                20 * m <= 20 * (w * o) + o,
                2 * (q * o) <= 2 * m + o,
                2 * m <= 2 * (q * o) + o,
                o > 0,
        ;
        assert(fixed(value, true) =~= count_text(value) + seq!['.', '0']);
    } else {
        assert(fixed(value, true) =~= count_text(value) + seq![]);
    }
}

proof fn lemma_percentage_range(value: Binary64)
    requires
        !value.nan(),
    ensures
        value.as_percentage().finite(),
        value.as_percentage().not_below_zero(),
        magnitude(value.as_percentage().pattern()) <= 100 * one(),
{
    lemma_hundred();
    lemma_magnitude_ordered(0, HUNDRED as nat);
    lemma_magnitude_ordered(HUNDRED as nat, INFINITE as nat);
}

/// Whatever a bucket holds, the quota that is read from it is sound: what is left
/// lies between zero and a hundred percent, and its amounts are finite and not
/// below zero.
pub proof fn law_quotas_read_are_sound(fields: QuotaFieldsView)
    ensures
        fields.quota() matches Some(quota) ==> {
            &&& quota.percent_remaining.finite()
            &&& quota.percent_remaining.not_below_zero()
            &&& magnitude(quota.percent_remaining.pattern()) <= 100 * one()
            &&& quota.entitlement matches Some(amount) ==> amount.finite()
                && amount.not_below_zero()
            &&& quota.remaining matches Some(amount) ==> amount.finite() && amount.not_below_zero()
        },
{
    lemma_hundred();
    match amount(fields.percent_remaining) {
        Some(value) => {
            lemma_percentage_range(value);
        },
        None => {
            match (amount(fields.entitlement), fields.amount_left()) {
                (Some(entitlement), Some(remaining)) => {
                    lemma_percentage_range(remaining.percent_of(entitlement));
                },
                _ => {},
            }
        },
    }
}

/// Each bucket is read on its own: whatever the others hold, the same bucket
/// tells of the same quota, and one that tells of a quota is enough for the
/// response to be accepted.
pub proof fn law_buckets_are_read_alone(a: Response, b: Response)
    requires
        a.quota_snapshots is Some,
        b.quota_snapshots is Some,
    ensures
        a.quota_snapshots->0.premium_interactions == b.quota_snapshots->0.premium_interactions
            ==> a.premium_quota() == b.premium_quota(),
        a.quota_snapshots->0.chat == b.quota_snapshots->0.chat ==> a.chat_quota()
            == b.chat_quota(),
        a.quota_snapshots->0.completions == b.quota_snapshots->0.completions
            ==> a.completions_quota() == b.completions_quota(),
        a.premium_quota() is Some || a.chat_quota() is Some || a.completions_quota() is Some
            ==> a.usable(),
{
}

/// A date alone means midnight in UTC of that date: a whole number of days since
/// 1970 starts.
pub proof fn law_dates_mean_midnight(day: i32)
    ensures
        reset_of(None, Some(day)) == Some(midnight(day as int)),
        midnight(day as int).nanos == 0,
        midnight(day as int).seconds == (day - EPOCH_DAY) * 86_400,
{
}

/// Options that ask for the same: the same formats, and the same icon, where an
/// empty one is none. What they set for the pace is left aside.
pub open spec fn same_look(a: RenderOpts, b: RenderOpts) -> bool {
    &&& text_of(a.format) == text_of(b.format)
    &&& text_of(a.tooltip_format) == text_of(b.tooltip_format)
    &&& icon_set(a) == icon_set(b)
}

/// An empty icon is no icon, and what is set for the pace has no effect: options
/// that ask for the same admit the same outputs.
pub proof fn law_empty_icon_and_pace_have_no_effect<
    Age,
    Severity,
    Class,
    Countdown: Fn(Option<Instant>, Instant) -> String,
    Sanitize: Fn(&str) -> String,
    Escape: Fn(&str) -> String,
    Substitute: Fn(&str, &Placeholders) -> String,
    UpdatedAt: Fn(Instant, Age) -> String,
    Bordered: Fn(&Vec<TooltipLine>, &Theme) -> String,
    SeverityFor: Fn(i32) -> Severity,
    SeverityColor: Fn(Severity, &Theme) -> String,
    ColorSpan: Fn(&str, &str) -> String,
    ClassOf: Fn(Severity) -> Class,
>(
    outcome: VendorOutcome<Age>,
    snap: Snapshot,
    theme: Theme,
    a: RenderOpts,
    b: RenderOpts,
    now: Instant,
    kit: Toolkit<
        Countdown,
        Sanitize,
        Escape,
        Substitute,
        UpdatedAt,
        Bordered,
        SeverityFor,
        SeverityColor,
        ColorSpan,
        ClassOf,
    >,
    texts: RenderTexts,
    severity: Severity,
    output: WaybarOutput<Class>,
)
    requires
        same_look(a, b),
    ensures
        output_given(outcome, snap, theme, a, now, kit, texts, severity, output) == output_given(
            outcome,
            snap,
            theme,
            b,
            now,
            kit,
            texts,
            severity,
            output,
        ),
{
}

/// The functions of the status bar give one answer to one question.
pub open spec fn answers_alike<
    Age,
    Severity,
    Class,
    Countdown: Fn(Option<Instant>, Instant) -> String,
    Sanitize: Fn(&str) -> String,
    Escape: Fn(&str) -> String,
    Substitute: Fn(&str, &Placeholders) -> String,
    UpdatedAt: Fn(Instant, Age) -> String,
    Bordered: Fn(&Vec<TooltipLine>, &Theme) -> String,
    SeverityFor: Fn(i32) -> Severity,
    SeverityColor: Fn(Severity, &Theme) -> String,
    ColorSpan: Fn(&str, &str) -> String,
    ClassOf: Fn(Severity) -> Class,
>(
    kit: Toolkit<
        Countdown,
        Sanitize,
        Escape,
        Substitute,
        UpdatedAt,
        Bordered,
        SeverityFor,
        SeverityColor,
        ColorSpan,
        ClassOf,
    >,
) -> bool {
    &&& forall|x: Seq<char>, y: Seq<char>, z: Seq<char>| #[trigger]
        text_given(kit.sanitize, x, y) && #[trigger] text_given(kit.sanitize, x, z) ==> y == z
    &&& forall|x: Seq<char>, y: Seq<char>, z: Seq<char>| #[trigger]
        text_given(kit.escape, x, y) && #[trigger] text_given(kit.escape, x, z) ==> y == z
    &&& forall|at: Option<Instant>, now: Instant, y: Seq<char>, z: Seq<char>| #[trigger]
        countdown_given(kit.countdown, at, now, y) && #[trigger] countdown_given(
            kit.countdown,
            at,
            now,
            z,
        ) ==> y == z
    &&& forall|f: Seq<char>, v: Map<Seq<char>, Seq<char>>, y: Seq<char>, z: Seq<char>| #[trigger]
        substitution_given(kit.substitute, f, v, y) && #[trigger] substitution_given(
            kit.substitute,
            f,
            v,
            z,
        ) ==> y == z
    &&& forall|now: Instant, age: Age, y: Seq<char>, z: Seq<char>| #[trigger]
        update_given(kit.updated_at, now, age, y) && #[trigger] update_given(
            kit.updated_at,
            now,
            age,
            z,
        ) ==> y == z
    &&& forall|lines: Seq<LineView>, theme: Theme, y: Seq<char>, z: Seq<char>| #[trigger]
        frame_given(kit.bordered, lines, theme, y) && #[trigger] frame_given(
            kit.bordered,
            lines,
            theme,
            z,
        ) ==> y == z
    &&& forall|percentage: i32, y: Severity, z: Severity| #[trigger]
        kit.severity_for.ensures((percentage,), y) && #[trigger] kit.severity_for.ensures(
            (percentage,),
            z,
        ) ==> y == z
    &&& forall|severity: Severity, theme: Theme, y: Seq<char>, z: Seq<char>| #[trigger]
        color_given(kit.severity_color, severity, theme, y) && #[trigger] color_given(
            kit.severity_color,
            severity,
            theme,
            z,
        ) ==> y == z
    &&& forall|color: Seq<char>, text: Seq<char>, y: Seq<char>, z: Seq<char>| #[trigger]
        span_given(kit.color_span, color, text, y) && #[trigger] span_given(
            kit.color_span,
            color,
            text,
            z,
        ) ==> y == z
    &&& forall|severity: Severity, y: Class, z: Class| #[trigger]
        kit.class_of.ensures((severity,), y) && #[trigger] kit.class_of.ensures((severity,), z)
            ==> y == z
}

proof fn lemma_one_tooltip<
    Age,
    Severity,
    Class,
    Countdown: Fn(Option<Instant>, Instant) -> String,
    Sanitize: Fn(&str) -> String,
    Escape: Fn(&str) -> String,
    Substitute: Fn(&str, &Placeholders) -> String,
    UpdatedAt: Fn(Instant, Age) -> String,
    Bordered: Fn(&Vec<TooltipLine>, &Theme) -> String,
    SeverityFor: Fn(i32) -> Severity,
    SeverityColor: Fn(Severity, &Theme) -> String,
    ColorSpan: Fn(&str, &str) -> String,
    ClassOf: Fn(Severity) -> Class,
>(
    outcome: VendorOutcome<Age>,
    snap: Snapshot,
    theme: Theme,
    now: Instant,
    kit: Toolkit<
        Countdown,
        Sanitize,
        Escape,
        Substitute,
        UpdatedAt,
        Bordered,
        SeverityFor,
        SeverityColor,
        ColorSpan,
        ClassOf,
    >,
    y: Seq<char>,
    z: Seq<char>,
)
    requires
        answers_alike::<
            Age,
            Severity,
            Class,
            Countdown,
            Sanitize,
            Escape,
            Substitute,
            UpdatedAt,
            Bordered,
            SeverityFor,
            SeverityColor,
            ColorSpan,
            ClassOf,
        >(kit),
        tooltip_given(
            outcome,
            snap,
            theme,
            now,
            kit.countdown,
            kit.sanitize,
            kit.escape,
            kit.updated_at,
            kit.bordered,
            y,
        ),
        tooltip_given(
            outcome,
            snap,
            theme,
            now,
            kit.countdown,
            kit.sanitize,
            kit.escape,
            kit.updated_at,
            kit.bordered,
            z,
        ),
    ensures
        y == z,
{
    let s = choose|texts: TooltipTextsView| #[trigger]
        tooltip_texts_given(
            outcome,
            snap,
            now,
            kit.countdown,
            kit.sanitize,
            kit.escape,
            kit.updated_at,
            texts,
        ) && frame_given(kit.bordered, tooltip_view(outcome, snap, theme, texts), theme, y);
    let t = choose|texts: TooltipTextsView| #[trigger]
        tooltip_texts_given(
            outcome,
            snap,
            now,
            kit.countdown,
            kit.sanitize,
            kit.escape,
            kit.updated_at,
            texts,
        ) && frame_given(kit.bordered, tooltip_view(outcome, snap, theme, texts), theme, z);
    assert(s.plan == t.plan);
    assert(s.reset == t.reset);
    assert(s.updated == t.updated);
    assert forall|i: int| 0 <= i < s.usages.len() implies s.usages[i] == t.usages[i] by {
        assert(text_given(kit.escape, usage_words(snap.shown()[i].1), s.usages[i]));
        assert(text_given(kit.escape, usage_words(snap.shown()[i].1), t.usages[i]));
    }
    assert(s.usages =~= t.usages);
    if failure_code(outcome) is Some {
        assert(s.message == t.message);
    }
    assert(tooltip_view(outcome, snap, theme, s) == tooltip_view(outcome, snap, theme, t));
}

/// What is shown is determined: where the functions of the status bar give one
/// answer to one question, options that ask for the same, all else alike, give
/// the same text, tooltip and class. So neither an empty icon nor what is set for
/// the pace can be seen.
pub proof fn law_same_look_gives_the_same_output<
    Age,
    Severity,
    Class,
    Countdown: Fn(Option<Instant>, Instant) -> String,
    Sanitize: Fn(&str) -> String,
    Escape: Fn(&str) -> String,
    Substitute: Fn(&str, &Placeholders) -> String,
    UpdatedAt: Fn(Instant, Age) -> String,
    Bordered: Fn(&Vec<TooltipLine>, &Theme) -> String,
    SeverityFor: Fn(i32) -> Severity,
    SeverityColor: Fn(Severity, &Theme) -> String,
    ColorSpan: Fn(&str, &str) -> String,
    ClassOf: Fn(Severity) -> Class,
>(
    outcome: VendorOutcome<Age>,
    snap: Snapshot,
    theme: Theme,
    a: RenderOpts,
    b: RenderOpts,
    now: Instant,
    kit: Toolkit<
        Countdown,
        Sanitize,
        Escape,
        Substitute,
        UpdatedAt,
        Bordered,
        SeverityFor,
        SeverityColor,
        ColorSpan,
        ClassOf,
    >,
    texts_a: RenderTexts,
    texts_b: RenderTexts,
    severity_a: Severity,
    severity_b: Severity,
    output_a: WaybarOutput<Class>,
    output_b: WaybarOutput<Class>,
)
    requires
        answers_alike::<
            Age,
            Severity,
            Class,
            Countdown,
            Sanitize,
            Escape,
            Substitute,
            UpdatedAt,
            Bordered,
            SeverityFor,
            SeverityColor,
            ColorSpan,
            ClassOf,
        >(kit),
        same_look(a, b),
        output_given(outcome, snap, theme, a, now, kit, texts_a, severity_a, output_a),
        output_given(outcome, snap, theme, b, now, kit, texts_b, severity_b, output_b),
    ensures
        output_a.text@ == output_b.text@,
        output_a.tooltip@ == output_b.tooltip@,
        output_a.class == output_b.class,
{
    assert(severity_a == severity_b);
    assert(texts_a.plan == texts_b.plan);
    assert(texts_a.reset == texts_b.reset);
    assert(texts_a.escaped_plan == texts_b.escaped_plan);
    assert(texts_a.text == texts_b.text);
    assert(texts_a.icon == texts_b.icon);
    assert(texts_a.color == texts_b.color);
    if a.tooltip_format is None {
        lemma_one_tooltip::<
            Age,
            Severity,
            Class,
            Countdown,
            Sanitize,
            Escape,
            Substitute,
            UpdatedAt,
            Bordered,
            SeverityFor,
            SeverityColor,
            ColorSpan,
            ClassOf,
        >(outcome, snap, theme, now, kit, output_a.tooltip@, output_b.tooltip@);
    }
}

} // verus!
