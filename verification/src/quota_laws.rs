//! What holds of a quota and of the quotas of a snapshot, in terms of what is said
//! of them.

use crate::binary64::{lemma_hundred, Binary64, HUNDRED};
use crate::decimal::{decimal, fixed};
use crate::laws::{
    law_less_left_is_not_less_used, law_whole_percentages, law_worst_is_the_highest_shown,
};
use crate::number_laws::{law_surplus, rounded};
use crate::rounding::{
    excess, half_even, law_exact_is_kept, law_infinite_is_too_large, lemma_excess, lemma_half_even,
    lemma_magnitude_ordered, lemma_nearest_magnitude, magnitude, nearest, one, BINADE, INFINITE,
};
use crate::types::{count_text, labelled, lemma_whole_percentage_range, Quota, Snapshot};
use crate::vendor::{lemma_placeholder_names, placeholder_texts, quota_texts, usage_words};
use vstd::arithmetic::div_mod::lemma_fundamental_div_mod;
use vstd::arithmetic::div_mod::lemma_fundamental_div_mod_converse;
use vstd::arithmetic::power2::lemma2_to64;
use vstd::arithmetic::power2::lemma2_to64_rest;
use vstd::arithmetic::power2::lemma_pow2_adds;
use vstd::arithmetic::power2::lemma_pow2_pos;
use vstd::arithmetic::power2::lemma_pow2_strictly_increases;
use vstd::arithmetic::power2::lemma_pow2_unfold;
use vstd::arithmetic::power2::pow2;
use vstd::prelude::*;

verus! {

/// What is said of a quota grants it: it is without limit, or GitHub states it and
/// states no entitlement equal to zero.
pub open spec fn granted(quota: Quota) -> bool {
    quota.unlimited || (quota.has_quota && !(quota.entitlement matches Some(entitlement)
        && entitlement.equals(Binary64 { bits: 0 })))
}

/// The quota of a bucket, where it is there and granted.
pub open spec fn granted_in(bucket: Option<Quota>, quota: Quota) -> bool {
    bucket == Some(quota) && granted(quota)
}

/// One where a bucket has a granted quota, zero where it has not.
pub open spec fn places(bucket: Option<Quota>) -> int {
    if exists|quota: Quota| #[trigger] granted_in(bucket, quota) {
        1
    } else {
        0
    }
}

/// A quota without limit is part of the plan whatever else is said of it. One with
/// a limit is part of it exactly where GitHub states that it has it, and the
/// entitlement is either not stated or differs from zero. An entitlement that is
/// positive is enough, however little of it remains.
pub proof fn law_in_plan(quota: Quota)
    ensures
        quota.included() == granted(quota),
        quota.unlimited ==> quota.included(),
        !quota.unlimited && !quota.has_quota ==> !quota.included(),
        !quota.unlimited && quota.has_quota && quota.entitlement is None ==> quota.included(),
        !quota.unlimited && quota.has_quota ==> (quota.entitlement matches Some(entitlement) ==> {
            &&& entitlement.units() > 0 ==> quota.included()
            &&& entitlement.equals(Binary64 { bits: 0 }) ==> !quota.included()
            &&& !entitlement.equals(Binary64 { bits: 0 }) ==> quota.included()
        }),
{
}

/// Neither what remains, in percent or as an amount, nor the billing decides
/// whether a quota is part of the plan.
pub proof fn law_the_rest_does_not_decide_the_plan(a: Quota, b: Quota)
    requires
        a.unlimited == b.unlimited,
        a.has_quota == b.has_quota,
        a.entitlement == b.entitlement,
    ensures
        a.included() == b.included(),
{
}

/// Of two quotas that are in the plan and have limits, the percentage that is left
/// alone decides what is used: neither the amounts nor the billing do.
pub proof fn law_the_rest_does_not_decide_the_use(a: Quota, b: Quota)
    requires
        granted(a) && granted(b),
        !a.unlimited && !b.unlimited,
        a.percent_remaining == b.percent_remaining,
    ensures
        a.used_percentage() == b.used_percentage(),
{
}

proof fn lemma_hundred_less(left: Binary64)
    requires
        left.finite(),
        0 <= left.units() < 100 * one(),
    ensures
        ({
            let rest = (100 * one() - left.units()) as nat;
            let used = Binary64 { bits: HUNDRED }.surplus(left);
            &&& 2 * rest <= 2 * magnitude(used.pattern()) + pow2(1028)
            &&& 2 * magnitude(used.pattern()) <= 2 * rest + pow2(1028)
        }),
{
    let o = one();
    let rest = (100 * o - left.units()) as nat;
    lemma_hundred();
    let s = excess(rest, 1);
    let p = pow2(s);
    lemma_excess(rest, 1);
    lemma_nearest_magnitude(rest, 1);
    lemma_half_even(rest, 1 * p);
    lemma_pow2_pos(s);
    lemma_pow2_pos(1074);
    lemma2_to64();
    lemma_pow2_adds(7, 1074);
    assert(1 * p == p) by (nonlinear_arith);
    assert(p <= pow2(1028)) by {
        if s > 1028 {
            lemma_pow2_adds(52, s);
            if s > 1029 {
                lemma_pow2_strictly_increases(1029, s);
            }
            lemma_pow2_adds(52, 1029);
            assert(pow2(52) == 0x10_0000_0000_0000) by {
                lemma2_to64_rest();
            }
            assert(0x10_0000_0000_0000 * p >= pow2(1081)) by (nonlinear_arith)
                requires
                    p >= pow2(1029),
                    pow2(1081) == 0x10_0000_0000_0000 * pow2(1029),
            ;
            assert(pow2(1081) == 128 * o);
            assert(false);
        } else if s < 1028 {
            lemma_pow2_strictly_increases(s, 1028);
        }
    }
    let q = half_even(rest, p);
    let b = (s * BINADE + q) as nat;
    if b >= INFINITE {
        law_infinite_is_too_large(rest, 1);
        let top = magnitude(INFINITE as nat);
        assert(top >= 256 * o) by {
            lemma_pow2_strictly_increases(1074, 2045);
            assert(INFINITE as nat % (BINADE as nat) == 0 && INFINITE as nat / (BINADE as nat)
                == 2047);
            assert(top == (BINADE + 0) * pow2(2046));
            lemma_pow2_strictly_increases(1074, 2046);
            assert((BINADE + 0) * pow2(2046) >= 256 * pow2(1074)) by (nonlinear_arith)
                requires
                    pow2(2046) >= pow2(1074),
                    BINADE == 0x10_0000_0000_0000,
            ;
        }
        let last = magnitude((INFINITE - 1) as nat);
        assert((last + top) * 1 == last + top) by (nonlinear_arith);
        assert(false);
    }
    assert(nearest(rest, 1) == b);
    assert(magnitude(b) == q * p);
}

/// What is used in percent is the whole number nearest to what is missing to a
/// hundred: off by no more than one half, but for the `2^-47` by which the
/// difference itself may be rounded.
pub proof fn law_used_is_nearest(quota: Quota)
    requires
        granted(quota),
        !quota.unlimited,
        quota.percent_remaining.finite(),
        0 <= quota.percent_remaining.units() <= 100 * one(),
    ensures
        ({
            let rest = 100 * one() - quota.percent_remaining.units();
            let used = quota.used_percentage();
            &&& 2 * (used * one()) <= 2 * rest + one() + pow2(1028)
            &&& 2 * rest <= 2 * (used * one()) + one() + pow2(1028)
        }),
{
    let o = one();
    let left = quota.percent_remaining;
    lemma_pow2_pos(1074);
    lemma_pow2_pos(1028);
    if left.units() == 100 * o {
        assert(100 * o - left.units() == 0);
        law_whole_percentages(quota, 100);
        assert(0 * o == 0) by (nonlinear_arith);
    } else {
        lemma_hundred_less(left);
        let m = magnitude(Binary64 { bits: HUNDRED }.surplus(left).pattern());
        let w = (2 * m + o) / (2 * o);
        lemma_fundamental_div_mod((2 * m + o) as int, (2 * o) as int);
        let used = quota.used_percentage();
        assert((2 * o) * w == 2 * (w * o)) by (nonlinear_arith);
        if w < 100 {
            assert(used == w);
        } else {
            assert(used == 100);
            assert(w * o >= 100 * o) by (nonlinear_arith)
                requires
                    w >= 100,
                    o > 0,
            ;
        }
    }
}

/// Where what is left lies half way between two whole percentages, the use is
/// rounded up: the half percent counts as used.
pub proof fn law_half_a_percent_counts_as_used(quota: Quota, left: nat)
    requires
        granted(quota),
        !quota.unlimited,
        left < 100,
        quota.percent_remaining.finite(),
        2 * quota.percent_remaining.units() == (2 * left + 1) * one(),
    ensures
        quota.used_percentage() == 100 - left,
{
    let o = one();
    let h = pow2(1073);
    lemma_hundred();
    lemma_pow2_unfold(1074);
    lemma_pow2_pos(1073);
    let units = quota.percent_remaining.units();
    assert(units == (2 * left + 1) * h) by (nonlinear_arith)
        requires
            2 * units == (2 * left + 1) * o,
            o == 2 * h,
    ;
    let m = (199 - 2 * left) as nat;
    assert(100 * o - units == m * h) by (nonlinear_arith)
        requires
            o == 2 * h,
            units == (2 * left + 1) * h,
            m == 199 - 2 * left,
    ;
    assert(m * h > 0) by (nonlinear_arith)
        requires
            m > 0,
            h > 0,
    ;
    assert(m * h * 1 == m * h) by (nonlinear_arith);
    law_exact_is_kept(m * h, 1, m, 1073);
    let used = (100 - left) as nat;
    assert(2 * (m * h) + o == used * (2 * o) + 0) by (nonlinear_arith)
        requires
            o == 2 * h,
            m == 199 - 2 * left,
            used == 100 - left,
    ;
    lemma_fundamental_div_mod_converse((2 * (m * h) + o) as int, (2 * o) as int, used as int, 0);
}

/// What is left beyond a hundred percent leaves nothing used, and what is not above
/// zero leaves everything used. What is not a number counts as nothing used.
pub proof fn law_use_out_of_range(quota: Quota)
    requires
        granted(quota),
        !quota.unlimited,
    ensures
        quota.percent_remaining.nan() ==> quota.used_percentage() == 0,
        !quota.percent_remaining.nan() && quota.percent_remaining.units() >= 100 * one()
            ==> quota.used_percentage() == 0,
        !quota.percent_remaining.nan() && quota.percent_remaining.units() <= 0
            ==> quota.used_percentage() == 100,
{
    let o = one();
    lemma_hundred();
    lemma_pow2_pos(1074);
    let full = Quota { percent_remaining: Binary64 { bits: HUNDRED }, ..quota };
    let none = Quota { percent_remaining: Binary64 { bits: 0 }, ..quota };
    lemma_magnitude_ordered(HUNDRED as nat, INFINITE as nat);
    law_whole_percentages(full, 100);
    assert(0 * o == 0) by (nonlinear_arith);
    law_whole_percentages(none, 0);
    let left = quota.percent_remaining;
    if left.nan() {
        lemma_fundamental_div_mod_converse(
            (2 * magnitude(0) + o) as int,
            (2 * o) as int,
            0,
            o as int,
        );
    } else if left.units() >= 100 * o {
        law_less_left_is_not_less_used(full, quota);
        lemma_whole_percentage_range(Binary64 { bits: HUNDRED }.surplus(left));
    } else if left.units() <= 0 {
        law_less_left_is_not_less_used(quota, none);
        lemma_whole_percentage_range(Binary64 { bits: HUNDRED }.surplus(left));
    }
}

/// A quota that is not granted counts as unused, and so does one without limit.
pub proof fn law_unused(quota: Quota)
    requires
        quota.unlimited || !granted(quota),
    ensures
        quota.used_percentage() == 0,
{
}

/// The amounts of a quota are told exactly where the entitlement and what remains
/// of it are both known. The second is the entitlement as it is, the first what is
/// missing to it: rounded once, and zero where no less remains than the entitlement.
/// Nothing else said of the quota changes either.
pub proof fn law_amounts(quota: Quota)
    ensures
        quota.used_amounts() is Some <==> quota.entitlement is Some && quota.remaining is Some,
        quota.used_amounts() matches Some((used, limit)) ==> {
            let remaining = quota.remaining->0;
            &&& quota.entitlement == Some(limit)
            &&& !used.negative() && !used.nan()
            &&& limit.nan() || remaining.nan() ==> used.bits == 0
            &&& !limit.nan() && !remaining.nan() && limit.units() <= remaining.units() ==> used.bits
                == 0
            &&& limit.finite() && remaining.finite() && limit.units() > remaining.units()
                ==> rounded(used.pattern(), (limit.units() - remaining.units()) as nat, 1)
            &&& !limit.nan() && !remaining.nan() && (limit.infinite() || remaining.infinite())
                && limit.units() > remaining.units() ==> used.bits == INFINITE
        },
{
    if let (Some(limit), Some(remaining)) = (quota.entitlement, quota.remaining) {
        law_surplus(limit, remaining);
    }
}

/// The amounts in words are the used one and the entitlement, with "of" between them.
pub proof fn law_amounts_in_words(quota: Quota)
    ensures
        quota.used_text() is Some <==> quota.entitlement is Some && quota.remaining is Some,
        quota.used_amounts() matches Some((used, limit)) ==> quota.used_text() == Some(
            count_text(used) + seq![' ', 'o', 'f', ' '] + count_text(limit),
        ),
{
    reveal_strlit(" of ");
    assert(" of "@ =~= seq![' ', 'o', 'f', ' ']);
}

/// The words for the use of a quota with a limit, granted or not, are its percentage
/// and the amounts where both are known, and else what is left in percent.
pub proof fn law_words(quota: Quota)
    requires
        !quota.unlimited,
    ensures
        quota.used_amounts() matches Some((used, limit)) ==> usage_words(quota) == decimal(
            quota.used_percentage() as nat,
        ) + "% · "@ + count_text(used) + " of "@ + count_text(limit) + " used"@,
        quota.entitlement is None || quota.remaining is None ==> usage_words(quota) == decimal(
            quota.used_percentage() as nat,
        ) + "% · "@ + fixed(quota.percent_remaining, false) + "% remaining"@,
{
    if let Some((used, limit)) = quota.used_amounts() {
        assert(usage_words(quota) =~= decimal(quota.used_percentage() as nat) + "% · "@
            + count_text(used) + " of "@ + count_text(limit) + " used"@);
    }
}

/// Two quotas of the same entitlement of which the same remains have the same
/// amounts and the same words for them, whatever else is said of them.
pub proof fn law_the_rest_does_not_decide_the_amounts(a: Quota, b: Quota)
    requires
        a.entitlement == b.entitlement,
        a.remaining == b.remaining,
    ensures
        a.used_amounts() == b.used_amounts(),
        a.used_text() == b.used_text(),
{
}

/// What is shown are the granted quotas of the buckets and no others, each once, in
/// the order premium requests, chat, completions. Under token-based billing chat is
/// labelled as credits and completions as inline suggestions.
pub proof fn law_shown_in_order(snap: Snapshot)
    ensures
        snap.shown().len() == places(snap.premium) + places(snap.chat) + places(snap.completions),
        forall|quota: Quota| #[trigger]
            granted_in(snap.premium, quota) ==> snap.shown()[0] == ("Premium requests"@, quota),
        forall|quota: Quota| #[trigger]
            granted_in(snap.chat, quota) ==> snap.shown()[places(snap.premium)] == (
                if quota.token_based_billing {
                    "Credits"@
                } else {
                    "Chat"@
                },
                quota,
            ),
        forall|quota: Quota| #[trigger]
            granted_in(snap.completions, quota) ==> snap.shown()[places(snap.premium) + places(
                snap.chat,
            )] == (
                if quota.token_based_billing {
                    "Inline suggestions"@
                } else {
                    "Completions"@
                },
                quota,
            ),
{
    lemma_places(snap.premium);
    lemma_places(snap.chat);
    lemma_places(snap.completions);
}

proof fn lemma_places(bucket: Option<Quota>)
    ensures
        places(bucket) == (match bucket {
            Some(quota) => if quota.included() {
                1int
            } else {
                0
            },
            None => 0,
        }),
{
    if let Some(quota) = bucket {
        if granted(quota) {
            assert(granted_in(bucket, quota));
        }
    }
}

/// The worst percentage is no less than that of any granted quota of a bucket, and
/// it is that of one of them, unless there is none: then it is zero.
pub proof fn law_worst_of_the_granted(snap: Snapshot)
    ensures
        forall|quota: Quota| #[trigger]
            granted_in(snap.premium, quota) ==> quota.used_percentage() <= snap.worst(),
        forall|quota: Quota| #[trigger]
            granted_in(snap.chat, quota) ==> quota.used_percentage() <= snap.worst(),
        forall|quota: Quota| #[trigger]
            granted_in(snap.completions, quota) ==> quota.used_percentage() <= snap.worst(),
        snap.worst() == 0 || exists|quota: Quota|
            (granted_in(snap.premium, quota) || granted_in(snap.chat, quota) || granted_in(
                snap.completions,
                quota,
            )) && #[trigger] quota.used_percentage() == snap.worst(),
        0 <= snap.worst() <= 100,
{
    law_shown_in_order(snap);
    law_worst_is_the_highest_shown(snap);
    let shown = snap.shown();
    assert forall|quota: Quota| #[trigger] granted_in(snap.premium, quota) implies
        quota.used_percentage() <= snap.worst() by {
        assert(shown[0].1 == quota);
    }
    assert forall|quota: Quota| #[trigger] granted_in(snap.chat, quota) implies
        quota.used_percentage() <= snap.worst() by {
        assert(shown[places(snap.premium)].1 == quota);
    }
    assert forall|quota: Quota| #[trigger] granted_in(snap.completions, quota) implies
        quota.used_percentage() <= snap.worst() by {
        assert(shown[places(snap.premium) + places(snap.chat)].1 == quota);
    }
    if shown.len() > 0 {
        let i = choose|i: int|
            0 <= i < shown.len() && (#[trigger] shown[i]).1.used_percentage() == snap.worst();
        let quota = shown[i].1;
        assert(granted_in(snap.premium, quota) || granted_in(snap.chat, quota) || granted_in(
            snap.completions,
            quota,
        )) by {
            lemma_places(snap.premium);
            lemma_places(snap.chat);
            lemma_places(snap.completions);
        }
    }
}

/// The figures of a quota follow from what is said of it. There are none where it
/// is missing or not granted. One without limit counts as unused. Of any other the
/// percentage is the one that is used, whatever its billing, and the amounts are
/// its amounts, as far as there are any.
pub proof fn law_figures(quota: Quota)
    ensures
        !granted(quota) ==> ({
            let figures = quota_texts(Some(quota));
            figures.percent == "—"@ && figures.used == "—"@ && figures.limit == "—"@
        }),
        quota.unlimited ==> ({
            let figures = quota_texts(Some(quota));
            figures.percent == "0"@ && figures.used == "0"@ && figures.limit == "unlimited"@
        }),
        granted(quota) && !quota.unlimited ==> ({
            let figures = quota_texts(Some(quota));
            &&& figures.percent == decimal(quota.used_percentage() as nat)
            &&& quota.used_amounts() matches Some((used, limit)) ==> figures.used == count_text(used)
                && figures.limit == count_text(limit)
            &&& quota.entitlement is None || quota.remaining is None ==> figures.used == "—"@
                && figures.limit == "—"@
        }),
        ({
            let figures = quota_texts(None);
            figures.percent == "—"@ && figures.used == "—"@ && figures.limit == "—"@
        }),
{
}

/// The words for the use of a granted quota with a limit start with the percentage
/// among its figures. They go on with the amounts among its figures, where there are
/// any, and else with what is left in percent. One without limit is called so.
pub proof fn law_words_agree_with_figures(quota: Quota)
    ensures
        quota.unlimited ==> usage_words(quota) == "Unlimited"@,
        granted(quota) && !quota.unlimited ==> ({
            let figures = quota_texts(Some(quota));
            let start = decimal(quota.used_percentage() as nat) + "% · "@;
            &&& figures.percent + "% · "@ == start
            &&& usage_words(quota) == start + (if quota.entitlement is Some && quota.remaining
                is Some {
                figures.used + " of "@ + figures.limit + " used"@
            } else {
                fixed(quota.percent_remaining, false) + "% remaining"@
            })
        }),
{
    if granted(quota) && !quota.unlimited {
        let figures = quota_texts(Some(quota));
        let start = decimal(quota.used_percentage() as nat) + "% · "@;
        if quota.entitlement is Some && quota.remaining is Some {
            assert(usage_words(quota) =~= start + (figures.used + " of "@ + figures.limit
                + " used"@));
        } else {
            assert(usage_words(quota) =~= start + (fixed(quota.percent_remaining, false)
                + "% remaining"@));
        }
    }
}

/// Where one quota alone is shown and it has a limit, the headline gives the same
/// percentage as the figures of that quota and as the words for its use.
pub proof fn law_the_only_quota_is_the_headline(
    snap: Snapshot,
    quota: Quota,
    plan: Seq<char>,
    reset: Seq<char>,
)
    requires
        granted_in(snap.premium, quota) || granted_in(snap.chat, quota) || granted_in(
            snap.completions,
            quota,
        ),
        places(snap.premium) + places(snap.chat) + places(snap.completions) == 1,
        !quota.unlimited,
    ensures
        placeholder_texts(snap, plan, reset)["copilot_pct"@] == quota_texts(Some(quota)).percent,
        placeholder_texts(snap, plan, reset)["copilot_pct"@] == decimal(
            quota.used_percentage() as nat,
        ),
        (placeholder_texts(snap, plan, reset)["copilot_pct"@] + "% · "@).is_prefix_of(
            usage_words(quota),
        ),
{
    lemma_placeholder_names();
    law_worst_of_the_granted(snap);
    law_shown_in_order(snap);
    law_worst_is_the_highest_shown(snap);
    lemma_places(snap.premium);
    lemma_places(snap.chat);
    lemma_places(snap.completions);
    assert(snap.shown()[0].1 == quota);
    law_words_agree_with_figures(quota);
    let start = decimal(quota.used_percentage() as nat) + "% · "@;
    assert(usage_words(quota).take(start.len() as int) =~= start);
}

/// An allowance that is spent is shown as such: of a quota that GitHub states, with
/// a positive entitlement of which nothing is left, a hundred percent is used. It is
/// the worst that is shown, whatever amount is said to remain and however it is
/// billed.
pub proof fn law_spent_is_shown(snap: Snapshot, quota: Quota, plan: Seq<char>, reset: Seq<char>)
    requires
        snap.premium == Some(quota) || snap.chat == Some(quota) || snap.completions == Some(quota),
        !quota.unlimited,
        quota.has_quota,
        quota.entitlement matches Some(entitlement) && entitlement.units() > 0,
        quota.percent_remaining.finite(),
        quota.percent_remaining.units() == 0,
    ensures
        quota.included(),
        quota.used_percentage() == 100,
        quota_texts(Some(quota)).percent == seq!['1', '0', '0'],
        exists|i: int| 0 <= i < snap.shown().len() && (#[trigger] snap.shown()[i]).1 == quota,
        snap.worst() == 100,
        placeholder_texts(snap, plan, reset)["copilot_pct"@] == seq!['1', '0', '0'],
{
    law_in_plan(quota);
    law_use_out_of_range(quota);
    lemma_pow2_pos(1074);
    lemma_places(snap.premium);
    lemma_places(snap.chat);
    lemma_places(snap.completions);
    law_shown_in_order(snap);
    law_worst_of_the_granted(snap);
    lemma_placeholder_names();
    if snap.premium == Some(quota) {
        assert(granted_in(snap.premium, quota));
        assert(snap.shown()[0].1 == quota);
    } else if snap.chat == Some(quota) {
        assert(granted_in(snap.chat, quota));
        assert(snap.shown()[places(snap.premium)].1 == quota);
    } else {
        assert(granted_in(snap.completions, quota));
        assert(snap.shown()[places(snap.premium) + places(snap.chat)].1 == quota);
    }
    reveal_with_fuel(decimal, 3);
    assert(decimal(100) =~= seq!['1', '0', '0']);
}

/// A list of quotas holds each label and each quota as it stands in the list.
pub proof fn law_lists_are_read_in_order(quotas: Seq<(&'static str, &Quota)>)
    ensures
        labelled(quotas).len() == quotas.len(),
        forall|i: int|
            0 <= i < quotas.len() ==> (#[trigger] labelled(quotas)[i]).0 == quotas[i].0@
                && labelled(quotas)[i].1 == *quotas[i].1,
{
}

} // verus!
