//! What holds of the quotas, the plan and the reset time that are read from a
//! response, in terms of what the response holds.

use crate::binary64::{lemma_hundred, Binary64, HUNDRED};
use crate::json::{field_view, object_members, Field, FieldView};
use crate::number_laws::{law_percentage, law_share, law_trimmed, share_by_way_of};
use crate::numeral::{numeral, trimmed, white_space};
use crate::reset::{calendar_day, reset_of, rfc3339_instant, Instant};
use crate::rounding::{lemma_magnitude_ordered, magnitude, one, INFINITE};
use crate::types::{
    amount, bucket_quota, first_of, plan_name, quota_fields, reset_in, snapshot_of, text_of,
    AppError, Quota, QuotaFields, QuotaFieldsView, Response, Snapshot,
};
use serde_json::Value;
use vstd::arithmetic::power2::lemma_pow2_pos;
use vstd::prelude::*;

verus! {

/// A field gives an amount: it is that number, or text that reads as that number
/// once the white space around it is gone, and the number is finite and not below
/// zero.
pub open spec fn gives(field: Option<FieldView>, value: Binary64) -> bool {
    &&& field == Some(FieldView::Number(Some(value))) || (field matches Some(FieldView::Text(text))
        && numeral(trimmed(text)) == Some(value))
    &&& value.finite()
    &&& value.units() >= 0
}

/// A field gives no amount.
pub open spec fn gives_none(field: Option<FieldView>) -> bool {
    forall|value: Binary64| !(#[trigger] gives(field, value))
}

/// The fields give what is left: the unrounded figure, or the rounded one where
/// there is no unrounded one.
pub open spec fn gives_left(fields: QuotaFieldsView, value: Binary64) -> bool {
    gives(fields.quota_remaining, value) || (gives_none(fields.quota_remaining) && gives(
        fields.remaining,
        value,
    ))
}

/// The fields give amounts that tell which share is left.
pub open spec fn gives_share(
    fields: QuotaFieldsView,
    entitlement: Binary64,
    left: Binary64,
) -> bool {
    gives(fields.entitlement, entitlement) && entitlement.units() > 0 && gives_left(fields, left)
}

/// The number that a field holds is an amount exactly where it is finite and not
/// below zero, however it is written down. A truth value, an array, an object and
/// nothing at all are none.
pub proof fn law_amount(field: Option<FieldView>, value: Binary64)
    ensures
        amount(field) == Some(value) <==> gives(field, value),
        amount(field) is None <==> gives_none(field),
{
    assert forall|v: Binary64| amount(field) == Some(v) <==> #[trigger] gives(field, v) by {
        lemma_sign(v);
        if let Some(FieldView::Number(Some(n))) = field {
            lemma_sign(n);
        }
        if let Some(FieldView::Text(text)) = field {
            if let Some(n) = numeral(trimmed(text)) {
                lemma_sign(n);
            }
        }
    }
    if let Some(v) = amount(field) {
        assert(gives(field, v));
    }
}

/// A number counts as not below zero exactly where its value is not.
pub proof fn lemma_sign(value: Binary64)
    ensures
        value.finite() ==> (value.not_below_zero() <==> value.units() >= 0),
        value.finite() ==> (value.pattern() == 0 <==> value.units() == 0),
{
    if value.pattern() > 0 {
        lemma_magnitude_ordered(0, value.pattern());
    }
}

/// A bucket that is stated to be without limit is read as a quota without limit,
/// whatever else it holds; no other bucket is. Where the bucket states whether the
/// plan has it and how it is billed, the quota says the same; where it does not, the
/// plan has it and it is not billed by tokens.
pub proof fn law_flags(fields: QuotaFieldsView)
    ensures
        fields.unlimited == Some(FieldView::Bool(true)) ==> (fields.quota() matches Some(quota)
            && quota.unlimited),
        fields.unlimited != Some(FieldView::Bool(true)) ==> (fields.quota() matches Some(quota)
            ==> !quota.unlimited),
        fields.quota() matches Some(quota) ==> {
            &&& quota.has_quota <==> fields.has_quota != Some(FieldView::Bool(false))
            &&& quota.token_based_billing <==> fields.token_based_billing == Some(
                FieldView::Bool(true),
            )
        },
{
}

/// A quota is read exactly where it is stated to be without limit, where the
/// percentage that is left is stated, or where the amounts tell it: an entitlement
/// that is more than zero, and what is left.
pub proof fn law_when_a_quota_is_read(fields: QuotaFieldsView)
    ensures
        fields.quota() is Some <==> {
            ||| fields.unlimited == Some(FieldView::Bool(true))
            ||| exists|percent: Binary64| #[trigger] gives(fields.percent_remaining, percent)
            ||| exists|entitlement: Binary64, left: Binary64| #[trigger]
                gives_share(fields, entitlement, left)
        },
{
    lemma_fields(fields);
    match amount(fields.percent_remaining) {
        Some(percent) => {
            law_amount(fields.percent_remaining, percent);
        },
        None => {
            law_amount(fields.percent_remaining, Binary64 { bits: 0 });
        },
    }
    if let (Some(entitlement), Some(left)) = (amount(fields.entitlement), fields.amount_left()) {
        lemma_sign(entitlement);
        assert(gives(fields.entitlement, entitlement));
        assert(gives_left(fields, left));
        if entitlement.pattern() > 0 {
            assert(gives_share(fields, entitlement, left));
        }
    }
    assert forall|entitlement: Binary64, left: Binary64| #[trigger]
        gives_share(fields, entitlement, left) implies fields.percent_left() is Some by {
        lemma_sign(entitlement);
        assert(amount(fields.entitlement) == Some(entitlement));
        assert(fields.amount_left() == Some(left));
    }
}

proof fn lemma_fields(fields: QuotaFieldsView)
    ensures
        forall|v: Binary64| amount(fields.entitlement) == Some(v) <==> #[trigger]
            gives(fields.entitlement, v),
        forall|v: Binary64| fields.amount_left() == Some(v) <==> #[trigger] gives_left(fields, v),
{
    assert forall|v: Binary64| amount(fields.entitlement) == Some(v) <==> #[trigger]
        gives(fields.entitlement, v) by {
        law_amount(fields.entitlement, v);
    }
    assert forall|v: Binary64| fields.amount_left() == Some(v) <==> #[trigger]
        gives_left(fields, v) by {
        law_amount(fields.quota_remaining, v);
        law_amount(fields.remaining, v);
        if let Some(u) = amount(fields.quota_remaining) {
            law_amount(fields.quota_remaining, u);
            assert(gives(fields.quota_remaining, u));
        }
    }
}

/// The quota that is read has the entitlement that is given and what is given as
/// left of it, where there is such, and none where there is not. The unrounded
/// figure of what is left goes before the rounded one.
pub proof fn law_amounts_are_kept(fields: QuotaFieldsView)
    ensures
        fields.quota() matches Some(quota) ==> {
            &&& forall|v: Binary64| quota.entitlement == Some(v) <==> #[trigger]
                gives(fields.entitlement, v)
            &&& forall|v: Binary64| quota.remaining == Some(v) <==> #[trigger]
                gives_left(fields, v)
        },
{
    lemma_fields(fields);
}

/// A percentage that is stated is kept, up to a hundred, whatever the amounts say; a
/// larger one becomes a hundred.
pub proof fn law_stated_percentage_is_kept(fields: QuotaFieldsView, percent: Binary64)
    requires
        gives(fields.percent_remaining, percent),
    ensures
        fields.quota() matches Some(quota) && {
            &&& percent.units() <= 100 * one() ==> quota.percent_remaining == percent
            &&& percent.units() > 100 * one() ==> quota.percent_remaining.finite()
                && quota.percent_remaining.units() == 100 * one()
        },
{
    law_amount(fields.percent_remaining, percent);
    law_percentage(percent);
}

/// Where no percentage is stated, it is the share that is left by the amounts: zero
/// where nothing is left, and no more than a hundred.
pub proof fn law_share_is_told_by_the_amounts(
    fields: QuotaFieldsView,
    entitlement: Binary64,
    left: Binary64,
)
    requires
        gives_none(fields.percent_remaining),
        gives_share(fields, entitlement, left),
    ensures
        fields.quota() matches Some(quota) && {
            &&& quota.percent_remaining.finite() && 0 <= quota.percent_remaining.units() <= 100
                * one()
            &&& left.units() == 0 ==> quota.percent_remaining.units() == 0
            &&& left.units() > 0 ==> exists|h: nat, share: nat| #[trigger]
                share_by_way_of(left.pattern(), entitlement.pattern(), h, share) && (if magnitude(
                    share,
                ) <= 100 * one() {
                    quota.percent_remaining.bits == share
                } else {
                    quota.percent_remaining.units() == 100 * one()
                })
        },
{
    lemma_fields(fields);
    law_amount(fields.percent_remaining, left);
    lemma_sign(entitlement);
    lemma_sign(left);
    assert(gives(fields.entitlement, entitlement));
    assert(gives_left(fields, left));
    let share = left.percent_of(entitlement);
    law_share(left, entitlement);
    lemma_hundred();
    lemma_pow2_pos(1074);
    assert(!share.nan());
    law_percentage(share);
    lemma_magnitude_ordered(HUNDRED as nat, INFINITE as nat);
    if share.pattern() > 0 {
        lemma_magnitude_ordered(0, share.pattern());
    }
    let quota = fields.quota()->0;
    assert(quota.percent_remaining == share.as_percentage());
    if magnitude(share.pattern()) <= 100 * one() {
        if share.pattern() >= INFINITE {
            assert(share.pattern() == INFINITE);
        }
        assert(share.finite());
    }
    if left.units() > 0 {
        let h = choose|h: nat| #[trigger]
            share_by_way_of(left.pattern(), entitlement.pattern(), h, share.pattern());
        assert(share_by_way_of(left.pattern(), entitlement.pattern(), h, share.pattern()));
    }
}

/// A quota without limit has a hundred percent left where neither a stated percentage
/// nor the amounts tell what is left.
pub proof fn law_unlimited_alone_is_untouched(fields: QuotaFieldsView)
    requires
        fields.unlimited == Some(FieldView::Bool(true)),
        gives_none(fields.percent_remaining),
        forall|entitlement: Binary64, left: Binary64|
            !(#[trigger] gives_share(fields, entitlement, left)),
    ensures
        fields.quota() matches Some(quota) && quota.percent_remaining.finite()
            && quota.percent_remaining.units() == 100 * one(),
{
    law_amount(fields.percent_remaining, Binary64 { bits: 0 });
    lemma_fields(fields);
    if let (Some(entitlement), Some(left)) = (amount(fields.entitlement), fields.amount_left()) {
        lemma_sign(entitlement);
        assert(gives(fields.entitlement, entitlement));
        assert(gives_left(fields, left));
        assert(!gives_share(fields, entitlement, left));
    }
    lemma_hundred();
    lemma_magnitude_ordered(HUNDRED as nat, INFINITE as nat);
}

/// Each field of a bucket is its member of that name, where there is one.
pub proof fn law_members_are_found_by_name(members: Map<Seq<char>, FieldView>)
    ensures
        ({
            let fields = quota_fields(members);
            let named = |name: Seq<char>, field: Option<FieldView>|
                field == (if members.contains_key(name) {
                    Some(members[name])
                } else {
                    None
                });
            &&& named("unlimited"@, fields.unlimited)
            &&& named("entitlement"@, fields.entitlement)
            &&& named("quota_remaining"@, fields.quota_remaining)
            &&& named("remaining"@, fields.remaining)
            &&& named("percent_remaining"@, fields.percent_remaining)
            &&& named("has_quota"@, fields.has_quota)
            &&& named("token_based_billing"@, fields.token_based_billing)
        }),
{
}

/// A bucket tells of a quota where it is an object, and then of what its fields
/// tell; anything else tells of none. All buckets are read alike.
pub proof fn law_buckets_are_read_alike(response: Response)
    ensures
        response.quota_snapshots is None ==> response.premium_quota() is None
            && response.chat_quota() is None && response.completions_quota() is None,
        response.quota_snapshots matches Some(buckets) ==> {
            let reads = |bucket: Option<Value>, quota: Option<Quota>|
                quota == (match bucket {
                    Some(value) => match object_members(value) {
                        Some(members) => quota_fields(members).quota(),
                        None => None,
                    },
                    None => None,
                });
            &&& reads(buckets.premium_interactions, response.premium_quota())
            &&& reads(buckets.chat, response.chat_quota())
            &&& reads(buckets.completions, response.completions_quota())
        },
        response.usable() <==> response.premium_quota() is Some || response.chat_quota() is Some
            || response.completions_quota() is Some,
{
}

/// A bucket of a response that is an object and states to be without limit tells of
/// a quota without limit, whatever its other members are.
pub proof fn law_unlimited_buckets(bucket: Value, members: Map<Seq<char>, FieldView>)
    requires
        object_members(bucket) == Some(members),
        members.contains_key("unlimited"@),
        members["unlimited"@] == FieldView::Bool(true),
    ensures
        bucket_quota(Some(bucket)) matches Some(quota) && quota.unlimited,
{
}

/// The name of a plan is what is given, less the white space around it and nothing
/// else. Where nothing is left, or nothing is given, a stand-in takes its place; so
/// the name is never empty.
pub proof fn law_plan_name(given: Option<Seq<char>>)
    ensures
        given is None ==> plan_name(given) == "GitHub Copilot"@,
        given matches Some(name) ==> {
            &&& (forall|k: int| 0 <= k < name.len() ==> white_space(#[trigger] name[k]))
                ==> plan_name(given) == "GitHub Copilot"@
            &&& (exists|k: int| 0 <= k < name.len() && !white_space(#[trigger] name[k])) ==> exists|
                i: int,
                j: int,
            |
                0 <= i < j <= name.len() && plan_name(given) == #[trigger] name.subrange(i, j) && (
                forall|k: int| 0 <= k < i || j <= k < name.len() ==> white_space(#[trigger] name[k]))
                    && !white_space(name[i]) && !white_space(name[j - 1])
        },
        plan_name(given).len() > 0,
{
    reveal_strlit("GitHub Copilot");
    if let Some(name) = given {
        law_trimmed(name);
        let (i, j) = choose|i: int, j: int|
            0 <= i <= j <= name.len() && trimmed(name) == #[trigger] name.subrange(i, j) && (forall|
                k: int,
            |
                0 <= k < i || j <= k < name.len() ==> white_space(#[trigger] name[k])) && (i < j
                ==> (!white_space(name[i]) && !white_space(name[j - 1])));
        assert(name.subrange(i, j).len() == j - i);
        if exists|k: int| 0 <= k < name.len() && !white_space(#[trigger] name[k]) {
            let k = choose|k: int| 0 <= k < name.len() && !white_space(#[trigger] name[k]);
            assert(i <= k < j);
        }
    }
}

/// A text denotes the instant that it states, whatever day it also denotes. One that
/// states a day alone denotes the start of that day: the number of days since 1970
/// starts, each of 86 400 seconds, and no nanoseconds.
pub proof fn law_reset_in_a_text(text: String)
    ensures
        rfc3339_instant(text@) matches Some((seconds, nanos)) ==> reset_in(Some(text)) == Some(
            Instant { seconds, nanos },
        ),
        rfc3339_instant(text@) is None ==> (calendar_day(text@, "%Y-%m-%d"@) matches Some(day)
            ==> reset_in(Some(text)) matches Some(at) && at.nanos == 0 && at.seconds == (day
            - 719_163) * 86_400),
        rfc3339_instant(text@) is None && calendar_day(text@, "%Y-%m-%d"@) is None ==> reset_in(
            Some(text),
        ) is None,
{
}

/// The same of what has been found in a text.
pub proof fn law_reset_of_what_is_found(exact: Option<(i64, u32)>, day: Option<i32>)
    ensures
        exact matches Some((seconds, nanos)) ==> reset_of(exact, day) == Some(
            Instant { seconds, nanos },
        ),
        exact is None ==> (day matches Some(d) ==> reset_of(exact, day) matches Some(at) && at.nanos
            == 0 && at.seconds == (d - 719_163) * 86_400),
        exact is None && day is None ==> reset_of(exact, day) is None,
{
}

/// The reset time stated in UTC goes before the other, which counts only where the
/// first cannot be read or is missing.
pub proof fn law_reset_in_utc_goes_first(response: Response, at: Instant)
    ensures
        reset_in(response.quota_reset_date_utc) == Some(at) ==> response.reset() == Some(at),
        reset_in(response.quota_reset_date_utc) is None ==> response.reset() == reset_in(
            response.quota_reset_date,
        ),
        response.quota_reset_date_utc is None && response.quota_reset_date is None
            ==> response.reset() is None,
{
}

/// A response is accepted exactly where any of its buckets tells of a quota, and then
/// the snapshot holds all that was found in it, each in its place: a bucket that tells
/// of nothing neither hides another nor takes its place. A rejected response is
/// answered with one message, whatever else was found.
pub proof fn law_snapshots(
    plan: Option<Seq<char>>,
    premium: Option<Quota>,
    chat: Option<Quota>,
    completions: Option<Quota>,
    reset_at: Option<Instant>,
    r: Result<Snapshot, AppError>,
)
    requires
        snapshot_of(plan, premium, chat, completions, reset_at, r),
    ensures
        r is Ok <==> premium is Some || chat is Some || completions is Some,
        r matches Ok(snapshot) ==> {
            &&& snapshot.premium == premium
            &&& snapshot.chat == chat
            &&& snapshot.completions == completions
            &&& snapshot.reset_at == reset_at
            &&& snapshot.plan@ == plan_name(plan)
            &&& snapshot.plan@.len() > 0
        },
        r matches Err(error) ==> error matches AppError::Schema(message) && message@
            == "GitHub Copilot response contains no usable quota snapshots"@,
{
    law_plan_name(plan);
}

/// Of two values the first that is there counts.
pub proof fn law_first_of<T>(a: T, b: Option<T>)
    ensures
        first_of(Some(a), b) == Some(a),
        first_of(None, b) == b,
{
}

/// What is read of a bucket is what it holds: truth values, numbers and texts as they
/// are, under the names they have.
pub proof fn law_fields_are_seen_as_they_are(
    fields: QuotaFields,
    text: String,
    n: Option<Binary64>,
    b: bool,
)
    ensures
        fields@.unlimited == field_view(fields.unlimited),
        fields@.entitlement == field_view(fields.entitlement),
        fields@.quota_remaining == field_view(fields.quota_remaining),
        fields@.remaining == field_view(fields.remaining),
        fields@.percent_remaining == field_view(fields.percent_remaining),
        fields@.has_quota == field_view(fields.has_quota),
        fields@.token_based_billing == field_view(fields.token_based_billing),
        field_view(None) is None,
        field_view(Some(Field::Bool(b))) == Some(FieldView::Bool(b)),
        field_view(Some(Field::Number(n))) == Some(FieldView::Number(n)),
        field_view(Some(Field::Text(text))) == Some(FieldView::Text(text@)),
        field_view(Some(Field::Null)) == Some(FieldView::Null),
        field_view(Some(Field::Array)) == Some(FieldView::Array),
        field_view(Some(Field::Object)) == Some(FieldView::Object),
        text_of(Some(text)) == Some(text@),
        text_of(None) is None,
{
}

} // verus!
