//! Quotas, snapshots of them, and the defensive reading of the quota response
//! that GitHub gives to VS Code.

use crate::binary64::{Binary64, HUNDRED};
use crate::decimal::{counts_as_whole, fixed, fixed_text, is_counted_whole};
use crate::json::{as_object, field_view, get, member, object_members, Field, FieldView};
use crate::numeral::{numeral, parse_numeral, trim, trimmed};
use crate::reset::{
    calendar_day, parse_reset, reset_of, rfc3339_instant, Instant, DATE_FORMAT,
};
use crate::rounding::one;
use serde_json::Value;
use vstd::prelude::*;
use vstd::string::StringExecFns;

verus! {

/// An allowance of a plan.
///
/// GitHub reports these as fractions: `quota_remaining` is `198.3` where the
/// sibling `remaining` has already rounded to `198`, and a credit is spent in
/// fractions of one.
#[derive(Clone, Copy, Debug, PartialEq)]
pub struct Quota {
    pub percent_remaining: Binary64,
    pub entitlement: Option<Binary64>,
    pub remaining: Option<Binary64>,
    pub unlimited: bool,
    /// GitHub's own statement that the plan includes this allowance.
    pub has_quota: bool,
    /// Under token-based billing the chat bucket is a pool of credits spent by
    /// every premium interaction, not a count of chat messages.
    pub token_based_billing: bool,
}

/// What stands for `has_quota` where a stored quota does not say: every bucket
/// that was stored without it was one that had been kept on purpose.
pub fn yes() -> (r: bool)
    ensures
        r == true,
{
    true
}

/// How an amount is written: one that is whole at one place after the point
/// without a point, any other with that one place.
pub open spec fn count_text(value: Binary64) -> Seq<char> {
    fixed(value, !(value.finite() && counts_as_whole(value)))
}

impl Quota {
    /// Whether the plan includes the allowance at all.
    pub open spec fn included(self) -> bool {
        self.unlimited || (self.has_quota && match self.entitlement {
            Some(entitlement) => entitlement.pattern() != 0,
            None => true,
        })
    }

    /// How much of the allowance is used up, in whole percent.
    pub open spec fn used_percentage(self) -> int {
        if self.unlimited || !self.included() {
            0
        } else {
            Binary64 { bits: HUNDRED }.surplus(self.percent_remaining).whole_percentage()
        }
    }

    /// What is used, and what there was to use, where both can be told.
    pub open spec fn used_amounts(self) -> Option<(Binary64, Binary64)> {
        match (self.entitlement, self.remaining) {
            (Some(entitlement), Some(remaining)) => Some(
                (entitlement.surplus(remaining), entitlement),
            ),
            _ => None,
        }
    }

    /// "Spent out of allowance" in words.
    pub open spec fn used_text(self) -> Option<Seq<char>> {
        match self.used_amounts() {
            Some((used, entitlement)) => Some(
                count_text(used) + " of "@ + count_text(entitlement),
            ),
            None => None,
        }
    }

    /// A bucket the plan does not include arrives as `has_quota: false` with a
    /// zero entitlement, and its `percent_remaining: 0` is the degenerate
    /// output of `remaining / entitlement` rather than an allowance that was
    /// spent.
    pub fn in_plan(&self) -> (r: bool)
        ensures
            r == self.included(),
    {
        self.unlimited || (self.has_quota && match &self.entitlement {
            Some(entitlement) => !entitlement.is_zero(),
            None => true,
        })
    }

    /// How much of the allowance is used up, in whole percent.
    pub fn used_pct(&self) -> (r: i32)
        ensures
            r == self.used_percentage(),
            0 <= r <= 100,
    {
        if self.unlimited || !self.in_plan() {
            0
        } else {
            let used: Binary64 = Binary64 { bits: HUNDRED }.surplus_over(&self.percent_remaining);
            proof {
                lemma_whole_percentage_range(used);
            }
            used.to_whole_percentage()
        }
    }

    /// What is used, and what there was to use.
    pub fn used_and_entitlement(&self) -> (r: Option<(Binary64, Binary64)>)
        ensures
            r == self.used_amounts(),
    {
        match (&self.entitlement, &self.remaining) {
            (Some(entitlement), Some(remaining)) => Some(
                (entitlement.surplus_over(remaining), *entitlement),
            ),
            _ => None,
        }
    }

    /// The single rendering of "spent out of allowance", so the tooltip and
    /// the panel cannot disagree about how much of a credit is a credit.
    pub fn used_of_entitlement(&self) -> (r: Option<String>)
        ensures
            match r {
                Some(text) => self.used_text() == Some(text@),
                None => self.used_text() is None,
            },
    {
        match self.used_and_entitlement() {
            Some((used, entitlement)) => {
                let mut text: String = count(used);
                text.append(" of ");
                let limit: String = count(entitlement);
                text.append(limit.as_str());
                Some(text)
            },
            None => None,
        }
    }
}

/// A whole percentage lies between zero and a hundred.
pub proof fn lemma_whole_percentage_range(value: Binary64)
    ensures
        0 <= value.whole_percentage() <= 100,
{
    vstd::arithmetic::power2::lemma_pow2_pos(1074);
    vstd::arithmetic::div_mod::lemma_div_pos_is_pos(
        (2 * crate::rounding::magnitude(value.pattern()) + one()) as int,
        (2 * one()) as int,
    );
}

/// A fractional credit keeps one decimal, as VS Code shows it; a whole count
/// stays whole rather than growing a `.0`.
pub fn count(value: Binary64) -> (r: String)
    ensures
        r@ == count_text(value),
{
    let whole: bool = value.is_finite() && is_counted_whole(&value);
    fixed_text(&value, !whole)
}

/// What is kept of a quota response. Account data that the response may hold is
/// not among it.
#[derive(Clone, Debug, PartialEq)]
pub struct Snapshot {
    pub plan: String,
    pub premium: Option<Quota>,
    pub chat: Option<Quota>,
    pub completions: Option<Quota>,
    pub reset_at: Option<Instant>,
}

/// A quota under its label, if there is one that the plan includes.
pub open spec fn listed(
    credit_label: Seq<char>,
    count_label: Seq<char>,
    quota: Option<Quota>,
) -> Seq<(Seq<char>, Quota)> {
    match quota {
        Some(q) => if q.included() {
            seq![
                (
                    if q.token_based_billing {
                        credit_label
                    } else {
                        count_label
                    },
                    q,
                ),
            ]
        } else {
            seq![]
        },
        None => seq![],
    }
}

/// The highest percentage among quotas, zero where there are none.
pub open spec fn worst_of(quotas: Seq<(Seq<char>, Quota)>) -> int
    decreases quotas.len(),
{
    if quotas.len() == 0 {
        0
    } else {
        let before = worst_of(quotas.drop_last());
        let last = quotas.last().1.used_percentage();
        if before < last {
            last
        } else {
            before
        }
    }
}

/// A list of labelled quotas, by what it holds.
pub open spec fn labelled(quotas: Seq<(&'static str, &Quota)>) -> Seq<(Seq<char>, Quota)> {
    Seq::new(quotas.len(), |i: int| (quotas[i].0@, *quotas[i].1))
}

fn list_quota<'a>(
    quotas: &mut Vec<(&'static str, &'a Quota)>,
    credit_label: &'static str,
    count_label: &'static str,
    quota: &'a Option<Quota>,
)
    ensures
        labelled(final(quotas)@) == labelled(old(quotas)@) + listed(
            credit_label@,
            count_label@,
            *quota,
        ),
{
    if let Some(q) = quota {
        if q.in_plan() {
            let label: &'static str = if q.token_based_billing {
                credit_label
            } else {
                count_label
            };
            quotas.push((label, q));
        }
    }
    assert(labelled(quotas@) =~= labelled(old(quotas)@) + listed(
        credit_label@,
        count_label@,
        *quota,
    ));
}

impl Snapshot {
    /// The quotas that the plan includes, each under its label.
    pub open spec fn shown(self) -> Seq<(Seq<char>, Quota)> {
        listed("Premium requests"@, "Premium requests"@, self.premium) + listed(
            "Credits"@,
            "Chat"@,
            self.chat,
        ) + listed("Inline suggestions"@, "Completions"@, self.completions)
    }

    /// The highest percentage used of any quota that the plan includes.
    pub open spec fn worst(self) -> int {
        worst_of(self.shown())
    }

    /// Labels follow what the account is actually billed for: under token-based
    /// billing GitHub's `chat` bucket is the credit pool VS Code calls
    /// "Credits", and `completions` the inline suggestions it meters.
    pub fn quotas(&self) -> (r: Vec<(&'static str, &Quota)>)
        ensures
            labelled(r@) == self.shown(),
    {
        let mut quotas: Vec<(&'static str, &Quota)> = Vec::new();
        list_quota(&mut quotas, "Premium requests", "Premium requests", &self.premium);
        list_quota(&mut quotas, "Credits", "Chat", &self.chat);
        list_quota(&mut quotas, "Inline suggestions", "Completions", &self.completions);
        assert(labelled(quotas@) =~= self.shown());
        quotas
    }

    /// The highest percentage used of any quota that the plan includes.
    pub fn worst_pct(&self) -> (r: i32)
        ensures
            r == self.worst(),
            0 <= r <= 100,
    {
        let quotas: Vec<(&'static str, &Quota)> = self.quotas();
        let mut worst: i32 = 0;
        let mut i: usize = 0;
        while i < quotas.len()
            invariant
                i <= quotas@.len(),
                labelled(quotas@) == self.shown(),
                0 <= worst <= 100,
                worst == worst_of(self.shown().take(i as int)),
            decreases quotas@.len() - i,
        {
            let used: i32 = quotas[i].1.used_pct();
            proof {
                let next = self.shown().take(i + 1);
                assert(next.drop_last() =~= self.shown().take(i as int));
                assert(next.last() == labelled(quotas@)[i as int]);
            }
            if worst < used {
                worst = used;
            }
            i = i + 1;
        }
        assert(self.shown().take(i as int) =~= self.shown());
        worst
    }
}

/// Why a response cannot be used.
#[derive(Debug)]
pub enum AppError {
    /// The response lacks what it must hold.
    Schema(String),
}

/// A quota response, as far as it is read.
#[derive(Debug)]
pub struct Response {
    pub copilot_plan: Option<String>,
    pub quota_reset_date: Option<String>,
    pub quota_reset_date_utc: Option<String>,
    pub quota_snapshots: Option<QuotaSnapshots>,
}

/// The quota buckets of a response. Each is read on its own, whatever it is.
#[derive(Debug)]
pub struct QuotaSnapshots {
    pub premium_interactions: Option<Value>,
    pub chat: Option<Value>,
    pub completions: Option<Value>,
}

impl Default for Response {
    fn default() -> (r: Response)
        ensures
            r.copilot_plan is None,
            r.quota_reset_date is None,
            r.quota_reset_date_utc is None,
            r.quota_snapshots is None,
    {
        Response {
            copilot_plan: None,
            quota_reset_date: None,
            quota_reset_date_utc: None,
            quota_snapshots: None,
        }
    }
}

impl Default for QuotaSnapshots {
    fn default() -> (r: QuotaSnapshots)
        ensures
            r.premium_interactions is None,
            r.chat is None,
            r.completions is None,
    {
        QuotaSnapshots { premium_interactions: None, chat: None, completions: None }
    }
}

/// What a quota bucket says of itself.
#[derive(Debug)]
pub struct QuotaFields {
    pub unlimited: Option<Field>,
    pub entitlement: Option<Field>,
    pub quota_remaining: Option<Field>,
    pub remaining: Option<Field>,
    pub percent_remaining: Option<Field>,
    pub has_quota: Option<Field>,
    pub token_based_billing: Option<Field>,
}

/// What [`QuotaFields`] hold.
pub struct QuotaFieldsView {
    pub unlimited: Option<FieldView>,
    pub entitlement: Option<FieldView>,
    pub quota_remaining: Option<FieldView>,
    pub remaining: Option<FieldView>,
    pub percent_remaining: Option<FieldView>,
    pub has_quota: Option<FieldView>,
    pub token_based_billing: Option<FieldView>,
}

impl View for QuotaFields {
    type V = QuotaFieldsView;

    open spec fn view(&self) -> QuotaFieldsView {
        QuotaFieldsView {
            unlimited: field_view(self.unlimited),
            entitlement: field_view(self.entitlement),
            quota_remaining: field_view(self.quota_remaining),
            remaining: field_view(self.remaining),
            percent_remaining: field_view(self.percent_remaining),
            has_quota: field_view(self.has_quota),
            token_based_billing: field_view(self.token_based_billing),
        }
    }
}

/// The fields of a quota bucket among the members of an object.
pub open spec fn quota_fields(members: Map<Seq<char>, FieldView>) -> QuotaFieldsView {
    QuotaFieldsView {
        unlimited: member(members, "unlimited"@),
        entitlement: member(members, "entitlement"@),
        quota_remaining: member(members, "quota_remaining"@),
        remaining: member(members, "remaining"@),
        percent_remaining: member(members, "percent_remaining"@),
        has_quota: member(members, "has_quota"@),
        token_based_billing: member(members, "token_based_billing"@),
    }
}

/// A truth value, or the given one where the field is none.
pub open spec fn flag_or(field: Option<FieldView>, default: bool) -> bool {
    match field {
        Some(FieldView::Bool(b)) => b,
        _ => default,
    }
}

/// The number that a field gives, as a number or as a numeral in text.
pub open spec fn number_given(field: FieldView) -> Option<Binary64> {
    match field {
        FieldView::Number(n) => n,
        FieldView::Text(text) => numeral(trimmed(text)),
        _ => None,
    }
}

/// The amount that a field gives: a finite number not below zero.
pub open spec fn amount(field: Option<FieldView>) -> Option<Binary64> {
    match field {
        Some(f) => match number_given(f) {
            Some(value) => if value.finite() && value.not_below_zero() {
                Some(value)
            } else {
                None
            },
            None => None,
        },
        None => None,
    }
}

/// The first of two optional values that is there.
pub open spec fn first_of<T>(a: Option<T>, b: Option<T>) -> Option<T> {
    match a {
        Some(_) => a,
        None => b,
    }
}

/// What is left in percent, as far as the amounts tell.
pub open spec fn share_left(
    entitlement: Option<Binary64>,
    remaining: Option<Binary64>,
) -> Option<Binary64> {
    match (entitlement, remaining) {
        (Some(entitlement), Some(remaining)) => if entitlement.pattern() > 0 {
            Some(remaining.percent_of(entitlement).as_percentage())
        } else {
            None
        },
        _ => None,
    }
}

impl QuotaFieldsView {
    /// What is left. `quota_remaining` is the unrounded figure; `remaining` is
    /// the same value with the fraction already discarded, and only some
    /// payloads carry both.
    pub open spec fn amount_left(self) -> Option<Binary64> {
        first_of(amount(self.quota_remaining), amount(self.remaining))
    }

    /// What is left in percent: as stated, or else as the amounts tell.
    pub open spec fn percent_left(self) -> Option<Binary64> {
        match amount(self.percent_remaining) {
            Some(value) => Some(value.as_percentage()),
            None => share_left(amount(self.entitlement), self.amount_left()),
        }
    }

    /// The quota, where the fields tell of one: it is unlimited, or what is left
    /// of it in percent is known.
    pub open spec fn quota(self) -> Option<Quota> {
        let unlimited = flag_or(self.unlimited, false);
        if unlimited || self.percent_left() is Some {
            Some(
                Quota {
                    percent_remaining: match self.percent_left() {
                        Some(percent) => percent,
                        None => Binary64 { bits: HUNDRED },
                    },
                    entitlement: amount(self.entitlement),
                    remaining: self.amount_left(),
                    unlimited,
                    has_quota: flag_or(self.has_quota, true),
                    token_based_billing: flag_or(self.token_based_billing, false),
                },
            )
        } else {
            None
        }
    }
}

/// The quota that a bucket of a response tells of: none where it is missing, no
/// object, or without usable fields.
pub open spec fn bucket_quota(bucket: Option<Value>) -> Option<Quota> {
    match bucket {
        Some(value) => match object_members(value) {
            Some(members) => quota_fields(members).quota(),
            None => None,
        },
        None => None,
    }
}

/// The name of a plan: as given, without white space around it, or a stand-in
/// where nothing is given.
pub open spec fn plan_name(given: Option<Seq<char>>) -> Seq<char> {
    match given {
        Some(name) => if trimmed(name).len() > 0 {
            trimmed(name)
        } else {
            "GitHub Copilot"@
        },
        None => "GitHub Copilot"@,
    }
}

/// The text that an optional string holds.
pub open spec fn text_of(s: Option<String>) -> Option<Seq<char>> {
    match s {
        Some(s) => Some(s@),
        None => None,
    }
}

/// The reset time that an optional text denotes.
pub open spec fn reset_in(text: Option<String>) -> Option<Instant> {
    match text {
        Some(t) => reset_of(rfc3339_instant(t@), calendar_day(t@, DATE_FORMAT@)),
        None => None,
    }
}

impl Response {
    pub open spec fn premium_quota(self) -> Option<Quota> {
        match self.quota_snapshots {
            Some(buckets) => bucket_quota(buckets.premium_interactions),
            None => None,
        }
    }

    pub open spec fn chat_quota(self) -> Option<Quota> {
        match self.quota_snapshots {
            Some(buckets) => bucket_quota(buckets.chat),
            None => None,
        }
    }

    pub open spec fn completions_quota(self) -> Option<Quota> {
        match self.quota_snapshots {
            Some(buckets) => bucket_quota(buckets.completions),
            None => None,
        }
    }

    /// The reset time: the one stated in UTC if it can be read, else the other.
    pub open spec fn reset(self) -> Option<Instant> {
        first_of(reset_in(self.quota_reset_date_utc), reset_in(self.quota_reset_date))
    }

    /// Whether any bucket tells of a quota.
    pub open spec fn usable(self) -> bool {
        self.premium_quota() is Some || self.chat_quota() is Some || self.completions_quota()
            is Some
    }
}

fn flag(field: &Option<Field>, default: bool) -> (r: bool)
    ensures
        r == flag_or(field_view(*field), default),
{
    match field {
        Some(Field::Bool(b)) => *b,
        _ => default,
    }
}

/// A finite number not below zero, given as a number or as text.
pub fn nonnegative(field: &Field) -> (r: Option<Binary64>)
    ensures
        r == amount(Some(field@)),
{
    let value: Option<Binary64> = match field {
        Field::Number(n) => *n,
        Field::Text(text) => parse_numeral(trim(text.as_str())),
        _ => None,
    };
    match value {
        Some(v) => if v.is_finite() && v.is_not_below_zero() {
            Some(v)
        } else {
            None
        },
        None => None,
    }
}

fn optional_amount(field: &Option<Field>) -> (r: Option<Binary64>)
    ensures
        r == amount(field_view(*field)),
{
    match field {
        Some(f) => nonnegative(f),
        None => None,
    }
}

/// A number from zero to a hundred, larger ones brought down to it.
pub fn percent(field: &Field) -> (r: Option<Binary64>)
    ensures
        match amount(Some(field@)) {
            Some(value) => r == Some(value.as_percentage()),
            None => r is None,
        },
{
    match nonnegative(field) {
        Some(value) => Some(value.clamp_percentage()),
        None => None,
    }
}

/// The quota that the fields of a bucket tell of.
pub fn quota_from_fields(fields: &QuotaFields) -> (r: Option<Quota>)
    ensures
        r == fields@.quota(),
{
    let unlimited: bool = flag(&fields.unlimited, false);
    let entitlement: Option<Binary64> = optional_amount(&fields.entitlement);
    let remaining: Option<Binary64> = match optional_amount(&fields.quota_remaining) {
        Some(left) => Some(left),
        None => optional_amount(&fields.remaining),
    };
    let stated: Option<Binary64> = match &fields.percent_remaining {
        Some(field) => percent(field),
        None => None,
    };
    let percent_remaining: Option<Binary64> = match stated {
        Some(percent) => Some(percent),
        None => match (&entitlement, &remaining) {
            (Some(whole), Some(left)) => if !whole.is_zero() {
                Some(left.to_percent_of(whole).clamp_percentage())
            } else {
                None
            },
            _ => None,
        },
    };
    if !unlimited && percent_remaining.is_none() {
        return None;
    }
    Some(
        Quota {
            percent_remaining: match percent_remaining {
                Some(percent) => percent,
                None => Binary64 { bits: HUNDRED },
            },
            entitlement,
            remaining,
            unlimited,
            has_quota: flag(&fields.has_quota, true),
            token_based_billing: flag(&fields.token_based_billing, false),
        },
    )
}

/// One malformed optional bucket must not hide usable data in another. The
/// caller still rejects a response where every known bucket is unusable.
pub fn parse_quota(value: Option<&Value>) -> (r: Option<Quota>)
    ensures
        r == bucket_quota(
            match value {
                Some(v) => Some(*v),
                None => None,
            },
        ),
{
    match value {
        Some(v) => match as_object(v) {
            Some(object) => quota_from_fields(
                &QuotaFields {
                    unlimited: get(object, "unlimited"),
                    entitlement: get(object, "entitlement"),
                    quota_remaining: get(object, "quota_remaining"),
                    remaining: get(object, "remaining"),
                    percent_remaining: get(object, "percent_remaining"),
                    has_quota: get(object, "has_quota"),
                    token_based_billing: get(object, "token_based_billing"),
                },
            ),
            None => None,
        },
        None => None,
    }
}

fn optional_reset(text: &Option<String>) -> (r: Option<Instant>)
    ensures
        r == reset_in(*text),
{
    match text {
        Some(t) => parse_reset(t.as_str()),
        None => None,
    }
}

/// What a rejected response is answered with.
pub open spec fn unusable(error: AppError) -> bool {
    error matches AppError::Schema(message) && message@
        == "GitHub Copilot response contains no usable quota snapshots"@
}

/// What may come of a response, given the name of the plan, the quotas and the reset
/// time that have been found in it.
pub open spec fn snapshot_of(
    plan: Option<Seq<char>>,
    premium: Option<Quota>,
    chat: Option<Quota>,
    completions: Option<Quota>,
    reset_at: Option<Instant>,
    r: Result<Snapshot, AppError>,
) -> bool {
    match r {
        Ok(snapshot) => {
            &&& premium is Some || chat is Some || completions is Some
            &&& snapshot.plan@ == plan_name(plan)
            &&& snapshot.premium == premium
            &&& snapshot.chat == chat
            &&& snapshot.completions == completions
            &&& snapshot.reset_at == reset_at
        },
        Err(error) => premium is None && chat is None && completions is None && unusable(error),
    }
}

/// The snapshot for what has been found in a response: the name of the plan,
/// its quotas, and the reset time as stated in UTC and as stated otherwise.
pub fn snapshot_from(
    plan: Option<String>,
    premium: Option<Quota>,
    chat: Option<Quota>,
    completions: Option<Quota>,
    reset_utc: Option<Instant>,
    reset_date: Option<Instant>,
) -> (r: Result<Snapshot, AppError>)
    ensures
        match r {
            Ok(snapshot) => {
                &&& premium is Some || chat is Some || completions is Some
                &&& snapshot.plan@ == plan_name(text_of(plan))
                &&& snapshot.premium == premium
                &&& snapshot.chat == chat
                &&& snapshot.completions == completions
                &&& snapshot.reset_at == first_of(reset_utc, reset_date)
            },
            Err(error) => {
                &&& premium is None && chat is None && completions is None
                &&& unusable(error)
            },
        },
        snapshot_of(
            text_of(plan),
            premium,
            chat,
            completions,
            first_of(reset_utc, reset_date),
            r,
        ),
{
    if premium.is_none() && chat.is_none() && completions.is_none() {
        return Err(
            AppError::Schema(
                "GitHub Copilot response contains no usable quota snapshots".to_owned(),
            ),
        );
    }
    let fallback: &str = "GitHub Copilot";
    let plan: String = match &plan {
        Some(name) => {
            let name: &str = trim(name.as_str());
            if name.is_empty() {
                fallback.to_owned()
            } else {
                name.to_owned()
            }
        },
        None => fallback.to_owned(),
    };
    let reset_at: Option<Instant> = match reset_utc {
        Some(time) => Some(time),
        None => reset_date,
    };
    Ok(Snapshot { plan, premium, chat, completions, reset_at })
}

/// Reads a response. It is rejected only where no bucket tells of a quota.
pub fn to_snapshot(response: Response) -> (r: Result<Snapshot, AppError>)
    ensures
        match r {
            Ok(snapshot) => {
                &&& response.usable()
                &&& snapshot.plan@ == plan_name(text_of(response.copilot_plan))
                &&& snapshot.premium == response.premium_quota()
                &&& snapshot.chat == response.chat_quota()
                &&& snapshot.completions == response.completions_quota()
                &&& snapshot.reset_at == response.reset()
            },
            Err(error) => !response.usable() && unusable(error),
        },
        snapshot_of(
            text_of(response.copilot_plan),
            response.premium_quota(),
            response.chat_quota(),
            response.completions_quota(),
            response.reset(),
            r,
        ),
{
    let quotas: QuotaSnapshots = match response.quota_snapshots {
        Some(buckets) => buckets,
        None => QuotaSnapshots::default(),
    };
    let premium: Option<Quota> = parse_quota(quotas.premium_interactions.as_ref());
    let chat: Option<Quota> = parse_quota(quotas.chat.as_ref());
    let completions: Option<Quota> = parse_quota(quotas.completions.as_ref());
    let reset_utc: Option<Instant> = optional_reset(&response.quota_reset_date_utc);
    let reset_date: Option<Instant> = optional_reset(&response.quota_reset_date);
    snapshot_from(response.copilot_plan, premium, chat, completions, reset_utc, reset_date)
}

} // verus!
