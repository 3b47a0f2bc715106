use copilot_quota::binary64::Binary64;
use copilot_quota::reset::Instant;
use copilot_quota::types::{to_snapshot, AppError, QuotaSnapshots, Response};
use serde_json::Value;

fn text(value: &Value, name: &str) -> Option<String> {
    value.get(name).and_then(|field| field.as_str()).map(|field| field.to_string())
}

fn bucket(value: &Value, name: &str) -> Option<Value> {
    value.get(name).filter(|field| !field.is_null()).cloned()
}

fn response(json: &str) -> Response {
    let value: Value = serde_json::from_str(json).unwrap();
    Response {
        copilot_plan: text(&value, "copilot_plan"),
        quota_reset_date: text(&value, "quota_reset_date"),
        quota_reset_date_utc: text(&value, "quota_reset_date_utc"),
        quota_snapshots: value.get("quota_snapshots").map(|buckets| QuotaSnapshots {
            premium_interactions: bucket(buckets, "premium_interactions"),
            chat: bucket(buckets, "chat"),
            completions: bucket(buckets, "completions"),
        }),
    }
}

fn rfc3339(instant: Instant) -> String {
    chrono::DateTime::from_timestamp(instant.seconds, instant.nanos).unwrap().to_rfc3339()
}

fn float(number: Binary64) -> f64 {
    f64::from_bits(number.to_bits())
}

#[test]
fn parses_all_quota_buckets_and_date_only_reset() {
    let response = response(
        r#"{
            "copilot_plan":"business",
            "quota_reset_date":"2026-09-15",
            "quota_snapshots":{
                "premium_interactions":{"entitlement":300,"remaining":45,"percent_remaining":15},
                "chat":{"entitlement":"1000","remaining":"250"},
                "completions":{"unlimited":true}
            }
        }"#,
    );
    let snapshot = to_snapshot(response).unwrap();
    assert_eq!(snapshot.plan, "business");
    assert_eq!(snapshot.premium.unwrap().used_pct(), 85);
    assert_eq!(
        snapshot
            .chat
            .unwrap()
            .used_and_entitlement()
            .map(|(used, entitlement)| (float(used), float(entitlement))),
        Some((750.0, 1000.0))
    );
    assert!(snapshot.completions.unwrap().unlimited);
    assert_eq!(rfc3339(snapshot.reset_at.unwrap()), "2026-09-15T00:00:00+00:00");
}

/// The payload of Copilot Free. `has_quota` is GitHub's own statement that a
/// bucket is not part of the plan, `quota_remaining` carries the fraction that
/// `remaining` rounds away, and `token_based_billing` is what makes the chat
/// pool a credit balance rather than a message count.
#[test]
fn token_based_billing_keeps_the_fraction_and_the_credit_labels() {
    let response = response(
        r#"{
            "copilot_plan":"individual",
            "quota_reset_date_utc":"2026-10-01T00:00:00.000Z",
            "quota_snapshots":{
                "chat":{"percent_remaining":99.1,"quota_remaining":198.3,"remaining":198,
                        "entitlement":200,"unlimited":false,"has_quota":true,
                        "token_based_billing":true,"credits_used":1},
                "completions":{"percent_remaining":63.0,"quota_remaining":1261.0,"remaining":1261,
                               "entitlement":2000,"unlimited":false,"has_quota":true,
                               "token_based_billing":true,"credits_used":739},
                "premium_interactions":{"percent_remaining":0.0,"quota_remaining":0.0,"remaining":0,
                                        "entitlement":0,"unlimited":false,"has_quota":false,
                                        "token_based_billing":true,"credits_used":0}
            }
        }"#,
    );
    let snapshot = to_snapshot(response).unwrap();

    assert!(!snapshot.premium.clone().unwrap().in_plan());
    assert_eq!(
        snapshot.quotas().into_iter().map(|(label, _)| label).collect::<Vec<_>>(),
        ["Credits", "Inline suggestions"]
    );

    let chat = snapshot.chat.clone().unwrap();
    assert_eq!(chat.used_of_entitlement().unwrap(), "1.7 of 200");
    assert_eq!(chat.used_pct(), 1);

    let completions = snapshot.completions.clone().unwrap();
    assert_eq!(completions.used_of_entitlement().unwrap(), "739 of 2000");
    assert_eq!(completions.used_pct(), 37);
    assert_eq!(snapshot.worst_pct(), 37);
}

/// Without token-based billing the chat bucket really is a chat-message
/// allowance, so it must keep its own name.
#[test]
fn a_message_based_chat_bucket_keeps_the_chat_label() {
    let response = response(
        r#"{"quota_snapshots":{"chat":{"entitlement":50,"remaining":40,"percent_remaining":80}}}"#,
    );
    let snapshot = to_snapshot(response).unwrap();
    assert_eq!(
        snapshot.quotas().into_iter().map(|(label, _)| label).collect::<Vec<_>>(),
        ["Chat"]
    );
    assert_eq!(snapshot.chat.clone().unwrap().used_of_entitlement().unwrap(), "10 of 50");
}

/// Copilot Free reports premium interactions as a bucket the plan does not
/// include: `entitlement: 0` with `percent_remaining: 0`. That zero is the
/// degenerate output of `remaining / entitlement`, not an exhausted allowance.
#[test]
fn a_bucket_the_plan_does_not_include_is_not_a_spent_one() {
    let response = response(
        r#"{
            "copilot_plan":"individual",
            "quota_reset_date_utc":"2026-10-01T00:00:00Z",
            "quota_snapshots":{
                "premium_interactions":{"entitlement":0,"remaining":0,"percent_remaining":0},
                "chat":{"entitlement":200,"remaining":198,"percent_remaining":99},
                "completions":{"entitlement":2000,"remaining":1278,"percent_remaining":64}
            }
        }"#,
    );
    let snapshot = to_snapshot(response).unwrap();
    let premium = snapshot.premium.clone().unwrap();
    assert!(!premium.in_plan());
    assert_eq!(premium.used_pct(), 0);
    assert_eq!(
        snapshot.quotas().into_iter().map(|(label, _)| label).collect::<Vec<_>>(),
        ["Chat", "Completions"]
    );
    assert_eq!(snapshot.worst_pct(), 36);
}

/// An allowance the plan *does* include, fully spent, still reads 100%.
#[test]
fn an_exhausted_bucket_still_reads_as_fully_used() {
    let response = response(
        r#"{"quota_snapshots":{"premium_interactions":{"entitlement":300,"remaining":0,"percent_remaining":0}}}"#,
    );
    let snapshot = to_snapshot(response).unwrap();
    assert!(snapshot.premium.clone().unwrap().in_plan());
    assert_eq!(snapshot.worst_pct(), 100);
}

#[test]
fn accepts_one_good_bucket_and_rejects_an_empty_schema() {
    let partial = response(
        r#"{"quota_snapshots":{"chat":{"percent_remaining":"not-a-number"},"completions":{"remaining":4,"entitlement":8}}}"#,
    );
    let snapshot = to_snapshot(partial).unwrap();
    assert!(snapshot.chat.is_none());
    assert_eq!(snapshot.completions.unwrap().used_pct(), 50);

    let empty = response(r#"{"quota_snapshots":{}}"#);
    assert!(to_snapshot(empty).is_err());
}

#[test]
fn a_response_without_usable_buckets_is_rejected_with_a_message() {
    for unusable in [
        Response::default(),
        response(r#"{"copilot_plan":"free"}"#),
        response(r#"{"quota_snapshots":{"chat":7,"completions":[1],"premium_interactions":"x"}}"#),
        response(r#"{"quota_snapshots":{"chat":{"unlimited":"yes","remaining":3}}}"#),
    ] {
        match to_snapshot(unusable) {
            Ok(_) => panic!("the response holds no quota"),
            Err(AppError::Schema(message)) => assert_eq!(
                message,
                "GitHub Copilot response contains no usable quota snapshots"
            ),
        }
    }
}

#[test]
fn the_plan_is_trimmed_and_has_a_stand_in() {
    let plan = |given: &str| {
        let mut response = response(r#"{"quota_snapshots":{"chat":{"unlimited":true}}}"#);
        response.copilot_plan = Some(given.to_string());
        to_snapshot(response).unwrap().plan
    };
    assert_eq!(plan(" \t business\u{3000}\n"), "business");
    assert_eq!(plan(" \u{a0} "), "GitHub Copilot");
    assert_eq!(plan(""), "GitHub Copilot");
    let silent = response(r#"{"quota_snapshots":{"chat":{"unlimited":true}}}"#);
    assert_eq!(to_snapshot(silent).unwrap().plan, "GitHub Copilot");
}

#[test]
fn the_reset_stated_in_utc_comes_first() {
    let reset = |utc: &str, date: &str| {
        let mut response = response(r#"{"quota_snapshots":{"chat":{"unlimited":true}}}"#);
        response.quota_reset_date_utc = Some(utc.to_string());
        response.quota_reset_date = Some(date.to_string());
        to_snapshot(response).unwrap().reset_at.map(rfc3339)
    };
    assert_eq!(
        reset("2026-10-01T02:30:00+02:00", "2026-09-15"),
        Some("2026-10-01T00:30:00+00:00".to_string())
    );
    assert_eq!(reset("soon", "2026-09-15"), Some("2026-09-15T00:00:00+00:00".to_string()));
    assert_eq!(reset("2026-09-16", "never"), Some("2026-09-16T00:00:00+00:00".to_string()));
    assert_eq!(
        reset("2026-09-16T01:02:03.5Z", ""),
        Some("2026-09-16T01:02:03.500+00:00".to_string())
    );
    assert_eq!(reset("1969-12-31", ""), Some("1969-12-31T00:00:00+00:00".to_string()));
    assert_eq!(reset("2026-02-30", ""), None);
}

#[test]
fn the_unrounded_remainder_is_preferred() {
    let both = response(
        r#"{"quota_snapshots":{"chat":{"quota_remaining":"1.5","remaining":1,"entitlement":2}}}"#,
    );
    let chat = to_snapshot(both).unwrap().chat.unwrap();
    assert_eq!(float(chat.remaining.unwrap()), 1.5);
    assert_eq!(float(chat.percent_remaining), 75.0);
    assert_eq!(chat.used_pct(), 25);

    let broken = response(
        r#"{"quota_snapshots":{"chat":{"quota_remaining":-3,"remaining":1,"entitlement":2}}}"#,
    );
    let chat = to_snapshot(broken).unwrap().chat.unwrap();
    assert_eq!(float(chat.remaining.unwrap()), 1.0);
    assert_eq!(float(chat.percent_remaining), 50.0);
}

#[test]
fn stated_percentages_are_brought_into_range() {
    let percent = |stated: &str| {
        let json = format!(r#"{{"quota_snapshots":{{"chat":{{"percent_remaining":{stated}}}}}}}"#);
        to_snapshot(response(&json)).ok().map(|snap| float(snap.chat.unwrap().percent_remaining))
    };
    assert_eq!(percent("12.25"), Some(12.25));
    assert_eq!(percent("250"), Some(100.0));
    assert_eq!(percent(r#"" 1e2 ""#), Some(100.0));
    assert_eq!(percent(r#"".5""#), Some(0.5));
    assert_eq!(percent("-1"), None);
    assert_eq!(percent(r#""inf""#), None);
    assert_eq!(percent(r#""nan""#), None);
    assert_eq!(percent(r#""-0.5""#), None);
    assert_eq!(percent(r#""-0""#), Some(0.0));
    assert_eq!(percent("true"), None);
}

#[test]
fn an_unlimited_bucket_needs_no_figures() {
    let unlimited = response(r#"{"quota_snapshots":{"chat":{"unlimited":true,"entitlement":0}}}"#);
    let snapshot = to_snapshot(unlimited).unwrap();
    let chat = snapshot.chat.unwrap();
    assert!(chat.in_plan());
    assert_eq!(float(chat.percent_remaining), 100.0);
    assert_eq!(chat.used_pct(), 0);
    assert_eq!(snapshot.worst_pct(), 0);
    assert!(chat.has_quota);
    assert!(!chat.token_based_billing);
}

#[test]
fn equal_snapshots_compare_equal() {
    let json = r#"{"quota_snapshots":{"chat":{"percent_remaining":5}}}"#;
    let a = to_snapshot(response(json)).unwrap();
    let mut b = a.clone();
    assert!(a == b);
    b.chat.as_mut().unwrap().percent_remaining = Binary64::from_bits(f64::NAN.to_bits());
    assert!(a != b);
    assert!(b != b.clone());
    let zero = Binary64::from_bits(0);
    let minus_zero = Binary64::from_bits((-0.0f64).to_bits());
    assert!(zero == minus_zero);
}

#[test]
fn a_bucket_is_read_whatever_the_others_hold() {
    let good = r#""completions":{"remaining":4,"entitlement":8}"#;
    let alone = format!(r#"{{"quota_snapshots":{{{good}}}}}"#);
    let crowded = format!(
        r#"{{"quota_snapshots":{{"chat":[{{}}],"premium_interactions":{{"entitlement":"many"}},{good}}}}}"#
    );
    let a = to_snapshot(response(&alone)).unwrap();
    let b = to_snapshot(response(&crowded)).unwrap();
    assert!(a == b);
    assert!(b.premium.is_none());
    assert_eq!(b.completions.unwrap().used_pct(), 50);
}

#[test]
fn quotas_that_are_read_are_sound() {
    for fields in [
        r#""entitlement":1e-320,"remaining":1e300"#,
        r#""entitlement":1e300,"remaining":"1e308""#,
        r#""entitlement":3,"quota_remaining":5"#,
        r#""percent_remaining":1e300,"entitlement":-1,"remaining":"inf""#,
        r#""percent_remaining":"1e-400","remaining":"nan""#,
    ] {
        let json = format!(r#"{{"quota_snapshots":{{"chat":{{{fields}}}}}}}"#);
        let chat = to_snapshot(response(&json)).unwrap().chat.unwrap();
        let left = float(chat.percent_remaining);
        assert!((0.0..=100.0).contains(&left), "{fields}");
        for amount in [chat.entitlement, chat.remaining].into_iter().flatten() {
            assert!(float(amount).is_finite() && float(amount) >= 0.0, "{fields}");
        }
    }
}
