use copilot_quota::binary64::Binary64;
use copilot_quota::placeholders::Placeholders;
use copilot_quota::reset::Instant;
use copilot_quota::toolkit::{Theme, Toolkit, TooltipLine};
use copilot_quota::types::{Quota, Snapshot};
use copilot_quota::vendor::{
    build_placeholders, headline, quota_values, render, severity, tooltip_lines, usage_text,
    FetchOutcome, RenderOpts, TooltipTexts, VendorOutcome, VendorSnapshot, WaybarOutput,
    UNAVAILABLE,
};

#[derive(Clone, Copy, Debug, PartialEq)]
enum PaceSeverity {
    Low,
    Mid,
    High,
}

const NOW: Instant = Instant { seconds: 1_790_000_000, nanos: 0 };

fn number(value: f64) -> Binary64 {
    Binary64::from_bits(value.to_bits())
}

fn quota(percent_remaining: f64, entitlement: f64, remaining: f64) -> Quota {
    Quota {
        percent_remaining: number(percent_remaining),
        entitlement: Some(number(entitlement)),
        remaining: Some(number(remaining)),
        unlimited: false,
        has_quota: true,
        token_based_billing: false,
    }
}

fn opts() -> RenderOpts {
    RenderOpts {
        format: None,
        tooltip_format: None,
        icon: None,
        pace_tolerance: 5,
        format_pace_color: false,
        tooltip_pace_pts: false,
    }
}

fn theme() -> Theme {
    Theme { blue: "#00f".to_string(), orange: "#fa0".to_string(), dim: "#888".to_string() }
}

fn sample() -> Snapshot {
    Snapshot {
        plan: "Pro".into(),
        premium: Some(quota(15.0, 300.0, 45.0)),
        chat: None,
        completions: None,
        reset_at: None,
    }
}

fn fresh(snap: &Snapshot) -> VendorOutcome<u64> {
    VendorOutcome::from(FetchOutcome {
        snapshot: snap.clone(),
        stale: false,
        last_error: None,
        cache_age: 0,
    })
}

fn countdown(at: Option<Instant>, now: Instant) -> String {
    match at {
        Some(at) => format!("{}s", at.seconds - now.seconds),
        None => "<never>".to_string(),
    }
}

fn sanitize(text: &str) -> String {
    text.chars().filter(|c| !c.is_control()).collect()
}

fn escape(text: &str) -> String {
    text.replace('&', "&amp;").replace('<', "&lt;").replace('>', "&gt;")
}

fn substitute(format: &str, values: &Placeholders) -> String {
    let mut text = String::new();
    let mut rest = format;
    while let Some(start) = rest.find('{') {
        let end = start + rest[start..].find('}').unwrap();
        text.push_str(&rest[..start]);
        match values.get(&rest[start + 1..end]) {
            Some(value) => text.push_str(value),
            None => text.push_str(&rest[start..=end]),
        }
        rest = &rest[end + 1..];
    }
    text + rest
}

fn updated_at(now: Instant, age: u64) -> String {
    format!("{}", now.seconds - age as i64)
}

fn bordered(lines: &Vec<TooltipLine>, theme: &Theme) -> String {
    let mut text = String::new();
    for line in lines {
        match line {
            TooltipLine::Center(line) => text.push_str(&format!("^{line}\n")),
            TooltipLine::Sep => text.push_str(&format!("-{}-\n", theme.dim)),
            TooltipLine::Body(line) => text.push_str(&format!("|{line}\n")),
        }
    }
    text
}

fn severity_for(percentage: i32) -> PaceSeverity {
    match percentage {
        0..=49 => PaceSeverity::Low,
        50..=89 => PaceSeverity::Mid,
        _ => PaceSeverity::High,
    }
}

fn severity_color(severity: PaceSeverity, theme: &Theme) -> String {
    format!("{severity:?}/{}", theme.blue).to_lowercase()
}

fn color_span(color: &str, text: &str) -> String {
    format!("<{color}>{text}</>")
}

fn class_of(severity: PaceSeverity) -> PaceSeverity {
    severity
}

fn shown(
    outcome: &VendorOutcome<u64>,
    snap: &Snapshot,
    opts: &RenderOpts,
) -> WaybarOutput<PaceSeverity> {
    let kit = Toolkit {
        countdown,
        sanitize,
        escape,
        substitute,
        updated_at,
        bordered,
        severity_for,
        severity_color,
        color_span,
        class_of,
    };
    render(outcome, snap, &theme(), opts, NOW, &kit)
}

fn values(snap: &Snapshot) -> Placeholders {
    build_placeholders(snap, NOW, &countdown, &sanitize)
}

#[test]
fn exposes_provider_and_generic_quota_placeholders() {
    let values = values(&sample());
    assert_eq!(values.get("vendor_short").unwrap(), "ghc");
    assert_eq!(values.get("copilot_premium_pct").unwrap(), "85");
    assert_eq!(values.get("copilot_premium_used").unwrap(), "255");
    assert_eq!(values.get("session_pct").unwrap(), "85");
    assert_eq!(values.get("weekly_pct").unwrap(), UNAVAILABLE);
}

/// Copilot Free has no premium-request allowance at all. Headlining that
/// empty bucket showed a permanent 100% in a module whose colour came from
/// the worst percentage, so the number and the colour disagreed; VS Code shows
/// the same account's real quotas instead.
#[test]
fn a_plan_without_premium_requests_headlines_its_worst_real_quota() {
    let snap = Snapshot {
        plan: "individual".into(),
        premium: Some(quota(0.0, 0.0, 0.0)),
        chat: Some(quota(99.0, 200.0, 198.0)),
        completions: Some(quota(64.0, 2000.0, 1278.0)),
        reset_at: None,
    };
    let values = values(&snap);
    assert_eq!(values.get("copilot_pct").unwrap(), "36");
    assert_eq!(values.get("copilot_premium_pct").unwrap(), UNAVAILABLE);
    assert_eq!(values.get("copilot_premium_limit").unwrap(), UNAVAILABLE);
    assert_eq!(values.get("copilot_completions_pct").unwrap(), "36");
    assert_eq!(severity(&snap, &severity_for), PaceSeverity::Low);

    let outcome = fresh(&snap);
    let output = shown(&outcome, &snap, &opts());
    assert!(output.text.contains("36%"));
    assert!(!output.text.contains("100%"));
    assert!(!output.tooltip.contains("Premium requests"));
}

#[test]
fn renderer_headlines_the_worst_quota_and_canonical_provider_name() {
    let snap = sample();
    let outcome = fresh(&snap);
    let output = shown(&outcome, &snap, &opts());
    assert!(output.text.contains("85%"));
    assert!(output.tooltip.contains("GitHub Copilot Pro"));
}

#[test]
fn the_module_is_laid_out_in_full() {
    let mut snap = sample();
    snap.plan = "P<r>o\u{7}".to_string();
    snap.reset_at = Some(Instant { seconds: NOW.seconds + 60, nanos: 0 });
    snap.chat = Some(Quota { token_based_billing: true, ..quota(99.1, 200.0, 198.3) });
    snap.completions = Some(Quota { unlimited: true, ..quota(100.0, 0.0, 0.0) });
    let outcome = VendorOutcome {
        snapshot: VendorSnapshot::Copilot(snap.clone()),
        stale: true,
        last_error: Some((503, "down & out".to_string())),
        cache_age: 7,
    };
    let opts = RenderOpts { icon: Some("<i>".to_string()), ..opts() };
    let output = shown(&outcome, &snap, &opts);
    assert_eq!(output.text, "<mid/#00f>&lt;i&gt; 85% · 60s ⏸</>");
    assert_eq!(output.class, PaceSeverity::Mid);
    assert_eq!(
        output.tooltip,
        "^<span font_weight='bold' foreground='#00f'>GitHub Copilot P&lt;r&gt;o</span>\n\
         -#888-\n\
         |\n\
         |  Premium requests  85% · 255 of 300 used\n\
         |  Credits  1% · 1.7 of 200 used\n\
         |  Completions  Unlimited\n\
         |  Resets  60s\n\
         |\n\
         | <span foreground='#fa0'>  ⏸  Showing cached data</span>\n\
         |\n\
         -#888-\n\
         | <span foreground='#fa0'>  HTTP 503: down &amp; out</span>\n\
         |\n\
         -#888-\n\
         | <span foreground='#888'>  Updated 1789999993</span>\n"
    );
}

#[test]
fn formats_are_filled_with_escaped_plans() {
    let mut snap = sample();
    snap.plan = "<Pro>".to_string();
    let outcome = fresh(&snap);
    let opts = RenderOpts {
        format: Some("{plan}|{copilot_plan}|{copilot_reset}|{nothing}|{icon}".to_string()),
        tooltip_format: Some("{copilot_premium_used}/{copilot_premium_limit} {plan}".to_string()),
        icon: Some(String::new()),
        ..opts()
    };
    let output = shown(&outcome, &snap, &opts);
    assert_eq!(output.text, "<mid/#00f>&lt;Pro&gt;|&lt;Pro&gt;|<never>|{nothing}|󰊤</>");
    assert_eq!(output.tooltip, "255/300 &lt;Pro&gt;");
    assert_eq!(values(&snap).get("plan").unwrap(), "<Pro>");
}

#[test]
fn a_failure_without_a_code_is_not_told_of() {
    let snap = sample();
    let mut outcome = fresh(&snap);
    outcome.last_error = Some((0, "offline".to_string()));
    let output = shown(&outcome, &snap, &opts());
    assert!(!output.tooltip.contains("offline"));
    assert!(!output.tooltip.contains("HTTP"));
    assert!(!output.tooltip.contains("cached"));
}

#[test]
fn an_outcome_keeps_how_it_was_come_by() {
    let outcome = VendorOutcome::from(FetchOutcome {
        snapshot: sample(),
        stale: true,
        last_error: Some((429, "slow down".to_string())),
        cache_age: 12u64,
    });
    let VendorSnapshot::Copilot(snap) = &outcome.snapshot;
    assert!(*snap == sample());
    assert!(outcome.stale);
    assert_eq!(outcome.last_error, Some((429, "slow down".to_string())));
    assert_eq!(outcome.cache_age, 12);
}

#[test]
fn figures_of_every_kind_of_quota() {
    let figures = |quota: Option<&Quota>| {
        let values = quota_values(quota);
        (values.percent, values.used, values.limit)
    };
    let texts = |a: &str, b: &str, c: &str| (a.to_string(), b.to_string(), c.to_string());
    assert_eq!(figures(None), texts("—", "—", "—"));
    assert_eq!(figures(Some(&quota(0.0, 0.0, 0.0))), texts("—", "—", "—"));
    assert_eq!(figures(Some(&quota(99.1, 200.0, 198.3))), texts("1", "1.7", "200"));
    let unlimited = Quota { unlimited: true, ..quota(0.0, 0.0, 0.0) };
    assert_eq!(figures(Some(&unlimited)), texts("0", "0", "unlimited"));
    let unknown = Quota { remaining: None, ..quota(12.5, 200.0, 0.0) };
    assert_eq!(figures(Some(&unknown)), texts("88", "—", "—"));
}

#[test]
fn the_use_of_a_quota_in_words() {
    assert_eq!(usage_text(&quota(99.1, 200.0, 198.3)), "1% · 1.7 of 200 used");
    let unknown = Quota { entitlement: None, ..quota(12.5, 0.0, 3.0) };
    assert_eq!(usage_text(&unknown), "88% · 12% remaining");
    let unlimited = Quota { unlimited: true, ..quota(0.0, 0.0, 0.0) };
    assert_eq!(usage_text(&unlimited), "Unlimited");
}

#[test]
fn headlines_with_and_without_icon_and_mark() {
    assert_eq!(headline(None, "36%".to_string(), false), "36%");
    assert_eq!(headline(Some("C".to_string()), "36%".to_string(), false), "C 36%");
    assert_eq!(headline(None, "36%".to_string(), true), "36% ⏸");
}

#[test]
fn tooltips_are_made_of_the_given_texts() {
    let snap = sample();
    let lines = tooltip_lines(
        &fresh(&snap),
        &snap,
        &theme(),
        &TooltipTexts {
            plan: "A".to_string(),
            usages: vec!["B".to_string()],
            reset: "C".to_string(),
            message: "D".to_string(),
            updated: "E".to_string(),
        },
    );
    assert_eq!(
        bordered(&lines, &theme()),
        "^<span font_weight='bold' foreground='#00f'>GitHub Copilot A</span>\n\
         -#888-\n|\n|  Premium requests  B\n|  Resets  C\n|\n-#888-\n\
         | <span foreground='#888'>  Updated E</span>\n"
    );
}

#[test]
fn later_placeholders_replace_earlier_ones() {
    let mut values = Placeholders::new();
    assert!(values.get("a").is_none());
    values.insert("a", "1".to_string());
    values.insert("b", "2".to_string());
    values.insert("a", "3".to_string());
    assert_eq!(values.get("a").unwrap(), "3");
    assert_eq!(values.get("b").unwrap(), "2");
    assert!(values.get("").is_none());
}

#[test]
fn the_tooltip_and_the_panel_agree() {
    for quota in [quota(15.0, 300.0, 45.0), quota(99.1, 200.0, 198.3), quota(0.0, 7.5, 9.0)] {
        let values = quota_values(Some(&quota));
        assert_eq!(
            quota.used_of_entitlement().unwrap(),
            format!("{} of {}", values.used, values.limit)
        );
    }
}

#[test]
fn every_placeholder_has_its_value() {
    let mut snap = sample();
    snap.reset_at = Some(Instant { seconds: NOW.seconds + 5, nanos: 0 });
    snap.chat = Some(quota(80.0, 50.0, 40.0));
    snap.completions = Some(Quota { unlimited: true, ..quota(0.0, 0.0, 0.0) });
    let values = values(&snap);
    for (name, text) in [
        ("icon", "󰊤"),
        ("vendor_short", "ghc"),
        ("plan", "Pro"),
        ("session_pct", "85"),
        ("session_reset", "5s"),
        ("weekly_pct", "20"),
        ("weekly_reset", "5s"),
        ("copilot_plan", "Pro"),
        ("copilot_reset", "5s"),
        ("copilot_pct", "85"),
        ("copilot_premium_pct", "85"),
        ("copilot_premium_used", "255"),
        ("copilot_premium_limit", "300"),
        ("copilot_chat_pct", "20"),
        ("copilot_chat_used", "10"),
        ("copilot_chat_limit", "50"),
        ("copilot_completions_pct", "0"),
        ("copilot_completions_used", "0"),
        ("copilot_completions_limit", "unlimited"),
    ] {
        assert_eq!(values.get(name).unwrap(), text, "{name}");
    }
}

#[test]
fn the_number_and_the_colour_follow_the_worst_quota() {
    for (left, expected) in [(64.0, "<low/#00f>36%"), (15.0, "<mid/#00f>85%"), (0.0, "<high/#00f>100%")] {
        let mut snap = sample();
        snap.premium = None;
        snap.chat = Some(quota(99.0, 200.0, 198.0));
        snap.completions = Some(quota(left, 2000.0, 20.0 * left));
        let output = shown(&fresh(&snap), &snap, &opts());
        assert!(output.text.starts_with(expected), "{}", output.text);
    }
}

#[test]
fn an_empty_icon_and_the_pace_have_no_effect() {
    let snap = sample();
    let outcome = fresh(&snap);
    let plain = shown(&outcome, &snap, &opts());
    let other = shown(
        &outcome,
        &snap,
        &RenderOpts {
            icon: Some(String::new()),
            pace_tolerance: -40,
            format_pace_color: true,
            tooltip_pace_pts: true,
            ..opts()
        },
    );
    assert_eq!(plain.text, other.text);
    assert_eq!(plain.tooltip, other.tooltip);
    assert_eq!(plain.class, other.class);
    let marked = shown(&outcome, &snap, &RenderOpts { icon: Some(" ".to_string()), ..opts() });
    assert_ne!(plain.text, marked.text);
}
