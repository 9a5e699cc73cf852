use claude_usage::binary64::Binary64;
use claude_usage::metrics::{
    build_child_metrics, duration_unit, fmt_duration, local_only_output, local_session_metric,
    usage_report, window_metric, BurnText, Depletion, DurationUnit, PacedWindow, UsageMetric,
    UsageReading, Window, WindowReading,
};
use claude_usage::windows::{resolve_window, utilization_percentages};

fn value(x: f64) -> Binary64 {
    Binary64 { bits: x.to_bits() }
}

fn number(x: &Binary64) -> f64 {
    f64::from_bits(x.bits)
}

fn burn(tokens_per_min: f64, cost_per_min: f64) -> Option<BurnText> {
    Some(BurnText {
        kilotokens_per_min: format!("{:.1}", tokens_per_min / 1000.0),
        dollars_per_min: format!("{:.4}", cost_per_min),
    })
}

fn amount(mins: f64) -> String {
    match duration_unit(&value(mins)) {
        DurationUnit::Minutes => format!("{:.0}", mins),
        DurationUnit::Hours => format!("{:.1}", mins / 60.0),
        DurationUnit::Days => format!("{:.1}", mins / 1440.0),
    }
}

fn depletion(remaining_pct: f64, pct_per_min: f64) -> Option<Depletion> {
    let mins = remaining_pct / pct_per_min;
    Some(Depletion {
        pct_per_min: value(pct_per_min),
        runs_out_mins: value(mins),
        amount: amount(mins),
    })
}

fn children(
    burn: Option<BurnText>,
    remaining_pct: f64,
    pct_per_min: Option<f64>,
    mins_until_reset: Option<f64>,
) -> Vec<UsageMetric> {
    build_child_metrics(
        &burn,
        &value(remaining_pct),
        &pct_per_min.and_then(|pct| depletion(remaining_pct, pct)),
        &mins_until_reset.map(value),
    )
}

#[test]
fn utilization_pct_drives_runs_out_not_token_count() {
    // Remaining 40% at 2%/min burn: runs out in 20 min
    let children = children(burn(500.0, 0.01), 40.0, Some(2.0), None);
    assert!(
        children.iter().any(|c| c.label.contains("Runs Out")),
        "Runs Out must appear when pct burn > 0 and remaining > 0"
    );
}

#[test]
fn weekly_window_metric_has_correct_label_and_utilization() {
    let week = Window {
        utilization: value(35.0),
        resets_at: None,
    };
    let remaining = 100.0 - number(&week.utilization.clamp_percent());
    let metric = window_metric("Week Limit", &week, value(remaining));

    assert_eq!(metric.label, "Week Limit");
    assert!((number(&metric.used_percent) - 35.0).abs() < 0.01);
    assert!((number(&metric.remaining_percent) - 65.0).abs() < 0.01);
}

#[test]
fn weekly_burn_children_show_rate_but_not_runs_out_when_no_pct_burn() {
    // Week window with no pct burn history: no Runs Out
    let children = children(burn(50.0, 0.005), 65.0, None, None);

    assert!(
        children.iter().any(|c| c.label.contains("Burn Rate")),
        "Burn Rate must appear for week display"
    );
    assert!(
        children.iter().any(|c| c.label.contains("Cost Rate")),
        "Cost Rate must appear for week display"
    );
    assert!(
        !children.iter().any(|c| c.label.contains("Runs Out")),
        "Runs Out must not appear when pct burn history is absent"
    );
}

#[test]
fn runs_out_hidden_when_reset_comes_before_exhaustion() {
    // 5% remaining, 0.1%/min burn: runs out in 50 min; reset in 30 min: hidden
    let children = children(burn(10.0, 0.001), 5.0, Some(0.1), Some(30.0));

    assert!(
        !children.iter().any(|c| c.label.contains("Runs Out")),
        "Runs Out must not appear when reset comes before exhaustion"
    );
}

#[test]
fn runs_out_shown_when_exhaustion_comes_before_reset() {
    // 5% remaining, 1%/min burn: runs out in 5 min; reset in 30 min: shown
    let children = children(burn(100.0, 0.01), 5.0, Some(1.0), Some(30.0));

    assert!(
        children.iter().any(|c| c.label.contains("Runs Out")),
        "Runs Out must appear when exhaustion comes before reset"
    );
}

#[test]
fn runs_out_shown_when_no_reset_time_known() {
    // no resets_at: conservative, always show "Runs Out" when pct burn known
    let children = children(burn(10.0, 0.001), 5.0, Some(0.1), None);

    assert!(
        children.iter().any(|c| c.label.contains("Runs Out")),
        "Runs Out must appear when reset time is unknown"
    );
}

#[test]
fn child_lines_in_full() {
    let lines = children(burn(2_345.0, 0.01234), 40.0, Some(2.0), None);
    assert_eq!(lines.len(), 3);
    assert_eq!(lines[0].label, "  Burn Rate");
    assert_eq!(lines[0].remaining_label.as_deref(), Some("2.3k tok/min"));
    assert_eq!(lines[1].label, "  Cost Rate");
    assert_eq!(lines[1].remaining_label.as_deref(), Some("$0.0123/min"));
    assert_eq!(lines[2].label, "  Runs Out");
    assert_eq!(lines[2].remaining_label.as_deref(), Some("in 20m"));
    for line in &lines {
        assert_eq!(number(&line.used_percent), 0.0);
        assert_eq!(number(&line.remaining_percent), -1.0);
        assert_eq!(line.resets_at, None);
    }
}

#[test]
fn nothing_runs_out_when_nothing_is_left_or_consumed() {
    assert!(children(None, 0.0, Some(2.0), None).is_empty());
    assert!(children(None, 5.0, Some(0.0), None).is_empty());
    assert!(children(None, f64::NAN, Some(2.0), None).is_empty());
    assert!(children(None, 5.0, Some(1.0), Some(5.0)).is_empty());
    assert_eq!(children(None, 5.0, Some(1.0), Some(5.1)).len(), 1);
}

#[test]
fn durations_in_their_units() {
    let text = |mins: f64| fmt_duration(&value(mins), &amount(mins));
    assert_eq!(text(0.4), "in 0m");
    assert_eq!(text(59.4), "in 59m");
    assert_eq!(text(60.0), "in 1.0h");
    assert_eq!(text(90.0), "in 1.5h");
    assert_eq!(text(1439.0), "in 24.0h");
    assert_eq!(text(1440.0), "in 1.0d");
    assert_eq!(text(3600.0), "in 2.5d");
    assert_eq!(text(f64::NAN), "in NaNd");
}

#[test]
fn window_metric_is_held_between_zero_and_a_hundred() {
    let metric = |utilization: f64| {
        let window = Window {
            utilization: value(utilization),
            resets_at: Some("2026-06-27T12:00:00Z".to_string()),
        };
        window_metric("5h Limit", &window, value(100.0 - utilization.clamp(0.0, 100.0)))
    };
    assert_eq!(number(&metric(-3.0).used_percent), 0.0);
    assert_eq!(number(&metric(-3.0).remaining_percent), 100.0);
    assert_eq!(number(&metric(130.0).used_percent), 100.0);
    assert_eq!(metric(1.0).resets_at.as_deref(), Some("2026-06-27T12:00:00Z"));
    assert_eq!(metric(1.0).remaining_label, None);
}

#[test]
fn sessions_have_no_metric_of_their_own() {
    assert!(local_session_metric(Some(19_000), Some(2_500)).is_none());
    assert!(local_session_metric(None, None).is_none());
}

#[test]
fn local_output_shows_the_burn_only() {
    let output = local_only_output("Acme", Some("Max 5x".to_string()), &burn(1_000.0, 0.5));
    assert_eq!(output.provider, "Acme");
    assert_eq!(output.plan.as_deref(), Some("Max 5x"));
    assert_eq!((output.account, output.email), (None, None));
    let labels: Vec<&str> = output.metrics.iter().map(|m| m.label.as_str()).collect();
    assert_eq!(labels, ["  Burn Rate", "  Cost Rate"]);
    assert!(local_only_output("Acme", None, &None).metrics.is_empty());
}

fn reading(utilization: f64) -> Option<WindowReading> {
    Some(WindowReading {
        window: Window {
            utilization: value(utilization),
            resets_at: None,
        },
        remaining_percent: value(100.0 - utilization.clamp(0.0, 100.0)),
    })
}

fn paced(utilization: f64, depletion: Option<Depletion>) -> Option<PacedWindow> {
    reading(utilization).map(|reading| PacedWindow { reading, depletion })
}

#[test]
fn report_lists_windows_with_their_children() {
    let output = usage_report(
        "Acme",
        None,
        &UsageReading {
            five_hour: paced(60.0, depletion(40.0, 2.0)),
            seven_day: paced(35.0, depletion(65.0, 0.1)),
            seven_day_opus: reading(10.0),
            burn: burn(500.0, 0.01),
            mins_until_reset: Some(value(10.0)),
        },
    );
    let labels: Vec<&str> = output.metrics.iter().map(|m| m.label.as_str()).collect();
    assert_eq!(
        labels,
        [
            "5h Limit",
            "  Burn Rate",
            "  Cost Rate",
            "Week Limit",
            "  Burn Rate",
            "  Cost Rate",
            "  Runs Out",
            "Opus",
        ]
    );
    assert_eq!(output.metrics[6].remaining_label.as_deref(), Some("in 10.8h"));
    assert_eq!(number(&output.metrics[7].remaining_percent), 90.0);
}

#[test]
fn report_leaves_out_what_is_missing() {
    let output = usage_report(
        "Acme",
        Some("Pro".to_string()),
        &UsageReading {
            five_hour: None,
            seven_day: paced(35.0, None),
            seven_day_opus: None,
            burn: None,
            mins_until_reset: None,
        },
    );
    let labels: Vec<&str> = output.metrics.iter().map(|m| m.label.as_str()).collect();
    assert_eq!(labels, ["Week Limit"]);
    assert_eq!(output.plan.as_deref(), Some("Pro"));
}

fn window(utilization: f64, resets_at: &str) -> Window {
    Window {
        utilization: value(utilization),
        resets_at: Some(resets_at.to_string()),
    }
}

#[test]
fn the_last_known_window_stands_in_for_a_missing_one() {
    let mut known = None;
    assert_eq!(resolve_window(&mut known, None), None);
    assert_eq!(
        resolve_window(&mut known, Some(window(10.0, "a"))),
        Some(window(10.0, "a"))
    );
    assert_eq!(resolve_window(&mut known, None), Some(window(10.0, "a")));
    assert_eq!(resolve_window(&mut known, None), Some(window(10.0, "a")));
    assert_eq!(
        resolve_window(&mut known, Some(window(20.0, "b"))),
        Some(window(20.0, "b"))
    );
    assert_eq!(known, Some(window(20.0, "b")));
}

#[test]
fn recorded_percentages_are_clamped_and_default_to_zero() {
    assert_eq!(utilization_percentages(&None, &None), None);
    assert_eq!(
        utilization_percentages(&Some(window(130.0, "a")), &None),
        Some((value(100.0), value(0.0)))
    );
    assert_eq!(
        utilization_percentages(&None, &Some(window(42.5, "a"))),
        Some((value(0.0), value(42.5)))
    );
}
