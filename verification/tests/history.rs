use std::collections::VecDeque;

use claude_usage::binary64::Binary64;
use claude_usage::history::{
    checked_pct_burn_per_min, compute_pct_burn_per_min, push_util_sample, PctRise, UtilSample,
    MAX_SAMPLES, MIN_SAMPLE_GAP_MS,
};
use claude_usage::metrics::Window;
use claude_usage::outlook::{window_outlook, Outlook, WindowPace};
use claude_usage::reset::UtcInstant;
use claude_usage::session::{MINUTE_MS, RECENT_WINDOW_MS};

fn value(x: f64) -> Binary64 {
    Binary64 { bits: x.to_bits() }
}

fn sample(timestamp_ms: i64, five_hour: f64, seven_day: f64) -> UtilSample {
    UtilSample {
        timestamp_ms,
        five_hour: value(five_hour),
        seven_day: value(seven_day),
        five_hour_reset_below: value(five_hour - 20.0),
        seven_day_reset_below: value(seven_day - 20.0),
    }
}

fn per_min(rise: &PctRise) -> f64 {
    (f64::from_bits(rise.to.bits) - f64::from_bits(rise.from.bits))
        / (rise.duration_ms as f64 / MINUTE_MS as f64)
}

#[test]
fn compute_pct_burn_returns_none_with_single_sample() {
    let mut hist: VecDeque<UtilSample> = VecDeque::new();
    hist.push_back(sample(1_000_000, 10.0, 5.0));
    assert!(compute_pct_burn_per_min(&hist, true, 2_000_000).is_none());
}

#[test]
fn compute_pct_burn_calculates_rate_from_history() {
    let now_ms = 1_800_000_000_000i64;
    let mut hist: VecDeque<UtilSample> = VecDeque::new();
    // 10 min ago: 50% used; now: 60% used: 10%/10min = 1%/min
    hist.push_back(sample(now_ms - 10 * MINUTE_MS, 50.0, 20.0));
    hist.push_back(sample(now_ms, 60.0, 22.0));
    let rate = per_min(&compute_pct_burn_per_min(&hist, true, now_ms).unwrap());
    assert!((rate - 1.0).abs() < 0.01, "expected ~1%/min, got {rate:.3}");
    let rate_7d = per_min(&compute_pct_burn_per_min(&hist, false, now_ms).unwrap());
    assert!((rate_7d - 0.2).abs() < 0.01, "expected ~0.2%/min for 7d, got {rate_7d:.3}");
}

#[test]
fn rate_needs_a_rise_and_counts_at_least_a_minute() {
    let now_ms = 1_800_000_000_000i64;
    let mut hist: VecDeque<UtilSample> = VecDeque::new();
    hist.push_back(sample(now_ms - 20_000, 50.0, 20.0));
    hist.push_back(sample(now_ms, 51.5, 20.0));
    let rise = compute_pct_burn_per_min(&hist, true, now_ms).unwrap();
    assert_eq!(rise.duration_ms, MINUTE_MS);
    assert_eq!(rise.from, value(50.0));
    assert_eq!(rise.to, value(51.5));
    assert!(compute_pct_burn_per_min(&hist, false, now_ms).is_none());
}

#[test]
fn rate_ignores_samples_older_than_half_an_hour() {
    let now_ms = 1_800_000_000_000i64;
    let mut hist: VecDeque<UtilSample> = VecDeque::new();
    hist.push_back(sample(now_ms - RECENT_WINDOW_MS - 1, 1.0, 1.0));
    hist.push_back(sample(now_ms - RECENT_WINDOW_MS, 30.0, 1.0));
    hist.push_back(sample(now_ms, 36.0, 1.0));
    let rise = compute_pct_burn_per_min(&hist, true, now_ms).unwrap();
    assert_eq!(rise.from, value(30.0));
    assert_eq!(rise.duration_ms, RECENT_WINDOW_MS);
}

#[test]
fn samples_too_close_together_are_skipped() {
    let mut hist: VecDeque<UtilSample> = VecDeque::new();
    push_util_sample(&mut hist, sample(1_000, 10.0, 10.0));
    push_util_sample(&mut hist, sample(1_000 + MIN_SAMPLE_GAP_MS - 1, 11.0, 10.0));
    assert_eq!(hist.len(), 1);
    push_util_sample(&mut hist, sample(1_000 + MIN_SAMPLE_GAP_MS, 12.0, 10.0));
    assert_eq!(hist.len(), 2);
    assert_eq!(hist[1], sample(1_000 + MIN_SAMPLE_GAP_MS, 12.0, 10.0));
}

#[test]
fn a_reset_window_clears_the_history() {
    let mut hist: VecDeque<UtilSample> = VecDeque::new();
    push_util_sample(&mut hist, sample(0, 50.0, 50.0));
    push_util_sample(&mut hist, sample(60_000, 30.0, 50.0)); // twenty points: no reset
    assert_eq!(hist.len(), 2);
    push_util_sample(&mut hist, sample(120_000, 9.5, 50.0));
    assert_eq!(hist.len(), 1);
    push_util_sample(&mut hist, sample(180_000, 9.5, 29.0));
    assert_eq!(hist.len(), 1);
    assert!(compute_pct_burn_per_min(&hist, true, 180_000).is_none());
}

#[test]
fn history_is_bounded_and_keeps_the_newest() {
    let mut hist: VecDeque<UtilSample> = VecDeque::new();
    for i in 0..200i64 {
        push_util_sample(&mut hist, sample(i * 20_000, 40.0, 40.0));
    }
    assert_eq!(hist.len(), MAX_SAMPLES);
    assert_eq!(hist[0].timestamp_ms, 80 * 20_000);
    assert_eq!(hist[MAX_SAMPLES - 1].timestamp_ms, 199 * 20_000);
}

#[test]
fn no_two_neighbours_show_a_reset() {
    let mut hist: VecDeque<UtilSample> = VecDeque::new();
    let percentages = [10.0, 40.0, 25.0, 4.0, 60.0, 39.0, 20.0, 90.0, 71.0, 70.5];
    for (i, percentage) in percentages.into_iter().enumerate() {
        push_util_sample(&mut hist, sample(i as i64 * 20_000, percentage, 50.0));
        for j in 1..hist.len() {
            let before = f64::from_bits(hist[j - 1].five_hour.bits);
            let after = f64::from_bits(hist[j].five_hour.bits);
            assert!(before - after <= 20.0);
        }
    }
    assert_eq!(hist.len(), 5);
}

#[test]
fn old_samples_do_not_count_wherever_they_stand() {
    let now_ms = 1_800_000_000_000i64;
    let first = sample(now_ms - 10 * MINUTE_MS, 30.0, 20.0);
    let last = sample(now_ms, 36.0, 25.0);
    let old = sample(now_ms - RECENT_WINDOW_MS - 1, 90.0, 90.0);
    let between = sample(now_ms - 5 * MINUTE_MS, 99.0, 1.0);
    let rise = |samples: &[UtilSample]| {
        compute_pct_burn_per_min(&samples.iter().copied().collect(), true, now_ms)
    };
    let expected = Some(PctRise {
        from: value(30.0),
        to: value(36.0),
        duration_ms: 10 * MINUTE_MS,
    });
    assert_eq!(rise(&[first, last]), expected);
    assert_eq!(rise(&[old, first, old, last, old]), expected);
    assert_eq!(rise(&[first, between, last]), expected);
    assert_eq!(rise(&[old, first, between, old, between, last]), expected);
}

#[test]
fn checked_rate_reports_what_does_not_fit() {
    let two = |first: i64, last: i64, to: f64| -> VecDeque<UtilSample> {
        [sample(first, 10.0, 10.0), sample(last, to, 10.0)].into_iter().collect()
    };
    // No recent window before the first representable moment.
    assert_eq!(checked_pct_burn_per_min(&VecDeque::new(), true, i64::MIN), None);
    // Samples too far apart matter only where there is a rise between them.
    let now_ms = i64::MIN + RECENT_WINDOW_MS;
    assert_eq!(checked_pct_burn_per_min(&two(i64::MIN, i64::MAX, 20.0), true, now_ms), None);
    assert_eq!(checked_pct_burn_per_min(&two(i64::MIN, i64::MAX, 10.0), true, now_ms), Some(None));
    assert_eq!(checked_pct_burn_per_min(&two(i64::MIN, i64::MAX, 20.0), false, now_ms), Some(None));
    assert_eq!(
        checked_pct_burn_per_min(&two(-1, i64::MAX - 1, 20.0), true, now_ms),
        Some(Some(PctRise {
            from: value(10.0),
            to: value(20.0),
            duration_ms: i64::MAX,
        }))
    );
}

fn window(utilization: f64, resets_at: Option<&str>) -> Window {
    Window {
        utilization: value(utilization),
        resets_at: resets_at.map(str::to_string),
    }
}

#[test]
fn each_window_goes_with_its_own_rise_and_reset() {
    let now_ms = 1_800_000_000_000i64;
    let now = UtcInstant { secs: 1_800_000_000, nanos: 0 };
    let history: VecDeque<UtilSample> =
        [sample(now_ms - 10 * MINUTE_MS, 50.0, 20.0), sample(now_ms, 60.0, 22.0)]
            .into_iter()
            .collect();
    let rise = |from: f64, to: f64| {
        Some(PctRise {
            from: value(from),
            to: value(to),
            duration_ms: 10 * MINUTE_MS,
        })
    };
    let soon = Some("2027-01-15T08:01:30Z");
    let later = Some("2027-01-19T00:00:00Z");
    assert_eq!(
        window_outlook(
            Some(window(60.0, soon)),
            Some(window(22.0, later)),
            &history,
            now_ms,
            &now,
        ),
        Some(Outlook {
            five_hour: Some(WindowPace {
                window: window(60.0, soon),
                rise: rise(50.0, 60.0),
            }),
            seven_day: Some(WindowPace {
                window: window(22.0, later),
                rise: rise(20.0, 22.0),
            }),
            secs_until_reset: Some(90),
        })
    );
    // The reset of the week is never taken for that of the five-hour window.
    let outlook = window_outlook(None, Some(window(22.0, later)), &history, now_ms, &now).unwrap();
    assert_eq!(outlook.five_hour, None);
    assert_eq!(outlook.secs_until_reset, None);
    let outlook =
        window_outlook(Some(window(60.0, Some("soon"))), None, &history, now_ms, &now).unwrap();
    assert_eq!(outlook.secs_until_reset, None);
    assert_eq!(outlook.seven_day, None);
    assert_eq!(window_outlook(None, None, &history, i64::MIN, &now), None);
}
