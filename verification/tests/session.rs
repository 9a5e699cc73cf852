use claude_usage::messages::{TokenBreakdown, UnifiedMessage};
use claude_usage::session::{
    checked_local_active_usage, compute_recent_burn_rate, floor_to_hour_ms,
    local_active_usage_from_messages, ActiveBlock, RecentBurn, CLAUDE_SESSION_WINDOW_MS, HOUR_MS,
    MINUTE_MS, RECENT_WINDOW_MS,
};

fn message(timestamp: i64, input: i64, output: i64, cache_read: i64) -> UnifiedMessage {
    UnifiedMessage {
        timestamp,
        tokens: TokenBreakdown {
            input,
            output,
            cache_read,
            cache_write: 0,
            reasoning: 0,
        },
    }
}

fn rates(burn: &RecentBurn, costs: &[f64]) -> (f64, f64) {
    let mins = burn.duration_ms as f64 / MINUTE_MS as f64;
    let cost: f64 = burn.messages.iter().map(|&i| costs[i].max(0.0)).sum();
    (burn.tokens as f64 / mins, cost / mins)
}

#[test]
fn local_active_usage_block_total_excludes_cache_tokens() {
    // The block-level token count must use only input+output, never cache.
    let start = 1_800_000_000_000;
    let messages = vec![
        message(start, 1_000, 200, 500_000),
        message(start + 30 * MINUTE_MS, 1_000, 100, 7_000_000),
    ];

    let now_ms = start + 40 * MINUTE_MS;
    let (usage, _) = local_active_usage_from_messages(&messages, now_ms);
    let usage = usage.expect("active block");

    // 500k and 7M cache tokens must NOT be counted, only 1200+1100 = 2300
    assert_eq!(usage.input_output_tokens, 2_300);
}

#[test]
fn recent_burn_rate_span_covers_messages_within_30_min_window() {
    let start = 1_800_000_000_000;
    // Both messages within the 30-min window of now_ms (now - 25min, now - 5min)
    let msg1_ms = start;
    let msg2_ms = start + 20 * MINUTE_MS;
    let now_ms = start + 25 * MINUTE_MS;
    let messages = vec![
        message(msg1_ms, 1_000, 200, 500_000),
        message(msg2_ms, 1_000, 100, 7_000_000),
    ];
    let costs = [0.10, 0.20];

    let (_, recent_burn) = local_active_usage_from_messages(&messages, now_ms);
    let (tokens_per_min, cost_per_min) = rates(&recent_burn.expect("recent burn"), &costs);

    // span = 20 min; tokens = 2300 (no cache); cost = 0.30
    assert!((tokens_per_min - (2_300.0 / 20.0)).abs() < 0.001);
    assert!((cost_per_min - (0.30 / 20.0)).abs() < 0.001);
}

#[test]
fn local_active_usage_returns_none_after_block_expires() {
    let start = 1_800_000_000_000;
    let messages = vec![message(start, 1_000, 200, 0)];

    let (usage, _) = local_active_usage_from_messages(
        &messages,
        floor_to_hour_ms(start) + CLAUDE_SESSION_WINDOW_MS,
    );
    assert!(usage.is_none());
}

#[test]
fn local_active_usage_starts_new_block_after_five_hour_gap() {
    let start = 1_800_000_000_000;
    let later = start + CLAUDE_SESSION_WINDOW_MS + MINUTE_MS;
    let messages = vec![message(start, 10_000, 0, 0), message(later, 500, 100, 0)];

    let (usage, _) = local_active_usage_from_messages(&messages, later + MINUTE_MS);
    let usage = usage.expect("latest active block");

    assert_eq!(usage.input_output_tokens, 600);
}

#[test]
fn recent_burn_rate_uses_only_last_30_minutes() {
    let now_ms = 1_800_000_000_000i64;
    let old_msg_ms = now_ms - 60 * MINUTE_MS; // 60 min ago, outside the window
    let new_msg_ms = now_ms - 10 * MINUTE_MS; // 10 min ago, inside the window

    let messages = vec![
        message(old_msg_ms, 50_000, 0, 0), // old burst, must be ignored
        message(new_msg_ms, 300, 100, 0),  // recent work
    ];

    // Active block started at old_msg_ms; both messages are within 5h.
    let (usage, recent_burn) = local_active_usage_from_messages(&messages, now_ms);
    let usage = usage.expect("active block");

    // Block total includes both messages
    assert_eq!(usage.input_output_tokens, 50_400);

    // Recent burn should only count the last message (300+100 = 400 tokens)
    // span = 1 min minimum (single message in window)
    let (tokens_per_min, _) = rates(&recent_burn.expect("recent burn"), &[5.0, 0.04]);
    assert!(
        tokens_per_min <= 400.0 + 0.1,
        "recent burn must not include the 60-min-old burst (got {tokens_per_min:.1})"
    );
}

#[test]
fn recent_burn_rate_is_none_when_user_is_idle() {
    let now_ms = 1_800_000_000_000i64;
    let old_msg_ms = now_ms - 45 * MINUTE_MS; // 45 min ago, outside the 30-min window

    let messages = vec![message(old_msg_ms, 1_000, 200, 0)];

    let (usage, recent_burn) = local_active_usage_from_messages(&messages, now_ms);
    // Block is still active (< 5h from start)
    assert!(usage.is_some(), "block should still be active");
    // But no recent activity: no burn rate shown
    assert!(
        recent_burn.is_none(),
        "burn rate must be None when last message was > 30 min ago"
    );
}

#[test]
fn floors_to_the_hour_on_both_sides_of_zero() {
    assert_eq!(floor_to_hour_ms(0), 0);
    assert_eq!(floor_to_hour_ms(HOUR_MS - 1), 0);
    assert_eq!(floor_to_hour_ms(HOUR_MS), HOUR_MS);
    assert_eq!(floor_to_hour_ms(-1), -HOUR_MS);
    assert_eq!(floor_to_hour_ms(1_800_001_234_567), 1_800_000_000_000);
    assert_eq!(
        floor_to_hour_ms(floor_to_hour_ms(1_800_001_234_567)),
        1_800_000_000_000
    );
}

#[test]
fn token_counts_saturate_and_never_go_below_zero() {
    let tokens = |input, output| message(1, input, output, 9).tokens.input_output_tokens();
    assert_eq!(tokens(3, 4), 7);
    assert_eq!(tokens(-3, 4), 1);
    assert_eq!(tokens(-5, 4), 0);
    assert_eq!(tokens(i64::MAX, 1), i64::MAX as u64);
    assert_eq!(tokens(i64::MIN, -1), 0);
}

#[test]
fn block_collects_messages_and_saturates() {
    let mut block = ActiveBlock::new(HOUR_MS + 5);
    assert_eq!(block.end_ms, 6 * HOUR_MS);
    block.add_message(&message(HOUR_MS + 5, i64::MAX, 0, 0), 2);
    block.add_message(&message(HOUR_MS + 6, i64::MAX, 0, 0), 0);
    block.add_message(&message(HOUR_MS + 7, 10, 0, 0), 1);
    assert_eq!(block.last_message_ms, HOUR_MS + 7);
    assert!(!block.is_over_at(6 * HOUR_MS - 1));
    assert!(block.is_over_at(6 * HOUR_MS));
    assert!(block.is_over_at(i64::MAX));
    let usage = block.into_usage();
    assert_eq!(usage.input_output_tokens, u64::MAX);
    assert_eq!(usage.messages, vec![2, 0, 1]);
}

#[test]
fn messages_are_taken_in_time_order_whatever_their_listing() {
    let start = 1_800_000_000_000;
    let a = message(start + 3 * MINUTE_MS, 1, 0, 0);
    let b = message(start, 10, 0, 0);
    let c = message(start + 3 * MINUTE_MS, 100, 0, 0);
    let undated = message(0, 1_000, 0, 0);
    let now_ms = start + 4 * MINUTE_MS;

    let (usage, burn) = local_active_usage_from_messages(&[a, undated, b, c], now_ms);
    let usage = usage.unwrap();
    let burn = burn.unwrap();
    assert_eq!(usage.input_output_tokens, 111);
    assert_eq!(usage.messages, vec![2, 0, 3]);
    assert_eq!(burn.tokens, 111);
    assert_eq!(burn.duration_ms, 3 * MINUTE_MS);
    assert_eq!(burn.messages, vec![2, 0, 3]);

    let (usage, burn) = local_active_usage_from_messages(&[c, b, undated, a], now_ms);
    let usage = usage.unwrap();
    let burn = burn.unwrap();
    assert_eq!(usage.input_output_tokens, 111);
    assert_eq!(usage.messages, vec![1, 0, 3]);
    assert_eq!((burn.tokens, burn.duration_ms), (111, 3 * MINUTE_MS));
}

#[test]
fn older_and_undated_messages_may_come_and_go() {
    let now_ms = 1_800_000_000_000i64;
    let a = message(now_ms - 9 * MINUTE_MS, 3, 0, 0);
    let b = message(now_ms, 4, 0, 0);
    let old = message(now_ms - RECENT_WINDOW_MS - 1, 1_000, 0, 0);
    let undated = message(0, 1_000, 0, 0);
    let rate = |messages: &[UnifiedMessage]| {
        compute_recent_burn_rate(messages, now_ms).map(|burn| (burn.tokens, burn.duration_ms))
    };
    for messages in [
        vec![a, b],
        vec![old, a, b],
        vec![b, undated, a, old, old],
        vec![undated, undated, a, old, b],
    ] {
        assert_eq!(rate(&messages), Some((7, 9 * MINUTE_MS)));
    }
    let tokens = |messages: &[UnifiedMessage]| {
        local_active_usage_from_messages(messages, now_ms)
            .0
            .map(|usage| usage.input_output_tokens)
    };
    for messages in [vec![a, b], vec![undated, b, a], vec![a, undated, undated, b]] {
        assert_eq!(tokens(&messages), Some(7));
    }
}

#[test]
fn costs_follow_their_messages() {
    let now_ms = 1_800_000_000_000i64;
    // Messages with their costs; the two of the same age are told apart by them.
    let a = (message(now_ms - MINUTE_MS, 1, 0, 0), 0.5);
    let b = (message(now_ms - 9 * MINUTE_MS, 2, 0, 0), 0.25);
    let c = (message(now_ms - MINUTE_MS, 1, 0, 0), -1.0);
    let old = (message(now_ms - RECENT_WINDOW_MS - 1, 7, 0, 0), 100.0);
    let undated = (message(0, 7, 0, 0), 1_000.0);
    let listed = |entries: &[(UnifiedMessage, f64)]| {
        let messages: Vec<UnifiedMessage> = entries.iter().map(|entry| entry.0).collect();
        let costs = |positions: &[usize]| -> Vec<f64> {
            positions.iter().map(|&i| entries[i].1).collect()
        };
        let (usage, burn) = local_active_usage_from_messages(&messages, now_ms);
        (costs(&usage.unwrap().messages), costs(&burn.unwrap().messages))
    };
    let recent = vec![0.25, 0.5, -1.0];
    assert_eq!(listed(&[a, b, c]), (recent.clone(), recent.clone()));
    assert_eq!(listed(&[undated, a, undated, b, c]), (recent.clone(), recent.clone()));
    let with_old = vec![100.0, 0.25, 0.5, -1.0];
    assert_eq!(listed(&[a, old, b, undated, c]), (with_old, recent));
}

#[test]
fn a_block_ends_on_the_hour_and_the_next_one_begins() {
    let start = 1_800_000_000_000; // a full hour
    let first = message(start + 59 * MINUTE_MS, 5, 0, 0);
    let last = message(start + CLAUDE_SESSION_WINDOW_MS - 1, 7, 0, 0);
    let next = message(start + CLAUDE_SESSION_WINDOW_MS, 11, 0, 0);
    let usage = |messages: &[UnifiedMessage], now_ms| {
        local_active_usage_from_messages(messages, now_ms)
            .0
            .map(|usage| usage.input_output_tokens)
    };
    assert_eq!(usage(&[first, last], start + CLAUDE_SESSION_WINDOW_MS - 1), Some(12));
    assert_eq!(usage(&[first, last], start + CLAUDE_SESSION_WINDOW_MS), None);
    assert_eq!(usage(&[first, last, next], start + CLAUDE_SESSION_WINDOW_MS), Some(11));
    // An earlier block that is still running gives way to the newest one.
    assert_eq!(usage(&[first, last, next], start), Some(11));
}

#[test]
fn only_dated_messages_count() {
    let (usage, burn) = local_active_usage_from_messages(&[message(0, 5, 5, 0)], 10);
    assert!(usage.is_none() && burn.is_none());
    let (usage, burn) = local_active_usage_from_messages(&[], 10);
    assert!(usage.is_none() && burn.is_none());
    let (usage, burn) = local_active_usage_from_messages(&[message(1, 5, 5, 0)], 10);
    assert_eq!(usage.unwrap().input_output_tokens, 10);
    assert_eq!(burn.unwrap().tokens, 10);
}

#[test]
fn burn_window_includes_its_first_moment() {
    let now_ms = 1_800_000_000_000i64;
    let at_edge = message(now_ms - RECENT_WINDOW_MS, 8, 0, 0);
    let too_old = message(now_ms - RECENT_WINDOW_MS - 1, 8, 0, 0);
    assert_eq!(compute_recent_burn_rate(&[at_edge], now_ms).unwrap().tokens, 8);
    assert!(compute_recent_burn_rate(&[too_old], now_ms).is_none());
    // Recent messages without tokens give no burn.
    assert!(compute_recent_burn_rate(&[message(now_ms, 0, 0, 7)], now_ms).is_none());
}

#[test]
fn checked_usage_reports_what_does_not_fit() {
    let now_ms = 1_800_000_000_000i64;
    let fine = message(now_ms, 1, 2, 0);
    let (usage, burn) = checked_local_active_usage(&[fine], now_ms).unwrap();
    assert_eq!(usage.unwrap().input_output_tokens, 3);
    assert_eq!(burn.unwrap().tokens, 3);

    // A block that would end beyond the last representable moment.
    assert!(checked_local_active_usage(&[message(i64::MAX, 1, 0, 0)], now_ms).is_none());
    // A block that ends just within that moment.
    let opener = message(i64::MAX - CLAUDE_SESSION_WINDOW_MS - HOUR_MS, 1, 0, 0);
    assert!(checked_local_active_usage(&[opener], now_ms).is_some());
    // More recent tokens than a `u64` holds.
    let huge = message(now_ms, i64::MAX, 0, 0);
    assert!(checked_local_active_usage(&[huge, huge], now_ms).is_some());
    assert!(checked_local_active_usage(&[huge, huge, huge], now_ms).is_none());
    // No recent window before the first representable moment.
    assert!(checked_local_active_usage(&[fine], i64::MIN).is_none());
    // Without an active block nothing else is looked at.
    let (usage, burn) =
        checked_local_active_usage(&[huge, huge, huge], now_ms + CLAUDE_SESSION_WINDOW_MS).unwrap();
    assert!(usage.is_none() && burn.is_none());
}
