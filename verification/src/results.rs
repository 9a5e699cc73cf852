//! What a caller gets back from each operation, and when it may be called: statements
//! about every result that the operations may return, in terms of what went in.

use std::collections::VecDeque;

use vstd::prelude::*;

use crate::binary64::{
    b64, is_nan_pattern, law_not_risen, law_patterns_compare_as_numbers, law_percent_is_clamped,
    Binary64,
};
use crate::history::{
    are_recent_ends, checked_pct_burn_per_min, compute_pct_burn_per_min, is_history_after,
    is_rise_between, law_no_rise_without_recent_samples, law_offered_sample,
    law_rise_between_first_and_last, lie_within_reach, none_is_recent, push_util_sample, PctRise,
    UtilSample,
};
use crate::messages::{sort_by_time, TokenBreakdown, UnifiedMessage};
use crate::metrics::{
    build_child_metrics, duration_unit, fmt_duration, local_only_output, local_session_metric,
    usage_report, window_metric, BurnText, Depletion, DurationUnit, UsageMetric, UsageOutput,
    UsageReading, Window,
};
use crate::metrics_laws::{
    count_under, is_held_in_percent, is_window_line, law_durations_in_words,
    law_lines_under_a_window, law_local_output_line_by_line, law_output_fields,
    law_report_line_by_line, law_window_line, letter_for, read_alike, stand_under,
};
use crate::outlook::{law_windows_keep_what_is_theirs, window_outlook, Outlook};
use crate::reset::{
    law_valid_moments, law_whole_seconds_are_left, nanos_between, parse_resets_at_secs,
    rfc3339_instant, seconds_until, UtcInstant,
};
use crate::session::{
    checked_local_active_usage, compute_recent_burn_rate, floor_to_hour_ms, latest_active_usage,
    local_active_usage_from_messages, ActiveBlock, LocalActiveUsage, RecentBurn,
};
use crate::usage_laws::{
    counted, five_hours_on, half_hour_fits, half_hour_from, is_burn_of, is_usage_of,
    law_burn_fits_exactly, law_burn_of_the_last_half_hour, law_hours_and_sessions,
    law_no_usage_without_dated_messages, law_time_order_lists_by_age,
    law_tokens_are_input_plus_output, law_usage_fits_exactly, law_usage_of_the_newest_block,
    lists_by_age, opens_blocks,
};
use crate::windows::{
    is_copy_of, law_recorded_percentage, law_reported_window_comes_first, resolve_window,
    utilization_percentages,
};

verus! {

/// The active usage is that of the newest block.
pub proof fn law_latest_active_usage(
    messages: &[UnifiedMessage],
    openers: Seq<int>,
    now_ms: i64,
    usage: Option<LocalActiveUsage>,
)
    requires
        opens_blocks(messages@, openers),
        call_ensures(latest_active_usage, (messages, now_ms), usage),
    ensures
        is_usage_of(messages@, openers, now_ms as int, usage),
{
    law_usage_of_the_newest_block(messages@, openers, now_ms as int, usage);
}

/// The recent burn is that of the last half hour.
pub proof fn law_compute_recent_burn_rate(
    messages: &[UnifiedMessage],
    now_ms: i64,
    burn: Option<RecentBurn>,
)
    requires
        call_ensures(compute_recent_burn_rate, (messages, now_ms), burn),
    ensures
        is_burn_of(messages@, now_ms as int, burn),
{
    law_burn_of_the_last_half_hour(messages@, now_ms as int, burn);
}

/// Local usage is the usage of the newest block, and the recent burn exactly while
/// that block is active.
pub proof fn law_local_active_usage_from_messages(
    messages: &[UnifiedMessage],
    openers: Seq<int>,
    now_ms: i64,
    result: (Option<LocalActiveUsage>, Option<RecentBurn>),
)
    requires
        opens_blocks(messages@, openers),
        call_ensures(local_active_usage_from_messages, (messages, now_ms), result),
    ensures
        is_usage_of(messages@, openers, now_ms as int, result.0),
        now_ms < five_hours_on(openers.last()) ==> is_burn_of(messages@, now_ms as int, result.1),
        now_ms >= five_hours_on(openers.last()) ==> result.1 is None,
{
    law_usage_of_the_newest_block(messages@, openers, now_ms as int, result.0);
    if result.0 is Some {
        law_burn_of_the_last_half_hour(messages@, now_ms as int, result.1);
    }
}

/// Without a dated message there is neither usage nor burn.
pub proof fn law_nothing_from_undated_messages(
    messages: &[UnifiedMessage],
    now_ms: i64,
    usage: Option<LocalActiveUsage>,
    result: (Option<LocalActiveUsage>, Option<RecentBurn>),
    checked: Option<(Option<LocalActiveUsage>, Option<RecentBurn>)>,
)
    requires
        forall|p: int| 0 <= p < messages@.len() ==> (#[trigger] messages@[p]).timestamp <= 0,
        call_ensures(latest_active_usage, (messages, now_ms), usage),
        call_ensures(local_active_usage_from_messages, (messages, now_ms), result),
        call_ensures(checked_local_active_usage, (messages, now_ms), checked),
    ensures
        usage is None,
        result.0 is None && result.1 is None,
        checked matches Some(found) && found.0 is None && found.1 is None,
        call_requires(latest_active_usage, (messages, now_ms)),
        call_requires(local_active_usage_from_messages, (messages, now_ms)),
{
    law_no_usage_without_dated_messages(messages@, now_ms as int, usage);
    law_no_usage_without_dated_messages(messages@, now_ms as int, result.0);
    if let Some(found) = checked {
        law_no_usage_without_dated_messages(messages@, now_ms as int, found.0);
    }
}

/// The checked form gives the same for any messages, unless a number does not fit.
pub proof fn law_checked_local_active_usage(
    messages: &[UnifiedMessage],
    openers: Seq<int>,
    recent: Seq<usize>,
    now_ms: i64,
    result: Option<(Option<LocalActiveUsage>, Option<RecentBurn>)>,
)
    requires
        opens_blocks(messages@, openers),
        lists_by_age(messages@, half_hour_from(now_ms as int), recent),
        call_ensures(checked_local_active_usage, (messages, now_ms), result),
    ensures
        result is Some <==> {
            &&& five_hours_on(openers.last()) <= 0x7FFF_FFFF_FFFF_FFFF
            &&& now_ms < five_hours_on(openers.last()) ==> half_hour_fits(
                messages@,
                now_ms as int,
                recent,
            )
        },
        result matches Some(found) ==> {
            &&& is_usage_of(messages@, openers, now_ms as int, found.0)
            &&& now_ms < five_hours_on(openers.last()) ==> is_burn_of(
                messages@,
                now_ms as int,
                found.1,
            )
            &&& now_ms >= five_hours_on(openers.last()) ==> found.1 is None
        },
{
    law_usage_fits_exactly(messages@, openers, now_ms as int, recent);
    if let Some(found) = result {
        law_usage_of_the_newest_block(messages@, openers, now_ms as int, found.0);
        if found.0 is Some {
            law_burn_of_the_last_half_hour(messages@, now_ms as int, found.1);
        }
    }
}

/// Usage and burn may be asked for whenever the numbers fit.
pub proof fn law_usage_may_be_asked_for(
    messages: &[UnifiedMessage],
    openers: Seq<int>,
    recent: Seq<usize>,
    now_ms: i64,
)
    requires
        opens_blocks(messages@, openers),
        lists_by_age(messages@, half_hour_from(now_ms as int), recent),
    ensures
        five_hours_on(openers.last()) <= 0x7FFF_FFFF_FFFF_FFFF ==> call_requires(
            latest_active_usage,
            (messages, now_ms),
        ),
        half_hour_fits(messages@, now_ms as int, recent) ==> call_requires(
            compute_recent_burn_rate,
            (messages, now_ms),
        ),
        five_hours_on(openers.last()) <= 0x7FFF_FFFF_FFFF_FFFF && half_hour_fits(
            messages@,
            now_ms as int,
            recent,
        ) ==> call_requires(local_active_usage_from_messages, (messages, now_ms)),
        call_requires(checked_local_active_usage, (messages, now_ms)),
{
    law_usage_fits_exactly(messages@, openers, now_ms as int, recent);
    law_burn_fits_exactly(messages@, now_ms as int, recent);
}

/// Sorting lists exactly the messages from a time on, by age.
pub proof fn law_sort_by_time(messages: &[UnifiedMessage], from: i64, order: Vec<usize>)
    requires
        call_ensures(sort_by_time, (messages, from), order),
    ensures
        lists_by_age(messages@, from as int, order@),
{
    law_time_order_lists_by_age(messages@, from as int, order@);
}

/// The tokens that a message counts for, and the full hour at or before a time.
pub proof fn law_tokens_and_hours(
    message: UnifiedMessage,
    tokens: u64,
    timestamp_ms: i64,
    floor_ms: i64,
)
    requires
        call_ensures(TokenBreakdown::input_output_tokens, (&message.tokens,), tokens),
        call_ensures(floor_to_hour_ms, (timestamp_ms,), floor_ms),
    ensures
        tokens == counted(message),
        floor_ms <= timestamp_ms < floor_ms + 3_600_000,
        floor_ms as int % 3_600_000 == 0,
        timestamp_ms >= -0x8000_0000_0000_0000 + 3_600_000 ==> call_requires(
            floor_to_hour_ms,
            (timestamp_ms,),
        ),
{
    law_tokens_are_input_plus_output(message.tokens);
    law_hours_and_sessions(timestamp_ms as int, 0);
}

/// A block that a message opens is empty and ends five hours after its full hour.
pub proof fn law_new_block(timestamp_ms: i64, block: ActiveBlock)
    requires
        call_ensures(ActiveBlock::new, (timestamp_ms,), block),
    ensures
        block.end_ms == five_hours_on(timestamp_ms as int),
        block.last_message_ms == timestamp_ms,
        block.input_output_tokens == 0,
        block.messages@.len() == 0,
        timestamp_ms >= 0 && five_hours_on(timestamp_ms as int) <= 0x7FFF_FFFF_FFFF_FFFF
            ==> call_requires(ActiveBlock::new, (timestamp_ms,)),
{
    law_hours_and_sessions(timestamp_ms as int, 0);
}

/// A message moves the last time of a block and adds its tokens, as far as a `u64` can
/// hold them, and its position; the end of the block stays.
pub proof fn law_message_joins_block(
    block: &mut ActiveBlock,
    message: &UnifiedMessage,
    position: usize,
)
    requires
        call_ensures(ActiveBlock::add_message, (block, message, position), ()),
    ensures
        final(block).end_ms == old(block).end_ms,
        final(block).last_message_ms == message.timestamp,
        ({
            let together = old(block).input_output_tokens + counted(*message);
            &&& together <= 0xFFFF_FFFF_FFFF_FFFF ==> final(block).input_output_tokens == together
            &&& together > 0xFFFF_FFFF_FFFF_FFFF ==> final(block).input_output_tokens
                == 0xFFFF_FFFF_FFFF_FFFF
        }),
        final(block).messages@ == old(block).messages@.push(position),
{
    law_tokens_are_input_plus_output(message.tokens);
    law_hours_and_sessions(
        0,
        (old(block).input_output_tokens + message.tokens.input_output()) as nat,
    );
}

/// A block is over for a message sent at its end or later, or five hours after its
/// last message; what it used is what it counted.
pub proof fn law_block_is_over(
    block: ActiveBlock,
    timestamp_ms: i64,
    over: bool,
    usage: LocalActiveUsage,
)
    requires
        call_ensures(ActiveBlock::is_over_at, (&block, timestamp_ms), over),
        call_ensures(ActiveBlock::into_usage, (block,), usage),
    ensures
        over <==> timestamp_ms >= block.end_ms || timestamp_ms - block.last_message_ms
            >= 18_000_000,
        usage.input_output_tokens == block.input_output_tokens,
        usage.messages == block.messages,
        timestamp_ms >= block.end_ms ==> call_requires(
            ActiveBlock::is_over_at,
            (&block, timestamp_ms),
        ),
        -0x8000_0000_0000_0000 <= timestamp_ms - block.last_message_ms <= 0x7FFF_FFFF_FFFF_FFFF
            ==> call_requires(ActiveBlock::is_over_at, (&block, timestamp_ms)),
{
}

/// Offering a sample leaves the history that [`is_history_after`] tells, and may be
/// done wherever the time since the last sample fits an `i64`.
pub proof fn law_push_util_sample(history: &mut VecDeque<UtilSample>, sample: UtilSample)
    requires
        call_ensures(push_util_sample, (history, sample), ()),
    ensures
        is_history_after(old(history)@, sample, final(history)@),
        old(history)@.len() == 0 || -0x8000_0000_0000_0000 <= sample.timestamp_ms - old(
            history,
        )@[old(history)@.len() - 1].timestamp_ms <= 0x7FFF_FFFF_FFFF_FFFF ==> call_requires(
            push_util_sample,
            (history, sample),
        ),
{
    law_offered_sample(old(history)@, sample);
}

/// The rise of a percentage over the last half hour goes from its first to its last
/// sample; the checked form says when the time between them does not fit.
pub proof fn law_compute_pct_burn_per_min(
    history: &VecDeque<UtilSample>,
    five_hour: bool,
    now_ms: i64,
    first: int,
    last: int,
    rise: Option<PctRise>,
    checked: Option<Option<PctRise>>,
)
    requires
        are_recent_ends(history@, now_ms as int, first, last),
        call_ensures(compute_pct_burn_per_min, (history, five_hour, now_ms), rise),
        call_ensures(checked_pct_burn_per_min, (history, five_hour, now_ms), checked),
    ensures
        is_rise_between(history@, five_hour, first, last, rise),
        checked matches Some(checked) ==> checked == rise,
        checked is Some <==> now_ms - 1_800_000 >= -0x8000_0000_0000_0000 && (rise is Some
            ==> lie_within_reach(history@, first, last)),
        checked is Some ==> call_requires(compute_pct_burn_per_min, (history, five_hour, now_ms)),
{
    law_rise_between_first_and_last(history@, five_hour, now_ms as int, first, last);
}

/// Without a sample from the last half hour there is no rise.
pub proof fn law_no_rise_to_compute(
    history: &VecDeque<UtilSample>,
    five_hour: bool,
    now_ms: i64,
    rise: Option<PctRise>,
    checked: Option<Option<PctRise>>,
)
    requires
        none_is_recent(history@, now_ms as int),
        call_ensures(compute_pct_burn_per_min, (history, five_hour, now_ms), rise),
        call_ensures(checked_pct_burn_per_min, (history, five_hour, now_ms), checked),
    ensures
        rise is None,
        checked matches Some(checked) ==> checked is None,
        checked is Some <==> now_ms - 1_800_000 >= -0x8000_0000_0000_0000,
{
    law_no_rise_without_recent_samples(history@, five_hour, now_ms as int);
}

/// The window to go by is the one reported, or else the one known, and it is known
/// from then on.
pub proof fn law_resolve_window(
    known: &mut Option<Window>,
    reported: Option<Window>,
    window: Option<Window>,
)
    requires
        call_ensures(resolve_window, (known, reported), window),
    ensures
        reported matches Some(reported) ==> is_copy_of(window, reported) && is_copy_of(
            *final(known),
            reported,
        ),
        reported is None ==> match *old(known) {
            Some(before) => is_copy_of(window, before) && is_copy_of(*final(known), before),
            None => window is None && *final(known) is None,
        },
{
    law_reported_window_comes_first(reported, *old(known), window);
    law_reported_window_comes_first(reported, *old(known), *final(known));
}

/// Percentages are recorded exactly if a window is known, each that of its own window
/// held between 0 and 100, and 0 for the one that is not.
pub proof fn law_utilization_percentages(
    five_hour: &Option<Window>,
    seven_day: &Option<Window>,
    percentages: Option<(Binary64, Binary64)>,
)
    requires
        call_ensures(utilization_percentages, (five_hour, seven_day), percentages),
    ensures
        percentages is Some <==> *five_hour is Some || *seven_day is Some,
        percentages matches Some((five, seven)) ==> {
            &&& match *five_hour {
                Some(window) => is_held_in_percent(five, window.utilization),
                None => five == b64(0),
            }
            &&& match *seven_day {
                Some(window) => is_held_in_percent(seven, window.utilization),
                None => seven == b64(0),
            }
        },
{
    law_recorded_percentage(*five_hour);
    law_recorded_percentage(*seven_day);
}

/// Each window goes with the rise of its own percentage, and the time left is that
/// until the reset of the five-hour window. The samples here are those between which
/// the rises go.
pub proof fn law_window_outlook(
    five_hour: Option<Window>,
    seven_day: Option<Window>,
    history: &VecDeque<UtilSample>,
    now_ms: i64,
    now: &UtcInstant,
    first: int,
    last: int,
    outlook: Outlook,
)
    requires
        are_recent_ends(history@, now_ms as int, first, last),
        call_ensures(window_outlook, (five_hour, seven_day, history, now_ms, now), Some(outlook)),
    ensures
        match five_hour {
            Some(window) => outlook.five_hour matches Some(pace) && is_copy_of(
                Some(pace.window),
                window,
            ) && is_rise_between(history@, true, first, last, pace.rise),
            None => outlook.five_hour is None,
        },
        match seven_day {
            Some(window) => outlook.seven_day matches Some(pace) && is_copy_of(
                Some(pace.window),
                window,
            ) && is_rise_between(history@, false, first, last, pace.rise),
            None => outlook.seven_day is None,
        },
        is_time_left(outlook.secs_until_reset, reset_of(five_hour), *now),
        now.valid() ==> call_requires(
            window_outlook,
            (five_hour, seven_day, history, now_ms, now),
        ),
{
    let rise_5h = crate::history::pct_rise(history@, true, now_ms as int);
    let rise_7d = crate::history::pct_rise(history@, false, now_ms as int);
    law_rise_between_first_and_last(history@, true, now_ms as int, first, last);
    law_rise_between_first_and_last(history@, false, now_ms as int, first, last);
    law_windows_keep_what_is_theirs(five_hour, seven_day, rise_5h, rise_7d, *now, outlook);
    if let Some(reset) = reset_of(five_hour) {
        law_whole_seconds_are_left(reset, *now);
    }
}

/// An outlook is given exactly if the last half hour begins within the range of `i64`
/// and no rise goes between samples that lie too far apart; without recent samples
/// nothing rises.
pub proof fn law_outlook_is_given(
    five_hour: Option<Window>,
    seven_day: Option<Window>,
    history: &VecDeque<UtilSample>,
    now_ms: i64,
    now: &UtcInstant,
    first: int,
    last: int,
    outlook: Option<Outlook>,
)
    requires
        call_ensures(window_outlook, (five_hour, seven_day, history, now_ms, now), outlook),
    ensures
        now_ms - 1_800_000 < -0x8000_0000_0000_0000 ==> outlook is None,
        now_ms - 1_800_000 >= -0x8000_0000_0000_0000 && are_recent_ends(
            history@,
            now_ms as int,
            first,
            last,
        ) && lie_within_reach(history@, first, last) ==> outlook is Some,
        now_ms - 1_800_000 >= -0x8000_0000_0000_0000 && none_is_recent(history@, now_ms as int)
            ==> {
            &&& outlook matches Some(outlook)
            &&& outlook.five_hour matches Some(pace) ==> pace.rise is None
            &&& outlook.seven_day matches Some(pace) ==> pace.rise is None
        },
{
    if are_recent_ends(history@, now_ms as int, first, last) {
        law_rise_between_first_and_last(history@, true, now_ms as int, first, last);
        law_rise_between_first_and_last(history@, false, now_ms as int, first, last);
    }
    if none_is_recent(history@, now_ms as int) {
        law_no_rise_without_recent_samples(history@, true, now_ms as int);
        law_no_rise_without_recent_samples(history@, false, now_ms as int);
    }
}

/// The moment at which a window says that it is reset.
pub open spec fn reset_of(window: Option<Window>) -> Option<UtcInstant> {
    match window {
        Some(window) => match window.resets_at {
            Some(text) => rfc3339_instant(text@),
            None => None,
        },
        None => None,
    }
}

/// The whole seconds left until a moment, exactly if there is at least one.
pub open spec fn is_time_left(
    seconds: Option<i64>,
    reset: Option<UtcInstant>,
    now: UtcInstant,
) -> bool {
    match reset {
        Some(reset) => {
            let nanos = nanos_between(reset, now);
            &&& seconds is Some <==> nanos >= 1_000_000_000
            &&& seconds matches Some(seconds) ==> seconds * 1_000_000_000 <= nanos < (seconds + 1)
                * 1_000_000_000
        },
        None => seconds is None,
    }
}

/// The time left until a reset, from the moment or from its text.
pub proof fn law_time_left(
    reset: &Option<UtcInstant>,
    resets_at: Option<&str>,
    now: &UtcInstant,
    until: Option<i64>,
    parsed: Option<i64>,
    valid: bool,
)
    requires
        call_ensures(seconds_until, (reset, now), until),
        call_ensures(parse_resets_at_secs, (resets_at, now), parsed),
        call_ensures(UtcInstant::is_valid, (now,), valid),
    ensures
        is_time_left(until, *reset, *now),
        is_time_left(
            parsed,
            match resets_at {
                Some(text) => rfc3339_instant(text@),
                None => None,
            },
            *now,
        ),
        valid <==> {
            &&& -8_334_601_228_800 <= now.secs <= 8_210_266_876_799
            &&& now.nanos < if now.secs as int % 60 == 59 {
                2_000_000_000int
            } else {
                1_000_000_000
            }
        },
        valid ==> call_requires(parse_resets_at_secs, (resets_at, now)),
        valid && (reset matches Some(reset) ==> reset.valid()) ==> call_requires(
            seconds_until,
            (reset, now),
        ),
{
    law_valid_moments(*now);
    if let Some(reset) = *reset {
        law_whole_seconds_are_left(reset, *now);
    }
    if let Some(text) = resets_at {
        if let Some(reset) = rfc3339_instant(text@) {
            law_whole_seconds_are_left(reset, *now);
        } else {
            law_whole_seconds_are_left(*now, *now);
        }
    }
    law_whole_seconds_are_left(*now, *now);
}

/// The line of a window, and its copy.
pub proof fn law_window_metric(
    label: &str,
    window: &Window,
    remaining_percent: Binary64,
    line: UsageMetric,
    copy: Window,
)
    requires
        call_ensures(window_metric, (label, window, remaining_percent), line),
        call_ensures(Window::copy, (window,), copy),
    ensures
        is_window_line(line, label@, *window, remaining_percent),
        is_copy_of(Some(copy), *window),
{
    law_window_line(label@, *window, remaining_percent, line);
}

/// A session never has a metric of its own.
pub proof fn law_local_session_metric(
    token_limit: Option<u64>,
    tokens_used: Option<u64>,
    metric: Option<UsageMetric>,
)
    requires
        call_ensures(local_session_metric, (token_limit, tokens_used), metric),
    ensures
        metric is None,
{
}

/// The unit and the words of a stretch of time.
pub proof fn law_fmt_duration(mins: &Binary64, amount: &str, unit: DurationUnit, text: String)
    requires
        call_ensures(duration_unit, (mins,), unit),
        call_ensures(fmt_duration, (mins, amount), text),
    ensures
        unit is Minutes <==> mins.lt(b64(0x404E_0000_0000_0000)),
        unit is Days <==> !mins.lt(b64(0x404E_0000_0000_0000)) && !mins.lt(
            b64(0x4096_8000_0000_0000),
        ),
        text@ == "in "@ + amount@ + letter_for(*mins),
{
    law_durations_in_words(*mins, amount@);
}

/// The lines under a window are those that belong there, and no others.
pub proof fn law_build_child_metrics(
    burn: &Option<BurnText>,
    remaining_pct: &Binary64,
    depletion: &Option<Depletion>,
    mins_until_reset: &Option<Binary64>,
    children: Vec<UsageMetric>,
)
    requires
        call_ensures(
            build_child_metrics,
            (burn, remaining_pct, depletion, mins_until_reset),
            children,
        ),
    ensures
        children@.len() == count_under(*burn, *remaining_pct, *depletion, *mins_until_reset),
        stand_under(children@, 0, *burn, *remaining_pct, *depletion, *mins_until_reset),
{
    law_lines_under_a_window(*burn, *remaining_pct, *depletion, *mins_until_reset, children@);
}

/// What local messages alone give.
pub proof fn law_local_only_output(
    provider: &str,
    plan: Option<String>,
    burn: &Option<BurnText>,
    output: UsageOutput,
)
    requires
        call_ensures(local_only_output, (provider, plan, burn), output),
    ensures
        output.provider@ == provider@,
        output.account is None,
        read_alike(output.plan, plan),
        output.email is None,
        output.metrics@.len() == if *burn is Some {
            2int
        } else {
            0
        },
        stand_under(output.metrics@, 0, *burn, b64(0), None, None),
{
    law_local_output_line_by_line(provider@, plan, *burn, output);
}

/// The report: provider and plan, and its lines one by one. The five-hour window comes
/// first, with what stands under it; behind that the week, with what stands under it;
/// and last the week of the largest model.
pub proof fn law_usage_report(
    provider: &str,
    plan: Option<String>,
    reading: &UsageReading,
    output: UsageOutput,
    week_at: int,
    opus_at: int,
)
    requires
        call_ensures(usage_report, (provider, plan, reading), output),
        week_at == match reading.five_hour {
            Some(five_hour) => 1 + count_under(
                reading.burn,
                five_hour.reading.remaining_percent,
                five_hour.depletion,
                reading.mins_until_reset,
            ),
            None => 0,
        },
        opus_at == week_at + match reading.seven_day {
            Some(week) => 1 + count_under(
                reading.burn,
                week.reading.remaining_percent,
                week.depletion,
                None,
            ),
            None => 0,
        },
    ensures
        output.provider@ == provider@,
        output.account is None,
        read_alike(output.plan, plan),
        output.email is None,
        output.metrics@.len() == opus_at + if reading.seven_day_opus is Some {
            1int
        } else {
            0
        },
        reading.five_hour matches Some(five_hour) ==> {
            let remaining = five_hour.reading.remaining_percent;
            &&& is_window_line(
                output.metrics@[0],
                "5h Limit"@,
                five_hour.reading.window,
                remaining,
            )
            &&& stand_under(
                output.metrics@,
                1,
                reading.burn,
                remaining,
                five_hour.depletion,
                reading.mins_until_reset,
            )
        },
        reading.seven_day matches Some(week) ==> {
            let remaining = week.reading.remaining_percent;
            &&& is_window_line(
                output.metrics@[week_at],
                "Week Limit"@,
                week.reading.window,
                remaining,
            )
            &&& stand_under(
                output.metrics@,
                week_at + 1,
                reading.burn,
                remaining,
                week.depletion,
                None,
            )
        },
        reading.seven_day_opus matches Some(opus) ==> is_window_line(
            output.metrics@[opus_at],
            "Opus"@,
            opus.window,
            opus.remaining_percent,
        ),
{
    law_output_fields(provider@, plan, *reading, output);
    law_report_line_by_line(*reading, output.metrics@);
}

/// How amounts compare, and what becomes of a percentage.
pub proof fn law_amounts(
    value: &Binary64,
    other: &Binary64,
    nan: bool,
    less: bool,
    positive: bool,
    clamped: Binary64,
    not_risen: bool,
)
    requires
        call_ensures(Binary64::is_nan, (value,), nan),
        call_ensures(Binary64::is_less_than, (value, other), less),
        call_ensures(Binary64::is_positive, (value,), positive),
        call_ensures(Binary64::clamp_percent, (value,), clamped),
        call_ensures(Binary64::not_risen_from, (value, other), not_risen),
    ensures
        nan <==> is_nan_pattern(value.bits),
        less == value.lt(*other),
        positive <==> !is_nan_pattern(value.bits) && 0 < value.bits < 0x8000_0000_0000_0000,
        is_held_in_percent(clamped, *value),
        not_risen <==> {
            &&& !is_nan_pattern(value.bits)
            &&& !is_nan_pattern(other.bits)
            &&& !other.lt(*value)
            &&& !(value.bits == other.bits && (value.bits == 0x7FF0_0000_0000_0000 || value.bits
                == 0xFFF0_0000_0000_0000))
        },
{
    law_patterns_compare_as_numbers(*value, *other);
    law_patterns_compare_as_numbers(b64(0), *value);
    law_percent_is_clamped(*value);
    law_not_risen(*value, *other);
}

} // verus!
