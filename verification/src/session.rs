//! Session blocks: the five-hour windows into which local messages fall, what
//! the current block has used, and how fast tokens were used most recently.

use vstd::prelude::*;

use crate::messages::{sort_by_time, UnifiedMessage};
use crate::messages::{
    comes_before, is_time_order, law_time_order_is_time_order, positions, time_order, times,
    total_tokens,
};

verus! {

pub const CLAUDE_SESSION_WINDOW_MS: i64 = 5 * 60 * 60 * 1000;

pub const HOUR_MS: i64 = 60 * 60 * 1000;

pub const MINUTE_MS: i64 = 60 * 1000;

pub const RECENT_WINDOW_MS: i64 = 30 * 60 * 1000;

/// The full hour at or before a time.
pub open spec fn hour_floor(timestamp_ms: int) -> int {
    timestamp_ms / 3_600_000 * 3_600_000
}

/// When a block ends whose first message was sent at `first_ms`: five hours after
/// the full hour in which it began.
pub open spec fn session_end(first_ms: int) -> int {
    hour_floor(first_ms) + CLAUDE_SESSION_WINDOW_MS
}

/// For messages at these times, oldest first: the index of the message that
/// opened the block to which message `k` belongs. A message opens a block when
/// the block before it has ended.
pub open spec fn block_start(times: Seq<int>, k: int) -> int
    decreases k,
{
    if k <= 0 {
        0
    } else if times[k] >= session_end(times[block_start(times, k - 1)]) {
        k
    } else {
        block_start(times, k - 1)
    }
}

/// When the block of message `k` ends.
pub open spec fn block_end(times: Seq<int>, k: int) -> int {
    session_end(times[block_start(times, k)])
}

/// A count held at the largest `u64`.
pub open spec fn saturated(count: nat) -> nat {
    if count > u64::MAX {
        u64::MAX as nat
    } else {
        count
    }
}

/// What [`LocalActiveUsage`] holds.
#[verifier::ext_equal]
pub struct ActiveUsageView {
    pub input_output_tokens: nat,
    pub messages: Seq<int>,
}

/// What [`RecentBurn`] holds.
#[verifier::ext_equal]
pub struct RecentBurnView {
    pub tokens: nat,
    pub duration_ms: int,
    pub messages: Seq<int>,
}

/// The timestamps of all dated messages, oldest first. A message without a
/// positive timestamp is undated.
pub open spec fn dated_times(messages: Seq<UnifiedMessage>) -> Seq<int> {
    times(messages, time_order(messages, 1))
}

/// The usage of the block that holds the newest dated message, if that block has
/// not ended by `now_ms`.
pub open spec fn active_usage(messages: Seq<UnifiedMessage>, now_ms: int) -> Option<ActiveUsageView> {
    let order = time_order(messages, 1);
    let at = dated_times(messages);
    let newest = order.len() - 1;
    if order.len() == 0 || block_end(at, newest) <= now_ms {
        None
    } else {
        let members = order.skip(block_start(at, newest));
        Some(
            ActiveUsageView {
                input_output_tokens: saturated(total_tokens(messages, members)),
                messages: members,
            },
        )
    }
}

/// The end of the newest block is a time that an `i64` can hold.
pub open spec fn blocks_fit(messages: Seq<UnifiedMessage>) -> bool {
    let at = dated_times(messages);
    at.len() > 0 ==> block_end(at, at.len() - 1) <= i64::MAX
}

/// The earliest time that counts as recent at `now_ms`; undated messages never do.
pub open spec fn recent_from(now_ms: int) -> int {
    if now_ms - RECENT_WINDOW_MS > 1 {
        now_ms - RECENT_WINDOW_MS
    } else {
        1
    }
}

/// The messages sent in the last half hour, oldest first.
pub open spec fn recent_order(messages: Seq<UnifiedMessage>, now_ms: int) -> Seq<int> {
    time_order(messages, recent_from(now_ms))
}

/// The tokens of the recent messages and the time over which they were used: from
/// the first to the last of them, and at least a minute. Nothing when no recent
/// message used a token.
pub open spec fn recent_burn(messages: Seq<UnifiedMessage>, now_ms: int) -> Option<RecentBurnView> {
    let order = recent_order(messages, now_ms);
    let tokens = total_tokens(messages, order);
    if order.len() == 0 || tokens == 0 {
        None
    } else {
        let span = messages[order.last()].timestamp - messages[order.first()].timestamp;
        Some(
            RecentBurnView {
                tokens,
                duration_ms: if span < MINUTE_MS {
                    MINUTE_MS as int
                } else {
                    span
                },
                messages: order,
            },
        )
    }
}

/// The start of the recent window and the tokens in it are numbers that an `i64`
/// and a `u64` can hold.
pub open spec fn recent_fits(messages: Seq<UnifiedMessage>, now_ms: int) -> bool {
    &&& now_ms - RECENT_WINDOW_MS >= i64::MIN
    &&& total_tokens(messages, recent_order(messages, now_ms)) <= u64::MAX
}

/// Tokens used in the active block, and the messages of that block, oldest first,
/// by their positions.
#[derive(Debug, PartialEq, Eq)]
pub struct LocalActiveUsage {
    pub input_output_tokens: u64,
    pub messages: Vec<usize>,
}

impl View for LocalActiveUsage {
    type V = ActiveUsageView;

    open spec fn view(&self) -> ActiveUsageView {
        ActiveUsageView {
            input_output_tokens: self.input_output_tokens as nat,
            messages: positions(self.messages@),
        }
    }
}

/// Tokens used by the recent messages, the time over which they were used, and
/// those messages, oldest first, by their positions.
#[derive(Debug, PartialEq, Eq)]
pub struct RecentBurn {
    pub tokens: u64,
    pub duration_ms: i64,
    pub messages: Vec<usize>,
}

impl View for RecentBurn {
    type V = RecentBurnView;

    open spec fn view(&self) -> RecentBurnView {
        RecentBurnView {
            tokens: self.tokens as nat,
            duration_ms: self.duration_ms as int,
            messages: positions(self.messages@),
        }
    }
}

/// An optional usage as its view.
pub open spec fn usage_view(usage: Option<LocalActiveUsage>) -> Option<ActiveUsageView> {
    match usage {
        Some(usage) => Some(usage@),
        None => None,
    }
}

/// An optional burn as its view.
pub open spec fn burn_view(burn: Option<RecentBurn>) -> Option<RecentBurnView> {
    match burn {
        Some(burn) => Some(burn@),
        None => None,
    }
}

/// The full hour at or before a time.
pub fn floor_to_hour_ms(timestamp_ms: i64) -> (floor_ms: i64)
    requires
        hour_floor(timestamp_ms as int) >= i64::MIN,
    ensures
        floor_ms == hour_floor(timestamp_ms as int),
        floor_ms as int % 3_600_000 == 0,
        floor_ms <= timestamp_ms < floor_ms + HOUR_MS,
{
    assert(HOUR_MS == 3_600_000);
    timestamp_ms.checked_div_euclid(HOUR_MS).unwrap() * HOUR_MS
}

/// A block of messages that is still open.
#[derive(Debug)]
pub struct ActiveBlock {
    pub end_ms: i64,
    pub last_message_ms: i64,
    pub input_output_tokens: u64,
    pub messages: Vec<usize>,
}

impl ActiveBlock {
    /// An empty block, opened by a message sent at `timestamp_ms`.
    pub fn new(timestamp_ms: i64) -> (block: Self)
        requires
            hour_floor(timestamp_ms as int) >= i64::MIN,
            session_end(timestamp_ms as int) <= i64::MAX,
        ensures
            block.end_ms == session_end(timestamp_ms as int),
            block.last_message_ms == timestamp_ms,
            block.input_output_tokens == 0,
            block.messages@.len() == 0,
    {
        let start_ms = floor_to_hour_ms(timestamp_ms);
        ActiveBlock {
            end_ms: start_ms + CLAUDE_SESSION_WINDOW_MS,
            last_message_ms: timestamp_ms,
            input_output_tokens: 0,
            messages: Vec::new(),
        }
    }

    /// Counts a message, which stands at `position`, towards the block.
    pub fn add_message(&mut self, message: &UnifiedMessage, position: usize)
        ensures
            final(self).end_ms == old(self).end_ms,
            final(self).last_message_ms == message.timestamp,
            final(self).input_output_tokens == saturated(
                old(self).input_output_tokens as nat + message.tokens.input_output(),
            ),
            final(self).messages@ == old(self).messages@.push(position),
    {
        self.last_message_ms = message.timestamp;
        let tokens = message.tokens.input_output_tokens();
        self.input_output_tokens = self.input_output_tokens.saturating_add(tokens);
        self.messages.push(position);
    }

    /// Whether a message at `timestamp_ms` comes too late for the block: after its
    /// end, or a whole session after its last message.
    pub fn is_over_at(&self, timestamp_ms: i64) -> (over: bool)
        requires
            timestamp_ms < self.end_ms ==> i64::MIN <= timestamp_ms - self.last_message_ms
                <= i64::MAX,
        ensures
            over == (timestamp_ms >= self.end_ms || timestamp_ms - self.last_message_ms
                >= CLAUDE_SESSION_WINDOW_MS),
    {
        timestamp_ms >= self.end_ms || timestamp_ms - self.last_message_ms
            >= CLAUDE_SESSION_WINDOW_MS
    }

    /// What the block used.
    pub fn into_usage(self) -> (usage: LocalActiveUsage)
        ensures
            usage.input_output_tokens == self.input_output_tokens,
            usage.messages == self.messages,
    {
        LocalActiveUsage {
            input_output_tokens: self.input_output_tokens,
            messages: self.messages,
        }
    }
}

/// Times that never decrease.
pub open spec fn nondecreasing(at: Seq<int>) -> bool {
    forall|j: int, k: int| 0 <= j <= k < at.len() ==> #[trigger] at[j] <= #[trigger] at[k]
}

/// The dated times are positive and never decrease.
pub proof fn lemma_dated_times(messages: Seq<UnifiedMessage>, from: int)
    ensures
        nondecreasing(times(messages, time_order(messages, from))),
        forall|k: int|
            0 <= k < time_order(messages, from).len() ==> from <= #[trigger] times(
                messages,
                time_order(messages, from),
            )[k] <= i64::MAX,
{
    let order = time_order(messages, from);
    law_time_order_is_time_order(messages, from);
    let at = times(messages, order);
    assert forall|j: int, k: int| 0 <= j <= k < at.len() implies #[trigger] at[j] <= #[trigger] at[k] by {
        if j < k {
            assert(comes_before(messages, order[j], order[k]));
        }
    }
}

/// Every message lies within its block: it was sent no earlier than the message
/// that opened the block, and before the block ends.
pub proof fn law_message_lies_in_its_block(at: Seq<int>, k: int)
    requires
        nondecreasing(at),
        0 <= k < at.len(),
    ensures
        0 <= block_start(at, k) <= k,
        at[block_start(at, k)] <= at[k] < block_end(at, k),
    decreases k,
{
    if k > 0 {
        law_message_lies_in_its_block(at, k - 1);
    }
}

/// A message that comes a whole session after the last one also comes after the
/// end of the block: the gap rule never opens a block that the end rule would not.
pub proof fn law_gap_rule_is_implied(first_ms: int, last_ms: int, timestamp_ms: int)
    requires
        first_ms <= last_ms,
        timestamp_ms - last_ms >= CLAUDE_SESSION_WINDOW_MS,
    ensures
        timestamp_ms >= session_end(first_ms),
{
}

/// Blocks do not overlap: the block that message `k` opens ends at least a whole
/// session after the block before it.
pub proof fn law_blocks_do_not_overlap(at: Seq<int>, k: int)
    requires
        0 < k < at.len(),
        block_start(at, k) == k,
        nondecreasing(at),
    ensures
        hour_floor(at[k]) >= block_end(at, k - 1),
        block_end(at, k) >= block_end(at, k - 1) + CLAUDE_SESSION_WINDOW_MS,
{
    law_message_lies_in_its_block(at, k - 1);
}

/// Later blocks end later.
proof fn lemma_block_end_grows(at: Seq<int>, j: int, k: int)
    requires
        nondecreasing(at),
        0 <= j <= k < at.len(),
    ensures
        block_end(at, j) <= block_end(at, k),
    decreases k - j,
{
    if j < k {
        lemma_block_end_grows(at, j, k - 1);
        law_message_lies_in_its_block(at, k - 1);
        law_message_lies_in_its_block(at, k);
        if block_start(at, k) == k {
            law_blocks_do_not_overlap(at, k);
        }
    }
}

/// One more listed message adds its tokens.
proof fn lemma_total_tokens_push(messages: Seq<UnifiedMessage>, order: Seq<int>, i: int)
    ensures
        total_tokens(messages, order.push(i)) == total_tokens(messages, order)
            + messages[i].tokens.input_output(),
{
    assert(order.push(i).drop_last() =~= order);
}

/// The usage of the newest block of dated messages, unless it has ended.
pub fn latest_active_usage(messages: &[UnifiedMessage], now_ms: i64) -> (usage: Option<
    LocalActiveUsage,
>)
    requires
        blocks_fit(messages@),
    ensures
        usage_view(usage) == active_usage(messages@, now_ms as int),
{
    let sorted = sort_by_time(messages, 1);
    let ghost order = time_order(messages@, 1);
    let ghost at = dated_times(messages@);
    proof {
        law_time_order_is_time_order(messages@, 1);
        lemma_dated_times(messages@, 1);
    }
    let mut current: Option<ActiveBlock> = None;
    let mut latest_active: Option<LocalActiveUsage> = None;
    let mut k: usize = 0;
    while k < sorted.len()
        invariant
            k <= sorted.len(),
            positions(sorted@) == order,
            order == time_order(messages@, 1),
            at == times(messages@, order),
            is_time_order(messages@, 1, order),
            nondecreasing(at),
            forall|j: int| 0 <= j < at.len() ==> 1 <= #[trigger] at[j] <= i64::MAX,
            at.len() > 0 ==> block_end(at, at.len() - 1) <= i64::MAX,
            current is None <==> k == 0,
            k == 0 ==> latest_active is None,
            current matches Some(block) ==> {
                let start = block_start(at, k - 1);
                &&& block.end_ms == block_end(at, k - 1)
                &&& block.last_message_ms == at[k - 1]
                &&& positions(block.messages@) == order.subrange(start, k as int)
                &&& block.input_output_tokens == saturated(
                    total_tokens(messages@, order.subrange(start, k as int)),
                )
                &&& latest_active is Some ==> block.end_ms > now_ms
            },
        decreases sorted.len() - k,
    {
        assert(positions(sorted@)[k as int] == sorted@[k as int]);
        assert(0 <= order[k as int] < messages@.len());
        let message = &messages[sorted[k]];
        let timestamp = message.timestamp;
        assert(timestamp == at[k as int]);
        let ghost start = block_start(at, k as int);
        proof {
            law_message_lies_in_its_block(at, k as int);
            lemma_block_end_grows(at, k as int, at.len() - 1);
            if k > 0 {
                law_message_lies_in_its_block(at, k - 1);
                if timestamp - at[k - 1] >= CLAUDE_SESSION_WINDOW_MS {
                    law_gap_rule_is_implied(at[block_start(at, k - 1)], at[k - 1], timestamp as int);
                }
                if start == k {
                    law_blocks_do_not_overlap(at, k as int);
                }
            }
            assert(hour_floor(timestamp as int) >= 0);
        }
        let mut block = match current.take() {
            Some(open) => if open.is_over_at(timestamp) {
                if open.end_ms > now_ms {
                    latest_active = Some(open.into_usage());
                }
                ActiveBlock::new(timestamp)
            } else {
                open
            },
            None => ActiveBlock::new(timestamp),
        };
        let ghost members = order.subrange(start, k as int);
        assert(positions(block.messages@) =~= members);
        block.add_message(message, sorted[k]);
        proof {
            assert(order.subrange(start, k + 1) =~= members.push(order[k as int]));
            lemma_total_tokens_push(messages@, members, order[k as int]);
            assert(positions(block.messages@) =~= order.subrange(start, k + 1));
        }
        current = Some(block);
        k = k + 1;
    }
    proof {
        if k > 0 {
            assert(at.len() == k);
            let start = block_start(at, k - 1);
            law_message_lies_in_its_block(at, k - 1);
            assert(order.skip(start) =~= order.subrange(start, k as int));
        }
    }
    if let Some(block) = current {
        if block.end_ms > now_ms {
            latest_active = Some(block.into_usage());
        }
    }
    latest_active
}

/// The tokens of the first listed messages are no more than those of all.
proof fn lemma_total_tokens_take(messages: Seq<UnifiedMessage>, order: Seq<int>, k: int)
    requires
        0 <= k <= order.len(),
    ensures
        total_tokens(messages, order.take(k)) <= total_tokens(messages, order),
    decreases order.len(),
{
    if k == order.len() {
        assert(order.take(k) =~= order);
    } else {
        lemma_total_tokens_take(messages, order.drop_last(), k);
        assert(order.drop_last().take(k) =~= order.take(k));
    }
}

/// The tokens of the listed messages together, if a `u64` can hold them.
fn sum_tokens(messages: &[UnifiedMessage], order: &Vec<usize>) -> (sum: Option<u64>)
    requires
        forall|k: int| 0 <= k < order.len() ==> #[trigger] order@[k] < messages.len(),
    ensures
        match sum {
            Some(tokens) => tokens == total_tokens(messages@, positions(order@)),
            None => total_tokens(messages@, positions(order@)) > u64::MAX,
        },
{
    let ghost listed = positions(order@);
    let mut tokens: u64 = 0;
    let mut k: usize = 0;
    while k < order.len()
        invariant
            k <= order.len(),
            listed == positions(order@),
            forall|k: int| 0 <= k < order.len() ==> #[trigger] order@[k] < messages.len(),
            tokens == total_tokens(messages@, listed.take(k as int)),
        decreases order.len() - k,
    {
        proof {
            assert(listed.take(k + 1) =~= listed.take(k as int).push(order@[k as int] as int));
            lemma_total_tokens_push(messages@, listed.take(k as int), order@[k as int] as int);
            lemma_total_tokens_take(messages@, listed, k + 1);
        }
        match tokens.checked_add(messages[order[k]].tokens.input_output_tokens()) {
            Some(sum) => {
                tokens = sum;
            },
            None => {
                return None;
            },
        }
        k = k + 1;
    }
    assert(listed.take(k as int) =~= listed);
    Some(tokens)
}

/// The messages sent in the last half hour, oldest first.
fn recent_messages(messages: &[UnifiedMessage], now_ms: i64) -> (order: Vec<usize>)
    requires
        now_ms - RECENT_WINDOW_MS >= i64::MIN,
    ensures
        positions(order@) == recent_order(messages@, now_ms as int),
        forall|k: int| 0 <= k < order.len() ==> #[trigger] order@[k] < messages.len(),
{
    let window_start = now_ms - RECENT_WINDOW_MS;
    let from: i64 = if window_start > 1 {
        window_start
    } else {
        1
    };
    let order = sort_by_time(messages, from);
    proof {
        law_time_order_is_time_order(messages@, from as int);
        assert forall|k: int| 0 <= k < order.len() implies #[trigger] order@[k] < messages.len() by {
            assert(positions(order@)[k] == order@[k]);
        }
    }
    order
}

/// How fast tokens were used in the last half hour. A short recent window keeps an
/// old burst from inflating the rate while the user is idle or working slowly.
pub fn compute_recent_burn_rate(messages: &[UnifiedMessage], now_ms: i64) -> (burn: Option<
    RecentBurn,
>)
    requires
        recent_fits(messages@, now_ms as int),
    ensures
        burn_view(burn) == recent_burn(messages@, now_ms as int),
{
    let recent = recent_messages(messages, now_ms);
    if recent.len() == 0 {
        return None;
    }
    let tokens: u64 = sum_tokens(messages, &recent).unwrap();
    if tokens == 0 {
        return None;
    }
    let first_ts = messages[recent[0]].timestamp;
    let last_ts = messages[recent[recent.len() - 1]].timestamp;
    proof {
        let order = recent_order(messages@, now_ms as int);
        lemma_dated_times(messages@, recent_from(now_ms as int));
        assert(order.first() == recent@[0]);
        assert(order.last() == recent@[recent.len() - 1]);
        let at = times(messages@, order);
        assert(at[0] == first_ts && at[order.len() - 1] == last_ts);
    }
    let span_ms = last_ts - first_ts;
    let duration_ms: i64 = if span_ms < MINUTE_MS {
        MINUTE_MS
    } else {
        span_ms
    };
    Some(RecentBurn { tokens, duration_ms, messages: recent })
}

/// All intermediate results of [`local_active_usage_from_messages`] are numbers
/// that the machine can hold.
pub open spec fn usage_fits(messages: Seq<UnifiedMessage>, now_ms: int) -> bool {
    &&& blocks_fit(messages)
    &&& active_usage(messages, now_ms) is Some ==> recent_fits(messages, now_ms)
}

/// The usage of the active block, and the recent burn while there is one.
pub fn local_active_usage_from_messages(messages: &[UnifiedMessage], now_ms: i64) -> (result: (
    Option<LocalActiveUsage>,
    Option<RecentBurn>,
))
    requires
        usage_fits(messages@, now_ms as int),
    ensures
        usage_view(result.0) == active_usage(messages@, now_ms as int),
        result.0 is Some ==> burn_view(result.1) == recent_burn(messages@, now_ms as int),
        result.0 is None ==> result.1 is None,
{
    let latest_active = latest_active_usage(messages, now_ms);
    let recent_burn = if latest_active.is_some() {
        compute_recent_burn_rate(messages, now_ms)
    } else {
        None
    };
    (latest_active, recent_burn)
}

/// Whether every block ends at a time that an `i64` can hold.
fn check_blocks_fit(messages: &[UnifiedMessage]) -> (fit: bool)
    ensures
        fit == blocks_fit(messages@),
{
    let sorted = sort_by_time(messages, 1);
    let ghost order = time_order(messages@, 1);
    let ghost at = dated_times(messages@);
    proof {
        law_time_order_is_time_order(messages@, 1);
        lemma_dated_times(messages@, 1);
    }
    let mut end_ms: i64 = 0;
    let mut k: usize = 0;
    while k < sorted.len()
        invariant
            k <= sorted.len(),
            positions(sorted@) == order,
            at == dated_times(messages@),
            at == times(messages@, order),
            is_time_order(messages@, 1, order),
            nondecreasing(at),
            forall|j: int| 0 <= j < at.len() ==> 1 <= #[trigger] at[j] <= i64::MAX,
            k == 0 ==> end_ms == 0,
            k > 0 ==> end_ms == block_end(at, k - 1),
        decreases sorted.len() - k,
    {
        assert(positions(sorted@)[k as int] == sorted@[k as int]);
        assert(0 <= order[k as int] < messages@.len());
        let timestamp = messages[sorted[k]].timestamp;
        assert(timestamp == at[k as int]);
        if timestamp >= end_ms {
            assert(block_start(at, k as int) == k);
            let start_ms = floor_to_hour_ms(timestamp);
            if start_ms > i64::MAX - CLAUDE_SESSION_WINDOW_MS {
                proof {
                    lemma_block_end_grows(at, k as int, at.len() - 1);
                }
                return false;
            }
            end_ms = start_ms + CLAUDE_SESSION_WINDOW_MS;
        }
        k = k + 1;
    }
    true
}

/// As [`local_active_usage_from_messages`], for messages with any timestamps and
/// counts: nothing when an intermediate result would be too large to hold.
pub fn checked_local_active_usage(messages: &[UnifiedMessage], now_ms: i64) -> (result: Option<
    (Option<LocalActiveUsage>, Option<RecentBurn>),
>)
    ensures
        result is Some <==> usage_fits(messages@, now_ms as int),
        result matches Some(found) ==> {
            &&& usage_view(found.0) == active_usage(messages@, now_ms as int)
            &&& found.0 is Some ==> burn_view(found.1) == recent_burn(messages@, now_ms as int)
            &&& found.0 is None ==> found.1 is None
        },
{
    if !check_blocks_fit(messages) {
        return None;
    }
    let latest_active = latest_active_usage(messages, now_ms);
    if latest_active.is_none() {
        return Some((None, None));
    }
    if now_ms < i64::MIN + RECENT_WINDOW_MS {
        return None;
    }
    let recent = recent_messages(messages, now_ms);
    if sum_tokens(messages, &recent).is_none() {
        return None;
    }
    Some((latest_active, compute_recent_burn_rate(messages, now_ms)))
}

} // verus!
