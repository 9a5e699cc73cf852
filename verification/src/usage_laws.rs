//! What the usage and the burn of a list of messages are, told from the messages
//! alone: which of them count, over which time, and for how many tokens.

use vstd::prelude::*;

use crate::messages::{
    comes_before, law_time_order_is_time_order, law_time_order_is_unique, positions, time_order,
    times, total_tokens, TokenBreakdown, UnifiedMessage,
};
use crate::session::{
    active_usage, block_end, block_start, blocks_fit, burn_view, dated_times, hour_floor,
    law_message_lies_in_its_block, lemma_dated_times, nondecreasing, recent_burn, recent_fits,
    recent_from, recent_order, saturated, session_end, usage_fits, usage_view, LocalActiveUsage,
    RecentBurn,
};
use crate::session_laws::law_block_holds_everything_since_it_opened;

verus! {

/// A message counts for its input and output tokens together: never for less than
/// nothing, and never for more than the largest `i64`.
pub proof fn law_tokens_are_input_plus_output(tokens: TokenBreakdown)
    ensures
        0 <= tokens.input + tokens.output <= 0x7FFF_FFFF_FFFF_FFFF ==> tokens.input_output()
            == tokens.input + tokens.output,
        tokens.input + tokens.output <= 0 ==> tokens.input_output() == 0,
        tokens.input + tokens.output >= 0x7FFF_FFFF_FFFF_FFFF ==> tokens.input_output()
            == 0x7FFF_FFFF_FFFF_FFFF,
{
}

/// The tokens that a message counts for.
pub open spec fn counted(message: UnifiedMessage) -> int {
    let sum = message.tokens.input + message.tokens.output;
    if sum <= 0 {
        0
    } else if sum >= 0x7FFF_FFFF_FFFF_FFFF {
        0x7FFF_FFFF_FFFF_FFFF
    } else {
        sum
    }
}

/// The tokens that the messages at the listed positions count for.
pub open spec fn counted_together(messages: Seq<UnifiedMessage>, listed: Seq<usize>) -> int {
    listed.map_values(|p: usize| counted(messages[p as int])).fold_left(0, |a: int, b: int| a + b)
}

/// The positions of exactly the messages sent at `from` or later, from the oldest to
/// the newest; messages of the same age stand as they were listed.
pub open spec fn lists_by_age(messages: Seq<UnifiedMessage>, from: int, listed: Seq<usize>) -> bool {
    &&& forall|k: int|
        0 <= k < listed.len() ==> (#[trigger] listed[k]) < messages.len()
            && messages[listed[k] as int].timestamp >= from
    &&& forall|p: int|
        0 <= p < messages.len() && (#[trigger] messages[p]).timestamp >= from ==> exists|k: int|
            0 <= k < listed.len() && #[trigger] listed[k] == p
    &&& forall|j: int, k: int|
        0 <= j < k < listed.len() ==> {
            let older = messages[(#[trigger] listed[j]) as int].timestamp;
            let newer = messages[(#[trigger] listed[k]) as int].timestamp;
            older < newer || (older == newer && listed[j] < listed[k])
        }
}

/// Five hours after the full hour in which `first_ms` lies.
pub open spec fn five_hours_on(first_ms: int) -> int {
    first_ms - first_ms % 3_600_000 + 18_000_000
}

/// Some message was sent at this time.
pub open spec fn is_sent_at(messages: Seq<UnifiedMessage>, at: int) -> bool {
    exists|p: int| 0 <= p < messages.len() && (#[trigger] messages[p]).timestamp == at
}

/// The times at which blocks were opened: the first by the oldest dated message, each
/// other one by the oldest message that was sent when the one before it had ended,
/// and no message was sent after the last one had ended.
pub open spec fn opens_blocks(messages: Seq<UnifiedMessage>, openers: Seq<int>) -> bool {
    &&& openers.len() > 0
    &&& openers[0] > 0
    &&& forall|b: int| 0 <= b < openers.len() ==> is_sent_at(messages, #[trigger] openers[b])
    &&& forall|p: int|
        0 <= p < messages.len() && (#[trigger] messages[p]).timestamp > 0 ==> messages[p].timestamp
            >= openers[0]
    &&& forall|b: int, c: int|
        0 <= b < c < openers.len() && c == b + 1 ==> (#[trigger] openers[c]) >= five_hours_on(
            #[trigger] openers[b],
        )
    &&& forall|b: int, c: int, p: int|
        0 <= b < c < openers.len() && c == b + 1 && 0 <= p < messages.len() && (
        #[trigger] messages[p]).timestamp >= five_hours_on(#[trigger] openers[b])
            ==> messages[p].timestamp >= (#[trigger] openers[c])
    &&& forall|p: int|
        0 <= p < messages.len() ==> (#[trigger] messages[p]).timestamp < five_hours_on(
            openers.last(),
        )
}

proof fn lemma_counted_together(messages: Seq<UnifiedMessage>, listed: Seq<usize>)
    ensures
        counted_together(messages, listed) == total_tokens(messages, positions(listed)),
    decreases listed.len(),
{
    let count = |p: usize| counted(messages[p as int]);
    if listed.len() > 0 {
        lemma_counted_together(messages, listed.drop_last());
        assert(listed.map_values(count).drop_last() =~= listed.drop_last().map_values(count));
        assert(positions(listed).drop_last() =~= positions(listed.drop_last()));
        law_tokens_are_input_plus_output(messages[listed.last() as int].tokens);
    }
}

proof fn lemma_lists_by_age(messages: Seq<UnifiedMessage>, from: int, listed: Seq<usize>)
    requires
        positions(listed) == time_order(messages, from),
    ensures
        lists_by_age(messages, from, listed),
{
    let order = time_order(messages, from);
    law_time_order_is_time_order(messages, from);
    assert(order.len() == positions(listed).len() && listed.len() == order.len());
    assert forall|k: int| 0 <= k < listed.len() implies (#[trigger] listed[k]) < messages.len()
        && messages[listed[k] as int].timestamp >= from by {
        assert(positions(listed)[k] == order[k]);
    }
    assert forall|p: int|
        0 <= p < messages.len() && (#[trigger] messages[p]).timestamp >= from implies exists|k: int|
        0 <= k < listed.len() && #[trigger] listed[k] == p by {
        assert(order.contains(p));
        let k = choose|k: int| 0 <= k < order.len() && order[k] == p;
        assert(positions(listed)[k] == order[k]);
        assert(listed[k] == p);
    }
    assert forall|j: int, k: int| 0 <= j < k < listed.len() implies {
        let older = messages[(#[trigger] listed[j]) as int].timestamp;
        let newer = messages[(#[trigger] listed[k]) as int].timestamp;
        older < newer || (older == newer && listed[j] < listed[k])
    } by {
        assert(positions(listed)[j] == order[j] && positions(listed)[k] == order[k]);
        assert(comes_before(messages, order[j], order[k]));
    }
}

/// The full hour at or before a time, the end of a block that a message at that time
/// opens, and a count that no `u64` can hold.
pub proof fn law_hours_and_sessions(timestamp_ms: int, count: nat)
    ensures
        hour_floor(timestamp_ms) <= timestamp_ms < hour_floor(timestamp_ms) + 3_600_000,
        hour_floor(timestamp_ms) % 3_600_000 == 0,
        session_end(timestamp_ms) == five_hours_on(timestamp_ms),
        saturated(count) <= 0xFFFF_FFFF_FFFF_FFFF,
        count <= 0xFFFF_FFFF_FFFF_FFFF ==> saturated(count) == count,
        count >= 0xFFFF_FFFF_FFFF_FFFF ==> saturated(count) == 0xFFFF_FFFF_FFFF_FFFF,
{
}

/// The opener of the newest message's block is the last of the openers.
proof fn lemma_last_opener(messages: Seq<UnifiedMessage>, openers: Seq<int>, k: int) -> (b: int)
    requires
        opens_blocks(messages, openers),
        0 <= k < dated_times(messages).len(),
    ensures
        0 <= b < openers.len(),
        openers[b] == dated_times(messages)[block_start(dated_times(messages), k)],
        k == dated_times(messages).len() - 1 ==> b == openers.len() - 1,
    decreases k,
{
    let order = time_order(messages, 1);
    let at = dated_times(messages);
    law_time_order_is_time_order(messages, 1);
    lemma_dated_times(messages, 1);
    law_message_lies_in_its_block(at, k);
    let b = if k == 0 {
        let j = lemma_opener_is_listed(messages, openers, 0);
        assert(at[0] == messages[order[0]].timestamp);
        assert(at[0] <= at[j]);
        0
    } else {
        let before = lemma_last_opener(messages, openers, k - 1);
        law_message_lies_in_its_block(at, k - 1);
        if block_start(at, k) == k {
            assert(at[k] == messages[order[k]].timestamp);
            assert(at[k] >= five_hours_on(openers[before]));
            assert(before < openers.len() - 1);
            let j = lemma_opener_is_listed(messages, openers, before + 1);
            assert(openers[before + 1] >= five_hours_on(openers[before]));
            if j < k {
                assert(at[j] <= at[k - 1]);
            }
            assert(at[k] <= at[j]);
            before + 1
        } else {
            before
        }
    };
    if k == at.len() - 1 && b < openers.len() - 1 {
        let j = lemma_opener_is_listed(messages, openers, b + 1);
        assert(openers[b + 1] >= five_hours_on(openers[b]));
        assert(at[j] <= at[k]);
    }
    b
}

/// Every opener is the time of a dated message.
proof fn lemma_opener_is_listed(messages: Seq<UnifiedMessage>, openers: Seq<int>, b: int) -> (j: int)
    requires
        opens_blocks(messages, openers),
        0 <= b < openers.len(),
    ensures
        0 <= j < dated_times(messages).len(),
        dated_times(messages)[j] == openers[b],
    decreases b,
{
    let order = time_order(messages, 1);
    law_time_order_is_time_order(messages, 1);
    assert(is_sent_at(messages, openers[b]));
    let p = choose|p: int|
        0 <= p < messages.len() && (#[trigger] messages[p]).timestamp == openers[b];
    if b > 0 {
        let i = lemma_opener_is_listed(messages, openers, b - 1);
        lemma_dated_times(messages, 1);
        assert(openers[b] >= five_hours_on(openers[b - 1]));
    }
    assert(order.contains(p));
    let j = choose|j: int| 0 <= j < order.len() && order[j] == p;
    assert(dated_times(messages)[j] == messages[order[j]].timestamp);
    j
}

/// The usage is there exactly until five hours have passed since the full hour in which
/// the last block was opened; it lists every message sent since then, and counts their
/// tokens together as far as a `u64` can hold them.
pub open spec fn is_usage_of(
    messages: Seq<UnifiedMessage>,
    openers: Seq<int>,
    now_ms: int,
    usage: Option<LocalActiveUsage>,
) -> bool {
    &&& usage is Some <==> now_ms < five_hours_on(openers.last())
    &&& usage matches Some(usage) ==> {
        let together = counted_together(messages, usage.messages@);
        &&& lists_by_age(messages, openers.last(), usage.messages@)
        &&& together <= 0xFFFF_FFFF_FFFF_FFFF ==> usage.input_output_tokens == together
        &&& together > 0xFFFF_FFFF_FFFF_FFFF ==> usage.input_output_tokens
            == 0xFFFF_FFFF_FFFF_FFFF
    }
}

/// The usage is that of the newest block. It is given exactly until five hours have
/// passed since the full hour in which that block was opened, however long ago its
/// messages were sent; it lists every message sent since the block was opened, and
/// counts their input and output tokens.
pub proof fn law_usage_of_the_newest_block(
    messages: Seq<UnifiedMessage>,
    openers: Seq<int>,
    now_ms: int,
    usage: Option<LocalActiveUsage>,
)
    requires
        opens_blocks(messages, openers),
        usage_view(usage) == active_usage(messages, now_ms),
    ensures
        is_usage_of(messages, openers, now_ms, usage),
{
    let at = dated_times(messages);
    let j = lemma_opener_is_listed(messages, openers, 0);
    let b = lemma_last_opener(messages, openers, at.len() - 1);
    law_hours_and_sessions(openers.last(), 0);
    law_block_holds_everything_since_it_opened(messages);
    if let Some(usage) = usage {
        assert(positions(usage.messages@) == time_order(messages, openers.last()));
        lemma_lists_by_age(messages, openers.last(), usage.messages@);
        lemma_counted_together(messages, usage.messages@);
    }
}

/// Without a dated message there is no usage.
pub proof fn law_no_usage_without_dated_messages(
    messages: Seq<UnifiedMessage>,
    now_ms: int,
    usage: Option<LocalActiveUsage>,
)
    requires
        forall|p: int| 0 <= p < messages.len() ==> (#[trigger] messages[p]).timestamp <= 0,
        usage_view(usage) == active_usage(messages, now_ms),
    ensures
        usage is None,
        blocks_fit(messages),
        usage_fits(messages, now_ms),
{
    let order = time_order(messages, 1);
    law_time_order_is_time_order(messages, 1);
    if order.len() > 0 {
        assert(messages[order[0]].timestamp >= 1);
    }
    assert(dated_times(messages).len() == 0);
}

/// The openers among the first `k + 1` times.
spec fn openers_up_to(at: Seq<int>, k: int) -> Seq<int>
    decreases k,
{
    if k <= 0 {
        seq![at[0]]
    } else if block_start(at, k) == k {
        openers_up_to(at, k - 1).push(at[k])
    } else {
        openers_up_to(at, k - 1)
    }
}

/// A time is one of the first `k + 1`.
spec fn stands_up_to(at: Seq<int>, k: int, time: int) -> bool {
    exists|j: int| 0 <= j <= k && #[trigger] at[j] == time
}

proof fn lemma_openers_up_to(at: Seq<int>, k: int)
    requires
        nondecreasing(at),
        0 <= k < at.len(),
    ensures
        ({
            let openers = openers_up_to(at, k);
            &&& openers.len() > 0
            &&& openers[0] == at[0]
            &&& openers.last() == at[block_start(at, k)]
            &&& forall|b: int| 0 <= b < openers.len() ==> stands_up_to(at, k, #[trigger] openers[b])
            &&& forall|b: int, c: int|
                0 <= b < c < openers.len() && c == b + 1 ==> (#[trigger] openers[c])
                    >= five_hours_on(#[trigger] openers[b])
            &&& forall|b: int, c: int, j: int|
                0 <= b < c < openers.len() && c == b + 1 && 0 <= j <= k && (#[trigger] at[j])
                    >= five_hours_on(#[trigger] openers[b]) ==> at[j] >= (#[trigger] openers[c])
        }),
    decreases k,
{
    let openers = openers_up_to(at, k);
    law_message_lies_in_its_block(at, k);
    if k == 0 {
        assert(at[0] == openers[0]);
    } else {
        let before = openers_up_to(at, k - 1);
        lemma_openers_up_to(at, k - 1);
        law_message_lies_in_its_block(at, k - 1);
        assert forall|b: int| 0 <= b < openers.len() implies stands_up_to(at, k, #[trigger] openers[b]) by {
            if b < before.len() {
                assert(openers[b] == before[b]);
                assert(stands_up_to(at, k - 1, before[b]));
                let j = choose|j: int| 0 <= j <= k - 1 && #[trigger] at[j] == before[b];
                assert(at[j] == openers[b]);
            } else {
                assert(at[k] == openers[b]);
            }
        }
        assert forall|b: int, c: int| 0 <= b < c < openers.len() && c == b + 1 implies (
        #[trigger] openers[c]) >= five_hours_on(#[trigger] openers[b]) by {
            if c < before.len() {
                assert(openers[b] == before[b] && openers[c] == before[c]);
            } else {
                assert(openers[b] == before.last());
                law_hours_and_sessions(before.last(), 0);
            }
        }
        assert forall|b: int, c: int, j: int|
            0 <= b < c < openers.len() && c == b + 1 && 0 <= j <= k && (#[trigger] at[j])
                >= five_hours_on(#[trigger] openers[b]) implies at[j] >= (#[trigger] openers[c]) by {
            if c < before.len() {
                assert(openers[b] == before[b] && openers[c] == before[c]);
                if j == k {
                    assert(stands_up_to(at, k - 1, before[c]));
                    let i = choose|i: int| 0 <= i <= k - 1 && #[trigger] at[i] == before[c];
                    assert(at[i] <= at[k]);
                }
            } else {
                assert(openers[b] == before.last());
                law_hours_and_sessions(before.last(), 0);
                if j < k {
                    assert(at[j] <= at[k - 1]);
                }
            }
        }
    }
}

/// The time of a dated message is among the dated times.
proof fn lemma_time_is_listed(messages: Seq<UnifiedMessage>, p: int) -> (j: int)
    requires
        0 <= p < messages.len(),
        messages[p].timestamp > 0,
    ensures
        0 <= j < dated_times(messages).len(),
        dated_times(messages)[j] == messages[p].timestamp,
{
    let order = time_order(messages, 1);
    law_time_order_is_time_order(messages, 1);
    assert(order.contains(p));
    let j = choose|j: int| 0 <= j < order.len() && order[j] == p;
    assert(dated_times(messages)[j] == messages[order[j]].timestamp);
    j
}

/// The openers found among the dated times are times of dated messages.
proof fn lemma_opener_is_sent(messages: Seq<UnifiedMessage>, k: int, b: int)
    requires
        0 <= k < dated_times(messages).len(),
        0 <= b < openers_up_to(dated_times(messages), k).len(),
    ensures
        is_sent_at(messages, openers_up_to(dated_times(messages), k)[b]),
        openers_up_to(dated_times(messages), k)[b] > 0,
{
    let order = time_order(messages, 1);
    let at = dated_times(messages);
    let openers = openers_up_to(at, k);
    law_time_order_is_time_order(messages, 1);
    lemma_dated_times(messages, 1);
    lemma_openers_up_to(at, k);
    assert(stands_up_to(at, k, openers[b]));
    let j = choose|j: int| 0 <= j <= k && #[trigger] at[j] == openers[b];
    assert(at[j] == messages[order[j]].timestamp);
}

/// Wherever a message is dated, there are blocks to speak of.
pub proof fn law_dated_messages_open_blocks(messages: Seq<UnifiedMessage>, p: int) -> (openers: Seq<
    int,
>)
    requires
        0 <= p < messages.len(),
        messages[p].timestamp > 0,
    ensures
        opens_blocks(messages, openers),
{
    let at = dated_times(messages);
    lemma_dated_times(messages, 1);
    let listed = lemma_time_is_listed(messages, p);
    let newest = at.len() - 1;
    let openers = openers_up_to(at, newest);
    lemma_openers_up_to(at, newest);
    law_message_lies_in_its_block(at, newest);
    law_hours_and_sessions(openers.last(), 0);
    lemma_opener_is_sent(messages, newest, 0);
    lemma_opener_is_sent(messages, newest, openers.len() - 1);
    assert forall|b: int| 0 <= b < openers.len() implies is_sent_at(
        messages,
        #[trigger] openers[b],
    ) by {
        lemma_opener_is_sent(messages, newest, b);
    }
    assert forall|q: int| 0 <= q < messages.len() && (#[trigger] messages[q]).timestamp > 0 implies messages[q].timestamp
        >= openers[0] by {
        let j = lemma_time_is_listed(messages, q);
        assert(at[0] <= at[j]);
    }
    assert forall|b: int, c: int, q: int|
        0 <= b < c < openers.len() && c == b + 1 && 0 <= q < messages.len() && (
        #[trigger] messages[q]).timestamp >= five_hours_on(
            #[trigger] openers[b],
        ) implies messages[q].timestamp >= (#[trigger] openers[c]) by {
        lemma_opener_is_sent(messages, newest, b);
        let j = lemma_time_is_listed(messages, q);
        assert(at[j] >= five_hours_on(openers[b]));
    }
    assert forall|q: int| 0 <= q < messages.len() implies (#[trigger] messages[q]).timestamp
        < five_hours_on(openers.last()) by {
        if messages[q].timestamp > 0 {
            let j = lemma_time_is_listed(messages, q);
            assert(at[j] <= at[newest]);
        }
    }
    openers
}

/// A single message is in use until five hours have passed since its full hour, and
/// counts for its own tokens.
pub proof fn law_usage_of_one_message(
    message: UnifiedMessage,
    now_ms: int,
    usage: Option<LocalActiveUsage>,
)
    requires
        message.timestamp > 0,
        usage_view(usage) == active_usage(seq![message], now_ms),
    ensures
        usage is Some <==> now_ms < five_hours_on(message.timestamp as int),
        usage matches Some(usage) ==> usage.input_output_tokens == counted(message)
            && usage.messages@ == seq![0usize],
{
    let messages = seq![message];
    let openers = seq![message.timestamp as int];
    assert(messages[0].timestamp == openers[0]);
    assert(opens_blocks(messages, openers));
    law_usage_of_the_newest_block(messages, openers, now_ms, usage);
    if let Some(usage) = usage {
        let listed = usage.messages@;
        assert(messages[0].timestamp >= openers.last());
        let k = choose|k: int| 0 <= k < listed.len() && #[trigger] listed[k] == 0;
        if listed.len() > 1 {
            assert(listed[0] < 1 && listed[1] < 1);
        }
        assert(listed =~= seq![0usize]);
        let each = listed.map_values(|p: usize| counted(messages[p as int]));
        assert(each =~= seq![counted(message)]);
        assert(each.drop_last() =~= Seq::<int>::empty());
        reveal_with_fuel(Seq::fold_left, 2);
    }
}

/// The earliest time that lies in the last half hour and can be the date of a message.
pub open spec fn half_hour_from(now_ms: int) -> int {
    if now_ms - 1_800_000 > 1 {
        now_ms - 1_800_000
    } else {
        1
    }
}

/// A message counts as recent: it is dated and not older than half an hour.
pub open spec fn in_last_half_hour(message: UnifiedMessage, now_ms: int) -> bool {
    message.timestamp > 0 && message.timestamp >= now_ms - 1_800_000
}

/// The burn is there exactly if some message of the last half hour counts for tokens.
/// It lists the messages of that half hour, counts their tokens, and lasts as long as
/// the two of them that lie farthest apart, but never less than a minute.
pub open spec fn is_burn_of(
    messages: Seq<UnifiedMessage>,
    now_ms: int,
    burn: Option<RecentBurn>,
) -> bool {
    &&& burn is Some <==> exists|p: int|
        0 <= p < messages.len() && in_last_half_hour(#[trigger] messages[p], now_ms) && counted(
            messages[p],
        ) > 0
    &&& burn matches Some(burn) ==> {
        &&& lists_by_age(messages, half_hour_from(now_ms), burn.messages@)
        &&& burn.tokens == counted_together(messages, burn.messages@)
        &&& burn.duration_ms >= 60_000
        &&& forall|p: int, q: int|
            0 <= p < messages.len() && 0 <= q < messages.len() && in_last_half_hour(
                #[trigger] messages[p],
                now_ms,
            ) && in_last_half_hour(#[trigger] messages[q], now_ms) ==> burn.duration_ms
                >= messages[q].timestamp - messages[p].timestamp
        &&& burn.duration_ms > 60_000 ==> exists|p: int, q: int|
            0 <= p < messages.len() && 0 <= q < messages.len() && in_last_half_hour(
                #[trigger] messages[p],
                now_ms,
            ) && in_last_half_hour(#[trigger] messages[q], now_ms) && burn.duration_ms
                == messages[q].timestamp - messages[p].timestamp
    }
}

/// There is a burn exactly if some message of the last half hour counts for tokens.
/// It lists every message of that half hour, counts their input and output tokens,
/// and lasts as long as any two of them lie apart, but never less than a minute.
pub proof fn law_burn_of_the_last_half_hour(
    messages: Seq<UnifiedMessage>,
    now_ms: int,
    burn: Option<RecentBurn>,
)
    requires
        burn_view(burn) == recent_burn(messages, now_ms),
    ensures
        is_burn_of(messages, now_ms, burn),
{
    let from = recent_from(now_ms);
    let order = recent_order(messages, now_ms);
    let at = times(messages, order);
    law_time_order_is_time_order(messages, from);
    lemma_dated_times(messages, from);
    assert forall|p: int|
        0 <= p < messages.len() && in_last_half_hour(#[trigger] messages[p], now_ms) implies exists|
        k: int,
    | 0 <= k < at.len() && order[k] == p && #[trigger] at[k] == messages[p].timestamp by {
        assert(messages[p].timestamp >= from);
        assert(order.contains(p));
        let k = choose|k: int| 0 <= k < order.len() && order[k] == p;
        assert(at[k] == messages[p].timestamp);
    }
    lemma_some_tokens(messages, order);
    if burn is Some {
        let k = choose|k: int|
            0 <= k < order.len() && messages[#[trigger] order[k]].tokens.input_output() > 0;
        assert(0 <= order[k] < messages.len() && messages[order[k]].timestamp >= from);
        law_tokens_are_input_plus_output(messages[order[k]].tokens);
        assert(in_last_half_hour(messages[order[k]], now_ms) && counted(messages[order[k]]) > 0);
    } else {
        assert forall|p: int|
            0 <= p < messages.len() && in_last_half_hour(#[trigger] messages[p], now_ms) implies counted(
            messages[p],
        ) == 0 by {
            let k = choose|k: int|
                0 <= k < at.len() && order[k] == p && #[trigger] at[k] == messages[p].timestamp;
            assert(messages[order[k]].tokens.input_output() == 0);
            law_tokens_are_input_plus_output(messages[p].tokens);
        }
    }
    if let Some(burn) = burn {
        assert(positions(burn.messages@) == order);
        lemma_lists_by_age(messages, from, burn.messages@);
        lemma_counted_together(messages, burn.messages@);
        let newest = order.len() - 1;
        assert(at[0] == messages[order[0]].timestamp);
        assert(at[newest] == messages[order[newest]].timestamp);
        assert forall|p: int, q: int|
            0 <= p < messages.len() && 0 <= q < messages.len() && in_last_half_hour(
                #[trigger] messages[p],
                now_ms,
            ) && in_last_half_hour(#[trigger] messages[q], now_ms) implies burn.duration_ms
            >= messages[q].timestamp - messages[p].timestamp by {
            let j = choose|j: int|
                0 <= j < at.len() && order[j] == p && #[trigger] at[j] == messages[p].timestamp;
            let k = choose|k: int|
                0 <= k < at.len() && order[k] == q && #[trigger] at[k] == messages[q].timestamp;
            assert(at[0] <= at[j] && at[k] <= at[newest]);
        }
        if burn.duration_ms > 60_000 {
            assert(0 <= order[0] < messages.len() && messages[order[0]].timestamp >= from);
            assert(0 <= order[newest] < messages.len() && messages[order[newest]].timestamp >= from);
            assert(in_last_half_hour(messages[order[0]], now_ms));
            assert(in_last_half_hour(messages[order[newest]], now_ms));
        }
    }
}

/// A total is positive exactly if one of the messages counts for something.
proof fn lemma_some_tokens(messages: Seq<UnifiedMessage>, order: Seq<int>)
    ensures
        total_tokens(messages, order) > 0 <==> exists|k: int|
            0 <= k < order.len() && messages[#[trigger] order[k]].tokens.input_output() > 0,
    decreases order.len(),
{
    if order.len() > 0 {
        let shorter = order.drop_last();
        let last = order.len() - 1;
        lemma_some_tokens(messages, shorter);
        if total_tokens(messages, shorter) > 0 {
            let k = choose|k: int|
                0 <= k < shorter.len() && messages[#[trigger] shorter[k]].tokens.input_output() > 0;
            assert(messages[order[k]].tokens.input_output() > 0);
        }
        if messages[order.last()].tokens.input_output() > 0 {
            assert(messages[order[last]].tokens.input_output() > 0);
        }
        assert forall|k: int|
            0 <= k < order.len() && messages[#[trigger] order[k]].tokens.input_output() > 0 implies total_tokens(
            messages,
            order,
        ) > 0 by {
            if k < last {
                assert(messages[shorter[k]].tokens.input_output() > 0);
            }
        }
    }
}

/// Messages sent within one minute of each other burn over one minute, whatever
/// their number.
pub proof fn law_short_burst_lasts_a_minute(
    messages: Seq<UnifiedMessage>,
    now_ms: int,
    burn: RecentBurn,
)
    requires
        burn_view(Some(burn)) == recent_burn(messages, now_ms),
        forall|p: int, q: int|
            0 <= p < messages.len() && 0 <= q < messages.len() && in_last_half_hour(
                #[trigger] messages[p],
                now_ms,
            ) && in_last_half_hour(#[trigger] messages[q], now_ms) ==> messages[q].timestamp
                - messages[p].timestamp <= 60_000,
    ensures
        burn.duration_ms == 60_000,
{
    law_burn_of_the_last_half_hour(messages, now_ms, Some(burn));
}

/// The last half hour begins within the range of `i64`, and the tokens of its messages,
/// which are listed, stay within that of `u64`.
pub open spec fn half_hour_fits(
    messages: Seq<UnifiedMessage>,
    now_ms: int,
    recent: Seq<usize>,
) -> bool {
    &&& now_ms - 1_800_000 >= -0x8000_0000_0000_0000
    &&& counted_together(messages, recent) <= 0xFFFF_FFFF_FFFF_FFFF
}

/// The burn of a list can be computed exactly if [`half_hour_fits`] says so.
pub proof fn law_burn_fits_exactly(
    messages: Seq<UnifiedMessage>,
    now_ms: int,
    recent: Seq<usize>,
)
    requires
        lists_by_age(messages, half_hour_from(now_ms), recent),
    ensures
        recent_fits(messages, now_ms) <==> half_hour_fits(messages, now_ms, recent),
{
    law_time_order_lists_by_age(messages, recent_from(now_ms), recent);
}

/// The usage of a list can be computed exactly if its newest block ends within the
/// range of `i64` and, while that block is active, the last half hour begins within
/// that range and its tokens stay within that of `u64`.
pub proof fn law_usage_fits_exactly(
    messages: Seq<UnifiedMessage>,
    openers: Seq<int>,
    now_ms: int,
    recent: Seq<usize>,
)
    requires
        opens_blocks(messages, openers),
        lists_by_age(messages, half_hour_from(now_ms), recent),
    ensures
        blocks_fit(messages) <==> five_hours_on(openers.last()) <= 0x7FFF_FFFF_FFFF_FFFF,
        recent_fits(messages, now_ms) <==> half_hour_fits(messages, now_ms, recent),
        usage_fits(messages, now_ms) <==> {
            &&& five_hours_on(openers.last()) <= 0x7FFF_FFFF_FFFF_FFFF
            &&& now_ms < five_hours_on(openers.last()) ==> half_hour_fits(messages, now_ms, recent)
        },
{
    let at = dated_times(messages);
    let j = lemma_opener_is_listed(messages, openers, 0);
    let b = lemma_last_opener(messages, openers, at.len() - 1);
    law_hours_and_sessions(openers.last(), 0);
    law_time_order_lists_by_age(messages, recent_from(now_ms), recent);
    assert(block_end(at, at.len() - 1) == five_hours_on(openers.last()));
}

/// A list of positions is in time order exactly if it is what [`lists_by_age`] says,
/// and its total is that of its messages one by one.
pub proof fn law_time_order_lists_by_age(
    messages: Seq<UnifiedMessage>,
    from: int,
    listed: Seq<usize>,
)
    ensures
        positions(listed) == time_order(messages, from) <==> lists_by_age(messages, from, listed),
        counted_together(messages, listed) == total_tokens(messages, positions(listed)),
{
    lemma_counted_together(messages, listed);
    if positions(listed) == time_order(messages, from) {
        lemma_lists_by_age(messages, from, listed);
    }
    if lists_by_age(messages, from, listed) {
        let order = positions(listed);
        assert forall|k: int| 0 <= k < order.len() implies 0 <= #[trigger] order[k] < messages.len()
            && messages[order[k]].timestamp >= from by {
            assert(order[k] == listed[k]);
        }
        assert forall|p: int|
            0 <= p < messages.len() && (#[trigger] messages[p]).timestamp >= from implies order.contains(
            p,
        ) by {
            let k = choose|k: int| 0 <= k < listed.len() && #[trigger] listed[k] == p;
            assert(order[k] == p);
        }
        assert forall|j: int, k: int| 0 <= j < k < order.len() implies comes_before(
            messages,
            #[trigger] order[j],
            #[trigger] order[k],
        ) by {
            assert(order[j] == listed[j] && order[k] == listed[k]);
        }
        law_time_order_is_unique(messages, from, order);
    }
}

} // verus!
