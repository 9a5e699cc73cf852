//! What holds of session blocks and recent burns, whatever the messages.

use vstd::arithmetic::mul::{lemma_mul_inequality, lemma_mul_is_distributive_add_other_way};
use vstd::multiset::Multiset;
use vstd::prelude::*;
use vstd::relations::sorted_by;
use vstd::seq_lib::{lemma_fold_left_permutation, lemma_sorted_unique};

use crate::messages::{
    comes_before, insert_by_time, law_time_order_is_time_order, law_time_order_is_unique,
    time_order, time_order_of_first, times, total_tokens, UnifiedMessage,
};
use crate::session::{
    active_usage, block_start, blocks_fit, dated_times, hour_floor, law_message_lies_in_its_block,
    lemma_dated_times, nondecreasing, recent_burn, recent_fits, recent_from,
    recent_order, session_end, usage_fits, RecentBurnView, CLAUDE_SESSION_WINDOW_MS, HOUR_MS,
    RECENT_WINDOW_MS,
};

verus! {

/// Rounding down to the hour twice is the same as rounding once.
pub proof fn law_hour_floor_is_idempotent(timestamp_ms: int)
    ensures
        hour_floor(hour_floor(timestamp_ms)) == hour_floor(timestamp_ms),
{
}

/// Listed messages with the same tokens have the same total.
proof fn lemma_same_total(a: Seq<UnifiedMessage>, b: Seq<UnifiedMessage>, order: Seq<int>)
    requires
        forall|k: int|
            0 <= k < order.len() ==> a[#[trigger] order[k]].tokens.input_output()
                == b[order[k]].tokens.input_output(),
    ensures
        total_tokens(a, order) == total_tokens(b, order),
    decreases order.len(),
{
    if order.len() > 0 {
        assert forall|k: int| 0 <= k < order.drop_last().len() implies a[#[trigger] order.drop_last()[k]].tokens.input_output()
            == b[order.drop_last()[k]].tokens.input_output() by {
            assert(order.drop_last()[k] == order[k]);
        }
        lemma_same_total(a, b, order.drop_last());
        assert(order.last() == order[order.len() - 1]);
    }
}

/// Messages that agree from `from` on have the same time order and totals.
proof fn lemma_same_order(a: Seq<UnifiedMessage>, b: Seq<UnifiedMessage>, from: int)
    requires
        a.len() == b.len(),
        forall|i: int|
            0 <= i < a.len() ==> {
                ||| (#[trigger] a[i]).timestamp < from && b[i].timestamp < from
                ||| a[i].timestamp == b[i].timestamp && a[i].tokens.input_output()
                    == b[i].tokens.input_output()
            },
    ensures
        time_order(a, from) == time_order(b, from),
        times(a, time_order(a, from)) == times(b, time_order(a, from)),
        total_tokens(a, time_order(a, from)) == total_tokens(b, time_order(a, from)),
        forall|s: int|
            0 <= s <= time_order(a, from).len() ==> #[trigger] total_tokens(
                a,
                time_order(a, from).skip(s),
            ) == total_tokens(b, time_order(a, from).skip(s)),
{
    let order = time_order(a, from);
    law_time_order_is_time_order(a, from);
    assert forall|k: int| 0 <= k < order.len() implies 0 <= #[trigger] order[k] < b.len()
        && b[order[k]].timestamp >= from && a[order[k]].timestamp == b[order[k]].timestamp
        && a[order[k]].tokens.input_output() == b[order[k]].tokens.input_output() by {
        assert(a[order[k]].timestamp >= from);
    }
    assert forall|i: int| 0 <= i < b.len() && (#[trigger] b[i]).timestamp >= from implies order.contains(
        i,
    ) by {
        assert(a[i].timestamp >= from);
    }
    assert forall|j: int, k: int| 0 <= j < k < order.len() implies comes_before(
        b,
        #[trigger] order[j],
        #[trigger] order[k],
    ) by {
        assert(comes_before(a, order[j], order[k]));
    }
    law_time_order_is_unique(b, from, order);
    assert(times(a, order) =~= times(b, order));
    lemma_same_total(a, b, order);
    assert forall|s: int| 0 <= s <= order.len() implies #[trigger] total_tokens(a, order.skip(s))
        == total_tokens(b, order.skip(s)) by {
        let rest = order.skip(s);
        assert forall|k: int| 0 <= k < rest.len() implies a[#[trigger] rest[k]].tokens.input_output()
            == b[rest[k]].tokens.input_output() by {
            assert(rest[k] == order[k + s]);
        }
        lemma_same_total(a, b, rest);
    }
}

/// Cache and reasoning tokens never count: messages that agree on their times and
/// on their input and output tokens have the same usage and the same burn.
pub proof fn law_only_input_and_output_count(
    a: Seq<UnifiedMessage>,
    b: Seq<UnifiedMessage>,
    now_ms: int,
)
    requires
        a.len() == b.len(),
        forall|i: int|
            0 <= i < a.len() ==> {
                &&& (#[trigger] a[i]).timestamp == b[i].timestamp
                &&& a[i].tokens.input == b[i].tokens.input
                &&& a[i].tokens.output == b[i].tokens.output
            },
    ensures
        active_usage(a, now_ms) == active_usage(b, now_ms),
        recent_burn(a, now_ms) == recent_burn(b, now_ms),
{
    lemma_same_order(a, b, 1);
    let at = dated_times(a);
    if at.len() > 0 {
        lemma_dated_times(a, 1);
        law_message_lies_in_its_block(at, at.len() - 1);
    }
    lemma_same_order(a, b, recent_from(now_ms));
    let order = recent_order(a, now_ms);
    law_time_order_is_time_order(a, recent_from(now_ms));
    if order.len() > 0 {
        assert(order.first() == order[0] && order.last() == order[order.len() - 1]);
        assert(a[order[0]].timestamp == b[order[0]].timestamp);
        assert(a[order[order.len() - 1]].timestamp == b[order[order.len() - 1]].timestamp);
    }
}

/// Only the last half hour counts towards the recent burn: whatever was sent
/// before it, or has no date, may be replaced by anything else that was.
pub proof fn law_burn_ignores_older_messages(
    a: Seq<UnifiedMessage>,
    b: Seq<UnifiedMessage>,
    now_ms: int,
)
    requires
        a.len() == b.len(),
        forall|i: int|
            0 <= i < a.len() ==> {
                ||| #[trigger] a[i] == b[i]
                ||| a[i].timestamp < recent_from(now_ms) && b[i].timestamp < recent_from(now_ms)
            },
    ensures
        recent_burn(a, now_ms) == recent_burn(b, now_ms),
{
    lemma_same_order(a, b, recent_from(now_ms));
    let order = recent_order(a, now_ms);
    law_time_order_is_time_order(a, recent_from(now_ms));
    if order.len() > 0 {
        assert(order.first() == order[0] && order.last() == order[order.len() - 1]);
        assert(a[order[0]] == b[order[0]]);
        assert(a[order[order.len() - 1]] == b[order[order.len() - 1]]);
    }
}

/// A user who sent nothing in the last half hour has no burn rate.
pub proof fn law_idle_user_has_no_burn(messages: Seq<UnifiedMessage>, now_ms: int)
    requires
        forall|i: int|
            0 <= i < messages.len() ==> (#[trigger] messages[i]).timestamp < recent_from(now_ms),
    ensures
        recent_burn(messages, now_ms) is None,
{
    let order = recent_order(messages, now_ms);
    law_time_order_is_time_order(messages, recent_from(now_ms));
    if order.len() > 0 {
        assert(messages[order[0]].timestamp >= recent_from(now_ms));
    }
}

/// A block has ended once a whole session has passed since every message.
pub proof fn law_usage_expires(messages: Seq<UnifiedMessage>, now_ms: int)
    requires
        forall|i: int|
            0 <= i < messages.len() ==> (#[trigger] messages[i]).timestamp
                + CLAUDE_SESSION_WINDOW_MS <= now_ms,
    ensures
        active_usage(messages, now_ms) is None,
{
    let order = time_order(messages, 1);
    let at = dated_times(messages);
    if order.len() > 0 {
        lemma_dated_times(messages, 1);
        law_message_lies_in_its_block(at, at.len() - 1);
        law_time_order_is_time_order(messages, 1);
        let first = order[block_start(at, at.len() - 1)];
        assert(messages[first].timestamp + CLAUDE_SESSION_WINDOW_MS <= now_ms);
    }
}

/// A block lasts at most a whole session after the message that opened it, and less
/// than an hour short of that.
pub proof fn law_block_lasts_most_of_a_session(first_ms: int)
    ensures
        first_ms + CLAUDE_SESSION_WINDOW_MS - HOUR_MS < session_end(first_ms) <= first_ms
            + CLAUDE_SESSION_WINDOW_MS,
{
}

/// As time passes, the usage of the same messages stays as it is until the block
/// ends, and never comes back after that.
pub proof fn law_usage_is_constant_until_it_expires(
    messages: Seq<UnifiedMessage>,
    now_ms: int,
    later_ms: int,
)
    requires
        now_ms <= later_ms,
    ensures
        active_usage(messages, later_ms) is Some ==> active_usage(messages, later_ms)
            == active_usage(messages, now_ms),
{
}

/// A message that is not older than `now_ms` belongs to an active block.
pub proof fn law_fresh_message_is_active(messages: Seq<UnifiedMessage>, i: int, now_ms: int)
    requires
        0 <= i < messages.len(),
        messages[i].timestamp > 0,
        messages[i].timestamp >= now_ms,
    ensures
        active_usage(messages, now_ms) is Some,
{
    let order = time_order(messages, 1);
    let at = dated_times(messages);
    law_time_order_is_time_order(messages, 1);
    lemma_dated_times(messages, 1);
    assert(order.contains(i));
    let k = choose|k: int| 0 <= k < order.len() && order[k] == i;
    assert(at[k] == messages[i].timestamp);
    assert(at[k] <= at[at.len() - 1]);
    law_message_lies_in_its_block(at, at.len() - 1);
}

/// The message that opens a block is younger than all messages before it.
proof fn lemma_block_opens_later(at: Seq<int>, k: int)
    requires
        nondecreasing(at),
        0 <= k < at.len(),
        block_start(at, k) > 0,
    ensures
        0 < block_start(at, k) <= k,
        block_start(at, block_start(at, k)) == block_start(at, k),
        at[block_start(at, k) - 1] < at[block_start(at, k)],
    decreases k,
{
    law_message_lies_in_its_block(at, k);
    if block_start(at, k) == k {
        law_message_lies_in_its_block(at, k - 1);
    } else {
        lemma_block_opens_later(at, k - 1);
    }
}

/// The newest block holds every message sent since it was opened, and nothing
/// else.
pub proof fn law_block_holds_everything_since_it_opened(messages: Seq<UnifiedMessage>)
    requires
        dated_times(messages).len() > 0,
    ensures
        ({
            let at = dated_times(messages);
            let start = block_start(at, at.len() - 1);
            time_order(messages, 1).skip(start) == time_order(messages, at[start])
        }),
{
    let order = time_order(messages, 1);
    let at = dated_times(messages);
    let start = block_start(at, at.len() - 1);
    law_time_order_is_time_order(messages, 1);
    lemma_dated_times(messages, 1);
    law_message_lies_in_its_block(at, at.len() - 1);
    let rest = order.skip(start);
    assert forall|k: int| 0 <= k < rest.len() implies 0 <= #[trigger] rest[k] < messages.len()
        && messages[rest[k]].timestamp >= at[start] by {
        assert(rest[k] == order[k + start]);
        assert(at[start] <= at[k + start]);
    }
    assert forall|i: int|
        0 <= i < messages.len() && (#[trigger] messages[i]).timestamp >= at[start] implies rest.contains(i) by {
        assert(at[start] >= 1);
        assert(order.contains(i));
        let p = choose|p: int| 0 <= p < order.len() && order[p] == i;
        assert(at[p] == messages[i].timestamp);
        if p < start {
            lemma_block_opens_later(at, at.len() - 1);
            assert(at[p] <= at[start - 1]);
        }
        assert(rest[p - start] == i);
    }
    assert forall|j: int, k: int| 0 <= j < k < rest.len() implies comes_before(
        messages,
        #[trigger] rest[j],
        #[trigger] rest[k],
    ) by {
        assert(comes_before(messages, order[j + start], order[k + start]));
    }
    law_time_order_is_unique(messages, at[start], rest);
}

/// Adds a message to the tokens and times found so far, if it is from `from` on.
spec fn collect(from: int) -> spec_fn((nat, Multiset<int>), UnifiedMessage) -> (nat, Multiset<int>) {
    |found: (nat, Multiset<int>), message: UnifiedMessage|
        if message.timestamp >= from {
            (found.0 + message.tokens.input_output(), found.1.insert(message.timestamp as int))
        } else {
            found
        }
}

/// Inserting adds one time and the tokens of one message.
proof fn lemma_insert_collects(messages: Seq<UnifiedMessage>, order: Seq<int>, i: int)
    ensures
        times(messages, insert_by_time(messages, order, i)).to_multiset() == times(
            messages,
            order,
        ).to_multiset().insert(messages[i].timestamp as int),
        total_tokens(messages, insert_by_time(messages, order, i)) == total_tokens(messages, order)
            + messages[i].tokens.input_output(),
    decreases order.len(),
{
    broadcast use vstd::seq_lib::group_to_multiset_ensures;

    let result = insert_by_time(messages, order, i);
    if order.len() == 0 || messages[order.last()].timestamp <= messages[i].timestamp {
        assert(result.drop_last() =~= order);
        assert(times(messages, result) =~= times(messages, order).push(
            messages[i].timestamp as int,
        ));
    } else {
        let shorter = order.drop_last();
        let inner = insert_by_time(messages, shorter, i);
        let last = messages[order.last()].timestamp as int;
        lemma_insert_collects(messages, shorter, i);
        assert(result.drop_last() =~= inner);
        assert(times(messages, result) =~= times(messages, inner).push(last));
        assert(times(messages, order) =~= times(messages, shorter).push(last));
        assert(times(messages, shorter).to_multiset().insert(messages[i].timestamp as int).insert(last)
            =~= times(messages, shorter).to_multiset().insert(last).insert(
            messages[i].timestamp as int,
        ));
    }
}

/// The time order collects the tokens and times of the messages, in any order.
proof fn lemma_order_collects(messages: Seq<UnifiedMessage>, from: int, n: nat)
    requires
        n <= messages.len(),
    ensures
        messages.take(n as int).fold_left((0nat, Multiset::<int>::empty()), collect(from)) == (
            total_tokens(messages, time_order_of_first(messages, from, n)),
            times(messages, time_order_of_first(messages, from, n)).to_multiset(),
        ),
    decreases n,
{
    broadcast use vstd::seq_lib::group_to_multiset_ensures;

    let taken = messages.take(n as int);
    if n == 0 {
        assert(times(messages, Seq::<int>::empty()) =~= Seq::<int>::empty());
        assert(Seq::<int>::empty().to_multiset() =~= Multiset::<int>::empty());
    } else {
        let m = (n - 1) as nat;
        lemma_order_collects(messages, from, m);
        assert(taken.drop_last() =~= messages.take(m as int));
        lemma_insert_collects(messages, time_order_of_first(messages, from, m), m as int);
    }
}

/// Whether a message was sent at `from` or later.
pub open spec fn sent_since(from: int) -> spec_fn(UnifiedMessage) -> bool {
    |message: UnifiedMessage| message.timestamp >= from
}

/// Only messages from `from` on are collected.
proof fn lemma_earlier_messages_are_skipped(messages: Seq<UnifiedMessage>, earlier: int, from: int)
    requires
        earlier <= from,
    ensures
        messages.filter(sent_since(earlier)).fold_left(
            (0nat, Multiset::<int>::empty()),
            collect(from),
        ) == messages.fold_left((0nat, Multiset::<int>::empty()), collect(from)),
    decreases messages.len(),
{
    reveal(Seq::filter);
    if messages.len() > 0 {
        let shorter = messages.drop_last();
        lemma_earlier_messages_are_skipped(shorter, earlier, from);
        let kept = shorter.filter(sent_since(earlier));
        assert(kept.push(messages.last()).drop_last() =~= kept);
    }
}

/// The same messages from `earlier` on, in any order, give the same times and the
/// same total from any later time on.
proof fn lemma_same_messages(
    a: Seq<UnifiedMessage>,
    b: Seq<UnifiedMessage>,
    earlier: int,
    from: int,
)
    requires
        earlier <= from,
        a.filter(sent_since(earlier)).to_multiset() == b.filter(sent_since(earlier)).to_multiset(),
    ensures
        times(a, time_order(a, from)) == times(b, time_order(b, from)),
        total_tokens(a, time_order(a, from)) == total_tokens(b, time_order(b, from)),
{
    let f = collect(from);
    let none = (0nat, Multiset::<int>::empty());
    assert forall|x: UnifiedMessage, y: UnifiedMessage, v: (nat, Multiset<int>)| #[trigger]
        f(f(v, x), y) == f(f(v, y), x) by {
        assert(f(f(v, x), y).1 =~= f(f(v, y), x).1);
    }
    lemma_fold_left_permutation(
        a.filter(sent_since(earlier)),
        b.filter(sent_since(earlier)),
        f,
        none,
    );
    lemma_earlier_messages_are_skipped(a, earlier, from);
    lemma_earlier_messages_are_skipped(b, earlier, from);
    lemma_order_collects(a, from, a.len());
    lemma_order_collects(b, from, b.len());
    assert(a.take(a.len() as int) =~= a);
    assert(b.take(b.len() as int) =~= b);
    let leq = |x: int, y: int| x <= y;
    lemma_dated_times(a, from);
    lemma_dated_times(b, from);
    let at = times(a, time_order(a, from));
    let bt = times(b, time_order(b, from));
    assert(sorted_by(at, leq));
    assert(sorted_by(bt, leq));
    lemma_sorted_unique(at, bt, leq);
}

/// Both burns have the same tokens over the same time, or there is none.
pub open spec fn same_rate(a: Option<RecentBurnView>, b: Option<RecentBurnView>) -> bool {
    match (a, b) {
        (Some(a), Some(b)) => a.tokens == b.tokens && a.duration_ms == b.duration_ms,
        (None, None) => true,
        _ => false,
    }
}

/// Only the messages of the last half hour count towards the recent burn, in
/// whatever order they are listed: older and undated ones may be added or dropped.
pub proof fn law_burn_goes_by_recent_messages(
    a: Seq<UnifiedMessage>,
    b: Seq<UnifiedMessage>,
    now_ms: int,
)
    requires
        a.filter(sent_since(recent_from(now_ms))).to_multiset() == b.filter(
            sent_since(recent_from(now_ms)),
        ).to_multiset(),
    ensures
        same_rate(recent_burn(a, now_ms), recent_burn(b, now_ms)),
{
    lemma_same_messages(a, b, recent_from(now_ms), recent_from(now_ms));
    lemma_same_rate(a, b, now_ms);
}

proof fn lemma_same_rate(a: Seq<UnifiedMessage>, b: Seq<UnifiedMessage>, now_ms: int)
    requires
        times(a, recent_order(a, now_ms)) == times(b, recent_order(b, now_ms)),
        total_tokens(a, recent_order(a, now_ms)) == total_tokens(b, recent_order(b, now_ms)),
    ensures
        same_rate(recent_burn(a, now_ms), recent_burn(b, now_ms)),
{
    let ra = recent_order(a, now_ms);
    let rb = recent_order(b, now_ms);
    assert(times(a, ra).len() == ra.len() && times(b, rb).len() == rb.len());
    if ra.len() > 0 {
        assert(times(a, ra)[0] == a[ra.first()].timestamp);
        assert(times(b, rb)[0] == b[rb.first()].timestamp);
        assert(times(a, ra)[ra.len() - 1] == a[ra.last()].timestamp);
        assert(times(b, rb)[rb.len() - 1] == b[rb.last()].timestamp);
    }
}

/// Neither the order in which messages are listed nor undated messages among them
/// matter: the same dated messages have the same tokens in the active block, and the
/// same recent tokens over the same time.
pub proof fn law_listing_order_does_not_matter(
    a: Seq<UnifiedMessage>,
    b: Seq<UnifiedMessage>,
    now_ms: int,
)
    requires
        a.filter(sent_since(1)).to_multiset() == b.filter(sent_since(1)).to_multiset(),
    ensures
        match (active_usage(a, now_ms), active_usage(b, now_ms)) {
            (Some(x), Some(y)) => x.input_output_tokens == y.input_output_tokens,
            (None, None) => true,
            _ => false,
        },
        same_rate(recent_burn(a, now_ms), recent_burn(b, now_ms)),
{
    lemma_same_messages(a, b, 1, 1);
    let at = dated_times(a);
    assert(at == dated_times(b));
    assert(at.len() == time_order(a, 1).len() && at.len() == time_order(b, 1).len());
    if at.len() > 0 {
        law_block_holds_everything_since_it_opened(a);
        law_block_holds_everything_since_it_opened(b);
        let start = block_start(at, at.len() - 1);
        lemma_dated_times(a, 1);
        law_message_lies_in_its_block(at, at.len() - 1);
        lemma_same_messages(a, b, 1, at[start]);
    }
    lemma_same_messages(a, b, 1, recent_from(now_ms));
    lemma_same_rate(a, b, now_ms);
}

/// The messages of a list in which something else, such as a cost, comes with each.
pub open spec fn messages_in<T>(entries: Seq<(UnifiedMessage, T)>) -> Seq<UnifiedMessage> {
    Seq::new(entries.len(), |i: int| entries[i].0)
}

/// The entries at the listed positions.
pub open spec fn entries_at<T>(entries: Seq<(UnifiedMessage, T)>, order: Seq<int>) -> Seq<
    (UnifiedMessage, T),
> {
    Seq::new(order.len(), |k: int| entries[order[k]])
}

/// The entries whose message was sent at `from` or later, in listing order.
pub open spec fn entries_since<T>(entries: Seq<(UnifiedMessage, T)>, from: int) -> Seq<
    (UnifiedMessage, T),
> {
    entries.filter(|entry: (UnifiedMessage, T)| entry.0.timestamp >= from)
}

/// Puts an entry behind every one that is no younger.
spec fn insert_entry<T>(sorted: Seq<(UnifiedMessage, T)>, entry: (UnifiedMessage, T)) -> Seq<
    (UnifiedMessage, T),
>
    decreases sorted.len(),
{
    if sorted.len() == 0 || sorted.last().0.timestamp <= entry.0.timestamp {
        sorted.push(entry)
    } else {
        insert_entry(sorted.drop_last(), entry).push(sorted.last())
    }
}

/// The entries from `from` on, oldest first.
spec fn sorted_entries<T>(entries: Seq<(UnifiedMessage, T)>, from: int) -> Seq<(UnifiedMessage, T)>
    decreases entries.len(),
{
    if entries.len() == 0 {
        Seq::empty()
    } else {
        let rest = sorted_entries(entries.drop_last(), from);
        if entries.last().0.timestamp >= from {
            insert_entry(rest, entries.last())
        } else {
            rest
        }
    }
}

proof fn lemma_insert_entry<T>(entries: Seq<(UnifiedMessage, T)>, order: Seq<int>, i: int)
    requires
        0 <= i < entries.len(),
        forall|k: int| 0 <= k < order.len() ==> 0 <= #[trigger] order[k] < entries.len(),
    ensures
        entries_at(entries, insert_by_time(messages_in(entries), order, i)) == insert_entry(
            entries_at(entries, order),
            entries[i],
        ),
        forall|k: int|
            0 <= k < insert_by_time(messages_in(entries), order, i).len() ==> 0
                <= #[trigger] insert_by_time(messages_in(entries), order, i)[k] < entries.len(),
    decreases order.len(),
{
    let messages = messages_in(entries);
    let result = insert_by_time(messages, order, i);
    let listed = entries_at(entries, order);
    if order.len() > 0 {
        assert(0 <= order[order.len() - 1] < entries.len());
        assert(listed.last() == entries[order.last()]);
    }
    if order.len() == 0 || messages[order.last()].timestamp <= messages[i].timestamp {
        assert(entries_at(entries, result) =~= listed.push(entries[i]));
    } else {
        let shorter = order.drop_last();
        lemma_insert_entry(entries, shorter, i);
        assert(entries_at(entries, shorter) =~= listed.drop_last());
        assert(entries_at(entries, result) =~= entries_at(
            entries,
            insert_by_time(messages, shorter, i),
        ).push(listed.last()));
    }
}

proof fn lemma_order_sorts_entries<T>(entries: Seq<(UnifiedMessage, T)>, from: int, n: nat)
    requires
        n <= entries.len(),
    ensures
        entries_at(entries, time_order_of_first(messages_in(entries), from, n)) == sorted_entries(
            entries.take(n as int),
            from,
        ),
        forall|k: int|
            0 <= k < time_order_of_first(messages_in(entries), from, n).len() ==> 0
                <= #[trigger] time_order_of_first(messages_in(entries), from, n)[k] < entries.len(),
    decreases n,
{
    if n == 0 {
        assert(entries_at(entries, Seq::<int>::empty()) =~= Seq::<(UnifiedMessage, T)>::empty());
    } else {
        let m = (n - 1) as nat;
        lemma_order_sorts_entries(entries, from, m);
        assert(entries.take(n as int).drop_last() =~= entries.take(m as int));
        lemma_insert_entry(entries, time_order_of_first(messages_in(entries), from, m), m as int);
    }
}

proof fn lemma_earlier_entries_are_skipped<T>(
    entries: Seq<(UnifiedMessage, T)>,
    earlier: int,
    from: int,
)
    requires
        earlier <= from,
    ensures
        sorted_entries(entries_since(entries, earlier), from) == sorted_entries(entries, from),
    decreases entries.len(),
{
    reveal(Seq::filter);
    if entries.len() > 0 {
        let shorter = entries.drop_last();
        lemma_earlier_entries_are_skipped(shorter, earlier, from);
        let kept = entries_since(shorter, earlier);
        assert(kept.push(entries.last()).drop_last() =~= kept);
    }
}

/// Lists with the same entries in the same order have the same total.
proof fn lemma_same_entries_total<T>(
    a: Seq<(UnifiedMessage, T)>,
    oa: Seq<int>,
    b: Seq<(UnifiedMessage, T)>,
    ob: Seq<int>,
)
    requires
        forall|k: int| 0 <= k < oa.len() ==> 0 <= #[trigger] oa[k] < a.len(),
        forall|k: int| 0 <= k < ob.len() ==> 0 <= #[trigger] ob[k] < b.len(),
        entries_at(a, oa) == entries_at(b, ob),
    ensures
        times(messages_in(a), oa) == times(messages_in(b), ob),
        total_tokens(messages_in(a), oa) == total_tokens(messages_in(b), ob),
    decreases oa.len(),
{
    assert(oa.len() == entries_at(a, oa).len() && ob.len() == entries_at(b, ob).len());
    assert forall|k: int| 0 <= k < oa.len() implies a[#[trigger] oa[k]] == b[ob[k]] by {
        assert(entries_at(a, oa)[k] == entries_at(b, ob)[k]);
    }
    assert forall|k: int| 0 <= k < oa.len() implies #[trigger] times(messages_in(a), oa)[k]
        == times(messages_in(b), ob)[k] by {
        assert(a[oa[k]] == b[ob[k]]);
        assert(0 <= ob[k] < b.len());
    }
    assert(times(messages_in(a), oa) =~= times(messages_in(b), ob));
    if oa.len() > 0 {
        let last = oa.len() - 1;
        assert(entries_at(a, oa.drop_last()) =~= entries_at(a, oa).drop_last());
        assert(entries_at(b, ob.drop_last()) =~= entries_at(b, ob).drop_last());
        lemma_same_entries_total(a, oa.drop_last(), b, ob.drop_last());
        assert(a[oa[last]] == b[ob[last]] && 0 <= ob[last] < b.len());
    }
}

/// Lists whose entries from `earlier` on agree one by one have the same entries, in
/// the same time order, from any later time on.
proof fn lemma_same_entries<T>(
    a: Seq<(UnifiedMessage, T)>,
    b: Seq<(UnifiedMessage, T)>,
    earlier: int,
    from: int,
)
    requires
        earlier <= from,
        entries_since(a, earlier) == entries_since(b, earlier),
    ensures
        ({
            let oa = time_order(messages_in(a), from);
            let ob = time_order(messages_in(b), from);
            &&& entries_at(a, oa) == entries_at(b, ob)
            &&& times(messages_in(a), oa) == times(messages_in(b), ob)
            &&& total_tokens(messages_in(a), oa) == total_tokens(messages_in(b), ob)
            &&& forall|k: int| 0 <= k < oa.len() ==> 0 <= #[trigger] oa[k] < a.len()
            &&& forall|k: int| 0 <= k < ob.len() ==> 0 <= #[trigger] ob[k] < b.len()
        }),
{
    lemma_order_sorts_entries(a, from, a.len());
    lemma_order_sorts_entries(b, from, b.len());
    lemma_earlier_entries_are_skipped(a, earlier, from);
    lemma_earlier_entries_are_skipped(b, earlier, from);
    assert(a.take(a.len() as int) =~= a);
    assert(b.take(b.len() as int) =~= b);
    lemma_same_entries_total(
        a,
        time_order(messages_in(a), from),
        b,
        time_order(messages_in(b), from),
    );
}

/// Both burns have the same tokens over the same time and list the same entries in
/// the same order, or there is none.
pub open spec fn same_burn<T>(
    a: Seq<(UnifiedMessage, T)>,
    b: Seq<(UnifiedMessage, T)>,
    now_ms: int,
) -> bool {
    match (recent_burn(messages_in(a), now_ms), recent_burn(messages_in(b), now_ms)) {
        (Some(x), Some(y)) => {
            &&& x.tokens == y.tokens
            &&& x.duration_ms == y.duration_ms
            &&& entries_at(a, x.messages) == entries_at(b, y.messages)
        },
        (None, None) => true,
        _ => false,
    }
}

/// The burn lists the recent messages with whatever comes with them, such as their
/// costs: where the recent entries of two lists agree one by one, the burns list the
/// same entries in the same order, whatever older or undated entries stand between
/// them. So their costs add up to the same.
pub proof fn law_burn_lists_the_same_entries<T>(
    a: Seq<(UnifiedMessage, T)>,
    b: Seq<(UnifiedMessage, T)>,
    now_ms: int,
)
    requires
        entries_since(a, recent_from(now_ms)) == entries_since(b, recent_from(now_ms)),
    ensures
        same_burn(a, b, now_ms),
{
    lemma_same_entries(a, b, recent_from(now_ms), recent_from(now_ms));
    lemma_same_rate(messages_in(a), messages_in(b), now_ms);
}

/// Where the dated entries of two lists agree one by one, the active blocks have the
/// same tokens and list the same entries in the same order, and so do the burns.
pub proof fn law_usage_lists_the_same_entries<T>(
    a: Seq<(UnifiedMessage, T)>,
    b: Seq<(UnifiedMessage, T)>,
    now_ms: int,
)
    requires
        entries_since(a, 1) == entries_since(b, 1),
    ensures
        match (active_usage(messages_in(a), now_ms), active_usage(messages_in(b), now_ms)) {
            (Some(x), Some(y)) => {
                &&& x.input_output_tokens == y.input_output_tokens
                &&& entries_at(a, x.messages) == entries_at(b, y.messages)
            },
            (None, None) => true,
            _ => false,
        },
        same_burn(a, b, now_ms),
{
    lemma_same_entries(a, b, 1, recent_from(now_ms));
    lemma_same_rate(messages_in(a), messages_in(b), now_ms);
    lemma_same_entries(a, b, 1, 1);
    let oa = time_order(messages_in(a), 1);
    let ob = time_order(messages_in(b), 1);
    let at = dated_times(messages_in(a));
    assert(at == dated_times(messages_in(b)));
    assert(at.len() == oa.len() && at.len() == ob.len());
    if at.len() > 0 {
        let start = block_start(at, at.len() - 1);
        lemma_dated_times(messages_in(a), 1);
        law_message_lies_in_its_block(at, at.len() - 1);
        assert(entries_at(a, oa.skip(start)) =~= entries_at(a, oa).skip(start));
        assert(entries_at(b, ob.skip(start)) =~= entries_at(b, ob).skip(start));
        lemma_same_entries_total(a, oa.skip(start), b, ob.skip(start));
    }
}

/// A time order is no longer than the list of messages.
proof fn lemma_time_order_len(messages: Seq<UnifiedMessage>, from: int, n: nat)
    requires
        n <= messages.len(),
    ensures
        time_order_of_first(messages, from, n).len() <= n,
    decreases n,
{
    if n > 0 {
        lemma_time_order_len(messages, from, (n - 1) as nat);
        lemma_insert_len(messages, time_order_of_first(messages, from, (n - 1) as nat), n - 1);
    }
}

proof fn lemma_insert_len(messages: Seq<UnifiedMessage>, order: Seq<int>, i: int)
    ensures
        insert_by_time(messages, order, i).len() == order.len() + 1,
    decreases order.len(),
{
    if order.len() > 0 {
        lemma_insert_len(messages, order.drop_last(), i);
    }
}

proof fn lemma_total_tokens_bound(messages: Seq<UnifiedMessage>, order: Seq<int>, most: nat)
    requires
        forall|k: int|
            0 <= k < order.len() ==> messages[#[trigger] order[k]].tokens.input_output() <= most,
    ensures
        total_tokens(messages, order) <= order.len() * most,
    decreases order.len(),
{
    if order.len() > 0 {
        let shorter = order.drop_last();
        assert forall|k: int| 0 <= k < shorter.len() implies messages[#[trigger] shorter[k]].tokens.input_output()
            <= most by {
            assert(shorter[k] == order[k]);
        }
        lemma_total_tokens_bound(messages, shorter, most);
        assert(messages[order[order.len() - 1]].tokens.input_output() <= most);
        lemma_mul_is_distributive_add_other_way(most as int, shorter.len() as int, 1);
    }
}

/// Messages whose session ends within the range of `i64`, and whose tokens together
/// stay within that of `u64`, can be accounted for at any ordinary time.
pub proof fn law_ordinary_messages_fit(messages: Seq<UnifiedMessage>, now_ms: int, most: nat)
    requires
        now_ms - RECENT_WINDOW_MS >= i64::MIN,
        forall|i: int|
            0 <= i < messages.len() ==> (#[trigger] messages[i]).timestamp <= i64::MAX
                - CLAUDE_SESSION_WINDOW_MS && messages[i].tokens.input_output() <= most,
        messages.len() * most <= u64::MAX,
    ensures
        blocks_fit(messages),
        recent_fits(messages, now_ms),
        usage_fits(messages, now_ms),
{
    let order = time_order(messages, 1);
    let at = dated_times(messages);
    if at.len() > 0 {
        law_time_order_is_time_order(messages, 1);
        lemma_dated_times(messages, 1);
        law_message_lies_in_its_block(at, at.len() - 1);
        let opener = order[block_start(at, at.len() - 1)];
        assert(messages[opener].timestamp <= i64::MAX - CLAUDE_SESSION_WINDOW_MS);
    }
    let from = recent_from(now_ms);
    let recent = recent_order(messages, now_ms);
    law_time_order_is_time_order(messages, from);
    assert forall|k: int| 0 <= k < recent.len() implies messages[#[trigger] recent[k]].tokens.input_output()
        <= most by {
        assert(messages[recent[k]].timestamp <= i64::MAX - CLAUDE_SESSION_WINDOW_MS);
    }
    lemma_total_tokens_bound(messages, recent, most);
    lemma_time_order_len(messages, from, messages.len());
    lemma_mul_inequality(recent.len() as int, messages.len() as int, most as int);
}

} // verus!
