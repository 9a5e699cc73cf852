//! Local messages and the order in which they were sent.

use vstd::prelude::*;

verus! {

/// The token counts of one message.
#[derive(Debug, Clone, Copy, PartialEq, Eq, Structural)]
pub struct TokenBreakdown {
    pub input: i64,
    pub output: i64,
    pub cache_read: i64,
    pub cache_write: i64,
    pub reasoning: i64,
}

/// What the usage rules read of one local message. Its cost is a floating-point
/// amount that the rules never inspect: wherever a result has to account for
/// costs, it names the messages by their positions instead.
#[derive(Debug, Clone, Copy, PartialEq, Eq, Structural)]
pub struct UnifiedMessage {
    /// When the message was sent, in milliseconds since the Unix epoch.
    pub timestamp: i64,
    pub tokens: TokenBreakdown,
}

impl TokenBreakdown {
    /// Input plus output tokens, held within the range of `i64` and never below
    /// zero. Cache and reasoning tokens do not count.
    pub open spec fn input_output(self) -> nat {
        let sum = self.input + self.output;
        if sum < 0 {
            0
        } else if sum > i64::MAX {
            i64::MAX as nat
        } else {
            sum as nat
        }
    }

    /// Computes [`TokenBreakdown::input_output`].
    pub fn input_output_tokens(&self) -> (tokens: u64)
        ensures
            tokens == self.input_output(),
    {
        match self.input.checked_add(self.output) {
            Some(sum) => if sum > 0 {
                sum as u64
            } else {
                0
            },
            None => if self.input > 0 {
                i64::MAX as u64
            } else {
                0
            },
        }
    }
}

/// Whether message `i` comes before message `j`: it is older, or of the same
/// age and listed first.
pub open spec fn comes_before(messages: Seq<UnifiedMessage>, i: int, j: int) -> bool {
    ||| messages[i].timestamp < messages[j].timestamp
    ||| messages[i].timestamp == messages[j].timestamp && i < j
}

/// `order` lists exactly the positions of the messages sent at `from` or later,
/// oldest first; messages of the same age keep their order.
pub open spec fn is_time_order(
    messages: Seq<UnifiedMessage>,
    from: int,
    order: Seq<int>,
) -> bool {
    &&& forall|k: int|
        0 <= k < order.len() ==> 0 <= #[trigger] order[k] < messages.len()
            && messages[order[k]].timestamp >= from
    &&& forall|i: int|
        0 <= i < messages.len() && (#[trigger] messages[i]).timestamp >= from ==> order.contains(i)
    &&& forall|j: int, k: int|
        0 <= j < k < order.len() ==> comes_before(messages, #[trigger] order[j], #[trigger] order[k])
}

/// Puts position `i` into `order`, after every message that is no younger.
pub open spec fn insert_by_time(messages: Seq<UnifiedMessage>, order: Seq<int>, i: int) -> Seq<int>
    decreases order.len(),
{
    if order.len() == 0 || messages[order.last()].timestamp <= messages[i].timestamp {
        order.push(i)
    } else {
        insert_by_time(messages, order.drop_last(), i).push(order.last())
    }
}

/// The time order of the first `n` messages.
pub open spec fn time_order_of_first(messages: Seq<UnifiedMessage>, from: int, n: nat) -> Seq<int>
    decreases n,
{
    if n == 0 {
        Seq::empty()
    } else {
        let rest = time_order_of_first(messages, from, (n - 1) as nat);
        if messages[n - 1].timestamp >= from {
            insert_by_time(messages, rest, n - 1)
        } else {
            rest
        }
    }
}

/// The positions of the messages sent at `from` or later, oldest first.
pub open spec fn time_order(messages: Seq<UnifiedMessage>, from: int) -> Seq<int> {
    time_order_of_first(messages, from, messages.len())
}

/// The timestamps of the listed messages.
pub open spec fn times(messages: Seq<UnifiedMessage>, order: Seq<int>) -> Seq<int> {
    Seq::new(order.len(), |k: int| messages[order[k]].timestamp as int)
}

/// The input and output tokens of the listed messages together.
pub open spec fn total_tokens(messages: Seq<UnifiedMessage>, order: Seq<int>) -> nat
    decreases order.len(),
{
    if order.len() == 0 {
        0
    } else {
        total_tokens(messages, order.drop_last()) + messages[order.last()].tokens.input_output()
    }
}

/// A list of positions as mathematical integers.
pub open spec fn positions(list: Seq<usize>) -> Seq<int> {
    Seq::new(list.len(), |k: int| list[k] as int)
}

/// Inserting keeps the elements and the order.
proof fn lemma_insert_by_time(messages: Seq<UnifiedMessage>, order: Seq<int>, i: int)
    requires
        forall|k: int| 0 <= k < order.len() ==> #[trigger] order[k] < i,
        forall|j: int, k: int|
            0 <= j < k < order.len() ==> comes_before(messages, #[trigger] order[j], #[trigger] order[k]),
    ensures
        insert_by_time(messages, order, i).len() == order.len() + 1,
        insert_by_time(messages, order, i).contains(i),
        forall|k: int| 0 <= k < order.len() ==> insert_by_time(messages, order, i).contains(#[trigger] order[k]),
        forall|k: int|
            0 <= k < order.len() + 1 ==> (#[trigger] insert_by_time(messages, order, i)[k] == i || order.contains(
                insert_by_time(messages, order, i)[k],
            )),
        forall|j: int, k: int|
            0 <= j < k < order.len() + 1 ==> comes_before(
                messages,
                #[trigger] insert_by_time(messages, order, i)[j],
                #[trigger] insert_by_time(messages, order, i)[k],
            ),
    decreases order.len(),
{
    let result = insert_by_time(messages, order, i);
    if order.len() == 0 || messages[order.last()].timestamp <= messages[i].timestamp {
        assert(result =~= order.push(i));
        assert(result[order.len() as int] == i);
        assert forall|k: int| 0 <= k < order.len() implies result.contains(#[trigger] order[k]) by {
            assert(result[k] == order[k]);
        }
        assert forall|j: int, k: int| 0 <= j < k < result.len() implies comes_before(
            messages,
            #[trigger] result[j],
            #[trigger] result[k],
        ) by {
            if k == order.len() {
                assert(result[j] == order[j]);
                if j < order.len() - 1 {
                    assert(comes_before(messages, order[j], order[order.len() - 1]));
                }
            } else {
                assert(result[j] == order[j] && result[k] == order[k]);
            }
        }
    } else {
        let shorter = order.drop_last();
        let inner = insert_by_time(messages, shorter, i);
        assert forall|k: int| 0 <= k < shorter.len() implies #[trigger] shorter[k] < i by {
            assert(shorter[k] == order[k]);
        }
        lemma_insert_by_time(messages, shorter, i);
        assert(result =~= inner.push(order.last()));
        assert(result.contains(i)) by {
            let p = choose|p: int| 0 <= p < inner.len() && inner[p] == i;
            assert(result[p] == i);
        }
        assert forall|k: int| 0 <= k < order.len() implies result.contains(#[trigger] order[k]) by {
            if k == order.len() - 1 {
                assert(result[order.len() as int] == order[k]);
            } else {
                assert(inner.contains(shorter[k]));
                let p = choose|p: int| 0 <= p < inner.len() && inner[p] == shorter[k];
                assert(result[p] == order[k]);
            }
        }
        assert forall|k: int| 0 <= k < result.len() implies (#[trigger] result[k] == i || order.contains(
            result[k],
        )) by {
            if k < inner.len() {
                assert(result[k] == inner[k]);
                if inner[k] != i {
                    let p = choose|p: int| 0 <= p < shorter.len() && shorter[p] == inner[k];
                    assert(order[p] == result[k]);
                }
            } else {
                assert(order[order.len() - 1] == result[k]);
            }
        }
        assert forall|j: int, k: int| 0 <= j < k < result.len() implies comes_before(
            messages,
            #[trigger] result[j],
            #[trigger] result[k],
        ) by {
            if k == inner.len() {
                assert(result[j] == inner[j]);
                if inner[j] != i {
                    let p = choose|p: int| 0 <= p < shorter.len() && shorter[p] == inner[j];
                    assert(order[p] == inner[j]);
                    assert(comes_before(messages, order[p], order[order.len() - 1]));
                }
            } else {
                assert(result[j] == inner[j] && result[k] == inner[k]);
            }
        }
    }
}

/// [`time_order`] lists what it should, in the right order.
proof fn lemma_time_order_of_first(messages: Seq<UnifiedMessage>, from: int, n: nat)
    requires
        n <= messages.len(),
    ensures
        is_time_order(messages.take(n as int), from, time_order_of_first(messages, from, n)),
    decreases n,
{
    let taken = messages.take(n as int);
    let result = time_order_of_first(messages, from, n);
    if n > 0 {
        let m = (n - 1) as nat;
        let before = messages.take(m as int);
        let rest = time_order_of_first(messages, from, m);
        lemma_time_order_of_first(messages, from, m);
        assert forall|i: int| 0 <= i < m implies #[trigger] taken[i] == before[i] && taken[i]
            == messages[i] by {}
        assert(taken[m as int] == messages[m as int]);
        assert forall|j: int, k: int| 0 <= j < k < rest.len() implies comes_before(
            messages,
            #[trigger] rest[j],
            #[trigger] rest[k],
        ) by {
            assert(comes_before(before, rest[j], rest[k]));
        }
        if messages[m as int].timestamp >= from {
            lemma_insert_by_time(messages, rest, m as int);
            assert forall|k: int| 0 <= k < result.len() implies 0 <= #[trigger] result[k]
                < taken.len() && taken[result[k]].timestamp >= from by {
                if result[k] != m {
                    let p = choose|p: int| 0 <= p < rest.len() && rest[p] == result[k];
                    assert(before[rest[p]].timestamp >= from);
                }
            }
            assert forall|i: int|
                0 <= i < taken.len() && (#[trigger] taken[i]).timestamp >= from implies result.contains(i) by {
                if i < m {
                    assert(before[i].timestamp >= from);
                    let p = choose|p: int| 0 <= p < rest.len() && rest[p] == i;
                    assert(result.contains(rest[p]));
                }
            }
            assert forall|j: int, k: int| 0 <= j < k < result.len() implies comes_before(
                taken,
                #[trigger] result[j],
                #[trigger] result[k],
            ) by {
                assert(comes_before(messages, result[j], result[k]));
            }
        } else {
            assert forall|k: int| 0 <= k < result.len() implies 0 <= #[trigger] result[k]
                < taken.len() && taken[result[k]].timestamp >= from by {
                assert(before[rest[k]].timestamp >= from);
            }
            assert forall|i: int|
                0 <= i < taken.len() && (#[trigger] taken[i]).timestamp >= from implies result.contains(i) by {
                assert(before[i].timestamp >= from);
            }
        }
    }
}

/// [`time_order`] is a time order of the messages.
pub proof fn law_time_order_is_time_order(messages: Seq<UnifiedMessage>, from: int)
    ensures
        is_time_order(messages, from, time_order(messages, from)),
{
    lemma_time_order_of_first(messages, from, messages.len());
    assert(messages.take(messages.len() as int) =~= messages);
}

/// Two time orders of the same messages agree up to `k`.
proof fn lemma_time_orders_agree(
    messages: Seq<UnifiedMessage>,
    from: int,
    a: Seq<int>,
    b: Seq<int>,
    k: int,
)
    requires
        is_time_order(messages, from, a),
        is_time_order(messages, from, b),
        0 <= k <= a.len(),
    ensures
        k <= b.len(),
        forall|j: int| 0 <= j < k ==> #[trigger] a[j] == b[j],
    decreases k,
{
    if k > 0 {
        let last = k - 1;
        lemma_time_orders_agree(messages, from, a, b, last);
        assert(messages[a[last]].timestamp >= from);
        assert(b.contains(a[last]));
        let p = choose|p: int| 0 <= p < b.len() && b[p] == a[last];
        if p < last {
            assert(a[p] == b[p]);
            assert(comes_before(messages, a[p], a[last]));
        }
        if p > last {
            assert(comes_before(messages, b[last], b[p]));
            assert(messages[b[last]].timestamp >= from);
            assert(a.contains(b[last]));
            let q = choose|q: int| 0 <= q < a.len() && a[q] == b[last];
            if q < last {
                assert(a[q] == b[q]);
                assert(comes_before(messages, b[q], b[last]));
            }
            if q > last {
                assert(comes_before(messages, a[last], a[q]));
            }
        }
    }
}

/// There is only one way to list the messages in time order.
pub proof fn law_time_order_is_unique(messages: Seq<UnifiedMessage>, from: int, order: Seq<int>)
    requires
        is_time_order(messages, from, order),
    ensures
        order == time_order(messages, from),
{
    let other = time_order(messages, from);
    law_time_order_is_time_order(messages, from);
    lemma_time_orders_agree(messages, from, order, other, order.len() as int);
    lemma_time_orders_agree(messages, from, other, order, other.len() as int);
    assert(order =~= other);
}

/// `after` is `before` sorted by key, and `origin[k]` is where its entry `k` stood:
/// every entry is kept, and entries with equal keys keep their order.
pub open spec fn is_stable_sort(
    before: Seq<(i64, usize)>,
    after: Seq<(i64, usize)>,
    origin: Seq<int>,
) -> bool {
    &&& after.len() == before.len()
    &&& origin.len() == before.len()
    &&& forall|k: int|
        0 <= k < origin.len() ==> 0 <= #[trigger] origin[k] < before.len() && after[k]
            == before[origin[k]]
    &&& forall|i: int| 0 <= i < before.len() ==> #[trigger] origin.contains(i)
    &&& forall|j: int, k: int|
        0 <= j < k < origin.len() ==> after[j].0 < after[k].0 || (after[j].0 == after[k].0
            && #[trigger] origin[j] < #[trigger] origin[k])
}

/// Calls `<[T]>::sort_by_key` of the standard library with the first component as
/// the key. The contract claims what its documentation promises: the entries are
/// permuted, sorted by key, and entries with equal keys keep their order.
#[verifier::external_body]
fn sort_by_first(entries: &mut Vec<(i64, usize)>)
    ensures
        exists|origin: Seq<int>| is_stable_sort(old(entries)@, final(entries)@, origin),
{
    entries.sort_by_key(|entry| entry.0);
}

/// The positions of the messages sent at `from` or later, oldest first.
pub fn sort_by_time(messages: &[UnifiedMessage], from: i64) -> (order: Vec<usize>)
    ensures
        positions(order@) == time_order(messages@, from as int),
{
    let mut entries: Vec<(i64, usize)> = Vec::new();
    let mut i: usize = 0;
    while i < messages.len()
        invariant
            i <= messages.len(),
            forall|k: int|
                #![trigger entries@[k]]
                0 <= k < entries.len() ==> entries@[k].1 < i && entries@[k].0
                    == messages@[entries@[k].1 as int].timestamp && entries@[k].0 >= from,
            forall|j: int, k: int|
                0 <= j < k < entries.len() ==> (#[trigger] entries@[j]).1 < (#[trigger] entries@[k]).1,
            forall|p: int|
                0 <= p < i && (#[trigger] messages@[p]).timestamp >= from ==> exists|k: int|
                    0 <= k < entries.len() && #[trigger] entries@[k] == (messages@[p].timestamp, p as usize),
        decreases messages.len() - i,
    {
        let timestamp = messages[i].timestamp;
        let ghost before = entries@;
        if timestamp >= from {
            entries.push((timestamp, i));
            assert(entries@[before.len() as int] == (timestamp, i));
        }
        assert forall|p: int|
            0 <= p < i + 1 && (#[trigger] messages@[p]).timestamp >= from implies exists|k: int|
            0 <= k < entries.len() && #[trigger] entries@[k] == (messages@[p].timestamp, p as usize) by {
            if p < i {
                let k = choose|k: int|
                    0 <= k < before.len() && #[trigger] before[k] == (messages@[p].timestamp, p as usize);
                assert(entries@[k] == before[k]);
            }
        }
        i = i + 1;
    }
    let ghost unsorted = entries@;
    sort_by_first(&mut entries);
    let ghost origin = choose|origin: Seq<int>| is_stable_sort(unsorted, entries@, origin);
    let mut order: Vec<usize> = Vec::new();
    let mut k: usize = 0;
    while k < entries.len()
        invariant
            k <= entries.len(),
            order.len() == k,
            forall|j: int| 0 <= j < k ==> #[trigger] order@[j] == entries@[j].1,
        decreases entries.len() - k,
    {
        order.push(entries[k].1);
        k = k + 1;
    }
    proof {
        let listed = positions(order@);
        assert forall|k: int| 0 <= k < listed.len() implies 0 <= #[trigger] listed[k]
            < messages@.len() && messages@[listed[k]].timestamp >= from by {
            assert(entries@[k] == unsorted[origin[k]]);
        }
        assert forall|p: int|
            0 <= p < messages@.len() && (#[trigger] messages@[p]).timestamp >= from implies listed.contains(
            p,
        ) by {
            let u = choose|u: int|
                0 <= u < unsorted.len() && #[trigger] unsorted[u] == (messages@[p].timestamp, p as usize);
            assert(origin.contains(u));
            let v = choose|v: int| 0 <= v < origin.len() && origin[v] == u;
            assert(entries@[v] == unsorted[origin[v]]);
            assert(listed[v] == p);
        }
        assert forall|j: int, k: int| 0 <= j < k < listed.len() implies comes_before(
            messages@,
            #[trigger] listed[j],
            #[trigger] listed[k],
        ) by {
            assert(entries@[j] == unsorted[origin[j]]);
            assert(entries@[k] == unsorted[origin[k]]);
        }
        law_time_order_is_unique(messages@, from as int, listed);
    }
    order
}

} // verus!
