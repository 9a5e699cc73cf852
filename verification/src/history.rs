//! The history of utilization percentages, from which the rate of consumption is
//! read without knowing the absolute limit.

use std::collections::VecDeque;

use vstd::prelude::*;

use crate::binary64::Binary64;
use crate::session::{MINUTE_MS, RECENT_WINDOW_MS};

verus! {

/// A sample is taken only this long after the one before it.
pub const MIN_SAMPLE_GAP_MS: i64 = 15_000;

/// The history holds at most this many samples.
pub const MAX_SAMPLES: usize = 120;

/// Both utilization percentages at one time. With each percentage comes the level
/// below which a later one means that its window was reset: twenty points less.
#[derive(Debug, Clone, Copy, PartialEq, Eq, Structural)]
pub struct UtilSample {
    pub timestamp_ms: i64,
    pub five_hour: Binary64,
    pub seven_day: Binary64,
    pub five_hour_reset_below: Binary64,
    pub seven_day_reset_below: Binary64,
}

impl UtilSample {
    /// Whether a window was reset between this sample and a later one.
    pub open spec fn reset_before(self, later: UtilSample) -> bool {
        later.five_hour.lt(self.five_hour_reset_below) || later.seven_day.lt(
            self.seven_day_reset_below,
        )
    }

    /// The percentage of one of the two windows.
    pub open spec fn percentage(self, five_hour: bool) -> Binary64 {
        if five_hour {
            self.five_hour
        } else {
            self.seven_day
        }
    }
}

/// The newest samples, as many as the history holds.
pub open spec fn newest(samples: Seq<UtilSample>) -> Seq<UtilSample> {
    if samples.len() > MAX_SAMPLES {
        samples.skip(samples.len() - MAX_SAMPLES)
    } else {
        samples
    }
}

/// The history after a sample was offered: unchanged if the last sample is too
/// recent, emptied first if a window was reset since, and cut to the newest
/// samples.
pub open spec fn pushed(history: Seq<UtilSample>, sample: UtilSample) -> Seq<UtilSample> {
    if history.len() > 0 && sample.timestamp_ms - history.last().timestamp_ms < MIN_SAMPLE_GAP_MS {
        history
    } else if history.len() > 0 && history.last().reset_before(sample) {
        seq![sample]
    } else {
        newest(history.push(sample))
    }
}

/// A history is bounded, its samples lie apart, and no window was reset between one
/// sample and the next.
pub open spec fn well_formed(history: Seq<UtilSample>) -> bool {
    &&& history.len() <= MAX_SAMPLES
    &&& forall|i: int, j: int|
        0 <= i < j < history.len() ==> (#[trigger] history[i]).timestamp_ms + MIN_SAMPLE_GAP_MS
            <= (#[trigger] history[j]).timestamp_ms
    &&& forall|i: int, j: int|
        0 <= i < j < history.len() && j == i + 1 ==> !(#[trigger] history[i].reset_before(
            history[j],
        ))
}

/// The history after a number of samples were offered, oldest first.
pub open spec fn history_after(samples: Seq<UtilSample>) -> Seq<UtilSample>
    decreases samples.len(),
{
    if samples.len() == 0 {
        Seq::empty()
    } else {
        pushed(history_after(samples.drop_last()), samples.last())
    }
}

/// Offers a sample to the history.
pub fn push_util_sample(history: &mut VecDeque<UtilSample>, sample: UtilSample)
    requires
        old(history)@.len() > 0 ==> i64::MIN <= sample.timestamp_ms
            - old(history)@.last().timestamp_ms <= i64::MAX,
    ensures
        final(history)@ == pushed(old(history)@, sample),
        well_formed(old(history)@) ==> well_formed(final(history)@),
{
    let ghost before = history@;
    proof {
        if well_formed(before) {
            law_push_keeps_history_well_formed(before, sample);
        }
    }
    if history.len() > 0 {
        let last = history[history.len() - 1];
        if sample.timestamp_ms - last.timestamp_ms < MIN_SAMPLE_GAP_MS {
            return;
        }
        if sample.five_hour.is_less_than(&last.five_hour_reset_below)
            || sample.seven_day.is_less_than(&last.seven_day_reset_below) {
            history.clear();
        }
    }
    history.push_back(sample);
    let ghost all = history@;
    assert(all == before.push(sample) || all =~= seq![sample]);
    assert(all.skip(0) =~= all);
    while history.len() > MAX_SAMPLES
        invariant
            history@.len() <= all.len(),
            history@ == all.skip(all.len() - history@.len()),
            all.len() >= MAX_SAMPLES ==> history@.len() >= MAX_SAMPLES,
            all.len() < MAX_SAMPLES ==> history@.len() == all.len(),
        decreases history.len(),
    {
        let _ = history.pop_front();
        assert(history@ =~= all.skip(all.len() - history@.len()));
    }
    assert(history@ =~= newest(all));
    assert(newest(seq![sample]) == seq![sample]);
}

/// Whether a sample is from the last half hour.
pub open spec fn is_recent(now_ms: int) -> spec_fn(UtilSample) -> bool {
    |sample: UtilSample| sample.timestamp_ms >= now_ms - RECENT_WINDOW_MS
}

/// The samples from the last half hour.
pub open spec fn recent_samples(history: Seq<UtilSample>, now_ms: int) -> Seq<UtilSample> {
    history.filter(is_recent(now_ms))
}

/// How a percentage rose over a stretch of time.
#[derive(Debug, Clone, Copy, PartialEq, Eq, Structural)]
pub struct PctRise {
    pub from: Binary64,
    pub to: Binary64,
    pub duration_ms: i64,
}

/// How a percentage rose from the first to the last recent sample: nothing with
/// fewer than two of them or without a rise. The time counted is at least a
/// minute.
pub open spec fn pct_rise(history: Seq<UtilSample>, five_hour: bool, now_ms: int) -> Option<PctRise> {
    let recent = recent_samples(history, now_ms);
    let from = recent.first().percentage(five_hour);
    let to = recent.last().percentage(five_hour);
    let span = recent.last().timestamp_ms - recent.first().timestamp_ms;
    if recent.len() < 2 || to.has_not_risen_from(from) {
        None
    } else {
        Some(
            PctRise {
                from,
                to,
                duration_ms: if span < MINUTE_MS {
                    MINUTE_MS
                } else {
                    span as i64
                },
            },
        )
    }
}

/// The start of the recent window, and the time between the first and the last
/// recent sample, are numbers that an `i64` can hold.
pub open spec fn rise_fits(history: Seq<UtilSample>, five_hour: bool, now_ms: int) -> bool {
    let recent = recent_samples(history, now_ms);
    &&& now_ms - RECENT_WINDOW_MS >= i64::MIN
    &&& pct_rise(history, five_hour, now_ms) is Some ==> i64::MIN <= recent.last().timestamp_ms
        - recent.first().timestamp_ms <= i64::MAX
}

/// How a percentage rose over the last half hour; `None` where [`rise_fits`] fails.
pub fn checked_pct_burn_per_min(
    history: &VecDeque<UtilSample>,
    five_hour: bool,
    now_ms: i64,
) -> (rise: Option<Option<PctRise>>)
    ensures
        rise is Some <==> rise_fits(history@, five_hour, now_ms as int),
        rise matches Some(rise) ==> rise == pct_rise(history@, five_hour, now_ms as int),
{
    let window_start: i64 = match now_ms.checked_sub(RECENT_WINDOW_MS) {
        Some(window_start) => window_start,
        None => {
            return None;
        },
    };
    let mut recent: Vec<UtilSample> = Vec::new();
    let mut i: usize = 0;
    assert(history@.take(0).filter(is_recent(now_ms as int)) =~= Seq::<UtilSample>::empty()) by {
        reveal(Seq::filter);
    }
    while i < history.len()
        invariant
            i <= history.len(),
            window_start == now_ms - RECENT_WINDOW_MS,
            recent@ == history@.take(i as int).filter(is_recent(now_ms as int)),
        decreases history.len() - i,
    {
        let sample = history[i];
        proof {
            reveal(Seq::filter);
            assert(history@.take(i + 1).drop_last() =~= history@.take(i as int));
            assert(history@.take(i + 1).last() == sample);
        }
        if sample.timestamp_ms >= window_start {
            recent.push(sample);
        }
        i = i + 1;
    }
    assert(history@.take(i as int) =~= history@);
    if recent.len() < 2 {
        return Some(None);
    }
    let first = recent[0];
    let last = recent[recent.len() - 1];
    let (from, to) = if five_hour {
        (first.five_hour, last.five_hour)
    } else {
        (first.seven_day, last.seven_day)
    };
    if to.not_risen_from(&from) {
        return Some(None);
    }
    match last.timestamp_ms.checked_sub(first.timestamp_ms) {
        Some(span_ms) => {
            let duration_ms: i64 = if span_ms < MINUTE_MS {
                MINUTE_MS
            } else {
                span_ms
            };
            Some(Some(PctRise { from, to, duration_ms }))
        },
        None => None,
    }
}

/// How a percentage rose over the last half hour.
pub fn compute_pct_burn_per_min(
    history: &VecDeque<UtilSample>,
    five_hour: bool,
    now_ms: i64,
) -> (rise: Option<PctRise>)
    requires
        rise_fits(history@, five_hour, now_ms as int),
    ensures
        rise == pct_rise(history@, five_hour, now_ms as int),
{
    checked_pct_burn_per_min(history, five_hour, now_ms).unwrap()
}

/// Offering a sample keeps a history bounded, its samples apart, and no reset inside
/// it.
pub proof fn law_push_keeps_history_well_formed(history: Seq<UtilSample>, sample: UtilSample)
    requires
        well_formed(history),
    ensures
        well_formed(pushed(history, sample)),
{
    let result = pushed(history, sample);
    if result != history && result != seq![sample] {
        let longer = history.push(sample);
        assert forall|i: int, j: int| 0 <= i < j < longer.len() implies (
        #[trigger] longer[i]).timestamp_ms + MIN_SAMPLE_GAP_MS <= (#[trigger] longer[j]).timestamp_ms by {
            if j == history.len() {
                assert(longer[i] == history[i]);
                assert(history.last() == history[history.len() - 1]);
                if i < history.len() - 1 {
                    assert(history[i].timestamp_ms + MIN_SAMPLE_GAP_MS <= history[history.len()
                        - 1].timestamp_ms);
                }
            } else {
                assert(longer[i] == history[i] && longer[j] == history[j]);
            }
        }
        assert forall|i: int, j: int|
            0 <= i < j < longer.len() && j == i + 1 implies !(#[trigger] longer[i].reset_before(
            longer[j],
        )) by {
            assert(longer[i] == history[i]);
            if j == history.len() {
                assert(history.last() == history[i]);
            } else {
                assert(!history[i].reset_before(history[j]));
            }
        }
        if longer.len() > MAX_SAMPLES {
            let cut = longer.len() - MAX_SAMPLES;
            assert forall|i: int, j: int| 0 <= i < j < result.len() implies (
            #[trigger] result[i]).timestamp_ms + MIN_SAMPLE_GAP_MS <= (#[trigger] result[j]).timestamp_ms by {
                assert(result[i] == longer[i + cut] && result[j] == longer[j + cut]);
            }
            assert forall|i: int, j: int|
                0 <= i < j < result.len() && j == i + 1 implies !(#[trigger] result[i].reset_before(
                result[j],
            )) by {
                assert(result[i] == longer[i + cut] && result[j] == longer[j + cut]);
                assert(!longer[i + cut].reset_before(longer[j + cut]));
            }
        }
    }
}

/// Whatever samples are offered to an empty history, it stays bounded, its samples
/// lie apart, and no two neighbours show a reset.
pub proof fn law_offered_samples_give_well_formed_history(samples: Seq<UtilSample>)
    ensures
        well_formed(history_after(samples)),
    decreases samples.len(),
{
    if samples.len() > 0 {
        law_offered_samples_give_well_formed_history(samples.drop_last());
        law_push_keeps_history_well_formed(history_after(samples.drop_last()), samples.last());
    }
}

/// A sample that is taken is the newest of the history.
pub proof fn law_taken_sample_is_newest(history: Seq<UtilSample>, sample: UtilSample)
    requires
        history.len() > 0 ==> sample.timestamp_ms - history.last().timestamp_ms
            >= MIN_SAMPLE_GAP_MS,
    ensures
        pushed(history, sample).len() > 0,
        pushed(history, sample).last() == sample,
{
}

/// No sample is from the last half hour.
pub open spec fn all_old(samples: Seq<UtilSample>, now_ms: int) -> bool {
    forall|i: int|
        0 <= i < samples.len() ==> (#[trigger] samples[i]).timestamp_ms < now_ms - RECENT_WINDOW_MS
}

proof fn lemma_old_samples_are_left_out(samples: Seq<UtilSample>, now_ms: int)
    requires
        all_old(samples, now_ms),
    ensures
        recent_samples(samples, now_ms) == Seq::<UtilSample>::empty(),
{
    let recent = is_recent(now_ms);
    assert(samples.all(|sample: UtilSample| !recent(sample)));
    samples.lemma_all_neg_filter_empty(recent);
}

/// Samples older than half an hour do not count towards the rate, wherever in the
/// history they stand.
pub proof fn law_rise_ignores_old_samples(
    before: Seq<UtilSample>,
    old_samples: Seq<UtilSample>,
    after: Seq<UtilSample>,
    five_hour: bool,
    now_ms: int,
)
    requires
        all_old(old_samples, now_ms),
    ensures
        pct_rise(before + old_samples + after, five_hour, now_ms) == pct_rise(
            before + after,
            five_hour,
            now_ms,
        ),
{
    let recent = is_recent(now_ms);
    Seq::filter_distributes_over_add(before + old_samples, after, recent);
    Seq::filter_distributes_over_add(before, old_samples, recent);
    Seq::filter_distributes_over_add(before, after, recent);
    lemma_old_samples_are_left_out(old_samples, now_ms);
    assert(recent_samples(before + old_samples + after, now_ms) =~= recent_samples(
        before + after,
        now_ms,
    ));
}

/// The rate goes by the first and the last recent sample alone: whatever stands
/// strictly between them may be replaced by anything else.
pub proof fn law_rise_goes_by_its_ends(
    before: Seq<UtilSample>,
    first: UtilSample,
    a: Seq<UtilSample>,
    b: Seq<UtilSample>,
    last: UtilSample,
    after: Seq<UtilSample>,
    five_hour: bool,
    now_ms: int,
)
    requires
        all_old(before, now_ms),
        is_recent(now_ms)(first),
        is_recent(now_ms)(last),
        all_old(after, now_ms),
    ensures
        pct_rise(before + seq![first] + a + seq![last] + after, five_hour, now_ms) == pct_rise(
            before + seq![first] + b + seq![last] + after,
            five_hour,
            now_ms,
        ),
{
    lemma_recent_ends(before, first, a, last, after, now_ms);
    lemma_recent_ends(before, first, b, last, after, now_ms);
}

proof fn lemma_recent_ends(
    before: Seq<UtilSample>,
    first: UtilSample,
    middle: Seq<UtilSample>,
    last: UtilSample,
    after: Seq<UtilSample>,
    now_ms: int,
)
    requires
        all_old(before, now_ms),
        is_recent(now_ms)(first),
        is_recent(now_ms)(last),
        all_old(after, now_ms),
    ensures
        recent_samples(before + seq![first] + middle + seq![last] + after, now_ms) == seq![first]
            + recent_samples(middle, now_ms) + seq![last],
{
    let recent = is_recent(now_ms);
    Seq::filter_distributes_over_add(before + seq![first] + middle + seq![last], after, recent);
    Seq::filter_distributes_over_add(before + seq![first] + middle, seq![last], recent);
    Seq::filter_distributes_over_add(before + seq![first], middle, recent);
    Seq::filter_distributes_over_add(before, seq![first], recent);
    lemma_old_samples_are_left_out(before, now_ms);
    lemma_old_samples_are_left_out(after, now_ms);
    lemma_recent_sample_is_kept(first, now_ms);
    lemma_recent_sample_is_kept(last, now_ms);
    assert(recent_samples(before + seq![first] + middle + seq![last] + after, now_ms) =~= seq![
        first,
    ] + recent_samples(middle, now_ms) + seq![last]);
}

proof fn lemma_recent_sample_is_kept(sample: UtilSample, now_ms: int)
    requires
        is_recent(now_ms)(sample),
    ensures
        recent_samples(seq![sample], now_ms) == seq![sample],
{
    reveal_with_fuel(Seq::filter, 2);
    assert(seq![sample].drop_last() =~= Seq::<UtilSample>::empty());
    assert(seq![sample].filter(is_recent(now_ms)) =~= seq![sample]);
}

/// One sample gives no rate.
pub proof fn law_single_sample_has_no_rate(sample: UtilSample, five_hour: bool, now_ms: int)
    ensures
        pct_rise(seq![sample], five_hour, now_ms) is None,
{
    seq![sample].lemma_filter_len(is_recent(now_ms));
}

/// After a window was reset, no rate is given until the next sample: the history
/// holds nothing from before the reset.
pub proof fn law_reset_forgets_the_past(
    history: Seq<UtilSample>,
    sample: UtilSample,
    five_hour: bool,
    now_ms: int,
)
    requires
        history.len() > 0,
        sample.timestamp_ms - history.last().timestamp_ms >= MIN_SAMPLE_GAP_MS,
        history.last().reset_before(sample),
    ensures
        pushed(history, sample) == seq![sample],
        pct_rise(pushed(history, sample), five_hour, now_ms) is None,
{
    law_single_sample_has_no_rate(sample, five_hour, now_ms);
}

/// With samples and a clock at or after the Unix epoch, every rate can be computed.
pub proof fn law_ordinary_samples_fit(
    history: Seq<UtilSample>,
    five_hour: bool,
    now_ms: int,
)
    requires
        now_ms >= 0,
        forall|i: int| 0 <= i < history.len() ==> (#[trigger] history[i]).timestamp_ms >= 0,
    ensures
        rise_fits(history, five_hour, now_ms),
{
    let recent = recent_samples(history, now_ms);
    if recent.len() >= 2 {
        lemma_filtered_sample_is_listed(history, is_recent(now_ms), 0);
        lemma_filtered_sample_is_listed(history, is_recent(now_ms), recent.len() - 1);
    }
}

/// What a filter keeps was there before.
proof fn lemma_filtered_sample_is_listed(
    history: Seq<UtilSample>,
    keep: spec_fn(UtilSample) -> bool,
    k: int,
)
    requires
        0 <= k < history.filter(keep).len(),
    ensures
        exists|i: int| 0 <= i < history.len() && #[trigger] history[i] == history.filter(keep)[k],
    decreases history.len(),
{
    reveal(Seq::filter);
    if history.len() > 0 {
        let shorter = history.drop_last();
        if k < shorter.filter(keep).len() {
            lemma_filtered_sample_is_listed(shorter, keep, k);
            let i = choose|i: int|
                0 <= i < shorter.len() && #[trigger] shorter[i] == shorter.filter(keep)[k];
            assert(history[i] == history.filter(keep)[k]);
        } else {
            assert(history[history.len() - 1] == history.filter(keep)[k]);
        }
    }
}

/// What a history is once a sample was offered to it.
pub open spec fn is_history_after(
    history: Seq<UtilSample>,
    sample: UtilSample,
    after: Seq<UtilSample>,
) -> bool {
    let last = history[history.len() - 1];
    let skipped = history.len() > 0 && sample.timestamp_ms - last.timestamp_ms < 15_000;
    let reset = history.len() > 0 && (sample.five_hour.lt(last.five_hour_reset_below)
        || sample.seven_day.lt(last.seven_day_reset_below));
    &&& skipped ==> after == history
    &&& !skipped ==> after.len() > 0 && after[after.len() - 1] == sample
    &&& !skipped && reset ==> after.len() == 1
    &&& !skipped && !reset ==> {
        &&& history.len() < 120 ==> after.len() == history.len() + 1
        &&& history.len() >= 120 ==> after.len() == 120
        &&& forall|back: int|
            1 < back <= after.len() ==> #[trigger] after[after.len() - back]
                == history[history.len() + 1 - back]
    }
}

/// A sample is passed over exactly if less than fifteen seconds have passed since the
/// last one. A drop of a percentage below the level of the last sample empties the
/// history first. Otherwise everything stays, but for the oldest samples beyond a
/// hundred and twenty.
pub proof fn law_offered_sample(history: Seq<UtilSample>, sample: UtilSample)
    ensures
        is_history_after(history, sample, pushed(history, sample)),
{
    let after = pushed(history, sample);
    let longer = history.push(sample);
    assert forall|back: int|
        1 < back <= after.len() && after == newest(longer) implies #[trigger] after[after.len() - back]
        == history[history.len() + 1 - back] by {
        assert(after[after.len() - back] == longer[longer.len() - back]);
    }
}

/// The first and the last sample of the last half hour.
pub open spec fn are_recent_ends(
    history: Seq<UtilSample>,
    now_ms: int,
    first: int,
    last: int,
) -> bool {
    &&& 0 <= first <= last < history.len()
    &&& history[first].timestamp_ms >= now_ms - 1_800_000
    &&& history[last].timestamp_ms >= now_ms - 1_800_000
    &&& forall|i: int|
        0 <= i < history.len() && (#[trigger] history[i]).timestamp_ms >= now_ms - 1_800_000
            ==> first <= i <= last
}

/// No sample is from the last half hour.
pub open spec fn none_is_recent(history: Seq<UtilSample>, now_ms: int) -> bool {
    forall|i: int|
        0 <= i < history.len() ==> (#[trigger] history[i]).timestamp_ms < now_ms - 1_800_000
}

/// The time between two samples is a number that an `i64` can hold.
pub open spec fn lie_within_reach(history: Seq<UtilSample>, first: int, last: int) -> bool {
    -0x8000_0000_0000_0000 <= history[last].timestamp_ms - history[first].timestamp_ms
        <= 0x7FFF_FFFF_FFFF_FFFF
}

/// The rise from one sample to another: none where they are one and the same, or where
/// the later percentage is not the greater. It is counted over the time between them,
/// but never over less than a minute.
pub open spec fn is_rise_between(
    history: Seq<UtilSample>,
    five_hour: bool,
    first: int,
    last: int,
    rise: Option<PctRise>,
) -> bool {
    let from = if five_hour {
        history[first].five_hour
    } else {
        history[first].seven_day
    };
    let to = if five_hour {
        history[last].five_hour
    } else {
        history[last].seven_day
    };
    let apart_ms = history[last].timestamp_ms - history[first].timestamp_ms;
    &&& rise is Some <==> first < last && !to.has_not_risen_from(from)
    &&& rise matches Some(rise) ==> {
        &&& rise.from == from
        &&& rise.to == to
        &&& apart_ms <= 60_000 ==> rise.duration_ms == 60_000
        &&& 60_000 <= apart_ms <= 0x7FFF_FFFF_FFFF_FFFF ==> rise.duration_ms == apart_ms
    }
}

/// The rise of a percentage goes from the first to the last sample of the last half
/// hour, and is counted over the time between them, but never over less than a
/// minute. There is none with fewer than two such samples, or where the later
/// percentage is not the greater.
pub proof fn law_rise_between_first_and_last(
    history: Seq<UtilSample>,
    five_hour: bool,
    now_ms: int,
    first: int,
    last: int,
)
    requires
        are_recent_ends(history, now_ms, first, last),
    ensures
        is_rise_between(
            history,
            five_hour,
            first,
            last,
            pct_rise(history, five_hour, now_ms),
        ),
        rise_fits(history, five_hour, now_ms) <==> now_ms - 1_800_000 >= -0x8000_0000_0000_0000 && (
        pct_rise(history, five_hour, now_ms) is Some ==> lie_within_reach(history, first, last)),
{
    let before = history.take(first);
    let after = history.skip(last + 1);
    assert forall|i: int| 0 <= i < before.len() implies (#[trigger] before[i]).timestamp_ms < now_ms
        - RECENT_WINDOW_MS by {
        assert(before[i] == history[i]);
    }
    assert forall|i: int| 0 <= i < after.len() implies (#[trigger] after[i]).timestamp_ms < now_ms
        - RECENT_WINDOW_MS by {
        assert(after[i] == history[i + last + 1]);
    }
    if first < last {
        let middle = history.subrange(first + 1, last);
        assert(history =~= before + seq![history[first]] + middle + seq![history[last]] + after);
        lemma_recent_ends(before, history[first], middle, history[last], after, now_ms);
    } else {
        let recent = is_recent(now_ms);
        assert(history =~= before + seq![history[first]] + after);
        Seq::filter_distributes_over_add(before + seq![history[first]], after, recent);
        Seq::filter_distributes_over_add(before, seq![history[first]], recent);
        lemma_old_samples_are_left_out(before, now_ms);
        lemma_old_samples_are_left_out(after, now_ms);
        lemma_recent_sample_is_kept(history[first], now_ms);
    }
}

/// Without a sample from the last half hour there is no rise.
pub proof fn law_no_rise_without_recent_samples(
    history: Seq<UtilSample>,
    five_hour: bool,
    now_ms: int,
)
    requires
        none_is_recent(history, now_ms),
    ensures
        pct_rise(history, five_hour, now_ms) is None,
        rise_fits(history, five_hour, now_ms) <==> now_ms - 1_800_000 >= -0x8000_0000_0000_0000,
{
    lemma_old_samples_are_left_out(history, now_ms);
}

} // verus!
