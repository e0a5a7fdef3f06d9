//! Random signal generator: the times at which bells ring during a session.

use crate::random::RandomSource;
use vstd::prelude::*;

verus! {

/// Number of signals in a session: four bells inside it and one at its end.
pub const SIGNAL_COUNT: usize = 5;

/// Smallest minimum interval between two signals, in seconds.
pub const MINIMUM_T_MIN: usize = 30;

/// Largest minimum interval between two signals, in seconds.
pub const MAXIMUM_T_MIN: usize = 60;

/// Shortest active session for which a schedule is generated, in seconds.
pub const MIN_ACTIVE_DURATION: usize = 150;

/// Minimum interval for an active session of `duration` seconds: 30 seconds
/// up to five minutes, two seconds more for every further full minute, and
/// never more than 60 seconds.
pub open spec fn min_interval(duration: int) -> int {
    let extra = if duration > 300 { duration - 300 } else { 0 };
    let widened = 30 + 2 * (extra / 60);
    if widened > 60 { 60 } else { widened }
}

/// Reduces minimum interval for short sessions to keep interval variability.
pub fn t_min_for_duration(session_duration: usize) -> (t_min: usize)
    ensures
        t_min == min_interval(session_duration as int),
        MINIMUM_T_MIN <= t_min <= MAXIMUM_T_MIN,
{
    // Min duration where t_min is minimum
    let min_duration: usize = MINIMUM_T_MIN * 10;
    let extra_duration: usize = if session_duration > min_duration {
        session_duration - min_duration
    } else {
        0
    };
    // Add 2 seconds for every 60 sec of extra duration
    let added_sec: usize = extra_duration / 60 * 2;
    if added_sec > MAXIMUM_T_MIN - MINIMUM_T_MIN {
        MAXIMUM_T_MIN
    } else {
        MINIMUM_T_MIN + added_sec
    }
}

/// Largest interval that the first draw of a session of `duration` seconds may
/// give: twice the mean interval, less the minimum interval.
pub open spec fn max_interval(duration: int) -> int {
    2 * duration / 5 - min_interval(duration)
}

/// Lower end of the band from which the next interval is drawn, when
/// `remaining` seconds are left for `left` signals, the running minimum is
/// `floor` and no interval may exceed `ceiling`. Twice the mean of what is
/// left, less `floor`, is the band's upper end; what it has above `ceiling`
/// moves to the lower end.
pub open spec fn band_low(remaining: int, left: int, floor: int, ceiling: int) -> int {
    let upper = 2 * remaining / left - floor;
    if upper > ceiling { floor + (upper - ceiling) } else { floor }
}

/// Upper end of that band: twice the mean of what is left, less `floor`, cut
/// down to `ceiling`, and never below the band's lower end.
pub open spec fn band_high(remaining: int, left: int, floor: int, ceiling: int) -> int {
    let upper = 2 * remaining / left - floor;
    let cut = if upper > ceiling { ceiling } else { upper };
    let low = band_low(remaining, left, floor, ceiling);
    if cut < low { low } else { cut }
}

/// Twice `total`, divided by `parts` and rounded down.
fn double_mean(total: usize, parts: usize) -> (mean: usize)
    requires
        2 <= parts,
    ensures
        mean == 2 * total / (parts as int),
        mean <= total,
{
    let wide: u128 = 2 * (total as u128) / (parts as u128);
    proof {
        assert(2 * total / (parts as int) <= total) by (nonlinear_arith)
            requires
                2 <= parts,
                0 <= total,
        ;
    }
    wide as usize
}

/// The band from which the next interval is drawn: its lower end, which is
/// the running minimum from then on, and its upper end.
pub fn next_interval_band(
    time_remaining: usize,
    signals_left: usize,
    next_t_min: usize,
    t_max: usize,
) -> (band: (usize, usize))
    requires
        2 <= signals_left,
    ensures
        band.0 == band_low(time_remaining as int, signals_left as int, next_t_min as int, t_max as int),
        band.1 == band_high(
            time_remaining as int,
            signals_left as int,
            next_t_min as int,
            t_max as int,
        ),
        next_t_min <= band.0 <= band.1,
{
    let double_mean: usize = double_mean(time_remaining, signals_left);
    if double_mean < next_t_min {
        return (next_t_min, next_t_min);
    }
    let mut low: usize = next_t_min;
    let mut high: usize = double_mean - next_t_min;
    if high > t_max {
        // Adjust values: what the upper end has above the ceiling goes to the lower end
        low += high - t_max;
        high = t_max;
    }
    if high < low {
        high = low;
    }
    (low, high)
}

/// Sum of the intervals in `intervals`.
pub open spec fn total(intervals: Seq<usize>) -> int
    decreases intervals.len(),
{
    if intervals.len() == 0 {
        0
    } else {
        total(intervals.drop_last()) + intervals.last()
    }
}

/// The running minimum once the intervals in `drawn` have been drawn for a
/// session of `duration` seconds: the minimum interval of the session at the
/// start, and after each draw the lower end of the band it was drawn from.
pub open spec fn floor_after(duration: int, drawn: Seq<usize>) -> int
    decreases drawn.len(),
{
    if drawn.len() == 0 {
        min_interval(duration)
    } else {
        let before = drawn.drop_last();
        band_low(
            duration - total(before),
            SIGNAL_COUNT - before.len(),
            floor_after(duration, before),
            max_interval(duration),
        )
    }
}

/// Lower end of the band from which the interval after those in `drawn` is
/// drawn.
pub open spec fn next_low(duration: int, drawn: Seq<usize>) -> int {
    band_low(
        duration - total(drawn),
        SIGNAL_COUNT - drawn.len(),
        floor_after(duration, drawn),
        max_interval(duration),
    )
}

/// Upper end of the band from which the interval after those in `drawn` is
/// drawn.
pub open spec fn next_high(duration: int, drawn: Seq<usize>) -> int {
    band_high(
        duration - total(drawn),
        SIGNAL_COUNT - drawn.len(),
        floor_after(duration, drawn),
        max_interval(duration),
    )
}

/// Whether the interval at position `k` of `drawn` lies in the band that the
/// intervals before it leave for it.
pub open spec fn in_band(duration: int, drawn: Seq<usize>, k: int) -> bool {
    next_low(duration, drawn.take(k)) <= drawn[k] <= next_high(duration, drawn.take(k))
}

/// Whether every interval of `drawn` lies in the band that the intervals
/// before it leave for it.
pub open spec fn within_bands(duration: int, drawn: Seq<usize>) -> bool {
    forall|k: int| 0 <= k < drawn.len() ==> #[trigger] in_band(duration, drawn, k)
}

/// The limits of a session that has room for its signals: the minimum
/// interval fits five times into the session and is no greater than the
/// largest interval of a first draw, and six of the largest exceed the
/// session.
proof fn lemma_session_limits(duration: int)
    requires
        MIN_ACTIVE_DURATION <= duration,
    ensures
        30 <= min_interval(duration) <= 60,
        5 * min_interval(duration) <= duration,
        min_interval(duration) <= max_interval(duration),
        duration < 6 * max_interval(duration),
{
}

/// One draw keeps room for the signals that follow it: if what remains
/// exceeds the running minimum taken once for each interval still to draw,
/// it does so again after an interval is drawn from the band.
proof fn lemma_draw_keeps_room(duration: int, remaining: int, left: int, floor: int, interval: int)
    requires
        MIN_ACTIVE_DURATION <= duration,
        2 <= left <= 5,
        30 <= floor,
        remaining <= duration,
        remaining - (left - 1) * floor >= 1,
        band_low(remaining, left, floor, max_interval(duration)) <= interval <= band_high(
            remaining,
            left,
            floor,
            max_interval(duration),
        ),
    ensures
        floor <= band_low(remaining, left, floor, max_interval(duration)) <= interval,
        remaining - interval - (left - 2) * band_low(
            remaining,
            left,
            floor,
            max_interval(duration),
        ) >= 1,
{
    lemma_session_limits(duration);
    let ceiling = max_interval(duration);
    let mean = 2 * remaining / left;
    let low = band_low(remaining, left, floor, ceiling);
    if left == 2 {
        assert(mean == 2 * remaining / 2);
        assert((left - 1) * floor == floor) by (nonlinear_arith)
            requires
                left == 2,
        ;
        assert((left - 2) * low == 0) by (nonlinear_arith)
            requires
                left == 2,
        ;
    } else if left == 3 {
        assert(mean == 2 * remaining / 3);
        assert((left - 1) * floor == 2 * floor) by (nonlinear_arith)
            requires
                left == 3,
        ;
        assert((left - 2) * low == low) by (nonlinear_arith)
            requires
                left == 3,
        ;
    } else if left == 4 {
        assert(mean == 2 * remaining / 4);
        assert((left - 1) * floor == 3 * floor) by (nonlinear_arith)
            requires
                left == 4,
        ;
        assert((left - 2) * low == 2 * low) by (nonlinear_arith)
            requires
                left == 4,
        ;
    } else {
        assert(mean == 2 * remaining / 5);
        assert((left - 1) * floor == 4 * floor) by (nonlinear_arith)
            requires
                left == 5,
        ;
        assert((left - 2) * low == 3 * low) by (nonlinear_arith)
            requires
                left == 5,
        ;
    }
}

/// Intervals drawn within their bands leave room for the signals that
/// follow: each is at least the session's minimum interval, the running
/// minimum never falls, and what remains of the session exceeds the running
/// minimum taken once for each interval still to draw. So fewer than five
/// such intervals never fill the session.
pub proof fn lemma_bands_keep_room(duration: int, drawn: Seq<usize>)
    requires
        MIN_ACTIVE_DURATION <= duration,
        drawn.len() < SIGNAL_COUNT,
        within_bands(duration, drawn),
    ensures
        min_interval(duration) <= floor_after(duration, drawn),
        duration - total(drawn) - (SIGNAL_COUNT - drawn.len() - 1) * floor_after(duration, drawn)
            >= 1,
        forall|i: int| 0 <= i < drawn.len() ==> min_interval(duration) <= #[trigger] drawn[i],
        0 <= total(drawn) < duration,
    decreases drawn.len(),
{
    lemma_session_limits(duration);
    let floor = floor_after(duration, drawn);
    if drawn.len() == 0 {
        assert((SIGNAL_COUNT - drawn.len() - 1) * floor == 4 * floor) by (nonlinear_arith)
            requires
                SIGNAL_COUNT - drawn.len() - 1 == 4,
        ;
    } else {
        let before = drawn.drop_last();
        let last = drawn.len() - 1;
        assert forall|k: int| 0 <= k < before.len() implies #[trigger] in_band(
            duration,
            before,
            k,
        ) by {
            assert(in_band(duration, drawn, k));
            assert(before.take(k) =~= drawn.take(k));
        }
        lemma_bands_keep_room(duration, before);
        assert(in_band(duration, drawn, last));
        assert(drawn.take(last) =~= before);
        let left = SIGNAL_COUNT - before.len();
        assert((SIGNAL_COUNT - before.len() - 1) * floor_after(duration, before) == (left - 1)
            * floor_after(duration, before));
        lemma_draw_keeps_room(
            duration,
            duration - total(before),
            left,
            floor_after(duration, before),
            drawn.last() as int,
        );
        assert((SIGNAL_COUNT - drawn.len() - 1) * floor == (left - 2) * floor);
        assert((SIGNAL_COUNT - drawn.len() - 1) * floor >= 0) by (nonlinear_arith)
            requires
                SIGNAL_COUNT - drawn.len() - 1 >= 0,
                floor >= 0,
        ;
        assert forall|i: int| 0 <= i < drawn.len() implies min_interval(duration)
            <= #[trigger] drawn[i] by {
            if i < last {
                assert(before[i] == drawn[i]);
            }
        }
    }
}

/// Draws the intervals between the signals inside a session: one fewer than
/// there are signals, each from the band that the session and the intervals
/// before it leave.
pub fn sample_intervals(active_session_duration: usize, rng: &mut RandomSource) -> (intervals: Vec<
    usize,
>)
    requires
        MIN_ACTIVE_DURATION <= active_session_duration,
    ensures
        intervals@.len() == SIGNAL_COUNT - 1,
        within_bands(active_session_duration as int, intervals@),
        forall|i: int|
            0 <= i < intervals@.len() ==> min_interval(active_session_duration as int)
                <= #[trigger] intervals@[i],
        total(intervals@) < active_session_duration,
        (*old(rng) is Thread) == (*final(rng) is Thread),
{
    proof {
        lemma_session_limits(active_session_duration as int);
    }
    let t_min: usize = t_min_for_duration(active_session_duration);
    let t_max: usize = double_mean(active_session_duration, SIGNAL_COUNT) - t_min;

    let mut signals: Vec<usize> = Vec::new();
    let mut time_remaining: usize = active_session_duration;
    let mut signals_left: usize = SIGNAL_COUNT;
    let mut next_t_min: usize = t_min;
    // Generate random intervals
    while signals.len() < SIGNAL_COUNT - 1
        invariant
            MIN_ACTIVE_DURATION <= active_session_duration,
            t_max == max_interval(active_session_duration as int),
            signals@.len() <= SIGNAL_COUNT - 1,
            signals_left == SIGNAL_COUNT - signals@.len(),
            time_remaining == active_session_duration - total(signals@),
            next_t_min == floor_after(active_session_duration as int, signals@),
            within_bands(active_session_duration as int, signals@),
            (*old(rng) is Thread) == (*rng is Thread),
        decreases SIGNAL_COUNT - signals@.len(),
    {
        let ghost before = signals@;
        let (low, high) = next_interval_band(time_remaining, signals_left, next_t_min, t_max);
        next_t_min = low;
        let interval: usize = rng.gen_range(low, high);
        signals.push(interval);
        proof {
            let duration = active_session_duration as int;
            assert(signals@.drop_last() =~= before);
            assert forall|k: int| 0 <= k < signals@.len() implies #[trigger] in_band(
                duration,
                signals@,
                k,
            ) by {
                if k < before.len() {
                    assert(in_band(duration, before, k));
                    assert(signals@.take(k) =~= before.take(k));
                } else {
                    assert(signals@.take(k) =~= before);
                }
            }
            lemma_bands_keep_room(duration, signals@);
        }
        time_remaining -= interval;
        signals_left = SIGNAL_COUNT - signals.len();
    }
    proof {
        lemma_bands_keep_room(active_session_duration as int, signals@);
    }
    signals
}

/// Taking one interval out of a sequence lowers its sum by that interval.
proof fn lemma_total_remove(intervals: Seq<usize>, i: int)
    requires
        0 <= i < intervals.len(),
    ensures
        total(intervals) == total(intervals.remove(i)) + intervals[i],
    decreases intervals.len(),
{
    let last = intervals.len() - 1;
    if i == last {
        assert(intervals.remove(i) =~= intervals.drop_last());
    } else {
        lemma_total_remove(intervals.drop_last(), i);
        assert(intervals.remove(i).drop_last() =~= intervals.drop_last().remove(i));
    }
}

/// The sum of a sequence of intervals does not depend on their order.
pub proof fn lemma_total_of_reordering(first: Seq<usize>, second: Seq<usize>)
    requires
        first.to_multiset() == second.to_multiset(),
    ensures
        total(first) == total(second),
    decreases first.len(),
{
    first.to_multiset_ensures();
    second.to_multiset_ensures();
    if first.len() > 0 {
        let last = first.len() - 1;
        let x = first[last];
        assert(first.contains(x));
        assert(first.to_multiset().count(x) > 0);
        assert(second.to_multiset().count(x) > 0);
        assert(second.contains(x));
        let i = choose|i: int| 0 <= i < second.len() && second[i] == x;
        assert(first.drop_last() =~= first.remove(last));
        lemma_total_of_reordering(first.drop_last(), second.remove(i));
        lemma_total_remove(second, i);
    }
}

/// Whatever one order of a sequence holds, every other order of it holds.
pub proof fn lemma_reordering_keeps_items(first: Seq<usize>, second: Seq<usize>)
    requires
        first.to_multiset() == second.to_multiset(),
    ensures
        first.len() == second.len(),
        forall|i: int| 0 <= i < second.len() ==> first.contains(#[trigger] second[i]),
{
    first.to_multiset_ensures();
    second.to_multiset_ensures();
    assert forall|i: int| 0 <= i < second.len() implies first.contains(#[trigger] second[i]) by {
        assert(second.contains(second[i]));
        assert(second.to_multiset().count(second[i]) > 0);
        assert(first.to_multiset().count(second[i]) > 0);
        assert(first.contains(second[i]));
    }
}

/// The time of signal `i`, counted from the start of the whole session, when
/// `intervals` are the intervals between the signals inside a session of
/// `duration` seconds that begins after `delay` seconds of silence. The last
/// signal sounds when the session ends; each one before it sounds when the
/// delay and the intervals up to it have passed.
pub open spec fn signal_time(intervals: Seq<usize>, duration: int, delay: int, i: int) -> int {
    if i == SIGNAL_COUNT - 1 {
        duration + delay
    } else {
        delay + total(intervals.take(i + 1))
    }
}

/// Whether `signals` holds the signal times that `intervals` give.
pub open spec fn is_schedule(
    signals: Seq<usize>,
    intervals: Seq<usize>,
    duration: int,
    delay: int,
) -> bool {
    &&& signals.len() == SIGNAL_COUNT
    &&& forall|i: int|
        0 <= i < SIGNAL_COUNT ==> #[trigger] signals[i] == signal_time(
            intervals,
            duration,
            delay,
            i,
        )
}

/// Turns the intervals between the signals inside a session into the times
/// of all its signals: appends the end of the session, applies the delay
/// to the first interval, and adds up the intervals before the last signal.
pub fn signals_from_intervals(
    intervals: Vec<usize>,
    active_session_duration: usize,
    session_delay: usize,
) -> (signals: Vec<usize>)
    requires
        intervals@.len() == SIGNAL_COUNT - 1,
        active_session_duration + session_delay <= usize::MAX,
        session_delay + total(intervals@) <= usize::MAX,
    ensures
        is_schedule(signals@, intervals@, active_session_duration as int, session_delay as int),
        signals@.len() == SIGNAL_COUNT,
        signals@[0] == intervals@[0] + session_delay,
        signals@[SIGNAL_COUNT - 1] == active_session_duration + session_delay,
{
    let ghost gaps = intervals@;
    let ghost delay = session_delay as int;
    let mut signals = intervals;
    proof {
        lemma_prefix_totals(gaps);
    }
    // Add the last signal and apply session_delay
    signals.push(active_session_duration + session_delay);
    proof {
        assert(total(gaps.take(1)) == total(gaps.take(0)) + gaps[0]);
    }
    if session_delay > 0 {
        signals[0] += session_delay;
    }
    // Substitute interval lengths with timestamps
    let mut i: usize = 1;
    while i < signals.len() - 1
        invariant
            1 <= i <= SIGNAL_COUNT - 1,
            signals@.len() == SIGNAL_COUNT,
            gaps.len() == SIGNAL_COUNT - 1,
            delay == session_delay,
            delay + total(gaps) <= usize::MAX,
            signals@[SIGNAL_COUNT - 1] == active_session_duration + session_delay,
            forall|k: int| 0 <= k <= gaps.len() ==> 0 <= #[trigger] total(gaps.take(k)) <= total(gaps),
            forall|k: int|
                0 < k <= gaps.len() ==> #[trigger] total(gaps.take(k)) == total(gaps.take(k - 1))
                    + gaps[k - 1],
            forall|k: int| 0 <= k < i ==> #[trigger] signals@[k] == delay + total(gaps.take(k + 1)),
            forall|k: int| i <= k < SIGNAL_COUNT - 1 ==> #[trigger] signals@[k] == gaps[k],
        decreases SIGNAL_COUNT - i,
    {
        proof {
            assert(total(gaps.take(i + 1)) == total(gaps.take(i as int)) + gaps[i as int]);
        }
        signals[i] = signals[i - 1] + signals[i];
        i += 1;
    }
    proof {
        assert(signals@[0] == session_delay + total(gaps.take(1)));
    }
    signals
}

/// The sums of the prefixes of a sequence of intervals: none is negative,
/// none exceeds the sum of the whole, and each prefix adds its last interval
/// to the prefix before it.
proof fn lemma_prefix_totals(intervals: Seq<usize>)
    ensures
        forall|k: int|
            0 <= k <= intervals.len() ==> 0 <= #[trigger] total(intervals.take(k)) <= total(
                intervals,
            ),
        forall|k: int|
            0 < k <= intervals.len() ==> #[trigger] total(intervals.take(k)) == total(
                intervals.take(k - 1),
            ) + intervals[k - 1],
    decreases intervals.len(),
{
    assert forall|k: int| 0 < k <= intervals.len() implies #[trigger] total(intervals.take(k))
        == total(intervals.take(k - 1)) + intervals[k - 1] by {
        assert(intervals.take(k).drop_last() =~= intervals.take(k - 1));
    }
    assert(intervals.take(intervals.len() as int) =~= intervals);
    if intervals.len() == 0 {
        assert forall|k: int| 0 <= k <= intervals.len() implies 0 <= #[trigger] total(
            intervals.take(k),
        ) <= total(intervals) by {
            assert(intervals.take(k) =~= intervals);
        }
    } else {
        let before = intervals.drop_last();
        lemma_prefix_totals(before);
        assert(before.take(before.len() as int) =~= before);
        assert(0 <= total(before.take(before.len() as int)));
        assert forall|k: int| 0 <= k <= intervals.len() implies 0 <= #[trigger] total(
            intervals.take(k),
        ) <= total(intervals) by {
            if k < intervals.len() {
                assert(intervals.take(k) =~= before.take(k));
                assert(total(before.take(k)) <= total(before));
            } else {
                assert(intervals.take(k) =~= intervals);
            }
        }
    }
}

/// Whether each signal comes later than the one before it.
pub open spec fn is_increasing(signals: Seq<usize>) -> bool {
    forall|i: int, j: int| 0 <= i < j < signals.len() ==> signals[i] < signals[j]
}

/// Whether `signals` is a schedule that the generator may give for a session
/// of `duration` seconds after `delay` seconds of silence: there are
/// intervals, each drawn within its band, and an order of them, of which
/// `signals` holds the signal times.
pub open spec fn is_generated(signals: Seq<usize>, duration: int, delay: int) -> bool {
    exists|drawn: Seq<usize>, shuffled: Seq<usize>|
        {
            &&& drawn.len() == SIGNAL_COUNT - 1
            &&& #[trigger] within_bands(duration, drawn)
            &&& shuffled.to_multiset() == drawn.to_multiset()
            &&& #[trigger] is_schedule(signals, shuffled, duration, delay)
        }
}

/// A schedule is determined by the session and the intervals drawn for it:
/// two schedules of the same intervals, in the same order, for the same
/// session are the same schedule.
pub proof fn lemma_schedule_is_determined(
    first: Seq<usize>,
    second: Seq<usize>,
    intervals: Seq<usize>,
    duration: int,
    delay: int,
)
    requires
        is_schedule(first, intervals, duration, delay),
        is_schedule(second, intervals, duration, delay),
    ensures
        first == second,
{
    assert forall|i: int| 0 <= i < first.len() implies first[i] == second[i] by {
        assert(first[i] == signal_time(intervals, duration, delay, i));
        assert(second[i] == signal_time(intervals, duration, delay, i));
    }
    assert(first =~= second);
}

/// The first signal of a schedule sounds when the delay and the first
/// interval have passed: without a delay, at the first interval itself.
pub proof fn lemma_delay_anchors_first_signal(
    signals: Seq<usize>,
    intervals: Seq<usize>,
    duration: int,
    delay: int,
)
    requires
        intervals.len() == SIGNAL_COUNT - 1,
        is_schedule(signals, intervals, duration, delay),
    ensures
        signals[0] == intervals[0] + delay,
        delay == 0 ==> signals[0] == intervals[0],
{
    lemma_prefix_totals(intervals);
    assert(signals[0] == signal_time(intervals, duration, delay, 0));
    assert(total(intervals.take(1)) == total(intervals.take(0)) + intervals[0]);
}

/// Every schedule that the generator may give has five signals, each later
/// than the one before it, the first after the delay and the last exactly
/// at the end of the session, so that the four before the last lie inside
/// the session.
pub proof fn lemma_generated_schedule(signals: Seq<usize>, duration: int, delay: int)
    requires
        MIN_ACTIVE_DURATION <= duration,
        0 <= delay,
        is_generated(signals, duration, delay),
    ensures
        signals.len() == SIGNAL_COUNT,
        signals[SIGNAL_COUNT - 1] == duration + delay,
        is_increasing(signals),
        delay < signals[0],
        forall|i: int|
            0 <= i < SIGNAL_COUNT - 1 ==> delay < #[trigger] signals[i] < duration + delay,
{
    let (drawn, shuffled) = choose|drawn: Seq<usize>, shuffled: Seq<usize>|
        {
            &&& drawn.len() == SIGNAL_COUNT - 1
            &&& #[trigger] within_bands(duration, drawn)
            &&& shuffled.to_multiset() == drawn.to_multiset()
            &&& #[trigger] is_schedule(signals, shuffled, duration, delay)
        };
    lemma_session_limits(duration);
    lemma_bands_keep_room(duration, drawn);
    lemma_total_of_reordering(drawn, shuffled);
    lemma_reordering_keeps_items(drawn, shuffled);
    lemma_prefix_totals(shuffled);
    assert forall|k: int| 0 <= k < shuffled.len() implies 30 <= #[trigger] shuffled[k] by {
        assert(drawn.contains(shuffled[k]));
    }
    assert(shuffled.take(4) =~= shuffled);
    assert(total(shuffled.take(1)) == total(shuffled.take(0)) + shuffled[0]);
    assert(total(shuffled.take(2)) == total(shuffled.take(1)) + shuffled[1]);
    assert(total(shuffled.take(3)) == total(shuffled.take(2)) + shuffled[2]);
    assert(total(shuffled.take(4)) == total(shuffled.take(3)) + shuffled[3]);
    assert(signals[0] == signal_time(shuffled, duration, delay, 0));
    assert(signals[1] == signal_time(shuffled, duration, delay, 1));
    assert(signals[2] == signal_time(shuffled, duration, delay, 2));
    assert(signals[3] == signal_time(shuffled, duration, delay, 3));
    assert(signals[4] == signal_time(shuffled, duration, delay, 4));
}

/// Whether a schedule can be generated for a session of
/// `active_session_duration` seconds after `session_delay` seconds of
/// silence: the session is long enough for its signals, and its end can be
/// represented.
pub fn can_schedule(active_session_duration: usize, session_delay: usize) -> (ok: bool)
    ensures
        ok == (MIN_ACTIVE_DURATION <= active_session_duration && active_session_duration
            + session_delay <= usize::MAX),
{
    active_session_duration >= MIN_ACTIVE_DURATION && session_delay <= usize::MAX
        - active_session_duration
}

/// Generates random times for signals, drawing from `rng`.
pub fn generate_signals_with(
    active_session_duration: usize,
    session_delay: usize,
    rng: &mut RandomSource,
) -> (signals: Vec<usize>)
    requires
        MIN_ACTIVE_DURATION <= active_session_duration,
        active_session_duration + session_delay <= usize::MAX,
    ensures
        signals@.len() == SIGNAL_COUNT,
        signals@[SIGNAL_COUNT - 1] == active_session_duration + session_delay,
        is_increasing(signals@),
        session_delay < signals@[0],
        is_generated(signals@, active_session_duration as int, session_delay as int),
        (*old(rng) is Thread) == (*final(rng) is Thread),
{
    let mut intervals = sample_intervals(active_session_duration, rng);
    let ghost drawn = intervals@;
    // Shuffle intervals
    rng.shuffle(&mut intervals);
    proof {
        lemma_total_of_reordering(drawn, intervals@);
    }
    let signals = signals_from_intervals(intervals, active_session_duration, session_delay);
    proof {
        assert(within_bands(active_session_duration as int, drawn));
        assert(is_schedule(
            signals@,
            intervals@,
            active_session_duration as int,
            session_delay as int,
        ));
        lemma_generated_schedule(
            signals@,
            active_session_duration as int,
            session_delay as int,
        );
    }
    signals
}

/// Generates random times for signals.
pub fn generate_random_signals(active_session_duration: usize, session_delay: usize) -> (signals:
    Vec<usize>)
    requires
        MIN_ACTIVE_DURATION <= active_session_duration,
        active_session_duration + session_delay <= usize::MAX,
    ensures
        signals@.len() == SIGNAL_COUNT,
        signals@[SIGNAL_COUNT - 1] == active_session_duration + session_delay,
        is_increasing(signals@),
        session_delay < signals@[0],
        is_generated(signals@, active_session_duration as int, session_delay as int),
{
    let mut rng = RandomSource::from_thread();
    generate_signals_with(active_session_duration, session_delay, &mut rng)
}

} // verus!
