//! Splitting an elapsed interval into runs of equal decay multiplier.
//!
//! The decay itself is exponential and computed in floating point by the engine; what
//! is decided here is over which stretches of time each multiplier applies.
use vstd::prelude::*;
use crate::decay_schedule::{DecayMultiplier, DecaySchedule, MS_PER_HOUR};

verus! {

/// A stretch of `duration_ms` milliseconds over which one multiplier applies.
#[derive(PartialEq, Eq, Structural, Clone, Copy, Debug)]
pub struct DecaySegment {
    pub duration_ms: i64,
    pub multiplier: DecayMultiplier,
}

/// Length of the step from `start` toward `now`: one hour, or what is left of the
/// interval when that is less.
pub open spec fn chunk_len(start: int, now: int) -> int {
    if now - start < MS_PER_HOUR as int {
        now - start
    } else {
        MS_PER_HOUR as int
    }
}

/// Multiplier of the step that starts at `t`.
#[verifier::opaque]
pub open spec fn step_multiplier(s: DecaySchedule, dim: Seq<char>, t: int) -> DecayMultiplier {
    s.spec_multiplier_for(dim, t)
}

/// Length of the run of hourly steps from `start` toward `now` whose multiplier,
/// taken at the start of each step, is `m`.
pub open spec fn run_len(
    s: DecaySchedule,
    dim: Seq<char>,
    start: int,
    now: int,
    m: DecayMultiplier,
) -> int
    decreases now - start,
{
    if start >= now || step_multiplier(s, dim, start) != m {
        0
    } else {
        chunk_len(start, now) + run_len(s, dim, start + chunk_len(start, now), now, m)
    }
}

#[verifier::opaque]
/// The interval from `cursor` to `now`, split into maximal runs of hourly steps
/// that share a multiplier, in order.
pub open spec fn spec_segments(s: DecaySchedule, dim: Seq<char>, cursor: int, now: int) -> Seq<DecaySegment>
    decreases now - cursor,
{
    if cursor >= now {
        Seq::empty()
    } else {
        let m = step_multiplier(s, dim, cursor);
        let len = run_len(s, dim, cursor, now, m);
        proof {
            lemma_run_len_bounds(s, dim, cursor, now, m);
        }
        if len <= 0 {
            Seq::empty()
        } else {
            seq![DecaySegment { duration_ms: len as i64, multiplier: m }]
                + spec_segments(s, dim, cursor + len, now)
        }
    }
}

/// A run is never longer than what is left of the interval, and not empty where its first step has the multiplier.
pub proof fn lemma_run_len_bounds(s: DecaySchedule, dim: Seq<char>, start: int, now: int, m: DecayMultiplier)
    ensures
        0 <= run_len(s, dim, start, now, m),
        start < now ==> run_len(s, dim, start, now, m) <= now - start,
        start < now && step_multiplier(s, dim, start) == m ==> run_len(s, dim, start, now, m) > 0,
    decreases now - start,
{
    if start < now && step_multiplier(s, dim, start) == m {
        lemma_run_len_bounds(s, dim, start + chunk_len(start, now), now, m);
    }
}

/// A run ends at the end of the interval or just before a step whose multiplier differs.
pub proof fn lemma_run_len_stops(s: DecaySchedule, dim: Seq<char>, start: int, now: int, m: DecayMultiplier)
    requires
        start < now,
        start + run_len(s, dim, start, now, m) < now,
    ensures
        step_multiplier(s, dim, start + run_len(s, dim, start, now, m)) != m,
    decreases now - start,
{
    if step_multiplier(s, dim, start) == m {
        let next = start + chunk_len(start, now);
        lemma_run_len_bounds(s, dim, next, now, m);
        if next < now {
            lemma_run_len_stops(s, dim, next, now, m);
        }
    }
}

/// Sum of the durations of `segs`.
pub open spec fn total_ms(segs: Seq<DecaySegment>) -> int
    decreases segs.len(),
{
    if segs.len() == 0 {
        0
    } else {
        segs[0].duration_ms + total_ms(segs.drop_first())
    }
}

/// The segments' durations add up to the elapsed time, and there are none where no
/// time has elapsed.
pub proof fn lemma_segments_total(s: DecaySchedule, dim: Seq<char>, cursor: int, now: int)
    requires
        now - cursor <= i64::MAX,
    ensures
        cursor < now ==> total_ms(spec_segments(s, dim, cursor, now)) == now - cursor,
        cursor >= now ==> spec_segments(s, dim, cursor, now).len() == 0,
    decreases now - cursor,
{
    reveal(spec_segments);
    if cursor < now {
        let m = step_multiplier(s, dim, cursor);
        let len = run_len(s, dim, cursor, now, m);
        lemma_run_len_bounds(s, dim, cursor, now, m);
        lemma_segments_total(s, dim, cursor + len, now);
        let segs = spec_segments(s, dim, cursor, now);
        let tail = spec_segments(s, dim, cursor + len, now);
        assert(segs.drop_first() =~= tail);
        assert(segs[0].duration_ms == len);
        if cursor + len >= now {
            assert(tail.len() == 0);
            assert(total_ms(tail) == 0);
        }
        assert(total_ms(segs) == len + total_ms(tail));
    }
}

/// Every segment lasts a positive time.
pub proof fn lemma_segments_positive(s: DecaySchedule, dim: Seq<char>, cursor: int, now: int, i: int)
    requires
        now - cursor <= i64::MAX,
        0 <= i < spec_segments(s, dim, cursor, now).len(),
    ensures
        spec_segments(s, dim, cursor, now)[i].duration_ms > 0,
    decreases now - cursor,
{
    reveal(spec_segments);
    let m = step_multiplier(s, dim, cursor);
    let len = run_len(s, dim, cursor, now, m);
    lemma_run_len_bounds(s, dim, cursor, now, m);
    if i > 0 {
        lemma_segments_positive(s, dim, cursor + len, now, i - 1);
    }
}

/// Neighbouring segments have different multipliers: each run is as long as it can be.
pub proof fn lemma_segments_maximal(s: DecaySchedule, dim: Seq<char>, cursor: int, now: int, i: int)
    requires
        now - cursor <= i64::MAX,
        0 <= i,
        i + 1 < spec_segments(s, dim, cursor, now).len(),
    ensures
        spec_segments(s, dim, cursor, now)[i].multiplier != spec_segments(s, dim, cursor, now)[i + 1].multiplier,
    decreases now - cursor,
{
    reveal(spec_segments);
    let m = step_multiplier(s, dim, cursor);
    let len = run_len(s, dim, cursor, now, m);
    lemma_run_len_bounds(s, dim, cursor, now, m);
    let tail = spec_segments(s, dim, cursor + len, now);
    if i > 0 {
        lemma_segments_maximal(s, dim, cursor + len, now, i - 1);
    } else {
        assert(tail.len() > 0);
        assert(cursor + len < now);
        lemma_run_len_stops(s, dim, cursor, now, m);
        assert(tail[0].multiplier == step_multiplier(s, dim, cursor + len));
    }
}

/// An interval shorter than an hour is one segment, with the multiplier at its start.
pub proof fn lemma_short_interval_one_segment(s: DecaySchedule, dim: Seq<char>, cursor: int, now: int)
    requires
        cursor < now < cursor + MS_PER_HOUR,
    ensures
        spec_segments(s, dim, cursor, now) == seq![
            DecaySegment { duration_ms: (now - cursor) as i64, multiplier: step_multiplier(s, dim, cursor) },
        ],
{
    reveal(spec_segments);
    let m = step_multiplier(s, dim, cursor);
    assert(run_len(s, dim, now, now, m) == 0);
    assert(run_len(s, dim, cursor, now, m) == now - cursor);
    assert(spec_segments(s, dim, now, now) == Seq::<DecaySegment>::empty());
    assert(spec_segments(s, dim, cursor, now) =~= seq![
        DecaySegment { duration_ms: (now - cursor) as i64, multiplier: m },
    ]);
}

/// Every hourly step that starts inside a run has the run's multiplier.
pub proof fn lemma_run_steps(s: DecaySchedule, dim: Seq<char>, start: int, now: int, m: DecayMultiplier, k: int)
    requires
        k >= 0,
        k * MS_PER_HOUR < run_len(s, dim, start, now, m),
    ensures
        step_multiplier(s, dim, start + k * MS_PER_HOUR) == m,
    decreases k,
{
    let h = MS_PER_HOUR as int;
    if k > 0 {
        let c = chunk_len(start, now);
        lemma_run_len_bounds(s, dim, start + c, now, m);
        if c < h {
            assert(start + c == now);
            assert(run_len(s, dim, start + c, now, m) == 0);
            assert(false);
        }
        assert(start + k * h == (start + h) + (k - 1) * h);
        lemma_run_steps(s, dim, start + h, now, m, k - 1);
    }
}

/// A run that ends before the end of the interval is a whole number of hours long.
pub proof fn lemma_run_whole_hours(s: DecaySchedule, dim: Seq<char>, start: int, now: int, m: DecayMultiplier)
    requires
        start < now,
        start + run_len(s, dim, start, now, m) < now,
    ensures
        exists|q: int| q >= 0 && run_len(s, dim, start, now, m) == #[trigger] (q * MS_PER_HOUR),
    decreases now - start,
{
    let h = MS_PER_HOUR as int;
    if step_multiplier(s, dim, start) == m {
        let c = chunk_len(start, now);
        lemma_run_len_bounds(s, dim, start + c, now, m);
        assert(c == h);
        let rest = run_len(s, dim, start + h, now, m);
        if rest == 0 {
            assert(run_len(s, dim, start, now, m) == 1 * h);
        } else {
            lemma_run_whole_hours(s, dim, start + h, now, m);
            let q = choose|q: int| q >= 0 && rest == #[trigger] (q * MS_PER_HOUR);
            assert(run_len(s, dim, start, now, m) == (q + 1) * h);
        }
    } else {
        assert(run_len(s, dim, start, now, m) == 0 * h);
    }
}

/// The hourly steps that segment `i` covers each have the segment's multiplier: the
/// step starting `j` hours after `cursor` lies in segment `i` when the durations of
/// the segments before `i` add up to no more than `j` hours and, with segment `i`,
/// to more.
pub proof fn lemma_segment_steps(s: DecaySchedule, dim: Seq<char>, cursor: int, now: int, i: int, j: int)
    requires
        now - cursor <= i64::MAX,
        0 <= i < spec_segments(s, dim, cursor, now).len(),
        j >= 0,
        total_ms(spec_segments(s, dim, cursor, now).take(i)) <= j * MS_PER_HOUR,
        j * MS_PER_HOUR < total_ms(spec_segments(s, dim, cursor, now).take(i + 1)),
    ensures
        step_multiplier(s, dim, cursor + j * MS_PER_HOUR) == spec_segments(s, dim, cursor, now)[i].multiplier,
    decreases now - cursor,
{
    reveal(spec_segments);
    let h = MS_PER_HOUR as int;
    let segs = spec_segments(s, dim, cursor, now);
    let m = step_multiplier(s, dim, cursor);
    let len = run_len(s, dim, cursor, now, m);
    lemma_run_len_bounds(s, dim, cursor, now, m);
    let tail = spec_segments(s, dim, cursor + len, now);
    assert(segs == seq![DecaySegment { duration_ms: len as i64, multiplier: m }] + tail);
    assert(cursor < now);
    assert(segs[0].duration_ms == len);
    assert(segs.take(1).drop_first() =~= Seq::<DecaySegment>::empty());
    assert(total_ms(Seq::<DecaySegment>::empty()) == 0);
    assert(segs.take(1)[0] == segs[0]);
    assert(total_ms(segs.take(1)) == len);
    if i == 0 {
        assert(segs.take(0) =~= Seq::<DecaySegment>::empty());
        lemma_run_steps(s, dim, cursor, now, m, j);
    } else {
        assert(segs.take(i).drop_first() =~= tail.take(i - 1));
        assert(segs.take(i + 1).drop_first() =~= tail.take(i));
        lemma_segments_positive(s, dim, cursor + len, now, i - 1);
        lemma_total_nonneg(tail.take(i - 1), s, dim, cursor + len, now, i - 1);
        assert(tail.len() > 0);
        assert(cursor + len < now);
        lemma_run_whole_hours(s, dim, cursor, now, m);
        let q = choose|q: int| q >= 0 && len == #[trigger] (q * MS_PER_HOUR);
        assert(cursor + j * h == (cursor + len) + (j - q) * h);
        lemma_segment_steps(s, dim, cursor + len, now, i - 1, j - q);
    }
}

proof fn lemma_total_nonneg(segs: Seq<DecaySegment>, s: DecaySchedule, dim: Seq<char>, cursor: int, now: int, n: int)
    requires
        now - cursor <= i64::MAX,
        0 <= n <= spec_segments(s, dim, cursor, now).len(),
        segs == spec_segments(s, dim, cursor, now).take(n),
    ensures
        total_ms(segs) >= 0,
    decreases n,
{
    if n > 0 {
        let all = spec_segments(s, dim, cursor, now);
        assert(segs.drop_first() =~= all.drop_first().take(n - 1));
        lemma_segments_positive(s, dim, cursor, now, 0);
        reveal(spec_segments);
        let m = step_multiplier(s, dim, cursor);
        let len = run_len(s, dim, cursor, now, m);
        lemma_run_len_bounds(s, dim, cursor, now, m);
        assert(all.drop_first() =~= spec_segments(s, dim, cursor + len, now));
        lemma_total_nonneg(segs.drop_first(), s, dim, cursor + len, now, n - 1);
    }
}

/// Splits the time from `last_ms` to `now_ms` into hourly steps (the last one shorter
/// where the interval is not a whole number of hours), takes the multiplier that
/// `schedule` selects for `dimension` at the start of each step, and merges
/// consecutive steps with the same multiplier. No time has passed, and nothing is
/// returned, where `now_ms <= last_ms`.
pub fn split_segments(
    schedule: &DecaySchedule,
    dimension: &str,
    last_ms: i64,
    now_ms: i64,
) -> (r: Vec<DecaySegment>)
    requires
        last_ms < now_ms ==> now_ms - last_ms <= i64::MAX,
    ensures
        r@ == spec_segments(*schedule, dimension@, last_ms as int, now_ms as int),
{
    let mut out: Vec<DecaySegment> = Vec::new();
    if now_ms <= last_ms {
        proof {
            reveal(spec_segments);
        }
        return out;
    }
    let mut cursor = last_ms;
    while cursor < now_ms
        invariant
            last_ms <= cursor <= now_ms,
            now_ms - last_ms <= i64::MAX,
            spec_segments(*schedule, dimension@, last_ms as int, now_ms as int)
                == out@ + spec_segments(*schedule, dimension@, cursor as int, now_ms as int),
        decreases now_ms - cursor,
    {
        let phase = schedule.multiplier_for(dimension, cursor);
        let mut segment_ms: i64 = 0;
        let mut probe = cursor;
        while probe < now_ms
            invariant_except_break
                last_ms <= cursor <= probe <= now_ms,
                now_ms - last_ms <= i64::MAX,
                segment_ms == probe - cursor,
                run_len(*schedule, dimension@, cursor as int, now_ms as int, phase)
                    == segment_ms + run_len(*schedule, dimension@, probe as int, now_ms as int, phase),
            ensures
                cursor <= probe <= now_ms,
                segment_ms == probe - cursor,
                run_len(*schedule, dimension@, cursor as int, now_ms as int, phase) == segment_ms,
            decreases now_ms - probe,
        {
            proof {
                reveal(step_multiplier);
            }
            let chunk = if now_ms - probe < MS_PER_HOUR { now_ms - probe } else { MS_PER_HOUR };
            if schedule.multiplier_for(dimension, probe) == phase {
                segment_ms = segment_ms + chunk;
                probe = probe + chunk;
            } else {
                break;
            }
        }
        proof {
            lemma_run_len_bounds(*schedule, dimension@, cursor as int, now_ms as int, phase);
        }
        let ghost old_out = out@;
        out.push(DecaySegment { duration_ms: segment_ms, multiplier: phase });
        proof {
            reveal(step_multiplier);
            reveal(spec_segments);
            assert(spec_segments(*schedule, dimension@, cursor as int, now_ms as int)
                == seq![DecaySegment { duration_ms: segment_ms, multiplier: phase }]
                    + spec_segments(*schedule, dimension@, cursor + segment_ms, now_ms as int));
            assert(out@ == old_out + seq![DecaySegment { duration_ms: segment_ms, multiplier: phase }]);
            assert(spec_segments(*schedule, dimension@, last_ms as int, now_ms as int)
                == out@ + spec_segments(*schedule, dimension@, cursor + segment_ms, now_ms as int));
        }
        cursor = cursor + segment_ms;
    }
    proof {
        reveal(spec_segments);
        assert(spec_segments(*schedule, dimension@, cursor as int, now_ms as int) == Seq::<DecaySegment>::empty());
        assert(out@ + Seq::<DecaySegment>::empty() == out@);
    }
    out
}

} // verus!
