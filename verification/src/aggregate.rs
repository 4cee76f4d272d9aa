//! The statistics engine.
//!
//! Every metric is a fold over (kernel, sample) pairs: cycle-weighted sums
//! for occupancy and stall figures, time-integrals over the kernel's sample
//! intervals for bandwidth, plain means for effectiveness and channel depth.
//! Division is left to the presentation layer, so each result carries its
//! numerator and denominator exactly; a zero denominator renders as a
//! not-a-number, never as an error.
//!
//! Sums saturate at `u128::MAX`, far beyond any whole-document total. The
//! sampling timeline is assumed ascending; a non-ascending gap counts as
//! zero duration rather than failing.

use vstd::prelude::*;
use crate::data_model::{Kernel, spec_interval_start};
use crate::module_instance_details::{Bandwidth, ChannelDepth, Effectiveness, Occupancy, Stall};
use crate::numeric::Decimal;

verus! {

/// Addition capped at `u128::MAX`.
pub open spec fn sat_add(a: int, b: int) -> int {
    if a + b > u128::MAX {
        u128::MAX as int
    } else {
        a + b
    }
}

pub fn add_sat(a: u128, b: u128) -> (r: u128)
    ensures
        r as int == sat_add(a as int, b as int),
{
    if a > u128::MAX - b {
        u128::MAX
    } else {
        a + b
    }
}

/// Subtraction clamped at zero: a non-ascending timestamp gap counts as no
/// time at all.
pub open spec fn clamped_sub(a: int, b: int) -> int {
    if a >= b {
        a - b
    } else {
        0
    }
}

pub open spec fn min2(a: int, b: int) -> int {
    if a <= b {
        a
    } else {
        b
    }
}

/// The millionths held by each fixed-point sample.
pub open spec fn micro_seq(s: Seq<Decimal>) -> Seq<u64> {
    s.map_values(|d: Decimal| d.micro)
}

/// The value pairs behind a borrowed pair list.
pub open spec fn pairs_view<S>(ps: Seq<(&Kernel, &S)>) -> Seq<(Kernel, S)> {
    ps.map_values(|t: (&Kernel, &S)| (*t.0, *t.1))
}

/// Sums of the first `n` positions of two zipped sample arrays.
pub open spec fn spec_zip_sum2(a: Seq<u64>, b: Seq<u64>, n: int) -> (int, int)
    decreases n,
{
    if n <= 0 || n > a.len() || n > b.len() {
        (0, 0)
    } else {
        let (x, y) = spec_zip_sum2(a, b, n - 1);
        (sat_add(x, a[n - 1] as int), sat_add(y, b[n - 1] as int))
    }
}

/// Sums of the first `n` positions of four zipped sample arrays.
pub open spec fn spec_zip_sum4(a: Seq<u64>, b: Seq<u64>, c: Seq<u64>, d: Seq<u64>, n: int) -> (
    int,
    int,
    int,
    int,
)
    decreases n,
{
    if n <= 0 || n > a.len() || n > b.len() || n > c.len() || n > d.len() {
        (0, 0, 0, 0)
    } else {
        let (x, y, z, w) = spec_zip_sum4(a, b, c, d, n - 1);
        (
            sat_add(x, a[n - 1] as int),
            sat_add(y, b[n - 1] as int),
            sat_add(z, c[n - 1] as int),
            sat_add(w, d[n - 1] as int),
        )
    }
}

/// Sums two zipped arrays for one pair, element by element.
fn zip_sum2_arrays(a: &[u64], b: &[u64]) -> (r: (u128, u128))
    ensures
        (r.0 as int, r.1 as int) == spec_zip_sum2(a@, b@, min2(a@.len() as int, b@.len() as int)),
{
    let n = if a.len() <= b.len() {
        a.len()
    } else {
        b.len()
    };
    let mut x: u128 = 0;
    let mut y: u128 = 0;
    let mut i: usize = 0;
    while i < n
        invariant
            0 <= i <= n,
            n == min2(a@.len() as int, b@.len() as int),
            (x as int, y as int) == spec_zip_sum2(a@, b@, i as int),
        decreases n - i,
    {
        x = add_sat(x, a[i] as u128);
        y = add_sat(y, b[i] as u128);
        i += 1;
    }
    (x, y)
}

/// Time-weighted occupancy: busy cycles against elapsed cycles.
#[derive(Clone, Copy, PartialEq, Eq, Structural, Debug)]
pub struct OccupancyStat {
    pub occupancy_sum: u128,
    pub cycles_sum: u128,
}

/// The occupancy fold over the first `n` pairs of a group.
pub open spec fn spec_compute_occupancy<S: Occupancy>(ps: Seq<(Kernel, S)>, n: int) -> (int, int)
    decreases n,
{
    if n <= 0 || n > ps.len() {
        (0, 0)
    } else {
        let (x, y) = spec_compute_occupancy(ps, n - 1);
        let (k, s) = ps[n - 1];
        let occ = s.spec_occupancy_samples();
        let cyc = k.total_cycles_between_samples@;
        let (po, pc) = spec_zip_sum2(occ, cyc, min2(occ.len() as int, cyc.len() as int));
        (sat_add(x, po), sat_add(y, pc))
    }
}

/// Occupancy over a group: each sample's busy-cycle array is zipped with the
/// owning kernel's cycles-between-samples array, and the two sums divide to
/// the occupancy percentage.
pub fn compute_occupancy<S: Occupancy>(samples: &Vec<(&Kernel, &S)>) -> (r: OccupancyStat)
    ensures
        (r.occupancy_sum as int, r.cycles_sum as int) == spec_compute_occupancy(
            pairs_view(samples@),
            samples@.len() as int,
        ),
{
    let mut occupancy_sum: u128 = 0;
    let mut cycles_sum: u128 = 0;
    let mut i: usize = 0;
    while i < samples.len()
        invariant
            0 <= i <= samples@.len(),
            (occupancy_sum as int, cycles_sum as int) == spec_compute_occupancy(
                pairs_view(samples@),
                i as int,
            ),
        decreases samples@.len() - i,
    {
        let pair = &samples[i];
        let (po, pc) = zip_sum2_arrays(
            pair.1.occupancy_samples(),
            pair.0.total_cycles_between_samples.as_slice(),
        );
        occupancy_sum = add_sat(occupancy_sum, po);
        cycles_sum = add_sat(cycles_sum, pc);
        proof {
            assert(pairs_view(samples@)[i as int] == (*samples@[i as int].0, *samples@[i as int].1));
        }
        i += 1;
    }
    OccupancyStat { occupancy_sum, cycles_sum }
}

/// Stall, idle and activity cycles against elapsed cycles.
#[derive(Clone, Copy, PartialEq, Eq, Structural, Debug)]
pub struct StallStat {
    pub stall_sum: u128,
    pub idle_sum: u128,
    pub activity_sum: u128,
    pub cycles_sum: u128,
}

pub open spec fn spec_compute_stall<S: Stall>(ps: Seq<(Kernel, S)>, n: int) -> (
    int,
    int,
    int,
    int,
)
    decreases n,
{
    if n <= 0 || n > ps.len() {
        (0, 0, 0, 0)
    } else {
        let (x, y, z, w) = spec_compute_stall(ps, n - 1);
        let (k, s) = ps[n - 1];
        let st = s.spec_stall_samples();
        let id = s.spec_idle_samples();
        let ac = s.spec_activity_samples();
        let cy = k.total_cycles_between_samples@;
        let m = min2(
            min2(st.len() as int, id.len() as int),
            min2(ac.len() as int, cy.len() as int),
        );
        let (ps_, pi, pa, pc) = spec_zip_sum4(st, id, ac, cy, m);
        (sat_add(x, ps_), sat_add(y, pi), sat_add(z, pa), sat_add(w, pc))
    }
}

/// Stall, idle and activity over a group: three parallel numerators over the
/// same cycles denominator.
pub fn compute_stall<S: Stall>(samples: &Vec<(&Kernel, &S)>) -> (r: StallStat)
    ensures
        (r.stall_sum as int, r.idle_sum as int, r.activity_sum as int, r.cycles_sum as int)
            == spec_compute_stall(pairs_view(samples@), samples@.len() as int),
{
    let mut stall_sum: u128 = 0;
    let mut idle_sum: u128 = 0;
    let mut activity_sum: u128 = 0;
    let mut cycles_sum: u128 = 0;
    let mut i: usize = 0;
    while i < samples.len()
        invariant
            0 <= i <= samples@.len(),
            (stall_sum as int, idle_sum as int, activity_sum as int, cycles_sum as int)
                == spec_compute_stall(pairs_view(samples@), i as int),
        decreases samples@.len() - i,
    {
        let pair = &samples[i];
        let st = pair.1.stall_samples();
        let id = pair.1.idle_samples();
        let ac = pair.1.activity_samples();
        let cy = pair.0.total_cycles_between_samples.as_slice();
        let m0 = if st.len() <= id.len() {
            st.len()
        } else {
            id.len()
        };
        let m1 = if ac.len() <= cy.len() {
            ac.len()
        } else {
            cy.len()
        };
        let m = if m0 <= m1 {
            m0
        } else {
            m1
        };
        let mut ps_: u128 = 0;
        let mut pi: u128 = 0;
        let mut pa: u128 = 0;
        let mut pc: u128 = 0;
        let mut j: usize = 0;
        while j < m
            invariant
                0 <= j <= m,
                m == min2(
                    min2(st@.len() as int, id@.len() as int),
                    min2(ac@.len() as int, cy@.len() as int),
                ),
                (ps_ as int, pi as int, pa as int, pc as int) == spec_zip_sum4(
                    st@,
                    id@,
                    ac@,
                    cy@,
                    j as int,
                ),
            decreases m - j,
        {
            ps_ = add_sat(ps_, st[j] as u128);
            pi = add_sat(pi, id[j] as u128);
            pa = add_sat(pa, ac[j] as u128);
            pc = add_sat(pc, cy[j] as u128);
            j += 1;
        }
        stall_sum = add_sat(stall_sum, ps_);
        idle_sum = add_sat(idle_sum, pi);
        activity_sum = add_sat(activity_sum, pa);
        cycles_sum = add_sat(cycles_sum, pc);
        proof {
            assert(pairs_view(samples@)[i as int] == (*samples@[i as int].0, *samples@[i as int].1));
        }
        i += 1;
    }
    StallStat { stall_sum, idle_sum, activity_sum, cycles_sum }
}

/// A bandwidth time-integral against merged wall time.
#[derive(Clone, Copy, PartialEq, Eq, Structural, Debug)]
pub struct BandwidthStat {
    pub integral_micro: u128,
    pub merged_runtime: u128,
}

/// The time-integral of one pair: each sample interval's duration times that
/// interval's bandwidth sample, summed over the first `n` intervals.
pub open spec fn spec_pair_integral(k: Kernel, bw: Seq<Decimal>, n: int) -> int
    decreases n,
{
    if n <= 0 || n > k.sample_timestamps@.len() || n > bw.len() {
        0
    } else {
        let prev = spec_interval_start(k, n - 1) as int;
        let dur = clamped_sub(k.sample_timestamps@[n - 1] as int, prev);
        sat_add(spec_pair_integral(k, bw, n - 1), dur * bw[n - 1].micro as int)
    }
}

/// The integral fold over the first `n` pairs of a group.
pub open spec fn spec_group_integral<S: Bandwidth>(ps: Seq<(Kernel, S)>, n: int) -> int
    decreases n,
{
    if n <= 0 || n > ps.len() {
        0
    } else {
        let (k, s) = ps[n - 1];
        let bw = s.spec_bandwidth_samples();
        let m = min2(k.sample_timestamps@.len() as int, bw.len() as int);
        sat_add(spec_group_integral(ps, n - 1), spec_pair_integral(k, bw, m))
    }
}

/// Lexicographic order on (start, end) spans, as a sorted set keeps them.
pub open spec fn span_lt(a: (u64, u64), b: (u64, u64)) -> bool {
    a.0 < b.0 || (a.0 == b.0 && a.1 < b.1)
}

/// Inserts a span into a sorted run, keeping it sorted and duplicate-free.
pub open spec fn spec_insert_span(s: Seq<(u64, u64)>, sp: (u64, u64)) -> Seq<(u64, u64)>
    decreases s.len(),
{
    if s.len() == 0 {
        seq![sp]
    } else if span_lt(sp, s[0]) {
        seq![sp] + s
    } else if sp == s[0] {
        s
    } else {
        seq![s[0]] + spec_insert_span(s.drop_first(), sp)
    }
}

/// The distinct (start, end) spans of the first `n` pairs, in span order.
pub open spec fn spec_sorted_spans<S>(ps: Seq<(Kernel, S)>, n: int) -> Seq<(u64, u64)>
    decreases n,
{
    if n <= 0 || n > ps.len() {
        Seq::empty()
    } else {
        spec_insert_span(
            spec_sorted_spans(ps, n - 1),
            (ps[n - 1].0.start_time, ps[n - 1].0.end_time),
        )
    }
}

/// Folds sorted spans into merged windows: a span whose start does not pass
/// the last window's end (touching counts) extends that window, whose end
/// becomes the later of the two ends, so the window always covers every
/// span merged into it — a nested window cannot shrink it.
pub open spec fn spec_merge_spans(s: Seq<(u64, u64)>, n: int) -> Seq<(u64, u64)>
    decreases n,
{
    if n <= 0 || n > s.len() {
        Seq::empty()
    } else {
        let acc = spec_merge_spans(s, n - 1);
        let sp = s[n - 1];
        if acc.len() > 0 && sp.0 <= acc.last().1 {
            acc.drop_last().push(
                (acc.last().0, if sp.1 > acc.last().1 {
                    sp.1
                } else {
                    acc.last().1
                }),
            )
        } else {
            acc.push(sp)
        }
    }
}

/// The summed duration of the first `n` spans.
pub open spec fn spec_span_total(s: Seq<(u64, u64)>, n: int) -> int
    decreases n,
{
    if n <= 0 || n > s.len() {
        0
    } else {
        sat_add(spec_span_total(s, n - 1), clamped_sub(s[n - 1].1 as int, s[n - 1].0 as int))
    }
}

/// The merged wall time of the first `n` pairs: distinct spans, sorted,
/// merged, summed.
pub open spec fn spec_merged_runtime<S>(ps: Seq<(Kernel, S)>, n: int) -> int {
    let merged = spec_merge_spans(
        spec_sorted_spans(ps, n),
        spec_sorted_spans(ps, n).len() as int,
    );
    spec_span_total(merged, merged.len() as int)
}

pub open spec fn spec_compute_bandwidth<S: Bandwidth>(ps: Seq<(Kernel, S)>, n: int) -> (int, int) {
    (spec_group_integral(ps, n), spec_merged_runtime(ps, n))
}

/// A scanned prefix of strictly smaller spans can be split off an insertion.
proof fn lemma_insert_span_split(s: Seq<(u64, u64)>, sp: (u64, u64), i: int)
    requires
        0 <= i <= s.len(),
        forall|j: int| 0 <= j < i ==> span_lt(s[j], sp),
    ensures
        spec_insert_span(s, sp) == s.take(i) + spec_insert_span(s.skip(i), sp),
    decreases i,
{
    if i == 0 {
        assert(s.skip(0) =~= s);
        assert(s.take(0) + spec_insert_span(s, sp) =~= spec_insert_span(s, sp));
    } else {
        lemma_insert_span_split(s.drop_first(), sp, i - 1);
        assert(s.drop_first().take(i - 1) =~= s.take(i).drop_first());
        assert(s.drop_first().skip(i - 1) =~= s.skip(i));
        assert(spec_insert_span(s, sp) == seq![s[0]] + spec_insert_span(s.drop_first(), sp));
        assert(seq![s[0]] + (s.drop_first().take(i - 1) + spec_insert_span(s.skip(i), sp)) =~= s.take(
            i,
        ) + spec_insert_span(s.skip(i), sp));
    }
}

/// Inserts one span into a sorted vector, skipping a duplicate.
fn insert_span(spans: &mut Vec<(u64, u64)>, sp: (u64, u64))
    ensures
        final(spans)@ == spec_insert_span(old(spans)@, sp),
{
    let ghost s0 = spans@;
    let mut i: usize = 0;
    while i < spans.len() && span_lt_exec(spans[i], sp)
        invariant
            0 <= i <= spans@.len(),
            spans@ == s0,
            forall|j: int| 0 <= j < i ==> span_lt(s0[j], sp),
        decreases spans@.len() - i,
    {
        i += 1;
    }
    proof {
        lemma_insert_span_split(s0, sp, i as int);
    }
    if i < spans.len() {
        let cur = spans[i];
        proof {
            assert(s0.skip(i as int)[0] == s0[i as int]);
        }
        if cur.0 == sp.0 && cur.1 == sp.1 {
            proof {
                assert(spec_insert_span(s0.skip(i as int), sp) == s0.skip(i as int));
                assert(s0.take(i as int) + s0.skip(i as int) =~= s0);
            }
            return ;
        }
        proof {
            assert(span_lt(sp, s0.skip(i as int)[0]));
            assert(spec_insert_span(s0.skip(i as int), sp) == seq![sp] + s0.skip(i as int));
            assert(s0.take(i as int) + (seq![sp] + s0.skip(i as int)) =~= s0.insert(i as int, sp));
        }
        spans.insert(i, sp);
    } else {
        proof {
            assert(s0.skip(i as int) =~= Seq::<(u64, u64)>::empty());
            assert(spec_insert_span(s0.skip(i as int), sp) =~= seq![sp]);
            assert(s0.take(i as int) + seq![sp] =~= s0.push(sp));
        }
        spans.push(sp);
    }
}

fn span_lt_exec(a: (u64, u64), b: (u64, u64)) -> (r: bool)
    ensures
        r == span_lt(a, b),
{
    a.0 < b.0 || (a.0 == b.0 && a.1 < b.1)
}

/// Bandwidth over a group: the per-interval time-integral of every pair,
/// against the merged wall time of the distinct kernel execution windows,
/// so concurrent or repeated windows are not double-counted.
pub fn compute_bandwidth<S: Bandwidth>(samples: &Vec<(&Kernel, &S)>) -> (r: BandwidthStat)
    ensures
        (r.integral_micro as int, r.merged_runtime as int) == spec_compute_bandwidth(
            pairs_view(samples@),
            samples@.len() as int,
        ),
{
    let mut integral: u128 = 0;
    let mut i: usize = 0;
    while i < samples.len()
        invariant
            0 <= i <= samples@.len(),
            integral as int == spec_group_integral(pairs_view(samples@), i as int),
        decreases samples@.len() - i,
    {
        let pair = &samples[i];
        let k: &Kernel = pair.0;
        let bw = pair.1.bandwidth_samples();
        let m = if k.sample_timestamps.len() <= bw.len() {
            k.sample_timestamps.len()
        } else {
            bw.len()
        };
        let mut acc: u128 = 0;
        let mut j: usize = 0;
        while j < m
            invariant
                0 <= j <= m,
                m == min2(k.sample_timestamps@.len() as int, bw@.len() as int),
                bw@ == pair.1.spec_bandwidth_samples(),
                acc as int == spec_pair_integral(*k, bw@, j as int),
            decreases m - j,
        {
            let prev: u64 = if j == 0 {
                k.start_time
            } else {
                k.sample_timestamps[j - 1]
            };
            let ts = k.sample_timestamps[j];
            let dur: u64 = if ts >= prev {
                ts - prev
            } else {
                0
            };
            proof {
                lemma_mul_bounds_u64(dur, bw@[j as int].micro);
            }
            let term: u128 = dur as u128 * bw[j].micro as u128;
            acc = add_sat(acc, term);
            j += 1;
        }
        integral = add_sat(integral, acc);
        proof {
            assert(pairs_view(samples@)[i as int] == (*samples@[i as int].0, *samples@[i as int].1));
        }
        i += 1;
    }
    let mut spans: Vec<(u64, u64)> = Vec::new();
    let mut i2: usize = 0;
    while i2 < samples.len()
        invariant
            0 <= i2 <= samples@.len(),
            spans@ == spec_sorted_spans(pairs_view(samples@), i2 as int),
        decreases samples@.len() - i2,
    {
        let pair = &samples[i2];
        insert_span(&mut spans, (pair.0.start_time, pair.0.end_time));
        proof {
            assert(pairs_view(samples@)[i2 as int] == (
                *samples@[i2 as int].0,
                *samples@[i2 as int].1,
            ));
        }
        i2 += 1;
    }
    let mut merged: Vec<(u64, u64)> = Vec::new();
    let mut i3: usize = 0;
    while i3 < spans.len()
        invariant
            0 <= i3 <= spans@.len(),
            merged@ == spec_merge_spans(spans@, i3 as int),
        decreases spans@.len() - i3,
    {
        let sp = spans[i3];
        if merged.len() > 0 {
            let last = merged[merged.len() - 1];
            if sp.0 <= last.1 {
                let _ = merged.pop();
                let end = if sp.1 > last.1 {
                    sp.1
                } else {
                    last.1
                };
                merged.push((last.0, end));
            } else {
                merged.push(sp);
            }
        } else {
            merged.push(sp);
        }
        proof {
            assert(merged@ =~= spec_merge_spans(spans@, i3 + 1));
        }
        i3 += 1;
    }
    let mut merged_runtime: u128 = 0;
    let mut i4: usize = 0;
    while i4 < merged.len()
        invariant
            0 <= i4 <= merged@.len(),
            merged_runtime as int == spec_span_total(merged@, i4 as int),
        decreases merged@.len() - i4,
    {
        let sp = merged[i4];
        let dur: u64 = if sp.1 >= sp.0 {
            sp.1 - sp.0
        } else {
            0
        };
        merged_runtime = add_sat(merged_runtime, dur as u128);
        i4 += 1;
    }
    BandwidthStat { integral_micro: integral, merged_runtime }
}

proof fn lemma_mul_bounds_u64(a: u64, b: u64)
    ensures
        0 <= a as int * b as int <= u128::MAX,
{
    lemma_mul_upper_bound(a as int, u64::MAX as int, b as int, u64::MAX as int);
    assert(a as int * b as int >= 0) by (nonlinear_arith)
        requires
            a >= 0,
            b >= 0;
}

proof fn lemma_mul_upper_bound(x: int, xb: int, y: int, yb: int)
    by (nonlinear_arith)
    requires
        0 <= x <= xb,
        0 <= y <= yb,
    ensures
        x * y <= xb * yb,
{
}

/// Plain means of effective bandwidth and burst size, and the conditional
/// cache-hit ratio against the occupancy sum.
#[derive(Clone, Copy, PartialEq, Eq, Structural, Debug)]
pub struct EffectivenessStat {
    pub sample_count: u128,
    pub effective_sum_micro: u128,
    pub burst_sum_micro: u128,
    pub cache_hit_present: bool,
    pub cache_hit_sum_micro: u128,
    pub occupancy_sum: u128,
}

/// The effectiveness fold over the first `n` pairs: a count and two sums
/// over the zipped effective-bandwidth and burst-size arrays, and, over the
/// zipped cache-hit and occupancy arrays, whether any position exists with
/// its two sums.
pub open spec fn spec_compute_effectiveness<S: Effectiveness + Occupancy>(
    ps: Seq<(Kernel, S)>,
    n: int,
) -> (int, int, int, bool, int, int)
    decreases n,
{
    if n <= 0 || n > ps.len() {
        (0, 0, 0, false, 0, 0)
    } else {
        let (cnt, es, bs, present, cs, os) = spec_compute_effectiveness(ps, n - 1);
        let s = ps[n - 1].1;
        let eff = micro_seq(s.spec_bandwidth_effective_samples());
        let bur = micro_seq(s.spec_average_burst_size());
        let m = min2(eff.len() as int, bur.len() as int);
        let (pe, pb) = spec_zip_sum2(eff, bur, m);
        let cache = micro_seq(s.spec_cache_hit_samples());
        let occ = s.spec_occupancy_samples();
        let mc = min2(cache.len() as int, occ.len() as int);
        let (pc, po) = spec_zip_sum2(cache, occ, mc);
        (
            sat_add(cnt, m),
            sat_add(es, pe),
            sat_add(bs, pb),
            present || mc > 0,
            sat_add(cs, pc),
            sat_add(os, po),
        )
    }
}

/// Copies the millionths out of a fixed-point sample array.
pub fn micro_values(s: &[Decimal]) -> (r: Vec<u64>)
    ensures
        r@ == micro_seq(s@),
{
    let mut out: Vec<u64> = Vec::new();
    let mut i: usize = 0;
    proof {
        assert(out@ =~= micro_seq(s@).take(0));
    }
    while i < s.len()
        invariant
            0 <= i <= s@.len(),
            out@ == micro_seq(s@).take(i as int),
        decreases s@.len() - i,
    {
        out.push(s[i].micro);
        proof {
            assert(out@ =~= micro_seq(s@).take(i + 1));
        }
        i += 1;
    }
    proof {
        assert(micro_seq(s@).take(s@.len() as int) =~= micro_seq(s@));
    }
    out
}

/// Effectiveness over a group: the effective-bandwidth percentage and the
/// average burst size are unweighted means over all zipped samples; the
/// cache-hit percentage exists only when some pair has a non-empty zipped
/// cache-hit array, and divides by the occupancy sum, not by cycles.
pub fn compute_effectiveness<S: Effectiveness + Occupancy>(samples: &Vec<(&Kernel, &S)>) -> (r:
    EffectivenessStat)
    ensures
        (
            r.sample_count as int,
            r.effective_sum_micro as int,
            r.burst_sum_micro as int,
            r.cache_hit_present,
            r.cache_hit_sum_micro as int,
            r.occupancy_sum as int,
        ) == spec_compute_effectiveness(pairs_view(samples@), samples@.len() as int),
{
    let mut sample_count: u128 = 0;
    let mut effective_sum_micro: u128 = 0;
    let mut burst_sum_micro: u128 = 0;
    let mut cache_hit_present: bool = false;
    let mut cache_hit_sum_micro: u128 = 0;
    let mut occupancy_sum: u128 = 0;
    let mut i: usize = 0;
    while i < samples.len()
        invariant
            0 <= i <= samples@.len(),
            (
                sample_count as int,
                effective_sum_micro as int,
                burst_sum_micro as int,
                cache_hit_present,
                cache_hit_sum_micro as int,
                occupancy_sum as int,
            ) == spec_compute_effectiveness(pairs_view(samples@), i as int),
        decreases samples@.len() - i,
    {
        let pair = &samples[i];
        let eff = micro_values(pair.1.bandwidth_effective_samples());
        let bur = micro_values(pair.1.average_burst_size());
        let m = if eff.len() <= bur.len() {
            eff.len()
        } else {
            bur.len()
        };
        let (pe, pb) = zip_sum2_arrays(eff.as_slice(), bur.as_slice());
        let cache = micro_values(pair.1.cache_hit_samples());
        let occ = pair.1.occupancy_samples();
        let mc = if cache.len() <= occ.len() {
            cache.len()
        } else {
            occ.len()
        };
        let (pc, po) = zip_sum2_arrays(cache.as_slice(), occ);
        sample_count = add_sat(sample_count, m as u128);
        effective_sum_micro = add_sat(effective_sum_micro, pe);
        burst_sum_micro = add_sat(burst_sum_micro, pb);
        cache_hit_present = cache_hit_present || mc > 0;
        cache_hit_sum_micro = add_sat(cache_hit_sum_micro, pc);
        occupancy_sum = add_sat(occupancy_sum, po);
        proof {
            assert(pairs_view(samples@)[i as int] == (*samples@[i as int].0, *samples@[i as int].1));
        }
        i += 1;
    }
    EffectivenessStat {
        sample_count,
        effective_sum_micro,
        burst_sum_micro,
        cache_hit_present,
        cache_hit_sum_micro,
        occupancy_sum,
    }
}

/// The mean of the average-depth samples and the overall maximum depth.
#[derive(Clone, Copy, PartialEq, Eq, Structural, Debug)]
pub struct ChannelDepthStat {
    pub sample_count: u128,
    pub average_sum_micro: u128,
    pub maximum_depth: u32,
}

/// The largest of the first `n` maximum-depth samples.
pub open spec fn spec_zip_max(b: Seq<u32>, n: int) -> int
    decreases n,
{
    if n <= 0 || n > b.len() {
        0
    } else {
        let x = spec_zip_max(b, n - 1);
        if b[n - 1] as int > x {
            b[n - 1] as int
        } else {
            x
        }
    }
}

/// The channel-depth fold over the first `n` pairs: a count and a sum over
/// the zipped average-depth array, and the elementwise maximum of the
/// zipped maximum-depth array.
pub open spec fn spec_compute_channel_depth<S: ChannelDepth>(ps: Seq<(Kernel, S)>, n: int) -> (
    int,
    int,
    int,
)
    decreases n,
{
    if n <= 0 || n > ps.len() {
        (0, 0, 0)
    } else {
        let (cnt, asum, mx) = spec_compute_channel_depth(ps, n - 1);
        let s = ps[n - 1].1;
        let avg = micro_seq(s.spec_average_channel_depth_samples());
        let mxs = s.spec_maximum_channel_depth_samples();
        let m = min2(avg.len() as int, mxs.len() as int);
        let (pa, _unused) = spec_zip_sum2(avg, avg, m);
        let pm = spec_zip_max(mxs, m);
        (sat_add(cnt, m), sat_add(asum, pa), if pm > mx {
            pm
        } else {
            mx
        })
    }
}

/// Channel depth over a group: the average depth is an unweighted mean; the
/// maximum is the largest maximum-depth sample anywhere in the group.
pub fn compute_channel_depth<S: ChannelDepth>(samples: &Vec<(&Kernel, &S)>) -> (r: ChannelDepthStat)
    ensures
        (r.sample_count as int, r.average_sum_micro as int, r.maximum_depth as int)
            == spec_compute_channel_depth(pairs_view(samples@), samples@.len() as int),
{
    let mut sample_count: u128 = 0;
    let mut average_sum_micro: u128 = 0;
    let mut maximum_depth: u32 = 0;
    let mut i: usize = 0;
    while i < samples.len()
        invariant
            0 <= i <= samples@.len(),
            (sample_count as int, average_sum_micro as int, maximum_depth as int)
                == spec_compute_channel_depth(pairs_view(samples@), i as int),
        decreases samples@.len() - i,
    {
        let pair = &samples[i];
        let avg = micro_values(pair.1.average_channel_depth_samples());
        let mxs = pair.1.maximum_channel_depth_samples();
        let m = if avg.len() <= mxs.len() {
            avg.len()
        } else {
            mxs.len()
        };
        let mut pa: u128 = 0;
        let mut pm: u32 = 0;
        let mut j: usize = 0;
        while j < m
            invariant
                0 <= j <= m,
                m == min2(avg@.len() as int, mxs@.len() as int),
                (pa as int, pa as int) == spec_zip_sum2(avg@, avg@, j as int),
                pm as int == spec_zip_max(mxs@, j as int),
            decreases m - j,
        {
            pa = add_sat(pa, avg[j] as u128);
            if mxs[j] > pm {
                pm = mxs[j];
            }
            j += 1;
        }
        sample_count = add_sat(sample_count, m as u128);
        average_sum_micro = add_sat(average_sum_micro, pa);
        if pm > maximum_depth {
            maximum_depth = pm;
        }
        proof {
            assert(pairs_view(samples@)[i as int] == (*samples@[i as int].0, *samples@[i as int].1));
        }
        i += 1;
    }
    ChannelDepthStat { sample_count, average_sum_micro, maximum_depth }
}

} // verus!
