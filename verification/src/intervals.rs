//! Pause intervals: overlapping pauses are merged before their lengths are added,
//! so that a pause reported by several log patterns is deducted once.

use vstd::prelude::*;

verus! {

/// A pause: when it began and, once it ended, when it ended (nanoseconds).
#[derive(Debug, Clone, Copy, PartialEq, Eq, Structural)]
pub struct PauseEvent {
    pub pause_ts: i64,
    pub resume_ts: Option<i64>,
}

/// The length of a single pause: resume minus pause, 0 while it has not ended.
pub open spec fn pause_length(e: PauseEvent) -> int {
    match e.resume_ts {
        Some(r) => r - e.pause_ts,
        None => 0,
    }
}

impl PauseEvent {
    /// The length of this pause: resume minus pause time, or 0 while not resumed.
    pub fn duration(&self) -> (r: i128)
        ensures
            r == pause_length(*self),
    {
        match self.resume_ts {
            Some(resume) => resume as i128 - self.pause_ts as i128,
            None => 0,
        }
    }
}

/// The time interval `[start, end)` of an ended, non-empty pause.
pub open spec fn pause_interval(e: PauseEvent) -> Option<(i64, i64)> {
    match e.resume_ts {
        Some(r) => if e.pause_ts < r {
            Some((e.pause_ts, r))
        } else {
            None
        },
        None => None,
    }
}

/// The intervals of the ended, non-empty pauses, in order.
pub open spec fn pause_intervals(es: Seq<PauseEvent>) -> Seq<(i64, i64)>
    decreases es.len(),
{
    if es.len() == 0 {
        seq![]
    } else {
        let prev = pause_intervals(es.drop_last());
        match pause_interval(es.last()) {
            Some(iv) => prev.push(iv),
            None => prev,
        }
    }
}

/// Where a stable sort by start puts `x` among the sorted `s`.
pub open spec fn start_pos(s: Seq<(i64, i64)>, x: (i64, i64)) -> int
    decreases s.len(),
{
    if s.len() == 0 {
        0
    } else if x.0 < s[0].0 {
        0
    } else {
        1 + start_pos(s.drop_first(), x)
    }
}

/// The intervals sorted by start, equal starts in their original order.
pub open spec fn sort_by_start(s: Seq<(i64, i64)>) -> Seq<(i64, i64)>
    decreases s.len(),
{
    if s.len() == 0 {
        s
    } else {
        let prev = sort_by_start(s.drop_last());
        prev.insert(start_pos(prev, s.last()), s.last())
    }
}

/// Sorted intervals with each one that starts within or right at the end of the
/// previous merged interval joined to it.
pub open spec fn sweep(s: Seq<(i64, i64)>) -> Seq<(i64, i64)>
    decreases s.len(),
{
    if s.len() == 0 {
        seq![]
    } else {
        let prev = sweep(s.drop_last());
        let x = s.last();
        if prev.len() > 0 && x.0 <= prev.last().1 {
            let end = if x.1 > prev.last().1 {
                x.1
            } else {
                prev.last().1
            };
            prev.update(prev.len() - 1, (prev.last().0, end))
        } else {
            prev.push(x)
        }
    }
}

/// The pauses of `es` merged into disjoint intervals, in time order.
pub open spec fn merged_pauses(es: Seq<PauseEvent>) -> Seq<(i64, i64)> {
    sweep(sort_by_start(pause_intervals(es)))
}

/// The total length of a sequence of intervals.
pub open spec fn total_length(s: Seq<(i64, i64)>) -> int
    decreases s.len(),
{
    if s.len() == 0 {
        0
    } else {
        total_length(s.drop_last()) + (s.last().1 - s.last().0)
    }
}

/// The time during which some of the pauses `es` was in progress, each overlap counted once.
pub open spec fn merged_pause_total(es: Seq<PauseEvent>) -> int {
    total_length(merged_pauses(es))
}

/// Instant `t` lies in one of the intervals.
pub open spec fn covered(s: Seq<(i64, i64)>, t: int) -> bool {
    exists|i: int| 0 <= i < s.len() && (#[trigger] s[i]).0 <= t < s[i].1
}

/// Instant `t` lies within one of the ended pauses.
pub open spec fn paused_at(es: Seq<PauseEvent>, t: int) -> bool {
    exists|i: int|
        0 <= i < es.len() && match (#[trigger] es[i]).resume_ts {
            Some(r) => es[i].pause_ts <= t < r,
            None => false,
        }
}

proof fn lemma_start_pos(s: Seq<(i64, i64)>, x: (i64, i64), p: int)
    requires
        0 <= p <= s.len(),
        forall|j: int| 0 <= j < p ==> !(x.0 < (#[trigger] s[j]).0),
        p == s.len() || x.0 < s[p].0,
    ensures
        start_pos(s, x) == p,
    decreases p,
{
    if p > 0 {
        assert forall|j: int| 0 <= j < p - 1 implies !(x.0 < (#[trigger] s.drop_first()[j]).0) by {
            assert(s.drop_first()[j] == s[j + 1]);
        }
        lemma_start_pos(s.drop_first(), x, p - 1);
    }
}

proof fn lemma_start_pos_bound(s: Seq<(i64, i64)>, x: (i64, i64))
    ensures
        0 <= start_pos(s, x) <= s.len(),
        forall|j: int| 0 <= j < start_pos(s, x) ==> (#[trigger] s[j]).0 <= x.0,
        start_pos(s, x) < s.len() ==> x.0 < s[start_pos(s, x)].0,
    decreases s.len(),
{
    if s.len() > 0 && !(x.0 < s[0].0) {
        lemma_start_pos_bound(s.drop_first(), x);
        assert forall|j: int| 0 <= j < start_pos(s, x) implies (#[trigger] s[j]).0 <= x.0 by {
            if j > 0 {
                assert(s[j] == s.drop_first()[j - 1]);
            }
        }
    }
}

/// The intervals of the ended, non-empty pauses.
fn collect_intervals(es: &Vec<PauseEvent>) -> (r: Vec<(i64, i64)>)
    ensures
        r@ == pause_intervals(es@),
{
    let mut r: Vec<(i64, i64)> = Vec::new();
    let mut i: usize = 0;
    while i < es.len()
        invariant
            i <= es@.len(),
            r@ == pause_intervals(es@.take(i as int)),
        decreases es.len() - i,
    {
        let e = es[i];
        proof {
            assert(es@.take(i + 1).drop_last() == es@.take(i as int));
            assert(es@.take(i + 1).last() == e);
        }
        match e.resume_ts {
            Some(resume) => {
                if e.pause_ts < resume {
                    r.push((e.pause_ts, resume));
                }
            },
            None => {},
        }
        i += 1;
    }
    assert(es@.take(i as int) == es@);
    r
}

/// Sorts intervals by start, keeping the order of equal starts.
fn sort_intervals(v: Vec<(i64, i64)>) -> (r: Vec<(i64, i64)>)
    ensures
        r@ == sort_by_start(v@),
{
    let mut input = v;
    let ghost s = input@;
    let mut out: Vec<(i64, i64)> = Vec::new();
    let n = input.len();
    let mut i: usize = 0;
    while i < n
        invariant
            n == s.len(),
            i <= n,
            input@ == s.skip(i as int),
            out@ == sort_by_start(s.take(i as int)),
        decreases n - i,
    {
        let x = input.remove(0);
        assert(x == s[i as int]);
        assert(input@ == s.skip(i + 1));
        let mut p: usize = 0;
        while p < out.len() && !(x.0 < out[p].0)
            invariant
                p <= out@.len(),
                forall|j: int| 0 <= j < p ==> !(x.0 < (#[trigger] out@[j]).0),
            decreases out@.len() - p,
        {
            p += 1;
        }
        proof {
            lemma_start_pos(out@, x, p as int);
            assert(s.take(i + 1).drop_last() == s.take(i as int));
            assert(s.take(i + 1).last() == x);
        }
        out.insert(p, x);
        i += 1;
    }
    assert(s.take(n as int) == s);
    out
}

/// Joins sorted intervals that overlap or touch.
fn sweep_intervals(v: &Vec<(i64, i64)>) -> (r: Vec<(i64, i64)>)
    ensures
        r@ == sweep(v@),
{
    let mut r: Vec<(i64, i64)> = Vec::new();
    let mut i: usize = 0;
    while i < v.len()
        invariant
            i <= v@.len(),
            r@ == sweep(v@.take(i as int)),
        decreases v.len() - i,
    {
        let x = v[i];
        proof {
            assert(v@.take(i + 1).drop_last() == v@.take(i as int));
            assert(v@.take(i + 1).last() == x);
        }
        let n = r.len();
        if n > 0 && x.0 <= r[n - 1].1 {
            let last = r[n - 1];
            let end = if x.1 > last.1 {
                x.1
            } else {
                last.1
            };
            r.set(n - 1, (last.0, end));
        } else {
            r.push(x);
        }
        i += 1;
    }
    assert(v@.take(i as int) == v@);
    r
}

/// The pauses merged into disjoint intervals in time order.
pub fn merge_pause_intervals(es: &Vec<PauseEvent>) -> (r: Vec<(i64, i64)>)
    ensures
        r@ == merged_pauses(es@),
{
    let ivs = collect_intervals(es);
    let sorted = sort_intervals(ivs);
    sweep_intervals(&sorted)
}

/// The time during which some pause was in progress: overlapping pauses are
/// merged first, so that time is deducted only once.
pub fn merged_pause_duration(es: &Vec<PauseEvent>) -> (r: i128)
    ensures
        r == merged_pause_total(es@),
{
    let m = merge_pause_intervals(es);
    proof {
        lemma_merged_disjoint(es@);
    }
    let mut acc: i128 = 0;
    let mut k: usize = 0;
    while k < m.len()
        invariant
            k <= m@.len(),
            m@ == merged_pauses(es@),
            forall|i: int| 0 <= i < m@.len() ==> (#[trigger] m@[i]).0 < m@[i].1,
            forall|i: int, j: int| 0 <= i < j < m@.len() ==> (#[trigger] m@[i]).1 < (#[trigger] m@[j]).0,
            acc == total_length(m@.take(k as int)),
            k > 0 ==> 0 <= acc <= m@[k - 1].1 - m@[0].0,
            k == 0 ==> acc == 0,
        decreases m.len() - k,
    {
        let (s, e) = m[k];
        proof {
            assert(m@.take(k + 1).drop_last() == m@.take(k as int));
            if k > 0 {
                assert(m@[k - 1].1 < m@[k as int].0);
            }
        }
        acc = acc + (e as i128 - s as i128);
        k += 1;
    }
    assert(m@.take(k as int) == m@);
    acc
}

// ---------------------------------------------------------------------------
// Laws of merging
// ---------------------------------------------------------------------------

proof fn lemma_sort_by_start_len(s: Seq<(i64, i64)>)
    ensures
        sort_by_start(s).len() == s.len(),
    decreases s.len(),
{
    if s.len() > 0 {
        lemma_sort_by_start_len(s.drop_last());
        lemma_start_pos_bound(sort_by_start(s.drop_last()), s.last());
    }
}

proof fn lemma_sort_by_start_sorted(s: Seq<(i64, i64)>)
    ensures
        forall|i: int, j: int|
            0 <= i < j < sort_by_start(s).len() ==> (#[trigger] sort_by_start(s)[i]).0 <= (
            #[trigger] sort_by_start(s)[j]).0,
    decreases s.len(),
{
    if s.len() > 0 {
        let prev = sort_by_start(s.drop_last());
        let x = s.last();
        lemma_sort_by_start_sorted(s.drop_last());
        lemma_start_pos_bound(prev, x);
        let p = start_pos(prev, x);
        let out = prev.insert(p, x);
        assert(out == sort_by_start(s));
        prev.insert_ensures(p, x);
        assert forall|i: int, j: int| 0 <= i < j < out.len() implies (#[trigger] out[i]).0 <= (
        #[trigger] out[j]).0 by {
            if j < p {
                assert(out[i] == prev[i]);
                assert(out[j] == prev[j]);
            } else if j == p {
                assert(out[i] == prev[i]);
            } else if i < p {
                assert(out[i] == prev[i]);
                assert(out[j] == prev[j - 1]);
                assert(prev[i].0 <= x.0);
                assert(x.0 < prev[p].0);
                if p < j - 1 {
                    assert(prev[p].0 <= prev[j - 1].0);
                }
            } else if i == p {
                assert(out[j] == prev[j - 1]);
                assert(x.0 < prev[p].0);
                if p < j - 1 {
                    assert(prev[p].0 <= prev[j - 1].0);
                }
            } else {
                assert(out[i] == prev[i - 1]);
                assert(out[j] == prev[j - 1]);
            }
        }
    }
}

proof fn lemma_sort_by_start_contains(s: Seq<(i64, i64)>)
    ensures
        forall|y: (i64, i64)| #[trigger] sort_by_start(s).contains(y) <==> s.contains(y),
    decreases s.len(),
{
    if s.len() > 0 {
        let ps = s.drop_last();
        let prev = sort_by_start(ps);
        let x = s.last();
        lemma_sort_by_start_contains(ps);
        lemma_start_pos_bound(prev, x);
        let p = start_pos(prev, x);
        let out = prev.insert(p, x);
        assert(out == sort_by_start(s));
        prev.insert_ensures(p, x);
        assert forall|y: (i64, i64)| #[trigger] out.contains(y) <==> s.contains(y) by {
            if out.contains(y) {
                let k = choose|k: int| 0 <= k < out.len() && out[k] == y;
                if k == p {
                    assert(s[s.len() - 1] == y);
                } else {
                    let k2 = if k < p { k } else { k - 1 };
                    assert(prev[k2] == y);
                    assert(prev.contains(y));
                    assert(ps.contains(y));
                    let q = choose|q: int| 0 <= q < ps.len() && ps[q] == y;
                    assert(ps[q] == s[q]);
                }
            }
            if s.contains(y) {
                let k = choose|k: int| 0 <= k < s.len() && s[k] == y;
                if k == s.len() - 1 {
                    assert(out[p] == y);
                } else {
                    assert(ps[k] == y);
                    assert(ps.contains(y));
                    assert(prev.contains(y));
                    let q = choose|q: int| 0 <= q < prev.len() && prev[q] == y;
                    if q < p {
                        assert(out[q] == y);
                    } else {
                        assert(out[q + 1] == y);
                    }
                }
            }
        }
    }
}

proof fn lemma_pause_intervals(es: Seq<PauseEvent>)
    ensures
        forall|i: int|
            0 <= i < pause_intervals(es).len() ==> (#[trigger] pause_intervals(es)[i]).0
                < pause_intervals(es)[i].1,
        forall|t: int|
            #![trigger covered(pause_intervals(es), t)]
            #![trigger paused_at(es, t)]
            covered(pause_intervals(es), t) <==> paused_at(es, t),
    decreases es.len(),
{
    if es.len() > 0 {
        let prev_es = es.drop_last();
        lemma_pause_intervals(prev_es);
        let prev = pause_intervals(prev_es);
        let e = es.last();
        assert forall|t: int| covered(pause_intervals(es), t) <==> paused_at(es, t) by {
            if paused_at(es, t) {
                let i = choose|i: int|
                    0 <= i < es.len() && match (#[trigger] es[i]).resume_ts {
                        Some(r) => es[i].pause_ts <= t < r,
                        None => false,
                    };
                if i == es.len() - 1 {
                    assert(pause_interval(e) is Some);
                    let cur = pause_intervals(es);
                    assert(cur[cur.len() - 1].0 <= t < cur[cur.len() - 1].1);
                } else {
                    assert(prev_es[i] == es[i]);
                    assert(paused_at(prev_es, t));
                    let k = choose|k: int| 0 <= k < prev.len() && (#[trigger] prev[k]).0 <= t < prev[k].1;
                    assert(pause_intervals(es)[k] == prev[k]);
                }
            }
            if covered(pause_intervals(es), t) {
                let cur = pause_intervals(es);
                let k = choose|k: int| 0 <= k < cur.len() && (#[trigger] cur[k]).0 <= t < cur[k].1;
                if k < prev.len() {
                    assert(cur[k] == prev[k]);
                    assert(covered(prev, t));
                    let i = choose|i: int|
                        0 <= i < prev_es.len() && match (#[trigger] prev_es[i]).resume_ts {
                            Some(r) => prev_es[i].pause_ts <= t < r,
                            None => false,
                        };
                    assert(es[i] == prev_es[i]);
                } else {
                    let i = es.len() - 1;
                    assert(match es[i].resume_ts {
                        Some(r) => es[i].pause_ts <= t < r,
                        None => false,
                    });
                }
            }
        }
    }
}

proof fn lemma_sweep(s: Seq<(i64, i64)>)
    requires
        forall|i: int| 0 <= i < s.len() ==> (#[trigger] s[i]).0 < s[i].1,
        forall|i: int, j: int| 0 <= i < j < s.len() ==> (#[trigger] s[i]).0 <= (#[trigger] s[j]).0,
    ensures
        forall|i: int| 0 <= i < sweep(s).len() ==> (#[trigger] sweep(s)[i]).0 < sweep(s)[i].1,
        forall|i: int, j: int|
            0 <= i < j < sweep(s).len() ==> (#[trigger] sweep(s)[i]).1 < (#[trigger] sweep(s)[j]).0,
        forall|t: int|
            #![trigger covered(sweep(s), t)]
            #![trigger covered(s, t)]
            covered(sweep(s), t) <==> covered(s, t),
        s.len() > 0 ==> sweep(s).len() > 0 && sweep(s).last().0 <= s.last().0,
        s.len() > 0 ==> sweep(s)[0].0 == s[0].0,
    decreases s.len(),
{
    if s.len() > 0 {
        let ps = s.drop_last();
        lemma_sweep(ps);
        let prev = sweep(ps);
        let x = s.last();
        let cur = sweep(s);
        if prev.len() > 0 && x.0 <= prev.last().1 {
            let end = if x.1 > prev.last().1 {
                x.1
            } else {
                prev.last().1
            };
            assert(prev.last().0 <= ps.last().0);
            assert(ps.last().0 <= x.0);
            assert forall|t: int| covered(cur, t) <==> covered(s, t) by {
                if covered(cur, t) {
                    let k = choose|k: int| 0 <= k < cur.len() && (#[trigger] cur[k]).0 <= t < cur[k].1;
                    if k < prev.len() - 1 {
                        assert(cur[k] == prev[k]);
                        assert(covered(prev, t));
                        let q = choose|q: int| 0 <= q < ps.len() && (#[trigger] ps[q]).0 <= t < ps[q].1;
                        assert(s[q] == ps[q]);
                    } else {
                        if t < prev.last().1 {
                            assert(covered(prev, t));
                            let q = choose|q: int| 0 <= q < ps.len() && (#[trigger] ps[q]).0 <= t < ps[q].1;
                            assert(s[q] == ps[q]);
                        } else {
                            assert(s[s.len() - 1].0 <= t < s[s.len() - 1].1);
                        }
                    }
                }
                if covered(s, t) {
                    let q = choose|q: int| 0 <= q < s.len() && (#[trigger] s[q]).0 <= t < s[q].1;
                    if q < s.len() - 1 {
                        assert(ps[q] == s[q]);
                        assert(covered(ps, t));
                        let k = choose|k: int| 0 <= k < prev.len() && (#[trigger] prev[k]).0 <= t < prev[k].1;
                        if k < prev.len() - 1 {
                            assert(cur[k] == prev[k]);
                        } else {
                            assert(cur[k].0 <= t < cur[k].1);
                        }
                    } else {
                        let k = prev.len() - 1;
                        assert(cur[k].0 <= t < cur[k].1);
                    }
                }
            }
            assert forall|i: int, j: int| 0 <= i < j < cur.len() implies (#[trigger] cur[i]).1 < (
            #[trigger] cur[j]).0 by {
                assert(cur[i] == prev[i]);
                if j < prev.len() - 1 {
                    assert(cur[j] == prev[j]);
                } else {
                    assert(cur[j].0 == prev[j].0);
                }
            }
            assert forall|i: int| 0 <= i < cur.len() implies (#[trigger] cur[i]).0 < cur[i].1 by {
                if i < prev.len() - 1 {
                    assert(cur[i] == prev[i]);
                }
            }
            if ps.len() > 0 {
                assert(cur[0].0 == s[0].0) by {
                    if prev.len() > 1 {
                        assert(cur[0] == prev[0]);
                    }
                    assert(ps[0] == s[0]);
                }
            }
        } else {
            assert(prev.len() == 0 ==> ps.len() == 0);
            assert forall|t: int| covered(cur, t) <==> covered(s, t) by {
                if covered(cur, t) {
                    let k = choose|k: int| 0 <= k < cur.len() && (#[trigger] cur[k]).0 <= t < cur[k].1;
                    if k < prev.len() {
                        assert(cur[k] == prev[k]);
                        assert(covered(prev, t));
                        let q = choose|q: int| 0 <= q < ps.len() && (#[trigger] ps[q]).0 <= t < ps[q].1;
                        assert(s[q] == ps[q]);
                    } else {
                        assert(s[s.len() - 1].0 <= t < s[s.len() - 1].1);
                    }
                }
                if covered(s, t) {
                    let q = choose|q: int| 0 <= q < s.len() && (#[trigger] s[q]).0 <= t < s[q].1;
                    if q < s.len() - 1 {
                        assert(ps[q] == s[q]);
                        assert(covered(ps, t));
                        let k = choose|k: int| 0 <= k < prev.len() && (#[trigger] prev[k]).0 <= t < prev[k].1;
                        assert(cur[k] == prev[k]);
                    } else {
                        assert(cur[cur.len() - 1] == x);
                    }
                }
            }
            assert forall|i: int, j: int| 0 <= i < j < cur.len() implies (#[trigger] cur[i]).1 < (
            #[trigger] cur[j]).0 by {
                assert(cur[i] == prev[i]);
                if j < prev.len() {
                    assert(cur[j] == prev[j]);
                } else {
                    assert(prev[i].1 <= prev.last().1) by {
                        if i < prev.len() - 1 {
                            assert(prev[i].1 < prev[prev.len() - 1].0);
                        }
                    }
                }
            }
            assert forall|i: int| 0 <= i < cur.len() implies (#[trigger] cur[i]).0 < cur[i].1 by {
                if i < prev.len() {
                    assert(cur[i] == prev[i]);
                }
            }
            if ps.len() > 0 {
                assert(cur[0] == prev[0]);
                assert(ps[0] == s[0]);
            }
        }
    }
}

proof fn lemma_merged_disjoint(es: Seq<PauseEvent>)
    ensures
        forall|i: int| 0 <= i < merged_pauses(es).len() ==> (#[trigger] merged_pauses(es)[i]).0
            < merged_pauses(es)[i].1,
        forall|i: int, j: int|
            0 <= i < j < merged_pauses(es).len() ==> (#[trigger] merged_pauses(es)[i]).1 < (
            #[trigger] merged_pauses(es)[j]).0,
        forall|t: int| covered(merged_pauses(es), t) <==> paused_at(es, t),
{
    let ivs = pause_intervals(es);
    lemma_pause_intervals(es);
    lemma_sort_by_start_len(ivs);
    lemma_sort_by_start_sorted(ivs);
    lemma_sort_by_start_contains(ivs);
    let sorted = sort_by_start(ivs);
    assert forall|i: int| 0 <= i < sorted.len() implies (#[trigger] sorted[i]).0 < sorted[i].1 by {
        assert(sorted.contains(sorted[i]));
        assert(ivs.contains(sorted[i]));
    }
    assert forall|t: int| covered(sorted, t) <==> covered(ivs, t) by {
        if covered(sorted, t) {
            let k = choose|k: int| 0 <= k < sorted.len() && (#[trigger] sorted[k]).0 <= t < sorted[k].1;
            assert(sorted.contains(sorted[k]));
            assert(ivs.contains(sorted[k]));
            let q = choose|q: int| 0 <= q < ivs.len() && ivs[q] == sorted[k];
            assert(ivs[q].0 <= t < ivs[q].1);
        }
        if covered(ivs, t) {
            let q = choose|q: int| 0 <= q < ivs.len() && (#[trigger] ivs[q]).0 <= t < ivs[q].1;
            assert(ivs.contains(ivs[q]));
            assert(sorted.contains(ivs[q]));
            let k = choose|k: int| 0 <= k < sorted.len() && sorted[k] == ivs[q];
            assert(sorted[k].0 <= t < sorted[k].1);
        }
    }
    lemma_sweep(sorted);
}

/// The merged paused time is never negative and fits well within `i128`.
pub proof fn lemma_merged_total_bounds(es: Seq<PauseEvent>)
    ensures
        0 <= merged_pause_total(es) <= 0x1_0000_0000_0000_0000,
{
    lemma_merged_disjoint(es);
    let m = merged_pauses(es);
    lemma_total_length_bound(m);
}

proof fn lemma_total_length_bound(m: Seq<(i64, i64)>)
    requires
        forall|i: int| 0 <= i < m.len() ==> (#[trigger] m[i]).0 < m[i].1,
        forall|i: int, j: int| 0 <= i < j < m.len() ==> (#[trigger] m[i]).1 < (#[trigger] m[j]).0,
    ensures
        m.len() == 0 ==> total_length(m) == 0,
        m.len() > 0 ==> 0 <= total_length(m) <= m.last().1 - m[0].0,
    decreases m.len(),
{
    if m.len() > 0 {
        let p = m.drop_last();
        lemma_total_length_bound(p);
        if p.len() > 0 {
            assert(m[p.len() - 1].1 < m[m.len() - 1].0);
            assert(p[0] == m[0]);
        }
    }
}

/// Merging pauses loses and adds no time: an instant lies in a merged interval
/// exactly when some pause was in progress then; the merged intervals are
/// non-empty, in time order and separated by gaps, so their lengths add up to the
/// paused time with every overlap counted once.
pub proof fn lemma_merged_pauses_cover_once(es: Seq<PauseEvent>)
    ensures
        forall|t: int| covered(merged_pauses(es), t) <==> paused_at(es, t),
        forall|i: int| 0 <= i < merged_pauses(es).len() ==> (#[trigger] merged_pauses(es)[i]).0
            < merged_pauses(es)[i].1,
        forall|i: int, j: int|
            0 <= i < j < merged_pauses(es).len() ==> (#[trigger] merged_pauses(es)[i]).1 < (
            #[trigger] merged_pauses(es)[j]).0,
        merged_pause_total(es) == total_length(merged_pauses(es)),
{
    lemma_merged_disjoint(es);
}


// ---------------------------------------------------------------------------
// The compressed time axis of the charts
// ---------------------------------------------------------------------------

/// The part of the interval `iv` that lies before instant `t`.
pub open spec fn part_before(iv: (i64, i64), t: int) -> int {
    if t <= iv.0 {
        0
    } else if t >= iv.1 {
        iv.1 - iv.0
    } else {
        t - iv.0
    }
}

/// The time that the intervals cover before instant `t`.
pub open spec fn time_before(m: Seq<(i64, i64)>, t: int) -> int
    decreases m.len(),
{
    if m.len() == 0 {
        0
    } else {
        time_before(m.drop_last(), t) + part_before(m.last(), t)
    }
}

/// The paused time before instant `t`, overlapping pauses counted once.
pub open spec fn pause_time_before(es: Seq<PauseEvent>, t: int) -> int {
    time_before(merged_pauses(es), t)
}

/// Where instant `t` lies on a time axis that starts at `origin` and leaves out the
/// paused time.
pub open spec fn compressed_offset(es: Seq<PauseEvent>, origin: int, t: int) -> int {
    (t - origin) - (pause_time_before(es, t) - pause_time_before(es, origin))
}

proof fn lemma_time_before_bounds(m: Seq<(i64, i64)>, t: int)
    requires
        forall|i: int| 0 <= i < m.len() ==> (#[trigger] m[i]).0 < m[i].1,
    ensures
        0 <= time_before(m, t) <= total_length(m),
    decreases m.len(),
{
    if m.len() > 0 {
        lemma_time_before_bounds(m.drop_last(), t);
    }
}

proof fn lemma_time_before_all(m: Seq<(i64, i64)>, t: int)
    requires
        forall|i: int| 0 <= i < m.len() ==> (#[trigger] m[i]).1 <= t,
        forall|i: int| 0 <= i < m.len() ==> (#[trigger] m[i]).0 < m[i].1,
    ensures
        time_before(m, t) == total_length(m),
    decreases m.len(),
{
    if m.len() > 0 {
        let d = m.drop_last();
        assert forall|i: int| 0 <= i < d.len() implies (#[trigger] d[i]).1 <= t && d[i].0 < d[i].1 by {
            assert(d[i] == m[i]);
        }
        lemma_time_before_all(d, t);
        assert(m[m.len() - 1].0 < m[m.len() - 1].1);
    }
}

proof fn lemma_time_before_none(m: Seq<(i64, i64)>, t: int)
    requires
        forall|i: int| 0 <= i < m.len() ==> t <= (#[trigger] m[i]).0,
    ensures
        time_before(m, t) == 0,
    decreases m.len(),
{
    if m.len() > 0 {
        let d = m.drop_last();
        assert forall|i: int| 0 <= i < d.len() implies t <= (#[trigger] d[i]).0 by {
            assert(d[i] == m[i]);
        }
        lemma_time_before_none(d, t);
    }
}

/// The paused time before an instant (see `pause_time_before`).
pub fn paused_time_before(es: &Vec<PauseEvent>, t: i64) -> (r: i128)
    ensures
        r == pause_time_before(es@, t as int),
        0 <= r <= merged_pause_total(es@),
{
    let m = merge_pause_intervals(es);
    proof {
        lemma_merged_disjoint(es@);
        lemma_merged_total_bounds(es@);
    }
    let mut acc: i128 = 0;
    let mut i: usize = 0;
    assert(m@.take(0) =~= Seq::<(i64, i64)>::empty());
    while i < m.len()
        invariant
            i <= m@.len(),
            m@ == merged_pauses(es@),
            forall|k: int| 0 <= k < m@.len() ==> (#[trigger] m@[k]).0 < m@[k].1,
            forall|a: int, b: int| 0 <= a < b < m@.len() ==> (#[trigger] m@[a]).1 < (#[trigger] m@[b]).0,
            acc == time_before(m@.take(i as int), t as int),
            0 <= total_length(m@) <= 0x1_0000_0000_0000_0000,
        decreases m.len() - i,
    {
        let (a, b) = m[i];
        proof {
            assert(m@.take(i + 1).drop_last() =~= m@.take(i as int));
            assert(m@.take(i + 1).last() == m@[i as int]);
            let pre = m@.take(i + 1);
            assert forall|k: int| 0 <= k < pre.len() implies (#[trigger] pre[k]).0 < pre[k].1 by {
                assert(pre[k] == m@[k]);
            }
            assert forall|x: int, y: int| 0 <= x < y < pre.len() implies (#[trigger] pre[x]).1 < (#[trigger] pre[y]).0 by {
                assert(pre[x] == m@[x]);
                assert(pre[y] == m@[y]);
            }
            lemma_time_before_bounds(pre, t as int);
            lemma_total_length_bound(pre);
            lemma_total_length_bound(m@);
            lemma_total_length_prefix(m@, i + 1);
        }
        let part: i128 = if t <= a {
            0
        } else if t >= b {
            b as i128 - a as i128
        } else {
            t as i128 - a as i128
        };
        acc = acc + part;
        i += 1;
    }
    assert(m@.take(m@.len() as int) =~= m@);
    proof {
        lemma_time_before_bounds(m@, t as int);
    }
    acc
}

proof fn lemma_total_length_prefix(m: Seq<(i64, i64)>, n: int)
    requires
        0 <= n <= m.len(),
        forall|i: int| 0 <= i < m.len() ==> (#[trigger] m[i]).0 < m[i].1,
    ensures
        total_length(m.take(n)) <= total_length(m),
    decreases m.len() - n,
{
    if n < m.len() {
        lemma_total_length_prefix(m.drop_last(), n);
        assert(m.drop_last().take(n) =~= m.take(n));
        assert forall|i: int| 0 <= i < m.drop_last().len() implies (#[trigger] m.drop_last()[i]).0 < m.drop_last()[i].1 by {
            assert(m.drop_last()[i] == m[i]);
        }
    } else {
        assert(m.take(n) =~= m);
    }
}

/// Where an instant lies on a chart axis that starts at `origin` and leaves out the
/// paused time (see `compressed_offset`).
pub fn compressed_time(es: &Vec<PauseEvent>, origin: i64, t: i64) -> (r: i128)
    ensures
        r == compressed_offset(es@, origin as int, t as int),
        -0x3_0000_0000_0000_0000 <= r <= 0x3_0000_0000_0000_0000,
{
    let before_t = paused_time_before(es, t);
    let before_origin = paused_time_before(es, origin);
    proof {
        lemma_merged_total_bounds(es@);
    }
    (t as i128 - origin as i128) - (before_t - before_origin)
}

/// On the compressed axis a round whose pauses all lie within it spans exactly its
/// working time: its length minus the paused time, overlaps counted once.
pub proof fn lemma_compressed_round(es: Seq<PauseEvent>, start: i64, end: i64)
    requires
        start <= end,
        forall|i: int|
            0 <= i < merged_pauses(es).len() ==> start <= (#[trigger] merged_pauses(es)[i]).0
                && merged_pauses(es)[i].1 <= end,
    ensures
        compressed_offset(es, start as int, start as int) == 0,
        compressed_offset(es, start as int, end as int) == (end - start) - merged_pause_total(es),
        0 <= compressed_offset(es, start as int, end as int) <= end - start,
{
    let m = merged_pauses(es);
    lemma_merged_disjoint(es);
    lemma_time_before_all(m, end as int);
    lemma_time_before_none(m, start as int);
    lemma_total_length_bound(m);
    if m.len() > 0 {
        assert(start <= m[0].0);
        assert(m[m.len() - 1].1 <= end);
    }
}

/// Past the end of every interval, the covered time no longer grows.
proof fn lemma_time_before_saturates(m: Seq<(i64, i64)>, l: int, t: int)
    requires
        forall|i: int| 0 <= i < m.len() ==> (#[trigger] m[i]).0 < m[i].1,
        forall|i: int| 0 <= i < m.len() ==> (#[trigger] m[i]).1 <= l,
        l <= t,
    ensures
        time_before(m, t) == time_before(m, l),
    decreases m.len(),
{
    if m.len() > 0 {
        let d = m.drop_last();
        assert forall|i: int| 0 <= i < d.len() implies (#[trigger] d[i]).0 < d[i].1 && d[i].1 <= l by {
            assert(d[i] == m[i]);
        }
        lemma_time_before_saturates(d, l, t);
        assert(m[m.len() - 1].1 <= l);
    }
}

/// Between two instants the covered time grows by at most the time between them.
proof fn lemma_time_before_growth(m: Seq<(i64, i64)>, a: int, b: int)
    requires
        forall|i: int| 0 <= i < m.len() ==> (#[trigger] m[i]).0 < m[i].1,
        forall|i: int, j: int| 0 <= i < j < m.len() ==> (#[trigger] m[i]).1 < (#[trigger] m[j]).0,
        a <= b,
    ensures
        0 <= time_before(m, b) - time_before(m, a) <= b - a,
    decreases m.len(),
{
    if m.len() > 0 {
        let d = m.drop_last();
        let last = m[m.len() - 1];
        let l = last.0 as int;
        assert forall|i: int| 0 <= i < d.len() implies (#[trigger] d[i]).0 < d[i].1 && d[i].1 <= l by {
            assert(d[i] == m[i]);
            assert(m[i].1 < m[m.len() - 1].0);
        }
        assert forall|i: int, j: int| 0 <= i < j < d.len() implies (#[trigger] d[i]).1 < (#[trigger] d[j]).0 by {
            assert(d[i] == m[i]);
            assert(d[j] == m[j]);
        }
        assert(last.0 < last.1);
        if b <= l {
            lemma_time_before_growth(d, a, b);
        } else if a >= l {
            lemma_time_before_saturates(d, l, a);
            lemma_time_before_saturates(d, l, b);
        } else {
            lemma_time_before_growth(d, a, l);
            lemma_time_before_saturates(d, l, b);
        }
    }
}

/// The compressed axis never runs backwards: a later instant lies no earlier on it.
pub proof fn lemma_compressed_monotone(es: Seq<PauseEvent>, origin: int, a: int, b: int)
    requires
        a <= b,
    ensures
        compressed_offset(es, origin, a) <= compressed_offset(es, origin, b),
{
    lemma_merged_disjoint(es);
    lemma_time_before_growth(merged_pauses(es), a, b);
}

/// What runs within a round whose pauses all lie within it stays within the round's
/// working time on the compressed axis: it starts at or after 0 and ends at or before
/// the round's length minus its paused time.
pub proof fn lemma_fits_working_time(es: Seq<PauseEvent>, start: i64, end: i64, s: i64, e: i64)
    requires
        start <= s <= e <= end,
        forall|i: int|
            0 <= i < merged_pauses(es).len() ==> start <= (#[trigger] merged_pauses(es)[i]).0
                && merged_pauses(es)[i].1 <= end,
    ensures
        0 <= compressed_offset(es, start as int, s as int),
        compressed_offset(es, start as int, s as int) <= compressed_offset(es, start as int, e as int),
        compressed_offset(es, start as int, e as int) <= (end - start) - merged_pause_total(es),
{
    lemma_compressed_round(es, start, end);
    lemma_compressed_monotone(es, start as int, start as int, s as int);
    lemma_compressed_monotone(es, start as int, s as int, e as int);
    lemma_compressed_monotone(es, start as int, e as int, end as int);
}

} // verus!
