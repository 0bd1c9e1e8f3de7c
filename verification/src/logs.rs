//! Reading log text: the timestamped lines of a master-control log (in time order)
//! and of an arm-decision log (in file order).

use vstd::prelude::*;
use crate::lines::{line_ranges, split_lines};
use crate::pattern::{group_text, regex_captures, regex_valid, take_group_text, Matcher};
use crate::rounds::{line_views, LogLine};
use crate::text::{owned, parse_seconds_nanos, seconds_nanos, string_from_chars, to_chars};

verus! {

/// The timestamp of a master-control log line; group 1 is the time in seconds.
pub const LOG_TIMESTAMP_PATTERN: &'static str = r"\[(?:INFO|WARN|ERROR|DEBUG)\]\s*\[(\d{9,}\.\d+)\]";

/// The timestamp of an arm-decision log line; group 1 is the time in seconds.
pub const ARM_DECISION_TIMESTAMP_PATTERN: &'static str = r"\[INFO\]\s*\[(\d+\.\d+)\]";

/// The line with its timestamp in nanoseconds, when the timestamp pattern `p` finds
/// a time in it that fits an `i64`.
pub open spec fn stamped(p: Seq<char>, line: Seq<char>) -> Option<(i64, Seq<char>)> {
    match regex_captures(p, line) {
        Some(c) => match seconds_nanos(group_text(c, 1)) {
            Some(v) => if v <= i64::MAX {
                Some((v as i64, line))
            } else {
                None
            },
            None => None,
        },
        None => None,
    }
}

/// The timestamped lines among `lines`, in their order.
pub open spec fn stamped_lines(p: Seq<char>, lines: Seq<Seq<char>>) -> Seq<(i64, Seq<char>)>
    decreases lines.len(),
{
    if lines.len() == 0 {
        seq![]
    } else {
        let prev = stamped_lines(p, lines.drop_last());
        match stamped(p, lines.last()) {
            Some(x) => prev.push(x),
            None => prev,
        }
    }
}

/// Where a stable sort by time puts a line at `t` among the sorted lines `s`: after
/// every line that is not later than it.
pub open spec fn time_pos(s: Seq<(i64, Seq<char>)>, t: i64) -> int
    decreases s.len(),
{
    if s.len() == 0 {
        0
    } else if t < s.last().0 {
        time_pos(s.drop_last(), t)
    } else {
        s.len() as int
    }
}

/// The lines sorted by time, lines with equal times in their original order.
pub open spec fn sort_by_time(s: Seq<(i64, Seq<char>)>) -> Seq<(i64, Seq<char>)>
    decreases s.len(),
{
    if s.len() == 0 {
        s
    } else {
        let prev = sort_by_time(s.drop_last());
        prev.insert(time_pos(prev, s.last().0), s.last())
    }
}

/// The lines of a master-control log: the timestamped ones, sorted by time.
pub open spec fn parsed_log(content: Seq<char>) -> Seq<(i64, Seq<char>)> {
    sort_by_time(stamped_lines(LOG_TIMESTAMP_PATTERN@, split_lines(content)))
}

/// The lines of an arm-decision log: the timestamped ones, in file order.
pub open spec fn parsed_arm_decision_log(content: Seq<char>) -> Seq<(i64, Seq<char>)> {
    stamped_lines(ARM_DECISION_TIMESTAMP_PATTERN@, split_lines(content))
}

/// The timestamp of a line, by a compiled timestamp pattern.
fn stamp_of(m: &Matcher, line: &str) -> (r: Option<i64>)
    ensures
        match stamped(m.source(), line@) {
            Some(x) => r == Some(x.0),
            None => r is None,
        },
{
    match m.captures(line) {
        Some(v) => {
            let g = take_group_text(&v, 1);
            let gs = to_chars(g.as_str());
            assert(gs@.subrange(0, gs@.len() as int) =~= gs@);
            match parse_seconds_nanos(&gs, 0, gs.len()) {
                Some(t) => {
                    if t <= i64::MAX as u64 {
                        Some(t as i64)
                    } else {
                        None
                    }
                },
                None => None,
            }
        },
        None => None,
    }
}

/// Inserts a line into lines sorted by time, after the lines that are not later.
fn insert_by_time(out: &mut Vec<LogLine>, l: LogLine)
    ensures
        line_views(final(out)@) == line_views(old(out)@).insert(
            time_pos(line_views(old(out)@), l.timestamp),
            (l.timestamp, l.line@),
        ),
{
    let ghost o = line_views(out@);
    let t = l.timestamp;
    let mut p = out.len();
    assert(o.take(p as int) =~= o);
    while p > 0 && t < out[p - 1].timestamp
        invariant
            p <= out@.len(),
            o == line_views(out@),
            o.len() == out@.len(),
            time_pos(o, t) == time_pos(o.take(p as int), t),
        decreases p,
    {
        proof {
            assert(o.take(p as int).drop_last() =~= o.take(p - 1));
        }
        p -= 1;
    }
    proof {
        if p > 0 {
            assert(o.take(p as int).last() == o[p - 1]);
        }
    }
    let ghost before = out@;
    out.insert(p, l);
    assert(line_views(out@) =~= o.insert(p as int, (l.timestamp, l.line@)));
}

/// The timestamped lines of `content` by the timestamp pattern `m`, sorted by time
/// when `sorted`.
fn stamped_lines_of(m: &Matcher, content: &str, sorted: bool) -> (r: Vec<LogLine>)
    ensures
        line_views(r@) == if sorted {
            sort_by_time(stamped_lines(m.source(), split_lines(content@)))
        } else {
            stamped_lines(m.source(), split_lines(content@))
        },
{
    let cs = to_chars(content);
    let ranges = line_ranges(&cs);
    let ghost ls = split_lines(content@);
    let mut out: Vec<LogLine> = Vec::new();
    let mut i: usize = 0;
    assert(ls.take(0) =~= Seq::<Seq<char>>::empty());
    assert(line_views(out@) =~= seq![]);
    while i < ranges.len()
        invariant
            cs@ == content@,
            ls == split_lines(cs@),
            ranges@.len() == ls.len(),
            forall|j: int|
                #![trigger ranges@[j]]
                0 <= j < ranges@.len() ==> {
                    &&& ranges@[j].0 <= ranges@[j].1 <= cs@.len()
                    &&& ls[j] == cs@.subrange(ranges@[j].0 as int, ranges@[j].1 as int)
                },
            i <= ranges@.len(),
            line_views(out@) == if sorted {
                sort_by_time(stamped_lines(m.source(), ls.take(i as int)))
            } else {
                stamped_lines(m.source(), ls.take(i as int))
            },
        decreases ranges.len() - i,
    {
        let (a, b) = ranges[i];
        let text = string_from_chars(&cs, a, b);
        proof {
            assert(ls.take(i + 1).drop_last() =~= ls.take(i as int));
            assert(ls.take(i + 1).last() == text@);
        }
        let ghost prev = stamped_lines(m.source(), ls.take(i as int));
        match stamp_of(m, text.as_str()) {
            Some(t) => {
                proof {
                    assert(stamped(m.source(), text@) == Some((t, text@)));
                    assert(stamped_lines(m.source(), ls.take(i + 1)) == prev.push((t, text@)));
                    assert(prev.push((t, text@)).drop_last() =~= prev);
                }
                let l = LogLine { timestamp: t, line: text };
                if sorted {
                    insert_by_time(&mut out, l);
                } else {
                    let ghost before = out@;
                    out.push(l);
                    assert(line_views(out@) =~= line_views(before).push((t, l.line@)));
                }
            },
            None => {
                assert(stamped_lines(m.source(), ls.take(i + 1)) == prev);
            },
        }
        i += 1;
    }
    assert(ls.take(ranges@.len() as int) =~= ls);
    out
}

/// The timestamped lines of a master-control log, sorted by time (see `parsed_log`).
/// Fails only when the timestamp pattern does not compile.
pub fn parse_log_lines(content: &str) -> (r: Result<Vec<LogLine>, String>)
    ensures
        r is Ok <==> regex_valid(LOG_TIMESTAMP_PATTERN@),
        r matches Ok(v) ==> line_views(v@) == parsed_log(content@),
{
    match Matcher::compile(LOG_TIMESTAMP_PATTERN) {
        Some(m) => Ok(stamped_lines_of(&m, content, true)),
        None => Err(owned("timestamp pattern does not compile")),
    }
}

/// The timestamped lines of an arm-decision log, in file order (see
/// `parsed_arm_decision_log`). Fails only when the timestamp pattern does not compile.
pub fn parse_arm_decision_log_lines(content: &str) -> (r: Result<Vec<LogLine>, String>)
    ensures
        r is Ok <==> regex_valid(ARM_DECISION_TIMESTAMP_PATTERN@),
        r matches Ok(v) ==> line_views(v@) == parsed_arm_decision_log(content@),
{
    match Matcher::compile(ARM_DECISION_TIMESTAMP_PATTERN) {
        Some(m) => Ok(stamped_lines_of(&m, content, false)),
        None => Err(owned("timestamp pattern does not compile")),
    }
}

// ---------------------------------------------------------------------------
// Laws
// ---------------------------------------------------------------------------

/// Lines sorted by time.
pub open spec fn time_sorted(s: Seq<(i64, Seq<char>)>) -> bool {
    forall|i: int, j: int| 0 <= i < j < s.len() ==> (#[trigger] s[i]).0 <= (#[trigger] s[j]).0
}

proof fn lemma_time_pos(s: Seq<(i64, Seq<char>)>, t: i64)
    requires
        time_sorted(s),
    ensures
        0 <= time_pos(s, t) <= s.len(),
        forall|j: int| 0 <= j < time_pos(s, t) ==> (#[trigger] s[j]).0 <= t,
        time_pos(s, t) < s.len() ==> t < s[time_pos(s, t)].0,
    decreases s.len(),
{
    if s.len() > 0 {
        let d = s.drop_last();
        assert(time_sorted(d)) by {
            assert forall|i: int, j: int| 0 <= i < j < d.len() implies (#[trigger] d[i]).0 <= (#[trigger] d[j]).0 by {
                assert(d[i] == s[i]);
                assert(d[j] == s[j]);
            }
        }
        if t < s.last().0 {
            lemma_time_pos(d, t);
            let p = time_pos(d, t);
            assert forall|j: int| 0 <= j < p implies (#[trigger] s[j]).0 <= t by {
                assert(s[j] == d[j]);
            }
            if p < d.len() {
                assert(s[p] == d[p]);
            }
        } else {
            assert forall|j: int| 0 <= j < s.len() implies (#[trigger] s[j]).0 <= t by {
                if j < s.len() - 1 {
                    assert(s[j].0 <= s[s.len() - 1].0);
                }
            }
        }
    }
}

proof fn lemma_sort_by_time(s: Seq<(i64, Seq<char>)>)
    ensures
        time_sorted(sort_by_time(s)),
        sort_by_time(s).len() == s.len(),
        sort_by_time(s).to_multiset() == s.to_multiset(),
    decreases s.len(),
{
    if s.len() > 0 {
        let ps = s.drop_last();
        let prev = sort_by_time(ps);
        let x = s.last();
        lemma_sort_by_time(ps);
        lemma_time_pos(prev, x.0);
        let p = time_pos(prev, x.0);
        let out = prev.insert(p, x);
        assert(out == sort_by_time(s));
        prev.insert_ensures(p, x);
        assert forall|i: int, j: int| 0 <= i < j < out.len() implies (#[trigger] out[i]).0 <= (
        #[trigger] out[j]).0 by {
            if j < p {
                assert(out[i] == prev[i]);
                assert(out[j] == prev[j]);
            } else if j == p {
                assert(out[i] == prev[i]);
            } else if i < p {
                assert(out[i] == prev[i]);
                assert(out[j] == prev[j - 1]);
                if p < j - 1 {
                    assert(prev[p].0 <= prev[j - 1].0);
                }
            } else if i == p {
                assert(out[j] == prev[j - 1]);
                if p < j - 1 {
                    assert(prev[p].0 <= prev[j - 1].0);
                }
            } else {
                assert(out[i] == prev[i - 1]);
                assert(out[j] == prev[j - 1]);
            }
        }
        vstd::seq_lib::to_multiset_insert(prev, p, x);
        assert(s =~= ps.push(x));
        vstd::seq_lib::to_multiset_build(ps, x);
    }
}

/// The lines of a master-control log come out in time order, and they are exactly
/// its timestamped lines, each once.
pub proof fn lemma_parsed_log_sorted(content: Seq<char>)
    ensures
        time_sorted(parsed_log(content)),
        parsed_log(content).to_multiset() == stamped_lines(LOG_TIMESTAMP_PATTERN@, split_lines(content)).to_multiset(),
{
    lemma_sort_by_time(stamped_lines(LOG_TIMESTAMP_PATTERN@, split_lines(content)));
}

} // verus!
