//! Splitting text into lines and fields, as `str::lines` and `str::split` do.

use vstd::prelude::*;

verus! {

/// The position of the first `sep` in `s`, or `s.len()` when there is none.
pub open spec fn find_char(s: Seq<char>, sep: char) -> nat
    decreases s.len(),
{
    if s.len() == 0 {
        0
    } else if s[0] == sep {
        0
    } else {
        1 + find_char(s.drop_first(), sep)
    }
}

/// A line without its terminating `\r`, if any (used only for lines that ended in `\n`).
pub open spec fn strip_cr(line: Seq<char>) -> Seq<char> {
    if line.len() > 0 && line.last() == '\r' {
        line.drop_last()
    } else {
        line
    }
}

/// The lines of `s` as `str::lines` yields them: split at `\n`, a `\r` before the
/// `\n` removed, and no empty line after a final line ending.
pub open spec fn split_lines(s: Seq<char>) -> Seq<Seq<char>>
    decreases s.len(),
{
    if s.len() == 0 {
        seq![]
    } else {
        let k = find_char(s, '\n') as int;
        if k >= s.len() {
            seq![s]
        } else {
            seq![strip_cr(s.take(k))] + split_lines(s.skip(k + 1))
        }
    }
}

/// The pieces of `s` between occurrences of `sep`, as `str::split(sep)` yields them
/// (always at least one piece, empty pieces kept).
pub open spec fn split_on(s: Seq<char>, sep: char) -> Seq<Seq<char>>
    decreases s.len(),
{
    let k = find_char(s, sep) as int;
    if k >= s.len() {
        seq![s]
    } else {
        seq![s.take(k)] + split_on(s.skip(k + 1), sep)
    }
}

/// `find_char` gives the first position holding `sep`, or the length when none does.
pub proof fn lemma_find_char(s: Seq<char>, sep: char, k: int)
    requires
        0 <= k <= s.len(),
        forall|j: int| 0 <= j < k ==> s[j] != sep,
        k == s.len() || s[k] == sep,
    ensures
        find_char(s, sep) == k,
    decreases k,
{
    if k > 0 {
        lemma_find_char(s.drop_first(), sep, k - 1);
    }
}

/// `find_char` stays within the sequence, lands on `sep` when below its length,
/// and no earlier position holds `sep`.
pub proof fn lemma_find_char_bound(s: Seq<char>, sep: char)
    ensures
        find_char(s, sep) <= s.len(),
        find_char(s, sep) < s.len() ==> s[find_char(s, sep) as int] == sep,
        forall|j: int| 0 <= j < find_char(s, sep) ==> s[j] != sep,
    decreases s.len(),
{
    if s.len() > 0 && s[0] != sep {
        lemma_find_char_bound(s.drop_first(), sep);
        assert forall|j: int| 0 <= j < find_char(s, sep) implies s[j] != sep by {
            if j > 0 {
                assert(s[j] == s.drop_first()[j - 1]);
            }
        }
    }
}

/// The first position `k >= from` with `cs[k] == sep`, or `to` when there is none before `to`.
pub fn find_char_in(cs: &Vec<char>, from: usize, to: usize, sep: char) -> (k: usize)
    requires
        from <= to <= cs.len(),
    ensures
        from <= k <= to,
        k - from == find_char(cs@.subrange(from as int, to as int), sep),
{
    let mut k = from;
    while k < to && cs[k] != sep
        invariant
            from <= k <= to <= cs.len(),
            forall|j: int| from <= j < k ==> cs@[j] != sep,
        decreases to - k,
    {
        k += 1;
    }
    proof {
        let s = cs@.subrange(from as int, to as int);
        lemma_find_char(s, sep, k - from);
    }
    k
}

/// The bounds `(start, end)` of the lines of `cs[from..to]`, each an index range into `cs`.
pub fn line_ranges(cs: &Vec<char>) -> (r: Vec<(usize, usize)>)
    ensures
        r@.len() == split_lines(cs@).len(),
        forall|i: int|
#![trigger r@[i]]
            0 <= i < r@.len() ==> {
                &&& r@[i].0 <= r@[i].1 <= cs@.len()
                &&& split_lines(cs@)[i] == cs@.subrange(r@[i].0 as int, r@[i].1 as int)
            },
{
    let mut r: Vec<(usize, usize)> = Vec::new();
    let n = cs.len();
    let mut pos: usize = 0;
    let ghost mut done: Seq<Seq<char>> = seq![];
    assert(cs@.skip(0) == cs@);
    assert(done + split_lines(cs@) == split_lines(cs@));
    while pos < n
        invariant
            pos <= n == cs.len(),
            split_lines(cs@) == done + split_lines(cs@.skip(pos as int)),
            r@.len() == done.len(),
            forall|i: int|
#![trigger r@[i]]
                0 <= i < r@.len() ==> {
                    &&& r@[i].0 <= r@[i].1 <= cs@.len()
                    &&& done[i] == cs@.subrange(r@[i].0 as int, r@[i].1 as int)
                },
        decreases n - pos,
    {
        let k = find_char_in(cs, pos, n, '\n');
        let ghost rest = cs@.skip(pos as int);
        let ghost old_r = r@;
        let ghost old_done = done;
        assert(cs@.subrange(pos as int, n as int) == rest);
        if k == n {
            assert(split_lines(rest) == seq![rest]);
            r.push((pos, n));
            proof {
                assert(rest == cs@.subrange(pos as int, n as int));
                done = done.push(rest);
                assert(cs@.skip(n as int) == Seq::<char>::empty());
                assert(split_lines(cs@.skip(n as int)) == Seq::<Seq<char>>::empty());
            }
            pos = n;
        } else {
            let mut end = k;
            if end > pos && cs[end - 1] == '\r' {
                end = end - 1;
            }
            proof {
                let line = rest.take(k - pos);
                assert(line == cs@.subrange(pos as int, k as int));
                assert(strip_cr(line) == cs@.subrange(pos as int, end as int));
                assert(rest.skip(k - pos + 1) == cs@.skip(k + 1));
                assert(split_lines(rest) == seq![strip_cr(line)] + split_lines(cs@.skip(k + 1)));
                done = done.push(strip_cr(line));
            }
            r.push((pos, end));
            pos = k + 1;
        }
        proof {
            assert forall|i: int| #![trigger r@[i]] 0 <= i < r@.len() implies {
                &&& r@[i].0 <= r@[i].1 <= cs@.len()
                &&& done[i] == cs@.subrange(r@[i].0 as int, r@[i].1 as int)
            } by {
                if i < old_r.len() {
                    assert(r@[i] == old_r[i]);
                    assert(done[i] == old_done[i]);
                }
            }
        }
    }
    proof {
        assert(cs@.skip(pos as int) == Seq::<char>::empty());
        assert(done + Seq::<Seq<char>>::empty() == done);
        assert(split_lines(cs@) == done);
        assert forall|i: int| #![trigger r@[i]] 0 <= i < r@.len() implies {
            &&& r@[i].0 <= r@[i].1 <= cs@.len()
            &&& split_lines(cs@)[i] == cs@.subrange(r@[i].0 as int, r@[i].1 as int)
        } by {
            assert(done[i] == split_lines(cs@)[i]);
        }
    }
    r
}

/// The bounds of the pieces of `cs[from..to]` separated by `sep`.
pub fn split_ranges(cs: &Vec<char>, from: usize, to: usize, sep: char) -> (r: Vec<(usize, usize)>)
    requires
        from <= to <= cs.len(),
    ensures
        r@.len() == split_on(cs@.subrange(from as int, to as int), sep).len(),
        forall|i: int|
#![trigger r@[i]]
            0 <= i < r@.len() ==> {
                &&& from <= r@[i].0 <= r@[i].1 <= to
                &&& split_on(cs@.subrange(from as int, to as int), sep)[i]
                    == cs@.subrange(r@[i].0 as int, r@[i].1 as int)
            },
{
    let ghost whole = cs@.subrange(from as int, to as int);
    let mut r: Vec<(usize, usize)> = Vec::new();
    let mut pos = from;
    let ghost mut done: Seq<Seq<char>> = seq![];
    assert(done + split_on(whole, sep) == split_on(whole, sep));
    loop
        invariant_except_break
            split_on(whole, sep) == done + split_on(cs@.subrange(pos as int, to as int), sep),
            r@.len() == done.len(),
            forall|i: int|
#![trigger r@[i]]
                0 <= i < r@.len() ==> {
                    &&& from <= r@[i].0 <= r@[i].1 <= to
                    &&& done[i] == cs@.subrange(r@[i].0 as int, r@[i].1 as int)
                },
        invariant
            from <= pos <= to <= cs.len(),
            whole == cs@.subrange(from as int, to as int),
        ensures
            r@.len() == split_on(whole, sep).len(),
            forall|i: int|
#![trigger r@[i]]
                0 <= i < r@.len() ==> {
                    &&& from <= r@[i].0 <= r@[i].1 <= to
                    &&& split_on(whole, sep)[i] == cs@.subrange(
                        r@[i].0 as int,
                        r@[i].1 as int,
                    )
                },
        decreases to - pos,
    {
        let k = find_char_in(cs, pos, to, sep);
        let ghost rest = cs@.subrange(pos as int, to as int);
        let ghost old_r = r@;
        let ghost old_done = done;
        r.push((pos, k));
        if k == to {
            proof {
                assert(split_on(rest, sep) == seq![rest]);
                done = done.push(rest);
                assert(split_on(whole, sep) == done);
                assert forall|i: int| #![trigger r@[i]] 0 <= i < r@.len() implies {
                    &&& from <= r@[i].0 <= r@[i].1 <= to
                    &&& split_on(whole, sep)[i] == cs@.subrange(
                        r@[i].0 as int,
                        r@[i].1 as int,
                    )
                } by {
                    if i < old_r.len() {
                        assert(r@[i] == old_r[i]);
                        assert(done[i] == old_done[i]);
                    }
                }
            }
            break;
        } else {
            proof {
                assert(rest.take(k - pos) == cs@.subrange(pos as int, k as int));
                assert(rest.skip(k - pos + 1) == cs@.subrange(k + 1, to as int));
                done = done.push(rest.take(k - pos));
                assert forall|i: int| #![trigger r@[i]] 0 <= i < r@.len() implies {
                    &&& from <= r@[i].0 <= r@[i].1 <= to
                    &&& done[i] == cs@.subrange(r@[i].0 as int, r@[i].1 as int)
                } by {
                    if i < old_r.len() {
                        assert(r@[i] == old_r[i]);
                        assert(done[i] == old_done[i]);
                    }
                }
            }
            pos = k + 1;
        }
    }
    r
}

} // verus!
