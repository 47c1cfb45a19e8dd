//! Splitting a file's text into lines: a line ends at a newline character,
//! a carriage return directly before that newline belongs to the line
//! terminator, and the final line needs no terminator. The terminator is
//! never part of the returned line.
use vstd::prelude::*;
use vstd::string::StrSliceExecFns;
use vstd::string::StringExecFns;

use crate::views_of;

verus! {

/// The index of the first newline character, or the length when there is
/// none.
pub open spec fn first_newline(s: Seq<char>) -> int
    decreases s.len(),
{
    if s.len() == 0 {
        0
    } else if s[0] == '\n' {
        0
    } else {
        1 + first_newline(s.skip(1))
    }
}

/// A line with its trailing carriage return removed, if it has one.
pub open spec fn strip_cr(l: Seq<char>) -> Seq<char> {
    if l.len() > 0 && l[l.len() - 1] == '\r' {
        l.drop_last()
    } else {
        l
    }
}

/// The lines of a text: each newline ends a line, a carriage return
/// directly before a newline is part of the terminator, and text after
/// the last newline forms a final line kept as it is. An empty text has
/// no lines.
pub open spec fn lines_spec(s: Seq<char>) -> Seq<Seq<char>>
    decreases s.len(),
{
    if s.len() == 0 {
        Seq::empty()
    } else {
        let i = first_newline(s);
        if 0 <= i < s.len() {
            seq![strip_cr(s.take(i))] + lines_spec(s.skip(i + 1))
        } else {
            seq![s]
        }
    }
}

proof fn lemma_first_newline_at(t: Seq<char>, k: int)
    requires
        0 <= k < t.len(),
        t[k] == '\n',
        forall|m: int| 0 <= m < k ==> t[m] != '\n',
    ensures
        first_newline(t) == k,
    decreases k,
{
    if k > 0 {
        assert(forall|m: int| 0 <= m < k - 1 ==> t.skip(1)[m] == t[m + 1]);
        lemma_first_newline_at(t.skip(1), k - 1);
    }
}

proof fn lemma_first_newline_none(t: Seq<char>)
    requires
        forall|m: int| 0 <= m < t.len() ==> t[m] != '\n',
    ensures
        first_newline(t) == t.len(),
    decreases t.len(),
{
    if t.len() > 0 {
        assert(forall|m: int| 0 <= m < t.skip(1).len() ==> t.skip(1)[m] == t[m + 1]);
        lemma_first_newline_none(t.skip(1));
    }
}

/// Splits a text into its lines, in order, terminators stripped.
pub fn split_lines(s: &str) -> (r: Vec<String>)
    ensures
        views_of(r@) == lines_spec(s@),
{
    let n = s.unicode_len();
    let mut r: Vec<String> = Vec::new();
    let mut start: usize = 0;
    let mut j: usize = 0;
    proof {
        assert(s@.skip(0) =~= s@);
        assert(views_of(r@) =~= Seq::<Seq<char>>::empty());
    }
    while j < n
        invariant
            start <= j <= n,
            n == s@.len(),
            forall|k: int| start <= k < j ==> s@[k] != '\n',
            lines_spec(s@) == views_of(r@) + lines_spec(s@.skip(start as int)),
        decreases n - j,
    {
        let c = s.get_char(j);
        if c == '\n' {
            let end = if j > start && s.get_char(j - 1) == '\r' {
                j - 1
            } else {
                j
            };
            let piece = s.substring_char(start, end);
            let ghost prev = r@;
            r.push(String::from_str(piece));
            proof {
                let t = s@.skip(start as int);
                assert(forall|m: int| 0 <= m < j - start ==> t[m] == s@[start + m]);
                lemma_first_newline_at(t, j - start as int);
                assert(t.take(j - start as int) =~= s@.subrange(start as int, j as int));
                assert(t.skip(j - start as int + 1) =~= s@.skip(j as int + 1));
                assert(lines_spec(t) == seq![strip_cr(s@.subrange(start as int, j as int))]
                    + lines_spec(s@.skip(j as int + 1)));
                assert(piece@ == strip_cr(s@.subrange(start as int, j as int))) by {
                    if j > start && s@[j - 1] == '\r' {
                        assert(s@.subrange(start as int, j as int).drop_last() =~= s@.subrange(
                            start as int,
                            j as int - 1,
                        ));
                    }
                }
                assert(views_of(r@) =~= views_of(prev) + seq![piece@]);
            }
            start = j + 1;
        }
        j = j + 1;
    }
    if start < n {
        let piece = s.substring_char(start, n);
        let ghost prev = r@;
        r.push(String::from_str(piece));
        proof {
            let t = s@.skip(start as int);
            assert(forall|m: int| 0 <= m < t.len() ==> t[m] == s@[start + m]);
            lemma_first_newline_none(t);
            assert(lines_spec(t) == seq![t]);
            assert(piece@ == t);
            assert(views_of(r@) =~= views_of(prev) + seq![piece@]);
            assert(views_of(r@) =~= lines_spec(s@));
        }
    } else {
        proof {
            assert(s@.skip(start as int).len() == 0);
            assert(s@.skip(start as int) =~= Seq::<char>::empty());
            assert(lines_spec(s@.skip(start as int)) =~= Seq::<Seq<char>>::empty());
            assert(views_of(r@) + lines_spec(s@.skip(start as int)) =~= views_of(r@));
        }
    }
    r
}

} // verus!
