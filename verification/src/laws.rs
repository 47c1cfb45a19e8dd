//! Laws of the matching semantics, stated over the spec-level search and
//! proved for all inputs.
use vstd::prelude::*;
use vstd::seq_lib::lemma_seq_contains_after_push;

use crate::pattern::fold_case;
use crate::pattern::transformed_pattern;
use crate::rx::lower_of;
use crate::rx::regex_match;
use crate::search::spec_line_matches;
use crate::search::spec_line_selected;
use crate::search::spec_search;

verus! {

proof fn lemma_search_contains(
    pats: Seq<Seq<char>>,
    ignore_case: bool,
    invert: bool,
    lines: Seq<Seq<char>>,
    l: Seq<char>,
)
    ensures
        spec_search(pats, ignore_case, invert, lines).contains(l) <==> (lines.contains(l)
            && spec_line_selected(pats, ignore_case, invert, l)),
    decreases lines.len(),
{
    reveal_with_fuel(Seq::filter, 2);
    if lines.len() == 0 {
        assert(!lines.contains(l));
        assert(!spec_search(pats, ignore_case, invert, lines).contains(l));
    } else {
        let rest = lines.drop_last();
        let last = lines.last();
        lemma_search_contains(pats, ignore_case, invert, rest, l);
        assert(spec_search(pats, ignore_case, invert, lines) == (
        if spec_line_selected(pats, ignore_case, invert, last) {
            spec_search(pats, ignore_case, invert, rest).push(last)
        } else {
            spec_search(pats, ignore_case, invert, rest)
        }));
        lemma_seq_contains_after_push(spec_search(pats, ignore_case, invert, rest), last, l);
        lemma_seq_contains_after_push(rest, last, l);
        assert(rest.push(last) =~= lines);
    }
}

/// Law: with the same matcher set, the same case policy and the same file,
/// plain selection and inverted selection partition the file's lines:
/// every line of the file lands in exactly one of the two results, their
/// sets together cover all the file's lines, and no line value stands in
/// both.
pub proof fn lemma_invert_partition(
    pats: Seq<Seq<char>>,
    ignore_case: bool,
    lines: Seq<Seq<char>>,
)
    ensures
        forall|l: Seq<char>| #[trigger] lines.contains(l) ==> (spec_search(
            pats,
            ignore_case,
            false,
            lines,
        ).contains(l) != spec_search(pats, ignore_case, true, lines).contains(l)),
        spec_search(pats, ignore_case, false, lines).to_set() + spec_search(
            pats,
            ignore_case,
            true,
            lines,
        ).to_set() =~= lines.to_set(),
        spec_search(pats, ignore_case, false, lines).to_set().intersect(
            spec_search(pats, ignore_case, true, lines).to_set(),
        ) =~= Set::<Seq<char>>::empty(),
{
    assert forall|l: Seq<char>| true implies (spec_search(
        pats,
        ignore_case,
        false,
        lines,
    ).contains(l) <==> (lines.contains(l) && spec_line_selected(pats, ignore_case, false, l)))
        && (spec_search(pats, ignore_case, true, lines).contains(l) <==> (lines.contains(l)
        && spec_line_selected(pats, ignore_case, true, l))) by {
        lemma_search_contains(pats, ignore_case, false, lines, l);
        lemma_search_contains(pats, ignore_case, true, lines, l);
    }
}

/// Law: several patterns act as a logical OR: a line matches the
/// concatenation of two matcher sets exactly when it matches the first
/// set or matches the second.
pub proof fn lemma_patterns_are_or(
    pats1: Seq<Seq<char>>,
    pats2: Seq<Seq<char>>,
    ignore_case: bool,
    line: Seq<char>,
)
    ensures
        spec_line_matches(pats1 + pats2, ignore_case, line) == (spec_line_matches(
            pats1,
            ignore_case,
            line,
        ) || spec_line_matches(pats2, ignore_case, line)),
{
    let both = pats1 + pats2;
    if spec_line_matches(both, ignore_case, line) {
        let k = choose|k: int|
            0 <= k < both.len() && regex_match(#[trigger] both[k], fold_case(line, ignore_case));
        if k < pats1.len() {
            assert(pats1[k] == both[k]);
            assert(spec_line_matches(pats1, ignore_case, line));
        } else {
            assert(pats2[k - pats1.len()] == both[k]);
            assert(spec_line_matches(pats2, ignore_case, line));
        }
    }
    if spec_line_matches(pats1, ignore_case, line) {
        let k = choose|k: int|
            0 <= k < pats1.len() && regex_match(#[trigger] pats1[k], fold_case(line, ignore_case));
        assert(both[k] == pats1[k]);
        assert(spec_line_matches(both, ignore_case, line));
    }
    if spec_line_matches(pats2, ignore_case, line) {
        let k = choose|k: int|
            0 <= k < pats2.len() && regex_match(#[trigger] pats2[k], fold_case(line, ignore_case));
        assert(both[pats1.len() + k] == pats2[k]);
        assert(spec_line_matches(both, ignore_case, line));
    }
}

/// Law: case-insensitive matching is case-fold equivalence: compiling the
/// raw patterns under the case-insensitive policy and matching a line is
/// the same as lower-casing every raw pattern and the line by hand and
/// matching case-sensitively.
pub proof fn lemma_ignore_case_is_fold(
    raw: Seq<Seq<char>>,
    word: bool,
    line_anchor: bool,
    line: Seq<char>,
)
    ensures
        spec_line_matches(
            raw.map_values(|p: Seq<char>| transformed_pattern(p, true, word, line_anchor)),
            true,
            line,
        ) == spec_line_matches(
            raw.map_values(
                |p: Seq<char>| transformed_pattern(lower_of(p), false, word, line_anchor),
            ),
            false,
            lower_of(line),
        ),
{
    let a = raw.map_values(|p: Seq<char>| transformed_pattern(p, true, word, line_anchor));
    let b = raw.map_values(
        |p: Seq<char>| transformed_pattern(lower_of(p), false, word, line_anchor),
    );
    assert(a.len() == b.len());
    assert forall|k: int| 0 <= k < raw.len() implies #[trigger] a[k] == b[k] by {}
    assert(fold_case(line, true) == lower_of(line));
    assert(fold_case(lower_of(line), false) == lower_of(line));
    if spec_line_matches(a, true, line) {
        let k = choose|k: int|
            0 <= k < a.len() && regex_match(#[trigger] a[k], fold_case(line, true));
        assert(regex_match(b[k], fold_case(lower_of(line), false)));
    }
    if spec_line_matches(b, false, lower_of(line)) {
        let k = choose|k: int|
            0 <= k < b.len() && regex_match(#[trigger] b[k], fold_case(lower_of(line), false));
        assert(regex_match(a[k], fold_case(line, true)));
    }
}

} // verus!
