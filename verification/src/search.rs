//! The file scanner: every line is held against the whole matcher set,
//! a line counts as matched when any matcher accepts its comparison form,
//! inversion flips that verdict, and the selected lines come back in file
//! order, at most once each, with their original spelling.
use vstd::prelude::*;
use vstd::string::StrSliceExecFns;
use vstd::string::StringExecFns;

use crate::Args;
use crate::lines::lines_spec;
use crate::lines::split_lines;
use crate::pattern::fold_case;
use crate::pattern::spec_matcher_set;
use crate::rx::pattern_of;
use crate::rx::regex_is_match;
use crate::rx::regex_match;
use crate::rx::regex_valid;
use crate::rx::to_lowercase;
use crate::views_of;

verus! {

/// The engine patterns of a sequence of compiled matchers, in order.
pub open spec fn patterns_of(rs: Seq<regex::Regex>) -> Seq<Seq<char>> {
    rs.map_values(|re: regex::Regex| pattern_of(re))
}

/// Whether a line's comparison form is accepted by any of the given
/// engine patterns.
pub open spec fn spec_line_matches(pats: Seq<Seq<char>>, ignore_case: bool, line: Seq<char>) -> bool {
    exists|k: int| 0 <= k < pats.len() && regex_match(#[trigger] pats[k], fold_case(line, ignore_case))
}

/// Whether a line is selected: matched, flipped by inversion.
pub open spec fn spec_line_selected(
    pats: Seq<Seq<char>>,
    ignore_case: bool,
    invert: bool,
    line: Seq<char>,
) -> bool {
    spec_line_matches(pats, ignore_case, line) != invert
}

/// The lines selected from a file, in file order, each at most once per
/// occurrence, in their original spelling.
pub open spec fn spec_search(
    pats: Seq<Seq<char>>,
    ignore_case: bool,
    invert: bool,
    lines: Seq<Seq<char>>,
) -> Seq<Seq<char>> {
    lines.filter(|l: Seq<char>| spec_line_selected(pats, ignore_case, invert, l))
}

proof fn lemma_search_push(
    pats: Seq<Seq<char>>,
    ignore_case: bool,
    invert: bool,
    pre: Seq<Seq<char>>,
    l: Seq<char>,
)
    ensures
        spec_search(pats, ignore_case, invert, pre.push(l)) == (
        if spec_line_selected(pats, ignore_case, invert, l) {
            spec_search(pats, ignore_case, invert, pre).push(l)
        } else {
            spec_search(pats, ignore_case, invert, pre)
        }),
{
    reveal_with_fuel(Seq::filter, 2);
    assert(pre.push(l).drop_last() =~= pre);
    assert(pre.push(l).last() == l);
}

/// Whether any compiled matcher accepts the given comparison text.
fn line_matches(regexes: &Vec<regex::Regex>, text: &str) -> (b: bool)
    ensures
        b == (exists|k: int|
            0 <= k < regexes@.len() && regex_match(
                pattern_of(#[trigger] regexes@[k]),
                text@,
            )),
{
    let mut i: usize = 0;
    while i < regexes.len()
        invariant
            i <= regexes@.len(),
            forall|k: int| 0 <= k < i ==> !regex_match(pattern_of(#[trigger] regexes@[k]), text@),
        decreases regexes@.len() - i,
    {
        if regex_is_match(&regexes[i], text) {
            return true;
        }
        i = i + 1;
    }
    false
}

/// Evaluates every line against the matcher set and returns the selected
/// lines in order: a line is kept exactly when the inversion flag disagrees
/// with "some matcher accepts its comparison form", and it is kept once,
/// however many matchers accept it.
pub fn search_lines(
    regexes: &Vec<regex::Regex>,
    ignore_case: bool,
    invert_match: bool,
    lines: &Vec<String>,
) -> (r: Vec<String>)
    ensures
        views_of(r@) == spec_search(
            patterns_of(regexes@),
            ignore_case,
            invert_match,
            views_of(lines@),
        ),
{
    let ghost pats = patterns_of(regexes@);
    let ghost lv = views_of(lines@);
    let mut results: Vec<String> = Vec::new();
    let mut i: usize = 0;
    proof {
        assert(lv.take(0) =~= Seq::<Seq<char>>::empty());
        reveal_with_fuel(Seq::filter, 1);
        assert(views_of(results@) =~= spec_search(pats, ignore_case, invert_match, lv.take(0)));
    }
    while i < lines.len()
        invariant
            i <= lines@.len(),
            pats == patterns_of(regexes@),
            lv == views_of(lines@),
            views_of(results@) == spec_search(pats, ignore_case, invert_match, lv.take(i as int)),
        decreases lines@.len() - i,
    {
        let cmp: String = if ignore_case {
            to_lowercase(lines[i].as_str())
        } else {
            lines[i].clone()
        };
        let matched = line_matches(regexes, cmp.as_str());
        proof {
            assert(cmp@ == fold_case(lv[i as int], ignore_case));
            assert forall|k: int| 0 <= k < regexes@.len() implies #[trigger] pats[k] == pattern_of(
                regexes@[k],
            ) by {}
            if matched {
                let k = choose|k: int|
                    0 <= k < regexes@.len() && regex_match(
                        pattern_of(#[trigger] regexes@[k]),
                        cmp@,
                    );
                assert(regex_match(pats[k], fold_case(lv[i as int], ignore_case)));
                assert(spec_line_matches(pats, ignore_case, lv[i as int]));
            } else {
                assert(!spec_line_matches(pats, ignore_case, lv[i as int])) by {
                    if spec_line_matches(pats, ignore_case, lv[i as int]) {
                        let k = choose|k: int|
                            0 <= k < pats.len() && regex_match(
                                #[trigger] pats[k],
                                fold_case(lv[i as int], ignore_case),
                            );
                        assert(regex_match(pattern_of(regexes@[k]), cmp@));
                    }
                }
            }
            lemma_search_push(pats, ignore_case, invert_match, lv.take(i as int), lv[i as int]);
            assert(lv.take(i as int).push(lv[i as int]) =~= lv.take(i as int + 1));
        }
        if matched != invert_match {
            let ghost prev = results@;
            results.push(lines[i].clone());
            proof {
                assert(views_of(results@) =~= views_of(prev).push(lv[i as int]));
            }
        }
        i = i + 1;
    }
    proof {
        assert(lv.take(lines@.len() as int) =~= lv);
    }
    results
}

/// Scans one file's whole text for one configuration: the matcher set is
/// compiled (pattern-file lines supplied by the caller), the text is split
/// into lines, and the selected lines come back in file order. Fails with
/// the engine's message exactly when some transformed pattern is rejected.
pub fn search_file(args: &Args, contents: &str, pat_file_lines: &Vec<String>) -> (r: Result<
    Vec<String>,
    String,
>)
    ensures
        ({
            let ms = spec_matcher_set(*args, views_of(pat_file_lines@));
            &&& (r is Ok ==> (forall|k: int|
                0 <= k < ms.len() ==> regex_valid(#[trigger] ms[k])))
            &&& (r is Err ==> (exists|k: int|
                0 <= k < ms.len() && !regex_valid(#[trigger] ms[k])))
            &&& (r is Ok ==> views_of(r->Ok_0@) == spec_search(
                ms,
                args.ignore_case,
                args.invert_match,
                lines_spec(contents@),
            ))
        }),
{
    let regexes = match args.get_regexes(pat_file_lines) {
        Ok(v) => v,
        Err(e) => {
            return Err(e);
        },
    };
    let lines = split_lines(contents);
    let out = search_lines(&regexes, args.ignore_case, args.invert_match, &lines);
    proof {
        assert(patterns_of(regexes@) =~= spec_matcher_set(*args, views_of(pat_file_lines@)));
    }
    Ok(out)
}

/// The form one result line is printed in: prefixed with the source file
/// name and a colon exactly when several files are searched.
pub open spec fn spec_output_line(file: Seq<char>, line: Seq<char>, multiple: bool) -> Seq<char> {
    if multiple {
        file + ":"@ + line
    } else {
        line
    }
}

/// Renders one file's results for printing: each line keeps its spelling,
/// prefixed with `file:` exactly when `multiple` says several files are
/// being searched.
pub fn output_lines(file: &str, results: &Vec<String>, multiple: bool) -> (r: Vec<String>)
    ensures
        r@.len() == results@.len(),
        forall|k: int| 0 <= k < results@.len() ==> (#[trigger] r@[k])@ == spec_output_line(
            file@,
            results@[k]@,
            multiple,
        ),
{
    let mut r: Vec<String> = Vec::new();
    let mut i: usize = 0;
    while i < results.len()
        invariant
            i <= results@.len(),
            r@.len() == i,
            forall|k: int| 0 <= k < i ==> (#[trigger] r@[k])@ == spec_output_line(
                file@,
                results@[k]@,
                multiple,
            ),
        decreases results@.len() - i,
    {
        if multiple {
            r.push(String::from_str(file).concat(":").concat(results[i].as_str()));
        } else {
            r.push(results[i].clone());
        }
        i = i + 1;
    }
    r
}

impl Args {
    /// Whether more than one file is to be searched, which turns on the
    /// file-name prefix in the output.
    pub fn multiple_files(&self) -> (b: bool)
        ensures
            b == (self.files@.len() > 1),
    {
        self.files.len() > 1
    }
}

} // verus!
