//! The pattern compiler: every pattern string is folded when case is
//! ignored, anchored for whole-word or whole-line matching, and compiled;
//! the matcher set keeps the patterns' order and compilation fails on the
//! first pattern the engine rejects.
use vstd::prelude::*;
use vstd::string::StrSliceExecFns;
use vstd::string::StringExecFns;

use crate::Args;
use crate::views_of;
use crate::rx::lower_of;
use crate::rx::pattern_of;
use crate::rx::regex_new;
use crate::rx::regex_valid;
use crate::rx::to_lowercase;

verus! {

/// The comparison form of a piece of text: lower-cased exactly when case
/// is ignored.
pub open spec fn fold_case(s: Seq<char>, ignore_case: bool) -> Seq<char> {
    if ignore_case {
        lower_of(s)
    } else {
        s
    }
}

/// The anchoring applied to a (possibly folded) pattern: whole-word wraps
/// it in a word-boundary-delimited group and takes precedence; whole-line
/// anchors it to both ends of the line; otherwise it is left as it is.
pub open spec fn anchor(p: Seq<char>, word: bool, line: bool) -> Seq<char> {
    if word {
        "\\b("@ + p + ")\\b"@
    } else if line {
        "^"@ + p + "$"@
    } else {
        p
    }
}

/// The pattern string actually handed to the engine for one input pattern.
pub open spec fn transformed_pattern(p: Seq<char>, ignore_case: bool, word: bool, line: bool) -> Seq<
    char,
> {
    anchor(fold_case(p, ignore_case), word, line)
}

/// All input pattern strings in their fixed order: the primary pattern,
/// then the explicitly supplied alternates, then the pattern-file lines.
pub open spec fn spec_all_patterns(a: Args, pat_lines: Seq<Seq<char>>) -> Seq<Seq<char>> {
    seq![a.pattern@] + views_of(a.patterns@) + pat_lines
}

/// The matcher set a configuration asks for: every input pattern,
/// transformed by the active case and anchoring policy, order preserved.
pub open spec fn spec_matcher_set(a: Args, pat_lines: Seq<Seq<char>>) -> Seq<Seq<char>> {
    spec_all_patterns(a, pat_lines).map_values(
        |p: Seq<char>| transformed_pattern(p, a.ignore_case, a.word_regexp, a.line_regexp),
    )
}

/// Builds the engine pattern for one input pattern under the given policy.
fn transform_pattern(p: &str, ignore_case: bool, word: bool, line: bool) -> (r: String)
    ensures
        r@ == transformed_pattern(p@, ignore_case, word, line),
{
    let folded: String = if ignore_case {
        to_lowercase(p)
    } else {
        String::from_str(p)
    };
    if word {
        String::from_str("\\b(").concat(folded.as_str()).concat(")\\b")
    } else if line {
        String::from_str("^").concat(folded.as_str()).concat("$")
    } else {
        folded
    }
}

impl Args {
    /// Collects every input pattern string in order: primary, alternates,
    /// then the supplied pattern-file lines.
    fn all_patterns(&self, pat_file_lines: &Vec<String>) -> (r: Vec<String>)
        ensures
            views_of(r@) == spec_all_patterns(*self, views_of(pat_file_lines@)),
    {
        let ghost target: Seq<Seq<char>> = spec_all_patterns(
            *self,
            views_of(pat_file_lines@),
        );
        let mut pats: Vec<String> = Vec::new();
        pats.push(self.pattern.clone());
        let mut i: usize = 0;
        while i < self.patterns.len()
            invariant
                i <= self.patterns@.len(),
                pats@.len() == 1 + i,
                pats@[0]@ == self.pattern@,
                forall|k: int| 0 <= k < i ==> pats@[1 + k]@ == self.patterns@[k]@,
            decreases self.patterns@.len() - i,
        {
            pats.push(self.patterns[i].clone());
            i = i + 1;
        }
        let mut j: usize = 0;
        let ghost base: int = pats@.len() as int;
        while j < pat_file_lines.len()
            invariant
                j <= pat_file_lines@.len(),
                base == 1 + self.patterns@.len(),
                pats@.len() == base + j,
                pats@[0]@ == self.pattern@,
                forall|k: int| 0 <= k < self.patterns@.len() ==> pats@[1 + k]@
                    == self.patterns@[k]@,
                forall|k: int| 0 <= k < j ==> pats@[base + k]@ == pat_file_lines@[k]@,
            decreases pat_file_lines@.len() - j,
        {
            pats.push(pat_file_lines[j].clone());
            j = j + 1;
        }
        proof {
            assert(views_of(pats@) =~= target);
        }
        pats
    }

    /// Compiles the whole matcher set for this configuration, given the
    /// lines read from the pattern files. Succeeds exactly when the engine
    /// accepts every transformed pattern; the first rejected pattern aborts
    /// compilation with its message.
    pub fn get_regexes(&self, pat_file_lines: &Vec<String>) -> (r: Result<
        Vec<regex::Regex>,
        String,
    >)
        ensures
            ({
                let ms = spec_matcher_set(*self, views_of(pat_file_lines@));
                &&& (r is Ok ==> (forall|k: int|
                    0 <= k < ms.len() ==> regex_valid(#[trigger] ms[k])))
                &&& (r is Err ==> (exists|k: int|
                    0 <= k < ms.len() && !regex_valid(#[trigger] ms[k])))
                &&& (r is Ok ==> r->Ok_0@.len() == ms.len())
                &&& (r is Ok ==> (forall|k: int|
                    0 <= k < ms.len() ==> pattern_of(#[trigger] r->Ok_0@[k]) == ms[k]))
            }),
    {
        let ghost ms = spec_matcher_set(*self, views_of(pat_file_lines@));
        let pats = self.all_patterns(pat_file_lines);
        proof {
            assert forall|k: int| 0 <= k < pats@.len() implies #[trigger] ms[k]
                == transformed_pattern(
                pats@[k]@,
                self.ignore_case,
                self.word_regexp,
                self.line_regexp,
            ) by {
                assert(views_of(pats@)[k] == pats@[k]@);
            }
        }
        let mut regexes: Vec<regex::Regex> = Vec::new();
        let mut i: usize = 0;
        while i < pats.len()
            invariant
                i <= pats@.len(),
                ms == spec_matcher_set(*self, views_of(pat_file_lines@)),
                ms.len() == pats@.len(),
                forall|k: int| 0 <= k < pats@.len() ==> #[trigger] ms[k] == transformed_pattern(
                    pats@[k]@,
                    self.ignore_case,
                    self.word_regexp,
                    self.line_regexp,
                ),
                regexes@.len() == i,
                forall|k: int| 0 <= k < i ==> regex_valid(#[trigger] ms[k]),
                forall|k: int| 0 <= k < i ==> pattern_of(#[trigger] regexes@[k]) == ms[k],
            decreases pats@.len() - i,
        {
            let t = transform_pattern(
                pats[i].as_str(),
                self.ignore_case,
                self.word_regexp,
                self.line_regexp,
            );
            match regex_new(t.as_str()) {
                Ok(re) => {
                    regexes.push(re);
                },
                Err(e) => {
                    proof {
                        assert(0 <= (i as int) < ms.len() && !regex_valid(ms[i as int]));
                        assert(exists|k: int|
                            0 <= k < ms.len() && !regex_valid(#[trigger] ms[k]));
                    }
                    return Err(e);
                },
            }
            i = i + 1;
        }
        Ok(regexes)
    }
}

} // verus!
