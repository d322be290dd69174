//! Include patterns: glob syntax, delegated to the `glob` crate, and the
//! rule that a pattern without wildcards names a file by its base name.

use vstd::prelude::*;
use crate::search::{
    first_where, lemma_first_where, lemma_first_where_prefix, lemma_first_where_step,
};
use crate::text::chars_of;

verus! {

/// What `glob::Pattern::new` answers for a pattern text: `None` where the
/// pattern compiles, else the character position and the message of the
/// `glob::PatternError` it returns. The `glob` crate takes the path
/// separators of the platform it is built for as separators, so the value is
/// that of one build.
pub uninterp spec fn glob_syntax_error(pattern: Seq<char>) -> Option<(int, Seq<char>)>;

/// Whether `glob::Pattern::matches_with` finds that the compiled `pattern`
/// matches `path` under the three `glob::MatchOptions` given. It is read only
/// for patterns that compile, and like `glob_syntax_error` it is the value
/// of one build.
pub uninterp spec fn glob_match(
    pattern: Seq<char>,
    path: Seq<char>,
    case_sensitive: bool,
    literal_separator: bool,
    literal_leading_dot: bool,
) -> bool;

/// Calls `glob::Pattern::new` and hands back what it reported: nothing for a
/// pattern that compiles, else the position and message of the error.
#[verifier::external_body]
fn syntax_error(pattern: &str) -> (r: Option<(usize, String)>)
    ensures
        match r {
            None => glob_syntax_error(pattern@) is None,
            Some(e) => glob_syntax_error(pattern@) == Some((e.0 as int, e.1@)),
        },
{
    match glob::Pattern::new(pattern) {
        Ok(_) => None,
        Err(e) => Some((e.pos, e.msg.to_string())),
    }
}

/// Compiles `pattern` with `glob::Pattern::new` and asks
/// `glob::Pattern::matches_with` whether it matches `path` under the given
/// options. The pattern must compile.
#[verifier::external_body]
fn glob_matches(
    pattern: &str,
    path: &str,
    case_sensitive: bool,
    literal_separator: bool,
    literal_leading_dot: bool,
) -> (m: bool)
    requires
        glob_syntax_error(pattern@) is None,
    ensures
        m == glob_match(pattern@, path@, case_sensitive, literal_separator, literal_leading_dot),
{
    let options = glob::MatchOptions {
        case_sensitive,
        require_literal_separator: literal_separator,
        require_literal_leading_dot: literal_leading_dot,
    };
    match glob::Pattern::new(pattern) {
        Ok(compiled) => compiled.matches_with(path, options),
        Err(_) => false,
    }
}

/// The characters that make a pattern a wildcard pattern.
pub open spec fn is_wildcard(c: char) -> bool {
    c == '*' || c == '?' || c == '['
}

/// Whether a pattern holds a wildcard character anywhere.
pub open spec fn has_wildcard(pattern: Seq<char>) -> bool {
    exists|i: int| 0 <= i < pattern.len() && is_wildcard(#[trigger] pattern[i])
}

/// The last segment of a `/`-separated path: what follows its last `/`, or
/// the whole path where it has none.
pub open spec fn base_name(path: Seq<char>) -> Seq<char>
    decreases path.len(),
{
    if path.len() == 0 || path.last() == '/' {
        Seq::empty()
    } else {
        base_name(path.drop_last()).push(path.last())
    }
}

/// Glob matching as the collector uses it: case matters, `*` and `?` stay
/// within one path segment, and a leading dot needs no literal dot.
pub open spec fn glob_accepts(pattern: Seq<char>, path: Seq<char>) -> bool {
    glob_match(pattern, path, true, true, false)
}

/// Whether one include pattern selects a path relative to the root: the glob
/// matches the whole relative path, or the pattern has no wildcard and is
/// the path's base name.
pub open spec fn pattern_accepts(pattern: Seq<char>, path: Seq<char>) -> bool {
    glob_accepts(pattern, path) || (!has_wildcard(pattern) && base_name(path) == pattern)
}

/// Whether a set of include patterns selects a path: the empty set selects
/// every path, any other set those that one of its patterns accepts.
pub open spec fn accepted(patterns: Seq<Seq<char>>, path: Seq<char>) -> bool {
    patterns.len() == 0 || exists|i: int|
        0 <= i < patterns.len() && pattern_accepts(#[trigger] patterns[i], path)
}

/// `base_name(path)` is the part of `path` from index `start` on, where
/// `start` follows the last `/`.
pub proof fn lemma_base_name_is_suffix(path: Seq<char>) -> (start: int)
    ensures
        0 <= start <= path.len(),
        base_name(path) == path.skip(start),
        start == 0 || path[start - 1] == '/',
        forall|i: int| start <= i < path.len() ==> path[i] != '/',
    decreases path.len(),
{
    if path.len() == 0 || path.last() == '/' {
        path.len() as int
    } else {
        let start = lemma_base_name_is_suffix(path.drop_last());
        assert(path.skip(start) =~= path.drop_last().skip(start).push(path.last()));
        assert forall|i: int| start <= i < path.len() implies path[i] != '/' by {
            if i < path.len() - 1 {
                assert(path.drop_last()[i] == path[i]);
            }
        }
        start
    }
}

/// Whether `pattern` holds a wildcard character.
pub fn contains_wildcard(pattern: &Vec<char>) -> (r: bool)
    ensures
        r == has_wildcard(pattern@),
{
    let mut i: usize = 0;
    while i < pattern.len()
        invariant
            i <= pattern.len(),
            forall|j: int| 0 <= j < i ==> !is_wildcard(#[trigger] pattern@[j]),
        decreases pattern.len() - i,
    {
        let c = pattern[i];
        if c == '*' || c == '?' || c == '[' {
            return true;
        }
        i += 1;
    }
    false
}

/// Whether the base name of `path` is exactly `name`.
pub fn base_name_is(path: &Vec<char>, name: &Vec<char>) -> (r: bool)
    ensures
        r == (base_name(path@) == name@),
{
    let ghost begin = lemma_base_name_is_suffix(path@);
    let mut start: usize = path.len();
    while start > 0 && path[start - 1] != '/'
        invariant
            0 <= begin <= start <= path.len(),
            forall|i: int| begin <= i < path.len() ==> path@[i] != '/',
            begin == 0 || path@[begin - 1] == '/',
        decreases start,
    {
        start -= 1;
    }
    assert(start == begin);
    if path.len() - start != name.len() {
        return false;
    }
    let mut k: usize = 0;
    while k < name.len()
        invariant
            start + name.len() == path.len(),
            k <= name.len(),
            base_name(path@) == path@.skip(start as int),
            forall|j: int| 0 <= j < k ==> path@[start + j] == name@[j],
        decreases name.len() - k,
    {
        if path[start + k] != name[k] {
            assert(path@.skip(start as int)[k as int] == path@[start + k]);
            return false;
        }
        k += 1;
    }
    assert(path@.skip(start as int) =~= name@);
    true
}

/// Where in a refused pattern `glob` found the error.
pub open spec fn fault_position(pattern: Seq<char>) -> int {
    glob_syntax_error(pattern).unwrap().0
}

/// What `glob` said of a refused pattern.
pub open spec fn fault_message(pattern: Seq<char>) -> Seq<char> {
    glob_syntax_error(pattern).unwrap().1
}

/// Every pattern compiles.
pub open spec fn all_compile(patterns: Seq<Seq<char>>) -> bool {
    forall|i: int| 0 <= i < patterns.len() ==> glob_syntax_error(#[trigger] patterns[i]) is None
}

/// The index of the first pattern that `glob` refuses, if there is one.
pub open spec fn first_fault(patterns: Seq<Seq<char>>) -> Option<int> {
    first_where(patterns, |pattern: Seq<char>| glob_syntax_error(pattern) is Some)
}

/// There is a first refused pattern exactly where not every pattern
/// compiles, and every pattern before it compiles.
pub proof fn lemma_first_fault(patterns: Seq<Seq<char>>)
    ensures
        first_fault(patterns) is None <==> all_compile(patterns),
        first_fault(patterns) matches Some(k) ==> 0 <= k < patterns.len() && glob_syntax_error(
            patterns[k],
        ) is Some && all_compile(patterns.take(k)),
{
    lemma_first_where(patterns, |pattern: Seq<char>| glob_syntax_error(pattern) is Some);
}

/// An include pattern that `glob` refused.
#[derive(Debug, PartialEq, Eq)]
pub struct PatternSyntaxError {
    /// The pattern as it was given.
    pub pattern: String,
    /// The character position near which `glob` found the error.
    pub position: usize,
    /// What `glob` said of it.
    pub message: String,
}

impl PatternSyntaxError {
    /// The error is the one that `glob` raises for `pattern`.
    pub open spec fn reports(&self, pattern: Seq<char>) -> bool {
        &&& self.pattern@ == pattern
        &&& glob_syntax_error(pattern) is Some
        &&& self.position == fault_position(pattern)
        &&& self.message@ == fault_message(pattern)
    }
}

/// One include pattern that compiles, with what matching reads of it.
struct IncludePattern {
    text: String,
    chars: Vec<char>,
    wildcard: bool,
}

impl IncludePattern {
    spec fn consistent(&self) -> bool {
        &&& glob_syntax_error(self.text@) is None
        &&& self.chars@ == self.text@
        &&& self.wildcard == has_wildcard(self.text@)
    }

    fn accepts(&self, path: &str, path_chars: &Vec<char>) -> (r: bool)
        requires
            self.consistent(),
            path_chars@ == path@,
        ensures
            r == pattern_accepts(self.text@, path@),
    {
        if glob_matches(self.text.as_str(), path, true, true, false) {
            true
        } else if self.wildcard {
            false
        } else {
            base_name_is(path_chars, &self.chars)
        }
    }
}

/// A set of include patterns, every one of which compiles.
pub struct IncludeSet {
    patterns: Vec<IncludePattern>,
}

impl View for IncludeSet {
    type V = Seq<Seq<char>>;

    /// The pattern texts, in the order given.
    closed spec fn view(&self) -> Seq<Seq<char>> {
        Seq::new(self.patterns@.len(), |i: int| self.patterns@[i].text@)
    }
}

impl IncludeSet {
    #[verifier::type_invariant]
    spec fn well_formed(&self) -> bool {
        forall|i: int| 0 <= i < self.patterns@.len() ==> (#[trigger] self.patterns@[i]).consistent()
    }

    /// Compiles the patterns in order and stops at the first that `glob`
    /// refuses, reporting that pattern.
    pub fn new(patterns: &[String]) -> (r: Result<IncludeSet, PatternSyntaxError>)
        ensures
            match r {
                Ok(set) => all_compile(patterns.deep_view()) && set@ == patterns.deep_view(),
                Err(e) => match first_fault(patterns.deep_view()) {
                    Some(k) => e.reports(patterns.deep_view()[k]),
                    None => false,
                },
            },
    {
        let ghost texts = patterns.deep_view();
        let mut compiled: Vec<IncludePattern> = Vec::new();
        let mut i: usize = 0;
        while i < patterns.len()
            invariant
                i <= patterns.len(),
                texts == patterns.deep_view(),
                first_fault(texts.take(i as int)) is None,
                compiled@.len() == i,
                forall|j: int|
                    0 <= j < i ==> (#[trigger] compiled@[j]).consistent() && compiled@[j].text@
                        == texts[j],
            decreases patterns.len() - i,
        {
            let text = patterns[i].clone();
            assert(text@ == texts[i as int]);
            proof {
                lemma_first_where_step(
                    texts,
                    |pattern: Seq<char>| glob_syntax_error(pattern) is Some,
                    i as int,
                );
            }
            match syntax_error(text.as_str()) {
                Some((position, message)) => {
                    proof {
                        lemma_first_where_prefix(
                            texts,
                            |pattern: Seq<char>| glob_syntax_error(pattern) is Some,
                            i + 1,
                        );
                    }
                    return Err(PatternSyntaxError { pattern: text, position, message });
                },
                None => {
                    let chars = chars_of(text.as_str());
                    let wildcard = contains_wildcard(&chars);
                    compiled.push(IncludePattern { text, chars, wildcard });
                },
            }
            i += 1;
        }
        assert(texts.take(i as int) =~= texts);
        proof {
            lemma_first_fault(texts);
        }
        let set = IncludeSet { patterns: compiled };
        assert(set@ =~= texts);
        Ok(set)
    }

    /// Whether the set selects `path`, a path relative to the root.
    pub fn accepts(&self, path: &str) -> (r: bool)
        ensures
            r == accepted(self@, path@),
    {
        proof {
            use_type_invariant(self);
        }
        if self.patterns.len() == 0 {
            return true;
        }
        let path_chars = chars_of(path);
        let mut i: usize = 0;
        while i < self.patterns.len()
            invariant
                i <= self.patterns.len(),
                self.well_formed(),
                path_chars@ == path@,
                forall|j: int| 0 <= j < i ==> !pattern_accepts(#[trigger] self@[j], path@),
            decreases self.patterns.len() - i,
        {
            if self.patterns[i].accepts(path, &path_chars) {
                assert(pattern_accepts(self@[i as int], path@));
                return true;
            }
            i += 1;
        }
        false
    }
}

} // verus!
