//! The match engine: a rule set of patterns, and the two-stage evaluation
//! (preprocess, then first-match) of an input against it.
//!
//! Patterns are regular expressions. What a regular expression accepts, and
//! what a global substitution leaves behind, are functions of the pattern and
//! the input alone; they are named here by uninterpreted spec functions, and
//! the engine's contracts are stated over those names.

use vstd::prelude::*;

verus! {

/// Whether `pattern` is a valid expression of the matching-pattern grammar,
/// that is, whether `regex::Regex::new` accepts it.
pub uninterp spec fn regex_valid(pattern: Seq<char>) -> bool;

/// The input with every non-overlapping match of `pattern` removed: what
/// `regex::Regex::replace_all` with an empty replacement returns.
pub uninterp spec fn regex_strip(pattern: Seq<char>, input: Seq<char>) -> Seq<char>;

/// Whether `pattern` matches somewhere in `input`: what
/// `regex::Regex::is_match` returns.
pub uninterp spec fn regex_matches(pattern: Seq<char>, input: Seq<char>) -> bool;

/// Relies on `regex::Regex::new`: compilation succeeds or fails on the
/// pattern text alone.
#[verifier::external_body]
pub(crate) fn regex_is_valid(pattern: &str) -> (r: bool)
    ensures
        r == regex_valid(pattern@),
{
    regex::Regex::new(pattern).is_ok()
}

/// Relies on `regex::Regex::new` and `regex::Regex::replace_all`: replacing
/// every non-overlapping match with the empty string is a function of the
/// pattern and the haystack alone.
#[verifier::external_body]
pub(crate) fn regex_strip_all(pattern: &str, input: &str) -> (r: String)
    requires
        regex_valid(pattern@),
    ensures
        r@ == regex_strip(pattern@, input@),
{
    regex::Regex::new(pattern).unwrap().replace_all(input, "").into_owned()
}

/// Relies on `regex::Regex::new` and `regex::Regex::is_match`: whether the
/// pattern matches somewhere is a function of the pattern and the haystack
/// alone.
#[verifier::external_body]
pub(crate) fn regex_find_match(pattern: &str, input: &str) -> (r: bool)
    requires
        regex_valid(pattern@),
    ensures
        r == regex_matches(pattern@, input@),
{
    regex::Regex::new(pattern).unwrap().is_match(input)
}

/// The mathematical content of a rule set: one preprocessing pattern and the
/// ordered matching patterns.
pub ghost struct KeywordsView {
    pub keywords: Seq<Seq<char>>,
    pub preprocess: Seq<char>,
}

impl KeywordsView {
    /// Every pattern of the rule set is a valid expression.
    pub open spec fn wf(self) -> bool {
        &&& regex_valid(self.preprocess)
        &&& forall|i: int| 0 <= i < self.keywords.len() ==> regex_valid(#[trigger] self.keywords[i])
    }

    /// The input after the preprocessing pass.
    pub open spec fn normalize(self, input: Seq<char>) -> Seq<char> {
        regex_strip(self.preprocess, input)
    }

    /// Whether some matching pattern matches the normalized input.
    pub open spec fn matches(self, input: Seq<char>) -> bool {
        exists|i: int|
            0 <= i < self.keywords.len() && regex_matches(
                #[trigger] self.keywords[i],
                self.normalize(input),
            )
    }
}

/// A rule set: the preprocessing pattern and the ordered matching patterns,
/// immutable once constructed and validated.
pub struct Keywords {
    pub keywords: Vec<String>,
    pub preprocess: String,
}

impl View for Keywords {
    type V = KeywordsView;

    open spec fn view(&self) -> KeywordsView {
        KeywordsView { keywords: self.keywords.deep_view(), preprocess: self.preprocess@ }
    }
}

impl Keywords {
    /// Checks eagerly that every pattern of the rule set is valid.
    pub fn validate(&self) -> (r: bool)
        ensures
            r == self@.wf(),
    {
        if !regex_is_valid(self.preprocess.as_str()) {
            return false;
        }
        let mut i: usize = 0;
        while i < self.keywords.len()
            invariant
                0 <= i <= self.keywords.len(),
                regex_valid(self.preprocess@),
                forall|j: int| 0 <= j < i ==> regex_valid(#[trigger] self@.keywords[j]),
            decreases self.keywords.len() - i,
        {
            assert(self@.keywords[i as int] == self.keywords@[i as int]@);
            if !regex_is_valid(self.keywords[i].as_str()) {
                assert(!regex_valid(self@.keywords[i as int]));
                return false;
            }
            i += 1;
        }
        true
    }

    /// Applies the preprocessing pattern and then tests the normalized input
    /// against each matching pattern in order, true on the first match.
    pub fn evaluate(&self, input: &str) -> (r: bool)
        requires
            self@.wf(),
        ensures
            r == self@.matches(input@),
    {
        let normalized = regex_strip_all(self.preprocess.as_str(), input);
        let mut i: usize = 0;
        while i < self.keywords.len()
            invariant
                0 <= i <= self.keywords.len(),
                self@.wf(),
                normalized@ == self@.normalize(input@),
                forall|j: int|
                    0 <= j < i ==> !regex_matches(#[trigger] self@.keywords[j], normalized@),
            decreases self.keywords.len() - i,
        {
            assert(self@.keywords[i as int] == self.keywords@[i as int]@);
            if regex_find_match(self.keywords[i].as_str(), normalized.as_str()) {
                assert(regex_matches(self@.keywords[i as int], self@.normalize(input@)));
                return true;
            }
            i += 1;
        }
        false
    }
}

} // verus!
