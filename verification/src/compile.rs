//! Pattern compiler adapter: turns a pattern string into a compiled
//! matcher or a structured compile error, and runs the matcher over a
//! subject text.
//!
//! The compiling and matching are done by the `regex` crate; the matcher
//! value itself is opaque here. A configured resource ceiling bounds the
//! compiled representation's size: exceeding it yields the
//! `CompiledTooBig` error kind rather than unbounded allocation.

use vstd::prelude::*;

use vstd::utf8::encode_utf8;

verus! {

/// A structured compile error: a syntax failure (with the compiler's own
/// message, whose classification may differ from the parser's), a pattern
/// whose compiled representation exceeds the configured size ceiling, or
/// an unclassified failure.
#[derive(Debug, PartialEq, Eq)]
pub enum CompileError {
    Syntax(String),
    CompiledTooBig,
    Other,
}

/// What compiling a pattern under a given size ceiling yields, as a
/// function of the two alone: compilation is deterministic, so the whole
/// outcome carries a name.
pub uninterp spec fn compile_of(s: Seq<char>, size_limit: usize) -> Result<
    regex::Regex,
    CompileError,
>;

/// The successive non-overlapping match spans a compiled matcher finds
/// in a haystack: a function of the matcher and the haystack alone.
pub uninterp spec fn match_spans_of(re: regex::Regex, hay: Seq<char>) -> Seq<(usize, usize)>;

/// The capture-group spans of a compiled matcher's first match in a
/// haystack, group by group: a function of the matcher and the haystack
/// alone.
pub uninterp spec fn captures_of(re: regex::Regex, hay: Seq<char>) -> Option<
    Seq<Option<(usize, usize)>>,
>;

/// Relies on regex::RegexBuilder::build with size_limit: compiles the
/// pattern with the given ceiling on the compiled representation's size,
/// a deterministic function of pattern and ceiling; the error variants
/// are mapped one for one, regex::Error being non-exhaustive.
#[verifier::external_body]
pub(crate) fn compile(s: &str, size_limit: usize) -> (r: Result<regex::Regex, CompileError>)
    ensures
        r == compile_of(s@, size_limit),
{
    match regex::RegexBuilder::new(s).size_limit(size_limit).build() {
        Ok(re) => Ok(re),
        Err(regex::Error::Syntax(m)) => Err(CompileError::Syntax(m)),
        Err(regex::Error::CompiledTooBig(_)) => Err(CompileError::CompiledTooBig),
        Err(_) => Err(CompileError::Other),
    }
}

/// Relies on regex::Regex::find_iter: yields the successive
/// non-overlapping leftmost matches, in order, a deterministic function
/// of the matcher and the haystack; each match's start and end are byte
/// offsets into the haystack with `start <= end`.
#[verifier::external_body]
pub(crate) fn find_spans(re: &regex::Regex, hay: &str) -> (r: Vec<(usize, usize)>)
    ensures
        r@ == match_spans_of(*re, hay@),
        forall|k: int|
            0 <= k < r@.len() ==> (#[trigger] r@[k]).0 <= r@[k].1 && r@[k].1 <= encode_utf8(
                hay@,
            ).len(),
        forall|k: int, j: int| 0 <= k < j < r@.len() ==> r@[k].1 <= r@[j].0,
{
    re.find_iter(hay).map(|m| (m.start(), m.end())).collect()
}

/// Relies on regex::Regex::captures and regex::Captures::iter: the first
/// match's capture groups in order, a deterministic function of the
/// matcher and the haystack; group 0 is the whole match and always
/// present; each present group's offsets lie in the haystack.
#[verifier::external_body]
pub(crate) fn captures_spans(re: &regex::Regex, hay: &str) -> (r: Option<Vec<Option<(usize, usize)>>>)
    ensures
        r is Some <==> captures_of(*re, hay@) is Some,
        r matches Some(groups) ==> captures_of(*re, hay@) == Some(groups@),
        r matches Some(groups) ==> groups@.len() >= 1 && groups@[0] is Some,
        r matches Some(groups) ==> forall|k: int|
            0 <= k < groups@.len() ==> ((#[trigger] groups@[k]) matches Some(g) ==> g.0 <= g.1
                && g.1 <= encode_utf8(hay@).len()),
{
    re.captures(hay).map(|c| c.iter().map(|g| g.map(|m| (m.start(), m.end()))).collect())
}

} // verus!
