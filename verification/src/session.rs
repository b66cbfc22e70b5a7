//! Highlighting session: the facade that owns the current pattern string
//! and its recomputed-on-edit tree/matcher/error state, and exposes the
//! two style overlays plus error diagnostics.
//!
//! On every accepted edit the whole state is rederived from the new
//! pattern string: previous results are discarded and replaced
//! atomically; nothing is cached across edits.

use vstd::prelude::*;

use vstd::utf8::encode_utf8;

use crate::ast::SyntaxTree;
use crate::compile::{captures_of, captures_spans, compile, compile_of, find_spans, match_spans_of, CompileError};
use crate::compose::{byte_len, char_byte_offset, style_string, StyledChar};
use crate::highlight::{captures_overlay_spec, style_captures};
use crate::locate::{locate_marker, marker_spec, MarkerRect};
use crate::painter::{base_overlay, overlay_spec, paint};
use crate::parse::{parse, parse_post, ParseError};
use crate::style::Style;

verus! {

/// The ceiling on a compiled matcher's in-memory size that a session
/// uses unless another one is configured.
pub const DEFAULT_SIZE_LIMIT: usize = 10485760;

/// The session's externally visible condition, rederived on each edit.
/// A parse failure takes precedence over a compile failure for
/// diagnostic display.
#[derive(Clone, Copy, Debug, PartialEq, Eq, Structural)]
pub enum SessionState {
    Empty,
    Valid,
    ParseInvalid,
    CompileInvalid,
}

/// The session: current pattern, parse and compile outcomes, and the
/// pattern-text style overlay.
pub struct Session {
    pub pattern: String,
    pub parsed: Result<SyntaxTree, ParseError>,
    pub compiled: Result<regex::Regex, CompileError>,
    pub overlay: Vec<Style>,
    pub size_limit: usize,
}

/// Valid spans for a subject text of byte length `len`: each a range
/// within the text, successive spans non-overlapping and in order.
pub open spec fn match_spans_wf(spans: Seq<(usize, usize)>, len: nat) -> bool {
    &&& forall|k: int| 0 <= k < spans.len() ==> (#[trigger] spans[k]).0 <= spans[k].1 <= len
    &&& forall|k: int, j: int| 0 <= k < j < spans.len() ==> spans[k].1 <= spans[j].0
}

/// The subject-text overlay a matcher produces over a haystack: marked
/// exactly at the offsets its match spans cover.
pub open spec fn subject_overlay_spec(re: regex::Regex, hay: Seq<char>) -> Seq<Style> {
    captures_overlay_spec(encode_utf8(hay).len(), match_spans_of(re, hay))
}

impl Session {
    /// The session's internal consistency: the parse and compile
    /// outcomes are the parser's and the compiler's for the current
    /// pattern (and size ceiling), and the pattern overlay is the
    /// painter's output for the parsed tree — or all-default when the
    /// pattern failed to parse. No field retains a value derived from an
    /// earlier pattern string.
    pub open spec fn wf(self) -> bool {
        &&& parse_post(self.pattern@, self.parsed)
        &&& self.compiled == compile_of(self.pattern@, self.size_limit)
        &&& self.overlay@.len() == encode_utf8(self.pattern@).len()
        &&& match self.parsed {
            Ok(t) => self.overlay@ == overlay_spec(t, encode_utf8(self.pattern@).len()),
            Err(_) => self.overlay@ == base_overlay(encode_utf8(self.pattern@).len()),
        }
    }

    /// The state the session is in, as a function of its outcomes.
    pub open spec fn state_spec(self) -> SessionState {
        if self.parsed is Err {
            SessionState::ParseInvalid
        } else if self.compiled is Err {
            SessionState::CompileInvalid
        } else if self.pattern@.len() == 0 {
            SessionState::Empty
        } else {
            SessionState::Valid
        }
    }

    /// A session over an empty pattern, with the given ceiling on the
    /// compiled matcher's size.
    pub fn with_size_limit(limit: usize) -> (r: Session)
        ensures
            r.wf(),
            r.pattern@ == Seq::<char>::empty(),
            r.size_limit == limit,
    {
        let mut s = Session {
            pattern: String::new(),
            parsed: parse(""),
            compiled: compile("", limit),
            overlay: Vec::new(),
            size_limit: limit,
        };
        s.set_pattern(String::new());
        s
    }

    /// A session over an empty pattern, with the default size ceiling.
    pub fn new() -> (r: Session)
        ensures
            r.wf(),
            r.pattern@ == Seq::<char>::empty(),
            r.size_limit == DEFAULT_SIZE_LIMIT,
    {
        Session::with_size_limit(DEFAULT_SIZE_LIMIT)
    }

    /// Accept an edited pattern: rederive the syntax tree or parse
    /// error, the matcher or compile error, and the pattern overlay
    /// (painted when the parse succeeded, unstyled otherwise). Previous
    /// state is discarded wholesale.
    pub fn set_pattern(&mut self, s: String)
        ensures
            final(self).wf(),
            final(self).pattern@ == s@,
            final(self).size_limit == old(self).size_limit,
            parse_post(s@, final(self).parsed),
            final(self).compiled == compile_of(s@, old(self).size_limit),
    {
        let n = byte_len(s.as_str());
        self.parsed = parse(s.as_str());
        self.compiled = compile(s.as_str(), self.size_limit);
        self.overlay = match &self.parsed {
            Ok(t) => paint(t, n),
            Err(_) => blank_overlay(n),
        };
        self.pattern = s;
    }

    /// The session's current state.
    pub fn state(&self) -> (st: SessionState)
        ensures
            st == self.state_spec(),
    {
        match &self.parsed {
            Err(_) => SessionState::ParseInvalid,
            Ok(_) => match &self.compiled {
                Err(_) => SessionState::CompileInvalid,
                Ok(_) => {
                    if self.pattern.as_str().is_empty() {
                        SessionState::Empty
                    } else {
                        SessionState::Valid
                    }
                },
            },
        }
    }

    /// The pattern text as a per-character styled sequence, each
    /// character shown with the overlay value at its first byte offset.
    pub fn pattern_line(&self) -> (r: Vec<StyledChar>)
        requires
            self.wf(),
        ensures
            r@.len() == self.pattern@.len(),
            forall|k: int|
                0 <= k < self.pattern@.len() ==> (#[trigger] r@[k]).ch == self.pattern@[k]
                    && r@[k].style == self.overlay@[char_byte_offset(self.pattern@, k)],
    {
        style_string(self.pattern.as_str(), &self.overlay)
    }

    /// The subject-text style overlay: present exactly when the pattern
    /// compiled, marking exactly the byte offsets covered by the
    /// matcher's non-overlapping match spans over the subject.
    pub fn subject_overlay(&self, subject: &str) -> (r: Option<Vec<Style>>)
        ensures
            r is Some <==> self.compiled is Ok,
            r matches Some(o) ==> o@.len() == encode_utf8(subject@).len(),
            self.compiled matches Ok(re) ==> {
                &&& match_spans_wf(match_spans_of(re, subject@), encode_utf8(subject@).len())
                &&& r matches Some(o) && o@ == subject_overlay_spec(re, subject@)
            },
    {
        match &self.compiled {
            Ok(re) => {
                let n = byte_len(subject);
                let spans = find_spans(re, subject);
                let o = style_captures(n, &spans);
                proof {
                    assert(match_spans_wf(spans@, encode_utf8(subject@).len()));
                }
                Some(o)
            },
            Err(_) => None,
        }
    }

    /// The subject text as a per-character styled sequence, present
    /// exactly when the pattern compiled.
    pub fn subject_line(&self, subject: &str) -> (r: Option<Vec<StyledChar>>)
        ensures
            r is Some <==> self.compiled is Ok,
            r matches Some(line) ==> line@.len() == subject@.len() && forall|k: int|
                0 <= k < subject@.len() ==> (#[trigger] line@[k]).ch == subject@[k],
            self.compiled matches Ok(re) ==> (r matches Some(line) && forall|k: int|
                0 <= k < subject@.len() ==> (#[trigger] line@[k]).style == subject_overlay_spec(
                    re,
                    subject@,
                )[char_byte_offset(subject@, k)]),
    {
        match self.subject_overlay(subject) {
            Some(o) => Some(style_string(subject, &o)),
            None => None,
        }
    }

    /// The diagnostic marker rectangles for the current outcome, in the
    /// coordinate space of an input field with text origin
    /// `(origin_x, origin_y)`: primary and (if present) auxiliary spans
    /// of a parse error, one row below the text row; compile errors are
    /// not mapped to positions.
    pub fn markers(&self, origin_x: usize, origin_y: usize) -> (r: Vec<MarkerRect>)
        ensures
            match self.parsed {
                Err(e) => match e.auxiliary {
                    Some(aux) => r@ == seq![
                        marker_spec(
                            origin_x as nat,
                            origin_y as nat,
                            e.primary.start.column as nat,
                            e.primary.end.column as nat,
                        ),
                        marker_spec(
                            origin_x as nat,
                            origin_y as nat,
                            aux.start.column as nat,
                            aux.end.column as nat,
                        ),
                    ],
                    None => r@ == seq![
                        marker_spec(
                            origin_x as nat,
                            origin_y as nat,
                            e.primary.start.column as nat,
                            e.primary.end.column as nat,
                        ),
                    ],
                },
                Ok(_) => r@ == Seq::<MarkerRect>::empty(),
            },
    {
        let mut r: Vec<MarkerRect> = Vec::new();
        match &self.parsed {
            Err(e) => {
                r.push(
                    locate_marker(origin_x, origin_y, e.primary.start.column, e.primary.end.column),
                );
                match &e.auxiliary {
                    Some(aux) => {
                        r.push(locate_marker(origin_x, origin_y, aux.start.column, aux.end.column));
                        proof {
                            assert(r@ =~= seq![
                                marker_spec(
                                    origin_x as nat,
                                    origin_y as nat,
                                    self.parsed->Err_0.primary.start.column as nat,
                                    self.parsed->Err_0.primary.end.column as nat,
                                ),
                                marker_spec(
                                    origin_x as nat,
                                    origin_y as nat,
                                    self.parsed->Err_0.auxiliary->0.start.column as nat,
                                    self.parsed->Err_0.auxiliary->0.end.column as nat,
                                ),
                            ]);
                        }
                    },
                    None => {
                        proof {
                            assert(r@ =~= seq![
                                marker_spec(
                                    origin_x as nat,
                                    origin_y as nat,
                                    self.parsed->Err_0.primary.start.column as nat,
                                    self.parsed->Err_0.primary.end.column as nat,
                                ),
                            ]);
                        }
                    },
                }
            },
            Ok(_) => {
                proof {
                    assert(r@ =~= Seq::<MarkerRect>::empty());
                }
            },
        }
        r
    }

    /// The status message for the current outcome: the parse error's
    /// specific message (taking precedence), the compile error's own
    /// message or fixed text, or the all-clear text.
    pub fn message(&self) -> (r: String)
        ensures
            match self.parsed {
                Err(e) => r@ == e.message@,
                Ok(_) => match self.compiled {
                    Err(CompileError::Syntax(m)) => r@ == m@,
                    Err(CompileError::CompiledTooBig) => r@ == "Compiled regex ist too big!"@,
                    Err(CompileError::Other) => r@ == "Unknown error occurred!"@,
                    Ok(_) => r@ == "Nice"@,
                },
            },
    {
        match &self.parsed {
            Err(e) => e.message.clone(),
            Ok(_) => match &self.compiled {
                Err(CompileError::Syntax(m)) => m.clone(),
                Err(CompileError::CompiledTooBig) => "Compiled regex ist too big!".to_owned(),
                Err(CompileError::Other) => "Unknown error occurred!".to_owned(),
                Ok(_) => "Nice".to_owned(),
            },
        }
    }

    /// The capture groups of the matcher's first match over the subject,
    /// as byte-offset spans: group 0 (always present) is the whole
    /// match. `None` when the pattern did not compile or nothing
    /// matched.
    pub fn captures(&self, subject: &str) -> (r: Option<Vec<Option<(usize, usize)>>>)
        ensures
            self.compiled is Err ==> r is None,
            self.compiled matches Ok(re) ==> {
                &&& (r is Some <==> captures_of(re, subject@) is Some)
                &&& (r matches Some(groups) ==> captures_of(re, subject@) == Some(groups@))
            },
            r matches Some(groups) ==> groups@.len() >= 1 && groups@[0] is Some,
    {
        match &self.compiled {
            Ok(re) => captures_spans(re, subject),
            Err(_) => None,
        }
    }

    /// The current parse outcome.
    pub fn ast(&self) -> (r: &Result<SyntaxTree, ParseError>)
        ensures
            r == &self.parsed,
    {
        &self.parsed
    }

    /// The current compile outcome.
    pub fn matcher(&self) -> (r: &Result<regex::Regex, CompileError>)
        ensures
            r == &self.compiled,
    {
        &self.compiled
    }
}

/// An all-default overlay of the given byte length.
pub fn blank_overlay(len: usize) -> (r: Vec<Style>)
    ensures
        r@ == base_overlay(len as nat),
{
    let mut o: Vec<Style> = Vec::new();
    let mut i: usize = 0;
    while i < len
        invariant
            i <= len,
            o@.len() == i,
            forall|j: int| 0 <= j < i ==> o@[j] == Style::default_spec(),
        decreases len - i,
    {
        o.push(Style::new());
        i += 1;
    }
    proof {
        assert(o@ =~= base_overlay(len as nat));
    }
    o
}

} // verus!
