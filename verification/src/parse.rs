//! Pattern parser adapter: turns a pattern string into a syntax tree or a
//! structured parse error with source spans.
//!
//! The parsing itself is done by the `regex_syntax` crate; its tree is
//! converted, node for node, into the library's own [`SyntaxTree`]. A parsed
//! tree is then checked to be well-formed (span containment, sibling
//! order, root covering the whole pattern), so that every `Ok` result
//! carries a proved-well-formed tree.

use vstd::prelude::*;

use vstd::utf8::encode_utf8;

use regex_syntax::ast as rx;

use crate::ast::{check_wf_ast, wf_ast, ByteSpan, ClassContents, ClassItem, SyntaxTree};

use crate::compose::byte_len;

verus! {

/// A position in the pattern string: byte offset with derived line and
/// column (both starting at 1).
#[derive(Clone, Copy, Debug, PartialEq, Eq, Structural)]
pub struct SourcePos {
    pub offset: usize,
    pub line: usize,
    pub column: usize,
}

/// A source range `[start, end)` of an error, with derived line/column.
#[derive(Clone, Copy, Debug, PartialEq, Eq, Structural)]
pub struct SourceSpan {
    pub start: SourcePos,
    pub end: SourcePos,
}

/// A structured parse error: a human-readable kind message, a primary
/// span, and an optional auxiliary span pointing at a related earlier
/// construct (such as the opening delimiter of an unterminated group).
#[derive(Debug, PartialEq, Eq)]
pub struct ParseError {
    pub message: String,
    pub primary: SourceSpan,
    pub auxiliary: Option<SourceSpan>,
}

/// What parsing a pattern yields, as a function of the pattern alone.
/// Parsing is deterministic, so the whole outcome carries a name.
pub uninterp spec fn parse_of(s: Seq<char>) -> Result<SyntaxTree, ParseError>;

/// Relies on the field layout of regex_syntax::ast::Span and Position:
/// `offset` is a byte offset into the pattern.
#[verifier::external_body]
fn conv_span(s: &rx::Span) -> ByteSpan {
    ByteSpan { start: s.start.offset, end: s.end.offset }
}

/// Relies on regex_syntax::ast::Position: byte offset with line and
/// column starting at 1.
#[verifier::external_body]
fn conv_errspan(s: &rx::Span) -> SourceSpan {
    SourceSpan {
        start: SourcePos { offset: s.start.offset, line: s.start.line, column: s.start.column },
        end: SourcePos { offset: s.end.offset, line: s.end.line, column: s.end.column },
    }
}

/// Relies on the variants of regex_syntax::ast::SyntaxTree; converts the
/// composite kinds, leaving leaves to `leaf_of`.
#[verifier::external_body]
fn tree_of(a: &rx::Ast) -> SyntaxTree {
    let s = conv_span(a.span());
    match a {
        rx::Ast::ClassBracketed(x) => SyntaxTree::ClassBracketed(s, Box::new(set_of(&x.kind))),
        rx::Ast::Repetition(x) => SyntaxTree::Repetition(s, Box::new(tree_of(&x.ast))),
        rx::Ast::Group(x) => SyntaxTree::Group(s, Box::new(tree_of(&x.ast))),
        rx::Ast::Alternation(x) => SyntaxTree::Alternation(s, trees_of(&x.asts)),
        rx::Ast::Concat(x) => SyntaxTree::Concat(s, trees_of(&x.asts)),
        _ => leaf_of(a, s),
    }
}

/// Relies on the variants of regex_syntax::ast::SyntaxTree; the composite kinds
/// are already handled by `tree_of`, so the remaining wildcard is the
/// empty pattern.
#[verifier::external_body]
fn leaf_of(a: &rx::Ast, s: ByteSpan) -> SyntaxTree {
    match a {
        rx::Ast::Flags(_) => SyntaxTree::Flags(s),
        rx::Ast::Literal(_) => SyntaxTree::Literal(s),
        rx::Ast::Dot(_) => SyntaxTree::Dot(s),
        rx::Ast::Assertion(_) => SyntaxTree::Assertion(s),
        rx::Ast::ClassUnicode(_) => SyntaxTree::ClassUnicode(s),
        rx::Ast::ClassPerl(_) => SyntaxTree::ClassPerl(s),
        _ => SyntaxTree::Empty(s),
    }
}

/// Relies on Vec iteration order; converts each node in order.
#[verifier::external_body]
fn trees_of(v: &Vec<rx::Ast>) -> Vec<SyntaxTree> {
    v.iter().map(tree_of).collect()
}

/// Relies on the variants of regex_syntax::ast::ClassContents.
#[verifier::external_body]
fn set_of(c: &rx::ClassSet) -> ClassContents {
    match c {
        rx::ClassSet::Item(it) => ClassContents::Item(item_of(it)),
        rx::ClassSet::BinaryOp(x) => ClassContents::BinaryOp(
            conv_span(&x.span),
            Box::new(set_of(&x.lhs)),
            Box::new(set_of(&x.rhs)),
        ),
    }
}

/// Relies on the variants of regex_syntax::ast::ClassItem; the
/// wildcard is the empty item.
#[verifier::external_body]
fn item_of(it: &rx::ClassSetItem) -> ClassItem {
    let s = conv_span(it.span());
    match it {
        rx::ClassSetItem::Bracketed(x) => ClassItem::Bracketed(s, Box::new(set_of(&x.kind))),
        rx::ClassSetItem::Union(x) => ClassItem::Union(s, items_of(&x.items)),
        rx::ClassSetItem::Literal(_) => ClassItem::Literal(s),
        rx::ClassSetItem::Range(_) => ClassItem::Range(s),
        rx::ClassSetItem::Ascii(_) => ClassItem::Ascii(s),
        rx::ClassSetItem::Unicode(_) => ClassItem::Unicode(s),
        rx::ClassSetItem::Perl(_) => ClassItem::Perl(s),
        _ => ClassItem::Empty(s),
    }
}

/// Relies on Vec iteration order; converts each item in order.
#[verifier::external_body]
fn items_of(v: &Vec<rx::ClassSetItem>) -> Vec<ClassItem> {
    v.iter().map(item_of).collect()
}

/// Relies on regex_syntax::ast::Error: `kind()` displays the specific
/// sub-error message, `span()` is the primary span and
/// `auxiliary_span()` an optional related span, all into the pattern.
#[verifier::external_body]
fn err_of(e: &rx::Error) -> ParseError {
    ParseError {
        message: format!("{}", e.kind()),
        primary: conv_errspan(e.span()),
        auxiliary: e.auxiliary_span().map(conv_errspan),
    }
}

/// Relies on regex_syntax::ast::parse::Parser::parse: a total,
/// deterministic function of the pattern string alone, yielding a syntax
/// tree or a structured error; the result is converted node for node.
#[verifier::external_body]
fn parse_raw(s: &str) -> (r: Result<SyntaxTree, ParseError>)
    ensures
        r == parse_of(s@),
{
    match rx::parse::Parser::new().parse(s) {
        Ok(a) => Ok(tree_of(&a)),
        Err(e) => Err(err_of(&e)),
    }
}

/// A successfully parsed tree for a pattern of byte length `len`:
/// well-formed, with the root span covering the whole pattern.
pub open spec fn parse_tree_ok(t: SyntaxTree, len: nat) -> bool {
    wf_ast(t) && t.spec_span().start == 0 && t.spec_span().end == len
}

/// The span reported when a parsed tree fails the well-formedness check:
/// a zero-width span at the start of the pattern.
pub open spec fn malformed_span() -> SourceSpan {
    SourceSpan {
        start: SourcePos { offset: 0, line: 1, column: 1 },
        end: SourcePos { offset: 0, line: 1, column: 1 },
    }
}

/// What `parse` returns for pattern `s`: the parser's outcome, except
/// that a tree failing the well-formedness check is reported as an error.
pub open spec fn parse_post(s: Seq<char>, r: Result<SyntaxTree, ParseError>) -> bool {
    match parse_of(s) {
        Ok(t) => {
            if parse_tree_ok(t, encode_utf8(s).len()) {
                r == Ok::<SyntaxTree, ParseError>(t)
            } else {
                match r {
                    Ok(_) => false,
                    Err(e) => {
                        &&& e.message@ == "pattern syntax tree is malformed"@
                        &&& e.primary == malformed_span()
                        &&& e.auxiliary is None
                    },
                }
            }
        },
        Err(e) => r == Err::<SyntaxTree, ParseError>(e),
    }
}

/// Parse a pattern string into a syntax tree or a structured parse
/// error. An empty string parses to an empty-node tree. Every `Ok`
/// tree is well-formed: spans nest, siblings are disjoint and ordered,
/// and the root span covers the whole pattern.
pub fn parse(s: &str) -> (r: Result<SyntaxTree, ParseError>)
    ensures
        parse_post(s@, r),
        r matches Ok(t) ==> wf_ast(t) && t.spec_span().start == 0 && t.spec_span().end
            == encode_utf8(s@).len(),
{
    match parse_raw(s) {
        Ok(t) => {
            let sp = t.span();
            let n = byte_len(s);
            if sp.start == 0 && sp.end == n && check_wf_ast(&t) {
                Ok(t)
            } else {
                Err(
                    ParseError {
                        message: "pattern syntax tree is malformed".to_owned(),
                        primary: SourceSpan {
                            start: SourcePos { offset: 0, line: 1, column: 1 },
                            end: SourcePos { offset: 0, line: 1, column: 1 },
                        },
                        auxiliary: None,
                    },
                )
            }
        },
        Err(e) => Err(e),
    }
}

/// Structural equality of parse errors: same message text and spans.
pub open spec fn parse_err_eq(a: ParseError, b: ParseError) -> bool {
    a.message@ == b.message@ && a.primary == b.primary && a.auxiliary == b.auxiliary
}

/// Structural equality of parse outcomes.
pub open spec fn parse_result_eq(a: Result<SyntaxTree, ParseError>, b: Result<SyntaxTree, ParseError>) -> bool {
    match (a, b) {
        (Ok(x), Ok(y)) => x == y,
        (Err(x), Err(y)) => parse_err_eq(x, y),
        _ => false,
    }
}

/// Parsing is deterministic: any two outcomes that `parse` may return
/// for the same pattern string are structurally equal.
pub proof fn lemma_parse_deterministic(
    s: Seq<char>,
    r1: Result<SyntaxTree, ParseError>,
    r2: Result<SyntaxTree, ParseError>,
)
    ensures
        parse_post(s, r1) && parse_post(s, r2) ==> parse_result_eq(r1, r2),
{
}

} // verus!
