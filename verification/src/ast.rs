//! The pattern syntax tree: a tagged union over node kinds, each node
//! carrying a byte-offset span into the original pattern string.
//!
//! Well-formedness (`wf_ast`): a child's span is contained in its parent's
//! span, sibling spans are disjoint and ordered by start offset, and every
//! span has `start <= end`.

use vstd::prelude::*;

verus! {

/// A byte-offset range `[start, end)` into the pattern string.
#[derive(Clone, Copy, Debug, PartialEq, Eq, Structural)]
pub struct ByteSpan {
    pub start: usize,
    pub end: usize,
}

/// A syntax tree node. Composite kinds carry their children in order.
#[derive(Debug, PartialEq, Eq)]
pub enum SyntaxTree {
    /// An empty pattern or empty alternation branch.
    Empty(ByteSpan),
    /// An inline flag setting such as `(?i)`.
    Flags(ByteSpan),
    /// A single literal character, including escape sequences.
    Literal(ByteSpan),
    /// The any-character class `.`.
    Dot(ByteSpan),
    /// A zero-width assertion: an anchor or a word boundary.
    Assertion(ByteSpan),
    /// A Unicode character class such as `\pL`.
    ClassUnicode(ByteSpan),
    /// A Perl character class such as `\d`.
    ClassPerl(ByteSpan),
    /// A bracketed character class such as `[a-z]`, with its item set.
    ClassBracketed(ByteSpan, Box<ClassContents>),
    /// A repetition operator applied to a subexpression.
    Repetition(ByteSpan, Box<SyntaxTree>),
    /// A grouped subexpression.
    Group(ByteSpan, Box<SyntaxTree>),
    /// An alternation of subexpressions.
    Alternation(ByteSpan, Vec<SyntaxTree>),
    /// A concatenation of subexpressions.
    Concat(ByteSpan, Vec<SyntaxTree>),
}

/// The contents of a bracketed character class: either a plain item or a
/// binary set operation (intersection, difference, symmetric difference)
/// over two contents.
#[derive(Debug, PartialEq, Eq)]
pub enum ClassContents {
    Item(ClassItem),
    BinaryOp(ByteSpan, Box<ClassContents>, Box<ClassContents>),
}

/// An item inside a bracketed character class.
#[derive(Debug, PartialEq, Eq)]
pub enum ClassItem {
    /// An empty item, as in one operand of `[&&]`.
    Empty(ByteSpan),
    /// A single literal.
    Literal(ByteSpan),
    /// A range between two literals, such as `a-z`.
    Range(ByteSpan),
    /// An ASCII class such as `[:alnum:]`.
    Ascii(ByteSpan),
    /// A Unicode class such as `\pL`.
    Unicode(ByteSpan),
    /// A Perl class such as `\d`.
    Perl(ByteSpan),
    /// A nested bracketed class, with its contents.
    Bracketed(ByteSpan, Box<ClassContents>),
    /// A union of items.
    Union(ByteSpan, Vec<ClassItem>),
}

/// Whether `inner` lies within `outer`.
pub open spec fn span_contains(outer: ByteSpan, inner: ByteSpan) -> bool {
    outer.start <= inner.start && inner.end <= outer.end
}

impl SyntaxTree {
    /// The node's span.
    pub open spec fn spec_span(self) -> ByteSpan {
        match self {
            SyntaxTree::Empty(sp) => sp,
            SyntaxTree::Flags(sp) => sp,
            SyntaxTree::Literal(sp) => sp,
            SyntaxTree::Dot(sp) => sp,
            SyntaxTree::Assertion(sp) => sp,
            SyntaxTree::ClassUnicode(sp) => sp,
            SyntaxTree::ClassPerl(sp) => sp,
            SyntaxTree::ClassBracketed(sp, _) => sp,
            SyntaxTree::Repetition(sp, _) => sp,
            SyntaxTree::Group(sp, _) => sp,
            SyntaxTree::Alternation(sp, _) => sp,
            SyntaxTree::Concat(sp, _) => sp,
        }
    }

    /// The node's span.
    pub fn span(&self) -> (r: ByteSpan)
        ensures
            r == self.spec_span(),
    {
        match self {
            SyntaxTree::Empty(sp) => *sp,
            SyntaxTree::Flags(sp) => *sp,
            SyntaxTree::Literal(sp) => *sp,
            SyntaxTree::Dot(sp) => *sp,
            SyntaxTree::Assertion(sp) => *sp,
            SyntaxTree::ClassUnicode(sp) => *sp,
            SyntaxTree::ClassPerl(sp) => *sp,
            SyntaxTree::ClassBracketed(sp, _) => *sp,
            SyntaxTree::Repetition(sp, _) => *sp,
            SyntaxTree::Group(sp, _) => *sp,
            SyntaxTree::Alternation(sp, _) => *sp,
            SyntaxTree::Concat(sp, _) => *sp,
        }
    }
}

impl ClassContents {
    /// The span of the contents.
    pub open spec fn spec_span(self) -> ByteSpan {
        match self {
            ClassContents::Item(it) => it.spec_span(),
            ClassContents::BinaryOp(sp, _, _) => sp,
        }
    }

    /// The span of the contents.
    pub fn span(&self) -> (r: ByteSpan)
        ensures
            r == self.spec_span(),
    {
        match self {
            ClassContents::Item(it) => it.span(),
            ClassContents::BinaryOp(sp, _, _) => *sp,
        }
    }
}

impl ClassItem {
    /// The item's span.
    pub open spec fn spec_span(self) -> ByteSpan {
        match self {
            ClassItem::Empty(sp) => sp,
            ClassItem::Literal(sp) => sp,
            ClassItem::Range(sp) => sp,
            ClassItem::Ascii(sp) => sp,
            ClassItem::Unicode(sp) => sp,
            ClassItem::Perl(sp) => sp,
            ClassItem::Bracketed(sp, _) => sp,
            ClassItem::Union(sp, _) => sp,
        }
    }

    /// The item's span.
    pub fn span(&self) -> (r: ByteSpan)
        ensures
            r == self.spec_span(),
    {
        match self {
            ClassItem::Empty(sp) => *sp,
            ClassItem::Literal(sp) => *sp,
            ClassItem::Range(sp) => *sp,
            ClassItem::Ascii(sp) => *sp,
            ClassItem::Unicode(sp) => *sp,
            ClassItem::Perl(sp) => *sp,
            ClassItem::Bracketed(sp, _) => *sp,
            ClassItem::Union(sp, _) => *sp,
        }
    }
}

/// Well-formedness of a syntax tree node: spans are ordered ranges, every
/// child's span lies within its parent's, and sibling spans are disjoint
/// and ordered by start offset.
pub open spec fn wf_ast(t: SyntaxTree) -> bool
    decreases t,
{
    t.spec_span().start <= t.spec_span().end && match t {
        SyntaxTree::ClassBracketed(sp, set) => span_contains(sp, set.spec_span()) && wf_class_set(*set),
        SyntaxTree::Repetition(sp, child) => span_contains(sp, child.spec_span()) && wf_ast(*child),
        SyntaxTree::Group(sp, child) => span_contains(sp, child.spec_span()) && wf_ast(*child),
        SyntaxTree::Alternation(sp, kids) => wf_ast_children(sp, kids@),
        SyntaxTree::Concat(sp, kids) => wf_ast_children(sp, kids@),
        _ => true,
    }
}

/// Well-formedness of an ordered sequence of sibling nodes under a parent
/// span: each contained in the parent, consecutive spans disjoint and in
/// order, each child well-formed.
pub open spec fn wf_ast_children(sp: ByteSpan, kids: Seq<SyntaxTree>) -> bool
    decreases kids,
{
    &&& forall|i: int|
        0 <= i < kids.len() ==> span_contains(sp, (#[trigger] kids[i]).spec_span())
    &&& forall|i: int|
        0 <= i && i + 1 < kids.len() ==> (#[trigger] kids[i]).spec_span().end <= kids[i
            + 1].spec_span().start
    &&& forall|i: int| 0 <= i < kids.len() ==> wf_ast(#[trigger] kids[i])
}

/// Well-formedness of bracketed-class contents.
pub open spec fn wf_class_set(s: ClassContents) -> bool
    decreases s,
{
    match s {
        ClassContents::Item(it) => wf_class_item(it),
        ClassContents::BinaryOp(sp, lhs, rhs) => {
            &&& sp.start <= sp.end
            &&& span_contains(sp, lhs.spec_span())
            &&& span_contains(sp, rhs.spec_span())
            &&& lhs.spec_span().end <= rhs.spec_span().start
            &&& wf_class_set(*lhs)
            &&& wf_class_set(*rhs)
        },
    }
}

/// Well-formedness of a class item.
pub open spec fn wf_class_item(it: ClassItem) -> bool
    decreases it,
{
    it.spec_span().start <= it.spec_span().end && match it {
        ClassItem::Bracketed(sp, set) => span_contains(sp, set.spec_span()) && wf_class_set(
            *set,
        ),
        ClassItem::Union(sp, items) => wf_item_children(sp, items@),
        _ => true,
    }
}

/// Well-formedness of an ordered sequence of sibling class items.
pub open spec fn wf_item_children(sp: ByteSpan, items: Seq<ClassItem>) -> bool
    decreases items,
{
    &&& forall|i: int|
        0 <= i < items.len() ==> span_contains(sp, (#[trigger] items[i]).spec_span())
    &&& forall|i: int|
        0 <= i && i + 1 < items.len() ==> (#[trigger] items[i]).spec_span().end <= items[i
            + 1].spec_span().start
    &&& forall|i: int| 0 <= i < items.len() ==> wf_class_item(#[trigger] items[i])
}

/// Decide well-formedness of a syntax tree node.
pub fn check_wf_ast(t: &SyntaxTree) -> (r: bool)
    ensures
        r == wf_ast(*t),
    decreases *t,
{
    let sp = t.span();
    if !(sp.start <= sp.end) {
        return false;
    }
    match t {
        SyntaxTree::ClassBracketed(_, set) => {
            let ssp = set.span();
            sp.start <= ssp.start && ssp.end <= sp.end && check_wf_class_set(set)
        },
        SyntaxTree::Repetition(_, child) => {
            let csp = child.span();
            sp.start <= csp.start && csp.end <= sp.end && check_wf_ast(child)
        },
        SyntaxTree::Group(_, child) => {
            let csp = child.span();
            sp.start <= csp.start && csp.end <= sp.end && check_wf_ast(child)
        },
        SyntaxTree::Alternation(_, kids) => check_wf_ast_children(sp, kids),
        SyntaxTree::Concat(_, kids) => check_wf_ast_children(sp, kids),
        _ => true,
    }
}

/// Decide well-formedness of a sequence of sibling nodes under `sp`.
fn check_wf_ast_children(sp: ByteSpan, kids: &Vec<SyntaxTree>) -> (r: bool)
    ensures
        r == wf_ast_children(sp, kids@),
    decreases kids@,
{
    let n = kids.len();
    let mut i: usize = 0;
    while i < n
        invariant
            n == kids@.len(),
            i <= n,
            forall|j: int| 0 <= j < i ==> span_contains(sp, (#[trigger] kids@[j]).spec_span()),
            forall|j: int|
                0 <= j && j + 1 < i ==> (#[trigger] kids@[j]).spec_span().end <= kids@[j
                    + 1].spec_span().start,
            forall|j: int| 0 <= j < i ==> wf_ast(#[trigger] kids@[j]),
        decreases n - i,
    {
        let ksp = kids[i].span();
        if !(sp.start <= ksp.start && ksp.end <= sp.end) {
            return false;
        }
        if i > 0 {
            let psp = kids[i - 1].span();
            if !(psp.end <= ksp.start) {
                return false;
            }
        }
        if !check_wf_ast(&kids[i]) {
            return false;
        }
        i += 1;
    }
    true
}

/// Decide well-formedness of bracketed-class contents.
pub fn check_wf_class_set(s: &ClassContents) -> (r: bool)
    ensures
        r == wf_class_set(*s),
    decreases *s,
{
    match s {
        ClassContents::Item(it) => check_wf_class_item(it),
        ClassContents::BinaryOp(sp, lhs, rhs) => {
            let lsp = lhs.span();
            let rsp = rhs.span();
            sp.start <= sp.end && sp.start <= lsp.start && lsp.end <= sp.end && sp.start
                <= rsp.start && rsp.end <= sp.end && lsp.end <= rsp.start && check_wf_class_set(
                lhs,
            ) && check_wf_class_set(rhs)
        },
    }
}

/// Decide well-formedness of a class item.
pub fn check_wf_class_item(it: &ClassItem) -> (r: bool)
    ensures
        r == wf_class_item(*it),
    decreases *it,
{
    let sp = it.span();
    if !(sp.start <= sp.end) {
        return false;
    }
    match it {
        ClassItem::Bracketed(_, set) => {
            let ssp = set.span();
            sp.start <= ssp.start && ssp.end <= sp.end && check_wf_class_set(set)
        },
        ClassItem::Union(_, items) => check_wf_item_children(sp, items),
        _ => true,
    }
}

/// Decide well-formedness of a sequence of sibling class items under `sp`.
fn check_wf_item_children(sp: ByteSpan, items: &Vec<ClassItem>) -> (r: bool)
    ensures
        r == wf_item_children(sp, items@),
    decreases items@,
{
    let n = items.len();
    let mut i: usize = 0;
    while i < n
        invariant
            n == items@.len(),
            i <= n,
            forall|j: int| 0 <= j < i ==> span_contains(sp, (#[trigger] items@[j]).spec_span()),
            forall|j: int|
                0 <= j && j + 1 < i ==> (#[trigger] items@[j]).spec_span().end <= items@[j
                    + 1].spec_span().start,
            forall|j: int| 0 <= j < i ==> wf_class_item(#[trigger] items@[j]),
        decreases n - i,
    {
        let ksp = items[i].span();
        if !(sp.start <= ksp.start && ksp.end <= sp.end) {
            return false;
        }
        if i > 0 {
            let psp = items[i - 1].span();
            if !(psp.end <= ksp.start) {
                return false;
            }
        }
        if !check_wf_class_item(&items[i]) {
            return false;
        }
        i += 1;
    }
    true
}

} // verus!
