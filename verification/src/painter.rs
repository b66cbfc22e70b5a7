//! Style painter: walks a syntax tree in pre-order and paints a per-byte
//! style overlay for the pattern text.
//!
//! Every node writes its color over its whole span; children are visited
//! after their parent, so a child's (narrower) write overwrites its
//! ancestor's for the overlapping region — the last writer in pre-order
//! wins. Writes falling outside the overlay are ignored.

use vstd::prelude::*;

use crate::ast::{ClassContents, ClassItem, SyntaxTree};
use crate::style::{Color, Style};

verus! {

/// One paint step: a color write (or a pass-through, for `None`) over a
/// byte-offset range.
#[derive(Clone, Copy, Debug, PartialEq, Eq, Structural)]
pub struct PaintEvent {
    pub color: Option<Color>,
    pub start: usize,
    pub end: usize,
}

/// The color the painter assigns to a syntax tree node kind.
/// Concatenation passes the inherited style through unchanged.
pub open spec fn ast_color(t: SyntaxTree) -> Option<Color> {
    match t {
        SyntaxTree::Empty(_) => Some(Color::LightMagenta),
        SyntaxTree::Flags(_) => Some(Color::LightCyan),
        SyntaxTree::Literal(_) => Some(Color::Yellow),
        SyntaxTree::Dot(_) => Some(Color::White),
        SyntaxTree::Assertion(_) => Some(Color::LightRed),
        SyntaxTree::ClassUnicode(_) => Some(Color::LightYellow),
        SyntaxTree::ClassPerl(_) => Some(Color::Magenta),
        SyntaxTree::ClassBracketed(_, _) => Some(Color::Cyan),
        SyntaxTree::Repetition(_, _) => Some(Color::LightGreen),
        SyntaxTree::Group(_, _) => Some(Color::Green),
        SyntaxTree::Alternation(_, _) => Some(Color::Blue),
        SyntaxTree::Concat(_, _) => None,
    }
}

/// The color the painter assigns to a class item kind. Empty, nested
/// bracketed and union items pass the inherited style through unchanged.
pub open spec fn item_color(it: ClassItem) -> Option<Color> {
    match it {
        ClassItem::Empty(_) => None,
        ClassItem::Literal(_) => Some(Color::Yellow),
        ClassItem::Range(_) => Some(Color::Cyan),
        ClassItem::Ascii(_) => Some(Color::Blue),
        ClassItem::Unicode(_) => Some(Color::LightYellow),
        ClassItem::Perl(_) => Some(Color::Green),
        ClassItem::Bracketed(_, _) => None,
        ClassItem::Union(_, _) => None,
    }
}

/// Write `c` into the foreground slot of `st`; `None` leaves `st` unchanged.
pub open spec fn apply_color(c: Option<Color>, st: Style) -> Style {
    match c {
        Some(col) => Style { fg: Some(col), bg: st.bg },
        None => st,
    }
}

/// Apply the node-kind color of `t` to a style. This is the per-cell write
/// the painter performs over the node's span.
pub fn style_ast(t: &SyntaxTree, st: Style) -> (r: Style)
    ensures
        r == apply_color(ast_color(*t), st),
{
    match t {
        SyntaxTree::Empty(_) => st.with_fg(Color::LightMagenta),
        SyntaxTree::Flags(_) => st.with_fg(Color::LightCyan),
        SyntaxTree::Literal(_) => st.with_fg(Color::Yellow),
        SyntaxTree::Dot(_) => st.with_fg(Color::White),
        SyntaxTree::Assertion(_) => st.with_fg(Color::LightRed),
        SyntaxTree::ClassUnicode(_) => st.with_fg(Color::LightYellow),
        SyntaxTree::ClassPerl(_) => st.with_fg(Color::Magenta),
        SyntaxTree::ClassBracketed(_, _) => st.with_fg(Color::Cyan),
        SyntaxTree::Repetition(_, _) => st.with_fg(Color::LightGreen),
        SyntaxTree::Group(_, _) => st.with_fg(Color::Green),
        SyntaxTree::Alternation(_, _) => st.with_fg(Color::Blue),
        SyntaxTree::Concat(_, _) => st,
    }
}

/// Apply the item-kind color of `it` to a style.
pub fn style_class_item(it: &ClassItem, st: Style) -> (r: Style)
    ensures
        r == apply_color(item_color(*it), st),
{
    match it {
        ClassItem::Empty(_) => st,
        ClassItem::Literal(_) => st.with_fg(Color::Yellow),
        ClassItem::Range(_) => st.with_fg(Color::Cyan),
        ClassItem::Ascii(_) => st.with_fg(Color::Blue),
        ClassItem::Unicode(_) => st.with_fg(Color::LightYellow),
        ClassItem::Perl(_) => st.with_fg(Color::Green),
        ClassItem::Bracketed(_, _) => st,
        ClassItem::Union(_, _) => st,
    }
}

/// The paint step a node performs for itself, before its children.
pub open spec fn node_event(t: SyntaxTree) -> PaintEvent {
    PaintEvent { color: ast_color(t), start: t.spec_span().start, end: t.spec_span().end }
}

/// The paint step a class item performs for itself.
pub open spec fn item_event(it: ClassItem) -> PaintEvent {
    PaintEvent { color: item_color(it), start: it.spec_span().start, end: it.spec_span().end }
}

/// The pre-order sequence of paint steps of a node: its own write, then
/// its children's, left to right.
pub open spec fn events_of_ast(t: SyntaxTree) -> Seq<PaintEvent>
    decreases t,
{
    seq![node_event(t)] + match t {
        SyntaxTree::ClassBracketed(_, set) => events_of_class_set(*set),
        SyntaxTree::Repetition(_, child) => events_of_ast(*child),
        SyntaxTree::Group(_, child) => events_of_ast(*child),
        SyntaxTree::Alternation(_, kids) => events_of_ast_list(kids@),
        SyntaxTree::Concat(_, kids) => events_of_ast_list(kids@),
        _ => Seq::empty(),
    }
}

/// The paint steps of a list of sibling nodes, in order.
pub open spec fn events_of_ast_list(ts: Seq<SyntaxTree>) -> Seq<PaintEvent>
    decreases ts,
{
    if ts.len() == 0 {
        Seq::empty()
    } else {
        events_of_ast_list(ts.drop_last()) + events_of_ast(ts.last())
    }
}

/// The paint steps of bracketed-class contents. A binary set operation
/// writes nothing itself; its operands' items are visited in order.
pub open spec fn events_of_class_set(s: ClassContents) -> Seq<PaintEvent>
    decreases s,
{
    match s {
        ClassContents::Item(it) => events_of_item(it),
        ClassContents::BinaryOp(_, lhs, rhs) => events_of_class_set(*lhs) + events_of_class_set(*rhs),
    }
}

/// The pre-order paint steps of a class item.
pub open spec fn events_of_item(it: ClassItem) -> Seq<PaintEvent>
    decreases it,
{
    seq![item_event(it)] + match it {
        ClassItem::Bracketed(_, set) => events_of_class_set(*set),
        ClassItem::Union(_, items) => events_of_item_list(items@),
        _ => Seq::empty(),
    }
}

/// The paint steps of a list of sibling class items, in order.
pub open spec fn events_of_item_list(its: Seq<ClassItem>) -> Seq<PaintEvent>
    decreases its,
{
    if its.len() == 0 {
        Seq::empty()
    } else {
        events_of_item_list(its.drop_last()) + events_of_item(its.last())
    }
}

/// One paint step applied to an overlay: cells of the step's range (that
/// lie in the overlay) get the step's color written into their foreground
/// slot; every other cell is unchanged.
pub open spec fn apply_event(o: Seq<Style>, ev: PaintEvent) -> Seq<Style> {
    Seq::new(
        o.len(),
        |j: int|
            if ev.start <= j < ev.end {
                apply_color(ev.color, o[j])
            } else {
                o[j]
            },
    )
}

/// A sequence of paint steps applied to an overlay, first step first, so
/// that later steps overwrite earlier ones.
pub open spec fn apply_events(evs: Seq<PaintEvent>, o: Seq<Style>) -> Seq<Style>
    decreases evs.len(),
{
    if evs.len() == 0 {
        o
    } else {
        apply_events(evs.drop_first(), apply_event(o, evs[0]))
    }
}

/// The all-default overlay of a given byte length.
pub open spec fn base_overlay(len: nat) -> Seq<Style> {
    Seq::new(len, |j: int| Style::default_spec())
}

/// The overlay the painter produces for tree `t` over a pattern of byte
/// length `len`.
pub open spec fn overlay_spec(t: SyntaxTree, len: nat) -> Seq<Style> {
    apply_events(events_of_ast(t), base_overlay(len))
}

/// Applying paint steps never changes the overlay's length.
pub proof fn lemma_apply_events_len(evs: Seq<PaintEvent>, o: Seq<Style>)
    ensures
        apply_events(evs, o).len() == o.len(),
    decreases evs.len(),
{
    if evs.len() != 0 {
        lemma_apply_events_len(evs.drop_first(), apply_event(o, evs[0]));
    }
}

/// Splitting a sequence of paint steps: applying `a + b` is applying `a`,
/// then `b` over its result.
pub proof fn lemma_apply_events_concat(a: Seq<PaintEvent>, b: Seq<PaintEvent>, o: Seq<Style>)
    ensures
        apply_events(a + b, o) == apply_events(b, apply_events(a, o)),
    decreases a.len(),
{
    if a.len() == 0 {
        assert(a + b =~= b);
    } else {
        assert((a + b).drop_first() =~= a.drop_first() + b);
        assert((a + b)[0] == a[0]);
        lemma_apply_events_concat(a.drop_first(), b, apply_event(o, a[0]));
    }
}

/// The color of the last paint step in `evs` that covers offset `i` and
/// actually writes a color, if any.
pub open spec fn last_writer(evs: Seq<PaintEvent>, i: int) -> Option<Color>
    decreases evs.len(),
{
    if evs.len() == 0 {
        None
    } else {
        let rest = last_writer(evs.drop_first(), i);
        if rest is Some {
            rest
        } else if evs[0].color is Some && evs[0].start <= i < evs[0].end {
            evs[0].color
        } else {
            None
        }
    }
}

/// The overwrite rule, pointwise: after applying a sequence of paint
/// steps, a cell's foreground is the color of the last step that covered
/// it and wrote a color — never a mix — and its background is untouched.
pub proof fn lemma_last_writer_wins(evs: Seq<PaintEvent>, o: Seq<Style>, i: int)
    requires
        0 <= i < o.len(),
    ensures
        apply_events(evs, o)[i].bg == o[i].bg,
        last_writer(evs, i) is Some ==> apply_events(evs, o)[i].fg == last_writer(evs, i),
        last_writer(evs, i) is None ==> apply_events(evs, o)[i].fg == o[i].fg,
    decreases evs.len(),
{
    if evs.len() != 0 {
        lemma_last_writer_wins(evs.drop_first(), apply_event(o, evs[0]), i);
    }
}

/// The overwrite rule for a painted tree: a cell of the overlay shows the
/// color of the last node in pre-order whose span covers it (children
/// winning over their ancestors), and no background.
pub proof fn lemma_overlay_cell(t: SyntaxTree, len: nat, i: int)
    requires
        0 <= i < len,
    ensures
        overlay_spec(t, len).len() == len,
        overlay_spec(t, len)[i].bg is None,
        overlay_spec(t, len)[i].fg == last_writer(events_of_ast(t), i),
{
    lemma_apply_events_len(events_of_ast(t), base_overlay(len));
    lemma_last_writer_wins(events_of_ast(t), base_overlay(len), i);
}

/// Write one paint step into the overlay: each covered cell in range gets
/// `style_of` applied; out-of-overlay offsets are skipped.
fn paint_event_ast(t: &SyntaxTree, o: &mut Vec<Style>)
    ensures
        final(o)@ == apply_event(old(o)@, node_event(*t)),
{
    let ghost o0 = o@;
    let sp = t.span();
    let hi = if sp.end <= o.len() {
        sp.end
    } else {
        o.len()
    };
    let mut i: usize = if sp.start <= hi {
        sp.start
    } else {
        hi
    };
    while i < hi
        invariant
            o@.len() == o0.len(),
            hi <= o@.len(),
            sp.start <= i || i == hi,
            i <= hi,
            hi == if sp.end <= o0.len() {
                sp.end as int
            } else {
                o0.len() as int
            },
            sp == t.spec_span(),
            forall|j: int|
                0 <= j < o@.len() ==> o@[j] == (if sp.start <= j < i {
                    apply_color(ast_color(*t), o0[j])
                } else {
                    o0[j]
                }),
        decreases hi - i,
    {
        let st = o[i];
        let ns = style_ast(t, st);
        o.set(i, ns);
        i += 1;
    }
    proof {
        assert(final(o)@ =~= apply_event(o0, node_event(*t)));
    }
}

/// Write one class-item paint step into the overlay.
fn paint_event_item(it: &ClassItem, o: &mut Vec<Style>)
    ensures
        final(o)@ == apply_event(old(o)@, item_event(*it)),
{
    let ghost o0 = o@;
    let sp = it.span();
    let hi = if sp.end <= o.len() {
        sp.end
    } else {
        o.len()
    };
    let mut i: usize = if sp.start <= hi {
        sp.start
    } else {
        hi
    };
    while i < hi
        invariant
            o@.len() == o0.len(),
            hi <= o@.len(),
            sp.start <= i || i == hi,
            i <= hi,
            hi == if sp.end <= o0.len() {
                sp.end as int
            } else {
                o0.len() as int
            },
            sp == it.spec_span(),
            forall|j: int|
                0 <= j < o@.len() ==> o@[j] == (if sp.start <= j < i {
                    apply_color(item_color(*it), o0[j])
                } else {
                    o0[j]
                }),
        decreases hi - i,
    {
        let st = o[i];
        let ns = style_class_item(it, st);
        o.set(i, ns);
        i += 1;
    }
    proof {
        assert(final(o)@ =~= apply_event(o0, item_event(*it)));
    }
}

/// Paint a node and, after it, its children, into the overlay.
fn paint_ast(t: &SyntaxTree, o: &mut Vec<Style>)
    ensures
        final(o)@ == apply_events(events_of_ast(*t), old(o)@),
        final(o)@.len() == old(o)@.len(),
    decreases *t,
{
    proof {
        lemma_apply_events_len(events_of_ast(*t), old(o)@);
    }
    paint_event_ast(t, o);
    let ghost o1 = o@;
    proof {
        assert(apply_events(seq![node_event(*t)], old(o)@) == o1) by {
            reveal_with_fuel(apply_events, 2);
            assert(seq![node_event(*t)].drop_first() =~= Seq::<PaintEvent>::empty());
        }
    }
    match t {
        SyntaxTree::ClassBracketed(_, set) => {
            paint_class_set(set, o);
            proof {
                assert(events_of_ast(*t).drop_first() =~= events_of_class_set(**set));
            }
        },
        SyntaxTree::Repetition(_, child) => {
            paint_ast(child, o);
            proof {
                assert(events_of_ast(*t).drop_first() =~= events_of_ast(**child));
            }
        },
        SyntaxTree::Group(_, child) => {
            paint_ast(child, o);
            proof {
                assert(events_of_ast(*t).drop_first() =~= events_of_ast(**child));
            }
        },
        SyntaxTree::Alternation(_, kids) => {
            paint_ast_list(kids, o);
            proof {
                assert(events_of_ast(*t).drop_first() =~= events_of_ast_list(kids@));
            }
        },
        SyntaxTree::Concat(_, kids) => {
            paint_ast_list(kids, o);
            proof {
                assert(events_of_ast(*t).drop_first() =~= events_of_ast_list(kids@));
            }
        },
        _ => {
            proof {
                assert(events_of_ast(*t).drop_first() =~= Seq::<PaintEvent>::empty());
            }
        },
    }
    proof {
        let head = seq![node_event(*t)];
        let rest = events_of_ast(*t).drop_first();
        assert(events_of_ast(*t) =~= head + rest);
        lemma_apply_events_concat(head, rest, old(o)@);
    }
}

/// Paint a list of sibling nodes, left to right.
fn paint_ast_list(kids: &Vec<SyntaxTree>, o: &mut Vec<Style>)
    ensures
        final(o)@ == apply_events(events_of_ast_list(kids@), old(o)@),
        final(o)@.len() == old(o)@.len(),
    decreases kids@,
{
    let ghost o0 = o@;
    let n = kids.len();
    let mut k: usize = 0;
    while k < n
        invariant
            n == kids@.len(),
            k <= n,
            o@ == apply_events(events_of_ast_list(kids@.subrange(0, k as int)), o0),
            o@.len() == o0.len(),
        decreases n - k,
    {
        let ghost pre = kids@.subrange(0, k as int);
        paint_ast(&kids[k], o);
        proof {
            let cur = kids@.subrange(0, k + 1 as int);
            assert(cur.drop_last() =~= pre);
            assert(cur.last() == kids@[k as int]);
            lemma_apply_events_concat(events_of_ast_list(pre), events_of_ast(kids@[k as int]), o0);
        }
        k += 1;
    }
    proof {
        assert(kids@.subrange(0, n as int) =~= kids@);
    }
}

/// Paint bracketed-class contents into the overlay.
fn paint_class_set(s: &ClassContents, o: &mut Vec<Style>)
    ensures
        final(o)@ == apply_events(events_of_class_set(*s), old(o)@),
        final(o)@.len() == old(o)@.len(),
    decreases *s,
{
    match s {
        ClassContents::Item(it) => {
            paint_class_item(it, o);
        },
        ClassContents::BinaryOp(_, lhs, rhs) => {
            paint_class_set(lhs, o);
            paint_class_set(rhs, o);
            proof {
                lemma_apply_events_concat(
                    events_of_class_set(**lhs),
                    events_of_class_set(**rhs),
                    old(o)@,
                );
            }
        },
    }
}

/// Paint a class item and, after it, its nested items, into the overlay.
fn paint_class_item(it: &ClassItem, o: &mut Vec<Style>)
    ensures
        final(o)@ == apply_events(events_of_item(*it), old(o)@),
        final(o)@.len() == old(o)@.len(),
    decreases *it,
{
    proof {
        lemma_apply_events_len(events_of_item(*it), old(o)@);
    }
    paint_event_item(it, o);
    let ghost o1 = o@;
    proof {
        assert(apply_events(seq![item_event(*it)], old(o)@) == o1) by {
            reveal_with_fuel(apply_events, 2);
            assert(seq![item_event(*it)].drop_first() =~= Seq::<PaintEvent>::empty());
        }
    }
    match it {
        ClassItem::Bracketed(_, set) => {
            paint_class_set(set, o);
            proof {
                assert(events_of_item(*it).drop_first() =~= events_of_class_set(**set));
            }
        },
        ClassItem::Union(_, items) => {
            paint_item_list(items, o);
            proof {
                assert(events_of_item(*it).drop_first() =~= events_of_item_list(items@));
            }
        },
        _ => {
            proof {
                assert(events_of_item(*it).drop_first() =~= Seq::<PaintEvent>::empty());
            }
        },
    }
    proof {
        let head = seq![item_event(*it)];
        let rest = events_of_item(*it).drop_first();
        assert(events_of_item(*it) =~= head + rest);
        lemma_apply_events_concat(head, rest, old(o)@);
    }
}

/// Paint a list of sibling class items, left to right.
fn paint_item_list(items: &Vec<ClassItem>, o: &mut Vec<Style>)
    ensures
        final(o)@ == apply_events(events_of_item_list(items@), old(o)@),
        final(o)@.len() == old(o)@.len(),
    decreases items@,
{
    let ghost o0 = o@;
    let n = items.len();
    let mut k: usize = 0;
    while k < n
        invariant
            n == items@.len(),
            k <= n,
            o@ == apply_events(events_of_item_list(items@.subrange(0, k as int)), o0),
            o@.len() == o0.len(),
        decreases n - k,
    {
        let ghost pre = items@.subrange(0, k as int);
        paint_class_item(&items[k], o);
        proof {
            let cur = items@.subrange(0, k + 1 as int);
            assert(cur.drop_last() =~= pre);
            assert(cur.last() == items@[k as int]);
            lemma_apply_events_concat(events_of_item_list(pre), events_of_item(items@[k as int]), o0);
        }
        k += 1;
    }
    proof {
        assert(items@.subrange(0, n as int) =~= items@);
    }
}

/// Paint the whole overlay for tree `t` over a pattern of byte length
/// `len`: pre-order traversal, every node writing its color over its span,
/// later (narrower) writes overwriting earlier ones.
pub fn paint(t: &SyntaxTree, len: usize) -> (r: Vec<Style>)
    ensures
        r@ == overlay_spec(*t, len as nat),
        r@.len() == len,
{
    let mut o: Vec<Style> = Vec::new();
    let mut i: usize = 0;
    while i < len
        invariant
            i <= len,
            o@.len() == i,
            forall|j: int| 0 <= j < i ==> o@[j] == Style::default_spec(),
        decreases len - i,
    {
        o.push(Style::new());
        i += 1;
    }
    proof {
        assert(o@ =~= base_overlay(len as nat));
    }
    paint_ast(t, &mut o);
    o
}

} // verus!
