//! Match highlighter: marks every byte offset of the subject text that
//! lies inside a match occurrence's span with a highlight background.
//!
//! Spans come from repeated non-overlapping scanning of the subject text
//! by a compiled matcher; non-contiguous occurrences each mark their own
//! range independently. Offsets outside the overlay are ignored.

use vstd::prelude::*;

use crate::style::{Color, Style};

verus! {

/// Whether byte offset `j` lies inside one of the match spans.
pub open spec fn in_some_span(spans: Seq<(usize, usize)>, j: int) -> bool {
    exists|k: int| 0 <= k < spans.len() && (#[trigger] spans[k]).0 <= j < spans[k].1
}

/// The style of a marked subject-text cell: highlight background, no
/// foreground assignment.
pub open spec fn match_style() -> Style {
    Style { fg: None, bg: Some(Color::Red) }
}

/// The subject-text overlay of byte length `len` for the given match
/// spans: marked exactly at the offsets covered by some span, default
/// everywhere else.
pub open spec fn captures_overlay_spec(len: nat, spans: Seq<(usize, usize)>) -> Seq<Style> {
    Seq::new(
        len,
        |j: int|
            if in_some_span(spans, j) {
                match_style()
            } else {
                Style::default_spec()
            },
    )
}

/// Build the subject-text overlay: every byte offset within some match
/// span gets the highlight background; all other offsets stay default.
pub fn style_captures(len: usize, spans: &Vec<(usize, usize)>) -> (r: Vec<Style>)
    ensures
        r@ == captures_overlay_spec(len as nat, spans@),
        r@.len() == len,
{
    let mut o: Vec<Style> = Vec::new();
    let mut i: usize = 0;
    while i < len
        invariant
            i <= len,
            o@.len() == i,
            forall|j: int| 0 <= j < i ==> o@[j] == Style::default_spec(),
        decreases len - i,
    {
        o.push(Style::new());
        i += 1;
    }
    let n = spans.len();
    let mut k: usize = 0;
    proof {
        assert(o@ =~= captures_overlay_spec(len as nat, spans@.take(0))) by {
            assert(spans@.take(0) =~= Seq::<(usize, usize)>::empty());
        }
    }
    while k < n
        invariant
            n == spans@.len(),
            k <= n,
            o@.len() == len,
            o@ == captures_overlay_spec(len as nat, spans@.take(k as int)),
        decreases n - k,
    {
        let ghost pre = spans@.take(k as int);
        let (lo, hi) = spans[k];
        let hi = if hi <= len {
            hi
        } else {
            len
        };
        let mut j: usize = if lo <= hi {
            lo
        } else {
            hi
        };
        while j < hi
            invariant
                o@.len() == len,
                hi <= len,
                lo <= j || j == hi,
                j <= hi,
                hi == if spans@[k as int].1 <= len {
                    spans@[k as int].1 as int
                } else {
                    len as int
                },
                lo == spans@[k as int].0,
                k < spans@.len(),
                forall|x: int|
                    #![trigger o@[x]]
                    0 <= x < len ==> ((in_some_span(pre, x) || (lo <= x < j)) ==> o@[x]
                        == match_style()) && (!(in_some_span(pre, x) || (lo <= x < j)) ==> o@[x]
                        == Style::default_spec()),
            decreases hi - j,
        {
            let st = o[j];
            proof {
                assert(st.fg is None);
            }
            o.set(j, st.with_bg(Color::Red));
            proof {
                assert(o@[j as int] == match_style());
            }
            j += 1;
        }
        proof {
            let cur = spans@.take(k + 1 as int);
            assert(cur.drop_last() =~= pre);
            assert(cur.last() == spans@[k as int]);
            assert forall|x: int| 0 <= x < len implies (in_some_span(cur, x) <==> (in_some_span(
                pre,
                x,
            ) || (lo <= x < j))) by {
                if in_some_span(pre, x) {
                    let w = choose|w: int|
                        0 <= w < pre.len() && (#[trigger] pre[w]).0 <= x < pre[w].1;
                    assert(cur[w] == pre[w]);
                }
                if lo <= x < j {
                    assert(cur[k as int].0 <= x < cur[k as int].1);
                }
                if in_some_span(cur, x) {
                    let w = choose|w: int|
                        0 <= w < cur.len() && (#[trigger] cur[w]).0 <= x < cur[w].1;
                    if w < k as int {
                        assert(pre[w] == cur[w]);
                    }
                }
            }
            assert(o@ =~= captures_overlay_spec(len as nat, cur));
        }
        k += 1;
    }
    proof {
        assert(spans@.take(n as int) =~= spans@);
    }
    o
}

} // verus!
