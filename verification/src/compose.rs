//! Style compositor: merges a byte-offset style overlay with the original
//! string's character boundaries into a renderable per-character sequence.
//!
//! Each Unicode scalar value of the string is paired with the overlay
//! value at its first byte offset; overlay values at continuation bytes
//! are never read. This is the only place byte offsets are translated to
//! character positions.

use vstd::prelude::*;

use vstd::utf8::{encode_scalar, encode_utf8};

use crate::style::Style;

verus! {

/// One renderable cell: a character and the style it is shown with.
#[derive(Clone, Copy, Debug, PartialEq, Eq, Structural)]
pub struct StyledChar {
    pub ch: char,
    pub style: Style,
}

impl StyledChar {
    /// Pair a character with its style.
    pub fn new(ch: char, style: Style) -> (r: StyledChar)
        ensures
            r == (StyledChar { ch, style }),
    {
        StyledChar { ch, style }
    }
}

/// The byte offset of the first byte of character `k` in the UTF-8
/// encoding of `s`.
pub open spec fn char_byte_offset(s: Seq<char>, k: int) -> int {
    encode_utf8(s.take(k)).len() as int
}

/// UTF-8 encoding distributes over concatenation.
pub proof fn lemma_encode_utf8_concat(a: Seq<char>, b: Seq<char>)
    ensures
        encode_utf8(a + b) == encode_utf8(a) + encode_utf8(b),
    decreases a.len(),
{
    if a.len() == 0 {
        assert(a + b =~= b);
        assert(encode_utf8(a) =~= Seq::<u8>::empty());
        assert(encode_utf8(a) + encode_utf8(b) =~= encode_utf8(b));
    } else {
        assert((a + b)[0] == a[0]);
        assert((a + b).drop_first() =~= a.drop_first() + b);
        lemma_encode_utf8_concat(a.drop_first(), b);
        assert(encode_scalar(a[0] as u32) + (encode_utf8(a.drop_first()) + encode_utf8(b)) =~= (
        encode_scalar(a[0] as u32) + encode_utf8(a.drop_first())) + encode_utf8(b));
    }
}

/// Encoding one more character appends that character's encoding.
pub proof fn lemma_encode_utf8_take_step(s: Seq<char>, k: int)
    requires
        0 <= k < s.len(),
    ensures
        encode_utf8(s.take(k + 1)) == encode_utf8(s.take(k)) + encode_scalar(s[k] as u32),
{
    assert(s.take(k + 1) =~= s.take(k) + seq![s[k]]);
    lemma_encode_utf8_concat(s.take(k), seq![s[k]]);
    assert(encode_utf8(seq![s[k]]) == encode_scalar(s[k] as u32)) by {
        reveal_with_fuel(encode_utf8, 2);
        assert(seq![s[k]].drop_first() =~= Seq::<char>::empty());
        assert(encode_scalar(s[k] as u32) + Seq::<u8>::empty() =~= encode_scalar(s[k] as u32));
    }
}

/// A prefix never encodes to more bytes than the whole.
pub proof fn lemma_encode_utf8_prefix_le(s: Seq<char>, m: int)
    requires
        0 <= m <= s.len(),
    ensures
        encode_utf8(s.take(m)).len() <= encode_utf8(s).len(),
{
    assert(s =~= s.take(m) + s.skip(m));
    lemma_encode_utf8_concat(s.take(m), s.skip(m));
}

/// The byte length of a string: the length of its UTF-8 encoding.
pub fn byte_len(s: &str) -> (n: usize)
    ensures
        n == encode_utf8(s@).len(),
{
    let bs = s.as_bytes();
    bs.len()
}

/// The byte width of one character's UTF-8 encoding.
pub fn char_width(c: char) -> (w: usize)
    ensures
        w == encode_scalar(c as u32).len(),
        1 <= w <= 4,
{
    let u = c as u32;
    if u < 0x80 {
        1
    } else if u < 0x800 {
        2
    } else if u < 0x10000 {
        3
    } else {
        4
    }
}

/// Merge a string with a style overlay of the same byte length into the
/// ordered sequence of its characters, each paired with the overlay value
/// at its first byte offset. The output has exactly one entry per Unicode
/// scalar value of the string, in original order.
pub fn style_string(s: &str, overlay: &Vec<Style>) -> (r: Vec<StyledChar>)
    requires
        overlay@.len() == encode_utf8(s@).len(),
    ensures
        r@.len() == s@.len(),
        forall|k: int|
            0 <= k < s@.len() ==> (#[trigger] r@[k]).ch == s@[k] && r@[k].style == overlay@[
                char_byte_offset(s@, k)],
{
    let mut r: Vec<StyledChar> = Vec::new();
    let mut pos: usize = 0;
    let total = overlay.len();
    proof {
        assert(s@.take(0) =~= Seq::<char>::empty());
        assert(encode_utf8(s@.take(0)).len() == 0);
    }
    for c in it: s.chars()
        invariant
            it.seq() == s@,
            overlay@.len() == encode_utf8(s@).len(),
            total == overlay@.len(),
            r@.len() == it.index(),
            pos == encode_utf8(s@.take(it.index() as int)).len(),
            forall|k: int|
                0 <= k < it.index() ==> (#[trigger] r@[k]).ch == s@[k] && r@[k].style == overlay@[
                    char_byte_offset(s@, k)],
    {
        let ghost i = it.index() as int;
        proof {
            assert(c == s@[i]);
            lemma_encode_utf8_take_step(s@, i);
            lemma_encode_utf8_prefix_le(s@, i + 1);
        }
        let w = char_width(c);
        proof {
            assert(pos + w == encode_utf8(s@.take(i + 1)).len());
            assert(pos + w <= total);
            assert(pos < total);
        }
        let st = overlay[pos];
        r.push(StyledChar::new(c, st));
        pos = pos + w;
    }
    r
}

/// The index of the first newline cell of a styled sequence, or its
/// length when no cell is a newline.
pub open spec fn first_newline(cells: Seq<StyledChar>) -> int
    decreases cells.len(),
{
    if cells.len() == 0 {
        0
    } else if cells[0].ch == '\n' {
        0
    } else {
        1 + first_newline(cells.drop_first())
    }
}

/// The first newline index lies in `[0, len]`, marks a newline cell
/// unless it is `len`, and nothing before it is a newline.
pub proof fn lemma_first_newline(cells: Seq<StyledChar>)
    ensures
        0 <= first_newline(cells) <= cells.len(),
        first_newline(cells) < cells.len() ==> cells[first_newline(cells)].ch == '\n',
        forall|j: int| 0 <= j < first_newline(cells) ==> (#[trigger] cells[j]).ch != '\n',
    decreases cells.len(),
{
    if cells.len() != 0 && cells[0].ch != '\n' {
        lemma_first_newline(cells.drop_first());
        assert forall|j: int| 0 <= j < first_newline(cells) implies (#[trigger] cells[j]).ch
            != '\n' by {
            if j > 0 {
                assert(cells.drop_first()[j - 1] == cells[j]);
            }
        }
    }
}

/// A sequence scanned without a newline up to `k`, with a newline at `k`
/// unless `k` is the length, has its first newline exactly at `k`.
pub proof fn lemma_first_newline_at(cells: Seq<StyledChar>, k: int)
    requires
        0 <= k <= cells.len(),
        forall|j: int| 0 <= j < k ==> (#[trigger] cells[j]).ch != '\n',
        k < cells.len() ==> cells[k].ch == '\n',
    ensures
        first_newline(cells) == k,
    decreases cells.len(),
{
    if cells.len() != 0 && k != 0 {
        let rest = cells.drop_first();
        assert forall|j: int| 0 <= j < k - 1 implies (#[trigger] rest[j]).ch != '\n' by {
            assert(rest[j] == cells[j + 1]);
        }
        assert(k - 1 < rest.len() ==> rest[k - 1].ch == '\n');
        lemma_first_newline_at(rest, k - 1);
    }
}

/// The renderable line sequence of a styled character sequence: its
/// maximal newline-free segments, in order; each newline cell closes the
/// line before it and is itself dropped.
pub open spec fn split_lines_spec(cells: Seq<StyledChar>) -> Seq<Seq<StyledChar>>
    decreases cells.len(),
    via split_lines_spec_decreases
{
    if cells.len() == 0 {
        Seq::empty()
    } else {
        let k = first_newline(cells);
        if k == cells.len() {
            seq![cells]
        } else {
            seq![cells.take(k)] + split_lines_spec(cells.skip(k + 1))
        }
    }
}

#[via_fn]
proof fn split_lines_spec_decreases(cells: Seq<StyledChar>) {
    lemma_first_newline(cells);
}

/// The views of a sequence of line buffers.
pub open spec fn line_views(rs: Seq<Vec<StyledChar>>) -> Seq<Seq<StyledChar>> {
    rs.map(|i: int, v: Vec<StyledChar>| v@)
}

/// Split a styled character sequence into its renderable lines at the
/// newline cells; the newline cells themselves are dropped.
pub fn split_lines(cells: &Vec<StyledChar>) -> (r: Vec<Vec<StyledChar>>)
    ensures
        line_views(r@) == split_lines_spec(cells@),
        r@.len() == split_lines_spec(cells@).len(),
        forall|i: int| 0 <= i < r@.len() ==> (#[trigger] r@[i])@ == split_lines_spec(cells@)[i],
{
    let n = cells.len();
    let mut r: Vec<Vec<StyledChar>> = Vec::new();
    let mut pos: usize = 0;
    proof {
        assert(cells@.skip(0) =~= cells@);
        assert(line_views(r@) + split_lines_spec(cells@.skip(0)) =~= split_lines_spec(cells@));
    }
    while pos < n
        invariant
            n == cells@.len(),
            pos <= n,
            line_views(r@) + split_lines_spec(cells@.skip(pos as int)) == split_lines_spec(cells@),
        decreases n - pos,
    {
        let ghost r0 = r@;
        let mut k: usize = pos;
        while k < n && cells[k].ch != '\n'
            invariant
                pos <= k <= n,
                n == cells@.len(),
                forall|j: int| pos <= j < k ==> (#[trigger] cells@[j]).ch != '\n',
            decreases n - k,
        {
            k += 1;
        }
        let mut line: Vec<StyledChar> = Vec::new();
        let mut j: usize = pos;
        while j < k
            invariant
                pos <= j <= k,
                k <= n,
                n == cells@.len(),
                line@ == cells@.subrange(pos as int, j as int),
            decreases k - j,
        {
            let c = cells[j];
            line.push(c);
            proof {
                assert(cells@.subrange(pos as int, j + 1 as int) =~= cells@.subrange(
                    pos as int,
                    j as int,
                ).push(cells@[j as int]));
            }
            j += 1;
        }
        proof {
            let suf = cells@.skip(pos as int);
            assert forall|m: int| 0 <= m < k - pos implies (#[trigger] suf[m]).ch != '\n' by {
                assert(suf[m] == cells@[pos + m]);
            }
            assert(k < n ==> suf[k - pos].ch == '\n') by {
                if k < n {
                    assert(suf[k - pos] == cells@[k as int]);
                }
            }
            lemma_first_newline_at(suf, k - pos);
            assert(line@ =~= suf.take(k - pos));
        }
        r.push(line);
        proof {
            let suf = cells@.skip(pos as int);
            assert(line_views(r@) =~= line_views(r0).push(line@));
            if k < n {
                assert(suf.skip(k - pos + 1) =~= cells@.skip(k + 1 as int));
                assert(split_lines_spec(suf) == seq![line@] + split_lines_spec(
                    cells@.skip(k + 1 as int),
                ));
                assert(line_views(r@) + split_lines_spec(cells@.skip(k + 1 as int))
                    =~= line_views(r0) + split_lines_spec(suf));
            } else {
                assert(suf =~= line@);
                assert(split_lines_spec(suf) == seq![line@]);
                assert(cells@.skip(n as int) =~= Seq::<StyledChar>::empty());
                assert(line_views(r@) + split_lines_spec(cells@.skip(n as int)) =~= line_views(r0)
                    + split_lines_spec(suf));
            }
        }
        pos = if k < n {
            k + 1
        } else {
            n
        };
    }
    proof {
        assert(cells@.skip(n as int) =~= Seq::<StyledChar>::empty());
        assert(line_views(r@) + split_lines_spec(cells@.skip(n as int)) =~= line_views(r@));
        assert forall|i: int| 0 <= i < r@.len() implies (#[trigger] r@[i])@ == split_lines_spec(
            cells@,
        )[i] by {
            assert(line_views(r@)[i] == r@[i]@);
        }
    }
    r
}

} // verus!
