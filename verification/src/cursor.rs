//! A cursor that walks one side (golden or actual) of a comparison window and
//! renders the colorizable diff output incrementally as chunks are applied.
//!
//! The cursor tracks a byte offset and the start of the current line, so that
//! when a difference is first met mid-line the unprinted prefix of that line
//! can be emitted as context before the highlighted bytes.

use vstd::prelude::*;

verus! {

/// How a run of bytes in one window relates to the other window.
#[derive(Debug, Clone, Copy, PartialEq, Eq, Structural)]
pub enum CursorOp {
    Equal,
    Delete,
    Insert,
}

/// One piece of rendered diff output: a run of bytes and how to show it.
/// `Equal` pieces are plain context; `Delete` and `Insert` pieces are the two
/// highlight classes.
#[derive(Debug, PartialEq, Eq)]
pub struct Piece {
    pub op: CursorOp,
    pub text: Vec<u8>,
}

/// Mathematical image of a `Piece`.
pub struct PieceV {
    pub op: CursorOp,
    pub text: Seq<u8>,
}

impl View for Piece {
    type V = PieceV;

    open spec fn view(&self) -> PieceV {
        PieceV { op: self.op, text: self.text@ }
    }
}

/// The views of a rendered output sequence, piece by piece.
pub open spec fn pieces_view(ps: Seq<Piece>) -> Seq<PieceV> {
    ps.map_values(|p: Piece| p@)
}

/// Copy of the byte range `[a, b)` of `s`.
pub fn slice_bytes(s: &Vec<u8>, a: usize, b: usize) -> (r: Vec<u8>)
    requires
        a <= b <= s@.len(),
    ensures
        r@ == s@.subrange(a as int, b as int),
{
    let mut r: Vec<u8> = Vec::new();
    let mut i: usize = a;
    while i < b
        invariant
            a <= i <= b <= s@.len(),
            r@ == s@.subrange(a as int, i as int),
        decreases b - i,
    {
        r.push(s[i]);
        i = i + 1;
        assert(r@ =~= s@.subrange(a as int, i as int));
    }
    r
}

/// Whether two byte strings hold the same bytes.
pub fn bytes_eq(a: &Vec<u8>, b: &Vec<u8>) -> (r: bool)
    ensures
        r <==> a@ == b@,
{
    if a.len() != b.len() {
        return false;
    }
    let mut i: usize = 0;
    while i < a.len()
        invariant
            i <= a@.len(),
            a@.len() == b@.len(),
            forall|j: int| 0 <= j < i ==> a@[j] == b@[j],
        decreases a@.len() - i,
    {
        if a[i] != b[i] {
            return false;
        }
        i = i + 1;
    }
    proof {
        assert(a@ =~= b@);
    }
    true
}

/// Append the bytes of `src` to `dst`.
pub fn append_bytes(dst: &mut Vec<u8>, src: &Vec<u8>)
    ensures
        final(dst)@ == old(dst)@ + src@,
{
    let mut i: usize = 0;
    while i < src.len()
        invariant
            i <= src@.len(),
            dst@ == old(dst)@ + src@.take(i as int),
        decreases src@.len() - i,
    {
        dst.push(src[i]);
        i = i + 1;
        assert(dst@ =~= old(dst)@ + src@.take(i as int));
    }
    proof {
        assert(src@.take(src@.len() as int) =~= src@);
    }
}

/// Offset one past the last newline in `s[idx .. idx + l]`, or `line0` if
/// that range holds no newline.
pub open spec fn line_after(s: Seq<u8>, line0: int, idx: int, l: int) -> int
    decreases l,
{
    if l <= 0 {
        line0
    } else if s[idx + l - 1] == 10u8 {
        idx + l
    } else {
        line_after(s, line0, idx, l - 1)
    }
}

/// Offset, relative to `idx`, of the first newline in `s[idx .. idx + k]`,
/// or `k` if that range holds none.
pub open spec fn first_nl(s: Seq<u8>, idx: int, k: int) -> int
    decreases k,
{
    if k <= 0 {
        0
    } else if s[idx] == 10u8 {
        0
    } else {
        1 + first_nl(s, idx + 1, k - 1)
    }
}

pub proof fn lemma_first_nl_le(s: Seq<u8>, idx: int, k: int)
    requires
        k >= 0,
    ensures
        0 <= first_nl(s, idx, k) <= k,
    decreases k,
{
    if k > 0 && s[idx] != 10u8 {
        lemma_first_nl_le(s, idx + 1, k - 1);
    }
}

pub proof fn lemma_first_nl_step(s: Seq<u8>, idx: int, i: int)
    requires
        i >= 0,
    ensures
        first_nl(s, idx, i + 1) == (if first_nl(s, idx, i) < i {
            first_nl(s, idx, i)
        } else if s[idx + i] == 10u8 {
            i
        } else {
            i + 1
        }),
    decreases i,
{
    lemma_first_nl_le(s, idx, i);
    if i == 0 {
        assert(first_nl(s, idx + 1, 0) == 0);
    } else if s[idx] != 10u8 {
        lemma_first_nl_step(s, idx + 1, i - 1);
        lemma_first_nl_le(s, idx + 1, i - 1);
    }
}

/// Walks one side of a comparison window: `idx` is the byte offset consumed
/// so far, `line` the offset of the first byte of the current line, and
/// `printing` whether part of the current line has already been emitted.
#[derive(Debug, Clone, Copy, PartialEq, Eq, Structural)]
pub struct Cursor {
    pub idx: usize,
    pub line: usize,
    pub printing: bool,
}

/// The pieces that applying a chunk of length `l` and kind `op` emits.
pub open spec fn advance_pieces(c: Cursor, s: Seq<u8>, l: int, op: CursorOp, print_equal: bool) -> Seq<PieceV> {
    if op != CursorOp::Equal {
        let lead: Seq<PieceV> = if !c.printing && print_equal {
            seq![PieceV { op: CursorOp::Equal, text: s.subrange(c.line as int, c.idx as int) }]
        } else {
            Seq::empty()
        };
        lead.push(PieceV { op, text: s.subrange(c.idx as int, c.idx + l) })
    } else if c.printing && print_equal {
        let f = first_nl(s, c.idx as int, l);
        let en = if f == l { c.idx + l } else { c.idx + f + 1 };
        seq![PieceV { op: CursorOp::Equal, text: s.subrange(c.idx as int, en) }]
    } else {
        Seq::empty()
    }
}

/// The cursor state after applying a chunk of length `l` and kind `op`.
pub open spec fn advance_state(c: Cursor, s: Seq<u8>, l: int, op: CursorOp, print_equal: bool) -> Cursor {
    let line2 = line_after(s, c.line as int, c.idx as int, l);
    let printing2 = if op != CursorOp::Equal {
        true
    } else if c.printing && print_equal && first_nl(s, c.idx as int, l) != l {
        false
    } else {
        c.printing
    };
    Cursor { idx: (c.idx + l) as usize, line: line2 as usize, printing: printing2 }
}

impl Cursor {
    /// A cursor at the start of its window, with nothing emitted yet.
    pub fn new() -> (c: Cursor)
        ensures
            c == (Cursor { idx: 0usize, line: 0usize, printing: false }),
    {
        Cursor { idx: 0, line: 0, printing: false }
    }

    /// Consume the next `l` bytes of `s`, where `op` says how they relate to
    /// the other side, appending the rendered output to `out`.
    ///
    /// For a non-equal chunk the unprinted prefix of the current line is
    /// emitted first (when `print_equal` allows context from this side),
    /// then the chunk bytes under their highlight class.  For an equal chunk
    /// in the middle of an already-printed line, the rest of that line is
    /// emitted, up to and including the first newline of the chunk.
    pub fn advance(&mut self, s: &Vec<u8>, l: usize, op: CursorOp, print_equal: bool, out: &mut Vec<Piece>)
        requires
            old(self).line <= old(self).idx,
            old(self).idx + l <= s@.len(),
        ensures
            *final(self) == advance_state(*old(self), s@, l as int, op, print_equal),
            final(self).line <= final(self).idx,
            final(self).idx == old(self).idx + l,
            pieces_view(final(out)@) == pieces_view(old(out)@) + advance_pieces(*old(self), s@, l as int, op, print_equal),
    {
        let ghost c0 = *self;
        let n: usize = s.len();
        let idx: usize = self.idx;
        let mut first_newline: usize = l;
        let mut line: usize = self.line;
        let mut i: usize = 0;
        while i < l
            invariant
                i <= l,
                idx == c0.idx,
                c0.line <= c0.idx,
                c0.idx + l <= n,
                n == s@.len(),
                line as int == line_after(s@, c0.line as int, c0.idx as int, i as int),
                line <= c0.idx + i,
                first_newline as int == (if first_nl(s@, c0.idx as int, i as int) < i {
                    first_nl(s@, c0.idx as int, i as int)
                } else {
                    l as int
                }),
            decreases l - i,
        {
            proof {
                lemma_first_nl_step(s@, c0.idx as int, i as int);
                lemma_first_nl_le(s@, c0.idx as int, i as int);
            }
            if s[idx + i] == 10u8 {
                if first_newline == l {
                    first_newline = i;
                }
                line = idx + i + 1;
            }
            i = i + 1;
        }
        proof {
            lemma_first_nl_le(s@, c0.idx as int, l as int);
        }
        if op != CursorOp::Equal {
            if !self.printing && print_equal {
                out.push(Piece { op: CursorOp::Equal, text: slice_bytes(s, self.line, self.idx) });
            }
            self.printing = true;
            out.push(Piece { op, text: slice_bytes(s, self.idx, self.idx + l) });
        }
        self.line = line;
        if op == CursorOp::Equal && self.printing && print_equal {
            let en: usize = if first_newline == l {
                self.idx + l
            } else {
                self.printing = false;
                self.idx + first_newline + 1
            };
            out.push(Piece { op: CursorOp::Equal, text: slice_bytes(s, self.idx, en) });
        }
        self.idx = self.idx + l;
        proof {
            assert(pieces_view(out@) =~= pieces_view(old(out)@) + advance_pieces(c0, s@, l as int, op, print_equal));
        }
    }
}

} // verus!
