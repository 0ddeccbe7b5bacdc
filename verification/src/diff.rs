//! Token-level comparison of two text windows.
//!
//! The alignment between the two windows comes from an outside diff
//! primitive; this module drives a pair of [`Cursor`]s over the resulting
//! chunk sequence to render the differences, and counts the difference
//! regions (maximal runs of non-equal chunks).

use vstd::prelude::*;

use crate::cursor::{
    advance_pieces, advance_state, bytes_eq, pieces_view, Cursor, CursorOp, Piece, PieceV,
};

verus! {

/// One contiguous run of the two-way alignment between an old and a new
/// text: bytes shared by both sides, bytes only the old side has, or bytes
/// only the new side has.
pub struct DiffChunk {
    pub op: CursorOp,
    pub text: Vec<u8>,
}

/// The bytes a chunk covers on the old side.
pub open spec fn old_text(c: DiffChunk) -> Seq<u8> {
    if c.op is Insert {
        Seq::empty()
    } else {
        c.text@
    }
}

/// The bytes a chunk covers on the new side.
pub open spec fn new_text(c: DiffChunk) -> Seq<u8> {
    if c.op is Delete {
        Seq::empty()
    } else {
        c.text@
    }
}

/// The old text that a chunk sequence tiles, in order.
pub open spec fn concat_old(cs: Seq<DiffChunk>) -> Seq<u8>
    decreases cs.len(),
{
    if cs.len() == 0 {
        Seq::empty()
    } else {
        concat_old(cs.drop_last()) + old_text(cs.last())
    }
}

/// The new text that a chunk sequence tiles, in order.
pub open spec fn concat_new(cs: Seq<DiffChunk>) -> Seq<u8>
    decreases cs.len(),
{
    if cs.len() == 0 {
        Seq::empty()
    } else {
        concat_new(cs.drop_last()) + new_text(cs.last())
    }
}

pub open spec fn is_equal_chunk(c: DiffChunk) -> bool {
    c.op is Equal
}

/// Number of difference regions among the first `k` chunks: a region is a
/// maximal run of consecutive non-equal chunks.
pub open spec fn region_count(cs: Seq<DiffChunk>, k: int) -> int
    decreases k,
{
    if k <= 0 {
        0
    } else {
        region_count(cs, k - 1) + if !is_equal_chunk(cs[k - 1]) && (k - 1 == 0
            || is_equal_chunk(cs[k - 2])) {
            1int
        } else {
            0int
        }
    }
}

pub proof fn lemma_region_count_nonneg(cs: Seq<DiffChunk>, k: int)
    ensures
        region_count(cs, k) >= 0,
    decreases k,
{
    if k > 0 {
        lemma_region_count_nonneg(cs, k - 1);
    }
}

/// No region means every chunk of the prefix is an equal chunk.
pub proof fn lemma_region_count_zero(cs: Seq<DiffChunk>, k: int)
    requires
        0 <= k,
    ensures
        region_count(cs, k) == 0 <==> (forall|j: int| 0 <= j < k ==> is_equal_chunk(cs[j])),
    decreases k,
{
    if k > 0 {
        lemma_region_count_zero(cs, k - 1);
        lemma_region_count_nonneg(cs, k - 1);
    }
}

/// A chunk sequence of equal chunks only tiles both sides with the same text.
pub proof fn lemma_all_equal_concat(cs: Seq<DiffChunk>)
    requires
        forall|j: int| 0 <= j < cs.len() ==> is_equal_chunk(cs[j]),
    ensures
        concat_old(cs) == concat_new(cs),
    decreases cs.len(),
{
    if cs.len() > 0 {
        assert(forall|j: int| 0 <= j < cs.drop_last().len() ==> is_equal_chunk(
            cs.drop_last()[j],
        ));
        lemma_all_equal_concat(cs.drop_last());
    }
}

/// The old text tiled by a prefix is never longer than the whole old text.
pub proof fn lemma_concat_old_take_len_le(cs: Seq<DiffChunk>, j: int)
    requires
        0 <= j <= cs.len(),
    ensures
        concat_old(cs.take(j)).len() <= concat_old(cs).len(),
    decreases cs.len() - j,
{
    if j == cs.len() {
        assert(cs.take(j) =~= cs);
    } else {
        assert(cs.take(j + 1).drop_last() =~= cs.take(j));
        assert(cs.take(j + 1).last() == cs[j]);
        lemma_concat_old_take_len_le(cs, j + 1);
    }
}

/// The new text tiled by a prefix is never longer than the whole new text.
pub proof fn lemma_concat_new_take_len_le(cs: Seq<DiffChunk>, j: int)
    requires
        0 <= j <= cs.len(),
    ensures
        concat_new(cs.take(j)).len() <= concat_new(cs).len(),
    decreases cs.len() - j,
{
    if j == cs.len() {
        assert(cs.take(j) =~= cs);
    } else {
        assert(cs.take(j + 1).drop_last() =~= cs.take(j));
        assert(cs.take(j + 1).last() == cs[j]);
        lemma_concat_new_take_len_le(cs, j + 1);
    }
}

/// The old-side and new-side cursor states after applying the first `k`
/// chunks: an equal chunk advances both cursors (context echoed from the
/// old side only), a delete chunk only the old cursor, an insert chunk only
/// the new cursor.
pub open spec fn cursors_after(cs: Seq<DiffChunk>, old: Seq<u8>, new: Seq<u8>, k: int) -> (
    Cursor,
    Cursor,
)
    decreases k,
{
    if k <= 0 {
        (
            Cursor { idx: 0, line: 0, printing: false },
            Cursor { idx: 0, line: 0, printing: false },
        )
    } else {
        let (co, cn) = cursors_after(cs, old, new, k - 1);
        let c = cs[k - 1];
        let l = c.text@.len() as int;
        match c.op {
            CursorOp::Equal => (
                advance_state(co, old, l, CursorOp::Equal, true),
                advance_state(cn, new, l, CursorOp::Equal, false),
            ),
            CursorOp::Delete => (advance_state(co, old, l, CursorOp::Delete, true), cn),
            CursorOp::Insert => (co, advance_state(cn, new, l, CursorOp::Insert, false)),
        }
    }
}

/// The diff output that the first `k` chunks render, in order.
pub open spec fn render(cs: Seq<DiffChunk>, old: Seq<u8>, new: Seq<u8>, k: int) -> Seq<PieceV>
    decreases k,
{
    if k <= 0 {
        Seq::empty()
    } else {
        let (co, cn) = cursors_after(cs, old, new, k - 1);
        let c = cs[k - 1];
        let l = c.text@.len() as int;
        render(cs, old, new, k - 1) + match c.op {
            CursorOp::Equal => advance_pieces(co, old, l, CursorOp::Equal, true) + advance_pieces(
                cn,
                new,
                l,
                CursorOp::Equal,
                false,
            ),
            CursorOp::Delete => advance_pieces(co, old, l, CursorOp::Delete, true),
            CursorOp::Insert => advance_pieces(cn, new, l, CursorOp::Insert, false),
        }
    }
}

/// Whether `core::str::from_utf8` accepts these bytes as text.
pub uninterp spec fn utf8_ok(b: Seq<u8>) -> bool;

/// Relies on dissimilar::diff: the returned chunks tile the old text (its
/// equal and delete chunks, in order) and the new text (its equal and insert
/// chunks, in order); and on core::str::from_utf8, which accepts exactly the
/// byte sequences that are well-formed UTF-8.
#[verifier::external_body]
fn diff_chunks(old: &Vec<u8>, new: &Vec<u8>) -> (r: Option<Vec<DiffChunk>>)
    ensures
        match r {
            Some(cs) => utf8_ok(old@) && utf8_ok(new@) && concat_old(cs@) == old@ && concat_new(
                cs@,
            ) == new@,
            None => !utf8_ok(old@) || !utf8_ok(new@),
        },
{
    let o = match core::str::from_utf8(old) {
        Ok(v) => v,
        Err(_) => return None,
    };
    let n = match core::str::from_utf8(new) {
        Ok(v) => v,
        Err(_) => return None,
    };
    Some(dissimilar::diff(o, n).into_iter().map(|c| match c {
        dissimilar::Chunk::Equal(t) => DiffChunk { op: CursorOp::Equal, text: t.as_bytes().to_vec() },
        dissimilar::Chunk::Delete(t) => DiffChunk { op: CursorOp::Delete, text: t.as_bytes().to_vec() },
        dissimilar::Chunk::Insert(t) => DiffChunk { op: CursorOp::Insert, text: t.as_bytes().to_vec() },
    }).collect())
}

/// Compares two text windows and renders their differences.
pub struct DiffReporter;

impl DiffReporter {
    /// Compare an old window against a new window.
    ///
    /// Returns the number of difference regions found, together with the
    /// rendered diff output, or `None` when the two windows differ but one
    /// of them is not text that the diff primitive can align.
    ///
    /// The count is zero exactly when the two windows hold the same bytes,
    /// and then nothing is rendered.
    pub fn compare(old: &Vec<u8>, new: &Vec<u8>) -> (r: (Option<usize>, Vec<Piece>))
        ensures
            old@ == new@ ==> r.0 == Some(0usize) && r.1@.len() == 0,
            r.0 is None <==> (old@ != new@ && (!utf8_ok(old@) || !utf8_ok(new@))),
            r.0 matches Some(n) ==> ((n == 0) <==> old@ == new@),
            r.0 matches Some(n) && n > 0 ==> r.1@.len() > 0,
            match r.0 {
                Some(n) => n > 0 ==> exists|cs: Seq<DiffChunk>|
                    {
                        &&& #[trigger] concat_old(cs) == old@
                        &&& concat_new(cs) == new@
                        &&& n as int == region_count(cs, cs.len() as int)
                        &&& pieces_view(r.1@) == render(cs, old@, new@, cs.len() as int).push(
                            PieceV { op: CursorOp::Equal, text: seq![10u8] },
                        )
                    },
                None => true,
            },
    {
        let mut out: Vec<Piece> = Vec::new();
        if bytes_eq(old, new) {
            return (Some(0), out);
        }
        let chunks = match diff_chunks(old, new) {
            Some(cs) => cs,
            None => {
                return (None, out);
            },
        };
        let ghost cs = chunks@;
        let mut co = Cursor::new();
        let mut cn = Cursor::new();
        let mut num: usize = 0;
        let mut prev_eq: bool = true;
        let mut k: usize = 0;
        while k < chunks.len()
            invariant
                k <= cs.len(),
                chunks@ == cs,
                concat_old(cs) == old@,
                concat_new(cs) == new@,
                co.idx as int == concat_old(cs.take(k as int)).len(),
                cn.idx as int == concat_new(cs.take(k as int)).len(),
                co.line <= co.idx,
                cn.line <= cn.idx,
                (co, cn) == cursors_after(cs, old@, new@, k as int),
                pieces_view(out@) == render(cs, old@, new@, k as int),
                num as int == region_count(cs, k as int),
                num <= k,
                prev_eq == (k == 0 || is_equal_chunk(cs[k as int - 1])),
            decreases cs.len() - k,
        {
            let c = &chunks[k];
            let l = c.text.len();
            proof {
                assert(cs.take(k as int + 1).drop_last() =~= cs.take(k as int));
                assert(cs.take(k as int + 1).last() == cs[k as int]);
                lemma_concat_old_take_len_le(cs, k as int + 1);
                lemma_concat_new_take_len_le(cs, k as int + 1);
            }
            if c.op == CursorOp::Equal {
                co.advance(old, l, CursorOp::Equal, true, &mut out);
                cn.advance(new, l, CursorOp::Equal, false, &mut out);
                prev_eq = true;
            } else if c.op == CursorOp::Delete {
                co.advance(old, l, CursorOp::Delete, true, &mut out);
                if prev_eq {
                    num = num + 1;
                }
                prev_eq = false;
            } else {
                cn.advance(new, l, CursorOp::Insert, false, &mut out);
                if prev_eq {
                    num = num + 1;
                }
                prev_eq = false;
            }
            k = k + 1;
        }
        proof {
            assert(cs.take(cs.len() as int) =~= cs);
            lemma_region_count_zero(cs, cs.len() as int);
            if num == 0 {
                lemma_all_equal_concat(cs);
                assert(false);
            }
        }
        if num != 0 {
            let mut nl: Vec<u8> = Vec::new();
            nl.push(10u8);
            proof {
                assert(nl@ =~= seq![10u8]);
            }
            out.push(Piece { op: CursorOp::Equal, text: nl });
            proof {
                assert(pieces_view(out@) =~= render(cs, old@, new@, cs.len() as int).push(
                    PieceV { op: CursorOp::Equal, text: seq![10u8] },
                ));
            }
        }
        (Some(num), out)
    }
}

} // verus!
