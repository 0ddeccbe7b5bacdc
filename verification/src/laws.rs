//! Laws the session obeys, stated and proved over the same spec functions
//! that the executable functions' contracts use.

use vstd::prelude::*;

use crate::gzip::{decode_of, stores_content};
use crate::session::{golden_updated, path_verdict, staged_at, windows_verdict, win_len};
use crate::store::{lookup, Entry};

verus! {

/// Identical content passes the window-by-window comparison, however many
/// windows it spans and wherever the window boundaries fall.
pub proof fn lemma_identical_content_passes(c: Seq<u8>)
    ensures
        windows_verdict(c, c) is Pass,
    decreases c.len(),
{
    if c.len() > 0 {
        lemma_identical_content_passes(c.skip(win_len(c.len())));
    }
}

/// Content written through a writer reads back intact: stored artifact bytes
/// that a writer produced for a path decode, under that path, to exactly the
/// content that was written.
pub proof fn lemma_artifact_round_trip(p: Seq<u8>, stored: Seq<u8>, content: Seq<u8>)
    requires
        stores_content(p, stored, content),
    ensures
        decode_of(p, stored) == Some(content),
{
}

/// After promoting a session's staged content, verifying the same staged
/// content against the updated golden store passes every registered path.
pub proof fn lemma_verify_after_update(golden: Seq<Entry>, stage: Seq<Entry>, paths: Seq<Seq<u8>>)
    requires
        forall|i: int| 0 <= i < paths.len() ==> golden_updated(
            golden,
            #[trigger] paths[i],
            staged_at(stage, paths[i]),
        ),
    ensures
        forall|i: int| 0 <= i < paths.len() ==> path_verdict(
            golden,
            #[trigger] paths[i],
            staged_at(stage, paths[i]),
        ) is Pass,
{
    assert forall|i: int| 0 <= i < paths.len() implies path_verdict(
        golden,
        #[trigger] paths[i],
        staged_at(stage, paths[i]),
    ) is Pass by {
        lemma_identical_content_passes(staged_at(stage, paths[i]));
    }
}

/// Promoting overwrites regardless of prior golden content: after the later
/// of two promotions of different contents, the golden entry decodes to the
/// later content only.
pub proof fn lemma_update_overwrites(golden: Seq<Entry>, p: Seq<u8>, c1: Seq<u8>, c2: Seq<u8>)
    requires
        golden_updated(golden, p, c2),
        c1 != c2,
    ensures
        lookup(golden, p) matches Some(st) && decode_of(p, st) == Some(c2) && decode_of(p, st)
            != Some(c1),
{
}

} // verus!
