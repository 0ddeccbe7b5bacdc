//! The golden-file session.
//!
//! A [`Golden`] session registers relative paths and stages the content
//! written for each.  At the end it performs exactly one of two actions
//! against a golden store: verify every registered path window by window,
//! stopping at the first failing path, or promote every registered path's
//! staged content to become the new golden reference.

use vstd::prelude::*;

use crate::cursor::{append_bytes, slice_bytes, Piece};
use crate::diff::{utf8_ok, DiffReporter};
use crate::gzip::{decode_artifact, decode_of, encode_artifact, stores_content};
use crate::store::{lookup, Entry, Store};

verus! {

/// Size of one comparison window, in bytes.
pub const WINDOW: usize = 1024;

/// Window length for a side with `n` bytes left.
pub open spec fn win_len(n: nat) -> int {
    if n < WINDOW {
        n as int
    } else {
        WINDOW as int
    }
}

/// Outcome of comparing one golden/staged content pair.
#[derive(Debug, Clone, Copy, PartialEq, Eq, Structural)]
pub enum Verdict {
    Pass,
    Unreadable,
    Mismatch,
}

/// Window-by-window comparison of golden content `g` against staged content
/// `s`: windows of up to [`WINDOW`] bytes are taken from each side and
/// compared pairwise until both sides are exhausted.  The first unequal
/// window pair decides: `Unreadable` when either window is not well-formed
/// text, `Mismatch` otherwise.
pub open spec fn windows_verdict(g: Seq<u8>, s: Seq<u8>) -> Verdict
    decreases g.len() + s.len(),
{
    if g.len() == 0 && s.len() == 0 {
        Verdict::Pass
    } else {
        let gw = g.take(win_len(g.len()));
        let sw = s.take(win_len(s.len()));
        if gw == sw {
            windows_verdict(g.skip(win_len(g.len())), s.skip(win_len(s.len())))
        } else if !utf8_ok(gw) || !utf8_ok(sw) {
            Verdict::Unreadable
        } else {
            Verdict::Mismatch
        }
    }
}

/// What verifying one registered path yields.
#[derive(Debug, Clone, Copy, PartialEq, Eq, Structural)]
pub enum PathVerdict {
    Pass,
    /// No golden counterpart exists for the path.
    MissingGolden,
    /// The golden bytes are not a well-formed compressed artifact.
    CorruptGolden,
    /// The sides differ and one window is not well-formed text.
    Unreadable,
    /// The sides differ.
    Mismatch,
}

/// The staged content recorded for a path (empty when none is recorded).
pub open spec fn staged_at(stage: Seq<Entry>, p: Seq<u8>) -> Seq<u8> {
    match lookup(stage, p) {
        Some(d) => d,
        None => Seq::empty(),
    }
}

/// The verdict verifying path `p` yields, given its staged content `sraw`.
pub open spec fn path_verdict(golden: Seq<Entry>, p: Seq<u8>, sraw: Seq<u8>) -> PathVerdict {
    match lookup(golden, p) {
        None => PathVerdict::MissingGolden,
        Some(gb) => match decode_of(p, gb) {
            None => PathVerdict::CorruptGolden,
            Some(graw) => match windows_verdict(graw, sraw) {
                Verdict::Pass => PathVerdict::Pass,
                Verdict::Unreadable => PathVerdict::Unreadable,
                Verdict::Mismatch => PathVerdict::Mismatch,
            },
        },
    }
}

/// Why verification failed.
pub enum VerifyError {
    /// No golden counterpart exists for the path.
    MissingGolden { path: Vec<u8> },
    /// The golden bytes for the path are not a well-formed compressed
    /// artifact.
    CorruptGolden { path: Vec<u8> },
    /// The sides differ for the path and one window is not well-formed text.
    Unreadable { path: Vec<u8> },
    /// The sides differ for the path: `count` difference regions were found
    /// in the first differing window, rendered as `output`.
    Mismatch { path: Vec<u8>, count: usize, output: Vec<Piece> },
}

/// Whether error `e` reports verdict `v` for path `p`.
pub open spec fn error_for(e: VerifyError, p: Seq<u8>, v: PathVerdict) -> bool {
    match e {
        VerifyError::MissingGolden { path } => path@ == p && v is MissingGolden,
        VerifyError::CorruptGolden { path } => path@ == p && v is CorruptGolden,
        VerifyError::Unreadable { path } => path@ == p && v is Unreadable,
        VerifyError::Mismatch { path, count, output } => path@ == p && v is Mismatch && count >= 1
            && output@.len() > 0,
    }
}

/// Whether the golden store holds, at path `p`, stored bytes that decode to
/// content `c`.
pub open spec fn golden_updated(golden: Seq<Entry>, p: Seq<u8>, c: Seq<u8>) -> bool {
    match lookup(golden, p) {
        Some(st) => stores_content(p, st, c),
        None => false,
    }
}

/// Comparison of one golden/staged content pair, window by window.
enum ContentCheck {
    Pass,
    Unreadable,
    Mismatch(usize, Vec<Piece>),
}

/// Compare golden content `g` against staged content `s` in windows of
/// [`WINDOW`] bytes.
fn compare_contents(g: &Vec<u8>, s: &Vec<u8>) -> (r: ContentCheck)
    ensures
        match r {
            ContentCheck::Pass => windows_verdict(g@, s@) is Pass,
            ContentCheck::Unreadable => windows_verdict(g@, s@) is Unreadable,
            ContentCheck::Mismatch(n, out) => windows_verdict(g@, s@) is Mismatch && n >= 1
                && out@.len() > 0,
        },
{
    let glen = g.len();
    let slen = s.len();
    let mut i: usize = 0;
    proof {
        assert(g@.skip(0) =~= g@);
        assert(s@.skip(0) =~= s@);
    }
    while i < glen || i < slen
        invariant
            i <= glen,
            i <= slen,
            glen == g@.len(),
            slen == s@.len(),
            windows_verdict(g@, s@) == windows_verdict(g@.skip(i as int), s@.skip(i as int)),
        decreases (glen - i) + (slen - i),
    {
        let gwl: usize = if glen - i < WINDOW {
            glen - i
        } else {
            WINDOW
        };
        let swl: usize = if slen - i < WINDOW {
            slen - i
        } else {
            WINDOW
        };
        let gw = slice_bytes(g, i, i + gwl);
        let sw = slice_bytes(s, i, i + swl);
        proof {
            assert(gw@ =~= g@.skip(i as int).take(win_len(g@.skip(i as int).len())));
            assert(sw@ =~= s@.skip(i as int).take(win_len(s@.skip(i as int).len())));
        }
        let (cnt, out) = DiffReporter::compare(&gw, &sw);
        match cnt {
            None => {
                return ContentCheck::Unreadable;
            },
            Some(n) => {
                if n != 0 {
                    return ContentCheck::Mismatch(n, out);
                }
            },
        }
        proof {
            assert(g@.skip(i as int).skip(win_len(g@.skip(i as int).len())) =~= g@.skip(
                i as int + gwl as int,
            ));
            assert(s@.skip(i as int).skip(win_len(s@.skip(i as int).len())) =~= s@.skip(
                i as int + swl as int,
            ));
        }
        i = i + gwl;
    }
    proof {
        assert(g@.skip(i as int) =~= Seq::<u8>::empty());
        assert(s@.skip(i as int) =~= Seq::<u8>::empty());
    }
    ContentCheck::Pass
}

/// A golden-file session: the registry of relative paths a writer was
/// requested for, in request order, and the staged content written for each.
pub struct Golden {
    /// Registered relative paths, in request order.
    pub paths: Vec<Vec<u8>>,
    /// The staging area: the content written for each registered path.
    pub stage: Store,
}

impl Golden {
    /// Every registered path has a staged file.
    pub open spec fn wf(self) -> bool {
        forall|i: int| 0 <= i < self.paths@.len() ==> lookup(
            self.stage@,
            #[trigger] self.paths@[i]@,
        ) is Some
    }

    /// Whether path `q` is registered in this session.
    pub open spec fn registered(self, q: Seq<u8>) -> bool {
        exists|i: int| 0 <= i < self.paths@.len() && self.paths@[i]@ == q
    }

    /// The verdict for the `i`-th registered path against a golden store.
    pub open spec fn verdict_at(self, golden: Seq<Entry>, i: int) -> PathVerdict {
        path_verdict(golden, self.paths@[i]@, staged_at(self.stage@, self.paths@[i]@))
    }

    /// Whether `e` reports the `i`-th registered path as the first failure.
    pub open spec fn fails_at(self, golden: Seq<Entry>, e: VerifyError, i: int) -> bool {
        &&& 0 <= i < self.paths@.len()
        &&& (forall|j: int| 0 <= j < i ==> #[trigger] self.verdict_at(golden, j) is Pass)
        &&& error_for(e, self.paths@[i]@, self.verdict_at(golden, i))
    }

    /// A fresh session with no registered paths and an empty staging area.
    pub fn new() -> (g: Golden)
        ensures
            g.paths@.len() == 0,
            g.stage@.len() == 0,
            g.wf(),
    {
        Golden { paths: Vec::new(), stage: Store::new() }
    }

    /// Register path `p` and create its staged file, empty.  Requesting the
    /// same path again simply starts the staged file over.
    pub fn file(&mut self, p: &Vec<u8>)
        ensures
            final(self).paths@.len() == old(self).paths@.len() + 1,
            final(self).paths@[old(self).paths@.len() as int]@ == p@,
            forall|i: int| 0 <= i < old(self).paths@.len() ==> final(self).paths@[i]
                == old(self).paths@[i],
            forall|q: Seq<u8>| #[trigger] lookup(final(self).stage@, q) == (if q == p@ {
                Some(Seq::<u8>::empty())
            } else {
                lookup(old(self).stage@, q)
            }),
            old(self).wf() ==> final(self).wf(),
    {
        let path_copy = slice_bytes(p, 0, p.len());
        proof {
            assert(p@.subrange(0, p@.len() as int) =~= p@);
        }
        self.paths.push(path_copy);
        let staged_name = slice_bytes(p, 0, p.len());
        self.stage.put(staged_name, Vec::new());
    }

    /// Append `data` to the staged file for path `p`: one write through the
    /// writer handed out for that path.
    pub fn append(&mut self, p: &Vec<u8>, data: &Vec<u8>)
        requires
            lookup(old(self).stage@, p@) is Some,
        ensures
            final(self).paths == old(self).paths,
            forall|q: Seq<u8>| #[trigger] lookup(final(self).stage@, q) == (if q == p@ {
                Some(staged_at(old(self).stage@, p@) + data@)
            } else {
                lookup(old(self).stage@, q)
            }),
            old(self).wf() ==> final(self).wf(),
    {
        let mut cur = match self.stage.get(p) {
            Some(d) => d,
            None => {
                proof {
                    assert(false);
                }
                Vec::new()
            },
        };
        append_bytes(&mut cur, data);
        let path_copy = slice_bytes(p, 0, p.len());
        proof {
            assert(p@.subrange(0, p@.len() as int) =~= p@);
        }
        self.stage.put(path_copy, cur);
    }

    /// Verify every registered path, in registration order, against the
    /// golden store, stopping at the first path that does not pass.
    ///
    /// Succeeds exactly when every registered path passes: its golden
    /// counterpart exists, decodes, and its decoded content equals the
    /// staged content.  Otherwise the error names the first failing path
    /// and, for a mismatch, carries the number of difference regions found
    /// and the rendered diff.
    pub fn verify(&self, golden: &Store) -> (r: Result<(), VerifyError>)
        requires
            self.wf(),
        ensures
            r is Ok <==> (forall|i: int| 0 <= i < self.paths@.len() ==> #[trigger] self.verdict_at(
                golden@,
                i,
            ) is Pass),
            r matches Err(e) ==> exists|i: int| self.fails_at(golden@, e, i),
    {
        let mut i: usize = 0;
        while i < self.paths.len()
            invariant
                self.wf(),
                i <= self.paths@.len(),
                forall|j: int| 0 <= j < i ==> #[trigger] self.verdict_at(golden@, j) is Pass,
            decreases self.paths@.len() - i,
        {
            let p = &self.paths[i];
            let gb = match golden.get(p) {
                Some(b) => b,
                None => {
                    let path = slice_bytes(p, 0, p.len());
                    proof {
                        assert(p@.subrange(0, p@.len() as int) =~= p@);
                        assert(self.fails_at(golden@, VerifyError::MissingGolden { path }, i as int));
                    }
                    return Err(VerifyError::MissingGolden { path });
                },
            };
            let graw = match decode_artifact(p, &gb) {
                Some(d) => d,
                None => {
                    let path = slice_bytes(p, 0, p.len());
                    proof {
                        assert(p@.subrange(0, p@.len() as int) =~= p@);
                        assert(self.fails_at(golden@, VerifyError::CorruptGolden { path }, i as int));
                    }
                    return Err(VerifyError::CorruptGolden { path });
                },
            };
            let sraw = match self.stage.get(p) {
                Some(d) => d,
                None => {
                    proof {
                        assert(false);
                    }
                    Vec::new()
                },
            };
            match compare_contents(&graw, &sraw) {
                ContentCheck::Pass => {
                    proof {
                        assert(self.verdict_at(golden@, i as int) is Pass);
                    }
                },
                ContentCheck::Unreadable => {
                    let path = slice_bytes(p, 0, p.len());
                    proof {
                        assert(p@.subrange(0, p@.len() as int) =~= p@);
                        assert(self.fails_at(golden@, VerifyError::Unreadable { path }, i as int));
                    }
                    return Err(VerifyError::Unreadable { path });
                },
                ContentCheck::Mismatch(n, out) => {
                    let path = slice_bytes(p, 0, p.len());
                    proof {
                        assert(p@.subrange(0, p@.len() as int) =~= p@);
                        assert(self.fails_at(
                            golden@,
                            VerifyError::Mismatch { path, count: n, output: out },
                            i as int,
                        ));
                    }
                    return Err(VerifyError::Mismatch { path, count: n, output: out });
                },
            }
            i = i + 1;
        }
        Ok(())
    }

    /// Promote every registered path: store its staged content, encoded for
    /// its path, at that path in the golden store, overwriting whatever was
    /// there.  Paths that were never registered keep their golden content.
    pub fn update(&self, golden: &mut Store)
        requires
            self.wf(),
        ensures
            forall|q: Seq<u8>| !self.registered(q) ==> #[trigger] lookup(final(golden)@, q)
                == lookup(old(golden)@, q),
            forall|i: int| 0 <= i < self.paths@.len() ==> golden_updated(
                final(golden)@,
                #[trigger] self.paths@[i]@,
                staged_at(self.stage@, self.paths@[i]@),
            ),
    {
        let mut i: usize = 0;
        while i < self.paths.len()
            invariant
                self.wf(),
                i <= self.paths@.len(),
                forall|q: Seq<u8>| !self.registered(q) ==> #[trigger] lookup(golden@, q) == lookup(
                    old(golden)@,
                    q,
                ),
                forall|j: int| 0 <= j < i ==> golden_updated(
                    golden@,
                    #[trigger] self.paths@[j]@,
                    staged_at(self.stage@, self.paths@[j]@),
                ),
            decreases self.paths@.len() - i,
        {
            let p = &self.paths[i];
            let sraw = match self.stage.get(p) {
                Some(d) => d,
                None => {
                    proof {
                        assert(false);
                    }
                    Vec::new()
                },
            };
            let enc = encode_artifact(p, &sraw);
            let path_copy = slice_bytes(p, 0, p.len());
            proof {
                assert(p@.subrange(0, p@.len() as int) =~= p@);
            }
            golden.put(path_copy, enc);
            i = i + 1;
        }
    }
}

} // verus!
