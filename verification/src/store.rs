//! An in-memory file store: relative paths mapped to stored bytes.
//!
//! A store stands for one file subtree — the staging area of a session, or
//! the golden subtree it is checked against.  Later entries for a path win,
//! so writing is simply appending.

use vstd::prelude::*;

use crate::cursor::{bytes_eq, slice_bytes};

verus! {

/// One stored file: a relative path and the bytes stored at it.
pub struct Entry {
    pub path: Vec<u8>,
    pub data: Vec<u8>,
}

/// The bytes stored at path `p`, if any: the last entry for `p` wins.
pub open spec fn lookup(es: Seq<Entry>, p: Seq<u8>) -> Option<Seq<u8>>
    decreases es.len(),
{
    if es.len() == 0 {
        None
    } else if es.last().path@ == p {
        Some(es.last().data@)
    } else {
        lookup(es.drop_last(), p)
    }
}

/// A set of files addressed by relative path.
pub struct Store {
    pub entries: Vec<Entry>,
}

impl View for Store {
    type V = Seq<Entry>;

    open spec fn view(&self) -> Seq<Entry> {
        self.entries@
    }
}

impl Store {
    /// An empty store.
    pub fn new() -> (s: Store)
        ensures
            s@.len() == 0,
            forall|q: Seq<u8>| lookup(s@, q) is None,
    {
        Store { entries: Vec::new() }
    }

    /// Store `data` at path `p`, replacing what was stored there before.
    pub fn put(&mut self, p: Vec<u8>, data: Vec<u8>)
        ensures
            final(self)@ == old(self)@.push(Entry { path: p, data: data }),
            forall|q: Seq<u8>| #[trigger] lookup(final(self)@, q) == (if q == p@ {
                Some(data@)
            } else {
                lookup(old(self)@, q)
            }),
    {
        let ghost p_view = p@;
        let ghost d_view = data@;
        self.entries.push(Entry { path: p, data: data });
        proof {
            assert forall|q: Seq<u8>| #[trigger] lookup(self@, q) == (if q == p_view {
                Some(d_view)
            } else {
                lookup(old(self)@, q)
            }) by {
                assert(self@.last() == (Entry { path: p, data: data }));
                assert(self@.drop_last() =~= old(self)@);
            }
        }
    }

    /// The bytes stored at path `p`, if any.
    pub fn get(&self, p: &Vec<u8>) -> (r: Option<Vec<u8>>)
        ensures
            match r {
                Some(d) => lookup(self@, p@) == Some(d@),
                None => lookup(self@, p@) is None,
            },
    {
        let mut i: usize = self.entries.len();
        proof {
            assert(self@.take(i as int) =~= self@);
        }
        while i > 0
            invariant
                i <= self@.len(),
                lookup(self@, p@) == lookup(self@.take(i as int), p@),
            decreases i,
        {
            i = i - 1;
            let e = &self.entries[i];
            proof {
                assert(self@.take(i as int + 1).drop_last() =~= self@.take(i as int));
                assert(self@.take(i as int + 1).last() == self@[i as int]);
            }
            if bytes_eq(&e.path, p) {
                let d = slice_bytes(&e.data, 0, e.data.len());
                proof {
                    assert(e.data@.subrange(0, e.data@.len() as int) =~= e.data@);
                }
                return Some(d);
            }
        }
        None
    }
}

} // verus!
