//! The fingerprint store: an append-only, insertion-ordered log of comment
//! fingerprints. Fingerprints are only ever appended, never updated or
//! deleted, which keeps the dedup history mechanically immutable.

use vstd::prelude::*;

verus! {

/// The store's failure taxonomy. Appending to the in-memory log cannot
/// fail, so no operation currently produces a value of this type, but the
/// persistence contract surfaces it so callers abort a batch on error.
#[derive(Debug, Clone, Copy, PartialEq, Eq, Structural)]
pub enum StoreError {
    Unavailable,
}

/// An append-only log of fingerprints in insertion order, oldest first.
pub struct FingerprintStore {
    fingerprints: Vec<String>,
}

impl View for FingerprintStore {
    type V = Seq<Seq<char>>;

    closed spec fn view(&self) -> Seq<Seq<char>> {
        self.fingerprints.deep_view()
    }
}

/// The last `n` entries of `s`, most recent first; fewer when `s` is
/// shorter than `n`.
pub open spec fn recent_spec(s: Seq<Seq<char>>, n: int) -> Seq<Seq<char>> {
    let k = if s.len() < n {
        s.len() as int
    } else {
        n
    };
    Seq::new(k as nat, |i: int| s[s.len() - 1 - i])
}

impl FingerprintStore {
    /// An empty store.
    pub fn new() -> (r: Self)
        ensures
            r@ == Seq::<Seq<char>>::empty(),
    {
        let r = FingerprintStore { fingerprints: Vec::new() };
        proof {
            assert(r@ =~= Seq::<Seq<char>>::empty());
        }
        r
    }

    /// A store holding the given fingerprints, oldest first.
    pub fn from_fingerprints(fingerprints: Vec<String>) -> (r: Self)
        ensures
            r@ == fingerprints.deep_view(),
    {
        FingerprintStore { fingerprints }
    }

    /// How many fingerprints have been recorded.
    pub fn len(&self) -> (n: usize)
        ensures
            n == self@.len(),
    {
        self.fingerprints.len()
    }

    /// Appends a fingerprint. Never updates an existing entry; inserting
    /// the same fingerprint twice records it twice.
    pub fn insert(&mut self, fingerprint: String) -> (r: Result<(), StoreError>)
        ensures
            r is Ok,
            final(self)@ == old(self)@.push(fingerprint@),
    {
        let ghost before = self@;
        self.fingerprints.push(fingerprint);
        proof {
            assert(self@ =~= before.push(fingerprint@));
        }
        Ok(())
    }

    /// The last `n` inserted fingerprints, insertion order descending; when
    /// `n` exceeds the store size, all entries are returned.
    pub fn recent(&self, n: usize) -> (r: Vec<String>)
        ensures
            r.deep_view() == recent_spec(self@, n as int),
    {
        let len = self.fingerprints.len();
        let k = if len < n {
            len
        } else {
            n
        };
        let mut r: Vec<String> = Vec::new();
        let mut i: usize = 0;
        while i < k
            invariant
                0 <= i <= k <= len,
                len == self.fingerprints@.len(),
                k == if self@.len() < n as int {
                    self@.len() as int
                } else {
                    n as int
                },
                r.deep_view() =~= recent_spec(self@, n as int).take(i as int),
            decreases k - i,
        {
            r.push(self.fingerprints[len - 1 - i].clone());
            proof {
                assert(recent_spec(self@, n as int).take(i + 1) =~= recent_spec(
                    self@,
                    n as int,
                ).take(i as int).push(recent_spec(self@, n as int)[i as int]));
            }
            i = i + 1;
        }
        proof {
            assert(recent_spec(self@, n as int).take(k as int) =~= recent_spec(self@, n as int));
        }
        r
    }
}

} // verus!
