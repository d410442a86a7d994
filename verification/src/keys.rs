//! Commitment-key cache: cryptographic parameters are sized by a table-size
//! exponent (grid row capacity as a power of two) and keyed by a named
//! curve; generation is expensive, so keys are cached and reused. Loading a
//! cached entry trusts the cache's integrity: the caller asserts the cache
//! was produced by a compatible generation process.

use vstd::prelude::*;

verus! {

/// The curve a commitment key belongs to.
#[derive(Clone, Copy, PartialEq, Eq, Structural, Debug)]
pub enum CurveKind {
    Bn256,
    Grumpkin,
}

/// Commitment parameters for one curve, sized for grids of up to `2^k` rows.
#[derive(Clone, Copy, PartialEq, Eq, Structural, Debug)]
pub struct CommitmentKey {
    /// The curve the parameters were generated for.
    pub curve: CurveKind,
    /// Table-size exponent: the key supports any grid whose row capacity is
    /// at most `2^k`.
    pub k: usize,
}

impl CommitmentKey {
    /// Whether the key is large enough for a grid of `2^table_log` rows.
    pub fn supports(&self, table_log: u32) -> (r: bool)
        ensures
            r == (self.k >= table_log),
    {
        self.k >= table_log as usize
    }
}

/// An in-memory commitment-key cache, keyed by `(curve, k)`. The entries are
/// plain values, so a caller may persist them and rebuild the cache later;
/// a rebuilt cache yields exactly the keys the original did.
#[derive(Debug)]
pub struct KeyCache {
    /// The cached keys, in insertion order.
    pub entries: Vec<CommitmentKey>,
}

impl KeyCache {
    /// Whether an entry for `(curve, k)` is cached.
    pub open spec fn has(self, curve: CurveKind, k: usize) -> bool {
        exists|i: int|
            0 <= i < self.entries@.len() && #[trigger] self.entries@[i] == (CommitmentKey {
                curve,
                k,
            })
    }

    /// An empty cache.
    pub fn new() -> (r: KeyCache)
        ensures
            r.entries@.len() == 0,
    {
        KeyCache { entries: Vec::new() }
    }

    /// Rebuild a cache from persisted entries.
    pub fn from_entries(entries: Vec<CommitmentKey>) -> (r: KeyCache)
        ensures
            r.entries@ == entries@,
    {
        KeyCache { entries }
    }

    /// Return the key for `(curve, k)`, loading it from the cache when an
    /// entry exists and generating and caching a fresh one otherwise. Either
    /// way the key returned is exactly the parameters for `(curve, k)`, so a
    /// loaded key produces the same verification outcomes as a freshly
    /// generated one.
    pub fn load_or_create(&mut self, curve: CurveKind, k: usize) -> (r: CommitmentKey)
        ensures
            r == (CommitmentKey { curve, k }),
            final(self).has(curve, k),
            old(self).has(curve, k) ==> *final(self) == *old(self),
            !old(self).has(curve, k) ==> final(self).entries@ == old(self).entries@.push(r),
    {
        let probe = CommitmentKey { curve, k };
        let mut i: usize = 0;
        while i < self.entries.len()
            invariant
                i <= self.entries@.len(),
                probe == (CommitmentKey { curve, k }),
                forall|j: int| 0 <= j < i ==> #[trigger] self.entries@[j] != probe,
            decreases self.entries@.len() - i,
        {
            let e = self.entries[i];
            if e == probe {
                return e;
            }
            i = i + 1;
        }
        self.entries.push(probe);
        proof {
            assert(self.entries@[old(self).entries@.len() as int] == probe);
        }
        probe
    }
}

} // verus!
