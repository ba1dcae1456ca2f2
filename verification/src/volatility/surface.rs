//! The volatility surface: SVI slices in ascending order of maturity.
//!
//! Maturities are ordered by [`Binary64::rank`], so two maturities are the
//! same key exactly when their ranks agree (the two zeros are one key). NaN
//! maturities are accepted; by rank they lie beyond the infinities.

use crate::binary64::Binary64;
use crate::volatility::surface_laws::{lower_bound_is_unique, upsert_keeps_order};
use crate::volatility::svi::Slice;
use vstd::prelude::*;

verus! {

/// One maturity with its slice.
#[derive(Debug, Clone, Copy, PartialEq, Eq, Structural)]
pub struct Entry {
    /// Time to maturity, in years.
    pub maturity: Binary64,
    /// The slice at that maturity.
    pub slice: Slice,
}

/// Which slices answer a query at some maturity.
#[derive(Debug, Clone, Copy, PartialEq, Eq, Structural)]
pub enum Lookup {
    /// The surface has no slice.
    Empty,
    /// A slice stands at exactly the queried maturity.
    Exact(Slice),
    /// The queried maturity lies strictly between two neighbouring slices:
    /// total variance is to be interpolated linearly between them.
    Between { before: Entry, after: Entry },
    /// Every slice lies on one side of the queried maturity: the nearest one
    /// is used directly.
    Nearest(Slice),
}

/// Maturities strictly ascending: ordered, and no key twice.
pub open spec fn ascending(s: Seq<Entry>) -> bool {
    forall|i: int, j: int|
        0 <= i < j < s.len() ==> (#[trigger] s[i]).maturity.rank() < (#[trigger] s[j]).maturity.rank()
}

/// In an ascending sequence, the number of entries whose maturity ranks
/// below `key`: the index of the first entry at or above it.
pub open spec fn lower_bound(s: Seq<Entry>, key: int) -> int
    decreases s.len(),
{
    if s.len() == 0 {
        0
    } else if s.last().maturity.rank() < key {
        s.len() as int
    } else {
        lower_bound(s.drop_last(), key)
    }
}

/// Whether `p` splits `s` into the entries below `key` and those at or above.
pub open spec fn splits_at(s: Seq<Entry>, key: int, p: int) -> bool {
    &&& 0 <= p <= s.len()
    &&& forall|i: int| 0 <= i < p ==> (#[trigger] s[i]).maturity.rank() < key
    &&& forall|i: int| p <= i < s.len() ==> (#[trigger] s[i]).maturity.rank() >= key
}

/// Whether an entry of `s` has the rank of `maturity`.
pub open spec fn present(s: Seq<Entry>, maturity: Binary64) -> bool {
    let p = lower_bound(s, maturity.rank());
    p < s.len() && s[p].maturity.rank() == maturity.rank()
}

/// The entry that an upsert stores: the slice under the maturity pattern
/// that is already present, or under the given one where the key is new.
pub open spec fn stored_entry(s: Seq<Entry>, maturity: Binary64, slice: Slice) -> Entry {
    if present(s, maturity) {
        Entry { maturity: s[lower_bound(s, maturity.rank())].maturity, slice }
    } else {
        Entry { maturity, slice }
    }
}

/// The sequence after an upsert: the slice at a key that is present is
/// replaced, a new key is inserted in order.
pub open spec fn upsert(s: Seq<Entry>, maturity: Binary64, slice: Slice) -> Seq<Entry> {
    let p = lower_bound(s, maturity.rank());
    if present(s, maturity) {
        s.update(p, stored_entry(s, maturity, slice))
    } else {
        s.insert(p, stored_entry(s, maturity, slice))
    }
}

/// The slices that answer a query at `maturity`.
pub open spec fn select(s: Seq<Entry>, maturity: Binary64) -> Lookup {
    let p = lower_bound(s, maturity.rank());
    if s.len() == 0 {
        Lookup::Empty
    } else if present(s, maturity) {
        Lookup::Exact(s[p].slice)
    } else if p == 0 {
        Lookup::Nearest(s[0].slice)
    } else if p == s.len() {
        Lookup::Nearest(s[p - 1].slice)
    } else {
        Lookup::Between { before: s[p - 1], after: s[p] }
    }
}

/// Every slice passes its own no-arbitrage check.
pub open spec fn slices_admissible(s: Seq<Entry>) -> bool {
    forall|i: int| 0 <= i < s.len() ==> (#[trigger] s[i]).slice.admissible()
}

/// No calendar arbitrage at the money: total variance at `k = 0` never falls
/// from one maturity to the next.
pub open spec fn calendar_ordered(s: Seq<Entry>) -> bool {
    forall|i: int|
        0 < i < s.len() ==> s[i - 1].slice.atm_variance.at_most((#[trigger] s[i]).slice.atm_variance)
}

/// SVI slices keyed by time to maturity, in ascending order.
#[derive(Debug)]
pub struct VolatilitySurface {
    entries: Vec<Entry>,
}

impl View for VolatilitySurface {
    type V = Seq<Entry>;

    closed spec fn view(&self) -> Seq<Entry> {
        self.entries@
    }
}

impl VolatilitySurface {
    #[verifier::type_invariant]
    spec fn well_formed(self) -> bool {
        ascending(self.entries@)
    }

    /// An empty surface.
    pub fn new() -> (surface: VolatilitySurface)
        ensures
            surface@ == Seq::<Entry>::empty(),
    {
        VolatilitySurface { entries: Vec::new() }
    }

    /// The number of maturity slices.
    pub fn num_slices(&self) -> (n: usize)
        ensures
            n == self@.len(),
            ascending(self@),
    {
        proof {
            use_type_invariant(self);
        }
        self.entries.len()
    }

    /// The entry at `index`, counting in ascending order of maturity.
    pub fn entry(&self, index: usize) -> (e: Option<Entry>)
        ensures
            e == (if index < self@.len() { Some(self@[index as int]) } else { None }),
            ascending(self@),
    {
        proof {
            use_type_invariant(self);
        }
        if index < self.entries.len() {
            Some(self.entries[index])
        } else {
            None
        }
    }

    /// The index of the first entry whose maturity is at or above `key`, by
    /// binary search.
    fn position(&self, key: i64) -> (p: usize)
        ensures
            p == lower_bound(self@, key as int),
            splits_at(self@, key as int, p as int),
    {
        proof {
            use_type_invariant(self);
        }
        let mut low: usize = 0;
        let mut high: usize = self.entries.len();
        while low < high
            invariant
                low <= high <= self.entries@.len(),
                ascending(self.entries@),
                forall|j: int| 0 <= j < low ==> (#[trigger] self.entries@[j]).maturity.rank() < key,
                forall|j: int|
                    high <= j < self.entries@.len() ==> (#[trigger] self.entries@[j]).maturity.rank()
                        >= key,
            decreases high - low,
        {
            let middle: usize = low + (high - low) / 2;
            if self.entries[middle].maturity.order_key() < key {
                assert forall|j: int| 0 <= j < middle + 1 implies (
                #[trigger] self.entries@[j]).maturity.rank() < key by {
                    if j < middle {
                        assert(self.entries@[j].maturity.rank()
                            < self.entries@[middle as int].maturity.rank());
                    }
                }
                low = middle + 1;
            } else {
                assert forall|j: int| middle <= j < self.entries@.len() implies (
                #[trigger] self.entries@[j]).maturity.rank() >= key by {
                    if j > middle {
                        assert(self.entries@[middle as int].maturity.rank()
                            < self.entries@[j].maturity.rank());
                    }
                }
                high = middle;
            }
        }
        proof {
            lower_bound_is_unique(self@, key as int, low as int);
        }
        low
    }

    /// Adds a maturity slice, replacing the slice of a maturity that is
    /// already present.
    pub fn add_slice(&mut self, time_to_maturity: Binary64, slice: Slice)
        ensures
            final(self)@ == upsert(old(self)@, time_to_maturity, slice),
            ascending(old(self)@) && ascending(final(self)@),
    {
        proof {
            use_type_invariant(&*self);
            upsert_keeps_order(self@, time_to_maturity, slice);
        }
        let key: i64 = time_to_maturity.order_key();
        let p: usize = self.position(key);
        let mut entries: Vec<Entry> = Vec::new();
        std::mem::swap(&mut entries, &mut self.entries);
        if p < entries.len() && entries[p].maturity.order_key() == key {
            let kept = entries[p].maturity;
            entries.set(p, Entry { maturity: kept, slice });
        } else {
            entries.insert(p, Entry { maturity: time_to_maturity, slice });
        }
        self.entries = entries;
    }

    /// The slices that answer a query at `time_to_maturity`: the slice at
    /// exactly that maturity if there is one, else the two neighbours to
    /// interpolate between, else the single nearest slice; nothing exactly
    /// when the surface is empty.
    pub fn lookup(&self, time_to_maturity: Binary64) -> (found: Lookup)
        ensures
            found == select(self@, time_to_maturity),
            found is Empty <==> self@.len() == 0,
            ascending(self@),
    {
        proof {
            use_type_invariant(self);
        }
        let key: i64 = time_to_maturity.order_key();
        let p: usize = self.position(key);
        let n: usize = self.entries.len();
        if n == 0 {
            Lookup::Empty
        } else if p < n && self.entries[p].maturity.order_key() == key {
            Lookup::Exact(self.entries[p].slice)
        } else if p == 0 {
            Lookup::Nearest(self.entries[0].slice)
        } else if p == n {
            Lookup::Nearest(self.entries[p - 1].slice)
        } else {
            Lookup::Between { before: self.entries[p - 1], after: self.entries[p] }
        }
    }

    /// Whether the whole surface is arbitrage-free: every slice passes its
    /// own check, and at-the-money total variance does not fall as maturity
    /// grows.
    pub fn is_arbitrage_free(&self) -> (r: bool)
        ensures
            r == (slices_admissible(self@) && calendar_ordered(self@)),
            ascending(self@),
    {
        proof {
            use_type_invariant(self);
        }
        let n: usize = self.entries.len();
        let mut i: usize = 0;
        while i < n
            invariant
                n == self.entries@.len(),
                i <= n,
                ascending(self.entries@),
                forall|j: int| 0 <= j < i ==> (#[trigger] self.entries@[j]).slice.admissible(),
            decreases n - i,
        {
            if !self.entries[i].slice.is_arbitrage_free() {
                return false;
            }
            i += 1;
        }
        let mut k: usize = 1;
        while k < n
            invariant
                n == self.entries@.len(),
                1 <= k,
                ascending(self.entries@),
                slices_admissible(self.entries@),
                forall|j: int|
                    0 < j < k && j < n ==> self.entries@[j - 1].slice.atm_variance.at_most(
                        (#[trigger] self.entries@[j]).slice.atm_variance,
                    ),
            decreases n - k,
        {
            let previous = self.entries[k - 1].slice.atm_variance;
            let current = self.entries[k].slice.atm_variance;
            if !current.ge(previous) {
                return false;
            }
            k += 1;
        }
        true
    }
}

impl Clone for VolatilitySurface {
    fn clone(&self) -> (copy: VolatilitySurface)
        ensures
            copy@ == self@,
    {
        proof {
            use_type_invariant(self);
        }
        let n: usize = self.entries.len();
        let mut entries: Vec<Entry> = Vec::new();
        let mut i: usize = 0;
        while i < n
            invariant
                n == self.entries@.len(),
                i <= n,
                entries@ == self.entries@.subrange(0, i as int),
            decreases n - i,
        {
            entries.push(self.entries[i]);
            assert(entries@ == self.entries@.subrange(0, i + 1));
            i += 1;
        }
        assert(entries@ == self.entries@);
        VolatilitySurface { entries }
    }
}

impl Default for VolatilitySurface {
    fn default() -> (surface: VolatilitySurface)
        ensures
            surface@ == Seq::<Entry>::empty(),
    {
        VolatilitySurface::new()
    }
}

} // verus!
