//! What holds of the surface model: the lower bound, upserts, selection
//! and the calendar check, stated over sequences of entries.

use crate::binary64::Binary64;
use crate::volatility::surface::{
    ascending, calendar_ordered, lower_bound, present, select, slices_admissible, splits_at,
    stored_entry, upsert, Entry, Lookup,
};
use crate::volatility::svi::Slice;
use vstd::prelude::*;

verus! {

/// The lower bound of an ascending sequence splits it.
pub proof fn lower_bound_splits(s: Seq<Entry>, key: int)
    requires
        ascending(s),
    ensures
        splits_at(s, key, lower_bound(s, key)),
    decreases s.len(),
{
    if s.len() > 0 && !(s.last().maturity.rank() < key) {
        let front = s.drop_last();
        assert forall|i: int, j: int| 0 <= i < j < front.len() implies (#[trigger] front[i]).maturity.rank()
            < (#[trigger] front[j]).maturity.rank() by {
            assert(front[i] == s[i] && front[j] == s[j]);
        }
        lower_bound_splits(front, key);
        let p = lower_bound(front, key);
        assert forall|i: int| 0 <= i < p implies (#[trigger] s[i]).maturity.rank() < key by {
            assert(front[i] == s[i]);
        }
        assert forall|i: int| p <= i < s.len() implies (#[trigger] s[i]).maturity.rank() >= key by {
            if i < front.len() {
                assert(front[i] == s[i]);
            }
        }
    } else if s.len() > 0 {
        assert forall|i: int| 0 <= i < s.len() implies (#[trigger] s[i]).maturity.rank() < key by {
            if i < s.len() - 1 {
                assert(s[i].maturity.rank() < s[s.len() - 1].maturity.rank());
            }
        }
    }
}

/// Only the lower bound splits an ascending sequence.
pub proof fn lower_bound_is_unique(s: Seq<Entry>, key: int, p: int)
    requires
        ascending(s),
        splits_at(s, key, p),
    ensures
        p == lower_bound(s, key),
{
    lower_bound_splits(s, key);
    let q = lower_bound(s, key);
    if p < q {
        assert(s[p].maturity.rank() < key);
    } else if q < p {
        assert(s[q].maturity.rank() < key);
    }
}

/// An upsert keeps the maturities strictly ascending.
pub proof fn upsert_keeps_order(s: Seq<Entry>, maturity: Binary64, slice: Slice)
    requires
        ascending(s),
    ensures
        ascending(upsert(s, maturity, slice)),
        splits_at(upsert(s, maturity, slice), maturity.rank(), lower_bound(s, maturity.rank())),
{
    let key = maturity.rank();
    let p = lower_bound(s, key);
    let t = upsert(s, maturity, slice);
    lower_bound_splits(s, key);
    if present(s, maturity) {
        assert forall|i: int| 0 <= i < t.len() implies (#[trigger] t[i]).maturity.rank()
            == s[i].maturity.rank() by {}
        assert forall|i: int, j: int| 0 <= i < j < t.len() implies (#[trigger] t[i]).maturity.rank()
            < (#[trigger] t[j]).maturity.rank() by {
            assert(s[i].maturity.rank() < s[j].maturity.rank());
        }
        assert forall|i: int| 0 <= i < p implies (#[trigger] t[i]).maturity.rank() < key by {
            assert(s[i].maturity.rank() < key);
        }
        assert forall|i: int| p <= i < t.len() implies (#[trigger] t[i]).maturity.rank() >= key by {
            assert(s[i].maturity.rank() >= key);
        }
    } else {
        assert forall|i: int| 0 <= i < t.len() implies (#[trigger] t[i]).maturity.rank() == (if i < p {
            s[i].maturity.rank()
        } else if i == p {
            key
        } else {
            s[i - 1].maturity.rank()
        }) by {}
        assert forall|i: int| p <= i < s.len() implies (#[trigger] s[i]).maturity.rank() > key by {
            if i > p {
                assert(s[p].maturity.rank() < s[i].maturity.rank());
            }
        }
        assert forall|i: int, j: int| 0 <= i < j < t.len() implies (#[trigger] t[i]).maturity.rank()
            < (#[trigger] t[j]).maturity.rank() by {
            if j < p {
                assert(s[i].maturity.rank() < s[j].maturity.rank());
            } else if j == p {
                assert(s[i].maturity.rank() < key);
            } else if i < p {
                assert(s[i].maturity.rank() < key);
                assert(s[j - 1].maturity.rank() > key);
            } else if i == p {
                assert(s[j - 1].maturity.rank() > key);
            } else {
                assert(s[i - 1].maturity.rank() < s[j - 1].maturity.rank());
            }
        }
        assert forall|i: int| 0 <= i < p implies (#[trigger] t[i]).maturity.rank() < key by {
            assert(s[i].maturity.rank() < key);
        }
        assert forall|i: int| p <= i < t.len() implies (#[trigger] t[i]).maturity.rank() >= key by {
            if i > p {
                assert(s[i - 1].maturity.rank() > key);
            }
        }
    }
}

/// A query at the maturity of an upsert finds exactly the slice that was
/// put there, and the upsert adds one entry if the key was new and none if
/// it was present.
pub proof fn upsert_then_select(s: Seq<Entry>, maturity: Binary64, slice: Slice)
    requires
        ascending(s),
    ensures
        select(upsert(s, maturity, slice), maturity) == Lookup::Exact(slice),
        upsert(s, maturity, slice).len() == (if select(s, maturity) is Exact {
            s.len()
        } else {
            s.len() + 1
        }),
{
    upsert_keeps_order(s, maturity, slice);
    lower_bound_is_unique(
        upsert(s, maturity, slice),
        maturity.rank(),
        lower_bound(s, maturity.rank()),
    );
    lower_bound_splits(s, maturity.rank());
}

/// What an upsert holds afterwards: the stored entry, which carries the
/// given slice under the given key, and every entry of another maturity
/// that the sequence held before, and nothing else.
pub proof fn upsert_contents(s: Seq<Entry>, maturity: Binary64, slice: Slice)
    requires
        ascending(s),
    ensures
        stored_entry(s, maturity, slice).slice == slice,
        stored_entry(s, maturity, slice).maturity.rank() == maturity.rank(),
        present(s, maturity) <==> exists|i: int|
            0 <= i < s.len() && (#[trigger] s[i]).maturity.rank() == maturity.rank(),
        forall|e: Entry|
            #[trigger] upsert(s, maturity, slice).contains(e) <==> ((s.contains(e)
                && e.maturity.rank() != maturity.rank()) || e == stored_entry(s, maturity, slice)),
{
    let key = maturity.rank();
    let p = lower_bound(s, key);
    let t = upsert(s, maturity, slice);
    let stored = stored_entry(s, maturity, slice);
    lower_bound_splits(s, key);
    upsert_keeps_order(s, maturity, slice);
    assert(t[p] == stored);
    if !present(s, maturity) {
        assert forall|i: int| 0 <= i < s.len() implies (#[trigger] s[i]).maturity.rank() != key by {
            if i >= p && i > p {
                assert(s[p].maturity.rank() < s[i].maturity.rank());
            }
        }
    }
    assert forall|e: Entry| #[trigger] t.contains(e) implies ((s.contains(e) && e.maturity.rank()
        != key) || e == stored) by {
        let j = choose|j: int| 0 <= j < t.len() && t[j] == e;
        if present(s, maturity) {
            if j != p {
                assert(t[j] == s[j]);
                assert(s[j].maturity.rank() != s[p].maturity.rank());
            }
        } else {
            if j < p {
                assert(t[j] == s[j]);
                assert(s[j].maturity.rank() < key);
            } else if j > p {
                assert(t[j] == s[j - 1]);
                assert(t[p].maturity.rank() < t[j].maturity.rank());
            }
        }
    }
    assert forall|e: Entry| s.contains(e) && e.maturity.rank() != key implies #[trigger] t.contains(
        e,
    ) by {
        let j = choose|j: int| 0 <= j < s.len() && s[j] == e;
        if present(s, maturity) {
            assert(t[j] == e);
        } else if j < p {
            assert(t[j] == e);
        } else {
            assert(t[j + 1] == e);
        }
    }
}

/// A query at another maturity than that of an upsert finds a slice at
/// exactly its maturity after the upsert if and only if it did so before,
/// and then the same slice.
pub proof fn upsert_keeps_other_slices(
    s: Seq<Entry>,
    maturity: Binary64,
    slice: Slice,
    query: Binary64,
)
    requires
        ascending(s),
        query.rank() != maturity.rank(),
    ensures
        select(upsert(s, maturity, slice), query) is Exact <==> select(s, query) is Exact,
        select(s, query) is Exact ==> select(upsert(s, maturity, slice), query) == select(
            s,
            query,
        ),
{
    let t = upsert(s, maturity, slice);
    upsert_keeps_order(s, maturity, slice);
    upsert_contents(s, maturity, slice);
    select_brackets(s, query);
    select_brackets(t, query);
    if select(s, query) is Exact {
        let i = choose|i: int|
            0 <= i < s.len() && (#[trigger] s[i]).maturity.rank() == query.rank() && Lookup::Exact(
                s[i].slice,
            ) == select(s, query);
        assert(s.contains(s[i]));
        assert(t.contains(s[i]));
        let j = choose|j: int| 0 <= j < t.len() && t[j] == s[i];
        assert(t[j].maturity.rank() == query.rank());
    }
    if select(t, query) is Exact {
        let j = choose|j: int|
            0 <= j < t.len() && (#[trigger] t[j]).maturity.rank() == query.rank() && Lookup::Exact(
                t[j].slice,
            ) == select(t, query);
        assert(t.contains(t[j]));
        assert(s.contains(t[j]));
        let i = choose|i: int| 0 <= i < s.len() && s[i] == t[j];
        assert(s[i].maturity.rank() == query.rank());
    }
}

/// What a selection means, in an ascending sequence. `Exact` names the one
/// slice whose maturity has the queried rank. `Between` names two
/// neighbouring entries with the queried maturity strictly between them.
/// `Nearest` names the first slice where every maturity lies above the
/// query, the last where every maturity lies below. Nothing is selected
/// only from an empty sequence.
pub proof fn select_brackets(s: Seq<Entry>, maturity: Binary64)
    requires
        ascending(s),
    ensures
        select(s, maturity) is Empty <==> s.len() == 0,
        match select(s, maturity) {
            Lookup::Empty => true,
            Lookup::Exact(slice) => exists|i: int|
                0 <= i < s.len() && (#[trigger] s[i]).maturity.rank() == maturity.rank()
                    && s[i].slice == slice,
            Lookup::Between { before, after } => {
                &&& before.maturity.rank() < maturity.rank() < after.maturity.rank()
                &&& exists|i: int| 0 < i < s.len() && s[i - 1] == before && (#[trigger] s[i]) == after
            },
            Lookup::Nearest(slice) => {
                ||| (slice == s[0].slice && forall|i: int|
                    0 <= i < s.len() ==> (#[trigger] s[i]).maturity.rank() > maturity.rank())
                ||| (slice == s.last().slice && forall|i: int|
                    0 <= i < s.len() ==> (#[trigger] s[i]).maturity.rank() < maturity.rank())
            },
        },
        forall|i: int|
            0 <= i < s.len() && (#[trigger] s[i]).maturity.rank() == maturity.rank() ==> select(
                s,
                maturity,
            ) == Lookup::Exact(s[i].slice),
{
    let key = maturity.rank();
    let p = lower_bound(s, key);
    lower_bound_splits(s, key);
    if 0 < p < s.len() {
        assert(s[p - 1].maturity.rank() < key <= s[p].maturity.rank());
    }
    assert forall|i: int|
        0 <= i < s.len() && (#[trigger] s[i]).maturity.rank() == key implies select(s, maturity)
        == Lookup::Exact(s[i].slice) by {
        if i < p {
            assert(s[i].maturity.rank() < key);
        } else if i > p {
            assert(s[p].maturity.rank() < s[i].maturity.rank());
        }
    }
}

/// A surface whose at-the-money total variance falls from one maturity to
/// the next is not arbitrage-free, whatever its slices are by themselves.
pub proof fn calendar_violation_fails(s: Seq<Entry>, i: int)
    requires
        0 < i < s.len(),
        s[i].slice.atm_variance.less(s[i - 1].slice.atm_variance),
    ensures
        !calendar_ordered(s),
        !(slices_admissible(s) && calendar_ordered(s)),
{
    if calendar_ordered(s) {
        assert(s[i - 1].slice.atm_variance.at_most(s[i].slice.atm_variance));
    }
}

} // verus!
