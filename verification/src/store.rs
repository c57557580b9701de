//! Sparse-set component container: maps entity ids to component values with
//! O(1) insert, lookup and removal, and dense iteration over live entries.
//!
//! Backed by a sparse indirection array from entity id to a slot in two
//! parallel dense arrays (component values and owning ids). Removal swaps
//! the vacated slot with the last dense entry and repairs the indirection
//! of the moved entry.

use vstd::prelude::*;
use vstd::set_lib::{set_int_range, lemma_int_range, lemma_len_subset};

verus! {

/// Sentinel stored in the sparse array to mark "no component". The same
/// value is reserved as an entity id that no live entity may ever use.
pub const EMPTY: usize = usize::MAX;

pub struct SparseSet<T> {
    sparse: Vec<usize>,
    dense: Vec<T>,
    ids: Vec<usize>,
}

impl<T> View for SparseSet<T> {
    type V = Map<usize, T>;

    /// The store abstracts to a finite map from entity id to component value.
    closed spec fn view(&self) -> Map<usize, T> {
        Map::new(
            |id: usize| (id as int) < self.sparse@.len() && self.sparse@[id as int] != EMPTY,
            |id: usize| self.dense@[self.sparse@[id as int] as int],
        )
    }
}

impl<T> SparseSet<T> {
    /// Live entity ids in dense (iteration) order.
    pub closed spec fn ids_seq(self) -> Seq<usize> {
        self.ids@
    }

    /// Well-formedness: the dense arrays are parallel, every dense entry's
    /// id points back to its own slot through the sparse array, and every
    /// non-empty sparse entry points at a dense slot owning that id.
    pub closed spec fn wf(self) -> bool {
        &&& self.ids@.len() == self.dense@.len()
        &&& forall|j: int|
            0 <= j < self.ids@.len() ==> (#[trigger] self.ids@[j]) != EMPTY
                && (self.ids@[j] as int) < self.sparse@.len()
                && self.sparse@[self.ids@[j] as int] == j
        &&& forall|i: int|
            0 <= i < self.sparse@.len() && (#[trigger] self.sparse@[i]) != EMPTY
                ==> (self.sparse@[i] as int) < self.ids@.len()
                && self.ids@[self.sparse@[i] as int] == i
    }

    /// The dense ids never repeat: each points back at its own slot.
    proof fn lemma_no_duplicates(self)
        requires
            self.wf(),
        ensures
            self.ids@.no_duplicates(),
    {
        assert forall|j1: int, j2: int|
            0 <= j1 < self.ids@.len() && 0 <= j2 < self.ids@.len() && j1 != j2 implies
            self.ids@[j1] != self.ids@[j2] by {
            assert(self.sparse@[self.ids@[j1] as int] == j1);
            assert(self.sparse@[self.ids@[j2] as int] == j2);
        }
    }

    /// With a known-empty sparse slot, the dense array is strictly shorter
    /// than the sparse one (each dense entry owns a distinct other slot).
    proof fn lemma_dense_lt_sparse(self, missing: usize)
        requires
            self.wf(),
            (missing as int) < self.sparse@.len(),
            self.sparse@[missing as int] == EMPTY,
        ensures
            self.ids@.len() < self.sparse@.len(),
    {
        broadcast use vstd::set::group_set_axioms;
        broadcast use vstd::seq_lib::group_seq_lib_default;

        self.lemma_no_duplicates();
        let idsint = self.ids@.map_values(|x: usize| x as int);
        assert forall|j1: int, j2: int|
            0 <= j1 < idsint.len() && 0 <= j2 < idsint.len() && j1 != j2 implies
            idsint[j1] != idsint[j2] by {
            assert(self.ids@[j1] != self.ids@[j2]);
        }
        assert(idsint.no_duplicates());
        idsint.unique_seq_to_set();
        let n = self.sparse@.len() as int;
        let universe = set_int_range(0, n).remove(missing as int);
        assert(self.ids.len() == self.ids@.len());
        assert forall|x: int| idsint.to_set().contains(x) implies universe.contains(x) by {
            let j = choose|j: int| 0 <= j < idsint.len() && idsint[j] == x;
            assert(self.sparse@[self.ids@[j] as int] == j);
            assert(j != EMPTY as int);
            assert(self.ids@[j] != missing);
        }
        lemma_int_range(0, n);
        assert(set_int_range(0, n).contains(missing as int));
        lemma_len_subset(idsint.to_set(), universe);
    }

    pub fn new() -> (s: Self)
        ensures
            s.wf(),
            s@ == Map::<usize, T>::empty(),
            s.ids_seq() == Seq::<usize>::empty(),
    {
        let s = SparseSet { sparse: Vec::new(), dense: Vec::new(), ids: Vec::new() };
        proof {
            assert(s@ =~= Map::<usize, T>::empty());
            assert(s.ids_seq() =~= Seq::<usize>::empty());
        }
        s
    }

    /// Number of live components.
    pub fn len(&self) -> (n: usize)
        ensures
            n == self.ids_seq().len(),
    {
        self.ids.len()
    }

    /// Inserts or overwrites the component for `id`. The sentinel id is a
    /// caller contract violation and is excluded.
    pub fn insert(&mut self, id: usize, value: T)
        requires
            old(self).wf(),
            id != EMPTY,
        ensures
            final(self).wf(),
            final(self)@ == old(self)@.insert(id, value),
            final(self).ids_seq() == if old(self)@.contains_key(id) {
                old(self).ids_seq()
            } else {
                old(self).ids_seq().push(id)
            },
    {
        while self.sparse.len() <= id
            invariant
                id != EMPTY,
                self.dense == old(self).dense,
                self.ids == old(self).ids,
                self.sparse@.len() >= old(self).sparse@.len(),
                forall|i: int|
                    0 <= i < old(self).sparse@.len()
                        ==> (#[trigger] self.sparse@[i]) == old(self).sparse@[i],
                forall|i: int|
                    old(self).sparse@.len() <= i < self.sparse@.len()
                        ==> (#[trigger] self.sparse@[i]) == EMPTY,
            decreases id - self.sparse.len() + 1,
        {
            self.sparse.push(EMPTY);
        }
        proof {
            assert(self.wf());
            assert(self@ =~= old(self)@);
        }
        let ghost grown = *self;
        let idx = self.sparse[id];
        if idx != EMPTY {
            let slot = &mut self.dense[idx];
            *slot = value;
            proof {
                assert(final(self).wf());
                assert forall|k: usize| true implies
                    final(self)@.contains_key(k) == grown@.insert(id, value).contains_key(k)
                    && (final(self)@.contains_key(k)
                        ==> final(self)@[k] == grown@.insert(id, value)[k]) by {
                    if k != id && (k as int) < grown.sparse@.len()
                        && grown.sparse@[k as int] != EMPTY {
                        assert(grown.ids@[grown.sparse@[k as int] as int] == k);
                    }
                }
                assert(final(self)@ =~= old(self)@.insert(id, value));
            }
        } else {
            proof {
                grown.lemma_dense_lt_sparse(id);
                assert(grown.sparse.len() == grown.sparse@.len());
            }
            let idx = self.dense.len();
            let slot = &mut self.sparse[id];
            *slot = idx;
            self.dense.push(value);
            self.ids.push(id);
            proof {
                assert forall|j: int| 0 <= j < self.ids@.len() implies
                    (#[trigger] self.ids@[j]) != EMPTY
                        && (self.ids@[j] as int) < self.sparse@.len()
                        && self.sparse@[self.ids@[j] as int] == j by {
                    if j < grown.ids@.len() {
                        assert(grown.ids@[j] == self.ids@[j]);
                        assert(grown.ids@[j] != id);
                    }
                }
                assert(final(self).wf());
                assert forall|k: usize| true implies
                    final(self)@.contains_key(k) == grown@.insert(id, value).contains_key(k)
                    && (final(self)@.contains_key(k)
                        ==> final(self)@[k] == grown@.insert(id, value)[k]) by {
                    if k != id && (k as int) < grown.sparse@.len()
                        && grown.sparse@[k as int] != EMPTY {
                        assert(grown.ids@[grown.sparse@[k as int] as int] == k);
                    }
                }
                assert(final(self)@ =~= old(self)@.insert(id, value));
            }
        }
    }

    /// Returns the component for `id`, or `None` if absent.
    pub fn get(&self, id: usize) -> (r: Option<&T>)
        requires
            self.wf(),
            id != EMPTY,
        ensures
            match r {
                Some(v) => self@.contains_key(id) && *v == self@[id],
                None => !self@.contains_key(id),
            },
    {
        if id >= self.sparse.len() {
            return None;
        }
        let idx = self.sparse[id];
        if idx == EMPTY {
            return None;
        }
        Some(&self.dense[idx])
    }

    /// Returns a mutable reference to the component for `id`, or `None` if
    /// absent; writing through it updates the stored component.
    pub fn get_mut(&mut self, id: usize) -> (r: Option<&mut T>)
        requires
            old(self).wf(),
            id != EMPTY,
        ensures
            final(self).wf(),
            final(self).ids_seq() == old(self).ids_seq(),
            r is Some ==> old(self)@.contains_key(id) && *r.unwrap() == old(self)@[id]
                && final(self)@ =~= old(self)@.insert(id, *final(r.unwrap())),
            r is None ==> !old(self)@.contains_key(id) && *final(self) == *old(self),
    {
        if id >= self.sparse.len() {
            return None;
        }
        let idx = self.sparse[id];
        if idx == EMPTY {
            return None;
        }
        let r = &mut self.dense[idx];
        Some(r)
    }

    /// Removes the component for `id` in O(1) by swapping the last dense
    /// entry into the vacated slot; returns whether anything was removed.
    pub fn remove(&mut self, id: usize) -> (r: bool)
        requires
            old(self).wf(),
            id != EMPTY,
        ensures
            final(self).wf(),
            r == old(self)@.contains_key(id),
            final(self)@ == old(self)@.remove(id),
    {
        if id >= self.sparse.len() {
            proof {
                assert(final(self)@ =~= old(self)@.remove(id));
            }
            return false;
        }
        let idx = self.sparse[id];
        if idx == EMPTY {
            proof {
                assert(final(self)@ =~= old(self)@.remove(id));
            }
            return false;
        }
        proof {
            assert(old(self).ids@[idx as int] == id);
            assert(self.ids.len() == self.ids@.len());
        }
        let ghost last = (self.ids@.len() - 1) as int;
        self.dense.swap_remove(idx);
        self.ids.swap_remove(idx);
        if idx < self.ids.len() {
            let moved = self.ids[idx];
            proof {
                assert(moved == old(self).ids@[last]);
                assert(old(self).sparse@[moved as int] == last);
                assert(moved != id);
            }
            let slot = &mut self.sparse[moved];
            *slot = idx;
        }
        let slot = &mut self.sparse[id];
        *slot = EMPTY;
        proof {
            let o = old(self);
            let f = *self;
            assert forall|j: int| 0 <= j < f.ids@.len() implies
                (#[trigger] f.ids@[j]) != EMPTY
                    && (f.ids@[j] as int) < f.sparse@.len()
                    && f.sparse@[f.ids@[j] as int] == j by {
                if j != idx {
                    assert(f.ids@[j] == o.ids@[j]);
                    assert(o.sparse@[o.ids@[j] as int] == j);
                    assert(o.ids@[j] != id);
                    assert(o.ids@[j] != o.ids@[last] || j == last);
                } else {
                    assert(f.ids@[j] == o.ids@[last]);
                }
            }
            assert forall|i: int|
                0 <= i < f.sparse@.len() && (#[trigger] f.sparse@[i]) != EMPTY implies
                (f.sparse@[i] as int) < f.ids@.len()
                    && f.ids@[f.sparse@[i] as int] == i by {
                if i != id && i != o.ids@[last] {
                    assert(f.sparse@[i] == o.sparse@[i]);
                    assert(o.ids@[o.sparse@[i] as int] == i);
                    assert(o.sparse@[i] != idx as int && o.sparse@[i] != last);
                }
            }
            assert(final(self).wf());
            assert forall|k: usize| true implies
                f@.contains_key(k) == o@.remove(id).contains_key(k)
                && (f@.contains_key(k) ==> f@[k] == o@.remove(id)[k]) by {
                if k != id && (k as int) < o.sparse@.len() && o.sparse@[k as int] != EMPTY {
                    assert(o.ids@[o.sparse@[k as int] as int] == k);
                }
            }
            assert(final(self)@ =~= old(self)@.remove(id));
        }
        true
    }

    /// Live entity ids in dense order; together with `lemma_model` this is
    /// the iteration contract: every live id exactly once.
    pub fn iter(&self) -> (r: Vec<usize>)
        requires
            self.wf(),
        ensures
            r@ == self.ids_seq(),
    {
        let mut out: Vec<usize> = Vec::new();
        let mut j: usize = 0;
        while j < self.ids.len()
            invariant
                j <= self.ids@.len(),
                out@ == self.ids@.take(j as int),
            decreases self.ids@.len() - j,
        {
            out.push(self.ids[j]);
            j += 1;
        }
        proof {
            assert(out@ =~= self.ids_seq());
        }
        out
    }

    /// The sentinel id never holds a component.
    pub proof fn lemma_sentinel_absent(self)
        ensures
            !self@.contains_key(EMPTY),
    {
        assert(self.sparse.len() == self.sparse@.len());
    }

    /// The iteration order is faithful to the map: `ids_seq` holds no
    /// duplicates and contains exactly the ids with a live component, and
    /// never the sentinel.
    pub proof fn lemma_model(self)
        requires
            self.wf(),
        ensures
            self.ids_seq().no_duplicates(),
            forall|id: usize| #[trigger] self@.contains_key(id) <==> self.ids_seq().contains(id),
            forall|j: int|
                0 <= j < self.ids_seq().len()
                    ==> (#[trigger] self.ids_seq()[j]) != EMPTY,
    {
        self.lemma_no_duplicates();
        assert forall|id: usize| #[trigger] self@.contains_key(id) implies
            self.ids_seq().contains(id) by {
            let j = self.sparse@[id as int];
            assert(self.ids_seq()[j as int] == id);
        }
        assert(self.ids.len() == self.ids@.len());
        assert forall|id: usize| self.ids_seq().contains(id) implies
            #[trigger] self@.contains_key(id) by {
            let j = choose|j: int| 0 <= j < self.ids@.len() && self.ids@[j] == id;
            assert(self.sparse@[self.ids@[j] as int] == j);
            assert(j != EMPTY as int);
        }
    }
}

} // verus!
