//! The mathematical model of what a storage keeps for one type of component.

use vstd::prelude::*;

verus! {

/// What a storage keeps for the type `T`: the component in each slot, with `None` for a slot
/// that is empty, and the slot that each id owns.
#[verifier::ext_equal]
pub struct Store<T> {
    pub values: Seq<Option<T>>,
    pub owners: Map<u64, int>,
}

/// The test for a slot that is not empty.
pub open spec fn filled<T>() -> spec_fn(Option<T>) -> bool {
    |value: Option<T>| value is Some
}

/// The components among `values`, in the order of their slots.
pub open spec fn components_of<T>(values: Seq<Option<T>>) -> Seq<Option<T>> {
    values.filter(filled())
}

impl<T> Store<T> {
    /// The store of a type of which no component was ever inserted.
    pub open spec fn empty() -> Self {
        Store { values: Seq::empty(), owners: Map::empty() }
    }

    /// The slot `i` exists and is not empty.
    pub open spec fn occupied(self, i: int) -> bool {
        0 <= i < self.values.len() && self.values[i] is Some
    }

    /// The id owns a component.
    pub open spec fn owns(self, id: u64) -> bool {
        self.owners.contains_key(id)
    }

    /// Each owner owns a component, and no two own the same one.
    pub open spec fn valid(self) -> bool {
        &&& forall|id: u64| #[trigger] self.owns(id) ==> self.occupied(self.owners[id])
        &&& forall|a: u64, b: u64| #[trigger]
            self.owns(a) && #[trigger] self.owns(b) && self.owners[a] == self.owners[b] ==> a == b
    }

    /// The component that the id owns.
    pub open spec fn component(self, id: u64) -> T
        recommends
            self.valid(),
            self.owns(id),
    {
        self.values[self.owners[id]]->0
    }

    /// The number of slots.
    pub open spec fn capacity(self) -> nat {
        self.values.len()
    }

    /// The number of slots that are not empty.
    pub open spec fn len(self) -> nat {
        components_of(self.values).len()
    }

    /// The number of components in the slots before `i`.
    pub open spec fn rank(self, i: int) -> int {
        components_of(self.values.take(i)).len() as int
    }

    /// `i` is the first slot that is empty or, if none is, the slot that would come next.
    pub open spec fn is_next_index(self, i: int) -> bool {
        &&& 0 <= i <= self.values.len()
        &&& i < self.values.len() ==> self.values[i] is None
        &&& forall|j: int| 0 <= j < i ==> #[trigger] self.values[j] is Some
    }

    /// The slot for the next component.
    pub open spec fn next_index(self) -> int {
        choose|i: int| self.is_next_index(i)
    }

    /// A component is put into the slot `i`, a new one if it comes right after the last.
    pub open spec fn put(self, i: int, value: T) -> Self {
        Store {
            values: if i == self.values.len() {
                self.values.push(Some(value))
            } else {
                self.values.update(i, Some(value))
            },
            ..self
        }
    }

    /// The slot `i` is emptied.
    pub open spec fn clear(self, i: int) -> Self {
        Store { values: self.values.update(i, None), ..self }
    }

    /// A component is inserted into the next slot, and the id owns it from then on.
    pub open spec fn insert(self, id: u64, value: T) -> Self {
        Store {
            owners: self.owners.insert(id, self.next_index()),
            ..self.put(self.next_index(), value)
        }
    }

    /// The component that the id owns is replaced.
    pub open spec fn set(self, id: u64, value: T) -> Self {
        self.put(self.owners[id], value)
    }

    /// The component that the id owns is emptied, and the id no longer owns one.
    pub open spec fn remove(self, id: u64) -> Self {
        Store { owners: self.owners.remove(id), ..self.clear(self.owners[id]) }
    }

    /// The components move to the first slots, in the order they had, the ids follow them, and
    /// the slots that are left over disappear.
    pub open spec fn compress(self) -> Self {
        Store {
            values: components_of(self.values),
            owners: self.owners.map_values(|i: int| self.rank(i)),
        }
    }

    /// There is just one slot for the next component.
    pub proof fn lemma_next_index(self, i: int)
        requires
            self.is_next_index(i),
        ensures
            self.next_index() == i,
    {
        let j = self.next_index();
        assert(self.is_next_index(j));
        if i < j {
            assert(self.values[i] is Some);
        }
        if j < i {
            assert(self.values[j] is Some);
        }
    }

    /// There is a slot for the next component.
    pub proof fn lemma_next_index_exists(self)
        ensures
            self.is_next_index(self.next_index()),
    {
        lemma_next_index_from(self, 0);
    }

    /// To insert a component keeps the owners valid.
    pub proof fn lemma_insert_valid(self, id: u64, value: T)
        requires
            self.valid(),
        ensures
            self.insert(id, value).valid(),
    {
        self.lemma_next_index_exists();
        let after = self.insert(id, value);
        assert forall|a: u64| #[trigger] after.owns(a) implies after.occupied(after.owners[a]) by {
            if a != id {
                assert(self.owns(a));
            }
        }
        assert forall|a: u64, b: u64| #[trigger]
            after.owns(a) && #[trigger]
            after.owns(b) && after.owners[a] == after.owners[b] implies a == b by {
            if a != id {
                assert(self.owns(a));
            }
            if b != id {
                assert(self.owns(b));
            }
        }
    }

    /// To replace a component keeps the owners valid.
    pub proof fn lemma_set_valid(self, id: u64, value: T)
        requires
            self.valid(),
            self.owns(id),
        ensures
            self.set(id, value).valid(),
    {
        let after = self.set(id, value);
        assert forall|a: u64| #[trigger] after.owns(a) implies after.occupied(after.owners[a]) by {
            assert(self.owns(a));
        }
        assert forall|a: u64, b: u64| #[trigger]
            after.owns(a) && #[trigger]
            after.owns(b) && after.owners[a] == after.owners[b] implies a == b by {
            assert(self.owns(a) && self.owns(b));
        }
    }

    /// To empty a component keeps the owners valid.
    pub proof fn lemma_remove_valid(self, id: u64)
        requires
            self.valid(),
            self.owns(id),
        ensures
            self.remove(id).valid(),
    {
        let after = self.remove(id);
        assert forall|a: u64| #[trigger] after.owns(a) implies after.occupied(after.owners[a]) by {
            assert(self.owns(a) && self.owners[a] != self.owners[id]);
        }
        assert forall|a: u64, b: u64| #[trigger]
            after.owns(a) && #[trigger]
            after.owns(b) && after.owners[a] == after.owners[b] implies a == b by {
            assert(self.owns(a) && self.owns(b));
        }
    }

    /// To compress a store keeps the owners valid.
    pub proof fn lemma_compress_valid(self)
        requires
            self.valid(),
        ensures
            self.compress().valid(),
    {
        let after = self.compress();
        assert forall|a: u64| #[trigger] after.owns(a) implies after.occupied(after.owners[a]) by {
            assert(self.owns(a));
            lemma_compressed(self, self.owners[a]);
        }
        assert forall|a: u64, b: u64| #[trigger]
            after.owns(a) && #[trigger]
            after.owns(b) && after.owners[a] == after.owners[b] implies a == b by {
            assert(self.owns(a) && self.owns(b));
            lemma_compressed(self, self.owners[a]);
            assert(self.occupied(self.owners[b]));
        }
    }
}

/// The indices of one type: those in use, and those that are ready for reuse.
#[verifier::ext_equal]
pub struct IndexSets {
    pub packed: Set<usize>,
    pub free: Set<usize>,
}

impl IndexSets {
    /// `i` is the least index that is free or, if none is, the default index.
    pub open spec fn is_next(self, default_index: usize, i: usize) -> bool {
        if self.free == Set::<usize>::empty() {
            i == default_index
        } else {
            &&& self.free.contains(i)
            &&& forall|j: usize| #[trigger] self.free.contains(j) ==> i <= j
        }
    }

    /// The index `i` is taken into use.
    pub open spec fn take(self, i: usize) -> Self {
        IndexSets { packed: self.packed.insert(i), free: self.free.remove(i) }
    }

    /// The index `i` is ready for reuse, if it was in use.
    pub open spec fn release(self, i: usize) -> Self {
        IndexSets {
            packed: self.packed.remove(i),
            free: if self.packed.contains(i) {
                self.free.insert(i)
            } else {
                self.free
            },
        }
    }
}

proof fn lemma_next_index_from<T>(store: Store<T>, i: int)
    requires
        0 <= i <= store.values.len(),
        forall|j: int| 0 <= j < i ==> #[trigger] store.values[j] is Some,
    ensures
        exists|n: int| store.is_next_index(n),
    decreases store.values.len() - i,
{
    if i < store.values.len() && store.values[i] is Some {
        lemma_next_index_from(store, i + 1);
    } else {
        assert(store.is_next_index(i));
    }
}

/// The components are as many as the slots that hold them.
pub proof fn lemma_len_of_indices<T>(values: Seq<Option<T>>, indices: Set<usize>)
    requires
        values.len() <= usize::MAX,
        forall|i: usize| #[trigger]
            indices.contains(i) <==> i < values.len() && values[i as int] is Some,
    ensures
        indices.finite(),
        indices.len() == components_of(values).len(),
    decreases values.len(),
{
    reveal(Seq::filter);
    if values.len() == 0 {
        assert(indices =~= Set::<usize>::empty());
    } else {
        let last = (values.len() - 1) as usize;
        lemma_len_of_indices(values.drop_last(), indices.remove(last));
        if values.last() is Some {
            assert(indices =~= indices.remove(last).insert(last));
        } else {
            assert(indices =~= indices.remove(last));
        }
    }
}

/// `indices` are the slots among `values` that are not empty, in ascending order.
pub open spec fn enumerates<T>(values: Seq<Option<T>>, indices: Seq<int>) -> bool {
    &&& forall|k: int|
        0 <= k < indices.len() ==> 0 <= #[trigger] indices[k] < values.len()
            && values[indices[k]] is Some
    &&& forall|j: int, k: int|
        0 <= j < k < indices.len() ==> #[trigger] indices[j] < #[trigger] indices[k]
    &&& forall|i: int|
        0 <= i < values.len() && #[trigger] values[i] is Some ==> indices.contains(i)
}

/// The components are those in the enumerated slots.
pub proof fn lemma_enumerated<T>(values: Seq<Option<T>>, indices: Seq<int>)
    requires
        enumerates(values, indices),
    ensures
        components_of(values) == Seq::new(indices.len(), |k: int| values[indices[k]]),
    decreases values.len(),
{
    reveal(Seq::filter);
    let named = Seq::new(indices.len(), |k: int| values[indices[k]]);
    if values.len() == 0 {
        if indices.len() > 0 {
            assert(0 <= indices[0] < values.len());
        }
        assert(components_of(values) =~= named);
    } else {
        let front = values.drop_last();
        let last = values.len() - 1;
        if values.last() is Some {
            assert(indices.contains(last));
            let k = choose|k: int| 0 <= k < indices.len() && indices[k] == last;
            if k < indices.len() - 1 {
                assert(indices[k] < indices[indices.len() - 1]);
            }
            let rest = indices.drop_last();
            assert forall|i: int|
                0 <= i < front.len() && #[trigger] front[i] is Some implies rest.contains(i) by {
                assert(values[i] is Some);
                let j = choose|j: int| 0 <= j < indices.len() && indices[j] == i;
                assert(rest[j] == i);
            }
            assert forall|j: int| 0 <= j < rest.len() implies 0 <= #[trigger] rest[j] < front.len()
                && front[rest[j]] is Some by {
                assert(indices[j] < indices[indices.len() - 1]);
            }
            lemma_enumerated(front, rest);
            assert(named =~= Seq::new(rest.len(), |k: int| front[rest[k]]).push(values.last()));
        } else {
            assert forall|k: int| 0 <= k < indices.len() implies 0 <= #[trigger] indices[k]
                < front.len() && front[indices[k]] is Some by {
                assert(values[indices[k]] is Some);
            }
            assert forall|i: int|
                0 <= i < front.len() && #[trigger] front[i] is Some implies indices.contains(i) by {
                assert(values[i] is Some);
            }
            lemma_enumerated(front, indices);
            assert(named =~= Seq::new(indices.len(), |k: int| front[indices[k]]));
        }
    }
}

/// The rank of an enumerated slot is its place in the enumeration.
pub proof fn lemma_rank<T>(store: Store<T>, indices: Seq<int>, k: int)
    requires
        enumerates(store.values, indices),
        0 <= k < indices.len(),
    ensures
        store.rank(indices[k]) == k,
{
    let front = store.values.take(indices[k]);
    let before = indices.take(k);
    assert forall|i: int|
        0 <= i < front.len() && #[trigger] front[i] is Some implies before.contains(i) by {
        assert(store.values[i] is Some);
        let j = choose|j: int| 0 <= j < indices.len() && indices[j] == i;
        if k <= j {
            assert(indices[k] <= indices[j]);
        }
        assert(before[j] == i);
    }
    assert forall|j: int| 0 <= j < before.len() implies 0 <= #[trigger] before[j] < front.len()
        && front[before[j]] is Some by {
        assert(indices[j] < indices[k]);
    }
    lemma_enumerated(front, before);
}

/// The slots of a store that are not empty, in ascending order, can be enumerated.
pub proof fn lemma_enumerable<T>(values: Seq<Option<T>>) -> (indices: Seq<int>)
    ensures
        enumerates(values, indices),
    decreases values.len(),
{
    if values.len() == 0 {
        Seq::empty()
    } else {
        let front = values.drop_last();
        let rest = lemma_enumerable(front);
        let last = values.len() - 1;
        let indices = if values.last() is Some {
            rest.push(last)
        } else {
            rest
        };
        assert forall|k: int| 0 <= k < indices.len() implies 0 <= #[trigger] indices[k]
            < values.len() && values[indices[k]] is Some by {
            if k < rest.len() {
                assert(front[rest[k]] is Some);
            }
        }
        assert forall|j: int, k: int| 0 <= j < k < indices.len() implies #[trigger] indices[j]
            < #[trigger] indices[k] by {
            assert(0 <= rest[j] < front.len());
            if k < rest.len() {
                assert(rest[j] < rest[k]);
            }
        }
        assert forall|i: int|
            0 <= i < values.len() && #[trigger] values[i] is Some implies indices.contains(i) by {
            if i < last {
                assert(front[i] is Some);
                let k = choose|k: int| 0 <= k < rest.len() && rest[k] == i;
                assert(indices[k] == i);
            } else {
                assert(indices[rest.len() as int] == i);
            }
        }
        indices
    }
}

/// The component in a slot is, after a compression, in the slot that its rank names, and no
/// component of another slot is.
pub proof fn lemma_compressed<T>(store: Store<T>, i: int)
    requires
        store.occupied(i),
    ensures
        0 <= store.rank(i) < store.len(),
        components_of(store.values)[store.rank(i)] == store.values[i],
        forall|j: int| #[trigger] store.occupied(j) && store.rank(j) == store.rank(i) ==> j == i,
{
    let indices = lemma_enumerable(store.values);
    lemma_enumerated(store.values, indices);
    let k = choose|k: int| 0 <= k < indices.len() && indices[k] == i;
    assert(store.values[i] is Some);
    assert(indices[k] == i);
    lemma_rank(store, indices, k);
    assert forall|j: int| #[trigger]
        store.occupied(j) && store.rank(j) == store.rank(i) implies j == i by {
        assert(store.values[j] is Some);
        let m = choose|m: int| 0 <= m < indices.len() && indices[m] == j;
        assert(indices[m] == j);
        lemma_rank(store, indices, m);
    }
}

/// The state of a packing under way. Of the components among `values`, those in the slots `rest`
/// have still to move, and those in the slots `from`, taken in ascending order, have moved to the
/// first slots; `now` holds what the slots hold in between.
pub open spec fn packing<T>(
    values: Seq<Option<T>>,
    now: Seq<Option<T>>,
    rest: Set<usize>,
    from: Seq<int>,
) -> bool {
    &&& now.len() == values.len() <= usize::MAX
    &&& from.len() <= values.len()
    &&& forall|j: int|
        0 <= j < from.len() ==> {
            &&& j <= #[trigger] from[j] < values.len()
            &&& values[from[j]] is Some
            &&& now[j] == values[from[j]]
        }
    &&& forall|j: int, k: int|
        0 <= j < k < from.len() ==> #[trigger] from[j] < #[trigger] from[k]
    &&& forall|p: usize| #[trigger]
        rest.contains(p) ==> {
            &&& p < values.len()
            &&& values[p as int] is Some
            &&& now[p as int] == values[p as int]
            &&& from.len() > 0 ==> from.last() < p
        }
    &&& forall|p: usize|
        p < values.len() && #[trigger] values[p as int] is Some ==> rest.contains(p)
            || from.contains(p as int)
    &&& forall|p: usize|
        from.len() <= p < values.len() && !rest.contains(p) ==> #[trigger] now[p as int] is None
}

/// Before the first move, all components have still to move.
pub proof fn lemma_packing_start<T>(values: Seq<Option<T>>, rest: Set<usize>)
    requires
        values.len() <= usize::MAX,
        forall|p: usize| #[trigger]
            rest.contains(p) <==> p < values.len() && values[p as int] is Some,
    ensures
        packing(values, values, rest, Seq::<int>::empty()),
{
}

/// The component in the least slot that has still to move goes to the slot after those that have
/// moved, which is the first one that is empty once the component has left its own.
pub proof fn lemma_packing_step<T>(
    store: Store<T>,
    values: Seq<Option<T>>,
    rest: Set<usize>,
    from: Seq<int>,
    i: usize,
)
    requires
        packing(values, store.values, rest, from),
        rest.contains(i),
        forall|p: usize| #[trigger] rest.contains(p) ==> i <= p,
    ensures
        store.occupied(i as int),
        store.values[i as int] == values[i as int],
        store.clear(i as int).next_index() == from.len(),
        packing(
            values,
            store.clear(i as int).put(from.len() as int, values[i as int]->0).values,
            rest.remove(i),
            from.push(i as int),
        ),
{
    let n = from.len() as int;
    let cleared = store.clear(i as int);
    let after = cleared.put(n, values[i as int]->0).values;
    assert(n <= i) by {
        if n > 0 {
            assert(n - 1 <= from[n - 1]);
        }
    }
    assert(cleared.is_next_index(n)) by {
        if n < i {
            assert(!rest.contains(n as usize));
            assert(store.values[(n as usize) as int] is None);
        }
        assert forall|j: int| 0 <= j < n implies #[trigger] cleared.values[j] is Some by {
            assert(values[from[j]] is Some);
        }
    }
    cleared.lemma_next_index(n);
    let moved = from.push(i as int);
    assert forall|j: int| 0 <= j < moved.len() implies {
        &&& j <= #[trigger] moved[j] < values.len()
        &&& values[moved[j]] is Some
        &&& after[j] == values[moved[j]]
    } by {
        if j < n {
            assert(moved[j] == from[j]);
        }
    }
    assert forall|j: int, k: int| 0 <= j < k < moved.len() implies #[trigger] moved[j]
        < #[trigger] moved[k] by {
        if k == n {
            assert(from[j] <= from.last());
        } else {
            assert(from[j] < from[k]);
        }
    }
    assert forall|p: usize|
        p < values.len() && #[trigger] values[p as int] is Some implies rest.remove(i).contains(p)
        || moved.contains(p as int) by {
        if p == i {
            assert(moved[n] == i);
        } else if from.contains(p as int) {
            let j = choose|j: int| 0 <= j < from.len() && from[j] == p;
            assert(moved[j] == p);
        }
    }
    assert forall|p: usize|
        moved.len() <= p < values.len() && !rest.remove(i).contains(p) implies #[trigger]
        after[p as int] is None by {
        if p != i {
            assert(!rest.contains(p));
            assert(store.values[p as int] is None);
        }
    }
}

/// After the last move, the first slots hold the components, and the others are empty.
pub proof fn lemma_packing_end<T>(
    values: Seq<Option<T>>,
    now: Seq<Option<T>>,
    rest: Set<usize>,
    from: Seq<int>,
)
    requires
        packing(values, now, rest, from),
        rest == Set::<usize>::empty(),
    ensures
        enumerates(values, from),
        from.len() == components_of(values).len(),
        from.len() == components_of(now).len(),
        now.take(from.len() as int) == components_of(values),
        forall|i: int| from.len() <= i < now.len() ==> #[trigger] now[i] is None,
{
    assert forall|i: int|
        0 <= i < values.len() && #[trigger] values[i] is Some implies from.contains(i) by {
        assert(values[(i as usize) as int] is Some);
    }
    lemma_enumerated(values, from);
    assert(now.take(from.len() as int) =~= components_of(values));
    assert forall|i: int| from.len() <= i < now.len() implies #[trigger] now[i] is None by {
        assert(!rest.contains(i as usize));
        assert(now[(i as usize) as int] is None);
    }
    let first = Seq::new(from.len(), |k: int| k);
    assert forall|k: int| 0 <= k < first.len() implies 0 <= #[trigger] first[k] < now.len()
        && now[first[k]] is Some by {
        assert(values[from[k]] is Some);
    }
    assert forall|i: int|
        0 <= i < now.len() && #[trigger] now[i] is Some implies first.contains(i) by {
        assert(first[i] == i);
    }
    lemma_enumerated(now, first);
}

} // verus!
