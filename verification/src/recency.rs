//! The order in which the ids of a bounded store were last used, and the
//! least-recently-used rule that decides which id leaves a full store.

use vstd::prelude::*;

verus! {

/// `order` with `id` moved to the most recently used end, if it is there.
pub open spec fn touched(order: Seq<u32>, id: u32) -> Seq<u32> {
    if order.contains(id) {
        order.remove(order.index_of(id)).push(id)
    } else {
        order
    }
}

/// The id that leaves when `id` is inserted into a store of `capacity` ids:
/// the least recently used one, if `id` is new and the store is full.
pub open spec fn evicted(order: Seq<u32>, capacity: nat, id: u32) -> Option<u32> {
    if !order.contains(id) && order.len() >= capacity && order.len() > 0 {
        Some(order.first())
    } else {
        None
    }
}

/// `order` after `id` is inserted as the most recently used id.
pub open spec fn inserted(order: Seq<u32>, capacity: nat, id: u32) -> Seq<u32> {
    if order.contains(id) {
        touched(order, id)
    } else if order.len() >= capacity && order.len() > 0 {
        order.drop_first().push(id)
    } else {
        order.push(id)
    }
}

/// Touching an id keeps the ids and their number, and leaves no duplicates.
pub proof fn lemma_touched(order: Seq<u32>, id: u32)
    requires
        order.no_duplicates(),
    ensures
        touched(order, id).no_duplicates(),
        touched(order, id).len() == order.len(),
        touched(order, id).to_set() == order.to_set(),
        order.contains(id) ==> touched(order, id).last() == id,
{
    if order.contains(id) {
        let i = order.index_of(id);
        let rest = order.remove(i);
        let after = rest.push(id);
        order.remove_ensures(i);
        assert forall|j: int| 0 <= j < rest.len() implies #[trigger] rest[j] != id by {
            if j < i {
                assert(rest[j] == order[j]);
            } else {
                assert(rest[j] == order[j + 1]);
            }
        }
        assert forall|j: int, k: int| 0 <= j < after.len() && 0 <= k < after.len() && j != k
            implies after[j] != after[k] by {
            if j < rest.len() && k < rest.len() {
                let oj = if j < i { j } else { j + 1 };
                let ok = if k < i { k } else { k + 1 };
                assert(rest[j] == order[oj]);
                assert(rest[k] == order[ok]);
            } else if j < rest.len() {
                assert(rest[j] != id);
            } else {
                assert(rest[k] != id);
            }
        }
        assert forall|x: u32| after.to_set().contains(x) <==> order.to_set().contains(x) by {
            if after.contains(x) {
                let j = choose|j: int| 0 <= j < after.len() && after[j] == x;
                if j < rest.len() {
                    let oj = if j < i { j } else { j + 1 };
                    assert(order[oj] == x);
                } else {
                    assert(order[i] == x);
                }
            }
            if order.contains(x) {
                let j = choose|j: int| 0 <= j < order.len() && order[j] == x;
                if j < i {
                    assert(after[j] == x);
                } else if j == i {
                    assert(after[after.len() - 1] == x);
                } else {
                    assert(rest[j - 1] == order[j]);
                    assert(after[j - 1] == x);
                }
            }
        }
        assert(after.to_set() =~= order.to_set());
    }
}

/// Inserting an id makes it the most recently used one, keeps the store
/// within its capacity, and removes the least recently used id and no other,
/// and that one only from a full store that does not hold the new id.
pub proof fn lemma_inserted(order: Seq<u32>, capacity: nat, id: u32)
    requires
        order.no_duplicates(),
        order.len() <= capacity,
        capacity > 0,
    ensures
        inserted(order, capacity, id).no_duplicates(),
        inserted(order, capacity, id).len() <= capacity,
        inserted(order, capacity, id).last() == id,
        inserted(order, capacity, id).len() > 0,
        inserted(order, capacity, id).to_set() == (match evicted(order, capacity, id) {
            Some(victim) => order.to_set().remove(victim).insert(id),
            None => order.to_set().insert(id),
        }),
        evicted(order, capacity, id) matches Some(victim) ==> victim != id && order.contains(
            victim,
        ),
{
    let after = inserted(order, capacity, id);
    if order.contains(id) {
        lemma_touched(order, id);
        assert(order.to_set().insert(id) =~= order.to_set());
    } else if order.len() >= capacity && order.len() > 0 {
        let victim = order.first();
        let rest = order.drop_first();
        assert(order.contains(victim));
        assert forall|j: int, k: int| 0 <= j < after.len() && 0 <= k < after.len() && j != k
            implies after[j] != after[k] by {
            if j < rest.len() && k < rest.len() {
                assert(rest[j] == order[j + 1]);
                assert(rest[k] == order[k + 1]);
            } else if j < rest.len() {
                assert(rest[j] == order[j + 1]);
            } else {
                assert(rest[k] == order[k + 1]);
            }
        }
        assert forall|x: u32|
            after.to_set().contains(x) <==> order.to_set().remove(victim).insert(id).contains(
                x,
            ) by {
            if after.contains(x) {
                let j = choose|j: int| 0 <= j < after.len() && after[j] == x;
                if j < rest.len() {
                    assert(rest[j] == order[j + 1]);
                }
            }
            if x == id {
                assert(after[after.len() - 1] == x);
            } else if order.contains(x) && x != victim {
                let j = choose|j: int| 0 <= j < order.len() && order[j] == x;
                assert(rest[j - 1] == order[j]);
                assert(after[j - 1] == x);
            }
        }
        assert(after.to_set() =~= order.to_set().remove(victim).insert(id));
    } else {
        assert forall|x: u32| after.to_set().contains(x) <==> order.to_set().insert(id).contains(
            x,
        ) by {
            if after.contains(x) {
                let j = choose|j: int| 0 <= j < after.len() && after[j] == x;
                if j < order.len() {
                    assert(order[j] == x);
                }
            }
            if x == id {
                assert(after[after.len() - 1] == x);
            } else if order.contains(x) {
                let j = choose|j: int| 0 <= j < order.len() && order[j] == x;
                assert(after[j] == x);
            }
        }
        assert(after.to_set() =~= order.to_set().insert(id));
    }
}

/// The ids resident in a bounded store, least recently used first.
pub struct RecencyList {
    order: Vec<u32>,
    capacity: usize,
}

impl View for RecencyList {
    type V = Seq<u32>;

    closed spec fn view(&self) -> Seq<u32> {
        self.order@
    }
}

impl RecencyList {
    /// The number of ids that the store may hold.
    pub closed spec fn capacity(&self) -> nat {
        self.capacity as nat
    }

    /// No id is listed twice, and the list is within its capacity, which is
    /// at least one.
    pub open spec fn wf(&self) -> bool {
        &&& self@.no_duplicates()
        &&& self@.len() <= self.capacity()
        &&& self.capacity() > 0
    }

    /// An empty list for a store of `capacity` ids.
    pub fn new(capacity: usize) -> (list: Self)
        requires
            capacity > 0,
        ensures
            list@ == Seq::<u32>::empty(),
            list.capacity() == capacity,
            list.wf(),
    {
        RecencyList { order: Vec::new(), capacity }
    }

    /// The number of resident ids.
    pub fn len(&self) -> (n: usize)
        ensures
            n == self@.len(),
    {
        self.order.len()
    }

    /// The number of ids that the store may hold.
    pub fn limit(&self) -> (n: usize)
        ensures
            n == self.capacity(),
    {
        self.capacity
    }

    /// The id at `index`, counted from the least recently used.
    pub fn id_at(&self, index: usize) -> (id: u32)
        requires
            index < self@.len(),
        ensures
            id == self@[index as int],
    {
        self.order[index]
    }

    /// Where `id` stands in the list, if it is resident.
    pub fn position_of(&self, id: u32) -> (found: Option<usize>)
        ensures
            match found {
                Some(index) => index < self@.len() && self@[index as int] == id,
                None => !self@.contains(id),
            },
    {
        let mut index: usize = 0;
        while index < self.order.len()
            invariant
                index <= self.order@.len(),
                forall|j: int| 0 <= j < index ==> self.order@[j] != id,
            decreases self.order@.len() - index,
        {
            if self.order[index] == id {
                return Some(index);
            }
            index += 1;
        }
        None
    }

    /// Whether `id` is resident.
    pub fn contains(&self, id: u32) -> (resident: bool)
        ensures
            resident == self@.contains(id),
    {
        self.position_of(id).is_some()
    }

    /// Marks `id` as the most recently used, if it is resident, and says
    /// whether it is.
    pub fn touch(&mut self, id: u32) -> (resident: bool)
        requires
            old(self).wf(),
        ensures
            resident == old(self)@.contains(id),
            final(self)@ == touched(old(self)@, id),
            final(self).capacity() == old(self).capacity(),
            final(self).wf(),
    {
        proof {
            lemma_touched(self@, id);
        }
        match self.position_of(id) {
            Some(index) => {
                assert(self@.index_of(id) == index);
                self.order.remove(index);
                self.order.push(id);
                true
            },
            None => false,
        }
    }

    /// Makes `id` resident as the most recently used id. A full list that
    /// does not hold `id` first gives up its least recently used id, which is
    /// returned.
    pub fn insert(&mut self, id: u32) -> (victim: Option<u32>)
        requires
            old(self).wf(),
        ensures
            victim == evicted(old(self)@, old(self).capacity(), id),
            final(self)@ == inserted(old(self)@, old(self).capacity(), id),
            final(self).capacity() == old(self).capacity(),
            final(self).wf(),
    {
        proof {
            lemma_inserted(self@, self.capacity(), id);
        }
        if self.touch(id) {
            None
        } else if self.order.len() >= self.capacity {
            let victim = self.order.remove(0);
            assert(self.order@ == old(self)@.drop_first());
            self.order.push(id);
            Some(victim)
        } else {
            self.order.push(id);
            None
        }
    }
}

} // verus!
