//! Storage whose items are named by the slot that they occupy.

use vstd::prelude::*;

verus! {

/// There is no room for another item.
#[derive(Debug, Clone, Copy, PartialEq, Eq, Structural)]
pub struct Full;

/// Items in numbered slots. An item keeps its slot until it is removed; a new item gets the
/// first slot that is free.
pub struct Slab<T> {
    slots: Vec<Option<T>>,
}

impl<T> View for Slab<T> {
    type V = Seq<Option<T>>;

    closed spec fn view(&self) -> Seq<Option<T>> {
        self.slots@
    }
}

/// Whether slot `index` holds an item.
pub open spec fn occupied<T>(slots: Seq<Option<T>>, index: int) -> bool {
    0 <= index < slots.len() && slots[index] is Some
}

/// The first slot from `index` on that is free.
pub open spec fn first_free<T>(slots: Seq<Option<T>>, index: int) -> int
    decreases slots.len() - index,
{
    if 0 <= index < slots.len() && slots[index] is Some {
        first_free(slots, index + 1)
    } else {
        index
    }
}

/// The slots after `item` was put in the first free one.
pub open spec fn slots_added<T>(slots: Seq<Option<T>>, item: T) -> Seq<Option<T>> {
    let index = first_free(slots, 0);
    if index < slots.len() {
        slots.update(index, Some(item))
    } else {
        slots.push(Some(item))
    }
}

/// The first occupied slot from `index` on.
pub open spec fn next_occupied<T>(slots: Seq<Option<T>>, index: int) -> Option<int>
    decreases slots.len() - index,
{
    if index < 0 || index >= slots.len() {
        None
    } else if slots[index] is Some {
        Some(index)
    } else {
        next_occupied(slots, index + 1)
    }
}

impl<T> Slab<T> {
    /// Create storage without items.
    pub fn new() -> (slab: Slab<T>)
        ensures
            slab@ == Seq::<Option<T>>::empty(),
    {
        Slab { slots: Vec::new() }
    }

    /// The slot that the next item gets.
    pub fn vacant(&self) -> (index: usize)
        ensures
            index == first_free(self@, 0),
            index <= self@.len(),
            !occupied(self@, index as int),
    {
        let len: usize = self.slots.len();
        let mut index: usize = 0;
        while index < len
            invariant
                index <= len,
                len == self.slots@.len(),
                first_free(self@, 0) == first_free(self@, index as int),
            decreases len - index,
        {
            if self.slots[index].is_none() {
                return index;
            }
            index = index + 1;
        }
        index
    }

    /// Put an item in the first free slot, and return the slot. Every slot that the machine
    /// can number may be in use.
    pub fn add(&mut self, item: T) -> (index: core::result::Result<usize, Full>)
        ensures
            index is Err <==> first_free(old(self)@, 0) == usize::MAX,
            index is Err ==> final(self)@ == old(self)@,
            index matches Ok(i) ==> {
                &&& i == first_free(old(self)@, 0)
                &&& final(self)@ == slots_added(old(self)@, item)
            },
    {
        let index: usize = self.vacant();
        if index == usize::MAX {
            return Err(Full);
        }
        if index < self.slots.len() {
            self.slots.set(index, Some(item));
        } else {
            self.slots.push(Some(item));
        }
        Ok(index)
    }

    /// Remove the item of an occupied slot.
    pub fn remove(&mut self, index: usize) -> (item: T)
        requires
            occupied(old(self)@, index as int),
        ensures
            old(self)@[index as int] == Some(item),
            final(self)@ == old(self)@.update(index as int, None),
    {
        let item: Option<T> = self.slots[index].take();
        item.unwrap()
    }

    /// The number of slots, occupied or not.
    pub fn slot_count(&self) -> (count: usize)
        ensures
            count == self@.len(),
    {
        self.slots.len()
    }

    /// Query whether a slot holds an item.
    pub fn contains(&self, index: usize) -> (r: bool)
        ensures
            r == occupied(self@, index as int),
    {
        index < self.slots.len() && self.slots[index].is_some()
    }

    /// The item of an occupied slot.
    pub fn get(&self, index: usize) -> (item: &T)
        requires
            occupied(self@, index as int),
        ensures
            self@[index as int] == Some(*item),
    {
        match &self.slots[index] {
            Some(item) => item,
            None => vstd::pervasive::unreached(),
        }
    }

    /// The item of an occupied slot, for modification.
    pub fn get_mut(&mut self, index: usize) -> (item: &mut T)
        requires
            occupied(old(self)@, index as int),
        ensures
            old(self)@[index as int] == Some(*item),
            final(self)@ == old(self)@.update(index as int, Some(*final(item))),
    {
        match &mut self.slots[index] {
            Some(item) => item,
            None => vstd::pervasive::unreached(),
        }
    }

    /// The first occupied slot from `index` on.
    pub fn next_occupied(&self, index: usize) -> (next: Option<usize>)
        ensures
            match next {
                Some(i) => next_occupied(self@, index as int) == Some(i as int),
                None => next_occupied(self@, index as int) is None,
            },
    {
        let len: usize = self.slots.len();
        let mut i: usize = index;
        while i < len
            invariant
                len == self.slots@.len(),
                index <= i,
                next_occupied(self@, index as int) == next_occupied(self@, i as int),
            decreases len - i,
        {
            if self.slots[i].is_some() {
                return Some(i);
            }
            i = i + 1;
        }
        None
    }

    /// The occupied slots, in order.
    pub fn indices(&self) -> (indices: Vec<usize>)
        ensures
            forall|i: int| 0 <= i < indices@.len() ==> occupied(self@, indices@[i] as int),
            forall|i: int, j: int| 0 <= i < j < indices@.len() ==> indices@[i] < indices@[j],
            forall|k: int| occupied(self@, k) ==> indices@.contains(k as usize),
    {
        let len: usize = self.slots.len();
        let mut indices: Vec<usize> = Vec::new();
        let mut k: usize = 0;
        while k < len
            invariant
                k <= len,
                len == self.slots@.len(),
                forall|i: int| 0 <= i < indices@.len() ==> occupied(self@, indices@[i] as int) && indices@[i] < k,
                forall|i: int, j: int| 0 <= i < j < indices@.len() ==> indices@[i] < indices@[j],
                forall|m: int| 0 <= m < k && occupied(self@, m) ==> indices@.contains(m as usize),
            decreases len - k,
        {
            let ghost before = indices@;
            if self.slots[k].is_some() {
                indices.push(k);
                assert(indices@[before.len() as int] == k);
                assert forall|m: int| 0 <= m < k + 1 && occupied(self@, m) implies indices@.contains(
                    m as usize,
                ) by {
                    if m < k {
                        let w = choose|w: int| 0 <= w < before.len() && before[w] == m as usize;
                        assert(indices@[w] == m as usize);
                    }
                }
            }
            k = k + 1;
        }
        indices
    }
}

/// A new item gets a slot that was free, every other item keeps its slot, and no slot changes
/// when the item is removed again.
pub proof fn law_slab_add<T>(slots: Seq<Option<T>>, item: T, other: int)
    ensures
        !occupied(slots, first_free(slots, 0)),
        0 <= first_free(slots, 0) <= slots.len(),
        slots_added(slots, item)[first_free(slots, 0)] == Some(item),
        other != first_free(slots, 0) ==> occupied(slots_added(slots, item), other) == occupied(
            slots,
            other,
        ),
        occupied(slots, other) ==> slots_added(slots, item)[other] == slots[other],
        occupied(slots_added(slots, item).update(first_free(slots, 0), None), other) == occupied(
            slots,
            other,
        ),
{
    lemma_first_free(slots, 0);
}

/// The first free slot is free and not past the end.
pub(crate) proof fn lemma_first_free<T>(slots: Seq<Option<T>>, index: int)
    requires
        0 <= index <= slots.len(),
    ensures
        index <= first_free(slots, index) <= slots.len(),
        !occupied(slots, first_free(slots, index)),
    decreases slots.len() - index,
{
    if index < slots.len() && slots[index] is Some {
        lemma_first_free(slots, index + 1);
    }
}

/// The search for an occupied slot finds the first one, and visits all of them if it goes on
/// behind what it found.
pub proof fn law_next_occupied<T>(slots: Seq<Option<T>>, from: int)
    requires
        0 <= from,
    ensures
        next_occupied(slots, from) matches Some(i) ==> {
            &&& from <= i < slots.len()
            &&& occupied(slots, i)
            &&& forall|j: int| from <= j < i ==> !#[trigger] occupied(slots, j)
        },
        next_occupied(slots, from) is None ==> forall|j: int|
            from <= j ==> !#[trigger] occupied(slots, j),
    decreases slots.len() - from,
{
    if from < slots.len() && slots[from] is None {
        law_next_occupied(slots, from + 1);
    }
}

/// The slots can be counted.
pub(crate) proof fn lemma_slot_count<T>(slab: Slab<T>)
    ensures
        slab@.len() <= usize::MAX,
{
    assert(slab.slots.len() == slab@.len());
}

/// An item is put in the lowest slot that is free.
pub proof fn law_lowest_slot<T>(slots: Seq<Option<T>>, from: int)
    requires
        0 <= from <= slots.len(),
    ensures
        from <= first_free(slots, from) <= slots.len(),
        !occupied(slots, first_free(slots, from)),
        forall|i: int| from <= i < first_free(slots, from) ==> #[trigger] occupied(slots, i),
    decreases slots.len() - from,
{
    if from < slots.len() && slots[from] is Some {
        law_lowest_slot(slots, from + 1);
    }
}

} // verus!
