//! A buffer that owns a run of element slots and knows how many of them, from
//! the front, hold a live value.
//!
//! A slot is written in one of two ways. A populated slot is overwritten: the
//! value it held is released and the new one installed ([`Chunks::set`]). A
//! slot that holds nothing is populated: there is nothing to release
//! ([`Chunks::write_ptr`]). Since the populated slots are always the first
//! ones, the only slot that can be populated is the first free one.
//!
//! Access comes checked and unchecked. The checked forms ([`Chunks::get`],
//! [`Chunks::get_mut`], [`Chunks::write`]) test the index and answer
//! `IndexOutOfBounds`. The unchecked forms (indexing, [`Chunks::set`],
//! [`Chunks::write_ptr`]) test nothing at run time: the index being in range
//! is their precondition.

use crate::mem_utils::{
    array_alloc, array_dealloc, array_init, array_realloc, array_reserve, array_shift_write,
    array_take, array_write, array_write_drop, layout_valid, slots_fit, MemError,
};
use vstd::prelude::*;

verus! {

/// `count` slots, of which the first `len` are populated.
///
/// The populated slots hold the buffer's values in order; the slots behind
/// them are room that holds nothing and is never read. A buffer with no slot
/// owns no allocation.
#[derive(Debug)]
pub struct Chunks<T> {
    data: Vec<T>,
    count: usize,
}

impl<T> View for Chunks<T> {
    type V = Seq<T>;

    /// The values of the populated slots, in order.
    closed spec fn view(&self) -> Seq<T> {
        self.data@
    }
}

/// The state of a buffer after its release: no slot, no value.
pub open spec fn is_released<T>(c: Chunks<T>) -> bool {
    c.count() == 0 && c@ == Seq::<T>::empty()
}

impl<T> Chunks<T> {
    /// Number of slots allocated.
    pub closed spec fn spec_count(&self) -> usize {
        self.count
    }

    /// No more slots are populated than are allocated.
    pub closed spec fn wf(&self) -> bool {
        self.data@.len() <= self.count
    }

    /// A buffer of `count` slots, none populated. A buffer of no slot owns no
    /// allocation; any other number of slots has to be one that can be laid
    /// out.
    pub fn allocate(count: usize) -> (c: Self)
        requires
            slots_fit::<T>(count as nat),
        ensures
            c.wf(),
            c.count() == count,
            c@ == Seq::<T>::empty(),
    {
        let mut data: Vec<T> = Vec::new();
        array_realloc(&mut data, 0, count);
        Chunks { data, count }
    }

    /// Takes over a block whose values were populated by another owner, as a
    /// buffer of `count` slots. Nothing is copied: the values stay where they
    /// are, and the block has no other owner from here on.
    pub fn adopt(block: Vec<T>, count: usize) -> (c: Self)
        requires
            block@.len() <= count,
        ensures
            c.wf(),
            c.count() == count,
            c@ == block@,
    {
        Chunks { data: block, count }
    }

    /// Gives the block up to a new owner, with the populated values in it.
    /// Nothing is copied and nothing released.
    pub fn into_block(self) -> (block: Vec<T>)
        ensures
            block@ == self@,
    {
        self.data
    }

    /// Releases every populated value and then the allocation. The buffer is
    /// left with no slot, so that releasing it again changes nothing.
    pub fn dealloc(&mut self)
        requires
            old(self).wf(),
        ensures
            final(self).wf(),
            is_released(*final(self)),
            is_released(*old(self)) ==> final(self)@ == old(self)@,
            is_released(*old(self)) ==> final(self).count() == old(self).count(),
    {
        if self.allocated() {
            array_dealloc(&mut self.data);
        }
        self.count = 0;
        assert(self.data@ =~= Seq::<T>::empty());
    }

    /// Resizes to `new_count` slots. Populated values that still fit stay where
    /// they are; those in slots that are cut off are released. A buffer that
    /// gains slots asks for their room, so `new_count` then has to be a number
    /// that can be laid out.
    pub fn realloc(&mut self, new_count: usize)
        requires
            old(self).wf(),
            new_count <= old(self).count() || layout_valid::<T>(new_count as nat),
        ensures
            final(self).wf(),
            final(self).count() == new_count,
            new_count >= old(self)@.len() ==> final(self)@ == old(self)@,
            new_count < old(self)@.len() ==> final(self)@ == old(self)@.take(new_count as int),
    {
        array_realloc(&mut self.data, self.count, new_count);
        self.count = new_count;
    }

    /// A buffer of `count` slots, none populated, like [`Chunks::allocate`], but
    /// for any `count`: `InvalidLayout` where `count` is not 0 and that many
    /// elements cannot be laid out; where they can, `OutOfMemory` if the
    /// allocator refuses. No slot needs no room and always succeeds.
    pub fn try_allocate(count: usize) -> (r: Result<Self, MemError>)
        ensures
            count == 0 ==> r is Ok,
            !slots_fit::<T>(count as nat) ==> (r matches Err(e) && e == MemError::InvalidLayout),
            layout_valid::<T>(count as nat) ==> r is Ok || (r matches Err(e) && e
                == MemError::OutOfMemory),
            r matches Ok(c) ==> (c.wf() && c.count() == count && c@ == Seq::<T>::empty()),
    {
        if count == 0 {
            return Ok(Chunks { data: Vec::new(), count });
        }
        match array_alloc::<T>(count) {
            Ok(data) => Ok(Chunks { data, count }),
            Err(e) => Err(e),
        }
    }

    /// Resizes to `new_count` slots like [`Chunks::realloc`], but asks for the
    /// room first and leaves the buffer as it was where that fails. No room is
    /// asked for unless the buffer gains slots; then the outcome is
    /// `InvalidLayout` where `new_count` elements cannot be laid out, and the
    /// allocator's to decide where they can.
    pub fn try_realloc(&mut self, new_count: usize) -> (r: Result<(), MemError>)
        requires
            old(self).wf(),
        ensures
            final(self).wf(),
            new_count <= old(self).count() ==> r is Ok,
            new_count > old(self).count() && !layout_valid::<T>(new_count as nat) ==> r == Err::<
                (),
                MemError,
            >(MemError::InvalidLayout),
            new_count > old(self).count() && layout_valid::<T>(new_count as nat) ==> r is Ok || r
                == Err::<(), MemError>(MemError::OutOfMemory),
            r is Err ==> final(self)@ == old(self)@ && final(self).count() == old(self).count(),
            r is Ok ==> final(self).count() == new_count,
            r is Ok && new_count >= old(self)@.len() ==> final(self)@ == old(self)@,
            r is Ok && new_count < old(self)@.len() ==> final(self)@ == old(self)@.take(
                new_count as int,
            ),
    {
        if new_count > self.count {
            match array_reserve(&mut self.data, new_count) {
                Ok(_) => {
                    self.count = new_count;
                    Ok(())
                },
                Err(e) => Err(e),
            }
        } else {
            self.realloc(new_count);
            Ok(())
        }
    }

    /// Adds `delta` slots behind the existing ones. A buffer with no slot is
    /// left as it is: it has to be allocated afresh.
    pub fn grow(&mut self, delta: usize)
        requires
            old(self).wf(),
            old(self).count() > 0 ==> old(self).count() + delta <= usize::MAX,
            old(self).count() > 0 && delta > 0 ==> layout_valid::<T>(
                (old(self).count() + delta) as nat,
            ),
        ensures
            final(self).wf(),
            final(self)@ == old(self)@,
            old(self).count() == 0 ==> final(self).count() == 0,
            old(self).count() > 0 ==> final(self).count() == old(self).count()
                + delta,
    {
        if !self.allocated() {
            return ;
        }
        self.realloc(self.count + delta);
    }

    /// Whether the buffer owns an allocation.
    pub fn allocated(&self) -> (r: bool)
        ensures
            r == (self.count() > 0),
    {
        self.count > 0
    }

    /// Number of slots allocated.
    #[verifier::when_used_as_spec(spec_count)]
    pub fn count(&self) -> (r: usize)
        ensures
            r == self.spec_count(),
    {
        self.count
    }

    /// Number of populated slots.
    pub fn len(&self) -> (r: usize)
        ensures
            r == self@.len(),
            self.wf() ==> r <= self.count(),
    {
        self.data.len()
    }

    /// Whether `index` names a populated slot.
    pub fn bounds(&self, index: usize) -> (r: bool)
        ensures
            r == (index < self@.len()),
    {
        index < self.data.len()
    }

    /// The indices of all slots, populated or not.
    pub fn indices(&self) -> (r: core::ops::Range<usize>)
        ensures
            r.start == 0,
            r.end == self.count(),
    {
        0..self.count
    }

    /// The indices of the populated slots: those that can be read.
    pub fn populated_indices(&self) -> (r: core::ops::Range<usize>)
        ensures
            r.start == 0,
            r.end == self@.len(),
    {
        0..self.data.len()
    }

    /// The populated slots as a borrowed window. Slots that hold no value are
    /// never part of it.
    pub fn as_slice(&self) -> (r: &[T])
        ensures
            r@ == self@,
    {
        self.data.as_slice()
    }

    /// The populated slots as a window that can be written through. It can
    /// replace values but neither add nor remove a slot.
    pub fn as_mut_slice(&mut self) -> (r: &mut [T])
        ensures
            r@ == old(self)@,
            final(self)@ == final(r)@,
            final(self).count() == old(self).count(),
            old(self).wf() && final(r)@.len() == old(self)@.len() ==> final(self).wf(),
    {
        self.data.as_mut_slice()
    }

    /// The populated slots as an array of `N` elements, where exactly `N`
    /// slots are populated.
    pub fn as_array<const N: usize>(&self) -> (r: Option<&[T; N]>)
        ensures
            r is Some <==> self@.len() == N,
            r is Some ==> r.unwrap()@ == self@,
    {
        slice_as_array::<T, N>(self.data.as_slice())
    }

    /// The value in slot `index`, or `IndexOutOfBounds` where that slot is not
    /// populated.
    pub fn get(&self, index: usize) -> (r: Result<&T, MemError>)
        ensures
            index < self@.len() ==> r == Ok::<&T, MemError>(&self@[index as int]),
            index >= self@.len() ==> r == Err::<&T, MemError>(MemError::IndexOutOfBounds),
    {
        if self.bounds(index) {
            Ok(&self.data[index])
        } else {
            Err(MemError::IndexOutOfBounds)
        }
    }

    /// The value in slot `index`, to be written through, or `IndexOutOfBounds`
    /// where that slot is not populated.
    pub fn get_mut(&mut self, index: usize) -> (r: Result<&mut T, MemError>)
        ensures
            index < old(self)@.len() ==> r is Ok,
            index >= old(self)@.len() ==> r is Err && final(self)@ == old(self)@,
            final(self).count() == old(self).count(),
            r matches Ok(slot) ==> *slot == old(self)@[index as int],
            r matches Ok(slot) ==> final(self)@ == old(self)@.update(index as int, *final(slot)),
            r matches Err(e) ==> e == MemError::IndexOutOfBounds,
            old(self).wf() ==> final(self).wf(),
    {
        if index < self.data.len() {
            Ok(&mut self.data[index])
        } else {
            Err(MemError::IndexOutOfBounds)
        }
    }

    /// Populates the first slot that holds no value. Nothing is released, as
    /// nothing was live there.
    pub fn write_ptr(&mut self, index: usize, value: T)
        requires
            old(self).wf(),
            index == old(self)@.len(),
            index < old(self).count(),
        ensures
            final(self).wf(),
            final(self).count() == old(self).count(),
            final(self)@ == old(self)@.push(value),
    {
        array_write(&mut self.data, index, value);
    }

    /// Moves the value out of the last populated slot, which holds nothing
    /// afterwards. The value goes to the caller unreleased.
    pub fn take_last(&mut self) -> (value: T)
        requires
            old(self).wf(),
            old(self)@.len() > 0,
        ensures
            final(self).wf(),
            final(self).count() == old(self).count(),
            value == old(self)@.last(),
            final(self)@ == old(self)@.drop_last(),
    {
        let last: usize = self.data.len() - 1;
        array_take(&mut self.data, last)
    }

    /// Populates one more slot by making room at `index`: the values from
    /// there on move one slot to the right, and `value` is written into the
    /// vacated slot as into a slot that holds nothing.
    pub fn shift_write(&mut self, index: usize, value: T)
        requires
            old(self).wf(),
            index <= old(self)@.len(),
            old(self)@.len() < old(self).count(),
        ensures
            final(self).wf(),
            final(self).count() == old(self).count(),
            final(self)@ == old(self)@.insert(index as int, value),
    {
        array_shift_write(&mut self.data, index, value);
    }

    /// Replaces the value of the populated slot `index`; the value it held is
    /// released.
    pub fn set(&mut self, index: usize, value: T)
        requires
            old(self).wf(),
            index < old(self)@.len(),
        ensures
            final(self).wf(),
            final(self).count() == old(self).count(),
            final(self)@ == old(self)@.update(index as int, value),
    {
        array_write_drop(&mut self.data, index, value);
    }

    /// Writes `value` to slot `index` in the way that fits the slot: a
    /// populated slot has its value released and replaced, the first
    /// unpopulated one is populated. Any other index is out of bounds, and the
    /// buffer is left as it was.
    pub fn write(&mut self, index: usize, value: T) -> (r: Result<(), MemError>)
        requires
            old(self).wf(),
        ensures
            final(self).wf(),
            final(self).count() == old(self).count(),
            index < old(self)@.len() ==> r is Ok && final(self)@ == old(self)@.update(
                index as int,
                value,
            ),
            index == old(self)@.len() && index < old(self).count() ==> r is Ok && final(self)@
                == old(self)@.push(value),
            index > old(self)@.len() || index >= old(self).count() ==> r == Err::<(), MemError>(
                MemError::IndexOutOfBounds,
            ) && final(self)@ == old(self)@,
    {
        if index < self.data.len() {
            array_write_drop(&mut self.data, index, value);
            Ok(())
        } else if index == self.data.len() && index < self.count {
            array_write(&mut self.data, index, value);
            Ok(())
        } else {
            Err(MemError::IndexOutOfBounds)
        }
    }
}

impl<T: Copy> Chunks<T> {
    /// Fills every slot with `value`: populated slots are overwritten, the
    /// others populated.
    pub fn memset_copy(&mut self, value: T)
        requires
            old(self).wf(),
        ensures
            final(self).wf(),
            final(self).count() == old(self).count(),
            final(self)@ == Seq::new(old(self).count() as nat, |i: int| value),
    {
        let populated: usize = self.data.len();
        let mut i: usize = 0;
        while i < self.count
            invariant
                self.count == old(self).count,
                populated == old(self).data@.len(),
                populated <= self.count,
                i <= self.count,
                self.data@.len() == if i < populated {
                    populated
                } else {
                    i
                },
                forall|j: int| 0 <= j < i ==> self.data@[j] == value,
            decreases self.count - i,
        {
            if i < populated {
                array_write_drop(&mut self.data, i, value);
            } else {
                array_write(&mut self.data, i, value);
            }
            i += 1;
        }
        assert(self.data@ =~= Seq::new(self.count as nat, |i: int| value));
    }

    /// A buffer of `count` slots, each holding `value`.
    pub fn filled_copy(value: T, count: usize) -> (c: Self)
        requires
            slots_fit::<T>(count as nat),
        ensures
            c.wf(),
            c.count() == count,
            c@ == Seq::new(count as nat, |i: int| value),
    {
        let mut c: Self = Self::allocate(count);
        c.memset_copy(value);
        c
    }

    /// A buffer with one slot for each element of `from`, holding copies of
    /// them in order.
    pub fn from_slice_copy(from: &[T]) -> (c: Self)
        requires
            slots_fit::<T>(from@.len()),
        ensures
            c.wf(),
            c.count() == from@.len(),
            c@ == from@,
    {
        let size: usize = from.len();
        let mut c: Self = Self::allocate(size);
        let mut i: usize = 0;
        while i < size
            invariant
                size == from@.len(),
                c.count == size,
                i <= size,
                c.data@ == from@.take(i as int),
            decreases size - i,
        {
            array_write(&mut c.data, i, from[i]);
            i += 1;
            assert(c.data@ =~= from@.take(i as int));
        }
        assert(from@.take(size as int) =~= from@);
        c
    }

    /// Same as [`Chunks::from_slice_copy`].
    pub fn from_slice(from: &[T]) -> (c: Self)
        requires
            slots_fit::<T>(from@.len()),
        ensures
            c.wf(),
            c.count() == from@.len(),
            c@ == from@,
    {
        Self::from_slice_copy(from)
    }
}

impl<T: Clone> Chunks<T> {
    /// Fills every slot with a clone of `value`: populated slots are
    /// overwritten, the others populated.
    pub fn memset_clone(&mut self, value: T)
        requires
            old(self).wf(),
        ensures
            final(self).wf(),
            final(self).count() == old(self).count(),
            final(self)@.len() == old(self).count(),
            forall|i: int|
                0 <= i < final(self)@.len() ==> cloned::<T>(value, #[trigger] final(self)@[i]),
    {
        let populated: usize = self.data.len();
        let mut i: usize = 0;
        while i < self.count
            invariant
                self.count == old(self).count,
                populated == old(self).data@.len(),
                populated <= self.count,
                i <= self.count,
                self.data@.len() == if i < populated {
                    populated
                } else {
                    i
                },
                forall|j: int| 0 <= j < i ==> cloned::<T>(value, #[trigger] self.data@[j]),
            decreases self.count - i,
        {
            let fresh = value.clone();
            if i < populated {
                array_write_drop(&mut self.data, i, fresh);
            } else {
                array_write(&mut self.data, i, fresh);
            }
            i += 1;
        }
    }

    /// A buffer of `count` slots, each holding a clone of `value`.
    pub fn filled_clone(value: T, count: usize) -> (c: Self)
        requires
            slots_fit::<T>(count as nat),
        ensures
            c.wf(),
            c.count() == count,
            c@.len() == count,
            forall|i: int| 0 <= i < c@.len() ==> cloned::<T>(value, #[trigger] c@[i]),
    {
        let mut c: Self = Self::allocate(count);
        c.memset_clone(value);
        c
    }

    /// A buffer whose first `len` slots hold clones of `init_value`. It has
    /// `len` slots, and one slot where `len` is 0, so that it always owns an
    /// allocation.
    pub fn new_init(len: usize, init_value: &T) -> (c: Self)
        requires
            layout_valid::<T>(if len == 0 {
                1nat
            } else {
                len as nat
            }),
        ensures
            c.wf(),
            c.count() == if len == 0 {
                1usize
            } else {
                len
            },
            c@.len() == len,
            forall|i: int| 0 <= i < c@.len() ==> cloned::<T>(*init_value, #[trigger] c@[i]),
    {
        if len == 0 {
            return Self::allocate(1);
        }
        let mut c: Self = Self::allocate(len);
        array_init(&mut c.data, len, init_value);
        c
    }

    /// A buffer with one slot for each element of `from`, holding clones of
    /// them in order.
    pub fn from_slice_clone(from: &[T]) -> (c: Self)
        requires
            slots_fit::<T>(from@.len()),
        ensures
            c.wf(),
            c.count() == from@.len(),
            c@.len() == from@.len(),
            forall|i: int| 0 <= i < c@.len() ==> cloned::<T>(from@[i], #[trigger] c@[i]),
    {
        let size: usize = from.len();
        let mut c: Self = Self::allocate(size);
        let mut i: usize = 0;
        while i < size
            invariant
                size == from@.len(),
                c.count == size,
                i <= size,
                c.data@.len() == i,
                forall|j: int| 0 <= j < i ==> cloned::<T>(from@[j], #[trigger] c.data@[j]),
            decreases size - i,
        {
            let fresh = from[i].clone();
            array_write(&mut c.data, i, fresh);
            i += 1;
        }
        c
    }
}

impl<T: Clone + Default> Chunks<T> {
    /// Same as [`Chunks::new_init`] with the default value of `T`: every
    /// populated slot holds a clone of one value that `T::default()` gave.
    pub fn new(len: usize) -> (c: Self)
        requires
            layout_valid::<T>(if len == 0 {
                1nat
            } else {
                len as nat
            }),
        ensures
            c.wf(),
            c.count() == if len == 0 {
                1usize
            } else {
                len
            },
            c@.len() == len,
            exists|d: T|
                call_ensures(T::default, (), d) && forall|i: int|
                    0 <= i < c@.len() ==> cloned::<T>(d, #[trigger] c@[i]),
    {
        let d = T::default();
        Self::new_init(len, &d)
    }
}

/// `<&[T; N]>::try_from(&[T])`: a slice seen as an array of `N` elements. The
/// conversion succeeds exactly when the slice has `N` elements, and the array
/// then holds the slice's elements.
#[verifier::external_body]
fn slice_as_array<T, const N: usize>(slice: &[T]) -> (r: Option<&[T; N]>)
    ensures
        r is Some <==> slice@.len() == N,
        r is Some ==> r.unwrap()@ == slice@,
{
    <&[T; N]>::try_from(slice).ok()
}

/// A well-formed buffer never has more populated slots than slots.
pub proof fn lemma_len_within_count<T>(c: Chunks<T>)
    requires
        c.wf(),
    ensures
        c@.len() <= c.count(),
{
}

/// Releasing a released buffer leaves it as it was: whatever state a release
/// starts from, the state it ends in is the one a second release ends in.
pub proof fn lemma_release_idempotent<T>(once: Chunks<T>, twice: Chunks<T>)
    requires
        is_released(once),
        is_released(twice),
    ensures
        twice@ == once@,
        twice.count() == once.count(),
{
}


impl<T> core::ops::Index<usize> for Chunks<T> {
    type Output = T;

    /// The value in slot `index`, which has to be populated.
    fn index(&self, index: usize) -> (r: &T)
        ensures
            *r == self@[index as int],
    {
        &self.data[index]
    }
}

impl<T> vstd::std_specs::core::IndexSpecImpl<usize> for Chunks<T> {
    open spec fn index_req(&self, index: &usize) -> bool {
        *index < self@.len()
    }
}

} // verus!
