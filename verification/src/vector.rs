//! A growable array: a buffer of slots plus the rule by which it gains room.

use crate::chunks::Chunks;
use crate::mem_utils::{layout_valid, lemma_layout_valid_below, slots_fit, MemError};
use vstd::prelude::*;
use vstd::std_specs::convert::FromSpec;

verus! {

/// A sequence of values held in the populated slots of a [`Chunks`].
///
/// Its length is the number of populated slots, its capacity the number of
/// slots. Room is gained before a write that needs it, never after.
#[derive(Debug)]
pub struct Vector<T> {
    data: Chunks<T>,
}

impl<T> View for Vector<T> {
    type V = Seq<T>;

    /// The values held, in order.
    closed spec fn view(&self) -> Seq<T> {
        self.data@
    }
}

/// The capacity that a full container of capacity `capacity` grows to: 4 from
/// 0, 1 or 2, and twice the capacity from there on.
pub open spec fn grown_capacity(capacity: nat) -> nat {
    if capacity < 3 {
        4
    } else {
        2 * capacity
    }
}

/// The capacity after one more value enters a container that holds `len`
/// values in `capacity` slots: it grows only when every slot is taken.
pub open spec fn capacity_after_write(len: nat, capacity: nat) -> nat {
    if len == capacity {
        grown_capacity(capacity)
    } else {
        capacity
    }
}

impl<T> Vector<T> {
    /// Number of slots allocated.
    pub closed spec fn spec_capacity(&self) -> usize {
        self.data.count()
    }

    /// The buffer underneath is well-formed, so that the length never exceeds
    /// the capacity.
    pub closed spec fn wf(&self) -> bool {
        self.data.wf()
    }

    /// An empty container with room for one value.
    pub fn new() -> (v: Self)
        requires
            layout_valid::<T>(1),
        ensures
            v.wf(),
            v@ == Seq::<T>::empty(),
            v.capacity() == 1,
    {
        let data: Chunks<T> = Chunks::allocate(1);
        proof {
            crate::chunks::lemma_len_within_count(data);
        }
        Vector { data }
    }

    /// Takes over a block of populated values as a container of the given
    /// capacity. Nothing is copied.
    pub fn from_raw_parts(block: Vec<T>, capacity: usize) -> (v: Self)
        requires
            block@.len() <= capacity,
        ensures
            taken_over(block, capacity, v),
    {
        Vector { data: Chunks::adopt(block, capacity) }
    }

    /// Gives up the block of values and the capacity; the container is used
    /// up. Nothing is copied. [`Vector::from_raw_parts`] makes a container of
    /// the two again.
    pub fn into_raw_parts(self) -> (parts: (Vec<T>, usize))
        ensures
            handed_over(self, parts.0),
            parts.1 == self.capacity(),
    {
        let capacity: usize = self.data.count();
        (self.data.into_block(), capacity)
    }

    /// Hands the values over as a native vector; the container is used up.
    /// Nothing is copied. The room that the native vector then reports is the
    /// allocator's, not the capacity that the container had.
    pub fn into_vec(self) -> (block: Vec<T>)
        ensures
            handed_over(self, block),
    {
        self.data.into_block()
    }

    /// Number of slots allocated.
    #[verifier::when_used_as_spec(spec_capacity)]
    pub fn capacity(&self) -> (r: usize)
        ensures
            r == self.spec_capacity(),
    {
        self.data.count()
    }

    /// Number of values held.
    pub fn len(&self) -> (r: usize)
        ensures
            r == self@.len(),
            self.wf() ==> r <= self.capacity(),
    {
        self.data.len()
    }

    /// Whether `index` names a value held.
    pub fn bounds(&self, index: usize) -> (r: bool)
        ensures
            r == (index < self@.len()),
    {
        self.data.bounds(index)
    }

    /// The values held, as a borrowed window. Room that holds no value is
    /// never part of it.
    pub fn as_slice(&self) -> (r: &[T])
        ensures
            r@ == self@,
    {
        self.data.as_slice()
    }

    /// The values held, as a window that can be written through. It can
    /// replace values but neither add nor remove one.
    pub fn as_mut_slice(&mut self) -> (r: &mut [T])
        ensures
            r@ == old(self)@,
            final(self)@ == final(r)@,
            final(self).capacity() == old(self).capacity(),
            old(self).wf() && final(r)@.len() == old(self)@.len() ==> final(self).wf(),
    {
        self.data.as_mut_slice()
    }

    /// Bytes taken by the values held: the length times the size of `T`.
    pub fn len_bytes(&self) -> (r: usize)
        requires
            self@.len() * vstd::layout::size_of::<T>() <= usize::MAX,
        ensures
            r == self@.len() * vstd::layout::size_of::<T>(),
    {
        self.data.len() * core::mem::size_of::<T>()
    }

    /// The capacity that the container grows to when it is full.
    pub fn grow_strategy(&self) -> (r: usize)
        requires
            grown_capacity(self.capacity() as nat) <= usize::MAX,
        ensures
            r == grown_capacity(self.capacity() as nat),
    {
        let capacity: usize = self.capacity();
        if capacity < 3 {
            4
        } else {
            capacity * 2
        }
    }

    /// Appends `elem`. A full container first grows to
    /// `grown_capacity(capacity)`, which has to be a capacity that can be laid
    /// out; the value is then written behind the last one, into a slot that
    /// held nothing. Always returns `true`.
    pub fn push(&mut self, elem: T) -> (r: bool)
        requires
            old(self).wf(),
            old(self)@.len() == old(self).capacity() ==> layout_valid::<T>(
                grown_capacity(old(self).capacity() as nat),
            ),
        ensures
            r,
            final(self).wf(),
            final(self)@ == old(self)@.push(elem),
            final(self).capacity() == capacity_after_write(
                old(self)@.len(),
                old(self).capacity() as nat,
            ),
            final(self)@.len() <= final(self).capacity(),
    {
        if self.data.len() == self.data.count() {
            proof {
                let grown = grown_capacity(self.capacity() as nat);
                lemma_layout_valid_below::<T>(grown, grown);
            }
            let target: usize = self.grow_strategy();
            self.data.realloc(target);
        }
        let at: usize = self.data.len();
        self.data.write_ptr(at, elem);
        true
    }

    /// Inserts `elem` before the value at `index`, which has to be one of the
    /// values held: with `index >= len` nothing is done and `false` returned,
    /// so a value cannot be appended this way. Otherwise a full container
    /// first grows as for `push`, the values from `index` on move one place up,
    /// and `elem` takes the place that this vacates.
    pub fn insert(&mut self, index: usize, elem: T) -> (r: bool)
        requires
            old(self).wf(),
            index < old(self)@.len() && old(self)@.len() == old(self).capacity()
                ==> layout_valid::<T>(grown_capacity(old(self).capacity() as nat)),
        ensures
            final(self).wf(),
            final(self)@.len() <= final(self).capacity(),
            r == (index < old(self)@.len()),
            r ==> final(self)@ == old(self)@.insert(index as int, elem),
            r ==> final(self).capacity() == capacity_after_write(
                old(self)@.len(),
                old(self).capacity() as nat,
            ),
            !r ==> final(self)@ == old(self)@,
            !r ==> final(self).capacity() == old(self).capacity(),
    {
        if self.data.len() <= index {
            return false;
        }
        if self.data.len() == self.data.count() {
            proof {
                let grown = grown_capacity(self.capacity() as nat);
                lemma_layout_valid_below::<T>(grown, grown);
            }
            let target: usize = self.grow_strategy();
            self.data.realloc(target);
        }
        self.data.shift_write(index, elem);
        true
    }

    /// Makes sure that one more value can be written: a full container grows
    /// to `grown_capacity(capacity)`, any other is left alone. Where the room
    /// cannot be had the container stays exactly as it was: `InvalidLayout`
    /// where the grown capacity cannot be laid out, `OutOfMemory` where the
    /// allocator refuses.
    pub fn try_grow(&mut self) -> (r: Result<(), MemError>)
        requires
            old(self).wf(),
        ensures
            final(self).wf(),
            final(self)@ == old(self)@,
            old(self)@.len() < old(self).capacity() ==> r is Ok,
            old(self)@.len() == old(self).capacity() && !layout_valid::<T>(
                grown_capacity(old(self).capacity() as nat),
            ) ==> r == Err::<(), MemError>(MemError::InvalidLayout),
            old(self)@.len() == old(self).capacity() && layout_valid::<T>(
                grown_capacity(old(self).capacity() as nat),
            ) ==> r is Ok || r == Err::<(), MemError>(MemError::OutOfMemory),
            r is Err ==> final(self).capacity() == old(self).capacity(),
            r is Ok ==> final(self).capacity() == capacity_after_write(
                old(self)@.len(),
                old(self).capacity() as nat,
            ),
            r is Ok ==> final(self)@.len() < final(self).capacity(),
    {
        if self.data.len() < self.data.count() {
            return Ok(());
        }
        let capacity: usize = self.data.count();
        if capacity > usize::MAX / 2 {
            assert(!layout_valid::<T>(grown_capacity(capacity as nat))) by (nonlinear_arith)
                requires
                    capacity > usize::MAX / 2,
                    grown_capacity(capacity as nat) == 2 * capacity,
                    layout_valid::<T>(grown_capacity(capacity as nat)) ==> 0 < 2 * capacity
                        * vstd::layout::size_of::<T>() <= isize::MAX,
            ;
            return Err(MemError::InvalidLayout);
        }
        let target: usize = self.grow_strategy();
        self.data.try_realloc(target)
    }

    /// Appends `elem` like [`Vector::push`], but reports it where the room for
    /// a full container to grow cannot be had, and then leaves the container
    /// exactly as it was.
    pub fn try_push(&mut self, elem: T) -> (r: Result<bool, MemError>)
        requires
            old(self).wf(),
        ensures
            final(self).wf(),
            final(self)@.len() <= final(self).capacity(),
            old(self)@.len() < old(self).capacity() ==> r is Ok,
            old(self)@.len() == old(self).capacity() && !layout_valid::<T>(
                grown_capacity(old(self).capacity() as nat),
            ) ==> r == Err::<bool, MemError>(MemError::InvalidLayout),
            old(self)@.len() == old(self).capacity() && layout_valid::<T>(
                grown_capacity(old(self).capacity() as nat),
            ) ==> r is Ok || r == Err::<bool, MemError>(MemError::OutOfMemory),
            r is Err ==> final(self)@ == old(self)@ && final(self).capacity() == old(self).capacity(),
            r is Ok ==> r == Ok::<bool, MemError>(true) && final(self)@ == old(self)@.push(elem)
                && final(self).capacity() == capacity_after_write(
                old(self)@.len(),
                old(self).capacity() as nat,
            ),
    {
        match self.try_grow() {
            Ok(_) => Ok(self.push(elem)),
            Err(e) => {
                proof {
                    lemma_length_within_capacity(*self);
                }
                Err(e)
            },
        }
    }

    /// Inserts `elem` like [`Vector::insert`], but reports it where the room
    /// for a full container to grow cannot be had, and then leaves the
    /// container exactly as it was. An `index` that is not below the length
    /// is rejected with `Ok(false)` before any room is asked for.
    pub fn try_insert(&mut self, index: usize, elem: T) -> (r: Result<bool, MemError>)
        requires
            old(self).wf(),
        ensures
            final(self).wf(),
            final(self)@.len() <= final(self).capacity(),
            index >= old(self)@.len() ==> r == Ok::<bool, MemError>(false),
            index < old(self)@.len() ==> r != Ok::<bool, MemError>(false),
            index < old(self)@.len() && old(self)@.len() < old(self).capacity() ==> r is Ok,
            index < old(self)@.len() && old(self)@.len() == old(self).capacity() && !layout_valid::<T>(
                grown_capacity(old(self).capacity() as nat),
            ) ==> r == Err::<bool, MemError>(MemError::InvalidLayout),
            index < old(self)@.len() && old(self)@.len() == old(self).capacity() && layout_valid::<T>(
                grown_capacity(old(self).capacity() as nat),
            ) ==> r is Ok || r == Err::<bool, MemError>(MemError::OutOfMemory),
            r != Ok::<bool, MemError>(true) ==> final(self)@ == old(self)@ && final(self).capacity() == old(self).capacity(),
            r == Ok::<bool, MemError>(true) ==> final(self)@ == old(self)@.insert(
                index as int,
                elem,
            ) && final(self).capacity() == capacity_after_write(
                old(self)@.len(),
                old(self).capacity() as nat,
            ),
    {
        if self.data.len() <= index {
            return Ok(false);
        }
        match self.try_grow() {
            Ok(_) => Ok(self.insert(index, elem)),
            Err(e) => {
                proof {
                    lemma_length_within_capacity(*self);
                }
                Err(e)
            },
        }
    }

    /// A container built by appending the items, in order and one at a time,
    /// to an empty one with a single slot. It therefore has the capacity that
    /// the growth rule leads to over that many appends.
    pub fn from_items(items: Vec<T>) -> (v: Self)
        requires
            layout_valid::<T>(crate::growth::capacity_after_pushes_from(1, items@.len())),
        ensures
            v.wf(),
            v@ == items@,
            v.capacity() == crate::growth::capacity_after_pushes_from(1, items@.len()),
    {
        proof {
            crate::growth::lemma_capacity_never_shrinks(1, 0, items@.len());
            lemma_layout_valid_below::<T>(
                crate::growth::capacity_after_pushes_from(1, items@.len()),
                1,
            );
        }
        let mut v: Self = Self::new();
        for item in it: items
            invariant
                it.seq() == items@,
                layout_valid::<T>(crate::growth::capacity_after_pushes_from(1, items@.len())),
                v.wf(),
                v@ == items@.take(it.index() as int),
                v.capacity() == crate::growth::capacity_after_pushes_from(1, it.index() as nat),
        {
            proof {
                let next = (it.index() + 1) as nat;
                crate::growth::lemma_capacity_never_shrinks(1, next, items@.len());
                crate::growth::lemma_capacity_never_shrinks(1, 0, next);
                lemma_layout_valid_below::<T>(
                    crate::growth::capacity_after_pushes_from(1, items@.len()),
                    crate::growth::capacity_after_pushes_from(1, next),
                );
            }
            v.push(item);
            assert(v@ =~= items@.take(it.index() + 1));
        }
        assert(items@.take(items@.len() as int) =~= items@);
        v
    }

    /// Removes the last value and returns it, or returns `None` where the
    /// container is empty. The capacity stays.
    pub fn pop(&mut self) -> (r: Option<T>)
        requires
            old(self).wf(),
        ensures
            final(self).wf(),
            final(self)@.len() <= final(self).capacity(),
            final(self).capacity() == old(self).capacity(),
            old(self)@.len() == 0 ==> r == None::<T> && final(self)@ == old(self)@,
            old(self)@.len() > 0 ==> r == Some(old(self)@.last()) && final(self)@ == old(self)@.drop_last(),
    {
        if self.data.len() > 0 {
            Some(self.data.take_last())
        } else {
            None
        }
    }

    /// The value at `index`, or `IndexOutOfBounds` where `index` is not below
    /// the length.
    pub fn get(&self, index: usize) -> (r: Result<&T, MemError>)
        ensures
            index < self@.len() ==> r == Ok::<&T, MemError>(&self@[index as int]),
            index >= self@.len() ==> r == Err::<&T, MemError>(MemError::IndexOutOfBounds),
    {
        self.data.get(index)
    }

    /// The value at `index`, to be written through, or `IndexOutOfBounds`
    /// where `index` is not below the length.
    pub fn get_mut(&mut self, index: usize) -> (r: Result<&mut T, MemError>)
        ensures
            index < old(self)@.len() ==> r is Ok,
            index >= old(self)@.len() ==> r is Err && final(self)@ == old(self)@,
            final(self).capacity() == old(self).capacity(),
            r matches Ok(slot) ==> *slot == old(self)@[index as int],
            r matches Ok(slot) ==> final(self)@ == old(self)@.update(index as int, *final(slot)),
            r matches Err(e) ==> e == MemError::IndexOutOfBounds,
            old(self).wf() ==> final(self).wf(),
    {
        self.data.get_mut(index)
    }

    /// Replaces the value at `index`, which has to be below the length; the
    /// value it held is released.
    pub fn set(&mut self, index: usize, value: T)
        requires
            old(self).wf(),
            index < old(self)@.len(),
        ensures
            final(self).wf(),
            final(self).capacity() == old(self).capacity(),
            final(self)@ == old(self)@.update(index as int, value),
    {
        self.data.set(index, value);
    }
}


/// A well-formed container never holds more values than it has slots.
pub proof fn lemma_length_within_capacity<T>(v: Vector<T>)
    requires
        v.wf(),
    ensures
        v@.len() <= v.capacity(),
{
    crate::chunks::lemma_len_within_count(v.data);
}

/// `block` is what `v` hands over when it gives up its values: the same
/// values in the same order.
pub open spec fn handed_over<T>(v: Vector<T>, block: Vec<T>) -> bool {
    block@ == v@
}

/// `v` is a container that took over `block` with room for `capacity` values.
pub open spec fn taken_over<T>(block: Vec<T>, capacity: usize, v: Vector<T>) -> bool {
    &&& v.wf()
    &&& v@ == block@
    &&& v.capacity() == capacity
}

/// A container that gives up its block and capacity, and a container that
/// takes the two over: the second has the length, the capacity and the values
/// of the first.
pub proof fn lemma_raw_parts_round_trip<T>(before: Vector<T>, block: Vec<T>, after: Vector<T>)
    requires
        handed_over(before, block),
        taken_over(block, before.capacity(), after),
    ensures
        after@ == before@,
        after@.len() == before@.len(),
        after.capacity() == before.capacity(),
{
}

/// A container handed over as a native vector and taken back holds the same
/// values, in the same number and order, and is well-formed again. Its
/// capacity is then the one that the native vector reports, whatever it was
/// before.
pub proof fn lemma_native_round_trip<T>(before: Vector<T>, native: Vec<T>, after: Vector<T>)
    requires
        handed_over(before, native),
        after.wf(),
        after@ == native@,
    ensures
        after@ == before@,
        after@.len() == before@.len(),
        after@.len() <= after.capacity(),
{
    lemma_length_within_capacity(after);
}

/// Types that can be made to hold the numbers 1, 2, ..., `len`.
pub trait ConsecConstrucor: Sized {
    /// Whether room for `len` values can be had.
    spec fn consec_fits(len: usize) -> bool;

    fn consec(len: usize) -> Self
        requires
            Self::consec_fits(len),
    ;
}

impl<T: From<usize>> ConsecConstrucor for Vector<T> {
    open spec fn consec_fits(len: usize) -> bool {
        slots_fit::<T>(len as nat)
    }

    /// A container of `len` values made from the numbers 1, 2, ..., `len` in
    /// this order, with room for exactly that many.
    fn consec(len: usize) -> (v: Self)
        ensures
            v.wf(),
            v@.len() == len,
            v.capacity() == len,
            forall|i: int|
                0 <= i < len ==> call_ensures(T::from, ((i + 1) as usize,), #[trigger] v@[i]),
            T::obeys_from_spec() ==> forall|i: int|
                0 <= i < len ==> #[trigger] v@[i] == T::from_spec((i + 1) as usize),
    {
        let mut data: Chunks<T> = Chunks::allocate(len);
        let mut i: usize = 0;
        while i < len
            invariant
                i <= len,
                data.wf(),
                data.count() == len,
                data@.len() == i,
                forall|j: int|
                    0 <= j < i ==> call_ensures(T::from, ((j + 1) as usize,), #[trigger] data@[j]),
                T::obeys_from_spec() ==> forall|j: int|
                    0 <= j < i ==> #[trigger] data@[j] == T::from_spec((j + 1) as usize),
            decreases len - i,
        {
            data.write_ptr(i, T::from(i + 1));
            i += 1;
        }
        Vector { data }
    }
}

/// `Vec::capacity`: the number of elements that the vector has room for. It is
/// the allocator's to decide and is never below the vector's length.
#[verifier::external_body]
fn vec_capacity<T>(v: &Vec<T>) -> (r: usize)
    ensures
        r >= v@.len(),
{
    v.capacity()
}

impl<T> From<Vec<T>> for Vector<T> {
    /// Takes over a native vector's values and the capacity that it reports.
    /// Nothing is copied.
    fn from(from: Vec<T>) -> (v: Self)
        ensures
            v.wf(),
            v@ == from@,
            v.capacity() >= from@.len(),
    {
        let capacity: usize = vec_capacity(&from);
        Vector::from_raw_parts(from, capacity)
    }
}

impl<T> vstd::std_specs::convert::FromSpecImpl<Vec<T>> for Vector<T> {
    open spec fn obeys_from_spec() -> bool {
        false
    }

    open spec fn from_spec(v: Vec<T>) -> Self {
        choose|r: Self| r@ == v@
    }
}

impl<T> From<Vector<T>> for Vec<T> {
    /// Hands the values over as a native vector. Nothing is copied.
    fn from(from: Vector<T>) -> (v: Self)
        ensures
            handed_over(from, v),
    {
        from.into_vec()
    }
}

impl<T> vstd::std_specs::convert::FromSpecImpl<Vector<T>> for Vec<T> {
    open spec fn obeys_from_spec() -> bool {
        false
    }

    open spec fn from_spec(v: Vector<T>) -> Self {
        choose|r: Self| r@ == v@
    }
}

impl<T> core::ops::Index<usize> for Vector<T> {
    type Output = T;

    /// The value at `index`, which has to be below the length.
    fn index(&self, index: usize) -> (r: &T)
        ensures
            *r == self@[index as int],
    {
        &self.data[index]
    }
}

impl<T> vstd::std_specs::core::IndexSpecImpl<usize> for Vector<T> {
    open spec fn index_req(&self, index: &usize) -> bool {
        *index < self@.len()
    }
}

impl<T: Copy> Vector<T> {
    /// A container of `len` copies of `value`, with room for `len` values and
    /// for one where `len` is 0.
    pub fn new_copy(value: T, len: usize) -> (v: Self)
        requires
            layout_valid::<T>(if len == 0 {
                1nat
            } else {
                len as nat
            }),
        ensures
            v.wf(),
            v@ == Seq::new(len as nat, |i: int| value),
            v.capacity() == if len == 0 {
                1usize
            } else {
                len
            },
    {
        if len == 0 {
            let v: Self = Self::new();
            assert(v@ =~= Seq::new(0, |i: int| value));
            v
        } else {
            Vector { data: Chunks::filled_copy(value, len) }
        }
    }

    /// A container holding copies of the elements of `from`, in order, with
    /// room for exactly that many.
    pub fn from_slice_copy(from: &[T]) -> (v: Self)
        requires
            slots_fit::<T>(from@.len()),
        ensures
            v.wf(),
            v@ == from@,
            v.capacity() == from@.len(),
    {
        Vector { data: Chunks::from_slice_copy(from) }
    }
}

impl<T: Clone> Vector<T> {
    /// A container of `len` clones of `value`, with room for `len` values and
    /// for one where `len` is 0.
    pub fn new_clone(value: T, len: usize) -> (v: Self)
        requires
            layout_valid::<T>(if len == 0 {
                1nat
            } else {
                len as nat
            }),
        ensures
            v.wf(),
            v@.len() == len,
            forall|i: int| 0 <= i < v@.len() ==> cloned::<T>(value, #[trigger] v@[i]),
            v.capacity() == if len == 0 {
                1usize
            } else {
                len
            },
    {
        Self::new_init(len, &value)
    }

    /// Same as [`Vector::new_clone`], with the value borrowed.
    pub fn new_init(len: usize, init_value: &T) -> (v: Self)
        requires
            layout_valid::<T>(if len == 0 {
                1nat
            } else {
                len as nat
            }),
        ensures
            v.wf(),
            v@.len() == len,
            forall|i: int| 0 <= i < v@.len() ==> cloned::<T>(*init_value, #[trigger] v@[i]),
            v.capacity() == if len == 0 {
                1usize
            } else {
                len
            },
    {
        Vector { data: Chunks::new_init(len, init_value) }
    }

    /// A container holding clones of the elements of `from`, in order, with
    /// room for exactly that many.
    pub fn from_slice_clone(from: &[T]) -> (v: Self)
        requires
            slots_fit::<T>(from@.len()),
        ensures
            v.wf(),
            v@.len() == from@.len(),
            forall|i: int| 0 <= i < v@.len() ==> cloned::<T>(from@[i], #[trigger] v@[i]),
            v.capacity() == from@.len(),
    {
        Vector { data: Chunks::from_slice_clone(from) }
    }
}


impl<T> core::ops::Deref for Vector<T> {
    type Target = [T];

    /// The values held, as a borrowed window.
    fn deref(&self) -> (r: &[T])
        ensures
            r@ == self@,
    {
        self.as_slice()
    }
}


impl<T> core::ops::DerefMut for Vector<T> {
    /// The values held, as a window that can be written through.
    fn deref_mut(&mut self) -> (r: &mut [T])
        ensures
            r@ == old(self)@,
            final(self)@ == final(r)@,
            final(self).capacity() == old(self).capacity(),
            old(self).wf() && final(r)@.len() == old(self)@.len() ==> final(self).wf(),
    {
        self.as_mut_slice()
    }
}

} // verus!
