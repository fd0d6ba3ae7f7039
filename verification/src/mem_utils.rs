//! Storage primitives: layout arithmetic for a homogeneous array and the
//! operations on a block of element slots that the buffer types are built on.
//!
//! A block is a `Vec<T>` holding the populated slots in order. Slots past its
//! length are reserved room without a value; nothing can read them.
//!
//! Room is asked for in two ways. [`array_alloc`] and [`array_reserve`] report
//! it as a value where the room cannot be had, and leave everything as it
//! was. [`array_realloc`] takes only sizes that can be laid out and asks as
//! any `Vec` does: a request that the allocator refuses ends the process.
//! Either way the request is for [`room_to_ask`] more elements.

use vstd::prelude::*;

verus! {

/// What the storage layer reports when it cannot do what was asked.
#[derive(Clone, Copy, Debug, PartialEq, Eq, Structural)]
pub enum MemError {
    /// The element type and count give an array of zero bytes, or one whose
    /// size in bytes cannot be represented.
    InvalidLayout,
    /// The allocator refused the request.
    OutOfMemory,
    /// An index outside the populated range.
    IndexOutOfBounds,
}

/// Size and alignment, in bytes, of an array of elements.
#[derive(Clone, Copy, Debug, PartialEq, Eq, Structural)]
pub struct ArrayLayout {
    pub size: usize,
    pub align: usize,
}

/// Bytes taken by `count` elements of type `T`.
pub open spec fn array_bytes<T>(count: nat) -> nat {
    count * vstd::layout::size_of::<T>()
}

/// An array of `count` elements of `T` can be laid out: it is not empty and
/// its size in bytes stays within `isize::MAX`.
pub open spec fn layout_valid<T>(count: nat) -> bool {
    0 < array_bytes::<T>(count) <= isize::MAX
}

/// A run of `count` slots of `T` can be had: none needs no allocation, and any
/// other number has to have a valid layout.
pub open spec fn slots_fit<T>(count: nat) -> bool {
    count == 0 || layout_valid::<T>(count)
}

/// Layout of an array of `count` elements of `T`: `count * size_of::<T>()`
/// bytes at the alignment of `T`. Fails with `InvalidLayout` exactly when the
/// array would be empty or too large.
pub fn array_layout<T>(count: usize) -> (r: Result<ArrayLayout, MemError>)
    ensures
        layout_valid::<T>(count as nat) ==> r == Ok::<ArrayLayout, MemError>(
            (ArrayLayout {
                size: array_bytes::<T>(count as nat) as usize,
                align: vstd::layout::align_of::<T>() as usize,
            }),
        ),
        !layout_valid::<T>(count as nat) ==> r == Err::<ArrayLayout, MemError>(
            MemError::InvalidLayout,
        ),
{
    let elem: usize = core::mem::size_of::<T>();
    let align: usize = core::mem::align_of::<T>();
    if count == 0 || elem == 0 {
        assert(array_bytes::<T>(count as nat) == 0) by (nonlinear_arith)
            requires
                count == 0 || vstd::layout::size_of::<T>() == 0,
        ;
        return Err(MemError::InvalidLayout);
    }
    let limit: usize = isize::MAX as usize;
    if count > limit / elem {
        assert(array_bytes::<T>(count as nat) > isize::MAX) by (nonlinear_arith)
            requires
                elem > 0,
                count > limit / elem,
                limit == isize::MAX,
                vstd::layout::size_of::<T>() == elem,
        ;
        return Err(MemError::InvalidLayout);
    }
    assert(0 < count * elem <= limit) by (nonlinear_arith)
        requires
            elem > 0,
            count > 0,
            count <= limit / elem,
    ;
    Ok(ArrayLayout { size: count * elem, align })
}


/// A fresh block with room for `count` elements, none of them populated.
/// Fails with `InvalidLayout` exactly when `count` elements cannot be laid
/// out, without asking the allocator; where they can, the allocator decides,
/// and its refusal is `OutOfMemory`.
pub fn array_alloc<T>(count: usize) -> (r: Result<Vec<T>, MemError>)
    ensures
        !layout_valid::<T>(count as nat) ==> (r matches Err(e) && e == MemError::InvalidLayout),
        layout_valid::<T>(count as nat) ==> r is Ok || (r matches Err(e) && e
            == MemError::OutOfMemory),
        r matches Ok(block) ==> block@ == Seq::<T>::empty(),
{
    let mut block: Vec<T> = Vec::new();
    match array_reserve(&mut block, count) {
        Ok(_) => Ok(block),
        Err(e) => Err(e),
    }
}

/// Where `count` elements can be laid out, so can any smaller number of them
/// but none, and `count` is within `isize::MAX`.
pub proof fn lemma_layout_valid_below<T>(count: nat, fewer: nat)
    requires
        layout_valid::<T>(count),
        0 < fewer <= count,
    ensures
        layout_valid::<T>(fewer),
        count <= isize::MAX,
{
    let size = vstd::layout::size_of::<T>();
    assert(size >= 1 && fewer * size <= count * size && fewer * size >= 1 && count <= count * size)
        by (nonlinear_arith)
        requires
            0 < count * size,
            0 < fewer <= count,
    ;
}

/// The number of elements to ask room for, so that a block with `populated`
/// values can hold `count` in all.
pub fn room_to_ask(populated: usize, count: usize) -> (additional: usize)
    requires
        populated <= count,
    ensures
        additional == count - populated,
{
    count - populated
}

/// Resizes a block of `count` slots to `new_count` slots. A block that gains
/// slots asks for the room for them, which takes a `new_count` that can be
/// laid out; one that loses slots releases the populated values in the slots
/// cut off. The values that still fit are kept in place and in order. With
/// `new_count == count` nothing happens.
pub fn array_realloc<T>(block: &mut Vec<T>, count: usize, new_count: usize)
    requires
        old(block)@.len() <= count,
        new_count <= count || layout_valid::<T>(new_count as nat),
    ensures
        new_count >= old(block)@.len() ==> final(block)@ == old(block)@,
        new_count < old(block)@.len() ==> final(block)@ == old(block)@.take(new_count as int),
{
    let len: usize = block.len();
    if new_count > count {
        block.reserve(room_to_ask(len, new_count));
    } else if new_count < len {
        block.truncate(new_count);
    }
}

/// Returns a block to the system, releasing the values it still holds.
pub fn array_dealloc<T>(block: &mut Vec<T>)
    ensures
        final(block)@ == Seq::<T>::empty(),
{
    *block = Vec::new();
}

/// Populates the next `size` slots of a block, each with a clone of
/// `init_value`.
pub fn array_init<T: Clone>(block: &mut Vec<T>, size: usize, init_value: &T)
    ensures
        final(block)@.len() == old(block)@.len() + size,
        final(block)@.take(old(block)@.len() as int) == old(block)@,
        forall|i: int|
            old(block)@.len() <= i < final(block)@.len() ==> cloned::<T>(
                *init_value,
                #[trigger] final(block)@[i],
            ),
{
    let ghost before = block@;
    let mut i: usize = 0;
    while i < size
        invariant
            i <= size,
            block@.len() == before.len() + i,
            block@.take(before.len() as int) == before,
            forall|j: int|
                before.len() <= j < block@.len() ==> cloned::<T>(
                    *init_value,
                    #[trigger] block@[j],
                ),
        decreases size - i,
    {
        let value = init_value.clone();
        block.push(value);
        i += 1;
    }
}

/// Releases every populated value of a block; its room stays.
pub fn array_deinit<T>(block: &mut Vec<T>)
    ensures
        final(block)@ == Seq::<T>::empty(),
{
    block.clear();
}

/// Writes `value` into the first slot that holds no value. Nothing is released:
/// there is nothing live in that slot.
pub fn array_write<T>(block: &mut Vec<T>, index: usize, value: T)
    requires
        index == old(block)@.len(),
    ensures
        final(block)@ == old(block)@.push(value),
{
    block.push(value);
}

/// Overwrites the populated slot `index`: the value it held is released and
/// `value` takes its place.
pub fn array_write_drop<T>(block: &mut Vec<T>, index: usize, value: T)
    requires
        index < old(block)@.len(),
    ensures
        final(block)@ == old(block)@.update(index as int, value),
{
    block[index] = value;
}


/// Moves the value out of the last populated slot `index`, which holds no
/// value afterwards. The value is handed to the caller, not released.
pub fn array_take<T>(block: &mut Vec<T>, index: usize) -> (value: T)
    requires
        index + 1 == old(block)@.len(),
    ensures
        value == old(block)@[index as int],
        final(block)@ == old(block)@.take(index as int),
{
    let value = block.remove(index);
    assert(block@ =~= old(block)@.take(index as int));
    value
}

/// Moves the populated values from slot `index` on one slot to the right and
/// writes `value` into the slot that this vacates. Every value is moved or
/// kept; none is released.
pub fn array_shift_write<T>(block: &mut Vec<T>, index: usize, value: T)
    requires
        index <= old(block)@.len(),
    ensures
        final(block)@ == old(block)@.insert(index as int, value),
{
    block.insert(index, value);
}


/// What the allocator's answer to a request for room means to the caller: a
/// refusal is reported as `OutOfMemory`.
pub fn reserve_outcome(answer: Result<(), std::collections::TryReserveError>) -> (r: Result<
    (),
    MemError,
>)
    ensures
        answer is Ok ==> r == Ok::<(), MemError>(()),
        answer is Err ==> r == Err::<(), MemError>(MemError::OutOfMemory),
{
    match answer {
        Ok(_) => Ok(()),
        Err(_) => Err(MemError::OutOfMemory),
    }
}

/// Asks for room for `count` values in all, without giving up on a refusal:
/// the block keeps its values either way. The request is not made where
/// `count` values cannot be laid out; where they can, the allocator decides.
pub fn array_reserve<T>(block: &mut Vec<T>, count: usize) -> (r: Result<(), MemError>)
    requires
        old(block)@.len() <= count,
    ensures
        final(block)@ == old(block)@,
        !layout_valid::<T>(count as nat) ==> r == Err::<(), MemError>(MemError::InvalidLayout),
        layout_valid::<T>(count as nat) ==> r == Ok::<(), MemError>(()) || r == Err::<
            (),
            MemError,
        >(MemError::OutOfMemory),
{
    match array_layout::<T>(count) {
        Err(e) => Err(e),
        Ok(_) => {
            let additional: usize = room_to_ask(block.len(), count);
            reserve_outcome(block.try_reserve(additional))
        },
    }
}

} // verus!
