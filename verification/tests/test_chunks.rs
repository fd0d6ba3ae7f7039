use tesap_std::{Chunks, MemError};

#[test]
fn test_chunks_test_alloc_dealloc() {
    let mut chunks = Chunks::<u32>::allocate(10);
    assert!(chunks.allocated());
    chunks.dealloc();
    assert!(!chunks.allocated());
    assert_eq!(chunks.count(), 0);
}

#[test]
fn test_chunks_test_from_slice() {
    Chunks::<u8>::from_slice_copy(&[1, 2, 3, 4, 5]);
    Chunks::<u8>::from_slice(&[1, 2, 3, 4, 5]);
}

#[test]
fn test_chunks_test_memset() {
    let mut chunks = Chunks::<u32>::allocate(5);
    chunks.memset_copy(42);
    for i in 0..5 {
        assert_eq!(chunks[i], 42);
    }
}

#[test]
fn test_chunks_test_index() {
    let mut chunks = Chunks::<u32>::allocate(3);
    chunks.memset_copy(10);
    assert_eq!(chunks[0], 10);
    assert_eq!(chunks[1], 10);
    assert_eq!(chunks[2], 10);
}

#[test]
fn test_chunks_test_index_out_of_bounds() {
    let mut chunks = Chunks::<u32>::allocate(3);
    chunks.memset_copy(10);
    assert_eq!(chunks[0], 10);
    assert_eq!(chunks[1], 10);
    assert_eq!(chunks[2], 10);
    assert_eq!(chunks.get(3), Err(MemError::IndexOutOfBounds));
}

#[test]
fn test_chunks_test_index_mut() {
    let mut chunks = Chunks::<u32>::allocate(3);
    chunks.memset_copy(5);
    chunks.set(1, 99);
    assert_eq!(chunks[1], 99);
}

#[test]
fn test_chunks_test_chunks_to_vec() {
    let mut v: Vec<u8> = Vec::new();

    v.push(20);
    v.push(20);
    v.push(23);
    v.push(23);
    v.push(28);
    v.push(20);
    v[0] = 10;
    v.push(22);
    v.shrink_to_fit();
    v.push(21);

    let mut c: Chunks<u8> = Chunks::adopt(v.clone(), v.len());

    assert_eq!(v.as_slice(), c.as_slice());
    assert_eq!(v.as_mut_slice(), c.as_mut_slice());
    assert_eq!(c.into_block(), v);
}

#[test]
fn test_chunks_test_grow() {
    let mut chunks = Chunks::<u8>::allocate(10);
    chunks.grow(1);
    assert_eq!(chunks.count(), 10 + 1);
    chunks.grow(1);
    assert_eq!(chunks.count(), 10 + 2);
    chunks.grow(1);
    assert_eq!(chunks.count(), 10 + 3);
}

#[test]
fn test_chunks_test_as_slice() {
    let mut chunks = Chunks::<u8>::filled_copy(1, 3);
    assert_eq!(chunks.as_slice(), &[1, 1, 1]);
    assert_eq!(chunks.as_mut_slice(), &[1, 1, 1]);

    chunks.set(1, 10);
    assert_eq!(chunks.as_mut_slice(), &[1, 10, 1]);
    assert_eq!(chunks.as_slice(), &[1, 10, 1]);
}

#[test]
fn test_chunks_test_as_array() {
    let mut chunks = Chunks::<u32>::allocate(3);
    chunks.memset_copy(7);
    let array: &[u32; 3] = chunks.as_array::<3>().unwrap();
    assert_eq!(array, &[7, 7, 7]);
}

#[test]
fn test_debug() {
    let c = Chunks::<u8>::filled_copy(1, 3);
    println!("Debug: {:?}", c);

    assert_eq!(c.as_slice(), &[1, 1, 1]);

    let c: Chunks<String> = Chunks::filled_clone("123".to_string(), 5);
    println!("Debug: {:?}", c);

    assert_eq!(c.as_slice(), &["123", "123", "123", "123", "123"]);
}

#[test]
fn test_str() {
    let c: Chunks<&str> = Chunks::from_slice_copy(&["x", "y", "z"]);
    assert_eq!(c.as_slice(), &["x", "y", "z"]);
}

#[test]
fn test_chunks_test_std_string() {
    let mut c: Chunks<String> =
        Chunks::from_slice_clone(&["x".to_string(), "y".to_string(), "z".to_string()]);
    assert_eq!(c.as_slice(), &["x", "y", "z"]);
    assert_eq!(c.as_mut_slice(), &["x", "y", "z"]);
}

#[test]
fn chunks_allocate_holds_nothing() {
    let c = Chunks::<u64>::allocate(4);
    assert_eq!(c.count(), 4);
    assert_eq!(c.len(), 0);
    assert!(c.as_slice().is_empty());
    assert_eq!(c.indices(), 0..4);
    assert_eq!(c.populated_indices(), 0..0);
    assert!(!c.bounds(0));
    assert_eq!(c.get(0), Err(MemError::IndexOutOfBounds));
}

#[test]
fn chunks_allocate_zero_is_unallocated() {
    let c = Chunks::<u64>::allocate(0);
    assert!(!c.allocated());
    assert_eq!(c.count(), 0);
    let e = Chunks::<u8>::from_slice_copy(&[]);
    assert!(!e.allocated());
    assert_eq!(e.len(), 0);
}

#[test]
fn chunks_release_twice_is_a_no_op() {
    let mut c = Chunks::<String>::filled_clone("a".to_string(), 3);
    c.dealloc();
    assert_eq!(c.count(), 0);
    assert_eq!(c.len(), 0);
    c.dealloc();
    assert_eq!(c.count(), 0);
    assert_eq!(c.len(), 0);
    assert!(c.as_slice().is_empty());
}

#[test]
fn chunks_grow_on_unallocated_does_nothing() {
    let mut c = Chunks::<u8>::allocate(0);
    c.grow(5);
    assert_eq!(c.count(), 0);
    assert!(!c.allocated());
    c.realloc(5);
    assert_eq!(c.count(), 5);
    assert!(c.allocated());
}

#[test]
fn chunks_realloc_keeps_what_fits() {
    let mut c = Chunks::<u8>::from_slice_copy(&[1, 2, 3, 4]);
    c.realloc(8);
    assert_eq!(c.count(), 8);
    assert_eq!(c.as_slice(), &[1, 2, 3, 4]);
    c.realloc(8);
    assert_eq!(c.count(), 8);
    assert_eq!(c.as_slice(), &[1, 2, 3, 4]);
    c.realloc(2);
    assert_eq!(c.count(), 2);
    assert_eq!(c.as_slice(), &[1, 2]);
    c.realloc(0);
    assert_eq!(c.count(), 0);
    assert!(c.as_slice().is_empty());
}

#[test]
fn chunks_two_ways_to_write() {
    let mut c = Chunks::<String>::allocate(3);
    c.write_ptr(0, "a".to_string());
    c.write_ptr(1, "b".to_string());
    assert_eq!(c.as_slice(), &["a", "b"]);
    c.set(0, "z".to_string());
    assert_eq!(c.as_slice(), &["z", "b"]);
    assert_eq!(c.write(1, "y".to_string()), Ok(()));
    assert_eq!(c.write(2, "c".to_string()), Ok(()));
    assert_eq!(c.as_slice(), &["z", "y", "c"]);
    assert_eq!(c.write(3, "d".to_string()), Err(MemError::IndexOutOfBounds));
    assert_eq!(c.as_slice(), &["z", "y", "c"]);
    assert_eq!(c.len(), 3);
    assert_eq!(c.count(), 3);
}

#[test]
fn chunks_write_past_first_free_slot_is_refused() {
    let mut c = Chunks::<u8>::allocate(4);
    assert_eq!(c.write(1, 9), Err(MemError::IndexOutOfBounds));
    assert_eq!(c.len(), 0);
    assert_eq!(c.write(0, 9), Ok(()));
    assert_eq!(c.as_slice(), &[9]);
}

#[test]
fn chunks_take_last_and_shift_write() {
    let mut c = Chunks::<u8>::allocate(5);
    c.write_ptr(0, 1);
    c.write_ptr(1, 2);
    c.write_ptr(2, 3);
    c.shift_write(1, 7);
    assert_eq!(c.as_slice(), &[1, 7, 2, 3]);
    c.shift_write(4, 8);
    assert_eq!(c.as_slice(), &[1, 7, 2, 3, 8]);
    assert_eq!(c.take_last(), 8);
    assert_eq!(c.as_slice(), &[1, 7, 2, 3]);
    assert_eq!(c.count(), 5);
}

#[test]
fn chunks_memset_covers_every_slot() {
    let mut c = Chunks::<u8>::allocate(4);
    c.write_ptr(0, 1);
    c.memset_copy(6);
    assert_eq!(c.as_slice(), &[6, 6, 6, 6]);
    let mut s = Chunks::<String>::allocate(2);
    s.write_ptr(0, "old".to_string());
    s.memset_clone("new".to_string());
    assert_eq!(s.as_slice(), &["new", "new"]);
}

#[test]
fn chunks_new_init_and_new() {
    let c = Chunks::<u8>::new_init(3, &7);
    assert_eq!(c.count(), 3);
    assert_eq!(c.as_slice(), &[7, 7, 7]);
    let e = Chunks::<u8>::new_init(0, &7);
    assert_eq!(e.count(), 1);
    assert_eq!(e.len(), 0);
    let d = Chunks::<u32>::new(4);
    assert_eq!(d.as_slice(), &[0, 0, 0, 0]);
    assert_eq!(d.count(), 4);
}

#[test]
fn chunks_as_array_needs_exact_length() {
    let c = Chunks::<u8>::filled_copy(2, 3);
    assert!(c.as_array::<2>().is_none());
    assert!(c.as_array::<4>().is_none());
    assert_eq!(c.as_array::<3>(), Some(&[2, 2, 2]));
    assert_eq!(c.indices(), 0..3);
    assert_eq!(c.populated_indices(), 0..3);
}

#[test]
fn chunks_try_allocate_reports_errors() {
    let c = Chunks::<u32>::try_allocate(10).unwrap();
    assert_eq!(c.count(), 10);
    assert_eq!(c.len(), 0);
    let none = Chunks::<u32>::try_allocate(0).unwrap();
    assert_eq!((none.count(), none.len()), (0, 0));
    assert!(!none.allocated());
    assert_eq!(Chunks::<()>::try_allocate(3).err(), Some(MemError::InvalidLayout));
    assert_eq!(Chunks::<u32>::try_allocate(usize::MAX).err(), Some(MemError::InvalidLayout));
    assert_eq!(
        Chunks::<u8>::try_allocate(isize::MAX as usize).err(),
        Some(MemError::OutOfMemory)
    );
}

#[test]
fn chunks_try_realloc_leaves_buffer_on_failure() {
    let mut c = Chunks::<u8>::from_slice_copy(&[1, 2, 3]);
    assert_eq!(c.try_realloc(isize::MAX as usize), Err(MemError::OutOfMemory));
    assert_eq!((c.count(), c.len()), (3, 3));
    assert_eq!(c.as_slice(), &[1, 2, 3]);
    assert_eq!(c.try_realloc(usize::MAX), Err(MemError::InvalidLayout));
    assert_eq!((c.count(), c.len()), (3, 3));
    assert_eq!(c.try_realloc(6), Ok(()));
    assert_eq!((c.count(), c.len()), (6, 3));
    assert_eq!(c.try_realloc(2), Ok(()));
    assert_eq!(c.as_slice(), &[1, 2]);
    assert_eq!(c.try_realloc(0), Ok(()));
    assert_eq!((c.count(), c.len()), (0, 0));
}

#[test]
fn chunks_get_mut_writes_in_place() {
    let mut c = Chunks::<u8>::filled_copy(1, 3);
    *c.get_mut(2).unwrap() = 8;
    assert_eq!(c.as_slice(), &[1, 1, 8]);
    assert_eq!(c.get_mut(3).err(), Some(MemError::IndexOutOfBounds));
    assert_eq!(c.count(), 3);
}

#[test]
fn chunks_window_reads_values() {
    let chunks = Chunks::<u8>::filled_copy(1, 3);
    let window: &[u8] = chunks.as_slice();

    assert_eq!(window[0], 1);
    assert_eq!(window[1], 1);
    assert_eq!(window[2], 1);
}

#[test]
fn chunks_window_writes_values() {
    let mut chunks = Chunks::<u8>::filled_copy(1, 3);
    let window: &mut [u8] = chunks.as_mut_slice();

    assert_eq!(window[0], 1);
    assert_eq!(window[1], 1);
    assert_eq!(window[2], 1);
    window[0] = 10;
    window[1] = 20;
    window[2] = 30;
    assert_eq!(chunks.as_slice(), &[10, 20, 30]);
    assert_eq!(chunks.as_mut_slice(), &[10, 20, 30]);
}

#[test]
fn chunks_indices_cover_every_slot() {
    let mut c = Chunks::<u32>::allocate(10);
    assert!(c.allocated());
    assert_eq!(c.count(), 10);
    assert_eq!(c.indices(), 0..10);
    assert_eq!(c.populated_indices(), 0..0);
    c.write_ptr(0, 1);
    c.write_ptr(1, 2);
    assert_eq!(c.indices(), 0..10);
    assert_eq!(c.populated_indices(), 0..2);
    c.dealloc();
    assert_eq!(c.indices(), 0..0);
    assert_eq!(c.populated_indices(), 0..0);
}
