//! The memory of components: counts, reuse of empty slots, and compression.

use std::any::Any;

use ecstatic::{EcstaticStorage, ErrStorage};

#[test]
fn test_reusing_indices_and_single_compression_capacity() {
    let mut ecst = EcstaticStorage::new();
    let key1 = EcstaticStorage::generate_key();
    for _ in 0..10 {
        ecst.ecinsert::<u8>(key1, 1).unwrap();
        ecst.ecempty::<u8>(key1).unwrap();
    }

    ecst.ecinsert::<u8>(key1, 1).unwrap();

    println!("\n\nbefore_compress\n");
    println!("{:?}", ecst.debug_dump_components::<u8>().components);
    println!("\n\nafter_compress\n");
    ecst.compress_memory::<u8>().unwrap();
    println!("{:?}", ecst.debug_dump_components::<u8>().components);

    let cap = ecst.capacity::<u8>().unwrap();
    assert!(cap == 1, "ecst.capacity t1 :: actual: {}, expected: {}\n", cap, 1);
}

/// What the debug form of an opaque payload reads.
fn opaque_text() -> String {
    let payload: Box<dyn Any + Send> = Box::new("absent");
    format!("{:#?}", payload)
}

#[test]
fn the_length_of_an_unknown_type_is_an_error() {
    let mut ecst = EcstaticStorage::new();
    match ecst.len::<u8>() {
        Err(ErrStorage::LenFunc(text)) => assert_eq!(text, opaque_text()),
        other => panic!("{:?}", other),
    }
    ecst.ecinsert::<u16>(1, 1).unwrap();
    assert!(ecst.len::<u8>().is_err());
    assert_eq!(ecst.len::<u16>().unwrap(), 1);
}

#[test]
fn the_capacity_of_an_unknown_type_is_an_error() {
    let mut ecst = EcstaticStorage::new();
    match ecst.capacity::<u8>() {
        Err(ErrStorage::Read(text)) => assert_eq!(text, "Any { .. }"),
        other => panic!("{:?}", other),
    }
    ecst.ecinsert::<u8>(1, 1).unwrap();
    ecst.ecempty::<u8>(1).unwrap();
    assert_eq!(ecst.capacity::<u8>().unwrap(), 1);
    assert_eq!(ecst.len::<u8>().unwrap(), 0);
}

#[test]
fn the_least_free_slot_is_reused_first() {
    let mut ecst = EcstaticStorage::new();
    for id in 0..5 {
        ecst.ecinsert::<u64>(id, 100 + id).unwrap();
    }
    ecst.ecempty::<u64>(3).unwrap();
    ecst.ecempty::<u64>(1).unwrap();
    let dump = ecst.debug_dump_indices::<u64>();
    assert_eq!(dump.packed, vec![0, 2, 4]);
    assert_eq!(dump.free, vec![1, 3]);
    assert_eq!(ecst.len::<u64>().unwrap(), 3);
    assert_eq!(ecst.capacity::<u64>().unwrap(), 5);

    ecst.ecinsert::<u64>(9, 109).unwrap();
    let dump = ecst.debug_dump_indices::<u64>();
    assert_eq!(dump.packed, vec![0, 1, 2, 4]);
    assert_eq!(dump.free, vec![3]);
    assert_eq!(
        ecst.debug_dump_components::<u64>().components,
        vec![Some(&100), Some(&109), Some(&102), None, Some(&104)]
    );
    assert_eq!(ecst.len::<u64>().unwrap(), 4);
    assert_eq!(ecst.capacity::<u64>().unwrap(), 5);

    ecst.ecinsert::<u64>(10, 110).unwrap();
    ecst.ecinsert::<u64>(11, 111).unwrap();
    assert_eq!(ecst.len::<u64>().unwrap(), 6);
    assert_eq!(ecst.capacity::<u64>().unwrap(), 6);
    assert_eq!(ecst.ecread::<u64>(0).unwrap(), 100);
    assert_eq!(ecst.ecread::<u64>(2).unwrap(), 102);
    assert_eq!(ecst.ecread::<u64>(4).unwrap(), 104);
    assert_eq!(ecst.ecread::<u64>(9).unwrap(), 109);
    assert_eq!(ecst.ecread::<u64>(10).unwrap(), 110);
    assert_eq!(ecst.ecread::<u64>(11).unwrap(), 111);
}

#[test]
fn freeing_an_index_that_was_free_undoes_its_use() {
    let mut ecst = EcstaticStorage::new();
    for id in 0..4 {
        ecst.ecinsert::<u64>(id, id).unwrap();
    }
    ecst.ecempty::<u64>(0).unwrap();
    ecst.ecempty::<u64>(2).unwrap();
    ecst.ecinsert::<u64>(8, 108).unwrap();
    assert_eq!(ecst.debug_dump_indices::<u64>().packed, vec![0, 1, 3]);
    assert_eq!(ecst.debug_dump_indices::<u64>().free, vec![2]);
    ecst.ecempty::<u64>(8).unwrap();
    assert_eq!(ecst.debug_dump_indices::<u64>().packed, vec![1, 3]);
    assert_eq!(ecst.debug_dump_indices::<u64>().free, vec![0, 2]);
}

#[test]
fn freeing_a_new_index_leaves_it_free() {
    let mut ecst = EcstaticStorage::new();
    ecst.ecinsert::<u64>(1, 101).unwrap();
    ecst.ecinsert::<u64>(2, 102).unwrap();
    ecst.ecempty::<u64>(2).unwrap();
    assert_eq!(ecst.debug_dump_indices::<u64>().packed, vec![0]);
    assert_eq!(ecst.debug_dump_indices::<u64>().free, vec![1]);
}

#[test]
fn compression_keeps_what_ids_own() {
    let mut ecst = EcstaticStorage::new();
    for id in 0..6 {
        ecst.ecinsert::<u32>(id, 10 * id as u32).unwrap();
        ecst.ecinsert::<u8>(id, id as u8).unwrap();
    }
    for id in [0, 2, 3] {
        ecst.ecempty::<u32>(id).unwrap();
    }
    assert_eq!(ecst.capacity::<u32>().unwrap(), 6);

    ecst.compress_memory::<u32>().unwrap();
    assert_eq!(ecst.capacity::<u32>().unwrap(), 3);
    assert_eq!(ecst.len::<u32>().unwrap(), 3);
    assert_eq!(
        ecst.debug_dump_components::<u32>().components,
        vec![Some(&10), Some(&40), Some(&50)]
    );
    let dump = ecst.debug_dump_indices::<u32>();
    assert_eq!(dump.packed, vec![0, 1, 2]);
    assert!(dump.free.is_empty());
    for id in [1, 4, 5] {
        assert_eq!(ecst.ecread::<u32>(id).unwrap(), 10 * id as u32);
    }
    for id in [0, 2, 3] {
        assert!(!ecst.owns::<u32>(id));
    }
    assert_eq!(ecst.capacity::<u8>().unwrap(), 6);
    for id in 0..6 {
        assert_eq!(ecst.ecread::<u8>(id).unwrap(), id as u8);
    }

    ecst.ecinsert::<u32>(0, 77).unwrap();
    assert_eq!(ecst.capacity::<u32>().unwrap(), 4);
    assert_eq!(ecst.ecread::<u32>(0).unwrap(), 77);
    assert_eq!(ecst.ecread::<u32>(5).unwrap(), 50);
}

#[test]
fn compression_of_full_memory_changes_nothing() {
    let mut ecst = EcstaticStorage::new();
    ecst.ecinsert::<char>(1, 'a').unwrap();
    ecst.ecinsert::<char>(2, 'b').unwrap();
    ecst.ecinsert::<char>(3, 'c').unwrap();
    ecst.compress_memory::<char>().unwrap();
    ecst.compress_memory::<char>().unwrap();
    assert_eq!(
        ecst.debug_dump_components::<char>().components,
        vec![Some(&'a'), Some(&'b'), Some(&'c')]
    );
    assert_eq!(ecst.ecread::<char>(1).unwrap(), 'a');
    assert_eq!(ecst.ecread::<char>(2).unwrap(), 'b');
    assert_eq!(ecst.ecread::<char>(3).unwrap(), 'c');
    assert_eq!(ecst.len::<char>().unwrap(), 3);
}

#[test]
fn compression_frees_memory() {
    let mut ecst = EcstaticStorage::new();
    for id in 0..1000 {
        ecst.ecinsert::<u64>(id, id).unwrap();
    }
    for id in 0..999 {
        ecst.ecempty::<u64>(id).unwrap();
    }
    assert!(ecst.debug_dump_components::<u64>().capacity >= 1000);
    ecst.compress_memory::<u64>().unwrap();
    let dump = ecst.debug_dump_components::<u64>();
    assert!(dump.capacity >= 1);
    assert!(dump.capacity < 1000);
    assert_eq!(dump.components, vec![Some(&999)]);
    assert_eq!(ecst.ecread::<u64>(999).unwrap(), 999);
}

#[test]
fn compression_of_emptied_memory_leaves_none() {
    let mut ecst = EcstaticStorage::new();
    ecst.ecinsert::<i8>(1, -1).unwrap();
    ecst.ecinsert::<i8>(2, -2).unwrap();
    ecst.ecempty::<i8>(1).unwrap();
    ecst.ecempty::<i8>(2).unwrap();
    ecst.compress_memory::<i8>().unwrap();
    assert_eq!(ecst.capacity::<i8>().unwrap(), 0);
    assert_eq!(ecst.len::<i8>().unwrap(), 0);
    assert!(ecst.debug_dump_components::<i8>().components.is_empty());
    assert!(ecst.debug_dump_indices::<i8>().free.is_empty());
    ecst.ecinsert::<i8>(1, -3).unwrap();
    assert_eq!(ecst.ecread::<i8>(1).unwrap(), -3);
    assert_eq!(ecst.capacity::<i8>().unwrap(), 1);
}

#[test]
fn compression_keeps_components_without_an_owner() {
    let mut ecst = EcstaticStorage::new();
    ecst.ecinsert::<u8>(1, 10).unwrap();
    ecst.ecinsert::<u8>(2, 20).unwrap();
    ecst.ecinsert::<u8>(2, 21).unwrap();
    ecst.ecempty::<u8>(1).unwrap();
    ecst.compress_memory::<u8>().unwrap();
    assert_eq!(
        ecst.debug_dump_components::<u8>().components,
        vec![Some(&20), Some(&21)]
    );
    assert_eq!(ecst.ecread::<u8>(2).unwrap(), 21);
}

#[test]
fn emptied_memory_is_reused_by_another_id() {
    let mut ecst = EcstaticStorage::new();
    ecst.ecinsert::<u8>(1, 10).unwrap();
    ecst.ecinsert::<u8>(2, 20).unwrap();
    ecst.ecempty::<u8>(1).unwrap();
    ecst.ecinsert::<u8>(3, 30).unwrap();
    assert_eq!(ecst.capacity::<u8>().unwrap(), 2);
    assert_eq!(ecst.len::<u8>().unwrap(), 2);
    assert_eq!(ecst.ecread::<u8>(2).unwrap(), 20);
    assert_eq!(ecst.ecread::<u8>(3).unwrap(), 30);
}
