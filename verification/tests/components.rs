//! The components that ids own: what is inserted, read, replaced, modified and emptied.

use std::collections::hash_map::DefaultHasher;
use std::collections::{BTreeMap, HashMap};
use std::hash::{Hash, Hasher};
use std::sync::Arc;
use std::time::Duration;

use ecstatic::{same_type_as, EcstaticStorage, Storable};

#[test]
fn test_ecinsert() {
    let mut ecst = EcstaticStorage::new();
    let key1 = EcstaticStorage::generate_key();
    let key2 = EcstaticStorage::generate_key();
    ecst.ecinsert::<u8>(key1, 1).unwrap();
    ecst.ecinsert::<u16>(key1, 2).unwrap();
    ecst.ecinsert::<u32>(key1, 3).unwrap();
    ecst.ecinsert::<u64>(key1, 4).unwrap();

    ecst.ecinsert::<u8>(key2, 5).unwrap();
    ecst.ecinsert::<u16>(key2, 6).unwrap();
    ecst.ecinsert::<u32>(key2, 7).unwrap();
    ecst.ecinsert::<u64>(key2, 8).unwrap();

    #[allow(dead_code)]
    struct Test {
        t1: String,
        t2: u64,
        t3: Vec<bool>,
    }
    impl Storable for Test {}
    ecst.ecinsert::<Test>(
        key1,
        Test {
            t1: String::from("test1"),
            t2: 22,
            t3: Vec::new(),
        },
    )
    .unwrap();
}

#[test]
fn test_ecempty() {
    let mut ecst = EcstaticStorage::new();
    let key1 = EcstaticStorage::generate_key();
    ecst.ecinsert::<u8>(key1, 3).unwrap();
    ecst.ecempty::<u8>(key1).unwrap();

    ecst.ecinsert::<u8>(key1, 2).unwrap();
    let read = ecst.ecread::<u8>(key1).unwrap();
    assert!(read == 2);
}

#[test]
fn test_ecread_ecempty_many_and_capacity() {
    let mut ecst = EcstaticStorage::new();
    let key1 = EcstaticStorage::generate_key();
    let key2 = EcstaticStorage::generate_key();
    let key3 = EcstaticStorage::generate_key();

    ecst.ecinsert::<u8>(key1, 1).unwrap();
    ecst.ecinsert::<u8>(key2, 2).unwrap();
    ecst.ecinsert::<u8>(key3, 3).unwrap();

    ecst.ecempty::<u8>(key1).unwrap();
    ecst.ecempty::<u8>(key2).unwrap();

    let read = ecst.ecread::<u8>(key3).unwrap();
    assert!(read == 3);

    let read = ecst.ecread::<u8>(key3).unwrap();
    assert!(read == 3);

    let dump = ecst.debug_dump_indices::<u8>();
    println!("Packed: {:?}", dump.packed);
    println!("Free: {:?}", dump.free);
    ecst.ecinsert::<u8>(key1, 4).unwrap();

    let read = ecst.ecread::<u8>(key1).unwrap();
    assert!(read == 4);

    ecst.ecinsert::<u8>(key2, 5).unwrap();

    let read = ecst.ecread::<u8>(key2).unwrap();
    assert!(read == 5, "actual: {}, expected: {}\n", read, 5);
}

#[test]
fn test_len() {
    let mut ecst = EcstaticStorage::new();
    let key1 = EcstaticStorage::generate_key();
    let key2 = EcstaticStorage::generate_key();

    ecst.ecinsert::<u8>(key1, 3).unwrap();
    let len = ecst.len::<u8>().unwrap();
    assert!(len == 1, "ecst.len t1 :: actual: {}, expected: {}\n", len, 1);

    ecst.ecinsert::<u8>(key2, 5).unwrap();
    let len = ecst.len::<u8>().unwrap();
    assert!(len == 2, "ecst.len t2 :: actual: {}, expected: {}\n", len, 2);

    ecst.ecempty::<u8>(key1).unwrap();
    let len = ecst.len::<u8>().unwrap();
    assert!(len == 1, "ecst.len t3 :: actual: {}, expected: {}\n", len, 1);

    ecst.ecempty::<u8>(key2).unwrap();
    let len = ecst.len::<u8>().unwrap();
    assert!(len == 0, "ecst.len t4 :: actual: {}, expected: {}\n", len, 0);
}

#[test]
fn test_ecread() {
    let mut ecst = EcstaticStorage::new();
    let key1 = EcstaticStorage::generate_key();
    let key2 = EcstaticStorage::generate_key();
    let key3 = EcstaticStorage::generate_key();

    ecst.ecinsert::<u8>(key1, 1).unwrap();
    ecst.ecinsert::<u8>(key2, 2).unwrap();
    ecst.ecinsert::<u8>(key3, 3).unwrap();
    let read1 = ecst.ecread::<u8>(key1).unwrap();
    let read2 = ecst.ecread::<u8>(key2).unwrap();
    let read3 = ecst.ecread::<u8>(key3).unwrap();
    assert!(read1 == 1, "ecst.read t1 :: actual: {}, expected: {}\n", read1, 1);
    assert!(read2 == 2, "ecst.read t2 :: actual: {}, expected: {}\n", read2, 2);
    assert!(read3 == 3, "ecst.read t3 :: actual: {}, expected: {}\n", read3, 3);

    let mut ecst = EcstaticStorage::new();

    ecst.ecinsert::<u8>(key1, 1).unwrap();
    ecst.ecinsert::<u16>(key1, 2).unwrap();
    ecst.ecinsert::<u32>(key1, 3).unwrap();
    ecst.ecinsert::<u64>(key1, 4).unwrap();

    ecst.ecinsert::<u8>(key2, 5).unwrap();
    ecst.ecinsert::<u16>(key2, 6).unwrap();
    ecst.ecinsert::<u32>(key2, 7).unwrap();
    ecst.ecinsert::<u64>(key2, 8).unwrap();

    #[derive(Debug, Copy, Clone)]
    struct Test<'a> {
        t1: &'a str,
        t2: u64,
    }
    impl Storable for Test<'static> {}
    ecst.ecinsert::<Test>(key1, Test { t1: "derp", t2: 22 }).unwrap();

    let read1 = ecst.ecread::<u8>(key1).unwrap();
    assert!(read1 == 1, "ecst.read t4 :: actual: {}, expected: {}\n", read1, 1);

    let read1 = ecst.ecread::<u16>(key1).unwrap();
    assert!(read1 == 2, "ecst.read t5 :: actual: {}, expected: {}\n", read1, 2);

    let read1 = ecst.ecread::<u32>(key1).unwrap();
    assert!(read1 == 3, "ecst.read t6 :: actual: {}, expected: {}\n", read1, 3);

    let read1 = ecst.ecread::<u64>(key1).unwrap();
    assert!(read1 == 4, "ecst.read t7 :: actual: {}, expected: {}\n", read1, 4);

    let read1 = ecst.ecread::<u8>(key2).unwrap();
    assert!(read1 == 5, "ecst.read t8 :: actual: {}, expected: {}\n", read1, 5);

    let read1 = ecst.ecread::<u16>(key2).unwrap();
    assert!(read1 == 6, "ecst.read t9 :: actual: {}, expected: {}\n", read1, 6);

    let read1 = ecst.ecread::<u32>(key2).unwrap();
    assert!(read1 == 7, "ecst.read t10 :: actual: {}, expected: {}\n", read1, 7);

    let read1 = ecst.ecread::<u64>(key2).unwrap();
    assert!(read1 == 8, "ecst.read t11 :: actual: {}, expected: {}\n", read1, 8);

    let read1 = ecst.ecread::<Test>(key1).unwrap();
    assert!(read1.t1 == "derp", "ecst.read t12 :: actual: {:#?}\n", read1);
    assert!(read1.t2 == 22, "ecst.read t13 :: actual: {:#?}\n", read1);
}

#[test]
fn test_ecset() {
    let mut ecst = EcstaticStorage::new();
    let key1 = EcstaticStorage::generate_key();
    ecst.ecinsert::<u8>(key1, 1).unwrap();
    ecst.ecset::<u8>(key1, 2).unwrap();
    let read1 = ecst.ecread::<u8>(key1).unwrap();
    assert!(read1 == 2, "ecst.set t1 :: actual: {}, expected: {}\n", read1, 2);
}

#[test]
fn test_ecmodify() {
    let mut ecst = EcstaticStorage::new();
    let key1 = EcstaticStorage::generate_key();
    ecst.ecinsert::<u8>(key1, 1).unwrap();
    ecst.ecmodify::<u8>(key1, |v| {
        *v += 200;
    })
    .unwrap();
    let read1 = ecst.ecread::<u8>(key1).unwrap();
    assert!(read1 == 201, "ecst.modify t1 :: actual: {}, expected: {}\n", read1, 201);
}

#[test]
fn set_and_modify_leave_other_ids_and_types() {
    let mut ecst = EcstaticStorage::new();
    ecst.ecinsert::<u8>(1, 10).unwrap();
    ecst.ecinsert::<u8>(2, 20).unwrap();
    ecst.ecinsert::<u16>(1, 1000).unwrap();

    ecst.ecset::<u8>(1, 11).unwrap();
    ecst.ecmodify::<u8>(2, |v| *v *= 2).unwrap();

    assert_eq!(ecst.ecread::<u8>(1).unwrap(), 11);
    assert_eq!(ecst.ecread::<u8>(2).unwrap(), 40);
    assert_eq!(ecst.ecread::<u16>(1).unwrap(), 1000);
    assert_eq!(ecst.len::<u8>().unwrap(), 2);
    assert_eq!(ecst.capacity::<u8>().unwrap(), 2);
    assert_eq!(ecst.len::<u16>().unwrap(), 1);
}

#[test]
fn modify_changes_a_part_of_a_component() {
    #[derive(Copy, Clone)]
    struct Position {
        x: i32,
        y: i32,
    }
    impl Storable for Position {}
    let mut ecst = EcstaticStorage::new();
    ecst.ecinsert(7, Position { x: 1, y: 2 }).unwrap();
    ecst.ecmodify::<Position>(7, |p| p.y = -5).unwrap();
    let read = ecst.ecread::<Position>(7).unwrap();
    assert_eq!((read.x, read.y), (1, -5));
}

#[test]
fn an_id_owns_a_component_until_it_is_emptied() {
    let mut ecst = EcstaticStorage::new();
    assert!(!ecst.owns::<u8>(3));
    ecst.ecinsert::<u8>(3, 9).unwrap();
    assert!(ecst.owns::<u8>(3));
    assert!(!ecst.owns::<u8>(4));
    assert!(!ecst.owns::<u16>(3));
    ecst.ecempty::<u8>(3).unwrap();
    assert!(!ecst.owns::<u8>(3));
}

#[test]
fn a_second_insert_takes_over_the_id() {
    let mut ecst = EcstaticStorage::new();
    ecst.ecinsert::<u8>(1, 10).unwrap();
    ecst.ecinsert::<u8>(1, 20).unwrap();
    assert_eq!(ecst.ecread::<u8>(1).unwrap(), 20);
    assert_eq!(ecst.len::<u8>().unwrap(), 2);
    let dump = ecst.debug_dump_components::<u8>();
    assert_eq!(dump.components, vec![Some(&10), Some(&20)]);

    ecst.ecempty::<u8>(1).unwrap();
    assert!(!ecst.owns::<u8>(1));
    assert_eq!(ecst.len::<u8>().unwrap(), 1);
}

#[test]
fn emptying_undoes_an_insert() {
    let mut ecst = EcstaticStorage::new();
    ecst.ecinsert::<u8>(1, 10).unwrap();
    ecst.ecinsert::<u8>(2, 20).unwrap();
    ecst.ecempty::<u8>(2).unwrap();
    assert_eq!(ecst.ecread::<u8>(1).unwrap(), 10);
    assert!(!ecst.owns::<u8>(2));
    assert_eq!(ecst.len::<u8>().unwrap(), 1);
    assert_eq!(ecst.debug_dump_components::<u8>().components, vec![Some(&10), None]);

    ecst.ecinsert::<u8>(3, 30).unwrap();
    ecst.ecempty::<u8>(3).unwrap();
    assert_eq!(ecst.debug_dump_components::<u8>().components, vec![Some(&10), None]);
}

#[test]
fn keys_follow_the_clock() {
    let first = EcstaticStorage::generate_key();
    let mut changed = false;
    for _ in 0..1_000_000 {
        if EcstaticStorage::generate_key() != first {
            changed = true;
            break;
        }
    }
    assert!(changed);
}

#[test]
fn a_key_is_the_hash_of_a_length_of_time() {
    let elapsed = Duration::new(1_600_000_000, 123_456_789);
    let mut hasher = DefaultHasher::new();
    elapsed.hash(&mut hasher);
    assert_eq!(EcstaticStorage::key_from(&elapsed), hasher.finish());
    assert_ne!(
        EcstaticStorage::key_from(&elapsed),
        EcstaticStorage::key_from(&Duration::new(1_600_000_000, 123_456_790))
    );
}

#[test]
fn types_are_told_apart() {
    assert!(same_type_as::<u8, u8>());
    assert!(same_type_as::<Vec<u8>, Vec<u8>>());
    assert!(!same_type_as::<u8, i8>());
    assert!(!same_type_as::<u8, Box<u8>>());
    assert!(!same_type_as::<String, &'static str>());
    assert!(!same_type_as::<[u8; 3], [u8; 4]>());
    assert!(!same_type_as::<(u8, u16), (u16, u8)>());
    assert!(!same_type_as::<Arc<u8>, &'static u8>());
    assert!(!same_type_as::<HashMap<u64, u8>, BTreeMap<u64, u8>>());
}

#[test]
fn types_of_std_are_storable() {
    let mut ecst = EcstaticStorage::new();
    ecst.ecinsert::<(i32, char)>(1, (-4, 'x')).unwrap();
    ecst.ecinsert::<[u8; 3]>(1, [1, 2, 3]).unwrap();
    ecst.ecinsert::<Duration>(1, Duration::new(5, 6)).unwrap();
    ecst.ecinsert::<&'static str>(1, "name").unwrap();
    ecst.ecinsert::<Arc<String>>(1, Arc::new(String::from("shared"))).unwrap();
    ecst.ecinsert::<HashMap<u64, u8>>(1, HashMap::from([(2, 3)])).unwrap();
    assert_eq!(ecst.ecread::<(i32, char)>(1).unwrap(), (-4, 'x'));
    assert_eq!(ecst.ecread::<[u8; 3]>(1).unwrap(), [1, 2, 3]);
    assert_eq!(ecst.ecread::<Duration>(1).unwrap(), Duration::new(5, 6));
    assert_eq!(ecst.ecread::<&'static str>(1).unwrap(), "name");
    let dump = ecst.debug_dump_components::<Arc<String>>();
    assert_eq!(dump.components, vec![Some(&Arc::new(String::from("shared")))]);
    let dump = ecst.debug_dump_components::<HashMap<u64, u8>>();
    assert_eq!(dump.components, vec![Some(&HashMap::from([(2, 3)]))]);
}

#[test]
fn components_of_types_that_look_alike_are_kept_apart() {
    let mut ecst = EcstaticStorage::new();
    ecst.ecinsert::<u8>(1, 1).unwrap();
    ecst.ecinsert::<Option<u8>>(1, Some(2)).unwrap();
    ecst.ecinsert::<Box<u8>>(1, Box::new(3)).unwrap();
    ecst.ecinsert::<()>(1, ()).unwrap();
    ecst.ecempty::<Box<u8>>(1).unwrap();
    assert_eq!(ecst.ecread::<u8>(1).unwrap(), 1);
    assert_eq!(ecst.ecread::<Option<u8>>(1).unwrap(), Some(2));
    assert!(!ecst.owns::<Box<u8>>(1));
    assert_eq!(ecst.len::<()>().unwrap(), 1);
}

#[test]
fn a_storage_can_be_shared_between_threads() {
    fn shareable<S: Send + Sync>(_: &S) {}
    shareable(&EcstaticStorage::new());
}
