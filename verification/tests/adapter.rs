use bitset_collection::BitSetBTreeMap;
use bitset_collection::BitSetCollection;
use bitset_collection::BitSetHashMap;
use bitset_collection::BitSetVec;
use bitset_collection::BitSetVecDeque;
use bitset_collection::KeyRangeError;
use std::collections::BTreeMap;
use std::collections::HashMap;

#[test]
fn bitset_vec_insert() {
    let mut collection = BitSetVec::<usize, f32>::default();
    assert!(!collection.contains_key(&2).unwrap());
    collection.insert(2, 10.0).unwrap();
    assert!(collection.contains_key(&2).unwrap());
}

#[test]
fn bitset_vec_remove() {
    let mut collection =
        BitSetVec::<usize, usize>::from_iter(vec![(0, 1), (2, 3), (4, 5)]).unwrap();
    assert!(collection.contains_key(&2).unwrap());
    collection.remove(&2).unwrap();
    assert!(!collection.contains_key(&2).unwrap());
}

#[test]
fn bitset_btree_map_insert() {
    let mut collection = BitSetBTreeMap::<usize, f32>::default();
    assert!(!collection.contains_key(&2).unwrap());
    collection.insert(2, 10.0).unwrap();
    assert!(collection.contains_key(&2).unwrap());
}

#[test]
fn bitset_btree_map_remove() {
    let mut collection =
        BitSetBTreeMap::<usize, usize>::from_iter(vec![(0, 1), (2, 3), (4, 5)]).unwrap();
    assert!(collection.contains_key(&2).unwrap());
    collection.remove(&2).unwrap();
    assert!(!collection.contains_key(&2).unwrap());
}

#[test]
fn build_from_pairs_then_remove() {
    let mut collection =
        BitSetBTreeMap::<usize, usize>::from_iter(vec![(0, 1), (2, 3), (4, 5)]).unwrap();
    assert_eq!(collection.contains_key(&2), Ok(true));
    assert_eq!(collection.remove(&2), Ok(Some(3)));
    assert_eq!(collection.contains_key(&2), Ok(false));
    assert_eq!(collection.keys(), vec![0, 4]);
}

#[test]
fn build_from_pairs_then_remove_hash_map() {
    let mut collection =
        BitSetHashMap::<u32, usize>::from_iter(vec![(0, 1), (2, 3), (4, 5)]).unwrap();
    assert_eq!(collection.contains_key(&2), Ok(true));
    assert_eq!(collection.remove(&2), Ok(Some(3)));
    assert_eq!(collection.contains_key(&2), Ok(false));
    assert_eq!(collection.keys(), vec![0, 4]);
}

#[test]
fn default_then_insert_then_get() {
    let mut collection = BitSetBTreeMap::<usize, f64>::default();
    assert_eq!(collection.contains_key(&2), Ok(false));
    assert_eq!(collection.get(&2), Ok(None));
    assert_eq!(collection.insert(2, 10.0), Ok(None));
    assert_eq!(collection.contains_key(&2), Ok(true));
    assert_eq!(collection.get(&2), Ok(Some(&10.0)));
}

#[test]
fn insert_twice_returns_first_and_keeps_second() {
    let mut collection = BitSetHashMap::<u64, f64>::default();
    assert_eq!(collection.insert(5, 1.0), Ok(None));
    assert_eq!(collection.insert(5, 2.0), Ok(Some(1.0)));
    assert_eq!(collection.get(&5), Ok(Some(&2.0)));
    assert_eq!(collection.keys(), vec![5]);
}

#[test]
fn key_beyond_32_bits_is_rejected_everywhere() {
    let mut collection = BitSetBTreeMap::<u64, u8>::default();
    collection.insert(7, 1).unwrap();
    let huge: u64 = 1 << 40;
    assert_eq!(collection.insert(huge, 2), Err(KeyRangeError));
    assert_eq!(collection.remove(&huge), Err(KeyRangeError));
    assert_eq!(collection.get(&huge), Err(KeyRangeError));
    assert_eq!(collection.contains_key(&huge), Err(KeyRangeError));
    assert_eq!(collection.keys(), vec![7]);
    assert_eq!(collection.get(&7), Ok(Some(&1)));
}

#[test]
fn key_beyond_the_capacity_is_absent_and_no_error_to_look_up() {
    let limit = bitset_collection::index_capacity();
    let mut collection = BitSetBTreeMap::<u32, u8>::default();
    collection.insert(7, 1).unwrap();
    for key in [limit, limit + 1, u32::MAX] {
        assert_eq!(collection.contains_key(&key), Ok(false));
        assert_eq!(collection.get(&key), Ok(None));
        assert_eq!(collection.remove(&key), Ok(None));
        assert_eq!(collection.contains_key(&key), Ok(false));
    }
    assert_eq!(collection.keys(), vec![7]);
    assert_eq!(collection.get(&7), Ok(Some(&1)));
}

#[test]
fn remove_hands_every_key_to_the_container() {
    let mut map: BTreeMap<u32, char> = BTreeMap::new();
    map.insert(5, 'a');
    let mut collection = BitSetCollection::new(map).unwrap();
    assert_eq!(collection.remove(&5), Ok(Some('a')));
    assert_eq!(collection.contains_key(&5), Ok(false));
    assert!(!collection.stored(&5));
    assert_eq!(collection.remove(&5), Ok(None));
    assert_eq!(collection.remove(&u32::MAX), Ok(None));
    assert_eq!(collection.keys(), Vec::<u32>::new());
}

#[test]
fn vector_keeps_a_value_that_is_not_its_last() {
    let mut collection = BitSetVec::<usize, u8>::new(vec![10, 20, 30]).unwrap();
    assert_eq!(collection.remove(&1), Ok(None));
    assert!(collection.stored(&1));
    assert_eq!(collection.contains_key(&1), Ok(false));
    assert_eq!(collection.get(&1), Ok(None));
    assert_eq!(collection.keys(), vec![0, 2]);
    assert_eq!(collection.remove(&2), Ok(Some(30)));
    assert_eq!(collection.keys(), vec![0]);
    assert_eq!(collection.get(&0), Ok(Some(&10)));
}

#[test]
fn narrow_and_wide_keys_work_with_both_maps() {
    let mut ordered = BitSetBTreeMap::<i8, u8>::default();
    assert_eq!(ordered.insert(-4, 1), Err(KeyRangeError));
    assert_eq!(ordered.insert(9, 2), Ok(None));
    assert_eq!(ordered.insert(3, 3), Ok(None));
    assert_eq!(ordered.keys(), vec![3, 9]);
    assert_eq!(ordered.contains_key(&-4), Err(KeyRangeError));
    let mut hashed = BitSetHashMap::<u128, u8>::default();
    assert_eq!(hashed.insert(1 << 100, 1), Err(KeyRangeError));
    assert_eq!(hashed.insert(9, 2), Ok(None));
    assert_eq!(hashed.insert(3, 3), Ok(None));
    assert_eq!(hashed.keys(), vec![3, 9]);
    assert_eq!(hashed.get(&9), Ok(Some(&2)));
    let mut wide = BitSetBTreeMap::<i128, u8>::default();
    assert_eq!(wide.insert(12, 1), Ok(None));
    assert_eq!(wide.remove(&12), Ok(Some(1)));
    let mut sized = BitSetHashMap::<isize, u8>::default();
    assert_eq!(sized.insert(12, 1), Ok(None));
    assert_eq!(sized.get(&12), Ok(Some(&1)));
    let mut short = BitSetHashMap::<i16, u8>::default();
    assert_eq!(short.insert(12, 1), Ok(None));
    assert_eq!(short.keys(), vec![12]);
}

#[test]
fn key_at_the_capacity_of_the_index_is_rejected() {
    let limit = bitset_collection::index_capacity();
    let mut collection = BitSetHashMap::<u32, u8>::default();
    assert_eq!(collection.insert(limit, 1), Err(KeyRangeError));
    assert_eq!(collection.keys(), Vec::<u32>::new());
    assert_eq!(collection.insert(limit - 1, 2), Ok(None));
    assert_eq!(collection.contains_key(&(limit - 1)), Ok(true));
    assert_eq!(collection.keys(), vec![limit - 1]);
    assert_eq!(collection.get(&(limit - 1)), Ok(Some(&2)));
}

#[test]
fn removing_an_absent_key_changes_nothing() {
    let mut collection =
        BitSetBTreeMap::<u16, char>::from_iter(vec![(3, 'a'), (9, 'b')]).unwrap();
    let before = collection.clone();
    assert_eq!(collection.remove(&5), Ok(None));
    assert_eq!(collection.keys(), vec![3, 9]);
    assert_eq!(collection.get(&3), Ok(Some(&'a')));
    assert_eq!(collection.get(&9), Ok(Some(&'b')));
    assert_eq!(collection.remove(&5), Ok(None));
    assert_eq!(collection.keys(), before.keys());
}

#[test]
fn contains_get_and_keys_agree_after_each_operation() {
    let mut collection = BitSetHashMap::<usize, usize>::default();
    let probes: Vec<usize> = vec![0, 1, 2, 63, 64, 65, 4095, 4096, 70000];
    let steps: Vec<(bool, usize)> = vec![
        (true, 64),
        (true, 1),
        (true, 70000),
        (false, 1),
        (true, 4096),
        (false, 5),
        (true, 64),
        (false, 64),
        (false, 70000),
    ];
    for (insert, key) in steps {
        if insert {
            collection.insert(key, key * 2).unwrap();
        } else {
            collection.remove(&key).unwrap();
        }
        let keys = collection.keys();
        for probe in &probes {
            let present = collection.contains_key(probe).unwrap();
            assert_eq!(collection.get(probe).unwrap().is_some(), present);
            assert_eq!(keys.contains(probe), present);
        }
    }
    assert_eq!(collection.keys(), vec![4096]);
}

#[test]
fn keys_ascend_whatever_the_order_of_insertion() {
    let pairs: Vec<(u32, u8)> =
        vec![(900_000, 0), (3, 1), (64, 2), (0, 3), (4097, 4), (63, 5), (262_144, 6)];
    let hashed = BitSetHashMap::<u32, u8>::from_iter(pairs.clone()).unwrap();
    assert_eq!(hashed.keys(), vec![0, 3, 63, 64, 4097, 262_144, 900_000]);
    let ordered = BitSetBTreeMap::<u32, u8>::from_iter(pairs).unwrap();
    assert_eq!(ordered.keys(), vec![0, 3, 63, 64, 4097, 262_144, 900_000]);
}

#[test]
fn later_pair_replaces_earlier_pair_with_the_same_key() {
    let collection =
        BitSetBTreeMap::<u8, u32>::from_iter(vec![(1, 10), (2, 20), (1, 30)]).unwrap();
    assert_eq!(collection.keys(), vec![1, 2]);
    assert_eq!(collection.get(&1), Ok(Some(&30)));
    assert_eq!(collection.get(&2), Ok(Some(&20)));
}

#[test]
fn from_iter_fails_on_a_key_out_of_range() {
    let built = BitSetBTreeMap::<u64, u32>::from_iter(vec![(1, 10), (1 << 33, 20), (2, 30)]);
    assert_eq!(built.err(), Some(KeyRangeError));
}

#[test]
fn new_scans_the_keys_of_the_container() {
    let mut map: BTreeMap<usize, char> = BTreeMap::new();
    map.insert(12, 'x');
    map.insert(4, 'y');
    map.insert(300, 'z');
    let collection = BitSetCollection::new(map).unwrap();
    assert_eq!(collection.keys(), vec![4, 12, 300]);
    assert_eq!(collection.contains_key(&12), Ok(true));
    assert_eq!(collection.contains_key(&13), Ok(false));
    assert_eq!(collection.get(&300), Ok(Some(&'z')));
    assert_eq!(collection.get(&5), Ok(None));
}

#[test]
fn new_over_a_vector_marks_every_position() {
    let collection = BitSetVec::<usize, char>::new(vec!['a', 'b', 'c']).unwrap();
    assert_eq!(collection.keys(), vec![0, 1, 2]);
    assert_eq!(collection.get(&1), Ok(Some(&'b')));
    assert_eq!(collection.get(&3), Ok(None));
}

#[test]
fn new_fails_on_a_key_out_of_range() {
    let mut map: HashMap<u64, char> = HashMap::new();
    map.insert(1, 'x');
    map.insert(u64::MAX, 'y');
    assert_eq!(BitSetCollection::new(map).err(), Some(KeyRangeError));
}

#[test]
fn default_is_empty() {
    let collection = BitSetVecDeque::<usize, u8>::default();
    assert_eq!(collection.keys(), Vec::<usize>::new());
    assert_eq!(collection.contains_key(&0), Ok(false));
    assert_eq!(collection.get(&0), Ok(None));
}

#[test]
fn clone_holds_the_same_keys_and_values() {
    let mut collection =
        BitSetBTreeMap::<u32, u8>::from_iter(vec![(70, 1), (5, 2)]).unwrap();
    let copy = collection.clone();
    collection.remove(&70).unwrap();
    assert_eq!(copy.keys(), vec![5, 70]);
    assert_eq!(copy.get(&70), Ok(Some(&1)));
    assert_eq!(collection.keys(), vec![5]);
}

#[test]
fn vector_grows_by_appending_and_replaces_in_place() {
    let mut collection = BitSetVec::<usize, char>::default();
    assert_eq!(collection.insert(0, 'a'), Ok(None));
    assert_eq!(collection.insert(1, 'b'), Ok(None));
    assert_eq!(collection.insert(0, 'c'), Ok(Some('a')));
    assert_eq!(collection.keys(), vec![0, 1]);
    assert_eq!(collection.get(&0), Ok(Some(&'c')));
    assert_eq!(collection.get(&1), Ok(Some(&'b')));
    assert_eq!(collection.remove(&1), Ok(Some('b')));
    assert_eq!(collection.keys(), vec![0]);
    assert_eq!(collection.get(&1), Ok(None));
}

#[test]
fn index_marks_a_key_that_the_vector_does_not_store() {
    let mut collection = BitSetVec::<usize, char>::default();
    assert_eq!(collection.insert(2, 'a'), Ok(None));
    assert_eq!(collection.contains_key(&2), Ok(true));
    assert!(!collection.stored(&2));
    assert_eq!(collection.keys(), vec![2]);
}

#[test]
fn stored_asks_the_container() {
    let mut collection = BitSetBTreeMap::<u32, u8>::default();
    assert!(!collection.stored(&6));
    collection.insert(6, 1).unwrap();
    assert!(collection.stored(&6));
    assert!(!collection.stored(&7));
    collection.remove(&6).unwrap();
    assert!(!collection.stored(&6));
}

#[test]
fn signed_keys_work_with_both_maps() {
    let mut ordered = BitSetBTreeMap::<i32, u8>::default();
    assert_eq!(ordered.insert(-4, 1), Err(KeyRangeError));
    assert_eq!(ordered.insert(9, 2), Ok(None));
    assert_eq!(ordered.insert(3, 3), Ok(None));
    assert_eq!(ordered.keys(), vec![3, 9]);
    let mut hashed = BitSetHashMap::<i64, u8>::default();
    assert_eq!(hashed.insert(-4, 1), Err(KeyRangeError));
    assert_eq!(hashed.insert(9, 2), Ok(None));
    assert_eq!(hashed.insert(3, 3), Ok(None));
    assert_eq!(hashed.keys(), vec![3, 9]);
    assert_eq!(hashed.get(&9), Ok(Some(&2)));
}

#[test]
fn adapter_over_slices_reads_what_they_hold() {
    let values = ['a', 'b'];
    let shared = BitSetCollection::<usize, &[char]>::new(&values).unwrap();
    assert_eq!(shared.keys(), vec![0, 1]);
    assert_eq!(shared.get(&1), Ok(Some(&'b')));
    let mut store = ['x', 'y', 'z'];
    let mut exclusive = BitSetCollection::<usize, &mut [char]>::new(&mut store).unwrap();
    assert_eq!(exclusive.insert(2, 'w'), Ok(Some('z')));
    assert_eq!(exclusive.get(&2), Ok(Some(&'w')));
    assert_eq!(exclusive.keys(), vec![0, 1, 2]);
}
