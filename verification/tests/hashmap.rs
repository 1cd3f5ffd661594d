use early_mm::hashmap::FIBONACCI_MAGIC;
use early_mm::{FibonacciHash, HashMap};
use std::hash::{Hash, Hasher};

#[test]
fn hasher_starts_at_zero() {
    assert_eq!(FibonacciHash::default().finish(), 0);
}

#[test]
fn hasher_mixes_one_byte() {
    let mut h = FibonacciHash::default();
    h.write(&[1]);
    assert_eq!(h.finish(), 1);
    h.write(&[2]);
    assert_eq!(h.finish(), FIBONACCI_MAGIC + 2);
}

#[test]
fn hasher_folds_bytes_with_wraparound() {
    let mut h = FibonacciHash::default();
    h.write(&[3, 0, 255]);
    let expected = FIBONACCI_MAGIC
        .wrapping_mul(FIBONACCI_MAGIC.wrapping_mul(3))
        .wrapping_add(255);
    assert_eq!(h.finish(), expected);
    assert_eq!(FIBONACCI_MAGIC, 1_140_071_481_932_319_848);
    assert_eq!(expected, 1140071481932319848u64.wrapping_mul(3420214445796959544).wrapping_add(255));
}

#[test]
fn hasher_write_in_pieces_is_write_at_once() {
    let mut a = FibonacciHash::default();
    a.write(&[9, 8, 7, 6, 5]);
    let mut b = FibonacciHash::default();
    b.write(&[9, 8]);
    b.write(&[]);
    b.write(&[7, 6, 5]);
    assert_eq!(a.finish(), b.finish());
}

#[test]
fn hasher_serves_std_hash() {
    let mut a = FibonacciHash::default();
    42u32.hash(&mut a);
    let mut b = FibonacciHash::default();
    b.write(&42u32.to_ne_bytes());
    assert_eq!(a.finish(), b.finish());
}

#[test]
fn new_has_sixteen_buckets() {
    let m: HashMap<u32, u32> = HashMap::new();
    assert_eq!(m.capacity(), 16);
    assert_eq!(m.len(), 0);
    assert_eq!(m.size(), 0);
    assert!(m.is_empty());
    assert!(m.iter().is_empty());
}

#[test]
fn with_capacity_rounds_up_to_power_of_two() {
    for (asked, got) in [(0usize, 1usize), (1, 1), (2, 2), (3, 4), (16, 16), (17, 32), (1000, 1024)] {
        let m: HashMap<u64, ()> = HashMap::with_capacity(asked);
        assert_eq!(m.capacity(), got);
        assert!(m.is_empty());
    }
}

#[test]
fn hash_selects_a_bucket_of_the_table() {
    let m: HashMap<String, u8> = HashMap::with_capacity(8);
    for key in ["", "a", "b", "hello", "world", "a longer key than the others"] {
        let index = m.hash(&key.to_string());
        assert!(index < 8);
        assert_eq!(index, m.hash(&key.to_string()));
    }
}

#[test]
fn hash_is_the_low_bits_of_the_digest() {
    let m: HashMap<u8, u8> = HashMap::new();
    let mut h = FibonacciHash::default();
    200u8.hash(&mut h);
    assert_eq!(m.hash(&200), (h.finish() as usize) & 15);
    assert_eq!(m.bucket_of(h.finish()), (h.finish() as usize) & 15);
    assert_eq!(m.bucket_of(0x1234_5678_9abc_def7), 7);
    assert_eq!(m.bucket_of(u64::MAX), 15);
    let one: HashMap<u8, u8> = HashMap::with_capacity(1);
    assert_eq!(one.bucket_of(u64::MAX), 0);
}

#[test]
fn insert_then_get() {
    let mut m = HashMap::new();
    m.insert("one".to_string(), 1);
    m.insert("two".to_string(), 2);
    m.insert("three".to_string(), 3);
    assert_eq!(m.len(), 3);
    assert_eq!(m.size(), 3);
    assert!(!m.is_empty());
    assert_eq!(m.get(&"one".to_string()), Some(&1));
    assert_eq!(m.get(&"two".to_string()), Some(&2));
    assert_eq!(m.get(&"three".to_string()), Some(&3));
    assert_eq!(m.get(&"four".to_string()), None);
}

#[test]
fn many_keys_in_few_buckets() {
    let mut m = HashMap::with_capacity(4);
    for k in 0u64..200 {
        m.insert(k, k * k);
    }
    assert_eq!(m.capacity(), 4);
    assert_eq!(m.len(), 200);
    for k in 0u64..200 {
        assert_eq!(m.get(&k), Some(&(k * k)));
    }
    assert_eq!(m.get(&200), None);
}

#[test]
fn insert_twice_keeps_both_and_get_sees_the_older() {
    let mut m = HashMap::new();
    m.insert(7u32, "first");
    m.insert(7u32, "second");
    assert_eq!(m.len(), 2);
    assert_eq!(m.get(&7), Some(&"first"));
    assert_eq!(m.remove(&7), Some("first"));
    assert_eq!(m.len(), 1);
    assert_eq!(m.get(&7), Some(&"second"));
    assert_eq!(m.remove(&7), Some("second"));
    assert_eq!(m.get(&7), None);
    assert_eq!(m.remove(&7), None);
    assert!(m.is_empty());
}

#[test]
fn remove_of_absent_key_changes_nothing() {
    let mut m = HashMap::new();
    m.insert(1u8, 10u8);
    assert_eq!(m.remove(&2), None);
    assert_eq!(m.len(), 1);
    assert_eq!(m.get(&1), Some(&10));
}

#[test]
fn insert_at_and_get_at_work_on_the_named_bucket() {
    let mut m = HashMap::new();
    m.insert_at(3, 7u64, 70u64);
    m.insert_at(3, 8, 80);
    m.insert_at(5, 7, 71);
    assert_eq!(m.len(), 3);
    assert_eq!(m.get_at(3, &7), Some(&70));
    assert_eq!(m.get_at(3, &8), Some(&80));
    assert_eq!(m.get_at(5, &7), Some(&71));
    assert_eq!(m.get_at(4, &7), None);
    assert_eq!(m.remove_at(4, &7), None);
    assert_eq!(m.remove_at(3, &7), Some(70));
    assert_eq!(m.get_at(3, &7), None);
    assert_eq!(m.get_at(3, &8), Some(&80));
    assert_eq!(m.len(), 2);
}

#[test]
fn clear_empties_and_keeps_capacity() {
    let mut m = HashMap::with_capacity(64);
    for k in 0u16..100 {
        m.insert(k, ());
    }
    m.clear();
    assert_eq!(m.len(), 0);
    assert!(m.is_empty());
    assert_eq!(m.capacity(), 64);
    assert_eq!(m.get(&5), None);
    assert!(m.iter().is_empty());
    m.insert(5, ());
    assert_eq!(m.get(&5), Some(&()));
}

#[test]
fn iter_walks_buckets_in_order() {
    let mut m = HashMap::with_capacity(4);
    m.insert_at(2, 'c', 3);
    m.insert_at(0, 'a', 1);
    m.insert_at(2, 'd', 4);
    m.insert_at(3, 'e', 5);
    m.insert_at(0, 'b', 2);
    let all: Vec<(char, i32)> = m.iter().into_iter().map(|(k, v)| (*k, *v)).collect();
    assert_eq!(all, vec![('a', 1), ('b', 2), ('c', 3), ('d', 4), ('e', 5)]);
}

#[test]
fn iter_yields_every_entry_once() {
    let mut m = HashMap::new();
    for k in 0u32..50 {
        m.insert(k, k + 1000);
    }
    let mut all: Vec<(u32, u32)> = m.iter().into_iter().map(|(k, v)| (*k, *v)).collect();
    assert_eq!(all.len(), m.len());
    all.sort();
    let expected: Vec<(u32, u32)> = (0u32..50).map(|k| (k, k + 1000)).collect();
    assert_eq!(all, expected);
}
