//! The glyph-atlas cache: stable rectangles, disjoint rectangles.

use nwin::AtlasCache;
use nwin::atlas_key;

#[test]
fn key_packs_attribute_high_and_character_low() {
    assert_eq!(atlas_key(1, 'A' as u64), (1u64 << 32) | 0x41);
    assert_eq!(atlas_key(0, 0), 0);
    // only the low 32 bits of each half survive
    assert_eq!(atlas_key(0x1_0000_0001, 2), (1u64 << 32) | 2);
}

#[test]
fn same_pair_twice_returns_the_identical_rectangle() {
    let mut cache = AtlasCache::new();
    let key = atlas_key(3, 'x' as u64);
    assert!(cache.get(key).is_none());
    let x = cache.insert(key, 9);
    let first = cache.get(key).unwrap();
    let second = cache.get(key).unwrap();
    assert_eq!(first, second);
    assert_eq!(first.x, x);
    assert_eq!(first.width, 9);
}

#[test]
fn different_pairs_never_overlap() {
    let mut cache = AtlasCache::new();
    let widths = [7u32, 3, 11, 1, 5];
    let mut keys = Vec::new();
    for (i, w) in widths.iter().enumerate() {
        let key = atlas_key(i as u64, 'a' as u64 + i as u64);
        cache.insert(key, *w);
        keys.push(key);
    }
    for i in 0..keys.len() {
        for j in 0..keys.len() {
            if i != j {
                let a = cache.get(keys[i]).unwrap();
                let b = cache.get(keys[j]).unwrap();
                let disjoint = a.x + a.width as i32 <= b.x || b.x + b.width as i32 <= a.x;
                assert!(disjoint);
            }
        }
    }
}

#[test]
fn entries_append_at_the_cursor_and_never_move() {
    let mut cache = AtlasCache::new();
    assert_eq!(cache.next_slot(), 0);
    let k1 = atlas_key(0, 'a' as u64);
    let k2 = atlas_key(0, 'b' as u64);
    let x1 = cache.insert(k1, 4);
    assert_eq!(x1, 0);
    assert_eq!(cache.next_slot(), 4);
    let x2 = cache.insert(k2, 6);
    assert_eq!(x2, 4);
    assert_eq!(cache.next_slot(), 10);
    // the first entry did not move when the second arrived
    assert_eq!(cache.get(k1).unwrap().x, 0);
    assert_eq!(cache.get(k1).unwrap().width, 4);
    assert_eq!(cache.len(), 2);
}
