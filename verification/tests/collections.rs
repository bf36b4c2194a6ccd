use execution::flat_heap::FlatBinaryHeap;
use execution::ordered_tiles::OrderedTiles;
use execution::ordered_units::OrderedUnitSet;
use execution::prng::PseudoRandom;

use std::collections::HashSet;

#[test]
fn ordered_tiles_adds_reports_membership_and_size() {
    let mut s = OrderedTiles::default();
    assert_eq!(s.len(), 0);
    assert!(!s.contains(5));
    s.insert(5);
    s.insert(9);
    s.insert(5);
    assert_eq!(s.len(), 2);
    assert!(s.contains(5));
    assert!(s.contains(9));
    assert!(!s.contains(6));
}

#[test]
fn deletes_and_reports_whether_the_value_was_present() {
    let mut s = OrderedTiles::default();
    for t in [1, 2, 3] {
        s.insert(t);
    }
    assert!(s.contains(2));
    s.remove(2);
    assert!(!s.contains(2));
    s.remove(2);
    s.remove(99);
    assert_eq!(s.len(), 2);
    assert_eq!(s.iter(), vec![1, 3]);
}

#[test]
fn ordered_tiles_iterates_in_insertion_order() {
    let values = [42u32, 7, 100000, 0, 13];
    let mut s = OrderedTiles::default();
    for &v in &values {
        s.insert(v);
    }
    assert_eq!(s.iter(), values.to_vec());
    assert_eq!(s.as_slice(), values.as_slice());
}

#[test]
fn moves_a_value_to_the_end_on_delete_plus_re_add() {
    let mut s = OrderedTiles::default();
    for t in [1, 2, 3] {
        s.insert(t);
    }
    s.remove(1);
    s.insert(1);
    assert_eq!(s.iter(), vec![2, 3, 1]);
}

#[test]
fn re_adding_an_existing_value_does_not_change_its_position() {
    let mut s = OrderedTiles::default();
    for t in [1, 2, 3] {
        s.insert(t);
    }
    s.insert(1);
    assert_eq!(s.iter(), vec![1, 2, 3]);
}

#[test]
fn clear_empties_the_set() {
    let mut s = OrderedTiles::default();
    for t in [1, 2, 3] {
        s.insert(t);
    }
    s.clear();
    assert_eq!(s.len(), 0);
    assert!(!s.contains(1));
    assert_eq!(s.iter(), Vec::<u32>::new());
    s.insert(7);
    assert_eq!(s.iter(), vec![7]);
}

#[test]
fn handles_large_tile_refs_up_to_the_65535x65535_map_bound() {
    let big = 65535u32 * 65535 - 1;
    let mut s = OrderedTiles::default();
    for t in [big, 0, big - 1] {
        s.insert(t);
    }
    assert!(s.contains(big));
    assert_eq!(s.iter(), vec![big, 0, big - 1]);
}

#[test]
fn matches_reference_set_behavior_on_a_randomized_operation_sequence() {
    let mut random = PseudoRandom::new(12345);
    let mut tile_set = OrderedTiles::default();
    let mut reference: Vec<u32> = Vec::new();
    let mut reference_set: HashSet<u32> = HashSet::new();
    for op in 0..20_000 {
        let value = random.next_int(0, 500) as u32;
        if random.chance(3) {
            let was_present = reference_set.remove(&value);
            if was_present {
                reference.retain(|&v| v != value);
            }
            let had = tile_set.contains(value);
            tile_set.remove(value);
            assert_eq!(had, was_present, "op {op}: delete({value})");
        } else {
            if reference_set.insert(value) {
                reference.push(value);
            }
            tile_set.insert(value);
        }
        if op % 500 == 0 {
            assert_eq!(tile_set.len(), reference.len(), "op {op}: size");
            assert_eq!(tile_set.iter(), reference, "op {op}: order");
        }
    }
    assert_eq!(tile_set.iter(), reference);
    for v in 0..500u32 {
        assert_eq!(tile_set.contains(v), reference_set.contains(&v));
    }
}

#[test]
fn ordered_units_adds_reports_membership_and_size() {
    let mut s = OrderedUnitSet::default();
    assert_eq!(s.len(), 0);
    s.insert(5);
    s.insert(9);
    s.insert(5);
    assert_eq!(s.len(), 2);
    assert!(s.contains(5));
    assert!(s.contains(9));
    assert!(!s.contains(6));
}

#[test]
fn ordered_units_iterates_in_insertion_order() {
    let mut s = OrderedUnitSet::default();
    for v in [42, 7, -13, 0, 100000] {
        s.insert(v);
    }
    assert_eq!(s.iter(), vec![42, 7, -13, 0, 100000]);
}

#[test]
fn deletes_and_moves_a_re_added_value_to_the_end() {
    let mut s = OrderedUnitSet::default();
    for v in [1, 2, 3] {
        s.insert(v);
    }
    s.remove(2);
    assert!(!s.contains(2));
    assert_eq!(s.iter(), vec![1, 3]);
    s.insert(2);
    assert_eq!(s.iter(), vec![1, 3, 2]);
}

#[test]
fn removing_a_missing_value_is_a_no_op() {
    let mut s = OrderedUnitSet::default();
    s.insert(1);
    s.remove(99);
    assert_eq!(s.len(), 1);
    assert!(s.contains(1));
}

#[test]
fn dequeues_tiles_in_ascending_priority_order() {
    let mut heap = FlatBinaryHeap::new(16);
    for (tile, pri) in [(100u32, 5i64), (200, 1), (300, 3), (400, 2), (500, 4)] {
        heap.enqueue(tile, pri);
    }
    assert_eq!(heap.len(), 5);
    assert_eq!(heap.dequeue(), Some(200));
    assert_eq!(heap.dequeue(), Some(400));
    assert_eq!(heap.dequeue(), Some(300));
    assert_eq!(heap.dequeue(), Some(500));
    assert_eq!(heap.dequeue(), Some(100));
    assert_eq!(heap.len(), 0);
}

#[test]
fn dequeuing_an_empty_heap_returns_none() {
    let mut heap = FlatBinaryHeap::new(16);
    assert_eq!(heap.dequeue(), None);
}

#[test]
fn clear_empties_the_heap_without_breaking_subsequent_use() {
    let mut heap = FlatBinaryHeap::new(16);
    heap.enqueue(1, 1);
    heap.enqueue(2, 2);
    heap.clear();
    assert_eq!(heap.len(), 0);
    heap.enqueue(3, 3);
    assert_eq!(heap.dequeue(), Some(3));
}

#[test]
fn grows_past_its_initial_capacity_and_stays_ordered() {
    let mut heap = FlatBinaryHeap::new(4);
    let n: u32 = 1000;
    for i in 0..n {
        heap.enqueue(i, (n - i) as i64);
    }
    assert_eq!(heap.len(), n as usize);
    for i in 0..n {
        assert_eq!(heap.dequeue(), Some(n - 1 - i));
    }
}

#[test]
fn equal_priorities_break_ties_by_heap_structure_not_insertion_order() {
    let mut heap = FlatBinaryHeap::new(8);
    for tile in [10u32, 20, 30, 40] {
        heap.enqueue(tile, 1);
    }
    let mut out = Vec::new();
    while let Some(t) = heap.dequeue() {
        out.push(t);
    }
    assert_eq!(out, vec![10, 40, 30, 20]);
}
