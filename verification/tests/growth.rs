// The allocator behind the library is a process-wide singleton, so each test
// file holds a single test and runs in its own process.

use stable_array_list::StableArrayListInner;

#[test]
fn growth_doubles_and_preserves_contents() {
    // The degenerate empty capacity grows to one slot, then doubles.
    let (mut list, mut mem) = StableArrayListInner::new_with_memory(0).ok().unwrap();
    assert_eq!(list.cap(), 0);

    let mut expected = Vec::new();
    for v in 0..9u64 {
        list.push(v * 3 + 1, &mut mem);
        expected.push(v * 3 + 1);
        // Every element written before any growth is still there after it.
        assert_eq!(list.to_vec(&mem), expected);
        assert!(list.cap() >= list.len());
    }
    // Capacity moved only through the doubling chain 0, 1, 2, 4, 8, 16.
    assert_eq!(list.cap(), 16);
    assert_eq!(list.len(), 9);

    // Length counts pushes minus removes.
    list.remove(0, &mut mem);
    list.remove(3, &mut mem);
    assert_eq!(list.len(), 7);
    assert_eq!(list.cap(), 16);
    expected.remove(0);
    expected.remove(3);
    assert_eq!(list.to_vec(&mem), expected);
}
