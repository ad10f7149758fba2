// The allocator behind the library is a process-wide singleton, so each test
// file holds a single test and runs in its own process.

use stable_array_list::StableArrayListInner;

#[test]
fn insert_shifts_right_and_remove_restores() {
    let (mut list, mut mem) = StableArrayListInner::new_with_memory(8).ok().unwrap();
    for v in [10, 20, 30, 40, 50, 60] {
        list.push(v, &mut mem);
    }
    let before = list.to_vec(&mem);

    // Insert in the middle: everything before the index stays, everything
    // from the index on reappears exactly one slot higher.
    list.insert(77, 2, &mut mem);
    assert_eq!(list.len(), 7);
    assert_eq!(list.get(0, &mem), 10);
    assert_eq!(list.get(1, &mem), 20);
    assert_eq!(list.get(2, &mem), 77);
    assert_eq!(list.get(3, &mem), 30);
    assert_eq!(list.get(4, &mem), 40);
    assert_eq!(list.get(5, &mem), 50);
    assert_eq!(list.get(6, &mem), 60);

    // Removing at the same index restores the pre-insert state exactly.
    let removed = list.remove(2, &mut mem);
    assert_eq!(removed, 77);
    assert_eq!(list.to_vec(&mem), before);

    // Inserting at the length appends, like push.
    list.insert(70, 6, &mut mem);
    assert_eq!(list.to_vec(&mem), vec![10, 20, 30, 40, 50, 60, 70]);
}
