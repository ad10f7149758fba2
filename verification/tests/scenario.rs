// The allocator behind the library is a process-wide singleton, so each test
// file holds a single test and runs in its own process.

use stable_array_list::StableArrayListInner;

#[test]
fn push_grow_insert_remove_scenario() {
    let (mut list, mut mem) = StableArrayListInner::new_with_memory(4).ok().unwrap();
    assert_eq!(list.len(), 0);
    assert_eq!(list.cap(), 4);

    list.push(2, &mut mem);
    list.push(4, &mut mem);
    list.push(6, &mut mem);
    list.push(8, &mut mem);
    assert_eq!(list.len(), 4);
    assert_eq!(list.cap(), 4);

    // Admitting a fifth element doubles the capacity and keeps the contents.
    list.push(13, &mut mem);
    assert_eq!(list.len(), 5);
    assert_eq!(list.cap(), 8);
    assert_eq!(list.to_vec(&mem), vec![2, 4, 6, 8, 13]);

    list.insert(99, 3, &mut mem);
    assert_eq!(list.len(), 6);
    assert_eq!(list.get(3, &mem), 99);
    assert_eq!(list.get(4, &mem), 8);
    assert_eq!(list.get(5, &mem), 13);

    let removed = list.remove(3, &mut mem);
    assert_eq!(removed, 99);
    assert_eq!(list.len(), 5);
    assert_eq!(list.to_vec(&mem), vec![2, 4, 6, 8, 13]);
}
