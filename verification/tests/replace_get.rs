// The allocator behind the library is a process-wide singleton, so each test
// file holds a single test and runs in its own process.

use stable_array_list::StableArrayListInner;

#[test]
fn replace_overwrites_only_its_slot() {
    let (mut list, mut mem) = StableArrayListInner::new_with_memory(3).ok().unwrap();
    list.push(5, &mut mem);
    list.push(6, &mut mem);
    list.push(7, &mut mem);

    list.replace(60, 1, &mut mem);
    assert_eq!(list.get(0, &mem), 5);
    assert_eq!(list.get(1, &mem), 60);
    assert_eq!(list.get(2, &mem), 7);
    assert_eq!(list.len(), 3);
    assert_eq!(list.cap(), 3);

    // A value equal to the sentinel word is an ordinary element.
    list.replace(u64::MAX, 2, &mut mem);
    assert_eq!(list.get(2, &mem), u64::MAX);
    assert_eq!(list.to_vec(&mem), vec![5, 60, u64::MAX]);

    // Iteration yields the elements in index order and then ends.
    let mut it = list.iter();
    assert_eq!(list.iter_next(&mut it, &mem), Some(5));
    assert_eq!(list.iter_next(&mut it, &mem), Some(60));
    assert_eq!(list.iter_next(&mut it, &mem), Some(u64::MAX));
    assert_eq!(list.iter_next(&mut it, &mem), None);
    assert_eq!(list.iter_next(&mut it, &mem), None);

    // Removing at the front and at the back.
    assert_eq!(list.remove(0, &mut mem), 5);
    assert_eq!(list.remove(1, &mut mem), u64::MAX);
    assert_eq!(list.to_vec(&mem), vec![60]);
}
