// The allocator behind the library is a process-wide singleton, so each test
// file holds a single test and runs in its own process.

use stable_array_list::StableArrayListInner;

#[test]
fn second_memory_request_is_refused() {
    let (mut list, mut mem) = StableArrayListInner::new_with_memory(2).ok().unwrap();
    list.push(11, &mut mem);

    // The process's block memory is already claimed: a second request must
    // report that instead of aborting.
    assert!(StableArrayListInner::new_with_memory(2).is_err());

    // The refusal leaves the first list untouched and usable.
    assert_eq!(list.get(0, &mem), 11);
    list.push(22, &mut mem);
    assert_eq!(list.to_vec(&mem), vec![11, 22]);
}
