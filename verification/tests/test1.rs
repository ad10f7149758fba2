// The allocator behind the library is a process-wide singleton, so each test
// file holds a single test and runs in its own process.

use stable_array_list::StableArrayListInner;

#[test]
fn test1() {
    let (mut array_list, mut mem) = StableArrayListInner::new_with_memory(4).ok().unwrap();

    array_list.push(2, &mut mem);
    array_list.push(4, &mut mem);
    array_list.push(6, &mut mem);
    array_list.push(8, &mut mem);

    array_list.push(13, &mut mem);
    array_list.push(1001, &mut mem);

    for i in 0..array_list.len() {
        let x = array_list.get(i, &mem);
        println!("[{}] {}", i, x);
    }
}
