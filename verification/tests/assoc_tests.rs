use voice_service::assoc::{find, insert_exec, remove_exec};

#[test]
fn insert_replaces_in_place_or_appends() {
    let mut v: Vec<(u64, &str)> = Vec::new();
    insert_exec(&mut v, 3, "a");
    insert_exec(&mut v, 5, "b");
    insert_exec(&mut v, 3, "c");
    assert_eq!(v, vec![(3, "c"), (5, "b")]);
    assert_eq!(find(&v, &5), Some(1));
    assert_eq!(find(&v, &7), None);
}

#[test]
fn remove_keeps_the_order_of_the_others() {
    let mut v: Vec<((u32, u32, u32), u64)> = vec![((0, 0, 0), 1), ((0, 1, 0), 2), ((1, 0, 0), 3)];
    remove_exec(&mut v, (0, 1, 0));
    assert_eq!(v, vec![((0, 0, 0), 1), ((1, 0, 0), 3)]);
    remove_exec(&mut v, (9, 9, 9));
    assert_eq!(v.len(), 2);
}
