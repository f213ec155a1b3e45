use location_store::util::get_owner_node_id;

#[test]
fn owner_of_empty_id_is_zero() {
    assert_eq!(get_owner_node_id(String::new()), 0);
}

#[test]
fn owner_of_abc() {
    // 'a' % 7 = 6, 'b' % 7 = 0, 'c' % 7 = 1: 0 -> 6 -> 4 -> 6
    assert_eq!(get_owner_node_id("abc".to_string()), 6);
}
