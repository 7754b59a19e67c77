use collect_me::list::SkipList;

#[test]
fn skip_list_new_and_insert() {
    let mut list: SkipList<i32, 8> = SkipList::new();
    list.insert(3);
    list.insert(1);
    list.insert(2);
}
