use deet::list::LinkedList;

#[test]
fn test_empty() {
    let mut list = LinkedList::new();
    assert_eq!(list.size(), 0);
    assert_eq!(list.empty(), true);
    assert_eq!(list.pop_front(), None);
}

#[test]
fn test_front() {
    let mut list = LinkedList::new();
    list.push_front(1);
    list.push_front(1);
    list.push_front(4);

    assert_eq!(list.size(), 3);
    assert_eq!(list.empty(), false);

    assert_eq!(list.pop_front(), Some(4));
    assert_eq!(list.pop_front(), Some(1));
    assert_eq!(list.pop_front(), Some(1));
    assert_eq!(list.pop_front(), None);

    assert_eq!(list.size(), 0);
    assert_eq!(list.empty(), true);
}

#[test]
fn default_list_is_empty() {
    let list: LinkedList = Default::default();
    assert!(list.empty());
    assert_eq!(list.size(), 0);
}
