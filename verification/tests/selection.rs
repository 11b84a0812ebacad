use create_systemd_service::statefullist::NoSelection;
use create_systemd_service::statefullist::StatefulList;

#[test]
fn starts_on_first_item() {
    let list = StatefulList::with_items(vec![10, 20, 30]);
    assert_eq!(list.cursor, Some(0));
    assert_eq!(list.selected(), Ok(&10));
}

#[test]
fn next_never_passes_the_last_index() {
    let mut list = StatefulList::with_items(vec![1, 2, 3]);
    for _ in 0..5 {
        list.next();
        assert!(list.cursor.unwrap() <= 2);
    }
    assert_eq!(list.cursor, Some(2));
    assert_eq!(list.selected(), Ok(&3));
}

#[test]
fn previous_never_passes_index_zero() {
    let mut list = StatefulList::with_items(vec![1, 2, 3]);
    list.next();
    list.next();
    for _ in 0..5 {
        list.previous();
        assert!(list.cursor.is_some());
    }
    assert_eq!(list.cursor, Some(0));
    assert_eq!(list.selected(), Ok(&1));
}

#[test]
fn empty_list_has_no_selection() {
    let mut list: StatefulList<u32> = StatefulList::with_items(Vec::new());
    assert_eq!(list.cursor, None);
    list.next();
    list.previous();
    assert_eq!(list.cursor, None);
    assert_eq!(list.selected(), Err(NoSelection));
}

#[test]
fn moves_are_deterministic() {
    let drive = || {
        let mut list = StatefulList::with_items(vec!["a", "b", "c", "d"]);
        list.next();
        list.next();
        list.previous();
        list.next();
        list.cursor
    };
    assert_eq!(drive(), drive());
    assert_eq!(drive(), Some(2));
}
