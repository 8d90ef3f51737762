use todo_store::store::{TodoError, TodoStore};

#[test]
fn empty_store_lists_nothing() {
    let s = TodoStore::new();
    assert_eq!(s.len(), 0);
    assert!(s.list().is_empty());
}

#[test]
fn adds_keep_insertion_order_with_distinct_ids() {
    let mut s = TodoStore::new();
    s.add(String::from("one"));
    s.add(String::from("two"));
    s.add(String::from("three"));
    let items = s.list();
    assert_eq!(items.len(), 3);
    assert_eq!(items[0].todos, "one");
    assert_eq!(items[1].todos, "two");
    assert_eq!(items[2].todos, "three");
    for (i, item) in items.iter().enumerate() {
        assert_eq!(item.id, (i + 1) as u32);
        assert!(!item.complete);
    }
    for i in 0..items.len() {
        for j in 0..items.len() {
            if i != j {
                assert_ne!(items[i].id, items[j].id);
            }
        }
    }
}

#[test]
fn add_assigns_length_plus_one_even_after_removal() {
    let mut s = TodoStore::new();
    s.add(String::from("a"));
    assert_eq!(s.list()[0].id, 1);
    s.add(String::from("b"));
    assert_eq!(s.list()[1].id, 2);
    assert_eq!(s.remove(1), Ok(()));
    s.add(String::from("c"));
    let items = s.list();
    assert_eq!(items.len(), 2);
    // the length-derived policy reuses id 2, which "b" still carries
    assert_eq!(items[0].todos, "b");
    assert_eq!(items[0].id, 2);
    assert_eq!(items[1].todos, "c");
    assert_eq!(items[1].id, 2);
}

#[test]
fn toggle_flips_and_double_toggle_restores() {
    let mut s = TodoStore::new();
    s.add(String::from("task"));
    assert!(!s.list()[0].complete);
    assert_eq!(s.toggle(1), Ok(()));
    assert!(s.list()[0].complete);
    assert_eq!(s.toggle(1), Ok(()));
    assert!(!s.list()[0].complete);
    let items = s.list();
    assert_eq!(items.len(), 1);
    assert_eq!(items[0].id, 1);
    assert_eq!(items[0].todos, "task");
}

#[test]
fn toggle_missing_id_is_not_found_and_changes_nothing() {
    let mut s = TodoStore::new();
    s.add(String::from("a"));
    s.add(String::from("b"));
    assert_eq!(s.toggle(5), Err(TodoError::NotFound));
    let items = s.list();
    assert_eq!(items.len(), 2);
    assert_eq!(items[0].id, 1);
    assert_eq!(items[0].todos, "a");
    assert!(!items[0].complete);
    assert_eq!(items[1].id, 2);
    assert_eq!(items[1].todos, "b");
    assert!(!items[1].complete);
}

#[test]
fn remove_missing_id_is_not_found_and_changes_nothing() {
    let mut s = TodoStore::new();
    s.add(String::from("a"));
    assert_eq!(s.remove(9), Err(TodoError::NotFound));
    let items = s.list();
    assert_eq!(items.len(), 1);
    assert_eq!(items[0].id, 1);
    assert_eq!(items[0].todos, "a");
    assert!(!items[0].complete);
}

#[test]
fn remove_on_empty_store_is_not_found() {
    let mut s = TodoStore::new();
    assert_eq!(s.remove(1), Err(TodoError::NotFound));
    assert_eq!(s.len(), 0);
}

#[test]
fn remove_drops_exactly_one_and_id_disappears() {
    let mut s = TodoStore::new();
    s.add(String::from("a"));
    s.add(String::from("b"));
    s.add(String::from("c"));
    assert_eq!(s.remove(2), Ok(()));
    let items = s.list();
    assert_eq!(items.len(), 2);
    assert!(items.iter().all(|t| t.id != 2));
    assert_eq!(items[0].todos, "a");
    assert_eq!(items[1].todos, "c");
}

#[test]
fn remove_takes_first_item_carrying_a_duplicated_id() {
    let mut s = TodoStore::new();
    s.add(String::from("a"));
    s.add(String::from("b"));
    assert_eq!(s.remove(1), Ok(()));
    s.add(String::from("c"));
    // ids are now [2, 2]; removing id 2 takes "b", the first carrier
    assert_eq!(s.remove(2), Ok(()));
    let items = s.list();
    assert_eq!(items.len(), 1);
    assert_eq!(items[0].todos, "c");
    assert_eq!(items[0].id, 2);
}

#[test]
fn position_of_finds_first_match() {
    let mut s = TodoStore::new();
    s.add(String::from("a"));
    s.add(String::from("b"));
    assert_eq!(s.position_of(2), Some(1));
    assert_eq!(s.position_of(3), None);
}

#[test]
fn list_is_a_snapshot() {
    let mut s = TodoStore::new();
    s.add(String::from("a"));
    let before = s.list();
    assert_eq!(s.toggle(1), Ok(()));
    assert_eq!(s.remove(1), Ok(()));
    assert_eq!(before.len(), 1);
    assert_eq!(before[0].id, 1);
    assert_eq!(before[0].todos, "a");
    assert!(!before[0].complete);
}

#[test]
fn full_session_matches_the_http_flow() {
    // what a client sees through the handlers, at the store's level
    let mut s = TodoStore::new();
    assert!(s.list().is_empty());
    s.add(String::from("buy milk"));
    let items = s.list();
    assert_eq!(items.len(), 1);
    assert_eq!(items[0].id, 1);
    assert_eq!(items[0].todos, "buy milk");
    assert!(!items[0].complete);
    assert_eq!(s.toggle(1), Ok(()));
    assert!(s.list()[0].complete);
    assert_eq!(s.remove(1), Ok(()));
    assert!(s.list().is_empty());
    assert_eq!(s.remove(1), Err(TodoError::NotFound));
}
