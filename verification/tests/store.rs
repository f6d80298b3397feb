use todo_store::{TodoError, TodoItem, TodoList, TITLE_MAX_LEN};

fn plain_item(id: u32, title: &str) -> TodoItem {
    TodoItem {
        id,
        title: String::from(title),
        completed: false,
        created_at: 0,
        updated_at: None,
    }
}

#[test]
fn add_creates_item() {
    let mut list = TodoList::new();
    let created = list.add_item("첫 번째 할 일").unwrap();

    assert_eq!(created.id, 1);
    assert_eq!(list.items.len(), 1);
    assert!(!created.completed);
}

#[test]
fn toggle_updates_state() {
    let mut list = TodoList::new();
    list.add_item("테스트").unwrap();
    assert!(list.toggle(1));
    assert!(list.items[0].completed);
    assert!(list.toggle(1));
    assert!(!list.items[0].completed);
}

#[test]
fn remove_deletes_item() {
    let mut list = TodoList::new();
    list.add_item("테스트").unwrap();
    assert!(list.remove(1));
    assert!(list.items.is_empty());
}

#[test]
fn hydrate_restores_items() {
    let mut list = TodoList::new();
    list.add_item("테스트").unwrap();
    let snapshot = list.items.clone();

    let mut hydrated = TodoList::new();
    hydrated.hydrate_items(snapshot);

    assert_eq!(hydrated.items.len(), 1);
    assert_eq!(hydrated.next_id, 2);
}

#[test]
fn add_rejects_whitespace_only_and_leaves_store_unchanged() {
    let mut list = TodoList::new();
    list.add_item("keep me").unwrap();
    let result = list.add_item(" \t\n\u{00A0}\u{3000} ");
    assert_eq!(result, Err(TodoError::EmptyTitle));
    assert_eq!(list.items.len(), 1);
    assert_eq!(list.next_id, 2);
}

#[test]
fn add_rejects_long_title_and_leaves_store_unchanged() {
    let mut list = TodoList::new();
    let long = format!("  {}  ", "b".repeat(TITLE_MAX_LEN + 1));
    let result = list.add_item(&long);
    assert_eq!(result, Err(TodoError::TooLong));
    assert!(list.items.is_empty());
    assert_eq!(list.next_id, 1);
}

#[test]
fn add_accepts_title_at_maximum_length() {
    let mut list = TodoList::new();
    let exact = "c".repeat(TITLE_MAX_LEN);
    let created = list.add_item(&exact).unwrap();
    assert_eq!(created.title, exact);
}

#[test]
fn add_trims_and_assigns_first_id() {
    let mut list = TodoList::new();
    let created = list.add_item("  Buy milk  ").unwrap();
    assert_eq!(created.id, 1);
    assert_eq!(created.title, "Buy milk");
    assert!(!created.completed);
    assert_eq!(created.updated_at, None);
    assert_eq!(list.items.len(), 1);
}

#[test]
fn add_item_at_records_given_timestamp() {
    let mut list = TodoList::new();
    let created = list.add_item_at("clocked", 12345).unwrap();
    assert_eq!(created.created_at, 12345);
    assert_eq!(created.updated_at, None);
}

#[test]
fn items_come_back_newest_first() {
    let mut list = TodoList::new();
    list.add_item("Buy milk").unwrap();
    list.add_item("Walk dog").unwrap();
    let items = list.snapshot();
    assert_eq!(items.len(), 2);
    assert_eq!(items[0].id, 2);
    assert_eq!(items[0].title, "Walk dog");
    assert_eq!(items[1].id, 1);
    assert_eq!(items[1].title, "Buy milk");
}

#[test]
fn double_toggle_restores_completed_and_keeps_second_time() {
    let mut list = TodoList::new();
    list.add_item_at("flip me", 10).unwrap();
    assert!(list.toggle_at(1, 20));
    assert!(list.items[0].completed);
    assert_eq!(list.items[0].updated_at, Some(20));
    assert!(list.toggle_at(1, 30));
    assert!(!list.items[0].completed);
    assert_eq!(list.items[0].updated_at, Some(30));
    assert_eq!(list.items[0].created_at, 10);
}

#[test]
fn toggle_on_empty_store_reports_absence() {
    let mut list = TodoList::new();
    assert!(!list.toggle(1));
    assert!(list.items.is_empty());
    assert_eq!(list.next_id, 1);
}

#[test]
fn remove_then_empty() {
    let mut list = TodoList::new();
    list.add_item("X").unwrap();
    assert!(list.remove(1));
    assert!(list.snapshot().is_empty());
}

#[test]
fn remove_unknown_id_reports_absence() {
    let mut list = TodoList::new();
    list.add_item("stay").unwrap();
    assert!(!list.remove(42));
    assert_eq!(list.items.len(), 1);
}

#[test]
fn hydrate_recomputes_next_id_from_largest() {
    let mut list = TodoList::new();
    list.hydrate_items(vec![plain_item(3, "three"), plain_item(7, "seven"), plain_item(1, "one")]);
    assert_eq!(list.next_id, 8);
    let created = list.add_item("eighth").unwrap();
    assert_eq!(created.id, 8);
}

#[test]
fn hydrate_empty_resets_next_id() {
    let mut list = TodoList::new();
    list.add_item("soon gone").unwrap();
    list.hydrate_items(Vec::new());
    assert!(list.items.is_empty());
    let created = list.add_item("first again").unwrap();
    assert_eq!(created.id, 1);
}

#[test]
fn hydrate_keeps_snapshot_verbatim() {
    let mut list = TodoList::new();
    let mut old = plain_item(2, "  untrimmed kept  ");
    old.completed = true;
    old.updated_at = Some(99);
    list.hydrate_items(vec![old.clone()]);
    assert_eq!(list.items.len(), 1);
    assert_eq!(list.items[0], old);
}

#[test]
fn toggle_flips_only_first_match_among_duplicates() {
    let mut list = TodoList::new();
    list.hydrate_items(vec![plain_item(1, "first"), plain_item(1, "second")]);
    assert!(list.toggle_at(1, 5));
    assert!(list.items[0].completed);
    assert!(!list.items[1].completed);
}

#[test]
fn snapshot_returns_independent_copies() {
    let mut list = TodoList::new();
    list.add_item("kept").unwrap();
    let mut copy = list.snapshot();
    copy[0].title = String::from("scribbled");
    copy.clear();
    assert_eq!(list.items.len(), 1);
    assert_eq!(list.items[0].title, "kept");
}

#[test]
fn error_messages_name_each_failure() {
    assert_eq!(TodoError::EmptyTitle.message(), "할 일 제목을 입력해주세요.");
    assert_eq!(TodoError::TooLong.message(), "제목은 128자 이하여야 합니다.");
}
