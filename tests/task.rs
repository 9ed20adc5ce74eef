use tasker::components::{QuickInput, QuickSelect, TaskList};
use tasker::task::{Filter, Status, TaskStore};
use tasker::tasker::AppData;

#[test]
fn new_tasks_get_consecutive_ids() {
    let mut store = TaskStore::default();
    let a = store.new_task().id;
    let b = store.new_task().id;
    assert_eq!(a.id(), 1);
    assert_eq!(b.id(), 2);
    let t = store.get_task(b);
    assert_eq!(t.title, "");
    assert_eq!(t.description, "");
    assert_eq!(t.status, Status::Todo);
    assert_eq!(t.pomodoros, 0);
    assert!(t.links.is_empty());
}

#[test]
fn edits_through_get_task_mut_stay() {
    let mut store = TaskStore::default();
    let a = store.new_task().id;
    store.new_task().title = "second".to_string();
    store.get_task_mut(a).title = "first".to_string();
    assert_eq!(store.get_task(a).title, "first");
}

#[test]
fn toggle_flips_the_status() {
    let mut store = TaskStore::default();
    let t = store.new_task();
    assert_eq!(t.toggle_status(), Status::Done);
    assert_eq!(t.status, Status::Done);
    assert_eq!(t.toggle_status(), Status::Todo);
}

fn sample_store() -> TaskStore {
    let mut store = TaskStore::default();
    for title in ["buy milk", "write report", "milkshake", "call mum"] {
        store.new_task().title = title.to_string();
    }
    let third = store.new_task();
    third.title = "mill".to_string();
    third.toggle_status();
    store
}

#[test]
fn filter_by_title_keeps_order_of_creation() {
    let store = sample_store();
    let filter = Filter {
        title: "milk".to_string(),
        status: None,
    };
    let ids: Vec<u64> = filter.apply(&store).iter().map(|i| i.id()).collect();
    assert_eq!(ids, vec![1, 3]);
}

#[test]
fn filter_by_status() {
    let mut store = sample_store();
    store.new_task().title = "milk again".to_string();
    let done = Filter {
        title: "mil".to_string(),
        status: Some(Status::Done),
    };
    let ids: Vec<u64> = done.apply(&store).iter().map(|i| i.id()).collect();
    assert_eq!(ids, vec![5]);
    let todo = Filter {
        title: "mil".to_string(),
        status: Some(Status::Todo),
    };
    let ids: Vec<u64> = todo.apply(&store).iter().map(|i| i.id()).collect();
    assert_eq!(ids, vec![1, 3, 6]);
}

#[test]
fn empty_filter_lets_everything_through() {
    let store = sample_store();
    assert_eq!(Filter::default().apply(&store).len(), 5);
    assert!(Filter::default().apply(&TaskStore::default()).is_empty());
}

#[test]
fn filter_title_longer_than_any_task() {
    let store = sample_store();
    let filter = Filter {
        title: "write report twice over".to_string(),
        status: None,
    };
    assert!(filter.apply(&store).is_empty());
}

#[test]
fn task_list_selection_and_filter() {
    let mut data = AppData::default();
    for title in ["a", "b", "ab"] {
        data.store.new_task().title = title.to_string();
    }
    let mut list = TaskList::default().title("Tasks");
    assert_eq!(list.title.as_deref(), Some("Tasks"));
    assert_eq!(list.selection(), None);
    let filter = Filter {
        title: "b".to_string(),
        status: None,
    };
    list.selection = 5;
    list.apply_filter(&data, &filter);
    assert_eq!(list.selection, 0);
    assert_eq!(list.selection().map(|i| i.id()), Some(2));
    list.selection = 1;
    assert_eq!(list.selection().map(|i| i.id()), Some(3));
    list.selection = 2;
    assert_eq!(list.selection(), None);
}

#[test]
fn quick_input_cursor_counts_graphemes() {
    let input = QuickInput::new("Title").text("e\u{301}a".to_string());
    // "e" with a combining accent is one cluster: 2 + "Title" + ": ".
    assert_eq!(input.cursor_column(), 9);
    assert_eq!(QuickInput::new("Search").cursor_column(), 8);
    assert_eq!(input.column_after(65535), 6);
}

#[test]
fn quick_select_appends_choices() {
    let select = QuickSelect::new("Filter")
        .choices(vec![('t', "Title".to_string())])
        .choices(vec![('d', "Todo".to_string()), ('D', "Done".to_string())]);
    assert_eq!(select.title, "Filter");
    let keys: Vec<char> = select.choices.iter().map(|c| c.0).collect();
    assert_eq!(keys, vec!['t', 'd', 'D']);
}
