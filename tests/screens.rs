use tasker::automaton::Machine;
use tasker::state::{NormalState, Screen};
use tasker::task::Status;
use tasker::tasker::{Action, Key, Pane, Tasker};

fn start() -> (Machine<Screen>, Tasker) {
    (Machine::new(Screen::Normal(NormalState)), Tasker::default())
}

fn press(m: &mut Machine<Screen>, t: &mut Tasker, k: Key) {
    m.act(t, Action::Key(k)).unwrap();
}

fn type_text(m: &mut Machine<Screen>, t: &mut Tasker, s: &str) {
    for c in s.chars() {
        press(m, t, Key::Char(c));
    }
}

fn ids(list: &[tasker::task::TaskId]) -> Vec<u64> {
    list.iter().map(|i| i.id()).collect()
}

#[test]
fn create_a_task_through_the_title_prompt() {
    let (mut m, mut t) = start();
    press(&mut m, &mut t, Key::Char('n'));
    assert_eq!(m.depth(), 2);
    assert!(matches!(m.active(), Screen::QuickInput(_)));
    assert_eq!(t.quick_input.as_ref().unwrap().title, "Title");
    type_text(&mut m, &mut t, "milkk");
    press(&mut m, &mut t, Key::Backspace);
    assert_eq!(t.quick_input.as_ref().unwrap().text, "milk");
    press(&mut m, &mut t, Key::Enter);
    assert_eq!(m.depth(), 0);
    assert!(matches!(m.active(), Screen::Normal(_)));
    assert!(t.quick_input.is_none());
    assert_eq!(t.data.store.len(), 1);
    assert_eq!(ids(&t.tasklist.tasks), vec![1]);
    assert_eq!(t.tasklist.selection, 0);
    let id = t.tasklist.selection().unwrap();
    assert_eq!(t.data.store.get_task(id).title, "milk");
}

#[test]
fn escape_closes_the_prompt_without_a_task() {
    let (mut m, mut t) = start();
    press(&mut m, &mut t, Key::Char('n'));
    type_text(&mut m, &mut t, "x");
    press(&mut m, &mut t, Key::Esc);
    assert_eq!(m.depth(), 0);
    assert!(t.quick_input.is_none());
    assert_eq!(t.data.store.len(), 0);
}

#[test]
fn quick_tasks_are_titled_with_their_number() {
    let (mut m, mut t) = start();
    press(&mut m, &mut t, Key::Char('m'));
    press(&mut m, &mut t, Key::Char('m'));
    assert_eq!(ids(&t.tasklist.tasks), vec![1, 2]);
    assert_eq!(t.tasklist.selection, 1);
    let second = t.tasklist.selection().unwrap();
    assert_eq!(t.data.store.get_task(second).title, "2");
    press(&mut m, &mut t, Key::Up);
    press(&mut m, &mut t, Key::Up);
    assert_eq!(t.tasklist.selection, 0);
    press(&mut m, &mut t, Key::Down);
    press(&mut m, &mut t, Key::Down);
    assert_eq!(t.tasklist.selection, 1);
}

#[test]
fn space_toggles_the_selected_task() {
    let (mut m, mut t) = start();
    press(&mut m, &mut t, Key::Char('m'));
    press(&mut m, &mut t, Key::Char(' '));
    let id = t.tasklist.selection().unwrap();
    assert_eq!(t.data.store.get_task(id).status, Status::Done);
    press(&mut m, &mut t, Key::Char(' '));
    assert_eq!(t.data.store.get_task(id).status, Status::Todo);
}

#[test]
fn filter_by_title_follows_the_typing() {
    let (mut m, mut t) = start();
    for title in ["apple", "banana", "cherry"] {
        press(&mut m, &mut t, Key::Char('n'));
        type_text(&mut m, &mut t, title);
        press(&mut m, &mut t, Key::Enter);
    }
    press(&mut m, &mut t, Key::Char('f'));
    assert_eq!(m.depth(), 2);
    assert!(matches!(m.active(), Screen::QuickSelect(_)));
    press(&mut m, &mut t, Key::Char('t'));
    assert_eq!(m.depth(), 2);
    assert!(matches!(m.active(), Screen::QuickInput(_)));
    assert!(t.quick_select.is_none());
    press(&mut m, &mut t, Key::Char('a'));
    assert_eq!(t.filter.title, "a");
    assert_eq!(ids(&t.tasklist.tasks), vec![1, 2]);
    press(&mut m, &mut t, Key::Char('n'));
    assert_eq!(ids(&t.tasklist.tasks), vec![2]);
    press(&mut m, &mut t, Key::Enter);
    assert_eq!(m.depth(), 0);
    assert_eq!(t.filter.title, "an");
}

#[test]
fn filter_by_status_and_clear() {
    let (mut m, mut t) = start();
    press(&mut m, &mut t, Key::Char('m'));
    press(&mut m, &mut t, Key::Char('m'));
    press(&mut m, &mut t, Key::Char(' '));
    press(&mut m, &mut t, Key::Char('f'));
    press(&mut m, &mut t, Key::Char('D'));
    assert_eq!(m.depth(), 0);
    assert_eq!(t.filter.status, Some(Status::Done));
    assert_eq!(ids(&t.tasklist.tasks), vec![2]);
    press(&mut m, &mut t, Key::Char('f'));
    press(&mut m, &mut t, Key::Char('d'));
    assert_eq!(ids(&t.tasklist.tasks), vec![1]);
    press(&mut m, &mut t, Key::Char('f'));
    press(&mut m, &mut t, Key::Char('c'));
    assert_eq!(t.filter.status, None);
    assert_eq!(ids(&t.tasklist.tasks), vec![1, 2]);
}

#[test]
fn pomodoro_credits_the_task_once() {
    let (mut m, mut t) = start();
    press(&mut m, &mut t, Key::Char('m'));
    t.now = 100;
    press(&mut m, &mut t, Key::Char('p'));
    press(&mut m, &mut t, Key::Char('p'));
    assert_eq!(m.depth(), 0);
    let timer = t.timer.as_ref().unwrap();
    assert_eq!(timer.title, "WORK");
    assert_eq!(timer.ends_at, 1600);
    t.now = 1599;
    assert!(!t.update());
    t.now = 1600;
    assert!(t.update());
    assert!(!t.update());
    let id = t.tasklist.selection().unwrap();
    assert_eq!(t.data.store.get_task(id).pomodoros, 1);
    press(&mut m, &mut t, Key::Char('p'));
    press(&mut m, &mut t, Key::Char('c'));
    assert!(t.timer.is_none());
}

#[test]
fn break_timer_credits_nothing() {
    let (mut m, mut t) = start();
    press(&mut m, &mut t, Key::Char('m'));
    press(&mut m, &mut t, Key::Char('p'));
    press(&mut m, &mut t, Key::Char('B'));
    let timer = t.timer.as_ref().unwrap();
    assert_eq!(timer.title, "BREAK");
    assert_eq!(timer.ends_at, 600);
    t.now = 600;
    assert!(t.update());
    let id = t.tasklist.selection().unwrap();
    assert_eq!(t.data.store.get_task(id).pomodoros, 0);
}

#[test]
fn open_a_task_and_link_another() {
    let (mut m, mut t) = start();
    press(&mut m, &mut t, Key::Char('m'));
    press(&mut m, &mut t, Key::Char('m'));
    press(&mut m, &mut t, Key::Enter);
    assert_eq!(m.depth(), 0);
    assert!(matches!(m.active(), Screen::OneTask(_)));
    match &t.pane {
        Pane::OneTask(view) => assert_eq!(view.task_id.id(), 2),
        Pane::Main => panic!("the task is not shown"),
    }
    press(&mut m, &mut t, Key::Char('l'));
    assert_eq!(m.depth(), 2);
    assert_eq!(ids(&t.search.as_ref().unwrap().list.tasks), vec![1, 2]);
    type_text(&mut m, &mut t, "1");
    assert_eq!(ids(&t.search.as_ref().unwrap().list.tasks), vec![1]);
    press(&mut m, &mut t, Key::Enter);
    assert_eq!(m.depth(), 0);
    assert!(t.search.is_none());
    assert!(t.quick_input.is_none());
    let first = t.tasklist.tasks[0];
    let second = t.tasklist.tasks[1];
    assert_eq!(ids(&t.data.store.get_task(second).links), vec![1]);
    assert_eq!(ids(&t.data.store.get_task(first).links), vec![2]);
    match &t.pane {
        Pane::OneTask(view) => assert_eq!(ids(&view.link_list.tasks), vec![1]),
        Pane::Main => panic!("the task is not shown"),
    }
    // Enter on the link opens the linked task; escape goes back to the list.
    press(&mut m, &mut t, Key::Enter);
    match &t.pane {
        Pane::OneTask(view) => assert_eq!(view.task_id.id(), 1),
        Pane::Main => panic!("the task is not shown"),
    }
    press(&mut m, &mut t, Key::Esc);
    assert!(matches!(t.pane, Pane::Main));
    assert!(matches!(m.active(), Screen::Normal(_)));
}

#[test]
fn edit_the_description() {
    let (mut m, mut t) = start();
    press(&mut m, &mut t, Key::Char('m'));
    press(&mut m, &mut t, Key::Char('e'));
    assert_eq!(t.quick_input.as_ref().unwrap().title, "Description");
    type_text(&mut m, &mut t, "first");
    press(&mut m, &mut t, Key::Enter);
    press(&mut m, &mut t, Key::Char('e'));
    assert_eq!(t.quick_input.as_ref().unwrap().text, "first");
    type_text(&mut m, &mut t, "!");
    press(&mut m, &mut t, Key::Enter);
    let id = t.tasklist.selection().unwrap();
    assert_eq!(t.data.store.get_task(id).description, "first!");
}

#[test]
fn search_escape_picks_nothing() {
    let (mut m, mut t) = start();
    press(&mut m, &mut t, Key::Char('m'));
    press(&mut m, &mut t, Key::Enter);
    press(&mut m, &mut t, Key::Char('l'));
    press(&mut m, &mut t, Key::Esc);
    assert_eq!(m.depth(), 0);
    let id = t.tasklist.tasks[0];
    assert!(t.data.store.get_task(id).links.is_empty());
}

#[test]
fn quick_task_numbers_have_several_digits() {
    let (mut m, mut t) = start();
    for _ in 0..10 {
        press(&mut m, &mut t, Key::Char('m'));
    }
    let id = t.tasklist.selection().unwrap();
    assert_eq!(id.id(), 10);
    assert_eq!(t.data.store.get_task(id).title, "10");
}
