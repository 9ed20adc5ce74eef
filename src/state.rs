//! The application's units of behaviour, as one type for the machine: the
//! main list, the view of one task, and the short-lived units that ask for
//! a value through a prompt and act on it.
use crate::automaton::{ActResult, PrivilegedActResult, State};
use crate::components::{moved, TaskView};
use crate::dialogs::{QuickInputState, QuickSelectState, SearchTaskState};
use crate::task::{toggled, Filter, Status, Task, TaskId};
use crate::text::{decimal, is_text, to_decimal};
use crate::tasker::{Action, Key, Pane, Tasker, Timer};
use vstd::prelude::*;

verus! {

/// The main list of tasks.
pub struct NormalState;

/// The view of one task, with its links.
pub struct OneTaskState(pub TaskId);

/// Links the task to one that the user searches for.
pub struct AddLinkState(pub TaskId);

/// Creates a task with the title that the user types.
pub struct QuickCreateState;

/// Sets the description of the task to the text that the user types.
pub struct SetDescriptionState(pub TaskId);

/// Changes the filter of the main list, as the user chooses.
pub struct SetFilterState;

/// Filters the main list by the title that the user types, as it is typed.
pub struct SetFilterTitleState;

/// Starts or clears a pomodoro timer for the task, as the user chooses.
pub struct SetPomodoroState(pub TaskId);

/// What a unit hands to its parent.
pub enum Reply {
    /// Nothing but that it is done.
    Done,
    /// A task that was picked, if any.
    Picked(Option<TaskId>),
    /// A text that was entered or chosen, if any.
    Text(Option<String>),
}

/// Every unit of the application.
pub enum Screen {
    Normal(NormalState),
    OneTask(OneTaskState),
    AddLink(AddLinkState),
    QuickCreate(QuickCreateState),
    SetDescription(SetDescriptionState),
    SetFilter(SetFilterState),
    SetFilterTitle(SetFilterTitleState),
    SetPomodoro(SetPomodoroState),
    SearchTask(SearchTaskState),
    QuickInput(QuickInputState),
    QuickSelect(QuickSelectState),
}

/// What a unit decides to do next.
pub enum Next {
    Stay,
    To(Screen),
    Replace(Screen),
    Push(Screen),
    Finish(Reply),
    Yield(Reply),
}

/// The effect that carries out a decision.
pub open spec fn effect_of(next: Next) -> Option<PrivilegedActResult<Screen, Reply>> {
    match next {
        Next::Stay => None,
        Next::To(s) => Some(PrivilegedActResult::To(s)),
        Next::Replace(s) => Some(PrivilegedActResult::Replace(s)),
        Next::Push(s) => Some(PrivilegedActResult::Push(s)),
        Next::Finish(v) => Some(PrivilegedActResult::Return(v)),
        Next::Yield(v) => Some(PrivilegedActResult::Yield(v)),
    }
}

impl Screen {
    /// The effect that carries out `next`.
    fn declare(next: Next) -> (r: ActResult<Screen, Reply>)
        ensures
            r.declared() == effect_of(next),
    {
        match next {
            Next::Stay => ActResult::Nothing,
            Next::To(s) => ActResult::declare(PrivilegedActResult::To(s)),
            Next::Replace(s) => ActResult::declare(PrivilegedActResult::Replace(s)),
            Next::Push(s) => ActResult::declare(PrivilegedActResult::Push(s)),
            Next::Finish(v) => ActResult::declare(PrivilegedActResult::Return(v)),
            Next::Yield(v) => ActResult::declare(PrivilegedActResult::Yield(v)),
        }
    }
}

/// The text that a reply carries, if any.
pub open spec fn text_of(v: Reply) -> Option<Seq<char>> {
    match v {
        Reply::Text(Some(t)) => Some(t@),
        _ => None,
    }
}

/// Whether two tasks differ at most in their links.
pub open spec fn same_but_links(a: Task, b: Task) -> bool {
    &&& a.id == b.id
    &&& a.title == b.title
    &&& a.description == b.description
    &&& a.status == b.status
    &&& a.pomodoros == b.pomodoros
}

/// Whether the pane after a link to `other` was made shows it: the view of
/// a task lists it last among the linked tasks, and the main list stays.
pub open spec fn link_shown(before: Pane, after: Pane, other: TaskId) -> bool {
    match before {
        Pane::Main => after is Main,
        Pane::OneTask(v) => match after {
            Pane::OneTask(w) => {
                &&& w.task_id == v.task_id
                &&& w.show_full == v.show_full
                &&& w.link_list.selection == v.link_list.selection
                &&& w.link_list.title == v.link_list.title
                &&& w.link_list.tasks@ == v.link_list.tasks@.push(other)
            },
            Pane::Main => false,
        },
    }
}

/// The task that a reply picked, if any.
pub open spec fn picked(v: Reply) -> Option<TaskId> {
    match v {
        Reply::Picked(Some(id)) => Some(id),
        _ => None,
    }
}

/// The tasks after the one that `id` names, if any, had its status toggled.
pub open spec fn toggled_at(tasks: Seq<Task>, id: TaskId) -> Seq<Task> {
    if 1 <= id.num() <= tasks.len() {
        let t = tasks[id.num() - 1];
        tasks.update(id.num() - 1, Task { status: toggled(t.status), ..t })
    } else {
        tasks
    }
}

/// Whether two contexts agree on everything but the main list and the
/// store's tasks.
pub open spec fn same_but_list_and_tasks(a: Tasker, b: Tasker) -> bool {
    &&& a.quick_input == b.quick_input
    &&& a.quick_select == b.quick_select
    &&& a.search == b.search
    &&& a.timer == b.timer
    &&& a.pane == b.pane
    &&& a.filter == b.filter
    &&& a.now == b.now
    &&& a.data.window_size == b.data.window_size
}

/// Toggles the status of the task that `id` names, if the store holds it.
fn toggle_task(data: &mut Tasker, id: TaskId)
    ensures
        final(data).data.store@ == toggled_at(old(data).data.store@, id),
        final(data).tasklist == old(data).tasklist,
        same_but_list_and_tasks(*final(data), *old(data)),
{
    if data.data.store.contains(id) {
        let task = data.data.store.get_task_mut(id);
        task.toggle_status();
    }
}

/// Adds a task titled `title` to the store and to the main list, and
/// selects it; a store that has run out of identities is left as it is.
fn add_task(data: &mut Tasker, title: String)
    ensures
        old(data).data.store@.len() < usize::MAX && old(data).tasklist.tasks@.len() < usize::MAX ==> {
            let n = old(data).data.store@.len();
            let t = final(data).data.store@[n as int];
            &&& final(data).data.store@.len() == n + 1
            &&& final(data).data.store@.subrange(0, n as int) == old(data).data.store@
            &&& t.id.num() == n + 1
            &&& t.title == title
            &&& t.description@.len() == 0
            &&& t.status == Status::Todo
            &&& t.pomodoros == 0
            &&& t.links@.len() == 0
            &&& final(data).tasklist.tasks@ == old(data).tasklist.tasks@.push(t.id)
            &&& final(data).tasklist.selection == old(data).tasklist.tasks@.len()
        },
        !(old(data).data.store@.len() < usize::MAX && old(data).tasklist.tasks@.len() < usize::MAX)
            ==> final(data).data.store@ == old(data).data.store@ && final(data).tasklist
            == old(data).tasklist,
        final(data).tasklist.title == old(data).tasklist.title,
        same_but_list_and_tasks(*final(data), *old(data)),
{
    if data.data.store.len() < usize::MAX && data.tasklist.tasks.len() < usize::MAX {
        let ghost before = data.data.store@;
        let task = data.data.store.new_task();
        task.title = title;
        let id = task.id;
        proof {
            assert(data.data.store@.subrange(0, before.len() as int) =~= before);
        }
        data.tasklist.tasks.push(id);
        data.tasklist.selection = data.tasklist.tasks.len() - 1;
    }
}

impl NormalState {
    /// What handling `key` may do: the context `data` becomes `data_after`
    /// and the unit decides `r`.
    pub open spec fn handles(&self, data: Tasker, key: Key, data_after: Tasker, r: Next) -> bool {
        &&& (key == Key::Char('n') ==> r == Next::Push(Screen::QuickCreate(QuickCreateState)))
        &&& (key == Key::Char('f') ==> r == Next::Push(Screen::SetFilter(SetFilterState)))
        &&& (key == Key::Up || key == Key::Down ==> {
            &&& r is Stay
            &&& data_after.tasklist.selection == moved(
                data.tasklist.selection,
                data.tasklist.tasks@.len(),
                key,
            )
            &&& data_after.tasklist.tasks == data.tasklist.tasks
            &&& data_after.tasklist.title == data.tasklist.title
            &&& data_after.data == data.data
            &&& same_but_list_and_tasks(data_after, data)
        })
        &&& (key == Key::Enter ==> r == match data.tasklist.selected() {
            Some(id) => Next::To(Screen::OneTask(OneTaskState(id))),
            None => Next::Stay,
        })
        &&& (key == Key::Char(' ') ==> {
            &&& r is Stay
            &&& data_after.data.store@ == match data.tasklist.selected() {
                Some(id) => toggled_at(data.data.store@, id),
                None => data.data.store@,
            }
            &&& data_after.tasklist == data.tasklist
            &&& same_but_list_and_tasks(data_after, data)
        })
        &&& (key == Key::Char('m') ==> r is Stay)
        &&& (key == Key::Char('m') && data.data.store@.len() < usize::MAX
            && data.tasklist.tasks@.len() < usize::MAX ==> {
            let n = data.data.store@.len();
            let t = data_after.data.store@[n as int];
            &&& data_after.data.store@.len() == n + 1
            &&& data_after.data.store@.subrange(0, n as int) == data.data.store@
            &&& t.id.num() == n + 1
            &&& t.title@ == decimal(n + 1)
            &&& t.description@.len() == 0
            &&& t.status == Status::Todo
            &&& t.pomodoros == 0
            &&& t.links@.len() == 0
            &&& data_after.tasklist.tasks@ == data.tasklist.tasks@.push(t.id)
            &&& data_after.tasklist.selection == data.tasklist.tasks@.len()
            &&& data_after.tasklist.title == data.tasklist.title
            &&& same_but_list_and_tasks(data_after, data)
        })
        &&& (key == Key::Char('m') && !(data.data.store@.len() < usize::MAX
            && data.tasklist.tasks@.len() < usize::MAX) ==> data_after == data)
        &&& (key == Key::Char('e') ==> r == match data.tasklist.selected() {
            Some(id) => Next::Push(Screen::SetDescription(SetDescriptionState(id))),
            None => Next::Stay,
        })
        &&& (key == Key::Char('p') ==> r == match data.tasklist.selected() {
            Some(id) => Next::Push(Screen::SetPomodoro(SetPomodoroState(id))),
            None => Next::Stay,
        })
        &&& (key != Key::Up && key != Key::Down && key != Key::Char(' ') && key != Key::Char('m')
            ==> data_after == data)
    }

    /// Handles a key on the main list: `n` creates a task through a prompt,
    /// `m` creates one at once, titled with its number, `f` changes the
    /// filter, the arrows move the selection, enter opens the selected task,
    /// space toggles its status, `e` edits its description and `p` sets a
    /// pomodoro timer for it.
    pub fn act(&self, data: &mut Tasker, key: Key) -> (r: Next)
        ensures
            self.handles(*old(data), key, *final(data), r),
    {
        match key {
            Key::Char('n') => Next::Push(Screen::QuickCreate(QuickCreateState)),
            Key::Char('f') => Next::Push(Screen::SetFilter(SetFilterState)),
            Key::Up | Key::Down => {
                data.tasklist.move_selection(key);
                Next::Stay
            },
            Key::Enter => match data.tasklist.selection() {
                Some(id) => Next::To(Screen::OneTask(OneTaskState(id))),
                None => Next::Stay,
            },
            Key::Char(' ') => {
                if let Some(id) = data.tasklist.selection() {
                    toggle_task(data, id);
                }
                Next::Stay
            },
            Key::Char('m') => {
                let n = data.data.store.len();
                if n < usize::MAX && data.tasklist.tasks.len() < usize::MAX {
                    let title = to_decimal(n as u64 + 1);
                    add_task(data, title);
                }
                Next::Stay
            },
            Key::Char('e') => match data.tasklist.selection() {
                Some(id) => Next::Push(Screen::SetDescription(SetDescriptionState(id))),
                None => Next::Stay,
            },
            Key::Char('p') => match data.tasklist.selection() {
                Some(id) => Next::Push(Screen::SetPomodoro(SetPomodoroState(id))),
                None => Next::Stay,
            },
            _ => Next::Stay,
        }
    }

    /// What the hook may do: the context `data` becomes `data_after`, and
    /// the unit decides `r`.
    pub open spec fn entered(&self, data: Tasker, data_after: Tasker, r: Next) -> bool {
        &&& (r is Stay)
        &&& (data_after.pane is Main)
        &&& (data_after.data == data.data)
        &&& (data_after.tasklist == data.tasklist)
    }

    /// Shows the main list.
    pub fn on_enter(&self, data: &mut Tasker) -> (r: Next)
        ensures
            self.entered(*old(data), *final(data), r),
    {
        data.pane = Pane::Main;
        Next::Stay
    }
}

impl OneTaskState {
    /// What handling `key` may do: the context `data` becomes `data_after`
    /// and the unit decides `r`.
    pub open spec fn handles(&self, data: Tasker, key: Key, data_after: Tasker, r: Next) -> bool {
        &&& (data.pane matches Pane::OneTask(view) ==> {
            &&& key == Key::Esc ==> r == Next::To(Screen::Normal(NormalState))
            &&& key == Key::Char('n') ==> r == Next::Push(Screen::QuickCreate(QuickCreateState))
        &&& (key == Key::Up || key == Key::Down) ==> r is Stay && (data_after.pane matches Pane::OneTask(v)
                && v.link_list.selection == moved(
                view.link_list.selection,
                view.link_list.tasks@.len(),
                key,
            ) && v.link_list.tasks == view.link_list.tasks)
            &&& key == Key::Enter ==> r == match view.link_list.selected() {
                Some(id) => Next::To(Screen::OneTask(OneTaskState(id))),
                None => Next::Stay,
            }
            &&& key == Key::Char(' ') ==> r is Stay && data_after.data.store@ == toggled_at(
                data.data.store@,
                view.task_id,
            )
            &&& key == Key::Char('l') ==> r == Next::Push(Screen::AddLink(AddLinkState(self.0)))
            &&& key == Key::Char('e') ==> r == Next::Push(
                Screen::SetDescription(SetDescriptionState(self.0)),
            )
            &&& key == Key::Char(' ') ==> data_after.tasklist == data.tasklist
                && same_but_list_and_tasks(data_after, data)
        &&& (key == Key::Up || key == Key::Down) ==> data_after.data == data.data
                && data_after.tasklist == data.tasklist && (data_after.pane matches Pane::OneTask(v)
                && v.task_id == view.task_id && v.show_full == view.show_full
                && v.link_list.title == view.link_list.title)
            &&& key != Key::Up && key != Key::Down && key != Key::Char(' ') ==> data_after
                == data
        })
    }

    /// Handles a key on the view of one task: escape goes back to the main
    /// list, `n` creates a task, the arrows move the selection among the
    /// linked tasks, enter opens the selected one, space toggles the
    /// status, `l` links a task and `e` edits the description. The unit
    /// runs only while its view is on screen.
    pub fn act(&self, data: &mut Tasker, key: Key) -> (r: Next)
        requires
            old(data).pane is OneTask,
        ensures
            self.handles(*old(data), key, *final(data), r),
    {
        let view = match &mut data.pane {
            Pane::OneTask(view) => view,
            _ => {
                return Next::Stay;
            },
        };
        match key {
            Key::Esc => Next::To(Screen::Normal(NormalState)),
            Key::Char('n') => Next::Push(Screen::QuickCreate(QuickCreateState)),
            Key::Up | Key::Down => {
                view.link_list.move_selection(key);
                Next::Stay
            },
            Key::Enter => match view.link_list.selection() {
                Some(id) => Next::To(Screen::OneTask(OneTaskState(id))),
                None => Next::Stay,
            },
            Key::Char(' ') => {
                let id = view.task_id;
                toggle_task(data, id);
                Next::Stay
            },
            Key::Char('l') => Next::Push(Screen::AddLink(AddLinkState(self.0))),
            Key::Char('e') => Next::Push(Screen::SetDescription(SetDescriptionState(self.0))),
            _ => Next::Stay,
        }
    }

    /// What the hook may do: the context `data` becomes `data_after`, and
    /// the unit decides `r`.
    pub open spec fn entered(&self, data: Tasker, data_after: Tasker, r: Next) -> bool {
        &&& (r is Stay)
        &&& (data.data.store.holds(self.0) ==> (data_after.pane matches Pane::OneTask(v)
            && v.task_id == self.0 && v.show_full
            && v.link_list.tasks@ == data.data.store@[self.0.num() - 1].links@))
        &&& (!data.data.store.holds(self.0) ==> data_after.pane == data.pane)
        &&& (data_after.data == data.data)
    }

    /// Shows the task in full, if the store holds it.
    pub fn on_enter(&self, data: &mut Tasker) -> (r: Next)
        ensures
            self.entered(*old(data), *final(data), r),
    {
        if data.data.store.contains(self.0) {
            data.pane = Pane::OneTask(TaskView::new(self.0, &data.data, true));
        }
        Next::Stay
    }
}

impl AddLinkState {
    /// What the hook may do: the context `data` becomes `data_after`, and
    /// the unit decides `r`.
    pub open spec fn resumed(&self, data: Tasker, value: Reply, data_after: Tasker, r: Next) -> bool {
        &&& (r == Next::Finish(Reply::Done))
        &&& (({
            let id = self.0;
            let other = picked(value).unwrap();
            let linked = picked(value) is Some && data.data.store.holds(id)
                && data.data.store.holds(other);
            let before = data.data.store@;
            let after = data_after.data.store@;
            let i = id.num() - 1;
            let o = other.num() - 1;
            &&& linked ==> after.len() == before.len()
            &&& linked ==> forall|k: int|
                0 <= k < before.len() && k != i && k != o ==> #[trigger] after[k] == before[k]
            &&& linked ==> same_but_links(after[i], before[i]) && same_but_links(after[o], before[o])
            &&& linked && i != o ==> after[i].links@ == before[i].links@.push(other)
                && after[o].links@ == before[o].links@.push(id)
            &&& linked && i == o ==> after[i].links@ == before[i].links@.push(other).push(id)
            &&& !linked ==> data_after == data
            &&& linked ==> data_after.tasklist == data.tasklist && data_after.filter
                == data.filter && data_after.timer == data.timer && data_after.now
                == data.now
            &&& linked ==> link_shown(data.pane, data_after.pane, other)
        }))
    }

    /// With a task picked, links the two tasks both ways and shows the new
    /// link; then finishes.
    pub fn resume(&self, data: &mut Tasker, value: Reply) -> (r: Next)
        ensures
            self.resumed(*old(data), value, *final(data), r),
    {
        if let Reply::Picked(Some(other)) = value {
            let id = self.0;
            if data.data.store.contains(id) && data.data.store.contains(other) {
                let task = data.data.store.get_task_mut(id);
                task.links.push(other);
                let other_task = data.data.store.get_task_mut(other);
                other_task.links.push(id);
                if let Pane::OneTask(view) = &mut data.pane {
                    view.link_list.tasks.push(other);
                }
            }
        }
        Next::Finish(Reply::Done)
    }

    /// What the hook may do: the context `data` becomes `data_after`, and
    /// the unit decides `r`.
    pub open spec fn entered(&self, data: Tasker, data_after: Tasker, r: Next) -> bool {
        &&& (r matches Next::Push(Screen::SearchTask(s)) && s.title@ == "Link a task"@)
        &&& (data_after == data)
    }

    /// Asks for the task to link.
    pub fn on_enter(&self, data: &mut Tasker) -> (r: Next)
        ensures
            self.entered(*old(data), *final(data), r),
    {
        Next::Push(Screen::SearchTask(SearchTaskState { title: "Link a task".to_owned() }))
    }
}

impl QuickCreateState {
    /// What the hook may do: the context `data` becomes `data_after`, and
    /// the unit decides `r`.
    pub open spec fn resumed(&self, data: Tasker, value: Reply, data_after: Tasker, r: Next) -> bool {
        &&& (r == Next::Finish(Reply::Done))
        &&& (text_of(value) is Some && data.data.store@.len() < usize::MAX
            && data.tasklist.tasks@.len() < usize::MAX ==> {
            let n = data.data.store@.len();
            &&& data_after.data.store@.len() == n + 1
            &&& data_after.data.store@[n as int].title@ == text_of(value).unwrap()
            &&& data_after.data.store@[n as int].id.num() == n + 1
            &&& data_after.data.store@[n as int].status == Status::Todo
            &&& data_after.data.store@.subrange(0, n as int) == data.data.store@
            &&& same_but_list_and_tasks(data_after, data)
            &&& data_after.tasklist.tasks@ == data.tasklist.tasks@.push(
                data_after.data.store@[n as int].id,
            )
            &&& data_after.tasklist.selection == data.tasklist.tasks@.len()
        })
        &&& (text_of(value) is None ==> data_after == data)
    }

    /// With a title entered, adds a task with it to the store and to the
    /// main list, and selects it; then finishes.
    pub fn resume(&self, data: &mut Tasker, value: Reply) -> (r: Next)
        ensures
            self.resumed(*old(data), value, *final(data), r),
    {
        if let Reply::Text(Some(title)) = value {
            add_task(data, title);
        }
        Next::Finish(Reply::Done)
    }

    /// What the hook may do: the context `data` becomes `data_after`, and
    /// the unit decides `r`.
    pub open spec fn entered(&self, data: Tasker, data_after: Tasker, r: Next) -> bool {
        &&& (r matches Next::Push(Screen::QuickInput(q)) && q.title@ == "Title"@ && q.text@.len()
            == 0 && !q.continuous)
        &&& (data_after == data)
    }

    /// Asks for the title.
    pub fn on_enter(&self, data: &mut Tasker) -> (r: Next)
        ensures
            self.entered(*old(data), *final(data), r),
    {
        Next::Push(Screen::QuickInput(QuickInputState::new("Title")))
    }
}

impl SetDescriptionState {
    /// What the hook may do: the context `data` becomes `data_after`, and
    /// the unit decides `r`.
    pub open spec fn resumed(&self, data: Tasker, value: Reply, data_after: Tasker, r: Next) -> bool {
        &&& (r == Next::Finish(Reply::Done))
        &&& (text_of(value) is Some && data.data.store.holds(self.0) ==> {
            let k = self.0.num() - 1;
            let t = data_after.data.store@[k];
            &&& data_after.data.store@ == data.data.store@.update(k, t)
            &&& t.description@ == text_of(value).unwrap()
            &&& t == (Task { description: t.description, ..data.data.store@[k] })
        })
        &&& (!(text_of(value) is Some && data.data.store.holds(self.0))
            ==> data_after.data.store@ == data.data.store@)
    }

    /// With a text entered, makes it the task's description; then finishes.
    pub fn resume(&self, data: &mut Tasker, value: Reply) -> (r: Next)
        ensures
            self.resumed(*old(data), value, *final(data), r),
    {
        if let Reply::Text(Some(text)) = value {
            if data.data.store.contains(self.0) {
                let task = data.data.store.get_task_mut(self.0);
                task.description = text;
            }
        }
        Next::Finish(Reply::Done)
    }

    /// What the hook may do: the context `data` becomes `data_after`, and
    /// the unit decides `r`.
    pub open spec fn entered(&self, data: Tasker, data_after: Tasker, r: Next) -> bool {
        &&& (r matches Next::Push(Screen::QuickInput(q)) && q.title@ == "Description"@
            && !q.continuous && (data.data.store.holds(self.0)
            ==> q.text@ == data.data.store@[self.0.num() - 1].description@))
        &&& (data_after == data)
    }

    /// Asks for the description, starting from the current one.
    pub fn on_enter(&self, data: &mut Tasker) -> (r: Next)
        ensures
            self.entered(*old(data), *final(data), r),
    {
        let text = if data.data.store.contains(self.0) {
            data.data.store.get_task(self.0).description.clone()
        } else {
            String::new()
        };
        Next::Push(Screen::QuickInput(QuickInputState::new("Description").text(text)))
    }
}

impl SetFilterState {
    /// What the hook may do: the context `data` becomes `data_after`, and
    /// the unit decides `r`.
    pub open spec fn resumed(&self, data: Tasker, value: Reply, data_after: Tasker, r: Next) -> bool {
        &&& (text_of(value) == Some("Title"@) ==> r == Next::Replace(
            Screen::SetFilterTitle(SetFilterTitleState),
        ) && data_after == data)
        &&& (text_of(value) != Some("Title"@) ==> r == Next::Finish(Reply::Done))
        &&& (text_of(value) is Some && text_of(value) != Some("Title"@) ==> {
            let t = text_of(value).unwrap();
            &&& t == "Todo"@ ==> data_after.filter.status == Some(Status::Todo)
                && data_after.filter.title == data.filter.title
            &&& t == "Done"@ ==> data_after.filter.status == Some(Status::Done)
                && data_after.filter.title == data.filter.title
            &&& t == "Clear"@ ==> data_after.filter.status is None
                && data_after.filter.title@.len() == 0
            &&& t != "Todo"@ && t != "Done"@ && t != "Clear"@ ==> data_after.filter
                == data.filter
            &&& data_after.tasklist.tasks@ == data_after.filter.picks(data.data.store@)
            &&& data_after.tasklist.selection == 0
        })
        &&& (text_of(value) is None ==> data_after == data)
        &&& (data_after.data == data.data)
    }

    /// With a choice made: "Title" hands over to the unit that filters by
    /// title; "Todo" and "Done" filter by status, "Clear" drops the filter;
    /// the main list is then filtered anew and the unit finishes.
    pub fn resume(&self, data: &mut Tasker, value: Reply) -> (r: Next)
        ensures
            self.resumed(*old(data), value, *final(data), r),
    {
        proof {
            reveal_strlit("Title");
            reveal_strlit("Todo");
            reveal_strlit("Done");
            reveal_strlit("Clear");
            assert("Title"@[0] != "Clear"@[0]);
            assert("Todo"@[0] != "Done"@[0]);
        }
        if let Reply::Text(Some(text)) = value {
            if is_text(&text, "Title") {
                return Next::Replace(Screen::SetFilterTitle(SetFilterTitleState));
            }
            if is_text(&text, "Todo") {
                data.filter.status = Some(Status::Todo);
            }
            if is_text(&text, "Done") {
                data.filter.status = Some(Status::Done);
            }
            if is_text(&text, "Clear") {
                data.filter = Filter::default();
            }
            data.tasklist.apply_filter(&data.data, &data.filter);
        }
        Next::Finish(Reply::Done)
    }

    /// What the hook may do: the context `data` becomes `data_after`, and
    /// the unit decides `r`.
    pub open spec fn entered(&self, data: Tasker, data_after: Tasker, r: Next) -> bool {
        &&& (r matches Next::Push(Screen::QuickSelect(q)) && q.title@ == "Filter"@
            && q.choices@.len() == 4)
        &&& (data_after == data)
    }

    /// Offers the kinds of filter.
    pub fn on_enter(&self, data: &mut Tasker) -> (r: Next)
        ensures
            self.entered(*old(data), *final(data), r),
    {
        Next::Push(
            Screen::QuickSelect(
                QuickSelectState::new(
                    "Filter".to_owned(),
                    vec![
                        ('t', "Title".to_owned()),
                        ('d', "Todo".to_owned()),
                        ('D', "Done".to_owned()),
                        ('c', "Clear".to_owned()),
                    ],
                ),
            ),
        )
    }
}

impl SetFilterTitleState {
    /// What the hook may do: the context `data` becomes `data_after`, and
    /// the unit decides `r`.
    pub open spec fn resumed(&self, data: Tasker, value: Reply, data_after: Tasker, r: Next) -> bool {
        &&& (r == Next::Finish(Reply::Done))
        &&& (data_after == data)
    }

    /// The prompt closed: finishes.
    pub fn resume(&self, data: &mut Tasker, value: Reply) -> (r: Next)
        ensures
            self.resumed(*old(data), value, *final(data), r),
    {
        Next::Finish(Reply::Done)
    }

    /// What the hook may do: the context `data` becomes `data_after`, and
    /// the unit decides `r`.
    pub open spec fn received(&self, data: Tasker, value: Reply, data_after: Tasker, r: Next) -> bool {
        &&& (r is Stay)
        &&& (text_of(value) is Some ==> data_after.filter.title@ == text_of(value).unwrap()
            && data_after.filter.status == data.filter.status
            && data_after.tasklist.tasks@ == data_after.filter.picks(data.data.store@)
            && data_after.tasklist.selection == 0)
        &&& (text_of(value) is None ==> data_after == data)
        &&& (data_after.data == data.data)
    }

    /// The title typed so far becomes the filter's title, and the main list
    /// is filtered anew.
    pub fn on_yield(&self, data: &mut Tasker, value: Reply) -> (r: Next)
        ensures
            self.received(*old(data), value, *final(data), r),
    {
        if let Reply::Text(Some(text)) = value {
            data.filter.title = text;
            data.tasklist.apply_filter(&data.data, &data.filter);
        }
        Next::Stay
    }

    /// What the hook may do: the context `data` becomes `data_after`, and
    /// the unit decides `r`.
    pub open spec fn entered(&self, data: Tasker, data_after: Tasker, r: Next) -> bool {
        &&& (r matches Next::Push(Screen::QuickInput(q)) && q.title@ == "Filter [Title]"@ && q.text@
            == data.filter.title@ && q.continuous)
        &&& (data_after == data)
    }

    /// Asks for the title, starting from the filter's, and yielding at every
    /// change.
    pub fn on_enter(&self, data: &mut Tasker) -> (r: Next)
        ensures
            self.entered(*old(data), *final(data), r),
    {
        let text = data.filter.title.clone();
        Next::Push(
            Screen::QuickInput(QuickInputState::new("Filter [Title]").text(text).continuous(true)),
        )
    }
}

/// Seconds of a pomodoro of work.
pub const WORK_SECONDS: u64 = 1500;

/// Seconds of a short and of a long break.
pub const SHORT_BREAK_SECONDS: u64 = 300;

pub const LONG_BREAK_SECONDS: u64 = 600;

/// Seconds of a trial timer.
pub const TEST_SECONDS: u64 = 5;

impl SetPomodoroState {
    /// What the hook may do: the context `data` becomes `data_after`, and
    /// the unit decides `r`.
    pub open spec fn resumed(&self, data: Tasker, value: Reply, data_after: Tasker, r: Next) -> bool {
        &&& (r == Next::Finish(Reply::Done))
        &&& (text_of(value) is Some ==> {
            let t = text_of(value).unwrap();
            &&& t == "Start"@ ==> (data_after.timer matches Some(timer) && timer.title@ == "WORK"@
                && timer.reward == Some(self.0) && !timer.triggered)
        &&& (t == "Break 5m"@ || t == "Break 10m"@) ==> (data_after.timer matches Some(timer)
                && timer.title@ == "BREAK"@ && timer.reward is None && !timer.triggered)
            &&& t == "Test"@ ==> (data_after.timer matches Some(timer) && timer.title@ == "TEST"@
                && timer.reward is None)
            &&& t == "Clear"@ ==> data_after.timer is None
            &&& data_after.tasklist.tasks@ == data.filter.picks(data.data.store@)
            &&& data_after.tasklist.selection == 0
        })
        &&& (text_of(value) is None ==> data_after == data)
        &&& (data_after.data == data.data)
        &&& (data_after.filter == data.filter)
    }

    /// With a choice made, starts the timer it names, a pomodoro of work for
    /// the task or a break, or clears the timer; the main list is then
    /// filtered anew and the unit finishes.
    pub fn resume(&self, data: &mut Tasker, value: Reply) -> (r: Next)
        ensures
            self.resumed(*old(data), value, *final(data), r),
    {
        proof {
            reveal_strlit("Start");
            reveal_strlit("Break 5m");
            reveal_strlit("Break 10m");
            reveal_strlit("Test");
            reveal_strlit("Clear");
            assert("Start"@[0] != "Clear"@[0]);
            assert("Break 5m"@.len() != "Break 10m"@.len());
        }
        let id = self.0;
        if let Reply::Text(Some(text)) = value {
            let now = data.now;
            if is_text(&text, "Start") {
                data.timer = Some(Timer::trigger_in("WORK", now, WORK_SECONDS, Some(id)));
            }
            if is_text(&text, "Break 5m") {
                data.timer = Some(Timer::trigger_in("BREAK", now, SHORT_BREAK_SECONDS, None));
            }
            if is_text(&text, "Break 10m") {
                data.timer = Some(Timer::trigger_in("BREAK", now, LONG_BREAK_SECONDS, None));
            }
            if is_text(&text, "Test") {
                data.timer = Some(Timer::trigger_in("TEST", now, TEST_SECONDS, None));
            }
            if is_text(&text, "Clear") {
                data.timer = None;
            }
            data.tasklist.apply_filter(&data.data, &data.filter);
        }
        Next::Finish(Reply::Done)
    }

    /// What the hook may do: the context `data` becomes `data_after`, and
    /// the unit decides `r`.
    pub open spec fn entered(&self, data: Tasker, data_after: Tasker, r: Next) -> bool {
        &&& (r matches Next::Push(Screen::QuickSelect(q)) && q.title@ == "Pomodoro"@
            && q.choices@.len() == 5)
        &&& (data_after == data)
    }

    /// Offers the timers.
    pub fn on_enter(&self, data: &mut Tasker) -> (r: Next)
        ensures
            self.entered(*old(data), *final(data), r),
    {
        Next::Push(
            Screen::QuickSelect(
                QuickSelectState::new(
                    "Pomodoro".to_owned(),
                    vec![
                        ('p', "Start".to_owned()),
                        ('b', "Break 5m".to_owned()),
                        ('B', "Break 10m".to_owned()),
                        ('t', "Test".to_owned()),
                        ('c', "Clear".to_owned()),
                    ],
                ),
            ),
        )
    }
}

impl Screen {
    /// Whether the unit takes `value` from a child.
    fn takes_value(&self, value: &Reply) -> (r: bool)
        ensures
            r == self.takes(*value),
    {
        match self {
            Screen::AddLink(_) => matches!(value, Reply::Picked(_)),
            Screen::QuickCreate(_) | Screen::SetDescription(_) | Screen::SetFilter(_)
            | Screen::SetFilterTitle(_) | Screen::SetPomodoro(_) => matches!(value, Reply::Text(_)),
            _ => matches!(value, Reply::Done),
        }
    }
}

impl State for Screen {
    type Action = Action;
    type Data = Tasker;
    type Value = Reply;

    /// The dialogs that ask for a text take a text, the one that links tasks
    /// takes a picked task, and the others take a plain "done".
    open spec fn takes(&self, value: Reply) -> bool {
        match self {
            Screen::AddLink(_) => value is Picked,
            Screen::QuickCreate(_) | Screen::SetDescription(_) | Screen::SetFilter(_)
            | Screen::SetFilterTitle(_) | Screen::SetPomodoro(_) => value is Text,
            _ => value is Done,
        }
    }

    /// The units keep their own fields. A unit that takes events does with
    /// the key what its own `handles` says and declares the effect of its
    /// decision; it runs only while what it shows is open, and otherwise,
    /// like the units that only wait for a child, does nothing.
    open spec fn acts(
        &self,
        data: Tasker,
        action: Action,
        after: Screen,
        data_after: Tasker,
        r: ActResult<Screen, Reply>,
    ) -> bool {
        let key = match action {
            Action::Key(key) => key,
        };
        let idle = r.declared() is None && data_after == data;
        &&& after == *self
        &&& match self {
            Screen::Normal(s) => exists|n: Next|
                #[trigger] s.handles(data, key, data_after, n) && r.declared() == effect_of(n),
            Screen::OneTask(s) => if data.pane is OneTask {
                exists|n: Next|
                    #[trigger] s.handles(data, key, data_after, n) && r.declared() == effect_of(n)
            } else {
                idle
            },
            Screen::SearchTask(s) => if data.quick_input is Some && data.search is Some {
                exists|n: Next|
                    #[trigger] s.handles(data, key, data_after, n) && r.declared() == effect_of(n)
            } else {
                idle
            },
            Screen::QuickInput(s) => if data.quick_input is Some {
                exists|n: Next|
                    #[trigger] s.handles(data, key, data_after, n) && r.declared() == effect_of(n)
            } else {
                idle
            },
            Screen::QuickSelect(s) => if data.quick_select is Some {
                exists|n: Next|
                    #[trigger] s.handles(data, key, data_after, n) && r.declared() == effect_of(n)
            } else {
                idle
            },
            _ => idle,
        }
    }

    /// A unit that waits for a child does, when it finishes, what its own
    /// `resumed` says; the others do nothing.
    open spec fn resumes(
        &self,
        data: Tasker,
        value: Reply,
        after: Screen,
        data_after: Tasker,
        r: ActResult<Screen, Reply>,
    ) -> bool {
        &&& after == *self
        &&& match self {
            Screen::AddLink(s) => exists|n: Next|
                #[trigger] s.resumed(data, value, data_after, n) && r.declared() == effect_of(n),
            Screen::QuickCreate(s) => exists|n: Next|
                #[trigger] s.resumed(data, value, data_after, n) && r.declared() == effect_of(n),
            Screen::SetDescription(s) => exists|n: Next|
                #[trigger] s.resumed(data, value, data_after, n) && r.declared() == effect_of(n),
            Screen::SetFilter(s) => exists|n: Next|
                #[trigger] s.resumed(data, value, data_after, n) && r.declared() == effect_of(n),
            Screen::SetFilterTitle(s) => exists|n: Next|
                #[trigger] s.resumed(data, value, data_after, n) && r.declared() == effect_of(n),
            Screen::SetPomodoro(s) => exists|n: Next|
                #[trigger] s.resumed(data, value, data_after, n) && r.declared() == effect_of(n),
            _ => r.declared() is None && data_after == data,
        }
    }

    /// The unit that filters by title does with what its prompt yields what
    /// its own `received` says; the others do nothing.
    open spec fn receives(
        &self,
        data: Tasker,
        value: Reply,
        after: Screen,
        data_after: Tasker,
        r: ActResult<Screen, Reply>,
    ) -> bool {
        &&& after == *self
        &&& match self {
            Screen::SetFilterTitle(s) => exists|n: Next|
                #[trigger] s.received(data, value, data_after, n) && r.declared() == effect_of(n),
            _ => r.declared() is None && data_after == data,
        }
    }

    /// Every unit does on entering what its own `entered` says.
    open spec fn enters(
        &self,
        data: Tasker,
        after: Screen,
        data_after: Tasker,
        r: ActResult<Screen, Reply>,
    ) -> bool {
        &&& after == *self
        &&& match self {
            Screen::Normal(s) => exists|n: Next|
                #[trigger] s.entered(data, data_after, n) && r.declared() == effect_of(n),
            Screen::OneTask(s) => exists|n: Next|
                #[trigger] s.entered(data, data_after, n) && r.declared() == effect_of(n),
            Screen::AddLink(s) => exists|n: Next|
                #[trigger] s.entered(data, data_after, n) && r.declared() == effect_of(n),
            Screen::QuickCreate(s) => exists|n: Next|
                #[trigger] s.entered(data, data_after, n) && r.declared() == effect_of(n),
            Screen::SetDescription(s) => exists|n: Next|
                #[trigger] s.entered(data, data_after, n) && r.declared() == effect_of(n),
            Screen::SetFilter(s) => exists|n: Next|
                #[trigger] s.entered(data, data_after, n) && r.declared() == effect_of(n),
            Screen::SetFilterTitle(s) => exists|n: Next|
                #[trigger] s.entered(data, data_after, n) && r.declared() == effect_of(n),
            Screen::SetPomodoro(s) => exists|n: Next|
                #[trigger] s.entered(data, data_after, n) && r.declared() == effect_of(n),
            Screen::SearchTask(s) => exists|n: Next|
                #[trigger] s.entered(data, data_after, n) && r.declared() == effect_of(n),
            Screen::QuickInput(s) => exists|n: Next|
                #[trigger] s.entered(data, data_after, n) && r.declared() == effect_of(n),
            Screen::QuickSelect(s) => exists|n: Next|
                #[trigger] s.entered(data, data_after, n) && r.declared() == effect_of(n),
        }
    }

    /// The prompts close on leaving, as their own `left` says; the other
    /// units leave the context as it is.
    open spec fn leaves(&self, data: Tasker, after: Screen, data_after: Tasker) -> bool {
        &&& after == *self
        &&& match self {
            Screen::SearchTask(s) => s.left(data, data_after),
            Screen::QuickInput(s) => s.left(data, data_after),
            Screen::QuickSelect(s) => s.left(data, data_after),
            _ => data_after == data,
        }
    }

    /// Hands the key to the unit. The units that only wait for a child to
    /// finish take no events.
    fn act(&mut self, data: &mut Tasker, action: Action) -> ActResult<Screen, Reply> {
        let key = match action {
            Action::Key(key) => key,
        };
        let next = match self {
            Screen::Normal(s) => s.act(data, key),
            Screen::OneTask(s) => if matches!(data.pane, Pane::OneTask(_)) {
                s.act(data, key)
            } else {
                Next::Stay
            },
            Screen::SearchTask(s) => if data.quick_input.is_some() && data.search.is_some() {
                s.act(data, key)
            } else {
                Next::Stay
            },
            Screen::QuickInput(s) => if data.quick_input.is_some() {
                s.act(data, key)
            } else {
                Next::Stay
            },
            Screen::QuickSelect(s) => if data.quick_select.is_some() {
                s.act(data, key)
            } else {
                Next::Stay
            },
            _ => Next::Stay,
        };
        Screen::declare(next)
    }

    fn accepts(&self, value: &Reply) -> bool {
        self.takes_value(value)
    }

    fn resume(&mut self, data: &mut Tasker, value: Reply) -> ActResult<Screen, Reply> {
        let next = match self {
            Screen::AddLink(s) => s.resume(data, value),
            Screen::QuickCreate(s) => s.resume(data, value),
            Screen::SetDescription(s) => s.resume(data, value),
            Screen::SetFilter(s) => s.resume(data, value),
            Screen::SetFilterTitle(s) => s.resume(data, value),
            Screen::SetPomodoro(s) => s.resume(data, value),
            _ => Next::Stay,
        };
        Screen::declare(next)
    }

    fn on_yield(&mut self, data: &mut Tasker, value: Reply) -> ActResult<Screen, Reply> {
        let next = match self {
            Screen::SetFilterTitle(s) => s.on_yield(data, value),
            _ => Next::Stay,
        };
        Screen::declare(next)
    }

    fn on_enter(&mut self, data: &mut Tasker) -> ActResult<Screen, Reply> {
        let next = match self {
            Screen::Normal(s) => s.on_enter(data),
            Screen::OneTask(s) => s.on_enter(data),
            Screen::AddLink(s) => s.on_enter(data),
            Screen::QuickCreate(s) => s.on_enter(data),
            Screen::SetDescription(s) => s.on_enter(data),
            Screen::SetFilter(s) => s.on_enter(data),
            Screen::SetFilterTitle(s) => s.on_enter(data),
            Screen::SetPomodoro(s) => s.on_enter(data),
            Screen::SearchTask(s) => s.on_enter(data),
            Screen::QuickInput(s) => s.on_enter(data),
            Screen::QuickSelect(s) => s.on_enter(data),
        };
        Screen::declare(next)
    }

    fn on_exit(&mut self, data: &mut Tasker) {
        match self {
            Screen::SearchTask(s) => s.on_exit(data),
            Screen::QuickInput(s) => s.on_exit(data),
            Screen::QuickSelect(s) => s.on_exit(data),
            _ => {},
        }
    }
}

} // verus!
