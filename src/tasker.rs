//! The application's shared context: the task store and what the screen
//! shows, as the units of the application change it.
use crate::components::{QuickInput, QuickSelect, TaskList, TaskView};
use crate::task::{Filter, Task, TaskId, TaskStore};
use vstd::prelude::*;

verus! {

/// The store and the size of the terminal window.
#[derive(Debug)]
pub struct AppData {
    pub store: TaskStore,
    pub window_size: (u16, u16),
}

impl Default for AppData {
    fn default() -> (r: AppData)
        ensures
            r.store@.len() == 0,
            r.window_size == (0u16, 0u16),
    {
        AppData { store: TaskStore::default(), window_size: (0, 0) }
    }
}

/// A key the user pressed, as far as the application tells keys apart.
#[derive(Debug, Clone, Copy, PartialEq, Eq, Structural)]
pub enum Key {
    Char(char),
    Up,
    Down,
    Enter,
    Esc,
    Backspace,
    Other,
}

/// The events the application's machine is driven with.
#[derive(Debug, Clone, Copy, PartialEq, Eq, Structural)]
pub enum Action {
    Key(Key),
}

/// A search under way: the filter typed so far and the tasks it lets through.
#[derive(Debug)]
pub struct Search {
    pub filter: Filter,
    pub list: TaskList,
}

/// What fills the main part of the screen.
#[derive(Debug)]
pub enum Pane {
    Main,
    OneTask(TaskView),
}

impl Default for Pane {
    fn default() -> (r: Pane)
        ensures
            r is Main,
    {
        Pane::Main
    }
}

/// A countdown on the application's clock, counted in seconds. When it runs
/// out, the task it names, if any, gets one more pomodoro.
#[derive(Debug)]
pub struct Timer {
    pub title: String,
    pub ends_at: u64,
    pub reward: Option<TaskId>,
    pub triggered: bool,
}

impl Timer {
    /// A timer that runs out `seconds` after `now`.
    pub fn trigger_in(title: &str, now: u64, seconds: u64, reward: Option<TaskId>) -> (r: Timer)
        ensures
            r.title@ == title@,
            r.ends_at == if now + seconds <= u64::MAX {
                (now + seconds) as u64
            } else {
                u64::MAX
            },
            r.reward == reward,
            !r.triggered,
    {
        Timer { title: title.to_owned(), ends_at: now.saturating_add(seconds), reward, triggered: false }
    }

    /// Whether the timer has run out at `now`.
    pub fn is_done(&self, now: u64) -> (r: bool)
        ensures
            r == (now >= self.ends_at),
    {
        now >= self.ends_at
    }
}

/// Everything the application's units share: the store, what the screen
/// shows, the filter of the main list, the timer and the clock.
#[derive(Debug)]
pub struct Tasker {
    pub tasklist: TaskList,
    pub quick_input: Option<QuickInput>,
    pub quick_select: Option<QuickSelect>,
    pub search: Option<Search>,
    pub timer: Option<Timer>,
    pub pane: Pane,
    pub data: AppData,
    pub filter: Filter,
    /// Seconds on the application's clock; the caller keeps it current.
    pub now: u64,
}

impl Default for Tasker {
    fn default() -> (r: Tasker)
        ensures
            r.tasklist.tasks@.len() == 0,
            r.tasklist.selection == 0,
            r.quick_input is None,
            r.quick_select is None,
            r.search is None,
            r.timer is None,
            r.pane is Main,
            r.data.store@.len() == 0,
            r.filter.title@ == Seq::<char>::empty(),
            r.filter.status is None,
            r.now == 0,
    {
        Tasker {
            tasklist: TaskList::default(),
            quick_input: None,
            quick_select: None,
            search: None,
            timer: None,
            pane: Pane::default(),
            data: AppData::default(),
            filter: Filter::default(),
            now: 0,
        }
    }
}

/// One more pomodoro, kept at the largest count once it is reached.
pub open spec fn one_more(n: i32) -> i32 {
    if n < i32::MAX {
        (n + 1) as i32
    } else {
        n
    }
}

/// The tasks after the task that `reward` names, if it names one of them,
/// got one more pomodoro.
pub open spec fn credit(tasks: Seq<Task>, reward: Option<TaskId>) -> Seq<Task> {
    match reward {
        Some(id) => if 1 <= id.num() <= tasks.len() {
            let t = tasks[id.num() - 1];
            tasks.update(id.num() - 1, Task { pomodoros: one_more(t.pomodoros), ..t })
        } else {
            tasks
        },
        None => tasks,
    }
}

impl Tasker {
    /// Fires the timer once it has run out, at most once per timer: marks it
    /// triggered and gives its task one more pomodoro. Returns whether it
    /// fired, so that the caller rings the bell.
    pub fn update(&mut self) -> (r: bool)
        ensures
            r == (old(self).timer matches Some(t) && !t.triggered && old(self).now >= t.ends_at),
            r ==> (final(self).timer matches Some(t) && t.triggered),
            !r ==> final(self).timer == old(self).timer,
            final(self).data.store@ == if r {
                credit(old(self).data.store@, old(self).timer->0.reward)
            } else {
                old(self).data.store@
            },
            final(self).now == old(self).now,
            final(self).tasklist == old(self).tasklist,
            final(self).filter == old(self).filter,
    {
        let now = self.now;
        let fire = match &self.timer {
            Some(timer) => timer.is_done(now) && !timer.triggered,
            None => false,
        };
        if !fire {
            return false;
        }
        let mut reward: Option<TaskId> = None;
        if let Some(timer) = &mut self.timer {
            timer.triggered = true;
            reward = timer.reward;
        }
        if let Some(id) = reward {
            if self.data.store.contains(id) {
                let task = self.data.store.get_task_mut(id);
                if task.pomodoros < i32::MAX {
                    task.pomodoros = task.pomodoros + 1;
                }
            }
        }
        true
    }
}

} // verus!
