//! What the screen is made of, apart from how it is drawn: lists of tasks,
//! a view of one task, and the one-line input and selection prompts.
use crate::task::{Filter, TaskId};
use crate::tasker::{AppData, Key};
use vstd::prelude::*;
use vstd::string::*;
use vstd::utf8::encode_utf8;

verus! {

/// A list of tasks with one of them selected.
#[derive(Debug)]
pub struct TaskList {
    pub tasks: Vec<TaskId>,
    pub selection: usize,
    pub title: Option<String>,
}

impl Default for TaskList {
    fn default() -> (r: TaskList)
        ensures
            r.tasks@.len() == 0,
            r.selection == 0,
            r.title is None,
    {
        TaskList { tasks: Vec::new(), selection: 0, title: None }
    }
}

impl TaskList {
    /// The list with its title set.
    pub fn title(self, title: &str) -> (r: Self)
        ensures
            r.tasks == self.tasks,
            r.selection == self.selection,
            r.title matches Some(t) && t@ == title@,
    {
        TaskList { title: Some(title.to_owned()), ..self }
    }

    /// The selected task, if the selection points into the list.
    pub open spec fn selected(&self) -> Option<TaskId> {
        if self.selection < self.tasks@.len() {
            Some(self.tasks@[self.selection as int])
        } else {
            None
        }
    }

    /// The selected task, if the selection points into the list.
    pub fn selection(&self) -> (r: Option<TaskId>)
        ensures
            r == self.selected(),
    {
        if self.selection < self.tasks.len() {
            Some(self.tasks[self.selection])
        } else {
            None
        }
    }

    /// Fills the list with the tasks that `filter` lets through and selects
    /// the first.
    pub fn apply_filter(&mut self, data: &AppData, filter: &Filter)
        ensures
            final(self).tasks@ == filter.picks(data.store@),
            final(self).selection == 0,
            final(self).title == old(self).title,
    {
        self.tasks = filter.apply(&data.store);
        self.selection = 0;
    }
}

/// One task in full: its status, its description and, when `show_full` is
/// set, the tasks linked to it.
#[derive(Debug)]
pub struct TaskView {
    pub task_id: TaskId,
    pub link_list: TaskList,
    pub show_full: bool,
}

impl TaskView {
    pub fn new(task_id: TaskId, data: &AppData, show_full: bool) -> (r: Self)
        requires
            data.store.holds(task_id),
        ensures
            r.task_id == task_id,
            r.show_full == show_full,
            r.link_list.tasks@ == data.store@[task_id.num() - 1].links@,
            r.link_list.selection == 0,
            r.link_list.title matches Some(t) && t@ == "Linked tasks"@,
    {
        let task = data.store.get_task(task_id);
        let mut link_list = TaskList::default().title("Linked tasks");
        link_list.tasks = copy_ids(&task.links);
        TaskView { task_id, link_list, show_full }
    }
}

/// A copy of a list of task identities.
fn copy_ids(ids: &Vec<TaskId>) -> (r: Vec<TaskId>)
    ensures
        r@ == ids@,
{
    let mut r: Vec<TaskId> = Vec::new();
    let mut i: usize = 0;
    while i < ids.len()
        invariant
            i <= ids@.len(),
            r@ == ids@.subrange(0, i as int),
        decreases ids@.len() - i,
    {
        r.push(ids[i]);
        i = i + 1;
    }
    assert(ids@.subrange(0, ids@.len() as int) =~= ids@);
    r
}

/// A one-line text prompt: a title and the text typed so far.
#[derive(Debug)]
pub struct QuickInput {
    pub title: String,
    pub text: String,
}

impl Default for QuickInput {
    fn default() -> (r: QuickInput)
        ensures
            r.title@ == Seq::<char>::empty(),
            r.text@ == Seq::<char>::empty(),
    {
        QuickInput { title: String::new(), text: String::new() }
    }
}

impl QuickInput {
    pub fn new(title: &str) -> (r: Self)
        ensures
            r.title@ == title@,
            r.text@ == Seq::<char>::empty(),
    {
        QuickInput { title: title.to_owned(), text: String::new() }
    }

    /// The prompt with its text replaced.
    pub fn text(self, text: String) -> (r: Self)
        ensures
            r.title == self.title,
            r.text == text,
    {
        QuickInput { text, ..self }
    }
}

/// The number of extended grapheme clusters, the characters a reader sees,
/// in a text.
pub uninterp spec fn grapheme_count(s: Seq<char>) -> nat;

/// Relies on `unicode_segmentation::UnicodeSegmentation::graphemes` with
/// extended clusters, counted: the number of clusters of the text, none for an
/// empty one.
#[verifier::external_body]
fn count_graphemes(s: &str) -> (r: usize)
    ensures
        r as nat == grapheme_count(s@),
        s@.len() == 0 ==> r == 0,
{
    unicode_segmentation::UnicodeSegmentation::graphemes(s, true).count()
}

impl QuickInput {
    /// The column of the cursor when the text shows `graphemes` clusters:
    /// after the title, a colon and a space, and the text, counted in a
    /// terminal column's 16 bits.
    pub fn column_after(&self, graphemes: usize) -> (r: u16)
        ensures
            r as int == (graphemes + (encode_utf8(self.title@).len() as usize) + 2) % 0x10000,
    {
        let title_bytes = self.title.as_str().len();
        let g = (graphemes % 0x10000) as u16;
        let t = (title_bytes % 0x10000) as u16;
        let r = g.wrapping_add(t).wrapping_add(2);
        assert(r as int == (graphemes + title_bytes + 2) % 0x10000) by (nonlinear_arith)
            requires
                g as int == graphemes as int % 0x10000,
                t as int == title_bytes as int % 0x10000,
                r as int == ((g + t) % 0x10000 + 2) % 0x10000,
        ;
        r
    }

    /// The column of the cursor, after the text typed so far.
    pub fn cursor_column(&self) -> (r: u16)
        ensures
            r as int == (grapheme_count(self.text@) + (encode_utf8(self.title@).len() as usize) + 2)
                % 0x10000,
    {
        let graphemes = count_graphemes(self.text.as_str());
        self.column_after(graphemes)
    }
}

/// A one-line prompt that offers choices, each under a key.
#[derive(Debug)]
pub struct QuickSelect {
    pub title: String,
    pub choices: Vec<(char, String)>,
}

impl Default for QuickSelect {
    fn default() -> (r: QuickSelect)
        ensures
            r.title@ == Seq::<char>::empty(),
            r.choices@.len() == 0,
    {
        QuickSelect { title: String::new(), choices: Vec::new() }
    }
}

impl QuickSelect {
    pub fn new(title: &str) -> (r: Self)
        ensures
            r.title@ == title@,
            r.choices@.len() == 0,
    {
        QuickSelect { title: title.to_owned(), choices: Vec::new() }
    }

    /// The prompt with `choices` added after the ones it has.
    pub fn choices(self, choices: Vec<(char, String)>) -> (r: Self)
        ensures
            r.title == self.title,
            r.choices@ == self.choices@ + choices@,
    {
        let mut all = self.choices;
        let mut more = choices;
        all.append(&mut more);
        QuickSelect { title: self.title, choices: all }
    }
}

/// The selection after `key`: up moves it towards the top and stops there,
/// down moves it towards the bottom of a list of `len` and stops at the last
/// entry, other keys leave it.
pub open spec fn moved(selection: usize, len: nat, key: Key) -> usize {
    if key == Key::Up {
        if selection > 0 {
            (selection - 1) as usize
        } else {
            0
        }
    } else if key == Key::Down {
        if selection + 1 < len {
            (selection + 1) as usize
        } else {
            selection
        }
    } else {
        selection
    }
}

impl TaskList {
    /// Moves the selection as `key` says.
    pub fn move_selection(&mut self, key: Key)
        ensures
            final(self).selection == moved(old(self).selection, old(self).tasks@.len(), key),
            final(self).tasks == old(self).tasks,
            final(self).title == old(self).title,
    {
        let selection = self.selection;
        let len = self.tasks.len();
        let next = match key {
            Key::Up => if selection > 0 {
                selection - 1
            } else {
                0
            },
            Key::Down => if selection < usize::MAX && selection + 1 < len {
                selection + 1
            } else {
                selection
            },
            _ => selection,
        };
        self.selection = next;
    }
}

} // verus!
