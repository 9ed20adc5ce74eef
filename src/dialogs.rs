//! The prompts: a search for a task, a line of text, a choice among a few.
use crate::components::{moved, QuickInput, QuickSelect, TaskList};
use crate::text::{pop_char, push_char};
use crate::state::{Next, Reply};
use crate::task::Filter;
use crate::tasker::{Key, Search, Tasker};
use vstd::prelude::*;

verus! {

/// Asks the user to pick a task by searching the titles.
pub struct SearchTaskState {
    pub title: String,
}

/// Asks for a line of text. A continuous prompt yields the text to its
/// parent at every change.
#[derive(Debug)]
pub struct QuickInputState {
    pub title: String,
    pub continuous: bool,
    pub text: String,
}

/// Asks the user to choose, by its key, among a few texts.
#[derive(Debug)]
pub struct QuickSelectState {
    pub title: String,
    pub choices: Vec<(char, String)>,
}

/// The text after `key`: a letter is appended, backspace removes the last
/// character, other keys leave it.
pub open spec fn edited(text: Seq<char>, key: Key) -> Seq<char> {
    match key {
        Key::Char(c) => text.push(c),
        Key::Backspace => if text.len() > 0 {
            text.drop_last()
        } else {
            text
        },
        _ => text,
    }
}

/// Whether `key` edits a text.
pub open spec fn edits(key: Key) -> bool {
    key is Char || key is Backspace
}

/// Applies `key` to a text.
fn edit(text: &mut String, key: Key)
    ensures
        final(text)@ == edited(old(text)@, key),
        !edits(key) ==> *final(text) == *old(text),
{
    match key {
        Key::Char(c) => push_char(text, c),
        Key::Backspace => {
            let _ = pop_char(text);
        },
        _ => {},
    }
}

/// A copy of a text.
fn copy_text(s: &String) -> (r: String)
    ensures
        r@ == s@,
{
    s.clone()
}

impl SearchTaskState {
    /// What handling `key` may do: the context `data` becomes `data_after`
    /// and the unit decides `r`.
    pub open spec fn handles(&self, data: Tasker, key: Key, data_after: Tasker, r: Next) -> bool {
        &&& (data.quick_input is Some && data.search is Some ==> {
            let text = edited(data.quick_input->0.text@, key);
            let search = data_after.search->0;
            &&& data_after.quick_input is Some
            &&& data_after.quick_input->0.text@ == text
            &&& data_after.search is Some
            &&& edits(key) ==> search.filter.title@ == text && search.list.tasks@
                == search.filter.picks(data.data.store@) && search.list.selection == 0
            &&& !edits(key) ==> search.list.tasks == data.search->0.list.tasks
            &&& key == Key::Enter ==> r == Next::Finish(
                Reply::Picked(data.search->0.list.selected()),
            )
            &&& key == Key::Esc ==> r == Next::Finish(Reply::Picked(None))
        &&& (key == Key::Up || key == Key::Down) ==> r is Stay && search.list.selection
                == moved(data.search->0.list.selection, data.search->0.list.tasks@.len(), key)
            &&& edits(key) ==> r is Stay
        &&& (key == Key::Enter || key == Key::Esc) ==> data_after == data
        &&& (key == Key::Up || key == Key::Down) ==> search.filter == data.search->0.filter && search.list.title == data.search->0.list.title
        })
        &&& (data_after.data == data.data)
    }

    /// Handles a key: letters and backspace edit the search and filter the
    /// list anew, the arrows move the selection, enter picks the selected
    /// task and escape picks none. The unit runs only while its prompt and
    /// list are open.
    pub fn act(&self, data: &mut Tasker, key: Key) -> (r: Next)
        requires
            old(data).quick_input is Some,
            old(data).search is Some,
        ensures
            self.handles(*old(data), key, *final(data), r),
    {
        if data.quick_input.is_none() || data.search.is_none() {
            return Next::Stay;
        }
        let send = match key {
            Key::Char(_) | Key::Backspace => true,
            _ => false,
        };
        if let Some(input) = &mut data.quick_input {
            edit(&mut input.text, key);
        }
        if send {
            let text = match &data.quick_input {
                Some(input) => copy_text(&input.text),
                None => String::new(),
            };
            if let Some(search) = &mut data.search {
                search.filter.title = text;
                search.list.apply_filter(&data.data, &search.filter);
            }
            return Next::Stay;
        }
        match key {
            Key::Enter => {
                let picked = match &data.search {
                    Some(search) => search.list.selection(),
                    None => None,
                };
                Next::Finish(Reply::Picked(picked))
            },
            Key::Esc => Next::Finish(Reply::Picked(None)),
            _ => {
                if let Some(search) = &mut data.search {
                    search.list.move_selection(key);
                }
                Next::Stay
            },
        }
    }

    /// What the hook may do: the context `data` becomes `data_after`, and
    /// the unit decides `r`.
    pub open spec fn entered(&self, data: Tasker, data_after: Tasker, r: Next) -> bool {
        &&& (r is Stay)
        &&& (data_after.quick_input matches Some(q) && q.title@ == "Search"@ && q.text@.len() == 0)
        &&& (data_after.search matches Some(s) && s.filter.title@.len() == 0 && s.filter.status is None
            && s.list.tasks@ == s.filter.picks(data.data.store@) && s.list.selection == 0)
        &&& (data_after.data == data.data)
    }

    /// Opens the search prompt and a list of every task.
    pub fn on_enter(&self, data: &mut Tasker) -> (r: Next)
        ensures
            self.entered(*old(data), *final(data), r),
    {
        let mut list = TaskList::default().title(self.title.as_str());
        let filter = Filter::default();
        list.apply_filter(&data.data, &filter);
        data.quick_input = Some(QuickInput::new("Search"));
        data.search = Some(Search { filter, list });
        Next::Stay
    }

    /// What the hook may do: the context `data` becomes `data_after`.
    pub open spec fn left(&self, data: Tasker, data_after: Tasker) -> bool {
        &&& (data_after.quick_input is None)
        &&& (data_after.search is None)
        &&& (data_after.data == data.data)
    }

    /// Closes the search prompt and the list.
    pub fn on_exit(&self, data: &mut Tasker)
        ensures
            self.left(*old(data), *final(data)),
    {
        data.quick_input = None;
        data.search = None;
    }
}

impl QuickInputState {
    pub fn new(title: &str) -> (r: Self)
        ensures
            r.title@ == title@,
            r.text@.len() == 0,
            !r.continuous,
    {
        QuickInputState { title: title.to_owned(), text: String::new(), continuous: false }
    }

    /// The prompt with `text` already typed.
    pub fn text(self, text: String) -> (r: Self)
        ensures
            r.title == self.title,
            r.continuous == self.continuous,
            r.text == text,
    {
        QuickInputState { text, ..self }
    }

    /// The prompt, yielding at every change if `v` is set.
    pub fn continuous(self, v: bool) -> (r: Self)
        ensures
            r.title == self.title,
            r.text == self.text,
            r.continuous == v,
    {
        QuickInputState { continuous: v, ..self }
    }

    /// What handling `key` may do: the context `data` becomes `data_after`
    /// and the unit decides `r`.
    pub open spec fn handles(&self, data: Tasker, key: Key, data_after: Tasker, r: Next) -> bool {
        &&& (data.quick_input is Some ==> {
            let text = edited(data.quick_input->0.text@, key);
            &&& data_after.quick_input is Some
            &&& data_after.quick_input->0.title == data.quick_input->0.title
            &&& data_after.quick_input->0.text@ == text
            &&& edits(key) && self.continuous ==> (r matches Next::Yield(Reply::Text(Some(t)))
                && t@ == text)
            &&& key == Key::Enter ==> (r matches Next::Finish(Reply::Text(Some(t))) && t@
                == text)
            &&& key == Key::Esc ==> r == Next::Finish(Reply::Text(None))
            &&& !(edits(key) && self.continuous) && key != Key::Enter && key != Key::Esc
                ==> r is Stay
        })
        &&& (data_after.data == data.data)
        &&& (data_after.search == data.search)
    }

    /// Handles a key: letters and backspace edit the text, and a continuous
    /// prompt yields it at once; enter finishes with the text and escape
    /// with none. The unit runs only while its prompt is open.
    pub fn act(&self, data: &mut Tasker, key: Key) -> (r: Next)
        requires
            old(data).quick_input is Some,
        ensures
            self.handles(*old(data), key, *final(data), r),
    {
        let text = match &mut data.quick_input {
            Some(input) => {
                edit(&mut input.text, key);
                copy_text(&input.text)
            },
            None => {
                return Next::Stay;
            },
        };
        let send = match key {
            Key::Char(_) | Key::Backspace => true,
            _ => false,
        };
        if send && self.continuous {
            Next::Yield(Reply::Text(Some(text)))
        } else if key == Key::Enter {
            Next::Finish(Reply::Text(Some(text)))
        } else if key == Key::Esc {
            Next::Finish(Reply::Text(None))
        } else {
            Next::Stay
        }
    }

    /// What the hook may do: the context `data` becomes `data_after`, and
    /// the unit decides `r`.
    pub open spec fn entered(&self, data: Tasker, data_after: Tasker, r: Next) -> bool {
        &&& (r is Stay)
        &&& (data_after.quick_input matches Some(q) && q.title@ == self.title@ && q.text@
            == self.text@)
        &&& (data_after.data == data.data)
    }

    /// Opens the prompt with the unit's title and text.
    pub fn on_enter(&self, data: &mut Tasker) -> (r: Next)
        ensures
            self.entered(*old(data), *final(data), r),
    {
        data.quick_input = Some(QuickInput::new(self.title.as_str()).text(copy_text(&self.text)));
        Next::Stay
    }

    /// What the hook may do: the context `data` becomes `data_after`.
    pub open spec fn left(&self, data: Tasker, data_after: Tasker) -> bool {
        &&& (data_after.quick_input is None)
        &&& (data_after.data == data.data)
    }

    /// Closes the prompt.
    pub fn on_exit(&self, data: &mut Tasker)
        ensures
            self.left(*old(data), *final(data)),
    {
        data.quick_input = None;
    }
}

/// The text offered under key `c`: the first choice with that key.
pub open spec fn choice_for(choices: Seq<(char, String)>, c: char) -> Option<Seq<char>>
    decreases choices.len(),
{
    if choices.len() == 0 {
        None
    } else if choices[0].0 == c {
        Some(choices[0].1@)
    } else {
        choice_for(choices.subrange(1, choices.len() as int), c)
    }
}

/// A copy of a list of choices.
fn copy_choices(choices: &Vec<(char, String)>) -> (r: Vec<(char, String)>)
    ensures
        r@.len() == choices@.len(),
        forall|i: int| 0 <= i < r@.len() ==> r@[i].0 == choices@[i].0 && r@[i].1@ == choices@[i].1@,
{
    let mut r: Vec<(char, String)> = Vec::new();
    let mut i: usize = 0;
    while i < choices.len()
        invariant
            i <= choices@.len(),
            r@.len() == i,
            forall|k: int| 0 <= k < i ==> r@[k].0 == choices@[k].0 && r@[k].1@ == choices@[k].1@,
        decreases choices@.len() - i,
    {
        let key = choices[i].0;
        let text = copy_text(&choices[i].1);
        r.push((key, text));
        i = i + 1;
    }
    r
}

impl QuickSelectState {
    pub fn new(title: String, choices: Vec<(char, String)>) -> (r: Self)
        ensures
            r.title == title,
            r.choices == choices,
    {
        QuickSelectState { title, choices }
    }

    /// What handling `key` may do: the context `data` becomes `data_after`
    /// and the unit decides `r`.
    pub open spec fn handles(&self, data: Tasker, key: Key, data_after: Tasker, r: Next) -> bool {
        &&& (data_after == data)
        &&& (data.quick_select matches Some(q) ==> match key {
            Key::Char(c) => match choice_for(q.choices@, c) {
                Some(t) => r matches Next::Finish(Reply::Text(Some(u))) && u@ == t,
                None => r is Stay,
            },
            Key::Esc => r == Next::Finish(Reply::Text(None)),
            _ => r is Stay,
        })
    }

    /// Handles a key: the key of a choice finishes with its text, escape
    /// finishes with none. The unit runs only while its prompt is open.
    pub fn act(&self, data: &mut Tasker, key: Key) -> (r: Next)
        requires
            old(data).quick_select is Some,
        ensures
            self.handles(*old(data), key, *final(data), r),
    {
        let input = match &data.quick_select {
            Some(q) => q,
            None => {
                return Next::Stay;
            },
        };
        match key {
            Key::Char(c) => {
                assert(input.choices@.subrange(0, input.choices@.len() as int) =~= input.choices@);
                let mut i: usize = 0;
                while i < input.choices.len()
                    invariant
                        old(data).quick_select == Some(*input),
                        *data == *old(data),
                        key == Key::Char(c),
                        i <= input.choices@.len(),
                        choice_for(input.choices@, c) == choice_for(
                            input.choices@.subrange(i as int, input.choices@.len() as int),
                            c,
                        ),
                    decreases input.choices@.len() - i,
                {
                    let ghost rest = input.choices@.subrange(i as int, input.choices@.len() as int);
                    assert(rest.subrange(1, rest.len() as int) =~= input.choices@.subrange(
                        i + 1,
                        input.choices@.len() as int,
                    ));
                    if input.choices[i].0 == c {
                        return Next::Finish(Reply::Text(Some(copy_text(&input.choices[i].1))));
                    }
                    i = i + 1;
                }
                assert(input.choices@.subrange(i as int, input.choices@.len() as int).len() == 0);
                Next::Stay
            },
            Key::Esc => Next::Finish(Reply::Text(None)),
            _ => Next::Stay,
        }
    }

    /// What the hook may do: the context `data` becomes `data_after`, and
    /// the unit decides `r`.
    pub open spec fn entered(&self, data: Tasker, data_after: Tasker, r: Next) -> bool {
        &&& (r is Stay)
        &&& (data_after.quick_select matches Some(q) && q.title@ == self.title@ && q.choices@.len()
            == self.choices@.len() && forall|i: int|
            0 <= i < self.choices@.len() ==> q.choices@[i].0 == self.choices@[i].0
                && q.choices@[i].1@ == self.choices@[i].1@)
        &&& (data_after.data == data.data)
    }

    /// Opens the prompt with the unit's title and choices.
    pub fn on_enter(&self, data: &mut Tasker) -> (r: Next)
        ensures
            self.entered(*old(data), *final(data), r),
    {
        let choices = copy_choices(&self.choices);
        data.quick_select = Some(QuickSelect::new(self.title.as_str()).choices(choices));
        Next::Stay
    }

    /// What the hook may do: the context `data` becomes `data_after`.
    pub open spec fn left(&self, data: Tasker, data_after: Tasker) -> bool {
        &&& (data_after.quick_select is None)
        &&& (data_after.data == data.data)
    }

    /// Closes the prompt.
    pub fn on_exit(&self, data: &mut Tasker)
        ensures
            self.left(*old(data), *final(data)),
    {
        data.quick_select = None;
    }
}

} // verus!
