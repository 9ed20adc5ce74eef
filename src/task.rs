//! Task records and the store that hands out their identities.
use vstd::prelude::*;
use vstd::string::*;

verus! {

/// The identity of a task. Only a store makes one, for a task it holds.
#[derive(Debug, Clone, Copy, Hash, PartialEq, Eq, Structural)]
pub struct TaskId(u64);

impl TaskId {
    /// The number behind the identity.
    pub closed spec fn num(self) -> u64 {
        self.0
    }

    pub fn id(&self) -> (r: u64)
        ensures
            r == self.num(),
    {
        self.0
    }
}

#[derive(Debug, Clone, Copy, PartialEq, Eq, Structural)]
pub enum Status {
    Todo,
    Done,
}

impl Default for Status {
    fn default() -> (r: Status)
        ensures
            r == Status::Todo,
    {
        Status::Todo
    }
}

/// The status a toggle leads to.
pub open spec fn toggled(s: Status) -> Status {
    match s {
        Status::Todo => Status::Done,
        Status::Done => Status::Todo,
    }
}

#[derive(Debug)]
pub struct Task {
    pub id: TaskId,
    pub title: String,
    pub description: String,
    pub status: Status,
    pub pomodoros: i32,
    pub links: Vec<TaskId>,
}

impl Task {
    /// Flips the status between to do and done, and returns the new one.
    pub fn toggle_status(&mut self) -> (r: Status)
        ensures
            r == toggled(old(self).status),
            *final(self) == (Task { status: r, ..*old(self) }),
    {
        self.status = match self.status {
            Status::Todo => Status::Done,
            Status::Done => Status::Todo,
        };
        self.status
    }
}

/// The tasks, in the order they were created. The store hands out
/// identities in order from 1 and never removes a task, so the identity it
/// gave the `k`-th task is `k` and the task sits at position `k - 1`:
/// `new_task` states both. The store looks identities up by that position,
/// whatever a caller has since written into a task's public `id` field.
#[derive(Debug)]
pub struct TaskStore {
    tasks: Vec<Task>,
}

impl View for TaskStore {
    type V = Seq<Task>;

    /// The tasks, in the order of their identities.
    closed spec fn view(&self) -> Seq<Task> {
        self.tasks@
    }
}

impl Default for TaskStore {
    fn default() -> (r: TaskStore)
        ensures
            r@.len() == 0,
            r.ids_intact(),
    {
        TaskStore { tasks: Vec::new() }
    }
}

impl TaskStore {
    /// Whether every task still carries, in its public `id` field, the
    /// identity the store gave it: the `k`-th task carries `k`. The store's
    /// own methods keep this as long as no caller writes a different `id`.
    pub open spec fn ids_intact(&self) -> bool {
        forall|i: int| 0 <= i < self@.len() ==> (#[trigger] self@[i]).id.num() == i + 1
    }

    /// Whether `id` names a task of this store.
    pub open spec fn holds(&self, id: TaskId) -> bool {
        1 <= id.num() <= self@.len()
    }

    /// The number of tasks.
    pub fn len(&self) -> (r: usize)
        ensures
            r == self@.len(),
    {
        self.tasks.len()
    }

    /// Whether `id` names a task of this store.
    pub fn contains(&self, id: TaskId) -> (r: bool)
        ensures
            r == self.holds(id),
    {
        1 <= id.0 && id.0 <= self.tasks.len() as u64
    }

    /// Creates an empty task to do, under the next identity, and hands it out
    /// for the caller to fill in.
    pub fn new_task(&mut self) -> (r: &mut Task)
        requires
            old(self)@.len() < usize::MAX,
        ensures
            r.id.num() == old(self)@.len() + 1,
            r.title@ == Seq::<char>::empty(),
            r.description@ == Seq::<char>::empty(),
            r.status == Status::Todo,
            r.pomodoros == 0,
            r.links@ == Seq::<TaskId>::empty(),
            final(self)@ == old(self)@.push(*final(r)),
            old(self).ids_intact() && final(r).id == r.id ==> final(self).ids_intact(),
    {
        let id = TaskId(self.tasks.len() as u64 + 1);
        let task = Task {
            id,
            title: String::new(),
            description: String::new(),
            status: Status::default(),
            pomodoros: 0,
            links: Vec::new(),
        };
        self.tasks.push(task);
        let last = self.tasks.len() - 1;
        &mut self.tasks[last]
    }

    pub fn get_task(&self, id: TaskId) -> (r: &Task)
        requires
            self.holds(id),
        ensures
            *r == self@[id.num() - 1],
            self.ids_intact() ==> r.id == id,
    {
        let count = self.tasks.len();
        let k = (id.0 - 1) as usize;
        assert(k < count);
        &self.tasks[k]
    }

    pub fn get_task_mut(&mut self, id: TaskId) -> (r: &mut Task)
        requires
            old(self).holds(id),
        ensures
            *r == old(self)@[id.num() - 1],
            final(self)@ == old(self)@.update(id.num() - 1, *final(r)),
            old(self).ids_intact() ==> r.id == id,
            old(self).ids_intact() && final(r).id == r.id ==> final(self).ids_intact(),
    {
        let count = self.tasks.len();
        let k = (id.0 - 1) as usize;
        assert(k < count);
        &mut self.tasks[k]
    }
}

/// Whether `needle` occurs in `hay` as a run of consecutive characters.
pub open spec fn is_infix(needle: Seq<char>, hay: Seq<char>) -> bool {
    exists|i: int|
        0 <= i && i + needle.len() <= hay.len() && #[trigger] hay.subrange(i, i + needle.len())
            == needle
}

/// Whether `needle` occurs in `hay`.
fn contains_text(hay: &str, needle: &str) -> (r: bool)
    ensures
        r == is_infix(needle@, hay@),
{
    let n = hay.unicode_len();
    let m = needle.unicode_len();
    if m > n {
        return false;
    }
    let mut i: usize = 0;
    while i <= n - m
        invariant
            n == hay@.len(),
            m == needle@.len(),
            m <= n,
            i <= n - m + 1,
            forall|k: int| 0 <= k < i ==> #[trigger] hay@.subrange(k, k + m) != needle@,
        decreases n - m + 1 - i,
    {
        let mut j: usize = 0;
        while j < m && hay.get_char(i + j) == needle.get_char(j)
            invariant
                n == hay@.len(),
                m == needle@.len(),
                i + m <= n,
                j <= m,
                forall|l: int| 0 <= l < j ==> hay@[i + l] == needle@[l],
            decreases m - j,
        {
            j = j + 1;
        }
        if j == m {
            assert(hay@.subrange(i as int, i + m) =~= needle@);
            return true;
        }
        assert(hay@.subrange(i as int, i + m)[j as int] != needle@[j as int]);
        i = i + 1;
    }
    proof {
        assert forall|k: int| 0 <= k && k + m <= n implies #[trigger] hay@.subrange(k, k + m)
            != needle@ by {
            assert(k < i);
        }
    }
    false
}

#[derive(Debug)]
pub struct Filter {
    pub title: String,
    pub status: Option<Status>,
}

impl Default for Filter {
    fn default() -> (r: Filter)
        ensures
            r.title@ == Seq::<char>::empty(),
            r.status is None,
    {
        Filter { title: String::new(), status: None }
    }
}

impl Filter {
    /// Whether the filter lets `t` through: its title holds the filter's
    /// title, and its status is the filter's status if one is set.
    pub open spec fn admits(&self, t: Task) -> bool {
        &&& is_infix(self.title@, t.title@)
        &&& match self.status {
            Some(s) => t.status == s,
            None => true,
        }
    }

    /// The identities of the tasks of `tasks` that the filter lets through,
    /// in order.
    pub open spec fn picks(&self, tasks: Seq<Task>) -> Seq<TaskId>
        decreases tasks.len(),
    {
        if tasks.len() == 0 {
            Seq::empty()
        } else {
            let rest = self.picks(tasks.drop_last());
            if self.admits(tasks.last()) {
                rest.push(tasks.last().id)
            } else {
                rest
            }
        }
    }

    /// The identities of the tasks of `store` that the filter lets through,
    /// in the order they were created.
    pub fn apply(&self, store: &TaskStore) -> (r: Vec<TaskId>)
        ensures
            r@ == self.picks(store@),
            store.ids_intact() ==> r@.no_duplicates(),
    {
        let mut results: Vec<TaskId> = Vec::new();
        let mut i: usize = 0;
        while i < store.tasks.len()
            invariant
                i <= store@.len(),
                results@ == self.picks(store@.subrange(0, i as int)),
                store.ids_intact() ==> results@.no_duplicates(),
                store.ids_intact() ==> forall|j: int|
                    0 <= j < results@.len() ==> (#[trigger] results@[j]).num() <= i,
            decreases store@.len() - i,
        {
            let task = &store.tasks[i];
            proof {
                assert(store@.subrange(0, i + 1).drop_last() =~= store@.subrange(0, i as int));
            }
            let keep = contains_text(task.title.as_str(), self.title.as_str()) && match self.status {
                Some(status) => task.status == status,
                None => true,
            };
            let ghost prior = results@;
            if keep {
                results.push(task.id);
                proof {
                    if store.ids_intact() {
                        assert(task.id.num() == i + 1);
                        assert forall|a: int, b: int| 0 <= a < b < results@.len() implies results@[a]
                            != results@[b] by {
                            if b == results@.len() - 1 {
                                assert(prior[a].num() <= i);
                            }
                        }
                    }
                }
            }
            i = i + 1;
        }
        proof {
            assert(store@.subrange(0, store@.len() as int) =~= store@);
        }
        results
    }
}

} // verus!
