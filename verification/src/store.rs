use vstd::prelude::*;

use crate::date::Date;
use crate::error::DatabaseError;
use crate::error::ToNotDoError;
use crate::task::Task;
use crate::task::TaskState;
use crate::task::TaskView;

verus! {

/// The mathematical value of the persisted container: its metadata and the
/// task sequence, in stored order.
#[verifier::ext_equal]
pub ghost struct DbView {
    pub name: Seq<char>,
    pub version: Seq<char>,
    pub tasks: Seq<TaskView>,
}

pub open spec fn tasks_view(tasks: Seq<Task>) -> Seq<TaskView> {
    tasks.map_values(|t: Task| t@)
}

/// No two tasks share an id.
pub open spec fn unique_ids(s: Seq<TaskView>) -> bool {
    forall|i: int, j: int| 0 <= i < j < s.len() ==> s[i].id != s[j].id
}

pub open spec fn all_wf(s: Seq<TaskView>) -> bool {
    forall|i: int| 0 <= i < s.len() ==> (#[trigger] s[i]).wf()
}

/// Some task in `s` carries the id.
pub open spec fn contains_id(s: Seq<TaskView>, id: u128) -> bool {
    exists|i: int| 0 <= i < s.len() && s[i].id == id
}

/// The index of the first task carrying the id, or -1 if there is none.
pub open spec fn index_of_id(s: Seq<TaskView>, id: u128) -> int
    decreases s.len(),
{
    if s.len() == 0 {
        -1
    } else if s[0].id == id {
        0
    } else {
        let rest = index_of_id(s.drop_first(), id);
        if rest < 0 {
            -1
        } else {
            rest + 1
        }
    }
}

/// The sequence with every task carrying the id removed, order kept.
pub open spec fn remove_id(s: Seq<TaskView>, id: u128) -> Seq<TaskView>
    decreases s.len(),
{
    if s.len() == 0 {
        Seq::empty()
    } else {
        let rest = remove_id(s.drop_last(), id);
        if s.last().id == id {
            rest
        } else {
            rest.push(s.last())
        }
    }
}

/// The subsequence of tasks in the given state, order kept.
pub open spec fn filter_state(s: Seq<TaskView>, state: TaskState) -> Seq<TaskView>
    decreases s.len(),
{
    if s.len() == 0 {
        Seq::empty()
    } else {
        let rest = filter_state(s.drop_last(), state);
        if s.last().state == state {
            rest.push(s.last())
        } else {
            rest
        }
    }
}

pub proof fn lemma_index_of_id(s: Seq<TaskView>, id: u128)
    ensures
        index_of_id(s, id) == -1 || 0 <= index_of_id(s, id) < s.len(),
        contains_id(s, id) <==> index_of_id(s, id) >= 0,
        index_of_id(s, id) >= 0 ==> s[index_of_id(s, id)].id == id,
        forall|j: int| 0 <= j < index_of_id(s, id) ==> s[j].id != id,
    decreases s.len(),
{
    if s.len() == 0 {
    } else if s[0].id == id {
        assert(contains_id(s, id));
    } else {
        let rest = s.drop_first();
        lemma_index_of_id(rest, id);
        assert(forall|j: int| 0 <= j < rest.len() ==> rest[j] == s[j + 1]);
        if contains_id(s, id) {
            let i = choose|i: int| 0 <= i < s.len() && s[i].id == id;
            assert(rest[i - 1].id == id);
            assert(contains_id(rest, id));
        }
        if contains_id(rest, id) {
            let i = choose|i: int| 0 <= i < rest.len() && rest[i].id == id;
            assert(s[i + 1].id == id);
            assert(contains_id(s, id));
        }
        if index_of_id(s, id) >= 0 {
            assert forall|j: int| 0 <= j < index_of_id(s, id) implies s[j].id != id by {
                if j > 0 {
                    assert(rest[j - 1] == s[j]);
                }
            }
        }
    }
}

/// If `i` is an index carrying the id and no earlier index does, it is the
/// first one.
pub proof fn lemma_index_of_id_first(s: Seq<TaskView>, id: u128, i: int)
    requires
        0 <= i < s.len(),
        s[i].id == id,
        forall|j: int| 0 <= j < i ==> s[j].id != id,
    ensures
        index_of_id(s, id) == i,
    decreases i,
{
    if i > 0 {
        let rest = s.drop_first();
        assert(forall|j: int| 0 <= j < rest.len() ==> rest[j] == s[j + 1]);
        lemma_index_of_id_first(rest, id, i - 1);
    }
}

/// The persisted container: application metadata and the task sequence.
#[derive(Debug)]
pub struct Database {
    pub name: String,
    pub version: String,
    pub tasks: Vec<Task>,
}

impl View for Database {
    type V = DbView;

    open spec fn view(&self) -> DbView {
        DbView { name: self.name@, version: self.version@, tasks: tasks_view(self.tasks@) }
    }
}

impl DbView {
    /// Task ids are unique and every task is well formed.
    pub open spec fn wf(self) -> bool {
        unique_ids(self.tasks) && all_wf(self.tasks)
    }
}

/// The contents of a freshly created database: the producing application's
/// name and version, and no tasks.
pub open spec fn spec_empty_db() -> DbView {
    DbView { name: "to_not_do"@, version: "0.1.0"@, tasks: Seq::empty() }
}

impl Default for Database {
    fn default() -> (r: Self)
        ensures
            r@ == spec_empty_db(),
    {
        let r = Database {
            name: String::from_str("to_not_do"),
            version: String::from_str("0.1.0"),
            tasks: Vec::new(),
        };
        proof {
            assert(r@ =~= spec_empty_db());
        }
        r
    }
}

/// The store after appending a task.
pub open spec fn spec_add(db: DbView, t: TaskView) -> DbView {
    DbView { tasks: db.tasks.push(t), ..db }
}

/// The store after replacing the description of the first task carrying the
/// id and refreshing its update date.
pub open spec fn spec_update_description(db: DbView, id: u128, desc: Seq<char>, today: Date) -> DbView {
    let i = index_of_id(db.tasks, id);
    DbView {
        tasks: db.tasks.update(
            i,
            TaskView { description: desc, updated_at: today, ..db.tasks[i] },
        ),
        ..db
    }
}

/// The store after replacing the state of the first task carrying the id and
/// refreshing its update date.
pub open spec fn spec_set_state(db: DbView, id: u128, state: TaskState, today: Date) -> DbView {
    let i = index_of_id(db.tasks, id);
    DbView {
        tasks: db.tasks.update(i, TaskView { state: state, updated_at: today, ..db.tasks[i] }),
        ..db
    }
}

/// The store after removing every task carrying the id.
pub open spec fn spec_delete(db: DbView, id: u128) -> DbView {
    DbView { tasks: remove_id(db.tasks, id), ..db }
}

/// The owner of the in-memory task collection.
#[derive(Debug)]
pub struct DatabaseManager {
    pub db: Database,
}

impl View for DatabaseManager {
    type V = DbView;

    open spec fn view(&self) -> DbView {
        self.db@
    }
}

impl DatabaseManager {
    /// Opens a store from what was found at the storage path: `None` when no
    /// valid file exists there, in which case the store starts empty, or the
    /// loaded container, which is accepted exactly when it is well formed.
    pub fn open(loaded: Option<Database>) -> (r: Option<DatabaseManager>)
        ensures
            loaded is None ==> (r matches Some(m) && m@ == spec_empty_db()),
            loaded matches Some(db) ==> (if db@.wf() {
                r matches Some(m) && m@ == db@
            } else {
                r is None
            }),
            r matches Some(m) ==> m@.wf(),
    {
        match loaded {
            None => {
                proof {
                    assert(spec_empty_db().wf());
                }
                Some(DatabaseManager { db: Database::default() })
            },
            Some(db) => {
                if Self::check_db(&db) {
                    Some(DatabaseManager { db })
                } else {
                    None
                }
            },
        }
    }

    /// Whether the container is well formed: unique ids, valid dates.
    fn check_db(db: &Database) -> (r: bool)
        ensures
            r == db@.wf(),
    {
        let n = db.tasks.len();
        let mut i: usize = 0;
        while i < n
            invariant
                i <= n,
                n == db.tasks@.len(),
                forall|k: int| 0 <= k < i ==> (#[trigger] db@.tasks[k]).wf(),
                forall|k: int, l: int| 0 <= k < l < i ==> db@.tasks[k].id != db@.tasks[l].id,
            decreases n - i,
        {
            if !db.tasks[i].is_wf() {
                proof {
                    assert(!db@.tasks[i as int].wf());
                }
                return false;
            }
            let mut j: usize = 0;
            while j < i
                invariant
                    j <= i < n,
                    n == db.tasks@.len(),
                    forall|l: int| 0 <= l < j ==> db@.tasks[l].id != db@.tasks[i as int].id,
                decreases i - j,
            {
                if db.tasks[j].id == db.tasks[i].id {
                    proof {
                        assert(db@.tasks[j as int].id == db@.tasks[i as int].id);
                        assert(!unique_ids(db@.tasks));
                    }
                    return false;
                }
                j = j + 1;
            }
            i = i + 1;
        }
        true
    }

    /// Whether some task in the store carries the id.
    pub fn contains_task(&self, task_id: u128) -> (r: bool)
        ensures
            r == contains_id(self@.tasks, task_id),
    {
        let n = self.db.tasks.len();
        let mut i: usize = 0;
        while i < n
            invariant
                i <= n,
                n == self.db.tasks@.len(),
                forall|j: int| 0 <= j < i ==> self@.tasks[j].id != task_id,
            decreases n - i,
        {
            if self.db.tasks[i].id == task_id {
                proof {
                    assert(self@.tasks[i as int].id == task_id);
                    assert(contains_id(self@.tasks, task_id));
                }
                return true;
            }
            i = i + 1;
        }
        false
    }

    /// The index of the first task carrying the id, if any.
    fn find_task(&self, task_id: u128) -> (r: Option<usize>)
        ensures
            r matches Some(i) ==> 0 <= i < self@.tasks.len() && index_of_id(self@.tasks, task_id)
                == i,
            r is None ==> !contains_id(self@.tasks, task_id),
    {
        let n = self.db.tasks.len();
        let mut i: usize = 0;
        while i < n
            invariant
                i <= n,
                n == self.db.tasks@.len(),
                forall|j: int| 0 <= j < i ==> self@.tasks[j].id != task_id,
            decreases n - i,
        {
            if self.db.tasks[i].id == task_id {
                proof {
                    lemma_index_of_id_first(self@.tasks, task_id, i as int);
                }
                return Some(i);
            }
            i = i + 1;
        }
        None
    }

    /// Appends the task, refused when its id is already present.
    pub fn add_task(&mut self, task: &Task) -> (r: Result<(), ToNotDoError>)
        ensures
            contains_id(old(self)@.tasks, task@.id) ==> (r matches Err(e) && e
                == ToNotDoError::DatabaseError(DatabaseError::UuidAlreadyExists(task@.id))
                && final(self)@ == old(self)@),
            !contains_id(old(self)@.tasks, task@.id) ==> (r is Ok && final(self)@ == spec_add(
                old(self)@,
                task@,
            )),
            old(self)@.wf() && task@.wf() ==> final(self)@.wf(),
    {
        if self.contains_task(task.id) {
            return Err(ToNotDoError::DatabaseError(DatabaseError::UuidAlreadyExists(task.id)));
        }
        self.db.tasks.push(task.duplicate());
        proof {
            assert(self@ =~= spec_add(old(self)@, task@));
            if old(self)@.wf() && task@.wf() {
                let s = self@.tasks;
                assert forall|i: int, j: int| 0 <= i < j < s.len() implies s[i].id != s[j].id by {
                    if j == s.len() - 1 {
                        assert(!contains_id(old(self)@.tasks, task@.id));
                        assert(old(self)@.tasks[i].id != task@.id);
                    }
                }
            }
        }
        Ok(())
    }

    /// Replaces the description of the task carrying the id and refreshes its
    /// update date; fails when the id is absent.
    pub fn update_description(
        &mut self,
        task_id: u128,
        description: &str,
        today: Date,
    ) -> (r: Result<(), ToNotDoError>)
        ensures
            !contains_id(old(self)@.tasks, task_id) ==> (r matches Err(e) && e
                == ToNotDoError::DatabaseError(DatabaseError::TaskNotFound(task_id)) && final(self)@
                == old(self)@),
            contains_id(old(self)@.tasks, task_id) ==> (r is Ok && final(self)@
                == spec_update_description(old(self)@, task_id, description@, today)),
            old(self)@.wf() && today.wf() ==> final(self)@.wf(),
    {
        match self.find_task(task_id) {
            Some(i) => {
                let mut t = self.db.tasks[i].duplicate();
                t.set_description(description, today);
                self.db.tasks.set(i, t);
                proof {
                    lemma_index_of_id(old(self)@.tasks, task_id);
                    assert(self@ =~= spec_update_description(
                        old(self)@,
                        task_id,
                        description@,
                        today,
                    ));
                    if old(self)@.wf() && today.wf() {
                        lemma_update_keeps_wf(old(self)@, self@, i as int, today);
                    }
                }
                Ok(())
            },
            None => Err(ToNotDoError::DatabaseError(DatabaseError::TaskNotFound(task_id))),
        }
    }

    /// Replaces the state of the task carrying the id and refreshes its
    /// update date; fails when the id is absent.
    pub fn set_task_state(&mut self, task_id: u128, state: TaskState, today: Date) -> (r: Result<
        (),
        ToNotDoError,
    >)
        ensures
            !contains_id(old(self)@.tasks, task_id) ==> (r matches Err(e) && e
                == ToNotDoError::DatabaseError(DatabaseError::TaskNotFound(task_id)) && final(self)@
                == old(self)@),
            contains_id(old(self)@.tasks, task_id) ==> (r is Ok && final(self)@ == spec_set_state(
                old(self)@,
                task_id,
                state,
                today,
            )),
            old(self)@.wf() && today.wf() ==> final(self)@.wf(),
    {
        match self.find_task(task_id) {
            Some(i) => {
                let mut t = self.db.tasks[i].duplicate();
                t.set_state(state, today);
                self.db.tasks.set(i, t);
                proof {
                    lemma_index_of_id(old(self)@.tasks, task_id);
                    assert(self@ =~= spec_set_state(old(self)@, task_id, state, today));
                    if old(self)@.wf() && today.wf() {
                        lemma_update_keeps_wf(old(self)@, self@, i as int, today);
                    }
                }
                Ok(())
            },
            None => Err(ToNotDoError::DatabaseError(DatabaseError::TaskNotFound(task_id))),
        }
    }

    /// Removes every task carrying the id; fails when the id is absent, in
    /// which case the store is left unchanged.
    pub fn delete_task(&mut self, task_id: u128) -> (r: Result<(), ToNotDoError>)
        ensures
            !contains_id(old(self)@.tasks, task_id) ==> (r matches Err(e) && e
                == ToNotDoError::DatabaseError(DatabaseError::TaskNotFound(task_id)) && final(self)@
                == old(self)@),
            contains_id(old(self)@.tasks, task_id) ==> (r is Ok && final(self)@ == spec_delete(
                old(self)@,
                task_id,
            )),
            old(self)@.wf() ==> final(self)@.wf(),
    {
        if !self.contains_task(task_id) {
            return Err(ToNotDoError::DatabaseError(DatabaseError::TaskNotFound(task_id)));
        }
        let n = self.db.tasks.len();
        let mut kept: Vec<Task> = Vec::new();
        let mut i: usize = 0;
        while i < n
            invariant
                i <= n,
                n == self.db.tasks@.len(),
                self == old(self),
                tasks_view(kept@) == remove_id(self@.tasks.subrange(0, i as int), task_id),
            decreases n - i,
        {
            proof {
                let pre = self@.tasks.subrange(0, i as int);
                let post = self@.tasks.subrange(0, i as int + 1);
                assert(post.drop_last() =~= pre);
                assert(post.last() == self@.tasks[i as int]);
            }
            let t = &self.db.tasks[i];
            if t.id != task_id {
                kept.push(t.duplicate());
                proof {
                    assert(tasks_view(kept@) =~= remove_id(
                        self@.tasks.subrange(0, i as int + 1),
                        task_id,
                    ));
                }
            }
            i = i + 1;
        }
        proof {
            assert(self@.tasks.subrange(0, n as int) =~= self@.tasks);
        }
        self.db.tasks = kept;
        proof {
            assert(self@ =~= spec_delete(old(self)@, task_id));
            if old(self)@.wf() {
                lemma_remove_id_keeps_wf(old(self)@.tasks, task_id);
            }
        }
        Ok(())
    }

    /// The full task sequence, in stored order.
    pub fn get_tasks(&self) -> (r: &Vec<Task>)
        ensures
            tasks_view(r@) == self@.tasks,
    {
        &self.db.tasks
    }

    /// The tasks in the given state, in stored order.
    pub fn filter_tasks(&self, state: TaskState) -> (r: Vec<Task>)
        ensures
            tasks_view(r@) == filter_state(self@.tasks, state),
    {
        let n = self.db.tasks.len();
        let mut picked: Vec<Task> = Vec::new();
        let mut i: usize = 0;
        while i < n
            invariant
                i <= n,
                n == self.db.tasks@.len(),
                tasks_view(picked@) == filter_state(self@.tasks.subrange(0, i as int), state),
            decreases n - i,
        {
            proof {
                let pre = self@.tasks.subrange(0, i as int);
                let post = self@.tasks.subrange(0, i as int + 1);
                assert(post.drop_last() =~= pre);
                assert(post.last() == self@.tasks[i as int]);
            }
            let t = &self.db.tasks[i];
            if t.state == state {
                picked.push(t.duplicate());
            }
            proof {
                assert(tasks_view(picked@) =~= filter_state(
                    self@.tasks.subrange(0, i as int + 1),
                    state,
                ));
            }
            i = i + 1;
        }
        proof {
            assert(self@.tasks.subrange(0, n as int) =~= self@.tasks);
        }
        picked
    }
}

/// Replacing one task by a version of it that differs only in mutable fields
/// and carries a valid update date keeps the store well formed.
proof fn lemma_update_keeps_wf(before: DbView, after: DbView, i: int, today: Date)
    requires
        0 <= i < before.tasks.len(),
        after.tasks.len() == before.tasks.len(),
        forall|j: int| 0 <= j < before.tasks.len() && j != i ==> after.tasks[j] == before.tasks[j],
        after.tasks[i].id == before.tasks[i].id,
        after.tasks[i].created_at == before.tasks[i].created_at,
        after.tasks[i].updated_at == today,
        before.wf(),
        today.wf(),
    ensures
        after.wf(),
{
    assert forall|k: int, l: int| 0 <= k < l < after.tasks.len() implies after.tasks[k].id
        != after.tasks[l].id by {
        assert(before.tasks[k].id != before.tasks[l].id);
    }
    assert forall|k: int| 0 <= k < after.tasks.len() implies (#[trigger] after.tasks[k]).wf() by {
        assert(before.tasks[k].wf());
    }
}

/// Removing the tasks carrying an id keeps ids unique and tasks well formed;
/// every task kept comes from the original sequence.
proof fn lemma_remove_id_keeps_wf(s: Seq<TaskView>, id: u128)
    requires
        unique_ids(s),
        all_wf(s),
    ensures
        unique_ids(remove_id(s, id)),
        all_wf(remove_id(s, id)),
        remove_id(s, id).len() <= s.len(),
        forall|k: int| 0 <= k < remove_id(s, id).len() ==> s.contains(#[trigger] remove_id(s, id)[k]),
    decreases s.len(),
{
    if s.len() > 0 {
        let rest = s.drop_last();
        assert(forall|j: int| 0 <= j < rest.len() ==> rest[j] == s[j]);
        lemma_remove_id_keeps_wf(rest, id);
        let r = remove_id(s, id);
        let rr = remove_id(rest, id);
        assert forall|k: int| 0 <= k < r.len() implies s.contains(#[trigger] r[k]) by {
            if k < rr.len() {
                assert(rest.contains(rr[k]));
                let m = choose|m: int| 0 <= m < rest.len() && rest[m] == rr[k];
                assert(s[m] == r[k]);
            } else {
                assert(r[k] == s[s.len() - 1]);
            }
        }
        if s.last().id != id {
            assert forall|k: int, l: int| 0 <= k < l < r.len() implies r[k].id != r[l].id by {
                if l == r.len() - 1 {
                    assert(rest.contains(rr[k]));
                    let m = choose|m: int| 0 <= m < rest.len() && rest[m] == rr[k];
                    assert(s[m].id != s[s.len() - 1].id);
                }
            }
        }
    }
}

/// Law: a task appended to a store stands at the end of a subsequent listing,
/// equal in all fields, with every earlier task unchanged.
pub proof fn lemma_add_round_trip(db: DbView, t: TaskView)
    requires
        !contains_id(db.tasks, t.id),
    ensures
        spec_add(db, t).tasks.len() == db.tasks.len() + 1,
        spec_add(db, t).tasks.last() == t,
        forall|i: int| 0 <= i < db.tasks.len() ==> spec_add(db, t).tasks[i] == db.tasks[i],
{
}

/// Law: after one task is added under an id, that id is present, so a second
/// insertion under the same id is refused and the count has grown by exactly
/// one, not two.
pub proof fn lemma_add_duplicate_conflict(db: DbView, t: TaskView, u: TaskView)
    requires
        !contains_id(db.tasks, t.id),
        u.id == t.id,
    ensures
        contains_id(spec_add(db, t).tasks, u.id),
        spec_add(db, t).tasks.len() == db.tasks.len() + 1,
{
    let s = spec_add(db, t).tasks;
    assert(s[s.len() - 1].id == u.id);
}

/// Law: in a store whose tasks were all created no later than today and
/// updated no earlier than created, refreshing a task's update date to today
/// keeps every creation date on or before its update date. A new task starts
/// with the two dates equal, so under a clock that never runs backwards this
/// ordering is an invariant of the store.
pub proof fn lemma_set_state_keeps_date_order(db: DbView, id: u128, state: TaskState, today: Date)
    requires
        contains_id(db.tasks, id),
        forall|i: int|
            0 <= i < db.tasks.len() ==> (#[trigger] db.tasks[i]).created_at.le(
                db.tasks[i].updated_at,
            ),
        forall|i: int| 0 <= i < db.tasks.len() ==> (#[trigger] db.tasks[i]).created_at.le(today),
    ensures
        forall|i: int|
            0 <= i < spec_set_state(db, id, state, today).tasks.len() ==> (#[trigger] spec_set_state(
                db,
                id,
                state,
                today,
            ).tasks[i]).created_at.le(spec_set_state(db, id, state, today).tasks[i].updated_at),
{
    lemma_index_of_id(db.tasks, id);
    let after = spec_set_state(db, id, state, today).tasks;
    let idx = index_of_id(db.tasks, id);
    assert forall|i: int| 0 <= i < after.len() implies (#[trigger] after[i]).created_at.le(
        after[i].updated_at,
    ) by {
        if i != idx {
            assert(after[i] == db.tasks[i]);
        } else {
            assert(after[i].created_at == db.tasks[i].created_at);
        }
    }
}

/// Law: the three filtered listings partition the store; their lengths sum to
/// the total task count.
pub proof fn lemma_filter_state_partition(tasks: Seq<TaskView>)
    ensures
        filter_state(tasks, TaskState::Todo).len() + filter_state(tasks, TaskState::InProgress).len()
            + filter_state(tasks, TaskState::Done).len() == tasks.len(),
    decreases tasks.len(),
{
    if tasks.len() > 0 {
        lemma_filter_state_partition(tasks.drop_last());
    }
}

/// Law: every task a filtered listing returns is in the requested state and
/// comes from the store, and every stored task in that state is returned.
pub proof fn lemma_filter_state_exact(tasks: Seq<TaskView>, state: TaskState)
    ensures
        forall|i: int| 0 <= i < filter_state(tasks, state).len() ==> (#[trigger] filter_state(
            tasks,
            state,
        )[i]).state == state && tasks.contains(filter_state(tasks, state)[i]),
        forall|i: int| 0 <= i < tasks.len() && (#[trigger] tasks[i]).state == state ==> filter_state(
            tasks,
            state,
        ).contains(tasks[i]),
    decreases tasks.len(),
{
    if tasks.len() > 0 {
        lemma_filter_state_exact(tasks.drop_last(), state);
        let rest = tasks.drop_last();
        assert(forall|i: int| 0 <= i < rest.len() ==> rest[i] == tasks[i]);
        assert forall|i: int|
            0 <= i < filter_state(tasks, state).len() implies (#[trigger] filter_state(
            tasks,
            state,
        )[i]).state == state && tasks.contains(filter_state(tasks, state)[i]) by {
            let f = filter_state(tasks, state);
            let fr = filter_state(rest, state);
            if i < fr.len() {
                assert(rest.contains(fr[i]));
                let j = choose|j: int| 0 <= j < rest.len() && rest[j] == fr[i];
                assert(tasks[j] == fr[i]);
            } else {
                assert(f[i] == tasks.last());
                assert(tasks[tasks.len() - 1] == tasks.last());
            }
        }
        assert forall|i: int|
            0 <= i < tasks.len() && (#[trigger] tasks[i]).state == state implies filter_state(
            tasks,
            state,
        ).contains(tasks[i]) by {
            let f = filter_state(tasks, state);
            let fr = filter_state(rest, state);
            if i < tasks.len() - 1 {
                assert(rest[i] == tasks[i]);
                assert(fr.contains(tasks[i]));
                let j = choose|j: int| 0 <= j < fr.len() && fr[j] == tasks[i];
                if tasks.last().state == state {
                    assert(f[j] == fr[j]);
                } else {
                    assert(f == fr);
                }
            } else {
                assert(tasks[i] == tasks.last());
                assert(f[f.len() - 1] == tasks.last());
            }
        }
    }
}

} // verus!
