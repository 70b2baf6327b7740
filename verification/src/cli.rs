use vstd::prelude::*;

use crate::date::Date;
use crate::store::DatabaseManager;
use crate::store::DbView;
use crate::store::contains_id;
use crate::store::filter_state;
use crate::store::spec_add;
use crate::store::spec_delete;
use crate::store::spec_set_state;
use crate::store::spec_update_description;
use crate::store::tasks_view;
use crate::task::Task;
use crate::task::TaskState;
use crate::task::TaskView;
use crate::task::spec_render_task;
use crate::task::spec_state_str;
use crate::task::state_str;

verus! {

/// One fully parsed user command.
#[derive(Debug)]
pub enum Commands {
    Add { task_description: String },
    Update { task_id: u128, task_description: String },
    Delete { task_id: u128 },
    List { filter: Option<TaskState> },
    MarkDone { task_id: u128 },
    MarkInProgress { task_id: u128 },
}

/// What dispatching one command produced: the text to show the user, and
/// whether the store changed and so must be persisted again.
pub struct CommandOutcome {
    pub output: String,
    pub store_changed: bool,
}

/// The listing text for a task sequence: each task rendered after a divider
/// line.
pub open spec fn spec_task_blocks(ts: Seq<TaskView>) -> Seq<char>
    decreases ts.len(),
{
    if ts.len() == 0 {
        Seq::empty()
    } else {
        spec_task_blocks(ts.drop_last()) + "------------------\n"@ + spec_render_task(ts.last())
            + "\n"@
    }
}

pub open spec fn spec_add_output(desc: Seq<char>, ok: bool) -> Seq<char> {
    "Adding task: "@ + desc + "\n"@ + if ok {
        "Task added successfully\n"@
    } else {
        "Failed to add task\n"@
    }
}

pub open spec fn spec_update_output(desc: Seq<char>, ok: bool) -> Seq<char> {
    "Updating task: "@ + desc + "\n"@ + if ok {
        "Task updated successfully\n"@
    } else {
        "Task not found\n"@
    }
}

pub open spec fn spec_delete_output(ok: bool) -> Seq<char> {
    if ok {
        "Task deleted successfully\n"@
    } else {
        "Task not found\n"@
    }
}

pub open spec fn spec_mark_done_output(ok: bool) -> Seq<char> {
    if ok {
        "Task marked as done\n"@
    } else {
        "Task not found\n"@
    }
}

pub open spec fn spec_mark_in_progress_output(ok: bool) -> Seq<char> {
    if ok {
        "Task marked as in progress\n"@
    } else {
        "Task not found\n"@
    }
}

pub open spec fn spec_list_all_output(ts: Seq<TaskView>) -> Seq<char> {
    if ts.len() == 0 {
        "No tasks found\n"@
    } else {
        spec_task_blocks(ts) + "------------------\n"@
    }
}

pub open spec fn spec_list_filtered_output(ts: Seq<TaskView>, f: TaskState) -> Seq<char> {
    "Listing tasks with filter: "@ + spec_state_str(f) + "\n"@ + if filter_state(ts, f).len()
        == 0 {
        "No tasks found with the specified filter\n"@
    } else {
        spec_task_blocks(filter_state(ts, f)) + "------------------\n"@
    }
}

/// What adding a task under the freshly drawn id `idv` produced: on a
/// collision with a stored id the store is unchanged and the failure is
/// reported, otherwise the new task is appended and the success is reported.
pub open spec fn spec_add_outcome(
    before: DbView,
    after: DbView,
    desc: Seq<char>,
    today: Date,
    out: Seq<char>,
    changed: bool,
    idv: u128,
) -> bool {
    let t = TaskView {
        id: idv,
        description: desc,
        state: TaskState::Todo,
        created_at: today,
        updated_at: today,
    };
    if contains_id(before.tasks, idv) {
        after == before && out == spec_add_output(desc, false) && changed == false
    } else {
        after == spec_add(before, t) && out == spec_add_output(desc, true) && changed == true
    }
}

/// Some freshly drawn id accounts for the add command's outcome.
pub open spec fn spec_add_result(
    before: DbView,
    after: DbView,
    desc: Seq<char>,
    today: Date,
    out: Seq<char>,
    changed: bool,
) -> bool {
    exists|idv: u128| #[trigger] spec_add_outcome(before, after, desc, today, out, changed, idv)
}

fn append_task_blocks(out: &mut String, tasks: &Vec<Task>)
    ensures
        final(out)@ == old(out)@ + spec_task_blocks(tasks_view(tasks@)),
{
    let n = tasks.len();
    let mut i: usize = 0;
    while i < n
        invariant
            i <= n,
            n == tasks@.len(),
            out@ == old(out)@ + spec_task_blocks(tasks_view(tasks@).subrange(0, i as int)),
        decreases n - i,
    {
        proof {
            let tv = tasks_view(tasks@);
            assert(tv.subrange(0, i as int + 1).drop_last() =~= tv.subrange(0, i as int));
            assert(tv.subrange(0, i as int + 1).last() == tv[i as int]);
        }
        out.append("------------------\n");
        let rendered = tasks[i].render();
        out.append(rendered.as_str());
        out.append("\n");
        i = i + 1;
    }
    proof {
        assert(tasks_view(tasks@).subrange(0, n as int) =~= tasks_view(tasks@));
    }
}

fn handle_add_task(task_description: String, db_manager: &mut DatabaseManager, today: Date) -> (r:
    CommandOutcome)
    requires
        old(db_manager)@.wf(),
        today.wf(),
    ensures
        final(db_manager)@.wf(),
        spec_add_result(
            old(db_manager)@,
            final(db_manager)@,
            task_description@,
            today,
            r.output@,
            r.store_changed,
        ),
{
    let mut out = String::new();
    out.append("Adding task: ");
    out.append(task_description.as_str());
    out.append("\n");
    let task = Task::new(task_description.as_str(), today);
    match db_manager.add_task(&task) {
        Ok(_) => {
            out.append("Task added successfully\n");
            proof {
                let t = TaskView {
                    id: task@.id,
                    description: task_description@,
                    state: TaskState::Todo,
                    created_at: today,
                    updated_at: today,
                };
                assert(task@ =~= t);
                assert(out@ =~= spec_add_output(task_description@, true));
                assert(spec_add_outcome(
                    old(db_manager)@,
                    db_manager@,
                    task_description@,
                    today,
                    out@,
                    true,
                    task@.id,
                ));
                assert(spec_add_result(
                    old(db_manager)@,
                    db_manager@,
                    task_description@,
                    today,
                    out@,
                    true,
                ));
            }
            CommandOutcome { output: out, store_changed: true }
        },
        Err(_) => {
            out.append("Failed to add task\n");
            proof {
                assert(out@ =~= spec_add_output(task_description@, false));
                assert(spec_add_outcome(
                    old(db_manager)@,
                    db_manager@,
                    task_description@,
                    today,
                    out@,
                    false,
                    task@.id,
                ));
                assert(spec_add_result(
                    old(db_manager)@,
                    db_manager@,
                    task_description@,
                    today,
                    out@,
                    false,
                ));
            }
            CommandOutcome { output: out, store_changed: false }
        },
    }
}

fn handle_update_task(
    task_id: u128,
    task_description: String,
    db_manager: &mut DatabaseManager,
    today: Date,
) -> (r: CommandOutcome)
    requires
        old(db_manager)@.wf(),
        today.wf(),
    ensures
        final(db_manager)@.wf(),
        (if contains_id(old(db_manager)@.tasks, task_id) {
            final(db_manager)@ == spec_update_description(
                old(db_manager)@,
                task_id,
                task_description@,
                today,
            ) && r.output@ == spec_update_output(task_description@, true) && r.store_changed
                == true
        } else {
            final(db_manager)@ == old(db_manager)@ && r.output@ == spec_update_output(
                task_description@,
                false,
            ) && r.store_changed == false
        }),
{
    let mut out = String::new();
    out.append("Updating task: ");
    out.append(task_description.as_str());
    out.append("\n");
    match db_manager.update_description(task_id, task_description.as_str(), today) {
        Ok(_) => {
            out.append("Task updated successfully\n");
            CommandOutcome { output: out, store_changed: true }
        },
        Err(_) => {
            out.append("Task not found\n");
            CommandOutcome { output: out, store_changed: false }
        },
    }
}

fn handle_delete_task(task_id: u128, db_manager: &mut DatabaseManager) -> (r: CommandOutcome)
    requires
        old(db_manager)@.wf(),
    ensures
        final(db_manager)@.wf(),
        (if contains_id(old(db_manager)@.tasks, task_id) {
            final(db_manager)@ == spec_delete(old(db_manager)@, task_id) && r.output@
                == spec_delete_output(true) && r.store_changed == true
        } else {
            final(db_manager)@ == old(db_manager)@ && r.output@ == spec_delete_output(false)
                && r.store_changed == false
        }),
{
    let mut out = String::new();
    match db_manager.delete_task(task_id) {
        Ok(_) => {
            out.append("Task deleted successfully\n");
            CommandOutcome { output: out, store_changed: true }
        },
        Err(_) => {
            out.append("Task not found\n");
            CommandOutcome { output: out, store_changed: false }
        },
    }
}

fn handle_list_tasks(db_manager: &DatabaseManager, filter: Option<TaskState>) -> (r:
    CommandOutcome)
    ensures
        filter is None ==> r.output@ == spec_list_all_output(db_manager@.tasks),
        filter matches Some(f) ==> r.output@ == spec_list_filtered_output(db_manager@.tasks, f),
        r.store_changed == false,
{
    let mut out = String::new();
    match filter {
        Some(f) => {
            out.append("Listing tasks with filter: ");
            out.append(state_str(f));
            out.append("\n");
            let filtered_tasks = db_manager.filter_tasks(f);
            if filtered_tasks.len() == 0 {
                out.append("No tasks found with the specified filter\n");
            } else {
                append_task_blocks(&mut out, &filtered_tasks);
                out.append("------------------\n");
            }
            CommandOutcome { output: out, store_changed: false }
        },
        None => {
            let tasks = db_manager.get_tasks();
            if tasks.len() == 0 {
                out.append("No tasks found\n");
            } else {
                append_task_blocks(&mut out, tasks);
                out.append("------------------\n");
            }
            CommandOutcome { output: out, store_changed: false }
        },
    }
}

fn handle_mark_done(task_id: u128, db_manager: &mut DatabaseManager, today: Date) -> (r:
    CommandOutcome)
    requires
        old(db_manager)@.wf(),
        today.wf(),
    ensures
        final(db_manager)@.wf(),
        (if contains_id(old(db_manager)@.tasks, task_id) {
            final(db_manager)@ == spec_set_state(
                old(db_manager)@,
                task_id,
                TaskState::Done,
                today,
            ) && r.output@ == spec_mark_done_output(true) && r.store_changed == true
        } else {
            final(db_manager)@ == old(db_manager)@ && r.output@ == spec_mark_done_output(false)
                && r.store_changed == false
        }),
{
    let mut out = String::new();
    match db_manager.set_task_state(task_id, TaskState::Done, today) {
        Ok(_) => {
            out.append("Task marked as done\n");
            CommandOutcome { output: out, store_changed: true }
        },
        Err(_) => {
            out.append("Task not found\n");
            CommandOutcome { output: out, store_changed: false }
        },
    }
}

fn handle_mark_in_progress(task_id: u128, db_manager: &mut DatabaseManager, today: Date) -> (r:
    CommandOutcome)
    requires
        old(db_manager)@.wf(),
        today.wf(),
    ensures
        final(db_manager)@.wf(),
        (if contains_id(old(db_manager)@.tasks, task_id) {
            final(db_manager)@ == spec_set_state(
                old(db_manager)@,
                task_id,
                TaskState::InProgress,
                today,
            ) && r.output@ == spec_mark_in_progress_output(true) && r.store_changed == true
        } else {
            final(db_manager)@ == old(db_manager)@ && r.output@ == spec_mark_in_progress_output(
                false,
            ) && r.store_changed == false
        }),
{
    let mut out = String::new();
    match db_manager.set_task_state(task_id, TaskState::InProgress, today) {
        Ok(_) => {
            out.append("Task marked as in progress\n");
            CommandOutcome { output: out, store_changed: true }
        },
        Err(_) => {
            out.append("Task not found\n");
            CommandOutcome { output: out, store_changed: false }
        },
    }
}

/// Translates one parsed command into exactly one store operation and the
/// text a user sees for it.
pub fn handle_commands(args: Commands, db_manager: &mut DatabaseManager, today: Date) -> (r:
    CommandOutcome)
    requires
        old(db_manager)@.wf(),
        today.wf(),
    ensures
        final(db_manager)@.wf(),
        args matches Commands::Add { task_description } ==> spec_add_result(
            old(db_manager)@,
            final(db_manager)@,
            task_description@,
            today,
            r.output@,
            r.store_changed,
        ),
        args matches Commands::Update { task_id, task_description } ==> (if contains_id(
            old(db_manager)@.tasks,
            task_id,
        ) {
            final(db_manager)@ == spec_update_description(
                old(db_manager)@,
                task_id,
                task_description@,
                today,
            ) && r.output@ == spec_update_output(task_description@, true) && r.store_changed
                == true
        } else {
            final(db_manager)@ == old(db_manager)@ && r.output@ == spec_update_output(
                task_description@,
                false,
            ) && r.store_changed == false
        }),
        args matches Commands::Delete { task_id } ==> (if contains_id(
            old(db_manager)@.tasks,
            task_id,
        ) {
            final(db_manager)@ == spec_delete(old(db_manager)@, task_id) && r.output@
                == spec_delete_output(true) && r.store_changed == true
        } else {
            final(db_manager)@ == old(db_manager)@ && r.output@ == spec_delete_output(false)
                && r.store_changed == false
        }),
        args matches Commands::List { filter } ==> final(db_manager)@ == old(db_manager)@
            && r.store_changed == false && (if filter is None {
            r.output@ == spec_list_all_output(old(db_manager)@.tasks)
        } else {
            r.output@ == spec_list_filtered_output(old(db_manager)@.tasks, filter->Some_0)
        }),
        args matches Commands::MarkDone { task_id } ==> (if contains_id(
            old(db_manager)@.tasks,
            task_id,
        ) {
            final(db_manager)@ == spec_set_state(
                old(db_manager)@,
                task_id,
                TaskState::Done,
                today,
            ) && r.output@ == spec_mark_done_output(true) && r.store_changed == true
        } else {
            final(db_manager)@ == old(db_manager)@ && r.output@ == spec_mark_done_output(false)
                && r.store_changed == false
        }),
        args matches Commands::MarkInProgress { task_id } ==> (if contains_id(
            old(db_manager)@.tasks,
            task_id,
        ) {
            final(db_manager)@ == spec_set_state(
                old(db_manager)@,
                task_id,
                TaskState::InProgress,
                today,
            ) && r.output@ == spec_mark_in_progress_output(true) && r.store_changed == true
        } else {
            final(db_manager)@ == old(db_manager)@ && r.output@ == spec_mark_in_progress_output(
                false,
            ) && r.store_changed == false
        }),
{
    match args {
        Commands::Add { task_description } => handle_add_task(task_description, db_manager, today),
        Commands::Update { task_id, task_description } => handle_update_task(
            task_id,
            task_description,
            db_manager,
            today,
        ),
        Commands::Delete { task_id } => handle_delete_task(task_id, db_manager),
        Commands::List { filter } => handle_list_tasks(db_manager, filter),
        Commands::MarkDone { task_id } => handle_mark_done(task_id, db_manager, today),
        Commands::MarkInProgress { task_id } => handle_mark_in_progress(task_id, db_manager, today),
    }
}

} // verus!
