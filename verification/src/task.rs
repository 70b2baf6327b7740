use vstd::prelude::*;

use crate::date::Date;
use crate::date::spec_date_str;
use crate::render::render_uuid;
use crate::render::spec_uuid;

verus! {

/// The closed set of states a task can be in.
#[derive(Debug, Clone, Copy, PartialEq, Eq, Structural)]
pub enum TaskState {
    Todo,
    InProgress,
    Done,
}

/// The name of a state as the listing output shows it.
pub open spec fn spec_state_str(s: TaskState) -> Seq<char> {
    match s {
        TaskState::Todo => "Todo"@,
        TaskState::InProgress => "InProgress"@,
        TaskState::Done => "Done"@,
    }
}

pub fn state_str(s: TaskState) -> (r: &'static str)
    ensures
        r@ == spec_state_str(s),
{
    match s {
        TaskState::Todo => "Todo",
        TaskState::InProgress => "InProgress",
        TaskState::Done => "Done",
    }
}

/// The mathematical value of a task: its fields, with the description as a
/// character sequence.
#[verifier::ext_equal]
pub ghost struct TaskView {
    pub id: u128,
    pub description: Seq<char>,
    pub state: TaskState,
    pub created_at: Date,
    pub updated_at: Date,
}

impl TaskView {
    /// Both dates are valid calendar dates.
    pub open spec fn wf(self) -> bool {
        self.created_at.wf() && self.updated_at.wf()
    }
}

/// A single trackable unit of work.
#[derive(Debug, PartialEq, Eq)]
pub struct Task {
    pub id: u128,
    pub description: String,
    pub state: TaskState,
    pub created_at: Date,
    pub updated_at: Date,
}

impl View for Task {
    type V = TaskView;

    open spec fn view(&self) -> TaskView {
        TaskView {
            id: self.id,
            description: self.description@,
            state: self.state,
            created_at: self.created_at,
            updated_at: self.updated_at,
        }
    }
}

/// Relies on `uuid::Uuid::new_v4`: a freshly generated random (version 4)
/// UUID, returned as its 128-bit value. Nothing is promised of a random
/// result.
#[verifier::external_body]
fn fresh_task_id() -> u128 {
    uuid::Uuid::new_v4().as_u128()
}

impl Task {
    /// A new task in state `Todo`, created and last updated today, under a
    /// randomly drawn id.
    pub fn new(description: &str, today: Date) -> (r: Task)
        ensures
            r@.description == description@,
            r@.state == TaskState::Todo,
            r@.created_at == today,
            r@.updated_at == today,
    {
        Task {
            id: fresh_task_id(),
            description: description.to_owned(),
            state: TaskState::Todo,
            created_at: today,
            updated_at: today,
        }
    }

    /// An identical copy.
    pub fn duplicate(&self) -> (r: Task)
        ensures
            r@ == self@,
    {
        Task {
            id: self.id,
            description: self.description.clone(),
            state: self.state,
            created_at: self.created_at,
            updated_at: self.updated_at,
        }
    }

    pub fn is_wf(&self) -> (r: bool)
        ensures
            r == self@.wf(),
    {
        self.created_at.is_wf() && self.updated_at.is_wf()
    }

    pub(crate) fn set_state(&mut self, state: TaskState, today: Date)
        ensures
            final(self)@ == (TaskView { state, updated_at: today, ..old(self)@ }),
    {
        self.state = state;
        self.updated_at = today;
    }

    pub(crate) fn set_description(&mut self, description: &str, today: Date)
        ensures
            final(self)@ == (TaskView {
                description: description@,
                updated_at: today,
                ..old(self)@
            }),
    {
        self.description = description.to_owned();
        self.updated_at = today;
    }

    /// Renders the task as the listing output shows it: description, state,
    /// creation date, update date and id, each on a line of its own.
    pub fn render(&self) -> (r: String)
        ensures
            r@ == spec_render_task(self@),
    {
        let mut out = String::new();
        out.append("Task: ");
        out.append(self.description.as_str());
        out.append("\nState: ");
        out.append(state_str(self.state));
        out.append("\nCreated at: ");
        let created = self.created_at.render();
        out.append(created.as_str());
        out.append("\nUpdated at: ");
        let updated = self.updated_at.render();
        out.append(updated.as_str());
        out.append("\nId: ");
        let id = render_uuid(self.id);
        out.append(id.as_str());
        out
    }
}

/// The rendered form of one task.
pub open spec fn spec_render_task(t: TaskView) -> Seq<char> {
    "Task: "@ + t.description + "\nState: "@ + spec_state_str(t.state) + "\nCreated at: "@
        + spec_date_str(t.created_at) + "\nUpdated at: "@ + spec_date_str(t.updated_at) + "\nId: "@
        + spec_uuid(t.id)
}

} // verus!
