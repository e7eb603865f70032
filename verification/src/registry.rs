//! The tasks that are running.
//!
//! A task is entered when its start command is accepted and leaves when its
//! execution ends or a stop command for it is processed. A task that is not
//! entered is not running; there is no other state.

use crate::name_map::NameMap;
use vstd::prelude::*;

verus! {

/// The state of a task that the registry holds.
#[derive(Debug, Clone, Copy, PartialEq, Eq)]
pub enum TaskState {
    /// The task was handed to the runtime and has not ended.
    Running,
}

/// The running tasks, by task id.
pub struct TaskRegistry {
    tasks: NameMap<TaskState>,
}

impl View for TaskRegistry {
    type V = Map<Seq<char>, TaskState>;

    closed spec fn view(&self) -> Map<Seq<char>, TaskState> {
        self.tasks@
    }
}

impl TaskRegistry {
    /// A registry without tasks.
    pub fn new() -> (registry: Self)
        ensures
            registry@ == Map::<Seq<char>, TaskState>::empty(),
    {
        TaskRegistry { tasks: NameMap::new() }
    }

    /// Enters `task_id` as running. An id that is entered already stays entered once.
    pub fn mark_running(&mut self, task_id: String)
        ensures
            final(self)@ == old(self)@.insert(task_id@, TaskState::Running),
    {
        self.tasks.insert(task_id, TaskState::Running);
    }

    /// Takes `task_id` out, and says whether it was entered. An id that is not
    /// entered is no error.
    pub fn remove(&mut self, task_id: &str) -> (was_running: bool)
        ensures
            final(self)@ == old(self)@.remove(task_id@),
            was_running == old(self)@.contains_key(task_id@),
    {
        self.tasks.remove(task_id).is_some()
    }

    /// Whether `task_id` is entered.
    pub fn is_running(&self, task_id: &str) -> (running: bool)
        ensures
            running == self@.contains_key(task_id@),
    {
        self.tasks.contains(task_id)
    }

    /// The number of running tasks.
    pub fn count(&self) -> (n: usize)
        ensures
            n == self@.dom().len(),
            self@.dom().finite(),
    {
        self.tasks.len()
    }
}

/// Entering a task that is not entered yet makes the count one more; entering
/// one that is leaves the count as it was.
pub proof fn lemma_mark_running_count(tasks: Map<Seq<char>, TaskState>, task_id: Seq<char>)
    requires
        tasks.dom().finite(),
    ensures
        tasks.insert(task_id, TaskState::Running).dom().finite(),
        tasks.insert(task_id, TaskState::Running).dom().len() == tasks.dom().len() + (
        if tasks.contains_key(task_id) {
            0int
        } else {
            1int
        }),
{
    assert(tasks.insert(task_id, TaskState::Running).dom() =~= tasks.dom().insert(task_id));
}

/// Taking out a task that is not entered changes nothing.
pub proof fn lemma_remove_absent(tasks: Map<Seq<char>, TaskState>, task_id: Seq<char>)
    requires
        !tasks.contains_key(task_id),
    ensures
        tasks.remove(task_id) == tasks,
{
    assert(tasks.remove(task_id) =~= tasks);
}

} // verus!
