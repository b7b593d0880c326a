//! A minimal task-tracking ledger: create a task with a text description,
//! mark a task complete by position, and list all tasks in creation order.

use vstd::prelude::*;

verus! {

/// The abstract value of a task: the characters of its description and
/// whether it has been completed.
#[verifier::ext_equal]
pub ghost struct TaskView {
    pub description: Seq<char>,
    pub completed: bool,
}

/// A task record: a description fixed at creation, and a completion flag
/// that only ever moves from `false` to `true`.
#[derive(Debug)]
pub struct Task {
    pub description: String,
    pub completed: bool,
}

impl View for Task {
    type V = TaskView;

    open spec fn view(&self) -> TaskView {
        TaskView { description: self.description@, completed: self.completed }
    }
}

impl Clone for Task {
    fn clone(&self) -> (cloned: Self)
        ensures
            cloned@ == self@,
    {
        Task { description: self.description.clone(), completed: self.completed }
    }
}

impl Default for Task {
    /// The default task has an empty description and is not completed.
    fn default() -> (task: Self)
        ensures
            task@ == (TaskView { description: Seq::empty(), completed: false }),
    {
        Task { description: String::new(), completed: false }
    }
}

/// Appending a freshly created task: it carries the given description and
/// is not completed.
pub open spec fn spec_create(tasks: Seq<TaskView>, description: Seq<char>) -> Seq<TaskView> {
    tasks.push(TaskView { description, completed: false })
}

/// Marking the task at `index` completed: in range, that one task's flag
/// becomes `true` and nothing else changes; out of range, the sequence is
/// left as it is.
pub open spec fn spec_complete(tasks: Seq<TaskView>, index: int) -> Seq<TaskView> {
    if 0 <= index < tasks.len() {
        tasks.update(index, TaskView { description: tasks[index].description, completed: true })
    } else {
        tasks
    }
}

/// An ordered ledger of tasks. Positions are zero-based, insertion order is
/// kept, and no task is ever removed, so a position refers to the same task
/// for the life of the store.
pub struct TaskManagement {
    tasks: Vec<Task>,
}

impl View for TaskManagement {
    type V = Seq<TaskView>;

    closed spec fn view(&self) -> Seq<TaskView> {
        self.tasks@.map_values(|t: Task| t@)
    }
}

impl TaskManagement {
    /// A new store holds no tasks.
    pub fn new() -> (store: Self)
        ensures
            store@ == Seq::<TaskView>::empty(),
    {
        let store = TaskManagement { tasks: Vec::new() };
        proof {
            assert(store@ =~= Seq::<TaskView>::empty());
        }
        store
    }

    /// Appends a task with the given description and `completed == false`.
    /// Any description is accepted; the call always succeeds.
    pub fn create_task(&mut self, description: String)
        ensures
            final(self)@ == spec_create(old(self)@, description@),
    {
        let ghost description_view = description@;
        let new_task = Task { description, completed: false };
        self.tasks.push(new_task);
        proof {
            assert(self@ =~= spec_create(old(self)@, description_view));
        }
    }

    /// Marks the task at `index` completed. An out-of-range index is a
    /// silent no-op: nothing fails and nothing changes.
    pub fn complete_task(&mut self, index: u16)
        ensures
            final(self)@ == spec_complete(old(self)@, index as int),
    {
        let i = index as usize;
        if i < self.tasks.len() {
            self.tasks[i].completed = true;
            proof {
                assert(self@ =~= spec_complete(old(self)@, index as int));
            }
        }
    }

    /// Returns a copy of every task, in creation order, reflecting all
    /// mutations applied before the call.
    pub fn get_tasks(&self) -> (tasks: Vec<Task>)
        ensures
            tasks@.map_values(|t: Task| t@) == self@,
    {
        let mut tasks: Vec<Task> = Vec::new();
        let mut i: usize = 0;
        while i < self.tasks.len()
            invariant
                i <= self.tasks.len(),
                tasks@.len() == i,
                forall|j: int| 0 <= j < i ==> tasks@[j]@ == self.tasks@[j]@,
            decreases self.tasks.len() - i,
        {
            let task = &self.tasks[i];
            tasks.push(task.clone());
            i += 1;
        }
        proof {
            assert(tasks@.map_values(|t: Task| t@) =~= self@);
        }
        tasks
    }
}

/// The tasks a fresh store holds after creating, in order, tasks with the
/// given descriptions.
pub open spec fn created_all(descriptions: Seq<Seq<char>>) -> Seq<TaskView>
    decreases descriptions.len(),
{
    if descriptions.len() == 0 {
        Seq::empty()
    } else {
        spec_create(created_all(descriptions.drop_last()), descriptions.last())
    }
}

/// Law: after creating tasks with descriptions `d0, d1, ..., dn-1` on a new
/// store, the store holds exactly `n` tasks, in order, each not completed
/// and carrying the matching description.
pub proof fn lemma_creation_order(descriptions: Seq<Seq<char>>)
    ensures
        created_all(descriptions).len() == descriptions.len(),
        forall|i: int| 0 <= i < descriptions.len() ==> created_all(descriptions)[i] == (TaskView {
            description: descriptions[i],
            completed: false,
        }),
    decreases descriptions.len(),
{
    if descriptions.len() > 0 {
        lemma_creation_order(descriptions.drop_last());
    }
}

/// Law: completing a valid index marks exactly that task completed, keeps
/// its description, and leaves every other task unchanged.
pub proof fn lemma_complete_marks_exactly_one(tasks: Seq<TaskView>, index: int)
    requires
        0 <= index < tasks.len(),
    ensures
        spec_complete(tasks, index).len() == tasks.len(),
        spec_complete(tasks, index)[index].completed,
        spec_complete(tasks, index)[index].description == tasks[index].description,
        forall|j: int| 0 <= j < tasks.len() && j != index ==> spec_complete(tasks, index)[j]
            == tasks[j],
{
}

/// Law: completing the same index twice has the same result as completing
/// it once.
pub proof fn lemma_complete_idempotent(tasks: Seq<TaskView>, index: int)
    ensures
        spec_complete(spec_complete(tasks, index), index) == spec_complete(tasks, index),
{
    assert(spec_complete(spec_complete(tasks, index), index) =~= spec_complete(tasks, index));
}

/// Law: completing an index at or beyond the current length changes
/// nothing: not the length and not any existing task.
pub proof fn lemma_complete_out_of_range(tasks: Seq<TaskView>, index: int)
    requires
        index < 0 || index >= tasks.len(),
    ensures
        spec_complete(tasks, index) == tasks,
{
}

} // verus!
