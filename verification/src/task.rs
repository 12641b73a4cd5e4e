//! The task record: a numeric id, a name, and a completion flag.

use vstd::prelude::*;

verus! {

/// One to-do item. Ids are assigned by the store as `count + 1` at
/// creation time and are not guaranteed unique once deletions occur.
#[derive(Debug, PartialEq, Eq)]
pub struct Task {
    pub id: u32,
    pub name: String,
    pub completed: bool,
}

/// The mathematical model of a task: the same three fields, with the
/// name as a sequence of characters.
pub ghost struct TaskView {
    pub id: u32,
    pub name: Seq<char>,
    pub completed: bool,
}

impl View for Task {
    type V = TaskView;

    open spec fn view(&self) -> TaskView {
        TaskView { id: self.id, name: self.name@, completed: self.completed }
    }
}

/// The models of the tasks in `ts`, in order.
pub open spec fn views_of(ts: Seq<Task>) -> Seq<TaskView> {
    Seq::new(ts.len(), |i: int| ts[i]@)
}

} // verus!
