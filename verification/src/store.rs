//! The task store: the ordered collection of all tasks. Insertion order is
//! creation order, and a task is addressed by its position, which every
//! deletion at a lower position moves down by one.

use crate::date::Date;
use crate::task::{Task, TaskView};
use vstd::prelude::*;

verus! {

/// The tasks that `tasks` stand for, in the same order.
pub open spec fn views(tasks: Seq<Task>) -> Seq<TaskView> {
    tasks.map_values(|t: Task| t@)
}

/// `tasks` with the flag of the task at `index` set to `value`; `tasks`
/// itself where there is no such position.
pub open spec fn with_completed(tasks: Seq<TaskView>, index: int, value: bool) -> Seq<TaskView> {
    if 0 <= index < tasks.len() {
        tasks.update(index, TaskView { completed: value, ..tasks[index] })
    } else {
        tasks
    }
}

/// `tasks` without the task at `index`, the later ones moved down by one;
/// `tasks` itself where there is no such position.
pub open spec fn without(tasks: Seq<TaskView>, index: int) -> Seq<TaskView> {
    if 0 <= index < tasks.len() {
        tasks.remove(index)
    } else {
        tasks
    }
}

/// The tasks of `tasks` that are not done, in the order in which they stand.
pub open spec fn unfinished_of(tasks: Seq<TaskView>) -> Seq<TaskView> {
    tasks.filter(|t: TaskView| !t.completed)
}

/// The tasks that borrowed `tasks` stand for, in the same order.
pub open spec fn ref_views(tasks: Seq<&Task>) -> Seq<TaskView> {
    tasks.map_values(|t: &Task| t@)
}

/// `tasks` after the flag changes of `toggles` were made one after the
/// other, first to last.
pub open spec fn toggled(tasks: Seq<TaskView>, toggles: Seq<(usize, bool)>) -> Seq<TaskView>
    decreases toggles.len(),
{
    if toggles.len() == 0 {
        tasks
    } else {
        let change = toggles.last();
        with_completed(toggled(tasks, toggles.drop_last()), change.0 as int, change.1)
    }
}

/// `tasks` after the positions of `staged` were deleted one after the other,
/// last to first, each deletion moving the later tasks down before the next
/// one is made.
pub open spec fn deleted_back_to_front(tasks: Seq<TaskView>, staged: Seq<usize>) -> Seq<TaskView>
    decreases staged.len(),
{
    if staged.len() == 0 {
        tasks
    } else {
        deleted_back_to_front(without(tasks, staged.last() as int), staged.drop_last())
    }
}

/// What was found where the durable copy of the collection is kept.
pub enum Loaded {
    /// There is no durable copy.
    Missing,
    /// There is one, and it cannot be read as a collection of tasks.
    Unreadable,
    /// The collection that the durable copy holds.
    Tasks(Vec<Task>),
}

/// The collection that a store starts with, given what was found: an
/// unreadable copy counts as none.
pub open spec fn loaded_tasks(source: Loaded) -> Seq<TaskView> {
    match source {
        Loaded::Tasks(tasks) => views(tasks@),
        _ => Seq::empty(),
    }
}

/// The authoritative in-memory collection of tasks.
pub struct TaskStore {
    tasks: Vec<Task>,
}

impl View for TaskStore {
    type V = Seq<TaskView>;

    closed spec fn view(&self) -> Seq<TaskView> {
        views(self.tasks@)
    }
}

impl TaskStore {
    /// An empty store.
    pub fn new() -> (store: TaskStore)
        ensures
            store@ == Seq::<TaskView>::empty(),
    {
        TaskStore { tasks: Vec::new() }
    }

    /// The store a session starts with. A missing or unreadable durable copy
    /// gives an empty store; otherwise the store holds what the copy held, in
    /// the same order.
    pub fn load(source: Loaded) -> (store: TaskStore)
        ensures
            store@ == loaded_tasks(source),
    {
        match source {
            Loaded::Tasks(tasks) => TaskStore { tasks },
            _ => TaskStore { tasks: Vec::new() },
        }
    }

    /// The whole collection in order: what is shown, and what is written when
    /// the store is persisted.
    pub fn list(&self) -> (tasks: &Vec<Task>)
        ensures
            views(tasks@) == self@,
    {
        &self.tasks
    }

    pub fn len(&self) -> (len: usize)
        ensures
            len == self@.len(),
    {
        self.tasks.len()
    }

    /// Appends a task that is not yet done, unless `title` is empty. Returns
    /// whether the task was added, that is, whether the collection changed
    /// and has to be persisted.
    pub fn append(&mut self, title: String, date: Date) -> (added: bool)
        ensures
            added == (title@.len() > 0),
            added ==> final(self)@ == old(self)@.push(
                TaskView { title: title@, date: date@, completed: false },
            ),
            !added ==> final(self)@ == old(self)@,
    {
        if title.as_str().is_empty() {
            return false;
        }
        let task = Task::new(title, date);
        self.tasks.push(task);
        true
    }

    /// Sets the completion flag of the task at `index`. A position past the
    /// end is ignored. Returns whether there was such a task.
    pub fn set_completed(&mut self, index: usize, value: bool) -> (found: bool)
        ensures
            found == (index < old(self)@.len()),
            final(self)@ == with_completed(old(self)@, index as int, value),
    {
        if index < self.tasks.len() {
            self.tasks[index].set_completed(value);
            true
        } else {
            false
        }
    }

    /// Removes the task at `index`; the tasks behind it move down by one. A
    /// position past the end is ignored. Returns whether a task was removed,
    /// that is, whether the collection changed and has to be persisted.
    pub fn delete(&mut self, index: usize) -> (removed: bool)
        ensures
            removed == (index < old(self)@.len()),
            final(self)@ == without(old(self)@, index as int),
    {
        if index < self.tasks.len() {
            self.tasks.remove(index);
            true
        } else {
            false
        }
    }
    /// The tasks that are not done, in the order in which they stand.
    pub fn unfinished(&self) -> (open: Vec<&Task>)
        ensures
            ref_views(open@) == unfinished_of(self@),
    {
        let mut open: Vec<&Task> = Vec::new();
        let mut i: usize = 0;
        proof {
            reveal(Seq::filter);
            assert(self@.take(0) =~= Seq::<TaskView>::empty());
        }
        while i < self.tasks.len()
            invariant
                i <= self.tasks.len(),
                ref_views(open@) == unfinished_of(self@.take(i as int)),
            decreases self.tasks.len() - i,
        {
            let task = &self.tasks[i];
            proof {
                reveal(Seq::filter);
                let next = self@.take(i + 1);
                assert(next.drop_last() =~= self@.take(i as int));
                assert(next.last() == task@);
            }
            if !task.is_completed() {
                let ghost before = open@;
                open.push(task);
                assert(ref_views(open@) =~= ref_views(before).push(task@));
            }
            i += 1;
        }
        assert(self@.take(i as int) =~= self@);
        open
    }

    /// The positions of the tasks pinned to `date`, in rising order.
    pub fn positions_on(&self, date: Date) -> (positions: Vec<usize>)
        ensures
            forall|j: int, k: int| 0 <= j < k < positions@.len() ==> positions@[j] < positions@[k],
            forall|k: int|
                0 <= k < positions@.len() ==> positions@[k] < self@.len() && self@[positions@[k] as int].date
                    == date@,
            forall|p: int|
                0 <= p < self@.len() && self@[p].date == date@ ==> exists|k: int|
                    0 <= k < positions@.len() && positions@[k] == p,
    {
        let mut positions: Vec<usize> = Vec::new();
        let mut i: usize = 0;
        while i < self.tasks.len()
            invariant
                i <= self.tasks.len(),
                forall|j: int, k: int|
                    0 <= j < k < positions@.len() ==> positions@[j] < positions@[k],
                forall|k: int|
                    0 <= k < positions@.len() ==> positions@[k] < i && self@[positions@[k] as int].date
                        == date@,
                forall|p: int|
                    0 <= p < i && self@[p].date == date@ ==> exists|k: int|
                        0 <= k < positions@.len() && positions@[k] == p,
            decreases self.tasks.len() - i,
        {
            if self.tasks[i].date().same_day(&date) {
                let ghost before = positions@;
                positions.push(i);
                assert forall|p: int| 0 <= p < i + 1 && self@[p].date == date@ implies exists|k: int|
                    0 <= k < positions@.len() && positions@[k] == p by {
                    if p < i {
                        let k = choose|k: int| 0 <= k < before.len() && before[k] == p;
                        assert(positions@[k] == p);
                    } else {
                        assert(positions@[before.len() as int] == p);
                    }
                }
            }
            i += 1;
        }
        positions
    }

    /// Makes the staged flag changes of one frame, first to last. A change
    /// for a position past the end is ignored.
    pub fn apply_toggles(&mut self, toggles: &Vec<(usize, bool)>)
        ensures
            final(self)@ == toggled(old(self)@, toggles@),
    {
        let mut i: usize = 0;
        while i < toggles.len()
            invariant
                i <= toggles.len(),
                self@ == toggled(old(self)@, toggles@.take(i as int)),
            decreases toggles.len() - i,
        {
            let change = toggles[i];
            proof {
                let next = toggles@.take(i + 1);
                assert(next.drop_last() =~= toggles@.take(i as int));
                assert(next.last() == change);
            }
            self.set_completed(change.0, change.1);
            i += 1;
        }
        assert(toggles@.take(i as int) =~= toggles@);
    }

    /// Makes the staged deletions of one frame, last to first. With
    /// positions staged in rising order that is highest position first, so
    /// that no deletion moves a task that is still to be deleted. A position
    /// past the end is ignored. Returns how many tasks were removed.
    pub fn delete_batch(&mut self, staged: &Vec<usize>) -> (removed: usize)
        ensures
            final(self)@ == deleted_back_to_front(old(self)@, staged@),
            removed == old(self)@.len() - final(self)@.len(),
    {
        let before = self.tasks.len();
        let mut i: usize = staged.len();
        assert(staged@.take(i as int) =~= staged@);
        while i > 0
            invariant
                i <= staged.len(),
                deleted_back_to_front(self@, staged@.take(i as int)) == deleted_back_to_front(
                    old(self)@,
                    staged@,
                ),
                before == old(self)@.len(),
                self@.len() <= before,
            decreases i,
        {
            proof {
                let rest = staged@.take(i as int);
                assert(rest.drop_last() =~= staged@.take(i - 1));
                assert(rest.last() == staged@[i - 1]);
            }
            i -= 1;
            self.delete(staged[i]);
        }
        before - self.tasks.len()
    }

    /// Everything that one frame staged: the flag changes first, then the
    /// deletions, whose positions are those of the collection as it was
    /// shown. The collection is to be persisted once afterwards.
    pub fn apply_frame(&mut self, toggles: &Vec<(usize, bool)>, staged: &Vec<usize>)
        ensures
            final(self)@ == deleted_back_to_front(toggled(old(self)@, toggles@), staged@),
    {
        self.apply_toggles(toggles);
        self.delete_batch(staged);
    }

    /// Adds the text of an input field as a task for `date` and empties the
    /// field. With an empty field nothing happens. Returns whether a task
    /// was added.
    pub fn submit_draft(&mut self, draft: &mut String, date: Date) -> (added: bool)
        ensures
            added == (old(draft)@.len() > 0),
            added ==> final(draft)@.len() == 0 && final(self)@ == old(self)@.push(
                TaskView { title: old(draft)@, date: date@, completed: false },
            ),
            !added ==> final(draft)@ == old(draft)@ && final(self)@ == old(self)@,
    {
        if draft.as_str().is_empty() {
            return false;
        }
        let mut title = String::new();
        core::mem::swap(draft, &mut title);
        self.append(title, date)
    }
}

} // verus!
