//! What holds of the store's operations taken together.

use crate::store::{
    deleted_back_to_front, loaded_tasks, toggled, views, with_completed, without, Loaded,
};
use crate::task::{Task, TaskView};
use vstd::prelude::*;

verus! {

/// Whether every staged position is higher than the ones staged before it.
pub open spec fn strictly_rising(staged: Seq<usize>) -> bool {
    forall|j: int, k: int| 0 <= j < k < staged.len() ==> staged[j] < staged[k]
}

/// The positions that `staged` holds.
pub open spec fn staged_positions(staged: Seq<usize>) -> Set<int> {
    Set::new(|p: int| exists|k: int| 0 <= k < staged.len() && staged[k] == p)
}

/// The tasks of `tasks` whose position is not in `gone`, in the order in
/// which they stand.
pub open spec fn surviving(tasks: Seq<TaskView>, gone: Set<int>) -> Seq<TaskView>
    decreases tasks.len(),
{
    if tasks.len() == 0 {
        tasks
    } else {
        let before = surviving(tasks.drop_last(), gone);
        if gone.contains(tasks.len() - 1) {
            before
        } else {
            before.push(tasks.last())
        }
    }
}

/// Whether two tasks differ in nothing but the completion flag.
pub open spec fn same_title_and_date(a: TaskView, b: TaskView) -> bool {
    a.title == b.title && a.date == b.date
}

/// Only positions inside the collection matter to what survives.
proof fn lemma_surviving_agrees(tasks: Seq<TaskView>, gone: Set<int>, other: Set<int>)
    requires
        forall|p: int| 0 <= p < tasks.len() ==> (gone.contains(p) <==> other.contains(p)),
    ensures
        surviving(tasks, gone) == surviving(tasks, other),
    decreases tasks.len(),
{
    if tasks.len() > 0 {
        lemma_surviving_agrees(tasks.drop_last(), gone, other);
    }
}

/// With nothing gone, everything survives.
proof fn lemma_surviving_all(tasks: Seq<TaskView>)
    ensures
        surviving(tasks, Set::empty()) == tasks,
    decreases tasks.len(),
{
    if tasks.len() > 0 {
        lemma_surviving_all(tasks.drop_last());
        assert(tasks.drop_last().push(tasks.last()) =~= tasks);
    }
}

/// Deleting a position above all the others that are to go leaves those
/// others where they were.
proof fn lemma_surviving_after_highest(tasks: Seq<TaskView>, gone: Set<int>, highest: int)
    requires
        0 <= highest < tasks.len(),
        forall|p: int| gone.contains(p) ==> p < highest,
    ensures
        surviving(tasks.remove(highest), gone) == surviving(tasks, gone.insert(highest)),
    decreases tasks.len(),
{
    let shorter = tasks.remove(highest);
    let last = tasks.len() - 1;
    if highest == last {
        assert(shorter =~= tasks.drop_last());
        lemma_surviving_agrees(tasks.drop_last(), gone, gone.insert(highest));
    } else {
        assert(shorter.last() == tasks.last());
        assert(shorter.drop_last() =~= tasks.drop_last().remove(highest));
        lemma_surviving_after_highest(tasks.drop_last(), gone, highest);
    }
}

/// Deletions staged in rising order and made last to first remove exactly
/// the tasks that stood at the staged positions when they were staged:
/// every other task stays, and the order among them is kept. Staged
/// positions past the end remove nothing.
pub proof fn lemma_batch_delete_removes_staged(tasks: Seq<TaskView>, staged: Seq<usize>)
    requires
        strictly_rising(staged),
    ensures
        deleted_back_to_front(tasks, staged) == surviving(tasks, staged_positions(staged)),
    decreases staged.len(),
{
    let gone = staged_positions(staged);
    if staged.len() == 0 {
        lemma_surviving_all(tasks);
        lemma_surviving_agrees(tasks, gone, Set::empty());
    } else {
        let highest = staged.last() as int;
        let rest = staged.drop_last();
        let rest_gone = staged_positions(rest);
        assert(strictly_rising(rest));
        lemma_batch_delete_removes_staged(without(tasks, highest), rest);
        assert forall|p: int| rest_gone.contains(p) implies p < highest by {
            let k = choose|k: int| 0 <= k < rest.len() && rest[k] == p;
            assert(staged[k] < staged[staged.len() - 1]);
        }
        assert forall|p: int| gone.contains(p) <==> rest_gone.insert(highest).contains(p) by {
            if gone.contains(p) {
                let k = choose|k: int| 0 <= k < staged.len() && staged[k] == p;
                if k < rest.len() {
                    assert(rest[k] == p);
                }
            }
            if rest_gone.contains(p) {
                let k = choose|k: int| 0 <= k < rest.len() && rest[k] == p;
                assert(staged[k] == p);
            }
            if p == highest {
                assert(staged[staged.len() - 1] == p);
            }
        }
        if highest < tasks.len() {
            lemma_surviving_after_highest(tasks, rest_gone, highest);
            lemma_surviving_agrees(tasks, rest_gone.insert(highest), gone);
        } else {
            lemma_surviving_agrees(tasks, rest_gone, gone);
        }
    }
}

/// After a deletion the tasks before the deleted position are where they
/// were, and each later task stands one position lower.
pub proof fn lemma_delete_shifts(tasks: Seq<TaskView>, index: int)
    requires
        0 <= index < tasks.len(),
    ensures
        without(tasks, index).len() == tasks.len() - 1,
        forall|p: int| 0 <= p < index ==> without(tasks, index)[p] == tasks[p],
        forall|p: int| index <= p < tasks.len() - 1 ==> without(tasks, index)[p] == tasks[p + 1],
{
}

/// Deleting twice at one position removes the task that stood there and the
/// one that stood behind it.
pub proof fn lemma_delete_twice(tasks: Seq<TaskView>, index: int)
    requires
        0 <= index,
        index + 1 < tasks.len(),
    ensures
        without(without(tasks, index), index) == tasks.take(index) + tasks.skip(index + 2),
{
    assert(without(without(tasks, index), index) =~= tasks.take(index) + tasks.skip(index + 2));
}

/// A flag change or a deletion at a position past the end leaves the
/// collection as it was.
pub proof fn lemma_out_of_range_is_ignored(tasks: Seq<TaskView>, index: int, value: bool)
    requires
        index >= tasks.len(),
    ensures
        with_completed(tasks, index, value) == tasks,
        without(tasks, index) == tasks,
{
}

/// A flag change touches one flag and nothing else: the collection keeps
/// its length, every task keeps its title and date, and every task but the
/// addressed one keeps its flag.
pub proof fn lemma_toggle_changes_one_flag(tasks: Seq<TaskView>, index: int, value: bool)
    ensures
        with_completed(tasks, index, value).len() == tasks.len(),
        forall|p: int|
            0 <= p < tasks.len() ==> same_title_and_date(
                #[trigger] with_completed(tasks, index, value)[p],
                tasks[p],
            ),
        forall|p: int|
            0 <= p < tasks.len() && p != index ==> #[trigger] with_completed(tasks, index, value)[p]
                == tasks[p],
        0 <= index < tasks.len() ==> with_completed(tasks, index, value)[index].completed == value,
{
}

/// However many flag changes a frame makes, no task is added, removed or
/// moved, and no title or date changes.
pub proof fn lemma_toggles_keep_titles_and_dates(tasks: Seq<TaskView>, toggles: Seq<(usize, bool)>)
    ensures
        toggled(tasks, toggles).len() == tasks.len(),
        forall|p: int|
            0 <= p < tasks.len() ==> same_title_and_date(#[trigger] toggled(tasks, toggles)[p], tasks[p]),
    decreases toggles.len(),
{
    if toggles.len() > 0 {
        let change = toggles.last();
        let before = toggled(tasks, toggles.drop_last());
        lemma_toggles_keep_titles_and_dates(tasks, toggles.drop_last());
        lemma_toggle_changes_one_flag(before, change.0 as int, change.1);
        assert forall|p: int| 0 <= p < tasks.len() implies same_title_and_date(
            #[trigger] toggled(tasks, toggles)[p],
            tasks[p],
        ) by {
            assert(same_title_and_date(with_completed(before, change.0 as int, change.1)[p], before[p]));
            assert(same_title_and_date(before[p], tasks[p]));
        }
    }
}

/// A store that is loaded from the tasks that another store listed holds
/// the same collection: same tasks, same order, same fields.
pub proof fn lemma_listed_tasks_load_back(collection: Seq<TaskView>, listed: Vec<Task>)
    requires
        views(listed@) == collection,
    ensures
        loaded_tasks(Loaded::Tasks(listed)) == collection,
{
}

/// Without a readable durable copy a store starts empty.
pub proof fn lemma_nothing_to_load_is_empty()
    ensures
        loaded_tasks(Loaded::Missing) == Seq::<TaskView>::empty(),
        loaded_tasks(Loaded::Unreadable) == Seq::<TaskView>::empty(),
{
}

} // verus!
