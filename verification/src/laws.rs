//! What holds of every task list, proved over the model.

use crate::model::{CommandView, DocumentView, TaskErrorView, TaskListView, TaskView};
use crate::text::blank;
use vstd::prelude::*;

verus! {

/// The list without tasks is sound.
pub proof fn lemma_empty_well_formed()
    ensures
        TaskListView::empty().well_formed(),
{
}

/// Adding a task makes the list longer by one task: the new task stands
/// last, not done, under the identifier that was next, the tasks before it
/// are those of the list, and the identifier that comes next goes up by one.
/// The list then has the identifiers that it had, and the one that was next.
pub proof fn lemma_add(list: TaskListView, description: Seq<char>)
    ensures
        list.add(description).tasks.len() == list.tasks.len() + 1,
        list.add(description).tasks.last() == TaskView::fresh(list.next_id, description),
        list.add(description).tasks.drop_last() == list.tasks,
        list.add(description).next_id == list.next_id + 1,
        forall|id: nat|
            #![trigger list.add(description).has(id)]
            #![trigger list.has(id)]
            list.add(description).has(id) <==> list.has(id) || id == list.next_id,
{
    let after = list.add(description);
    assert forall|id: nat| list.has(id) implies after.has(id) by {
        let i = choose|i: int| 0 <= i < list.tasks.len() && (#[trigger] list.tasks[i]).id == id;
        assert(after.tasks[i].id == id);
    }
}

/// Adding a task whose description is not blank keeps a sound list sound.
pub proof fn lemma_add_well_formed(list: TaskListView, description: Seq<char>)
    requires
        list.well_formed(),
        !blank(description),
    ensures
        list.add(description).well_formed(),
{
}

/// Where no task has the identifier, marking as done and taking out leave
/// the list as it is.
pub proof fn lemma_missing(list: TaskListView, id: nat)
    requires
        !list.has(id),
    ensures
        list.complete(id) == list,
        list.remove(id) == list,
{
}

/// Marking a task as done changes that one task and nothing else: the list
/// keeps its length, its identifiers, its descriptions and the identifier
/// that comes next, and a task that was done stays done. Where the list has
/// the identifier, only the task at the first place with it is replaced, by
/// the same task, done.
pub proof fn lemma_complete(list: TaskListView, id: nat)
    ensures
        list.complete(id).tasks.len() == list.tasks.len(),
        list.complete(id).next_id == list.next_id,
        forall|i: int|
            0 <= i < list.tasks.len() ==> {
                &&& (#[trigger] list.complete(id).tasks[i]).id == list.tasks[i].id
                &&& list.complete(id).tasks[i].description == list.tasks[i].description
                &&& list.tasks[i].completed ==> list.complete(id).tasks[i].completed
            },
        list.has(id) ==> list.complete(id).tasks == list.tasks.update(
            list.index_of(id),
            list.tasks[list.index_of(id)].done(),
        ),
        forall|i: int|
            0 <= i < list.tasks.len() && !(list.has(id) && i == list.index_of(id))
                ==> #[trigger] list.complete(id).tasks[i] == list.tasks[i],
        forall|other: nat|
            #![trigger list.complete(id).has(other)]
            #![trigger list.has(other)]
            list.complete(id).has(other) <==> list.has(other),
{
    let after = list.complete(id);
    if list.has(id) {
        list.lemma_index_of(id);
    }
    assert forall|other: nat| list.has(other) implies after.has(other) by {
        let i = choose|i: int| 0 <= i < list.tasks.len() && (#[trigger] list.tasks[i]).id == other;
        assert(after.tasks[i].id == other);
    }
}

/// Marking a task as done keeps a sound list sound.
pub proof fn lemma_complete_well_formed(list: TaskListView, id: nat)
    requires
        list.well_formed(),
    ensures
        list.complete(id).well_formed(),
{
    lemma_complete(list, id);
}

/// Marking the same task as done a second time changes nothing.
pub proof fn lemma_complete_twice(list: TaskListView, id: nat)
    ensures
        list.complete(id).complete(id) == list.complete(id),
{
    if list.has(id) {
        list.lemma_index_of(id);
        list.complete(id).lemma_index_of_is(id, list.index_of(id));
    }
}

/// Taking out a task that the list has makes the list shorter by that one
/// task, the first with the identifier: the tasks before it keep their
/// places, the tasks after it move up by one, each as it was, and the
/// identifier that comes next stays. Of every other identifier the list has
/// a task exactly if it had one.
pub proof fn lemma_remove(list: TaskListView, id: nat)
    requires
        list.has(id),
    ensures
        list.remove(id).tasks.len() == list.tasks.len() - 1,
        list.remove(id).next_id == list.next_id,
        0 <= list.index_of(id) < list.tasks.len(),
        list.tasks[list.index_of(id)].id == id,
        forall|i: int|
            0 <= i < list.index_of(id) ==> #[trigger] list.remove(id).tasks[i] == list.tasks[i],
        forall|i: int|
            list.index_of(id) <= i < list.tasks.len() - 1 ==> #[trigger] list.remove(id).tasks[i]
                == list.tasks[i + 1],
        list.remove(id).tasks == list.tasks.remove(list.index_of(id)),
        forall|other: nat|
            #![trigger list.remove(id).has(other)]
            #![trigger list.has(other)]
            other != id ==> (list.remove(id).has(other) <==> list.has(other)),
{
    list.lemma_index_of(id);
    let at = list.index_of(id);
    let after = list.remove(id);
    assert forall|other: nat| other != id && list.has(other) implies after.has(other) by {
        let i = choose|i: int| 0 <= i < list.tasks.len() && (#[trigger] list.tasks[i]).id == other;
        if i < at {
            assert(after.tasks[i].id == other);
        } else {
            assert(after.tasks[i - 1].id == other);
        }
    }
}

/// Taking out a task keeps a sound list sound, and no task of the list has
/// the identifier any more.
pub proof fn lemma_remove_well_formed(list: TaskListView, id: nat)
    requires
        list.well_formed(),
    ensures
        list.remove(id).well_formed(),
        !list.remove(id).has(id),
{
    if list.has(id) {
        lemma_remove(list, id);
    }
}

/// No task of a sound list has the identifier that comes next.
pub proof fn lemma_next_id_unused(list: TaskListView)
    requires
        list.well_formed(),
    ensures
        !list.has(list.next_id),
{
}

/// An identifier is not handed out again once its task is gone: the task
/// that is added after one was taken out gets the identifier that was next
/// before, which is neither the one taken out nor that of any task left.
pub proof fn lemma_removed_identifier_not_reused(
    list: TaskListView,
    id: nat,
    description: Seq<char>,
)
    requires
        list.well_formed(),
        list.has(id),
    ensures
        list.remove(id).add(description).tasks.last().id == list.next_id,
        list.next_id != id,
        !list.remove(id).has(list.next_id),
{
    lemma_remove_well_formed(list, id);
}

/// Whether every task of `later` whose identifier a task of `earlier` has
/// is what that task has become.
pub open spec fn tasks_continue(earlier: TaskListView, later: TaskListView) -> bool {
    forall|i: int, j: int|
        0 <= i < earlier.tasks.len() && 0 <= j < later.tasks.len() && (
        #[trigger] earlier.tasks[i]).id == (#[trigger] later.tasks[j]).id
            ==> later.tasks[j].continues(earlier.tasks[i])
}

/// Whether the tasks of `later` whose identifiers tasks of `earlier` have
/// stand in the order in which those stand in `earlier`.
pub open spec fn order_kept(earlier: TaskListView, later: TaskListView) -> bool {
    forall|i: int, k: int, j: int, l: int|
        0 <= i < earlier.tasks.len() && 0 <= k < earlier.tasks.len() && 0 <= j < l
            < later.tasks.len() && (#[trigger] earlier.tasks[i]).id == (
        #[trigger] later.tasks[j]).id && (#[trigger] earlier.tasks[k]).id == (
        #[trigger] later.tasks[l]).id ==> i < k
}

/// Whatever a command does, a sound list stays sound, the identifier that
/// comes next does not go down, a task with an identifier below it was in
/// the list before, a task that stays keeps its identifier and its
/// description, and stays done if it was, and the tasks that stay keep
/// their order.
pub proof fn lemma_after(list: TaskListView, command: CommandView)
    requires
        list.well_formed(),
    ensures
        list.after(command).well_formed(),
        list.next_id <= list.after(command).next_id,
        forall|id: nat| id < list.next_id && list.after(command).has(id) ==> list.has(id),
        tasks_continue(list, list.after(command)),
        order_kept(list, list.after(command)),
{
    match command {
        CommandView::Complete { id } => {
            lemma_complete(list, id);
        },
        CommandView::Remove { id } => {
            if list.has(id) {
                lemma_remove(list, id);
            }
        },
        _ => {},
    }
}

/// Identifiers are never used again, whatever commands run: a sound list
/// stays sound, the identifier that comes next never goes down, and an
/// identifier below it that no task has, because its task was taken out or
/// because it was never handed out, is the identifier of no task ever after.
/// A task that stays keeps its identifier and its description, and stays
/// done once it is done, and the tasks that stay keep their order.
pub proof fn lemma_after_all(list: TaskListView, commands: Seq<CommandView>)
    requires
        list.well_formed(),
    ensures
        list.after_all(commands).well_formed(),
        list.next_id <= list.after_all(commands).next_id,
        forall|id: nat| id < list.next_id && !list.has(id) ==> !list.after_all(commands).has(id),
        tasks_continue(list, list.after_all(commands)),
        order_kept(list, list.after_all(commands)),
    decreases commands.len(),
{
    if commands.len() > 0 {
        let before = list.after_all(commands.drop_last());
        let after = list.after_all(commands);
        lemma_after_all(list, commands.drop_last());
        lemma_after(before, commands.last());
        lemma_chain(list, before, after);
    }
}

/// What holds of the tasks from one list to a second, and from the second
/// to a third, holds from the first to the third, where the tasks that the
/// first and the third have are in the second too.
proof fn lemma_chain(first: TaskListView, second: TaskListView, third: TaskListView)
    requires
        tasks_continue(first, second),
        tasks_continue(second, third),
        order_kept(first, second),
        order_kept(second, third),
        forall|id: nat| first.has(id) && third.has(id) ==> second.has(id),
    ensures
        tasks_continue(first, third),
        order_kept(first, third),
{
    assert forall|i: int, j: int|
        0 <= i < first.tasks.len() && 0 <= j < third.tasks.len() && (#[trigger] first.tasks[i]).id
            == (#[trigger] third.tasks[j]).id implies third.tasks[j].continues(first.tasks[i]) by {
        assert(first.has(first.tasks[i].id) && third.has(first.tasks[i].id));
    }
    assert forall|i: int, k: int, j: int, l: int|
        0 <= i < first.tasks.len() && 0 <= k < first.tasks.len() && 0 <= j < l < third.tasks.len()
            && (#[trigger] first.tasks[i]).id == (#[trigger] third.tasks[j]).id && (
        #[trigger] first.tasks[k]).id == (#[trigger] third.tasks[l]).id implies i < k by {
        assert(first.has(first.tasks[i].id) && third.has(first.tasks[i].id));
        assert(first.has(first.tasks[k].id) && third.has(first.tasks[k].id));
    }
}

/// A list that is kept comes back as it is: the same tasks in the same
/// order, and the identifier that comes next as it was kept, also where it
/// is more than the tasks call for.
pub proof fn lemma_stored_list_comes_back(list: TaskListView)
    ensures
        DocumentView::Stored(list).loaded() == Ok::<TaskListView, TaskErrorView>(list),
{
}

} // verus!
