//! A run, replayed on paper. The caller of this crate writes the files; here
//! the disk is a map from paths to contents, so that what a whole run does to
//! the index and to the disk can be stated, and what a second run does after
//! it.

use vstd::prelude::*;

use crate::ordered::{lemma_upserted_values, upserted, value_at};
use crate::output::strategy::{decide_spec, writes, Decision, WriteMode};
use crate::output::FileStatus;
use crate::render::index::{entry_of, status_of, EntryView, InputsView};
use crate::render::{action_for, Action};

verus! {

/// The index and the files on disk.
pub struct World {
    /// The entries of the index, each under its path.
    pub index: Seq<(Seq<char>, EntryView)>,
    /// What each file on disk holds.
    pub disk: Map<Seq<char>, Seq<char>>,
}

/// One output file of a run.
pub struct Task {
    /// The path of the file.
    pub path: Seq<char>,
    /// What the file is rendered from.
    pub inputs: InputsView,
    /// What the file holds once it was written and formatted.
    pub written: Seq<char>,
}

/// What the file at a path holds, if it is there.
pub open spec fn on_disk(world: World, path: Seq<char>) -> Option<Seq<char>> {
    if world.disk.dom().contains(path) {
        Some(world.disk[path])
    } else {
        None
    }
}

/// The status that a task finds its file in.
pub open spec fn status_in(world: World, task: Task) -> FileStatus {
    status_of(world.index, task.path, on_disk(world, task.path), task.inputs)
}

/// The decision taken for a task. It does not depend on whether the run is a
/// dry run.
pub open spec fn decision_in(world: World, task: Task, mode: WriteMode) -> Decision {
    decide_spec(status_in(world, task), mode)
}

/// The world once a task was carried out: where the action is to write, the
/// file holds what was written and the index has the entry for it; any other
/// action leaves both as they were.
pub open spec fn after_task(world: World, task: Task, mode: WriteMode, dry_run: bool) -> World {
    if action_for(decision_in(world, task, mode), dry_run) == Action::Write {
        World {
            index: upserted(
                world.index,
                task.path,
                entry_of(task.path, task.inputs, task.written),
            ),
            disk: world.disk.insert(task.path, task.written),
        }
    } else {
        world
    }
}

/// The world once the tasks were carried out in turn.
pub open spec fn after_run(world: World, tasks: Seq<Task>, mode: WriteMode, dry_run: bool) -> World
    decreases tasks.len(),
{
    if tasks.len() == 0 {
        world
    } else {
        after_task(after_run(world, tasks.drop_last(), mode, dry_run), tasks.last(), mode, dry_run)
    }
}

/// The decision taken for the task at position `i` of a run: the one taken in
/// the world that the tasks before it left behind.
pub open spec fn decision_at(
    world: World,
    tasks: Seq<Task>,
    mode: WriteMode,
    dry_run: bool,
    i: int,
) -> Decision {
    decision_in(after_run(world, tasks.take(i), mode, dry_run), tasks[i], mode)
}

/// No two tasks write to the same path.
pub open spec fn distinct_paths(tasks: Seq<Task>) -> bool {
    forall|i: int, j: int|
        0 <= i < j < tasks.len() ==> (#[trigger] tasks[i]).path != (#[trigger] tasks[j]).path
}

/// What a path's file and entry are.
pub open spec fn same_at(a: World, b: World, path: Seq<char>) -> bool {
    value_at(a.index, path) == value_at(b.index, path) && on_disk(a, path) == on_disk(b, path)
}

/// A task touches nothing but its own path.
pub proof fn lemma_task_touches_own_path(
    world: World,
    task: Task,
    mode: WriteMode,
    dry_run: bool,
    path: Seq<char>,
)
    requires
        path != task.path,
    ensures
        same_at(after_task(world, task, mode, dry_run), world, path),
{
    lemma_upserted_values(world.index, task.path, entry_of(task.path, task.inputs, task.written));
}

/// A run touches nothing but the paths of its tasks.
pub proof fn lemma_run_touches_own_paths(
    world: World,
    tasks: Seq<Task>,
    mode: WriteMode,
    dry_run: bool,
    path: Seq<char>,
)
    requires
        forall|i: int| 0 <= i < tasks.len() ==> (#[trigger] tasks[i]).path != path,
    ensures
        same_at(after_run(world, tasks, mode, dry_run), world, path),
    decreases tasks.len(),
{
    if tasks.len() > 0 {
        let front = tasks.drop_last();
        assert forall|i: int| 0 <= i < front.len() implies (#[trigger] front[i]).path != path by {
            assert(front[i] == tasks[i]);
        }
        lemma_run_touches_own_paths(world, front, mode, dry_run, path);
        assert(tasks[tasks.len() - 1].path != path);
        lemma_task_touches_own_path(
            after_run(world, front, mode, dry_run),
            tasks.last(),
            mode,
            dry_run,
            path,
        );
    }
}

/// The status of a file depends on nothing but its own entry and its own
/// content.
pub proof fn lemma_status_is_local(a: World, b: World, task: Task)
    requires
        same_at(a, b, task.path),
    ensures
        status_in(a, task) == status_in(b, task),
{
}

/// After a task was carried out under the normal policy, outside a dry run,
/// its file is unchanged, unless it was in conflict and still is.
pub proof fn lemma_task_settles(world: World, task: Task)
    ensures
        ({
            let after = after_task(world, task, WriteMode::Normal, false);
            if decision_in(world, task, WriteMode::Normal) == Decision::Conflict {
                status_in(after, task) == FileStatus::Modified
            } else {
                status_in(after, task) == FileStatus::Unchanged
            }
        }),
{
    lemma_upserted_values(world.index, task.path, entry_of(task.path, task.inputs, task.written));
}

/// In the world that a run under the normal policy leaves behind, every file
/// of the run is unchanged, unless the run found it in conflict: then it is
/// still modified.
pub proof fn lemma_run_settles(world: World, tasks: Seq<Task>, i: int)
    requires
        distinct_paths(tasks),
        0 <= i < tasks.len(),
    ensures
        ({
            let after = after_run(world, tasks, WriteMode::Normal, false);
            if decision_at(world, tasks, WriteMode::Normal, false, i) == Decision::Conflict {
                status_in(after, tasks[i]) == FileStatus::Modified
            } else {
                status_in(after, tasks[i]) == FileStatus::Unchanged
            }
        }),
    decreases tasks.len(),
{
    let front = tasks.drop_last();
    let before_last = after_run(world, front, WriteMode::Normal, false);
    if i == tasks.len() - 1 {
        assert(tasks.take(i) =~= front);
        lemma_task_settles(before_last, tasks.last());
    } else {
        assert forall|a: int, b: int| 0 <= a < b < front.len() implies (#[trigger] front[a]).path
            != (#[trigger] front[b]).path by {
            assert(front[a] == tasks[a] && front[b] == tasks[b]);
        }
        lemma_run_settles(world, front, i);
        assert(front.take(i) =~= tasks.take(i));
        assert(front[i] == tasks[i]);
        assert(tasks[i].path != tasks[tasks.len() - 1].path);
        lemma_task_touches_own_path(
            before_last,
            tasks.last(),
            WriteMode::Normal,
            false,
            tasks[i].path,
        );
        lemma_status_is_local(
            after_run(world, tasks, WriteMode::Normal, false),
            before_last,
            tasks[i],
        );
    }
}

/// A run in which no task writes leaves the world as it was.
pub proof fn lemma_idle_run(world: World, tasks: Seq<Task>, mode: WriteMode, dry_run: bool)
    requires
        forall|i: int|
            0 <= i < tasks.len() ==> action_for(
                decision_in(world, #[trigger] tasks[i], mode),
                dry_run,
            ) != Action::Write,
    ensures
        after_run(world, tasks, mode, dry_run) == world,
    decreases tasks.len(),
{
    if tasks.len() > 0 {
        let front = tasks.drop_last();
        assert forall|i: int| 0 <= i < front.len() implies action_for(
            decision_in(world, #[trigger] front[i], mode),
            dry_run,
        ) != Action::Write by {
            assert(front[i] == tasks[i]);
        }
        lemma_idle_run(world, front, mode, dry_run);
        assert(tasks.last() == tasks[tasks.len() - 1]);
    }
}

/// A second run writes nothing. After a run under the normal policy, a run
/// of the same tasks with nothing changed in between decides to skip every
/// file, or to report the conflict that the first run had reported already;
/// it writes no file and leaves the index exactly as it was.
pub proof fn lemma_second_run_writes_nothing(world: World, tasks: Seq<Task>)
    requires
        distinct_paths(tasks),
    ensures
        ({
            let first = after_run(world, tasks, WriteMode::Normal, false);
            let second = after_run(first, tasks, WriteMode::Normal, false);
            &&& second == first
            &&& forall|i: int|
                0 <= i < tasks.len() ==> !writes(
                    #[trigger] decision_at(first, tasks, WriteMode::Normal, false, i),
                )
            &&& forall|i: int|
                0 <= i < tasks.len() ==> (#[trigger] decision_at(
                    first,
                    tasks,
                    WriteMode::Normal,
                    false,
                    i,
                )) == (if decision_at(world, tasks, WriteMode::Normal, false, i)
                    == Decision::Conflict {
                    Decision::Conflict
                } else {
                    Decision::Skip
                })
        }),
{
    let first = after_run(world, tasks, WriteMode::Normal, false);
    assert forall|i: int| 0 <= i < tasks.len() implies action_for(
        decision_in(first, #[trigger] tasks[i], WriteMode::Normal),
        false,
    ) != Action::Write by {
        lemma_run_settles(world, tasks, i);
    }
    lemma_idle_run(first, tasks, WriteMode::Normal, false);
    assert forall|i: int| 0 <= i < tasks.len() implies (#[trigger] decision_at(
        first,
        tasks,
        WriteMode::Normal,
        false,
        i,
    )) == (if decision_at(world, tasks, WriteMode::Normal, false, i) == Decision::Conflict {
        Decision::Conflict
    } else {
        Decision::Skip
    }) by {
        lemma_run_settles(world, tasks, i);
        let head = tasks.take(i);
        assert forall|k: int| 0 <= k < head.len() implies action_for(
            decision_in(first, #[trigger] head[k], WriteMode::Normal),
            false,
        ) != Action::Write by {
            assert(head[k] == tasks[k]);
            lemma_run_settles(world, tasks, k);
        }
        lemma_idle_run(first, head, WriteMode::Normal, false);
    }
}

/// A dry run changes nothing: whatever the tasks and the policy, no file and
/// no entry of the index is created or changed.
pub proof fn lemma_dry_run_changes_nothing(world: World, tasks: Seq<Task>, mode: WriteMode)
    ensures
        after_run(world, tasks, mode, true) == world,
{
    lemma_idle_run(world, tasks, mode, true);
}

/// A dry run decides as a run proper does: for every task the decision of
/// the dry run is the decision that the run proper takes for it.
pub proof fn lemma_dry_run_decides_alike(world: World, tasks: Seq<Task>, mode: WriteMode, i: int)
    requires
        distinct_paths(tasks),
        0 <= i < tasks.len(),
    ensures
        decision_at(world, tasks, mode, true, i) == decision_at(world, tasks, mode, false, i),
{
    let head = tasks.take(i);
    assert forall|k: int| 0 <= k < head.len() implies (#[trigger] head[k]).path
        != tasks[i].path by {
        assert(head[k] == tasks[k]);
    }
    lemma_run_touches_own_paths(world, head, mode, true, tasks[i].path);
    lemma_run_touches_own_paths(world, head, mode, false, tasks[i].path);
    lemma_status_is_local(after_run(world, head, mode, true), world, tasks[i]);
    lemma_status_is_local(after_run(world, head, mode, false), world, tasks[i]);
}

} // verus!
