//! What holds of every sequence of task writes.

use vstd::prelude::*;

use crate::db::{
    after_write, after_writes, changed_row, first_of, Change, Contents, TaskRow, Write,
};
use crate::status::{is_terminal, rank, TaskStatus};
use crate::time::Timestamp;
use crate::uuid::Uuid;

verus! {

/// Whether the record of a task has only moved forward: its status has not gone
/// back, a terminal status stands, a known call path stands, and the attempt
/// number has not gone down.
pub open spec fn advanced(before: TaskRow, after: TaskRow) -> bool {
    &&& rank(before.status) <= rank(after.status)
    &&& is_terminal(before.status) ==> after.status == before.status
    &&& is_terminal(before.status) ==> after.completed_at == before.completed_at
    &&& before.call_id is Some ==> after.call_id == before.call_id
    &&& before.attempt <= after.attempt
    &&& before.submitted_at is Some ==> after.submitted_at == before.submitted_at
    &&& before.patches.is_prefix_of(after.patches)
    &&& after.run_id == before.run_id
}

/// Whether every task is still there and has only moved forward, and all output
/// is still there.
pub open spec fn all_advanced(before: Contents, after: Contents) -> bool {
    &&& forall|name: Seq<char>| #[trigger]
        before.tasks.contains_key(name) ==> after.tasks.contains_key(name) && advanced(
            before.tasks[name],
            after.tasks[name],
        )
    &&& before.logs.is_prefix_of(after.logs)
    &&& after.runs == before.runs
}

/// A write never takes a task back: a status only ever advances.
pub proof fn law_writes_only_advance(before: Contents, write: Write)
    ensures
        all_advanced(before, after_write(before, write)),
{
    let after = after_write(before, write);
    assert forall|name: Seq<char>| #[trigger] before.tasks.contains_key(name) implies
        after.tasks.contains_key(name) && advanced(before.tasks[name], after.tasks[name]) by {
        if name == write.name {
            match changed_row(before.tasks[name], write.change) {
                Some(row) => {
                    assert(row.patches =~= before.tasks[name].patches || row.patches
                        =~= before.tasks[name].patches.push(row.patches.last()));
                },
                None => {},
            }
        }
    }
}

/// A batch of writes never takes a task back, whatever the order of the writes.
pub proof fn law_batches_only_advance(before: Contents, writes: Seq<Write>)
    ensures
        all_advanced(before, after_writes(before, writes)),
    decreases writes.len(),
{
    if writes.len() > 0 {
        let middle = after_writes(before, writes.drop_last());
        let after = after_writes(before, writes);
        law_batches_only_advance(before, writes.drop_last());
        law_writes_only_advance(middle, writes.last());
        assert forall|name: Seq<char>| #[trigger] before.tasks.contains_key(name) implies
            after.tasks.contains_key(name) && advanced(before.tasks[name], after.tasks[name]) by {
            assert(middle.tasks.contains_key(name));
        }
    }
}

/// It makes no difference how writes are split into batches.
pub proof fn law_batches_compose(before: Contents, first: Seq<Write>, second: Seq<Write>)
    ensures
        after_writes(before, first + second) == after_writes(after_writes(before, first), second),
    decreases second.len(),
{
    if second.len() == 0 {
        assert(first + second =~= first);
    } else {
        law_batches_compose(before, first, second.drop_last());
        assert((first + second).drop_last() =~= first + second.drop_last());
        assert((first + second).last() == second.last());
    }
}

/// A write changes no task but the one that it names.
pub proof fn law_writes_touch_one_task(before: Contents, write: Write, name: Seq<char>)
    requires
        name != write.name,
    ensures
        after_write(before, write).tasks.contains_key(name) == before.tasks.contains_key(name),
        before.tasks.contains_key(name) ==> after_write(before, write).tasks[name]
            == before.tasks[name],
{
}

/// Creating a task again changes nothing, and creating a task that exists
/// leaves its status alone.
pub proof fn law_creation_is_idempotent(before: Contents, write: Write)
    requires
        write.change is Create,
    ensures
        after_write(after_write(before, write), write) == after_write(before, write),
        before.tasks.contains_key(write.name) ==> after_write(before, write).tasks[write.name].status
            == before.tasks[write.name].status,
{
    let once = after_write(before, write);
    assert(after_write(once, write).tasks =~= once.tasks);
}

/// A task that was created by a write is there, with a call path if either the
/// row or the write had one.
pub proof fn law_creation_leaves_a_task(before: Contents, write: Write)
    requires
        write.change is Create,
    ensures
        after_write(before, write).tasks.contains_key(write.name),
        write.change->Create_call_id is Some ==> after_write(
            before,
            write,
        ).tasks[write.name].call_id is Some,
        after_write(before, write).tasks[write.name].attempt >= write.change->Create_attempt,
{
}

/// A task that has not started is pending once it was submitted, with the time
/// at which it was first submitted.
pub proof fn law_the_first_submission_is_recorded(
    before: Contents,
    name: Seq<char>,
    at: Timestamp,
)
    requires
        before.tasks.contains_key(name),
        rank(before.tasks[name].status) <= rank(TaskStatus::Pending),
    ensures
        ({
            let row = after_write(before, Write { name, change: Change::Pending(at) }).tasks[name];
            &&& row.status == TaskStatus::Pending
            &&& row.submitted_at == first_of(before.tasks[name].submitted_at, Some(at))
        }),
{
}

/// The engine and a backend announce a task on independent channels. Whichever
/// announcement comes first, the task ends up pending, under the engine's call
/// path and attempt number and with the time at which it was submitted.
pub proof fn law_either_channel_may_announce_first(
    before: Contents,
    name: Seq<char>,
    run_id: Uuid,
    call_id: Seq<char>,
    attempt: i64,
    at: Timestamp,
)
    requires
        !before.tasks.contains_key(name),
        attempt >= 0,
    ensures
        ({
            let engine = Write {
                name,
                change: Change::Create {
                    run_id,
                    status: TaskStatus::Initializing,
                    call_id: Some(call_id),
                    attempt,
                },
            };
            let backend = Write {
                name,
                change: Change::Create {
                    run_id,
                    status: TaskStatus::Pending,
                    call_id: None,
                    attempt: 0,
                },
            };
            let pending = Write { name, change: Change::Pending(at) };
            let engine_first = after_writes(before, seq![engine, backend, pending]).tasks[name];
            let backend_first = after_writes(before, seq![backend, pending, engine]).tasks[name];
            &&& engine_first.status == TaskStatus::Pending
            &&& backend_first.status == TaskStatus::Pending
            &&& engine_first.call_id == Some(call_id)
            &&& backend_first.call_id == Some(call_id)
            &&& engine_first.attempt == attempt
            &&& backend_first.attempt == attempt
            &&& engine_first.submitted_at == Some(at)
            &&& backend_first.submitted_at == Some(at)
        }),
{
    let engine = Write {
        name,
        change: Change::Create {
            run_id,
            status: TaskStatus::Initializing,
            call_id: Some(call_id),
            attempt,
        },
    };
    let backend = Write {
        name,
        change: Change::Create { run_id, status: TaskStatus::Pending, call_id: None, attempt: 0 },
    };
    let pending = Write { name, change: Change::Pending(at) };
    lemma_three_writes(before, engine, backend, pending);
    lemma_three_writes(before, backend, pending, engine);
}

/// A batch of three writes.
proof fn lemma_three_writes(before: Contents, a: Write, b: Write, c: Write)
    ensures
        after_writes(before, seq![a, b, c]) == after_write(
            after_write(after_write(before, a), b),
            c,
        ),
{
    reveal_with_fuel(after_writes, 4);
    assert(seq![a, b, c].drop_last() =~= seq![a, b]);
    assert(seq![a, b].drop_last() =~= seq![a]);
    assert(seq![a].drop_last() =~= Seq::<Write>::empty());
}

} // verus!
