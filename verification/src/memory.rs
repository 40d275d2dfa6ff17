//! A database that is kept in memory.

use vstd::prelude::*;
use vstd::string::*;

use crate::db::{
    creation, run_is_terminal, Call, Change, Contents, Database, DatabaseError, History, LogRow,
    NewTask, Operation, RunChange, RunRecord, RunRow, TaskRecord, TaskRow, Write,
};
use crate::status::{status_rank, LogSource, RunStatus, TaskStatus};
use crate::text::{copy_opt, views};
use crate::time::Timestamp;
use crate::uuid::Uuid;

verus! {

/// A piece of a task's output.
#[derive(Debug)]
pub struct LogRecord {
    /// The task's name.
    pub name: String,
    /// The stream.
    pub source: LogSource,
    /// The logged bytes.
    pub chunk: Vec<u8>,
}

impl View for LogRecord {
    type V = LogRow;

    open spec fn view(&self) -> LogRow {
        LogRow { name: self.name@, source: self.source, chunk: self.chunk@ }
    }
}

/// The position of the first task with the given name, or the number of tasks.
spec fn task_at(tasks: Seq<TaskRecord>, name: Seq<char>) -> int
    decreases tasks.len(),
{
    if tasks.len() == 0 {
        0
    } else if tasks[0].name@ == name {
        0
    } else {
        1 + task_at(tasks.drop_first(), name)
    }
}

/// The position of the first run with the given identifier, or the number of
/// runs.
spec fn run_at(runs: Seq<RunRecord>, id: Uuid) -> int
    decreases runs.len(),
{
    if runs.len() == 0 {
        0
    } else if runs[0].id == id {
        0
    } else {
        1 + run_at(runs.drop_first(), id)
    }
}

/// The tasks by name.
spec fn task_map(tasks: Seq<TaskRecord>) -> Map<Seq<char>, TaskRow> {
    Map::new(
        |name: Seq<char>| task_at(tasks, name) < tasks.len(),
        |name: Seq<char>| tasks[task_at(tasks, name)]@,
    )
}

/// The runs by identifier.
spec fn run_map(runs: Seq<RunRecord>) -> Map<Uuid, RunRow> {
    Map::new(
        |id: Uuid| run_at(runs, id) < runs.len(),
        |id: Uuid| runs[run_at(runs, id)]@,
    )
}

/// The output of the tasks.
spec fn log_rows(logs: Seq<LogRecord>) -> Seq<LogRow> {
    Seq::new(logs.len(), |i: int| logs[i]@)
}

/// A position found by name holds the first task of that name.
proof fn lemma_task_at(tasks: Seq<TaskRecord>, name: Seq<char>)
    ensures
        0 <= task_at(tasks, name) <= tasks.len(),
        task_at(tasks, name) < tasks.len() ==> tasks[task_at(tasks, name)].name@ == name,
        forall|i: int| 0 <= i < task_at(tasks, name) ==> (#[trigger] tasks[i]).name@ != name,
    decreases tasks.len(),
{
    if tasks.len() > 0 && tasks[0].name@ != name {
        let rest = tasks.drop_first();
        lemma_task_at(rest, name);
        assert forall|i: int| 0 <= i < task_at(tasks, name) implies (#[trigger] tasks[i]).name@
            != name by {
            if i > 0 {
                assert(tasks[i] == rest[i - 1]);
            }
        }
    }
}

/// A position found by identifier holds the first run with it.
proof fn lemma_run_at(runs: Seq<RunRecord>, id: Uuid)
    ensures
        0 <= run_at(runs, id) <= runs.len(),
        run_at(runs, id) < runs.len() ==> runs[run_at(runs, id)].id == id,
        forall|i: int| 0 <= i < run_at(runs, id) ==> (#[trigger] runs[i]).id != id,
    decreases runs.len(),
{
    if runs.len() > 0 && runs[0].id != id {
        let rest = runs.drop_first();
        lemma_run_at(rest, id);
        assert forall|i: int| 0 <= i < run_at(runs, id) implies (#[trigger] runs[i]).id != id by {
            if i > 0 {
                assert(runs[i] == rest[i - 1]);
            }
        }
    }
}

/// Replacing the record of a task replaces its row, and no other.
proof fn lemma_task_update(tasks: Seq<TaskRecord>, at: int, record: TaskRecord)
    requires
        0 <= at < tasks.len(),
        at == task_at(tasks, record.name@),
    ensures
        task_map(tasks.update(at, record)) == task_map(tasks).insert(record.name@, record@),
{
    let after = tasks.update(at, record);
    let expected = task_map(tasks).insert(record.name@, record@);
    lemma_task_at(tasks, record.name@);
    assert forall|name: Seq<char>|
        #[trigger] task_map(after).contains_key(name) == expected.contains_key(name) && (
        expected.contains_key(name) ==> task_map(after)[name] == expected[name]) by {
        lemma_task_at(tasks, name);
        lemma_task_at(after, name);
        let p = task_at(tasks, name);
        let q = task_at(after, name);
        if p < q {
            assert(after[p].name@ == tasks[p].name@);
        } else if q < p {
            assert(tasks[q].name@ == after[q].name@);
        }
    }
    assert(task_map(after) =~= expected);
}

/// Replacing the record of a run replaces its row, and no other.
proof fn lemma_run_update(runs: Seq<RunRecord>, at: int, record: RunRecord)
    requires
        0 <= at < runs.len(),
        at == run_at(runs, record.id),
    ensures
        run_map(runs.update(at, record)) == run_map(runs).insert(record.id, record@),
{
    let after = runs.update(at, record);
    let expected = run_map(runs).insert(record.id, record@);
    lemma_run_at(runs, record.id);
    assert forall|id: Uuid|
        #[trigger] run_map(after).contains_key(id) == expected.contains_key(id) && (
        expected.contains_key(id) ==> run_map(after)[id] == expected[id]) by {
        lemma_run_at(runs, id);
        lemma_run_at(after, id);
        let p = run_at(runs, id);
        let q = run_at(after, id);
        if p < q {
            assert(after[p].id == runs[p].id);
        } else if q < p {
            assert(runs[q].id == after[q].id);
        }
    }
    assert(run_map(after) =~= expected);
}

/// Adding the record of a task that is not there adds its row.
proof fn lemma_task_push(tasks: Seq<TaskRecord>, record: TaskRecord)
    requires
        task_at(tasks, record.name@) == tasks.len(),
    ensures
        task_map(tasks.push(record)) == task_map(tasks).insert(record.name@, record@),
{
    let after = tasks.push(record);
    let expected = task_map(tasks).insert(record.name@, record@);
    lemma_task_at(tasks, record.name@);
    assert forall|name: Seq<char>|
        #[trigger] task_map(after).contains_key(name) == expected.contains_key(name) && (
        expected.contains_key(name) ==> task_map(after)[name] == expected[name]) by {
        lemma_task_at(tasks, name);
        lemma_task_at(after, name);
        let p = task_at(tasks, name);
        let q = task_at(after, name);
        assert(after[tasks.len() as int].name@ == record.name@);
        if p < tasks.len() {
            assert(after[p].name@ == tasks[p].name@);
        }
        if q < tasks.len() {
            assert(tasks[q].name@ == after[q].name@);
        }
    }
    assert(task_map(after) =~= expected);
}

/// Adding the record of a run that is not there adds its row.
proof fn lemma_run_push(runs: Seq<RunRecord>, record: RunRecord)
    requires
        run_at(runs, record.id) == runs.len(),
    ensures
        run_map(runs.push(record)) == run_map(runs).insert(record.id, record@),
{
    let after = runs.push(record);
    let expected = run_map(runs).insert(record.id, record@);
    lemma_run_at(runs, record.id);
    assert forall|id: Uuid|
        #[trigger] run_map(after).contains_key(id) == expected.contains_key(id) && (
        expected.contains_key(id) ==> run_map(after)[id] == expected[id]) by {
        lemma_run_at(runs, id);
        lemma_run_at(after, id);
        let p = run_at(runs, id);
        let q = run_at(after, id);
        assert(after[runs.len() as int].id == record.id);
        if p < runs.len() {
            assert(after[p].id == runs[p].id);
        }
        if q < runs.len() {
            assert(runs[q].id == after[q].id);
        }
    }
    assert(run_map(after) =~= expected);
}

/// Finds the first task with the given name; the number of tasks if there is
/// none.
fn find_task(tasks: &Vec<TaskRecord>, name: &str) -> (r: usize)
    ensures
        r == task_at(tasks@, name@),
        r <= tasks@.len(),
{
    let wanted = name.to_owned();
    let mut i: usize = 0;
    proof {
        assert(tasks@.skip(0) =~= tasks@);
    }
    while i < tasks.len()
        invariant
            i <= tasks@.len(),
            wanted@ == name@,
            task_at(tasks@, name@) == i + task_at(tasks@.skip(i as int), name@),
        decreases tasks.len() - i,
    {
        proof {
            assert(tasks@.skip(i as int)[0] == tasks@[i as int]);
            assert(tasks@.skip(i as int).drop_first() =~= tasks@.skip(i + 1));
        }
        if tasks[i].name == wanted {
            return i;
        }
        i = i + 1;
    }
    i
}

/// Finds the first run with the given identifier; the number of runs if there
/// is none.
fn find_run(runs: &Vec<RunRecord>, id: Uuid) -> (r: usize)
    ensures
        r == run_at(runs@, id),
        r <= runs@.len(),
{
    let mut i: usize = 0;
    proof {
        assert(runs@.skip(0) =~= runs@);
    }
    while i < runs.len()
        invariant
            i <= runs@.len(),
            run_at(runs@, id) == i + run_at(runs@.skip(i as int), id),
        decreases runs.len() - i,
    {
        proof {
            assert(runs@.skip(i as int)[0] == runs@[i as int]);
            assert(runs@.skip(i as int).drop_first() =~= runs@.skip(i + 1));
        }
        if runs[i].id == id {
            return i;
        }
        i = i + 1;
    }
    i
}

/// Copies texts.
fn copy_all(texts: &Vec<String>) -> (r: Vec<String>)
    ensures
        views(r@) == views(texts@),
{
    let mut copy: Vec<String> = Vec::new();
    let mut i: usize = 0;
    while i < texts.len()
        invariant
            i <= texts@.len(),
            views(copy@) == views(texts@).take(i as int),
        decreases texts.len() - i,
    {
        let ghost before = copy@;
        copy.push(texts[i].clone());
        proof {
            assert(views(copy@) =~= views(before).push(texts@[i as int]@));
            assert(views(texts@).take(i + 1) =~= views(texts@).take(i as int).push(
                texts@[i as int]@,
            ));
        }
        i = i + 1;
    }
    proof {
        assert(views(texts@).take(texts@.len() as int) =~= views(texts@));
    }
    copy
}

/// Copies the record of a task.
fn copy_record(record: &TaskRecord) -> (r: TaskRecord)
    ensures
        r@ == record@,
        r.name@ == record.name@,
{
    TaskRecord {
        name: record.name.clone(),
        run_id: record.run_id,
        status: record.status,
        call_id: copy_opt(&record.call_id),
        attempt: record.attempt,
        constraints: copy_opt(&record.constraints),
        retry_cause: copy_opt(&record.retry_cause),
        patches: copy_all(&record.patches),
        submitted_at: record.submitted_at,
        started_at: record.started_at,
        completed_at: record.completed_at,
        exit_status: record.exit_status,
        error: copy_opt(&record.error),
    }
}

/// Copies the record of a run.
fn copy_run(record: &RunRecord) -> (r: RunRecord)
    ensures
        r@ == record@,
        r.id == record.id,
{
    RunRecord {
        id: record.id,
        status: record.status,
        started_at: record.started_at,
        completed_at: record.completed_at,
        outputs: copy_opt(&record.outputs),
        error: copy_opt(&record.error),
        target: copy_opt(&record.target),
        directory: copy_opt(&record.directory),
        index_directory: copy_opt(&record.index_directory),
        backend: copy_opt(&record.backend),
        transfer_totals: copy_opt(&record.transfer_totals),
    }
}

/// A database that is kept in memory, for as long as the process runs.
pub struct MemoryDatabase {
    tasks: Vec<TaskRecord>,
    logs: Vec<LogRecord>,
    runs: Vec<RunRecord>,
    history: Ghost<Seq<Call>>,
}

impl MemoryDatabase {
    /// Makes an empty database.
    pub fn new() -> (r: Self)
        ensures
            r.contents() == (Contents {
                tasks: Map::empty(),
                logs: Seq::empty(),
                runs: Map::empty(),
            }),
            r.history().calls == Seq::<Call>::empty(),
    {
        let r = MemoryDatabase {
            tasks: Vec::new(),
            logs: Vec::new(),
            runs: Vec::new(),
            history: Ghost(Seq::empty()),
        };
        proof {
            assert(r.contents().tasks =~= Map::<Seq<char>, TaskRow>::empty());
            assert(r.contents().logs =~= Seq::<LogRow>::empty());
            assert(r.contents().runs =~= Map::<Uuid, RunRow>::empty());
        }
        r
    }

    /// Adds a run, unless there is one with the same identifier. Returns whether
    /// it was added.
    pub fn add_run(&mut self, record: RunRecord) -> (r: bool)
        ensures
            r == !old(self).contents().runs.contains_key(record.id),
            final(self).contents() == if r {
                Contents {
                    runs: old(self).contents().runs.insert(record.id, record@),
                    ..old(self).contents()
                }
            } else {
                old(self).contents()
            },
            final(self).history().calls == old(self).history().calls,
    {
        let at: usize = find_run(&self.runs, record.id);
        if at < self.runs.len() {
            return false;
        }
        proof {
            lemma_run_push(self.runs@, record);
        }
        self.runs.push(record);
        true
    }

    /// The number of pieces of output.
    pub fn log_count(&self) -> (r: usize)
        ensures
            r == self.contents().logs.len(),
    {
        self.logs.len()
    }

    /// A piece of output.
    pub fn log(&self, at: usize) -> (r: Option<&LogRecord>)
        ensures
            match r {
                Some(record) => at < self.contents().logs.len() && record@
                    == self.contents().logs[at as int],
                None => at >= self.contents().logs.len(),
            },
    {
        if at < self.logs.len() {
            Some(&self.logs[at])
        } else {
            None
        }
    }
}

impl Database for MemoryDatabase {
    closed spec fn contents(&self) -> Contents {
        Contents {
            tasks: task_map(self.tasks@),
            logs: log_rows(self.logs@),
            runs: run_map(self.runs@),
        }
    }

    open spec fn reliable(&self) -> bool {
        true
    }

    closed spec fn history(&self) -> History {
        History { calls: self.history@ }
    }

    fn create_task(&mut self, task: NewTask<'_>) -> (r: Result<TaskRecord, DatabaseError>) {
        proof {
            self.history@ = self.history@.push(Call { operation: Operation::Task(creation(task)), failure: None });
        }
        let at: usize = find_task(&self.tasks, task.name);
        let ghost before = self.tasks@;
        proof {
            lemma_task_at(before, task.name@);
        }
        let call_id = match task.call_id {
            Some(id) => Some(id.to_owned()),
            None => None,
        };
        if at < self.tasks.len() {
            if self.tasks[at].call_id.is_none() {
                self.tasks[at].call_id = call_id;
            }
            if self.tasks[at].attempt < task.attempt {
                self.tasks[at].attempt = task.attempt;
            }
            proof {
                assert(self.tasks@ =~= before.update(at as int, self.tasks@[at as int]));
                lemma_task_update(before, at as int, self.tasks@[at as int]);
                lemma_task_at(self.tasks@, task.name@);
            }
            Ok(copy_record(&self.tasks[at]))
        } else {
            let record = TaskRecord {
                name: task.name.to_owned(),
                run_id: task.run_id,
                status: task.status,
                call_id,
                attempt: task.attempt,
                constraints: None,
                retry_cause: None,
                patches: Vec::new(),
                submitted_at: None,
                started_at: None,
                completed_at: None,
                exit_status: None,
                error: None,
            };
            let copy = copy_record(&record);
            proof {
                assert(record@.patches =~= Seq::<Seq<char>>::empty());
                lemma_task_push(before, record);
            }
            self.tasks.push(record);
            Ok(copy)
        }
    }

    fn get_task(&self, name: &str) -> (r: Result<TaskRecord, DatabaseError>) {
        let at: usize = find_task(&self.tasks, name);
        proof {
            lemma_task_at(self.tasks@, name@);
        }
        if at < self.tasks.len() {
            Ok(copy_record(&self.tasks[at]))
        } else {
            Err(DatabaseError::NotFound)
        }
    }

    fn get_run(&self, id: Uuid) -> (r: Result<Option<RunRecord>, DatabaseError>) {
        let at: usize = find_run(&self.runs, id);
        proof {
            lemma_run_at(self.runs@, id);
        }
        if at < self.runs.len() {
            Ok(Some(copy_run(&self.runs[at])))
        } else {
            Ok(None)
        }
    }

    fn insert_task_log(&mut self, task_name: &str, source: LogSource, chunk: &Vec<u8>) -> (r:
        Result<(), DatabaseError>) {
        proof {
            self.history@ = self.history@.push(Call { operation: Operation::Task(Write { name: task_name@, change: Change::Log(source, chunk@) }), failure: None });
        }
        let ghost before = self.logs@;
        let mut bytes: Vec<u8> = Vec::new();
        bytes.extend_from_slice(chunk.as_slice());
        let record = LogRecord { name: task_name.to_owned(), source, chunk: bytes };
        proof {
            assert(bytes@ =~= chunk@);
            assert(log_rows(before.push(record)) =~= log_rows(before).push(record@));
        }
        self.logs.push(record);
        Ok(())
    }

    fn update_task_constraints(
        &mut self,
        name: &str,
        constraints: &str,
    ) -> (r: Result<bool, DatabaseError>) {
        proof {
            self.history@ = self.history@.push(Call { operation: Operation::Task(Write { name: name@, change: Change::Constraints(constraints@) }), failure: None });
        }
        let at: usize = find_task(&self.tasks, name);
        let ghost before = self.tasks@;
        proof {
            lemma_task_at(before, name@);
        }
        if at == self.tasks.len() || status_rank(self.tasks[at].status) == 4 {
            return Ok(false);
        }
        self.tasks[at].constraints = Some(constraints.to_owned());
        proof {
            assert(self.tasks@ =~= before.update(at as int, self.tasks@[at as int]));
            lemma_task_update(before, at as int, self.tasks@[at as int]);
        }
        Ok(true)
    }

    fn update_task_retry_cause(
        &mut self,
        name: &str,
        cause: &str,
    ) -> (r: Result<bool, DatabaseError>) {
        proof {
            self.history@ = self.history@.push(Call { operation: Operation::Task(Write { name: name@, change: Change::RetryCause(cause@) }), failure: None });
        }
        let at: usize = find_task(&self.tasks, name);
        let ghost before = self.tasks@;
        proof {
            lemma_task_at(before, name@);
        }
        if at == self.tasks.len() {
            return Ok(false);
        }
        self.tasks[at].retry_cause = Some(cause.to_owned());
        proof {
            assert(self.tasks@ =~= before.update(at as int, self.tasks@[at as int]));
            lemma_task_update(before, at as int, self.tasks@[at as int]);
        }
        Ok(true)
    }

    fn update_task_utilization(
        &mut self,
        name: &str,
        patch: &str,
    ) -> (r: Result<bool, DatabaseError>) {
        proof {
            self.history@ = self.history@.push(Call { operation: Operation::Task(Write { name: name@, change: Change::Utilization(patch@) }), failure: None });
        }
        let at: usize = find_task(&self.tasks, name);
        let ghost before = self.tasks@;
        proof {
            lemma_task_at(before, name@);
        }
        if at == self.tasks.len() {
            return Ok(false);
        }
        self.tasks[at].patches.push(patch.to_owned());
        proof {
            assert(self.tasks@[at as int]@.patches =~= before[at as int]@.patches.push(patch@));
            assert(self.tasks@ =~= before.update(at as int, self.tasks@[at as int]));
            lemma_task_update(before, at as int, self.tasks@[at as int]);
        }
        Ok(true)
    }

    fn update_task_localizing(&mut self, name: &str) -> (r: Result<bool, DatabaseError>) {
        proof {
            self.history@ = self.history@.push(Call { operation: Operation::Task(Write { name: name@, change: Change::Localizing }), failure: None });
        }
        let at: usize = find_task(&self.tasks, name);
        let ghost before = self.tasks@;
        proof {
            lemma_task_at(before, name@);
        }
        if at == self.tasks.len() || status_rank(self.tasks[at].status) > 0 {
            return Ok(false);
        }
        self.tasks[at].status = TaskStatus::Localizing;
        proof {
            assert(self.tasks@ =~= before.update(at as int, self.tasks@[at as int]));
            lemma_task_update(before, at as int, self.tasks@[at as int]);
        }
        Ok(true)
    }

    fn update_task_pending(
        &mut self,
        name: &str,
        submitted_at: Timestamp,
    ) -> (r: Result<bool, DatabaseError>) {
        proof {
            self.history@ = self.history@.push(Call { operation: Operation::Task(Write { name: name@, change: Change::Pending(submitted_at) }), failure: None });
        }
        let at: usize = find_task(&self.tasks, name);
        let ghost before = self.tasks@;
        proof {
            lemma_task_at(before, name@);
        }
        if at == self.tasks.len() {
            return Ok(false);
        }
        let rank: u8 = status_rank(self.tasks[at].status);
        if rank > 2 || (rank == 2 && self.tasks[at].submitted_at.is_some()) {
            return Ok(false);
        }
        self.tasks[at].status = TaskStatus::Pending;
        if self.tasks[at].submitted_at.is_none() {
            self.tasks[at].submitted_at = Some(submitted_at);
        }
        proof {
            assert(self.tasks@ =~= before.update(at as int, self.tasks@[at as int]));
            lemma_task_update(before, at as int, self.tasks@[at as int]);
        }
        Ok(true)
    }

    fn update_task_cached(
        &mut self,
        name: &str,
        completed_at: Timestamp,
    ) -> (r: Result<bool, DatabaseError>) {
        proof {
            self.history@ = self.history@.push(Call { operation: Operation::Task(Write { name: name@, change: Change::Cached(completed_at) }), failure: None });
        }
        let at: usize = find_task(&self.tasks, name);
        let ghost before = self.tasks@;
        proof {
            lemma_task_at(before, name@);
        }
        if at == self.tasks.len() || status_rank(self.tasks[at].status) == 4 {
            return Ok(false);
        }
        self.tasks[at].status = TaskStatus::Cached;
        self.tasks[at].completed_at = Some(completed_at);
        proof {
            assert(self.tasks@ =~= before.update(at as int, self.tasks@[at as int]));
            lemma_task_update(before, at as int, self.tasks@[at as int]);
        }
        Ok(true)
    }

    fn update_task_started(
        &mut self,
        name: &str,
        started_at: Timestamp,
    ) -> (r: Result<bool, DatabaseError>) {
        proof {
            self.history@ = self.history@.push(Call { operation: Operation::Task(Write { name: name@, change: Change::Started(started_at) }), failure: None });
        }
        let at: usize = find_task(&self.tasks, name);
        let ghost before = self.tasks@;
        proof {
            lemma_task_at(before, name@);
        }
        if at == self.tasks.len() || status_rank(self.tasks[at].status) > 2 {
            return Ok(false);
        }
        self.tasks[at].status = TaskStatus::Running;
        self.tasks[at].started_at = Some(started_at);
        proof {
            assert(self.tasks@ =~= before.update(at as int, self.tasks@[at as int]));
            lemma_task_update(before, at as int, self.tasks@[at as int]);
        }
        Ok(true)
    }

    fn update_task_completed(
        &mut self,
        name: &str,
        exit_status: Option<i32>,
        completed_at: Timestamp,
    ) -> (r: Result<bool, DatabaseError>) {
        proof {
            self.history@ = self.history@.push(Call { operation: Operation::Task(Write { name: name@, change: Change::Completed(exit_status, completed_at) }), failure: None });
        }
        let at: usize = find_task(&self.tasks, name);
        let ghost before = self.tasks@;
        proof {
            lemma_task_at(before, name@);
        }
        if at == self.tasks.len() || status_rank(self.tasks[at].status) == 4 {
            return Ok(false);
        }
        self.tasks[at].status = TaskStatus::Completed;
        self.tasks[at].exit_status = exit_status;
        self.tasks[at].completed_at = Some(completed_at);
        proof {
            assert(self.tasks@ =~= before.update(at as int, self.tasks@[at as int]));
            lemma_task_update(before, at as int, self.tasks@[at as int]);
        }
        Ok(true)
    }

    fn update_task_failed(
        &mut self,
        name: &str,
        error: &str,
        completed_at: Timestamp,
    ) -> (r: Result<bool, DatabaseError>) {
        proof {
            self.history@ = self.history@.push(Call { operation: Operation::Task(Write { name: name@, change: Change::Failed(error@, completed_at) }), failure: None });
        }
        let at: usize = find_task(&self.tasks, name);
        let ghost before = self.tasks@;
        proof {
            lemma_task_at(before, name@);
        }
        if at == self.tasks.len() || status_rank(self.tasks[at].status) == 4 {
            return Ok(false);
        }
        self.tasks[at].status = TaskStatus::Failed;
        self.tasks[at].error = Some(error.to_owned());
        self.tasks[at].completed_at = Some(completed_at);
        proof {
            assert(self.tasks@ =~= before.update(at as int, self.tasks@[at as int]));
            lemma_task_update(before, at as int, self.tasks@[at as int]);
        }
        Ok(true)
    }

    fn update_task_canceled(
        &mut self,
        name: &str,
        completed_at: Timestamp,
    ) -> (r: Result<bool, DatabaseError>) {
        proof {
            self.history@ = self.history@.push(Call { operation: Operation::Task(Write { name: name@, change: Change::Canceled(completed_at) }), failure: None });
        }
        let at: usize = find_task(&self.tasks, name);
        let ghost before = self.tasks@;
        proof {
            lemma_task_at(before, name@);
        }
        if at == self.tasks.len() || status_rank(self.tasks[at].status) == 4 {
            return Ok(false);
        }
        self.tasks[at].status = TaskStatus::Canceled;
        self.tasks[at].completed_at = Some(completed_at);
        proof {
            assert(self.tasks@ =~= before.update(at as int, self.tasks@[at as int]));
            lemma_task_update(before, at as int, self.tasks@[at as int]);
        }
        Ok(true)
    }

    fn update_task_preempted(
        &mut self,
        name: &str,
        completed_at: Timestamp,
    ) -> (r: Result<bool, DatabaseError>) {
        proof {
            self.history@ = self.history@.push(Call { operation: Operation::Task(Write { name: name@, change: Change::Preempted(completed_at) }), failure: None });
        }
        let at: usize = find_task(&self.tasks, name);
        let ghost before = self.tasks@;
        proof {
            lemma_task_at(before, name@);
        }
        if at == self.tasks.len() || status_rank(self.tasks[at].status) == 4 {
            return Ok(false);
        }
        self.tasks[at].status = TaskStatus::Preempted;
        self.tasks[at].completed_at = Some(completed_at);
        proof {
            assert(self.tasks@ =~= before.update(at as int, self.tasks@[at as int]));
            lemma_task_update(before, at as int, self.tasks@[at as int]);
        }
        Ok(true)
    }

    fn update_run_status(&mut self, id: Uuid, status: RunStatus) -> (r: Result<(), DatabaseError>) {
        proof {
            self.history@ = self.history@.push(Call { operation: Operation::Run(id, RunChange::Status(status)), failure: None });
        }
        let at: usize = find_run(&self.runs, id);
        let ghost before = self.runs@;
        proof {
            lemma_run_at(before, id);
        }
        if at == self.runs.len() {
            return Ok(());
        }
        self.runs[at].status = status;
        proof {
            assert(self.runs@ =~= before.update(at as int, self.runs@[at as int]));
            lemma_run_update(before, at as int, self.runs@[at as int]);
        }
        Ok(())
    }

    fn update_run_started_at(
        &mut self,
        id: Uuid,
        started_at: Option<Timestamp>,
    ) -> (r: Result<(), DatabaseError>) {
        proof {
            self.history@ = self.history@.push(Call { operation: Operation::Run(id, RunChange::StartedAt(started_at)), failure: None });
        }
        let at: usize = find_run(&self.runs, id);
        let ghost before = self.runs@;
        proof {
            lemma_run_at(before, id);
        }
        if at == self.runs.len() {
            return Ok(());
        }
        self.runs[at].started_at = started_at;
        proof {
            assert(self.runs@ =~= before.update(at as int, self.runs@[at as int]));
            lemma_run_update(before, at as int, self.runs@[at as int]);
        }
        Ok(())
    }

    fn update_run_completed_at(
        &mut self,
        id: Uuid,
        completed_at: Option<Timestamp>,
    ) -> (r: Result<(), DatabaseError>) {
        proof {
            self.history@ = self.history@.push(Call { operation: Operation::Run(id, RunChange::CompletedAt(completed_at)), failure: None });
        }
        let at: usize = find_run(&self.runs, id);
        let ghost before = self.runs@;
        proof {
            lemma_run_at(before, id);
        }
        if at == self.runs.len() {
            return Ok(());
        }
        self.runs[at].completed_at = completed_at;
        proof {
            assert(self.runs@ =~= before.update(at as int, self.runs@[at as int]));
            lemma_run_update(before, at as int, self.runs@[at as int]);
        }
        Ok(())
    }

    fn update_run_outputs(&mut self, id: Uuid, outputs: &str) -> (r: Result<(), DatabaseError>) {
        proof {
            self.history@ = self.history@.push(Call { operation: Operation::Run(id, RunChange::Outputs(outputs@)), failure: None });
        }
        let at: usize = find_run(&self.runs, id);
        let ghost before = self.runs@;
        proof {
            lemma_run_at(before, id);
        }
        if at == self.runs.len() {
            return Ok(());
        }
        self.runs[at].outputs = Some(outputs.to_owned());
        proof {
            assert(self.runs@ =~= before.update(at as int, self.runs@[at as int]));
            lemma_run_update(before, at as int, self.runs@[at as int]);
        }
        Ok(())
    }

    fn update_run_error(&mut self, id: Uuid, error: &str) -> (r: Result<(), DatabaseError>) {
        proof {
            self.history@ = self.history@.push(Call { operation: Operation::Run(id, RunChange::Error(error@)), failure: None });
        }
        let at: usize = find_run(&self.runs, id);
        let ghost before = self.runs@;
        proof {
            lemma_run_at(before, id);
        }
        if at == self.runs.len() {
            return Ok(());
        }
        self.runs[at].error = Some(error.to_owned());
        proof {
            assert(self.runs@ =~= before.update(at as int, self.runs@[at as int]));
            lemma_run_update(before, at as int, self.runs@[at as int]);
        }
        Ok(())
    }

    fn update_run_target(&mut self, id: Uuid, target: &str) -> (r: Result<bool, DatabaseError>) {
        proof {
            self.history@ = self.history@.push(Call { operation: Operation::Run(id, RunChange::Target(target@)), failure: None });
        }
        let at: usize = find_run(&self.runs, id);
        let ghost before = self.runs@;
        proof {
            lemma_run_at(before, id);
        }
        if at == self.runs.len() {
            return Ok(false);
        }
        self.runs[at].target = Some(target.to_owned());
        proof {
            assert(self.runs@ =~= before.update(at as int, self.runs@[at as int]));
            lemma_run_update(before, at as int, self.runs@[at as int]);
        }
        Ok(true)
    }

    fn update_run_directory(
        &mut self,
        id: Uuid,
        directory: &str,
    ) -> (r: Result<bool, DatabaseError>) {
        proof {
            self.history@ = self.history@.push(Call { operation: Operation::Run(id, RunChange::Directory(directory@)), failure: None });
        }
        let at: usize = find_run(&self.runs, id);
        let ghost before = self.runs@;
        proof {
            lemma_run_at(before, id);
        }
        if at == self.runs.len() {
            return Ok(false);
        }
        self.runs[at].directory = Some(directory.to_owned());
        proof {
            assert(self.runs@ =~= before.update(at as int, self.runs@[at as int]));
            lemma_run_update(before, at as int, self.runs@[at as int]);
        }
        Ok(true)
    }

    fn update_run_index_directory(
        &mut self,
        id: Uuid,
        index_directory: &str,
    ) -> (r: Result<bool, DatabaseError>) {
        proof {
            self.history@ = self.history@.push(Call { operation: Operation::Run(id, RunChange::IndexDirectory(index_directory@)), failure: None });
        }
        let at: usize = find_run(&self.runs, id);
        let ghost before = self.runs@;
        proof {
            lemma_run_at(before, id);
        }
        if at == self.runs.len() {
            return Ok(false);
        }
        self.runs[at].index_directory = Some(index_directory.to_owned());
        proof {
            assert(self.runs@ =~= before.update(at as int, self.runs@[at as int]));
            lemma_run_update(before, at as int, self.runs@[at as int]);
        }
        Ok(true)
    }

    fn update_run_backend(&mut self, id: Uuid, backend: &str) -> (r: Result<bool, DatabaseError>) {
        proof {
            self.history@ = self.history@.push(Call { operation: Operation::Run(id, RunChange::Backend(backend@)), failure: None });
        }
        let at: usize = find_run(&self.runs, id);
        let ghost before = self.runs@;
        proof {
            lemma_run_at(before, id);
        }
        if at == self.runs.len() {
            return Ok(false);
        }
        self.runs[at].backend = Some(backend.to_owned());
        proof {
            assert(self.runs@ =~= before.update(at as int, self.runs@[at as int]));
            lemma_run_update(before, at as int, self.runs@[at as int]);
        }
        Ok(true)
    }

    fn update_run_transfer_totals(
        &mut self,
        id: Uuid,
        transfer_totals: &str,
    ) -> (r: Result<bool, DatabaseError>) {
        proof {
            self.history@ = self.history@.push(Call { operation: Operation::Run(id, RunChange::TransferTotals(transfer_totals@)), failure: None });
        }
        let at: usize = find_run(&self.runs, id);
        let ghost before = self.runs@;
        proof {
            lemma_run_at(before, id);
        }
        if at == self.runs.len() {
            return Ok(false);
        }
        self.runs[at].transfer_totals = Some(transfer_totals.to_owned());
        proof {
            assert(self.runs@ =~= before.update(at as int, self.runs@[at as int]));
            lemma_run_update(before, at as int, self.runs@[at as int]);
        }
        Ok(true)
    }

    fn mark_run_canceling(&mut self, id: Uuid) -> (r: Result<bool, DatabaseError>) {
        proof {
            self.history@ = self.history@.push(Call { operation: Operation::Run(id, RunChange::Canceling), failure: None });
        }
        let at: usize = find_run(&self.runs, id);
        let ghost before = self.runs@;
        proof {
            lemma_run_at(before, id);
        }
        if at == self.runs.len() || run_has_ended(self.runs[at].status) {
            return Ok(false);
        }
        self.runs[at].status = RunStatus::Canceling;
        proof {
            assert(self.runs@ =~= before.update(at as int, self.runs@[at as int]));
            lemma_run_update(before, at as int, self.runs@[at as int]);
        }
        Ok(true)
    }
}

/// Whether a run's status is final.
fn run_has_ended(status: RunStatus) -> (r: bool)
    ensures
        r == run_is_terminal(status),
{
    match status {
        RunStatus::Completed | RunStatus::Failed | RunStatus::Canceled | RunStatus::Orphaned => true,
        RunStatus::Running | RunStatus::Canceling => false,
    }
}

} // verus!
