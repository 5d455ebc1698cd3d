//! Download tasks and the task manager: task states and their numeric codes,
//! the counting semaphore that gates the workers, the queue that the workers
//! take tasks from, and the grouped task list that the window shows.
use vstd::prelude::*;
use crate::text::to_owned_string;

verus! {

// ---------------------------------------------------------------------------
// Task states
// ---------------------------------------------------------------------------

/// Where a task stands.
#[derive(Clone, Copy, Debug, PartialEq, Eq, Structural)]
pub enum TaskState {
    Waiting,
    InProgress,
    Starting,
    Unpacking,
    Verifying,
    Finished,
    Failed,
}

/// The code under which a state is stored.
pub open spec fn spec_state_code(s: TaskState) -> u8 {
    match s {
        TaskState::Waiting => 0,
        TaskState::InProgress => 1,
        TaskState::Starting => 2,
        TaskState::Unpacking => 3,
        TaskState::Verifying => 4,
        TaskState::Finished => 5,
        TaskState::Failed => 6,
    }
}

/// The state that a stored code stands for; an unknown code reads as
/// `Waiting`.
pub open spec fn spec_state_of_code(v: u8) -> TaskState {
    if v == 1 {
        TaskState::InProgress
    } else if v == 2 {
        TaskState::Starting
    } else if v == 3 {
        TaskState::Unpacking
    } else if v == 4 {
        TaskState::Verifying
    } else if v == 5 {
        TaskState::Finished
    } else if v == 6 {
        TaskState::Failed
    } else {
        TaskState::Waiting
    }
}

impl TaskState {
    /// `From<u8> for TaskState`.
    pub fn from_u8(v: u8) -> (res: TaskState)
        ensures
            res == spec_state_of_code(v),
    {
        match v {
            1 => TaskState::InProgress,
            2 => TaskState::Starting,
            3 => TaskState::Unpacking,
            4 => TaskState::Verifying,
            5 => TaskState::Finished,
            6 => TaskState::Failed,
            _ => TaskState::Waiting,
        }
    }

    /// `From<TaskState> for u8`.
    pub fn to_u8(self) -> (res: u8)
        ensures
            res == spec_state_code(self),
    {
        match self {
            TaskState::Waiting => 0,
            TaskState::InProgress => 1,
            TaskState::Starting => 2,
            TaskState::Unpacking => 3,
            TaskState::Verifying => 4,
            TaskState::Finished => 5,
            TaskState::Failed => 6,
        }
    }
}

/// Storing a state and reading it back gives the same state.
pub proof fn lemma_state_code_roundtrip(s: TaskState)
    ensures
        spec_state_of_code(spec_state_code(s)) == s,
{
}

/// The codes are `0..=6`; each of them reads back as itself, and every other
/// code reads as `Waiting`.
pub proof fn lemma_code_state_roundtrip(v: u8)
    ensures
        v <= 6 ==> spec_state_code(spec_state_of_code(v)) == v,
        v > 6 ==> spec_state_of_code(v) == TaskState::Waiting,
{
}

// ---------------------------------------------------------------------------
// The state that a task shares with the task list
// ---------------------------------------------------------------------------

/// How far a task has come: bytes done, bytes in all, and its state.
#[derive(Clone, Copy, Debug, PartialEq, Eq, Structural)]
pub struct SharedTaskState {
    pub total: usize,
    pub progress: usize,
    pub state: TaskState,
}

impl SharedTaskState {
    /// A task that has not started: nothing done, nothing known, `Waiting`.
    pub fn new() -> (res: SharedTaskState)
        ensures
            res == (SharedTaskState { total: 0, progress: 0, state: TaskState::Waiting }),
    {
        SharedTaskState { total: 0, progress: 0, state: TaskState::Waiting }
    }

    /// A worker has taken the task: `Starting`.
    pub fn claim(&mut self)
        ensures
            *final(self) == (SharedTaskState { state: TaskState::Starting, ..*old(self) }),
    {
        self.state = TaskState::Starting;
    }

    /// The transfer has begun; its length, where the server sent one.
    pub fn start_transfer(&mut self, content_length: Option<usize>)
        ensures
            final(self).state == TaskState::InProgress,
            final(self).progress == old(self).progress,
            final(self).total == match content_length {
                Some(t) => t,
                None => old(self).total,
            },
    {
        if let Some(t) = content_length {
            self.total = t;
        }
        self.state = TaskState::InProgress;
    }

    /// `n` more bytes are done (a wrapping add, as `fetch_add` does).
    pub fn add_progress(&mut self, n: usize)
        ensures
            *final(self) == (SharedTaskState {
                progress: vstd::wrapping::usize_specs::wrapping_add(old(self).progress, n),
                ..*old(self)
            }),
    {
        self.progress = self.progress.wrapping_add(n);
    }

    /// Checking a file of `len` bytes begins: `Verifying`, nothing done yet.
    pub fn begin_verify(&mut self, len: usize)
        ensures
            *final(self) == (SharedTaskState { total: len, progress: 0, state: TaskState::Verifying }),
    {
        self.state = TaskState::Verifying;
        self.progress = 0;
        self.total = len;
    }

    /// Unpacking begins.
    pub fn begin_unpack(&mut self)
        ensures
            *final(self) == (SharedTaskState { state: TaskState::Unpacking, ..*old(self) }),
    {
        self.state = TaskState::Unpacking;
    }

    /// The task failed.
    pub fn fail(&mut self)
        ensures
            *final(self) == (SharedTaskState { state: TaskState::Failed, ..*old(self) }),
    {
        self.state = TaskState::Failed;
    }

    /// The task is done.
    pub fn finish(&mut self)
        ensures
            *final(self) == (SharedTaskState { state: TaskState::Finished, ..*old(self) }),
    {
        self.state = TaskState::Finished;
    }
}

// ---------------------------------------------------------------------------
// The counting semaphore that gates the workers
// ---------------------------------------------------------------------------

/// The count of a counting semaphore. Waiting is the caller's part: `acquire`
/// says whether the caller may go on or must wait for a `release`.
#[derive(Clone, Copy, Debug, PartialEq, Eq, Structural)]
pub struct Semaphore {
    pub count: i16,
}

/// What `acquire` does to a count: whether the caller may go on, and the
/// count after.
pub open spec fn spec_acquire(count: i16) -> (bool, int) {
    if count == 0 {
        (false, count as int)
    } else {
        (true, count - 1)
    }
}

/// The count after `release`.
pub open spec fn spec_release(count: i16) -> int {
    count + 1
}

impl Semaphore {
    pub fn new(initial: i16) -> (res: Semaphore)
        ensures
            res.count == initial,
    {
        Semaphore { count: initial }
    }

    /// Sets the count to zero.
    pub fn reset(&mut self)
        ensures
            final(self).count == 0,
    {
        self.count = 0;
    }

    /// Takes one unit when the count is not zero (`true`); at zero the caller
    /// must wait (`false`, nothing changes).
    pub fn acquire(&mut self) -> (res: bool)
        requires
            old(self).count > i16::MIN,
        ensures
            (res, final(self).count as int) == spec_acquire(old(self).count),
    {
        if self.count == 0 {
            false
        } else {
            self.count = self.count - 1;
            true
        }
    }

    /// Gives one unit back; one waiter may go on.
    pub fn release(&mut self)
        requires
            old(self).count < i16::MAX,
        ensures
            final(self).count == spec_release(old(self).count),
    {
        self.count = self.count + 1;
    }

    /// Lets every waiter through: the count becomes `i16::MAX`.
    pub fn release_all(&mut self)
        ensures
            final(self).count == i16::MAX,
    {
        self.count = i16::MAX;
    }
}

/// `acquire` after `release` goes on and gives the count back, unless the
/// count was -1 (then `release` makes it zero and `acquire` must wait).
pub proof fn lemma_release_then_acquire(c: i16)
    requires
        c < i16::MAX,
        c != -1,
    ensures
        spec_acquire(spec_release(c) as i16) == (true, c as int),
{
}

/// `acquire` goes on exactly when the count is not zero, and then takes one.
pub proof fn lemma_acquire_iff_nonzero(c: i16)
    ensures
        spec_acquire(c).0 <==> c != 0,
        spec_acquire(c).0 ==> spec_acquire(c).1 == c - 1,
        !spec_acquire(c).0 ==> spec_acquire(c).1 == c,
{
}

/// After `release_all`, `i16::MAX` calls of `acquire` in a row all go on.
pub proof fn lemma_release_all_admits(k: int)
    requires
        0 <= k < i16::MAX,
    ensures
        spec_acquire((i16::MAX - k) as i16) == (true, i16::MAX - k - 1),
{
}

// ---------------------------------------------------------------------------
// Download tasks
// ---------------------------------------------------------------------------

/// A step that follows a download.
#[derive(Debug)]
pub enum PostScript {
    /// Check the SHA-1 of the file at `path` against `sha1`; delete it on a
    /// mismatch.
    VerifySha1 { path: String, sha1: String },
    /// Extract the native libraries of the archive at `path` into `output`.
    UnpackNatives { path: String, output: String },
    /// Unpack the archive at `path` into `output`, without its top folder if
    /// `skip_top`.
    UnpackPackage { path: String, output: String, skip_top: bool },
}

/// The value of a post-download step.
pub ghost enum PostScriptV {
    VerifySha1 { path: Seq<char>, sha1: Seq<char> },
    UnpackNatives { path: Seq<char>, output: Seq<char> },
    UnpackPackage { path: Seq<char>, output: Seq<char>, skip_top: bool },
}

impl View for PostScript {
    type V = PostScriptV;

    open spec fn view(&self) -> PostScriptV {
        match self {
            PostScript::VerifySha1 { path, sha1 } => PostScriptV::VerifySha1 { path: path@, sha1: sha1@ },
            PostScript::UnpackNatives { path, output } => PostScriptV::UnpackNatives {
                path: path@,
                output: output@,
            },
            PostScript::UnpackPackage { path, output, skip_top } => PostScriptV::UnpackPackage {
                path: path@,
                output: output@,
                skip_top: *skip_top,
            },
        }
    }
}

pub open spec fn post_scripts_view(v: Seq<PostScript>) -> Seq<PostScriptV> {
    v.map_values(|x: PostScript| x@)
}

/// A file to download from `url` to `output`, and what to do with it after.
#[derive(Debug)]
pub struct HttpDownloadTask {
    pub url: String,
    pub output: String,
    pub shared_state: SharedTaskState,
    pub post_scripts: Vec<PostScript>,
}

impl HttpDownloadTask {
    /// A task that has not started. Never refused.
    pub fn new(url: &str, output: String, post_scripts: Vec<PostScript>) -> (res: Result<HttpDownloadTask, String>)
        ensures
            res matches Ok(t) && t.url@ == url@ && t.output == output && t.post_scripts == post_scripts
                && t.shared_state == (SharedTaskState { total: 0, progress: 0, state: TaskState::Waiting }),
    {
        Ok(HttpDownloadTask { url: to_owned_string(url), output, shared_state: SharedTaskState::new(), post_scripts })
    }
}

// ---------------------------------------------------------------------------
// Rows of the task list
// ---------------------------------------------------------------------------

/// One row of the task list.
#[derive(Debug)]
pub struct TaskData {
    pub id: i32,
    pub name: String,
    pub details: String,
    pub progress: usize,
    pub total: usize,
    pub state: TaskState,
}

impl TaskData {
    /// A row for a task that has not started.
    pub fn new(id: i32, name: &str, details: &str) -> (res: TaskData)
        ensures
            res.id == id,
            res.name@ == name@,
            res.details@ == details@,
            res.progress == 0,
            res.total == 0,
            res.state == TaskState::Waiting,
    {
        TaskData {
            id,
            name: to_owned_string(name),
            details: to_owned_string(details),
            progress: 0,
            total: 0,
            state: TaskState::Waiting,
        }
    }
}

/// A named group of rows.
#[derive(Debug)]
pub struct TasksGroup {
    pub name: String,
    pub tasks: Vec<TaskData>,
}

impl TasksGroup {
    /// An empty group.
    pub fn new(name: &str) -> (res: TasksGroup)
        ensures
            res.name@ == name@,
            res.tasks@.len() == 0,
    {
        TasksGroup { name: to_owned_string(name), tasks: Vec::new() }
    }

    /// The rows of the group.
    pub fn get_model(&self) -> (res: &Vec<TaskData>)
        ensures
            res == &self.tasks,
    {
        &self.tasks
    }
}


// ---------------------------------------------------------------------------
// The task manager
// ---------------------------------------------------------------------------

/// A submitted task as the workers see it: its id, its shared state, and
/// whether it still waits for a worker.
#[derive(Clone, Copy, Debug, PartialEq, Eq, Structural)]
pub struct TaskEntry {
    pub id: i32,
    pub shared_state: SharedTaskState,
    pub pending: bool,
}

/// What the caller of `submit_task` does next with the semaphore and the
/// workers.
#[derive(Clone, Copy, Debug, PartialEq, Eq, Structural)]
pub enum SubmitAction {
    /// The queue was idle: reset the semaphore, release it once, start the
    /// timer and the workers.
    Start,
    /// Release the semaphore once.
    Signal,
}

/// What a worker does next.
#[derive(Clone, Copy, Debug, PartialEq, Eq, Structural)]
pub enum WorkerStep {
    /// The queue is empty: the worker ends.
    Exit,
    /// Every task is taken: wait on the semaphore and look again.
    Wait,
    /// Run the task with this id, which the worker now holds.
    Run(i32),
}

/// What a tick of the list's refresh timer found.
#[derive(Clone, Copy, Debug, PartialEq, Eq, Structural)]
pub enum TickOutcome {
    /// The list is empty: run the finish callback if one is set, release
    /// every waiter, stop the timer.
    Finished { run_callback: bool },
    /// The list was refreshed.
    Refreshed,
}

/// The task queue and the grouped task list.
#[derive(Debug)]
pub struct TaskManager {
    pub groups: Vec<TasksGroup>,
    pub tasks: Vec<TaskEntry>,
    pub running: bool,
    pub next_id: i32,
    pub threads: usize,
    pub finish_callback: bool,
}

/// A group as the contracts see it: its name and its rows.
pub ghost struct GroupV {
    pub name: Seq<char>,
    pub rows: Seq<TaskData>,
}

pub open spec fn groups_view(gs: Seq<TasksGroup>) -> Seq<GroupV> {
    gs.map_values(|g: TasksGroup| GroupV { name: g.name@, rows: g.tasks@ })
}

/// The first entry with the id.
pub open spec fn spec_find_task(es: Seq<TaskEntry>, id: i32) -> Option<TaskEntry>
    decreases es.len(),
{
    if es.len() == 0 {
        None
    } else if es[0].id == id {
        Some(es[0])
    } else {
        spec_find_task(es.drop_first(), id)
    }
}

/// The index of the first entry with the id, or the length.
pub open spec fn spec_task_index(es: Seq<TaskEntry>, id: i32) -> int
    decreases es.len(),
{
    if es.len() == 0 {
        0
    } else if es[0].id == id {
        0
    } else {
        1 + spec_task_index(es.drop_first(), id)
    }
}

/// The index of the first pending entry, or the length.
pub open spec fn spec_first_pending(es: Seq<TaskEntry>) -> int
    decreases es.len(),
{
    if es.len() == 0 {
        0
    } else if es[0].pending {
        0
    } else {
        1 + spec_first_pending(es.drop_first())
    }
}

/// The index of the first group with the name, or the length.
pub open spec fn spec_group_index(gs: Seq<GroupV>, name: Seq<char>) -> int
    decreases gs.len(),
{
    if gs.len() == 0 {
        0
    } else if gs[0].name == name {
        0
    } else {
        1 + spec_group_index(gs.drop_first(), name)
    }
}

/// How many entries wait for a worker.
pub open spec fn spec_pending_count(es: Seq<TaskEntry>) -> nat
    decreases es.len(),
{
    if es.len() == 0 {
        0
    } else {
        (if es[0].pending { 1nat } else { 0nat }) + spec_pending_count(es.drop_first())
    }
}

/// What a worker's look at the queue decides, and the queue after it: the
/// first pending entry is taken and marked `Starting`.
pub open spec fn spec_claim(es: Seq<TaskEntry>) -> (WorkerStep, Seq<TaskEntry>) {
    if es.len() == 0 {
        (WorkerStep::Exit, es)
    } else {
        let k = spec_first_pending(es);
        if k == es.len() {
            (WorkerStep::Wait, es)
        } else {
            (
                WorkerStep::Run(es[k].id),
                es.update(
                    k,
                    TaskEntry {
                        pending: false,
                        shared_state: SharedTaskState { state: TaskState::Starting, ..es[k].shared_state },
                        ..es[k]
                    },
                ),
            )
        }
    }
}

/// A row brought up to date with its task's shared state.
pub open spec fn spec_refresh(row: TaskData, e: TaskEntry) -> TaskData {
    TaskData {
        state: e.shared_state.state,
        progress: e.shared_state.progress,
        total: e.shared_state.total,
        ..row
    }
}

/// The rows of a group after a refresh: walking from the front, a row whose
/// task is gone is dropped and the others are brought up to date, until
/// `limit` rows have been kept; the rest stay as they are.
pub open spec fn spec_sync_rows(rows: Seq<TaskData>, es: Seq<TaskEntry>, limit: nat) -> Seq<TaskData>
    decreases rows.len(),
{
    if rows.len() == 0 || limit == 0 {
        rows
    } else {
        match spec_find_task(es, rows[0].id) {
            None => spec_sync_rows(rows.drop_first(), es, limit),
            Some(e) => seq![spec_refresh(rows[0], e)] + spec_sync_rows(
                rows.drop_first(),
                es,
                (limit - 1) as nat,
            ),
        }
    }
}

/// The first `limit` groups with their rows refreshed.
pub open spec fn spec_sync_groups(gs: Seq<GroupV>, es: Seq<TaskEntry>, limit: nat) -> Seq<GroupV> {
    Seq::new(
        gs.len(),
        |i: int|
            if i < limit {
                GroupV { name: gs[i].name, rows: spec_sync_rows(gs[i].rows, es, limit) }
            } else {
                gs[i]
            },
    )
}

/// The groups after empty ones are dropped: walking from the front until
/// `limit` groups have been kept; the rest stay as they are.
pub open spec fn spec_prune_groups(gs: Seq<GroupV>, limit: nat) -> Seq<GroupV>
    decreases gs.len(),
{
    if gs.len() == 0 || limit == 0 {
        gs
    } else if gs[0].rows.len() == 0 {
        spec_prune_groups(gs.drop_first(), limit)
    } else {
        seq![gs[0]] + spec_prune_groups(gs.drop_first(), (limit - 1) as nat)
    }
}

/// The groups after a tick that found the list not empty.
pub open spec fn spec_tick_groups(gs: Seq<GroupV>, es: Seq<TaskEntry>, limit: nat) -> Seq<GroupV> {
    spec_prune_groups(spec_sync_groups(gs, es, limit), limit)
}

proof fn lemma_sync_rows_step(rows: Seq<TaskData>, es: Seq<TaskEntry>, limit: nat, j: int)
    requires
        0 <= j < rows.len(),
        limit > 0,
    ensures
        spec_sync_rows(rows.skip(j), es, limit) == match spec_find_task(es, rows[j].id) {
            None => spec_sync_rows(rows.skip(j + 1), es, limit),
            Some(e) => seq![spec_refresh(rows[j], e)] + spec_sync_rows(rows.skip(j + 1), es, (limit - 1) as nat),
        },
{
    assert(rows.skip(j).drop_first() == rows.skip(j + 1));
    assert(rows.skip(j)[0] == rows[j]);
}

proof fn lemma_prune_step(gs: Seq<GroupV>, limit: nat, i: int)
    requires
        0 <= i < gs.len(),
        limit > 0,
    ensures
        spec_prune_groups(gs.skip(i), limit) == if gs[i].rows.len() == 0 {
            spec_prune_groups(gs.skip(i + 1), limit)
        } else {
            seq![gs[i]] + spec_prune_groups(gs.skip(i + 1), (limit - 1) as nat)
        },
{
    assert(gs.skip(i).drop_first() == gs.skip(i + 1));
    assert(gs.skip(i)[0] == gs[i]);
}

proof fn lemma_find_task_index(es: Seq<TaskEntry>, id: i32)
    ensures
        0 <= spec_task_index(es, id) <= es.len(),
        spec_task_index(es, id) < es.len() ==> es[spec_task_index(es, id)].id == id
            && spec_find_task(es, id) == Some(es[spec_task_index(es, id)]),
        spec_task_index(es, id) == es.len() ==> spec_find_task(es, id) is None,
        forall|k: int| 0 <= k < spec_task_index(es, id) ==> es[k].id != id,
    decreases es.len(),
{
    if es.len() > 0 && es[0].id != id {
        lemma_find_task_index(es.drop_first(), id);
        assert forall|k: int| 0 <= k < spec_task_index(es, id) implies es[k].id != id by {
            if k > 0 {
                assert(es[k] == es.drop_first()[k - 1]);
            }
        }
    }
}

proof fn lemma_first_pending_props(es: Seq<TaskEntry>)
    ensures
        0 <= spec_first_pending(es) <= es.len(),
        spec_first_pending(es) < es.len() ==> es[spec_first_pending(es)].pending,
        forall|k: int| 0 <= k < spec_first_pending(es) ==> !es[k].pending,
    decreases es.len(),
{
    if es.len() > 0 && !es[0].pending {
        lemma_first_pending_props(es.drop_first());
        assert forall|k: int| 0 <= k < spec_first_pending(es) implies !es[k].pending by {
            if k > 0 {
                assert(es[k] == es.drop_first()[k - 1]);
            }
        }
    }
}

/// Finds the index of the first entry with the id.
fn task_index(es: &Vec<TaskEntry>, id: i32) -> (res: usize)
    ensures
        res == spec_task_index(es@, id),
{
    proof {
        lemma_find_task_index(es@, id);
    }
    let mut k: usize = 0;
    while k < es.len()
        invariant
            k <= es.len(),
            forall|j: int| 0 <= j < k ==> es@[j].id != id,
            0 <= spec_task_index(es@, id) <= es@.len(),
            spec_task_index(es@, id) < es@.len() ==> es@[spec_task_index(es@, id)].id == id,
            forall|j: int| 0 <= j < spec_task_index(es@, id) ==> es@[j].id != id,
        decreases es.len() - k,
    {
        if es[k].id == id {
            return k;
        }
        k = k + 1;
    }
    k
}

/// Refreshes the rows of one group; see `spec_sync_rows`.
fn sync_rows(rows: &mut Vec<TaskData>, es: &Vec<TaskEntry>, limit: usize)
    ensures
        final(rows)@ == spec_sync_rows(old(rows)@, es@, limit as nat),
{
    let ghost orig = rows@;
    let mut j: usize = 0;
    assert(rows@.take(0) + rows@.skip(0) =~= rows@);
    while j < limit && j < rows.len()
        invariant
            j <= limit,
            j <= rows.len(),
            spec_sync_rows(orig, es@, limit as nat) == rows@.take(j as int) + spec_sync_rows(
                rows@.skip(j as int),
                es@,
                (limit - j) as nat,
            ),
        decreases rows.len() - j,
    {
        let k = task_index(es, rows[j].id);
        proof {
            lemma_find_task_index(es@, rows@[j as int].id);
            lemma_sync_rows_step(rows@, es@, (limit - j) as nat, j as int);
        }
        let ghost before = rows@;
        if k == es.len() {
            rows.remove(j);
            proof {
                assert(rows@.take(j as int) =~= before.take(j as int));
                assert(rows@.skip(j as int) =~= before.skip(j + 1));
            }
        } else {
            let mut row = rows.remove(j);
            row.state = es[k].shared_state.state;
            row.progress = es[k].shared_state.progress;
            row.total = es[k].shared_state.total;
            rows.insert(j, row);
            proof {
                assert(row == spec_refresh(before[j as int], es@[k as int]));
                assert(rows@.take(j + 1) =~= before.take(j as int).push(row));
                assert(rows@.skip(j + 1) =~= before.skip(j + 1));
                assert(before.take(j as int) + (seq![row] + spec_sync_rows(before.skip(j + 1), es@, (limit - j - 1) as nat))
                    =~= rows@.take(j + 1) + spec_sync_rows(rows@.skip(j + 1), es@, (limit - (j + 1)) as nat));
            }
            j = j + 1;
        }
    }
    proof {
        if j == rows.len() {
            assert(rows@.skip(j as int).len() == 0);
        }
        assert(rows@.take(j as int) + rows@.skip(j as int) =~= rows@);
    }
}

impl TaskManager {
    /// An idle manager for `threads` hardware threads.
    pub fn new(threads: usize) -> (res: TaskManager)
        ensures
            res.groups@.len() == 0,
            res.tasks@.len() == 0,
            !res.running,
            res.next_id == 0,
            res.threads == threads,
            !res.finish_callback,
    {
        TaskManager {
            groups: Vec::new(),
            tasks: Vec::new(),
            running: false,
            next_id: 0,
            threads,
            finish_callback: false,
        }
    }

    /// Takes a task: it joins the queue as pending, with the next id, and its
    /// row joins the group named `group` (made at the end if there is none).
    /// Returns the id and what to do with the semaphore.
    pub fn submit_task(&mut self, group: &str, name: &str, details: &str, state: SharedTaskState) -> (res: (i32, SubmitAction))
        ensures
            res.0 == old(self).next_id,
            final(self).next_id == vstd::wrapping::i32_specs::wrapping_add(old(self).next_id, 1),
            final(self).tasks@ == old(self).tasks@.push(TaskEntry { id: res.0, shared_state: state, pending: true }),
            (res.1 == SubmitAction::Start) <==> (old(self).tasks@.len() == 0 && !old(self).running),
            final(self).running == (old(self).running || res.1 == SubmitAction::Start),
            final(self).threads == old(self).threads,
            final(self).finish_callback == old(self).finish_callback,
            ({
                let gi = spec_group_index(groups_view(old(self).groups@), group@);
                let gv = groups_view(final(self).groups@);
                let ov = groups_view(old(self).groups@);
                &&& gv.len() == if gi < ov.len() { ov.len() } else { ov.len() + 1 }
                &&& forall|k: int| 0 <= k < ov.len() && k != gi ==> gv[k] == ov[k]
                &&& gv[gi].name == group@
                &&& gv[gi].rows.len() == (if gi < ov.len() { ov[gi].rows.len() } else { 0 }) + 1
                &&& gi < ov.len() ==> gv[gi].rows.take(ov[gi].rows.len() as int) == ov[gi].rows
                &&& gv[gi].rows.last().id == res.0
                &&& gv[gi].rows.last().name@ == name@
                &&& gv[gi].rows.last().details@ == details@
                &&& gv[gi].rows.last().state == TaskState::Waiting
                &&& gv[gi].rows.last().progress == 0
                &&& gv[gi].rows.last().total == 0
            }),
    {
        let should_start = self.tasks.len() == 0 && !self.running;
        let g = to_owned_string(group);
        let ghost ov = groups_view(self.groups@);
        let mut gi: usize = 0;
        while gi < self.groups.len() && !(self.groups[gi].name == g)
            invariant
                gi <= self.groups.len(),
                g@ == group@,
                ov == groups_view(self.groups@),
                ov.len() == self.groups@.len(),
                forall|k: int| 0 <= k < self.groups@.len() ==> #[trigger] ov[k].name == self.groups@[k].name@,
                forall|k: int| 0 <= k < gi ==> ov[k].name != group@,
            decreases self.groups.len() - gi,
        {
            gi = gi + 1;
        }
        proof {
            lemma_group_index_at(ov, group@, gi as int);
        }
        if gi == self.groups.len() {
            self.groups.push(TasksGroup::new(group));
        }
        let id = self.next_id;
        self.next_id = self.next_id.wrapping_add(1);
        let row = TaskData::new(id, name, details);
        let ghost mid = self.groups@;
        let mut grp = self.groups.remove(gi);
        let ghost old_rows = grp.tasks@;
        grp.tasks.push(row);
        self.groups.insert(gi, grp);
        proof {
            let gv = groups_view(self.groups@);
            assert(self.groups@ =~= mid.update(gi as int, grp));
            assert forall|k: int| 0 <= k < ov.len() && k != gi implies gv[k] == ov[k] by {
                assert(self.groups@[k] == mid[k]);
            }
            assert(grp.tasks@.take(old_rows.len() as int) =~= old_rows);
        }
        self.tasks.push(TaskEntry { id, shared_state: state, pending: true });
        if should_start {
            self.running = true;
            (id, SubmitAction::Start)
        } else {
            (id, SubmitAction::Signal)
        }
    }

    /// A worker looks at the queue; see `spec_claim`.
    pub fn claim_next(&mut self) -> (res: WorkerStep)
        ensures
            (res, final(self).tasks@) == spec_claim(old(self).tasks@),
            final(self).groups == old(self).groups,
            final(self).running == old(self).running,
            final(self).next_id == old(self).next_id,
            final(self).threads == old(self).threads,
            final(self).finish_callback == old(self).finish_callback,
    {
        if self.tasks.len() == 0 {
            return WorkerStep::Exit;
        }
        proof {
            lemma_first_pending_props(self.tasks@);
        }
        let mut k: usize = 0;
        while k < self.tasks.len() && !self.tasks[k].pending
            invariant
                k <= self.tasks.len(),
                forall|j: int| 0 <= j < k ==> !self.tasks@[j].pending,
                0 <= spec_first_pending(self.tasks@) <= self.tasks@.len(),
                spec_first_pending(self.tasks@) < self.tasks@.len() ==> self.tasks@[spec_first_pending(self.tasks@)].pending,
                forall|j: int| 0 <= j < spec_first_pending(self.tasks@) ==> !self.tasks@[j].pending,
            decreases self.tasks.len() - k,
        {
            k = k + 1;
        }
        assert(k == spec_first_pending(self.tasks@));
        if k == self.tasks.len() {
            return WorkerStep::Wait;
        }
        let mut e = self.tasks[k];
        e.pending = false;
        e.shared_state.claim();
        self.tasks.set(k, e);
        WorkerStep::Run(e.id)
    }

    /// Stores the shared state of the first task with the id.
    pub fn set_shared_state(&mut self, id: i32, state: SharedTaskState)
        ensures
            ({
                let k = spec_task_index(old(self).tasks@, id);
                if k < old(self).tasks@.len() {
                    final(self).tasks@ == old(self).tasks@.update(
                        k,
                        TaskEntry { shared_state: state, ..old(self).tasks@[k] },
                    )
                } else {
                    final(self).tasks@ == old(self).tasks@
                }
            }),
            final(self).groups == old(self).groups,
            final(self).running == old(self).running,
            final(self).next_id == old(self).next_id,
            final(self).threads == old(self).threads,
            final(self).finish_callback == old(self).finish_callback,
    {
        let k = task_index(&self.tasks, id);
        if k < self.tasks.len() {
            let mut e = self.tasks[k];
            e.shared_state = state;
            self.tasks.set(k, e);
        }
    }

    /// A worker is done with the task: the first entry with the id leaves
    /// the queue.
    pub fn finish_task(&mut self, id: i32)
        ensures
            ({
                let k = spec_task_index(old(self).tasks@, id);
                if k < old(self).tasks@.len() {
                    final(self).tasks@ == old(self).tasks@.remove(k)
                } else {
                    final(self).tasks@ == old(self).tasks@
                }
            }),
            final(self).groups == old(self).groups,
            final(self).running == old(self).running,
            final(self).next_id == old(self).next_id,
            final(self).threads == old(self).threads,
            final(self).finish_callback == old(self).finish_callback,
    {
        let k = task_index(&self.tasks, id);
        if k < self.tasks.len() {
            self.tasks.remove(k);
        }
    }

    /// Asks to be told when the queue is done: at once (`true`) when it is
    /// not running, else at the end of the run (`false`; the callback is kept).
    pub fn on_finish(&mut self) -> (res: bool)
        ensures
            res == !old(self).running,
            final(self).finish_callback == (old(self).finish_callback || old(self).running),
            final(self).groups == old(self).groups,
            final(self).tasks == old(self).tasks,
            final(self).running == old(self).running,
            final(self).next_id == old(self).next_id,
            final(self).threads == old(self).threads,
    {
        if !self.running {
            return true;
        }
        self.finish_callback = true;
        false
    }
}

proof fn lemma_group_index_at(gs: Seq<GroupV>, name: Seq<char>, k: int)
    requires
        0 <= k <= gs.len(),
        k < gs.len() ==> gs[k].name == name,
        forall|j: int| 0 <= j < k ==> gs[j].name != name,
    ensures
        spec_group_index(gs, name) == k,
    decreases k,
{
    if k > 0 {
        assert forall|j: int| 0 <= j < k - 1 implies gs.drop_first()[j].name != name by {
            assert(gs.drop_first()[j] == gs[j + 1]);
        }
        lemma_group_index_at(gs.drop_first(), name, k - 1);
    }
}


impl TaskManager {
    /// One tick of the list's refresh timer. An empty list ends the run: the
    /// manager is idle again, so the next task submitted starts a new run, and
    /// the callback, if one is set, is to be run and is cleared. Otherwise the
    /// first `threads` groups have their rows refreshed from the queue, and
    /// empty groups are dropped; see `spec_tick_groups`.
    pub fn tick(&mut self) -> (res: TickOutcome)
        ensures
            old(self).groups@.len() == 0 ==> res == (TickOutcome::Finished { run_callback: old(self).finish_callback })
                && !final(self).finish_callback && final(self).groups@.len() == 0 && !final(self).running,
            old(self).groups@.len() > 0 ==> res == TickOutcome::Refreshed
                && final(self).finish_callback == old(self).finish_callback
                && final(self).running == old(self).running
                && groups_view(final(self).groups@) == spec_tick_groups(
                    groups_view(old(self).groups@),
                    old(self).tasks@,
                    old(self).threads as nat,
                ),
            final(self).tasks == old(self).tasks,
            final(self).next_id == old(self).next_id,
            final(self).threads == old(self).threads,
    {
        if self.groups.len() == 0 {
            let r = self.finish_callback;
            self.finish_callback = false;
            self.running = false;
            return TickOutcome::Finished { run_callback: r };
        }
        let ghost ov = groups_view(self.groups@);
        let ghost sv = spec_sync_groups(ov, self.tasks@, self.threads as nat);
        let limit = self.threads;
        let mut i: usize = 0;
        while i < limit && i < self.groups.len()
            invariant
                limit == self.threads,
                i <= self.groups.len(),
                self.groups@.len() == ov.len(),
                sv == spec_sync_groups(ov, self.tasks@, self.threads as nat),
                forall|k: int| 0 <= k < i ==> #[trigger] groups_view(self.groups@)[k] == sv[k],
                forall|k: int| i <= k < ov.len() ==> #[trigger] groups_view(self.groups@)[k] == ov[k],
                self.tasks == old(self).tasks,
                self.running == old(self).running,
                self.next_id == old(self).next_id,
                self.finish_callback == old(self).finish_callback,
            decreases self.groups.len() - i,
        {
            let ghost before = self.groups@;
            let mut g = self.groups.remove(i);
            sync_rows(&mut g.tasks, &self.tasks, limit);
            self.groups.insert(i, g);
            proof {
                assert(self.groups@ =~= before.update(i as int, g));
                assert(groups_view(before)[i as int] == ov[i as int]);
                assert(groups_view(self.groups@)[i as int] == sv[i as int]);
                assert forall|k: int| 0 <= k < i + 1 implies #[trigger] groups_view(self.groups@)[k] == sv[k] by {
                    if k < i {
                        assert(self.groups@[k] == before[k]);
                        assert(groups_view(before)[k] == sv[k]);
                    }
                }
                assert forall|k: int| i + 1 <= k < ov.len() implies #[trigger] groups_view(self.groups@)[k] == ov[k] by {
                    assert(self.groups@[k] == before[k]);
                    assert(groups_view(before)[k] == ov[k]);
                }
            }
            i = i + 1;
        }
        proof {
            assert(groups_view(self.groups@) =~= sv);
        }
        let ghost gv0 = groups_view(self.groups@);
        let mut i: usize = 0;
        assert(gv0.skip(0) == gv0);
        assert(gv0.take(0) + spec_prune_groups(gv0.skip(0), limit as nat) =~= spec_prune_groups(gv0, limit as nat));
        while i < limit && i < self.groups.len()
            invariant
                limit == self.threads,
                i <= limit,
                i <= self.groups.len(),
                spec_prune_groups(gv0, limit as nat) == groups_view(self.groups@).take(i as int)
                    + spec_prune_groups(groups_view(self.groups@).skip(i as int), (limit - i) as nat),
                self.tasks == old(self).tasks,
                self.running == old(self).running,
                self.next_id == old(self).next_id,
                self.finish_callback == old(self).finish_callback,
            decreases self.groups.len() - i,
        {
            let ghost gv = groups_view(self.groups@);
            proof {
                lemma_prune_step(gv, (limit - i) as nat, i as int);
            }
            if self.groups[i].tasks.len() == 0 {
                self.groups.remove(i);
                proof {
                    let nv = groups_view(self.groups@);
                    assert(nv.take(i as int) =~= gv.take(i as int));
                    assert(nv.skip(i as int) =~= gv.skip(i + 1));
                }
            } else {
                proof {
                    assert(gv.take(i + 1) =~= gv.take(i as int).push(gv[i as int]));
                    assert(gv.take(i as int) + (seq![gv[i as int]] + spec_prune_groups(gv.skip(i + 1), (limit - i - 1) as nat))
                        =~= gv.take(i + 1) + spec_prune_groups(gv.skip(i + 1), (limit - (i + 1)) as nat));
                }
                i = i + 1;
            }
        }
        proof {
            let gv = groups_view(self.groups@);
            if i == self.groups.len() {
                assert(gv.skip(i as int).len() == 0);
            }
            assert(gv.take(i as int) + gv.skip(i as int) =~= gv);
        }
        TickOutcome::Refreshed
    }
}

// ---------------------------------------------------------------------------
// Laws of the task manager
// ---------------------------------------------------------------------------

/// After a refresh, each of the first `limit` rows of a group belongs to a
/// task that is still in the queue.
pub proof fn lemma_synced_rows_are_queued(rows: Seq<TaskData>, es: Seq<TaskEntry>, limit: nat, k: int)
    requires
        0 <= k < spec_sync_rows(rows, es, limit).len(),
        k < limit,
    ensures
        spec_find_task(es, spec_sync_rows(rows, es, limit)[k].id) is Some,
    decreases rows.len(),
{
    if rows.len() == 0 || limit == 0 {
    } else {
        match spec_find_task(es, rows[0].id) {
            None => {
                lemma_synced_rows_are_queued(rows.drop_first(), es, limit, k);
            },
            Some(e) => {
                let rest = spec_sync_rows(rows.drop_first(), es, (limit - 1) as nat);
                assert(spec_sync_rows(rows, es, limit) == seq![spec_refresh(rows[0], e)] + rest);
                if k > 0 {
                    assert(spec_sync_rows(rows, es, limit)[k] == rest[k - 1]);
                    lemma_synced_rows_are_queued(rows.drop_first(), es, (limit - 1) as nat, k - 1);
                }
            },
        }
    }
}

/// After a refresh, none of the first `limit` groups is empty.
pub proof fn lemma_pruned_groups_not_empty(gs: Seq<GroupV>, limit: nat, k: int)
    requires
        0 <= k < spec_prune_groups(gs, limit).len(),
        k < limit,
    ensures
        spec_prune_groups(gs, limit)[k].rows.len() > 0,
    decreases gs.len(),
{
    if gs.len() == 0 || limit == 0 {
    } else if gs[0].rows.len() == 0 {
        lemma_pruned_groups_not_empty(gs.drop_first(), limit, k);
    } else {
        let rest = spec_prune_groups(gs.drop_first(), (limit - 1) as nat);
        assert(spec_prune_groups(gs, limit) == seq![gs[0]] + rest);
        if k > 0 {
            assert(spec_prune_groups(gs, limit)[k] == rest[k - 1]);
            lemma_pruned_groups_not_empty(gs.drop_first(), (limit - 1) as nat, k - 1);
        }
    }
}

/// A refresh tick leaves none of the first `threads` groups empty.
pub proof fn lemma_tick_leaves_no_empty_group(gs: Seq<GroupV>, es: Seq<TaskEntry>, threads: nat, k: int)
    requires
        0 <= k < spec_tick_groups(gs, es, threads).len(),
        k < threads,
    ensures
        spec_tick_groups(gs, es, threads)[k].rows.len() > 0,
{
    lemma_pruned_groups_not_empty(spec_sync_groups(gs, es, threads), threads, k);
}

proof fn lemma_pending_count_update(es: Seq<TaskEntry>, k: int, e: TaskEntry)
    requires
        0 <= k < es.len(),
    ensures
        spec_pending_count(es.update(k, e)) + (if es[k].pending { 1int } else { 0int })
            == spec_pending_count(es) + (if e.pending { 1int } else { 0int }),
    decreases es.len(),
{
    if k > 0 {
        lemma_pending_count_update(es.drop_first(), k - 1, e);
        assert(es.update(k, e).drop_first() == es.drop_first().update(k - 1, e));
    } else {
        assert(es.update(k, e).drop_first() == es.drop_first());
    }
}

/// A worker's claim takes a task that was pending, and no other worker can
/// take it again: one pending task fewer.
pub proof fn lemma_claim_takes_one(es: Seq<TaskEntry>)
    ensures
        spec_claim(es).0 matches WorkerStep::Run(id) ==> (spec_pending_count(spec_claim(es).1) + 1
            == spec_pending_count(es) && (spec_find_task(spec_claim(es).1, id) matches Some(e) && !e.pending)),
        spec_claim(es).0 == WorkerStep::Wait ==> spec_pending_count(es) == 0,
{
    lemma_first_pending_props(es);
    if es.len() > 0 {
        let k = spec_first_pending(es);
        if k < es.len() {
            let ne = TaskEntry {
                pending: false,
                shared_state: SharedTaskState { state: TaskState::Starting, ..es[k].shared_state },
                ..es[k]
            };
            lemma_pending_count_update(es, k, ne);
            let after = es.update(k, ne);
            lemma_find_task_index(after, es[k].id);
            let j = spec_task_index(after, es[k].id);
            assert(after[k].id == es[k].id);
            if j != k {
                assert(j < k);
                assert(after[j] == es[j]);
                assert(!es[j].pending);
            }
        } else {
            lemma_no_pending(es);
        }
    }
}

proof fn lemma_no_pending(es: Seq<TaskEntry>)
    requires
        forall|k: int| 0 <= k < es.len() ==> !es[k].pending,
    ensures
        spec_pending_count(es) == 0,
    decreases es.len(),
{
    if es.len() > 0 {
        assert forall|k: int| 0 <= k < es.drop_first().len() implies !es.drop_first()[k].pending by {
            assert(es.drop_first()[k] == es[k + 1]);
        }
        lemma_no_pending(es.drop_first());
    }
}

/// When no task waits for a worker, the task submitted next is the one that
/// the next worker runs.
pub proof fn lemma_submitted_task_runs_next(es: Seq<TaskEntry>, id: i32, state: SharedTaskState)
    requires
        forall|k: int| 0 <= k < es.len() ==> !es[k].pending,
    ensures
        spec_claim(es.push(TaskEntry { id, shared_state: state, pending: true })).0 == WorkerStep::Run(id),
{
    let ns = es.push(TaskEntry { id, shared_state: state, pending: true });
    lemma_first_pending_props(ns);
    let k = spec_first_pending(ns);
    assert(ns[es.len() as int].pending);
    if k < es.len() {
        assert(ns[k] == es[k]);
    }
    assert(k == es.len());
}

} // verus!
