//! Bookkeeping of transfers: which tasks are active and whether each was
//! asked to cancel, the decisions a worker takes for one task, and the
//! accounting of progress and checkpoints.

use vstd::prelude::*;
use crate::model::{ResumeRecord, TransferDirection, TransferHistory, TransferStatus, TransferTask};
use crate::text::{join_str, str_eq};
use vstd::string::StringExecFns;

verus! {

/// The error of a cancel of a task that is not active.
pub open spec fn not_found_message(id: Seq<char>) -> Seq<char> {
    "Transfer "@ + id + " not found"@
}

/// The active tasks: each id with its cancellation flag. An id is present
/// from submission until its worker reaches a terminal state.
pub struct ActiveTasks {
    ids: Vec<String>,
    flags: Vec<bool>,
}

impl ActiveTasks {
    pub closed spec fn id_seq(&self) -> Seq<Seq<char>> {
        self.ids@.map_values(|s: String| s@)
    }

    pub closed spec fn wf(&self) -> bool {
        &&& self.ids@.len() == self.flags@.len()
        &&& self.id_seq().no_duplicates()
    }

    /// Each active id mapped to whether it was asked to cancel.
    pub closed spec fn view(&self) -> Map<Seq<char>, bool> {
        Map::new(
            |k: Seq<char>| self.id_seq().contains(k),
            |k: Seq<char>| self.flags@[self.id_seq().index_of(k)],
        )
    }

    proof fn lemma_index(&self, k: Seq<char>, i: int)
        requires
            self.wf(),
            0 <= i < self.ids@.len(),
            self.ids@[i]@ == k,
        ensures
            self.id_seq().index_of(k) == i,
            self.id_seq().contains(k),
    {
        assert(self.id_seq()[i] == k);
        let j = self.id_seq().index_of(k);
        assert(0 <= j < self.id_seq().len() && self.id_seq()[j] == k);
    }

    pub fn new() -> (r: Self)
        ensures
            r.wf(),
            r@ == Map::<Seq<char>, bool>::empty(),
    {
        let r = ActiveTasks { ids: Vec::new(), flags: Vec::new() };
        assert(r@ =~= Map::<Seq<char>, bool>::empty());
        r
    }

    fn position(&self, id: &str) -> (r: Option<usize>)
        requires
            self.wf(),
        ensures
            r is None <==> !self@.contains_key(id@),
            r matches Some(i) ==> i < self.ids@.len() && self.ids@[i as int]@ == id@
                && self.id_seq().index_of(id@) == i,
    {
        let mut i: usize = 0;
        while i < self.ids.len()
            invariant
                self.wf(),
                0 <= i <= self.ids@.len(),
                forall|j: int| 0 <= j < i ==> self.ids@[j]@ != id@,
            decreases self.ids@.len() - i,
        {
            if str_eq(self.ids[i].as_str(), id) {
                proof {
                    self.lemma_index(id@, i as int);
                }
                return Some(i);
            }
            i = i + 1;
        }
        assert(!self.id_seq().contains(id@)) by {
            if self.id_seq().contains(id@) {
                let j = choose|j: int| 0 <= j < self.id_seq().len() && self.id_seq()[j] == id@;
                assert(self.ids@[j]@ == id@);
            }
        }
        None
    }

    /// Marks `id` active with a clear cancellation flag.
    pub fn register(&mut self, id: String)
        requires
            old(self).wf(),
        ensures
            final(self).wf(),
            final(self)@ == old(self)@.insert(id@, false),
    {
        match self.position(id.as_str()) {
            Some(i) => {
                self.flags.set(i, false);
                proof {
                    assert forall|k: Seq<char>| #[trigger] self@.contains_key(k) implies
                        self@[k] == old(self)@.insert(id@, false)[k] by {
                        if k != id@ {
                            let j = self.id_seq().index_of(k);
                            assert(self.id_seq()[j] == k);
                            assert(j != i);
                        }
                    }
                    assert(self@ =~= old(self)@.insert(id@, false));
                }
            },
            None => {
                let ghost old_seq = self.id_seq();
                self.ids.push(id);
                self.flags.push(false);
                proof {
                    assert(self.id_seq() =~= old_seq.push(id@));
                    assert forall|a: int, b: int|
                        0 <= a < self.id_seq().len() && 0 <= b < self.id_seq().len() && a != b implies
                        self.id_seq()[a] != self.id_seq()[b] by {
                        if a == old_seq.len() || b == old_seq.len() {
                            assert(!old_seq.contains(id@));
                        }
                    }
                    let n = old_seq.len() as int;
                    self.lemma_index(id@, n);
                    assert forall|k: Seq<char>| #[trigger] self@.contains_key(k) implies
                        self@[k] == old(self)@.insert(id@, false)[k] by {
                        if k != id@ {
                            let j = self.id_seq().index_of(k);
                            assert(self.id_seq()[j] == k);
                            assert(j < n);
                            old(self).lemma_index(k, j);
                        }
                    }
                    assert forall|k: Seq<char>| #[trigger] old(self)@.contains_key(k) implies
                        self@.contains_key(k) by {
                        let j = old_seq.index_of(k);
                        assert(self.id_seq()[j] == k);
                    }
                    assert(self@ =~= old(self)@.insert(id@, false));
                }
            },
        }
    }

    /// Asks the active task `id` to cancel; an id that is not active is refused.
    pub fn cancel(&mut self, id: &str) -> (r: Result<(), String>)
        requires
            old(self).wf(),
        ensures
            final(self).wf(),
            r is Ok <==> old(self)@.contains_key(id@),
            r is Ok ==> final(self)@ == old(self)@.insert(id@, true),
            r matches Err(e) ==> final(self)@ == old(self)@ && e@ == not_found_message(id@),
    {
        match self.position(id) {
            Some(i) => {
                self.flags.set(i, true);
                proof {
                    assert forall|k: Seq<char>| #[trigger] self@.contains_key(k) implies
                        self@[k] == old(self)@.insert(id@, true)[k] by {
                        if k != id@ {
                            let j = self.id_seq().index_of(k);
                            assert(self.id_seq()[j] == k);
                            assert(j != i);
                        }
                    }
                    assert(self@ =~= old(self)@.insert(id@, true));
                }
                Ok(())
            },
            None => {
                let msg = join_str("Transfer ", id).concat(" not found");
                Err(msg)
            },
        }
    }

    /// Whether `id` is active and was asked to cancel.
    pub fn is_cancelled(&self, id: &str) -> (r: bool)
        requires
            self.wf(),
        ensures
            r == (self@.contains_key(id@) && self@[id@]),
    {
        match self.position(id) {
            Some(i) => self.flags[i],
            None => false,
        }
    }

    /// Drops `id` from the active tasks; its flag goes with it.
    pub fn finish(&mut self, id: &str)
        requires
            old(self).wf(),
        ensures
            final(self).wf(),
            final(self)@ == old(self)@.remove(id@),
    {
        match self.position(id) {
            None => {
                assert(self@ =~= old(self)@.remove(id@));
            },
            Some(i) => {
                let ghost old_seq = self.id_seq();
                let ghost old_ids = self.ids@;
                let ghost old_flags = self.flags@;
                self.ids.remove(i);
                self.flags.remove(i);
                proof {
                    old_ids.remove_ensures(i as int);
                    old_flags.remove_ensures(i as int);
                    assert(self.id_seq() =~= old_seq.remove(i as int));
                    old_seq.remove_ensures(i as int);
                    assert forall|a: int, b: int|
                        0 <= a < self.id_seq().len() && 0 <= b < self.id_seq().len() && a != b implies
                        self.id_seq()[a] != self.id_seq()[b] by {
                        let a0 = if a < i { a } else { a + 1 };
                        let b0 = if b < i { b } else { b + 1 };
                        assert(self.id_seq()[a] == old_seq[a0]);
                        assert(self.id_seq()[b] == old_seq[b0]);
                    }
                    assert forall|k: Seq<char>| #[trigger] self@.contains_key(k) implies
                        old(self)@.remove(id@).contains_key(k) && self@[k] == old(self)@[k] by {
                        let j = self.id_seq().index_of(k);
                        assert(self.id_seq()[j] == k);
                        let j0 = if j < i { j } else { j + 1 };
                        assert(old_seq[j0] == k);
                        assert(j0 != i);
                        old(self).lemma_index(k, j0);
                        assert(self.flags@[j] == old_flags[j0]);
                    }
                    assert forall|k: Seq<char>| #[trigger] old(self)@.remove(id@).contains_key(k) implies
                        self@.contains_key(k) by {
                        let j0 = old_seq.index_of(k);
                        assert(old_seq[j0] == k);
                        assert(j0 != i);
                        let j = if j0 < i { j0 } else { j0 - 1 };
                        assert(self.id_seq()[j] == k);
                    }
                    assert(self@ =~= old(self)@.remove(id@));
                }
            },
        }
    }

    /// The active ids.
    pub fn ids(&self) -> (r: Vec<String>)
        requires
            self.wf(),
        ensures
            forall|k: Seq<char>| self@.contains_key(k) <==> exists|i: int| 0 <= i < r@.len() && #[trigger] r@[i]@ == k,
            r@.len() == self@.len(),
    {
        let mut out: Vec<String> = Vec::new();
        let mut i: usize = 0;
        while i < self.ids.len()
            invariant
                self.wf(),
                0 <= i <= self.ids@.len(),
                out@.len() == i,
                forall|j: int| 0 <= j < i ==> #[trigger] out@[j]@ == self.ids@[j]@,
            decreases self.ids@.len() - i,
        {
            out.push(self.ids[i].clone());
            i = i + 1;
        }
        proof {
            assert forall|k: Seq<char>| self@.contains_key(k) implies exists|i: int| 0 <= i < out@.len() && #[trigger] out@[i]@ == k by {
                let j = self.id_seq().index_of(k);
                assert(out@[j]@ == k);
            }
            assert forall|k: Seq<char>| (exists|i: int| 0 <= i < out@.len() && #[trigger] out@[i]@ == k) implies self@.contains_key(k) by {
                let j = choose|i: int| 0 <= i < out@.len() && #[trigger] out@[i]@ == k;
                assert(self.id_seq()[j] == k);
            }
            self.id_seq().unique_seq_to_set();
            assert(self@.dom() =~= self.id_seq().to_set());
        }
        out
    }
}

/// Time between two checkpoints of a running transfer, in milliseconds.
pub const CHECKPOINT_INTERVAL_MS: u64 = 3000;

/// A lifecycle event for whoever watches transfers.
#[derive(Debug, Clone, PartialEq)]
pub enum TransferEvent {
    Complete { transfer_id: String, filename: String },
    Cancelled { transfer_id: String, filename: String },
    Failed { transfer_id: String, filename: String, error: String },
}

/// Work that a worker asks its runner to do, in order.
#[derive(Debug, Clone, PartialEq)]
pub enum Action {
    /// Store a new history row; report the id it got with `history_inserted`.
    InsertHistory(TransferHistory),
    /// Change a history row; `finished` asks for the finishing time to be stamped.
    UpdateHistory {
        history_id: i64,
        status: TransferStatus,
        transferred: u64,
        error: Option<String>,
        finished: bool,
    },
    /// Look up the newest checkpoint of these paths; report it with `resume_found`.
    FindResume {
        host_id: i64,
        remote_path: String,
        local_path: String,
        direction: TransferDirection,
    },
    /// Look up the pooled session of the host; report with `connection_ready`.
    GetConnection { host_id: i64 },
    /// Run the transfer on the pooled session, holding its lock throughout;
    /// report with `transfer_done`.
    Transfer {
        direction: TransferDirection,
        local_path: String,
        remote_path: String,
        offset: u64,
    },
    SaveResume(ResumeRecord),
    /// Delete the checkpoints written under this transfer id.
    DeleteResume { transfer_id: String },
    Emit(TransferEvent),
    /// Drop the task from the active tasks: it has reached a terminal state.
    Deregister { transfer_id: String },
}

/// Where a worker stands.
#[derive(Debug, Clone, Copy, PartialEq, Eq, Structural)]
pub enum Phase {
    AwaitHistory,
    AwaitResume,
    AwaitConnection,
    Transferring,
    Done,
}

pub open spec fn opt_view(o: Option<String>) -> Option<Seq<char>> {
    match o {
        Some(s) => Some(s@),
        None => None,
    }
}

/// `a` changes history row `id` to `status` with `transferred` bytes.
pub open spec fn is_update(
    a: Action,
    id: i64,
    status: TransferStatus,
    transferred: u64,
    error: Option<Seq<char>>,
    finished: bool,
) -> bool {
    match a {
        Action::UpdateHistory { history_id, status: st, transferred: t, error: e, finished: f } =>
            history_id == id && st == status && t == transferred && opt_view(e) == error && f == finished,
        _ => false,
    }
}

/// `r` is a checkpoint of `task` at `bytes`.
pub open spec fn is_checkpoint(r: ResumeRecord, task: TransferTask, bytes: u64) -> bool {
    &&& r.id is None
    &&& r.transfer_id@ == task.id@
    &&& r.host_id == task.host_id
    &&& r.remote_path@ == task.remote_path@
    &&& r.local_path@ == task.local_path@
    &&& r.direction == task.spec_direction()
    &&& r.file_size == task.file_size
    &&& r.transferred_bytes == bytes
    &&& r.checksum is None
    &&& r.created_at is None
}

pub open spec fn is_failed_event(a: Action, task: TransferTask, error: Seq<char>) -> bool {
    a matches Action::Emit(TransferEvent::Failed { transfer_id, filename, error: e })
        && transfer_id@ == task.id@ && filename@ == task.filename@ && e@ == error
}

pub open spec fn is_deregister(a: Action, task: TransferTask) -> bool {
    a matches Action::Deregister { transfer_id } && transfer_id@ == task.id@
}

/// The resume offset that a found checkpoint gives: its bytes, or 0.
pub open spec fn resume_offset(found: Option<ResumeRecord>) -> u64 {
    match found {
        Some(r) => r.transferred_bytes,
        None => 0,
    }
}

/// What a progress report yields: the bytes of the file represented, the bytes
/// moved by this attempt, and a checkpoint to save when one is due.
pub struct ProgressStep {
    pub transferred_bytes: u64,
    pub moved: u64,
    pub checkpoint: Option<ResumeRecord>,
}

/// The decisions of the worker that runs one task, from submission to a
/// terminal state. The runner performs the actions it hands out and reports
/// what came of them; a report that does not fit the phase changes nothing.
pub struct TaskRun {
    pub task: TransferTask,
    pub phase: Phase,
    pub status: TransferStatus,
    pub history_id: i64,
    pub offset: u64,
    pub last_reported: u64,
    pub last_checkpoint_ms: u64,
}

impl TaskRun {
    /// Terminal states and the last phase go together.
    pub open spec fn wf(&self) -> bool {
        (self.phase == Phase::Done) == self.status.is_terminal()
    }

    fn failed_checkpoint(&self, bytes: u64) -> (r: ResumeRecord)
        ensures
            is_checkpoint(r, self.task, bytes),
    {
        let mut r = ResumeRecord::new(
            self.task.id.clone(),
            self.task.host_id,
            self.task.remote_path.clone(),
            self.task.local_path.clone(),
            self.task.transfer_direction(),
            self.task.file_size,
        );
        r.transferred_bytes = bytes;
        r
    }

    fn failed_event(&self, error: &String) -> (r: Action)
        ensures
            is_failed_event(r, self.task, error@),
    {
        Action::Emit(TransferEvent::Failed {
            transfer_id: self.task.id.clone(),
            filename: self.task.filename.clone(),
            error: error.clone(),
        })
    }

    fn deregister(&self) -> (r: Action)
        ensures
            is_deregister(r, self.task),
    {
        Action::Deregister { transfer_id: self.task.id.clone() }
    }

    /// A worker for `task`; its first action stores a pending history row.
    pub fn start(task: TransferTask) -> (r: (TaskRun, Vec<Action>))
        ensures
            r.0.wf(),
            r.0.task == task,
            r.0.phase == Phase::AwaitHistory,
            r.0.status == TransferStatus::Pending,
            r.1@.len() == 1,
            r.1@[0] matches Action::InsertHistory(h) && h.host_id == task.host_id
                && h.filename@ == task.filename@ && h.remote_path@ == task.remote_path@
                && h.local_path@ == task.local_path@ && h.direction == task.spec_direction()
                && h.file_size == task.file_size && h.status == TransferStatus::Pending
                && h.transferred_size == 0,
    {
        let h = TransferHistory::new(
            task.host_id,
            task.filename.clone(),
            task.remote_path.clone(),
            task.local_path.clone(),
            task.transfer_direction(),
            task.file_size,
        );
        let mut actions = Vec::new();
        actions.push(Action::InsertHistory(h));
        let run = TaskRun {
            task,
            phase: Phase::AwaitHistory,
            status: TransferStatus::Pending,
            history_id: 0,
            offset: 0,
            last_reported: 0,
            last_checkpoint_ms: 0,
        };
        (run, actions)
    }

    /// The history row was stored under `res`'s id, or could not be: then the
    /// task cannot be tracked and fails at once, with no row to update.
    pub fn history_inserted(&mut self, res: Result<i64, String>) -> (r: Vec<Action>)
        requires
            old(self).wf(),
        ensures
            final(self).wf(),
            final(self).task == old(self).task,
            old(self).phase != Phase::AwaitHistory ==> r@.len() == 0 && *final(self) == *old(self),
            old(self).phase == Phase::AwaitHistory ==> match res {
                Ok(id) => {
                    &&& final(self).phase == Phase::AwaitResume
                    &&& final(self).status == TransferStatus::Transferring
                    &&& final(self).history_id == id
                    &&& r@.len() == 2
                    &&& is_update(r@[0], id, TransferStatus::Transferring, 0, None, false)
                    &&& r@[1] matches Action::FindResume { host_id, remote_path, local_path, direction }
                        && host_id == old(self).task.host_id
                        && remote_path@ == old(self).task.remote_path@
                        && local_path@ == old(self).task.local_path@
                        && direction == old(self).task.spec_direction()
                },
                Err(e) => {
                    &&& final(self).phase == Phase::Done
                    &&& final(self).status == TransferStatus::Failed
                    &&& r@.len() == 2
                    &&& is_failed_event(r@[0], old(self).task, e@)
                    &&& is_deregister(r@[1], old(self).task)
                },
            },
    {
        let mut actions = Vec::new();
        if self.phase != Phase::AwaitHistory {
            return actions;
        }
        match res {
            Ok(id) => {
                self.history_id = id;
                self.phase = Phase::AwaitResume;
                self.status = TransferStatus::Transferring;
                actions.push(Action::UpdateHistory {
                    history_id: id,
                    status: TransferStatus::Transferring,
                    transferred: 0,
                    error: None,
                    finished: false,
                });
                actions.push(Action::FindResume {
                    host_id: self.task.host_id,
                    remote_path: self.task.remote_path.clone(),
                    local_path: self.task.local_path.clone(),
                    direction: self.task.transfer_direction(),
                });
            },
            Err(e) => {
                self.phase = Phase::Done;
                self.status = TransferStatus::Failed;
                actions.push(self.failed_event(&e));
                actions.push(self.deregister());
            },
        }
        actions
    }

    /// The newest checkpoint of the task's paths, if any, sets the offset the
    /// transfer resumes from.
    pub fn resume_found(&mut self, found: Option<ResumeRecord>) -> (r: Vec<Action>)
        requires
            old(self).wf(),
        ensures
            final(self).wf(),
            final(self).task == old(self).task,
            old(self).phase != Phase::AwaitResume ==> r@.len() == 0 && *final(self) == *old(self),
            old(self).phase == Phase::AwaitResume ==> {
                &&& final(self).phase == Phase::AwaitConnection
                &&& final(self).status == old(self).status
                &&& final(self).history_id == old(self).history_id
                &&& final(self).offset == resume_offset(found)
                &&& final(self).last_reported == resume_offset(found)
                &&& r@.len() == 1
                &&& r@[0] matches Action::GetConnection { host_id } && host_id == old(self).task.host_id
            },
    {
        let mut actions = Vec::new();
        if self.phase != Phase::AwaitResume {
            return actions;
        }
        let offset = match found {
            Some(rec) => rec.transferred_bytes,
            None => 0,
        };
        self.offset = offset;
        self.last_reported = offset;
        self.phase = Phase::AwaitConnection;
        actions.push(Action::GetConnection { host_id: self.task.host_id });
        actions
    }

    /// The host's pooled session was found, or not: then the task fails, and
    /// a checkpoint with no progress is kept so that a retry can be built.
    pub fn connection_ready(&mut self, res: Result<(), String>) -> (r: Vec<Action>)
        requires
            old(self).wf(),
        ensures
            final(self).wf(),
            final(self).task == old(self).task,
            old(self).phase != Phase::AwaitConnection ==> r@.len() == 0 && *final(self) == *old(self),
            old(self).phase == Phase::AwaitConnection ==> match res {
                Ok(_) => {
                    &&& final(self).phase == Phase::Transferring
                    &&& final(self).status == old(self).status
                    &&& final(self).history_id == old(self).history_id
                    &&& final(self).offset == old(self).offset
                    &&& final(self).last_reported == old(self).offset
                    &&& final(self).last_checkpoint_ms == 0
                    &&& r@.len() == 1
                    &&& r@[0] matches Action::Transfer { direction, local_path, remote_path, offset }
                        && direction == old(self).task.spec_direction()
                        && local_path@ == old(self).task.local_path@
                        && remote_path@ == old(self).task.remote_path@
                        && offset == old(self).offset
                },
                Err(e) => {
                    &&& final(self).phase == Phase::Done
                    &&& final(self).status == TransferStatus::Failed
                    &&& r@.len() == 4
                    &&& is_update(r@[0], old(self).history_id, TransferStatus::Failed, 0, Some(e@), true)
                    &&& r@[1] matches Action::SaveResume(rec) && is_checkpoint(rec, old(self).task, 0)
                    &&& is_failed_event(r@[2], old(self).task, e@)
                    &&& is_deregister(r@[3], old(self).task)
                },
            },
    {
        let mut actions = Vec::new();
        if self.phase != Phase::AwaitConnection {
            return actions;
        }
        match res {
            Ok(_) => {
                self.phase = Phase::Transferring;
                self.last_reported = self.offset;
                self.last_checkpoint_ms = 0;
                actions.push(Action::Transfer {
                    direction: self.task.transfer_direction(),
                    local_path: self.task.local_path.clone(),
                    remote_path: self.task.remote_path.clone(),
                    offset: self.offset,
                });
            },
            Err(e) => {
                self.phase = Phase::Done;
                self.status = TransferStatus::Failed;
                actions.push(Action::UpdateHistory {
                    history_id: self.history_id,
                    status: TransferStatus::Failed,
                    transferred: 0,
                    error: Some(e.clone()),
                    finished: true,
                });
                actions.push(Action::SaveResume(self.failed_checkpoint(0)));
                actions.push(self.failed_event(&e));
                actions.push(self.deregister());
            },
        }
        actions
    }

    /// A progress report of the running transfer: `reported` bytes of the
    /// file are represented at the destination, `elapsed_ms` after the
    /// transfer began. A checkpoint at `reported` is due when at least
    /// `CHECKPOINT_INTERVAL_MS` passed since the last one, or since the start.
    pub fn progress(&mut self, reported: u64, elapsed_ms: u64) -> (r: ProgressStep)
        requires
            old(self).wf(),
        ensures
            final(self).wf(),
            final(self).task == old(self).task,
            final(self).phase == old(self).phase,
            final(self).status == old(self).status,
            final(self).offset == old(self).offset,
            final(self).history_id == old(self).history_id,
            r.transferred_bytes == reported,
            r.moved == (if reported >= old(self).offset { reported - old(self).offset } else { 0 }),
            old(self).phase != Phase::Transferring ==> r.checkpoint is None && *final(self) == *old(self),
            old(self).phase == Phase::Transferring ==> {
                &&& final(self).last_reported == reported
                &&& (r.checkpoint is Some <==> elapsed_ms as int - old(self).last_checkpoint_ms as int
                    >= CHECKPOINT_INTERVAL_MS)
                &&& (r.checkpoint matches Some(c) ==> is_checkpoint(c, old(self).task, reported)
                    && final(self).last_checkpoint_ms == elapsed_ms)
                &&& (r.checkpoint is None ==> final(self).last_checkpoint_ms == old(self).last_checkpoint_ms)
            },
    {
        let moved = if reported >= self.offset { reported - self.offset } else { 0 };
        if self.phase != Phase::Transferring {
            return ProgressStep { transferred_bytes: reported, moved, checkpoint: None };
        }
        self.last_reported = reported;
        let due = elapsed_ms >= self.last_checkpoint_ms
            && elapsed_ms - self.last_checkpoint_ms >= CHECKPOINT_INTERVAL_MS;
        if due {
            self.last_checkpoint_ms = elapsed_ms;
            let c = self.failed_checkpoint(reported);
            ProgressStep { transferred_bytes: reported, moved, checkpoint: Some(c) }
        } else {
            ProgressStep { transferred_bytes: reported, moved, checkpoint: None }
        }
    }

    /// The transfer call returned `res`, and `cancelled` tells whether the task
    /// was asked to cancel by then. Cancellation wins over the result. Success
    /// records the offset plus the bytes moved and drops the task's
    /// checkpoints; failure keeps a checkpoint at the bytes last reported.
    pub fn transfer_done(&mut self, res: Result<u64, String>, cancelled: bool) -> (r: Vec<Action>)
        requires
            old(self).wf(),
        ensures
            final(self).wf(),
            final(self).task == old(self).task,
            old(self).phase != Phase::Transferring ==> r@.len() == 0 && *final(self) == *old(self),
            old(self).phase == Phase::Transferring && cancelled ==> {
                &&& final(self).phase == Phase::Done
                &&& final(self).status == TransferStatus::Cancelled
                &&& r@.len() == 3
                &&& is_update(r@[0], old(self).history_id, TransferStatus::Cancelled, 0, None, true)
                &&& r@[1] matches Action::Emit(TransferEvent::Cancelled { transfer_id, filename })
                    && transfer_id@ == old(self).task.id@ && filename@ == old(self).task.filename@
                &&& is_deregister(r@[2], old(self).task)
            },
            old(self).phase == Phase::Transferring && !cancelled ==> match res {
                Ok(bytes) => {
                    &&& final(self).phase == Phase::Done
                    &&& final(self).status == TransferStatus::Success
                    &&& r@.len() == 4
                    &&& is_update(r@[0], old(self).history_id, TransferStatus::Success,
                        total_bytes(old(self).offset, bytes), None, true)
                    &&& r@[1] matches Action::DeleteResume { transfer_id }
                        && transfer_id@ == old(self).task.id@
                    &&& r@[2] matches Action::Emit(TransferEvent::Complete { transfer_id, filename })
                        && transfer_id@ == old(self).task.id@ && filename@ == old(self).task.filename@
                    &&& is_deregister(r@[3], old(self).task)
                },
                Err(e) => {
                    &&& final(self).phase == Phase::Done
                    &&& final(self).status == TransferStatus::Failed
                    &&& r@.len() == 4
                    &&& is_update(r@[0], old(self).history_id, TransferStatus::Failed, 0, Some(e@), true)
                    &&& r@[1] matches Action::SaveResume(rec)
                        && is_checkpoint(rec, old(self).task, old(self).last_reported)
                    &&& is_failed_event(r@[2], old(self).task, e@)
                    &&& is_deregister(r@[3], old(self).task)
                },
            },
    {
        let mut actions = Vec::new();
        if self.phase != Phase::Transferring {
            return actions;
        }
        self.phase = Phase::Done;
        if cancelled {
            self.status = TransferStatus::Cancelled;
            actions.push(Action::UpdateHistory {
                history_id: self.history_id,
                status: TransferStatus::Cancelled,
                transferred: 0,
                error: None,
                finished: true,
            });
            actions.push(Action::Emit(TransferEvent::Cancelled {
                transfer_id: self.task.id.clone(),
                filename: self.task.filename.clone(),
            }));
            actions.push(self.deregister());
            return actions;
        }
        match res {
            Ok(bytes) => {
                self.status = TransferStatus::Success;
                let total = if bytes <= u64::MAX - self.offset { self.offset + bytes } else { u64::MAX };
                actions.push(Action::UpdateHistory {
                    history_id: self.history_id,
                    status: TransferStatus::Success,
                    transferred: total,
                    error: None,
                    finished: true,
                });
                actions.push(Action::DeleteResume { transfer_id: self.task.id.clone() });
                actions.push(Action::Emit(TransferEvent::Complete {
                    transfer_id: self.task.id.clone(),
                    filename: self.task.filename.clone(),
                }));
                actions.push(self.deregister());
            },
            Err(e) => {
                self.status = TransferStatus::Failed;
                actions.push(Action::UpdateHistory {
                    history_id: self.history_id,
                    status: TransferStatus::Failed,
                    transferred: 0,
                    error: Some(e.clone()),
                    finished: true,
                });
                actions.push(Action::SaveResume(self.failed_checkpoint(self.last_reported)));
                actions.push(self.failed_event(&e));
                actions.push(self.deregister());
            },
        }
        actions
    }
}

/// Bytes of the file a finished transfer accounts for: the resume offset
/// plus the bytes moved, capped at `u64::MAX`.
pub open spec fn total_bytes(offset: u64, moved: u64) -> u64 {
    if offset + moved <= u64::MAX {
        (offset + moved) as u64
    } else {
        u64::MAX
    }
}

/// The count a protocol client keeps during one transfer call: it starts at
/// the resume offset and grows by each chunk, so that what it reports is
/// always the bytes of the file represented at the destination.
pub struct ProgressCounter {
    pub offset: u64,
    pub transferred: u64,
    pub total: u64,
}

impl ProgressCounter {
    pub open spec fn wf(&self) -> bool {
        self.offset <= self.transferred
    }

    pub fn new(offset: u64, total: u64) -> (r: ProgressCounter)
        ensures
            r.wf(),
            r.offset == offset,
            r.transferred == offset,
            r.total == total,
    {
        ProgressCounter { offset, transferred: offset, total }
    }

    /// Counts a chunk of `n` bytes and returns the new count.
    pub fn advance(&mut self, n: u64) -> (r: u64)
        requires
            old(self).wf(),
            old(self).transferred + n <= u64::MAX,
        ensures
            final(self).wf(),
            final(self).offset == old(self).offset,
            final(self).total == old(self).total,
            final(self).transferred == old(self).transferred + n,
            r == final(self).transferred,
    {
        self.transferred = self.transferred + n;
        self.transferred
    }

    /// The bytes moved by this call, the offset left out.
    pub fn moved(&self) -> (r: u64)
        requires
            self.wf(),
        ensures
            r == self.transferred - self.offset,
    {
        self.transferred - self.offset
    }
}

pub open spec fn chunk_sum(chunks: Seq<u64>) -> nat
    decreases chunks.len(),
{
    if chunks.len() == 0 {
        0
    } else {
        chunk_sum(chunks.drop_last()) + chunks.last() as nat
    }
}

/// The counts a `ProgressCounter` started at `offset` reports for `chunks`.
pub open spec fn reports(offset: nat, chunks: Seq<u64>) -> Seq<nat>
    decreases chunks.len(),
{
    if chunks.len() == 0 {
        Seq::empty()
    } else {
        reports(offset, chunks.drop_last()).push(offset + chunk_sum(chunks))
    }
}

/// Successive progress reports of one transfer never decrease, and the last
/// one is the offset plus the bytes moved; with no offset it is exactly what
/// the transfer call returns as moved.
pub proof fn lemma_progress_monotone(offset: nat, chunks: Seq<u64>)
    ensures
        reports(offset, chunks).len() == chunks.len(),
        forall|i: int, j: int|
            0 <= i <= j < chunks.len() ==> #[trigger] reports(offset, chunks)[i] <= #[trigger] reports(offset, chunks)[j],
        chunks.len() > 0 ==> reports(offset, chunks).last() == offset + chunk_sum(chunks),
        forall|i: int| 0 <= i < chunks.len() ==> #[trigger] reports(offset, chunks)[i] <= offset + chunk_sum(chunks),
    decreases chunks.len(),
{
    if chunks.len() > 0 {
        let prev = chunks.drop_last();
        lemma_progress_monotone(offset, prev);
        let r = reports(offset, chunks);
        assert(r == reports(offset, prev).push(offset + chunk_sum(chunks)));
        assert forall|i: int| 0 <= i < chunks.len() implies #[trigger] r[i] <= offset + chunk_sum(chunks) by {
            if i < prev.len() {
                assert(r[i] == reports(offset, prev)[i]);
            }
        }
        assert forall|i: int, j: int| 0 <= i <= j < chunks.len() implies #[trigger] r[i] <= #[trigger] r[j] by {
            if j < prev.len() {
                assert(r[i] == reports(offset, prev)[i]);
                assert(r[j] == reports(offset, prev)[j]);
            }
        }
    }
}

/// A task is listed as active from its registration until it finishes and
/// never after: registering lists it, cancelling keeps it listed, the
/// registration or end of another task does not change whether it is listed,
/// and finishing it unlists it.
pub proof fn lemma_listed_until_finished(
    active: Map<Seq<char>, bool>,
    id: Seq<char>,
    other: Seq<char>,
    flag: bool,
)
    requires
        other != id,
    ensures
        active.insert(id, false).contains_key(id),
        active.contains_key(id) ==> active.insert(id, true).contains_key(id),
        active.insert(other, flag).contains_key(id) == active.contains_key(id),
        active.remove(other).contains_key(id) == active.contains_key(id),
        !active.remove(id).contains_key(id),
{
}

/// Once a task has finished, a cancel of it is refused as not found: the
/// registry no longer holds it, and `cancel` succeeds only on ids it holds.
pub proof fn lemma_cancel_after_finish(before: ActiveTasks, after: ActiveTasks, id: Seq<char>)
    requires
        after@ == before@.remove(id),
    ensures
        !after@.contains_key(id),
{
}

/// A failed transfer keeps a checkpoint at the bytes it last reported, under
/// the key that a retry of the same host, paths and direction looks up; a
/// run that finds that checkpoint resumes from exactly that count.
pub proof fn lemma_resume_round_trip(failed: TaskRun, rec: ResumeRecord, retry: TransferTask)
    requires
        is_checkpoint(rec, failed.task, failed.last_reported),
        retry.host_id == failed.task.host_id,
        retry.remote_path@ == failed.task.remote_path@,
        retry.local_path@ == failed.task.local_path@,
        retry.direction@ == failed.task.direction@,
    ensures
        rec.host_id == retry.host_id,
        rec.remote_path@ == retry.remote_path@,
        rec.local_path@ == retry.local_path@,
        rec.direction == retry.spec_direction(),
        resume_offset(Some(rec)) == failed.last_reported,
{
}

} // verus!
