//! The job data model and the worker's state machine: one submitted transfer
//! request goes from submission (status `INIT`) to exactly one terminal
//! status (`SUCCESS` or `FAILED`), set by the single worker that processed
//! it, with the diagnostic log empty unless the job failed.

use vstd::prelude::*;

verus! {

/// The direction of one transfer.
#[derive(Clone, Copy, Debug, PartialEq, Eq)]
pub enum Direction {
    Upload,
    Download,
}

/// The label a job carries for its direction.
pub open spec fn spec_direction_label(d: Direction) -> Seq<char> {
    match d {
        Direction::Upload => "UPLOAD"@,
        Direction::Download => "DOWNLOAD"@,
    }
}

/// Renders a direction as the label stored in the job.
pub fn direction_label(d: Direction) -> (r: String)
    ensures
        r@ == spec_direction_label(d),
{
    match d {
        Direction::Upload => String::from_str("UPLOAD"),
        Direction::Download => String::from_str("DOWNLOAD"),
    }
}

/// A status a worker may leave a job in: either outcome, never `INIT`.
pub open spec fn spec_is_terminal(status: Seq<char>) -> bool {
    status == "SUCCESS"@ || status == "FAILED"@
}

/// One transfer request. `seq_no` is the client-facing handle and the record
/// store key; `task_status` starts as `INIT` and is set exactly once, by the
/// worker that processed the job, to a terminal value; `detail_log` stays
/// empty unless the job failed.
#[derive(Clone, Debug, PartialEq)]
pub struct SftpTask {
    pub seq_no: String,
    pub remote_path: String,
    pub local_path: String,
    pub task_type: String,
    pub task_status: String,
    pub detail_log: String,
}

/// Mathematical image of a task: each field as its character sequence.
pub ghost struct SpecTask {
    pub seq_no: Seq<char>,
    pub remote_path: Seq<char>,
    pub local_path: Seq<char>,
    pub task_type: Seq<char>,
    pub task_status: Seq<char>,
    pub detail_log: Seq<char>,
}

impl View for SftpTask {
    type V = SpecTask;

    open spec fn view(&self) -> SpecTask {
        SpecTask {
            seq_no: self.seq_no@,
            remote_path: self.remote_path@,
            local_path: self.local_path@,
            task_type: self.task_type@,
            task_status: self.task_status@,
            detail_log: self.detail_log@,
        }
    }
}

impl SftpTask {
    /// A freshly submitted task: the given identity and paths, status `INIT`,
    /// no diagnostic text.
    pub fn new_task(
        seq_no: String,
        remote_path: String,
        local_path: String,
        task_type: String,
    ) -> (t: SftpTask)
        ensures
            t@.seq_no == seq_no@,
            t@.remote_path == remote_path@,
            t@.local_path == local_path@,
            t@.task_type == task_type@,
            t@.task_status == "INIT"@,
            t@.detail_log.len() == 0,
    {
        SftpTask {
            seq_no,
            remote_path,
            local_path,
            task_type,
            task_status: String::from_str("INIT"),
            detail_log: String::new(),
        }
    }

    /// An identical copy of the task.
    pub fn clone_task(&self) -> (t: SftpTask)
        ensures
            t@ == self@,
    {
        SftpTask {
            seq_no: self.seq_no.clone(),
            remote_path: self.remote_path.clone(),
            local_path: self.local_path.clone(),
            task_type: self.task_type.clone(),
            task_status: self.task_status.clone(),
            detail_log: self.detail_log.clone(),
        }
    }

    /// The direction a task's label denotes, or nothing for a label that is
    /// neither direction.
    pub fn direction(&self) -> (r: Option<Direction>)
        ensures
            (r matches Some(d) ==> self@.task_type == spec_direction_label(d)),
            r is None ==> self@.task_type != "UPLOAD"@ && self@.task_type != "DOWNLOAD"@,
    {
        let upload = String::from_str("UPLOAD");
        let download = String::from_str("DOWNLOAD");
        if self.task_type == upload {
            Some(Direction::Upload)
        } else if self.task_type == download {
            Some(Direction::Download)
        } else {
            None
        }
    }
}

/// What the worker that dequeued a job observed while executing it.
#[derive(Clone, Debug, PartialEq)]
pub enum JobOutcome {
    /// No session backed the granted permit: the pool is degenerate.
    NoSession,
    /// The transfer ran to completion.
    Done,
    /// The transfer failed, with the cause's description.
    TransferFailed(String),
}

/// The terminal job a worker persists: the observed outcome decides the
/// status exactly once, the job's identity and paths are untouched, and the
/// diagnostic log carries the cause exactly where the job failed.
pub fn finish_task(task: SftpTask, outcome: &JobOutcome) -> (r: SftpTask)
    ensures
        r@.seq_no == task@.seq_no,
        r@.remote_path == task@.remote_path,
        r@.local_path == task@.local_path,
        r@.task_type == task@.task_type,
        spec_is_terminal(r@.task_status),
        outcome is Done ==> r@.task_status == "SUCCESS"@ && r@.detail_log == task@.detail_log,
        outcome is NoSession ==> r@.task_status == "FAILED"@ && r@.detail_log
            == "no session available"@,
        (outcome matches JobOutcome::TransferFailed(m) ==> r@.task_status == "FAILED"@
            && r@.detail_log == m@),
{
    let mut task = task;
    match outcome {
        JobOutcome::Done => {
            task.task_status = String::from_str("SUCCESS");
        },
        JobOutcome::NoSession => {
            task.task_status = String::from_str("FAILED");
            task.detail_log = String::from_str("no session available");
        },
        JobOutcome::TransferFailed(m) => {
            task.task_status = String::from_str("FAILED");
            task.detail_log = m.clone();
        },
    }
    task
}

/// Law: a worker's terminal status is never the submission status — a
/// processed job cannot read as freshly submitted again.
pub proof fn lemma_terminal_not_init(status: Seq<char>)
    requires
        spec_is_terminal(status),
    ensures
        status != "INIT"@,
{
    reveal_strlit("SUCCESS");
    reveal_strlit("FAILED");
    reveal_strlit("INIT");
    assert("SUCCESS"@.len() == 7);
    assert("FAILED"@.len() == 6);
    assert("INIT"@.len() == 4);
}

} // verus!
