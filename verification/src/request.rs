//! The submission interface: the request shapes handed in by the transport
//! layer, and the construction of a job from one submission — a fresh
//! identifier, the given paths, the direction's label, status `INIT`.

use vstd::prelude::*;
use vstd::string::StringExecFns;
use crate::task::{direction_label, spec_direction_label, Direction, SftpTask};

verus! {

/// An upload submission: which local file to send, and where to put it.
#[derive(Clone, Debug, PartialEq)]
pub struct UploadRequest {
    pub local_path: String,
    pub remote_path: String,
}

/// A transfer submission against the remote file server.
#[derive(Clone, Debug, PartialEq)]
pub struct SftpFileRequest {
    pub local_path: String,
    pub remote_path: String,
}

/// A request about a file on the local filesystem.
#[derive(Clone, Debug, PartialEq)]
pub struct LocalFileRequest {
    pub local_path: String,
}

/// Relies on `uuid::Uuid::new_v4` and its display form: a fresh random
/// version-4 identifier rendered as the 36-character hyphenated string.
#[verifier::external_body]
fn new_job_id() -> (r: String)
    ensures
        r@.len() == 36,
{
    uuid::Uuid::new_v4().to_string()
}

/// Builds the job for one submission: a fresh 36-character identifier (the
/// client-facing handle), the given paths, the direction's label, status
/// `INIT` and an empty diagnostic log.
pub fn prepare_submission(direction: Direction, remote_path: String, local_path: String) -> (t:
    SftpTask)
    ensures
        t@.seq_no.len() == 36,
        t@.remote_path == remote_path@,
        t@.local_path == local_path@,
        t@.task_type == spec_direction_label(direction),
        t@.task_status == "INIT"@,
        t@.detail_log.len() == 0,
{
    let id = new_job_id();
    SftpTask::new_task(id, remote_path, local_path, direction_label(direction))
}

/// The JSON body reporting one boolean outcome of a local-file operation,
/// such as whether a file exists or was deleted.
pub fn bool_json_body(field: &str, value: bool) -> (r: String)
    ensures
        r@ == "{\""@ + field@ + "\": \""@ + (if value {
            "true"@
        } else {
            "false"@
        }) + "\"}"@,
{
    let mut s = String::from_str("{\"");
    s.append(field);
    s.append("\": \"");
    if value {
        s.append("true");
    } else {
        s.append("false");
    }
    s.append("\"}");
    proof {
        assert(s@ =~= "{\""@ + field@ + "\": \""@ + (if value {
            "true"@
        } else {
            "false"@
        }) + "\"}"@);
    }
    s
}

} // verus!
