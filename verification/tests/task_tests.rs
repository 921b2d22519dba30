use file_agent::request::{bool_json_body, prepare_submission};
use file_agent::task::{finish_task, Direction, JobOutcome, SftpTask};

#[test]
fn new_task_starts_in_init_with_empty_log() {
    let t = SftpTask::new_task(
        "seq-9".to_string(),
        "/r".to_string(),
        "/l".to_string(),
        "UPLOAD".to_string(),
    );
    assert_eq!(t.seq_no, "seq-9");
    assert_eq!(t.remote_path, "/r");
    assert_eq!(t.local_path, "/l");
    assert_eq!(t.task_type, "UPLOAD");
    assert_eq!(t.task_status, "INIT");
    assert_eq!(t.detail_log, "");
}

fn fresh_task() -> SftpTask {
    SftpTask::new_task(
        "seq-1".to_string(),
        "/remote".to_string(),
        "/local".to_string(),
        "DOWNLOAD".to_string(),
    )
}

#[test]
fn finished_job_on_success() {
    let done = finish_task(fresh_task(), &JobOutcome::Done);
    assert_eq!(done.task_status, "SUCCESS");
    assert_eq!(done.detail_log, "");
    assert_eq!(done.seq_no, "seq-1");
    assert_eq!(done.remote_path, "/remote");
    assert_eq!(done.local_path, "/local");
    assert_eq!(done.task_type, "DOWNLOAD");
}

#[test]
fn finished_job_without_a_session() {
    let done = finish_task(fresh_task(), &JobOutcome::NoSession);
    assert_eq!(done.task_status, "FAILED");
    assert_eq!(done.detail_log, "no session available");
    assert_eq!(done.seq_no, "seq-1");
}

#[test]
fn finished_job_on_transfer_failure() {
    let outcome = JobOutcome::TransferFailed("destination accepted zero bytes".to_string());
    let done = finish_task(fresh_task(), &outcome);
    assert_eq!(done.task_status, "FAILED");
    assert_eq!(done.detail_log, "destination accepted zero bytes");
}

#[test]
fn task_direction_parses_its_label() {
    let mut t = fresh_task();
    assert_eq!(t.direction(), Some(Direction::Download));
    t.task_type = "UPLOAD".to_string();
    assert_eq!(t.direction(), Some(Direction::Upload));
    t.task_type = "SIDEWAYS".to_string();
    assert_eq!(t.direction(), None);
}

#[test]
fn submission_builds_an_init_job_with_a_fresh_id() {
    let t = prepare_submission(Direction::Upload, "/r".to_string(), "/l".to_string());
    assert_eq!(t.seq_no.len(), 36);
    assert_eq!(t.remote_path, "/r");
    assert_eq!(t.local_path, "/l");
    assert_eq!(t.task_type, "UPLOAD");
    assert_eq!(t.task_status, "INIT");
    assert_eq!(t.detail_log, "");
    let u = prepare_submission(Direction::Download, "/r".to_string(), "/l".to_string());
    assert_eq!(u.task_type, "DOWNLOAD");
    assert_ne!(t.seq_no, u.seq_no);
}

#[test]
fn boolean_response_bodies() {
    assert_eq!(bool_json_body("is_exist", true), "{\"is_exist\": \"true\"}");
    assert_eq!(bool_json_body("is_delete", false), "{\"is_delete\": \"false\"}");
}
