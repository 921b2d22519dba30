use file_agent::codec::{decode_record, encode_record, ValueWithTtl};
use file_agent::task::SftpTask;

fn sample_task() -> SftpTask {
    SftpTask {
        seq_no: "job-123".to_string(),
        remote_path: "/remote/data.bin".to_string(),
        local_path: "/tmp/data.bin".to_string(),
        task_type: "UPLOAD".to_string(),
        task_status: "SUCCESS".to_string(),
        detail_log: String::new(),
    }
}

#[test]
fn encode_decode_round_trip() {
    let record = ValueWithTtl { expires_at: 1_700_000_000, data: sample_task() };
    let bytes = encode_record(&record);
    let back = decode_record(&bytes).expect("an encoded record must decode");
    assert_eq!(back, record);
}

#[test]
fn encode_decode_round_trip_unicode_fields() {
    let task = SftpTask {
        seq_no: "序列号".to_string(),
        remote_path: "/远程/路径".to_string(),
        local_path: "/tmp/ünïcode".to_string(),
        task_type: "DOWNLOAD".to_string(),
        task_status: "FAILED".to_string(),
        detail_log: "上传失败: broken pipe".to_string(),
    };
    let record = ValueWithTtl { expires_at: u64::MAX, data: task };
    let bytes = encode_record(&record);
    let back = decode_record(&bytes).expect("an encoded record must decode");
    assert_eq!(back, record);
}

#[test]
fn encode_starts_with_little_endian_expiry() {
    let record = ValueWithTtl { expires_at: 0x0102_0304_0506_0708, data: sample_task() };
    let bytes = encode_record(&record);
    assert_eq!(&bytes[..8], &[0x08, 0x07, 0x06, 0x05, 0x04, 0x03, 0x02, 0x01]);
}

#[test]
fn decode_rejects_garbage() {
    assert!(decode_record(&vec![]).is_none());
    assert!(decode_record(&vec![1, 2, 3]).is_none());
    assert!(decode_record(&vec![0xff; 64]).is_none());
}

#[test]
fn decode_rejects_truncated_record() {
    let record = ValueWithTtl { expires_at: 42, data: sample_task() };
    let mut bytes = encode_record(&record);
    bytes.pop();
    assert!(decode_record(&bytes).is_none());
}

#[test]
fn decode_rejects_trailing_bytes() {
    let record = ValueWithTtl { expires_at: 42, data: sample_task() };
    let mut bytes = encode_record(&record);
    bytes.push(0);
    assert!(decode_record(&bytes).is_none());
}

#[test]
fn decode_rejects_invalid_utf8_field() {
    let record = ValueWithTtl { expires_at: 42, data: sample_task() };
    let mut bytes = encode_record(&record);
    // The first string field starts after the expiry; its bytes start at
    // offset 16. 0xff is never valid UTF-8.
    bytes[16] = 0xff;
    assert!(decode_record(&bytes).is_none());
}
