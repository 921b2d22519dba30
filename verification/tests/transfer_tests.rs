use file_agent::transfer::{
    stream_copy, write_progress, TransferError, TRANSFER_BUF_LEN,
};

/// Deterministic pseudo-random bytes, enough to cross several buffer widths.
fn pseudo_random_bytes(len: usize) -> Vec<u8> {
    let mut state: u64 = 0x2545_F491_4F6C_DD1D;
    let mut out = Vec::with_capacity(len);
    for _ in 0..len {
        state = state.wrapping_mul(6364136223846793005).wrapping_add(1442695040888963407);
        out.push((state >> 56) as u8);
    }
    out
}

#[test]
fn upload_then_download_is_byte_identical() {
    // A file wider than one buffer, pushed up and pulled back.
    let data = pseudo_random_bytes(1024 * 1024);
    let remote = stream_copy(&data, &vec![]).expect("upload must complete");
    assert_eq!(remote, data);
    let back = stream_copy(&remote, &vec![]).expect("download must complete");
    assert_eq!(back, data);
}

#[test]
fn copy_of_exactly_one_buffer() {
    let data = pseudo_random_bytes(TRANSFER_BUF_LEN);
    let out = stream_copy(&data, &vec![]).unwrap();
    assert_eq!(out, data);
}

#[test]
fn copy_of_empty_source() {
    let out = stream_copy(&vec![], &vec![]).unwrap();
    assert!(out.is_empty());
}

#[test]
fn partial_writes_still_copy_everything() {
    let data = pseudo_random_bytes(10_000);
    // The destination takes at most 7 bytes per write, then whole offers.
    let accepts = vec![7; 1500];
    let out = stream_copy(&data, &accepts).expect("short writes are progress");
    assert_eq!(out, data);
}

#[test]
fn zero_write_mid_stream_is_an_error_not_success() {
    let data = pseudo_random_bytes(1024 * 1024);
    // The third write is accepted at zero length.
    let accepts = vec![100, 100, 0];
    let err = stream_copy(&data, &accepts).expect_err("a stalled destination must fail");
    assert_eq!(err, TransferError::ZeroWrite);
}

#[test]
fn zero_write_on_first_write_is_an_error() {
    let data = vec![1, 2, 3];
    let err = stream_copy(&data, &vec![0]).expect_err("a stalled destination must fail");
    assert_eq!(err, TransferError::ZeroWrite);
}

#[test]
fn zero_acceptance_after_the_end_is_harmless() {
    // The copy finishes before the zero entry is ever consulted.
    let data = vec![9; 10];
    let out = stream_copy(&data, &vec![10, 0]).unwrap();
    assert_eq!(out, data);
}

#[test]
fn write_progress_tallies_and_faults() {
    assert_eq!(write_progress(0, 10, 4), Ok(4));
    assert_eq!(write_progress(4, 10, 6), Ok(10));
    assert_eq!(write_progress(4, 10, 0), Err(TransferError::ZeroWrite));
}

#[test]
fn transfer_error_messages() {
    assert_eq!(TransferError::ZeroWrite.message(), "destination accepted zero bytes");
    assert_eq!(
        TransferError::Io("connection reset".to_string()).message(),
        "connection reset"
    );
}

#[test]
fn buffer_width_is_256_kib() {
    assert_eq!(TRANSFER_BUF_LEN, 256 * 1024);
}
