//! Model of the streaming transfer: bytes move between the local file and the
//! remote file through a fixed-size buffer, one chunk at a time, each chunk
//! written in as many steps as the destination takes to accept it. A
//! destination that accepts zero bytes mid-stream is a stalled or broken
//! link, never end-of-file: the transfer fails rather than reporting success.
//!
//! `stream_copy` executes the copy on in-memory data against a destination
//! whose per-write acceptance is given; the asynchronous executor outside the
//! crate mirrors it step for step, using `write_progress` for the tally.

use vstd::prelude::*;

verus! {

/// Number of bytes moved per buffered chunk between the files.
pub const TRANSFER_BUF_LEN: usize = 256 * 1024;

/// A failed transfer, wrapping the underlying cause.
#[derive(Clone, Debug, PartialEq)]
pub enum TransferError {
    /// The destination accepted zero bytes in the middle of the stream.
    ZeroWrite,
    /// An open, read or write on either side failed, with its description.
    Io(String),
}

/// The diagnostic text of a transfer error.
pub open spec fn spec_message(e: TransferError) -> Seq<char> {
    match e {
        TransferError::ZeroWrite => "destination accepted zero bytes"@,
        TransferError::Io(m) => m@,
    }
}

impl TransferError {
    /// Renders the error for a job's diagnostic log.
    pub fn message(&self) -> (r: String)
        ensures
            r@ == spec_message(*self),
    {
        match self {
            TransferError::ZeroWrite => String::from_str("destination accepted zero bytes"),
            TransferError::Io(m) => m.clone(),
        }
    }
}

/// How many bytes the next write offers: the rest of the current buffered
/// chunk, or what is left of the source if that is shorter. Chunks are
/// `TRANSFER_BUF_LEN` wide, so a chunk ends at the next multiple of it.
pub open spec fn spec_offered(len: int, pos: int) -> int {
    let room = TRANSFER_BUF_LEN - pos % (TRANSFER_BUF_LEN as int);
    if room < len - pos {
        room
    } else {
        len - pos
    }
}

/// Whether the copy of `src` runs to completion, writing from `pos` on and
/// taking per-write acceptances from `accepts[j..]`. A write whose acceptance
/// is bounded below the offer advances by the acceptance; once `accepts` is
/// exhausted the destination accepts whole offers. Accepting zero bytes
/// mid-stream is the one failure.
pub open spec fn spec_copy_from(src: Seq<u8>, pos: int, accepts: Seq<usize>, j: int) -> Result<
    (),
    TransferError,
>
    decreases src.len() - pos,
{
    if pos < 0 || pos >= src.len() {
        Ok(())
    } else {
        let off = spec_offered(src.len() as int, pos);
        let acc = if 0 <= j < accepts.len() && (accepts[j] as int) < off {
            accepts[j] as int
        } else {
            off
        };
        if acc == 0 {
            Err(TransferError::ZeroWrite)
        } else {
            spec_copy_from(src, pos + acc, accepts, j + 1)
        }
    }
}

/// Tallies one write step of a chunk of `n` bytes, of which `written` are
/// already sent and the destination just accepted `nwritten`. Zero bytes
/// accepted mid-chunk is a fatal stall, not progress and not end-of-file.
pub fn write_progress(written: usize, n: usize, nwritten: usize) -> (r: Result<
    usize,
    TransferError,
>)
    requires
        written < n,
        nwritten <= n - written,
    ensures
        (r matches Ok(w) ==> w == written + nwritten && nwritten > 0),
        r is Err ==> r == Err::<usize, TransferError>(TransferError::ZeroWrite) && nwritten == 0,
{
    if nwritten == 0 {
        Err(TransferError::ZeroWrite)
    } else {
        Ok(written + nwritten)
    }
}

/// Runs the streaming copy on in-memory data: the destination receives the
/// source byte for byte, unless a write is accepted at zero length
/// mid-stream, which fails the transfer exactly as `spec_copy_from` says.
pub fn stream_copy(src: &Vec<u8>, accepts: &Vec<usize>) -> (r: Result<Vec<u8>, TransferError>)
    ensures
        (r matches Ok(dst) ==> dst@ == src@ && spec_copy_from(src@, 0, accepts@, 0) is Ok),
        (r matches Err(e) ==> spec_copy_from(src@, 0, accepts@, 0) == Err::<(), TransferError>(
            e,
        )),
{
    let mut out: Vec<u8> = Vec::new();
    let mut pos: usize = 0;
    let mut j: usize = 0;
    while pos < src.len()
        invariant_except_break
            pos <= src@.len(),
            j <= pos,
            out@ == src@.take(pos as int),
            spec_copy_from(src@, 0, accepts@, 0) == spec_copy_from(
                src@,
                pos as int,
                accepts@,
                j as int,
            ),
        ensures
            pos <= src@.len(),
            pos == src@.len() ==> out@ == src@.take(pos as int) && spec_copy_from(
                src@,
                0,
                accepts@,
                0,
            ) is Ok,
            pos < src@.len() ==> spec_copy_from(src@, 0, accepts@, 0) == Err::<
                (),
                TransferError,
            >(TransferError::ZeroWrite),
        decreases src@.len() - pos,
    {
        let room = TRANSFER_BUF_LEN - pos % TRANSFER_BUF_LEN;
        let rem = src.len() - pos;
        let offered = if room < rem {
            room
        } else {
            rem
        };
        let acc = if j < accepts.len() {
            let a = accepts[j];
            if a < offered {
                a
            } else {
                offered
            }
        } else {
            offered
        };
        if acc == 0 {
            break ;
        }
        let mut t: usize = 0;
        while t < acc
            invariant
                t <= acc,
                pos + acc <= src@.len(),
                src@.len() <= usize::MAX,
                out@ == src@.take(pos + t as int),
            decreases acc - t,
        {
            assert(pos + t < src@.len());
            out.push(src[pos + t]);
            proof {
                assert(out@ =~= src@.take(pos + (t + 1) as int));
            }
            t = t + 1;
        }
        pos = pos + acc;
        j = j + 1;
    }
    if pos < src.len() {
        return Err(TransferError::ZeroWrite);
    }
    proof {
        assert(out@ =~= src@);
    }
    Ok(out)
}

proof fn lemma_copy_err_has_zero(src: Seq<u8>, pos: int, accepts: Seq<usize>, j: int)
    ensures
        spec_copy_from(src, pos, accepts, j) is Err ==> exists|i: int|
            j <= i < accepts.len() && accepts[i] == 0,
    decreases src.len() - pos,
{
    if pos < 0 || pos >= src.len() {
    } else {
        let off = spec_offered(src.len() as int, pos);
        let acc = if 0 <= j < accepts.len() && (accepts[j] as int) < off {
            accepts[j] as int
        } else {
            off
        };
        if acc == 0 {
            assert(j <= j < accepts.len() && accepts[j] == 0);
        } else {
            lemma_copy_err_has_zero(src, pos + acc, accepts, j + 1);
        }
    }
}

/// Law: a transfer fails only on a zero-length acceptance, and a destination
/// that always accepts at least one byte sees the copy run to completion.
pub proof fn lemma_zero_write_faults(src: Seq<u8>, accepts: Seq<usize>)
    ensures
        spec_copy_from(src, 0, accepts, 0) is Err ==> exists|i: int|
            0 <= i < accepts.len() && accepts[i] == 0,
        (forall|i: int| 0 <= i < accepts.len() ==> accepts[i] > 0) ==> spec_copy_from(
            src,
            0,
            accepts,
            0,
        ) is Ok,
{
    lemma_copy_err_has_zero(src, 0, accepts, 0);
}

/// Law: a file uploaded and then downloaded back is byte-identical. Each
/// completed copy hands the destination exactly its source, so the composed
/// transfers return the original data.
pub proof fn lemma_transfer_round_trip(
    data: Seq<u8>,
    remote: Seq<u8>,
    back: Seq<u8>,
    up_accepts: Seq<usize>,
    down_accepts: Seq<usize>,
)
    requires
        spec_copy_from(data, 0, up_accepts, 0) is Ok,
        remote == data,
        spec_copy_from(remote, 0, down_accepts, 0) is Ok,
        back == remote,
    ensures
        back == data,
{
}

} // verus!
