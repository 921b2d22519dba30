//! The wire format of the record store: a stored value is the envelope
//! `{expires_at, task}` laid out as the eight little-endian bytes of
//! `expires_at` followed by each task field in order, a field being the eight
//! little-endian bytes of its UTF-8 length and then its UTF-8 bytes.
//!
//! Encoding and decoding are verified against the same specification-level
//! format, and decoding an encoded envelope is proved to give back the
//! original value field for field.

use vstd::prelude::*;
use vstd::bytes::{
    lemma_auto_spec_u64_to_from_le_bytes, spec_u64_from_le_bytes, spec_u64_to_le_bytes,
    u64_from_le_bytes, u64_to_le_bytes,
};
use vstd::slice::{slice_subrange, slice_to_vec};
use vstd::utf8::{
    decode_utf8, encode_utf8, encode_utf8_decode_utf8, encode_utf8_valid_utf8, valid_utf8,
};
use crate::task::{SftpTask, SpecTask};

verus! {

/// Envelope persisted in the record store: the wrapped job together with the
/// absolute time (in seconds since the epoch) at which it expires.
#[derive(Clone, Debug, PartialEq)]
pub struct ValueWithTtl {
    pub expires_at: u64,
    pub data: SftpTask,
}

/// Mathematical image of an envelope.
pub ghost struct SpecRecord {
    pub expires_at: u64,
    pub data: SpecTask,
}

impl View for ValueWithTtl {
    type V = SpecRecord;

    open spec fn view(&self) -> SpecRecord {
        SpecRecord { expires_at: self.expires_at, data: self.data@ }
    }
}

/// A string whose UTF-8 byte length can be carried by the 64-bit prefix.
/// Every executable `String` satisfies this; it only excludes spec-level
/// sequences too long to frame.
pub open spec fn field_fits(s: Seq<char>) -> bool {
    encode_utf8(s).len() < 0x1_0000_0000_0000_0000
}

pub open spec fn spec_record_fits(r: SpecRecord) -> bool {
    &&& field_fits(r.data.seq_no)
    &&& field_fits(r.data.remote_path)
    &&& field_fits(r.data.local_path)
    &&& field_fits(r.data.task_type)
    &&& field_fits(r.data.task_status)
    &&& field_fits(r.data.detail_log)
}

/// One string field on the wire: its UTF-8 byte length as eight little-endian
/// bytes, then the bytes themselves.
pub open spec fn spec_encode_str(s: Seq<char>) -> Seq<u8> {
    spec_u64_to_le_bytes(encode_utf8(s).len() as u64) + encode_utf8(s)
}

/// The whole envelope on the wire.
pub open spec fn spec_encode(r: SpecRecord) -> Seq<u8> {
    spec_u64_to_le_bytes(r.expires_at) + spec_encode_str(r.data.seq_no) + spec_encode_str(
        r.data.remote_path,
    ) + spec_encode_str(r.data.local_path) + spec_encode_str(r.data.task_type) + spec_encode_str(
        r.data.task_status,
    ) + spec_encode_str(r.data.detail_log)
}

/// Reading eight bytes at `pos` as a little-endian 64-bit value.
pub open spec fn spec_read_u64(b: Seq<u8>, pos: int) -> Option<(u64, int)> {
    if 0 <= pos && pos + 8 <= b.len() {
        Some((spec_u64_from_le_bytes(b.subrange(pos, pos + 8)), pos + 8))
    } else {
        None
    }
}

/// Reading one length-prefixed UTF-8 string field at `pos`.
pub open spec fn spec_read_str(b: Seq<u8>, pos: int) -> Option<(Seq<char>, int)> {
    match spec_read_u64(b, pos) {
        None => None,
        Some((n, p)) => {
            if p + n <= b.len() && valid_utf8(b.subrange(p, p + n)) {
                Some((decode_utf8(b.subrange(p, p + n)), p + n))
            } else {
                None
            }
        },
    }
}

/// The decoded envelope, or `None` where the bytes do not spell one exactly.
pub open spec fn spec_decode(b: Seq<u8>) -> Option<SpecRecord> {
    match spec_read_u64(b, 0) {
        None => None,
        Some((expires_at, p1)) => match spec_read_str(b, p1) {
            None => None,
            Some((seq_no, p2)) => match spec_read_str(b, p2) {
                None => None,
                Some((remote_path, p3)) => match spec_read_str(b, p3) {
                    None => None,
                    Some((local_path, p4)) => match spec_read_str(b, p4) {
                        None => None,
                        Some((task_type, p5)) => match spec_read_str(b, p5) {
                            None => None,
                            Some((task_status, p6)) => match spec_read_str(b, p6) {
                                None => None,
                                Some((detail_log, p7)) => {
                                    if p7 == b.len() {
                                        Some(
                                            SpecRecord {
                                                expires_at,
                                                data: SpecTask {
                                                    seq_no,
                                                    remote_path,
                                                    local_path,
                                                    task_type,
                                                    task_status,
                                                    detail_log,
                                                },
                                            },
                                        )
                                    } else {
                                        None
                                    }
                                },
                            },
                        },
                    },
                },
            },
        },
    }
}

fn push_all(out: &mut Vec<u8>, src: &[u8])
    ensures
        final(out)@ == old(out)@ + src@,
{
    let mut i: usize = 0;
    while i < src.len()
        invariant
            i <= src@.len(),
            out@ == old(out)@ + src@.subrange(0, i as int),
        decreases src@.len() - i,
    {
        out.push(src[i]);
        assert(out@ =~= old(out)@ + src@.subrange(0, i + 1 as int));
        i = i + 1;
    }
    assert(out@ =~= old(out)@ + src@);
}

fn append_str_field(out: &mut Vec<u8>, s: &String)
    ensures
        final(out)@ == old(out)@ + spec_encode_str(s@),
        field_fits(s@),
{
    let bytes = s.as_str().as_bytes_vec();
    let len_prefix = u64_to_le_bytes(bytes.len() as u64);
    push_all(out, len_prefix.as_slice());
    push_all(out, bytes.as_slice());
    assert(out@ =~= old(out)@ + spec_encode_str(s@));
}

/// Serializes an envelope in the record store's wire format.
pub fn encode_record(v: &ValueWithTtl) -> (r: Vec<u8>)
    ensures
        r@ == spec_encode(v@),
        spec_record_fits(v@),
{
    let mut out = u64_to_le_bytes(v.expires_at);
    append_str_field(&mut out, &v.data.seq_no);
    append_str_field(&mut out, &v.data.remote_path);
    append_str_field(&mut out, &v.data.local_path);
    append_str_field(&mut out, &v.data.task_type);
    append_str_field(&mut out, &v.data.task_status);
    append_str_field(&mut out, &v.data.detail_log);
    assert(out@ =~= spec_encode(v@));
    out
}

/// Relies on `String::from_utf8`: it succeeds exactly on valid UTF-8 input,
/// and then returns the string those bytes spell.
#[verifier::external_body]
fn bytes_to_string(b: Vec<u8>) -> (r: Option<String>)
    ensures
        r is Some <==> valid_utf8(b@),
        r matches Some(s) ==> s@ == decode_utf8(b@),
{
    String::from_utf8(b).ok()
}

fn read_u64_at(b: &Vec<u8>, pos: usize) -> (r: Option<(u64, usize)>)
    requires
        pos <= b@.len(),
    ensures
        (r matches Some((x, p)) ==> spec_read_u64(b@, pos as int) == Some((x, p as int)) && p
            <= b@.len()),
        r is None ==> spec_read_u64(b@, pos as int) is None,
{
    if b.len() - pos >= 8 {
        let s = slice_subrange(b.as_slice(), pos, pos + 8);
        let x = u64_from_le_bytes(s);
        Some((x, pos + 8))
    } else {
        None
    }
}

fn read_str_at(b: &Vec<u8>, pos: usize) -> (r: Option<(String, usize)>)
    requires
        pos <= b@.len(),
    ensures
        (r matches Some((s, p)) ==> spec_read_str(b@, pos as int) == Some((s@, p as int)) && p
            <= b@.len()),
        r is None ==> spec_read_str(b@, pos as int) is None,
{
    match read_u64_at(b, pos) {
        None => None,
        Some((n, p)) => {
            if n <= (b.len() - p) as u64 {
                let n_us = n as usize;
                let chunk = slice_to_vec(slice_subrange(b.as_slice(), p, p + n_us));
                match bytes_to_string(chunk) {
                    Some(s) => Some((s, p + n_us)),
                    None => None,
                }
            } else {
                None
            }
        },
    }
}

/// Deserializes an envelope, returning `None` where the bytes are not exactly
/// one envelope in the wire format.
pub fn decode_record(b: &Vec<u8>) -> (r: Option<ValueWithTtl>)
    ensures
        r is Some <==> spec_decode(b@) is Some,
        r matches Some(v) ==> spec_decode(b@) == Some(v@),
{
    let (expires_at, pos) = match read_u64_at(b, 0) {
        Some(x) => x,
        None => {
            return None;
        },
    };
    let (seq_no, pos) = match read_str_at(b, pos) {
        Some(x) => x,
        None => {
            return None;
        },
    };
    let (remote_path, pos) = match read_str_at(b, pos) {
        Some(x) => x,
        None => {
            return None;
        },
    };
    let (local_path, pos) = match read_str_at(b, pos) {
        Some(x) => x,
        None => {
            return None;
        },
    };
    let (task_type, pos) = match read_str_at(b, pos) {
        Some(x) => x,
        None => {
            return None;
        },
    };
    let (task_status, pos) = match read_str_at(b, pos) {
        Some(x) => x,
        None => {
            return None;
        },
    };
    let (detail_log, pos) = match read_str_at(b, pos) {
        Some(x) => x,
        None => {
            return None;
        },
    };
    if pos != b.len() {
        return None;
    }
    Some(
        ValueWithTtl {
            expires_at,
            data: SftpTask { seq_no, remote_path, local_path, task_type, task_status, detail_log },
        },
    )
}

proof fn lemma_split_suffix(b: Seq<u8>, pos: int, f: Seq<u8>, rest: Seq<u8>)
    requires
        0 <= pos <= b.len(),
        b.subrange(pos, b.len() as int) == f + rest,
    ensures
        pos + f.len() <= b.len(),
        b.subrange(pos, pos + f.len()) =~= f,
        b.subrange(pos + f.len(), b.len() as int) =~= rest,
{
    assert((f + rest).len() == b.len() - pos);
    assert forall|i: int| 0 <= i < f.len() implies b.subrange(pos, pos + f.len())[i] == f[i] by {
        assert(b.subrange(pos, b.len() as int)[i] == (f + rest)[i]);
    }
    assert forall|i: int| 0 <= i < rest.len() implies b.subrange(
        pos + f.len(),
        b.len() as int,
    )[i] == rest[i] by {
        assert(b.subrange(pos, b.len() as int)[f.len() + i] == (f + rest)[f.len() + i]);
        assert(b.subrange(pos, b.len() as int)[f.len() + i] == b[pos + f.len() + i]);
        assert(b.subrange(pos + f.len(), b.len() as int)[i] == b[pos + f.len() + i]);
    }
}

proof fn lemma_read_str_of_encoding(b: Seq<u8>, pos: int, s: Seq<char>, rest: Seq<u8>)
    requires
        field_fits(s),
        0 <= pos <= b.len(),
        b.subrange(pos, b.len() as int) == spec_encode_str(s) + rest,
    ensures
        pos + spec_encode_str(s).len() <= b.len(),
        spec_read_str(b, pos) == Some((s, pos + spec_encode_str(s).len())),
        b.subrange(pos + spec_encode_str(s).len(), b.len() as int) =~= rest,
{
    lemma_auto_spec_u64_to_from_le_bytes();
    broadcast use encode_utf8_valid_utf8, encode_utf8_decode_utf8;

    let n = encode_utf8(s).len() as u64;
    let prefix = spec_u64_to_le_bytes(n);
    let payload = encode_utf8(s);
    lemma_split_suffix(b, pos, spec_encode_str(s), rest);
    assert(spec_encode_str(s) == prefix + payload);
    assert((prefix + payload) + rest =~= prefix + (payload + rest));
    lemma_split_suffix(b, pos, prefix, payload + rest);
    assert(b.subrange(pos, pos + 8) =~= prefix);
    assert(spec_u64_from_le_bytes(prefix) == n);
    assert(spec_read_u64(b, pos) == Some((n, pos + 8)));
    let p = pos + 8;
    lemma_split_suffix(b, p, payload, rest);
    assert(b.subrange(p, p + payload.len()) =~= payload);
    assert(n as int == payload.len());
    assert(valid_utf8(payload));
    assert(decode_utf8(payload) == s);
}

/// Law: decoding an encoded envelope gives back the original, field for field.
pub proof fn lemma_encode_then_decode(v: SpecRecord)
    requires
        spec_record_fits(v),
    ensures
        spec_decode(spec_encode(v)) == Some(v),
{
    lemma_auto_spec_u64_to_from_le_bytes();
    let b = spec_encode(v);
    let f1 = spec_encode_str(v.data.seq_no);
    let f2 = spec_encode_str(v.data.remote_path);
    let f3 = spec_encode_str(v.data.local_path);
    let f4 = spec_encode_str(v.data.task_type);
    let f5 = spec_encode_str(v.data.task_status);
    let f6 = spec_encode_str(v.data.detail_log);
    let head = spec_u64_to_le_bytes(v.expires_at);
    assert(b.subrange(0, b.len() as int) =~= head + (f1 + (f2 + (f3 + (f4 + (f5 + f6))))));
    lemma_split_suffix(b, 0, head, f1 + (f2 + (f3 + (f4 + (f5 + f6)))));
    assert(spec_read_u64(b, 0) == Some((v.expires_at, 8int)));
    let p1 = 8int;
    lemma_read_str_of_encoding(b, p1, v.data.seq_no, f2 + (f3 + (f4 + (f5 + f6))));
    let p2 = p1 + f1.len();
    lemma_read_str_of_encoding(b, p2, v.data.remote_path, f3 + (f4 + (f5 + f6)));
    let p3 = p2 + f2.len();
    lemma_read_str_of_encoding(b, p3, v.data.local_path, f4 + (f5 + f6));
    let p4 = p3 + f3.len();
    lemma_read_str_of_encoding(b, p4, v.data.task_type, f5 + f6);
    let p5 = p4 + f4.len();
    lemma_read_str_of_encoding(b, p5, v.data.task_status, f6);
    let p6 = p5 + f5.len();
    lemma_read_str_of_encoding(b, p6, v.data.detail_log, Seq::empty());
    let p7 = p6 + f6.len();
    assert(b.subrange(p7, b.len() as int) =~= Seq::<u8>::empty());
    assert(p7 == b.len());
}

} // verus!
