//! The record's fixed serialized layout — part of the persisted
//! contract: poster (32 bytes), worker (32 bytes), task identifier
//! (4-byte little-endian length prefix, then the bytes), amount (8-byte
//! little-endian), status (1 byte), creation timestamp (8-byte signed,
//! two's complement little-endian), then the three optional timestamps
//! (1-byte presence flag and 8 bytes each), and the derivation nonce
//! (1 byte).

use vstd::prelude::*;
use vstd::bytes::{
    lemma_auto_spec_u32_to_from_le_bytes, lemma_auto_spec_u64_to_from_le_bytes,
    spec_u32_from_le_bytes, spec_u32_to_le_bytes, spec_u64_from_le_bytes, spec_u64_to_le_bytes,
    u32_from_le_bytes, u32_to_le_bytes, u64_from_le_bytes, u64_to_le_bytes,
};
use crate::record::{copy_range, AccountId, EscrowStatus, RecordView, TaskEscrow, MAX_TASK_ID_LEN};

verus! {

/// The bits of a signed 64-bit value, read as unsigned: two's
/// complement.
pub open spec fn i64_as_u64(x: i64) -> u64 {
    if x >= 0 {
        x as u64
    } else {
        (x + 0x10000000000000000) as u64
    }
}

/// The signed reading of 64 unsigned bits: the inverse of
/// `i64_as_u64`.
pub open spec fn u64_as_i64(u: u64) -> i64 {
    if u < 0x8000000000000000 {
        u as i64
    } else {
        (u - 0x10000000000000000) as i64
    }
}

/// Reading the bits of a signed value back as signed reproduces it.
pub proof fn lemma_i64_bits_round(x: i64)
    ensures
        u64_as_i64(i64_as_u64(x)) == x,
{
}

/// The one-byte tag of a status.
pub open spec fn status_tag(s: EscrowStatus) -> u8 {
    match s {
        EscrowStatus::Created => 0,
        EscrowStatus::Funded => 1,
        EscrowStatus::Released => 2,
        EscrowStatus::Cancelled => 3,
    }
}

/// The status a one-byte tag stands for, if any.
pub open spec fn tag_status(t: u8) -> Option<EscrowStatus> {
    if t == 0 {
        Some(EscrowStatus::Created)
    } else if t == 1 {
        Some(EscrowStatus::Funded)
    } else if t == 2 {
        Some(EscrowStatus::Released)
    } else if t == 3 {
        Some(EscrowStatus::Cancelled)
    } else {
        None
    }
}

/// An optional timestamp's nine bytes: a presence flag, then the
/// timestamp's bits, with an absent timestamp padded by zero bytes.
pub open spec fn spec_opt_ts(o: Option<i64>) -> Seq<u8> {
    match o {
        Some(t) => seq![1u8] + spec_u64_to_le_bytes(i64_as_u64(t)),
        None => seq![0u8] + spec_u64_to_le_bytes(0u64),
    }
}

/// The optional timestamp nine bytes stand for, or `None` when they are
/// not a well-formed encoding.
pub open spec fn spec_parse_opt(s: Seq<u8>) -> Option<Option<i64>>
    recommends
        s.len() == 9,
{
    if s[0] == 1u8 {
        Some(Some(u64_as_i64(spec_u64_from_le_bytes(s.subrange(1, 9)))))
    } else if s[0] == 0u8 && s.subrange(1, 9) == spec_u64_to_le_bytes(0u64) {
        Some(None)
    } else {
        None
    }
}

/// The serialized form of a record value.
pub open spec fn spec_serialize(v: RecordView) -> Seq<u8> {
    v.poster + v.worker + spec_u32_to_le_bytes(v.task_id.len() as u32) + v.task_id
        + spec_u64_to_le_bytes(v.amount) + seq![status_tag(v.status)] + spec_u64_to_le_bytes(
        i64_as_u64(v.created_at),
    ) + spec_opt_ts(v.funded_at) + spec_opt_ts(v.released_at) + spec_opt_ts(v.cancelled_at)
        + seq![v.bump]
}

/// The record value a byte string stands for: `None` unless the bytes
/// are exactly the serialized form of one well-formed record.
pub open spec fn spec_deserialize(b: Seq<u8>) -> Option<RecordView> {
    if b.len() < 113 {
        None
    } else {
        let n = spec_u32_from_le_bytes(b.subrange(64, 68)) as int;
        if n > MAX_TASK_ID_LEN || b.len() != 113 + n {
            None
        } else {
            let o = 68 + n;
            match (
                tag_status(b[o + 8]),
                spec_parse_opt(b.subrange(o + 17, o + 26)),
                spec_parse_opt(b.subrange(o + 26, o + 35)),
                spec_parse_opt(b.subrange(o + 35, o + 44)),
            ) {
                (Some(st), Some(f), Some(rel), Some(c)) => {
                    let v = RecordView {
                        poster: b.subrange(0, 32),
                        worker: b.subrange(32, 64),
                        task_id: b.subrange(68, o),
                        amount: spec_u64_from_le_bytes(b.subrange(o, o + 8)),
                        status: st,
                        created_at: u64_as_i64(spec_u64_from_le_bytes(b.subrange(o + 9, o + 17))),
                        funded_at: f,
                        released_at: rel,
                        cancelled_at: c,
                        bump: b[b.len() - 1],
                    };
                    if v.wf() {
                        Some(v)
                    } else {
                        None
                    }
                },
                _ => None,
            }
        }
    }
}

/// Deserializing what was serialized reproduces every field exactly,
/// absent optional timestamps included.
pub proof fn lemma_serialize_round_trip(v: RecordView)
    requires
        v.wf(),
    ensures
        spec_deserialize(spec_serialize(v)) == Some(v),
{
    lemma_auto_spec_u32_to_from_le_bytes();
    lemma_auto_spec_u64_to_from_le_bytes();
    let b = spec_serialize(v);
    let n = v.task_id.len() as int;
    assert(spec_opt_ts(v.funded_at).len() == 9);
    assert(spec_opt_ts(v.released_at).len() == 9);
    assert(spec_opt_ts(v.cancelled_at).len() == 9);
    assert(b.len() == 113 + n);
    let o = 68 + n;
    assert(b.subrange(64, 68) =~= spec_u32_to_le_bytes(v.task_id.len() as u32));
    assert(spec_u32_from_le_bytes(b.subrange(64, 68)) as int == n);
    assert(b.subrange(0, 32) =~= v.poster);
    assert(b.subrange(32, 64) =~= v.worker);
    assert(b.subrange(68, o) =~= v.task_id);
    assert(b.subrange(o, o + 8) =~= spec_u64_to_le_bytes(v.amount));
    assert(b[o + 8] == status_tag(v.status));
    assert(b.subrange(o + 9, o + 17) =~= spec_u64_to_le_bytes(i64_as_u64(v.created_at)));
    assert(b.subrange(o + 17, o + 26) =~= spec_opt_ts(v.funded_at));
    assert(b.subrange(o + 26, o + 35) =~= spec_opt_ts(v.released_at));
    assert(b.subrange(o + 35, o + 44) =~= spec_opt_ts(v.cancelled_at));
    assert(b[b.len() - 1] == v.bump);
    assert(tag_status(status_tag(v.status)) == Some(v.status));
    lemma_parse_opt_round(v.funded_at);
    lemma_parse_opt_round(v.released_at);
    lemma_parse_opt_round(v.cancelled_at);
    lemma_i64_bits_round(v.created_at);
}

/// Parsing an optional timestamp's encoding gives the timestamp back.
proof fn lemma_parse_opt_round(o: Option<i64>)
    ensures
        spec_parse_opt(spec_opt_ts(o)) == Some(o),
{
    lemma_auto_spec_u64_to_from_le_bytes();
    let s = spec_opt_ts(o);
    match o {
        Some(t) => {
            assert(s[0] == 1u8);
            assert(s.subrange(1, 9) =~= spec_u64_to_le_bytes(i64_as_u64(t)));
            lemma_i64_bits_round(t);
        },
        None => {
            assert(s[0] == 0u8);
            assert(s.subrange(1, 9) =~= spec_u64_to_le_bytes(0u64));
        },
    }
}

/// Append the bytes of `b` to `out`.
fn push_bytes(out: &mut Vec<u8>, b: &Vec<u8>)
    ensures
        final(out)@ == old(out)@ + b@,
{
    let n = b.len();
    let mut i: usize = 0;
    while i < n
        invariant
            n == b@.len(),
            0 <= i <= n,
            out@ == old(out)@ + b@.subrange(0, i as int),
        decreases n - i,
    {
        out.push(b[i]);
        i += 1;
        proof {
            assert(out@ =~= old(out)@ + b@.subrange(0, i as int));
        }
    }
    proof {
        assert(out@ =~= old(out)@ + b@);
    }
}

/// Append a 32-bit value, little endian.
fn push_u32(out: &mut Vec<u8>, x: u32)
    ensures
        final(out)@ == old(out)@ + spec_u32_to_le_bytes(x),
{
    let b = u32_to_le_bytes(x);
    push_bytes(out, &b);
}

/// Append a 64-bit value, little endian.
fn push_u64(out: &mut Vec<u8>, x: u64)
    ensures
        final(out)@ == old(out)@ + spec_u64_to_le_bytes(x),
{
    let b = u64_to_le_bytes(x);
    push_bytes(out, &b);
}

/// The bits of a signed 64-bit value, as unsigned.
fn i64_bits(x: i64) -> (r: u64)
    ensures
        r == i64_as_u64(x),
{
    if x >= 0 {
        x as u64
    } else {
        let d: i64 = x - i64::MIN;
        (d as u64) + 0x8000000000000000u64
    }
}

/// The signed reading of 64 bits.
fn bits_i64(u: u64) -> (r: i64)
    ensures
        r == u64_as_i64(u),
{
    if u < 0x8000000000000000u64 {
        u as i64
    } else {
        let d: u64 = u - 0x8000000000000000u64;
        (d as i64) + i64::MIN
    }
}

/// The one-byte tag of a status.
fn encode_status(s: EscrowStatus) -> (t: u8)
    ensures
        t == status_tag(s),
{
    match s {
        EscrowStatus::Created => 0,
        EscrowStatus::Funded => 1,
        EscrowStatus::Released => 2,
        EscrowStatus::Cancelled => 3,
    }
}

/// The status a one-byte tag stands for, if any.
fn decode_status(t: u8) -> (s: Option<EscrowStatus>)
    ensures
        s == tag_status(t),
{
    if t == 0 {
        Some(EscrowStatus::Created)
    } else if t == 1 {
        Some(EscrowStatus::Funded)
    } else if t == 2 {
        Some(EscrowStatus::Released)
    } else if t == 3 {
        Some(EscrowStatus::Cancelled)
    } else {
        None
    }
}

/// Append an optional timestamp: a presence flag and eight bytes.
fn push_opt(out: &mut Vec<u8>, o: Option<i64>)
    ensures
        final(out)@ == old(out)@ + spec_opt_ts(o),
{
    match o {
        Some(t) => {
            out.push(1u8);
            push_u64(out, i64_bits(t));
        },
        None => {
            out.push(0u8);
            push_u64(out, 0u64);
        },
    }
    proof {
        assert(out@ =~= old(out)@ + spec_opt_ts(o));
    }
}

/// Serialize a record into its fixed layout.
pub fn serialize(rec: &TaskEscrow) -> (out: Vec<u8>)
    requires
        rec.wf(),
    ensures
        out@ == spec_serialize(rec@),
        out@.len() == 113 + rec.task_id@.len(),
{
    let mut out: Vec<u8> = Vec::new();
    push_bytes(&mut out, rec.poster.as_bytes());
    push_bytes(&mut out, rec.worker.as_bytes());
    push_u32(&mut out, rec.task_id.len() as u32);
    push_bytes(&mut out, &rec.task_id);
    push_u64(&mut out, rec.amount);
    out.push(encode_status(rec.status));
    push_u64(&mut out, i64_bits(rec.created_at));
    push_opt(&mut out, rec.funded_at);
    push_opt(&mut out, rec.released_at);
    push_opt(&mut out, rec.cancelled_at);
    out.push(rec.bump);
    proof {
        lemma_auto_spec_u32_to_from_le_bytes();
        lemma_auto_spec_u64_to_from_le_bytes();
        assert(out@ =~= spec_serialize(rec@));
        assert(spec_opt_ts(rec.funded_at).len() == 9);
        assert(spec_opt_ts(rec.released_at).len() == 9);
        assert(spec_opt_ts(rec.cancelled_at).len() == 9);
    }
    out
}

/// Read the 64-bit value at offset `i`, little endian.
fn read_u64_at(b: &Vec<u8>, i: usize) -> (x: u64)
    requires
        i + 8 <= b@.len(),
    ensures
        x == spec_u64_from_le_bytes(b@.subrange(i as int, i as int + 8)),
{
    let n = b.len();
    proof {
        assert(i + 8 <= n);
    }
    let s = copy_range(b, i, i + 8);
    u64_from_le_bytes(s.as_slice())
}

/// Parse the optional timestamp at offset `i`: a presence flag and
/// eight bytes.
fn read_opt(b: &Vec<u8>, i: usize) -> (r: Option<Option<i64>>)
    requires
        i + 9 <= b@.len(),
    ensures
        r == spec_parse_opt(b@.subrange(i as int, i as int + 9)),
{
    let ghost s = b@.subrange(i as int, i as int + 9);
    proof {
        assert(s.subrange(1, 9) =~= b@.subrange(i as int + 1, i as int + 9));
        lemma_auto_spec_u64_to_from_le_bytes();
    }
    let n = b.len();
    proof {
        assert(i + 9 <= n);
    }
    let flag = b[i];
    let x = read_u64_at(b, i + 1);
    if flag == 1 {
        Some(Some(bits_i64(x)))
    } else if flag == 0 {
        if x == 0 {
            proof {
                assert(spec_u64_to_le_bytes(spec_u64_from_le_bytes(s.subrange(1, 9))) =~= s
                    .subrange(1, 9));
            }
            Some(None)
        } else {
            None
        }
    } else {
        None
    }
}

/// Deserialize a record from its fixed layout, refusing anything that
/// is not exactly the serialized form of one well-formed record.
pub fn deserialize(b: &Vec<u8>) -> (r: Option<TaskEscrow>)
    ensures
        match r {
            Some(rec) => rec.wf() && spec_deserialize(b@) == Some(rec@),
            None => spec_deserialize(b@) is None,
        },
{
    if b.len() < 113 {
        return None;
    }
    let prefix = copy_range(b, 64, 68);
    let n32 = u32_from_le_bytes(prefix.as_slice());
    if n32 > MAX_TASK_ID_LEN as u32 {
        return None;
    }
    let n = n32 as usize;
    if b.len() != 113 + n {
        return None;
    }
    let o = 68 + n;
    let poster_bytes = copy_range(b, 0, 32);
    let poster = match AccountId::from_bytes(&poster_bytes) {
        Some(id) => id,
        None => {
            proof {
                assert(false);
            }
            return None;
        },
    };
    let worker_bytes = copy_range(b, 32, 64);
    let worker = match AccountId::from_bytes(&worker_bytes) {
        Some(id) => id,
        None => {
            proof {
                assert(false);
            }
            return None;
        },
    };
    let status = match decode_status(b[o + 8]) {
        Some(s) => s,
        None => {
            return None;
        },
    };
    let funded_at = match read_opt(b, o + 17) {
        Some(x) => x,
        None => {
            return None;
        },
    };
    let released_at = match read_opt(b, o + 26) {
        Some(x) => x,
        None => {
            return None;
        },
    };
    let cancelled_at = match read_opt(b, o + 35) {
        Some(x) => x,
        None => {
            return None;
        },
    };
    let rec = TaskEscrow {
        poster,
        worker,
        task_id: copy_range(b, 68, o),
        amount: read_u64_at(b, o),
        status,
        created_at: bits_i64(read_u64_at(b, o + 9)),
        funded_at,
        released_at,
        cancelled_at,
        bump: b[b.len() - 1],
    };
    let flags_ok = match rec.status {
        EscrowStatus::Created => rec.funded_at.is_none() && rec.released_at.is_none()
            && rec.cancelled_at.is_none(),
        EscrowStatus::Funded => rec.funded_at.is_some() && rec.released_at.is_none()
            && rec.cancelled_at.is_none(),
        EscrowStatus::Released => rec.funded_at.is_some() && rec.released_at.is_some()
            && rec.cancelled_at.is_none(),
        EscrowStatus::Cancelled => rec.funded_at.is_some() && rec.released_at.is_none()
            && rec.cancelled_at.is_some(),
    };
    if !flags_ok {
        return None;
    }
    Some(rec)
}

} // verus!
