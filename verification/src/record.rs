//! The escrow record and its neighbouring value types: ledger
//! identities, the lifecycle status, and the error taxonomy.

use vstd::prelude::*;

verus! {

/// Longest task identifier accepted, in bytes.
pub const MAX_TASK_ID_LEN: usize = 50;

/// Serialized size of an escrow record when the task identifier has its
/// largest length; the fixed data size the holding account is allocated
/// with, and the size whose rent-exempt reserve the account must keep.
pub const ESCROW_ACCOUNT_SPACE: usize = 113 + MAX_TASK_ID_LEN;

/// A 32-byte ledger identity: a signing party's account address or a
/// derived escrow address.
pub struct AccountId {
    bytes: Vec<u8>,
}

impl View for AccountId {
    type V = Seq<u8>;

    closed spec fn view(&self) -> Seq<u8> {
        self.bytes@
    }
}

impl AccountId {
    pub open spec fn wf(&self) -> bool {
        self@.len() == 32
    }

    /// Wrap 32 raw bytes as an identity; any other length is refused.
    pub fn new(bytes: Vec<u8>) -> (r: Option<AccountId>)
        ensures
            match r {
                Some(id) => id.wf() && id@ == bytes@,
                None => bytes@.len() != 32,
            },
    {
        if bytes.len() == 32 {
            Some(AccountId { bytes })
        } else {
            None
        }
    }

    /// Copy 32 raw bytes into an identity; any other length is refused.
    pub fn from_bytes(bytes: &Vec<u8>) -> (r: Option<AccountId>)
        ensures
            match r {
                Some(id) => id.wf() && id@ == bytes@,
                None => bytes@.len() != 32,
            },
    {
        if bytes.len() == 32 {
            let copy = copy_range(bytes, 0, bytes.len());
            proof {
                assert(copy@ =~= bytes@);
            }
            Some(AccountId { bytes: copy })
        } else {
            None
        }
    }

    /// The raw 32 bytes of the identity.
    pub fn as_bytes(&self) -> (r: &Vec<u8>)
        ensures
            r@ == self@,
    {
        &self.bytes
    }
}

/// A fresh copy of the byte range `[i, j)` of `src`.
pub fn copy_range(src: &Vec<u8>, i: usize, j: usize) -> (r: Vec<u8>)
    requires
        i <= j <= src@.len(),
    ensures
        r@ == src@.subrange(i as int, j as int),
{
    let mut out: Vec<u8> = Vec::new();
    let mut k: usize = i;
    while k < j
        invariant
            i <= k <= j <= src@.len(),
            out@ == src@.subrange(i as int, k as int),
        decreases j - k,
    {
        out.push(src[k]);
        k += 1;
        proof {
            assert(out@ =~= src@.subrange(i as int, k as int));
        }
    }
    out
}

/// Byte-for-byte equality of two identities.
pub fn id_eq(a: &AccountId, b: &AccountId) -> (r: bool)
    ensures
        r == (a@ == b@),
{
    bytes_eq(&a.bytes, &b.bytes)
}

/// Byte-for-byte equality of two byte strings.
pub fn bytes_eq(a: &Vec<u8>, b: &Vec<u8>) -> (r: bool)
    ensures
        r == (a@ == b@),
{
    if a.len() != b.len() {
        return false;
    }
    let n = a.len();
    let mut i: usize = 0;
    while i < n
        invariant
            n == a@.len(),
            n == b@.len(),
            0 <= i <= n,
            forall|j: int| 0 <= j < i ==> a@[j] == b@[j],
        decreases n - i,
    {
        if a[i] != b[i] {
            return false;
        }
        i += 1;
    }
    proof {
        assert(a@ =~= b@);
    }
    true
}

/// Lifecycle status of one escrow record.  `Released` and `Cancelled`
/// are terminal: no transition ever leaves them.
#[derive(Clone, Copy, PartialEq, Eq, Structural, Debug)]
pub enum EscrowStatus {
    Created,
    Funded,
    Released,
    Cancelled,
}

/// The validation failures an operation reports before any currency
/// moves or any field mutates.
#[derive(Clone, Copy, PartialEq, Eq, Structural, Debug)]
pub enum TaskEscrowError {
    /// Operation attempted from the wrong lifecycle state.
    InvalidEscrowStatus,
    /// The signer is not the record's stored poster.
    UnauthorizedPoster,
    /// The presented worker is not the record's stored worker.
    InvalidWorker,
    /// The task identifier exceeds `MAX_TASK_ID_LEN` bytes.
    TaskIdTooLong,
}

/// One task's escrow record: created once, mutated in place by the
/// lifecycle transitions, never deleted.
pub struct TaskEscrow {
    /// Depositing party; immutable after creation.
    pub poster: AccountId,
    /// Intended recipient; immutable after creation.
    pub worker: AccountId,
    /// Business key and address-derivation seed; immutable.
    pub task_id: Vec<u8>,
    /// Exact deposit expected during funding; not a running balance.
    pub amount: u64,
    pub status: EscrowStatus,
    pub created_at: i64,
    pub funded_at: Option<i64>,
    pub released_at: Option<i64>,
    pub cancelled_at: Option<i64>,
    /// Canonical derivation nonce fixed at creation.
    pub bump: u8,
}

/// The mathematical value of an escrow record: every field as a plain
/// value, with the identities and the task identifier as byte strings.
pub struct RecordView {
    pub poster: Seq<u8>,
    pub worker: Seq<u8>,
    pub task_id: Seq<u8>,
    pub amount: u64,
    pub status: EscrowStatus,
    pub created_at: i64,
    pub funded_at: Option<i64>,
    pub released_at: Option<i64>,
    pub cancelled_at: Option<i64>,
    pub bump: u8,
}

impl RecordView {
    /// Well-formedness: identities are 32 bytes, the task identifier is
    /// within bounds, and the audit timestamps agree with the status —
    /// each is set exactly when the corresponding transition has fired,
    /// and at most one of `released_at`/`cancelled_at` is ever set.
    pub open spec fn wf(self) -> bool {
        &&& self.poster.len() == 32
        &&& self.worker.len() == 32
        &&& self.task_id.len() <= MAX_TASK_ID_LEN
        &&& match self.status {
            EscrowStatus::Created => self.funded_at is None && self.released_at is None
                && self.cancelled_at is None,
            EscrowStatus::Funded => self.funded_at is Some && self.released_at is None
                && self.cancelled_at is None,
            EscrowStatus::Released => self.funded_at is Some && self.released_at is Some
                && self.cancelled_at is None,
            EscrowStatus::Cancelled => self.funded_at is Some && self.released_at is None
                && self.cancelled_at is Some,
        }
    }
}

impl View for TaskEscrow {
    type V = RecordView;

    open spec fn view(&self) -> RecordView {
        RecordView {
            poster: self.poster@,
            worker: self.worker@,
            task_id: self.task_id@,
            amount: self.amount,
            status: self.status,
            created_at: self.created_at,
            funded_at: self.funded_at,
            released_at: self.released_at,
            cancelled_at: self.cancelled_at,
            bump: self.bump,
        }
    }
}

impl TaskEscrow {
    /// Well-formedness of the record, as stated on its mathematical
    /// value.
    pub open spec fn wf(self) -> bool {
        self@.wf()
    }
}

/// The record as it stands after the transition to `st` fires at time
/// `t`: the status is replaced and the matching timestamp is stamped,
/// exactly once; every other field is kept.
pub open spec fn stepped(r: TaskEscrow, st: EscrowStatus, t: i64) -> TaskEscrow {
    TaskEscrow {
        poster: r.poster,
        worker: r.worker,
        task_id: r.task_id,
        amount: r.amount,
        status: st,
        created_at: r.created_at,
        funded_at: if st == EscrowStatus::Funded {
            Some(t)
        } else {
            r.funded_at
        },
        released_at: if st == EscrowStatus::Released {
            Some(t)
        } else {
            r.released_at
        },
        cancelled_at: if st == EscrowStatus::Cancelled {
            Some(t)
        } else {
            r.cancelled_at
        },
        bump: r.bump,
    }
}

} // verus!
