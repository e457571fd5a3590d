//! The four lifecycle operations: create, fund, release, cancel.  Each
//! runs as one atomic unit against the ledger: every precondition is
//! checked before any balance moves or any field mutates, so a rejected
//! operation leaves the ledger exactly as it was.

use vstd::prelude::*;
use crate::host::{escrow_pda, find_escrow_address, minimum_reserve, reserve_of};
use crate::ledger::{HostError, Ledger};
use crate::record::{
    bytes_eq, id_eq, stepped, AccountId, EscrowStatus, TaskEscrow, TaskEscrowError,
    ESCROW_ACCOUNT_SPACE, MAX_TASK_ID_LEN,
};

verus! {

/// Why an operation was rejected: a validation failure of this module's
/// own rules, or a failure of a host primitive.
#[derive(Clone, Copy, PartialEq, Eq, Structural, Debug)]
pub enum OpError {
    Program(TaskEscrowError),
    Host(HostError),
}

/// The accounts of a `create_task_escrow` call: the poster, the
/// authenticated signer, pays for the new holding account.
pub struct CreateTaskEscrow {
    pub poster: AccountId,
}

/// The accounts of a `fund_escrow` call: the poster, the authenticated
/// signer, is the source of the deposit.
pub struct FundEscrow {
    pub poster: AccountId,
}

/// The accounts of a `release_funds` call: the poster is the
/// authenticated signer; `worker` is presented as the recipient and is
/// checked against the stored worker.
pub struct ReleaseFunds {
    pub poster: AccountId,
    pub worker: AccountId,
}

/// The accounts of a `cancel_escrow` call: the poster, the
/// authenticated signer, reclaims the deposit.
pub struct CancelEscrow {
    pub poster: AccountId,
}

/// What a payout moves: everything the holding account has above the
/// host-mandated reserve, or nothing when the balance is already at or
/// below the reserve.
pub open spec fn payout_amount(balance: u64, reserve: u64) -> u64 {
    if balance >= reserve {
        (balance - reserve) as u64
    } else {
        0
    }
}

/// The guards of `fund`, in the order they are checked: the stored
/// record must belong to the presented task identifier and nonce, the
/// signer must be the stored poster, and the record must still be in
/// `Created` state.
pub open spec fn fund_check(rec: TaskEscrow, poster: Seq<u8>, task_id: Seq<u8>, bump: u8) -> Option<
    OpError,
> {
    if rec.task_id@ != task_id || rec.bump != bump {
        Some(OpError::Host(HostError::AddressMismatch))
    } else if rec.poster@ != poster {
        Some(OpError::Program(TaskEscrowError::UnauthorizedPoster))
    } else if rec.status != EscrowStatus::Created {
        Some(OpError::Program(TaskEscrowError::InvalidEscrowStatus))
    } else {
        None
    }
}

/// The guards of `release`, in the order they are checked: record
/// identity, then status, then the signing poster, then the presented
/// worker against the stored one.
pub open spec fn release_check(
    rec: TaskEscrow,
    poster: Seq<u8>,
    worker: Seq<u8>,
    task_id: Seq<u8>,
    bump: u8,
) -> Option<OpError> {
    if rec.task_id@ != task_id || rec.bump != bump {
        Some(OpError::Host(HostError::AddressMismatch))
    } else if rec.status != EscrowStatus::Funded {
        Some(OpError::Program(TaskEscrowError::InvalidEscrowStatus))
    } else if rec.poster@ != poster {
        Some(OpError::Program(TaskEscrowError::UnauthorizedPoster))
    } else if rec.worker@ != worker {
        Some(OpError::Program(TaskEscrowError::InvalidWorker))
    } else {
        None
    }
}

/// The guards of `cancel`, in the order they are checked: record
/// identity, then the signing poster, then the status.
pub open spec fn cancel_check(rec: TaskEscrow, poster: Seq<u8>, task_id: Seq<u8>, bump: u8) -> Option<
    OpError,
> {
    if rec.task_id@ != task_id || rec.bump != bump {
        Some(OpError::Host(HostError::AddressMismatch))
    } else if rec.poster@ != poster {
        Some(OpError::Program(TaskEscrowError::UnauthorizedPoster))
    } else if rec.status != EscrowStatus::Funded {
        Some(OpError::Program(TaskEscrowError::InvalidEscrowStatus))
    } else {
        None
    }
}

/// Initialize a new task escrow: derive the holding account's address
/// from the task identifier, refuse an address already in use, allocate
/// the account with the poster paying its reserve, and store the fresh
/// record in `Created` state.
pub fn create_task_escrow(
    ledger: &mut Ledger,
    accounts: CreateTaskEscrow,
    task_id: Vec<u8>,
    amount: u64,
    worker: AccountId,
    now: i64,
) -> (r: Result<(), OpError>)
    requires
        old(ledger).wf(),
        accounts.poster.wf(),
        worker.wf(),
    ensures
        final(ledger).wf(),
        r is Err ==> *final(ledger) == *old(ledger),
        (r == Err::<(), OpError>(OpError::Program(TaskEscrowError::TaskIdTooLong))) == (task_id@.len()
            > MAX_TASK_ID_LEN),
        task_id@.len() <= MAX_TASK_ID_LEN && escrow_pda(task_id@) is None ==> r == Err::<
            (),
            OpError,
        >(OpError::Host(HostError::NoValidAddress)),
        task_id@.len() <= MAX_TASK_ID_LEN ==> (escrow_pda(task_id@) matches Some(p) ==> {
            &&& old(ledger).has(p.0) ==> r == Err::<(), OpError>(
                OpError::Host(HostError::AddressInUse),
            )
            &&& !old(ledger).has(p.0) && !old(ledger).has(accounts.poster@) ==> r == Err::<
                (),
                OpError,
            >(OpError::Host(HostError::MissingAccount))
            &&& !old(ledger).has(p.0) && old(ledger).has(accounts.poster@) && old(
                ledger,
            ).balance_of(accounts.poster@) < reserve_of(ESCROW_ACCOUNT_SPACE as nat) ==> r == Err::<
                (),
                OpError,
            >(OpError::Host(HostError::InsufficientBalance))
            &&& (r is Ok) == (!old(ledger).has(p.0) && old(ledger).has(accounts.poster@) && old(
                ledger,
            ).balance_of(accounts.poster@) >= reserve_of(ESCROW_ACCOUNT_SPACE as nat))
            &&& r is Ok ==> {
                &&& final(ledger).has(p.0)
                &&& final(ledger).record_of(p.0) == Some(
                    TaskEscrow {
                        poster: accounts.poster,
                        worker: worker,
                        task_id: task_id,
                        amount: amount,
                        status: EscrowStatus::Created,
                        created_at: now,
                        funded_at: None,
                        released_at: None,
                        cancelled_at: None,
                        bump: p.1,
                    },
                )
                &&& final(ledger).balance_of(p.0) == reserve_of(ESCROW_ACCOUNT_SPACE as nat)
                &&& final(ledger).balance_of(accounts.poster@) == old(ledger).balance_of(
                    accounts.poster@,
                ) - reserve_of(ESCROW_ACCOUNT_SPACE as nat)
                &&& forall|a: Seq<u8>|
                    a != p.0 ==> #[trigger] final(ledger).has(a) == old(ledger).has(a)
                &&& forall|a: Seq<u8>|
                    a != p.0 && a != accounts.poster@ && old(ledger).has(a)
                        ==> #[trigger] final(ledger).balance_of(a) == old(ledger).balance_of(a)
                &&& forall|a: Seq<u8>|
                    a != p.0 && old(ledger).has(a) ==> #[trigger] final(ledger).record_of(a) == old(
                        ledger,
                    ).record_of(a)
            }
        }),
{
    if task_id.len() > MAX_TASK_ID_LEN {
        return Err(OpError::Program(TaskEscrowError::TaskIdTooLong));
    }
    let (addr, bump) = match find_escrow_address(&task_id) {
        Some(p) => p,
        None => {
            return Err(OpError::Host(HostError::NoValidAddress));
        },
    };
    if ledger.contains(&addr) {
        return Err(OpError::Host(HostError::AddressInUse));
    }
    let reserve = minimum_reserve(ESCROW_ACCOUNT_SPACE);
    match ledger.balance_at(accounts.poster.as_bytes()) {
        Some(b) => {
            if b < reserve {
                return Err(OpError::Host(HostError::InsufficientBalance));
            }
        },
        None => {
            return Err(OpError::Host(HostError::MissingAccount));
        },
    }
    let escrow_id = match AccountId::from_bytes(&addr) {
        Some(id) => id,
        None => {
            proof {
                assert(false);
            }
            return Err(OpError::Host(HostError::NoValidAddress));
        },
    };
    match ledger.open_system_account(escrow_id, 0) {
        Ok(_) => {},
        Err(_) => {
            proof {
                assert(false);
            }
            return Err(OpError::Host(HostError::AddressInUse));
        },
    }
    match ledger.transfer(accounts.poster.as_bytes(), &addr, reserve) {
        Ok(_) => {},
        Err(_) => {
            proof {
                assert(false);
            }
            return Err(OpError::Host(HostError::InsufficientBalance));
        },
    }
    let rec = TaskEscrow {
        poster: accounts.poster,
        worker,
        task_id,
        amount,
        status: EscrowStatus::Created,
        created_at: now,
        funded_at: None,
        released_at: None,
        cancelled_at: None,
        bump,
    };
    ledger.set_record(&addr, rec);
    Ok(())
}

/// Fund the escrow: move exactly the recorded `amount` from the poster
/// into the holding account and advance the record to `Funded`.
pub fn fund_escrow(ledger: &mut Ledger, accounts: FundEscrow, task_id: &Vec<u8>, now: i64) -> (r:
    Result<(), OpError>)
    requires
        old(ledger).wf(),
        accounts.poster.wf(),
    ensures
        final(ledger).wf(),
        r is Err ==> *final(ledger) == *old(ledger),
        escrow_pda(task_id@) is None ==> r == Err::<(), OpError>(
            OpError::Host(HostError::NoValidAddress),
        ),
        escrow_pda(task_id@) matches Some(p) ==> {
            &&& !old(ledger).has(p.0) || old(ledger).record_of(p.0) is None ==> r == Err::<
                (),
                OpError,
            >(OpError::Host(HostError::MissingAccount))
            &&& old(ledger).has(p.0) ==> (old(ledger).record_of(p.0) matches Some(rec) ==> {
                &&& (fund_check(rec, accounts.poster@, task_id@, p.1) matches Some(e) ==> r
                    == Err::<(), OpError>(e))
                &&& fund_check(rec, accounts.poster@, task_id@, p.1) is None ==> {
                    &&& !old(ledger).has(accounts.poster@) ==> r == Err::<(), OpError>(
                        OpError::Host(HostError::MissingAccount),
                    )
                    &&& old(ledger).has(accounts.poster@) && old(ledger).balance_of(
                        accounts.poster@,
                    ) < rec.amount ==> r == Err::<(), OpError>(
                        OpError::Host(HostError::InsufficientBalance),
                    )
                    &&& old(ledger).has(accounts.poster@) && old(ledger).balance_of(
                        accounts.poster@,
                    ) >= rec.amount && accounts.poster@ != p.0 && old(ledger).balance_of(p.0)
                        + rec.amount > u64::MAX ==> r == Err::<(), OpError>(
                        OpError::Host(HostError::BalanceOverflow),
                    )
                    &&& (r is Ok) == (old(ledger).has(accounts.poster@) && old(ledger).balance_of(
                        accounts.poster@,
                    ) >= rec.amount && (accounts.poster@ == p.0 || old(ledger).balance_of(p.0)
                        + rec.amount <= u64::MAX))
                    &&& r is Ok ==> {
                        &&& final(ledger).record_of(p.0) == Some(
                            stepped(rec, EscrowStatus::Funded, now),
                        )
                        &&& accounts.poster@ != p.0 ==> final(ledger).balance_of(p.0) == old(
                            ledger,
                        ).balance_of(p.0) + rec.amount
                        &&& accounts.poster@ != p.0 ==> final(ledger).balance_of(accounts.poster@)
                            == old(ledger).balance_of(accounts.poster@) - rec.amount
                        &&& accounts.poster@ == p.0 ==> final(ledger).balance_of(p.0) == old(
                            ledger,
                        ).balance_of(p.0)
                        &&& forall|a: Seq<u8>|
                            #[trigger] final(ledger).has(a) == old(ledger).has(a)
                        &&& forall|a: Seq<u8>|
                            a != p.0 && a != accounts.poster@ && old(ledger).has(a)
                                ==> #[trigger] final(ledger).balance_of(a) == old(
                                ledger,
                            ).balance_of(a)
                        &&& forall|a: Seq<u8>|
                            a != p.0 && old(ledger).has(a) ==> #[trigger] final(ledger).record_of(a)
                                == old(ledger).record_of(a)
                    }
                }
            })
        },
{
    let (addr, bump) = match find_escrow_address(task_id) {
        Some(p) => p,
        None => {
            return Err(OpError::Host(HostError::NoValidAddress));
        },
    };
    let amount: u64;
    match ledger.record_at(&addr) {
        Some(rec) => {
            if !bytes_eq(&rec.task_id, task_id) || rec.bump != bump {
                return Err(OpError::Host(HostError::AddressMismatch));
            }
            if !id_eq(&rec.poster, &accounts.poster) {
                return Err(OpError::Program(TaskEscrowError::UnauthorizedPoster));
            }
            if rec.status != EscrowStatus::Created {
                return Err(OpError::Program(TaskEscrowError::InvalidEscrowStatus));
            }
            amount = rec.amount;
        },
        None => {
            return Err(OpError::Host(HostError::MissingAccount));
        },
    }
    match ledger.transfer(accounts.poster.as_bytes(), &addr, amount) {
        Ok(_) => {},
        Err(e) => {
            return Err(OpError::Host(e));
        },
    }
    ledger.transition_record(&addr, EscrowStatus::Funded, now);
    Ok(())
}

/// Release the holding account's spendable balance — everything above
/// the reserve — to the stored worker, and advance the record to
/// `Released`.
pub fn release_funds(ledger: &mut Ledger, accounts: ReleaseFunds, task_id: &Vec<u8>, now: i64) -> (r:
    Result<(), OpError>)
    requires
        old(ledger).wf(),
        accounts.poster.wf(),
        accounts.worker.wf(),
    ensures
        final(ledger).wf(),
        r is Err ==> *final(ledger) == *old(ledger),
        escrow_pda(task_id@) is None ==> r == Err::<(), OpError>(
            OpError::Host(HostError::NoValidAddress),
        ),
        escrow_pda(task_id@) matches Some(p) ==> {
            &&& !old(ledger).has(p.0) || old(ledger).record_of(p.0) is None ==> r == Err::<
                (),
                OpError,
            >(OpError::Host(HostError::MissingAccount))
            &&& old(ledger).has(p.0) ==> (old(ledger).record_of(p.0) matches Some(rec) ==> {
                &&& (release_check(rec, accounts.poster@, accounts.worker@, task_id@, p.1)
                    matches Some(e) ==> r == Err::<(), OpError>(e))
                &&& release_check(rec, accounts.poster@, accounts.worker@, task_id@, p.1) is None
                    ==> {
                    let payout = payout_amount(
                        old(ledger).balance_of(p.0),
                        reserve_of(ESCROW_ACCOUNT_SPACE as nat),
                    );
                    &&& !old(ledger).has(accounts.worker@) ==> r == Err::<(), OpError>(
                        OpError::Host(HostError::MissingAccount),
                    )
                    &&& old(ledger).has(accounts.worker@) && accounts.worker@ == p.0 ==> r == Err::<
                        (),
                        OpError,
                    >(OpError::Host(HostError::SelfPayout))
                    &&& (r is Ok) == (old(ledger).has(accounts.worker@) && accounts.worker@ != p.0
                        && old(ledger).balance_of(accounts.worker@) + payout <= u64::MAX)
                    &&& old(ledger).has(accounts.worker@) && accounts.worker@ != p.0 && old(
                        ledger,
                    ).balance_of(accounts.worker@) + payout > u64::MAX ==> r == Err::<(), OpError>(
                        OpError::Host(HostError::BalanceOverflow),
                    )
                    &&& r is Ok ==> {
                        &&& final(ledger).record_of(p.0) == Some(
                            stepped(rec, EscrowStatus::Released, now),
                        )
                        &&& final(ledger).balance_of(p.0) == old(ledger).balance_of(p.0) - payout
                        &&& old(ledger).balance_of(p.0) >= reserve_of(ESCROW_ACCOUNT_SPACE as nat)
                            ==> final(ledger).balance_of(p.0) == reserve_of(
                            ESCROW_ACCOUNT_SPACE as nat,
                        )
                        &&& final(ledger).balance_of(accounts.worker@) == old(ledger).balance_of(
                            accounts.worker@,
                        ) + payout
                        &&& forall|a: Seq<u8>|
                            #[trigger] final(ledger).has(a) == old(ledger).has(a)
                        &&& forall|a: Seq<u8>|
                            a != p.0 && a != accounts.worker@ && old(ledger).has(a)
                                ==> #[trigger] final(ledger).balance_of(a) == old(
                                ledger,
                            ).balance_of(a)
                        &&& forall|a: Seq<u8>|
                            a != p.0 && old(ledger).has(a) ==> #[trigger] final(ledger).record_of(a)
                                == old(ledger).record_of(a)
                    }
                }
            })
        },
{
    let (addr, bump) = match find_escrow_address(task_id) {
        Some(p) => p,
        None => {
            return Err(OpError::Host(HostError::NoValidAddress));
        },
    };
    match ledger.record_at(&addr) {
        Some(rec) => {
            if !bytes_eq(&rec.task_id, task_id) || rec.bump != bump {
                return Err(OpError::Host(HostError::AddressMismatch));
            }
            if rec.status != EscrowStatus::Funded {
                return Err(OpError::Program(TaskEscrowError::InvalidEscrowStatus));
            }
            if !id_eq(&rec.poster, &accounts.poster) {
                return Err(OpError::Program(TaskEscrowError::UnauthorizedPoster));
            }
            if !id_eq(&rec.worker, &accounts.worker) {
                return Err(OpError::Program(TaskEscrowError::InvalidWorker));
            }
        },
        None => {
            return Err(OpError::Host(HostError::MissingAccount));
        },
    }
    if !ledger.contains(accounts.worker.as_bytes()) {
        return Err(OpError::Host(HostError::MissingAccount));
    }
    if bytes_eq(accounts.worker.as_bytes(), &addr) {
        return Err(OpError::Host(HostError::SelfPayout));
    }
    let reserve = minimum_reserve(ESCROW_ACCOUNT_SPACE);
    let bal = match ledger.balance_at(&addr) {
        Some(b) => b,
        None => {
            proof {
                assert(false);
            }
            return Err(OpError::Host(HostError::MissingAccount));
        },
    };
    let available = if bal >= reserve {
        bal - reserve
    } else {
        0
    };
    match ledger.transfer(&addr, accounts.worker.as_bytes(), available) {
        Ok(_) => {},
        Err(e) => {
            return Err(OpError::Host(e));
        },
    }
    ledger.transition_record(&addr, EscrowStatus::Released, now);
    Ok(())
}

/// Cancel the escrow: return the holding account's spendable balance —
/// everything above the reserve — to the poster, and advance the record
/// to `Cancelled`.
pub fn cancel_escrow(ledger: &mut Ledger, accounts: CancelEscrow, task_id: &Vec<u8>, now: i64) -> (r:
    Result<(), OpError>)
    requires
        old(ledger).wf(),
        accounts.poster.wf(),
    ensures
        final(ledger).wf(),
        r is Err ==> *final(ledger) == *old(ledger),
        escrow_pda(task_id@) is None ==> r == Err::<(), OpError>(
            OpError::Host(HostError::NoValidAddress),
        ),
        escrow_pda(task_id@) matches Some(p) ==> {
            &&& !old(ledger).has(p.0) || old(ledger).record_of(p.0) is None ==> r == Err::<
                (),
                OpError,
            >(OpError::Host(HostError::MissingAccount))
            &&& old(ledger).has(p.0) ==> (old(ledger).record_of(p.0) matches Some(rec) ==> {
                &&& (cancel_check(rec, accounts.poster@, task_id@, p.1) matches Some(e) ==> r
                    == Err::<(), OpError>(e))
                &&& cancel_check(rec, accounts.poster@, task_id@, p.1) is None ==> {
                    let payout = payout_amount(
                        old(ledger).balance_of(p.0),
                        reserve_of(ESCROW_ACCOUNT_SPACE as nat),
                    );
                    &&& !old(ledger).has(accounts.poster@) ==> r == Err::<(), OpError>(
                        OpError::Host(HostError::MissingAccount),
                    )
                    &&& old(ledger).has(accounts.poster@) && accounts.poster@ == p.0 ==> r == Err::<
                        (),
                        OpError,
                    >(OpError::Host(HostError::SelfPayout))
                    &&& (r is Ok) == (old(ledger).has(accounts.poster@) && accounts.poster@ != p.0
                        && old(ledger).balance_of(accounts.poster@) + payout <= u64::MAX)
                    &&& old(ledger).has(accounts.poster@) && accounts.poster@ != p.0 && old(
                        ledger,
                    ).balance_of(accounts.poster@) + payout > u64::MAX ==> r == Err::<(), OpError>(
                        OpError::Host(HostError::BalanceOverflow),
                    )
                    &&& r is Ok ==> {
                        &&& final(ledger).record_of(p.0) == Some(
                            stepped(rec, EscrowStatus::Cancelled, now),
                        )
                        &&& final(ledger).balance_of(p.0) == old(ledger).balance_of(p.0) - payout
                        &&& old(ledger).balance_of(p.0) >= reserve_of(ESCROW_ACCOUNT_SPACE as nat)
                            ==> final(ledger).balance_of(p.0) == reserve_of(
                            ESCROW_ACCOUNT_SPACE as nat,
                        )
                        &&& final(ledger).balance_of(accounts.poster@) == old(ledger).balance_of(
                            accounts.poster@,
                        ) + payout
                        &&& forall|a: Seq<u8>|
                            #[trigger] final(ledger).has(a) == old(ledger).has(a)
                        &&& forall|a: Seq<u8>|
                            a != p.0 && a != accounts.poster@ && old(ledger).has(a)
                                ==> #[trigger] final(ledger).balance_of(a) == old(
                                ledger,
                            ).balance_of(a)
                        &&& forall|a: Seq<u8>|
                            a != p.0 && old(ledger).has(a) ==> #[trigger] final(ledger).record_of(a)
                                == old(ledger).record_of(a)
                    }
                }
            })
        },
{
    let (addr, bump) = match find_escrow_address(task_id) {
        Some(p) => p,
        None => {
            return Err(OpError::Host(HostError::NoValidAddress));
        },
    };
    match ledger.record_at(&addr) {
        Some(rec) => {
            if !bytes_eq(&rec.task_id, task_id) || rec.bump != bump {
                return Err(OpError::Host(HostError::AddressMismatch));
            }
            if !id_eq(&rec.poster, &accounts.poster) {
                return Err(OpError::Program(TaskEscrowError::UnauthorizedPoster));
            }
            if rec.status != EscrowStatus::Funded {
                return Err(OpError::Program(TaskEscrowError::InvalidEscrowStatus));
            }
        },
        None => {
            return Err(OpError::Host(HostError::MissingAccount));
        },
    }
    if !ledger.contains(accounts.poster.as_bytes()) {
        return Err(OpError::Host(HostError::MissingAccount));
    }
    if bytes_eq(accounts.poster.as_bytes(), &addr) {
        return Err(OpError::Host(HostError::SelfPayout));
    }
    let reserve = minimum_reserve(ESCROW_ACCOUNT_SPACE);
    let bal = match ledger.balance_at(&addr) {
        Some(b) => b,
        None => {
            proof {
                assert(false);
            }
            return Err(OpError::Host(HostError::MissingAccount));
        },
    };
    let available = if bal >= reserve {
        bal - reserve
    } else {
        0
    };
    match ledger.transfer(&addr, accounts.poster.as_bytes(), available) {
        Ok(_) => {},
        Err(e) => {
            return Err(OpError::Host(e));
        },
    }
    ledger.transition_record(&addr, EscrowStatus::Cancelled, now);
    Ok(())
}

} // verus!
