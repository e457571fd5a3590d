use task_escrow::host::{escrow_address, escrow_reserve};
use task_escrow::ledger::{HostError, Ledger};
use task_escrow::ops::{
    cancel_escrow, create_task_escrow, fund_escrow, release_funds, CancelEscrow, CreateTaskEscrow,
    FundEscrow, OpError, ReleaseFunds,
};
use task_escrow::record::{AccountId, EscrowStatus, TaskEscrowError};

fn id(b: u8) -> AccountId {
    AccountId::new(vec![b; 32]).unwrap()
}

fn task(s: &str) -> Vec<u8> {
    s.as_bytes().to_vec()
}

const POSTER_START: u64 = 1_000_000_000;
const AMOUNT: u64 = 1_000_000;

/// A ledger with a funded poster account and one escrow created for
/// "T1"; returns the ledger and the escrow's derived address.
fn created() -> (Ledger, Vec<u8>) {
    let mut ledger = Ledger::new();
    ledger.open_system_account(id(1), POSTER_START).unwrap();
    let r = create_task_escrow(
        &mut ledger,
        CreateTaskEscrow { poster: id(1) },
        task("T1"),
        AMOUNT,
        id(2),
        100,
    );
    assert_eq!(r, Ok(()));
    let (addr, _bump) = escrow_address(&task("T1")).unwrap();
    (ledger, addr)
}

fn funded() -> (Ledger, Vec<u8>) {
    let (mut ledger, addr) = created();
    let r = fund_escrow(&mut ledger, FundEscrow { poster: id(1) }, &task("T1"), 200);
    assert_eq!(r, Ok(()));
    (ledger, addr)
}

#[test]
fn create_sets_fields_and_reserve() {
    let (ledger, addr) = created();
    assert_eq!(ledger.balance_at(&addr), Some(escrow_reserve()));
    let rec = ledger.record_at(&addr).unwrap();
    assert_eq!(rec.poster.as_bytes(), &vec![1u8; 32]);
    assert_eq!(rec.worker.as_bytes(), &vec![2u8; 32]);
    assert_eq!(rec.task_id, task("T1"));
    assert_eq!(rec.amount, AMOUNT);
    assert_eq!(rec.status, EscrowStatus::Created);
    assert_eq!(rec.created_at, 100);
    assert_eq!(rec.funded_at, None);
    assert_eq!(rec.released_at, None);
    assert_eq!(rec.cancelled_at, None);
    let (_, bump) = escrow_address(&task("T1")).unwrap();
    assert_eq!(rec.bump, bump);
    assert_eq!(
        ledger.balance_at(id(1).as_bytes()),
        Some(POSTER_START - escrow_reserve())
    );
}

#[test]
fn recreate_same_task_is_a_collision() {
    let (mut ledger, addr) = created();
    let before = ledger.balance_at(&addr).unwrap();
    let r = create_task_escrow(
        &mut ledger,
        CreateTaskEscrow { poster: id(1) },
        task("T1"),
        AMOUNT,
        id(2),
        101,
    );
    assert_eq!(r, Err(OpError::Host(HostError::AddressInUse)));
    // Nothing was overwritten.
    assert_eq!(ledger.balance_at(&addr), Some(before));
    let rec = ledger.record_at(&addr).unwrap();
    assert_eq!(rec.created_at, 100);
    assert_eq!(rec.status, EscrowStatus::Created);
}

#[test]
fn task_id_too_long_is_rejected() {
    let mut ledger = Ledger::new();
    ledger.open_system_account(id(1), POSTER_START).unwrap();
    let long = vec![b'x'; 51];
    let r = create_task_escrow(
        &mut ledger,
        CreateTaskEscrow { poster: id(1) },
        long,
        AMOUNT,
        id(2),
        100,
    );
    assert_eq!(r, Err(OpError::Program(TaskEscrowError::TaskIdTooLong)));
    // 50 bytes passes this module's guard, but the host's derivation
    // rule caps a seed at 32 bytes, so no valid address exists.
    let r = create_task_escrow(
        &mut ledger,
        CreateTaskEscrow { poster: id(1) },
        vec![b'x'; 50],
        AMOUNT,
        id(2),
        100,
    );
    assert_eq!(r, Err(OpError::Host(HostError::NoValidAddress)));
    // A seed-sized identifier is fine.
    let r = create_task_escrow(
        &mut ledger,
        CreateTaskEscrow { poster: id(1) },
        vec![b'x'; 32],
        AMOUNT,
        id(2),
        100,
    );
    assert_eq!(r, Ok(()));
}

#[test]
fn create_without_poster_account_fails() {
    let mut ledger = Ledger::new();
    let r = create_task_escrow(
        &mut ledger,
        CreateTaskEscrow { poster: id(1) },
        task("T1"),
        AMOUNT,
        id(2),
        100,
    );
    assert_eq!(r, Err(OpError::Host(HostError::MissingAccount)));
}

#[test]
fn create_with_poster_below_reserve_fails() {
    let mut ledger = Ledger::new();
    ledger.open_system_account(id(1), 1).unwrap();
    let r = create_task_escrow(
        &mut ledger,
        CreateTaskEscrow { poster: id(1) },
        task("T1"),
        AMOUNT,
        id(2),
        100,
    );
    assert_eq!(r, Err(OpError::Host(HostError::InsufficientBalance)));
}

#[test]
fn fund_moves_exactly_the_amount() {
    let (mut ledger, addr) = created();
    let poster_before = ledger.balance_at(id(1).as_bytes()).unwrap();
    let escrow_before = ledger.balance_at(&addr).unwrap();
    let r = fund_escrow(&mut ledger, FundEscrow { poster: id(1) }, &task("T1"), 200);
    assert_eq!(r, Ok(()));
    assert_eq!(
        ledger.balance_at(id(1).as_bytes()),
        Some(poster_before - AMOUNT)
    );
    assert_eq!(ledger.balance_at(&addr), Some(escrow_before + AMOUNT));
    let rec = ledger.record_at(&addr).unwrap();
    assert_eq!(rec.status, EscrowStatus::Funded);
    assert_eq!(rec.funded_at, Some(200));
}

#[test]
fn fund_is_refused_outside_created_state() {
    let (mut ledger, addr) = funded();
    let poster_before = ledger.balance_at(id(1).as_bytes()).unwrap();
    let escrow_before = ledger.balance_at(&addr).unwrap();
    let r = fund_escrow(&mut ledger, FundEscrow { poster: id(1) }, &task("T1"), 201);
    assert_eq!(
        r,
        Err(OpError::Program(TaskEscrowError::InvalidEscrowStatus))
    );
    // A refused fund is a no-op.
    assert_eq!(ledger.balance_at(id(1).as_bytes()), Some(poster_before));
    assert_eq!(ledger.balance_at(&addr), Some(escrow_before));
    assert_eq!(ledger.record_at(&addr).unwrap().funded_at, Some(200));
}

#[test]
fn fund_by_non_poster_is_unauthorized() {
    let (mut ledger, _addr) = created();
    ledger.open_system_account(id(3), POSTER_START).unwrap();
    let r = fund_escrow(&mut ledger, FundEscrow { poster: id(3) }, &task("T1"), 200);
    assert_eq!(
        r,
        Err(OpError::Program(TaskEscrowError::UnauthorizedPoster))
    );
}

#[test]
fn fund_with_insufficient_poster_balance_fails() {
    let mut ledger = Ledger::new();
    ledger
        .open_system_account(id(1), escrow_reserve() + 10)
        .unwrap();
    let r = create_task_escrow(
        &mut ledger,
        CreateTaskEscrow { poster: id(1) },
        task("T1"),
        AMOUNT,
        id(2),
        100,
    );
    assert_eq!(r, Ok(()));
    let r = fund_escrow(&mut ledger, FundEscrow { poster: id(1) }, &task("T1"), 200);
    assert_eq!(r, Err(OpError::Host(HostError::InsufficientBalance)));
}

#[test]
fn release_pays_worker_and_leaves_reserve() {
    let (mut ledger, addr) = funded();
    ledger.open_system_account(id(2), 0).unwrap();
    let escrow_before = ledger.balance_at(&addr).unwrap();
    assert!(escrow_before >= AMOUNT + escrow_reserve());
    let r = release_funds(
        &mut ledger,
        ReleaseFunds { poster: id(1), worker: id(2) },
        &task("T1"),
        300,
    );
    assert_eq!(r, Ok(()));
    assert_eq!(
        ledger.balance_at(id(2).as_bytes()),
        Some(escrow_before - escrow_reserve())
    );
    assert_eq!(ledger.balance_at(&addr), Some(escrow_reserve()));
    let rec = ledger.record_at(&addr).unwrap();
    assert_eq!(rec.status, EscrowStatus::Released);
    assert_eq!(rec.released_at, Some(300));
    assert_eq!(rec.cancelled_at, None);
    // A second release is refused: the record is no longer `Funded`.
    let r = release_funds(
        &mut ledger,
        ReleaseFunds { poster: id(1), worker: id(2) },
        &task("T1"),
        301,
    );
    assert_eq!(
        r,
        Err(OpError::Program(TaskEscrowError::InvalidEscrowStatus))
    );
    assert_eq!(ledger.balance_at(&addr), Some(escrow_reserve()));
}

#[test]
fn release_rejects_wrong_worker() {
    let (mut ledger, addr) = funded();
    ledger.open_system_account(id(9), 0).unwrap();
    let escrow_before = ledger.balance_at(&addr).unwrap();
    let r = release_funds(
        &mut ledger,
        ReleaseFunds { poster: id(1), worker: id(9) },
        &task("T1"),
        300,
    );
    assert_eq!(r, Err(OpError::Program(TaskEscrowError::InvalidWorker)));
    assert_eq!(ledger.balance_at(&addr), Some(escrow_before));
    assert_eq!(ledger.balance_at(id(9).as_bytes()), Some(0));
    assert_eq!(ledger.record_at(&addr).unwrap().status, EscrowStatus::Funded);
}

#[test]
fn release_by_non_poster_is_unauthorized() {
    let (mut ledger, _addr) = funded();
    ledger.open_system_account(id(5), 0).unwrap();
    let r = release_funds(
        &mut ledger,
        ReleaseFunds { poster: id(5), worker: id(2) },
        &task("T1"),
        300,
    );
    assert_eq!(
        r,
        Err(OpError::Program(TaskEscrowError::UnauthorizedPoster))
    );
}

#[test]
fn release_sweeps_incidental_balance() {
    let (mut ledger, addr) = funded();
    ledger.open_system_account(id(2), 0).unwrap();
    // Someone tops the holding account up outside the lifecycle.
    ledger.transfer(id(1).as_bytes(), &addr, 500).unwrap();
    let r = release_funds(
        &mut ledger,
        ReleaseFunds { poster: id(1), worker: id(2) },
        &task("T1"),
        300,
    );
    assert_eq!(r, Ok(()));
    // Everything movable goes to the worker, not merely `amount`.
    assert_eq!(ledger.balance_at(id(2).as_bytes()), Some(AMOUNT + 500));
    assert_eq!(ledger.balance_at(&addr), Some(escrow_reserve()));
}

#[test]
fn release_to_overflowing_worker_fails() {
    let (mut ledger, addr) = funded();
    ledger.open_system_account(id(2), u64::MAX).unwrap();
    let escrow_before = ledger.balance_at(&addr).unwrap();
    let r = release_funds(
        &mut ledger,
        ReleaseFunds { poster: id(1), worker: id(2) },
        &task("T1"),
        300,
    );
    assert_eq!(r, Err(OpError::Host(HostError::BalanceOverflow)));
    assert_eq!(ledger.balance_at(&addr), Some(escrow_before));
    assert_eq!(ledger.record_at(&addr).unwrap().status, EscrowStatus::Funded);
}

#[test]
fn release_to_the_holding_account_itself_fails() {
    let mut ledger = Ledger::new();
    ledger.open_system_account(id(1), POSTER_START).unwrap();
    let (addr, _) = escrow_address(&task("T9")).unwrap();
    let worker = AccountId::new(addr.clone()).unwrap();
    let r = create_task_escrow(
        &mut ledger,
        CreateTaskEscrow { poster: id(1) },
        task("T9"),
        AMOUNT,
        worker,
        100,
    );
    assert_eq!(r, Ok(()));
    let r = fund_escrow(&mut ledger, FundEscrow { poster: id(1) }, &task("T9"), 200);
    assert_eq!(r, Ok(()));
    let worker = AccountId::new(addr.clone()).unwrap();
    let r = release_funds(
        &mut ledger,
        ReleaseFunds { poster: id(1), worker },
        &task("T9"),
        300,
    );
    assert_eq!(r, Err(OpError::Host(HostError::SelfPayout)));
}

#[test]
fn cancel_returns_funds_to_poster() {
    let (mut ledger, addr) = funded();
    let poster_before = ledger.balance_at(id(1).as_bytes()).unwrap();
    let escrow_before = ledger.balance_at(&addr).unwrap();
    let r = cancel_escrow(&mut ledger, CancelEscrow { poster: id(1) }, &task("T1"), 400);
    assert_eq!(r, Ok(()));
    assert_eq!(
        ledger.balance_at(id(1).as_bytes()),
        Some(poster_before + (escrow_before - escrow_reserve()))
    );
    assert_eq!(ledger.balance_at(&addr), Some(escrow_reserve()));
    let rec = ledger.record_at(&addr).unwrap();
    assert_eq!(rec.status, EscrowStatus::Cancelled);
    assert_eq!(rec.cancelled_at, Some(400));
    assert_eq!(rec.released_at, None);
    // A second cancel is refused.
    let r = cancel_escrow(&mut ledger, CancelEscrow { poster: id(1) }, &task("T1"), 401);
    assert_eq!(
        r,
        Err(OpError::Program(TaskEscrowError::InvalidEscrowStatus))
    );
}

#[test]
fn cancel_by_non_poster_is_unauthorized_and_moves_nothing() {
    let (mut ledger, addr) = funded();
    ledger.open_system_account(id(7), 123).unwrap();
    let poster_before = ledger.balance_at(id(1).as_bytes()).unwrap();
    let escrow_before = ledger.balance_at(&addr).unwrap();
    let r = cancel_escrow(&mut ledger, CancelEscrow { poster: id(7) }, &task("T1"), 400);
    assert_eq!(
        r,
        Err(OpError::Program(TaskEscrowError::UnauthorizedPoster))
    );
    assert_eq!(ledger.balance_at(id(1).as_bytes()), Some(poster_before));
    assert_eq!(ledger.balance_at(id(7).as_bytes()), Some(123));
    assert_eq!(ledger.balance_at(&addr), Some(escrow_before));
    assert_eq!(ledger.record_at(&addr).unwrap().status, EscrowStatus::Funded);
}

#[test]
fn cancel_before_funding_is_refused() {
    let (mut ledger, _addr) = created();
    let r = cancel_escrow(&mut ledger, CancelEscrow { poster: id(1) }, &task("T1"), 400);
    assert_eq!(
        r,
        Err(OpError::Program(TaskEscrowError::InvalidEscrowStatus))
    );
}

#[test]
fn unknown_task_has_no_record() {
    let (mut ledger, _addr) = created();
    let r = fund_escrow(&mut ledger, FundEscrow { poster: id(1) }, &task("T2"), 200);
    assert_eq!(r, Err(OpError::Host(HostError::MissingAccount)));
}

#[test]
fn derived_addresses_are_deterministic_and_distinct() {
    let (a1, b1) = escrow_address(&task("T1")).unwrap();
    let (a2, b2) = escrow_address(&task("T1")).unwrap();
    assert_eq!(a1, a2);
    assert_eq!(b1, b2);
    assert_eq!(a1.len(), 32);
    let (other, _) = escrow_address(&task("T2")).unwrap();
    assert_ne!(a1, other);
    // The address is a digest of the seed, not the seed itself.
    assert_ne!(&a1[0..2], task("T1").as_slice());
}

#[test]
fn account_ids_must_be_32_bytes() {
    assert!(AccountId::new(vec![0u8; 31]).is_none());
    assert!(AccountId::new(vec![0u8; 33]).is_none());
    assert!(AccountId::new(vec![0u8; 32]).is_some());
}

#[test]
fn system_account_creation_is_insert_only() {
    let mut ledger = Ledger::new();
    ledger.open_system_account(id(1), 5).unwrap();
    let r = ledger.open_system_account(id(1), 7);
    assert_eq!(r, Err(HostError::AddressInUse));
    assert_eq!(ledger.balance_at(id(1).as_bytes()), Some(5));
}
