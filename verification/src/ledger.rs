//! An in-memory model of the host ledger: one entry per account
//! address, insert-only creation, and serialized, atomic operations.
//! An operation either commits all of its changes or none of them.

use vstd::prelude::*;
use crate::record::{bytes_eq, AccountId, EscrowStatus, TaskEscrow};

verus! {

/// Failures of the host-ledger primitives, surfaced synchronously; the
/// attempted operation leaves the ledger exactly as it was.
#[derive(Clone, Copy, PartialEq, Eq, Structural, Debug)]
pub enum HostError {
    /// No valid derived address exists for the seed.
    NoValidAddress,
    /// Account creation at an address that is already in use.
    AddressInUse,
    /// The record at the derived address does not match the presented
    /// task identifier and nonce.
    AddressMismatch,
    /// An account the operation needs does not exist.
    MissingAccount,
    /// The transfer source holds less than the requested amount.
    InsufficientBalance,
    /// Crediting the destination would overflow its balance.
    BalanceOverflow,
    /// Source and destination of a payout coincide, so the two balances
    /// cannot be borrowed at once.
    SelfPayout,
}

struct LedgerAccount {
    address: AccountId,
    balance: u64,
    record: Option<TaskEscrow>,
}

spec fn acct_wf(a: LedgerAccount) -> bool {
    &&& a.address.wf()
    &&& match a.record {
        Some(r) => r.wf(),
        None => true,
    }
}

/// The host ledger's account store.
pub struct Ledger {
    accounts: Vec<LedgerAccount>,
}

impl Ledger {
    spec fn accs(self) -> Seq<LedgerAccount> {
        self.accounts@
    }

    /// Addresses are unique and every stored record is well formed.
    pub closed spec fn wf(self) -> bool {
        &&& forall|i: int, j: int|
            0 <= i < j < self.accs().len() ==> (#[trigger] self.accs()[i].address@)
                != (#[trigger] self.accs()[j].address@)
        &&& forall|i: int| 0 <= i < self.accs().len() ==> acct_wf(#[trigger] self.accs()[i])
    }

    /// Whether an account exists at address `a`.
    pub closed spec fn has(self, a: Seq<u8>) -> bool {
        exists|i: int| 0 <= i < self.accs().len() && (#[trigger] self.accs()[i].address@) == a
    }

    spec fn idx(self, a: Seq<u8>) -> int {
        choose|i: int| 0 <= i < self.accs().len() && (#[trigger] self.accs()[i].address@) == a
    }

    /// Balance of the account at `a`; meaningful only when `has(a)`.
    pub closed spec fn balance_of(self, a: Seq<u8>) -> u64 {
        self.accs()[self.idx(a)].balance
    }

    /// The escrow record stored at `a`, if any; meaningful only when
    /// `has(a)`.
    pub closed spec fn record_of(self, a: Seq<u8>) -> Option<TaskEscrow> {
        self.accs()[self.idx(a)].record
    }

    proof fn lemma_idx_unique(self, k: int)
        requires
            self.wf(),
            0 <= k < self.accs().len(),
        ensures
            self.has(self.accs()[k].address@),
            self.idx(self.accs()[k].address@) == k,
    {
        let a = self.accs()[k].address@;
        assert(self.has(a));
        let i = self.idx(a);
        if i != k {
            if i < k {
                assert(self.accs()[i].address@ != self.accs()[k].address@);
            } else {
                assert(self.accs()[k].address@ != self.accs()[i].address@);
            }
        }
    }

    /// An empty ledger, with no account at any address.
    pub fn new() -> (r: Ledger)
        ensures
            r.wf(),
            forall|a: Seq<u8>| !r.has(a),
    {
        Ledger { accounts: Vec::new() }
    }

    fn find(&self, addr: &Vec<u8>) -> (r: Option<usize>)
        requires
            self.wf(),
        ensures
            match r {
                Some(i) => i < self.accs().len() && self.accs()[i as int].address@ == addr@
                    && self.has(addr@) && self.idx(addr@) == i,
                None => !self.has(addr@),
            },
    {
        let n = self.accounts.len();
        let mut k: usize = 0;
        while k < n
            invariant
                self.wf(),
                n == self.accs().len(),
                0 <= k <= n,
                forall|j: int| 0 <= j < k ==> (#[trigger] self.accs()[j].address@) != addr@,
            decreases n - k,
        {
            if bytes_eq(self.accounts[k].address.as_bytes(), addr) {
                proof {
                    self.lemma_idx_unique(k as int);
                }
                return Some(k);
            }
            k += 1;
        }
        None
    }

    /// Whether an account exists at `addr`.
    pub fn contains(&self, addr: &Vec<u8>) -> (r: bool)
        requires
            self.wf(),
        ensures
            r == self.has(addr@),
    {
        match self.find(addr) {
            Some(_) => true,
            None => false,
        }
    }

    /// Balance of the account at `addr`, if one exists.
    pub fn balance_at(&self, addr: &Vec<u8>) -> (r: Option<u64>)
        requires
            self.wf(),
        ensures
            match r {
                Some(b) => self.has(addr@) && b == self.balance_of(addr@),
                None => !self.has(addr@),
            },
    {
        match self.find(addr) {
            Some(i) => Some(self.accounts[i].balance),
            None => None,
        }
    }

    /// The escrow record stored at `addr`, if an account exists there
    /// and holds one.
    pub fn record_at(&self, addr: &Vec<u8>) -> (r: Option<&TaskEscrow>)
        requires
            self.wf(),
        ensures
            match r {
                Some(rec) => self.has(addr@) && self.record_of(addr@) == Some(*rec) && rec.wf(),
                None => !self.has(addr@) || self.record_of(addr@) is None,
            },
    {
        match self.find(addr) {
            Some(i) => {
                match &self.accounts[i].record {
                    Some(rec) => Some(rec),
                    None => None,
                }
            },
            None => None,
        }
    }

    /// Open a fresh account holding `balance` and no record — the
    /// genesis edge of the model, standing for balances that exist
    /// before this module runs.  Creation is insert-only: an address
    /// already in use is refused.
    pub fn open_system_account(&mut self, id: AccountId, balance: u64) -> (r: Result<
        (),
        HostError,
    >)
        requires
            old(self).wf(),
            id.wf(),
        ensures
            final(self).wf(),
            r is Err ==> *final(self) == *old(self),
            (r is Ok) == !old(self).has(id@),
            (r == Err::<(), HostError>(HostError::AddressInUse)) == old(self).has(id@),
            r is Ok ==> final(self).has(id@) && final(self).balance_of(id@) == balance
                && final(self).record_of(id@) is None,
            r is Ok ==> forall|a: Seq<u8>|
                a != id@ ==> #[trigger] final(self).has(a) == old(self).has(a),
            r is Ok ==> forall|a: Seq<u8>|
                a != id@ && old(self).has(a) ==> #[trigger] final(self).balance_of(a) == old(
                    self,
                ).balance_of(a),
            r is Ok ==> forall|a: Seq<u8>|
                a != id@ && old(self).has(a) ==> #[trigger] final(self).record_of(a) == old(
                    self,
                ).record_of(a),
    {
        match self.find(id.as_bytes()) {
            Some(_) => Err(HostError::AddressInUse),
            None => {
                let neu = LedgerAccount { address: id, balance, record: None };
                self.accounts.push(neu);
                proof {
                    lemma_push_frame(*old(self), *self, id@);
                }
                Ok(())
            },
        }
    }

    fn set_balance_at(&mut self, i: usize, nb: u64)
        requires
            old(self).wf(),
            i < old(self).accs().len(),
        ensures
            final(self).wf(),
            final(self).accs().len() == old(self).accs().len(),
            forall|k: int|
                0 <= k < old(self).accs().len() ==> (#[trigger] final(self).accs()[k].address@)
                    == old(self).accs()[k].address@,
            forall|a: Seq<u8>| #[trigger] final(self).has(a) == old(self).has(a),
            final(self).balance_of(old(self).accs()[i as int].address@) == nb,
            forall|a: Seq<u8>|
                a != old(self).accs()[i as int].address@ && old(self).has(a)
                    ==> #[trigger] final(self).balance_of(a) == old(self).balance_of(a),
            forall|a: Seq<u8>|
                old(self).has(a) ==> #[trigger] final(self).record_of(a) == old(self).record_of(a),
    {
        let mut acct = self.accounts.remove(i);
        acct.balance = nb;
        self.accounts.insert(i, acct);
        proof {
            let pre = old(self).accs();
            assert(self.accs() =~= pre.update(i as int, self.accs()[i as int]));
            lemma_update_frame(*old(self), *self, i as int);
            old(self).lemma_idx_unique(i as int);
            assert forall|a: Seq<u8>| old(self).has(a) implies #[trigger] self.record_of(a) == old(
                self,
            ).record_of(a) by {
                if a != pre[i as int].address@ {
                    assert(self.balance_of(a) == old(self).balance_of(a));
                }
            }
        }
    }

    /// Replace the record stored at `addr`.
    pub(crate) fn set_record(&mut self, addr: &Vec<u8>, rec: TaskEscrow)
        requires
            old(self).wf(),
            old(self).has(addr@),
            rec.wf(),
        ensures
            final(self).wf(),
            forall|a: Seq<u8>| #[trigger] final(self).has(a) == old(self).has(a),
            final(self).record_of(addr@) == Some(rec),
            forall|a: Seq<u8>|
                old(self).has(a) ==> #[trigger] final(self).balance_of(a) == old(self).balance_of(
                    a,
                ),
            forall|a: Seq<u8>|
                a != addr@ && old(self).has(a) ==> #[trigger] final(self).record_of(a) == old(
                    self,
                ).record_of(a),
    {
        match self.find(addr) {
            Some(i) => {
                let mut acct = self.accounts.remove(i);
                acct.record = Some(rec);
                self.accounts.insert(i, acct);
                proof {
                    let pre = old(self).accs();
                    assert(self.accs() =~= pre.update(i as int, self.accs()[i as int]));
                    lemma_update_frame(*old(self), *self, i as int);
                    old(self).lemma_idx_unique(i as int);
                }
            },
            None => {
                proof {
                    assert(false);
                }
            },
        }
    }

    /// Advance the record stored at `addr` to status `st`, stamping the
    /// matching timestamp; balances and every other account are kept.
    pub(crate) fn transition_record(&mut self, addr: &Vec<u8>, st: EscrowStatus, stamp: i64)
        requires
            old(self).wf(),
            old(self).has(addr@),
            match old(self).record_of(addr@) {
                Some(r) => crate::record::stepped(r, st, stamp).wf(),
                None => false,
            },
        ensures
            final(self).wf(),
            forall|a: Seq<u8>| #[trigger] final(self).has(a) == old(self).has(a),
            match old(self).record_of(addr@) {
                Some(r) => final(self).record_of(addr@) == Some(
                    crate::record::stepped(r, st, stamp),
                ),
                None => false,
            },
            forall|a: Seq<u8>|
                old(self).has(a) ==> #[trigger] final(self).balance_of(a) == old(self).balance_of(
                    a,
                ),
            forall|a: Seq<u8>|
                a != addr@ && old(self).has(a) ==> #[trigger] final(self).record_of(a) == old(
                    self,
                ).record_of(a),
    {
        match self.find(addr) {
            Some(i) => {
                let mut acct = self.accounts.remove(i);
                proof {
                    old(self).lemma_idx_unique(i as int);
                }
                match &mut acct.record {
                    Some(rec) => {
                        match st {
                            EscrowStatus::Created => {},
                            EscrowStatus::Funded => {
                                rec.funded_at = Some(stamp);
                            },
                            EscrowStatus::Released => {
                                rec.released_at = Some(stamp);
                            },
                            EscrowStatus::Cancelled => {
                                rec.cancelled_at = Some(stamp);
                            },
                        }
                        rec.status = st;
                    },
                    None => {
                        proof {
                            assert(false);
                        }
                    },
                }
                self.accounts.insert(i, acct);
                proof {
                    let pre = old(self).accs();
                    assert(self.accs() =~= pre.update(i as int, self.accs()[i as int]));
                    lemma_update_frame(*old(self), *self, i as int);
                }
            },
            None => {
                proof {
                    assert(false);
                }
            },
        }
    }

    /// Move exactly `amount` of native currency from `from` to `to` —
    /// the host's transfer primitive.  Both accounts must exist; the
    /// source must hold at least `amount`; nothing moves on failure.
    pub fn transfer(&mut self, from: &Vec<u8>, to: &Vec<u8>, amount: u64) -> (r: Result<
        (),
        HostError,
    >)
        requires
            old(self).wf(),
        ensures
            final(self).wf(),
            r is Err ==> *final(self) == *old(self),
            (r is Ok) == (old(self).has(from@) && old(self).has(to@) && old(self).balance_of(from@)
                >= amount && (from@ == to@ || old(self).balance_of(to@) + amount <= u64::MAX)),
            (r == Err::<(), HostError>(HostError::MissingAccount)) == (!old(self).has(from@)
                || !old(self).has(to@)),
            (r == Err::<(), HostError>(HostError::InsufficientBalance)) == (old(self).has(from@)
                && old(self).has(to@) && old(self).balance_of(from@) < amount),
            (r == Err::<(), HostError>(HostError::BalanceOverflow)) == (old(self).has(from@) && old(self).has(to@) && old(self).balance_of(from@) >= amount && from@ != to@ && old(self).balance_of(to@) + amount > u64::MAX),
            r is Ok && from@ == to@ ==> *final(self) == *old(self),
            r is Ok && from@ != to@ ==> {
                &&& final(self).balance_of(from@) == old(self).balance_of(from@) - amount
                &&& final(self).balance_of(to@) == old(self).balance_of(to@) + amount
            },
            forall|a: Seq<u8>| #[trigger] final(self).has(a) == old(self).has(a),
            forall|a: Seq<u8>|
                old(self).has(a) ==> #[trigger] final(self).record_of(a) == old(self).record_of(a),
            r is Ok ==> forall|a: Seq<u8>|
                a != from@ && a != to@ && old(self).has(a) ==> #[trigger] final(self).balance_of(a)
                    == old(self).balance_of(a),
    {
        let from_i = match self.find(from) {
            Some(i) => i,
            None => {
                return Err(HostError::MissingAccount);
            },
        };
        let to_i = match self.find(to) {
            Some(i) => i,
            None => {
                return Err(HostError::MissingAccount);
            },
        };
        let from_bal = self.accounts[from_i].balance;
        if from_bal < amount {
            return Err(HostError::InsufficientBalance);
        }
        if bytes_eq(from, to) {
            return Ok(());
        }
        let to_bal = self.accounts[to_i].balance;
        if to_bal > u64::MAX - amount {
            return Err(HostError::BalanceOverflow);
        }
        self.set_balance_at(from_i, from_bal - amount);
        proof {
            self.lemma_idx_unique(to_i as int);
            self.lemma_idx_unique(from_i as int);
        }
        self.set_balance_at(to_i, to_bal + amount);
        Ok(())
    }
}

proof fn lemma_update_frame(pre: Ledger, post: Ledger, i: int)
    requires
        pre.wf(),
        0 <= i < pre.accs().len(),
        post.accs().len() == pre.accs().len(),
        post.accs() == pre.accs().update(i, post.accs()[i]),
        post.accs()[i].address@ == pre.accs()[i].address@,
        acct_wf(post.accs()[i]),
    ensures
        post.wf(),
        forall|a: Seq<u8>| #[trigger] post.has(a) == pre.has(a),
        post.balance_of(pre.accs()[i].address@) == post.accs()[i].balance,
        post.record_of(pre.accs()[i].address@) == post.accs()[i].record,
        forall|a: Seq<u8>|
            a != pre.accs()[i].address@ && pre.has(a) ==> #[trigger] post.balance_of(a)
                == pre.balance_of(a),
        forall|a: Seq<u8>|
            a != pre.accs()[i].address@ && pre.has(a) ==> #[trigger] post.record_of(a)
                == pre.record_of(a),
{
    let s = pre.accs();
    let t = post.accs();
    assert forall|k: int| 0 <= k < t.len() implies (#[trigger] t[k].address@) == s[k].address@ by {
        if k != i {
            assert(t[k] == s[k]);
        }
    }
    assert forall|k: int| 0 <= k < t.len() implies acct_wf(#[trigger] t[k]) by {
        if k != i {
            assert(t[k] == s[k]);
        }
    }
    assert forall|a: Seq<u8>| #[trigger] post.has(a) == pre.has(a) by {
        if pre.has(a) {
            let w = pre.idx(a);
            assert(t[w].address@ == a);
            assert(post.has(a));
        }
        if post.has(a) {
            let w = post.idx(a);
            assert(s[w].address@ == a);
            assert(pre.has(a));
        }
    }
    let ai = s[i].address@;
    assert(post.has(ai)) by {
        assert(t[i].address@ == ai);
    }
    let w = post.idx(ai);
    post.lemma_idx_unique(i);
    assert(w == i);
    assert forall|a: Seq<u8>| a != ai && pre.has(a) implies #[trigger] post.balance_of(a)
        == pre.balance_of(a) by {
        let wp = pre.idx(a);
        assert(s[wp].address@ == a);
        assert(wp != i);
        assert(t[wp] == s[wp]);
        post.lemma_idx_unique(wp);
        pre.lemma_idx_unique(wp);
    }
    assert forall|a: Seq<u8>| a != ai && pre.has(a) implies #[trigger] post.record_of(a)
        == pre.record_of(a) by {
        let wp = pre.idx(a);
        assert(s[wp].address@ == a);
        assert(wp != i);
        assert(t[wp] == s[wp]);
        post.lemma_idx_unique(wp);
        pre.lemma_idx_unique(wp);
    }
}

proof fn lemma_push_frame(pre: Ledger, post: Ledger, na: Seq<u8>)
    requires
        pre.wf(),
        !pre.has(na),
        post.accs().len() == pre.accs().len() + 1,
        post.accs() == pre.accs().push(post.accs()[pre.accs().len() as int]),
        post.accs()[pre.accs().len() as int].address@ == na,
        acct_wf(post.accs()[pre.accs().len() as int]),
    ensures
        post.wf(),
        post.has(na),
        post.balance_of(na) == post.accs()[pre.accs().len() as int].balance,
        post.record_of(na) == post.accs()[pre.accs().len() as int].record,
        forall|a: Seq<u8>| a != na ==> #[trigger] post.has(a) == pre.has(a),
        forall|a: Seq<u8>|
            a != na && pre.has(a) ==> #[trigger] post.balance_of(a) == pre.balance_of(a),
        forall|a: Seq<u8>|
            a != na && pre.has(a) ==> #[trigger] post.record_of(a) == pre.record_of(a),
{
    let s = pre.accs();
    let t = post.accs();
    let n = s.len() as int;
    assert forall|k: int| 0 <= k < n implies #[trigger] t[k] == s[k] by {}
    assert forall|i: int, j: int| 0 <= i < j < t.len() implies (#[trigger] t[i].address@)
        != (#[trigger] t[j].address@) by {
        if j < n {
            assert(t[i] == s[i] && t[j] == s[j]);
        } else {
            assert(t[i] == s[i]);
            assert(t[j].address@ == na);
            if t[i].address@ == na {
                assert(pre.has(na));
            }
        }
    }
    assert forall|k: int| 0 <= k < t.len() implies acct_wf(#[trigger] t[k]) by {
        if k < n {
            assert(t[k] == s[k]);
        }
    }
    assert(post.has(na)) by {
        assert(t[n].address@ == na);
    }
    post.lemma_idx_unique(n);
    assert forall|a: Seq<u8>| a != na implies #[trigger] post.has(a) == pre.has(a) by {
        if pre.has(a) {
            let w = pre.idx(a);
            assert(t[w].address@ == a);
            assert(post.has(a));
        }
        if post.has(a) {
            let w = post.idx(a);
            assert(0 <= w < t.len() && t[w].address@ == a);
            assert(w != n);
            assert(s[w].address@ == a);
            assert(pre.has(a));
        }
    }
    assert forall|a: Seq<u8>| a != na && pre.has(a) implies #[trigger] post.balance_of(a)
        == pre.balance_of(a) by {
        let wp = pre.idx(a);
        assert(s[wp].address@ == a);
        assert(t[wp] == s[wp]);
        post.lemma_idx_unique(wp);
        pre.lemma_idx_unique(wp);
    }
    assert forall|a: Seq<u8>| a != na && pre.has(a) implies #[trigger] post.record_of(a)
        == pre.record_of(a) by {
        let wp = pre.idx(a);
        assert(s[wp].address@ == a);
        assert(t[wp] == s[wp]);
        post.lemma_idx_unique(wp);
        pre.lemma_idx_unique(wp);
    }
}

} // verus!
