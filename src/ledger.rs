use vstd::prelude::*;
use vstd::slice::slice_subrange;

use crate::bytes::{to_fixed_slice, zero_padded};
use crate::codec::{decode_request, is_valid_payload, payload_value};
use crate::log_store::{lemma_log_bytes_injective, log_bytes};
use crate::record::{
    ClientState, Transaction, CREDIT, DEBIT, is_valid_request, within_limit,
};

verus! {

broadcast use vstd::array::group_array_axioms;

/// Number of accounts; their ids run from 1 to `ACCOUNTS`.
pub const ACCOUNTS: usize = 5;

/// Why a request changed nothing.
#[derive(Clone, Copy, Debug, PartialEq, Eq)]
pub enum Rejection {
    /// The account id lies outside the fixed range.
    InvalidAccount,
    /// The payload has the wrong width, an unknown operation, a value that is
    /// not positive or an empty description.
    MalformedPayload,
    /// A debit would take the balance below the negated credit limit.
    OverdraftRejected,
    /// The new balance would not fit the signed 32-bit balance field.
    BalanceOverflow,
}

/// What the dispatcher decided for one datagram.
#[derive(Clone, Copy, Debug, PartialEq, Eq)]
pub enum Decision {
    /// Reply with an empty datagram; no state changes.
    Rejected(Rejection),
    /// Append `record` to the log of account index `account`, commit it to
    /// the cache, then reply with the new limit and balance.
    Accepted { account: usize, record: Transaction },
    /// Reply with the tail of the log of account index `account`.
    Statement { account: usize },
}

/// An account id that names one of the fixed accounts.
pub open spec fn is_account_id(id: u8) -> bool {
    1 <= id <= ACCOUNTS
}

/// The credit limits that the accounts are seeded with, by account index.
pub open spec fn spec_initial_limits() -> Seq<u32> {
    seq![100000u32, 80000u32, 1000000u32, 10000000u32, 500000u32]
}

/// The synthetic first record of an account seeded with `limit`.
pub open spec fn is_genesis(t: Transaction, limit: u32, timestamp: u64) -> bool {
    &&& t.limit == limit
    &&& t.balance == 0
    &&& t.value == 0
    &&& t.operation == CREDIT
    &&& t.description@ == zero_padded(seq![105u8, 110u8, 105u8, 116u8], 10)
    &&& t.timestamp == timestamp
}

/// The balance after applying operation `kind` of `value` to `s`.
pub open spec fn new_balance(s: ClientState, kind: u8, value: i32) -> int {
    if kind == CREDIT {
        s.balance + value
    } else {
        s.balance - value
    }
}

pub open spec fn fits_i32(v: int) -> bool {
    i32::MIN <= v <= i32::MAX
}

/// `t` is a record that may follow an account standing at `s`.
pub open spec fn is_successor(s: ClientState, t: Transaction) -> bool {
    &&& t.limit == s.limit
    &&& is_valid_request(t.operation, t.value, t.description@)
    &&& t.balance == new_balance(s, t.operation, t.value)
    &&& within_limit(t.limit, t.balance as int)
}

/// The cache entry that a record leaves behind.
pub open spec fn state_after(t: Transaction) -> ClientState {
    ClientState { limit: t.limit, balance: t.balance }
}

/// Limit and balance obtained by replaying a log from its genesis record:
/// the genesis record sets both, each later record credits or debits its value.
pub open spec fn replay(log: Seq<Transaction>) -> (int, int)
    decreases log.len(),
{
    if log.len() == 0 {
        (0, 0)
    } else if log.len() == 1 {
        (log[0].limit as int, log[0].balance as int)
    } else {
        let (limit, balance) = replay(log.drop_last());
        let t = log.last();
        if t.operation == CREDIT {
            (limit, balance + t.value)
        } else {
            (limit, balance - t.value)
        }
    }
}

/// `r` is the decision owed for datagram `d` while the accounts stand at `states`.
pub open spec fn decided(states: Seq<ClientState>, d: Seq<u8>, now: u64, r: Decision) -> bool {
    if d.len() == 0 || !is_account_id(d[0]) {
        r == Decision::Rejected(Rejection::InvalidAccount)
    } else if d.len() == 1 {
        r == Decision::Statement { account: (d[0] - 1) as usize }
    } else {
        let p = d.drop_first();
        let s = states[d[0] - 1];
        let balance = new_balance(s, p[0], payload_value(p));
        if !is_valid_payload(p) {
            r == Decision::Rejected(Rejection::MalformedPayload)
        } else if !within_limit(s.limit, balance) {
            r == Decision::Rejected(Rejection::OverdraftRejected)
        } else if !fits_i32(balance) {
            r == Decision::Rejected(Rejection::BalanceOverflow)
        } else {
            &&& r matches Decision::Accepted { account, record }
            &&& account == d[0] - 1
            &&& record.limit == s.limit
            &&& record.balance == balance
            &&& record.value == payload_value(p)
            &&& record.operation == p[0]
            &&& record.description@ == p.subrange(5, 15)
            &&& record.timestamp == now
        }
    }
}

/// The in-memory account cache, kept in lockstep with each account's log.
pub struct Ledger {
    accounts: [ClientState; 5],
    logs: Ghost<Seq<Seq<Transaction>>>,
}

impl Ledger {
    /// The cache entries, by account index.
    pub closed spec fn states(&self) -> Seq<ClientState> {
        self.accounts@
    }

    /// The records appended to each account's log, oldest first.
    pub closed spec fn logs(&self) -> Seq<Seq<Transaction>> {
        self.logs@
    }

    /// Every account is within its limit, equals the state that the last
    /// record of its log leaves behind, and equals the replay of its log.
    pub closed spec fn wf(&self) -> bool {
        &&& self.accounts@.len() == ACCOUNTS
        &&& self.logs@.len() == ACCOUNTS
        &&& forall|i: int|
            0 <= i < ACCOUNTS ==> {
                &&& #[trigger] self.logs@[i].len() >= 1
                &&& self.accounts@[i].is_within_limit()
                &&& state_after(self.logs@[i].last()) == self.accounts@[i]
                &&& replay(self.logs@[i]) == (
                    self.accounts@[i].limit as int,
                    self.accounts@[i].balance as int,
                )
            }
    }

    #[verifier::type_invariant]
    spec fn inv(self) -> bool {
        self.wf()
    }

    /// The credit limits that `prepare` seeds the accounts with.
    pub fn initial_limits() -> (r: [u32; 5])
        ensures
            r@ == spec_initial_limits(),
    {
        let r: [u32; 5] = [100000u32, 80000u32, 1000000u32, 10000000u32, 500000u32];
        assert(r@ =~= spec_initial_limits());
        r
    }

    /// The genesis record of an account seeded with `limit`: that limit, a
    /// zero balance and the description `init`.
    pub fn genesis_record(limit: u32, timestamp: u64) -> (r: Transaction)
        ensures
            is_genesis(r, limit, timestamp),
    {
        let text: [u8; 4] = [105u8, 110u8, 105u8, 116u8];
        let description = to_fixed_slice(&text);
        assert(text@ =~= seq![105u8, 110u8, 105u8, 116u8]);
        Transaction { limit, balance: 0, value: 0, operation: CREDIT, description, timestamp }
    }

    /// Seeds every account with the credit limit given for it by account
    /// index: the cache holds that limit with a zero balance, and each log
    /// holds only the genesis record that is returned for it.
    pub fn with_limits(limits: [u32; 5], timestamp: u64) -> (r: (Ledger, Vec<Transaction>))
        ensures
            r.0.wf(),
            r.0.states().len() == ACCOUNTS,
            r.0.logs().len() == ACCOUNTS,
            r.1@.len() == ACCOUNTS,
            forall|i: int|
                #![trigger r.1@[i]]
                #![trigger r.0.states()[i]]
                #![trigger r.0.logs()[i]]
                0 <= i < ACCOUNTS ==> {
                    &&& is_genesis(r.1@[i], limits@[i], timestamp)
                    &&& r.0.logs()[i] == seq![r.1@[i]]
                    &&& r.0.states()[i] == ClientState { limit: limits@[i], balance: 0 }
                },
    {
        let mut genesis: Vec<Transaction> = Vec::new();
        let mut accounts = [ClientState { limit: 0, balance: 0 }; 5];
        let mut i: usize = 0;
        while i < ACCOUNTS
            invariant
                0 <= i <= ACCOUNTS,
                genesis@.len() == i,
                accounts@.len() == ACCOUNTS,
                limits@.len() == ACCOUNTS,
                forall|j: int|
                    0 <= j < i ==> {
                        &&& is_genesis(#[trigger] genesis@[j], limits@[j], timestamp)
                        &&& accounts@[j] == ClientState { limit: limits@[j], balance: 0 }
                    },
            decreases ACCOUNTS - i,
        {
            let t = Ledger::genesis_record(limits[i], timestamp);
            let ghost before_accounts = accounts@;
            let ghost before_genesis = genesis@;
            accounts[i] = ClientState { limit: t.limit, balance: t.balance };
            genesis.push(t);
            assert forall|j: int| 0 <= j <= i implies {
                &&& is_genesis(#[trigger] genesis@[j], limits@[j], timestamp)
                &&& accounts@[j] == ClientState { limit: limits@[j], balance: 0 }
            } by {
                if j < i {
                    assert(genesis@[j] == before_genesis[j]);
                    assert(accounts@[j] == before_accounts[j]);
                }
            }
            i = i + 1;
        }
        let logs = Ghost(Seq::new(5, |j: int| seq![genesis@[j]]));
        assert forall|j: int| 0 <= j < ACCOUNTS implies {
            &&& #[trigger] logs@[j].len() >= 1
            &&& accounts@[j].is_within_limit()
            &&& state_after(logs@[j].last()) == accounts@[j]
            &&& replay(logs@[j]) == (accounts@[j].limit as int, accounts@[j].balance as int)
        } by {
            assert(is_genesis(genesis@[j], limits@[j], timestamp));
            assert(logs@[j].len() == 1);
        }
        let ledger = Ledger { accounts, logs };
        (ledger, genesis)
    }

    /// Seeds every account with its configured credit limit; see `with_limits`.
    pub fn prepare(timestamp: u64) -> (r: (Ledger, Vec<Transaction>))
        ensures
            r.0.wf(),
            r.0.states().len() == ACCOUNTS,
            r.0.logs().len() == ACCOUNTS,
            r.1@.len() == ACCOUNTS,
            forall|i: int|
                #![trigger r.1@[i]]
                #![trigger r.0.states()[i]]
                #![trigger r.0.logs()[i]]
                0 <= i < ACCOUNTS ==> {
                    &&& is_genesis(r.1@[i], spec_initial_limits()[i], timestamp)
                    &&& r.0.logs()[i] == seq![r.1@[i]]
                    &&& r.0.states()[i] == ClientState {
                        limit: spec_initial_limits()[i],
                        balance: 0,
                    }
                },
    {
        Ledger::with_limits(Ledger::initial_limits(), timestamp)
    }

    /// The cache entry of account index `account`.
    pub fn state(&self, account: usize) -> (r: ClientState)
        requires
            account < ACCOUNTS,
        ensures
            r == self.states()[account as int],
            r.is_within_limit(),
            self.states().len() == ACCOUNTS,
            self.logs().len() == ACCOUNTS,
    {
        proof {
            use_type_invariant(self);
            assert(self.logs@[account as int].len() >= 1);
        }
        self.accounts[account]
    }

    /// Decides what one datagram asks for: the first byte names the account,
    /// a datagram of that byte alone asks for a statement, a longer one
    /// carries a transaction. Nothing changes here; an accepted record takes
    /// effect through `commit`.
    pub fn decide(&self, d: &[u8], now: u64) -> (r: Decision)
        ensures
            self.states().len() == ACCOUNTS,
            self.logs().len() == ACCOUNTS,
            decided(self.states(), d@, now, r),
            r matches Decision::Accepted { account, record } ==> account < ACCOUNTS
                && is_successor(self.states()[account as int], record),
    {
        proof {
            use_type_invariant(self);
        }
        if d.len() == 0 || d[0] < 1 || d[0] as usize > ACCOUNTS {
            return Decision::Rejected(Rejection::InvalidAccount);
        }
        let account = (d[0] - 1) as usize;
        if d.len() == 1 {
            return Decision::Statement { account };
        }
        let payload = slice_subrange(d, 1, d.len());
        assert(payload@ =~= d@.drop_first());
        let request = match decode_request(payload) {
            Some(request) => request,
            None => {
                return Decision::Rejected(Rejection::MalformedPayload);
            },
        };
        let s = self.accounts[account];
        let balance: i64 = if request.kind == CREDIT {
            s.balance as i64 + request.value as i64
        } else {
            s.balance as i64 - request.value as i64
        };
        if balance < -(s.limit as i64) {
            Decision::Rejected(Rejection::OverdraftRejected)
        } else if balance > i32::MAX as i64 || balance < i32::MIN as i64 {
            Decision::Rejected(Rejection::BalanceOverflow)
        } else {
            let record = request.to_transaction(s.limit, balance as i32, now);
            Decision::Accepted { account, record }
        }
    }

    /// Applies `record` to account index `account` where it is a valid
    /// successor of the account's state: the cache takes the record's limit
    /// and balance and the record joins the account's log. Otherwise nothing
    /// changes and the result is `false`.
    pub fn commit(&mut self, account: usize, record: &Transaction) -> (r: bool)
        ensures
            r == (account < ACCOUNTS && is_successor(old(self).states()[account as int], *record)),
            final(self).wf(),
            final(self).states().len() == ACCOUNTS,
            final(self).logs().len() == ACCOUNTS,
            r ==> final(self).states() == old(self).states().update(
                account as int,
                state_after(*record),
            ),
            r ==> final(self).logs() == old(self).logs().update(
                account as int,
                old(self).logs()[account as int].push(*record),
            ),
            !r ==> final(self).states() == old(self).states(),
            !r ==> final(self).logs() == old(self).logs(),
    {
        proof {
            use_type_invariant(&*self);
        }
        if account >= ACCOUNTS {
            return false;
        }
        let s = self.accounts[account];
        if record.limit != s.limit || !(record.operation == CREDIT || record.operation == DEBIT)
            || record.value <= 0 || record.description[0] == 0 {
            return false;
        }
        let balance: i64 = if record.operation == CREDIT {
            s.balance as i64 + record.value as i64
        } else {
            s.balance as i64 - record.value as i64
        };
        if record.balance as i64 != balance || balance < -(s.limit as i64) {
            return false;
        }
        let mut accounts = self.accounts;
        accounts[account] = ClientState { limit: record.limit, balance: record.balance };
        let ghost old_log = self.logs@[account as int];
        let ghost logs = self.logs@.update(account as int, old_log.push(*record));
        proof {
            assert(old_log.push(*record).drop_last() =~= old_log);
            assert forall|i: int| 0 <= i < ACCOUNTS implies {
                &&& #[trigger] logs[i].len() >= 1
                &&& accounts@[i].is_within_limit()
                &&& state_after(logs[i].last()) == accounts@[i]
                &&& replay(logs[i]) == (accounts@[i].limit as int, accounts@[i].balance as int)
            } by {
                if i != account {
                    assert(logs[i] == self.logs@[i]);
                    assert(self.logs@[i].len() >= 1);
                }
            }
        }
        *self = Ledger { accounts, logs: Ghost(logs) };
        proof {
            use_type_invariant(&*self);
        }
        true
    }
}

/// Every account of a ledger is within its credit limit.
pub proof fn lemma_balance_within_limit(ledger: Ledger, i: int)
    requires
        ledger.wf(),
        0 <= i < ACCOUNTS,
    ensures
        ledger.states()[i].is_within_limit(),
{
    assert(ledger.logs@[i].len() >= 1);
}

/// Replaying an account's log from its genesis record gives exactly the
/// limit and balance that the cache holds for it.
pub proof fn lemma_replay_matches_cache(ledger: Ledger, i: int)
    requires
        ledger.wf(),
        0 <= i < ACCOUNTS,
    ensures
        replay(ledger.logs()[i]) == (
            ledger.states()[i].limit as int,
            ledger.states()[i].balance as int,
        ),
{
    assert(ledger.logs@[i].len() >= 1);
}

/// The cache entry of every account is the limit and balance recorded in
/// the last record of its log.
pub proof fn lemma_cache_matches_log_tail(ledger: Ledger, i: int)
    requires
        ledger.wf(),
        0 <= i < ACCOUNTS,
    ensures
        ledger.logs()[i].len() >= 1,
        state_after(ledger.logs()[i].last()) == ledger.states()[i],
{
    assert(ledger.logs@[i].len() >= 1);
}

/// Replaying the records decoded from an account's log bytes gives exactly
/// the limit and balance that the cache holds for it.
pub proof fn lemma_replay_of_log_bytes(ledger: Ledger, i: int, decoded: Seq<Transaction>)
    requires
        ledger.wf(),
        0 <= i < ACCOUNTS,
        log_bytes(decoded) == log_bytes(ledger.logs()[i]),
    ensures
        replay(decoded) == (ledger.states()[i].limit as int, ledger.states()[i].balance as int),
{
    lemma_log_bytes_injective(decoded, ledger.logs()[i]);
    lemma_replay_matches_cache(ledger, i);
}

/// Of two debits on one account that each fit the limit alone but overdraw
/// it together, handled one after the other, the first is accepted and the
/// second is rejected as an overdraft.
pub proof fn lemma_no_double_spend(
    states: Seq<ClientState>,
    d1: Seq<u8>,
    d2: Seq<u8>,
    now1: u64,
    now2: u64,
    first: Decision,
    second: Decision,
)
    requires
        states.len() == ACCOUNTS,
        d1.len() > 1,
        d2.len() > 1,
        d1[0] == d2[0],
        is_account_id(d1[0]),
        is_valid_payload(d1.drop_first()),
        is_valid_payload(d2.drop_first()),
        d1[1] == DEBIT,
        d2[1] == DEBIT,
        ({
            let s = states[d1[0] - 1];
            let v1 = payload_value(d1.drop_first());
            let v2 = payload_value(d2.drop_first());
            &&& within_limit(s.limit, s.balance - v1)
            &&& fits_i32(s.balance - v1)
            &&& !within_limit(s.limit, s.balance - v1 - v2)
        }),
        decided(states, d1, now1, first),
        first matches Decision::Accepted { account, record } ==> decided(
            states.update(account as int, state_after(record)),
            d2,
            now2,
            second,
        ),
    ensures
        first is Accepted,
        second == Decision::Rejected(Rejection::OverdraftRejected),
{
    assert(d1.drop_first()[0] == DEBIT);
    assert(d2.drop_first()[0] == DEBIT);
}

} // verus!
