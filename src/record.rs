use vstd::prelude::*;

verus! {

/// Width in bytes of one encoded transaction record.
pub const TRANSACTION_SIZE: u8 = 31;

/// Width in bytes of the description field.
pub const DESCRIPTION_SIZE: usize = 10;

/// Operation symbol of a credit.
pub const CREDIT: u8 = 99;

/// Operation symbol of a debit.
pub const DEBIT: u8 = 100;

/// One accepted transaction as it is kept in an account's log.
///
/// `limit` and `balance` are the account's state after the transaction.
#[derive(Clone, Copy, Debug, PartialEq, Eq)]
pub struct Transaction {
    pub limit: u32,
    pub balance: i32,
    pub value: i32,
    pub operation: u8,
    pub description: [u8; 10],
    pub timestamp: u64,
}

/// A transaction request as a client states it, before validation.
#[derive(Clone, Copy, Debug, PartialEq, Eq)]
pub struct IncomingTransaction {
    pub kind: u8,
    pub value: i32,
    pub description: [u8; 10],
}

/// A transaction request that passed validation: a known operation, a
/// positive value and a non-empty description.
#[derive(Clone, Copy, Debug, PartialEq, Eq)]
pub struct NewTransaction {
    pub kind: u8,
    pub value: i32,
    pub description: [u8; 10],
}

/// The reply to an accepted transaction: the account's new limit and balance.
#[derive(Clone, Copy, Debug, PartialEq, Eq)]
pub struct SuccessfulTransaction {
    pub limit: u32,
    pub balance: i32,
}

/// The cached state of one account.
#[derive(Clone, Copy, Debug, PartialEq, Eq)]
pub struct ClientState {
    pub limit: u32,
    pub balance: i32,
}

/// A known operation symbol.
pub open spec fn is_operation(kind: u8) -> bool {
    kind == CREDIT || kind == DEBIT
}

/// A description field holds at least one byte of text.
pub open spec fn is_description(d: Seq<u8>) -> bool {
    d.len() == DESCRIPTION_SIZE && d[0] != 0u8
}

/// What a request must satisfy before it may touch any account.
pub open spec fn is_valid_request(kind: u8, value: i32, description: Seq<u8>) -> bool {
    is_operation(kind) && value > 0 && is_description(description)
}

/// The overdraft rule: a balance never falls below the negated credit limit.
pub open spec fn within_limit(limit: u32, balance: int) -> bool {
    balance >= -(limit as int)
}

impl ClientState {
    pub open spec fn is_within_limit(self) -> bool {
        within_limit(self.limit, self.balance as int)
    }
}

impl From<(u32, i32)> for ClientState {
    fn from(parts: (u32, i32)) -> (r: ClientState)
        ensures
            r == (ClientState { limit: parts.0, balance: parts.1 }),
    {
        ClientState { limit: parts.0, balance: parts.1 }
    }
}

impl vstd::std_specs::convert::FromSpecImpl<(u32, i32)> for ClientState {
    open spec fn obeys_from_spec() -> bool {
        true
    }

    open spec fn from_spec(parts: (u32, i32)) -> ClientState {
        ClientState { limit: parts.0, balance: parts.1 }
    }
}

impl NewTransaction {
    /// The record of this request once accepted, with the account's new
    /// `limit` and `balance` and the time of acceptance.
    pub fn to_transaction(&self, limit: u32, balance: i32, timestamp: u64) -> (r: Transaction)
        ensures
            r == (Transaction {
                limit,
                balance,
                value: self.value,
                operation: self.kind,
                description: self.description,
                timestamp,
            }),
    {
        Transaction {
            limit,
            balance,
            value: self.value,
            operation: self.kind,
            description: self.description,
            timestamp,
        }
    }
}

impl SuccessfulTransaction {
    /// The reply for an accepted record: its post-transaction limit and balance.
    pub fn from_transaction(transaction: &Transaction) -> (r: SuccessfulTransaction)
        ensures
            r.limit == transaction.limit,
            r.balance == transaction.balance,
    {
        SuccessfulTransaction { limit: transaction.limit, balance: transaction.balance }
    }

    /// The cache entry that this reply describes.
    pub fn to_client_state(&self) -> (r: ClientState)
        ensures
            r.limit == self.limit,
            r.balance == self.balance,
    {
        ClientState { limit: self.limit, balance: self.balance }
    }
}

} // verus!
