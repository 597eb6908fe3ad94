//! The token ledger as a state machine on plain values.
//!
//! A token is unminted, then held by one account after another, then
//! burnt; a burnt id is never minted again. Every accepted operation
//! appends one entry to the log, and the log only grows.

use crate::identity::{
    spec_account_transformer, spec_burn_account, Account, Principal, Subaccount,
};
use crate::idgen::mix;
use vstd::prelude::*;

verus! {

pub const DEFAULT_MAX_QUERY_BATCH_SIZE: u128 = 32;

pub const DEFAULT_MAX_UPDATE_BATCH_SIZE: u128 = 32;

pub const DEFAULT_TAKE_VALUE: u128 = 32;

pub const DEFAULT_MAX_TAKE_VALUE: u128 = 32;

pub const DEFAULT_MAX_MEMO_SIZE: u128 = 32;

/// The span, in nanoseconds, over which a repeated transfer is recognised:
/// 24 hours.
pub const DEFAULT_TX_WINDOW: u64 = 86_400_000_000_000;

/// How far, in nanoseconds, a caller's clock may differ from the
/// ledger's: 2 minutes.
pub const DEFAULT_PERMITTED_DRIFT: u64 = 120_000_000_000;

/// Why a whole batch was turned down.
#[derive(Clone, Copy, Debug, PartialEq, Eq, Structural)]
pub enum BatchRejection {
    AnonymousCaller,
    UnauthorizedCaller,
    EmptyBatch,
    BatchTooLarge,
}

#[derive(Clone, Copy, Debug, PartialEq, Eq, Structural)]
pub enum TransferError {
    NonExistingTokenId,
    InvalidRecipient,
    Unauthorized,
    TooOld,
    CreatedInFuture { ledger_time: u64 },
    Duplicate { duplicate_of: u128 },
    BatchRejected { reason: BatchRejection },
}

#[derive(Clone, Copy, Debug, PartialEq, Eq, Structural)]
pub enum MintError {
    SupplyCapReached,
    Unauthorized,
    TokenIdAlreadyExist,
    AlreadyHeld,
    MemoTooLong,
    AnonymousCaller,
    BatchRejected { reason: BatchRejection },
}

#[derive(Clone, Copy, Debug, PartialEq, Eq, Structural)]
pub enum BurnError {
    Unauthorized,
    NonExistingTokenId,
    MemoTooLong,
    BatchRejected { reason: BatchRejection },
}

/// Why a listing was turned down.
#[derive(Clone, Copy, Debug, PartialEq, Eq, Structural)]
pub enum QueryError {
    ExceedsMaxTakeValue,
    ExceedsMaxQueryBatchSize,
}

pub type TransferResult = Result<u128, TransferError>;

#[derive(Debug, PartialEq, Eq)]
pub struct TransferArg {
    pub from_subaccount: Option<Subaccount>,
    pub to: Account,
    pub token_id: u128,
    pub memo: Option<Vec<u8>>,
    pub created_at_time: Option<u64>,
}

#[derive(Debug, PartialEq, Eq)]
pub struct MintArg {
    pub from_subaccount: Option<Subaccount>,
    pub to: Account,
    pub token_id: Option<u128>,
    pub memo: Option<Vec<u8>>,
    pub token_name: Option<String>,
    pub token_description: Option<String>,
    pub token_logo: Option<String>,
}

#[derive(Debug, PartialEq, Eq)]
pub struct BurnArg {
    pub from_subaccount: Option<Subaccount>,
    pub token_id: u128,
    pub memo: Option<Vec<u8>>,
}

/// A token: its id, what is shown of it, and who holds it.
#[derive(Debug, PartialEq, Eq)]
pub struct Icrc7Token {
    pub id: u128,
    pub name: Option<String>,
    pub description: Option<String>,
    pub logo: Option<String>,
    pub owner: Account,
}

/// What an entry of the log records, with the accounts involved.
#[derive(Clone, Copy, Debug, PartialEq, Eq, Structural)]
pub enum TransactionType {
    Mint { tid: u128, from: Account, to: Account },
    Burn { tid: u128, from: Account, to: Account },
    Transfer { tid: u128, from: Account, to: Account },
}

/// An entry of the log.
#[derive(Debug, PartialEq, Eq)]
pub struct Transaction {
    pub ts: u64,
    pub txn_id: u128,
    pub txn_type: TransactionType,
    pub memo: Option<Vec<u8>>,
}

/// An entry of the log, with the memo as a sequence of bytes.
pub struct TransactionView {
    pub ts: u64,
    pub txn_id: u128,
    pub txn_type: TransactionType,
    pub memo: Option<Seq<u8>>,
}

/// A memo as a sequence of bytes.
pub open spec fn memo_view(memo: Option<Vec<u8>>) -> Option<Seq<u8>> {
    match memo {
        Some(bytes) => Some(bytes@),
        None => None,
    }
}

/// A memo is acceptable when it is absent or within the size limit.
pub open spec fn memo_fits(memo: Option<Seq<u8>>) -> bool {
    match memo {
        Some(bytes) => bytes.len() <= DEFAULT_MAX_MEMO_SIZE,
        None => true,
    }
}

impl View for Transaction {
    type V = TransactionView;

    open spec fn view(&self) -> TransactionView {
        TransactionView {
            ts: self.ts,
            txn_id: self.txn_id,
            txn_type: self.txn_type,
            memo: memo_view(self.memo),
        }
    }
}

/// Where a token id stands in its life.
pub enum TokenState {
    Unminted,
    Held(Account),
    Burned,
}

/// The account that `caller` acts from under `from_subaccount`.
pub open spec fn caller_account(caller: Principal, from_subaccount: Option<Subaccount>) -> Account {
    spec_account_transformer(Account { owner: caller, subaccount: from_subaccount })
}

/// The earliest creation time that a transfer made at `now` may carry.
pub open spec fn allowed_past_time(now: u64) -> u64 {
    if now >= DEFAULT_TX_WINDOW + DEFAULT_PERMITTED_DRIFT {
        (now - DEFAULT_TX_WINDOW - DEFAULT_PERMITTED_DRIFT) as u64
    } else {
        0
    }
}

/// The latest creation time that a transfer made at `now` may carry.
pub open spec fn allowed_future_time(now: u64) -> u64 {
    if now + DEFAULT_PERMITTED_DRIFT <= u64::MAX {
        (now + DEFAULT_PERMITTED_DRIFT) as u64
    } else {
        u64::MAX
    }
}

/// Whether the log entry `t` records the very transfer that `arg` asks
/// `from` for: the same token, accounts, memo and creation time.
pub open spec fn repeats(t: TransactionView, from: Account, arg: TransferArg) -> bool {
    &&& t.txn_type == (TransactionType::Transfer {
        tid: arg.token_id,
        from,
        to: spec_account_transformer(arg.to),
    })
    &&& t.memo == memo_view(arg.memo)
    &&& arg.created_at_time == Some(t.ts)
}

/// Walks the first `n` entries of the log from the newest to the oldest,
/// as long as an entry is not older than `lower`, and gives the id of the
/// first one that repeats the transfer.
pub open spec fn duplicate_of(
    log: Seq<TransactionView>,
    n: nat,
    lower: u64,
    from: Account,
    arg: TransferArg,
) -> Option<u128>
    decreases n,
{
    if n == 0 || n > log.len() {
        None
    } else {
        let t = log[n - 1];
        if t.ts < lower {
            None
        } else if repeats(t, from, arg) {
            Some(t.txn_id)
        } else {
            duplicate_of(log, (n - 1) as nat, lower, from, arg)
        }
    }
}

/// Why a batch of `n` requests is turned down as a whole, if it is.
pub open spec fn batch_rejection(caller: Principal, authorized: bool, n: nat) -> Option<
    BatchRejection,
> {
    if caller == Principal::spec_anonymous() {
        Some(BatchRejection::AnonymousCaller)
    } else if !authorized {
        Some(BatchRejection::UnauthorizedCaller)
    } else if n == 0 {
        Some(BatchRejection::EmptyBatch)
    } else if n > DEFAULT_MAX_UPDATE_BATCH_SIZE {
        Some(BatchRejection::BatchTooLarge)
    } else {
        None
    }
}

/// How many slots the answer to a rejected batch of `n` requests has: one
/// for each request, and one for an empty batch.
pub open spec fn rejected_slots(n: nat) -> nat {
    if n == 0 {
        1
    } else {
        n
    }
}

/// The ledger as plain values.
#[verifier::ext_equal]
pub struct LedgerModel {
    /// The tokens that are held, by id.
    pub tokens: Map<u128, Icrc7Token>,
    /// The ids of the tokens that were burnt.
    pub burned: Set<u128>,
    /// The log, oldest entry first.
    pub log: Seq<TransactionView>,
    /// The counter behind the ids that the ledger picks itself.
    pub counter: nat,
    /// The ledger's own identity, which owns the burn account.
    pub canister: Principal,
}

impl LedgerModel {
    pub open spec fn owner_of(self, id: u128) -> Option<Account> {
        if self.tokens.contains_key(id) {
            Some(self.tokens[id].owner)
        } else {
            None
        }
    }

    pub open spec fn state_of(self, id: u128) -> TokenState {
        if self.tokens.contains_key(id) {
            TokenState::Held(self.tokens[id].owner)
        } else if self.burned.contains(id) {
            TokenState::Burned
        } else {
            TokenState::Unminted
        }
    }

    /// The ids of the tokens that `account` holds.
    pub open spec fn tokens_of(self, account: Account) -> Set<u128> {
        Set::new(|id: u128| self.tokens.contains_key(id) && self.tokens[id].owner == account)
    }

    /// Whether `account` holds any token.
    pub open spec fn holds_any(self, account: Account) -> bool {
        exists|id: u128| self.tokens_of(account).contains(id)
    }

    /// Whether `id` was ever minted.
    pub open spec fn used(self, id: u128) -> bool {
        self.tokens.contains_key(id) || self.burned.contains(id)
    }

    /// The id that the next entry of the log gets.
    pub open spec fn next_txn_id(self) -> u128 {
        (self.log.len() + 1) as u128
    }

    /// The ledger with one more entry in its log.
    pub open spec fn append(self, txn_type: TransactionType, ts: u64, memo: Option<Seq<u8>>) -> Self {
        LedgerModel {
            log: self.log.push(TransactionView { ts, txn_id: self.next_txn_id(), txn_type, memo }),
            ..self
        }
    }

    /// The first counter value from `k` on whose id was never minted.
    pub open spec fn free_counter(self, k: nat) -> Option<nat>
        decreases u64::MAX + 1 - k,
    {
        if k > u64::MAX {
            None
        } else if !self.used(mix(k as u64) as u128) {
            Some(k)
        } else {
            self.free_counter(k + 1)
        }
    }

    /// Why a mint is turned down, if it is. The conditions are tested in
    /// this order: who asks, whether the receiver holds a token already,
    /// whether the id that the request names was ever minted, the memo, and
    /// last, for a request that names no id, whether the ledger has one left
    /// to give.
    pub open spec fn mint_error(self, caller: Principal, authorized: bool, arg: MintArg) -> Option<
        MintError,
    > {
        if caller == Principal::spec_anonymous() {
            Some(MintError::AnonymousCaller)
        } else if !authorized {
            Some(MintError::Unauthorized)
        } else if self.holds_any(spec_account_transformer(arg.to)) {
            Some(MintError::AlreadyHeld)
        } else if arg.token_id matches Some(id) && self.used(id) {
            Some(MintError::TokenIdAlreadyExist)
        } else if !memo_fits(memo_view(arg.memo)) {
            Some(MintError::MemoTooLong)
        } else if arg.token_id is None && self.free_counter(self.counter + 1) is None {
            Some(MintError::SupplyCapReached)
        } else {
            None
        }
    }

    /// The ledger after a mint that is not turned down.
    pub open spec fn minted(self, caller: Principal, now: u64, arg: MintArg) -> Self {
        let to = spec_account_transformer(arg.to);
        let from = caller_account(caller, arg.from_subaccount);
        let counter = match arg.token_id {
            Some(_) => self.counter,
            None => self.free_counter(self.counter + 1).unwrap(),
        };
        let id = match arg.token_id {
            Some(id) => id,
            None => mix(counter as u64) as u128,
        };
        let token = Icrc7Token {
            id,
            name: arg.token_name,
            description: arg.token_description,
            logo: arg.token_logo,
            owner: to,
        };
        LedgerModel { tokens: self.tokens.insert(id, token), counter, ..self }.append(
            TransactionType::Mint { tid: id, from, to },
            now,
            memo_view(arg.memo),
        )
    }

    /// A mint: the ledger afterwards, and the id of the entry that records
    /// it or the reason why nothing happened.
    pub open spec fn mint_step(self, caller: Principal, authorized: bool, now: u64, arg: MintArg) -> (
        Self,
        Result<u128, MintError>,
    ) {
        match self.mint_error(caller, authorized, arg) {
            Some(e) => (self, Err(e)),
            None => (self.minted(caller, now, arg), Ok(self.next_txn_id())),
        }
    }

    /// Why a transfer is turned down, if it is. The conditions are tested
    /// in this order.
    pub open spec fn transfer_error(self, from: Account, now: u64, arg: TransferArg) -> Option<
        TransferError,
    > {
        if !self.tokens.contains_key(arg.token_id) {
            Some(TransferError::NonExistingTokenId)
        } else if spec_account_transformer(arg.to) == from {
            Some(TransferError::InvalidRecipient)
        } else if self.tokens[arg.token_id].owner != from {
            Some(TransferError::Unauthorized)
        } else {
            match arg.created_at_time {
                Some(t) => if t < allowed_past_time(now) {
                    Some(TransferError::TooOld)
                } else if t > allowed_future_time(now) {
                    Some(TransferError::CreatedInFuture { ledger_time: now })
                } else {
                    match duplicate_of(self.log, self.log.len(), allowed_past_time(now), from, arg) {
                        Some(id) => Some(TransferError::Duplicate { duplicate_of: id }),
                        None => None,
                    }
                },
                None => None,
            }
        }
    }

    /// The ledger after a transfer that is not turned down.
    pub open spec fn transferred(self, from: Account, now: u64, arg: TransferArg) -> Self {
        let to = spec_account_transformer(arg.to);
        let token = Icrc7Token { owner: to, ..self.tokens[arg.token_id] };
        let ts = match arg.created_at_time {
            Some(t) => t,
            None => now,
        };
        LedgerModel { tokens: self.tokens.insert(arg.token_id, token), ..self }.append(
            TransactionType::Transfer { tid: arg.token_id, from, to },
            ts,
            memo_view(arg.memo),
        )
    }

    /// A transfer asked for by `caller`.
    pub open spec fn transfer_step(self, caller: Principal, now: u64, arg: TransferArg) -> (
        Self,
        Result<u128, TransferError>,
    ) {
        let from = caller_account(caller, arg.from_subaccount);
        match self.transfer_error(from, now, arg) {
            Some(e) => (self, Err(e)),
            None => (self.transferred(from, now, arg), Ok(self.next_txn_id())),
        }
    }

    /// Why a burn is turned down, if it is.
    pub open spec fn burn_error(self, from: Account, arg: BurnArg) -> Option<BurnError> {
        if !memo_fits(memo_view(arg.memo)) {
            Some(BurnError::MemoTooLong)
        } else if !self.tokens.contains_key(arg.token_id) {
            Some(BurnError::NonExistingTokenId)
        } else if self.tokens[arg.token_id].owner != from {
            Some(BurnError::Unauthorized)
        } else {
            None
        }
    }

    /// The ledger after a burn that is not turned down.
    pub open spec fn burnt(self, from: Account, now: u64, arg: BurnArg) -> Self {
        LedgerModel {
            tokens: self.tokens.remove(arg.token_id),
            burned: self.burned.insert(arg.token_id),
            ..self
        }.append(
            TransactionType::Burn { tid: arg.token_id, from, to: spec_burn_account(self.canister) },
            now,
            memo_view(arg.memo),
        )
    }

    /// A burn asked for by `caller`.
    pub open spec fn burn_step(self, caller: Principal, now: u64, arg: BurnArg) -> (
        Self,
        Result<u128, BurnError>,
    ) {
        let from = caller_account(caller, arg.from_subaccount);
        match self.burn_error(from, arg) {
            Some(e) => (self, Err(e)),
            None => (self.burnt(from, now, arg), Ok(self.next_txn_id())),
        }
    }

    /// The ledger after the first `n` transfers of a batch, one after the
    /// other.
    pub open spec fn after_transfers(self, caller: Principal, now: u64, args: Seq<TransferArg>, n: nat) -> Self
        decreases n,
    {
        if n == 0 || n > args.len() {
            self
        } else {
            self.after_transfers(caller, now, args, (n - 1) as nat).transfer_step(
                caller,
                now,
                args[n - 1],
            ).0
        }
    }

    /// The ledger after the first `n` burns of a batch, one after the
    /// other.
    pub open spec fn after_burns(self, caller: Principal, now: u64, args: Seq<BurnArg>, n: nat) -> Self
        decreases n,
    {
        if n == 0 || n > args.len() {
            self
        } else {
            self.after_burns(caller, now, args, (n - 1) as nat).burn_step(
                caller,
                now,
                args[n - 1],
            ).0
        }
    }

    /// The ledger after the first `n` mints of a batch, one after the
    /// other.
    pub open spec fn after_mints(self, caller: Principal, now: u64, args: Seq<MintArg>, n: nat) -> Self
        decreases n,
    {
        if n == 0 || n > args.len() {
            self
        } else {
            self.after_mints(caller, now, args, (n - 1) as nat).mint_step(
                caller,
                true,
                now,
                args[n - 1],
            ).0
        }
    }

    /// Ids are consistent, no id is both held and burnt, and the entries
    /// of the log are numbered from 1.
    pub open spec fn wf(self) -> bool {
        &&& self.tokens.dom().finite()
        &&& forall|id: u128| #[trigger] self.tokens.contains_key(id) ==> self.tokens[id].id == id
        &&& forall|id: u128| #[trigger] self.burned.contains(id) ==> !self.tokens.contains_key(id)
        &&& self.log.len() <= usize::MAX
        &&& self.counter <= u64::MAX
        &&& forall|i: int| 0 <= i < self.log.len() ==> (#[trigger] self.log[i]).txn_id == i + 1
    }
}

} // verus!
