//! The token ledger: mint, transfer and burn, the check for repeated
//! transfers, and the append-only log.

use crate::identity::{account_transformer, burn_account, Account, Principal};
use crate::idgen::mix_word;
use crate::ledger_model::{
    memo_fits, memo_view, BatchRejection, BurnArg, BurnError, Icrc7Token, LedgerModel, MintArg,
    MintError, TransactionType, TransactionView, Transaction, TransferArg, TransferError,
    TransferResult, allowed_past_time, batch_rejection, duplicate_of, rejected_slots, repeats,
    DEFAULT_PERMITTED_DRIFT, DEFAULT_TX_WINDOW,
};
use crate::ordered::map_keys_wide;
use std::collections::BTreeMap;
use std::collections::BTreeSet;
use vstd::prelude::*;

verus! {

/// The log with each memo as a sequence of bytes.
pub open spec fn log_view(log: Seq<Transaction>) -> Seq<TransactionView> {
    log.map_values(|t: Transaction| t@)
}

/// A copy of `bytes`.
pub fn copy_bytes(bytes: &Vec<u8>) -> (r: Vec<u8>)
    ensures
        r@ == bytes@,
{
    let mut r: Vec<u8> = Vec::new();
    let mut i: usize = 0;
    while i < bytes.len()
        invariant
            i <= bytes.len(),
            r@ == bytes@.take(i as int),
        decreases bytes.len() - i,
    {
        r.push(bytes[i]);
        assert(bytes@.take(i + 1) =~= bytes@.take(i as int).push(bytes@[i as int]));
        i = i + 1;
    }
    assert(bytes@.take(bytes@.len() as int) =~= bytes@);
    r
}

/// A copy of `memo`.
pub fn copy_memo(memo: &Option<Vec<u8>>) -> (r: Option<Vec<u8>>)
    ensures
        memo_view(r) == memo_view(*memo),
{
    match memo {
        Some(bytes) => Some(copy_bytes(bytes)),
        None => None,
    }
}

/// A copy of an optional text.
pub fn copy_text(text: &Option<String>) -> (r: Option<String>)
    ensures
        r == *text,
{
    match text {
        Some(s) => Some(s.clone()),
        None => None,
    }
}

/// Whether two byte strings are the same.
pub fn same_bytes(a: &Vec<u8>, b: &Vec<u8>) -> (r: bool)
    ensures
        r == (a@ == b@),
{
    if a.len() != b.len() {
        return false;
    }
    let mut i: usize = 0;
    while i < a.len()
        invariant
            i <= a.len(),
            a.len() == b.len(),
            forall|j: int| 0 <= j < i ==> a@[j] == b@[j],
        decreases a.len() - i,
    {
        if a[i] != b[i] {
            return false;
        }
        i = i + 1;
    }
    assert(a@ =~= b@);
    true
}

/// Whether two memos are the same.
pub fn same_memo(a: &Option<Vec<u8>>, b: &Option<Vec<u8>>) -> (r: bool)
    ensures
        r == (memo_view(*a) == memo_view(*b)),
{
    match a {
        Some(x) => match b {
            Some(y) => same_bytes(x, y),
            None => false,
        },
        None => b.is_none(),
    }
}

/// Whether a memo is absent or within the size limit.
pub fn memo_within_limit(memo: &Option<Vec<u8>>) -> (r: bool)
    ensures
        r == memo_fits(memo_view(*memo)),
{
    match memo {
        Some(bytes) => bytes.len() <= 32,
        None => true,
    }
}

impl Clone for TransferArg {
    fn clone(&self) -> (r: Self)
        ensures
            r.from_subaccount == self.from_subaccount,
            r.to == self.to,
            r.token_id == self.token_id,
            memo_view(r.memo) == memo_view(self.memo),
            r.created_at_time == self.created_at_time,
    {
        TransferArg {
            from_subaccount: self.from_subaccount,
            to: self.to,
            token_id: self.token_id,
            memo: copy_memo(&self.memo),
            created_at_time: self.created_at_time,
        }
    }
}

impl Clone for MintArg {
    fn clone(&self) -> (r: Self)
        ensures
            r.from_subaccount == self.from_subaccount,
            r.to == self.to,
            r.token_id == self.token_id,
            memo_view(r.memo) == memo_view(self.memo),
            r.token_name == self.token_name,
            r.token_description == self.token_description,
            r.token_logo == self.token_logo,
    {
        MintArg {
            from_subaccount: self.from_subaccount,
            to: self.to,
            token_id: self.token_id,
            memo: copy_memo(&self.memo),
            token_name: copy_text(&self.token_name),
            token_description: copy_text(&self.token_description),
            token_logo: copy_text(&self.token_logo),
        }
    }
}

impl Clone for BurnArg {
    fn clone(&self) -> (r: Self)
        ensures
            r.from_subaccount == self.from_subaccount,
            r.token_id == self.token_id,
            memo_view(r.memo) == memo_view(self.memo),
    {
        BurnArg {
            from_subaccount: self.from_subaccount,
            token_id: self.token_id,
            memo: copy_memo(&self.memo),
        }
    }
}

impl Clone for Icrc7Token {
    fn clone(&self) -> (r: Self)
        ensures
            r == *self,
    {
        Icrc7Token {
            id: self.id,
            name: copy_text(&self.name),
            description: copy_text(&self.description),
            logo: copy_text(&self.logo),
            owner: self.owner,
        }
    }
}

impl Clone for Transaction {
    fn clone(&self) -> (r: Self)
        ensures
            r@ == self@,
    {
        Transaction {
            ts: self.ts,
            txn_id: self.txn_id,
            txn_type: self.txn_type,
            memo: copy_memo(&self.memo),
        }
    }
}

impl Transaction {
    pub fn new(txn_id: u128, txn_type: TransactionType, ts: u64, memo: Option<Vec<u8>>) -> (t:
        Transaction)
        ensures
            t@ == (TransactionView { ts, txn_id, txn_type, memo: memo_view(memo) }),
    {
        Transaction { ts, txn_id, txn_type, memo }
    }

    /// The short name of the operation that the entry records.
    pub fn op(&self) -> (name: &'static str)
        ensures
            name@ == (match self.txn_type {
                TransactionType::Transfer { .. } => "7xfer"@,
                TransactionType::Mint { .. } => "7mint"@,
                TransactionType::Burn { .. } => "7burn"@,
            }),
    {
        match self.txn_type {
            TransactionType::Transfer { .. } => "7xfer",
            TransactionType::Mint { .. } => "7mint",
            TransactionType::Burn { .. } => "7burn",
        }
    }
}

/// `n` copies of `value`.
pub fn repeat<T: Copy>(n: usize, value: T) -> (v: Vec<T>)
    ensures
        v@.len() == n,
        forall|i: int| 0 <= i < n ==> v@[i] == value,
{
    let mut v: Vec<T> = Vec::new();
    let mut i: usize = 0;
    while i < n
        invariant
            i <= n,
            v@.len() == i,
            forall|j: int| 0 <= j < i ==> v@[j] == value,
        decreases n - i,
    {
        v.push(value);
        i = i + 1;
    }
    v
}

/// Tests the conditions under which a batch of `n` requests is turned down
/// as a whole.
pub fn batch_check(caller: &Principal, authorized: bool, n: usize) -> (r: Option<BatchRejection>)
    ensures
        r == batch_rejection(*caller, authorized, n as nat),
{
    if caller.is_anonymous() {
        Some(BatchRejection::AnonymousCaller)
    } else if !authorized {
        Some(BatchRejection::UnauthorizedCaller)
    } else if n == 0 {
        Some(BatchRejection::EmptyBatch)
    } else if n > 32 {
        Some(BatchRejection::BatchTooLarge)
    } else {
        None
    }
}

/// How many slots the answer to a rejected batch of `n` requests has.
pub fn slots_of_rejected(n: usize) -> (r: usize)
    ensures
        r == rejected_slots(n as nat),
{
    if n == 0 {
        1
    } else {
        n
    }
}

pub struct Ledger {
    tokens: BTreeMap<u128, Icrc7Token>,
    burned: BTreeSet<u128>,
    txn_log: Vec<Transaction>,
    counter: u64,
    canister: Principal,
}

impl View for Ledger {
    type V = LedgerModel;

    closed spec fn view(&self) -> LedgerModel {
        LedgerModel {
            tokens: self.tokens@,
            burned: self.burned@,
            log: log_view(self.txn_log@),
            counter: self.counter as nat,
            canister: self.canister,
        }
    }
}

/// Appends an entry to the log and returns its id.
pub fn log_transaction(
    ledger: &mut Ledger,
    txn_type: TransactionType,
    ts: u64,
    memo: Option<Vec<u8>>,
) -> (txn_id: u128)
    requires
        old(ledger)@.wf(),
    ensures
        final(ledger)@.wf(),
        final(ledger)@ == old(ledger)@.append(txn_type, ts, memo_view(memo)),
        txn_id == old(ledger)@.next_txn_id(),
{
    let txn_id = (ledger.txn_log.len() as u128) + 1;
    let txn = Transaction::new(txn_id, txn_type, ts, memo);
    let ghost entry = txn@;
    ledger.txn_log.push(txn);
    let count = ledger.txn_log.len();
    proof {
        assert(ledger@.log =~= old(ledger)@.log.push(entry));
        assert(ledger@.log.len() == count);
        assert forall|i: int| 0 <= i < ledger@.log.len() implies (#[trigger] ledger@.log[i]).txn_id
            == i + 1 by {
            if i < old(ledger)@.log.len() {
                assert(ledger@.log[i] == old(ledger)@.log[i]);
            }
        }
        assert(ledger@ =~= old(ledger)@.append(txn_type, ts, memo_view(memo)));
    }
    txn_id
}

impl Ledger {
    pub open spec fn wf(&self) -> bool {
        self@.wf()
    }

    /// The ledger without tokens and with an empty log, owned by
    /// `canister`.
    pub open spec fn spec_empty(canister: Principal) -> LedgerModel {
        LedgerModel {
            tokens: Map::<u128, Icrc7Token>::empty(),
            burned: Set::<u128>::empty(),
            log: Seq::<TransactionView>::empty(),
            counter: 0,
            canister,
        }
    }

    /// A ledger without tokens and with an empty log, owned by `canister`.
    pub fn new(canister: Principal) -> (ledger: Ledger)
        ensures
            ledger.wf(),
            ledger@ == Self::spec_empty(canister),
    {
        let ledger = Ledger {
            tokens: BTreeMap::new(),
            burned: BTreeSet::new(),
            txn_log: Vec::new(),
            counter: 0,
            canister,
        };
        assert(ledger@.log =~= Seq::<TransactionView>::empty());
        assert(ledger@ =~= Self::spec_empty(canister));
        ledger
    }

    /// An empty ledger owned by `canister` whose counter for the ids that
    /// it picks itself stands at `counter`.
    pub fn resume(canister: Principal, counter: u64) -> (ledger: Ledger)
        ensures
            ledger.wf(),
            ledger@ == (LedgerModel { counter: counter as nat, ..Self::spec_empty(canister) }),
    {
        let ledger = Ledger {
            tokens: BTreeMap::new(),
            burned: BTreeSet::new(),
            txn_log: Vec::new(),
            counter,
            canister,
        };
        assert(ledger@.log =~= Seq::<TransactionView>::empty());
        assert(ledger@ =~= (LedgerModel {
            counter: counter as nat,
            ..Self::spec_empty(canister)
        }));
        ledger
    }

    /// The ledger's own identity.
    pub fn canister(&self) -> (p: Principal)
        ensures
            p == self@.canister,
    {
        self.canister
    }

    /// The log, oldest entry first.
    pub fn transactions(&self) -> (log: &Vec<Transaction>)
        ensures
            log_view(log@) == self@.log,
    {
        &self.txn_log
    }

    /// The token with the given id, if it is held.
    pub fn token(&self, id: u128) -> (t: Option<&Icrc7Token>)
        ensures
            match t {
                Some(token) => self@.tokens.contains_key(id) && *token == self@.tokens[id],
                None => !self@.tokens.contains_key(id),
            },
    {
        self.tokens.get(&id)
    }

    /// Who holds the token with the given id, if it is held.
    pub fn owner_of(&self, id: u128) -> (r: Option<Account>)
        ensures
            r == self@.owner_of(id),
    {
        match self.tokens.get(&id) {
            Some(token) => Some(token.owner),
            None => None,
        }
    }

    /// The ids of the tokens that are held, smallest first.
    pub fn token_ids(&self) -> (v: Vec<u128>)
        ensures
            crate::ordered::enumerates_wide(v@, self@.tokens.dom()),
            v@.len() == self@.tokens.dom().len(),
    {
        map_keys_wide(&self.tokens)
    }

    /// How many tokens are held.
    pub fn supply(&self) -> (n: usize)
        ensures
            n == self@.tokens.dom().len(),
    {
        self.tokens.len()
    }

    /// Whether the id was ever minted.
    pub fn is_used(&self, id: u128) -> (r: bool)
        ensures
            r == self@.used(id),
    {
        self.tokens.contains_key(&id) || self.burned.contains(&id)
    }

    /// The ids of the tokens that `account` holds, smallest first.
    pub fn tokens_held_by(&self, account: &Account) -> (v: Vec<u128>)
        ensures
            crate::ordered::enumerates_wide(v@, self@.tokens_of(*account)),
            v@.len() == self@.tokens_of(*account).len(),
    {
        let keys = map_keys_wide(&self.tokens);
        let mut v: Vec<u128> = Vec::new();
        let mut i: usize = 0;
        while i < keys.len()
            invariant
                i <= keys.len(),
                crate::ordered::enumerates_wide(keys@, self.tokens@.dom()),
                crate::ordered::ascending_wide(v@),
                forall|a: int|
                    0 <= a < v@.len() ==> exists|j: int| 0 <= j < i && keys@[j] == #[trigger] v@[a],
                forall|k: u128|
                    v@.contains(k) <==> (exists|j: int|
                        0 <= j < i && #[trigger] keys@[j] == k && self.tokens@[k].owner
                            == *account),
            decreases keys.len() - i,
        {
            let id = keys[i];
            assert(keys@.contains(id));
            let held = match self.tokens.get(&id) {
                Some(token) => token.owner == *account,
                None => false,
            };
            if held {
                let ghost before = v@;
                v.push(id);
                proof {
                    assert forall|a: int, b: int| 0 <= a < b < v@.len() implies v@[a] < v@[b] by {
                        if b == v@.len() - 1 {
                            let j = choose|j: int| 0 <= j < i && keys@[j] == before[a];
                            assert(keys@[j] < keys@[i as int]);
                        } else {
                            assert(before[a] < before[b]);
                        }
                    }
                    assert forall|a: int| 0 <= a < v@.len() implies exists|j: int|
                        0 <= j < i + 1 && keys@[j] == #[trigger] v@[a] by {
                        if a == v@.len() - 1 {
                            assert(keys@[i as int] == v@[a]);
                        } else {
                            let j = choose|j: int| 0 <= j < i && keys@[j] == before[a];
                            assert(keys@[j] == v@[a]);
                        }
                    }
                    assert forall|k: u128|
                        v@.contains(k) <==> (exists|j: int|
                            0 <= j < i + 1 && #[trigger] keys@[j] == k && self.tokens@[k].owner
                                == *account) by {
                        if v@.contains(k) {
                            let a = choose|a: int| 0 <= a < v@.len() && v@[a] == k;
                            if a == v@.len() - 1 {
                                assert(keys@[i as int] == k);
                            } else {
                                assert(before.contains(k));
                                let j = choose|j: int|
                                    0 <= j < i && #[trigger] keys@[j] == k && self.tokens@[k].owner
                                        == *account;
                                assert(0 <= j < i + 1 && keys@[j] == k);
                            }
                        }
                        if exists|j: int|
                            0 <= j < i + 1 && #[trigger] keys@[j] == k && self.tokens@[k].owner
                                == *account {
                            let j = choose|j: int|
                                0 <= j < i + 1 && #[trigger] keys@[j] == k && self.tokens@[k].owner
                                    == *account;
                            if j == i {
                                assert(v@[v@.len() - 1] == k);
                            } else {
                                assert(before.contains(k));
                                let a = choose|a: int| 0 <= a < before.len() && before[a] == k;
                                assert(v@[a] == k);
                            }
                        }
                    }
                }
            } else {
                proof {
                    assert forall|k: u128|
                        v@.contains(k) <==> (exists|j: int|
                            0 <= j < i + 1 && #[trigger] keys@[j] == k && self.tokens@[k].owner
                                == *account) by {
                        if v@.contains(k) {
                            let j = choose|j: int|
                                0 <= j < i && #[trigger] keys@[j] == k && self.tokens@[k].owner
                                    == *account;
                            assert(0 <= j < i + 1 && keys@[j] == k);
                        }
                        if exists|j: int|
                            0 <= j < i + 1 && #[trigger] keys@[j] == k && self.tokens@[k].owner
                                == *account {
                            let j = choose|j: int|
                                0 <= j < i + 1 && #[trigger] keys@[j] == k && self.tokens@[k].owner
                                    == *account;
                            assert(j != i);
                        }
                    }
                }
            }
            i = i + 1;
        }
        proof {
            assert forall|k: u128| v@.contains(k) <==> self@.tokens_of(*account).contains(k) by {
                if v@.contains(k) {
                    let j = choose|j: int|
                        0 <= j < i && #[trigger] keys@[j] == k && self.tokens@[k].owner
                            == *account;
                    assert(keys@.contains(k));
                }
                if self@.tokens_of(*account).contains(k) {
                    assert(keys@.contains(k));
                    let j = choose|j: int| 0 <= j < keys@.len() && keys@[j] == k;
                    assert(0 <= j < i && keys@[j] == k);
                }
            }
            crate::ordered::lemma_enumeration_len_wide(v@, self@.tokens_of(*account));
        }
        v
    }

    /// Whether `account` holds any token.
    pub fn holds_any(&self, account: &Account) -> (r: bool)
        ensures
            r == self@.holds_any(*account),
    {
        let held = self.tokens_held_by(account);
        if held.len() > 0 {
            assert(held@.contains(held@[0]));
            assert(self@.tokens_of(*account).contains(held@[0]));
            true
        } else {
            assert forall|id: u128| !self@.tokens_of(*account).contains(id) by {
                assert(held@.contains(id) <==> self@.tokens_of(*account).contains(id));
            }
            false
        }
    }

    /// The first counter value after the current one whose id was never
    /// minted.
    fn find_free_counter(&self) -> (r: Option<u64>)
        requires
            self.wf(),
        ensures
            match r {
                Some(k) => self@.free_counter(self@.counter + 1) == Some(k as nat) && !self@.used(
                    crate::idgen::mix(k) as u128,
                ),
                None => self@.free_counter(self@.counter + 1) is None,
            },
    {
        let mut k: u64 = self.counter;
        while k < u64::MAX
            invariant
                self.counter <= k,
                self@.free_counter(self@.counter + 1) == self@.free_counter(k as nat + 1),
            decreases u64::MAX - k,
        {
            k = k + 1;
            let id = mix_word(k) as u128;
            if !self.is_used(id) {
                return Some(k);
            }
        }
        None
    }

    /// Mints a token to `arg.to`. `authorized` says whether the caller may
    /// administer the ledger. A receiver that holds a token already is
    /// turned down as such, whatever else is wrong with the request.
    pub fn mint(&mut self, caller: Principal, authorized: bool, now: u64, arg: &MintArg) -> (r:
        Result<u128, MintError>)
        requires
            old(self).wf(),
        ensures
            final(self).wf(),
            (final(self)@, r) == old(self)@.mint_step(caller, authorized, now, *arg),
    {
        if caller.is_anonymous() {
            return Err(MintError::AnonymousCaller);
        }
        if !authorized {
            return Err(MintError::Unauthorized);
        }
        let to = account_transformer(arg.to);
        if self.holds_any(&to) {
            return Err(MintError::AlreadyHeld);
        }
        match arg.token_id {
            Some(requested) => {
                if self.is_used(requested) {
                    return Err(MintError::TokenIdAlreadyExist);
                }
            },
            None => {},
        }
        if !memo_within_limit(&arg.memo) {
            return Err(MintError::MemoTooLong);
        }
        let counter: u64;
        let id: u128;
        match arg.token_id {
            Some(requested) => {
                id = requested;
                counter = self.counter;
            },
            None => {
                match self.find_free_counter() {
                    Some(k) => {
                        id = mix_word(k) as u128;
                        counter = k;
                    },
                    None => {
                        return Err(MintError::SupplyCapReached);
                    },
                }
            },
        }
        let from = account_transformer(Account { owner: caller, subaccount: arg.from_subaccount });
        let token = Icrc7Token {
            id,
            name: copy_text(&arg.token_name),
            description: copy_text(&arg.token_description),
            logo: copy_text(&arg.token_logo),
            owner: to,
        };
        self.tokens.insert(id, token);
        self.counter = counter;
        proof {
            assert(self@ =~= LedgerModel {
                tokens: old(self)@.tokens.insert(id, token),
                counter: counter as nat,
                ..old(self)@
            });
            assert(!old(self)@.used(id));
            assert forall|k: u128| #[trigger] self@.burned.contains(k) implies !self@.tokens.contains_key(
                k,
            ) by {
                assert(old(self)@.burned.contains(k));
            }
            assert forall|k: u128| #[trigger] self@.tokens.contains_key(k) implies self@.tokens[k].id
                == k by {
                if k != id {
                    assert(old(self)@.tokens.contains_key(k));
                }
            }
        }
        let memo = copy_memo(&arg.memo);
        let txn_id = log_transaction(self, TransactionType::Mint { tid: id, from, to }, now, memo);
        Ok(txn_id)
    }

    /// Looks for a logged transfer that the request repeats, among the
    /// entries that are not older than `allowed_past_time`.
    pub fn txn_deduplication_check(
        &self,
        allowed_past_time: u64,
        from: &Account,
        arg: &TransferArg,
    ) -> (r: Result<(), TransferError>)
        ensures
            r == (match duplicate_of(
                self@.log,
                self@.log.len(),
                allowed_past_time,
                *from,
                *arg,
            ) {
                Some(id) => Err::<(), TransferError>(TransferError::Duplicate { duplicate_of: id }),
                None => Ok::<(), TransferError>(()),
            }),
    {
        let to = account_transformer(arg.to);
        let mut count: usize = self.txn_log.len();
        while count != 0
            invariant
                count <= self.txn_log@.len(),
                to == crate::identity::spec_account_transformer(arg.to),
                duplicate_of(self@.log, self@.log.len(), allowed_past_time, *from, *arg)
                    == duplicate_of(self@.log, count as nat, allowed_past_time, *from, *arg),
            decreases count,
        {
            let txn = &self.txn_log[count - 1];
            assert(self@.log[count - 1] == txn@);
            if txn.ts < allowed_past_time {
                return Ok(());
            }
            let same_transfer = match txn.txn_type {
                TransactionType::Transfer { tid, from: sender, to: receiver } => {
                    tid == arg.token_id && sender == *from && receiver == to
                },
                _ => false,
            };
            let same_time = match arg.created_at_time {
                Some(t) => t == txn.ts,
                None => false,
            };
            if same_transfer && same_time && same_memo(&arg.memo, &txn.memo) {
                return Err(TransferError::Duplicate { duplicate_of: txn.txn_id });
            }
            count = count - 1;
        }
        Ok(())
    }

    /// Tests a transfer against the ledger as it stands.
    pub fn transfer_check(&self, now: u64, from: &Account, arg: &TransferArg) -> (r: Result<
        (),
        TransferError,
    >)
        ensures
            r == (match self@.transfer_error(*from, now, *arg) {
                Some(e) => Err::<(), TransferError>(e),
                None => Ok::<(), TransferError>(()),
            }),
    {
        let owner = match self.tokens.get(&arg.token_id) {
            Some(token) => token.owner,
            None => {
                return Err(TransferError::NonExistingTokenId);
            },
        };
        if account_transformer(arg.to) == *from {
            return Err(TransferError::InvalidRecipient);
        }
        if owner != *from {
            return Err(TransferError::Unauthorized);
        }
        match arg.created_at_time {
            Some(time) => {
                let allowed_past: u64 = if now >= DEFAULT_TX_WINDOW + DEFAULT_PERMITTED_DRIFT {
                    now - DEFAULT_TX_WINDOW - DEFAULT_PERMITTED_DRIFT
                } else {
                    0
                };
                let allowed_future: u64 = if now <= u64::MAX - DEFAULT_PERMITTED_DRIFT {
                    now + DEFAULT_PERMITTED_DRIFT
                } else {
                    u64::MAX
                };
                if time < allowed_past {
                    return Err(TransferError::TooOld);
                }
                if time > allowed_future {
                    return Err(TransferError::CreatedInFuture { ledger_time: now });
                }
                self.txn_deduplication_check(allowed_past, from, arg)
            },
            None => Ok(()),
        }
    }

    /// Moves a token from the caller's account to `arg.to`.
    pub fn transfer(&mut self, caller: Principal, now: u64, arg: &TransferArg) -> (r: Result<
        u128,
        TransferError,
    >)
        requires
            old(self).wf(),
        ensures
            final(self).wf(),
            (final(self)@, r) == old(self)@.transfer_step(caller, now, *arg),
    {
        let from = account_transformer(Account { owner: caller, subaccount: arg.from_subaccount });
        match self.transfer_check(now, &from, arg) {
            Err(e) => {
                return Err(e);
            },
            Ok(_) => {},
        }
        let to = account_transformer(arg.to);
        let ts = match arg.created_at_time {
            Some(t) => t,
            None => now,
        };
        match self.tokens.remove(&arg.token_id) {
            Some(token) => {
                let moved = Icrc7Token { owner: to, ..token };
                self.tokens.insert(arg.token_id, moved);
                proof {
                    assert(self@ =~= LedgerModel {
                        tokens: old(self)@.tokens.insert(arg.token_id, moved),
                        ..old(self)@
                    });
                }
            },
            None => unreached(),
        }
        let memo = copy_memo(&arg.memo);
        let txn_id = log_transaction(
            self,
            TransactionType::Transfer { tid: arg.token_id, from, to },
            ts,
            memo,
        );
        Ok(txn_id)
    }

    /// Tests a burn against the ledger as it stands.
    pub fn burn_check(&self, from: &Account, arg: &BurnArg) -> (r: Result<(), BurnError>)
        ensures
            r == (match self@.burn_error(*from, *arg) {
                Some(e) => Err::<(), BurnError>(e),
                None => Ok::<(), BurnError>(()),
            }),
    {
        if !memo_within_limit(&arg.memo) {
            return Err(BurnError::MemoTooLong);
        }
        match self.tokens.get(&arg.token_id) {
            Some(token) => {
                if token.owner != *from {
                    return Err(BurnError::Unauthorized);
                }
                Ok(())
            },
            None => Err(BurnError::NonExistingTokenId),
        }
    }

    /// Burns a token that the caller's account holds.
    pub fn burn_one(&mut self, caller: Principal, now: u64, arg: &BurnArg) -> (r: Result<
        u128,
        BurnError,
    >)
        requires
            old(self).wf(),
        ensures
            final(self).wf(),
            (final(self)@, r) == old(self)@.burn_step(caller, now, *arg),
    {
        let from = account_transformer(Account { owner: caller, subaccount: arg.from_subaccount });
        match self.burn_check(&from, arg) {
            Err(e) => {
                return Err(e);
            },
            Ok(_) => {},
        }
        self.tokens.remove(&arg.token_id);
        self.burned.insert(arg.token_id);
        proof {
            assert(self@ =~= LedgerModel {
                tokens: old(self)@.tokens.remove(arg.token_id),
                burned: old(self)@.burned.insert(arg.token_id),
                ..old(self)@
            });
        }
        let memo = copy_memo(&arg.memo);
        let to = burn_account(self.canister);
        let txn_id = log_transaction(
            self,
            TransactionType::Burn { tid: arg.token_id, from, to },
            now,
            memo,
        );
        Ok(txn_id)
    }

    /// Transfers a batch of tokens for one caller. A batch that is turned
    /// down as a whole changes nothing; otherwise the requests are taken
    /// one after the other, each against the ledger as the ones before it
    /// left it, and each slot of the answer holds the outcome of the
    /// request at the same place.
    pub fn icrc7_transfer(
        &mut self,
        caller: Principal,
        authorized: bool,
        now: u64,
        args: Vec<TransferArg>,
    ) -> (results: Vec<Option<TransferResult>>)
        requires
            old(self).wf(),
        ensures
            final(self).wf(),
            match batch_rejection(caller, authorized, args@.len()) {
                Some(reason) => {
                    &&& final(self)@ == old(self)@
                    &&& results@.len() == rejected_slots(args@.len())
                    &&& forall|i: int|
                        0 <= i < results@.len() ==> results@[i] == Some(
                            Err::<u128, TransferError>(TransferError::BatchRejected { reason }),
                        )
                },
                None => {
                    &&& final(self)@ == old(self)@.after_transfers(
                        caller,
                        now,
                        args@,
                        args@.len(),
                    )
                    &&& results@.len() == args@.len()
                    &&& forall|i: int|
                        0 <= i < results@.len() ==> results@[i] == Some(
                            old(self)@.after_transfers(caller, now, args@, i as nat).transfer_step(
                                caller,
                                now,
                                args@[i],
                            ).1,
                        )
                },
            },
    {
        let n = args.len();
        match batch_check(&caller, authorized, n) {
            Some(reason) => {
                return repeat(
                    slots_of_rejected(n),
                    Some(Err(TransferError::BatchRejected { reason })),
                );
            },
            None => {},
        }
        let ghost start = self@;
        let mut results: Vec<Option<TransferResult>> = Vec::new();
        let mut i: usize = 0;
        while i < n
            invariant
                self.wf(),
                i <= n,
                n == args@.len(),
                results@.len() == i,
                self@ == start.after_transfers(caller, now, args@, i as nat),
                forall|j: int|
                    0 <= j < i ==> results@[j] == Some(
                        start.after_transfers(caller, now, args@, j as nat).transfer_step(
                            caller,
                            now,
                            args@[j],
                        ).1,
                    ),
            decreases n - i,
        {
            let r = self.transfer(caller, now, &args[i]);
            results.push(Some(r));
            i = i + 1;
        }
        results
    }

    /// Burns a batch of tokens for one caller, under the same rules for
    /// batches as [`Ledger::icrc7_transfer`].
    pub fn burn(&mut self, caller: Principal, authorized: bool, now: u64, args: Vec<BurnArg>) -> (results:
        Vec<Option<Result<u128, BurnError>>>)
        requires
            old(self).wf(),
        ensures
            final(self).wf(),
            match batch_rejection(caller, authorized, args@.len()) {
                Some(reason) => {
                    &&& final(self)@ == old(self)@
                    &&& results@.len() == rejected_slots(args@.len())
                    &&& forall|i: int|
                        0 <= i < results@.len() ==> results@[i] == Some(
                            Err::<u128, BurnError>(BurnError::BatchRejected { reason }),
                        )
                },
                None => {
                    &&& final(self)@ == old(self)@.after_burns(caller, now, args@, args@.len())
                    &&& results@.len() == args@.len()
                    &&& forall|i: int|
                        0 <= i < results@.len() ==> results@[i] == Some(
                            old(self)@.after_burns(caller, now, args@, i as nat).burn_step(
                                caller,
                                now,
                                args@[i],
                            ).1,
                        )
                },
            },
    {
        let n = args.len();
        match batch_check(&caller, authorized, n) {
            Some(reason) => {
                return repeat(slots_of_rejected(n), Some(Err(BurnError::BatchRejected { reason })));
            },
            None => {},
        }
        let ghost start = self@;
        let mut results: Vec<Option<Result<u128, BurnError>>> = Vec::new();
        let mut i: usize = 0;
        while i < n
            invariant
                self.wf(),
                i <= n,
                n == args@.len(),
                results@.len() == i,
                self@ == start.after_burns(caller, now, args@, i as nat),
                forall|j: int|
                    0 <= j < i ==> results@[j] == Some(
                        start.after_burns(caller, now, args@, j as nat).burn_step(
                            caller,
                            now,
                            args@[j],
                        ).1,
                    ),
            decreases n - i,
        {
            let r = self.burn_one(caller, now, &args[i]);
            results.push(Some(r));
            i = i + 1;
        }
        results
    }

    /// Mints a batch of tokens for one caller, under the same rules for
    /// batches as [`Ledger::icrc7_transfer`].
    pub fn mint_batch(
        &mut self,
        caller: Principal,
        authorized: bool,
        now: u64,
        args: Vec<MintArg>,
    ) -> (results: Vec<Option<Result<u128, MintError>>>)
        requires
            old(self).wf(),
        ensures
            final(self).wf(),
            match batch_rejection(caller, authorized, args@.len()) {
                Some(reason) => {
                    &&& final(self)@ == old(self)@
                    &&& results@.len() == rejected_slots(args@.len())
                    &&& forall|i: int|
                        0 <= i < results@.len() ==> results@[i] == Some(
                            Err::<u128, MintError>(MintError::BatchRejected { reason }),
                        )
                },
                None => {
                    &&& final(self)@ == old(self)@.after_mints(caller, now, args@, args@.len())
                    &&& results@.len() == args@.len()
                    &&& forall|i: int|
                        0 <= i < results@.len() ==> results@[i] == Some(
                            old(self)@.after_mints(caller, now, args@, i as nat).mint_step(
                                caller,
                                true,
                                now,
                                args@[i],
                            ).1,
                        )
                },
            },
    {
        let n = args.len();
        match batch_check(&caller, authorized, n) {
            Some(reason) => {
                return repeat(slots_of_rejected(n), Some(Err(MintError::BatchRejected { reason })));
            },
            None => {},
        }
        let ghost start = self@;
        let mut results: Vec<Option<Result<u128, MintError>>> = Vec::new();
        let mut i: usize = 0;
        while i < n
            invariant
                self.wf(),
                i <= n,
                n == args@.len(),
                results@.len() == i,
                self@ == start.after_mints(caller, now, args@, i as nat),
                forall|j: int|
                    0 <= j < i ==> results@[j] == Some(
                        start.after_mints(caller, now, args@, j as nat).mint_step(
                            caller,
                            true,
                            now,
                            args@[j],
                        ).1,
                    ),
            decreases n - i,
        {
            let r = self.mint(caller, true, now, &args[i]);
            results.push(Some(r));
            i = i + 1;
        }
        results
    }
}

} // verus!
