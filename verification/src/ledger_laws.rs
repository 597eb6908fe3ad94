//! What holds of every ledger, proved of the state machine that the
//! ledger's operations are specified by.

use crate::identity::{spec_account_transformer, Account, Principal};
use crate::idgen::mix;
use crate::ledger_model::{
    allowed_future_time, allowed_past_time, caller_account, duplicate_of, repeats, BurnArg,
    LedgerModel, MintArg, MintError, TokenState, TransactionView, TransferArg, TransferError,
};
use vstd::prelude::*;

verus! {

/// The counter value that a search finds stands for an id that was never
/// minted, and lies at or after the place where the search began.
pub proof fn lemma_free_counter_is_free(m: LedgerModel, k: nat)
    requires
        m.free_counter(k) is Some,
    ensures
        k <= m.free_counter(k).unwrap() <= u64::MAX,
        !m.used(mix(m.free_counter(k).unwrap() as u64) as u128),
    decreases u64::MAX + 1 - k,
{
    if k <= u64::MAX && m.used(mix(k as u64) as u128) {
        lemma_free_counter_is_free(m, k + 1);
    }
}

/// A mint leaves a well-formed ledger well-formed, keeps what was burnt
/// burnt, and only adds to the log, as long as the log has room for one
/// more entry.
pub proof fn lemma_mint_keeps_order(
    m: LedgerModel,
    caller: Principal,
    authorized: bool,
    now: u64,
    arg: MintArg,
)
    requires
        m.wf(),
        m.log.len() < usize::MAX,
    ensures
        m.mint_step(caller, authorized, now, arg).0.wf(),
        m.mint_step(caller, authorized, now, arg).0.burned == m.burned,
        m.log.is_prefix_of(m.mint_step(caller, authorized, now, arg).0.log),
{
    let after = m.mint_step(caller, authorized, now, arg).0;
    if m.mint_error(caller, authorized, arg) is None {
        if arg.token_id is None {
            lemma_free_counter_is_free(m, m.counter + 1);
        }
        assert forall|i: int| 0 <= i < after.log.len() implies (#[trigger] after.log[i]).txn_id == i
            + 1 by {
            if i < m.log.len() {
                assert(after.log[i] == m.log[i]);
            }
        }
    }
}

/// A transfer leaves a well-formed ledger well-formed, keeps what was
/// burnt burnt, and only adds to the log, as long as the log has room for
/// one more entry.
pub proof fn lemma_transfer_keeps_order(m: LedgerModel, caller: Principal, now: u64, arg: TransferArg)
    requires
        m.wf(),
        m.log.len() < usize::MAX,
    ensures
        m.transfer_step(caller, now, arg).0.wf(),
        m.transfer_step(caller, now, arg).0.burned == m.burned,
        m.log.is_prefix_of(m.transfer_step(caller, now, arg).0.log),
{
    let after = m.transfer_step(caller, now, arg).0;
    let from = caller_account(caller, arg.from_subaccount);
    if m.transfer_error(from, now, arg) is None {
        assert(after.tokens.dom() =~= m.tokens.dom());
        assert forall|i: int| 0 <= i < after.log.len() implies (#[trigger] after.log[i]).txn_id == i
            + 1 by {
            if i < m.log.len() {
                assert(after.log[i] == m.log[i]);
            }
        }
    }
}

/// A burn leaves a well-formed ledger well-formed, keeps what was burnt
/// burnt, and only adds to the log, as long as the log has room for one
/// more entry.
pub proof fn lemma_burn_keeps_order(m: LedgerModel, caller: Principal, now: u64, arg: BurnArg)
    requires
        m.wf(),
        m.log.len() < usize::MAX,
    ensures
        m.burn_step(caller, now, arg).0.wf(),
        m.burned.subset_of(m.burn_step(caller, now, arg).0.burned),
        m.log.is_prefix_of(m.burn_step(caller, now, arg).0.log),
{
    let after = m.burn_step(caller, now, arg).0;
    let from = caller_account(caller, arg.from_subaccount);
    if m.burn_error(from, arg) is None {
        assert forall|i: int| 0 <= i < after.log.len() implies (#[trigger] after.log[i]).txn_id == i
            + 1 by {
            if i < m.log.len() {
                assert(after.log[i] == m.log[i]);
            }
        }
    }
}

/// Minting to an account that holds a token already, by a caller that may
/// mint, is turned down as `AlreadyHeld` and changes nothing, whatever the
/// request says else. A mint that succeeds went to an
/// account that held nothing, and that account holds the new token
/// afterwards; where the request named the token's id, `owner_of` of that
/// id is the account.
pub proof fn lemma_mint_single_holder(
    m: LedgerModel,
    caller: Principal,
    authorized: bool,
    now: u64,
    arg: MintArg,
)
    requires
        m.wf(),
    ensures
        ({
            let to = spec_account_transformer(arg.to);
            let (after, r) = m.mint_step(caller, authorized, now, arg);
            &&& (caller != Principal::spec_anonymous() && authorized && m.holds_any(to)) ==> (r
                == Err::<u128, MintError>(MintError::AlreadyHeld) && after == m)
            &&& r is Ok ==> {
                &&& !m.holds_any(to)
                &&& after.holds_any(to)
                &&& after.tokens_of(to).len() == 1
                &&& forall|id: u128| arg.token_id == Some(id) ==> after.owner_of(id) == Some(to)
            }
        }),
{
    let to = spec_account_transformer(arg.to);
    let (after, r) = m.mint_step(caller, authorized, now, arg);
    if r is Ok {
        if arg.token_id is None {
            lemma_free_counter_is_free(m, m.counter + 1);
        }
        let id = match arg.token_id {
            Some(id) => id,
            None => mix(m.free_counter(m.counter + 1).unwrap() as u64) as u128,
        };
        assert(after.tokens.contains_key(id));
        assert(after.tokens[id].owner == to);
        assert(after.tokens_of(to).contains(id));
        assert forall|k: u128| after.tokens_of(to).contains(k) implies k == id by {
            if k != id {
                assert(m.tokens_of(to).contains(k));
            }
        }
        assert(after.tokens_of(to) =~= set![id]);
    }
}

/// A transfer succeeds only for the account that holds the token. After a
/// transfer that succeeded, the receiving account holds the token and the
/// sending account does not.
pub proof fn lemma_transfer_moves_ownership(
    m: LedgerModel,
    caller: Principal,
    now: u64,
    arg: TransferArg,
)
    requires
        m.wf(),
    ensures
        ({
            let from = caller_account(caller, arg.from_subaccount);
            let to = spec_account_transformer(arg.to);
            let (after, r) = m.transfer_step(caller, now, arg);
            &&& r is Ok ==> {
                &&& m.owner_of(arg.token_id) == Some(from)
                &&& after.owner_of(arg.token_id) == Some(to)
                &&& after.tokens_of(to).contains(arg.token_id)
                &&& !after.tokens_of(from).contains(arg.token_id)
                &&& after.tokens.dom() == m.tokens.dom()
            }
            &&& r is Err ==> after == m
            &&& m.owner_of(arg.token_id) != Some(from) ==> r is Err
        }),
{
    let from = caller_account(caller, arg.from_subaccount);
    let (after, r) = m.transfer_step(caller, now, arg);
    if r is Ok {
        assert(after.tokens.dom() =~= m.tokens.dom());
    }
}

/// A transfer that repeats the newest entry of the log which is not older
/// than the window, asked for by the account that holds the token and with
/// a creation time within the window, is turned down as a duplicate of
/// that entry and changes nothing.
pub proof fn lemma_repeated_transfer_is_duplicate(
    m: LedgerModel,
    caller: Principal,
    now: u64,
    arg: TransferArg,
    place: int,
)
    requires
        m.wf(),
        0 <= place < m.log.len(),
        repeats(m.log[place], caller_account(caller, arg.from_subaccount), arg),
        forall|i: int|
            place < i < m.log.len() ==> (#[trigger] m.log[i]).ts >= allowed_past_time(now)
                && !repeats(m.log[i], caller_account(caller, arg.from_subaccount), arg),
        m.owner_of(arg.token_id) == Some(caller_account(caller, arg.from_subaccount)),
        spec_account_transformer(arg.to) != caller_account(caller, arg.from_subaccount),
        arg.created_at_time is Some,
        allowed_past_time(now) <= arg.created_at_time.unwrap() <= allowed_future_time(now),
    ensures
        m.transfer_step(caller, now, arg) == (
            m,
            Err::<u128, TransferError>(
                TransferError::Duplicate { duplicate_of: (place + 1) as u128 },
            ),
        ),
{
    let from = caller_account(caller, arg.from_subaccount);
    let lower = allowed_past_time(now);
    lemma_scan_reaches(m.log, m.log.len(), lower, from, arg, place);
}

/// The walk from the newest of the first `n` entries reaches `place` when
/// every entry after it is within the window and repeats nothing.
proof fn lemma_scan_reaches(
    log: Seq<TransactionView>,
    n: nat,
    lower: u64,
    from: Account,
    arg: TransferArg,
    place: int,
)
    requires
        0 <= place < n <= log.len(),
        repeats(log[place], from, arg),
        log[place].ts >= lower,
        forall|i: int|
            place < i < n ==> (#[trigger] log[i]).ts >= lower && !repeats(log[i], from, arg),
    ensures
        duplicate_of(log, n, lower, from, arg) == Some(log[place].txn_id),
    decreases n,
{
    if n - 1 > place {
        assert(log[n - 1].ts >= lower && !repeats(log[n - 1], from, arg));
        lemma_scan_reaches(log, (n - 1) as nat, lower, from, arg, place);
    }
}

/// After a burn that succeeded the token has no holder and its id is
/// burnt.
pub proof fn lemma_burn_clears_holder(m: LedgerModel, caller: Principal, now: u64, arg: BurnArg)
    requires
        m.wf(),
    ensures
        ({
            let from = caller_account(caller, arg.from_subaccount);
            let (after, r) = m.burn_step(caller, now, arg);
            &&& r is Ok ==> {
                &&& m.owner_of(arg.token_id) == Some(from)
                &&& after.owner_of(arg.token_id) is None
                &&& after.state_of(arg.token_id) == TokenState::Burned
                &&& after.tokens.dom() == m.tokens.dom().remove(arg.token_id)
            }
            &&& r is Err ==> after == m
        }),
{
}

/// A burnt id stays burnt and without a holder through every operation,
/// and a mint that asks for it is turned down: as `TokenIdAlreadyExist`
/// where the caller may mint and the receiver holds nothing.
pub proof fn lemma_burned_is_terminal(
    m: LedgerModel,
    id: u128,
    caller: Principal,
    authorized: bool,
    now: u64,
    mint: MintArg,
    transfer: TransferArg,
    burn: BurnArg,
)
    requires
        m.wf(),
        m.log.len() < usize::MAX,
        m.state_of(id) == TokenState::Burned,
    ensures
        m.owner_of(id) is None,
        m.mint_step(caller, authorized, now, mint).0.state_of(id) == TokenState::Burned,
        m.transfer_step(caller, now, transfer).0.state_of(id) == TokenState::Burned,
        m.burn_step(caller, now, burn).0.state_of(id) == TokenState::Burned,
        mint.token_id == Some(id) ==> m.mint_step(caller, authorized, now, mint).1 is Err,
        (mint.token_id == Some(id) && caller != Principal::spec_anonymous() && authorized
            && !m.holds_any(spec_account_transformer(mint.to))) ==> m.mint_step(
            caller,
            authorized,
            now,
            mint,
        ).1 == Err::<u128, MintError>(MintError::TokenIdAlreadyExist),
{
    assert(m.burned.contains(id));
    lemma_mint_keeps_order(m, caller, authorized, now, mint);
    lemma_transfer_keeps_order(m, caller, now, transfer);
    lemma_burn_keeps_order(m, caller, now, burn);
    let a = m.mint_step(caller, authorized, now, mint).0;
    assert(a.burned.contains(id));
    let b = m.transfer_step(caller, now, transfer).0;
    assert(b.burned.contains(id));
    let c = m.burn_step(caller, now, burn).0;
    assert(c.burned.contains(id));
}

} // verus!
