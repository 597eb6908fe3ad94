//! Ledger administration behind the authorization policy, and the first
//! set-up of a store.
//!
//! Whether the caller controls the store is decided outside; the answer
//! comes in as a flag and is tested together with the caller's roles
//! against the store as it stands when the operation runs.

use crate::entities::{Role, UserRole};
use crate::handlers::{add_profile_role, create_profile_by_principal, is_new_profile};
use crate::identity::{default_account, spec_default_account, Authentication, Principal};
use crate::idgen::{mix, IdGenerator};
use crate::ledger::Ledger;
use crate::ledger_model::{
    batch_rejection, rejected_slots, BurnArg, BurnError, MintArg, MintError, TransferArg,
    TransferError, TransferResult,
};
use crate::policy::is_admin;
use crate::state::{uuid, State};
use crate::store_model::StoreModel;
use vstd::prelude::*;

verus! {

/// Whether `caller` may administer the ledger: it controls the store, or
/// it acts for a profile that holds the role `Admin`.
pub open spec fn may_administer(m: StoreModel, caller: Principal, is_controller: bool) -> bool {
    is_controller || m.is_admin(caller)
}

/// Tests whether `caller` may administer the ledger.
pub fn authorize(state: &State, caller: &Principal, is_controller: bool) -> (r: bool)
    requires
        state.wf(),
    ensures
        r == may_administer(state@, *caller, is_controller),
{
    is_controller || is_admin(state, caller)
}

/// Mints a token, if the caller may administer the ledger.
pub fn mint(state: &mut State, caller: Principal, is_controller: bool, now: u64, arg: &MintArg) -> (r:
    Result<u128, MintError>)
    requires
        old(state).wf(),
    ensures
        final(state).wf(),
        final(state).ids == old(state).ids,
        final(state)@ == old(state)@.with_ledger(final(state).ledger@),
        (final(state).ledger@, r) == old(state).ledger@.mint_step(
            caller,
            may_administer(old(state)@, caller, is_controller),
            now,
            *arg,
        ),
{
    let authorized = authorize(state, &caller, is_controller);
    let r = state.ledger.mint(caller, authorized, now, arg);
    proof {
        assert(state@ =~= old(state)@.with_ledger(state.ledger@));
    }
    r
}

/// Mints a batch of tokens, if the caller may administer the ledger.
pub fn mint_batch(
    state: &mut State,
    caller: Principal,
    is_controller: bool,
    now: u64,
    args: Vec<MintArg>,
) -> (results: Vec<Option<Result<u128, MintError>>>)
    requires
        old(state).wf(),
    ensures
        final(state).wf(),
        final(state).ids == old(state).ids,
        final(state)@ == old(state)@.with_ledger(final(state).ledger@),
        match batch_rejection(
            caller,
            may_administer(old(state)@, caller, is_controller),
            args@.len(),
        ) {
            Some(reason) => {
                &&& final(state).ledger@ == old(state).ledger@
                &&& results@.len() == rejected_slots(args@.len())
                &&& forall|i: int|
                    0 <= i < results@.len() ==> results@[i] == Some(
                        Err::<u128, MintError>(MintError::BatchRejected { reason }),
                    )
            },
            None => {
                &&& final(state).ledger@ == old(state).ledger@.after_mints(
                    caller,
                    now,
                    args@,
                    args@.len(),
                )
                &&& results@.len() == args@.len()
                &&& forall|i: int|
                    0 <= i < results@.len() ==> results@[i] == Some(
                        old(state).ledger@.after_mints(caller, now, args@, i as nat).mint_step(
                            caller,
                            true,
                            now,
                            args@[i],
                        ).1,
                    )
            },
        },
{
    let authorized = authorize(state, &caller, is_controller);
    let results = state.ledger.mint_batch(caller, authorized, now, args);
    proof {
        assert(state@ =~= old(state)@.with_ledger(state.ledger@));
    }
    results
}

/// Transfers a batch of tokens, if the caller may administer the ledger.
pub fn icrc7_transfer(
    state: &mut State,
    caller: Principal,
    is_controller: bool,
    now: u64,
    args: Vec<TransferArg>,
) -> (results: Vec<Option<TransferResult>>)
    requires
        old(state).wf(),
    ensures
        final(state).wf(),
        final(state).ids == old(state).ids,
        final(state)@ == old(state)@.with_ledger(final(state).ledger@),
        match batch_rejection(
            caller,
            may_administer(old(state)@, caller, is_controller),
            args@.len(),
        ) {
            Some(reason) => {
                &&& final(state).ledger@ == old(state).ledger@
                &&& results@.len() == rejected_slots(args@.len())
                &&& forall|i: int|
                    0 <= i < results@.len() ==> results@[i] == Some(
                        Err::<u128, TransferError>(TransferError::BatchRejected { reason }),
                    )
            },
            None => {
                &&& final(state).ledger@ == old(state).ledger@.after_transfers(
                    caller,
                    now,
                    args@,
                    args@.len(),
                )
                &&& results@.len() == args@.len()
                &&& forall|i: int|
                    0 <= i < results@.len() ==> results@[i] == Some(
                        old(state).ledger@.after_transfers(
                            caller,
                            now,
                            args@,
                            i as nat,
                        ).transfer_step(caller, now, args@[i]).1,
                    )
            },
        },
{
    let authorized = authorize(state, &caller, is_controller);
    let results = state.ledger.icrc7_transfer(caller, authorized, now, args);
    proof {
        assert(state@ =~= old(state)@.with_ledger(state.ledger@));
    }
    results
}

/// Burns a batch of tokens, if the caller may administer the ledger.
pub fn burn(state: &mut State, caller: Principal, is_controller: bool, now: u64, args: Vec<BurnArg>) -> (results:
    Vec<Option<Result<u128, BurnError>>>)
    requires
        old(state).wf(),
    ensures
        final(state).wf(),
        final(state).ids == old(state).ids,
        final(state)@ == old(state)@.with_ledger(final(state).ledger@),
        match batch_rejection(
            caller,
            may_administer(old(state)@, caller, is_controller),
            args@.len(),
        ) {
            Some(reason) => {
                &&& final(state).ledger@ == old(state).ledger@
                &&& results@.len() == rejected_slots(args@.len())
                &&& forall|i: int|
                    0 <= i < results@.len() ==> results@[i] == Some(
                        Err::<u128, BurnError>(BurnError::BatchRejected { reason }),
                    )
            },
            None => {
                &&& final(state).ledger@ == old(state).ledger@.after_burns(
                    caller,
                    now,
                    args@,
                    args@.len(),
                )
                &&& results@.len() == args@.len()
                &&& forall|i: int|
                    0 <= i < results@.len() ==> results@[i] == Some(
                        old(state).ledger@.after_burns(caller, now, args@, i as nat).burn_step(
                            caller,
                            now,
                            args@[i],
                        ).1,
                    )
            },
        },
{
    let authorized = authorize(state, &caller, is_controller);
    let results = state.ledger.burn(caller, authorized, now, args);
    proof {
        assert(state@ =~= old(state)@.with_ledger(state.ledger@));
    }
    results
}

/// The request by which a store gives its first admin a token.
pub open spec fn first_token_request(admin: Principal, token_id: u128) -> MintArg {
    MintArg {
        from_subaccount: None,
        to: spec_default_account(admin),
        token_id: Some(token_id),
        memo: None,
        token_name: None,
        token_description: None,
        token_logo: None,
    }
}

/// Mints the token of the first admin under a new surrogate id, in the
/// name of `minter`, and returns what the ledger answered.
pub fn add_icrc7_token(state: &mut State, principal: &Principal, minter: Principal, now: u64) -> (r:
    Result<u128, MintError>)
    requires
        old(state).wf(),
        old(state).spec_can_allocate(),
    ensures
        final(state).wf(),
        IdGenerator::step(old(state).ids, final(state).ids, old(state).next_id()),
        final(state)@ == (StoreModel {
            issued: old(state)@.issued.insert(old(state).next_id()),
            ..old(state)@
        }).with_ledger(final(state).ledger@),
        (final(state).ledger@, r) == old(state).ledger@.mint_step(
            minter,
            true,
            now,
            first_token_request(*principal, old(state).next_id() as u128),
        ),
{
    let token_id = uuid(state) as u128;
    let arg = MintArg {
        from_subaccount: None,
        to: default_account(principal),
        token_id: Some(token_id),
        memo: None,
        token_name: None,
        token_description: None,
        token_logo: None,
    };
    let r = state.ledger.mint(minter, true, now, &arg);
    proof {
        assert(state@ =~= (StoreModel {
            issued: old(state)@.issued.insert(old(state).next_id()),
            ..old(state)@
        }).with_ledger(state.ledger@));
    }
    r
}

/// Sets a store up for the ledger identity `canister`, with `caller` as
/// its parent. With an admin given, the admin gets a profile, the role
/// `Admin` and a token.
pub fn init(
    canister: Principal,
    caller: Principal,
    now: u64,
    admin_opt: Option<Principal>,
    version_opt: Option<String>,
    track_opt: Option<String>,
) -> (state: State)
    ensures
        state.wf(),
        state@.parent == Some(caller),
        state@.version == version_opt,
        state@.track == track_opt,
        match admin_opt {
            None => {
                &&& state.ids.count() == 0
                &&& state@ == StoreModel::spec_empty(
                    Ledger::spec_empty(canister),
                    Some(caller),
                    version_opt,
                    track_opt,
                )
            },
            Some(admin) => {
                let profile_id = mix(1);
                let role_id = mix(2);
                let token_id = mix(3);
                let empty = StoreModel::spec_empty(
                    Ledger::spec_empty(canister),
                    Some(caller),
                    version_opt,
                    track_opt,
                );
                &&& state.ids.count() == 3
                &&& is_new_profile(state@.profiles[profile_id], admin, now, Authentication::Ic)
                &&& state@ == (StoreModel {
                    issued: set![profile_id, role_id, token_id],
                    ..empty.with_new_profile(admin, profile_id, state@.profiles[profile_id]).with_role(
                        profile_id,
                        role_id,
                        Role { timestamp: now, role: UserRole::Admin },
                    )
                }).with_ledger(
                    Ledger::spec_empty(canister).mint_step(
                        caller,
                        true,
                        now,
                        first_token_request(admin, token_id as u128),
                    ).0,
                )
                &&& state@.is_admin(admin)
            },
        },
{
    let mut state = State::new(canister, Some(caller), version_opt, track_opt);
    match admin_opt {
        Some(admin) => {
            let ghost empty = state@;
            let profile_id = create_profile_by_principal(&mut state, &admin, now);
            let _granted = add_profile_role(&mut state, profile_id, UserRole::Admin, now);
            proof {
                assert(state@.profile_roles.contains((profile_id, mix(2))));
                assert(state@.roles[mix(2)].role == UserRole::Admin);
                assert(state@.has_role(profile_id, UserRole::Admin));
            }
            let _minted = add_icrc7_token(&mut state, &admin, caller, now);
            proof {
                assert(state@.issued =~= set![mix(1), mix(2), mix(3)]);
                assert(state@ =~= (StoreModel {
                    issued: set![mix(1), mix(2), mix(3)],
                    ..empty.with_new_profile(admin, mix(1), state@.profiles[mix(1)]).with_role(
                        mix(1),
                        mix(2),
                        Role { timestamp: now, role: UserRole::Admin },
                    )
                }).with_ledger(state.ledger@));
            }
        },
        None => {},
    }
    state
}

} // verus!
