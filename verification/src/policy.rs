//! Who may do what: the profile behind a caller and the roles it holds.

use crate::entities::UserRole;
use crate::identity::Principal;
use crate::ordered::enumerates;
use crate::relation::items_of;
use crate::state::State;
use vstd::prelude::*;

verus! {

/// The profile that `caller` acts for, if there is one.
pub fn profile_of(state: &State, caller: &Principal) -> (r: Option<u64>)
    ensures
        r == state@.caller_profile(*caller),
{
    match state.indexes.active_principal.get(&caller.key()) {
        Some(id) => Some(*id),
        None => None,
    }
}

/// Whether `roles` lists the kinds of the roles of a profile, in the order
/// of the roles' ids.
pub open spec fn lists_roles(state: &State, profile_id: u64, roles: Seq<UserRole>) -> bool {
    exists|ids: Seq<u64>|
        #![trigger enumerates(ids, items_of(state@.profile_roles, profile_id))]
        {
            &&& enumerates(ids, items_of(state@.profile_roles, profile_id))
            &&& roles.len() == ids.len()
            &&& forall|i: int| 0 <= i < ids.len() ==> roles[i] == state@.roles[ids[i]].role
        }
}

/// The kinds of the roles that the caller's profile holds; `None` when the
/// caller has no profile.
pub fn get_user_roles(state: &State, caller: &Principal) -> (r: Option<Vec<UserRole>>)
    requires
        state.wf(),
    ensures
        match r {
            Some(roles) => state@.caller_profile(*caller) is Some && lists_roles(
                state,
                state@.caller_profile(*caller).unwrap(),
                roles@,
            ),
            None => state@.caller_profile(*caller) is None,
        },
{
    let profile_id = match profile_of(state, caller) {
        Some(id) => id,
        None => {
            return None;
        },
    };
    let ids = state.relations.profile_id_to_role_id.forward(profile_id);
    let mut roles: Vec<UserRole> = Vec::new();
    let mut i: usize = 0;
    while i < ids.len()
        invariant
            state.wf(),
            i <= ids.len(),
            roles@.len() == i,
            enumerates(ids@, items_of(state@.profile_roles, profile_id)),
            forall|j: int| 0 <= j < i ==> roles@[j] == state@.roles[ids@[j]].role,
        decreases ids.len() - i,
    {
        assert(ids@.contains(ids@[i as int]));
        assert(state@.profile_roles.contains((profile_id, ids@[i as int])));
        match state.roles.get(&ids[i]) {
            Some(role) => {
                roles.push(role.role);
            },
            None => unreached(),
        }
        i = i + 1;
    }
    Some(roles)
}

/// Whether the profile holds a role of the given kind.
pub fn has_role(state: &State, profile_id: u64, kind: UserRole) -> (r: bool)
    requires
        state.wf(),
    ensures
        r == state@.has_role(profile_id, kind),
{
    let ids = state.relations.profile_id_to_role_id.forward(profile_id);
    let mut i: usize = 0;
    while i < ids.len()
        invariant
            state.wf(),
            i <= ids.len(),
            enumerates(ids@, items_of(state@.profile_roles, profile_id)),
            forall|j: int| 0 <= j < i ==> state@.roles[ids@[j]].role != kind,
        decreases ids.len() - i,
    {
        assert(ids@.contains(ids@[i as int]));
        assert(state@.profile_roles.contains((profile_id, ids@[i as int])));
        match state.roles.get(&ids[i]) {
            Some(role) => {
                if role.role == kind {
                    return true;
                }
            },
            None => unreached(),
        }
        i = i + 1;
    }
    proof {
        assert forall|r: u64|
            !(#[trigger] state@.profile_roles.contains((profile_id, r)) && state@.roles[r].role
                == kind) by {
            if state@.profile_roles.contains((profile_id, r)) {
                assert(items_of(state@.profile_roles, profile_id).contains(r));
                assert(ids@.contains(r));
            }
        }
    }
    false
}

/// Whether `caller` acts for a profile that holds the role `Admin`.
pub fn is_admin(state: &State, caller: &Principal) -> (r: bool)
    requires
        state.wf(),
    ensures
        r == state@.is_admin(*caller),
{
    match profile_of(state, caller) {
        Some(profile_id) => has_role(state, profile_id, UserRole::Admin),
        None => false,
    }
}

} // verus!
