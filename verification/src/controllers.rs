//! The list of principals that control the store, kept in step with the
//! ledger: who receives a token joins the list, who gives one away is
//! replaced by the receiver, and who burns one leaves.

use crate::identity::Principal;
use crate::ledger_model::{BurnError, TransferArg, TransferResult};
use vstd::prelude::*;

verus! {

/// The first place at or after `from` where `list` holds `who`; the length
/// of `list` when there is none.
pub open spec fn place_of(list: Seq<Principal>, who: Principal, from: nat) -> nat
    decreases list.len() - from,
{
    if from >= list.len() {
        list.len()
    } else if list[from as int] == who {
        from
    } else {
        place_of(list, who, from + 1)
    }
}

/// `list` with the first `old_one` replaced by `new_one`; `list` itself
/// where it does not hold `old_one`.
pub open spec fn replaced(list: Seq<Principal>, old_one: Principal, new_one: Principal) -> Seq<
    Principal,
> {
    let at = place_of(list, old_one, 0);
    if at < list.len() {
        list.update(at as int, new_one)
    } else {
        list
    }
}

/// `list` without the first `who`; `list` itself where it does not hold
/// `who`.
pub open spec fn removed(list: Seq<Principal>, who: Principal) -> Seq<Principal> {
    let at = place_of(list, who, 0);
    if at < list.len() {
        list.remove(at as int)
    } else {
        list
    }
}

/// The list after the first `n` transfers of a batch by `caller`: each
/// transfer that succeeded replaces the caller by the receiver.
pub open spec fn after_transfers(
    list: Seq<Principal>,
    caller: Principal,
    args: Seq<TransferArg>,
    results: Seq<Option<TransferResult>>,
    n: nat,
) -> Seq<Principal>
    decreases n,
{
    if n == 0 || n > args.len() || n > results.len() {
        list
    } else {
        let before = after_transfers(list, caller, args, results, (n - 1) as nat);
        if results[n - 1] matches Some(Ok(_)) {
            replaced(before, caller, args[n - 1].to.owner)
        } else {
            before
        }
    }
}

/// The list after the first `n` burns of a batch by `caller`: each burn
/// that succeeded takes the caller off the list once.
pub open spec fn after_burns(
    list: Seq<Principal>,
    caller: Principal,
    results: Seq<Option<Result<u128, BurnError>>>,
    n: nat,
) -> Seq<Principal>
    decreases n,
{
    if n == 0 || n > results.len() {
        list
    } else {
        let before = after_burns(list, caller, results, (n - 1) as nat);
        if results[n - 1] matches Some(Ok(_)) {
            removed(before, caller)
        } else {
            before
        }
    }
}

/// The first place where `list` holds `who`, if it does.
pub fn find_controller(list: &Vec<Principal>, who: Principal) -> (r: Option<usize>)
    ensures
        match r {
            Some(at) => at < list@.len() && at == place_of(list@, who, 0),
            None => place_of(list@, who, 0) == list@.len(),
        },
{
    let mut i: usize = 0;
    while i < list.len()
        invariant
            i <= list@.len(),
            place_of(list@, who, 0) == place_of(list@, who, i as nat),
        decreases list.len() - i,
    {
        if list[i] == who {
            return Some(i);
        }
        i = i + 1;
    }
    None
}

/// Replaces the first `old_one` on the list by `new_one`.
pub fn replace_controller(list: &mut Vec<Principal>, old_one: Principal, new_one: Principal)
    ensures
        final(list)@ == replaced(old(list)@, old_one, new_one),
{
    match find_controller(list, old_one) {
        Some(at) => {
            list.set(at, new_one);
        },
        None => {},
    }
}

/// Takes the first `who` off the list.
pub fn remove_controller(list: &mut Vec<Principal>, who: Principal)
    ensures
        final(list)@ == removed(old(list)@, who),
{
    match find_controller(list, who) {
        Some(at) => {
            list.remove(at);
        },
        None => {},
    }
}

/// The list of controllers after a batch of transfers by `caller` that
/// the ledger answered with `results`.
pub fn controllers_after_transfers(
    list: Vec<Principal>,
    caller: Principal,
    args: &Vec<TransferArg>,
    results: &Vec<Option<TransferResult>>,
) -> (r: Vec<Principal>)
    requires
        args@.len() == results@.len(),
    ensures
        r@ == after_transfers(list@, caller, args@, results@, args@.len()),
{
    let mut r = list;
    let mut i: usize = 0;
    while i < args.len()
        invariant
            i <= args@.len(),
            args@.len() == results@.len(),
            r@ == after_transfers(list@, caller, args@, results@, i as nat),
        decreases args.len() - i,
    {
        let moved = match results[i] {
            Some(Ok(_)) => true,
            _ => false,
        };
        if moved {
            replace_controller(&mut r, caller, args[i].to.owner);
        }
        i = i + 1;
    }
    r
}

/// The list of controllers after a batch of burns by `caller` that the
/// ledger answered with `results`.
pub fn controllers_after_burns(
    list: Vec<Principal>,
    caller: Principal,
    results: &Vec<Option<Result<u128, BurnError>>>,
) -> (r: Vec<Principal>)
    ensures
        r@ == after_burns(list@, caller, results@, results@.len()),
{
    let mut r = list;
    let mut i: usize = 0;
    while i < results.len()
        invariant
            i <= results@.len(),
            r@ == after_burns(list@, caller, results@, i as nat),
        decreases results.len() - i,
    {
        let burnt = match results[i] {
            Some(Ok(_)) => true,
            _ => false,
        };
        if burnt {
            remove_controller(&mut r, caller);
        }
        i = i + 1;
    }
    r
}

} // verus!
