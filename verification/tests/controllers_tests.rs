use community_store::controllers::{
    controllers_after_burns, controllers_after_transfers, find_controller, remove_controller,
    replace_controller,
};
use community_store::identity::{Account, Principal};
use community_store::ledger_model::{BurnError, TransferArg, TransferError};

fn principal(n: u128) -> Principal {
    Principal { len: 2, high: 0, low: 0x0100 + n }
}

fn to(n: u128) -> TransferArg {
    TransferArg {
        from_subaccount: None,
        to: Account { owner: principal(n), subaccount: None },
        token_id: 1,
        memo: None,
        created_at_time: None,
    }
}

#[test]
fn the_first_of_several_is_found() {
    let list = vec![principal(1), principal(2), principal(1)];
    assert_eq!(find_controller(&list, principal(1)), Some(0));
    assert_eq!(find_controller(&list, principal(2)), Some(1));
    assert_eq!(find_controller(&list, principal(3)), None);
    assert_eq!(find_controller(&Vec::new(), principal(3)), None);
}

#[test]
fn replacing_and_removing_touch_the_first_only() {
    let mut list = vec![principal(1), principal(2), principal(1)];
    replace_controller(&mut list, principal(1), principal(5));
    assert_eq!(list, vec![principal(5), principal(2), principal(1)]);
    replace_controller(&mut list, principal(9), principal(5));
    assert_eq!(list, vec![principal(5), principal(2), principal(1)]);
    remove_controller(&mut list, principal(2));
    assert_eq!(list, vec![principal(5), principal(1)]);
    remove_controller(&mut list, principal(2));
    assert_eq!(list, vec![principal(5), principal(1)]);
}

#[test]
fn each_transfer_that_succeeded_hands_control_on() {
    let list = vec![principal(0), principal(1)];
    let args = vec![to(2), to(3), to(4)];
    let results = vec![Some(Err(TransferError::Unauthorized)), Some(Ok(7)), None];
    assert_eq!(
        controllers_after_transfers(list, principal(1), &args, &results),
        vec![principal(0), principal(3)]
    );
}

#[test]
fn each_burn_that_succeeded_gives_control_up() {
    let list = vec![principal(1), principal(0), principal(1), principal(1)];
    let results = vec![Some(Ok(3)), Some(Err(BurnError::Unauthorized)), Some(Ok(4))];
    assert_eq!(
        controllers_after_burns(list, principal(1), &results),
        vec![principal(0), principal(1)]
    );
    assert_eq!(controllers_after_burns(Vec::new(), principal(1), &results), Vec::new());
}
