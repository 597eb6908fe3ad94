use community_store::identity::{
    account_transformer, burn_account, burn_subaccount, default_account, Account, Principal,
    Subaccount,
};
use community_store::ledger::Ledger;
use community_store::ledger_model::{
    BatchRejection, BurnArg, BurnError, MintArg, MintError, TransactionType, TransferArg,
    TransferError, DEFAULT_PERMITTED_DRIFT, DEFAULT_TX_WINDOW,
};

const NOW: u64 = 1_700_000_000_000_000_000;

fn principal(n: u128) -> Principal {
    Principal { len: 2, high: 0, low: 0x0100 + n }
}

fn canister() -> Principal {
    Principal { len: 10, high: 0, low: 0xffff_0000_0000_0001_0101 }
}

fn admin() -> Principal {
    principal(99)
}

fn mint_arg(to: Principal, token_id: Option<u128>) -> MintArg {
    MintArg {
        from_subaccount: None,
        to: Account { owner: to, subaccount: None },
        token_id,
        memo: None,
        token_name: None,
        token_description: None,
        token_logo: None,
    }
}

fn transfer_arg(to: Principal, token_id: u128, created_at_time: Option<u64>) -> TransferArg {
    TransferArg {
        from_subaccount: None,
        to: Account { owner: to, subaccount: None },
        token_id,
        memo: None,
        created_at_time,
    }
}

fn burn_arg(token_id: u128) -> BurnArg {
    BurnArg { from_subaccount: None, token_id, memo: None }
}

fn ledger_with_token_7_held_by(owner: Principal) -> Ledger {
    let mut ledger = Ledger::new(canister());
    assert_eq!(ledger.mint(admin(), true, NOW, &mint_arg(owner, Some(7))), Ok(1));
    ledger
}

#[test]
fn normalising_an_account_fills_in_the_default_subaccount() {
    let a = principal(1);
    let bare = Account { owner: a, subaccount: None };
    let full = Account { owner: a, subaccount: Some(Subaccount { high: 0, low: 0 }) };
    assert_eq!(account_transformer(bare), full);
    assert_eq!(account_transformer(full), full);
    assert_eq!(default_account(&a), full);
    let other = Account { owner: a, subaccount: Some(Subaccount { high: 0, low: 5 }) };
    assert_eq!(account_transformer(other), other);
    assert_ne!(account_transformer(other), full);
}

#[test]
fn the_burn_subaccount_spells_its_name() {
    let s = burn_subaccount();
    let mut bytes = Vec::new();
    bytes.extend_from_slice(&s.high.to_be_bytes());
    bytes.extend_from_slice(&s.low.to_be_bytes());
    assert_eq!(bytes.len(), 32);
    assert_eq!(&bytes[0..15], b"BURN SUBACCOUNT");
    assert!(bytes[15..].iter().all(|b| *b == 0));
    assert_eq!(burn_account(canister()).owner, canister());
    assert_eq!(burn_account(canister()).subaccount, Some(s));
}

#[test]
fn the_anonymous_principal_is_the_byte_four() {
    assert!(Principal::anonymous().is_anonymous());
    assert_eq!(Principal::anonymous(), Principal { len: 1, high: 0, low: 4 });
    assert!(!principal(1).is_anonymous());
}

#[test]
fn a_new_ledger_is_empty() {
    let ledger = Ledger::new(canister());
    assert_eq!(ledger.supply(), 0);
    assert_eq!(ledger.token_ids(), Vec::<u128>::new());
    assert_eq!(ledger.transactions().len(), 0);
    assert_eq!(ledger.canister(), canister());
    assert_eq!(ledger.owner_of(7), None);
    assert!(!ledger.is_used(7));
}

#[test]
fn mint_to_a_fresh_account_makes_it_the_holder() {
    let a = principal(1);
    let ledger = ledger_with_token_7_held_by(a);
    assert_eq!(ledger.owner_of(7), Some(default_account(&a)));
    assert_eq!(ledger.tokens_held_by(&default_account(&a)), vec![7]);
    assert!(ledger.holds_any(&default_account(&a)));
    assert_eq!(ledger.supply(), 1);
    let log = ledger.transactions();
    assert_eq!(log.len(), 1);
    assert_eq!(log[0].txn_id, 1);
    assert_eq!(log[0].ts, NOW);
    assert_eq!(log[0].memo, None);
    assert_eq!(log[0].op(), "7mint");
    assert_eq!(
        log[0].txn_type,
        TransactionType::Mint { tid: 7, from: default_account(&admin()), to: default_account(&a) }
    );
}

#[test]
fn mint_keeps_what_is_shown_of_the_token() {
    let mut ledger = Ledger::new(canister());
    let mut arg = mint_arg(principal(1), Some(7));
    arg.token_name = Some("Seven".to_string());
    arg.token_logo = Some("logo".to_string());
    assert_eq!(ledger.mint(admin(), true, NOW, &arg), Ok(1));
    let token = ledger.token(7).unwrap();
    assert_eq!(token.id, 7);
    assert_eq!(token.name, Some("Seven".to_string()));
    assert_eq!(token.description, None);
    assert_eq!(token.logo, Some("logo".to_string()));
    assert_eq!(token.owner, default_account(&principal(1)));
    assert!(ledger.token(8).is_none());
}

#[test]
fn mint_to_a_holder_fails_already_held() {
    let a = principal(1);
    let mut ledger = ledger_with_token_7_held_by(a);
    assert_eq!(ledger.mint(admin(), true, NOW, &mint_arg(a, Some(8))), Err(MintError::AlreadyHeld));
    assert_eq!(ledger.supply(), 1);
    assert_eq!(ledger.transactions().len(), 1);
    assert_eq!(ledger.owner_of(8), None);
}

#[test]
fn mint_to_a_holder_fails_already_held_whatever_else_is_wrong() {
    let a = principal(1);
    let mut ledger = ledger_with_token_7_held_by(a);
    let mut long_memo = mint_arg(a, Some(8));
    long_memo.memo = Some(vec![0u8; 33]);
    assert_eq!(ledger.mint(admin(), true, NOW, &long_memo), Err(MintError::AlreadyHeld));
    let mut used_id = mint_arg(a, Some(7));
    used_id.memo = Some(vec![0u8; 33]);
    assert_eq!(ledger.mint(admin(), true, NOW, &used_id), Err(MintError::AlreadyHeld));
    assert_eq!(ledger.mint(admin(), true, NOW, &mint_arg(a, None)), Err(MintError::AlreadyHeld));
    assert_eq!(ledger.mint(admin(), false, NOW, &long_memo), Err(MintError::Unauthorized));
    assert_eq!(
        ledger.mint(Principal::anonymous(), true, NOW, &long_memo),
        Err(MintError::AnonymousCaller)
    );
    assert_eq!(ledger.supply(), 1);
    assert_eq!(ledger.transactions().len(), 1);
    assert_eq!(ledger.token_ids(), vec![7]);
}

#[test]
fn a_used_id_is_told_before_a_long_memo_and_a_long_memo_before_the_last_id() {
    let mut ledger = ledger_with_token_7_held_by(principal(1));
    let mut used_id = mint_arg(principal(2), Some(7));
    used_id.memo = Some(vec![0u8; 33]);
    assert_eq!(ledger.mint(admin(), true, NOW, &used_id), Err(MintError::TokenIdAlreadyExist));
    let mut exhausted = Ledger::resume(canister(), u64::MAX);
    let mut long_memo = mint_arg(principal(2), None);
    long_memo.memo = Some(vec![0u8; 33]);
    assert_eq!(exhausted.mint(admin(), true, NOW, &long_memo), Err(MintError::MemoTooLong));
    assert_eq!(ledger.supply(), 1);
}

#[test]
fn mint_of_a_used_id_fails() {
    let mut ledger = ledger_with_token_7_held_by(principal(1));
    assert_eq!(
        ledger.mint(admin(), true, NOW, &mint_arg(principal(2), Some(7))),
        Err(MintError::TokenIdAlreadyExist)
    );
    assert_eq!(ledger.owner_of(7), Some(default_account(&principal(1))));
}

#[test]
fn mint_by_the_anonymous_caller_fails() {
    let mut ledger = Ledger::new(canister());
    assert_eq!(
        ledger.mint(Principal::anonymous(), true, NOW, &mint_arg(principal(1), Some(7))),
        Err(MintError::AnonymousCaller)
    );
    assert_eq!(ledger.supply(), 0);
}

#[test]
fn mint_without_authorization_fails() {
    let mut ledger = Ledger::new(canister());
    assert_eq!(
        ledger.mint(admin(), false, NOW, &mint_arg(principal(1), Some(7))),
        Err(MintError::Unauthorized)
    );
    assert_eq!(ledger.supply(), 0);
    assert_eq!(ledger.transactions().len(), 0);
}

#[test]
fn mint_with_a_memo_of_33_bytes_fails_and_32_pass() {
    let mut ledger = Ledger::new(canister());
    let mut arg = mint_arg(principal(1), Some(7));
    arg.memo = Some(vec![1u8; 33]);
    assert_eq!(ledger.mint(admin(), true, NOW, &arg), Err(MintError::MemoTooLong));
    arg.memo = Some(vec![1u8; 32]);
    assert_eq!(ledger.mint(admin(), true, NOW, &arg), Ok(1));
    assert_eq!(ledger.transactions()[0].memo, Some(vec![1u8; 32]));
}

#[test]
fn mint_without_an_id_draws_one() {
    let mut ledger = Ledger::new(canister());
    assert_eq!(ledger.mint(admin(), true, NOW, &mint_arg(principal(1), None)), Ok(1));
    assert_eq!(ledger.token_ids(), vec![18397679291040277274]);
    assert_eq!(ledger.mint(admin(), true, NOW, &mint_arg(principal(2), None)), Ok(2));
    assert_eq!(ledger.token_ids(), vec![18348614512665970229, 18397679291040277274]);
}

#[test]
fn mint_without_an_id_skips_ids_in_use() {
    let mut ledger = Ledger::new(canister());
    assert_eq!(
        ledger.mint(admin(), true, NOW, &mint_arg(principal(1), Some(18397679291040277274))),
        Ok(1)
    );
    assert_eq!(ledger.mint(admin(), true, NOW, &mint_arg(principal(2), None)), Ok(2));
    assert_eq!(
        ledger.owner_of(18348614512665970229),
        Some(default_account(&principal(2)))
    );
}

#[test]
fn transfer_moves_the_token() {
    let a = principal(1);
    let b = principal(2);
    let mut ledger = ledger_with_token_7_held_by(a);
    assert_eq!(ledger.transfer(a, NOW, &transfer_arg(b, 7, None)), Ok(2));
    assert_eq!(ledger.owner_of(7), Some(default_account(&b)));
    assert_eq!(ledger.tokens_held_by(&default_account(&b)), vec![7]);
    assert_eq!(ledger.tokens_held_by(&default_account(&a)), Vec::<u128>::new());
    let log = ledger.transactions();
    assert_eq!(log.len(), 2);
    assert_eq!(log[1].txn_id, 2);
    assert_eq!(log[1].ts, NOW);
    assert_eq!(log[1].op(), "7xfer");
    assert_eq!(
        log[1].txn_type,
        TransactionType::Transfer { tid: 7, from: default_account(&a), to: default_account(&b) }
    );
}

#[test]
fn transfer_is_logged_at_its_creation_time() {
    let a = principal(1);
    let mut ledger = ledger_with_token_7_held_by(a);
    let t = NOW - 5;
    assert_eq!(ledger.transfer(a, NOW, &transfer_arg(principal(2), 7, Some(t))), Ok(2));
    assert_eq!(ledger.transactions()[1].ts, t);
}

#[test]
fn transfer_of_an_unknown_token_fails() {
    let a = principal(1);
    let mut ledger = ledger_with_token_7_held_by(a);
    assert_eq!(
        ledger.transfer(a, NOW, &transfer_arg(principal(2), 8, None)),
        Err(TransferError::NonExistingTokenId)
    );
    assert_eq!(ledger.transactions().len(), 1);
}

#[test]
fn transfer_to_oneself_fails() {
    let a = principal(1);
    let mut ledger = ledger_with_token_7_held_by(a);
    assert_eq!(
        ledger.transfer(a, NOW, &transfer_arg(a, 7, None)),
        Err(TransferError::InvalidRecipient)
    );
    assert_eq!(ledger.owner_of(7), Some(default_account(&a)));
}

#[test]
fn transfer_to_oneself_is_tested_before_ownership() {
    let mut ledger = ledger_with_token_7_held_by(principal(1));
    let c = principal(3);
    assert_eq!(
        ledger.transfer(c, NOW, &transfer_arg(c, 7, None)),
        Err(TransferError::InvalidRecipient)
    );
}

#[test]
fn transfer_by_someone_else_fails() {
    let a = principal(1);
    let mut ledger = ledger_with_token_7_held_by(a);
    assert_eq!(
        ledger.transfer(principal(3), NOW, &transfer_arg(principal(2), 7, None)),
        Err(TransferError::Unauthorized)
    );
    assert_eq!(ledger.owner_of(7), Some(default_account(&a)));
    assert_eq!(ledger.transactions().len(), 1);
}

#[test]
fn transfer_from_another_subaccount_of_the_holder_fails() {
    let a = principal(1);
    let mut ledger = ledger_with_token_7_held_by(a);
    let mut arg = transfer_arg(principal(2), 7, None);
    arg.from_subaccount = Some(Subaccount { high: 0, low: 1 });
    assert_eq!(ledger.transfer(a, NOW, &arg), Err(TransferError::Unauthorized));
}

#[test]
fn transfer_created_too_long_ago_fails() {
    let a = principal(1);
    let mut ledger = ledger_with_token_7_held_by(a);
    let edge = NOW - DEFAULT_TX_WINDOW - DEFAULT_PERMITTED_DRIFT;
    assert_eq!(
        ledger.transfer(a, NOW, &transfer_arg(principal(2), 7, Some(edge - 1))),
        Err(TransferError::TooOld)
    );
    assert_eq!(ledger.transfer(a, NOW, &transfer_arg(principal(2), 7, Some(edge))), Ok(2));
}

#[test]
fn transfer_created_in_the_future_fails() {
    let a = principal(1);
    let mut ledger = ledger_with_token_7_held_by(a);
    let edge = NOW + DEFAULT_PERMITTED_DRIFT;
    assert_eq!(
        ledger.transfer(a, NOW, &transfer_arg(principal(2), 7, Some(edge + 1))),
        Err(TransferError::CreatedInFuture { ledger_time: NOW })
    );
    assert_eq!(ledger.transfer(a, NOW, &transfer_arg(principal(2), 7, Some(edge))), Ok(2));
}

#[test]
fn the_window_does_not_reach_below_zero_or_above_the_largest_time() {
    let a = principal(1);
    let mut ledger = ledger_with_token_7_held_by(a);
    assert_eq!(ledger.transfer(a, 5, &transfer_arg(principal(2), 7, Some(0))), Ok(2));
    let b = principal(2);
    assert_eq!(
        ledger.transfer(b, u64::MAX - 1, &transfer_arg(a, 7, Some(u64::MAX))),
        Ok(3)
    );
}

#[test]
fn a_repeated_transfer_is_a_duplicate_of_the_first() {
    let a = principal(1);
    let b = principal(2);
    let mut ledger = ledger_with_token_7_held_by(a);
    let t = NOW - 10;
    let request = transfer_arg(b, 7, Some(t));
    assert_eq!(ledger.transfer(a, NOW, &request), Ok(2));
    assert_eq!(ledger.transfer(b, NOW, &transfer_arg(a, 7, None)), Ok(3));
    assert_eq!(
        ledger.transfer(a, NOW + 1, &request),
        Err(TransferError::Duplicate { duplicate_of: 2 })
    );
    assert_eq!(ledger.owner_of(7), Some(default_account(&a)));
    assert_eq!(ledger.supply(), 1);
    assert_eq!(ledger.transactions().len(), 3);
}

#[test]
fn a_repeated_transfer_by_the_former_holder_is_unauthorized() {
    let a = principal(1);
    let b = principal(2);
    let mut ledger = ledger_with_token_7_held_by(a);
    let request = transfer_arg(b, 7, Some(NOW));
    assert_eq!(ledger.transfer(a, NOW, &request), Ok(2));
    assert_eq!(ledger.transfer(a, NOW, &request), Err(TransferError::Unauthorized));
    assert_eq!(ledger.owner_of(7), Some(default_account(&b)));
    assert_eq!(ledger.supply(), 1);
    assert_eq!(ledger.transactions().len(), 2);
}

#[test]
fn a_transfer_with_another_memo_or_time_is_no_duplicate() {
    let a = principal(1);
    let b = principal(2);
    let mut ledger = ledger_with_token_7_held_by(a);
    let t = NOW - 10;
    assert_eq!(ledger.transfer(a, NOW, &transfer_arg(b, 7, Some(t))), Ok(2));
    assert_eq!(ledger.transfer(b, NOW, &transfer_arg(a, 7, None)), Ok(3));
    let mut other_memo = transfer_arg(b, 7, Some(t));
    other_memo.memo = Some(vec![1, 2, 3]);
    assert_eq!(ledger.transfer(a, NOW, &other_memo), Ok(4));
    assert_eq!(ledger.transfer(b, NOW, &transfer_arg(a, 7, None)), Ok(5));
    assert_eq!(ledger.transfer(a, NOW, &transfer_arg(b, 7, Some(t + 1))), Ok(6));
    assert_eq!(ledger.transfer(b, NOW, &transfer_arg(a, 7, None)), Ok(7));
    assert_eq!(
        ledger.transfer(a, NOW, &other_memo),
        Err(TransferError::Duplicate { duplicate_of: 4 })
    );
}

#[test]
fn the_walk_for_duplicates_stops_at_an_entry_older_than_the_window() {
    let a = principal(1);
    let b = principal(2);
    let mut ledger = Ledger::new(canister());
    let early = 1_000_000_000_000_000_000;
    assert_eq!(ledger.mint(admin(), true, early, &mint_arg(a, Some(7))), Ok(1));
    let request = transfer_arg(b, 7, Some(NOW));
    assert_eq!(ledger.transfer(a, NOW, &request), Ok(2));
    assert_eq!(ledger.transfer(b, early, &transfer_arg(a, 7, None)), Ok(3));
    assert_eq!(ledger.transfer(a, NOW, &request), Ok(4));
    assert_eq!(ledger.transactions().len(), 4);
}

#[test]
fn burn_clears_the_holder_for_good() {
    let a = principal(1);
    let mut ledger = ledger_with_token_7_held_by(a);
    assert_eq!(ledger.burn_one(a, NOW, &burn_arg(7)), Ok(2));
    assert_eq!(ledger.owner_of(7), None);
    assert!(ledger.is_used(7));
    assert_eq!(ledger.supply(), 0);
    assert_eq!(
        ledger.mint(admin(), true, NOW, &mint_arg(principal(2), Some(7))),
        Err(MintError::TokenIdAlreadyExist)
    );
    assert_eq!(
        ledger.mint(admin(), true, NOW, &mint_arg(a, Some(7))),
        Err(MintError::TokenIdAlreadyExist)
    );
    assert_eq!(ledger.burn_one(a, NOW, &burn_arg(7)), Err(BurnError::NonExistingTokenId));
    assert_eq!(
        ledger.transfer(a, NOW, &transfer_arg(principal(2), 7, None)),
        Err(TransferError::NonExistingTokenId)
    );
    let log = ledger.transactions();
    assert_eq!(log.len(), 2);
    assert_eq!(log[1].op(), "7burn");
    assert_eq!(
        log[1].txn_type,
        TransactionType::Burn {
            tid: 7,
            from: default_account(&a),
            to: burn_account(canister())
        }
    );
}

#[test]
fn burn_by_someone_else_fails() {
    let mut ledger = ledger_with_token_7_held_by(principal(1));
    assert_eq!(ledger.burn_one(principal(2), NOW, &burn_arg(7)), Err(BurnError::Unauthorized));
    assert_eq!(ledger.supply(), 1);
}

#[test]
fn burn_with_a_long_memo_fails_first() {
    let mut ledger = ledger_with_token_7_held_by(principal(1));
    let mut arg = burn_arg(8);
    arg.memo = Some(vec![0u8; 33]);
    assert_eq!(ledger.burn_one(principal(1), NOW, &arg), Err(BurnError::MemoTooLong));
    let mut arg = burn_arg(7);
    arg.memo = Some(vec![9u8; 32]);
    assert_eq!(ledger.burn_one(principal(1), NOW, &arg), Ok(2));
    assert_eq!(ledger.transactions()[1].memo, Some(vec![9u8; 32]));
}

#[test]
fn a_batch_by_the_anonymous_caller_is_rejected_as_a_whole() {
    let mut ledger = Ledger::new(canister());
    let args = vec![
        mint_arg(principal(1), Some(1)),
        mint_arg(principal(2), Some(2)),
        mint_arg(principal(3), Some(3)),
    ];
    let results = ledger.mint_batch(Principal::anonymous(), true, NOW, args);
    let rejected = Some(Err(MintError::BatchRejected { reason: BatchRejection::AnonymousCaller }));
    assert_eq!(results, vec![rejected, rejected, rejected]);
    assert_eq!(ledger.supply(), 0);
    assert_eq!(ledger.transactions().len(), 0);
}

#[test]
fn a_batch_by_an_unauthorized_caller_is_rejected_as_a_whole() {
    let a = principal(1);
    let mut ledger = ledger_with_token_7_held_by(a);
    let results = ledger.icrc7_transfer(a, false, NOW, vec![transfer_arg(principal(2), 7, None)]);
    assert_eq!(
        results,
        vec![Some(Err(TransferError::BatchRejected {
            reason: BatchRejection::UnauthorizedCaller
        }))]
    );
    assert_eq!(ledger.owner_of(7), Some(default_account(&a)));
    let results = ledger.burn(a, false, NOW, vec![burn_arg(7), burn_arg(7)]);
    let rejected =
        Some(Err(BurnError::BatchRejected { reason: BatchRejection::UnauthorizedCaller }));
    assert_eq!(results, vec![rejected, rejected]);
    assert_eq!(ledger.supply(), 1);
}

#[test]
fn an_empty_batch_is_rejected_in_one_slot() {
    let mut ledger = Ledger::new(canister());
    let rejected = BatchRejection::EmptyBatch;
    assert_eq!(
        ledger.icrc7_transfer(admin(), true, NOW, Vec::new()),
        vec![Some(Err(TransferError::BatchRejected { reason: rejected }))]
    );
    assert_eq!(
        ledger.burn(admin(), true, NOW, Vec::new()),
        vec![Some(Err(BurnError::BatchRejected { reason: rejected }))]
    );
    assert_eq!(
        ledger.mint_batch(admin(), true, NOW, Vec::new()),
        vec![Some(Err(MintError::BatchRejected { reason: rejected }))]
    );
    assert_eq!(
        ledger.mint_batch(Principal::anonymous(), true, NOW, Vec::new()),
        vec![Some(Err(MintError::BatchRejected { reason: BatchRejection::AnonymousCaller }))]
    );
}

#[test]
fn a_batch_of_33_is_too_large_and_one_of_32_is_not() {
    let mut ledger = Ledger::new(canister());
    let args: Vec<MintArg> = (0..33).map(|i| mint_arg(principal(i), Some(i))).collect();
    let results = ledger.mint_batch(admin(), true, NOW, args);
    assert_eq!(results.len(), 33);
    assert!(results.iter().all(|r| *r
        == Some(Err(MintError::BatchRejected { reason: BatchRejection::BatchTooLarge }))));
    assert_eq!(ledger.supply(), 0);
    let args: Vec<MintArg> = (0..32).map(|i| mint_arg(principal(i), Some(i))).collect();
    let results = ledger.mint_batch(admin(), true, NOW, args);
    assert_eq!(results.len(), 32);
    for (i, r) in results.iter().enumerate() {
        assert_eq!(*r, Some(Ok(i as u128 + 1)));
    }
    assert_eq!(ledger.supply(), 32);
}

#[test]
fn the_items_of_a_batch_fail_one_by_one() {
    let a = principal(1);
    let b = principal(2);
    let c = principal(3);
    let mut ledger = Ledger::new(canister());
    let minted = ledger.mint_batch(
        admin(),
        true,
        NOW,
        vec![mint_arg(a, Some(7)), mint_arg(a, Some(8)), mint_arg(b, Some(7)), mint_arg(b, Some(9))],
    );
    assert_eq!(
        minted,
        vec![
            Some(Ok(1)),
            Some(Err(MintError::AlreadyHeld)),
            Some(Err(MintError::TokenIdAlreadyExist)),
            Some(Ok(2)),
        ]
    );
    let moved = ledger.icrc7_transfer(
        a,
        true,
        NOW,
        vec![
            transfer_arg(c, 5, None),
            transfer_arg(a, 7, None),
            transfer_arg(c, 9, None),
            transfer_arg(c, 7, None),
            transfer_arg(b, 7, None),
        ],
    );
    assert_eq!(
        moved,
        vec![
            Some(Err(TransferError::NonExistingTokenId)),
            Some(Err(TransferError::InvalidRecipient)),
            Some(Err(TransferError::Unauthorized)),
            Some(Ok(3)),
            Some(Err(TransferError::Unauthorized)),
        ]
    );
    assert_eq!(ledger.owner_of(7), Some(default_account(&c)));
    let burnt = ledger.burn(b, true, NOW, vec![burn_arg(7), burn_arg(9), burn_arg(9)]);
    assert_eq!(
        burnt,
        vec![
            Some(Err(BurnError::Unauthorized)),
            Some(Ok(4)),
            Some(Err(BurnError::NonExistingTokenId)),
        ]
    );
    assert_eq!(ledger.token_ids(), vec![7]);
    assert_eq!(ledger.transactions().len(), 4);
}

#[test]
fn a_ledger_that_ran_out_of_ids_of_its_own_says_so() {
    let mut ledger = Ledger::resume(canister(), u64::MAX);
    assert_eq!(
        ledger.mint(admin(), true, NOW, &mint_arg(principal(1), None)),
        Err(MintError::SupplyCapReached)
    );
    assert_eq!(ledger.supply(), 0);
    assert_eq!(ledger.mint(admin(), true, NOW, &mint_arg(principal(1), Some(7))), Ok(1));
    let mut ledger = Ledger::resume(canister(), u64::MAX - 1);
    assert_eq!(ledger.mint(admin(), true, NOW, &mint_arg(principal(1), None)), Ok(1));
    assert_eq!(
        ledger.mint(admin(), true, NOW, &mint_arg(principal(2), None)),
        Err(MintError::SupplyCapReached)
    );
}
