use community_store::icrc7::{
    icrc7_name, icrc7_symbol, name_for, shorten, symbol_for,
    icrc7_atomic_batch_transfers, icrc7_balance_of, icrc7_default_take_value, icrc7_description,
    icrc7_logo, icrc7_max_memo_size, icrc7_max_query_batch_size, icrc7_max_take_value,
    icrc7_max_update_batch_size, icrc7_owner_of, icrc7_supply_cap, icrc7_supported_standards,
    icrc7_token_metadata, icrc7_tokens, icrc7_tokens_of, icrc7_total_supply, TokenMetadata,
};
use community_store::identity::{default_account, Account, Principal};
use community_store::ledger::Ledger;
use community_store::ledger_model::{MintArg, QueryError, TransferArg};

fn principal(n: u128) -> Principal {
    Principal { len: 2, high: 0, low: 0x0100 + n }
}

fn ledger_with_tokens(ids: &[u128]) -> Ledger {
    let mut ledger = Ledger::new(principal(0));
    for id in ids {
        let arg = MintArg {
            from_subaccount: None,
            to: Account { owner: principal(*id), subaccount: None },
            token_id: Some(*id),
            memo: None,
            token_name: Some(format!("Token {}", id)),
            token_description: None,
            token_logo: None,
        };
        assert!(ledger.mint(principal(99), true, 1, &arg).is_ok());
    }
    ledger
}

#[test]
fn the_fixed_facts_are_not_set() {
    assert_eq!(icrc7_description(), None);
    assert_eq!(icrc7_logo(), None);
    assert_eq!(icrc7_supply_cap(), None);
    assert_eq!(icrc7_max_query_batch_size(), None);
    assert_eq!(icrc7_max_update_batch_size(), None);
    assert_eq!(icrc7_default_take_value(), None);
    assert_eq!(icrc7_max_take_value(), None);
    assert_eq!(icrc7_max_memo_size(), None);
    assert_eq!(icrc7_atomic_batch_transfers(), None);
}

#[test]
fn the_ledger_follows_one_standard() {
    let standards = icrc7_supported_standards();
    assert_eq!(standards.len(), 1);
    assert_eq!(standards[0].name, "ICRC-7");
    assert_eq!(standards[0].url, "https://github.com/dfinity/ICRC/ICRCs/ICRC-7");
}

#[test]
fn owners_are_given_slot_by_slot() {
    let ledger = ledger_with_tokens(&[3, 5]);
    assert_eq!(
        icrc7_owner_of(&ledger, vec![5, 4, 3, 5]),
        vec![
            Some(default_account(&principal(5))),
            None,
            Some(default_account(&principal(3))),
            Some(default_account(&principal(5))),
        ]
    );
    assert_eq!(icrc7_owner_of(&ledger, Vec::new()), Vec::new());
}

#[test]
fn the_supply_counts_the_held_tokens() {
    assert_eq!(icrc7_total_supply(&Ledger::new(principal(0))), 0);
    assert_eq!(icrc7_total_supply(&ledger_with_tokens(&[3, 5, 9])), 3);
}

#[test]
fn tokens_are_listed_in_pages() {
    let ledger = ledger_with_tokens(&[9, 3, 5, 7]);
    assert_eq!(icrc7_tokens(&ledger, None, None), Ok(vec![3, 5, 7, 9]));
    assert_eq!(icrc7_tokens(&ledger, None, Some(2)), Ok(vec![3, 5]));
    assert_eq!(icrc7_tokens(&ledger, Some(5), Some(2)), Ok(vec![5, 7]));
    assert_eq!(icrc7_tokens(&ledger, Some(9), Some(32)), Ok(vec![9]));
    assert_eq!(icrc7_tokens(&ledger, Some(4), Some(2)), Ok(Vec::new()));
    assert_eq!(icrc7_tokens(&ledger, None, Some(0)), Ok(Vec::new()));
}

#[test]
fn a_page_larger_than_the_limit_is_an_error() {
    let ledger = ledger_with_tokens(&[3]);
    assert_eq!(icrc7_tokens(&ledger, None, Some(33)), Err(QueryError::ExceedsMaxTakeValue));
    assert_eq!(icrc7_tokens(&ledger, None, Some(32)), Ok(vec![3]));
    let account = default_account(&principal(3));
    assert_eq!(
        icrc7_tokens_of(&ledger, account, None, Some(33)),
        Err(QueryError::ExceedsMaxTakeValue)
    );
    assert_eq!(icrc7_tokens_of(&ledger, account, None, Some(32)), Ok(vec![3]));
}

#[test]
fn balances_and_holdings_follow_transfers() {
    let mut ledger = ledger_with_tokens(&[3, 5, 7]);
    let to_three = |token_id| TransferArg {
        from_subaccount: None,
        to: Account { owner: principal(3), subaccount: None },
        token_id,
        memo: None,
        created_at_time: None,
    };
    assert_eq!(ledger.transfer(principal(5), 2, &to_three(5)), Ok(4));
    assert_eq!(ledger.transfer(principal(7), 2, &to_three(7)), Ok(5));
    let three = Account { owner: principal(3), subaccount: None };
    let five = default_account(&principal(5));
    assert_eq!(icrc7_balance_of(&ledger, vec![three, five, three]), vec![3, 0, 3]);
    assert_eq!(icrc7_tokens_of(&ledger, three, None, None), Ok(vec![3, 5, 7]));
    assert_eq!(icrc7_tokens_of(&ledger, three, Some(5), Some(1)), Ok(vec![5]));
    assert_eq!(icrc7_tokens_of(&ledger, three, Some(4), None), Ok(Vec::new()));
    assert_eq!(icrc7_tokens_of(&ledger, five, None, None), Ok(Vec::new()));
}

#[test]
fn metadata_is_given_slot_by_slot() {
    let ledger = ledger_with_tokens(&[3]);
    assert_eq!(
        icrc7_token_metadata(&ledger, vec![3, 4]),
        Ok(vec![
            Some(TokenMetadata {
                name: Some("Token 3".to_string()),
                description: None,
                logo: None
            }),
            None,
        ])
    );
    assert_eq!(
        icrc7_token_metadata(&ledger, vec![1; 33]),
        Err(QueryError::ExceedsMaxQueryBatchSize)
    );
    assert_eq!(icrc7_token_metadata(&ledger, vec![1; 32]), Ok(vec![None; 32]));
}

#[test]
fn the_collection_is_named_after_its_ledger() {
    let ledger = Ledger::new(Principal { len: 1, high: 0, low: 4 });
    assert_eq!(icrc7_symbol(&ledger), "COM-2vxsx");
    assert_eq!(icrc7_name(&ledger), "Community 2vxsx");
    assert_eq!(symbol_for("abcdefgh"), "COM-abcde");
    assert_eq!(name_for("abc"), "Community abc");
    assert_eq!(shorten("abcde"), "abcde");
    assert_eq!(shorten(""), "");
    assert_eq!(shorten("\u{e9}\u{e9}\u{e9}\u{e9}\u{e9}\u{e9}"), "\u{e9}\u{e9}\u{e9}\u{e9}\u{e9}");
}
