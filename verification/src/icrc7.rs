//! What the ledger answers without changing: holders, listings, balances
//! and the fixed facts about the collection.

use crate::identity::{account_transformer, spec_account_transformer, Account};
use crate::crypto::text_of_principal;
use crate::ledger::Ledger;
use crate::login::text_of;
use crate::principal_bytes::MAX_PRINCIPAL_BYTES;
use crate::ledger_model::{
    QueryError, DEFAULT_MAX_QUERY_BATCH_SIZE, DEFAULT_MAX_TAKE_VALUE, DEFAULT_TAKE_VALUE,
};
use crate::ordered::enumerates_wide;
use crate::paging::{page, paginate};
use vstd::prelude::*;

verus! {

/// A standard that the ledger follows.
#[derive(Debug, PartialEq, Eq)]
pub struct Standard {
    pub name: String,
    pub url: String,
}

/// What is shown of a token.
#[derive(Debug, PartialEq, Eq)]
pub struct TokenMetadata {
    pub name: Option<String>,
    pub description: Option<String>,
    pub logo: Option<String>,
}

impl Clone for TokenMetadata {
    fn clone(&self) -> (r: Self)
        ensures
            r == *self,
    {
        TokenMetadata {
            name: crate::ledger::copy_text(&self.name),
            description: crate::ledger::copy_text(&self.description),
            logo: crate::ledger::copy_text(&self.logo),
        }
    }
}

/// How many ids a listing returns when asked for `take`.
pub open spec fn take_value(take: Option<u128>) -> u128 {
    match take {
        Some(n) => n,
        None => DEFAULT_TAKE_VALUE,
    }
}

/// The first five characters of a text, or all of it where it is
/// shorter.
pub open spec fn short_name(text: Seq<char>) -> Seq<char> {
    if text.len() >= 5 {
        text.take(5)
    } else {
        text
    }
}

/// The first five characters of a text, or all of it where it is
/// shorter.
pub fn shorten(text: &str) -> (r: &str)
    ensures
        r@ == short_name(text@),
{
    let n = text.unicode_len();
    if n >= 5 {
        text.substring_char(0, 5)
    } else {
        proof {
            assert(text@.subrange(0, n as int) =~= text@);
        }
        text.substring_char(0, n)
    }
}

/// The symbol of the collection of the ledger whose identity has the text
/// form `canister`.
pub fn symbol_for(canister: &str) -> (r: String)
    ensures
        r@ == "COM-"@ + short_name(canister@),
{
    let mut r = String::from_str("COM-");
    r.append(shorten(canister));
    r
}

/// The name of the collection of the ledger whose identity has the text
/// form `canister`.
pub fn name_for(canister: &str) -> (r: String)
    ensures
        r@ == "Community "@ + short_name(canister@),
{
    let mut r = String::from_str("Community ");
    r.append(shorten(canister));
    r
}

pub fn icrc7_symbol(ledger: &Ledger) -> (r: String)
    requires
        ledger@.canister.len <= MAX_PRINCIPAL_BYTES,
    ensures
        r@ == "COM-"@ + short_name(text_of_principal(ledger@.canister.spec_bytes())),
{
    symbol_for(text_of(&ledger.canister()).as_str())
}

pub fn icrc7_name(ledger: &Ledger) -> (r: String)
    requires
        ledger@.canister.len <= MAX_PRINCIPAL_BYTES,
    ensures
        r@ == "Community "@ + short_name(text_of_principal(ledger@.canister.spec_bytes())),
{
    name_for(text_of(&ledger.canister()).as_str())
}

pub fn icrc7_description() -> (r: Option<String>)
    ensures
        r is None,
{
    None
}

pub fn icrc7_logo() -> (r: Option<String>)
    ensures
        r is None,
{
    None
}

pub fn icrc7_supply_cap() -> (r: Option<u128>)
    ensures
        r is None,
{
    None
}

pub fn icrc7_max_query_batch_size() -> (r: Option<u128>)
    ensures
        r is None,
{
    None
}

pub fn icrc7_max_update_batch_size() -> (r: Option<u128>)
    ensures
        r is None,
{
    None
}

pub fn icrc7_default_take_value() -> (r: Option<u128>)
    ensures
        r is None,
{
    None
}

pub fn icrc7_max_take_value() -> (r: Option<u128>)
    ensures
        r is None,
{
    None
}

pub fn icrc7_max_memo_size() -> (r: Option<u128>)
    ensures
        r is None,
{
    None
}

pub fn icrc7_atomic_batch_transfers() -> (r: Option<bool>)
    ensures
        r is None,
{
    None
}

pub fn icrc7_supported_standards() -> (r: Vec<Standard>)
    ensures
        r@.len() == 1,
        r@[0].name@ == "ICRC-7"@,
        r@[0].url@ == "https://github.com/dfinity/ICRC/ICRCs/ICRC-7"@,
{
    let mut r: Vec<Standard> = Vec::new();
    r.push(
        Standard {
            name: String::from_str("ICRC-7"),
            url: String::from_str("https://github.com/dfinity/ICRC/ICRCs/ICRC-7"),
        },
    );
    r
}

/// How many tokens are held.
pub fn icrc7_total_supply(ledger: &Ledger) -> (n: u128)
    ensures
        n == ledger@.tokens.dom().len(),
{
    ledger.supply() as u128
}

/// For each id, who holds the token, if it is held.
pub fn icrc7_owner_of(ledger: &Ledger, ids: Vec<u128>) -> (r: Vec<Option<Account>>)
    ensures
        r@.len() == ids@.len(),
        forall|i: int| 0 <= i < r@.len() ==> r@[i] == ledger@.owner_of(ids@[i]),
{
    let mut r: Vec<Option<Account>> = Vec::new();
    let mut i: usize = 0;
    while i < ids.len()
        invariant
            i <= ids.len(),
            r@.len() == i,
            forall|j: int| 0 <= j < i ==> r@[j] == ledger@.owner_of(ids@[j]),
        decreases ids.len() - i,
    {
        r.push(ledger.owner_of(ids[i]));
        i = i + 1;
    }
    r
}

/// A page of the ids of the tokens that are held, smallest first. Asking
/// for more than the largest page is an error.
pub fn icrc7_tokens(ledger: &Ledger, prev: Option<u128>, take: Option<u128>) -> (r: Result<
    Vec<u128>,
    QueryError,
>)
    ensures
        match r {
            Ok(v) => take_value(take) <= DEFAULT_MAX_TAKE_VALUE && exists|all: Seq<u128>|
                #![trigger enumerates_wide(all, ledger@.tokens.dom())]
                enumerates_wide(all, ledger@.tokens.dom()) && v@ == page(
                    all,
                    prev,
                    take_value(take) as nat,
                ),
            Err(e) => take_value(take) > DEFAULT_MAX_TAKE_VALUE && e
                == QueryError::ExceedsMaxTakeValue,
        },
{
    let take = match take {
        Some(n) => n,
        None => DEFAULT_TAKE_VALUE,
    };
    if take > DEFAULT_MAX_TAKE_VALUE {
        return Err(QueryError::ExceedsMaxTakeValue);
    }
    let all = ledger.token_ids();
    Ok(paginate(&all, prev, take))
}

/// For each id, what is shown of the token, if it is held. Asking about
/// more ids than the largest batch is an error.
pub fn icrc7_token_metadata(ledger: &Ledger, token_ids: Vec<u128>) -> (r: Result<
    Vec<Option<TokenMetadata>>,
    QueryError,
>)
    ensures
        match r {
            Ok(v) => {
                &&& token_ids@.len() <= DEFAULT_MAX_QUERY_BATCH_SIZE
                &&& v@.len() == token_ids@.len()
                &&& forall|i: int|
                    0 <= i < v@.len() ==> v@[i] == (if ledger@.tokens.contains_key(token_ids@[i]) {
                        let t = ledger@.tokens[token_ids@[i]];
                        Some(
                            TokenMetadata { name: t.name, description: t.description, logo: t.logo },
                        )
                    } else {
                        None::<TokenMetadata>
                    })
            },
            Err(e) => token_ids@.len() > DEFAULT_MAX_QUERY_BATCH_SIZE && e
                == QueryError::ExceedsMaxQueryBatchSize,
        },
{
    if token_ids.len() > 32 {
        return Err(QueryError::ExceedsMaxQueryBatchSize);
    }
    let mut v: Vec<Option<TokenMetadata>> = Vec::new();
    let mut i: usize = 0;
    while i < token_ids.len()
        invariant
            i <= token_ids.len(),
            v@.len() == i,
            forall|j: int|
                0 <= j < i ==> v@[j] == (if ledger@.tokens.contains_key(token_ids@[j]) {
                    let t = ledger@.tokens[token_ids@[j]];
                    Some(TokenMetadata { name: t.name, description: t.description, logo: t.logo })
                } else {
                    None::<TokenMetadata>
                }),
        decreases token_ids.len() - i,
    {
        let entry = match ledger.token(token_ids[i]) {
            Some(t) => Some(
                TokenMetadata {
                    name: crate::ledger::copy_text(&t.name),
                    description: crate::ledger::copy_text(&t.description),
                    logo: crate::ledger::copy_text(&t.logo),
                },
            ),
            None => None,
        };
        v.push(entry);
        i = i + 1;
    }
    Ok(v)
}

/// For each account, how many tokens it holds.
pub fn icrc7_balance_of(ledger: &Ledger, accounts: Vec<Account>) -> (r: Vec<u128>)
    ensures
        r@.len() == accounts@.len(),
        forall|i: int|
            0 <= i < r@.len() ==> r@[i] == ledger@.tokens_of(
                spec_account_transformer(accounts@[i]),
            ).len(),
{
    let mut r: Vec<u128> = Vec::new();
    let mut i: usize = 0;
    while i < accounts.len()
        invariant
            i <= accounts.len(),
            r@.len() == i,
            forall|j: int|
                0 <= j < i ==> r@[j] == ledger@.tokens_of(
                    spec_account_transformer(accounts@[j]),
                ).len(),
        decreases accounts.len() - i,
    {
        let account = account_transformer(accounts[i]);
        let held = ledger.tokens_held_by(&account);
        r.push(held.len() as u128);
        i = i + 1;
    }
    r
}

/// A page of the ids of the tokens that `account` holds, smallest first.
/// Asking for more than the largest page is an error.
pub fn icrc7_tokens_of(ledger: &Ledger, account: Account, prev: Option<u128>, take: Option<u128>) -> (r:
    Result<Vec<u128>, QueryError>)
    ensures
        match r {
            Ok(v) => take_value(take) <= DEFAULT_MAX_TAKE_VALUE && exists|all: Seq<u128>|
                #![trigger enumerates_wide(all, ledger@.tokens_of(spec_account_transformer(account)))]
                enumerates_wide(all, ledger@.tokens_of(spec_account_transformer(account))) && v@
                    == page(all, prev, take_value(take) as nat),
            Err(e) => take_value(take) > DEFAULT_MAX_TAKE_VALUE && e
                == QueryError::ExceedsMaxTakeValue,
        },
{
    let take = match take {
        Some(n) => n,
        None => DEFAULT_TAKE_VALUE,
    };
    if take > DEFAULT_MAX_TAKE_VALUE {
        return Err(QueryError::ExceedsMaxTakeValue);
    }
    let account = account_transformer(account);
    let all = ledger.tokens_held_by(&account);
    Ok(paginate(&all, prev, take))
}

} // verus!
