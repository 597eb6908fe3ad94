//! Who acts and who holds: principals, ledger accounts and the verified
//! identities behind a profile.

use vstd::prelude::*;

verus! {

/// An opaque identity of at most 29 bytes, held as its length and the
/// big-endian number that its bytes spell, split into two words.
#[derive(Clone, Copy, Debug, PartialEq, Eq, Structural, Hash)]
pub struct Principal {
    pub len: u8,
    pub high: u128,
    pub low: u128,
}

/// The key under which a principal is indexed.
pub type PrincipalKey = (u8, u128, u128);

impl Principal {
    /// The identity of a caller that did not sign its request: the single
    /// byte 4.
    pub open spec fn spec_anonymous() -> Principal {
        Principal { len: 1, high: 0, low: 4 }
    }

    #[verifier::when_used_as_spec(spec_anonymous)]
    pub fn anonymous() -> (p: Principal)
        ensures
            p == Self::spec_anonymous(),
    {
        Principal { len: 1, high: 0, low: 4 }
    }

    pub fn is_anonymous(&self) -> (r: bool)
        ensures
            r == (*self == Self::spec_anonymous()),
    {
        self.len == 1 && self.high == 0 && self.low == 4
    }

    pub open spec fn spec_key(&self) -> PrincipalKey {
        (self.len, self.high, self.low)
    }

    #[verifier::when_used_as_spec(spec_key)]
    pub fn key(&self) -> (k: PrincipalKey)
        ensures
            k == self.spec_key(),
    {
        (self.len, self.high, self.low)
    }
}

/// A 32-byte sub-identifier, as the big-endian number that its bytes spell.
#[derive(Clone, Copy, Debug, PartialEq, Eq, Structural, Hash)]
pub struct Subaccount {
    pub high: u128,
    pub low: u128,
}

/// A holder of tokens: an identity and an optional sub-identifier.
#[derive(Clone, Copy, Debug, PartialEq, Eq, Structural, Hash)]
pub struct Account {
    pub owner: Principal,
    pub subaccount: Option<Subaccount>,
}

/// The sub-identifier that stands for "none given": 32 zero bytes.
pub open spec fn spec_default_subaccount() -> Subaccount {
    Subaccount { high: 0, low: 0 }
}

/// The sub-identifier of the burn account: the 15 bytes of the text
/// `BURN SUBACCOUNT`, then 17 zero bytes.
pub open spec fn spec_burn_subaccount() -> Subaccount {
    Subaccount { high: 0x4255524e205355424143434f554e5400, low: 0 }
}

/// The account of `owner` under the default sub-identifier.
pub open spec fn spec_default_account(owner: Principal) -> Account {
    Account { owner, subaccount: Some(spec_default_subaccount()) }
}

/// The sentinel account that burnt tokens are booked to.
pub open spec fn spec_burn_account(ledger: Principal) -> Account {
    Account { owner: ledger, subaccount: Some(spec_burn_subaccount()) }
}

/// The account with a missing sub-identifier replaced by the default one.
pub open spec fn spec_account_transformer(account: Account) -> Account {
    match account.subaccount {
        Some(_) => account,
        None => spec_default_account(account.owner),
    }
}

pub fn default_account(owner: &Principal) -> (a: Account)
    ensures
        a == spec_default_account(*owner),
{
    Account { owner: *owner, subaccount: Some(Subaccount { high: 0, low: 0 }) }
}

#[verifier::when_used_as_spec(spec_burn_subaccount)]
pub fn burn_subaccount() -> (s: Subaccount)
    ensures
        s == spec_burn_subaccount(),
{
    Subaccount { high: 0x4255524e205355424143434f554e5400, low: 0 }
}

#[verifier::when_used_as_spec(spec_burn_account)]
pub fn burn_account(ledger: Principal) -> (a: Account)
    ensures
        a == spec_burn_account(ledger),
{
    Account { owner: ledger, subaccount: Some(burn_subaccount()) }
}

#[verifier::when_used_as_spec(spec_account_transformer)]
pub fn account_transformer(account: Account) -> (a: Account)
    ensures
        a == spec_account_transformer(account),
{
    match account.subaccount {
        Some(_) => account,
        None => default_account(&account.owner),
    }
}

/// Normalising an account twice is normalising it once, and a normalised
/// account always carries a sub-identifier.
pub proof fn lemma_account_transformer_idempotent(account: Account)
    ensures
        spec_account_transformer(spec_account_transformer(account)) == spec_account_transformer(
            account,
        ),
        spec_account_transformer(account).subaccount is Some,
        spec_account_transformer(account).owner == account.owner,
{
}

/// An address on an EVM chain, as the wallet prints it.
#[derive(Debug, PartialEq, Eq, Hash, Default)]
pub struct EvmParams {
    pub address: String,
}

/// An address on an SVM chain, as the wallet prints it.
#[derive(Debug, PartialEq, Eq, Hash, Default)]
pub struct SvmParams {
    pub address: String,
}

#[derive(Clone, Copy, Debug, PartialEq, Eq, Structural, Hash)]
pub struct IcParams {
    pub principal: Principal,
}

/// How a profile proved who it is.
#[derive(Debug, PartialEq, Eq, Hash)]
pub enum Authentication {
    Evm(EvmParams),
    Svm(SvmParams),
    Ic,
}

/// The verified identity of a profile: the kind of proof together with the
/// address that it proved.
#[derive(Debug, PartialEq, Eq, Hash)]
pub enum AuthenticationWithAddress {
    Evm(EvmParams),
    Svm(SvmParams),
    Ic(IcParams),
}

/// A signed login message of an EVM wallet.
#[derive(Debug, PartialEq, Eq, Hash, Default)]
pub struct EvmAuthenticationWithParams {
    pub message: String,
    pub signature: String,
}

/// A signed login message of an SVM wallet.
#[derive(Debug, PartialEq, Eq, Hash, Default)]
pub struct SvmAuthenticationWithParams {
    pub public_key: String,
    pub signature: String,
    pub message: String,
}

/// What a caller presents to log in.
#[derive(Debug, PartialEq, Eq, Hash)]
pub enum AuthenticationWith {
    Evm(EvmAuthenticationWithParams),
    Svm(SvmAuthenticationWithParams),
    Ic,
}

impl Clone for EvmParams {
    fn clone(&self) -> (r: Self)
        ensures
            r == *self,
    {
        EvmParams { address: self.address.clone() }
    }
}

impl Clone for SvmParams {
    fn clone(&self) -> (r: Self)
        ensures
            r == *self,
    {
        SvmParams { address: self.address.clone() }
    }
}

impl Clone for Authentication {
    fn clone(&self) -> (r: Self)
        ensures
            r == *self,
    {
        match self {
            Authentication::Evm(p) => Authentication::Evm(p.clone()),
            Authentication::Svm(p) => Authentication::Svm(p.clone()),
            Authentication::Ic => Authentication::Ic,
        }
    }
}

impl Clone for AuthenticationWithAddress {
    fn clone(&self) -> (r: Self)
        ensures
            r == *self,
    {
        match self {
            AuthenticationWithAddress::Evm(p) => AuthenticationWithAddress::Evm(p.clone()),
            AuthenticationWithAddress::Svm(p) => AuthenticationWithAddress::Svm(p.clone()),
            AuthenticationWithAddress::Ic(p) => AuthenticationWithAddress::Ic(*p),
        }
    }
}

impl Clone for EvmAuthenticationWithParams {
    fn clone(&self) -> (r: Self)
        ensures
            r == *self,
    {
        EvmAuthenticationWithParams {
            message: self.message.clone(),
            signature: self.signature.clone(),
        }
    }
}

impl Clone for SvmAuthenticationWithParams {
    fn clone(&self) -> (r: Self)
        ensures
            r == *self,
    {
        SvmAuthenticationWithParams {
            public_key: self.public_key.clone(),
            signature: self.signature.clone(),
            message: self.message.clone(),
        }
    }
}

impl Clone for AuthenticationWith {
    fn clone(&self) -> (r: Self)
        ensures
            r == *self,
    {
        match self {
            AuthenticationWith::Evm(p) => AuthenticationWith::Evm(p.clone()),
            AuthenticationWith::Svm(p) => AuthenticationWith::Svm(p.clone()),
            AuthenticationWith::Ic => AuthenticationWith::Ic,
        }
    }
}

/// What two verified identities are compared by: the kind, and the text of
/// the address or the principal.
pub enum IdentityKey {
    Evm(Seq<char>),
    Svm(Seq<char>),
    Ic(Principal),
}

impl View for AuthenticationWithAddress {
    type V = IdentityKey;

    open spec fn view(&self) -> IdentityKey {
        match self {
            AuthenticationWithAddress::Evm(p) => IdentityKey::Evm(p.address@),
            AuthenticationWithAddress::Svm(p) => IdentityKey::Svm(p.address@),
            AuthenticationWithAddress::Ic(p) => IdentityKey::Ic(p.principal),
        }
    }
}

impl AuthenticationWithAddress {
    /// Whether two verified identities are the same identity.
    pub fn same(&self, other: &AuthenticationWithAddress) -> (r: bool)
        ensures
            r == (self@ == other@),
    {
        match self {
            AuthenticationWithAddress::Evm(a) => match other {
                AuthenticationWithAddress::Evm(b) => a.address == b.address,
                _ => false,
            },
            AuthenticationWithAddress::Svm(a) => match other {
                AuthenticationWithAddress::Svm(b) => a.address == b.address,
                _ => false,
            },
            AuthenticationWithAddress::Ic(a) => match other {
                AuthenticationWithAddress::Ic(b) => a.principal == b.principal,
                _ => false,
            },
        }
    }
}

impl Authentication {
    pub fn is_ic(&self) -> (r: bool)
        ensures
            r == (*self is Ic),
    {
        match self {
            Authentication::Ic => true,
            _ => false,
        }
    }
}

/// The verified identity of a profile that proved itself by
/// `authentication` while `caller` was acting for it.
pub open spec fn spec_authentication_with_address(
    authentication: Authentication,
    caller: Principal,
) -> AuthenticationWithAddress {
    match authentication {
        Authentication::Evm(p) => AuthenticationWithAddress::Evm(p),
        Authentication::Svm(p) => AuthenticationWithAddress::Svm(p),
        Authentication::Ic => AuthenticationWithAddress::Ic(IcParams { principal: caller }),
    }
}

pub fn get_authentication_with_address(authentication: &Authentication, caller: &Principal) -> (r:
    AuthenticationWithAddress)
    ensures
        r == spec_authentication_with_address(*authentication, *caller),
{
    match authentication {
        Authentication::Evm(p) => AuthenticationWithAddress::Evm(p.clone()),
        Authentication::Svm(p) => AuthenticationWithAddress::Svm(p.clone()),
        Authentication::Ic => AuthenticationWithAddress::Ic(IcParams { principal: *caller }),
    }
}

} // verus!
