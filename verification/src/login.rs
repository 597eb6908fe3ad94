//! The login check: the message that a wallet signs for a principal, the
//! address that a signature proves, and the profile that a proven
//! identity logs in to.

use crate::crypto::{
    base58_encode, base58_of, ed25519_accepts, ed25519_verify, hex_chars, hex_decode, hex_digit,
    hex_encode, is_hex_text, keccak256, keccak256_of, principal_text, recover_public_key,
    secp256k1_recovered, text_of_principal, unhex,
};
use crate::entities::Profile;
use crate::handlers::log_in;
use crate::identity::{
    Authentication, AuthenticationWith, EvmAuthenticationWithParams, EvmParams, Principal,
    SvmAuthenticationWithParams, SvmParams,
};

use crate::principal_bytes::MAX_PRINCIPAL_BYTES;
use crate::state::State;
use crate::text::{decimal, decimal_chars, strip_0x, stripped};
use vstd::prelude::*;
use vstd::string::StrSliceExecFns;
use vstd::string::StringExecFns;
use vstd::utf8::encode_utf8;

verus! {

/// The message that a wallet signs to log a principal in, for the
/// principal's text form.
pub open spec fn login_text(principal: Seq<char>) -> Seq<char> {
    "Sign this message to login.\n\nApp:\ncommunities.ooo\n\nAddress:\n"@ + principal + "\n\n"@
}

/// What an EVM wallet hashes when it signs `message`: a fixed prefix, the
/// number of bytes of the message in decimal, and the message.
pub open spec fn signing_text(message: Seq<char>) -> Seq<char> {
    "\x19Ethereum Signed Message:\n"@ + decimal_chars(encode_utf8(message).len()) + message
}

/// The message that an EVM wallet signs for a principal, as the hex text
/// of its hash.
pub open spec fn evm_login_hex(principal: Principal) -> Seq<char> {
    hex_chars(
        keccak256_of(
            encode_utf8(signing_text(login_text(text_of_principal(principal.spec_bytes())))),
        ),
    )
}

/// The message that an SVM wallet signs for a principal, as hex text.
pub open spec fn svm_login_hex(principal: Principal) -> Seq<char> {
    hex_chars(encode_utf8(login_text(text_of_principal(principal.spec_bytes()))))
}

/// The message that a wallet signs to log a principal in.
pub fn login_message(principal: &str) -> (message: String)
    ensures
        message@ == login_text(principal@),
{
    let mut message = String::from_str(
        "Sign this message to login.\n\nApp:\ncommunities.ooo\n\nAddress:\n",
    );
    message.append(principal);
    message.append("\n\n");
    message
}

/// What an EVM wallet hashes when it signs `message`.
pub fn signing_input(message: &str) -> (input: Vec<u8>)
    ensures
        input@ == encode_utf8(signing_text(message@)),
{
    let length = message.as_bytes_vec().len();
    let mut text = String::from_str("\x19Ethereum Signed Message:\n");
    text.append(decimal(length).as_str());
    text.append(message);
    text.as_str().as_bytes_vec()
}

/// The text form of a principal.
pub fn text_of(principal: &Principal) -> (text: String)
    requires
        principal.len <= MAX_PRINCIPAL_BYTES,
    ensures
        text@ == text_of_principal(principal.spec_bytes()),
{
    principal_text(&principal.to_bytes())
}

pub fn login_message_hex_evm(principal: &Principal) -> (hex: String)
    requires
        principal.len <= MAX_PRINCIPAL_BYTES,
    ensures
        hex@ == evm_login_hex(*principal),
{
    let message = login_message(text_of(principal).as_str());
    hex_encode(&keccak256(&signing_input(message.as_str())))
}

pub fn login_message_hex_svm(principal: &Principal) -> (hex: String)
    requires
        principal.len <= MAX_PRINCIPAL_BYTES,
    ensures
        hex@ == svm_login_hex(*principal),
{
    let message = login_message(text_of(principal).as_str());
    hex_encode(&message.as_str().as_bytes_vec())
}

/// Half-byte `i` of `bytes`, the upper half of a byte first: the value of
/// digit `i` of the hex text of `bytes`.
pub open spec fn nibble(bytes: Seq<u8>, i: int) -> u8 {
    if i % 2 == 0 {
        bytes[i / 2] / 16
    } else {
        bytes[i / 2] % 16
    }
}

/// The hex digit for a value below 16, in upper case where `upper` says
/// so.
pub open spec fn cased_digit(value: u8, upper: bool) -> char {
    if upper && value >= 10 {
        (55 + value) as u8 as char
    } else {
        hex_digit(value)
    }
}

/// An address with its checksum: `0x` and the hex text of the address, in
/// which digit `i` is in upper case where half-byte `i` of `digest` is 8
/// or more.
pub open spec fn checksum_chars(address: Seq<u8>, digest: Seq<u8>) -> Seq<char> {
    "0x"@ + Seq::new(
        2 * address.len(),
        |i: int| cased_digit(nibble(address, i), nibble(digest, i) >= 8),
    )
}

/// The address of an EVM key in its 65-byte form: the last 20 bytes of
/// the hash of the key without its first byte, written with the checksum
/// that the hash of their lower-case hex text gives.
pub open spec fn evm_address_of(key: Seq<u8>) -> Seq<char> {
    let address = keccak256_of(key.skip(1)).skip(12);
    checksum_chars(address, keccak256_of(encode_utf8(hex_chars(address))))
}

/// The key that an EVM login proves: the one recovered from the hex text
/// of a 32-byte message and of a 65-byte signature, whose last byte is the
/// recovery byte. A leading `0x` does not count.
pub open spec fn evm_key_of(message: Seq<char>, signature: Seq<char>) -> Option<Seq<u8>> {
    let s = stripped(signature);
    let m = stripped(message);
    if is_hex_text(s) && unhex(s).len() == 65 && is_hex_text(m) && unhex(m).len() == 32 {
        secp256k1_recovered(unhex(m), unhex(s).take(64), unhex(s)[64])
    } else {
        None
    }
}

/// The address that an SVM login proves: the Base58 text of the 32-byte
/// key, where the 64-byte signature is one of the message under the key.
/// All three come as hex text.
pub open spec fn svm_address_of(
    public_key: Seq<char>,
    message: Seq<char>,
    signature: Seq<char>,
) -> Option<Seq<char>> {
    if is_hex_text(public_key) && is_hex_text(signature) && is_hex_text(message) && unhex(
        public_key,
    ).len() == 32 && unhex(signature).len() == 64 && ed25519_accepts(
        unhex(public_key),
        unhex(message),
        unhex(signature),
    ) {
        Some(base58_of(unhex(public_key)))
    } else {
        None
    }
}

/// The text of one hex digit.
pub fn hex_text(value: u8, upper: bool) -> (r: &'static str)
    requires
        value < 16,
    ensures
        r@ == seq![cased_digit(value, upper)],
{
    proof {
        reveal_strlit("0");
        reveal_strlit("1");
        reveal_strlit("2");
        reveal_strlit("3");
        reveal_strlit("4");
        reveal_strlit("5");
        reveal_strlit("6");
        reveal_strlit("7");
        reveal_strlit("8");
        reveal_strlit("9");
        reveal_strlit("a");
        reveal_strlit("b");
        reveal_strlit("c");
        reveal_strlit("d");
        reveal_strlit("e");
        reveal_strlit("f");
        reveal_strlit("A");
        reveal_strlit("B");
        reveal_strlit("C");
        reveal_strlit("D");
        reveal_strlit("E");
        reveal_strlit("F");
    }
    let r = if value == 0 {
        "0"
    } else if value == 1 {
        "1"
    } else if value == 2 {
        "2"
    } else if value == 3 {
        "3"
    } else if value == 4 {
        "4"
    } else if value == 5 {
        "5"
    } else if value == 6 {
        "6"
    } else if value == 7 {
        "7"
    } else if value == 8 {
        "8"
    } else if value == 9 {
        "9"
    } else if value == 10 {
        if upper {
            "A"
        } else {
            "a"
        }
    } else if value == 11 {
        if upper {
            "B"
        } else {
            "b"
        }
    } else if value == 12 {
        if upper {
            "C"
        } else {
            "c"
        }
    } else if value == 13 {
        if upper {
            "D"
        } else {
            "d"
        }
    } else if value == 14 {
        if upper {
            "E"
        } else {
            "e"
        }
    } else {
        if upper {
            "F"
        } else {
            "f"
        }
    };
    assert(r@ =~= seq![cased_digit(value, upper)]);
    r
}

/// Writes an address with its checksum, which the digest gives.
pub fn checksum_evm_address(address: &Vec<u8>, digest: &Vec<u8>) -> (text: String)
    requires
        address@.len() <= digest@.len(),
    ensures
        text@ == checksum_chars(address@, digest@),
{
    let mut text = String::from_str("0x");
    let ghost digits = Seq::new(
        2 * address@.len(),
        |i: int| cased_digit(nibble(address@, i), nibble(digest@, i) >= 8),
    );
    let n = address.len();
    let mut j: usize = 0;
    while j < n
        invariant
            j <= n,
            n == address@.len(),
            n <= digest@.len(),
            digits == Seq::new(
                2 * address@.len(),
                |i: int| cased_digit(nibble(address@, i), nibble(digest@, i) >= 8),
            ),
            text@ == "0x"@ + digits.take(2 * j),
        decreases n - j,
    {
        let byte = address[j];
        let mark = digest[j];
        text.append(hex_text(byte / 16, mark / 16 >= 8));
        text.append(hex_text(byte % 16, mark % 16 >= 8));
        proof {
            let a = digits[2 * j];
            let b = digits[2 * j + 1];
            assert(a == cased_digit(byte / 16, mark / 16 >= 8));
            assert(b == cased_digit(byte % 16, mark % 16 >= 8));
            assert(digits.take(2 * (j + 1)) =~= digits.take(2 * j) + seq![a] + seq![b]);
            assert("0x"@ + digits.take(2 * (j + 1)) =~= (("0x"@ + digits.take(2 * j)) + seq![a])
                + seq![b]);
        }
        j = j + 1;
    }
    proof {
        assert(digits.take(2 * n) =~= digits);
    }
    text
}

/// The bytes of `bytes` from `from` up to `to`.
pub fn slice_of(bytes: &Vec<u8>, from: usize, to: usize) -> (r: Vec<u8>)
    requires
        from <= to <= bytes@.len(),
    ensures
        r@ == bytes@.subrange(from as int, to as int),
{
    let mut r: Vec<u8> = Vec::new();
    let mut i: usize = from;
    while i < to
        invariant
            from <= i <= to,
            to <= bytes@.len(),
            r@ == bytes@.subrange(from as int, i as int),
        decreases to - i,
    {
        r.push(bytes[i]);
        assert(bytes@.subrange(from as int, i + 1) =~= bytes@.subrange(from as int, i as int).push(
            bytes@[i as int],
        ));
        i = i + 1;
    }
    r
}

/// The address of an EVM key in its 65-byte form.
pub fn evm_address(key: &Vec<u8>) -> (text: String)
    requires
        key@.len() == 65,
    ensures
        text@ == evm_address_of(key@),
{
    let body = slice_of(key, 1, 65);
    assert(body@ =~= key@.skip(1));
    let hashed = keccak256(&body);
    let address = slice_of(&hashed, 12, 32);
    assert(address@ =~= hashed@.skip(12));
    let lower = hex_encode(&address);
    let digest = keccak256(&lower.as_str().as_bytes_vec());
    checksum_evm_address(&address, &digest)
}

/// Recovers the address that signed the message of an EVM login; `None`
/// where the message or the signature is not what it has to be, or leads
/// to no key.
pub fn verify_evm(args: &EvmAuthenticationWithParams) -> (r: Option<EvmParams>)
    ensures
        match r {
            Some(params) => evm_key_of(args.message@, args.signature@) matches Some(key)
                && params.address@ == evm_address_of(key),
            None => evm_key_of(args.message@, args.signature@) is None,
        },
{
    let signature = match hex_decode(strip_0x(args.signature.as_str())) {
        Some(bytes) => bytes,
        None => {
            return None;
        },
    };
    if signature.len() != 65 {
        return None;
    }
    let message = match hex_decode(strip_0x(args.message.as_str())) {
        Some(bytes) => bytes,
        None => {
            return None;
        },
    };
    if message.len() != 32 {
        return None;
    }
    let body = slice_of(&signature, 0, 64);
    assert(body@ =~= signature@.take(64));
    match recover_public_key(&message, &body, signature[64]) {
        Some(key) => Some(EvmParams { address: evm_address(&key) }),
        None => None,
    }
}

/// Checks the signature of an SVM login and gives the address of its key;
/// `None` where the key, the message or the signature is not what it has
/// to be, or the signature is not one of the message under the key.
pub fn verify_svm(args: &SvmAuthenticationWithParams) -> (r: Option<SvmParams>)
    ensures
        match r {
            Some(params) => svm_address_of(args.public_key@, args.message@, args.signature@)
                == Some(params.address@),
            None => svm_address_of(args.public_key@, args.message@, args.signature@) is None,
        },
{
    let public_key = match hex_decode(args.public_key.as_str()) {
        Some(bytes) => bytes,
        None => {
            return None;
        },
    };
    let signature = match hex_decode(args.signature.as_str()) {
        Some(bytes) => bytes,
        None => {
            return None;
        },
    };
    let message = match hex_decode(args.message.as_str()) {
        Some(bytes) => bytes,
        None => {
            return None;
        },
    };
    if public_key.len() != 32 || signature.len() != 64 {
        return None;
    }
    if !ed25519_verify(&public_key, &message, &signature) {
        return None;
    }
    Some(SvmParams { address: base58_encode(&public_key) })
}

/// Why a login was turned down.
#[derive(Clone, Copy, Debug, PartialEq, Eq, Structural)]
pub enum LoginError {
    /// The caller is no principal: it has more than 29 bytes.
    InvalidPrincipal,
    /// The signed message is not the login message of the caller.
    PrincipalMismatch,
    /// The signature proves no address.
    InvalidSignature,
}

/// What a login proves.
pub enum Proven {
    Evm(Seq<char>),
    Svm(Seq<char>),
    Ic,
}

/// What the login of `caller` with `auth` proves, or why it is turned
/// down.
pub open spec fn login_check(caller: Principal, auth: AuthenticationWith) -> Result<
    Proven,
    LoginError,
> {
    if caller.len > MAX_PRINCIPAL_BYTES {
        Err(LoginError::InvalidPrincipal)
    } else {
        match auth {
            AuthenticationWith::Evm(args) => if stripped(args.message@) != evm_login_hex(caller) {
                Err(LoginError::PrincipalMismatch)
            } else {
                match evm_key_of(args.message@, args.signature@) {
                    Some(key) => Ok(Proven::Evm(evm_address_of(key))),
                    None => Err(LoginError::InvalidSignature),
                }
            },
            AuthenticationWith::Svm(args) => if args.message@ != svm_login_hex(caller) {
                Err(LoginError::PrincipalMismatch)
            } else {
                match svm_address_of(args.public_key@, args.message@, args.signature@) {
                    Some(address) => Ok(Proven::Svm(address)),
                    None => Err(LoginError::InvalidSignature),
                }
            },
            AuthenticationWith::Ic => Ok(Proven::Ic),
        }
    }
}

/// Whether `authentication` is the identity that `proof` proves.
pub open spec fn proves(proven: Proven, authentication: Authentication) -> bool {
    match proven {
        Proven::Evm(address) => {
            authentication matches Authentication::Evm(params) && params.address@ == address
        },
        Proven::Svm(address) => {
            authentication matches Authentication::Svm(params) && params.address@ == address
        },
        Proven::Ic => authentication is Ic,
    }
}

/// Tests the login of `caller` with `auth` and gives the identity that it
/// proves.
pub fn check_login(caller: &Principal, auth: &AuthenticationWith) -> (r: Result<
    Authentication,
    LoginError,
>)
    ensures
        match r {
            Ok(authentication) => login_check(*caller, *auth) matches Ok(proven) && proves(
                proven,
                authentication,
            ),
            Err(e) => login_check(*caller, *auth) matches Err(error) && error == e,
        },
{
    if caller.len as usize > MAX_PRINCIPAL_BYTES {
        return Err(LoginError::InvalidPrincipal);
    }
    match auth {
        AuthenticationWith::Evm(args) => {
            let expected = login_message_hex_evm(caller);
            let signed = String::from_str(strip_0x(args.message.as_str()));
            if signed != expected {
                return Err(LoginError::PrincipalMismatch);
            }
            match verify_evm(args) {
                Some(params) => Ok(Authentication::Evm(params)),
                None => Err(LoginError::InvalidSignature),
            }
        },
        AuthenticationWith::Svm(args) => {
            let expected = login_message_hex_svm(caller);
            if args.message != expected {
                return Err(LoginError::PrincipalMismatch);
            }
            match verify_svm(args) {
                Some(params) => Ok(Authentication::Svm(params)),
                None => Err(LoginError::InvalidSignature),
            }
        },
        AuthenticationWith::Ic => Ok(Authentication::Ic),
    }
}

/// Logs `caller` in with what it presents: the signed message must be the
/// login message of the caller, and the signature must prove an address.
/// The profile of the proven identity is created at its first login and
/// found again at every later one.
pub fn create_profile(state: &mut State, caller: Principal, now: u64, auth: &AuthenticationWith) -> (r:
    Result<Profile, LoginError>)
    requires
        old(state).wf(),
        old(state).spec_can_allocate(),
    ensures
        final(state).wf(),
        match login_check(caller, *auth) {
            Ok(proven) => r matches Ok(profile) && exists|authentication: Authentication|
                #![trigger proves(proven, authentication)]
                proves(proven, authentication) && crate::handlers::logged_in(
                    *old(state),
                    *final(state),
                    caller,
                    now,
                    authentication,
                    profile,
                ),
            Err(e) => r matches Err(error) && error == e && *final(state) == *old(state),
        },
{
    match check_login(&caller, auth) {
        Ok(authentication) => {
            let ghost identity = authentication;
            let profile = log_in(state, caller, now, authentication);
            proof {
                assert(proves(login_check(caller, *auth)->Ok_0, identity));
            }
            Ok(profile)
        },
        Err(e) => Err(e),
    }
}

} // verus!
