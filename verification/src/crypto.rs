//! What the login check takes from other crates: hashing, the recovery
//! and verification of signatures, and the text forms of keys, bytes and
//! principals.
//!
//! Nothing here is proved. Each function states what the crate that it
//! calls is relied on for.

use vstd::prelude::*;

verus! {

/// The Keccak-256 digest of `data`.
pub uninterp spec fn keccak256_of(data: Seq<u8>) -> Seq<u8>;

/// The public key, in its 65-byte form, that signed `message` to give
/// `signature` with the recovery byte `recovery`; `None` where the three
/// do not lead to a key.
pub uninterp spec fn secp256k1_recovered(message: Seq<u8>, signature: Seq<u8>, recovery: u8) -> Option<
    Seq<u8>,
>;

/// Whether `signature` is an Ed25519 signature of `message` under
/// `public_key`.
pub uninterp spec fn ed25519_accepts(
    public_key: Seq<u8>,
    message: Seq<u8>,
    signature: Seq<u8>,
) -> bool;

/// The Base58 text of `bytes`, in the Bitcoin alphabet.
pub uninterp spec fn base58_of(bytes: Seq<u8>) -> Seq<char>;

/// The text form of the principal with the given bytes.
pub uninterp spec fn text_of_principal(bytes: Seq<u8>) -> Seq<char>;

/// The lower-case hex digit for a value below 16.
pub open spec fn hex_digit(value: u8) -> char {
    if value < 10 {
        (48 + value) as u8 as char
    } else {
        (87 + value) as u8 as char
    }
}

/// The value of a hex digit of either case.
pub open spec fn hex_value(digit: char) -> Option<u8> {
    if '0' <= digit <= '9' {
        Some((digit as u8 - 48) as u8)
    } else if 'a' <= digit <= 'f' {
        Some((digit as u8 - 87) as u8)
    } else if 'A' <= digit <= 'F' {
        Some((digit as u8 - 55) as u8)
    } else {
        None
    }
}

/// The lower-case hex text of `bytes`: two digits for each byte, the
/// upper half of the byte first.
pub open spec fn hex_chars(bytes: Seq<u8>) -> Seq<char> {
    Seq::new(
        2 * bytes.len(),
        |i: int|
            if i % 2 == 0 {
                hex_digit(bytes[i / 2] / 16)
            } else {
                hex_digit(bytes[i / 2] % 16)
            },
    )
}

/// Whether `text` is hex text: an even number of hex digits.
pub open spec fn is_hex_text(text: Seq<char>) -> bool {
    &&& text.len() % 2 == 0
    &&& forall|i: int| 0 <= i < text.len() ==> hex_value(#[trigger] text[i]) is Some
}

/// The bytes that hex text stands for.
pub open spec fn unhex(text: Seq<char>) -> Seq<u8> {
    Seq::new(
        text.len() / 2,
        |i: int| (hex_value(text[2 * i]).unwrap() * 16 + hex_value(text[2 * i + 1]).unwrap()) as u8,
    )
}

/// `easy_hasher::easy_hasher::raw_keccak256`, with `Hash::to_vec`. Relied
/// on for: the result is the Keccak-256 digest of the data, which has 32
/// bytes.
#[verifier::external_body]
pub(crate) fn keccak256(data: &Vec<u8>) -> (digest: Vec<u8>)
    ensures
        digest@ == keccak256_of(data@),
        digest@.len() == 32,
{
    easy_hasher::easy_hasher::raw_keccak256(data.clone()).to_vec()
}

/// `hex::encode`. Relied on for: the result holds two lower-case hex
/// digits for each byte, the upper half of the byte first.
#[verifier::external_body]
pub(crate) fn hex_encode(bytes: &Vec<u8>) -> (text: String)
    ensures
        text@ == hex_chars(bytes@),
{
    hex::encode(bytes)
}

/// `hex::decode`. Relied on for: it succeeds on an even number of hex
/// digits of either case and on nothing else, and then gives one byte for
/// each two digits, the first digit being the upper half.
#[verifier::external_body]
pub(crate) fn hex_decode(text: &str) -> (r: Option<Vec<u8>>)
    ensures
        match r {
            Some(bytes) => is_hex_text(text@) && bytes@ == unhex(text@),
            None => !is_hex_text(text@),
        },
{
    hex::decode(text).ok()
}

/// `libsecp256k1::recover`, on a message, a signature and a recovery byte
/// parsed by `Message::parse_slice`, `Signature::parse_standard_slice` and
/// `RecoveryId::parse_rpc`, with `PublicKey::serialize`. Relied on for:
/// the result depends on the three arguments only, and a key that is
/// found has 65 bytes.
#[verifier::external_body]
pub(crate) fn recover_public_key(message: &Vec<u8>, signature: &Vec<u8>, recovery: u8) -> (r: Option<
    Vec<u8>,
>)
    ensures
        match r {
            Some(key) => secp256k1_recovered(message@, signature@, recovery) == Some(key@)
                && key@.len() == 65,
            None => secp256k1_recovered(message@, signature@, recovery) is None,
        },
{
    let id = libsecp256k1::RecoveryId::parse_rpc(recovery).ok()?;
    let parsed = libsecp256k1::Signature::parse_standard_slice(signature).ok()?;
    let hashed = libsecp256k1::Message::parse_slice(message).ok()?;
    let key = libsecp256k1::recover(&hashed, &parsed, &id).ok()?;
    Some(key.serialize().to_vec())
}

/// `ed25519_dalek::Verifier::verify`, on a key made of the bytes by
/// `VerifyingKey::try_from` and a signature made of the bytes by
/// `Signature::from_slice`; `false` where the key or the signature cannot
/// be made. Relied on for: the result depends on the three arguments only.
#[verifier::external_body]
pub(crate) fn ed25519_verify(public_key: &Vec<u8>, message: &Vec<u8>, signature: &Vec<u8>) -> (r:
    bool)
    ensures
        r == ed25519_accepts(public_key@, message@, signature@),
{
    let key = ed25519_dalek::VerifyingKey::try_from(public_key.as_slice());
    let parsed = ed25519_dalek::Signature::from_slice(signature);
    match (key, parsed) {
        (Ok(key), Ok(parsed)) => ed25519_dalek::Verifier::verify(&key, message, &parsed).is_ok(),
        _ => false,
    }
}

/// `bs58::encode`, with `EncodeBuilder::into_string`. Relied on for: the
/// result depends on the bytes only.
#[verifier::external_body]
pub(crate) fn base58_encode(bytes: &Vec<u8>) -> (text: String)
    ensures
        text@ == base58_of(bytes@),
{
    bs58::encode(bytes).into_string()
}

/// `candid::Principal::from_slice`, with `Principal::to_text`. Relied on
/// for: the result depends on the bytes only. More than 29 bytes are left
/// out, because `from_slice` does not return on them.
#[verifier::external_body]
pub(crate) fn principal_text(bytes: &Vec<u8>) -> (text: String)
    requires
        bytes@.len() <= 29,
    ensures
        text@ == text_of_principal(bytes@),
{
    candid::Principal::from_slice(bytes).to_text()
}

} // verus!
