use community_store::entities::Profile;
use community_store::identity::{
    Authentication, AuthenticationWith, EvmAuthenticationWithParams, EvmParams, Principal,
    SvmAuthenticationWithParams, SvmParams,
};
use community_store::login::{
    check_login, checksum_evm_address, create_profile, evm_address, hex_text, login_message,
    login_message_hex_evm, login_message_hex_svm, signing_input, slice_of, text_of, verify_evm,
    verify_svm, LoginError,
};
use community_store::policy::profile_of;
use community_store::state::State;
use community_store::text::{decimal, digit_text, strip_0x};
use ed25519_dalek::Signer;

const ANONYMOUS_SVM_HEX: &str = "5369676e2074686973206d65737361676520746f206c6f67696e2e0a0a4170703a0a636f6d6d756e69746965732e6f6f6f0a0a416464726573733a0a32767873782d6661650a0a";
const ANONYMOUS_EVM_HEX: &str = "8661bb306d871e11c73e183886e3df6e853e15e674bc36dfd94fab527af87690";
const ADDRESS_OF_KEY_ONE: &str = "0x7E5F4552091A69125d5DfCb7b8C2659029395Bdf";
const ED25519_SEED: &str = "9d61b19deffd5a60ba844af492ec2cc44449c5697b326919703bac031cae7f60";
const ED25519_KEY: &str = "d75a980182b10ab7d54bfed3c964073a0ee172f3daa62325af021a68f707511a";
const ED25519_SIGNATURE_OF_NOTHING: &str = "e5564300c360ac729086e2cc806e828a84877f1eb8e5d974d873e065224901555fb8821590a33bacc61e39701cf9b46bd25bf5f0595bbe24655141438e7a100b";
const ED25519_ADDRESS: &str = "FVen3X669xLzsi6N2V91DoiyzHzg1uAgqiT8jZ9nS96Z";

fn caller() -> Principal {
    Principal::from_slice(&[1, 2]).unwrap()
}

fn secret_key_one() -> libsecp256k1::SecretKey {
    let mut bytes = [0u8; 32];
    bytes[31] = 1;
    libsecp256k1::SecretKey::parse(&bytes).unwrap()
}

/// The signature of key 1 on a 32-byte hash given as hex text, as an EVM
/// wallet hands it out.
fn evm_signature(hash_hex: &str) -> String {
    let hash: [u8; 32] = hex::decode(hash_hex).unwrap().try_into().unwrap();
    let (signature, recovery) =
        libsecp256k1::sign(&libsecp256k1::Message::parse(&hash), &secret_key_one());
    let mut bytes = signature.serialize().to_vec();
    bytes.push(27 + recovery.serialize());
    format!("0x{}", hex::encode(bytes))
}

fn evm_login(who: &Principal) -> EvmAuthenticationWithParams {
    let message = login_message_hex_evm(who);
    EvmAuthenticationWithParams { signature: evm_signature(&message), message }
}

fn svm_login(who: &Principal) -> SvmAuthenticationWithParams {
    let seed: [u8; 32] = hex::decode(ED25519_SEED).unwrap().try_into().unwrap();
    let key = ed25519_dalek::SigningKey::from_bytes(&seed);
    let message = login_message(&text_of(who));
    SvmAuthenticationWithParams {
        public_key: ED25519_KEY.to_string(),
        signature: hex::encode(key.sign(message.as_bytes()).to_bytes()),
        message: login_message_hex_svm(who),
    }
}

fn store() -> State {
    State::new(Principal::from_slice(&[9]).unwrap(), None, None, None)
}

#[test]
fn a_leading_0x_does_not_count() {
    assert_eq!(strip_0x("0xab"), "ab");
    assert_eq!(strip_0x("0x0xab"), "ab");
    assert_eq!(strip_0x("ab0x"), "ab0x");
    assert_eq!(strip_0x("0"), "0");
    assert_eq!(strip_0x("0x"), "");
    assert_eq!(strip_0x(""), "");
    assert_eq!(strip_0x("x0x"), "x0x");
    assert_eq!(strip_0x("0X12"), "0X12");
    assert_eq!(strip_0x("0x\u{e9}"), "\u{e9}");
}

#[test]
fn numbers_in_decimal() {
    assert_eq!(decimal(0), "0");
    assert_eq!(decimal(7), "7");
    assert_eq!(decimal(10), "10");
    assert_eq!(decimal(71), "71");
    assert_eq!(decimal(1905), "1905");
    assert_eq!(decimal(usize::MAX), usize::MAX.to_string());
    assert_eq!(digit_text(3), "3");
}

#[test]
fn hex_digits_in_both_cases() {
    assert_eq!(hex_text(0, true), "0");
    assert_eq!(hex_text(9, true), "9");
    assert_eq!(hex_text(10, false), "a");
    assert_eq!(hex_text(10, true), "A");
    assert_eq!(hex_text(15, false), "f");
    assert_eq!(hex_text(15, true), "F");
}

#[test]
fn a_slice_is_a_part() {
    let bytes = vec![1u8, 2, 3, 4];
    assert_eq!(slice_of(&bytes, 1, 3), vec![2, 3]);
    assert_eq!(slice_of(&bytes, 0, 4), bytes);
    assert_eq!(slice_of(&bytes, 2, 2), Vec::<u8>::new());
}

#[test]
fn the_text_of_a_principal() {
    assert_eq!(text_of(&Principal::anonymous()), "2vxsx-fae");
    assert_eq!(text_of(&Principal::from_slice(&[]).unwrap()), "aaaaa-aa");
    assert_eq!(text_of(&caller()), "w3gef-eqbai");
}

#[test]
fn the_login_message_names_the_principal() {
    assert_eq!(
        login_message("2vxsx-fae"),
        "Sign this message to login.\n\nApp:\ncommunities.ooo\n\nAddress:\n2vxsx-fae\n\n"
    );
}

#[test]
fn the_signing_input_counts_the_bytes_of_the_message() {
    assert_eq!(signing_input("abc"), b"\x19Ethereum Signed Message:\n3abc".to_vec());
    assert_eq!(signing_input(""), b"\x19Ethereum Signed Message:\n0".to_vec());
    assert_eq!(
        signing_input("h\u{e9}llo w\u{f6}rld"),
        "\x19Ethereum Signed Message:\n13h\u{e9}llo w\u{f6}rld".as_bytes().to_vec()
    );
}

#[test]
fn the_login_messages_of_the_anonymous_principal() {
    assert_eq!(login_message_hex_svm(&Principal::anonymous()), ANONYMOUS_SVM_HEX);
    assert_eq!(login_message_hex_evm(&Principal::anonymous()), ANONYMOUS_EVM_HEX);
    assert_eq!(
        login_message_hex_evm(&caller()),
        "17b5c98c4687186dfe82d28f7258717c320396f7c630a3f348f54830662b3ff4"
    );
}

#[test]
fn an_address_is_written_with_its_checksum() {
    let digest =
        hex::decode("d385650ce8fdc6db7ee3a091d34814dbc4ce18219ffae52182efff4034d707e5").unwrap();
    let address = hex::decode("5aaeb6053f3e94c9b9a09f33669435e7ef1beaed").unwrap();
    assert_eq!(
        checksum_evm_address(&address, &digest),
        "0x5aAeb6053F3E94C9b9A09f33669435E7Ef1BeAed"
    );
    assert_eq!(checksum_evm_address(&vec![0xab, 0xcd], &vec![0x80, 0x08]), "0xAbcD");
    assert_eq!(checksum_evm_address(&vec![0xab, 0x1d], &vec![0x7f, 0xf8]), "0xaB1D");
    assert_eq!(checksum_evm_address(&Vec::new(), &Vec::new()), "0x");
}

#[test]
fn the_address_of_the_key_one() {
    let mut key = vec![4u8];
    key.extend(
        hex::decode("79be667ef9dcbbac55a06295ce870b07029bfcdb2dce28d959f2815b16f81798").unwrap(),
    );
    key.extend(
        hex::decode("483ada7726a3c4655da4fbfc0e1108a8fd17b448a68554199c47d08ffb10d4b8").unwrap(),
    );
    assert_eq!(evm_address(&key), ADDRESS_OF_KEY_ONE);
}

#[test]
fn an_evm_signature_proves_the_address_of_its_key() {
    let args = evm_login(&caller());
    assert_eq!(verify_evm(&args), Some(EvmParams { address: ADDRESS_OF_KEY_ONE.to_string() }));
    let bare = EvmAuthenticationWithParams {
        message: format!("0x{}", args.message),
        signature: args.signature[2..].to_string(),
    };
    assert_eq!(verify_evm(&bare), Some(EvmParams { address: ADDRESS_OF_KEY_ONE.to_string() }));
}

#[test]
fn an_evm_signature_on_another_message_proves_another_address() {
    let mut args = evm_login(&caller());
    args.message = ANONYMOUS_EVM_HEX.to_string();
    let proven = verify_evm(&args);
    assert_ne!(proven, Some(EvmParams { address: ADDRESS_OF_KEY_ONE.to_string() }));
}

#[test]
fn a_malformed_evm_login_proves_nothing() {
    let good = evm_login(&caller());
    let with = |message: &str, signature: &str| {
        verify_evm(&EvmAuthenticationWithParams {
            message: message.to_string(),
            signature: signature.to_string(),
        })
    };
    assert_eq!(with(&good.message, "0xzz"), None);
    assert_eq!(with(&good.message, ""), None);
    assert_eq!(with(&good.message, &good.signature[0..130]), None);
    assert_eq!(with(&good.message[0..62], &good.signature), None);
    assert_eq!(with("nothex", &good.signature), None);
    let mut bad_recovery = good.signature[0..130].to_string();
    bad_recovery.push_str("05");
    assert_eq!(with(&good.message, &bad_recovery), None);
    let zero_signature = format!("0x{}1b", "00".repeat(64));
    assert_eq!(with(&good.message, &zero_signature), None);
}

#[test]
fn an_svm_signature_proves_the_address_of_its_key() {
    let args = SvmAuthenticationWithParams {
        public_key: ED25519_KEY.to_string(),
        signature: ED25519_SIGNATURE_OF_NOTHING.to_string(),
        message: String::new(),
    };
    assert_eq!(verify_svm(&args), Some(SvmParams { address: ED25519_ADDRESS.to_string() }));
    assert_eq!(
        verify_svm(&svm_login(&caller())),
        Some(SvmParams { address: ED25519_ADDRESS.to_string() })
    );
}

#[test]
fn a_wrong_or_malformed_svm_login_proves_nothing() {
    let with = |public_key: &str, signature: &str, message: &str| {
        verify_svm(&SvmAuthenticationWithParams {
            public_key: public_key.to_string(),
            signature: signature.to_string(),
            message: message.to_string(),
        })
    };
    assert_eq!(with(ED25519_KEY, ED25519_SIGNATURE_OF_NOTHING, "00"), None);
    assert_eq!(with(ED25519_KEY, &ED25519_SIGNATURE_OF_NOTHING[0..126], ""), None);
    assert_eq!(with(&ED25519_KEY[0..62], ED25519_SIGNATURE_OF_NOTHING, ""), None);
    assert_eq!(with("xx", ED25519_SIGNATURE_OF_NOTHING, ""), None);
    assert_eq!(with(ED25519_KEY, ED25519_SIGNATURE_OF_NOTHING, "0"), None);
    assert_eq!(with(ED25519_KEY, &format!("0x{}", ED25519_SIGNATURE_OF_NOTHING), ""), None);
    assert_eq!(with(&"00".repeat(32), ED25519_SIGNATURE_OF_NOTHING, ""), None);
}

#[test]
fn a_login_with_a_wallet_creates_the_profile_of_its_address() {
    let mut state = store();
    let who = caller();
    let profile = create_profile(&mut state, who, 10, &AuthenticationWith::Evm(evm_login(&who)));
    assert_eq!(
        profile,
        Ok(Profile {
            name: String::new(),
            description: String::new(),
            authentication: Authentication::Evm(EvmParams {
                address: ADDRESS_OF_KEY_ONE.to_string()
            }),
            active_principal: who,
            timestamp: 10,
            last_login: 10,
        })
    );
    let id = profile_of(&state, &who).unwrap();
    let other = Principal::from_slice(&[3, 4, 5]).unwrap();
    let again =
        create_profile(&mut state, other, 20, &AuthenticationWith::Evm(evm_login(&other))).unwrap();
    assert_eq!(again.active_principal, other);
    assert_eq!(again.timestamp, 10);
    assert_eq!(again.last_login, 20);
    assert_eq!(profile_of(&state, &other), Some(id));
    assert_eq!(state.profiles.len(), 1);
    let svm = create_profile(&mut state, who, 30, &AuthenticationWith::Svm(svm_login(&who)));
    assert_eq!(
        svm.unwrap().authentication,
        Authentication::Svm(SvmParams { address: ED25519_ADDRESS.to_string() })
    );
    assert_eq!(state.profiles.len(), 2);
    let ic = create_profile(&mut state, who, 40, &AuthenticationWith::Ic).unwrap();
    assert_eq!(ic.authentication, Authentication::Ic);
    assert_eq!(state.profiles.len(), 3);
}

#[test]
fn a_login_for_another_principal_is_a_mismatch() {
    let mut state = store();
    let who = caller();
    let other = Principal::from_slice(&[3, 4, 5]).unwrap();
    assert_eq!(
        create_profile(&mut state, who, 10, &AuthenticationWith::Evm(evm_login(&other))),
        Err(LoginError::PrincipalMismatch)
    );
    assert_eq!(
        create_profile(&mut state, who, 10, &AuthenticationWith::Svm(svm_login(&other))),
        Err(LoginError::PrincipalMismatch)
    );
    let mut prefixed = svm_login(&who);
    prefixed.message = format!("0x{}", prefixed.message);
    assert_eq!(
        check_login(&who, &AuthenticationWith::Svm(prefixed)),
        Err(LoginError::PrincipalMismatch)
    );
    assert_eq!(state.profiles.len(), 0);
    assert_eq!(state.ids.issued_count(), 0);
}

#[test]
fn a_login_with_a_bad_signature_is_turned_down() {
    let mut state = store();
    let who = caller();
    let mut evm = evm_login(&who);
    evm.signature = "0x00".to_string();
    assert_eq!(
        create_profile(&mut state, who, 10, &AuthenticationWith::Evm(evm)),
        Err(LoginError::InvalidSignature)
    );
    let mut svm = svm_login(&who);
    svm.signature = ED25519_SIGNATURE_OF_NOTHING.to_string();
    assert_eq!(
        create_profile(&mut state, who, 10, &AuthenticationWith::Svm(svm)),
        Err(LoginError::InvalidSignature)
    );
    assert_eq!(state.profiles.len(), 0);
}

#[test]
fn a_caller_of_more_than_29_bytes_is_no_principal() {
    let mut state = store();
    let long = Principal { len: 30, high: 0, low: 1 };
    assert_eq!(
        create_profile(&mut state, long, 10, &AuthenticationWith::Ic),
        Err(LoginError::InvalidPrincipal)
    );
    assert_eq!(check_login(&long, &AuthenticationWith::Ic), Err(LoginError::InvalidPrincipal));
    assert_eq!(
        check_login(&Principal { len: 29, high: 0, low: 1 }, &AuthenticationWith::Ic),
        Ok(Authentication::Ic)
    );
}
