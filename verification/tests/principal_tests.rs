use community_store::identity::Principal;

#[test]
fn bytes_become_a_principal_and_back() {
    for bytes in [
        vec![],
        vec![4],
        vec![0],
        vec![0, 0, 1],
        vec![1, 2, 3, 4, 5, 6, 7, 8, 9, 10],
        (1..=16).collect::<Vec<u8>>(),
        (1..=17).collect::<Vec<u8>>(),
        (200..229).collect::<Vec<u8>>(),
        vec![255; 29],
    ] {
        let p = Principal::from_slice(&bytes).unwrap();
        assert_eq!(p.len as usize, bytes.len());
        assert_eq!(p.to_bytes(), bytes);
    }
}

#[test]
fn the_words_spell_the_bytes() {
    let p = Principal::from_slice(&[1, 2]).unwrap();
    assert_eq!(p, Principal { len: 2, high: 0, low: 0x0102 });
    let bytes: Vec<u8> = (1..=17).collect();
    let p = Principal::from_slice(&bytes).unwrap();
    assert_eq!(p.high, 1);
    assert_eq!(p.low, 0x0203_0405_0607_0809_0a0b_0c0d_0e0f_1011);
    assert_eq!(Principal::from_slice(&[4]), Some(Principal::anonymous()));
}

#[test]
fn leading_zero_bytes_tell_principals_apart() {
    let a = Principal::from_slice(&[0, 1]).unwrap();
    let b = Principal::from_slice(&[1]).unwrap();
    assert_ne!(a, b);
    assert_ne!(a.key(), b.key());
    assert_eq!(a.to_bytes(), vec![0, 1]);
}

#[test]
fn more_than_29_bytes_are_no_principal() {
    assert_eq!(Principal::from_slice(&[1; 30]), None);
    assert!(Principal::from_slice(&[1; 29]).is_some());
}

#[test]
fn bytes_beyond_the_two_words_read_as_zero() {
    let p = Principal { len: 34, high: u128::MAX, low: u128::MAX };
    let bytes = p.to_bytes();
    assert_eq!(bytes.len(), 34);
    assert_eq!(&bytes[0..2], &[0, 0]);
    assert!(bytes[2..].iter().all(|b| *b == 255));
}
