use rusty_chain::key_parser::get_public_der;
use rusty_chain::wallet_struct::{fixed_signature, SignerError, Wallet};

fn der_integer(content: &[u8]) -> Vec<u8> {
    let mut out = vec![0x02];
    if content.len() < 128 {
        out.push(content.len() as u8);
    } else {
        out.push(0x82);
        out.push((content.len() >> 8) as u8);
        out.push(content.len() as u8);
    }
    out.extend_from_slice(content);
    out
}

fn private_key(modulus: &[u8], pub_exp: &[u8], count: usize) -> Vec<u8> {
    let mut body = der_integer(&[0]);
    body.extend(der_integer(modulus));
    body.extend(der_integer(pub_exp));
    for i in 3..count {
        body.extend(der_integer(&[i as u8]));
    }
    let mut key = vec![0x30, 0x82, (body.len() >> 8) as u8, body.len() as u8];
    key.extend(body);
    key
}

#[test]
fn public_der_of_long_modulus() {
    let mut modulus = vec![0x00];
    modulus.extend(vec![0xab; 128]);
    let key = private_key(&modulus, &[1, 0, 1], 9);
    let der = get_public_der(&key).expect("key should parse");
    let mut expected = vec![0x30, 0x82, 0x00, 0x8a, 0x02, 0x82, 0x00, 0x81];
    expected.extend_from_slice(&modulus);
    expected.extend_from_slice(&[0x02, 0x03, 0x01, 0x00, 0x01]);
    assert_eq!(der, expected);
}

#[test]
fn public_der_of_short_modulus() {
    let key = private_key(&[0x0f, 0xff], &[3], 9);
    assert_eq!(get_public_der(&key), Some(vec![0x30, 0x07, 0x02, 0x02, 0x0f, 0xff, 0x02, 0x01, 0x03]));
}

#[test]
fn missing_sections_are_rejected() {
    let key = private_key(&[0x0f, 0xff], &[3], 8);
    assert_eq!(get_public_der(&key), None);
}

#[test]
fn short_or_mistagged_keys_are_rejected() {
    assert_eq!(get_public_der(&vec![0x30, 0x82, 0x00]), None);
    let mut key = private_key(&[5], &[3], 9);
    key[4] = 0x04;
    assert_eq!(get_public_der(&key), None);
    let mut truncated = private_key(&[5], &[3], 9);
    truncated.pop();
    assert_eq!(get_public_der(&truncated), None);
}

#[test]
fn wallet_load_keeps_private_key() {
    let key = private_key(&[0x0f, 0xff], &[3], 9);
    let wallet = Wallet::load(key.clone()).expect("key should load");
    assert_eq!(wallet.private_key, key);
    assert_eq!(wallet.public_key, vec![0x30, 0x07, 0x02, 0x02, 0x0f, 0xff, 0x02, 0x01, 0x03]);
    assert!(Wallet::load(vec![1, 2, 3]).is_none());
}

#[test]
fn signing_with_a_malformed_key_fails() {
    let wallet = Wallet { public_key: vec![], private_key: vec![1, 2, 3] };
    assert_eq!(wallet.sign(&vec![1]), Err(SignerError::SigningFailed));
}

#[test]
fn garbage_signature_does_not_verify() {
    assert!(!Wallet::verify(&vec![1, 2, 3], &vec![4], &[0; 256]));
}

#[test]
fn signatures_must_be_256_bytes() {
    let sig: Vec<u8> = (0..256).map(|i| i as u8).collect();
    let fixed = fixed_signature(&sig).unwrap();
    assert_eq!(fixed[255], 255);
    assert_eq!(fixed_signature(&vec![0; 255]), Err(SignerError::WrongLength));
}
