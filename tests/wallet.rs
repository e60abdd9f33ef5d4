use rusty_chain::key_parser::get_public_der;
use rusty_chain::tx_struct::{DataTx, FinancialTx, Tx};
use rusty_chain::wallet_struct::Wallet;

// A 2048-bit RSA private key in DER, as `openssl genpkey -outform DER`
// writes it, and its public key in DER.
const PRIVATE_KEY_HEX: &str = "308204a3020100028201010095a4f99ec24234ebe8c0cd0a650c2d0bde4577218e9dad94eec2fe850fc320baa30c9730\
    11e0a2dfa01c485f81e24a541bdc7af3bfeb0a2804893923491ebbbef9b62f02d46d09fa10beea30a77c8d6a25a23858\
    ec03bc0d4bff59e46c8b7d14eab4d4dbb0530540a654317a50e94afc07c9fc272fa57f48f223f3a3f80b142b2af697a3\
    0bd5af3bf9373e37ef63bc5458d90f4b985199310dce1cf1aa507e5b73d9431ac315a28e2daa1fe9af78db714964042f\
    69a3d5b92c20b844b2bf87e196ea86768487c1d5bf2a9ac346ebdcbbfa1680ff7fa20939f73271f6e8b693ef1c090a7d\
    d1531b29d6c3a4fe0486924199b1f1d3068890acf01934b3a4c361450203010001028201000a4143d6a4885b4e696516\
    5d667f019d451901e8d0f8599b670b5786db302b8f840f4a53172936458342e7961d4aafd3a369d0c68b248fcdc895cb\
    791c10839c3af4f309761b977f4563829d5d4a49f9f80f4308f0fa468a56116f371a0080776252e1c8165ac775893b24\
    2836359942669994729904cb3c13fff10e8fb7d94f60831a4560fa74347c322276eaa56fe5c4f690b52a346b825801ea\
    478acc76fd146c70ddb16aba8723ac15a0b25fafe0c0b2cd1e07925157343658dd1e9b61955d478d41817b7ab15a4043\
    f2bc0ceea7e54c38baf584ea6f07db672f3fee3730cc58277c73a52a54360e3601844f6776e115010b73505c5d387853\
    faf7bc742702818100c77acc483065695f2d5a8ce5bf3b6daffbcf1c65760cd3c3215826b7efbf9ff4281ff68d3b977c\
    53d59739aa533783bf64854ecc4611ea10e75a36e430eac4f62a672edd90f14317e13676e0bbfa20796b9139028b3153\
    50bc63f99d2ed3f3b54cb3ccc795f1d0adbd033ab5d907783752528ad796ba2c9f02b8f244fb11b20b02818100c00b64\
    45229aa47cbc96aae562e57ff208f1923db398c735babdc912e5b4a13fa5b2c8d100876566dc1808086e3794c1736d03\
    11e95ca6189acbd234bb73083f40579c6e9fd5e870b0ef71fc49c5fc2aec4c9a1184955884b1384c97fbc06b23681698\
    ed1197800b462dbd395c3549ffe958d707801e83a81d436def7dc51bef02818061730bf8f82b929e7c798ffb6cc08b85\
    3d6ea060b09af3988fe19088ab06e20d54ccc89596571ad599b296e92e5e206e8f9cd031dac9459f9c65e60af41abcbd\
    c55942fbdaa30233d841d33156a38ad9c642dba6f278d64acabdcc638d4cddf1e3d6b2638e4ce3b4fc71676d0ee92741\
    5f66138dde8474e7f95c807e526902a10281802aef610f83d907054c347328ad9f99a747109b1d6855b3d3f35812e842\
    aacb922b3d796020ba2495868768e4599fdb8614843eb77670dc418bfa1d98e47fa74c5cda3983120104e28cec3b93a7\
    fab791f11a7f278378d03d7a5197ee32bea635584415148b664f9e35a66c33b2c5c7318bbdecf52453ae239bc74380d3\
    a189c90281810081fad6b0cecd683cbe305179ab828c9590333b41ec7fc9237e5c2047df3e580d9b763e2e720c8b9de6\
    90c0a39ad467eb3362ae6655010c8985ab6e8a14be00b2a9e541e111583397608a496cbf93d47f314d0d8090553bfe86\
    e880b9f55a8158dd37e03633cf9cb09c9d3f91b541d6bd5a55dd251e7e5fb743f7d03c3d2534a9";

const PUBLIC_KEY_HEX: &str = "3082010a028201010095a4f99ec24234ebe8c0cd0a650c2d0bde4577218e9dad94eec2fe850fc320baa30c973011e0a2\
    dfa01c485f81e24a541bdc7af3bfeb0a2804893923491ebbbef9b62f02d46d09fa10beea30a77c8d6a25a23858ec03bc\
    0d4bff59e46c8b7d14eab4d4dbb0530540a654317a50e94afc07c9fc272fa57f48f223f3a3f80b142b2af697a30bd5af\
    3bf9373e37ef63bc5458d90f4b985199310dce1cf1aa507e5b73d9431ac315a28e2daa1fe9af78db714964042f69a3d5\
    b92c20b844b2bf87e196ea86768487c1d5bf2a9ac346ebdcbbfa1680ff7fa20939f73271f6e8b693ef1c090a7dd1531b\
    29d6c3a4fe0486924199b1f1d3068890acf01934b3a4c361450203010001";

fn from_hex(text: &str) -> Vec<u8> {
    (0..text.len() / 2)
        .map(|i| u8::from_str_radix(&text[2 * i..2 * i + 2], 16).unwrap())
        .collect()
}

fn test_wallet() -> Wallet {
    Wallet::load(from_hex(PRIVATE_KEY_HEX)).expect("test key should load")
}

#[test]
fn public_key_of_generated_private_key() {
    let der = get_public_der(&from_hex(PRIVATE_KEY_HEX)).unwrap();
    assert_eq!(der.len(), 270);
    assert_eq!(der, from_hex(PUBLIC_KEY_HEX));
}

#[test]
fn sign_verify_data_tx() {
    let mut tx: DataTx = DataTx::new();
    let wallet = test_wallet();
    let binary = tx.to_signable_bin();
    tx.generate_signature(&wallet).unwrap();

    assert!(Wallet::verify(&wallet.public_key, &binary, &tx.signature));
}

#[test]
fn sign_verify_financial_tx() {
    let mut tx: FinancialTx = FinancialTx::new();
    let wallet = test_wallet();
    let binary = tx.to_signable_bin();
    tx.generate_signature(&wallet).unwrap();

    assert!(Wallet::verify(&wallet.public_key, &binary, &tx.signature));
}

#[test]
fn signature_does_not_verify_other_data() {
    let wallet = test_wallet();
    let signature = wallet.sign(&vec![1, 2, 3]).unwrap();
    assert!(Wallet::verify(&wallet.public_key, &vec![1, 2, 3], &signature));
    assert!(!Wallet::verify(&wallet.public_key, &vec![1, 2, 4], &signature));
}

#[test]
fn failed_signing_leaves_signature() {
    let mut tx = DataTx::new();
    tx.signature = [7; 256];
    let wallet = Wallet { public_key: vec![], private_key: vec![1, 2, 3] };
    assert!(tx.generate_signature(&wallet).is_err());
    assert_eq!(tx.signature, [7; 256]);
}

#[test]
fn stored_signature_is_the_signers_output() {
    let mut tx = FinancialTx::new();
    let wallet = test_wallet();
    let expected = wallet.sign(&tx.to_signable_bin()).unwrap();
    tx.generate_signature(&wallet).unwrap();
    assert_eq!(tx.signature, expected);
}
