use rusty_chain::tx_struct::{DataTx, FinancialTx, Tx, TxType};

fn is_string<T: 'static>(value: &T) -> bool {
    (value as &dyn std::any::Any).is::<String>()
}

#[test]
fn construct_data_tx() {
    let version: u8 = 0x01;
    let tx_type: TxType = TxType::Data;
    let owner: Vec<u8> = vec![0];
    let data: Vec<u8> = String::from("Hello World!").into_bytes();
    let reward: [u8; 4] = [0, 0, 0, 1];
    let previous_hash: [u8; 32] = [0; 32];
    let hash: [u8; 32] = [0; 32];
    let signature: [u8; 256] = [0x00; 256];

    let tx: DataTx = DataTx {
        version: version,
        tx_type: tx_type,
        owner: owner.clone(),
        data: data.clone(),
        reward: reward,
        previous_hash: previous_hash,
        hash: hash,
        signature: signature,
    };

    assert_eq!(tx.version, version);
    assert_eq!(tx.tx_type, tx_type);
    assert_eq!(tx.owner, owner);
    assert_eq!(tx.data, data);
    assert_eq!(tx.reward, reward);
    assert_eq!(tx.previous_hash, previous_hash);
    assert_eq!(tx.hash, hash);
    assert!(tx.signature.iter().eq(signature.iter()));
}

#[test]
fn construct_financial_tx() {
    let version: u8 = 0x01;
    let tx_type: TxType = TxType::Financial;
    let owner: Vec<u8> = vec![0];
    let receiver: Vec<u8> = vec![0];
    let quantity: [u8; 4] = [0, 0, 0, 1];
    let reward: [u8; 4] = [0, 0, 0, 1];
    let previous_hash: [u8; 32] = [0; 32];
    let hash: [u8; 32] = [0; 32];
    let signature: [u8; 256] = [0x00; 256];

    let tx: FinancialTx = FinancialTx {
        version: version,
        tx_type: tx_type,
        owner: owner.clone(),
        receiver: receiver.clone(),
        quantity: quantity,
        reward: reward,
        previous_hash: previous_hash,
        hash: hash,
        signature: signature,
    };

    assert_eq!(tx.version, version);
    assert_eq!(tx.tx_type, tx_type);
    assert_eq!(tx.owner, owner);
    assert_eq!(tx.receiver, receiver);
    assert_eq!(tx.quantity, quantity);
    assert_eq!(tx.reward, reward);
    assert_eq!(tx.previous_hash, previous_hash);
    assert_eq!(tx.hash, hash);
    assert!(tx.signature.iter().eq(signature.iter()));
}

#[test]
fn print_data_tx() {
    let tx: DataTx = DataTx::new();
    assert!(is_string(&tx.to_string()));
}

#[test]
fn print_financial_tx() {
    let tx: FinancialTx = FinancialTx::new();
    assert!(is_string(&tx.to_string()));
}

#[test]
fn hash_data_tx() {
    let mut tx: DataTx = DataTx::new();
    tx.generate_hash();
    let expected = [130, 252, 253, 82, 21, 23, 93, 169, 230, 92, 167, 196, 251, 146, 122, 31, 176, 230, 31, 9, 213, 73, 135, 195, 104, 232, 225, 110, 189, 156, 41, 105];

    assert_eq!(tx.hash, expected);
}

#[test]
fn hash_financial_tx() {
    let mut tx: FinancialTx = FinancialTx::new();
    tx.generate_hash();
    let expected = [45, 101, 99, 194, 67, 155, 231, 68, 251, 192, 152, 146, 214, 0, 139, 246, 169, 98, 110, 198, 96, 181, 206, 117, 124, 213, 61, 85, 41, 238, 117, 250];

    assert_eq!(tx.hash, expected);
}

#[test]
fn data_tx_hashable_bytes_in_field_order() {
    let tx = DataTx {
        version: 1,
        tx_type: TxType::Data,
        owner: vec![0xaa, 0xbb],
        data: vec![0x10],
        reward: [0, 0, 0, 9],
        previous_hash: [7; 32],
        hash: [3; 32],
        signature: [5; 256],
    };
    let mut expected: Vec<u8> = vec![1, 0, 0xaa, 0xbb, 0x10, 0, 0, 0, 9];
    expected.extend_from_slice(&[7; 32]);
    assert_eq!(tx.to_hashable_bin(), expected);
    expected.extend_from_slice(&[3; 32]);
    assert_eq!(tx.to_signable_bin(), expected);
}

#[test]
fn financial_tx_hashable_bytes_in_field_order() {
    let tx = FinancialTx {
        version: 2,
        tx_type: TxType::Financial,
        owner: vec![0xaa],
        receiver: vec![0xbb, 0xcc],
        quantity: [0, 0, 1, 0],
        reward: [0, 0, 0, 9],
        previous_hash: [7; 32],
        hash: [3; 32],
        signature: [5; 256],
    };
    let mut expected: Vec<u8> = vec![2, 1, 0xaa, 0xbb, 0xcc, 0, 0, 1, 0, 0, 0, 0, 9];
    expected.extend_from_slice(&[7; 32]);
    assert_eq!(tx.to_hashable_bin(), expected);
    expected.extend_from_slice(&[3; 32]);
    assert_eq!(tx.to_signable_bin(), expected);
}

#[test]
fn hash_ignores_previous_hash_and_signature_fields() {
    let mut a = DataTx::new();
    let mut b = DataTx::new();
    b.hash = [9; 32];
    b.signature = [1; 256];
    a.generate_hash();
    b.generate_hash();
    assert_eq!(a.hash, b.hash);
    assert_ne!(a.hash, [0; 32]);
}

#[test]
fn data_tx_text_shows_fields_in_hex() {
    let mut tx = DataTx::new();
    tx.version = 0x1a;
    tx.data = vec![0xff, 0x01];
    let text = tx.to_string();
    assert!(text.starts_with("DataTx {\n    version: 1a,\n    tx_type: 0,\n"));
    assert!(text.contains("data: [ff, 1],"));
}

#[test]
fn type_tags() {
    assert_eq!(TxType::Data.to_byte(), 0);
    assert_eq!(TxType::Financial.to_byte(), 1);
}

#[test]
fn unsigned_data_tx_is_hashed() {
    let tx = rusty_chain::tx::unsigned_data_tx(vec![1, 2], b"abc".to_vec());
    assert_eq!(tx.version, 1);
    assert_eq!(tx.reward, [0, 0, 0, 255]);
    assert_eq!(tx.data, b"abc".to_vec());
    let mut again = DataTx::new();
    again.version = 1;
    again.owner = vec![1, 2];
    again.data = b"abc".to_vec();
    again.reward = [0, 0, 0, 255];
    again.generate_hash();
    assert_eq!(tx.hash, again.hash);
}

#[test]
fn unsigned_financial_tx_is_hashed() {
    let tx = rusty_chain::tx::unsigned_financial_tx(vec![1], vec![2], [0, 0, 0, 7]);
    assert_eq!(tx.tx_type, TxType::Financial);
    assert_eq!(tx.quantity, [0, 0, 0, 7]);
    assert_ne!(tx.hash, [0; 32]);
    assert!(tx.signature.iter().all(|b| *b == 0));
}
