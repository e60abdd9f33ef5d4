use rusty_chain::block_struct::{Block, Transaction};
use rusty_chain::difficulty::GENESIS_DIFF;
use rusty_chain::tx_struct::{DataTx, FinancialTx, Tx};
use sha2::{Digest, Sha256};

fn sample_block() -> Block {
    let mut block = Block::genesis(vec![0xde, 0xad], [0, 0, 0, 0, 0, 0, 1, 2]);
    block.previous_hash = [4; 32];
    block.version = 1;
    block.height = [0, 0, 0, 5];
    block.reward_amount = [0, 0, 0, 50];
    block
}

#[test]
fn genesis_block_fields() {
    let block = Block::genesis(vec![1, 2, 3], [9; 8]);
    assert_eq!(block.difficulty, GENESIS_DIFF);
    assert_eq!(block.nonce, [0; 16]);
    assert_eq!(block.height, [0; 4]);
    assert_eq!(block.timestamp, [9; 8]);
    assert_eq!(block.miner, vec![1, 2, 3]);
    assert_eq!(block.tx_count, 0);
    assert!(block.txs.is_empty());
}

#[test]
fn block_hashable_bytes_in_field_order() {
    let mut block = sample_block();
    block.nonce = [7; 16];
    block.hash = [8; 32];
    let mut expected = vec![4u8; 32];
    expected.extend_from_slice(&[1, GENESIS_DIFF, 0, 0, 0, 5, 0, 0, 0, 0, 0, 0, 1, 2, 0xde, 0xad, 0, 0, 0, 50, 0]);
    assert_eq!(block.to_hashable_bin(), expected);
}

#[test]
fn block_bytes_append_transactions() {
    let mut block = sample_block();
    let data = DataTx::new();
    let fin = FinancialTx::new();
    let mut tail = data.to_hashable_bin();
    tail.extend(fin.to_hashable_bin());
    let before = block.to_hashable_bin();
    block.tx_count = 2;
    block.txs = vec![Transaction::Data(data), Transaction::Financial(fin)];
    let after = block.to_hashable_bin();
    assert_eq!(after.len(), before.len() + tail.len());
    assert_eq!(&after[before.len()..], &tail[..]);
    assert_eq!(after[before.len() - 1], 2);
}

#[test]
fn encoding_is_repeatable_and_ignores_nonce() {
    let mut block = sample_block();
    let first = block.to_hashable_bin();
    assert_eq!(first, block.to_hashable_bin());
    block.generate_hash();
    let h1 = block.hash;
    block.nonce = [1; 16];
    block.generate_hash();
    assert_eq!(block.hash, h1);
    let expected: [u8; 32] = Sha256::digest(&first).into();
    assert_eq!(h1, expected);
}

#[test]
fn block_text_mentions_fields() {
    let text = sample_block().to_string();
    assert!(text.starts_with("Block {\n    nonce: [0, 0,"));
    assert!(text.contains("miner: [de, ad],"));
    assert!(text.contains("txs: [..],"));
}
