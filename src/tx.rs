use crate::tx_struct::{data_tx_hashable, financial_tx_hashable, DataTx, FinancialTx, Tx, TxType};
use crate::util::sha256_of;
use vstd::prelude::*;

verus! {

/// A hashed, unsigned data transaction of version 1 from `owner`, carrying
/// `data` and offering a mining reward of 255 tokens, with no previous
/// transaction.
pub fn unsigned_data_tx(owner: Vec<u8>, data: Vec<u8>) -> (r: DataTx)
    ensures
        r.version == 1,
        r.tx_type == TxType::Data,
        r.owner@ == owner@,
        r.data@ == data@,
        r.reward@ == seq![0u8, 0, 0, 255],
        r.previous_hash@ == Seq::new(32, |_i: int| 0u8),
        r.hash@ == sha256_of(data_tx_hashable(&r)),
        r.signature@ == Seq::new(256, |_i: int| 0u8),
{
    let mut tx = DataTx {
        version: 0x01,
        tx_type: TxType::Data,
        owner,
        data,
        reward: [0, 0, 0, 255],
        previous_hash: [0u8; 32],
        hash: [0u8; 32],
        signature: [0u8; 256],
    };
    tx.generate_hash();
    assert(tx.reward@ =~= seq![0u8, 0, 0, 255]);
    assert(tx.previous_hash@ =~= Seq::new(32, |_i: int| 0u8));
    assert(tx.signature@ =~= Seq::new(256, |_i: int| 0u8));
    tx
}

/// A hashed, unsigned financial transaction of version 1 moving `quantity`
/// tokens from `owner` to `receiver` and offering a mining reward of 255
/// tokens, with no previous transaction.
pub fn unsigned_financial_tx(owner: Vec<u8>, receiver: Vec<u8>, quantity: [u8; 4]) -> (r: FinancialTx)
    ensures
        r.version == 1,
        r.tx_type == TxType::Financial,
        r.owner@ == owner@,
        r.receiver@ == receiver@,
        r.quantity == quantity,
        r.reward@ == seq![0u8, 0, 0, 255],
        r.previous_hash@ == Seq::new(32, |_i: int| 0u8),
        r.hash@ == sha256_of(financial_tx_hashable(&r)),
        r.signature@ == Seq::new(256, |_i: int| 0u8),
{
    let mut tx = FinancialTx {
        version: 0x01,
        tx_type: TxType::Financial,
        owner,
        receiver,
        quantity,
        reward: [0, 0, 0, 255],
        previous_hash: [0u8; 32],
        hash: [0u8; 32],
        signature: [0u8; 256],
    };
    tx.generate_hash();
    assert(tx.reward@ =~= seq![0u8, 0, 0, 255]);
    assert(tx.previous_hash@ =~= Seq::new(32, |_i: int| 0u8));
    assert(tx.signature@ =~= Seq::new(256, |_i: int| 0u8));
    tx
}

} // verus!
