use crate::difficulty::GENESIS_DIFF;
use crate::tx_struct::{data_tx_hashable, financial_tx_hashable, DataTx, FinancialTx, Tx};
use crate::util::{append_bytes, hash, hex_byte, hex_byte_text, hex_list_text, hex_list, sha256_of};
use vstd::prelude::*;
use vstd::string::*;

verus! {

/// A transaction held by a block, of either kind.
pub enum Transaction {
    Data(DataTx),
    Financial(FinancialTx),
}

/// The hashable bytes of a transaction of either kind.
pub open spec fn transaction_hashable(t: Transaction) -> Seq<u8> {
    match t {
        Transaction::Data(d) => data_tx_hashable(&d),
        Transaction::Financial(f) => financial_tx_hashable(&f),
    }
}

/// The hashable bytes of a list of transactions, one after the other.
pub open spec fn txs_hashable(txs: Seq<Transaction>) -> Seq<u8>
    decreases txs.len(),
{
    if txs.len() == 0 {
        Seq::empty()
    } else {
        txs_hashable(txs.drop_last()) + transaction_hashable(txs.last())
    }
}

impl Transaction {
    /// The hashable bytes of the transaction.
    pub fn to_hashable_bin(&self) -> (r: Vec<u8>)
        ensures
            r@ == transaction_hashable(*self),
    {
        match self {
            Transaction::Data(d) => d.to_hashable_bin(),
            Transaction::Financial(f) => f.to_hashable_bin(),
        }
    }
}

/// A block of the chain.
pub struct Block {
    /// The proof of work.
    pub nonce: [u8; 16],
    pub previous_hash: [u8; 32],
    pub version: u8,
    pub difficulty: u8,
    /// Height in the chain, big-endian.
    pub height: [u8; 4],
    /// Unix time in seconds, big-endian.
    pub timestamp: [u8; 8],
    /// Public key of the miner.
    pub miner: Vec<u8>,
    pub reward_amount: [u8; 4],
    pub tx_count: u8,
    pub txs: Vec<Transaction>,
    pub hash: [u8; 32],
}

/// The hashable bytes of a block: previous hash, version, difficulty,
/// height, timestamp, miner, reward, transaction count, and the hashable
/// bytes of its transactions. The nonce and the hash are left out.
pub open spec fn block_hashable(b: &Block) -> Seq<u8> {
    b.previous_hash@ + seq![b.version, b.difficulty] + b.height@ + b.timestamp@ + b.miner@
        + b.reward_amount@ + seq![b.tx_count] + txs_hashable(b.txs@)
}

/// Two blocks agree on every field but the nonce and the hash.
pub open spec fn block_same_content(a: &Block, b: &Block) -> bool {
    &&& a.previous_hash == b.previous_hash
    &&& a.version == b.version
    &&& a.difficulty == b.difficulty
    &&& a.height == b.height
    &&& a.timestamp == b.timestamp
    &&& a.miner@ == b.miner@
    &&& a.reward_amount == b.reward_amount
    &&& a.tx_count == b.tx_count
    &&& a.txs@ == b.txs@
}

/// The text of a block.
pub open spec fn block_text(b: &Block) -> Seq<char> {
    "Block {\n    nonce: "@ + hex_list_text(b.nonce@) + ",\n    previous_hash: "@
        + hex_list_text(b.previous_hash@) + ",\n    version: "@ + hex_byte_text(b.version)
        + ",\n    difficulty: "@ + hex_byte_text(b.difficulty) + ",\n    height: "@
        + hex_list_text(b.height@) + ",\n    timestamp: "@ + hex_list_text(b.timestamp@)
        + ",\n    miner: "@ + hex_list_text(b.miner@) + ",\n    reward_amount: "@
        + hex_list_text(b.reward_amount@) + ",\n    tx_count: "@ + hex_byte_text(b.tx_count)
        + ",\n    txs: [..],\n    hash: "@ + hex_list_text(b.hash@) + ",\n}"@
}

impl Block {
    /// The genesis block of a new chain, mined by `miner` at `timestamp`:
    /// genesis difficulty, height zero, no transactions, and zero nonce,
    /// previous hash, reward and hash.
    pub fn genesis(miner: Vec<u8>, timestamp: [u8; 8]) -> (r: Block)
        ensures
            r.nonce@ == Seq::new(16, |_i: int| 0u8),
            r.previous_hash@ == Seq::new(32, |_i: int| 0u8),
            r.version == 0,
            r.difficulty == GENESIS_DIFF,
            r.height@ == Seq::new(4, |_i: int| 0u8),
            r.timestamp == timestamp,
            r.miner@ == miner@,
            r.reward_amount@ == Seq::new(4, |_i: int| 0u8),
            r.tx_count == 0,
            r.txs@ == Seq::<Transaction>::empty(),
            r.hash@ == Seq::new(32, |_i: int| 0u8),
    {
        let b = Block {
            nonce: [0u8; 16],
            previous_hash: [0u8; 32],
            version: 0,
            difficulty: GENESIS_DIFF,
            height: [0u8; 4],
            timestamp,
            miner,
            reward_amount: [0u8; 4],
            tx_count: 0,
            txs: Vec::new(),
            hash: [0u8; 32],
        };
        assert(b.nonce@ =~= Seq::new(16, |_i: int| 0u8));
        assert(b.previous_hash@ =~= Seq::new(32, |_i: int| 0u8));
        assert(b.height@ =~= Seq::new(4, |_i: int| 0u8));
        assert(b.reward_amount@ =~= Seq::new(4, |_i: int| 0u8));
        assert(b.hash@ =~= Seq::new(32, |_i: int| 0u8));
        b
    }

    /// A readable text of the block's fields, bytes in hexadecimal; the
    /// transactions are elided.
    pub fn to_string(&self) -> (r: String)
        ensures
            r@ == block_text(self),
    {
        let mut text = String::from_str("Block {\n    nonce: ");
        text.append(hex_list(self.nonce.as_slice()).as_str());
        text.append(",\n    previous_hash: ");
        text.append(hex_list(self.previous_hash.as_slice()).as_str());
        text.append(",\n    version: ");
        text.append(hex_byte(self.version).as_str());
        text.append(",\n    difficulty: ");
        text.append(hex_byte(self.difficulty).as_str());
        text.append(",\n    height: ");
        text.append(hex_list(self.height.as_slice()).as_str());
        text.append(",\n    timestamp: ");
        text.append(hex_list(self.timestamp.as_slice()).as_str());
        text.append(",\n    miner: ");
        text.append(hex_list(self.miner.as_slice()).as_str());
        text.append(",\n    reward_amount: ");
        text.append(hex_list(self.reward_amount.as_slice()).as_str());
        text.append(",\n    tx_count: ");
        text.append(hex_byte(self.tx_count).as_str());
        text.append(",\n    txs: [..],\n    hash: ");
        text.append(hex_list(self.hash.as_slice()).as_str());
        text.append(",\n}");
        text
    }

    /// Converts the block to the bytes its hash is computed over. The nonce
    /// is left out: it is the proof of work over these bytes.
    pub fn to_hashable_bin(&self) -> (r: Vec<u8>)
        ensures
            r@ == block_hashable(self),
    {
        let mut txs_bin: Vec<u8> = Vec::new();
        let mut i: usize = 0;
        while i < self.txs.len()
            invariant
                i <= self.txs@.len(),
                txs_bin@ == txs_hashable(self.txs@.subrange(0, i as int)),
            decreases self.txs@.len() - i,
        {
            let tx_bin = self.txs[i].to_hashable_bin();
            append_bytes(&mut txs_bin, tx_bin.as_slice());
            let ghost prefix = self.txs@.subrange(0, i + 1);
            assert(prefix.drop_last() =~= self.txs@.subrange(0, i as int));
            i = i + 1;
        }
        assert(self.txs@.subrange(0, self.txs@.len() as int) =~= self.txs@);
        let mut binary: Vec<u8> = Vec::new();
        append_bytes(&mut binary, self.previous_hash.as_slice());
        binary.push(self.version);
        binary.push(self.difficulty);
        append_bytes(&mut binary, self.height.as_slice());
        append_bytes(&mut binary, self.timestamp.as_slice());
        append_bytes(&mut binary, self.miner.as_slice());
        append_bytes(&mut binary, self.reward_amount.as_slice());
        binary.push(self.tx_count);
        append_bytes(&mut binary, txs_bin.as_slice());
        assert(binary@ =~= block_hashable(self));
        binary
    }

    /// Computes and sets the hash of the block.
    pub fn generate_hash(&mut self)
        ensures
            final(self).hash@ == sha256_of(block_hashable(old(self))),
            block_same_content(final(self), old(self)),
            final(self).nonce == old(self).nonce,
    {
        let bin: Vec<u8> = self.to_hashable_bin();
        self.hash = hash(&bin);
    }
}

/// The canonical bytes of a block are a function of its content alone:
/// two blocks that differ at most in nonce and hash have the same hashable
/// bytes, hence the same computed hash.
pub proof fn lemma_block_encoding_deterministic(a: &Block, b: &Block)
    requires
        block_same_content(a, b),
    ensures
        block_hashable(a) == block_hashable(b),
        sha256_of(block_hashable(a)) == sha256_of(block_hashable(b)),
{
}

} // verus!
