use crate::util::{append_bytes, hash, hex_byte, hex_byte_text, hex_list_text, hex_list, sha256_of};
use crate::wallet_struct::{signer_outcome, SignerError, Wallet};
use vstd::prelude::*;
use vstd::string::*;

verus! {

/// The kinds of transaction.
#[derive(Debug, Clone, Copy, PartialEq, Eq, Structural)]
pub enum TxType {
    Data,
    Financial,
}

/// The byte that tags a transaction kind in encodings.
pub open spec fn tx_type_byte(t: TxType) -> u8 {
    match t {
        TxType::Data => 0x00,
        TxType::Financial => 0x01,
    }
}

impl TxType {
    /// The byte that tags this kind in encodings.
    pub fn to_byte(self) -> (r: u8)
        ensures
            r == tx_type_byte(self),
    {
        match self {
            TxType::Data => 0x00,
            TxType::Financial => 0x01,
        }
    }
}

/// What every transaction offers: its canonical bytes for hashing and for
/// signing, and the filling in of its hash and signature.
pub trait Tx {
    /// The bytes the hash is computed over: every field but the hash and
    /// the signature.
    spec fn hashable_view(&self) -> Seq<u8>;

    /// The bytes the signature is computed over: the hashable bytes, then
    /// the hash.
    spec fn signable_view(&self) -> Seq<u8>;

    /// Converts the transaction to its hashable bytes.
    fn to_hashable_bin(&self) -> (r: Vec<u8>)
        ensures
            r@ == self.hashable_view(),
    ;

    /// Converts the transaction to its signable bytes.
    fn to_signable_bin(&self) -> (r: Vec<u8>)
        ensures
            r@ == self.signable_view(),
    ;

    /// The hash field.
    spec fn hash_view(&self) -> Seq<u8>;

    /// The signature field.
    spec fn signature_view(&self) -> Seq<u8>;

    /// Computes and sets the hash of the transaction: the SHA-256 digest of
    /// its hashable bytes. Nothing else changes.
    fn generate_hash(&mut self)
        ensures
            final(self).hashable_view() == old(self).hashable_view(),
            final(self).hash_view() == sha256_of(old(self).hashable_view()),
            final(self).signature_view() == old(self).signature_view(),
    ;

    /// Signs the signable bytes with the wallet and sets the signature to
    /// what the signer returned; a signer failure is passed on and leaves
    /// the signature as it was. Nothing else changes.
    fn generate_signature(&mut self, wallet: &Wallet) -> (r: Result<(), SignerError>)
        ensures
            final(self).hashable_view() == old(self).hashable_view(),
            final(self).hash_view() == old(self).hash_view(),
            match signer_outcome(wallet.private_key@, old(self).signable_view()) {
                Ok(s) => r is Ok && final(self).signature_view() == s,
                Err(e) => r == Err::<(), SignerError>(e) && final(self).signature_view()
                    == old(self).signature_view(),
            },
    ;
}

/// A data transaction: a transaction that carries arbitrary data.
pub struct DataTx {
    pub version: u8,
    pub tx_type: TxType,
    /// Public key of the wallet making the transaction.
    pub owner: Vec<u8>,
    /// Arbitrary data.
    pub data: Vec<u8>,
    /// Tokens offered as mining reward.
    pub reward: [u8; 4],
    /// Hash of the owner's previous transaction.
    pub previous_hash: [u8; 32],
    pub hash: [u8; 32],
    /// The owner's RSA signature.
    pub signature: [u8; 256],
}

/// The hashable bytes of a data transaction: version, type, owner, data,
/// reward, previous hash.
pub open spec fn data_tx_hashable(t: &DataTx) -> Seq<u8> {
    seq![t.version, tx_type_byte(t.tx_type)] + t.owner@ + t.data@ + t.reward@ + t.previous_hash@
}

/// Two data transactions agree on every field but the hash and signature.
pub open spec fn data_tx_same_content(a: &DataTx, b: &DataTx) -> bool {
    &&& a.version == b.version
    &&& a.tx_type == b.tx_type
    &&& a.owner@ == b.owner@
    &&& a.data@ == b.data@
    &&& a.reward == b.reward
    &&& a.previous_hash == b.previous_hash
}

/// The text of a data transaction.
pub open spec fn data_tx_text(t: &DataTx) -> Seq<char> {
    "DataTx {\n    version: "@ + hex_byte_text(t.version) + ",\n    tx_type: "@
        + hex_byte_text(tx_type_byte(t.tx_type)) + ",\n    owner: "@ + hex_list_text(t.owner@)
        + ",\n    data: "@ + hex_list_text(t.data@) + ",\n    reward: "@ + hex_list_text(t.reward@)
        + ",\n    previous_hash: "@ + hex_list_text(t.previous_hash@) + ",\n    hash: "@
        + hex_list_text(t.hash@) + ",\n    signature: "@ + hex_list_text(t.signature@) + ",\n}"@
}

impl DataTx {
    /// An empty data transaction: version 0, a 32-byte zero owner, no data,
    /// and zero reward, hashes and signature.
    pub fn new() -> (r: DataTx)
        ensures
            r.version == 0,
            r.tx_type == TxType::Data,
            r.owner@ == Seq::new(32, |_i: int| 0u8),
            r.data@ == Seq::<u8>::empty(),
            r.reward@ == Seq::new(4, |_i: int| 0u8),
            r.previous_hash@ == Seq::new(32, |_i: int| 0u8),
            r.hash@ == Seq::new(32, |_i: int| 0u8),
            r.signature@ == Seq::new(256, |_i: int| 0u8),
    {
        let tx = DataTx {
            version: 0x00,
            tx_type: TxType::Data,
            owner: vec![0u8; 32],
            data: Vec::new(),
            reward: [0u8; 4],
            previous_hash: [0u8; 32],
            hash: [0u8; 32],
            signature: [0u8; 256],
        };
        assert(tx.owner@ =~= Seq::new(32, |_i: int| 0u8));
        assert(tx.reward@ =~= Seq::new(4, |_i: int| 0u8));
        assert(tx.previous_hash@ =~= Seq::new(32, |_i: int| 0u8));
        assert(tx.hash@ =~= Seq::new(32, |_i: int| 0u8));
        assert(tx.signature@ =~= Seq::new(256, |_i: int| 0u8));
        tx
    }

    /// A readable text of every field, bytes in hexadecimal.
    pub fn to_string(&self) -> (r: String)
        ensures
            r@ == data_tx_text(self),
    {
        let mut text = String::from_str("DataTx {\n    version: ");
        text.append(hex_byte(self.version).as_str());
        text.append(",\n    tx_type: ");
        text.append(hex_byte(self.tx_type.to_byte()).as_str());
        text.append(",\n    owner: ");
        text.append(hex_list(self.owner.as_slice()).as_str());
        text.append(",\n    data: ");
        text.append(hex_list(self.data.as_slice()).as_str());
        text.append(",\n    reward: ");
        text.append(hex_list(self.reward.as_slice()).as_str());
        text.append(",\n    previous_hash: ");
        text.append(hex_list(self.previous_hash.as_slice()).as_str());
        text.append(",\n    hash: ");
        text.append(hex_list(self.hash.as_slice()).as_str());
        text.append(",\n    signature: ");
        text.append(hex_list(self.signature.as_slice()).as_str());
        text.append(",\n}");
        text
    }
}

impl Tx for DataTx {
    open spec fn hashable_view(&self) -> Seq<u8> {
        data_tx_hashable(self)
    }

    open spec fn signable_view(&self) -> Seq<u8> {
        data_tx_hashable(self) + self.hash@
    }

    open spec fn hash_view(&self) -> Seq<u8> {
        self.hash@
    }

    open spec fn signature_view(&self) -> Seq<u8> {
        self.signature@
    }

    fn to_hashable_bin(&self) -> (r: Vec<u8>) {
        let mut binary: Vec<u8> = Vec::new();
        binary.push(self.version);
        binary.push(self.tx_type.to_byte());
        append_bytes(&mut binary, self.owner.as_slice());
        append_bytes(&mut binary, self.data.as_slice());
        append_bytes(&mut binary, self.reward.as_slice());
        append_bytes(&mut binary, self.previous_hash.as_slice());
        assert(binary@ =~= data_tx_hashable(self));
        binary
    }

    fn to_signable_bin(&self) -> (r: Vec<u8>) {
        let mut binary = self.to_hashable_bin();
        append_bytes(&mut binary, self.hash.as_slice());
        binary
    }

    fn generate_hash(&mut self)
        ensures
            final(self).hash@ == sha256_of(data_tx_hashable(old(self))),
            data_tx_same_content(final(self), old(self)),
            final(self).signature == old(self).signature,
    {
        let bin: Vec<u8> = self.to_hashable_bin();
        self.hash = hash(&bin);
    }

    fn generate_signature(&mut self, wallet: &Wallet) -> (r: Result<(), SignerError>)
        ensures
            data_tx_same_content(final(self), old(self)),
            final(self).hash == old(self).hash,
    {
        let bin: Vec<u8> = self.to_signable_bin();
        match wallet.sign(&bin) {
            Ok(sig) => {
                self.signature = sig;
                Ok(())
            },
            Err(e) => Err(e),
        }
    }
}

/// A financial transaction: a proposed transfer of tokens between two
/// wallets.
pub struct FinancialTx {
    pub version: u8,
    pub tx_type: TxType,
    /// Public key of the wallet making the transfer.
    pub owner: Vec<u8>,
    /// Public key of the wallet receiving the transfer.
    pub receiver: Vec<u8>,
    /// Tokens transferred.
    pub quantity: [u8; 4],
    /// Tokens offered as mining reward.
    pub reward: [u8; 4],
    /// Hash of the owner's previous transaction.
    pub previous_hash: [u8; 32],
    pub hash: [u8; 32],
    /// The owner's RSA signature.
    pub signature: [u8; 256],
}

/// The hashable bytes of a financial transaction: version, type, owner,
/// receiver, quantity, reward, previous hash.
pub open spec fn financial_tx_hashable(t: &FinancialTx) -> Seq<u8> {
    seq![t.version, tx_type_byte(t.tx_type)] + t.owner@ + t.receiver@ + t.quantity@ + t.reward@
        + t.previous_hash@
}

/// Two financial transactions agree on every field but the hash and
/// signature.
pub open spec fn financial_tx_same_content(a: &FinancialTx, b: &FinancialTx) -> bool {
    &&& a.version == b.version
    &&& a.tx_type == b.tx_type
    &&& a.owner@ == b.owner@
    &&& a.receiver@ == b.receiver@
    &&& a.quantity == b.quantity
    &&& a.reward == b.reward
    &&& a.previous_hash == b.previous_hash
}

/// The text of a financial transaction.
pub open spec fn financial_tx_text(t: &FinancialTx) -> Seq<char> {
    "FinancialTx {\n    version: "@ + hex_byte_text(t.version) + ",\n    tx_type: "@
        + hex_byte_text(tx_type_byte(t.tx_type)) + ",\n    owner: "@ + hex_list_text(t.owner@)
        + ",\n    receiver: "@ + hex_list_text(t.receiver@) + ",\n    quantity: "@
        + hex_list_text(t.quantity@) + ",\n    reward: "@ + hex_list_text(t.reward@)
        + ",\n    previous_hash: "@ + hex_list_text(t.previous_hash@) + ",\n    hash: "@
        + hex_list_text(t.hash@) + ",\n    signature: "@ + hex_list_text(t.signature@) + ",\n}"@
}

impl FinancialTx {
    /// An empty financial transaction: version 0, 32-byte zero owner and
    /// receiver, and zero quantity, reward, hashes and signature.
    pub fn new() -> (r: FinancialTx)
        ensures
            r.version == 0,
            r.tx_type == TxType::Financial,
            r.owner@ == Seq::new(32, |_i: int| 0u8),
            r.receiver@ == Seq::new(32, |_i: int| 0u8),
            r.quantity@ == Seq::new(4, |_i: int| 0u8),
            r.reward@ == Seq::new(4, |_i: int| 0u8),
            r.previous_hash@ == Seq::new(32, |_i: int| 0u8),
            r.hash@ == Seq::new(32, |_i: int| 0u8),
            r.signature@ == Seq::new(256, |_i: int| 0u8),
    {
        let tx = FinancialTx {
            version: 0x00,
            tx_type: TxType::Financial,
            owner: vec![0u8; 32],
            receiver: vec![0u8; 32],
            quantity: [0u8; 4],
            reward: [0u8; 4],
            previous_hash: [0u8; 32],
            hash: [0u8; 32],
            signature: [0u8; 256],
        };
        assert(tx.owner@ =~= Seq::new(32, |_i: int| 0u8));
        assert(tx.receiver@ =~= Seq::new(32, |_i: int| 0u8));
        assert(tx.quantity@ =~= Seq::new(4, |_i: int| 0u8));
        assert(tx.reward@ =~= Seq::new(4, |_i: int| 0u8));
        assert(tx.previous_hash@ =~= Seq::new(32, |_i: int| 0u8));
        assert(tx.hash@ =~= Seq::new(32, |_i: int| 0u8));
        assert(tx.signature@ =~= Seq::new(256, |_i: int| 0u8));
        tx
    }

    /// A readable text of every field, bytes in hexadecimal.
    pub fn to_string(&self) -> (r: String)
        ensures
            r@ == financial_tx_text(self),
    {
        let mut text = String::from_str("FinancialTx {\n    version: ");
        text.append(hex_byte(self.version).as_str());
        text.append(",\n    tx_type: ");
        text.append(hex_byte(self.tx_type.to_byte()).as_str());
        text.append(",\n    owner: ");
        text.append(hex_list(self.owner.as_slice()).as_str());
        text.append(",\n    receiver: ");
        text.append(hex_list(self.receiver.as_slice()).as_str());
        text.append(",\n    quantity: ");
        text.append(hex_list(self.quantity.as_slice()).as_str());
        text.append(",\n    reward: ");
        text.append(hex_list(self.reward.as_slice()).as_str());
        text.append(",\n    previous_hash: ");
        text.append(hex_list(self.previous_hash.as_slice()).as_str());
        text.append(",\n    hash: ");
        text.append(hex_list(self.hash.as_slice()).as_str());
        text.append(",\n    signature: ");
        text.append(hex_list(self.signature.as_slice()).as_str());
        text.append(",\n}");
        text
    }
}

impl Tx for FinancialTx {
    open spec fn hashable_view(&self) -> Seq<u8> {
        financial_tx_hashable(self)
    }

    open spec fn signable_view(&self) -> Seq<u8> {
        financial_tx_hashable(self) + self.hash@
    }

    open spec fn hash_view(&self) -> Seq<u8> {
        self.hash@
    }

    open spec fn signature_view(&self) -> Seq<u8> {
        self.signature@
    }

    fn to_hashable_bin(&self) -> (r: Vec<u8>) {
        let mut binary: Vec<u8> = Vec::new();
        binary.push(self.version);
        binary.push(self.tx_type.to_byte());
        append_bytes(&mut binary, self.owner.as_slice());
        append_bytes(&mut binary, self.receiver.as_slice());
        append_bytes(&mut binary, self.quantity.as_slice());
        append_bytes(&mut binary, self.reward.as_slice());
        append_bytes(&mut binary, self.previous_hash.as_slice());
        assert(binary@ =~= financial_tx_hashable(self));
        binary
    }

    fn to_signable_bin(&self) -> (r: Vec<u8>) {
        let mut binary = self.to_hashable_bin();
        append_bytes(&mut binary, self.hash.as_slice());
        binary
    }

    fn generate_hash(&mut self)
        ensures
            final(self).hash@ == sha256_of(financial_tx_hashable(old(self))),
            financial_tx_same_content(final(self), old(self)),
            final(self).signature == old(self).signature,
    {
        let bin: Vec<u8> = self.to_hashable_bin();
        self.hash = hash(&bin);
    }

    fn generate_signature(&mut self, wallet: &Wallet) -> (r: Result<(), SignerError>)
        ensures
            financial_tx_same_content(final(self), old(self)),
            final(self).hash == old(self).hash,
    {
        let bin: Vec<u8> = self.to_signable_bin();
        match wallet.sign(&bin) {
            Ok(sig) => {
                self.signature = sig;
                Ok(())
            },
            Err(e) => Err(e),
        }
    }
}

} // verus!
