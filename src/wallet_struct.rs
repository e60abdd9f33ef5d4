use crate::key_parser::{get_public_der, public_der};
use vstd::prelude::*;

verus! {

/// The outcome of signing `message` with the DER RSA private key
/// `private_key` (RSA PKCS#1 v1.5, SHA-256): the signature, or nothing when
/// the key is rejected or signing fails. PKCS#1 v1.5 signing draws no random
/// bytes, so the outcome depends on the key and the message alone.
pub uninterp spec fn pkcs1_sha256_signature_of(private_key: Seq<u8>, message: Seq<u8>) -> Option<Seq<u8>>;

/// Whether `signature` is a valid RSA PKCS#1 v1.5 SHA-256 signature of
/// `message` under the DER public key `public_key`.
pub uninterp spec fn pkcs1_sha256_valid(public_key: Seq<u8>, message: Seq<u8>, signature: Seq<u8>) -> bool;

/// Relies on `ring::rsa::KeyPair::from_der` and `ring::rsa::KeyPair::sign`
/// with `RSA_PKCS1_SHA256`: parses the private key, then signs the message
/// into a buffer of the key's modulus length.
#[verifier::external_body]
fn sign_pkcs1_sha256(private_key: &[u8], message: &[u8]) -> (r: Option<Vec<u8>>)
    ensures
        match pkcs1_sha256_signature_of(private_key@, message@) {
            Some(s) => r matches Some(v) && v@ == s,
            None => r is None,
        },
{
    let key = ring::rsa::KeyPair::from_der(private_key).ok()?;
    let rng = ring::rand::SystemRandom::new();
    let mut signature = vec![0u8; key.public().modulus_len()];
    key.sign(&ring::signature::RSA_PKCS1_SHA256, &rng, message, &mut signature).ok()?;
    Some(signature)
}

/// Relies on `ring::signature::UnparsedPublicKey::verify` with
/// `RSA_PKCS1_2048_8192_SHA256`: whether the signature is valid, a function
/// of the key, the message and the signature.
#[verifier::external_body]
fn verify_pkcs1_sha256(public_key: &[u8], message: &[u8], signature: &[u8]) -> (r: bool)
    ensures
        r == pkcs1_sha256_valid(public_key@, message@, signature@),
{
    let key = ring::signature::UnparsedPublicKey::new(&ring::signature::RSA_PKCS1_2048_8192_SHA256, public_key);
    key.verify(message, signature).is_ok()
}

/// Why the signer could not sign.
#[derive(Debug, Clone, Copy, PartialEq, Eq, Structural)]
pub enum SignerError {
    /// The private key was rejected, or signing failed.
    SigningFailed,
    /// The signature is not 256 bytes long (the key is not RSA-2048).
    WrongLength,
}

/// What the signer gives for `message` under `private_key`: the
/// signature when it is 256 bytes long, else the error.
pub open spec fn signer_outcome(private_key: Seq<u8>, message: Seq<u8>) -> Result<Seq<u8>, SignerError> {
    match pkcs1_sha256_signature_of(private_key, message) {
        None => Err(SignerError::SigningFailed),
        Some(s) => if s.len() == 256 {
            Ok(s)
        } else {
            Err(SignerError::WrongLength)
        },
    }
}

/// A wallet: a DER RSA key pair.
pub struct Wallet {
    pub public_key: Vec<u8>,
    pub private_key: Vec<u8>,
}

/// Copies a 256-byte signature into a fixed-width buffer; any other length
/// is an error.
pub fn fixed_signature(signature: &Vec<u8>) -> (r: Result<[u8; 256], SignerError>)
    ensures
        signature@.len() == 256 <==> r is Ok,
        r matches Ok(s) ==> s@ == signature@,
        r matches Err(e) ==> e == SignerError::WrongLength,
{
    if signature.len() != 256 {
        return Err(SignerError::WrongLength);
    }
    let mut out: [u8; 256] = [0u8; 256];
    let mut i: usize = 0;
    while i < 256
        invariant
            i <= 256,
            signature@.len() == 256,
            forall|k: int| 0 <= k < i ==> out@[k] == signature@[k],
        decreases 256 - i,
    {
        out[i] = signature[i];
        i = i + 1;
    }
    assert(out@ =~= signature@);
    Ok(out)
}

impl Wallet {
    /// Loads a wallet from a DER RSA private key; its public key is parsed
    /// out of the private key. Returns `None` when the key is malformed.
    pub fn load(key_data: Vec<u8>) -> (r: Option<Wallet>)
        ensures
            match public_der(key_data@) {
                Some(der) => r matches Some(w) && w.public_key@ == der && w.private_key@ == key_data@,
                None => r is None,
            },
    {
        match get_public_der(&key_data) {
            None => None,
            Some(public) => Some(Wallet { public_key: public, private_key: key_data }),
        }
    }

    /// Signs arbitrary binary data with the wallet's private key (RSA
    /// PKCS#1 v1.5, SHA-256). The signer's failures are passed on.
    pub fn sign(&self, data: &Vec<u8>) -> (r: Result<[u8; 256], SignerError>)
        ensures
            match signer_outcome(self.private_key@, data@) {
                Ok(s) => r matches Ok(sig) && sig@ == s,
                Err(e) => r == Err::<[u8; 256], SignerError>(e),
            },
    {
        match sign_pkcs1_sha256(self.private_key.as_slice(), data.as_slice()) {
            None => Err(SignerError::SigningFailed),
            Some(signature) => fixed_signature(&signature),
        }
    }

    /// Verifies a signature of binary data against a DER public key.
    pub fn verify(public_signer: &Vec<u8>, data: &Vec<u8>, signature: &[u8; 256]) -> (r: bool)
        ensures
            r == pkcs1_sha256_valid(public_signer@, data@, signature@),
    {
        verify_pkcs1_sha256(public_signer.as_slice(), data.as_slice(), signature.as_slice())
    }
}

} // verus!
