//! The signing key of the wallet.

use crate::identifiers::{Address, TransactionSignature};
use vstd::prelude::*;

verus! {

/// Bytes in the stored form of a signing key: 32 of the secret, then 32 of
/// the public key.
pub const KEYPAIR_BYTES: usize = 64;

/// Whether `Keypair::from_bytes` accepts the bytes as a signing key.
pub uninterp spec fn keypair_valid(bytes: Seq<u8>) -> bool;

/// The signature that the key stored as `key` gives to `message`.
pub uninterp spec fn ed25519_signature(key: Seq<u8>, message: Seq<u8>) -> Seq<u8>;

/// Calls `Keypair::from_bytes` of `solana_sdk` and tells whether it
/// succeeded. The contract names the outcome `keypair_valid` and states what
/// the source shows first: anything but 64 bytes is refused.
#[verifier::external_body]
fn keypair_accepts(bytes: &[u8]) -> (ok: bool)
    ensures
        ok == keypair_valid(bytes@),
        bytes@.len() != KEYPAIR_BYTES ==> !ok,
{
    solana_sdk::signer::keypair::Keypair::from_bytes(bytes).is_ok()
}

/// Calls `Signer::pubkey` of `solana_sdk` on the keypair made of `bytes`. By
/// the source the public key of a keypair is its second half, as it was
/// stored.
#[verifier::external_body]
fn keypair_pubkey(bytes: &[u8]) -> (address: [u8; 32])
    requires
        keypair_valid(bytes@),
        bytes@.len() == KEYPAIR_BYTES,
    ensures
        address@ == bytes@.subrange(32, 64),
{
    let keypair = solana_sdk::signer::keypair::Keypair::from_bytes(bytes).unwrap();
    solana_sdk::signer::Signer::pubkey(&keypair).to_bytes()
}

/// Calls `Signer::sign_message` of `solana_sdk` on the keypair made of
/// `bytes`. Ed25519 signatures are a function of key and message; the
/// contract names the result `ed25519_signature`.
#[verifier::external_body]
fn keypair_sign(bytes: &[u8], message: &[u8]) -> (signature: [u8; 64])
    requires
        keypair_valid(bytes@),
        bytes@.len() == KEYPAIR_BYTES,
    ensures
        signature@ == ed25519_signature(bytes@, message@),
{
    let keypair = solana_sdk::signer::keypair::Keypair::from_bytes(bytes).unwrap();
    solana_sdk::signer::Signer::sign_message(&keypair, message).into()
}

/// Why bytes were not taken as a signing key.
#[derive(Clone, Copy, Debug, PartialEq, Eq, Structural)]
pub enum InvalidKeyError {
    /// There were not exactly 64 bytes.
    WrongLength,
    /// The key-validity check refused the 64 bytes.
    Rejected,
}

/// A signing key together with the address it signs for. It is made once,
/// by `load`, and never changes.
pub struct KeyMaterial {
    bytes: Vec<u8>,
}

impl View for KeyMaterial {
    type V = Seq<u8>;

    /// The 64 stored bytes.
    closed spec fn view(&self) -> Seq<u8> {
        self.bytes@
    }
}

/// What `KeyMaterial::load` returns for the given bytes.
pub open spec fn load_outcome(bytes: Seq<u8>) -> Result<Seq<u8>, InvalidKeyError> {
    if bytes.len() != KEYPAIR_BYTES {
        Err(InvalidKeyError::WrongLength)
    } else if !keypair_valid(bytes) {
        Err(InvalidKeyError::Rejected)
    } else {
        Ok(bytes)
    }
}

impl KeyMaterial {
    #[verifier::type_invariant]
    spec fn well_formed(self) -> bool {
        &&& self.bytes@.len() == KEYPAIR_BYTES
        &&& keypair_valid(self.bytes@)
    }

    /// The address that the key signs for: the second half of its bytes.
    pub open spec fn spec_address(&self) -> Seq<u8> {
        self@.subrange(32, 64)
    }

    /// Takes the stored form of a signing key.
    pub fn load(bytes: &[u8]) -> (r: Result<KeyMaterial, InvalidKeyError>)
        ensures
            match r {
                Ok(key) => load_outcome(bytes@) == Ok::<Seq<u8>, InvalidKeyError>(key@),
                Err(e) => load_outcome(bytes@) == Err::<Seq<u8>, InvalidKeyError>(e),
            },
    {
        if bytes.len() != KEYPAIR_BYTES {
            return Err(InvalidKeyError::WrongLength);
        }
        if !keypair_accepts(bytes) {
            return Err(InvalidKeyError::Rejected);
        }
        let mut stored: Vec<u8> = Vec::new();
        let mut i: usize = 0;
        while i < bytes.len()
            invariant
                i <= bytes.len(),
                stored@ == bytes@.take(i as int),
            decreases bytes.len() - i,
        {
            stored.push(bytes[i]);
            assert(bytes@.take(i + 1) =~= bytes@.take(i as int).push(bytes@[i as int]));
            i += 1;
        }
        assert(bytes@.take(bytes.len() as int) =~= bytes@);
        Ok(KeyMaterial { bytes: stored })
    }

    /// The address that the key signs for.
    pub fn address(&self) -> (address: Address)
        ensures
            address@ == self.spec_address(),
    {
        proof {
            use_type_invariant(self);
        }
        Address::from_bytes(keypair_pubkey(self.bytes.as_slice()))
    }

    /// Signs a message.
    pub fn sign(&self, message: &[u8]) -> (signature: TransactionSignature)
        ensures
            signature@ == ed25519_signature(self@, message@),
    {
        proof {
            use_type_invariant(self);
        }
        TransactionSignature::from_bytes(keypair_sign(self.bytes.as_slice(), message))
    }
}

} // verus!
