//! The fixed-size values that name things on the network: account
//! addresses, block references and transaction signatures, with their
//! base-58 text forms.

use vstd::prelude::*;

verus! {

/// Bytes in an address and in a block reference.
pub const ADDRESS_BYTES: usize = 32;

/// Bytes in a transaction signature.
pub const SIGNATURE_BYTES: usize = 64;

/// No address text is longer than this.
pub const MAX_ADDRESS_TEXT: usize = 44;

/// A character of the base-58 alphabet: the digits and Latin letters without
/// `0`, `O`, `I` and `l`.
pub open spec fn is_base58_char(c: char) -> bool {
    ||| '1' <= c <= '9'
    ||| 'A' <= c <= 'H'
    ||| 'J' <= c <= 'N'
    ||| 'P' <= c <= 'Z'
    ||| 'a' <= c <= 'k'
    ||| 'm' <= c <= 'z'
}

/// Every character of `s` belongs to the base-58 alphabet.
pub open spec fn all_base58(s: Seq<char>) -> bool {
    forall|i: int| 0 <= i < s.len() ==> is_base58_char(#[trigger] s[i])
}

/// The address that `Pubkey::from_str` reads from a text, if it reads one.
pub uninterp spec fn pubkey_decode(text: Seq<char>) -> Option<Seq<u8>>;

/// The text that `Pubkey` formats itself as.
pub uninterp spec fn pubkey_text(bytes: Seq<u8>) -> Seq<char>;

/// The text that `Signature` formats itself as.
pub uninterp spec fn signature_text(bytes: Seq<u8>) -> Seq<char>;

/// Calls `Pubkey::from_str` of `solana_sdk`. The contract names the outcome
/// `pubkey_decode`, and states two things that the source shows: a text of
/// more than 44 characters is refused before decoding, and so is one with a
/// character outside the base-58 alphabet.
#[verifier::external_body]
fn pubkey_from_str(text: &str) -> (r: Option<[u8; 32]>)
    ensures
        match r {
            Some(bytes) => pubkey_decode(text@) == Some(bytes@),
            None => pubkey_decode(text@) is None,
        },
        text@.len() > MAX_ADDRESS_TEXT ==> r is None,
        !all_base58(text@) ==> r is None,
{
    match <solana_sdk::pubkey::Pubkey as std::str::FromStr>::from_str(text) {
        Ok(key) => Some(key.to_bytes()),
        Err(_) => None,
    }
}

/// Formats a `Pubkey` of `solana_sdk` through its `Debug` impl, which writes
/// the base-58 encoding of the 32 bytes. The contract names the text
/// `pubkey_text`.
#[verifier::external_body]
fn pubkey_to_string(bytes: &[u8; 32]) -> (text: String)
    ensures
        text@ == pubkey_text(bytes@),
{
    format!("{:?}", solana_sdk::pubkey::Pubkey::from(*bytes))
}

/// Formats a `Signature` of `solana_sdk` through its `Debug` impl, which
/// writes the base-58 encoding of the 64 bytes. The contract names the text
/// `signature_text`.
#[verifier::external_body]
fn signature_to_string(bytes: &[u8; 64]) -> (text: String)
    ensures
        text@ == signature_text(bytes@),
{
    format!("{:?}", solana_sdk::signature::Signature::from(*bytes))
}

/// Tells whether two byte strings are the same.
pub fn bytes_equal(a: &[u8], b: &[u8]) -> (r: bool)
    ensures
        r == (a@ == b@),
{
    if a.len() != b.len() {
        return false;
    }
    let mut i: usize = 0;
    while i < a.len()
        invariant
            i <= a.len() == b.len(),
            forall|j: int| 0 <= j < i ==> a@[j] == b@[j],
        decreases a.len() - i,
    {
        if a[i] != b[i] {
            return false;
        }
        i += 1;
    }
    assert(a@ =~= b@);
    true
}

/// The public identifier of an account: 32 bytes.
#[derive(Clone, Copy, Debug, PartialEq, Eq)]
pub struct Address {
    pub(crate) bytes: [u8; 32],
}

impl View for Address {
    type V = Seq<u8>;

    closed spec fn view(&self) -> Seq<u8> {
        self.bytes@
    }
}

impl Address {
    /// The address made of the given bytes.
    pub fn from_bytes(bytes: [u8; 32]) -> (address: Address)
        ensures
            address@ == bytes@,
            address@.len() == ADDRESS_BYTES,
    {
        Address { bytes }
    }

    /// The bytes of the address.
    pub fn to_bytes(&self) -> (bytes: [u8; 32])
        ensures
            bytes@ == self@,
            self@.len() == ADDRESS_BYTES,
    {
        self.bytes
    }

    /// Reads an address from its base-58 text. `None` when the text does not
    /// decode to exactly 32 bytes.
    pub fn parse(text: &str) -> (r: Option<Address>)
        ensures
            match r {
                Some(address) => pubkey_decode(text@) == Some(address@),
                None => pubkey_decode(text@) is None,
            },
            text@.len() > MAX_ADDRESS_TEXT ==> r is None,
            !all_base58(text@) ==> r is None,
    {
        match pubkey_from_str(text) {
            Some(bytes) => Some(Address { bytes }),
            None => None,
        }
    }

    /// The base-58 text of the address.
    pub fn to_text(&self) -> (text: String)
        ensures
            text@ == pubkey_text(self@),
    {
        pubkey_to_string(&self.bytes)
    }

    /// Tells whether two addresses are the same.
    pub fn equals(&self, other: &Address) -> (r: bool)
        ensures
            r == (self@ == other@),
    {
        bytes_equal(self.bytes.as_slice(), other.bytes.as_slice())
    }
}

/// A reference to recent network state, as the node hands it out: 32 bytes.
#[derive(Clone, Copy, Debug, PartialEq, Eq)]
pub struct Blockhash {
    pub(crate) bytes: [u8; 32],
}

impl View for Blockhash {
    type V = Seq<u8>;

    closed spec fn view(&self) -> Seq<u8> {
        self.bytes@
    }
}

impl Blockhash {
    /// The block reference made of the given bytes.
    pub fn from_bytes(bytes: [u8; 32]) -> (blockhash: Blockhash)
        ensures
            blockhash@ == bytes@,
            blockhash@.len() == ADDRESS_BYTES,
    {
        Blockhash { bytes }
    }

    /// The bytes of the block reference.
    pub fn to_bytes(&self) -> (bytes: [u8; 32])
        ensures
            bytes@ == self@,
    {
        self.bytes
    }

    /// Tells whether two block references are the same.
    pub fn equals(&self, other: &Blockhash) -> (r: bool)
        ensures
            r == (self@ == other@),
    {
        bytes_equal(self.bytes.as_slice(), other.bytes.as_slice())
    }
}

/// The signature of a transaction, which is also the identifier under which
/// the network reports on it: 64 bytes.
#[derive(Clone, Copy, Debug, PartialEq, Eq)]
pub struct TransactionSignature {
    pub(crate) bytes: [u8; 64],
}

impl View for TransactionSignature {
    type V = Seq<u8>;

    closed spec fn view(&self) -> Seq<u8> {
        self.bytes@
    }
}

impl TransactionSignature {
    /// The signature made of the given bytes.
    pub fn from_bytes(bytes: [u8; 64]) -> (signature: TransactionSignature)
        ensures
            signature@ == bytes@,
            signature@.len() == SIGNATURE_BYTES,
    {
        TransactionSignature { bytes }
    }

    /// The bytes of the signature.
    pub fn to_bytes(&self) -> (bytes: [u8; 64])
        ensures
            bytes@ == self@,
    {
        self.bytes
    }

    /// The base-58 text of the signature.
    pub fn to_text(&self) -> (text: String)
        ensures
            text@ == signature_text(self@),
    {
        signature_to_string(&self.bytes)
    }

    /// Tells whether two signatures are the same.
    pub fn equals(&self, other: &TransactionSignature) -> (r: bool)
        ensures
            r == (self@ == other@),
    {
        bytes_equal(self.bytes.as_slice(), other.bytes.as_slice())
    }
}

} // verus!
