//! From the key file to a key that can sign: what is decided before the
//! menu opens.

use crate::key::{load_outcome, InvalidKeyError, KeyMaterial};
use crate::keyfile::{is_keypair_text, keypair_bytes, parse_keypair};
use vstd::prelude::*;

verus! {

/// Why the text of a key file gives no key.
#[derive(Clone, Copy, Debug, PartialEq, Eq, Structural)]
pub enum KeyfileError {
    /// The text is no array of byte values.
    Malformed,
    /// The listed bytes are no signing key.
    Invalid(InvalidKeyError),
}

impl KeyfileError {
    /// What the operator is told.
    pub open spec fn spec_message(self) -> Seq<char> {
        match self {
            KeyfileError::Malformed => "The key file is not an array of byte values."@,
            KeyfileError::Invalid(InvalidKeyError::WrongLength) =>
                "The key file does not list 64 bytes."@,
            KeyfileError::Invalid(InvalidKeyError::Rejected) => "Keypair is invalid."@,
        }
    }

    /// What the operator is told.
    pub fn message(&self) -> (text: &'static str)
        ensures
            text@ == self.spec_message(),
    {
        match self {
            KeyfileError::Malformed => "The key file is not an array of byte values.",
            KeyfileError::Invalid(InvalidKeyError::WrongLength) => {
                "The key file does not list 64 bytes."
            },
            KeyfileError::Invalid(InvalidKeyError::Rejected) => "Keypair is invalid.",
        }
    }
}

/// What the text of a key file comes to: the 64 bytes of a valid key, or the
/// reason why not.
pub open spec fn keyfile_outcome(text: Seq<char>) -> Result<Seq<u8>, KeyfileError> {
    if !is_keypair_text(text) {
        Err(KeyfileError::Malformed)
    } else {
        match load_outcome(keypair_bytes(text)) {
            Ok(bytes) => Ok(bytes),
            Err(e) => Err(KeyfileError::Invalid(e)),
        }
    }
}

/// Reads a signing key from the text of a key file.
pub fn read_keyfile(text: &str) -> (r: Result<KeyMaterial, KeyfileError>)
    ensures
        match r {
            Ok(key) => keyfile_outcome(text@) == Ok::<Seq<u8>, KeyfileError>(key@),
            Err(e) => keyfile_outcome(text@) == Err::<Seq<u8>, KeyfileError>(e),
        },
{
    match parse_keypair(text) {
        None => Err(KeyfileError::Malformed),
        Some(bytes) => match KeyMaterial::load(bytes.as_slice()) {
            Ok(key) => Ok(key),
            Err(e) => Err(KeyfileError::Invalid(e)),
        },
    }
}

/// What to do at startup.
pub enum Startup {
    /// There is no key file: ask the operator to put one in place, then try
    /// again.
    AskForKeyfile,
    /// The key file is there and gives no key: report why, then try again.
    RejectKeyfile(KeyfileError),
    /// The key is loaded: open the menu.
    OpenMenu(KeyMaterial),
}

/// Decides how startup goes on, given the text of the key file, or `None`
/// when the file could not be found. The menu opens only with a key that was
/// read from a file that is there.
pub fn startup(keyfile: Option<&str>) -> (next: Startup)
    ensures
        match keyfile {
            None => next is AskForKeyfile,
            Some(text) => match keyfile_outcome(text@) {
                Ok(bytes) => next is OpenMenu && next->OpenMenu_0@ == bytes,
                Err(e) => next is RejectKeyfile && next->RejectKeyfile_0 == e,
            },
        },
        next is OpenMenu ==> keyfile is Some,
{
    match keyfile {
        None => Startup::AskForKeyfile,
        Some(text) => match read_keyfile(text) {
            Ok(key) => Startup::OpenMenu(key),
            Err(e) => Startup::RejectKeyfile(e),
        },
    }
}

} // verus!
