//! The core of a command-line wallet for a public ledger: loading the
//! signing key, checking a transfer request, building and signing the
//! transaction, and the protocol that takes it from submission to finality.
//!
//! Everything here computes on plain values; reading files, talking to the
//! node and waiting are left to the caller. The transfer itself is a state
//! machine, [`transfer::TransferFlow`]: the caller performs the action it
//! asks for and hands back what happened.
//!
//! - [`keyfile`] and [`startup`]: from the text of the key file to a key.
//! - [`key`]: the signing key and its address.
//! - [`amount`]: decimal display units and whole base units.
//! - [`identifiers`]: addresses, block references, signatures.
//! - [`request`]: what the operator asks for, checked.
//! - [`envelope`]: the transfer instruction and the signed envelope.
//! - [`confirmation`]: waiting for finality, with a bound.
//! - [`transfer`]: one transfer from request to record.
//! - [`ledger`]: the record of a transfer and its text in the log.
//! - [`menu`]: the choices of the main menu.
//! - [`text`] and [`digits`]: white space, trimming, digits and small
//!   numbers.

pub mod amount;
pub mod confirmation;
pub mod digits;
pub mod envelope;
pub mod identifiers;
pub mod key;
pub mod keyfile;
pub mod ledger;
pub mod menu;
pub mod request;
pub mod startup;
pub mod text;
pub mod transfer;

pub use crate::keyfile::trim_keypair;
