//! The record of a completed transfer and its text in the transfer log.

use crate::amount::{amount_text, format_amount};
use crate::identifiers::{pubkey_text, signature_text, Address, TransactionSignature};
use vstd::prelude::*;
use vstd::string::StringExecFns;

verus! {

/// The line that opens and closes every record of the log.
pub const SEPARATOR: &'static str = "============================";

/// A completed transfer: who sent, who received, how many base units, and
/// the signature under which the network knows the transaction.
#[derive(Clone, Copy, Debug, PartialEq, Eq)]
pub struct TransferRecord {
    pub from: Address,
    pub to: Address,
    pub lamports: u64,
    pub signature: TransactionSignature,
}

/// The mathematical content of a `TransferRecord`.
pub struct TransferRecordView {
    pub from: Seq<u8>,
    pub to: Seq<u8>,
    pub lamports: u64,
    pub signature: Seq<u8>,
}

impl View for TransferRecord {
    type V = TransferRecordView;

    open spec fn view(&self) -> TransferRecordView {
        TransferRecordView {
            from: self.from@,
            to: self.to@,
            lamports: self.lamports,
            signature: self.signature@,
        }
    }
}

/// A block of the log: a separator line, one line each for sender,
/// recipient, amount and signature, a separator line, and an empty line.
pub open spec fn block_text(
    from: Seq<char>,
    to: Seq<char>,
    amount: Seq<char>,
    signature: Seq<char>,
) -> Seq<char> {
    SEPARATOR@ + "\nFrom : "@ + from + ",\nTo : "@ + to + ",\nSol : "@ + amount
        + ",\nTransaction Signature : "@ + signature + "\n"@ + SEPARATOR@ + "\n\n"@
}

/// The block that the log holds for a record: addresses and signature in
/// base 58, the amount in display units. It refers to no other record.
pub open spec fn record_text(record: TransferRecordView) -> Seq<char> {
    block_text(
        pubkey_text(record.from),
        pubkey_text(record.to),
        amount_text(record.lamports),
        signature_text(record.signature),
    )
}

/// Writes a block of the log from the four texts it shows.
pub fn format_block(from: &str, to: &str, amount: &str, signature: &str) -> (text: String)
    ensures
        text@ == block_text(from@, to@, amount@, signature@),
{
    let mut text = String::new();
    text.append(SEPARATOR);
    text.append("\nFrom : ");
    text.append(from);
    text.append(",\nTo : ");
    text.append(to);
    text.append(",\nSol : ");
    text.append(amount);
    text.append(",\nTransaction Signature : ");
    text.append(signature);
    text.append("\n");
    text.append(SEPARATOR);
    text.append("\n\n");
    assert(text@ =~= block_text(from@, to@, amount@, signature@));
    text
}

/// Writes the block of text that is appended to the log for `record`.
pub fn render_record(record: &TransferRecord) -> (text: String)
    ensures
        text@ == record_text(record@),
{
    format_block(
        record.from.to_text().as_str(),
        record.to.to_text().as_str(),
        format_amount(record.lamports).as_str(),
        record.signature.to_text().as_str(),
    )
}

} // verus!
