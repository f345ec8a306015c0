//! What the operator asks for: a recipient and an amount, checked before
//! anything is built or sent.

use crate::amount::{
    amount_lamports, base_units, fraction_digits, is_decimal_text, parse_amount, unsigned_part,
    whole_digits,
};
use crate::digits::is_digit;
use crate::identifiers::{all_base58, pubkey_decode, Address, MAX_ADDRESS_TEXT};
use crate::text::{first_index_of, lemma_first_index_bounds, trim, trimmed};
use vstd::prelude::*;

verus! {

/// Why a request was refused.
#[derive(Clone, Copy, Debug, PartialEq, Eq, Structural)]
pub enum ValidationError {
    /// The recipient text does not decode to an address.
    BadAddress,
    /// The amount text is not a decimal number, or denotes less than one
    /// base unit, or more than 64 bits hold.
    BadAmount,
}

impl ValidationError {
    /// What the operator is told.
    pub open spec fn spec_message(self) -> Seq<char> {
        match self {
            ValidationError::BadAddress => "Please enter a valid recipient address."@,
            ValidationError::BadAmount => "Please enter a valid sol amount."@,
        }
    }

    /// What the operator is told.
    pub fn message(&self) -> (text: &'static str)
        ensures
            text@ == self.spec_message(),
    {
        match self {
            ValidationError::BadAddress => "Please enter a valid recipient address.",
            ValidationError::BadAmount => "Please enter a valid sol amount.",
        }
    }
}

/// A checked request: where the value goes, and how much of it, in base
/// units. The amount is never zero.
#[derive(Clone, Copy, Debug, PartialEq, Eq)]
pub struct TransferRequest {
    recipient: Address,
    lamports: u64,
}

/// The mathematical content of a request.
pub struct TransferRequestView {
    pub recipient: Seq<u8>,
    pub lamports: u64,
}

impl View for TransferRequest {
    type V = TransferRequestView;

    closed spec fn view(&self) -> TransferRequestView {
        TransferRequestView { recipient: self.recipient@, lamports: self.lamports }
    }
}

/// What `validate` makes of the two texts. The recipient is looked at first:
/// with both texts wrong, the answer is `BadAddress`.
pub open spec fn validation(recipient: Seq<char>, amount: Seq<char>) -> Result<
    TransferRequestView,
    ValidationError,
> {
    match pubkey_decode(recipient) {
        None => Err(ValidationError::BadAddress),
        Some(address) => match amount_lamports(amount) {
            None => Err(ValidationError::BadAmount),
            Some(lamports) => Ok(TransferRequestView { recipient: address, lamports }),
        },
    }
}

impl TransferRequest {
    #[verifier::type_invariant]
    spec fn well_formed(self) -> bool {
        self.lamports > 0
    }

    /// The address that receives the value.
    pub fn recipient(&self) -> (recipient: Address)
        ensures
            recipient@ == self@.recipient,
    {
        self.recipient
    }

    /// The amount in base units.
    pub fn lamports(&self) -> (lamports: u64)
        ensures
            lamports == self@.lamports,
            lamports > 0,
    {
        proof {
            use_type_invariant(self);
        }
        self.lamports
    }
}

/// Checks the two texts of a request as they stand.
///
/// The result is `BadAddress` exactly when the recipient does not decode,
/// which includes every text of more than 44 characters and every text with
/// a character outside the base-58 alphabet; it is `BadAmount` exactly when
/// the recipient decodes and the amount has no value in base units.
pub fn validate(recipient_text: &str, amount_text: &str) -> (r: Result<
    TransferRequest,
    ValidationError,
>)
    ensures
        match r {
            Ok(request) => validation(recipient_text@, amount_text@) == Ok::<
                TransferRequestView,
                ValidationError,
            >(request@),
            Err(e) => validation(recipient_text@, amount_text@) == Err::<
                TransferRequestView,
                ValidationError,
            >(e),
        },
        recipient_text@.len() > MAX_ADDRESS_TEXT ==> r == Err::<TransferRequest, ValidationError>(
            ValidationError::BadAddress,
        ),
        !all_base58(recipient_text@) ==> r == Err::<TransferRequest, ValidationError>(
            ValidationError::BadAddress,
        ),
{
    match Address::parse(recipient_text) {
        None => Err(ValidationError::BadAddress),
        Some(recipient) => match parse_amount(amount_text) {
            None => Err(ValidationError::BadAmount),
            Some(lamports) => Ok(TransferRequest { recipient, lamports }),
        },
    }
}

/// Checks the two lines that the operator typed: white space around each,
/// the line end included, is dropped, and the rest goes to `validate`.
pub fn validate_input(recipient_line: &str, amount_line: &str) -> (r: Result<
    TransferRequest,
    ValidationError,
>)
    ensures
        match r {
            Ok(request) => validation(trimmed(recipient_line@), trimmed(amount_line@)) == Ok::<
                TransferRequestView,
                ValidationError,
            >(request@),
            Err(e) => validation(trimmed(recipient_line@), trimmed(amount_line@)) == Err::<
                TransferRequestView,
                ValidationError,
            >(e),
        },
{
    validate(trim(recipient_line), trim(amount_line))
}

/// With a recipient that decodes, every amount text that is no decimal
/// number, that carries a minus sign, or that denotes less than one base
/// unit (zero included) is refused as `BadAmount`.
pub proof fn law_unusable_amount_is_refused(recipient: Seq<char>, amount: Seq<char>)
    requires
        pubkey_decode(recipient) is Some,
        ({
            ||| !is_decimal_text(amount)
            ||| amount.len() > 0 && amount.first() == '-'
            ||| base_units(whole_digits(amount), fraction_digits(amount)) == 0
        }),
    ensures
        validation(recipient, amount) == Err::<TransferRequestView, ValidationError>(
            ValidationError::BadAmount,
        ),
{
    if amount.len() > 0 && amount.first() == '-' {
        assert(unsigned_part(amount) == amount);
        lemma_first_index_bounds(amount.drop_first(), '.');
        lemma_first_index_bounds(amount, '.');
        assert(first_index_of(amount, '.') >= 1);
        assert(whole_digits(amount)[0] == '-');
        assert(!is_digit(whole_digits(amount)[0]));
    }
}

} // verus!
