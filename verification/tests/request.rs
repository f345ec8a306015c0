use sol_wallet::request::{validate, validate_input, ValidationError};
use solana_sdk::pubkey::Pubkey;

const RECIPIENT: &str = "4fYNw3dojWmQ4dXtSGE9epjRGy9pFSx62YypT7avPYvA";

#[test]
fn validate_takes_a_recipient_and_a_positive_amount() {
    let request = validate(RECIPIENT, "2.5").unwrap();
    let expected: Pubkey = RECIPIENT.parse().unwrap();
    assert_eq!(request.recipient().to_bytes(), expected.to_bytes());
    assert_eq!(request.lamports(), 2_500_000_000);
}

#[test]
fn amount_text_abc_is_a_bad_amount() {
    assert_eq!(validate(RECIPIENT, "abc"), Err(ValidationError::BadAmount));
}

#[test]
fn recipient_with_invalid_characters_is_a_bad_address() {
    assert_eq!(
        validate("4fYNw3dojWmQ4dXtSGE9epjRGy9pFSx62YypT7avPY!!", "2.5"),
        Err(ValidationError::BadAddress)
    );
    assert_eq!(validate("not an address", "2.5"), Err(ValidationError::BadAddress));
}

#[test]
fn recipient_of_the_wrong_length_is_a_bad_address() {
    assert_eq!(validate("", "1"), Err(ValidationError::BadAddress));
    assert_eq!(validate("abc", "1"), Err(ValidationError::BadAddress));
    assert_eq!(
        validate("4fYNw3dojWmQ4dXtSGE9epjRGy9pFSx62YypT7avPYvA4fYNw3", "1"),
        Err(ValidationError::BadAddress)
    );
}

#[test]
fn amounts_that_are_not_positive_are_bad_amounts() {
    for amount in ["0", "0.0", "-1", "-0.5", "0.0000000001", "", "1e3", "NaN", "inf"] {
        assert_eq!(validate(RECIPIENT, amount), Err(ValidationError::BadAmount), "{:?}", amount);
    }
}

#[test]
fn with_both_texts_wrong_the_address_is_reported() {
    assert_eq!(validate("???", "abc"), Err(ValidationError::BadAddress));
}

#[test]
fn validate_takes_the_texts_as_they_stand() {
    assert_eq!(validate(" 4fYNw3dojWmQ4dXtSGE9epjRGy9pFSx62YypT7avPYvA", "1"), Err(ValidationError::BadAddress));
    assert_eq!(validate(RECIPIENT, "1\n"), Err(ValidationError::BadAmount));
}

#[test]
fn validate_input_drops_the_white_space_around_typed_lines() {
    let request = validate_input("  4fYNw3dojWmQ4dXtSGE9epjRGy9pFSx62YypT7avPYvA\n", " 0.75\r\n").unwrap();
    assert_eq!(request.lamports(), 750_000_000);
    assert_eq!(validate_input("\n", "1\n"), Err(ValidationError::BadAddress));
    assert_eq!(validate_input(RECIPIENT, "1 0\n"), Err(ValidationError::BadAmount));
}

#[test]
fn each_validation_error_has_its_message() {
    assert_eq!(ValidationError::BadAddress.message(), "Please enter a valid recipient address.");
    assert_eq!(ValidationError::BadAmount.message(), "Please enter a valid sol amount.");
}
