use sol_wallet::envelope::{
    build_and_sign, AccountMeta, Instruction, TransactionEnvelope, REQUIRED_SIGNERS,
};
use sol_wallet::identifiers::{Address, Blockhash, TransactionSignature};
use sol_wallet::key::{InvalidKeyError, KeyMaterial};
use sol_wallet::request::validate;
use solana_sdk::pubkey::Pubkey;
use solana_sdk::signature::{Keypair, Signer};
use solana_sdk::system_instruction;
use solana_sdk::transaction::Transaction;

#[test]
fn load_keeps_the_public_half_as_address() {
    let keypair = Keypair::new();
    let bytes = keypair.to_bytes();
    let key = KeyMaterial::load(&bytes).unwrap();
    assert_eq!(key.address().to_bytes(), keypair.pubkey().to_bytes());
    assert_eq!(&key.address().to_bytes()[..], &bytes[32..]);
}

#[test]
fn load_refuses_wrong_length_and_mismatched_halves() {
    assert_eq!(KeyMaterial::load(&[1u8; 63]).err(), Some(InvalidKeyError::WrongLength));
    assert_eq!(KeyMaterial::load(&[1u8; 65]).err(), Some(InvalidKeyError::WrongLength));
    let mut bytes = Keypair::new().to_bytes();
    let other = Keypair::new().to_bytes();
    bytes[32..].copy_from_slice(&other[32..]);
    assert_eq!(KeyMaterial::load(&bytes).err(), Some(InvalidKeyError::Rejected));
}

#[test]
fn envelope_matches_the_transaction_of_the_sdk() {
    let keypair = Keypair::new();
    let key = KeyMaterial::load(&keypair.to_bytes()).unwrap();
    let recipient = Pubkey::new_unique();
    let request = validate(&recipient.to_string(), "2.5").unwrap();
    assert_eq!(request.lamports(), 2_500_000_000);
    let blockhash = [7u8; 32];
    let envelope = build_and_sign(&key, &request, Blockhash::from_bytes(blockhash));

    let instruction = system_instruction::transfer(&keypair.pubkey(), &recipient, 2_500_000_000);
    let expected = Transaction::new_signed_with_payer(
        &[instruction.clone()],
        Some(&keypair.pubkey()),
        &[&keypair],
        solana_sdk::hash::Hash::new_from_array(blockhash),
    );
    assert_eq!(envelope.signatures().len(), REQUIRED_SIGNERS);
    assert_eq!(envelope.signatures().len(), expected.signatures.len());
    assert_eq!(&envelope.signature().to_bytes()[..], expected.signatures[0].as_ref());
    assert_eq!(envelope.message(), &expected.message_data());
    assert_eq!(envelope.fee_payer().to_bytes(), keypair.pubkey().to_bytes());
    assert_eq!(envelope.recent_blockhash().to_bytes(), blockhash);
    let built = &envelope.instructions()[0];
    assert_eq!(built.program_id.to_bytes(), [0u8; 32]);
    assert_eq!(built.data, instruction.data);
    assert_eq!(built.data, vec![2, 0, 0, 0, 0, 0xf9, 0x02, 0x95, 0, 0, 0, 0]);
    assert_eq!(built.accounts.len(), 2);
    assert_eq!(built.accounts[0].address.to_bytes(), keypair.pubkey().to_bytes());
    assert!(built.accounts[0].is_signer && built.accounts[0].is_writable);
    assert_eq!(built.accounts[1].address.to_bytes(), recipient.to_bytes());
    assert!(!built.accounts[1].is_signer && built.accounts[1].is_writable);
}

fn instruction_with(accounts: Vec<AccountMeta>) -> Instruction {
    Instruction { program_id: Address::from_bytes([0u8; 32]), accounts, data: vec![1, 2, 3] }
}

fn account(byte: u8, is_signer: bool) -> AccountMeta {
    AccountMeta { address: Address::from_bytes([byte; 32]), is_signer, is_writable: true }
}

#[test]
fn assemble_attaches_the_one_signature_of_the_fee_payer() {
    let payer = Address::from_bytes([1u8; 32]);
    let instruction = instruction_with(vec![account(1, true), account(2, false), account(1, true)]);
    let envelope = TransactionEnvelope::assemble(
        instruction,
        payer,
        Blockhash::from_bytes([9u8; 32]),
        vec![4, 5, 6],
        TransactionSignature::from_bytes([7u8; 64]),
    )
    .unwrap();
    assert_eq!(envelope.signatures().len(), REQUIRED_SIGNERS);
    assert_eq!(envelope.signature(), TransactionSignature::from_bytes([7u8; 64]));
    assert_eq!(envelope.signatures()[0], envelope.signature());
    assert_eq!(envelope.fee_payer(), payer);
    assert_eq!(envelope.recent_blockhash(), Blockhash::from_bytes([9u8; 32]));
    assert_eq!(envelope.message(), &vec![4u8, 5, 6]);
    assert_eq!(envelope.instructions().len(), 1);
    assert_eq!(envelope.instructions()[0].data, vec![1, 2, 3]);
    assert_eq!(envelope.instructions()[0].accounts.len(), 3);
}

#[test]
fn assemble_refuses_an_instruction_that_needs_a_second_signer() {
    let payer = Address::from_bytes([1u8; 32]);
    let instruction = instruction_with(vec![account(1, true), account(2, true)]);
    assert!(TransactionEnvelope::assemble(
        instruction,
        payer,
        Blockhash::from_bytes([9u8; 32]),
        vec![],
        TransactionSignature::from_bytes([7u8; 64]),
    )
    .is_none());
}

#[test]
fn is_signed_only_by_looks_at_the_accounts_marked_as_signers() {
    let payer = Address::from_bytes([1u8; 32]);
    assert!(instruction_with(vec![]).is_signed_only_by(&payer));
    assert!(instruction_with(vec![account(2, false)]).is_signed_only_by(&payer));
    assert!(instruction_with(vec![account(1, true), account(3, false)]).is_signed_only_by(&payer));
    assert!(!instruction_with(vec![account(1, true), account(3, true)]).is_signed_only_by(&payer));
    assert!(!instruction_with(vec![account(3, true)]).is_signed_only_by(&payer));
}
