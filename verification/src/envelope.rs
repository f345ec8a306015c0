//! The transfer instruction and the signed envelope that carries it.

use crate::identifiers::{Address, Blockhash, TransactionSignature};
use crate::key::{ed25519_signature, KeyMaterial};
use crate::request::{TransferRequest, TransferRequestView};
use vstd::bytes::{lemma_auto_spec_u64_to_from_le_bytes, spec_u64_to_le_bytes};
use vstd::prelude::*;

verus! {

/// Signers that a transfer needs: the sender, who also pays the fee.
pub const REQUIRED_SIGNERS: usize = 1;

/// The most accounts an instruction may name for its message to be compiled.
pub const MAX_INSTRUCTION_ACCOUNTS: usize = 253;

/// The most data bytes an instruction may carry for its message to be
/// serialized.
pub const MAX_INSTRUCTION_DATA: usize = 65535;

/// An account as an instruction refers to it.
#[derive(Clone, Copy, Debug, PartialEq, Eq)]
pub struct AccountMeta {
    pub address: Address,
    pub is_signer: bool,
    pub is_writable: bool,
}

/// The mathematical content of an `AccountMeta`.
pub struct AccountMetaView {
    pub address: Seq<u8>,
    pub is_signer: bool,
    pub is_writable: bool,
}

impl View for AccountMeta {
    type V = AccountMetaView;

    open spec fn view(&self) -> AccountMetaView {
        AccountMetaView {
            address: self.address@,
            is_signer: self.is_signer,
            is_writable: self.is_writable,
        }
    }
}

/// One instruction: the program to run, the accounts it touches, its data.
#[derive(Debug)]
pub struct Instruction {
    pub program_id: Address,
    pub accounts: Vec<AccountMeta>,
    pub data: Vec<u8>,
}

/// The mathematical content of an `Instruction`.
pub struct InstructionView {
    pub program_id: Seq<u8>,
    pub accounts: Seq<AccountMetaView>,
    pub data: Seq<u8>,
}

impl View for Instruction {
    type V = InstructionView;

    open spec fn view(&self) -> InstructionView {
        InstructionView {
            program_id: self.program_id@,
            accounts: self.accounts@.map_values(|a: AccountMeta| a@),
            data: self.data@,
        }
    }
}

impl Instruction {
    /// Tells whether `signer` is the only account that the instruction
    /// marks as a signer.
    pub fn is_signed_only_by(&self, signer: &Address) -> (r: bool)
        ensures
            r == signed_only_by(self@, signer@),
    {
        let mut j: usize = 0;
        while j < self.accounts.len()
            invariant
                j <= self.accounts.len(),
                forall|k: int|
                    0 <= k < j && (#[trigger] self@.accounts[k]).is_signer
                        ==> self@.accounts[k].address == signer@,
            decreases self.accounts.len() - j,
        {
            let meta = &self.accounts[j];
            if meta.is_signer && !meta.address.equals(signer) {
                assert(self@.accounts[j as int] == meta@);
                return false;
            }
            assert(self@.accounts[j as int] == meta@);
            j += 1;
        }
        true
    }
}

/// The address of the system program: 32 zero bytes.
pub open spec fn system_program() -> Seq<u8> {
    Seq::new(32, |i: int| 0u8)
}

/// The instruction that moves `lamports` base units from `from` to `to`: it
/// runs the system program on the two accounts, both writable, the first a
/// signer, and its data is the number 2 in four bytes followed by the amount
/// in eight, low byte first.
pub open spec fn transfer_instruction(from: Seq<u8>, to: Seq<u8>, lamports: u64) -> InstructionView {
    InstructionView {
        program_id: system_program(),
        accounts: seq![
            AccountMetaView { address: from, is_signer: true, is_writable: true },
            AccountMetaView { address: to, is_signer: false, is_writable: true },
        ],
        data: seq![2u8, 0u8, 0u8, 0u8] + spec_u64_to_le_bytes(lamports),
    }
}

/// The serialized message that `Message::new_with_blockhash` compiles from
/// one instruction, a fee payer and a block reference.
pub uninterp spec fn message_bytes(
    instruction: InstructionView,
    payer: Seq<u8>,
    blockhash: Seq<u8>,
) -> Seq<u8>;

/// Calls `system_instruction::transfer` of `solana_sdk` and hands its three
/// fields over. By the source they are what `transfer_instruction` says.
#[verifier::external_body]
fn system_transfer(from: &Address, to: &Address, lamports: u64) -> (instruction: Instruction)
    ensures
        instruction@ == transfer_instruction(from@, to@, lamports),
{
    let from = solana_sdk::pubkey::Pubkey::from(from.bytes);
    let to = solana_sdk::pubkey::Pubkey::from(to.bytes);
    let made = solana_sdk::system_instruction::transfer(&from, &to, lamports);
    Instruction {
        program_id: Address { bytes: made.program_id.to_bytes() },
        accounts: made.accounts.iter().map(
            |meta|
                AccountMeta {
                    address: Address { bytes: meta.pubkey.to_bytes() },
                    is_signer: meta.is_signer,
                    is_writable: meta.is_writable,
                },
        ).collect(),
        data: made.data,
    }
}

/// Calls `Message::new_with_blockhash` of `solana_sdk` on one instruction and
/// serializes the message. The contract names the bytes `message_bytes`. The
/// bounds keep the account indices within a byte and the lengths within
/// sixteen bits, beyond which the call panics.
#[verifier::external_body]
fn compile_message(instruction: &Instruction, payer: &Address, blockhash: &Blockhash) -> (message:
    Vec<u8>)
    requires
        instruction@.accounts.len() <= MAX_INSTRUCTION_ACCOUNTS,
        instruction@.data.len() <= MAX_INSTRUCTION_DATA,
    ensures
        message@ == message_bytes(instruction@, payer@, blockhash@),
{
    let given = solana_sdk::instruction::Instruction {
        program_id: solana_sdk::pubkey::Pubkey::from(instruction.program_id.bytes),
        accounts: instruction.accounts.iter().map(
            |meta|
                solana_sdk::instruction::AccountMeta {
                    pubkey: solana_sdk::pubkey::Pubkey::from(meta.address.bytes),
                    is_signer: meta.is_signer,
                    is_writable: meta.is_writable,
                },
        ).collect(),
        data: instruction.data.clone(),
    };
    let payer = solana_sdk::pubkey::Pubkey::from(payer.bytes);
    let blockhash = solana_sdk::hash::Hash::new_from_array(blockhash.bytes);
    solana_sdk::message::Message::new_with_blockhash(&[given], Some(&payer), &blockhash).serialize()
}

/// The mathematical content of a `TransactionEnvelope`.
pub struct TransactionEnvelopeView {
    pub instructions: Seq<InstructionView>,
    pub fee_payer: Seq<u8>,
    pub recent_blockhash: Seq<u8>,
    pub message: Seq<u8>,
    pub signatures: Seq<Seq<u8>>,
}

impl TransactionEnvelopeView {
    /// Whether the transaction needs the signature of `address`: the fee
    /// payer signs, and so does every account that an instruction marks as a
    /// signer.
    pub open spec fn requires_signature_of(self, address: Seq<u8>) -> bool {
        ||| address == self.fee_payer
        ||| exists|i: int, j: int|
            0 <= i < self.instructions.len() && 0 <= j < self.instructions[i].accounts.len()
                && (#[trigger] self.instructions[i].accounts[j]).is_signer
                && self.instructions[i].accounts[j].address == address
    }

    /// The accounts whose signatures the transaction needs.
    pub open spec fn required_signers(self) -> Set<Seq<u8>> {
        Set::new(|address: Seq<u8>| self.requires_signature_of(address))
    }
}

/// Whether `signer` is the only account that the instruction marks as a
/// signer.
pub open spec fn signed_only_by(instruction: InstructionView, signer: Seq<u8>) -> bool {
    forall|j: int|
        0 <= j < instruction.accounts.len() && (#[trigger] instruction.accounts[j]).is_signer
            ==> instruction.accounts[j].address == signer
}

/// The envelope made of one instruction, its fee payer, the block reference,
/// the serialized message and the fee payer's signature of it. There is
/// none when the instruction asks for a signer besides the fee payer: one
/// signature would not be enough.
pub open spec fn assembled(
    instruction: InstructionView,
    payer: Seq<u8>,
    blockhash: Seq<u8>,
    message: Seq<u8>,
    signature: Seq<u8>,
) -> Option<TransactionEnvelopeView> {
    if signed_only_by(instruction, payer) {
        Some(
            TransactionEnvelopeView {
                instructions: seq![instruction],
                fee_payer: payer,
                recent_blockhash: blockhash,
                message,
                signatures: seq![signature],
            },
        )
    } else {
        None
    }
}

/// The envelope of the transfer that `request` asks for, paid and signed by
/// the key stored as `key`, bound to `blockhash`.
pub open spec fn signed_transfer(
    key: Seq<u8>,
    request: TransferRequestView,
    blockhash: Seq<u8>,
) -> TransactionEnvelopeView {
    let payer = key.subrange(32, 64);
    let instruction = transfer_instruction(payer, request.recipient, request.lamports);
    let message = message_bytes(instruction, payer, blockhash);
    TransactionEnvelopeView {
        instructions: seq![instruction],
        fee_payer: payer,
        recent_blockhash: blockhash,
        message,
        signatures: seq![ed25519_signature(key, message)],
    }
}

/// An assembled envelope needs the signature of its fee payer and of nobody
/// else, and carries exactly that one.
pub proof fn lemma_assembled_has_one_signer(
    instruction: InstructionView,
    payer: Seq<u8>,
    blockhash: Seq<u8>,
    message: Seq<u8>,
    signature: Seq<u8>,
)
    requires
        signed_only_by(instruction, payer),
    ensures
        ({
            let envelope = assembled(instruction, payer, blockhash, message, signature).unwrap();
            &&& envelope.required_signers() == set![payer]
            &&& envelope.required_signers().finite()
            &&& envelope.required_signers().len() == REQUIRED_SIGNERS
            &&& envelope.signatures.len() == REQUIRED_SIGNERS
        }),
{
    let envelope = assembled(instruction, payer, blockhash, message, signature).unwrap();
    assert forall|address: Seq<u8>| envelope.requires_signature_of(address) implies address
        == payer by {
        if address != payer {
            let (i, j) = choose|i: int, j: int|
                0 <= i < envelope.instructions.len() && 0 <= j
                    < envelope.instructions[i].accounts.len()
                    && (#[trigger] envelope.instructions[i].accounts[j]).is_signer
                    && envelope.instructions[i].accounts[j].address == address;
            assert(envelope.instructions[i] == instruction);
        }
    }
    assert(envelope.required_signers() =~= set![payer]);
}

/// The only account that signs a transfer is the sender: the signed transfer
/// is an assembled envelope, with one signature for its one signer.
pub proof fn lemma_transfer_has_one_signer(
    key: Seq<u8>,
    request: TransferRequestView,
    blockhash: Seq<u8>,
)
    ensures
        ({
            let envelope = signed_transfer(key, request, blockhash);
            &&& signed_only_by(envelope.instructions[0], envelope.fee_payer)
            &&& assembled(
                envelope.instructions[0],
                envelope.fee_payer,
                blockhash,
                envelope.message,
                envelope.signatures[0],
            ) == Some(envelope)
            &&& envelope.required_signers() == set![envelope.fee_payer]
            &&& envelope.required_signers().len() == REQUIRED_SIGNERS
            &&& envelope.signatures.len() == REQUIRED_SIGNERS
        }),
{
    let envelope = signed_transfer(key, request, blockhash);
    lemma_assembled_has_one_signer(
        envelope.instructions[0],
        envelope.fee_payer,
        blockhash,
        envelope.message,
        envelope.signatures[0],
    );
}

/// A signed transaction, ready to be submitted: the instructions, who pays,
/// the block reference it is bound to, the serialized message that was
/// signed, and one signature for each signer the transaction needs.
#[derive(Debug)]
pub struct TransactionEnvelope {
    instructions: Vec<Instruction>,
    fee_payer: Address,
    recent_blockhash: Blockhash,
    message: Vec<u8>,
    signatures: Vec<TransactionSignature>,
}

impl View for TransactionEnvelope {
    type V = TransactionEnvelopeView;

    closed spec fn view(&self) -> TransactionEnvelopeView {
        TransactionEnvelopeView {
            instructions: self.instructions@.map_values(|i: Instruction| i@),
            fee_payer: self.fee_payer@,
            recent_blockhash: self.recent_blockhash@,
            message: self.message@,
            signatures: self.signatures@.map_values(|s: TransactionSignature| s@),
        }
    }
}

impl TransactionEnvelope {
    #[verifier::type_invariant]
    spec fn well_formed(self) -> bool {
        &&& self@.required_signers().finite()
        &&& self@.signatures.len() == self@.required_signers().len()
        &&& self@.signatures.len() == REQUIRED_SIGNERS
        &&& self@.instructions.len() == 1
    }

    /// Puts an envelope together from one instruction, the account that pays
    /// for it, the block reference, the serialized message and the fee
    /// payer's signature of that message. `None` when the instruction marks
    /// another account as a signer: the envelope would lack a signature.
    pub fn assemble(
        instruction: Instruction,
        fee_payer: Address,
        recent_blockhash: Blockhash,
        message: Vec<u8>,
        signature: TransactionSignature,
    ) -> (r: Option<TransactionEnvelope>)
        ensures
            match r {
                Some(envelope) => assembled(
                    instruction@,
                    fee_payer@,
                    recent_blockhash@,
                    message@,
                    signature@,
                ) == Some(envelope@),
                None => !signed_only_by(instruction@, fee_payer@),
            },
            r matches Some(envelope) ==> envelope@.signatures.len()
                == envelope@.required_signers().len(),
    {
        if !instruction.is_signed_only_by(&fee_payer) {
            return None;
        }
        let ghost expected = assembled(
            instruction@,
            fee_payer@,
            recent_blockhash@,
            message@,
            signature@,
        ).unwrap();
        let mut instructions: Vec<Instruction> = Vec::new();
        instructions.push(instruction);
        let mut signatures: Vec<TransactionSignature> = Vec::new();
        signatures.push(signature);
        proof {
            lemma_assembled_has_one_signer(
                instruction@,
                fee_payer@,
                recent_blockhash@,
                message@,
                signature@,
            );
            assert(instructions@.map_values(|i: Instruction| i@) =~= expected.instructions);
            assert(signatures@.map_values(|s: TransactionSignature| s@) =~= expected.signatures);
        }
        Some(TransactionEnvelope { instructions, fee_payer, recent_blockhash, message, signatures })
    }

    /// The instructions, in order.
    pub fn instructions(&self) -> (instructions: &Vec<Instruction>)
        ensures
            instructions@.map_values(|i: Instruction| i@) == self@.instructions,
            instructions.len() == 1,
    {
        proof {
            use_type_invariant(self);
        }
        &self.instructions
    }

    /// The account that pays the fee.
    pub fn fee_payer(&self) -> (payer: Address)
        ensures
            payer@ == self@.fee_payer,
    {
        self.fee_payer
    }

    /// The block reference that the transaction is bound to.
    pub fn recent_blockhash(&self) -> (blockhash: Blockhash)
        ensures
            blockhash@ == self@.recent_blockhash,
    {
        self.recent_blockhash
    }

    /// The serialized message: what the signatures sign.
    pub fn message(&self) -> (message: &Vec<u8>)
        ensures
            message@ == self@.message,
    {
        &self.message
    }

    /// The signatures, one for each required signer, the fee payer's first.
    pub fn signatures(&self) -> (signatures: &Vec<TransactionSignature>)
        ensures
            signatures@.map_values(|s: TransactionSignature| s@) == self@.signatures,
            signatures.len() == self@.required_signers().len(),
            signatures.len() == REQUIRED_SIGNERS,
    {
        proof {
            use_type_invariant(self);
        }
        &self.signatures
    }

    /// The signature of the fee payer, under which the network knows the
    /// transaction.
    pub fn signature(&self) -> (signature: TransactionSignature)
        ensures
            self@.signatures.len() == REQUIRED_SIGNERS,
            signature@ == self@.signatures[0],
    {
        proof {
            use_type_invariant(self);
        }
        self.signatures[0]
    }
}

/// Builds the transfer that `request` asks for and signs it with `sender`,
/// who pays the fee. `recent_blockhash` must come fresh from the node.
pub fn build_and_sign(
    sender: &KeyMaterial,
    request: &TransferRequest,
    recent_blockhash: Blockhash,
) -> (envelope: TransactionEnvelope)
    ensures
        envelope@ == signed_transfer(sender@, request@, recent_blockhash@),
        envelope@.signatures.len() == envelope@.required_signers().len(),
        envelope@.signatures.len() == REQUIRED_SIGNERS,
{
    let payer = sender.address();
    let recipient = request.recipient();
    let instruction = system_transfer(&payer, &recipient, request.lamports());
    proof {
        lemma_auto_spec_u64_to_from_le_bytes();
        lemma_transfer_has_one_signer(sender@, request@, recent_blockhash@);
    }
    let message = compile_message(&instruction, &payer, &recent_blockhash);
    let signature = sender.sign(message.as_slice());
    match TransactionEnvelope::assemble(instruction, payer, recent_blockhash, message, signature) {
        Some(envelope) => envelope,
        None => vstd::pervasive::unreached(),
    }
}

} // verus!
