//! Verification of proven transactions.
//!
//! A proven transaction claims a state transition of an account and carries a
//! proof that the transaction kernel produced it. The verifier rebuilds the
//! kernel's public inputs and outputs from the claim, has the proof checked
//! against them, and then holds the proof to a minimum security level.
//!
//! The proof system itself is asked outside this library. It takes much of a
//! proof's shape for granted, down to the number of query positions that it
//! draws from the proof's own transcript, and fails its assertions on a proof
//! that is made up otherwise: nothing that can be tested beforehand keeps it
//! from that. So the verifier says what is to be put to the proof system, and
//! what its answer means.

use miden_verifier::{ExecutionProof, ProgramInfo, VerificationError};
use vstd::prelude::*;

use crate::kernel::{input_stack, output_stack, TransactionKernel};
use crate::word::Word;

verus! {

/// The identity of a program for the proof system, carried as it comes.
#[verifier::external_type_specification]
#[verifier::external_body]
pub struct ExProgramInfo(ProgramInfo);

/// A proof of a program's execution, carried as it comes.
#[verifier::external_type_specification]
#[verifier::external_body]
pub struct ExExecutionProof(ExecutionProof);

/// The proof system's reason for rejecting a proof, carried as it comes.
#[verifier::external_type_specification]
#[verifier::external_body]
pub struct ExVerificationError(VerificationError);

/// Why a proven transaction was not accepted.
#[derive(Debug)]
pub enum TransactionVerifierError {
    /// The proof system rejected the proof.
    TransactionVerificationFailed(VerificationError),
    /// The proof is sound, but its security level, given first, is below the
    /// level that the verifier asks for, given second.
    InsufficientProofSecurityLevel(u32, u32),
}

/// A transaction with the proof of its execution: what the verifier is shown.
pub struct ProvenTransaction {
    /// The account that the transaction was executed against.
    pub account_id: u64,
    /// The hash of the account before the transaction.
    pub initial_account_hash: Word,
    /// The hash of the account after the transaction.
    pub final_account_hash: Word,
    /// The commitment to the notes that the transaction consumed.
    pub input_notes_commitment: Word,
    /// The commitment to the notes that the transaction created.
    pub output_notes_commitment: Word,
    /// The root of the transaction script, if one was used.
    pub tx_script_root: Option<Word>,
    /// The hash of the last block known when the transaction was executed.
    pub block_ref: Word,
    /// The proof that the kernel was run on this transaction.
    pub proof: ExecutionProof,
}

impl ProvenTransaction {
    /// The kernel's input stack for this transaction.
    pub open spec fn stack_inputs(&self) -> Seq<u64> {
        input_stack(
            self.account_id,
            Some(self.initial_account_hash),
            self.input_notes_commitment,
            self.block_ref,
        )
    }

    /// The kernel's output stack for this transaction.
    pub open spec fn stack_outputs(&self) -> Seq<u64> {
        output_stack(self.final_account_hash, self.output_notes_commitment, self.tx_script_root)
    }
}

/// Where a verification stands, and what happened.
pub enum VerificationStep {
    /// The transaction is to be verified: nothing has been done yet.
    Begin(ProvenTransaction),
    /// The proof system has answered: the security level of the proof that it
    /// accepted, or its reason for rejecting the proof.
    Checked(Result<u32, VerificationError>),
}

/// What is to be done next in a verification.
pub enum VerificationAction<'a> {
    /// The proof is to be put to the proof system, for this kernel program
    /// and these public inputs and outputs.
    Check {
        program_info: &'a ProgramInfo,
        stack_inputs: Vec<u64>,
        stack_outputs: Vec<u64>,
        proof: ExecutionProof,
    },
    /// The verification is over.
    Done(Result<(), TransactionVerifierError>),
}

/// What the proof system's answer means for a verifier that asks for the
/// security level `required`: a rejection is a failed verification, an
/// accepted proof below the level is insufficient, with both levels, and any
/// other accepted proof passes.
pub open spec fn checked(outcome: Result<u32, VerificationError>, required: u32) -> Result<
    (),
    TransactionVerifierError,
> {
    match outcome {
        Ok(level) => if level < required {
            Err(TransactionVerifierError::InsufficientProofSecurityLevel(level, required))
        } else {
            Ok(())
        },
        Err(reason) => Err(TransactionVerifierError::TransactionVerificationFailed(reason)),
    }
}

/// Verifies proven transactions against the transaction kernel.
pub struct TransactionVerifier {
    tx_program_info: ProgramInfo,
    proof_security_level: u32,
}

impl TransactionVerifier {
    /// The identity of the kernel program that proofs are checked against.
    pub closed spec fn program_info(&self) -> ProgramInfo {
        self.tx_program_info
    }

    /// The least security level that this verifier accepts.
    pub closed spec fn security_level(&self) -> u32 {
        self.proof_security_level
    }

    /// Returns a verifier for the kernel program with the given identity,
    /// which asks proofs for the given security level at least.
    pub fn new(tx_program_info: ProgramInfo, proof_security_level: u32) -> (verifier:
        TransactionVerifier)
        ensures
            verifier.program_info() == tx_program_info,
            verifier.security_level() == proof_security_level,
    {
        TransactionVerifier { tx_program_info, proof_security_level }
    }

    /// Returns the identity of the kernel program that proofs are to be
    /// checked against.
    pub fn tx_program_info(&self) -> (info: &ProgramInfo)
        ensures
            *info == self.program_info(),
    {
        &self.tx_program_info
    }

    /// Returns the least security level that this verifier accepts.
    pub fn proof_security_level(&self) -> (level: u32)
        ensures
            level == self.security_level(),
    {
        self.proof_security_level
    }

    /// Holds the proof system's answer to the required security level.
    ///
    /// A rejection is passed on. An accepted proof passes if its level is at
    /// least `required`, and fails with both levels if it is below.
    pub fn check_security_level(outcome: Result<u32, VerificationError>, required: u32) -> (result:
        Result<(), TransactionVerifierError>)
        ensures
            result == checked(outcome, required),
    {
        match outcome {
            Ok(level) => {
                if level < required {
                    Err(TransactionVerifierError::InsufficientProofSecurityLevel(level, required))
                } else {
                    Ok(())
                }
            },
            Err(reason) => Err(TransactionVerifierError::TransactionVerificationFailed(reason)),
        }
    }

    /// Takes the verification of a proven transaction one step further.
    ///
    /// A verification begins by rebuilding the kernel's input stack and output
    /// stack from the transaction, and asks for the proof to be put to the
    /// proof system for them and for the verifier's kernel program. With the
    /// proof system's answer it ends: the transaction is accepted exactly when
    /// the proof was accepted and its security level is not below the
    /// verifier's.
    pub fn verify<'a>(&'a self, step: VerificationStep) -> (action: VerificationAction<'a>)
        ensures
            match step {
                VerificationStep::Begin(transaction) => {
                    &&& action matches VerificationAction::Check {
                        program_info,
                        stack_inputs,
                        stack_outputs,
                        proof,
                    }
                    &&& *program_info == self.program_info()
                    &&& stack_inputs@ == transaction.stack_inputs()
                    &&& stack_outputs@ == transaction.stack_outputs()
                    &&& proof == transaction.proof
                },
                VerificationStep::Checked(outcome) => action == VerificationAction::Done(
                    checked(outcome, self.security_level()),
                ),
            },
    {
        match step {
            VerificationStep::Begin(transaction) => {
                let stack_inputs = TransactionKernel::build_input_stack(
                    transaction.account_id,
                    Some(transaction.initial_account_hash),
                    transaction.input_notes_commitment,
                    transaction.block_ref,
                );
                let stack_outputs = TransactionKernel::build_output_stack(
                    transaction.final_account_hash,
                    transaction.output_notes_commitment,
                    transaction.tx_script_root,
                );
                VerificationAction::Check {
                    program_info: &self.tx_program_info,
                    stack_inputs,
                    stack_outputs,
                    proof: transaction.proof,
                }
            },
            VerificationStep::Checked(outcome) => VerificationAction::Done(
                TransactionVerifier::check_security_level(outcome, self.proof_security_level),
            ),
        }
    }
}

/// A proof that the proof system accepted is accepted by the verifier exactly
/// when its security level is not below the required one; below, the failure
/// names both levels. A proof that the proof system rejected is never
/// accepted.
pub proof fn lemma_checked(outcome: Result<u32, VerificationError>, required: u32)
    ensures
        checked(outcome, required) is Ok <==> (outcome matches Ok(level) && level >= required),
        outcome matches Ok(level) ==> (level < required ==> checked(outcome, required) == Err::<
            (),
            TransactionVerifierError,
        >(TransactionVerifierError::InsufficientProofSecurityLevel(level, required))),
        outcome is Err ==> checked(outcome, required) matches Err(
            TransactionVerifierError::TransactionVerificationFailed(_),
        ),
{
}

} // verus!
