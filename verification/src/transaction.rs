//! The values that a transaction execution passes along: what it starts from,
//! what the kernel is run on, and what comes out.

use miden_objects::assembly::ModuleAst;
use miden_objects::transaction::TransactionScript;
use miden_objects::vm::{AdviceInputs, Program};
use vstd::prelude::*;

use crate::account_delta::AccountDelta;
use crate::kernel::{input_stack, TransactionKernel, INPUT_STACK_LEN};
use crate::word::Word;

verus! {

/// A compiled program, carried as it comes.
#[verifier::external_type_specification]
#[verifier::external_body]
pub struct ExProgram(Program);

/// A transaction script, carried as it comes.
#[verifier::external_type_specification]
#[verifier::external_body]
pub struct ExTransactionScript(TransactionScript);

/// The advice that a run consulted, carried as it comes.
#[verifier::external_type_specification]
#[verifier::external_body]
pub struct ExAdviceInputs(AdviceInputs);

/// The source of an account's code, carried as it comes.
#[verifier::external_type_specification]
#[verifier::external_body]
pub struct ExModuleAst(ModuleAst);

/// The state of an account before a transaction, as far as the execution
/// reads it.
#[derive(Clone, Debug, PartialEq, Eq)]
pub struct Account {
    pub id: u64,
    pub nonce: u64,
    /// The root of the account's storage tree.
    pub storage_root: Word,
    /// The roots of the procedures that the account exposes, by index.
    pub procedures: Vec<Word>,
}

/// The summary of an account's state which the kernel leaves behind.
#[derive(Clone, Copy, Debug, PartialEq, Eq)]
pub struct AccountStub {
    pub id: u64,
    pub nonce: u64,
    pub vault_root: Word,
    pub storage_root: Word,
    pub code_root: Word,
}

/// What a transaction is executed on: the account, the reference block and
/// the notes that it consumes.
#[derive(Clone, Debug, PartialEq, Eq)]
pub struct TransactionInputs {
    pub account: Account,
    /// The hash of the account's state; nothing for an account that the
    /// transaction creates.
    pub initial_account_hash: Option<Word>,
    /// The hash of the reference block.
    pub block_hash: Word,
    /// The commitment to the input notes.
    pub input_notes_commitment: Word,
}

impl TransactionInputs {
    /// The kernel's input stack for these inputs.
    pub open spec fn stack_inputs(&self) -> Seq<u64> {
        input_stack(
            self.account.id,
            self.initial_account_hash,
            self.input_notes_commitment,
            self.block_hash,
        )
    }

    /// Returns the kernel's input stack for these inputs.
    pub fn get_kernel_inputs(&self) -> (stack: Vec<u64>)
        ensures
            stack@ == self.stack_inputs(),
            stack@.len() == INPUT_STACK_LEN,
    {
        TransactionKernel::build_input_stack(
            self.account.id,
            self.initial_account_hash,
            self.input_notes_commitment,
            self.block_hash,
        )
    }
}

/// What a run of the kernel claims: the account's final state and the notes
/// that the transaction created.
#[derive(Clone, Copy, Debug, PartialEq, Eq)]
pub struct TransactionOutputs {
    pub account: AccountStub,
    /// The commitment to the output notes.
    pub output_notes_commitment: Word,
}

/// A transaction that is ready to run: its program, its script if it has one,
/// and its inputs.
pub struct PreparedTransaction {
    program: Program,
    tx_script: Option<TransactionScript>,
    tx_inputs: TransactionInputs,
}

impl PreparedTransaction {
    /// The program to run.
    pub closed spec fn spec_program(&self) -> Program {
        self.program
    }

    /// The transaction script, if the transaction has one.
    pub closed spec fn spec_tx_script(&self) -> Option<TransactionScript> {
        self.tx_script
    }

    /// The inputs of the transaction.
    pub closed spec fn spec_tx_inputs(&self) -> TransactionInputs {
        self.tx_inputs
    }

    /// Puts a prepared transaction together.
    pub fn new(
        program: Program,
        tx_script: Option<TransactionScript>,
        tx_inputs: TransactionInputs,
    ) -> (transaction: PreparedTransaction)
        ensures
            transaction.spec_program() == program,
            transaction.spec_tx_script() == tx_script,
            transaction.spec_tx_inputs() == tx_inputs,
    {
        PreparedTransaction { program, tx_script, tx_inputs }
    }

    /// Returns the program to run.
    pub fn program(&self) -> (program: &Program)
        ensures
            *program == self.spec_program(),
    {
        &self.program
    }

    /// Returns the account that the transaction runs against.
    pub fn account(&self) -> (account: &Account)
        ensures
            *account == self.spec_tx_inputs().account,
    {
        &self.tx_inputs.account
    }

    /// Returns the inputs of the transaction.
    pub fn tx_inputs(&self) -> (tx_inputs: &TransactionInputs)
        ensures
            *tx_inputs == self.spec_tx_inputs(),
    {
        &self.tx_inputs
    }

    /// Returns the kernel's input stack for this transaction.
    pub fn get_kernel_inputs(&self) -> (stack: Vec<u64>)
        ensures
            stack@ == self.spec_tx_inputs().stack_inputs(),
    {
        self.tx_inputs.get_kernel_inputs()
    }

    /// Takes the transaction apart.
    pub fn into_parts(self) -> (parts: (Program, Option<TransactionScript>, TransactionInputs))
        ensures
            parts.0 == self.spec_program(),
            parts.1 == self.spec_tx_script(),
            parts.2 == self.spec_tx_inputs(),
    {
        (self.program, self.tx_script, self.tx_inputs)
    }
}

/// The result of executing a transaction: what a prover needs to prove it.
pub struct ExecutedTransaction {
    program: Program,
    tx_inputs: TransactionInputs,
    tx_outputs: TransactionOutputs,
    account_delta: AccountDelta,
    tx_script: Option<TransactionScript>,
    advice_witness: AdviceInputs,
}

impl ExecutedTransaction {
    /// The program that was run.
    pub closed spec fn spec_program(&self) -> Program {
        self.program
    }

    /// The inputs of the transaction.
    pub closed spec fn spec_tx_inputs(&self) -> TransactionInputs {
        self.tx_inputs
    }

    /// The outputs of the transaction.
    pub closed spec fn spec_tx_outputs(&self) -> TransactionOutputs {
        self.tx_outputs
    }

    /// What the transaction changed in the account.
    pub closed spec fn spec_account_delta(&self) -> AccountDelta {
        self.account_delta
    }

    /// The transaction script, if the transaction has one.
    pub closed spec fn spec_tx_script(&self) -> Option<TransactionScript> {
        self.tx_script
    }

    /// The advice that the run consulted.
    pub closed spec fn spec_advice_witness(&self) -> AdviceInputs {
        self.advice_witness
    }

    /// Puts an executed transaction together.
    pub fn new(
        program: Program,
        tx_inputs: TransactionInputs,
        tx_outputs: TransactionOutputs,
        account_delta: AccountDelta,
        tx_script: Option<TransactionScript>,
        advice_witness: AdviceInputs,
    ) -> (transaction: ExecutedTransaction)
        ensures
            transaction.spec_program() == program,
            transaction.spec_tx_inputs() == tx_inputs,
            transaction.spec_tx_outputs() == tx_outputs,
            transaction.spec_account_delta() == account_delta,
            transaction.spec_tx_script() == tx_script,
            transaction.spec_advice_witness() == advice_witness,
    {
        ExecutedTransaction {
            program,
            tx_inputs,
            tx_outputs,
            account_delta,
            tx_script,
            advice_witness,
        }
    }

    /// Returns the program that was run.
    pub fn program(&self) -> (program: &Program)
        ensures
            *program == self.spec_program(),
    {
        &self.program
    }

    /// Returns the inputs of the transaction.
    pub fn tx_inputs(&self) -> (tx_inputs: &TransactionInputs)
        ensures
            *tx_inputs == self.spec_tx_inputs(),
    {
        &self.tx_inputs
    }

    /// Returns the state of the account before the transaction.
    pub fn initial_account(&self) -> (account: &Account)
        ensures
            *account == self.spec_tx_inputs().account,
    {
        &self.tx_inputs.account
    }

    /// Returns the summary of the account's state after the transaction.
    pub fn final_account(&self) -> (account: &AccountStub)
        ensures
            *account == self.spec_tx_outputs().account,
    {
        &self.tx_outputs.account
    }

    /// Returns the outputs of the transaction.
    pub fn tx_outputs(&self) -> (tx_outputs: &TransactionOutputs)
        ensures
            *tx_outputs == self.spec_tx_outputs(),
    {
        &self.tx_outputs
    }

    /// Returns what the transaction changed in the account.
    pub fn account_delta(&self) -> (account_delta: &AccountDelta)
        ensures
            *account_delta == self.spec_account_delta(),
    {
        &self.account_delta
    }

    /// Returns the transaction script, if the transaction has one.
    pub fn tx_script(&self) -> (tx_script: &Option<TransactionScript>)
        ensures
            *tx_script == self.spec_tx_script(),
    {
        &self.tx_script
    }

    /// Returns the advice that the run consulted.
    pub fn advice_witness(&self) -> (advice_witness: &AdviceInputs)
        ensures
            *advice_witness == self.spec_advice_witness(),
    {
        &self.advice_witness
    }
}

} // verus!
