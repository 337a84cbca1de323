//! The errors of transaction execution, one closed set of kinds per
//! component.

use vstd::prelude::*;

use crate::account_delta::AccountDeltaFailure;
use crate::word::Word;

verus! {

/// The virtual machine's reason for a failed run, carried as it comes.
#[verifier::external_type_specification]
#[verifier::external_body]
pub struct ExExecutionError(miden_processor::ExecutionError);

/// Why the data store could not serve a request.
#[derive(Clone, Debug, PartialEq, Eq)]
pub enum DataStoreError {
    AccountNotFound(u64),
    BlockNotFound(u32),
    NoteNotFound(Word),
    InternalError(String),
}

/// Why the compiler refused what it was given.
#[derive(Clone, Debug, PartialEq, Eq)]
pub enum TransactionCompilerError {
    AccountInterfaceNotFound(u64),
    BuildCodeBlockTableFailed(String),
    CompileNoteScriptFailed(String),
    CompileTxScriptFailed(String),
    LoadAccountFailed(String),
    NoteIncompatibleWithAccountInterface(Word),
    NoTransactionDriver,
    TxScriptIncompatibleWithAccountInterface(Word),
}

/// Why the outputs of a run do not make a transaction's outputs.
#[derive(Debug)]
pub enum TransactionOutputError {
    /// The storage trees of the account before and after the run could not be
    /// compared in the recorded Merkle store.
    ExtractAccountStorageSlotsDeltaFailed(miden_crypto::merkle::MerkleError),
    /// The data of the final account is not among the outputs.
    FinalAccountDataNotFound,
    /// The data of the final account does not describe an account.
    FinalAccountStubDataInvalid(String),
    /// The difference between the storage trees before and after the run does
    /// not account for the change from the one to the other.
    InconsistentAccountStorageDelta,
    /// The changes that the run claims contradict themselves.
    InvalidAccountDelta(AccountDeltaFailure),
    /// The data of an output note is not among the outputs.
    OutputNoteDataNotFound,
    /// The data of an output note does not describe a note.
    OutputNoteDataInvalid(String),
    /// The output notes do not hash to the commitment on the stack.
    OutputNotesCommitmentInconsistent(Word, Word),
    /// The run created more notes than a transaction may.
    TooManyOutputNotes { max: usize, actual: usize },
}

/// Why a transaction was not executed.
#[derive(Debug)]
pub enum TransactionExecutorError {
    CompileNoteScriptFailed(TransactionCompilerError),
    CompileTransactionScriptFailed(TransactionCompilerError),
    CompileTransactionFailed(TransactionCompilerError),
    ExecuteTransactionProgramFailed(miden_processor::ExecutionError),
    FetchAccountCodeFailed(DataStoreError),
    FetchTransactionInputsFailed(DataStoreError),
    InconsistentAccountId { input_id: u64, output_id: u64 },
    InvalidTransactionOutput(TransactionOutputError),
    LoadAccountFailed(TransactionCompilerError),
}

} // verus!
