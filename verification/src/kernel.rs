//! The public inputs and outputs of the transaction kernel.
//!
//! A run of the kernel starts from a stack that holds what is publicly known
//! of the transaction before it runs, and ends on a stack that holds what is
//! publicly known after. Prover and verifier must build both stacks alike,
//! element for element.

use vstd::prelude::*;

use crate::word::Word;

verus! {

/// The number of elements on the kernel's input stack.
pub const INPUT_STACK_LEN: usize = 13;

/// The number of elements on the kernel's output stack.
pub const OUTPUT_STACK_LEN: usize = 12;

/// The elements of a word, in order.
pub open spec fn word_elements(word: Word) -> Seq<u64> {
    seq![word[0], word[1], word[2], word[3]]
}

/// The hash to put on a stack where one may be missing: the empty word stands
/// for a missing one.
pub open spec fn or_empty(word: Option<Word>) -> Word {
    match word {
        Some(word) => word,
        None => [0u64, 0u64, 0u64, 0u64],
    }
}

/// The kernel's input stack: the account identifier, then the hash of the
/// account before the transaction, then the commitment to the input notes,
/// then the reference block's hash. A missing account hash, that of an account
/// which the transaction creates, is the empty word.
pub open spec fn input_stack(
    account_id: u64,
    initial_account_hash: Option<Word>,
    input_notes_commitment: Word,
    block_ref: Word,
) -> Seq<u64> {
    seq![account_id] + word_elements(or_empty(initial_account_hash)) + word_elements(
        input_notes_commitment,
    ) + word_elements(block_ref)
}

/// The kernel's output stack: the hash of the account after the transaction,
/// then the commitment to the output notes, then the root of the transaction
/// script, the empty word where the transaction has no script.
pub open spec fn output_stack(
    final_account_hash: Word,
    output_notes_commitment: Word,
    tx_script_root: Option<Word>,
) -> Seq<u64> {
    word_elements(final_account_hash) + word_elements(output_notes_commitment) + word_elements(
        or_empty(tx_script_root),
    )
}

/// The input stack loses nothing of what it is built from: two input stacks
/// are the same only where the account, its hash, the commitment to the input
/// notes and the reference block are the same. A missing account hash is the
/// same as an empty one.
pub proof fn lemma_input_stack_tells_its_parts(
    account_id: u64,
    initial_account_hash: Option<Word>,
    input_notes_commitment: Word,
    block_ref: Word,
    other_account_id: u64,
    other_initial_account_hash: Option<Word>,
    other_input_notes_commitment: Word,
    other_block_ref: Word,
)
    requires
        input_stack(account_id, initial_account_hash, input_notes_commitment, block_ref)
            == input_stack(
            other_account_id,
            other_initial_account_hash,
            other_input_notes_commitment,
            other_block_ref,
        ),
    ensures
        account_id == other_account_id,
        or_empty(initial_account_hash) == or_empty(other_initial_account_hash),
        input_notes_commitment == other_input_notes_commitment,
        block_ref == other_block_ref,
{
    let one = input_stack(account_id, initial_account_hash, input_notes_commitment, block_ref);
    let other = input_stack(
        other_account_id,
        other_initial_account_hash,
        other_input_notes_commitment,
        other_block_ref,
    );
    assert(one[0] == other[0]);
    assert forall|i: int| 0 <= i < 4 implies or_empty(initial_account_hash)[i] == or_empty(
        other_initial_account_hash,
    )[i] by {
        assert(one[1 + i] == other[1 + i]);
    }
    assert forall|i: int| 0 <= i < 4 implies input_notes_commitment[i]
        == other_input_notes_commitment[i] by {
        assert(one[5 + i] == other[5 + i]);
    }
    assert forall|i: int| 0 <= i < 4 implies block_ref[i] == other_block_ref[i] by {
        assert(one[9 + i] == other[9 + i]);
    }
    assert(or_empty(initial_account_hash) =~= or_empty(other_initial_account_hash));
    assert(input_notes_commitment =~= other_input_notes_commitment);
    assert(block_ref =~= other_block_ref);
}

/// The output stack loses nothing of what it is built from: two output stacks
/// are the same only where the final account hash, the commitment to the
/// output notes and the script root are the same. A missing script root is the
/// same as an empty one.
pub proof fn lemma_output_stack_tells_its_parts(
    final_account_hash: Word,
    output_notes_commitment: Word,
    tx_script_root: Option<Word>,
    other_final_account_hash: Word,
    other_output_notes_commitment: Word,
    other_tx_script_root: Option<Word>,
)
    requires
        output_stack(final_account_hash, output_notes_commitment, tx_script_root) == output_stack(
            other_final_account_hash,
            other_output_notes_commitment,
            other_tx_script_root,
        ),
    ensures
        final_account_hash == other_final_account_hash,
        output_notes_commitment == other_output_notes_commitment,
        or_empty(tx_script_root) == or_empty(other_tx_script_root),
{
    let one = output_stack(final_account_hash, output_notes_commitment, tx_script_root);
    let other = output_stack(
        other_final_account_hash,
        other_output_notes_commitment,
        other_tx_script_root,
    );
    assert forall|i: int| 0 <= i < 4 implies final_account_hash[i]
        == other_final_account_hash[i] by {
        assert(one[i] == other[i]);
    }
    assert forall|i: int| 0 <= i < 4 implies output_notes_commitment[i]
        == other_output_notes_commitment[i] by {
        assert(one[4 + i] == other[4 + i]);
    }
    assert forall|i: int| 0 <= i < 4 implies or_empty(tx_script_root)[i] == or_empty(
        other_tx_script_root,
    )[i] by {
        assert(one[8 + i] == other[8 + i]);
    }
    assert(final_account_hash =~= other_final_account_hash);
    assert(output_notes_commitment =~= other_output_notes_commitment);
    assert(or_empty(tx_script_root) =~= or_empty(other_tx_script_root));
}

/// Appends the elements of a word to a stack.
fn push_word(stack: &mut Vec<u64>, word: &Word)
    ensures
        final(stack)@ == old(stack)@ + word_elements(*word),
{
    stack.push(word[0]);
    stack.push(word[1]);
    stack.push(word[2]);
    stack.push(word[3]);
    assert(stack@ =~= old(stack)@ + word_elements(*word));
}

/// The transaction kernel, as far as its public interface goes.
pub struct TransactionKernel;

impl TransactionKernel {
    /// Returns the input stack of the kernel for a transaction.
    pub fn build_input_stack(
        account_id: u64,
        initial_account_hash: Option<Word>,
        input_notes_commitment: Word,
        block_ref: Word,
    ) -> (stack: Vec<u64>)
        ensures
            stack@ == input_stack(
                account_id,
                initial_account_hash,
                input_notes_commitment,
                block_ref,
            ),
            stack@.len() == INPUT_STACK_LEN,
    {
        let initial: Word = match initial_account_hash {
            Some(hash) => hash,
            None => [0, 0, 0, 0],
        };
        let mut stack: Vec<u64> = Vec::new();
        stack.push(account_id);
        assert(stack@ =~= seq![account_id]);
        push_word(&mut stack, &initial);
        push_word(&mut stack, &input_notes_commitment);
        push_word(&mut stack, &block_ref);
        stack
    }

    /// Returns the output stack of the kernel for a transaction.
    pub fn build_output_stack(
        final_account_hash: Word,
        output_notes_commitment: Word,
        tx_script_root: Option<Word>,
    ) -> (stack: Vec<u64>)
        ensures
            stack@ == output_stack(final_account_hash, output_notes_commitment, tx_script_root),
            stack@.len() == OUTPUT_STACK_LEN,
    {
        let script_root: Word = match tx_script_root {
            Some(root) => root,
            None => [0, 0, 0, 0],
        };
        let mut stack: Vec<u64> = Vec::new();
        push_word(&mut stack, &final_account_hash);
        assert(stack@ =~= word_elements(final_account_hash));
        push_word(&mut stack, &output_notes_commitment);
        push_word(&mut stack, &script_root);
        stack
    }
}

} // verus!
