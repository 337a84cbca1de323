//! The transaction executor.
//!
//! Executing a transaction takes the following steps: the data it needs is
//! fetched from the data store, the transaction is compiled into a program,
//! the program is run against a host, and what the run leaves behind is
//! reduced to an executed transaction. Compiling and running are the work of
//! others; the executor decides what is done next and what each outcome
//! means.

use miden_objects::accounts::AccountCode;
use miden_objects::assembly::ModuleAst;
use miden_objects::notes::NoteScript;
use miden_objects::transaction::TransactionScript;
use miden_objects::vm::{AdviceInputs, Program};
use std::collections::HashMap;
use vstd::prelude::*;

use crate::account_delta::{
    all_distinct, assets_valid, is_first_invalid, lemma_applied_slot, nonce_delta,
    parts_accepted, spec_nonce_delta, updated_slots, with_cleared, with_updated, AccountDelta,
    AccountDeltaFailure, AccountStorageDelta, STORAGE_SLOTS,
};
use crate::errors::{
    DataStoreError, TransactionCompilerError, TransactionExecutorError, TransactionOutputError,
};
use crate::host::TransactionHost;
use crate::merkle::{
    collected_nodes, store_from_nodes, store_tree_delta, store_tree_leaves, tree_delta,
    tree_leaves, tree_recorded, InnerNode,
};
use crate::transaction::{
    ExecutedTransaction, PreparedTransaction, TransactionInputs, TransactionOutputs,
};
use crate::vault_delta::{credits, debits, NetAmounts};
use crate::word::{canonical_word, same_elements, spec_empty_word, words_equal, Word};

verus! {

broadcast use vstd::std_specs::hash::group_hash_axioms;

/// The compiled code of an account, carried as it comes.
#[verifier::external_type_specification]
#[verifier::external_body]
pub struct ExAccountCode(AccountCode);

/// A compiled note script, carried as it comes.
#[verifier::external_type_specification]
#[verifier::external_body]
pub struct ExNoteScript(NoteScript);

/// The roots of the procedures that an account's code exposes, by index.
pub uninterp spec fn code_procedures(code: AccountCode) -> Seq<Word>;

/// Calls `AccountCode::procedures` and hands the roots out as words.
#[verifier::external_body]
fn account_code_procedures(code: &AccountCode) -> (procedures: Vec<Word>)
    ensures
        procedures@ == code_procedures(*code),
{
    code.procedures().iter().map(|root| <[u64; 4]>::from(*root)).collect()
}

/// The depth of the tree that holds an account's storage slots.
pub const STORAGE_TREE_DEPTH: u8 = 8;

/// The number of leaves of the storage tree: one for each storage slot.
pub const STORAGE_TREE_LEAVES: u64 = 256;

/// The storage slot that a leaf index of the storage tree stands for: the
/// index cut to eight bits.
pub open spec fn slot_of(index: u64) -> u8 {
    (index % STORAGE_TREE_LEAVES) as u8
}

/// The slots of the cleared leaves, in order.
pub open spec fn cleared_slots(cleared: Seq<u64>) -> Seq<u8> {
    Seq::new(cleared.len(), |i: int| slot_of(cleared[i]))
}

/// The slots of the updated leaves with their new values, in order.
pub open spec fn updated_items(updated: Seq<(u64, Word)>) -> Seq<(u8, Word)> {
    Seq::new(updated.len(), |i: int| (slot_of(updated[i].0), updated[i].1))
}

/// Turns the difference between two storage trees into a storage delta: each
/// leaf index becomes the slot that it stands for.
pub fn storage_delta_from_tree_delta(cleared: &Vec<u64>, updated: &Vec<(u64, Word)>) -> (delta:
    AccountStorageDelta)
    ensures
        delta.cleared_items@ == cleared_slots(cleared@),
        delta.updated_items@ == updated_items(updated@),
{
    let mut cleared_items: Vec<u8> = Vec::new();
    let mut i: usize = 0;
    while i < cleared.len()
        invariant
            i <= cleared@.len(),
            cleared_items@ == cleared_slots(cleared@.take(i as int)),
        decreases cleared@.len() - i,
    {
        cleared_items.push((cleared[i] % STORAGE_TREE_LEAVES) as u8);
        i = i + 1;
        assert(cleared_items@ =~= cleared_slots(cleared@.take(i as int)));
    }
    assert(cleared@.take(i as int) =~= cleared@);
    let mut items: Vec<(u8, Word)> = Vec::new();
    let mut j: usize = 0;
    while j < updated.len()
        invariant
            j <= updated@.len(),
            items@ == updated_items(updated@.take(j as int)),
        decreases updated@.len() - j,
    {
        items.push(((updated[j].0 % STORAGE_TREE_LEAVES) as u8, updated[j].1));
        j = j + 1;
        assert(items@ =~= updated_items(updated@.take(j as int)));
    }
    assert(updated@.take(j as int) =~= updated@);
    AccountStorageDelta { cleared_items, updated_items: items }
}

/// Both storage trees are recorded in `nodes`, and the comparison of the two
/// gives a difference.
pub open spec fn storage_trees_comparable(
    nodes: Map<Word, (Word, Word)>,
    initial_root: Word,
    final_root: Word,
) -> bool {
    &&& tree_recorded(nodes, canonical_word(initial_root), STORAGE_TREE_DEPTH)
    &&& tree_recorded(nodes, canonical_word(final_root), STORAGE_TREE_DEPTH)
    &&& tree_delta(nodes, initial_root, final_root, STORAGE_TREE_DEPTH) is Some
}

/// The values of the storage slots under a storage root, by slot.
pub open spec fn storage_values(nodes: Map<Word, (Word, Word)>, root: Word) -> Seq<Word> {
    tree_leaves(nodes, canonical_word(root), STORAGE_TREE_DEPTH)
}

/// The cleared slots and the updated slots with their values that the
/// comparison of two storage trees gives.
pub open spec fn compared_items(
    nodes: Map<Word, (Word, Word)>,
    initial_root: Word,
    final_root: Word,
) -> (Seq<u8>, Seq<(u8, Word)>) {
    let slots = tree_delta(nodes, initial_root, final_root, STORAGE_TREE_DEPTH).unwrap();
    (cleared_slots(slots.0), updated_items(slots.1))
}

/// A difference accounts for the change from the initial slot values to the
/// final ones when every cleared slot held a value and is empty now, every
/// updated slot took the value that is listed with it, which is another than
/// it held and not the empty word, and the initial values with the cleared
/// slots reset and the updated slots set are the final values.
pub open spec fn difference_accounts(
    initial: Seq<Word>,
    last: Seq<Word>,
    cleared: Seq<u8>,
    updated: Seq<(u8, Word)>,
) -> bool {
    &&& forall|i: int|
        0 <= i < cleared.len() ==> initial[(#[trigger] cleared[i]) as int] != spec_empty_word()
            && last[cleared[i] as int] == spec_empty_word()
    &&& forall|i: int|
        0 <= i < updated.len() ==> (#[trigger] updated[i]).1 == last[updated[i].0 as int]
            && updated[i].1 != initial[updated[i].0 as int] && updated[i].1 != spec_empty_word()
    &&& with_updated(with_cleared(initial, cleared), updated) == last
}

/// The comparison of the two storage trees gives a difference that accounts
/// for the change from the one to the other.
pub open spec fn comparison_accounts(
    nodes: Map<Word, (Word, Word)>,
    initial_root: Word,
    final_root: Word,
) -> bool {
    let items = compared_items(nodes, initial_root, final_root);
    difference_accounts(
        storage_values(nodes, initial_root),
        storage_values(nodes, final_root),
        items.0,
        items.1,
    )
}

/// The storage roots stand for one and the same root: nothing changed, and
/// nothing needs to be compared.
pub open spec fn same_storage_root(initial_root: Word, final_root: Word) -> bool {
    canonical_word(initial_root) == canonical_word(final_root)
}

/// What the extraction of a storage delta comes to.
///
/// One and the same root gives the empty delta, whatever is recorded. Else
/// storage trees that cannot be compared fail the extraction, and a
/// difference that does not account for the change is inconsistent. Any other
/// difference is the delta: its cleared and updated items are those that the
/// comparison gives, in their order.
pub open spec fn extracts(
    nodes: Map<Word, (Word, Word)>,
    initial_root: Word,
    final_root: Word,
    extracted: Result<AccountStorageDelta, TransactionOutputError>,
) -> bool {
    let items = compared_items(nodes, initial_root, final_root);
    if same_storage_root(initial_root, final_root) {
        extracted matches Ok(delta) && delta.spec_is_empty()
    } else if !storage_trees_comparable(nodes, initial_root, final_root) {
        extracted matches Err(TransactionOutputError::ExtractAccountStorageSlotsDeltaFailed(_))
    } else if !comparison_accounts(nodes, initial_root, final_root) {
        extracted matches Err(TransactionOutputError::InconsistentAccountStorageDelta)
    } else {
        extracted matches Ok(delta) && delta.cleared_items@ == items.0 && delta.updated_items@
            == items.1
    }
}

/// Tells whether two lists hold the same words.
fn same_words(a: &Vec<Word>, b: &Vec<Word>) -> (same: bool)
    ensures
        same == (a@ == b@),
{
    if a.len() != b.len() {
        return false;
    }
    let mut i: usize = 0;
    while i < a.len()
        invariant
            a@.len() == b@.len(),
            i <= a@.len(),
            forall|k: int| 0 <= k < i ==> a@[k] == b@[k],
        decreases a@.len() - i,
    {
        if !words_equal(&a[i], &b[i]) {
            return false;
        }
        i = i + 1;
    }
    assert(a@ =~= b@);
    true
}

/// Tells whether a storage delta accounts for the change from the initial
/// slot values to the final ones.
fn accounts_for(initial: &Vec<Word>, last: &Vec<Word>, delta: &AccountStorageDelta) -> (exact: bool)
    requires
        initial@.len() == STORAGE_SLOTS,
        last@.len() == STORAGE_SLOTS,
    ensures
        exact == difference_accounts(
            initial@,
            last@,
            delta.cleared_items@,
            delta.updated_items@,
        ),
{
    let empty = crate::word::empty_word();
    let mut i: usize = 0;
    while i < delta.cleared_items.len()
        invariant
            initial@.len() == STORAGE_SLOTS,
            last@.len() == STORAGE_SLOTS,
            empty == spec_empty_word(),
            i <= delta.cleared_items@.len(),
            forall|k: int|
                0 <= k < i ==> initial@[(#[trigger] delta.cleared_items@[k]) as int]
                    != spec_empty_word() && last@[delta.cleared_items@[k] as int]
                    == spec_empty_word(),
        decreases delta.cleared_items@.len() - i,
    {
        let slot = delta.cleared_items[i] as usize;
        if words_equal(&initial[slot], &empty) || !words_equal(&last[slot], &empty) {
            assert(delta.cleared_items@[i as int] as int == slot);
            return false;
        }
        i = i + 1;
    }
    let mut j: usize = 0;
    while j < delta.updated_items.len()
        invariant
            initial@.len() == STORAGE_SLOTS,
            last@.len() == STORAGE_SLOTS,
            empty == spec_empty_word(),
            j <= delta.updated_items@.len(),
            forall|k: int|
                0 <= k < j ==> (#[trigger] delta.updated_items@[k]).1
                    == last@[delta.updated_items@[k].0 as int] && delta.updated_items@[k].1
                    != initial@[delta.updated_items@[k].0 as int] && delta.updated_items@[k].1
                    != spec_empty_word(),
        decreases delta.updated_items@.len() - j,
    {
        let slot = delta.updated_items[j].0 as usize;
        let value = delta.updated_items[j].1;
        if !words_equal(&value, &last[slot]) || words_equal(&value, &initial[slot]) || words_equal(
            &value,
            &empty,
        ) {
            assert(delta.updated_items@[j as int].0 as int == slot);
            assert(delta.updated_items@[j as int].1 == value);
            return false;
        }
        j = j + 1;
    }
    let mut replayed = copy_words(initial);
    delta.apply(&mut replayed);
    same_words(&replayed, last)
}

/// The slots of a tree delta in order are the slots of a valid storage delta:
/// none is named twice.
proof fn lemma_ordered_slots_are_distinct(cleared: Seq<u64>, updated: Seq<(u64, Word)>)
    requires
        crate::merkle::delta_in_order(cleared, updated, STORAGE_TREE_DEPTH),
    ensures
        all_distinct(cleared_slots(cleared) + updated_slots(updated_items(updated))),
{
    assert(1u64 << 8u8 == 256) by (bit_vector);
    let slots = cleared_slots(cleared) + updated_slots(updated_items(updated));
    assert forall|i: int, j: int| 0 <= i < j < slots.len() implies slots[i] != slots[j] by {
        let n = cleared.len() as int;
        if j < n {
            assert(cleared[i] < cleared[j]);
            assert(slots[i] == slot_of(cleared[i]) && slots[j] == slot_of(cleared[j]));
        } else if i < n {
            assert(cleared[i] != updated[j - n].0);
            assert(slots[i] == slot_of(cleared[i]) && slots[j] == slot_of(updated[j - n].0));
        } else {
            assert(updated[i - n].0 < updated[j - n].0);
            assert(slots[i] == slot_of(updated[i - n].0) && slots[j] == slot_of(
                updated[j - n].0,
            ));
        }
    }
}

/// Which slots a difference names that accounts for the change: a slot is
/// cleared exactly when it held a value and is empty now; it is updated
/// exactly when its value changed to one that is not the empty word, and is
/// then listed with that value. A slot whose value did not change is named in
/// neither list.
pub proof fn lemma_accounted_slots(
    initial: Seq<Word>,
    last: Seq<Word>,
    delta: AccountStorageDelta,
    slot: int,
)
    requires
        delta.is_valid(),
        initial.len() == STORAGE_SLOTS,
        last.len() == STORAGE_SLOTS,
        difference_accounts(initial, last, delta.cleared_items@, delta.updated_items@),
        0 <= slot < STORAGE_SLOTS,
    ensures
        delta.cleared_items@.contains(slot as u8) <==> last[slot] == spec_empty_word()
            && initial[slot] != spec_empty_word(),
        (exists|place: int|
            0 <= place < delta.updated_items@.len() && (#[trigger] delta.updated_items@[place]).0
                == slot) <==> last[slot] != initial[slot] && last[slot] != spec_empty_word(),
        forall|place: int|
            0 <= place < delta.updated_items@.len() && (#[trigger] delta.updated_items@[place]).0
                == slot ==> delta.updated_items@[place].1 == last[slot],
{
    lemma_applied_slot(delta, initial, slot);
    if delta.cleared_items@.contains(slot as u8) {
        let place = choose|i: int|
            0 <= i < delta.cleared_items@.len() && delta.cleared_items@[i] == slot as u8;
        assert(delta.cleared_items@[place] as int == slot);
    }
    if exists|place: int|
        0 <= place < delta.updated_items@.len() && (#[trigger] delta.updated_items@[place]).0
            == slot {
        let place = choose|place: int|
            0 <= place < delta.updated_items@.len() && (#[trigger] delta.updated_items@[place]).0
                == slot;
        assert(delta.updated_items@[place].1 == last[slot]);
    }
}

/// Where one slot alone changed, to a value that is not the empty word, a
/// difference that accounts for the change is that one update: nothing is
/// cleared, and the slot is listed once, with its new value.
pub proof fn lemma_one_updated_slot(
    initial: Seq<Word>,
    last: Seq<Word>,
    delta: AccountStorageDelta,
    slot: u8,
)
    requires
        delta.is_valid(),
        initial.len() == STORAGE_SLOTS,
        last.len() == STORAGE_SLOTS,
        difference_accounts(initial, last, delta.cleared_items@, delta.updated_items@),
        last[slot as int] != initial[slot as int],
        last[slot as int] != spec_empty_word(),
        forall|other: int|
            0 <= other < STORAGE_SLOTS && other != slot ==> last[other] == initial[other],
    ensures
        delta.cleared_items@ == Seq::<u8>::empty(),
        delta.updated_items@ == seq![(slot, last[slot as int])],
{
    let cleared = delta.cleared_items@;
    let updated = delta.updated_items@;
    if cleared.len() > 0 {
        let named = cleared[0];
        assert(last[named as int] != initial[named as int]);
    }
    assert(cleared =~= Seq::<u8>::empty());
    lemma_accounted_slots(initial, last, delta, slot as int);
    let place = choose|place: int|
        0 <= place < updated.len() && (#[trigger] updated[place]).0 == slot;
    assert forall|i: int| 0 <= i < updated.len() implies (#[trigger] updated[i]).0 == slot by {
        assert(updated[i].1 == last[updated[i].0 as int]);
    }
    crate::account_delta::lemma_valid_is_disjoint(delta);
    if updated.len() > 1 {
        assert(updated_slots(updated)[0] != updated_slots(updated)[1]);
        assert(updated[0].0 == slot && updated[1].0 == slot);
    }
    assert(updated[0] == (slot, last[slot as int]));
    assert(updated =~= seq![(slot, last[slot as int])]);
}

/// Extracts the storage delta between an account's storage before and after a
/// run from the inner nodes of the Merkle store that the run recorded.
///
/// Storage roots that are one and the same give the empty delta, and nothing
/// is read. Else both storage trees must be recorded down to every slot, and
/// the delta is what the comparison of the two trees gives. It is handed out
/// only if it accounts for the change: it names the slots that held a value
/// and are empty now as cleared, and the slots that took another value, which
/// is not the empty word, as updated with that value; applied to the initial
/// slot values it gives the final ones.
pub fn extract_account_storage_delta(
    recorded_nodes: &Vec<InnerNode>,
    initial_root: &Word,
    final_root: &Word,
) -> (extracted: Result<AccountStorageDelta, TransactionOutputError>)
    ensures
        extracts(collected_nodes(recorded_nodes@), *initial_root, *final_root, extracted),
        extracted matches Ok(delta) ==> delta.is_valid(),
        extracted matches Ok(delta) ==> (!same_storage_root(*initial_root, *final_root)
            ==> difference_accounts(
            storage_values(collected_nodes(recorded_nodes@), *initial_root),
            storage_values(collected_nodes(recorded_nodes@), *final_root),
            delta.cleared_items@,
            delta.updated_items@,
        )),
        extracted matches Ok(delta) ==> delta.applied_to(
            storage_values(collected_nodes(recorded_nodes@), *initial_root),
        ) == storage_values(collected_nodes(recorded_nodes@), *final_root),
{
    if same_elements(initial_root, final_root) {
        let delta = AccountStorageDelta { cleared_items: Vec::new(), updated_items: Vec::new() };
        assert(delta.slots() =~= Seq::<u8>::empty());
        return Ok(delta);
    }
    let store = store_from_nodes(recorded_nodes);
    let values = match store_tree_leaves(&store, initial_root, STORAGE_TREE_DEPTH) {
        Ok(leaves) => leaves,
        Err(error) => {
            return Err(TransactionOutputError::ExtractAccountStorageSlotsDeltaFailed(error));
        },
    };
    let final_values = match store_tree_leaves(&store, final_root, STORAGE_TREE_DEPTH) {
        Ok(leaves) => leaves,
        Err(error) => {
            return Err(TransactionOutputError::ExtractAccountStorageSlotsDeltaFailed(error));
        },
    };
    let slots = match store_tree_delta(&store, initial_root, final_root, STORAGE_TREE_DEPTH) {
        Ok(slots) => slots,
        Err(error) => {
            return Err(TransactionOutputError::ExtractAccountStorageSlotsDeltaFailed(error));
        },
    };
    let delta = storage_delta_from_tree_delta(&slots.0, &slots.1);
    assert(1u64 << 8u8 == 256) by (bit_vector);
    proof {
        lemma_ordered_slots_are_distinct(slots.0@, slots.1@);
    }
    if !accounts_for(&values, &final_values, &delta) {
        return Err(TransactionOutputError::InconsistentAccountStorageDelta);
    }
    Ok(delta)
}

/// The cleared slots and the updated slots with their values of the storage
/// delta that is extracted: none where the roots are one and the same, else
/// those that the comparison gives.
pub open spec fn extracted_items(
    nodes: Map<Word, (Word, Word)>,
    initial_root: Word,
    final_root: Word,
) -> (Seq<u8>, Seq<(u8, Word)>) {
    if same_storage_root(initial_root, final_root) {
        (Seq::empty(), Seq::empty())
    } else {
        compared_items(nodes, initial_root, final_root)
    }
}

/// What an execution comes to once the kernel has run.
///
/// Outputs that could not be parsed are invalid outputs. An account that
/// changed its identifier is an inconsistent account. Otherwise the account
/// delta is drawn up: its storage part is extracted from the recorded nodes,
/// its vault part is what the host summed up, its nonce part is the final
/// nonce where the nonce changed. Storage trees that differ and cannot be
/// compared, a difference that does not account for the change, an asset that
/// is not valid, and parts that do not make a delta, are invalid outputs. Else
/// the executed transaction holds what it was given, and this delta.
pub open spec fn builds(
    program: Program,
    tx_script: Option<TransactionScript>,
    tx_inputs: TransactionInputs,
    tx_outputs: Result<TransactionOutputs, TransactionOutputError>,
    net_amounts: NetAmounts,
    recorded_nodes: Seq<InnerNode>,
    advice_witness: AdviceInputs,
    built: Result<ExecutedTransaction, TransactionExecutorError>,
) -> bool {
    match tx_outputs {
        Err(reason) => built == Err::<ExecutedTransaction, TransactionExecutorError>(
            TransactionExecutorError::InvalidTransactionOutput(reason),
        ),
        Ok(outputs) => if tx_inputs.account.id != outputs.account.id {
            built == Err::<ExecutedTransaction, TransactionExecutorError>(
                TransactionExecutorError::InconsistentAccountId {
                    input_id: tx_inputs.account.id,
                    output_id: outputs.account.id,
                },
            )
        } else {
            let nodes = collected_nodes(recorded_nodes);
            let initial_root = tx_inputs.account.storage_root;
            let final_root = outputs.account.storage_root;
            let same = same_storage_root(initial_root, final_root);
            let items = extracted_items(nodes, initial_root, final_root);
            let added = credits(net_amounts);
            let removed = debits(net_amounts);
            let nonce = spec_nonce_delta(tx_inputs.account.nonce, outputs.account.nonce);
            if !same && !storage_trees_comparable(nodes, initial_root, final_root) {
                built matches Err(
                    TransactionExecutorError::InvalidTransactionOutput(
                        TransactionOutputError::ExtractAccountStorageSlotsDeltaFailed(_),
                    ),
                )
            } else if !same && !comparison_accounts(nodes, initial_root, final_root) {
                built matches Err(
                    TransactionExecutorError::InvalidTransactionOutput(
                        TransactionOutputError::InconsistentAccountStorageDelta,
                    ),
                )
            } else if !assets_valid(added + removed) {
                built matches Err(
                    TransactionExecutorError::InvalidTransactionOutput(
                        TransactionOutputError::InvalidAccountDelta(
                            AccountDeltaFailure::InvalidAsset(asset),
                        ),
                    ),
                ) && exists|position: int|
                    is_first_invalid(added + removed, position) && asset == #[trigger] (added
                        + removed)[position]
            } else if !parts_accepted(items.0, items.1, added, removed, nonce) {
                built matches Err(
                    TransactionExecutorError::InvalidTransactionOutput(
                        TransactionOutputError::InvalidAccountDelta(
                            AccountDeltaFailure::Refused(_),
                        ),
                    ),
                )
            } else {
                &&& built matches Ok(transaction)
                &&& transaction.spec_program() == program
                &&& transaction.spec_tx_script() == tx_script
                &&& transaction.spec_tx_inputs() == tx_inputs
                &&& transaction.spec_tx_outputs() == outputs
                &&& transaction.spec_advice_witness() == advice_witness
                &&& transaction.spec_account_delta().spec_storage().cleared_items@ == items.0
                &&& transaction.spec_account_delta().spec_storage().updated_items@ == items.1
                &&& transaction.spec_account_delta().spec_vault().added_assets@ == added
                &&& transaction.spec_account_delta().spec_vault().removed_assets@ == removed
                &&& transaction.spec_account_delta().spec_nonce() == nonce
            }
        },
    }
}

/// A run left the account as it was: the same identifier, the same nonce, the
/// same storage root, and no net change to the vault.
pub open spec fn leaves_account_unchanged(
    tx_inputs: TransactionInputs,
    outputs: TransactionOutputs,
    net_amounts: NetAmounts,
) -> bool {
    &&& tx_inputs.account.id == outputs.account.id
    &&& tx_inputs.account.nonce == outputs.account.nonce
    &&& same_storage_root(tx_inputs.account.storage_root, outputs.account.storage_root)
    &&& net_amounts.len() == 0
}

/// An executed transaction whose delta is empty: no slot, no asset, no nonce.
pub open spec fn has_empty_delta(executed: ExecutedTransaction) -> bool {
    &&& executed.spec_account_delta().spec_storage().spec_is_empty()
    &&& executed.spec_account_delta().spec_vault().spec_is_empty()
    &&& executed.spec_account_delta().spec_nonce() is None
}

/// Creates an executed transaction from what a run of the kernel left
/// behind: the outputs as they were parsed, the host with the changes to the
/// vault, the inner nodes of the Merkle store that the run recorded, and the
/// advice that it consulted.
///
/// A run that left the account as it was always makes an executed
/// transaction, and its delta is empty: no slot, no asset, no nonce.
pub fn build_executed_transaction(
    program: Program,
    tx_script: Option<TransactionScript>,
    tx_inputs: TransactionInputs,
    tx_outputs: Result<TransactionOutputs, TransactionOutputError>,
    host: TransactionHost,
    recorded_nodes: &Vec<InnerNode>,
    advice_witness: AdviceInputs,
) -> (built: Result<ExecutedTransaction, TransactionExecutorError>)
    ensures
        builds(
            program,
            tx_script,
            tx_inputs,
            tx_outputs,
            host.net_amounts(),
            recorded_nodes@,
            advice_witness,
            built,
        ),
        tx_outputs matches Ok(outputs) && leaves_account_unchanged(
            tx_inputs,
            outputs,
            host.net_amounts(),
        ) ==> (built matches Ok(executed) && has_empty_delta(executed)),
{
    let tx_outputs = match tx_outputs {
        Ok(outputs) => outputs,
        Err(reason) => {
            return Err(TransactionExecutorError::InvalidTransactionOutput(reason));
        },
    };
    if tx_inputs.account.id != tx_outputs.account.id {
        return Err(
            TransactionExecutorError::InconsistentAccountId {
                input_id: tx_inputs.account.id,
                output_id: tx_outputs.account.id,
            },
        );
    }
    let vault_delta = host.into_vault_delta();
    let storage_delta = match extract_account_storage_delta(
        recorded_nodes,
        &tx_inputs.account.storage_root,
        &tx_outputs.account.storage_root,
    ) {
        Ok(delta) => delta,
        Err(reason) => {
            return Err(TransactionExecutorError::InvalidTransactionOutput(reason));
        },
    };
    let nonce = nonce_delta(tx_inputs.account.nonce, tx_outputs.account.nonce);
    proof {
        if same_storage_root(tx_inputs.account.storage_root, tx_outputs.account.storage_root) {
            assert(storage_delta.cleared_items@ =~= Seq::<u8>::empty());
            assert(storage_delta.updated_items@ =~= Seq::<(u8, Word)>::empty());
        }
    }
    let account_delta = match AccountDelta::new(storage_delta, vault_delta, nonce) {
        Ok(delta) => delta,
        Err(reason) => {
            return Err(
                TransactionExecutorError::InvalidTransactionOutput(
                    TransactionOutputError::InvalidAccountDelta(reason),
                ),
            );
        },
    };
    Ok(
        ExecutedTransaction::new(
            program,
            tx_inputs,
            tx_outputs,
            account_delta,
            tx_script,
            advice_witness,
        ),
    )
}

/// An account keeps its identifier through a transaction: outputs that were
/// parsed, and name another account than the inputs do, never make an
/// executed transaction. They fail as an inconsistent account identifier,
/// whatever else the run left behind.
pub proof fn lemma_changed_account_id_fails(
    program: Program,
    tx_script: Option<TransactionScript>,
    tx_inputs: TransactionInputs,
    outputs: TransactionOutputs,
    net_amounts: NetAmounts,
    recorded_nodes: Seq<InnerNode>,
    advice_witness: AdviceInputs,
    built: Result<ExecutedTransaction, TransactionExecutorError>,
)
    requires
        tx_inputs.account.id != outputs.account.id,
        builds(
            program,
            tx_script,
            tx_inputs,
            Ok(outputs),
            net_amounts,
            recorded_nodes,
            advice_witness,
            built,
        ),
    ensures
        built == Err::<ExecutedTransaction, TransactionExecutorError>(
            TransactionExecutorError::InconsistentAccountId {
                input_id: tx_inputs.account.id,
                output_id: outputs.account.id,
            },
        ),
{
}

/// An executed transaction has a delta whose nonce part is there exactly when
/// the nonce changed, and is then the final nonce; whose storage part names
/// no slot twice; and whose vault part names no asset twice.
pub proof fn lemma_built_delta_is_consistent(
    program: Program,
    tx_script: Option<TransactionScript>,
    tx_inputs: TransactionInputs,
    outputs: TransactionOutputs,
    net_amounts: NetAmounts,
    recorded_nodes: Seq<InnerNode>,
    advice_witness: AdviceInputs,
    executed: ExecutedTransaction,
)
    requires
        builds(
            program,
            tx_script,
            tx_inputs,
            Ok(outputs),
            net_amounts,
            recorded_nodes,
            advice_witness,
            Ok(executed),
        ),
    ensures
        tx_inputs.account.id == outputs.account.id,
        executed.spec_account_delta().spec_nonce() is None <==> tx_inputs.account.nonce
            == outputs.account.nonce,
        tx_inputs.account.nonce != outputs.account.nonce
            ==> executed.spec_account_delta().spec_nonce() == Some(outputs.account.nonce),
        executed.spec_account_delta().spec_storage().is_valid(),
        executed.spec_account_delta().spec_vault().is_valid(),
{
}

/// The storage delta of an executed transaction accounts for what happened to
/// the account's storage: the slot values before the transaction, with the
/// cleared slots reset to the empty word and the updated slots then set to
/// their new values, are the slot values after the transaction.
pub proof fn lemma_storage_delta_replays(
    program: Program,
    tx_script: Option<TransactionScript>,
    tx_inputs: TransactionInputs,
    outputs: TransactionOutputs,
    net_amounts: NetAmounts,
    recorded_nodes: Seq<InnerNode>,
    advice_witness: AdviceInputs,
    executed: ExecutedTransaction,
)
    requires
        builds(
            program,
            tx_script,
            tx_inputs,
            Ok(outputs),
            net_amounts,
            recorded_nodes,
            advice_witness,
            Ok(executed),
        ),
    ensures
        executed.spec_account_delta().spec_storage().applied_to(
            storage_values(collected_nodes(recorded_nodes), tx_inputs.account.storage_root),
        ) == storage_values(collected_nodes(recorded_nodes), outputs.account.storage_root),
        executed.spec_account_delta().spec_storage().is_valid(),
        !same_storage_root(tx_inputs.account.storage_root, outputs.account.storage_root)
            ==> difference_accounts(
            storage_values(collected_nodes(recorded_nodes), tx_inputs.account.storage_root),
            storage_values(collected_nodes(recorded_nodes), outputs.account.storage_root),
            executed.spec_account_delta().spec_storage().cleared_items@,
            executed.spec_account_delta().spec_storage().updated_items@,
        ),
{
}

/// A transaction that sets one storage slot to another value, which is not
/// the empty word, adds one asset of an amount above zero to a vault that saw
/// no other change, and changes the nonce, has this delta and no other: the
/// one slot updated with its new value, nothing cleared, the one asset added,
/// nothing removed, and the final nonce.
pub proof fn lemma_one_update_one_credit(
    program: Program,
    tx_script: Option<TransactionScript>,
    tx_inputs: TransactionInputs,
    outputs: TransactionOutputs,
    asset: crate::asset::Asset,
    recorded_nodes: Seq<InnerNode>,
    advice_witness: AdviceInputs,
    executed: ExecutedTransaction,
    slot: u8,
)
    requires
        crate::vault_delta::credited(Seq::<(crate::asset::AssetId, i64)>::empty(), asset) is Some,
        asset.spec_amount() > 0,
        builds(
            program,
            tx_script,
            tx_inputs,
            Ok(outputs),
            crate::vault_delta::credited(
                Seq::<(crate::asset::AssetId, i64)>::empty(),
                asset,
            ).unwrap(),
            recorded_nodes,
            advice_witness,
            Ok(executed),
        ),
        tx_inputs.account.nonce != outputs.account.nonce,
        ({
            let initial = storage_values(
                collected_nodes(recorded_nodes),
                tx_inputs.account.storage_root,
            );
            let last = storage_values(
                collected_nodes(recorded_nodes),
                outputs.account.storage_root,
            );
            &&& last[slot as int] != initial[slot as int]
            &&& last[slot as int] != spec_empty_word()
            &&& forall|other: int|
                0 <= other < STORAGE_SLOTS && other != slot ==> last[other] == initial[other]
        }),
    ensures
        executed.spec_account_delta().spec_storage().cleared_items@ == Seq::<u8>::empty(),
        executed.spec_account_delta().spec_storage().updated_items@ == seq![
            (
                slot,
                storage_values(
                    collected_nodes(recorded_nodes),
                    outputs.account.storage_root,
                )[slot as int],
            ),
        ],
        executed.spec_account_delta().spec_vault().added_assets@ == seq![asset],
        executed.spec_account_delta().spec_vault().removed_assets@ == Seq::<
            crate::asset::Asset,
        >::empty(),
        executed.spec_account_delta().spec_nonce() == Some(outputs.account.nonce),
{
    assert(1u64 << 8u8 == 256) by (bit_vector);
    crate::vault_delta::lemma_one_addition_is_one_credit(asset);
    let nodes = collected_nodes(recorded_nodes);
    let initial = storage_values(nodes, tx_inputs.account.storage_root);
    let last = storage_values(nodes, outputs.account.storage_root);
    assert(!same_storage_root(tx_inputs.account.storage_root, outputs.account.storage_root)) by {
        if same_storage_root(tx_inputs.account.storage_root, outputs.account.storage_root) {
            assert(initial == last);
        }
    }
    lemma_one_updated_slot(initial, last, executed.spec_account_delta().spec_storage(), slot);
}

/// What the data store's answer to a request for account code comes to: code
/// as it is, a refusal as a failure to fetch the account code.
pub open spec fn account_code_or_failure(answer: Result<ModuleAst, DataStoreError>) -> Result<
    ModuleAst,
    TransactionExecutorError,
> {
    match answer {
        Ok(module) => Ok(module),
        Err(reason) => Err(TransactionExecutorError::FetchAccountCodeFailed(reason)),
    }
}

/// What the data store's answer to a request for account code means: code is
/// handed on, a refusal is a failure to fetch the account code.
pub fn fetched_account_code(fetched: Result<ModuleAst, DataStoreError>) -> (code: Result<
    ModuleAst,
    TransactionExecutorError,
>)
    ensures
        match fetched {
            Ok(module) => code == Ok::<ModuleAst, TransactionExecutorError>(module),
            Err(reason) => code == Err::<ModuleAst, TransactionExecutorError>(
                TransactionExecutorError::FetchAccountCodeFailed(reason),
            ),
        },
{
    match fetched {
        Ok(module) => Ok(module),
        Err(reason) => Err(TransactionExecutorError::FetchAccountCodeFailed(reason)),
    }
}

/// Where an execution that begins stands after the data store's answer to a
/// request for transaction inputs, and what is to be done next: with the
/// inputs the transaction is to be compiled, a refusal is a failure to fetch
/// the inputs and ends the execution.
pub open spec fn inputs_or_failure(
    answer: Result<TransactionInputs, DataStoreError>,
    tx_script: Option<TransactionScript>,
) -> (ExecutionState, ExecutionAction) {
    match answer {
        Ok(tx_inputs) => (
            ExecutionState::Compiling { tx_inputs, tx_script },
            ExecutionAction::Compile,
        ),
        Err(reason) => (
            ExecutionState::Finished,
            ExecutionAction::Fail(TransactionExecutorError::FetchTransactionInputsFailed(reason)),
        ),
    }
}

/// What the data store's answer to a request for transaction inputs means
/// for an execution that begins: with the inputs the transaction is to be
/// compiled, a refusal is a failure to fetch the inputs and ends the
/// execution.
pub fn fetched_transaction_inputs(
    fetched: Result<TransactionInputs, DataStoreError>,
    tx_script: Option<TransactionScript>,
) -> (step: (ExecutionState, ExecutionAction))
    ensures
        step == inputs_or_failure(fetched, tx_script),
{
    match fetched {
        Ok(tx_inputs) => (
            ExecutionState::Compiling { tx_inputs, tx_script },
            ExecutionAction::Compile,
        ),
        Err(reason) => (
            ExecutionState::Finished,
            ExecutionAction::Fail(TransactionExecutorError::FetchTransactionInputsFailed(reason)),
        ),
    }
}

/// Where the data of accounts, blocks and notes is kept. The executor asks it
/// for what a transaction needs; how it comes by its answers is its own
/// affair, and nothing is promised of them.
pub trait DataStore {
    /// Returns what is needed to execute a transaction against the account
    /// `account_id`, with `block_ref` as its reference block, which consumes
    /// the notes `notes`.
    fn get_transaction_inputs(&self, account_id: u64, block_ref: u32, notes: &Vec<Word>) -> Result<
        TransactionInputs,
        DataStoreError,
    >;

    /// Returns the source of the code of the account `account_id`.
    fn get_account_code(&self, account_id: u64) -> Result<ModuleAst, DataStoreError>;
}

/// Where an execution stands.
pub enum ExecutionState {
    /// Nothing has been done yet.
    Start {
        account_id: u64,
        block_ref: u32,
        notes: Vec<Word>,
        tx_script: Option<TransactionScript>,
    },
    /// The inputs are fetched; the program for them is being compiled.
    Compiling { tx_inputs: TransactionInputs, tx_script: Option<TransactionScript> },
    /// The program is compiled; the kernel is running.
    Running { transaction: PreparedTransaction },
    /// The execution is over: its result has been handed out.
    Finished,
}

/// What a run of the kernel left behind.
pub struct RunOutputs {
    /// The outputs of the transaction as they were parsed from the stack and
    /// the advice map, or the reason why they could not be.
    pub tx_outputs: Result<TransactionOutputs, TransactionOutputError>,
    /// The inner nodes of the Merkle store that the run recorded.
    pub recorded_nodes: Vec<InnerNode>,
    /// The advice that the run consulted.
    pub advice_witness: AdviceInputs,
}

/// What happened since the executor last said what to do.
pub enum ExecutionEvent {
    /// The execution begins.
    Begin,
    /// The compiler has answered.
    Compiled(Result<Program, TransactionCompilerError>),
    /// The run of the kernel has ended, in outputs or in a fault. The host
    /// comes back as the run's events left it.
    RunCompleted {
        host: TransactionHost,
        outcome: Result<RunOutputs, miden_processor::ExecutionError>,
    },
}

/// What is to be done next.
pub enum ExecutionAction {
    /// The transaction is to be compiled into a program.
    Compile,
    /// The program is to be run on this input stack, with this host taking
    /// the kernel's events.
    Run { stack_inputs: Vec<u64>, host: TransactionHost },
    /// The execution has succeeded.
    Complete(ExecutedTransaction),
    /// The execution has failed. Nothing of it is kept.
    Fail(TransactionExecutorError),
    /// What happened is not what the execution waits for: it stands where it
    /// stood, and still waits.
    Ignore,
}

/// An event comes at its time when it is the answer to what the state waits
/// for.
pub open spec fn comes_in_turn(state: ExecutionState, event: ExecutionEvent) -> bool {
    ||| state is Start && event is Begin
    ||| state is Compiling && event is Compiled
    ||| state is Running && event is RunCompleted
}

/// What a script is to be checked against: the registered interface of an
/// account, or procedures that are given outright.
#[derive(Clone, Debug, PartialEq, Eq)]
pub enum ScriptTarget {
    AccountId(u64),
    Procedures(Vec<Word>),
}

/// Returns a copy of a list of words.
fn copy_words(words: &Vec<Word>) -> (copy: Vec<Word>)
    ensures
        copy@ == words@,
{
    let mut copy: Vec<Word> = Vec::new();
    let mut i: usize = 0;
    while i < words.len()
        invariant
            i <= words@.len(),
            copy@ == words@.take(i as int),
        decreases words@.len() - i,
    {
        copy.push(words[i]);
        i = i + 1;
        assert(copy@ =~= words@.take(i as int));
    }
    assert(words@.take(i as int) =~= words@);
    copy
}

/// Executes transactions: fetches what they need from a data store, has them
/// compiled and run, and reduces the outcome to an executed transaction.
pub struct TransactionExecutor<D: DataStore> {
    data_store: D,
    account_interfaces: HashMap<u64, Vec<Word>>,
}

impl<D: DataStore> TransactionExecutor<D> {
    /// The data store that this executor asks.
    pub closed spec fn data_store(&self) -> D {
        self.data_store
    }

    /// The procedures that are registered as the interface of an account, if
    /// any are.
    pub closed spec fn interface(&self, account_id: u64) -> Option<Seq<Word>> {
        if self.account_interfaces@.contains_key(account_id) {
            Some(self.account_interfaces@[account_id]@)
        } else {
            None
        }
    }

    /// Creates an executor over the given data store. No account interface is
    /// registered with it.
    pub fn new(data_store: D) -> (executor: TransactionExecutor<D>)
        ensures
            executor.data_store() == data_store,
            forall|account_id: u64| executor.interface(account_id) is None,
    {
        TransactionExecutor { data_store, account_interfaces: HashMap::new() }
    }

    /// Returns the procedures that are registered as the interface of an
    /// account, if any are.
    pub fn account_interface(&self, account_id: u64) -> (procedures: Option<&Vec<Word>>)
        ensures
            match self.interface(account_id) {
                Some(registered) => procedures matches Some(found) && found@ == registered,
                None => procedures is None,
            },
    {
        self.account_interfaces.get(&account_id)
    }

    /// The procedures that a script target stands for: those that are
    /// registered as the interface of the account, if any are, or those that
    /// it gives outright.
    pub open spec fn target_procedures(&self, target: ScriptTarget) -> Option<Seq<Word>> {
        match target {
            ScriptTarget::AccountId(account_id) => self.interface(account_id),
            ScriptTarget::Procedures(procedures) => Some(procedures@),
        }
    }

    /// Resolves script targets to the procedures that they stand for, in
    /// their order. The first account without a registered interface fails
    /// the resolution.
    pub fn resolve_script_targets(&self, targets: &Vec<ScriptTarget>) -> (resolved: Result<
        Vec<Vec<Word>>,
        TransactionCompilerError,
    >)
        ensures
            match resolved {
                Ok(lists) => lists@.len() == targets@.len() && forall|i: int|
                    0 <= i < targets@.len() ==> self.target_procedures(#[trigger] targets@[i])
                        == Some(lists@[i]@),
                Err(error) => exists|i: int|
                    0 <= i < targets@.len() && self.target_procedures(#[trigger] targets@[i])
                        is None && (forall|j: int|
                        0 <= j < i ==> self.target_procedures(#[trigger] targets@[j]) is Some)
                        && (targets@[i] matches ScriptTarget::AccountId(account_id) && error
                        == TransactionCompilerError::AccountInterfaceNotFound(account_id)),
            },
    {
        let mut lists: Vec<Vec<Word>> = Vec::new();
        let mut place: usize = 0;
        while place < targets.len()
            invariant
                place <= targets@.len(),
                lists@.len() == place,
                forall|i: int|
                    0 <= i < place ==> self.target_procedures(#[trigger] targets@[i]) == Some(
                        lists@[i]@,
                    ),
            decreases targets@.len() - place,
        {
            match &targets[place] {
                ScriptTarget::AccountId(account_id) => {
                    match self.account_interface(*account_id) {
                        Some(procedures) => {
                            lists.push(copy_words(procedures));
                        },
                        None => {
                            return Err(
                                TransactionCompilerError::AccountInterfaceNotFound(*account_id),
                            );
                        },
                    }
                },
                ScriptTarget::Procedures(procedures) => {
                    lists.push(copy_words(procedures));
                },
            }
            place = place + 1;
        }
        Ok(lists)
    }

    /// Fetches the source of an account's code from the data store, for the
    /// compiler to load. Whether there is code is the data store's answer; a
    /// refusal comes back as a failure to fetch the account code.
    ///
    /// What comes back is an answer of this executor's data store to a
    /// request for the code of `account_id`: code is handed on as it is, a
    /// refusal is wrapped as it is.
    pub fn fetch_account_code(&self, account_id: u64) -> (fetched: Result<
        ModuleAst,
        TransactionExecutorError,
    >)
        ensures
            exists|answer: Result<ModuleAst, DataStoreError>|
                (#[trigger] call_ensures(
                    D::get_account_code,
                    (&self.data_store(), account_id),
                    answer,
                )) && fetched == account_code_or_failure(answer),
            fetched matches Err(reason) ==> reason is FetchAccountCodeFailed,
    {
        let answer = self.data_store.get_account_code(account_id);
        fetched_account_code(answer)
    }

    /// Takes the compiler's answer to loading an account's code. Code that was
    /// loaded is handed on, and its procedures become the registered interface
    /// of the account, in place of an earlier one. A refusal is a failure to
    /// load the account, and changes nothing.
    pub fn load_account(
        &mut self,
        account_id: u64,
        loaded: Result<AccountCode, TransactionCompilerError>,
    ) -> (code: Result<AccountCode, TransactionExecutorError>)
        ensures
            match loaded {
                Ok(compiled) => code == Ok::<AccountCode, TransactionExecutorError>(compiled)
                    && forall|other: u64|
                    final(self).interface(other) == if other == account_id {
                        Some(code_procedures(compiled))
                    } else {
                        old(self).interface(other)
                    },
                Err(reason) => code == Err::<AccountCode, TransactionExecutorError>(
                    TransactionExecutorError::LoadAccountFailed(reason),
                ) && forall|other: u64| final(self).interface(other) == old(self).interface(other),
            },
    {
        match loaded {
            Ok(compiled) => {
                let procedures = account_code_procedures(&compiled);
                self.account_interfaces.insert(account_id, procedures);
                Ok(compiled)
            },
            Err(reason) => Err(TransactionExecutorError::LoadAccountFailed(reason)),
        }
    }

    /// Registers the given procedures as the interface of an account.
    ///
    /// Returns the interface that was registered for the account before, if
    /// there was one. No other account's interface changes.
    pub fn load_account_interface(&mut self, account_id: u64, procedures: Vec<Word>) -> (previous:
        Option<Vec<Word>>)
        ensures
            match old(self).interface(account_id) {
                Some(before) => previous matches Some(interface) && interface@ == before,
                None => previous is None,
            },
            forall|other: u64|
                final(self).interface(other) == if other == account_id {
                    Some(procedures@)
                } else {
                    old(self).interface(other)
                },
    {
        self.account_interfaces.insert(account_id, procedures)
    }

    /// Takes the compiler's answer to compiling a note script: a script is
    /// handed on, a refusal is a failure to compile the note script.
    pub fn compile_note_script(
        &self,
        compiled: Result<NoteScript, TransactionCompilerError>,
    ) -> (script: Result<NoteScript, TransactionExecutorError>)
        ensures
            match compiled {
                Ok(note_script) => script == Ok::<NoteScript, TransactionExecutorError>(
                    note_script,
                ),
                Err(reason) => script == Err::<NoteScript, TransactionExecutorError>(
                    TransactionExecutorError::CompileNoteScriptFailed(reason),
                ),
            },
    {
        match compiled {
            Ok(note_script) => Ok(note_script),
            Err(reason) => Err(TransactionExecutorError::CompileNoteScriptFailed(reason)),
        }
    }

    /// Takes the compiler's answer to compiling a transaction script: a
    /// script is handed on, a refusal is a failure to compile the transaction
    /// script.
    pub fn compile_tx_script(
        &self,
        compiled: Result<TransactionScript, TransactionCompilerError>,
    ) -> (script: Result<TransactionScript, TransactionExecutorError>)
        ensures
            match compiled {
                Ok(tx_script) => script == Ok::<TransactionScript, TransactionExecutorError>(
                    tx_script,
                ),
                Err(reason) => script == Err::<TransactionScript, TransactionExecutorError>(
                    TransactionExecutorError::CompileTransactionScriptFailed(reason),
                ),
            },
    {
        match compiled {
            Ok(tx_script) => Ok(tx_script),
            Err(reason) => Err(TransactionExecutorError::CompileTransactionScriptFailed(reason)),
        }
    }

    /// Takes the compiler's answer to compiling a transaction, and prepares
    /// the transaction for its run: a program makes a prepared transaction
    /// with the script and the inputs, a refusal is a failure to compile the
    /// transaction.
    pub fn prepare_transaction(
        tx_inputs: TransactionInputs,
        tx_script: Option<TransactionScript>,
        compiled: Result<Program, TransactionCompilerError>,
    ) -> (prepared: Result<PreparedTransaction, TransactionExecutorError>)
        ensures
            match compiled {
                Ok(program) => prepared matches Ok(transaction) && transaction.spec_program()
                    == program && transaction.spec_tx_script() == tx_script
                    && transaction.spec_tx_inputs() == tx_inputs,
                Err(reason) => prepared == Err::<PreparedTransaction, TransactionExecutorError>(
                    TransactionExecutorError::CompileTransactionFailed(reason),
                ),
            },
    {
        match compiled {
            Ok(program) => Ok(PreparedTransaction::new(program, tx_script, tx_inputs)),
            Err(reason) => Err(TransactionExecutorError::CompileTransactionFailed(reason)),
        }
    }

    /// Takes an execution one step further: given where it stands and what
    /// happened, says where it stands now and what is to be done next.
    ///
    /// An execution begins by fetching its inputs, and asks for the
    /// transaction to be compiled. With the program it prepares the
    /// transaction, and asks for the kernel to be run on the transaction's
    /// input stack, against a fresh host that knows the account's procedures.
    /// With the outcome of the run it builds the executed transaction. The
    /// first failure ends the execution; so does success. An event that does
    /// not come in its turn is ignored.
    pub fn execute_transaction(&self, state: ExecutionState, event: ExecutionEvent) -> (step: (
        ExecutionState,
        ExecutionAction,
    ))
        ensures
            !comes_in_turn(state, event) ==> step.0 == state && step.1 is Ignore,
            state is Start && event is Begin ==> exists|
                answer: Result<TransactionInputs, DataStoreError>,
            |
                (#[trigger] call_ensures(
                    D::get_transaction_inputs,
                    (&self.data_store(), state->account_id, state->block_ref, &state->notes),
                    answer,
                )) && step == inputs_or_failure(answer, state->Start_tx_script),
            state is Compiling && event is Compiled ==> (match event->Compiled_0 {
                Ok(program) => {
                    &&& step.0 matches ExecutionState::Running { transaction }
                    &&& transaction.spec_program() == program
                    &&& transaction.spec_tx_script() == state->Compiling_tx_script
                    &&& transaction.spec_tx_inputs() == state->tx_inputs
                    &&& step.1 matches ExecutionAction::Run { stack_inputs, host }
                    &&& stack_inputs@ == state->tx_inputs.stack_inputs()
                    &&& host.procedures() == state->tx_inputs.account.procedures@
                    &&& host.net_amounts() == Seq::<(crate::asset::AssetId, i64)>::empty()
                },
                Err(reason) => step.0 is Finished && step.1 == ExecutionAction::Fail(
                    TransactionExecutorError::CompileTransactionFailed(reason),
                ),
            }),
            state is Running && event is RunCompleted ==> step.0 is Finished && (match event
                ->outcome {
                Ok(outputs) => {
                    &&& step.1 is Complete || step.1 is Fail
                    &&& builds(
                        state->transaction.spec_program(),
                        state->transaction.spec_tx_script(),
                        state->transaction.spec_tx_inputs(),
                        outputs.tx_outputs,
                        event->host.net_amounts(),
                        outputs.recorded_nodes@,
                        outputs.advice_witness,
                        match step.1 {
                            ExecutionAction::Complete(executed) => Ok(executed),
                            ExecutionAction::Fail(reason) => Err(reason),
                            _ => arbitrary(),
                        },
                    )
                },
                Err(fault) => step.1 == ExecutionAction::Fail(
                    TransactionExecutorError::ExecuteTransactionProgramFailed(fault),
                ),
            }),
            state is Running && (event matches ExecutionEvent::RunCompleted {
                host,
                outcome: Ok(outputs),
            } && outputs.tx_outputs matches Ok(tx_outputs) && leaves_account_unchanged(
                state->transaction.spec_tx_inputs(),
                tx_outputs,
                host.net_amounts(),
            )) ==> (step.1 matches ExecutionAction::Complete(executed) && has_empty_delta(
                executed,
            )),
    {
        match (state, event) {
            (
                ExecutionState::Start { account_id, block_ref, notes, tx_script },
                ExecutionEvent::Begin,
            ) => {
                let answer = self.data_store.get_transaction_inputs(
                    account_id,
                    block_ref,
                    &notes,
                );
                fetched_transaction_inputs(answer, tx_script)
            },
            (
                ExecutionState::Compiling { tx_inputs, tx_script },
                ExecutionEvent::Compiled(compiled),
            ) => {
                match Self::prepare_transaction(tx_inputs, tx_script, compiled) {
                    Ok(transaction) => {
                        let stack_inputs = transaction.get_kernel_inputs();
                        let host = TransactionHost::new(
                            copy_words(&transaction.account().procedures),
                        );
                        (
                            ExecutionState::Running { transaction },
                            ExecutionAction::Run { stack_inputs, host },
                        )
                    },
                    Err(reason) => (ExecutionState::Finished, ExecutionAction::Fail(reason)),
                }
            },
            (
                ExecutionState::Running { transaction },
                ExecutionEvent::RunCompleted { host, outcome },
            ) => {
                let outputs = match outcome {
                    Ok(outputs) => outputs,
                    Err(fault) => {
                        return (
                            ExecutionState::Finished,
                            ExecutionAction::Fail(
                                TransactionExecutorError::ExecuteTransactionProgramFailed(fault),
                            ),
                        );
                    },
                };
                let (program, tx_script, tx_inputs) = transaction.into_parts();
                match build_executed_transaction(
                    program,
                    tx_script,
                    tx_inputs,
                    outputs.tx_outputs,
                    host,
                    &outputs.recorded_nodes,
                    outputs.advice_witness,
                ) {
                    Ok(executed) => (ExecutionState::Finished, ExecutionAction::Complete(executed)),
                    Err(reason) => (ExecutionState::Finished, ExecutionAction::Fail(reason)),
                }
            },
            (state, _) => (state, ExecutionAction::Ignore),
        }
    }
}

} // verus!
