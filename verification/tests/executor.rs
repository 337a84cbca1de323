use miden_crypto::merkle::{EmptySubtreeRoots, MerkleStore as CryptoStore, SimpleSmt};
use miden_crypto::{Felt, StarkField};
use miden_objects::accounts::AccountCode;
use miden_objects::assembly::{Assembler, ModuleAst};
use miden_objects::vm::{AdviceInputs, Program};
use miden_objects::AccountDeltaError;
use miden_tx::account_delta::{AccountDeltaFailure, AccountStorageDelta, AccountVaultDelta};
use miden_tx::asset::Asset;
use miden_tx::errors::{
    DataStoreError, TransactionCompilerError, TransactionExecutorError, TransactionOutputError,
};
use miden_tx::executor::{
    build_executed_transaction, extract_account_storage_delta, fetched_account_code,
    fetched_transaction_inputs, storage_delta_from_tree_delta, DataStore, ExecutionAction,
    ExecutionEvent, ExecutionState, RunOutputs, ScriptTarget, TransactionExecutor,
    STORAGE_TREE_DEPTH, STORAGE_TREE_LEAVES,
};
use miden_tx::host::{HostResponse, TransactionHost};
use miden_tx::merkle::InnerNode;
use miden_tx::transaction::{
    Account, AccountStub, ExecutedTransaction, TransactionInputs, TransactionOutputs,
};

const ACCOUNT_X: u64 = 0x0000_0000_0000_00FF;
const ACCOUNT_Y: u64 = 0x0000_0000_0000_01FF;
const FAUCET: u64 = 0x8000_0000_0000_001F;
const ADD: u32 = 0x2_0000;
const REMOVE: u32 = 0x2_0001;

const V0: [u64; 4] = [10, 20, 30, 40];
const V1: [u64; 4] = [11, 21, 31, 41];
const V5: [u64; 4] = [5, 5, 5, 5];
const V9: [u64; 4] = [9, 0, 0, 9];

fn felts(word: [u64; 4]) -> [Felt; 4] {
    word.map(Felt::new)
}

fn storage_tree(slots: &[(u64, [u64; 4])]) -> SimpleSmt {
    let leaves: Vec<(u64, [Felt; 4])> = slots.iter().map(|(i, v)| (*i, felts(*v))).collect();
    SimpleSmt::with_leaves(STORAGE_TREE_DEPTH, leaves).unwrap()
}

fn root_of(tree: &SimpleSmt) -> [u64; 4] {
    <[u64; 4]>::from(tree.root())
}

/// The inner nodes of a store that holds the given trees.
fn recorded(trees: &[&SimpleSmt]) -> Vec<InnerNode> {
    let mut store: CryptoStore = CryptoStore::new();
    for tree in trees {
        store.extend(tree.inner_nodes());
    }
    store
        .inner_nodes()
        .map(|node| InnerNode {
            value: <[u64; 4]>::from(node.value),
            left: <[u64; 4]>::from(node.left),
            right: <[u64; 4]>::from(node.right),
        })
        .collect()
}

fn program() -> Program {
    Assembler::default().compile("begin push.1 drop end").unwrap()
}

fn inputs(id: u64, nonce: u64, storage_root: [u64; 4]) -> TransactionInputs {
    TransactionInputs {
        account: Account { id, nonce, storage_root, procedures: vec![[7, 7, 7, 7]] },
        initial_account_hash: Some([1, 2, 3, 4]),
        block_hash: [8, 8, 8, 8],
        input_notes_commitment: [6, 6, 6, 6],
    }
}

fn outputs(id: u64, nonce: u64, storage_root: [u64; 4]) -> TransactionOutputs {
    TransactionOutputs {
        account: AccountStub {
            id,
            nonce,
            vault_root: [0, 0, 0, 0],
            storage_root,
            code_root: [3, 3, 3, 3],
        },
        output_notes_commitment: [0, 0, 0, 9],
    }
}

fn build(
    tx_inputs: TransactionInputs,
    tx_outputs: Result<TransactionOutputs, TransactionOutputError>,
    host: TransactionHost,
    nodes: &Vec<InnerNode>,
) -> Result<ExecutedTransaction, TransactionExecutorError> {
    build_executed_transaction(
        program(),
        None,
        tx_inputs,
        tx_outputs,
        host,
        nodes,
        AdviceInputs::default(),
    )
}

fn sorted(mut delta: AccountStorageDelta) -> AccountStorageDelta {
    delta.cleared_items.sort();
    delta.updated_items.sort();
    delta
}

#[test]
fn tree_delta_indices_become_slots() {
    let delta = storage_delta_from_tree_delta(&vec![0, 3, 255], &vec![(7, V0), (254, V1)]);
    assert_eq!(delta.cleared_items, vec![0, 3, 255]);
    assert_eq!(delta.updated_items, vec![(7, V0), (254, V1)]);
    let delta = storage_delta_from_tree_delta(&Vec::new(), &Vec::new());
    assert!(delta.is_empty());
}

#[test]
fn tree_delta_indices_are_cut_to_eight_bits() {
    let delta = storage_delta_from_tree_delta(&vec![256, 257, u64::MAX], &vec![(511, V0)]);
    assert_eq!(delta.cleared_items, vec![0, 1, 255]);
    assert_eq!(delta.updated_items, vec![(255, V0)]);
}

#[test]
fn scenario_asset_added_slot_updated_nonce_bumped() {
    let before = storage_tree(&[(3, V0)]);
    let after = storage_tree(&[(3, V1)]);
    let mut host = TransactionHost::new(vec![[7, 7, 7, 7]]);
    assert_eq!(host.on_event(ADD, &[100, 0, 0, FAUCET]), Ok(HostResponse::Proceed));
    let executed = build(
        inputs(ACCOUNT_X, 0, root_of(&before)),
        Ok(outputs(ACCOUNT_X, 1, root_of(&after))),
        host,
        &recorded(&[&before, &after]),
    )
    .unwrap();
    let delta = executed.account_delta();
    assert_eq!(delta.storage().updated_items, vec![(3, V1)]);
    assert_eq!(delta.storage().cleared_items, Vec::<u8>::new());
    assert_eq!(
        delta.vault(),
        &AccountVaultDelta {
            added_assets: vec![Asset::Fungible { faucet_id: FAUCET, amount: 100 }],
            removed_assets: Vec::new(),
        }
    );
    assert_eq!(delta.nonce(), Some(1));
    assert_eq!(executed.initial_account().id, ACCOUNT_X);
    assert_eq!(executed.final_account().nonce, 1);
    assert_eq!(executed.tx_outputs().output_notes_commitment, [0, 0, 0, 9]);
    assert_eq!(executed.tx_inputs().block_hash, [8, 8, 8, 8]);
    assert!(executed.tx_script().is_none());
    assert_eq!(executed.program().hash(), program().hash());
}

#[test]
fn scenario_nothing_changed() {
    let storage = storage_tree(&[(3, V0), (200, V9)]);
    let executed = build(
        inputs(ACCOUNT_X, 4, root_of(&storage)),
        Ok(outputs(ACCOUNT_X, 4, root_of(&storage))),
        TransactionHost::new(Vec::new()),
        &recorded(&[&storage]),
    )
    .unwrap();
    let delta = executed.account_delta();
    assert!(delta.storage().cleared_items.is_empty());
    assert!(delta.storage().updated_items.is_empty());
    assert!(delta.vault().added_assets.is_empty());
    assert!(delta.vault().removed_assets.is_empty());
    assert_eq!(delta.nonce(), None);
    assert!(delta.is_empty());
}

#[test]
fn cleared_updated_and_new_slots_are_told_apart() {
    let before = storage_tree(&[(3, V0), (5, V5), (7, V9)]);
    let after = storage_tree(&[(3, V1), (7, V9), (9, V9)]);
    let executed = build(
        inputs(ACCOUNT_X, 1, root_of(&before)),
        Ok(outputs(ACCOUNT_X, 2, root_of(&after))),
        TransactionHost::new(Vec::new()),
        &recorded(&[&before, &after]),
    )
    .unwrap();
    let delta = sorted(executed.account_delta().storage().clone());
    assert_eq!(delta.cleared_items, vec![5]);
    assert_eq!(delta.updated_items, vec![(3, V1), (9, V9)]);
    assert_eq!(executed.account_delta().nonce(), Some(2));
}

#[test]
fn storage_delta_applied_to_the_initial_tree_gives_the_final_root() {
    let cases: Vec<(Vec<(u64, [u64; 4])>, Vec<(u64, [u64; 4])>)> = vec![
        (vec![(3, V0)], vec![(3, V1)]),
        (vec![(3, V0), (5, V5), (7, V9)], vec![(3, V1), (7, V9), (9, V9)]),
        (vec![], vec![(0, V0), (254, V1)]),
        (vec![(0, V0), (254, V1)], vec![]),
        (vec![(1, V0), (2, V1), (128, V5)], vec![(1, V1), (2, V0), (129, V5)]),
    ];
    for (initial, last) in cases {
        let before = storage_tree(&initial);
        let after = storage_tree(&last);
        let executed = build(
            inputs(ACCOUNT_X, 1, root_of(&before)),
            Ok(outputs(ACCOUNT_X, 2, root_of(&after))),
            TransactionHost::new(Vec::new()),
            &recorded(&[&before, &after]),
        )
        .unwrap();
        let delta = executed.account_delta().storage();
        let mut replayed = storage_tree(&initial);
        for slot in delta.cleared_items.iter() {
            replayed.update_leaf(*slot as u64, felts([0, 0, 0, 0])).unwrap();
        }
        for (slot, value) in delta.updated_items.iter() {
            replayed.update_leaf(*slot as u64, felts(*value)).unwrap();
        }
        assert_eq!(replayed.root(), after.root());
    }
}

#[test]
fn account_that_changes_its_id_is_inconsistent() {
    let storage = storage_tree(&[(3, V0)]);
    let built = build(
        inputs(ACCOUNT_X, 0, root_of(&storage)),
        Ok(outputs(ACCOUNT_Y, 1, root_of(&storage))),
        TransactionHost::new(Vec::new()),
        &recorded(&[&storage]),
    );
    assert!(matches!(
        built,
        Err(TransactionExecutorError::InconsistentAccountId {
            input_id: ACCOUNT_X,
            output_id: ACCOUNT_Y
        })
    ));
}

#[test]
fn account_id_is_checked_before_the_storage_trees() {
    let built = build(
        inputs(ACCOUNT_X, 0, [1, 1, 1, 1]),
        Ok(outputs(ACCOUNT_Y, 1, [2, 2, 2, 2])),
        TransactionHost::new(Vec::new()),
        &Vec::new(),
    );
    assert!(matches!(built, Err(TransactionExecutorError::InconsistentAccountId { .. })));
}

#[test]
fn outputs_that_were_not_parsed_are_invalid() {
    let storage = storage_tree(&[(3, V0)]);
    let built = build(
        inputs(ACCOUNT_X, 0, root_of(&storage)),
        Err(TransactionOutputError::FinalAccountDataNotFound),
        TransactionHost::new(Vec::new()),
        &recorded(&[&storage]),
    );
    assert!(matches!(
        built,
        Err(TransactionExecutorError::InvalidTransactionOutput(
            TransactionOutputError::FinalAccountDataNotFound
        ))
    ));
}

#[test]
fn storage_tree_that_was_not_recorded_is_invalid() {
    let before = storage_tree(&[(3, V0)]);
    let after = storage_tree(&[(3, V1)]);
    for nodes in [recorded(&[&before]), recorded(&[&after]), recorded(&[]), Vec::new()] {
        let built = build(
            inputs(ACCOUNT_X, 0, root_of(&before)),
            Ok(outputs(ACCOUNT_X, 1, root_of(&after))),
            TransactionHost::new(Vec::new()),
            &nodes,
        );
        assert!(matches!(
            built,
            Err(TransactionExecutorError::InvalidTransactionOutput(
                TransactionOutputError::ExtractAccountStorageSlotsDeltaFailed(_)
            ))
        ));
    }
}

#[test]
fn storage_tree_with_a_missing_node_is_invalid() {
    let before = storage_tree(&[(3, V0)]);
    let after = storage_tree(&[(3, V1), (77, V5)]);
    let mut nodes = recorded(&[&before, &after]);
    let root = root_of(&after);
    let children = nodes.iter().find(|node| node.value == root).unwrap().left;
    nodes.retain(|node| node.value != children);
    let built = build(
        inputs(ACCOUNT_X, 0, root_of(&before)),
        Ok(outputs(ACCOUNT_X, 1, root)),
        TransactionHost::new(Vec::new()),
        &nodes,
    );
    assert!(matches!(
        built,
        Err(TransactionExecutorError::InvalidTransactionOutput(
            TransactionOutputError::ExtractAccountStorageSlotsDeltaFailed(_)
        ))
    ));
}

#[test]
fn difference_that_does_not_account_for_the_change_is_invalid() {
    // a slot value that is the root of an empty subtree is passed over when
    // the trees are compared, so the difference misses the slot
    let passed_over = <[u64; 4]>::from(EmptySubtreeRoots::empty_hashes(STORAGE_TREE_DEPTH)[7]);
    let before = storage_tree(&[(3, V0)]);
    let after = storage_tree(&[(3, V0), (5, passed_over)]);
    let nodes = recorded(&[&before, &after]);
    let extracted = extract_account_storage_delta(&nodes, &root_of(&before), &root_of(&after));
    assert!(matches!(
        extracted,
        Err(TransactionOutputError::InconsistentAccountStorageDelta)
    ));
    let built = build(
        inputs(ACCOUNT_X, 0, root_of(&before)),
        Ok(outputs(ACCOUNT_X, 1, root_of(&after))),
        TransactionHost::new(Vec::new()),
        &nodes,
    );
    assert!(matches!(
        built,
        Err(TransactionExecutorError::InvalidTransactionOutput(
            TransactionOutputError::InconsistentAccountStorageDelta
        ))
    ));
}

#[test]
fn storage_delta_is_extracted_from_the_recorded_nodes() {
    assert_eq!(STORAGE_TREE_LEAVES, 1 << STORAGE_TREE_DEPTH);
    let before = storage_tree(&[(0, V0), (255, V5)]);
    let after = storage_tree(&[(0, V1), (128, V9)]);
    let nodes = recorded(&[&before, &after]);
    let delta =
        sorted(extract_account_storage_delta(&nodes, &root_of(&before), &root_of(&after)).unwrap());
    assert_eq!(delta.cleared_items, vec![255]);
    assert_eq!(delta.updated_items, vec![(0, V1), (128, V9)]);
    let back =
        sorted(extract_account_storage_delta(&nodes, &root_of(&after), &root_of(&before)).unwrap());
    assert_eq!(back.cleared_items, vec![128]);
    assert_eq!(back.updated_items, vec![(0, V0), (255, V5)]);
    let none = extract_account_storage_delta(&nodes, &root_of(&after), &root_of(&after)).unwrap();
    assert!(none.is_empty());
}

#[test]
fn roots_are_read_as_field_elements() {
    let before = storage_tree(&[(3, V0)]);
    let after = storage_tree(&[(3, V1)]);
    let nodes = recorded(&[&before, &after]);
    let shifted = root_of(&after).map(|element| {
        if element < 0xFFFF_FFFF { element + 0xFFFF_FFFF_0000_0001 } else { element }
    });
    let delta = extract_account_storage_delta(&nodes, &root_of(&before), &shifted).unwrap();
    assert_eq!(delta.updated_items, vec![(3, V1)]);
}

#[test]
fn data_store_answers_are_passed_on() {
    let module = ModuleAst::parse("export.first push.1 drop end").unwrap();
    assert!(fetched_account_code(Ok(module)).is_ok());
    assert!(matches!(
        fetched_account_code(Err(DataStoreError::AccountNotFound(9))),
        Err(TransactionExecutorError::FetchAccountCodeFailed(DataStoreError::AccountNotFound(9)))
    ));
    let (state, action) =
        fetched_transaction_inputs(Ok(inputs(ACCOUNT_X, 0, [0, 0, 0, 0])), None);
    assert!(matches!(action, ExecutionAction::Compile));
    match state {
        ExecutionState::Compiling { tx_inputs, tx_script } => {
            assert_eq!(tx_inputs, inputs(ACCOUNT_X, 0, [0, 0, 0, 0]));
            assert!(tx_script.is_none());
        },
        _ => panic!("the transaction is to be compiled"),
    }
    let (state, action) = fetched_transaction_inputs(Err(DataStoreError::BlockNotFound(4)), None);
    assert!(matches!(state, ExecutionState::Finished));
    assert!(matches!(
        action,
        ExecutionAction::Fail(TransactionExecutorError::FetchTransactionInputsFailed(
            DataStoreError::BlockNotFound(4)
        ))
    ));
}

#[test]
fn vault_changes_that_cancel_leave_no_entry() {
    let storage = storage_tree(&[(3, V0)]);
    let mut host = TransactionHost::new(Vec::new());
    host.on_event(ADD, &[100, 0, 0, FAUCET]).unwrap();
    host.on_event(REMOVE, &[100, 0, 0, FAUCET]).unwrap();
    let executed = build(
        inputs(ACCOUNT_X, 1, root_of(&storage)),
        Ok(outputs(ACCOUNT_X, 1, root_of(&storage))),
        host,
        &recorded(&[&storage]),
    )
    .unwrap();
    assert!(executed.account_delta().vault().is_empty());
    assert!(executed.account_delta().is_empty());
    assert_eq!(executed.account_delta().nonce(), None);
}

#[test]
fn unchanged_storage_root_needs_no_recorded_tree() {
    let storage = storage_tree(&[(3, V0)]);
    for nodes in [Vec::new(), recorded(&[]), recorded(&[&storage])] {
        let delta =
            extract_account_storage_delta(&nodes, &root_of(&storage), &root_of(&storage)).unwrap();
        assert!(delta.is_empty());
        let executed = build(
            inputs(ACCOUNT_X, 4, root_of(&storage)),
            Ok(outputs(ACCOUNT_X, 4, root_of(&storage))),
            TransactionHost::new(Vec::new()),
            &nodes,
        )
        .unwrap();
        assert!(executed.account_delta().is_empty());
        assert_eq!(executed.account_delta().nonce(), None);
    }
    let mut missing = recorded(&[&storage]);
    let root = root_of(&storage);
    let child = missing.iter().find(|node| node.value == root).unwrap().left;
    missing.retain(|node| node.value != child);
    assert!(extract_account_storage_delta(&missing, &root, &root).unwrap().is_empty());
}

#[test]
fn delta_that_is_refused_is_an_invalid_output() {
    let before = storage_tree(&[(3, V0)]);
    let after = storage_tree(&[(3, V1)]);
    // storage changed, the nonce did not
    let built = build(
        inputs(ACCOUNT_X, 1, root_of(&before)),
        Ok(outputs(ACCOUNT_X, 1, root_of(&after))),
        TransactionHost::new(Vec::new()),
        &recorded(&[&before, &after]),
    );
    assert!(matches!(
        built,
        Err(TransactionExecutorError::InvalidTransactionOutput(
            TransactionOutputError::InvalidAccountDelta(AccountDeltaFailure::Refused(
                AccountDeltaError::InconsistentNonceUpdate(_)
            ))
        ))
    ));
    // the nonce changed, nothing else did
    let built = build(
        inputs(ACCOUNT_X, 1, root_of(&before)),
        Ok(outputs(ACCOUNT_X, 2, root_of(&before))),
        TransactionHost::new(Vec::new()),
        &recorded(&[&before]),
    );
    assert!(matches!(
        built,
        Err(TransactionExecutorError::InvalidTransactionOutput(
            TransactionOutputError::InvalidAccountDelta(AccountDeltaFailure::Refused(
                AccountDeltaError::InconsistentNonceUpdate(_)
            ))
        ))
    ));
    // the last slot cannot change
    let last = storage_tree(&[(3, V0), (255, V5)]);
    let built = build(
        inputs(ACCOUNT_X, 1, root_of(&before)),
        Ok(outputs(ACCOUNT_X, 2, root_of(&last))),
        TransactionHost::new(Vec::new()),
        &recorded(&[&before, &last]),
    );
    assert!(matches!(
        built,
        Err(TransactionExecutorError::InvalidTransactionOutput(
            TransactionOutputError::InvalidAccountDelta(AccountDeltaFailure::Refused(
                AccountDeltaError::ImmutableStorageSlot(255)
            ))
        ))
    ));
}

struct MemoryStore {
    inputs: TransactionInputs,
}

impl DataStore for MemoryStore {
    fn get_transaction_inputs(
        &self,
        account_id: u64,
        block_ref: u32,
        notes: &Vec<[u64; 4]>,
    ) -> Result<TransactionInputs, DataStoreError> {
        if account_id != self.inputs.account.id {
            return Err(DataStoreError::AccountNotFound(account_id));
        }
        if block_ref != 1 {
            return Err(DataStoreError::BlockNotFound(block_ref));
        }
        match notes.first() {
            Some(note) => Err(DataStoreError::NoteNotFound(*note)),
            None => Ok(self.inputs.clone()),
        }
    }

    fn get_account_code(&self, account_id: u64) -> Result<ModuleAst, DataStoreError> {
        if account_id != self.inputs.account.id {
            return Err(DataStoreError::AccountNotFound(account_id));
        }
        ModuleAst::parse("export.first push.1 drop end export.second push.2 drop end")
            .map_err(|error| DataStoreError::InternalError(format!("{error:?}")))
    }
}

fn executor(storage: &SimpleSmt) -> TransactionExecutor<MemoryStore> {
    let mut tx_inputs = inputs(ACCOUNT_X, 0, root_of(storage));
    tx_inputs.account.procedures = vec![[7, 7, 7, 7], [8, 8, 8, 8]];
    TransactionExecutor::new(MemoryStore { inputs: tx_inputs })
}

fn start(account_id: u64, block_ref: u32, notes: Vec<[u64; 4]>) -> ExecutionState {
    ExecutionState::Start { account_id, block_ref, notes, tx_script: None }
}

#[test]
fn execution_runs_through_its_steps() {
    let before = storage_tree(&[(3, V0)]);
    let after = storage_tree(&[(3, V1)]);
    let executor = executor(&before);

    let (state, action) =
        executor.execute_transaction(start(ACCOUNT_X, 1, Vec::new()), ExecutionEvent::Begin);
    assert!(matches!(action, ExecutionAction::Compile));
    assert!(matches!(state, ExecutionState::Compiling { .. }));

    let (state, action) =
        executor.execute_transaction(state, ExecutionEvent::Compiled(Ok(program())));
    assert!(matches!(state, ExecutionState::Running { .. }));
    let mut host = match action {
        ExecutionAction::Run { stack_inputs, host } => {
            assert_eq!(stack_inputs, vec![ACCOUNT_X, 1, 2, 3, 4, 6, 6, 6, 6, 8, 8, 8, 8]);
            host
        },
        _ => panic!("the kernel is to be run"),
    };
    assert_eq!(host.on_event(0x2_0002, &[8, 8, 8, 8]), Ok(HostResponse::PushProcedureIndex(1)));
    assert_eq!(host.on_event(ADD, &[100, 0, 0, FAUCET]), Ok(HostResponse::Proceed));

    let outcome = Ok(RunOutputs {
        tx_outputs: Ok(outputs(ACCOUNT_X, 1, root_of(&after))),
        recorded_nodes: recorded(&[&before, &after]),
        advice_witness: AdviceInputs::default(),
    });
    let (state, action) =
        executor.execute_transaction(state, ExecutionEvent::RunCompleted { host, outcome });
    assert!(matches!(state, ExecutionState::Finished));
    let executed = match action {
        ExecutionAction::Complete(executed) => executed,
        _ => panic!("the execution has succeeded"),
    };
    assert_eq!(executed.account_delta().storage().updated_items, vec![(3, V1)]);
    assert_eq!(
        executed.account_delta().vault().added_assets,
        vec![Asset::Fungible { faucet_id: FAUCET, amount: 100 }]
    );
    assert_eq!(executed.account_delta().nonce(), Some(1));
}

#[test]
fn event_out_of_turn_is_ignored() {
    let executor = executor(&storage_tree(&[(3, V0)]));
    let early = ExecutionEvent::Compiled(Ok(program()));
    let (state, action) = executor.execute_transaction(start(ACCOUNT_X, 1, Vec::new()), early);
    assert!(matches!(action, ExecutionAction::Ignore));
    assert!(matches!(state, ExecutionState::Start { account_id: ACCOUNT_X, block_ref: 1, .. }));
    let (state, _) = executor.execute_transaction(state, ExecutionEvent::Begin);
    let (state, action) = executor.execute_transaction(state, ExecutionEvent::Begin);
    assert!(matches!(action, ExecutionAction::Ignore));
    assert!(matches!(state, ExecutionState::Compiling { .. }));
    let (state, action) =
        executor.execute_transaction(ExecutionState::Finished, ExecutionEvent::Begin);
    assert!(matches!(action, ExecutionAction::Ignore));
    assert!(matches!(state, ExecutionState::Finished));
}

#[test]
fn execution_fails_where_inputs_cannot_be_fetched() {
    let executor = executor(&storage_tree(&[(3, V0)]));
    let attempts = [
        (start(ACCOUNT_Y, 1, Vec::new()), DataStoreError::AccountNotFound(ACCOUNT_Y)),
        (start(ACCOUNT_X, 2, Vec::new()), DataStoreError::BlockNotFound(2)),
        (start(ACCOUNT_X, 1, vec![[5, 5, 5, 5]]), DataStoreError::NoteNotFound([5, 5, 5, 5])),
    ];
    for (state, expected) in attempts {
        let (state, action) = executor.execute_transaction(state, ExecutionEvent::Begin);
        assert!(matches!(state, ExecutionState::Finished));
        match action {
            ExecutionAction::Fail(TransactionExecutorError::FetchTransactionInputsFailed(
                reason,
            )) => assert_eq!(reason, expected),
            _ => panic!("the execution has failed on its inputs"),
        }
    }
}

#[test]
fn execution_fails_where_the_transaction_does_not_compile() {
    let executor = executor(&storage_tree(&[(3, V0)]));
    let (state, _) =
        executor.execute_transaction(start(ACCOUNT_X, 1, Vec::new()), ExecutionEvent::Begin);
    let refusal = TransactionCompilerError::AccountInterfaceNotFound(ACCOUNT_X);
    let (state, action) =
        executor.execute_transaction(state, ExecutionEvent::Compiled(Err(refusal.clone())));
    assert!(matches!(state, ExecutionState::Finished));
    match action {
        ExecutionAction::Fail(TransactionExecutorError::CompileTransactionFailed(reason)) => {
            assert_eq!(reason, refusal)
        },
        _ => panic!("the execution has failed on its program"),
    }
}

#[test]
fn execution_fails_where_the_kernel_faults() {
    let executor = executor(&storage_tree(&[(3, V0)]));
    let (state, _) =
        executor.execute_transaction(start(ACCOUNT_X, 1, Vec::new()), ExecutionEvent::Begin);
    let (state, action) =
        executor.execute_transaction(state, ExecutionEvent::Compiled(Ok(program())));
    let host = match action {
        ExecutionAction::Run { host, .. } => host,
        _ => panic!("the kernel is to be run"),
    };
    let fault = miden_processor::ExecutionError::CycleLimitExceeded(5);
    let (state, action) = executor
        .execute_transaction(state, ExecutionEvent::RunCompleted { host, outcome: Err(fault) });
    assert!(matches!(state, ExecutionState::Finished));
    assert!(matches!(
        action,
        ExecutionAction::Fail(TransactionExecutorError::ExecuteTransactionProgramFailed(
            miden_processor::ExecutionError::CycleLimitExceeded(5)
        ))
    ));
}

#[test]
fn execution_fails_where_the_account_id_changes() {
    let storage = storage_tree(&[(3, V0)]);
    let executor = executor(&storage);
    let (state, _) =
        executor.execute_transaction(start(ACCOUNT_X, 1, Vec::new()), ExecutionEvent::Begin);
    let (state, action) =
        executor.execute_transaction(state, ExecutionEvent::Compiled(Ok(program())));
    let host = match action {
        ExecutionAction::Run { host, .. } => host,
        _ => panic!("the kernel is to be run"),
    };
    let outcome = Ok(RunOutputs {
        tx_outputs: Ok(outputs(ACCOUNT_Y, 1, root_of(&storage))),
        recorded_nodes: recorded(&[&storage]),
        advice_witness: AdviceInputs::default(),
    });
    let (_, action) =
        executor.execute_transaction(state, ExecutionEvent::RunCompleted { host, outcome });
    assert!(matches!(
        action,
        ExecutionAction::Fail(TransactionExecutorError::InconsistentAccountId {
            input_id: ACCOUNT_X,
            output_id: ACCOUNT_Y
        })
    ));
}

#[test]
fn account_code_is_fetched_from_the_data_store() {
    let executor = executor(&storage_tree(&[]));
    assert!(executor.fetch_account_code(ACCOUNT_X).is_ok());
    match executor.fetch_account_code(ACCOUNT_Y) {
        Err(TransactionExecutorError::FetchAccountCodeFailed(reason)) => {
            assert_eq!(reason, DataStoreError::AccountNotFound(ACCOUNT_Y))
        },
        _ => panic!("no code for an unknown account"),
    }
}

#[test]
fn loaded_account_registers_its_procedures() {
    let mut executor = executor(&storage_tree(&[]));
    let module = executor.fetch_account_code(ACCOUNT_X).unwrap();
    let code = AccountCode::new(module, &Assembler::default()).unwrap();
    let roots: Vec<[u64; 4]> =
        code.procedures().iter().map(|root| <[u64; 4]>::from(*root)).collect();
    assert_eq!(roots.len(), 2);
    let loaded = executor.load_account(ACCOUNT_X, Ok(code.clone())).unwrap();
    assert_eq!(loaded, code);
    assert_eq!(executor.load_account_interface(ACCOUNT_X, Vec::new()), Some(roots));
}

#[test]
fn account_that_does_not_load_changes_nothing() {
    let mut executor = executor(&storage_tree(&[]));
    assert_eq!(executor.load_account_interface(ACCOUNT_X, vec![[1, 1, 1, 1]]), None);
    let refusal = TransactionCompilerError::LoadAccountFailed("no such module".to_string());
    match executor.load_account(ACCOUNT_X, Err(refusal.clone())) {
        Err(TransactionExecutorError::LoadAccountFailed(reason)) => assert_eq!(reason, refusal),
        _ => panic!("the account was not loaded"),
    }
    assert_eq!(
        executor.load_account_interface(ACCOUNT_X, Vec::new()),
        Some(vec![[1, 1, 1, 1]])
    );
}

#[test]
fn account_interface_is_replaced_and_handed_back() {
    let mut executor = executor(&storage_tree(&[]));
    assert_eq!(executor.load_account_interface(ACCOUNT_X, vec![[1, 1, 1, 1]]), None);
    assert_eq!(executor.load_account_interface(ACCOUNT_Y, vec![[2, 2, 2, 2]]), None);
    assert_eq!(
        executor.load_account_interface(ACCOUNT_X, vec![[3, 3, 3, 3], [4, 4, 4, 4]]),
        Some(vec![[1, 1, 1, 1]])
    );
    assert_eq!(
        executor.load_account_interface(ACCOUNT_X, Vec::new()),
        Some(vec![[3, 3, 3, 3], [4, 4, 4, 4]])
    );
    assert_eq!(executor.load_account_interface(ACCOUNT_Y, Vec::new()), Some(vec![[2, 2, 2, 2]]));
}

#[test]
fn script_compilation_failures_are_told_apart() {
    let executor = executor(&storage_tree(&[]));
    let refusal = TransactionCompilerError::NoteIncompatibleWithAccountInterface([1, 2, 3, 4]);
    assert!(matches!(
        executor.compile_note_script(Err(refusal)),
        Err(TransactionExecutorError::CompileNoteScriptFailed(
            TransactionCompilerError::NoteIncompatibleWithAccountInterface([1, 2, 3, 4])
        ))
    ));
    let refusal = TransactionCompilerError::TxScriptIncompatibleWithAccountInterface([1, 2, 3, 4]);
    assert!(matches!(
        executor.compile_tx_script(Err(refusal)),
        Err(TransactionExecutorError::CompileTransactionScriptFailed(
            TransactionCompilerError::TxScriptIncompatibleWithAccountInterface([1, 2, 3, 4])
        ))
    ));
}

#[test]
fn script_targets_are_resolved_by_their_accounts() {
    let mut executor = executor(&storage_tree(&[]));
    assert_eq!(executor.account_interface(ACCOUNT_X), None);
    executor.load_account_interface(ACCOUNT_X, vec![[1, 1, 1, 1], [2, 2, 2, 2]]);
    executor.load_account_interface(ACCOUNT_Y, Vec::new());
    assert_eq!(executor.account_interface(ACCOUNT_X), Some(&vec![[1, 1, 1, 1], [2, 2, 2, 2]]));
    let targets = vec![
        ScriptTarget::Procedures(vec![[9, 9, 9, 9]]),
        ScriptTarget::AccountId(ACCOUNT_X),
        ScriptTarget::AccountId(ACCOUNT_Y),
    ];
    assert_eq!(
        executor.resolve_script_targets(&targets),
        Ok(vec![vec![[9, 9, 9, 9]], vec![[1, 1, 1, 1], [2, 2, 2, 2]], Vec::new()])
    );
    assert_eq!(executor.resolve_script_targets(&Vec::new()), Ok(Vec::new()));
    let unknown = vec![
        ScriptTarget::AccountId(ACCOUNT_X),
        ScriptTarget::AccountId(77),
        ScriptTarget::AccountId(78),
    ];
    assert_eq!(
        executor.resolve_script_targets(&unknown),
        Err(TransactionCompilerError::AccountInterfaceNotFound(77))
    );
}
