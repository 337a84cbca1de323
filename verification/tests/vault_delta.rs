use miden_tx::account_delta::{AccountDelta, AccountStorageDelta, AccountVaultDelta};
use miden_tx::asset::{Asset, MAX_FUNGIBLE_AMOUNT};
use miden_tx::vault_delta::{AccountVaultDeltaTracker, VaultDeltaError};

const FAUCET_A: u64 = 0x8000_0000_0000_001F;
const FAUCET_B: u64 = 0x8000_0000_0000_003F;
const NFT: [u64; 4] = [1, 0xC000_0000_0000_001F, 3, 4];

fn fungible(faucet_id: u64, amount: u64) -> Asset {
    Asset::Fungible { faucet_id, amount }
}

fn delta(added: &[Asset], removed: &[Asset]) -> AccountVaultDelta {
    AccountVaultDelta { added_assets: added.to_vec(), removed_assets: removed.to_vec() }
}

#[test]
fn fresh_tracker_gives_an_empty_delta() {
    let tracker = AccountVaultDeltaTracker::new();
    assert_eq!(tracker.into_vault_delta(), delta(&[], &[]));
}

#[test]
fn added_asset_is_a_credit() {
    let mut tracker = AccountVaultDeltaTracker::new();
    assert_eq!(tracker.add_asset(&fungible(FAUCET_A, 100)), Ok(()));
    assert_eq!(tracker.into_vault_delta(), delta(&[fungible(FAUCET_A, 100)], &[]));
}

#[test]
fn removed_asset_is_a_debit() {
    let mut tracker = AccountVaultDeltaTracker::new();
    assert_eq!(tracker.remove_asset(&fungible(FAUCET_A, 100)), Ok(()));
    assert_eq!(tracker.into_vault_delta(), delta(&[], &[fungible(FAUCET_A, 100)]));
}

#[test]
fn amounts_of_one_faucet_are_summed() {
    let mut tracker = AccountVaultDeltaTracker::new();
    tracker.add_asset(&fungible(FAUCET_A, 100)).unwrap();
    tracker.add_asset(&fungible(FAUCET_A, 23)).unwrap();
    tracker.remove_asset(&fungible(FAUCET_A, 3)).unwrap();
    assert_eq!(tracker.into_vault_delta(), delta(&[fungible(FAUCET_A, 120)], &[]));
}

#[test]
fn more_out_than_in_is_a_debit_of_the_difference() {
    let mut tracker = AccountVaultDeltaTracker::new();
    tracker.add_asset(&fungible(FAUCET_A, 10)).unwrap();
    tracker.remove_asset(&fungible(FAUCET_A, 25)).unwrap();
    assert_eq!(tracker.into_vault_delta(), delta(&[], &[fungible(FAUCET_A, 15)]));
}

#[test]
fn add_then_remove_of_the_same_asset_leaves_no_entry() {
    let mut tracker = AccountVaultDeltaTracker::new();
    tracker.add_asset(&fungible(FAUCET_B, 5)).unwrap();
    tracker.add_asset(&fungible(FAUCET_A, 100)).unwrap();
    tracker.remove_asset(&fungible(FAUCET_A, 100)).unwrap();
    assert_eq!(tracker.into_vault_delta(), delta(&[fungible(FAUCET_B, 5)], &[]));
}

#[test]
fn remove_then_add_of_the_same_asset_leaves_no_entry() {
    let mut tracker = AccountVaultDeltaTracker::new();
    tracker.remove_asset(&Asset::NonFungible { word: NFT }).unwrap();
    tracker.add_asset(&Asset::NonFungible { word: NFT }).unwrap();
    assert_eq!(tracker.into_vault_delta(), delta(&[], &[]));
}

#[test]
fn changes_to_distinct_assets_commute() {
    let mut one = AccountVaultDeltaTracker::new();
    one.add_asset(&fungible(FAUCET_A, 7)).unwrap();
    one.remove_asset(&fungible(FAUCET_B, 9)).unwrap();
    let mut other = AccountVaultDeltaTracker::new();
    other.remove_asset(&fungible(FAUCET_B, 9)).unwrap();
    other.add_asset(&fungible(FAUCET_A, 7)).unwrap();
    let expected = delta(&[fungible(FAUCET_A, 7)], &[fungible(FAUCET_B, 9)]);
    assert_eq!(one.into_vault_delta(), expected);
    assert_eq!(other.into_vault_delta(), expected);
}

#[test]
fn fungible_and_non_fungible_assets_are_kept_apart() {
    let mut tracker = AccountVaultDeltaTracker::new();
    tracker.add_asset(&Asset::NonFungible { word: NFT }).unwrap();
    tracker.add_asset(&fungible(FAUCET_A, 2)).unwrap();
    tracker.remove_asset(&Asset::NonFungible { word: [2, NFT[1], 3, 4] }).unwrap();
    assert_eq!(
        tracker.into_vault_delta(),
        delta(
            &[fungible(FAUCET_A, 2), Asset::NonFungible { word: NFT }],
            &[Asset::NonFungible { word: [2, NFT[1], 3, 4] }]
        )
    );
}

#[test]
fn zero_amount_changes_nothing() {
    let mut tracker = AccountVaultDeltaTracker::new();
    assert_eq!(tracker.add_asset(&fungible(FAUCET_A, 0)), Ok(()));
    assert_eq!(tracker.remove_asset(&fungible(FAUCET_A, 0)), Ok(()));
    assert_eq!(tracker.into_vault_delta(), delta(&[], &[]));
}

#[test]
fn net_amount_may_reach_the_largest_amount() {
    let mut tracker = AccountVaultDeltaTracker::new();
    assert_eq!(tracker.add_asset(&fungible(FAUCET_A, MAX_FUNGIBLE_AMOUNT)), Ok(()));
    assert_eq!(tracker.remove_asset(&fungible(FAUCET_A, MAX_FUNGIBLE_AMOUNT)), Ok(()));
    assert_eq!(tracker.remove_asset(&fungible(FAUCET_A, MAX_FUNGIBLE_AMOUNT)), Ok(()));
    assert_eq!(
        tracker.into_vault_delta(),
        delta(&[], &[fungible(FAUCET_A, MAX_FUNGIBLE_AMOUNT)])
    );
}

#[test]
fn net_amount_beyond_the_largest_amount_is_refused() {
    let mut tracker = AccountVaultDeltaTracker::new();
    tracker.add_asset(&fungible(FAUCET_A, MAX_FUNGIBLE_AMOUNT)).unwrap();
    assert_eq!(
        tracker.add_asset(&fungible(FAUCET_A, 1)),
        Err(VaultDeltaError::NetAmountOutOfRange(fungible(FAUCET_A, 1)))
    );
    assert_eq!(
        tracker.add_asset(&fungible(FAUCET_B, u64::MAX)),
        Err(VaultDeltaError::NetAmountOutOfRange(fungible(FAUCET_B, u64::MAX)))
    );
    assert_eq!(
        tracker.remove_asset(&fungible(FAUCET_B, MAX_FUNGIBLE_AMOUNT + 1)),
        Err(VaultDeltaError::NetAmountOutOfRange(fungible(FAUCET_B, MAX_FUNGIBLE_AMOUNT + 1)))
    );
    assert_eq!(
        tracker.into_vault_delta(),
        delta(&[fungible(FAUCET_A, MAX_FUNGIBLE_AMOUNT)], &[])
    );
}

#[test]
fn non_fungible_asset_cannot_come_in_twice() {
    let asset = Asset::NonFungible { word: NFT };
    let mut tracker = AccountVaultDeltaTracker::new();
    assert_eq!(tracker.add_asset(&asset), Ok(()));
    assert_eq!(tracker.add_asset(&asset), Err(VaultDeltaError::NetAmountOutOfRange(asset)));
    assert_eq!(tracker.remove_asset(&asset), Ok(()));
    assert_eq!(tracker.remove_asset(&asset), Ok(()));
    assert_eq!(tracker.remove_asset(&asset), Err(VaultDeltaError::NetAmountOutOfRange(asset)));
    assert_eq!(tracker.into_vault_delta(), delta(&[], &[asset]));
}

#[test]
fn delta_of_a_tracker_is_valid() {
    let mut tracker = AccountVaultDeltaTracker::new();
    for (faucet, amount) in [(FAUCET_A, 5u64), (FAUCET_B, 6), (FAUCET_A, 1), (FAUCET_B, 2)] {
        tracker.add_asset(&fungible(faucet, amount)).unwrap();
    }
    tracker.remove_asset(&fungible(FAUCET_B, 20)).unwrap();
    tracker.remove_asset(&Asset::NonFungible { word: NFT }).unwrap();
    let vault_delta = tracker.into_vault_delta();
    assert_eq!(
        vault_delta,
        delta(
            &[fungible(FAUCET_A, 6)],
            &[fungible(FAUCET_B, 12), Asset::NonFungible { word: NFT }]
        )
    );
    let no_storage = AccountStorageDelta { cleared_items: Vec::new(), updated_items: Vec::new() };
    assert!(AccountDelta::new(no_storage, vault_delta, Some(1)).is_ok());
}

#[test]
fn delta_does_not_depend_on_the_order_of_the_changes() {
    let a = |amount: u64| fungible(FAUCET_A, amount);
    let b = |amount: u64| fungible(FAUCET_B, amount);
    // a swapped pair with a later removal that turns the credit into a debit
    let mut one = AccountVaultDeltaTracker::new();
    one.add_asset(&a(1)).unwrap();
    one.remove_asset(&b(1)).unwrap();
    one.remove_asset(&a(2)).unwrap();
    let mut other = AccountVaultDeltaTracker::new();
    other.remove_asset(&b(1)).unwrap();
    other.add_asset(&a(1)).unwrap();
    other.remove_asset(&a(2)).unwrap();
    let expected = delta(&[], &[a(1), b(1)]);
    assert_eq!(one.into_vault_delta(), expected);
    assert_eq!(other.into_vault_delta(), expected);
    // two additions
    let mut one = AccountVaultDeltaTracker::new();
    one.add_asset(&b(5)).unwrap();
    one.add_asset(&a(6)).unwrap();
    let mut other = AccountVaultDeltaTracker::new();
    other.add_asset(&a(6)).unwrap();
    other.add_asset(&b(5)).unwrap();
    assert_eq!(one.into_vault_delta(), delta(&[a(6), b(5)], &[]));
    assert_eq!(other.into_vault_delta(), delta(&[a(6), b(5)], &[]));
}

#[test]
fn assets_are_listed_in_the_order_of_their_identities() {
    let words: [[u64; 4]; 4] = [
        [2, NFT[1], 0, 0],
        [1, NFT[1], 9, 0],
        [1, NFT[1], 3, 5],
        [1, NFT[1], 3, 4],
    ];
    let mut tracker = AccountVaultDeltaTracker::new();
    for word in words {
        tracker.add_asset(&Asset::NonFungible { word }).unwrap();
    }
    tracker.add_asset(&fungible(FAUCET_B, 1)).unwrap();
    tracker.add_asset(&fungible(FAUCET_A, 1)).unwrap();
    let expected: Vec<Asset> = vec![
        fungible(FAUCET_A, 1),
        fungible(FAUCET_B, 1),
        Asset::NonFungible { word: words[3] },
        Asset::NonFungible { word: words[2] },
        Asset::NonFungible { word: words[1] },
        Asset::NonFungible { word: words[0] },
    ];
    assert_eq!(tracker.into_vault_delta(), delta(&expected, &[]));
}
