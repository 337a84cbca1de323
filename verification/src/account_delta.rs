//! The difference between two states of an account.
//!
//! A storage delta lists the slots that were cleared and the slots that were
//! given a new value; a vault delta lists the assets that came in and those
//! that went out; the nonce is there if it changed. Whether the parts make an
//! account delta is for `miden_objects` to say: a delta that names a slot or
//! an asset twice, touches the slot that cannot change, or has a nonce that
//! does not go with its changes, cannot be built.

use miden_objects::accounts::{
    AccountDelta as Checked, AccountId, AccountStorageDelta as StorageParts,
    AccountVaultDelta as VaultParts,
};
use miden_objects::assets::{Asset as Held, FungibleAsset};
use miden_objects::Felt;
use vstd::prelude::*;

use crate::asset::{Asset, AssetId};
use crate::word::{canonical, empty_word, spec_empty_word, Word};

verus! {

/// The reason for which `miden_objects` refuses a delta, carried as it
/// comes.
#[verifier::external_type_specification]
#[verifier::external_body]
pub struct ExAccountDeltaError(miden_objects::AccountDeltaError);

/// Why a delta was refused.
#[derive(Debug, PartialEq, Eq)]
pub enum AccountDeltaFailure {
    /// The asset is not a valid asset, so that no delta can hold it.
    InvalidAsset(Asset),
    /// The parts do not make a delta.
    Refused(miden_objects::AccountDeltaError),
}

/// The most cleared items, and the most updated items, that a delta can hold.
pub const MAX_STORAGE_ITEMS: usize = 255;

/// The last storage slot that can change: the slot after it cannot.
pub const MAX_MUTABLE_STORAGE_SLOT: u8 = 254;

/// The most added assets, and the most removed assets, that a delta can hold.
pub const MAX_VAULT_ASSETS: usize = 65535;

/// No entry of `entries` equals another.
pub open spec fn all_distinct<T>(entries: Seq<T>) -> bool {
    forall|i: int, j: int| 0 <= i < j < entries.len() ==> entries[i] != entries[j]
}

/// The slot of each updated item, in order.
pub open spec fn updated_slots(items: Seq<(u8, Word)>) -> Seq<u8> {
    Seq::new(items.len(), |i: int| items[i].0)
}

/// The identity of each asset, in order.
pub open spec fn asset_ids(assets: Seq<Asset>) -> Seq<AssetId> {
    Seq::new(assets.len(), |i: int| assets[i].spec_id())
}

/// The number of storage slots of an account.
pub const STORAGE_SLOTS: usize = 256;

/// Slot values after the listed slots were reset to the empty word.
pub open spec fn with_cleared(values: Seq<Word>, cleared: Seq<u8>) -> Seq<Word>
    decreases cleared.len(),
{
    if cleared.len() == 0 {
        values
    } else {
        with_cleared(values, cleared.drop_last()).update(cleared.last() as int, spec_empty_word())
    }
}

/// Slot values after the listed slots were set to their new values, one after
/// the other.
pub open spec fn with_updated(values: Seq<Word>, updated: Seq<(u8, Word)>) -> Seq<Word>
    decreases updated.len(),
{
    if updated.len() == 0 {
        values
    } else {
        with_updated(values, updated.drop_last()).update(updated.last().0 as int, updated.last().1)
    }
}

/// Changes to the storage slots of an account.
#[derive(Clone, Debug, PartialEq, Eq)]
pub struct AccountStorageDelta {
    /// Slots whose value became the empty word.
    pub cleared_items: Vec<u8>,
    /// Slots whose value became another one, each with that value.
    pub updated_items: Vec<(u8, Word)>,
}

impl AccountStorageDelta {
    /// Every slot that the delta names: the cleared ones, then the updated
    /// ones.
    pub open spec fn slots(&self) -> Seq<u8> {
        self.cleared_items@ + updated_slots(self.updated_items@)
    }

    /// A storage delta is valid when it names no slot twice. In particular no
    /// slot is both cleared and updated.
    pub open spec fn is_valid(&self) -> bool {
        all_distinct(self.slots())
    }

    /// The delta names no slot at all.
    pub open spec fn spec_is_empty(&self) -> bool {
        self.cleared_items@.len() == 0 && self.updated_items@.len() == 0
    }

    /// The slot values that this delta makes of the given ones: the cleared
    /// slots are reset to the empty word, then the updated slots are set to
    /// their new values.
    pub open spec fn applied_to(&self, values: Seq<Word>) -> Seq<Word> {
        with_updated(with_cleared(values, self.cleared_items@), self.updated_items@)
    }

    /// Applies this delta to the values of an account's storage slots, which
    /// are given by slot.
    pub fn apply(&self, values: &mut Vec<Word>)
        requires
            old(values)@.len() == STORAGE_SLOTS,
        ensures
            final(values)@ == self.applied_to(old(values)@),
            final(values)@.len() == STORAGE_SLOTS,
    {
        let mut i: usize = 0;
        while i < self.cleared_items.len()
            invariant
                i <= self.cleared_items@.len(),
                values@.len() == STORAGE_SLOTS,
                values@ == with_cleared(old(values)@, self.cleared_items@.take(i as int)),
            decreases self.cleared_items@.len() - i,
        {
            let slot = self.cleared_items[i];
            proof {
                let next = self.cleared_items@.take(i + 1);
                assert(next.drop_last() =~= self.cleared_items@.take(i as int));
                assert(next.last() == slot);
            }
            values[slot as usize] = empty_word();
            i = i + 1;
        }
        assert(self.cleared_items@.take(i as int) =~= self.cleared_items@);
        let ghost cleared = values@;
        let mut j: usize = 0;
        while j < self.updated_items.len()
            invariant
                j <= self.updated_items@.len(),
                values@.len() == STORAGE_SLOTS,
                values@ == with_updated(cleared, self.updated_items@.take(j as int)),
            decreases self.updated_items@.len() - j,
        {
            let slot = self.updated_items[j].0;
            let value = self.updated_items[j].1;
            proof {
                let next = self.updated_items@.take(j + 1);
                assert(next.drop_last() =~= self.updated_items@.take(j as int));
                assert(next.last() == (slot, value));
            }
            values[slot as usize] = value;
            j = j + 1;
        }
        assert(self.updated_items@.take(j as int) =~= self.updated_items@);
    }

    /// Returns true if this storage delta names no slot.
    pub fn is_empty(&self) -> (empty: bool)
        ensures
            empty == self.spec_is_empty(),
    {
        self.cleared_items.len() == 0 && self.updated_items.len() == 0
    }
}

/// Changes to the asset vault of an account.
#[derive(Clone, Debug, PartialEq, Eq)]
pub struct AccountVaultDelta {
    /// Assets that came into the vault.
    pub added_assets: Vec<Asset>,
    /// Assets that left the vault.
    pub removed_assets: Vec<Asset>,
}

impl AccountVaultDelta {
    /// Every asset that the delta names: the added ones, then the removed
    /// ones.
    pub open spec fn assets(&self) -> Seq<Asset> {
        self.added_assets@ + self.removed_assets@
    }

    /// A vault delta is valid when no two of the assets that it names are the
    /// same asset. In particular no asset is both added and removed.
    pub open spec fn is_valid(&self) -> bool {
        all_distinct(asset_ids(self.assets()))
    }

    /// The delta names no asset at all.
    pub open spec fn spec_is_empty(&self) -> bool {
        self.added_assets@.len() == 0 && self.removed_assets@.len() == 0
    }

    /// Returns true if this vault delta names no asset.
    pub fn is_empty(&self) -> (empty: bool)
        ensures
            empty == self.spec_is_empty(),
    {
        self.added_assets.len() == 0 && self.removed_assets.len() == 0
    }
}

/// Every asset of the list is valid.
pub open spec fn assets_valid(assets: Seq<Asset>) -> bool {
    forall|i: int| 0 <= i < assets.len() ==> (#[trigger] assets[i]).spec_is_valid()
}

/// The storage part of a delta is accepted when neither list is longer than
/// [`MAX_STORAGE_ITEMS`], no slot is beyond [`MAX_MUTABLE_STORAGE_SLOT`], and
/// no slot is named twice.
pub open spec fn storage_accepted(cleared: Seq<u8>, updated: Seq<(u8, Word)>) -> bool {
    &&& cleared.len() <= MAX_STORAGE_ITEMS
    &&& updated.len() <= MAX_STORAGE_ITEMS
    &&& forall|i: int|
        0 <= i < cleared.len() ==> (#[trigger] cleared[i]) <= MAX_MUTABLE_STORAGE_SLOT
    &&& forall|i: int|
        0 <= i < updated.len() ==> (#[trigger] updated[i]).0 <= MAX_MUTABLE_STORAGE_SLOT
    &&& all_distinct(cleared + updated_slots(updated))
}

/// The vault part of a delta is accepted when neither list is longer than
/// [`MAX_VAULT_ASSETS`] and no two of its assets are the same asset.
pub open spec fn vault_accepted(added: Seq<Asset>, removed: Seq<Asset>) -> bool {
    &&& added.len() <= MAX_VAULT_ASSETS
    &&& removed.len() <= MAX_VAULT_ASSETS
    &&& all_distinct(asset_ids(added + removed))
}

/// The nonce goes with the changes when a delta that changes storage or vault
/// has a new nonce, which is not zero, and a delta that changes neither has
/// none.
pub open spec fn nonce_accepted(changes: bool, nonce: Option<u64>) -> bool {
    if changes {
        nonce matches Some(value) && canonical(value) != 0
    } else {
        nonce is None
    }
}

/// The lists and the nonce that make an account delta.
pub open spec fn parts_accepted(
    cleared: Seq<u8>,
    updated: Seq<(u8, Word)>,
    added: Seq<Asset>,
    removed: Seq<Asset>,
    nonce: Option<u64>,
) -> bool {
    &&& storage_accepted(cleared, updated)
    &&& vault_accepted(added, removed)
    &&& nonce_accepted(
        cleared.len() > 0 || updated.len() > 0 || added.len() > 0 || removed.len() > 0,
        nonce,
    )
}

/// The parts that make an account delta.
pub open spec fn delta_accepted(
    storage: AccountStorageDelta,
    vault: AccountVaultDelta,
    nonce: Option<u64>,
) -> bool {
    parts_accepted(
        storage.cleared_items@,
        storage.updated_items@,
        vault.added_assets@,
        vault.removed_assets@,
        nonce,
    )
}

/// Calls `AccountDelta::new` of `miden_objects` on the parts, which it is
/// handed as that crate's values, and hands back its refusal. The contract
/// restates the checks that the constructor makes of storage, vault and
/// nonce. The assets must be valid, else they could not be handed on: a
/// fungible asset is made of its faucet and amount, a non-fungible one of its
/// word.
#[verifier::external_body]
fn checked_by_miden_objects(
    storage: &AccountStorageDelta,
    vault: &AccountVaultDelta,
    nonce: Option<u64>,
) -> (checked: Result<(), miden_objects::AccountDeltaError>)
    requires
        assets_valid(vault.assets()),
    ensures
        checked is Ok <==> delta_accepted(*storage, *vault, nonce),
{
    let held = |a: &Asset| match *a {
        Asset::Fungible { faucet_id, amount } => {
            FungibleAsset::new(AccountId::new_unchecked(Felt::new(faucet_id)), amount)
                .map(Held::from)
        }
        Asset::NonFungible { word } => Held::try_from(word.map(Felt::new))
    }.expect("valid");
    let storage = StorageParts {
        cleared_items: storage.cleared_items.clone(),
        updated_items: storage.updated_items.iter().map(|(s, v)| (*s, v.map(Felt::new))).collect()
    };
    let added_assets = vault.added_assets.iter().map(held).collect();
    let removed_assets = vault.removed_assets.iter().map(held).collect();
    Checked::new(storage, VaultParts { added_assets, removed_assets }, nonce.map(Felt::new))
        .map(|_| ())
}

/// `position` is the first place of `assets` that holds an asset which is not
/// valid.
pub open spec fn is_first_invalid(assets: Seq<Asset>, position: int) -> bool {
    &&& 0 <= position < assets.len()
    &&& !assets[position].spec_is_valid()
    &&& forall|before: int| 0 <= before < position ==> (#[trigger] assets[before]).spec_is_valid()
}

/// Returns the first asset of the list that is not valid, if there is one.
fn first_invalid(assets: &Vec<Asset>) -> (found: Option<Asset>)
    ensures
        match found {
            Some(asset) => exists|position: int|
                is_first_invalid(assets@, position) && asset == #[trigger] assets@[position],
            None => assets_valid(assets@),
        },
{
    let mut place: usize = 0;
    while place < assets.len()
        invariant
            place <= assets@.len(),
            forall|before: int|
                0 <= before < place ==> (#[trigger] assets@[before]).spec_is_valid(),
        decreases assets@.len() - place,
    {
        if !assets[place].is_valid() {
            assert(is_first_invalid(assets@, place as int));
            return Some(assets[place]);
        }
        place = place + 1;
    }
    None
}

/// The differences between two states of an account: what changed in its
/// storage, what changed in its vault, and its new nonce if the nonce changed.
///
/// A delta that exists was accepted: its assets are valid, its storage part
/// names no slot twice and leaves the last slot alone, its vault part names no
/// asset twice, and its nonce goes with its changes.
#[derive(Debug, PartialEq, Eq)]
pub struct AccountDelta {
    storage: AccountStorageDelta,
    vault: AccountVaultDelta,
    nonce: Option<u64>,
}

impl AccountDelta {
    #[verifier::type_invariant]
    spec fn parts_are_accepted(self) -> bool {
        &&& assets_valid(self.vault.assets())
        &&& delta_accepted(self.storage, self.vault, self.nonce)
    }

    /// The storage part.
    pub closed spec fn spec_storage(&self) -> AccountStorageDelta {
        self.storage
    }

    /// The vault part.
    pub closed spec fn spec_vault(&self) -> AccountVaultDelta {
        self.vault
    }

    /// The new nonce, if the nonce changed.
    pub closed spec fn spec_nonce(&self) -> Option<u64> {
        self.nonce
    }

    /// Builds a delta from its parts, if they make one.
    ///
    /// An asset that is not valid is handed back, the first of the added
    /// assets before the first of the removed ones. Parts with valid assets
    /// are put to `miden_objects`, whose refusal is handed back as it comes.
    pub fn new(
        storage: AccountStorageDelta,
        vault: AccountVaultDelta,
        nonce: Option<u64>,
    ) -> (built: Result<AccountDelta, AccountDeltaFailure>)
        ensures
            built is Ok <==> assets_valid(vault.assets()) && delta_accepted(storage, vault, nonce),
            built matches Ok(delta) ==> delta.spec_storage() == storage && delta.spec_vault()
                == vault && delta.spec_nonce() == nonce,
            !assets_valid(vault.assets()) ==> (built matches Err(
                AccountDeltaFailure::InvalidAsset(asset),
            ) && exists|position: int|
                is_first_invalid(vault.assets(), position) && asset
                    == #[trigger] vault.assets()[position]),
            assets_valid(vault.assets()) && !delta_accepted(storage, vault, nonce)
                ==> built matches Err(AccountDeltaFailure::Refused(_)),
    {
        match first_invalid(&vault.added_assets) {
            Some(asset) => {
                proof {
                    let position = choose|position: int|
                        is_first_invalid(vault.added_assets@, position) && asset
                            == #[trigger] vault.added_assets@[position];
                    assert(vault.assets()[position] == asset);
                    assert forall|before: int| 0 <= before < position implies (
                    #[trigger] vault.assets()[before]).spec_is_valid() by {
                        assert(vault.assets()[before] == vault.added_assets@[before]);
                    }
                    assert(is_first_invalid(vault.assets(), position));
                }
                return Err(AccountDeltaFailure::InvalidAsset(asset));
            },
            None => {},
        }
        match first_invalid(&vault.removed_assets) {
            Some(asset) => {
                proof {
                    let place = choose|position: int|
                        is_first_invalid(vault.removed_assets@, position) && asset
                            == #[trigger] vault.removed_assets@[position];
                    let position = vault.added_assets@.len() + place;
                    assert(vault.assets()[position] == asset);
                    assert forall|before: int| 0 <= before < position implies (
                    #[trigger] vault.assets()[before]).spec_is_valid() by {
                        if before < vault.added_assets@.len() {
                            assert(vault.assets()[before] == vault.added_assets@[before]);
                        } else {
                            assert(vault.assets()[before] == vault.removed_assets@[before
                                - vault.added_assets@.len()]);
                        }
                    }
                    assert(is_first_invalid(vault.assets(), position));
                }
                return Err(AccountDeltaFailure::InvalidAsset(asset));
            },
            None => {},
        }
        assert(assets_valid(vault.assets())) by {
            assert forall|i: int| 0 <= i < vault.assets().len() implies (
            #[trigger] vault.assets()[i]).spec_is_valid() by {
                if i < vault.added_assets@.len() {
                    assert(vault.assets()[i] == vault.added_assets@[i]);
                } else {
                    assert(vault.assets()[i] == vault.removed_assets@[i
                        - vault.added_assets@.len()]);
                }
            }
        }
        match checked_by_miden_objects(&storage, &vault, nonce) {
            Ok(()) => Ok(AccountDelta { storage, vault, nonce }),
            Err(refusal) => Err(AccountDeltaFailure::Refused(refusal)),
        }
    }

    /// Returns the storage part of this delta. It names no slot twice.
    pub fn storage(&self) -> (storage: &AccountStorageDelta)
        ensures
            *storage == self.spec_storage(),
            storage.is_valid(),
            storage_accepted(storage.cleared_items@, storage.updated_items@),
    {
        proof {
            use_type_invariant(self);
        }
        &self.storage
    }

    /// Returns the vault part of this delta. It names no asset twice.
    pub fn vault(&self) -> (vault: &AccountVaultDelta)
        ensures
            *vault == self.spec_vault(),
            vault.is_valid(),
    {
        proof {
            use_type_invariant(self);
        }
        &self.vault
    }

    /// Returns the new nonce, if the nonce changed.
    pub fn nonce(&self) -> (nonce: Option<u64>)
        ensures
            nonce == self.spec_nonce(),
    {
        self.nonce
    }

    /// Returns true if neither storage nor vault changed.
    pub fn is_empty(&self) -> (empty: bool)
        ensures
            empty == (self.spec_storage().spec_is_empty() && self.spec_vault().spec_is_empty()),
    {
        self.storage.is_empty() && self.vault.is_empty()
    }

    /// Takes this delta apart.
    pub fn into_parts(self) -> (parts: (AccountStorageDelta, AccountVaultDelta, Option<u64>))
        ensures
            parts.0 == self.spec_storage(),
            parts.1 == self.spec_vault(),
            parts.2 == self.spec_nonce(),
            parts.0.is_valid(),
            parts.1.is_valid(),
            assets_valid(parts.1.assets()),
            delta_accepted(parts.0, parts.1, parts.2),
    {
        proof {
            use_type_invariant(&self);
        }
        (self.storage, self.vault, self.nonce)
    }
}

/// The nonce part of a delta: the final nonce where it differs from the
/// initial one, nothing where it does not.
pub open spec fn spec_nonce_delta(initial_nonce: u64, final_nonce: u64) -> Option<u64> {
    if initial_nonce != final_nonce {
        Some(final_nonce)
    } else {
        None
    }
}

/// Returns the nonce part of the delta between two account states.
pub fn nonce_delta(initial_nonce: u64, final_nonce: u64) -> (delta: Option<u64>)
    ensures
        delta == spec_nonce_delta(initial_nonce, final_nonce),
        delta is None <==> initial_nonce == final_nonce,
        initial_nonce != final_nonce ==> delta == Some(final_nonce),
{
    if initial_nonce != final_nonce {
        Some(final_nonce)
    } else {
        None
    }
}

/// A storage delta that clears a slot and also updates it is not valid, and
/// is not accepted: no account delta can be built from it.
pub proof fn lemma_overlap_is_invalid(storage: AccountStorageDelta, cleared: int, updated: int)
    requires
        0 <= cleared < storage.cleared_items@.len(),
        0 <= updated < storage.updated_items@.len(),
        storage.cleared_items@[cleared] == storage.updated_items@[updated].0,
    ensures
        !storage.is_valid(),
        !storage_accepted(storage.cleared_items@, storage.updated_items@),
{
    let slots = storage.slots();
    let place = storage.cleared_items@.len() + updated;
    assert(slots[cleared] == slots[place]);
}

/// In a valid storage delta the cleared slots and the updated slots are
/// disjoint, and neither list names a slot twice.
pub proof fn lemma_valid_is_disjoint(storage: AccountStorageDelta)
    requires
        storage.is_valid(),
    ensures
        forall|cleared: int, updated: int|
            0 <= cleared < storage.cleared_items@.len() && 0 <= updated
                < storage.updated_items@.len() ==> (#[trigger] storage.cleared_items@[cleared])
                != (#[trigger] storage.updated_items@[updated]).0,
        all_distinct(storage.cleared_items@),
        all_distinct(updated_slots(storage.updated_items@)),
{
    let slots = storage.slots();
    let offset = storage.cleared_items@.len() as int;
    assert forall|cleared: int, updated: int|
        0 <= cleared < storage.cleared_items@.len() && 0 <= updated
            < storage.updated_items@.len() implies (#[trigger] storage.cleared_items@[cleared])
        != (#[trigger] storage.updated_items@[updated]).0 by {
        assert(slots[cleared] != slots[offset + updated]);
    }
    assert forall|i: int, j: int|
        0 <= i < j < storage.cleared_items@.len() implies storage.cleared_items@[i]
        != storage.cleared_items@[j] by {
        assert(slots[i] != slots[j]);
    }
    assert forall|i: int, j: int| 0 <= i < j < storage.updated_items@.len() implies updated_slots(
        storage.updated_items@,
    )[i] != updated_slots(storage.updated_items@)[j] by {
        assert(slots[offset + i] != slots[offset + j]);
    }
}

/// Clearing slots leaves the number of slots as it is, resets the listed
/// slots to the empty word and leaves the other slots alone.
pub proof fn lemma_cleared_slots(values: Seq<Word>, cleared: Seq<u8>, slot: int)
    requires
        values.len() == STORAGE_SLOTS,
        0 <= slot < STORAGE_SLOTS,
    ensures
        with_cleared(values, cleared).len() == STORAGE_SLOTS,
        with_cleared(values, cleared)[slot] == if cleared.contains(slot as u8) {
            spec_empty_word()
        } else {
            values[slot]
        },
    decreases cleared.len(),
{
    if cleared.len() > 0 {
        let rest = cleared.drop_last();
        lemma_cleared_slots(values, rest, slot);
        if cleared.contains(slot as u8) {
            let place = choose|i: int| 0 <= i < cleared.len() && cleared[i] == slot as u8;
            if place < rest.len() {
                assert(rest[place] == slot as u8);
            }
        } else {
            if rest.contains(slot as u8) {
                let place = choose|i: int| 0 <= i < rest.len() && rest[i] == slot as u8;
                assert(cleared[place] == slot as u8);
            }
        }
        assert(cleared[cleared.len() - 1] == cleared.last());
    }
}

/// Updating slots leaves the number of slots as it is and leaves the slots
/// alone that are not listed.
pub proof fn lemma_updated_other_slots(values: Seq<Word>, updated: Seq<(u8, Word)>, slot: int)
    requires
        values.len() == STORAGE_SLOTS,
        0 <= slot < STORAGE_SLOTS,
        forall|i: int| 0 <= i < updated.len() ==> (#[trigger] updated[i]).0 != slot,
    ensures
        with_updated(values, updated).len() == STORAGE_SLOTS,
        with_updated(values, updated)[slot] == values[slot],
    decreases updated.len(),
{
    if updated.len() > 0 {
        let rest = updated.drop_last();
        assert forall|i: int| 0 <= i < rest.len() implies (#[trigger] rest[i]).0 != slot by {
            assert(rest[i] == updated[i]);
        }
        lemma_updated_other_slots(values, rest, slot);
        assert(updated[updated.len() - 1] == updated.last());
    }
}

/// Updating slots that are listed once each sets every listed slot to the
/// value that is listed with it.
pub proof fn lemma_updated_slot(values: Seq<Word>, updated: Seq<(u8, Word)>, place: int)
    requires
        values.len() == STORAGE_SLOTS,
        0 <= place < updated.len(),
        all_distinct(updated_slots(updated)),
    ensures
        with_updated(values, updated).len() == STORAGE_SLOTS,
        with_updated(values, updated)[updated[place].0 as int] == updated[place].1,
    decreases updated.len(),
{
    let rest = updated.drop_last();
    let end = updated.len() - 1;
    assert(updated[end] == updated.last());
    if place == end {
        lemma_updated_length(values, rest);
    } else {
        assert(rest[place] == updated[place]);
        assert(all_distinct(updated_slots(rest))) by {
            assert forall|i: int, j: int| 0 <= i < j < rest.len() implies updated_slots(rest)[i]
                != updated_slots(rest)[j] by {
                assert(updated_slots(updated)[i] != updated_slots(updated)[j]);
            }
        }
        lemma_updated_slot(values, rest, place);
        assert(updated_slots(updated)[place] != updated_slots(updated)[end]);
    }
}

/// Updating slots leaves the number of slots as it is.
pub proof fn lemma_updated_length(values: Seq<Word>, updated: Seq<(u8, Word)>)
    requires
        values.len() == STORAGE_SLOTS,
    ensures
        with_updated(values, updated).len() == STORAGE_SLOTS,
    decreases updated.len(),
{
    if updated.len() > 0 {
        lemma_updated_length(values, updated.drop_last());
    }
}

/// What a valid storage delta makes of each slot: a cleared slot holds the
/// empty word, an updated slot holds its new value, and every other slot
/// holds what it held.
pub proof fn lemma_applied_slot(delta: AccountStorageDelta, values: Seq<Word>, slot: int)
    requires
        delta.is_valid(),
        values.len() == STORAGE_SLOTS,
        0 <= slot < STORAGE_SLOTS,
    ensures
        delta.applied_to(values).len() == STORAGE_SLOTS,
        delta.cleared_items@.contains(slot as u8) ==> delta.applied_to(values)[slot]
            == spec_empty_word(),
        forall|place: int|
            0 <= place < delta.updated_items@.len() && (#[trigger] delta.updated_items@[place]).0
                == slot ==> delta.applied_to(values)[slot] == delta.updated_items@[place].1,
        !delta.cleared_items@.contains(slot as u8) && (forall|place: int|
            0 <= place < delta.updated_items@.len() ==> (#[trigger] delta.updated_items@[place]).0
                != slot) ==> delta.applied_to(values)[slot] == values[slot],
{
    let cleared = with_cleared(values, delta.cleared_items@);
    lemma_cleared_slots(values, delta.cleared_items@, slot);
    lemma_valid_is_disjoint(delta);
    lemma_updated_length(cleared, delta.updated_items@);
    assert forall|place: int|
        0 <= place < delta.updated_items@.len() && (#[trigger] delta.updated_items@[place]).0
            == slot implies delta.applied_to(values)[slot] == delta.updated_items@[place].1 by {
        lemma_updated_slot(cleared, delta.updated_items@, place);
    }
    if delta.cleared_items@.contains(slot as u8) {
        let place = choose|i: int|
            0 <= i < delta.cleared_items@.len() && delta.cleared_items@[i] == slot as u8;
        assert forall|i: int| 0 <= i < delta.updated_items@.len() implies (
        #[trigger] delta.updated_items@[i]).0 != slot by {
            assert(delta.cleared_items@[place] != delta.updated_items@[i].0);
        }
        lemma_updated_other_slots(cleared, delta.updated_items@, slot);
    }
    if forall|place: int|
        0 <= place < delta.updated_items@.len() ==> (#[trigger] delta.updated_items@[place]).0
            != slot {
        lemma_updated_other_slots(cleared, delta.updated_items@, slot);
    }
}

} // verus!
