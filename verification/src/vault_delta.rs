//! The running account of what a transaction did to a vault.
//!
//! Each asset that the kernel adds to or removes from the account's vault
//! changes the net amount held under the asset's identity. Amounts are summed,
//! not listed: an asset that comes in and goes out again leaves no trace. At
//! the end of the run the net amounts become a vault delta. The entries are
//! kept in the order of the assets' identities, so that the delta is a matter
//! of the net amounts alone, whatever the order in which they came about.

use vstd::prelude::*;

use crate::account_delta::{all_distinct, asset_ids, AccountVaultDelta};
use crate::asset::{lemma_identities_are_ordered, Asset, AssetId, MAX_FUNGIBLE_AMOUNT};

verus! {

/// The net amounts of a run: an identity and what was added under it less
/// what was removed, for each identity whose net amount is not zero.
pub type NetAmounts = Seq<(AssetId, i64)>;

/// `entries` has an entry for `id`.
pub open spec fn holds(entries: NetAmounts, id: AssetId) -> bool {
    exists|i: int| 0 <= i < entries.len() && (#[trigger] entries[i]).0 == id
}

/// A place at which `entries` has an entry for `id`, if it has one.
pub open spec fn position_of(entries: NetAmounts, id: AssetId) -> int {
    choose|i: int| 0 <= i < entries.len() && (#[trigger] entries[i]).0 == id
}

/// The net amount under `id`: zero where `entries` has no entry for it.
pub open spec fn net_amount(entries: NetAmounts, id: AssetId) -> int {
    if holds(entries, id) {
        entries[position_of(entries, id)].1 as int
    } else {
        0
    }
}

/// The largest net amount, in either direction, that a vault can see under an
/// identity: the largest fungible amount for a faucet, one for a non-fungible
/// asset, which is in the vault or is not.
pub open spec fn amount_limit(id: AssetId) -> int {
    match id {
        AssetId::Fungible { faucet_id } => MAX_FUNGIBLE_AMOUNT as int,
        AssetId::NonFungible { word } => 1,
    }
}

/// Net amounts are well formed when the entries stand in the order of their
/// identities, so that each identity has one entry at most, and each entry's
/// amount is not zero and within the limit of its identity.
pub open spec fn well_formed(entries: NetAmounts) -> bool {
    &&& forall|i: int, j: int|
        0 <= i < j < entries.len() ==> (#[trigger] entries[i]).0 != (#[trigger] entries[j]).0
    &&& forall|i: int, j: int|
        0 <= i < j < entries.len() ==> (#[trigger] entries[i]).0.spec_comes_before(
            (#[trigger] entries[j]).0,
        )
    &&& forall|i: int|
        0 <= i < entries.len() ==> (#[trigger] entries[i]).1 != 0 && -amount_limit(entries[i].0)
            <= entries[i].1 <= amount_limit(entries[i].0)
}

/// The place at which an entry for `id` joins `entries`: behind the last
/// entry whose identity comes before `id`.
pub open spec fn place_for(entries: NetAmounts, id: AssetId) -> int
    decreases entries.len(),
{
    if entries.len() == 0 {
        0
    } else if entries.last().0.spec_comes_before(id) {
        entries.len() as int
    } else {
        place_for(entries.drop_last(), id)
    }
}

/// `entries` after the net amount under `id` changed by `change`. An entry
/// whose amount becomes zero leaves; an identity that was not there and gets
/// an amount joins at its place in the order of identities.
pub open spec fn with_change(entries: NetAmounts, id: AssetId, change: int) -> NetAmounts {
    if holds(entries, id) {
        let place = position_of(entries, id);
        let net = entries[place].1 + change;
        if net == 0 {
            entries.remove(place)
        } else {
            entries.update(place, (id, net as i64))
        }
    } else if change == 0 {
        entries
    } else {
        entries.insert(place_for(entries, id), (id, change as i64))
    }
}

/// `entries` after a change that keeps the net amount under `id` within its
/// limit; nothing where the change would take it beyond.
pub open spec fn changed(entries: NetAmounts, id: AssetId, change: int) -> Option<NetAmounts> {
    let net = net_amount(entries, id) + change;
    if -amount_limit(id) <= net <= amount_limit(id) {
        Some(with_change(entries, id, change))
    } else {
        None
    }
}

/// `entries` after `asset` was added to the vault.
pub open spec fn credited(entries: NetAmounts, asset: Asset) -> Option<NetAmounts> {
    changed(entries, asset.spec_id(), asset.spec_amount() as int)
}

/// `entries` after `asset` was removed from the vault.
pub open spec fn debited(entries: NetAmounts, asset: Asset) -> Option<NetAmounts> {
    changed(entries, asset.spec_id(), -(asset.spec_amount() as int))
}

/// The asset that is `amount` of the identity `id`.
pub open spec fn asset_of(id: AssetId, amount: u64) -> Asset {
    match id {
        AssetId::Fungible { faucet_id } => Asset::Fungible { faucet_id, amount },
        AssetId::NonFungible { word } => Asset::NonFungible { word },
    }
}

/// The assets that came in on balance, in the order of `entries`.
pub open spec fn credits(entries: NetAmounts) -> Seq<Asset>
    decreases entries.len(),
{
    if entries.len() == 0 {
        Seq::empty()
    } else {
        let last = entries.last();
        let rest = credits(entries.drop_last());
        if last.1 > 0 {
            rest.push(asset_of(last.0, last.1 as u64))
        } else {
            rest
        }
    }
}

/// The assets that went out on balance, in the order of `entries`.
pub open spec fn debits(entries: NetAmounts) -> Seq<Asset>
    decreases entries.len(),
{
    if entries.len() == 0 {
        Seq::empty()
    } else {
        let last = entries.last();
        let rest = debits(entries.drop_last());
        if last.1 < 0 {
            rest.push(asset_of(last.0, (-last.1) as u64))
        } else {
            rest
        }
    }
}

/// Why a change to the vault could not be taken into account.
#[derive(Clone, Copy, Debug, PartialEq, Eq)]
pub enum VaultDeltaError {
    /// With this asset the net amount under its identity would be larger, in
    /// one direction or the other, than a vault can ever see.
    NetAmountOutOfRange(Asset),
}

/// Sums up the assets that a run adds to and removes from a vault.
#[derive(Debug)]
pub struct AccountVaultDeltaTracker {
    entries: Vec<(AssetId, i64)>,
}

impl AccountVaultDeltaTracker {
    #[verifier::type_invariant]
    spec fn entries_are_well_formed(self) -> bool {
        well_formed(self.entries@)
    }

    /// The net amounts summed up so far.
    pub closed spec fn net_amounts(&self) -> NetAmounts {
        self.entries@
    }

    /// Returns a tracker that has seen no change.
    pub fn new() -> (tracker: AccountVaultDeltaTracker)
        ensures
            tracker.net_amounts() == Seq::<(AssetId, i64)>::empty(),
    {
        AccountVaultDeltaTracker { entries: Vec::new() }
    }

    /// Shows what holds of the net amounts of every tracker: they are well
    /// formed. Nothing is computed.
    pub fn net_amounts_are_well_formed(&self)
        ensures
            well_formed(self.net_amounts()),
    {
        proof {
            use_type_invariant(self);
        }
    }

    /// Returns the place of the entry for `id`, if there is one.
    fn find(&self, id: &AssetId) -> (found: Option<usize>)
        ensures
            well_formed(self.entries@),
            match found {
                Some(place) => place < self.entries@.len() && self.entries@[place as int].0 == *id
                    && holds(self.entries@, *id) && position_of(self.entries@, *id) == place,
                None => !holds(self.entries@, *id),
            },
    {
        proof {
            use_type_invariant(self);
        }
        let mut place: usize = 0;
        while place < self.entries.len()
            invariant
                place <= self.entries@.len(),
                well_formed(self.entries@),
                forall|i: int| 0 <= i < place ==> (#[trigger] self.entries@[i]).0 != *id,
            decreases self.entries@.len() - place,
        {
            if self.entries[place].0.equals(id) {
                proof {
                    lemma_entry_is_found(self.entries@, place as int);
                }
                return Some(place);
            }
            place = place + 1;
        }
        None
    }

    /// Sets the net amount under `id` to `net`, which is within the limit of
    /// `id`. `found` is the place of the entry for `id`, if there is one.
    fn settle(&mut self, id: AssetId, found: Option<usize>, net: i128)
        requires
            match found {
                Some(place) => place < old(self).entries@.len() && holds(old(self).entries@, id)
                    && position_of(old(self).entries@, id) == place,
                None => !holds(old(self).entries@, id),
            },
            -amount_limit(id) <= net <= amount_limit(id),
        ensures
            final(self).entries@ == with_change(
                old(self).entries@,
                id,
                net - net_amount(old(self).entries@, id),
            ),
    {
        proof {
            use_type_invariant(&*self);
            lemma_change_keeps_well_formed(
                self.entries@,
                id,
                net - net_amount(self.entries@, id),
            );
        }
        let mut entries: Vec<(AssetId, i64)> = Vec::new();
        core::mem::swap(&mut self.entries, &mut entries);
        assert(entries@.take(entries@.len() as int) =~= entries@);
        match found {
            Some(place) => {
                if net == 0 {
                    entries.remove(place);
                } else {
                    entries[place] = (id, net as i64);
                }
            },
            None => {
                if net != 0 {
                    let mut place: usize = entries.len();
                    while place > 0 && !entries[place - 1].0.comes_before(&id)
                        invariant
                            place <= entries@.len(),
                            place_for(entries@, id) == place_for(entries@.take(place as int), id),
                        decreases place,
                    {
                        proof {
                            let prefix = entries@.take(place as int);
                            assert(prefix.last() == entries@[place - 1]);
                            assert(prefix.drop_last() =~= entries@.take(place - 1));
                        }
                        place = place - 1;
                    }
                    proof {
                        let prefix = entries@.take(place as int);
                        if place > 0 {
                            assert(prefix.last() == entries@[place - 1]);
                        }
                    }
                    entries.insert(place, (id, net as i64));
                }
            },
        }
        self.entries = entries;
    }

    /// Takes into account that `asset` was added to the vault.
    ///
    /// The net amount under the asset's identity grows by the asset's amount.
    /// Where that would take it beyond what a vault can ever see, nothing
    /// changes and the asset is handed back in the error.
    pub fn add_asset(&mut self, asset: &Asset) -> (added: Result<(), VaultDeltaError>)
        ensures
            well_formed(old(self).net_amounts()),
            well_formed(final(self).net_amounts()),
            match credited(old(self).net_amounts(), *asset) {
                Some(entries) => added is Ok && final(self).net_amounts() == entries,
                None => added == Err::<(), VaultDeltaError>(
                    VaultDeltaError::NetAmountOutOfRange(*asset),
                ) && final(self).net_amounts() == old(self).net_amounts(),
            },
    {
        let id = asset.id();
        let found = self.find(&id);
        let held: i64 = match found {
            Some(place) => self.entries[place].1,
            None => 0,
        };
        let net: i128 = held as i128 + asset.amount() as i128;
        if net > limit_of(&id) as i128 {
            return Err(VaultDeltaError::NetAmountOutOfRange(*asset));
        }
        proof {
            lemma_change_keeps_well_formed(self.entries@, id, asset.spec_amount() as int);
        }
        self.settle(id, found, net);
        Ok(())
    }

    /// Takes into account that `asset` was removed from the vault.
    ///
    /// The net amount under the asset's identity shrinks by the asset's
    /// amount. Where that would take it beyond what a vault can ever see,
    /// nothing changes and the asset is handed back in the error.
    pub fn remove_asset(&mut self, asset: &Asset) -> (removed: Result<(), VaultDeltaError>)
        ensures
            well_formed(old(self).net_amounts()),
            well_formed(final(self).net_amounts()),
            match debited(old(self).net_amounts(), *asset) {
                Some(entries) => removed is Ok && final(self).net_amounts() == entries,
                None => removed == Err::<(), VaultDeltaError>(
                    VaultDeltaError::NetAmountOutOfRange(*asset),
                ) && final(self).net_amounts() == old(self).net_amounts(),
            },
    {
        let id = asset.id();
        let found = self.find(&id);
        let held: i64 = match found {
            Some(place) => self.entries[place].1,
            None => 0,
        };
        let net: i128 = held as i128 - asset.amount() as i128;
        if net < -(limit_of(&id) as i128) {
            return Err(VaultDeltaError::NetAmountOutOfRange(*asset));
        }
        proof {
            lemma_change_keeps_well_formed(self.entries@, id, -(asset.spec_amount() as int));
        }
        self.settle(id, found, net);
        Ok(())
    }

    /// Turns the net amounts into a vault delta: what came in on balance is
    /// added, what went out on balance is removed. The delta is valid. It is a
    /// matter of the net amounts alone, whatever the order in which they came
    /// about: both lists stand in the order of the assets' identities.
    pub fn into_vault_delta(self) -> (delta: AccountVaultDelta)
        ensures
            delta.added_assets@ == credits(self.net_amounts()),
            delta.removed_assets@ == debits(self.net_amounts()),
            delta.is_valid(),
            well_formed(self.net_amounts()),
            in_order(delta.added_assets@),
            in_order(delta.removed_assets@),
    {
        proof {
            use_type_invariant(&self);
        }
        let mut added_assets: Vec<Asset> = Vec::new();
        let mut removed_assets: Vec<Asset> = Vec::new();
        let mut place: usize = 0;
        while place < self.entries.len()
            invariant
                place <= self.entries@.len(),
                well_formed(self.entries@),
                added_assets@ == credits(self.entries@.take(place as int)),
                removed_assets@ == debits(self.entries@.take(place as int)),
            decreases self.entries@.len() - place,
        {
            let id = self.entries[place].0;
            let net = self.entries[place].1;
            proof {
                let next = self.entries@.take(place + 1);
                assert(next.drop_last() =~= self.entries@.take(place as int));
                assert(next.last() == self.entries@[place as int]);
            }
            if net > 0 {
                added_assets.push(asset_for(id, net as u64));
            } else if net < 0 {
                removed_assets.push(asset_for(id, (-net) as u64));
            }
            place = place + 1;
        }
        proof {
            assert(self.entries@.take(place as int) =~= self.entries@);
            lemma_balance_is_valid(self.entries@);
            lemma_balance_is_in_order(self.entries@);
        }
        AccountVaultDelta { added_assets, removed_assets }
    }
}

/// Returns the largest net amount that a vault can see under an identity.
fn limit_of(id: &AssetId) -> (limit: u64)
    ensures
        limit == amount_limit(*id),
{
    match id {
        AssetId::Fungible { faucet_id } => MAX_FUNGIBLE_AMOUNT,
        AssetId::NonFungible { word } => 1,
    }
}

/// Returns the asset that is `amount` of the identity `id`.
fn asset_for(id: AssetId, amount: u64) -> (asset: Asset)
    ensures
        asset == asset_of(id, amount),
{
    match id {
        AssetId::Fungible { faucet_id } => Asset::Fungible { faucet_id, amount },
        AssetId::NonFungible { word } => Asset::NonFungible { word },
    }
}

/// In well-formed net amounts the entry at a place is the entry for its
/// identity, and its amount is the net amount under that identity.
pub proof fn lemma_entry_is_found(entries: NetAmounts, place: int)
    requires
        well_formed(entries),
        0 <= place < entries.len(),
    ensures
        holds(entries, entries[place].0),
        position_of(entries, entries[place].0) == place,
        net_amount(entries, entries[place].0) == entries[place].1,
        net_amount(entries, entries[place].0) != 0,
{
    let id = entries[place].0;
    assert(holds(entries, id));
    let chosen = position_of(entries, id);
    assert(0 <= chosen < entries.len() && entries[chosen].0 == id);
    if chosen < place {
        assert(entries[chosen].0 != entries[place].0);
    } else if place < chosen {
        assert(entries[place].0 != entries[chosen].0);
    }
}

/// In well-formed net amounts an identity has an entry exactly when its net
/// amount is not zero.
pub proof fn lemma_held_is_nonzero(entries: NetAmounts, id: AssetId)
    requires
        well_formed(entries),
    ensures
        holds(entries, id) <==> net_amount(entries, id) != 0,
        -amount_limit(id) <= net_amount(entries, id) <= amount_limit(id),
{
    if holds(entries, id) {
        let place = position_of(entries, id);
        lemma_entry_is_found(entries, place);
    }
}

/// Where an entry for an identity without one joins well-formed net amounts:
/// behind every entry whose identity comes before it, and before every entry
/// whose identity it comes before.
pub proof fn lemma_place_for(entries: NetAmounts, id: AssetId)
    requires
        well_formed(entries),
        !holds(entries, id),
    ensures
        0 <= place_for(entries, id) <= entries.len(),
        forall|i: int|
            0 <= i < place_for(entries, id) ==> (#[trigger] entries[i]).0.spec_comes_before(id),
        forall|i: int|
            place_for(entries, id) <= i < entries.len() ==> id.spec_comes_before(
                (#[trigger] entries[i]).0,
            ),
    decreases entries.len(),
{
    if entries.len() > 0 {
        let rest = entries.drop_last();
        let end = entries.len() - 1;
        lemma_without_last(entries);
        assert(!holds(rest, id)) by {
            if holds(rest, id) {
                let place = position_of(rest, id);
                assert(entries[place].0 == id);
            }
        }
        lemma_place_for(rest, id);
        let place = place_for(entries, id);
        assert(entries[end].0 != id);
        lemma_identities_are_ordered(entries[end].0, id, id);
        if entries.last().0.spec_comes_before(id) {
            assert forall|i: int| 0 <= i < place implies (
            #[trigger] entries[i]).0.spec_comes_before(id) by {
                if i < end {
                    assert(entries[i].0.spec_comes_before(entries[end].0));
                    lemma_identities_are_ordered(entries[i].0, entries[end].0, id);
                }
            }
        } else {
            assert forall|i: int| 0 <= i < place implies (
            #[trigger] entries[i]).0.spec_comes_before(id) by {
                assert(rest[i] == entries[i]);
            }
            assert forall|i: int| place <= i < entries.len() implies id.spec_comes_before(
                (#[trigger] entries[i]).0,
            ) by {
                if i < end {
                    assert(rest[i] == entries[i]);
                }
            }
        }
    }
}

/// Well-formed net amounts without their last entry are well formed.
pub proof fn lemma_without_last(entries: NetAmounts)
    requires
        well_formed(entries),
        entries.len() > 0,
    ensures
        well_formed(entries.drop_last()),
{
    let rest = entries.drop_last();
    assert forall|i: int, j: int| 0 <= i < j < rest.len() implies (#[trigger] rest[i]).0 != (
    #[trigger] rest[j]).0 && rest[i].0.spec_comes_before(rest[j].0) by {
        assert(rest[i] == entries[i] && rest[j] == entries[j]);
        assert(entries[i].0 != entries[j].0);
        assert(entries[i].0.spec_comes_before(entries[j].0));
    }
    assert forall|i: int| 0 <= i < rest.len() implies (#[trigger] rest[i]).1 != 0
        && -amount_limit(rest[i].0) <= rest[i].1 <= amount_limit(rest[i].0) by {
        assert(rest[i] == entries[i]);
    }
}

/// Net amounts whose entries are those of well-formed net amounts, but for
/// one that left, are well formed.
proof fn lemma_removal_keeps_well_formed(entries: NetAmounts, place: int)
    requires
        well_formed(entries),
        0 <= place < entries.len(),
    ensures
        well_formed(entries.remove(place)),
{
    let after = entries.remove(place);
    assert forall|i: int, j: int| 0 <= i < j < after.len() implies (#[trigger] after[i]).0 != (
    #[trigger] after[j]).0 && after[i].0.spec_comes_before(after[j].0) by {
        let oi = if i < place { i } else { i + 1 };
        let oj = if j < place { j } else { j + 1 };
        assert(after[i] == entries[oi] && after[j] == entries[oj]);
        assert(entries[oi].0 != entries[oj].0);
        assert(entries[oi].0.spec_comes_before(entries[oj].0));
    }
    assert forall|i: int| 0 <= i < after.len() implies (#[trigger] after[i]).1 != 0
        && -amount_limit(after[i].0) <= after[i].1 <= amount_limit(after[i].0) by {
        let oi = if i < place { i } else { i + 1 };
        assert(after[i] == entries[oi]);
    }
}

/// Net amounts in which one entry of well-formed net amounts took another
/// amount, which is not zero and within the limit, are well formed.
proof fn lemma_update_keeps_well_formed(entries: NetAmounts, place: int, net: i64)
    requires
        well_formed(entries),
        0 <= place < entries.len(),
        net != 0,
        -amount_limit(entries[place].0) <= net <= amount_limit(entries[place].0),
    ensures
        well_formed(entries.update(place, (entries[place].0, net))),
{
    let after = entries.update(place, (entries[place].0, net));
    assert forall|i: int, j: int| 0 <= i < j < after.len() implies (#[trigger] after[i]).0 != (
    #[trigger] after[j]).0 && after[i].0.spec_comes_before(after[j].0) by {
        assert(after[i].0 == entries[i].0 && after[j].0 == entries[j].0);
        assert(entries[i].0 != entries[j].0);
        assert(entries[i].0.spec_comes_before(entries[j].0));
    }
    assert forall|i: int| 0 <= i < after.len() implies (#[trigger] after[i]).1 != 0
        && -amount_limit(after[i].0) <= after[i].1 <= amount_limit(after[i].0) by {
        if i != place {
            assert(after[i] == entries[i]);
        }
    }
}

/// Net amounts which an entry for an identity without one joined at its
/// place, with an amount that is not zero and within the limit, are well
/// formed.
proof fn lemma_joining_keeps_well_formed(entries: NetAmounts, id: AssetId, net: i64)
    requires
        well_formed(entries),
        !holds(entries, id),
        net != 0,
        -amount_limit(id) <= net <= amount_limit(id),
    ensures
        well_formed(entries.insert(place_for(entries, id), (id, net))),
{
    lemma_place_for(entries, id);
    let place = place_for(entries, id);
    let after = entries.insert(place, (id, net));
    assert forall|i: int, j: int| 0 <= i < j < after.len() implies (#[trigger] after[i]).0 != (
    #[trigger] after[j]).0 && after[i].0.spec_comes_before(after[j].0) by {
        let oi = if i < place { i } else { i - 1 };
        let oj = if j < place { j } else { j - 1 };
        if i == place {
            assert(after[j] == entries[oj]);
            assert(id.spec_comes_before(entries[oj].0));
            lemma_identities_are_ordered(id, entries[oj].0, id);
        } else if j == place {
            assert(after[i] == entries[oi]);
            assert(entries[oi].0.spec_comes_before(id));
            lemma_identities_are_ordered(entries[oi].0, id, id);
        } else {
            assert(after[i] == entries[oi] && after[j] == entries[oj]);
            assert(entries[oi].0 != entries[oj].0);
            assert(entries[oi].0.spec_comes_before(entries[oj].0));
        }
    }
    assert forall|i: int| 0 <= i < after.len() implies (#[trigger] after[i]).1 != 0
        && -amount_limit(after[i].0) <= after[i].1 <= amount_limit(after[i].0) by {
        if i != place {
            let oi = if i < place { i } else { i - 1 };
            assert(after[i] == entries[oi]);
        }
    }
}

/// A change that keeps the net amount under an identity within its limit
/// keeps the net amounts well formed, moves the net amount under that
/// identity by the change, and leaves every other net amount as it was.
pub proof fn lemma_change_keeps_well_formed(entries: NetAmounts, id: AssetId, change: int)
    requires
        well_formed(entries),
        -amount_limit(id) <= net_amount(entries, id) + change <= amount_limit(id),
    ensures
        well_formed(with_change(entries, id, change)),
        forall|other: AssetId|
            net_amount(with_change(entries, id, change), other) == net_amount(entries, other) + (
            if other == id {
                change
            } else {
                0
            }),
{
    let after = with_change(entries, id, change);
    if holds(entries, id) {
        let place = position_of(entries, id);
        lemma_entry_is_found(entries, place);
        let net = entries[place].1 + change;
        if net == 0 {
            assert(after == entries.remove(place));
            lemma_removal_keeps_well_formed(entries, place);
            assert forall|other: AssetId|
                net_amount(after, other) == net_amount(entries, other) + (if other == id {
                    change
                } else {
                    0
                }) by {
                if holds(after, other) {
                    let q = position_of(after, other);
                    lemma_entry_is_found(after, q);
                    let oq = if q < place { q } else { q + 1 };
                    assert(after[q] == entries[oq]);
                    lemma_entry_is_found(entries, oq);
                    if oq < place {
                        assert(entries[oq].0 != entries[place].0);
                    } else {
                        assert(entries[place].0 != entries[oq].0);
                    }
                } else if holds(entries, other) {
                    let oq = position_of(entries, other);
                    lemma_entry_is_found(entries, oq);
                    if oq != place {
                        let q = if oq < place { oq } else { oq - 1 };
                        assert(after[q] == entries[oq]);
                        assert(holds(after, other));
                    }
                }
            }
        } else {
            assert(after == entries.update(place, (id, net as i64)));
            lemma_update_keeps_well_formed(entries, place, net as i64);
            assert forall|other: AssetId|
                net_amount(after, other) == net_amount(entries, other) + (if other == id {
                    change
                } else {
                    0
                }) by {
                if holds(after, other) {
                    let q = position_of(after, other);
                    lemma_entry_is_found(after, q);
                    assert(after[q].0 == entries[q].0);
                    lemma_entry_is_found(entries, q);
                } else if holds(entries, other) {
                    let oq = position_of(entries, other);
                    assert(after[oq].0 == entries[oq].0);
                    assert(holds(after, other));
                }
            }
        }
    } else if change == 0 {
    } else {
        lemma_place_for(entries, id);
        let place = place_for(entries, id);
        assert(after == entries.insert(place, (id, change as i64)));
        lemma_joining_keeps_well_formed(entries, id, change as i64);
        assert forall|other: AssetId|
            net_amount(after, other) == net_amount(entries, other) + (if other == id {
                change
            } else {
                0
            }) by {
            if holds(after, other) {
                let q = position_of(after, other);
                lemma_entry_is_found(after, q);
                if q != place {
                    let oq = if q < place { q } else { q - 1 };
                    assert(after[q] == entries[oq]);
                    lemma_entry_is_found(entries, oq);
                }
            } else if holds(entries, other) {
                let oq = position_of(entries, other);
                let q = if oq < place { oq } else { oq + 1 };
                assert(after[q] == entries[oq]);
                assert(holds(after, other));
            }
            if other == id {
                assert(after[place].0 == id);
                lemma_entry_is_found(after, place);
            }
        }
    }
}

/// Well-formed net amounts are fixed by the net amount under every identity:
/// two of them with the same net amount under every identity are the same
/// entries.
pub proof fn lemma_net_amounts_fix_entries(one: NetAmounts, other: NetAmounts)
    requires
        well_formed(one),
        well_formed(other),
        forall|id: AssetId| net_amount(one, id) == net_amount(other, id),
    ensures
        one == other,
    decreases one.len(),
{
    if one.len() == 0 {
        if other.len() > 0 {
            lemma_entry_is_found(other, 0);
            assert(net_amount(one, other[0].0) == 0);
        }
        assert(one =~= other);
    } else {
        let end = one.len() - 1;
        lemma_entry_is_found(one, end);
        let id = one[end].0;
        lemma_held_is_nonzero(other, id);
        let at = position_of(other, id);
        lemma_entry_is_found(other, at);
        let last = other.len() - 1;
        lemma_entry_is_found(other, last);
        if at != last {
            let beyond = other[last].0;
            lemma_held_is_nonzero(one, beyond);
            let back = position_of(one, beyond);
            lemma_entry_is_found(one, back);
            assert(other[at].0.spec_comes_before(other[last].0));
            assert(back != end);
            assert(one[back].0.spec_comes_before(one[end].0));
            lemma_identities_are_ordered(id, beyond, id);
        }
        assert(one[end] == other[last]);
        lemma_without_last(one);
        lemma_without_last(other);
        let rest_one = one.drop_last();
        let rest_other = other.drop_last();
        assert forall|any: AssetId| net_amount(rest_one, any) == net_amount(rest_other, any) by {
            lemma_net_without_last(one, any);
            lemma_net_without_last(other, any);
        }
        lemma_net_amounts_fix_entries(rest_one, rest_other);
        assert(one =~= rest_one.push(one[end]));
        assert(other =~= rest_other.push(other[last]));
    }
}

/// The net amounts without the last entry: nothing under the identity of that
/// entry, and under every other identity what was there.
pub proof fn lemma_net_without_last(entries: NetAmounts, id: AssetId)
    requires
        well_formed(entries),
        entries.len() > 0,
    ensures
        net_amount(entries.drop_last(), id) == if id == entries.last().0 {
            0
        } else {
            net_amount(entries, id)
        },
{
    let rest = entries.drop_last();
    let end = entries.len() - 1;
    lemma_without_last(entries);
    lemma_entry_is_found(entries, end);
    if holds(rest, id) {
        let place = position_of(rest, id);
        lemma_entry_is_found(rest, place);
        assert(rest[place] == entries[place]);
        lemma_entry_is_found(entries, place);
        assert(entries[place].0 != entries[end].0);
    } else if holds(entries, id) {
        let place = position_of(entries, id);
        lemma_entry_is_found(entries, place);
        if place != end {
            assert(rest[place] == entries[place]);
            assert(holds(rest, id));
        }
    }
}

/// The vault delta is a matter of the net amounts alone: well-formed net
/// amounts with the same net amount under every identity give the same assets
/// that came in and the same assets that went out, in the same order.
pub proof fn lemma_net_amounts_give_one_delta(one: NetAmounts, other: NetAmounts)
    requires
        well_formed(one),
        well_formed(other),
        forall|id: AssetId| net_amount(one, id) == net_amount(other, id),
    ensures
        credits(one) == credits(other),
        debits(one) == debits(other),
{
    lemma_net_amounts_fix_entries(one, other);
}

/// Changes under two different identities can be made in either order: the
/// one order is within the limits exactly when the other is, and both leave
/// the same net amount under every identity.
pub proof fn lemma_changes_commute(entries: NetAmounts, a: AssetId, x: int, b: AssetId, y: int)
    requires
        well_formed(entries),
        a != b,
    ensures
        (changed(entries, a, x) is Some && changed(changed(entries, a, x).unwrap(), b, y) is Some)
            <==> (changed(entries, b, y) is Some && changed(changed(entries, b, y).unwrap(), a, x)
            is Some),
        changed(entries, a, x) is Some && changed(changed(entries, a, x).unwrap(), b, y) is Some
            ==> forall|id: AssetId|
            net_amount(changed(changed(entries, a, x).unwrap(), b, y).unwrap(), id) == net_amount(
                changed(changed(entries, b, y).unwrap(), a, x).unwrap(),
                id,
            ),
{
    if changed(entries, a, x) is Some {
        lemma_change_keeps_well_formed(entries, a, x);
        let first = changed(entries, a, x).unwrap();
        assert(net_amount(first, b) == net_amount(entries, b));
        if changed(first, b, y) is Some {
            lemma_change_keeps_well_formed(first, b, y);
        }
    }
    if changed(entries, b, y) is Some {
        lemma_change_keeps_well_formed(entries, b, y);
        let first = changed(entries, b, y).unwrap();
        assert(net_amount(first, a) == net_amount(entries, a));
        if changed(first, a, x) is Some {
            lemma_change_keeps_well_formed(first, a, x);
        }
    }
}

/// Adding one asset and removing another, which is not the same asset, comes
/// to the same net amounts whichever is done first, and the one order is
/// accepted exactly when the other is.
pub proof fn lemma_add_and_remove_commute(entries: NetAmounts, added: Asset, removed: Asset)
    requires
        well_formed(entries),
        !added.spec_is_same(removed),
    ensures
        (credited(entries, added) is Some && debited(credited(entries, added).unwrap(), removed)
            is Some) <==> (debited(entries, removed) is Some && credited(
            debited(entries, removed).unwrap(),
            added,
        ) is Some),
        credited(entries, added) is Some && debited(credited(entries, added).unwrap(), removed)
            is Some ==> forall|id: AssetId|
            net_amount(debited(credited(entries, added).unwrap(), removed).unwrap(), id)
                == net_amount(credited(debited(entries, removed).unwrap(), added).unwrap(), id),
{
    lemma_changes_commute(
        entries,
        added.spec_id(),
        added.spec_amount() as int,
        removed.spec_id(),
        -(removed.spec_amount() as int),
    );
}

/// Adding one asset and removing another, which is not the same asset, gives
/// one and the same vault delta whichever is done first, and whatever was
/// added and removed before and is added and removed after: the same entries
/// stand, so the same assets came in and the same assets went out, in the
/// same order.
pub proof fn lemma_add_and_remove_give_one_delta(
    entries: NetAmounts,
    added: Asset,
    removed: Asset,
)
    requires
        well_formed(entries),
        !added.spec_is_same(removed),
        credited(entries, added) is Some,
        debited(credited(entries, added).unwrap(), removed) is Some,
    ensures
        debited(entries, removed) is Some,
        credited(debited(entries, removed).unwrap(), added) is Some,
        debited(credited(entries, added).unwrap(), removed) == credited(
            debited(entries, removed).unwrap(),
            added,
        ),
{
    lemma_add_and_remove_commute(entries, added, removed);
    let a = added.spec_id();
    let b = removed.spec_id();
    let x = added.spec_amount() as int;
    let y = -(removed.spec_amount() as int);
    lemma_change_keeps_well_formed(entries, a, x);
    lemma_change_keeps_well_formed(entries, b, y);
    let first_a = with_change(entries, a, x);
    let first_b = with_change(entries, b, y);
    lemma_change_keeps_well_formed(first_a, b, y);
    lemma_change_keeps_well_formed(first_b, a, x);
    lemma_net_amounts_fix_entries(with_change(first_a, b, y), with_change(first_b, a, x));
}

/// An asset that is added and then removed again leaves every net amount as
/// it was: the removal is always accepted, and an identity that had no entry
/// before has none after. Where it had none, the entries are the same again.
pub proof fn lemma_add_then_remove_cancels(entries: NetAmounts, asset: Asset)
    requires
        well_formed(entries),
        credited(entries, asset) is Some,
    ensures
        debited(credited(entries, asset).unwrap(), asset) is Some,
        forall|id: AssetId|
            net_amount(debited(credited(entries, asset).unwrap(), asset).unwrap(), id)
                == net_amount(entries, id),
        forall|id: AssetId|
            holds(debited(credited(entries, asset).unwrap(), asset).unwrap(), id) == holds(
                entries,
                id,
            ),
        !holds(entries, asset.spec_id()) ==> debited(
            credited(entries, asset).unwrap(),
            asset,
        ).unwrap() == entries,
{
    let id = asset.spec_id();
    let amount = asset.spec_amount() as int;
    lemma_held_is_nonzero(entries, id);
    lemma_change_keeps_well_formed(entries, id, amount);
    let first = credited(entries, asset).unwrap();
    assert(net_amount(first, id) - amount == net_amount(entries, id));
    lemma_change_keeps_well_formed(first, id, -amount);
    let second = debited(first, asset).unwrap();
    assert forall|other: AssetId| holds(second, other) == holds(entries, other) by {
        lemma_held_is_nonzero(second, other);
        lemma_held_is_nonzero(entries, other);
    }
    if !holds(entries, id) {
        assert forall|other: AssetId| net_amount(second, other) == net_amount(entries, other) by {}
        lemma_net_amounts_fix_entries(second, entries);
    }
}

/// One asset of an amount above zero, added where no change was seen before,
/// is the whole of the vault delta: it is the one asset that came in, and none
/// went out.
pub proof fn lemma_one_addition_is_one_credit(asset: Asset)
    requires
        0 < asset.spec_amount() <= amount_limit(asset.spec_id()),
    ensures
        credited(Seq::<(AssetId, i64)>::empty(), asset) is Some,
        credits(credited(Seq::<(AssetId, i64)>::empty(), asset).unwrap()) == seq![asset],
        debits(credited(Seq::<(AssetId, i64)>::empty(), asset).unwrap()) == Seq::<Asset>::empty(),
{
    let none = Seq::<(AssetId, i64)>::empty();
    let id = asset.spec_id();
    assert(!holds(none, id));
    let entry = (id, asset.spec_amount() as i64);
    let after = credited(none, asset).unwrap();
    assert(place_for(none, id) == 0);
    assert(after =~= seq![entry]);
    assert(after.drop_last() =~= none);
    assert(after.last() == entry);
    reveal_with_fuel(credits, 2);
    reveal_with_fuel(debits, 2);
    assert(asset_of(id, asset.spec_amount()) == asset);
    assert(credits(after) =~= seq![asset]);
    assert(debits(after) =~= Seq::<Asset>::empty());
}

/// An identity without an entry is the identity of no asset that came in or
/// went out on balance: the vault delta does not name it.
pub proof fn lemma_unheld_is_not_in_balance(entries: NetAmounts, id: AssetId)
    requires
        well_formed(entries),
        !holds(entries, id),
    ensures
        forall|k: int|
            0 <= k < credits(entries).len() ==> (#[trigger] credits(entries)[k]).spec_id() != id,
        forall|k: int|
            0 <= k < debits(entries).len() ==> (#[trigger] debits(entries)[k]).spec_id() != id,
{
    lemma_balance_is_distinct(entries);
}

/// The identities of the assets that came in or went out on balance are
/// identities that `entries` holds, and no two of these assets share one.
proof fn lemma_balance_is_distinct(entries: NetAmounts)
    requires
        well_formed(entries),
    ensures
        forall|k: int|
            0 <= k < credits(entries).len() ==> holds(
                entries,
                (#[trigger] credits(entries)[k]).spec_id(),
            ),
        forall|k: int|
            0 <= k < debits(entries).len() ==> holds(
                entries,
                (#[trigger] debits(entries)[k]).spec_id(),
            ),
        forall|i: int, j: int|
            0 <= i < j < credits(entries).len() ==> (#[trigger] credits(entries)[i]).spec_id() != (
            #[trigger] credits(entries)[j]).spec_id(),
        forall|i: int, j: int|
            0 <= i < j < debits(entries).len() ==> (#[trigger] debits(entries)[i]).spec_id() != (
            #[trigger] debits(entries)[j]).spec_id(),
        forall|i: int, j: int|
            0 <= i < credits(entries).len() && 0 <= j < debits(entries).len() ==> (
            #[trigger] credits(entries)[i]).spec_id() != (#[trigger] debits(entries)[j]).spec_id(),
    decreases entries.len(),
{
    if entries.len() > 0 {
        let rest = entries.drop_last();
        let last = entries.last();
        let end = entries.len() - 1;
        assert(well_formed(rest)) by {
            assert forall|i: int, j: int| 0 <= i < j < rest.len() implies (#[trigger] rest[i]).0
                != (#[trigger] rest[j]).0 by {
                assert(rest[i] == entries[i] && rest[j] == entries[j]);
                assert(entries[i].0 != entries[j].0);
            }
            assert forall|i: int| 0 <= i < rest.len() implies (#[trigger] rest[i]).1 != 0
                && -amount_limit(rest[i].0) <= rest[i].1 <= amount_limit(rest[i].0) by {
                assert(rest[i] == entries[i]);
            }
        }
        lemma_balance_is_distinct(rest);
        assert forall|id: AssetId| holds(rest, id) implies holds(entries, id) && id != last.0 by {
            let place = position_of(rest, id);
            assert(rest[place] == entries[place]);
            assert(entries[place].0 != entries[end].0);
        }
        assert(entries[end].0 == last.0);
        assert(holds(entries, last.0));
        let c = credits(entries);
        let d = debits(entries);
        let rc = credits(rest);
        let rd = debits(rest);
        assert forall|k: int| 0 <= k < c.len() implies holds(
            entries,
            (#[trigger] c[k]).spec_id(),
        ) by {
            if k < rc.len() {
                assert(c[k] == rc[k]);
                assert(holds(rest, rc[k].spec_id()));
            }
        }
        assert forall|k: int| 0 <= k < d.len() implies holds(
            entries,
            (#[trigger] d[k]).spec_id(),
        ) by {
            if k < rd.len() {
                assert(d[k] == rd[k]);
                assert(holds(rest, rd[k].spec_id()));
            }
        }
        assert forall|i: int, j: int| 0 <= i < j < c.len() implies (#[trigger] c[i]).spec_id() != (
        #[trigger] c[j]).spec_id() by {
            assert(c[i] == rc[i]);
            assert(holds(rest, rc[i].spec_id()));
            if j < rc.len() {
                assert(c[j] == rc[j]);
            }
        }
        assert forall|i: int, j: int| 0 <= i < j < d.len() implies (#[trigger] d[i]).spec_id() != (
        #[trigger] d[j]).spec_id() by {
            assert(d[i] == rd[i]);
            assert(holds(rest, rd[i].spec_id()));
            if j < rd.len() {
                assert(d[j] == rd[j]);
            }
        }
        assert forall|i: int, j: int| 0 <= i < c.len() && 0 <= j < d.len() implies (
        #[trigger] c[i]).spec_id() != (#[trigger] d[j]).spec_id() by {
            if i < rc.len() {
                assert(c[i] == rc[i]);
                assert(holds(rest, rc[i].spec_id()));
            }
            if j < rd.len() {
                assert(d[j] == rd[j]);
                assert(holds(rest, rd[j].spec_id()));
            }
        }
    }
}

/// The assets of the list stand in the order of their identities.
pub open spec fn in_order(assets: Seq<Asset>) -> bool {
    forall|i: int, j: int|
        0 <= i < j < assets.len() ==> (#[trigger] assets[i]).spec_id().spec_comes_before(
            (#[trigger] assets[j]).spec_id(),
        )
}

/// The assets that came in on balance, and those that went out, stand in the
/// order of their identities.
pub proof fn lemma_balance_is_in_order(entries: NetAmounts)
    requires
        well_formed(entries),
    ensures
        in_order(credits(entries)),
        in_order(debits(entries)),
    decreases entries.len(),
{
    if entries.len() > 0 {
        let rest = entries.drop_last();
        let end = entries.len() - 1;
        lemma_without_last(entries);
        lemma_balance_is_in_order(rest);
        lemma_balance_is_distinct(rest);
        let c = credits(entries);
        let d = debits(entries);
        let rc = credits(rest);
        let rd = debits(rest);
        assert forall|id: AssetId| holds(rest, id) implies id.spec_comes_before(
            entries[end].0,
        ) by {
            let place = position_of(rest, id);
            assert(rest[place] == entries[place]);
            assert(entries[place].0.spec_comes_before(entries[end].0));
        }
        assert forall|i: int, j: int| 0 <= i < j < c.len() implies (
        #[trigger] c[i]).spec_id().spec_comes_before((#[trigger] c[j]).spec_id()) by {
            assert(c[i] == rc[i]);
            if j < rc.len() {
                assert(c[j] == rc[j]);
            } else {
                assert(holds(rest, rc[i].spec_id()));
                assert(c[j].spec_id() == entries[end].0);
            }
        }
        assert forall|i: int, j: int| 0 <= i < j < d.len() implies (
        #[trigger] d[i]).spec_id().spec_comes_before((#[trigger] d[j]).spec_id()) by {
            assert(d[i] == rd[i]);
            if j < rd.len() {
                assert(d[j] == rd[j]);
            } else {
                assert(holds(rest, rd[i].spec_id()));
                assert(d[j].spec_id() == entries[end].0);
            }
        }
    }
}

/// The assets that came in or went out on balance make a valid vault delta:
/// no two of them are the same asset.
pub proof fn lemma_balance_is_valid(entries: NetAmounts)
    requires
        well_formed(entries),
    ensures
        all_distinct(asset_ids(credits(entries) + debits(entries))),
{
    lemma_balance_is_distinct(entries);
    let c = credits(entries);
    let d = debits(entries);
    let ids = asset_ids(c + d);
    assert forall|i: int, j: int| 0 <= i < j < ids.len() implies ids[i] != ids[j] by {
        if j < c.len() {
            assert((c + d)[i] == c[i] && (c + d)[j] == c[j]);
        } else if i < c.len() {
            assert((c + d)[i] == c[i] && (c + d)[j] == d[j - c.len()]);
        } else {
            assert((c + d)[i] == d[i - c.len()] && (c + d)[j] == d[j - c.len()]);
        }
    }
}

} // verus!
