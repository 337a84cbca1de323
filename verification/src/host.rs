//! The host side of a kernel run.
//!
//! While the kernel runs it emits events, and the host answers each before
//! the run goes on: it sums up what happens to the account's vault, and it
//! looks up the index of an account procedure. An event that the host cannot
//! make sense of ends the run.

use vstd::prelude::*;

use crate::account_delta::AccountVaultDelta;
use crate::asset::{asset_from_word, Asset};
use crate::events::{TransactionEvent, TransactionEventParsingError};
use crate::vault_delta::{
    credited, credits, debited, debits, in_order, well_formed, AccountVaultDeltaTracker,
    NetAmounts, VaultDeltaError,
};
use crate::word::{words_equal, Word};

verus! {

/// What the run has to do for the kernel after an event was handled.
#[derive(Clone, Copy, Debug, PartialEq, Eq)]
pub enum HostResponse {
    /// Nothing: the run goes on.
    Proceed,
    /// The index of the requested procedure is to be pushed for the kernel.
    PushProcedureIndex(u64),
}

/// Why an event ended the run.
#[derive(Clone, Copy, Debug, PartialEq, Eq)]
pub enum TransactionHostError {
    /// The event identifier is not one of the kernel's.
    InvalidEvent(TransactionEventParsingError),
    /// The word that came with a vault event describes no asset.
    InvalidAsset(Word),
    /// The asset cannot have been added to or removed from any vault.
    InvalidVaultUpdate(VaultDeltaError),
    /// The account has no procedure with this root.
    UnknownProcedure(Word),
}

/// The first place at which `procedures` holds `root`, if it holds it.
pub open spec fn procedure_index(procedures: Seq<Word>, root: Word) -> Option<int> {
    if exists|i: int| 0 <= i < procedures.len() && procedures[i] == root {
        Some(first_index(procedures, root))
    } else {
        None
    }
}

/// The least place at which `procedures` holds `root`.
pub open spec fn first_index(procedures: Seq<Word>, root: Word) -> int {
    choose|i: int|
        0 <= i < procedures.len() && procedures[i] == root && forall|j: int|
            0 <= j < i ==> procedures[j] != root
}

/// What handling an event comes to: the answer, and the net amounts after it.
/// An event that fails leaves the net amounts as they were.
pub open spec fn handled(
    procedures: Seq<Word>,
    entries: NetAmounts,
    event_id: u32,
    word: Word,
) -> (Result<HostResponse, TransactionHostError>, NetAmounts) {
    match TransactionEvent::decode(event_id) {
        Err(error) => (Err(TransactionHostError::InvalidEvent(error)), entries),
        Ok(TransactionEvent::AddAssetToAccountVault) => match Asset::spec_from_word(word) {
            None => (Err(TransactionHostError::InvalidAsset(word)), entries),
            Some(asset) => match credited(entries, asset) {
                None => (
                    Err(
                        TransactionHostError::InvalidVaultUpdate(
                            VaultDeltaError::NetAmountOutOfRange(asset),
                        ),
                    ),
                    entries,
                ),
                Some(after) => (Ok(HostResponse::Proceed), after),
            },
        },
        Ok(TransactionEvent::RemoveAssetFromAccountVault) => match Asset::spec_from_word(word) {
            None => (Err(TransactionHostError::InvalidAsset(word)), entries),
            Some(asset) => match debited(entries, asset) {
                None => (
                    Err(
                        TransactionHostError::InvalidVaultUpdate(
                            VaultDeltaError::NetAmountOutOfRange(asset),
                        ),
                    ),
                    entries,
                ),
                Some(after) => (Ok(HostResponse::Proceed), after),
            },
        },
        Ok(TransactionEvent::PushAccountProcedureIndex) => match procedure_index(procedures, word) {
            None => (Err(TransactionHostError::UnknownProcedure(word)), entries),
            Some(index) => (Ok(HostResponse::PushProcedureIndex(index as u64)), entries),
        },
    }
}

/// The procedures that an account exposes, each found by its root.
#[derive(Debug)]
pub struct AccountProcedureIndexMap {
    procedures: Vec<Word>,
}

impl AccountProcedureIndexMap {
    /// The roots of the procedures, in the order of their indices.
    pub closed spec fn procedures(&self) -> Seq<Word> {
        self.procedures@
    }

    /// Returns the map for an account with the given procedure roots.
    pub fn new(procedures: Vec<Word>) -> (map: AccountProcedureIndexMap)
        ensures
            map.procedures() == procedures@,
    {
        AccountProcedureIndexMap { procedures }
    }

    /// Returns the index of the procedure with the given root: the first, if
    /// several have it, and nothing if none has.
    pub fn get_proc_index(&self, root: &Word) -> (index: Option<u64>)
        ensures
            match procedure_index(self.procedures(), *root) {
                Some(place) => index == Some(place as u64) && 0 <= place < self.procedures().len()
                    && self.procedures()[place] == *root,
                None => index is None,
            },
    {
        let mut place: usize = 0;
        while place < self.procedures.len()
            invariant
                place <= self.procedures@.len(),
                forall|j: int| 0 <= j < place ==> self.procedures@[j] != *root,
            decreases self.procedures@.len() - place,
        {
            if words_equal(&self.procedures[place], root) {
                proof {
                    let first = first_index(self.procedures@, *root);
                    assert(first == place) by {
                        if first < place {
                            assert(self.procedures@[first] != *root);
                        }
                    }
                }
                return Some(place as u64);
            }
            place = place + 1;
        }
        None
    }
}

/// The host of one kernel run: the procedures of the account that the
/// transaction runs against, and the changes to its vault so far.
#[derive(Debug)]
pub struct TransactionHost {
    account_procedures: AccountProcedureIndexMap,
    vault_delta: AccountVaultDeltaTracker,
}

impl TransactionHost {
    /// The roots of the account's procedures.
    pub closed spec fn procedures(&self) -> Seq<Word> {
        self.account_procedures.procedures()
    }

    /// The net amounts that the run has added to and removed from the vault.
    pub closed spec fn net_amounts(&self) -> NetAmounts {
        self.vault_delta.net_amounts()
    }

    /// Returns a host for a run against an account with the given procedures.
    /// No change to the vault has been seen yet.
    pub fn new(procedures: Vec<Word>) -> (host: TransactionHost)
        ensures
            host.procedures() == procedures@,
            host.net_amounts() == Seq::<(crate::asset::AssetId, i64)>::empty(),
            well_formed(host.net_amounts()),
    {
        TransactionHost {
            account_procedures: AccountProcedureIndexMap::new(procedures),
            vault_delta: AccountVaultDeltaTracker::new(),
        }
    }

    /// Handles one event of the kernel. `word` is the word that the kernel
    /// left on top of its stack for the event: an asset for a vault event, a
    /// procedure root for a procedure lookup.
    ///
    /// An error ends the run; the host is then as it was before the event.
    pub fn on_event(&mut self, event_id: u32, word: &Word) -> (response: Result<
        HostResponse,
        TransactionHostError,
    >)
        ensures
            final(self).procedures() == old(self).procedures(),
            (response, final(self).net_amounts()) == handled(
                old(self).procedures(),
                old(self).net_amounts(),
                event_id,
                *word,
            ),
            well_formed(old(self).net_amounts()),
            well_formed(final(self).net_amounts()),
    {
        self.vault_delta.net_amounts_are_well_formed();
        let event = match TransactionEvent::try_from(event_id) {
            Ok(event) => event,
            Err(error) => {
                return Err(TransactionHostError::InvalidEvent(error));
            },
        };
        match event {
            TransactionEvent::AddAssetToAccountVault => {
                let asset = match asset_from_word(word) {
                    Some(asset) => asset,
                    None => {
                        return Err(TransactionHostError::InvalidAsset(*word));
                    },
                };
                match self.vault_delta.add_asset(&asset) {
                    Ok(()) => Ok(HostResponse::Proceed),
                    Err(error) => Err(TransactionHostError::InvalidVaultUpdate(error)),
                }
            },
            TransactionEvent::RemoveAssetFromAccountVault => {
                let asset = match asset_from_word(word) {
                    Some(asset) => asset,
                    None => {
                        return Err(TransactionHostError::InvalidAsset(*word));
                    },
                };
                match self.vault_delta.remove_asset(&asset) {
                    Ok(()) => Ok(HostResponse::Proceed),
                    Err(error) => Err(TransactionHostError::InvalidVaultUpdate(error)),
                }
            },
            TransactionEvent::PushAccountProcedureIndex => {
                match self.account_procedures.get_proc_index(word) {
                    Some(index) => Ok(HostResponse::PushProcedureIndex(index)),
                    None => Err(TransactionHostError::UnknownProcedure(*word)),
                }
            },
        }
    }

    /// Ends the run on the host's side and hands out the vault delta that the
    /// events came to.
    pub fn into_vault_delta(self) -> (delta: AccountVaultDelta)
        ensures
            delta.added_assets@ == credits(self.net_amounts()),
            delta.removed_assets@ == debits(self.net_amounts()),
            delta.is_valid(),
            well_formed(self.net_amounts()),
            in_order(delta.added_assets@),
            in_order(delta.removed_assets@),
    {
        self.vault_delta.net_amounts_are_well_formed();
        self.vault_delta.into_vault_delta()
    }
}

} // verus!
