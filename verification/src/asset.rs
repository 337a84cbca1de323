//! Assets as the kernel describes them to the host: one word each.
//!
//! A fungible asset names its faucet in the last element and its amount in the
//! first; a non-fungible asset is a commitment whose second element names its
//! faucet. The two cannot be confused: the top bit of the last element is set
//! for a fungible asset and clear for a non-fungible one.

use miden_objects::{Felt, StarkField};
use vstd::prelude::*;

use crate::word::{canonical_word, words_equal, Word};

verus! {

/// The largest amount that a fungible asset can hold, 2^63 - 1.
pub const MAX_FUNGIBLE_AMOUNT: u64 = 0x7FFF_FFFF_FFFF_FFFF;

/// The least number of one bits in a valid account identifier.
pub const MIN_ACCOUNT_ONES: u64 = 5;

/// A fungible or a non-fungible asset.
#[derive(Clone, Copy, Debug, PartialEq, Eq)]
pub enum Asset {
    /// An amount of what the faucet `faucet_id` issues.
    Fungible { faucet_id: u64, amount: u64 },
    /// The commitment to one non-fungible asset.
    NonFungible { word: Word },
}

/// What makes two vault entries entries for the same asset: the faucet of a
/// fungible asset, the whole word of a non-fungible one.
#[derive(Clone, Copy, Debug, PartialEq, Eq)]
pub enum AssetId {
    Fungible { faucet_id: u64 },
    NonFungible { word: Word },
}

/// The number of one bits in the binary form of `value`.
pub open spec fn count_ones(value: u64) -> nat
    decreases value,
{
    if value == 0 {
        0
    } else {
        (value % 2) as nat + count_ones(value / 2)
    }
}

/// An account identifier is valid when it has enough one bits.
pub open spec fn is_account_id(value: u64) -> bool {
    count_ones(value) >= MIN_ACCOUNT_ONES
}

/// The order of identities is a strict order: no identity comes before
/// itself, of two different identities exactly one comes before the other,
/// and what comes before an identity comes before all that this one comes
/// before.
pub proof fn lemma_identities_are_ordered(a: AssetId, b: AssetId, c: AssetId)
    ensures
        !a.spec_comes_before(a),
        a != b ==> (a.spec_comes_before(b) || b.spec_comes_before(a)),
        !(a.spec_comes_before(b) && b.spec_comes_before(a)),
        a.spec_comes_before(b) && b.spec_comes_before(c) ==> a.spec_comes_before(c),
{
    match (a, b) {
        (AssetId::NonFungible { word: v }, AssetId::NonFungible { word: w }) => {
            if v[0] == w[0] && v[1] == w[1] && v[2] == w[2] && v[3] == w[3] {
                assert(v =~= w);
            }
        },
        _ => {},
    }
}

impl AssetId {
    /// The order of identities: the faucets of fungible assets by their
    /// identifiers, then the non-fungible assets by their words, element by
    /// element.
    pub open spec fn spec_comes_before(self, other: AssetId) -> bool {
        match (self, other) {
            (AssetId::Fungible { faucet_id: a }, AssetId::Fungible { faucet_id: b }) => a < b,
            (AssetId::Fungible { faucet_id }, AssetId::NonFungible { word }) => true,
            (AssetId::NonFungible { word }, AssetId::Fungible { faucet_id }) => false,
            (AssetId::NonFungible { word: a }, AssetId::NonFungible { word: b }) => {
                ||| a[0] < b[0]
                ||| a[0] == b[0] && a[1] < b[1]
                ||| a[0] == b[0] && a[1] == b[1] && a[2] < b[2]
                ||| a[0] == b[0] && a[1] == b[1] && a[2] == b[2] && a[3] < b[3]
            },
        }
    }

    /// Tells whether this identity comes before another in the order of
    /// identities.
    pub fn comes_before(&self, other: &AssetId) -> (before: bool)
        ensures
            before == self.spec_comes_before(*other),
    {
        match (self, other) {
            (AssetId::Fungible { faucet_id: a }, AssetId::Fungible { faucet_id: b }) => *a < *b,
            (AssetId::Fungible { faucet_id }, AssetId::NonFungible { word }) => true,
            (AssetId::NonFungible { word }, AssetId::Fungible { faucet_id }) => false,
            (AssetId::NonFungible { word: a }, AssetId::NonFungible { word: b }) => {
                a[0] < b[0] || (a[0] == b[0] && (a[1] < b[1] || (a[1] == b[1] && (a[2] < b[2] || (
                a[2] == b[2] && a[3] < b[3])))))
            },
        }
    }

    /// Tells whether two identities are the same.
    pub fn equals(&self, other: &AssetId) -> (same: bool)
        ensures
            same == (*self == *other),
    {
        match (self, other) {
            (AssetId::Fungible { faucet_id: a }, AssetId::Fungible { faucet_id: b }) => *a == *b,
            (AssetId::NonFungible { word: a }, AssetId::NonFungible { word: b }) => words_equal(
                a,
                b,
            ),
            _ => false,
        }
    }
}

impl Asset {
    /// The asset that a word describes, if it describes one. The elements are
    /// read as field elements first.
    ///
    /// With the top bit of the last element set, the word must be a fungible
    /// asset: two zero elements in the middle, a fungible faucet's identifier
    /// (top two bits `10`) in the last element, and an amount of at most
    /// [`MAX_FUNGIBLE_AMOUNT`] in the first. Otherwise it must be a
    /// non-fungible asset: its second element is a non-fungible faucet's
    /// identifier (top two bits `11`).
    pub open spec fn spec_from_word(word: Word) -> Option<Asset> {
        let w = canonical_word(word);
        if w[3] >> 63 == 1 {
            if w[1] == 0 && w[2] == 0 && is_account_id(w[3]) && w[3] >> 62 == 2 && w[0]
                <= MAX_FUNGIBLE_AMOUNT {
                Some(Asset::Fungible { faucet_id: w[3], amount: w[0] })
            } else {
                None
            }
        } else {
            if is_account_id(w[1]) && w[1] >> 62 == 3 {
                Some(Asset::NonFungible { word: w })
            } else {
                None
            }
        }
    }

    /// The identity of an asset.
    pub open spec fn spec_id(self) -> AssetId {
        match self {
            Asset::Fungible { faucet_id, amount } => AssetId::Fungible { faucet_id },
            Asset::NonFungible { word } => AssetId::NonFungible { word },
        }
    }

    /// How much of its identity an asset is: its amount if it is fungible,
    /// one if it is not.
    pub open spec fn spec_amount(self) -> u64 {
        match self {
            Asset::Fungible { faucet_id, amount } => amount,
            Asset::NonFungible { word } => 1,
        }
    }

    /// Two assets are the same if they are fungible assets of one faucet, or
    /// one and the same non-fungible asset.
    pub open spec fn spec_is_same(self, other: Asset) -> bool {
        self.spec_id() == other.spec_id()
    }

    /// The word that describes an asset.
    pub open spec fn spec_word(self) -> Word {
        match self {
            Asset::Fungible { faucet_id, amount } => [amount, 0u64, 0u64, faucet_id],
            Asset::NonFungible { word } => word,
        }
    }

    /// An asset is valid when the word that describes it describes this very
    /// asset: its faucet is a faucet of its kind, its amount is within the
    /// largest amount, and its elements are integers below the field modulus.
    pub open spec fn spec_is_valid(self) -> bool {
        Asset::spec_from_word(self.spec_word()) == Some(self)
    }

    /// Returns the word that describes this asset.
    pub fn word(&self) -> (word: Word)
        ensures
            word == self.spec_word(),
    {
        match self {
            Asset::Fungible { faucet_id, amount } => [*amount, 0, 0, *faucet_id],
            Asset::NonFungible { word } => *word,
        }
    }

    /// Tells whether this asset is the same as another in every part.
    pub fn equals(&self, other: &Asset) -> (same: bool)
        ensures
            same == (*self == *other),
    {
        match (self, other) {
            (
                Asset::Fungible { faucet_id: a, amount: x },
                Asset::Fungible { faucet_id: b, amount: y },
            ) => *a == *b && *x == *y,
            (Asset::NonFungible { word: a }, Asset::NonFungible { word: b }) => words_equal(a, b),
            _ => false,
        }
    }

    /// Tells whether this asset is valid, by reading it back from the word
    /// that describes it.
    pub fn is_valid(&self) -> (valid: bool)
        ensures
            valid == self.spec_is_valid(),
    {
        match asset_from_word(&self.word()) {
            Some(read) => read.equals(self),
            None => false,
        }
    }

    /// Returns the identity of this asset.
    pub fn id(&self) -> (id: AssetId)
        ensures
            id == self.spec_id(),
    {
        match self {
            Asset::Fungible { faucet_id, amount } => AssetId::Fungible { faucet_id: *faucet_id },
            Asset::NonFungible { word } => AssetId::NonFungible { word: *word },
        }
    }

    /// Returns the amount of this asset: one for a non-fungible asset.
    pub fn amount(&self) -> (amount: u64)
        ensures
            amount == self.spec_amount(),
    {
        match self {
            Asset::Fungible { faucet_id, amount } => *amount,
            Asset::NonFungible { word } => 1,
        }
    }

    /// Tells whether this asset is the same asset as another.
    pub fn is_same(&self, other: &Asset) -> (same: bool)
        ensures
            same == self.spec_is_same(*other),
    {
        self.id().equals(&other.id())
    }

    /// Tells whether this asset is fungible.
    pub fn is_fungible(&self) -> (fungible: bool)
        ensures
            fungible == (*self is Fungible),
    {
        match self {
            Asset::Fungible { faucet_id, amount } => true,
            Asset::NonFungible { word } => false,
        }
    }
}

/// Calls `Asset::try_from` of `miden_objects` on a word, and hands the asset
/// out as plain values. The contract restates the checks that the conversion
/// makes; the error that says which check failed is dropped.
#[verifier::external_body]
pub(crate) fn asset_from_word(word: &Word) -> (asset: Option<Asset>)
    ensures
        asset == Asset::spec_from_word(*word),
{
    match miden_objects::assets::Asset::try_from(word.map(Felt::new)) {
        Ok(miden_objects::assets::Asset::Fungible(asset)) => Some(
            Asset::Fungible { faucet_id: asset.faucet_id().into(), amount: asset.amount() },
        ),
        Ok(miden_objects::assets::Asset::NonFungible(asset)) => Some(
            Asset::NonFungible { word: asset.vault_key().map(|element| element.as_int()) },
        ),
        Err(_) => None,
    }
}

} // verus!
