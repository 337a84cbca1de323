//! Field elements and words as plain integers.
//!
//! A field element is held as the integer below the field modulus that stands
//! for it; a word is four field elements.

use vstd::prelude::*;

verus! {

/// Four field elements: a storage value, a digest, an asset.
pub type Word = [u64; 4];

/// The modulus of the base field, 2^64 - 2^32 + 1.
pub const FIELD_MODULUS: u64 = 0xFFFF_FFFF_0000_0001;

/// The integer below the modulus that an integer stands for as a field element.
pub open spec fn canonical(value: u64) -> u64 {
    (value % FIELD_MODULUS) as u64
}

/// A word with each element replaced by the integer below the modulus that it
/// stands for.
pub open spec fn canonical_word(word: Word) -> Word {
    [canonical(word[0]), canonical(word[1]), canonical(word[2]), canonical(word[3])]
}

/// The word whose elements are all zero.
pub open spec fn spec_empty_word() -> Word {
    [0u64, 0u64, 0u64, 0u64]
}

/// Returns the word whose elements are all zero: the value of an empty slot.
pub fn empty_word() -> (word: Word)
    ensures
        word == spec_empty_word(),
{
    [0, 0, 0, 0]
}

/// Tells whether two words hold the same elements.
pub fn words_equal(a: &Word, b: &Word) -> (same: bool)
    ensures
        same == (*a == *b),
{
    let same = a[0] == b[0] && a[1] == b[1] && a[2] == b[2] && a[3] == b[3];
    assert(same ==> *a =~= *b);
    same
}

/// Tells whether two words stand for the same field elements.
pub fn same_elements(a: &Word, b: &Word) -> (same: bool)
    ensures
        same == (canonical_word(*a) == canonical_word(*b)),
{
    let same = a[0] % FIELD_MODULUS == b[0] % FIELD_MODULUS && a[1] % FIELD_MODULUS == b[1]
        % FIELD_MODULUS && a[2] % FIELD_MODULUS == b[2] % FIELD_MODULUS && a[3] % FIELD_MODULUS
        == b[3] % FIELD_MODULUS;
    assert(same ==> canonical_word(*a) =~= canonical_word(*b));
    assert(!same ==> canonical_word(*a) != canonical_word(*b)) by {
        if !same {
            assert(canonical_word(*a)[0] == canonical(a[0]));
            assert(canonical_word(*a)[1] == canonical(a[1]));
            assert(canonical_word(*a)[2] == canonical(a[2]));
            assert(canonical_word(*a)[3] == canonical(a[3]));
            assert(canonical_word(*b)[0] == canonical(b[0]));
            assert(canonical_word(*b)[1] == canonical(b[1]));
            assert(canonical_word(*b)[2] == canonical(b[2]));
            assert(canonical_word(*b)[3] == canonical(b[3]));
        }
    }
    same
}

} // verus!
