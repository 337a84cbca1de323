//! Events which a transaction kernel may emit, and their 32-bit wire codes.
//!
//! A kernel event identifier keeps the value 2 in its upper 16 bits; the lower
//! 16 bits number the event within the kernel. Codes are only ever appended.

use vstd::prelude::*;
use vstd::std_specs::convert::TryFromSpecImpl;

verus! {

/// Wire code of [`TransactionEvent::AddAssetToAccountVault`].
pub const ADD_ASSET_TO_ACCOUNT_VAULT: u32 = 0x2_0000;

/// Wire code of [`TransactionEvent::RemoveAssetFromAccountVault`].
pub const REMOVE_ASSET_FROM_ACCOUNT_VAULT: u32 = 0x2_0001;

/// Wire code of [`TransactionEvent::PushAccountProcedureIndex`].
pub const PUSH_ACCOUNT_PROCEDURE_INDEX: u32 = 0x2_0002;

/// Events which may be emitted by a transaction kernel.
#[derive(Debug, Clone, Copy, PartialEq, Eq, Structural)]
pub enum TransactionEvent {
    AddAssetToAccountVault,
    RemoveAssetFromAccountVault,
    PushAccountProcedureIndex,
}

/// Why a 32-bit value is not the code of a transaction kernel event.
#[derive(Debug, Clone, Copy, PartialEq, Eq, Structural)]
pub enum TransactionEventParsingError {
    /// The upper 16 bits are the kernel's prefix, the value is no known code.
    InvalidTransactionEvent(u32),
    /// The upper 16 bits are not the kernel's prefix.
    NotTransactionEvent(u32),
}

impl TransactionEvent {
    /// Value of the top 16 bits of a transaction kernel event identifier.
    pub const EVENT_ID_PREFIX: u16 = 2;

    /// The wire code of an event.
    pub open spec fn spec_id(self) -> u32 {
        match self {
            TransactionEvent::AddAssetToAccountVault => ADD_ASSET_TO_ACCOUNT_VAULT,
            TransactionEvent::RemoveAssetFromAccountVault => REMOVE_ASSET_FROM_ACCOUNT_VAULT,
            TransactionEvent::PushAccountProcedureIndex => PUSH_ACCOUNT_PROCEDURE_INDEX,
        }
    }

    /// What decoding a 32-bit value gives: the prefix is looked at first, then
    /// the discriminant in the lower 16 bits.
    pub open spec fn decode(value: u32) -> Result<TransactionEvent, TransactionEventParsingError> {
        if value >> 16 != TransactionEvent::EVENT_ID_PREFIX {
            Err(TransactionEventParsingError::NotTransactionEvent(value))
        } else if value & 0xFFFF == 0 {
            Ok(TransactionEvent::AddAssetToAccountVault)
        } else if value & 0xFFFF == 1 {
            Ok(TransactionEvent::RemoveAssetFromAccountVault)
        } else if value & 0xFFFF == 2 {
            Ok(TransactionEvent::PushAccountProcedureIndex)
        } else {
            Err(TransactionEventParsingError::InvalidTransactionEvent(value))
        }
    }

    /// The name of an event, as it is printed.
    pub open spec fn spec_name(self) -> Seq<char> {
        match self {
            TransactionEvent::AddAssetToAccountVault => "AddAssetToAccountVault"@,
            TransactionEvent::RemoveAssetFromAccountVault => "RemoveAssetFromAccountVault"@,
            TransactionEvent::PushAccountProcedureIndex => "PushAccountProcedureIndex"@,
        }
    }

    /// Returns the 32-bit code under which the kernel emits this event.
    pub fn id(&self) -> (code: u32)
        ensures
            code == self.spec_id(),
            code >> 16 == TransactionEvent::EVENT_ID_PREFIX,
            TransactionEvent::decode(code) == Ok::<TransactionEvent, TransactionEventParsingError>(
                *self,
            ),
    {
        proof {
            lemma_decode_inverts_id(*self);
        }
        match self {
            TransactionEvent::AddAssetToAccountVault => ADD_ASSET_TO_ACCOUNT_VAULT,
            TransactionEvent::RemoveAssetFromAccountVault => REMOVE_ASSET_FROM_ACCOUNT_VAULT,
            TransactionEvent::PushAccountProcedureIndex => PUSH_ACCOUNT_PROCEDURE_INDEX,
        }
    }

    /// Returns the name of this event.
    pub fn name(&self) -> (text: String)
        ensures
            text@ == self.spec_name(),
    {
        match self {
            TransactionEvent::AddAssetToAccountVault => "AddAssetToAccountVault".to_string(),
            TransactionEvent::RemoveAssetFromAccountVault => {
                "RemoveAssetFromAccountVault".to_string()
            },
            TransactionEvent::PushAccountProcedureIndex => "PushAccountProcedureIndex".to_string(),
        }
    }
}

impl TryFrom<u32> for TransactionEvent {
    type Error = TransactionEventParsingError;

    /// Decodes a 32-bit event identifier: the result is
    /// [`TransactionEvent::decode`] of the value.
    fn try_from(value: u32) -> (decoded: Result<TransactionEvent, TransactionEventParsingError>) {
        if value >> 16 != TransactionEvent::EVENT_ID_PREFIX as u32 {
            return Err(TransactionEventParsingError::NotTransactionEvent(value));
        }
        proof {
            lemma_codes_by_discriminant(value);
        }
        if value == ADD_ASSET_TO_ACCOUNT_VAULT {
            Ok(TransactionEvent::AddAssetToAccountVault)
        } else if value == REMOVE_ASSET_FROM_ACCOUNT_VAULT {
            Ok(TransactionEvent::RemoveAssetFromAccountVault)
        } else if value == PUSH_ACCOUNT_PROCEDURE_INDEX {
            Ok(TransactionEvent::PushAccountProcedureIndex)
        } else {
            Err(TransactionEventParsingError::InvalidTransactionEvent(value))
        }
    }
}

impl TryFromSpecImpl<u32> for TransactionEvent {
    open spec fn obeys_try_from_spec() -> bool {
        true
    }

    open spec fn try_from_spec(value: u32) -> Result<
        TransactionEvent,
        TransactionEventParsingError,
    > {
        TransactionEvent::decode(value)
    }
}

/// Under the kernel's prefix, a value is a known code exactly when its lower
/// 16 bits are that code's discriminant.
pub proof fn lemma_codes_by_discriminant(value: u32)
    requires
        value >> 16 == 2,
    ensures
        value == ADD_ASSET_TO_ACCOUNT_VAULT <==> value & 0xFFFF == 0,
        value == REMOVE_ASSET_FROM_ACCOUNT_VAULT <==> value & 0xFFFF == 1,
        value == PUSH_ACCOUNT_PROCEDURE_INDEX <==> value & 0xFFFF == 2,
{
    assert(value >> 16 == 2 ==> (value == 0x2_0000u32 <==> value & 0xFFFF == 0)) by (bit_vector);
    assert(value >> 16 == 2 ==> (value == 0x2_0001u32 <==> value & 0xFFFF == 1)) by (bit_vector);
    assert(value >> 16 == 2 ==> (value == 0x2_0002u32 <==> value & 0xFFFF == 2)) by (bit_vector);
}

/// A value whose upper 16 bits are not the kernel's prefix is no transaction
/// event, whatever its lower bits.
pub proof fn lemma_foreign_prefix_rejected(value: u32)
    requires
        value >> 16 != 2,
    ensures
        TransactionEvent::decode(value) == Err::<TransactionEvent, TransactionEventParsingError>(
            TransactionEventParsingError::NotTransactionEvent(value),
        ),
{
}

/// A value under the kernel's prefix whose lower 16 bits are none of the known
/// discriminants is an invalid transaction event.
pub proof fn lemma_unknown_discriminant_rejected(value: u32)
    requires
        value >> 16 == 2,
        value & 0xFFFF != 0,
        value & 0xFFFF != 1,
        value & 0xFFFF != 2,
    ensures
        TransactionEvent::decode(value) == Err::<TransactionEvent, TransactionEventParsingError>(
            TransactionEventParsingError::InvalidTransactionEvent(value),
        ),
{
}

/// Decoding inverts encoding: every event is decoded from its own code, and
/// every code carries the kernel's prefix.
pub proof fn lemma_decode_inverts_id(event: TransactionEvent)
    ensures
        event.spec_id() >> 16 == TransactionEvent::EVENT_ID_PREFIX,
        TransactionEvent::decode(event.spec_id()) == Ok::<
            TransactionEvent,
            TransactionEventParsingError,
        >(event),
{
    assert(0x2_0000u32 >> 16 == 2 && 0x2_0000u32 & 0xFFFF == 0) by (bit_vector);
    assert(0x2_0001u32 >> 16 == 2 && 0x2_0001u32 & 0xFFFF == 1) by (bit_vector);
    assert(0x2_0002u32 >> 16 == 2 && 0x2_0002u32 & 0xFFFF == 2) by (bit_vector);
}

/// Distinct events have distinct codes.
pub proof fn lemma_codes_are_distinct(a: TransactionEvent, b: TransactionEvent)
    requires
        a.spec_id() == b.spec_id(),
    ensures
        a == b,
{
}

} // verus!
