//! Commitment-and-transfer core of a client-side-validated smart-contract
//! protocol layered on Bitcoin-style transactions.
//!
//! The library derives wallet output scripts able to carry single-use
//! cryptographic commitments, selects prior outputs (coins) sufficient to
//! satisfy a payment request, builds the unsigned transaction skeleton
//! embedding those commitments, and finalizes the transfer by recording the
//! realized commitment and emitting per-contract transfer artifacts.
//!
//! The contract inventory (schema resolution, state queries, state-transition
//! batches) and the generic transaction constructor are external
//! collaborators: the functions here take their answers as plain values and
//! are verified for every possible answer. Cryptographic primitives (BIP32
//! key derivation, tapret leaf-script construction) are reached through the
//! trusted wrappers in [`scripts`].

use vstd::prelude::*;

pub mod compose;
pub mod descriptor;
pub mod invoice;
pub mod keychain;
pub mod scripts;
pub mod selection;
pub mod skeleton;
pub mod transfer;

verus! {

/// A derivation terminal: one (keychain, index) derivation path.
#[derive(Clone, Copy, PartialEq, Eq, Structural, Debug, Hash)]
pub struct Terminal {
    /// Keychain numeral (0, 1, 9 or 10).
    pub keychain: u8,
    /// Derivation index under the keychain.
    pub index: u32,
}

impl Terminal {
    pub fn new(keychain: u8, index: u32) -> (r: Terminal)
        ensures
            r == (Terminal { keychain, index }),
    {
        Terminal { keychain, index }
    }
}

/// Transaction identifier, as a plain stand-in value. The embedding
/// application maps real transaction hashes to and from these identifiers.
#[derive(Clone, Copy, PartialEq, Eq, Structural, Debug, Hash)]
pub struct Txid {
    pub val: u128,
}

/// A previous transaction output: the binding site ("seal") for
/// contract-owned state.
#[derive(Clone, Copy, PartialEq, Eq, Structural, Debug, Hash)]
pub struct Outpoint {
    pub txid: Txid,
    pub vout: u32,
}

/// Contract identifier, as a plain stand-in value.
#[derive(Clone, Copy, PartialEq, Eq, Structural, Debug, Hash)]
pub struct ContractId {
    pub val: u128,
}

/// Interned name of an interface, operation or assignment type. The
/// embedding application maps real names to and from these identifiers.
#[derive(Clone, Copy, PartialEq, Eq, Structural, Debug, Hash)]
pub struct Ident {
    pub id: u64,
}

/// A blinded single-use seal: opaque to this layer, carried through into the
/// transfer artifacts unchanged.
#[derive(Clone, Copy, PartialEq, Eq, Structural, Debug, Hash)]
pub struct SecretSeal {
    pub val: u128,
}

/// Class of an output script.
#[derive(Clone, Copy, PartialEq, Eq, Structural, Debug, Hash)]
pub enum SpkClass {
    P2pkh,
    P2sh,
    P2wpkh,
    P2wsh,
    P2tr,
    /// Null-data (data-carrying, unspendable) output.
    OpReturn,
    Other,
}

/// An output script, reduced to what the composition logic reads of it: its
/// class and its identity. The embedding application maps real script bodies
/// to and from the identity values.
#[derive(Clone, Copy, PartialEq, Eq, Structural, Debug, Hash)]
pub struct Script {
    pub class: SpkClass,
    pub body: u64,
}

impl Script {
    /// Whether the script is a taproot output script.
    pub open spec fn spec_is_p2tr(self) -> bool {
        self.class == SpkClass::P2tr
    }

    /// Whether the script is a taproot output script.
    pub fn is_p2tr(&self) -> (r: bool)
        ensures
            r == self.spec_is_p2tr(),
    {
        self.class == SpkClass::P2tr
    }

    /// The empty null-data script appended for non-taproot commitment hosts.
    pub fn op_return_empty() -> (r: Script)
        ensures
            r == (Script { class: SpkClass::OpReturn, body: 0 }),
    {
        Script { class: SpkClass::OpReturn, body: 0 }
    }
}

} // verus!
