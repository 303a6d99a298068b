//! Fixed enumeration of derivation keychains and classification helpers.
//!
//! Standard wallets use the external (0) and internal (1) keychains; the two
//! high numerals (9 and 10) are reserved for commitment-bearing paths and are
//! never produced by non-commitment wallets.

use vstd::prelude::*;

verus! {

/// Seal-closing method: how a commitment is embedded into a transaction
/// output.
#[derive(Clone, Copy, PartialEq, Eq, Structural, Debug)]
pub enum CloseMethod {
    /// Commitment placed in the first null-data (op-return) output.
    OpretFirst,
    /// Commitment placed in the first taproot output's script tree.
    TapretFirst,
}

/// One of the four fixed derivation keychains.
#[derive(Clone, Copy, PartialEq, Eq, Structural, Debug, Hash)]
pub enum RgbKeychain {
    /// Standard external (receive) keychain, numeral 0.
    External,
    /// Standard internal (change) keychain, numeral 1.
    Internal,
    /// Commitment-bearing keychain for null-data commitments, numeral 9.
    Rgb,
    /// Commitment-bearing keychain for taproot commitments, numeral 10.
    Tapret,
}

impl RgbKeychain {
    /// Numeral of the keychain as used in derivation paths.
    pub open spec fn spec_numeral(self) -> u8 {
        match self {
            RgbKeychain::External => 0,
            RgbKeychain::Internal => 1,
            RgbKeychain::Rgb => 9,
            RgbKeychain::Tapret => 10,
        }
    }

    /// Numeral of the keychain as used in derivation paths.
    pub fn numeral(self) -> (r: u8)
        ensures
            r == self.spec_numeral(),
    {
        match self {
            RgbKeychain::External => 0,
            RgbKeychain::Internal => 1,
            RgbKeychain::Rgb => 9,
            RgbKeychain::Tapret => 10,
        }
    }

    /// Whether a raw keychain numeral denotes one of the two reserved,
    /// commitment-bearing keychains.
    pub fn contains_rgb(keychain: u8) -> (r: bool)
        ensures
            r == (keychain == 9 || keychain == 10),
    {
        keychain == 9 || keychain == 10
    }

    /// Whether this keychain carries single-use seals (is commitment-bearing).
    pub fn is_seal(self) -> (r: bool)
        ensures
            r == (self == RgbKeychain::Rgb || self == RgbKeychain::Tapret),
    {
        self == RgbKeychain::Rgb || self == RgbKeychain::Tapret
    }

    /// Total mapping from a seal-closing method to the keychain reserved for
    /// it.
    pub fn for_method(method: CloseMethod) -> (r: RgbKeychain)
        ensures
            method == CloseMethod::OpretFirst ==> r == RgbKeychain::Rgb,
            method == CloseMethod::TapretFirst ==> r == RgbKeychain::Tapret,
            r.is_seal_spec(),
    {
        match method {
            CloseMethod::OpretFirst => RgbKeychain::Rgb,
            CloseMethod::TapretFirst => RgbKeychain::Tapret,
        }
    }

    /// Whether this keychain carries single-use seals, as a specification.
    pub open spec fn is_seal_spec(self) -> bool {
        self == RgbKeychain::Rgb || self == RgbKeychain::Tapret
    }

    /// Parses a keychain from its numeral. Only the two standard keychains
    /// are accepted; the reserved numerals and all others are rejected, as a
    /// non-commitment wallet must never construct them from bare numbers.
    pub fn from_standard_numeral(numeral: u8) -> (r: Option<RgbKeychain>)
        ensures
            numeral == 0 ==> r == Some(RgbKeychain::External),
            numeral == 1 ==> r == Some(RgbKeychain::Internal),
            numeral != 0 && numeral != 1 ==> r is None,
    {
        if numeral == 0 {
            Some(RgbKeychain::External)
        } else if numeral == 1 {
            Some(RgbKeychain::Internal)
        } else {
            None
        }
    }
}

} // verus!
