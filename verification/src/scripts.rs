//! Trusted boundary to the key-derivation and commitment-script primitives.
//!
//! The descriptor logic itself is verified over the library's own model
//! types; the elliptic-curve key derivation and the construction of the
//! commitment-bearing taproot leaf are performed by the underlying wallet
//! crates through the wrappers below.

use vstd::prelude::*;

use bpstd::Idx;
use commit_verify::CommitVerify;

use crate::descriptor::Commitment;

verus! {

/// Extended public key with derivation information, as kept inside a wallet
/// descriptor. Opaque to the verified logic: the library only carries it and
/// hands it to the derivation primitive.
#[verifier::external_type_specification]
#[verifier::external_body]
pub struct ExXpubDerivable(bpstd::XpubDerivable);

/// X-only public key produced by derivation. Opaque to the verified logic.
#[verifier::external_type_specification]
#[verifier::external_body]
pub struct ExXOnlyPk(bpstd::XOnlyPk);

/// Compressed public key produced by derivation. Opaque to the verified
/// logic.
#[verifier::external_type_specification]
#[verifier::external_body]
pub struct ExCompressedPk(bpstd::CompressedPk);

/// Taproot leaf script. Opaque to the verified logic.
#[verifier::external_type_specification]
#[verifier::external_body]
pub struct ExTapScript(bpstd::TapScript);

/// Script of one taproot tree leaf. Opaque to the verified logic.
#[verifier::external_type_specification]
#[verifier::external_body]
pub struct ExLeafScript(bpstd::LeafScript);

/// One leaf of a taproot script tree. Opaque to the verified logic.
#[verifier::external_type_specification]
#[verifier::external_body]
#[verifier::reject_recursive_types(L)]
pub struct ExLeafInfo<L>(bpstd::LeafInfo<L>);

/// Taproot script tree. Opaque to the verified logic.
#[verifier::external_type_specification]
#[verifier::external_body]
#[verifier::reject_recursive_types(L)]
pub struct ExTapTree<L>(bpstd::TapTree<L>);

/// Relies on `Xpub::derive_pub` followed by `to_xonly_pk`: BIP32 unhardened
/// derivation of the x-only public key at the (keychain, index) path.
#[verifier::external_body]
pub(crate) fn derive_xonly_key(key: &bpstd::XpubDerivable, keychain: u8, index: u32) -> (r:
    bpstd::XOnlyPk)
    requires
        index < 0x8000_0000,
{
    let k = bpstd::NormalIndex::from(keychain);
    let i = bpstd::NormalIndex::try_from_index(index).expect("index below hardened boundary");
    key.xpub().derive_pub([k, i]).to_xonly_pk()
}

/// Relies on `Xpub::derive_pub` followed by `to_compr_pk`: BIP32 unhardened
/// derivation of the compressed public key at the (keychain, index) path.
#[verifier::external_body]
pub(crate) fn derive_compr_key(key: &bpstd::XpubDerivable, keychain: u8, index: u32) -> (r:
    bpstd::CompressedPk)
    requires
        index < 0x8000_0000,
{
    let k = bpstd::NormalIndex::from(keychain);
    let i = bpstd::NormalIndex::try_from_index(index).expect("index below hardened boundary");
    key.xpub().derive_pub([k, i]).to_compr_pk()
}

/// Relies on `TapScript::commit` for tapret commitments: builds the leaf
/// script consisting of the fixed opcode prefix followed by the 33-byte
/// serialized commitment.
#[verifier::external_body]
pub(crate) fn tapret_script_commit(commitment: &Commitment) -> (r: bpstd::TapScript) {
    let tc = bp::dbc::tapret::TapretCommitment::from(commitment.bytes);
    bpstd::TapScript::commit(&tc)
}

/// Relies on `TapTree::with_single_leaf`: a script tree holding the given
/// leaf as its only element.
#[verifier::external_body]
pub(crate) fn tap_tree_single_leaf(leaf: bpstd::TapScript) -> (r: bpstd::TapTree) {
    bpstd::TapTree::with_single_leaf(leaf)
}

} // verus!
