//! Composition of the unsigned transaction skeleton for a set of invoices.
//!
//! Composition runs in phases around the two external collaborators (the
//! transaction constructor and the contract inventory): first the invoices
//! are validated and prior outputs selected ([`prepare_composition`]); the
//! constructor then builds the raw skeleton; next the commitment host is
//! tagged and the outputs are deterministically reordered
//! ([`place_commitment_hosts`]); the inventory then composes the
//! state-transition batch; finally the batch is embedded into the tagged
//! hosts ([`embed_batch`]). A failed composition returns no skeleton.

use vstd::prelude::*;

use crate::descriptor::Commitment;
use crate::invoice::{Beneficiary, Iface, InvoiceState, RgbInvoice, spec_resolution};
use crate::keychain::{CloseMethod, RgbKeychain};
use crate::selection::{FungibleAllocation, select_seals, total_amount, contains_outpoint};
use crate::skeleton::{
    Output, PsbtMeta, TxSkeleton, all_unhosted, is_tapret_candidate, lemma_all_unflagged_filter,
    lemma_single_host_filter,
};
use crate::{Outpoint, Script};

verus! {

/// Errors of transaction composition. Wrapped collaborator failures are
/// carried by the embedding application, not by this layer.
#[derive(Clone, Copy, PartialEq, Eq, Structural, Debug)]
pub enum CompositionError {
    /// The invoice names no contract.
    NoContract,
    /// The invoice names no interface.
    NoIface,
    /// Neither the invoice nor the interface gives an operation.
    NoOperation,
    /// Neither the invoice nor the interface's operation gives an assignment
    /// type.
    NoAssignment,
    /// The owned state recognized for the contract does not cover the
    /// requested amount.
    InsufficientState,
    /// The invoice's expiry lies in the past.
    InvoiceExpired,
    /// The batch requires a taproot commitment host and the skeleton has
    /// none.
    TapretRequired,
    /// The invoice requests an owned-state kind other than a fungible
    /// amount.
    Unsupported,
}

/// Parameters of the transaction construction request.
#[derive(Clone, Copy, PartialEq, Eq, Structural, Debug)]
pub struct TxParams {
    /// Miner fee, in satoshis.
    pub fee: u64,
    /// Keychain the change output derives under.
    pub change_keychain: RgbKeychain,
}

impl TxParams {
    pub fn with(fee: u64) -> (r: TxParams)
        ensures
            r == (TxParams { fee, change_keychain: RgbKeychain::Internal }),
    {
        TxParams { fee, change_keychain: RgbKeychain::Internal }
    }
}

/// Parameters of a transfer: the fee policy and the minimum value given to
/// each witness beneficiary output.
#[derive(Clone, Copy, PartialEq, Eq, Structural, Debug)]
pub struct TransferParams {
    pub tx: TxParams,
    pub min_amount: u64,
}

impl TransferParams {
    pub fn with(fee: u64, min_amount: u64) -> (r: TransferParams)
        ensures
            r == (TransferParams { tx: TxParams { fee, change_keychain: RgbKeychain::Internal }, min_amount }),
    {
        TransferParams { tx: TxParams::with(fee), min_amount }
    }
}

/// The state-transition batch as the embedder reads it: which commitment
/// methods it closes seals under, and the commitment payload to embed.
#[derive(Clone, Copy, PartialEq, Eq, Debug)]
pub struct Batch {
    /// The batch closes seals under the taproot method.
    pub needs_tapret: bool,
    /// The batch closes seals under the null-data method.
    pub needs_opret: bool,
    /// The commitment payload.
    pub commitment: Commitment,
}

/// One witness beneficiary of the transaction request: the script it pays to
/// and the value it receives.
#[derive(Clone, Copy, PartialEq, Eq, Structural, Debug)]
pub struct TxBeneficiary {
    pub script: Script,
    pub amount: u64,
}

/// Everything the transaction constructor needs: the union of the selected
/// prior outputs, the witness beneficiaries, and the change keychain
/// matching the descriptor's closing method.
#[derive(PartialEq, Eq, Debug)]
pub struct CompositionPlan {
    /// Union of all invoices' selected prior outputs; no duplicates.
    pub prev_outpoints: Vec<Outpoint>,
    /// Witness beneficiaries, in invoice order.
    pub beneficiaries: Vec<TxBeneficiary>,
    /// Keychain for the change output: the commitment-bearing keychain of
    /// the closing method.
    pub change_keychain: RgbKeychain,
}

/// Why composition rejects one invoice, if it does: a resolution failure, an
/// unsupported owned-state kind, or insufficient recognized state.
pub open spec fn spec_invoice_failure(
    invoice: RgbInvoice,
    iface: &Iface,
    listing: Seq<FungibleAllocation>,
    now: i64,
) -> Option<CompositionError> {
    match spec_resolution(invoice, iface, now) {
        Err(e) => Some(e),
        Ok(_) => match invoice.owned_state {
            InvoiceState::Amount(amount) => if total_amount(listing) >= amount {
                None
            } else {
                Some(CompositionError::InsufficientState)
            },
            InvoiceState::Other => Some(CompositionError::Unsupported),
        },
    }
}

/// Witness beneficiaries of the invoices, in order, each given the minimum
/// amount.
pub open spec fn spec_beneficiaries(invoices: Seq<RgbInvoice>, min_amount: u64) -> Seq<
    TxBeneficiary,
>
    decreases invoices.len(),
{
    if invoices.len() == 0 {
        Seq::empty()
    } else {
        let rest = spec_beneficiaries(invoices.drop_last(), min_amount);
        match invoices.last().beneficiary {
            Beneficiary::WitnessVout(script) => rest.push(TxBeneficiary { script, amount: min_amount }),
            Beneficiary::BlindedSeal(_) => rest,
        }
    }
}

/// Some listing allocates state at the outpoint.
pub open spec fn outpoint_in_listings(listings: Seq<Vec<FungibleAllocation>>, p: Outpoint) -> bool {
    exists|i: int, k: int|
        0 <= i < listings.len() && 0 <= k < listings[i]@.len() && (#[trigger] listings[i]@[k]).seal
            == p
}

/// Validates every invoice and selects the prior outputs backing it.
///
/// Each invoice is resolved against its interface view, its requested amount
/// is covered greedily from the fungible state listed for it, and the chosen
/// seals of all invoices are united, without duplicates, into one
/// construction request. The change keychain is the commitment-bearing
/// keychain of the descriptor's closing method. Fails with the first
/// invoice's failure, in invoice order; on failure nothing is selected.
pub fn prepare_composition(
    invoices: &Vec<RgbInvoice>,
    ifaces: &Vec<Iface>,
    listings: &Vec<Vec<FungibleAllocation>>,
    method: CloseMethod,
    params: &TransferParams,
    now: i64,
) -> (r: Result<CompositionPlan, CompositionError>)
    requires
        ifaces@.len() == invoices@.len(),
        listings@.len() == invoices@.len(),
        forall|i: int|
            0 <= i < listings@.len() ==> total_amount((#[trigger] listings@[i])@) <= u64::MAX,
    ensures
        r is Ok <==> forall|i: int|
            0 <= i < invoices@.len() ==> spec_invoice_failure(
                (#[trigger] invoices@[i]),
                &ifaces@[i],
                listings@[i]@,
                now,
            ) is None,
        r matches Err(e) ==> exists|i: int|
            0 <= i < invoices@.len() && spec_invoice_failure(
                (#[trigger] invoices@[i]),
                &ifaces@[i],
                listings@[i]@,
                now,
            ) == Some(e) && forall|j: int|
                0 <= j < i ==> spec_invoice_failure(
                    (#[trigger] invoices@[j]),
                    &ifaces@[j],
                    listings@[j]@,
                    now,
                ) is None,
        r matches Ok(plan) ==> {
            &&& plan.change_keychain == (match method {
                CloseMethod::OpretFirst => RgbKeychain::Rgb,
                CloseMethod::TapretFirst => RgbKeychain::Tapret,
            })
            &&& plan.beneficiaries@ == spec_beneficiaries(invoices@, params.min_amount)
            &&& crate::selection::outpoints_unique(plan.prev_outpoints@)
            &&& forall|p: int|
                0 <= p < plan.prev_outpoints@.len() ==> outpoint_in_listings(
                    listings@,
                    (#[trigger] plan.prev_outpoints@[p]),
                )
        },
{
    let mut prev_outpoints: Vec<Outpoint> = Vec::new();
    let mut beneficiaries: Vec<TxBeneficiary> = Vec::new();
    let mut i: usize = 0;
    while i < invoices.len()
        invariant
            ifaces@.len() == invoices@.len(),
            listings@.len() == invoices@.len(),
            forall|i2: int|
                0 <= i2 < listings@.len() ==> total_amount((#[trigger] listings@[i2])@)
                    <= u64::MAX,
            i <= invoices@.len(),
            forall|j: int|
                0 <= j < i ==> spec_invoice_failure(
                    (#[trigger] invoices@[j]),
                    &ifaces@[j],
                    listings@[j]@,
                    now,
                ) is None,
            beneficiaries@ == spec_beneficiaries(invoices@.subrange(0, i as int), params.min_amount),
            crate::selection::outpoints_unique(prev_outpoints@),
            forall|p: int|
                0 <= p < prev_outpoints@.len() ==> outpoint_in_listings(
                    listings@,
                    (#[trigger] prev_outpoints@[p]),
                ),
        decreases invoices@.len() - i,
    {
        proof {
            assert(invoices@.subrange(0, i as int + 1).drop_last() =~= invoices@.subrange(
                0,
                i as int,
            ));
        }
        let invoice = &invoices[i];
        match crate::invoice::resolve_invoice_terms(invoice, &ifaces[i], now) {
            Ok(_) => {},
            Err(e) => {
                return Err(e);
            },
        }
        match invoice.owned_state {
            InvoiceState::Amount(amount) => {
                match select_seals(&listings[i], amount) {
                    Ok(seals) => {
                        let mut s: usize = 0;
                        while s < seals.len()
                            invariant
                                0 <= i < listings@.len(),
                                s <= seals@.len(),
                                forall|j: int| #![trigger seals@[j]]
                                    0 <= j < seals@.len() ==> exists|k: int|
                                        0 <= k < listings@[i as int]@.len() && (#[trigger] listings@[i as int]@[k]).seal == seals@[j],
                                crate::selection::outpoints_unique(prev_outpoints@),
                                forall|p: int|
                                    0 <= p < prev_outpoints@.len() ==> outpoint_in_listings(
                                        listings@,
                                        (#[trigger] prev_outpoints@[p]),
                                    ),
                            decreases seals@.len() - s,
                        {
                            if !contains_outpoint(&prev_outpoints, seals[s]) {
                                proof {
                                    let k = choose|k: int|
                                        0 <= k < listings@[i as int]@.len() && (#[trigger] listings@[i as int]@[k]).seal == seals@[s as int];
                                    assert(listings@[i as int]@[k].seal == seals@[s as int]);
                                }
                                prev_outpoints.push(seals[s]);
                            }
                            s = s + 1;
                        }
                    },
                    Err(e) => {
                        return Err(e);
                    },
                }
            },
            InvoiceState::Other => {
                return Err(CompositionError::Unsupported);
            },
        }
        match invoice.beneficiary {
            Beneficiary::WitnessVout(script) => {
                beneficiaries.push(TxBeneficiary { script, amount: params.min_amount });
            },
            Beneficiary::BlindedSeal(_) => {},
        }
        i = i + 1;
    }
    proof {
        assert(invoices@.subrange(0, invoices@.len() as int) =~= invoices@);
    }
    let change_keychain = RgbKeychain::for_method(method);
    Ok(CompositionPlan { prev_outpoints, beneficiaries, change_keychain })
}

/// The sequence holds the output somewhere.
pub open spec fn outputs_hold(src: Seq<Output>, o: Output) -> bool {
    exists|k2: int| 0 <= k2 < src.len() && (#[trigger] src[k2]) == o
}

/// Every output of the partitioned sequence comes from the source sequence.
pub proof fn lemma_partition_provenance(src: Seq<Output>, dst: Seq<Output>)
    requires
        dst =~= src.filter(|o: Output| !o.tapret_host) + src.filter(|o: Output| o.tapret_host),
    ensures
        forall|k: int| #![trigger dst[k]] 0 <= k < dst.len() ==> outputs_hold(src, dst[k]),
{
    broadcast use vstd::seq_lib::group_filter_ensures;

    let nh = src.filter(|o: Output| !o.tapret_host);
    let h = src.filter(|o: Output| o.tapret_host);
    assert forall|k: int| #![trigger dst[k]] 0 <= k < dst.len() implies outputs_hold(
        src,
        dst[k],
    ) by {
        if k < nh.len() {
            assert(nh.contains(nh[k]));
            src.lemma_filter_contains_rev(|o: Output| !o.tapret_host, nh[k]);
            let i = choose|i: int| 0 <= i < src.len() && src[i] == nh[k];
            assert(src[i] == dst[k]);
        } else {
            assert(h.contains(h[k - nh.len()]));
            src.lemma_filter_contains_rev(|o: Output| o.tapret_host, h[k - nh.len()]);
            let i = choose|i: int| 0 <= i < src.len() && src[i] == h[k - nh.len()];
            assert(src[i] == dst[k]);
        }
    }
}

/// The null-data host flag stays clear across the partition.
pub proof fn lemma_partition_keeps_unhosted(src: Seq<Output>, dst: Seq<Output>)
    requires
        dst =~= src.filter(|o: Output| !o.tapret_host) + src.filter(|o: Output| o.tapret_host),
        forall|k: int| 0 <= k < src.len() ==> !(#[trigger] src[k]).opret_host,
    ensures
        forall|k: int| 0 <= k < dst.len() ==> !(#[trigger] dst[k]).opret_host,
{
    lemma_partition_provenance(src, dst);
    assert forall|k: int| 0 <= k < dst.len() implies !(#[trigger] dst[k]).opret_host by {
        assert(outputs_hold(src, dst[k]));
        let k2 = choose|k2: int| 0 <= k2 < src.len() && (#[trigger] src[k2]) == dst[k];
    }
}

/// Scripts present among the source outputs stay present after the
/// partition.
pub proof fn lemma_scripts_survive(src: Seq<Output>, dst: Seq<Output>, scripts: Seq<Script>)
    requires
        dst =~= src.filter(|o: Output| !o.tapret_host) + src.filter(|o: Output| o.tapret_host),
        forall|b: int| #![trigger scripts[b]]
            0 <= b < scripts.len() ==> exists|k: int|
                0 <= k < src.len() && (#[trigger] src[k]).script == scripts[b],
    ensures
        forall|b: int| #![trigger scripts[b]]
            0 <= b < scripts.len() ==> exists|k: int|
                0 <= k < dst.len() && (#[trigger] dst[k]).script == scripts[b],
{
    assert forall|b: int| #![trigger scripts[b]]
        0 <= b < scripts.len() implies exists|k: int|
        0 <= k < dst.len() && (#[trigger] dst[k]).script == scripts[b] by {
        let k0 = choose|k0: int|
            0 <= k0 < src.len() && (#[trigger] src[k0]).script == scripts[b];
        lemma_membership_carries(src, dst, k0);
        let k1 = choose|k1: int| 0 <= k1 < dst.len() && (#[trigger] dst[k1]) == src[k0];
        assert(dst[k1].script == scripts[b]);
    }
}

/// Tags the taproot commitment host, deterministically reorders the outputs
/// so that every non-host output precedes the host, and re-resolves the
/// change index and the witness beneficiaries' output indices by script
/// equality.
///
/// When some output qualifies as host, afterwards exactly one output is
/// tagged and it stands behind every untagged output. The change index, when
/// the constructor reported one, afterwards again points at an output with
/// the change output's script.
#[verifier::rlimit(100)]
pub fn place_commitment_hosts(
    skeleton: &mut TxSkeleton,
    meta: &mut PsbtMeta,
    beneficiary_scripts: &Vec<Script>,
) -> (r: Vec<usize>)
    requires
        old(skeleton).modifiable,
        all_unhosted(old(skeleton).outputs@),
        forall|b: int| #![trigger beneficiary_scripts@[b]]
            0 <= b < beneficiary_scripts@.len() ==> exists|k: int|
                0 <= k < old(skeleton).outputs@.len() && (#[trigger] old(skeleton).outputs@[k]).script == beneficiary_scripts@[b],
    ensures
        final(skeleton).modifiable,
        final(skeleton).inputs@ == old(skeleton).inputs@,
        final(skeleton).outputs@.len() == old(skeleton).outputs@.len(),
        forall|k: int|
            0 <= k < final(skeleton).outputs@.len() ==> !(#[trigger] final(skeleton).outputs@[k]).opret_host,
        (exists|j: int|
            0 <= j < old(skeleton).outputs@.len() && is_tapret_candidate(
                (#[trigger] old(skeleton).outputs@[j]),
                beneficiary_scripts@,
            )) ==> final(skeleton).outputs@.len() > 0 && final(skeleton).outputs@.last().tapret_host
            && forall|k: int|
            0 <= k < final(skeleton).outputs@.len() - 1 ==> !(#[trigger] final(skeleton).outputs@[k]).tapret_host,
        !(exists|j: int|
            0 <= j < old(skeleton).outputs@.len() && is_tapret_candidate(
                (#[trigger] old(skeleton).outputs@[j]),
                beneficiary_scripts@,
            )) ==> final(skeleton).outputs@ == old(skeleton).outputs@,
        match old(meta).change_vout {
            Some(v) => if v < old(skeleton).outputs@.len() {
                final(meta).change_vout matches Some(w) && w < final(skeleton).outputs@.len()
                    && final(skeleton).outputs@[w as int].script
                    == old(skeleton).outputs@[v as int].script
            } else {
                *final(meta) == *old(meta)
            },
            None => *final(meta) == *old(meta),
        },
        r@.len() == beneficiary_scripts@.len(),
        forall|b: int|
            0 <= b < r@.len() ==> r@[b] < final(skeleton).outputs@.len() && (#[trigger] final(skeleton).outputs@[r@[b] as int]).script == beneficiary_scripts@[b],
{
    let ghost orig = skeleton.outputs@;
    let tagged = skeleton.tag_tapret_host(beneficiary_scripts);
    let ghost tagged_outputs = skeleton.outputs@;
    let ghost mut change_idx: int = 0;
    let change_script: Option<Script> = match meta.change_vout {
        Some(v) => if v < skeleton.outputs.len() {
            proof {
                change_idx = v as int;
            }
            Some(skeleton.outputs[v].script)
        } else {
            None
        },
        None => None,
    };
    skeleton.sort_outputs_by_host();
    proof {
        broadcast use vstd::seq_lib::group_filter_ensures;

        match tagged {
            Some(j) => {
                lemma_single_host_filter(tagged_outputs, j as int);
                assert(skeleton.outputs@ =~= tagged_outputs.filter(|o: Output| !o.tapret_host)
                    + seq![tagged_outputs[j as int]]);
            },
            None => {
                lemma_all_unflagged_filter(tagged_outputs);
                assert(skeleton.outputs@ =~= tagged_outputs);
            },
        }
        lemma_partition_keeps_unhosted(tagged_outputs, skeleton.outputs@);
        assert forall|b: int| #![trigger beneficiary_scripts@[b]]
            0 <= b < beneficiary_scripts@.len() implies exists|k: int|
            0 <= k < tagged_outputs.len() && (#[trigger] tagged_outputs[k]).script
                == beneficiary_scripts@[b] by {
            let k0 = choose|k0: int|
                0 <= k0 < orig.len() && (#[trigger] orig[k0]).script == beneficiary_scripts@[b];
            assert(tagged_outputs[k0].script == beneficiary_scripts@[b]);
        }
        lemma_scripts_survive(tagged_outputs, skeleton.outputs@, beneficiary_scripts@);
    }
    match change_script {
        Some(cs) => {
            proof {
                assert(tagged_outputs[change_idx].script == cs);
                lemma_membership_carries(tagged_outputs, skeleton.outputs@, change_idx);
            }
            match skeleton.find_script_vout(cs) {
                Some(w) => {
                    meta.change_vout = Some(w);
                },
                None => {
                    proof {
                        assert(false);
                    }
                },
            }
        },
        None => {},
    }
    let mut vouts: Vec<usize> = Vec::new();
    let mut b: usize = 0;
    while b < beneficiary_scripts.len()
        invariant
            b <= beneficiary_scripts@.len(),
            vouts@.len() == b,
            forall|x: int|
                0 <= x < b ==> vouts@[x] < skeleton.outputs@.len() && (#[trigger] skeleton.outputs@[vouts@[x] as int]).script == beneficiary_scripts@[x],
            forall|x: int| #![trigger beneficiary_scripts@[x]]
                0 <= x < beneficiary_scripts@.len() ==> exists|k: int|
                    0 <= k < skeleton.outputs@.len() && (#[trigger] skeleton.outputs@[k]).script
                        == beneficiary_scripts@[x],
        decreases beneficiary_scripts@.len() - b,
    {
        match skeleton.find_script_vout(beneficiary_scripts[b]) {
            Some(w) => {
                vouts.push(w);
            },
            None => {
                proof {
                    assert(false);
                }
            },
        }
        b = b + 1;
    }
    vouts
}

/// The partition is a permutation: the element at any index of the source
/// sequence reappears somewhere in the reordered sequence.
pub proof fn lemma_membership_carries(source: Seq<Output>, reordered: Seq<Output>, v: int)
    requires
        0 <= v < source.len(),
        reordered =~= source.filter(|o: Output| !o.tapret_host) + source.filter(
            |o: Output| o.tapret_host,
        ),
    ensures
        exists|k: int| 0 <= k < reordered.len() && (#[trigger] reordered[k]) == source[v],
{
    broadcast use vstd::seq_lib::group_filter_ensures;

    let nh = source.filter(|o: Output| !o.tapret_host);
    let h = source.filter(|o: Output| o.tapret_host);
    if source[v].tapret_host {
        source.lemma_filter_contains(|o: Output| o.tapret_host, v);
        let k = choose|k: int| 0 <= k < h.len() && h[k] == source[v];
        assert(reordered[nh.len() + k] == source[v]);
    } else {
        source.lemma_filter_contains(|o: Output| !o.tapret_host, v);
        let k = choose|k: int| 0 <= k < nh.len() && nh[k] == source[v];
        assert(reordered[k] == source[v]);
    }
}

/// Writes the batch's commitment payload into the tagged host outputs: the
/// taproot host receives it under the script-leaf method, the null-data host
/// directly. Embedding is all-or-nothing: if the taproot method is required
/// and no host is tagged, the skeleton is left untouched.
pub fn embed_batch(skeleton: &mut TxSkeleton, batch: &Batch) -> (r: Result<(), CompositionError>)
    requires
        batch.needs_opret ==> exists|k: int|
            0 <= k < old(skeleton).outputs@.len() && (#[trigger] old(skeleton).outputs@[k]).opret_host,
        forall|k: int|
            0 <= k < old(skeleton).outputs@.len() ==> !((#[trigger] old(skeleton).outputs@[k]).tapret_host && old(skeleton).outputs@[k].opret_host),
    ensures
        final(skeleton).inputs@ == old(skeleton).inputs@,
        final(skeleton).modifiable == old(skeleton).modifiable,
        r is Ok <==> (batch.needs_tapret ==> exists|k: int|
            0 <= k < old(skeleton).outputs@.len() && (#[trigger] old(skeleton).outputs@[k]).tapret_host),
        r is Err ==> r == Err::<(), CompositionError>(CompositionError::TapretRequired) && *final(skeleton) == *old(skeleton),
        r is Ok ==> final(skeleton).outputs@.len() == old(skeleton).outputs@.len() && forall|
            k: int,
        |
            0 <= k < old(skeleton).outputs@.len() ==> (#[trigger] final(skeleton).outputs@[k]) == (
            if batch.needs_tapret && old(skeleton).outputs@[k].tapret_host && (forall|k2: int|
                0 <= k2 < k ==> !(#[trigger] old(skeleton).outputs@[k2]).tapret_host) {
                Output {
                    tapret_commitment: Some(batch.commitment),
                    ..old(skeleton).outputs@[k]
                }
            } else if batch.needs_opret && old(skeleton).outputs@[k].opret_host && (forall|k2: int|
                0 <= k2 < k ==> !(#[trigger] old(skeleton).outputs@[k2]).opret_host) {
                Output { opret_commitment: Some(batch.commitment), ..old(skeleton).outputs@[k] }
            } else {
                old(skeleton).outputs@[k]
            }),
{
    let tapret_index: Option<usize> = if batch.needs_tapret {
        match skeleton.find_tapret_host() {
            Some(j) => Some(j),
            None => {
                return Err(CompositionError::TapretRequired);
            },
        }
    } else {
        None
    };
    let opret_index: Option<usize> = if batch.needs_opret {
        match skeleton.find_opret_host() {
            Some(h) => Some(h),
            None => {
                proof {
                    assert(false);
                }
                None
            },
        }
    } else {
        None
    };
    match tapret_index {
        Some(j) => {
            let updated = Output {
                tapret_commitment: Some(Commitment { bytes: batch.commitment.bytes }),
                ..skeleton.outputs[j]
            };
            skeleton.outputs.set(j, updated);
        },
        None => {},
    }
    match opret_index {
        Some(h) => {
            let updated = Output {
                opret_commitment: Some(Commitment { bytes: batch.commitment.bytes }),
                ..skeleton.outputs[h]
            };
            skeleton.outputs.set(h, updated);
        },
        None => {},
    }
    Ok(())
}

} // verus!
