//! Finalization of a transfer: recording the realized commitment into the
//! descriptor and emitting per-contract transfer artifacts.
//!
//! After the caller externally signs and completes the skeleton, the realized
//! taproot commitment is recovered from the tagged host output and recorded
//! write-once into the descriptor; then the invoices are grouped by contract,
//! each witness beneficiary's realized seal is resolved by script match among
//! the finalized outputs, and one artifact per contract is emitted.

use vstd::prelude::*;

use crate::descriptor::{Commitment, DescriptorRgb};
use crate::invoice::{Beneficiary, RgbInvoice};
use crate::keychain::CloseMethod;
use crate::skeleton::{Output, TxSkeleton};
use crate::{ContractId, SecretSeal, Script, Txid};

verus! {

/// Errors of transfer completion.
#[derive(Clone, Copy, PartialEq, Eq, Structural, Debug)]
pub enum CompletionError {
    /// An invoice names no contract.
    NoContract,
    /// A witness beneficiary's script matches no finalized output.
    NoBeneficiaryOutput,
    /// The taproot host output or its derivation terminal cannot be
    /// unambiguously recovered.
    InconclusiveDerivation,
    /// The taproot host carries no embedded commitment.
    NoCommitment,
    /// The host's terminal already carries a commitment in the descriptor.
    MultipleTweaks,
}

/// The realized seal of a witness beneficiary: an output of the finalized
/// transaction.
#[derive(Clone, Copy, PartialEq, Eq, Structural, Debug)]
pub struct WitnessSeal {
    /// The method under which the seal will be closed.
    pub method: CloseMethod,
    /// The finalized transaction.
    pub txid: Txid,
    /// The matched output index.
    pub vout: usize,
}

/// Per-contract transfer artifact: all the contract's beneficiaries of both
/// kinds.
pub struct Transfer {
    pub contract_id: ContractId,
    /// Blinded seals, passed through unchanged, in invoice order.
    pub blinded: Vec<SecretSeal>,
    /// Realized witness seals, in invoice order.
    pub witness: Vec<WitnessSeal>,
}

/// Records the realized taproot commitment into the descriptor, write-once.
///
/// When the batch carried no taproot commitment there is nothing to record.
/// Otherwise the first tagged host output must exist, carry its derivation
/// terminal and its embedded commitment; a collision with an existing tweak
/// is surfaced instead of overwriting.
pub fn record_tapret_tweak<D: DescriptorRgb>(
    descriptor: &mut D,
    skeleton: &TxSkeleton,
    has_tapret: bool,
) -> (r: Result<(), CompletionError>)
    requires
        old(descriptor).wf(),
        old(descriptor).tapret_capable(),
    ensures
        final(descriptor).wf(),
        final(descriptor).tapret_capable(),
        final(descriptor).close_method_spec() == old(descriptor).close_method_spec(),
        !has_tapret ==> r == Ok::<(), CompletionError>(()) && *final(descriptor) == *old(
            descriptor,
        ),
        has_tapret ==> match first_tapret_host(skeleton.outputs@) {
            None => r == Err::<(), CompletionError>(CompletionError::InconclusiveDerivation)
                && *final(descriptor) == *old(descriptor),
            Some(host) => {
                match (host.terminal, host.tapret_commitment) {
                    (None, _) => r == Err::<(), CompletionError>(
                        CompletionError::InconclusiveDerivation,
                    ) && *final(descriptor) == *old(descriptor),
                    (Some(_), None) => r == Err::<(), CompletionError>(
                        CompletionError::NoCommitment,
                    ) && *final(descriptor) == *old(descriptor),
                    (Some(terminal), Some(commitment)) => {
                        if old(descriptor).tweaks_map().contains_key(terminal) {
                            r == Err::<(), CompletionError>(CompletionError::MultipleTweaks)
                                && *final(descriptor) == *old(descriptor)
                        } else {
                            r == Ok::<(), CompletionError>(()) && final(descriptor).tweaks_map()
                                == old(descriptor).tweaks_map().insert(terminal, commitment.bytes@)
                        }
                    },
                }
            },
        },
{
    if !has_tapret {
        return Ok(());
    }
    let host = match skeleton.find_tapret_host() {
        Some(j) => {
            proof {
                lemma_first_tapret_host_some(skeleton.outputs@, j as int);
            }
            skeleton.outputs[j]
        },
        None => {
            proof {
                lemma_first_tapret_host_none(skeleton.outputs@);
            }
            return Err(CompletionError::InconclusiveDerivation);
        },
    };
    let terminal = match host.terminal {
        Some(t) => t,
        None => {
            return Err(CompletionError::InconclusiveDerivation);
        },
    };
    let commitment = match host.tapret_commitment {
        Some(c) => c,
        None => {
            return Err(CompletionError::NoCommitment);
        },
    };
    match descriptor.add_tapret_tweak(terminal, commitment) {
        Ok(()) => Ok(()),
        Err(_) => Err(CompletionError::MultipleTweaks),
    }
}

/// The first output tagged as taproot commitment host.
pub open spec fn first_tapret_host(outputs: Seq<Output>) -> Option<Output>
    decreases outputs.len(),
{
    if outputs.len() == 0 {
        None
    } else if outputs.first().tapret_host {
        Some(outputs.first())
    } else {
        first_tapret_host(outputs.drop_first())
    }
}

/// Blinded seals of the contract's invoices, in invoice order.
pub open spec fn blinded_of(invoices: Seq<RgbInvoice>, c: ContractId) -> Seq<SecretSeal>
    decreases invoices.len(),
{
    if invoices.len() == 0 {
        Seq::empty()
    } else {
        let rest = blinded_of(invoices.drop_last(), c);
        if invoices.last().contract == Some(c) {
            match invoices.last().beneficiary {
                Beneficiary::BlindedSeal(s) => rest.push(s),
                Beneficiary::WitnessVout(_) => rest,
            }
        } else {
            rest
        }
    }
}

/// Scripts of the contract's witness beneficiaries, in invoice order.
pub open spec fn witness_scripts_of(invoices: Seq<RgbInvoice>, c: ContractId) -> Seq<Script>
    decreases invoices.len(),
{
    if invoices.len() == 0 {
        Seq::empty()
    } else {
        let rest = witness_scripts_of(invoices.drop_last(), c);
        if invoices.last().contract == Some(c) {
            match invoices.last().beneficiary {
                Beneficiary::WitnessVout(s) => rest.push(s),
                Beneficiary::BlindedSeal(_) => rest,
            }
        } else {
            rest
        }
    }
}

/// The realized witness seals match the contract's witness scripts one for
/// one: same transaction, the method given, and an output carrying the
/// script.
pub open spec fn witness_matches(
    witness: Seq<WitnessSeal>,
    scripts: Seq<Script>,
    outputs: Seq<Output>,
    txid: Txid,
    method: CloseMethod,
) -> bool {
    &&& witness.len() == scripts.len()
    &&& forall|w: int|
        0 <= w < witness.len() ==> (#[trigger] witness[w]).txid == txid && witness[w].method
            == method && witness[w].vout < outputs.len() && outputs[witness[w].vout as int].script
            == scripts[w]
}

/// Why completion rejects one invoice, if it does.
pub open spec fn spec_transfer_failure(invoice: RgbInvoice, outputs: Seq<Output>) -> Option<
    CompletionError,
> {
    if invoice.contract is None {
        Some(CompletionError::NoContract)
    } else {
        match invoice.beneficiary {
            Beneficiary::WitnessVout(s) => if exists|k: int|
                0 <= k < outputs.len() && (#[trigger] outputs[k]).script == s {
                None
            } else {
                Some(CompletionError::NoBeneficiaryOutput)
            },
            Beneficiary::BlindedSeal(_) => None,
        }
    }
}

/// Some invoice among the first `n` names the contract.
pub open spec fn contract_from_invoices(invoices: Seq<RgbInvoice>, n: int, c: ContractId) -> bool {
    exists|i2: int|
        0 <= i2 < n && i2 < invoices.len() && (#[trigger] invoices[i2]).contract == Some(c)
}

/// A contract named among the first `n` invoices is named among the first
/// `m`, for n below m.
pub proof fn lemma_contract_from_monotone(invoices: Seq<RgbInvoice>, n: int, m: int, c: ContractId)
    requires
        contract_from_invoices(invoices, n, c),
        n <= m,
    ensures
        contract_from_invoices(invoices, m, c),
{
    let i2 = choose|i2: int|
        0 <= i2 < n && i2 < invoices.len() && (#[trigger] invoices[i2]).contract == Some(c);
    assert(0 <= i2 < m && i2 < invoices.len() && invoices[i2].contract == Some(c));
}

/// Some transfer artifact belongs to the contract.
pub open spec fn transfers_have_contract(transfers: Seq<Transfer>, c: ContractId) -> bool {
    exists|j: int| 0 <= j < transfers.len() && (#[trigger] transfers[j]).contract_id == c
}

/// One step of the per-contract beneficiary lists.
pub proof fn lemma_grouping_step(invoices: Seq<RgbInvoice>, n: int, c: ContractId)
    requires
        0 <= n < invoices.len(),
    ensures
        blinded_of(invoices.subrange(0, n + 1), c) == {
            let rest = blinded_of(invoices.subrange(0, n), c);
            if invoices[n].contract == Some(c) {
                match invoices[n].beneficiary {
                    Beneficiary::BlindedSeal(s) => rest.push(s),
                    Beneficiary::WitnessVout(_) => rest,
                }
            } else {
                rest
            }
        },
        witness_scripts_of(invoices.subrange(0, n + 1), c) == {
            let rest = witness_scripts_of(invoices.subrange(0, n), c);
            if invoices[n].contract == Some(c) {
                match invoices[n].beneficiary {
                    Beneficiary::WitnessVout(s) => rest.push(s),
                    Beneficiary::BlindedSeal(_) => rest,
                }
            } else {
                rest
            }
        },
{
    assert(invoices.subrange(0, n + 1).drop_last() =~= invoices.subrange(0, n));
    assert(invoices.subrange(0, n + 1).last() == invoices[n]);
}

/// A contract never invoiced has empty beneficiary lists.
pub proof fn lemma_grouping_absent(invoices: Seq<RgbInvoice>, c: ContractId)
    requires
        forall|k: int| 0 <= k < invoices.len() ==> (#[trigger] invoices[k]).contract != Some(c),
    ensures
        blinded_of(invoices, c) == Seq::<SecretSeal>::empty(),
        witness_scripts_of(invoices, c) == Seq::<Script>::empty(),
    decreases invoices.len(),
{
    if invoices.len() > 0 {
        assert(forall|k: int|
            0 <= k < invoices.drop_last().len() ==> (#[trigger] invoices.drop_last()[k]).contract
                != Some(c));
        lemma_grouping_absent(invoices.drop_last(), c);
    }
}

/// The first flagged output by index is the first host.
pub proof fn lemma_first_tapret_host_some(outputs: Seq<Output>, j: int)
    requires
        0 <= j < outputs.len(),
        outputs[j].tapret_host,
        forall|k: int| 0 <= k < j ==> !(#[trigger] outputs[k]).tapret_host,
    ensures
        first_tapret_host(outputs) == Some(outputs[j]),
    decreases outputs.len(),
{
    if j == 0 {
    } else {
        assert(forall|k: int|
            0 <= k < j - 1 ==> !(#[trigger] outputs.drop_first()[k]).tapret_host);
        assert(outputs.drop_first()[j - 1] == outputs[j]);
        lemma_first_tapret_host_some(outputs.drop_first(), j - 1);
    }
}

/// Without a flagged output there is no host.
pub proof fn lemma_first_tapret_host_none(outputs: Seq<Output>)
    requires
        forall|k: int| 0 <= k < outputs.len() ==> !(#[trigger] outputs[k]).tapret_host,
    ensures
        first_tapret_host(outputs) is None,
    decreases outputs.len(),
{
    if outputs.len() > 0 {
        assert(forall|k: int|
            0 <= k < outputs.drop_first().len() ==> !(#[trigger] outputs.drop_first()[k]).tapret_host);
        lemma_first_tapret_host_none(outputs.drop_first());
    }
}

/// First artifact of the contract, if any.
fn find_transfer(transfers: &Vec<Transfer>, c: ContractId) -> (r: Option<usize>)
    ensures
        match r {
            Some(j) => j < transfers@.len() && transfers@[j as int].contract_id == c,
            None => forall|x: int|
                0 <= x < transfers@.len() ==> (#[trigger] transfers@[x]).contract_id != c,
        },
{
    let mut j: usize = 0;
    while j < transfers.len()
        invariant
            j <= transfers@.len(),
            forall|x: int| 0 <= x < j ==> (#[trigger] transfers@[x]).contract_id != c,
        decreases transfers@.len() - j,
    {
        if transfers[j].contract_id == c {
            return Some(j);
        }
        j = j + 1;
    }
    None
}

/// Groups the invoices by contract and emits one transfer artifact per
/// distinct contract, holding exactly that contract's beneficiaries: blinded
/// seals pass through unchanged, witness beneficiaries are realized as
/// (finalized transaction, matched output index) seals. Contracts appear in
/// order of first appearance.
#[verifier::rlimit(100)]
pub fn group_transfers(
    invoices: &Vec<RgbInvoice>,
    skeleton: &TxSkeleton,
    witness_txid: Txid,
    method: CloseMethod,
) -> (r: Result<Vec<Transfer>, CompletionError>)
    ensures
        r is Ok <==> forall|i: int|
            0 <= i < invoices@.len() ==> spec_transfer_failure(
                (#[trigger] invoices@[i]),
                skeleton.outputs@,
            ) is None,
        r matches Err(e) ==> exists|i: int|
            0 <= i < invoices@.len() && spec_transfer_failure(
                (#[trigger] invoices@[i]),
                skeleton.outputs@,
            ) == Some(e) && forall|j: int|
                0 <= j < i ==> spec_transfer_failure(
                    (#[trigger] invoices@[j]),
                    skeleton.outputs@,
                ) is None,
        r matches Ok(transfers) ==> {
            &&& forall|p: int, q: int|
                0 <= p < q < transfers@.len() ==> (#[trigger] transfers@[p]).contract_id != (
                #[trigger] transfers@[q]).contract_id
            &&& forall|j: int| #![trigger transfers@[j]]
                0 <= j < transfers@.len() ==> contract_from_invoices(
                    invoices@,
                    invoices@.len() as int,
                    transfers@[j].contract_id,
                )
            &&& forall|i: int| #![trigger invoices@[i]]
                0 <= i < invoices@.len() ==> transfers_have_contract(
                    transfers@,
                    invoices@[i].contract.unwrap(),
                )
            &&& forall|j: int|
                0 <= j < transfers@.len() ==> (#[trigger] transfers@[j]).blinded@ == blinded_of(
                    invoices@,
                    transfers@[j].contract_id,
                ) && witness_matches(
                    transfers@[j].witness@,
                    witness_scripts_of(invoices@, transfers@[j].contract_id),
                    skeleton.outputs@,
                    witness_txid,
                    method,
                )
        },
{
    let mut transfers: Vec<Transfer> = Vec::new();
    let mut i: usize = 0;
    while i < invoices.len()
        invariant
            i <= invoices@.len(),
            forall|j: int|
                0 <= j < i ==> spec_transfer_failure(
                    (#[trigger] invoices@[j]),
                    skeleton.outputs@,
                ) is None,
            forall|p: int, q: int|
                0 <= p < q < transfers@.len() ==> (#[trigger] transfers@[p]).contract_id != (
                #[trigger] transfers@[q]).contract_id,
            forall|j: int| #![trigger transfers@[j]]
                0 <= j < transfers@.len() ==> contract_from_invoices(
                    invoices@,
                    i as int,
                    transfers@[j].contract_id,
                ),
            forall|i2: int| #![trigger invoices@[i2]]
                0 <= i2 < i ==> transfers_have_contract(
                    transfers@,
                    invoices@[i2].contract.unwrap(),
                ),
            forall|j: int|
                0 <= j < transfers@.len() ==> (#[trigger] transfers@[j]).blinded@ == blinded_of(
                    invoices@.subrange(0, i as int),
                    transfers@[j].contract_id,
                ) && witness_matches(
                    transfers@[j].witness@,
                    witness_scripts_of(invoices@.subrange(0, i as int), transfers@[j].contract_id),
                    skeleton.outputs@,
                    witness_txid,
                    method,
                ),
        decreases invoices@.len() - i,
    {
        let invoice = &invoices[i];
        let contract_id = match invoice.contract {
            Some(c) => c,
            None => {
                return Err(CompletionError::NoContract);
            },
        };
        let ghost pre_transfers = transfers@;
        let (mut entry, at): (Transfer, usize) = match find_transfer(&transfers, contract_id) {
            Some(j) => (transfers.remove(j), j),
            None => {
                proof {
                    assert forall|k: int| 0 <= k < i as int implies (#[trigger] invoices@[k]).contract
                        != Some(contract_id) by {
                        if invoices@[k].contract == Some(contract_id) {
                            let jj = choose|jj: int|
                                0 <= jj < pre_transfers.len() && (#[trigger] pre_transfers[jj]).contract_id
                                    == invoices@[k].contract.unwrap();
                            assert(pre_transfers[jj].contract_id != contract_id);
                        }
                    }
                    assert(forall|k: int|
                        0 <= k < i as int ==> (#[trigger] invoices@.subrange(0, i as int)[k]).contract
                            != Some(contract_id));
                    lemma_grouping_absent(invoices@.subrange(0, i as int), contract_id);
                }
                (Transfer { contract_id, blinded: Vec::new(), witness: Vec::new() }, transfers.len())
            },
        };
        let ghost pre_entry_blinded = entry.blinded@;
        let ghost pre_entry_witness = entry.witness@;
        match invoice.beneficiary {
            Beneficiary::BlindedSeal(seal) => {
                entry.blinded.push(seal);
            },
            Beneficiary::WitnessVout(script) => {
                match skeleton.find_script_vout(script) {
                    Some(vout) => {
                        entry.witness.push(WitnessSeal { method, txid: witness_txid, vout });
                    },
                    None => {
                        return Err(CompletionError::NoBeneficiaryOutput);
                    },
                }
            },
        }
        transfers.insert(at, entry);
        proof {
            lemma_grouping_step(invoices@, i as int, contract_id);
            if at < pre_transfers.len() {
                assert(transfers@ =~= pre_transfers.update(at as int, transfers@[at as int]));
            } else {
                assert(transfers@ =~= pre_transfers.push(transfers@[at as int]));
            }
            assert forall|j: int|
                0 <= j < transfers@.len() && j != at as int implies (#[trigger] transfers@[j])
                == pre_transfers[j] by {}
            assert(transfers@[at as int].contract_id == contract_id);
            assert(invoices@[i as int].contract == Some(contract_id));
            assert forall|j: int| #![trigger transfers@[j]]
                0 <= j < transfers@.len() implies contract_from_invoices(
                invoices@,
                i as int + 1,
                transfers@[j].contract_id,
            ) by {
                if j == at as int {
                    assert(contract_from_invoices(invoices@, i as int + 1, contract_id));
                } else {
                    lemma_contract_from_monotone(
                        invoices@,
                        i as int,
                        i as int + 1,
                        transfers@[j].contract_id,
                    );
                }
            }
            assert forall|i2: int| #![trigger invoices@[i2]]
                0 <= i2 <= i as int implies transfers_have_contract(
                transfers@,
                invoices@[i2].contract.unwrap(),
            ) by {
                if i2 == i as int {
                    assert(transfers@[at as int].contract_id == contract_id);
                } else {
                    let jj = choose|jj: int|
                        0 <= jj < pre_transfers.len() && (#[trigger] pre_transfers[jj]).contract_id
                            == invoices@[i2].contract.unwrap();
                    if jj == at as int {
                        assert(transfers@[at as int].contract_id == pre_transfers[jj].contract_id);
                    } else {
                        assert(transfers@[jj].contract_id == invoices@[i2].contract.unwrap());
                    }
                }
            }
            assert forall|j: int|
                0 <= j < transfers@.len() && transfers@[j].contract_id != contract_id implies {
                &&& blinded_of(invoices@.subrange(0, i as int + 1), transfers@[j].contract_id)
                    == blinded_of(invoices@.subrange(0, i as int), transfers@[j].contract_id)
                &&& witness_scripts_of(
                    invoices@.subrange(0, i as int + 1),
                    (#[trigger] transfers@[j]).contract_id,
                ) == witness_scripts_of(invoices@.subrange(0, i as int), transfers@[j].contract_id)
            } by {
                lemma_grouping_step(invoices@, i as int, transfers@[j].contract_id);
            }
        }
        i = i + 1;
    }
    proof {
        assert(invoices@.subrange(0, invoices@.len() as int) =~= invoices@);
    }
    Ok(transfers)
}

} // verus!
