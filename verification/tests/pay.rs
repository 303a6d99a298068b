use bpstd::{HardenedIndex, Keychain, XkeyOrigin, Xpriv, XpubDerivable};
use rgb_wallet::compose::{
    embed_batch, place_commitment_hosts, prepare_composition, Batch, CompositionError,
    TransferParams, TxBeneficiary,
};
use rgb_wallet::descriptor::{Commitment, DescriptorRgb, TapretKey};
use rgb_wallet::invoice::{
    resolve_invoice_terms, Beneficiary, Iface, IfaceTransition, InvoiceState, ResolvedTerms,
    RgbInvoice,
};
use rgb_wallet::keychain::{CloseMethod, RgbKeychain};
use rgb_wallet::selection::{
    group_by_seal, select_seals, ContractOutpointsFilter, FungibleAllocation,
};
use rgb_wallet::skeleton::{Output, PsbtMeta, TxSkeleton};
use rgb_wallet::transfer::{group_transfers, record_tapret_tweak, CompletionError, WitnessSeal};
use rgb_wallet::{ContractId, Ident, Outpoint, Script, SecretSeal, SpkClass, Terminal, Txid};

fn outpoint(n: u128, vout: u32) -> Outpoint {
    Outpoint { txid: Txid { val: n }, vout }
}

fn allocation(seal: Outpoint, amount: u64) -> FungibleAllocation {
    FungibleAllocation { seal, amount }
}

fn script(class: SpkClass, body: u64) -> Script {
    Script { class, body }
}

fn commitment(fill: u8) -> Commitment {
    Commitment { bytes: [fill; 33] }
}

fn iface() -> Iface {
    Iface {
        default_operation: Some(Ident { id: 1 }),
        transitions: vec![IfaceTransition {
            name: Ident { id: 1 },
            default_assignment: Some(Ident { id: 2 }),
        }],
    }
}

fn invoice(contract: u128, amount: u64, beneficiary: Beneficiary) -> RgbInvoice {
    RgbInvoice {
        contract: Some(ContractId { val: contract }),
        iface: Some(Ident { id: 7 }),
        operation: None,
        assignment: None,
        owned_state: InvoiceState::Amount(amount),
        beneficiary,
        expiry: None,
    }
}

fn output(s: Script, value: u64, terminal: Option<Terminal>) -> Output {
    Output::new(s, value, terminal)
}

#[test]
fn grouping_sums_state_per_seal() {
    let a = outpoint(1, 0);
    let b = outpoint(2, 1);
    let items = vec![allocation(a, 10), allocation(b, 5), allocation(a, 20)];
    let groups = group_by_seal(&items);
    assert_eq!(groups.len(), 2);
    let sum_a = groups.iter().find(|g| g.seal == a).unwrap().sum;
    let sum_b = groups.iter().find(|g| g.seal == b).unwrap().sum;
    assert_eq!(sum_a, 30);
    assert_eq!(sum_b, 5);
}

#[test]
fn selector_picks_only_the_larger_seal() {
    // One invoice requests 50; per-seal sums are [30, 80].
    let a = outpoint(1, 0);
    let b = outpoint(2, 0);
    let items = vec![allocation(a, 30), allocation(b, 80)];
    let selected = select_seals(&items, 50).unwrap();
    assert_eq!(selected, vec![b]);
}

#[test]
fn selector_fails_on_insufficient_state() {
    // One invoice requests 50; per-seal sums are [10, 20].
    let items = vec![allocation(outpoint(1, 0), 10), allocation(outpoint(2, 0), 20)];
    assert_eq!(select_seals(&items, 50), Err(CompositionError::InsufficientState));
}

#[test]
fn selector_walks_descending_and_stops_when_covered() {
    let a = outpoint(1, 0);
    let b = outpoint(2, 0);
    let c = outpoint(3, 0);
    let items = vec![allocation(a, 30), allocation(b, 80), allocation(c, 15)];
    // 110 needs the two largest, in descending order of their sums.
    assert_eq!(select_seals(&items, 110).unwrap(), vec![b, a]);
    // 125 needs all three.
    assert_eq!(select_seals(&items, 125).unwrap(), vec![b, a, c]);
    // 126 exceeds the whole state.
    assert_eq!(select_seals(&items, 126), Err(CompositionError::InsufficientState));
    // 0 needs nothing.
    assert_eq!(select_seals(&items, 0).unwrap(), Vec::<Outpoint>::new());
}

#[test]
fn combined_filter_requires_both_predicates() {
    let a = outpoint(1, 0);
    let b = outpoint(2, 0);
    let c = outpoint(3, 0);
    let filter = ContractOutpointsFilter {
        wallet_outpoints: vec![a, b],
        assigned_outpoints: vec![b, c],
    };
    assert!(!filter.include_outpoint(a));
    assert!(filter.include_outpoint(b));
    assert!(!filter.include_outpoint(c));
}

#[test]
fn preparation_selects_and_collects_beneficiaries() {
    let seal_small = outpoint(1, 0);
    let seal_big = outpoint(2, 0);
    let ben_script = script(SpkClass::P2tr, 42);
    let invoices = vec![invoice(1, 50, Beneficiary::WitnessVout(ben_script))];
    let ifaces = vec![iface()];
    let listings = vec![vec![allocation(seal_small, 30), allocation(seal_big, 80)]];
    let params = TransferParams::with(400, 546);
    let plan = prepare_composition(
        &invoices,
        &ifaces,
        &listings,
        CloseMethod::TapretFirst,
        &params,
        1_700_000_000,
    )
    .unwrap();
    assert_eq!(plan.change_keychain, RgbKeychain::Tapret);
    assert_eq!(plan.prev_outpoints, vec![seal_big]);
    assert_eq!(plan.beneficiaries, vec![TxBeneficiary { script: ben_script, amount: 546 }]);
}

#[test]
fn preparation_unions_outpoints_without_duplicates() {
    let shared = outpoint(5, 0);
    let blinded = Beneficiary::BlindedSeal(SecretSeal { val: 9 });
    let invoices = vec![invoice(1, 10, blinded), invoice(2, 10, blinded)];
    let ifaces = vec![iface(), iface()];
    let listings = vec![vec![allocation(shared, 10)], vec![allocation(shared, 10)]];
    let params = TransferParams::with(100, 546);
    let plan = prepare_composition(
        &invoices,
        &ifaces,
        &listings,
        CloseMethod::OpretFirst,
        &params,
        0,
    )
    .unwrap();
    assert_eq!(plan.change_keychain, RgbKeychain::Rgb);
    assert_eq!(plan.prev_outpoints, vec![shared]);
    assert_eq!(plan.beneficiaries.len(), 0);
}

#[test]
fn preparation_errors() {
    let blinded = Beneficiary::BlindedSeal(SecretSeal { val: 1 });
    let params = TransferParams::with(100, 546);
    let listing = vec![allocation(outpoint(1, 0), 100)];

    let mut no_contract = invoice(1, 10, blinded);
    no_contract.contract = None;
    assert_eq!(
        prepare_composition(
            &vec![no_contract],
            &vec![iface()],
            &vec![listing.clone()],
            CloseMethod::TapretFirst,
            &params,
            0,
        ),
        Err(CompositionError::NoContract)
    );

    let mut no_iface = invoice(1, 10, blinded);
    no_iface.iface = None;
    assert_eq!(
        prepare_composition(
            &vec![no_iface],
            &vec![iface()],
            &vec![listing.clone()],
            CloseMethod::TapretFirst,
            &params,
            0,
        ),
        Err(CompositionError::NoIface)
    );

    let no_operation = invoice(1, 10, blinded);
    let bare_iface = Iface { default_operation: None, transitions: vec![] };
    assert_eq!(
        prepare_composition(
            &vec![no_operation],
            &vec![bare_iface],
            &vec![listing.clone()],
            CloseMethod::TapretFirst,
            &params,
            0,
        ),
        Err(CompositionError::NoOperation)
    );

    let no_assignment = invoice(1, 10, blinded);
    let iface_no_assignment = Iface {
        default_operation: Some(Ident { id: 1 }),
        transitions: vec![IfaceTransition { name: Ident { id: 1 }, default_assignment: None }],
    };
    assert_eq!(
        prepare_composition(
            &vec![no_assignment],
            &vec![iface_no_assignment],
            &vec![listing.clone()],
            CloseMethod::TapretFirst,
            &params,
            0,
        ),
        Err(CompositionError::NoAssignment)
    );

    let mut expired = invoice(1, 10, blinded);
    expired.expiry = Some(100);
    assert_eq!(
        prepare_composition(
            &vec![expired],
            &vec![iface()],
            &vec![listing.clone()],
            CloseMethod::TapretFirst,
            &params,
            200,
        ),
        Err(CompositionError::InvoiceExpired)
    );

    let mut unsupported = invoice(1, 10, blinded);
    unsupported.owned_state = InvoiceState::Other;
    assert_eq!(
        prepare_composition(
            &vec![unsupported],
            &vec![iface()],
            &vec![listing.clone()],
            CloseMethod::TapretFirst,
            &params,
            0,
        ),
        Err(CompositionError::Unsupported)
    );

    let insufficient = invoice(1, 1000, blinded);
    assert_eq!(
        prepare_composition(
            &vec![insufficient],
            &vec![iface()],
            &vec![listing],
            CloseMethod::TapretFirst,
            &params,
            0,
        ),
        Err(CompositionError::InsufficientState)
    );
}

#[test]
fn resolution_prefers_invoice_terms() {
    let blinded = Beneficiary::BlindedSeal(SecretSeal { val: 1 });
    let mut inv = invoice(1, 10, blinded);
    inv.operation = Some(Ident { id: 9 });
    inv.assignment = Some(Ident { id: 8 });
    assert_eq!(
        resolve_invoice_terms(&inv, &iface(), 0),
        Ok(ResolvedTerms {
            contract_id: ContractId { val: 1 },
            operation: Ident { id: 9 },
            assignment: Ident { id: 8 },
        })
    );
    // Defaulting from the interface when the invoice leaves them out.
    let terms = resolve_invoice_terms(&invoice(1, 10, blinded), &iface(), 0).unwrap();
    assert_eq!(terms.operation, Ident { id: 1 });
    assert_eq!(terms.assignment, Ident { id: 2 });
    // An operation the interface does not declare has no default assignment
    // to fall back to.
    let mut unknown_op = invoice(1, 10, blinded);
    unknown_op.operation = Some(Ident { id: 99 });
    assert_eq!(
        resolve_invoice_terms(&unknown_op, &iface(), 0),
        Err(CompositionError::NoAssignment)
    );
    // An expiry at the current moment is still valid; one before it is not.
    let mut expires = invoice(1, 10, blinded);
    expires.expiry = Some(100);
    assert!(resolve_invoice_terms(&expires, &iface(), 100).is_ok());
    assert_eq!(
        resolve_invoice_terms(&expires, &iface(), 101),
        Err(CompositionError::InvoiceExpired)
    );
}

#[test]
fn host_placement_reorders_and_reresolves_change() {
    let ben = script(SpkClass::P2tr, 1);
    let change = script(SpkClass::P2tr, 2);
    let other = script(SpkClass::P2wpkh, 3);
    let mut skeleton = TxSkeleton {
        inputs: vec![outpoint(1, 0)],
        outputs: vec![
            output(ben, 546, None),
            output(change, 900, Some(Terminal::new(10, 0))),
            output(other, 300, None),
        ],
        modifiable: true,
    };
    let mut meta = PsbtMeta { change_vout: Some(1) };
    let vouts = place_commitment_hosts(&mut skeleton, &mut meta, &vec![ben]);

    // Exactly one taproot host, positioned after all non-host outputs.
    let hosts: Vec<usize> =
        (0..skeleton.outputs.len()).filter(|k| skeleton.outputs[*k].tapret_host).collect();
    assert_eq!(hosts, vec![2]);
    assert_eq!(skeleton.outputs[2].script, change);
    // The change index is re-resolved by script equality.
    assert_eq!(meta.change_vout, Some(2));
    // The beneficiary keeps its output, found by script match.
    assert_eq!(vouts, vec![0]);
    assert_eq!(skeleton.outputs[0].script, ben);
}

#[test]
fn host_placement_without_candidate_changes_nothing() {
    let a = script(SpkClass::P2wpkh, 1);
    let b = script(SpkClass::P2wpkh, 2);
    let mut skeleton = TxSkeleton {
        inputs: vec![],
        outputs: vec![output(a, 100, None), output(b, 200, None)],
        modifiable: true,
    };
    let mut meta = PsbtMeta { change_vout: Some(1) };
    let vouts = place_commitment_hosts(&mut skeleton, &mut meta, &vec![a]);
    assert_eq!(vouts, vec![0]);
    assert!(skeleton.outputs.iter().all(|o| !o.tapret_host));
    assert_eq!(meta.change_vout, Some(1));
    assert_eq!(skeleton.outputs[0].script, a);
    assert_eq!(skeleton.outputs[1].script, b);
}

#[test]
fn embedding_requires_a_taproot_host() {
    let mut skeleton = TxSkeleton {
        inputs: vec![],
        outputs: vec![output(script(SpkClass::P2wpkh, 1), 100, None)],
        modifiable: false,
    };
    let batch = Batch { needs_tapret: true, needs_opret: false, commitment: commitment(1) };
    assert_eq!(embed_batch(&mut skeleton, &batch), Err(CompositionError::TapretRequired));
    assert!(skeleton.outputs[0].tapret_commitment.is_none());
}

#[test]
fn embedding_writes_into_the_tagged_hosts() {
    let ben = script(SpkClass::P2tr, 1);
    let host = script(SpkClass::P2tr, 2);
    let mut skeleton = TxSkeleton {
        inputs: vec![],
        outputs: vec![output(ben, 546, None), output(host, 900, Some(Terminal::new(10, 4)))],
        modifiable: true,
    };
    let mut meta = PsbtMeta { change_vout: None };
    place_commitment_hosts(&mut skeleton, &mut meta, &vec![ben]);
    // The batch also closes seals under the null-data method: append its
    // host before locking the structure.
    skeleton.append_opret_host();
    skeleton.complete_construction();
    assert!(!skeleton.modifiable);
    let batch = Batch { needs_tapret: true, needs_opret: true, commitment: commitment(0x7f) };
    assert_eq!(embed_batch(&mut skeleton, &batch), Ok(()));

    let tapret_host = skeleton.outputs.iter().find(|o| o.tapret_host).unwrap();
    assert_eq!(tapret_host.script, host);
    assert_eq!(tapret_host.tapret_commitment, Some(commitment(0x7f)));

    let opret_host = skeleton.outputs.iter().find(|o| o.opret_host).unwrap();
    assert_eq!(opret_host.script, Script::op_return_empty());
    assert_eq!(opret_host.value, 0);
    assert_eq!(opret_host.opret_commitment, Some(commitment(0x7f)));
}

fn finalized_skeleton(terminal: Option<Terminal>, commit: Option<Commitment>) -> TxSkeleton {
    let mut host = output(script(SpkClass::P2tr, 2), 900, terminal);
    host.tapret_host = true;
    host.tapret_commitment = commit;
    TxSkeleton {
        inputs: vec![outpoint(1, 0)],
        outputs: vec![output(script(SpkClass::P2tr, 1), 546, None), host],
        modifiable: false,
    }
}

fn fresh_descriptor(seed: u8) -> TapretKey {
    let master = Xpriv::new_master(true, &[seed; 32]);
    let account_path = [HardenedIndex::hardened(86)];
    let account = master.derive_priv(&account_path);
    let origin = XkeyOrigin::new(master.fingerprint(), account_path.into());
    let key = XpubDerivable::try_custom(
        account.to_xpub(),
        origin,
        [Keychain::with(0), Keychain::with(1), Keychain::with(9), Keychain::with(10)],
    )
    .unwrap();
    TapretKey::new_unfunded(key)
}

#[test]
fn recording_the_realized_commitment() {
    let terminal = Terminal::new(10, 6);
    let skeleton = finalized_skeleton(Some(terminal), Some(commitment(0x55)));
    let mut descriptor = fresh_descriptor(9);

    // Nothing to record without a taproot commitment.
    assert_eq!(record_tapret_tweak(&mut descriptor, &skeleton, false), Ok(()));
    assert_eq!(descriptor.tweaks.len(), 0);

    // Recording succeeds once...
    assert_eq!(record_tapret_tweak(&mut descriptor, &skeleton, true), Ok(()));
    assert_eq!(
        descriptor.derive(10, 6),
        rgb_wallet::descriptor::DerivedScript::TaprootScript {
            terminal,
            commitment: commitment(0x55)
        }
    );
    // ...and collides defensively the second time.
    assert_eq!(
        record_tapret_tweak(&mut descriptor, &skeleton, true),
        Err(CompletionError::MultipleTweaks)
    );
}

#[test]
fn recording_fails_without_host_terminal_or_commitment() {
    let mut descriptor = fresh_descriptor(10);
    let no_host = TxSkeleton {
        inputs: vec![],
        outputs: vec![output(script(SpkClass::P2tr, 1), 546, None)],
        modifiable: false,
    };
    assert_eq!(
        record_tapret_tweak(&mut descriptor, &no_host, true),
        Err(CompletionError::InconclusiveDerivation)
    );
    let no_terminal = finalized_skeleton(None, Some(commitment(1)));
    assert_eq!(
        record_tapret_tweak(&mut descriptor, &no_terminal, true),
        Err(CompletionError::InconclusiveDerivation)
    );
    let no_commitment = finalized_skeleton(Some(Terminal::new(10, 0)), None);
    assert_eq!(
        record_tapret_tweak(&mut descriptor, &no_commitment, true),
        Err(CompletionError::NoCommitment)
    );
    assert_eq!(descriptor.tweaks.len(), 0);
}

#[test]
fn transfers_group_by_contract() {
    // Three invoices over two contracts yield exactly two artifacts, each
    // holding only its contract's beneficiaries.
    let s1 = script(SpkClass::P2tr, 1);
    let s2 = script(SpkClass::P2tr, 2);
    let blinded = SecretSeal { val: 77 };
    let invoices = vec![
        invoice(1, 10, Beneficiary::WitnessVout(s1)),
        invoice(2, 10, Beneficiary::BlindedSeal(blinded)),
        invoice(1, 10, Beneficiary::WitnessVout(s2)),
    ];
    let skeleton = TxSkeleton {
        inputs: vec![],
        outputs: vec![output(s1, 546, None), output(s2, 546, None)],
        modifiable: false,
    };
    let txid = Txid { val: 0xfeed };
    let transfers =
        group_transfers(&invoices, &skeleton, txid, CloseMethod::TapretFirst).unwrap();
    assert_eq!(transfers.len(), 2);
    assert_eq!(transfers[0].contract_id, ContractId { val: 1 });
    assert_eq!(transfers[0].blinded, Vec::<SecretSeal>::new());
    assert_eq!(
        transfers[0].witness,
        vec![
            WitnessSeal { method: CloseMethod::TapretFirst, txid, vout: 0 },
            WitnessSeal { method: CloseMethod::TapretFirst, txid, vout: 1 },
        ]
    );
    assert_eq!(transfers[1].contract_id, ContractId { val: 2 });
    assert_eq!(transfers[1].blinded, vec![blinded]);
    assert_eq!(transfers[1].witness, Vec::<WitnessSeal>::new());
}

#[test]
fn two_invoices_same_contract_one_transfer() {
    // Two invoices for the same contract with distinct witness-output
    // beneficiaries produce one artifact containing both.
    let s1 = script(SpkClass::P2tr, 1);
    let s2 = script(SpkClass::P2wpkh, 2);
    let invoices = vec![
        invoice(5, 10, Beneficiary::WitnessVout(s1)),
        invoice(5, 10, Beneficiary::WitnessVout(s2)),
    ];
    let skeleton = TxSkeleton {
        inputs: vec![],
        outputs: vec![output(s2, 546, None), output(s1, 546, None)],
        modifiable: false,
    };
    let txid = Txid { val: 3 };
    let transfers =
        group_transfers(&invoices, &skeleton, txid, CloseMethod::TapretFirst).unwrap();
    assert_eq!(transfers.len(), 1);
    assert_eq!(transfers[0].contract_id, ContractId { val: 5 });
    assert_eq!(transfers[0].witness.len(), 2);
    assert_eq!(transfers[0].witness[0].vout, 1);
    assert_eq!(transfers[0].witness[1].vout, 0);
}

#[test]
fn transfer_grouping_errors() {
    let s1 = script(SpkClass::P2tr, 1);
    let skeleton = TxSkeleton { inputs: vec![], outputs: vec![], modifiable: false };
    let txid = Txid { val: 1 };

    let mut no_contract = invoice(1, 10, Beneficiary::WitnessVout(s1));
    no_contract.contract = None;
    assert!(matches!(
        group_transfers(&vec![no_contract], &skeleton, txid, CloseMethod::TapretFirst),
        Err(CompletionError::NoContract)
    ));

    let unmatched = invoice(1, 10, Beneficiary::WitnessVout(s1));
    assert!(matches!(
        group_transfers(&vec![unmatched], &skeleton, txid, CloseMethod::TapretFirst),
        Err(CompletionError::NoBeneficiaryOutput)
    ));
}
