use bpstd::{HardenedIndex, Keychain, XkeyOrigin, Xpriv, XpubDerivable};
use rgb_wallet::descriptor::{
    Commitment, DerivedScript, DescriptorRgb, RgbDescr, TapTweakAlreadyAssigned, TapretKey, Wpkh,
};
use rgb_wallet::keychain::{CloseMethod, RgbKeychain};
use rgb_wallet::Terminal;

fn test_key(seed: u8) -> XpubDerivable {
    let master = Xpriv::new_master(true, &[seed; 32]);
    let account_path = [HardenedIndex::hardened(86)];
    let account = master.derive_priv(&account_path);
    let origin = XkeyOrigin::new(master.fingerprint(), account_path.into());
    XpubDerivable::try_custom(
        account.to_xpub(),
        origin,
        [Keychain::with(0), Keychain::with(1), Keychain::with(9), Keychain::with(10)],
    )
    .unwrap()
}

fn commitment(fill: u8) -> Commitment {
    Commitment { bytes: [fill; 33] }
}

#[test]
fn keychain_classification() {
    assert!(RgbKeychain::Rgb.is_seal());
    assert!(RgbKeychain::Tapret.is_seal());
    assert!(!RgbKeychain::External.is_seal());
    assert!(!RgbKeychain::Internal.is_seal());
    assert!(RgbKeychain::contains_rgb(9));
    assert!(RgbKeychain::contains_rgb(10));
    assert!(!RgbKeychain::contains_rgb(0));
    assert!(!RgbKeychain::contains_rgb(1));
    assert!(!RgbKeychain::contains_rgb(2));
    assert_eq!(RgbKeychain::External.numeral(), 0);
    assert_eq!(RgbKeychain::Internal.numeral(), 1);
    assert_eq!(RgbKeychain::Rgb.numeral(), 9);
    assert_eq!(RgbKeychain::Tapret.numeral(), 10);
}

#[test]
fn keychain_for_method() {
    assert_eq!(RgbKeychain::for_method(CloseMethod::OpretFirst), RgbKeychain::Rgb);
    assert_eq!(RgbKeychain::for_method(CloseMethod::TapretFirst), RgbKeychain::Tapret);
}

#[test]
fn keychain_from_standard_numeral() {
    assert_eq!(RgbKeychain::from_standard_numeral(0), Some(RgbKeychain::External));
    assert_eq!(RgbKeychain::from_standard_numeral(1), Some(RgbKeychain::Internal));
    assert_eq!(RgbKeychain::from_standard_numeral(9), None);
    assert_eq!(RgbKeychain::from_standard_numeral(10), None);
    assert_eq!(RgbKeychain::from_standard_numeral(2), None);
}

#[test]
fn derive_before_any_tweak_is_key_only() {
    let d = TapretKey::new_unfunded(test_key(1));
    let t = Terminal::new(10, 0);
    assert_eq!(d.derive(t.keychain, t.index), DerivedScript::TaprootKeyOnly { terminal: t });
    let t2 = Terminal::new(0, 5);
    assert_eq!(d.derive(t2.keychain, t2.index), DerivedScript::TaprootKeyOnly { terminal: t2 });
}

#[test]
fn derive_after_tweak_is_committed() {
    let mut d = TapretKey::new_unfunded(test_key(1));
    let t = Terminal::new(10, 7);
    let c = commitment(0xa1);
    assert_eq!(d.add_tapret_tweak(t, c), Ok(()));
    assert_eq!(
        d.derive(10, 7),
        DerivedScript::TaprootScript { terminal: t, commitment: commitment(0xa1) }
    );
    // Other terminals are unaffected.
    assert_eq!(
        d.derive(10, 8),
        DerivedScript::TaprootKeyOnly { terminal: Terminal::new(10, 8) }
    );
    // Tweaks on a non-commitment keychain index are not picked up.
    assert_eq!(
        d.derive(9, 7),
        DerivedScript::TaprootKeyOnly { terminal: Terminal::new(9, 7) }
    );
}

#[test]
fn tweak_is_write_once() {
    let mut d = TapretKey::new_unfunded(test_key(2));
    let t = Terminal::new(10, 3);
    assert_eq!(d.add_tapret_tweak(t, commitment(0x11)), Ok(()));
    // Second insertion at the occupied terminal fails...
    assert_eq!(d.add_tapret_tweak(t, commitment(0x22)), Err(TapTweakAlreadyAssigned(t)));
    // ...and the first recorded commitment is unchanged afterwards.
    assert_eq!(
        d.derive(10, 3),
        DerivedScript::TaprootScript { terminal: t, commitment: commitment(0x11) }
    );
    // A vacant terminal still accepts an insertion.
    assert_eq!(d.add_tapret_tweak(Terminal::new(10, 4), commitment(0x22)), Ok(()));
}

#[test]
fn descriptor_variant_dispatch() {
    let w = RgbDescr::Wpkh(Wpkh { key: test_key(3) });
    assert_eq!(w.seal_close_method(), CloseMethod::OpretFirst);
    let t = Terminal::new(0, 1);
    assert_eq!(w.derive(0, 1), DerivedScript::Wpkh { terminal: t });
    assert_eq!(w.default_keychain(), RgbKeychain::External);
    assert_eq!(w.keychains(), vec![RgbKeychain::External, RgbKeychain::Internal]);
    assert_eq!(w.xonly_keyset(t).len(), 0);
    let compr = w.compr_keyset(t);
    assert_eq!(compr.len(), 1);
    assert_eq!(compr[0].1, t);

    let mut d = RgbDescr::TapretKey(TapretKey::new_unfunded(test_key(4)));
    assert_eq!(d.seal_close_method(), CloseMethod::TapretFirst);
    assert_eq!(d.default_keychain(), RgbKeychain::Rgb);
    assert_eq!(
        d.keychains(),
        vec![RgbKeychain::External, RgbKeychain::Internal, RgbKeychain::Rgb, RgbKeychain::Tapret]
    );
    let term = Terminal::new(10, 0);
    assert_eq!(d.add_tapret_tweak(term, commitment(9)), Ok(()));
    assert_eq!(
        d.derive(10, 0),
        DerivedScript::TaprootScript { terminal: term, commitment: commitment(9) }
    );
}

#[test]
fn realized_scripts_follow_shape_and_payload() {
    let mut d = TapretKey::new_unfunded(test_key(5));
    let t = Terminal::new(10, 1);
    d.add_tapret_tweak(t, commitment(0x33)).unwrap();

    let plain = d.derive(10, 2);
    let (key_plain, tree_plain) = d.realize_script(&plain);
    assert!(tree_plain.is_none());

    let committed = d.derive(10, 1);
    let (key_committed, tree_committed) = d.realize_script(&committed);
    let tree_committed = tree_committed.expect("committed form carries a script tree");

    // Key derivation is deterministic per terminal and differs across
    // terminals (real BIP32 derivation underneath).
    assert_ne!(key_plain, key_committed);
    let (key_again, tree_again) = d.realize_script(&committed);
    assert_eq!(key_committed, key_again);
    assert_eq!(tree_committed, tree_again.unwrap());

    // The commitment tree depends on the committed payload: a different
    // commitment at another terminal yields a different single leaf.
    let mut d2 = TapretKey::new_unfunded(test_key(5));
    d2.add_tapret_tweak(t, commitment(0x44)).unwrap();
    let other = d2.derive(10, 1);
    let (_, other_tree) = d2.realize_script(&other);
    assert_ne!(tree_committed, other_tree.unwrap());
}

#[test]
fn keysets_enumerate_the_internal_key() {
    let d = TapretKey::new_unfunded(test_key(6));
    let t = Terminal::new(9, 2);
    let set = d.xonly_keyset(t);
    assert_eq!(set.len(), 1);
    assert_eq!(set[0].1, t);
    let set2 = d.xonly_keyset(t);
    assert_eq!(set[0].0, set2[0].0);
    let other = d.xonly_keyset(Terminal::new(9, 3));
    assert_ne!(set[0].0, other[0].0);
    assert_eq!(d.compr_keyset(t).len(), 0);
    assert_eq!(d.keys().len(), 1);
    assert_eq!(d.class(), rgb_wallet::SpkClass::P2tr);
}
