//! Commitment descriptors: per-path script derivation with a write-once
//! table of commitment tweaks.
//!
//! A commitment-capable descriptor owns one verification key and a mapping
//! from derivation terminal to commitment. Insertion into the mapping is
//! write-once per terminal; the table only grows over the descriptor's
//! lifetime. Derivation is pure: given the current table, a terminal on the
//! commitment-bearing keychain with a recorded tweak derives the
//! script-committed form, every other terminal derives the key-only form.

use vstd::prelude::*;

use crate::keychain::{CloseMethod, RgbKeychain};
use crate::scripts::{derive_compr_key, derive_xonly_key, tap_tree_single_leaf, tapret_script_commit};
use crate::{SpkClass, Terminal};

verus! {

/// A commitment payload in its 33-byte serialized form (a 32-byte
/// multi-protocol commitment followed by a one-byte nonce).
#[derive(Clone, Copy, PartialEq, Eq, Debug)]
pub struct Commitment {
    pub bytes: [u8; 33],
}

impl Commitment {
    pub fn new(bytes: [u8; 33]) -> (r: Commitment)
        ensures
            r.bytes@ == bytes@,
    {
        Commitment { bytes }
    }
}

/// Error returned when a tweak is added to a terminal that already holds one.
#[derive(Clone, Copy, PartialEq, Eq, Structural, Debug)]
pub struct TapTweakAlreadyAssigned(pub Terminal);

/// Derived output script, in the shape the descriptor logic decides on. The
/// key material itself is a pure function of the descriptor's key and the
/// terminal; [`crate::scripts`] realizes the concrete script.
#[derive(Clone, Copy, PartialEq, Eq, Debug)]
pub enum DerivedScript {
    /// Key-only taproot script at the given terminal.
    TaprootKeyOnly { terminal: Terminal },
    /// Taproot script with a single-leaf commitment tree over the commitment
    /// payload, at the given terminal.
    TaprootScript { terminal: Terminal, commitment: Commitment },
    /// Plain witness-key-hash script at the given terminal.
    Wpkh { terminal: Terminal },
}

impl DerivedScript {
    /// The terminal the script derives from.
    pub open spec fn terminal_of(self) -> Terminal {
        match self {
            DerivedScript::TaprootKeyOnly { terminal } => terminal,
            DerivedScript::TaprootScript { terminal, .. } => terminal,
            DerivedScript::Wpkh { terminal } => terminal,
        }
    }
}

/// The tweak table as a mapping from terminal to commitment payload.
pub open spec fn tweaks_map_of(s: Seq<(Terminal, Commitment)>) -> Map<Terminal, Seq<u8>>
    decreases s.len(),
{
    if s.len() == 0 {
        Map::empty()
    } else {
        tweaks_map_of(s.drop_last()).insert(s.last().0, s.last().1.bytes@)
    }
}

/// No two entries of the table share a terminal.
pub open spec fn terminals_unique(s: Seq<(Terminal, Commitment)>) -> bool {
    forall|i: int, j: int| 0 <= i < j < s.len() ==> s[i].0 != s[j].0
}

/// A terminal is in the table's mapping exactly when some entry holds it.
pub proof fn lemma_tweaks_map_domain(s: Seq<(Terminal, Commitment)>, t: Terminal)
    ensures
        tweaks_map_of(s).contains_key(t) <==> exists|i: int| 0 <= i < s.len() && s[i].0 == t,
    decreases s.len(),
{
    if s.len() > 0 {
        lemma_tweaks_map_domain(s.drop_last(), t);
        if s.last().0 == t {
            assert(s[s.len() - 1].0 == t);
        } else if tweaks_map_of(s).contains_key(t) {
            let i = choose|i: int| 0 <= i < s.drop_last().len() && s.drop_last()[i].0 == t;
            assert(s[i].0 == t);
        } else if exists|i: int| 0 <= i < s.len() && s[i].0 == t {
            let i = choose|i: int| 0 <= i < s.len() && s[i].0 == t;
            assert(s.drop_last()[i].0 == t);
        }
    }
}

/// With unique terminals, the mapping sends each entry's terminal to that
/// entry's payload.
pub proof fn lemma_tweaks_map_value(s: Seq<(Terminal, Commitment)>, i: int)
    requires
        terminals_unique(s),
        0 <= i < s.len(),
    ensures
        tweaks_map_of(s).contains_key(s[i].0),
        tweaks_map_of(s)[s[i].0] == s[i].1.bytes@,
    decreases s.len(),
{
    if i == s.len() - 1 {
    } else {
        lemma_tweaks_map_value(s.drop_last(), i);
        assert(s.drop_last()[i] == s[i]);
        assert(s.last().0 != s[i].0);
    }
}

/// Law: derivation tracks the write-once table. [`TapretKey::derive`]'s
/// contract fixes the derived shape as a function of the table alone: the
/// committed form exactly at the commitment-bearing keychain's terminals the
/// table holds, the key-only form everywhere else. This law states how one
/// successful insertion ([`DescriptorRgb::add_tapret_tweak`] at a vacant
/// terminal) changes that function: the inserted terminal now derives the
/// committed form carrying exactly the inserted payload, and every other
/// terminal derives as before.
pub proof fn lemma_derivation_write_once(
    pre: Map<Terminal, Seq<u8>>,
    terminal: Terminal,
    payload: Seq<u8>,
    other: Terminal,
)
    requires
        !pre.contains_key(terminal),
        other != terminal,
    ensures
        pre.insert(terminal, payload).contains_key(terminal),
        pre.insert(terminal, payload)[terminal] == payload,
        pre.insert(terminal, payload).contains_key(other) == pre.contains_key(other),
        pre.contains_key(other) ==> pre.insert(terminal, payload)[other] == pre[other],
{
}

/// Uniform operations of every descriptor variant that takes part in the
/// commitment scheme.
pub trait DescriptorRgb: Sized {
    /// Well-formedness of the descriptor's tweak table.
    spec fn wf(&self) -> bool;

    /// The tweak table as a mapping from terminal to commitment payload.
    spec fn tweaks_map(&self) -> Map<Terminal, Seq<u8>>;

    /// Whether the variant can host taproot commitment tweaks.
    spec fn tapret_capable(&self) -> bool;

    /// The commitment method this variant closes seals with, as a
    /// specification.
    spec fn close_method_spec(&self) -> CloseMethod;

    /// The commitment method this variant closes seals with: the plain
    /// witness variant uses the null-data method, the commitment-capable
    /// variant the script-leaf method.
    fn seal_close_method(&self) -> (r: CloseMethod)
        ensures
            r == self.close_method_spec(),
    ;

    /// Records a commitment at a terminal. Write-once: inserting at a vacant
    /// terminal always succeeds; inserting at an occupied terminal always
    /// fails and leaves the table unchanged.
    fn add_tapret_tweak(&mut self, terminal: Terminal, tweak: Commitment) -> (r: Result<
        (),
        TapTweakAlreadyAssigned,
    >)
        requires
            old(self).wf(),
            old(self).tapret_capable(),
        ensures
            final(self).wf(),
            final(self).tapret_capable() == old(self).tapret_capable(),
            final(self).close_method_spec() == old(self).close_method_spec(),
            old(self).tweaks_map().contains_key(terminal) ==> r == Err::<
                (),
                TapTweakAlreadyAssigned,
            >(TapTweakAlreadyAssigned(terminal)) && *final(self) == *old(self),
            !old(self).tweaks_map().contains_key(terminal) ==> r == Ok::<
                (),
                TapTweakAlreadyAssigned,
            >(()) && final(self).tweaks_map() == old(self).tweaks_map().insert(
                terminal,
                tweak.bytes@,
            ),
    ;
}

/// Commitment-capable taproot descriptor: one internal key and the
/// write-once tweak table.
pub struct TapretKey {
    /// The extended public key all terminals derive from.
    pub internal_key: bpstd::XpubDerivable,
    /// The write-once tweak table; grows monotonically, entries are never
    /// removed or replaced.
    pub tweaks: Vec<(Terminal, Commitment)>,
}

impl TapretKey {
    pub open spec fn wf_spec(self) -> bool {
        terminals_unique(self.tweaks@)
    }

    /// A fresh descriptor around a key, with an empty tweak table.
    pub fn new_unfunded(internal_key: bpstd::XpubDerivable) -> (r: TapretKey)
        ensures
            r.wf(),
            r.tweaks_map() == Map::<Terminal, Seq<u8>>::empty(),
    {
        TapretKey { internal_key, tweaks: Vec::new() }
    }

    /// Index of the table entry holding the terminal, if any.
    fn find_tweak(&self, terminal: Terminal) -> (r: Option<usize>)
        requires
            self.wf_spec(),
        ensures
            match r {
                Some(i) => i < self.tweaks@.len() && self.tweaks@[i as int].0 == terminal
                    && self.tweaks_map().contains_key(terminal) && self.tweaks_map()[terminal]
                    == self.tweaks@[i as int].1.bytes@,
                None => !self.tweaks_map().contains_key(terminal),
            },
    {
        let mut i: usize = 0;
        while i < self.tweaks.len()
            invariant
                self.wf_spec(),
                i <= self.tweaks@.len(),
                forall|j: int| 0 <= j < i ==> (#[trigger] self.tweaks@[j]).0 != terminal,
            decreases self.tweaks@.len() - i,
        {
            if self.tweaks[i].0 == terminal {
                proof {
                    lemma_tweaks_map_value(self.tweaks@, i as int);
                }
                return Some(i);
            }
            i = i + 1;
        }
        proof {
            lemma_tweaks_map_domain(self.tweaks@, terminal);
        }
        None
    }

    /// Derives the script shape for a terminal: the script-committed form
    /// where the commitment-bearing keychain holds a tweak at that terminal,
    /// the key-only form everywhere else. Pure in the current table state.
    pub fn derive(&self, keychain: u8, index: u32) -> (r: DerivedScript)
        requires
            self.wf_spec(),
        ensures
            ({
                let t = (Terminal { keychain, index });
                if keychain == RgbKeychain::Tapret.spec_numeral() && self.tweaks_map().contains_key(
                    t,
                ) {
                    r matches DerivedScript::TaprootScript { terminal, commitment } && terminal == t
                        && commitment.bytes@ == self.tweaks_map()[t]
                } else {
                    r == (DerivedScript::TaprootKeyOnly { terminal: t })
                }
            }),
    {
        let terminal = Terminal::new(keychain, index);
        if keychain == RgbKeychain::Tapret.numeral() {
            match self.find_tweak(terminal) {
                Some(i) => {
                    return DerivedScript::TaprootScript { terminal, commitment: self.tweaks[i].1 };
                },
                None => {},
            }
        }
        DerivedScript::TaprootKeyOnly { terminal }
    }

    /// The default keychain of the commitment-capable variant.
    pub fn default_keychain(&self) -> (r: RgbKeychain)
        ensures
            r == RgbKeychain::Rgb,
    {
        RgbKeychain::Rgb
    }

    /// All keychains the variant derives under.
    pub fn keychains(&self) -> (r: Vec<RgbKeychain>)
        ensures
            r@ == seq![
                RgbKeychain::External,
                RgbKeychain::Internal,
                RgbKeychain::Rgb,
                RgbKeychain::Tapret,
            ],
    {
        let mut r: Vec<RgbKeychain> = Vec::new();
        r.push(RgbKeychain::External);
        r.push(RgbKeychain::Internal);
        r.push(RgbKeychain::Rgb);
        r.push(RgbKeychain::Tapret);
        proof {
            assert(r@ =~= seq![
                RgbKeychain::External,
                RgbKeychain::Internal,
                RgbKeychain::Rgb,
                RgbKeychain::Tapret,
            ]);
        }
        r
    }

    /// Script class of every script this variant derives.
    pub fn class(&self) -> (r: SpkClass)
        ensures
            r == SpkClass::P2tr,
    {
        SpkClass::P2tr
    }

    /// The signing keys of the descriptor: its single internal key.
    pub fn keys(&self) -> (r: Vec<&bpstd::XpubDerivable>)
        ensures
            r@.len() == 1,
    {
        let mut r: Vec<&bpstd::XpubDerivable> = Vec::new();
        r.push(&self.internal_key);
        r
    }

    /// The x-only key material spent through at a terminal: the derived
    /// internal key, paired with the terminal it derives from.
    pub fn xonly_keyset(&self, terminal: Terminal) -> (r: Vec<(bpstd::XOnlyPk, Terminal)>)
        requires
            terminal.index < 0x8000_0000,
        ensures
            r@.len() == 1,
            r@[0].1 == terminal,
    {
        let key = derive_xonly_key(&self.internal_key, terminal.keychain, terminal.index);
        let mut r: Vec<(bpstd::XOnlyPk, Terminal)> = Vec::new();
        r.push((key, terminal));
        r
    }

    /// The compressed key material at a terminal: none, the variant spends
    /// through x-only keys alone.
    pub fn compr_keyset(&self, _terminal: Terminal) -> (r: Vec<(bpstd::CompressedPk, Terminal)>)
        ensures
            r@.len() == 0,
    {
        Vec::new()
    }

    /// Realizes a derived script shape into concrete material: the derived
    /// internal key and, for the script-committed form, the single-leaf
    /// commitment tree over the commitment payload.
    pub fn realize_script(&self, script: &DerivedScript) -> (r: (
        bpstd::XOnlyPk,
        Option<bpstd::TapTree>,
    ))
        requires
            !(script matches DerivedScript::Wpkh { .. }),
            script.terminal_of().index < 0x8000_0000,
        ensures
            r.1 is Some <==> script matches DerivedScript::TaprootScript { .. },
    {
        match script {
            DerivedScript::TaprootKeyOnly { terminal } => {
                let key = derive_xonly_key(&self.internal_key, terminal.keychain, terminal.index);
                (key, None)
            },
            DerivedScript::TaprootScript { terminal, commitment } => {
                let leaf = tapret_script_commit(commitment);
                let tree = tap_tree_single_leaf(leaf);
                let key = derive_xonly_key(&self.internal_key, terminal.keychain, terminal.index);
                (key, Some(tree))
            },
            DerivedScript::Wpkh { terminal } => {
                let key = derive_xonly_key(&self.internal_key, terminal.keychain, terminal.index);
                (key, None)
            },
        }
    }
}

impl DescriptorRgb for TapretKey {
    open spec fn wf(&self) -> bool {
        self.wf_spec()
    }

    open spec fn tweaks_map(&self) -> Map<Terminal, Seq<u8>> {
        tweaks_map_of(self.tweaks@)
    }

    open spec fn tapret_capable(&self) -> bool {
        true
    }

    open spec fn close_method_spec(&self) -> CloseMethod {
        CloseMethod::TapretFirst
    }

    fn seal_close_method(&self) -> (r: CloseMethod) {
        CloseMethod::TapretFirst
    }

    fn add_tapret_tweak(&mut self, terminal: Terminal, tweak: Commitment) -> (r: Result<
        (),
        TapTweakAlreadyAssigned,
    >) {
        match self.find_tweak(terminal) {
            Some(_) => Err(TapTweakAlreadyAssigned(terminal)),
            None => {
                proof {
                    lemma_tweaks_map_domain(self.tweaks@, terminal);
                }
                self.tweaks.push((terminal, tweak));
                proof {
                    assert(self.tweaks@.drop_last() =~= old(self).tweaks@);
                }
                Ok(())
            },
        }
    }
}

/// Plain witness-key-hash descriptor: no commitment capability.
pub struct Wpkh {
    /// The compressed-key extended public key of the descriptor.
    pub key: bpstd::XpubDerivable,
}

impl Wpkh {
    /// The compressed key spent through at a terminal: the derived key,
    /// paired with the terminal it derives from.
    pub fn compr_keyset(&self, terminal: Terminal) -> (r: Vec<(bpstd::CompressedPk, Terminal)>)
        requires
            terminal.index < 0x8000_0000,
        ensures
            r@.len() == 1,
            r@[0].1 == terminal,
    {
        let key = derive_compr_key(&self.key, terminal.keychain, terminal.index);
        let mut r: Vec<(bpstd::CompressedPk, Terminal)> = Vec::new();
        r.push((key, terminal));
        r
    }

    /// The x-only key material at a terminal: none, the variant spends
    /// through compressed keys alone.
    pub fn xonly_keyset(&self, _terminal: Terminal) -> (r: Vec<(bpstd::XOnlyPk, Terminal)>)
        ensures
            r@.len() == 0,
    {
        Vec::new()
    }

    /// Derives the plain witness script shape for a terminal.
    pub fn derive(&self, keychain: u8, index: u32) -> (r: DerivedScript)
        ensures
            r == (DerivedScript::Wpkh { terminal: Terminal { keychain, index } }),
    {
        DerivedScript::Wpkh { terminal: Terminal::new(keychain, index) }
    }
}

/// Descriptor variants: a closed sum over the plain witness descriptor and
/// the commitment-capable taproot descriptor. Every operation dispatches to
/// the active variant.
pub enum RgbDescr {
    Wpkh(Wpkh),
    TapretKey(TapretKey),
}

impl RgbDescr {
    /// Derives the script shape for a terminal under the active variant.
    pub fn derive(&self, keychain: u8, index: u32) -> (r: DerivedScript)
        requires
            self.wf(),
        ensures
            ({
                let t = (Terminal { keychain, index });
                match *self {
                    RgbDescr::Wpkh(_) => r == (DerivedScript::Wpkh { terminal: t }),
                    RgbDescr::TapretKey(d) => {
                        if keychain == RgbKeychain::Tapret.spec_numeral()
                            && d.tweaks_map().contains_key(t) {
                            r matches DerivedScript::TaprootScript { terminal, commitment }
                                && terminal == t && commitment.bytes@ == d.tweaks_map()[t]
                        } else {
                            r == (DerivedScript::TaprootKeyOnly { terminal: t })
                        }
                    },
                }
            }),
    {
        match self {
            RgbDescr::Wpkh(d) => d.derive(keychain, index),
            RgbDescr::TapretKey(d) => d.derive(keychain, index),
        }
    }

    /// The default keychain of the active variant.
    pub fn default_keychain(&self) -> (r: RgbKeychain)
        ensures
            match *self {
                RgbDescr::Wpkh(_) => r == RgbKeychain::External,
                RgbDescr::TapretKey(_) => r == RgbKeychain::Rgb,
            },
    {
        match self {
            RgbDescr::Wpkh(_) => RgbKeychain::External,
            RgbDescr::TapretKey(d) => d.default_keychain(),
        }
    }

    /// All keychains the active variant derives under.
    pub fn keychains(&self) -> (r: Vec<RgbKeychain>)
        ensures
            match *self {
                RgbDescr::Wpkh(_) => r@ == seq![RgbKeychain::External, RgbKeychain::Internal],
                RgbDescr::TapretKey(_) => r@ == seq![
                    RgbKeychain::External,
                    RgbKeychain::Internal,
                    RgbKeychain::Rgb,
                    RgbKeychain::Tapret,
                ],
            },
    {
        match self {
            RgbDescr::Wpkh(_) => {
                let mut r: Vec<RgbKeychain> = Vec::new();
                r.push(RgbKeychain::External);
                r.push(RgbKeychain::Internal);
                proof {
                    assert(r@ =~= seq![RgbKeychain::External, RgbKeychain::Internal]);
                }
                r
            },
            RgbDescr::TapretKey(d) => d.keychains(),
        }
    }

    /// The signing keys of the active variant: its single extended key.
    pub fn keys(&self) -> (r: Vec<&bpstd::XpubDerivable>)
        ensures
            r@.len() == 1,
    {
        match self {
            RgbDescr::Wpkh(d) => {
                let mut r: Vec<&bpstd::XpubDerivable> = Vec::new();
                r.push(&d.key);
                r
            },
            RgbDescr::TapretKey(d) => d.keys(),
        }
    }

    /// Script class of the active variant.
    pub fn class(&self) -> (r: SpkClass)
        ensures
            match *self {
                RgbDescr::Wpkh(_) => r == SpkClass::P2wpkh,
                RgbDescr::TapretKey(_) => r == SpkClass::P2tr,
            },
    {
        match self {
            RgbDescr::Wpkh(_) => SpkClass::P2wpkh,
            RgbDescr::TapretKey(d) => d.class(),
        }
    }

    /// The x-only key material the active variant spends through at a
    /// terminal.
    pub fn xonly_keyset(&self, terminal: Terminal) -> (r: Vec<(bpstd::XOnlyPk, Terminal)>)
        requires
            terminal.index < 0x8000_0000,
        ensures
            match *self {
                RgbDescr::Wpkh(_) => r@.len() == 0,
                RgbDescr::TapretKey(_) => r@.len() == 1 && r@[0].1 == terminal,
            },
    {
        match self {
            RgbDescr::Wpkh(d) => d.xonly_keyset(terminal),
            RgbDescr::TapretKey(d) => d.xonly_keyset(terminal),
        }
    }

    /// The compressed key material the active variant spends through at a
    /// terminal.
    pub fn compr_keyset(&self, terminal: Terminal) -> (r: Vec<(bpstd::CompressedPk, Terminal)>)
        requires
            terminal.index < 0x8000_0000,
        ensures
            match *self {
                RgbDescr::Wpkh(_) => r@.len() == 1 && r@[0].1 == terminal,
                RgbDescr::TapretKey(_) => r@.len() == 0,
            },
    {
        match self {
            RgbDescr::Wpkh(d) => d.compr_keyset(terminal),
            RgbDescr::TapretKey(d) => d.compr_keyset(terminal),
        }
    }
}

impl DescriptorRgb for RgbDescr {
    open spec fn wf(&self) -> bool {
        match *self {
            RgbDescr::Wpkh(_) => true,
            RgbDescr::TapretKey(d) => d.wf_spec(),
        }
    }

    open spec fn tweaks_map(&self) -> Map<Terminal, Seq<u8>> {
        match *self {
            RgbDescr::Wpkh(_) => Map::empty(),
            RgbDescr::TapretKey(d) => tweaks_map_of(d.tweaks@),
        }
    }

    open spec fn tapret_capable(&self) -> bool {
        self matches RgbDescr::TapretKey(_)
    }

    open spec fn close_method_spec(&self) -> CloseMethod {
        match *self {
            RgbDescr::Wpkh(_) => CloseMethod::OpretFirst,
            RgbDescr::TapretKey(_) => CloseMethod::TapretFirst,
        }
    }

    fn seal_close_method(&self) -> (r: CloseMethod) {
        match self {
            RgbDescr::Wpkh(_) => CloseMethod::OpretFirst,
            RgbDescr::TapretKey(d) => d.seal_close_method(),
        }
    }

    fn add_tapret_tweak(&mut self, terminal: Terminal, tweak: Commitment) -> (r: Result<
        (),
        TapTweakAlreadyAssigned,
    >) {
        match self {
            RgbDescr::Wpkh(_) => {
                proof {
                    assert(false);
                }
                Err(TapTweakAlreadyAssigned(terminal))
            },
            RgbDescr::TapretKey(d) => d.add_tapret_tweak(terminal, tweak),
        }
    }
}

} // verus!
