//! The unsigned transaction skeleton and the deterministic commitment-host
//! placement over its outputs.
//!
//! The skeleton is produced by the external transaction constructor as an
//! ordered list of outputs with per-output host flags all clear. The
//! composition then tags exactly one taproot-shaped non-beneficiary output as
//! the taproot commitment host, stable-partitions the outputs so that every
//! non-host output precedes every host output, re-resolves recorded indices
//! by script equality, and finally embeds the commitment payload into the
//! tagged hosts.

use vstd::prelude::*;

use crate::descriptor::Commitment;
use crate::{Outpoint, Script, SpkClass, Terminal};

verus! {

/// One output of the skeleton under construction.
#[derive(Clone, Copy, PartialEq, Eq, Debug)]
pub struct Output {
    /// The output script.
    pub script: Script,
    /// The output value in satoshis.
    pub value: u64,
    /// Whether the output is tagged as the taproot commitment host.
    pub tapret_host: bool,
    /// Whether the output is tagged as the null-data commitment host.
    pub opret_host: bool,
    /// Derivation terminal recorded at construction time for wallet-owned
    /// outputs.
    pub terminal: Option<Terminal>,
    /// Commitment embedded under the taproot method, once embedded.
    pub tapret_commitment: Option<Commitment>,
    /// Commitment embedded under the null-data method, once embedded.
    pub opret_commitment: Option<Commitment>,
}

impl Output {
    /// A fresh, untagged output as the constructor returns it.
    pub fn new(script: Script, value: u64, terminal: Option<Terminal>) -> (r: Output)
        ensures
            r == (Output {
                script,
                value,
                tapret_host: false,
                opret_host: false,
                terminal,
                tapret_commitment: None::<Commitment>,
                opret_commitment: None::<Commitment>,
            }),
    {
        Output {
            script,
            value,
            tapret_host: false,
            opret_host: false,
            terminal,
            tapret_commitment: None,
            opret_commitment: None,
        }
    }
}

/// The unsigned transaction skeleton: ordered inputs and outputs, and a
/// structure flag cleared when construction completes.
pub struct TxSkeleton {
    /// The previous outputs spent by the transaction.
    pub inputs: Vec<Outpoint>,
    /// The ordered outputs.
    pub outputs: Vec<Output>,
    /// Whether the output list may still be restructured.
    pub modifiable: bool,
}

/// Metadata the transaction constructor reports beside the skeleton.
#[derive(Clone, Copy, PartialEq, Eq, Structural, Debug)]
pub struct PsbtMeta {
    /// Index of the change output, if the constructor added one.
    pub change_vout: Option<usize>,
}

/// An output that may be tagged as the taproot commitment host: taproot by
/// script shape and not a beneficiary output.
pub open spec fn is_tapret_candidate(output: Output, beneficiary_scripts: Seq<Script>) -> bool {
    output.script.spec_is_p2tr() && !beneficiary_scripts.contains(output.script)
}

/// No host flag is set on any output.
pub open spec fn all_unhosted(outputs: Seq<Output>) -> bool {
    forall|k: int|
        0 <= k < outputs.len() ==> !(#[trigger] outputs[k]).tapret_host && !outputs[k].opret_host
}

/// One step of a filtered prefix.
pub proof fn lemma_filter_step<A>(s: Seq<A>, n: int, pred: spec_fn(A) -> bool)
    requires
        0 <= n < s.len(),
    ensures
        s.subrange(0, n + 1).filter(pred) == if pred(s[n]) {
            s.subrange(0, n).filter(pred).push(s[n])
        } else {
            s.subrange(0, n).filter(pred)
        },
{
    reveal(Seq::filter);
    assert(s.subrange(0, n + 1).drop_last() =~= s.subrange(0, n));
    assert(s.subrange(0, n + 1).last() == s[n]);
}

/// A sequence with exactly one flagged output splits under the host
/// partition into that output alone and the rest.
pub proof fn lemma_single_host_filter(s: Seq<Output>, j: int)
    requires
        0 <= j < s.len(),
        s[j].tapret_host,
        forall|k: int| 0 <= k < s.len() && k != j ==> !(#[trigger] s[k]).tapret_host,
    ensures
        s.filter(|o: Output| o.tapret_host) =~= seq![s[j]],
        s.filter(|o: Output| !o.tapret_host).len() == s.len() - 1,
    decreases s.len(),
{
    reveal(Seq::filter);
    broadcast use vstd::seq_lib::group_filter_ensures;

    if j == s.len() - 1 {
        assert(forall|k: int|
            0 <= k < s.drop_last().len() ==> !(#[trigger] s.drop_last()[k]).tapret_host);
        lemma_all_unflagged_filter(s.drop_last());
    } else {
        assert(forall|k: int|
            0 <= k < s.drop_last().len() && k != j ==> !(#[trigger] s.drop_last()[k]).tapret_host);
        lemma_single_host_filter(s.drop_last(), j);
    }
}

/// A sequence with no flagged output is unchanged by the non-host filter and
/// empty under the host filter.
pub proof fn lemma_all_unflagged_filter(s: Seq<Output>)
    requires
        forall|k: int| 0 <= k < s.len() ==> !(#[trigger] s[k]).tapret_host,
    ensures
        s.filter(|o: Output| o.tapret_host) =~= Seq::<Output>::empty(),
        s.filter(|o: Output| !o.tapret_host) =~= s,
    decreases s.len(),
{
    reveal(Seq::filter);
    if s.len() > 0 {
        assert(forall|k: int|
            0 <= k < s.drop_last().len() ==> !(#[trigger] s.drop_last()[k]).tapret_host);
        lemma_all_unflagged_filter(s.drop_last());
        assert(s.filter(|o: Output| !o.tapret_host) =~= s.drop_last().push(s.last()));
        assert(s.drop_last().push(s.last()) =~= s);
    }
}

impl TxSkeleton {
    /// First output index carrying the given script, if any.
    pub fn find_script_vout(&self, script: Script) -> (r: Option<usize>)
        ensures
            match r {
                Some(j) => j < self.outputs@.len() && self.outputs@[j as int].script == script
                    && forall|k: int|
                    0 <= k < j ==> (#[trigger] self.outputs@[k]).script != script,
                None => forall|k: int|
                    0 <= k < self.outputs@.len() ==> (#[trigger] self.outputs@[k]).script
                        != script,
            },
    {
        let mut j: usize = 0;
        while j < self.outputs.len()
            invariant
                j <= self.outputs@.len(),
                forall|k: int| 0 <= k < j ==> (#[trigger] self.outputs@[k]).script != script,
            decreases self.outputs@.len() - j,
        {
            if self.outputs[j].script == script {
                return Some(j);
            }
            j = j + 1;
        }
        None
    }

    /// Tags the first taproot-shaped output that is not a beneficiary output
    /// as the taproot commitment host. Leaves the skeleton unchanged when no
    /// output qualifies.
    pub fn tag_tapret_host(&mut self, beneficiary_scripts: &Vec<Script>) -> (r: Option<usize>)
        requires
            old(self).modifiable,
            all_unhosted(old(self).outputs@),
        ensures
            final(self).inputs@ == old(self).inputs@,
            final(self).modifiable,
            match r {
                Some(j) => {
                    &&& j < old(self).outputs@.len()
                    &&& is_tapret_candidate(old(self).outputs@[j as int], beneficiary_scripts@)
                    &&& forall|k: int|
                        0 <= k < j ==> !is_tapret_candidate(
                            (#[trigger] old(self).outputs@[k]),
                            beneficiary_scripts@,
                        )
                    &&& final(self).outputs@ == old(self).outputs@.update(
                        j as int,
                        (Output { tapret_host: true, ..old(self).outputs@[j as int] }),
                    )
                },
                None => {
                    &&& forall|k: int|
                        0 <= k < old(self).outputs@.len() ==> !is_tapret_candidate(
                            (#[trigger] old(self).outputs@[k]),
                            beneficiary_scripts@,
                        )
                    &&& final(self).outputs@ == old(self).outputs@
                },
            },
    {
        let mut j: usize = 0;
        while j < self.outputs.len()
            invariant
                self == old(self),
                self.modifiable,
                j <= self.outputs@.len(),
                forall|k: int|
                    0 <= k < j ==> !is_tapret_candidate(
                        (#[trigger] self.outputs@[k]),
                        beneficiary_scripts@,
                    ),
            decreases self.outputs@.len() - j,
        {
            let candidate = self.outputs[j].script.is_p2tr() && !contains_script(
                beneficiary_scripts,
                self.outputs[j].script,
            );
            if candidate {
                let tagged = Output { tapret_host: true, ..self.outputs[j] };
                self.outputs.set(j, tagged);
                return Some(j);
            }
            j = j + 1;
        }
        None
    }

    /// Stable partition of the outputs: every non-host output precedes every
    /// host output, relative order preserved within each group.
    pub fn sort_outputs_by_host(&mut self)
        requires
            old(self).modifiable,
        ensures
            final(self).inputs@ == old(self).inputs@,
            final(self).modifiable,
            final(self).outputs@ == old(self).outputs@.filter(|o: Output| !o.tapret_host)
                + old(self).outputs@.filter(|o: Output| o.tapret_host),
    {
        let ghost orig = self.outputs@;
        let mut sorted: Vec<Output> = Vec::new();
        let mut i: usize = 0;
        while i < self.outputs.len()
            invariant
                self == old(self),
                i <= self.outputs@.len(),
                sorted@ == self.outputs@.subrange(0, i as int).filter(|o: Output| !o.tapret_host),
            decreases self.outputs@.len() - i,
        {
            proof {
                lemma_filter_step(self.outputs@, i as int, |o: Output| !o.tapret_host);
            }
            if !self.outputs[i].tapret_host {
                sorted.push(self.outputs[i]);
            }
            i = i + 1;
        }
        proof {
            reveal(Seq::filter);
            assert(self.outputs@.subrange(0, self.outputs@.len() as int) =~= self.outputs@);
            assert(self.outputs@.subrange(0, 0).filter(|o: Output| o.tapret_host)
                =~= Seq::<Output>::empty());
            assert(sorted@ =~= self.outputs@.filter(|o: Output| !o.tapret_host)
                + self.outputs@.subrange(0, 0).filter(|o: Output| o.tapret_host));
        }
        let mut h: usize = 0;
        while h < self.outputs.len()
            invariant
                self == old(self),
                h <= self.outputs@.len(),
                sorted@ == self.outputs@.filter(|o: Output| !o.tapret_host) + self.outputs@.subrange(
                    0,
                    h as int,
                ).filter(|o: Output| o.tapret_host),
            decreases self.outputs@.len() - h,
        {
            proof {
                lemma_filter_step(self.outputs@, h as int, |o: Output| o.tapret_host);
            }
            if self.outputs[h].tapret_host {
                sorted.push(self.outputs[h]);
            }
            h = h + 1;
        }
        proof {
            assert(self.outputs@.subrange(0, self.outputs@.len() as int) =~= self.outputs@);
            assert(sorted@ =~= self.outputs@.filter(|o: Output| !o.tapret_host) + self.outputs@.filter(
                |o: Output| o.tapret_host,
            ));
        }
        self.outputs = sorted;
    }

    /// Appends a fresh zero-value null-data output tagged as the null-data
    /// commitment host.
    pub fn append_opret_host(&mut self)
        requires
            old(self).modifiable,
        ensures
            final(self).inputs@ == old(self).inputs@,
            final(self).modifiable,
            final(self).outputs@ == old(self).outputs@.push(
                (Output {
                    script: Script { class: SpkClass::OpReturn, body: 0 },
                    value: 0,
                    tapret_host: false,
                    opret_host: true,
                    terminal: None::<Terminal>,
                    tapret_commitment: None::<Commitment>,
                    opret_commitment: None::<Commitment>,
                }),
            ),
    {
        let script = Script::op_return_empty();
        self.outputs.push(
            Output {
                script,
                value: 0,
                tapret_host: false,
                opret_host: true,
                terminal: None,
                tapret_commitment: None,
                opret_commitment: None,
            },
        );
    }

    /// Locks the skeleton's structure: no output may be added, removed or
    /// reordered afterwards.
    pub fn complete_construction(&mut self)
        ensures
            final(self).inputs@ == old(self).inputs@,
            final(self).outputs@ == old(self).outputs@,
            !final(self).modifiable,
    {
        self.modifiable = false;
    }

    /// First output index tagged as taproot commitment host, if any.
    pub fn find_tapret_host(&self) -> (r: Option<usize>)
        ensures
            match r {
                Some(j) => j < self.outputs@.len() && self.outputs@[j as int].tapret_host
                    && forall|k: int|
                    0 <= k < j ==> !(#[trigger] self.outputs@[k]).tapret_host,
                None => forall|k: int|
                    0 <= k < self.outputs@.len() ==> !(#[trigger] self.outputs@[k]).tapret_host,
            },
    {
        let mut j: usize = 0;
        while j < self.outputs.len()
            invariant
                j <= self.outputs@.len(),
                forall|k: int| 0 <= k < j ==> !(#[trigger] self.outputs@[k]).tapret_host,
            decreases self.outputs@.len() - j,
        {
            if self.outputs[j].tapret_host {
                return Some(j);
            }
            j = j + 1;
        }
        None
    }

    /// First output index tagged as null-data commitment host, if any.
    pub fn find_opret_host(&self) -> (r: Option<usize>)
        ensures
            match r {
                Some(j) => j < self.outputs@.len() && self.outputs@[j as int].opret_host
                    && forall|k: int|
                    0 <= k < j ==> !(#[trigger] self.outputs@[k]).opret_host,
                None => forall|k: int|
                    0 <= k < self.outputs@.len() ==> !(#[trigger] self.outputs@[k]).opret_host,
            },
    {
        let mut j: usize = 0;
        while j < self.outputs.len()
            invariant
                j <= self.outputs@.len(),
                forall|k: int| 0 <= k < j ==> !(#[trigger] self.outputs@[k]).opret_host,
            decreases self.outputs@.len() - j,
        {
            if self.outputs[j].opret_host {
                return Some(j);
            }
            j = j + 1;
        }
        None
    }
}

/// Whether a sequence of scripts holds the given one.
pub fn contains_script(scripts: &Vec<Script>, script: Script) -> (r: bool)
    ensures
        r == scripts@.contains(script),
{
    let mut i: usize = 0;
    while i < scripts.len()
        invariant
            i <= scripts@.len(),
            forall|j: int| 0 <= j < i ==> scripts@[j] != script,
        decreases scripts@.len() - i,
    {
        if scripts[i] == script {
            return true;
        }
        i = i + 1;
    }
    false
}

} // verus!
