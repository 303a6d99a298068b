//! Payment invoices and the resolution of their terms against an interface.
//!
//! An invoice is an immutable request. Missing operation or assignment names
//! may be defaulted from the interface's declarations; every other gap is an
//! error surfaced before any coin selection begins.

use vstd::prelude::*;

use crate::compose::CompositionError;
use crate::{ContractId, Ident, Script, SecretSeal};

verus! {

/// The owned state an invoice requests.
#[derive(Clone, Copy, PartialEq, Eq, Structural, Debug)]
pub enum InvoiceState {
    /// A fungible amount.
    Amount(u64),
    /// Any other owned-state kind; composition does not support these.
    Other,
}

/// Where the paid state is to end up.
#[derive(Clone, Copy, PartialEq, Eq, Structural, Debug)]
pub enum Beneficiary {
    /// An opaque, off-chain blinded seal; passes through composition
    /// unchanged.
    BlindedSeal(SecretSeal),
    /// An on-chain witness output paying to this script.
    WitnessVout(Script),
}

/// An immutable payment request.
#[derive(Clone, Copy, PartialEq, Eq, Structural, Debug)]
pub struct RgbInvoice {
    /// Target contract.
    pub contract: Option<ContractId>,
    /// Interface under which the contract is addressed.
    pub iface: Option<Ident>,
    /// Operation to perform; defaulted from the interface when absent.
    pub operation: Option<Ident>,
    /// Assignment type; defaulted from the operation's declaration when
    /// absent.
    pub assignment: Option<Ident>,
    /// Requested owned state.
    pub owned_state: InvoiceState,
    /// Where the state goes.
    pub beneficiary: Beneficiary,
    /// Optional expiry as a timestamp.
    pub expiry: Option<i64>,
}

/// An operation declared by an interface, with its default assignment type.
#[derive(Clone, Copy, PartialEq, Eq, Structural, Debug)]
pub struct IfaceTransition {
    pub name: Ident,
    pub default_assignment: Option<Ident>,
}

/// The interface declarations that invoice resolution reads: the default
/// operation and each operation's default assignment type.
pub struct Iface {
    pub default_operation: Option<Ident>,
    pub transitions: Vec<IfaceTransition>,
}

/// The fully resolved terms of one invoice.
#[derive(Clone, Copy, PartialEq, Eq, Structural, Debug)]
pub struct ResolvedTerms {
    pub contract_id: ContractId,
    pub operation: Ident,
    pub assignment: Ident,
}

/// First declared transition of the given name.
pub open spec fn spec_find_transition(transitions: Seq<IfaceTransition>, name: Ident) -> Option<
    IfaceTransition,
>
    decreases transitions.len(),
{
    if transitions.len() == 0 {
        None
    } else if transitions.first().name == name {
        Some(transitions.first())
    } else {
        spec_find_transition(transitions.drop_first(), name)
    }
}

/// Resolution of an invoice's terms against the interface: the contract and
/// interface must be named, the invoice must not be expired, and operation
/// and assignment are taken from the invoice or defaulted from the
/// interface's declarations.
pub open spec fn spec_resolution(invoice: RgbInvoice, iface: &Iface, now: i64) -> Result<
    ResolvedTerms,
    CompositionError,
> {
    if invoice.contract is None {
        Err(CompositionError::NoContract)
    } else if invoice.iface is None {
        Err(CompositionError::NoIface)
    } else if invoice.expiry matches Some(e) && e < now {
        Err(CompositionError::InvoiceExpired)
    } else {
        let operation = if invoice.operation is Some {
            invoice.operation
        } else {
            iface.default_operation
        };
        match operation {
            Some(op) => {
                let assignment = if invoice.assignment is Some {
                    invoice.assignment
                } else {
                    match spec_find_transition(iface.transitions@, op) {
                        Some(t) => t.default_assignment,
                        None => None,
                    }
                };
                match assignment {
                    Some(a) => Ok(
                        ResolvedTerms {
                            contract_id: invoice.contract.unwrap(),
                            operation: op,
                            assignment: a,
                        },
                    ),
                    None => Err(CompositionError::NoAssignment),
                }
            },
            None => Err(CompositionError::NoOperation),
        }
    }
}

/// First declared transition of the given name.
pub fn find_transition(iface: &Iface, name: Ident) -> (r: Option<IfaceTransition>)
    ensures
        r == spec_find_transition(iface.transitions@, name),
{
    let mut i: usize = 0;
    proof {
        assert(iface.transitions@.subrange(0, iface.transitions@.len() as int)
            =~= iface.transitions@);
    }
    while i < iface.transitions.len()
        invariant
            i <= iface.transitions@.len(),
            spec_find_transition(iface.transitions@, name) == spec_find_transition(
                iface.transitions@.subrange(i as int, iface.transitions@.len() as int),
                name,
            ),
        decreases iface.transitions@.len() - i,
    {
        proof {
            let rest = iface.transitions@.subrange(i as int, iface.transitions@.len() as int);
            assert(rest.first() == iface.transitions@[i as int]);
            assert(rest.drop_first() =~= iface.transitions@.subrange(
                i as int + 1,
                iface.transitions@.len() as int,
            ));
        }
        if iface.transitions[i].name == name {
            return Some(iface.transitions[i]);
        }
        i = i + 1;
    }
    proof {
        assert(iface.transitions@.subrange(
            iface.transitions@.len() as int,
            iface.transitions@.len() as int,
        ) =~= Seq::<IfaceTransition>::empty());
    }
    None
}

/// Resolves the invoice's terms, defaulting the operation and the assignment
/// type from the interface where the invoice leaves them out.
pub fn resolve_invoice_terms(invoice: &RgbInvoice, iface: &Iface, now: i64) -> (r: Result<
    ResolvedTerms,
    CompositionError,
>)
    ensures
        r == spec_resolution(*invoice, iface, now),
{
    let contract_id = match invoice.contract {
        Some(c) => c,
        None => {
            return Err(CompositionError::NoContract);
        },
    };
    if invoice.iface.is_none() {
        return Err(CompositionError::NoIface);
    }
    match invoice.expiry {
        Some(e) => {
            if e < now {
                return Err(CompositionError::InvoiceExpired);
            }
        },
        None => {},
    }
    let operation = match invoice.operation {
        Some(op) => op,
        None => {
            match iface.default_operation {
                Some(op) => op,
                None => {
                    return Err(CompositionError::NoOperation);
                },
            }
        },
    };
    let assignment = match invoice.assignment {
        Some(a) => Some(a),
        None => {
            match find_transition(iface, operation) {
                Some(t) => t.default_assignment,
                None => None,
            }
        },
    };
    match assignment {
        Some(a) => Ok(ResolvedTerms { contract_id, operation, assignment: a }),
        None => Err(CompositionError::NoAssignment),
    }
}

} // verus!
