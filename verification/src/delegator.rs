//! Delegator resolution.
//!
//! Each variant of the sum type forwards calls to one value, its delegator.
//! The precedence is fixed: an explicit closure annotation wins; then, for
//! an extracted variant, the wrapped generated value itself — extraction
//! never exposes raw inner fields, so a field-level marker only influences
//! how the wrapper is built; then the marker; then the first field in
//! declaration order; a unit variant that none of these covers cannot
//! forward calls.

use vstd::prelude::*;

use crate::errors::Error;
use crate::generics::{_None, _Some};
use crate::variant::SaneVariant;
use crate::variant_fields::SaneVariantFields;

verus! {

/// The value one variant's dispatch arm binds and forwards to.
#[derive(Debug, Clone, Copy, PartialEq, Eq, Structural)]
pub enum DelegatorPlan {
    /// Apply the annotated closure to the variant's first `params` fields
    /// in declaration order (to the wrapped value itself, for an extracted
    /// variant), and forward to its result.
    Closure { params: usize },
    /// Forward to the named field at this position.
    NamedField { field: usize },
    /// Forward to the positional field at this position.
    PositionalField { field: usize },
    /// Forward to the wrapped generated value itself.
    Wrapped,
}

/// The resolution rule, as a function of the variant model and of whether
/// the variant will be extracted.  For an extracted variant the delegator
/// derives only from the wrapped generated value: the closure annotation
/// is applied to it, and anything else resolves to the wrapper itself.
pub open spec fn spec_resolve(v: SaneVariant, will_be_extracted: bool) -> Result<
    DelegatorPlan,
    Error,
> {
    if v.explicit_delegator is _Some {
        Ok(
            DelegatorPlan::Closure {
                params: v.explicit_delegator->_Some_0->Expr_1.inputs@.len() as usize,
            },
        )
    } else if will_be_extracted {
        Ok(DelegatorPlan::Wrapped)
    } else if v.fields.spec_delegator_field() is Some {
        match v.fields {
            SaneVariantFields::Named(named) => Ok(
                DelegatorPlan::NamedField { field: named.delegator.unwrap() },
            ),
            SaneVariantFields::Unnamed(unnamed) => Ok(
                DelegatorPlan::PositionalField { field: unnamed.delegator.unwrap() },
            ),
            SaneVariantFields::Unit => Err(Error::DelegatorMissing { variant: v.ident }),
        }
    } else if v.fields.spec_field_count() > 0 {
        match v.fields {
            SaneVariantFields::Named(_) => Ok(DelegatorPlan::NamedField { field: 0 }),
            SaneVariantFields::Unnamed(_) => Ok(DelegatorPlan::PositionalField { field: 0 }),
            SaneVariantFields::Unit => Err(Error::DelegatorMissing { variant: v.ident }),
        }
    } else {
        Err(Error::DelegatorMissing { variant: v.ident })
    }
}

/// Resolve the delegator of one variant.
pub fn resolve(variant: &SaneVariant, will_be_extracted: bool) -> (r: Result<DelegatorPlan, Error>)
    ensures
        r == spec_resolve(*variant, will_be_extracted),
{
    match &variant.explicit_delegator {
        _Some(d) => {
            let crate::variant::ExplicitDelegator::Expr(_, c) = d;
            return Ok(DelegatorPlan::Closure { params: c.inputs.len() });
        },
        _None => (),
    }
    if will_be_extracted {
        return Ok(DelegatorPlan::Wrapped);
    }
    match &variant.fields {
        SaneVariantFields::Named(named) => {
            match named.delegator {
                Some(j) => {
                    return Ok(DelegatorPlan::NamedField { field: j });
                },
                None => (),
            }
        },
        SaneVariantFields::Unnamed(unnamed) => {
            match unnamed.delegator {
                Some(j) => {
                    return Ok(DelegatorPlan::PositionalField { field: j });
                },
                None => (),
            }
        },
        SaneVariantFields::Unit => (),
    }
    let count = match &variant.fields {
        SaneVariantFields::Named(named) => named.fields.len(),
        SaneVariantFields::Unnamed(unnamed) => unnamed.fields.len(),
        SaneVariantFields::Unit => 0,
    };
    if count > 0 {
        match &variant.fields {
            SaneVariantFields::Named(_) => Ok(DelegatorPlan::NamedField { field: 0 }),
            SaneVariantFields::Unnamed(_) => Ok(DelegatorPlan::PositionalField { field: 0 }),
            SaneVariantFields::Unit => Err(Error::DelegatorMissing { variant: variant.ident.clone() }),
        }
    } else {
        Err(Error::DelegatorMissing { variant: variant.ident.clone() })
    }
}

/// A separately marked field resolves the delegator, never the first
/// field: on a variant that is not extracted (where extraction applies,
/// the wrapped value wins regardless of any marker) and carries no closure
/// annotation, the plan names exactly the marked position, and where that
/// position is not the first, the plan differs from the one the
/// first-field rule would give.
pub proof fn lemma_marked_field_overrides_first(v: SaneVariant, j: usize)
    requires
        v.explicit_delegator is _None,
        v.fields.spec_delegator_field() == Some(j),
    ensures
        v.fields is Named ==> spec_resolve(v, false) == Ok::<DelegatorPlan, Error>(
            DelegatorPlan::NamedField { field: j },
        ),
        v.fields is Unnamed ==> spec_resolve(v, false) == Ok::<DelegatorPlan, Error>(
            DelegatorPlan::PositionalField { field: j },
        ),
        j != 0 ==> spec_resolve(v, false) != Ok::<DelegatorPlan, Error>(
            DelegatorPlan::NamedField { field: 0 },
        ) && spec_resolve(v, false) != Ok::<DelegatorPlan, Error>(
            DelegatorPlan::PositionalField { field: 0 },
        ),
{
}

} // verus!
