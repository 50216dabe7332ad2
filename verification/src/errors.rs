//! The failure taxonomy.
//!
//! Every failure is static and terminal for the affected declaration alone.
//! A conflict names both offending sites (as positions in the list the
//! offending items came from); a single-cause failure names the one site or
//! the variant concerned.

use vstd::prelude::*;

verus! {

#[derive(Debug, Clone, PartialEq, Eq)]
pub enum Error {
    /// Mutually exclusive settings, or one setting given twice; the two
    /// positions in the settings list are named.
    ConfigConflict { first: usize, second: usize },
    /// An explicit delegator annotation and a field-level delegator marker on
    /// one variant, or two field-level markers; the two field positions (or,
    /// for the annotation, the variant itself as position zero) are named.
    DelegatorConflict { first: usize, second: usize },
    /// A unit variant that is not extracted and carries no annotation cannot
    /// forward calls.
    DelegatorMissing { variant: String },
    /// A delegator closure with more parameters than the variant has fields,
    /// or more than one where a single-value wrapper is required.
    ClosureArityMismatch { params: usize, allowed: usize },
    /// Conversions were requested for a variant with a field count other
    /// than one that is not extraction-flagged.
    ConversionIneligible { variant: String },
    /// A raw code-macro invocation where only declarative items are
    /// accepted.
    DisallowedConstruct,
    /// A `where` clause on a declaration without a generic-parameter list.
    WhereClauseWithoutGenerics,
    /// An impl block whose implemented type holds no identifiable main
    /// path to derive the dispatch construct's name from.
    EnumIdentNotFound,
    /// A forwarded method without a `self` receiver.
    MissingReceiver { method: String },
    /// A forwarded method with more than one receiver.
    ExtraReceiver { method: String },
    /// A forwarded method parameter spelt as a pattern instead of a plain
    /// binding.
    PatternParameter,
    /// A forwarded associated constant without a value.
    AssocConstWithoutValue { name: String },
    /// A forwarded associated type without a definition.
    AssocTypeWithoutValue { name: String },
}

} // verus!
