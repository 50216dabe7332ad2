//! The runtime meaning of the emitted conversions.
//!
//! A value of the sum type is a tagged payload: the index of its variant
//! and the field values the variant holds (an extracted variant holds its
//! single wrapped value).  The emitted conversions inject a value into the
//! sum and extract it back; the round trip is the identity, and a failed
//! extraction returns the whole sum unchanged, losing nothing.

use vstd::prelude::*;

verus! {

/// A runtime value of a sum type with payloads of type `T`: the variant's
/// index and its field values in declaration order.
#[derive(Debug)]
pub struct SumValue<T> {
    pub variant: usize,
    pub fields: Vec<T>,
}

/// The mathematical model of a sum value.
pub open spec fn sum_view<T>(s: SumValue<T>) -> (int, Seq<T>) {
    (s.variant as int, s.fields@)
}

/// What injection builds: the tagged single value.
pub open spec fn spec_inject<T>(variant: int, value: T) -> (int, Seq<T>) {
    (variant, seq![value])
}

/// What extraction returns: the payload when the tag and shape match, else
/// the whole sum unchanged.
pub open spec fn spec_extract<T>(variant: int, sv: (int, Seq<T>)) -> Result<T, (int, Seq<T>)> {
    if sv.0 == variant && sv.1.len() == 1 {
        Ok(sv.1[0])
    } else {
        Err(sv)
    }
}

/// The total value-to-sum injection the conversion emitter plans for a
/// conversion-eligible variant.
pub fn enum_from_variant_value<T>(variant: usize, value: T) -> (s: SumValue<T>)
    ensures
        sum_view(s) == spec_inject(variant as int, value),
{
    let mut fields: Vec<T> = Vec::new();
    fields.push(value);
    let s = SumValue { variant, fields };
    proof {
        assert(s.fields@ =~= seq![value]);
    }
    s
}

/// The fallible sum-to-value extraction: the error carries back the
/// original, unmatched sum, so no data is lost.
pub fn variant_try_from_enum_value<T>(variant: usize, s: SumValue<T>) -> (r: Result<T, SumValue<T>>)
    ensures
        match spec_extract(variant as int, sum_view(s)) {
            Ok(v) => r is Ok && r->Ok_0 == v,
            Err(sv) => r is Err && r->Err_0 == s,
        },
{
    if s.variant == variant && s.fields.len() == 1 {
        let SumValue { variant: _, mut fields } = s;
        let v = fields.remove(0);
        Ok(v)
    } else {
        Err(s)
    }
}

/// The borrowing extraction; the error type is unit, since no ownership
/// can be returned through a borrow.
pub fn variant_ref_from_enum_value<'a, T>(variant: usize, s: &'a SumValue<T>) -> (r: Option<&'a T>)
    ensures
        match spec_extract(variant as int, sum_view(*s)) {
            Ok(v) => r is Some && *r->0 == v,
            Err(_) => r is None,
        },
{
    if s.variant == variant && s.fields.len() == 1 {
        Some(&s.fields[0])
    } else {
        None
    }
}

/// The mutably-borrowing extraction; as with the shared borrow, the
/// error type is unit, since no ownership can be returned through a
/// borrow.
pub fn variant_mut_from_enum_value<'a, T>(variant: usize, s: &'a mut SumValue<T>) -> (r: Option<
    &'a mut T,
>)
    ensures
        match spec_extract(variant as int, sum_view(*old(s))) {
            Ok(v) => r is Some && *r->0 == v,
            Err(_) => r is None && *final(s) == *old(s),
        },
{
    if s.variant == variant && s.fields.len() == 1 {
        Some(&mut s.fields[0])
    } else {
        None
    }
}

/// The round-trip law of the emitted conversions: for any
/// conversion-eligible variant, injecting a value and extracting at the
/// same variant yields the value back; extracting from a sum whose tag
/// does not match returns the original sum unchanged as the error payload.
pub proof fn lemma_conversion_round_trip<T>(variant: int, value: T, other: (int, Seq<T>))
    ensures
        spec_extract(variant, spec_inject(variant, value)) == Ok::<T, (int, Seq<T>)>(value),
        other.0 != variant ==> spec_extract(variant, other) == Err::<T, (int, Seq<T>)>(other),
{
}

} // verus!
