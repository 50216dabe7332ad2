//! The raw and sanitized shapes of one variant's fields.
//!
//! A raw field carries its attributes, among them the field-level delegator
//! marker.  Sanitizing strips the markers, keeps every other attribute for
//! re-emission, and records which field, if any, was marked — at most one
//! marker over the whole variant, or the conflict names both occurrences.

use vstd::prelude::*;

use crate::ast::TypeExpr;
use crate::errors::Error;

verus! {

/// One attribute on a variant field: the delegator marker, or anything
/// else, kept as opaque text for re-emission.
#[derive(Debug)]
pub enum VariantFieldMeta {
    Delegator,
    Other(String),
}

/// A raw named field, `ident: ty` with its attributes.
#[derive(Debug)]
pub struct VariantFieldNamed {
    pub attrs: Vec<VariantFieldMeta>,
    pub ident: String,
    pub ty: TypeExpr,
}

/// A raw positional field.
#[derive(Debug)]
pub struct VariantFieldUnnamed {
    pub attrs: Vec<VariantFieldMeta>,
    pub ty: TypeExpr,
}

/// The raw fields of one variant.
#[derive(Debug)]
pub enum VariantFields {
    Named(Vec<VariantFieldNamed>),
    Unnamed(Vec<VariantFieldUnnamed>),
    Unit,
}

impl VariantFields {
    pub open spec fn spec_field_count(&self) -> nat {
        match self {
            VariantFields::Named(fields) => fields@.len(),
            VariantFields::Unnamed(fields) => fields@.len(),
            VariantFields::Unit => 0,
        }
    }

    pub fn field_count(&self) -> (r: usize)
        ensures
            r == self.spec_field_count(),
    {
        match self {
            VariantFields::Named(fields) => fields.len(),
            VariantFields::Unnamed(fields) => fields.len(),
            VariantFields::Unit => 0,
        }
    }
}

/// A sanitized named field: marker stripped, other attributes kept.
#[derive(Debug)]
pub struct SaneVariantFieldNamed {
    pub attrs: Vec<String>,
    pub ident: String,
    pub ty: TypeExpr,
}

/// A sanitized positional field.
#[derive(Debug)]
pub struct SaneVariantFieldUnnamed {
    pub attrs: Vec<String>,
    pub ty: TypeExpr,
}

/// Sanitized named fields, with the position of the marked field, if any.
#[derive(Debug)]
pub struct SaneVariantFieldsNamed {
    pub fields: Vec<SaneVariantFieldNamed>,
    pub delegator: Option<usize>,
}

/// Sanitized positional fields, with the position of the marked field, if
/// any.
#[derive(Debug)]
pub struct SaneVariantFieldsUnnamed {
    pub fields: Vec<SaneVariantFieldUnnamed>,
    pub delegator: Option<usize>,
}

/// The sanitized fields of one variant.
#[derive(Debug)]
pub enum SaneVariantFields {
    Named(SaneVariantFieldsNamed),
    Unnamed(SaneVariantFieldsUnnamed),
    Unit,
}

impl SaneVariantFields {
    /// The position of the field that carries the delegator marker.
    pub fn delegator_field_kw(&self) -> (r: Option<usize>)
        ensures
            r == self.spec_delegator_field(),
    {
        match self {
            SaneVariantFields::Named(named) => named.delegator,
            SaneVariantFields::Unnamed(unnamed) => unnamed.delegator,
            SaneVariantFields::Unit => None,
        }
    }

    pub open spec fn spec_delegator_field(&self) -> Option<usize> {
        match self {
            SaneVariantFields::Named(named) => named.delegator,
            SaneVariantFields::Unnamed(unnamed) => unnamed.delegator,
            SaneVariantFields::Unit => None,
        }
    }

    pub open spec fn spec_field_count(&self) -> nat {
        match self {
            SaneVariantFields::Named(named) => named.fields@.len(),
            SaneVariantFields::Unnamed(unnamed) => unnamed.fields@.len(),
            SaneVariantFields::Unit => 0,
        }
    }
}

/// Positions of the delegator markers among one field's attributes.
pub open spec fn mark_indices(attrs: Seq<VariantFieldMeta>, n: int) -> Seq<int>
    decreases n,
{
    if n <= 0 || n > attrs.len() {
        Seq::empty()
    } else {
        mark_indices(attrs, n - 1) + if attrs[n - 1] is Delegator {
            seq![n - 1]
        } else {
            Seq::empty()
        }
    }
}

/// The attributes a sanitized field keeps: everything but the markers, in
/// order.
pub open spec fn passthrough_of(attrs: Seq<VariantFieldMeta>, n: int) -> Seq<String>
    decreases n,
{
    if n <= 0 || n > attrs.len() {
        Seq::empty()
    } else {
        passthrough_of(attrs, n - 1) + match attrs[n - 1] {
            VariantFieldMeta::Delegator => Seq::empty(),
            VariantFieldMeta::Other(s) => seq![s],
        }
    }
}

/// Whether one field's attributes carry at least one marker.
pub open spec fn attrs_marked(attrs: Seq<VariantFieldMeta>) -> bool {
    mark_indices(attrs, attrs.len() as int).len() > 0
}

/// Whether one field's attributes carry more than one marker.
pub open spec fn attrs_dup_marked(attrs: Seq<VariantFieldMeta>) -> bool {
    mark_indices(attrs, attrs.len() as int).len() >= 2
}

/// Strip one named field: the marker positions and every other attribute.
pub fn sanitize_field_named(field: VariantFieldNamed) -> (r: Result<
    (SaneVariantFieldNamed, bool),
    Error,
>)
    ensures
        r is Err <==> attrs_dup_marked(field.attrs@),
        match r {
            Ok((nf, marked)) => {
                &&& nf.ident == field.ident
                &&& nf.ty == field.ty
                &&& nf.attrs@ == passthrough_of(field.attrs@, field.attrs@.len() as int)
                &&& marked == attrs_marked(field.attrs@)
            },
            Err(e) => e == (Error::DelegatorConflict {
                first: mark_indices(field.attrs@, field.attrs@.len() as int)[0] as usize,
                second: mark_indices(field.attrs@, field.attrs@.len() as int)[1] as usize,
            }),
        },
{
    let VariantFieldNamed { attrs, ident, ty } = field;
    let marks = scan_marks(&attrs)?;
    let kept = keep_passthrough(&attrs);
    Ok((SaneVariantFieldNamed { attrs: kept, ident, ty }, marks.is_some()))
}

/// Strip one positional field, as `sanitize_field_named`.
pub fn sanitize_field_unnamed(field: VariantFieldUnnamed) -> (r: Result<
    (SaneVariantFieldUnnamed, bool),
    Error,
>)
    ensures
        r is Err <==> attrs_dup_marked(field.attrs@),
        match r {
            Ok((nf, marked)) => {
                &&& nf.ty == field.ty
                &&& nf.attrs@ == passthrough_of(field.attrs@, field.attrs@.len() as int)
                &&& marked == attrs_marked(field.attrs@)
            },
            Err(e) => e == (Error::DelegatorConflict {
                first: mark_indices(field.attrs@, field.attrs@.len() as int)[0] as usize,
                second: mark_indices(field.attrs@, field.attrs@.len() as int)[1] as usize,
            }),
        },
{
    let VariantFieldUnnamed { attrs, ty } = field;
    let marks = scan_marks(&attrs)?;
    let kept = keep_passthrough(&attrs);
    Ok((SaneVariantFieldUnnamed { attrs: kept, ty }, marks.is_some()))
}

/// Find the marker among one field's attributes; two markers are a
/// conflict naming both.
fn scan_marks(attrs: &Vec<VariantFieldMeta>) -> (r: Result<Option<usize>, Error>)
    ensures
        r is Err <==> attrs_dup_marked(attrs@),
        match r {
            Ok(first) => {
                &&& first is Some <==> attrs_marked(attrs@)
                &&& first is Some ==> first.unwrap() as int == mark_indices(
                    attrs@,
                    attrs@.len() as int,
                )[0]
            },
            Err(e) => e == (Error::DelegatorConflict {
                first: mark_indices(attrs@, attrs@.len() as int)[0] as usize,
                second: mark_indices(attrs@, attrs@.len() as int)[1] as usize,
            }),
        },
{
    let mut first: Option<usize> = None;
    let mut i: usize = 0;
    while i < attrs.len()
        invariant
            0 <= i <= attrs.len(),
            match first {
                Some(f) => mark_indices(attrs@, i as int) == seq![f as int],
                None => mark_indices(attrs@, i as int) == Seq::<int>::empty(),
            },
        decreases attrs.len() - i,
    {
        match &attrs[i] {
            VariantFieldMeta::Delegator => {
                match first {
                    Some(f) => {
                        proof {
                            lemma_mark_indices_prefix(attrs@, i as int + 1, attrs@.len() as int);
                            assert(mark_indices(attrs@, i as int + 1) =~= seq![
                                f as int,
                                i as int,
                            ]);
                        }
                        return Err(
                            Error::DelegatorConflict { first: f, second: i },
                        );
                    },
                    None => {
                        first = Some(i);
                        proof {
                            assert(mark_indices(attrs@, i as int + 1) =~= seq![i as int]);
                        }
                    },
                }
            },
            VariantFieldMeta::Other(_) => {
                proof {
                    match first {
                        Some(f) => {
                            assert(mark_indices(attrs@, i as int + 1) =~= seq![f as int]);
                        },
                        None => {
                            assert(mark_indices(attrs@, i as int + 1) =~= Seq::<int>::empty());
                        },
                    }
                }
            },
        }
        i += 1;
    }
    Ok(first)
}

/// The first `m` entries of the marker filter extend to the whole: whatever
/// stands at a position below `m` also stands there in the full filter.
proof fn lemma_mark_indices_prefix(attrs: Seq<VariantFieldMeta>, m: int, n: int)
    requires
        0 <= m <= n <= attrs.len(),
    ensures
        mark_indices(attrs, n).len() >= mark_indices(attrs, m).len(),
        forall|k: int|
            0 <= k < mark_indices(attrs, m).len() ==> #[trigger] mark_indices(attrs, n)[k]
                == mark_indices(attrs, m)[k],
    decreases n - m,
{
    if m < n {
        lemma_mark_indices_prefix(attrs, m, n - 1);
        assert forall|k: int| 0 <= k < mark_indices(attrs, m).len() implies #[trigger] mark_indices(
            attrs,
            n,
        )[k] == mark_indices(attrs, m)[k] by {
            assert(mark_indices(attrs, n)[k] == mark_indices(attrs, n - 1)[k]);
        }
    }
}

/// The attribute lists of a run of named fields.
pub open spec fn named_attrs(fields: Seq<VariantFieldNamed>) -> Seq<Seq<VariantFieldMeta>> {
    fields.map_values(|f: VariantFieldNamed| f.attrs@)
}

/// The attribute lists of a run of positional fields.
pub open spec fn unnamed_attrs(fields: Seq<VariantFieldUnnamed>) -> Seq<Seq<VariantFieldMeta>> {
    fields.map_values(|f: VariantFieldUnnamed| f.attrs@)
}

/// Positions of the marked fields among the first `n`.
pub open spec fn marked_field_indices(a: Seq<Seq<VariantFieldMeta>>, n: int) -> Seq<int>
    decreases n,
{
    if n <= 0 || n > a.len() {
        Seq::empty()
    } else {
        marked_field_indices(a, n - 1) + if attrs_marked(a[n - 1]) {
            seq![n - 1]
        } else {
            Seq::empty()
        }
    }
}

/// Whether the walk stops at field `k`: either the field carries two
/// markers itself, or it is marked and an earlier field already was.
pub open spec fn bad_at(a: Seq<Seq<VariantFieldMeta>>, k: int) -> bool {
    attrs_dup_marked(a[k]) || (attrs_marked(a[k]) && marked_field_indices(a, k).len() >= 1)
}

/// The first field the walk stops at, if any.
pub open spec fn first_bad(a: Seq<Seq<VariantFieldMeta>>, n: int) -> Option<int>
    decreases n,
{
    if n <= 0 || n > a.len() {
        None
    } else {
        match first_bad(a, n - 1) {
            Some(k) => Some(k),
            None => if bad_at(a, n - 1) {
                Some(n - 1)
            } else {
                None
            },
        }
    }
}

/// The conflict a run of fields is rejected with, when the walk stops.
pub open spec fn fields_conflict_error(a: Seq<Seq<VariantFieldMeta>>) -> Error {
    let k = first_bad(a, a.len() as int).unwrap();
    if attrs_dup_marked(a[k]) {
        Error::DelegatorConflict {
            first: mark_indices(a[k], a[k].len() as int)[0] as usize,
            second: mark_indices(a[k], a[k].len() as int)[1] as usize,
        }
    } else {
        Error::DelegatorConflict {
            first: marked_field_indices(a, k)[0] as usize,
            second: k as usize,
        }
    }
}

proof fn lemma_marked_field_prefix(a: Seq<Seq<VariantFieldMeta>>, m: int, n: int)
    requires
        0 <= m <= n <= a.len(),
    ensures
        marked_field_indices(a, n).len() >= marked_field_indices(a, m).len(),
        forall|k: int|
            0 <= k < marked_field_indices(a, m).len() ==> #[trigger] marked_field_indices(a, n)[k]
                == marked_field_indices(a, m)[k],
    decreases n - m,
{
    if m < n {
        lemma_marked_field_prefix(a, m, n - 1);
        assert forall|k: int| 0 <= k < marked_field_indices(a, m).len() implies
            #[trigger] marked_field_indices(a, n)[k] == marked_field_indices(a, m)[k] by {
            assert(marked_field_indices(a, n)[k] == marked_field_indices(a, n - 1)[k]);
        }
    }
}

proof fn lemma_first_bad_extend(a: Seq<Seq<VariantFieldMeta>>, k: int, n: int)
    requires
        0 <= k < n <= a.len(),
        first_bad(a, k) is None,
        bad_at(a, k),
    ensures
        first_bad(a, n) == Some(k),
    decreases n,
{
    if n == k + 1 {
    } else {
        lemma_first_bad_extend(a, k, n - 1);
    }
}

proof fn lemma_first_bad_none(a: Seq<Seq<VariantFieldMeta>>, n: int)
    requires
        0 <= n <= a.len(),
        first_bad(a, n) is None,
    ensures
        forall|k: int| 0 <= k < n ==> !#[trigger] bad_at(a, k),
    decreases n,
{
    if n > 0 {
        lemma_first_bad_none(a, n - 1);
    }
}

/// Walk a run of named fields: the position of the single marked field, or
/// the conflict the walk stops at.
fn find_named_conflict(fields: &Vec<VariantFieldNamed>) -> (r: Result<Option<usize>, Error>)
    ensures
        ({
            let a = named_attrs(fields@);
            let n = a.len() as int;
            &&& (r is Err <==> first_bad(a, n) is Some)
            &&& match r {
                Ok(d) => match d {
                    Some(j) => marked_field_indices(a, n).len() >= 1 && j as int
                        == marked_field_indices(a, n)[0],
                    None => marked_field_indices(a, n).len() == 0,
                },
                Err(e) => e == fields_conflict_error(a),
            }
        }),
{
    let ghost a = named_attrs(fields@);
    let mut first: Option<usize> = None;
    let mut k: usize = 0;
    while k < fields.len()
        invariant
            0 <= k <= fields.len(),
            a == named_attrs(fields@),
            a.len() == fields@.len(),
            first_bad(a, k as int) is None,
            match first {
                Some(j) => marked_field_indices(a, k as int) == seq![j as int],
                None => marked_field_indices(a, k as int) == Seq::<int>::empty(),
            },
        decreases fields.len() - k,
    {
        let marks = scan_marks(&fields[k].attrs);
        proof {
            assert(a[k as int] == fields@[k as int].attrs@);
        }
        match marks {
            Err(e) => {
                proof {
                    assert(bad_at(a, k as int));
                    lemma_first_bad_extend(a, k as int, a.len() as int);
                }
                return Err(e);
            },
            Ok(Some(_)) => {
                match first {
                    Some(j) => {
                        proof {
                            assert(bad_at(a, k as int));
                            lemma_first_bad_extend(a, k as int, a.len() as int);
                        }
                        return Err(Error::DelegatorConflict { first: j, second: k });
                    },
                    None => {
                        first = Some(k);
                        proof {
                            assert(marked_field_indices(a, k as int + 1) =~= seq![k as int]);
                        }
                    },
                }
            },
            Ok(None) => {
                proof {
                    match first {
                        Some(j) => {
                            assert(marked_field_indices(a, k as int + 1) =~= seq![j as int]);
                        },
                        None => {
                            assert(marked_field_indices(a, k as int + 1) =~= Seq::<int>::empty());
                        },
                    }
                }
            },
        }
        k += 1;
    }
    Ok(first)
}

/// As `find_named_conflict`, over positional fields.
fn find_unnamed_conflict(fields: &Vec<VariantFieldUnnamed>) -> (r: Result<Option<usize>, Error>)
    ensures
        ({
            let a = unnamed_attrs(fields@);
            let n = a.len() as int;
            &&& (r is Err <==> first_bad(a, n) is Some)
            &&& match r {
                Ok(d) => match d {
                    Some(j) => marked_field_indices(a, n).len() >= 1 && j as int
                        == marked_field_indices(a, n)[0],
                    None => marked_field_indices(a, n).len() == 0,
                },
                Err(e) => e == fields_conflict_error(a),
            }
        }),
{
    let ghost a = unnamed_attrs(fields@);
    let mut first: Option<usize> = None;
    let mut k: usize = 0;
    while k < fields.len()
        invariant
            0 <= k <= fields.len(),
            a == unnamed_attrs(fields@),
            a.len() == fields@.len(),
            first_bad(a, k as int) is None,
            match first {
                Some(j) => marked_field_indices(a, k as int) == seq![j as int],
                None => marked_field_indices(a, k as int) == Seq::<int>::empty(),
            },
        decreases fields.len() - k,
    {
        let marks = scan_marks(&fields[k].attrs);
        proof {
            assert(a[k as int] == fields@[k as int].attrs@);
        }
        match marks {
            Err(e) => {
                proof {
                    assert(bad_at(a, k as int));
                    lemma_first_bad_extend(a, k as int, a.len() as int);
                }
                return Err(e);
            },
            Ok(Some(_)) => {
                match first {
                    Some(j) => {
                        proof {
                            assert(bad_at(a, k as int));
                            lemma_first_bad_extend(a, k as int, a.len() as int);
                        }
                        return Err(Error::DelegatorConflict { first: j, second: k });
                    },
                    None => {
                        first = Some(k);
                        proof {
                            assert(marked_field_indices(a, k as int + 1) =~= seq![k as int]);
                        }
                    },
                }
            },
            Ok(None) => {
                proof {
                    match first {
                        Some(j) => {
                            assert(marked_field_indices(a, k as int + 1) =~= seq![j as int]);
                        },
                        None => {
                            assert(marked_field_indices(a, k as int + 1) =~= Seq::<int>::empty());
                        },
                    }
                }
            },
        }
        k += 1;
    }
    Ok(first)
}

/// The delegator position a clean run of fields settles on: the single
/// marked field, if any field is marked at all.
pub open spec fn spec_delegator_of(a: Seq<Seq<VariantFieldMeta>>) -> Option<usize> {
    if marked_field_indices(a, a.len() as int).len() >= 1 {
        Some(marked_field_indices(a, a.len() as int)[0] as usize)
    } else {
        None
    }
}

/// What sanitizing a clean run of named fields produces: the same fields
/// with markers stripped, and the marked position recorded.
pub open spec fn named_sanitized(orig: Seq<VariantFieldNamed>, out: SaneVariantFieldsNamed) -> bool {
    &&& out.fields@.len() == orig.len()
    &&& forall|m: int| 0 <= m < orig.len() ==> {
        let f = #[trigger] out.fields@[m];
        &&& f.ident == orig[m].ident
        &&& f.ty == orig[m].ty
        &&& f.attrs@ == passthrough_of(orig[m].attrs@, orig[m].attrs@.len() as int)
    }
    &&& out.delegator == spec_delegator_of(named_attrs(orig))
}

/// What sanitizing a clean run of positional fields produces.
pub open spec fn unnamed_sanitized(
    orig: Seq<VariantFieldUnnamed>,
    out: SaneVariantFieldsUnnamed,
) -> bool {
    &&& out.fields@.len() == orig.len()
    &&& forall|m: int| 0 <= m < orig.len() ==> {
        let f = #[trigger] out.fields@[m];
        &&& f.ty == orig[m].ty
        &&& f.attrs@ == passthrough_of(orig[m].attrs@, orig[m].attrs@.len() as int)
    }
    &&& out.delegator == spec_delegator_of(unnamed_attrs(orig))
}

/// Sanitize one variant's fields: strip the delegator markers, keep every
/// other attribute, and record the single marked field.  Two markers — on
/// one field or on two — are a conflict naming both occurrences.
pub fn sanitize_variant_fields(input: VariantFields) -> (r: Result<SaneVariantFields, Error>)
    ensures
        match input {
            VariantFields::Named(fields) => ({
                let a = named_attrs(fields@);
                &&& (r is Err <==> first_bad(a, a.len() as int) is Some)
                &&& match r {
                    Ok(sane) => sane is Named && named_sanitized(fields@, sane->Named_0),
                    Err(e) => e == fields_conflict_error(a),
                }
            }),
            VariantFields::Unnamed(fields) => ({
                let a = unnamed_attrs(fields@);
                &&& (r is Err <==> first_bad(a, a.len() as int) is Some)
                &&& match r {
                    Ok(sane) => sane is Unnamed && unnamed_sanitized(fields@, sane->Unnamed_0),
                    Err(e) => e == fields_conflict_error(a),
                }
            }),
            VariantFields::Unit => r == Ok::<SaneVariantFields, Error>(SaneVariantFields::Unit),
        },
{
    match input {
        VariantFields::Named(mut fields) => {
            let delegator = match find_named_conflict(&fields) {
                Ok(d) => d,
                Err(e) => {
                    return Err(e);
                },
            };
            let ghost orig = fields@;
            let ghost a = named_attrs(orig);
            proof {
                lemma_first_bad_none(a, a.len() as int);
                assert(fields@ =~= orig.skip(0));
            }
            let mut out: Vec<SaneVariantFieldNamed> = Vec::new();
            while fields.len() > 0
                invariant
                    out@.len() <= orig.len(),
                    fields@ == orig.skip(out@.len() as int),
                    a == named_attrs(orig),
                    forall|k: int| 0 <= k < orig.len() ==> !#[trigger] bad_at(a, k),
                    forall|m: int| 0 <= m < out@.len() ==> {
                        let f = #[trigger] out@[m];
                        &&& f.ident == orig[m].ident
                        &&& f.ty == orig[m].ty
                        &&& f.attrs@ == passthrough_of(orig[m].attrs@, orig[m].attrs@.len() as int)
                    },
                decreases fields.len(),
            {
                let ghost k = out@.len() as int;
                let f = fields.remove(0);
                proof {
                    assert(f == orig[k]);
                    assert(a[k] == orig[k].attrs@);
                }
                match sanitize_field_named(f) {
                    Ok((nf, _marked)) => {
                        out.push(nf);
                    },
                    Err(e) => {
                        proof {
                            assert(bad_at(a, k));
                            assert(false);
                        }
                        return Err(e);
                    },
                }
                proof {
                    assert(fields@ =~= orig.skip(out@.len() as int));
                }
            }
            Ok(SaneVariantFields::Named(SaneVariantFieldsNamed { fields: out, delegator }))
        },
        VariantFields::Unnamed(mut fields) => {
            let delegator = match find_unnamed_conflict(&fields) {
                Ok(d) => d,
                Err(e) => {
                    return Err(e);
                },
            };
            let ghost orig = fields@;
            let ghost a = unnamed_attrs(orig);
            proof {
                lemma_first_bad_none(a, a.len() as int);
                assert(fields@ =~= orig.skip(0));
            }
            let mut out: Vec<SaneVariantFieldUnnamed> = Vec::new();
            while fields.len() > 0
                invariant
                    out@.len() <= orig.len(),
                    fields@ == orig.skip(out@.len() as int),
                    a == unnamed_attrs(orig),
                    forall|k: int| 0 <= k < orig.len() ==> !#[trigger] bad_at(a, k),
                    forall|m: int| 0 <= m < out@.len() ==> {
                        let f = #[trigger] out@[m];
                        &&& f.ty == orig[m].ty
                        &&& f.attrs@ == passthrough_of(orig[m].attrs@, orig[m].attrs@.len() as int)
                    },
                decreases fields.len(),
            {
                let ghost k = out@.len() as int;
                let f = fields.remove(0);
                proof {
                    assert(f == orig[k]);
                    assert(a[k] == orig[k].attrs@);
                }
                match sanitize_field_unnamed(f) {
                    Ok((nf, _marked)) => {
                        out.push(nf);
                    },
                    Err(e) => {
                        proof {
                            assert(bad_at(a, k));
                            assert(false);
                        }
                        return Err(e);
                    },
                }
                proof {
                    assert(fields@ =~= orig.skip(out@.len() as int));
                }
            }
            Ok(SaneVariantFields::Unnamed(SaneVariantFieldsUnnamed { fields: out, delegator }))
        },
        VariantFields::Unit => Ok(SaneVariantFields::Unit),
    }
}

/// Copy out every non-marker attribute, in order.
fn keep_passthrough(attrs: &Vec<VariantFieldMeta>) -> (r: Vec<String>)
    ensures
        r@ == passthrough_of(attrs@, attrs@.len() as int),
{
    let mut out: Vec<String> = Vec::new();
    proof {
        assert(out@ =~= passthrough_of(attrs@, 0));
    }
    let mut i: usize = 0;
    while i < attrs.len()
        invariant
            0 <= i <= attrs.len(),
            out@ == passthrough_of(attrs@, i as int),
        decreases attrs.len() - i,
    {
        match &attrs[i] {
            VariantFieldMeta::Delegator => (),
            VariantFieldMeta::Other(s) => {
                out.push(s.clone());
            },
        }
        proof {
            assert(out@ =~= passthrough_of(attrs@, i as int + 1));
        }
        i += 1;
    }
    out
}

} // verus!
