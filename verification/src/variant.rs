//! The variant model builder.
//!
//! A raw variant carries attributes (extraction and conversion opt-outs,
//! the explicit delegator closure, conditional-compilation guards and
//! anything else), a name, fields and an optional discriminant.  Sanitizing
//! validates all of it into the canonical model the emitters consume:
//!
//! - each per-variant annotation may be given once;
//! - a delegator closure may not take more parameters than the variant has
//!   fields, nor more than one where extraction will wrap the variant in a
//!   single generated value;
//! - an explicit closure next to a field-level marker is a conflict naming
//!   both;
//! - the minimal generic header the variant needs is computed from its
//!   fields.

use vstd::prelude::*;

use crate::ast::ExprClosure;
use crate::classify::{type_idents, CollectIdents};
use crate::errors::Error;
use crate::generics::{Optional, SaneGenerics, _None, _Some};
use crate::names::{IdentMap, IdentSets};
use crate::project::{project_generics, projection_result, ProjectedGenerics};
use crate::settings::Settings;
use crate::variant_fields::{
    first_bad,
    fields_conflict_error,
    named_attrs,
    named_sanitized,
    sanitize_variant_fields,
    spec_delegator_of,
    unnamed_attrs,
    unnamed_sanitized,
    SaneVariantFields,
    VariantFieldNamed,
    VariantFieldUnnamed,
    VariantFields,
};

verus! {

/// A conditional-compilation guard, kept as opaque predicate text.
#[derive(Debug)]
pub struct CfgMeta {
    pub tokens: String,
}

/// One of the recognized per-variant annotations.
#[derive(Debug)]
pub enum VarMeta {
    /// Suppress extraction for this variant.
    NoVarType,
    /// Suppress conversions for this variant.
    NoConversions,
    /// Delegate through an explicit closure.
    DelegateVia(ExprClosure),
}

/// One attribute on a variant: a recognized annotation, a guard, or
/// anything else as opaque text.
#[derive(Debug)]
pub enum Meta {
    Custom(VarMeta),
    Cfg(CfgMeta),
    Plain(String),
}

/// An explicit delegator: the closure together with the position of its
/// annotation.
#[derive(Debug)]
pub enum ExplicitDelegator {
    Expr(usize, ExprClosure),
}

/// The validated attributes of one variant.
#[derive(Debug)]
pub struct SaneVariantAttributes {
    /// Attributes forwarded as given, in order.
    pub syn_attrs: Vec<String>,
    /// Conditional-compilation guards, in order.
    pub cfg_attrs: Vec<CfgMeta>,
    pub no_var_type: bool,
    pub no_convert: bool,
    /// The delegator closure with the position of its annotation.
    pub delegate_via: Optional<(usize, ExprClosure)>,
}

/// A small tag telling the attribute kinds apart; only the recognized
/// annotations (tags zero to two) may not repeat.
pub open spec fn meta_kind(m: Meta) -> int {
    match m {
        Meta::Custom(vm) => match vm {
            VarMeta::NoVarType => 0,
            VarMeta::NoConversions => 1,
            VarMeta::DelegateVia(_) => 2,
        },
        Meta::Cfg(_) => 3,
        Meta::Plain(_) => 4,
    }
}

/// The first position among `n` holding an attribute of kind `kind`.
pub open spec fn first_meta_of_kind(metas: Seq<Meta>, kind: int, n: int) -> Option<int>
    decreases n,
{
    if n <= 0 || n > metas.len() {
        None
    } else {
        match first_meta_of_kind(metas, kind, n - 1) {
            Some(j) => Some(j),
            None => if meta_kind(metas[n - 1]) == kind {
                Some(n - 1)
            } else {
                None
            },
        }
    }
}

/// Whether the attribute walk stops at position `k`: a second annotation of
/// a kind already given.
pub open spec fn metas_bad_at(metas: Seq<Meta>, k: int) -> bool {
    meta_kind(metas[k]) <= 2 && first_meta_of_kind(metas, meta_kind(metas[k]), k) is Some
}

/// The first position the attribute walk stops at, if any.
pub open spec fn first_bad_meta(metas: Seq<Meta>, n: int) -> Option<int>
    decreases n,
{
    if n <= 0 || n > metas.len() {
        None
    } else {
        match first_bad_meta(metas, n - 1) {
            Some(k) => Some(k),
            None => if metas_bad_at(metas, n - 1) {
                Some(n - 1)
            } else {
                None
            },
        }
    }
}

/// The conflict a rejected attribute list is rejected with.
pub open spec fn metas_error_of(metas: Seq<Meta>) -> Error {
    let k = first_bad_meta(metas, metas.len() as int).unwrap();
    Error::ConfigConflict {
        first: first_meta_of_kind(metas, meta_kind(metas[k]), k).unwrap() as usize,
        second: k as usize,
    }
}

/// The forwarded attribute text of a list, in order.
pub open spec fn plain_attrs_of(metas: Seq<Meta>, n: int) -> Seq<String>
    decreases n,
{
    if n <= 0 || n > metas.len() {
        Seq::empty()
    } else {
        plain_attrs_of(metas, n - 1) + match metas[n - 1] {
            Meta::Plain(s) => seq![s],
            _ => Seq::empty(),
        }
    }
}

/// The guards of a list, in order.
pub open spec fn cfg_attrs_of(metas: Seq<Meta>, n: int) -> Seq<CfgMeta>
    decreases n,
{
    if n <= 0 || n > metas.len() {
        Seq::empty()
    } else {
        cfg_attrs_of(metas, n - 1) + match metas[n - 1] {
            Meta::Cfg(c) => seq![c],
            _ => Seq::empty(),
        }
    }
}

/// The recognized annotations of a list, in order.
pub open spec fn customs_of(metas: Seq<Meta>, n: int) -> Seq<VarMeta>
    decreases n,
{
    if n <= 0 || n > metas.len() {
        Seq::empty()
    } else {
        customs_of(metas, n - 1) + match metas[n - 1] {
            Meta::Custom(vm) => seq![vm],
            _ => Seq::empty(),
        }
    }
}

/// Split an attribute list into the attributes forwarded as given, the
/// guards, and the recognized annotations, each in order.
pub fn split_input_metas(metas: Vec<Meta>) -> (r: (Vec<String>, Vec<CfgMeta>, Vec<VarMeta>))
    ensures
        r.0@ == plain_attrs_of(metas@, metas@.len() as int),
        r.1@ == cfg_attrs_of(metas@, metas@.len() as int),
        r.2@ == customs_of(metas@, metas@.len() as int),
{
    let ghost orig = metas@;
    let n0 = metas.len();
    proof {
        assert(orig.len() == n0);
    }
    let mut work = metas;
    let mut plain: Vec<String> = Vec::new();
    let mut cfgs: Vec<CfgMeta> = Vec::new();
    let mut customs: Vec<VarMeta> = Vec::new();
    proof {
        assert(work@ =~= orig.skip(0));
        assert(plain@ =~= plain_attrs_of(orig, 0));
        assert(cfgs@ =~= cfg_attrs_of(orig, 0));
        assert(customs@ =~= customs_of(orig, 0));
    }
    let mut k: usize = 0;
    while work.len() > 0
        invariant
            0 <= k <= orig.len(),
            orig.len() <= usize::MAX,
            orig == metas@,
            work@ == orig.skip(k as int),
            plain@ == plain_attrs_of(orig, k as int),
            cfgs@ == cfg_attrs_of(orig, k as int),
            customs@ == customs_of(orig, k as int),
        decreases work.len(),
    {
        let ghost kk = k as int;
        proof {
            assert(work@.len() == orig.len() - kk);
        }
        let item = work.remove(0);
        proof {
            assert(item == orig[kk]);
        }
        match item {
            Meta::Custom(vm) => {
                customs.push(vm);
            },
            Meta::Cfg(c) => {
                cfgs.push(c);
            },
            Meta::Plain(s) => {
                plain.push(s);
            },
        }
        proof {
            assert(plain@ =~= plain_attrs_of(orig, kk + 1));
            assert(cfgs@ =~= cfg_attrs_of(orig, kk + 1));
            assert(customs@ =~= customs_of(orig, kk + 1));
        }
        k += 1;
    }
    (plain, cfgs, customs)
}

/// What validating a variant's attribute list produces.
pub open spec fn metas_accepted(metas: Seq<Meta>, out: SaneVariantAttributes) -> bool {
    let n = metas.len() as int;
    &&& out.syn_attrs@ == plain_attrs_of(metas, n)
    &&& out.cfg_attrs@ == cfg_attrs_of(metas, n)
    &&& out.no_var_type == (first_meta_of_kind(metas, 0, n) is Some)
    &&& out.no_convert == (first_meta_of_kind(metas, 1, n) is Some)
    &&& match out.delegate_via {
        _Some((idx, c)) => {
            &&& first_meta_of_kind(metas, 2, n) == Some(idx as int)
            &&& metas[idx as int] == Meta::Custom(VarMeta::DelegateVia(c))
        },
        _None => first_meta_of_kind(metas, 2, n) is None,
    }
}

proof fn lemma_first_bad_meta_extend(metas: Seq<Meta>, k: int, n: int)
    requires
        0 <= k < n <= metas.len(),
        first_bad_meta(metas, k) is None,
        metas_bad_at(metas, k),
    ensures
        first_bad_meta(metas, n) == Some(k),
    decreases n,
{
    if n == k + 1 {
    } else {
        lemma_first_bad_meta_extend(metas, k, n - 1);
    }
}

/// Validate a variant's attribute list: split forwarded attributes, guards
/// and annotations, each annotation given at most once.
pub fn sanitize_attributes(metas: Vec<Meta>) -> (r: Result<SaneVariantAttributes, Error>)
    ensures
        r is Err <==> first_bad_meta(metas@, metas@.len() as int) is Some,
        match r {
            Ok(sane) => metas_accepted(metas@, sane),
            Err(e) => e == metas_error_of(metas@),
        },
{
    let ghost orig = metas@;
    let n0 = metas.len();
    proof {
        assert(orig.len() == n0);
    }
    let mut work = metas;
    let mut syn_attrs: Vec<String> = Vec::new();
    let mut cfg_attrs: Vec<CfgMeta> = Vec::new();
    let mut no_var_type: Option<usize> = None;
    let mut no_convert: Option<usize> = None;
    let mut delegate_via: Optional<(usize, ExprClosure)> = _None;
    proof {
        assert(work@ =~= orig.skip(0));
        assert(syn_attrs@ =~= plain_attrs_of(orig, 0));
        assert(cfg_attrs@ =~= cfg_attrs_of(orig, 0));
    }
    let mut k: usize = 0;
    while work.len() > 0
        invariant
            0 <= k <= orig.len(),
            orig.len() <= usize::MAX,
            orig == metas@,
            work@ == orig.skip(k as int),
            first_bad_meta(orig, k as int) is None,
            syn_attrs@ == plain_attrs_of(orig, k as int),
            cfg_attrs@ == cfg_attrs_of(orig, k as int),
            match no_var_type {
                Some(j) => first_meta_of_kind(orig, 0, k as int) == Some(j as int),
                None => first_meta_of_kind(orig, 0, k as int) is None,
            },
            match no_convert {
                Some(j) => first_meta_of_kind(orig, 1, k as int) == Some(j as int),
                None => first_meta_of_kind(orig, 1, k as int) is None,
            },
            match delegate_via {
                _Some((idx, c)) => {
                    &&& first_meta_of_kind(orig, 2, k as int) == Some(idx as int)
                    &&& orig[idx as int] == Meta::Custom(VarMeta::DelegateVia(c))
                },
                _None => first_meta_of_kind(orig, 2, k as int) is None,
            },
        decreases work.len(),
    {
        let ghost kk = k as int;
        proof {
            assert(work@.len() == orig.len() - kk);
        }
        let item = work.remove(0);
        proof {
            assert(item == orig[kk]);
        }
        match item {
            Meta::Custom(VarMeta::NoVarType) => {
                match no_var_type {
                    Some(j) => {
                        proof {
                            assert(metas_bad_at(orig, kk));
                            lemma_first_bad_meta_extend(orig, kk, orig.len() as int);
                        }
                        return Err(Error::ConfigConflict { first: j, second: k });
                    },
                    None => {
                        no_var_type = Some(k);
                    },
                }
            },
            Meta::Custom(VarMeta::NoConversions) => {
                match no_convert {
                    Some(j) => {
                        proof {
                            assert(metas_bad_at(orig, kk));
                            lemma_first_bad_meta_extend(orig, kk, orig.len() as int);
                        }
                        return Err(Error::ConfigConflict { first: j, second: k });
                    },
                    None => {
                        no_convert = Some(k);
                    },
                }
            },
            Meta::Custom(VarMeta::DelegateVia(c)) => {
                match &delegate_via {
                    _Some((j, _)) => {
                        proof {
                            assert(metas_bad_at(orig, kk));
                            lemma_first_bad_meta_extend(orig, kk, orig.len() as int);
                        }
                        return Err(Error::ConfigConflict { first: *j, second: k });
                    },
                    _None => {
                        delegate_via = _Some((k, c));
                    },
                }
            },
            Meta::Cfg(c) => {
                cfg_attrs.push(c);
                proof {
                    assert(cfg_attrs@ =~= cfg_attrs_of(orig, kk + 1));
                }
            },
            Meta::Plain(s) => {
                syn_attrs.push(s);
                proof {
                    assert(syn_attrs@ =~= plain_attrs_of(orig, kk + 1));
                }
            },
        }
        proof {
            assert(syn_attrs@ =~= plain_attrs_of(orig, kk + 1));
            assert(cfg_attrs@ =~= cfg_attrs_of(orig, kk + 1));
        }
        k += 1;
    }
    Ok(
        SaneVariantAttributes {
            syn_attrs,
            cfg_attrs,
            no_var_type: no_var_type.is_some(),
            no_convert: no_convert.is_some(),
            delegate_via,
        },
    )
}

/// The classification of a run of named fields: the merge over their
/// types.
pub open spec fn named_fields_idents(s: Seq<VariantFieldNamed>, n: int) -> IdentSets
    decreases n,
{
    if n <= 0 || n > s.len() {
        IdentSets::empty()
    } else {
        named_fields_idents(s, n - 1).merge(type_idents(s[n - 1].ty))
    }
}

/// The classification of a run of positional fields.
pub open spec fn unnamed_fields_idents(s: Seq<VariantFieldUnnamed>, n: int) -> IdentSets
    decreases n,
{
    if n <= 0 || n > s.len() {
        IdentSets::empty()
    } else {
        unnamed_fields_idents(s, n - 1).merge(type_idents(s[n - 1].ty))
    }
}

/// The classification of one variant's fields: field names and attributes
/// play no part, only the field types.
pub open spec fn variant_fields_idents(f: VariantFields) -> IdentSets {
    match f {
        VariantFields::Named(fields) => named_fields_idents(fields@, fields@.len() as int),
        VariantFields::Unnamed(fields) => unnamed_fields_idents(fields@, fields@.len() as int),
        VariantFields::Unit => IdentSets::empty(),
    }
}

impl CollectIdents for VariantFields {
    open spec fn idents(&self) -> IdentSets {
        variant_fields_idents(*self)
    }

    fn collect_idents(&self, map: &mut IdentMap) {
        match self {
            VariantFields::Named(fields) => {
                let ghost m0 = map@;
                proof {
                    crate::names::lemma_merge_empty(m0);
                }
                let mut i: usize = 0;
                while i < fields.len()
                    invariant
                        0 <= i <= fields.len(),
                        map@ == m0.merge(named_fields_idents(fields@, i as int)),
                    decreases fields.len() - i,
                {
                    crate::classify::collect_type(&fields[i].ty, map);
                    proof {
                        assert(map@ =~~= m0.merge(named_fields_idents(fields@, i as int + 1)));
                    }
                    i += 1;
                }
            },
            VariantFields::Unnamed(fields) => {
                let ghost m0 = map@;
                proof {
                    crate::names::lemma_merge_empty(m0);
                }
                let mut i: usize = 0;
                while i < fields.len()
                    invariant
                        0 <= i <= fields.len(),
                        map@ == m0.merge(unnamed_fields_idents(fields@, i as int)),
                    decreases fields.len() - i,
                {
                    crate::classify::collect_type(&fields[i].ty, map);
                    proof {
                        assert(map@ =~~= m0.merge(unnamed_fields_idents(fields@, i as int + 1)));
                    }
                    i += 1;
                }
            },
            VariantFields::Unit => {
                proof {
                    crate::names::lemma_merge_empty(map@);
                }
            },
        }
    }
}

/// Compute the minimal generic header one variant needs: the enclosing
/// header projected onto the classification of the variant's fields.
pub fn generics_needed_by_variant(
    fields: &VariantFields,
    enum_generics: &Optional<SaneGenerics>,
) -> (r: Optional<ProjectedGenerics>)
    ensures
        projection_result(
            *enum_generics,
            variant_fields_idents(*fields).reconciled(),
            r,
        ),
{
    let map = IdentMap::new(fields);
    project_generics(enum_generics, &map)
}

/// An explicit discriminant, `= expr`.
#[derive(Debug)]
pub struct InputVariantDiscriminant {
    pub expr: crate::ast::Expr,
}

/// One raw variant of the declaration.
#[derive(Debug)]
pub struct InputVariant {
    pub attrs: Vec<Meta>,
    pub ident: String,
    pub fields: VariantFields,
    pub discriminant: Optional<InputVariantDiscriminant>,
}

/// The canonical variant model the emitters consume.
#[derive(Debug)]
pub struct SaneVariant {
    pub attrs: SaneVariantAttributes,
    pub ident: String,
    pub fields: SaneVariantFields,
    pub discriminant: Optional<InputVariantDiscriminant>,
    pub generics: Optional<ProjectedGenerics>,
    pub explicit_delegator: Optional<ExplicitDelegator>,
}

impl SaneVariant {
    /// Whether extraction, where requested at all, applies to this variant.
    pub fn allow_extract(&self) -> (r: bool)
        ensures
            r == !self.attrs.no_var_type,
    {
        !self.attrs.no_var_type
    }

    /// Whether conversions, where requested at all, apply to this variant.
    pub fn allow_generate_conversions(&self) -> (r: bool)
        ensures
            r == !self.attrs.no_convert,
    {
        !self.attrs.no_convert
    }
}

/// The attribute lists of a variant's raw fields, named or positional.
pub open spec fn fields_attr_lists(f: VariantFields) -> Seq<Seq<crate::variant_fields::VariantFieldMeta>> {
    match f {
        VariantFields::Named(fields) => named_attrs(fields@),
        VariantFields::Unnamed(fields) => unnamed_attrs(fields@),
        VariantFields::Unit => Seq::empty(),
    }
}

/// The delegator closure a variant's attribute list names, if any.
pub open spec fn delegate_closure_of(metas: Seq<Meta>) -> Option<ExprClosure> {
    match first_meta_of_kind(metas, 2, metas.len() as int) {
        Some(idx) => Some(metas[idx]->Custom_0->DelegateVia_0),
        None => None,
    }
}

/// Whether the delegator closure takes more parameters than extraction's
/// single generated value allows; `extract` says whether extraction is
/// requested at all.
pub open spec fn wrapper_arity_bad(metas: Seq<Meta>, extract: bool) -> bool {
    match delegate_closure_of(metas) {
        Some(c) => extract && first_meta_of_kind(metas, 0, metas.len() as int) is None
            && c.inputs@.len() > 1,
        None => false,
    }
}

/// Whether the delegator closure takes more parameters than the variant has
/// fields.
pub open spec fn field_arity_bad(metas: Seq<Meta>, fields: VariantFields) -> bool {
    match delegate_closure_of(metas) {
        Some(c) => c.inputs@.len() > fields.spec_field_count(),
        None => false,
    }
}

/// Whether an explicit closure stands next to a field-level marker.
pub open spec fn explicit_delegator_conflict(metas: Seq<Meta>, fields: VariantFields) -> bool {
    delegate_closure_of(metas) is Some && spec_delegator_of(fields_attr_lists(fields)) is Some
}

/// What a fully validated variant looks like.  The closure annotation, if
/// any, has moved from the attributes into the explicit delegator.
pub open spec fn variant_accepted(
    variant: InputVariant,
    enum_generics: Optional<SaneGenerics>,
    out: SaneVariant,
) -> bool {
    let metas = variant.attrs@;
    let nm = metas.len() as int;
    &&& out.attrs.syn_attrs@ == plain_attrs_of(metas, nm)
    &&& out.attrs.cfg_attrs@ == cfg_attrs_of(metas, nm)
    &&& out.attrs.no_var_type == (first_meta_of_kind(metas, 0, nm) is Some)
    &&& out.attrs.no_convert == (first_meta_of_kind(metas, 1, nm) is Some)
    &&& out.attrs.delegate_via is _None
    &&& match out.explicit_delegator {
        _Some(d) => {
            &&& first_meta_of_kind(metas, 2, nm) == Some(d->Expr_0 as int)
            &&& delegate_closure_of(metas) == Some(d->Expr_1)
        },
        _None => first_meta_of_kind(metas, 2, nm) is None,
    }
    &&& out.ident == variant.ident
    &&& match variant.fields {
        VariantFields::Named(fields) => out.fields is Named && named_sanitized(
            fields@,
            out.fields->Named_0,
        ),
        VariantFields::Unnamed(fields) => out.fields is Unnamed && unnamed_sanitized(
            fields@,
            out.fields->Unnamed_0,
        ),
        VariantFields::Unit => out.fields is Unit,
    }
    &&& out.discriminant == variant.discriminant
    &&& projection_result(
        enum_generics,
        variant_fields_idents(variant.fields).reconciled(),
        out.generics,
    )
}

/// Whether one raw variant is rejected; `extract` says whether extraction
/// is requested at all.
pub open spec fn variant_rejected(variant: InputVariant, extract: bool) -> bool {
    let metas = variant.attrs@;
    let a = fields_attr_lists(variant.fields);
    ||| first_bad_meta(metas, metas.len() as int) is Some
    ||| wrapper_arity_bad(metas, extract)
    ||| field_arity_bad(metas, variant.fields)
    ||| first_bad(a, a.len() as int) is Some
    ||| explicit_delegator_conflict(metas, variant.fields)
}

/// The failure a rejected variant is rejected with, following the fixed
/// order of the validations.
pub open spec fn variant_error_of(variant: InputVariant, extract: bool) -> Error {
    let metas = variant.attrs@;
    let nm = metas.len() as int;
    let a = fields_attr_lists(variant.fields);
    if first_bad_meta(metas, nm) is Some {
        metas_error_of(metas)
    } else if wrapper_arity_bad(metas, extract) {
        Error::ClosureArityMismatch {
            params: delegate_closure_of(metas).unwrap().inputs@.len() as usize,
            allowed: 1,
        }
    } else if field_arity_bad(metas, variant.fields) {
        Error::ClosureArityMismatch {
            params: delegate_closure_of(metas).unwrap().inputs@.len() as usize,
            allowed: variant.fields.spec_field_count() as usize,
        }
    } else if first_bad(a, a.len() as int) is Some {
        fields_conflict_error(a)
    } else {
        Error::DelegatorConflict {
            first: first_meta_of_kind(metas, 2, nm).unwrap() as usize,
            second: spec_delegator_of(a).unwrap(),
        }
    }
}

/// Validate one raw variant into the canonical model.
///
/// The validations run in a fixed order: the attribute list first, then the
/// closure arities, then the fields; last, an explicit closure next to a
/// field-level marker is a conflict naming the closure's annotation and the
/// marked field.
pub fn sanitize_variant(
    variant: InputVariant,
    settings: &Settings,
    enum_generics: &Optional<SaneGenerics>,
) -> (r: Result<SaneVariant, Error>)
    ensures
        r is Err <==> variant_rejected(variant, settings.extract_variants is _Some),
        match r {
            Ok(out) => variant_accepted(variant, *enum_generics, out),
            Err(e) => e == variant_error_of(variant, settings.extract_variants is _Some),
        },
{
    let InputVariant { attrs: metas, ident, fields, discriminant } = variant;
    let attrs = match sanitize_attributes(metas) {
        Ok(a) => a,
        Err(e) => {
            return Err(e);
        },
    };
    match &attrs.delegate_via {
        _Some((_, c)) => {
            if settings.extract_variants.is_some() && !attrs.no_var_type && c.inputs.len() > 1 {
                return Err(Error::ClosureArityMismatch { params: c.inputs.len(), allowed: 1 });
            }
            let count = fields.field_count();
            if c.inputs.len() > count {
                return Err(Error::ClosureArityMismatch { params: c.inputs.len(), allowed: count });
            }
        },
        _None => (),
    }
    let generics = generics_needed_by_variant(&fields, enum_generics);
    let ghost a = fields_attr_lists(fields);
    let sane_fields = match sanitize_variant_fields(fields) {
        Ok(f) => f,
        Err(e) => {
            return Err(e);
        },
    };
    let delegator_field = sane_fields.delegator_field_kw();
    let SaneVariantAttributes { syn_attrs, cfg_attrs, no_var_type, no_convert, delegate_via } =
        attrs;
    let explicit_delegator = match delegate_via {
        _Some((idx, c)) => {
            match delegator_field {
                Some(fidx) => {
                    return Err(Error::DelegatorConflict { first: idx, second: fidx });
                },
                None => _Some(ExplicitDelegator::Expr(idx, c)),
            }
        },
        _None => _None,
    };
    Ok(
        SaneVariant {
            attrs: SaneVariantAttributes {
                syn_attrs,
                cfg_attrs,
                no_var_type,
                no_convert,
                delegate_via: _None,
            },
            ident,
            fields: sane_fields,
            discriminant,
            generics,
            explicit_delegator,
        },
    )
}

} // verus!
