//! The emitters and the pipeline.
//!
//! `run` takes the raw settings list and the raw declaration and produces
//! everything the transformation emits, as plans over the sanitized model:
//! the sanitized sum type itself (each variant either kept as declared or
//! rewritten to hold its generated wrapper), one standalone type per
//! extracted variant, the conversions for every conversion-eligible variant
//! when a direction is requested, and exactly one dispatch construct with
//! one arm per variant and never a wildcard.

use vstd::prelude::*;

use crate::ast::{InputGenerics, WhereClause};
use crate::delegator::{resolve, spec_resolve, DelegatorPlan};
use crate::errors::Error;
use crate::generics::{sanitize_generics, Optional, SaneGenerics, _None, _Some};
use crate::idents::{delegate_macro_ident, snake_of};
use crate::settings::{
    first_of_kind,
    parse_settings,
    settings_accepted,
    settings_error_of,
    settings_rejected,
    EmitAttr,
    Setting,
    Settings,
};
use crate::variant::{
    delegate_closure_of,
    fields_attr_lists,
    first_meta_of_kind,
    sanitize_variant,
    variant_accepted,
    variant_error_of,
    variant_rejected,
    InputVariant,
    SaneVariant,
};
use crate::variant_fields::{spec_delegator_of, SaneVariantFields, VariantFields};

verus! {

/// The raw declaration, as the front end hands it over.
#[derive(Debug)]
pub struct Enum {
    pub attrs: Vec<EmitAttr>,
    pub ident: String,
    pub generics: Optional<InputGenerics>,
    pub where_clause: Optional<WhereClause>,
    pub variants: Vec<InputVariant>,
}

/// The sanitized declaration.
#[derive(Debug)]
pub struct SaneEnum {
    pub attrs: Vec<EmitAttr>,
    pub ident: String,
    pub generics: Optional<SaneGenerics>,
    pub variants: Vec<SaneVariant>,
}

/// The generic header a raw declaration's pieces pair into.
pub open spec fn sane_generics_of(input: Enum) -> Optional<SaneGenerics> {
    match input.generics {
        _Some(g) => _Some(SaneGenerics { input: g, where_clause: input.where_clause }),
        _None => _None,
    }
}

/// Whether the declaration carries a where-clause without a generic
/// parameter list.
pub open spec fn where_clause_bad(input: Enum) -> bool {
    input.generics is _None && input.where_clause is _Some
}

/// The first rejected variant, if any.
pub open spec fn first_rejected_variant(vars: Seq<InputVariant>, extract: bool, n: int) -> Option<
    int,
>
    decreases n,
{
    if n <= 0 || n > vars.len() {
        None
    } else {
        match first_rejected_variant(vars, extract, n - 1) {
            Some(k) => Some(k),
            None => if variant_rejected(vars[n - 1], extract) {
                Some(n - 1)
            } else {
                None
            },
        }
    }
}

/// What the sanitized declaration holds of the raw one.
pub open spec fn enum_accepted(input: Enum, se: SaneEnum) -> bool {
    &&& se.attrs == input.attrs
    &&& se.ident == input.ident
    &&& se.generics == sane_generics_of(input)
    &&& se.variants@.len() == input.variants@.len()
    &&& forall|k: int|
        0 <= k < input.variants@.len() ==> variant_accepted(
            input.variants@[k],
            sane_generics_of(input),
            #[trigger] se.variants@[k],
        )
}

proof fn lemma_first_rejected_extend(vars: Seq<InputVariant>, extract: bool, k: int, n: int)
    requires
        0 <= k < n <= vars.len(),
        first_rejected_variant(vars, extract, k) is None,
        variant_rejected(vars[k], extract),
    ensures
        first_rejected_variant(vars, extract, n) == Some(k),
    decreases n,
{
    if n == k + 1 {
    } else {
        lemma_first_rejected_extend(vars, extract, k, n - 1);
    }
}

/// Sanitize the whole raw declaration: the generic header first, then each
/// variant in order; the first failure is terminal.
pub fn sanitize_input(input: Enum, settings: &Settings) -> (r: Result<SaneEnum, Error>)
    ensures
        ({
            let extract = settings.extract_variants is _Some;
            let vars = input.variants@;
            &&& (r is Err <==> where_clause_bad(input) || first_rejected_variant(
                vars,
                extract,
                vars.len() as int,
            ) is Some)
            &&& match r {
                Ok(se) => enum_accepted(input, se),
                Err(e) => if where_clause_bad(input) {
                    e == Error::WhereClauseWithoutGenerics
                } else {
                    e == variant_error_of(
                        vars[first_rejected_variant(vars, extract, vars.len() as int).unwrap()],
                        extract,
                    )
                },
            }
        }),
{
    let ghost extract = settings.extract_variants is _Some;
    let Enum { attrs, ident, generics, where_clause, variants } = input;
    let generics = match sanitize_generics(generics, where_clause) {
        Ok(g) => g,
        Err(e) => {
            return Err(e);
        },
    };
    let ghost vars = input.variants@;
    let ghost sgo = sane_generics_of(input);
    proof {
        assert(generics == sgo);
    }
    let n0 = variants.len();
    let mut work = variants;
    let mut out: Vec<SaneVariant> = Vec::new();
    proof {
        assert(work@ =~= vars.skip(0));
    }
    while work.len() > 0
        invariant
            out@.len() <= vars.len(),
            vars.len() == n0,
            vars == input.variants@,
            extract == (settings.extract_variants is _Some),
            !where_clause_bad(input),
            generics == sgo,
            sgo == sane_generics_of(input),
            work@ == vars.skip(out@.len() as int),
            first_rejected_variant(vars, extract, out@.len() as int) is None,
            forall|k: int|
                0 <= k < out@.len() ==> variant_accepted(vars[k], sgo, #[trigger] out@[k]),
        decreases work.len(),
    {
        let ghost k = out@.len() as int;
        let v = work.remove(0);
        proof {
            assert(v == vars[k]);
        }
        match sanitize_variant(v, settings, &generics) {
            Ok(sv) => {
                out.push(sv);
            },
            Err(e) => {
                proof {
                    lemma_first_rejected_extend(vars, extract, k, vars.len() as int);
                }
                return Err(e);
            },
        }
        proof {
            assert(work@ =~= vars.skip(out@.len() as int));
        }
    }
    Ok(SaneEnum { attrs, ident, generics, variants: out })
}

/// Which type implements the conversions for one variant.
#[derive(Debug, Clone, Copy, PartialEq, Eq, Structural)]
pub enum ConversionTarget {
    /// The generated wrapper type of an extracted variant.
    WrapperType,
    /// The named single field's own type.
    NamedFieldType,
    /// The positional single field's own type.
    UnnamedFieldType,
}

/// Whether extraction applies to this sanitized variant.
pub open spec fn will_extract(v: SaneVariant, extract: bool) -> bool {
    extract && !v.attrs.no_var_type
}

/// Conversion eligibility: an extracted variant converts through its
/// wrapper; otherwise the variant must have exactly one field, whose own
/// type converts; anything else is a hard failure naming the variant.
pub open spec fn conversion_target_of(v: SaneVariant, wrapped: bool) -> Result<
    ConversionTarget,
    Error,
> {
    if wrapped {
        Ok(ConversionTarget::WrapperType)
    } else {
        match v.fields {
            SaneVariantFields::Named(named) => if named.fields@.len() == 1 {
                Ok(ConversionTarget::NamedFieldType)
            } else {
                Err(Error::ConversionIneligible { variant: v.ident })
            },
            SaneVariantFields::Unnamed(unnamed) => if unnamed.fields@.len() == 1 {
                Ok(ConversionTarget::UnnamedFieldType)
            } else {
                Err(Error::ConversionIneligible { variant: v.ident })
            },
            SaneVariantFields::Unit => Err(Error::ConversionIneligible { variant: v.ident }),
        }
    }
}

/// Decide the fallible sum-to-value conversions for one variant.
pub fn generate_variant_try_from_enum(variant: &SaneVariant, settings: &Settings) -> (r: Result<
    ConversionTarget,
    Error,
>)
    ensures
        r == conversion_target_of(
            *variant,
            will_extract(*variant, settings.extract_variants is _Some),
        ),
{
    let wrapped = settings.extract_variants.is_some() && variant.allow_extract();
    if wrapped {
        return Ok(ConversionTarget::WrapperType);
    }
    match &variant.fields {
        SaneVariantFields::Named(named) => {
            if named.fields.len() == 1 {
                Ok(ConversionTarget::NamedFieldType)
            } else {
                Err(Error::ConversionIneligible { variant: variant.ident.clone() })
            }
        },
        SaneVariantFields::Unnamed(unnamed) => {
            if unnamed.fields.len() == 1 {
                Ok(ConversionTarget::UnnamedFieldType)
            } else {
                Err(Error::ConversionIneligible { variant: variant.ident.clone() })
            }
        },
        SaneVariantFields::Unit => Err(
            Error::ConversionIneligible { variant: variant.ident.clone() },
        ),
    }
}

/// Decide the total value-to-sum conversion for one variant; the
/// eligibility rule is the same in both directions.
pub fn generate_enum_from_variant(variant: &SaneVariant, settings: &Settings) -> (r: Result<
    ConversionTarget,
    Error,
>)
    ensures
        r == conversion_target_of(
            *variant,
            will_extract(*variant, settings.extract_variants is _Some),
        ),
{
    generate_variant_try_from_enum(variant, settings)
}

/// The conversions emitted for one variant.
#[derive(Debug)]
pub struct ConversionPlan {
    pub variant: usize,
    pub target: ConversionTarget,
    /// The fallible sum-to-value direction, with the sum itself as the
    /// error payload (and unit for the borrowing forms).
    pub try_from_enum: bool,
    /// The total value-to-sum direction.
    pub enum_from_variant: bool,
}

/// How one variant stands in the emitted enum definition.
#[derive(Debug, Clone, Copy, PartialEq, Eq, Structural)]
pub enum VariantShapePlan {
    /// Rewritten to a single field holding the generated wrapper type; a
    /// declared discriminant does not carry over.
    Wrapped,
    /// Kept exactly as declared, discriminant included.
    Kept,
}

/// How one variant will stand in the emitted enum definition.
pub fn generate_enum_variant_definition(variant: &SaneVariant, settings: &Settings) -> (r:
    VariantShapePlan)
    ensures
        r == (if will_extract(*variant, settings.extract_variants is _Some) {
            VariantShapePlan::Wrapped
        } else {
            VariantShapePlan::Kept
        }),
{
    if settings.extract_variants.is_some() && variant.allow_extract() {
        VariantShapePlan::Wrapped
    } else {
        VariantShapePlan::Kept
    }
}

/// The emitted enum definition: one shape per variant, in order.
#[derive(Debug)]
pub struct EnumTypePlan {
    pub variants: Vec<VariantShapePlan>,
}

/// Plan the emitted enum definition.
pub fn generate_enum_type(enum_def: &SaneEnum, settings: &Settings) -> (r: EnumTypePlan)
    ensures
        r.variants@.len() == enum_def.variants@.len(),
        forall|k: int|
            0 <= k < r.variants@.len() ==> #[trigger] r.variants@[k] == (if will_extract(
                enum_def.variants@[k],
                settings.extract_variants is _Some,
            ) {
                VariantShapePlan::Wrapped
            } else {
                VariantShapePlan::Kept
            }),
{
    let mut out: Vec<VariantShapePlan> = Vec::new();
    let mut k: usize = 0;
    while k < enum_def.variants.len()
        invariant
            0 <= k <= enum_def.variants.len(),
            out@.len() == k,
            forall|m: int|
                0 <= m < k ==> #[trigger] out@[m] == (if will_extract(
                    enum_def.variants@[m],
                    settings.extract_variants is _Some,
                ) {
                    VariantShapePlan::Wrapped
                } else {
                    VariantShapePlan::Kept
                }),
        decreases enum_def.variants.len() - k,
    {
        let shape = generate_enum_variant_definition(&enum_def.variants[k], settings);
        out.push(shape);
        k += 1;
    }
    EnumTypePlan { variants: out }
}

/// The standalone type emitted for one extracted variant: the variant (its
/// fields and projected generics stand in the sanitized model) and whether
/// the enclosing declaration's derives are forwarded onto it.
#[derive(Debug)]
pub struct VariantTypePlan {
    pub variant: usize,
    pub inherit_enum_derives: bool,
}

/// Positions of the enclosing declaration's derive-list attributes, which
/// extraction may forward onto each generated type.
pub open spec fn derive_positions(attrs: Seq<EmitAttr>, n: int) -> Seq<int>
    decreases n,
{
    if n <= 0 || n > attrs.len() {
        Seq::empty()
    } else {
        derive_positions(attrs, n - 1) + if attrs[n - 1] is DeriveList {
            seq![n - 1]
        } else {
            Seq::empty()
        }
    }
}

/// Find the enclosing declaration's derive lists.
pub fn gather_enum_derives(attrs: &Vec<EmitAttr>) -> (r: Vec<usize>)
    ensures
        r@.map_values(|u: usize| u as int) == derive_positions(attrs@, attrs@.len() as int),
{
    let mut out: Vec<usize> = Vec::new();
    proof {
        assert(out@.map_values(|u: usize| u as int) =~= derive_positions(attrs@, 0));
    }
    let mut k: usize = 0;
    while k < attrs.len()
        invariant
            0 <= k <= attrs.len(),
            out@.map_values(|u: usize| u as int) == derive_positions(attrs@, k as int),
        decreases attrs.len() - k,
    {
        match &attrs[k] {
            EmitAttr::DeriveList(_) => {
                out.push(k);
            },
            EmitAttr::Plain(_) => (),
        }
        proof {
            assert(out@.map_values(|u: usize| u as int) =~= derive_positions(
                attrs@,
                k as int + 1,
            ));
        }
        k += 1;
    }
    out
}

/// One arm of the dispatch construct.
#[derive(Debug, Clone, Copy, PartialEq, Eq, Structural)]
pub struct DispatchArm {
    /// The variant this arm matches; arms stand in declaration order, one
    /// per variant, never a wildcard.
    pub variant: usize,
    /// The value the arm binds and forwards to.
    pub binder: DelegatorPlan,
    /// Whether the arm destructures through the generated wrapper.
    pub through_wrapper: bool,
}

/// The dispatch construct: its name and its exhaustive arms, in both the
/// closure and the direct invocation shape.
#[derive(Debug)]
pub struct DispatchPlan {
    pub macro_ident: String,
    pub arms: Vec<DispatchArm>,
}

/// What a planned dispatch construct holds: its derived name, and exactly
/// one arm per variant, in declaration order, each bound to the variant's
/// resolved delegator.
pub open spec fn dispatch_plan_ok(
    p: DispatchPlan,
    vars: Seq<SaneVariant>,
    extract: bool,
    enum_ident: Seq<char>,
) -> bool {
    &&& p.macro_ident@ == "delegate_"@ + snake_of(enum_ident)
    &&& p.arms@.len() == vars.len()
    &&& forall|k: int| 0 <= k < vars.len() ==> {
        let arm = #[trigger] p.arms@[k];
        &&& arm.variant == k
        &&& arm.through_wrapper == will_extract(vars[k], extract)
        &&& Ok::<DelegatorPlan, Error>(arm.binder) == spec_resolve(
            vars[k],
            will_extract(vars[k], extract),
        )
    }
}

/// The dispatch construct is exhaustive and closed: exactly one arm per
/// declared variant, in declaration order, and no arm for anything else —
/// in particular none for a variant added after the construct was planned,
/// and no wildcard arm exists that could silently absorb it.
pub proof fn lemma_dispatch_exhaustive(
    p: DispatchPlan,
    vars: Seq<SaneVariant>,
    extract: bool,
    enum_ident: Seq<char>,
)
    requires
        dispatch_plan_ok(p, vars, extract, enum_ident),
    ensures
        p.arms@.len() == vars.len(),
        forall|k: int| 0 <= k < vars.len() ==> (#[trigger] p.arms@[k]).variant == k,
        forall|m: int| 0 <= m < p.arms@.len() ==> (#[trigger] p.arms@[m]).variant < vars.len(),
{
    assert forall|m: int| 0 <= m < p.arms@.len() implies (#[trigger] p.arms@[m]).variant
        < vars.len() by {
        assert(p.arms@[m].variant == m);
    }
}

/// What the emitted match arm of one variant binds, respecting the
/// variant's field shape.
#[derive(Debug, Clone, Copy, PartialEq, Eq, Structural)]
pub enum ArmBinding {
    /// The variant binds nothing; the closure, if any, is applied to no
    /// arguments.
    Unit,
    /// The single value the variant holds after extraction, bound whole.
    WholeWrapper,
    /// The variant's first `count` named fields, in declaration order.
    NamedFields { count: usize },
    /// The variant's first `count` positional fields.
    PositionalFields { count: usize },
    /// One named field of a variant kept as declared; extraction never
    /// exposes a raw field, so a field binder never reaches through a
    /// wrapper.
    NamedFieldAt { field: usize },
    /// One positional field of a variant kept as declared.
    PositionalFieldAt { field: usize },
}

/// The binding rule of one dispatch arm: an extracted variant's arm binds
/// the wrapped value whole (its closure, if any, is applied to that); a
/// closure over a kept variant binds as many leading fields as it takes; a
/// field delegator binds that one field.
pub open spec fn spec_arm_binding(v: SaneVariant, arm: DispatchArm) -> ArmBinding {
    match arm.binder {
        DelegatorPlan::Closure { params } => if arm.through_wrapper {
            ArmBinding::WholeWrapper
        } else {
            match v.fields {
                SaneVariantFields::Named(_) => ArmBinding::NamedFields { count: params },
                SaneVariantFields::Unnamed(_) => ArmBinding::PositionalFields { count: params },
                SaneVariantFields::Unit => ArmBinding::Unit,
            }
        },
        DelegatorPlan::NamedField { field } => ArmBinding::NamedFieldAt { field },
        DelegatorPlan::PositionalField { field } => ArmBinding::PositionalFieldAt { field },
        DelegatorPlan::Wrapped => ArmBinding::WholeWrapper,
    }
}

/// Compute what one dispatch arm binds.
pub fn arm_binding(v: &SaneVariant, arm: &DispatchArm) -> (r: ArmBinding)
    ensures
        r == spec_arm_binding(*v, *arm),
{
    match arm.binder {
        DelegatorPlan::Closure { params } => {
            if arm.through_wrapper {
                ArmBinding::WholeWrapper
            } else {
                match &v.fields {
                    SaneVariantFields::Named(_) => ArmBinding::NamedFields { count: params },
                    SaneVariantFields::Unnamed(_) => ArmBinding::PositionalFields {
                        count: params,
                    },
                    SaneVariantFields::Unit => ArmBinding::Unit,
                }
            }
        },
        DelegatorPlan::NamedField { field } => ArmBinding::NamedFieldAt { field },
        DelegatorPlan::PositionalField { field } => ArmBinding::PositionalFieldAt { field },
        DelegatorPlan::Wrapped => ArmBinding::WholeWrapper,
    }
}

/// The first variant whose delegator cannot be resolved, if any.
pub open spec fn first_resolve_error(vars: Seq<SaneVariant>, extract: bool, n: int) -> Option<int>
    decreases n,
{
    if n <= 0 || n > vars.len() {
        None
    } else {
        match first_resolve_error(vars, extract, n - 1) {
            Some(k) => Some(k),
            None => if spec_resolve(vars[n - 1], will_extract(vars[n - 1], extract)) is Err {
                Some(n - 1)
            } else {
                None
            },
        }
    }
}

proof fn lemma_first_resolve_extend(vars: Seq<SaneVariant>, extract: bool, k: int, n: int)
    requires
        0 <= k < n <= vars.len(),
        first_resolve_error(vars, extract, k) is None,
        spec_resolve(vars[k], will_extract(vars[k], extract)) is Err,
    ensures
        first_resolve_error(vars, extract, n) == Some(k),
    decreases n,
{
    if n == k + 1 {
    } else {
        lemma_first_resolve_extend(vars, extract, k, n - 1);
    }
}

/// Plan the dispatch construct: one arm per variant, in order, each bound
/// to its resolved delegator; a variant that cannot resolve one is the
/// declaration's failure.
pub fn generate_delegate_macro(enum_def: &SaneEnum, settings: &Settings) -> (r: Result<
    DispatchPlan,
    Error,
>)
    ensures
        ({
            let vars = enum_def.variants@;
            let extract = settings.extract_variants is _Some;
            let n = vars.len() as int;
            &&& (r is Err <==> first_resolve_error(vars, extract, n) is Some)
            &&& match r {
                Ok(p) => dispatch_plan_ok(p, vars, extract, enum_def.ident@),
                Err(e) => e == spec_resolve(
                    vars[first_resolve_error(vars, extract, n).unwrap()],
                    will_extract(vars[first_resolve_error(vars, extract, n).unwrap()], extract),
                )->Err_0,
            }
        }),
{
    let ghost vars = enum_def.variants@;
    let ghost extract = settings.extract_variants is _Some;
    let mut arms: Vec<DispatchArm> = Vec::new();
    let mut k: usize = 0;
    while k < enum_def.variants.len()
        invariant
            0 <= k <= enum_def.variants.len(),
            vars == enum_def.variants@,
            extract == (settings.extract_variants is _Some),
            arms@.len() == k,
            first_resolve_error(vars, extract, k as int) is None,
            forall|m: int| 0 <= m < k ==> {
                let arm = #[trigger] arms@[m];
                &&& arm.variant == m
                &&& arm.through_wrapper == will_extract(vars[m], extract)
                &&& Ok::<DelegatorPlan, Error>(arm.binder) == spec_resolve(
                    vars[m],
                    will_extract(vars[m], extract),
                )
            },
        decreases enum_def.variants.len() - k,
    {
        let v = &enum_def.variants[k];
        let wrapped = settings.extract_variants.is_some() && v.allow_extract();
        match resolve(v, wrapped) {
            Ok(binder) => {
                arms.push(DispatchArm { variant: k, binder, through_wrapper: wrapped });
            },
            Err(e) => {
                proof {
                    lemma_first_resolve_extend(vars, extract, k as int, vars.len() as int);
                }
                return Err(e);
            },
        }
        k += 1;
    }
    let macro_ident = delegate_macro_ident(&enum_def.ident);
    Ok(DispatchPlan { macro_ident, arms })
}

/// Whether a raw variant admits extraction.
pub open spec fn iv_allows_extract(iv: InputVariant) -> bool {
    first_meta_of_kind(iv.attrs@, 0, iv.attrs@.len() as int) is None
}

/// Whether a raw variant admits conversions.
pub open spec fn iv_allows_convert(iv: InputVariant) -> bool {
    first_meta_of_kind(iv.attrs@, 1, iv.attrs@.len() as int) is None
}

/// Conversion eligibility, stated over the raw variant.
pub open spec fn iv_conversion_target(iv: InputVariant, extract: bool) -> Result<
    ConversionTarget,
    Error,
> {
    if extract && iv_allows_extract(iv) {
        Ok(ConversionTarget::WrapperType)
    } else {
        match iv.fields {
            VariantFields::Named(fields) => if fields@.len() == 1 {
                Ok(ConversionTarget::NamedFieldType)
            } else {
                Err(Error::ConversionIneligible { variant: iv.ident })
            },
            VariantFields::Unnamed(fields) => if fields@.len() == 1 {
                Ok(ConversionTarget::UnnamedFieldType)
            } else {
                Err(Error::ConversionIneligible { variant: iv.ident })
            },
            VariantFields::Unit => Err(Error::ConversionIneligible { variant: iv.ident }),
        }
    }
}

/// Delegator resolution, stated over the raw variant.  An extracted
/// variant's delegator derives only from the wrapped generated value.
pub open spec fn iv_resolve(iv: InputVariant, extract: bool) -> Result<DelegatorPlan, Error> {
    let metas = iv.attrs@;
    let marked = spec_delegator_of(fields_attr_lists(iv.fields));
    if delegate_closure_of(metas) is Some {
        Ok(
            DelegatorPlan::Closure {
                params: delegate_closure_of(metas).unwrap().inputs@.len() as usize,
            },
        )
    } else if extract && iv_allows_extract(iv) {
        Ok(DelegatorPlan::Wrapped)
    } else if marked is Some {
        match iv.fields {
            VariantFields::Named(_) => Ok(DelegatorPlan::NamedField { field: marked.unwrap() }),
            VariantFields::Unnamed(_) => Ok(
                DelegatorPlan::PositionalField { field: marked.unwrap() },
            ),
            VariantFields::Unit => Err(Error::DelegatorMissing { variant: iv.ident }),
        }
    } else if iv.fields.spec_field_count() > 0 {
        match iv.fields {
            VariantFields::Named(_) => Ok(DelegatorPlan::NamedField { field: 0 }),
            VariantFields::Unnamed(_) => Ok(DelegatorPlan::PositionalField { field: 0 }),
            VariantFields::Unit => Err(Error::DelegatorMissing { variant: iv.ident }),
        }
    } else {
        Err(Error::DelegatorMissing { variant: iv.ident })
    }
}

/// A sanitized variant decides everything exactly as its raw form does.
pub proof fn lemma_variant_bridge(
    iv: InputVariant,
    eg: Optional<SaneGenerics>,
    sv: SaneVariant,
    extract: bool,
)
    requires
        variant_accepted(iv, eg, sv),
    ensures
        sv.ident == iv.ident,
        sv.attrs.no_var_type == !iv_allows_extract(iv),
        sv.attrs.no_convert == !iv_allows_convert(iv),
        will_extract(sv, extract) == (extract && iv_allows_extract(iv)),
        conversion_target_of(sv, will_extract(sv, extract)) == iv_conversion_target(iv, extract),
        spec_resolve(sv, will_extract(sv, extract)) == iv_resolve(iv, extract),
{
    assert(sv.fields.spec_delegator_field() == spec_delegator_of(fields_attr_lists(iv.fields)));
    match iv.fields {
        VariantFields::Named(fields) => {
            assert(sv.fields is Named);
            assert(sv.fields->Named_0.fields@.len() == fields@.len());
        },
        VariantFields::Unnamed(fields) => {
            assert(sv.fields is Unnamed);
            assert(sv.fields->Unnamed_0.fields@.len() == fields@.len());
        },
        VariantFields::Unit => {
            assert(sv.fields is Unit);
        },
    }
}

/// The first conversion-eligible failure among the raw variants, if any.
pub open spec fn first_conv_error(vars: Seq<InputVariant>, extract: bool, n: int) -> Option<int>
    decreases n,
{
    if n <= 0 || n > vars.len() {
        None
    } else {
        match first_conv_error(vars, extract, n - 1) {
            Some(k) => Some(k),
            None => if iv_allows_convert(vars[n - 1]) && iv_conversion_target(
                vars[n - 1],
                extract,
            ) is Err {
                Some(n - 1)
            } else {
                None
            },
        }
    }
}

proof fn lemma_first_conv_extend(vars: Seq<InputVariant>, extract: bool, k: int, n: int)
    requires
        0 <= k < n <= vars.len(),
        first_conv_error(vars, extract, k) is None,
        iv_allows_convert(vars[k]) && iv_conversion_target(vars[k], extract) is Err,
    ensures
        first_conv_error(vars, extract, n) == Some(k),
    decreases n,
{
    if n == k + 1 {
    } else {
        lemma_first_conv_extend(vars, extract, k, n - 1);
    }
}

/// The first variant without a resolvable delegator, over the raw
/// declaration.
pub open spec fn first_iv_resolve_error(vars: Seq<InputVariant>, extract: bool, n: int) -> Option<
    int,
>
    decreases n,
{
    if n <= 0 || n > vars.len() {
        None
    } else {
        match first_iv_resolve_error(vars, extract, n - 1) {
            Some(k) => Some(k),
            None => if iv_resolve(vars[n - 1], extract) is Err {
                Some(n - 1)
            } else {
                None
            },
        }
    }
}

proof fn lemma_first_resolve_bridge(
    ivs: Seq<InputVariant>,
    svs: Seq<SaneVariant>,
    eg: Optional<SaneGenerics>,
    extract: bool,
    n: int,
)
    requires
        ivs.len() == svs.len(),
        0 <= n <= ivs.len(),
        forall|k: int|
            0 <= k < ivs.len() ==> variant_accepted(ivs[k], eg, #[trigger] svs[k]),
    ensures
        first_resolve_error(svs, extract, n) == first_iv_resolve_error(ivs, extract, n),
        first_resolve_error(svs, extract, n) is Some ==> {
            let k = first_resolve_error(svs, extract, n).unwrap();
            spec_resolve(svs[k], will_extract(svs[k], extract)) == iv_resolve(ivs[k], extract)
        },
    decreases n,
{
    if n > 0 {
        lemma_first_resolve_bridge(ivs, svs, eg, extract, n - 1);
        lemma_variant_bridge(ivs[n - 1], eg, svs[n - 1], extract);
    }
}

/// The variants extraction applies to, over the raw declaration.
pub open spec fn extract_indices(vars: Seq<InputVariant>, n: int) -> Seq<int>
    decreases n,
{
    if n <= 0 || n > vars.len() {
        Seq::empty()
    } else {
        extract_indices(vars, n - 1) + if iv_allows_extract(vars[n - 1]) {
            seq![n - 1]
        } else {
            Seq::empty()
        }
    }
}

/// The conversion-eligible variants, over the raw declaration.
pub open spec fn conv_indices(vars: Seq<InputVariant>, n: int) -> Seq<int>
    decreases n,
{
    if n <= 0 || n > vars.len() {
        Seq::empty()
    } else {
        conv_indices(vars, n - 1) + if iv_allows_convert(vars[n - 1]) {
            seq![n - 1]
        } else {
            Seq::empty()
        }
    }
}

/// Whether extraction is requested by the settings list.
pub open spec fn extract_requested(items: Seq<Setting>) -> bool {
    first_of_kind(items, 0, items.len() as int) is Some
}

/// Whether the sum-to-value direction is requested.
pub open spec fn try_requested(items: Seq<Setting>) -> bool {
    first_of_kind(items, 3, items.len() as int) is Some || first_of_kind(
        items,
        1,
        items.len() as int,
    ) is Some
}

/// Whether the value-to-sum direction is requested.
pub open spec fn from_requested(items: Seq<Setting>) -> bool {
    first_of_kind(items, 3, items.len() as int) is Some || first_of_kind(
        items,
        2,
        items.len() as int,
    ) is Some
}

/// Whether the settings forward the enclosing derives onto extracted
/// types.
pub open spec fn items_inherit_derives(items: Seq<Setting>) -> bool {
    match first_of_kind(items, 0, items.len() as int) {
        Some(idx) => match items[idx]->ExtractVariants_0.attrs {
            _Some(list) => crate::settings::inherit_indices(list@, list@.len() as int).len() >= 1,
            _None => false,
        },
        None => false,
    }
}

/// Everything one invocation of the transformation emits.
#[derive(Debug)]
pub struct EnumPlan {
    pub enum_def: SaneEnum,
    pub extracted: Vec<VariantTypePlan>,
    pub conversions: Vec<ConversionPlan>,
    pub enum_type: EnumTypePlan,
    pub dispatch: DispatchPlan,
}

/// Whether one invocation fails, and with what.
pub open spec fn run_rejected(items: Seq<Setting>, input: Enum) -> bool {
    let extract = extract_requested(items);
    let vars = input.variants@;
    let n = vars.len() as int;
    ||| settings_rejected(items)
    ||| where_clause_bad(input)
    ||| first_rejected_variant(vars, extract, n) is Some
    ||| ((try_requested(items) || from_requested(items)) && first_conv_error(
        vars,
        extract,
        n,
    ) is Some)
    ||| first_iv_resolve_error(vars, extract, n) is Some
}

/// The failure one rejected invocation fails with, in the fixed order of
/// the pipeline.
pub open spec fn run_error_of(items: Seq<Setting>, input: Enum) -> Error {
    let extract = extract_requested(items);
    let vars = input.variants@;
    let n = vars.len() as int;
    if settings_rejected(items) {
        settings_error_of(items)
    } else if where_clause_bad(input) {
        Error::WhereClauseWithoutGenerics
    } else if first_rejected_variant(vars, extract, n) is Some {
        variant_error_of(vars[first_rejected_variant(vars, extract, n).unwrap()], extract)
    } else if (try_requested(items) || from_requested(items)) && first_conv_error(
        vars,
        extract,
        n,
    ) is Some {
        iv_conversion_target(vars[first_conv_error(vars, extract, n).unwrap()], extract)->Err_0
    } else {
        iv_resolve(vars[first_iv_resolve_error(vars, extract, n).unwrap()], extract)->Err_0
    }
}

/// What one accepted invocation emits.
pub open spec fn run_accepted(items: Seq<Setting>, input: Enum, plan: EnumPlan) -> bool {
    let extract = extract_requested(items);
    let vars = input.variants@;
    let n = vars.len() as int;
    &&& enum_accepted(input, plan.enum_def)
    &&& plan.extracted@.map_values(|p: VariantTypePlan| p.variant as int) == (if extract {
        extract_indices(vars, n)
    } else {
        Seq::empty()
    })
    &&& forall|k: int|
        0 <= k < plan.extracted@.len() ==> (#[trigger] plan.extracted@[k]).inherit_enum_derives
            == items_inherit_derives(items)
    &&& plan.conversions@.map_values(|p: ConversionPlan| p.variant as int) == (if try_requested(
        items,
    ) || from_requested(items) {
        conv_indices(vars, n)
    } else {
        Seq::empty()
    })
    &&& forall|k: int| 0 <= k < plan.conversions@.len() ==> {
        let c = #[trigger] plan.conversions@[k];
        &&& c.variant < vars.len()
        &&& Ok::<ConversionTarget, Error>(c.target) == iv_conversion_target(
            vars[c.variant as int],
            extract,
        )
        &&& c.try_from_enum == try_requested(items)
        &&& c.enum_from_variant == from_requested(items)
    }
    &&& plan.enum_type.variants@.len() == n
    &&& forall|k: int|
        0 <= k < n ==> #[trigger] plan.enum_type.variants@[k] == (if extract && iv_allows_extract(
            vars[k],
        ) {
            VariantShapePlan::Wrapped
        } else {
            VariantShapePlan::Kept
        })
    &&& plan.dispatch.macro_ident@ == "delegate_"@ + snake_of(input.ident@)
    &&& plan.dispatch.arms@.len() == n
    &&& forall|k: int| 0 <= k < n ==> {
        let arm = #[trigger] plan.dispatch.arms@[k];
        &&& arm.variant == k
        &&& arm.through_wrapper == (extract && iv_allows_extract(vars[k]))
        &&& Ok::<DelegatorPlan, Error>(arm.binder) == iv_resolve(vars[k], extract)
    }
}

/// One invocation of the transformation: validate the settings, sanitize
/// the declaration, and plan everything it emits.  The only outcome besides
/// success is a single terminal failure.
pub fn run(settings_items: Vec<Setting>, input: Enum) -> (r: Result<EnumPlan, Error>)
    ensures
        r is Err <==> run_rejected(settings_items@, input),
        match r {
            Ok(plan) => run_accepted(settings_items@, input, plan),
            Err(e) => e == run_error_of(settings_items@, input),
        },
{
    let ghost items = settings_items@;
    let ghost vars = input.variants@;
    let ghost extract = extract_requested(items);
    let settings = match parse_settings(settings_items) {
        Ok(s) => s,
        Err(e) => {
            return Err(e);
        },
    };
    proof {
        assert((settings.extract_variants is _Some) == extract);
    }
    let enum_def = match sanitize_input(input, &settings) {
        Ok(se) => se,
        Err(e) => {
            return Err(e);
        },
    };
    let ghost sgo = sane_generics_of(input);
    proof {
        assert forall|k: int| 0 <= k < vars.len() implies {
            &&& (#[trigger] enum_def.variants@[k]).ident == vars[k].ident
            &&& enum_def.variants@[k].attrs.no_var_type == !iv_allows_extract(vars[k])
            &&& enum_def.variants@[k].attrs.no_convert == !iv_allows_convert(vars[k])
            &&& will_extract(enum_def.variants@[k], extract) == (extract && iv_allows_extract(
                vars[k],
            ))
            &&& conversion_target_of(
                enum_def.variants@[k],
                will_extract(enum_def.variants@[k], extract),
            ) == iv_conversion_target(vars[k], extract)
            &&& spec_resolve(
                enum_def.variants@[k],
                will_extract(enum_def.variants@[k], extract),
            ) == iv_resolve(vars[k], extract)
        } by {
            lemma_variant_bridge(vars[k], sgo, enum_def.variants@[k], extract);
        }
    }

    let mut extracted: Vec<VariantTypePlan> = Vec::new();
    match settings.extract_variants.as_ref() {
        _Some(sx) => {
            proof {
                assert(extracted@.map_values(|p: VariantTypePlan| p.variant as int)
                    =~= extract_indices(vars, 0));
            }
            let mut k: usize = 0;
            while k < enum_def.variants.len()
                invariant
                    0 <= k <= enum_def.variants.len(),
                    vars == input.variants@,
                    enum_def.variants@.len() == vars.len(),
                    extract == extract_requested(items),
                    sx.enum_derives == items_inherit_derives(items),
                    forall|m: int|
                        0 <= m < vars.len() ==> (#[trigger] enum_def.variants@[m]).attrs.no_var_type
                            == !iv_allows_extract(vars[m]),
                    extracted@.map_values(|p: VariantTypePlan| p.variant as int)
                        == extract_indices(vars, k as int),
                    forall|m: int|
                        0 <= m < extracted@.len() ==> (#[trigger] extracted@[m]).inherit_enum_derives
                            == items_inherit_derives(items),
                decreases enum_def.variants.len() - k,
            {
                if enum_def.variants[k].allow_extract() {
                    extracted.push(
                        VariantTypePlan { variant: k, inherit_enum_derives: sx.enum_derives },
                    );
                }
                proof {
                    assert(extracted@.map_values(|p: VariantTypePlan| p.variant as int)
                        =~= extract_indices(vars, k as int + 1));
                }
                k += 1;
            }
        },
        _None => (),
    }

    let try_dir = settings.should_impl_enum_try_into_variants();
    let from_dir = settings.should_impl_variants_into_enum();
    let mut conversions: Vec<ConversionPlan> = Vec::new();
    if try_dir || from_dir {
        proof {
            assert(conversions@.map_values(|p: ConversionPlan| p.variant as int) =~= conv_indices(
                vars,
                0,
            ));
        }
        let mut k: usize = 0;
        while k < enum_def.variants.len()
            invariant
                0 <= k <= enum_def.variants.len(),
                vars == input.variants@,
                items == settings_items@,
                enum_def.variants@.len() == vars.len(),
                extract == extract_requested(items),
                extract == (settings.extract_variants is _Some),
                try_dir == try_requested(items),
                from_dir == from_requested(items),
                try_dir || from_dir,
                !settings_rejected(items),
                !where_clause_bad(input),
                first_rejected_variant(vars, extract, vars.len() as int) is None,
                forall|m: int| 0 <= m < vars.len() ==> {
                    &&& (#[trigger] enum_def.variants@[m]).attrs.no_convert == !iv_allows_convert(
                        vars[m],
                    )
                    &&& conversion_target_of(
                        enum_def.variants@[m],
                        will_extract(enum_def.variants@[m], extract),
                    ) == iv_conversion_target(vars[m], extract)
                    &&& will_extract(enum_def.variants@[m], extract) == (extract
                        && iv_allows_extract(vars[m]))
                },
                first_conv_error(vars, extract, k as int) is None,
                conversions@.map_values(|p: ConversionPlan| p.variant as int) == conv_indices(
                    vars,
                    k as int,
                ),
                forall|m: int| 0 <= m < conversions@.len() ==> {
                    let c = #[trigger] conversions@[m];
                    &&& c.variant < vars.len()
                    &&& Ok::<ConversionTarget, Error>(c.target) == iv_conversion_target(
                        vars[c.variant as int],
                        extract,
                    )
                    &&& c.try_from_enum == try_dir
                    &&& c.enum_from_variant == from_dir
                },
            decreases enum_def.variants.len() - k,
        {
            let v = &enum_def.variants[k];
            if v.allow_generate_conversions() {
                let target = match generate_variant_try_from_enum(v, &settings) {
                    Ok(t) => t,
                    Err(e) => {
                        proof {
                            lemma_first_conv_extend(vars, extract, k as int, vars.len() as int);
                        }
                        return Err(e);
                    },
                };
                let ghost prev = conversions@;
                conversions.push(
                    ConversionPlan {
                        variant: k,
                        target,
                        try_from_enum: try_dir,
                        enum_from_variant: from_dir,
                    },
                );
            }
            proof {
                assert(conversions@.map_values(|p: ConversionPlan| p.variant as int)
                    =~= conv_indices(vars, k as int + 1));
            }
            k += 1;
        }
    }

    let enum_type = generate_enum_type(&enum_def, &settings);
    let dispatch = match generate_delegate_macro(&enum_def, &settings) {
        Ok(d) => d,
        Err(e) => {
            proof {
                lemma_first_resolve_bridge(
                    vars,
                    enum_def.variants@,
                    sgo,
                    extract,
                    vars.len() as int,
                );
            }
            return Err(e);
        },
    };
    proof {
        lemma_first_resolve_bridge(vars, enum_def.variants@, sgo, extract, vars.len() as int);
        if !extract {
            assert(extracted@.map_values(|p: VariantTypePlan| p.variant as int)
                =~= Seq::<int>::empty());
        }
        if !(try_dir || from_dir) {
            assert(conversions@.map_values(|p: ConversionPlan| p.variant as int)
                =~= Seq::<int>::empty());
        }
    }
    Ok(EnumPlan { enum_def, extracted, conversions, enum_type, dispatch })
}

} // verus!
