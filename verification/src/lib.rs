//! Build-time analysis core for delegated sum types.
//!
//! Given the model of a declared sum type (a closed tagged union) together
//! with a per-variant configuration, this library computes everything a
//! source-to-source transformation needs: a structural classification of the
//! identifiers that occur in a piece of the grammar, the minimal generic
//! header a projected variant type requires, a validated per-variant model,
//! the delegator each variant forwards calls to, and plans for the projected
//! types, the conversions and the exhaustive dispatch construct.

mod ast;
mod classify;
pub mod delegate_impl;
mod delegator;
mod emit;
mod errors;
mod generics;
mod idents;
mod names;
mod project;
mod semantics;
mod settings;
mod variant;
mod variant_fields;

pub use ast::{
    Bound,
    Expr,
    ExprClosure,
    ExprPath,
    ExprStruct,
    GenericArg,
    InputGenericParam,
    InputGenericParamConst,
    InputGenericParamLifetime,
    InputGenericParamType,
    InputGenerics,
    Pat,
    Path,
    PathArguments,
    PathSegment,
    PredicateLifetime,
    PredicateType,
    QualifiedSelf,
    ReturnType,
    TraitBound,
    TypeExpr,
    TypePath,
    WhereClause,
    WherePredicate,
};
pub use classify::{
    bound_idents,
    collect_bound,
    collect_expr,
    collect_pat,
    collect_path,
    collect_type,
    expr_idents,
    input_generics_idents,
    path_idents,
    predicate_idents,
    type_idents,
    type_param_idents,
    where_clause_idents,
    CollectIdents,
};
pub use delegator::{lemma_marked_field_overrides_first, resolve, spec_resolve, DelegatorPlan};
pub use emit::{
    arm_binding,
    conversion_target_of,
    dispatch_plan_ok,
    enum_accepted,
    gather_enum_derives,
    generate_delegate_macro,
    generate_enum_from_variant,
    generate_enum_type,
    generate_enum_variant_definition,
    generate_variant_try_from_enum,
    lemma_dispatch_exhaustive,
    lemma_variant_bridge,
    run,
    run_accepted,
    run_error_of,
    run_rejected,
    sanitize_input,
    spec_arm_binding,
    ArmBinding,
    ConversionPlan,
    ConversionTarget,
    DispatchArm,
    DispatchPlan,
    Enum,
    EnumPlan,
    EnumTypePlan,
    SaneEnum,
    VariantShapePlan,
    VariantTypePlan,
};
pub use errors::Error;
pub use generics::{generic_param_name, sanitize_generics, Optional, SaneGenerics, _None, _Some};
pub use idents::{delegate_macro_ident, snake_of, var_to_field_ident};
pub use names::{lemma_reconcile_settles, IdentMap, IdentSets};
pub use project::{
    is_projection_plan,
    lf_names,
    project_generics,
    projection_result,
    satisfiable,
    ty_names,
    ProjectedGenerics,
    RetainedParam,
};
pub use semantics::{
    enum_from_variant_value,
    lemma_conversion_round_trip,
    spec_extract,
    spec_inject,
    sum_view,
    variant_mut_from_enum_value,
    variant_ref_from_enum_value,
    variant_try_from_enum_value,
    SumValue,
};
pub use settings::{
    parse_settings,
    sanitize_extract_variants,
    settings_accepted,
    EmitAttr,
    ExtractVariantsAttr,
    SaneSettingExtractVariants,
    Setting,
    SettingAttrs,
    SettingDerive,
    SettingExtractVariants,
    Settings,
};
pub use variant::{
    generics_needed_by_variant,
    sanitize_attributes,
    sanitize_variant,
    split_input_metas,
    variant_accepted,
    variant_fields_idents,
    CfgMeta,
    ExplicitDelegator,
    InputVariant,
    InputVariantDiscriminant,
    Meta,
    SaneVariant,
    SaneVariantAttributes,
    VarMeta,
};
pub use variant_fields::{
    sanitize_field_named,
    sanitize_field_unnamed,
    sanitize_variant_fields,
    SaneVariantFieldNamed,
    SaneVariantFieldUnnamed,
    SaneVariantFields,
    SaneVariantFieldsNamed,
    SaneVariantFieldsUnnamed,
    VariantFieldMeta,
    VariantFieldNamed,
    VariantFieldUnnamed,
    VariantFields,
};
