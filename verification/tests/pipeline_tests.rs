use delegated_enum::{
    delegate_macro_ident, generics_needed_by_variant, parse_settings, resolve, run,
    sanitize_generics, sanitize_variant, sanitize_variant_fields, split_input_metas,
    var_to_field_ident, Bound, CfgMeta, ConversionTarget, DelegatorPlan, Enum, Error,
    ExtractVariantsAttr, GenericArg, InputGenericParam, InputGenericParamLifetime,
    InputGenericParamType, InputGenerics, InputVariant, Meta, Optional, Path, PathArguments,
    PathSegment, SaneVariantFields, Setting, SettingAttrs, SettingDerive, SettingExtractVariants,
    Settings, TraitBound, TypeExpr, TypePath, VarMeta, VariantFieldMeta, VariantFieldNamed,
    VariantFieldUnnamed, VariantFields, VariantShapePlan, WhereClause, _None, _Some,
};

fn s(x: &str) -> String {
    x.to_string()
}

fn seg(id: &str) -> PathSegment {
    PathSegment { ident: s(id), arguments: PathArguments::Bare }
}

fn gseg(id: &str, args: Vec<GenericArg>) -> PathSegment {
    PathSegment { ident: s(id), arguments: PathArguments::AngleBracketed(args) }
}

fn tpath(id: &str) -> TypeExpr {
    TypeExpr::Path(TypePath { qself: None, path: Path { segments: vec![seg(id)] } })
}

fn tgen(id: &str, args: Vec<GenericArg>) -> TypeExpr {
    TypeExpr::Path(TypePath { qself: None, path: Path { segments: vec![gseg(id, args)] } })
}

fn ta(t: TypeExpr) -> GenericArg {
    GenericArg::Ty(t)
}

fn ty_param(id: &str, bounds: Vec<Bound>) -> InputGenericParam {
    InputGenericParam::Type(InputGenericParamType { ident: s(id), bounds, default: None })
}

fn lf_param(id: &str) -> InputGenericParam {
    InputGenericParam::Lifetime(InputGenericParamLifetime { lifetime: s(id), bounds: vec![] })
}

fn tb(id: &str) -> Bound {
    Bound::Trait(TraitBound { binder: vec![], path: Path { segments: vec![seg(id)] } })
}

fn tbg(id: &str, args: Vec<GenericArg>) -> Bound {
    Bound::Trait(TraitBound { binder: vec![], path: Path { segments: vec![gseg(id, args)] } })
}

fn unnamed_field(t: TypeExpr) -> VariantFieldUnnamed {
    VariantFieldUnnamed { attrs: vec![], ty: t }
}

fn named_field(id: &str, t: TypeExpr) -> VariantFieldNamed {
    VariantFieldNamed { attrs: vec![], ident: s(id), ty: t }
}

fn variant(id: &str, fields: VariantFields, attrs: Vec<Meta>) -> InputVariant {
    InputVariant { attrs, ident: s(id), fields, discriminant: _None }
}

fn default_settings() -> Settings {
    parse_settings(vec![]).unwrap()
}

#[test]
fn where_clause_without_generics_is_rejected() {
    let r = sanitize_generics(_None, _Some(WhereClause { predicates: vec![] }));
    assert!(matches!(r, Err(Error::WhereClauseWithoutGenerics)));
    assert!(sanitize_generics(_None, _None).is_ok());
}

#[test]
fn conversions_shorthand_conflicts_with_either_direction() {
    let r = parse_settings(vec![Setting::ImplEnumFromVars, Setting::ImplConversions]);
    assert_eq!(r.unwrap_err(), Error::ConfigConflict { first: 0, second: 1 });

    let r = parse_settings(vec![Setting::ImplConversions, Setting::ImplVariantsTryFromEnum]);
    assert_eq!(r.unwrap_err(), Error::ConfigConflict { first: 1, second: 0 });

    let ok = parse_settings(vec![
        Setting::ImplVariantsTryFromEnum,
        Setting::ImplEnumFromVars,
    ])
    .unwrap();
    assert!(ok.should_impl_enum_try_into_variants());
    assert!(ok.should_impl_variants_into_enum());

    let ok = parse_settings(vec![Setting::ImplConversions]).unwrap();
    assert!(ok.should_impl_enum_try_into_variants());
    assert!(ok.should_impl_variants_into_enum());
}

#[test]
fn duplicate_setting_names_both_sites() {
    let r = parse_settings(vec![
        Setting::ImplEnumFromVars,
        Setting::ImplVariantsTryFromEnum,
        Setting::ImplEnumFromVars,
    ]);
    assert_eq!(r.unwrap_err(), Error::ConfigConflict { first: 0, second: 2 });
}

#[test]
fn extract_variants_attrs_are_gathered() {
    let ev = SettingExtractVariants {
        attrs: _Some(vec![
            ExtractVariantsAttr::Derive(SettingDerive { paths: vec![s("Debug"), s("Clone")] }),
            ExtractVariantsAttr::InheritEnumDerives,
            ExtractVariantsAttr::Attrs(SettingAttrs { attrs: vec![s("serde(untagged)")] }),
        ]),
    };
    let settings = parse_settings(vec![Setting::ExtractVariants(ev)]).unwrap();
    match settings.extract_variants {
        _Some(sx) => {
            assert!(sx.enum_derives);
            assert_eq!(sx.attrs.len(), 2);
        }
        _None => panic!("extraction should be configured"),
    }
}

#[test]
fn duplicate_inherit_derives_is_a_conflict() {
    let ev = SettingExtractVariants {
        attrs: _Some(vec![
            ExtractVariantsAttr::InheritEnumDerives,
            ExtractVariantsAttr::InheritEnumDerives,
        ]),
    };
    let r = parse_settings(vec![Setting::ExtractVariants(ev)]);
    assert_eq!(r.unwrap_err(), Error::ConfigConflict { first: 0, second: 1 });
}

// For enclosing parameters `<T, U, 'a>` and a target field type `Vec<T>`,
// the projection is exactly `<T>`, whatever the order of `U` and `'a`.
#[test]
fn projection_keeps_exactly_what_the_target_needs() {
    for params in [
        vec![ty_param("T", vec![]), ty_param("U", vec![]), lf_param("a")],
        vec![ty_param("U", vec![]), lf_param("a"), ty_param("T", vec![])],
    ] {
        let t_index = params
            .iter()
            .position(|p| matches!(p, InputGenericParam::Type(tp) if tp.ident == "T"))
            .unwrap();
        let generics = _Some(delegated_enum::SaneGenerics {
            input: InputGenerics { params },
            where_clause: _None,
        });
        let fields =
            VariantFields::Unnamed(vec![unnamed_field(tgen("Vec", vec![ta(tpath("T"))]))]);
        match generics_needed_by_variant(&fields, &generics) {
            _Some(p) => {
                assert_eq!(p.params.len(), 1);
                assert_eq!(p.params[0].index, t_index);
                assert!(p.params[0].bounds.is_empty());
                assert!(p.predicates.is_empty());
            }
            _None => panic!("T must be retained"),
        }
    }
}

// For `T: Clone + Into<U>` where `U` is dropped by the projection, the
// projected `T` keeps `Clone` and drops `Into<U>`.
#[test]
fn projection_drops_unsatisfiable_bounds() {
    let generics = _Some(delegated_enum::SaneGenerics {
        input: InputGenerics {
            params: vec![
                ty_param("T", vec![tb("Clone"), tbg("Into", vec![ta(tpath("U"))])]),
                ty_param("U", vec![]),
            ],
        },
        where_clause: _None,
    });
    let fields = VariantFields::Unnamed(vec![unnamed_field(tpath("T"))]);
    match generics_needed_by_variant(&fields, &generics) {
        _Some(p) => {
            assert_eq!(p.params.len(), 1);
            assert_eq!(p.params[0].index, 0);
            assert_eq!(p.params[0].bounds, vec![0usize]);
        }
        _None => panic!("T must be retained"),
    }
}

#[test]
fn projection_is_omitted_when_nothing_is_needed() {
    let generics = _Some(delegated_enum::SaneGenerics {
        input: InputGenerics { params: vec![ty_param("T", vec![]), lf_param("a")] },
        where_clause: _None,
    });
    let fields = VariantFields::Unnamed(vec![unnamed_field(tpath("i32"))]);
    assert!(matches!(generics_needed_by_variant(&fields, &generics), _None));
}

#[test]
fn marked_second_field_is_the_delegator() {
    let fields = VariantFields::Named(vec![
        named_field("first", tpath("i64")),
        VariantFieldNamed {
            attrs: vec![VariantFieldMeta::Delegator],
            ident: s("second"),
            ty: tpath("String"),
        },
    ]);
    match sanitize_variant_fields(fields).unwrap() {
        SaneVariantFields::Named(named) => {
            assert_eq!(named.delegator, Some(1));
            assert_eq!(named.fields.len(), 2);
        }
        _ => panic!("expected named fields"),
    }
}

#[test]
fn two_marked_fields_conflict() {
    let fields = VariantFields::Unnamed(vec![
        VariantFieldUnnamed { attrs: vec![VariantFieldMeta::Delegator], ty: tpath("A") },
        VariantFieldUnnamed { attrs: vec![VariantFieldMeta::Delegator], ty: tpath("B") },
    ]);
    assert_eq!(
        sanitize_variant_fields(fields).unwrap_err(),
        Error::DelegatorConflict { first: 0, second: 1 }
    );
}

// A variant with an unmarked first field and a separately marked second
// field resolves its delegator to the marked field, never the first.
#[test]
fn marked_field_overrides_first_field_rule() {
    let v = variant(
        "V",
        VariantFields::Named(vec![
            named_field("first", tpath("i64")),
            VariantFieldNamed {
                attrs: vec![VariantFieldMeta::Delegator],
                ident: s("second"),
                ty: tpath("String"),
            },
        ]),
        vec![],
    );
    let settings = default_settings();
    let sv = sanitize_variant(v, &settings, &_None).unwrap();
    assert_eq!(resolve(&sv, false).unwrap(), DelegatorPlan::NamedField { field: 1 });
    assert_ne!(resolve(&sv, false).unwrap(), DelegatorPlan::NamedField { field: 0 });
}

#[test]
fn unmarked_variant_delegates_to_its_first_field() {
    let v = variant(
        "V",
        VariantFields::Unnamed(vec![unnamed_field(tpath("A")), unnamed_field(tpath("B"))]),
        vec![],
    );
    let settings = default_settings();
    let sv = sanitize_variant(v, &settings, &_None).unwrap();
    assert_eq!(resolve(&sv, false).unwrap(), DelegatorPlan::PositionalField { field: 0 });
}

#[test]
fn unit_variant_without_delegator_is_rejected() {
    let v = variant("Idle", VariantFields::Unit, vec![]);
    let settings = default_settings();
    let sv = sanitize_variant(v, &settings, &_None).unwrap();
    assert_eq!(
        resolve(&sv, false).unwrap_err(),
        Error::DelegatorMissing { variant: s("Idle") }
    );
    assert_eq!(resolve(&sv, true).unwrap(), DelegatorPlan::Wrapped);
}

fn closure(params: usize) -> delegated_enum::ExprClosure {
    let mut inputs = Vec::new();
    for _ in 0..params {
        inputs.push(delegated_enum::Pat::Binding { subpat: None });
    }
    delegated_enum::ExprClosure {
        binder: vec![],
        inputs,
        output: delegated_enum::ReturnType::Unspecified,
        body: Box::new(delegated_enum::Expr::Lit),
    }
}

#[test]
fn delegator_closure_arity_is_checked() {
    let v = variant(
        "V",
        VariantFields::Unnamed(vec![unnamed_field(tpath("A"))]),
        vec![Meta::Custom(VarMeta::DelegateVia(closure(2)))],
    );
    let settings = default_settings();
    assert_eq!(
        sanitize_variant(v, &settings, &_None).unwrap_err(),
        Error::ClosureArityMismatch { params: 2, allowed: 1 }
    );

    let v = variant(
        "V",
        VariantFields::Unnamed(vec![unnamed_field(tpath("A"))]),
        vec![Meta::Custom(VarMeta::DelegateVia(closure(2)))],
    );
    let settings = parse_settings(vec![Setting::ExtractVariants(SettingExtractVariants {
        attrs: _None,
    })])
    .unwrap();
    assert_eq!(
        sanitize_variant(v, &settings, &_None).unwrap_err(),
        Error::ClosureArityMismatch { params: 2, allowed: 1 }
    );
}

#[test]
fn explicit_closure_next_to_marked_field_conflicts() {
    let v = variant(
        "V",
        VariantFields::Unnamed(vec![VariantFieldUnnamed {
            attrs: vec![VariantFieldMeta::Delegator],
            ty: tpath("A"),
        }]),
        vec![Meta::Custom(VarMeta::DelegateVia(closure(1)))],
    );
    let settings = default_settings();
    assert_eq!(
        sanitize_variant(v, &settings, &_None).unwrap_err(),
        Error::DelegatorConflict { first: 0, second: 0 }
    );
}

#[test]
fn split_input_metas_partitions_in_order() {
    let metas = vec![
        Meta::Plain(s("doc-one")),
        Meta::Cfg(CfgMeta { tokens: s("unix") }),
        Meta::Custom(VarMeta::NoConversions),
        Meta::Plain(s("doc-two")),
    ];
    let (plain, cfgs, customs) = split_input_metas(metas);
    assert_eq!(plain, vec![s("doc-one"), s("doc-two")]);
    assert_eq!(cfgs.len(), 1);
    assert_eq!(cfgs[0].tokens, "unix");
    assert_eq!(customs.len(), 1);
    assert!(matches!(customs[0], VarMeta::NoConversions));
}

#[test]
fn dispatch_macro_name_is_snake_cased() {
    assert_eq!(delegate_macro_ident(&s("SomeEnum")), "delegate_some_enum");
    assert_eq!(delegate_macro_ident(&s("HTTPMethod")), "delegate_http_method");
}

#[test]
fn table_field_names_are_snake_cased() {
    assert_eq!(var_to_field_ident(&s("MaxFps")), "max_fps");
    assert_eq!(var_to_field_ident(&s("DialogueTextSpeed")), "dialogue_text_speed");
}

// End-to-end: a sum type `{A(i32), B{x: String}, C}` with `C`
// extraction-flagged and conversions requested.
#[test]
fn end_to_end_extraction_and_conversions() {
    let input = Enum {
        attrs: vec![],
        ident: s("Sum"),
        generics: _None,
        where_clause: _None,
        variants: vec![
            variant(
                "A",
                VariantFields::Unnamed(vec![unnamed_field(tpath("i32"))]),
                vec![Meta::Custom(VarMeta::NoVarType)],
            ),
            variant(
                "B",
                VariantFields::Named(vec![named_field("x", tpath("String"))]),
                vec![Meta::Custom(VarMeta::NoVarType)],
            ),
            variant("C", VariantFields::Unit, vec![]),
        ],
    };
    let settings = vec![
        Setting::ExtractVariants(SettingExtractVariants { attrs: _None }),
        Setting::ImplConversions,
    ];
    let plan = run(settings, input).unwrap();

    // only `C` gets a standalone wrapper type
    assert_eq!(plan.extracted.len(), 1);
    assert_eq!(plan.extracted[0].variant, 2);

    // fallible conversions: `i32` via `A`, `String` via `B`, the wrapper via `C`
    assert_eq!(plan.conversions.len(), 3);
    assert_eq!(plan.conversions[0].variant, 0);
    assert_eq!(plan.conversions[0].target, ConversionTarget::UnnamedFieldType);
    assert!(plan.conversions[0].try_from_enum);
    assert!(plan.conversions[0].enum_from_variant);
    assert_eq!(plan.conversions[1].variant, 1);
    assert_eq!(plan.conversions[1].target, ConversionTarget::NamedFieldType);
    assert_eq!(plan.conversions[2].variant, 2);
    assert_eq!(plan.conversions[2].target, ConversionTarget::WrapperType);

    // the emitted enum keeps `A` and `B` and rewrites `C` through its wrapper
    assert_eq!(
        plan.enum_type.variants,
        vec![VariantShapePlan::Kept, VariantShapePlan::Kept, VariantShapePlan::Wrapped]
    );

    // dispatch arms: `A(v)`, `B{x}`, `C(wrapper)` — exhaustive, in order
    assert_eq!(plan.dispatch.macro_ident, "delegate_sum");
    assert_eq!(plan.dispatch.arms.len(), 3);
    assert_eq!(plan.dispatch.arms[0].variant, 0);
    assert_eq!(plan.dispatch.arms[0].binder, DelegatorPlan::PositionalField { field: 0 });
    assert!(!plan.dispatch.arms[0].through_wrapper);
    assert_eq!(plan.dispatch.arms[1].variant, 1);
    assert_eq!(plan.dispatch.arms[1].binder, DelegatorPlan::NamedField { field: 0 });
    assert_eq!(plan.dispatch.arms[2].variant, 2);
    assert_eq!(plan.dispatch.arms[2].binder, DelegatorPlan::Wrapped);
    assert!(plan.dispatch.arms[2].through_wrapper);

    // no arm exists for a variant added afterwards, and none is a wildcard
    assert!(!plan.dispatch.arms.iter().any(|a| a.variant >= 3));
}

#[test]
fn ineligible_variant_rejects_conversions() {
    let input = Enum {
        attrs: vec![],
        ident: s("Pair"),
        generics: _None,
        where_clause: _None,
        variants: vec![variant(
            "Two",
            VariantFields::Unnamed(vec![unnamed_field(tpath("A")), unnamed_field(tpath("B"))]),
            vec![],
        )],
    };
    let r = run(vec![Setting::ImplConversions], input);
    assert_eq!(r.unwrap_err(), Error::ConversionIneligible { variant: s("Two") });
}

#[test]
fn suppressed_conversions_skip_the_variant() {
    let input = Enum {
        attrs: vec![],
        ident: s("Pair"),
        generics: _None,
        where_clause: _None,
        variants: vec![
            variant(
                "Two",
                VariantFields::Unnamed(vec![
                    unnamed_field(tpath("A")),
                    unnamed_field(tpath("B")),
                ]),
                vec![Meta::Custom(VarMeta::NoConversions)],
            ),
            variant("One", VariantFields::Unnamed(vec![unnamed_field(tpath("A"))]), vec![]),
        ],
    };
    let plan = run(vec![Setting::ImplConversions], input).unwrap();
    assert_eq!(plan.conversions.len(), 1);
    assert_eq!(plan.conversions[0].variant, 1);
}

#[test]
fn run_reports_missing_delegator() {
    let input = Enum {
        attrs: vec![],
        ident: s("Direction"),
        generics: _None,
        where_clause: _None,
        variants: vec![
            variant("North", VariantFields::Unit, vec![]),
            variant("South", VariantFields::Unit, vec![]),
        ],
    };
    let r = run(vec![], input);
    assert_eq!(r.unwrap_err(), Error::DelegatorMissing { variant: s("North") });
}

#[test]
fn optional_behaves_like_an_option() {
    let some: Optional<i32> = _Some(5);
    let none: Optional<i32> = _None;
    assert!(some.is_some());
    assert!(!some.is_none());
    assert!(none.is_none());
    assert_eq!(some.map(|x| x + 1), Some(6));
    assert_eq!(none.map(|x| x + 1), None);
    assert!(matches!(_Some(7).as_ref(), _Some(&7)));
}

#[test]
fn generic_argument_lists_name_each_parameter() {
    let generics = delegated_enum::SaneGenerics {
        input: InputGenerics {
            params: vec![lf_param("a"), ty_param("T", vec![]), ty_param("U", vec![])],
        },
        where_clause: _None,
    };
    assert_eq!(generics.stream_args_list(), vec![s("a"), s("T"), s("U")]);
    let absent: Optional<delegated_enum::SaneGenerics> = _None;
    assert!(absent.stream_args_list().is_empty());
    let present: Optional<delegated_enum::SaneGenerics> = _Some(generics);
    assert_eq!(present.stream_args_list().len(), 3);
    let (params, wc) = present.into_pair();
    assert!(params.is_some());
    assert!(wc.is_none());
}

#[test]
fn enum_derive_lists_are_gathered_by_position() {
    let attrs = vec![
        delegated_enum::EmitAttr::Plain(s("non_exhaustive")),
        delegated_enum::EmitAttr::DeriveList(vec![s("Debug"), s("Clone")]),
        delegated_enum::EmitAttr::Plain(s("repr(C)")),
        delegated_enum::EmitAttr::DeriveList(vec![s("PartialEq")]),
    ];
    assert_eq!(delegated_enum::gather_enum_derives(&attrs), vec![1usize, 3]);
}

#[test]
fn duplicate_variant_annotations_name_both_sites() {
    let v = variant(
        "V",
        VariantFields::Unnamed(vec![unnamed_field(tpath("A"))]),
        vec![
            Meta::Custom(VarMeta::NoConversions),
            Meta::Plain(s("doc")),
            Meta::Custom(VarMeta::NoConversions),
        ],
    );
    let settings = default_settings();
    assert_eq!(
        sanitize_variant(v, &settings, &_None).unwrap_err(),
        Error::ConfigConflict { first: 0, second: 2 }
    );
}

#[test]
fn sanitized_variant_keeps_forwarded_attributes() {
    let v = variant(
        "V",
        VariantFields::Unnamed(vec![unnamed_field(tpath("A"))]),
        vec![
            Meta::Plain(s("doc-line")),
            Meta::Cfg(CfgMeta { tokens: s("unix") }),
            Meta::Custom(VarMeta::NoConversions),
        ],
    );
    let settings = default_settings();
    let sv = sanitize_variant(v, &settings, &_None).unwrap();
    assert_eq!(sv.attrs.syn_attrs, vec![s("doc-line")]);
    assert_eq!(sv.attrs.cfg_attrs.len(), 1);
    assert!(sv.attrs.no_convert);
    assert!(!sv.attrs.no_var_type);
}

#[test]
fn dispatch_arms_bind_by_field_shape() {
    let input = Enum {
        attrs: vec![],
        ident: s("Mixed"),
        generics: _None,
        where_clause: _None,
        variants: vec![
            variant(
                "ByClosure",
                VariantFields::Named(vec![
                    named_field("left", tpath("A")),
                    named_field("right", tpath("B")),
                ]),
                vec![Meta::Custom(VarMeta::DelegateVia(closure(2)))],
            ),
            variant(
                "ByMark",
                VariantFields::Unnamed(vec![
                    unnamed_field(tpath("A")),
                    VariantFieldUnnamed {
                        attrs: vec![VariantFieldMeta::Delegator],
                        ty: tpath("B"),
                    },
                ]),
                vec![],
            ),
        ],
    };
    let plan = run(vec![], input).unwrap();
    let b0 = delegated_enum::arm_binding(&plan.enum_def.variants[0], &plan.dispatch.arms[0]);
    assert_eq!(b0, delegated_enum::ArmBinding::NamedFields { count: 2 });
    let b1 = delegated_enum::arm_binding(&plan.enum_def.variants[1], &plan.dispatch.arms[1]);
    assert_eq!(b1, delegated_enum::ArmBinding::PositionalFieldAt { field: 1 });
}

// For an extraction-flagged variant the delegator is always the wrapped
// generated value itself: a field-level marker never exposes a raw inner
// field, it only influences how the wrapper is built.
#[test]
fn extraction_overrides_a_field_marker() {
    let input = Enum {
        attrs: vec![],
        ident: s("Carton"),
        generics: _None,
        where_clause: _None,
        variants: vec![variant(
            "Pair",
            VariantFields::Unnamed(vec![
                unnamed_field(tpath("A")),
                VariantFieldUnnamed {
                    attrs: vec![VariantFieldMeta::Delegator],
                    ty: tpath("B"),
                },
            ]),
            vec![],
        )],
    };
    let settings = vec![Setting::ExtractVariants(SettingExtractVariants { attrs: _None })];
    let plan = run(settings, input).unwrap();
    assert!(plan.dispatch.arms[0].through_wrapper);
    assert_eq!(plan.dispatch.arms[0].binder, DelegatorPlan::Wrapped);
    let binding =
        delegated_enum::arm_binding(&plan.enum_def.variants[0], &plan.dispatch.arms[0]);
    assert_eq!(binding, delegated_enum::ArmBinding::WholeWrapper);

    // the same variant kept (not extracted) still delegates to the marked field
    let settings = parse_settings(vec![]).unwrap();
    let v = variant(
        "Pair",
        VariantFields::Unnamed(vec![
            unnamed_field(tpath("A")),
            VariantFieldUnnamed {
                attrs: vec![VariantFieldMeta::Delegator],
                ty: tpath("B"),
            },
        ]),
        vec![],
    );
    let sv = sanitize_variant(v, &settings, &_None).unwrap();
    assert_eq!(resolve(&sv, true).unwrap(), DelegatorPlan::Wrapped);
    assert_eq!(resolve(&sv, false).unwrap(), DelegatorPlan::PositionalField { field: 1 });
}
