use delegated_enum::{
    Bound, Expr, ExprPath, GenericArg, IdentMap, InputGenericParam, InputGenericParamConst,
    InputGenericParamLifetime, InputGenericParamType, InputGenerics, Path, PathArguments,
    PathSegment, PredicateType, QualifiedSelf, ReturnType, TraitBound, TypeExpr, TypePath,
    WherePredicate,
};

fn s(x: &str) -> String {
    x.to_string()
}

fn seg(id: &str) -> PathSegment {
    PathSegment { ident: s(id), arguments: PathArguments::Bare }
}

fn gseg(id: &str, args: Vec<GenericArg>) -> PathSegment {
    PathSegment { ident: s(id), arguments: PathArguments::AngleBracketed(args) }
}

fn pseg(id: &str, inputs: Vec<TypeExpr>, output: ReturnType) -> PathSegment {
    PathSegment { ident: s(id), arguments: PathArguments::Parenthesized { inputs, output } }
}

fn path(segs: Vec<PathSegment>) -> Path {
    Path { segments: segs }
}

fn tpath(id: &str) -> TypeExpr {
    TypeExpr::Path(TypePath { qself: None, path: path(vec![seg(id)]) })
}

fn tgen(id: &str, args: Vec<GenericArg>) -> TypeExpr {
    TypeExpr::Path(TypePath { qself: None, path: path(vec![gseg(id, args)]) })
}

fn qpath(qty: TypeExpr, position: usize, segs: Vec<PathSegment>) -> TypeExpr {
    TypeExpr::Path(TypePath {
        qself: Some(QualifiedSelf { ty: Box::new(qty), position, as_trait: true }),
        path: path(segs),
    })
}

fn ta(t: TypeExpr) -> GenericArg {
    GenericArg::Ty(t)
}

fn la(l: &str) -> GenericArg {
    GenericArg::Lifetime(s(l))
}

fn assoc(id: &str, t: TypeExpr) -> GenericArg {
    GenericArg::AssocType { ident: s(id), generics: vec![], ty: t }
}

fn rf(l: Option<&str>, m: bool, t: TypeExpr) -> TypeExpr {
    TypeExpr::Reference { lifetime: l.map(s), mutable: m, elem: Box::new(t) }
}

fn slice(t: TypeExpr) -> TypeExpr {
    TypeExpr::Slice(Box::new(t))
}

fn tup(ts: Vec<TypeExpr>) -> TypeExpr {
    TypeExpr::Tuple(ts)
}

fn arr(t: TypeExpr, len: Expr) -> TypeExpr {
    TypeExpr::Array { elem: Box::new(t), len }
}

fn epath(id: &str) -> Expr {
    Expr::Path(ExprPath { qself: None, path: path(vec![seg(id)]) })
}

fn ld0(l: &str) -> InputGenericParamLifetime {
    InputGenericParamLifetime { lifetime: s(l), bounds: vec![] }
}

fn bare_fn(
    binder: Vec<InputGenericParamLifetime>,
    inputs: Vec<TypeExpr>,
    output: ReturnType,
) -> TypeExpr {
    TypeExpr::BareFn { binder, inputs, output }
}

fn out_ty(t: TypeExpr) -> ReturnType {
    ReturnType::Ty(Box::new(t))
}

fn tb(id: &str) -> Bound {
    Bound::Trait(TraitBound { binder: vec![], path: path(vec![seg(id)]) })
}

fn tbg(id: &str, args: Vec<GenericArg>) -> Bound {
    Bound::Trait(TraitBound { binder: vec![], path: path(vec![gseg(id, args)]) })
}

fn lb(l: &str) -> Bound {
    Bound::Lifetime(s(l))
}

fn dynt(bs: Vec<Bound>) -> TypeExpr {
    TypeExpr::TraitObject(bs)
}

fn implt(bs: Vec<Bound>) -> TypeExpr {
    TypeExpr::ImplTrait(bs)
}

fn tparam(id: &str, bounds: Vec<Bound>) -> InputGenericParamType {
    InputGenericParamType { ident: s(id), bounds, default: None }
}

fn check_vec(kind: &str, got: &Vec<String>, expect: &[&str]) {
    let mut left: Vec<String> = got.clone();
    for &e in expect {
        match left.iter().position(|g| g == e) {
            Some(i) => {
                left.remove(i);
            }
            None => panic!("{kind}: element not found: {e}; remaining: {left:?}"),
        }
    }
    if !left.is_empty() {
        panic!("{kind}: elements left: {left:?}");
    }
}

fn check(map: &IdentMap, tys: &[&str], traits: &[&str], lifes: &[&str], consts: &[&str]) {
    check_vec("types", &map.tys, tys);
    check_vec("traits", &map.traits, traits);
    check_vec("lifetimes", &map.lifetimes, lifes);
    check_vec("constants", &map.constants, consts);
}

#[test]
fn plain_types() {
    check(&IdentMap::new(&tpath("i32")), &["i32"], &[], &[], &[]);
    check(&IdentMap::new(&tpath("String")), &["String"], &[], &[], &[]);
    check(&IdentMap::new(&tpath("bool")), &["bool"], &[], &[], &[]);
    check(&IdentMap::new(&tgen("Option", vec![ta(tpath("T"))])), &["Option", "T"], &[], &[], &[]);
    check(
        &IdentMap::new(&tgen("Result", vec![ta(tpath("T")), ta(tpath("E"))])),
        &["Result", "T", "E"],
        &[],
        &[],
        &[],
    );
}

#[test]
fn references() {
    check(&IdentMap::new(&rf(None, false, tpath("String"))), &["String"], &[], &[], &[]);
    check(&IdentMap::new(&rf(Some("a"), false, tpath("str"))), &["str"], &[], &["a"], &[]);
    check(
        &IdentMap::new(&rf(Some("static"), false, slice(tpath("u8")))),
        &["u8"],
        &[],
        &["static"],
        &[],
    );
    check(
        &IdentMap::new(&rf(Some("a"), true, tgen("Vec", vec![ta(tpath("T"))]))),
        &["Vec", "T"],
        &[],
        &["a"],
        &[],
    );
}

#[test]
fn collections() {
    check(&IdentMap::new(&tgen("Vec", vec![ta(tpath("T"))])), &["Vec", "T"], &[], &[], &[]);
    check(
        &IdentMap::new(&tgen("HashMap", vec![ta(tpath("K")), ta(tpath("V"))])),
        &["HashMap", "K", "V"],
        &[],
        &[],
        &[],
    );
    check(
        &IdentMap::new(&tgen("BTreeMap", vec![ta(tpath("K")), ta(tpath("V"))])),
        &["BTreeMap", "K", "V"],
        &[],
        &[],
        &[],
    );
    check(&IdentMap::new(&tgen("HashSet", vec![ta(tpath("T"))])), &["HashSet", "T"], &[], &[], &[]);
}

#[test]
fn array_slices() {
    check(&IdentMap::new(&arr(tpath("T"), epath("N"))), &["T"], &[], &[], &[]);
    check(&IdentMap::new(&slice(tpath("T"))), &["T"], &[], &[], &[]);
    check(&IdentMap::new(&rf(None, false, slice(tpath("T")))), &["T"], &[], &[], &[]);
    check(&IdentMap::new(&rf(None, true, arr(tpath("T"), Expr::Lit))), &["T"], &[], &[], &[]);
    check(
        &IdentMap::new(&rf(Some("a"), true, arr(tpath("T"), epath("LEN")))),
        &["T"],
        &[],
        &["a"],
        &[],
    );
}

#[test]
fn tuples() {
    check(&IdentMap::new(&tup(vec![tpath("T"), tpath("U")])), &["T", "U"], &[], &[], &[]);
    check(
        &IdentMap::new(&tup(vec![tpath("A"), tpath("B"), tpath("C"), tpath("D")])),
        &["A", "B", "C", "D"],
        &[],
        &[],
        &[],
    );
    check(
        &IdentMap::new(&tup(vec![
            rf(None, false, tpath("A")),
            rf(Some("c"), false, tpath("B")),
            rf(Some("t"), false, tpath("C")),
            rf(None, true, tpath("D")),
        ])),
        &["A", "B", "C", "D"],
        &[],
        &["c", "t"],
        &[],
    );
    check(&IdentMap::new(&tup(vec![])), &[], &[], &[], &[]);
}

#[test]
fn functions() {
    check(
        &IdentMap::new(&bare_fn(vec![], vec![tpath("T")], out_ty(tpath("U")))),
        &["T", "U"],
        &[],
        &[],
        &[],
    );
    check(
        &IdentMap::new(&bare_fn(vec![], vec![tpath("i32"), tpath("String")], out_ty(tpath("bool")))),
        &["i32", "String", "bool"],
        &[],
        &[],
        &[],
    );
    check(
        &IdentMap::new(&bare_fn(
            vec![],
            vec![tpath("i32"), tpath("String")],
            out_ty(implt(vec![tbg("Iterator", vec![assoc("Item", tpath("SomeType"))])])),
        )),
        &["i32", "String", "SomeType"],
        &["Iterator"],
        &[],
        &[],
    );
    check(
        &IdentMap::new(&bare_fn(
            vec![],
            vec![rf(Some("b"), false, tpath("i32")), rf(None, true, tpath("String"))],
            out_ty(implt(vec![tbg(
                "Iterator",
                vec![la("a"), assoc("Item", tpath("SomeType"))],
            )])),
        )),
        &["i32", "String", "SomeType"],
        &["Iterator"],
        &["a", "b"],
        &[],
    );
    check(
        &IdentMap::new(&dynt(vec![Bound::Trait(TraitBound {
            binder: vec![],
            path: path(vec![pseg("Fn", vec![tpath("T")], out_ty(tpath("U")))]),
        })])),
        &["T", "U"],
        &["Fn"],
        &[],
        &[],
    );
    check(
        &IdentMap::new(&dynt(vec![
            Bound::Trait(TraitBound {
                binder: vec![],
                path: path(vec![pseg(
                    "Fn",
                    vec![
                        tpath("T"),
                        rf(None, false, tpath("U")),
                        rf(Some("c"), false, tpath("F")),
                    ],
                    out_ty(dynt(vec![tb("Clone")])),
                )]),
            }),
        ])),
        &["T", "U", "F"],
        &["Fn", "Clone"],
        &["c"],
        &[],
    );
    check(
        &IdentMap::new(&dynt(vec![Bound::Trait(TraitBound {
            binder: vec![],
            path: path(vec![pseg("FnMut", vec![], out_ty(tup(vec![])))]),
        })])),
        &[],
        &["FnMut"],
        &[],
        &[],
    );
}

#[test]
fn trait_objs() {
    check(
        &IdentMap::new(&tgen("Box", vec![ta(dynt(vec![tb("Trait")]))])),
        &["Box"],
        &["Trait"],
        &[],
        &[],
    );
    check(
        &IdentMap::new(&rf(
            None,
            false,
            dynt(vec![tbg("Iterator", vec![assoc("Item", tpath("T"))])]),
        )),
        &["T"],
        &["Iterator"],
        &[],
        &[],
    );
    check(
        &IdentMap::new(&rf(
            Some("a"),
            false,
            dynt(vec![tbg(
                "Iterator",
                vec![assoc("Item", tgen("T", vec![ta(tpath("U")), la("d")]))],
            )]),
        )),
        &["T", "U"],
        &["Iterator"],
        &["a", "d"],
        &[],
    );
    check(&IdentMap::new(&rf(None, true, dynt(vec![tb("Write")]))), &[], &["Write"], &[], &[]);
    check(
        &IdentMap::new(&rf(Some("static"), false, dynt(vec![tb("Write")]))),
        &[],
        &["Write"],
        &["static"],
        &[],
    );
}

#[test]
fn generics_with_bounds() {
    check(
        &IdentMap::new(&tparam("T", vec![tb("Clone"), tb("Send")])),
        &["T"],
        &["Clone", "Send"],
        &[],
        &[],
    );
    check(
        &IdentMap::new(&tparam("T", vec![tbg("Into", vec![ta(tpath("String"))]), lb("static")])),
        &["T", "String"],
        &["Into"],
        &["static"],
        &[],
    );
    check(
        &IdentMap::new(&tparam(
            "T",
            vec![tbg("AsRef", vec![ta(slice(tpath("u8")))]), tb("Sized")],
        )),
        &["T", "u8"],
        &["AsRef", "Sized"],
        &[],
        &[],
    );
    check(
        &IdentMap::new(&tparam(
            "T",
            vec![
                tbg("AsRef", vec![ta(rf(None, false, slice(tpath("u8"))))]),
                tb("Sized"),
                tbg("Deserialize", vec![la("a")]),
            ],
        )),
        &["T", "u8"],
        &["AsRef", "Sized", "Deserialize"],
        &["a"],
        &[],
    );
}

#[test]
fn lifetime_bounds() {
    check(
        &IdentMap::new(&InputGenericParamLifetime { lifetime: s("a"), bounds: vec![s("b")] }),
        &[],
        &[],
        &["a", "b"],
        &[],
    );
    check(&IdentMap::new(&tparam("T", vec![lb("static")])), &["T"], &[], &["static"], &[]);
    check(
        &IdentMap::new(&WherePredicate::Type(PredicateType {
            binder: vec![ld0("a")],
            bounded_ty: rf(Some("a"), true, tpath("T")),
            bounds: vec![tbg("Deserialize", vec![la("a")])],
        })),
        &["T"],
        &["Deserialize"],
        &["a"],
        &[],
    );
}

#[test]
fn complex_nested_types() {
    check(
        &IdentMap::new(&tgen(
            "Result",
            vec![
                ta(tgen("Vec", vec![ta(tgen("Option", vec![ta(tpath("T"))]))])),
                ta(tgen("Box", vec![ta(dynt(vec![tb("Error")]))])),
            ],
        )),
        &["Result", "Vec", "Option", "T", "Box"],
        &["Error"],
        &[],
        &[],
    );
    check(
        &IdentMap::new(&tgen(
            "HashMap",
            vec![
                ta(tpath("String")),
                ta(tgen("Vec", vec![ta(tup(vec![tpath("i32"), tpath("bool")]))])),
            ],
        )),
        &["HashMap", "String", "Vec", "i32", "bool"],
        &[],
        &[],
        &[],
    );
    check(
        &IdentMap::new(&tgen(
            "Box",
            vec![ta(dynt(vec![Bound::Trait(TraitBound {
                binder: vec![],
                path: path(vec![pseg(
                    "Fn",
                    vec![rf(Some("a"), false, tpath("str"))],
                    out_ty(tgen("Result", vec![ta(tpath("T")), ta(tpath("E"))])),
                )]),
            })]))],
        )),
        &["Box", "str", "Result", "T", "E"],
        &["Fn"],
        &["a"],
        &[],
    );
}

#[test]
fn advanced_generics() {
    check(
        &IdentMap::new(&implt(vec![tbg("Iterator", vec![assoc("Item", tpath("T"))])])),
        &["T"],
        &["Iterator"],
        &[],
        &[],
    );
    check(
        &IdentMap::new(&implt(vec![tb("Trait"), lb("static")])),
        &[],
        &["Trait"],
        &["static"],
        &[],
    );
    check(
        &IdentMap::new(&dynt(vec![Bound::Trait(TraitBound {
            binder: vec![ld0("a")],
            path: path(vec![pseg(
                "Fn",
                vec![rf(Some("a"), false, tpath("str"))],
                out_ty(rf(Some("a"), false, tpath("str"))),
            )]),
        })])),
        &["str"],
        &["Fn"],
        &["a"],
        &[],
    );
}

#[test]
fn associated_types() {
    check(
        &IdentMap::new(&qpath(tpath("T"), 1, vec![seg("Iterator"), seg("Item")])),
        &["T", "Item"],
        &["Iterator"],
        &[],
        &[],
    );
    check(
        &IdentMap::new(&qpath(
            tpath("Self"),
            1,
            vec![gseg("AsRef", vec![ta(slice(tpath("u8")))]), seg("Target")],
        )),
        &["Self", "u8", "Target"],
        &["AsRef"],
        &[],
        &[],
    );
    check(
        &IdentMap::new(&qpath(
            tpath("Self"),
            1,
            vec![gseg("AsRef", vec![ta(slice(tpath("u8")))]), gseg("Target", vec![la("a")])],
        )),
        &["Self", "u8", "Target"],
        &["AsRef"],
        &["a"],
        &[],
    );
}

#[test]
fn extra_complex() {
    check(
        &IdentMap::new(&bare_fn(
            vec![],
            vec![tpath("T")],
            out_ty(implt(vec![tbg(
                "Future",
                vec![assoc(
                    "Output",
                    tgen(
                        "Result",
                        vec![
                            ta(tgen("Vec", vec![ta(tpath("U"))])),
                            ta(tgen(
                                "Box",
                                vec![ta(dynt(vec![tb("Error"), tb("Send"), lb("static")]))],
                            )),
                        ],
                    ),
                )],
            )])),
        )),
        &["Result", "Vec", "U", "Box", "T"],
        &["Future", "Error", "Send"],
        &["static"],
        &[],
    );
    check(
        &IdentMap::new(&bare_fn(
            vec![ld0("a"), ld0("b")],
            vec![rf(Some("a"), false, slice(tpath("T")))],
            out_ty(TypeExpr::Paren(Box::new(dynt(vec![
                tbg("Iterator", vec![assoc("Item", rf(Some("b"), false, tpath("U")))]),
                lb("a"),
            ])))),
        )),
        &["T", "U"],
        &["Iterator"],
        &["a", "b"],
        &[],
    );
    check(
        &IdentMap::new(&tgen(
            "Box",
            vec![ta(dynt(vec![Bound::Trait(TraitBound {
                binder: vec![ld0("r")],
                path: path(vec![pseg(
                    "FnMut",
                    vec![rf(Some("r"), false, tpath("str"))],
                    out_ty(tgen("Option", vec![ta(rf(Some("r"), false, slice(tpath("u8"))))])),
                )]),
            })]))],
        )),
        &["Box", "str", "Option", "u8"],
        &["FnMut"],
        &["r"],
        &[],
    );
    check(
        &IdentMap::new(&tgen(
            "Rc",
            vec![ta(tgen(
                "RefCell",
                vec![ta(tgen(
                    "HashMap",
                    vec![
                        ta(tpath("String")),
                        ta(tgen("Box", vec![ta(dynt(vec![tb("Any")]))])),
                    ],
                ))],
            ))],
        )),
        &["Rc", "RefCell", "HashMap", "String", "Box"],
        &["Any"],
        &[],
        &[],
    );
    check(
        &IdentMap::new(&tgen(
            "Pin",
            vec![ta(tgen(
                "Box",
                vec![ta(dynt(vec![
                    tbg(
                        "Future",
                        vec![assoc(
                            "Output",
                            tgen("Result", vec![ta(tpath("T")), ta(tpath("E"))]),
                        )],
                    ),
                    tb("Send"),
                    lb("static"),
                ]))],
            ))],
        )),
        &["Pin", "Box", "Result", "T", "E"],
        &["Future", "Send"],
        &["static"],
        &[],
    );
    check(
        &IdentMap::new(&tgen(
            "Arc",
            vec![ta(tgen(
                "Mutex",
                vec![ta(tgen(
                    "Vec",
                    vec![ta(tgen(
                        "Box",
                        vec![ta(dynt(vec![
                            Bound::Trait(TraitBound {
                                binder: vec![],
                                path: path(vec![pseg(
                                    "Fn",
                                    vec![],
                                    out_ty(tgen(
                                        "Result",
                                        vec![
                                            ta(tup(vec![])),
                                            ta(tgen(
                                                "Box",
                                                vec![ta(dynt(vec![tb("Error")]))],
                                            )),
                                        ],
                                    )),
                                )]),
                            }),
                            tb("Send"),
                            lb("static"),
                        ]))],
                    ))],
                ))],
            ))],
        )),
        &["Arc", "Mutex", "Vec", "Box", "Result"],
        &["Fn", "Error", "Send"],
        &["static"],
        &[],
    );
    check(
        &IdentMap::new(&tgen(
            "Either",
            vec![
                ta(tgen(
                    "Box",
                    vec![ta(dynt(vec![tbg("Iterator", vec![assoc("Item", tpath("T"))])]))],
                )),
                ta(implt(vec![tbg("IntoIterator", vec![assoc("Item", tpath("T"))])])),
            ],
        )),
        &["Either", "Box", "T"],
        &["Iterator", "IntoIterator"],
        &[],
        &[],
    );
    check(
        &IdentMap::new(&tgen(
            "PhantomData",
            vec![ta(bare_fn(vec![], vec![], out_ty(tpath("T"))))],
        )),
        &["PhantomData", "T"],
        &[],
        &[],
        &[],
    );
    check(
        &IdentMap::new(&bare_fn(
            vec![],
            vec![rf(Some("a"), true, slice(tpath("T")))],
            out_ty(TypeExpr::Paren(Box::new(dynt(vec![
                tbg(
                    "Iterator",
                    vec![assoc(
                        "Item",
                        rf(
                            Some("a"),
                            false,
                            TypeExpr::Path(TypePath {
                                qself: None,
                                path: path(vec![seg("T"), seg("Output")]),
                            }),
                        ),
                    )],
                ),
                lb("a"),
            ])))),
        )),
        &["T", "Output"],
        &["Iterator"],
        &["a"],
        &[],
    );
    check(
        &IdentMap::new(&qpath(
            tpath("T"),
            1,
            vec![
                gseg("SomeTrait", vec![la("a"), ta(tpath("U"))]),
                gseg("AssocType", vec![ta(tpath("V")), ta(tpath("W"))]),
            ],
        )),
        &["T", "U", "AssocType", "V", "W"],
        &["SomeTrait"],
        &["a"],
        &[],
    );
}

fn cparam(id: &str, ty: &str) -> InputGenericParam {
    InputGenericParam::Const(InputGenericParamConst {
        ident: s(id),
        ty: tpath(ty),
        default: None,
    })
}

#[test]
fn constants() {
    check(
        &IdentMap::new(&InputGenerics { params: vec![cparam("LEN", "usize")] }),
        &["usize"],
        &[],
        &[],
        &["LEN"],
    );
    check(
        &IdentMap::new(&InputGenerics {
            params: vec![InputGenericParam::Type(tparam("T", vec![])), cparam("LEN", "usize")],
        }),
        &["usize", "T"],
        &[],
        &[],
        &["LEN"],
    );
    check(
        &IdentMap::new(&InputGenerics {
            params: vec![
                InputGenericParam::Lifetime(ld0("a")),
                InputGenericParam::Type(tparam("F", vec![])),
                cparam("LEN", "usize"),
            ],
        }),
        &["usize", "F"],
        &[],
        &["a"],
        &["LEN"],
    );
    check(
        &IdentMap::new(&InputGenerics {
            params: vec![
                InputGenericParam::Lifetime(ld0("b")),
                cparam("LEN", "usize"),
                cparam("SIZE", "isize"),
                InputGenericParam::Type(tparam("T", vec![])),
            ],
        }),
        &["usize", "isize", "T"],
        &[],
        &["b"],
        &["LEN", "SIZE"],
    );
}

#[test]
fn nested_generics_with_lifetimes() {
    check(
        &IdentMap::new(&tgen(
            "HashMap",
            vec![
                ta(rf(Some("a"), false, tpath("str"))),
                ta(tgen(
                    "Vec",
                    vec![ta(tgen(
                        "Rc",
                        vec![ta(tgen(
                            "RefCell",
                            vec![ta(tgen(
                                "Option",
                                vec![ta(tgen(
                                    "Box",
                                    vec![ta(dynt(vec![
                                        tbg("Trait", vec![la("b")]),
                                        lb("static"),
                                    ]))],
                                ))],
                            ))],
                        ))],
                    ))],
                )),
            ],
        )),
        &["HashMap", "str", "Vec", "Rc", "RefCell", "Option", "Box"],
        &["Trait"],
        &["a", "b", "static"],
        &[],
    );
    check(
        &IdentMap::new(&bare_fn(
            vec![ld0("a"), ld0("b")],
            vec![rf(Some("a"), false, tgen("Foo", vec![la("b")]))],
            out_ty(rf(Some("b"), false, tgen("Bar", vec![la("a")]))),
        )),
        &["Foo", "Bar"],
        &[],
        &["a", "b"],
        &[],
    );
    check(
        &IdentMap::new(&WherePredicate::Type(PredicateType {
            binder: vec![],
            bounded_ty: tpath("T"),
            bounds: vec![Bound::Trait(TraitBound {
                binder: vec![ld0("r")],
                path: path(vec![pseg(
                    "Fn",
                    vec![rf(Some("r"), false, slice(tpath("u8")))],
                    out_ty(tgen(
                        "Result",
                        vec![
                            ta(rf(Some("r"), false, tpath("str"))),
                            ta(rf(Some("r"), false, tpath("Error"))),
                        ],
                    )),
                )]),
            })],
        })),
        &["T", "u8", "str", "Result", "Error"],
        &["Fn"],
        &["r"],
        &[],
    );
}

#[test]
fn test_1() {
    let input = InputGenericParam::Type(tparam(
        "T",
        vec![tbg(
            "Into",
            vec![ta(tgen(
                "Vec",
                vec![ta(tup(vec![
                    arr(tpath("N"), epath("LEN")),
                    rf(
                        Some("b"),
                        true,
                        slice(dynt(vec![
                            tb("Clone"),
                            tbg(
                                "Iterator",
                                vec![assoc("Item", TypeExpr::Pointer(Box::new(tpath("T"))))],
                            ),
                        ])),
                    ),
                ]))],
            ))],
        )],
    ));
    check(
        &IdentMap::new(&input),
        &["T", "Vec", "N"],
        &["Into", "Iterator", "Clone"],
        &["b"],
        &[],
    );
}

#[test]
fn test_2() {
    let input = InputGenericParam::Lifetime(InputGenericParamLifetime {
        lifetime: s("a"),
        bounds: vec![s("b")],
    });
    check(&IdentMap::new(&input), &[], &[], &["a", "b"], &[]);
}

#[test]
fn test_3() {
    let input: Vec<InputGenericParamLifetime> = vec![ld0("a"), ld0("b")];
    check(&IdentMap::new(&input), &[], &[], &["a", "b"], &[]);
}

#[test]
fn test_4() {
    let input = TraitBound {
        binder: vec![ld0("a"), ld0("b")],
        path: path(vec![seg("some_module"), gseg("T", vec![la("a")])]),
    };
    check(&IdentMap::new(&input), &[], &["T"], &["a", "b"], &[]);
}

#[test]
fn test_5() {
    let input = TypeExpr::Paren(Box::new(tgen("T", vec![ta(tpath("N")), la("a")])));
    check(&IdentMap::new(&input), &["T", "N"], &[], &["a"], &[]);
}

#[test]
fn test_6() {
    let input = bare_fn(
        vec![],
        vec![
            tpath("usize"),
            tpath("T"),
            rf(Some("c"), false, tpath("N")),
            arr(tpath("E"), epath("LEN")),
        ],
        out_ty(implt(vec![tbg("Deref", vec![assoc("Target", tgen("A", vec![la("b")]))])])),
    );
    check(&IdentMap::new(&input), &["usize", "T", "N", "E", "A"], &["Deref"], &["c", "b"], &[]);
}

#[test]
fn test_7() {
    let input = qpath(
        tpath("Self"),
        1,
        vec![
            seg("SomeTrait"),
            gseg(
                "SomeAssocType",
                vec![ta(bare_fn(
                    vec![],
                    vec![
                        tpath("usize"),
                        tpath("T"),
                        rf(Some("c"), false, tpath("N")),
                        arr(tpath("E"), epath("LEN")),
                    ],
                    out_ty(implt(vec![tbg(
                        "Deref",
                        vec![assoc("Target", tgen("A", vec![la("b")]))],
                    )])),
                ))],
            ),
        ],
    );
    check(
        &IdentMap::new(&input),
        &["Self", "SomeAssocType", "usize", "T", "N", "E", "A"],
        &["SomeTrait", "Deref"],
        &["c", "b"],
        &[],
    );
}

#[test]
fn ambiguous_constant_counted_once() {
    let input = InputGenerics {
        params: vec![
            InputGenericParam::Type(InputGenericParamType {
                ident: s("T"),
                bounds: vec![],
                default: Some(arr(tpath("u8"), epath("LEN"))),
            }),
            cparam("LEN", "usize"),
        ],
    };
    let map = IdentMap::new(&input);
    check(&map, &["T", "u8", "usize"], &[], &[], &["LEN"]);
    assert!(!map.ambiguous_paths.iter().any(|x| x == "LEN"));
}
