use delegated_enum::delegate_impl::{
    find_enum_ident, run, sanitize_fn_arg, sanitize_method_signature, FnArg, InputFnSignature,
    InputImplItem, InputImplItemAssocType, InputImplItemAssocTypeBody, InputImplItemConst,
    InputImplItemConstBody, InputImplItemFn, InputImplItemFnBody, InputImplTrait, ItemPlan,
    PatType,
};
use delegated_enum::{
    Error, Expr, Pat, Path, PathArguments, PathSegment, ReturnType, TypeExpr, TypePath, _None,
};

fn s(x: &str) -> String {
    x.to_string()
}

fn seg(id: &str) -> PathSegment {
    PathSegment { ident: s(id), arguments: PathArguments::Bare }
}

fn tpath(id: &str) -> TypeExpr {
    TypeExpr::Path(TypePath { qself: None, path: Path { segments: vec![seg(id)] } })
}

fn sig(name: &str, inputs: Vec<FnArg>) -> InputFnSignature {
    InputFnSignature {
        constness: false,
        asyncness: false,
        unsafety: false,
        ident: s(name),
        generics: _None,
        inputs,
        output: ReturnType::Unspecified,
        where_clause: _None,
    }
}

fn typed(t: TypeExpr) -> FnArg {
    FnArg::Typed(PatType { pat: Pat::Binding { subpat: None }, ty: t })
}

fn method(name: &str, inputs: Vec<FnArg>) -> InputImplItem {
    InputImplItem::Fn(InputImplItemFn {
        attrs: vec![],
        sig: sig(name, inputs),
        body: InputImplItemFnBody::SemiColon,
    })
}

fn impl_block(self_ty: TypeExpr, items: Vec<InputImplItem>) -> InputImplTrait {
    InputImplTrait {
        attrs: vec![],
        unsafety: false,
        generics: _None,
        negative: false,
        trait_path: Path { segments: vec![seg("Setting")] },
        self_ty,
        where_clause: _None,
        items,
    }
}

#[test]
fn forwarded_methods_invoke_the_dispatch_construct() {
    let input = impl_block(
        tpath("SettingsEnum"),
        vec![
            method("key", vec![FnArg::Receiver]),
            method("apply", vec![FnArg::Receiver, typed(tpath("i32"))]),
            InputImplItem::Fn(InputImplItemFn {
                attrs: vec![],
                sig: sig("written", vec![FnArg::Receiver]),
                body: InputImplItemFnBody::Block,
            }),
            InputImplItem::Const(InputImplItemConst {
                attrs: vec![],
                ident: s("LIMIT"),
                ty: tpath("usize"),
                body: InputImplItemConstBody::Value(Expr::Lit),
            }),
        ],
    );
    let plan = run(input).unwrap();
    assert_eq!(plan.macro_ident, "delegate_settings_enum");
    assert_eq!(plan.items.len(), 4);
    match &plan.items[0] {
        ItemPlan::Forwarded(f) => {
            assert_eq!(f.method, "key");
            assert_eq!(f.args, 0);
        }
        _ => panic!("expected a forwarded method"),
    }
    match &plan.items[1] {
        ItemPlan::Forwarded(f) => {
            assert_eq!(f.method, "apply");
            assert_eq!(f.args, 1);
        }
        _ => panic!("expected a forwarded method"),
    }
    assert!(matches!(plan.items[2], ItemPlan::Explicit));
    assert!(matches!(plan.items[3], ItemPlan::Passthrough));
}

#[test]
fn code_macros_are_disallowed_among_impl_items() {
    let input = impl_block(tpath("SettingsEnum"), vec![InputImplItem::MacroCall]);
    let r = run(input);
    assert_eq!(r.unwrap_err(), Error::DisallowedConstruct);
}

#[test]
fn bodiless_associated_items_are_rejected() {
    let input = impl_block(
        tpath("E"),
        vec![InputImplItem::Const(InputImplItemConst {
            attrs: vec![],
            ident: s("LIMIT"),
            ty: tpath("usize"),
            body: InputImplItemConstBody::Absent,
        })],
    );
    assert_eq!(
        run(input).unwrap_err(),
        Error::AssocConstWithoutValue { name: s("LIMIT") }
    );

    let input = impl_block(
        tpath("E"),
        vec![InputImplItem::Type(InputImplItemAssocType {
            attrs: vec![],
            ident: s("Output"),
            body: InputImplItemAssocTypeBody::Absent,
        })],
    );
    assert_eq!(
        run(input).unwrap_err(),
        Error::AssocTypeWithoutValue { name: s("Output") }
    );
}

#[test]
fn forwarded_methods_need_exactly_one_leading_receiver() {
    let r = sanitize_method_signature(sig("free", vec![typed(tpath("i32"))]));
    assert_eq!(r.unwrap_err(), Error::MissingReceiver { method: s("free") });

    let r = sanitize_method_signature(sig("twice", vec![FnArg::Receiver, FnArg::Receiver]));
    assert_eq!(r.unwrap_err(), Error::ExtraReceiver { method: s("twice") });

    let ok = sanitize_method_signature(sig(
        "fine",
        vec![FnArg::Receiver, typed(tpath("i32")), typed(tpath("String"))],
    ))
    .unwrap();
    assert_eq!(ok.ident, "fine");
    assert_eq!(ok.other_inputs.len(), 2);
}

#[test]
fn destructuring_parameters_are_rejected() {
    let bad = PatType { pat: Pat::Wild, ty: tpath("i32") };
    assert_eq!(sanitize_fn_arg(bad).unwrap_err(), Error::PatternParameter);

    let ok = PatType { pat: Pat::Binding { subpat: None }, ty: tpath("i32") };
    assert!(sanitize_fn_arg(ok).is_ok());
}

#[test]
fn enum_ident_is_found_through_wrappers() {
    let ty = TypeExpr::Reference {
        lifetime: Some(s("a")),
        mutable: true,
        elem: Box::new(TypeExpr::Paren(Box::new(tpath("DoorState")))),
    };
    assert_eq!(find_enum_ident(&ty).unwrap(), "DoorState");

    let ty = TypeExpr::Tuple(vec![tpath("First"), tpath("Second")]);
    assert_eq!(find_enum_ident(&ty).unwrap(), "First");

    assert!(find_enum_ident(&TypeExpr::Never).is_none());
}
