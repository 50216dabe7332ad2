//! Forwarding a whole `impl` block through the dispatch construct.
//!
//! An impl block marked for delegation lists associated types and constants
//! (which must be given in full), methods with bodies (passed through as
//! written), and bodiless method signatures: each of the latter becomes one
//! invocation of the sum type's dispatch construct, forwarding the receiver
//! and the remaining arguments.  A raw code-macro invocation has no place
//! among these items and is rejected.

use vstd::prelude::*;

use crate::ast::{Expr, InputGenerics, Pat, Path, ReturnType, TypeExpr, TypePath, WhereClause};
use crate::errors::Error;
use crate::generics::{sanitize_generics, Optional, _None, _Some};
use crate::idents::{delegate_macro_ident, snake_of};

verus! {

/// A typed parameter, `pat: ty`.
#[derive(Debug)]
pub struct PatType {
    pub pat: Pat,
    pub ty: TypeExpr,
}

/// One parameter of a forwarded method.
#[derive(Debug)]
pub enum FnArg {
    /// The `self` receiver, in any of its forms.
    Receiver,
    Typed(PatType),
}

/// A forwarded method's signature, as declared.
#[derive(Debug)]
pub struct InputFnSignature {
    pub constness: bool,
    pub asyncness: bool,
    pub unsafety: bool,
    pub ident: String,
    pub generics: Optional<InputGenerics>,
    pub inputs: Vec<FnArg>,
    pub output: ReturnType,
    pub where_clause: Optional<WhereClause>,
}

/// The body of a method item: written out, or left to be forwarded.
#[derive(Debug)]
pub enum InputImplItemFnBody {
    Block,
    SemiColon,
}

/// A method item of the impl block.
#[derive(Debug)]
pub struct InputImplItemFn {
    pub attrs: Vec<String>,
    pub sig: InputFnSignature,
    pub body: InputImplItemFnBody,
}

/// The body of an associated constant: its value, or nothing.
#[derive(Debug)]
pub enum InputImplItemConstBody {
    Value(Expr),
    Absent,
}

/// An associated constant of the impl block.
#[derive(Debug)]
pub struct InputImplItemConst {
    pub attrs: Vec<String>,
    pub ident: String,
    pub ty: TypeExpr,
    pub body: InputImplItemConstBody,
}

/// The body of an associated type: its definition, or nothing.
#[derive(Debug)]
pub enum InputImplItemAssocTypeBody {
    Ty(TypeExpr),
    Absent,
}

/// An associated type of the impl block.
#[derive(Debug)]
pub struct InputImplItemAssocType {
    pub attrs: Vec<String>,
    pub ident: String,
    pub body: InputImplItemAssocTypeBody,
}

/// One item of the impl block.
#[derive(Debug)]
pub enum InputImplItem {
    Const(InputImplItemConst),
    Fn(InputImplItemFn),
    Type(InputImplItemAssocType),
    /// A raw code-macro invocation; only declarative items are accepted.
    MacroCall,
}

/// A sanitized non-receiver parameter: a plain binding with its type.
#[derive(Debug)]
pub struct SaneNonReceiverFnArg {
    pub ty: TypeExpr,
}

/// Whether a parameter pattern is a plain binding, the only accepted
/// shape.
pub open spec fn plain_binding(p: Pat) -> bool {
    p is Binding
}

/// Accept a typed parameter: its pattern must be a plain binding, not a
/// destructuring pattern.
pub fn sanitize_fn_arg(arg: PatType) -> (r: Result<SaneNonReceiverFnArg, Error>)
    ensures
        r is Err <==> !plain_binding(arg.pat),
        match r {
            Ok(a) => a.ty == arg.ty,
            Err(e) => e == Error::PatternParameter,
        },
{
    match arg.pat {
        Pat::Binding { subpat: _ } => Ok(SaneNonReceiverFnArg { ty: arg.ty }),
        _ => Err(Error::PatternParameter),
    }
}

/// A sanitized forwarded-method signature: the receiver comes first, the
/// remaining parameters are plain bindings.
#[derive(Debug)]
pub struct SaneMethodSignature {
    pub constness: bool,
    pub asyncness: bool,
    pub unsafety: bool,
    pub ident: String,
    pub generics: Optional<InputGenerics>,
    pub other_inputs: Vec<SaneNonReceiverFnArg>,
    pub output: ReturnType,
    pub where_clause: Optional<WhereClause>,
}

/// The first offending parameter after the receiver: a second receiver or
/// a destructuring pattern.
pub open spec fn first_bad_arg(inputs: Seq<FnArg>, n: int) -> Option<int>
    decreases n,
{
    if n <= 1 || n > inputs.len() {
        None
    } else {
        match first_bad_arg(inputs, n - 1) {
            Some(k) => Some(k),
            None => if inputs[n - 1] is Receiver || !plain_binding(inputs[n - 1]->Typed_0.pat) {
                Some(n - 1)
            } else {
                None
            },
        }
    }
}

/// Whether a signature is rejected: no leading receiver, a second
/// receiver, or a destructured parameter.
pub open spec fn signature_rejected(sig: InputFnSignature) -> bool {
    ||| sig.inputs@.len() == 0
    ||| !(sig.inputs@[0] is Receiver)
    ||| first_bad_arg(sig.inputs@, sig.inputs@.len() as int) is Some
}

/// What a rejected signature is rejected with.
pub open spec fn signature_error_of(sig: InputFnSignature) -> Error {
    if sig.inputs@.len() == 0 || !(sig.inputs@[0] is Receiver) {
        Error::MissingReceiver { method: sig.ident }
    } else {
        let k = first_bad_arg(sig.inputs@, sig.inputs@.len() as int).unwrap();
        if sig.inputs@[k] is Receiver {
            Error::ExtraReceiver { method: sig.ident }
        } else {
            Error::PatternParameter
        }
    }
}

/// What an accepted signature sanitizes to.
pub open spec fn signature_accepted(sig: InputFnSignature, out: SaneMethodSignature) -> bool {
    &&& out.constness == sig.constness
    &&& out.asyncness == sig.asyncness
    &&& out.unsafety == sig.unsafety
    &&& out.ident == sig.ident
    &&& out.generics == sig.generics
    &&& out.output == sig.output
    &&& out.where_clause == sig.where_clause
    &&& out.other_inputs@.len() == sig.inputs@.len() - 1
    &&& forall|k: int|
        0 <= k < out.other_inputs@.len() ==> (#[trigger] out.other_inputs@[k]).ty == sig.inputs@[k
            + 1]->Typed_0.ty
}

proof fn lemma_first_bad_arg_extend(inputs: Seq<FnArg>, k: int, n: int)
    requires
        1 <= k < n <= inputs.len(),
        first_bad_arg(inputs, k) is None,
        inputs[k] is Receiver || !plain_binding(inputs[k]->Typed_0.pat),
    ensures
        first_bad_arg(inputs, n) == Some(k),
    decreases n,
{
    if n == k + 1 {
    } else {
        lemma_first_bad_arg_extend(inputs, k, n - 1);
    }
}

/// Sanitize a forwarded method's signature: exactly one receiver, first,
/// then plain typed bindings.
pub fn sanitize_method_signature(input: InputFnSignature) -> (r: Result<
    SaneMethodSignature,
    Error,
>)
    ensures
        r is Err <==> signature_rejected(input),
        match r {
            Ok(out) => signature_accepted(input, out),
            Err(e) => e == signature_error_of(input),
        },
{
    let InputFnSignature {
        constness,
        asyncness,
        unsafety,
        ident,
        generics,
        inputs,
        output,
        where_clause,
    } = input;
    let ghost args = inputs@;
    if inputs.len() == 0 {
        return Err(Error::MissingReceiver { method: ident });
    }
    let mut work = inputs;
    let head = work.remove(0);
    match head {
        FnArg::Receiver => (),
        FnArg::Typed(_) => {
            return Err(Error::MissingReceiver { method: ident });
        },
    }
    let mut other_inputs: Vec<SaneNonReceiverFnArg> = Vec::new();
    proof {
        assert(work@ =~= args.skip(1));
    }
    let mut k: usize = 1;
    while work.len() > 0
        invariant
            1 <= k <= args.len(),
            args.len() <= usize::MAX,
            args == input.inputs@,
            input.ident == ident,
            work@ == args.skip(k as int),
            args.len() > 0 && args[0] is Receiver,
            first_bad_arg(args, k as int) is None,
            other_inputs@.len() == k - 1,
            forall|m: int|
                0 <= m < other_inputs@.len() ==> (#[trigger] other_inputs@[m]).ty == args[m
                    + 1]->Typed_0.ty,
        decreases work.len(),
    {
        let ghost kk = k as int;
        proof {
            assert(work@.len() == args.len() - kk);
        }
        let arg = work.remove(0);
        proof {
            assert(arg == args[kk]);
        }
        match arg {
            FnArg::Receiver => {
                proof {
                    lemma_first_bad_arg_extend(args, kk, args.len() as int);
                }
                return Err(Error::ExtraReceiver { method: ident });
            },
            FnArg::Typed(pt) => {
                match sanitize_fn_arg(pt) {
                    Ok(a) => {
                        other_inputs.push(a);
                    },
                    Err(e) => {
                        proof {
                            lemma_first_bad_arg_extend(args, kk, args.len() as int);
                        }
                        return Err(e);
                    },
                }
            },
        }
        k += 1;
    }
    Ok(
        SaneMethodSignature {
            constness,
            asyncness,
            unsafety,
            ident,
            generics,
            other_inputs,
            output,
            where_clause,
        },
    )
}

/// What one forwarded method invokes: the dispatch construct applied to
/// the method's name and its non-receiver arguments.
#[derive(Debug)]
pub struct MethodForward {
    pub method: String,
    pub args: usize,
}

/// Plan the emitted body of one forwarded method: one invocation of the
/// dispatch construct, forwarding the receiver and every remaining
/// argument.
pub fn sane_method_output(method: &SaneMethodSignature) -> (r: MethodForward)
    ensures
        r.method == method.ident,
        r.args == method.other_inputs@.len(),
{
    MethodForward { method: method.ident.clone(), args: method.other_inputs.len() }
}

/// The main identifier of a type in impl position: looking through
/// groups, parentheses, references and pointers, and into the first tuple
/// element, the final segment of the path found there.
pub open spec fn spec_find_enum_ident(t: TypeExpr) -> Option<Seq<char>>
    decreases t,
{
    match t {
        TypeExpr::Group(elem) => spec_find_enum_ident(*elem),
        TypeExpr::Paren(elem) => spec_find_enum_ident(*elem),
        TypeExpr::Reference { lifetime: _, mutable: _, elem } => spec_find_enum_ident(*elem),
        TypeExpr::Pointer(elem) => spec_find_enum_ident(*elem),
        TypeExpr::Tuple(elems) => if elems@.len() > 0 {
            spec_find_enum_ident(elems@[0])
        } else {
            None
        },
        TypeExpr::Path(tp) => if tp.path.segments@.len() > 0 {
            Some(tp.path.segments@[tp.path.segments@.len() - 1].ident@)
        } else {
            None
        },
        _ => None,
    }
}

/// Find the main identifier of the implemented type.
pub fn find_enum_ident(ty: &TypeExpr) -> (r: Option<&String>)
    ensures
        match r {
            Some(id) => spec_find_enum_ident(*ty) == Some(id@),
            None => spec_find_enum_ident(*ty) is None,
        },
    decreases *ty,
{
    match ty {
        TypeExpr::Group(elem) => find_enum_ident(elem),
        TypeExpr::Paren(elem) => find_enum_ident(elem),
        TypeExpr::Reference { lifetime: _, mutable: _, elem } => find_enum_ident(elem),
        TypeExpr::Pointer(elem) => find_enum_ident(elem),
        TypeExpr::Tuple(elems) => {
            if elems.len() > 0 {
                find_enum_ident(&elems[0])
            } else {
                None
            }
        },
        TypeExpr::Path(tp) => {
            if tp.path.segments.len() > 0 {
                Some(&tp.path.segments[tp.path.segments.len() - 1].ident)
            } else {
                None
            }
        },
        _ => None,
    }
}

/// A whole impl block marked for delegation.
#[derive(Debug)]
pub struct InputImplTrait {
    pub attrs: Vec<String>,
    pub unsafety: bool,
    pub generics: Optional<InputGenerics>,
    pub negative: bool,
    pub trait_path: Path,
    pub self_ty: TypeExpr,
    pub where_clause: Optional<WhereClause>,
    pub items: Vec<InputImplItem>,
}

/// One planned item of the emitted impl block.
#[derive(Debug)]
pub enum ItemPlan {
    /// An associated type or constant, emitted as given.
    Passthrough,
    /// A method with a written body, emitted as given.
    Explicit,
    /// A bodiless method, emitted as one dispatch invocation.
    Forwarded(MethodForward),
}

/// The emitted impl block: the dispatch construct it invokes and one plan
/// per item, in order.
#[derive(Debug)]
pub struct ImplPlan {
    pub macro_ident: String,
    pub items: Vec<ItemPlan>,
}

/// Why one impl item is rejected, if it is.
pub open spec fn impl_item_error(item: InputImplItem) -> Option<Error> {
    match item {
        InputImplItem::MacroCall => Some(Error::DisallowedConstruct),
        InputImplItem::Const(c) => match c.body {
            InputImplItemConstBody::Absent => Some(
                Error::AssocConstWithoutValue { name: c.ident },
            ),
            InputImplItemConstBody::Value(_) => None,
        },
        InputImplItem::Type(t) => match t.body {
            InputImplItemAssocTypeBody::Absent => Some(
                Error::AssocTypeWithoutValue { name: t.ident },
            ),
            InputImplItemAssocTypeBody::Ty(_) => None,
        },
        InputImplItem::Fn(f) => match f.body {
            InputImplItemFnBody::Block => None,
            InputImplItemFnBody::SemiColon => if signature_rejected(f.sig) {
                Some(signature_error_of(f.sig))
            } else {
                None
            },
        },
    }
}

/// What one accepted impl item plans to.
pub open spec fn impl_item_plan(item: InputImplItem) -> ItemPlan {
    match item {
        InputImplItem::MacroCall => ItemPlan::Passthrough,
        InputImplItem::Const(_) => ItemPlan::Passthrough,
        InputImplItem::Type(_) => ItemPlan::Passthrough,
        InputImplItem::Fn(f) => match f.body {
            InputImplItemFnBody::Block => ItemPlan::Explicit,
            InputImplItemFnBody::SemiColon => ItemPlan::Forwarded(
                MethodForward {
                    method: f.sig.ident,
                    args: (f.sig.inputs@.len() - 1) as usize,
                },
            ),
        },
    }
}

/// The first rejected impl item, if any.
pub open spec fn first_bad_item(items: Seq<InputImplItem>, n: int) -> Option<int>
    decreases n,
{
    if n <= 0 || n > items.len() {
        None
    } else {
        match first_bad_item(items, n - 1) {
            Some(k) => Some(k),
            None => if impl_item_error(items[n - 1]) is Some {
                Some(n - 1)
            } else {
                None
            },
        }
    }
}

proof fn lemma_first_bad_item_extend(items: Seq<InputImplItem>, k: int, n: int)
    requires
        0 <= k < n <= items.len(),
        first_bad_item(items, k) is None,
        impl_item_error(items[k]) is Some,
    ensures
        first_bad_item(items, n) == Some(k),
    decreases n,
{
    if n == k + 1 {
    } else {
        lemma_first_bad_item_extend(items, k, n - 1);
    }
}

/// Whether a whole impl block is rejected.
pub open spec fn impl_rejected(input: InputImplTrait) -> bool {
    ||| (input.generics is _None && input.where_clause is _Some)
    ||| spec_find_enum_ident(input.self_ty) is None
    ||| first_bad_item(input.items@, input.items@.len() as int) is Some
}

/// What a rejected impl block is rejected with.
pub open spec fn impl_error_of(input: InputImplTrait) -> Error {
    if input.generics is _None && input.where_clause is _Some {
        Error::WhereClauseWithoutGenerics
    } else if spec_find_enum_ident(input.self_ty) is None {
        Error::EnumIdentNotFound
    } else {
        impl_item_error(
            input.items@[first_bad_item(input.items@, input.items@.len() as int).unwrap()],
        ).unwrap()
    }
}

/// Forward an impl block: validate the header and every item, find the
/// implemented sum type's identifier, and plan one dispatch invocation per
/// bodiless method.
pub fn run(input: InputImplTrait) -> (r: Result<ImplPlan, Error>)
    ensures
        r is Err <==> impl_rejected(input),
        match r {
            Ok(p) => {
                &&& spec_find_enum_ident(input.self_ty) is Some
                &&& p.macro_ident@ == "delegate_"@ + snake_of(
                    spec_find_enum_ident(input.self_ty).unwrap(),
                )
                &&& p.items@.len() == input.items@.len()
                &&& forall|k: int|
                    0 <= k < input.items@.len() ==> #[trigger] p.items@[k] == impl_item_plan(
                        input.items@[k],
                    )
            },
            Err(e) => e == impl_error_of(input),
        },
{
    let InputImplTrait {
        attrs: _,
        unsafety: _,
        generics,
        negative: _,
        trait_path: _,
        self_ty,
        where_clause,
        items,
    } = input;
    let _generics = match sanitize_generics(generics, where_clause) {
        Ok(g) => g,
        Err(e) => {
            return Err(e);
        },
    };
    let enum_ident = match find_enum_ident(&self_ty) {
        Some(id) => id,
        None => {
            return Err(Error::EnumIdentNotFound);
        },
    };
    let macro_ident = delegate_macro_ident(enum_ident);
    let ghost its = input.items@;
    let n0 = items.len();
    proof {
        assert(its.len() == n0);
    }
    let mut work = items;
    let mut plans: Vec<ItemPlan> = Vec::new();
    proof {
        assert(work@ =~= its.skip(0));
    }
    while work.len() > 0
        invariant
            plans@.len() <= its.len(),
            its.len() <= usize::MAX,
            its == input.items@,
            work@ == its.skip(plans@.len() as int),
            first_bad_item(its, plans@.len() as int) is None,
            !(input.generics is _None && input.where_clause is _Some),
            spec_find_enum_ident(input.self_ty) is Some,
            macro_ident@ == "delegate_"@ + snake_of(spec_find_enum_ident(input.self_ty).unwrap()),
            forall|m: int|
                0 <= m < plans@.len() ==> #[trigger] plans@[m] == impl_item_plan(its[m]),
        decreases work.len(),
    {
        let ghost k = plans@.len() as int;
        proof {
            assert(work@.len() == its.len() - k);
        }
        let item = work.remove(0);
        proof {
            assert(item == its[k]);
        }
        match item {
            InputImplItem::MacroCall => {
                proof {
                    lemma_first_bad_item_extend(its, k, its.len() as int);
                }
                return Err(Error::DisallowedConstruct);
            },
            InputImplItem::Const(c) => {
                match c.body {
                    InputImplItemConstBody::Absent => {
                        proof {
                            lemma_first_bad_item_extend(its, k, its.len() as int);
                        }
                        return Err(Error::AssocConstWithoutValue { name: c.ident });
                    },
                    InputImplItemConstBody::Value(_) => {
                        plans.push(ItemPlan::Passthrough);
                    },
                }
            },
            InputImplItem::Type(t) => {
                match t.body {
                    InputImplItemAssocTypeBody::Absent => {
                        proof {
                            lemma_first_bad_item_extend(its, k, its.len() as int);
                        }
                        return Err(Error::AssocTypeWithoutValue { name: t.ident });
                    },
                    InputImplItemAssocTypeBody::Ty(_) => {
                        plans.push(ItemPlan::Passthrough);
                    },
                }
            },
            InputImplItem::Fn(f) => {
                match f.body {
                    InputImplItemFnBody::Block => {
                        plans.push(ItemPlan::Explicit);
                    },
                    InputImplItemFnBody::SemiColon => {
                        let sig = match sanitize_method_signature(f.sig) {
                            Ok(s) => s,
                            Err(e) => {
                                proof {
                                    lemma_first_bad_item_extend(its, k, its.len() as int);
                                }
                                return Err(e);
                            },
                        };
                        let fwd = sane_method_output(&sig);
                        plans.push(ItemPlan::Forwarded(fwd));
                        proof {
                            assert(fwd.method@ == its[k]->Fn_0.sig.ident@);
                            assert(plans@[k] == impl_item_plan(its[k]));
                        }
                    },
                }
            },
        }
        proof {
            assert(work@ =~= its.skip(plans@.len() as int));
        }
    }
    Ok(ImplPlan { macro_ident, items: plans })
}

} // verus!
