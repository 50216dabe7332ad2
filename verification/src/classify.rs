//! The structural identifier classifier.
//!
//! `IdentMap::new` walks a piece of the grammar and sorts every name it
//! meets into the five buckets of `IdentSets`, applying one rule per node
//! kind:
//!
//! - the final segment of a path in type position is a type;
//! - the final segment of a path used as a bound, and the trait segment of a
//!   qualified path, are traits;
//! - a lifetime-sigil name is a lifetime;
//! - a name declared or used as a const-generic parameter or argument is a
//!   constant;
//! - the head of any other path, whose role cannot be told from the local
//!   structure alone, is provisionally ambiguous.
//!
//! The `*_idents` spec functions below state the classification of every
//! node kind; the executable walkers are proved to compute exactly those
//! sets, and `IdentMap::new` finishes with the reconciliation pass that
//! drains settled names from the ambiguous bucket.

use vstd::prelude::*;

use crate::ast::{
    Bound,
    Expr,
    ExprClosure,
    ExprPath,
    ExprStruct,
    GenericArg,
    InputGenericParam,
    InputGenericParamConst,
    InputGenericParamLifetime,
    InputGenericParamType,
    InputGenerics,
    Pat,
    Path,
    PathArguments,
    PathSegment,
    QualifiedSelf,
    ReturnType,
    TraitBound,
    TypeExpr,
    TypePath,
    WhereClause,
    WherePredicate,
};
use crate::names::{IdentMap, IdentSets};

verus! {

/// The final segment of a path in type position, as a type bucket entry.
pub open spec fn path_last_ty(p: Path) -> IdentSets {
    if p.segments.len() > 0 {
        IdentSets::ty(p.segments[p.segments.len() - 1].ident@)
    } else {
        IdentSets::empty()
    }
}

/// The final segment of a path used as a trait, as a trait bucket entry.
pub open spec fn path_last_trait(p: Path) -> IdentSets {
    if p.segments.len() > 0 {
        IdentSets::trait_name(p.segments[p.segments.len() - 1].ident@)
    } else {
        IdentSets::empty()
    }
}

/// The trait segment of a qualified path: for `<T as Trait>::Item` the
/// segment just before the qualified-self position is a trait.
pub open spec fn qself_trait_rule(q: Option<QualifiedSelf>, p: Path) -> IdentSets {
    match q {
        Some(qq) => if qq.as_trait && 1 <= qq.position <= p.segments.len() {
            IdentSets::trait_name(p.segments[qq.position - 1].ident@)
        } else {
            IdentSets::empty()
        },
        None => IdentSets::empty(),
    }
}

/// Every name in a list of plain lifetime bounds, as lifetimes.
pub open spec fn lifetime_names_idents(s: Seq<String>, n: int) -> IdentSets
    decreases n,
{
    if n <= 0 || n > s.len() {
        IdentSets::empty()
    } else {
        lifetime_names_idents(s, n - 1).merge(IdentSets::lifetime(s[n - 1]@))
    }
}

/// `'a: 'b + 'c` declares the lifetime and mentions its bounds.
pub open spec fn lifetime_def_idents(l: InputGenericParamLifetime) -> IdentSets {
    IdentSets::lifetime(l.lifetime@).merge(
        lifetime_names_idents(l.bounds@, l.bounds@.len() as int),
    )
}

pub open spec fn lifetime_def_list_idents(s: Seq<InputGenericParamLifetime>, n: int) -> IdentSets
    decreases n,
{
    if n <= 0 || n > s.len() {
        IdentSets::empty()
    } else {
        lifetime_def_list_idents(s, n - 1).merge(lifetime_def_idents(s[n - 1]))
    }
}

pub open spec fn type_idents(t: TypeExpr) -> IdentSets
    decreases t,
{
    match t {
        TypeExpr::Path(tp) => qself_opt_idents(tp.qself).merge(path_idents(tp.path)).merge(
            qself_trait_rule(tp.qself, tp.path),
        ).merge(path_last_ty(tp.path)),
        TypeExpr::Reference { lifetime, mutable: _, elem } => (match lifetime {
            Some(l) => IdentSets::lifetime(l@),
            None => IdentSets::empty(),
        }).merge(type_idents(*elem)),
        TypeExpr::Pointer(elem) => type_idents(*elem),
        TypeExpr::Tuple(elems) => type_list_idents(elems@, elems@.len() as int),
        TypeExpr::Array { elem, len } => type_idents(*elem).merge(expr_idents(len)),
        TypeExpr::Slice(elem) => type_idents(*elem),
        TypeExpr::BareFn { binder, inputs, output } => lifetime_def_list_idents(
            binder@,
            binder@.len() as int,
        ).merge(type_list_idents(inputs@, inputs@.len() as int)).merge(
            return_type_idents(output),
        ),
        TypeExpr::ImplTrait(bounds) => bound_list_idents(bounds@, bounds@.len() as int),
        TypeExpr::TraitObject(bounds) => bound_list_idents(bounds@, bounds@.len() as int),
        TypeExpr::Group(elem) => type_idents(*elem),
        TypeExpr::Paren(elem) => type_idents(*elem),
        TypeExpr::Infer => IdentSets::empty(),
        TypeExpr::Never => IdentSets::empty(),
        TypeExpr::MacroCall => IdentSets::empty(),
    }
}

pub open spec fn type_list_idents(s: Seq<TypeExpr>, n: int) -> IdentSets
    decreases s, n,
{
    if n <= 0 || n > s.len() {
        IdentSets::empty()
    } else {
        type_list_idents(s, n - 1).merge(type_idents(s[n - 1]))
    }
}

/// A path inserts its final segment as an ambiguous head and walks the
/// arguments of every segment.
pub open spec fn path_idents(p: Path) -> IdentSets
    decreases p,
{
    segment_list_idents(p.segments@, p.segments@.len() as int).merge(
        if p.segments.len() > 0 {
            IdentSets::ambiguous_path(p.segments[p.segments.len() - 1].ident@)
        } else {
            IdentSets::empty()
        },
    )
}

pub open spec fn segment_idents(seg: PathSegment) -> IdentSets
    decreases seg,
{
    match seg.arguments {
        PathArguments::Bare => IdentSets::empty(),
        PathArguments::AngleBracketed(args) => generic_arg_list_idents(args@, args@.len() as int),
        PathArguments::Parenthesized { inputs, output } => type_list_idents(
            inputs@,
            inputs@.len() as int,
        ).merge(return_type_idents(output)),
    }
}

pub open spec fn segment_list_idents(s: Seq<PathSegment>, n: int) -> IdentSets
    decreases s, n,
{
    if n <= 0 || n > s.len() {
        IdentSets::empty()
    } else {
        segment_list_idents(s, n - 1).merge(segment_idents(s[n - 1]))
    }
}

pub open spec fn generic_arg_idents(a: GenericArg) -> IdentSets
    decreases a,
{
    match a {
        GenericArg::Lifetime(l) => IdentSets::lifetime(l@),
        GenericArg::Ty(t) => type_idents(t),
        GenericArg::Const(e) => expr_idents(e),
        GenericArg::AssocType { ident: _, generics, ty } => generic_arg_list_idents(
            generics@,
            generics@.len() as int,
        ).merge(type_idents(ty)),
        GenericArg::AssocConst { ident, generics, value } => IdentSets::constant(ident@).merge(
            generic_arg_list_idents(generics@, generics@.len() as int),
        ).merge(expr_idents(value)),
        GenericArg::Constraint { ident, generics, bounds } => IdentSets::trait_name(ident@).merge(
            generic_arg_list_idents(generics@, generics@.len() as int),
        ).merge(bound_list_idents(bounds@, bounds@.len() as int)),
    }
}

pub open spec fn generic_arg_list_idents(s: Seq<GenericArg>, n: int) -> IdentSets
    decreases s, n,
{
    if n <= 0 || n > s.len() {
        IdentSets::empty()
    } else {
        generic_arg_list_idents(s, n - 1).merge(generic_arg_idents(s[n - 1]))
    }
}

pub open spec fn bound_idents(b: Bound) -> IdentSets
    decreases b,
{
    match b {
        Bound::Trait(tb) => lifetime_def_list_idents(tb.binder@, tb.binder@.len() as int).merge(
            path_idents(tb.path),
        ).merge(path_last_trait(tb.path)),
        Bound::Lifetime(l) => IdentSets::lifetime(l@),
    }
}

pub open spec fn bound_list_idents(s: Seq<Bound>, n: int) -> IdentSets
    decreases s, n,
{
    if n <= 0 || n > s.len() {
        IdentSets::empty()
    } else {
        bound_list_idents(s, n - 1).merge(bound_idents(s[n - 1]))
    }
}

pub open spec fn return_type_idents(r: ReturnType) -> IdentSets
    decreases r,
{
    match r {
        ReturnType::Unspecified => IdentSets::empty(),
        ReturnType::Ty(t) => type_idents(*t),
    }
}

pub open spec fn qself_opt_idents(q: Option<QualifiedSelf>) -> IdentSets
    decreases q,
{
    match q {
        Some(qq) => type_idents(*qq.ty),
        None => IdentSets::empty(),
    }
}

pub open spec fn expr_idents(e: Expr) -> IdentSets
    decreases e,
{
    match e {
        Expr::Path(ep) => qself_opt_idents(ep.qself).merge(path_idents(ep.path)).merge(
            qself_trait_rule(ep.qself, ep.path),
        ),
        Expr::Lit => IdentSets::empty(),
        Expr::Unary(inner) => expr_idents(*inner),
        Expr::Binary(a, b) => expr_idents(*a).merge(expr_idents(*b)),
        Expr::Paren(inner) => expr_idents(*inner),
        Expr::Reference(inner) => expr_idents(*inner),
        Expr::Cast(inner, t) => expr_idents(*inner).merge(type_idents(*t)),
        Expr::Call { func, args } => expr_idents(*func).merge(
            expr_list_idents(args@, args@.len() as int),
        ),
        Expr::MethodCall { receiver, turbofish, args } => expr_idents(*receiver).merge(
            generic_arg_list_idents(turbofish@, turbofish@.len() as int),
        ).merge(expr_list_idents(args@, args@.len() as int)),
        Expr::Field(base) => expr_idents(*base),
        Expr::Index { base, index } => expr_idents(*base).merge(expr_idents(*index)),
        Expr::Tuple(elems) => expr_list_idents(elems@, elems@.len() as int),
        Expr::Array(elems) => expr_list_idents(elems@, elems@.len() as int),
        Expr::Repeat { elem, len } => expr_idents(*elem).merge(expr_idents(*len)),
        Expr::Struct(es) => qself_opt_idents(es.qself).merge(path_idents(es.path)).merge(
            match es.rest {
                Some(r) => expr_idents(*r),
                None => IdentSets::empty(),
            },
        ).merge(expr_list_idents(es.fields@, es.fields@.len() as int)).merge(
            qself_trait_rule(es.qself, es.path),
        ).merge(path_last_ty(es.path)),
        Expr::Closure(c) => lifetime_def_list_idents(c.binder@, c.binder@.len() as int).merge(
            return_type_idents(c.output),
        ).merge(expr_idents(*c.body)).merge(pat_list_idents(c.inputs@, c.inputs@.len() as int)),
    }
}

pub open spec fn expr_list_idents(s: Seq<Expr>, n: int) -> IdentSets
    decreases s, n,
{
    if n <= 0 || n > s.len() {
        IdentSets::empty()
    } else {
        expr_list_idents(s, n - 1).merge(expr_idents(s[n - 1]))
    }
}

pub open spec fn pat_idents(p: Pat) -> IdentSets
    decreases p,
{
    match p {
        Pat::Binding { subpat } => match subpat {
            Some(sp) => pat_idents(*sp),
            None => IdentSets::empty(),
        },
        Pat::Wild => IdentSets::empty(),
        Pat::Typed { pat, ty } => pat_idents(*pat).merge(type_idents(*ty)),
        Pat::Tuple(elems) => pat_list_idents(elems@, elems@.len() as int),
        Pat::Reference(inner) => pat_idents(*inner),
        Pat::Paren(inner) => pat_idents(*inner),
        Pat::Rest => IdentSets::empty(),
    }
}

pub open spec fn pat_list_idents(s: Seq<Pat>, n: int) -> IdentSets
    decreases s, n,
{
    if n <= 0 || n > s.len() {
        IdentSets::empty()
    } else {
        pat_list_idents(s, n - 1).merge(pat_idents(s[n - 1]))
    }
}

/// `T: Bound = Default` declares the type parameter and mentions its bounds
/// and default.
pub open spec fn type_param_idents(p: InputGenericParamType) -> IdentSets {
    IdentSets::ty(p.ident@).merge(bound_list_idents(p.bounds@, p.bounds@.len() as int)).merge(
        match p.default {
            Some(d) => type_idents(d),
            None => IdentSets::empty(),
        },
    )
}

/// `const N: usize` declares the constant and mentions its type; a default
/// value plays no role in the walk.
pub open spec fn const_param_idents(p: InputGenericParamConst) -> IdentSets {
    IdentSets::constant(p.ident@).merge(type_idents(p.ty))
}

pub open spec fn generic_param_idents(p: InputGenericParam) -> IdentSets {
    match p {
        InputGenericParam::Lifetime(l) => lifetime_def_idents(l),
        InputGenericParam::Type(t) => type_param_idents(t),
        InputGenericParam::Const(c) => const_param_idents(c),
    }
}

pub open spec fn generic_param_list_idents(s: Seq<InputGenericParam>, n: int) -> IdentSets
    decreases n,
{
    if n <= 0 || n > s.len() {
        IdentSets::empty()
    } else {
        generic_param_list_idents(s, n - 1).merge(generic_param_idents(s[n - 1]))
    }
}

pub open spec fn input_generics_idents(g: InputGenerics) -> IdentSets {
    generic_param_list_idents(g.params@, g.params@.len() as int)
}

pub open spec fn predicate_idents(w: WherePredicate) -> IdentSets {
    match w {
        WherePredicate::Lifetime(pl) => IdentSets::lifetime(pl.lifetime@).merge(
            lifetime_names_idents(pl.bounds@, pl.bounds@.len() as int),
        ),
        WherePredicate::Type(pt) => lifetime_def_list_idents(
            pt.binder@,
            pt.binder@.len() as int,
        ).merge(type_idents(pt.bounded_ty)).merge(
            bound_list_idents(pt.bounds@, pt.bounds@.len() as int),
        ),
    }
}

pub open spec fn predicate_list_idents(s: Seq<WherePredicate>, n: int) -> IdentSets
    decreases n,
{
    if n <= 0 || n > s.len() {
        IdentSets::empty()
    } else {
        predicate_list_idents(s, n - 1).merge(predicate_idents(s[n - 1]))
    }
}

pub open spec fn where_clause_idents(w: WhereClause) -> IdentSets {
    predicate_list_idents(w.predicates@, w.predicates@.len() as int)
}

fn collect_lifetime_names(v: &Vec<String>, map: &mut IdentMap)
    ensures
        final(map)@ == old(map)@.merge(lifetime_names_idents(v@, v@.len() as int)),
{
    let ghost m0 = map@;
    proof {
        crate::names::lemma_merge_empty(m0);
    }
    let mut i: usize = 0;
    while i < v.len()
        invariant
            0 <= i <= v.len(),
            map@ == m0.merge(lifetime_names_idents(v@, i as int)),
        decreases v.len() - i,
    {
        map.insert_lifetime(&v[i]);
        proof {
            assert(map@ =~~= m0.merge(lifetime_names_idents(v@, i as int + 1)));
        }
        i += 1;
    }
}

fn collect_lifetime_def(l: &InputGenericParamLifetime, map: &mut IdentMap)
    ensures
        final(map)@ == old(map)@.merge(lifetime_def_idents(*l)),
{
    map.insert_lifetime(&l.lifetime);
    collect_lifetime_names(&l.bounds, map);
    proof {
        assert(map@ =~~= old(map)@.merge(lifetime_def_idents(*l)));
    }
}

fn collect_lifetime_def_list(v: &Vec<InputGenericParamLifetime>, map: &mut IdentMap)
    ensures
        final(map)@ == old(map)@.merge(lifetime_def_list_idents(v@, v@.len() as int)),
{
    let ghost m0 = map@;
    proof {
        crate::names::lemma_merge_empty(m0);
    }
    let mut i: usize = 0;
    while i < v.len()
        invariant
            0 <= i <= v.len(),
            map@ == m0.merge(lifetime_def_list_idents(v@, i as int)),
        decreases v.len() - i,
    {
        collect_lifetime_def(&v[i], map);
        proof {
            assert(map@ =~~= m0.merge(lifetime_def_list_idents(v@, i as int + 1)));
        }
        i += 1;
    }
}

/// For `<T as Trait>::...` insert the trait segment of the path.
fn apply_qself_trait_rule(q: &Option<QualifiedSelf>, p: &Path, map: &mut IdentMap)
    ensures
        final(map)@ == old(map)@.merge(qself_trait_rule(*q, *p)),
{
    match q {
        Some(qq) => {
            if qq.as_trait && 1 <= qq.position && qq.position <= p.segments.len() {
                map.insert_trait(&p.segments[qq.position - 1].ident);
            } else {
                proof {
                    crate::names::lemma_merge_empty(map@);
                }
            }
        },
        None => {
            proof {
                crate::names::lemma_merge_empty(map@);
            }
        },
    }
}

pub fn collect_type(t: &TypeExpr, map: &mut IdentMap)
    ensures
        final(map)@ == old(map)@.merge(type_idents(*t)),
    decreases *t,
{
    match t {
        TypeExpr::Path(tp) => {
            collect_opt_qself(&tp.qself, map);
            collect_path(&tp.path, map);
            apply_qself_trait_rule(&tp.qself, &tp.path, map);
            if tp.path.segments.len() > 0 {
                map.insert_ty(&tp.path.segments[tp.path.segments.len() - 1].ident);
            }
            proof {
                assert(map@ =~~= old(map)@.merge(type_idents(*t)));
            }
        },
        TypeExpr::Reference { lifetime, mutable: _, elem } => {
            match lifetime {
                Some(l) => map.insert_lifetime(l),
                None => (),
            }
            collect_type(elem, map);
            proof {
                assert(map@ =~~= old(map)@.merge(type_idents(*t)));
            }
        },
        TypeExpr::Pointer(elem) => {
            collect_type(elem, map);
        },
        TypeExpr::Tuple(elems) => {
            collect_type_list(elems, map);
        },
        TypeExpr::Array { elem, len } => {
            collect_type(elem, map);
            collect_expr(len, map);
            proof {
                assert(map@ =~~= old(map)@.merge(type_idents(*t)));
            }
        },
        TypeExpr::Slice(elem) => {
            collect_type(elem, map);
        },
        TypeExpr::BareFn { binder, inputs, output } => {
            collect_lifetime_def_list(binder, map);
            collect_type_list(inputs, map);
            collect_return_type(output, map);
            proof {
                assert(map@ =~~= old(map)@.merge(type_idents(*t)));
            }
        },
        TypeExpr::ImplTrait(bounds) => {
            collect_bound_list(bounds, map);
        },
        TypeExpr::TraitObject(bounds) => {
            collect_bound_list(bounds, map);
        },
        TypeExpr::Group(elem) => {
            collect_type(elem, map);
        },
        TypeExpr::Paren(elem) => {
            collect_type(elem, map);
        },
        TypeExpr::Infer => {
            proof {
                crate::names::lemma_merge_empty(map@);
            }
        },
        TypeExpr::Never => {
            proof {
                crate::names::lemma_merge_empty(map@);
            }
        },
        TypeExpr::MacroCall => {
            proof {
                crate::names::lemma_merge_empty(map@);
            }
        },
    }
}

pub fn collect_type_list(v: &Vec<TypeExpr>, map: &mut IdentMap)
    ensures
        final(map)@ == old(map)@.merge(type_list_idents(v@, v@.len() as int)),
    decreases v@,
{
    let ghost m0 = map@;
    proof {
        crate::names::lemma_merge_empty(m0);
    }
    let mut i: usize = 0;
    while i < v.len()
        invariant
            0 <= i <= v.len(),
            map@ == m0.merge(type_list_idents(v@, i as int)),
        decreases v.len() - i,
    {
        collect_type(&v[i], map);
        proof {
            assert(map@ =~~= m0.merge(type_list_idents(v@, i as int + 1)));
        }
        i += 1;
    }
}

pub fn collect_path(p: &Path, map: &mut IdentMap)
    ensures
        final(map)@ == old(map)@.merge(path_idents(*p)),
    decreases *p,
{
    collect_segment_list(&p.segments, map);
    if p.segments.len() > 0 {
        map.insert_ambiguous(&p.segments[p.segments.len() - 1].ident);
    }
    proof {
        assert(map@ =~~= old(map)@.merge(path_idents(*p)));
    }
}

fn collect_segment(seg: &PathSegment, map: &mut IdentMap)
    ensures
        final(map)@ == old(map)@.merge(segment_idents(*seg)),
    decreases *seg,
{
    match &seg.arguments {
        PathArguments::Bare => {
            proof {
                crate::names::lemma_merge_empty(map@);
            }
        },
        PathArguments::AngleBracketed(args) => {
            collect_generic_arg_list(args, map);
        },
        PathArguments::Parenthesized { inputs, output } => {
            collect_type_list(inputs, map);
            collect_return_type(output, map);
            proof {
                assert(map@ =~~= old(map)@.merge(segment_idents(*seg)));
            }
        },
    }
}

fn collect_segment_list(v: &Vec<PathSegment>, map: &mut IdentMap)
    ensures
        final(map)@ == old(map)@.merge(segment_list_idents(v@, v@.len() as int)),
    decreases v@,
{
    let ghost m0 = map@;
    proof {
        crate::names::lemma_merge_empty(m0);
    }
    let mut i: usize = 0;
    while i < v.len()
        invariant
            0 <= i <= v.len(),
            map@ == m0.merge(segment_list_idents(v@, i as int)),
        decreases v.len() - i,
    {
        collect_segment(&v[i], map);
        proof {
            assert(map@ =~~= m0.merge(segment_list_idents(v@, i as int + 1)));
        }
        i += 1;
    }
}

fn collect_generic_arg(a: &GenericArg, map: &mut IdentMap)
    ensures
        final(map)@ == old(map)@.merge(generic_arg_idents(*a)),
    decreases *a,
{
    match a {
        GenericArg::Lifetime(l) => {
            map.insert_lifetime(l);
        },
        GenericArg::Ty(t) => {
            collect_type(t, map);
        },
        GenericArg::Const(e) => {
            collect_expr(e, map);
        },
        GenericArg::AssocType { ident: _, generics, ty } => {
            collect_generic_arg_list(generics, map);
            collect_type(ty, map);
            proof {
                assert(map@ =~~= old(map)@.merge(generic_arg_idents(*a)));
            }
        },
        GenericArg::AssocConst { ident, generics, value } => {
            map.insert_constant(ident);
            collect_generic_arg_list(generics, map);
            collect_expr(value, map);
            proof {
                assert(map@ =~~= old(map)@.merge(generic_arg_idents(*a)));
            }
        },
        GenericArg::Constraint { ident, generics, bounds } => {
            map.insert_trait(ident);
            collect_generic_arg_list(generics, map);
            collect_bound_list(bounds, map);
            proof {
                assert(map@ =~~= old(map)@.merge(generic_arg_idents(*a)));
            }
        },
    }
}

fn collect_generic_arg_list(v: &Vec<GenericArg>, map: &mut IdentMap)
    ensures
        final(map)@ == old(map)@.merge(generic_arg_list_idents(v@, v@.len() as int)),
    decreases v@,
{
    let ghost m0 = map@;
    proof {
        crate::names::lemma_merge_empty(m0);
    }
    let mut i: usize = 0;
    while i < v.len()
        invariant
            0 <= i <= v.len(),
            map@ == m0.merge(generic_arg_list_idents(v@, i as int)),
        decreases v.len() - i,
    {
        collect_generic_arg(&v[i], map);
        proof {
            assert(map@ =~~= m0.merge(generic_arg_list_idents(v@, i as int + 1)));
        }
        i += 1;
    }
}

pub fn collect_bound(b: &Bound, map: &mut IdentMap)
    ensures
        final(map)@ == old(map)@.merge(bound_idents(*b)),
    decreases *b,
{
    match b {
        Bound::Trait(tb) => {
            collect_lifetime_def_list(&tb.binder, map);
            collect_path(&tb.path, map);
            if tb.path.segments.len() > 0 {
                map.insert_trait(&tb.path.segments[tb.path.segments.len() - 1].ident);
            }
            proof {
                assert(map@ =~~= old(map)@.merge(bound_idents(*b)));
            }
        },
        Bound::Lifetime(l) => {
            map.insert_lifetime(l);
        },
    }
}

pub fn collect_bound_list(v: &Vec<Bound>, map: &mut IdentMap)
    ensures
        final(map)@ == old(map)@.merge(bound_list_idents(v@, v@.len() as int)),
    decreases v@,
{
    let ghost m0 = map@;
    proof {
        crate::names::lemma_merge_empty(m0);
    }
    let mut i: usize = 0;
    while i < v.len()
        invariant
            0 <= i <= v.len(),
            map@ == m0.merge(bound_list_idents(v@, i as int)),
        decreases v.len() - i,
    {
        collect_bound(&v[i], map);
        proof {
            assert(map@ =~~= m0.merge(bound_list_idents(v@, i as int + 1)));
        }
        i += 1;
    }
}

fn collect_return_type(r: &ReturnType, map: &mut IdentMap)
    ensures
        final(map)@ == old(map)@.merge(return_type_idents(*r)),
    decreases *r,
{
    match r {
        ReturnType::Unspecified => {
            proof {
                crate::names::lemma_merge_empty(map@);
            }
        },
        ReturnType::Ty(t) => {
            collect_type(t, map);
        },
    }
}

fn collect_opt_qself(q: &Option<QualifiedSelf>, map: &mut IdentMap)
    ensures
        final(map)@ == old(map)@.merge(qself_opt_idents(*q)),
    decreases *q,
{
    match q {
        Some(qq) => {
            collect_type(&qq.ty, map);
        },
        None => {
            proof {
                crate::names::lemma_merge_empty(map@);
            }
        },
    }
}

pub fn collect_expr(e: &Expr, map: &mut IdentMap)
    ensures
        final(map)@ == old(map)@.merge(expr_idents(*e)),
    decreases *e,
{
    match e {
        Expr::Path(ep) => {
            collect_opt_qself(&ep.qself, map);
            collect_path(&ep.path, map);
            apply_qself_trait_rule(&ep.qself, &ep.path, map);
            proof {
                assert(map@ =~~= old(map)@.merge(expr_idents(*e)));
            }
        },
        Expr::Lit => {
            proof {
                crate::names::lemma_merge_empty(map@);
            }
        },
        Expr::Unary(inner) => {
            collect_expr(inner, map);
        },
        Expr::Binary(a, b) => {
            collect_expr(a, map);
            collect_expr(b, map);
            proof {
                assert(map@ =~~= old(map)@.merge(expr_idents(*e)));
            }
        },
        Expr::Paren(inner) => {
            collect_expr(inner, map);
        },
        Expr::Reference(inner) => {
            collect_expr(inner, map);
        },
        Expr::Cast(inner, t) => {
            collect_expr(inner, map);
            collect_type(t, map);
            proof {
                assert(map@ =~~= old(map)@.merge(expr_idents(*e)));
            }
        },
        Expr::Call { func, args } => {
            collect_expr(func, map);
            collect_expr_list(args, map);
            proof {
                assert(map@ =~~= old(map)@.merge(expr_idents(*e)));
            }
        },
        Expr::MethodCall { receiver, turbofish, args } => {
            collect_expr(receiver, map);
            collect_generic_arg_list(turbofish, map);
            collect_expr_list(args, map);
            proof {
                assert(map@ =~~= old(map)@.merge(expr_idents(*e)));
            }
        },
        Expr::Field(base) => {
            collect_expr(base, map);
        },
        Expr::Index { base, index } => {
            collect_expr(base, map);
            collect_expr(index, map);
            proof {
                assert(map@ =~~= old(map)@.merge(expr_idents(*e)));
            }
        },
        Expr::Tuple(elems) => {
            collect_expr_list(elems, map);
        },
        Expr::Array(elems) => {
            collect_expr_list(elems, map);
        },
        Expr::Repeat { elem, len } => {
            collect_expr(elem, map);
            collect_expr(len, map);
            proof {
                assert(map@ =~~= old(map)@.merge(expr_idents(*e)));
            }
        },
        Expr::Struct(es) => {
            collect_opt_qself(&es.qself, map);
            collect_path(&es.path, map);
            match &es.rest {
                Some(r) => collect_expr(r, map),
                None => (),
            }
            collect_expr_list(&es.fields, map);
            apply_qself_trait_rule(&es.qself, &es.path, map);
            if es.path.segments.len() > 0 {
                map.insert_ty(&es.path.segments[es.path.segments.len() - 1].ident);
            }
            proof {
                assert(map@ =~~= old(map)@.merge(expr_idents(*e)));
            }
        },
        Expr::Closure(c) => {
            collect_lifetime_def_list(&c.binder, map);
            collect_return_type(&c.output, map);
            collect_expr(&c.body, map);
            collect_pat_list(&c.inputs, map);
            proof {
                assert(map@ =~~= old(map)@.merge(expr_idents(*e)));
            }
        },
    }
}

pub fn collect_expr_list(v: &Vec<Expr>, map: &mut IdentMap)
    ensures
        final(map)@ == old(map)@.merge(expr_list_idents(v@, v@.len() as int)),
    decreases v@,
{
    let ghost m0 = map@;
    proof {
        crate::names::lemma_merge_empty(m0);
    }
    let mut i: usize = 0;
    while i < v.len()
        invariant
            0 <= i <= v.len(),
            map@ == m0.merge(expr_list_idents(v@, i as int)),
        decreases v.len() - i,
    {
        collect_expr(&v[i], map);
        proof {
            assert(map@ =~~= m0.merge(expr_list_idents(v@, i as int + 1)));
        }
        i += 1;
    }
}

pub fn collect_pat(p: &Pat, map: &mut IdentMap)
    ensures
        final(map)@ == old(map)@.merge(pat_idents(*p)),
    decreases *p,
{
    match p {
        Pat::Binding { subpat } => {
            match subpat {
                Some(sp) => collect_pat(sp, map),
                None => {
                    proof {
                        crate::names::lemma_merge_empty(map@);
                    }
                },
            }
        },
        Pat::Wild => {
            proof {
                crate::names::lemma_merge_empty(map@);
            }
        },
        Pat::Typed { pat, ty } => {
            collect_pat(pat, map);
            collect_type(ty, map);
            proof {
                assert(map@ =~~= old(map)@.merge(pat_idents(*p)));
            }
        },
        Pat::Tuple(elems) => {
            collect_pat_list(elems, map);
        },
        Pat::Reference(inner) => {
            collect_pat(inner, map);
        },
        Pat::Paren(inner) => {
            collect_pat(inner, map);
        },
        Pat::Rest => {
            proof {
                crate::names::lemma_merge_empty(map@);
            }
        },
    }
}

pub fn collect_pat_list(v: &Vec<Pat>, map: &mut IdentMap)
    ensures
        final(map)@ == old(map)@.merge(pat_list_idents(v@, v@.len() as int)),
    decreases v@,
{
    let ghost m0 = map@;
    proof {
        crate::names::lemma_merge_empty(m0);
    }
    let mut i: usize = 0;
    while i < v.len()
        invariant
            0 <= i <= v.len(),
            map@ == m0.merge(pat_list_idents(v@, i as int)),
        decreases v.len() - i,
    {
        collect_pat(&v[i], map);
        proof {
            assert(map@ =~~= m0.merge(pat_list_idents(v@, i as int + 1)));
        }
        i += 1;
    }
}

fn collect_type_param(p: &InputGenericParamType, map: &mut IdentMap)
    ensures
        final(map)@ == old(map)@.merge(type_param_idents(*p)),
{
    map.insert_ty(&p.ident);
    collect_bound_list(&p.bounds, map);
    match &p.default {
        Some(d) => collect_type(d, map),
        None => (),
    }
    proof {
        assert(map@ =~~= old(map)@.merge(type_param_idents(*p)));
    }
}

fn collect_const_param(p: &InputGenericParamConst, map: &mut IdentMap)
    ensures
        final(map)@ == old(map)@.merge(const_param_idents(*p)),
{
    map.insert_constant(&p.ident);
    collect_type(&p.ty, map);
    proof {
        assert(map@ =~~= old(map)@.merge(const_param_idents(*p)));
    }
}

fn collect_generic_param(p: &InputGenericParam, map: &mut IdentMap)
    ensures
        final(map)@ == old(map)@.merge(generic_param_idents(*p)),
{
    match p {
        InputGenericParam::Lifetime(l) => collect_lifetime_def(l, map),
        InputGenericParam::Type(t) => collect_type_param(t, map),
        InputGenericParam::Const(c) => collect_const_param(c, map),
    }
}

fn collect_generic_param_list(v: &Vec<InputGenericParam>, map: &mut IdentMap)
    ensures
        final(map)@ == old(map)@.merge(generic_param_list_idents(v@, v@.len() as int)),
{
    let ghost m0 = map@;
    proof {
        crate::names::lemma_merge_empty(m0);
    }
    let mut i: usize = 0;
    while i < v.len()
        invariant
            0 <= i <= v.len(),
            map@ == m0.merge(generic_param_list_idents(v@, i as int)),
        decreases v.len() - i,
    {
        collect_generic_param(&v[i], map);
        proof {
            assert(map@ =~~= m0.merge(generic_param_list_idents(v@, i as int + 1)));
        }
        i += 1;
    }
}

fn collect_predicate(w: &WherePredicate, map: &mut IdentMap)
    ensures
        final(map)@ == old(map)@.merge(predicate_idents(*w)),
{
    match w {
        WherePredicate::Lifetime(pl) => {
            map.insert_lifetime(&pl.lifetime);
            collect_lifetime_names(&pl.bounds, map);
            proof {
                assert(map@ =~~= old(map)@.merge(predicate_idents(*w)));
            }
        },
        WherePredicate::Type(pt) => {
            collect_lifetime_def_list(&pt.binder, map);
            collect_type(&pt.bounded_ty, map);
            collect_bound_list(&pt.bounds, map);
            proof {
                assert(map@ =~~= old(map)@.merge(predicate_idents(*w)));
            }
        },
    }
}

fn collect_predicate_list(v: &Vec<WherePredicate>, map: &mut IdentMap)
    ensures
        final(map)@ == old(map)@.merge(predicate_list_idents(v@, v@.len() as int)),
{
    let ghost m0 = map@;
    proof {
        crate::names::lemma_merge_empty(m0);
    }
    let mut i: usize = 0;
    while i < v.len()
        invariant
            0 <= i <= v.len(),
            map@ == m0.merge(predicate_list_idents(v@, i as int)),
        decreases v.len() - i,
    {
        collect_predicate(&v[i], map);
        proof {
            assert(map@ =~~= m0.merge(predicate_list_idents(v@, i as int + 1)));
        }
        i += 1;
    }
}

/// Anything whose names can be classified, together with the spec-level
/// statement of its classification.
pub trait CollectIdents {
    spec fn idents(&self) -> IdentSets;

    fn collect_idents(&self, map: &mut IdentMap)
        ensures
            final(map)@ == old(map)@.merge(self.idents()),
    ;
}

impl CollectIdents for TypeExpr {
    open spec fn idents(&self) -> IdentSets {
        type_idents(*self)
    }

    fn collect_idents(&self, map: &mut IdentMap) {
        collect_type(self, map);
    }
}

impl CollectIdents for Expr {
    open spec fn idents(&self) -> IdentSets {
        expr_idents(*self)
    }

    fn collect_idents(&self, map: &mut IdentMap) {
        collect_expr(self, map);
    }
}

impl CollectIdents for Pat {
    open spec fn idents(&self) -> IdentSets {
        pat_idents(*self)
    }

    fn collect_idents(&self, map: &mut IdentMap) {
        collect_pat(self, map);
    }
}

impl CollectIdents for Path {
    open spec fn idents(&self) -> IdentSets {
        path_idents(*self)
    }

    fn collect_idents(&self, map: &mut IdentMap) {
        collect_path(self, map);
    }
}

impl CollectIdents for Bound {
    open spec fn idents(&self) -> IdentSets {
        bound_idents(*self)
    }

    fn collect_idents(&self, map: &mut IdentMap) {
        collect_bound(self, map);
    }
}

impl CollectIdents for TraitBound {
    open spec fn idents(&self) -> IdentSets {
        bound_idents(Bound::Trait(*self))
    }

    fn collect_idents(&self, map: &mut IdentMap) {
        collect_lifetime_def_list(&self.binder, map);
        collect_path(&self.path, map);
        if self.path.segments.len() > 0 {
            map.insert_trait(&self.path.segments[self.path.segments.len() - 1].ident);
        }
        proof {
            assert(map@ =~~= old(map)@.merge(self.idents()));
        }
    }
}

impl CollectIdents for InputGenericParamLifetime {
    open spec fn idents(&self) -> IdentSets {
        lifetime_def_idents(*self)
    }

    fn collect_idents(&self, map: &mut IdentMap) {
        collect_lifetime_def(self, map);
    }
}

impl CollectIdents for InputGenericParamType {
    open spec fn idents(&self) -> IdentSets {
        type_param_idents(*self)
    }

    fn collect_idents(&self, map: &mut IdentMap) {
        collect_type_param(self, map);
    }
}

impl CollectIdents for InputGenericParamConst {
    open spec fn idents(&self) -> IdentSets {
        const_param_idents(*self)
    }

    fn collect_idents(&self, map: &mut IdentMap) {
        collect_const_param(self, map);
    }
}

impl CollectIdents for InputGenericParam {
    open spec fn idents(&self) -> IdentSets {
        generic_param_idents(*self)
    }

    fn collect_idents(&self, map: &mut IdentMap) {
        collect_generic_param(self, map);
    }
}

impl CollectIdents for InputGenerics {
    open spec fn idents(&self) -> IdentSets {
        input_generics_idents(*self)
    }

    fn collect_idents(&self, map: &mut IdentMap) {
        collect_generic_param_list(&self.params, map);
    }
}

impl CollectIdents for WherePredicate {
    open spec fn idents(&self) -> IdentSets {
        predicate_idents(*self)
    }

    fn collect_idents(&self, map: &mut IdentMap) {
        collect_predicate(self, map);
    }
}

impl CollectIdents for WhereClause {
    open spec fn idents(&self) -> IdentSets {
        where_clause_idents(*self)
    }

    fn collect_idents(&self, map: &mut IdentMap) {
        collect_predicate_list(&self.predicates, map);
    }
}

/// The `for<'a, 'b>` binder of a higher-rank bound, on its own.
impl CollectIdents for Vec<InputGenericParamLifetime> {
    open spec fn idents(&self) -> IdentSets {
        lifetime_def_list_idents(self@, self@.len() as int)
    }

    fn collect_idents(&self, map: &mut IdentMap) {
        collect_lifetime_def_list(self, map);
    }
}

impl IdentMap {
    /// Classify `input` and reconcile: the classification of the node with
    /// every settled name drained from the ambiguous bucket.
    pub fn new<T: CollectIdents>(input: &T) -> (m: IdentMap)
        ensures
            m@ == input.idents().reconciled(),
    {
        let mut map = IdentMap::empty();
        input.collect_idents(&mut map);
        proof {
            crate::names::lemma_merge_empty(input.idents());
        }
        map.filter_solved_ambiguous();
        map
    }
}

} // verus!
