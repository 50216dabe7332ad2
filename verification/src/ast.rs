//! The library's model of the surface grammar.
//!
//! A declaration reaches this crate already parsed; these types hold exactly
//! what the analysis reads: the recursive structure of type expressions,
//! const expressions, patterns, bounds and generic parameters, and the names
//! that occur in them.  Tokens, spans and formatting do not take part in any
//! rule of the analysis and are not modelled.

use vstd::prelude::*;

verus! {

/// One segment of a path, `ident` possibly followed by generic arguments.
#[derive(Debug)]
pub struct PathSegment {
    pub ident: String,
    pub arguments: PathArguments,
}

#[derive(Debug)]
pub enum PathArguments {
    /// No arguments after the segment.
    Bare,
    /// `<'a, T, N>`
    AngleBracketed(Vec<GenericArg>),
    /// `(A, B) -> C`, as on `Fn(A, B) -> C`
    Parenthesized { inputs: Vec<TypeExpr>, output: ReturnType },
}

/// A (possibly multi-segment) path such as `a::b::C<T>`.
#[derive(Debug)]
pub struct Path {
    pub segments: Vec<PathSegment>,
}

/// The `<T as Trait>` prefix of a qualified path.  `position` counts the
/// path segments that spell the trait, and `as_trait` records whether the
/// `as Trait` part is present.
#[derive(Debug)]
pub struct QualifiedSelf {
    pub ty: Box<TypeExpr>,
    pub position: usize,
    pub as_trait: bool,
}

#[derive(Debug)]
pub enum ReturnType {
    /// No annotation: the default output type.
    Unspecified,
    /// `-> T`
    Ty(Box<TypeExpr>),
}

/// A path in type position, with an optional qualified-self prefix.
#[derive(Debug)]
pub struct TypePath {
    pub qself: Option<QualifiedSelf>,
    pub path: Path,
}

/// A type expression: an immutable recursive tree.
#[derive(Debug)]
pub enum TypeExpr {
    Path(TypePath),
    /// `&'a mut T`
    Reference { lifetime: Option<String>, mutable: bool, elem: Box<TypeExpr> },
    /// `*const T` / `*mut T`
    Pointer(Box<TypeExpr>),
    /// `(A, B, C)`; empty for `()`
    Tuple(Vec<TypeExpr>),
    /// `[T; N]`
    Array { elem: Box<TypeExpr>, len: Expr },
    /// `[T]`
    Slice(Box<TypeExpr>),
    /// `for<'a> fn(A, B) -> C`
    BareFn {
        binder: Vec<InputGenericParamLifetime>,
        inputs: Vec<TypeExpr>,
        output: ReturnType,
    },
    /// `impl Bound + Bound`
    ImplTrait(Vec<Bound>),
    /// `dyn Bound + Bound`
    TraitObject(Vec<Bound>),
    /// An invisible group around a type.
    Group(Box<TypeExpr>),
    /// `(T)`
    Paren(Box<TypeExpr>),
    /// `_`
    Infer,
    /// `!`
    Never,
    /// A macro invocation in type position; nothing inside it is read.
    MacroCall,
}

/// A bound on a type parameter or trait object.
#[derive(Debug)]
pub enum Bound {
    Trait(TraitBound),
    /// An outlives bound such as `'a`.
    Lifetime(String),
}

/// `for<'a> some::Trait<'a>`; a `?` modifier plays no role in the analysis
/// and is not modelled.
#[derive(Debug)]
pub struct TraitBound {
    pub binder: Vec<InputGenericParamLifetime>,
    pub path: Path,
}

/// A lifetime parameter declaration, `'a: 'b + 'c`.
#[derive(Debug)]
pub struct InputGenericParamLifetime {
    pub lifetime: String,
    pub bounds: Vec<String>,
}

/// A type parameter declaration, `T: Bound = Default`.
#[derive(Debug)]
pub struct InputGenericParamType {
    pub ident: String,
    pub bounds: Vec<Bound>,
    pub default: Option<TypeExpr>,
}

/// A const parameter declaration, `const N: usize = 4`.
#[derive(Debug)]
pub struct InputGenericParamConst {
    pub ident: String,
    pub ty: TypeExpr,
    pub default: Option<Expr>,
}

#[derive(Debug)]
pub enum InputGenericParam {
    Lifetime(InputGenericParamLifetime),
    Type(InputGenericParamType),
    Const(InputGenericParamConst),
}

/// The `<...>` parameter list of a declaration.
#[derive(Debug)]
pub struct InputGenerics {
    pub params: Vec<InputGenericParam>,
}

/// `'a: 'b` in a where-clause.
#[derive(Debug)]
pub struct PredicateLifetime {
    pub lifetime: String,
    pub bounds: Vec<String>,
}

/// `for<'a> T: Bound` in a where-clause.
#[derive(Debug)]
pub struct PredicateType {
    pub binder: Vec<InputGenericParamLifetime>,
    pub bounded_ty: TypeExpr,
    pub bounds: Vec<Bound>,
}

#[derive(Debug)]
pub enum WherePredicate {
    Lifetime(PredicateLifetime),
    Type(PredicateType),
}

#[derive(Debug)]
pub struct WhereClause {
    pub predicates: Vec<WherePredicate>,
}

/// One generic argument inside `<...>`.
#[derive(Debug)]
pub enum GenericArg {
    /// `'a`
    Lifetime(String),
    /// A type argument.
    Ty(TypeExpr),
    /// A const argument in expression form.
    Const(Expr),
    /// An associated-type binding, `Item<...> = T`.
    AssocType { ident: String, generics: Vec<GenericArg>, ty: TypeExpr },
    /// An associated-const binding, `N<...> = e`.
    AssocConst { ident: String, generics: Vec<GenericArg>, value: Expr },
    /// An associated-type constraint, `Item<...>: Bound`.
    Constraint { ident: String, generics: Vec<GenericArg>, bounds: Vec<Bound> },
}

/// A path in expression position.
#[derive(Debug)]
pub struct ExprPath {
    pub qself: Option<QualifiedSelf>,
    pub path: Path,
}

/// A struct literal, `Point { x: e, y: e, ..rest }`.  Field names play no
/// role in the analysis, so only the field values are held.
#[derive(Debug)]
pub struct ExprStruct {
    pub qself: Option<QualifiedSelf>,
    pub path: Path,
    pub fields: Vec<Expr>,
    pub rest: Option<Box<Expr>>,
}

/// A closure, `for<'a> |p, q| -> R { body }`.
#[derive(Debug)]
pub struct ExprClosure {
    pub binder: Vec<InputGenericParamLifetime>,
    pub inputs: Vec<Pat>,
    pub output: ReturnType,
    pub body: Box<Expr>,
}

/// An expression, as far as one can occur in const-argument position or as a
/// delegator closure.
#[derive(Debug)]
pub enum Expr {
    Path(ExprPath),
    /// A literal holds no names.
    Lit,
    Unary(Box<Expr>),
    Binary(Box<Expr>, Box<Expr>),
    Paren(Box<Expr>),
    Reference(Box<Expr>),
    Cast(Box<Expr>, Box<TypeExpr>),
    Call { func: Box<Expr>, args: Vec<Expr> },
    MethodCall { receiver: Box<Expr>, turbofish: Vec<GenericArg>, args: Vec<Expr> },
    Field(Box<Expr>),
    Index { base: Box<Expr>, index: Box<Expr> },
    Tuple(Vec<Expr>),
    Array(Vec<Expr>),
    Repeat { elem: Box<Expr>, len: Box<Expr> },
    Struct(ExprStruct),
    Closure(ExprClosure),
}

/// A pattern, as far as one can occur as a closure parameter.  The name a
/// pattern binds plays no role in the analysis and is not held.
#[derive(Debug)]
pub enum Pat {
    /// A binding, with an optional `@`-subpattern.
    Binding { subpat: Option<Box<Pat>> },
    Wild,
    /// `p: T`
    Typed { pat: Box<Pat>, ty: Box<TypeExpr> },
    Tuple(Vec<Pat>),
    Reference(Box<Pat>),
    Paren(Box<Pat>),
    Rest,
}

} // verus!
