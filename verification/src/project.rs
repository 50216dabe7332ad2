//! The generic-parameter projector.
//!
//! Given the generic header of the enclosing declaration and the identifier
//! classification of a narrower target (typically one variant's fields), the
//! projector computes the minimal generic header the target needs:
//!
//! - a lifetime parameter is kept iff its name is classified as a lifetime
//!   of the target;
//! - a type parameter is kept iff its name is classified as a type or as an
//!   ambiguous head of the target;
//! - a const parameter is kept iff its name is classified as a constant or
//!   as an ambiguous head of the target;
//! - if nothing is kept there is no header at all, rather than an empty one;
//! - a bound on a kept parameter is itself kept only if every identifier in
//!   it that names an enclosing parameter names a kept one; an
//!   unsatisfiable bound is dropped, not an error, since the narrower
//!   declaration needs to prove strictly less than the original;
//! - the enclosing where-clause is filtered predicate by predicate with the
//!   same satisfiability test.
//!
//! The result names the kept pieces by their positions in the enclosing
//! header, lifetimes first, then types, then consts, each kept parameter
//! with the positions of its kept bounds.

use vstd::prelude::*;

use crate::ast::{Bound, InputGenericParam, WherePredicate};
use crate::classify::{bound_idents, predicate_idents, CollectIdents};
use crate::generics::{generic_param_name, Optional, SaneGenerics, _None, _Some};
use crate::names::{IdentMap, IdentSets};

verus! {

/// One kept parameter: its position in the enclosing header and the
/// positions of its kept bounds.
#[derive(Debug)]
pub struct RetainedParam {
    pub index: usize,
    pub bounds: Vec<usize>,
}

/// The projected generic header: the kept parameters (lifetimes first, then
/// types, then consts) and the kept where-clause predicates, all named by
/// position in the enclosing header.
#[derive(Debug)]
pub struct ProjectedGenerics {
    pub params: Vec<RetainedParam>,
    pub predicates: Vec<usize>,
}

/// The names of the enclosing lifetime parameters.
pub open spec fn lf_names(params: Seq<InputGenericParam>) -> Set<Seq<char>> {
    Set::new(
        |x: Seq<char>|
            exists|i: int|
                0 <= i < params.len() && (#[trigger] params[i]) is Lifetime && generic_param_name(
                    params[i],
                ) == x,
    )
}

/// The names of the enclosing type parameters.
pub open spec fn ty_names(params: Seq<InputGenericParam>) -> Set<Seq<char>> {
    Set::new(
        |x: Seq<char>|
            exists|i: int|
                0 <= i < params.len() && (#[trigger] params[i]) is Type && generic_param_name(
                    params[i],
                ) == x,
    )
}

/// The names of the enclosing const parameters.
pub open spec fn const_names(params: Seq<InputGenericParam>) -> Set<Seq<char>> {
    Set::new(
        |x: Seq<char>|
            exists|i: int|
                0 <= i < params.len() && (#[trigger] params[i]) is Const && generic_param_name(
                    params[i],
                ) == x,
    )
}

/// Whether a lifetime parameter is kept for a target classified as `t`.
pub open spec fn lf_retained(p: InputGenericParam, t: IdentSets) -> bool {
    p is Lifetime && t.lifetimes.contains(generic_param_name(p))
}

/// Whether a type parameter is kept for a target classified as `t`.
pub open spec fn ty_retained(p: InputGenericParam, t: IdentSets) -> bool {
    p is Type && (t.tys.contains(generic_param_name(p)) || t.ambiguous.contains(
        generic_param_name(p),
    ))
}

/// Whether a const parameter is kept for a target classified as `t`.
pub open spec fn const_retained(p: InputGenericParam, t: IdentSets) -> bool {
    p is Const && (t.constants.contains(generic_param_name(p)) || t.ambiguous.contains(
        generic_param_name(p),
    ))
}

/// Whether a bound or predicate classified as `b` is satisfiable by what the
/// projection keeps: every identifier of it that names an enclosing
/// parameter must name a kept one.  An ambiguous identifier may name a type
/// or a const parameter, and is held to whichever it names.
pub open spec fn satisfiable(
    b: IdentSets,
    params: Seq<InputGenericParam>,
    t: IdentSets,
) -> bool {
    &&& forall|x: Seq<char>|
        #[trigger] b.lifetimes.contains(x) && lf_names(params).contains(x) ==> t.lifetimes.contains(
            x,
        )
    &&& forall|x: Seq<char>|
        #[trigger] b.tys.contains(x) && ty_names(params).contains(x) ==> (t.tys.contains(x)
            || t.ambiguous.contains(x))
    &&& forall|x: Seq<char>|
        #[trigger] b.constants.contains(x) && const_names(params).contains(x) ==> (
        t.constants.contains(x) || t.ambiguous.contains(x))
    &&& forall|x: Seq<char>| #[trigger] b.ambiguous.contains(x) ==> {
        &&& ty_names(params).contains(x) ==> (t.tys.contains(x) || t.ambiguous.contains(x))
        &&& const_names(params).contains(x) ==> (t.constants.contains(x) || t.ambiguous.contains(
            x,
        ))
    }
}

/// Positions of the kept lifetime parameters among the first `n`.
pub open spec fn lf_indices(params: Seq<InputGenericParam>, t: IdentSets, n: int) -> Seq<int>
    decreases n,
{
    if n <= 0 || n > params.len() {
        Seq::empty()
    } else {
        lf_indices(params, t, n - 1) + if lf_retained(params[n - 1], t) {
            seq![n - 1]
        } else {
            Seq::empty()
        }
    }
}

/// Positions of the kept type parameters among the first `n`.
pub open spec fn ty_indices(params: Seq<InputGenericParam>, t: IdentSets, n: int) -> Seq<int>
    decreases n,
{
    if n <= 0 || n > params.len() {
        Seq::empty()
    } else {
        ty_indices(params, t, n - 1) + if ty_retained(params[n - 1], t) {
            seq![n - 1]
        } else {
            Seq::empty()
        }
    }
}

/// Positions of the kept const parameters among the first `n`.
pub open spec fn const_indices(params: Seq<InputGenericParam>, t: IdentSets, n: int) -> Seq<int>
    decreases n,
{
    if n <= 0 || n > params.len() {
        Seq::empty()
    } else {
        const_indices(params, t, n - 1) + if const_retained(params[n - 1], t) {
            seq![n - 1]
        } else {
            Seq::empty()
        }
    }
}

/// Positions of the kept bounds of a kept lifetime parameter: `'a: 'b`
/// keeps `'b` iff `'b` is itself a kept lifetime parameter.
pub open spec fn lf_bound_indices(
    bounds: Seq<String>,
    params: Seq<InputGenericParam>,
    t: IdentSets,
    n: int,
) -> Seq<int>
    decreases n,
{
    if n <= 0 || n > bounds.len() {
        Seq::empty()
    } else {
        lf_bound_indices(bounds, params, t, n - 1) + if lf_names(params).contains(bounds[n - 1]@)
            && t.lifetimes.contains(bounds[n - 1]@) {
            seq![n - 1]
        } else {
            Seq::empty()
        }
    }
}

/// Positions of the kept bounds of a kept type parameter.
pub open spec fn ty_bound_indices(
    bounds: Seq<Bound>,
    params: Seq<InputGenericParam>,
    t: IdentSets,
    n: int,
) -> Seq<int>
    decreases n,
{
    if n <= 0 || n > bounds.len() {
        Seq::empty()
    } else {
        ty_bound_indices(bounds, params, t, n - 1) + if satisfiable(
            bound_idents(bounds[n - 1]).reconciled(),
            params,
            t,
        ) {
            seq![n - 1]
        } else {
            Seq::empty()
        }
    }
}

/// Positions of the kept where-clause predicates.
pub open spec fn predicate_indices(
    preds: Seq<WherePredicate>,
    params: Seq<InputGenericParam>,
    t: IdentSets,
    n: int,
) -> Seq<int>
    decreases n,
{
    if n <= 0 || n > preds.len() {
        Seq::empty()
    } else {
        predicate_indices(preds, params, t, n - 1) + if satisfiable(
            predicate_idents(preds[n - 1]).reconciled(),
            params,
            t,
        ) {
            seq![n - 1]
        } else {
            Seq::empty()
        }
    }
}

/// The position view of a kept-parameter list.
pub open spec fn plan_indices(params: Seq<RetainedParam>) -> Seq<int> {
    params.map_values(|e: RetainedParam| e.index as int)
}

/// The position view of a vector of positions.
pub open spec fn usize_indices(v: Seq<usize>) -> Seq<int> {
    v.map_values(|u: usize| u as int)
}

/// Whether a projection plan is exactly what the enclosing header `params`,
/// its where-clause `preds` and the target classification `t` call for.
pub open spec fn is_projection_plan(
    p: ProjectedGenerics,
    params: Seq<InputGenericParam>,
    preds: Seq<WherePredicate>,
    t: IdentSets,
) -> bool {
    let n = params.len() as int;
    &&& plan_indices(p.params@) == lf_indices(params, t, n) + ty_indices(params, t, n)
        + const_indices(params, t, n)
    &&& forall|k: int| 0 <= k < p.params@.len() ==> {
        let e = #[trigger] p.params@[k];
        &&& e.index < params.len()
        &&& match params[e.index as int] {
            InputGenericParam::Lifetime(l) => usize_indices(e.bounds@) == lf_bound_indices(
                l.bounds@,
                params,
                t,
                l.bounds@.len() as int,
            ),
            InputGenericParam::Type(tp) => usize_indices(e.bounds@) == ty_bound_indices(
                tp.bounds@,
                params,
                t,
                tp.bounds@.len() as int,
            ),
            InputGenericParam::Const(_) => e.bounds@.len() == 0,
        }
    }
    &&& usize_indices(p.predicates@) == predicate_indices(preds, params, t, preds.len() as int)
}

/// Whether `x` names an enclosing lifetime parameter.
fn is_lf_param(params: &Vec<InputGenericParam>, x: &String) -> (r: bool)
    ensures
        r == lf_names(params@).contains(x@),
{
    let mut i: usize = 0;
    while i < params.len()
        invariant
            0 <= i <= params.len(),
            forall|j: int|
                0 <= j < i ==> !((#[trigger] params@[j]) is Lifetime && generic_param_name(
                    params@[j],
                ) == x@),
        decreases params.len() - i,
    {
        match &params[i] {
            InputGenericParam::Lifetime(l) => {
                if l.lifetime == *x {
                    assert(lf_names(params@).contains(x@));
                    return true;
                }
            },
            _ => (),
        }
        i += 1;
    }
    assert(!lf_names(params@).contains(x@));
    false
}

/// Whether `x` names an enclosing type parameter.
fn is_ty_param(params: &Vec<InputGenericParam>, x: &String) -> (r: bool)
    ensures
        r == ty_names(params@).contains(x@),
{
    let mut i: usize = 0;
    while i < params.len()
        invariant
            0 <= i <= params.len(),
            forall|j: int|
                0 <= j < i ==> !((#[trigger] params@[j]) is Type && generic_param_name(params@[j])
                    == x@),
        decreases params.len() - i,
    {
        match &params[i] {
            InputGenericParam::Type(t) => {
                if t.ident == *x {
                    assert(ty_names(params@).contains(x@));
                    return true;
                }
            },
            _ => (),
        }
        i += 1;
    }
    assert(!ty_names(params@).contains(x@));
    false
}

/// Whether `x` names an enclosing const parameter.
fn is_const_param(params: &Vec<InputGenericParam>, x: &String) -> (r: bool)
    ensures
        r == const_names(params@).contains(x@),
{
    let mut i: usize = 0;
    while i < params.len()
        invariant
            0 <= i <= params.len(),
            forall|j: int|
                0 <= j < i ==> !((#[trigger] params@[j]) is Const && generic_param_name(params@[j])
                    == x@),
        decreases params.len() - i,
    {
        match &params[i] {
            InputGenericParam::Const(c) => {
                if c.ident == *x {
                    assert(const_names(params@).contains(x@));
                    return true;
                }
            },
            _ => (),
        }
        i += 1;
    }
    assert(!const_names(params@).contains(x@));
    false
}

/// The satisfiability test, on the classification `bm` of one bound or
/// predicate.
fn idents_satisfiable(bm: &IdentMap, params: &Vec<InputGenericParam>, target: &IdentMap) -> (r:
    bool)
    ensures
        r == satisfiable(bm@, params@, target@),
{
    let mut i: usize = 0;
    while i < bm.lifetimes.len()
        invariant
            0 <= i <= bm.lifetimes.len(),
            forall|j: int|
                0 <= j < i ==> (lf_names(params@).contains((#[trigger] bm.lifetimes@[j])@)
                    ==> target@.lifetimes.contains(bm.lifetimes@[j]@)),
        decreases bm.lifetimes.len() - i,
    {
        let x = &bm.lifetimes[i];
        if is_lf_param(params, x) && !target.contains_lifetime(x) {
            assert(bm@.lifetimes.contains(x@));
            return false;
        }
        i += 1;
    }
    let mut i: usize = 0;
    while i < bm.tys.len()
        invariant
            0 <= i <= bm.tys.len(),
            forall|j: int|
                0 <= j < i ==> (ty_names(params@).contains((#[trigger] bm.tys@[j])@)
                    ==> target@.tys.contains(bm.tys@[j]@) || target@.ambiguous.contains(
                    bm.tys@[j]@,
                )),
        decreases bm.tys.len() - i,
    {
        let x = &bm.tys[i];
        if is_ty_param(params, x) && !target.contains_ty(x) && !target.contains_ambiguous(x) {
            assert(bm@.tys.contains(x@));
            return false;
        }
        i += 1;
    }
    let mut i: usize = 0;
    while i < bm.constants.len()
        invariant
            0 <= i <= bm.constants.len(),
            forall|j: int|
                0 <= j < i ==> (const_names(params@).contains((#[trigger] bm.constants@[j])@)
                    ==> target@.constants.contains(bm.constants@[j]@)
                    || target@.ambiguous.contains(bm.constants@[j]@)),
        decreases bm.constants.len() - i,
    {
        let x = &bm.constants[i];
        if is_const_param(params, x) && !target.contains_constant(x) && !target.contains_ambiguous(
            x,
        ) {
            assert(bm@.constants.contains(x@));
            return false;
        }
        i += 1;
    }
    let mut i: usize = 0;
    while i < bm.ambiguous_paths.len()
        invariant
            0 <= i <= bm.ambiguous_paths.len(),
            forall|j: int| 0 <= j < i ==> {
                &&& (ty_names(params@).contains((#[trigger] bm.ambiguous_paths@[j])@)
                    ==> target@.tys.contains(bm.ambiguous_paths@[j]@) || target@.ambiguous.contains(
                    bm.ambiguous_paths@[j]@,
                ))
                &&& (const_names(params@).contains(bm.ambiguous_paths@[j]@)
                    ==> target@.constants.contains(bm.ambiguous_paths@[j]@)
                    || target@.ambiguous.contains(bm.ambiguous_paths@[j]@))
            },
        decreases bm.ambiguous_paths.len() - i,
    {
        let x = &bm.ambiguous_paths[i];
        let in_tgt_ambiguous = target.contains_ambiguous(x);
        if is_ty_param(params, x) && !target.contains_ty(x) && !in_tgt_ambiguous {
            assert(bm@.ambiguous.contains(x@));
            return false;
        }
        if is_const_param(params, x) && !target.contains_constant(x) && !in_tgt_ambiguous {
            assert(bm@.ambiguous.contains(x@));
            return false;
        }
        i += 1;
    }
    proof {
        assert forall|x: Seq<char>|
            #[trigger] bm@.lifetimes.contains(x) && lf_names(params@).contains(x) implies
            target@.lifetimes.contains(x) by {
            let j = choose|j: int| 0 <= j < bm.lifetimes@.len() && bm.lifetimes@[j]@ == x;
            assert(lf_names(params@).contains(bm.lifetimes@[j]@));
        }
        assert forall|x: Seq<char>|
            #[trigger] bm@.tys.contains(x) && ty_names(params@).contains(x) implies
            target@.tys.contains(x) || target@.ambiguous.contains(x) by {
            let j = choose|j: int| 0 <= j < bm.tys@.len() && bm.tys@[j]@ == x;
            assert(ty_names(params@).contains(bm.tys@[j]@));
        }
        assert forall|x: Seq<char>|
            #[trigger] bm@.constants.contains(x) && const_names(params@).contains(x) implies
            target@.constants.contains(x) || target@.ambiguous.contains(x) by {
            let j = choose|j: int| 0 <= j < bm.constants@.len() && bm.constants@[j]@ == x;
            assert(const_names(params@).contains(bm.constants@[j]@));
        }
        assert forall|x: Seq<char>| #[trigger] bm@.ambiguous.contains(x) implies {
            &&& ty_names(params@).contains(x) ==> (target@.tys.contains(x)
                || target@.ambiguous.contains(x))
            &&& const_names(params@).contains(x) ==> (target@.constants.contains(x)
                || target@.ambiguous.contains(x))
        } by {
            let j = choose|j: int|
                0 <= j < bm.ambiguous_paths@.len() && bm.ambiguous_paths@[j]@ == x;
            assert(ty_names(params@).contains(bm.ambiguous_paths@[j]@) ==> (target@.tys.contains(x)
                || target@.ambiguous.contains(x)));
            assert(const_names(params@).contains(bm.ambiguous_paths@[j]@) ==> (
            target@.constants.contains(x) || target@.ambiguous.contains(x)));
        }
    }
    true
}

/// What the projector returns for an enclosing header `eg` and a target
/// classified as `t`: no header at all when the enclosing declaration has
/// none or when the target needs none of its parameters, else exactly the
/// plan the filters call for.
pub open spec fn projection_result(
    eg: Optional<SaneGenerics>,
    t: IdentSets,
    r: Optional<ProjectedGenerics>,
) -> bool {
    match eg {
        _None => r is _None,
        _Some(g) => {
            let params = g.input.params@;
            let n = params.len() as int;
            let preds = match g.where_clause {
                _Some(wc) => wc.predicates@,
                _None => Seq::empty(),
            };
            &&& (r is _None <==> lf_indices(params, t, n).len() + ty_indices(params, t, n).len()
                + const_indices(params, t, n).len() == 0)
            &&& match r {
                _Some(p) => is_projection_plan(p, params, preds, t),
                _None => true,
            }
        },
    }
}

/// Project the enclosing generic header onto a target whose classification
/// is `target`.  No header at all comes back when the enclosing declaration
/// has none, or when the target needs none of its parameters.
pub fn project_generics(enum_generics: &Optional<SaneGenerics>, target: &IdentMap) -> (r: Optional<
    ProjectedGenerics,
>)
    ensures
        projection_result(*enum_generics, target@, r),
{
    let g = match enum_generics {
        _Some(g) => g,
        _None => {
            return _None;
        },
    };
    let params = &g.input.params;
    let ghost t = target@;

    let mut lfs: Vec<usize> = Vec::new();
    let mut tys: Vec<usize> = Vec::new();
    let mut consts: Vec<usize> = Vec::new();
    proof {
        assert(usize_indices(lfs@) =~= lf_indices(params@, t, 0));
        assert(usize_indices(tys@) =~= ty_indices(params@, t, 0));
        assert(usize_indices(consts@) =~= const_indices(params@, t, 0));
    }
    let mut i: usize = 0;
    while i < params.len()
        invariant
            0 <= i <= params.len(),
            usize_indices(lfs@) == lf_indices(params@, t, i as int),
            usize_indices(tys@) == ty_indices(params@, t, i as int),
            usize_indices(consts@) == const_indices(params@, t, i as int),
            t == target@,
        decreases params.len() - i,
    {
        match &params[i] {
            InputGenericParam::Lifetime(l) => {
                if target.contains_lifetime(&l.lifetime) {
                    lfs.push(i);
                }
            },
            InputGenericParam::Type(tp) => {
                if target.contains_ty(&tp.ident) || target.contains_ambiguous(&tp.ident) {
                    tys.push(i);
                }
            },
            InputGenericParam::Const(c) => {
                if target.contains_constant(&c.ident) || target.contains_ambiguous(&c.ident) {
                    consts.push(i);
                }
            },
        }
        proof {
            assert(usize_indices(lfs@) =~= lf_indices(params@, t, i as int + 1));
            assert(usize_indices(tys@) =~= ty_indices(params@, t, i as int + 1));
            assert(usize_indices(consts@) =~= const_indices(params@, t, i as int + 1));
        }
        i += 1;
    }

    if lfs.len() == 0 && tys.len() == 0 && consts.len() == 0 {
        return _None;
    }

    let mut out: Vec<RetainedParam> = Vec::new();
    proof {
        assert(plan_indices(out@) =~= usize_indices(lfs@).take(0));
    }
    let mut k: usize = 0;
    while k < lfs.len()
        invariant
            0 <= k <= lfs.len(),
            t == target@,
            usize_indices(lfs@) == lf_indices(params@, t, params@.len() as int),
            plan_indices(out@) == usize_indices(lfs@).take(k as int),
            forall|m: int| 0 <= m < out@.len() ==> retained_entry_ok(
                #[trigger] out@[m],
                params@,
                t,
            ),
        decreases lfs.len() - k,
    {
        let idx = lfs[k];
        proof {
            lemma_filter_indices_in_range(params@, t, params@.len() as int);
            assert(lf_indices(params@, t, params@.len() as int)[k as int] == idx as int);
        }
        let mut kept: Vec<usize> = Vec::new();
        match &params[idx] {
            InputGenericParam::Lifetime(l) => {
                proof {
                    assert(usize_indices(kept@) =~= lf_bound_indices(l.bounds@, params@, t, 0));
                }
                let mut j: usize = 0;
                while j < l.bounds.len()
                    invariant
                        0 <= j <= l.bounds.len(),
                        t == target@,
                        usize_indices(kept@) == lf_bound_indices(l.bounds@, params@, t, j as int),
                    decreases l.bounds.len() - j,
                {
                    let b = &l.bounds[j];
                    if is_lf_param(params, b) && target.contains_lifetime(b) {
                        kept.push(j);
                    }
                    proof {
                        assert(usize_indices(kept@) =~= lf_bound_indices(
                            l.bounds@,
                            params@,
                            t,
                            j as int + 1,
                        ));
                    }
                    j += 1;
                }
            },
            _ => {
                proof {
                    assert(false);
                }
            },
        }
        let ghost prev = out@;
        out.push(RetainedParam { index: idx, bounds: kept });
        proof {
            let s = usize_indices(lfs@);
            assert(s.len() == lfs@.len());
            assert(plan_indices(prev).len() == prev.len());
            assert(prev.len() == k as int);
            assert(out@.len() == k as int + 1);
            assert(out@[k as int].index == idx);
            assert forall|m: int| 0 <= m < plan_indices(out@).len() implies plan_indices(out@)[m]
                == s.take(k as int + 1)[m] by {
                if m < k as int {
                    assert(out@[m] == prev[m]);
                    assert(plan_indices(prev)[m] == s.take(k as int)[m]);
                } else {
                    assert(m == k as int);
                }
            }
            assert(plan_indices(out@) =~= s.take(k as int + 1));
        }
        k += 1;
    }

    proof {
        assert(plan_indices(out@) =~= usize_indices(lfs@) + usize_indices(tys@).take(0));
    }
    let mut k: usize = 0;
    while k < tys.len()
        invariant
            0 <= k <= tys.len(),
            t == target@,
            usize_indices(lfs@) == lf_indices(params@, t, params@.len() as int),
            usize_indices(tys@) == ty_indices(params@, t, params@.len() as int),
            plan_indices(out@) == usize_indices(lfs@) + usize_indices(tys@).take(k as int),
            forall|m: int| 0 <= m < out@.len() ==> retained_entry_ok(
                #[trigger] out@[m],
                params@,
                t,
            ),
        decreases tys.len() - k,
    {
        let idx = tys[k];
        proof {
            lemma_filter_indices_in_range(params@, t, params@.len() as int);
            assert(ty_indices(params@, t, params@.len() as int)[k as int] == idx as int);
        }
        let mut kept: Vec<usize> = Vec::new();
        match &params[idx] {
            InputGenericParam::Type(tp) => {
                proof {
                    assert(usize_indices(kept@) =~= ty_bound_indices(tp.bounds@, params@, t, 0));
                }
                let mut j: usize = 0;
                while j < tp.bounds.len()
                    invariant
                        0 <= j <= tp.bounds.len(),
                        t == target@,
                        usize_indices(kept@) == ty_bound_indices(tp.bounds@, params@, t, j as int),
                    decreases tp.bounds.len() - j,
                {
                    let bm = IdentMap::new(&tp.bounds[j]);
                    if idents_satisfiable(&bm, params, target) {
                        kept.push(j);
                    }
                    proof {
                        assert(usize_indices(kept@) =~= ty_bound_indices(
                            tp.bounds@,
                            params@,
                            t,
                            j as int + 1,
                        ));
                    }
                    j += 1;
                }
            },
            _ => {
                proof {
                    assert(false);
                }
            },
        }
        let ghost prev = out@;
        out.push(RetainedParam { index: idx, bounds: kept });
        proof {
            let sl = usize_indices(lfs@);
            let st = usize_indices(tys@);
            assert(plan_indices(prev).len() == prev.len());
            assert(prev.len() == sl.len() + k as int);
            assert(out@.len() == prev.len() + 1);
            assert(out@[prev.len() as int].index == idx);
            assert forall|m: int| 0 <= m < plan_indices(out@).len() implies plan_indices(out@)[m]
                == (sl + st.take(k as int + 1))[m] by {
                if m < prev.len() {
                    assert(out@[m] == prev[m]);
                    assert(plan_indices(prev)[m] == (sl + st.take(k as int))[m]);
                    if m < sl.len() {
                        assert((sl + st.take(k as int))[m] == sl[m]);
                        assert((sl + st.take(k as int + 1))[m] == sl[m]);
                    } else {
                        assert((sl + st.take(k as int))[m] == st.take(k as int)[m - sl.len()]);
                        assert((sl + st.take(k as int + 1))[m] == st.take(k as int + 1)[m
                            - sl.len()]);
                    }
                } else {
                    assert(m == prev.len());
                    assert((sl + st.take(k as int + 1))[m] == st.take(k as int + 1)[k as int]);
                    assert(st.take(k as int + 1)[k as int] == st[k as int]);
                    assert(st[k as int] == idx as int);
                }
            }
            assert(plan_indices(out@) =~= sl + st.take(k as int + 1));
        }
        k += 1;
    }

    proof {
        assert(plan_indices(out@) =~= usize_indices(lfs@) + usize_indices(tys@) + usize_indices(
            consts@,
        ).take(0));
    }
    let mut k: usize = 0;
    while k < consts.len()
        invariant
            0 <= k <= consts.len(),
            t == target@,
            usize_indices(lfs@) == lf_indices(params@, t, params@.len() as int),
            usize_indices(tys@) == ty_indices(params@, t, params@.len() as int),
            usize_indices(consts@) == const_indices(params@, t, params@.len() as int),
            plan_indices(out@) == usize_indices(lfs@) + usize_indices(tys@) + usize_indices(
                consts@,
            ).take(k as int),
            forall|m: int| 0 <= m < out@.len() ==> retained_entry_ok(
                #[trigger] out@[m],
                params@,
                t,
            ),
        decreases consts.len() - k,
    {
        let idx = consts[k];
        proof {
            lemma_filter_indices_in_range(params@, t, params@.len() as int);
            assert(const_indices(params@, t, params@.len() as int)[k as int] == idx as int);
        }
        let ghost prev = out@;
        out.push(RetainedParam { index: idx, bounds: Vec::new() });
        proof {
            let sl = usize_indices(lfs@);
            let st = usize_indices(tys@);
            let sc = usize_indices(consts@);
            assert(plan_indices(prev).len() == prev.len());
            assert(prev.len() == sl.len() + st.len() + k as int);
            assert(out@.len() == prev.len() + 1);
            assert(out@[prev.len() as int].index == idx);
            assert forall|m: int| 0 <= m < plan_indices(out@).len() implies plan_indices(out@)[m]
                == (sl + st + sc.take(k as int + 1))[m] by {
                if m < prev.len() {
                    assert(out@[m] == prev[m]);
                    assert(plan_indices(prev)[m] == (sl + st + sc.take(k as int))[m]);
                    if m < sl.len() + st.len() {
                        assert((sl + st + sc.take(k as int))[m] == (sl + st)[m]);
                        assert((sl + st + sc.take(k as int + 1))[m] == (sl + st)[m]);
                    } else {
                        assert((sl + st + sc.take(k as int))[m] == sc.take(k as int)[m - sl.len()
                            - st.len()]);
                        assert((sl + st + sc.take(k as int + 1))[m] == sc.take(k as int + 1)[m
                            - sl.len() - st.len()]);
                    }
                } else {
                    assert(m == prev.len());
                    assert((sl + st + sc.take(k as int + 1))[m] == sc.take(k as int + 1)[k as int]);
                    assert(sc.take(k as int + 1)[k as int] == sc[k as int]);
                    assert(sc[k as int] == idx as int);
                }
            }
            assert(plan_indices(out@) =~= sl + st + sc.take(k as int + 1));
        }
        k += 1;
    }

    let ghost preds: Seq<WherePredicate> = match &g.where_clause {
        _Some(wc) => wc.predicates@,
        _None => Seq::empty(),
    };
    let mut predicates: Vec<usize> = Vec::new();
    match g.where_clause.as_ref() {
        _Some(wc) => {
            proof {
                assert(usize_indices(predicates@) =~= predicate_indices(wc.predicates@, params@, t, 0));
            }
            let mut j: usize = 0;
            while j < wc.predicates.len()
                invariant
                    0 <= j <= wc.predicates.len(),
                    t == target@,
                    usize_indices(predicates@) == predicate_indices(
                        wc.predicates@,
                        params@,
                        t,
                        j as int,
                    ),
                decreases wc.predicates.len() - j,
            {
                let pm = IdentMap::new(&wc.predicates[j]);
                if idents_satisfiable(&pm, params, target) {
                    predicates.push(j);
                }
                proof {
                    assert(usize_indices(predicates@) =~= predicate_indices(
                        wc.predicates@,
                        params@,
                        t,
                        j as int + 1,
                    ));
                }
                j += 1;
            }
        },
        _None => {
            proof {
                assert(usize_indices(predicates@) =~= predicate_indices(preds, params@, t, 0));
            }
        },
    }

    let r = ProjectedGenerics { params: out, predicates };
    proof {
        assert(plan_indices(r.params@) =~= lf_indices(params@, t, params@.len() as int)
            + ty_indices(params@, t, params@.len() as int) + const_indices(
            params@,
            t,
            params@.len() as int,
        ));
        assert(usize_indices(r.predicates@) == predicate_indices(
            preds,
            params@,
            t,
            preds.len() as int,
        ));
    }
    _Some(r)
}

/// What holds of one kept entry: its position is in range and its kept
/// bounds are exactly the filter its parameter kind calls for.
pub open spec fn retained_entry_ok(
    e: RetainedParam,
    params: Seq<InputGenericParam>,
    t: IdentSets,
) -> bool {
    &&& e.index < params.len()
    &&& match params[e.index as int] {
        InputGenericParam::Lifetime(l) => usize_indices(e.bounds@) == lf_bound_indices(
            l.bounds@,
            params,
            t,
            l.bounds@.len() as int,
        ),
        InputGenericParam::Type(tp) => usize_indices(e.bounds@) == ty_bound_indices(
            tp.bounds@,
            params,
            t,
            tp.bounds@.len() as int,
        ),
        InputGenericParam::Const(_) => e.bounds@.len() == 0,
    }
}

/// Every position a filter keeps lies among the first `n` parameters, and
/// points at a parameter of the filter's kind that is retained.
pub proof fn lemma_filter_indices_in_range(
    params: Seq<InputGenericParam>,
    t: IdentSets,
    n: int,
)
    ensures
        forall|k: int| 0 <= k < lf_indices(params, t, n).len() ==> {
            let i = #[trigger] lf_indices(params, t, n)[k];
            0 <= i < n && i < params.len() && lf_retained(params[i], t)
        },
        forall|k: int| 0 <= k < ty_indices(params, t, n).len() ==> {
            let i = #[trigger] ty_indices(params, t, n)[k];
            0 <= i < n && i < params.len() && ty_retained(params[i], t)
        },
        forall|k: int| 0 <= k < const_indices(params, t, n).len() ==> {
            let i = #[trigger] const_indices(params, t, n)[k];
            0 <= i < n && i < params.len() && const_retained(params[i], t)
        },
    decreases n,
{
    if n <= 0 || n > params.len() {
    } else {
        lemma_filter_indices_in_range(params, t, n - 1);
        assert forall|k: int| 0 <= k < lf_indices(params, t, n).len() implies {
            let i = #[trigger] lf_indices(params, t, n)[k];
            0 <= i < n && i < params.len() && lf_retained(params[i], t)
        } by {
            let s = lf_indices(params, t, n - 1);
            if k < s.len() {
                assert(lf_indices(params, t, n)[k] == s[k]);
            } else {
                assert(lf_indices(params, t, n)[k] == n - 1);
            }
        }
        assert forall|k: int| 0 <= k < ty_indices(params, t, n).len() implies {
            let i = #[trigger] ty_indices(params, t, n)[k];
            0 <= i < n && i < params.len() && ty_retained(params[i], t)
        } by {
            let s = ty_indices(params, t, n - 1);
            if k < s.len() {
                assert(ty_indices(params, t, n)[k] == s[k]);
            } else {
                assert(ty_indices(params, t, n)[k] == n - 1);
            }
        }
        assert forall|k: int| 0 <= k < const_indices(params, t, n).len() implies {
            let i = #[trigger] const_indices(params, t, n)[k];
            0 <= i < n && i < params.len() && const_retained(params[i], t)
        } by {
            let s = const_indices(params, t, n - 1);
            if k < s.len() {
                assert(const_indices(params, t, n)[k] == s[k]);
            } else {
                assert(const_indices(params, t, n)[k] == n - 1);
            }
        }
    }
}

} // verus!
