//! The sanitized generic header of a declaration, and the option type the
//! declaration model uses for every part that may be absent.

use vstd::prelude::*;

use crate::ast::{InputGenericParam, InputGenerics, WhereClause};
use crate::errors::Error;

pub use Optional::{_None, _Some};

verus! {

/// An option with the declaration model's own name, so that an absent part
/// of a declaration reads as such.
#[derive(Debug, Clone, PartialEq, Eq)]
pub enum Optional<T> {
    _Some(T),
    _None,
}

impl<T> Optional<T> {
    pub fn is_some(&self) -> (r: bool)
        ensures
            r == (self is _Some),
    {
        match self {
            _Some(..) => true,
            _None => false,
        }
    }

    pub fn is_none(&self) -> (r: bool)
        ensures
            r == (self is _None),
    {
        !self.is_some()
    }

    pub fn as_ref(&self) -> (r: Optional<&T>)
        ensures
            r is _Some <==> self is _Some,
            self is _Some ==> r->_Some_0 == &self->_Some_0,
    {
        match self {
            _Some(t) => _Some(t),
            _None => _None,
        }
    }

    pub fn map<U, F: FnOnce(T) -> U>(self, f: F) -> (r: Option<U>)
        requires
            self is _Some ==> f.requires((self->_Some_0,)),
        ensures
            r is Some <==> self is _Some,
            self is _Some ==> f.ensures((self->_Some_0,), r.unwrap()),
    {
        match self {
            _Some(t) => Some(f(t)),
            _None => None,
        }
    }
}

/// The name a generic parameter declares.
pub open spec fn generic_param_name(p: InputGenericParam) -> Seq<char> {
    match p {
        InputGenericParam::Lifetime(l) => l.lifetime@,
        InputGenericParam::Type(t) => t.ident@,
        InputGenericParam::Const(c) => c.ident@,
    }
}

/// A validated generic header: the parameter list together with the
/// where-clause that accompanies it.
#[derive(Debug)]
pub struct SaneGenerics {
    pub input: InputGenerics,
    pub where_clause: Optional<WhereClause>,
}

/// Pair a parameter list with its where-clause.  A where-clause on a
/// declaration without a generic-parameter list is rejected.
pub fn sanitize_generics(generics: Optional<InputGenerics>, where_clause: Optional<WhereClause>)
    -> (r: Result<Optional<SaneGenerics>, Error>)
    ensures
        match r {
            Ok(sane) => generics is _Some ==> {
                &&& sane is _Some
                &&& sane->_Some_0.input == generics->_Some_0
                &&& sane->_Some_0.where_clause == where_clause
            },
            Err(e) => e == Error::WhereClauseWithoutGenerics,
        },
        (r is Err) <==> (generics is _None && where_clause is _Some),
        (generics is _None && where_clause is _None) ==> r == Result::<
            Optional<SaneGenerics>,
            Error,
        >::Ok(_None),
{
    match (generics, where_clause) {
        (_Some(input), wc) => Ok(_Some(SaneGenerics { input, where_clause: wc })),
        (_None, _Some(wc)) => Err(Error::WhereClauseWithoutGenerics),
        (_None, _None) => Ok(_None),
    }
}

impl SaneGenerics {
    /// The argument list that re-applies this header: the bare name of each
    /// parameter, in declaration order.
    pub fn stream_args_list(&self) -> (r: Vec<String>)
        ensures
            r@.len() == self.input.params@.len(),
            forall|i: int|
                0 <= i < r@.len() ==> (#[trigger] r@[i])@ == generic_param_name(
                    self.input.params@[i],
                ),
    {
        let mut out: Vec<String> = Vec::new();
        let mut i: usize = 0;
        while i < self.input.params.len()
            invariant
                0 <= i <= self.input.params.len(),
                out@.len() == i,
                forall|j: int|
                    0 <= j < i ==> (#[trigger] out@[j])@ == generic_param_name(
                        self.input.params@[j],
                    ),
            decreases self.input.params.len() - i,
        {
            let name = match &self.input.params[i] {
                InputGenericParam::Lifetime(l) => l.lifetime.clone(),
                InputGenericParam::Type(t) => t.ident.clone(),
                InputGenericParam::Const(c) => c.ident.clone(),
            };
            out.push(name);
            i += 1;
        }
        out
    }
}

impl Optional<SaneGenerics> {
    /// As `SaneGenerics::stream_args_list`; an absent header has no
    /// arguments.
    pub fn stream_args_list(&self) -> (r: Vec<String>)
        ensures
            match self {
                _Some(g) => {
                    &&& r@.len() == g.input.params@.len()
                    &&& forall|i: int|
                        0 <= i < r@.len() ==> (#[trigger] r@[i])@ == generic_param_name(
                            g.input.params@[i],
                        )
                },
                _None => r@.len() == 0,
            },
    {
        match self {
            _Some(g) => g.stream_args_list(),
            _None => Vec::new(),
        }
    }

    /// Split into the parameter list and the where-clause.
    pub fn into_pair(self) -> (r: (Optional<InputGenerics>, Optional<WhereClause>))
        ensures
            match self {
                _Some(g) => r.0 is _Some && r.0->_Some_0 == g.input && r.1 == g.where_clause,
                _None => r.0 is _None && r.1 is _None,
            },
    {
        match self {
            _Some(g) => (_Some(g.input), g.where_clause),
            _None => (_None, _None),
        }
    }

    /// As `into_pair`, borrowing.
    pub fn as_pair(&self) -> (r: (Optional<&InputGenerics>, Optional<&WhereClause>))
        ensures
            match self {
                _Some(g) => {
                    &&& r.0 is _Some && r.0->_Some_0 == &g.input
                    &&& (r.1 is _Some <==> g.where_clause is _Some)
                    &&& g.where_clause is _Some ==> r.1->_Some_0 == &g.where_clause->_Some_0
                },
                _None => r.0 is _None && r.1 is _None,
            },
    {
        match self {
            _Some(g) => (_Some(&g.input), g.where_clause.as_ref()),
            _None => (_None, _None),
        }
    }
}

} // verus!
