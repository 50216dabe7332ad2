//! The five buckets of a structural identifier classification, together with
//! their mathematical model.
//!
//! A classification walk sorts every name that occurs in a piece of the
//! grammar into one of five buckets: types, traits, lifetimes, constants and
//! ambiguous path heads.  The buckets are not mutually exclusive, except for
//! the ambiguous bucket, which is strictly provisional: a post-pass drains
//! from it every name that some other bucket (lifetimes aside) has settled.

use vstd::prelude::*;

verus! {

/// Mathematical model of a classification result: five sets of names, each
/// name being a sequence of characters.
#[verifier::ext_equal]
pub ghost struct IdentSets {
    pub tys: Set<Seq<char>>,
    pub traits: Set<Seq<char>>,
    pub lifetimes: Set<Seq<char>>,
    pub constants: Set<Seq<char>>,
    pub ambiguous: Set<Seq<char>>,
}

impl IdentSets {
    pub open spec fn empty() -> IdentSets {
        IdentSets {
            tys: Set::empty(),
            traits: Set::empty(),
            lifetimes: Set::empty(),
            constants: Set::empty(),
            ambiguous: Set::empty(),
        }
    }

    /// Bucket-wise union: the classification of a node is the merge of the
    /// classifications of its parts.
    pub open spec fn merge(self, other: IdentSets) -> IdentSets {
        IdentSets {
            tys: self.tys.union(other.tys),
            traits: self.traits.union(other.traits),
            lifetimes: self.lifetimes.union(other.lifetimes),
            constants: self.constants.union(other.constants),
            ambiguous: self.ambiguous.union(other.ambiguous),
        }
    }

    pub open spec fn ty(name: Seq<char>) -> IdentSets {
        IdentSets { tys: set![name], ..IdentSets::empty() }
    }

    pub open spec fn trait_name(name: Seq<char>) -> IdentSets {
        IdentSets { traits: set![name], ..IdentSets::empty() }
    }

    pub open spec fn lifetime(name: Seq<char>) -> IdentSets {
        IdentSets { lifetimes: set![name], ..IdentSets::empty() }
    }

    pub open spec fn constant(name: Seq<char>) -> IdentSets {
        IdentSets { constants: set![name], ..IdentSets::empty() }
    }

    pub open spec fn ambiguous_path(name: Seq<char>) -> IdentSets {
        IdentSets { ambiguous: set![name], ..IdentSets::empty() }
    }

    /// The names that settle an ambiguous path head: anything classified as a
    /// type, a trait or a constant.  Lifetimes never take part, since a path
    /// can never spell a lifetime.
    pub open spec fn solved(self) -> Set<Seq<char>> {
        self.tys.union(self.traits).union(self.constants)
    }

    /// The reconciliation post-pass: every settled name leaves the ambiguous
    /// bucket; the other four buckets stay as they are.
    pub open spec fn reconciled(self) -> IdentSets {
        IdentSets { ambiguous: self.ambiguous.difference(self.solved()), ..self }
    }
}

pub proof fn lemma_merge_empty(a: IdentSets)
    ensures
        a.merge(IdentSets::empty()) == a,
        IdentSets::empty().merge(a) == a,
{
    assert(a.merge(IdentSets::empty()) =~= a);
    assert(IdentSets::empty().merge(a) =~= a);
}

/// Reconciliation settles every provisional name exactly once: a name that
/// the type, trait or constant bucket holds leaves the ambiguous bucket and
/// stays only where it was settled; the four definite buckets never change;
/// a provisional name that nothing settles stays provisional.
pub proof fn lemma_reconcile_settles(s: IdentSets, name: Seq<char>)
    ensures
        s.reconciled().tys == s.tys,
        s.reconciled().traits == s.traits,
        s.reconciled().lifetimes == s.lifetimes,
        s.reconciled().constants == s.constants,
        s.solved().contains(name) ==> !s.reconciled().ambiguous.contains(name),
        s.ambiguous.contains(name) && !s.solved().contains(name) ==> s.reconciled(
        ).ambiguous.contains(name),
{
}

/// The set of names held by a vector of strings.
pub open spec fn strset(v: Seq<String>) -> Set<Seq<char>> {
    Set::new(|s: Seq<char>| exists|i: int| 0 <= i < v.len() && v[i]@ == s)
}

/// Executable classification result: one vector of names per bucket.  The
/// vectors are kept free of duplicates by inserting only absent names, but
/// the model of each bucket is the plain set of the names it holds.
#[derive(Debug)]
pub struct IdentMap {
    pub tys: Vec<String>,
    pub traits: Vec<String>,
    pub lifetimes: Vec<String>,
    pub constants: Vec<String>,
    pub ambiguous_paths: Vec<String>,
}

impl View for IdentMap {
    type V = IdentSets;

    open spec fn view(&self) -> IdentSets {
        IdentSets {
            tys: strset(self.tys@),
            traits: strset(self.traits@),
            lifetimes: strset(self.lifetimes@),
            constants: strset(self.constants@),
            ambiguous: strset(self.ambiguous_paths@),
        }
    }
}

/// Whether some entry of `v` spells the name `id`.
fn vec_contains_name(v: &Vec<String>, id: &String) -> (r: bool)
    ensures
        r == strset(v@).contains(id@),
{
    let mut i: usize = 0;
    while i < v.len()
        invariant
            0 <= i <= v.len(),
            forall|j: int| 0 <= j < i ==> v@[j]@ != id@,
        decreases v.len() - i,
    {
        if v[i] == *id {
            assert(strset(v@).contains(id@));
            return true;
        }
        i += 1;
    }
    assert(!strset(v@).contains(id@));
    false
}

/// Insert `id` into `v` unless it is already present, so that the set of
/// names held by `v` grows by exactly `id`.
fn vec_insert_name(v: &mut Vec<String>, id: &String)
    ensures
        strset(final(v)@) == strset(old(v)@).insert(id@),
{
    let present = vec_contains_name(v, id);
    if !present {
        let ghost v0 = v@;
        v.push(id.clone());
        assert forall|s: Seq<char>| strset(v@).contains(s) <==> strset(v0).insert(id@).contains(
            s,
        ) by {
            if strset(v@).contains(s) {
                let i = choose|i: int| 0 <= i < v@.len() && v@[i]@ == s;
                if i < v0.len() {
                    assert(strset(v0).contains(s));
                } else {
                    assert(s == id@);
                }
            }
            if strset(v0).contains(s) {
                let i = choose|i: int| 0 <= i < v0.len() && v0[i]@ == s;
                assert(v@[i]@ == s);
            }
            if s == id@ {
                assert(v@[v@.len() - 1]@ == s);
            }
        }
        assert(strset(v@) =~= strset(v0).insert(id@));
    } else {
        assert(strset(v@) =~= strset(v@).insert(id@));
    }
}

impl IdentMap {
    /// A classification with every bucket empty.
    pub fn empty() -> (m: IdentMap)
        ensures
            m@ == IdentSets::empty(),
    {
        let m = IdentMap {
            tys: Vec::new(),
            traits: Vec::new(),
            lifetimes: Vec::new(),
            constants: Vec::new(),
            ambiguous_paths: Vec::new(),
        };
        proof {
            assert(m@ =~~= IdentSets::empty());
        }
        m
    }

    pub fn insert_ty(&mut self, id: &String)
        ensures
            final(self)@ == old(self)@.merge(IdentSets::ty(id@)),
    {
        vec_insert_name(&mut self.tys, id);
        proof {
            assert(self@ =~~= old(self)@.merge(IdentSets::ty(id@)));
        }
    }

    pub fn insert_trait(&mut self, id: &String)
        ensures
            final(self)@ == old(self)@.merge(IdentSets::trait_name(id@)),
    {
        vec_insert_name(&mut self.traits, id);
        proof {
            assert(self@ =~~= old(self)@.merge(IdentSets::trait_name(id@)));
        }
    }

    pub fn insert_lifetime(&mut self, id: &String)
        ensures
            final(self)@ == old(self)@.merge(IdentSets::lifetime(id@)),
    {
        vec_insert_name(&mut self.lifetimes, id);
        proof {
            assert(self@ =~~= old(self)@.merge(IdentSets::lifetime(id@)));
        }
    }

    pub fn insert_constant(&mut self, id: &String)
        ensures
            final(self)@ == old(self)@.merge(IdentSets::constant(id@)),
    {
        vec_insert_name(&mut self.constants, id);
        proof {
            assert(self@ =~~= old(self)@.merge(IdentSets::constant(id@)));
        }
    }

    pub fn insert_ambiguous(&mut self, id: &String)
        ensures
            final(self)@ == old(self)@.merge(IdentSets::ambiguous_path(id@)),
    {
        vec_insert_name(&mut self.ambiguous_paths, id);
        proof {
            assert(self@ =~~= old(self)@.merge(IdentSets::ambiguous_path(id@)));
        }
    }

    pub fn contains_ty(&self, id: &String) -> (r: bool)
        ensures
            r == self@.tys.contains(id@),
    {
        vec_contains_name(&self.tys, id)
    }

    pub fn contains_trait(&self, id: &String) -> (r: bool)
        ensures
            r == self@.traits.contains(id@),
    {
        vec_contains_name(&self.traits, id)
    }

    pub fn contains_lifetime(&self, id: &String) -> (r: bool)
        ensures
            r == self@.lifetimes.contains(id@),
    {
        vec_contains_name(&self.lifetimes, id)
    }

    pub fn contains_constant(&self, id: &String) -> (r: bool)
        ensures
            r == self@.constants.contains(id@),
    {
        vec_contains_name(&self.constants, id)
    }

    pub fn contains_ambiguous(&self, id: &String) -> (r: bool)
        ensures
            r == self@.ambiguous.contains(id@),
    {
        vec_contains_name(&self.ambiguous_paths, id)
    }

    /// The reconciliation post-pass: drop from the ambiguous bucket every
    /// name that the type, trait or constant bucket has settled.  Lifetimes
    /// are not consulted, since a path never spells a lifetime.
    pub fn filter_solved_ambiguous(&mut self)
        ensures
            final(self)@ == old(self)@.reconciled(),
    {
        let mut kept: Vec<String> = Vec::new();
        let mut i: usize = 0;
        while i < self.ambiguous_paths.len()
            invariant
                0 <= i <= self.ambiguous_paths.len(),
                self.tys@ == old(self).tys@,
                self.traits@ == old(self).traits@,
                self.constants@ == old(self).constants@,
                self.lifetimes@ == old(self).lifetimes@,
                self.ambiguous_paths@ == old(self).ambiguous_paths@,
                forall|s: Seq<char>|
                    strset(kept@).contains(s) <==> exists|j: int|
                        0 <= j < i && self.ambiguous_paths@[j]@ == s && !old(
                            self,
                        )@.solved().contains(s),
            decreases self.ambiguous_paths.len() - i,
        {
            let id = &self.ambiguous_paths[i];
            let in_tys = vec_contains_name(&self.tys, id);
            let in_traits = vec_contains_name(&self.traits, id);
            let in_consts = vec_contains_name(&self.constants, id);
            if !(in_tys || in_traits || in_consts) {
                vec_insert_name(&mut kept, id);
            }
            i += 1;
        }
        self.ambiguous_paths = kept;
        proof {
            assert(self@ =~~= old(self)@.reconciled());
        }
    }
}

} // verus!
