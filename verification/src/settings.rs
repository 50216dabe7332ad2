//! The per-declaration configuration.
//!
//! A declaration is configured by a list of settings: variant extraction
//! (with attributes to forward onto each extracted type), the two conversion
//! directions, and the shorthand that turns both on.  Each setting may be
//! given once; the shorthand next to either direction is a configuration
//! conflict naming both sites.

use vstd::prelude::*;

use crate::errors::Error;
use crate::generics::{Optional, _None, _Some};

verus! {

/// `derive(path, path, ...)`: derives to add onto each extracted type.
#[derive(Debug)]
pub struct SettingDerive {
    pub paths: Vec<String>,
}

/// `attrs(meta, meta, ...)`: attributes to add onto each extracted type,
/// each kept as opaque text.
#[derive(Debug)]
pub struct SettingAttrs {
    pub attrs: Vec<String>,
}

/// One item inside `extract_variants(...)`.
#[derive(Debug)]
pub enum ExtractVariantsAttr {
    /// Forward the enclosing declaration's derives onto each extracted
    /// type.
    InheritEnumDerives,
    Attrs(SettingAttrs),
    Derive(SettingDerive),
}

/// The raw extraction setting, with its optional attribute list.
#[derive(Debug)]
pub struct SettingExtractVariants {
    pub attrs: Optional<Vec<ExtractVariantsAttr>>,
}

/// One raw setting.
#[derive(Debug)]
pub enum Setting {
    ExtractVariants(SettingExtractVariants),
    /// Fallible conversions from the sum type to each variant's type.
    ImplVariantsTryFromEnum,
    /// Total conversions from each variant's type into the sum type.
    ImplEnumFromVars,
    /// Shorthand for both directions.
    ImplConversions,
}

/// One attribute to emit onto each extracted type.
#[derive(Debug)]
pub enum EmitAttr {
    /// Opaque attribute text, forwarded as given.
    Plain(String),
    /// A derive list, gathered from a `derive(...)` setting.
    DeriveList(Vec<String>),
}

/// The validated extraction setting.
#[derive(Debug)]
pub struct SaneSettingExtractVariants {
    pub attrs: Vec<EmitAttr>,
    pub enum_derives: bool,
}

/// The validated configuration.
#[derive(Debug)]
pub struct Settings {
    pub extract_variants: Optional<SaneSettingExtractVariants>,
    pub enum_try_into_variants: bool,
    pub variants_into_enum: bool,
    pub conversions: bool,
}

impl Settings {
    /// Whether the sum-to-variant direction is requested, directly or by
    /// the shorthand.
    pub fn should_impl_enum_try_into_variants(&self) -> (r: bool)
        ensures
            r == (self.enum_try_into_variants || self.conversions),
    {
        self.enum_try_into_variants || self.conversions
    }

    /// Whether the variant-to-sum direction is requested, directly or by
    /// the shorthand.
    pub fn should_impl_variants_into_enum(&self) -> (r: bool)
        ensures
            r == (self.variants_into_enum || self.conversions),
    {
        self.variants_into_enum || self.conversions
    }
}

/// Positions of the inherit-derives items in an extraction attribute list.
pub open spec fn inherit_indices(attrs: Seq<ExtractVariantsAttr>, n: int) -> Seq<int>
    decreases n,
{
    if n <= 0 || n > attrs.len() {
        Seq::empty()
    } else {
        inherit_indices(attrs, n - 1) + if attrs[n - 1] is InheritEnumDerives {
            seq![n - 1]
        } else {
            Seq::empty()
        }
    }
}

/// The attributes an extraction attribute list contributes, in order.
pub open spec fn extract_attrs_of(attrs: Seq<ExtractVariantsAttr>, n: int) -> Seq<EmitAttr>
    decreases n,
{
    if n <= 0 || n > attrs.len() {
        Seq::empty()
    } else {
        extract_attrs_of(attrs, n - 1) + match attrs[n - 1] {
            ExtractVariantsAttr::InheritEnumDerives => Seq::empty(),
            ExtractVariantsAttr::Attrs(sa) => sa.attrs@.map_values(|s: String| EmitAttr::Plain(s)),
            ExtractVariantsAttr::Derive(sd) => seq![EmitAttr::DeriveList(sd.paths)],
        }
    }
}

/// What validating the raw extraction setting produces.
pub open spec fn sane_extract_of(input: SettingExtractVariants, out: SaneSettingExtractVariants)
    -> bool {
    match input.attrs {
        _Some(list) => {
            &&& out.attrs@ == extract_attrs_of(list@, list@.len() as int)
            &&& out.enum_derives == (inherit_indices(list@, list@.len() as int).len() >= 1)
        },
        _None => out.attrs@.len() == 0 && !out.enum_derives,
    }
}

/// Whether the raw extraction setting is invalid: the inherit-derives item
/// given twice.
pub open spec fn extract_invalid(input: SettingExtractVariants) -> bool {
    match input.attrs {
        _Some(list) => inherit_indices(list@, list@.len() as int).len() >= 2,
        _None => false,
    }
}

/// The conflict an invalid extraction setting is rejected with: the two
/// positions of the inherit-derives item.
pub open spec fn extract_error(input: SettingExtractVariants) -> Error {
    let list = input.attrs->_Some_0;
    Error::ConfigConflict {
        first: inherit_indices(list@, list@.len() as int)[0] as usize,
        second: inherit_indices(list@, list@.len() as int)[1] as usize,
    }
}

proof fn lemma_inherit_prefix(attrs: Seq<ExtractVariantsAttr>, m: int, n: int)
    requires
        0 <= m <= n <= attrs.len(),
    ensures
        inherit_indices(attrs, n).len() >= inherit_indices(attrs, m).len(),
        forall|k: int|
            0 <= k < inherit_indices(attrs, m).len() ==> #[trigger] inherit_indices(attrs, n)[k]
                == inherit_indices(attrs, m)[k],
    decreases n - m,
{
    if m < n {
        lemma_inherit_prefix(attrs, m, n - 1);
        assert forall|k: int| 0 <= k < inherit_indices(attrs, m).len() implies
            #[trigger] inherit_indices(attrs, n)[k] == inherit_indices(attrs, m)[k] by {
            assert(inherit_indices(attrs, n)[k] == inherit_indices(attrs, n - 1)[k]);
        }
    }
}

/// Validate the raw extraction setting: gather the attributes to forward,
/// note whether the enclosing derives are inherited, and reject a second
/// inherit-derives item, naming both.
pub fn sanitize_extract_variants(input: SettingExtractVariants) -> (r: Result<
    SaneSettingExtractVariants,
    Error,
>)
    ensures
        r is Err <==> extract_invalid(input),
        match r {
            Ok(sane) => sane_extract_of(input, sane),
            Err(e) => e == extract_error(input),
        },
{
    let SettingExtractVariants { attrs: attrs_in } = input;
    let list = match attrs_in {
        _Some(list) => list,
        _None => {
            return Ok(SaneSettingExtractVariants { attrs: Vec::new(), enum_derives: false });
        },
    };
    let ghost orig = list@;
    proof {
        assert(input.attrs is _Some && input.attrs->_Some_0@ == orig);
    }
    let n0 = list.len();
    proof {
        assert(orig.len() == n0);
    }
    let mut list = list;
    let mut out: Vec<EmitAttr> = Vec::new();
    let mut inherit: Option<usize> = None;
    proof {
        assert(list@ =~= orig.skip(0));
        assert(out@ =~= extract_attrs_of(orig, 0));
    }
    let mut k: usize = 0;
    while list.len() > 0
        invariant
            0 <= k <= orig.len(),
            orig.len() <= usize::MAX,
            input.attrs is _Some && input.attrs->_Some_0@ == orig,
            list@ == orig.skip(k as int),
            out@ == extract_attrs_of(orig, k as int),
            match inherit {
                Some(j) => inherit_indices(orig, k as int) == seq![j as int],
                None => inherit_indices(orig, k as int) == Seq::<int>::empty(),
            },
        decreases list.len(),
    {
        let ghost kk = k as int;
        proof {
            assert(list@.len() == orig.len() - kk);
            assert(kk < orig.len());
        }
        let item = list.remove(0);
        proof {
            assert(item == orig[kk]);
        }
        match item {
            ExtractVariantsAttr::InheritEnumDerives => {
                match inherit {
                    Some(j) => {
                        proof {
                            lemma_inherit_prefix(orig, kk + 1, orig.len() as int);
                            assert(inherit_indices(orig, kk + 1) =~= seq![j as int, kk]);
                            assert(inherit_indices(orig, orig.len() as int).len() >= 2);
                            assert(input.attrs->_Some_0@ == orig);
                            assert(extract_invalid(input));
                            assert(inherit_indices(orig, orig.len() as int)[0] == j as int);
                            assert(inherit_indices(orig, orig.len() as int)[1] == kk);
                        }
                        return Err(Error::ConfigConflict { first: j, second: k });
                    },
                    None => {
                        inherit = Some(k);
                        proof {
                            assert(inherit_indices(orig, kk + 1) =~= seq![kk]);
                            assert(out@ =~= extract_attrs_of(orig, kk + 1));
                        }
                    },
                }
            },
            ExtractVariantsAttr::Attrs(sa) => {
                let ghost base = out@;
                let ghost va = sa.attrs@;
                let mut v = sa.attrs;
                proof {
                    assert(v@ =~= va.skip(0));
                    assert(out@ =~= base + va.take(0).map_values(|s: String| EmitAttr::Plain(s)));
                }
                while v.len() > 0
                    invariant
                        v@.len() <= va.len(),
                        v@ == va.skip(va.len() - v@.len()),
                        out@ == base + va.take(va.len() - v@.len()).map_values(
                            |s: String| EmitAttr::Plain(s),
                        ),
                    decreases v.len(),
                {
                    let ghost done = va.len() - v@.len();
                    let s = v.remove(0);
                    proof {
                        assert(s == va[done]);
                    }
                    out.push(EmitAttr::Plain(s));
                    proof {
                        assert(v@ =~= va.skip(va.len() - v@.len()));
                        assert(out@ =~= base + va.take(done + 1).map_values(
                            |s: String| EmitAttr::Plain(s),
                        ));
                    }
                }
                proof {
                    assert(va.take(va.len() as int) =~= va);
                    assert(out@ =~= extract_attrs_of(orig, kk + 1));
                    match inherit {
                        Some(j) => {
                            assert(inherit_indices(orig, kk + 1) =~= seq![j as int]);
                        },
                        None => {
                            assert(inherit_indices(orig, kk + 1) =~= Seq::<int>::empty());
                        },
                    }
                }
            },
            ExtractVariantsAttr::Derive(sd) => {
                out.push(EmitAttr::DeriveList(sd.paths));
                proof {
                    assert(out@ =~= extract_attrs_of(orig, kk + 1));
                    match inherit {
                        Some(j) => {
                            assert(inherit_indices(orig, kk + 1) =~= seq![j as int]);
                        },
                        None => {
                            assert(inherit_indices(orig, kk + 1) =~= Seq::<int>::empty());
                        },
                    }
                }
            },
        }
        k += 1;
    }
    Ok(SaneSettingExtractVariants { attrs: out, enum_derives: inherit.is_some() })
}

/// A small tag telling the four setting kinds apart.
pub open spec fn kind_of(s: Setting) -> int {
    match s {
        Setting::ExtractVariants(_) => 0,
        Setting::ImplVariantsTryFromEnum => 1,
        Setting::ImplEnumFromVars => 2,
        Setting::ImplConversions => 3,
    }
}

/// The first position among `n` holding a setting of kind `kind`.
pub open spec fn first_of_kind(items: Seq<Setting>, kind: int, n: int) -> Option<int>
    decreases n,
{
    if n <= 0 || n > items.len() {
        None
    } else {
        match first_of_kind(items, kind, n - 1) {
            Some(j) => Some(j),
            None => if kind_of(items[n - 1]) == kind {
                Some(n - 1)
            } else {
                None
            },
        }
    }
}

/// Whether the walk over the settings stops at position `k`: an invalid
/// extraction setting, or a second setting of a kind already given.
pub open spec fn settings_bad_at(items: Seq<Setting>, k: int) -> bool {
    ||| (items[k] is ExtractVariants && extract_invalid(items[k]->ExtractVariants_0))
    ||| first_of_kind(items, kind_of(items[k]), k) is Some
}

/// The first position the walk over the settings stops at, if any.
pub open spec fn first_bad_setting(items: Seq<Setting>, n: int) -> Option<int>
    decreases n,
{
    if n <= 0 || n > items.len() {
        None
    } else {
        match first_bad_setting(items, n - 1) {
            Some(k) => Some(k),
            None => if settings_bad_at(items, n - 1) {
                Some(n - 1)
            } else {
                None
            },
        }
    }
}

/// Whether the shorthand stands next to either single direction — a
/// conflict even when every setting on its own is in order.
pub open spec fn settings_end_conflict(items: Seq<Setting>) -> bool {
    let n = items.len() as int;
    first_of_kind(items, 3, n) is Some && (first_of_kind(items, 2, n) is Some || first_of_kind(
        items,
        1,
        n,
    ) is Some)
}

/// Whether a settings list is rejected.
pub open spec fn settings_rejected(items: Seq<Setting>) -> bool {
    first_bad_setting(items, items.len() as int) is Some || settings_end_conflict(items)
}

/// The conflict a rejected settings list is rejected with, both sites
/// named.
pub open spec fn settings_error_of(items: Seq<Setting>) -> Error {
    let n = items.len() as int;
    match first_bad_setting(items, n) {
        Some(k) => {
            if items[k] is ExtractVariants && extract_invalid(items[k]->ExtractVariants_0) {
                extract_error(items[k]->ExtractVariants_0)
            } else {
                Error::ConfigConflict {
                    first: first_of_kind(items, kind_of(items[k]), k).unwrap() as usize,
                    second: k as usize,
                }
            }
        },
        None => {
            let conv = first_of_kind(items, 3, n).unwrap();
            if first_of_kind(items, 2, n) is Some {
                Error::ConfigConflict {
                    first: first_of_kind(items, 2, n).unwrap() as usize,
                    second: conv as usize,
                }
            } else {
                Error::ConfigConflict {
                    first: first_of_kind(items, 1, n).unwrap() as usize,
                    second: conv as usize,
                }
            }
        },
    }
}

/// What an accepted settings list configures.
pub open spec fn settings_accepted(items: Seq<Setting>, s: Settings) -> bool {
    let n = items.len() as int;
    &&& s.conversions == (first_of_kind(items, 3, n) is Some)
    &&& s.variants_into_enum == (first_of_kind(items, 2, n) is Some)
    &&& s.enum_try_into_variants == (first_of_kind(items, 1, n) is Some)
    &&& match s.extract_variants {
        _Some(sane) => first_of_kind(items, 0, n) is Some && sane_extract_of(
            items[first_of_kind(items, 0, n).unwrap()]->ExtractVariants_0,
            sane,
        ),
        _None => first_of_kind(items, 0, n) is None,
    }
}

proof fn lemma_first_of_kind_stable(items: Seq<Setting>, kind: int, m: int, n: int)
    requires
        0 <= m <= n <= items.len(),
        first_of_kind(items, kind, m) is Some,
    ensures
        first_of_kind(items, kind, n) == first_of_kind(items, kind, m),
    decreases n - m,
{
    if m < n {
        lemma_first_of_kind_stable(items, kind, m, n - 1);
    }
}

proof fn lemma_first_bad_setting_extend(items: Seq<Setting>, k: int, n: int)
    requires
        0 <= k < n <= items.len(),
        first_bad_setting(items, k) is None,
        settings_bad_at(items, k),
    ensures
        first_bad_setting(items, n) == Some(k),
    decreases n,
{
    if n == k + 1 {
    } else {
        lemma_first_bad_setting_extend(items, k, n - 1);
    }
}

/// Validate a settings list.  Each setting may be given once; the
/// shorthand next to either single direction is a conflict; both sites are
/// always named.
pub fn parse_settings(items: Vec<Setting>) -> (r: Result<Settings, Error>)
    ensures
        r is Err <==> settings_rejected(items@),
        match r {
            Ok(s) => settings_accepted(items@, s),
            Err(e) => e == settings_error_of(items@),
        },
{
    let ghost orig = items@;
    let n0 = items.len();
    let mut work = items;
    let mut extract: Optional<SaneSettingExtractVariants> = _None;
    let mut seen_extract: Option<usize> = None;
    let mut seen_try_into: Option<usize> = None;
    let mut seen_into_enum: Option<usize> = None;
    let mut seen_conv: Option<usize> = None;
    proof {
        assert(items@ =~= orig.skip(0));
    }
    let mut k: usize = 0;
    while work.len() > 0
        invariant
            0 <= k <= orig.len(),
            orig.len() == n0,
            orig == items@,
            work@ == orig.skip(k as int),
            first_bad_setting(orig, k as int) is None,
            match seen_extract {
                Some(j) => first_of_kind(orig, 0, k as int) == Some(j as int),
                None => first_of_kind(orig, 0, k as int) is None,
            },
            match seen_try_into {
                Some(j) => first_of_kind(orig, 1, k as int) == Some(j as int),
                None => first_of_kind(orig, 1, k as int) is None,
            },
            match seen_into_enum {
                Some(j) => first_of_kind(orig, 2, k as int) == Some(j as int),
                None => first_of_kind(orig, 2, k as int) is None,
            },
            match seen_conv {
                Some(j) => first_of_kind(orig, 3, k as int) == Some(j as int),
                None => first_of_kind(orig, 3, k as int) is None,
            },
            match (seen_extract, extract) {
                (Some(j), _Some(sane)) => sane_extract_of(
                    orig[j as int]->ExtractVariants_0,
                    sane,
                ),
                (None, _None) => true,
                _ => false,
            },
        decreases work.len(),
    {
        let ghost kk = k as int;
        proof {
            assert(work@.len() == orig.len() - kk);
        }
        let item = work.remove(0);
        proof {
            assert(item == orig[kk]);
        }
        match item {
            Setting::ExtractVariants(ev) => {
                proof {
                    assert(orig[kk] is ExtractVariants);
                    assert(orig[kk]->ExtractVariants_0 == ev);
                }
                let sane = match sanitize_extract_variants(ev) {
                    Ok(sane) => sane,
                    Err(e) => {
                        proof {
                            assert(settings_bad_at(orig, kk));
                            lemma_first_bad_setting_extend(orig, kk, orig.len() as int);
                        }
                        return Err(e);
                    },
                };
                match seen_extract {
                    Some(j) => {
                        proof {
                            assert(settings_bad_at(orig, kk));
                            lemma_first_bad_setting_extend(orig, kk, orig.len() as int);
                        }
                        return Err(Error::ConfigConflict { first: j, second: k });
                    },
                    None => {
                        seen_extract = Some(k);
                        extract = _Some(sane);
                    },
                }
            },
            Setting::ImplVariantsTryFromEnum => {
                match seen_try_into {
                    Some(j) => {
                        proof {
                            assert(settings_bad_at(orig, kk));
                            lemma_first_bad_setting_extend(orig, kk, orig.len() as int);
                        }
                        return Err(Error::ConfigConflict { first: j, second: k });
                    },
                    None => {
                        seen_try_into = Some(k);
                    },
                }
            },
            Setting::ImplEnumFromVars => {
                match seen_into_enum {
                    Some(j) => {
                        proof {
                            assert(settings_bad_at(orig, kk));
                            lemma_first_bad_setting_extend(orig, kk, orig.len() as int);
                        }
                        return Err(Error::ConfigConflict { first: j, second: k });
                    },
                    None => {
                        seen_into_enum = Some(k);
                    },
                }
            },
            Setting::ImplConversions => {
                match seen_conv {
                    Some(j) => {
                        proof {
                            assert(settings_bad_at(orig, kk));
                            lemma_first_bad_setting_extend(orig, kk, orig.len() as int);
                        }
                        return Err(Error::ConfigConflict { first: j, second: k });
                    },
                    None => {
                        seen_conv = Some(k);
                    },
                }
            },
        }
        proof {
            assert(work@ =~= orig.skip(kk + 1));
        }
        k += 1;
    }
    match (seen_conv, seen_into_enum, seen_try_into) {
        (Some(conv), Some(j), _) => {
            return Err(Error::ConfigConflict { first: j, second: conv });
        },
        (Some(conv), None, Some(j)) => {
            return Err(Error::ConfigConflict { first: j, second: conv });
        },
        _ => (),
    }
    Ok(
        Settings {
            extract_variants: extract,
            enum_try_into_variants: seen_try_into.is_some(),
            variants_into_enum: seen_into_enum.is_some(),
            conversions: seen_conv.is_some(),
        },
    )
}

} // verus!
