//! Attribute parsing for the `skip` and `skip_inner` options.

use vstd::prelude::*;

use crate::error::{
    err, msg_option_duplicate, msg_option_empty, msg_option_skip_all, msg_option_skip_duplicate,
    msg_option_skip_inner, msg_option_skip_no_trait, msg_option_skip_support,
    msg_option_skip_trait, msg_option_syntax, msg_skip_group, DeriveError, ErrV, Error,
};
use crate::meta::{
    meta_wf, parse_meta_list, span_at, span_of, spec_parse_meta_list, Meta, MetaPath, MetaV, PathV,
};
use crate::util::str_eq;
use crate::model::Tok;
use crate::trait_::{any_skippable, any_supports_skip, contains_trait, Features, Trait};

verus! {

/// A group of traits that are skipped together, so that skipping cannot
/// break what the traits promise of each other.
#[derive(Clone, Copy, PartialEq, Eq, Structural)]
pub enum SkipGroup {
    /// `Debug`.
    Debug,
    /// `Eq`, `Hash`, `Ord`, `PartialEq` and `PartialOrd`.
    EqHashOrd,
    /// `Hash`.
    Hash,
    /// `Zeroize` and `ZeroizeOnDrop`.
    Zeroize,
}

impl SkipGroup {
    /// The name of the group as written in a `skip` option.
    pub open spec fn name(self) -> Seq<char> {
        match self {
            SkipGroup::Debug => "Debug"@,
            SkipGroup::EqHashOrd => "EqHashOrd"@,
            SkipGroup::Hash => "Hash"@,
            SkipGroup::Zeroize => "Zeroize"@,
        }
    }

    /// Whether the group holds `t`.
    pub open spec fn covers(self, t: Trait) -> bool {
        match self {
            SkipGroup::Debug => t is Debug,
            SkipGroup::EqHashOrd => t is Eq || t is Hash || t is Ord || t is PartialEq
                || t is PartialOrd,
            SkipGroup::Hash => t is Hash,
            SkipGroup::Zeroize => t is Zeroize || t is ZeroizeOnDrop,
        }
    }

    /// A trait the group holds.
    pub open spec fn first_trait(self) -> Trait {
        match self {
            SkipGroup::Debug => Trait::Debug,
            SkipGroup::EqHashOrd => Trait::Eq,
            SkipGroup::Hash => Trait::Hash,
            SkipGroup::Zeroize => Trait::Zeroize,
        }
    }

    /// The group named `name`, if `features` enable it.
    pub open spec fn named(name: Seq<char>, features: Features) -> Option<SkipGroup> {
        if name == "Debug"@ {
            Some(SkipGroup::Debug)
        } else if name == "EqHashOrd"@ {
            Some(SkipGroup::EqHashOrd)
        } else if name == "Hash"@ {
            Some(SkipGroup::Hash)
        } else if features.zeroize && name == "Zeroize"@ {
            Some(SkipGroup::Zeroize)
        } else {
            None
        }
    }

    /// The group named by `path`, which must be a single identifier.
    pub open spec fn spec_from_path(path: PathV, features: Features) -> Result<SkipGroup, ErrV> {
        match path.get_ident() {
            Some(name) => match SkipGroup::named(name, features) {
                Some(g) => Ok(g),
                None => Err(err(path.span, msg_skip_group(features))),
            },
            None => Err(err(path.span, msg_skip_group(features))),
        }
    }

    /// The name of the group.
    pub fn as_str(&self) -> (s: &'static str)
        ensures
            s@ == self.name(),
    {
        match self {
            SkipGroup::Debug => "Debug",
            SkipGroup::EqHashOrd => "EqHashOrd",
            SkipGroup::Hash => "Hash",
            SkipGroup::Zeroize => "Zeroize",
        }
    }

    /// Returns `true` if the group holds `t`.
    pub fn covers_trait(&self, t: &Trait) -> (b: bool)
        ensures
            b == self.covers(*t),
    {
        match self {
            SkipGroup::Debug => *t == Trait::Debug,
            SkipGroup::EqHashOrd => *t == Trait::Eq || *t == Trait::Hash || *t == Trait::Ord
                || *t == Trait::PartialEq || *t == Trait::PartialOrd,
            SkipGroup::Hash => *t == Trait::Hash,
            SkipGroup::Zeroize => *t == Trait::Zeroize || *t == Trait::ZeroizeOnDrop,
        }
    }

    /// Create [`SkipGroup`] from a path.
    pub fn from_path(path: &MetaPath, features: Features) -> (r: Result<SkipGroup, DeriveError>)
        ensures
            match (r, Self::spec_from_path(path@, features)) {
                (Ok(a), Ok(b)) => a == b,
                (Err(a), Err(b)) => a@ == b,
                _ => false,
            },
    {
        if !path.leading_colon && path.segments.len() == 1 {
            let name = path.segments[0].as_str();
            if str_eq(name, "Debug") {
                Ok(SkipGroup::Debug)
            } else if str_eq(name, "EqHashOrd") {
                Ok(SkipGroup::EqHashOrd)
            } else if str_eq(name, "Hash") {
                Ok(SkipGroup::Hash)
            } else if features.zeroize && str_eq(name, "Zeroize") {
                Ok(SkipGroup::Zeroize)
            } else {
                Err(Error::skip_group(path.span, features))
            }
        } else {
            Err(Error::skip_group(path.span, features))
        }
    }
}

/// Some trait among `implemented` is in the group `g`.
pub open spec fn group_implemented(g: SkipGroup, implemented: Seq<Trait>) -> bool {
    exists|k: int| 0 <= k < implemented.len() && g.covers(#[trigger] implemented[k])
}

/// Stores what [`Trait`]s to skip this field or variant for.
pub enum Skip {
    /// Field skipped for no [`Trait`].
    Nothing,
    /// Field skipped for all [`Trait`]s that support it.
    All,
    /// Field skipped for the traits of the groups listed.
    Traits(Vec<SkipGroup>),
}

/// Mathematical value of a [`Skip`].
pub enum SkipV {
    Nothing,
    All,
    Traits(Seq<SkipGroup>),
}

impl View for Skip {
    type V = SkipV;

    open spec fn view(&self) -> SkipV {
        match self {
            Skip::Nothing => SkipV::Nothing,
            Skip::All => SkipV::All,
            Skip::Traits(gs) => SkipV::Traits(gs@),
        }
    }
}

impl SkipV {
    /// Whether `t` is skipped.
    pub open spec fn skips(self, t: Trait) -> bool {
        match self {
            SkipV::Nothing => false,
            SkipV::All => t.skippable(),
            SkipV::Traits(gs) => exists|k: int| 0 <= k < gs.len() && (#[trigger] gs[k]).covers(t),
        }
    }

    /// Whether the whole group `g` is skipped already.
    pub open spec fn skips_group(self, g: SkipGroup) -> bool {
        match self {
            SkipV::Nothing => false,
            SkipV::All => true,
            SkipV::Traits(gs) => gs.contains(g),
        }
    }

    /// Whether anything is skipped.
    pub open spec fn any(self) -> bool {
        !(self is Nothing)
    }

    /// A list of groups is not empty and names each group once.
    pub open spec fn wf(self) -> bool {
        self matches SkipV::Traits(gs) ==> (gs.no_duplicates() && gs.len() > 0)
    }
}

/// Adds the group named by one entry of a `skip( .. )` list.
pub open spec fn skip_step(
    gs: Seq<SkipGroup>,
    m: MetaV,
    implemented: Seq<Trait>,
    inner: Option<SkipV>,
    features: Features,
) -> Result<Seq<SkipGroup>, ErrV> {
    match m {
        MetaV::Path(p) => match SkipGroup::spec_from_path(p, features) {
            Err(e) => Err(e),
            Ok(g) => if gs.contains(g) {
                Err(err(p.span, msg_option_skip_duplicate(g.name())))
            } else if inner matches Some(si) && si.skips_group(g) {
                Err(err(p.span, msg_option_skip_inner()))
            } else if group_implemented(g, implemented) {
                Ok(gs.push(g))
            } else {
                Err(err(p.span, msg_option_skip_trait()))
            },
        },
        _ => Err(err(m.path().span, msg_option_syntax())),
    }
}

/// Adds the traits of `metas[i..]` in order.
pub open spec fn skip_fold(
    ts: Seq<SkipGroup>,
    metas: Seq<MetaV>,
    i: int,
    implemented: Seq<Trait>,
    inner: Option<SkipV>,
    features: Features,
) -> Result<Seq<SkipGroup>, ErrV>
    decreases metas.len() - i,
{
    if i < 0 || i >= metas.len() {
        Ok(ts)
    } else {
        match skip_step(ts, metas[i], implemented, inner, features) {
            Ok(ts2) => skip_fold(ts2, metas, i + 1, implemented, inner, features),
            Err(e) => Err(e),
        }
    }
}

/// The result of adding the option `meta` (read from `toks`) to `s`.
pub open spec fn spec_skip_add(
    s: SkipV,
    implemented: Seq<Trait>,
    inner: Option<SkipV>,
    meta: MetaV,
    toks: Seq<Tok>,
    features: Features,
) -> Result<SkipV, ErrV> {
    match meta {
        MetaV::Path(p) => if s is Nothing {
            if inner matches Some(SkipV::All) {
                Err(err(p.span, msg_option_skip_inner()))
            } else if any_skippable(implemented) {
                Ok(SkipV::All)
            } else {
                Err(err(p.span, msg_option_skip_no_trait()))
            }
        } else {
            Err(err(p.span, msg_option_duplicate(p.segments[0])))
        },
        MetaV::List { path, group } => if group < toks.len() && toks[group as int] is Group {
            let list = toks[group as int]->Group_inner@;
            let gspan = toks[group as int]->Group_span;
            match spec_parse_meta_list(list, 0, gspan) {
                Err(pos) => Err(err(span_at(list, pos, gspan), msg_option_syntax())),
                Ok(metas) => if metas.len() == 0 {
                    Err(err(gspan, msg_option_empty()))
                } else {
                    match s {
                        SkipV::All => Err(err(gspan, msg_option_skip_all())),
                        SkipV::Nothing => match skip_fold(
                            seq![],
                            metas,
                            0,
                            implemented,
                            inner,
                            features,
                        ) {
                            Ok(ts) => Ok(SkipV::Traits(ts)),
                            Err(e) => Err(e),
                        },
                        SkipV::Traits(ts0) => match skip_fold(
                            ts0,
                            metas,
                            0,
                            implemented,
                            inner,
                            features,
                        ) {
                            Ok(ts) => Ok(SkipV::Traits(ts)),
                            Err(e) => Err(e),
                        },
                    }
                },
            }
        } else {
            Err(err(path.span, msg_option_syntax()))
        },
        MetaV::NameValue { path, .. } => Err(err(path.span, msg_option_syntax())),
    }
}

impl core::default::Default for Skip {
    /// A field or variant skips nothing unless an option says otherwise.
    fn default() -> (r: Self)
        ensures
            r@ == SkipV::Nothing,
    {
        Skip::Nothing
    }
}

impl Skip {
    /// Returns `true` if variant is [`Skip::Nothing`].
    pub fn is_none(&self) -> (b: bool)
        ensures
            b == (self@ is Nothing),
    {
        match self {
            Skip::Nothing => true,
            _ => false,
        }
    }

    /// Returns `true` if this item, variant or field is skipped with the given
    /// [`Trait`].
    pub fn skip(&self, trait_: &Trait) -> (b: bool)
        ensures
            b == self@.skips(*trait_),
    {
        match self {
            Skip::Nothing => false,
            Skip::All => trait_.supports_skip(),
            Skip::Traits(groups) => {
                let mut i: usize = 0;
                while i < groups.len()
                    invariant
                        i <= groups@.len(),
                        self@ == SkipV::Traits(groups@),
                        forall|k: int| 0 <= k < i ==> !(#[trigger] groups@[k]).covers(*trait_),
                    decreases groups.len() - i,
                {
                    if groups[i].covers_trait(trait_) {
                        assert(self@.skips(*trait_)) by {
                            let gs = self@->Traits_0;
                            assert(gs == groups@);
                            assert(gs[i as int].covers(*trait_));
                        }
                        return true;
                    }
                    i = i + 1;
                }
                false
            },
        }
    }

    /// Adds a `skip` or `skip_inner` option, read from `toks`, to this
    /// [`Skip`]. `implemented` holds every trait being implemented and
    /// `skip_inner` the option of the parent, if any.
    pub fn add_attribute(
        &mut self,
        implemented: &Vec<Trait>,
        skip_inner: Option<&Skip>,
        meta: &Meta,
        toks: &Vec<Tok>,
        features: Features,
    ) -> (r: Result<(), DeriveError>)
        requires
            meta_wf(meta@, toks@),
        ensures
            match (
                r,
                spec_skip_add(
                    old(self)@,
                    implemented@,
                    match skip_inner {
                        Some(si) => Some(si@),
                        None => None,
                    },
                    meta@,
                    toks@,
                    features,
                ),
            ) {
                (Ok(()), Ok(s)) => final(self)@ == s,
                (Err(a), Err(b)) => a@ == b && final(self)@ == old(self)@,
                _ => false,
            },
    {
        let ghost inner = match skip_inner {
            Some(si) => Some(si@),
            None => None,
        };
        match meta {
            Meta::Path(path) => {
                if self.is_none() {
                    let parent_all = match skip_inner {
                        Some(Skip::All) => true,
                        _ => false,
                    };
                    if parent_all {
                        Err(Error::option_skip_inner(path.span))
                    } else if any_supports_skip(implemented) {
                        *self = Skip::All;
                        Ok(())
                    } else {
                        Err(Error::option_skip_no_trait(path.span))
                    }
                } else {
                    Err(Error::option_duplicate(path.span, path.segments[0].as_str()))
                }
            },
            Meta::List { path, group } => {
                if *group < toks.len() {
                    match &toks[*group] {
                        Tok::Group { inner: list, span: gspan, .. } => {
                            match parse_meta_list(list, 0, *gspan) {
                                Err(pos) => Err(Error::option_syntax(span_of(list, pos, *gspan))),
                                Ok(metas) => {
                                    if metas.len() == 0 {
                                        return Err(Error::option_empty(*gspan));
                                    }
                                    let mut traits: Vec<SkipGroup> = match self {
                                        Skip::All => {
                                            return Err(Error::option_skip_all(*gspan));
                                        },
                                        Skip::Nothing => Vec::new(),
                                        Skip::Traits(ts) => ts.clone(),
                                    };
                                    let ghost mv = metas@.map_values(|m: Meta| m@);
                                    match add_groups(&mut traits, &metas, implemented, skip_inner, features) {
                                        Ok(()) => {},
                                        Err(e) => {
                                            return Err(e);
                                        },
                                    }
                                    *self = Skip::Traits(traits);
                                    Ok(())
                                },
                            }
                        },
                        _ => Err(Error::option_syntax(path.span)),
                    }
                } else {
                    Err(Error::option_syntax(path.span))
                }
            },
            Meta::NameValue { path, .. } => Err(Error::option_syntax(path.span)),
        }
    }

    /// Returns `true` if any field is skipped.
    pub fn any_skip(&self) -> (b: bool)
        ensures
            b == self@.any(),
    {
        match self {
            Skip::Nothing => false,
            Skip::All | Skip::Traits(_) => true,
        }
    }
}

/// Adds the groups of the `skip( .. )` entries `metas` to `groups`.
fn add_groups(
    groups: &mut Vec<SkipGroup>,
    metas: &Vec<Meta>,
    implemented: &Vec<Trait>,
    skip_inner: Option<&Skip>,
    features: Features,
) -> (r: Result<(), DeriveError>)
    ensures
        match (
            r,
            skip_fold(
                old(groups)@,
                metas@.map_values(|m: Meta| m@),
                0,
                implemented@,
                match skip_inner {
                    Some(si) => Some(si@),
                    None => None,
                },
                features,
            ),
        ) {
            (Ok(()), Ok(gs)) => final(groups)@ == gs,
            (Err(a), Err(b)) => a@ == b,
            _ => false,
        },
{
    let ghost inner = match skip_inner {
        Some(si) => Some(si@),
        None => None,
    };
    let ghost mv = metas@.map_values(|m: Meta| m@);
    let ghost g0 = groups@;
    let mut i: usize = 0;
    while i < metas.len()
        invariant
            i <= metas.len(),
            g0 == old(groups)@,
            mv == metas@.map_values(|m: Meta| m@),
            inner == match skip_inner {
                Some(si) => Some(si@),
                None => None,
            },
            skip_fold(g0, mv, 0, implemented@, inner, features) == skip_fold(
                groups@,
                mv,
                i as int,
                implemented@,
                inner,
                features,
            ),
        decreases metas.len() - i,
    {
        let ghost before = groups@;
        assert(mv[i as int] == metas@[i as int]@);
        match &metas[i] {
            Meta::Path(p) => {
                let g = match SkipGroup::from_path(p, features) {
                    Ok(g) => g,
                    Err(e) => {
                        return Err(e);
                    },
                };
                if contains_group(groups, g) {
                    return Err(Error::option_skip_duplicate(p.span, g.as_str()));
                }
                let in_parent = match skip_inner {
                    Some(Skip::Nothing) => false,
                    Some(Skip::All) => true,
                    Some(Skip::Traits(gs)) => contains_group(gs, g),
                    None => false,
                };
                if in_parent {
                    return Err(Error::option_skip_inner(p.span));
                }
                if any_in_group(g, implemented) {
                    groups.push(g);
                } else {
                    return Err(Error::option_skip_trait(p.span));
                }
            },
            other => {
                return Err(Error::option_syntax(other.path().span));
            },
        }
        assert(skip_step(before, mv[i as int], implemented@, inner, features) == Ok::<
            Seq<SkipGroup>,
            ErrV,
        >(groups@));
        i = i + 1;
    }
    Ok(())
}

/// `groups` holds `g`.
fn contains_group(groups: &Vec<SkipGroup>, g: SkipGroup) -> (b: bool)
    ensures
        b == groups@.contains(g),
{
    let mut i: usize = 0;
    while i < groups.len()
        invariant
            i <= groups.len(),
            forall|j: int| 0 <= j < i ==> groups@[j] != g,
        decreases groups.len() - i,
    {
        if groups[i] == g {
            return true;
        }
        i = i + 1;
    }
    false
}

/// Checks [`group_implemented`].
fn any_in_group(g: SkipGroup, implemented: &Vec<Trait>) -> (b: bool)
    ensures
        b == group_implemented(g, implemented@),
{
    let mut i: usize = 0;
    while i < implemented.len()
        invariant
            i <= implemented.len(),
            forall|j: int| 0 <= j < i ==> !g.covers(#[trigger] implemented@[j]),
        decreases implemented.len() - i,
    {
        if g.covers_trait(&implemented[i]) {
            return true;
        }
        i = i + 1;
    }
    false
}

/// The groups of a list are listed once, each holds a trait being
/// implemented, and none is skipped already by the parent.
pub open spec fn groups_ok(gs: Seq<SkipGroup>, implemented: Seq<Trait>, inner: Option<SkipV>) -> bool {
    &&& gs.no_duplicates()
    &&& forall|k: int|
        0 <= k < gs.len() ==> {
            &&& group_implemented(#[trigger] gs[k], implemented)
            &&& !(inner matches Some(si) && si.skips_group(gs[k]))
        }
}

/// A skip option as every accepted attribute leaves it: well formed, and
/// listing only groups that hold a derived trait and that the parent
/// `inner` does not skip already.
pub open spec fn skip_ok(s: SkipV, implemented: Seq<Trait>, inner: Option<SkipV>) -> bool {
    &&& s.wf()
    &&& s matches SkipV::Traits(gs) ==> groups_ok(gs, implemented, inner)
}

proof fn lemma_skip_fold_ok(
    gs: Seq<SkipGroup>,
    metas: Seq<MetaV>,
    i: int,
    implemented: Seq<Trait>,
    inner: Option<SkipV>,
    features: Features,
)
    requires
        0 <= i <= metas.len(),
        groups_ok(gs, implemented, inner),
    ensures
        skip_fold(gs, metas, i, implemented, inner, features) matches Ok(r) ==> groups_ok(
            r,
            implemented,
            inner,
        ) && r.len() == gs.len() + metas.len() - i,
    decreases metas.len() - i,
{
    if i < metas.len() {
        if let Ok(gs2) = skip_step(gs, metas[i], implemented, inner, features) {
            assert forall|k: int| 0 <= k < gs2.len() implies {
                &&& group_implemented(#[trigger] gs2[k], implemented)
                &&& !(inner matches Some(si) && si.skips_group(gs2[k]))
            } by {
                if k < gs.len() {
                    assert(gs2[k] == gs[k]);
                }
            }
            assert forall|a: int, b: int|
                0 <= a < gs2.len() && 0 <= b < gs2.len() && a != b implies gs2[a] != gs2[b] by {
                if b == gs.len() {
                    assert(gs.contains(gs2[a]));
                } else if a == gs.len() {
                    assert(gs.contains(gs2[b]));
                }
            }
            assert(gs2.no_duplicates());
            lemma_skip_fold_ok(gs2, metas, i + 1, implemented, inner, features);
        }
    }
}

/// Adding an option keeps a [`Skip`] as [`skip_ok`] says: a list is not
/// empty, names each group once, and each group holds a trait being
/// implemented and is not skipped already by the parent's `skip_inner`.
pub proof fn lemma_skip_add_wf(
    s: SkipV,
    implemented: Seq<Trait>,
    inner: Option<SkipV>,
    meta: MetaV,
    toks: Seq<Tok>,
    features: Features,
)
    requires
        skip_ok(s, implemented, inner),
    ensures
        spec_skip_add(s, implemented, inner, meta, toks, features) matches Ok(s2) ==> skip_ok(
            s2,
            implemented,
            inner,
        ),
{
    if let MetaV::List { path, group } = meta {
        if group < toks.len() && toks[group as int] is Group {
            let list = toks[group as int]->Group_inner@;
            let gspan = toks[group as int]->Group_span;
            if let Ok(metas) = spec_parse_meta_list(list, 0, gspan) {
                match s {
                    SkipV::Nothing => {
                        assert(groups_ok(seq![], implemented, inner));
                        lemma_skip_fold_ok(seq![], metas, 0, implemented, inner, features);
                    },
                    SkipV::Traits(g0) => {
                        lemma_skip_fold_ok(g0, metas, 0, implemented, inner, features);
                    },
                    _ => {},
                }
            }
        }
    }
}

/// A well-formed [`Skip`] skips only traits that support skipping or belong
/// to a group (as `Eq` does), and skips something whenever it skips a
/// trait.
pub proof fn lemma_skip_supported(s: SkipV, t: Trait)
    requires
        s.wf(),
    ensures
        s.skips(t) ==> t.skippable() || t is Eq,
        s.skips(t) ==> s.any(),
{
}

/// A well-formed [`Skip`] skips something exactly when it skips some trait.
pub proof fn lemma_skip_any(s: SkipV)
    requires
        s.wf(),
    ensures
        s.any() <==> exists|t: Trait| #[trigger] s.skips(t),
{
    match s {
        SkipV::Nothing => {},
        SkipV::All => {
            assert(s.skips(Trait::Debug));
        },
        SkipV::Traits(gs) => {
            assert(gs[0].covers(gs[0].first_trait()));
            assert(s.skips(gs[0].first_trait()));
        },
    }
}

/// The skip option left by applying the options `opts`, each a meta item
/// with its tokens, one after another from `s`, or the first error.
pub open spec fn skip_adds(
    s: SkipV,
    implemented: Seq<Trait>,
    inner: Option<SkipV>,
    opts: Seq<(MetaV, Seq<Tok>)>,
    features: Features,
) -> Result<SkipV, ErrV>
    decreases opts.len(),
{
    if opts.len() == 0 {
        Ok(s)
    } else {
        match spec_skip_add(s, implemented, inner, opts[0].0, opts[0].1, features) {
            Ok(s2) => skip_adds(s2, implemented, inner, opts.drop_first(), features),
            Err(e) => Err(e),
        }
    }
}

/// Options applied one after another keep a skip option as [`skip_ok`]
/// says.
proof fn lemma_skip_adds_ok(
    s: SkipV,
    implemented: Seq<Trait>,
    inner: Option<SkipV>,
    opts: Seq<(MetaV, Seq<Tok>)>,
    features: Features,
)
    requires
        skip_ok(s, implemented, inner),
    ensures
        skip_adds(s, implemented, inner, opts, features) matches Ok(s2) ==> skip_ok(
            s2,
            implemented,
            inner,
        ),
    decreases opts.len(),
{
    if opts.len() > 0 {
        lemma_skip_add_wf(s, implemented, inner, opts[0].0, opts[0].1, features);
        if let Ok(s2) = spec_skip_add(s, implemented, inner, opts[0].0, opts[0].1, features) {
            lemma_skip_adds_ok(s2, implemented, inner, opts.drop_first(), features);
        }
    }
}

/// A skip option built from nothing by options that were all accepted
/// skips something exactly when it skips some trait.
pub proof fn lemma_skip_adds_any(
    implemented: Seq<Trait>,
    inner: Option<SkipV>,
    opts: Seq<(MetaV, Seq<Tok>)>,
    features: Features,
)
    ensures
        skip_adds(SkipV::Nothing, implemented, inner, opts, features) matches Ok(s) ==> (s.any()
            <==> exists|t: Trait| #[trigger] s.skips(t)),
{
    lemma_skip_adds_ok(SkipV::Nothing, implemented, inner, opts, features);
    if let Ok(s) = skip_adds(SkipV::Nothing, implemented, inner, opts, features) {
        lemma_skip_any(s);
    }
}

} // verus!
