//! Attribute parsing for items: the traits to implement, their options and
//! the generic bounds.

use vstd::prelude::*;

use crate::attr::generic::{parse_generics, spec_parse_generics, Generic, GenericV};
use crate::error::{
    err, msg_derive_where_delimiter, msg_trait_syntax, msg_option_duplicate, msg_option_empty, msg_option_syntax, msg_option_trait,
    msg_options, msg_path, msg_path_unnecessary, DeriveError, ErrV, Error,
};
use crate::meta::{
    is_punct, lemma_parse_meta_progress, parse_meta, punct_at, spec_parse_meta, meta_wf, parse_meta_list, span_at, span_of, spec_parse_meta_list, texts, Meta, MetaPath, MetaV,
    MetaValue, MetaValueV, PathV,
};
use crate::attr::incomparable::{spec_incomparable_add, Incomparable};
use crate::attr::skip::{lemma_skip_add_wf, skip_ok, spec_skip_add, Skip, SkipV};
use crate::error::{msg_empty, msg_none, msg_option_enum_skip_inner, msg_union};
use crate::meta::{attr_is, attr_is_ident};
use crate::model::{Attr, AttrArgs, LitKind, Tok};
use crate::syntax::{answer_fits, is_plain_ident, reader_ok, Answer, AnswerV, Query, QueryV, Reader, Reads};
use crate::trait_::{Features, Trait};

verus! {

/// Trait to implement, with its options.
pub enum DeriveTrait {
    /// `Clone`.
    Clone,
    /// `Copy`.
    Copy,
    /// `Debug`.
    Debug,
    /// `Default`.
    Default,
    /// `Eq`.
    Eq,
    /// `Hash`.
    Hash,
    /// `Ord`.
    Ord,
    /// `PartialEq`.
    PartialEq,
    /// `PartialOrd`.
    PartialOrd,
    /// `Zeroize`, with the path of the `zeroize` crate and whether to also
    /// implement `Drop`.
    Zeroize { crate_: Option<MetaPath>, drop: bool },
    /// `ZeroizeOnDrop`, with the path of the `zeroize` crate and whether to
    /// only assert the fields' `ZeroizeOnDrop`.
    ZeroizeOnDrop { crate_: Option<MetaPath>, no_drop: bool },
}

/// Mathematical value of a [`DeriveTrait`].
pub enum DeriveTraitV {
    Clone,
    Copy,
    Debug,
    Default,
    Eq,
    Hash,
    Ord,
    PartialEq,
    PartialOrd,
    Zeroize { crate_: Option<PathV>, drop: bool },
    ZeroizeOnDrop { crate_: Option<PathV>, no_drop: bool },
}

/// Mathematical value of an optional path.
pub open spec fn opt_path(p: Option<MetaPath>) -> Option<PathV> {
    match p {
        Some(p) => Some(p@),
        None => None,
    }
}

impl View for DeriveTrait {
    type V = DeriveTraitV;

    open spec fn view(&self) -> DeriveTraitV {
        match self {
            DeriveTrait::Clone => DeriveTraitV::Clone,
            DeriveTrait::Copy => DeriveTraitV::Copy,
            DeriveTrait::Debug => DeriveTraitV::Debug,
            DeriveTrait::Default => DeriveTraitV::Default,
            DeriveTrait::Eq => DeriveTraitV::Eq,
            DeriveTrait::Hash => DeriveTraitV::Hash,
            DeriveTrait::Ord => DeriveTraitV::Ord,
            DeriveTrait::PartialEq => DeriveTraitV::PartialEq,
            DeriveTrait::PartialOrd => DeriveTraitV::PartialOrd,
            DeriveTrait::Zeroize { crate_, drop } => DeriveTraitV::Zeroize {
                crate_: opt_path(*crate_),
                drop: *drop,
            },
            DeriveTrait::ZeroizeOnDrop { crate_, no_drop } => DeriveTraitV::ZeroizeOnDrop {
                crate_: opt_path(*crate_),
                no_drop: *no_drop,
            },
        }
    }
}

impl DeriveTraitV {
    /// The trait without its options.
    pub open spec fn trait_(self) -> Trait {
        match self {
            DeriveTraitV::Clone => Trait::Clone,
            DeriveTraitV::Copy => Trait::Copy,
            DeriveTraitV::Debug => Trait::Debug,
            DeriveTraitV::Default => Trait::Default,
            DeriveTraitV::Eq => Trait::Eq,
            DeriveTraitV::Hash => Trait::Hash,
            DeriveTraitV::Ord => Trait::Ord,
            DeriveTraitV::PartialEq => Trait::PartialEq,
            DeriveTraitV::PartialOrd => Trait::PartialOrd,
            DeriveTraitV::Zeroize { .. } => Trait::Zeroize,
            DeriveTraitV::ZeroizeOnDrop { .. } => Trait::ZeroizeOnDrop,
        }
    }
}

/// The trait with no options given.
pub open spec fn spec_default_derive_trait(t: Trait) -> DeriveTraitV {
    match t {
        Trait::Clone => DeriveTraitV::Clone,
        Trait::Copy => DeriveTraitV::Copy,
        Trait::Debug => DeriveTraitV::Debug,
        Trait::Default => DeriveTraitV::Default,
        Trait::Eq => DeriveTraitV::Eq,
        Trait::Hash => DeriveTraitV::Hash,
        Trait::Ord => DeriveTraitV::Ord,
        Trait::PartialEq => DeriveTraitV::PartialEq,
        Trait::PartialOrd => DeriveTraitV::PartialOrd,
        Trait::Zeroize => DeriveTraitV::Zeroize { crate_: None, drop: false },
        Trait::ZeroizeOnDrop => DeriveTraitV::ZeroizeOnDrop { crate_: None, no_drop: false },
    }
}

impl DeriveTrait {
    /// The trait without its options.
    pub fn trait_(&self) -> (t: Trait)
        ensures
            t == self@.trait_(),
    {
        match self {
            DeriveTrait::Clone => Trait::Clone,
            DeriveTrait::Copy => Trait::Copy,
            DeriveTrait::Debug => Trait::Debug,
            DeriveTrait::Default => Trait::Default,
            DeriveTrait::Eq => Trait::Eq,
            DeriveTrait::Hash => Trait::Hash,
            DeriveTrait::Ord => Trait::Ord,
            DeriveTrait::PartialEq => Trait::PartialEq,
            DeriveTrait::PartialOrd => Trait::PartialOrd,
            DeriveTrait::Zeroize { .. } => Trait::Zeroize,
            DeriveTrait::ZeroizeOnDrop { .. } => Trait::ZeroizeOnDrop,
        }
    }

    /// The [`DeriveTrait`] of a trait written without options.
    pub fn default_derive_trait(t: Trait) -> (d: DeriveTrait)
        ensures
            d@ == spec_default_derive_trait(t),
    {
        match t {
            Trait::Clone => DeriveTrait::Clone,
            Trait::Copy => DeriveTrait::Copy,
            Trait::Debug => DeriveTrait::Debug,
            Trait::Default => DeriveTrait::Default,
            Trait::Eq => DeriveTrait::Eq,
            Trait::Hash => DeriveTrait::Hash,
            Trait::Ord => DeriveTrait::Ord,
            Trait::PartialEq => DeriveTrait::PartialEq,
            Trait::PartialOrd => DeriveTrait::PartialOrd,
            Trait::Zeroize => DeriveTrait::Zeroize { crate_: None, drop: false },
            Trait::ZeroizeOnDrop => DeriveTrait::ZeroizeOnDrop { crate_: None, no_drop: false },
        }
    }
}

/// The `crate` path at `span` given by `syn`'s answer `a` to reading the
/// text of the option's string literal.
pub open spec fn spec_path_answer(a: AnswerV, span: usize) -> Result<PathV, ErrV> {
    match a {
        AnswerV::Path { leading_colon, segments } => Ok(PathV { leading_colon, segments, span }),
        AnswerV::Refused { message } => Err(err(span, msg_path(message))),
        _ => Err(err(span, msg_path(seq![]))),
    }
}

/// The path given to a `crate` option: a path, or a string literal holding
/// one as `rd` reads it.
pub open spec fn spec_crate_value(value: MetaValueV, toks: Seq<Tok>, rd: Reader) -> Result<
    PathV,
    ErrV,
> {
    match value {
        MetaValueV::Lit(i) => {
            let span = toks[i as int].spec_span();
            match toks[i as int]->Literal_lit.kind {
                LitKind::Str(v) => spec_path_answer(rd(QueryV::Path(v@)), span),
                _ => Err(err(span, msg_option_syntax())),
            }
        },
        MetaValueV::Path(p) => Ok(p),
    }
}

/// Whatever `syn`'s token implementation, a `crate` option whose string
/// literal holds a plain identifier names the path of that one segment.
pub proof fn lemma_plain_crate_value(i: usize, toks: Seq<Tok>, rd: Reader)
    requires
        reader_ok(rd),
        i < toks.len(),
        toks[i as int] is Literal,
        toks[i as int]->Literal_lit.kind is Str,
        is_plain_ident(toks[i as int]->Literal_lit.kind->Str_0@),
    ensures
        spec_crate_value(MetaValueV::Lit(i), toks, rd) == Ok::<PathV, ErrV>(
            PathV {
                leading_colon: false,
                segments: seq![toks[i as int]->Literal_lit.kind->Str_0@],
                span: toks[i as int].spec_span(),
            },
        ),
{
    let v = toks[i as int]->Literal_lit.kind->Str_0;
    assert(answer_fits(QueryV::Path(v@), rd(QueryV::Path(v@))));
}

/// The `crate` path at `span` given by `syn`'s answer `a` to reading the
/// text of the option's string literal, or the error to report.
pub fn path_answer(a: Answer, span: usize) -> (r: Result<MetaPath, DeriveError>)
    ensures
        match (r, spec_path_answer(a@, span)) {
            (Ok(x), Ok(y)) => x@ == y,
            (Err(x), Err(y)) => x@ == y,
            _ => false,
        },
{
    proof {
        reveal_strlit("");
    }
    match a {
        Answer::Path { leading_colon, segments } => Ok(MetaPath { leading_colon, segments, span }),
        Answer::Refused { message } => Err(Error::path(span, message.as_str())),
        _ => Err(Error::path(span, "")),
    }
}

/// Reads the value of a `crate` option.
fn crate_value(value: &MetaValue, toks: &Vec<Tok>, reads: &mut Reads) -> (r: Result<
    MetaPath,
    DeriveError,
>)
    requires
        value@ matches MetaValueV::Lit(i) ==> i < toks@.len() && toks@[i as int] is Literal,
        old(reads).wf(),
    ensures
        final(reads).wf(),
        final(reads).extends(*old(reads)),
        forall|rd: Reader|
            #[trigger] final(reads).agrees(rd) ==> match (r, spec_crate_value(value@, toks@, rd)) {
                (Ok(a), Ok(b)) => a@ == b,
                (Err(a), Err(b)) => a@ == b,
                _ => false,
            },
{
    match value {
        MetaValue::Lit(i) => {
            let span = toks[*i].span();
            match &toks[*i] {
                Tok::Literal { lit, .. } => match &lit.kind {
                    LitKind::Str(v) => {
                        let a = reads.read(&Query::Path(v.clone()));
                        path_answer(a, span)
                    },
                    _ => Err(Error::option_syntax(span)),
                },
                _ => Err(Error::option_syntax(span)),
            }
        },
        MetaValue::Path(p) => Ok(
            MetaPath {
                leading_colon: p.leading_colon,
                segments: clone_strings(&p.segments),
                span: p.span,
            },
        ),
    }
}

/// Copies a list of strings.
pub fn clone_strings(v: &Vec<String>) -> (r: Vec<String>)
    ensures
        r@ == v@,
{
    let mut r: Vec<String> = Vec::new();
    let mut i: usize = 0;
    while i < v.len()
        invariant
            i <= v.len(),
            r@ == v@.take(i as int),
        decreases v.len() - i,
    {
        r.push(v[i].clone());
        assert(r@ =~= v@.take(i + 1));
        i = i + 1;
    }
    assert(v@.take(v.len() as int) =~= v@);
    r
}

/// Applies one option of `Zeroize( .. )`.
pub open spec fn zeroize_step(st: (Option<PathV>, bool), m: MetaV, toks: Seq<Tok>, rd: Reader) -> Result<
    (Option<PathV>, bool),
    ErrV,
> {
    match m {
        MetaV::Path(p) => if p.is_ident("drop"@) {
            if !st.1 {
                Ok((st.0, true))
            } else {
                Err(err(p.span, msg_option_duplicate("drop"@)))
            }
        } else {
            Err(err(p.span, msg_option_trait("Zeroize"@)))
        },
        MetaV::NameValue { path, value } => if path.is_ident("crate"@) {
            if st.0 is None {
                match spec_crate_value(value, toks, rd) {
                    Ok(c) => Ok((Some(c), st.1)),
                    Err(e) => Err(e),
                }
            } else {
                Err(err(path.span, msg_option_duplicate("crate"@)))
            }
        } else {
            Err(err(path.span, msg_option_trait("Zeroize"@)))
        },
        MetaV::List { path, .. } => Err(err(path.span, msg_option_syntax())),
    }
}

/// Whether `p` is `::zeroize`, the default path of the crate.
pub open spec fn is_default_zeroize(p: PathV) -> bool {
    p.leading_colon && p.segments == seq!["zeroize"@]
}

/// Applies one option of `ZeroizeOnDrop( .. )`.
pub open spec fn zeroize_on_drop_step(
    st: (Option<PathV>, bool),
    m: MetaV,
    toks: Seq<Tok>,
    features: Features,
    rd: Reader,
) -> Result<(Option<PathV>, bool), ErrV> {
    match m {
        MetaV::Path(p) => if features.zeroize_on_drop && p.is_ident("no_drop"@) {
            if !st.1 {
                Ok((st.0, true))
            } else {
                Err(err(p.span, msg_option_duplicate("no_drop"@)))
            }
        } else {
            Err(err(p.span, msg_option_trait("ZeroizeOnDrop"@)))
        },
        MetaV::NameValue { path, value } => if path.is_ident("crate"@) {
            if st.0 is None {
                match spec_crate_value(value, toks, rd) {
                    Ok(c) => if is_default_zeroize(c) {
                        Err(err(c.span, msg_path_unnecessary("::zeroize"@)))
                    } else {
                        Ok((Some(c), st.1))
                    },
                    Err(e) => Err(e),
                }
            } else {
                Err(err(path.span, msg_option_duplicate("crate"@)))
            }
        } else {
            Err(err(path.span, msg_option_trait("ZeroizeOnDrop"@)))
        },
        MetaV::List { path, .. } => Err(err(path.span, msg_option_syntax())),
    }
}

/// Applies the options `metas[i..]` of `Zeroize` or `ZeroizeOnDrop`.
pub open spec fn zeroize_fold(
    st: (Option<PathV>, bool),
    metas: Seq<MetaV>,
    i: int,
    toks: Seq<Tok>,
    on_drop: bool,
    features: Features,
    rd: Reader,
) -> Result<(Option<PathV>, bool), ErrV>
    decreases metas.len() - i,
{
    if i < 0 || i >= metas.len() {
        Ok(st)
    } else {
        let step = if on_drop {
            zeroize_on_drop_step(st, metas[i], toks, features, rd)
        } else {
            zeroize_step(st, metas[i], toks, rd)
        };
        match step {
            Ok(st2) => zeroize_fold(st2, metas, i + 1, toks, on_drop, features, rd),
            Err(e) => Err(e),
        }
    }
}

/// The trait `t` with the options in `list` (the tokens of the group at
/// `gspan`).
pub open spec fn spec_parse_derive_trait(
    t: Trait,
    list: Seq<Tok>,
    gspan: usize,
    features: Features,
    rd: Reader,
) -> Result<DeriveTraitV, ErrV> {
    if t is Zeroize || t is ZeroizeOnDrop {
        let on_drop = t is ZeroizeOnDrop;
        match spec_parse_meta_list(list, 0, gspan) {
            Err(pos) => Err(err(span_at(list, pos, gspan), msg_option_syntax())),
            Ok(metas) => if on_drop && metas.len() == 0 {
                Err(err(gspan, msg_option_empty()))
            } else {
                match zeroize_fold((None, false), metas, 0, list, on_drop, features, rd) {
                    Ok((c, flag)) => if on_drop {
                        Ok(DeriveTraitV::ZeroizeOnDrop { crate_: c, no_drop: flag })
                    } else {
                        Ok(DeriveTraitV::Zeroize { crate_: c, drop: flag })
                    },
                    Err(e) => Err(e),
                }
            },
        }
    } else {
        Err(err(gspan, msg_options(t.name())))
    }
}

/// Applies the options `metas` of `Zeroize` or `ZeroizeOnDrop`.
fn zeroize_options(
    metas: &Vec<Meta>,
    toks: &Vec<Tok>,
    on_drop: bool,
    features: Features,
    reads: &mut Reads,
) -> (r: Result<(Option<MetaPath>, bool), DeriveError>)
    requires
        forall|i: int| 0 <= i < metas@.len() ==> meta_wf(#[trigger] metas@[i]@, toks@),
        old(reads).wf(),
    ensures
        final(reads).wf(),
        final(reads).extends(*old(reads)),
        forall|rd: Reader|
            #[trigger] final(reads).agrees(rd) ==> match (
                r,
                zeroize_fold(
                    (None, false),
                    metas@.map_values(|m: Meta| m@),
                    0,
                    toks@,
                    on_drop,
                    features,
                    rd,
                ),
            ) {
                (Ok((c, f)), Ok((c2, f2))) => opt_path(c) == c2 && f == f2,
                (Err(a), Err(b)) => a@ == b,
                _ => false,
            },
{
    let ghost mv = metas@.map_values(|m: Meta| m@);
    let mut crate_: Option<MetaPath> = None;
    let mut flag = false;
    let mut i: usize = 0;
    while i < metas.len()
        invariant
            i <= metas.len(),
            mv == metas@.map_values(|m: Meta| m@),
            forall|k: int| 0 <= k < metas@.len() ==> meta_wf(#[trigger] metas@[k]@, toks@),
            reads.wf(),
            reads.extends(*old(reads)),
            forall|rd: Reader|
                #[trigger] reads.agrees(rd) ==> zeroize_fold(
                    (None, false),
                    mv,
                    0,
                    toks@,
                    on_drop,
                    features,
                    rd,
                ) == zeroize_fold((opt_path(crate_), flag), mv, i as int, toks@, on_drop, features, rd),
        decreases metas.len() - i,
    {
        assert(mv[i as int] == metas@[i as int]@);
        assert(meta_wf(metas@[i as int]@, toks@));
        match &metas[i] {
            Meta::Path(p) => {
                let name = if on_drop {
                    "no_drop"
                } else {
                    "drop"
                };
                if (!on_drop || features.zeroize_on_drop) && p.is_ident(name) {
                    if !flag {
                        flag = true;
                    } else {
                        return Err(Error::option_duplicate(p.span, name));
                    }
                } else {
                    let t = if on_drop {
                        "ZeroizeOnDrop"
                    } else {
                        "Zeroize"
                    };
                    return Err(Error::option_trait(p.span, t));
                }
            },
            Meta::NameValue { path, value } => {
                let t = if on_drop {
                    "ZeroizeOnDrop"
                } else {
                    "Zeroize"
                };
                if path.is_ident("crate") {
                    if crate_.is_none() {
                        let ghost r0 = *reads;
                        let res = crate_value(value, toks, reads);
                        proof {
                            Reads::lemma_extends(r0, *reads);
                        }
                        let c = match res {
                            Ok(c) => c,
                            Err(e) => {
                                return Err(e);
                            },
                        };
                        proof {
                            if c@.leading_colon && c@.segments == seq!["zeroize"@] {
                                assert(c@.segments[0] == "zeroize"@);
                            }
                            if c@.segments.len() == 1 && c@.segments[0] == "zeroize"@ {
                                assert(c@.segments =~= seq!["zeroize"@]);
                            }
                        }
                        if on_drop && c.leading_colon && c.segments.len() == 1
                            && crate::util::str_eq(c.segments[0].as_str(), "zeroize") {
                            return Err(Error::path_unnecessary(c.span, "::zeroize"));
                        }
                        crate_ = Some(c);
                    } else {
                        return Err(Error::option_duplicate(path.span, "crate"));
                    }
                } else {
                    return Err(Error::option_trait(path.span, t));
                }
            },
            Meta::List { path, .. } => {
                return Err(Error::option_syntax(path.span));
            },
        }
        i = i + 1;
    }
    Ok((crate_, flag))
}

impl DeriveTrait {
    /// Parse the options of trait `t` from the tokens of the group at `gspan`.
    pub fn parse_derive_trait(
        t: Trait,
        list: &Vec<Tok>,
        gspan: usize,
        features: Features,
        reads: &mut Reads,
    ) -> (r: Result<DeriveTrait, DeriveError>)
        requires
            old(reads).wf(),
        ensures
            final(reads).wf(),
            final(reads).extends(*old(reads)),
            forall|rd: Reader|
                #[trigger] final(reads).agrees(rd) ==> match (
                    r,
                    spec_parse_derive_trait(t, list@, gspan, features, rd),
                ) {
                    (Ok(a), Ok(b)) => a@ == b,
                    (Err(a), Err(b)) => a@ == b,
                    _ => false,
                },
    {
        match t {
            Trait::Zeroize | Trait::ZeroizeOnDrop => {
                let on_drop = match t {
                    Trait::ZeroizeOnDrop => true,
                    _ => false,
                };
                match parse_meta_list(list, 0, gspan) {
                    Err(pos) => Err(Error::option_syntax(span_of(list, pos, gspan))),
                    Ok(metas) => {
                        if on_drop && metas.len() == 0 {
                            return Err(Error::option_empty(gspan));
                        }
                        match zeroize_options(&metas, list, on_drop, features, reads) {
                            Ok((crate_, flag)) => if on_drop {
                                Ok(DeriveTrait::ZeroizeOnDrop { crate_, no_drop: flag })
                            } else {
                                Ok(DeriveTrait::Zeroize { crate_, drop: flag })
                            },
                            Err(e) => Err(e),
                        }
                    },
                }
            },
            _ => Err(Error::options(gspan, t.as_str())),
        }
    }
}

/// Holds parsed generics and traits.
pub struct DeriveWhere {
    /// Traits to implement.
    pub traits: Vec<DeriveTrait>,
    /// Generics for the where clause.
    pub generics: Vec<Generic>,
}

/// Mathematical value of a [`DeriveWhere`].
pub struct DeriveWhereV {
    pub traits: Seq<DeriveTraitV>,
    pub generics: Seq<GenericV>,
}

impl View for DeriveWhere {
    type V = DeriveWhereV;

    open spec fn view(&self) -> DeriveWhereV {
        DeriveWhereV {
            traits: self.traits@.map_values(|d: DeriveTrait| d@),
            generics: self.generics@.map_values(|g: Generic| g@),
        }
    }
}

/// The trait written as the option `m` of a `derive_where` attribute.
pub open spec fn spec_derive_trait_of(m: MetaV, toks: Seq<Tok>, features: Features, rd: Reader) -> Result<
    DeriveTraitV,
    ErrV,
> {
    match Trait::spec_from_path(m.path(), features) {
        Err(e) => Err(e),
        Ok(t) => match m {
            MetaV::Path(_) => Ok(spec_default_derive_trait(t)),
            MetaV::List { group, .. } => spec_parse_derive_trait(
                t,
                toks[group as int]->Group_inner@,
                toks[group as int]->Group_span,
                features,
                rd,
            ),
            MetaV::NameValue { path, .. } => Err(err(path.span, msg_option_syntax())),
        },
    }
}

/// Reads the arguments of a `derive_where` attribute from `pos`: traits
/// separated by `,`, then optionally `;` and generics. `traits` are those
/// read before `pos`.
pub open spec fn spec_parse_derive_where(
    toks: Seq<Tok>,
    pos: int,
    traits: Seq<DeriveTraitV>,
    end: usize,
    features: Features,
    rd: Reader,
) -> Result<DeriveWhereV, ErrV>
    decreases toks.len() - pos,
{
    if pos < 0 || pos >= toks.len() {
        Ok(DeriveWhereV { traits, generics: seq![] })
    } else {
        match spec_parse_meta(toks, pos, end) {
            Err(p) => Err(err(span_at(toks, p, end), msg_trait_syntax(features))),
            Ok((m, next)) => match spec_derive_trait_of(m, toks, features, rd) {
                Err(e) => Err(e),
                Ok(d) => {
                    let traits2 = traits.push(d);
                    if next >= toks.len() {
                        Ok(DeriveWhereV { traits: traits2, generics: seq![] })
                    } else {
                        let comma = is_punct(toks, next, ',');
                        let fork = if comma {
                            next + 1
                        } else {
                            next
                        };
                        if is_punct(toks, fork, ';') {
                            match spec_parse_generics(toks, fork + 1, end, rd) {
                                Ok(g) => Ok(DeriveWhereV { traits: traits2, generics: g }),
                                Err(e) => Err(e),
                            }
                        } else if !comma {
                            Err(err(span_at(toks, next, end), msg_derive_where_delimiter()))
                        } else if fork > pos {
                            spec_parse_derive_where(toks, fork, traits2, end, features, rd)
                        } else {
                            Err(err(span_at(toks, next, end), msg_derive_where_delimiter()))
                        }
                    }
                },
            },
        }
    }
}

impl DeriveWhere {
    /// Parse the arguments of a `derive_where` attribute; `end` is the
    /// location past the last token.
    pub fn parse(toks: &Vec<Tok>, end: usize, features: Features, reads: &mut Reads) -> (r: Result<
        DeriveWhere,
        DeriveError,
    >)
        requires
            old(reads).wf(),
        ensures
            final(reads).wf(),
            final(reads).extends(*old(reads)),
            forall|rd: Reader|
                #[trigger] final(reads).agrees(rd) ==> match (
                    r,
                    spec_parse_derive_where(toks@, 0, seq![], end, features, rd),
                ) {
                    (Ok(x), Ok(y)) => x@ == y,
                    (Err(x), Err(y)) => x@ == y,
                    _ => false,
                },
    {
        let mut traits: Vec<DeriveTrait> = Vec::new();
        let mut pos: usize = 0;
        assert(traits@.map_values(|d: DeriveTrait| d@) =~= seq![]);
        while pos < toks.len()
            invariant
                pos <= toks@.len(),
                reads.wf(),
                reads.extends(*old(reads)),
                forall|rd: Reader|
                    #[trigger] reads.agrees(rd) ==> spec_parse_derive_where(
                        toks@,
                        0,
                        seq![],
                        end,
                        features,
                        rd,
                    ) == spec_parse_derive_where(
                        toks@,
                        pos as int,
                        traits@.map_values(|d: DeriveTrait| d@),
                        end,
                        features,
                        rd,
                    ),
            decreases toks@.len() - pos,
        {
            proof {
                lemma_parse_meta_progress(toks@, pos as int, end);
            }
            let ghost tv = traits@.map_values(|d: DeriveTrait| d@);
            let ghost r0 = *reads;
            let (m, next) = match parse_meta(toks, pos, end) {
                Ok(x) => x,
                Err(p) => {
                    return Err(Error::trait_syntax(span_of(toks, p, end), features));
                },
            };
            let t = match Trait::from_path(m.path(), features) {
                Ok(t) => t,
                Err(e) => {
                    return Err(e);
                },
            };
            let d = match &m {
                Meta::Path(_) => DeriveTrait::default_derive_trait(t),
                Meta::List { group, .. } => {
                    match &toks[*group] {
                        Tok::Group { inner, span, .. } => {
                            let res = DeriveTrait::parse_derive_trait(t, inner, *span, features, reads);
                            proof {
                                Reads::lemma_extends(r0, *reads);
                            }
                            match res {
                                Ok(d) => d,
                                Err(e) => {
                                    return Err(e);
                                },
                            }
                        },
                        _ => {
                            return Err(Error::option_syntax(m.path().span));
                        },
                    }
                },
                Meta::NameValue { path, .. } => {
                    return Err(Error::option_syntax(path.span));
                },
            };
            assert(forall|rd: Reader|
                #[trigger] reads.agrees(rd) ==> spec_derive_trait_of(m@, toks@, features, rd)
                    == Ok::<DeriveTraitV, ErrV>(d@));
            traits.push(d);
            assert(traits@.map_values(|d: DeriveTrait| d@) =~= tv.push(d@));
            if next >= toks.len() {
                let generics: Vec<Generic> = Vec::new();
                assert(generics@.map_values(|g: Generic| g@) =~= seq![]);
                return Ok(DeriveWhere { traits, generics });
            }
            let comma = punct_at(toks, next, ',');
            let fork = if comma {
                next + 1
            } else {
                next
            };
            if punct_at(toks, fork, ';') {
                let ghost r1 = *reads;
                let res = parse_generics(toks, fork + 1, end, reads);
                proof {
                    Reads::lemma_extends(r1, *reads);
                }
                match res {
                    Ok(generics) => {
                        return Ok(DeriveWhere { traits, generics });
                    },
                    Err(e) => {
                        return Err(e);
                    },
                }
            } else if !comma {
                return Err(Error::derive_where_delimiter(span_of(toks, next, end)));
            }
            pos = fork;
        }
        let generics: Vec<Generic> = Vec::new();
        assert(generics@.map_values(|g: Generic| g@) =~= seq![]);
        Ok(DeriveWhere { traits, generics })
    }
}

impl DeriveWhereV {
    /// The traits without their options.
    pub open spec fn plain_traits(self) -> Seq<Trait> {
        self.traits.map_values(|d: DeriveTraitV| d.trait_())
    }

    /// Some generic has custom bounds.
    pub open spec fn any_custom_bound(self) -> bool {
        exists|i: int| 0 <= i < self.generics.len() && self.generics[i] is CustomBound
    }

    /// Some generic is the plain type parameter `name`.
    pub open spec fn has_type_param(self, name: Seq<char>) -> bool {
        exists|i: int|
            0 <= i < self.generics.len() && (#[trigger] self.generics[i] matches GenericV::NoBound {
                ident: Some(n),
                ..
            } && n == name)
    }
}

/// All traits of all `derive_where` attributes, in order.
pub open spec fn flat_traits(dws: Seq<DeriveWhereV>) -> Seq<Trait>
    decreases dws.len(),
{
    if dws.len() == 0 {
        seq![]
    } else {
        flat_traits(dws.drop_last()) + dws.last().plain_traits()
    }
}

impl DeriveWhere {
    /// Returns the position of the selected trait if present.
    pub fn trait_(&self, t: Trait) -> (r: Option<usize>)
        ensures
            match r {
                Some(i) => i < self@.traits.len() && self@.traits[i as int].trait_() == t && forall|
                    j: int,
                | 0 <= j < i ==> self@.traits[j].trait_() != t,
                None => !self@.plain_traits().contains(t),
            },
    {
        let mut i: usize = 0;
        while i < self.traits.len()
            invariant
                i <= self.traits@.len(),
                forall|j: int| 0 <= j < i ==> self@.traits[j].trait_() != t,
            decreases self.traits.len() - i,
        {
            if self.traits[i].trait_() == t {
                return Some(i);
            }
            i = i + 1;
        }
        proof {
            if self@.plain_traits().contains(t) {
                let k = choose|k: int| 0 <= k < self@.plain_traits().len() && self@.plain_traits()[k] == t;
                assert(self@.traits[k].trait_() == t);
            }
        }
        None
    }

    /// Returns `true` if the trait is being implemented.
    pub fn contains(&self, t: Trait) -> (b: bool)
        ensures
            b == self@.plain_traits().contains(t),
    {
        let r = self.trait_(t);
        proof {
            if let Some(i) = r {
                assert(self@.plain_traits()[i as int] == t);
            }
        }
        r.is_some()
    }

    /// Returns `true` if any generic has custom bounds.
    pub fn any_custom_bound(&self) -> (b: bool)
        ensures
            b == self@.any_custom_bound(),
    {
        let mut i: usize = 0;
        while i < self.generics.len()
            invariant
                i <= self.generics@.len(),
                forall|j: int| 0 <= j < i ==> !(self@.generics[j] is CustomBound),
            decreases self.generics.len() - i,
        {
            match &self.generics[i] {
                Generic::CustomBound { .. } => {
                    assert(self@.generics[i as int] is CustomBound);
                    return true;
                },
                _ => {},
            }
            i = i + 1;
        }
        false
    }

    /// Returns `true` if the plain type parameter `name` is among the
    /// generics.
    pub fn has_type_param(&self, name: &str) -> (b: bool)
        ensures
            b == self@.has_type_param(name@),
    {
        let mut i: usize = 0;
        while i < self.generics.len()
            invariant
                i <= self.generics@.len(),
                forall|j: int|
                    0 <= j < i ==> !(#[trigger] self@.generics[j] matches GenericV::NoBound {
                        ident: Some(n),
                        ..
                    } && n == name@),
            decreases self.generics.len() - i,
        {
            match &self.generics[i] {
                Generic::NoBound { ident: Some(n), .. } => {
                    if crate::util::str_eq(n.as_str(), name) {
                        assert(self@.generics[i as int] matches GenericV::NoBound { ident: Some(m), .. } && m == name@);
                        return true;
                    }
                },
                _ => {},
            }
            i = i + 1;
        }
        false
    }
}

/// All traits of all `derive_where` attributes, in order.
pub fn implemented_traits(dws: &Vec<DeriveWhere>) -> (r: Vec<Trait>)
    ensures
        r@ == flat_traits(dws@.map_values(|d: DeriveWhere| d@)),
{
    let ghost dv = dws@.map_values(|d: DeriveWhere| d@);
    let mut r: Vec<Trait> = Vec::new();
    let mut i: usize = 0;
    assert(dv.take(0) =~= seq![]);
    while i < dws.len()
        invariant
            i <= dws@.len(),
            dv == dws@.map_values(|d: DeriveWhere| d@),
            r@ == flat_traits(dv.take(i as int)),
        decreases dws.len() - i,
    {
        let ghost before = r@;
        let dw = &dws[i];
        let mut j: usize = 0;
        while j < dw.traits.len()
            invariant
                j <= dw.traits@.len(),
                r@ == before + dw@.plain_traits().take(j as int),
            decreases dw.traits.len() - j,
        {
            r.push(dw.traits[j].trait_());
            assert(dw@.plain_traits().take(j + 1) =~= dw@.plain_traits().take(j as int).push(
                dw@.traits[j as int].trait_(),
            ));
            j = j + 1;
        }
        assert(dw@.plain_traits().take(j as int) =~= dw@.plain_traits());
        assert(dv.take(i + 1).drop_last() =~= dv.take(i as int));
        assert(dv[i as int] == dw@);
        i = i + 1;
    }
    assert(dv.take(dws@.len() as int) =~= dv);
    r
}

/// Which kind of item the attributes belong to.
#[derive(Clone, Copy, PartialEq, Eq, Structural)]
pub enum ItemKind {
    /// `struct`.
    Struct,
    /// `enum`.
    Enum,
    /// `union`.
    Union,
}

/// Attributes on an item.
pub struct ItemAttr {
    /// Traits to skip all fields for.
    pub skip_inner: Skip,
    /// Whether the item compares unequal to everything.
    pub incomparable: Incomparable,
    /// Path to this crate, when given.
    pub crate_: Option<MetaPath>,
    /// `derive_where` attributes on this item.
    pub derive_wheres: Vec<DeriveWhere>,
}

/// Mathematical value of an [`ItemAttr`].
pub struct ItemAttrV {
    pub skip_inner: SkipV,
    pub incomparable: Option<usize>,
    pub crate_: Option<PathV>,
    pub derive_wheres: Seq<DeriveWhereV>,
}

impl View for ItemAttr {
    type V = ItemAttrV;

    open spec fn view(&self) -> ItemAttrV {
        ItemAttrV {
            skip_inner: self.skip_inner@,
            incomparable: self.incomparable.0,
            crate_: opt_path(self.crate_),
            derive_wheres: self.derive_wheres@.map_values(|d: DeriveWhere| d@),
        }
    }
}

/// What the attributes of an item give before the delayed options are read:
/// the attributes holding `skip_inner` and `incomparable`, the crate path
/// and the `derive_where`s.
pub struct ItemScan {
    pub skip_inner_at: Option<int>,
    pub incomparable_at: Option<int>,
    pub crate_: Option<PathV>,
    pub derive_wheres: Seq<DeriveWhereV>,
}

/// The attribute's tokens hold exactly one option named `skip_inner`,
/// `incomparable` or `crate`.
pub open spec fn item_option(toks: Seq<Tok>, span: usize) -> Option<MetaV> {
    match spec_parse_meta(toks, 0, span) {
        Ok((m, next)) => if next == toks.len() && (m.path().is_ident("skip_inner"@)
            || m.path().is_ident("incomparable"@) || m.path().is_ident("crate"@)) {
            Some(m)
        } else {
            None
        },
        Err(_) => None,
    }
}

/// Whether `p` is `::derive_where`, the default path of this crate.
pub open spec fn is_default_crate(p: PathV) -> bool {
    p.leading_colon && p.segments == seq!["derive_where"@]
}

/// Reads the `derive_where` attribute `attrs[i]` of an item.
pub open spec fn item_attr_step(
    st: ItemScan,
    attrs: Seq<Attr>,
    i: int,
    kind: ItemKind,
    features: Features,
    rd: Reader,
) -> Result<ItemScan, ErrV> {
    let a = attrs[i];
    match a.args {
        AttrArgs::List(toks) => if toks@.len() == 0 {
            Err(err(a.span, msg_empty()))
        } else {
            match item_option(toks@, a.span) {
                Some(m) => if m.path().is_ident("skip_inner"@) {
                    if kind == ItemKind::Enum {
                        Err(err(m.path().span, msg_option_enum_skip_inner()))
                    } else {
                        Ok(ItemScan { skip_inner_at: Some(i), ..st })
                    }
                } else if m.path().is_ident("incomparable"@) {
                    Ok(ItemScan { incomparable_at: Some(i), ..st })
                } else {
                    match m {
                        MetaV::NameValue { path, value } => if st.crate_ is Some {
                            Err(err(path.span, msg_option_duplicate("crate"@)))
                        } else {
                            match spec_crate_value(value, toks@, rd) {
                                Ok(p) => if is_default_crate(p) {
                                    Err(err(p.span, msg_path_unnecessary("::derive_where"@)))
                                } else {
                                    Ok(ItemScan { crate_: Some(p), ..st })
                                },
                                Err(e) => Err(e),
                            }
                        },
                        _ => Err(err(m.path().span, msg_option_syntax())),
                    }
                },
                None => match spec_parse_derive_where(toks@, 0, seq![], a.span, features, rd) {
                    Ok(dw) => Ok(ItemScan { derive_wheres: st.derive_wheres.push(dw), ..st }),
                    Err(e) => Err(e),
                },
            }
        },
        _ => Err(err(a.span, msg_option_syntax())),
    }
}

/// Reads the attributes `attrs[i..]` of an item.
pub open spec fn item_attrs_fold(
    st: ItemScan,
    attrs: Seq<Attr>,
    i: int,
    kind: ItemKind,
    features: Features,
    rd: Reader,
) -> Result<ItemScan, ErrV>
    decreases attrs.len() - i,
{
    if i < 0 || i >= attrs.len() {
        Ok(st)
    } else if attr_is(attrs[i], "derive_where"@) {
        match item_attr_step(st, attrs, i, kind, features, rd) {
            Ok(st2) => item_attrs_fold(st2, attrs, i + 1, kind, features, rd),
            Err(e) => Err(e),
        }
    } else {
        item_attrs_fold(st, attrs, i + 1, kind, features, rd)
    }
}

/// The single option in the attribute `attrs[i]`, with its tokens.
pub open spec fn option_at(attrs: Seq<Attr>, i: int) -> (MetaV, Seq<Tok>) {
    let a = attrs[i];
    let toks = a.args->List_0@;
    (spec_parse_meta(toks, 0, a.span)->Ok_0.0, toks)
}

/// Some trait in the `derive_where`s cannot be derived for unions.
pub open spec fn any_not_unionable(dws: Seq<DeriveWhereV>) -> bool {
    exists|i: int| 0 <= i < flat_traits(dws).len() && !(#[trigger] flat_traits(dws)[i]).unionable()
}

/// The attributes of an item at `span`, of kind `kind`, given by `attrs`.
pub open spec fn spec_item_attr(
    attrs: Seq<Attr>,
    span: usize,
    kind: ItemKind,
    features: Features,
    rd: Reader,
) -> Result<
    ItemAttrV,
    ErrV,
> {
    let start = ItemScan {
        skip_inner_at: None,
        incomparable_at: None,
        crate_: None,
        derive_wheres: seq![],
    };
    match item_attrs_fold(start, attrs, 0, kind, features, rd) {
        Err(e) => Err(e),
        Ok(scan) => {
            let implemented = flat_traits(scan.derive_wheres);
            let skip_inner = match scan.skip_inner_at {
                Some(i) => spec_skip_add(
                    SkipV::Nothing,
                    implemented,
                    None,
                    option_at(attrs, i).0,
                    option_at(attrs, i).1,
                    features,
                ),
                None => Ok(SkipV::Nothing),
            };
            let incomparable = match scan.incomparable_at {
                Some(i) => spec_incomparable_add(None, option_at(attrs, i).0, implemented),
                None => Ok(None),
            };
            match skip_inner {
                Err(e) => Err(e),
                Ok(si) => match incomparable {
                    Err(e) => Err(e),
                    Ok(inc) => if scan.derive_wheres.len() == 0 {
                        Err(err(span, msg_none()))
                    } else if kind == ItemKind::Union && any_not_unionable(scan.derive_wheres) {
                        Err(err(span, msg_union()))
                    } else {
                        Ok(
                            ItemAttrV {
                                skip_inner: si,
                                incomparable: inc,
                                crate_: scan.crate_,
                                derive_wheres: scan.derive_wheres,
                            },
                        )
                    },
                },
            }
        },
    }
}

/// `a` is a `derive_where` attribute that lists traits.
pub open spec fn is_trait_list_attr(a: Attr) -> bool {
    &&& attr_is(a, "derive_where"@)
    &&& a.args is List
    &&& a.args->List_0@.len() > 0
    &&& item_option(a.args->List_0@, a.span) is None
}

/// `b` is a `derive_where` attribute holding the single option
/// `skip_inner`.
pub open spec fn is_skip_inner_attr(b: Attr) -> bool {
    &&& attr_is(b, "derive_where"@)
    &&& b.args is List
    &&& b.args->List_0@.len() > 0
    &&& item_option(b.args->List_0@, b.span) matches Some(m) && m.path().is_ident("skip_inner"@)
}

/// A scan of `p + [a, b] + q` seen from `p + [b, a] + q`, where `p` has
/// `n` attributes: `b` stands at `n` instead of `n + 1`.
pub open spec fn shift_skip(s: ItemScan, n: int) -> ItemScan {
    if s.skip_inner_at == Some(n + 1) {
        ItemScan { skip_inner_at: Some(n), ..s }
    } else {
        s
    }
}

/// The results of reading both orders agree.
pub open spec fn scans_agree(
    ra: Result<ItemScan, ErrV>,
    rb: Result<ItemScan, ErrV>,
    n: int,
    len: int,
) -> bool {
    match (ra, rb) {
        (Ok(x), Ok(y)) => y == shift_skip(x, n) && !(x.incomparable_at == Some(n))
            && !(x.incomparable_at == Some(n + 1)) && (x.skip_inner_at is Some
            ==> x.skip_inner_at->Some_0 >= n + 1 || x.skip_inner_at->Some_0 < n) && (
        x.skip_inner_at is Some ==> 0 <= x.skip_inner_at->Some_0 < len) && (x.incomparable_at is Some
            ==> 0 <= x.incomparable_at->Some_0 < len),
        (Err(x), Err(y)) => x == y,
        _ => false,
    }
}

/// The attributes after the swapped pair are read alike.
proof fn lemma_swap_suffix(
    sa: ItemScan,
    la: Seq<Attr>,
    lb: Seq<Attr>,
    i: int,
    n: int,
    kind: ItemKind,
    features: Features,
    rd: Reader,
)
    requires
        0 <= n,
        n + 2 <= i <= la.len(),
        la.len() == lb.len(),
        forall|j: int| n + 2 <= j < la.len() ==> la[j] == lb[j],
        !(sa.incomparable_at == Some(n)),
        !(sa.incomparable_at == Some(n + 1)),
        sa.skip_inner_at is Some ==> sa.skip_inner_at->Some_0 >= n + 1
            || sa.skip_inner_at->Some_0 < n,
        sa.skip_inner_at is Some ==> 0 <= sa.skip_inner_at->Some_0 < la.len(),
        sa.incomparable_at is Some ==> 0 <= sa.incomparable_at->Some_0 < la.len(),
    ensures
        scans_agree(
            item_attrs_fold(sa, la, i, kind, features, rd),
            item_attrs_fold(shift_skip(sa, n), lb, i, kind, features, rd),
            n,
            la.len() as int,
        ),
    decreases la.len() - i,
{
    if i < la.len() {
        assert(la[i] == lb[i]);
        if attr_is(la[i], "derive_where"@) {
            match item_attr_step(sa, la, i, kind, features, rd) {
                Ok(st2) => {
                    assert(item_attr_step(shift_skip(sa, n), lb, i, kind, features, rd) == Ok::<
                        ItemScan,
                        ErrV,
                    >(shift_skip(st2, n)));
                    lemma_swap_suffix(st2, la, lb, i + 1, n, kind, features, rd);
                },
                Err(e) => {
                    assert(item_attr_step(shift_skip(sa, n), lb, i, kind, features, rd) == Err::<
                        ItemScan,
                        ErrV,
                    >(e));
                },
            }
        } else {
            lemma_swap_suffix(sa, la, lb, i + 1, n, kind, features, rd);
        }
    }
}

/// The attributes before the swapped pair, and the pair itself, are read
/// alike.
proof fn lemma_swap_prefix(
    s: ItemScan,
    la: Seq<Attr>,
    lb: Seq<Attr>,
    i: int,
    n: int,
    kind: ItemKind,
    features: Features,
    rd: Reader,
)
    requires
        0 <= i <= n,
        n + 2 <= la.len(),
        la.len() == lb.len(),
        forall|j: int| 0 <= j < n ==> la[j] == lb[j],
        forall|j: int| n + 2 <= j < la.len() ==> la[j] == lb[j],
        is_trait_list_attr(la[n]),
        is_skip_inner_attr(la[n + 1]),
        lb[n] == la[n + 1],
        lb[n + 1] == la[n],
        kind != ItemKind::Enum,
        s.incomparable_at is Some ==> 0 <= s.incomparable_at->Some_0 < i,
        s.skip_inner_at is Some ==> 0 <= s.skip_inner_at->Some_0 < i,
    ensures
        scans_agree(
            item_attrs_fold(s, la, i, kind, features, rd),
            item_attrs_fold(s, lb, i, kind, features, rd),
            n,
            la.len() as int,
        ),
    decreases n - i,
{
    if i < n {
        assert(la[i] == lb[i]);
        if attr_is(la[i], "derive_where"@) {
            match item_attr_step(s, la, i, kind, features, rd) {
                Ok(st2) => {
                    assert(item_attr_step(s, lb, i, kind, features, rd) == Ok::<ItemScan, ErrV>(st2));
                    lemma_swap_prefix(st2, la, lb, i + 1, n, kind, features, rd);
                },
                Err(e) => {
                    assert(item_attr_step(s, lb, i, kind, features, rd) == Err::<ItemScan, ErrV>(e));
                },
            }
        } else {
            lemma_swap_prefix(s, la, lb, i + 1, n, kind, features, rd);
        }
    } else {
        match item_attr_step(s, la, n, kind, features, rd) {
            Ok(s1) => {
                let s2 = ItemScan { skip_inner_at: Some(n + 1), ..s1 };
                assert(item_attr_step(s1, la, n + 1, kind, features, rd) == Ok::<ItemScan, ErrV>(s2));
                let t1 = ItemScan { skip_inner_at: Some(n), ..s };
                assert(item_attr_step(s, lb, n, kind, features, rd) == Ok::<ItemScan, ErrV>(t1));
                assert(item_attr_step(t1, lb, n + 1, kind, features, rd) == Ok::<ItemScan, ErrV>(
                    shift_skip(s2, n),
                ));
                assert(item_attrs_fold(s, la, n, kind, features, rd) == item_attrs_fold(
                    s1,
                    la,
                    n + 1,
                    kind,
                    features,
                    rd,
                ));
                assert(item_attrs_fold(s1, la, n + 1, kind, features, rd) == item_attrs_fold(
                    s2,
                    la,
                    n + 2,
                    kind,
                    features,
                    rd,
                ));
                assert(item_attrs_fold(s, lb, n, kind, features, rd) == item_attrs_fold(
                    t1,
                    lb,
                    n + 1,
                    kind,
                    features,
                    rd,
                ));
                assert(item_attrs_fold(t1, lb, n + 1, kind, features, rd) == item_attrs_fold(
                    shift_skip(s2, n),
                    lb,
                    n + 2,
                    kind,
                    features,
                    rd,
                ));
                lemma_swap_suffix(s2, la, lb, n + 2, n, kind, features, rd);
            },
            Err(e) => {
                let t1 = ItemScan { skip_inner_at: Some(n), ..s };
                assert(item_attr_step(s, lb, n, kind, features, rd) == Ok::<ItemScan, ErrV>(t1));
                assert(item_attr_step(t1, lb, n + 1, kind, features, rd) == Err::<ItemScan, ErrV>(e));
                assert(item_attrs_fold(s, lb, n, kind, features, rd) == item_attrs_fold(
                    t1,
                    lb,
                    n + 1,
                    kind,
                    features,
                    rd,
                ));
            },
        }
    }
}

/// Where a struct's or union's `skip_inner` option stands among its
/// `derive_where` attributes does not matter: it is checked against the
/// traits of all of them.
pub proof fn lemma_skip_inner_order(
    p: Seq<Attr>,
    a: Attr,
    b: Attr,
    q: Seq<Attr>,
    span: usize,
    kind: ItemKind,
    features: Features,
    rd: Reader,
)
    requires
        is_trait_list_attr(a),
        is_skip_inner_attr(b),
        kind != ItemKind::Enum,
    ensures
        spec_item_attr(p + seq![a, b] + q, span, kind, features, rd) == spec_item_attr(
            p + seq![b, a] + q,
            span,
            kind,
            features,
            rd,
        ),
{
    let la = p + seq![a, b] + q;
    let lb = p + seq![b, a] + q;
    let n = p.len() as int;
    assert(la[n] == a);
    assert(la[n + 1] == b);
    assert(lb[n] == b);
    assert(lb[n + 1] == a);
    assert forall|j: int| 0 <= j < n implies la[j] == lb[j] by {
        assert(la[j] == p[j]);
        assert(lb[j] == p[j]);
    }
    assert forall|j: int| n + 2 <= j < la.len() implies la[j] == lb[j] by {
        assert(la[j] == q[j - n - 2]);
        assert(lb[j] == q[j - n - 2]);
    }
    let start = ItemScan {
        skip_inner_at: None,
        incomparable_at: None,
        crate_: None,
        derive_wheres: seq![],
    };
    lemma_swap_prefix(start, la, lb, 0, n, kind, features, rd);
    match item_attrs_fold(start, la, 0, kind, features, rd) {
        Ok(x) => {
            match x.skip_inner_at {
                Some(k) => {
                    if k == n + 1 {
                        assert(option_at(la, n + 1) == option_at(lb, n));
                    } else {
                        assert(la[k] == lb[k]);
                        assert(option_at(la, k) == option_at(lb, k));
                    }
                },
                None => {},
            }
            match x.incomparable_at {
                Some(k) => {
                    assert(la[k] == lb[k]);
                    assert(option_at(la, k) == option_at(lb, k));
                },
                None => {},
            }
        },
        Err(_) => {},
    }
}

/// An item's `skip_inner` skips only traits that support skipping and are
/// derived.
pub proof fn lemma_item_attr_skip(
    attrs: Seq<Attr>,
    span: usize,
    kind: ItemKind,
    features: Features,
    rd: Reader,
)
    ensures
        spec_item_attr(attrs, span, kind, features, rd) matches Ok(ia) ==> skip_ok(
            ia.skip_inner,
            flat_traits(ia.derive_wheres),
            None,
        ),
{
    let start = ItemScan {
        skip_inner_at: None,
        incomparable_at: None,
        crate_: None,
        derive_wheres: seq![],
    };
    match item_attrs_fold(start, attrs, 0, kind, features, rd) {
        Ok(scan) => match scan.skip_inner_at {
            Some(i) => {
                lemma_skip_add_wf(
                    SkipV::Nothing,
                    flat_traits(scan.derive_wheres),
                    None,
                    option_at(attrs, i).0,
                    option_at(attrs, i).1,
                    features,
                );
            },
            None => {},
        },
        Err(_) => {},
    }
}

/// The scan state held by the executable loop.
pub open spec fn scan_of(
    si: Option<usize>,
    inc: Option<usize>,
    crate_: Option<MetaPath>,
    dws: Seq<DeriveWhere>,
) -> ItemScan {
    ItemScan {
        skip_inner_at: match si {
            Some(i) => Some(i as int),
            None => None,
        },
        incomparable_at: match inc {
            Some(i) => Some(i as int),
            None => None,
        },
        crate_: opt_path(crate_),
        derive_wheres: dws.map_values(|d: DeriveWhere| d@),
    }
}

/// `attrs[k]` holds a single option that can be read again.
pub open spec fn option_readable(attrs: Seq<Attr>, k: Option<usize>) -> bool {
    k matches Some(i) ==> i < attrs.len() && attrs[i as int].args is List && spec_parse_meta(
        attrs[i as int].args->List_0@,
        0,
        attrs[i as int].span,
    ) is Ok
}

/// Reads again the single option of an attribute.
fn reread_option(a: &Attr) -> (r: (Meta, &Vec<Tok>))
    requires
        a.args is List,
        spec_parse_meta(a.args->List_0@, 0, a.span) is Ok,
    ensures
        r.0@ == spec_parse_meta(a.args->List_0@, 0, a.span)->Ok_0.0,
        r.1@ == a.args->List_0@,
        meta_wf(r.0@, r.1@),
{
    match &a.args {
        AttrArgs::List(toks) => {
            let (m, _) = parse_meta(toks, 0, a.span).unwrap();
            (m, toks)
        },
        _ => {
            proof {
                assert(false);
            }
            unreached()
        },
    }
}

impl ItemAttr {
    /// Reads one `derive_where` attribute of an item into the scan state.
    #[verifier::loop_isolation(false)]
    fn scan_attr(
        attrs: &Vec<Attr>,
        i: usize,
        kind: ItemKind,
        features: Features,
        skip_inner_at: &mut Option<usize>,
        incomparable_at: &mut Option<usize>,
        crate_: &mut Option<MetaPath>,
        dws: &mut Vec<DeriveWhere>,
        reads: &mut Reads,
    ) -> (r: Result<(), DeriveError>)
        requires
            i < attrs@.len(),
            old(reads).wf(),
        ensures
            final(reads).wf(),
            final(reads).extends(*old(reads)),
            forall|rd: Reader| #[trigger] final(reads).agrees(rd) ==> match (
                r,
                item_attr_step(
                    scan_of(*old(skip_inner_at), *old(incomparable_at), *old(crate_), old(dws)@),
                    attrs@,
                    i as int,
                    kind,
                    features,
                    rd,
                ),
            ) {
                (Ok(()), Ok(y)) => scan_of(
                    *final(skip_inner_at),
                    *final(incomparable_at),
                    *final(crate_),
                    final(dws)@,
                ) == y,
                (Err(x), Err(y)) => x@ == y,
                _ => false,
            },
            *final(skip_inner_at) == *old(skip_inner_at) || *final(skip_inner_at) == Some(i),
            *final(incomparable_at) == *old(incomparable_at) || *final(incomparable_at) == Some(i),
            *final(skip_inner_at) != *old(skip_inner_at) ==> option_readable(attrs@, Some(i)),
            *final(incomparable_at) != *old(incomparable_at) ==> option_readable(attrs@, Some(i)),
    {
        let a = &attrs[i];
        match &a.args {
            AttrArgs::List(toks) => {
                if toks.len() == 0 {
                    return Err(Error::empty(a.span));
                }
                let single = match parse_meta(toks, 0, a.span) {
                    Ok((m, next)) => if next == toks.len() && (m.path().is_ident("skip_inner")
                        || m.path().is_ident("incomparable") || m.path().is_ident("crate")) {
                        Some(m)
                    } else {
                        None
                    },
                    Err(_) => None,
                };
                match single {
                    Some(m) => {
                        if m.path().is_ident("skip_inner") {
                            if kind == ItemKind::Enum {
                                Err(Error::option_enum_skip_inner(m.path().span))
                            } else {
                                *skip_inner_at = Some(i);
                                Ok(())
                            }
                        } else if m.path().is_ident("incomparable") {
                            *incomparable_at = Some(i);
                            Ok(())
                        } else {
                            match &m {
                                Meta::NameValue { path, value } => {
                                    if crate_.is_some() {
                                        Err(Error::option_duplicate(path.span, "crate"))
                                    } else {
                                        match crate_value(value, toks, reads) {
                                            Ok(p) => {
                                                proof {
                                                    if p@.leading_colon && p@.segments == seq![
                                                        "derive_where"@,
                                                    ] {
                                                        assert(p@.segments[0] == "derive_where"@);
                                                    }
                                                    if p@.segments.len() == 1 && p@.segments[0]
                                                        == "derive_where"@ {
                                                        assert(p@.segments =~= seq![
                                                            "derive_where"@,
                                                        ]);
                                                    }
                                                }
                                                if p.leading_colon && p.segments.len() == 1
                                                    && crate::util::str_eq(
                                                    p.segments[0].as_str(),
                                                    "derive_where",
                                                ) {
                                                    Err(
                                                        Error::path_unnecessary(
                                                            p.span,
                                                            "::derive_where",
                                                        ),
                                                    )
                                                } else {
                                                    *crate_ = Some(p);
                                                    Ok(())
                                                }
                                            },
                                            Err(e) => Err(e),
                                        }
                                    }
                                },
                                _ => Err(Error::option_syntax(m.path().span)),
                            }
                        }
                    },
                    None => match DeriveWhere::parse(toks, a.span, features, reads) {
                        Ok(dw) => {
                            let ghost before = dws@;
                            dws.push(dw);
                            assert(dws@.map_values(|d: DeriveWhere| d@) =~= before.map_values(
                                |d: DeriveWhere| d@,
                            ).push(dws@.last()@));
                            Ok(())
                        },
                        Err(e) => Err(e),
                    },
                }
            },
            _ => Err(Error::option_syntax(a.span)),
        }
    }
}

impl ItemAttr {
    /// Create [`ItemAttr`] from the attributes `attrs` of an item at `span`.
    #[verifier::loop_isolation(false)]
    pub fn from_attrs(
        span: usize,
        kind: ItemKind,
        attrs: &Vec<Attr>,
        features: Features,
        reads: &mut Reads,
    ) -> (r: Result<ItemAttr, DeriveError>)
        requires
            old(reads).wf(),
        ensures
            final(reads).wf(),
            final(reads).extends(*old(reads)),
            forall|rd: Reader|
                #[trigger] final(reads).agrees(rd) ==> match (
                    r,
                    spec_item_attr(attrs@, span, kind, features, rd),
                ) {
                    (Ok(x), Ok(y)) => x@ == y,
                    (Err(x), Err(y)) => x@ == y,
                    _ => false,
                },
    {
        let mut skip_inner_at: Option<usize> = None;
        let mut incomparable_at: Option<usize> = None;
        let mut crate_: Option<MetaPath> = None;
        let mut dws: Vec<DeriveWhere> = Vec::new();
        let ghost start = ItemScan {
            skip_inner_at: None,
            incomparable_at: None,
            crate_: None,
            derive_wheres: seq![],
        };
        assert(scan_of(skip_inner_at, incomparable_at, crate_, dws@) == start) by {
            assert(dws@.map_values(|d: DeriveWhere| d@) =~= seq![]);
        }
        let mut i: usize = 0;
        while i < attrs.len()
            invariant
                i <= attrs@.len(),
                start == (ItemScan {
                    skip_inner_at: None,
                    incomparable_at: None,
                    crate_: None,
                    derive_wheres: seq![],
                }),
                reads.wf(),
                reads.extends(*old(reads)),
                forall|rd: Reader|
                    #[trigger] reads.agrees(rd) ==> item_attrs_fold(
                        start,
                        attrs@,
                        0,
                        kind,
                        features,
                        rd,
                    ) == item_attrs_fold(
                        scan_of(skip_inner_at, incomparable_at, crate_, dws@),
                        attrs@,
                        i as int,
                        kind,
                        features,
                        rd,
                    ),
                option_readable(attrs@, skip_inner_at),
                option_readable(attrs@, incomparable_at),
                skip_inner_at matches Some(k) ==> k < i,
                incomparable_at matches Some(k) ==> k < i,
            decreases attrs.len() - i,
        {
            if attr_is_ident(&attrs[i], "derive_where") {
                let ghost r0 = *reads;
                let res = Self::scan_attr(
                    attrs,
                    i,
                    kind,
                    features,
                    &mut skip_inner_at,
                    &mut incomparable_at,
                    &mut crate_,
                    &mut dws,
                    reads,
                );
                proof {
                    Reads::lemma_extends(r0, *reads);
                }
                match res {
                    Ok(()) => {},
                    Err(e) => {
                        return Err(e);
                    },
                }
            }
            i = i + 1;
        }
        let implemented = implemented_traits(&dws);
        let mut skip_inner = Skip::Nothing;
        match skip_inner_at {
            Some(k) => {
                let (m, toks) = reread_option(&attrs[k]);
                match skip_inner.add_attribute(&implemented, None, &m, toks, features) {
                    Ok(()) => {},
                    Err(e) => {
                        return Err(e);
                    },
                }
            },
            None => {},
        }
        let mut incomparable = Incomparable(None);
        match incomparable_at {
            Some(k) => {
                let (m, _) = reread_option(&attrs[k]);
                match incomparable.add_attribute(&m, &implemented) {
                    Ok(()) => {},
                    Err(e) => {
                        return Err(e);
                    },
                }
            },
            None => {},
        }
        if dws.len() == 0 {
            return Err(Error::none(span));
        }
        let ghost dv = dws@.map_values(|d: DeriveWhere| d@);
        if kind == ItemKind::Union {
            let mut j: usize = 0;
            while j < implemented.len()
                invariant
                    j <= implemented@.len(),
                    implemented@ == flat_traits(dv),
                    forall|k: int| 0 <= k < j ==> (#[trigger] implemented@[k]).unionable(),
                decreases implemented.len() - j,
            {
                if !implemented[j].supports_union() {
                    assert(!flat_traits(dv)[j as int].unionable());
                    return Err(Error::union(span));
                }
                j = j + 1;
            }
        }
        Ok(ItemAttr { skip_inner, incomparable, crate_, derive_wheres: dws })
    }
}

} // verus!
