//! Options inside `derive_where` attributes: paths, lists and name-value
//! pairs, read from attribute tokens.

use vstd::prelude::*;

use crate::error::{err, msg_empty, msg_option_syntax, DeriveError, ErrV, Error};
use crate::model::{Attr, AttrArgs, Delim, Tok};
use crate::util::str_eq;

verus! {

/// A path of identifiers, as in `a::b` or `::a`.
pub struct MetaPath {
    /// Whether the path starts with `::`.
    pub leading_colon: bool,
    /// Identifiers.
    pub segments: Vec<String>,
    /// Location of the first token of the path.
    pub span: usize,
}

/// Mathematical value of a [`MetaPath`].
pub struct PathV {
    pub leading_colon: bool,
    pub segments: Seq<Seq<char>>,
    pub span: usize,
}

impl View for MetaPath {
    type V = PathV;

    open spec fn view(&self) -> PathV {
        PathV {
            leading_colon: self.leading_colon,
            segments: self.segments@.map_values(|s: String| s@),
            span: self.span,
        }
    }
}

impl PathV {
    /// The path is a single identifier without leading `::`.
    pub open spec fn is_ident(self, name: Seq<char>) -> bool {
        !self.leading_colon && self.segments.len() == 1 && self.segments[0] == name
    }

    /// The path is a single identifier without leading `::`.
    pub open spec fn get_ident(self) -> Option<Seq<char>> {
        if !self.leading_colon && self.segments.len() == 1 {
            Some(self.segments[0])
        } else {
            None
        }
    }
}

/// The value after `=` in a name-value option.
pub enum MetaValue {
    /// A literal, by its index among the tokens.
    Lit(usize),
    /// A path.
    Path(MetaPath),
}

/// Mathematical value of a [`MetaValue`].
pub enum MetaValueV {
    Lit(usize),
    Path(PathV),
}

impl View for MetaValue {
    type V = MetaValueV;

    open spec fn view(&self) -> MetaValueV {
        match self {
            MetaValue::Lit(i) => MetaValueV::Lit(*i),
            MetaValue::Path(p) => MetaValueV::Path(p@),
        }
    }
}

/// An option: `path`, `path( .. )` or `path = value`.
pub enum Meta {
    /// `path`
    Path(MetaPath),
    /// `path( .. )`, with the index of the group among the tokens.
    List { path: MetaPath, group: usize },
    /// `path = value`
    NameValue { path: MetaPath, value: MetaValue },
}

/// Mathematical value of a [`Meta`].
pub enum MetaV {
    Path(PathV),
    List { path: PathV, group: usize },
    NameValue { path: PathV, value: MetaValueV },
}

impl View for Meta {
    type V = MetaV;

    open spec fn view(&self) -> MetaV {
        match self {
            Meta::Path(p) => MetaV::Path(p@),
            Meta::List { path, group } => MetaV::List { path: path@, group: *group },
            Meta::NameValue { path, value } => MetaV::NameValue { path: path@, value: value@ },
        }
    }
}

impl MetaV {
    /// The path of the option.
    pub open spec fn path(self) -> PathV {
        match self {
            MetaV::Path(p) => p,
            MetaV::List { path, .. } => path,
            MetaV::NameValue { path, .. } => path,
        }
    }
}

impl Meta {
    /// The path of the option.
    pub fn path(&self) -> (p: &MetaPath)
        ensures
            p@ == self@.path(),
    {
        match self {
            Meta::Path(p) => p,
            Meta::List { path, .. } => path,
            Meta::NameValue { path, .. } => path,
        }
    }
}

impl MetaPath {
    /// Returns `true` if the path is the single identifier `name`.
    pub fn is_ident(&self, name: &str) -> (b: bool)
        ensures
            b == self@.is_ident(name@),
    {
        if !self.leading_colon && self.segments.len() == 1 {
            str_eq(self.segments[0].as_str(), name)
        } else {
            false
        }
    }
}

/// The option was read from `toks`: its paths have segments and the indices
/// it holds point at a group or a literal.
pub open spec fn meta_wf(m: MetaV, toks: Seq<Tok>) -> bool {
    &&& m.path().segments.len() > 0
    &&& m matches MetaV::List { group, .. } ==> group < toks.len() && toks[group as int] is Group
    &&& m matches MetaV::NameValue { value: MetaValueV::Lit(i), .. } ==> i < toks.len()
        && toks[i as int] is Literal
    &&& m matches MetaV::NameValue { value: MetaValueV::Path(p), .. } ==> p.segments.len() > 0
}

/// `toks[i]` is the punctuation `c`.
pub open spec fn is_punct(toks: Seq<Tok>, i: int, c: char) -> bool {
    0 <= i < toks.len() && (toks[i] matches Tok::Punct { ch, .. } && ch == c)
}

/// `toks[i]` and `toks[i + 1]` form `::`.
pub open spec fn colon2_at(toks: Seq<Tok>, i: int) -> bool {
    &&& is_punct(toks, i, ':')
    &&& toks[i] matches Tok::Punct { joint, .. } && joint
    &&& is_punct(toks, i + 1, ':')
}

/// Location of `toks[i]`, or `end` past the last token.
pub open spec fn span_at(toks: Seq<Tok>, i: int, end: usize) -> usize {
    if 0 <= i < toks.len() {
        toks[i].spec_span()
    } else {
        end
    }
}

/// Identifiers of a path starting at `pos`, separated by `::`, and the
/// position after them; or the position of the offending token.
pub open spec fn spec_path_segments(toks: Seq<Tok>, pos: int) -> Result<(Seq<Seq<char>>, int), int>
    decreases toks.len() - pos,
{
    if 0 <= pos < toks.len() && toks[pos] is Ident {
        let name = toks[pos]->Ident_name@;
        if colon2_at(toks, pos + 1) {
            match spec_path_segments(toks, pos + 3) {
                Ok((rest, end)) => Ok((seq![name] + rest, end)),
                Err(e) => Err(e),
            }
        } else {
            Ok((seq![name], pos + 1))
        }
    } else {
        Err(pos)
    }
}

/// A path starting at `pos`.
pub open spec fn spec_parse_path(toks: Seq<Tok>, pos: int, end: usize) -> Result<(PathV, int), int> {
    let lead = colon2_at(toks, pos);
    let start = if lead { pos + 2 } else { pos };
    match spec_path_segments(toks, start) {
        Ok((segments, next)) => Ok(
            (PathV { leading_colon: lead, segments, span: span_at(toks, pos, end) }, next),
        ),
        Err(e) => Err(e),
    }
}

/// An option starting at `pos`, and the position after it; or the position
/// of the offending token.
pub open spec fn spec_parse_meta(toks: Seq<Tok>, pos: int, end: usize) -> Result<(MetaV, int), int> {
    match spec_parse_path(toks, pos, end) {
        Err(e) => Err(e),
        Ok((path, next)) => {
            if 0 <= next < toks.len() && (toks[next] matches Tok::Group { delim, .. } && delim
                == Delim::Paren) {
                Ok((MetaV::List { path, group: next as usize }, next + 1))
            } else if is_punct(toks, next, '=') {
                if next + 1 < toks.len() && toks[next + 1] is Literal {
                    Ok(
                        (
                            MetaV::NameValue { path, value: MetaValueV::Lit((next + 1) as usize) },
                            next + 2,
                        ),
                    )
                } else {
                    match spec_parse_path(toks, next + 1, end) {
                        Ok((value, after)) => Ok(
                            (MetaV::NameValue { path, value: MetaValueV::Path(value) }, after),
                        ),
                        Err(_) => Err(next + 1),
                    }
                }
            } else {
                Ok((MetaV::Path(path), next))
            }
        },
    }
}

/// Options separated by commas from `pos` to the end, a trailing comma
/// allowed.
pub open spec fn spec_parse_meta_list(toks: Seq<Tok>, pos: int, end: usize) -> Result<Seq<MetaV>, int>
    decreases toks.len() - pos,
{
    if pos >= toks.len() || pos < 0 {
        Ok(seq![])
    } else {
        match spec_parse_meta(toks, pos, end) {
            Err(e) => Err(e),
            Ok((m, next)) => {
                if next >= toks.len() {
                    Ok(seq![m])
                } else if is_punct(toks, next, ',') && next >= pos {
                    match spec_parse_meta_list(toks, next + 1, end) {
                        Ok(rest) => Ok(seq![m] + rest),
                        Err(e) => Err(e),
                    }
                } else {
                    Err(next)
                }
            },
        }
    }
}

/// Lists equal as texts.
pub open spec fn texts(v: Seq<String>) -> Seq<Seq<char>> {
    v.map_values(|s: String| s@)
}

/// Checks [`is_punct`].
pub fn punct_at(toks: &Vec<Tok>, i: usize, c: char) -> (b: bool)
    ensures
        b == is_punct(toks@, i as int, c),
{
    if i < toks.len() {
        match &toks[i] {
            Tok::Punct { ch, .. } => *ch == c,
            _ => false,
        }
    } else {
        false
    }
}

/// Checks [`colon2_at`].
pub fn colon2(toks: &Vec<Tok>, i: usize) -> (b: bool)
    ensures
        b == colon2_at(toks@, i as int),
{
    if i < toks.len() && i + 1 < toks.len() {
        match &toks[i] {
            Tok::Punct { ch, joint, .. } => *ch == ':' && *joint && punct_at(toks, i + 1, ':'),
            _ => false,
        }
    } else {
        false
    }
}

/// Computes [`span_at`].
pub fn span_of(toks: &Vec<Tok>, i: usize, end: usize) -> (s: usize)
    ensures
        s == span_at(toks@, i as int, end),
{
    if i < toks.len() {
        toks[i].span()
    } else {
        end
    }
}

/// A successful parse consumes at least one token.
pub proof fn lemma_path_segments_progress(toks: Seq<Tok>, pos: int)
    ensures
        spec_path_segments(toks, pos) matches Ok((s, e)) ==> pos < e <= toks.len() && s.len() > 0,
        spec_path_segments(toks, pos) matches Err(e) ==> e >= pos,
    decreases toks.len() - pos,
{
    if 0 <= pos < toks.len() && toks[pos] is Ident && colon2_at(toks, pos + 1) {
        lemma_path_segments_progress(toks, pos + 3);
    }
}

/// A successful parse of an option consumes at least one token.
pub proof fn lemma_parse_meta_progress(toks: Seq<Tok>, pos: int, end: usize)
    requires
        toks.len() <= usize::MAX,
    ensures
        spec_parse_meta(toks, pos, end) matches Ok((m, e)) ==> pos < e <= toks.len() && meta_wf(
            m,
            toks,
        ),
        spec_parse_path(toks, pos, end) matches Ok((m, e)) ==> pos < e <= toks.len(),
{
    let start = if colon2_at(toks, pos) { pos + 2 } else { pos };
    lemma_path_segments_progress(toks, start);
    if let Ok((path, next)) = spec_parse_path(toks, pos, end) {
        let s2 = if colon2_at(toks, next + 1) { next + 3 } else { next + 1 };
        lemma_path_segments_progress(toks, s2);
    }
}

/// Identifiers separated by `::` from `pos`.
pub fn path_segments(toks: &Vec<Tok>, pos: usize) -> (r: Result<(Vec<String>, usize), usize>)
    requires
        pos <= toks.len(),
    ensures
        match (r, spec_path_segments(toks@, pos as int)) {
            (Ok((v, e)), Ok((s, e2))) => texts(v@) == s && e == e2,
            (Err(a), Err(b)) => a == b,
            _ => false,
        },
    decreases toks.len() - pos,
{
    if pos < toks.len() {
        match &toks[pos] {
            Tok::Ident { name, .. } => {
                if colon2(toks, pos + 1) {
                    match path_segments(toks, pos + 3) {
                        Ok((rest, end)) => {
                            let mut v = Vec::new();
                            v.push(name.clone());
                            let mut rest = rest;
                            let ghost r0 = rest@;
                            v.append(&mut rest);
                            assert(texts(v@) =~= seq![name@] + texts(r0));
                            Ok((v, end))
                        },
                        Err(e) => Err(e),
                    }
                } else {
                    let mut v = Vec::new();
                    v.push(name.clone());
                    assert(texts(v@) =~= seq![name@]);
                    Ok((v, pos + 1))
                }
            },
            _ => Err(pos),
        }
    } else {
        Err(pos)
    }
}

/// A path starting at `pos`; `end` is the location past the last token.
pub fn parse_path(toks: &Vec<Tok>, pos: usize, end: usize) -> (r: Result<(MetaPath, usize), usize>)
    requires
        pos <= toks.len(),
    ensures
        match (r, spec_parse_path(toks@, pos as int, end)) {
            (Ok((p, e)), Ok((q, e2))) => p@ == q && e == e2,
            (Err(a), Err(b)) => a == b,
            _ => false,
        },
{
    let lead = colon2(toks, pos);
    let start = if lead { pos + 2 } else { pos };
    let span = span_of(toks, pos, end);
    match path_segments(toks, start) {
        Ok((segments, next)) => Ok((MetaPath { leading_colon: lead, segments, span }, next)),
        Err(e) => Err(e),
    }
}

/// An option starting at `pos`; `end` is the location past the last token.
pub fn parse_meta(toks: &Vec<Tok>, pos: usize, end: usize) -> (r: Result<(Meta, usize), usize>)
    requires
        pos <= toks.len(),
    ensures
        match (r, spec_parse_meta(toks@, pos as int, end)) {
            (Ok((m, e)), Ok((n, e2))) => m@ == n && e == e2,
            (Err(a), Err(b)) => a == b,
            _ => false,
        },
        r matches Ok((m, e)) ==> meta_wf(m@, toks@) && pos < e <= toks.len(),
{
    proof {
        lemma_parse_meta_progress(toks@, pos as int, end);
    }
    match parse_path(toks, pos, end) {
        Err(e) => Err(e),
        Ok((path, next)) => {
            let is_group = if next < toks.len() {
                match &toks[next] {
                    Tok::Group { delim, .. } => *delim == Delim::Paren,
                    _ => false,
                }
            } else {
                false
            };
            if is_group {
                Ok((Meta::List { path, group: next }, next + 1))
            } else if punct_at(toks, next, '=') {
                let is_lit = next + 1 < toks.len() && match &toks[next + 1] {
                    Tok::Literal { .. } => true,
                    _ => false,
                };
                if is_lit {
                    Ok((Meta::NameValue { path, value: MetaValue::Lit(next + 1) }, next + 2))
                } else {
                    match parse_path(toks, next + 1, end) {
                        Ok((value, after)) => Ok(
                            (Meta::NameValue { path, value: MetaValue::Path(value) }, after),
                        ),
                        Err(_) => Err(next + 1),
                    }
                }
            } else {
                Ok((Meta::Path(path), next))
            }
        },
    }
}

/// Options separated by commas from `pos` to the end.
pub fn parse_meta_list(toks: &Vec<Tok>, pos: usize, end: usize) -> (r: Result<Vec<Meta>, usize>)
    requires
        pos <= toks.len(),
    ensures
        match (r, spec_parse_meta_list(toks@, pos as int, end)) {
            (Ok(v), Ok(w)) => v@.map_values(|m: Meta| m@) == w,
            (Err(a), Err(b)) => a == b,
            _ => false,
        },
        r matches Ok(v) ==> forall|i: int| 0 <= i < v@.len() ==> meta_wf(#[trigger] v@[i]@, toks@),
    decreases toks.len() - pos,
{
    if pos >= toks.len() {
        let v: Vec<Meta> = Vec::new();
        assert(v@.map_values(|m: Meta| m@) =~= seq![]);
        return Ok(v);
    }
    proof {
        lemma_parse_meta_progress(toks@, pos as int, end);
    }
    match parse_meta(toks, pos, end) {
        Err(e) => Err(e),
        Ok((m, next)) => {
            if next >= toks.len() {
                let mut v = Vec::new();
                v.push(m);
                assert(v@.map_values(|m: Meta| m@) =~= seq![v@[0]@]);
                Ok(v)
            } else if punct_at(toks, next, ',') {
                match parse_meta_list(toks, next + 1, end) {
                    Ok(rest) => {
                        let mut v = Vec::new();
                        v.push(m);
                        let mut rest = rest;
                        let ghost r0 = rest@;
                        v.append(&mut rest);
                        assert(v@.map_values(|m: Meta| m@) =~= seq![v@[0]@] + r0.map_values(
                            |m: Meta| m@,
                        ));
                        Ok(v)
                    },
                    Err(e) => Err(e),
                }
            } else {
                Err(next)
            }
        },
    }
}

/// The attribute's path is the single identifier `name`.
pub open spec fn attr_is(a: Attr, name: Seq<char>) -> bool {
    !a.leading_colon && a.path@.len() == 1 && a.path@[0]@ == name
}

/// Checks [`attr_is`].
pub fn attr_is_ident(a: &Attr, name: &str) -> (b: bool)
    ensures
        b == attr_is(*a, name@),
{
    !a.leading_colon && a.path.len() == 1 && str_eq(a.path[0].as_str(), name)
}

/// The options inside a `#[derive_where( .. )]` attribute on a field or
/// variant, with the tokens they were read from.
pub open spec fn spec_attr_metas(a: Attr) -> Result<(Seq<MetaV>, Seq<Tok>), ErrV> {
    match a.args {
        AttrArgs::List(toks) => match spec_parse_meta_list(toks@, 0, a.span) {
            Err(p) => Err(err(span_at(toks@, p, a.span), msg_option_syntax())),
            Ok(ms) => if ms.len() == 0 {
                Err(err(a.span, msg_empty()))
            } else {
                Ok((ms, toks@))
            },
        },
        _ => Err(err(a.span, msg_option_syntax())),
    }
}

/// Reads the options inside a `#[derive_where( .. )]` attribute.
pub fn attr_metas(a: &Attr) -> (r: Result<(Vec<Meta>, &Vec<Tok>), DeriveError>)
    ensures
        match (r, spec_attr_metas(*a)) {
            (Ok((ms, toks)), Ok((mv, tv))) => ms@.map_values(|m: Meta| m@) == mv && toks@ == tv
                && forall|i: int| 0 <= i < ms@.len() ==> meta_wf(#[trigger] ms@[i]@, toks@),
            (Err(x), Err(y)) => x@ == y,
            _ => false,
        },
{
    match &a.args {
        AttrArgs::List(toks) => match parse_meta_list(toks, 0, a.span) {
            Err(p) => Err(Error::option_syntax(span_of(toks, p, a.span))),
            Ok(ms) => if ms.len() == 0 {
                Err(Error::empty(a.span))
            } else {
                Ok((ms, toks))
            },
        },
        _ => Err(Error::option_syntax(a.span)),
    }
}

} // verus!
