//! Generic bounds of a `derive_where` attribute, after the `;`.

use vstd::prelude::*;

use crate::error::{err, msg_generic, msg_generic_syntax, DeriveError, ErrV, Error};
use crate::meta::{is_punct, punct_at, span_at, span_of};
use crate::syntax::{
    answer_fits, is_plain_ident, is_simple_bound, lemma_ident_no_colon, reader_ok, Answer, AnswerV, Query,
    QueryV, Reader, Reads,
};
use crate::model::Tok;
use crate::tokens::{print_range, toks_text};

verus! {

/// Holds a single generic type or type with bound.
pub enum Generic {
    /// Generic type with custom specified bounds, as source text.
    CustomBound { text: String },
    /// Generic type which will be bound to the trait, as source text, and
    /// its name when it is a single identifier.
    NoBound { text: String, ident: Option<String> },
}

/// Mathematical value of a [`Generic`].
pub enum GenericV {
    CustomBound { text: Seq<char> },
    NoBound { text: Seq<char>, ident: Option<Seq<char>> },
}

impl View for Generic {
    type V = GenericV;

    open spec fn view(&self) -> GenericV {
        match self {
            Generic::CustomBound { text } => GenericV::CustomBound { text: text@ },
            Generic::NoBound { text, ident } => GenericV::NoBound {
                text: text@,
                ident: match ident {
                    Some(i) => Some(i@),
                    None => None,
                },
            },
        }
    }
}

/// `toks[j]` is a joint `-` or `=`, the first half of `->` or `=>`.
pub open spec fn arrow_head(toks: Seq<Tok>, j: int) -> bool {
    0 <= j < toks.len() && (toks[j] matches Tok::Punct { ch, joint, .. } && joint && (ch == '-'
        || ch == '='))
}

/// How `toks[i]` changes the depth of angle brackets.
pub open spec fn angle_delta(toks: Seq<Tok>, i: int) -> int {
    if is_punct(toks, i, '<') {
        1
    } else if is_punct(toks, i, '>') && !arrow_head(toks, i - 1) {
        -1
    } else {
        0
    }
}

/// Position of the first comma from `pos` outside angle brackets, given
/// the depth at `pos`; the length if there is none.
pub open spec fn segment_end(toks: Seq<Tok>, pos: int, depth: int) -> int
    decreases toks.len() - pos,
{
    if pos < 0 || pos >= toks.len() {
        toks.len() as int
    } else if depth == 0 && is_punct(toks, pos, ',') {
        pos
    } else {
        segment_end(toks, pos + 1, depth + angle_delta(toks, pos))
    }
}

/// The name of the generic written in `toks[a..b]`, when it is a single
/// identifier.
pub open spec fn ident_of(toks: Seq<Tok>, a: int, b: int) -> Option<Seq<char>> {
    if b == a + 1 && toks[a] is Ident {
        Some(toks[a]->Ident_name@)
    } else {
        None
    }
}

/// The generic written as `text` at `span`, named `ident` when it is a
/// single identifier, given `syn`'s answers to reading `text` as a `where`
/// predicate (`pa`) and, if that was refused, as a type (`ta`).
pub open spec fn spec_generic_answers(
    text: Seq<char>,
    ident: Option<Seq<char>>,
    span: usize,
    pa: AnswerV,
    ta: AnswerV,
) -> Result<GenericV, ErrV> {
    match pa {
        AnswerV::Predicate { bounds_type } => if bounds_type {
            Ok(GenericV::CustomBound { text })
        } else {
            Err(err(span, msg_generic()))
        },
        _ => match ta {
            AnswerV::Type => Ok(GenericV::NoBound { text, ident }),
            AnswerV::Refused { message } => Err(err(span, msg_generic_syntax(message))),
            _ => Err(err(span, msg_generic_syntax(seq![]))),
        },
    }
}

/// The generic written in `toks[a..b]`, as `rd` reads its text.
pub open spec fn spec_parse_generic(toks: Seq<Tok>, a: int, b: int, end: usize, rd: Reader) -> Result<
    GenericV,
    ErrV,
> {
    let text = toks_text(toks.subrange(a, b));
    spec_generic_answers(
        text,
        ident_of(toks, a, b),
        span_at(toks, a, end),
        rd(QueryV::Predicate(text)),
        rd(QueryV::Type(text)),
    )
}

/// Whatever `syn`'s token implementation, a generic written as a plain
/// identifier is bound to the trait, and a plain identifier bounded by
/// another is kept as the bound.
pub proof fn lemma_plain_generic(toks: Seq<Tok>, a: int, b: int, end: usize, rd: Reader)
    requires
        reader_ok(rd),
    ensures
        ({
            let text = toks_text(toks.subrange(a, b));
            &&& is_plain_ident(text) ==> spec_parse_generic(toks, a, b, end, rd) == Ok::<
                GenericV,
                ErrV,
            >(GenericV::NoBound { text, ident: ident_of(toks, a, b) })
            &&& is_simple_bound(text) ==> spec_parse_generic(toks, a, b, end, rd) == Ok::<
                GenericV,
                ErrV,
            >(GenericV::CustomBound { text })
        }),
{
    let text = toks_text(toks.subrange(a, b));
    assert(answer_fits(QueryV::Predicate(text), rd(QueryV::Predicate(text))));
    assert(answer_fits(QueryV::Type(text), rd(QueryV::Type(text))));
    if is_plain_ident(text) {
        lemma_ident_no_colon(text);
    }
}

/// The generics separated by commas from `pos` to the end, a trailing
/// comma allowed.
pub open spec fn spec_parse_generics(toks: Seq<Tok>, pos: int, end: usize, rd: Reader) -> Result<
    Seq<GenericV>,
    ErrV,
>
    decreases toks.len() - pos,
{
    if pos < 0 || pos >= toks.len() {
        Ok(seq![])
    } else {
        let e = segment_end(toks, pos, 0);
        match spec_parse_generic(toks, pos, e, end, rd) {
            Err(x) => Err(x),
            Ok(g) => if e >= toks.len() || e < pos {
                Ok(seq![g])
            } else {
                match spec_parse_generics(toks, e + 1, end, rd) {
                    Ok(rest) => Ok(seq![g] + rest),
                    Err(x) => Err(x),
                }
            },
        }
    }
}

/// Checks [`arrow_head`].
fn arrow_head_at(toks: &Vec<Tok>, j: usize) -> (b: bool)
    ensures
        b == arrow_head(toks@, j as int),
{
    if j < toks.len() {
        match &toks[j] {
            Tok::Punct { ch, joint, .. } => *joint && (*ch == '-' || *ch == '='),
            _ => false,
        }
    } else {
        false
    }
}

/// Computes [`angle_delta`].
fn angle_delta_at(toks: &Vec<Tok>, i: usize) -> (d: i128)
    ensures
        d == angle_delta(toks@, i as int),
{
    if punct_at(toks, i, '<') {
        1
    } else if punct_at(toks, i, '>') && !(i > 0 && arrow_head_at(toks, i - 1)) {
        -1
    } else {
        0
    }
}

/// Computes [`segment_end`] at depth zero.
fn find_segment_end(toks: &Vec<Tok>, pos: usize) -> (e: usize)
    requires
        pos <= toks@.len(),
    ensures
        e == segment_end(toks@, pos as int, 0),
        pos <= e <= toks@.len(),
{
    let mut i = pos;
    let mut depth: i128 = 0;
    while i < toks.len()
        invariant
            pos <= i <= toks@.len(),
            -(i - pos) <= depth <= i - pos,
            segment_end(toks@, pos as int, 0) == segment_end(toks@, i as int, depth as int),
        decreases toks.len() - i,
    {
        if depth == 0 && punct_at(toks, i, ',') {
            return i;
        }
        depth = depth + angle_delta_at(toks, i);
        i = i + 1;
    }
    i
}

/// The generic written as `text` at `span`, named `ident` when it is a
/// single identifier, given `syn`'s answers to reading `text` as a `where`
/// predicate (`pa`) and as a type (`ta`); `ta` counts only where `pa` is a
/// refusal.
pub fn generic_answers(
    text: String,
    ident: Option<String>,
    span: usize,
    pa: Answer,
    ta: Answer,
) -> (r: Result<Generic, DeriveError>)
    ensures
        match (
            r,
            spec_generic_answers(
                text@,
                match ident {
                    Some(i) => Some(i@),
                    None => None,
                },
                span,
                pa@,
                ta@,
            ),
        ) {
            (Ok(x), Ok(y)) => x@ == y,
            (Err(x), Err(y)) => x@ == y,
            _ => false,
        },
{
    proof {
        reveal_strlit("");
    }
    match pa {
        Answer::Predicate { bounds_type } => if bounds_type {
            Ok(Generic::CustomBound { text })
        } else {
            Err(Error::generic(span))
        },
        _ => match ta {
            Answer::Type => Ok(Generic::NoBound { text, ident }),
            Answer::Refused { message } => Err(Error::generic_syntax(span, message.as_str())),
            _ => Err(Error::generic_syntax(span, "")),
        },
    }
}

/// Reads the generic written in `toks[a..b]`.
fn parse_generic(toks: &Vec<Tok>, a: usize, b: usize, end: usize, reads: &mut Reads) -> (r: Result<
    Generic,
    DeriveError,
>)
    requires
        a <= b <= toks@.len(),
        old(reads).wf(),
    ensures
        final(reads).wf(),
        final(reads).extends(*old(reads)),
        forall|rd: Reader|
            #[trigger] final(reads).agrees(rd) ==> match (
                r,
                spec_parse_generic(toks@, a as int, b as int, end, rd),
            ) {
                (Ok(x), Ok(y)) => x@ == y,
                (Err(x), Err(y)) => x@ == y,
                _ => false,
            },
{
    let text = print_range(toks, a, b);
    let ident = if b > a && b - a == 1 {
        match &toks[a] {
            Tok::Ident { name, .. } => Some(name.clone()),
            _ => None,
        }
    } else {
        None
    };
    let span = span_of(toks, a, end);
    let ghost r0 = *reads;
    let pa = reads.read(&Query::Predicate(text.clone()));
    match pa {
        Answer::Predicate { .. } => generic_answers(text, ident, span, pa, Answer::Type),
        _ => {
            let ghost r1 = *reads;
            let ta = reads.read(&Query::Type(text.clone()));
            proof {
                Reads::lemma_extends(r1, *reads);
            }
            generic_answers(text, ident, span, pa, ta)
        },
    }
}

/// Reads the generics separated by commas from `pos` to the end.
pub fn parse_generics(toks: &Vec<Tok>, pos: usize, end: usize, reads: &mut Reads) -> (r: Result<
    Vec<Generic>,
    DeriveError,
>)
    requires
        pos <= toks@.len(),
        old(reads).wf(),
    ensures
        final(reads).wf(),
        final(reads).extends(*old(reads)),
        forall|rd: Reader|
            #[trigger] final(reads).agrees(rd) ==> match (
                r,
                spec_parse_generics(toks@, pos as int, end, rd),
            ) {
                (Ok(x), Ok(y)) => x@.map_values(|g: Generic| g@) == y,
                (Err(x), Err(y)) => x@ == y,
                _ => false,
            },
    decreases toks@.len() - pos,
{
    if pos >= toks.len() {
        let v: Vec<Generic> = Vec::new();
        assert(v@.map_values(|g: Generic| g@) =~= seq![]);
        return Ok(v);
    }
    let e = find_segment_end(toks, pos);
    let ghost r0 = *reads;
    let g = match parse_generic(toks, pos, e, end, reads) {
        Ok(g) => g,
        Err(x) => {
            return Err(x);
        },
    };
    let mut v: Vec<Generic> = Vec::new();
    v.push(g);
    if e >= toks.len() {
        assert(v@.map_values(|g: Generic| g@) =~= seq![v@[0]@]);
        return Ok(v);
    }
    let ghost r1 = *reads;
    let res = parse_generics(toks, e + 1, end, reads);
    proof {
        Reads::lemma_extends(r1, *reads);
    }
    match res {
        Ok(rest) => {
            let mut rest = rest;
            let ghost r0 = rest@;
            v.append(&mut rest);
            assert(v@.map_values(|g: Generic| g@) =~= seq![v@[0]@] + r0.map_values(
                |g: Generic| g@,
            ));
            Ok(v)
        },
        Err(x) => Err(x),
    }
}

} // verus!
