//! Printing tokens back as source text.

use vstd::prelude::*;

use crate::model::{Delim, Tok};

verus! {

/// Opening delimiter.
pub open spec fn open_text(d: Delim) -> Seq<char> {
    match d {
        Delim::Paren => "("@,
        Delim::Bracket => "["@,
        Delim::Brace => "{"@,
        Delim::Invisible => seq![],
    }
}

/// Closing delimiter.
pub open spec fn close_text(d: Delim) -> Seq<char> {
    match d {
        Delim::Paren => ")"@,
        Delim::Bracket => "]"@,
        Delim::Brace => "}"@,
        Delim::Invisible => seq![],
    }
}

/// What separates a token from the next: nothing after a joint punctuation,
/// a space otherwise.
pub open spec fn sep_after(t: Tok) -> Seq<char> {
    if t matches Tok::Punct { joint, .. } && joint {
        seq![]
    } else {
        " "@
    }
}

/// Source text of a token.
pub open spec fn tok_text(t: Tok) -> Seq<char>
    decreases t,
{
    match t {
        Tok::Ident { name, .. } => name@,
        Tok::Punct { text, .. } => text@,
        Tok::Literal { lit, .. } => lit.text@,
        Tok::Group { delim, inner, .. } => {
            proof {
                assert(decreases_to!(t => inner@));
            }
            open_text(delim) + toks_text(inner@) + close_text(delim)
        },
    }
}

/// Source text of a sequence of tokens.
pub open spec fn toks_text(s: Seq<Tok>) -> Seq<char>
    decreases s,
{
    if s.len() == 0 {
        seq![]
    } else {
        let prefix = s.subrange(0, s.len() - 1);
        let sep = if s.len() >= 2 {
            sep_after(s[s.len() - 2])
        } else {
            seq![]
        };
        toks_text(prefix) + sep + tok_text(s[s.len() - 1])
    }
}

/// Prints a token as source text.
pub fn print_tok(t: &Tok) -> (r: String)
    ensures
        r@ == tok_text(*t),
    decreases t,
{
    match t {
        Tok::Ident { name, .. } => name.clone(),
        Tok::Punct { text, .. } => text.clone(),
        Tok::Literal { lit, .. } => lit.text.clone(),
        Tok::Group { delim, inner, .. } => {
            proof {
                assert(decreases_to!(t => inner@));
            }
            let (open, close) = match delim {
                Delim::Paren => ("(", ")"),
                Delim::Bracket => ("[", "]"),
                Delim::Brace => ("{", "}"),
                Delim::Invisible => ("", ""),
            };
            proof {
                reveal_strlit("");
            }
            let body = print_toks(inner);
            let mut r = String::from_str(open);
            r.append(body.as_str());
            r.append(close);
            r
        },
    }
}

/// Prints tokens as source text.
pub fn print_toks(v: &Vec<Tok>) -> (r: String)
    ensures
        r@ == toks_text(v@),
    decreases v@,
{
    let mut r = String::new();
    let mut i: usize = 0;
    assert(v@.subrange(0, 0) =~= seq![]);
    while i < v.len()
        invariant
            i <= v.len(),
            r@ == toks_text(v@.subrange(0, i as int)),
        decreases v.len() - i,
    {
        proof {
            assert(decreases_to!(v@ => v@[i as int]));
        }
        let ghost prev = r@;
        if i > 0 {
            let joint = match &v[i - 1] {
                Tok::Punct { joint, .. } => *joint,
                _ => false,
            };
            if !joint {
                r.append(" ");
            }
        }
        let t = print_tok(&v[i]);
        r.append(t.as_str());
        proof {
            let s = v@.subrange(0, i + 1);
            assert(s.subrange(0, s.len() - 1) =~= v@.subrange(0, i as int));
            assert(s[s.len() - 1] == v@[i as int]);
            if i > 0 {
                assert(s[s.len() - 2] == v@[i - 1]);
            }
        }
        i = i + 1;
    }
    assert(v@.subrange(0, v.len() as int) =~= v@);
    r
}

/// Prints the tokens `v[a..b]` as source text.
pub fn print_range(v: &Vec<Tok>, a: usize, b: usize) -> (r: String)
    requires
        a <= b <= v@.len(),
    ensures
        r@ == toks_text(v@.subrange(a as int, b as int)),
{
    let mut r = String::new();
    let mut i: usize = a;
    assert(v@.subrange(a as int, a as int) =~= seq![]);
    while i < b
        invariant
            a <= i <= b <= v@.len(),
            r@ == toks_text(v@.subrange(a as int, i as int)),
        decreases b - i,
    {
        if i > a {
            let joint = match &v[i - 1] {
                Tok::Punct { joint, .. } => *joint,
                _ => false,
            };
            if !joint {
                r.append(" ");
            }
        }
        let t = print_tok(&v[i]);
        r.append(t.as_str());
        proof {
            let s = v@.subrange(a as int, i + 1);
            assert(s.subrange(0, s.len() - 1) =~= v@.subrange(a as int, i as int));
            assert(s[s.len() - 1] == v@[i as int]);
            if i > a {
                assert(s[s.len() - 2] == v@[i - 1]);
            }
        }
        i = i + 1;
    }
    r
}

} // verus!
