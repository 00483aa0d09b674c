//! Attribute parsing for the `Zeroize(fqs)` option.

use vstd::prelude::*;

use crate::error::{
    err, msg_option, msg_option_duplicate, msg_option_required, msg_option_syntax, DeriveError,
    ErrV, Error,
};
use crate::meta::{meta_wf, parse_meta_list, span_at, span_of, spec_parse_meta_list, Meta, MetaV};
use crate::model::Tok;

verus! {

/// Stores if this field should use fully-qualified syntax to call
/// `Zeroize::zeroize`.
pub struct ZeroizeFqs(pub bool);

/// Applies the entries `metas[i..]` of `Zeroize( .. )` to the flag.
pub open spec fn fqs_fold(flag: bool, metas: Seq<MetaV>, i: int) -> Result<bool, ErrV>
    decreases metas.len() - i,
{
    if i < 0 || i >= metas.len() {
        Ok(flag)
    } else {
        match metas[i] {
            MetaV::Path(p) => if p.is_ident("fqs"@) {
                if flag {
                    Err(err(p.span, msg_option_duplicate("fqs"@)))
                } else {
                    fqs_fold(true, metas, i + 1)
                }
            } else {
                Err(err(p.span, msg_option()))
            },
            m => Err(err(m.path().span, msg_option_syntax())),
        }
    }
}

/// The result of adding the option `meta`, read from `toks`, to the flag.
pub open spec fn spec_fqs_add(flag: bool, meta: MetaV, toks: Seq<Tok>) -> Result<bool, ErrV> {
    match meta {
        MetaV::List { group, .. } => {
            let list = toks[group as int]->Group_inner@;
            let gspan = toks[group as int]->Group_span;
            match spec_parse_meta_list(list, 0, gspan) {
                Err(pos) => Err(err(span_at(list, pos, gspan), msg_option_syntax())),
                Ok(metas) => fqs_fold(flag, metas, 0),
            }
        },
        MetaV::Path(p) => Err(err(p.span, msg_option_required("Zeroize"@))),
        MetaV::NameValue { path, .. } => Err(err(path.span, msg_option_syntax())),
    }
}

impl ZeroizeFqs {
    /// Adds the `Zeroize( .. )` option `meta`, read from `toks`.
    #[verifier::loop_isolation(false)]
    pub fn add_attribute(&mut self, meta: &Meta, toks: &Vec<Tok>) -> (r: Result<(), DeriveError>)
        requires
            meta_wf(meta@, toks@),
        ensures
            match (r, spec_fqs_add(old(self).0, meta@, toks@)) {
                (Ok(()), Ok(v)) => final(self).0 == v,
                (Err(x), Err(y)) => x@ == y && final(self).0 == old(self).0,
                _ => false,
            },
    {
        match meta {
            Meta::List { group, .. } => match &toks[*group] {
                Tok::Group { inner: list, span: gspan, .. } => match parse_meta_list(
                    list,
                    0,
                    *gspan,
                ) {
                    Err(pos) => Err(Error::option_syntax(span_of(list, pos, *gspan))),
                    Ok(metas) => {
                        let ghost mv = metas@.map_values(|m: Meta| m@);
                        let ghost f0 = self.0;
                        let mut f = self.0;
                        let mut i: usize = 0;
                        while i < metas.len()
                            invariant
                                i <= metas@.len(),
                                mv == metas@.map_values(|m: Meta| m@),
                                fqs_fold(f0, mv, 0) == fqs_fold(f, mv, i as int),
                                self.0 == f0,
                            decreases metas.len() - i,
                        {
                            assert(mv[i as int] == metas@[i as int]@);
                            match &metas[i] {
                                Meta::Path(p) => {
                                    if p.is_ident("fqs") {
                                        if f {
                                            return Err(Error::option_duplicate(p.span, "fqs"));
                                        } else {
                                            f = true;
                                        }
                                    } else {
                                        return Err(Error::option(p.span));
                                    }
                                },
                                m => {
                                    return Err(Error::option_syntax(m.path().span));
                                },
                            }
                            i = i + 1;
                        }
                        self.0 = f;
                        Ok(())
                    },
                },
                _ => Err(Error::option_syntax(meta.path().span)),
            },
            Meta::Path(p) => Err(Error::option_required(p.span, "Zeroize")),
            Meta::NameValue { path, .. } => Err(Error::option_syntax(path.span)),
        }
    }
}

} // verus!
