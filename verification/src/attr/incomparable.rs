//! Attribute parsing for the `incomparable` option.

use vstd::prelude::*;

use crate::error::{
    err, msg_incomparable, msg_non_partial_incomparable, msg_option_duplicate, msg_option_syntax,
    DeriveError, ErrV, Error,
};
use crate::meta::{Meta, MetaV};
use crate::trait_::{contains_trait, Trait};

verus! {

/// Stores the location of the `incomparable` option, if it is given: the
/// item or variant then compares unequal to everything.
pub struct Incomparable(pub Option<usize>);

/// The result of adding the option `meta` when the current value is
/// `current`.
pub open spec fn spec_incomparable_add(
    current: Option<usize>,
    meta: MetaV,
    implemented: Seq<Trait>,
) -> Result<Option<usize>, ErrV> {
    match meta {
        MetaV::Path(p) => if current is Some {
            Err(err(p.span, msg_option_duplicate("incomparable"@)))
        } else if implemented.contains(Trait::Eq) || implemented.contains(Trait::Ord) {
            Err(err(p.span, msg_non_partial_incomparable()))
        } else if implemented.contains(Trait::PartialEq) || implemented.contains(
            Trait::PartialOrd,
        ) {
            Ok(Some(p.span))
        } else {
            Err(err(p.span, msg_incomparable()))
        },
        _ => Err(err(meta.path().span, msg_option_syntax())),
    }
}

impl Incomparable {
    /// Adds the `incomparable` option `meta`.
    pub fn add_attribute(&mut self, meta: &Meta, implemented: &Vec<Trait>) -> (r: Result<
        (),
        DeriveError,
    >)
        ensures
            match (r, spec_incomparable_add(old(self).0, meta@, implemented@)) {
                (Ok(()), Ok(v)) => final(self).0 == v,
                (Err(x), Err(y)) => x@ == y && final(self).0 == old(self).0,
                _ => false,
            },
    {
        match meta {
            Meta::Path(path) => {
                if self.0.is_some() {
                    Err(Error::option_duplicate(path.span, "incomparable"))
                } else if contains_trait(implemented, Trait::Eq) || contains_trait(
                    implemented,
                    Trait::Ord,
                ) {
                    Err(Error::non_partial_incomparable(path.span))
                } else if contains_trait(implemented, Trait::PartialEq) || contains_trait(
                    implemented,
                    Trait::PartialOrd,
                ) {
                    self.0 = Some(path.span);
                    Ok(())
                } else {
                    Err(Error::incomparable(path.span))
                }
            },
            _ => Err(Error::option_syntax(meta.path().span)),
        }
    }
}

} // verus!
