//! Attribute parsing for the `default` option.

use vstd::prelude::*;

use crate::error::{
    err, msg_default, msg_default_duplicate, msg_option_duplicate, msg_option_syntax, DeriveError,
    ErrV, Error,
};
use crate::meta::{Meta, MetaV};
use crate::trait_::{contains_trait, Trait};

verus! {

/// Stores if this variant should be the default when implementing `Default`.
pub struct Default(pub bool);

/// The result of adding the option `meta` to a variant whose `default` flag
/// is `flag`, where `accumulated` tells whether another variant already has
/// it: the new flag and the new accumulated flag.
pub open spec fn spec_default_add(
    flag: bool,
    meta: MetaV,
    implemented: Seq<Trait>,
    accumulated: bool,
) -> Result<(bool, bool), ErrV> {
    match meta {
        MetaV::Path(p) => if flag {
            Err(err(p.span, msg_option_duplicate("default"@)))
        } else if implemented.contains(Trait::Default) {
            if accumulated {
                Err(err(p.span, msg_default_duplicate()))
            } else {
                Ok((true, true))
            }
        } else {
            Err(err(p.span, msg_default()))
        },
        _ => Err(err(meta.path().span, msg_option_syntax())),
    }
}

impl Default {
    /// Adds the `default` option `meta` to this [`Default`].
    pub fn add_attribute(
        &mut self,
        meta: &Meta,
        implemented: &Vec<Trait>,
        accumulated_defaults: &mut Default,
    ) -> (r: Result<(), DeriveError>)
        ensures
            match (r, spec_default_add(old(self).0, meta@, implemented@, old(accumulated_defaults).0)) {
                (Ok(()), Ok((f, a))) => final(self).0 == f && final(accumulated_defaults).0 == a,
                (Err(x), Err(y)) => x@ == y && final(self).0 == old(self).0
                    && final(accumulated_defaults).0 == old(accumulated_defaults).0,
                _ => false,
            },
    {
        match meta {
            Meta::Path(path) => {
                if self.0 {
                    Err(Error::option_duplicate(path.span, "default"))
                } else if contains_trait(implemented, Trait::Default) {
                    if accumulated_defaults.0 {
                        Err(Error::default_duplicate(path.span))
                    } else {
                        accumulated_defaults.0 = true;
                        self.0 = true;
                        Ok(())
                    }
                } else {
                    Err(Error::default(path.span))
                }
            },
            _ => Err(Error::option_syntax(meta.path().span)),
        }
    }
}

} // verus!
