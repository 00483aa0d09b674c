//! Attribute parsing for fields.

use vstd::prelude::*;

use crate::attr::skip::{lemma_skip_add_wf, skip_ok, spec_skip_add, Skip, SkipV};
use crate::attr::zeroize_fqs::{spec_fqs_add, ZeroizeFqs};
use crate::error::{err, msg_option, DeriveError, ErrV, Error};
use crate::meta::{attr_is, attr_is_ident, attr_metas, meta_wf, spec_attr_metas, Meta, MetaV};
use crate::model::{Attr, Tok};
use crate::trait_::{Features, Trait};

verus! {

/// Attributes on a field.
pub struct FieldAttr {
    /// Traits to skip this field for.
    pub skip: Skip,
    /// Use fully-qualified syntax for the `Zeroize` implementation on this
    /// field.
    pub zeroize_fqs: ZeroizeFqs,
}

/// Mathematical value of a [`FieldAttr`].
pub struct FieldAttrV {
    pub skip: SkipV,
    pub fqs: bool,
}

impl View for FieldAttr {
    type V = FieldAttrV;

    open spec fn view(&self) -> FieldAttrV {
        FieldAttrV { skip: self.skip@, fqs: self.zeroize_fqs.0 }
    }
}

/// Applies one option of a field attribute.
pub open spec fn field_meta_step(
    st: FieldAttrV,
    m: MetaV,
    toks: Seq<Tok>,
    implemented: Seq<Trait>,
    inner: SkipV,
    features: Features,
) -> Result<FieldAttrV, ErrV> {
    if m.path().is_ident("skip"@) {
        match spec_skip_add(st.skip, implemented, Some(inner), m, toks, features) {
            Ok(s) => Ok(FieldAttrV { skip: s, fqs: st.fqs }),
            Err(e) => Err(e),
        }
    } else if features.zeroize && m.path().is_ident("Zeroize"@) {
        match spec_fqs_add(st.fqs, m, toks) {
            Ok(f) => Ok(FieldAttrV { skip: st.skip, fqs: f }),
            Err(e) => Err(e),
        }
    } else {
        Err(err(m.path().span, msg_option()))
    }
}

/// Applies the options `metas[i..]` of a field attribute.
pub open spec fn field_metas_fold(
    st: FieldAttrV,
    metas: Seq<MetaV>,
    i: int,
    toks: Seq<Tok>,
    implemented: Seq<Trait>,
    inner: SkipV,
    features: Features,
) -> Result<FieldAttrV, ErrV>
    decreases metas.len() - i,
{
    if i < 0 || i >= metas.len() {
        Ok(st)
    } else {
        match field_meta_step(st, metas[i], toks, implemented, inner, features) {
            Ok(st2) => field_metas_fold(st2, metas, i + 1, toks, implemented, inner, features),
            Err(e) => Err(e),
        }
    }
}

/// Applies the attributes `attrs[i..]` of a field.
pub open spec fn field_attrs_fold(
    st: FieldAttrV,
    attrs: Seq<Attr>,
    i: int,
    implemented: Seq<Trait>,
    inner: SkipV,
    features: Features,
) -> Result<FieldAttrV, ErrV>
    decreases attrs.len() - i,
{
    if i < 0 || i >= attrs.len() {
        Ok(st)
    } else if attr_is(attrs[i], "derive_where"@) {
        match spec_attr_metas(attrs[i]) {
            Err(e) => Err(e),
            Ok((metas, toks)) => match field_metas_fold(
                st,
                metas,
                0,
                toks,
                implemented,
                inner,
                features,
            ) {
                Ok(st2) => field_attrs_fold(st2, attrs, i + 1, implemented, inner, features),
                Err(e) => Err(e),
            },
        }
    } else {
        field_attrs_fold(st, attrs, i + 1, implemented, inner, features)
    }
}

/// The attributes of a field given by `attrs`.
pub open spec fn spec_field_attr(
    attrs: Seq<Attr>,
    implemented: Seq<Trait>,
    inner: SkipV,
    features: Features,
) -> Result<FieldAttrV, ErrV> {
    field_attrs_fold(
        FieldAttrV { skip: SkipV::Nothing, fqs: false },
        attrs,
        0,
        implemented,
        inner,
        features,
    )
}

/// Options of a field attribute keep its skip option [`skip_ok`].
proof fn lemma_field_metas_skip(
    st: FieldAttrV,
    metas: Seq<MetaV>,
    i: int,
    toks: Seq<Tok>,
    implemented: Seq<Trait>,
    inner: SkipV,
    features: Features,
)
    requires
        skip_ok(st.skip, implemented, Some(inner)),
    ensures
        field_metas_fold(st, metas, i, toks, implemented, inner, features) matches Ok(r)
            ==> skip_ok(r.skip, implemented, Some(inner)),
    decreases metas.len() - i,
{
    if 0 <= i < metas.len() {
        let m = metas[i];
        if m.path().is_ident("skip"@) {
            lemma_skip_add_wf(st.skip, implemented, Some(inner), m, toks, features);
        }
        match field_meta_step(st, m, toks, implemented, inner, features) {
            Ok(st2) => {
                lemma_field_metas_skip(st2, metas, i + 1, toks, implemented, inner, features);
            },
            Err(_) => {},
        }
    }
}

/// Attributes of a field keep its skip option [`skip_ok`].
proof fn lemma_field_attrs_skip(
    st: FieldAttrV,
    attrs: Seq<Attr>,
    i: int,
    implemented: Seq<Trait>,
    inner: SkipV,
    features: Features,
)
    requires
        skip_ok(st.skip, implemented, Some(inner)),
    ensures
        field_attrs_fold(st, attrs, i, implemented, inner, features) matches Ok(r) ==> skip_ok(
            r.skip,
            implemented,
            Some(inner),
        ),
    decreases attrs.len() - i,
{
    if 0 <= i < attrs.len() {
        if attr_is(attrs[i], "derive_where"@) {
            match spec_attr_metas(attrs[i]) {
                Ok((metas, toks)) => {
                    lemma_field_metas_skip(st, metas, 0, toks, implemented, inner, features);
                    match field_metas_fold(st, metas, 0, toks, implemented, inner, features) {
                        Ok(st2) => {
                            lemma_field_attrs_skip(st2, attrs, i + 1, implemented, inner, features);
                        },
                        Err(_) => {},
                    }
                },
                Err(_) => {},
            }
        } else {
            lemma_field_attrs_skip(st, attrs, i + 1, implemented, inner, features);
        }
    }
}

/// A field skips only traits that support skipping, are derived, and that
/// its parent's `skip_inner` does not skip already.
pub proof fn lemma_field_attr_skip(
    attrs: Seq<Attr>,
    implemented: Seq<Trait>,
    inner: SkipV,
    features: Features,
)
    ensures
        spec_field_attr(attrs, implemented, inner, features) matches Ok(a) ==> skip_ok(
            a.skip,
            implemented,
            Some(inner),
        ),
{
    lemma_field_attrs_skip(
        FieldAttrV { skip: SkipV::Nothing, fqs: false },
        attrs,
        0,
        implemented,
        inner,
        features,
    );
}

impl FieldAttr {
    /// Create [`FieldAttr`] from [`Attr`]s; `implemented` holds every trait
    /// being implemented and `skip_inner` is the option of the parent.
    pub fn from_attrs(
        implemented: &Vec<Trait>,
        skip_inner: &Skip,
        attrs: &Vec<Attr>,
        features: Features,
    ) -> (r: Result<FieldAttr, DeriveError>)
        ensures
            match (r, spec_field_attr(attrs@, implemented@, skip_inner@, features)) {
                (Ok(x), Ok(y)) => x@ == y,
                (Err(x), Err(y)) => x@ == y,
                _ => false,
            },
    {
        let mut self_ = FieldAttr { skip: Skip::Nothing, zeroize_fqs: ZeroizeFqs(false) };
        let mut i: usize = 0;
        while i < attrs.len()
            invariant
                i <= attrs@.len(),
                spec_field_attr(attrs@, implemented@, skip_inner@, features) == field_attrs_fold(
                    self_@,
                    attrs@,
                    i as int,
                    implemented@,
                    skip_inner@,
                    features,
                ),
            decreases attrs.len() - i,
        {
            if attr_is_ident(&attrs[i], "derive_where") {
                let (metas, toks) = match attr_metas(&attrs[i]) {
                    Ok(x) => x,
                    Err(e) => {
                        return Err(e);
                    },
                };
                match self_.add_metas(&metas, toks, implemented, skip_inner, features) {
                    Ok(()) => {},
                    Err(e) => {
                        return Err(e);
                    },
                }
            }
            i = i + 1;
        }
        Ok(self_)
    }

    /// Applies the options `metas`, read from `toks`.
    fn add_metas(
        &mut self,
        metas: &Vec<Meta>,
        toks: &Vec<Tok>,
        implemented: &Vec<Trait>,
        skip_inner: &Skip,
        features: Features,
    ) -> (r: Result<(), DeriveError>)
        requires
            forall|i: int| 0 <= i < metas@.len() ==> meta_wf(#[trigger] metas@[i]@, toks@),
        ensures
            match (
                r,
                field_metas_fold(
                    old(self)@,
                    metas@.map_values(|m: Meta| m@),
                    0,
                    toks@,
                    implemented@,
                    skip_inner@,
                    features,
                ),
            ) {
                (Ok(()), Ok(y)) => final(self)@ == y,
                (Err(x), Err(y)) => x@ == y,
                _ => false,
            },
    {
        let ghost mv = metas@.map_values(|m: Meta| m@);
        let ghost s0 = self@;
        let mut i: usize = 0;
        while i < metas.len()
            invariant
                i <= metas@.len(),
                s0 == old(self)@,
                mv == metas@.map_values(|m: Meta| m@),
                forall|k: int| 0 <= k < metas@.len() ==> meta_wf(#[trigger] metas@[k]@, toks@),
                field_metas_fold(s0, mv, 0, toks@, implemented@, skip_inner@, features)
                    == field_metas_fold(
                    self@,
                    mv,
                    i as int,
                    toks@,
                    implemented@,
                    skip_inner@,
                    features,
                ),
            decreases metas.len() - i,
        {
            assert(mv[i as int] == metas@[i as int]@);
            assert(meta_wf(metas@[i as int]@, toks@));
            let m = &metas[i];
            if m.path().is_ident("skip") {
                match self.skip.add_attribute(implemented, Some(skip_inner), m, toks, features) {
                    Ok(()) => {},
                    Err(e) => {
                        return Err(e);
                    },
                }
            } else if features.zeroize && m.path().is_ident("Zeroize") {
                match self.zeroize_fqs.add_attribute(m, toks) {
                    Ok(()) => {},
                    Err(e) => {
                        return Err(e);
                    },
                }
            } else {
                return Err(Error::option(m.path().span));
            }
            i = i + 1;
        }
        Ok(())
    }
}

} // verus!
