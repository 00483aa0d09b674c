//! Attribute parsing for variants.

use vstd::prelude::*;

use crate::attr::default::spec_default_add;
use crate::attr::incomparable::{spec_incomparable_add, Incomparable};
use crate::attr::skip::{lemma_skip_add_wf, skip_ok, spec_skip_add, Skip, SkipV};
use crate::error::{err, msg_option, msg_option_skip_empty, DeriveError, ErrV, Error};
use crate::meta::{attr_is, attr_is_ident, attr_metas, meta_wf, spec_attr_metas, Meta, MetaV};
use crate::model::{Attr, Tok};
use crate::trait_::{Features, Trait};

verus! {

/// Attributes on a variant.
pub struct VariantAttr {
    /// Default variant.
    pub default: crate::attr::default::Default,
    /// Traits to skip all fields for.
    pub skip_inner: Skip,
    /// Whether the variant compares unequal to everything.
    pub incomparable: Incomparable,
}

/// Mathematical value of a [`VariantAttr`].
pub struct VariantAttrV {
    pub default: bool,
    pub skip_inner: SkipV,
    pub incomparable: Option<usize>,
}

impl View for VariantAttr {
    type V = VariantAttrV;

    open spec fn view(&self) -> VariantAttrV {
        VariantAttrV {
            default: self.default.0,
            skip_inner: self.skip_inner@,
            incomparable: self.incomparable.0,
        }
    }
}

/// Applies one option of a variant attribute; `acc` tells whether some
/// variant already has the `default` option.
pub open spec fn variant_meta_step(
    st: (VariantAttrV, bool),
    m: MetaV,
    toks: Seq<Tok>,
    implemented: Seq<Trait>,
    fields_empty: bool,
    variant_span: usize,
    features: Features,
) -> Result<(VariantAttrV, bool), ErrV> {
    let (v, acc) = st;
    if m.path().is_ident("skip_inner"@) {
        if fields_empty {
            Err(err(variant_span, msg_option_skip_empty()))
        } else {
            match spec_skip_add(v.skip_inner, implemented, None, m, toks, features) {
                Ok(s) => Ok((VariantAttrV { skip_inner: s, ..v }, acc)),
                Err(e) => Err(e),
            }
        }
    } else if m.path().is_ident("default"@) {
        match spec_default_add(v.default, m, implemented, acc) {
            Ok((d, a)) => Ok((VariantAttrV { default: d, ..v }, a)),
            Err(e) => Err(e),
        }
    } else if m.path().is_ident("incomparable"@) {
        match spec_incomparable_add(v.incomparable, m, implemented) {
            Ok(i) => Ok((VariantAttrV { incomparable: i, ..v }, acc)),
            Err(e) => Err(e),
        }
    } else {
        Err(err(m.path().span, msg_option()))
    }
}

/// Applies the options `metas[i..]` of a variant attribute.
pub open spec fn variant_metas_fold(
    st: (VariantAttrV, bool),
    metas: Seq<MetaV>,
    i: int,
    toks: Seq<Tok>,
    implemented: Seq<Trait>,
    fields_empty: bool,
    variant_span: usize,
    features: Features,
) -> Result<(VariantAttrV, bool), ErrV>
    decreases metas.len() - i,
{
    if i < 0 || i >= metas.len() {
        Ok(st)
    } else {
        match variant_meta_step(
            st,
            metas[i],
            toks,
            implemented,
            fields_empty,
            variant_span,
            features,
        ) {
            Ok(st2) => variant_metas_fold(
                st2,
                metas,
                i + 1,
                toks,
                implemented,
                fields_empty,
                variant_span,
                features,
            ),
            Err(e) => Err(e),
        }
    }
}

/// Applies the attributes `attrs[i..]` of a variant.
pub open spec fn variant_attrs_fold(
    st: (VariantAttrV, bool),
    attrs: Seq<Attr>,
    i: int,
    implemented: Seq<Trait>,
    fields_empty: bool,
    variant_span: usize,
    features: Features,
) -> Result<(VariantAttrV, bool), ErrV>
    decreases attrs.len() - i,
{
    if i < 0 || i >= attrs.len() {
        Ok(st)
    } else if attr_is(attrs[i], "derive_where"@) {
        match spec_attr_metas(attrs[i]) {
            Err(e) => Err(e),
            Ok((metas, toks)) => match variant_metas_fold(
                st,
                metas,
                0,
                toks,
                implemented,
                fields_empty,
                variant_span,
                features,
            ) {
                Ok(st2) => variant_attrs_fold(
                    st2,
                    attrs,
                    i + 1,
                    implemented,
                    fields_empty,
                    variant_span,
                    features,
                ),
                Err(e) => Err(e),
            },
        }
    } else {
        variant_attrs_fold(st, attrs, i + 1, implemented, fields_empty, variant_span, features)
    }
}

/// How the `default` flag of a variant and the accumulated flag relate to
/// the accumulated flag `a0` before the variant.
pub open spec fn default_inv(st: (VariantAttrV, bool), a0: bool, implemented: Seq<Trait>) -> bool {
    &&& st.1 == (a0 || st.0.default)
    &&& st.0.default ==> !a0
    &&& st.0.default ==> implemented.contains(Trait::Default)
}

/// Options of an attribute keep [`default_inv`].
proof fn lemma_metas_default(
    st: (VariantAttrV, bool),
    a0: bool,
    metas: Seq<MetaV>,
    i: int,
    toks: Seq<Tok>,
    implemented: Seq<Trait>,
    fields_empty: bool,
    variant_span: usize,
    features: Features,
)
    requires
        default_inv(st, a0, implemented),
    ensures
        variant_metas_fold(st, metas, i, toks, implemented, fields_empty, variant_span, features) matches Ok(
            r,
        ) ==> default_inv(r, a0, implemented),
    decreases metas.len() - i,
{
    if 0 <= i < metas.len() {
        match variant_meta_step(st, metas[i], toks, implemented, fields_empty, variant_span, features) {
            Ok(st2) => {
                lemma_metas_default(
                    st2,
                    a0,
                    metas,
                    i + 1,
                    toks,
                    implemented,
                    fields_empty,
                    variant_span,
                    features,
                );
            },
            Err(_) => {},
        }
    }
}

/// Attributes keep [`default_inv`].
proof fn lemma_attrs_default(
    st: (VariantAttrV, bool),
    a0: bool,
    attrs: Seq<Attr>,
    i: int,
    implemented: Seq<Trait>,
    fields_empty: bool,
    variant_span: usize,
    features: Features,
)
    requires
        default_inv(st, a0, implemented),
    ensures
        variant_attrs_fold(st, attrs, i, implemented, fields_empty, variant_span, features) matches Ok(
            r,
        ) ==> default_inv(r, a0, implemented),
    decreases attrs.len() - i,
{
    if 0 <= i < attrs.len() {
        if attr_is(attrs[i], "derive_where"@) {
            match spec_attr_metas(attrs[i]) {
                Ok((metas, toks)) => {
                    lemma_metas_default(
                        st,
                        a0,
                        metas,
                        0,
                        toks,
                        implemented,
                        fields_empty,
                        variant_span,
                        features,
                    );
                    match variant_metas_fold(
                        st,
                        metas,
                        0,
                        toks,
                        implemented,
                        fields_empty,
                        variant_span,
                        features,
                    ) {
                        Ok(st2) => {
                            lemma_attrs_default(
                                st2,
                                a0,
                                attrs,
                                i + 1,
                                implemented,
                                fields_empty,
                                variant_span,
                                features,
                            );
                        },
                        Err(_) => {},
                    }
                },
                Err(_) => {},
            }
        } else {
            lemma_attrs_default(st, a0, attrs, i + 1, implemented, fields_empty, variant_span, features);
        }
    }
}

/// A variant takes the `default` option only when no variant before it
/// has, and only when `Default` is derived; the accumulated flag then
/// records it.
pub proof fn lemma_variant_default(
    attrs: Seq<Attr>,
    implemented: Seq<Trait>,
    acc: bool,
    fields_empty: bool,
    variant_span: usize,
    features: Features,
)
    ensures
        spec_variant_attr(attrs, implemented, acc, fields_empty, variant_span, features) matches Ok(
            r,
        ) ==> default_inv(r, acc, implemented),
{
    lemma_attrs_default(
        (VariantAttrV { default: false, skip_inner: SkipV::Nothing, incomparable: None }, acc),
        acc,
        attrs,
        0,
        implemented,
        fields_empty,
        variant_span,
        features,
    );
}

/// Options of a variant attribute keep its `skip_inner` [`skip_ok`].
proof fn lemma_metas_skip(
    st: (VariantAttrV, bool),
    metas: Seq<MetaV>,
    i: int,
    toks: Seq<Tok>,
    implemented: Seq<Trait>,
    fields_empty: bool,
    variant_span: usize,
    features: Features,
)
    requires
        skip_ok(st.0.skip_inner, implemented, None),
    ensures
        variant_metas_fold(st, metas, i, toks, implemented, fields_empty, variant_span, features) matches Ok(
            r,
        ) ==> skip_ok(r.0.skip_inner, implemented, None),
    decreases metas.len() - i,
{
    if 0 <= i < metas.len() {
        let m = metas[i];
        lemma_skip_add_wf(st.0.skip_inner, implemented, None, m, toks, features);
        match variant_meta_step(st, m, toks, implemented, fields_empty, variant_span, features) {
            Ok(st2) => {
                lemma_metas_skip(
                    st2,
                    metas,
                    i + 1,
                    toks,
                    implemented,
                    fields_empty,
                    variant_span,
                    features,
                );
            },
            Err(_) => {},
        }
    }
}

/// Attributes of a variant keep its `skip_inner` [`skip_ok`].
proof fn lemma_attrs_skip(
    st: (VariantAttrV, bool),
    attrs: Seq<Attr>,
    i: int,
    implemented: Seq<Trait>,
    fields_empty: bool,
    variant_span: usize,
    features: Features,
)
    requires
        skip_ok(st.0.skip_inner, implemented, None),
    ensures
        variant_attrs_fold(st, attrs, i, implemented, fields_empty, variant_span, features) matches Ok(
            r,
        ) ==> skip_ok(r.0.skip_inner, implemented, None),
    decreases attrs.len() - i,
{
    if 0 <= i < attrs.len() {
        if attr_is(attrs[i], "derive_where"@) {
            match spec_attr_metas(attrs[i]) {
                Ok((metas, toks)) => {
                    lemma_metas_skip(
                        st,
                        metas,
                        0,
                        toks,
                        implemented,
                        fields_empty,
                        variant_span,
                        features,
                    );
                    match variant_metas_fold(
                        st,
                        metas,
                        0,
                        toks,
                        implemented,
                        fields_empty,
                        variant_span,
                        features,
                    ) {
                        Ok(st2) => {
                            lemma_attrs_skip(
                                st2,
                                attrs,
                                i + 1,
                                implemented,
                                fields_empty,
                                variant_span,
                                features,
                            );
                        },
                        Err(_) => {},
                    }
                },
                Err(_) => {},
            }
        } else {
            lemma_attrs_skip(st, attrs, i + 1, implemented, fields_empty, variant_span, features);
        }
    }
}

/// A variant's `skip_inner` skips only traits that support skipping and
/// are derived.
pub proof fn lemma_variant_skip(
    attrs: Seq<Attr>,
    implemented: Seq<Trait>,
    acc: bool,
    fields_empty: bool,
    variant_span: usize,
    features: Features,
)
    ensures
        spec_variant_attr(attrs, implemented, acc, fields_empty, variant_span, features) matches Ok(
            r,
        ) ==> skip_ok(r.0.skip_inner, implemented, None),
{
    lemma_attrs_skip(
        (VariantAttrV { default: false, skip_inner: SkipV::Nothing, incomparable: None }, acc),
        attrs,
        0,
        implemented,
        fields_empty,
        variant_span,
        features,
    );
}

/// The attributes of a variant given by `attrs`, with the new accumulated
/// `default` flag.
pub open spec fn spec_variant_attr(
    attrs: Seq<Attr>,
    implemented: Seq<Trait>,
    acc: bool,
    fields_empty: bool,
    variant_span: usize,
    features: Features,
) -> Result<(VariantAttrV, bool), ErrV> {
    variant_attrs_fold(
        (VariantAttrV { default: false, skip_inner: SkipV::Nothing, incomparable: None }, acc),
        attrs,
        0,
        implemented,
        fields_empty,
        variant_span,
        features,
    )
}

impl VariantAttr {
    /// Create [`VariantAttr`] from [`Attr`]s. `accumulated_defaults` tells
    /// whether an earlier variant has the `default` option.
    pub fn from_attrs(
        attrs: &Vec<Attr>,
        implemented: &Vec<Trait>,
        accumulated_defaults: &mut crate::attr::default::Default,
        fields_empty: bool,
        variant_span: usize,
        features: Features,
    ) -> (r: Result<VariantAttr, DeriveError>)
        ensures
            match (
                r,
                spec_variant_attr(
                    attrs@,
                    implemented@,
                    old(accumulated_defaults).0,
                    fields_empty,
                    variant_span,
                    features,
                ),
            ) {
                (Ok(x), Ok((y, a))) => x@ == y && final(accumulated_defaults).0 == a,
                (Err(x), Err(y)) => x@ == y,
                _ => false,
            },
    {
        let mut self_ = VariantAttr {
            default: crate::attr::default::Default(false),
            skip_inner: Skip::Nothing,
            incomparable: Incomparable(None),
        };
        let mut i: usize = 0;
        while i < attrs.len()
            invariant
                i <= attrs@.len(),
                spec_variant_attr(
                    attrs@,
                    implemented@,
                    old(accumulated_defaults).0,
                    fields_empty,
                    variant_span,
                    features,
                ) == variant_attrs_fold(
                    (self_@, accumulated_defaults.0),
                    attrs@,
                    i as int,
                    implemented@,
                    fields_empty,
                    variant_span,
                    features,
                ),
            decreases attrs.len() - i,
        {
            if attr_is_ident(&attrs[i], "derive_where") {
                let (metas, toks) = match attr_metas(&attrs[i]) {
                    Ok(x) => x,
                    Err(e) => {
                        return Err(e);
                    },
                };
                match self_.add_metas(
                    &metas,
                    toks,
                    implemented,
                    accumulated_defaults,
                    fields_empty,
                    variant_span,
                    features,
                ) {
                    Ok(()) => {},
                    Err(e) => {
                        return Err(e);
                    },
                }
            }
            i = i + 1;
        }
        Ok(self_)
    }

    /// Applies the options `metas`, read from `toks`.
    fn add_metas(
        &mut self,
        metas: &Vec<Meta>,
        toks: &Vec<Tok>,
        implemented: &Vec<Trait>,
        accumulated_defaults: &mut crate::attr::default::Default,
        fields_empty: bool,
        variant_span: usize,
        features: Features,
    ) -> (r: Result<(), DeriveError>)
        requires
            forall|i: int| 0 <= i < metas@.len() ==> meta_wf(#[trigger] metas@[i]@, toks@),
        ensures
            match (
                r,
                variant_metas_fold(
                    (old(self)@, old(accumulated_defaults).0),
                    metas@.map_values(|m: Meta| m@),
                    0,
                    toks@,
                    implemented@,
                    fields_empty,
                    variant_span,
                    features,
                ),
            ) {
                (Ok(()), Ok((y, a))) => final(self)@ == y && final(accumulated_defaults).0 == a,
                (Err(x), Err(y)) => x@ == y,
                _ => false,
            },
    {
        let ghost mv = metas@.map_values(|m: Meta| m@);
        let ghost s0 = (self@, accumulated_defaults.0);
        let mut i: usize = 0;
        while i < metas.len()
            invariant
                i <= metas@.len(),
                s0 == (old(self)@, old(accumulated_defaults).0),
                mv == metas@.map_values(|m: Meta| m@),
                forall|k: int| 0 <= k < metas@.len() ==> meta_wf(#[trigger] metas@[k]@, toks@),
                variant_metas_fold(
                    s0,
                    mv,
                    0,
                    toks@,
                    implemented@,
                    fields_empty,
                    variant_span,
                    features,
                ) == variant_metas_fold(
                    (self@, accumulated_defaults.0),
                    mv,
                    i as int,
                    toks@,
                    implemented@,
                    fields_empty,
                    variant_span,
                    features,
                ),
            decreases metas.len() - i,
        {
            assert(mv[i as int] == metas@[i as int]@);
            assert(meta_wf(metas@[i as int]@, toks@));
            let m = &metas[i];
            if m.path().is_ident("skip_inner") {
                if fields_empty {
                    return Err(Error::option_skip_empty(variant_span));
                }
                match self.skip_inner.add_attribute(implemented, None, m, toks, features) {
                    Ok(()) => {},
                    Err(e) => {
                        return Err(e);
                    },
                }
            } else if m.path().is_ident("default") {
                match self.default.add_attribute(m, implemented, accumulated_defaults) {
                    Ok(()) => {},
                    Err(e) => {
                        return Err(e);
                    },
                }
            } else if m.path().is_ident("incomparable") {
                match self.incomparable.add_attribute(m, implemented) {
                    Ok(()) => {},
                    Err(e) => {
                        return Err(e);
                    },
                }
            } else {
                return Err(Error::option(m.path().span));
            }
            i = i + 1;
        }
        Ok(())
    }
}

} // verus!
