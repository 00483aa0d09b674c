//! `Ord` implementation.

use vstd::prelude::*;

use crate::attr::item::{DeriveTrait, DeriveTraitV, DeriveWhere, DeriveWhereV};
use crate::data::{Data, DataType, DataV};
use crate::gen::{pattern_text, trait_path, SplitGenerics, SplitGenericsV};
use crate::item::{Item, ItemV};
use crate::trait_::common_ord::{
    build_ord_body, build_ord_signature, lemma_ord_chain_nested, ord_chain, ord_equal, ord_head, ord_method,
    ord_signature, ord_tail,
};
use crate::gen::fields_not_skipped;
use crate::trait_::{Features, Trait};

verus! {

/// Marker for the `Ord` implementation.
pub struct Ord;

/// Match arm comparing one struct or variant field by field: none when all
/// its fields are skipped.
pub open spec fn ord_arm(d: DeriveTraitV, data: DataV) -> Seq<char> {
    if data.is_empty(d.trait_()) {
        seq![]
    } else {
        match data.type_ {
            DataType::Struct | DataType::Tuple => "("@ + pattern_text(data, false, false) + ", "@
                + pattern_text(data, false, true) + ") => "@ + ord_chain(
                data.kept(d.trait_()),
                trait_path(d),
                ord_method(d),
                ord_equal(d),
            ) + ", "@,
            _ => seq![],
        }
    }
}

/// Two values of a struct or variant are ordered by their fields not
/// skipped for the trait, first to last: the arm compares the first such
/// field, goes on to the next only when they are equal, and answers equal
/// when all are; with no such field there is no arm.
pub proof fn lemma_ord_fields(d: DeriveTraitV, data: DataV)
    requires
        data.type_ is Struct || data.type_ is Tuple,
    ensures
        ({
            let ks = fields_not_skipped(data.fields, data.skip_inner, d.trait_());
            let p = trait_path(d);
            let m = ord_method(d);
            let eq = ord_equal(d);
            if ks.len() == 0 {
                ord_arm(d, data) == Seq::<char>::empty()
            } else {
                ord_arm(d, data) == "("@ + pattern_text(data, false, false) + ", "@ + pattern_text(
                    data,
                    false,
                    true,
                ) + ") => "@ + (Seq::new(ks.len(), |i: int| ord_head(ks[i], p, m, eq)).flatten()
                    + eq + Seq::new(ks.len(), |i: int| ord_tail()).flatten()) + ", "@
            }
        }),
{
    let ks = fields_not_skipped(data.fields, data.skip_inner, d.trait_());
    crate::data::lemma_kept_is_filter(data.fields, data.skip_inner, d.trait_());
    assert(data.kept(d.trait_()) == ks);
    lemma_ord_chain_nested(ks, trait_path(d), ord_method(d), ord_equal(d));
}

/// Builds the match arm of [`ord_arm`].
pub fn ord_arm_text(d: &DeriveTrait, data: &Data) -> (r: String)
    requires
        d@ is PartialOrd || d@ is Ord,
        data@.type_ != DataType::Union,
    ensures
        r@ == ord_arm(d@, data@),
{
    if data.is_empty(d.trait_()) {
        return String::new();
    }
    match data.type_ {
        DataType::Struct | DataType::Tuple => {
            let mut r = String::from_str("(");
            r.append(data.pattern(false, false).as_str());
            r.append(", ");
            r.append(data.pattern(false, true).as_str());
            r.append(") => ");
            r.append(build_ord_body(d, data).as_str());
            r.append(", ");
            r
        },
        _ => String::new(),
    }
}

/// The `cmp` method around the match arms `body`.
pub open spec fn ord_method_text(
    item: ItemV,
    g: SplitGenericsV,
    dw: DeriveWhereV,
    body: Seq<char>,
    features: Features,
) -> Seq<char> {
    "#[inline] fn cmp(&self, __other: &Self) -> ::core::cmp::Ordering { "@ + ord_signature(
        item,
        g,
        dw,
        DeriveTraitV::Ord,
        body,
        features,
    ) + " }"@
}

impl Ord {
    /// Builds the match arm for one struct or variant.
    pub fn build_body(&self, data: &Data) -> (r: String)
        requires
            data@.type_ != DataType::Union,
        ensures
            r@ == ord_arm(DeriveTraitV::Ord, data@),
    {
        ord_arm_text(&DeriveTrait::Ord, data)
    }

    /// Builds the `cmp` method around the match arms `body`.
    pub fn build_signature(
        &self,
        item: &Item,
        g: &SplitGenerics,
        dw: &DeriveWhere,
        body: &String,
        features: Features,
    ) -> (r: String)
        requires
            item@.wf(),
        ensures
            r@ == ord_method_text(item@, g@, dw@, body@, features),
    {
        let inner = build_ord_signature(item, g, dw, &DeriveTrait::Ord, body, features);
        let mut r = String::from_str("#[inline] fn cmp(&self, __other: &Self) -> ::core::cmp::Ordering { ");
        r.append(inner.as_str());
        r.append(" }");
        r
    }
}

} // verus!
