//! `PartialOrd` implementation.

use vstd::prelude::*;

use crate::attr::item::{DeriveTrait, DeriveTraitV, DeriveWhere, DeriveWhereV};
use crate::data::{Data, DataType, DataV};
use crate::gen::{SplitGenerics, SplitGenericsV};
use crate::item::{Item, ItemV};
use crate::trait_::common_ord::{build_ord_signature, ord_signature};
use crate::trait_::ord::{ord_arm, ord_arm_text};
use crate::trait_::Features;

verus! {

/// Marker for the `PartialOrd` implementation.
pub struct PartialOrd;

/// Match arm comparing one struct or variant: none when it is
/// incomparable or all its fields are skipped.
pub open spec fn partial_ord_arm(data: DataV) -> Seq<char> {
    if data.incomparable is Some {
        seq![]
    } else {
        ord_arm(DeriveTraitV::PartialOrd, data)
    }
}

/// The `partial_cmp` method around the match arms `body`.
pub open spec fn partial_ord_method_text(
    item: ItemV,
    g: SplitGenericsV,
    dw: DeriveWhereV,
    body: Seq<char>,
    features: Features,
) -> Seq<char> {
    "#[inline] fn partial_cmp(&self, __other: &Self) -> ::core::option::Option<::core::cmp::Ordering> { "@
        + ord_signature(item, g, dw, DeriveTraitV::PartialOrd, body, features) + " }"@
}

impl PartialOrd {
    /// Builds the match arm for one struct or variant.
    pub fn build_body(&self, data: &Data) -> (r: String)
        requires
            data@.type_ != DataType::Union,
        ensures
            r@ == partial_ord_arm(data@),
    {
        if data.is_incomparable() {
            String::new()
        } else {
            ord_arm_text(&DeriveTrait::PartialOrd, data)
        }
    }

    /// Builds the `partial_cmp` method around the match arms `body`.
    pub fn build_signature(
        &self,
        item: &Item,
        g: &SplitGenerics,
        dw: &DeriveWhere,
        body: &String,
        features: Features,
    ) -> (r: String)
        requires
            item@.wf(),
        ensures
            r@ == partial_ord_method_text(item@, g@, dw@, body@, features),
    {
        let inner = build_ord_signature(item, g, dw, &DeriveTrait::PartialOrd, body, features);
        let mut r = String::from_str(
            "#[inline] fn partial_cmp(&self, __other: &Self) -> ::core::option::Option<::core::cmp::Ordering> { ",
        );
        r.append(inner.as_str());
        r.append(" }");
        r
    }
}

} // verus!
