//! `ZeroizeOnDrop` implementation.

use vstd::prelude::*;

use crate::attr::item::{opt_path, DeriveTrait, DeriveTraitV};
use crate::data::{Data, DataType, DataV, FieldV};
use crate::gen::{
    fields_not_skipped, lemma_kept_pieces, piece,
    pattern_text, pieces, pieces_text, trait_path, zeroize_crate, zeroize_crate_text, Piece,
};
use crate::item::{Item, ItemV};
use crate::trait_::{Features, Trait};

verus! {

/// Marker for the `ZeroizeOnDrop` implementation.
pub struct ZeroizeOnDrop;

/// The `no_drop` option.
pub open spec fn no_drop_of(d: DeriveTraitV) -> bool {
    match d {
        DeriveTraitV::ZeroizeOnDrop { no_drop, .. } => no_drop,
        _ => false,
    }
}

/// The crate path option, or `::zeroize`.
pub open spec fn crate_of(d: DeriveTraitV) -> Seq<char> {
    match d {
        DeriveTraitV::ZeroizeOnDrop { crate_, .. } => zeroize_crate_text(crate_),
        DeriveTraitV::Zeroize { crate_, .. } => zeroize_crate_text(crate_),
        _ => "::zeroize"@,
    }
}

/// Match arm zeroizing (or checking) the fields of one struct or variant
/// that are not skipped.
pub open spec fn zeroize_on_drop_arm(d: DeriveTraitV, data: DataV) -> Seq<char> {
    match data.type_ {
        DataType::Struct | DataType::Tuple => pattern_text(data, true, false) + " => { "@
            + pieces_text(
            data.fields,
            data.skip_inner,
            Trait::ZeroizeOnDrop,
            true,
            Piece::ZeroizeOnDropField { no_drop: no_drop_of(d) },
            seq![],
            seq![],
        ) + "} "@,
        _ => seq![],
    }
}

/// Dropping a struct or variant zeroizes each field not skipped for
/// `ZeroizeOnDrop`, in order, and nothing else; with `no_drop`, each such
/// field is only checked to zeroize on drop itself.
pub proof fn lemma_zeroize_on_drop_fields(d: DeriveTraitV, data: DataV)
    requires
        data.type_ is Struct || data.type_ is Tuple,
    ensures
        ({
            let ks = fields_not_skipped(data.fields, data.skip_inner, Trait::ZeroizeOnDrop);
            let call = if no_drop_of(d) {
                ".__derive_where_zeroize_on_drop(); "@
            } else {
                ".zeroize_or_on_drop(); "@
            };
            zeroize_on_drop_arm(d, data) == pattern_text(data, true, false) + " => { "@ + Seq::new(
                ks.len(),
                |i: int| ks[i].self_ident + call,
            ).flatten() + "} "@
        }),
{
    let k = Piece::ZeroizeOnDropField { no_drop: no_drop_of(d) };
    lemma_kept_pieces(data.fields, data.skip_inner, Trait::ZeroizeOnDrop, k, seq![]);
    let ks = fields_not_skipped(data.fields, data.skip_inner, Trait::ZeroizeOnDrop);
    let call = if no_drop_of(d) {
        ".__derive_where_zeroize_on_drop(); "@
    } else {
        ".zeroize_or_on_drop(); "@
    };
    assert(ks.map_values(|f: FieldV| piece(k, f, seq![])) =~= Seq::new(
        ks.len(),
        |i: int| ks[i].self_ident + call,
    ));
}

/// The method of the `Drop` (or assertion) implementation around the
/// match arms `body`.
pub open spec fn zeroize_on_drop_method(
    item: ItemV,
    d: DeriveTraitV,
    body: Seq<char>,
    features: Features,
) -> Seq<char> {
    let c = crate_of(d);
    if item matches ItemV::Item(data) && data.is_empty(Trait::ZeroizeOnDrop) {
        "fn drop(&mut self) { }"@
    } else if !features.zeroize_on_drop {
        "fn drop(&mut self) { "@ + c + "::Zeroize::zeroize(self); }"@
    } else if no_drop_of(d) {
        "fn assert(&mut self) { trait AssertZeroizeOnDrop { fn __derive_where_zeroize_on_drop(&mut self); } impl<T: "@
            + c
            + "::ZeroizeOnDrop + ?::core::marker::Sized> AssertZeroizeOnDrop for T { fn __derive_where_zeroize_on_drop(&mut self) {} } match self { "@
            + body + "} }"@
    } else {
        "fn drop(&mut self) { use "@ + c + "::__internal::AssertZeroize; use "@ + c
            + "::__internal::AssertZeroizeOnDrop; match self { "@ + body + "} }"@
    }
}

/// The trait that the main implementation is of: `Drop`, or a local
/// assertion trait with `no_drop`.
pub open spec fn zeroize_on_drop_impl_trait(d: DeriveTraitV) -> Seq<char> {
    if no_drop_of(d) {
        "DeriveWhereAssertZeroizeOnDrop"@
    } else {
        "::core::ops::Drop"@
    }
}

/// Wraps the main implementation `imp`: in an anonymous constant that
/// declares the assertion trait with `no_drop`.
pub open spec fn zeroize_on_drop_wrap(d: DeriveTraitV, imp: Seq<char>) -> Seq<char> {
    if no_drop_of(d) {
        "const _: () = { trait DeriveWhereAssertZeroizeOnDrop { fn assert(&mut self); } "@ + imp
            + " };"@
    } else {
        "#[automatically_derived] "@ + imp
    }
}

impl ZeroizeOnDrop {
    /// Builds the match arm for one struct or variant.
    pub fn build_body(&self, d: &DeriveTrait, data: &Data) -> (r: String)
        requires
            data@.type_ != DataType::Union,
        ensures
            r@ == zeroize_on_drop_arm(d@, data@),
    {
        match data.type_ {
            DataType::Struct | DataType::Tuple => {
                proof {
                    reveal_strlit("");
                    assert(""@ =~= Seq::<char>::empty());
                }
                let no_drop = match d {
                    DeriveTrait::ZeroizeOnDrop { no_drop, .. } => *no_drop,
                    _ => false,
                };
                let fields = pieces(
                    &data.fields,
                    &data.skip_inner,
                    Trait::ZeroizeOnDrop,
                    true,
                    Piece::ZeroizeOnDropField { no_drop },
                    "",
                    "",
                );
                let mut r = data.pattern(true, false);
                r.append(" => { ");
                r.append(fields.as_str());
                r.append("} ");
                r
            },
            _ => String::new(),
        }
    }

    /// Builds the method around the match arms `body`.
    pub fn build_signature(&self, item: &Item, d: &DeriveTrait, body: &String, features: Features) -> (r:
        String)
        ensures
            r@ == zeroize_on_drop_method(item@, d@, body@, features),
    {
        let empty = match item {
            Item::Item(data) => data.is_empty(Trait::ZeroizeOnDrop),
            _ => false,
        };
        if empty {
            return String::from_str("fn drop(&mut self) { }");
        }
        let (c, no_drop) = match d {
            DeriveTrait::ZeroizeOnDrop { crate_, no_drop } => (zeroize_crate(crate_), *no_drop),
            DeriveTrait::Zeroize { crate_, .. } => (zeroize_crate(crate_), false),
            _ => (String::from_str("::zeroize"), false),
        };
        if !features.zeroize_on_drop {
            let mut r = String::from_str("fn drop(&mut self) { ");
            r.append(c.as_str());
            r.append("::Zeroize::zeroize(self); }");
            r
        } else if no_drop {
            let mut r = String::from_str(
                "fn assert(&mut self) { trait AssertZeroizeOnDrop { fn __derive_where_zeroize_on_drop(&mut self); } impl<T: ",
            );
            r.append(c.as_str());
            r.append(
                "::ZeroizeOnDrop + ?::core::marker::Sized> AssertZeroizeOnDrop for T { fn __derive_where_zeroize_on_drop(&mut self) {} } match self { ",
            );
            r.append(body.as_str());
            r.append("} }");
            r
        } else {
            let mut r = String::from_str("fn drop(&mut self) { use ");
            r.append(c.as_str());
            r.append("::__internal::AssertZeroize; use ");
            r.append(c.as_str());
            r.append("::__internal::AssertZeroizeOnDrop; match self { ");
            r.append(body.as_str());
            r.append("} }");
            r
        }
    }

    /// The trait of the main implementation.
    pub fn impl_trait(&self, d: &DeriveTrait) -> (r: &'static str)
        ensures
            r@ == zeroize_on_drop_impl_trait(d@),
    {
        match d {
            DeriveTrait::ZeroizeOnDrop { no_drop: true, .. } => "DeriveWhereAssertZeroizeOnDrop",
            _ => "::core::ops::Drop",
        }
    }

    /// Wraps the main implementation `imp`.
    pub fn impl_item(&self, d: &DeriveTrait, imp: String) -> (r: String)
        ensures
            r@ == zeroize_on_drop_wrap(d@, imp@),
    {
        match d {
            DeriveTrait::ZeroizeOnDrop { no_drop: true, .. } => {
                let mut r = String::from_str(
                    "const _: () = { trait DeriveWhereAssertZeroizeOnDrop { fn assert(&mut self); } ",
                );
                r.append(imp.as_str());
                r.append(" };");
                r
            },
            _ => {
                let mut r = String::from_str("#[automatically_derived] ");
                r.append(imp.as_str());
                r
            },
        }
    }
}

} // verus!
