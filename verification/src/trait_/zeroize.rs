//! `Zeroize` implementation.

use vstd::prelude::*;

use crate::attr::item::{DeriveTrait, DeriveTraitV};
use crate::data::{Data, DataType, DataV, FieldV};
use crate::gen::{
    fields_not_skipped, lemma_kept_pieces, pattern_text, piece, pieces, pieces_text, trait_path, Piece,
};
use crate::trait_::Trait;

verus! {

/// Marker for the `Zeroize` implementation.
pub struct Zeroize;

/// Match arm zeroizing the fields of one struct or variant that are not
/// skipped.
pub open spec fn zeroize_arm(d: DeriveTraitV, data: DataV) -> Seq<char> {
    match data.type_ {
        DataType::Struct | DataType::Tuple => pattern_text(data, true, false) + " => { "@
            + pieces_text(
            data.fields,
            data.skip_inner,
            Trait::Zeroize,
            true,
            Piece::ZeroizeField,
            trait_path(d),
            seq![],
        ) + "} "@,
        _ => data.path + " => (), "@,
    }
}

/// Zeroizing a struct or variant zeroizes each field not skipped for
/// `Zeroize`, in order, and nothing else: by a method call, or through the
/// trait's path where the field asks for `fqs`.
pub proof fn lemma_zeroize_fields(d: DeriveTraitV, data: DataV)
    requires
        data.type_ is Struct || data.type_ is Tuple,
    ensures
        ({
            let ks = fields_not_skipped(data.fields, data.skip_inner, Trait::Zeroize);
            zeroize_arm(d, data) == pattern_text(data, true, false) + " => { "@ + Seq::new(
                ks.len(),
                |i: int|
                    if ks[i].attr.fqs {
                        trait_path(d) + "::zeroize("@ + ks[i].self_ident + "); "@
                    } else {
                        ks[i].self_ident + ".zeroize(); "@
                    },
            ).flatten() + "} "@
        }),
{
    let p = trait_path(d);
    lemma_kept_pieces(data.fields, data.skip_inner, Trait::Zeroize, Piece::ZeroizeField, p);
    let ks = fields_not_skipped(data.fields, data.skip_inner, Trait::Zeroize);
    assert(ks.map_values(|f: FieldV| piece(Piece::ZeroizeField, f, p)) =~= Seq::new(
        ks.len(),
        |i: int|
            if ks[i].attr.fqs {
                p + "::zeroize("@ + ks[i].self_ident + "); "@
            } else {
                ks[i].self_ident + ".zeroize(); "@
            },
    ));
}

/// The `zeroize` method around the match arms `body`.
pub open spec fn zeroize_method(body: Seq<char>) -> Seq<char> {
    "fn zeroize(&mut self) { match self { "@ + body + "} }"@
}

/// The `drop` method of the `Drop` implementation that zeroizes.
pub open spec fn zeroize_drop_method(d: DeriveTraitV) -> Seq<char> {
    "fn drop(&mut self) { "@ + trait_path(d) + "::zeroize(self); }"@
}

/// The additional `Drop` implementation asked for by the `drop` option:
/// the trait and the body.
pub open spec fn zeroize_additional(d: DeriveTraitV) -> Option<(Seq<char>, Seq<char>)> {
    match d {
        DeriveTraitV::Zeroize { drop: true, .. } => Some(
            ("::core::ops::Drop"@, zeroize_drop_method(d)),
        ),
        _ => None,
    }
}

impl Zeroize {
    /// Builds the match arm for one struct or variant.
    pub fn build_body(&self, d: &DeriveTrait, data: &Data) -> (r: String)
        requires
            data@.type_ != DataType::Union,
        ensures
            r@ == zeroize_arm(d@, data@),
    {
        match data.type_ {
            DataType::Struct | DataType::Tuple => {
                proof {
                    reveal_strlit("");
                    assert(""@ =~= Seq::<char>::empty());
                }
                let path = d.path();
                let fields = pieces(
                    &data.fields,
                    &data.skip_inner,
                    Trait::Zeroize,
                    true,
                    Piece::ZeroizeField,
                    path.as_str(),
                    "",
                );
                let mut r = data.pattern(true, false);
                r.append(" => { ");
                r.append(fields.as_str());
                r.append("} ");
                r
            },
            _ => {
                let mut r = data.path.clone();
                r.append(" => (), ");
                r
            },
        }
    }

    /// Builds the `zeroize` method around the match arms `body`.
    pub fn build_signature(&self, body: &String) -> (r: String)
        ensures
            r@ == zeroize_method(body@),
    {
        let mut r = String::from_str("fn zeroize(&mut self) { match self { ");
        r.append(body.as_str());
        r.append("} }");
        r
    }

    /// Builds the additional `Drop` implementation, when asked for.
    pub fn additional_impl(&self, d: &DeriveTrait) -> (r: Option<(String, String)>)
        ensures
            match (r, zeroize_additional(d@)) {
                (Some((a, b)), Some((x, y))) => a@ == x && b@ == y,
                (None, None) => true,
                _ => false,
            },
    {
        match d {
            DeriveTrait::Zeroize { drop: true, .. } => {
                let mut b = String::from_str("fn drop(&mut self) { ");
                b.append(d.path().as_str());
                b.append("::zeroize(self); }");
                Some((String::from_str("::core::ops::Drop"), b))
            },
            _ => None,
        }
    }
}

} // verus!
