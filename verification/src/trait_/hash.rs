//! `Hash` implementation.

use vstd::prelude::*;

use crate::attr::item::{DeriveTrait, DeriveTraitV};
use crate::data::{Data, DataType, DataV, FieldV};
use crate::gen::{
    fields_not_skipped, lemma_kept_pieces, pattern_text, piece, pieces, pieces_text, trait_path, Piece,
};
use crate::trait_::Trait;

verus! {

/// Marker for the `Hash` implementation.
pub struct Hash;

/// Hashing of the discriminant, for variants.
pub open spec fn hash_discriminant(d: DeriveTraitV, data: DataV) -> Seq<char> {
    if data.is_variant {
        trait_path(d) + "::hash(&::core::mem::discriminant(self), __state); "@
    } else {
        seq![]
    }
}

/// Match arm of `hash` for one struct or variant.
pub open spec fn hash_body(d: DeriveTraitV, data: DataV) -> Seq<char> {
    match data.type_ {
        DataType::Struct | DataType::Tuple => pattern_text(data, false, false) + " => { "@
            + hash_discriminant(d, data) + pieces_text(
            data.fields,
            data.skip_inner,
            Trait::Hash,
            true,
            Piece::HashField,
            trait_path(d),
            seq![],
        ) + "} "@,
        DataType::Unit => pattern_text(data, false, false) + " => { "@ + hash_discriminant(
            d,
            data,
        ) + "} "@,
        DataType::Union => seq![],
    }
}

/// Equal values hash alike: the match arm of a struct or variant feeds the
/// hasher its discriminant when it is a variant, then each field not
/// skipped for `Hash`, in order, and nothing else; a unit variant feeds
/// only its discriminant.
pub proof fn lemma_hash_fields(d: DeriveTraitV, data: DataV)
    ensures
        data.type_ is Unit ==> hash_body(d, data) == pattern_text(data, false, false) + " => { "@
            + (if data.is_variant {
            trait_path(d) + "::hash(&::core::mem::discriminant(self), __state); "@
        } else {
            Seq::<char>::empty()
        }) + "} "@,
        data.type_ is Struct || data.type_ is Tuple ==> ({
            let ks = fields_not_skipped(data.fields, data.skip_inner, Trait::Hash);
            hash_body(d, data) == pattern_text(data, false, false) + " => { "@ + (if data.is_variant {
                trait_path(d) + "::hash(&::core::mem::discriminant(self), __state); "@
            } else {
                Seq::<char>::empty()
            }) + Seq::new(
                ks.len(),
                |i: int| trait_path(d) + "::hash("@ + ks[i].self_ident + ", __state); "@,
            ).flatten() + "} "@
        }),
{
    let p = trait_path(d);
    lemma_kept_pieces(data.fields, data.skip_inner, Trait::Hash, Piece::HashField, p);
    let ks = fields_not_skipped(data.fields, data.skip_inner, Trait::Hash);
    assert(ks.map_values(|f: FieldV| piece(Piece::HashField, f, p)) =~= Seq::new(
        ks.len(),
        |i: int| p + "::hash("@ + ks[i].self_ident + ", __state); "@,
    ));
}

/// The `hash` method around the match arms `body`.
pub open spec fn hash_signature(body: Seq<char>) -> Seq<char> {
    "fn hash<__H: ::core::hash::Hasher>(&self, __state: &mut __H) { match self { "@ + body
        + "} }"@
}

impl Hash {
    /// Builds the match arm for one struct or variant.
    pub fn build_body(&self, d: &DeriveTrait, data: &Data) -> (r: String)
        ensures
            r@ == hash_body(d@, data@),
    {
        proof {
            reveal_strlit("");
            assert(""@ =~= Seq::<char>::empty());
        }
        let path = d.path();
        let mut disc = String::new();
        if data.is_variant {
            disc.append(path.as_str());
            disc.append("::hash(&::core::mem::discriminant(self), __state); ");
        }
        assert(disc@ =~= hash_discriminant(d@, data@));
        match data.type_ {
            DataType::Struct | DataType::Tuple => {
                let fields = pieces(
                    &data.fields,
                    &data.skip_inner,
                    Trait::Hash,
                    true,
                    Piece::HashField,
                    path.as_str(),
                    "",
                );
                let mut r = data.pattern(false, false);
                r.append(" => { ");
                r.append(disc.as_str());
                r.append(fields.as_str());
                r.append("} ");
                assert(r@ =~= hash_body(d@, data@));
                r
            },
            DataType::Unit => {
                let mut r = data.pattern(false, false);
                r.append(" => { ");
                r.append(disc.as_str());
                r.append("} ");
                r
            },
            DataType::Union => String::new(),
        }
    }

    /// Builds the `hash` method around the match arms `body`.
    pub fn build_signature(&self, body: &String) -> (r: String)
        ensures
            r@ == hash_signature(body@),
    {
        let mut r = String::from_str(
            "fn hash<__H: ::core::hash::Hasher>(&self, __state: &mut __H) { match self { ",
        );
        r.append(body.as_str());
        r.append("} }");
        r
    }
}

} // verus!
