//! `Default` implementation.

use vstd::prelude::*;

use crate::attr::item::{DeriveTrait, DeriveTraitV};
use crate::data::{Data, DataType, DataV, FieldV};
use crate::gen::{
    fields_not_skipped, lemma_pieces_joined, piece, pieces, pieces_text, trait_path, Piece,
};
use crate::util::join;
use crate::trait_::Trait;

verus! {

/// Marker for the `Default` implementation.
pub struct Default;

/// Body of `default` for one struct or variant: empty unless it is the
/// default one.
pub open spec fn default_body(d: DeriveTraitV, data: DataV) -> Seq<char> {
    if !data.default {
        seq![]
    } else {
        match data.type_ {
            DataType::Struct => data.path + " { "@ + pieces_text(
                data.fields,
                data.skip_inner,
                Trait::Default,
                true,
                Piece::DefaultStructField,
                trait_path(d),
                ", "@,
            ) + " }"@,
            DataType::Tuple => data.path + "("@ + pieces_text(
                data.fields,
                data.skip_inner,
                Trait::Default,
                true,
                Piece::DefaultTupleField,
                trait_path(d),
                ", "@,
            ) + ")"@,
            DataType::Unit => data.path,
            DataType::Union => seq![],
        }
    }
}

/// The default value of the default struct or variant gives each field not
/// skipped for `Default` its own default, in order: a struct's by member, a
/// tuple's by position.
pub proof fn lemma_default_fields(d: DeriveTraitV, data: DataV)
    requires
        data.default,
    ensures
        ({
            let ks = fields_not_skipped(data.fields, data.skip_inner, Trait::Default);
            let p = trait_path(d);
            &&& data.type_ is Struct ==> default_body(d, data) == data.path + " { "@ + join(
                Seq::new(ks.len(), |i: int| ks[i].member + ": "@ + p + "::default()"@),
                ", "@,
            ) + " }"@
            &&& data.type_ is Tuple ==> default_body(d, data) == data.path + "("@ + join(
                Seq::new(ks.len(), |i: int| p + "::default()"@),
                ", "@,
            ) + ")"@
        }),
{
    let ks = fields_not_skipped(data.fields, data.skip_inner, Trait::Default);
    let p = trait_path(d);
    lemma_pieces_joined(data.fields, data.skip_inner, Trait::Default, Piece::DefaultStructField, p, ", "@);
    lemma_pieces_joined(data.fields, data.skip_inner, Trait::Default, Piece::DefaultTupleField, p, ", "@);
    assert(ks.map_values(|f: FieldV| piece(Piece::DefaultStructField, f, p)) =~= Seq::new(
        ks.len(),
        |i: int| ks[i].member + ": "@ + p + "::default()"@,
    ));
    assert(ks.map_values(|f: FieldV| piece(Piece::DefaultTupleField, f, p)) =~= Seq::new(
        ks.len(),
        |i: int| p + "::default()"@,
    ));
}

/// The `default` function around `body`.
pub open spec fn default_signature(body: Seq<char>) -> Seq<char> {
    "fn default() -> Self { "@ + body + " }"@
}

impl Default {
    /// Builds the body for one struct or variant.
    pub fn build_body(&self, d: &DeriveTrait, data: &Data) -> (r: String)
        ensures
            r@ == default_body(d@, data@),
    {
        if !data.is_default() {
            return String::new();
        }
        match data.type_ {
            DataType::Struct => {
                let path = d.path();
                let fields = pieces(
                    &data.fields,
                    &data.skip_inner,
                    Trait::Default,
                    true,
                    Piece::DefaultStructField,
                    path.as_str(),
                    ", ",
                );
                let mut r = data.path.clone();
                r.append(" { ");
                r.append(fields.as_str());
                r.append(" }");
                r
            },
            DataType::Tuple => {
                let path = d.path();
                let fields = pieces(
                    &data.fields,
                    &data.skip_inner,
                    Trait::Default,
                    true,
                    Piece::DefaultTupleField,
                    path.as_str(),
                    ", ",
                );
                let mut r = data.path.clone();
                r.append("(");
                r.append(fields.as_str());
                r.append(")");
                r
            },
            DataType::Unit => data.path.clone(),
            DataType::Union => String::new(),
        }
    }

    /// Builds the `default` function around `body`.
    pub fn build_signature(&self, body: &String) -> (r: String)
        ensures
            r@ == default_signature(body@),
    {
        let mut r = String::from_str("fn default() -> Self { ");
        r.append(body.as_str());
        r.append(" }");
        r
    }
}

} // verus!
