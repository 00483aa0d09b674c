//! `Clone` implementation.

use vstd::prelude::*;

use crate::attr::item::{DeriveTrait, DeriveTraitV, DeriveWhere, DeriveWhereV};
use crate::data::{Data, DataType, DataV, FieldV};
use crate::gen::{lemma_pieces_joined, pattern_text, piece, pieces, pieces_text, trait_path, Piece};
use crate::util::join;
use crate::item::{Item, ItemV};
use crate::trait_::Trait;

verus! {

/// Marker for the `Clone` implementation.
pub struct Clone;

/// `Copy` is derived alongside with the standard bounds, so cloning can
/// copy.
pub open spec fn copy_mode(dw: DeriveWhereV) -> bool {
    (dw.generics.len() == 0 || dw.any_custom_bound()) && dw.plain_traits().contains(Trait::Copy)
}

/// Match arm of `clone` for one struct or variant.
pub open spec fn clone_body(dw: DeriveWhereV, d: DeriveTraitV, data: DataV) -> Seq<char> {
    if copy_mode(dw) {
        seq![]
    } else {
        match data.type_ {
            DataType::Struct => pattern_text(data, false, false) + " => "@ + data.path + " { "@
                + pieces_text(
                data.fields,
                data.skip_inner,
                Trait::Clone,
                false,
                Piece::CloneField,
                trait_path(d),
                ", "@,
            ) + " }, "@,
            DataType::Tuple => pattern_text(data, false, false) + " => "@ + data.path + "("@
                + pieces_text(
                data.fields,
                data.skip_inner,
                Trait::Clone,
                false,
                Piece::CloneTupleField,
                trait_path(d),
                ", "@,
            ) + "), "@,
            DataType::Unit => data.path + " => "@ + data.path + ", "@,
            DataType::Union => seq![],
        }
    }
}

/// The `clone` method around the match arms `body`.
pub open spec fn clone_signature(item: ItemV, dw: DeriveWhereV, body: Seq<char>) -> Seq<char> {
    if copy_mode(dw) {
        "#[inline] fn clone(&self) -> Self { *self }"@
    } else if item matches ItemV::Item(d) && d.type_ == DataType::Union {
        "#[inline] fn clone(&self) -> Self { struct __AssertCopy<__T: ::core::marker::Copy + ?::core::marker::Sized>(::core::marker::PhantomData<__T>); let _: __AssertCopy<Self>; *self }"@
    } else {
        "#[inline] fn clone(&self) -> Self { match self { "@ + body + "} }"@
    }
}

/// Cloning a struct or variant builds the same data from a clone of each
/// of its fields, skipped or not, in order: a struct's by member, a tuple's
/// by position.
pub proof fn lemma_clone_fields(dw: DeriveWhereV, d: DeriveTraitV, data: DataV)
    requires
        !copy_mode(dw),
    ensures
        ({
            let fs = data.fields;
            let p = trait_path(d);
            &&& data.type_ is Struct ==> clone_body(dw, d, data) == pattern_text(data, false, false)
                + " => "@ + data.path + " { "@ + join(
                Seq::new(
                    fs.len(),
                    |i: int| fs[i].member + ": "@ + p + "::clone("@ + fs[i].self_ident + ")"@,
                ),
                ", "@,
            ) + " }, "@
            &&& data.type_ is Tuple ==> clone_body(dw, d, data) == pattern_text(data, false, false)
                + " => "@ + data.path + "("@ + join(
                Seq::new(fs.len(), |i: int| p + "::clone("@ + fs[i].self_ident + ")"@),
                ", "@,
            ) + "), "@
        }),
{
    let fs = data.fields;
    let p = trait_path(d);
    lemma_pieces_joined(fs, data.skip_inner, Trait::Clone, Piece::CloneField, p, ", "@);
    lemma_pieces_joined(fs, data.skip_inner, Trait::Clone, Piece::CloneTupleField, p, ", "@);
    assert(fs.map_values(|f: FieldV| piece(Piece::CloneField, f, p)) =~= Seq::new(
        fs.len(),
        |i: int| fs[i].member + ": "@ + p + "::clone("@ + fs[i].self_ident + ")"@,
    ));
    assert(fs.map_values(|f: FieldV| piece(Piece::CloneTupleField, f, p)) =~= Seq::new(
        fs.len(),
        |i: int| p + "::clone("@ + fs[i].self_ident + ")"@,
    ));
}

/// Decides [`copy_mode`].
fn is_copy_mode(dw: &DeriveWhere) -> (b: bool)
    ensures
        b == copy_mode(dw@),
{
    (dw.generics.len() == 0 || dw.any_custom_bound()) && dw.contains(Trait::Copy)
}

impl Clone {
    /// Builds the match arm for one struct or variant.
    pub fn build_body(&self, dw: &DeriveWhere, d: &DeriveTrait, data: &Data) -> (r: String)
        ensures
            r@ == clone_body(dw@, d@, data@),
    {
        if is_copy_mode(dw) {
            return String::new();
        }
        match data.type_ {
            DataType::Struct | DataType::Tuple => {
                let tuple = data.type_ == DataType::Tuple;
                let path = d.path();
                let fields = pieces(
                    &data.fields,
                    &data.skip_inner,
                    Trait::Clone,
                    false,
                    if tuple {
                        Piece::CloneTupleField
                    } else {
                        Piece::CloneField
                    },
                    path.as_str(),
                    ", ",
                );
                let mut r = data.pattern(false, false);
                r.append(" => ");
                r.append(data.path.as_str());
                r.append(if tuple { "(" } else { " { " });
                r.append(fields.as_str());
                r.append(if tuple { "), " } else { " }, " });
                assert(r@ =~= clone_body(dw@, d@, data@));
                r
            },
            DataType::Unit => {
                let mut r = data.path.clone();
                r.append(" => ");
                r.append(data.path.as_str());
                r.append(", ");
                r
            },
            DataType::Union => String::new(),
        }
    }

    /// Builds the `clone` method around the match arms `body`.
    pub fn build_signature(&self, item: &Item, dw: &DeriveWhere, body: &String) -> (r: String)
        ensures
            r@ == clone_signature(item@, dw@, body@),
    {
        if is_copy_mode(dw) {
            return String::from_str("#[inline] fn clone(&self) -> Self { *self }");
        }
        let union = match item {
            Item::Item(d) => d.type_ == DataType::Union,
            _ => false,
        };
        if union {
            String::from_str(
                "#[inline] fn clone(&self) -> Self { struct __AssertCopy<__T: ::core::marker::Copy + ?::core::marker::Sized>(::core::marker::PhantomData<__T>); let _: __AssertCopy<Self>; *self }",
            )
        } else {
            let mut r = String::from_str("#[inline] fn clone(&self) -> Self { match self { ");
            r.append(body.as_str());
            r.append("} }");
            r
        }
    }
}

} // verus!
