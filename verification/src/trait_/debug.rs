//! `Debug` implementation.

use vstd::prelude::*;

use crate::data::{Data, DataType, DataV, FieldV};
use crate::gen::{
    fields_not_skipped, lemma_kept_pieces, pattern_text, piece, pieces, pieces_text, Piece,
};
use crate::trait_::Trait;

verus! {

/// Marker for the `Debug` implementation.
pub struct Debug;

/// Match arm of `fmt` for one struct or variant.
pub open spec fn debug_body(data: DataV) -> Seq<char> {
    let pat = pattern_text(data, false, false);
    match data.type_ {
        DataType::Struct => pat
            + " => { let mut __builder = ::core::fmt::Formatter::debug_struct(__f, \""@
            + data.ident + "\"); "@ + pieces_text(
            data.fields,
            data.skip_inner,
            Trait::Debug,
            true,
            Piece::DebugStructField,
            seq![],
            seq![],
        ) + "::core::fmt::DebugStruct::finish(&mut __builder) } "@,
        DataType::Tuple => pat
            + " => { let mut __builder = ::core::fmt::Formatter::debug_tuple(__f, \""@
            + data.ident + "\"); "@ + pieces_text(
            data.fields,
            data.skip_inner,
            Trait::Debug,
            true,
            Piece::DebugTupleField,
            seq![],
            seq![],
        ) + "::core::fmt::DebugTuple::finish(&mut __builder) } "@,
        DataType::Unit => pat + " => ::core::fmt::Formatter::write_str(__f, \""@ + data.ident
            + "\"), "@,
        DataType::Union => seq![],
    }
}

/// Debug output of a struct or variant names it and shows each field not
/// skipped for `Debug`, in order and nothing else: a struct's with its
/// member name, a tuple's by position.
pub proof fn lemma_debug_fields(data: DataV)
    ensures
        ({
            let ks = fields_not_skipped(data.fields, data.skip_inner, Trait::Debug);
            let pat = pattern_text(data, false, false);
            &&& data.type_ is Struct ==> debug_body(data) == pat
                + " => { let mut __builder = ::core::fmt::Formatter::debug_struct(__f, \""@
                + data.ident + "\"); "@ + Seq::new(
                ks.len(),
                |i: int|
                    "::core::fmt::DebugStruct::field(&mut __builder, \""@ + ks[i].member + "\", "@
                        + ks[i].self_ident + "); "@,
            ).flatten() + "::core::fmt::DebugStruct::finish(&mut __builder) } "@
            &&& data.type_ is Tuple ==> debug_body(data) == pat
                + " => { let mut __builder = ::core::fmt::Formatter::debug_tuple(__f, \""@
                + data.ident + "\"); "@ + Seq::new(
                ks.len(),
                |i: int|
                    "::core::fmt::DebugTuple::field(&mut __builder, "@ + ks[i].self_ident + "); "@,
            ).flatten() + "::core::fmt::DebugTuple::finish(&mut __builder) } "@
        }),
{
    let ks = fields_not_skipped(data.fields, data.skip_inner, Trait::Debug);
    lemma_kept_pieces(data.fields, data.skip_inner, Trait::Debug, Piece::DebugStructField, seq![]);
    lemma_kept_pieces(data.fields, data.skip_inner, Trait::Debug, Piece::DebugTupleField, seq![]);
    assert(ks.map_values(|f: FieldV| piece(Piece::DebugStructField, f, seq![])) =~= Seq::new(
        ks.len(),
        |i: int|
            "::core::fmt::DebugStruct::field(&mut __builder, \""@ + ks[i].member + "\", "@
                + ks[i].self_ident + "); "@,
    ));
    assert(ks.map_values(|f: FieldV| piece(Piece::DebugTupleField, f, seq![])) =~= Seq::new(
        ks.len(),
        |i: int| "::core::fmt::DebugTuple::field(&mut __builder, "@ + ks[i].self_ident + "); "@,
    ));
}

/// The `fmt` method around the match arms `body`.
pub open spec fn debug_signature(body: Seq<char>) -> Seq<char> {
    "fn fmt(&self, __f: &mut ::core::fmt::Formatter<'_>) -> ::core::fmt::Result { match self { "@
        + body + "} }"@
}

impl Debug {
    /// Builds the match arm for one struct or variant.
    pub fn build_body(&self, data: &Data) -> (r: String)
        ensures
            r@ == debug_body(data@),
    {
        proof {
            reveal_strlit("");
            assert(""@ =~= Seq::<char>::empty());
        }
        match data.type_ {
            DataType::Struct => {
                let fields = pieces(
                    &data.fields,
                    &data.skip_inner,
                    Trait::Debug,
                    true,
                    Piece::DebugStructField,
                    "",
                    "",
                );
                let mut r = data.pattern(false, false);
                r.append(" => { let mut __builder = ::core::fmt::Formatter::debug_struct(__f, \"");
                r.append(data.ident.as_str());
                r.append("\"); ");
                r.append(fields.as_str());
                r.append("::core::fmt::DebugStruct::finish(&mut __builder) } ");
                assert(r@ =~= debug_body(data@));
                r
            },
            DataType::Tuple => {
                let fields = pieces(
                    &data.fields,
                    &data.skip_inner,
                    Trait::Debug,
                    true,
                    Piece::DebugTupleField,
                    "",
                    "",
                );
                let mut r = data.pattern(false, false);
                r.append(" => { let mut __builder = ::core::fmt::Formatter::debug_tuple(__f, \"");
                r.append(data.ident.as_str());
                r.append("\"); ");
                r.append(fields.as_str());
                r.append("::core::fmt::DebugTuple::finish(&mut __builder) } ");
                assert(r@ =~= debug_body(data@));
                r
            },
            DataType::Unit => {
                let mut r = data.pattern(false, false);
                r.append(" => ::core::fmt::Formatter::write_str(__f, \"");
                r.append(data.ident.as_str());
                r.append("\"), ");
                r
            },
            DataType::Union => String::new(),
        }
    }

    /// Builds the `fmt` method around the match arms `body`.
    pub fn build_signature(&self, body: &String) -> (r: String)
        ensures
            r@ == debug_signature(body@),
    {
        let mut r = String::from_str(
            "fn fmt(&self, __f: &mut ::core::fmt::Formatter<'_>) -> ::core::fmt::Result { match self { ",
        );
        r.append(body.as_str());
        r.append("} }");
        r
    }
}

} // verus!
