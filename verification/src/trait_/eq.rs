//! `Eq` implementation.

use vstd::prelude::*;

use crate::data::{Data, DataV, FieldV};
use crate::gen::{fields_not_skipped, lemma_kept_pieces, piece, pieces, pieces_text, Piece};
use crate::trait_::Trait;

verus! {

/// Marker for the `Eq` implementation.
pub struct Eq;

/// Assertions that the fields of one struct or variant are `Eq`.
pub open spec fn eq_body(data: DataV) -> Seq<char> {
    pieces_text(data.fields, data.skip_inner, Trait::Eq, true, Piece::EqAssert, seq![], seq![])
}

/// The assertions of a struct or variant require `Eq` of the type of each
/// field not skipped for `Eq`, in order, and of nothing else.
pub proof fn lemma_eq_fields(data: DataV)
    ensures
        ({
            let ks = fields_not_skipped(data.fields, data.skip_inner, Trait::Eq);
            eq_body(data) == Seq::new(
                ks.len(),
                |i: int| "let _: __AssertEq<"@ + ks[i].ty + ">; "@,
            ).flatten()
        }),
{
    let ks = fields_not_skipped(data.fields, data.skip_inner, Trait::Eq);
    lemma_kept_pieces(data.fields, data.skip_inner, Trait::Eq, Piece::EqAssert, seq![]);
    assert(ks.map_values(|f: FieldV| piece(Piece::EqAssert, f, seq![])) =~= Seq::new(
        ks.len(),
        |i: int| "let _: __AssertEq<"@ + ks[i].ty + ">; "@,
    ));
}

/// The `assert_receiver_is_total_eq` method around the assertions `body`.
pub open spec fn eq_signature(body: Seq<char>) -> Seq<char> {
    "#[inline] fn assert_receiver_is_total_eq(&self) { struct __AssertEq<__T: ::core::cmp::Eq + ?::core::marker::Sized>(::core::marker::PhantomData<__T>); "@
        + body + "}"@
}

impl Eq {
    /// Builds the assertions for one struct or variant.
    pub fn build_body(&self, data: &Data) -> (r: String)
        ensures
            r@ == eq_body(data@),
    {
        proof {
            reveal_strlit("");
            assert(""@ =~= Seq::<char>::empty());
        }
        pieces(&data.fields, &data.skip_inner, Trait::Eq, true, Piece::EqAssert, "", "")
    }

    /// Builds the `assert_receiver_is_total_eq` method around `body`.
    pub fn build_signature(&self, body: &String) -> (r: String)
        ensures
            r@ == eq_signature(body@),
    {
        let mut r = String::from_str(
            "#[inline] fn assert_receiver_is_total_eq(&self) { struct __AssertEq<__T: ::core::cmp::Eq + ?::core::marker::Sized>(::core::marker::PhantomData<__T>); ",
        );
        r.append(body.as_str());
        r.append("}");
        r
    }
}

} // verus!
