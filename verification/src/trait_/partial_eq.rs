//! `PartialEq` implementation.

use vstd::prelude::*;

use crate::attr::item::{DeriveTrait, DeriveTraitV};
use crate::data::{Data, DataV, FieldV};
use crate::gen::{
    fields_not_skipped, lemma_kept_pieces, pattern_text, piece, pieces, pieces_text, trait_path, Piece,
};
use crate::item::{Item, ItemV};
use crate::trait_::common_ord::{
    build_incomparable_pattern, incomparable_pattern, unreachable_code, unreachable_text,
};
use crate::trait_::Trait;

verus! {

/// Marker for the `PartialEq` implementation.
pub struct PartialEq;

/// Match arm of `eq` for one struct or variant: none when all its fields
/// are skipped or it is incomparable.
pub open spec fn partial_eq_body(d: DeriveTraitV, data: DataV) -> Seq<char> {
    if data.is_empty(Trait::PartialEq) || data.incomparable is Some {
        seq![]
    } else {
        "("@ + pattern_text(data, false, false) + ", "@ + pattern_text(data, false, true)
            + ") => true"@ + pieces_text(
            data.fields,
            data.skip_inner,
            Trait::PartialEq,
            true,
            Piece::EqField,
            trait_path(d),
            seq![],
        ) + ", "@
    }
}

/// Some variant has no field to compare and is comparable: equal
/// discriminants then mean equal values.
pub open spec fn any_empty_comparable(vs: Seq<DataV>, t: Trait) -> bool {
    exists|i: int|
        0 <= i < vs.len() && (#[trigger] vs[i]).is_empty(t) && vs[i].incomparable is None
}

/// The body of `eq` around the match arms `body`.
pub open spec fn partial_eq_inner(item: ItemV, body: Seq<char>, safe: bool) -> Seq<char> {
    if item.is_incomparable() {
        "false"@
    } else {
        match item {
            ItemV::Enum { variants, .. } if variants.len() > 1 => {
                let inner = if item.is_empty(Trait::PartialEq) {
                    match incomparable_pattern(variants) {
                        Some(inc) => "if ::core::matches!(self, "@ + inc
                            + ") { return false; } true"@,
                        None => "true"@,
                    }
                } else {
                    let rest = if any_empty_comparable(variants, Trait::PartialEq) {
                        "true"@
                    } else {
                        unreachable_text(safe)
                    };
                    "match (self, __other) { "@ + body + match incomparable_pattern(variants) {
                        Some(inc) => "("@ + inc + ", ..) => false, "@,
                        None => seq![],
                    } + "_ => "@ + rest + ", }"@
                };
                "if ::core::mem::discriminant(self) == ::core::mem::discriminant(__other) { "@
                    + inner + " } else { false }"@
            },
            _ => if item.is_empty(Trait::PartialEq) {
                "true"@
            } else {
                "match (self, __other) { "@ + body + "}"@
            },
        }
    }
}

/// The `eq` method around the match arms `body`.
pub open spec fn partial_eq_signature(item: ItemV, body: Seq<char>, safe: bool) -> Seq<char> {
    "#[inline] fn eq(&self, __other: &Self) -> bool { "@ + partial_eq_inner(item, body, safe)
        + " }"@
}

/// An incomparable item is equal to nothing, itself included.
pub proof fn lemma_incomparable_never_equal(item: ItemV, body: Seq<char>, safe: bool)
    requires
        item.is_incomparable(),
    ensures
        partial_eq_inner(item, body, safe) == "false"@,
{
}

/// Two values of a comparable struct or variant are equal exactly when
/// each field not skipped for `PartialEq` is: the match arm compares each
/// such field of `self` with the same field of the other operand, in order,
/// and nothing else. With no such field, or when incomparable, there is no
/// arm.
pub proof fn lemma_partial_eq_fields(d: DeriveTraitV, data: DataV)
    ensures
        ({
            let ks = fields_not_skipped(data.fields, data.skip_inner, Trait::PartialEq);
            if ks.len() == 0 || data.incomparable is Some {
                partial_eq_body(d, data) == Seq::<char>::empty()
            } else {
                partial_eq_body(d, data) == "("@ + pattern_text(data, false, false) + ", "@
                    + pattern_text(data, false, true) + ") => true"@ + Seq::new(
                    ks.len(),
                    |i: int|
                        " && "@ + trait_path(d) + "::eq("@ + ks[i].self_ident + ", "@
                            + ks[i].other_ident + ")"@,
                ).flatten() + ", "@
            }
        }),
{
    let p = trait_path(d);
    lemma_kept_pieces(data.fields, data.skip_inner, Trait::PartialEq, Piece::EqField, p);
    let ks = fields_not_skipped(data.fields, data.skip_inner, Trait::PartialEq);
    assert(ks.map_values(|f: FieldV| piece(Piece::EqField, f, p)) =~= Seq::new(
        ks.len(),
        |i: int| " && "@ + p + "::eq("@ + ks[i].self_ident + ", "@ + ks[i].other_ident + ")"@,
    ));
}

/// Values of different variants of an enum with several variants are never
/// equal: unless the enum is incomparable, `eq` first compares the
/// discriminants and answers `false` when they differ.
pub proof fn lemma_partial_eq_discriminants(item: ItemV, body: Seq<char>, safe: bool)
    requires
        !item.is_incomparable(),
        item matches ItemV::Enum { variants, .. } && variants.len() > 1,
    ensures
        exists|inner: Seq<char>|
            partial_eq_inner(item, body, safe) == "if ::core::mem::discriminant(self) == ::core::mem::discriminant(__other) { "@
                + inner + " } else { false }"@,
{
    let variants = item->Enum_variants;
    let inner = if item.is_empty(Trait::PartialEq) {
        match incomparable_pattern(variants) {
            Some(inc) => "if ::core::matches!(self, "@ + inc + ") { return false; } true"@,
            None => "true"@,
        }
    } else {
        let rest = if any_empty_comparable(variants, Trait::PartialEq) {
            "true"@
        } else {
            unreachable_text(safe)
        };
        "match (self, __other) { "@ + body + match incomparable_pattern(variants) {
            Some(inc) => "("@ + inc + ", ..) => false, "@,
            None => seq![],
        } + "_ => "@ + rest + ", }"@
    };
    assert(partial_eq_inner(item, body, safe) == "if ::core::mem::discriminant(self) == ::core::mem::discriminant(__other) { "@
        + inner + " } else { false }"@);
}

/// Decides [`any_empty_comparable`].
pub fn find_empty_comparable(vs: &Vec<Data>, t: Trait) -> (b: bool)
    ensures
        b == any_empty_comparable(vs@.map_values(|d: Data| d@), t),
{
    let ghost vv = vs@.map_values(|d: Data| d@);
    let mut i: usize = 0;
    while i < vs.len()
        invariant
            i <= vs@.len(),
            vv == vs@.map_values(|d: Data| d@),
            forall|k: int|
                0 <= k < i ==> !((#[trigger] vv[k]).is_empty(t) && vv[k].incomparable is None),
        decreases vs.len() - i,
    {
        assert(vv[i as int] == vs@[i as int]@);
        if vs[i].is_empty(t) && !vs[i].is_incomparable() {
            return true;
        }
        i = i + 1;
    }
    false
}

impl PartialEq {
    /// Builds the match arm for one struct or variant.
    pub fn build_body(&self, d: &DeriveTrait, data: &Data) -> (r: String)
        ensures
            r@ == partial_eq_body(d@, data@),
    {
        if data.is_empty(Trait::PartialEq) || data.is_incomparable() {
            return String::new();
        }
        proof {
            reveal_strlit("");
            assert(""@ =~= Seq::<char>::empty());
        }
        let path = d.path();
        let fields = pieces(
            &data.fields,
            &data.skip_inner,
            Trait::PartialEq,
            true,
            Piece::EqField,
            path.as_str(),
            "",
        );
        let mut r = String::from_str("(");
        r.append(data.pattern(false, false).as_str());
        r.append(", ");
        r.append(data.pattern(false, true).as_str());
        r.append(") => true");
        r.append(fields.as_str());
        r.append(", ");
        assert(r@ =~= partial_eq_body(d@, data@));
        r
    }

    /// Builds the `eq` method around the match arms `body`.
    pub fn build_signature(&self, item: &Item, body: &String, safe: bool) -> (r: String)
        ensures
            r@ == partial_eq_signature(item@, body@, safe),
    {
        let mut r = String::from_str("#[inline] fn eq(&self, __other: &Self) -> bool { ");
        if item.is_incomparable() {
            r.append("false");
        } else {
            match item {
                Item::Enum { variants, .. } if variants.len() > 1 => {
                    let inc = build_incomparable_pattern(variants);
                    let mut inner = String::new();
                    if item.is_empty(Trait::PartialEq) {
                        match &inc {
                            Some(p) => {
                                inner.append("if ::core::matches!(self, ");
                                inner.append(p.as_str());
                                inner.append(") { return false; } true");
                            },
                            None => {
                                inner.append("true");
                            },
                        }
                    } else {
                        let rest = if find_empty_comparable(variants, Trait::PartialEq) {
                            "true"
                        } else {
                            unreachable_code(safe)
                        };
                        inner.append("match (self, __other) { ");
                        inner.append(body.as_str());
                        match &inc {
                            Some(p) => {
                                inner.append("(");
                                inner.append(p.as_str());
                                inner.append(", ..) => false, ");
                            },
                            None => {},
                        }
                        inner.append("_ => ");
                        inner.append(rest);
                        inner.append(", }");
                    }
                    r.append(
                        "if ::core::mem::discriminant(self) == ::core::mem::discriminant(__other) { ",
                    );
                    r.append(inner.as_str());
                    r.append(" } else { false }");
                },
                _ => {
                    if item.is_empty(Trait::PartialEq) {
                        r.append("true");
                    } else {
                        r.append("match (self, __other) { ");
                        r.append(body.as_str());
                        r.append("}");
                    }
                },
            }
        }
        r.append(" }");
        assert(r@ =~= partial_eq_signature(item@, body@, safe));
        r
    }
}

} // verus!
