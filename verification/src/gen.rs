//! Pieces of generated code shared by all traits.

use vstd::prelude::*;

use crate::attr::item::{DeriveTrait, DeriveTraitV};
use crate::attr::skip::Skip;
use crate::data::{kept, Data, DataType, DataV, Field, FieldV};
use crate::trait_::Trait;
use crate::meta::{texts, MetaPath, PathV};
use crate::util::{join, join_strings};

verus! {

/// Source text of a path.
pub open spec fn path_text(p: PathV) -> Seq<char> {
    (if p.leading_colon {
        "::"@
    } else {
        seq![]
    }) + join(p.segments, "::"@)
}

/// Prints a path.
pub fn print_path(p: &MetaPath) -> (r: String)
    ensures
        r@ == path_text(p@),
{
    let body = join_strings(&p.segments, "::");
    if p.leading_colon {
        let mut r = String::from_str("::");
        r.append(body.as_str());
        r
    } else {
        proof {
            assert(seq![] + body@ =~= body@);
        }
        body
    }
}

/// Generics of the item split for use in an `impl`, as source text.
pub struct SplitGenerics {
    /// Parameters after `impl`, with their brackets.
    pub imp: String,
    /// Parameters after the type's name, with their brackets.
    pub ty: String,
    /// `where` and its predicates, or nothing.
    pub where_clause: String,
}

/// Mathematical value of a [`SplitGenerics`].
pub struct SplitGenericsV {
    pub imp: Seq<char>,
    pub ty: Seq<char>,
    pub where_clause: Seq<char>,
}

impl View for SplitGenerics {
    type V = SplitGenericsV;

    open spec fn view(&self) -> SplitGenericsV {
        SplitGenericsV { imp: self.imp@, ty: self.ty@, where_clause: self.where_clause@ }
    }
}

/// Path of the `zeroize` crate.
pub open spec fn zeroize_crate_text(c: Option<PathV>) -> Seq<char> {
    match c {
        Some(p) => path_text(p),
        None => "::zeroize"@,
    }
}

/// Fully qualified path of the trait.
pub open spec fn trait_path(d: DeriveTraitV) -> Seq<char> {
    match d {
        DeriveTraitV::Clone => "::core::clone::Clone"@,
        DeriveTraitV::Copy => "::core::marker::Copy"@,
        DeriveTraitV::Debug => "::core::fmt::Debug"@,
        DeriveTraitV::Default => "::core::default::Default"@,
        DeriveTraitV::Eq => "::core::cmp::Eq"@,
        DeriveTraitV::Hash => "::core::hash::Hash"@,
        DeriveTraitV::Ord => "::core::cmp::Ord"@,
        DeriveTraitV::PartialEq => "::core::cmp::PartialEq"@,
        DeriveTraitV::PartialOrd => "::core::cmp::PartialOrd"@,
        DeriveTraitV::Zeroize { crate_, .. } => zeroize_crate_text(crate_) + "::Zeroize"@,
        DeriveTraitV::ZeroizeOnDrop { crate_, .. } => zeroize_crate_text(crate_)
            + "::ZeroizeOnDrop"@,
    }
}

impl DeriveTrait {
    /// Returns the fully qualified path of this trait.
    pub fn path(&self) -> (r: String)
        ensures
            r@ == trait_path(self@),
    {
        match self {
            DeriveTrait::Clone => String::from_str("::core::clone::Clone"),
            DeriveTrait::Copy => String::from_str("::core::marker::Copy"),
            DeriveTrait::Debug => String::from_str("::core::fmt::Debug"),
            DeriveTrait::Default => String::from_str("::core::default::Default"),
            DeriveTrait::Eq => String::from_str("::core::cmp::Eq"),
            DeriveTrait::Hash => String::from_str("::core::hash::Hash"),
            DeriveTrait::Ord => String::from_str("::core::cmp::Ord"),
            DeriveTrait::PartialEq => String::from_str("::core::cmp::PartialEq"),
            DeriveTrait::PartialOrd => String::from_str("::core::cmp::PartialOrd"),
            DeriveTrait::Zeroize { crate_, .. } => {
                let mut r = zeroize_crate(crate_);
                r.append("::Zeroize");
                r
            },
            DeriveTrait::ZeroizeOnDrop { crate_, .. } => {
                let mut r = zeroize_crate(crate_);
                r.append("::ZeroizeOnDrop");
                r
            },
        }
    }
}

/// Prints the path of the `zeroize` crate.
pub fn zeroize_crate(c: &Option<MetaPath>) -> (r: String)
    ensures
        r@ == zeroize_crate_text(crate::attr::item::opt_path(*c)),
{
    match c {
        Some(p) => print_path(p),
        None => String::from_str("::zeroize"),
    }
}

/// A snippet generated for each field.
#[derive(Clone, Copy, PartialEq, Eq, Structural)]
pub enum Piece {
    /// `member: ref [mut] ident` in a struct pattern.
    StructPat { mutable: bool, other: bool },
    /// `ref [mut] ident` in a tuple pattern.
    TuplePat { mutable: bool, other: bool },
    /// `member: Clone::clone(ident)`.
    CloneField,
    /// `Clone::clone(ident)`.
    CloneTupleField,
    /// `DebugStruct::field(..);`.
    DebugStructField,
    /// `DebugTuple::field(..);`.
    DebugTupleField,
    /// `member: Default::default()`.
    DefaultStructField,
    /// `Default::default()`.
    DefaultTupleField,
    /// `let _: __AssertEq<Type>;`.
    EqAssert,
    /// `Hash::hash(ident, __state);`.
    HashField,
    /// `&& PartialEq::eq(ident, other)`.
    EqField,
    /// `ident.zeroize();` or the fully qualified call.
    ZeroizeField,
    /// `ident.zeroize_or_on_drop();` or the assertion call.
    ZeroizeOnDropField { no_drop: bool },
}

/// `mut ` where `mutable`.
pub open spec fn mut_text(mutable: bool) -> Seq<char> {
    if mutable {
        "mut "@
    } else {
        seq![]
    }
}

/// The variable bound to the field of `self` or of `other`.
pub open spec fn ident_of(f: FieldV, other: bool) -> Seq<char> {
    if other {
        f.other_ident
    } else {
        f.self_ident
    }
}

/// Text of the snippet `k` for the field `f`, where `p` is the trait's path.
pub open spec fn piece(k: Piece, f: FieldV, p: Seq<char>) -> Seq<char> {
    match k {
        Piece::StructPat { mutable, other } => f.member + ": ref "@ + mut_text(mutable) + ident_of(
            f,
            other,
        ),
        Piece::TuplePat { mutable, other } => "ref "@ + mut_text(mutable) + ident_of(f, other),
        Piece::CloneField => f.member + ": "@ + p + "::clone("@ + f.self_ident + ")"@,
        Piece::CloneTupleField => p + "::clone("@ + f.self_ident + ")"@,
        Piece::DebugStructField => "::core::fmt::DebugStruct::field(&mut __builder, \""@
            + f.member + "\", "@ + f.self_ident + "); "@,
        Piece::DebugTupleField => "::core::fmt::DebugTuple::field(&mut __builder, "@
            + f.self_ident + "); "@,
        Piece::DefaultStructField => f.member + ": "@ + p + "::default()"@,
        Piece::DefaultTupleField => p + "::default()"@,
        Piece::EqAssert => "let _: __AssertEq<"@ + f.ty + ">; "@,
        Piece::HashField => p + "::hash("@ + f.self_ident + ", __state); "@,
        Piece::EqField => " && "@ + p + "::eq("@ + f.self_ident + ", "@ + f.other_ident + ")"@,
        Piece::ZeroizeField => if f.attr.fqs {
            p + "::zeroize("@ + f.self_ident + "); "@
        } else {
            f.self_ident + ".zeroize(); "@
        },
        Piece::ZeroizeOnDropField { no_drop } => f.self_ident + if no_drop {
            ".__derive_where_zeroize_on_drop(); "@
        } else {
            ".zeroize_or_on_drop(); "@
        },
    }
}

/// Text of the snippet `k` for the field `f`, where `p` is the trait's path.
pub fn piece_text(k: Piece, f: &Field, p: &str) -> (r: String)
    ensures
        r@ == piece(k, f@, p@),
{
    let mut r = String::new();
    match k {
        Piece::StructPat { mutable, other } => {
            r.append(f.member.as_str());
            r.append(": ref ");
            if mutable {
                r.append("mut ");
            }
            r.append(if other { f.other_ident.as_str() } else { f.self_ident.as_str() });
        },
        Piece::TuplePat { mutable, other } => {
            r.append("ref ");
            if mutable {
                r.append("mut ");
            }
            r.append(if other { f.other_ident.as_str() } else { f.self_ident.as_str() });
        },
        Piece::CloneField => {
            r.append(f.member.as_str());
            r.append(": ");
            r.append(p);
            r.append("::clone(");
            r.append(f.self_ident.as_str());
            r.append(")");
        },
        Piece::CloneTupleField => {
            r.append(p);
            r.append("::clone(");
            r.append(f.self_ident.as_str());
            r.append(")");
        },
        Piece::DebugStructField => {
            r.append("::core::fmt::DebugStruct::field(&mut __builder, \"");
            r.append(f.member.as_str());
            r.append("\", ");
            r.append(f.self_ident.as_str());
            r.append("); ");
        },
        Piece::DebugTupleField => {
            r.append("::core::fmt::DebugTuple::field(&mut __builder, ");
            r.append(f.self_ident.as_str());
            r.append("); ");
        },
        Piece::DefaultStructField => {
            r.append(f.member.as_str());
            r.append(": ");
            r.append(p);
            r.append("::default()");
        },
        Piece::DefaultTupleField => {
            r.append(p);
            r.append("::default()");
        },
        Piece::EqAssert => {
            r.append("let _: __AssertEq<");
            r.append(f.ty.as_str());
            r.append(">; ");
        },
        Piece::HashField => {
            r.append(p);
            r.append("::hash(");
            r.append(f.self_ident.as_str());
            r.append(", __state); ");
        },
        Piece::EqField => {
            r.append(" && ");
            r.append(p);
            r.append("::eq(");
            r.append(f.self_ident.as_str());
            r.append(", ");
            r.append(f.other_ident.as_str());
            r.append(")");
        },
        Piece::ZeroizeField => {
            if f.attr.zeroize_fqs.0 {
                r.append(p);
                r.append("::zeroize(");
                r.append(f.self_ident.as_str());
                r.append("); ");
            } else {
                r.append(f.self_ident.as_str());
                r.append(".zeroize(); ");
            }
        },
        Piece::ZeroizeOnDropField { no_drop } => {
            r.append(f.self_ident.as_str());
            r.append(
                if no_drop {
                    ".__derive_where_zeroize_on_drop(); "
                } else {
                    ".zeroize_or_on_drop(); "
                },
            );
        },
    }
    assert(r@ =~= piece(k, f@, p@));
    r
}

/// The fields that snippets are generated for: all, or those kept for `t`.
pub open spec fn chosen(fs: Seq<FieldV>, inner: crate::attr::skip::SkipV, t: Trait, only_kept: bool) -> Seq<FieldV> {
    if only_kept {
        kept(fs, inner, t)
    } else {
        fs
    }
}

/// The snippets `k` of the chosen fields, joined by `sep`.
pub open spec fn pieces_text(
    fs: Seq<FieldV>,
    inner: crate::attr::skip::SkipV,
    t: Trait,
    only_kept: bool,
    k: Piece,
    p: Seq<char>,
    sep: Seq<char>,
) -> Seq<char> {
    join(chosen(fs, inner, t, only_kept).map_values(|f: FieldV| piece(k, f, p)), sep)
}

/// The fields of `fs` that are not skipped for `t`, in order, where the
/// parent has the option `inner`.
pub open spec fn fields_not_skipped(fs: Seq<FieldV>, inner: crate::attr::skip::SkipV, t: Trait) -> Seq<
    FieldV,
> {
    fs.filter(|f: FieldV| !(f.attr.skip.skips(t) || inner.skips(t)))
}

/// The snippets `k` of the fields kept for `t`, with nothing between them,
/// are those of the fields not skipped for `t`, one after another.
pub proof fn lemma_kept_pieces(
    fs: Seq<FieldV>,
    inner: crate::attr::skip::SkipV,
    t: Trait,
    k: Piece,
    p: Seq<char>,
)
    ensures
        pieces_text(fs, inner, t, true, k, p, seq![]) == fields_not_skipped(fs, inner, t).map_values(
            |f: FieldV| piece(k, f, p),
        ).flatten(),
        kept(fs, inner, t) == fields_not_skipped(fs, inner, t),
{
    crate::data::lemma_kept_is_filter(fs, inner, t);
    crate::util::lemma_join_flatten(kept(fs, inner, t).map_values(|f: FieldV| piece(k, f, p)));
}

/// The snippets `k` of the fields kept for `t`, joined by `sep`, are those
/// of the fields not skipped for `t`; those of all fields, where skipping
/// is not asked for.
pub proof fn lemma_pieces_joined(
    fs: Seq<FieldV>,
    inner: crate::attr::skip::SkipV,
    t: Trait,
    k: Piece,
    p: Seq<char>,
    sep: Seq<char>,
)
    ensures
        pieces_text(fs, inner, t, true, k, p, sep) == join(
            fields_not_skipped(fs, inner, t).map_values(|f: FieldV| piece(k, f, p)),
            sep,
        ),
        pieces_text(fs, inner, t, false, k, p, sep) == join(
            fs.map_values(|f: FieldV| piece(k, f, p)),
            sep,
        ),
{
    crate::data::lemma_kept_is_filter(fs, inner, t);
}

/// Generates the snippets `k` of the chosen fields, joined by `sep`.
pub fn pieces(
    fields: &Vec<Field>,
    inner: &Skip,
    t: Trait,
    only_kept: bool,
    k: Piece,
    p: &str,
    sep: &str,
) -> (r: String)
    ensures
        r@ == pieces_text(
            fields@.map_values(|f: Field| f@),
            inner@,
            t,
            only_kept,
            k,
            p@,
            sep@,
        ),
{
    let ghost fv = fields@.map_values(|f: Field| f@);
    let mut out: Vec<String> = Vec::new();
    let mut i: usize = 0;
    assert(fv.take(0) =~= seq![]);
    assert(out@.map_values(|x: String| x@) =~= seq![]);
    while i < fields.len()
        invariant
            i <= fields@.len(),
            fv == fields@.map_values(|f: Field| f@),
            out@.map_values(|x: String| x@) == chosen(fv.take(i as int), inner@, t, only_kept).map_values(
                |f: FieldV| piece(k, f, p@),
            ),
        decreases fields.len() - i,
    {
        let ghost before = out@.map_values(|x: String| x@);
        let take = !only_kept || !(fields[i].attr.skip.skip(&t) || inner.skip(&t));
        if take {
            out.push(piece_text(k, &fields[i], p));
        }
        proof {
            let s = fv.take(i + 1);
            assert(s.drop_last() =~= fv.take(i as int));
            assert(s.last() == fields@[i as int]@);
            let prev = chosen(fv.take(i as int), inner@, t, only_kept);
            if take {
                assert(chosen(s, inner@, t, only_kept) == prev.push(s.last()));
                assert(prev.push(s.last()).map_values(|f: FieldV| piece(k, f, p@)) =~= prev.map_values(
                    |f: FieldV| piece(k, f, p@),
                ).push(piece(k, s.last(), p@)));
            } else {
                assert(chosen(s, inner@, t, only_kept) == prev);
            }
            assert(out@.map_values(|x: String| x@) =~= chosen(s, inner@, t, only_kept).map_values(
                |f: FieldV| piece(k, f, p@),
            ));
        }
        i = i + 1;
    }
    assert(fv.take(fields@.len() as int) =~= fv);
    join_strings(&out, sep)
}

/// Pattern destructuring `self` (or `other`) for the data `d`.
pub open spec fn pattern_text(d: DataV, mutable: bool, other: bool) -> Seq<char> {
    match d.type_ {
        DataType::Struct => d.path + " { "@ + pieces_text(
            d.fields,
            d.skip_inner,
            Trait::Clone,
            false,
            Piece::StructPat { mutable, other },
            seq![],
            ", "@,
        ) + " }"@,
        DataType::Tuple => d.path + "("@ + pieces_text(
            d.fields,
            d.skip_inner,
            Trait::Clone,
            false,
            Piece::TuplePat { mutable, other },
            seq![],
            ", "@,
        ) + ")"@,
        _ => d.path,
    }
}

/// A pattern binds every field, skipped or not, in order: a struct's by
/// its member, a tuple's by position, each to the field's variable for
/// `self` or for the other operand, by reference (mutable where asked).
pub proof fn lemma_pattern_binds_all_fields(d: DataV, mutable: bool, other: bool)
    ensures
        ({
            let fs = d.fields;
            let var = |i: int| if other {
                fs[i].other_ident
            } else {
                fs[i].self_ident
            };
            &&& d.type_ is Struct ==> pattern_text(d, mutable, other) == d.path + " { "@ + join(
                Seq::new(fs.len(), |i: int| fs[i].member + ": ref "@ + mut_text(mutable) + var(i)),
                ", "@,
            ) + " }"@
            &&& d.type_ is Tuple ==> pattern_text(d, mutable, other) == d.path + "("@ + join(
                Seq::new(fs.len(), |i: int| "ref "@ + mut_text(mutable) + var(i)),
                ", "@,
            ) + ")"@
        }),
{
    let fs = d.fields;
    let var = |i: int| if other {
        fs[i].other_ident
    } else {
        fs[i].self_ident
    };
    assert(fs.map_values(|f: FieldV| piece(Piece::StructPat { mutable, other }, f, seq![]))
        =~= Seq::new(fs.len(), |i: int| fs[i].member + ": ref "@ + mut_text(mutable) + var(i)));
    assert(fs.map_values(|f: FieldV| piece(Piece::TuplePat { mutable, other }, f, seq![]))
        =~= Seq::new(fs.len(), |i: int| "ref "@ + mut_text(mutable) + var(i)));
}

/// Pattern matching the data `d` whatever its fields.
pub open spec fn skip_pattern_text(d: DataV) -> Seq<char> {
    match d.type_ {
        DataType::Struct => d.path + " { .. }"@,
        DataType::Tuple => d.path + "(..)"@,
        _ => d.path,
    }
}

impl Data {
    /// Pattern destructuring `self` (or `other`), binding fields by
    /// reference (mutable where `mutable`).
    pub fn pattern(&self, mutable: bool, other: bool) -> (r: String)
        ensures
            r@ == pattern_text(self@, mutable, other),
    {
        proof {
            reveal_strlit("");
            assert(""@ =~= Seq::<char>::empty());
        }
        match self.type_ {
            DataType::Struct => {
                let inner = pieces(
                    &self.fields,
                    &self.skip_inner,
                    Trait::Clone,
                    false,
                    Piece::StructPat { mutable, other },
                    "",
                    ", ",
                );
                let mut r = self.path.clone();
                r.append(" { ");
                r.append(inner.as_str());
                r.append(" }");
                assert(r@ =~= pattern_text(self@, mutable, other));
                r
            },
            DataType::Tuple => {
                let inner = pieces(
                    &self.fields,
                    &self.skip_inner,
                    Trait::Clone,
                    false,
                    Piece::TuplePat { mutable, other },
                    "",
                    ", ",
                );
                let mut r = self.path.clone();
                r.append("(");
                r.append(inner.as_str());
                r.append(")");
                assert(r@ =~= pattern_text(self@, mutable, other));
                r
            },
            _ => self.path.clone(),
        }
    }

    /// Pattern matching this struct or variant whatever its fields.
    pub fn skip_pattern(&self) -> (r: String)
        ensures
            r@ == skip_pattern_text(self@),
    {
        let mut r = self.path.clone();
        match self.type_ {
            DataType::Struct => r.append(" { .. }"),
            DataType::Tuple => r.append("(..)"),
            _ => {},
        }
        r
    }
}

} // verus!
