//! The text of one generated `impl`.

use vstd::prelude::*;

use crate::attr::generic::{Generic, GenericV};
use crate::attr::item::{DeriveTrait, DeriveTraitV, DeriveWhere, DeriveWhereV};
use crate::data::{Data, DataType, DataV};
use crate::gen::{trait_path, SplitGenerics, SplitGenericsV};
use crate::input::{Input, InputV};
use crate::item::{Item, ItemV};
use crate::model::GenericsInput;
use crate::trait_::clone::{clone_body, clone_signature};
use crate::trait_::debug::{debug_body, debug_signature};
use crate::trait_::default::{default_body, default_signature};
use crate::trait_::eq::{eq_body, eq_signature};
use crate::trait_::hash::{hash_body, hash_signature};
use crate::trait_::ord::{ord_arm, ord_method_text};
use crate::trait_::partial_eq::{partial_eq_body, partial_eq_signature};
use crate::trait_::partial_ord::{partial_ord_arm, partial_ord_method_text};
use crate::trait_::zeroize::{zeroize_arm, zeroize_method, zeroize_additional, Zeroize};
use crate::trait_::zeroize_on_drop::{
    zeroize_on_drop_arm, zeroize_on_drop_impl_trait, zeroize_on_drop_method, zeroize_on_drop_wrap,
    ZeroizeOnDrop,
};
use crate::trait_::{Features, Trait};
use crate::trait_::common_ord::incomparable_pattern;
use crate::util::{join, join_strings, lemma_join_empty};

verus! {

/// The predicates of the item's own `where` clause.
pub open spec fn where_preds(g: GenericsInput) -> Option<Seq<Seq<char>>> {
    match g.where_clause {
        Some(v) => Some(v@.map_values(|s: String| s@)),
        None => None,
    }
}

/// The predicate that a generic of the attribute adds for the trait `d`.
pub open spec fn generic_predicate(g: GenericV, d: DeriveTraitV, item: ItemV) -> Seq<char> {
    match g {
        GenericV::CustomBound { text } => text,
        GenericV::NoBound { text, .. } => text + ": "@ + trait_path(d) + if d is Clone && (
        item matches ItemV::Item(x) && x.type_ == DataType::Union) {
            " + ::core::marker::Copy"@
        } else {
            seq![]
        },
    }
}

/// The `where` clause of the implementation: the item's predicates and
/// those the attribute adds, or nothing when there are neither.
pub open spec fn where_text(
    preds: Option<Seq<Seq<char>>>,
    dw: DeriveWhereV,
    d: DeriveTraitV,
    item: ItemV,
) -> Seq<char> {
    let added = dw.generics.map_values(|g: GenericV| generic_predicate(g, d, item));
    match preds {
        None => if added.len() == 0 {
            seq![]
        } else {
            "where "@ + join(added, ", "@)
        },
        Some(p) => "where "@ + join(p + added, ", "@),
    }
}

/// An `impl` block of `path` for `ident` with the generics `g`.
pub open spec fn impl_block(g: SplitGenericsV, path: Seq<char>, ident: Seq<char>, body: Seq<char>) -> Seq<
    char,
> {
    "impl"@ + g.imp + " "@ + path + " for "@ + ident + g.ty + " "@ + g.where_clause + " { "@ + body
        + " }"@
}

/// The match arm that the trait `d` generates for one struct or variant.
pub open spec fn arm_text(d: DeriveTraitV, dw: DeriveWhereV, data: DataV) -> Seq<char> {
    match d {
        DeriveTraitV::Clone => clone_body(dw, d, data),
        DeriveTraitV::Copy => seq![],
        DeriveTraitV::Debug => debug_body(data),
        DeriveTraitV::Default => default_body(d, data),
        DeriveTraitV::Eq => eq_body(data),
        DeriveTraitV::Hash => hash_body(d, data),
        DeriveTraitV::Ord => ord_arm(d, data),
        DeriveTraitV::PartialEq => partial_eq_body(d, data),
        DeriveTraitV::PartialOrd => partial_ord_arm(data),
        DeriveTraitV::Zeroize { .. } => zeroize_arm(d, data),
        DeriveTraitV::ZeroizeOnDrop { .. } => zeroize_on_drop_arm(d, data),
    }
}

/// The match arms for the item: one per variant of an enum.
pub open spec fn arms_text(d: DeriveTraitV, dw: DeriveWhereV, item: ItemV) -> Seq<char> {
    match item {
        ItemV::Item(data) => arm_text(d, dw, data),
        ItemV::Enum { variants, .. } => join(
            variants.map_values(|v: DataV| arm_text(d, dw, v)),
            seq![],
        ),
    }
}

/// The methods of the implementation of `d` around the match arms `body`.
pub open spec fn method_text(
    d: DeriveTraitV,
    dw: DeriveWhereV,
    item: ItemV,
    g: SplitGenericsV,
    body: Seq<char>,
    features: Features,
) -> Seq<char> {
    match d {
        DeriveTraitV::Clone => clone_signature(item, dw, body),
        DeriveTraitV::Copy => seq![],
        DeriveTraitV::Debug => debug_signature(body),
        DeriveTraitV::Default => default_signature(body),
        DeriveTraitV::Eq => eq_signature(body),
        DeriveTraitV::Hash => hash_signature(body),
        DeriveTraitV::Ord => ord_method_text(item, g, dw, body, features),
        DeriveTraitV::PartialEq => partial_eq_signature(item, body, features.safe),
        DeriveTraitV::PartialOrd => partial_ord_method_text(item, g, dw, body, features),
        DeriveTraitV::Zeroize { .. } => zeroize_method(body),
        DeriveTraitV::ZeroizeOnDrop { .. } => zeroize_on_drop_method(item, d, body, features),
    }
}

/// The generics of the implementation of `d`.
pub open spec fn split_generics(
    generics: GenericsInput,
    dw: DeriveWhereV,
    d: DeriveTraitV,
    item: ItemV,
) -> SplitGenericsV {
    SplitGenericsV {
        imp: generics.impl_generics@,
        ty: generics.type_generics@,
        where_clause: where_text(where_preds(generics), dw, d, item),
    }
}

/// The whole output for the trait `d`: its implementation and any
/// additional one.
pub open spec fn impl_text(
    dw: DeriveWhereV,
    d: DeriveTraitV,
    item: ItemV,
    generics: GenericsInput,
    features: Features,
) -> Seq<char> {
    let g = split_generics(generics, dw, d, item);
    let ident = item.ident();
    let body = method_text(d, dw, item, g, arms_text(d, dw, item), features);
    let main = if d is ZeroizeOnDrop {
        zeroize_on_drop_wrap(d, impl_block(g, zeroize_on_drop_impl_trait(d), ident, body))
    } else {
        impl_block(g, trait_path(d), ident, body)
    };
    let extra = match d {
        DeriveTraitV::Zeroize { .. } => match zeroize_additional(d) {
            Some((p, b)) => " "@ + impl_block(g, p, ident, b),
            None => seq![],
        },
        DeriveTraitV::ZeroizeOnDrop { .. } => if features.zeroize_on_drop {
            " "@ + impl_block(g, trait_path(d), ident, seq![])
        } else {
            seq![]
        },
        _ => seq![],
    };
    main + extra
}

/// The trait `d` can be implemented for `item`.
pub open spec fn implementable(d: DeriveTraitV, item: ItemV) -> bool {
    &&& item.wf()
    &&& (item matches ItemV::Item(x) && x.type_ == DataType::Union) ==> d.trait_().unionable()
}

/// Without generics in the attribute and without a `where` clause on the
/// item, the implementation holds for all generic parameters.
pub proof fn lemma_unbounded(generics: GenericsInput, dw: DeriveWhereV, d: DeriveTraitV, item: ItemV)
    requires
        generics.where_clause is None,
        dw.generics.len() == 0,
    ensures
        split_generics(generics, dw, d, item).where_clause == Seq::<char>::empty(),
{
}

/// A bare type of the attribute is bound by the derived trait; a bound
/// written out is used as it stands.
pub proof fn lemma_generic_bound(g: GenericV, d: DeriveTraitV, item: ItemV)
    ensures
        g matches GenericV::NoBound { text, .. } ==> (text + ": "@ + trait_path(d)).is_prefix_of(
            generic_predicate(g, d, item),
        ),
        g matches GenericV::CustomBound { text } ==> generic_predicate(g, d, item) == text,
{
    if let GenericV::NoBound { text, .. } = g {
        let head = text + ": "@ + trait_path(d);
        let tail = if d is Clone && (item matches ItemV::Item(x) && x.type_ == DataType::Union) {
            " + ::core::marker::Copy"@
        } else {
            seq![]
        };
        assert((head + tail).subrange(0, head.len() as int) =~= head);
    }
}

/// When every field is skipped for `PartialEq`, values are equal exactly
/// when they are the same variant.
pub proof fn lemma_skipped_all_equal(dw: DeriveWhereV, item: ItemV, g: SplitGenericsV, features: Features)
    requires
        !item.is_incomparable(),
        item.is_empty(Trait::PartialEq),
        item is Enum ==> incomparable_pattern(item->Enum_variants) is None,
    ensures
        method_text(
            DeriveTraitV::PartialEq,
            dw,
            item,
            g,
            arms_text(DeriveTraitV::PartialEq, dw, item),
            features,
        ) == "#[inline] fn eq(&self, __other: &Self) -> bool { "@ + (if item matches ItemV::Enum {
            variants,
            ..
        } && variants.len() > 1 {
            "if ::core::mem::discriminant(self) == ::core::mem::discriminant(__other) { "@ + "true"@
                + " } else { false }"@
        } else {
            "true"@
        }) + " }"@,
{
    let d = DeriveTraitV::PartialEq;
    match item {
        ItemV::Enum { variants, .. } => {
            let arms = variants.map_values(|v: DataV| arm_text(d, dw, v));
            assert forall|i: int| 0 <= i < arms.len() implies (#[trigger] arms[i]).len() == 0 by {
                assert(variants[i].is_empty(Trait::PartialEq));
            }
            lemma_join_empty(arms);
        },
        _ => {},
    }
}

/// Holds all parameters necessary to generate an implementation for a
/// specific trait.
pub struct Impl<'a> {
    /// The attribute that asks for the trait.
    pub derive_where: &'a DeriveWhere,
    /// Trait with options to generate the implementation for.
    pub trait_: &'a DeriveTrait,
    /// Parsed input.
    pub input: &'a Input,
    /// Generics of the item.
    pub generics: &'a GenericsInput,
    /// Crate features in effect.
    pub features: Features,
}

/// Builds [`generic_predicate`].
fn generic_predicate_text(g: &Generic, d: &DeriveTrait, item: &Item) -> (r: String)
    ensures
        r@ == generic_predicate(g@, d@, item@),
{
    match g {
        Generic::CustomBound { text } => text.clone(),
        Generic::NoBound { text, .. } => {
            let union = match item {
                Item::Item(x) => x.type_ == DataType::Union,
                _ => false,
            };
            let clone = match d {
                DeriveTrait::Clone => true,
                _ => false,
            };
            let mut r = text.clone();
            r.append(": ");
            r.append(d.path().as_str());
            if clone && union {
                r.append(" + ::core::marker::Copy");
            }
            r
        },
    }
}

/// Builds [`where_text`].
pub fn build_where_clause(
    generics: &GenericsInput,
    dw: &DeriveWhere,
    d: &DeriveTrait,
    item: &Item,
) -> (r: String)
    ensures
        r@ == where_text(where_preds(*generics), dw@, d@, item@),
{
    let ghost added = dw@.generics.map_values(|g: GenericV| generic_predicate(g, d@, item@));
    let mut preds: Vec<String> = Vec::new();
    let mut has_clause = false;
    match &generics.where_clause {
        Some(v) => {
            has_clause = true;
            let mut k: usize = 0;
            while k < v.len()
                invariant
                    k <= v@.len(),
                    preds@.map_values(|s: String| s@) =~= v@.take(k as int).map_values(
                        |s: String| s@,
                    ),
                decreases v.len() - k,
            {
                let ghost before = preds@;
                preds.push(v[k].clone());
                proof {
                    assert(preds@ =~= before.push(v@[k as int]));
                    assert(v@.take(k + 1) =~= v@.take(k as int).push(v@[k as int]));
                    assert(preds@.map_values(|s: String| s@) =~= before.map_values(|s: String| s@).push(
                        v@[k as int]@,
                    ));
                    assert(v@.take(k + 1).map_values(|s: String| s@) =~= v@.take(k as int).map_values(
                        |s: String| s@,
                    ).push(v@[k as int]@));
                    assert(preds@.map_values(|s: String| s@) =~= v@.take(k + 1).map_values(
                        |s: String| s@,
                    ));
                }
                k = k + 1;
            }
            assert(v@.take(v@.len() as int) =~= v@);
        },
        None => {},
    }
    let ghost base = preds@.map_values(|s: String| s@);
    let mut i: usize = 0;
    while i < dw.generics.len()
        invariant
            i <= dw@.generics.len(),
            added == dw@.generics.map_values(|g: GenericV| generic_predicate(g, d@, item@)),
            preds@.map_values(|s: String| s@) =~= base + added.take(i as int),
        decreases dw.generics.len() - i,
    {
        let ghost before = preds@;
        let x = generic_predicate_text(&dw.generics[i], d, item);
        preds.push(x);
        proof {
            assert(preds@ =~= before.push(x));
            assert(added.take(i + 1) =~= added.take(i as int).push(added[i as int]));
            assert(preds@.map_values(|s: String| s@) =~= before.map_values(|s: String| s@).push(
                x@,
            ));
            assert(base + added.take(i + 1) =~= (base + added.take(i as int)).push(added[i as int]));
            assert(preds@.map_values(|s: String| s@) =~= base + added.take(i + 1));
        }
        i = i + 1;
    }
    assert(added.take(added.len() as int) =~= added);
    if !has_clause && dw.generics.len() == 0 {
        proof {
            assert(where_preds(*generics) is None);
        }
        String::new()
    } else {
        let mut r = String::from_str("where ");
        r.append(join_strings(&preds, ", ").as_str());
        proof {
            match where_preds(*generics) {
                Some(p) => {
                    assert(base =~= p);
                },
                None => {
                    assert(base =~= Seq::<Seq<char>>::empty());
                    assert(base + added =~= added);
                },
            }
        }
        r
    }
}

/// Builds the match arm of the trait `d` for one struct or variant.
fn build_arm(d: &DeriveTrait, dw: &DeriveWhere, data: &Data) -> (r: String)
    requires
        data@.type_ == DataType::Union ==> d@.trait_().unionable(),
    ensures
        r@ == arm_text(d@, dw@, data@),
{
    match d {
        DeriveTrait::Clone => crate::trait_::clone::Clone.build_body(dw, d, data),
        DeriveTrait::Copy => String::new(),
        DeriveTrait::Debug => crate::trait_::debug::Debug.build_body(data),
        DeriveTrait::Default => crate::trait_::default::Default.build_body(d, data),
        DeriveTrait::Eq => crate::trait_::eq::Eq.build_body(data),
        DeriveTrait::Hash => crate::trait_::hash::Hash.build_body(d, data),
        DeriveTrait::Ord => crate::trait_::ord::Ord.build_body(data),
        DeriveTrait::PartialEq => crate::trait_::partial_eq::PartialEq.build_body(d, data),
        DeriveTrait::PartialOrd => crate::trait_::partial_ord::PartialOrd.build_body(data),
        DeriveTrait::Zeroize { .. } => Zeroize.build_body(d, data),
        DeriveTrait::ZeroizeOnDrop { .. } => ZeroizeOnDrop.build_body(d, data),
    }
}

/// Builds [`arms_text`].
fn build_arms(d: &DeriveTrait, dw: &DeriveWhere, item: &Item) -> (r: String)
    requires
        implementable(d@, item@),
    ensures
        r@ == arms_text(d@, dw@, item@),
{
    match item {
        Item::Item(data) => build_arm(d, dw, data),
        Item::Enum { variants, .. } => {
            let ghost vv = variants@.map_values(|x: Data| x@);
            let ghost f = |v: DataV| arm_text(d@, dw@, v);
            let mut arms: Vec<String> = Vec::new();
            let mut i: usize = 0;
            while i < variants.len()
                invariant
                    i <= variants@.len(),
                    vv == variants@.map_values(|x: Data| x@),
                    f == (|v: DataV| arm_text(d@, dw@, v)),
                    implementable(d@, item@),
                    item@ == (ItemV::Enum {
                        ident: item@->Enum_ident,
                        incomparable: item@->Enum_incomparable,
                        discriminant: item@->Enum_discriminant,
                        variants: vv,
                    }),
                    arms@.map_values(|s: String| s@) =~= vv.take(i as int).map_values(f),
                decreases variants.len() - i,
            {
                assert(vv[i as int] == variants@[i as int]@);
                let ghost before = arms@;
                let a = build_arm(d, dw, &variants[i]);
                arms.push(a);
                proof {
                    assert(arms@ =~= before.push(a));
                    assert(vv.take(i + 1) =~= vv.take(i as int).push(vv[i as int]));
                    assert(arms@.map_values(|s: String| s@) =~= before.map_values(|s: String| s@).push(
                        a@,
                    ));
                    assert(vv.take(i + 1).map_values(f) =~= vv.take(i as int).map_values(f).push(
                        f(vv[i as int]),
                    ));
                    assert(arms@.map_values(|s: String| s@) =~= vv.take(i + 1).map_values(f));
                }
                i = i + 1;
            }
            assert(vv.take(vv.len() as int) =~= vv);
            proof {
                reveal_strlit("");
                assert(""@ =~= Seq::<char>::empty());
                assert(vv.map_values(f) =~= vv.map_values(|v: DataV| arm_text(d@, dw@, v)));
            }
            join_strings(&arms, "")
        },
    }
}

/// Builds [`impl_block`].
fn build_impl_block(g: &SplitGenerics, path: &str, ident: &str, body: &str) -> (r: String)
    ensures
        r@ == impl_block(g@, path@, ident@, body@),
{
    let mut r = String::from_str("impl");
    r.append(g.imp.as_str());
    r.append(" ");
    r.append(path);
    r.append(" for ");
    r.append(ident);
    r.append(g.ty.as_str());
    r.append(" ");
    r.append(g.where_clause.as_str());
    r.append(" { ");
    r.append(body);
    r.append(" }");
    r
}

impl<'a> Impl<'a> {
    /// Create [`Impl`] from parameters.
    pub fn new(
        derive_where: &'a DeriveWhere,
        trait_: &'a DeriveTrait,
        input: &'a Input,
        generics: &'a GenericsInput,
        features: Features,
    ) -> (r: Self)
        ensures
            r.derive_where == derive_where,
            r.trait_ == trait_,
            r.input == input,
            r.generics == generics,
            r.features == features,
    {
        Impl { derive_where, trait_, input, generics, features }
    }

    /// The generics for this implementation.
    pub fn split_generics(&self) -> (r: SplitGenerics)
        ensures
            r@ == split_generics(*self.generics, self.derive_where@, self.trait_@, self.input@.item),
    {
        SplitGenerics {
            imp: self.generics.impl_generics.clone(),
            ty: self.generics.type_generics.clone(),
            where_clause: build_where_clause(
                self.generics,
                self.derive_where,
                self.trait_,
                &self.input.item,
            ),
        }
    }

    /// Generates the methods of this implementation.
    pub fn generate_body(&self, g: &SplitGenerics) -> (r: String)
        requires
            implementable(self.trait_@, self.input@.item),
        ensures
            r@ == method_text(
                self.trait_@,
                self.derive_where@,
                self.input@.item,
                g@,
                arms_text(self.trait_@, self.derive_where@, self.input@.item),
                self.features,
            ),
    {
        let d = self.trait_;
        let dw = self.derive_where;
        let item = &self.input.item;
        let body = build_arms(d, dw, item);
        match d {
            DeriveTrait::Clone => crate::trait_::clone::Clone.build_signature(item, dw, &body),
            DeriveTrait::Copy => String::new(),
            DeriveTrait::Debug => crate::trait_::debug::Debug.build_signature(&body),
            DeriveTrait::Default => crate::trait_::default::Default.build_signature(&body),
            DeriveTrait::Eq => crate::trait_::eq::Eq.build_signature(&body),
            DeriveTrait::Hash => crate::trait_::hash::Hash.build_signature(&body),
            DeriveTrait::Ord => crate::trait_::ord::Ord.build_signature(item, g, dw, &body, self.features),
            DeriveTrait::PartialEq => crate::trait_::partial_eq::PartialEq.build_signature(item, &body, self.features.safe),
            DeriveTrait::PartialOrd => crate::trait_::partial_ord::PartialOrd.build_signature(
                item,
                g,
                dw,
                &body,
                self.features,
            ),
            DeriveTrait::Zeroize { .. } => Zeroize.build_signature(&body),
            DeriveTrait::ZeroizeOnDrop { .. } => ZeroizeOnDrop.build_signature(
                item,
                d,
                &body,
                self.features,
            ),
        }
    }

    /// Generates the implementation for this trait, and any additional one.
    pub fn generate_impl(&self) -> (r: String)
        requires
            implementable(self.trait_@, self.input@.item),
        ensures
            r@ == impl_text(
                self.derive_where@,
                self.trait_@,
                self.input@.item,
                *self.generics,
                self.features,
            ),
    {
        let d = self.trait_;
        let g = self.split_generics();
        let ident = self.input.item.ident();
        let body = self.generate_body(&g);
        let mut r = match d {
            DeriveTrait::ZeroizeOnDrop { .. } => {
                let imp = build_impl_block(
                    &g,
                    ZeroizeOnDrop.impl_trait(d),
                    ident.as_str(),
                    body.as_str(),
                );
                ZeroizeOnDrop.impl_item(d, imp)
            },
            _ => build_impl_block(&g, d.path().as_str(), ident.as_str(), body.as_str()),
        };
        match d {
            DeriveTrait::Zeroize { .. } => match Zeroize.additional_impl(d) {
                Some((p, b)) => {
                    r.append(" ");
                    r.append(build_impl_block(&g, p.as_str(), ident.as_str(), b.as_str()).as_str());
                },
                None => {},
            },
            DeriveTrait::ZeroizeOnDrop { .. } => {
                if self.features.zeroize_on_drop {
                    proof {
                        reveal_strlit("");
                    }
                    r.append(" ");
                    r.append(build_impl_block(&g, d.path().as_str(), ident.as_str(), "").as_str());
                }
            },
            _ => {},
        }
        r
    }
}

} // verus!
