//! Help shared by `PartialEq`, `PartialOrd` and `Ord` for incomparable
//! variants and for comparing discriminants.

use vstd::prelude::*;

use crate::attr::item::{DeriveTrait, DeriveTraitV, DeriveWhere, DeriveWhereV};
use crate::data::{kept, lemma_kept_cons, Data, DataV, Field, FieldV};
use crate::gen::{pattern_text, skip_pattern_text, trait_path, SplitGenerics, SplitGenericsV};
use crate::item::{Discriminant, DiscriminantV, Item, ItemV};
use crate::trait_::partial_eq::{any_empty_comparable, find_empty_comparable};
use crate::trait_::{Features, Trait};
use crate::util::{decimal, join, join_strings, to_decimal};

verus! {

/// The incomparable variants among `vs`.
pub open spec fn incomparable_variants(vs: Seq<DataV>) -> Seq<DataV>
    decreases vs.len(),
{
    if vs.len() == 0 {
        seq![]
    } else if vs.last().incomparable is Some {
        incomparable_variants(vs.drop_last()).push(vs.last())
    } else {
        incomparable_variants(vs.drop_last())
    }
}

/// A pattern matching every incomparable variant, if there is one.
pub open spec fn incomparable_pattern(vs: Seq<DataV>) -> Option<Seq<char>> {
    let inc = incomparable_variants(vs);
    if inc.len() == 0 {
        None
    } else {
        Some(join(inc.map_values(|d: DataV| skip_pattern_text(d)), " | "@))
    }
}

/// Text that tells the compiler a match arm cannot be reached.
pub open spec fn unreachable_text(safe: bool) -> Seq<char> {
    if safe {
        "::core::unreachable!(\"comparing variants yielded unexpected results\")"@
    } else {
        "unsafe { ::core::hint::unreachable_unchecked() }"@
    }
}

/// Builds [`unreachable_text`].
pub fn unreachable_code(safe: bool) -> (r: &'static str)
    ensures
        r@ == unreachable_text(safe),
{
    if safe {
        "::core::unreachable!(\"comparing variants yielded unexpected results\")"
    } else {
        "unsafe { ::core::hint::unreachable_unchecked() }"
    }
}

/// Generate a pattern matching all incomparable `variants`, if any.
pub fn build_incomparable_pattern(variants: &Vec<Data>) -> (r: Option<String>)
    ensures
        match (r, incomparable_pattern(variants@.map_values(|d: Data| d@))) {
            (Some(a), Some(b)) => a@ == b,
            (None, None) => true,
            _ => false,
        },
{
    let ghost vv = variants@.map_values(|d: Data| d@);
    let mut pats: Vec<String> = Vec::new();
    let mut i: usize = 0;
    assert(vv.take(0) =~= seq![]);
    assert(pats@.map_values(|x: String| x@) =~= seq![]);
    while i < variants.len()
        invariant
            i <= variants@.len(),
            vv == variants@.map_values(|d: Data| d@),
            pats@.map_values(|x: String| x@) == incomparable_variants(vv.take(i as int)).map_values(
                |d: DataV| skip_pattern_text(d),
            ),
        decreases variants.len() - i,
    {
        let ghost before = incomparable_variants(vv.take(i as int));
        if variants[i].is_incomparable() {
            pats.push(variants[i].skip_pattern());
        }
        proof {
            let s = vv.take(i + 1);
            assert(s.drop_last() =~= vv.take(i as int));
            assert(s.last() == variants@[i as int]@);
            if s.last().incomparable is Some {
                assert(before.push(s.last()).map_values(|d: DataV| skip_pattern_text(d))
                    =~= before.map_values(|d: DataV| skip_pattern_text(d)).push(
                    skip_pattern_text(s.last()),
                ));
            }
            assert(pats@.map_values(|x: String| x@) =~= incomparable_variants(s).map_values(
                |d: DataV| skip_pattern_text(d),
            ));
        }
        i = i + 1;
    }
    assert(vv.take(variants@.len() as int) =~= vv);
    if pats.len() == 0 {
        None
    } else {
        Some(join_strings(&pats, " | "))
    }
}

/// The value for equal operands: wrapped in `Some` for `PartialOrd`.
pub open spec fn ord_equal(d: DeriveTraitV) -> Seq<char> {
    if d is PartialOrd {
        "::core::option::Option::Some(::core::cmp::Ordering::Equal)"@
    } else {
        "::core::cmp::Ordering::Equal"@
    }
}

/// The comparing method of the trait.
pub open spec fn ord_method(d: DeriveTraitV) -> Seq<char> {
    if d is PartialOrd {
        "partial_cmp"@
    } else {
        "cmp"@
    }
}

/// Builds [`ord_equal`].
pub fn ord_equal_str(d: &DeriveTrait) -> (r: &'static str)
    ensures
        r@ == ord_equal(d@),
{
    match d {
        DeriveTrait::PartialOrd => "::core::option::Option::Some(::core::cmp::Ordering::Equal)",
        _ => "::core::cmp::Ordering::Equal",
    }
}

/// Builds [`ord_method`].
pub fn ord_method_str(d: &DeriveTrait) -> (r: &'static str)
    ensures
        r@ == ord_method(d@),
{
    match d {
        DeriveTrait::PartialOrd => "partial_cmp",
        _ => "cmp",
    }
}

/// End of a comparison of one field: other results are returned as they
/// are.
pub open spec fn ord_tail() -> Seq<char> {
    ", __cmp => __cmp, }"@
}

/// Compares the field `f` and, when equal, goes on with `rest`.
pub open spec fn ord_link(f: FieldV, p: Seq<char>, m: Seq<char>, eq: Seq<char>, rest: Seq<char>) -> Seq<
    char,
> {
    "match "@ + p + "::"@ + m + "("@ + f.self_ident + ", "@ + f.other_ident + ") { "@ + eq + " => "@
        + rest + ord_tail()
}

/// Compares the fields `ks` in order; equal when all are.
pub open spec fn ord_chain(ks: Seq<FieldV>, p: Seq<char>, m: Seq<char>, eq: Seq<char>) -> Seq<char>
    decreases ks.len(),
{
    if ks.len() == 0 {
        eq
    } else {
        ord_link(ks[0], p, m, eq, ord_chain(ks.drop_first(), p, m, eq))
    }
}

/// The opening of the comparison of the field `f`, up to what follows
/// when it is equal.
pub open spec fn ord_head(f: FieldV, p: Seq<char>, m: Seq<char>, eq: Seq<char>) -> Seq<char> {
    "match "@ + p + "::"@ + m + "("@ + f.self_ident + ", "@ + f.other_ident + ") { "@ + eq + " => "@
}

/// The comparisons of the fields `ks` are nested in order: the first
/// field's comparison is outermost, and the innermost answers `eq`.
pub proof fn lemma_ord_chain_nested(ks: Seq<FieldV>, p: Seq<char>, m: Seq<char>, eq: Seq<char>)
    ensures
        ord_chain(ks, p, m, eq) == Seq::new(ks.len(), |i: int| ord_head(ks[i], p, m, eq)).flatten()
            + eq + Seq::new(ks.len(), |i: int| ord_tail()).flatten(),
    decreases ks.len(),
{
    let heads = Seq::new(ks.len(), |i: int| ord_head(ks[i], p, m, eq));
    let tails = Seq::new(ks.len(), |i: int| ord_tail());
    if ks.len() == 0 {
        assert(heads.flatten() =~= Seq::<char>::empty());
        assert(tails.flatten() =~= Seq::<char>::empty());
        assert(ord_chain(ks, p, m, eq) =~= heads.flatten() + eq + tails.flatten());
    } else {
        let rest = ks.drop_first();
        lemma_ord_chain_nested(rest, p, m, eq);
        let heads2 = Seq::new(rest.len(), |i: int| ord_head(rest[i], p, m, eq));
        let tails2 = Seq::new(rest.len(), |i: int| ord_tail());
        assert(heads.drop_first() =~= heads2);
        assert(tails.drop_first() =~= tails2);
        assert(heads.flatten() == heads[0] + heads2.flatten());
        assert(tails.flatten() == tails[0] + tails2.flatten());
        tails.lemma_flatten_and_flatten_alt_are_equivalent();
        tails2.lemma_flatten_and_flatten_alt_are_equivalent();
        assert(tails.drop_last() =~= tails2);
        assert(tails.flatten() == tails2.flatten() + ord_tail());
        assert(ord_chain(ks, p, m, eq) =~= heads.flatten() + eq + tails.flatten());
    }
}

/// Builds [`ord_link`].
fn ord_link_text(f: &Field, p: &str, m: &str, eq: &str, rest: &str) -> (r: String)
    ensures
        r@ == ord_link(f@, p@, m@, eq@, rest@),
{
    let mut r = String::from_str("match ");
    r.append(p);
    r.append("::");
    r.append(m);
    r.append("(");
    r.append(f.self_ident.as_str());
    r.append(", ");
    r.append(f.other_ident.as_str());
    r.append(") { ");
    r.append(eq);
    r.append(" => ");
    r.append(rest);
    r.append(", __cmp => __cmp, }");
    r
}

/// Builds the comparison of the fields of `data` not skipped for the
/// trait `d`, nested from the first field to the last.
pub fn build_ord_body(d: &DeriveTrait, data: &Data) -> (r: String)
    requires
        d@ is PartialOrd || d@ is Ord,
    ensures
        r@ == ord_chain(data@.kept(d@.trait_()), trait_path(d@), ord_method(d@), ord_equal(d@)),
{
    let t = d.trait_();
    let path = d.path();
    let m = ord_method_str(d);
    let eq = ord_equal_str(d);
    let ghost fv = data.fields@.map_values(|f: Field| f@);
    let ghost inner = data.skip_inner@;
    let n = data.fields.len();
    let mut body = String::from_str(eq);
    let mut i: usize = n;
    assert(fv.subrange(n as int, n as int) =~= Seq::<FieldV>::empty());
    while i > 0
        invariant
            i <= n,
            n == data.fields@.len(),
            fv == data.fields@.map_values(|f: Field| f@),
            inner == data.skip_inner@,
            t == d@.trait_(),
            path@ == trait_path(d@),
            m@ == ord_method(d@),
            eq@ == ord_equal(d@),
            body@ == ord_chain(kept(fv.subrange(i as int, n as int), inner, t), path@, m@, eq@),
        decreases i,
    {
        let j = i - 1;
        let ghost rest = fv.subrange(i as int, n as int);
        proof {
            assert(fv.subrange(j as int, n as int) =~= seq![fv[j as int]] + rest);
            lemma_kept_cons(fv[j as int], rest, inner, t);
        }
        if !data.field_skip(j, t) {
            let ghost ks = kept(fv.subrange(j as int, n as int), inner, t);
            proof {
                assert(ks.drop_first() =~= kept(rest, inner, t));
            }
            body = ord_link_text(&data.fields[j], path.as_str(), m, eq, body.as_str());
        }
        i = j;
    }
    assert(fv.subrange(0, n as int) =~= fv);
    body
}

/// The comparable variants among `vs`.
pub open spec fn comparable_variants(vs: Seq<DataV>) -> Seq<DataV>
    decreases vs.len(),
{
    if vs.len() == 0 {
        seq![]
    } else if vs.last().incomparable is Some {
        comparable_variants(vs.drop_last())
    } else {
        comparable_variants(vs.drop_last()).push(vs.last())
    }
}

/// Every variant is either comparable or incomparable.
pub proof fn lemma_variants_split(vs: Seq<DataV>)
    ensures
        comparable_variants(vs).len() + incomparable_variants(vs).len() == vs.len(),
    decreases vs.len(),
{
    if vs.len() > 0 {
        lemma_variants_split(vs.drop_last());
    }
}

/// Finds the only comparable variant, if there is exactly one.
pub fn single_comparable(variants: &Vec<Data>) -> (r: Option<usize>)
    ensures
        match r {
            Some(k) => comparable_variants(variants@.map_values(|d: Data| d@)).len() == 1 && k
                < variants@.len() && variants@[k as int]@ == comparable_variants(
                variants@.map_values(|d: Data| d@),
            )[0],
            None => comparable_variants(variants@.map_values(|d: Data| d@)).len() != 1,
        },
{
    let ghost vv = variants@.map_values(|d: Data| d@);
    let mut count: usize = 0;
    let mut first: usize = 0;
    let mut i: usize = 0;
    assert(vv.take(0) =~= Seq::<DataV>::empty());
    while i < variants.len()
        invariant
            i <= variants@.len(),
            vv == variants@.map_values(|d: Data| d@),
            count == comparable_variants(vv.take(i as int)).len(),
            count <= i,
            count > 0 ==> first < i && vv[first as int] == comparable_variants(vv.take(i as int))[0],
        decreases variants.len() - i,
    {
        let ghost prev = comparable_variants(vv.take(i as int));
        proof {
            assert(vv.take(i + 1).drop_last() =~= vv.take(i as int));
            assert(vv.take(i + 1).last() == vv[i as int]);
        }
        if !variants[i].is_incomparable() {
            if count == 0 {
                first = i;
            }
            count = count + 1;
            proof {
                assert(comparable_variants(vv.take(i + 1)) == prev.push(vv[i as int]));
            }
        }
        i = i + 1;
    }
    assert(vv.take(variants@.len() as int) =~= vv);
    if count == 1 {
        Some(first)
    } else {
        None
    }
}

/// The last variant at or before `i` with an explicit discriminant.
pub open spec fn last_explicit(vs: Seq<DataV>, i: int) -> Option<int>
    decreases i + 1,
{
    if i < 0 {
        None
    } else if vs[i].discriminant is Some {
        Some(i)
    } else {
        last_explicit(vs, i - 1)
    }
}

/// What [`last_explicit`] finds is at or before `i` and explicit.
pub proof fn lemma_last_explicit(vs: Seq<DataV>, i: int)
    ensures
        match last_explicit(vs, i) {
            Some(j) => 0 <= j <= i && vs[j].discriminant is Some,
            None => true,
        },
    decreases i + 1,
{
    if i >= 0 && vs[i].discriminant is None {
        lemma_last_explicit(vs, i - 1);
    }
}

/// The discriminant of the variant `i`: its own expression, the last
/// explicit one plus the distance to it, or its position.
pub open spec fn discriminant_expr(vs: Seq<DataV>, i: int) -> Seq<char> {
    match last_explicit(vs, i) {
        Some(j) => if j == i {
            vs[i].discriminant->Some_0.text
        } else {
            "("@ + vs[j].discriminant->Some_0.text + ") + "@ + decimal((i - j) as nat)
        },
        None => decimal(i as nat),
    }
}

/// Type the discriminants are given in: the `repr`, else `isize`.
pub open spec fn discriminant_type(repr: Option<Seq<char>>) -> Seq<char> {
    match repr {
        Some(r) => r,
        None => "isize"@,
    }
}

/// Match arm giving the discriminant of variant `i`.
pub open spec fn discriminant_arm(vs: Seq<DataV>, i: int) -> Seq<char> {
    pattern_text(vs[i], false, false) + " => "@ + discriminant_expr(vs, i)
}

/// Function returning the discriminant of each variant, and the comparison
/// of the discriminants of both operands.
pub open spec fn discriminant_order(
    repr: Option<Seq<char>>,
    ident: Seq<char>,
    g: SplitGenericsV,
    vs: Seq<DataV>,
    p: Seq<char>,
    m: Seq<char>,
) -> Seq<char> {
    "fn __discriminant"@ + g.imp + "(__this: &"@ + ident + g.ty + ") -> "@ + discriminant_type(repr) + " "@ + g.where_clause + " { match __this { "@ + join(
        Seq::new(vs.len(), |i: int| discriminant_arm(vs, i)),
        ", "@,
    ) + " } } "@ + p + "::"@ + m + "(&__discriminant(self), &__discriminant(__other))"@
}

/// Builds [`discriminant_arm`]; `last` is [`last_explicit`] of the
/// variant before.
fn discriminant_arm_text(variants: &Vec<Data>, i: usize, last: Option<usize>) -> (r: String)
    requires
        i < variants@.len(),
        match last {
            Some(j) => last_explicit(variants@.map_values(|d: Data| d@), i - 1) == Some(j as int),
            None => last_explicit(variants@.map_values(|d: Data| d@), i - 1) is None,
        },
    ensures
        r@ == discriminant_arm(variants@.map_values(|d: Data| d@), i as int),
{
    let ghost vv = variants@.map_values(|d: Data| d@);
    assert(vv[i as int] == variants@[i as int]@);
    let mut r = variants[i].pattern(false, false);
    r.append(" => ");
    match &variants[i].discriminant {
        Some(e) => {
            r.append(e.text.as_str());
        },
        None => match last {
            Some(j) => {
                proof {
                    lemma_last_explicit(vv, i - 1);
                    assert(vv[j as int] == variants@[j as int]@);
                    assert(vv[j as int].discriminant is Some);
                }
                match &variants[j].discriminant {
                    Some(e) => {
                        r.append("(");
                        r.append(e.text.as_str());
                        r.append(") + ");
                        r.append(to_decimal(i - j).as_str());
                    },
                    None => {},
                }
            },
            None => {
                r.append(to_decimal(i).as_str());
            },
        },
    }
    r
}

/// Builds [`discriminant_order`].
pub fn build_discriminant_order(
    repr: &Option<String>,
    ident: &String,
    g: &SplitGenerics,
    variants: &Vec<Data>,
    p: &str,
    m: &str,
) -> (r: String)
    ensures
        r@ == discriminant_order(
            match repr {
                Some(x) => Some(x@),
                None => None,
            },
            ident@,
            g@,
            variants@.map_values(|d: Data| d@),
            p@,
            m@,
        ),
{
    let ghost vv = variants@.map_values(|d: Data| d@);
    let mut arms: Vec<String> = Vec::new();
    let mut last: Option<usize> = None;
    let mut i: usize = 0;
    while i < variants.len()
        invariant
            i <= variants@.len(),
            vv == variants@.map_values(|d: Data| d@),
            match last {
                Some(j) => last_explicit(vv, i - 1) == Some(j as int),
                None => last_explicit(vv, i - 1) is None,
            },
            arms@.map_values(|x: String| x@) =~= Seq::new(
                i as nat,
                |k: int| discriminant_arm(vv, k),
            ),
        decreases variants.len() - i,
    {
        let arm = discriminant_arm_text(variants, i, last);
        let ghost before = arms@;
        arms.push(arm);
        proof {
            assert(arms@ =~= before.push(arm));
            assert(arms@.map_values(|x: String| x@) =~= before.map_values(|x: String| x@).push(
                arm@,
            ));
            assert(Seq::new((i + 1) as nat, |k: int| discriminant_arm(vv, k)) =~= Seq::new(
                i as nat,
                |k: int| discriminant_arm(vv, k),
            ).push(discriminant_arm(vv, i as int)));
        }
        assert(vv[i as int] == variants@[i as int]@);
        match &variants[i].discriminant {
            Some(_) => {
                last = Some(i);
            },
            None => {},
        }
        i = i + 1;
    }
    let ty = match repr {
        Some(x) => x.clone(),
        None => String::from_str("isize"),
    };
    let mut r = String::from_str("fn __discriminant");
    r.append(g.imp.as_str());
    r.append("(__this: &");
    r.append(ident.as_str());
    r.append(g.ty.as_str());
    r.append(") -> ");
    r.append(ty.as_str());
    r.append(" ");
    r.append(g.where_clause.as_str());
    r.append(" { match __this { ");
    r.append(join_strings(&arms, ", ").as_str());
    r.append(" } } ");
    r.append(p);
    r.append("::");
    r.append(m);
    r.append("(&__discriminant(self), &__discriminant(__other))");
    r
}

/// What equal discriminants give: equal when no variant has a field to
/// compare, else the match over the arms `body`.
pub open spec fn body_equal(
    item: ItemV,
    vs: Seq<DataV>,
    t: Trait,
    body: Seq<char>,
    safe: bool,
    equal: Seq<char>,
) -> Seq<char> {
    if item.is_empty(t) {
        equal
    } else {
        "match (self, __other) { "@ + body + "_ => "@ + (if any_empty_comparable(vs, t) {
            equal
        } else {
            unreachable_text(safe)
        }) + ", }"@
    }
}

/// Returns `None` early when either operand is incomparable.
pub open spec fn incomparable_return(inc: Option<Seq<char>>) -> Seq<char> {
    match inc {
        Some(p) => "if ::core::matches!(self, "@ + p + ") || ::core::matches!(__other, "@ + p
            + ") { return ::core::option::Option::None; } "@,
        None => seq![],
    }
}

/// Compares discriminants cast to `isize`, when the values can be copied
/// or cloned.
pub open spec fn value_order(dw: DeriveWhereV, p: Seq<char>, m: Seq<char>) -> Option<Seq<char>> {
    if dw.plain_traits().contains(Trait::Copy) {
        Some(p + "::"@ + m + "(&(*self as isize), &(*__other as isize))"@)
    } else if dw.plain_traits().contains(Trait::Clone) {
        Some(p + "::"@ + m + "(&(self.clone() as isize), &(__other.clone() as isize))"@)
    } else {
        None
    }
}

/// Compares discriminants read through a pointer as the `repr` type `r`.
pub open spec fn pointer_order(r: Seq<char>, p: Seq<char>, m: Seq<char>) -> Seq<char> {
    p + "::"@ + m + "(&unsafe { *<*const _>::from(self).cast::<"@ + r
        + ">() }, &unsafe { *<*const _>::from(__other).cast::<"@ + r + ">() }, )"@
}

/// The result for a smaller left operand.
pub open spec fn ord_less(d: DeriveTraitV) -> Seq<char> {
    if d is PartialOrd {
        "::core::option::Option::Some(::core::cmp::Ordering::Less)"@
    } else {
        "::core::cmp::Ordering::Less"@
    }
}

/// The result for a greater left operand.
pub open spec fn ord_greater(d: DeriveTraitV) -> Seq<char> {
    if d is PartialOrd {
        "::core::option::Option::Some(::core::cmp::Ordering::Greater)"@
    } else {
        "::core::cmp::Ordering::Greater"@
    }
}

/// Builds [`ord_less`].
pub fn ord_less_str(d: &DeriveTrait) -> (r: &'static str)
    ensures
        r@ == ord_less(d@),
{
    match d {
        DeriveTrait::PartialOrd => "::core::option::Option::Some(::core::cmp::Ordering::Less)",
        _ => "::core::cmp::Ordering::Less",
    }
}

/// Builds [`ord_greater`].
pub fn ord_greater_str(d: &DeriveTrait) -> (r: &'static str)
    ensures
        r@ == ord_greater(d@),
{
    match d {
        DeriveTrait::PartialOrd => "::core::option::Option::Some(::core::cmp::Ordering::Greater)",
        _ => "::core::cmp::Ordering::Greater",
    }
}

/// Compares discriminants converted to `isize` by `transmute`.
pub open spec fn transmute_order(p: Seq<char>, m: Seq<char>) -> Seq<char> {
    p + "::"@ + m
        + "(&unsafe { ::core::mem::transmute::<_, isize>(__self_disc) }, &unsafe { ::core::mem::transmute::<_, isize>(__other_disc) }, )"@
}

/// Match arm ordering the variant `i` against the other operand's
/// variant: the first is less than all others, the last greater, and one
/// in between is greater than those before it.
pub open spec fn variant_order_arm(vs: Seq<DataV>, i: int, less: Seq<char>, greater: Seq<char>) -> Seq<
    char,
> {
    pattern_text(vs[i], false, false) + " => "@ + (if i == 0 {
        less
    } else if i == vs.len() - 1 {
        greater
    } else {
        "match __other { "@ + join(vs.take(i).map_values(|v: DataV| skip_pattern_text(v)), " | "@)
            + " => "@ + greater + ", _ => "@ + less + ", }"@
    }) + ", "@
}

/// Ordered by position, a variant of `self` is greater than each earlier
/// variant of the other operand and less than each later one: the first
/// variant's arm answers `less`, the last one's `greater`, and the arm of
/// each variant in between answers `greater` for exactly the patterns of the
/// variants before it, all of them and in order, and `less` otherwise.
pub proof fn lemma_variant_order_by_position(
    vs: Seq<DataV>,
    i: int,
    less: Seq<char>,
    greater: Seq<char>,
)
    requires
        0 <= i < vs.len(),
    ensures
        i == 0 ==> variant_order_arm(vs, i, less, greater) == pattern_text(vs[i], false, false)
            + " => "@ + less + ", "@,
        0 < i && i == vs.len() - 1 ==> variant_order_arm(vs, i, less, greater) == pattern_text(
            vs[i],
            false,
            false,
        ) + " => "@ + greater + ", "@,
        0 < i < vs.len() - 1 ==> variant_order_arm(vs, i, less, greater) == pattern_text(
            vs[i],
            false,
            false,
        ) + " => "@ + ("match __other { "@ + join(
            Seq::new(i as nat, |j: int| skip_pattern_text(vs[j])),
            " | "@,
        ) + " => "@ + greater + ", _ => "@ + less + ", }"@) + ", "@,
{
    assert(vs.take(i).map_values(|v: DataV| skip_pattern_text(v)) =~= Seq::new(
        i as nat,
        |j: int| skip_pattern_text(vs[j]),
    ));
}

/// Orders the variants by their position, without reading discriminants.
pub open spec fn variant_order(vs: Seq<DataV>, less: Seq<char>, greater: Seq<char>) -> Seq<char> {
    "match self { "@ + join(
        Seq::new(vs.len(), |i: int| variant_order_arm(vs, i, less, greater)),
        seq![],
    ) + "}"@
}

/// What unequal discriminants give.
pub open spec fn discriminant_else(
    ident: Seq<char>,
    g: SplitGenericsV,
    dw: DeriveWhereV,
    discriminant: DiscriminantV,
    vs: Seq<DataV>,
    p: Seq<char>,
    m: Seq<char>,
    d: DeriveTraitV,
    safe: bool,
) -> Seq<char> {
    match discriminant {
        DiscriminantV::UnitDefault => match value_order(dw, p, m) {
            Some(x) => x,
            None => discriminant_order(None, ident, g, vs, p, m),
        },
        DiscriminantV::UnitRepr(r) => if safe {
            match value_order(dw, p, m) {
                Some(x) => x,
                None => discriminant_order(Some(r), ident, g, vs, p, m),
            }
        } else {
            pointer_order(r, p, m)
        },
        DiscriminantV::Repr(r) => if safe {
            discriminant_order(Some(r), ident, g, vs, p, m)
        } else {
            pointer_order(r, p, m)
        },
        DiscriminantV::Unknown => if safe {
            variant_order(vs, ord_less(d), ord_greater(d))
        } else {
            transmute_order(p, m)
        },
        DiscriminantV::Single => discriminant_order(None, ident, g, vs, p, m),
    }
}

/// Body of `partial_cmp` or `cmp` around the match arms `body`.
pub open spec fn ord_signature(
    item: ItemV,
    g: SplitGenericsV,
    dw: DeriveWhereV,
    d: DeriveTraitV,
    body: Seq<char>,
    features: Features,
) -> Seq<char> {
    let t = d.trait_();
    let p = trait_path(d);
    let m = ord_method(d);
    let equal = ord_equal(d);
    if item.is_incomparable() {
        "::core::option::Option::None"@
    } else {
        match item {
            ItemV::Enum { ident, discriminant, variants, .. } if variants.len() > 1 => {
                let be = body_equal(item, variants, t, body, features.safe, equal);
                let inc = incomparable_pattern(variants);
                let comparable = comparable_variants(variants);
                if comparable.len() == 1 {
                    let inc = inc->Some_0;
                    "if ::core::matches!(self, "@ + inc + ") || ::core::matches!(__other, "@ + inc
                        + ") { ::core::option::Option::None } else { "@ + (if comparable[0].is_empty(
                        t,
                    ) {
                        equal
                    } else {
                        be
                    }) + " }"@
                } else if features.nightly {
                    incomparable_return(inc)
                        + "let __self_disc = ::core::intrinsics::discriminant_value(self); let __other_disc = ::core::intrinsics::discriminant_value(__other); if __self_disc == __other_disc { "@
                        + be + " } else { "@ + p + "::"@ + m + "(&__self_disc, &__other_disc) }"@
                } else {
                    incomparable_return(inc)
                        + "let __self_disc = ::core::mem::discriminant(self); let __other_disc = ::core::mem::discriminant(__other); if __self_disc == __other_disc { "@
                        + be + " } else { "@ + discriminant_else(
                        ident,
                        g,
                        dw,
                        discriminant,
                        variants,
                        p,
                        m,
                        d,
                        features.safe,
                    ) + " }"@
                }
            },
            _ => if item.is_empty(t) {
                equal
            } else {
                "match (self, __other) { "@ + body + "}"@
            },
        }
    }
}

/// An incomparable item is ordered against nothing, itself included.
pub proof fn lemma_incomparable_unordered(
    item: ItemV,
    g: SplitGenericsV,
    dw: DeriveWhereV,
    body: Seq<char>,
    features: Features,
)
    requires
        item.is_incomparable(),
    ensures
        ord_signature(item, g, dw, DeriveTraitV::PartialOrd, body, features)
            == "::core::option::Option::None"@,
{
}

/// A struct, or an enum with one variant, whose fields are all skipped
/// compares equal to everything of its type.
pub proof fn lemma_skipped_all_ord_equal(
    item: ItemV,
    g: SplitGenericsV,
    dw: DeriveWhereV,
    d: DeriveTraitV,
    body: Seq<char>,
    features: Features,
)
    requires
        d is PartialOrd || d is Ord,
        !item.is_incomparable(),
        item.is_empty(d.trait_()),
        !(item matches ItemV::Enum { variants, .. } && variants.len() > 1),
    ensures
        ord_signature(item, g, dw, d, body, features) == ord_equal(d),
{
}

/// Without explicit discriminants before it, a variant's discriminant is
/// its position.
pub proof fn lemma_implicit_discriminant(vs: Seq<DataV>, i: int)
    requires
        0 <= i < vs.len(),
        forall|k: int| 0 <= k <= i ==> (#[trigger] vs[k]).discriminant is None,
    ensures
        discriminant_expr(vs, i) == decimal(i as nat),
{
    lemma_no_explicit(vs, i);
}

/// No explicit discriminant at or before `i` is found.
proof fn lemma_no_explicit(vs: Seq<DataV>, i: int)
    requires
        i < vs.len(),
        forall|k: int| 0 <= k <= i ==> (#[trigger] vs[k]).discriminant is None,
    ensures
        last_explicit(vs, i) is None,
    decreases i + 1,
{
    if i >= 0 {
        assert(vs[i].discriminant is None);
        lemma_no_explicit(vs, i - 1);
    }
}

/// A variant without a discriminant after one with the expression `e` is
/// `e` plus the distance between them.
pub proof fn lemma_discriminant_after_explicit(vs: Seq<DataV>, j: int, i: int)
    requires
        0 <= j < i < vs.len(),
        vs[j].discriminant is Some,
        forall|k: int| j < k <= i ==> (#[trigger] vs[k]).discriminant is None,
    ensures
        discriminant_expr(vs, i) == "("@ + vs[j].discriminant->Some_0.text + ") + "@ + decimal(
            (i - j) as nat,
        ),
{
    lemma_explicit_at(vs, j, i);
}

/// The last explicit discriminant at or before `i` is at `j`.
proof fn lemma_explicit_at(vs: Seq<DataV>, j: int, i: int)
    requires
        0 <= j <= i < vs.len(),
        vs[j].discriminant is Some,
        forall|k: int| j < k <= i ==> (#[trigger] vs[k]).discriminant is None,
    ensures
        last_explicit(vs, i) == Some(j),
    decreases i - j,
{
    if i > j {
        assert(vs[i].discriminant is None);
        lemma_explicit_at(vs, j, i - 1);
    }
}

/// Builds [`value_order`].
fn value_order_text(dw: &DeriveWhere, p: &str, m: &str) -> (r: Option<String>)
    ensures
        match (r, value_order(dw@, p@, m@)) {
            (Some(a), Some(b)) => a@ == b,
            (None, None) => true,
            _ => false,
        },
{
    let copy = dw.contains(Trait::Copy);
    if copy || dw.contains(Trait::Clone) {
        let mut r = String::from_str(p);
        r.append("::");
        r.append(m);
        if copy {
            r.append("(&(*self as isize), &(*__other as isize))");
        } else {
            r.append("(&(self.clone() as isize), &(__other.clone() as isize))");
        }
        Some(r)
    } else {
        None
    }
}

/// Builds [`pointer_order`].
fn pointer_order_text(r: &String, p: &str, m: &str) -> (s: String)
    ensures
        s@ == pointer_order(r@, p@, m@),
{
    let mut s = String::from_str(p);
    s.append("::");
    s.append(m);
    s.append("(&unsafe { *<*const _>::from(self).cast::<");
    s.append(r.as_str());
    s.append(">() }, &unsafe { *<*const _>::from(__other).cast::<");
    s.append(r.as_str());
    s.append(">() }, )");
    s
}

/// Builds [`transmute_order`].
fn transmute_order_text(p: &str, m: &str) -> (r: String)
    ensures
        r@ == transmute_order(p@, m@),
{
    let mut r = String::from_str(p);
    r.append("::");
    r.append(m);
    r.append(
        "(&unsafe { ::core::mem::transmute::<_, isize>(__self_disc) }, &unsafe { ::core::mem::transmute::<_, isize>(__other_disc) }, )",
    );
    r
}

/// Builds [`variant_order`].
fn build_variant_order(variants: &Vec<Data>, less: &str, greater: &str) -> (r: String)
    ensures
        r@ == variant_order(variants@.map_values(|d: Data| d@), less@, greater@),
{
    let ghost vv = variants@.map_values(|d: Data| d@);
    let ghost f = |i: int| variant_order_arm(vv, i, less@, greater@);
    let mut arms: Vec<String> = Vec::new();
    let mut before: Vec<String> = Vec::new();
    let n = variants.len();
    let mut i: usize = 0;
    while i < n
        invariant
            i <= n,
            n == variants@.len(),
            vv == variants@.map_values(|d: Data| d@),
            f == (|i: int| variant_order_arm(vv, i, less@, greater@)),
            arms@.map_values(|x: String| x@) =~= Seq::new(i as nat, f),
            before@.map_values(|x: String| x@) =~= vv.take(i as int).map_values(
                |v: DataV| skip_pattern_text(v),
            ),
        decreases n - i,
    {
        assert(vv[i as int] == variants@[i as int]@);
        let mut arm = variants[i].pattern(false, false);
        arm.append(" => ");
        if i == 0 {
            arm.append(less);
        } else if i == n - 1 {
            arm.append(greater);
        } else {
            arm.append("match __other { ");
            arm.append(join_strings(&before, " | ").as_str());
            arm.append(" => ");
            arm.append(greater);
            arm.append(", _ => ");
            arm.append(less);
            arm.append(", }");
        }
        arm.append(", ");
        assert(arm@ =~= variant_order_arm(vv, i as int, less@, greater@));
        assert(arm@ == f(i as int));
        let ghost old_arms = arms@;
        let ghost old_before = before@;
        let pat = variants[i].skip_pattern();
        arms.push(arm);
        before.push(pat);
        proof {
            assert(arms@ =~= old_arms.push(arm));
            assert(arms@.map_values(|x: String| x@) =~= old_arms.map_values(|x: String| x@).push(
                arm@,
            ));
            assert(Seq::new((i + 1) as nat, f) =~= Seq::new(i as nat, f).push(f(i as int)));
            assert(before@ =~= old_before.push(pat));
            assert(vv.take(i + 1) =~= vv.take(i as int).push(vv[i as int]));
            assert(before@.map_values(|x: String| x@) =~= old_before.map_values(|x: String| x@).push(
                pat@,
            ));
            assert(vv.take(i + 1).map_values(|v: DataV| skip_pattern_text(v)) =~= vv.take(
                i as int,
            ).map_values(|v: DataV| skip_pattern_text(v)).push(skip_pattern_text(vv[i as int])));
        }
        i = i + 1;
    }
    proof {
        reveal_strlit("");
        assert(""@ =~= Seq::<char>::empty());
        assert(Seq::new(vv.len(), f) =~= Seq::new(
            vv.len(),
            |i: int| variant_order_arm(vv, i, less@, greater@),
        ));
    }
    let mut r = String::from_str("match self { ");
    r.append(join_strings(&arms, "").as_str());
    r.append("}");
    r
}

/// Builds [`discriminant_else`].
fn discriminant_else_text(
    ident: &String,
    g: &SplitGenerics,
    dw: &DeriveWhere,
    discriminant: &Discriminant,
    variants: &Vec<Data>,
    p: &str,
    m: &str,
    d: &DeriveTrait,
    safe: bool,
) -> (r: String)
    ensures
        r@ == discriminant_else(
            ident@,
            g@,
            dw@,
            discriminant@,
            variants@.map_values(|x: Data| x@),
            p@,
            m@,
            d@,
            safe,
        ),
{
    match discriminant {
        Discriminant::UnitDefault => match value_order_text(dw, p, m) {
            Some(x) => x,
            None => build_discriminant_order(&None, ident, g, variants, p, m),
        },
        Discriminant::UnitRepr(r) => if safe {
            match value_order_text(dw, p, m) {
                Some(x) => x,
                None => build_discriminant_order(
                    &Some(r.clone()),
                    ident,
                    g,
                    variants,
                    p,
                    m,
                ),
            }
        } else {
            pointer_order_text(r, p, m)
        },
        Discriminant::Repr(r) => if safe {
            build_discriminant_order(&Some(r.clone()), ident, g, variants, p, m)
        } else {
            pointer_order_text(r, p, m)
        },
        Discriminant::Unknown => if safe {
            build_variant_order(variants, ord_less_str(d), ord_greater_str(d))
        } else {
            transmute_order_text(p, m)
        },
        Discriminant::Single => build_discriminant_order(
            &None,
            ident,
            g,
            variants,
            p,
            m,
        ),
    }
}

/// Builds [`ord_signature`]: the body of `partial_cmp` or `cmp` around
/// the match arms `body`.
pub fn build_ord_signature(
    item: &Item,
    g: &SplitGenerics,
    dw: &DeriveWhere,
    d: &DeriveTrait,
    body: &String,
    features: Features,
) -> (r: String)
    requires
        d@ is PartialOrd || d@ is Ord,
        item@.wf(),
    ensures
        r@ == ord_signature(item@, g@, dw@, d@, body@, features),
{
    let t = d.trait_();
    let equal = ord_equal_str(d);
    if item.is_incomparable() {
        return String::from_str("::core::option::Option::None");
    }
    match item {
        Item::Enum { ident, discriminant, variants, .. } if variants.len() > 1 => {
            let ghost vv = variants@.map_values(|x: Data| x@);
            let p = d.path();
            let m = ord_method_str(d);
            let be = if item.is_empty(t) {
                String::from_str(equal)
            } else {
                let mut x = String::from_str("match (self, __other) { ");
                x.append(body.as_str());
                x.append("_ => ");
                x.append(
                    if find_empty_comparable(variants, t) {
                        equal
                    } else {
                        unreachable_code(features.safe)
                    },
                );
                x.append(", }");
                x
            };
            assert(be@ == body_equal(item@, vv, t, body@, features.safe, ord_equal(d@)));
            let inc = build_incomparable_pattern(variants);
            match single_comparable(variants) {
                Some(k) => {
                    proof {
                        lemma_variants_split(vv);
                    }
                    let pat = match &inc {
                        Some(x) => x.clone(),
                        None => String::new(),
                    };
                    let mut r = String::from_str("if ::core::matches!(self, ");
                    r.append(pat.as_str());
                    r.append(") || ::core::matches!(__other, ");
                    r.append(pat.as_str());
                    r.append(") { ::core::option::Option::None } else { ");
                    if variants[k].is_empty(t) {
                        r.append(equal);
                    } else {
                        r.append(be.as_str());
                    }
                    r.append(" }");
                    r
                },
                None => {
                    let mut r = String::new();
                    match &inc {
                        Some(x) => {
                            r.append("if ::core::matches!(self, ");
                            r.append(x.as_str());
                            r.append(") || ::core::matches!(__other, ");
                            r.append(x.as_str());
                            r.append(") { return ::core::option::Option::None; } ");
                        },
                        None => {},
                    }
                    proof {
                        reveal_strlit("");
                        assert(r@ == incomparable_return(incomparable_pattern(vv)));
                    }
                    if features.nightly {
                        r.append(
                            "let __self_disc = ::core::intrinsics::discriminant_value(self); let __other_disc = ::core::intrinsics::discriminant_value(__other); if __self_disc == __other_disc { ",
                        );
                        r.append(be.as_str());
                        r.append(" } else { ");
                        r.append(p.as_str());
                        r.append("::");
                        r.append(m);
                        r.append("(&__self_disc, &__other_disc) }");
                    } else {
                        r.append(
                            "let __self_disc = ::core::mem::discriminant(self); let __other_disc = ::core::mem::discriminant(__other); if __self_disc == __other_disc { ",
                        );
                        r.append(be.as_str());
                        r.append(" } else { ");
                        r.append(
                            discriminant_else_text(
                                ident,
                                g,
                                dw,
                                discriminant,
                                variants,
                                p.as_str(),
                                m,
                                d,
                                features.safe,
                            ).as_str(),
                        );
                        r.append(" }");
                    }
                    r
                },
            }
        },
        _ => {
            if item.is_empty(t) {
                String::from_str(equal)
            } else {
                let mut r = String::from_str("match (self, __other) { ");
                r.append(body.as_str());
                r.append("}");
                r
            }
        },
    }
}

} // verus!
