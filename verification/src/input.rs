//! Reads the annotated item into something more useful, and rejects uses
//! that the standard `derive` already covers.

use vstd::prelude::*;

use crate::attr::variant::lemma_variant_default;
use crate::attr::item::{
    clone_strings, lemma_item_attr_skip,
    flat_traits, implemented_traits, opt_path, spec_item_attr, DeriveTraitV, DeriveWhere,
    DeriveWhereV, ItemAttr, ItemKind,
};
use crate::data::{
    data_skips_ok, fields_len, lemma_data_item_skips, lemma_data_variant_skips, spec_data_item,
    spec_data_variant, Data, DataType, DataV,
};
use crate::error::{
    err, msg_default_missing, msg_generics, msg_item, msg_item_empty, msg_visited, DeriveError,
    ErrV, Error,
};
use crate::item::{Discriminant, DiscriminantV, Item, ItemV};
use crate::meta::{attr_is, attr_is_ident, texts, MetaPath, PathV};
use crate::model::{Attr, AttrArgs, DataInput, FieldsInput, GenericParamInput, ItemInput, Tok, VariantInput};
use crate::trait_::{contains_trait, Features, Trait};
use crate::syntax::{Reader, Reads};
use crate::util::str_eq;

verus! {

/// `name` is an integer type usable in `repr`.
pub open spec fn is_repr_name(name: Seq<char>) -> bool {
    name == "u8"@ || name == "u16"@ || name == "u32"@ || name == "u64"@ || name == "u128"@
        || name == "usize"@ || name == "i8"@ || name == "i16"@ || name == "i32"@ || name
        == "i64"@ || name == "i128"@ || name == "isize"@
}

/// Checks [`is_repr_name`].
pub fn repr_name(name: &str) -> (b: bool)
    ensures
        b == is_repr_name(name@),
{
    str_eq(name, "u8") || str_eq(name, "u16") || str_eq(name, "u32") || str_eq(name, "u64")
        || str_eq(name, "u128") || str_eq(name, "usize") || str_eq(name, "i8") || str_eq(
        name,
        "i16",
    ) || str_eq(name, "i32") || str_eq(name, "i64") || str_eq(name, "i128") || str_eq(
        name,
        "isize",
    )
}

/// The first integer type named in the tokens `toks[i..]` of a `repr`.
pub open spec fn repr_in_list(toks: Seq<Tok>, i: int) -> Option<Seq<char>>
    decreases toks.len() - i,
{
    if i < 0 || i >= toks.len() {
        None
    } else if toks[i] is Ident && is_repr_name(toks[i]->Ident_name@) {
        Some(toks[i]->Ident_name@)
    } else {
        repr_in_list(toks, i + 1)
    }
}

/// The integer type given by the last `repr` attribute among `attrs[i..]`
/// that names one, or `cur` if none does.
pub open spec fn repr_of(attrs: Seq<Attr>, i: int, cur: Option<Seq<char>>) -> Option<Seq<char>>
    decreases attrs.len() - i,
{
    if i < 0 || i >= attrs.len() {
        cur
    } else {
        let next = if attr_is(attrs[i], "repr"@) && attrs[i].args is List {
            match repr_in_list(attrs[i].args->List_0@, 0) {
                Some(r) => Some(r),
                None => cur,
            }
        } else {
            cur
        };
        repr_of(attrs, i + 1, next)
    }
}

/// How the discriminants of the variants `vs` of an enum with attributes
/// `attrs` compare.
pub open spec fn spec_discriminant(attrs: Seq<Attr>, vs: Seq<VariantInput>) -> DiscriminantV {
    let is_unit = forall|i: int| 0 <= i < vs.len() ==> (#[trigger] vs[i]).fields is Unit;
    if vs.len() <= 1 {
        DiscriminantV::Single
    } else {
        match repr_of(attrs, 0, None) {
            Some(r) => if is_unit {
                DiscriminantV::UnitRepr(r)
            } else {
                DiscriminantV::Repr(r)
            },
            None => if is_unit {
                DiscriminantV::UnitDefault
            } else {
                DiscriminantV::Unknown
            },
        }
    }
}

/// Finds the first integer type named in a `repr` list.
fn find_repr_in_list(toks: &Vec<Tok>) -> (r: Option<String>)
    ensures
        match r {
            Some(x) => repr_in_list(toks@, 0) == Some(x@),
            None => repr_in_list(toks@, 0) is None,
        },
{
    let mut i: usize = 0;
    while i < toks.len()
        invariant
            i <= toks@.len(),
            repr_in_list(toks@, 0) == repr_in_list(toks@, i as int),
        decreases toks.len() - i,
    {
        match &toks[i] {
            Tok::Ident { name, .. } => {
                if repr_name(name.as_str()) {
                    return Some(name.clone());
                }
            },
            _ => {},
        }
        i = i + 1;
    }
    None
}

/// Computes [`spec_discriminant`].
pub fn discriminant_of(attrs: &Vec<Attr>, vs: &Vec<VariantInput>) -> (d: Discriminant)
    ensures
        d@ == spec_discriminant(attrs@, vs@),
{
    if vs.len() <= 1 {
        return Discriminant::Single;
    }
    let mut is_unit = true;
    let mut k: usize = 0;
    while k < vs.len()
        invariant
            k <= vs@.len(),
            is_unit == forall|j: int| 0 <= j < k ==> (#[trigger] vs@[j]).fields is Unit,
        decreases vs.len() - k,
    {
        let unit = match &vs[k].fields {
            FieldsInput::Unit => true,
            _ => false,
        };
        proof {
            if is_unit && !unit {
                assert(!(vs@[k as int].fields is Unit));
            }
        }
        is_unit = is_unit && unit;
        k = k + 1;
    }
    let mut repr: Option<String> = None;
    let mut i: usize = 0;
    while i < attrs.len()
        invariant
            i <= attrs@.len(),
            repr_of(attrs@, 0, None) == repr_of(
                attrs@,
                i as int,
                match repr {
                    Some(r) => Some(r@),
                    None => None,
                },
            ),
        decreases attrs.len() - i,
    {
        if attr_is_ident(&attrs[i], "repr") {
            match &attrs[i].args {
                AttrArgs::List(toks) => match find_repr_in_list(toks) {
                    Some(r) => {
                        repr = Some(r);
                    },
                    None => {},
                },
                _ => {},
            }
        }
        i = i + 1;
    }
    match repr {
        Some(r) => if is_unit {
            Discriminant::UnitRepr(r)
        } else {
            Discriminant::Repr(r)
        },
        None => if is_unit {
            Discriminant::UnitDefault
        } else {
            Discriminant::Unknown
        },
    }
}

/// The variants `vs[i..]` of the enum `ident` appended to `acc`; `flag`
/// tells whether a variant so far has the `default` option.
pub open spec fn spec_variants(
    acc: Seq<DataV>,
    flag: bool,
    vs: Seq<VariantInput>,
    i: int,
    ident: Seq<char>,
    implemented: Seq<Trait>,
    features: Features,
) -> Result<(Seq<DataV>, bool), ErrV>
    decreases vs.len() - i,
{
    if i < 0 || i >= vs.len() {
        Ok((acc, flag))
    } else {
        match spec_data_variant(ident, implemented, flag, vs[i], features) {
            Ok((d, fl)) => spec_variants(acc.push(d), fl, vs, i + 1, ident, implemented, features),
            Err(e) => Err(e),
        }
    }
}

/// The item or one of its variants is incomparable.
pub open spec fn any_incomparable(item: ItemV) -> bool {
    match item {
        ItemV::Enum { incomparable, variants, .. } => incomparable is Some || exists|i: int|
            0 <= i < variants.len() && (#[trigger] variants[i]).incomparable is Some,
        ItemV::Item(d) => d.incomparable is Some,
    }
}

/// Deriving `d` for `item` does something the standard `derive` cannot.
pub open spec fn has_use_case(d: DeriveTraitV, item: ItemV) -> bool {
    ||| d.trait_() == Trait::Default && item is Enum
    ||| item.any_skip_trait(d.trait_())
    ||| d is Zeroize || d is ZeroizeOnDrop
    ||| (d.trait_() == Trait::PartialEq || d.trait_() == Trait::PartialOrd) && any_incomparable(item)
}

/// Number of type parameters among `params`.
pub open spec fn type_param_count(params: Seq<GenericParamInput>) -> nat
    decreases params.len(),
{
    if params.len() == 0 {
        0
    } else {
        type_param_count(params.drop_last()) + if params.last() is Type {
            1nat
        } else {
            0nat
        }
    }
}

/// The `derive_where` binds exactly the item's type parameters, each to the
/// derived trait: what the standard `derive` does.
pub open spec fn binds_all_params(dw: DeriveWhereV, params: Seq<GenericParamInput>) -> bool {
    &&& dw.generics.len() == type_param_count(params)
    &&& !dw.any_custom_bound()
    &&& forall|k: int|
        0 <= k < params.len() ==> (#[trigger] params[k] matches GenericParamInput::Type(n)
            ==> dw.has_type_param(n@))
}

/// Every `derive_where` that binds like the standard `derive` asks for some
/// trait that the standard `derive` cannot provide as well.
pub open spec fn use_case_ok(
    dws: Seq<DeriveWhereV>,
    item: ItemV,
    params: Seq<GenericParamInput>,
) -> bool {
    forall|i: int|
        0 <= i < dws.len() && binds_all_params(#[trigger] dws[i], params) ==> exists|j: int|
            0 <= j < dws[i].traits.len() && has_use_case(#[trigger] dws[i].traits[j], item)
}

/// Parsed input.
pub struct Input {
    /// Path to this crate, when given.
    pub crate_: Option<MetaPath>,
    /// Path of the `derive_where_visited` marker attribute.
    pub derive_where_visited: MetaPath,
    /// `derive_where` attributes on the item.
    pub derive_wheres: Vec<DeriveWhere>,
    /// Fields or variants of this item.
    pub item: Item,
}

/// Mathematical value of an [`Input`].
pub struct InputV {
    pub crate_: Option<PathV>,
    pub derive_where_visited: PathV,
    pub derive_wheres: Seq<DeriveWhereV>,
    pub item: ItemV,
}

impl View for Input {
    type V = InputV;

    open spec fn view(&self) -> InputV {
        InputV {
            crate_: opt_path(self.crate_),
            derive_where_visited: self.derive_where_visited@,
            derive_wheres: self.derive_wheres@.map_values(|d: DeriveWhere| d@),
            item: self.item@,
        }
    }
}

impl InputV {
    /// The item is consistent, and every trait asked for can be
    /// implemented for it.
    pub open spec fn wf(self) -> bool {
        &&& self.item.wf()
        &&& (self.item matches ItemV::Item(d) && d.type_ == DataType::Union) ==> forall|k: int|
            0 <= k < flat_traits(self.derive_wheres).len() ==> #[trigger] flat_traits(
                self.derive_wheres,
            )[k].unionable()
    }
}

/// The variants read from `vs[i..]` follow `acc`, one for each, and none
/// is a union.
pub proof fn lemma_variants_shape(
    acc: Seq<DataV>,
    flag: bool,
    vs: Seq<VariantInput>,
    i: int,
    ident: Seq<char>,
    implemented: Seq<Trait>,
    features: Features,
)
    requires
        0 <= i <= vs.len(),
        forall|k: int| 0 <= k < acc.len() ==> (#[trigger] acc[k]).type_ != DataType::Union,
    ensures
        spec_variants(acc, flag, vs, i, ident, implemented, features) matches Ok((r, _)) ==> r.len()
            == acc.len() + vs.len() - i && forall|k: int|
            0 <= k < r.len() ==> (#[trigger] r[k]).type_ != DataType::Union,
    decreases vs.len() - i,
{
    if i < vs.len() {
        match spec_data_variant(ident, implemented, flag, vs[i], features) {
            Ok((d, fl)) => {
                let acc2 = acc.push(d);
                assert forall|k: int| 0 <= k < acc2.len() implies (#[trigger] acc2[k]).type_
                    != DataType::Union by {
                    if k < acc.len() {
                        assert(acc2[k] == acc[k]);
                    }
                }
                lemma_variants_shape(acc2, fl, vs, i + 1, ident, implemented, features);
            },
            Err(_) => {},
        }
    }
}

/// Every item that is accepted is well formed: an enum's discriminants
/// need comparing exactly when it has several variants, no variant is a
/// union, and a union is only asked for `Clone` and `Copy`.
pub proof fn lemma_input_wf(input: ItemInput, features: Features, rd: Reader)
    requires
        spec_input(input, features, rd) is Ok,
    ensures
        spec_input(input, features, rd)->Ok_0.wf(),
{
    match input.data {
        DataInput::Enum(vs) => {
            lemma_variants_shape(seq![], false, vs@, 0, input.ident@, flat_traits(
                spec_item_attr(input.attrs@, input.span, kind_of(input.data), features, rd)->Ok_0.derive_wheres,
            ), features);
        },
        _ => {},
    }
}

/// `found` tells whether some variant of `vs` is the default one; at most
/// one is, and only when `Default` is derived.
pub open spec fn defaults_ok(vs: Seq<DataV>, found: bool, implemented: Seq<Trait>) -> bool {
    &&& found == exists|k: int| 0 <= k < vs.len() && (#[trigger] vs[k]).default
    &&& forall|j: int, k: int|
        0 <= j < vs.len() && 0 <= k < vs.len() && (#[trigger] vs[j]).default && (
        #[trigger] vs[k]).default ==> j == k
    &&& forall|k: int| 0 <= k < vs.len() && (#[trigger] vs[k]).default ==> implemented.contains(
        Trait::Default,
    )
}

/// Reading the variants `vs[i..]` keeps [`defaults_ok`].
proof fn lemma_variants_default(
    acc: Seq<DataV>,
    flag: bool,
    vs: Seq<VariantInput>,
    i: int,
    ident: Seq<char>,
    implemented: Seq<Trait>,
    features: Features,
)
    requires
        0 <= i <= vs.len(),
        defaults_ok(acc, flag, implemented),
    ensures
        spec_variants(acc, flag, vs, i, ident, implemented, features) matches Ok((r, found))
            ==> defaults_ok(r, found, implemented),
    decreases vs.len() - i,
{
    if i < vs.len() {
        let v = vs[i];
        lemma_variant_default(
            v.attrs@,
            implemented,
            flag,
            fields_len(v.fields) == 0,
            v.span,
            features,
        );
        match spec_data_variant(ident, implemented, flag, v, features) {
            Ok((d, fl)) => {
                let acc2 = acc.push(d);
                assert(acc2[acc.len() as int] == d);
                assert forall|k: int| 0 <= k < acc.len() implies #[trigger] acc2[k] == acc[k] by {}
                if d.default {
                    assert(!flag);
                }
                assert(defaults_ok(acc2, fl, implemented)) by {
                    if fl {
                        if d.default {
                            assert(acc2[acc.len() as int].default);
                        } else {
                            let k = choose|k: int| 0 <= k < acc.len() && (#[trigger] acc[k]).default;
                            assert(acc2[k].default);
                        }
                    }
                    assert forall|j: int, k: int|
                        0 <= j < acc2.len() && 0 <= k < acc2.len() && (#[trigger] acc2[j]).default
                            && (#[trigger] acc2[k]).default implies j == k by {
                        if j < acc.len() && k == acc.len() {
                            assert(acc[j].default);
                        }
                        if k < acc.len() && j == acc.len() {
                            assert(acc[k].default);
                        }
                        if j < acc.len() && k < acc.len() {
                            assert(acc[j].default && acc[k].default);
                        }
                    }
                    assert forall|k: int| 0 <= k < acc2.len() && (#[trigger] acc2[k]).default implies implemented.contains(
                        Trait::Default,
                    ) by {
                        if k < acc.len() {
                            assert(acc[k].default);
                        }
                    }
                }
                lemma_variants_default(acc2, fl, vs, i + 1, ident, implemented, features);
            },
            Err(_) => {},
        }
    }
}

/// An accepted enum has exactly one default variant when `Default` is
/// derived, and none otherwise.
pub proof fn lemma_enum_default(input: ItemInput, features: Features, rd: Reader)
    requires
        spec_input(input, features, rd) matches Ok(iv) && iv.item is Enum,
    ensures
        ({
            let iv = spec_input(input, features, rd)->Ok_0;
            let vs = iv.item->Enum_variants;
            if flat_traits(iv.derive_wheres).contains(Trait::Default) {
                exists|k: int|
                    0 <= k < vs.len() && (#[trigger] vs[k]).default && forall|j: int|
                        0 <= j < vs.len() && (#[trigger] vs[j]).default ==> j == k
            } else {
                forall|k: int| 0 <= k < vs.len() ==> !(#[trigger] vs[k]).default
            }
        }),
{
    let ia = spec_item_attr(input.attrs@, input.span, kind_of(input.data), features, rd)->Ok_0;
    let implemented = flat_traits(ia.derive_wheres);
    match input.data {
        DataInput::Enum(vs) => {
            lemma_variants_default(seq![], false, vs@, 0, input.ident@, implemented, features);
            let iv = spec_input(input, features, rd)->Ok_0;
            let vars = iv.item->Enum_variants;
            if implemented.contains(Trait::Default) {
                let k = choose|k: int| 0 <= k < vars.len() && (#[trigger] vars[k]).default;
                assert(vars[k].default);
            }
        },
        _ => {},
    }
}

/// Reading the variants `vs[i..]` keeps [`data_skips_ok`].
proof fn lemma_variants_skips(
    acc: Seq<DataV>,
    flag: bool,
    vs: Seq<VariantInput>,
    i: int,
    ident: Seq<char>,
    implemented: Seq<Trait>,
    features: Features,
)
    requires
        0 <= i,
        forall|k: int| 0 <= k < acc.len() ==> data_skips_ok(#[trigger] acc[k], implemented),
    ensures
        spec_variants(acc, flag, vs, i, ident, implemented, features) matches Ok((r, _))
            ==> forall|k: int| 0 <= k < r.len() ==> data_skips_ok(#[trigger] r[k], implemented),
    decreases vs.len() - i,
{
    if i < vs.len() {
        lemma_data_variant_skips(ident, implemented, flag, vs[i], features);
        match spec_data_variant(ident, implemented, flag, vs[i], features) {
            Ok((d, fl)) => {
                let acc2 = acc.push(d);
                assert forall|k: int| 0 <= k < acc2.len() implies data_skips_ok(
                    #[trigger] acc2[k],
                    implemented,
                ) by {
                    if k < acc.len() {
                        assert(acc2[k] == acc[k]);
                    }
                }
                lemma_variants_skips(acc2, fl, vs, i + 1, ident, implemented, features);
            },
            Err(_) => {},
        }
    }
}

/// In every accepted item, a field or variant skips only traits that
/// support skipping and are derived, lists each once, and a field never
/// skips what its parent's `skip_inner` skips already.
pub proof fn lemma_input_skips(input: ItemInput, features: Features, rd: Reader)
    requires
        spec_input(input, features, rd) is Ok,
    ensures
        ({
            let iv = spec_input(input, features, rd)->Ok_0;
            let implemented = flat_traits(iv.derive_wheres);
            match iv.item {
                ItemV::Item(d) => data_skips_ok(d, implemented),
                ItemV::Enum { variants, .. } => forall|k: int|
                    0 <= k < variants.len() ==> data_skips_ok(#[trigger] variants[k], implemented),
            }
        }),
{
    lemma_item_attr_skip(input.attrs@, input.span, kind_of(input.data), features, rd);
    let ia = spec_item_attr(input.attrs@, input.span, kind_of(input.data), features, rd)->Ok_0;
    let implemented = flat_traits(ia.derive_wheres);
    match input.data {
        DataInput::Struct(fs) => {
            lemma_data_item_skips(
                input.span,
                implemented,
                ia.skip_inner,
                ia.incomparable,
                input.ident@,
                fs,
                false,
                features,
            );
        },
        DataInput::Union(fs) => {
            lemma_data_item_skips(
                input.span,
                implemented,
                ia.skip_inner,
                ia.incomparable,
                input.ident@,
                fs,
                true,
                features,
            );
        },
        DataInput::Enum(vs) => {
            lemma_variants_skips(seq![], false, vs@, 0, input.ident@, implemented, features);
        },
    }
}

/// Kind of the item.
pub open spec fn kind_of(data: DataInput) -> ItemKind {
    match data {
        DataInput::Struct(_) => ItemKind::Struct,
        DataInput::Enum(_) => ItemKind::Enum,
        DataInput::Union(_) => ItemKind::Union,
    }
}

/// The marker attribute of an item expanded before: under the crate's
/// path, `::derive_where` by default.
pub open spec fn visited_path(crate_: Option<PathV>, span: usize) -> PathV {
    match crate_ {
        Some(p) => PathV {
            leading_colon: p.leading_colon,
            segments: p.segments.push("derive_where_visited"@),
            span,
        },
        None => PathV {
            leading_colon: true,
            segments: seq!["derive_where"@, "derive_where_visited"@],
            span,
        },
    }
}

/// Some attribute of the item is the marker `v`.
pub open spec fn has_visited(attrs: Seq<Attr>, v: PathV) -> bool {
    exists|k: int|
        0 <= k < attrs.len() && (#[trigger] attrs[k]).leading_colon == v.leading_colon && texts(
            attrs[k].path@,
        ) == v.segments
}

/// The parsed input, or the error the macro reports.
pub open spec fn spec_input(input: ItemInput, features: Features, rd: Reader) -> Result<InputV, ErrV> {
    let span = input.span;
    match spec_item_attr(input.attrs@, span, kind_of(input.data), features, rd) {
        Err(e) => Err(e),
        Ok(ia) => if has_visited(input.attrs@, visited_path(ia.crate_, span)) {
            Err(err(span, msg_visited()))
        } else {
            let implemented = flat_traits(ia.derive_wheres);
            let item_r: Result<ItemV, ErrV> = match input.data {
                DataInput::Struct(fs) => match spec_data_item(
                    span,
                    implemented,
                    ia.skip_inner,
                    ia.incomparable,
                    input.ident@,
                    fs,
                    false,
                    features,
                ) {
                    Ok(d) => Ok(ItemV::Item(d)),
                    Err(e) => Err(e),
                },
                DataInput::Union(fs) => match spec_data_item(
                    span,
                    implemented,
                    ia.skip_inner,
                    ia.incomparable,
                    input.ident@,
                    fs,
                    true,
                    features,
                ) {
                    Ok(d) => Ok(ItemV::Item(d)),
                    Err(e) => Err(e),
                },
                DataInput::Enum(vs) => match spec_variants(
                    seq![],
                    false,
                    vs@,
                    0,
                    input.ident@,
                    implemented,
                    features,
                ) {
                    Err(e) => Err(e),
                    Ok((variants, found)) => if !found && implemented.contains(Trait::Default) {
                        Err(err(span, msg_default_missing()))
                    } else if !found && ia.incomparable is None && (forall|i: int|
                        0 <= i < variants.len() ==> (#[trigger] variants[i]).incomparable is None)
                        && forall|i: int|
                        0 <= i < vs@.len() ==> fields_len(#[trigger] vs@[i].fields) == 0 {
                        Err(err(span, msg_item_empty()))
                    } else {
                        Ok(
                            ItemV::Enum {
                                ident: input.ident@,
                                incomparable: ia.incomparable,
                                discriminant: spec_discriminant(input.attrs@, vs@),
                                variants,
                            },
                        )
                    },
                },
            };
            match item_r {
                Err(e) => Err(e),
                Ok(item) => if !use_case_ok(ia.derive_wheres, item, input.generics.params@) {
                    if type_param_count(input.generics.params@) == 0 {
                        Err(err(span, msg_item()))
                    } else {
                        Err(err(span, msg_generics()))
                    }
                } else {
                    Ok(
                        InputV {
                            crate_: ia.crate_,
                            derive_where_visited: visited_path(ia.crate_, span),
                            derive_wheres: ia.derive_wheres,
                            item,
                        },
                    )
                },
            }
        },
    }
}

/// Builds [`visited_path`].
fn build_visited_path(crate_: &Option<MetaPath>, span: usize) -> (r: MetaPath)
    ensures
        r@ == visited_path(opt_path(*crate_), span),
{
    match crate_ {
        Some(p) => {
            let mut segments = clone_strings(&p.segments);
            let ghost before = segments@;
            segments.push(String::from_str("derive_where_visited"));
            proof {
                assert(segments@ =~= before.push(segments@.last()));
                assert(texts(segments@) =~= texts(before).push("derive_where_visited"@));
            }
            MetaPath { leading_colon: p.leading_colon, segments, span }
        },
        None => {
            let mut segments: Vec<String> = Vec::new();
            segments.push(String::from_str("derive_where"));
            segments.push(String::from_str("derive_where_visited"));
            proof {
                assert(texts(segments@) =~= seq!["derive_where"@, "derive_where_visited"@]);
            }
            MetaPath { leading_colon: true, segments, span }
        },
    }
}

/// Checks [`has_visited`].
fn find_visited(attrs: &Vec<Attr>, v: &MetaPath) -> (b: bool)
    ensures
        b == has_visited(attrs@, v@),
{
    let mut k: usize = 0;
    while k < attrs.len()
        invariant
            k <= attrs@.len(),
            forall|j: int|
                0 <= j < k ==> !((#[trigger] attrs@[j]).leading_colon == v@.leading_colon && texts(
                    attrs@[j].path@,
                ) == v@.segments),
        decreases attrs.len() - k,
    {
        if attrs[k].leading_colon == v.leading_colon && same_strings(&attrs[k].path, &v.segments) {
            return true;
        }
        k = k + 1;
    }
    false
}

/// `a` and `b` hold the same texts.
fn same_strings(a: &Vec<String>, b: &Vec<String>) -> (r: bool)
    ensures
        r == (texts(a@) == texts(b@)),
{
    if a.len() != b.len() {
        proof {
            assert(texts(a@).len() != texts(b@).len());
        }
        return false;
    }
    let mut i: usize = 0;
    while i < a.len()
        invariant
            i <= a@.len(),
            a@.len() == b@.len(),
            forall|j: int| 0 <= j < i ==> a@[j]@ == b@[j]@,
        decreases a.len() - i,
    {
        if !str_eq(a[i].as_str(), b[i].as_str()) {
            proof {
                assert(texts(a@)[i as int] != texts(b@)[i as int]);
            }
            return false;
        }
        i = i + 1;
    }
    assert(texts(a@) =~= texts(b@));
    true
}

/// Computes [`type_param_count`].
fn count_type_params(params: &Vec<GenericParamInput>) -> (n: usize)
    ensures
        n == type_param_count(params@),
{
    let mut n: usize = 0;
    let mut i: usize = 0;
    while i < params.len()
        invariant
            i <= params@.len(),
            n == type_param_count(params@.take(i as int)),
            n <= i,
        decreases params.len() - i,
    {
        assert(params@.take(i + 1).drop_last() =~= params@.take(i as int));
        match &params[i] {
            GenericParamInput::Type(_) => {
                n = n + 1;
            },
            _ => {},
        }
        i = i + 1;
    }
    assert(params@.take(params@.len() as int) =~= params@);
    n
}

/// Checks [`binds_all_params`].
fn binds_all(dw: &DeriveWhere, params: &Vec<GenericParamInput>) -> (b: bool)
    ensures
        b == binds_all_params(dw@, params@),
{
    if dw.generics.len() != count_type_params(params) || dw.any_custom_bound() {
        return false;
    }
    let mut i: usize = 0;
    while i < params.len()
        invariant
            i <= params@.len(),
            forall|k: int|
                0 <= k < i ==> (#[trigger] params@[k] matches GenericParamInput::Type(n)
                    ==> dw@.has_type_param(n@)),
        decreases params.len() - i,
    {
        match &params[i] {
            GenericParamInput::Type(n) => {
                if !dw.has_type_param(n.as_str()) {
                    return false;
                }
            },
            _ => {},
        }
        i = i + 1;
    }
    true
}

/// Checks [`any_incomparable`].
#[verifier::loop_isolation(false)]
fn item_any_incomparable(item: &Item) -> (b: bool)
    ensures
        b == any_incomparable(item@),
{
    match item {
        Item::Item(d) => d.is_incomparable(),
        Item::Enum { incomparable, variants, .. } => {
            if incomparable.0.is_some() {
                return true;
            }
            let mut i: usize = 0;
            while i < variants.len()
                invariant
                    i <= variants@.len(),
                    forall|k: int| 0 <= k < i ==> !((#[trigger] variants@[k]@).incomparable is Some),
                decreases variants.len() - i,
            {
                if variants[i].is_incomparable() {
                    assert(item@->Enum_variants[i as int].incomparable is Some);
                    return true;
                }
                i = i + 1;
            }
            proof {
                let vs = item@->Enum_variants;
                assert forall|k: int| 0 <= k < vs.len() implies !((#[trigger] vs[k]).incomparable is Some) by {
                    assert(vs[k] == variants@[k]@);
                }
            }
            false
        },
    }
}

/// Checks [`has_use_case`].
fn trait_has_use_case(d: &crate::attr::item::DeriveTrait, item: &Item) -> (b: bool)
    ensures
        b == has_use_case(d@, item@),
{
    let t = d.trait_();
    if t == Trait::Default && item.is_enum() {
        return true;
    }
    if item.any_skip_trait(t) {
        return true;
    }
    if t == Trait::Zeroize || t == Trait::ZeroizeOnDrop {
        return true;
    }
    (t == Trait::PartialEq || t == Trait::PartialOrd) && item_any_incomparable(item)
}

/// Checks [`use_case_ok`].
#[verifier::loop_isolation(false)]
fn check_use_case(dws: &Vec<DeriveWhere>, item: &Item, params: &Vec<GenericParamInput>) -> (b:
    bool)
    ensures
        b == use_case_ok(dws@.map_values(|d: DeriveWhere| d@), item@, params@),
{
    let ghost dv = dws@.map_values(|d: DeriveWhere| d@);
    let mut i: usize = 0;
    while i < dws.len()
        invariant
            i <= dws@.len(),
            dv == dws@.map_values(|d: DeriveWhere| d@),
            forall|k: int|
                0 <= k < i && binds_all_params(#[trigger] dv[k], params@) ==> exists|j: int|
                    0 <= j < dv[k].traits.len() && has_use_case(
                        #[trigger] dv[k].traits[j],
                        item@,
                    ),
        decreases dws.len() - i,
    {
        assert(dv[i as int] == dws@[i as int]@);
        if binds_all(&dws[i], params) {
            let dw = &dws[i];
            let mut found = false;
            let mut w: usize = 0;
            let mut j: usize = 0;
            while j < dw.traits.len()
                invariant
                    j <= dw.traits@.len(),
                    dv[i as int] == dw@,
                    found ==> w < j && has_use_case(dw@.traits[w as int], item@),
                    !found ==> forall|m: int|
                        0 <= m < j ==> !has_use_case(#[trigger] dw@.traits[m], item@),
                decreases dw.traits.len() - j,
            {
                if !found && trait_has_use_case(&dw.traits[j], item) {
                    found = true;
                    w = j;
                }
                j = j + 1;
            }
            if found {
                assert(has_use_case(dv[i as int].traits[w as int], item@));
            } else {
                assert(!(exists|m: int|
                    0 <= m < dv[i as int].traits.len() && has_use_case(
                        #[trigger] dv[i as int].traits[m],
                        item@,
                    )));
                return false;
            }
        }
        i = i + 1;
    }
    true
}

/// Creates the variants `vs` of the enum `ident`, with whether one has the
/// `default` option.
fn variants_from(
    vs: &Vec<VariantInput>,
    ident: &String,
    implemented: &Vec<Trait>,
    features: Features,
) -> (r: Result<(Vec<Data>, bool), DeriveError>)
    ensures
        match (r, spec_variants(seq![], false, vs@, 0, ident@, implemented@, features)) {
            (Ok((x, f)), Ok((y, g))) => x@.map_values(|d: Data| d@) == y && f == g,
            (Err(x), Err(y)) => x@ == y,
            _ => false,
        },
{
    let mut out: Vec<Data> = Vec::new();
    let mut acc = crate::attr::default::Default(false);
    let mut i: usize = 0;
    assert(out@.map_values(|d: Data| d@) =~= seq![]);
    while i < vs.len()
        invariant
            i <= vs@.len(),
            spec_variants(seq![], false, vs@, 0, ident@, implemented@, features) == spec_variants(
                out@.map_values(|d: Data| d@),
                acc.0,
                vs@,
                i as int,
                ident@,
                implemented@,
                features,
            ),
        decreases vs.len() - i,
    {
        let d = match Data::from_variant(ident, implemented, &mut acc, &vs[i], features) {
            Ok(d) => d,
            Err(e) => {
                return Err(e);
            },
        };
        let ghost before = out@.map_values(|d: Data| d@);
        out.push(d);
        assert(out@.map_values(|d: Data| d@) =~= before.push(out@.last()@));
        i = i + 1;
    }
    Ok((out, acc.0))
}

impl Input {
    /// Create [`Input`] from the macro input.
    pub fn from_input(input: &ItemInput, features: Features, reads: &mut Reads) -> (r: Result<
        Input,
        DeriveError,
    >)
        requires
            old(reads).wf(),
        ensures
            final(reads).wf(),
            final(reads).extends(*old(reads)),
            forall|rd: Reader|
                #[trigger] final(reads).agrees(rd) ==> match (r, spec_input(*input, features, rd)) {
                    (Ok(x), Ok(y)) => x@ == y,
                    (Err(x), Err(y)) => x@ == y,
                    _ => false,
                },
    {
        let span = input.span;
        let kind = match &input.data {
            DataInput::Struct(_) => ItemKind::Struct,
            DataInput::Enum(_) => ItemKind::Enum,
            DataInput::Union(_) => ItemKind::Union,
        };
        let ia = match ItemAttr::from_attrs(span, kind, &input.attrs, features, reads) {
            Ok(ia) => ia,
            Err(e) => {
                return Err(e);
            },
        };
        let ItemAttr { skip_inner, incomparable, crate_, derive_wheres } = ia;
        let visited = build_visited_path(&crate_, span);
        if find_visited(&input.attrs, &visited) {
            return Err(Error::visited(span));
        }
        let implemented = implemented_traits(&derive_wheres);
        let item = match &input.data {
            DataInput::Struct(fs) => match Data::from_item(
                span,
                &implemented,
                skip_inner,
                incomparable,
                &input.ident,
                fs,
                false,
                features,
            ) {
                Ok(d) => Item::Item(d),
                Err(e) => {
                    return Err(e);
                },
            },
            DataInput::Union(fs) => match Data::from_item(
                span,
                &implemented,
                skip_inner,
                incomparable,
                &input.ident,
                fs,
                true,
                features,
            ) {
                Ok(d) => Item::Item(d),
                Err(e) => {
                    return Err(e);
                },
            },
            DataInput::Enum(vs) => {
                let (variants, found) = match variants_from(
                    vs,
                    &input.ident,
                    &implemented,
                    features,
                ) {
                    Ok(x) => x,
                    Err(e) => {
                        return Err(e);
                    },
                };
                if !found && contains_trait(&implemented, Trait::Default) {
                    return Err(Error::default_missing(span));
                }
                let ghost vv = variants@.map_values(|d: Data| d@);
                let mut any_inc = false;
                let mut m: usize = 0;
                while m < variants.len()
                    invariant
                        m <= variants@.len(),
                        vv == variants@.map_values(|d: Data| d@),
                        !any_inc == forall|j: int| 0 <= j < m ==> (#[trigger] vv[j]).incomparable is None,
                    decreases variants.len() - m,
                {
                    assert(vv[m as int] == variants@[m as int]@);
                    if variants[m].is_incomparable() {
                        any_inc = true;
                    }
                    m = m + 1;
                }
                if !found && incomparable.0.is_none() && !any_inc {
                    let mut all_empty = true;
                    let mut k: usize = 0;
                    while k < vs.len()
                        invariant
                            k <= vs@.len(),
                            all_empty == forall|j: int|
                                0 <= j < k ==> fields_len(#[trigger] vs@[j].fields) == 0,
                        decreases vs.len() - k,
                    {
                        let n = match &vs[k].fields {
                            FieldsInput::Named(x) => x.len(),
                            FieldsInput::Unnamed(x) => x.len(),
                            FieldsInput::Unit => 0,
                        };
                        proof {
                            if all_empty && n != 0 {
                                assert(fields_len(vs@[k as int].fields) != 0);
                            }
                        }
                        all_empty = all_empty && n == 0;
                        k = k + 1;
                    }
                    if all_empty {
                        return Err(Error::item_empty(span));
                    }
                }
                let discriminant = discriminant_of(&input.attrs, vs);
                Item::Enum { ident: input.ident.clone(), incomparable, discriminant, variants }
            },
        };
        if !check_use_case(&derive_wheres, &item, &input.generics.params) {
            if count_type_params(&input.generics.params) == 0 {
                return Err(Error::item(span));
            } else {
                return Err(Error::generics(span));
            }
        }
        Ok(Input { crate_, derive_where_visited: visited, derive_wheres, item })
    }
}

} // verus!
