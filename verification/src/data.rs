//! Fields and variants of the item, with their options.

use vstd::prelude::*;

use crate::attr::field::{lemma_field_attr_skip, spec_field_attr, FieldAttr, FieldAttrV};
use crate::attr::incomparable::Incomparable;
use crate::attr::skip::{skip_ok, Skip, SkipV};
use crate::attr::variant::{lemma_variant_skip, spec_variant_attr, VariantAttr};
use crate::error::{err, msg_item_empty, DeriveError, ErrV, Error};
use crate::model::{DiscriminantInput, FieldInput, FieldsInput, VariantInput};
use crate::trait_::{Features, Trait};
use crate::util::{decimal, to_decimal};

verus! {

/// Kind of a struct, union or variant.
#[derive(Clone, Copy, PartialEq, Eq, Structural)]
pub enum DataType {
    /// Struct, union or struct variant with named fields.
    Struct,
    /// Tuple struct or tuple variant.
    Tuple,
    /// Unit struct or unit variant.
    Unit,
    /// Union.
    Union,
}

/// A field with its options and the names used for it in generated code.
pub struct Field {
    /// Options of the field.
    pub attr: FieldAttr,
    /// Name or index of the field.
    pub member: String,
    /// Variable bound to the field of `self`.
    pub self_ident: String,
    /// Variable bound to the field of `other`.
    pub other_ident: String,
    /// Type of the field, as source text.
    pub ty: String,
}

/// Mathematical value of a [`Field`].
pub struct FieldV {
    pub attr: FieldAttrV,
    pub member: Seq<char>,
    pub self_ident: Seq<char>,
    pub other_ident: Seq<char>,
    pub ty: Seq<char>,
}

impl View for Field {
    type V = FieldV;

    open spec fn view(&self) -> FieldV {
        FieldV {
            attr: self.attr@,
            member: self.member@,
            self_ident: self.self_ident@,
            other_ident: self.other_ident@,
            ty: self.ty@,
        }
    }
}

/// Explicit discriminant of a variant.
pub struct Discr {
    /// The expression, as source text.
    pub text: String,
    /// Base-10 digits when the expression is an integer literal.
    pub int_digits: Option<String>,
}

/// Mathematical value of a [`Discr`].
pub struct DiscrV {
    pub text: Seq<char>,
    pub int_digits: Option<Seq<char>>,
}

impl View for Discr {
    type V = DiscrV;

    open spec fn view(&self) -> DiscrV {
        DiscrV {
            text: self.text@,
            int_digits: match self.int_digits {
                Some(d) => Some(d@),
                None => None,
            },
        }
    }
}

/// Holds all relevant data of a struct, union or variant.
pub struct Data {
    /// Traits to skip all fields for.
    pub skip_inner: Skip,
    /// Whether this is the default variant; `true` for structs and unions.
    pub default: crate::attr::default::Default,
    /// Whether this compares unequal to everything.
    pub incomparable: Incomparable,
    /// Name of the struct, union or variant.
    pub ident: String,
    /// Path of the struct, union or variant, as source text.
    pub path: String,
    /// Kind of this struct, union or variant.
    pub type_: DataType,
    /// Whether this is an enum variant.
    pub is_variant: bool,
    /// Fields.
    pub fields: Vec<Field>,
    /// Explicit discriminant of a variant.
    pub discriminant: Option<Discr>,
}

/// Mathematical value of a [`Data`].
pub struct DataV {
    pub skip_inner: SkipV,
    pub default: bool,
    pub incomparable: Option<usize>,
    pub ident: Seq<char>,
    pub path: Seq<char>,
    pub type_: DataType,
    pub is_variant: bool,
    pub fields: Seq<FieldV>,
    pub discriminant: Option<DiscrV>,
}

impl View for Data {
    type V = DataV;

    open spec fn view(&self) -> DataV {
        DataV {
            skip_inner: self.skip_inner@,
            default: self.default.0,
            incomparable: self.incomparable.0,
            ident: self.ident@,
            path: self.path@,
            type_: self.type_,
            is_variant: self.is_variant,
            fields: self.fields@.map_values(|f: Field| f@),
            discriminant: match self.discriminant {
                Some(d) => Some(d@),
                None => None,
            },
        }
    }
}

/// The field `fi` at position `index`.
pub open spec fn spec_field(
    fi: FieldInput,
    index: nat,
    implemented: Seq<Trait>,
    inner: SkipV,
    features: Features,
) -> Result<FieldV, ErrV> {
    match spec_field_attr(fi.attrs@, implemented, inner, features) {
        Err(e) => Err(e),
        Ok(attr) => {
            let member = match fi.ident {
                Some(n) => n@,
                None => decimal(index),
            };
            Ok(
                FieldV {
                    attr,
                    member,
                    self_ident: "__"@ + member,
                    other_ident: "__other_"@ + member,
                    ty: fi.ty@,
                },
            )
        },
    }
}

/// The fields `fis[i..]` appended to `acc`.
pub open spec fn spec_fields(
    acc: Seq<FieldV>,
    fis: Seq<FieldInput>,
    i: int,
    implemented: Seq<Trait>,
    inner: SkipV,
    features: Features,
) -> Result<Seq<FieldV>, ErrV>
    decreases fis.len() - i,
{
    if i < 0 || i >= fis.len() {
        Ok(acc)
    } else {
        match spec_field(fis[i], i as nat, implemented, inner, features) {
            Ok(f) => spec_fields(acc.push(f), fis, i + 1, implemented, inner, features),
            Err(e) => Err(e),
        }
    }
}

/// Creates the fields `fis`, whose parent has the option `skip_inner`.
pub fn fields_from(
    fis: &Vec<FieldInput>,
    implemented: &Vec<Trait>,
    skip_inner: &Skip,
    features: Features,
) -> (r: Result<Vec<Field>, DeriveError>)
    ensures
        match (r, spec_fields(seq![], fis@, 0, implemented@, skip_inner@, features)) {
            (Ok(x), Ok(y)) => x@.map_values(|f: Field| f@) == y,
            (Err(x), Err(y)) => x@ == y,
            _ => false,
        },
{
    let mut out: Vec<Field> = Vec::new();
    let mut i: usize = 0;
    assert(out@.map_values(|f: Field| f@) =~= seq![]);
    while i < fis.len()
        invariant
            i <= fis@.len(),
            spec_fields(seq![], fis@, 0, implemented@, skip_inner@, features) == spec_fields(
                out@.map_values(|f: Field| f@),
                fis@,
                i as int,
                implemented@,
                skip_inner@,
                features,
            ),
        decreases fis.len() - i,
    {
        let fi = &fis[i];
        let attr = match FieldAttr::from_attrs(implemented, skip_inner, &fi.attrs, features) {
            Ok(a) => a,
            Err(e) => {
                return Err(e);
            },
        };
        let member = match &fi.ident {
            Some(n) => n.clone(),
            None => to_decimal(i),
        };
        let mut self_ident = String::from_str("__");
        self_ident.append(member.as_str());
        let mut other_ident = String::from_str("__other_");
        other_ident.append(member.as_str());
        let f = Field { attr, member, self_ident, other_ident, ty: fi.ty.clone() };
        let ghost before = out@.map_values(|f: Field| f@);
        out.push(f);
        assert(out@.map_values(|f: Field| f@) =~= before.push(out@.last()@));
        i = i + 1;
    }
    Ok(out)
}

/// Number of fields written in `fields`.
pub open spec fn fields_len(fields: FieldsInput) -> nat {
    match fields {
        FieldsInput::Named(v) => v@.len(),
        FieldsInput::Unnamed(v) => v@.len(),
        FieldsInput::Unit => 0,
    }
}

/// The data of a struct or union named `ident` at `span`, with the item
/// options `skip_inner` and `incomparable`.
pub open spec fn spec_data_item(
    span: usize,
    implemented: Seq<Trait>,
    skip_inner: SkipV,
    incomparable: Option<usize>,
    ident: Seq<char>,
    fields: FieldsInput,
    union: bool,
    features: Features,
) -> Result<DataV, ErrV> {
    let make = |t: DataType, fs: Seq<FieldV>|
        DataV {
            skip_inner,
            default: true,
            incomparable,
            ident,
            path: ident,
            type_: t,
            is_variant: false,
            fields: fs,
            discriminant: None,
        };
    match fields {
        FieldsInput::Named(v) => if v@.len() == 0 && incomparable is None && !union {
            Err(err(span, msg_item_empty()))
        } else {
            match spec_fields(seq![], v@, 0, implemented, skip_inner, features) {
                Ok(fs) => Ok(
                    make(
                        if union {
                            DataType::Union
                        } else {
                            DataType::Struct
                        },
                        fs,
                    ),
                ),
                Err(e) => Err(e),
            }
        },
        FieldsInput::Unnamed(v) => if v@.len() == 0 && incomparable is None {
            Err(err(span, msg_item_empty()))
        } else {
            match spec_fields(seq![], v@, 0, implemented, skip_inner, features) {
                Ok(fs) => Ok(make(DataType::Tuple, fs)),
                Err(e) => Err(e),
            }
        },
        FieldsInput::Unit => if incomparable is Some {
            Ok(make(DataType::Unit, seq![]))
        } else {
            Err(err(span, msg_item_empty()))
        },
    }
}

/// The data of the variant `v` of the enum `item`; `acc` tells whether an
/// earlier variant has the `default` option.
pub open spec fn spec_data_variant(
    item: Seq<char>,
    implemented: Seq<Trait>,
    acc: bool,
    v: VariantInput,
    features: Features,
) -> Result<(DataV, bool), ErrV> {
    let fields_empty = fields_len(v.fields) == 0;
    match spec_variant_attr(v.attrs@, implemented, acc, fields_empty, v.span, features) {
        Err(e) => Err(e),
        Ok((va, acc2)) => {
            let fs = match v.fields {
                FieldsInput::Named(x) => spec_fields(
                    seq![],
                    x@,
                    0,
                    implemented,
                    va.skip_inner,
                    features,
                ),
                FieldsInput::Unnamed(x) => spec_fields(
                    seq![],
                    x@,
                    0,
                    implemented,
                    va.skip_inner,
                    features,
                ),
                FieldsInput::Unit => Ok(seq![]),
            };
            match fs {
                Err(e) => Err(e),
                Ok(fs) => Ok(
                    (
                        DataV {
                            skip_inner: va.skip_inner,
                            default: va.default,
                            incomparable: va.incomparable,
                            ident: v.ident@,
                            path: item + "::"@ + v.ident@,
                            type_: match v.fields {
                                FieldsInput::Named(_) => DataType::Struct,
                                FieldsInput::Unnamed(_) => DataType::Tuple,
                                FieldsInput::Unit => DataType::Unit,
                            },
                            is_variant: true,
                            fields: fs,
                            discriminant: match v.discriminant {
                                Some(d) => Some(
                                    DiscrV {
                                        text: d.text@,
                                        int_digits: match d.int_digits {
                                            Some(x) => Some(x@),
                                            None => None,
                                        },
                                    },
                                ),
                                None => None,
                            },
                        },
                        acc2,
                    ),
                ),
            }
        },
    }
}

impl Data {
    /// Create the [`Data`] of a struct or union named `ident` at `span`.
    pub fn from_item(
        span: usize,
        implemented: &Vec<Trait>,
        skip_inner: Skip,
        incomparable: Incomparable,
        ident: &String,
        fields: &FieldsInput,
        union: bool,
        features: Features,
    ) -> (r: Result<Data, DeriveError>)
        ensures
            match (
                r,
                spec_data_item(
                    span,
                    implemented@,
                    skip_inner@,
                    incomparable.0,
                    ident@,
                    *fields,
                    union,
                    features,
                ),
            ) {
                (Ok(x), Ok(y)) => x@ == y,
                (Err(x), Err(y)) => x@ == y,
                _ => false,
            },
    {
        let (type_, fs) = match fields {
            FieldsInput::Named(v) => {
                if v.len() == 0 && incomparable.0.is_none() && !union {
                    return Err(Error::item_empty(span));
                }
                let t = if union {
                    DataType::Union
                } else {
                    DataType::Struct
                };
                match fields_from(v, implemented, &skip_inner, features) {
                    Ok(fs) => (t, fs),
                    Err(e) => {
                        return Err(e);
                    },
                }
            },
            FieldsInput::Unnamed(v) => {
                if v.len() == 0 && incomparable.0.is_none() {
                    return Err(Error::item_empty(span));
                }
                match fields_from(v, implemented, &skip_inner, features) {
                    Ok(fs) => (DataType::Tuple, fs),
                    Err(e) => {
                        return Err(e);
                    },
                }
            },
            FieldsInput::Unit => {
                if incomparable.0.is_none() {
                    return Err(Error::item_empty(span));
                }
                let fs: Vec<Field> = Vec::new();
                assert(fs@.map_values(|f: Field| f@) =~= seq![]);
                (DataType::Unit, fs)
            },
        };
        Ok(Data {
            skip_inner,
            default: crate::attr::default::Default(true),
            incomparable,
            ident: ident.clone(),
            path: ident.clone(),
            type_,
            is_variant: false,
            fields: fs,
            discriminant: None,
        })
    }

    /// Create the [`Data`] of the variant `v` of the enum named `item`.
    pub fn from_variant(
        item: &String,
        implemented: &Vec<Trait>,
        accumulated_defaults: &mut crate::attr::default::Default,
        v: &VariantInput,
        features: Features,
    ) -> (r: Result<Data, DeriveError>)
        ensures
            match (
                r,
                spec_data_variant(item@, implemented@, old(accumulated_defaults).0, *v, features),
            ) {
                (Ok(x), Ok((y, a))) => x@ == y && final(accumulated_defaults).0 == a,
                (Err(x), Err(y)) => x@ == y,
                _ => false,
            },
    {
        let fields_empty = match &v.fields {
            FieldsInput::Named(x) => x.len() == 0,
            FieldsInput::Unnamed(x) => x.len() == 0,
            FieldsInput::Unit => true,
        };
        let va = match VariantAttr::from_attrs(
            &v.attrs,
            implemented,
            accumulated_defaults,
            fields_empty,
            v.span,
            features,
        ) {
            Ok(va) => va,
            Err(e) => {
                return Err(e);
            },
        };
        let (type_, fs) = match &v.fields {
            FieldsInput::Named(x) => match fields_from(x, implemented, &va.skip_inner, features) {
                Ok(fs) => (DataType::Struct, fs),
                Err(e) => {
                    return Err(e);
                },
            },
            FieldsInput::Unnamed(x) => match fields_from(
                x,
                implemented,
                &va.skip_inner,
                features,
            ) {
                Ok(fs) => (DataType::Tuple, fs),
                Err(e) => {
                    return Err(e);
                },
            },
            FieldsInput::Unit => {
                let fs: Vec<Field> = Vec::new();
                assert(fs@.map_values(|f: Field| f@) =~= seq![]);
                (DataType::Unit, fs)
            },
        };
        let mut path = item.clone();
        path.append("::");
        path.append(v.ident.as_str());
        let discriminant = match &v.discriminant {
            Some(d) => Some(
                Discr {
                    text: d.text.clone(),
                    int_digits: match &d.int_digits {
                        Some(x) => Some(x.clone()),
                        None => None,
                    },
                },
            ),
            None => None,
        };
        Ok(Data {
            skip_inner: va.skip_inner,
            default: va.default,
            incomparable: va.incomparable,
            ident: v.ident.clone(),
            path,
            type_,
            is_variant: true,
            fields: fs,
            discriminant,
        })
    }
}

/// The fields of `fs` that are not skipped for `t`, whose parent has the
/// option `inner`.
pub open spec fn kept(fs: Seq<FieldV>, inner: SkipV, t: Trait) -> Seq<FieldV>
    decreases fs.len(),
{
    if fs.len() == 0 {
        seq![]
    } else if fs.last().attr.skip.skips(t) || inner.skips(t) {
        kept(fs.drop_last(), inner, t)
    } else {
        kept(fs.drop_last(), inner, t).push(fs.last())
    }
}

impl DataV {
    /// The fields not skipped for `t`.
    pub open spec fn kept(self, t: Trait) -> Seq<FieldV> {
        kept(self.fields, self.skip_inner, t)
    }

    /// All fields are skipped for `t`, or there are none.
    pub open spec fn is_empty(self, t: Trait) -> bool {
        self.kept(t).len() == 0
    }

    /// Some field is skipped for `t`.
    pub open spec fn any_skip_trait(self, t: Trait) -> bool {
        self.skip_inner.skips(t) || exists|i: int|
            0 <= i < self.fields.len() && #[trigger] self.fields[i].attr.skip.skips(t)
    }

    /// Some field uses `Zeroize(fqs)`.
    pub open spec fn any_fqs(self) -> bool {
        exists|i: int| 0 <= i < self.fields.len() && #[trigger] self.fields[i].attr.fqs
    }
}

/// The skip options of a struct, union or variant and of its fields are as
/// accepted attributes leave them: see [`skip_ok`].
pub open spec fn data_skips_ok(d: DataV, implemented: Seq<Trait>) -> bool {
    &&& skip_ok(d.skip_inner, implemented, None)
    &&& forall|k: int|
        0 <= k < d.fields.len() ==> skip_ok(
            (#[trigger] d.fields[k]).attr.skip,
            implemented,
            Some(d.skip_inner),
        )
}

/// Reading the fields `fis[i..]` keeps every skip option [`skip_ok`].
proof fn lemma_fields_skip(
    acc: Seq<FieldV>,
    fis: Seq<FieldInput>,
    i: int,
    implemented: Seq<Trait>,
    inner: SkipV,
    features: Features,
)
    requires
        0 <= i,
        forall|k: int|
            0 <= k < acc.len() ==> skip_ok((#[trigger] acc[k]).attr.skip, implemented, Some(inner)),
    ensures
        spec_fields(acc, fis, i, implemented, inner, features) matches Ok(r) ==> forall|k: int|
            0 <= k < r.len() ==> skip_ok((#[trigger] r[k]).attr.skip, implemented, Some(inner)),
    decreases fis.len() - i,
{
    if i < fis.len() {
        lemma_field_attr_skip(fis[i].attrs@, implemented, inner, features);
        match spec_field(fis[i], i as nat, implemented, inner, features) {
            Ok(f) => {
                let acc2 = acc.push(f);
                assert forall|k: int| 0 <= k < acc2.len() implies skip_ok(
                    (#[trigger] acc2[k]).attr.skip,
                    implemented,
                    Some(inner),
                ) by {
                    if k < acc.len() {
                        assert(acc2[k] == acc[k]);
                    }
                }
                lemma_fields_skip(acc2, fis, i + 1, implemented, inner, features);
            },
            Err(_) => {},
        }
    }
}

/// Every struct or union accepted with the option `skip_inner` has
/// [`data_skips_ok`].
pub proof fn lemma_data_item_skips(
    span: usize,
    implemented: Seq<Trait>,
    skip_inner: SkipV,
    incomparable: Option<usize>,
    ident: Seq<char>,
    fields: FieldsInput,
    union: bool,
    features: Features,
)
    requires
        skip_ok(skip_inner, implemented, None),
    ensures
        spec_data_item(span, implemented, skip_inner, incomparable, ident, fields, union, features) matches Ok(
            d,
        ) ==> data_skips_ok(d, implemented),
{
    match fields {
        FieldsInput::Named(v) => lemma_fields_skip(seq![], v@, 0, implemented, skip_inner, features),
        FieldsInput::Unnamed(v) => lemma_fields_skip(
            seq![],
            v@,
            0,
            implemented,
            skip_inner,
            features,
        ),
        FieldsInput::Unit => {},
    }
}

/// Every accepted variant has [`data_skips_ok`].
pub proof fn lemma_data_variant_skips(
    item: Seq<char>,
    implemented: Seq<Trait>,
    acc: bool,
    v: VariantInput,
    features: Features,
)
    ensures
        spec_data_variant(item, implemented, acc, v, features) matches Ok((d, _)) ==> data_skips_ok(
            d,
            implemented,
        ),
{
    lemma_variant_skip(v.attrs@, implemented, acc, fields_len(v.fields) == 0, v.span, features);
    match spec_variant_attr(v.attrs@, implemented, acc, fields_len(v.fields) == 0, v.span, features) {
        Ok((va, _)) => match v.fields {
            FieldsInput::Named(x) => lemma_fields_skip(
                seq![],
                x@,
                0,
                implemented,
                va.skip_inner,
                features,
            ),
            FieldsInput::Unnamed(x) => lemma_fields_skip(
                seq![],
                x@,
                0,
                implemented,
                va.skip_inner,
                features,
            ),
            FieldsInput::Unit => {},
        },
        Err(_) => {},
    }
}

/// The fields used for `t` (compared, hashed, printed or zeroized) are
/// exactly those not skipped for `t`, in their order.
pub proof fn lemma_kept_is_filter(fs: Seq<FieldV>, inner: SkipV, t: Trait)
    ensures
        kept(fs, inner, t) == fs.filter(|f: FieldV| !(f.attr.skip.skips(t) || inner.skips(t))),
    decreases fs.len(),
{
    reveal(Seq::filter);
    if fs.len() > 0 {
        lemma_kept_is_filter(fs.drop_last(), inner, t);
    }
}

/// The kept fields of `x` followed by `s`.
pub proof fn lemma_kept_cons(x: FieldV, s: Seq<FieldV>, inner: SkipV, t: Trait)
    ensures
        kept(seq![x] + s, inner, t) == if x.attr.skip.skips(t) || inner.skips(t) {
            kept(s, inner, t)
        } else {
            seq![x] + kept(s, inner, t)
        },
    decreases s.len(),
{
    let u = seq![x] + s;
    if s.len() == 0 {
        assert(u =~= seq![x]);
        assert(u.drop_last() =~= Seq::<FieldV>::empty());
        assert(kept(u.drop_last(), inner, t) =~= Seq::<FieldV>::empty());
        assert(kept(s, inner, t) =~= Seq::<FieldV>::empty());
        assert(seq![x] + kept(s, inner, t) =~= seq![x]);
        assert(Seq::<FieldV>::empty().push(x) =~= seq![x]);
    } else {
        assert(u.drop_last() =~= seq![x] + s.drop_last());
        assert(u.last() == s.last());
        lemma_kept_cons(x, s.drop_last(), inner, t);
        if !(x.attr.skip.skips(t) || inner.skips(t)) {
            assert((seq![x] + kept(s.drop_last(), inner, t)).push(s.last()) =~= seq![x] + kept(
                s.drop_last(),
                inner,
                t,
            ).push(s.last()));
        }
    }
}

/// A field's own skip or its parent's covers `t`.
pub proof fn lemma_kept_len(fs: Seq<FieldV>, inner: SkipV, t: Trait)
    ensures
        kept(fs, inner, t).len() <= fs.len(),
        (kept(fs, inner, t).len() == 0) == (forall|i: int|
            0 <= i < fs.len() ==> #[trigger] fs[i].attr.skip.skips(t) || inner.skips(t)),
    decreases fs.len(),
{
    if fs.len() > 0 {
        lemma_kept_len(fs.drop_last(), inner, t);
        assert forall|i: int| 0 <= i < fs.len() - 1 implies #[trigger] fs.drop_last()[i] == fs[i] by {}
        if kept(fs, inner, t).len() == 0 {
            assert forall|i: int| 0 <= i < fs.len() implies #[trigger] fs[i].attr.skip.skips(t)
                || inner.skips(t) by {
                if i < fs.len() - 1 {
                    assert(fs.drop_last()[i] == fs[i]);
                }
            }
        }
    }
}

impl Data {
    /// Returns `true` if the field at `i` is skipped for `t`.
    pub fn field_skip(&self, i: usize, t: Trait) -> (b: bool)
        requires
            i < self@.fields.len(),
        ensures
            b == (self@.fields[i as int].attr.skip.skips(t) || self@.skip_inner.skips(t)),
    {
        self.fields[i].attr.skip.skip(&t) || self.skip_inner.skip(&t)
    }

    /// Returns `true` if all fields are skipped for `t`, or there are none.
    pub fn is_empty(&self, t: Trait) -> (b: bool)
        ensures
            b == self@.is_empty(t),
    {
        proof {
            lemma_kept_len(self@.fields, self@.skip_inner, t);
        }
        let mut i: usize = 0;
        while i < self.fields.len()
            invariant
                i <= self@.fields.len(),
                forall|k: int|
                    0 <= k < i ==> #[trigger] self@.fields[k].attr.skip.skips(t)
                        || self@.skip_inner.skips(t),
            decreases self.fields.len() - i,
        {
            if !self.field_skip(i, t) {
                assert(!(self@.fields[i as int].attr.skip.skips(t) || self@.skip_inner.skips(t)));
                proof {
                    lemma_kept_len(self@.fields, self@.skip_inner, t);
                }
                return false;
            }
            i = i + 1;
        }
        true
    }

    /// Returns `true` if any field is skipped for `t`.
    pub fn any_skip_trait(&self, t: Trait) -> (b: bool)
        ensures
            b == self@.any_skip_trait(t),
    {
        if self.skip_inner.skip(&t) {
            return true;
        }
        let mut i: usize = 0;
        while i < self.fields.len()
            invariant
                i <= self@.fields.len(),
                forall|k: int| 0 <= k < i ==> !(#[trigger] self@.fields[k].attr.skip.skips(t)),
            decreases self.fields.len() - i,
        {
            if self.fields[i].attr.skip.skip(&t) {
                assert(self@.fields[i as int].attr.skip.skips(t));
                return true;
            }
            i = i + 1;
        }
        false
    }

    /// Returns `true` if any field uses `Zeroize(fqs)`.
    pub fn any_fqs(&self) -> (b: bool)
        ensures
            b == self@.any_fqs(),
    {
        let mut i: usize = 0;
        while i < self.fields.len()
            invariant
                i <= self@.fields.len(),
                forall|k: int| 0 <= k < i ==> !(#[trigger] self@.fields[k].attr.fqs),
            decreases self.fields.len() - i,
        {
            if self.fields[i].attr.zeroize_fqs.0 {
                assert(self@.fields[i as int].attr.fqs);
                return true;
            }
            i = i + 1;
        }
        false
    }

    /// Returns `true` if this compares unequal to everything.
    pub fn is_incomparable(&self) -> (b: bool)
        ensures
            b == (self@.incomparable is Some),
    {
        self.incomparable.0.is_some()
    }

    /// Returns `true` if this is used by `Default`.
    pub fn is_default(&self) -> (b: bool)
        ensures
            b == self@.default,
    {
        self.default.0
    }
}

} // verus!
