//! Fields or variants of the annotated item.

use vstd::prelude::*;

use crate::attr::incomparable::Incomparable;
use crate::data::{Data, DataType, DataV};
use crate::trait_::Trait;

verus! {

/// How the discriminants of an enum's variants can be compared.
pub enum Discriminant {
    /// At most one variant.
    Single,
    /// Only unit variants, default representation.
    UnitDefault,
    /// Only unit variants, with the given `repr` integer type.
    UnitRepr(String),
    /// Some variant has fields, default representation.
    Unknown,
    /// Some variant has fields, with the given `repr` integer type.
    Repr(String),
}

/// Mathematical value of a [`Discriminant`].
pub enum DiscriminantV {
    Single,
    UnitDefault,
    UnitRepr(Seq<char>),
    Unknown,
    Repr(Seq<char>),
}

impl View for Discriminant {
    type V = DiscriminantV;

    open spec fn view(&self) -> DiscriminantV {
        match self {
            Discriminant::Single => DiscriminantV::Single,
            Discriminant::UnitDefault => DiscriminantV::UnitDefault,
            Discriminant::UnitRepr(r) => DiscriminantV::UnitRepr(r@),
            Discriminant::Unknown => DiscriminantV::Unknown,
            Discriminant::Repr(r) => DiscriminantV::Repr(r@),
        }
    }
}

/// Fields or variants of an item.
pub enum Item {
    /// Enum.
    Enum {
        /// Name of this enum.
        ident: String,
        /// `incomparable` option of this enum.
        incomparable: Incomparable,
        /// How discriminants compare.
        discriminant: Discriminant,
        /// Variants of this enum.
        variants: Vec<Data>,
    },
    /// Struct, tuple struct or union.
    Item(Data),
}

/// Mathematical value of an [`Item`].
pub enum ItemV {
    Enum {
        ident: Seq<char>,
        incomparable: Option<usize>,
        discriminant: DiscriminantV,
        variants: Seq<DataV>,
    },
    Item(DataV),
}

impl View for Item {
    type V = ItemV;

    open spec fn view(&self) -> ItemV {
        match self {
            Item::Enum { ident, incomparable, discriminant, variants } => ItemV::Enum {
                ident: ident@,
                incomparable: incomparable.0,
                discriminant: discriminant@,
                variants: variants@.map_values(|d: Data| d@),
            },
            Item::Item(d) => ItemV::Item(d@),
        }
    }
}

impl ItemV {
    /// Name of the item.
    pub open spec fn ident(self) -> Seq<char> {
        match self {
            ItemV::Enum { ident, .. } => ident,
            ItemV::Item(d) => d.ident,
        }
    }

    /// An enum's discriminants need comparing exactly when it has more
    /// than one variant, and no variant is a union.
    pub open spec fn wf(self) -> bool {
        match self {
            ItemV::Enum { discriminant, variants, .. } => (discriminant is Single) == (
            variants.len() <= 1) && forall|i: int|
                0 <= i < variants.len() ==> (#[trigger] variants[i]).type_ != DataType::Union,
            ItemV::Item(_) => true,
        }
    }

    /// Some field is skipped for `t`.
    pub open spec fn any_skip_trait(self, t: Trait) -> bool {
        match self {
            ItemV::Enum { variants, .. } => exists|i: int|
                0 <= i < variants.len() && #[trigger] variants[i].any_skip_trait(t),
            ItemV::Item(d) => d.any_skip_trait(t),
        }
    }

    /// Some field uses `Zeroize(fqs)`.
    pub open spec fn any_fqs(self) -> bool {
        match self {
            ItemV::Enum { variants, .. } => exists|i: int|
                0 <= i < variants.len() && #[trigger] variants[i].any_fqs(),
            ItemV::Item(d) => d.any_fqs(),
        }
    }

    /// All fields of all variants are skipped for `t`, or there are none.
    pub open spec fn is_empty(self, t: Trait) -> bool {
        match self {
            ItemV::Enum { variants, .. } => forall|i: int|
                0 <= i < variants.len() ==> #[trigger] variants[i].is_empty(t),
            ItemV::Item(d) => d.is_empty(t),
        }
    }

    /// The item is incomparable, or it has variants and all of them are.
    pub open spec fn is_incomparable(self) -> bool {
        match self {
            ItemV::Enum { variants, incomparable, .. } => incomparable is Some || (variants.len()
                > 0 && forall|i: int|
                0 <= i < variants.len() ==> #[trigger] variants[i].incomparable is Some),
            ItemV::Item(d) => d.incomparable is Some,
        }
    }
}

impl Item {
    /// Returns the name of this [`Item`].
    pub fn ident(&self) -> (r: &String)
        ensures
            r@ == self@.ident(),
    {
        match self {
            Item::Item(data) => &data.ident,
            Item::Enum { ident, .. } => ident,
        }
    }

    /// Returns `true` if this [`Item`] is an enum.
    pub fn is_enum(&self) -> (b: bool)
        ensures
            b == (self@ is Enum),
    {
        match self {
            Item::Enum { .. } => true,
            Item::Item(_) => false,
        }
    }

    /// Returns `true` if any field is skipped with that [`Trait`].
    pub fn any_skip_trait(&self, t: Trait) -> (b: bool)
        ensures
            b == self@.any_skip_trait(t),
    {
        match self {
            Item::Item(data) => data.any_skip_trait(t),
            Item::Enum { variants, .. } => {
                let mut i: usize = 0;
                while i < variants.len()
                    invariant
                        i <= variants@.len(),
                        self@ == (ItemV::Enum {
                            ident: self@->Enum_ident,
                            incomparable: self@->Enum_incomparable,
                            discriminant: self@->Enum_discriminant,
                            variants: variants@.map_values(|d: Data| d@),
                        }),
                        forall|k: int| 0 <= k < i ==> !(#[trigger] variants@[k]@.any_skip_trait(t)),
                    decreases variants.len() - i,
                {
                    if variants[i].any_skip_trait(t) {
                        assert(self@->Enum_variants[i as int].any_skip_trait(t));
                        return true;
                    }
                    i = i + 1;
                }
                proof {
                    let vs = self@->Enum_variants;
                    assert forall|k: int| 0 <= k < vs.len() implies !(#[trigger] vs[k].any_skip_trait(t)) by {
                        assert(vs[k] == variants@[k]@);
                    }
                }
                false
            },
        }
    }

    /// Returns `true` if any field uses `Zeroize(fqs)`.
    pub fn any_fqs(&self) -> (b: bool)
        ensures
            b == self@.any_fqs(),
    {
        match self {
            Item::Item(data) => data.any_fqs(),
            Item::Enum { variants, .. } => {
                let mut i: usize = 0;
                while i < variants.len()
                    invariant
                        i <= variants@.len(),
                        self@ == (ItemV::Enum {
                            ident: self@->Enum_ident,
                            incomparable: self@->Enum_incomparable,
                            discriminant: self@->Enum_discriminant,
                            variants: variants@.map_values(|d: Data| d@),
                        }),
                        forall|k: int| 0 <= k < i ==> !(#[trigger] variants@[k]@.any_fqs()),
                    decreases variants.len() - i,
                {
                    if variants[i].any_fqs() {
                        assert(self@->Enum_variants[i as int].any_fqs());
                        return true;
                    }
                    i = i + 1;
                }
                proof {
                    let vs = self@->Enum_variants;
                    assert forall|k: int| 0 <= k < vs.len() implies !(#[trigger] vs[k].any_fqs()) by {
                        assert(vs[k] == variants@[k]@);
                    }
                }
                false
            },
        }
    }

    /// Returns `true` if all fields are empty for this [`Trait`].
    pub fn is_empty(&self, t: Trait) -> (b: bool)
        ensures
            b == self@.is_empty(t),
    {
        match self {
            Item::Item(data) => data.is_empty(t),
            Item::Enum { variants, .. } => {
                let mut i: usize = 0;
                while i < variants.len()
                    invariant
                        i <= variants@.len(),
                        self@ == (ItemV::Enum {
                            ident: self@->Enum_ident,
                            incomparable: self@->Enum_incomparable,
                            discriminant: self@->Enum_discriminant,
                            variants: variants@.map_values(|d: Data| d@),
                        }),
                        forall|k: int| 0 <= k < i ==> #[trigger] variants@[k]@.is_empty(t),
                    decreases variants.len() - i,
                {
                    if !variants[i].is_empty(t) {
                        assert(!self@->Enum_variants[i as int].is_empty(t));
                        return false;
                    }
                    i = i + 1;
                }
                proof {
                    let vs = self@->Enum_variants;
                    assert forall|k: int| 0 <= k < vs.len() implies #[trigger] vs[k].is_empty(t) by {
                        assert(vs[k] == variants@[k]@);
                    }
                }
                true
            },
        }
    }

    /// Returns `true` if the item is incomparable or all (at least one)
    /// variants are.
    pub fn is_incomparable(&self) -> (b: bool)
        ensures
            b == self@.is_incomparable(),
    {
        match self {
            Item::Item(data) => data.is_incomparable(),
            Item::Enum { variants, incomparable, .. } => {
                if incomparable.0.is_some() {
                    return true;
                }
                if variants.len() == 0 {
                    return false;
                }
                let mut i: usize = 0;
                while i < variants.len()
                    invariant
                        i <= variants@.len(),
                        self@ == (ItemV::Enum {
                            ident: self@->Enum_ident,
                            incomparable: self@->Enum_incomparable,
                            discriminant: self@->Enum_discriminant,
                            variants: variants@.map_values(|d: Data| d@),
                        }),
                        self@->Enum_incomparable is None,
                        forall|k: int| 0 <= k < i ==> (#[trigger] variants@[k]@).incomparable is Some,
                    decreases variants.len() - i,
                {
                    if !variants[i].is_incomparable() {
                        assert(!(self@->Enum_variants[i as int].incomparable is Some));
                        return false;
                    }
                    i = i + 1;
                }
                proof {
                    let vs = self@->Enum_variants;
                    assert forall|k: int| 0 <= k < vs.len() implies (#[trigger] vs[k]).incomparable is Some by {
                        assert(vs[k] == variants@[k]@);
                    }
                }
                true
            },
        }
    }
}

} // verus!
