//! The traits that can be derived, their names and capabilities.

pub mod clone;
pub mod common_ord;
pub mod copy;
pub mod debug;
pub mod default;
pub mod eq;
pub mod hash;
pub mod ord;
pub mod partial_eq;
pub mod partial_ord;
pub mod zeroize;
pub mod zeroize_on_drop;

use vstd::prelude::*;

use crate::util::str_eq;

verus! {

/// Crate features that change what is accepted and what is generated.
#[derive(Clone, Copy, PartialEq, Eq, Structural)]
pub struct Features {
    /// Compare discriminants with `core::intrinsics::discriminant_value`.
    pub nightly: bool,
    /// Never generate `unsafe` code.
    pub safe: bool,
    /// Allow deriving `Zeroize` and `ZeroizeOnDrop`.
    pub zeroize: bool,
    /// Implement `ZeroizeOnDrop` instead of only `Drop`.
    pub zeroize_on_drop: bool,
}

/// A trait that can be derived.
#[derive(Clone, Copy, PartialEq, Eq, Structural)]
pub enum Trait {
    /// `Clone`.
    Clone,
    /// `Copy`.
    Copy,
    /// `Debug`.
    Debug,
    /// `Default`.
    Default,
    /// `Eq`.
    Eq,
    /// `Hash`.
    Hash,
    /// `Ord`.
    Ord,
    /// `PartialEq`.
    PartialEq,
    /// `PartialOrd`.
    PartialOrd,
    /// `Zeroize`.
    Zeroize,
    /// `ZeroizeOnDrop`.
    ZeroizeOnDrop,
}

impl Trait {
    /// The name of the trait as written in an attribute.
    pub open spec fn name(self) -> Seq<char> {
        match self {
            Trait::Clone => "Clone"@,
            Trait::Copy => "Copy"@,
            Trait::Debug => "Debug"@,
            Trait::Default => "Default"@,
            Trait::Eq => "Eq"@,
            Trait::Hash => "Hash"@,
            Trait::Ord => "Ord"@,
            Trait::PartialEq => "PartialEq"@,
            Trait::PartialOrd => "PartialOrd"@,
            Trait::Zeroize => "Zeroize"@,
            Trait::ZeroizeOnDrop => "ZeroizeOnDrop"@,
        }
    }

    /// Whether the trait is available with the given features.
    pub open spec fn enabled(self, features: Features) -> bool {
        (self is Zeroize || self is ZeroizeOnDrop) ==> features.zeroize
    }

    /// Whether fields can be skipped for this trait.
    pub open spec fn skippable(self) -> bool {
        match self {
            Trait::Debug | Trait::Hash | Trait::Ord | Trait::PartialEq | Trait::PartialOrd
            | Trait::Zeroize | Trait::ZeroizeOnDrop => true,
            _ => false,
        }
    }

    /// Whether the trait can be derived for unions.
    pub open spec fn unionable(self) -> bool {
        self is Clone || self is Copy
    }

    /// [`str`] representation of this [`Trait`].
    pub fn as_str(&self) -> (s: &'static str)
        ensures
            s@ == self.name(),
    {
        match self {
            Trait::Clone => "Clone",
            Trait::Copy => "Copy",
            Trait::Debug => "Debug",
            Trait::Default => "Default",
            Trait::Eq => "Eq",
            Trait::Hash => "Hash",
            Trait::Ord => "Ord",
            Trait::PartialEq => "PartialEq",
            Trait::PartialOrd => "PartialOrd",
            Trait::Zeroize => "Zeroize",
            Trait::ZeroizeOnDrop => "ZeroizeOnDrop",
        }
    }

    /// Returns if [`Trait`] supports skipping fields.
    pub fn supports_skip(&self) -> (b: bool)
        ensures
            b == self.skippable(),
    {
        match self {
            Trait::Debug | Trait::Hash | Trait::Ord | Trait::PartialEq | Trait::PartialOrd
            | Trait::Zeroize | Trait::ZeroizeOnDrop => true,
            _ => false,
        }
    }

    /// Returns if [`Trait`] can be implemented for unions.
    pub fn supports_union(&self) -> (b: bool)
        ensures
            b == self.unionable(),
    {
        match self {
            Trait::Clone | Trait::Copy => true,
            _ => false,
        }
    }

    /// Finds the trait named `name`, among those that `features` enable.
    pub fn from_name(name: &str, features: Features) -> (r: Option<Trait>)
        ensures
            r == trait_named(name@, features),
    {
        if str_eq(name, "Clone") {
            Some(Trait::Clone)
        } else if str_eq(name, "Copy") {
            Some(Trait::Copy)
        } else if str_eq(name, "Debug") {
            Some(Trait::Debug)
        } else if str_eq(name, "Default") {
            Some(Trait::Default)
        } else if str_eq(name, "Eq") {
            Some(Trait::Eq)
        } else if str_eq(name, "Hash") {
            Some(Trait::Hash)
        } else if str_eq(name, "Ord") {
            Some(Trait::Ord)
        } else if str_eq(name, "PartialEq") {
            Some(Trait::PartialEq)
        } else if str_eq(name, "PartialOrd") {
            Some(Trait::PartialOrd)
        } else if features.zeroize && str_eq(name, "Zeroize") {
            Some(Trait::Zeroize)
        } else if features.zeroize && str_eq(name, "ZeroizeOnDrop") {
            Some(Trait::ZeroizeOnDrop)
        } else {
            None
        }
    }
}

/// The trait whose name is `name`, if it is one that `features` enable.
pub open spec fn trait_named(name: Seq<char>, features: Features) -> Option<Trait> {
    if name == "Clone"@ {
        Some(Trait::Clone)
    } else if name == "Copy"@ {
        Some(Trait::Copy)
    } else if name == "Debug"@ {
        Some(Trait::Debug)
    } else if name == "Default"@ {
        Some(Trait::Default)
    } else if name == "Eq"@ {
        Some(Trait::Eq)
    } else if name == "Hash"@ {
        Some(Trait::Hash)
    } else if name == "Ord"@ {
        Some(Trait::Ord)
    } else if name == "PartialEq"@ {
        Some(Trait::PartialEq)
    } else if name == "PartialOrd"@ {
        Some(Trait::PartialOrd)
    } else if features.zeroize && name == "Zeroize"@ {
        Some(Trait::Zeroize)
    } else if features.zeroize && name == "ZeroizeOnDrop"@ {
        Some(Trait::ZeroizeOnDrop)
    } else {
        None
    }
}

/// Every enabled trait is found again by its name, and a name finds only the
/// trait that carries it, among the enabled ones.
pub proof fn lemma_trait_name_roundtrip(t: Trait, name: Seq<char>, features: Features)
    ensures
        t.enabled(features) ==> trait_named(t.name(), features) == Some(t),
        trait_named(name, features) == Some(t) ==> t.name() == name && t.enabled(features),
{
    reveal_strlit("Clone");
    reveal_strlit("Copy");
    reveal_strlit("Debug");
    reveal_strlit("Default");
    reveal_strlit("Eq");
    reveal_strlit("Hash");
    reveal_strlit("Ord");
    reveal_strlit("PartialEq");
    reveal_strlit("PartialOrd");
    reveal_strlit("Zeroize");
    reveal_strlit("ZeroizeOnDrop");
    let names = seq![
        "Clone"@, "Copy"@, "Debug"@, "Default"@, "Eq"@, "Hash"@, "Ord"@, "PartialEq"@,
        "PartialOrd"@, "Zeroize"@, "ZeroizeOnDrop"@,
    ];
    assert forall|i: int, j: int| 0 <= i < j < 11 implies names[i] != names[j] by {
        if names[i].len() == names[j].len() {
            assert(names[i][0] != names[j][0] || names[i][1] != names[j][1]
                || names[i][2] != names[j][2] || names[i][7] != names[j][7]);
        }
    }
}

} // verus!

verus! {

impl Trait {
    /// The trait named by `path`, which must be a single identifier.
    pub open spec fn spec_from_path(path: crate::meta::PathV, features: Features) -> Result<
        Trait,
        crate::error::ErrV,
    > {
        match path.get_ident() {
            Some(name) => match trait_named(name, features) {
                Some(t) => Ok(t),
                None => Err(crate::error::err(path.span, crate::error::msg_trait_(features))),
            },
            None => Err(crate::error::err(path.span, crate::error::msg_trait_(features))),
        }
    }

    /// Create [`Trait`] from a path.
    pub fn from_path(path: &crate::meta::MetaPath, features: Features) -> (r: Result<
        Trait,
        crate::error::DeriveError,
    >)
        ensures
            match (r, Self::spec_from_path(path@, features)) {
                (Ok(a), Ok(b)) => a == b,
                (Err(a), Err(b)) => a@ == b,
                _ => false,
            },
    {
        if !path.leading_colon && path.segments.len() == 1 {
            match Trait::from_name(path.segments[0].as_str(), features) {
                Some(t) => Ok(t),
                None => Err(crate::error::Error::trait_(path.span, features)),
            }
        } else {
            Err(crate::error::Error::trait_(path.span, features))
        }
    }
}

/// `traits` holds `t`.
pub fn contains_trait(traits: &Vec<Trait>, t: Trait) -> (b: bool)
    ensures
        b == traits@.contains(t),
{
    let mut i: usize = 0;
    while i < traits.len()
        invariant
            i <= traits.len(),
            forall|j: int| 0 <= j < i ==> traits@[j] != t,
        decreases traits.len() - i,
    {
        if traits[i] == t {
            return true;
        }
        i = i + 1;
    }
    false
}

/// Some trait in `traits` supports skipping.
pub open spec fn any_skippable(traits: Seq<Trait>) -> bool {
    exists|i: int| 0 <= i < traits.len() && traits[i].skippable()
}

/// Checks [`any_skippable`].
pub fn any_supports_skip(traits: &Vec<Trait>) -> (b: bool)
    ensures
        b == any_skippable(traits@),
{
    let mut i: usize = 0;
    while i < traits.len()
        invariant
            i <= traits.len(),
            forall|j: int| 0 <= j < i ==> !traits@[j].skippable(),
        decreases traits.len() - i,
    {
        if traits[i].supports_skip() {
            return true;
        }
        i = i + 1;
    }
    false
}

} // verus!
