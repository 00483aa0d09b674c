//! Error messages of the macro.

use vstd::prelude::*;

use crate::trait_::{lemma_trait_name_roundtrip, trait_named, Features, Trait};
use crate::util::join;

verus! {

/// An error to report at a source location.
pub struct DeriveError {
    /// Location the error points at.
    pub span: usize,
    /// Message shown to the user.
    pub message: String,
}

/// Mathematical value of a [`DeriveError`].
pub struct ErrV {
    /// Location the error points at.
    pub span: usize,
    /// Message shown to the user.
    pub message: Seq<char>,
}

impl View for DeriveError {
    type V = ErrV;

    open spec fn view(&self) -> ErrV {
        ErrV { span: self.span, message: self.message@ }
    }
}

/// The error at `span` with message `message`.
pub open spec fn err(span: usize, message: Seq<char>) -> ErrV {
    ErrV { span, message }
}

/// Joins three pieces of text.
pub fn concat3(a: &str, b: &str, c: &str) -> (s: String)
    ensures
        s@ == a@ + b@ + c@,
{
    let mut s = String::from_str(a);
    s.append(b);
    s.append(c);
    s
}

/// Joins two pieces of text.
pub fn concat2(a: &str, b: &str) -> (s: String)
    ensures
        s@ == a@ + b@,
{
    let mut s = String::from_str(a);
    s.append(b);
    s
}

/// The list of traits offered in messages about unsupported traits.
pub open spec fn trait_list_text(features: Features) -> Seq<char> {
    if features.zeroize {
        "Clone, Copy, Debug, Default, Eq, Hash, Ord, PartialEq, PartialOrd, Zeroize, ZeroizeOnDrop"@
    } else {
        "Clone, Copy, Debug, Default, Eq, Hash, Ord, PartialEq, PartialOrd"@
    }
}

/// The list of skip groups offered in messages about unknown groups.
pub open spec fn skip_group_list_text(features: Features) -> Seq<char> {
    if features.zeroize {
        "Debug, EqHashOrd, Hash, Zeroize"@
    } else {
        "Debug, EqHashOrd, Hash"@
    }
}

/// Message of [`Error::skip_group`].
pub open spec fn msg_skip_group(features: Features) -> Seq<char> {
    "unsupported skip group, expected one of "@ + skip_group_list_text(features)
}

/// The traits that `features` enable, in the order messages list them.
pub open spec fn listed_traits(features: Features) -> Seq<Trait> {
    let base = seq![
        Trait::Clone,
        Trait::Copy,
        Trait::Debug,
        Trait::Default,
        Trait::Eq,
        Trait::Hash,
        Trait::Ord,
        Trait::PartialEq,
        Trait::PartialOrd,
    ];
    if features.zeroize {
        base + seq![Trait::Zeroize, Trait::ZeroizeOnDrop]
    } else {
        base
    }
}

/// The list of traits offered in messages names each enabled trait once,
/// in a fixed order, and exactly the names that are read as traits.
pub proof fn lemma_trait_list(features: Features)
    ensures
        trait_list_text(features) == join(
            listed_traits(features).map_values(|t: Trait| t.name()),
            ", "@,
        ),
        listed_traits(features).no_duplicates(),
        forall|k: int|
            0 <= k < listed_traits(features).len() ==> trait_named(
                (#[trigger] listed_traits(features)[k]).name(),
                features,
            ) == Some(listed_traits(features)[k]),
        forall|name: Seq<char>|
            (#[trigger] trait_named(name, features)) is Some ==> listed_traits(features).contains(
                trait_named(name, features)->Some_0,
            ) && trait_named(name, features)->Some_0.name() == name,
{
    reveal_strlit("Clone");
    reveal_strlit("Copy");
    reveal_strlit("Debug");
    reveal_strlit("Default");
    reveal_strlit("Eq");
    reveal_strlit("Hash");
    reveal_strlit("Ord");
    reveal_strlit("PartialEq");
    reveal_strlit("PartialOrd");
    reveal_strlit("Zeroize");
    reveal_strlit("ZeroizeOnDrop");
    reveal_strlit(", ");
    reveal_strlit("Clone, Copy, Debug, Default, Eq, Hash, Ord, PartialEq, PartialOrd, Zeroize, ZeroizeOnDrop");
    reveal_strlit("Clone, Copy, Debug, Default, Eq, Hash, Ord, PartialEq, PartialOrd");
    reveal_with_fuel(join, 12);
    let ls = listed_traits(features);
    let names = ls.map_values(|t: Trait| t.name());
    assert(trait_list_text(features) =~= join(names, ", "@));
    assert forall|k: int| 0 <= k < ls.len() implies trait_named(
        (#[trigger] ls[k]).name(),
        features,
    ) == Some(ls[k]) by {
        lemma_trait_name_roundtrip(ls[k], ls[k].name(), features);
    }
    assert forall|name: Seq<char>|
        (#[trigger] trait_named(name, features)) is Some implies ls.contains(
            trait_named(name, features)->Some_0,
        ) && trait_named(name, features)->Some_0.name() == name by {
        let t = trait_named(name, features)->Some_0;
        lemma_trait_name_roundtrip(t, name, features);
        let k = match t {
            Trait::Clone => 0int,
            Trait::Copy => 1,
            Trait::Debug => 2,
            Trait::Default => 3,
            Trait::Eq => 4,
            Trait::Hash => 5,
            Trait::Ord => 6,
            Trait::PartialEq => 7,
            Trait::PartialOrd => 8,
            Trait::Zeroize => 9,
            Trait::ZeroizeOnDrop => 10,
        };
        assert(ls[k] == t);
    }
}

/// Message of [`Error::visited`].
pub open spec fn msg_visited() -> Seq<char> {
    "`#[derive_where(..)]` was already applied to this item before, this occurs when using a qualified path for any `#[derive_where(..)]`s except the first"@
}

/// Message of [`Error::none`].
pub open spec fn msg_none() -> Seq<char> {
    "no traits found to implement, use `#[derive_where(..)` to specify some"@
}

/// Message of [`Error::empty`].
pub open spec fn msg_empty() -> Seq<char> {
    "empty `derive_where` found"@
}

/// Message of [`Error::item`].
pub open spec fn msg_item() -> Seq<char> {
    "derive-where doesn't support items without generics, `skip` attributes or `enum`s implementing `Default`, as this can already be handled by standard `#[derive(..)]`"@
}

/// Message of [`Error::generics`].
pub open spec fn msg_generics() -> Seq<char> {
    "derive-where doesn't support items with the same generic type parameters as the item, as this can already be handled by standard `#[derive(..)]`"@
}

/// Message of [`Error::item_empty`].
pub open spec fn msg_item_empty() -> Seq<char> {
    "derive-where doesn't support empty items, as this can already be handled by standard `#[derive(..)]`"@
}

/// Message of [`Error::union`].
pub open spec fn msg_union() -> Seq<char> {
    "traits other then `Clone` and `Copy` aren't supported by unions"@
}

/// Message of [`Error::option`].
pub open spec fn msg_option() -> Seq<char> {
    "unknown option"@
}

/// Message of [`Error::option_syntax`].
pub open spec fn msg_option_syntax() -> Seq<char> {
    "unexpected option syntax"@
}

/// Message of [`Error::option_empty`].
pub open spec fn msg_option_empty() -> Seq<char> {
    "empty attribute option found"@
}

/// Message of [`Error::option_enum_skip_inner`].
pub open spec fn msg_option_enum_skip_inner() -> Seq<char> {
    "enums don't support `skip_inner`, use it on a variant instead"@
}

/// Message of [`Error::option_skip_inner`].
pub open spec fn msg_option_skip_inner() -> Seq<char> {
    "unexpected `skip` on a field when parent already uses `skip_inner` with this trait"@
}

/// Message of [`Error::option_skip_empty`].
pub open spec fn msg_option_skip_empty() -> Seq<char> {
    "no fields to skip"@
}

/// Message of [`Error::option_skip_all`].
pub open spec fn msg_option_skip_all() -> Seq<char> {
    "unexpected constraint on `skip` when unconstrained `skip` already used"@
}

/// Message of [`Error::option_skip_no_trait`].
pub open spec fn msg_option_skip_no_trait() -> Seq<char> {
    "no trait that can be skipped is being implemented"@
}

/// Message of [`Error::option_skip_trait`].
pub open spec fn msg_option_skip_trait() -> Seq<char> {
    "no trait to skip found"@
}

/// Message of [`Error::derive_where_delimiter`].
pub open spec fn msg_derive_where_delimiter() -> Seq<char> {
    "expected `;` or `,"@
}

/// Message of [`Error::generic`].
pub open spec fn msg_generic() -> Seq<char> {
    "only type predicates are supported"@
}

/// Message of [`Error::default`].
pub open spec fn msg_default() -> Seq<char> {
    "`default` is only supported if `Default` is being implemented"@
}

/// Message of [`Error::default_missing`].
pub open spec fn msg_default_missing() -> Seq<char> {
    "required `default` option on a variant if `Default` is being implemented"@
}

/// Message of [`Error::default_duplicate`].
pub open spec fn msg_default_duplicate() -> Seq<char> {
    "multiple `default` options in enum"@
}

/// Message of [`Error::incomparable`].
pub open spec fn msg_incomparable() -> Seq<char> {
    "`incomparable` is only supported if `PartialEq` or `PartialOrd` is being implemented"@
}

/// Message of [`Error::non_partial_incomparable`].
pub open spec fn msg_non_partial_incomparable() -> Seq<char> {
    "`incomparable` is not supported if `Eq` or `Ord` is being implemented"@
}

/// Message of [`Error::option_trait`].
pub open spec fn msg_option_trait(attribute: Seq<char>) -> Seq<char> {
    "`"@ + attribute + "` doesn't support this option"@
}

/// Message of [`Error::options`].
pub open spec fn msg_options(trait_: Seq<char>) -> Seq<char> {
    "`"@ + trait_ + "` doesn't support any options"@
}

/// Message of [`Error::option_required`].
pub open spec fn msg_option_required(option: Seq<char>) -> Seq<char> {
    "`"@ + option + "` requires an option"@
}

/// Message of [`Error::option_duplicate`].
pub open spec fn msg_option_duplicate(option: Seq<char>) -> Seq<char> {
    "duplicate `"@ + option + "` option"@
}

/// Message of [`Error::option_skip_duplicate`].
pub open spec fn msg_option_skip_duplicate(trait_: Seq<char>) -> Seq<char> {
    "duplicate `"@ + trait_ + "` constraint on `skip`"@
}

/// Message of [`Error::option_skip_support`].
pub open spec fn msg_option_skip_support(trait_: Seq<char>) -> Seq<char> {
    "unsupported `"@ + trait_ + "` constraint on `skip`"@
}

/// Message of [`Error::path_unnecessary`].
pub open spec fn msg_path_unnecessary(path: Seq<char>) -> Seq<char> {
    "unnecessary path qualification, `"@ + path + "` is used by default"@
}

/// Message of [`Error::path`].
pub open spec fn msg_path(reason: Seq<char>) -> Seq<char> {
    "expected path, "@ + reason
}

/// Message of [`Error::generic_syntax`].
pub open spec fn msg_generic_syntax(reason: Seq<char>) -> Seq<char> {
    "expected type to bind to, "@ + reason
}

/// Message of [`Error::trait_`].
pub open spec fn msg_trait_(features: Features) -> Seq<char> {
    "unsupported trait, expected one of expected one of "@ + trait_list_text(features)
}

/// Message of [`Error::trait_syntax`].
pub open spec fn msg_trait_syntax(features: Features) -> Seq<char> {
    "unsupported trait syntax, expected one of expected one of "@ + trait_list_text(features)
}

/// Easy API to create all error messages in this crate.
pub struct Error;

impl Error {
    /// No `derive_where` with [`Trait`] found.
    pub fn none(span: usize) -> (e: DeriveError)
        ensures
            e@ == err(span, msg_none()),
    {
        DeriveError { span, message: String::from_str("no traits found to implement, use `#[derive_where(..)` to specify some") }
    }

    /// Unsupported empty `derive_where` on item.
    pub fn empty(span: usize) -> (e: DeriveError)
        ensures
            e@ == err(span, msg_empty()),
    {
        DeriveError { span, message: String::from_str("empty `derive_where` found") }
    }

    /// Item has no use-case because it's covered by standard `#[derive(..)]`.
    pub fn item(span: usize) -> (e: DeriveError)
        ensures
            e@ == err(span, msg_item()),
    {
        DeriveError { span, message: String::from_str("derive-where doesn't support items without generics, `skip` attributes or `enum`s implementing `Default`, as this can already be handled by standard `#[derive(..)]`") }
    }

    /// Using the same generic type parameters as the item is unsupported, because it's covered by standard `#[derive(..)]`.
    pub fn generics(span: usize) -> (e: DeriveError)
        ensures
            e@ == err(span, msg_generics()),
    {
        DeriveError { span, message: String::from_str("derive-where doesn't support items with the same generic type parameters as the item, as this can already be handled by standard `#[derive(..)]`") }
    }

    /// Unsupported empty item.
    pub fn item_empty(span: usize) -> (e: DeriveError)
        ensures
            e@ == err(span, msg_item_empty()),
    {
        DeriveError { span, message: String::from_str("derive-where doesn't support empty items, as this can already be handled by standard `#[derive(..)]`") }
    }

    /// Unsupported trait for union.
    pub fn union(span: usize) -> (e: DeriveError)
        ensures
            e@ == err(span, msg_union()),
    {
        DeriveError { span, message: String::from_str("traits other then `Clone` and `Copy` aren't supported by unions") }
    }

    /// Unsupported option in attribute.
    pub fn option(span: usize) -> (e: DeriveError)
        ensures
            e@ == err(span, msg_option()),
    {
        DeriveError { span, message: String::from_str("unknown option") }
    }

    /// Invalid syntax for an option in attribute.
    pub fn option_syntax(span: usize) -> (e: DeriveError)
        ensures
            e@ == err(span, msg_option_syntax()),
    {
        DeriveError { span, message: String::from_str("unexpected option syntax") }
    }

    /// Unsupported empty list of options.
    pub fn option_empty(span: usize) -> (e: DeriveError)
        ensures
            e@ == err(span, msg_option_empty()),
    {
        DeriveError { span, message: String::from_str("empty attribute option found") }
    }

    /// Unsupported `skip_inner` on an enum.
    pub fn option_enum_skip_inner(span: usize) -> (e: DeriveError)
        ensures
            e@ == err(span, msg_option_enum_skip_inner()),
    {
        DeriveError { span, message: String::from_str("enums don't support `skip_inner`, use it on a variant instead") }
    }

    /// Unexpected `skip` on a field when `skip_inner` is already used on the item or variant with this [`Trait`].
    pub fn option_skip_inner(span: usize) -> (e: DeriveError)
        ensures
            e@ == err(span, msg_option_skip_inner()),
    {
        DeriveError { span, message: String::from_str("unexpected `skip` on a field when parent already uses `skip_inner` with this trait") }
    }

    /// Unsupported `skip_inner` on empty variant.
    pub fn option_skip_empty(span: usize) -> (e: DeriveError)
        ensures
            e@ == err(span, msg_option_skip_empty()),
    {
        DeriveError { span, message: String::from_str("no fields to skip") }
    }

    /// Unexpected constrained field skipping when configured to skip all traits anyway.
    pub fn option_skip_all(span: usize) -> (e: DeriveError)
        ensures
            e@ == err(span, msg_option_skip_all()),
    {
        DeriveError { span, message: String::from_str("unexpected constraint on `skip` when unconstrained `skip` already used") }
    }

    /// Unconstrained `skip` when no trait being implemented supports skipping.
    pub fn option_skip_no_trait(span: usize) -> (e: DeriveError)
        ensures
            e@ == err(span, msg_option_skip_no_trait()),
    {
        DeriveError { span, message: String::from_str("no trait that can be skipped is being implemented") }
    }

    /// No relevant trait to `skip` found.
    pub fn option_skip_trait(span: usize) -> (e: DeriveError)
        ensures
            e@ == err(span, msg_option_skip_trait()),
    {
        DeriveError { span, message: String::from_str("no trait to skip found") }
    }

    /// Invalid delimiter in `derive_where` attribute for [`Trait`]s.
    pub fn derive_where_delimiter(span: usize) -> (e: DeriveError)
        ensures
            e@ == err(span, msg_derive_where_delimiter()),
    {
        DeriveError { span, message: String::from_str("expected `;` or `,") }
    }

    /// Unsupported predicate type in `derive_where` attribute for where clause.
    pub fn generic(span: usize) -> (e: DeriveError)
        ensures
            e@ == err(span, msg_generic()),
    {
        DeriveError { span, message: String::from_str("only type predicates are supported") }
    }

    /// Unsupported default option if `Default` isn't implemented.
    pub fn default(span: usize) -> (e: DeriveError)
        ensures
            e@ == err(span, msg_default()),
    {
        DeriveError { span, message: String::from_str("`default` is only supported if `Default` is being implemented") }
    }

    /// Missing `default` option on a variant when `Default` is implemented for an enum.
    pub fn default_missing(span: usize) -> (e: DeriveError)
        ensures
            e@ == err(span, msg_default_missing()),
    {
        DeriveError { span, message: String::from_str("required `default` option on a variant if `Default` is being implemented") }
    }

    /// Multiple `default` options in one enum.
    pub fn default_duplicate(span: usize) -> (e: DeriveError)
        ensures
            e@ == err(span, msg_default_duplicate()),
    {
        DeriveError { span, message: String::from_str("multiple `default` options in enum") }
    }

    /// Unsupported `incomparable` if neither `PartialEq` nor `PartialOrd` is implemented.
    pub fn incomparable(span: usize) -> (e: DeriveError)
        ensures
            e@ == err(span, msg_incomparable()),
    {
        DeriveError { span, message: String::from_str("`incomparable` is only supported if `PartialEq` or `PartialOrd` is being implemented") }
    }

    /// Unsupported `incomparable` if `Eq` or `Ord` is implemented.
    pub fn non_partial_incomparable(span: usize) -> (e: DeriveError)
        ensures
            e@ == err(span, msg_non_partial_incomparable()),
    {
        DeriveError { span, message: String::from_str("`incomparable` is not supported if `Eq` or `Ord` is being implemented") }
    }

    /// Unsupported option for this trait.
    pub fn option_trait(span: usize, attribute: &str) -> (e: DeriveError)
        ensures
            e@ == err(span, msg_option_trait(attribute@)),
    {
        DeriveError { span, message: concat3("`", attribute, "` doesn't support this option") }
    }

    /// Unsupported options for a trait without options.
    pub fn options(span: usize, trait_: &str) -> (e: DeriveError)
        ensures
            e@ == err(span, msg_options(trait_@)),
    {
        DeriveError { span, message: concat3("`", trait_, "` doesn't support any options") }
    }

    /// Missing sub-option for an option.
    pub fn option_required(span: usize, option: &str) -> (e: DeriveError)
        ensures
            e@ == err(span, msg_option_required(option@)),
    {
        DeriveError { span, message: concat3("`", option, "` requires an option") }
    }

    /// Duplicate option in attribute.
    pub fn option_duplicate(span: usize, option: &str) -> (e: DeriveError)
        ensures
            e@ == err(span, msg_option_duplicate(option@)),
    {
        DeriveError { span, message: concat3("duplicate `", option, "` option") }
    }

    /// Duplicate trait constraint on `skip`.
    pub fn option_skip_duplicate(span: usize, trait_: &str) -> (e: DeriveError)
        ensures
            e@ == err(span, msg_option_skip_duplicate(trait_@)),
    {
        DeriveError { span, message: concat3("duplicate `", trait_, "` constraint on `skip`") }
    }

    /// Unsupported trait in `skip` constraint.
    pub fn option_skip_support(span: usize, trait_: &str) -> (e: DeriveError)
        ensures
            e@ == err(span, msg_option_skip_support(trait_@)),
    {
        DeriveError { span, message: concat3("unsupported `", trait_, "` constraint on `skip`") }
    }

    /// Invalid value for the `crate` option.
    pub fn path(span: usize, reason: &str) -> (e: DeriveError)
        ensures
            e@ == err(span, msg_path(reason@)),
    {
        DeriveError { span, message: concat2("expected path, ", reason) }
    }

    /// Unnecessary `crate` option naming the default path.
    pub fn path_unnecessary(span: usize, path: &str) -> (e: DeriveError)
        ensures
            e@ == err(span, msg_path_unnecessary(path@)),
    {
        DeriveError { span, message: concat3("unnecessary path qualification, `", path, "` is used by default") }
    }

    /// Invalid syntax in `derive_where` attribute for generics.
    pub fn generic_syntax(span: usize, reason: &str) -> (e: DeriveError)
        ensures
            e@ == err(span, msg_generic_syntax(reason@)),
    {
        DeriveError { span, message: concat2("expected type to bind to, ", reason) }
    }

    /// Unsupported [`Trait`](crate::Trait).
    pub fn trait_(span: usize, features: Features) -> (e: DeriveError)
        ensures
            e@ == err(span, msg_trait_(features)),
    {
        let list = Self::trait_list(features);
        DeriveError {
            span,
            message: concat2("unsupported trait, expected one of expected one of ", list),
        }
    }

    /// Invalid syntax for a [`Trait`](crate::Trait).
    pub fn trait_syntax(span: usize, features: Features) -> (e: DeriveError)
        ensures
            e@ == err(span, msg_trait_syntax(features)),
    {
        let list = Self::trait_list(features);
        DeriveError {
            span,
            message: concat2("unsupported trait syntax, expected one of expected one of ", list),
        }
    }

    /// The item was expanded before.
    pub fn visited(span: usize) -> (e: DeriveError)
        ensures
            e@ == err(span, msg_visited()),
    {
        DeriveError {
            span,
            message: String::from_str(
                "`#[derive_where(..)]` was already applied to this item before, this occurs when using a qualified path for any `#[derive_where(..)]`s except the first",
            ),
        }
    }

    /// Unknown group of traits in a `skip` option.
    pub fn skip_group(span: usize, features: Features) -> (e: DeriveError)
        ensures
            e@ == err(span, msg_skip_group(features)),
    {
        let list = if features.zeroize {
            "Debug, EqHashOrd, Hash, Zeroize"
        } else {
            "Debug, EqHashOrd, Hash"
        };
        DeriveError { span, message: concat2("unsupported skip group, expected one of ", list) }
    }

    /// List of available [`Trait`](crate::Trait)s.
    pub fn trait_list(features: Features) -> (s: &'static str)
        ensures
            s@ == trait_list_text(features),
    {
        if features.zeroize {
            "Clone, Copy, Debug, Default, Eq, Hash, Ord, PartialEq, PartialOrd, Zeroize, ZeroizeOnDrop"
        } else {
            "Clone, Copy, Debug, Default, Eq, Hash, Ord, PartialEq, PartialOrd"
        }
    }
}

} // verus!
