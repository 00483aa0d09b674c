//! The smaller pieces of the library, used directly.

use derive_where::attr::generic::{generic_answers, Generic};
use derive_where::attr::item::path_answer;
use derive_where::attr::skip::{Skip, SkipGroup};
use derive_where::syntax::{Answer, Query, Reads};
use derive_where::error::Error;
use derive_where::util::{join_strings, str_eq, to_decimal, Either};
use derive_where::{Features, Trait};

fn all() -> Features {
    Features { nightly: false, safe: false, zeroize: true, zeroize_on_drop: false }
}

#[test]
fn skip_nothing() {
    let s = Skip::Nothing;
    assert!(s.is_none());
    assert!(!s.any_skip());
    assert!(!s.skip(&Trait::Debug));
}

#[test]
fn skip_all_covers_skippable_traits_only() {
    let s = Skip::All;
    assert!(!s.is_none());
    assert!(s.any_skip());
    for t in [
        Trait::Debug,
        Trait::Hash,
        Trait::Ord,
        Trait::PartialEq,
        Trait::PartialOrd,
        Trait::Zeroize,
        Trait::ZeroizeOnDrop,
    ] {
        assert!(s.skip(&t));
    }
    for t in [Trait::Clone, Trait::Copy, Trait::Default] {
        assert!(!s.skip(&t));
    }
}

#[test]
fn skip_listed_traits() {
    let s = Skip::Traits(vec![SkipGroup::Debug, SkipGroup::Hash]);
    assert!(s.any_skip());
    assert!(s.skip(&Trait::Debug));
    assert!(s.skip(&Trait::Hash));
    assert!(!s.skip(&Trait::PartialEq));
    let e = Skip::Traits(vec![SkipGroup::EqHashOrd]);
    for t in [Trait::Eq, Trait::Hash, Trait::Ord, Trait::PartialEq, Trait::PartialOrd] {
        assert!(e.skip(&t));
    }
    assert!(!e.skip(&Trait::Debug));
    let z = Skip::Traits(vec![SkipGroup::Zeroize]);
    assert!(z.skip(&Trait::Zeroize) && z.skip(&Trait::ZeroizeOnDrop));
}

#[test]
fn trait_names_round_trip() {
    for t in [
        Trait::Clone,
        Trait::Copy,
        Trait::Debug,
        Trait::Default,
        Trait::Eq,
        Trait::Hash,
        Trait::Ord,
        Trait::PartialEq,
        Trait::PartialOrd,
        Trait::Zeroize,
        Trait::ZeroizeOnDrop,
    ] {
        assert!(Trait::from_name(t.as_str(), all()) == Some(t));
    }
    assert!(Trait::from_name("Display", all()).is_none());
    let plain = Features { nightly: false, safe: false, zeroize: false, zeroize_on_drop: false };
    assert!(Trait::from_name("Zeroize", plain).is_none());
}

#[test]
fn trait_capabilities() {
    assert!(Trait::Clone.supports_union());
    assert!(Trait::Copy.supports_union());
    assert!(!Trait::Debug.supports_union());
    assert!(Trait::Debug.supports_skip());
    assert!(!Trait::Clone.supports_skip());
}

#[test]
fn trait_list() {
    assert_eq!(
        Error::trait_list(all()),
        "Clone, Copy, Debug, Default, Eq, Hash, Ord, PartialEq, PartialOrd, Zeroize, ZeroizeOnDrop"
    );
    let plain = Features { nightly: false, safe: false, zeroize: false, zeroize_on_drop: false };
    assert_eq!(
        Error::trait_list(plain),
        "Clone, Copy, Debug, Default, Eq, Hash, Ord, PartialEq, PartialOrd"
    );
}

#[test]
fn error_messages_with_arguments() {
    assert_eq!(Error::option_duplicate(3, "crate").message, "duplicate `crate` option");
    assert_eq!(Error::option_duplicate(3, "crate").span, 3);
    assert_eq!(Error::options(1, "Clone").message, "`Clone` doesn't support any options");
    assert_eq!(Error::path(2, "found `1`").message, "expected path, found `1`");
}

#[test]
fn decimal_text() {
    assert_eq!(to_decimal(0), "0");
    assert_eq!(to_decimal(7), "7");
    assert_eq!(to_decimal(120), "120");
    assert_eq!(to_decimal(18446744073709551615), "18446744073709551615");
}

#[test]
fn join_and_compare() {
    let items = vec!["a".to_string(), "bc".to_string(), "d".to_string()];
    assert_eq!(join_strings(&items, ", "), "a, bc, d");
    assert_eq!(join_strings(&Vec::new(), ", "), "");
    assert!(str_eq("abc", "abc"));
    assert!(!str_eq("abc", "abd"));
    let e: Either<u8, bool> = Either::Left(1);
    assert!(matches!(e, Either::Left(1)));
}

#[test]
fn skip_default_is_nothing() {
    assert!(<Skip as Default>::default().is_none());
}

#[test]
fn path_answer_builds_path_or_error() {
    let ok = path_answer(
        Answer::Path { leading_colon: true, segments: vec!["zeroize_".to_string(), "x".to_string()] },
        4,
    )
    .ok()
    .unwrap();
    assert!(ok.leading_colon);
    assert_eq!(ok.segments, vec!["zeroize_".to_string(), "x".to_string()]);
    assert_eq!(ok.span, 4);
    let e = path_answer(Answer::Refused { message: "unexpected end of input".to_string() }, 2)
        .err()
        .unwrap();
    assert_eq!(e.message, "expected path, unexpected end of input");
    assert_eq!(e.span, 2);
}

#[test]
fn generic_answers_follow_predicate_then_type() {
    let custom = generic_answers(
        "T : Copy".to_string(),
        None,
        1,
        Answer::Predicate { bounds_type: true },
        Answer::Type,
    );
    assert!(matches!(custom, Ok(Generic::CustomBound { ref text }) if text == "T : Copy"));
    let lifetime = generic_answers(
        "'a : 'b".to_string(),
        None,
        1,
        Answer::Predicate { bounds_type: false },
        Answer::Type,
    );
    assert_eq!(lifetime.err().unwrap().message, "only type predicates are supported");
    let plain = generic_answers(
        "T".to_string(),
        Some("T".to_string()),
        1,
        Answer::Refused { message: String::new() },
        Answer::Type,
    );
    assert!(matches!(plain, Ok(Generic::NoBound { ref ident, .. }) if ident.as_deref() == Some("T")));
    let bad = generic_answers(
        "1".to_string(),
        None,
        5,
        Answer::Refused { message: String::new() },
        Answer::Refused { message: "expected type".to_string() },
    );
    let e = bad.err().unwrap();
    assert_eq!(e.message, "expected type to bind to, expected type");
    assert_eq!(e.span, 5);
}

#[test]
fn reads_ask_each_query_once() {
    let mut reads = Reads::new();
    let a = reads.read(&Query::Path("a::b".to_string()));
    let b = reads.read(&Query::Path("a::b".to_string()));
    assert_eq!(reads.entries.len(), 1);
    match (a, b) {
        (Answer::Path { leading_colon: l1, segments: s1 }, Answer::Path { leading_colon: l2, segments: s2 }) => {
            assert!(!l1 && !l2);
            assert_eq!(s1, vec!["a".to_string(), "b".to_string()]);
            assert_eq!(s1, s2);
        }
        _ => panic!("`a::b` is a path"),
    }
    let t = reads.read(&Query::Type("1".to_string()));
    assert!(matches!(t, Answer::Refused { ref message } if !message.is_empty()));
    let p = reads.read(&Query::Predicate("'a: 'b".to_string()));
    assert!(matches!(p, Answer::Predicate { bounds_type: false }));
    assert_eq!(reads.entries.len(), 3);
}

#[test]
fn reads_plain_identifiers_and_bounds() {
    let mut reads = Reads::new();
    assert!(matches!(reads.read(&Query::Type("T".to_string())), Answer::Type));
    assert!(matches!(reads.read(&Query::Predicate("T".to_string())), Answer::Refused { .. }));
    assert!(matches!(
        reads.read(&Query::Predicate("T : Copy".to_string())),
        Answer::Predicate { bounds_type: true }
    ));
    match reads.read(&Query::Path("zeroize_".to_string())) {
        Answer::Path { leading_colon, segments } => {
            assert!(!leading_colon);
            assert_eq!(segments, vec!["zeroize_".to_string()]);
        }
        _ => panic!("`zeroize_` is a path"),
    }
    assert!(matches!(reads.read(&Query::Type("fn".to_string())), Answer::Refused { .. }));
}
