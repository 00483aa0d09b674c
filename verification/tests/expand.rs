//! Expansions of whole items, compared token by token.

use derive_where::model::{
    Attr, AttrArgs, DataInput, Delim, DiscriminantInput, FieldInput, FieldsInput,
    GenericParamInput, GenericsInput, ItemInput, Lit, LitKind, Tok, VariantInput,
};
use derive_where::attr::item::{DeriveTrait, ItemAttr, ItemKind};
use derive_where::attr::skip::Skip;
use derive_where::syntax::Reads;
use derive_where::{derive_where_internal, Features};
use proc_macro2::{Delimiter, Spacing, TokenStream, TokenTree};
use quote::ToTokens;

/// Features the expansions below are written for.
fn features() -> Features {
    Features { nightly: false, safe: false, zeroize: true, zeroize_on_drop: false }
}

fn next(n: &mut usize) -> usize {
    *n += 1;
    *n
}

fn toks(ts: TokenStream, n: &mut usize) -> Vec<Tok> {
    ts.into_iter().map(|tt| tok(tt, n)).collect()
}

fn tok(tt: TokenTree, n: &mut usize) -> Tok {
    match tt {
        TokenTree::Ident(i) => Tok::Ident { name: i.to_string(), span: next(n) },
        TokenTree::Punct(p) => Tok::Punct {
            ch: p.as_char(),
            text: p.as_char().to_string(),
            joint: p.spacing() == Spacing::Joint,
            span: next(n),
        },
        TokenTree::Literal(l) => {
            let text = l.to_string();
            let kind = match syn::Lit::new(l) {
                syn::Lit::Str(s) => LitKind::Str(s.value()),
                syn::Lit::Int(i) => LitKind::Int(i.base10_digits().to_string()),
                _ => LitKind::Other,
            };
            Tok::Literal { lit: Lit { text, kind }, span: next(n) }
        }
        TokenTree::Group(g) => {
            let delim = match g.delimiter() {
                Delimiter::Parenthesis => Delim::Paren,
                Delimiter::Bracket => Delim::Bracket,
                Delimiter::Brace => Delim::Brace,
                Delimiter::None => Delim::Invisible,
            };
            let span = next(n);
            Tok::Group { delim, inner: toks(g.stream(), n), span }
        }
    }
}

fn attrs(list: &[syn::Attribute], n: &mut usize) -> Vec<Attr> {
    list.iter()
        .map(|a| {
            let path = a.path();
            let args = match &a.meta {
                syn::Meta::Path(_) => AttrArgs::Empty,
                syn::Meta::List(l) => AttrArgs::List(toks(l.tokens.clone(), n)),
                syn::Meta::NameValue(_) => AttrArgs::NameValue,
            };
            Attr {
                leading_colon: path.leading_colon.is_some(),
                path: path.segments.iter().map(|s| s.ident.to_string()).collect(),
                args,
                span: next(n),
            }
        })
        .collect()
}

fn fields(f: &syn::Fields, n: &mut usize) -> FieldsInput {
    let one = |f: &syn::Field, n: &mut usize| FieldInput {
        attrs: attrs(&f.attrs, n),
        ident: f.ident.as_ref().map(|i| i.to_string()),
        ty: f.ty.to_token_stream().to_string(),
    };
    match f {
        syn::Fields::Named(x) => FieldsInput::Named(x.named.iter().map(|f| one(f, n)).collect()),
        syn::Fields::Unnamed(x) => {
            FieldsInput::Unnamed(x.unnamed.iter().map(|f| one(f, n)).collect())
        }
        syn::Fields::Unit => FieldsInput::Unit,
    }
}

fn named(f: &syn::FieldsNamed, n: &mut usize) -> FieldsInput {
    fields(&syn::Fields::Named(f.clone()), n)
}

/// Reads the item in `src` as the library's input.
fn item(src: &str) -> ItemInput {
    let input: syn::DeriveInput = syn::parse_str(src).unwrap();
    let mut n = 0;
    let item_attrs = attrs(&input.attrs, &mut n);
    let params = input
        .generics
        .params
        .iter()
        .map(|p| match p {
            syn::GenericParam::Type(t) => GenericParamInput::Type(t.ident.to_string()),
            syn::GenericParam::Lifetime(_) => GenericParamInput::Lifetime,
            syn::GenericParam::Const(_) => GenericParamInput::Const,
        })
        .collect();
    let (imp, ty, _) = input.generics.split_for_impl();
    let generics = GenericsInput {
        params,
        impl_generics: imp.to_token_stream().to_string(),
        type_generics: ty.to_token_stream().to_string(),
        where_clause: input.generics.where_clause.as_ref().map(|w| {
            w.predicates.iter().map(|p| p.to_token_stream().to_string()).collect()
        }),
    };
    let data = match &input.data {
        syn::Data::Struct(s) => DataInput::Struct(fields(&s.fields, &mut n)),
        syn::Data::Union(u) => DataInput::Union(named(&u.fields, &mut n)),
        syn::Data::Enum(e) => DataInput::Enum(
            e.variants
                .iter()
                .map(|v| VariantInput {
                    attrs: attrs(&v.attrs, &mut n),
                    ident: v.ident.to_string(),
                    fields: fields(&v.fields, &mut n),
                    discriminant: v.discriminant.as_ref().map(|(_, e)| DiscriminantInput {
                        text: e.to_token_stream().to_string(),
                        int_digits: match e {
                            syn::Expr::Lit(syn::ExprLit { lit: syn::Lit::Int(i), .. }) => {
                                Some(i.base10_digits().to_string())
                            }
                            _ => None,
                        },
                    }),
                    span: next(&mut n),
                })
                .collect(),
        ),
    };
    ItemInput { attrs: item_attrs, ident: input.ident.to_string(), generics, data, span: 0 }
}

fn normalize(src: &str) -> String {
    src.parse::<TokenStream>().unwrap().to_string()
}

/// Expands `input` and compares with `expected`, token by token.
fn test_derive(input: &str, expected: &str) {
    let out = match derive_where_internal(&item(input), features()) {
        Ok(out) => out,
        Err(e) => panic!("expansion failed: {}", e.message),
    };
    assert_eq!(normalize(&out), normalize(expected));
}

/// The message of the error that expanding `input` gives.
fn error_of(input: &str, features: Features) -> String {
    match derive_where_internal(&item(input), features) {
        Ok(out) => panic!("expansion succeeded: {}", out),
        Err(e) => e.message,
    }
}

const DISC: &str = "let __self_disc = ::core::mem::discriminant(self); let __other_disc = ::core::mem::discriminant(__other);";

#[test]
fn bound_bound() {
    test_derive(
        "#[derive_where(Clone; T)] struct Test<T, U>(T, core::marker::PhantomData<U>);",
        "impl<T, U> ::core::clone::Clone for Test<T, U>
        where T: ::core::clone::Clone
        {
            #[inline]
            fn clone(&self) -> Self {
                match self {
                    Test(ref __0, ref __1) => Test(::core::clone::Clone::clone(__0), ::core::clone::Clone::clone(__1)),
                }
            }
        }",
    );
}

#[test]
fn bound_multiple() {
    test_derive(
        "#[derive_where(Clone; T, U)] struct Test<T, U, V>((T, U), core::marker::PhantomData<V>);",
        "impl<T, U, V> ::core::clone::Clone for Test<T, U, V>
        where
            T: ::core::clone::Clone,
            U: ::core::clone::Clone
        {
            #[inline]
            fn clone(&self) -> Self {
                match self {
                    Test(ref __0, ref __1) => Test(::core::clone::Clone::clone(__0), ::core::clone::Clone::clone(__1)),
                }
            }
        }",
    );
}

#[test]
fn custom_bound() {
    test_derive(
        "#[derive_where(Clone; T: Copy)] struct Test<T>(T);",
        "impl<T> ::core::clone::Clone for Test<T>
        where T: Copy
        {
            #[inline]
            fn clone(&self) -> Self {
                match self {
                    Test(ref __0) => Test(::core::clone::Clone::clone(__0)),
                }
            }
        }",
    );
}

#[test]
fn where_() {
    test_derive(
        "#[derive_where(Clone; T)] struct Test<T, U>(T, core::marker::PhantomData<U>) where T: core::fmt::Debug;",
        "impl<T, U> ::core::clone::Clone for Test<T, U>
        where
            T: core::fmt::Debug,
            T: ::core::clone::Clone
        {
            #[inline]
            fn clone(&self) -> Self {
                match self {
                    Test(ref __0, ref __1) => Test(::core::clone::Clone::clone(__0), ::core::clone::Clone::clone(__1)),
                }
            }
        }",
    );
}

#[test]
fn associated_type() {
    test_derive(
        "#[derive_where(Clone; <T as core::ops::Deref>::Target)] struct Test<T>(<T as core::ops::Deref>::Target);",
        "impl<T> ::core::clone::Clone for Test<T>
        where <T as core::ops::Deref>::Target: ::core::clone::Clone
        {
            #[inline]
            fn clone(&self) -> Self {
                match self {
                    Test(ref __0) => Test(::core::clone::Clone::clone(__0)),
                }
            }
        }",
    );
}

#[test]
fn associated_type_custom_bound() {
    test_derive(
        "#[derive_where(Clone; <T as core::ops::Deref>::Target: Copy)] struct Test<T>(<T as core::ops::Deref>::Target);",
        "impl<T> ::core::clone::Clone for Test<T>
        where <T as core::ops::Deref>::Target: Copy
        {
            #[inline]
            fn clone(&self) -> Self {
                match self {
                    Test(ref __0) => Test(::core::clone::Clone::clone(__0)),
                }
            }
        }",
    );
}

/// `partial_cmp` of an enum with the incomparable variant `inc`, whose
/// other variants are all unit variants, with the given comparison of
/// discriminants.
fn unit_partial_ord(inc: &str, order: &str) -> String {
    format!(
        "impl ::core::cmp::PartialOrd for Test {{
            #[inline]
            fn partial_cmp(&self, __other: &Self) -> ::core::option::Option<::core::cmp::Ordering> {{
                if ::core::matches!(self, {inc}) || ::core::matches!(__other, {inc}) {{
                    return ::core::option::Option::None;
                }}
                {DISC}
                if __self_disc == __other_disc {{
                    ::core::option::Option::Some(::core::cmp::Ordering::Equal)
                }} else {{
                    {order}
                }}
            }}
        }}"
    )
}

#[test]
fn clone() {
    let expected = format!(
        "impl ::core::clone::Clone for Test {{
            #[inline]
            fn clone(&self) -> Self {{
                match self {{
                    Test::A => Test::A,
                    Test::B => Test::B,
                    Test::C => Test::C,
                }}
            }}
        }}
        {}",
        unit_partial_ord(
            "Test::C",
            "::core::cmp::PartialOrd::partial_cmp(&(self.clone() as isize), &(__other.clone() as isize))",
        )
    );
    test_derive(
        "#[derive_where(Clone, PartialOrd)] enum Test { A, B, #[derive_where(incomparable)] C }",
        &expected,
    );
}

#[test]
fn copy() {
    let expected = format!(
        "impl ::core::marker::Copy for Test {{ }}
        {}",
        unit_partial_ord(
            "Test::C",
            "::core::cmp::PartialOrd::partial_cmp(&(*self as isize), &(*__other as isize))",
        )
    );
    test_derive(
        "#[derive_where(Copy, PartialOrd)] enum Test { A, B, #[derive_where(incomparable)] C }",
        &expected,
    );
}

#[test]
fn reverse() {
    test_derive(
        "#[derive_where(PartialOrd)] enum Test { A = 2, B = 1, #[derive_where(incomparable)] C = 0 }",
        &unit_partial_ord(
            "Test::C",
            "fn __discriminant(__this: &Test) -> isize {
                match __this {
                    Test::A => 2,
                    Test::B => 1,
                    Test::C => 0
                }
            }

            ::core::cmp::PartialOrd::partial_cmp(&__discriminant(self), &__discriminant(__other))",
        ),
    );
}

#[test]
fn mix() {
    test_derive(
        "#[derive_where(PartialOrd)] enum Test { A = 1, B = 0, C = 2, #[derive_where(incomparable)] D }",
        &unit_partial_ord(
            "Test::D",
            "fn __discriminant(__this: &Test) -> isize {
                match __this {
                    Test::A => 1,
                    Test::B => 0,
                    Test::C => 2,
                    Test::D => (2) + 1
                }
            }

            ::core::cmp::PartialOrd::partial_cmp(&__discriminant(self), &__discriminant(__other))",
        ),
    );
}

#[test]
fn skip() {
    test_derive(
        "#[derive_where(PartialOrd)] enum Test { A, B = 3, C, #[derive_where(incomparable)] E, }",
        &unit_partial_ord(
            "Test::E",
            "fn __discriminant(__this: &Test) -> isize {
                match __this {
                    Test::A => 0,
                    Test::B => 3,
                    Test::C => (3) + 1,
                    Test::E => (3) + 2
                }
            }

            ::core::cmp::PartialOrd::partial_cmp(&__discriminant(self), &__discriminant(__other))",
        ),
    );
}

#[test]
fn expr() {
    test_derive(
        "#[derive_where(PartialOrd)] enum Test { A = isize::MAX - 2, B, #[derive_where(incomparable)] C, }",
        &unit_partial_ord(
            "Test::C",
            "fn __discriminant(__this: &Test) -> isize {
                match __this {
                    Test::A => isize::MAX - 2,
                    Test::B => (isize::MAX - 2) + 1,
                    Test::C => (isize::MAX - 2) + 2
                }
            }

            ::core::cmp::PartialOrd::partial_cmp(&__discriminant(self), &__discriminant(__other))",
        ),
    );
}

const REPR_U64: &str = "::core::cmp::PartialOrd::partial_cmp(
    &unsafe { *<*const _>::from(self).cast::<u64>() },
    &unsafe { *<*const _>::from(__other).cast::<u64>() },
)";

#[test]
fn repr() {
    test_derive(
        "#[derive_where(PartialOrd)] #[repr(u64)] enum Test { A, B, #[derive_where(incomparable)] C, }",
        &unit_partial_ord("Test::C", REPR_U64),
    );
}

#[test]
fn repr_clone() {
    let expected = format!(
        "impl ::core::clone::Clone for Test {{
            #[inline]
            fn clone(&self) -> Self {{
                match self {{
                    Test::A => Test::A,
                    Test::B => Test::B,
                    Test::C => Test::C,
                }}
            }}
        }}
        {}",
        unit_partial_ord("Test::C", REPR_U64)
    );
    test_derive(
        "#[derive_where(Clone, PartialOrd)] #[repr(u64)] enum Test { A, B, #[derive_where(incomparable)] C, }",
        &expected,
    );
}

#[test]
fn repr_copy() {
    let expected = format!(
        "impl ::core::marker::Copy for Test {{ }}
        {}",
        unit_partial_ord("Test::C", REPR_U64)
    );
    test_derive(
        "#[derive_where(Copy, PartialOrd)] #[repr(u64)] enum Test { A, B, #[derive_where(incomparable)] C, }",
        &expected,
    );
}

#[test]
fn repr_reverse() {
    test_derive(
        "#[derive_where(PartialOrd)] #[repr(u64)] enum Test { A = 2, B = 1, #[derive_where(incomparable)] C = 0, }",
        &unit_partial_ord("Test::C", REPR_U64),
    );
}

#[test]
fn repr_mix() {
    test_derive(
        "#[derive_where(PartialOrd)] #[repr(u64)] enum Test { A = 1, B = 0, C = 2, #[derive_where(incomparable)] D, }",
        &unit_partial_ord("Test::D", REPR_U64),
    );
}

#[test]
fn repr_skip() {
    test_derive(
        "#[derive_where(PartialOrd)] #[repr(u64)] enum Test { A, B = 3, C, #[derive_where(incomparable)] E, }",
        &unit_partial_ord("Test::E", REPR_U64),
    );
}

#[test]
fn repr_expr() {
    test_derive(
        "#[derive_where(PartialOrd)] #[repr(u64)] enum Test { A = u64::MAX - 2, B, #[derive_where(incomparable)] C, }",
        &unit_partial_ord("Test::C", REPR_U64),
    );
}

#[test]
fn variants() {
    test_derive(
        "#[derive_where(PartialEq, PartialOrd)]
        enum Test{
            A,
            #[derive_where(incomparable)]
            B(Box<dyn Fn()>),
            C(String),
            #[derive_where(incomparable)]
            D,
            #[derive_where(incomparable)]
            E { test: u8 }
        }",
        "impl ::core::cmp::PartialEq for Test {
            #[inline]
            fn eq(&self, __other: &Self) -> bool {
                if ::core::mem::discriminant(self) == ::core::mem::discriminant(__other) {
                    match (self, __other) {
                        (Test::C(ref __0), Test::C(ref __other_0)) => true && ::core::cmp::PartialEq::eq(__0, __other_0),
                        (Test::B(..) | Test::D | Test::E {..}, ..) => false,
                        _ => true,
                    }
                } else {
                    false
                }
            }
        }
        impl ::core::cmp::PartialOrd for Test {
            #[inline]
            fn partial_cmp(&self, __other: &Self) -> ::core::option::Option<::core::cmp::Ordering> {
                if ::core::matches!(self, Test::B(..) | Test::D | Test::E { .. })
                    || ::core::matches!(__other, Test::B(..) | Test::D | Test::E { .. })
                {
                    return ::core::option::Option::None;
                }
                let __self_disc = ::core::mem::discriminant(self);
                let __other_disc = ::core::mem::discriminant(__other);
                if __self_disc == __other_disc {
                    match (self, __other) {
                        (Test::C(ref __0), Test::C(ref __other_0)) =>
                            match ::core::cmp::PartialOrd::partial_cmp(__0, __other_0) {
                                ::core::option::Option::Some(::core::cmp::Ordering::Equal) =>
                                    ::core::option::Option::Some(::core::cmp::Ordering::Equal),
                                __cmp => __cmp,
                            },
                        _ => ::core::option::Option::Some(::core::cmp::Ordering::Equal),
                    }
                } else {
                    ::core::cmp::PartialOrd::partial_cmp(
                        &unsafe { ::core::mem::transmute::<_, isize>(__self_disc) },
                        &unsafe { ::core::mem::transmute::<_, isize>(__other_disc) },
                    )
                }
            }
        }",
    );
}

/// `eq` and `partial_cmp` of a two-variant enum `Test` where `inc` is the
/// incomparable pattern and `eq_body` the comparison of equal variants.
fn incomparable_pair(inc: &str, eq_body: &str) -> String {
    format!(
        "impl ::core::cmp::PartialEq for Test {{
            #[inline]
            fn eq(&self, __other: &Self) -> bool {{
                if ::core::mem::discriminant(self) == ::core::mem::discriminant(__other) {{
                    {eq_body}
                }} else {{
                    false
                }}
            }}
        }}
        impl ::core::cmp::PartialOrd for Test {{
            #[inline]
            fn partial_cmp(&self, __other: &Self) -> ::core::option::Option<::core::cmp::Ordering> {{
                if ::core::matches!(self, {inc}) || ::core::matches!(__other, {inc}) {{
                    ::core::option::Option::None
                }} else {{
                    ::core::option::Option::Some(::core::cmp::Ordering::Equal)
                }}
            }}
        }}"
    )
}

#[test]
fn enum_empty_and_empty_incomparable_variants() {
    test_derive(
        "#[derive_where(PartialEq, PartialOrd)] enum Test{ #[derive_where(incomparable)] A, B }",
        &incomparable_pair(
            "Test::A",
            "if ::core::matches!(self, Test::A) { return false; } true",
        ),
    );
}

#[test]
fn enum_empty_and_non_empty_incomparable_variants() {
    test_derive(
        "#[derive_where(PartialEq, PartialOrd)] enum Test{ #[derive_where(incomparable)] A(String), B }",
        &incomparable_pair(
            "Test::A(..)",
            "match (self , __other) { (Test::A (..) , ..) => false, _ => true, }",
        ),
    );
}

#[test]
fn enum_empty_and_multiple_incomparable_variants() {
    test_derive(
        "#[derive_where(PartialEq, PartialOrd)]
        enum Test{ #[derive_where(incomparable)] A, B, #[derive_where(incomparable)] C(String) }",
        &incomparable_pair(
            "Test::A | Test::C(..)",
            "match (self, __other) { (Test::A | Test::C(..), ..) => false, _ => true, }",
        ),
    );
}

#[test]
fn enum_skipped_and_incomparable_variant() {
    test_derive(
        "#[derive_where(PartialEq, PartialOrd)]
        enum Test{ #[derive_where(incomparable)] A, #[derive_where(skip_inner)] B(String), }",
        &incomparable_pair(
            "Test::A",
            "if ::core::matches!(self, Test::A) { return false; } true",
        ),
    );
}

#[test]
fn enum_non_empty_and_incomparable_variant() {
    test_derive(
        "#[derive_where(PartialEq, PartialOrd)] enum Test{ #[derive_where(incomparable)] A, B(String), }",
        "impl ::core::cmp::PartialEq for Test {
            #[inline]
            fn eq(&self, __other: &Self) -> bool {
                if ::core::mem::discriminant(self) == ::core::mem::discriminant(__other) {
                    match (self, __other) {
                        (Test::B(ref __0), Test::B(ref __other_0)) =>
                            true && ::core::cmp::PartialEq::eq(__0, __other_0),
                        (Test::A, ..) => false,
                        _ => unsafe { ::core::hint::unreachable_unchecked() },
                    }
                } else {
                    false
                }
            }
        }
        impl ::core::cmp::PartialOrd for Test {
            #[inline]
            fn partial_cmp(&self, __other: &Self) -> ::core::option::Option<::core::cmp::Ordering> {
                if ::core::matches!(self, Test::A) || ::core::matches!(__other, Test::A) {
                    ::core::option::Option::None
                } else {
                    match (self, __other) {
                        (Test::B(ref __0), Test::B(ref __other_0)) =>
                            match ::core::cmp::PartialOrd::partial_cmp(__0, __other_0) {
                                ::core::option::Option::Some(::core::cmp::Ordering::Equal) =>
                                    ::core::option::Option::Some(::core::cmp::Ordering::Equal),
                                __cmp => __cmp,
                            },
                        _ => unsafe { ::core::hint::unreachable_unchecked() },
                    }
                }
            }
        }",
    );
}

#[test]
fn enum_incomparable_and_skipped_variant() {
    test_derive(
        "#[derive_where(PartialEq, PartialOrd)]
        enum Test{ #[derive_where(incomparable, skip_inner)] A(String), B }",
        &incomparable_pair(
            "Test::A(..)",
            "if ::core::matches!(self, Test::A(..)) { return false; } true",
        ),
    );
}

#[test]
fn items() {
    let expected = "impl ::core::cmp::PartialEq for Test {
            #[inline]
            fn eq(&self, __other: &Self) -> bool {
                false
            }
        }
        impl ::core::cmp::PartialOrd for Test {
            #[inline]
            fn partial_cmp(&self, __other: &Self) -> ::core::option::Option<::core::cmp::Ordering> {
                ::core::option::Option::None
            }
        }";
    test_derive(
        "#[derive_where(PartialEq, PartialOrd)] #[derive_where(incomparable)] enum Test{}",
        expected,
    );
    test_derive(
        "#[derive_where(PartialEq, PartialOrd)] #[derive_where(incomparable)] struct Test;",
        expected,
    );
}

#[test]
fn struct_() {
    test_derive(
        "#[derive_where(PartialOrd)] struct Test<T> { field: std::marker::PhatomData<T> }",
        "impl<T> ::core::cmp::PartialOrd for Test<T> {
            #[inline]
            fn partial_cmp(&self, __other: &Self) -> ::core::option::Option<::core::cmp::Ordering> {
                match (self, __other) {
                    (Test { field: ref __field }, Test { field: ref __other_field }) =>
                        match ::core::cmp::PartialOrd::partial_cmp(__field, __other_field) {
                            ::core::option::Option::Some(::core::cmp::Ordering::Equal) => ::core::option::Option::Some(::core::cmp::Ordering::Equal),
                            __cmp => __cmp,
                        },
                }
            }
        }",
    );
}

#[test]
fn tuple() {
    test_derive(
        "#[derive_where(PartialOrd)] struct Test<T>(std::marker::PhatomData<T>);",
        "impl<T> ::core::cmp::PartialOrd for Test<T> {
            #[inline]
            fn partial_cmp(&self, __other: &Self) -> ::core::option::Option<::core::cmp::Ordering> {
                match (self, __other) {
                    (Test(ref __0), Test(ref __other_0)) =>
                        match ::core::cmp::PartialOrd::partial_cmp(__0, __other_0) {
                            ::core::option::Option::Some(::core::cmp::Ordering::Equal) => ::core::option::Option::Some(::core::cmp::Ordering::Equal),
                            __cmp => __cmp,
                        },
                }
            }
        }",
    );
}

#[test]
fn enum_() {
    test_derive(
        "#[derive_where(PartialOrd)]
        enum Test<T> {
            A { field: std::marker::PhatomData<T>},
            B { },
            C(std::marker::PhatomData<T>),
            D(),
            E,
        }",
        "impl<T> ::core::cmp::PartialOrd for Test<T> {
            #[inline]
            fn partial_cmp(&self, __other: &Self) -> ::core::option::Option<::core::cmp::Ordering> {
                let __self_disc = ::core::mem::discriminant(self);
                let __other_disc = ::core::mem::discriminant(__other);
                if __self_disc == __other_disc {
                    match (self, __other) {
                        (Test::A { field: ref __field }, Test::A { field: ref __other_field }) =>
                            match ::core::cmp::PartialOrd::partial_cmp(__field, __other_field) {
                                ::core::option::Option::Some(::core::cmp::Ordering::Equal) => ::core::option::Option::Some(::core::cmp::Ordering::Equal),
                                __cmp => __cmp,
                            },
                        (Test::C(ref __0), Test::C(ref __other_0)) =>
                            match ::core::cmp::PartialOrd::partial_cmp(__0, __other_0) {
                                ::core::option::Option::Some(::core::cmp::Ordering::Equal) => ::core::option::Option::Some(::core::cmp::Ordering::Equal),
                                __cmp => __cmp,
                            },
                        _ => ::core::option::Option::Some(::core::cmp::Ordering::Equal),
                    }
                } else {
                    ::core::cmp::PartialOrd::partial_cmp(
                        &unsafe { ::core::mem::transmute::<_, isize>(__self_disc) },
                        &unsafe { ::core::mem::transmute::<_, isize>(__other_disc) },
                    )
                }
            }
        }",
    );
}

#[test]
fn union_() {
    test_derive(
        "#[derive_where(Clone, Copy)] union Test<T> { a: std::marker::PhantomData<T>, b: u8, }",
        "impl<T> ::core::clone::Clone for Test<T> {
            #[inline]
            fn clone(&self) -> Self {
                *self
            }
        }

        impl<T> ::core::marker::Copy for Test<T>
        { }",
    );
}

#[test]
fn partial_ord_bound() {
    test_derive(
        "#[derive_where(Ord; T)] #[derive_where(PartialOrd)] struct Test<T, U>(T, std::marker::PhantomData<U>);",
        "impl<T, U> ::core::cmp::Ord for Test<T, U>
        where T: ::core::cmp::Ord
        {
            #[inline]
            fn cmp(&self, __other: &Self) -> ::core::cmp::Ordering {
                match (self, __other) {
                    (Test(ref __0, ref __1), Test(ref __other_0, ref __other_1)) =>
                        match ::core::cmp::Ord::cmp(__0, __other_0) {
                            ::core::cmp::Ordering::Equal => match ::core::cmp::Ord::cmp(__1, __other_1) {
                                ::core::cmp::Ordering::Equal => ::core::cmp::Ordering::Equal,
                                __cmp => __cmp,
                            },
                            __cmp => __cmp,
                        },
                }
            }
        }

        impl<T, U> ::core::cmp::PartialOrd for Test<T, U> {
            #[inline]
            fn partial_cmp(&self, __other: &Self) -> ::core::option::Option<::core::cmp::Ordering> {
                match (self, __other) {
                    (Test(ref __0, ref __1), Test(ref __other_0, ref __other_1)) =>
                        match ::core::cmp::PartialOrd::partial_cmp(__0, __other_0) {
                            ::core::option::Option::Some(::core::cmp::Ordering::Equal) => match ::core::cmp::PartialOrd::partial_cmp(__1, __other_1) {
                                ::core::option::Option::Some(::core::cmp::Ordering::Equal) => ::core::option::Option::Some(::core::cmp::Ordering::Equal),
                                __cmp => __cmp,
                            },
                            __cmp => __cmp,
                        },
                }
            }
        }",
    );
}

#[test]
fn struct_inner() {
    test_derive(
        "#[derive_where(Debug)] #[derive_where(skip_inner)] struct Test<T>(std::marker::PhatomData<T>);",
        "impl<T> ::core::fmt::Debug for Test<T> {
            fn fmt(&self, __f: &mut ::core::fmt::Formatter<'_>) -> ::core::fmt::Result {
                match self {
                    Test(ref __0) => {
                        let mut __builder = ::core::fmt::Formatter::debug_tuple(__f, \"Test\");
                        ::core::fmt::DebugTuple::finish(&mut __builder)
                    }
                }
            }
        }",
    );
}

#[test]
fn enum_inner() {
    test_derive(
        "#[derive_where(Debug)] enum Test<T> { #[derive_where(skip_inner)] A(std::marker::PhatomData<T>), }",
        "impl<T> ::core::fmt::Debug for Test<T> {
            fn fmt(&self, __f: &mut ::core::fmt::Formatter<'_>) -> ::core::fmt::Result {
                match self {
                    Test::A(ref __0) => {
                        let mut __builder = ::core::fmt::Formatter::debug_tuple(__f, \"A\");
                        ::core::fmt::DebugTuple::finish(&mut __builder)
                    }
                }
            }
        }",
    );
}

#[test]
fn struct_empty() {
    test_derive(
        "#[derive_where(Ord)] #[derive_where(skip_inner)] struct Test<T>(std::marker::PhatomData<T>);",
        "impl<T> ::core::cmp::Ord for Test<T> {
            #[inline]
            fn cmp(&self, __other: &Self) -> ::core::cmp::Ordering {
                ::core::cmp::Ordering::Equal
            }
        }",
    );
}

#[test]
fn variant_empty() {
    test_derive(
        "#[derive_where(Ord)] enum Test<T> { #[derive_where(skip_inner)] A(std::marker::PhatomData<T>), }",
        "impl<T> ::core::cmp::Ord for Test<T> {
            #[inline]
            fn cmp(&self, __other: &Self) -> ::core::cmp::Ordering {
                ::core::cmp::Ordering::Equal
            }
        }",
    );
}

const ORD_TRANSMUTE: &str = "::core::cmp::Ord::cmp(
    &unsafe { ::core::mem::transmute::<_, isize>(__self_disc) },
    &unsafe { ::core::mem::transmute::<_, isize>(__other_disc) },
)";

#[test]
fn variants_empty() {
    test_derive(
        "#[derive_where(Ord)]
        enum Test<T> {
            #[derive_where(skip_inner)]
            A(std::marker::PhatomData<T>),
            #[derive_where(skip_inner)]
            B(std::marker::PhatomData<T>),
        }",
        &format!(
            "impl<T> ::core::cmp::Ord for Test<T> {{
                #[inline]
                fn cmp(&self, __other: &Self) -> ::core::cmp::Ordering {{
                    {DISC}
                    if __self_disc == __other_disc {{
                        ::core::cmp::Ordering::Equal
                    }} else {{
                        {ORD_TRANSMUTE}
                    }}
                }}
            }}"
        ),
    );
}

#[test]
fn variants_partly_empty() {
    test_derive(
        "#[derive_where(Ord)]
        enum Test<T> {
            #[derive_where(skip_inner)]
            A(std::marker::PhatomData<T>),
            B(#[derive_where(skip)] std::marker::PhatomData<T>, std::marker::PhatomData<T>),
        }",
        &format!(
            "impl<T> ::core::cmp::Ord for Test<T> {{
                #[inline]
                fn cmp(&self, __other: &Self) -> ::core::cmp::Ordering {{
                    {DISC}
                    if __self_disc == __other_disc {{
                        match (self , __other) {{
                            (Test::B(ref __0, ref __1), Test::B(ref __other_0, ref __other_1)) =>
                                match ::core::cmp::Ord::cmp(__1 ,__other_1) {{
                                    ::core::cmp::Ordering::Equal => ::core::cmp::Ordering::Equal, __cmp => __cmp,
                                }},
                            _ => ::core::cmp::Ordering::Equal,
                        }}
                    }} else {{
                        {ORD_TRANSMUTE}
                    }}
                }}
            }}"
        ),
    );
}

/// The `Zeroize` implementation of `struct Test<T>(T)` with the crate path
/// `krate`.
fn zeroize_impl(krate: &str) -> String {
    format!(
        "impl<T> {krate}::Zeroize for Test<T>
        where T: {krate}::Zeroize
        {{
            fn zeroize(&mut self) {{
                match self {{
                    Test(ref mut __0) => {{
                        __0.zeroize();
                    }}
                }}
            }}
        }}"
    )
}

/// The `Drop` implementation that `Zeroize(drop)` adds.
fn zeroize_drop_impl(krate: &str) -> String {
    format!(
        "impl<T> ::core::ops::Drop for Test<T>
        where T: {krate}::Zeroize
        {{
            fn drop(&mut self) {{
                {krate}::Zeroize::zeroize(self);
            }}
        }}"
    )
}

#[test]
fn zeroize() {
    test_derive("#[derive_where(Zeroize; T)] struct Test<T>(T);", &zeroize_impl("::zeroize"));
}

#[test]
fn zeroize_drop() {
    test_derive(
        "#[derive_where(Zeroize(drop); T)] struct Test<T>(T);",
        &format!("{} {}", zeroize_impl("::zeroize"), zeroize_drop_impl("::zeroize")),
    );
}

#[test]
fn zeroize_crate() {
    test_derive(
        "#[derive_where(Zeroize(crate = \"zeroize_\"); T)] struct Test<T>(T);",
        &zeroize_impl("zeroize_"),
    );
}

#[test]
fn zeroize_drop_crate() {
    test_derive(
        "#[derive_where(Zeroize(drop, crate = \"zeroize_\"); T)] struct Test<T>(T);",
        &format!("{} {}", zeroize_impl("zeroize_"), zeroize_drop_impl("zeroize_")),
    );
}

#[test]
fn zeroize_crate_drop() {
    test_derive(
        "#[derive_where(Zeroize(crate = \"zeroize_\", drop); T)] struct Test<T>(T);",
        &format!("{} {}", zeroize_impl("zeroize_"), zeroize_drop_impl("zeroize_")),
    );
}

fn err(input: &str) -> String {
    error_of(input, features())
}

#[test]
fn error_none() {
    assert_eq!(
        err("struct Test<T>(T);"),
        "no traits found to implement, use `#[derive_where(..)` to specify some"
    );
}

#[test]
fn error_empty() {
    assert_eq!(err("#[derive_where()] struct Test<T>(T);"), "empty `derive_where` found");
}

#[test]
fn error_item() {
    assert_eq!(
        err("#[derive_where(Clone)] struct Test(u8);"),
        "derive-where doesn't support items without generics, `skip` attributes or `enum`s implementing `Default`, as this can already be handled by standard `#[derive(..)]`"
    );
}

#[test]
fn error_generics() {
    assert_eq!(
        err("#[derive_where(Clone; T)] struct Test<T>(T);"),
        "derive-where doesn't support items with the same generic type parameters as the item, as this can already be handled by standard `#[derive(..)]`"
    );
}

#[test]
fn error_item_empty() {
    assert_eq!(
        err("#[derive_where(Clone)] struct Test<T>;"),
        "derive-where doesn't support empty items, as this can already be handled by standard `#[derive(..)]`"
    );
    assert_eq!(
        err("#[derive_where(Clone)] enum Test<T> { A, B }"),
        "derive-where doesn't support empty items, as this can already be handled by standard `#[derive(..)]`"
    );
}

#[test]
fn error_union() {
    assert_eq!(
        err("#[derive_where(Debug)] union Test<T> { a: core::marker::PhantomData<T> }"),
        "traits other then `Clone` and `Copy` aren't supported by unions"
    );
}

#[test]
fn error_option() {
    assert_eq!(err("#[derive_where(Clone)] enum Test<T> { #[derive_where(unknown)] A(T) }"), "unknown option");
}

#[test]
fn error_option_syntax() {
    assert_eq!(
        err("#[derive_where(Clone, Debug)] struct Test<T>(#[derive_where(skip = 1)] T);"),
        "unexpected option syntax"
    );
}

#[test]
fn error_option_empty() {
    assert_eq!(
        err("#[derive_where(Debug)] struct Test<T>(#[derive_where(skip())] T);"),
        "empty attribute option found"
    );
}

#[test]
fn error_option_enum_skip_inner() {
    assert_eq!(
        err("#[derive_where(Debug)] #[derive_where(skip_inner)] enum Test<T> { A(T) }"),
        "enums don't support `skip_inner`, use it on a variant instead"
    );
}

#[test]
fn error_option_skip_inner() {
    assert_eq!(
        err("#[derive_where(Debug)] #[derive_where(skip_inner)] struct Test<T>(#[derive_where(skip)] T);"),
        "unexpected `skip` on a field when parent already uses `skip_inner` with this trait"
    );
}

#[test]
fn error_option_skip_empty() {
    assert_eq!(
        err("#[derive_where(Debug)] enum Test<T> { #[derive_where(skip_inner)] A, B(T) }"),
        "no fields to skip"
    );
}

#[test]
fn error_option_skip_all() {
    assert_eq!(
        err("#[derive_where(Debug)] struct Test<T>(#[derive_where(skip, skip(Debug))] T);"),
        "unexpected constraint on `skip` when unconstrained `skip` already used"
    );
}

#[test]
fn error_option_skip_no_trait() {
    assert_eq!(
        err("#[derive_where(Clone)] struct Test<T>(#[derive_where(skip)] T);"),
        "no trait that can be skipped is being implemented"
    );
}

#[test]
fn error_option_skip_trait() {
    assert_eq!(
        err("#[derive_where(Debug)] struct Test<T>(#[derive_where(skip(Hash))] T);"),
        "no trait to skip found"
    );
}

#[test]
fn error_option_skip_duplicate() {
    assert_eq!(
        err("#[derive_where(Debug)] struct Test<T>(#[derive_where(skip(Debug, Debug))] T);"),
        "duplicate `Debug` constraint on `skip`"
    );
}

#[test]
fn error_skip_group() {
    assert_eq!(
        err("#[derive_where(Clone, Debug)] struct Test<T>(#[derive_where(skip(Clone))] T);"),
        "unsupported skip group, expected one of Debug, EqHashOrd, Hash, Zeroize"
    );
    assert_eq!(
        err("#[derive_where(PartialEq)] struct Test<T>(#[derive_where(skip(PartialEq))] T);"),
        "unsupported skip group, expected one of Debug, EqHashOrd, Hash, Zeroize"
    );
}

#[test]
fn skip_group_eq_hash_ord() {
    test_derive(
        "#[derive_where(PartialEq, Hash)] struct Test<T>(#[derive_where(skip(EqHashOrd))] T, u8);",
        "impl<T> ::core::cmp::PartialEq for Test<T> {
            #[inline]
            fn eq(&self, __other: &Self) -> bool {
                match (self, __other) {
                    (Test(ref __0, ref __1), Test(ref __other_0, ref __other_1)) =>
                        true && ::core::cmp::PartialEq::eq(__1, __other_1),
                }
            }
        }
        impl<T> ::core::hash::Hash for Test<T> {
            fn hash<__H: ::core::hash::Hasher>(&self, __state: &mut __H) {
                match self {
                    Test(ref __0, ref __1) => {
                        ::core::hash::Hash::hash(__1, __state);
                    }
                }
            }
        }",
    );
}

#[test]
fn readme_skip_inner_debug() {
    test_derive(
        "#[derive_where(Debug, PartialEq)] #[derive_where(skip_inner(Debug))] struct Example<T>(i32, PhantomData<T>);",
        "impl<T> ::core::fmt::Debug for Example<T> {
            fn fmt(&self, __f: &mut ::core::fmt::Formatter<'_>) -> ::core::fmt::Result {
                match self {
                    Example(ref __0, ref __1) => {
                        let mut __builder = ::core::fmt::Formatter::debug_tuple(__f, \"Example\");
                        ::core::fmt::DebugTuple::finish(&mut __builder)
                    }
                }
            }
        }
        impl<T> ::core::cmp::PartialEq for Example<T> {
            #[inline]
            fn eq(&self, __other: &Self) -> bool {
                match (self, __other) {
                    (Example(ref __0, ref __1), Example(ref __other_0, ref __other_1)) =>
                        true && ::core::cmp::PartialEq::eq(__0, __other_0) && ::core::cmp::PartialEq::eq(__1, __other_1),
                }
            }
        }",
    );
}

#[test]
fn test_crate_items() {
    let test = "#[derive_where(Clone, Copy, Debug, Default, Eq, Hash, Ord, PartialEq, PartialOrd)]
        #[derive_where(Zeroize(crate = zeroize_))]
        #[derive_where(crate = derive_where_)]
        pub struct Test<T>(PhantomData<T>);";
    let deprecated = "#[derive_where(Clone, Copy, Debug, Default, Eq, Hash, Ord, PartialEq, PartialOrd)]
        #[derive_where(Zeroize(crate = \"zeroize_\"))]
        #[derive_where(crate = \"derive_where_\")]
        pub struct TestDeprecated<T>(PhantomData<T>);";
    let a = derive_where_internal(&item(test), features()).ok().unwrap();
    let b = derive_where_internal(&item(deprecated), features()).ok().unwrap();
    assert!(normalize(&a).contains(&normalize("impl<T> zeroize_::Zeroize for Test<T>")));
    assert_eq!(normalize(&a).replace("TestDeprecated", "Test"), normalize(&b).replace("TestDeprecated", "Test"));
}

#[test]
fn zeroize_crate_unquoted() {
    test_derive("#[derive_where(Zeroize(crate = zeroize_); T)] struct Test<T>(T);", &zeroize_impl("zeroize_"));
}

#[test]
fn skip_inner_order_does_not_matter() {
    let a = "#[derive_where(Debug)] #[derive_where(skip_inner)] struct StructExample<T>(T);";
    let b = "#[derive_where(skip_inner)] #[derive_where(Debug)] struct StructExample<T>(T);";
    let x = derive_where_internal(&item(a), features()).ok().unwrap();
    let y = derive_where_internal(&item(b), features()).ok().unwrap();
    assert_eq!(x, y);
}

#[test]
fn skip_inner_order_item_attr_values() {
    for src in [
        "#[derive_where(Debug)] #[derive_where(skip_inner)] struct StructExample<T>(T);",
        "#[derive_where(skip_inner)] #[derive_where(Debug)] struct StructExample<T>(T);",
    ] {
        let input = item(src);
        let mut reads = Reads::new();
        let ia = ItemAttr::from_attrs(input.span, ItemKind::Struct, &input.attrs, features(), &mut reads)
            .ok()
            .unwrap();
        assert!(matches!(ia.skip_inner, Skip::All));
        assert_eq!(ia.derive_wheres.len(), 1);
        assert_eq!(ia.derive_wheres[0].traits.len(), 1);
        assert!(matches!(ia.derive_wheres[0].traits[0], DeriveTrait::Debug));
        assert!(ia.derive_wheres[0].generics.is_empty());
    }
}

#[test]
fn error_derive_where_delimiter() {
    assert_eq!(err("#[derive_where(Clone Debug)] struct Test<T>(T);"), "expected `;` or `,");
}

#[test]
fn error_generic() {
    assert_eq!(
        err("#[derive_where(Clone; 'a: 'static)] struct Test<'a, T>(&'a T);"),
        "only type predicates are supported"
    );
}

#[test]
fn error_default() {
    assert_eq!(
        err("#[derive_where(Clone)] enum Test<T> { #[derive_where(default)] A(T) }"),
        "`default` is only supported if `Default` is being implemented"
    );
}

#[test]
fn error_default_missing() {
    assert_eq!(
        err("#[derive_where(Default)] enum Test<T> { A(T) }"),
        "required `default` option on a variant if `Default` is being implemented"
    );
}

#[test]
fn error_default_duplicate() {
    assert_eq!(
        err("#[derive_where(Default)] enum Test<T> { #[derive_where(default)] A(T), #[derive_where(default)] B(T) }"),
        "multiple `default` options in enum"
    );
}

#[test]
fn error_incomparable() {
    assert_eq!(
        err("#[derive_where(Clone)] enum Test<T> { #[derive_where(incomparable)] A(T) }"),
        "`incomparable` is only supported if `PartialEq` or `PartialOrd` is being implemented"
    );
}

#[test]
fn error_non_partial_incomparable() {
    assert_eq!(
        err("#[derive_where(PartialEq, Eq)] enum Test<T> { #[derive_where(incomparable)] A(T) }"),
        "`incomparable` is not supported if `Eq` or `Ord` is being implemented"
    );
}

#[test]
fn error_option_trait() {
    assert_eq!(
        err("#[derive_where(Zeroize(unknown))] struct Test<T>(T);"),
        "`Zeroize` doesn't support this option"
    );
}

#[test]
fn error_options() {
    assert_eq!(err("#[derive_where(Clone(drop))] struct Test<T>(T);"), "`Clone` doesn't support any options");
}

#[test]
fn error_option_duplicate() {
    assert_eq!(
        err("#[derive_where(Zeroize(drop, drop))] struct Test<T>(T);"),
        "duplicate `drop` option"
    );
}

#[test]
fn error_path() {
    assert!(err("#[derive_where(Zeroize(crate = \"1x\"))] struct Test<T>(T);").starts_with("expected path, "));
}

#[test]
fn error_path_unnecessary() {
    assert_eq!(
        err("#[derive_where(ZeroizeOnDrop(crate = \"::zeroize\"))] struct Test<T>(T);"),
        "unnecessary path qualification, `::zeroize` is used by default"
    );
}

#[test]
fn error_generic_syntax() {
    assert!(err("#[derive_where(Clone; 'a)] struct Test<'a, T>(&'a T);").starts_with("expected type to bind to, "));
}

#[test]
fn error_trait() {
    assert_eq!(
        err("#[derive_where(Display)] struct Test<T>(T);"),
        "unsupported trait, expected one of expected one of Clone, Copy, Debug, Default, Eq, Hash, Ord, PartialEq, PartialOrd, Zeroize, ZeroizeOnDrop"
    );
    let plain = Features { nightly: false, safe: false, zeroize: false, zeroize_on_drop: false };
    assert_eq!(
        error_of("#[derive_where(Zeroize)] struct Test<T>(T);", plain),
        "unsupported trait, expected one of expected one of Clone, Copy, Debug, Default, Eq, Hash, Ord, PartialEq, PartialOrd"
    );
}

#[test]
fn error_trait_syntax() {
    assert_eq!(
        err("#[derive_where(\"Clone\")] struct Test<T>(T);"),
        "unsupported trait syntax, expected one of expected one of Clone, Copy, Debug, Default, Eq, Hash, Ord, PartialEq, PartialOrd, Zeroize, ZeroizeOnDrop"
    );
}

fn test_derive_with(input: &str, features: Features, expected: &str) {
    let out = match derive_where_internal(&item(input), features) {
        Ok(out) => out,
        Err(e) => panic!("expansion failed: {}", e.message),
    };
    assert_eq!(normalize(&out), normalize(expected));
}

#[test]
fn debug_named_skip() {
    test_derive(
        "#[derive_where(Debug)] struct Test<T> { a: T, #[derive_where(skip)] b: u8 }",
        "impl<T> ::core::fmt::Debug for Test<T> {
            fn fmt(&self, __f: &mut ::core::fmt::Formatter<'_>) -> ::core::fmt::Result {
                match self {
                    Test { a: ref __a, b: ref __b } => {
                        let mut __builder = ::core::fmt::Formatter::debug_struct(__f, \"Test\");
                        ::core::fmt::DebugStruct::field(&mut __builder, \"a\", __a);
                        ::core::fmt::DebugStruct::finish(&mut __builder)
                    }
                }
            }
        }",
    );
}

#[test]
fn readme_skip_debug_partial_eq() {
    test_derive(
        "#[derive_where(Debug, PartialEq; T)] struct Example<T>(#[derive_where(skip)] T);",
        "impl<T> ::core::fmt::Debug for Example<T> where T: ::core::fmt::Debug {
            fn fmt(&self, __f: &mut ::core::fmt::Formatter<'_>) -> ::core::fmt::Result {
                match self {
                    Example(ref __0) => {
                        let mut __builder = ::core::fmt::Formatter::debug_tuple(__f, \"Example\");
                        ::core::fmt::DebugTuple::finish(&mut __builder)
                    }
                }
            }
        }
        impl<T> ::core::cmp::PartialEq for Example<T> where T: ::core::cmp::PartialEq {
            #[inline]
            fn eq(&self, __other: &Self) -> bool { true }
        }",
    );
}

#[test]
fn default_enum() {
    test_derive(
        "#[derive_where(Default)] enum Test<T> { A(T), #[derive_where(default)] B { x: T } }",
        "impl<T> ::core::default::Default for Test<T> {
            fn default() -> Self { Test::B { x: ::core::default::Default::default() } }
        }",
    );
}

#[test]
fn hash_enum() {
    test_derive(
        "#[derive_where(Hash)] enum Test<T> { A(T), B }",
        "impl<T> ::core::hash::Hash for Test<T> {
            fn hash<__H: ::core::hash::Hasher>(&self, __state: &mut __H) {
                match self {
                    Test::A(ref __0) => {
                        ::core::hash::Hash::hash(&::core::mem::discriminant(self), __state);
                        ::core::hash::Hash::hash(__0, __state);
                    }
                    Test::B => {
                        ::core::hash::Hash::hash(&::core::mem::discriminant(self), __state);
                    }
                }
            }
        }",
    );
}

#[test]
fn eq_tuple() {
    test_derive(
        "#[derive_where(Eq)] struct Test<T>(T, u8);",
        "impl<T> ::core::cmp::Eq for Test<T> {
            #[inline]
            fn assert_receiver_is_total_eq(&self) {
                struct __AssertEq<__T: ::core::cmp::Eq + ?::core::marker::Sized>(::core::marker::PhantomData<__T>);
                let _: __AssertEq<T>;
                let _: __AssertEq<u8>;
            }
        }",
    );
}

#[test]
fn clone_copy_custom_bound() {
    test_derive(
        "#[derive_where(Clone, Copy; T: Copy)] struct Test<T>(T);",
        "impl<T> ::core::clone::Clone for Test<T> where T: Copy {
            #[inline]
            fn clone(&self) -> Self { *self }
        }
        impl<T> ::core::marker::Copy for Test<T> where T: Copy { }",
    );
}

#[test]
fn zeroize_fqs() {
    test_derive(
        "#[derive_where(Zeroize)] struct Test<T>(#[derive_where(Zeroize(fqs))] T);",
        "impl<T> ::zeroize::Zeroize for Test<T> {
            fn zeroize(&mut self) {
                match self {
                    Test(ref mut __0) => {
                        ::zeroize::Zeroize::zeroize(__0);
                    }
                }
            }
        }",
    );
}

#[test]
fn zeroize_crate_path_segments() {
    test_derive(
        "#[derive_where(Zeroize(crate = \"zeroize_ :: x\"))] struct Test<T>(T);",
        "impl<T> zeroize_::x::Zeroize for Test<T> {
            fn zeroize(&mut self) {
                match self {
                    Test(ref mut __0) => {
                        __0.zeroize();
                    }
                }
            }
        }",
    );
}

#[test]
fn zeroize_on_drop_without_feature() {
    test_derive(
        "#[derive_where(ZeroizeOnDrop)] struct Test<T>(T);",
        "#[automatically_derived]
        impl<T> ::core::ops::Drop for Test<T> {
            fn drop(&mut self) {
                ::zeroize::Zeroize::zeroize(self);
            }
        }",
    );
}

fn on_drop() -> Features {
    Features { nightly: false, safe: false, zeroize: true, zeroize_on_drop: true }
}

#[test]
fn zeroize_on_drop_with_feature() {
    test_derive_with(
        "#[derive_where(ZeroizeOnDrop)] struct Test<T>(T);",
        on_drop(),
        "#[automatically_derived]
        impl<T> ::core::ops::Drop for Test<T> {
            fn drop(&mut self) {
                use ::zeroize::__internal::AssertZeroize;
                use ::zeroize::__internal::AssertZeroizeOnDrop;
                match self {
                    Test(ref mut __0) => {
                        __0.zeroize_or_on_drop();
                    }
                }
            }
        }
        impl<T> ::zeroize::ZeroizeOnDrop for Test<T> { }",
    );
}

#[test]
fn zeroize_on_drop_no_drop() {
    test_derive_with(
        "#[derive_where(ZeroizeOnDrop(no_drop))] struct Test<T>(T);",
        on_drop(),
        "const _: () = {
            trait DeriveWhereAssertZeroizeOnDrop {
                fn assert(&mut self);
            }
            impl<T> DeriveWhereAssertZeroizeOnDrop for Test<T> {
                fn assert(&mut self) {
                    trait AssertZeroizeOnDrop {
                        fn __derive_where_zeroize_on_drop(&mut self);
                    }
                    impl<T: ::zeroize::ZeroizeOnDrop + ?::core::marker::Sized> AssertZeroizeOnDrop for T {
                        fn __derive_where_zeroize_on_drop(&mut self) {}
                    }
                    match self {
                        Test(ref mut __0) => {
                            __0.__derive_where_zeroize_on_drop();
                        }
                    }
                }
            }
        };
        impl<T> ::zeroize::ZeroizeOnDrop for Test<T> { }",
    );
}

#[test]
fn no_drop_needs_feature() {
    assert_eq!(
        err("#[derive_where(ZeroizeOnDrop(no_drop))] struct Test<T>(T);"),
        "`ZeroizeOnDrop` doesn't support this option"
    );
}

/// Arms comparing the variants of `enum Test<T> { A(T), B(T), C(T) }`
/// with `Ord`.
const ORD_ARMS: &str = "(Test::A(ref __0), Test::A(ref __other_0)) =>
        match ::core::cmp::Ord::cmp(__0, __other_0) { ::core::cmp::Ordering::Equal => ::core::cmp::Ordering::Equal, __cmp => __cmp, },
    (Test::B(ref __0), Test::B(ref __other_0)) =>
        match ::core::cmp::Ord::cmp(__0, __other_0) { ::core::cmp::Ordering::Equal => ::core::cmp::Ordering::Equal, __cmp => __cmp, },
    (Test::C(ref __0), Test::C(ref __other_0)) =>
        match ::core::cmp::Ord::cmp(__0, __other_0) { ::core::cmp::Ordering::Equal => ::core::cmp::Ordering::Equal, __cmp => __cmp, },";

#[test]
fn ord_safe_orders_by_position() {
    let safe = Features { nightly: false, safe: true, zeroize: true, zeroize_on_drop: false };
    test_derive_with(
        "#[derive_where(Ord)] enum Test<T> { A(T), B(T), C(T) }",
        safe,
        &format!(
            "impl<T> ::core::cmp::Ord for Test<T> {{
                #[inline]
                fn cmp(&self, __other: &Self) -> ::core::cmp::Ordering {{
                    {DISC}
                    if __self_disc == __other_disc {{
                        match (self, __other) {{
                            {ORD_ARMS}
                            _ => ::core::unreachable!(\"comparing variants yielded unexpected results\"),
                        }}
                    }} else {{
                        match self {{
                            Test::A(ref __0) => ::core::cmp::Ordering::Less,
                            Test::B(ref __0) => match __other {{
                                Test::A(..) => ::core::cmp::Ordering::Greater,
                                _ => ::core::cmp::Ordering::Less,
                            }},
                            Test::C(ref __0) => ::core::cmp::Ordering::Greater,
                        }}
                    }}
                }}
            }}"
        ),
    );
}

#[test]
fn ord_nightly_discriminant_value() {
    let nightly = Features { nightly: true, safe: false, zeroize: true, zeroize_on_drop: false };
    test_derive_with(
        "#[derive_where(Ord)] enum Test<T> { A(T), B(T), C(T) }",
        nightly,
        &format!(
            "impl<T> ::core::cmp::Ord for Test<T> {{
                #[inline]
                fn cmp(&self, __other: &Self) -> ::core::cmp::Ordering {{
                    let __self_disc = ::core::intrinsics::discriminant_value(self);
                    let __other_disc = ::core::intrinsics::discriminant_value(__other);
                    if __self_disc == __other_disc {{
                        match (self, __other) {{
                            {ORD_ARMS}
                            _ => unsafe {{ ::core::hint::unreachable_unchecked() }},
                        }}
                    }} else {{
                        ::core::cmp::Ord::cmp(&__self_disc, &__other_disc)
                    }}
                }}
            }}"
        ),
    );
}

#[test]
fn discriminant_order_with_generics() {
    test_derive(
        "#[derive_where(PartialOrd; T)] enum Test<T, U> { A, B = 5, C, D(#[derive_where(skip)] T, U) }",
        "impl<T, U> ::core::cmp::PartialOrd for Test<T, U> where T: ::core::cmp::PartialOrd {
            #[inline]
            fn partial_cmp(&self, __other: &Self) -> ::core::option::Option<::core::cmp::Ordering> {
                let __self_disc = ::core::mem::discriminant(self);
                let __other_disc = ::core::mem::discriminant(__other);
                if __self_disc == __other_disc {
                    match (self, __other) {
                        (Test::D(ref __0, ref __1), Test::D(ref __other_0, ref __other_1)) =>
                            match ::core::cmp::PartialOrd::partial_cmp(__1, __other_1) {
                                ::core::option::Option::Some(::core::cmp::Ordering::Equal) => ::core::option::Option::Some(::core::cmp::Ordering::Equal),
                                __cmp => __cmp,
                            },
                        _ => ::core::option::Option::Some(::core::cmp::Ordering::Equal),
                    }
                } else {
                    ::core::cmp::PartialOrd::partial_cmp(
                        &unsafe { ::core::mem::transmute::<_, isize>(__self_disc) },
                        &unsafe { ::core::mem::transmute::<_, isize>(__other_disc) },
                    )
                }
            }
        }",
    );
}

#[test]
fn partial_eq_safe_unreachable() {
    let safe = Features { nightly: false, safe: true, zeroize: true, zeroize_on_drop: false };
    test_derive_with(
        "#[derive_where(PartialEq)] enum Test<T> { A(T), B(T) }",
        safe,
        "impl<T> ::core::cmp::PartialEq for Test<T> {
            #[inline]
            fn eq(&self, __other: &Self) -> bool {
                if ::core::mem::discriminant(self) == ::core::mem::discriminant(__other) {
                    match (self, __other) {
                        (Test::A(ref __0), Test::A(ref __other_0)) => true && ::core::cmp::PartialEq::eq(__0, __other_0),
                        (Test::B(ref __0), Test::B(ref __other_0)) => true && ::core::cmp::PartialEq::eq(__0, __other_0),
                        _ => ::core::unreachable!(\"comparing variants yielded unexpected results\"),
                    }
                } else {
                    false
                }
            }
        }",
    );
}

#[test]
fn multiple_attributes_in_order() {
    test_derive(
        "#[derive_where(Clone; T)] #[derive_where(Debug; U)] struct Test<T, U>(T, U);",
        "impl<T, U> ::core::clone::Clone for Test<T, U> where T: ::core::clone::Clone {
            #[inline]
            fn clone(&self) -> Self {
                match self {
                    Test(ref __0, ref __1) => Test(::core::clone::Clone::clone(__0), ::core::clone::Clone::clone(__1)),
                }
            }
        }
        impl<T, U> ::core::fmt::Debug for Test<T, U> where U: ::core::fmt::Debug {
            fn fmt(&self, __f: &mut ::core::fmt::Formatter<'_>) -> ::core::fmt::Result {
                match self {
                    Test(ref __0, ref __1) => {
                        let mut __builder = ::core::fmt::Formatter::debug_tuple(__f, \"Test\");
                        ::core::fmt::DebugTuple::field(&mut __builder, __0);
                        ::core::fmt::DebugTuple::field(&mut __builder, __1);
                        ::core::fmt::DebugTuple::finish(&mut __builder)
                    }
                }
            }
        }",
    );
}

const VISITED: &str = "`#[derive_where(..)]` was already applied to this item before, this occurs when using a qualified path for any `#[derive_where(..)]`s except the first";

#[test]
fn error_visited() {
    assert_eq!(
        err("#[derive_where(Clone)] #[::derive_where::derive_where_visited] struct Test<T>(T, u8);"),
        VISITED
    );
    assert_eq!(
        err("#[derive_where(crate = dw)] #[derive_where(Clone)] #[dw::derive_where_visited] struct Test<T>(T, u8);"),
        VISITED
    );
}

#[test]
fn visited_marker_of_another_crate_is_ignored() {
    assert!(derive_where_internal(
        &item("#[derive_where(Clone)] #[derive_where_visited] struct Test<T>(T, u8);"),
        features()
    )
    .is_ok());
}

#[test]
fn error_generic_syntax_not_a_type() {
    let msg = err("#[derive_where(Clone; 1)] struct Test<T>(T);");
    assert!(msg.starts_with("expected type to bind to, "));
    assert!(msg.len() > "expected type to bind to, ".len());
}

#[test]
fn error_generic_syntax_empty_bound() {
    assert!(err("#[derive_where(Clone; T,, U)] struct Test<T, U>(T, U);").starts_with("expected type to bind to, "));
}

#[test]
fn error_path_carries_parser_message() {
    let msg = err("#[derive_where(Zeroize(crate = \"a::\"))] struct Test<T>(T);");
    assert!(msg.starts_with("expected path, "));
    assert!(msg.len() > "expected path, ".len());
    assert!(!msg.contains("found `a::`"));
}

#[test]
fn zeroize_crate_path_with_generic_arguments() {
    test_derive(
        "#[derive_where(Zeroize(crate = \"zeroize_::Wrap<u8>\"))] struct Test<T>(T);",
        "impl<T> zeroize_::Wrap<u8>::Zeroize for Test<T> {
            fn zeroize(&mut self) {
                match self {
                    Test(ref mut __0) => {
                        __0.zeroize();
                    }
                }
            }
        }",
    );
}

