//! Plain-value model of the macro input: tokens of attribute arguments and the
//! shape of the annotated item. Every node carries the number of its source
//! location, which errors refer to.

use vstd::prelude::*;

verus! {

/// Delimiter of a token group.
#[derive(Clone, Copy, PartialEq, Eq, Structural)]
pub enum Delim {
    /// `( .. )`
    Paren,
    /// `[ .. ]`
    Bracket,
    /// `{ .. }`
    Brace,
    /// Invisible delimiter.
    Invisible,
}

/// What a literal token holds.
pub enum LitKind {
    /// String literal, with its decoded value.
    Str(String),
    /// Integer literal, with its digits in base 10 (no sign, no suffix).
    Int(String),
    /// Any other literal.
    Other,
}

/// A literal token: its source text and what it holds.
pub struct Lit {
    /// Source text, as it is printed back.
    pub text: String,
    /// Decoded content.
    pub kind: LitKind,
}

/// A token tree.
pub enum Tok {
    /// Identifier or keyword.
    Ident { name: String, span: usize },
    /// Punctuation character, also as text; `joint` if the next character
    /// belongs to the same operator.
    Punct { ch: char, text: String, joint: bool, span: usize },
    /// Literal.
    Literal { lit: Lit, span: usize },
    /// Delimited group.
    Group { delim: Delim, inner: Vec<Tok>, span: usize },
}

impl Tok {
    /// Source location of this token.
    pub open spec fn spec_span(&self) -> usize {
        match self {
            Tok::Ident { span, .. } => *span,
            Tok::Punct { span, .. } => *span,
            Tok::Literal { span, .. } => *span,
            Tok::Group { span, .. } => *span,
        }
    }

    /// Source location of this token.
    pub fn span(&self) -> (s: usize)
        ensures
            s == self.spec_span(),
    {
        match self {
            Tok::Ident { span, .. } => *span,
            Tok::Punct { span, .. } => *span,
            Tok::Literal { span, .. } => *span,
            Tok::Group { span, .. } => *span,
        }
    }
}

/// Arguments of an attribute.
pub enum AttrArgs {
    /// `#[path]`
    Empty,
    /// `#[path( .. )]` with the tokens inside the delimiters.
    List(Vec<Tok>),
    /// `#[path = ..]`
    NameValue,
}

/// An outer attribute on an item, variant or field.
pub struct Attr {
    /// Whether the path starts with `::`.
    pub leading_colon: bool,
    /// Path segments.
    pub path: Vec<String>,
    /// Arguments.
    pub args: AttrArgs,
    /// Location of the whole attribute.
    pub span: usize,
}

/// A field of a struct, union or variant.
pub struct FieldInput {
    /// Attributes on the field.
    pub attrs: Vec<Attr>,
    /// Name, for named fields.
    pub ident: Option<String>,
    /// Type, as source text.
    pub ty: String,
}

/// Fields of a struct, union or variant.
pub enum FieldsInput {
    /// `{ a: A, .. }`
    Named(Vec<FieldInput>),
    /// `(A, ..)`
    Unnamed(Vec<FieldInput>),
    /// No fields.
    Unit,
}

/// Explicit discriminant of a variant.
pub struct DiscriminantInput {
    /// The expression, as source text.
    pub text: String,
    /// Base-10 digits when the expression is an integer literal.
    pub int_digits: Option<String>,
}

/// An enum variant.
pub struct VariantInput {
    /// Attributes on the variant.
    pub attrs: Vec<Attr>,
    /// Name of the variant.
    pub ident: String,
    /// Fields.
    pub fields: FieldsInput,
    /// `= expr`, when present.
    pub discriminant: Option<DiscriminantInput>,
    /// Location of the variant.
    pub span: usize,
}

/// The body of the item.
pub enum DataInput {
    /// `struct`.
    Struct(FieldsInput),
    /// `enum`.
    Enum(Vec<VariantInput>),
    /// `union`.
    Union(FieldsInput),
}

/// A generic parameter of the item.
pub enum GenericParamInput {
    /// Type parameter, by name.
    Type(String),
    /// Lifetime parameter.
    Lifetime,
    /// Const parameter.
    Const,
}

/// Generics of the item.
pub struct GenericsInput {
    /// Parameters in order.
    pub params: Vec<GenericParamInput>,
    /// Parameters as written after `impl`, as source text (with brackets).
    pub impl_generics: String,
    /// Parameters as written after the type name, as source text.
    pub type_generics: String,
    /// Predicates of the `where` clause, when there is one.
    pub where_clause: Option<Vec<String>>,
}

/// The item that the macro is applied to.
pub struct ItemInput {
    /// Attributes on the item.
    pub attrs: Vec<Attr>,
    /// Name of the item.
    pub ident: String,
    /// Generics of the item.
    pub generics: GenericsInput,
    /// Fields or variants.
    pub data: DataInput,
    /// Location of the whole item.
    pub span: usize,
}

} // verus!
