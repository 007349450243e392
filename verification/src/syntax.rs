//! What a type declaration says of itself, as far as deriving reads it.
//!
//! Parsing is left to `syn`. Three trusted functions ask it about one part of
//! a declaration each and hand the answer over as plain values. Nothing is
//! claimed of what they answer: the lexer behind the parser is the compiler's
//! own inside a macro expansion and another one elsewhere, so the same text
//! need not read the same everywhere. What is asked of their callers is that
//! the text is [`readable`], since the parser panics on a literal that it
//! does not know.
//!
//! That the parser returns on every readable text is trusted. It was read
//! off the lexer that `proc-macro2` brings along. Of the compiler's lexer
//! only this is taken into account: that it makes one literal of a number
//! with a base prefix and a period, which is why such a number is not
//! readable. Exhausting the stack on a text nested very deep is not covered.

use vstd::prelude::*;
use crate::scan::readable;

verus! {

/// The kind of item that a declaration declares.
#[derive(Clone, Copy, Debug, PartialEq, Eq, Structural)]
pub enum DataKind {
    Struct,
    Enum,
    Union,
}

/// One argument between the parentheses of an attribute.
#[derive(Debug, PartialEq, Eq)]
pub enum Argument {
    /// A path, an equals sign and a literal. `key` is the path where it is a
    /// single identifier, `value` what the literal says where it is a string.
    NameValue { key: Option<String>, value: Option<String> },
    /// Anything else: a bare literal, a path, a nested list.
    Other,
}

/// Mathematical value of an [`Argument`].
pub enum ArgumentView {
    NameValue { key: Option<Seq<char>>, value: Option<Seq<char>> },
    Other,
}

/// The view of an optional string.
pub open spec fn text_view(text: Option<String>) -> Option<Seq<char>> {
    match text {
        Some(text) => Some(text@),
        None => None,
    }
}

impl View for Argument {
    type V = ArgumentView;

    open spec fn view(&self) -> ArgumentView {
        match self {
            Argument::NameValue { key, value } => ArgumentView::NameValue {
                key: text_view(*key),
                value: text_view(*value),
            },
            Argument::Other => ArgumentView::Other,
        }
    }
}

/// One attribute of a declaration. A `path` is present where the attribute's
/// path is a single identifier.
#[derive(Debug, PartialEq, Eq)]
pub enum Attribute {
    /// Tokens that do not form a meta item.
    Unstructured,
    /// A path alone, or a path, an equals sign and a literal.
    Plain { path: Option<String> },
    /// A path and a parenthesised list of arguments.
    List { path: Option<String>, arguments: Vec<Argument> },
}

/// Mathematical value of an [`Attribute`].
pub enum AttributeView {
    Unstructured,
    Plain { path: Option<Seq<char>> },
    List { path: Option<Seq<char>>, arguments: Seq<ArgumentView> },
}

impl AttributeView {
    /// The identifier that names the attribute, if one does.
    pub open spec fn path(self) -> Option<Seq<char>> {
        match self {
            AttributeView::Unstructured => None,
            AttributeView::Plain { path } => path,
            AttributeView::List { path, .. } => path,
        }
    }
}

impl View for Attribute {
    type V = AttributeView;

    open spec fn view(&self) -> AttributeView {
        match self {
            Attribute::Unstructured => AttributeView::Unstructured,
            Attribute::Plain { path } => AttributeView::Plain { path: text_view(*path) },
            Attribute::List { path, arguments } => AttributeView::List {
                path: text_view(*path),
                arguments: arguments@.map_values(|argument: Argument| argument@),
            },
        }
    }
}

/// A type declaration: its name, its kind and its attributes in the order in
/// which they are written.
#[derive(Debug, PartialEq, Eq)]
pub struct Declaration {
    pub name: String,
    pub kind: DataKind,
    pub attributes: Vec<Attribute>,
}

/// Mathematical value of a [`Declaration`].
pub struct DeclarationView {
    pub name: Seq<char>,
    pub kind: DataKind,
    pub attributes: Seq<AttributeView>,
}

impl View for Declaration {
    type V = DeclarationView;

    open spec fn view(&self) -> DeclarationView {
        DeclarationView {
            name: self.name@,
            kind: self.kind,
            attributes: self.attributes@.map_values(|attribute: Attribute| attribute@),
        }
    }
}

/// The head of a declaration: its name, its kind and the number of its
/// attributes.
pub(crate) struct Outline {
    pub name: String,
    pub kind: DataKind,
    pub attributes: usize,
}

/// The head of one attribute: an [`Attribute`] with the number of its
/// arguments in place of the arguments.
pub(crate) enum AttributeOutline {
    Plain { path: Option<String> },
    List { path: Option<String>, arguments: usize },
}

/// Calls `syn::parse_str` for a `syn::DeriveInput` and reads the name, the
/// kind of data and the number of attributes off the result; a syntax error
/// is handed over as its message. Trusted: that the call returns on a
/// readable text. Nothing is claimed of the result.
#[verifier::external_body]
pub(crate) fn parse_outline(text: &str) -> (r: Result<Outline, String>)
    requires
        readable(text@),
{
    let input = syn::parse_str::<syn::DeriveInput>(text).map_err(|error| error.to_string())?;
    let kind = match input.data {
        syn::Data::Struct(_) => DataKind::Struct,
        syn::Data::Enum(_) => DataKind::Enum,
        syn::Data::Union(_) => DataKind::Union,
    };
    Ok(Outline { name: input.ident.to_string(), kind, attributes: input.attrs.len() })
}

/// Calls `syn::Attribute::parse_meta` on the attribute at `index` of the
/// declaration `text`, reads the path with `syn::Meta::path` and
/// `syn::Path::get_ident`, and tells a list from the other forms of meta
/// item. `None` where the text is no declaration, has no such attribute, or
/// the attribute is no meta item. Trusted: that the calls return on a
/// readable text. Nothing is claimed of the result.
#[verifier::external_body]
pub(crate) fn parse_attribute(text: &str, index: usize) -> (r: Option<AttributeOutline>)
    requires
        readable(text@),
{
    let input = syn::parse_str::<syn::DeriveInput>(text).ok()?;
    let meta = input.attrs.get(index)?.parse_meta().ok()?;
    let path = meta.path().get_ident().map(|ident| ident.to_string());
    Some(match meta {
        syn::Meta::List(list) => AttributeOutline::List { path, arguments: list.nested.len() },
        _ => AttributeOutline::Plain { path },
    })
}

/// Reads the argument at `position` of the attribute at `index` of the
/// declaration `text` off what `syn::Attribute::parse_meta` returns, with
/// `syn::Path::get_ident` for the key and `syn::LitStr::value` for the value.
/// `None` where there is no such argument. Trusted: that the calls return on
/// a readable text. Nothing is claimed of the result.
#[verifier::external_body]
pub(crate) fn parse_argument(text: &str, index: usize, position: usize) -> (r: Option<Argument>)
    requires
        readable(text@),
{
    let input = syn::parse_str::<syn::DeriveInput>(text).ok()?;
    let syn::Meta::List(list) = input.attrs.get(index)?.parse_meta().ok()? else { return None };
    Some(match list.nested.into_iter().nth(position)? {
        syn::NestedMeta::Meta(syn::Meta::NameValue(pair)) => Argument::NameValue {
            key: pair.path.get_ident().map(|ident| ident.to_string()),
            value: match pair.lit {
                syn::Lit::Str(literal) => Some(literal.value()),
                _ => None,
            },
        },
        _ => Argument::Other,
    })
}

} // verus!
