//! Deriving the identity of an exported type from its declaration.

use vstd::prelude::*;
use crate::exported::{ExportedType, ExportedTypeView};
use crate::scan::{is_readable, readable, unreadable_message};
use crate::syntax::{
    parse_argument,
    parse_attribute,
    parse_outline,
    text_view,
    Argument,
    ArgumentView,
    Attribute,
    AttributeOutline,
    AttributeView,
    DataKind,
    Declaration,
    DeclarationView,
    Outline,
};

verus! {

/// Why an identity cannot be derived for a declaration.
#[derive(Debug, PartialEq, Eq)]
pub enum DeriveError {
    /// The text holds what the parser cannot be trusted with; it has not been
    /// parsed.
    Unreadable,
    /// The text is not a type declaration; the parser's message.
    Syntax(String),
    /// The declaration is not that of a struct.
    NotStruct,
    /// The declaration is not marked for export.
    NotExported,
}

/// Mathematical value of a [`DeriveError`].
pub enum DeriveErrorView {
    Unreadable,
    Syntax(Seq<char>),
    NotStruct,
    NotExported,
}

impl DeriveErrorView {
    /// The text shown for a failure.
    pub open spec fn message(self) -> Seq<char> {
        match self {
            DeriveErrorView::Unreadable => unreadable_message(),
            DeriveErrorView::Syntax(message) => message,
            DeriveErrorView::NotStruct => "TryFromJsValue may only be derived on structs"@,
            DeriveErrorView::NotExported =>
                "TryFromJsValue can be defined only on struct exported to wasm with #[wasm_bindgen]"@,
        }
    }
}

impl View for DeriveError {
    type V = DeriveErrorView;

    open spec fn view(&self) -> DeriveErrorView {
        match self {
            DeriveError::Unreadable => DeriveErrorView::Unreadable,
            DeriveError::Syntax(message) => DeriveErrorView::Syntax(message@),
            DeriveError::NotStruct => DeriveErrorView::NotStruct,
            DeriveError::NotExported => DeriveErrorView::NotExported,
        }
    }
}

impl DeriveError {
    /// The text shown for this failure.
    pub fn message(&self) -> (r: String)
        ensures
            r@ == self@.message(),
    {
        match self {
            DeriveError::Unreadable => String::from_str(
                "unsupported literal: a C string, a number with a base and a period, or an expansion error",
            ),
            DeriveError::Syntax(message) => message.clone(),
            DeriveError::NotStruct => String::from_str(
                "TryFromJsValue may only be derived on structs",
            ),
            DeriveError::NotExported => String::from_str(
                "TryFromJsValue can be defined only on struct exported to wasm with #[wasm_bindgen]",
            ),
        }
    }
}

/// The name of the attribute that marks a type for export.
pub open spec fn export_marker() -> Seq<char> {
    "wasm_bindgen"@
}

/// The key under which the export attribute gives the type its host-side
/// name.
pub open spec fn alias_key() -> Seq<char> {
    "js_name"@
}

impl ArgumentView {
    /// The host-side name that this argument gives: the string assigned to
    /// the alias key.
    pub open spec fn alias(self) -> Option<Seq<char>> {
        match self {
            ArgumentView::NameValue { key: Some(key), value: Some(value) } => if key
                == alias_key() {
                Some(value)
            } else {
                None
            },
            _ => None,
        }
    }
}

impl AttributeView {
    /// Whether this is the attribute that marks a type for export.
    pub open spec fn is_export(self) -> bool {
        self.path() == Some(export_marker())
    }

    /// The host-side name that this attribute gives, if it gives one.
    pub open spec fn alias(self) -> Option<Seq<char>> {
        match self {
            AttributeView::List { arguments, .. } => first_alias(arguments),
            _ => None,
        }
    }
}

/// The name given by the first of `arguments` that gives one.
pub open spec fn first_alias(arguments: Seq<ArgumentView>) -> Option<Seq<char>>
    decreases arguments.len(),
{
    if arguments.len() == 0 {
        None
    } else if arguments.first().alias() is Some {
        arguments.first().alias()
    } else {
        first_alias(arguments.drop_first())
    }
}

/// The first of `attributes` that marks the type for export.
pub open spec fn first_export(attributes: Seq<AttributeView>) -> Option<AttributeView>
    decreases attributes.len(),
{
    if attributes.len() == 0 {
        None
    } else if attributes.first().is_export() {
        Some(attributes.first())
    } else {
        first_export(attributes.drop_first())
    }
}

/// Whether the attribute at `index` marks the type for export and none
/// before it does.
pub open spec fn is_earliest_export(attributes: Seq<AttributeView>, index: int) -> bool {
    &&& 0 <= index < attributes.len()
    &&& attributes[index].is_export()
    &&& forall|i: int| 0 <= i < index ==> !(#[trigger] attributes[i]).is_export()
}

/// Whether the argument at `index` gives a host-side name and none before it
/// does.
pub open spec fn is_earliest_alias(arguments: Seq<ArgumentView>, index: int) -> bool {
    &&& 0 <= index < arguments.len()
    &&& arguments[index].alias() is Some
    &&& forall|i: int| 0 <= i < index ==> (#[trigger] arguments[i]).alias() is None
}

/// Of several export attributes the earliest decides, and there is none to
/// decide only where no attribute marks the type for export.
pub proof fn lemma_earliest_export_decides(attributes: Seq<AttributeView>)
    ensures
        match first_export(attributes) {
            Some(attribute) => exists|index: int|
                is_earliest_export(attributes, index) && attributes[index] == attribute,
            None => forall|i: int|
                0 <= i < attributes.len() ==> !(#[trigger] attributes[i]).is_export(),
        },
    decreases attributes.len(),
{
    if attributes.len() > 0 && !attributes.first().is_export() {
        let rest = attributes.drop_first();
        lemma_earliest_export_decides(rest);
        assert forall|i: int| 0 < i < attributes.len() implies (#[trigger] attributes[i])
            == rest[i - 1] by {}
        if first_export(rest) is Some {
            let index = choose|index: int|
                is_earliest_export(rest, index) && rest[index] == first_export(rest)->0;
            assert(is_earliest_export(attributes, index + 1));
        }
    } else if attributes.len() > 0 {
        assert(is_earliest_export(attributes, 0));
    }
}

/// Of several arguments that give a host-side name the earliest decides, and
/// there is no alias only where no argument gives one.
pub proof fn lemma_earliest_alias_decides(arguments: Seq<ArgumentView>)
    ensures
        match first_alias(arguments) {
            Some(alias) => exists|index: int|
                is_earliest_alias(arguments, index) && arguments[index].alias() == Some(alias),
            None => forall|i: int|
                0 <= i < arguments.len() ==> (#[trigger] arguments[i]).alias() is None,
        },
    decreases arguments.len(),
{
    if arguments.len() > 0 && arguments.first().alias() is None {
        let rest = arguments.drop_first();
        lemma_earliest_alias_decides(rest);
        assert forall|i: int| 0 < i < arguments.len() implies (#[trigger] arguments[i])
            == rest[i - 1] by {}
        if first_alias(rest) is Some {
            let index = choose|index: int|
                is_earliest_alias(rest, index) && rest[index].alias() == first_alias(rest);
            assert(is_earliest_alias(arguments, index + 1));
        }
    } else if arguments.len() > 0 {
        assert(is_earliest_alias(arguments, 0));
    }
}

/// The exported type that a declaration stands for: a struct whose first
/// export attribute decides the alias. Anything but a struct is refused, then
/// a struct without an export attribute.
pub open spec fn expansion(declaration: DeclarationView) -> Result<
    ExportedTypeView,
    DeriveErrorView,
> {
    if declaration.kind != DataKind::Struct {
        Err(DeriveErrorView::NotStruct)
    } else {
        match first_export(declaration.attributes) {
            None => Err(DeriveErrorView::NotExported),
            Some(attribute) => Ok(
                ExportedTypeView { name: declaration.name, alias: attribute.alias() },
            ),
        }
    }
}

/// The part of `arguments` that deriving reads: up to the first that gives a
/// host-side name.
pub open spec fn needed_arguments(arguments: Seq<ArgumentView>) -> Seq<ArgumentView>
    decreases arguments.len(),
{
    if arguments.len() == 0 {
        arguments
    } else if arguments.first().alias() is Some {
        seq![arguments.first()]
    } else {
        seq![arguments.first()] + needed_arguments(arguments.drop_first())
    }
}

/// What deriving reads of `attribute`: the arguments only where it marks the
/// type for export, and of them the [`needed_arguments`].
pub open spec fn needed_attribute(attribute: AttributeView) -> AttributeView {
    match attribute {
        AttributeView::List { path, arguments } => AttributeView::List {
            path,
            arguments: if attribute.is_export() {
                needed_arguments(arguments)
            } else {
                Seq::empty()
            },
        },
        _ => attribute,
    }
}

/// The part of `attributes` that deriving reads: up to the first that marks
/// the type for export, each as [`needed_attribute`] gives it.
pub open spec fn needed_attributes(attributes: Seq<AttributeView>) -> Seq<AttributeView>
    decreases attributes.len(),
{
    if attributes.len() == 0 {
        attributes
    } else if attributes.first().is_export() {
        seq![needed_attribute(attributes.first())]
    } else {
        seq![needed_attribute(attributes.first())] + needed_attributes(attributes.drop_first())
    }
}

/// The part of `declaration` that deriving reads: of a struct the
/// [`needed_attributes`], of anything else no attribute.
pub open spec fn needed(declaration: DeclarationView) -> DeclarationView {
    DeclarationView {
        name: declaration.name,
        kind: declaration.kind,
        attributes: if declaration.kind == DataKind::Struct {
            needed_attributes(declaration.attributes)
        } else {
            Seq::empty()
        },
    }
}

proof fn lemma_needed_arguments(arguments: Seq<ArgumentView>)
    ensures
        first_alias(needed_arguments(arguments)) == first_alias(arguments),
    decreases arguments.len(),
{
    if arguments.len() > 0 && arguments.first().alias() is None {
        let rest = arguments.drop_first();
        lemma_needed_arguments(rest);
        assert(needed_arguments(arguments).drop_first() =~= needed_arguments(rest));
    }
}

proof fn lemma_needed_attributes(attributes: Seq<AttributeView>)
    ensures
        first_export(needed_attributes(attributes)) == match first_export(attributes) {
            Some(attribute) => Some(needed_attribute(attribute)),
            None => None,
        },
    decreases attributes.len(),
{
    if attributes.len() > 0 && !attributes.first().is_export() {
        let rest = attributes.drop_first();
        lemma_needed_attributes(rest);
        assert(needed_attributes(attributes).drop_first() =~= needed_attributes(rest));
    }
}

/// Reading no more of a declaration than deriving needs changes nothing:
/// the part that is read gives what the whole declaration gives.
pub proof fn lemma_needed_part_decides(declaration: DeclarationView)
    ensures
        expansion(needed(declaration)) == expansion(declaration),
{
    if declaration.kind == DataKind::Struct {
        lemma_needed_attributes(declaration.attributes);
        if first_export(declaration.attributes) is Some {
            let attribute = first_export(declaration.attributes)->0;
            lemma_earliest_export_decides(declaration.attributes);
            if attribute is List {
                lemma_needed_arguments(attribute->List_arguments);
            }
        }
    }
}

/// `got` is `found`, by views.
pub open spec fn derives(
    got: Result<ExportedType, DeriveError>,
    found: Result<ExportedTypeView, DeriveErrorView>,
) -> bool {
    match found {
        Ok(ty) => got matches Ok(derived) && derived@ == ty,
        Err(reason) => got matches Err(error) && error@ == reason,
    }
}

/// Whether `text` is the string `literal`.
fn same_text(text: &String, literal: &str) -> (r: bool)
    ensures
        r == (text@ == literal@),
{
    let other = String::from_str(literal);
    *text == other
}

impl Argument {
    /// The host-side name that this argument gives, if it gives one.
    pub fn alias(&self) -> (r: Option<String>)
        ensures
            crate::syntax::text_view(r) == self@.alias(),
    {
        match self {
            Argument::NameValue { key: Some(key), value: Some(value) } => {
                if same_text(key, "js_name") {
                    Some(value.clone())
                } else {
                    None
                }
            },
            _ => None,
        }
    }
}

/// Whether `path` is the name of the attribute that marks a type for export.
fn names_export(path: &Option<String>) -> (r: bool)
    ensures
        r == (text_view(*path) == Some(export_marker())),
{
    match path {
        Some(path) => same_text(path, "wasm_bindgen"),
        None => false,
    }
}

impl Attribute {
    /// Whether this is the attribute that marks a type for export.
    pub fn is_export(&self) -> (r: bool)
        ensures
            r == self@.is_export(),
    {
        match self {
            Attribute::Unstructured => false,
            Attribute::Plain { path } => names_export(path),
            Attribute::List { path, .. } => names_export(path),
        }
    }

    /// The host-side name that this attribute gives: that of the first of
    /// its arguments that gives one.
    pub fn alias(&self) -> (r: Option<String>)
        ensures
            crate::syntax::text_view(r) == self@.alias(),
    {
        match self {
            Attribute::List { arguments, .. } => {
                let ghost all = self@->List_arguments;
                let mut position: usize = 0;
                assert(all.skip(0) =~= all);
                while position < arguments.len()
                    invariant
                        position <= arguments@.len(),
                        self@.alias() == first_alias(all),
                        all == arguments@.map_values(|argument: Argument| argument@),
                        first_alias(all) == first_alias(all.skip(position as int)),
                    decreases arguments@.len() - position,
                {
                    let found = arguments[position].alias();
                    proof {
                        let rest = all.skip(position as int);
                        assert(rest.drop_first() =~= all.skip(position + 1));
                    }
                    if found.is_some() {
                        return found;
                    }
                    position += 1;
                }
                None
            },
            _ => None,
        }
    }
}

/// Derives the exported type of a declaration: the declaration must be that
/// of a struct and carry the export attribute, and the first such attribute
/// decides the alias.
pub fn expand(declaration: &Declaration) -> (r: Result<ExportedType, DeriveError>)
    ensures
        derives(r, expansion(declaration@)),
{
    match declaration.kind {
        DataKind::Struct => {},
        _ => {
            return Err(DeriveError::NotStruct);
        },
    }
    let ghost all = declaration@.attributes;
    let mut index: usize = 0;
    assert(all.skip(0) =~= all);
    while index < declaration.attributes.len()
        invariant
            index <= declaration.attributes@.len(),
            declaration.kind == DataKind::Struct,
            declaration@.attributes == all,
            all == declaration.attributes@.map_values(|attribute: Attribute| attribute@),
            first_export(all) == first_export(all.skip(index as int)),
        decreases declaration.attributes@.len() - index,
    {
        let attribute = &declaration.attributes[index];
        proof {
            let rest = all.skip(index as int);
            assert(rest.drop_first() =~= all.skip(index + 1));
        }
        if attribute.is_export() {
            return Ok(ExportedType { name: declaration.name.clone(), alias: attribute.alias() });
        }
        index += 1;
    }
    Err(DeriveError::NotExported)
}

/// The views of `arguments`, in order.
pub open spec fn argument_views(arguments: Seq<Argument>) -> Seq<ArgumentView> {
    arguments.map_values(|argument: Argument| argument@)
}

/// The views of `attributes`, in order.
pub open spec fn attribute_views(attributes: Seq<Attribute>) -> Seq<AttributeView> {
    attributes.map_values(|attribute: Attribute| attribute@)
}

/// Where the answers about a declaration come from: from the parser, which
/// is asked about a text, or from a declaration that is there as a whole.
/// Reading is written once for both, and is proved on the second.
enum Source<'a> {
    Text(&'a str),
    Whole(&'a Declaration),
}

/// A copy of an optional string.
fn copy_text(text: &Option<String>) -> (r: Option<String>)
    ensures
        text_view(r) == text_view(*text),
{
    match text {
        Some(text) => Some(text.clone()),
        None => None,
    }
}

impl<'a> Source<'a> {
    /// Whether the source can be asked: a text must be readable.
    spec fn fits(&self) -> bool {
        self matches Source::Text(text) ==> readable(text@)
    }

    /// The head of the declaration.
    fn outline(&self) -> (r: Result<Outline, String>)
        requires
            self.fits(),
        ensures
            self matches Source::Whole(declaration) ==> (r matches Ok(outline) && outline.name@
                == declaration@.name && outline.kind == declaration@.kind && outline.attributes
                == declaration@.attributes.len()),
    {
        match self {
            Source::Text(text) => parse_outline(text),
            Source::Whole(declaration) => Ok(
                Outline {
                    name: declaration.name.clone(),
                    kind: declaration.kind,
                    attributes: declaration.attributes.len(),
                },
            ),
        }
    }

    /// The head of the attribute at `index`, if it is a meta item.
    fn attribute(&self, index: usize) -> (r: Option<AttributeOutline>)
        requires
            self.fits(),
            self matches Source::Whole(declaration) ==> index < declaration@.attributes.len(),
        ensures
            self matches Source::Whole(declaration) ==> match declaration@.attributes[index as int] {
                AttributeView::Unstructured => r is None,
                AttributeView::Plain { path } => r matches Some(AttributeOutline::Plain { path: p })
                    && text_view(p) == path,
                AttributeView::List { path, arguments } => r matches Some(
                    AttributeOutline::List { path: p, arguments: count },
                ) && text_view(p) == path && count == arguments.len(),
            },
    {
        match self {
            Source::Text(text) => parse_attribute(text, index),
            Source::Whole(declaration) => match &declaration.attributes[index] {
                Attribute::Unstructured => None,
                Attribute::Plain { path } => Some(AttributeOutline::Plain { path: copy_text(path) }),
                Attribute::List { path, arguments } => Some(
                    AttributeOutline::List { path: copy_text(path), arguments: arguments.len() },
                ),
            },
        }
    }

    /// The argument at `position` of the attribute at `index`, if it is a
    /// path, an equals sign and a literal.
    fn argument(&self, index: usize, position: usize) -> (r: Option<Argument>)
        requires
            self.fits(),
            self matches Source::Whole(declaration) ==> index < declaration@.attributes.len()
                && declaration@.attributes[index as int] is List
                && position < declaration@.attributes[index as int]->List_arguments.len(),
        ensures
            self matches Source::Whole(declaration) ==> match declaration@.attributes[index as int]->List_arguments[position as int] {
                ArgumentView::Other => r is None,
                argument => r matches Some(answer) && answer@ == argument,
            },
    {
        match self {
            Source::Text(text) => parse_argument(text, index, position),
            Source::Whole(declaration) => match &declaration.attributes[index] {
                Attribute::List { arguments, .. } => match &arguments[position] {
                    Argument::NameValue { key, value } => Some(
                        Argument::NameValue { key: copy_text(key), value: copy_text(value) },
                    ),
                    Argument::Other => None,
                },
                _ => None,
            },
        }
    }
}

/// Reads the arguments of the attribute at `index`, of which there are
/// `count`, up to the first that gives a host-side name. An argument of
/// which the source shows nothing is of the other kind.
fn read_arguments(source: &Source, index: usize, count: usize) -> (r: Vec<Argument>)
    requires
        source.fits(),
        source matches Source::Whole(declaration) ==> index < declaration@.attributes.len()
            && declaration@.attributes[index as int] is List
            && declaration@.attributes[index as int]->List_arguments.len() == count,
    ensures
        source matches Source::Whole(declaration) ==> argument_views(r@) == needed_arguments(
            declaration@.attributes[index as int]->List_arguments,
        ),
{
    let ghost all = match source {
        Source::Whole(declaration) => declaration@.attributes[index as int]->List_arguments,
        Source::Text(_) => Seq::empty(),
    };
    let mut arguments: Vec<Argument> = Vec::new();
    let mut position: usize = 0;
    assert(all.skip(0) =~= all);
    while position < count
        invariant
            source.fits(),
            position <= count,
            source matches Source::Whole(declaration) ==> index < declaration@.attributes.len()
                && declaration@.attributes[index as int] is List
                && declaration@.attributes[index as int]->List_arguments == all && all.len()
                == count,
            source is Whole ==> needed_arguments(all) == argument_views(arguments@)
                + needed_arguments(all.skip(position as int)),
        decreases count - position,
    {
        let argument = match source.argument(index, position) {
            Some(argument) => argument,
            None => Argument::Other,
        };
        let found = argument.alias().is_some();
        proof {
            if source is Whole {
                let rest = all.skip(position as int);
                assert(rest.drop_first() =~= all.skip(position + 1));
                assert(argument_views(arguments@.push(argument)) =~= argument_views(arguments@)
                    + seq![argument@]);
                assert(argument_views(arguments@) + (seq![argument@] + needed_arguments(
                    rest.drop_first(),
                )) =~= argument_views(arguments@.push(argument)) + needed_arguments(
                    rest.drop_first(),
                ));
                assert(argument_views(arguments@) + seq![argument@] =~= argument_views(
                    arguments@.push(argument),
                ));
            }
        }
        arguments.push(argument);
        if found {
            return arguments;
        }
        position += 1;
    }
    assert(argument_views(arguments@) + Seq::<ArgumentView>::empty() =~= argument_views(
        arguments@,
    ));
    arguments
}

/// Reads the attribute at `index`: its arguments only where it marks the
/// type for export. An attribute of which the source shows nothing is
/// unstructured.
fn read_attribute(source: &Source, index: usize) -> (r: Attribute)
    requires
        source.fits(),
        source matches Source::Whole(declaration) ==> index < declaration@.attributes.len(),
    ensures
        source matches Source::Whole(declaration) ==> r@ == needed_attribute(
            declaration@.attributes[index as int],
        ),
{
    match source.attribute(index) {
        None => Attribute::Unstructured,
        Some(AttributeOutline::Plain { path }) => Attribute::Plain { path },
        Some(AttributeOutline::List { path, arguments: count }) => {
            let arguments = if names_export(&path) {
                read_arguments(source, index, count)
            } else {
                Vec::new()
            };
            let r = Attribute::List { path, arguments };
            proof {
                if source is Whole {
                    assert(r@->List_arguments =~= needed_attribute(
                        source->Whole_0@.attributes[index as int],
                    )->List_arguments);
                }
            }
            r
        },
    }
}

/// Reads of a declaration what deriving needs of it: the name and the kind,
/// and of a struct the attributes up to the first that marks it for export.
fn read(source: &Source) -> (r: Result<Declaration, String>)
    requires
        source.fits(),
    ensures
        source matches Source::Whole(declaration) ==> (r matches Ok(read) && read@ == needed(
            declaration@,
        )),
{
    let outline = match source.outline() {
        Ok(outline) => outline,
        Err(message) => {
            return Err(message);
        },
    };
    let wanted = match outline.kind {
        DataKind::Struct => outline.attributes,
        _ => 0,
    };
    let ghost all = match source {
        Source::Whole(declaration) => declaration@.attributes,
        Source::Text(_) => Seq::empty(),
    };
    let mut attributes: Vec<Attribute> = Vec::new();
    let mut index: usize = 0;
    let mut found = false;
    assert(all.skip(0) =~= all);
    while index < wanted && !found
        invariant
            source.fits(),
            index <= wanted,
            attributes@.len() == index,
            source matches Source::Whole(declaration) ==> declaration@.attributes == all
                && wanted <= all.len() && (declaration@.kind == DataKind::Struct ==> wanted
                == all.len()),
            source is Whole ==> needed_attributes(all) == attribute_views(attributes@) + (if found {
                Seq::empty()
            } else {
                needed_attributes(all.skip(index as int))
            }),
        decreases wanted - index,
    {
        let attribute = read_attribute(source, index);
        found = attribute.is_export();
        proof {
            if source is Whole {
                let rest = all.skip(index as int);
                assert(rest.drop_first() =~= all.skip(index + 1));
                assert(attribute_views(attributes@.push(attribute)) =~= attribute_views(
                    attributes@,
                ) + seq![attribute@]);
                assert(attribute_views(attributes@) + (seq![attribute@] + needed_attributes(
                    rest.drop_first(),
                )) =~= attribute_views(attributes@.push(attribute)) + needed_attributes(
                    rest.drop_first(),
                ));
                assert(attribute_views(attributes@.push(attribute)) + Seq::<
                    AttributeView,
                >::empty() =~= attribute_views(attributes@.push(attribute)));
            }
        }
        attributes.push(attribute);
        index += 1;
    }
    let read = Declaration { name: outline.name, kind: outline.kind, attributes };
    proof {
        if source is Whole {
            let whole = source->Whole_0@;
            if whole.kind == DataKind::Struct {
                if !found {
                    assert(all.skip(index as int) =~= Seq::empty());
                }
                assert(attribute_views(attributes@) + Seq::<AttributeView>::empty()
                    =~= attribute_views(attributes@));
                assert(read@.attributes =~= needed(whole).attributes);
            } else {
                assert(read@.attributes =~= needed(whole).attributes);
            }
        }
    }
    Ok(read)
}

/// The part of a declaration that deriving reads: the name and the kind, and
/// of a struct the attributes up to the first that marks it for export. Of
/// that one the arguments stay up to the first that gives a host-side name,
/// of the others none.
pub fn needed_part(declaration: &Declaration) -> (r: Declaration)
    ensures
        r@ == needed(declaration@),
{
    match read(&Source::Whole(declaration)) {
        Ok(read) => read,
        Err(_) => vstd::pervasive::unreached(),
    }
}

/// Reads of a declaration what deriving needs of it, from its source text,
/// as [`needed_part`] takes it from a declaration.
///
/// A text that is not [`readable`] is refused before the parser sees it, and
/// no other text is; a text that the parser refuses fails with the parser's
/// message. What the parser makes of a text is not stated.
pub fn read_declaration(text: &str) -> (r: Result<Declaration, DeriveError>)
    ensures
        r matches Err(DeriveError::Unreadable) <==> !readable(text@),
        r matches Err(error) ==> error is Unreadable || error is Syntax,
{
    if !is_readable(text) {
        return Err(DeriveError::Unreadable);
    }
    match read(&Source::Text(text)) {
        Ok(read) => Ok(read),
        Err(message) => Err(DeriveError::Syntax(message)),
    }
}

/// Derives the exported type of a declaration from its source text: reads
/// the declaration with [`read_declaration`] and hands what was read to
/// [`expand`]. A text is refused as unreadable where it is not [`readable`],
/// and only there.
pub fn derive_try_from_jsvalue(input: &str) -> (r: Result<ExportedType, DeriveError>)
    ensures
        r matches Err(DeriveError::Unreadable) <==> !readable(input@),
{
    match read_declaration(input) {
        Err(error) => Err(error),
        Ok(declaration) => expand(&declaration),
    }
}

} // verus!
