use wasm_bindgen_derive::derive::{
    derive_try_from_jsvalue, expand, needed_part, read_declaration, DeriveError,
};
use wasm_bindgen_derive::exported::ExportedType;
use wasm_bindgen_derive::scan::is_readable;
use wasm_bindgen_derive::syntax::{Argument, Attribute, DataKind, Declaration};

const UNREADABLE: &str =
    "unsupported literal: a C string, a number with a base and a period, or an expansion error";

fn text(s: &str) -> Option<String> {
    Some(s.to_string())
}

fn exported(name: &str, alias: Option<&str>) -> ExportedType {
    ExportedType {
        name: name.to_string(),
        alias: alias.map(|alias| alias.to_string()),
    }
}

#[derive(Clone)]
struct MyType(usize);

#[derive(Clone)]
struct MyTypeCustomName(usize);

#[test]
fn pass() {
    let ty = derive_try_from_jsvalue("#[wasm_bindgen] #[derive(Clone)] struct MyType(usize);");
    assert_eq!(ty, Ok(exported("MyType", None)));
    let ty = ty.unwrap();
    let x = ty.try_from_js_value(&ty.into_handle(MyType(1))).unwrap();
    assert_eq!(x.0, 1);
    let ty = derive_try_from_jsvalue(
        "#[wasm_bindgen(js_name = \"SomeJsName\")] #[derive(Clone)] struct MyTypeCustomName(usize);",
    );
    assert_eq!(ty, Ok(exported("MyTypeCustomName", Some("SomeJsName"))));
    let ty = ty.unwrap();
    let y = ty.try_from_js_value(&ty.into_handle(MyTypeCustomName(2))).unwrap();
    assert_eq!(y.0, 2);
}

#[test]
fn reads_name_kind_and_attributes_in_order() {
    let read = read_declaration(
        "#[doc = \"a type\"] #[cfg(feature = \"x\")] \
         #[wasm_bindgen(skip, js_name = 5, js_name = \"A\", js_name = \"B\", other(x))] \
         #[repr(C)] pub struct Point { x: u32, y: u32 }",
    );
    let expected = Declaration {
        name: "Point".to_string(),
        kind: DataKind::Struct,
        attributes: vec![
            Attribute::Plain { path: text("doc") },
            Attribute::List { path: text("cfg"), arguments: vec![] },
            Attribute::List {
                path: text("wasm_bindgen"),
                arguments: vec![
                    Argument::Other,
                    Argument::NameValue { key: text("js_name"), value: None },
                    Argument::NameValue { key: text("js_name"), value: text("A") },
                ],
            },
        ],
    };
    assert_eq!(read, Ok(expected));
}

#[test]
fn reads_every_argument_where_none_gives_an_alias() {
    let read = read_declaration("#[wasm_bindgen(skip, js_class = \"C\", 7, other(x))] struct S;");
    assert_eq!(
        read.unwrap().attributes,
        vec![Attribute::List {
            path: text("wasm_bindgen"),
            arguments: vec![
                Argument::Other,
                Argument::NameValue { key: text("js_class"), value: text("C") },
                Argument::Other,
                Argument::Other,
            ],
        }]
    );
}

#[test]
fn reads_every_attribute_where_none_marks_the_export() {
    let read = read_declaration("#[derive(Clone)] #[repr(C)] #[doc = \"x\"] struct S;");
    assert_eq!(
        read.unwrap().attributes,
        vec![
            Attribute::List { path: text("derive"), arguments: vec![] },
            Attribute::List { path: text("repr"), arguments: vec![] },
            Attribute::Plain { path: text("doc") },
        ]
    );
}

#[test]
fn reads_nothing_behind_the_first_export_attribute() {
    let read = read_declaration(
        "#[wasm_bindgen] #[wasm_bindgen(js_name = \"Late\")] #[derive(Clone)] struct S;",
    );
    assert_eq!(read.unwrap().attributes, vec![Attribute::Plain { path: text("wasm_bindgen") }]);
}

#[test]
fn reads_no_attribute_of_what_is_no_struct() {
    let read = read_declaration("#[wasm_bindgen] #[repr(u8)] enum E { A }");
    let expected = Declaration { name: "E".to_string(), kind: DataKind::Enum, attributes: vec![] };
    assert_eq!(read, Ok(expected));
}

#[test]
fn reads_a_declaration_without_attributes() {
    let read = read_declaration("struct Unit;");
    let expected =
        Declaration { name: "Unit".to_string(), kind: DataKind::Struct, attributes: vec![] };
    assert_eq!(read, Ok(expected));
}

#[test]
fn reads_the_kind_of_data() {
    assert_eq!(read_declaration("enum E { A }").unwrap().kind, DataKind::Enum);
    assert_eq!(read_declaration("union U { a: u32, b: i32 }").unwrap().kind, DataKind::Union);
    assert_eq!(read_declaration("struct S(u8);").unwrap().kind, DataKind::Struct);
}

#[test]
fn reads_paths_that_are_no_single_identifier_as_absent() {
    let read = read_declaration("#[a::b] #[c::d(x)] #[wasm_bindgen(e::f = \"g\")] struct S;");
    assert_eq!(
        read.unwrap().attributes,
        vec![
            Attribute::Plain { path: None },
            Attribute::List { path: None, arguments: vec![] },
            Attribute::List {
                path: text("wasm_bindgen"),
                arguments: vec![Argument::NameValue { key: None, value: text("g") }],
            },
        ]
    );
}

#[test]
fn reads_tokens_that_are_no_meta_item_as_unstructured() {
    let read = read_declaration("#[wasm_bindgen(js_name = Alias)] #[wasm_bindgen] struct S;");
    assert_eq!(
        read.unwrap().attributes,
        vec![Attribute::Unstructured, Attribute::Plain { path: text("wasm_bindgen") }]
    );
}

#[test]
fn reads_the_value_of_a_string_literal_not_its_source() {
    let read = read_declaration("#[wasm_bindgen(js_name = \"a\\\"b\\u{41}\")] struct S;");
    assert_eq!(
        read.unwrap().attributes,
        vec![Attribute::List {
            path: text("wasm_bindgen"),
            arguments: vec![Argument::NameValue { key: text("js_name"), value: text("a\"bA") }],
        }]
    );
}

#[test]
fn derive_refuses_text_that_is_no_declaration() {
    match derive_try_from_jsvalue("fn main() {}") {
        Err(DeriveError::Syntax(message)) => assert!(!message.is_empty()),
        other => panic!("{:?}", other),
    }
    assert!(matches!(derive_try_from_jsvalue(""), Err(DeriveError::Syntax(_))));
    assert!(matches!(derive_try_from_jsvalue("struct \"open"), Err(DeriveError::Syntax(_))));
    assert!(read_declaration("struct").is_err());
}

#[test]
fn syntax_error_carries_the_parser_message() {
    let read = read_declaration("fn main() {}");
    let derived = derive_try_from_jsvalue("fn main() {}");
    assert_eq!(derived, Err(read.unwrap_err()));
    assert!(matches!(derived, Err(DeriveError::Syntax(_))));
}

#[test]
fn derive_refuses_an_enum_and_a_union() {
    let r = derive_try_from_jsvalue("#[wasm_bindgen] enum Colour { Red, Green }");
    assert_eq!(r, Err(DeriveError::NotStruct));
    let r = derive_try_from_jsvalue("#[wasm_bindgen] union Bits { a: u32, b: i32 }");
    assert_eq!(r, Err(DeriveError::NotStruct));
}

#[test]
fn kind_is_checked_before_the_export_attribute() {
    assert_eq!(derive_try_from_jsvalue("enum Colour { Red }"), Err(DeriveError::NotStruct));
}

#[test]
fn derive_refuses_a_struct_that_is_not_exported() {
    let r = derive_try_from_jsvalue("#[derive(Clone)] struct Plain(usize);");
    assert_eq!(r, Err(DeriveError::NotExported));
    let r = derive_try_from_jsvalue("struct Bare;");
    assert_eq!(r, Err(DeriveError::NotExported));
    let r = derive_try_from_jsvalue("#[other::wasm_bindgen] struct Qualified;");
    assert_eq!(r, Err(DeriveError::NotExported));
}

#[test]
fn export_attribute_that_is_no_meta_item_does_not_count() {
    let r = derive_try_from_jsvalue("#[wasm_bindgen(js_name = Alias)] struct S;");
    assert_eq!(r, Err(DeriveError::NotExported));
}

#[test]
fn first_export_attribute_decides_the_alias() {
    let r = derive_try_from_jsvalue(
        "#[wasm_bindgen] #[wasm_bindgen(js_name = \"Late\")] struct S;",
    );
    assert_eq!(r, Ok(exported("S", None)));
    let r = derive_try_from_jsvalue(
        "#[wasm_bindgen(js_name = \"Early\")] #[wasm_bindgen(js_name = \"Late\")] struct S;",
    );
    assert_eq!(r, Ok(exported("S", Some("Early"))));
}

#[test]
fn first_string_assigned_to_the_key_is_the_alias() {
    let r = derive_try_from_jsvalue(
        "#[wasm_bindgen(inspectable, js_name = 7, js_class = \"C\", js_name = \"One\", js_name = \"Two\")] struct S;",
    );
    assert_eq!(r, Ok(exported("S", Some("One"))));
}

#[test]
fn export_attribute_of_the_name_value_form_gives_no_alias() {
    let r = derive_try_from_jsvalue("#[wasm_bindgen = \"x\"] struct S;");
    assert_eq!(r, Ok(exported("S", None)));
}

#[test]
fn expand_works_on_a_declaration_written_by_hand() {
    let declaration = Declaration {
        name: "Hand".to_string(),
        kind: DataKind::Struct,
        attributes: vec![
            Attribute::Unstructured,
            Attribute::List { path: None, arguments: vec![] },
            Attribute::List {
                path: text("wasm_bindgen"),
                arguments: vec![
                    Argument::NameValue { key: None, value: text("no") },
                    Argument::NameValue { key: text("js_class"), value: text("no") },
                    Argument::NameValue { key: text("js_name"), value: text("yes") },
                ],
            },
        ],
    };
    assert_eq!(expand(&declaration), Ok(exported("Hand", Some("yes"))));
    let declaration =
        Declaration { name: "Hand".to_string(), kind: DataKind::Union, attributes: vec![] };
    assert_eq!(expand(&declaration), Err(DeriveError::NotStruct));
    let declaration =
        Declaration { name: "Hand".to_string(), kind: DataKind::Struct, attributes: vec![] };
    assert_eq!(expand(&declaration), Err(DeriveError::NotExported));
}

#[test]
fn derive_error_messages() {
    assert_eq!(
        DeriveError::NotStruct.message(),
        "TryFromJsValue may only be derived on structs"
    );
    assert_eq!(
        DeriveError::NotExported.message(),
        "TryFromJsValue can be defined only on struct exported to wasm with #[wasm_bindgen]"
    );
    assert_eq!(DeriveError::Syntax("expected `struct`".to_string()).message(), "expected `struct`");
}

#[test]
fn identity_tag_is_the_alias_or_else_the_name() {
    assert_eq!(ExportedType::new("MyType", None).identity_tag(), "MyType");
    assert_eq!(ExportedType::new("MyType", Some("SomeJsName")).identity_tag(), "SomeJsName");
}

#[test]
fn export_attribute_names_the_host_side_class() {
    assert_eq!(
        ExportedType::new("MyType", None).export_attribute(),
        "::wasm_bindgen::prelude::wasm_bindgen"
    );
    assert_eq!(
        ExportedType::new("MyType", Some("SomeJsName")).export_attribute(),
        "::wasm_bindgen::prelude::wasm_bindgen(js_class = \"SomeJsName\")"
    );
}

#[test]
fn text_with_a_c_string_is_refused_before_it_is_parsed() {
    for text in [
        "#[doc = c\"x\"] struct S;",
        "#[wasm_bindgen(c\"x\")] struct S;",
        "#[wasm_bindgen(js_name = cr\"x\")] struct S;",
        "#[wasm_bindgen] struct S([u8; cr#\"x\"#]);",
        "enum E { A = c\"x\" }",
        "#[wasm_bindgen] #[doc = c\"x\"] struct S;",
        "#[wasm_bindgen] struct S<'c\"x\">;",
        "c\"x\"",
    ] {
        assert!(!is_readable(text), "{}", text);
        assert_eq!(read_declaration(text), Err(DeriveError::Unreadable), "{}", text);
        assert_eq!(
            derive_try_from_jsvalue(text),
            Err(DeriveError::Unreadable),
            "{}",
            text
        );
    }
}

#[test]
fn text_with_the_marker_of_a_failed_expansion_is_refused() {
    for text in [
        "#[doc = (/*ERROR*/)] struct S;",
        "struct S([u8; (/*ERROR*/)]);",
        "struct S(/*ERROR*/);",
        "(/*ERROR*/)",
    ] {
        assert!(!is_readable(text), "{}", text);
        assert_eq!(
            derive_try_from_jsvalue(text),
            Err(DeriveError::Unreadable),
            "{}",
            text
        );
    }
}

#[test]
fn text_with_a_based_number_and_a_period_is_refused() {
    for text in ["#[wasm_bindgen] struct S([u8; 0b1.0]);", "#[doc = 0x1.5] struct S;"] {
        assert_eq!(derive_try_from_jsvalue(text), Err(DeriveError::Unreadable), "{}", text);
    }
}

#[test]
fn unreadable_is_told_from_a_syntax_error() {
    assert_eq!(derive_try_from_jsvalue("c\"x\""), Err(DeriveError::Unreadable));
    assert!(matches!(derive_try_from_jsvalue("\"x\""), Err(DeriveError::Syntax(_))));
    assert_eq!(DeriveError::Unreadable.message(), UNREADABLE);
}

#[test]
fn a_c_before_a_quote_inside_a_string_or_a_comment_does_no_harm() {
    for text in [
        "#[wasm_bindgen] #[doc = \" c\"] struct S;",
        "#[doc = \" written in c\"] #[wasm_bindgen] struct S;",
        "#[cfg(feature = \"obj-c\")] #[wasm_bindgen] struct S;",
        "#[wasm_bindgen] #[doc = r#\"say c\"x\"\"#] struct S;",
        "/// not c\"x\"\n#[wasm_bindgen] struct S;",
        "/* not c\"x\" /* nor cr#\"x\"# */ */ #[wasm_bindgen] struct S;",
        "#[wasm_bindgen] struct S; // c\"x\"",
        "#[wasm_bindgen] #[doc = \"(/*ERROR*/)\"] struct S;",
        "#[wasm_bindgen] #[doc = \"0x1.5\"] struct S;",
    ] {
        assert_eq!(derive_try_from_jsvalue(text), Ok(exported("S", None)), "{}", text);
    }
}

#[test]
fn alias_of_one_letter_is_derived() {
    let r = derive_try_from_jsvalue("#[wasm_bindgen(js_name = \"c\")] struct S;");
    assert_eq!(r, Ok(exported("S", Some("c"))));
}

#[test]
fn readable_literals_of_every_other_kind_are_parsed() {
    for literal in [
        "\"s\"", "r\"s\"", "r#\"s\"#", "b\"s\"", "br\"s\"", "'x'", "b'x'", "1", "-1", "0x1F", "1.5e3", "1u8",
        "true",
    ] {
        let text = format!("#[doc = {}] #[wasm_bindgen(skip = {})] struct S([u8; 4]);", literal, literal);
        assert_eq!(derive_try_from_jsvalue(&text), Ok(exported("S", None)), "{}", text);
    }
}

#[test]
fn the_part_that_is_read_gives_what_the_whole_gives() {
    let source = "#[doc = \"d\"] #[cfg(js_name = \"No\")] \
                  #[wasm_bindgen(skip, js_name = \"Yes\", js_name = \"Late\")] \
                  #[wasm_bindgen(js_name = \"Later\")] struct S;";
    let whole = Declaration {
        name: "S".to_string(),
        kind: DataKind::Struct,
        attributes: vec![
            Attribute::Plain { path: text("doc") },
            Attribute::List {
                path: text("cfg"),
                arguments: vec![Argument::NameValue { key: text("js_name"), value: text("No") }],
            },
            Attribute::List {
                path: text("wasm_bindgen"),
                arguments: vec![
                    Argument::Other,
                    Argument::NameValue { key: text("js_name"), value: text("Yes") },
                    Argument::NameValue { key: text("js_name"), value: text("Late") },
                ],
            },
            Attribute::List {
                path: text("wasm_bindgen"),
                arguments: vec![Argument::NameValue {
                    key: text("js_name"),
                    value: text("Later"),
                }],
            },
        ],
    };
    let read = read_declaration(source).unwrap();
    assert_eq!(read.attributes.len(), 3);
    assert_eq!(read, needed_part(&whole));
    assert_eq!(needed_part(&read), read);
    assert_eq!(expand(&read), expand(&whole));
    assert_eq!(derive_try_from_jsvalue(source), Ok(exported("S", Some("Yes"))));
}

#[test]
fn needed_part_of_a_declaration() {
    let whole = Declaration {
        name: "S".to_string(),
        kind: DataKind::Struct,
        attributes: vec![
            Attribute::Unstructured,
            Attribute::List {
                path: text("cfg"),
                arguments: vec![Argument::NameValue { key: text("js_name"), value: text("No") }],
            },
            Attribute::List {
                path: text("wasm_bindgen"),
                arguments: vec![
                    Argument::Other,
                    Argument::NameValue { key: text("js_name"), value: None },
                    Argument::NameValue { key: None, value: text("No") },
                    Argument::NameValue { key: text("js_name"), value: text("Yes") },
                    Argument::Other,
                ],
            },
            Attribute::Plain { path: text("wasm_bindgen") },
        ],
    };
    let needed = Declaration {
        name: "S".to_string(),
        kind: DataKind::Struct,
        attributes: vec![
            Attribute::Unstructured,
            Attribute::List { path: text("cfg"), arguments: vec![] },
            Attribute::List {
                path: text("wasm_bindgen"),
                arguments: vec![
                    Argument::Other,
                    Argument::NameValue { key: text("js_name"), value: None },
                    Argument::NameValue { key: None, value: text("No") },
                    Argument::NameValue { key: text("js_name"), value: text("Yes") },
                ],
            },
        ],
    };
    assert_eq!(needed_part(&whole), needed);
    assert_eq!(expand(&whole), expand(&needed));
}

#[test]
fn needed_part_of_what_is_no_struct_has_no_attribute() {
    let whole = Declaration {
        name: "E".to_string(),
        kind: DataKind::Enum,
        attributes: vec![Attribute::Plain { path: text("wasm_bindgen") }],
    };
    let needed = Declaration { name: "E".to_string(), kind: DataKind::Enum, attributes: vec![] };
    assert_eq!(needed_part(&whole), needed);
}

#[test]
fn needed_part_of_a_struct_that_is_not_exported_keeps_every_head() {
    let whole = Declaration {
        name: "S".to_string(),
        kind: DataKind::Struct,
        attributes: vec![
            Attribute::Plain { path: text("doc") },
            Attribute::List { path: None, arguments: vec![Argument::Other] },
        ],
    };
    let needed = Declaration {
        name: "S".to_string(),
        kind: DataKind::Struct,
        attributes: vec![
            Attribute::Plain { path: text("doc") },
            Attribute::List { path: None, arguments: vec![] },
        ],
    };
    assert_eq!(needed_part(&whole), needed);
    assert_eq!(expand(&whole), Err(DeriveError::NotExported));
}
