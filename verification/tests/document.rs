use generate_raw::generate;
use generate_raw::model::{
    AliasDatatype, BuiltinType, Datatype, DatatypeIdent, DatatypeVariant, Document, EnumDatatype,
    FlagsDatatype, GenerateError, HandleDatatype, Id, IntRepr, InterfaceFunc, InterfaceFuncParam,
    InterfaceFuncParamPosition, Module, StructDatatype, StructMember,
};

const HEADER: &str = "// This file is automatically generated, DO NOT EDIT\n\
//\n\
// To regenerate this file run the `crates/generate-raw` command\n\
\n\
#![allow(non_camel_case_types)]\n\
\n";

fn ident(name: &str) -> DatatypeIdent {
    DatatypeIdent::Ident(Id::new(name))
}

fn builtin(b: BuiltinType) -> DatatypeIdent {
    DatatypeIdent::Builtin(b)
}

fn ids(names: &[&str]) -> Vec<Id> {
    names.iter().map(|n| Id::new(n)).collect()
}

fn color_document() -> Document {
    Document {
        datatypes: vec![Datatype {
            name: Id::new("color"),
            variant: DatatypeVariant::Enum(EnumDatatype {
                repr: IntRepr::U8,
                variants: ids(&["red", "green", "blue"]),
            }),
        }],
        modules: vec![Module {
            name: Id::new("demo"),
            funcs: vec![InterfaceFunc {
                name: Id::new("get_color"),
                params: vec![],
                results: vec![InterfaceFuncParam {
                    name: Id::new("color"),
                    type_: ident("color"),
                    position: InterfaceFuncParamPosition::Result(0),
                }],
            }],
        }],
    }
}

#[test]
fn empty_document_is_only_the_header() {
    let doc = Document { datatypes: vec![], modules: vec![] };
    assert_eq!(generate(&doc), Ok(HEADER.to_string()));
}

#[test]
fn color_enum_and_its_getter() {
    let raw = generate(&color_document()).unwrap();
    assert_eq!(
        raw,
        format!(
            "{}{}",
            HEADER,
            "pub type __wasi_color_t = u8;\n\
             pub const __WASI_COLOR_RED: __wasi_color_t = 0;\
             pub const __WASI_COLOR_GREEN: __wasi_color_t = 1;\
             pub const __WASI_COLOR_BLUE: __wasi_color_t = 2;\n\
             \n\
             #[link(wasm_import_module =\"demo\")]\n\
             extern \"C\" {\n\
             #[link_name = \"get_color\"]\n\
             pub fn __wasi_get_color() -> __wasi_color_t;\n\
             }\n\
             \n"
        )
    );
}

#[test]
fn rendering_twice_gives_the_same_text() {
    let doc = color_document();
    assert_eq!(generate(&doc), generate(&doc));
    assert_eq!(generate(&color_document()), generate(&doc));
}

#[test]
fn module_without_functions_is_an_empty_block() {
    let doc = Document {
        datatypes: vec![],
        modules: vec![Module { name: Id::new("wasi_unstable"), funcs: vec![] }],
    };
    assert_eq!(
        generate(&doc).unwrap(),
        format!("{}{}", HEADER, "#[link(wasm_import_module =\"wasi_unstable\")]\nextern \"C\" {\n}\n\n")
    );
}

#[test]
fn module_check_and_render_agree_with_generate() {
    let doc = color_document();
    assert_eq!(doc.check(), Ok(()));
    assert_eq!(doc.modules[0].check(&doc), Ok(()));
    let mut s = String::new();
    doc.modules[0].render(&doc, &mut s);
    assert_eq!(
        s,
        "#[link(wasm_import_module =\"demo\")]\nextern \"C\" {\n\
         #[link_name = \"get_color\"]\npub fn __wasi_get_color() -> __wasi_color_t;\n}"
    );
    let mut whole = String::from("// before\n");
    doc.render(&mut whole);
    assert_eq!(whole, format!("// before\n{}", generate(&doc).unwrap()));
}

#[test]
fn declarations_keep_the_order_of_the_document() {
    let alias = |name: &str, to: DatatypeIdent| Datatype {
        name: Id::new(name),
        variant: DatatypeVariant::Alias(AliasDatatype { to }),
    };
    let func = |name: &str| InterfaceFunc { name: Id::new(name), params: vec![], results: vec![] };
    let doc = Document {
        datatypes: vec![
            alias("size", builtin(BuiltinType::U32)),
            alias("path", builtin(BuiltinType::String)),
            Datatype { name: Id::new("fd"), variant: DatatypeVariant::Handle(HandleDatatype {}) },
            Datatype {
                name: Id::new("rights"),
                variant: DatatypeVariant::Flags(FlagsDatatype {
                    repr: IntRepr::U64,
                    flags: ids(&["fd_read", "fd_write"]),
                }),
            },
            Datatype {
                name: Id::new("prestat"),
                variant: DatatypeVariant::Struct(StructDatatype {
                    members: vec![StructMember { name: Id::new("in"), type_: ident("size") }],
                }),
            },
        ],
        modules: vec![
            Module { name: Id::new("second"), funcs: vec![func("b"), func("a")] },
            Module { name: Id::new("first"), funcs: vec![func("proc_exit")] },
        ],
    };
    assert_eq!(
        generate(&doc).unwrap(),
        format!(
            "{}{}",
            HEADER,
            "pub type __wasi_size_t = usize;\n\
             \n\
             pub type __wasi_fd_t = u32;\n\
             \n\
             pub type __wasi_rights_t = u64;\n\
             pub const __WASI_RIGHTS_FD_READ: __wasi_rights_t = 0x1;\
             pub const __WASI_RIGHTS_FD_WRITE: __wasi_rights_t = 0x2;\n\
             \n\
             #[repr(C)]\n#[derive(Copy, Clone)]\npub struct __wasi_prestat_t {\n\
             pub r#in: __wasi_size_t,\n}\n\
             \n\
             #[link(wasm_import_module =\"second\")]\nextern \"C\" {\n\
             #[link_name = \"b\"]\npub fn __wasi_b();\n\
             #[link_name = \"a\"]\npub fn __wasi_a();\n\
             }\n\
             \n\
             #[link(wasm_import_module =\"first\")]\nextern \"C\" {\n\
             #[link_name = \"proc_exit\"]\npub fn __wasi_proc_exit() -> !;\n\
             }\n\
             \n"
        )
    );
}

#[test]
fn fault_in_a_function_fails_the_document() {
    let mut doc = color_document();
    doc.modules[0].funcs[0].results[0].type_ = builtin(BuiltinType::String);
    assert_eq!(doc.check(), Err(GenerateError::PairResult));
    assert_eq!(generate(&doc), Err(GenerateError::PairResult));
}

#[test]
fn fault_in_a_datatype_comes_before_one_in_a_module() {
    let mut doc = color_document();
    doc.modules[0].funcs[0].results[0].type_ = builtin(BuiltinType::String);
    doc.datatypes.push(Datatype {
        name: Id::new("wide"),
        variant: DatatypeVariant::Flags(FlagsDatatype {
            repr: IntRepr::U8,
            flags: ids(&["a", "b", "c", "d", "e", "f", "g", "h", "i"]),
        }),
    });
    assert_eq!(generate(&doc), Err(GenerateError::TooManyFlags));
}

#[test]
fn unknown_result_type_fails_the_document() {
    let mut doc = color_document();
    doc.datatypes.clear();
    assert_eq!(generate(&doc), Err(GenerateError::UnknownDatatype));
}

fn handle(name: &str) -> Datatype {
    Datatype { name: Id::new(name), variant: DatatypeVariant::Handle(HandleDatatype {}) }
}

fn alias(name: &str, to: DatatypeIdent) -> Datatype {
    Datatype { name: Id::new(name), variant: DatatypeVariant::Alias(AliasDatatype { to }) }
}

#[test]
fn an_empty_line_stands_between_two_declarations() {
    let doc = Document { datatypes: vec![handle("a"), handle("b")], modules: vec![] };
    assert_eq!(
        generate(&doc).unwrap(),
        format!("{}{}", HEADER, "pub type __wasi_a_t = u32;\n\npub type __wasi_b_t = u32;\n\n")
    );
}

#[test]
fn an_empty_line_stands_between_two_modules() {
    let doc = Document {
        datatypes: vec![handle("a")],
        modules: vec![
            Module { name: Id::new("m"), funcs: vec![] },
            Module { name: Id::new("n"), funcs: vec![] },
        ],
    };
    assert_eq!(
        generate(&doc).unwrap(),
        format!(
            "{}{}",
            HEADER,
            "pub type __wasi_a_t = u32;\n\
             \n\
             #[link(wasm_import_module =\"m\")]\nextern \"C\" {\n}\n\
             \n\
             #[link(wasm_import_module =\"n\")]\nextern \"C\" {\n}\n\
             \n"
        )
    );
}

#[test]
fn an_alias_without_declaration_contributes_nothing() {
    let only = Document {
        datatypes: vec![alias("path", builtin(BuiltinType::String))],
        modules: vec![],
    };
    assert_eq!(generate(&only), Ok(HEADER.to_string()));
    let between = Document {
        datatypes: vec![
            handle("a"),
            alias("path", builtin(BuiltinType::String)),
            alias("bytes", DatatypeIdent::Array(Box::new(builtin(BuiltinType::U8)))),
            handle("b"),
        ],
        modules: vec![],
    };
    assert_eq!(
        generate(&between).unwrap(),
        format!("{}{}", HEADER, "pub type __wasi_a_t = u32;\n\npub type __wasi_b_t = u32;\n\n")
    );
}

#[test]
fn is_declared_tells_aliases_to_pairs_apart() {
    let doc = Document {
        datatypes: vec![
            handle("a"),
            alias("path", builtin(BuiltinType::String)),
            alias("same", ident("path")),
            alias("n", builtin(BuiltinType::U8)),
        ],
        modules: vec![],
    };
    let declared: Vec<bool> = doc.datatypes.iter().map(|d| d.is_declared(&doc)).collect();
    assert_eq!(declared, vec![true, false, false, true]);
    for datatype in &doc.datatypes {
        assert_eq!(datatype.check(&doc), Ok(()));
        let mut s = String::new();
        datatype.render(&doc, &mut s);
        assert_eq!(datatype.is_declared(&doc), !s.is_empty());
    }
}
