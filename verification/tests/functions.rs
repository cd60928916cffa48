use generate_raw::model::{
    AliasDatatype, BuiltinType, Datatype, DatatypeIdent, DatatypeVariant, Document, GenerateError,
    HandleDatatype, Id, InterfaceFunc, InterfaceFuncParam, InterfaceFuncParamPosition,
    StructDatatype,
};

fn ident(name: &str) -> DatatypeIdent {
    DatatypeIdent::Ident(Id::new(name))
}

fn builtin(b: BuiltinType) -> DatatypeIdent {
    DatatypeIdent::Builtin(b)
}

fn array(of: DatatypeIdent) -> DatatypeIdent {
    DatatypeIdent::Array(Box::new(of))
}

fn alias(name: &str, to: DatatypeIdent) -> Datatype {
    Datatype { name: Id::new(name), variant: DatatypeVariant::Alias(AliasDatatype { to }) }
}

fn param(name: &str, type_: DatatypeIdent, at: usize) -> InterfaceFuncParam {
    InterfaceFuncParam { name: Id::new(name), type_, position: InterfaceFuncParamPosition::Param(at) }
}

fn result(name: &str, type_: DatatypeIdent, at: usize) -> InterfaceFuncParam {
    InterfaceFuncParam { name: Id::new(name), type_, position: InterfaceFuncParamPosition::Result(at) }
}

fn sample() -> Document {
    Document {
        datatypes: vec![
            Datatype { name: Id::new("fd"), variant: DatatypeVariant::Handle(HandleDatatype {}) },
            alias("errno", builtin(BuiltinType::U16)),
            alias("size", builtin(BuiltinType::U32)),
            alias("path", builtin(BuiltinType::String)),
            alias("iovec_array", array(ident("iovec"))),
            Datatype {
                name: Id::new("iovec"),
                variant: DatatypeVariant::Struct(StructDatatype { members: vec![] }),
            },
        ],
        modules: vec![],
    }
}

fn written(slot: &InterfaceFuncParam, doc: &Document) -> Result<String, GenerateError> {
    slot.check(doc)?;
    let mut s = String::new();
    slot.render(doc, &mut s);
    Ok(s)
}

fn declared(func: &InterfaceFunc, doc: &Document) -> Result<String, GenerateError> {
    func.check(doc)?;
    let mut s = String::new();
    func.render(doc, &mut s);
    Ok(s)
}

#[test]
fn parameter_by_value_is_name_and_type() {
    let doc = sample();
    assert_eq!(written(&param("fd", ident("fd"), 0), &doc).unwrap(), "fd: __wasi_fd_t");
    assert_eq!(written(&param("n", builtin(BuiltinType::S64), 0), &doc).unwrap(), "n: i64");
    assert_eq!(
        written(&param("buf", DatatypeIdent::Pointer(Box::new(builtin(BuiltinType::U8))), 0), &doc)
            .unwrap(),
        "buf: *mut u8"
    );
    assert_eq!(
        written(
            &param("buf", DatatypeIdent::ConstPointer(Box::new(builtin(BuiltinType::U8))), 0),
            &doc
        )
        .unwrap(),
        "buf: *const u8"
    );
}

#[test]
fn parameter_by_pointer_is_a_mutable_pointer() {
    let doc = sample();
    assert_eq!(
        written(&param("iov", ident("iovec"), 0), &doc).unwrap(),
        "iov: *mut __wasi_iovec_t"
    );
}

#[test]
fn string_parameter_becomes_pointer_and_length() {
    let doc = sample();
    assert_eq!(
        written(&param("path", builtin(BuiltinType::String), 0), &doc).unwrap(),
        "path_ptr: *const u8, path_len: usize"
    );
    assert_eq!(
        written(&param("path", ident("path"), 1), &doc).unwrap(),
        "path_ptr: *const u8, path_len: usize"
    );
}

#[test]
fn array_parameter_points_to_its_elements() {
    let doc = sample();
    assert_eq!(
        written(&param("iovs", ident("iovec_array"), 1), &doc).unwrap(),
        "iovs_ptr: *const __wasi_iovec_t, iovs_len: usize"
    );
    assert_eq!(
        written(&param("xs", array(builtin(BuiltinType::U32)), 1), &doc).unwrap(),
        "xs_ptr: *const u32, xs_len: usize"
    );
}

#[test]
fn array_of_arrays_is_refused() {
    let doc = sample();
    assert_eq!(
        written(&param("xs", array(array(builtin(BuiltinType::U32))), 1), &doc),
        Err(GenerateError::StandaloneArray)
    );
}

#[test]
fn parameter_named_with_a_reserved_word_is_escaped() {
    let doc = sample();
    assert_eq!(written(&param("in", ident("fd"), 0), &doc).unwrap(), "r#in: __wasi_fd_t");
    assert_eq!(
        written(&param("type", ident("iovec"), 0), &doc).unwrap(),
        "r#type: *mut __wasi_iovec_t"
    );
}

#[test]
fn pair_parameter_keeps_its_plain_name() {
    let doc = sample();
    assert_eq!(
        written(&param("in", builtin(BuiltinType::String), 0), &doc).unwrap(),
        "in_ptr: *const u8, in_len: usize"
    );
}

#[test]
fn result_slot_is_only_its_type() {
    let doc = sample();
    assert_eq!(written(&result("error", ident("errno"), 0), &doc).unwrap(), "__wasi_errno_t");
    assert_eq!(
        written(&result("stat", ident("iovec"), 0), &doc).unwrap(),
        "*mut __wasi_iovec_t"
    );
}

#[test]
fn result_slot_cannot_be_a_pair() {
    let doc = sample();
    assert_eq!(
        written(&result("name", builtin(BuiltinType::String), 0), &doc),
        Err(GenerateError::PairResult)
    );
    assert_eq!(written(&result("name", ident("path"), 0), &doc), Err(GenerateError::PairResult));
}

#[test]
fn slot_of_unknown_type_is_refused() {
    let doc = sample();
    assert_eq!(written(&param("x", ident("nowhere"), 0), &doc), Err(GenerateError::UnknownDatatype));
}

#[test]
fn function_without_results_returns_nothing() {
    let doc = sample();
    let func = InterfaceFunc {
        name: Id::new("sched_yield"),
        params: vec![],
        results: vec![],
    };
    assert_eq!(
        declared(&func, &doc).unwrap(),
        "#[link_name = \"sched_yield\"]\npub fn __wasi_sched_yield();"
    );
}

#[test]
fn proc_exit_never_returns() {
    let doc = sample();
    let func = InterfaceFunc {
        name: Id::new("proc_exit"),
        params: vec![param("rval", builtin(BuiltinType::U32), 0)],
        results: vec![],
    };
    assert_eq!(
        declared(&func, &doc).unwrap(),
        "#[link_name = \"proc_exit\"]\npub fn __wasi_proc_exit(rval: u32,) -> !;"
    );
}

#[test]
fn proc_exit_with_a_result_returns_it() {
    let doc = sample();
    let func = InterfaceFunc {
        name: Id::new("proc_exit"),
        params: vec![],
        results: vec![result("error", ident("errno"), 0)],
    };
    assert_eq!(
        declared(&func, &doc).unwrap(),
        "#[link_name = \"proc_exit\"]\npub fn __wasi_proc_exit() -> __wasi_errno_t;"
    );
}

#[test]
fn function_with_one_result_returns_it() {
    let doc = sample();
    let func = InterfaceFunc {
        name: Id::new("fd_close"),
        params: vec![param("fd", ident("fd"), 0)],
        results: vec![result("error", ident("errno"), 0)],
    };
    assert_eq!(
        declared(&func, &doc).unwrap(),
        "#[link_name = \"fd_close\"]\npub fn __wasi_fd_close(fd: __wasi_fd_t,) -> __wasi_errno_t;"
    );
}

#[test]
fn function_with_three_results_has_two_out_parameters() {
    let doc = sample();
    let func = InterfaceFunc {
        name: Id::new("fd_stat"),
        params: vec![param("fd", ident("fd"), 0)],
        results: vec![
            result("error", ident("errno"), 0),
            result("nread", ident("size"), 1),
            result("type", ident("iovec"), 2),
        ],
    };
    assert_eq!(
        declared(&func, &doc).unwrap(),
        "#[link_name = \"fd_stat\"]\npub fn __wasi_fd_stat(fd: __wasi_fd_t,\
         nread: *mut __wasi_size_t,r#type: *mut __wasi_iovec_t,) -> __wasi_errno_t;"
    );
}

#[test]
fn function_with_every_kind_of_parameter() {
    let doc = sample();
    let func = InterfaceFunc {
        name: Id::new("path_open"),
        params: vec![
            param("fd", ident("fd"), 0),
            param("path", builtin(BuiltinType::String), 1),
            param("iovs", ident("iovec_array"), 2),
            param("stat", ident("iovec"), 3),
        ],
        results: vec![result("error", ident("errno"), 0), result("opened", ident("fd"), 1)],
    };
    assert_eq!(
        declared(&func, &doc).unwrap(),
        "#[link_name = \"path_open\"]\npub fn __wasi_path_open(fd: __wasi_fd_t,\
         path_ptr: *const u8, path_len: usize,\
         iovs_ptr: *const __wasi_iovec_t, iovs_len: usize,\
         stat: *mut __wasi_iovec_t,\
         opened: *mut __wasi_fd_t,) -> __wasi_errno_t;"
    );
}

#[test]
fn later_result_of_array_type_is_refused() {
    let doc = sample();
    let func = InterfaceFunc {
        name: Id::new("f"),
        params: vec![],
        results: vec![
            result("error", ident("errno"), 0),
            result("items", array(builtin(BuiltinType::U8)), 1),
        ],
    };
    assert_eq!(declared(&func, &doc), Err(GenerateError::StandaloneArray));
}

#[test]
fn faults_are_reported_in_the_order_of_writing() {
    let doc = sample();
    let func = InterfaceFunc {
        name: Id::new("f"),
        params: vec![param("ok", ident("fd"), 0), param("x", ident("nowhere"), 1)],
        results: vec![
            result("name", builtin(BuiltinType::String), 0),
            result("items", array(builtin(BuiltinType::U8)), 1),
        ],
    };
    assert_eq!(declared(&func, &doc), Err(GenerateError::UnknownDatatype));
    let func = InterfaceFunc {
        name: Id::new("f"),
        params: vec![param("ok", ident("fd"), 0)],
        results: vec![
            result("name", builtin(BuiltinType::String), 0),
            result("items", array(builtin(BuiltinType::U8)), 1),
        ],
    };
    assert_eq!(declared(&func, &doc), Err(GenerateError::StandaloneArray));
    let func = InterfaceFunc {
        name: Id::new("f"),
        params: vec![param("ok", ident("fd"), 0)],
        results: vec![result("name", builtin(BuiltinType::String), 0)],
    };
    assert_eq!(declared(&func, &doc), Err(GenerateError::PairResult));
}
