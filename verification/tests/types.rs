use wit_bindgen_core::Files;
use wit_bindgen_gen_guest_c::bindgen::Error;
use wit_bindgen_gen_guest_c::gen::C;
use wit_bindgen_gen_guest_c::ir::Case;
use wit_bindgen_gen_guest_c::ir::Field;
use wit_bindgen_gen_guest_c::ir::Function;
use wit_bindgen_gen_guest_c::ir::Interface;
use wit_bindgen_gen_guest_c::ir::Type;
use wit_bindgen_gen_guest_c::ir::TypeDef;
use wit_bindgen_gen_guest_c::ir::TypeDefKind;
use wit_bindgen_gen_guest_c::repr::Direction;
use wit_bindgen_gen_guest_c::repr::WasmSignature;
use wit_bindgen_gen_guest_c::repr::WasmType;

fn squash(text: &str) -> String {
    text.split_whitespace().collect::<Vec<_>>().join(" ")
}

fn named(name: &str, kind: TypeDefKind) -> TypeDef {
    TypeDef { name: Some(name.to_string()), kind, docs: None }
}

fn anon(kind: TypeDefKind) -> TypeDef {
    TypeDef { name: None, kind, docs: None }
}

fn strings(names: &[&str]) -> Vec<String> {
    names.iter().map(|n| n.to_string()).collect()
}

fn field(name: &str, ty: Type) -> Field {
    Field { name: name.to_string(), ty }
}

fn case(name: &str, ty: Option<Type>) -> Case {
    Case { name: name.to_string(), ty }
}

/// 0 record person, 1 empty record, 2 list of strings, 3 option of person,
/// 4 tuple, 5 enum, 6 result of list and enum, 7 future, 8 stream, 9 alias of
/// 2 without a name, 10 list of u8.
fn iface() -> Interface {
    Interface {
        name: "my-iface".to_string(),
        types: vec![
            named(
                "person",
                TypeDefKind::Record(vec![field("full-name", Type::String), field("age", Type::U8)]),
            ),
            named("nothing", TypeDefKind::Record(vec![])),
            anon(TypeDefKind::List(Type::String)),
            anon(TypeDefKind::Option(Type::Id(0))),
            anon(TypeDefKind::Tuple(vec![Type::Id(2), Type::Char, Type::Float64])),
            named("my-errno", TypeDefKind::Enum(strings(&["not-found", "denied"]))),
            anon(TypeDefKind::Result { ok: Some(Type::Id(2)), err: Some(Type::Id(5)) }),
            anon(TypeDefKind::Future(Some(Type::U32))),
            anon(TypeDefKind::Stream { element: Some(Type::U8), end: None }),
            anon(TypeDefKind::Type(Type::Id(2))),
            anon(TypeDefKind::List(Type::U8)),
        ],
        functions: vec![],
    }
}

fn kept(gen: &C, id: usize) -> String {
    squash(gen.types.get(&id).unwrap())
}

fn short(ty: Type) -> String {
    let mut gen = C::new();
    gen.print_ty_name(&iface(), &ty);
    gen.src.h.to_string()
}

#[test]
fn primitives_have_short_names() {
    assert_eq!(short(Type::Bool), "bool");
    assert_eq!(short(Type::Char), "char32");
    assert_eq!(short(Type::U8), "u8");
    assert_eq!(short(Type::S8), "s8");
    assert_eq!(short(Type::U16), "u16");
    assert_eq!(short(Type::S16), "s16");
    assert_eq!(short(Type::U32), "u32");
    assert_eq!(short(Type::S32), "s32");
    assert_eq!(short(Type::U64), "u64");
    assert_eq!(short(Type::S64), "s64");
    assert_eq!(short(Type::Float32), "f32");
    assert_eq!(short(Type::Float64), "f64");
    assert_eq!(short(Type::String), "string");
}

#[test]
fn anonymous_types_are_named_after_their_structure() {
    assert_eq!(short(Type::Id(0)), "person");
    assert_eq!(short(Type::Id(5)), "my_errno");
    assert_eq!(short(Type::Id(2)), "list_string");
    assert_eq!(short(Type::Id(3)), "option_person");
    assert_eq!(short(Type::Id(4)), "tuple3_list_string_char32_f64");
    assert_eq!(short(Type::Id(6)), "result_list_string_my_errno");
    assert_eq!(short(Type::Id(7)), "future_u32");
    assert_eq!(short(Type::Id(8)), "stream_u8_void");
    assert_eq!(short(Type::Id(9)), "list_string");
    let mut gen = C::new();
    gen.print_optional_ty_name(&iface(), None);
    gen.print_optional_ty_name(&iface(), Some(Type::U8));
    assert_eq!(gen.src.h.to_string(), "voidu8");
}

fn c_type(ty: Type) -> String {
    C::new().type_string(&iface(), &ty)
}

#[test]
fn types_as_c_writes_them() {
    assert_eq!(c_type(Type::Bool), "bool");
    assert_eq!(c_type(Type::Char), "uint32_t");
    assert_eq!(c_type(Type::U8), "uint8_t");
    assert_eq!(c_type(Type::S8), "int8_t");
    assert_eq!(c_type(Type::U16), "uint16_t");
    assert_eq!(c_type(Type::S16), "int16_t");
    assert_eq!(c_type(Type::U32), "uint32_t");
    assert_eq!(c_type(Type::S32), "int32_t");
    assert_eq!(c_type(Type::U64), "uint64_t");
    assert_eq!(c_type(Type::S64), "int64_t");
    assert_eq!(c_type(Type::Float32), "float");
    assert_eq!(c_type(Type::Float64), "double");
    assert_eq!(c_type(Type::String), "my_iface_string_t");
    assert_eq!(c_type(Type::Id(0)), "my_iface_person_t");
    assert_eq!(c_type(Type::Id(2)), "my_iface_list_string_t");
    assert_eq!(c_type(Type::Id(9)), "my_iface_list_string_t");
}

#[test]
fn printing_a_type_notes_what_it_needs() {
    let mut gen = C::new();
    gen.print_ty(&iface(), &Type::U32);
    gen.print_ty(&iface(), &Type::Id(0));
    assert!(!gen.needs_string);
    assert!(gen.public_anonymous_types.is_empty());
    gen.print_ty(&iface(), &Type::Id(9));
    assert!(gen.public_anonymous_types.contains(&2));
    assert!(!gen.public_anonymous_types.contains(&9));
    assert!(!gen.needs_string);
    gen.print_ty(&iface(), &Type::String);
    assert!(gen.needs_string);
    assert_eq!(
        gen.src.h.to_string(),
        "uint32_tmy_iface_person_tmy_iface_list_string_tmy_iface_string_t"
    );
}

#[test]
fn a_record_is_a_struct_of_its_fields() {
    let z = iface();
    let mut gen = C::new();
    let fields = vec![field("full-name", Type::String), field("age", Type::U8)];
    let docs = Some("  A person.\nWith a name.  ".to_string());
    gen.type_record(&z, 0, "person", &fields, &docs).unwrap();
    assert_eq!(
        kept(&gen, 0),
        "// A person. // With a name. typedef struct { my_iface_string_t full_name; uint8_t age; } \
         my_iface_person_t;"
    );
    assert!(gen.needs_string);
    // The header buffer is as it was.
    assert_eq!(gen.src.h.to_string(), "");
}

#[test]
fn documentation_is_trimmed_and_split_in_lines() {
    let mut gen = C::new();
    gen.docs(&Some("  \n  First.\n  Second.  \n ".to_string()));
    gen.docs(&None);
    assert_eq!(gen.src.h.to_string(), "// First.\n//   Second.\n");
}

#[test]
fn files_are_named_in_kebab_case() {
    let z = Interface { name: "MyIface_two".to_string(), types: vec![], functions: vec![] };
    let mut files = Files::default();
    C::new().finish_one(&z, "__link_me", b"", &mut files).unwrap();
    let names: Vec<&str> = files.iter().map(|(n, _)| n).collect();
    assert_eq!(names, ["my-iface-two.c", "my-iface-two.h", "my-iface-two_component_type.o"]);
    let source = files.iter().find(|(n, _)| *n == "my-iface-two.c").unwrap().1;
    assert!(std::str::from_utf8(source).unwrap().contains("#include <my-iface-two.h>"));
    let header = files.iter().find(|(n, _)| *n == "my-iface-two.h").unwrap().1;
    assert!(std::str::from_utf8(header).unwrap().contains("__BINDINGS_MY_IFACE_TWO_H"));
}

#[test]
fn a_name_is_reserved_once() {
    let z = iface();
    let mut gen = C::new();
    gen.type_record(&z, 1, "nothing", &vec![], &None).unwrap();
    let again = gen.type_record(&z, 1, "Nothing", &vec![], &None);
    match again {
        Err(Error::Duplicate(name)) => assert_eq!(name, "nothing"),
        _ => panic!("the name was reserved twice"),
    }
    assert!(matches!(gen.type_enum(&z, 5, "nothing", &vec![], &None), Err(Error::Duplicate(_))));
    assert!(matches!(gen.type_flags(&z, 5, "nothing", &vec![], &None), Err(Error::Duplicate(_))));
    assert!(matches!(gen.type_tuple(&z, 5, "nothing", &vec![], &None), Err(Error::Duplicate(_))));
    assert!(matches!(gen.type_union(&z, 5, "nothing", &vec![], &None), Err(Error::Duplicate(_))));
    assert!(matches!(
        gen.type_variant(&z, 5, "nothing", &vec![case("a", None)], &None),
        Err(Error::Duplicate(_))
    ));
    assert!(matches!(
        gen.type_option(&z, 5, "nothing", &Type::U8, &None),
        Err(Error::Duplicate(_))
    ));
    assert!(matches!(
        gen.type_result(&z, 5, "nothing", None, None, &None),
        Err(Error::Duplicate(_))
    ));
    // Aliases and lists do not reserve their names.
    gen.type_alias(&z, 9, "nothing", &Type::U8, &None);
    gen.type_list(&z, 10, "nothing", &Type::U8, &None);
    assert_eq!(kept(&gen, 9), "typedef uint8_t my_iface_nothing_t;");
}

#[test]
fn definitions_by_kind() {
    let z = iface();
    let mut gen = C::new();
    gen.type_tuple(&z, 4, "triple", &vec![Type::Id(2), Type::Char, Type::Float64], &None).unwrap();
    assert_eq!(
        kept(&gen, 4),
        "typedef struct { my_iface_list_string_t f0; uint32_t f1; double f2; } my_iface_triple_t;"
    );
    assert!(gen.public_anonymous_types.contains(&2));

    gen.type_flags(&z, 5, "perms", &strings(&["read", "write-all"]), &None).unwrap();
    assert_eq!(
        kept(&gen, 5),
        "typedef uint8_t my_iface_perms_t; #define MY_IFACE_PERMS_READ (1 << 0) \
         #define MY_IFACE_PERMS_WRITE_ALL (1 << 1)"
    );

    gen.type_enum(&z, 5, "my-errno", &strings(&["not-found", "denied"]), &None).unwrap();
    assert_eq!(
        kept(&gen, 5),
        "typedef uint8_t my_iface_my_errno_t; #define MY_IFACE_MY_ERRNO_NOT_FOUND 0 \
         #define MY_IFACE_MY_ERRNO_DENIED 1"
    );

    let cases =
        vec![case("none", None), case("some-text", Some(Type::String)), case("unit", Some(Type::Id(1)))];
    gen.type_variant(&z, 5, "v", &cases, &None).unwrap();
    assert_eq!(
        kept(&gen, 5),
        "typedef struct { uint8_t tag; union { my_iface_string_t some_text; } val; } my_iface_v_t; \
         #define MY_IFACE_V_NONE 0 #define MY_IFACE_V_SOME_TEXT 1 #define MY_IFACE_V_UNIT 2"
    );

    gen.type_union(&z, 5, "u", &vec![Type::U32, Type::Float32], &None).unwrap();
    assert_eq!(
        kept(&gen, 5),
        "typedef struct { uint8_t tag; union { uint32_t f0; float f1; } val; } my_iface_u_t;"
    );

    gen.type_option(&z, 5, "o", &Type::U32, &None).unwrap();
    assert_eq!(kept(&gen, 5), "typedef struct { bool is_some; uint32_t val; } my_iface_o_t;");
    gen.type_option(&z, 5, "o2", &Type::Id(1), &None).unwrap();
    assert_eq!(kept(&gen, 5), "typedef struct { bool is_some; } my_iface_o2_t;");

    gen.type_result(&z, 5, "r", Some(Type::U32), Some(Type::Id(1)), &None).unwrap();
    assert_eq!(
        kept(&gen, 5),
        "typedef struct { bool is_err; union { uint32_t ok; } val; } my_iface_r_t;"
    );
    gen.type_result(&z, 5, "r2", None, Some(Type::String), &None).unwrap();
    assert_eq!(
        kept(&gen, 5),
        "typedef struct { bool is_err; union { my_iface_string_t err; } val; } my_iface_r2_t;"
    );

    gen.type_list(&z, 5, "bytes", &Type::U8, &None);
    assert_eq!(kept(&gen, 5), "typedef struct { uint8_t *ptr; size_t len; } my_iface_bytes_t;");

    gen.type_alias(&z, 5, "p", &Type::Id(0), &None);
    assert_eq!(kept(&gen, 5), "typedef my_iface_person_t my_iface_p_t;");

    let before = kept(&gen, 5);
    gen.type_builtin(&z, 5, "b", &Type::U8, &None);
    assert_eq!(kept(&gen, 5), before);
}

#[test]
fn a_wide_discriminant() {
    let z = iface();
    let mut gen = C::new();
    let cases: Vec<String> = (0..256).map(|i| format!("c{}", i)).collect();
    gen.type_enum(&z, 5, "big", &cases, &None).unwrap();
    assert!(kept(&gen, 5).starts_with("typedef uint16_t my_iface_big_t;"));
    let flags: Vec<String> = (0..33).map(|i| format!("f{}", i)).collect();
    gen.type_flags(&z, 5, "many", &flags, &None).unwrap();
    assert!(kept(&gen, 5).starts_with("typedef uint64_t my_iface_many_t;"));
}

#[test]
fn anonymous_definitions() {
    let z = iface();
    let mut gen = C::new();
    gen.print_anonymous_type(&z, 2);
    assert_eq!(
        kept(&gen, 2),
        "typedef struct { my_iface_string_t *ptr; size_t len; } my_iface_list_string_t;"
    );
    assert!(gen.needs_string);
    gen.print_anonymous_type(&z, 3);
    assert_eq!(
        kept(&gen, 3),
        "typedef struct { bool is_some; my_iface_person_t val; } my_iface_option_person_t;"
    );
    gen.print_anonymous_type(&z, 4);
    assert_eq!(
        kept(&gen, 4),
        "typedef struct { my_iface_list_string_t f0; uint32_t f1; double f2; } \
         my_iface_tuple3_list_string_char32_f64_t;"
    );
    assert!(gen.public_anonymous_types.contains(&2));
    gen.print_anonymous_type(&z, 6);
    assert_eq!(
        kept(&gen, 6),
        "typedef struct { bool is_err; union { my_iface_list_string_t ok; my_iface_my_errno_t err; \
         } val; } my_iface_result_list_string_my_errno_t;"
    );
}

/// An interface that the generator has code for throughout.
fn supported() -> Interface {
    let mut z = iface();
    z.types.truncate(7);
    z.types.push(named(
        "shape",
        TypeDefKind::Variant(vec![
            case("dot", None),
            case("label", Some(Type::String)),
            case("size", Some(Type::U32)),
        ]),
    ));
    z.types.push(named("either", TypeDefKind::Union(vec![Type::U32, Type::Id(2)])));
    z.types.push(named("person-again", TypeDefKind::Type(Type::Id(0))));
    z.types.push(anon(TypeDefKind::Result { ok: Some(Type::String), err: Some(Type::U8) }));
    z.types.push(anon(TypeDefKind::Result { ok: Some(Type::U8), err: Some(Type::String) }));
    z.types.push(anon(TypeDefKind::List(Type::U8)));
    z
}

fn dtor(id: usize) -> (String, String) {
    let z = supported();
    z.check().unwrap();
    let mut gen = C::new();
    gen.print_dtor(&z, id);
    (squash(&gen.src.h), squash(&gen.src.c))
}

#[test]
fn destructors_by_kind() {
    assert_eq!(
        dtor(0),
        (
            "void my_iface_person_free(my_iface_person_t *ptr);".to_string(),
            "void my_iface_person_free(my_iface_person_t *ptr) { \
             my_iface_string_free(&ptr->full_name); }"
                .to_string()
        )
    );
    // What owns nothing has no destructor.
    assert_eq!(dtor(1), (String::new(), String::new()));
    assert_eq!(dtor(5), (String::new(), String::new()));
    assert_eq!(
        dtor(2).1,
        "void my_iface_list_string_free(my_iface_list_string_t *ptr) { \
         for (size_t i = 0; i < ptr->len; i++) { my_iface_string_free(&ptr->ptr[i]); } \
         if (ptr->len > 0) { free(ptr->ptr); } }"
    );
    assert_eq!(
        dtor(12).1,
        "void my_iface_list_u8_free(my_iface_list_u8_t *ptr) { \
         if (ptr->len > 0) { free(ptr->ptr); } }"
    );
    assert_eq!(
        dtor(3).1,
        "void my_iface_option_person_free(my_iface_option_person_t *ptr) { \
         if (ptr->is_some) { my_iface_person_free(&ptr->val); } }"
    );
    assert_eq!(
        dtor(4).1,
        "void my_iface_tuple3_list_string_char32_f64_free(\
         my_iface_tuple3_list_string_char32_f64_t *ptr) { \
         my_iface_list_string_free(&ptr->f0); }"
    );
    assert_eq!(
        dtor(6).1,
        "void my_iface_result_list_string_my_errno_free(\
         my_iface_result_list_string_my_errno_t *ptr) { \
         if (!ptr->is_err) { my_iface_list_string_free(&ptr->val.ok); } }"
    );
    assert_eq!(
        dtor(7).1,
        "void my_iface_shape_free(my_iface_shape_t *ptr) { switch ((int32_t) ptr->tag) { \
         case 1: { my_iface_string_free(&ptr->val.label); break; } } }"
    );
    assert_eq!(
        dtor(8).1,
        "void my_iface_either_free(my_iface_either_t *ptr) { switch ((int32_t) ptr->tag) { \
         case 1: { my_iface_list_string_free(&ptr->val.f1); break; } } }"
    );
    assert_eq!(
        dtor(9).1,
        "void my_iface_person_again_free(my_iface_person_again_t *ptr) { \
         my_iface_person_free(ptr); }"
    );
    assert_eq!(
        dtor(10).1,
        "void my_iface_result_string_u8_free(my_iface_result_string_u8_t *ptr) { \
         if (!ptr->is_err) { my_iface_string_free(&ptr->val.ok); } }"
    );
    assert_eq!(
        dtor(11).1,
        "void my_iface_result_u8_string_free(my_iface_result_u8_string_t *ptr) { \
         if (!ptr->is_err) { } else { my_iface_string_free(&ptr->val.err); } }"
    );
}

fn function(name: &str, params: Vec<(&str, Type)>, results: Vec<Type>) -> Function {
    Function {
        name: name.to_string(),
        params: params.into_iter().map(|(n, t)| (n.to_string(), t)).collect(),
        results,
    }
}

#[test]
fn signatures() {
    let z = supported();
    let decl = |params: Vec<(&str, Type)>, results: Vec<Type>| {
        let mut gen = C::new();
        let f = gen.import(&z, &function("do-it", params, results), &wasm(vec![], vec![])).unwrap();
        assert_eq!(format!("{};", f.sig.sig), gen.src.h.trim_end());
        f.sig
    };
    let s = decl(vec![], vec![]);
    assert_eq!(s.sig, "void my_iface_do_it(void)");
    assert_eq!(s.name, "my_iface_do_it");
    let s = decl(vec![("a-b", Type::U8), ("who", Type::Id(0)), ("e", Type::Id(5))], vec![Type::Bool]);
    assert_eq!(
        s.sig,
        "bool my_iface_do_it(uint8_t a_b, my_iface_person_t *who, my_iface_my_errno_t e)"
    );
    assert_eq!(
        s.params,
        vec![(false, "a_b".to_string()), (true, "who".to_string()), (false, "e".to_string())]
    );
    assert!(s.retptrs.is_empty());
    let s = decl(vec![], vec![Type::U8, Type::String]);
    assert_eq!(s.sig, "void my_iface_do_it(uint8_t *ret0, my_iface_string_t *ret1)");
    assert_eq!(s.retptrs, ["ret0", "ret1"]);
    let s = decl(vec![("s", Type::String)], vec![Type::Id(6)]);
    assert_eq!(
        s.sig,
        "my_iface_my_errno_t my_iface_do_it(my_iface_string_t *s, my_iface_list_string_t *ret0)"
    );
    let s = decl(vec![], vec![Type::Id(3)]);
    assert_eq!(s.sig, "bool my_iface_do_it(my_iface_person_t *ret0)");
}

#[test]
fn a_signature_behind_what_the_header_holds() {
    let z = supported();
    let mut gen = C::new();
    gen.src.h("typedef int x;\n");
    let f = function("do-it", vec![("who", Type::Id(0)), ("n", Type::Float32)], vec![Type::Id(2)]);
    let sig = gen.print_sig(&z, &f).unwrap();
    assert_eq!(sig.sig, "void my_iface_do_it(my_iface_person_t *who, float n, my_iface_list_string_t *ret0)");
    assert_eq!(gen.src.h.to_string(), format!("typedef int x;\n{};\n", sig.sig));
    assert_eq!(sig.params, vec![(true, "who".to_string()), (false, "n".to_string())]);
    // What the signature names is public, once.
    assert!(gen.public_anonymous_types.contains(&2));
    assert!(gen.private_anonymous_types.is_empty());
    assert!(!gen.needs_string);
}

#[test]
fn a_function_is_declared_once() {
    let z = supported();
    let mut gen = C::new();
    let f = function("do-it", vec![], vec![]);
    gen.export(&z, &f, &wasm(vec![], vec![]), "__link_me").unwrap();
    match gen.export(&z, &f, &wasm(vec![], vec![]), "__link_me") {
        Err(Error::Duplicate(name)) => assert_eq!(name, "my_iface_do_it"),
        _ => panic!("the function was declared twice"),
    }
}

fn wasm(params: Vec<WasmType>, results: Vec<WasmType>) -> WasmSignature {
    WasmSignature { params, results }
}

#[test]
fn an_import_declares_its_trampoline() {
    let z = supported();
    let mut gen = C::new();
    gen.preprocess_one(&z, Direction::Import);
    gen.src.h("kept");
    let f = function("get-it", vec![("who", Type::Id(0)), ("n", Type::U32)], vec![Type::U64]);
    let bindgen =
        gen.import(&z, &f, &wasm(vec![WasmType::I32, WasmType::I64], vec![WasmType::I64])).unwrap();
    assert_eq!(bindgen.func_to_call, "__wasm_import_my_iface_get_it");
    assert_eq!(bindgen.params, ["*who", "n"]);
    assert_eq!(
        squash(&gen.src.c),
        "__attribute__((import_module(\"my-iface\"), import_name(\"get-it\"))) \
         int64_t __wasm_import_my_iface_get_it(int32_t, int64_t); \
         uint64_t my_iface_get_it(my_iface_person_t *who, uint32_t n) {"
    );
    assert_eq!(squash(&gen.src.h), "uint64_t my_iface_get_it(my_iface_person_t *who, uint32_t n);");
    gen.finish_function(&z, bindgen);
    // The buffers that were set aside are back, and the function is filed.
    assert_eq!(gen.src.h.to_string(), "kept");
    assert_eq!(gen.funcs.len(), 1);
    assert_eq!(gen.funcs[0].name, "my-iface");
    assert_eq!(gen.funcs[0].funcs.len(), 1);
    assert!(gen.funcs[0].funcs[0].c.ends_with("}\n"));
}

#[test]
fn an_import_that_does_not_fit() {
    let z = supported();
    let mut gen = C::new();
    let f = function("f", vec![], vec![]);
    let r = gen.import(&z, &f, &wasm(vec![], vec![WasmType::I32, WasmType::I32]));
    assert!(matches!(r, Err(Error::Unsupported)));
    let mut gen = C::new();
    let f = function("g", vec![("a", Type::U8), ("A", Type::U8)], vec![]);
    match gen.import(&z, &f, &wasm(vec![], vec![])) {
        Err(Error::Duplicate(name)) => assert_eq!(name, "a"),
        _ => panic!("two parameters share a name"),
    }
    let mut gen = C::new();
    let f = function("h", vec![("ret0", Type::U8)], vec![Type::String]);
    match gen.import(&z, &f, &wasm(vec![], vec![])) {
        Err(Error::Duplicate(name)) => assert_eq!(name, "ret0"),
        _ => panic!("a parameter has the name of a pointer parameter"),
    }
    let mut gen = C::new();
    let f = function("i", vec![], vec![]);
    gen.import(&z, &f, &wasm(vec![], vec![])).unwrap();
    assert!(matches!(gen.import(&z, &f, &wasm(vec![], vec![])), Err(Error::Duplicate(_))));
}

#[test]
fn an_export_defines_its_trampoline_and_its_post_return() {
    let z = supported();
    let mut gen = C::new();
    gen.preprocess_one(&z, Direction::Export);
    let f = function("make", vec![("n", Type::U32)], vec![Type::String]);
    let w = wasm(vec![WasmType::I32], vec![WasmType::I32]);
    let bindgen = gen.export(&z, &f, &w, "__link_me").unwrap();
    assert_eq!(bindgen.func_to_call, "__wasm_export_my_iface_make");
    assert_eq!(bindgen.params, ["arg"]);
    assert_eq!(
        squash(&gen.src.c),
        "__attribute__((export_name(\"make\"))) int32_t __wasm_export_my_iface_make(int32_t arg) { \
         (void) __link_me;"
    );
    assert_eq!(squash(&gen.src.h), "void my_iface_make(uint32_t n, my_iface_string_t *ret0);");
    let post = gen.post_return(&f, &w, bindgen);
    assert_eq!(post.params, ["arg0"]);
    assert!(squash(&gen.src.c).ends_with(
        "} __attribute__((export_name(\"cabi_post_make\"))) \
         void __wasm_export_my_iface_make_post_return(int32_t arg0) {"
    ));
    gen.finish_function(&z, post);
    assert_eq!(gen.funcs[0].funcs.len(), 1);
    // An export with several scalar results has no trampoline.
    let g = function("other", vec![], vec![]);
    let r = gen.export(&z, &g, &wasm(vec![], vec![WasmType::I32, WasmType::I32]), "__link_me");
    assert!(matches!(r, Err(Error::Unsupported)));
}

#[test]
fn an_export_with_a_return_area() {
    let z = supported();
    let mut gen = C::new();
    gen.preprocess_one(&z, Direction::Export);
    let f = function("make", vec![], vec![Type::String]);
    let w = wasm(vec![], vec![WasmType::I32]);
    let mut bindgen = gen.export(&z, &f, &w, "__link_me").unwrap();
    bindgen.return_pointer(&mut gen, 8, 4);
    gen.finish_function(&z, bindgen);
    let mut files = Files::default();
    gen.finish_one(&z, "__link_me", b"", &mut files).unwrap();
    let source = files.iter().find(|(n, _)| *n == "my-iface.c").unwrap().1;
    let source = squash(std::str::from_utf8(source).unwrap());
    assert!(source.contains("__attribute__((aligned(4))) static uint8_t RET_AREA[8];"));
}

#[test]
fn private_types_are_defined_in_the_implementation() {
    let z = supported();
    let mut gen = C::new();
    gen.preprocess_one(&z, Direction::Import);
    // The tuple is only named in a body; what it names is private too.
    gen.type_string(&z, &Type::Id(4));
    // The option is public.
    gen.print_ty(&z, &Type::Id(3));
    gen.src.h = Default::default();
    let mut files = Files::default();
    gen.finish_one(&z, "__link_me", b"", &mut files).unwrap();
    let text = |name: &str| {
        let bytes = files.iter().find(|(n, _)| *n == name).unwrap().1;
        squash(std::str::from_utf8(bytes).unwrap())
    };
    let header = text("my-iface.h");
    let source = text("my-iface.c");
    assert!(header.contains("} my_iface_option_person_t;"));
    assert!(!header.contains("tuple3"));
    assert!(!header.contains("} my_iface_list_string_t;"));
    assert!(source.contains("} my_iface_tuple3_list_string_char32_f64_t;"));
    assert!(source.contains("} my_iface_list_string_t;"));
    let list = source.find("} my_iface_list_string_t;").unwrap();
    let tuple = source.find("} my_iface_tuple3_list_string_char32_f64_t;").unwrap();
    assert!(list < tuple);
    // The string type is needed for the private list.
    assert!(header.contains("} my_iface_string_t;"));
    assert!(gen.public_anonymous_types.is_empty());
    assert!(gen.private_anonymous_types.is_empty());
}

#[test]
fn a_type_that_cannot_be_printed_is_unsupported() {
    let z = supported();
    let mut gen = C::new();
    // A record has a name; it is no anonymous type.
    gen.public_anonymous_types.insert(0);
    let mut files = Files::default();
    let r = gen.finish_one(&z, "__link_me", b"", &mut files);
    assert!(matches!(r, Err(Error::Unsupported)));
    assert_eq!(files.iter().count(), 0);
}

#[test]
fn files_of_several_interfaces_add_up() {
    let z = supported();
    let mut files = Files::default();
    let mut gen = C::new();
    gen.finish_one(&z, "__link_me", b"ab", &mut files).unwrap();
    let mut gen = C::new();
    gen.finish_one(&z, "__link_me", b"cd", &mut files).unwrap();
    let object = files.iter().find(|(n, _)| *n == "my-iface_component_type.o").unwrap().1;
    assert_eq!(object, b"abcd");
    assert_eq!(files.iter().count(), 3);
}
