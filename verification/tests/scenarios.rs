use wit_bindgen_core::Files;
use wit_bindgen_gen_guest_c::abi::Instruction;
use wit_bindgen_gen_guest_c::gen::C;
use wit_bindgen_gen_guest_c::ir::Field;
use wit_bindgen_gen_guest_c::ir::Function;
use wit_bindgen_gen_guest_c::ir::Interface;
use wit_bindgen_gen_guest_c::ir::Type;
use wit_bindgen_gen_guest_c::ir::TypeDef;
use wit_bindgen_gen_guest_c::ir::TypeDefKind;
use wit_bindgen_gen_guest_c::repr::Direction;
use wit_bindgen_gen_guest_c::repr::WasmSignature;
use wit_bindgen_gen_guest_c::repr::WasmType;

fn squash(text: &str) -> String {
    text.split_whitespace().collect::<Vec<_>>().join(" ")
}

fn file(files: &Files, name: &str) -> String {
    for (n, bytes) in files.iter() {
        if n == name {
            return String::from_utf8(bytes.to_vec()).unwrap();
        }
    }
    panic!("no file {}", name);
}

fn func(name: &str, params: Vec<(&str, Type)>, results: Vec<Type>) -> Function {
    Function {
        name: name.to_string(),
        params: params.into_iter().map(|(n, t)| (n.to_string(), t)).collect(),
        results,
    }
}

fn named(name: &str, kind: TypeDefKind) -> TypeDef {
    TypeDef { name: Some(name.to_string()), kind, docs: None }
}

fn anon(kind: TypeDefKind) -> TypeDef {
    TypeDef { name: None, kind, docs: None }
}

fn sig(params: Vec<WasmType>, results: Vec<WasmType>) -> WasmSignature {
    WasmSignature { params, results }
}

/// Declares every named type, begins and ends every function as an import
/// without a body, and finishes.
fn generate_imports(iface: &Interface, sigs: Vec<WasmSignature>) -> Files {
    iface.check().unwrap();
    let mut gen = C::new();
    gen.preprocess_one(iface, Direction::Import);
    declare_types(&mut gen, iface);
    for (f, s) in iface.functions.iter().zip(sigs.iter()) {
        let bindgen = gen.import(iface, f, s).unwrap();
        gen.finish_function(iface, bindgen);
    }
    let mut files = Files::default();
    gen.finish_one(iface, "__link", b"object", &mut files).unwrap();
    files
}

fn declare_types(gen: &mut C, iface: &Interface) {
    for (id, def) in iface.types.iter().enumerate() {
        let name = match &def.name {
            Some(name) => name,
            None => continue,
        };
        match &def.kind {
            TypeDefKind::Record(fields) => {
                gen.type_record(iface, id, name, fields, &def.docs).unwrap()
            }
            TypeDefKind::Tuple(types) => gen.type_tuple(iface, id, name, types, &def.docs).unwrap(),
            TypeDefKind::Flags(flags) => gen.type_flags(iface, id, name, flags, &def.docs).unwrap(),
            TypeDefKind::Variant(cases) => {
                gen.type_variant(iface, id, name, cases, &def.docs).unwrap()
            }
            TypeDefKind::Enum(cases) => gen.type_enum(iface, id, name, cases, &def.docs).unwrap(),
            TypeDefKind::Union(cases) => gen.type_union(iface, id, name, cases, &def.docs).unwrap(),
            TypeDefKind::Option(t) => gen.type_option(iface, id, name, t, &def.docs).unwrap(),
            TypeDefKind::Result { ok, err } => {
                gen.type_result(iface, id, name, *ok, *err, &def.docs).unwrap()
            }
            TypeDefKind::List(t) => gen.type_list(iface, id, name, t, &def.docs),
            TypeDefKind::Type(t) => gen.type_alias(iface, id, name, t, &def.docs),
            TypeDefKind::Future(_) | TypeDefKind::Stream { .. } => unreachable!(),
        }
    }
}

#[test]
fn record_passed_and_returned_by_pointer() {
    let iface = Interface {
        name: "foo".to_string(),
        types: vec![named(
            "point",
            TypeDefKind::Record(vec![
                Field { name: "x".to_string(), ty: Type::U32 },
                Field { name: "y".to_string(), ty: Type::U32 },
            ]),
        )],
        functions: vec![func("identity", vec![("p", Type::Id(0))], vec![Type::Id(0)])],
    };
    let files = generate_imports(
        &iface,
        vec![sig(vec![WasmType::I32, WasmType::I32, WasmType::I32], vec![])],
    );
    let header = squash(&file(&files, "foo.h"));
    assert!(header.contains("typedef struct { uint32_t x; uint32_t y; } foo_point_t;"));
    assert!(header.contains("void foo_identity(foo_point_t *p, foo_point_t *ret0);"));
    // A record of integers owns nothing: it has no destructor.
    assert!(!header.contains("foo_point_free"));
    assert!(!header.contains("foo_string_t"));
}

#[test]
fn string_helpers_come_with_a_string() {
    let iface = Interface {
        name: "m".to_string(),
        types: vec![],
        functions: vec![func("greet", vec![("name", Type::String)], vec![Type::String])],
    };
    let files = generate_imports(
        &iface,
        vec![sig(vec![WasmType::I32, WasmType::I32, WasmType::I32], vec![])],
    );
    let header = squash(&file(&files, "m.h"));
    assert!(header.contains("} m_string_t;"));
    assert!(header.contains("void m_string_set(m_string_t *ret, const char *s);"));
    assert!(header.contains("void m_string_dup(m_string_t *ret, const char *s);"));
    assert!(header.contains("void m_string_free(m_string_t *ret);"));
    assert!(header.contains("void m_greet(m_string_t *name, m_string_t *ret0);"));
    let source = squash(&file(&files, "m.c"));
    assert!(source.contains("#include <string.h>"));
    assert!(source.contains("void m_string_free(m_string_t *ret) {"));
}

#[test]
fn no_string_helpers_without_a_string() {
    let iface = Interface {
        name: "m".to_string(),
        types: vec![],
        functions: vec![func("id", vec![("x", Type::U32)], vec![Type::U32])],
    };
    let files = generate_imports(&iface, vec![sig(vec![WasmType::I32], vec![WasmType::I32])]);
    let header = file(&files, "m.h");
    assert!(!header.contains("string"));
    assert!(!file(&files, "m.c").contains("string"));
}

#[test]
fn result_with_enum_error_returns_the_error() {
    let iface = Interface {
        name: "m".to_string(),
        types: vec![
            named("errno", TypeDefKind::Enum(vec!["divzero".to_string(), "overflow".to_string()])),
            anon(TypeDefKind::Result { ok: Some(Type::U32), err: Some(Type::Id(0)) }),
        ],
        functions: vec![func(
            "div",
            vec![("a", Type::U32), ("b", Type::U32)],
            vec![Type::Id(1)],
        )],
    };
    let files = generate_imports(
        &iface,
        vec![sig(vec![WasmType::I32, WasmType::I32, WasmType::I32], vec![])],
    );
    let header = squash(&file(&files, "m.h"));
    assert!(header.contains("typedef uint8_t m_errno_t;"));
    assert!(header.contains("#define M_ERRNO_DIVZERO 0"));
    assert!(header.contains("#define M_ERRNO_OVERFLOW 1"));
    assert!(header.contains("m_errno_t m_div(uint32_t a, uint32_t b, uint32_t *ret0);"));
}

#[test]
fn option_returns_its_presence() {
    let iface = Interface {
        name: "m".to_string(),
        types: vec![anon(TypeDefKind::Option(Type::U32))],
        functions: vec![func("maybe", vec![("v", Type::U32)], vec![Type::Id(0)])],
    };
    let files =
        generate_imports(&iface, vec![sig(vec![WasmType::I32, WasmType::I32], vec![])]);
    let header = squash(&file(&files, "m.h"));
    assert!(header.contains("bool m_maybe(uint32_t v, uint32_t *ret0);"));
}

#[test]
fn list_of_tuples_gets_anonymous_types_and_a_destructor() {
    let iface = Interface {
        name: "m".to_string(),
        types: vec![
            anon(TypeDefKind::Tuple(vec![Type::U32, Type::String])),
            anon(TypeDefKind::List(Type::Id(0))),
        ],
        functions: vec![func("pairs", vec![], vec![Type::Id(1)])],
    };
    let files = generate_imports(&iface, vec![sig(vec![WasmType::I32], vec![])]);
    let header = squash(&file(&files, "m.h"));
    assert!(header.contains("typedef struct { uint32_t f0; m_string_t f1; } m_tuple2_u32_string_t;"));
    assert!(header.contains(
        "typedef struct { m_tuple2_u32_string_t *ptr; size_t len; } m_list_tuple2_u32_string_t;"
    ));
    assert!(header.contains("void m_pairs(m_list_tuple2_u32_string_t *ret0);"));
    assert!(header.contains("void m_list_tuple2_u32_string_free(m_list_tuple2_u32_string_t *ptr);"));
    assert!(header.contains("void m_tuple2_u32_string_free(m_tuple2_u32_string_t *ptr);"));
    // The tuple is defined before the list that names it, and each once.
    let tuple = header.find("} m_tuple2_u32_string_t;").unwrap();
    let list = header.find("} m_list_tuple2_u32_string_t;").unwrap();
    assert!(tuple < list);
    assert_eq!(header.matches("} m_tuple2_u32_string_t;").count(), 1);
    assert_eq!(header.matches("} m_list_tuple2_u32_string_t;").count(), 1);
    let source = squash(&file(&files, "m.c"));
    assert!(source.contains(
        "void m_list_tuple2_u32_string_free(m_list_tuple2_u32_string_t *ptr) { \
         for (size_t i = 0; i < ptr->len; i++) { m_tuple2_u32_string_free(&ptr->ptr[i]); } \
         if (ptr->len > 0) { free(ptr->ptr); } }"
    ));
    assert!(source.contains(
        "void m_tuple2_u32_string_free(m_tuple2_u32_string_t *ptr) { m_string_free(&ptr->f1); }"
    ));
}

#[test]
fn export_of_a_scalar_function() {
    let iface = Interface {
        name: "m".to_string(),
        types: vec![],
        functions: vec![func("id", vec![("x", Type::U32)], vec![Type::U32])],
    };
    iface.check().unwrap();
    let mut gen = C::new();
    gen.preprocess_one(&iface, Direction::Export);
    let f = &iface.functions[0];
    let wasm = sig(vec![WasmType::I32], vec![WasmType::I32]);
    let mut bindgen = gen.export(&iface, f, &wasm, "__component_type_object_force_link_m").unwrap();

    // What the walker hands over for this export.
    let mut operands: Vec<String> = vec![];
    let mut results: Vec<String> = vec![];
    bindgen
        .emit(&mut gen, &iface, &Instruction::GetArg { nth: 0 }, &mut operands, &mut results)
        .unwrap();
    let mut operands = std::mem::take(&mut results);
    bindgen.emit(&mut gen, &iface, &Instruction::U32FromI32, &mut operands, &mut results).unwrap();
    let mut operands = std::mem::take(&mut results);
    bindgen
        .emit(
            &mut gen,
            &iface,
            &Instruction::CallInterface { func: f.clone() },
            &mut operands,
            &mut results,
        )
        .unwrap();
    let mut operands = std::mem::take(&mut results);
    bindgen.emit(&mut gen, &iface, &Instruction::I32FromU32, &mut operands, &mut results).unwrap();
    let mut operands = std::mem::take(&mut results);
    bindgen
        .emit(&mut gen, &iface, &Instruction::Return { amt: 1 }, &mut operands, &mut results)
        .unwrap();
    gen.finish_function(&iface, bindgen);

    let mut files = Files::default();
    gen.finish_one(&iface, "__component_type_object_force_link_m", b"object", &mut files).unwrap();
    let header = squash(&file(&files, "m.h"));
    assert!(header.contains("uint32_t m_id(uint32_t x);"));
    let source = file(&files, "m.c");
    let flat = squash(&source);
    assert!(flat.contains("__attribute__((export_name(\"id\"))) int32_t __wasm_export_m_id(int32_t arg) {"));
    assert!(flat.contains("uint32_t ret = m_id((uint32_t) (arg));"));
    assert!(flat.contains("return (int32_t) (ret);"));
    // No return area was asked for, so there is none.
    assert!(!source.contains("RET_AREA"));
    assert_eq!(source.matches("(void) __component_type_object_force_link_m;").count(), 1);
    assert_eq!(file_bytes(&files, "m_component_type.o"), b"object".to_vec());
}

fn file_bytes(files: &Files, name: &str) -> Vec<u8> {
    for (n, bytes) in files.iter() {
        if n == name {
            return bytes.to_vec();
        }
    }
    panic!("no file {}", name);
}

#[test]
fn header_begins_and_ends_as_it_should() {
    let iface = Interface { name: "my-iface".to_string(), types: vec![], functions: vec![] };
    let files = generate_imports(&iface, vec![]);
    let header = file(&files, "my-iface.h");
    let lines: Vec<&str> = header.lines().map(|l| l.trim()).filter(|l| !l.is_empty()).collect();
    assert_eq!(
        lines,
        vec![
            "#ifndef __BINDINGS_MY_IFACE_H",
            "#define __BINDINGS_MY_IFACE_H",
            "#ifdef __cplusplus",
            "extern \"C\" {",
            "#endif",
            "#include <stdint.h>",
            "#include <stdbool.h>",
            "#ifdef __cplusplus",
            "}",
            "#endif",
            "#endif",
        ]
    );
    let source = squash(&file(&files, "my-iface.c"));
    assert!(source.starts_with(
        "#include <stdlib.h> #include <my-iface.h> extern void __link(void); \
         __attribute__((weak, export_name(\"cabi_realloc\")))"
    ));
}

#[test]
fn two_runs_give_the_same_files() {
    let iface = Interface {
        name: "m".to_string(),
        types: vec![
            anon(TypeDefKind::Tuple(vec![Type::U32, Type::String])),
            anon(TypeDefKind::List(Type::Id(0))),
        ],
        functions: vec![func("pairs", vec![], vec![Type::Id(1)])],
    };
    let a = generate_imports(&iface, vec![sig(vec![WasmType::I32], vec![])]);
    let b = generate_imports(&iface, vec![sig(vec![WasmType::I32], vec![])]);
    assert_eq!(file(&a, "m.h"), file(&b, "m.h"));
    assert_eq!(file(&a, "m.c"), file(&b, "m.c"));
}
