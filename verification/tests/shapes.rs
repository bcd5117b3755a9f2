use wit_bindgen_gen_guest_c::api_error::ApiError;
use wit_bindgen_gen_guest_c::bindgen::Error;
use wit_bindgen_gen_guest_c::gen::Opts;
use wit_bindgen_gen_guest_c::gen::C;
use wit_bindgen_gen_guest_c::ir::Case;
use wit_bindgen_gen_guest_c::ir::Field;
use wit_bindgen_gen_guest_c::ir::Function;
use wit_bindgen_gen_guest_c::ir::Interface;
use wit_bindgen_gen_guest_c::ir::Type;
use wit_bindgen_gen_guest_c::ir::TypeDef;
use wit_bindgen_gen_guest_c::ir::TypeDefKind;
use wit_bindgen_gen_guest_c::repr::flags_repr;
use wit_bindgen_gen_guest_c::repr::int_repr;
use wit_bindgen_gen_guest_c::repr::tag_repr;
use wit_bindgen_gen_guest_c::repr::wasm_type;
use wit_bindgen_gen_guest_c::repr::AbiVariant;
use wit_bindgen_gen_guest_c::repr::Direction;
use wit_bindgen_gen_guest_c::repr::Int;
use wit_bindgen_gen_guest_c::repr::WasmType;
use wit_bindgen_gen_guest_c::ret::Scalar;
use wit_bindgen_gen_guest_c::text::decimal_string;
use wit_bindgen_gen_guest_c::text::signed_decimal_string;

fn named(name: &str, kind: TypeDefKind) -> TypeDef {
    TypeDef { name: Some(name.to_string()), kind, docs: None }
}

fn anon(kind: TypeDefKind) -> TypeDef {
    TypeDef { name: None, kind, docs: None }
}

fn field(name: &str, ty: Type) -> Field {
    Field { name: name.to_string(), ty }
}

fn case(name: &str, ty: Option<Type>) -> Case {
    Case { name: name.to_string(), ty }
}

fn strings(names: &[&str]) -> Vec<String> {
    names.iter().map(|n| n.to_string()).collect()
}

/// 0 enum, 1 flags, 2 record of integers, 3 record with a string, 4 empty
/// record, 5 alias of 4, 6 tuple, 7 empty tuple, 8 option of string, 9
/// result of u32 and enum, 10 list of u8, 11 variant, 12 union, 13 alias of
/// 3, 14 result of string and string, 15 option of the empty record, 16
/// variant without owning payloads, 17 list of strings.
fn zoo() -> Interface {
    Interface {
        name: "zoo".to_string(),
        types: vec![
            named("e", TypeDefKind::Enum(strings(&["a", "b", "c"]))),
            named("f", TypeDefKind::Flags(strings(&["r", "w"]))),
            named("ints", TypeDefKind::Record(vec![field("a", Type::U8), field("b", Type::S64)])),
            named(
                "person",
                TypeDefKind::Record(vec![field("age", Type::U32), field("name", Type::String)]),
            ),
            named("nothing", TypeDefKind::Record(vec![])),
            named("also-nothing", TypeDefKind::Type(Type::Id(4))),
            anon(TypeDefKind::Tuple(vec![Type::U32, Type::Float32])),
            anon(TypeDefKind::Tuple(vec![])),
            anon(TypeDefKind::Option(Type::String)),
            anon(TypeDefKind::Result { ok: Some(Type::U32), err: Some(Type::Id(0)) }),
            anon(TypeDefKind::List(Type::U8)),
            named(
                "v",
                TypeDefKind::Variant(vec![
                    case("none", None),
                    case("text", Some(Type::String)),
                    case("num", Some(Type::U32)),
                ]),
            ),
            named("u", TypeDefKind::Union(vec![Type::U32, Type::Id(3)])),
            named("alias", TypeDefKind::Type(Type::Id(3))),
            anon(TypeDefKind::Result { ok: Some(Type::String), err: Some(Type::String) }),
            anon(TypeDefKind::Option(Type::Id(4))),
            named("plain", TypeDefKind::Variant(vec![case("x", None), case("y", Some(Type::U8))])),
            anon(TypeDefKind::List(Type::String)),
        ],
        functions: vec![],
    }
}

#[test]
fn a_generator_can_be_built() {
    let _plain: C = C::new();
    let _built: C = Opts::default().build();
}

#[test]
fn what_is_passed_by_pointer() {
    let z = zoo();
    z.check().unwrap();
    for ty in [
        Type::String,
        Type::Id(2),
        Type::Id(3),
        Type::Id(4),
        Type::Id(5),
        Type::Id(6),
        Type::Id(8),
        Type::Id(9),
        Type::Id(10),
        Type::Id(11),
        Type::Id(12),
        Type::Id(13),
    ] {
        assert!(C::is_arg_by_pointer(&z, &ty), "{:?}", ty);
    }
    for ty in [
        Type::Bool,
        Type::U8,
        Type::S64,
        Type::Float32,
        Type::Float64,
        Type::Char,
        Type::Id(0),
        Type::Id(1),
    ] {
        assert!(!C::is_arg_by_pointer(&z, &ty), "{:?}", ty);
    }
}

#[test]
fn what_owns_memory() {
    let z = zoo();
    for ty in [
        Type::String,
        Type::Id(3),
        Type::Id(8),
        Type::Id(10),
        Type::Id(11),
        Type::Id(12),
        Type::Id(13),
        Type::Id(14),
        Type::Id(17),
    ] {
        assert!(C::owns_anything(&z, &ty), "{:?}", ty);
    }
    for ty in [
        Type::U32,
        Type::Bool,
        Type::Id(0),
        Type::Id(1),
        Type::Id(2),
        Type::Id(4),
        Type::Id(5),
        Type::Id(6),
        Type::Id(7),
        Type::Id(9),
        Type::Id(15),
        Type::Id(16),
    ] {
        assert!(!C::owns_anything(&z, &ty), "{:?}", ty);
    }
    assert!(!C::optional_owns_anything(&z, None));
    assert!(C::optional_owns_anything(&z, Some(Type::String)));
    assert!(!C::optional_owns_anything(&z, Some(Type::U8)));
}

#[test]
fn what_holds_nothing() {
    let z = zoo();
    assert!(C::is_empty_type(&z, &Type::Id(4)));
    assert!(C::is_empty_type(&z, &Type::Id(5)));
    assert!(C::is_empty_type(&z, &Type::Id(7)));
    assert!(!C::is_empty_type(&z, &Type::Id(2)));
    assert!(!C::is_empty_type(&z, &Type::Id(6)));
    assert!(!C::is_empty_type(&z, &Type::Id(15)));
    assert!(!C::is_empty_type(&z, &Type::U8));
    assert!(!C::is_empty_type(&z, &Type::String));
    assert_eq!(C::get_nonempty_type(&z, None), None);
    assert_eq!(C::get_nonempty_type(&z, Some(Type::Id(4))), None);
    assert_eq!(C::get_nonempty_type(&z, Some(Type::Id(2))), Some(Type::Id(2)));
    assert_eq!(C::get_nonempty_type(&z, Some(Type::U8)), Some(Type::U8));
}

#[test]
fn what_lists_are_passed_as_they_lie() {
    let z = zoo();
    assert!(C::is_list_canonical(&z, &Type::U8));
    assert!(C::is_list_canonical(&z, &Type::S64));
    assert!(C::is_list_canonical(&z, &Type::Float64));
    assert!(C::is_list_canonical(&z, &Type::Id(2)));
    assert!(C::is_list_canonical(&z, &Type::Id(6)));
    assert!(C::is_list_canonical(&z, &Type::Id(5)));
    assert!(!C::is_list_canonical(&z, &Type::Bool));
    assert!(!C::is_list_canonical(&z, &Type::Char));
    assert!(!C::is_list_canonical(&z, &Type::String));
    assert!(!C::is_list_canonical(&z, &Type::Id(0)));
    assert!(!C::is_list_canonical(&z, &Type::Id(1)));
    assert!(!C::is_list_canonical(&z, &Type::Id(3)));
    assert!(!C::is_list_canonical(&z, &Type::Id(10)));
}

fn handed_back(z: &Interface, results: Vec<Type>) -> (bool, Option<Scalar>, Vec<Type>) {
    let f = Function { name: "f".to_string(), params: vec![], results };
    let r = C::classify_ret(z, &f);
    (r.return_multiple, r.scalar, r.retptrs)
}

#[test]
fn how_results_are_handed_back() {
    let z = zoo();
    assert_eq!(handed_back(&z, vec![]), (false, Some(Scalar::Void), vec![]));
    assert_eq!(handed_back(&z, vec![Type::U32]), (false, Some(Scalar::Type(Type::U32)), vec![]));
    assert_eq!(handed_back(&z, vec![Type::Id(0)]), (false, Some(Scalar::Type(Type::Id(0))), vec![]));
    assert_eq!(handed_back(&z, vec![Type::Id(1)]), (false, Some(Scalar::Type(Type::Id(1))), vec![]));
    assert_eq!(handed_back(&z, vec![Type::String]), (false, None, vec![Type::String]));
    for id in [2, 3, 6, 10, 11, 12, 13] {
        assert_eq!(handed_back(&z, vec![Type::Id(id)]), (false, None, vec![Type::Id(id)]));
    }
    assert_eq!(
        handed_back(&z, vec![Type::Id(8)]),
        (false, Some(Scalar::OptionBool(Type::String)), vec![Type::String])
    );
    assert_eq!(
        handed_back(&z, vec![Type::Id(9)]),
        (false, Some(Scalar::ResultEnum { err: 0, max_err: 3 }), vec![Type::U32])
    );
    // A result whose error is no enum goes through a pointer as a whole.
    assert_eq!(handed_back(&z, vec![Type::Id(14)]), (false, None, vec![Type::Id(14)]));
    assert_eq!(
        handed_back(&z, vec![Type::U32, Type::String]),
        (true, None, vec![Type::U32, Type::String])
    );
}

#[test]
fn integer_types_by_width() {
    assert_eq!(int_repr(Int::U8), "uint8_t");
    assert_eq!(int_repr(Int::U16), "uint16_t");
    assert_eq!(int_repr(Int::U32), "uint32_t");
    assert_eq!(int_repr(Int::U64), "uint64_t");
    assert_eq!(wasm_type(WasmType::I32), "int32_t");
    assert_eq!(wasm_type(WasmType::I64), "int64_t");
    assert_eq!(wasm_type(WasmType::F32), "float");
    assert_eq!(wasm_type(WasmType::F64), "double");
}

#[test]
fn flags_take_the_narrowest_type() {
    let many = |n: usize| (0..n).map(|i| format!("f{}", i)).collect::<Vec<String>>();
    assert_eq!(flags_repr(&many(0)), Int::U8);
    assert_eq!(flags_repr(&many(8)), Int::U8);
    assert_eq!(flags_repr(&many(9)), Int::U16);
    assert_eq!(flags_repr(&many(16)), Int::U16);
    assert_eq!(flags_repr(&many(17)), Int::U32);
    assert_eq!(flags_repr(&many(32)), Int::U32);
    assert_eq!(flags_repr(&many(33)), Int::U64);
    assert_eq!(flags_repr(&many(64)), Int::U64);
}

#[test]
fn discriminants_take_the_narrowest_type() {
    assert_eq!(tag_repr(0), Int::U8);
    assert_eq!(tag_repr(2), Int::U8);
    assert_eq!(tag_repr(255), Int::U8);
    assert_eq!(tag_repr(256), Int::U16);
    assert_eq!(tag_repr(65535), Int::U16);
    assert_eq!(tag_repr(65536), Int::U32);
}

#[test]
fn the_sentinel_is_no_case() {
    // -1 is the largest value of the discriminant's type; no case has it.
    for cases in [1usize, 2, 127, 128, 255, 256, 65535, 65536] {
        let max: u64 = match tag_repr(cases) {
            Int::U8 => 0xff,
            Int::U16 => 0xffff,
            Int::U32 => 0xffff_ffff,
            Int::U64 => u64::MAX,
        };
        assert!(((cases - 1) as u64) < max);
    }
}

#[test]
fn directions_and_their_variants() {
    assert_eq!(C::abi_variant(Direction::Import), AbiVariant::GuestImport);
    assert_eq!(C::abi_variant(Direction::Export), AbiVariant::GuestExport);
    let mut gen = C::new();
    let z = zoo();
    gen.preprocess_one(&z, Direction::Import);
    assert!(gen.in_import);
    gen.preprocess_one(&z, Direction::Export);
    assert!(!gen.in_import);
}

#[test]
fn numbers_in_decimal() {
    assert_eq!(decimal_string(0), "0");
    assert_eq!(decimal_string(7), "7");
    assert_eq!(decimal_string(10), "10");
    assert_eq!(decimal_string(4096), "4096");
    assert_eq!(decimal_string(usize::MAX), usize::MAX.to_string());
    assert_eq!(signed_decimal_string(0), "0");
    assert_eq!(signed_decimal_string(-1), "-1");
    assert_eq!(signed_decimal_string(42), "42");
    assert_eq!(signed_decimal_string(i32::MIN), "-2147483648");
    assert_eq!(signed_decimal_string(i32::MAX), "2147483647");
}

#[test]
fn an_interface_in_order_passes() {
    assert!(zoo().check().is_ok());
}

#[test]
fn a_future_is_unsupported() {
    let iface = Interface {
        name: "m".to_string(),
        types: vec![anon(TypeDefKind::Future(Some(Type::U32)))],
        functions: vec![],
    };
    assert!(matches!(iface.check(), Err(Error::Unsupported)));
    let iface = Interface {
        name: "m".to_string(),
        types: vec![anon(TypeDefKind::Stream { element: None, end: None })],
        functions: vec![],
    };
    assert!(matches!(iface.check(), Err(Error::Unsupported)));
}

#[test]
fn too_many_flags_are_unsupported() {
    let flags: Vec<String> = (0..65).map(|i| format!("f{}", i)).collect();
    let iface = Interface {
        name: "m".to_string(),
        types: vec![named("f", TypeDefKind::Flags(flags))],
        functions: vec![],
    };
    assert!(matches!(iface.check(), Err(Error::Unsupported)));
}

#[test]
fn a_variant_without_cases_is_unsupported() {
    let iface = Interface {
        name: "m".to_string(),
        types: vec![named("v", TypeDefKind::Variant(vec![]))],
        functions: vec![],
    };
    assert!(matches!(iface.check(), Err(Error::Unsupported)));
}

#[test]
fn a_type_that_mentions_itself_is_malformed() {
    let iface = Interface {
        name: "m".to_string(),
        types: vec![anon(TypeDefKind::List(Type::Id(0)))],
        functions: vec![],
    };
    assert!(matches!(iface.check(), Err(Error::Malformed)));
    let iface = Interface {
        name: "m".to_string(),
        types: vec![anon(TypeDefKind::Option(Type::Id(5)))],
        functions: vec![],
    };
    assert!(matches!(iface.check(), Err(Error::Malformed)));
}

#[test]
fn definitions_in_any_order_pass() {
    let iface = Interface {
        name: "m".to_string(),
        types: vec![
            anon(TypeDefKind::List(Type::Id(2))),
            named("r", TypeDefKind::Record(vec![field("a", Type::U8)])),
            anon(TypeDefKind::Tuple(vec![Type::Id(1), Type::Id(1)])),
            anon(TypeDefKind::Option(Type::Id(0))),
        ],
        functions: vec![],
    };
    assert!(iface.check().is_ok());
}

#[test]
fn definitions_on_a_cycle_are_malformed() {
    let iface = Interface {
        name: "m".to_string(),
        types: vec![
            anon(TypeDefKind::Option(Type::Id(2))),
            anon(TypeDefKind::List(Type::U8)),
            anon(TypeDefKind::Tuple(vec![Type::Id(1), Type::Id(0)])),
        ],
        functions: vec![],
    };
    assert!(matches!(iface.check(), Err(Error::Malformed)));
}

#[test]
fn what_is_unsupported_comes_first() {
    // A stream and a cycle: the stream decides.
    let iface = Interface {
        name: "m".to_string(),
        types: vec![
            anon(TypeDefKind::Option(Type::Id(0))),
            anon(TypeDefKind::Stream { element: None, end: None }),
        ],
        functions: vec![],
    };
    assert!(matches!(iface.check(), Err(Error::Unsupported)));
}

#[test]
fn a_record_without_a_name_is_malformed() {
    let iface = Interface {
        name: "m".to_string(),
        types: vec![anon(TypeDefKind::Record(vec![]))],
        functions: vec![],
    };
    assert!(matches!(iface.check(), Err(Error::Malformed)));
}

#[test]
fn a_function_whose_types_resolve() {
    let z = zoo();
    let f = |params: Vec<Type>, results: Vec<Type>| Function {
        name: "f".to_string(),
        params: params.into_iter().map(|t| ("p".to_string(), t)).collect(),
        results,
    };
    assert!(z.has_function(&f(vec![], vec![])));
    assert!(z.has_function(&f(vec![Type::U8, Type::Id(17)], vec![Type::Id(0)])));
    assert!(!z.has_function(&f(vec![Type::Id(18)], vec![])));
    assert!(!z.has_function(&f(vec![], vec![Type::U8, Type::Id(99)])));
}

#[test]
fn the_direction_is_noted() {
    let mut gen = C::new();
    gen.preprocess_one(&zoo(), Direction::Export);
    assert_eq!(gen.direction, Direction::Export);
    gen.preprocess_one(&zoo(), Direction::Import);
    assert_eq!(gen.direction, Direction::Import);
}

#[test]
fn errors_in_words() {
    assert_eq!(Error::Duplicate("foo".to_string()).message(), "name `foo` already defined");
    assert_eq!(Error::Unsupported.message(), "unsupported type or instruction");
    assert_eq!(Error::Malformed.message(), "malformed instruction stream");
}

#[test]
fn definitions_come_after_what_they_mention() {
    // 0 mentions 2, 2 mentions 1: the order is 1, 2, 0, 3.
    let iface = Interface {
        name: "m".to_string(),
        types: vec![
            anon(TypeDefKind::List(Type::Id(2))),
            named("r", TypeDefKind::Record(vec![field("a", Type::U8)])),
            anon(TypeDefKind::Tuple(vec![Type::Id(1), Type::Id(1)])),
            anon(TypeDefKind::Option(Type::Id(0))),
        ],
        functions: vec![],
    };
    assert_eq!(iface.topological_types(), vec![1, 2, 0, 3]);
    let z = zoo();
    let order = z.topological_types();
    assert_eq!(order.len(), z.types.len());
    for id in 0..z.types.len() {
        assert_eq!(order.iter().filter(|x| **x == id).count(), 1);
    }
    let place = |id: usize| order.iter().position(|x| *x == id).unwrap();
    assert!(place(4) < place(5));
    assert!(place(3) < place(12));
    assert!(place(3) < place(13));
    assert!(place(0) < place(9));
}

#[test]
fn an_api_error_keeps_its_value() {
    let e = ApiError::new(42u32);
    assert_eq!(e.into_inner(), 42);
    let e = ApiError::new("zero".to_string());
    assert_eq!(e.into_inner(), "zero");
}
