use wit_bindgen_gen_guest_c::abi::Instruction;
use wit_bindgen_gen_guest_c::bindgen::CSig;
use wit_bindgen_gen_guest_c::bindgen::Error;
use wit_bindgen_gen_guest_c::bindgen::FunctionBindgen;
use wit_bindgen_gen_guest_c::gen::Sources;
use wit_bindgen_gen_guest_c::gen::C;
use wit_bindgen_gen_guest_c::ir::Case;
use wit_bindgen_gen_guest_c::ir::Field;
use wit_bindgen_gen_guest_c::ir::Function;
use wit_bindgen_gen_guest_c::ir::Interface;
use wit_bindgen_gen_guest_c::ir::Type;
use wit_bindgen_gen_guest_c::ir::TypeDef;
use wit_bindgen_gen_guest_c::ir::TypeDefKind;
use wit_bindgen_gen_guest_c::repr::Bitcast;
use wit_bindgen_gen_guest_c::repr::Direction;
use wit_bindgen_gen_guest_c::repr::WasmSignature;
use wit_bindgen_gen_guest_c::repr::WasmType;
use wit_bindgen_gen_guest_c::ret::Return;
use wit_bindgen_gen_guest_c::ret::Scalar;

fn squash(text: &str) -> String {
    text.split_whitespace().collect::<Vec<_>>().join(" ")
}

fn named(name: &str, kind: TypeDefKind) -> TypeDef {
    TypeDef { name: Some(name.to_string()), kind, docs: None }
}

fn anon(kind: TypeDefKind) -> TypeDef {
    TypeDef { name: None, kind, docs: None }
}

fn strings(names: &[&str]) -> Vec<String> {
    names.iter().map(|n| n.to_string()).collect()
}

/// 0 record point, 1 tuple, 2 variant shape, 3 union, 4 option of u32, 5
/// result of u32 and string, 6 list of u8, 7 flags of 40 members, 8 flags of
/// 3 members, 9 enum, 10 empty record, 11 option of the empty record.
fn iface() -> Interface {
    Interface {
        name: "my-iface".to_string(),
        types: vec![
            named(
                "point",
                TypeDefKind::Record(vec![
                    Field { name: "x-pos".to_string(), ty: Type::U32 },
                    Field { name: "y-pos".to_string(), ty: Type::U32 },
                ]),
            ),
            anon(TypeDefKind::Tuple(vec![Type::U8, Type::U16, Type::U32])),
            named(
                "shape",
                TypeDefKind::Variant(vec![
                    Case { name: "dot".to_string(), ty: None },
                    Case { name: "circle".to_string(), ty: Some(Type::U32) },
                ]),
            ),
            named("either", TypeDefKind::Union(vec![Type::U32, Type::Float32])),
            anon(TypeDefKind::Option(Type::U32)),
            anon(TypeDefKind::Result { ok: Some(Type::U32), err: Some(Type::String) }),
            anon(TypeDefKind::List(Type::U8)),
            named(
                "wide",
                TypeDefKind::Flags((0..40).map(|i| format!("f{}", i)).collect::<Vec<String>>()),
            ),
            named("narrow", TypeDefKind::Flags(strings(&["a", "b", "c"]))),
            named("errno", TypeDefKind::Enum(strings(&["a", "b"]))),
            named("nothing", TypeDefKind::Record(vec![])),
            anon(TypeDefKind::Option(Type::Id(10))),
        ],
        functions: vec![],
    }
}

fn sig(name: &str, params: Vec<(bool, &str)>, scalar: Option<Scalar>, retptrs: Vec<Type>) -> CSig {
    let n = retptrs.len();
    CSig {
        name: name.to_string(),
        sig: String::new(),
        params: params.into_iter().map(|(p, n)| (p, n.to_string())).collect(),
        ret: Return { return_multiple: false, scalar, retptrs },
        retptrs: (0..n).map(|i| format!("ret{}", i)).collect(),
    }
}

fn bindgen(s: CSig) -> FunctionBindgen {
    FunctionBindgen::new(s, "__wasm_import_f", Sources::new())
}

fn plain() -> FunctionBindgen {
    let mut f = bindgen(sig("my_iface_f", vec![], Some(Scalar::Void), vec![]));
    f.params = strings(&["a", "*b"]);
    f
}

/// Emits one instruction with the given operands; gives the results.
fn emit(
    f: &mut FunctionBindgen,
    gen: &mut C,
    inst: Instruction,
    operands: &[&str],
) -> Result<Vec<String>, Error> {
    let mut operands = strings(operands);
    let mut results = Vec::new();
    f.emit(gen, &iface(), &inst, &mut operands, &mut results)?;
    Ok(results)
}

fn gives(inst: Instruction, operands: &[&str]) -> Vec<String> {
    emit(&mut plain(), &mut C::new(), inst, operands).unwrap()
}

fn body(f: &FunctionBindgen) -> String {
    squash(&f.src)
}

#[test]
fn parameters_and_constants() {
    assert_eq!(gives(Instruction::GetArg { nth: 0 }, &[]), ["a"]);
    assert_eq!(gives(Instruction::GetArg { nth: 1 }, &[]), ["*b"]);
    assert_eq!(gives(Instruction::I32Const { val: -7 }, &[]), ["-7"]);
    assert_eq!(gives(Instruction::I32Const { val: 12 }, &[]), ["12"]);
    assert_eq!(
        gives(Instruction::ConstZero { tys: vec![WasmType::I32, WasmType::F64] }, &[]),
        ["0", "0"]
    );
    assert_eq!(gives(Instruction::IterElem, &[]), ["e"]);
    assert_eq!(gives(Instruction::IterBasePointer, &[]), ["base"]);
}

#[test]
fn a_parameter_that_is_not_there_is_malformed() {
    let r = emit(&mut plain(), &mut C::new(), Instruction::GetArg { nth: 2 }, &[]);
    assert!(matches!(r, Err(Error::Malformed)));
}

#[test]
fn conversions_are_casts() {
    assert_eq!(gives(Instruction::U8FromI32, &["x"]), ["(uint8_t) (x)"]);
    assert_eq!(gives(Instruction::S8FromI32, &["x"]), ["(int8_t) (x)"]);
    assert_eq!(gives(Instruction::U16FromI32, &["x"]), ["(uint16_t) (x)"]);
    assert_eq!(gives(Instruction::S16FromI32, &["x"]), ["(int16_t) (x)"]);
    assert_eq!(gives(Instruction::U32FromI32, &["x"]), ["(uint32_t) (x)"]);
    assert_eq!(gives(Instruction::U64FromI64, &["x"]), ["(uint64_t) (x)"]);
    assert_eq!(gives(Instruction::S32FromI32, &["x"]), ["x"]);
    assert_eq!(gives(Instruction::S64FromI64, &["x"]), ["x"]);
    for inst in [
        Instruction::I32FromU8,
        Instruction::I32FromS8,
        Instruction::I32FromU16,
        Instruction::I32FromS16,
        Instruction::I32FromU32,
        Instruction::I32FromChar,
    ] {
        assert_eq!(gives(inst, &["x"]), ["(int32_t) (x)"]);
    }
    assert_eq!(gives(Instruction::I64FromU64, &["x"]), ["(int64_t) (x)"]);
    assert_eq!(gives(Instruction::CharFromI32, &["x"]), ["(uint32_t) (x)"]);
    for inst in [
        Instruction::I32FromS32,
        Instruction::I64FromS64,
        Instruction::F32FromFloat32,
        Instruction::F64FromFloat64,
        Instruction::Float32FromF32,
        Instruction::Float64FromF64,
        Instruction::BoolFromI32,
        Instruction::I32FromBool,
    ] {
        assert_eq!(gives(inst, &["x + 1"]), ["x + 1"]);
    }
    assert_eq!(gives(Instruction::EnumLower, &["x"]), ["(int32_t) x"]);
    assert_eq!(gives(Instruction::EnumLift, &["x"]), ["x"]);
}

#[test]
fn a_conversion_without_operand_is_malformed() {
    for inst in [Instruction::U8FromI32, Instruction::EnumLift, Instruction::I32Load { offset: 0 }] {
        let r = emit(&mut plain(), &mut C::new(), inst, &[]);
        assert!(matches!(r, Err(Error::Malformed)));
    }
}

#[test]
fn bitcasts_pun_or_cast() {
    let casts = vec![
        Bitcast::I32ToF32,
        Bitcast::I64ToF32,
        Bitcast::F32ToI32,
        Bitcast::F32ToI64,
        Bitcast::I64ToF64,
        Bitcast::F64ToI64,
        Bitcast::I32ToI64,
        Bitcast::I64ToI32,
        Bitcast::Identity,
    ];
    let ops = ["a", "b", "c", "d", "e", "f", "g", "h", "i"];
    assert_eq!(
        gives(Instruction::Bitcasts { casts }, &ops),
        [
            "((union { int32_t a; float b; }){ a }).b",
            "((union { int32_t a; float b; }){ b }).b",
            "((union { float a; int32_t b; }){ c }).b",
            "((union { float a; int32_t b; }){ d }).b",
            "((union { int64_t a; double b; }){ e }).b",
            "((union { double a; int64_t b; }){ f }).b",
            "(int64_t) g",
            "(int32_t) h",
            "i",
        ]
    );
}

#[test]
fn loads_and_stores() {
    assert_eq!(gives(Instruction::I32Load { offset: 4 }, &["p"]), ["*((int32_t*) (p + 4))"]);
    assert_eq!(gives(Instruction::I64Load { offset: 8 }, &["p"]), ["*((int64_t*) (p + 8))"]);
    assert_eq!(gives(Instruction::F32Load { offset: 0 }, &["p"]), ["*((float*) (p + 0))"]);
    assert_eq!(gives(Instruction::F64Load { offset: 0 }, &["p"]), ["*((double*) (p + 0))"]);
    assert_eq!(
        gives(Instruction::I32Load8U { offset: 1 }, &["p"]),
        ["(int32_t) (*((uint8_t*) (p + 1)))"]
    );
    assert_eq!(
        gives(Instruction::I32Load8S { offset: 1 }, &["p"]),
        ["(int32_t) (*((int8_t*) (p + 1)))"]
    );
    assert_eq!(
        gives(Instruction::I32Load16U { offset: 2 }, &["p"]),
        ["(int32_t) (*((uint16_t*) (p + 2)))"]
    );
    assert_eq!(
        gives(Instruction::I32Load16S { offset: 2 }, &["p"]),
        ["(int32_t) (*((int16_t*) (p + 2)))"]
    );
    let mut f = plain();
    let mut gen = C::new();
    for (inst, ty) in [
        (Instruction::I32Store { offset: 4 }, "int32_t"),
        (Instruction::I64Store { offset: 4 }, "int64_t"),
        (Instruction::F32Store { offset: 4 }, "float"),
        (Instruction::F64Store { offset: 4 }, "double"),
        (Instruction::I32Store8 { offset: 4 }, "int8_t"),
        (Instruction::I32Store16 { offset: 4 }, "int16_t"),
    ] {
        let mut f = plain();
        assert!(emit(&mut f, &mut gen, inst, &["v", "p"]).unwrap().is_empty());
        assert_eq!(body(&f), format!("*(({}*)(p + 4)) = v;", ty));
    }
    let r = emit(&mut f, &mut gen, Instruction::I32Store { offset: 0 }, &["v"]);
    assert!(matches!(r, Err(Error::Malformed)));
}

#[test]
fn lists_and_strings_are_address_and_length() {
    let want = ["(int32_t) (s).ptr", "(int32_t) (s).len"];
    assert_eq!(gives(Instruction::ListCanonLower, &["s"]), want);
    assert_eq!(gives(Instruction::StringLower, &["s"]), want);
    let mut f = plain();
    let mut gen = C::new();
    f.push_block();
    f.finish_block(&mut vec![]).unwrap();
    assert_eq!(emit(&mut f, &mut gen, Instruction::ListLower, &["s"]).unwrap(), want);
    assert!(f.blocks.is_empty());
    // Without a block for the element the stream is malformed.
    let r = emit(&mut f, &mut gen, Instruction::ListLower, &["s"]);
    assert!(matches!(r, Err(Error::Malformed)));
}

#[test]
fn lists_and_strings_are_lifted_to_literals() {
    let mut f = plain();
    let mut gen = C::new();
    let r = emit(&mut f, &mut gen, Instruction::StringLift, &["p", "n"]).unwrap();
    assert_eq!(r, ["(my_iface_string_t) { (char*)(p), (size_t)(n) }"]);
    assert!(gen.needs_string);
    let mut gen = C::new();
    let r = emit(
        &mut f,
        &mut gen,
        Instruction::ListCanonLift { element: Type::U8, ty: 6 },
        &["p", "n"],
    )
    .unwrap();
    assert_eq!(r, ["(my_iface_list_u8_t) { (uint8_t*)(p), (size_t)(n) }"]);
    // The list type was only named in a body: it is private.
    assert!(gen.private_anonymous_types.contains(&6));
    assert!(!gen.public_anonymous_types.contains(&6));
    assert!(!gen.needs_string);
    f.push_block();
    f.finish_block(&mut vec![]).unwrap();
    let r = emit(&mut f, &mut gen, Instruction::ListLift { element: Type::U8, ty: 6 }, &["p", "n"])
        .unwrap();
    assert_eq!(r, ["(my_iface_list_u8_t) { (uint8_t*)(p), (size_t)(n) }"]);
}

#[test]
fn a_public_type_stays_public() {
    let mut f = plain();
    let mut gen = C::new();
    gen.print_ty(&iface(), &Type::Id(6));
    assert!(gen.public_anonymous_types.contains(&6));
    emit(&mut f, &mut gen, Instruction::ListCanonLift { element: Type::U8, ty: 6 }, &["p", "n"])
        .unwrap();
    assert!(gen.public_anonymous_types.contains(&6));
    assert!(!gen.private_anonymous_types.contains(&6));
}

#[test]
fn a_private_type_becomes_public() {
    let mut gen = C::new();
    assert_eq!(gen.type_string(&iface(), &Type::Id(1)), "my_iface_tuple3_u8_u16_u32_t");
    assert!(gen.private_anonymous_types.contains(&1));
    gen.print_ty(&iface(), &Type::Id(1));
    assert!(gen.public_anonymous_types.contains(&1));
    assert!(!gen.private_anonymous_types.contains(&1));
}

#[test]
fn records_and_tuples() {
    assert_eq!(
        gives(Instruction::RecordLower { ty: 0 }, &["p"]),
        ["(p).x_pos", "(p).y_pos"]
    );
    assert_eq!(
        gives(Instruction::TupleLower { ty: 1 }, &["t"]),
        ["(t).f0", "(t).f1", "(t).f2"]
    );
    assert_eq!(
        gives(Instruction::RecordLift { ty: 0 }, &["a", "b"]),
        ["(my_iface_point_t) {\na,\nb,\n}"]
    );
    assert_eq!(
        gives(Instruction::TupleLift { ty: 1 }, &["a", "b", "c"]),
        ["(my_iface_tuple3_u8_u16_u32_t) {\na,\nb,\nc,\n}"]
    );
    // A record is no tuple.
    let r = emit(&mut plain(), &mut C::new(), Instruction::TupleLower { ty: 0 }, &["t"]);
    assert!(matches!(r, Err(Error::Malformed)));
    let r = emit(&mut plain(), &mut C::new(), Instruction::RecordLower { ty: 99 }, &["t"]);
    assert!(matches!(r, Err(Error::Malformed)));
}

#[test]
fn narrow_flags_pass_through() {
    assert_eq!(gives(Instruction::FlagsLower { ty: 8 }, &["x"]), ["x"]);
    assert_eq!(gives(Instruction::FlagsLift { ty: 8 }, &["x"]), ["x"]);
}

#[test]
fn wide_flags_are_split_in_halves() {
    let mut f = plain();
    let mut gen = C::new();
    let r = emit(&mut f, &mut gen, Instruction::FlagsLower { ty: 7 }, &["x"]).unwrap();
    assert_eq!(r, ["flags & 0xffffffff", "(flags >> 32) & 0xffffffff"]);
    assert_eq!(body(&f), "my_iface_wide_t flags = x;");
    let r = emit(&mut f, &mut gen, Instruction::FlagsLift { ty: 7 }, &["lo", "hi"]).unwrap();
    assert_eq!(r, ["((my_iface_wide_t) (lo)) | (((my_iface_wide_t) (hi)) << 32)"]);
}

#[test]
fn flags_beyond_64_are_unsupported() {
    let z = Interface {
        name: "m".to_string(),
        types: vec![named(
            "huge",
            TypeDefKind::Flags((0..65).map(|i| format!("f{}", i)).collect::<Vec<String>>()),
        )],
        functions: vec![],
    };
    for inst in [Instruction::FlagsLower { ty: 0 }, Instruction::FlagsLift { ty: 0 }] {
        let mut operands = strings(&["x", "y"]);
        let mut results = Vec::new();
        let r = plain().emit(&mut C::new(), &z, &inst, &mut operands, &mut results);
        assert!(matches!(r, Err(Error::Unsupported)));
    }
    // What is no set of flags does not fit the instruction.
    let r = emit(&mut plain(), &mut C::new(), Instruction::FlagsLower { ty: 0 }, &["x"]);
    assert!(matches!(r, Err(Error::Malformed)));
}

#[test]
fn fresh_names_count_up() {
    let mut f = plain();
    let mut gen = C::new();
    let a = emit(&mut f, &mut gen, Instruction::VariantPayloadName, &[]).unwrap();
    let b = emit(&mut f, &mut gen, Instruction::VariantPayloadName, &[]).unwrap();
    let c = emit(&mut f, &mut gen, Instruction::VariantPayloadName, &[]).unwrap();
    assert_eq!(a, ["*payload"]);
    assert_eq!(b, ["*payload0"]);
    assert_eq!(c, ["*payload1"]);
    assert_eq!(f.payloads, ["payload", "payload0", "payload1"]);
    assert_eq!(f.tmp("payload"), "payload2");
    assert_eq!(f.tmp("other"), "other");
    // The counter is shared among the prefixes.
    assert_eq!(f.tmp("other"), "other3");
}

fn block(f: &mut FunctionBindgen, gen: &mut C, statement: Option<(&str, &str)>, results: &[&str]) {
    f.push_block();
    if let Some((op, loc)) = statement {
        f.store_op(op, loc);
    }
    let _ = gen;
    f.finish_block(&mut strings(results)).unwrap();
}

#[test]
fn a_variant_is_lowered_case_by_case() {
    let mut f = plain();
    let mut gen = C::new();
    emit(&mut f, &mut gen, Instruction::VariantPayloadName, &[]).unwrap();
    block(&mut f, &mut gen, None, &["0", "0"]);
    emit(&mut f, &mut gen, Instruction::VariantPayloadName, &[]).unwrap();
    block(&mut f, &mut gen, None, &["1", "(int32_t) (*payload0)"]);
    let r = emit(
        &mut f,
        &mut gen,
        Instruction::VariantLower { ty: 2, results: vec![WasmType::I32, WasmType::I32] },
        &["v"],
    )
    .unwrap();
    assert_eq!(r, ["variant", "variant1"]);
    assert_eq!(
        body(&f),
        "int32_t variant; int32_t variant1; switch ((int32_t) (v).tag) { \
         case 0: { variant = 0; variant1 = 0; break; } \
         case 1: { const uint32_t *payload0 = &(v).val.circle; \
         variant = 1; variant1 = (int32_t) (*payload0); break; } }"
    );
    assert!(f.blocks.is_empty());
    assert!(f.payloads.is_empty());
}

#[test]
fn a_variant_is_lifted_case_by_case() {
    let mut f = plain();
    let mut gen = C::new();
    block(&mut f, &mut gen, None, &[]);
    block(&mut f, &mut gen, None, &["(uint32_t) (x)"]);
    let r = emit(&mut f, &mut gen, Instruction::VariantLift { ty: 2 }, &["tag"]).unwrap();
    assert_eq!(r, ["variant"]);
    assert_eq!(
        body(&f),
        "my_iface_shape_t variant; variant.tag = tag; switch ((int32_t) variant.tag) { \
         case 0: { break; } case 1: { variant.val.circle = (uint32_t) (x); break; } }"
    );
}

#[test]
fn a_variant_without_its_blocks_is_malformed() {
    let mut f = plain();
    let mut gen = C::new();
    block(&mut f, &mut gen, None, &[]);
    let r = emit(&mut f, &mut gen, Instruction::VariantLift { ty: 2 }, &["tag"]);
    assert!(matches!(r, Err(Error::Malformed)));
    // A block that yields the wrong number of operands.
    let mut f = plain();
    block(&mut f, &mut gen, None, &["x"]);
    block(&mut f, &mut gen, None, &["y"]);
    let r = emit(&mut f, &mut gen, Instruction::VariantLift { ty: 2 }, &["tag"]);
    assert!(matches!(r, Err(Error::Malformed)));
}

#[test]
fn a_union_is_lowered_and_lifted() {
    let mut f = plain();
    let mut gen = C::new();
    emit(&mut f, &mut gen, Instruction::VariantPayloadName, &[]).unwrap();
    block(&mut f, &mut gen, None, &["a"]);
    emit(&mut f, &mut gen, Instruction::VariantPayloadName, &[]).unwrap();
    block(&mut f, &mut gen, None, &["b"]);
    let r = emit(
        &mut f,
        &mut gen,
        Instruction::UnionLower { ty: 3, results: vec![WasmType::I32] },
        &["u"],
    )
    .unwrap();
    assert_eq!(r, ["unionres"]);
    assert_eq!(
        body(&f),
        "int32_t unionres; switch ((u).tag) { \
         case 0: { const uint32_t *payload = &(u).val.f0; unionres = a; break; } \
         case 1: { const float *payload0 = &(u).val.f1; unionres = b; break; } }"
    );
    let mut f = plain();
    block(&mut f, &mut gen, None, &["a"]);
    block(&mut f, &mut gen, None, &["b"]);
    let r = emit(&mut f, &mut gen, Instruction::UnionLift { ty: 3 }, &["tag"]).unwrap();
    assert_eq!(r, ["unionres"]);
    assert_eq!(
        body(&f),
        "my_iface_either_t unionres; unionres.tag = tag; switch ((int32_t) unionres.tag) { \
         case 0: { unionres.val.f0 = a; break; } case 1: { unionres.val.f1 = b; break; } }"
    );
}

#[test]
fn an_option_is_lowered_and_lifted() {
    let mut f = plain();
    let mut gen = C::new();
    emit(&mut f, &mut gen, Instruction::VariantPayloadName, &[]).unwrap();
    block(&mut f, &mut gen, None, &["0", "0"]);
    emit(&mut f, &mut gen, Instruction::VariantPayloadName, &[]).unwrap();
    block(&mut f, &mut gen, None, &["1", "(int32_t) (*payload0)"]);
    let r = emit(
        &mut f,
        &mut gen,
        Instruction::OptionLower { ty: 4, results: vec![WasmType::I32, WasmType::I32] },
        &["o"],
    )
    .unwrap();
    assert_eq!(r, ["option", "option1"]);
    assert_eq!(
        body(&f),
        "int32_t option; int32_t option1; if ((o).is_some) { \
         const uint32_t *payload0 = &(o).val; option = 1; option1 = (int32_t) (*payload0); \
         } else { option = 0; option1 = 0; }"
    );
    let mut f = plain();
    block(&mut f, &mut gen, None, &[]);
    block(&mut f, &mut gen, None, &["(uint32_t) (x)"]);
    let r = emit(&mut f, &mut gen, Instruction::OptionLift { ty: 4 }, &["tag"]).unwrap();
    assert_eq!(r, ["option"]);
    assert_eq!(
        body(&f),
        "my_iface_option_u32_t option; switch (tag) { \
         case 0: { option.is_some = false; break; } \
         case 1: { option.is_some = true; option.val = (uint32_t) (x); break; } }"
    );
}

#[test]
fn an_option_of_nothing_has_no_value() {
    let mut f = plain();
    let mut gen = C::new();
    block(&mut f, &mut gen, None, &[]);
    block(&mut f, &mut gen, None, &["x"]);
    emit(&mut f, &mut gen, Instruction::OptionLift { ty: 11 }, &["tag"]).unwrap();
    assert!(!body(&f).contains(".val"));
}

#[test]
fn a_result_is_lowered_and_lifted() {
    let mut f = plain();
    let mut gen = C::new();
    emit(&mut f, &mut gen, Instruction::VariantPayloadName, &[]).unwrap();
    block(&mut f, &mut gen, None, &["0", "a"]);
    emit(&mut f, &mut gen, Instruction::VariantPayloadName, &[]).unwrap();
    block(&mut f, &mut gen, None, &["1", "b"]);
    let r = emit(
        &mut f,
        &mut gen,
        Instruction::ResultLower { ty: 5, results: vec![WasmType::I32, WasmType::I32] },
        &["r"],
    )
    .unwrap();
    assert_eq!(r, ["result", "result1"]);
    assert_eq!(
        body(&f),
        "int32_t result; int32_t result1; if ((r).is_err) { \
         const my_iface_string_t *payload0 = &(r).val.err; result = 1; result1 = b; \
         } else { const uint32_t *payload = &(r).val.ok; result = 0; result1 = a; }"
    );
    assert!(gen.needs_string);
    let mut f = plain();
    block(&mut f, &mut gen, None, &["x"]);
    block(&mut f, &mut gen, None, &["y"]);
    let r = emit(&mut f, &mut gen, Instruction::ResultLift { ty: 5 }, &["tag"]).unwrap();
    assert_eq!(r, ["result"]);
    assert_eq!(
        body(&f),
        "my_iface_result_u32_string_t result; switch (tag) { \
         case 0: { result.is_err = false; result.val.ok = x; break; } \
         case 1: { result.is_err = true; result.val.err = y; break; } }"
    );
}

#[test]
fn the_trampoline_is_called() {
    let mut f = plain();
    let mut gen = C::new();
    let none = WasmSignature { params: vec![], results: vec![] };
    let r = emit(&mut f, &mut gen, Instruction::CallWasm { sig: none }, &["a", "b"]).unwrap();
    assert!(r.is_empty());
    assert_eq!(body(&f), "__wasm_import_f(a, b);");
    let mut f = plain();
    let one = WasmSignature { params: vec![], results: vec![WasmType::I64] };
    let r = emit(&mut f, &mut gen, Instruction::CallWasm { sig: one }, &[]).unwrap();
    assert_eq!(r, ["ret"]);
    assert_eq!(body(&f), "int64_t ret = __wasm_import_f();");
    assert_eq!(f.wasm_return, Some("ret".to_string()));
    let two = WasmSignature { params: vec![], results: vec![WasmType::I32, WasmType::I32] };
    let r = emit(&mut f, &mut gen, Instruction::CallWasm { sig: two }, &[]);
    assert!(matches!(r, Err(Error::Unsupported)));
}

#[test]
fn what_has_no_code_is_unsupported() {
    let r = emit(&mut plain(), &mut C::new(), Instruction::Malloc, &[]);
    assert!(matches!(r, Err(Error::Unsupported)));
}

fn import_gen() -> C {
    let mut gen = C::new();
    gen.preprocess_one(&iface(), Direction::Import);
    gen
}

#[test]
fn an_import_returns_as_its_signature_says() {
    let mut gen = import_gen();
    let mut f = bindgen(sig("f", vec![], Some(Scalar::Type(Type::U32)), vec![]));
    emit(&mut f, &mut gen, Instruction::Return { amt: 1 }, &["x"]).unwrap();
    assert_eq!(body(&f), "return x;");

    let mut f = bindgen(sig("f", vec![], Some(Scalar::Void), vec![]));
    emit(&mut f, &mut gen, Instruction::Return { amt: 0 }, &[]).unwrap();
    assert_eq!(body(&f), "");
    let r = emit(&mut f, &mut gen, Instruction::Return { amt: 1 }, &["x"]);
    assert!(matches!(r, Err(Error::Malformed)));

    let mut f = bindgen(sig("f", vec![], None, vec![Type::U32, Type::String]));
    emit(&mut f, &mut gen, Instruction::Return { amt: 2 }, &["a", "b"]).unwrap();
    assert_eq!(body(&f), "*ret0 = a; *ret1 = b;");
    let r = emit(&mut f, &mut gen, Instruction::Return { amt: 1 }, &["a"]);
    assert!(matches!(r, Err(Error::Malformed)));

    let mut f = bindgen(sig("f", vec![], Some(Scalar::OptionBool(Type::U32)), vec![Type::U32]));
    emit(&mut f, &mut gen, Instruction::Return { amt: 1 }, &["o"]).unwrap();
    assert_eq!(body(&f), "*ret0 = o.val; return o.is_some;");

    let mut f = bindgen(sig(
        "f",
        vec![],
        Some(Scalar::ResultEnum { err: 9, max_err: 2 }),
        vec![Type::U32],
    ));
    emit(&mut f, &mut gen, Instruction::Return { amt: 1 }, &["r"]).unwrap();
    assert_eq!(body(&f), "*ret0 = r.val.ok; return r.is_err ? r.val.err : -1;");

    let mut f =
        bindgen(sig("f", vec![], Some(Scalar::ResultEnum { err: 9, max_err: 2 }), vec![]));
    emit(&mut f, &mut gen, Instruction::Return { amt: 1 }, &["r"]).unwrap();
    assert_eq!(body(&f), "return r.is_err ? r.val.err : -1;");
}

#[test]
fn an_export_returns_its_scalar() {
    let mut gen = C::new();
    gen.preprocess_one(&iface(), Direction::Export);
    let mut f = plain();
    emit(&mut f, &mut gen, Instruction::Return { amt: 0 }, &[]).unwrap();
    assert_eq!(body(&f), "");
    emit(&mut f, &mut gen, Instruction::Return { amt: 1 }, &["x"]).unwrap();
    assert_eq!(body(&f), "return x;");
    let r = emit(&mut f, &mut gen, Instruction::Return { amt: 2 }, &["x", "y"]);
    assert!(matches!(r, Err(Error::Malformed)));
}

fn function(params: Vec<(&str, Type)>, results: Vec<Type>) -> Function {
    Function {
        name: "f".to_string(),
        params: params.into_iter().map(|(n, t)| (n.to_string(), t)).collect(),
        results,
    }
}

#[test]
fn the_guest_function_is_called() {
    let mut gen = C::new();
    // Nothing is returned; a record goes by pointer.
    let mut f = bindgen(sig("my_iface_f", vec![(false, "a"), (true, "p")], Some(Scalar::Void), vec![]));
    let func = function(vec![("a", Type::U32), ("p", Type::Id(0))], vec![]);
    let r = emit(&mut f, &mut gen, Instruction::CallInterface { func }, &["x", "y"]).unwrap();
    assert!(r.is_empty());
    assert_eq!(body(&f), "my_iface_point_t arg = y; my_iface_f(x, &arg);");

    // A scalar is returned.
    let mut f = bindgen(sig("my_iface_f", vec![], Some(Scalar::Type(Type::U32)), vec![]));
    let func = function(vec![], vec![Type::U32]);
    let r = emit(&mut f, &mut gen, Instruction::CallInterface { func }, &[]).unwrap();
    assert_eq!(r, ["ret"]);
    assert_eq!(body(&f), "uint32_t ret = my_iface_f();");

    // Everything goes through pointers.
    let mut f = bindgen(sig("my_iface_f", vec![(false, "a")], None, vec![Type::Id(0), Type::U8]));
    let func = function(vec![("a", Type::U32)], vec![Type::Id(0), Type::U8]);
    let r = emit(&mut f, &mut gen, Instruction::CallInterface { func }, &["x"]).unwrap();
    assert_eq!(r, ["ret", "ret0"]);
    assert_eq!(body(&f), "my_iface_point_t ret; uint8_t ret0; my_iface_f(x, &ret, &ret0);");
}

#[test]
fn an_option_is_rebuilt_after_the_call() {
    let mut gen = C::new();
    let mut f =
        bindgen(sig("my_iface_f", vec![], Some(Scalar::OptionBool(Type::U32)), vec![Type::U32]));
    let func = function(vec![], vec![Type::Id(4)]);
    let r = emit(&mut f, &mut gen, Instruction::CallInterface { func }, &[]).unwrap();
    assert_eq!(r, ["ret0"]);
    assert_eq!(
        body(&f),
        "uint32_t val; bool ret = my_iface_f(&val); my_iface_option_u32_t ret0; \
         ret0.is_some = ret; ret0.val = val;"
    );
}

#[test]
fn a_result_is_rebuilt_after_the_call() {
    let mut gen = C::new();
    let mut f = bindgen(sig(
        "my_iface_f",
        vec![(false, "a")],
        Some(Scalar::ResultEnum { err: 9, max_err: 2 }),
        vec![Type::U32],
    ));
    let func = function(vec![("a", Type::U32)], vec![Type::Id(5)]);
    let r = emit(&mut f, &mut gen, Instruction::CallInterface { func }, &["x"]).unwrap();
    assert_eq!(r, ["ret0"]);
    assert_eq!(
        body(&f),
        "uint32_t ok; my_iface_errno_t ret = my_iface_f(x, &ok); \
         my_iface_result_u32_string_t ret0; if (ret < 2) { ret0.is_err = true; \
         ret0.val.err = ret; } else { ret0.is_err = false; ret0.val.ok = ok; }"
    );
}

#[test]
fn only_a_case_counts_as_an_error() {
    // With 255 cases the enum takes 8 bits, and -1 is 255: it is below no
    // bound that a case is below.
    let cases: Vec<String> = (0..255).map(|i| format!("c{}", i)).collect();
    let z = Interface {
        name: "m".to_string(),
        types: vec![
            named("e", TypeDefKind::Enum(cases)),
            anon(TypeDefKind::Result { ok: None, err: Some(Type::Id(0)) }),
        ],
        functions: vec![],
    };
    z.check().unwrap();
    let func = function(vec![], vec![Type::Id(1)]);
    let shape = C::classify_ret(&z, &func);
    assert_eq!(shape.scalar, Some(Scalar::ResultEnum { err: 0, max_err: 255 }));
    let mut f = bindgen(sig("m_f", vec![], shape.scalar, vec![]));
    let mut operands = Vec::new();
    let mut results = Vec::new();
    f.emit(&mut C::new(), &z, &Instruction::CallInterface { func }, &mut operands, &mut results)
        .unwrap();
    assert!(body(&f).contains("if (ret < 255) {"));
}

#[test]
fn a_call_that_does_not_fit_is_malformed() {
    let mut gen = C::new();
    // The signature returns a scalar, the function has no result.
    let mut f = bindgen(sig("my_iface_f", vec![], Some(Scalar::Type(Type::U32)), vec![]));
    let func = function(vec![], vec![]);
    let r = emit(&mut f, &mut gen, Instruction::CallInterface { func }, &[]);
    assert!(matches!(r, Err(Error::Malformed)));
    // A parameter type that does not resolve.
    let mut f = bindgen(sig("my_iface_f", vec![(true, "a")], Some(Scalar::Void), vec![]));
    let func = function(vec![("a", Type::Id(99))], vec![]);
    let r = emit(&mut f, &mut gen, Instruction::CallInterface { func }, &["x"]);
    assert!(matches!(r, Err(Error::Malformed)));
}

#[test]
fn what_an_export_handed_out_is_freed() {
    let mut f = plain();
    let mut gen = C::new();
    emit(&mut f, &mut gen, Instruction::GuestDeallocate, &["p"]).unwrap();
    assert_eq!(body(&f), "free((void*) (p));");
    let mut f = plain();
    emit(&mut f, &mut gen, Instruction::GuestDeallocateString, &["p", "n"]).unwrap();
    assert_eq!(body(&f), "if ((n) > 0) { free((void*) (p)); }");

    let mut f = plain();
    block(&mut f, &mut gen, None, &[]);
    block(&mut f, &mut gen, Some(("0", "x")), &[]);
    emit(&mut f, &mut gen, Instruction::GuestDeallocateVariant { blocks: 2 }, &["tag"]).unwrap();
    assert_eq!(
        body(&f),
        "switch ((int32_t) tag) { case 0: { break; } case 1: { x = 0; break; } }"
    );

    let mut f = plain();
    block(&mut f, &mut gen, Some(("0", "*base")), &[]);
    emit(&mut f, &mut gen, Instruction::GuestDeallocateList { element_size: 12 }, &["p", "n"])
        .unwrap();
    assert_eq!(
        body(&f),
        "int32_t ptr = p; int32_t len = n; for (int32_t i = 0; i < len; i++) { \
         int32_t base = ptr + i * 12; (void) base; *base = 0; } \
         if (len > 0) { free((void*) (ptr)); }"
    );
    // A block that yields an operand does not fit.
    let mut f = plain();
    block(&mut f, &mut gen, None, &["x"]);
    let r =
        emit(&mut f, &mut gen, Instruction::GuestDeallocateList { element_size: 1 }, &["p", "n"]);
    assert!(matches!(r, Err(Error::Malformed)));
}

#[test]
fn blocks_nest() {
    let mut f = plain();
    f.store_op("1", "a");
    f.push_block();
    f.store_op("2", "b");
    f.push_block();
    f.store_op("3", "c");
    let mut inner = strings(&["x"]);
    f.finish_block(&mut inner).unwrap();
    assert!(inner.is_empty());
    assert_eq!(body(&f), "b = 2;");
    f.finish_block(&mut vec![]).unwrap();
    assert_eq!(body(&f), "a = 1;");
    assert_eq!(f.blocks.len(), 2);
    assert_eq!(squash(&f.blocks[0].0), "c = 3;");
    assert_eq!(f.blocks[0].1, ["x"]);
    assert_eq!(squash(&f.blocks[1].0), "b = 2;");
    // No block is open any more.
    assert!(matches!(f.finish_block(&mut vec![]), Err(Error::Malformed)));
}

#[test]
fn the_return_area_of_an_import_lies_on_the_stack() {
    let mut gen = import_gen();
    let mut f = plain();
    let ptr = f.return_pointer(&mut gen, 8, 4);
    assert_eq!(ptr, "ptr");
    assert_eq!(
        body(&f),
        "__attribute__((aligned(4))) uint8_t ret_area[8]; int32_t ptr = (int32_t) &ret_area;"
    );
    assert_eq!(gen.return_pointer_area_size, 8);
    assert_eq!(gen.return_pointer_area_align, 4);
}

#[test]
fn the_return_area_of_an_export_is_static_and_grows() {
    let mut gen = C::new();
    gen.preprocess_one(&iface(), Direction::Export);
    let mut f = plain();
    assert_eq!(f.return_pointer(&mut gen, 8, 4), "ptr");
    assert_eq!(f.return_pointer(&mut gen, 16, 2), "ptr0");
    assert_eq!(f.return_pointer(&mut gen, 4, 8), "ptr1");
    assert_eq!(
        body(&f),
        "int32_t ptr = (int32_t) &RET_AREA; int32_t ptr0 = (int32_t) &RET_AREA; \
         int32_t ptr1 = (int32_t) &RET_AREA;"
    );
    assert_eq!(gen.return_pointer_area_size, 16);
    assert_eq!(gen.return_pointer_area_align, 8);
}
