use rspirv::dr::Operand;
use rspirv::spirv::Op;
use spirv_abi::check::{check_type, try_trans_type, try_trans_type_immediate, TransError};
use spirv_abi::codegen_cx::CodegenCx;
use spirv_abi::layout::{
    Abi, FieldDef, FieldsShape, Primitive, Scalar, TyAndLayout, TyKind, Unsupported, VariantDef,
    Variants,
};
use spirv_abi::plan::type_fits;
use spirv_abi::spirv_type::SpirvType;
use spirv_abi::storage::StorageClass;
use spirv_abi::trans::{trans_type, trans_type_immediate};

fn layout(name: &str, kind: TyKind, abi: Abi) -> TyAndLayout {
    TyAndLayout {
        name: name.to_string(),
        is_zst: false,
        size: 4,
        kind,
        abi,
        fields: FieldsShape::Primitive,
        field_layouts: vec![],
        variants: Variants::Single { index: 0 },
    }
}

fn int_scalar(width: u32, signedness: bool) -> Scalar {
    Scalar {
        value: Primitive::Int(width, signedness),
        is_bool: false,
    }
}

fn scalar(value: Primitive) -> TyAndLayout {
    layout(
        "scalar",
        TyKind::Other,
        Abi::Scalar(Scalar { value, is_bool: false }),
    )
}

fn u32_layout() -> TyAndLayout {
    scalar(Primitive::Int(32, false))
}

fn bool_scalar() -> Scalar {
    Scalar {
        value: Primitive::Int(8, false),
        is_bool: true,
    }
}

fn bool_layout() -> TyAndLayout {
    layout("bool", TyKind::Other, Abi::Scalar(bool_scalar()))
}

fn pointer_scalar() -> Scalar {
    Scalar {
        value: Primitive::Pointer,
        is_bool: false,
    }
}

fn plain_adt() -> TyKind {
    TyKind::Adt {
        boxed: None,
        variants: vec![],
    }
}

fn reference(pointee: TyAndLayout) -> TyAndLayout {
    layout(
        "&T",
        TyKind::Ref { pointee: Box::new(pointee) },
        Abi::Scalar(pointer_scalar()),
    )
}

fn raw_pointer(pointee: TyAndLayout) -> TyAndLayout {
    layout(
        "*const T",
        TyKind::RawPtr { pointee: Box::new(pointee) },
        Abi::Scalar(pointer_scalar()),
    )
}

fn array(element: TyAndLayout, count: u64) -> TyAndLayout {
    let mut ty = layout("[T; N]", TyKind::Other, Abi::Aggregate);
    ty.fields = FieldsShape::Array { count };
    ty.field_layouts = vec![element];
    ty
}

fn zero_sized() -> TyAndLayout {
    let mut ty = layout("()", TyKind::Other, Abi::Uninhabited);
    ty.is_zst = true;
    ty
}

fn structure(
    name: &str,
    fields: Vec<(&str, TyAndLayout)>,
    offsets: Vec<u64>,
    by_increasing_offset: Vec<usize>,
) -> TyAndLayout {
    let fields = fields
        .into_iter()
        .map(|(name, layout)| FieldDef { name: name.to_string(), layout })
        .collect();
    let mut ty = layout(
        "path::S",
        TyKind::Adt {
            boxed: None,
            variants: vec![VariantDef { name: name.to_string(), fields }],
        },
        Abi::Aggregate,
    );
    ty.fields = FieldsShape::Arbitrary { offsets, by_increasing_offset };
    ty
}

fn translated(ty: &TyAndLayout) -> (CodegenCx, SpirvType) {
    let mut cx = CodegenCx::new(64);
    assert!(check_type(ty, false).is_ok());
    let id = trans_type(&mut cx, ty);
    let ty = cx.lookup_type(id);
    (cx, ty)
}

fn shown(ty: &TyAndLayout) -> String {
    let (cx, ty) = translated(ty);
    ty.debug(&cx).to_string()
}

fn shown_immediate(ty: &TyAndLayout) -> String {
    let mut cx = CodegenCx::new(64);
    assert!(check_type(ty, true).is_ok());
    let id = trans_type_immediate(&mut cx, ty);
    cx.debug_type(id).to_string()
}

fn refused(ty: &TyAndLayout) -> Unsupported {
    let mut cx = CodegenCx::new(64);
    let error = check_type(ty, false).unwrap_err();
    assert_eq!(check_type(ty, true).unwrap_err(), error);
    assert_eq!(
        try_trans_type(&mut cx, ty),
        Err(TransError::Unsupported(error))
    );
    assert_eq!(
        try_trans_type_immediate(&mut cx, ty),
        Err(TransError::Unsupported(error))
    );
    assert_eq!(cx.next_id(), 1);
    error
}

#[test]
fn scalars_by_value() {
    assert_eq!(shown(&scalar(Primitive::Int(8, true))), "i8");
    assert_eq!(shown(&u32_layout()), "u32");
    assert_eq!(shown(&scalar(Primitive::F32)), "f32");
    assert_eq!(shown(&scalar(Primitive::F64)), "f64");
}

#[test]
fn bools_are_bytes_in_memory() {
    assert_eq!(shown(&bool_layout()), "u8");
    assert_eq!(shown_immediate(&bool_layout()), "bool");
    assert_eq!(shown_immediate(&u32_layout()), "u32");
}

#[test]
fn bools_below_the_surface_are_bytes() {
    assert_eq!(shown_immediate(&reference(bool_layout())), "*{Generic} u8");
    assert_eq!(shown_immediate(&array(bool_layout(), 2)), "[u8; 2]");
    let ty = structure("S", vec![("a", bool_layout())], vec![0], vec![0]);
    assert_eq!(shown_immediate(&ty), "struct S { a: u8 }");
    let pair = layout("P", plain_adt(), Abi::ScalarPair(bool_scalar(), int_scalar(32, false)));
    assert_eq!(shown_immediate(&pair), "struct P { bool, u32 }");
    assert_eq!(shown(&pair), "struct P { u8, u32 }");
}

#[test]
fn zero_sized_types_are_empty_structs() {
    let (cx, ty) = translated(&zero_sized());
    assert!(
        ty == SpirvType::Adt {
            name: None,
            field_types: vec![],
            field_offsets: None,
            field_names: None,
        }
    );
    assert_eq!(ty.sizeof_in_bits(&cx), 0);
    assert_eq!(shown_immediate(&zero_sized()), "struct {  }");
}

#[test]
fn pointers_keep_what_they_point_to() {
    assert_eq!(shown(&reference(u32_layout())), "*{Generic} u32");
    assert_eq!(shown(&raw_pointer(scalar(Primitive::F32))), "*{Generic} f32");
    assert_eq!(
        shown(&reference(raw_pointer(u32_layout()))),
        "*{Generic} *{Generic} u32"
    );
}

#[test]
fn pointers_of_other_kinds_point_to_bytes() {
    let ty = layout("NonNull<T>", plain_adt(), Abi::Scalar(pointer_scalar()));
    assert_eq!(shown(&ty), "*{Generic} u8");
}

#[test]
fn boxes_are_pointers() {
    let ty = layout(
        "Box<T>",
        TyKind::Adt {
            boxed: Some(Box::new(raw_pointer(u32_layout()))),
            variants: vec![],
        },
        Abi::Scalar(pointer_scalar()),
    );
    assert_eq!(shown(&ty), shown(&raw_pointer(u32_layout())));
    let usize_scalar = int_scalar(64, false);
    let mut wide = layout(
        "*mut [T]",
        TyKind::RawPtr { pointee: Box::new(array(u32_layout(), 0)) },
        Abi::ScalarPair(pointer_scalar(), usize_scalar),
    );
    wide.field_layouts = vec![raw_pointer(u32_layout()), scalar(Primitive::Int(64, false))];
    assert_eq!(shown(&wide), "struct *mut [T] { *{Generic} u32, u64 }");
    let boxed = layout(
        "Box<[T]>",
        TyKind::Adt { boxed: Some(Box::new(wide)), variants: vec![] },
        Abi::ScalarPair(pointer_scalar(), usize_scalar),
    );
    assert_eq!(shown(&boxed), "struct Box<[T]> { *{Generic} u32, u64 }");
}

#[test]
fn pairs_of_other_kinds() {
    let ty = layout(
        "Option<u32>",
        plain_adt(),
        Abi::ScalarPair(int_scalar(32, false), pointer_scalar()),
    );
    assert_eq!(shown(&ty), "struct Option<u32> { u32, *{Generic} u8 }");
}

#[test]
fn vectors_have_a_literal_count() {
    let ty = layout(
        "f32x4",
        plain_adt(),
        Abi::Vector {
            element: Scalar { value: Primitive::F32, is_bool: false },
            count: 4,
        },
    );
    let (cx, ty) = translated(&ty);
    assert!(ty == SpirvType::Vector { element: 1, count: 4 });
    assert!(cx.lookup_type(1) == SpirvType::Float(32));
    let module = cx.into_builder().module();
    assert_eq!(module.types_global_values[1].class.opcode, Op::TypeVector);
    assert_eq!(
        module.types_global_values[1].operands,
        vec![Operand::IdRef(1), Operand::LiteralInt32(4)]
    );
}

#[test]
fn vector_counts_are_cut_off() {
    let ty = layout(
        "wide",
        plain_adt(),
        Abi::Vector { element: int_scalar(8, false), count: 0x1_0000_0003 },
    );
    let (_cx, ty) = translated(&ty);
    assert!(ty == SpirvType::Vector { element: 1, count: 3 });
}

#[test]
fn arrays() {
    assert_eq!(shown(&array(u32_layout(), 3)), "[u32; 3]");
    assert_eq!(shown(&array(array(u32_layout(), 3), 2)), "[[u32; 3]; 2]");
    assert_eq!(shown_immediate(&array(u32_layout(), 3)), "[u32; 3]");
}

#[test]
fn empty_arrays_get_length_one() {
    assert_eq!(shown(&array(u32_layout(), 0)), "[u32; 1]");
    assert_eq!(shown(&array(u32_layout(), 1)), "[u32; 1]");
}

#[test]
fn array_counts_are_cut_off() {
    assert_eq!(shown(&array(u32_layout(), 0xffff_ffff)), "[u32; 4294967295]");
    assert_eq!(shown(&array(u32_layout(), 0x1_0000_0002)), "[u32; 2]");
    assert_eq!(shown(&array(u32_layout(), 0x1_0000_0000)), "[u32; 0]");
}

#[test]
fn unions_are_arrays_of_bytes() {
    let mut ty = layout("U", plain_adt(), Abi::Aggregate);
    ty.fields = FieldsShape::Union;
    ty.size = 12;
    assert_eq!(shown(&ty), "[u8; 12]");
}

#[test]
fn structs_in_the_order_of_offsets() {
    let ty = structure(
        "S",
        vec![
            ("small", scalar(Primitive::Int(8, false))),
            ("large", scalar(Primitive::Int(64, false))),
            ("middle", u32_layout()),
        ],
        vec![12, 0, 8],
        vec![1, 2, 0],
    );
    let (cx, ty) = translated(&ty);
    assert_eq!(
        ty.clone().debug(&cx).to_string(),
        "struct S { large: u64, middle: u32, small: u8 }"
    );
    match ty {
        SpirvType::Adt { name, field_offsets, field_names, .. } => {
            assert_eq!(name, Some("S".to_string()));
            assert_eq!(field_offsets, Some(vec![0, 8, 12]));
            assert_eq!(
                field_names,
                Some(vec![
                    "large".to_string(),
                    "middle".to_string(),
                    "small".to_string()
                ])
            );
        }
        _ => panic!("no struct"),
    }
}

#[test]
fn the_variant_of_the_layout_is_taken() {
    let mut ty = layout(
        "E",
        TyKind::Adt {
            boxed: None,
            variants: vec![
                VariantDef { name: "A".to_string(), fields: vec![] },
                VariantDef {
                    name: "B".to_string(),
                    fields: vec![FieldDef { name: "0".to_string(), layout: u32_layout() }],
                },
            ],
        },
        Abi::Aggregate,
    );
    ty.fields = FieldsShape::Arbitrary {
        offsets: vec![0],
        by_increasing_offset: vec![0],
    };
    ty.variants = Variants::Single { index: 1 };
    assert_eq!(shown(&ty), "struct B { 0: u32 }");
}

#[test]
fn foreign_types_are_void() {
    let mut ty = layout("Opaque", TyKind::Foreign, Abi::Aggregate);
    ty.fields = FieldsShape::Arbitrary {
        offsets: vec![],
        by_increasing_offset: vec![],
    };
    assert_eq!(shown(&ty), "void");
    assert_eq!(shown(&reference(ty)), "*{Generic} void");
}

#[test]
fn same_type_same_id() {
    let mut cx = CodegenCx::new(64);
    let ty = structure(
        "S",
        vec![("a", u32_layout()), ("b", reference(u32_layout()))],
        vec![0, 8],
        vec![0, 1],
    );
    let first = trans_type(&mut cx, &ty);
    let next = cx.next_id();
    SpirvType::Bool.def(&mut cx);
    assert_eq!(trans_type(&mut cx, &ty), first);
    assert_eq!(cx.next_id(), next + 1);
}

#[test]
fn arrays_are_new_each_time() {
    let mut cx = CodegenCx::new(64);
    let ty = array(u32_layout(), 3);
    let first = trans_type(&mut cx, &ty);
    let second = trans_type(&mut cx, &ty);
    assert_ne!(first, second);
    assert_eq!(
        cx.debug_type(first).to_string(),
        cx.debug_type(second).to_string()
    );
}

#[test]
fn what_is_there_is_kept() {
    let mut cx = CodegenCx::new(64);
    let pointer = trans_type(&mut cx, &reference(u32_layout()));
    let expected = SpirvType::Pointer {
        storage_class: StorageClass::Generic,
        pointee: 1,
    };
    assert!(cx.lookup_type(pointer) == expected);
    trans_type(&mut cx, &array(reference(u32_layout()), 3));
    assert!(cx.lookup_type(pointer) == expected);
    assert!(cx.lookup_type(1) == SpirvType::Integer(32, false));
}

#[test]
fn uninhabited_types_are_refused() {
    let ty = layout("!", TyKind::Other, Abi::Uninhabited);
    assert_eq!(refused(&ty), Unsupported::Uninhabited);
    assert_eq!(refused(&reference(ty)), Unsupported::Uninhabited);
}

#[test]
fn pointers_of_unknown_kinds_are_refused() {
    let ty = layout("fn()", TyKind::Other, Abi::Scalar(pointer_scalar()));
    assert_eq!(refused(&ty), Unsupported::PointerKind);
    let pair = layout("(u32, u32)", TyKind::Other, Abi::ScalarPair(int_scalar(32, false), int_scalar(32, false)));
    assert_eq!(refused(&pair), Unsupported::PointerKind);
}

#[test]
fn aggregates_without_fields_are_refused() {
    let ty = layout("P", plain_adt(), Abi::Aggregate);
    assert_eq!(refused(&ty), Unsupported::PrimitiveFields);
}

#[test]
fn empty_unions_are_refused() {
    let mut ty = layout("U", plain_adt(), Abi::Aggregate);
    ty.fields = FieldsShape::Union;
    ty.size = 0;
    assert_eq!(refused(&ty), Unsupported::EmptyUnion);
}

#[test]
fn structs_of_unknown_kinds_are_refused() {
    let mut ty = structure("S", vec![], vec![], vec![]);
    ty.kind = TyKind::Other;
    assert_eq!(refused(&ty), Unsupported::StructKind);
}

#[test]
fn several_variants_are_refused() {
    let mut ty = structure("S", vec![], vec![], vec![]);
    ty.variants = Variants::Multiple;
    assert_eq!(refused(&ty), Unsupported::MultipleVariants);
}

#[test]
fn what_is_missing_is_refused() {
    let mut ty = structure("S", vec![], vec![], vec![]);
    ty.variants = Variants::Single { index: 1 };
    assert_eq!(refused(&ty), Unsupported::Missing);
    let ty = structure("S", vec![("a", u32_layout())], vec![0], vec![1]);
    assert_eq!(refused(&ty), Unsupported::Missing);
    let ty = structure("S", vec![("a", u32_layout())], vec![], vec![0]);
    assert_eq!(refused(&ty), Unsupported::Missing);
    let mut ty = array(u32_layout(), 3);
    ty.field_layouts = vec![];
    assert_eq!(refused(&ty), Unsupported::Missing);
    let ty = layout(
        "&[T]",
        TyKind::Ref { pointee: Box::new(u32_layout()) },
        Abi::ScalarPair(pointer_scalar(), int_scalar(64, false)),
    );
    assert_eq!(refused(&ty), Unsupported::Missing);
}

#[test]
fn the_first_field_that_is_refused_counts() {
    let ty = structure(
        "S",
        vec![
            ("a", layout("!", TyKind::Other, Abi::Uninhabited)),
            ("b", layout("fn()", TyKind::Other, Abi::Scalar(pointer_scalar()))),
        ],
        vec![8, 0],
        vec![1, 0],
    );
    assert_eq!(refused(&ty), Unsupported::PointerKind);
}

fn lowered(ty: &TyAndLayout, is_immediate: bool) -> String {
    format!("{:?}", check_type(ty, is_immediate).unwrap())
}

#[test]
fn checking_gives_the_type() {
    assert_eq!(lowered(&u32_layout(), false), "Integer(32, false)");
    assert_eq!(lowered(&bool_layout(), true), "Bool");
    assert_eq!(
        lowered(&zero_sized(), false),
        "Adt { name: None, fields: [], field_offsets: None, field_names: None }"
    );
    assert_eq!(
        lowered(&reference(u32_layout()), true),
        "Pointer { storage_class: Generic, pointee: Integer(32, false) }"
    );
    assert_eq!(
        lowered(&array(scalar(Primitive::F32), 0), false),
        "Array { element: Float(32), count: 1 }"
    );
    let ty = structure(
        "S",
        vec![("a", u32_layout()), ("b", scalar(Primitive::F64))],
        vec![8, 0],
        vec![1, 0],
    );
    assert_eq!(
        lowered(&ty, false),
        "Adt { name: Some(\"S\"), fields: [Float(64), Integer(32, false)], \
         field_offsets: Some([0, 8]), field_names: Some([\"b\", \"a\"]) }"
    );
    let pair = layout(
        "P",
        plain_adt(),
        Abi::ScalarPair(bool_scalar(), int_scalar(32, true)),
    );
    assert_eq!(
        lowered(&pair, true),
        "Adt { name: Some(\"P\"), fields: [Bool, Integer(32, true)], \
         field_offsets: None, field_names: None }"
    );
    let vector = layout(
        "V",
        plain_adt(),
        Abi::Vector { element: int_scalar(8, false), count: 0x1_0000_0003 },
    );
    assert_eq!(
        lowered(&vector, false),
        "Vector { element: Integer(8, false), count: 3 }"
    );
}

#[test]
fn there_are_ids_enough() {
    let mut cx = CodegenCx::new(64);
    let ty = structure(
        "S",
        vec![("a", array(u32_layout(), 2)), ("b", reference(u32_layout()))],
        vec![0, 8],
        vec![0, 1],
    );
    let types = check_type(&ty, false).unwrap();
    assert!(type_fits(&cx, &types));
    assert_eq!(cx.next_id(), 1);
    trans_type(&mut cx, &ty);
    assert!(type_fits(&cx, &types));
}

#[test]
fn trying_gives_what_translating_gives() {
    let ty = structure(
        "S",
        vec![("flag", bool_layout()), ("rest", array(u32_layout(), 2))],
        vec![8, 0],
        vec![1, 0],
    );
    let mut one = CodegenCx::new(64);
    let mut two = CodegenCx::new(64);
    assert_eq!(try_trans_type(&mut one, &ty), Ok(trans_type(&mut two, &ty)));
    assert_eq!(
        try_trans_type_immediate(&mut one, &bool_layout()),
        Ok(trans_type_immediate(&mut two, &bool_layout()))
    );
    assert_eq!(
        one.into_builder().module().types_global_values,
        two.into_builder().module().types_global_values
    );
}
