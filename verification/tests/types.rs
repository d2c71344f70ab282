use rspirv::dr::{Instruction, Module, Operand};
use rspirv::spirv::{Decoration, Op, StorageClass as Class};
use spirv_abi::codegen_cx::CodegenCx;
use spirv_abi::spirv_type::SpirvType;
use spirv_abi::storage::StorageClass;

fn module(cx: CodegenCx) -> Module {
    cx.into_builder().module()
}

fn global(op: Op, result_type: Option<u32>, id: u32, operands: Vec<Operand>) -> Instruction {
    Instruction::new(op, result_type, Some(id), operands)
}

fn note(op: Op, operands: Vec<Operand>) -> Instruction {
    Instruction::new(op, None, None, operands)
}

fn adt(name: Option<&str>, field_types: Vec<u32>) -> SpirvType {
    SpirvType::Adt {
        name: name.map(|name| name.to_string()),
        field_types,
        field_offsets: None,
        field_names: None,
    }
}

#[test]
fn new_context_is_empty() {
    let cx = CodegenCx::new(64);
    assert_eq!(cx.next_id(), 1);
    assert_eq!(cx.pointer_bits(), 64);
    assert!(!cx.is_type(1));
    assert_eq!(cx.lookup_const_u64(1), None);
    let module = module(cx);
    assert!(module.types_global_values.is_empty());
    assert!(module.debug_names.is_empty());
    assert!(module.annotations.is_empty());
    assert!(module.functions.is_empty());
}

#[test]
fn def_emits_each_kind_of_type() {
    let mut cx = CodegenCx::new(64);
    assert_eq!(SpirvType::Void.def(&mut cx), 1);
    assert_eq!(SpirvType::Bool.def(&mut cx), 2);
    assert_eq!(SpirvType::Integer(32, true).def(&mut cx), 3);
    assert_eq!(SpirvType::Integer(8, false).def(&mut cx), 4);
    assert_eq!(SpirvType::Float(64).def(&mut cx), 5);
    assert_eq!(SpirvType::Vector { element: 5, count: 3 }.def(&mut cx), 6);
    assert_eq!(cx.emit_constant_u32(4, 9), 7);
    assert_eq!(SpirvType::Array { element: 3, count: 7 }.def(&mut cx), 8);
    let pointer = SpirvType::Pointer { storage_class: StorageClass::Input, pointee: 8 };
    assert_eq!(pointer.def(&mut cx), 9);
    let function = SpirvType::Function { return_type: 1, arguments: vec![9, 3, 9] };
    assert_eq!(function.def(&mut cx), 10);
    assert_eq!(adt(None, vec![3, 5]).def(&mut cx), 11);
    assert_eq!(cx.next_id(), 12);
    assert_eq!(
        module(cx).types_global_values,
        vec![
            global(Op::TypeVoid, None, 1, vec![]),
            global(Op::TypeBool, None, 2, vec![]),
            global(
                Op::TypeInt,
                None,
                3,
                vec![Operand::LiteralInt32(32), Operand::LiteralInt32(1)]
            ),
            global(
                Op::TypeInt,
                None,
                4,
                vec![Operand::LiteralInt32(8), Operand::LiteralInt32(0)]
            ),
            global(Op::TypeFloat, None, 5, vec![Operand::LiteralInt32(64)]),
            global(
                Op::TypeVector,
                None,
                6,
                vec![Operand::IdRef(5), Operand::LiteralInt32(3)]
            ),
            global(Op::Constant, Some(4), 7, vec![Operand::LiteralInt32(9)]),
            global(
                Op::TypeArray,
                None,
                8,
                vec![Operand::IdRef(3), Operand::IdRef(7)]
            ),
            global(
                Op::TypePointer,
                None,
                9,
                vec![Operand::StorageClass(Class::Input), Operand::IdRef(8)]
            ),
            global(
                Op::TypeFunction,
                None,
                10,
                vec![
                    Operand::IdRef(1),
                    Operand::IdRef(9),
                    Operand::IdRef(3),
                    Operand::IdRef(9)
                ]
            ),
            global(
                Op::TypeStruct,
                None,
                11,
                vec![Operand::IdRef(3), Operand::IdRef(5)]
            ),
        ]
    );
}

#[test]
fn def_twice_gives_the_same_id() {
    let mut cx = CodegenCx::new(64);
    let byte = SpirvType::Integer(8, false).def(&mut cx);
    let types = vec![
        SpirvType::Void,
        SpirvType::Bool,
        SpirvType::Integer(8, false),
        SpirvType::Float(32),
        adt(Some("S"), vec![byte]),
        SpirvType::Vector { element: byte, count: 4 },
        SpirvType::Array { element: byte, count: 4 },
        SpirvType::Pointer { storage_class: StorageClass::Generic, pointee: byte },
        SpirvType::Function { return_type: byte, arguments: vec![byte] },
    ];
    let mut first = vec![];
    for ty in &types {
        first.push(ty.def(&mut cx));
    }
    let next = cx.next_id();
    let mut second = vec![];
    for ty in &types {
        second.push(ty.def(&mut cx));
    }
    assert_eq!(first, second);
    assert_eq!(cx.next_id(), next);
    assert_eq!(module(cx).types_global_values.len(), 9);
}

#[test]
fn lookup_gives_back_what_was_defined() {
    let mut cx = CodegenCx::new(64);
    let int = SpirvType::Integer(16, true);
    let id = int.def(&mut cx);
    let named = SpirvType::Adt {
        name: Some("Pair".to_string()),
        field_types: vec![id, id],
        field_offsets: Some(vec![0, 2]),
        field_names: Some(vec!["a".to_string(), "b".to_string()]),
    };
    let other = named.def(&mut cx);
    SpirvType::Bool.def(&mut cx);
    assert!(cx.is_type(id));
    assert!(cx.is_type(other));
    assert!(!cx.is_type(99));
    assert!(cx.lookup_type(id) == int);
    assert!(cx.lookup_type(other) == named);
    assert!(cx.lookup_type(other) == cx.lookup_type(other).clone());
    assert!(cx.lookup_type(id) != named);
}

#[test]
fn different_types_get_different_ids() {
    let mut cx = CodegenCx::new(64);
    let byte = SpirvType::Integer(8, false).def(&mut cx);
    assert_ne!(SpirvType::Integer(8, true).def(&mut cx), byte);
    assert_ne!(SpirvType::Integer(16, false).def(&mut cx), byte);
    assert_ne!(SpirvType::Float(8).def(&mut cx), byte);
    let vector = SpirvType::Vector { element: byte, count: byte }.def(&mut cx);
    let array = SpirvType::Array { element: byte, count: byte }.def(&mut cx);
    assert_ne!(vector, array);
}

#[test]
fn structs_with_the_same_fields_are_told_apart() {
    let mut cx = CodegenCx::new(64);
    let float = SpirvType::Float(32).def(&mut cx);
    let plain = adt(None, vec![float, float]).def(&mut cx);
    let named = adt(Some("V"), vec![float, float]).def(&mut cx);
    let placed = SpirvType::Adt {
        name: Some("V".to_string()),
        field_types: vec![float, float],
        field_offsets: Some(vec![0, 16]),
        field_names: None,
    };
    let elsewhere = SpirvType::Adt {
        name: Some("V".to_string()),
        field_types: vec![float, float],
        field_offsets: Some(vec![0, 4]),
        field_names: None,
    };
    let placed = placed.def(&mut cx);
    let elsewhere = elsewhere.def(&mut cx);
    let ids = [plain, named, placed, elsewhere];
    for i in 0..4 {
        for j in 0..i {
            assert_ne!(ids[i], ids[j]);
        }
    }
    let module = module(cx);
    let structs = module
        .types_global_values
        .iter()
        .filter(|inst| inst.class.opcode == Op::TypeStruct)
        .count();
    assert_eq!(structs, 4);
}

#[test]
fn structs_carry_names_and_offsets() {
    let mut cx = CodegenCx::new(64);
    let int = SpirvType::Integer(32, false).def(&mut cx);
    let ty = SpirvType::Adt {
        name: Some("Point".to_string()),
        field_types: vec![int, int],
        field_offsets: Some(vec![0, 4]),
        field_names: Some(vec!["x".to_string(), "y".to_string()]),
    };
    let id = ty.def(&mut cx);
    ty.def(&mut cx);
    let module = module(cx);
    assert_eq!(
        module.debug_names,
        vec![
            note(
                Op::Name,
                vec![Operand::IdRef(id), Operand::LiteralString("Point".to_string())]
            ),
            note(
                Op::MemberName,
                vec![
                    Operand::IdRef(id),
                    Operand::LiteralInt32(0),
                    Operand::LiteralString("x".to_string())
                ]
            ),
            note(
                Op::MemberName,
                vec![
                    Operand::IdRef(id),
                    Operand::LiteralInt32(1),
                    Operand::LiteralString("y".to_string())
                ]
            ),
        ]
    );
    assert_eq!(
        module.annotations,
        vec![
            note(
                Op::MemberDecorate,
                vec![
                    Operand::IdRef(id),
                    Operand::LiteralInt32(0),
                    Operand::Decoration(Decoration::Offset),
                    Operand::LiteralInt32(0)
                ]
            ),
            note(
                Op::MemberDecorate,
                vec![
                    Operand::IdRef(id),
                    Operand::LiteralInt32(1),
                    Operand::Decoration(Decoration::Offset),
                    Operand::LiteralInt32(4)
                ]
            ),
        ]
    );
}

#[test]
fn anonymous_struct_has_no_names() {
    let mut cx = CodegenCx::new(64);
    adt(None, vec![]).def(&mut cx);
    let module = module(cx);
    assert!(module.debug_names.is_empty());
    assert!(module.annotations.is_empty());
    assert_eq!(
        module.types_global_values,
        vec![global(Op::TypeStruct, None, 1, vec![])]
    );
}

#[test]
fn storage_classes_go_over_by_name() {
    let classes = vec![
        (StorageClass::UniformConstant, Class::UniformConstant),
        (StorageClass::Input, Class::Input),
        (StorageClass::Uniform, Class::Uniform),
        (StorageClass::Output, Class::Output),
        (StorageClass::Workgroup, Class::Workgroup),
        (StorageClass::CrossWorkgroup, Class::CrossWorkgroup),
        (StorageClass::Private, Class::Private),
        (StorageClass::Function, Class::Function),
        (StorageClass::Generic, Class::Generic),
        (StorageClass::PushConstant, Class::PushConstant),
        (StorageClass::AtomicCounter, Class::AtomicCounter),
        (StorageClass::Image, Class::Image),
        (StorageClass::StorageBuffer, Class::StorageBuffer),
        (StorageClass::CallableDataNV, Class::CallableDataNV),
        (
            StorageClass::IncomingCallableDataNV,
            Class::IncomingCallableDataNV,
        ),
        (StorageClass::RayPayloadNV, Class::RayPayloadNV),
        (StorageClass::HitAttributeNV, Class::HitAttributeNV),
        (
            StorageClass::IncomingRayPayloadNV,
            Class::IncomingRayPayloadNV,
        ),
        (
            StorageClass::ShaderRecordBufferNV,
            Class::ShaderRecordBufferNV,
        ),
        (
            StorageClass::PhysicalStorageBuffer,
            Class::PhysicalStorageBuffer,
        ),
        (StorageClass::CodeSectionINTEL, Class::CodeSectionINTEL),
    ];
    let mut cx = CodegenCx::new(64);
    let byte = SpirvType::Integer(8, false).def(&mut cx);
    let mut ids = vec![];
    for (class, outside) in &classes {
        assert_eq!(class.name(), format!("{:?}", outside));
        let ty = SpirvType::Pointer { storage_class: *class, pointee: byte };
        ids.push(ty.def(&mut cx));
    }
    let module = module(cx);
    assert_eq!(module.types_global_values.len(), 22);
    for i in 0..classes.len() {
        assert_eq!(
            module.types_global_values[i + 1],
            global(
                Op::TypePointer,
                None,
                ids[i],
                vec![Operand::StorageClass(classes[i].1), Operand::IdRef(byte)]
            )
        );
    }
}

#[test]
fn storage_classes_are_ordered_as_outside() {
    assert!(StorageClass::UniformConstant < StorageClass::Input);
    assert!(StorageClass::Generic < StorageClass::CodeSectionINTEL);
    assert!(SpirvType::Void < SpirvType::Bool);
    assert!(SpirvType::Integer(8, false) < SpirvType::Integer(8, true));
}

#[test]
fn constants_are_known() {
    let mut cx = CodegenCx::new(64);
    let ty = SpirvType::Integer(64, false).def(&mut cx);
    let narrow = cx.emit_constant_u32(ty, 7);
    let wide = cx.emit_constant_u64(ty, u64::MAX);
    let word = cx.constant_u32(12);
    assert_eq!(cx.lookup_const_u64(narrow), Some(7));
    assert_eq!(cx.lookup_const_u64(wide), Some(u64::MAX));
    assert_eq!(cx.lookup_const_u64(word.def), Some(12));
    assert!(cx.lookup_type(word.ty) == SpirvType::Integer(32, false));
    assert_eq!(cx.lookup_const_u64(ty), None);
    assert_eq!(
        module(cx).types_global_values,
        vec![
            global(
                Op::TypeInt,
                None,
                1,
                vec![Operand::LiteralInt32(64), Operand::LiteralInt32(0)]
            ),
            global(Op::Constant, Some(1), 2, vec![Operand::LiteralInt32(7)]),
            global(Op::Constant, Some(1), 3, vec![Operand::LiteralInt64(u64::MAX)]),
            global(
                Op::TypeInt,
                None,
                4,
                vec![Operand::LiteralInt32(32), Operand::LiteralInt32(0)]
            ),
            global(Op::Constant, Some(4), 5, vec![Operand::LiteralInt32(12)]),
        ]
    );
}

#[test]
fn other_constants_have_no_known_value() {
    let mut cx = CodegenCx::new(64);
    let float = SpirvType::Float(32).def(&mut cx);
    let double = SpirvType::Float(64).def(&mut cx);
    let one = cx.emit_constant_float32(float, 1f32.to_bits());
    let two = cx.emit_constant_float64(double, 2f64.to_bits());
    let both = cx.emit_constant_composite(float, vec![one, two]);
    assert_eq!(cx.lookup_const_u64(one), None);
    assert_eq!(cx.lookup_const_u64(two), None);
    assert_eq!(cx.lookup_const_u64(both), None);
    let module = module(cx);
    assert_eq!(
        module.types_global_values[2],
        global(Op::Constant, Some(float), one, vec![Operand::LiteralFloat32(1.0)])
    );
    assert_eq!(
        module.types_global_values[3],
        global(Op::Constant, Some(double), two, vec![Operand::LiteralFloat64(2.0)])
    );
    assert_eq!(
        module.types_global_values[4],
        global(
            Op::ConstantComposite,
            Some(float),
            both,
            vec![Operand::IdRef(one), Operand::IdRef(two)]
        )
    );
}

#[test]
fn ids_are_unique() {
    let mut cx = CodegenCx::new(32);
    let byte = SpirvType::Integer(8, false).def(&mut cx);
    let one = cx.constant_u32(1).def;
    let two = cx.constant_u32(1).def;
    assert_ne!(one, two);
    SpirvType::Array { element: byte, count: one }.def(&mut cx);
    SpirvType::Array { element: byte, count: two }.def(&mut cx);
    adt(None, vec![byte]).def(&mut cx);
    let module = module(cx);
    let ids: Vec<Option<u32>> = module
        .types_global_values
        .iter()
        .map(|inst| inst.result_id)
        .collect();
    assert_eq!(
        ids,
        vec![Some(1), Some(2), Some(3), Some(4), Some(5), Some(6), Some(7)]
    );
}

#[test]
fn every_type_instruction_is_known() {
    let mut cx = CodegenCx::new(64);
    let byte = SpirvType::Integer(8, false).def(&mut cx);
    let count = cx.constant_u32(4).def;
    let array = SpirvType::Array { element: byte, count }.def(&mut cx);
    adt(Some("S"), vec![array, byte]).def(&mut cx);
    let known: Vec<bool> = (1..cx.next_id()).map(|id| cx.is_type(id)).collect();
    let module = module(cx);
    let emitted: Vec<bool> = module
        .types_global_values
        .iter()
        .map(|inst| inst.class.opcode != Op::Constant)
        .collect();
    assert_eq!(known, vec![true, true, false, true, true]);
    assert_eq!(known, emitted);
}
