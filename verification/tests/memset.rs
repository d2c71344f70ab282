use rspirv::dr::{Instruction, Module, Operand};
use rspirv::spirv::{FunctionControl, Op};
use spirv_abi::builder::BlockBuilder;
use spirv_abi::codegen_cx::CodegenCx;
use spirv_abi::memset::{memset_fill_u16, memset_fill_u32, memset_fill_u64};
use spirv_abi::spirv_type::SpirvType;

fn last_global(module: &Module) -> &Instruction {
    module.types_global_values.last().unwrap()
}

fn block(module: &Module) -> &Vec<Instruction> {
    &module.functions[0].blocks[0].instructions
}

fn inst(op: Op, result_type: u32, id: u32, operands: Vec<Operand>) -> Instruction {
    Instruction::new(op, Some(result_type), Some(id), operands)
}

fn started() -> BlockBuilder {
    let mut cx = CodegenCx::new(64);
    let void = SpirvType::Void.def(&mut cx);
    let function = SpirvType::Function { return_type: void, arguments: vec![] }.def(&mut cx);
    BlockBuilder::begin(cx, void, function)
}

#[test]
fn fill_numbers() {
    assert_eq!(memset_fill_u16(0xab), 0xabab);
    assert_eq!(memset_fill_u32(0xab), 0xabab_abab);
    assert_eq!(memset_fill_u64(0xab), 0xabab_abab_abab_abab);
    assert_eq!(memset_fill_u16(0), 0);
    assert_eq!(memset_fill_u32(1), 0x0101_0101);
    assert_eq!(memset_fill_u64(0xff), u64::MAX);
}

#[test]
fn fill_bytes_are_all_the_same() {
    for b in 0..=255u8 {
        assert_eq!(memset_fill_u16(b).to_le_bytes(), [b; 2]);
        assert_eq!(memset_fill_u32(b).to_le_bytes(), [b; 4]);
        assert_eq!(memset_fill_u64(b).to_le_bytes(), [b; 8]);
    }
}

#[test]
fn constant_integers() {
    let expected = vec![
        (8, Operand::LiteralInt32(0x7e)),
        (16, Operand::LiteralInt32(0x7e7e)),
        (32, Operand::LiteralInt32(0x7e7e_7e7e)),
        (64, Operand::LiteralInt64(0x7e7e_7e7e_7e7e_7e7e)),
    ];
    for signedness in [false, true] {
        for (width, operand) in &expected {
            let mut cx = CodegenCx::new(64);
            let ty = SpirvType::Integer(*width, signedness);
            let id = ty.memset_const_pattern(&mut cx, 0x7e);
            assert_eq!(ty.def(&mut cx), 1);
            assert_eq!(id, 2);
            let module = cx.into_builder().module();
            assert_eq!(
                *last_global(&module),
                inst(Op::Constant, 1, 2, vec![operand.clone()])
            );
        }
    }
}

#[test]
fn constant_integers_are_known_constants() {
    let mut cx = CodegenCx::new(64);
    let id = SpirvType::Integer(64, false).memset_const_pattern(&mut cx, 0xff);
    assert_eq!(cx.lookup_const_u64(id), Some(u64::MAX));
    let id = SpirvType::Integer(8, false).memset_const_pattern(&mut cx, 0xff);
    assert_eq!(cx.lookup_const_u64(id), Some(0xff));
}

#[test]
fn constant_floats() {
    let mut cx = CodegenCx::new(64);
    let id = SpirvType::Float(32).memset_const_pattern(&mut cx, 0x40);
    assert_eq!(id, 2);
    let other = SpirvType::Float(64).memset_const_pattern(&mut cx, 0x40);
    assert_eq!(other, 4);
    let module = cx.into_builder().module();
    assert_eq!(
        module.types_global_values[1],
        inst(
            Op::Constant,
            1,
            2,
            vec![Operand::LiteralFloat32(f32::from_bits(0x4040_4040))]
        )
    );
    assert_eq!(
        module.types_global_values[3],
        inst(
            Op::Constant,
            3,
            4,
            vec![Operand::LiteralFloat64(f64::from_bits(0x4040_4040_4040_4040))]
        )
    );
}

#[test]
fn constant_floats_of_zero_bytes() {
    let mut cx = CodegenCx::new(64);
    SpirvType::Float(32).memset_const_pattern(&mut cx, 0);
    let module = cx.into_builder().module();
    assert_eq!(
        *last_global(&module),
        inst(Op::Constant, 1, 2, vec![Operand::LiteralFloat32(0.0)])
    );
}

#[test]
fn constant_arrays() {
    let mut cx = CodegenCx::new(64);
    let half = SpirvType::Integer(16, false).def(&mut cx);
    let three = cx.constant_u32(3).def;
    let array = SpirvType::Array { element: half, count: three };
    let id = array.memset_const_pattern(&mut cx, 5);
    let ty = array.def(&mut cx);
    let element = id - 2;
    assert_eq!(ty, id - 1);
    assert_eq!(cx.lookup_const_u64(element), Some(0x0505));
    let module = cx.into_builder().module();
    assert_eq!(
        *last_global(&module),
        inst(
            Op::ConstantComposite,
            ty,
            id,
            vec![
                Operand::IdRef(element),
                Operand::IdRef(element),
                Operand::IdRef(element)
            ]
        )
    );
}

#[test]
fn constant_vectors_of_arrays() {
    let mut cx = CodegenCx::new(64);
    let byte = SpirvType::Integer(8, false).def(&mut cx);
    let two = cx.constant_u32(2).def;
    let inner = SpirvType::Array { element: byte, count: two };
    let inner_id = inner.def(&mut cx);
    let outer = SpirvType::Vector { element: inner_id, count: two };
    let id = outer.memset_const_pattern(&mut cx, 9);
    let outer_id = outer.def(&mut cx);
    let module = cx.into_builder().module();
    let globals = &module.types_global_values;
    let n = globals.len();
    let scalar = globals[n - 4].result_id.unwrap();
    let part = globals[n - 3].result_id.unwrap();
    assert_eq!(
        globals[n - 4],
        inst(Op::Constant, byte, scalar, vec![Operand::LiteralInt32(9)])
    );
    assert_eq!(
        globals[n - 3],
        inst(
            Op::ConstantComposite,
            inner_id,
            part,
            vec![Operand::IdRef(scalar), Operand::IdRef(scalar)]
        )
    );
    assert_eq!(globals[n - 2].class.opcode, Op::TypeVector);
    assert_eq!(
        globals[n - 1],
        inst(
            Op::ConstantComposite,
            outer_id,
            id,
            vec![Operand::IdRef(part), Operand::IdRef(part)]
        )
    );
}

#[test]
fn block_is_begun() {
    let mut builder = started();
    assert_eq!(builder.cx.next_id(), 5);
    SpirvType::Bool.def(&mut builder.cx);
    let module = builder.cx.into_builder().module();
    assert_eq!(module.functions.len(), 1);
    assert_eq!(
        module.functions[0].def,
        Some(inst(
            Op::Function,
            1,
            3,
            vec![
                Operand::FunctionControl(FunctionControl::NONE),
                Operand::IdRef(2)
            ]
        ))
    );
    assert_eq!(module.functions[0].blocks.len(), 1);
    assert_eq!(
        module.functions[0].blocks[0].label,
        Some(Instruction::new(Op::Label, None, Some(4), vec![]))
    );
    assert!(block(&module).is_empty());
    assert_eq!(module.types_global_values.len(), 3);
}

#[test]
fn dynamic_byte_is_the_value_itself() {
    for signedness in [false, true] {
        let mut builder = started();
        let before = builder.cx.next_id();
        let id = SpirvType::Integer(8, signedness).memset_dynamic_pattern(&mut builder, 77);
        assert_eq!(id, 77);
        assert_eq!(builder.cx.next_id(), before);
        assert!(block(&builder.cx.into_builder().module()).is_empty());
    }
}

#[test]
fn dynamic_scalars() {
    let types = vec![
        (SpirvType::Integer(16, false), 2, SpirvType::Integer(16, false)),
        (SpirvType::Integer(32, false), 4, SpirvType::Integer(32, false)),
        (SpirvType::Integer(64, false), 8, SpirvType::Integer(64, false)),
        (SpirvType::Float(32), 4, SpirvType::Float(32)),
        (SpirvType::Float(64), 8, SpirvType::Float(64)),
        (SpirvType::Integer(32, true), 4, SpirvType::Integer(32, false)),
    ];
    for (ty, bytes, result) in types {
        let mut builder = started();
        let id = ty.memset_dynamic_pattern(&mut builder, 77);
        let next = builder.cx.next_id();
        let result_type = result.def(&mut builder.cx);
        let byte = SpirvType::Integer(8, false).def(&mut builder.cx);
        assert_eq!(builder.cx.next_id(), next);
        let module = builder.cx.into_builder().module();
        let insts = block(&module);
        assert_eq!(insts.len(), 2);
        let vector = insts[0].result_id.unwrap();
        let vector_type = insts[0].result_type.unwrap();
        assert_eq!(
            insts[0],
            inst(
                Op::CompositeConstruct,
                vector_type,
                vector,
                vec![Operand::IdRef(77); bytes]
            )
        );
        assert_eq!(
            insts[1],
            inst(Op::Bitcast, result_type, id, vec![Operand::IdRef(vector)])
        );
        let globals = &module.types_global_values;
        let ty = globals
            .iter()
            .find(|inst| inst.result_id == Some(vector_type))
            .unwrap();
        assert_eq!(ty.class.opcode, Op::TypeVector);
        assert_eq!(ty.operands[0], Operand::IdRef(byte));
        let count = match &ty.operands[1] {
            Operand::LiteralInt32(count) => *count,
            _ => panic!("no count"),
        };
        let count = globals
            .iter()
            .find(|inst| inst.result_id == Some(count))
            .unwrap();
        assert_eq!(count.class.opcode, Op::Constant);
        assert_eq!(count.operands, vec![Operand::LiteralInt32(bytes as u32)]);
    }
}

#[test]
fn dynamic_arrays() {
    let mut builder = started();
    let byte = SpirvType::Integer(8, false).def(&mut builder.cx);
    let three = builder.cx.constant_u32(3).def;
    let array = SpirvType::Array { element: byte, count: three };
    let id = array.memset_dynamic_pattern(&mut builder, 50);
    let ty = array.def(&mut builder.cx);
    let module = builder.cx.into_builder().module();
    assert_eq!(
        *block(&module),
        vec![inst(
            Op::CompositeConstruct,
            ty,
            id,
            vec![Operand::IdRef(50), Operand::IdRef(50), Operand::IdRef(50)]
        )]
    );
}

#[test]
fn dynamic_vectors_of_scalars() {
    let mut builder = started();
    let float = SpirvType::Float(32).def(&mut builder.cx);
    let two = builder.cx.constant_u32(2).def;
    let vector = SpirvType::Vector { element: float, count: two };
    let id = vector.memset_dynamic_pattern(&mut builder, 50);
    let ty = vector.def(&mut builder.cx);
    let module = builder.cx.into_builder().module();
    let insts = block(&module);
    assert_eq!(insts.len(), 3);
    let scalar = insts[1].result_id.unwrap();
    assert_eq!(insts[1].class.opcode, Op::Bitcast);
    assert_eq!(insts[1].result_type, Some(float));
    assert_eq!(
        insts[2],
        inst(
            Op::CompositeConstruct,
            ty,
            id,
            vec![Operand::IdRef(scalar), Operand::IdRef(scalar)]
        )
    );
}

#[test]
fn the_same_types_are_filled_in_both_ways() {
    let mut builder = started();
    let byte = SpirvType::Integer(8, false).def(&mut builder.cx);
    let two = builder.cx.constant_u32(2).def;
    let inner = SpirvType::Array { element: byte, count: two }.def(&mut builder.cx);
    let types = vec![
        SpirvType::Integer(8, true),
        SpirvType::Integer(16, true),
        SpirvType::Integer(32, false),
        SpirvType::Integer(64, false),
        SpirvType::Float(32),
        SpirvType::Float(64),
        SpirvType::Array { element: inner, count: two },
        SpirvType::Vector { element: byte, count: two },
    ];
    for ty in types {
        let constant = ty.memset_const_pattern(&mut builder.cx, 3);
        let value = ty.memset_dynamic_pattern(&mut builder, 50);
        assert_ne!(constant, value);
    }
}
