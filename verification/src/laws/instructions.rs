//! Which instructions are emitted, said of the instructions themselves.
use crate::builder::BlockBuilder;
use crate::emit::{
    annotation_insts, block_insts, block_selected, contents, find_identical, function_inst,
    function_selected, global_insts, label_inst, name_insts, unused_id, Decoration, Inst, Op,
    Operand,
};
use crate::spirv_type::{SpirvType, Ty};
use crate::state::{type_annotations, type_names, State};
use rspirv::spirv::Word;
use vstd::prelude::*;

verus! {

/// Whether `later` differs from a state in no more than the types and constants, the names,
/// and the decorations that have been emitted, and in the ids that have been handed out.
pub open spec fn rest_kept(s: State, later: State) -> bool {
    &&& later.pointer_bits == s.pointer_bits
    &&& later.module.in_function == s.module.in_function
    &&& later.module.in_block == s.module.in_block
    &&& later.module.function == s.module.function
    &&& later.module.label == s.module.label
    &&& later.module.block == s.module.block
}

/// Whether exactly one instruction has been added to the types and constants, under the id
/// that was next.
pub open spec fn one_global_added(s: State, later: State, id: Word) -> bool {
    let n = s.module.globals.len() as int;
    &&& later.module.globals.len() == n + 1
    &&& forall|i: int| 0 <= i < n ==> later.module.globals[i] == s.module.globals[i]
    &&& later.module.globals[n].result_id == Some(id)
    &&& id == s.module.next_id as Word
    &&& later.module.next_id == s.module.next_id + 1
    &&& rest_kept(s, later)
}

/// A type that has been defined is not emitted again: its id is given out, and nothing
/// changes. Another one adds one instruction, and becomes known under the new id.
pub proof fn law_type_added(s: State, ty: Ty)
    ensures
        s.type_cache.contains_key(ty) ==> s.define(ty) == (s, s.type_cache[ty]),
        !s.type_cache.contains_key(ty) ==> {
            let (t, id) = s.define(ty);
            &&& one_global_added(s, t, id)
            &&& t.module.globals.last().result_type is None
            &&& t.type_defs == s.type_defs.insert(id, ty)
            &&& t.type_cache == s.type_cache.insert(ty, id)
            &&& t.constants == s.constants
        },
{
}

/// There is an id for a new type as long as the next id is not the last one of 32 bits. A type
/// that has been defined needs none.
pub proof fn law_room_for_type(s: State, ty: Ty)
    ensures
        s.fits() <==> s.module.next_id <= 0xffff_ffff,
        s.type_cache.contains_key(ty) ==> (s.define(ty).0.fits() <==> s.module.next_id
            <= 0xffff_ffff),
        !s.type_cache.contains_key(ty) ==> (s.define(ty).0.fits() <==> s.module.next_id
            < 0xffff_ffff),
{
}

/// Whether an instruction has this opcode, these operands, and an id.
pub open spec fn is_identical(inst: Inst, op: Op, operands: Seq<Operand>) -> bool {
    inst.op == op && inst.operands == operands && inst.result_id is Some
}

/// An identical type is found exactly if there is one, and it is the first one.
pub proof fn law_identical_type(globals: Seq<Inst>, op: Op, operands: Seq<Operand>, i: int)
    requires
        0 <= i < globals.len(),
        is_identical(globals[i], op, operands),
        forall|j: int| 0 <= j < i ==> !is_identical(#[trigger] globals[j], op, operands),
    ensures
        find_identical(globals, op, operands) == globals[i].result_id,
    decreases globals.len(),
{
    if i > 0 {
        let rest = globals.drop_first();
        assert(!is_identical(globals[0], op, operands));
        assert forall|j: int| 0 <= j < i - 1 implies !is_identical(
            #[trigger] rest[j],
            op,
            operands,
        ) by {
            assert(rest[j] == globals[j + 1]);
        }
        law_identical_type(rest, op, operands, i - 1);
    }
}

/// No identical type is found if there is none.
pub proof fn law_no_identical_type(globals: Seq<Inst>, op: Op, operands: Seq<Operand>)
    requires
        forall|j: int|
            0 <= j < globals.len() ==> !is_identical(#[trigger] globals[j], op, operands),
    ensures
        find_identical(globals, op, operands) is None,
    decreases globals.len(),
{
    if globals.len() > 0 {
        let rest = globals.drop_first();
        assert(!is_identical(globals[0], op, operands));
        assert forall|j: int| 0 <= j < rest.len() implies !is_identical(
            #[trigger] rest[j],
            op,
            operands,
        ) by {
            assert(rest[j] == globals[j + 1]);
        }
        law_no_identical_type(rest, op, operands);
    }
}

/// The instruction for a new scalar type: an integer has its width and its signedness, a float
/// its width.
pub proof fn law_scalar_instruction(s: State, ty: Ty)
    requires
        !s.type_cache.contains_key(ty),
    ensures
        ({
            let inst = s.define(ty).0.module.globals.last();
            &&& ty is Void ==> inst.op == Op::TypeVoid && inst.operands.len() == 0
            &&& ty is Bool ==> inst.op == Op::TypeBool && inst.operands.len() == 0
            &&& ty is Float ==> inst.op == Op::TypeFloat && inst.operands.len() == 1
                && inst.operands[0] == Operand::Int32(ty->Float_0)
            &&& ty is Integer ==> inst.op == Op::TypeInt && inst.operands.len() == 2
                && inst.operands[0] == Operand::Int32(ty->Integer_0) && inst.operands[1]
                == Operand::Int32(
                if ty->Integer_1 {
                    1
                } else {
                    0
                },
            )
        }),
{
}

/// The instruction for a new vector, array, or pointer. The count of a vector is a literal,
/// that of an array an id.
pub proof fn law_derived_instruction(s: State, ty: Ty)
    requires
        !s.type_cache.contains_key(ty),
        ty is Vector || ty is Array || ty is Pointer,
    ensures
        ({
            let inst = s.define(ty).0.module.globals.last();
            &&& inst.operands.len() == 2
            &&& ty is Vector ==> inst.op == Op::TypeVector && inst.operands[0] == Operand::Id(
                ty->Vector_element,
            ) && inst.operands[1] == Operand::Int32(ty->Vector_count)
            &&& ty is Array ==> inst.op == Op::TypeArray && inst.operands[0] == Operand::Id(
                ty->Array_element,
            ) && inst.operands[1] == Operand::Id(ty->Array_count)
            &&& ty is Pointer ==> inst.op == Op::TypePointer && inst.operands[0]
                == Operand::Class(ty->storage_class) && inst.operands[1] == Operand::Id(
                ty->pointee,
            )
        }),
{
}

/// The instruction for a new function type: the return type, then the argument types in order.
pub proof fn law_function_instruction(s: State, return_type: Word, arguments: Seq<Word>)
    requires
        !s.type_cache.contains_key(Ty::Function { return_type, arguments }),
    ensures
        ({
            let t = s.define(Ty::Function { return_type, arguments }).0;
            let inst = t.module.globals.last();
            &&& inst.op == Op::TypeFunction
            &&& inst.operands.len() == arguments.len() + 1
            &&& inst.operands[0] == Operand::Id(return_type)
            &&& forall|i: int|
                0 <= i < arguments.len() ==> inst.operands[i + 1] == Operand::Id(
                    #[trigger] arguments[i],
                )
        }),
{
}

/// The instruction for a new struct: its field types in order.
pub proof fn law_struct_instruction(s: State, ty: Ty)
    requires
        !s.type_cache.contains_key(ty),
        ty is Adt,
    ensures
        ({
            let inst = s.define(ty).0.module.globals.last();
            &&& inst.op == Op::TypeStruct
            &&& inst.operands.len() == ty->field_types.len()
            &&& forall|i: int|
                0 <= i < ty->field_types.len() ==> inst.operands[i] == Operand::Id(
                    #[trigger] ty->field_types[i],
                )
        }),
{
}

/// The names for a new type: first the name of the struct, if it has one, then a name for each
/// member, under its number. Other types get none.
pub proof fn law_type_names(s: State, ty: Ty)
    requires
        !s.type_cache.contains_key(ty),
    ensures
        ({
            let (t, id) = s.define(ty);
            let old_len = s.module.names.len() as int;
            let own: int = if ty is Adt && ty->name is Some {
                1
            } else {
                0
            };
            let members: int = if ty is Adt && ty->field_names is Some {
                ty->field_names->0.len() as int
            } else {
                0
            };
            &&& t.module.names.len() == old_len + own + members
            &&& forall|i: int| 0 <= i < old_len ==> t.module.names[i] == s.module.names[i]
            &&& own == 1 ==> t.module.names[old_len] == (Inst {
                op: Op::Name,
                result_type: None,
                result_id: None,
                operands: seq![Operand::Id(id), Operand::Text(ty->name->0)],
            })
            &&& forall|i: int|
                0 <= i < members ==> #[trigger] t.module.names[old_len + own + i] == (Inst {
                    op: Op::MemberName,
                    result_type: None,
                    result_id: None,
                    operands: seq![
                        Operand::Id(id),
                        Operand::Int32(i as u32),
                        Operand::Text(ty->field_names->0[i]),
                    ],
                })
        }),
{
    let (t, id) = s.define(ty);
    assert(t.module.names == s.module.names + type_names(id, ty));
}

/// The decorations for a new type: for a struct with offsets, the offset of each member, under
/// its number. Other types get none.
pub proof fn law_type_decorations(s: State, ty: Ty)
    requires
        !s.type_cache.contains_key(ty),
    ensures
        ({
            let (t, id) = s.define(ty);
            let old_len = s.module.annotations.len() as int;
            let members: int = if ty is Adt && ty->field_offsets is Some {
                ty->field_offsets->0.len() as int
            } else {
                0
            };
            &&& t.module.annotations.len() == old_len + members
            &&& forall|i: int|
                0 <= i < old_len ==> t.module.annotations[i] == s.module.annotations[i]
            &&& forall|i: int|
                0 <= i < members ==> #[trigger] t.module.annotations[old_len + i] == (Inst {
                    op: Op::MemberDecorate,
                    result_type: None,
                    result_id: None,
                    operands: seq![
                        Operand::Id(id),
                        Operand::Int32(i as u32),
                        Operand::Decoration(Decoration::Offset),
                        Operand::Int32(ty->field_offsets->0[i]),
                    ],
                })
        }),
{
    let (t, id) = s.define(ty);
    assert(t.module.annotations == s.module.annotations + type_annotations(id, ty));
}

/// Whether exactly one constant of a type has been added, with one literal.
pub open spec fn literal_added(
    s: State,
    later: State,
    id: Word,
    ty: Word,
    literal: Operand,
) -> bool {
    let inst = later.module.globals.last();
    &&& one_global_added(s, later, id)
    &&& inst.op == Op::Constant
    &&& inst.result_type == Some(ty)
    &&& inst.operands.len() == 1
    &&& inst.operands[0] == literal
    &&& later.module.names == s.module.names
    &&& later.module.annotations == s.module.annotations
    &&& later.type_defs == s.type_defs
    &&& later.type_cache == s.type_cache
}

/// A number is emitted as one constant of the given type, with the number as its literal. The
/// value of an integer becomes known under the new id, that of a float does not.
pub proof fn law_literal_constant(s: State, ty: Word, narrow: u32, wide: u64)
    ensures
        literal_added(
            s,
            s.int32_constant(ty, narrow).0,
            s.int32_constant(ty, narrow).1,
            ty,
            Operand::Int32(narrow),
        ),
        s.int32_constant(ty, narrow).0.constants == s.constants.insert(
            s.int32_constant(ty, narrow).1,
            narrow as u64,
        ),
        literal_added(
            s,
            s.int64_constant(ty, wide).0,
            s.int64_constant(ty, wide).1,
            ty,
            Operand::Int64(wide),
        ),
        s.int64_constant(ty, wide).0.constants == s.constants.insert(
            s.int64_constant(ty, wide).1,
            wide,
        ),
        literal_added(
            s,
            s.float32_constant(ty, narrow).0,
            s.float32_constant(ty, narrow).1,
            ty,
            Operand::Float32(narrow),
        ),
        s.float32_constant(ty, narrow).0.constants == s.constants,
        literal_added(
            s,
            s.float64_constant(ty, wide).0,
            s.float64_constant(ty, wide).1,
            ty,
            Operand::Float64(wide),
        ),
        s.float64_constant(ty, wide).0.constants == s.constants,
{
}

/// A `u32` constant is a constant of the type of unsigned integers of 32 bits, which is defined
/// before it.
pub proof fn law_u32_constant(s: State, value: u32)
    ensures
        ({
            let (typed, ty) = s.define(Ty::Integer(32, false));
            let (t, id) = s.u32_constant(value);
            &&& literal_added(typed, t, id, ty, Operand::Int32(value))
            &&& t.constants == s.constants.insert(id, value as u64)
        }),
{
}

/// A constant that is made of others is emitted as one instruction, with the parts in order.
pub proof fn law_composite_constant(s: State, ty: Word, parts: Seq<Word>)
    ensures
        ({
            let (t, id) = s.composite_constant(ty, parts);
            let inst = t.module.globals.last();
            &&& one_global_added(s, t, id)
            &&& inst.op == Op::ConstantComposite
            &&& inst.result_type == Some(ty)
            &&& inst.operands.len() == parts.len()
            &&& forall|i: int|
                0 <= i < parts.len() ==> inst.operands[i] == Operand::Id(#[trigger] parts[i])
            &&& t.module.names == s.module.names
            &&& t.module.annotations == s.module.annotations
            &&& t.type_defs == s.type_defs
            &&& t.type_cache == s.type_cache
            &&& t.constants == s.constants
        }),
{
}

/// A function begins with its types and no control, and its block with a label. They take the
/// next two ids. Nothing else changes.
pub proof fn law_function_begun(s: State, return_type: Word, function_type: Word)
    ensures
        ({
            let t = s.function_block(return_type, function_type);
            let function = t.module.function->0;
            let label = t.module.label->0;
            &&& t.module.in_function
            &&& t.module.in_block
            &&& t.module.function is Some
            &&& function.op == Op::Function
            &&& function.result_type == Some(return_type)
            &&& function.result_id == Some(s.module.next_id as Word)
            &&& function.operands.len() == 2
            &&& function.operands[0] == Operand::NoControl
            &&& function.operands[1] == Operand::Id(function_type)
            &&& t.module.label is Some
            &&& label.op == Op::Label
            &&& label.result_type is None
            &&& label.result_id == Some((s.module.next_id + 1) as Word)
            &&& label.operands.len() == 0
            &&& t.module.block is Some
            &&& t.module.block->0.len() == 0
            &&& t.module.next_id == s.module.next_id + 2
            &&& t.module.globals == s.module.globals
            &&& t.module.names == s.module.names
            &&& t.module.annotations == s.module.annotations
            &&& t.type_defs == s.type_defs
            &&& t.type_cache == s.type_cache
            &&& t.constants == s.constants
            &&& t.pointer_bits == s.pointer_bits
        }),
{
}

/// An instruction in a block goes to its end, under the next id. Nothing else changes.
pub proof fn law_block_instruction(s: State, op: Op, ty: Word, operands: Seq<Operand>)
    requires
        s.module.block is Some,
    ensures
        ({
            let (t, id) = s.block_inst(op, ty, operands);
            &&& id == s.module.next_id as Word
            &&& t.module.next_id == s.module.next_id + 1
            &&& t.module.block is Some
            &&& t.module.block->0 == s.module.block->0.push(
                Inst { op, result_type: Some(ty), result_id: Some(id), operands },
            )
            &&& t.module.in_function == s.module.in_function
            &&& t.module.in_block == s.module.in_block
            &&& t.module.function == s.module.function
            &&& t.module.label == s.module.label
            &&& t.module.globals == s.module.globals
            &&& t.module.names == s.module.names
            &&& t.module.annotations == s.module.annotations
            &&& t.type_defs == s.type_defs
            &&& t.type_cache == s.type_cache
            &&& t.constants == s.constants
            &&& t.pointer_bits == s.pointer_bits
        }),
{
}

/// A type as a mathematical value has the same parts, text for text and word for word.
pub proof fn law_type_view(ty: SpirvType)
    ensures
        ty is Void <==> ty@ is Void,
        ty is Bool <==> ty@ is Bool,
        ty is Integer <==> ty@ is Integer,
        ty is Float <==> ty@ is Float,
        ty is Adt <==> ty@ is Adt,
        ty is Vector <==> ty@ is Vector,
        ty is Array <==> ty@ is Array,
        ty is Pointer <==> ty@ is Pointer,
        ty is Function <==> ty@ is Function,
        ty is Integer ==> ty@->Integer_0 == ty->Integer_0 && ty@->Integer_1 == ty->Integer_1,
        ty is Float ==> ty@->Float_0 == ty->Float_0,
        ty is Vector ==> ty@->Vector_element == ty->Vector_element && ty@->Vector_count
            == ty->Vector_count,
        ty is Array ==> ty@->Array_element == ty->Array_element && ty@->Array_count
            == ty->Array_count,
        ty is Pointer ==> ty@->storage_class == ty->storage_class && ty@->pointee == ty->pointee,
        ty is Function ==> ty@->return_type == ty->return_type && ty@->arguments
            == ty->arguments@,
        ty is Adt ==> {
            &&& ty@->field_types == ty->field_types@
            &&& ty@->name is Some <==> ty->name is Some
            &&& ty->name is Some ==> ty@->name->0 == ty->name->0@
            &&& ty@->field_offsets is Some <==> ty->field_offsets is Some
            &&& ty->field_offsets is Some ==> ty@->field_offsets->0 == ty->field_offsets->0@
            &&& ty@->field_names is Some <==> ty->field_names is Some
            &&& ty->field_names is Some ==> ty@->field_names->0.len()
                == ty->field_names->0@.len() && forall|i: int|
                0 <= i < ty->field_names->0@.len() ==> ty@->field_names->0[i] == (
                #[trigger] ty->field_names->0@[i])@
        },
{
}

/// What is said of a builder is what it holds, section by section.
pub proof fn law_contents(b: rspirv::dr::Builder)
    ensures
        contents(b).globals == global_insts(b),
        contents(b).names == name_insts(b),
        contents(b).annotations == annotation_insts(b),
        contents(b).in_function == function_selected(b),
        contents(b).in_block == block_selected(b),
        contents(b).function == function_inst(b),
        contents(b).label == label_inst(b),
        contents(b).block == block_insts(b),
        contents(b).next_id == unused_id(b),
{
}

/// A block builder is about the context that it holds.
pub proof fn law_block_builder(b: BlockBuilder)
    ensures
        b@ == b.cx@,
{
}

} // verus!
