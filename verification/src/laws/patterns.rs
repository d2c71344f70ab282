//! What is emitted to fill a type, instruction by instruction.
use crate::emit::{id_operands, Op, Operand};
use crate::laws::filling::{law_fill_numbers, repeated};
use crate::laws::instructions::{literal_added, one_global_added};
use crate::memset::{
    const_pattern, const_pattern_at, copies, dynamic_pattern, dynamic_pattern_at,
    lemma_const_pattern_found, lemma_dynamic_pattern_found,
};
use crate::spirv_type::Ty;
use crate::state::State;
use rspirv::spirv::Word;
use vstd::prelude::*;

verus! {

/// To fill an integer or float with a constant, its type is defined, and one constant of that
/// type is emitted: the number that is made of the byte as often as the type has bytes. This is
/// done for integers of 8, 16, 32, and 64 bits and floats of 32 and 64 bits.
pub proof fn law_constant_scalar(s: State, ty: Ty, byte: u8)
    requires
        ty is Integer || ty is Float,
    ensures
        ({
            let width = if ty is Integer {
                ty->Integer_0
            } else {
                ty->Float_0
            };
            let (typed, ty_id) = s.define(ty);
            let pattern = const_pattern(s, ty, byte);
            let (t, id) = pattern->0;
            let number = repeated(byte, (width / 8) as nat);
            &&& pattern is Some <==> width == 32 || width == 64 || (ty is Integer && (width == 8
                || width == 16))
            &&& pattern is Some && ty is Integer && width < 64 ==> literal_added(
                typed,
                t,
                id,
                ty_id,
                Operand::Int32(number as u32),
            ) && t.constants == s.constants.insert(id, number as u64)
            &&& pattern is Some && ty is Integer && width == 64 ==> literal_added(
                typed,
                t,
                id,
                ty_id,
                Operand::Int64(number as u64),
            ) && t.constants == s.constants.insert(id, number as u64)
            &&& pattern is Some && ty is Float && width == 32 ==> literal_added(
                typed,
                t,
                id,
                ty_id,
                Operand::Float32(number as u32),
            ) && t.constants == s.constants
            &&& pattern is Some && ty is Float && width == 64 ==> literal_added(
                typed,
                t,
                id,
                ty_id,
                Operand::Float64(number as u64),
            ) && t.constants == s.constants
        }),
{
    law_fill_numbers(byte);
    if const_pattern_at(s, ty, byte, 1) is Some {
        lemma_const_pattern_found(s, ty, byte, 1);
    } else {
        assert forall|depth: nat| const_pattern_at(s, ty, byte, depth) is None by {}
    }
}

/// To fill a vector or array with a constant, the constant for its element is emitted, then its
/// type is defined, and then one constant of that type is emitted that is made of the element's
/// constant as often as the count says. It cannot be done where the element is unknown or
/// cannot be filled, or the count is no constant.
pub proof fn law_constant_array(s: State, ty: Ty, element: Word, count: Word, byte: u8)
    requires
        ty == (Ty::Vector { element, count }) || ty == (Ty::Array { element, count }),
    ensures
        ({
            let pattern = const_pattern(s, ty, byte);
            let inner = const_pattern(s, s.type_defs[element], byte);
            let (u, part) = inner->0;
            if s.type_defs.contains_key(element) && inner is Some && u.constants.contains_key(
                count,
            ) {
                let (typed, ty_id) = u.define(ty);
                let (t, id) = pattern->0;
                let inst = t.module.globals.last();
                &&& pattern is Some
                &&& one_global_added(typed, t, id)
                &&& inst.op == Op::ConstantComposite
                &&& inst.result_type == Some(ty_id)
                &&& inst.operands.len() == u.constants[count] as usize
                &&& forall|i: int|
                    0 <= i < inst.operands.len() ==> (#[trigger] inst.operands[i])
                        == Operand::Id(part)
                &&& t.module.names == typed.module.names
                &&& t.module.annotations == typed.module.annotations
                &&& t.type_defs == typed.type_defs
                &&& t.type_cache == typed.type_cache
                &&& t.constants == typed.constants
            } else {
                pattern is None
            }
        }),
{
    let inner_ty = s.type_defs[element];
    let inner = const_pattern(s, inner_ty, byte);
    if s.type_defs.contains_key(element) && inner is Some && inner->Some_0.0.constants.contains_key(
        count,
    ) {
        let depth = choose|depth: nat| const_pattern_at(s, inner_ty, byte, depth) is Some;
        assert(const_pattern_at(s, ty, byte, depth + 1) is Some);
        lemma_const_pattern_found(s, ty, byte, depth + 1);
    } else {
        assert forall|depth: nat| const_pattern_at(s, ty, byte, depth) is None by {
            if const_pattern_at(s, ty, byte, depth) is Some {
                lemma_const_pattern_found(s, inner_ty, byte, (depth - 1) as nat);
            }
        }
    }
}

/// Other types can be filled neither with a constant nor at run time.
pub proof fn law_not_filled(s: State, ty: Ty, byte: u8, fill_var: Word)
    requires
        ty is Void || ty is Bool || ty is Adt || ty is Pointer || ty is Function,
    ensures
        const_pattern(s, ty, byte) is None,
        dynamic_pattern(s, ty, fill_var) is None,
{
    assert forall|depth: nat| const_pattern_at(s, ty, byte, depth) is None by {}
    assert forall|depth: nat| dynamic_pattern_at(s, ty, fill_var, depth) is None by {}
}

/// Whether a scalar has been put together from a byte: the byte type, the number of bytes, and
/// the vector of that many bytes are defined, the vector is made of the byte that often, the
/// result type is defined, and the vector is taken as a value of it. Nothing else is emitted.
pub open spec fn scalar_built(
    s: State,
    later: State,
    id: Word,
    bytes: nat,
    result: Ty,
    fill_var: Word,
) -> bool {
    let (s1, element) = s.define(Ty::Integer(8, false));
    let (s2, count) = s1.u32_constant(bytes as u32);
    let (s3, vector_type) = s2.define(Ty::Vector { element, count });
    let (s4, vector) = s3.block_inst(
        Op::CompositeConstruct,
        vector_type,
        Seq::new(bytes, |i: int| Operand::Id(fill_var)),
    );
    let (s5, result_type) = s4.define(result);
    (later, id) == s5.block_inst(Op::Bitcast, result_type, seq![Operand::Id(vector)])
}

/// To fill a byte at run time, the fill value is taken as it is. Other integers and floats are
/// put together from as many bytes as they have; integers come out without a sign. This is done
/// for the same widths as with a constant.
pub proof fn law_dynamic_scalar(s: State, ty: Ty, fill_var: Word)
    requires
        ty is Integer || ty is Float,
    ensures
        ({
            let width = if ty is Integer {
                ty->Integer_0
            } else {
                ty->Float_0
            };
            let pattern = dynamic_pattern(s, ty, fill_var);
            let (t, id) = pattern->0;
            &&& pattern is Some <==> width == 32 || width == 64 || (ty is Integer && (width == 8
                || width == 16))
            &&& ty is Integer && width == 8 ==> t == s && id == fill_var
            &&& pattern is Some && width != 8 ==> scalar_built(
                s,
                t,
                id,
                (width / 8) as nat,
                if ty is Integer {
                    Ty::Integer(width, false)
                } else {
                    Ty::Float(width)
                },
                fill_var,
            )
        }),
{
    assert(id_operands(copies(fill_var, 2)) =~= Seq::new(2, |i: int| Operand::Id(fill_var)));
    assert(id_operands(copies(fill_var, 4)) =~= Seq::new(4, |i: int| Operand::Id(fill_var)));
    assert(id_operands(copies(fill_var, 8)) =~= Seq::new(8, |i: int| Operand::Id(fill_var)));
    if dynamic_pattern_at(s, ty, fill_var, 1) is Some {
        lemma_dynamic_pattern_found(s, ty, fill_var, 1);
    } else {
        assert forall|depth: nat| dynamic_pattern_at(s, ty, fill_var, depth) is None by {}
    }
}

/// To fill a vector or array at run time, its element is put together, then its type is
/// defined, and then the whole is made of the element as often as the count says. It cannot be
/// done where the element is unknown or cannot be filled, or the count is no constant.
pub proof fn law_dynamic_array(s: State, ty: Ty, element: Word, count: Word, fill_var: Word)
    requires
        ty == (Ty::Vector { element, count }) || ty == (Ty::Array { element, count }),
    ensures
        ({
            let pattern = dynamic_pattern(s, ty, fill_var);
            let inner = dynamic_pattern(s, s.type_defs[element], fill_var);
            let (u, part) = inner->0;
            if s.type_defs.contains_key(element) && inner is Some && u.constants.contains_key(
                count,
            ) {
                let (typed, ty_id) = u.define(ty);
                pattern == Some(
                    typed.block_inst(
                        Op::CompositeConstruct,
                        ty_id,
                        Seq::new(
                            (u.constants[count] as usize) as nat,
                            |i: int| Operand::Id(part),
                        ),
                    ),
                )
            } else {
                pattern is None
            }
        }),
{
    let inner_ty = s.type_defs[element];
    let inner = dynamic_pattern(s, inner_ty, fill_var);
    if s.type_defs.contains_key(element) && inner is Some && inner->Some_0.0.constants.contains_key(
        count,
    ) {
        let (u, part) = inner->0;
        let n = (u.constants[count] as usize) as nat;
        assert(id_operands(copies(part, n)) =~= Seq::new(n, |i: int| Operand::Id(part)));
        let depth = choose|depth: nat| dynamic_pattern_at(s, inner_ty, fill_var, depth) is Some;
        assert(dynamic_pattern_at(s, ty, fill_var, depth + 1) is Some);
        lemma_dynamic_pattern_found(s, ty, fill_var, depth + 1);
    } else {
        assert forall|depth: nat| dynamic_pattern_at(s, ty, fill_var, depth) is None by {
            if dynamic_pattern_at(s, ty, fill_var, depth) is Some {
                lemma_dynamic_pattern_found(s, inner_ty, fill_var, (depth - 1) as nat);
            }
        }
    }
}

} // verus!
