//! Values all of whose bytes are the same.
use crate::emit::{id_operands, Emitted, Inst, Op, Operand};
use crate::memset::{
    const_pattern, const_pattern_at, copies, dynamic_pattern, dynamic_pattern_at, dynamic_scalar,
    lemma_dynamic_pattern_found,
};
use crate::spirv_type::Ty;
use crate::state::{
    int_constant, lemma_add_constant, lemma_define, lemma_extended_self, lemma_extended_transitive,
    lemma_same_globals, lemma_submap_at, lemma_u32_constant, State,
};
use rspirv::spirv::Word;
use vstd::prelude::*;

verus! {

/// The number that is made of `n` times the same byte.
pub open spec fn repeated(byte: u8, n: nat) -> nat
    decreases n,
{
    if n == 0 {
        0
    } else {
        repeated(byte, (n - 1) as nat) * 256 + byte as nat
    }
}

/// The numbers that integers and floats are filled with are made of the byte as often as they
/// have bytes.
pub proof fn law_fill_numbers(byte: u8)
    ensures
        repeated(byte, 1) == byte,
        repeated(byte, 2) == 0x0101 * byte,
        repeated(byte, 4) == 0x0101_0101 * byte,
        repeated(byte, 8) == 0x0101_0101_0101_0101 * byte,
{
    reveal_with_fuel(repeated, 9);
}

/// Each byte of such a number is that byte.
pub proof fn law_fill_bytes(byte: u8, half: u16, word: u32, double: u64, i: u8)
    requires
        half == repeated(byte, 2),
        word == repeated(byte, 4),
        double == repeated(byte, 8),
    ensures
        i < 2 ==> (half >> (8 * i) as u16) & 0xff == byte,
        i < 4 ==> (word >> (8 * i) as u32) & 0xff == byte,
        i < 8 ==> (double >> (8 * i) as u64) & 0xff == byte,
{
    law_fill_numbers(byte);
    assert(i < 2 ==> (half >> (8 * i) as u16) & 0xff == byte) by (bit_vector)
        requires
            half == 0x0101 * byte,
    ;
    assert(i < 4 ==> (word >> (8 * i) as u32) & 0xff == byte) by (bit_vector)
        requires
            word == 0x0101_0101 * byte,
    ;
    assert(i < 8 ==> (double >> (8 * i) as u64) & 0xff == byte) by (bit_vector)
        requires
            double == 0x0101_0101_0101_0101 * byte,
    ;
}

/// The literal that fills an integer or a float.
pub open spec fn fill_literal(ty: Ty, byte: u8) -> Option<Operand> {
    match ty {
        Ty::Integer(width, _) => if width == 8 || width == 16 || width == 32 {
            Some(Operand::Int32(repeated(byte, (width / 8) as nat) as u32))
        } else if width == 64 {
            Some(Operand::Int64(repeated(byte, 8) as u64))
        } else {
            None
        },
        Ty::Float(width) => if width == 32 {
            Some(Operand::Float32(repeated(byte, 4) as u32))
        } else if width == 64 {
            Some(Operand::Float64(repeated(byte, 8) as u64))
        } else {
            None
        },
        _ => None,
    }
}

/// Whether an id stands for a constant of a type that is emitted with these operands.
pub open spec fn is_constant(s: State, id: Word, op: Op, ty: Ty, operands: Seq<Operand>) -> bool {
    &&& s.type_cache.contains_key(ty)
    &&& s.module.globals.contains(
        Inst { op, result_type: Some(s.type_cache[ty]), result_id: Some(id), operands },
    )
}

/// Whether an id stands for a constant of a type that is made of these parts.
pub open spec fn is_composite(s: State, id: Word, ty: Ty, parts: Seq<Word>) -> bool {
    is_constant(s, id, Op::ConstantComposite, ty, id_operands(parts))
}

/// Whether an id stands for a constant of a type all of whose bytes are the same: the literal
/// is made of the byte, or all parts are such constants of the element type, and there are as
/// many as the type says.
pub open spec fn is_filled(s: State, id: Word, ty: Ty, byte: u8, depth: nat) -> bool
    decreases depth,
{
    depth > 0 && match ty {
        Ty::Vector { element, count } | Ty::Array { element, count } => {
            &&& s.type_defs.contains_key(element)
            &&& s.constants.contains_key(count)
            &&& exists|parts: Seq<Word>| #[trigger]
                is_composite(s, id, ty, parts) && parts.len() == s.constants[count] as usize
                    && forall|j: int|
                    0 <= j < parts.len() ==> is_filled(
                        s,
                        #[trigger] parts[j],
                        s.type_defs[element],
                        byte,
                        (depth - 1) as nat,
                    )
        },
        _ => fill_literal(ty, byte) is Some && is_constant(
            s,
            id,
            Op::Constant,
            ty,
            seq![fill_literal(ty, byte)->0],
        ),
    }
}

proof fn lemma_constant_kept(
    s: State,
    later: State,
    id: Word,
    op: Op,
    ty: Ty,
    operands: Seq<Operand>,
)
    requires
        s.extended_by(later),
        is_constant(s, id, op, ty, operands),
    ensures
        is_constant(later, id, op, ty, operands),
{
    lemma_submap_at(s.type_cache, later.type_cache, ty);
    let inst = Inst { op, result_type: Some(s.type_cache[ty]), result_id: Some(id), operands };
    let i = choose|i: int| 0 <= i < s.module.globals.len() && s.module.globals[i] == inst;
    assert(later.module.globals[i] == s.module.globals[i]);
}

proof fn lemma_filled_kept(s: State, later: State, id: Word, ty: Ty, byte: u8, depth: nat)
    requires
        s.extended_by(later),
        is_filled(s, id, ty, byte, depth),
    ensures
        is_filled(later, id, ty, byte, depth),
    decreases depth,
{
    match ty {
        Ty::Vector { element, count } | Ty::Array { element, count } => {
            lemma_submap_at(s.type_defs, later.type_defs, element);
            lemma_submap_at(s.constants, later.constants, count);
            let inner = s.type_defs[element];
            let less = (depth - 1) as nat;
            let parts = choose|parts: Seq<Word>| #[trigger]
                is_composite(s, id, ty, parts) && parts.len() == s.constants[count] as usize
                    && forall|j: int|
                    0 <= j < parts.len() ==> is_filled(s, #[trigger] parts[j], inner, byte, less);
            lemma_constant_kept(s, later, id, Op::ConstantComposite, ty, id_operands(parts));
            assert(is_composite(later, id, ty, parts));
            assert forall|j: int| 0 <= j < parts.len() implies is_filled(
                later,
                #[trigger] parts[j],
                inner,
                byte,
                less,
            ) by {
                lemma_filled_kept(s, later, parts[j], inner, byte, less);
            }
        },
        _ => {
            let literal = seq![fill_literal(ty, byte)->0];
            lemma_constant_kept(s, later, id, Op::Constant, ty, literal);
        },
    }
}

/// A constant that has just been emitted is there.
proof fn lemma_emitted(typed: State, t: State, ty: Ty, inst: Inst)
    requires
        typed.wf(),
        t.fits(),
        typed.type_cache.contains_key(ty),
        inst.result_type == Some(typed.type_cache[ty]),
        inst.result_id == Some(typed.module.next_id as Word),
        inst.op == Op::Constant || inst.op == Op::ConstantComposite,
        t.module == (Emitted {
            globals: typed.module.globals.push(inst),
            next_id: typed.module.next_id + 1,
            ..typed.module
        }),
        t.constants == match int_constant(inst) {
            Some(value) => typed.constants.insert(typed.module.next_id as Word, value),
            None => typed.constants,
        },
        t.type_defs == typed.type_defs,
        t.type_cache == typed.type_cache,
        t.pointer_bits == typed.pointer_bits,
    ensures
        t.wf(),
        typed.extended_by(t),
        is_constant(t, inst.result_id->0, inst.op, ty, inst.operands),
{
    lemma_add_constant(typed, t, inst);
    assert(t.module.globals[typed.module.globals.len() as int] == inst);
}

proof fn lemma_const_pattern(s: State, ty: Ty, byte: u8, depth: nat)
    requires
        s.wf(),
        const_pattern_at(s, ty, byte, depth) is Some,
        const_pattern_at(s, ty, byte, depth)->Some_0.0.fits(),
    ensures
        ({
            let (t, id) = const_pattern_at(s, ty, byte, depth)->0;
            &&& t.wf()
            &&& s.extended_by(t)
            &&& is_filled(t, id, ty, byte, depth)
        }),
    decreases depth,
{
    let (t, id) = const_pattern_at(s, ty, byte, depth)->0;
    law_fill_numbers(byte);
    match ty {
        Ty::Vector { element, count } | Ty::Array { element, count } => {
            let inner = s.type_defs[element];
            let less = (depth - 1) as nat;
            let (u, part) = const_pattern_at(s, inner, byte, less)->0;
            let (typed, ty_id) = u.define(ty);
            let parts = copies(part, (u.constants[count] as usize) as nat);
            lemma_const_pattern(s, inner, byte, less);
            lemma_define(u, ty);
            let inst = Inst {
                op: Op::ConstantComposite,
                result_type: Some(ty_id),
                result_id: Some(id),
                operands: id_operands(parts),
            };
            lemma_emitted(typed, t, ty, inst);
            lemma_extended_transitive(s, u, typed);
            lemma_extended_transitive(s, typed, t);
            lemma_extended_transitive(u, typed, t);
            lemma_filled_kept(u, t, part, inner, byte, less);
            lemma_submap_at(s.type_defs, t.type_defs, element);
            lemma_submap_at(u.constants, t.constants, count);
            assert(is_composite(t, id, ty, parts));
        },
        _ => {
            let (typed, ty_id) = s.define(ty);
            lemma_define(s, ty);
            let literal = fill_literal(ty, byte)->0;
            let inst = Inst {
                op: Op::Constant,
                result_type: Some(ty_id),
                result_id: Some(id),
                operands: seq![literal],
            };
            lemma_emitted(typed, t, ty, inst);
            lemma_extended_transitive(s, typed, t);
        },
    }
}

/// The constant that is emitted to fill a type has that type, and all its bytes are the fill
/// byte. The state stays well formed, and what is there is kept.
pub proof fn law_const_pattern_filled(s: State, ty: Ty, byte: u8)
    requires
        s.wf(),
        const_pattern(s, ty, byte) is Some,
        const_pattern(s, ty, byte)->Some_0.0.fits(),
    ensures
        ({
            let (t, id) = const_pattern(s, ty, byte)->0;
            &&& t.wf()
            &&& s.extended_by(t)
            &&& exists|depth: nat| is_filled(t, id, ty, byte, depth)
        }),
{
    let depth = choose|depth: nat| const_pattern_at(s, ty, byte, depth) is Some;
    lemma_const_pattern(s, ty, byte, depth);
}

/// Whether an id stands for a value of a type that is computed in the selected block by an
/// instruction with these operands.
pub open spec fn is_computed(s: State, id: Word, op: Op, ty: Ty, operands: Seq<Operand>) -> bool {
    &&& s.type_cache.contains_key(ty)
    &&& s.module.block is Some
    &&& s.module.block->0.contains(
        Inst { op, result_type: Some(s.type_cache[ty]), result_id: Some(id), operands },
    )
}

/// Whether an id stands for a vector that is made of `n` times the byte `fill_var`.
pub open spec fn is_byte_vector(
    s: State,
    id: Word,
    element: Word,
    count: Word,
    n: nat,
    fill_var: Word,
) -> bool {
    &&& s.type_defs.contains_key(element)
    &&& s.type_defs[element] == Ty::Integer(8, false)
    &&& s.constants.contains_key(count)
    &&& s.constants[count] == n
    &&& is_computed(
        s,
        id,
        Op::CompositeConstruct,
        Ty::Vector { element, count },
        id_operands(copies(fill_var, n)),
    )
}

/// Whether an id stands for a scalar that is a vector of `n` times the byte `fill_var`, with
/// the bits taken as a value of type `ty`.
pub open spec fn is_byte_scalar(s: State, id: Word, ty: Ty, n: nat, fill_var: Word) -> bool {
    exists|vector: Word, element: Word, count: Word| #[trigger]
        is_byte_vector(s, vector, element, count, n, fill_var) && is_computed(
            s,
            id,
            Op::Bitcast,
            ty,
            seq![Operand::Id(vector)],
        )
}

/// Whether an id stands for a value that is made of parts in the selected block.
pub open spec fn is_constructed(s: State, id: Word, ty: Ty, parts: Seq<Word>) -> bool {
    is_computed(s, id, Op::CompositeConstruct, ty, id_operands(parts))
}

/// Whether an id stands for a value all of whose bytes are `fill_var`: it is `fill_var`
/// itself, a scalar of as many bytes as its type has, or all parts are such values of the
/// element type, and there are as many as the type says. Integers are unsigned.
pub open spec fn is_splat(s: State, id: Word, ty: Ty, fill_var: Word, depth: nat) -> bool
    decreases depth,
{
    depth > 0 && match ty {
        Ty::Integer(width, _) => if width == 8 {
            id == fill_var
        } else {
            (width == 16 || width == 32 || width == 64) && is_byte_scalar(
                s,
                id,
                Ty::Integer(width, false),
                (width / 8) as nat,
                fill_var,
            )
        },
        Ty::Float(width) => (width == 32 || width == 64) && is_byte_scalar(
            s,
            id,
            ty,
            (width / 8) as nat,
            fill_var,
        ),
        Ty::Vector { element, count } | Ty::Array { element, count } => {
            &&& s.type_defs.contains_key(element)
            &&& s.constants.contains_key(count)
            &&& exists|parts: Seq<Word>| #[trigger]
                is_constructed(s, id, ty, parts) && parts.len() == s.constants[count] as usize
                    && forall|j: int|
                    0 <= j < parts.len() ==> is_splat(
                        s,
                        #[trigger] parts[j],
                        s.type_defs[element],
                        fill_var,
                        (depth - 1) as nat,
                    )
        },
        _ => false,
    }
}

/// Whether `later` keeps what is known and emitted, and what the selected block holds.
pub open spec fn block_extended(s: State, later: State) -> bool {
    &&& s.extended_by(later)
    &&& s.module.block is Some
    &&& later.module.block is Some
    &&& s.module.block->0.is_prefix_of(later.module.block->0)
}

proof fn lemma_block_transitive(a: State, b: State, c: State)
    requires
        block_extended(a, b),
        block_extended(b, c),
    ensures
        block_extended(a, c),
{
    lemma_extended_transitive(a, b, c);
    let first = a.module.block->0;
    assert(first =~= c.module.block->0.subrange(0, first.len() as int));
}

proof fn lemma_computed_kept(
    s: State,
    later: State,
    id: Word,
    op: Op,
    ty: Ty,
    operands: Seq<Operand>,
)
    requires
        block_extended(s, later),
        is_computed(s, id, op, ty, operands),
    ensures
        is_computed(later, id, op, ty, operands),
{
    lemma_submap_at(s.type_cache, later.type_cache, ty);
    let inst = Inst { op, result_type: Some(s.type_cache[ty]), result_id: Some(id), operands };
    let block = s.module.block->0;
    let i = choose|i: int| 0 <= i < block.len() && block[i] == inst;
    assert(later.module.block->0[i] == block[i]);
}

proof fn lemma_scalar_kept(s: State, later: State, id: Word, ty: Ty, n: nat, fill_var: Word)
    requires
        block_extended(s, later),
        is_byte_scalar(s, id, ty, n, fill_var),
    ensures
        is_byte_scalar(later, id, ty, n, fill_var),
{
    let (vector, element, count) = choose|vector: Word, element: Word, count: Word| #[trigger]
        is_byte_vector(s, vector, element, count, n, fill_var) && is_computed(
            s,
            id,
            Op::Bitcast,
            ty,
            seq![Operand::Id(vector)],
        );
    lemma_vector_kept(s, later, vector, element, count, n, fill_var);
    lemma_computed_kept(s, later, id, Op::Bitcast, ty, seq![Operand::Id(vector)]);
}

proof fn lemma_vector_kept(
    s: State,
    later: State,
    id: Word,
    element: Word,
    count: Word,
    n: nat,
    fill_var: Word,
)
    requires
        block_extended(s, later),
        is_byte_vector(s, id, element, count, n, fill_var),
    ensures
        is_byte_vector(later, id, element, count, n, fill_var),
{
    lemma_submap_at(s.type_defs, later.type_defs, element);
    lemma_submap_at(s.constants, later.constants, count);
    lemma_computed_kept(
        s,
        later,
        id,
        Op::CompositeConstruct,
        Ty::Vector { element, count },
        id_operands(copies(fill_var, n)),
    );
}

proof fn lemma_splat_kept(s: State, later: State, id: Word, ty: Ty, fill_var: Word, depth: nat)
    requires
        block_extended(s, later),
        is_splat(s, id, ty, fill_var, depth),
    ensures
        is_splat(later, id, ty, fill_var, depth),
    decreases depth,
{
    match ty {
        Ty::Integer(width, _) => if width != 8 {
            lemma_scalar_kept(
                s,
                later,
                id,
                Ty::Integer(width, false),
                (width / 8) as nat,
                fill_var,
            );
        },
        Ty::Float(width) => {
            lemma_scalar_kept(s, later, id, ty, (width / 8) as nat, fill_var);
        },
        Ty::Vector { element, count } | Ty::Array { element, count } => {
            lemma_submap_at(s.type_defs, later.type_defs, element);
            lemma_submap_at(s.constants, later.constants, count);
            let inner = s.type_defs[element];
            let less = (depth - 1) as nat;
            let parts = choose|parts: Seq<Word>| #[trigger]
                is_constructed(s, id, ty, parts) && parts.len() == s.constants[count] as usize
                    && forall|j: int|
                    0 <= j < parts.len() ==> is_splat(s, #[trigger] parts[j], inner, fill_var, less);
            lemma_computed_kept(s, later, id, Op::CompositeConstruct, ty, id_operands(parts));
            assert(is_constructed(later, id, ty, parts));
            assert forall|j: int| 0 <= j < parts.len() implies is_splat(
                later,
                #[trigger] parts[j],
                inner,
                fill_var,
                less,
            ) by {
                lemma_splat_kept(s, later, parts[j], inner, fill_var, less);
            }
        },
        _ => {},
    }
}

/// Defining a type leaves the selected block as it is.
proof fn lemma_define_in_block(s: State, ty: Ty)
    requires
        s.wf(),
        s.module.block is Some,
        s.define(ty).0.fits(),
    ensures
        s.define(ty).0.wf(),
        block_extended(s, s.define(ty).0),
{
    lemma_define(s, ty);
    let block = s.module.block->0;
    assert(block =~= block.subrange(0, block.len() as int));
}

/// An instruction that has just been appended to the selected block is there.
proof fn lemma_block_inst(s: State, op: Op, ty: Ty, operands: Seq<Operand>)
    requires
        s.wf(),
        s.module.block is Some,
        s.type_cache.contains_key(ty),
        s.block_inst(op, s.type_cache[ty], operands).0.fits(),
    ensures
        ({
            let (t, id) = s.block_inst(op, s.type_cache[ty], operands);
            &&& t.wf()
            &&& block_extended(s, t)
            &&& is_computed(t, id, op, ty, operands)
        }),
{
    let (t, id) = s.block_inst(op, s.type_cache[ty], operands);
    lemma_same_globals(s, t);
    let block = s.module.block->0;
    assert(block =~= t.module.block->0.subrange(0, block.len() as int));
    lemma_extended_self(s);
    assert(t.module.block->0[block.len() as int].operands == operands);
}

proof fn lemma_dynamic_scalar(s: State, fill_var: Word, n: nat, is_float: bool)
    requires
        s.wf(),
        s.module.block is Some,
        n == 2 || n == 4 || n == 8,
        dynamic_scalar(s, fill_var, n, is_float).0.fits(),
    ensures
        ({
            let (t, id) = dynamic_scalar(s, fill_var, n, is_float);
            let ty = if is_float {
                Ty::Float((n * 8) as u32)
            } else {
                Ty::Integer((n * 8) as u32, false)
            };
            &&& t.wf()
            &&& block_extended(s, t)
            &&& is_byte_scalar(t, id, ty, n, fill_var)
        }),
{
    let (s1, element) = s.define(Ty::Integer(8, false));
    let (s2, count) = s1.u32_constant(n as u32);
    let vector_type = Ty::Vector { element, count };
    let (s3, vector_id) = s2.define(vector_type);
    let operands = id_operands(copies(fill_var, n));
    let (s4, vector) = s3.block_inst(Op::CompositeConstruct, vector_id, operands);
    let ty = if is_float {
        Ty::Float((n * 8) as u32)
    } else {
        Ty::Integer((n * 8) as u32, false)
    };
    let (s5, result_type) = s4.define(ty);
    let (t, id) = s5.block_inst(Op::Bitcast, result_type, seq![Operand::Id(vector)]);
    assert((t, id) == dynamic_scalar(s, fill_var, n, is_float));
    lemma_define_in_block(s, Ty::Integer(8, false));
    lemma_define(s, Ty::Integer(8, false));
    lemma_u32_constant(s1, n as u32);
    let block = s1.module.block->0;
    assert(block =~= block.subrange(0, block.len() as int));
    assert(block_extended(s1, s2));
    lemma_submap_at(s1.type_defs, s2.type_defs, element);
    lemma_define_in_block(s2, vector_type);
    lemma_define(s2, vector_type);
    lemma_submap_at(s2.type_defs, s3.type_defs, element);
    lemma_submap_at(s2.constants, s3.constants, count);
    lemma_block_inst(s3, Op::CompositeConstruct, vector_type, operands);
    lemma_submap_at(s3.type_defs, s4.type_defs, element);
    lemma_submap_at(s3.constants, s4.constants, count);
    assert(is_byte_vector(s4, vector, element, count, n, fill_var));
    lemma_define_in_block(s4, ty);
    lemma_define(s4, ty);
    lemma_block_inst(s5, Op::Bitcast, ty, seq![Operand::Id(vector)]);
    lemma_block_transitive(s4, s5, t);
    lemma_vector_kept(s4, t, vector, element, count, n, fill_var);
    lemma_block_transitive(s, s1, s2);
    lemma_block_transitive(s, s2, s3);
    lemma_block_transitive(s, s3, s4);
    lemma_block_transitive(s, s4, t);
}

proof fn lemma_dynamic_pattern(s: State, ty: Ty, fill_var: Word, depth: nat)
    requires
        s.wf(),
        s.module.block is Some,
        dynamic_pattern_at(s, ty, fill_var, depth) is Some,
        dynamic_pattern_at(s, ty, fill_var, depth)->Some_0.0.fits(),
    ensures
        ({
            let (t, id) = dynamic_pattern_at(s, ty, fill_var, depth)->0;
            &&& t.wf()
            &&& block_extended(s, t)
            &&& is_splat(t, id, ty, fill_var, depth)
        }),
    decreases depth,
{
    let (t, id) = dynamic_pattern_at(s, ty, fill_var, depth)->0;
    match ty {
        Ty::Integer(width, _) => {
            if width == 8 {
                let block = s.module.block->0;
                assert(block =~= block.subrange(0, block.len() as int));
                lemma_extended_self(s);
            } else {
                lemma_dynamic_scalar(s, fill_var, (width / 8) as nat, false);
            }
        },
        Ty::Float(width) => lemma_dynamic_scalar(s, fill_var, (width / 8) as nat, true),
        Ty::Vector { element, count } | Ty::Array { element, count } => {
            let inner = s.type_defs[element];
            let less = (depth - 1) as nat;
            let (u, part) = dynamic_pattern_at(s, inner, fill_var, less)->0;
            let typed = u.define(ty).0;
            let parts = copies(part, (u.constants[count] as usize) as nat);
            lemma_dynamic_pattern(s, inner, fill_var, less);
            lemma_define_in_block(u, ty);
            lemma_define(u, ty);
            lemma_block_inst(typed, Op::CompositeConstruct, ty, id_operands(parts));
            lemma_block_transitive(u, typed, t);
            lemma_block_transitive(s, u, t);
            lemma_splat_kept(u, t, part, inner, fill_var, less);
            lemma_submap_at(s.type_defs, t.type_defs, element);
            lemma_submap_at(u.constants, t.constants, count);
            assert(is_constructed(t, id, ty, parts));
        },
        _ => {},
    }
}

/// The value that is put together to fill a type at run time has the fill value for all its
/// bytes. The state stays well formed, and what is there is kept.
pub proof fn law_dynamic_pattern_filled(s: State, ty: Ty, fill_var: Word)
    requires
        s.wf(),
        s.module.block is Some,
        dynamic_pattern(s, ty, fill_var) is Some,
        dynamic_pattern(s, ty, fill_var)->Some_0.0.fits(),
    ensures
        ({
            let (t, id) = dynamic_pattern(s, ty, fill_var)->0;
            &&& t.wf()
            &&& block_extended(s, t)
            &&& exists|depth: nat| is_splat(t, id, ty, fill_var, depth)
        }),
{
    let depth = choose|depth: nat| dynamic_pattern_at(s, ty, fill_var, depth) is Some;
    lemma_dynamic_pattern(s, ty, fill_var, depth);
}

/// To fill a byte, the fill value itself is taken, and nothing is emitted.
pub proof fn law_byte_filled_by_itself(s: State, fill_var: Word, signedness: bool)
    ensures
        dynamic_pattern(s, Ty::Integer(8, signedness), fill_var) == Some((s, fill_var)),
{
    lemma_dynamic_pattern_found(s, Ty::Integer(8, signedness), fill_var, 1);
}

} // verus!
