//! Values all of whose bytes are the same.
use crate::builder::BlockBuilder;
use crate::codegen_cx::CodegenCx;
use crate::emit::{id_operands, Op, Operand};
use crate::spirv_type::{SpirvType, Ty};
use crate::state::State;
use rspirv::spirv::Word;
use vstd::pervasive::unreached;
use vstd::prelude::*;

verus! {

/// Two bytes that are all `b`.
pub fn memset_fill_u16(b: u8) -> (r: u16)
    ensures
        r == 0x0101 * b,
{
    assert((b as u16 | ((b as u16) << 8)) == 0x0101 * b) by (bit_vector);
    b as u16 | ((b as u16) << 8)
}

/// Four bytes that are all `b`.
pub fn memset_fill_u32(b: u8) -> (r: u32)
    ensures
        r == 0x0101_0101 * b,
{
    assert((b as u32 | ((b as u32) << 8) | ((b as u32) << 16) | ((b as u32) << 24)) == 0x0101_0101
        * b) by (bit_vector);
    b as u32 | ((b as u32) << 8) | ((b as u32) << 16) | ((b as u32) << 24)
}

/// Eight bytes that are all `b`.
pub fn memset_fill_u64(b: u8) -> (r: u64)
    ensures
        r == 0x0101_0101_0101_0101 * b,
{
    assert((b as u64 | ((b as u64) << 8) | ((b as u64) << 16) | ((b as u64) << 24) | ((b as u64)
        << 32) | ((b as u64) << 40) | ((b as u64) << 48) | ((b as u64) << 56))
        == 0x0101_0101_0101_0101 * b) by (bit_vector);
    b as u64 | ((b as u64) << 8) | ((b as u64) << 16) | ((b as u64) << 24) | ((b as u64) << 32) | ((
    b as u64) << 40) | ((b as u64) << 48) | ((b as u64) << 56)
}

/// `n` times the same id.
pub open spec fn copies(id: Word, n: nat) -> Seq<Word> {
    Seq::new(n, |i: int| id)
}

/// Emitting a constant of type `ty` all of whose bytes are `byte`, following ids through at
/// most `depth` types. It cannot be done for a type of another kind or width than here, nor
/// where an id stands for no type or a count is no integer constant.
pub open spec fn const_pattern_at(s: State, ty: Ty, byte: u8, depth: nat) -> Option<(State, Word)>
    decreases depth,
{
    if depth == 0 {
        None
    } else {
        match ty {
            Ty::Integer(width, _) => {
                let (typed, id) = s.define(ty);
                if width == 8 {
                    Some(typed.int32_constant(id, byte as u32))
                } else if width == 16 {
                    Some(typed.int32_constant(id, (0x0101 * byte) as u32))
                } else if width == 32 {
                    Some(typed.int32_constant(id, (0x0101_0101 * byte) as u32))
                } else if width == 64 {
                    Some(typed.int64_constant(id, (0x0101_0101_0101_0101 * byte) as u64))
                } else {
                    None
                }
            },
            Ty::Float(width) => {
                let (typed, id) = s.define(ty);
                if width == 32 {
                    Some(typed.float32_constant(id, (0x0101_0101 * byte) as u32))
                } else if width == 64 {
                    Some(typed.float64_constant(id, (0x0101_0101_0101_0101 * byte) as u64))
                } else {
                    None
                }
            },
            Ty::Vector { element, count } | Ty::Array { element, count } => {
                if s.type_defs.contains_key(element) {
                    match const_pattern_at(s, s.type_defs[element], byte, (depth - 1) as nat) {
                        Some((t, part)) => if t.constants.contains_key(count) {
                            let (typed, id) = t.define(ty);
                            Some(
                                typed.composite_constant(
                                    id,
                                    copies(part, (t.constants[count] as usize) as nat),
                                ),
                            )
                        } else {
                            None
                        },
                        None => None,
                    }
                } else {
                    None
                }
            },
            _ => None,
        }
    }
}

/// Emitting a constant of type `ty` all of whose bytes are `byte`, if that can be done.
pub open spec fn const_pattern(s: State, ty: Ty, byte: u8) -> Option<(State, Word)> {
    if exists|depth: nat| const_pattern_at(s, ty, byte, depth) is Some {
        const_pattern_at(
            s,
            ty,
            byte,
            choose|depth: nat| const_pattern_at(s, ty, byte, depth) is Some,
        )
    } else {
        None
    }
}

/// Putting together a scalar of `byte_width` times the byte `fill_var`.
pub open spec fn dynamic_scalar(
    s: State,
    fill_var: Word,
    byte_width: nat,
    is_float: bool,
) -> (State, Word) {
    let (s1, element) = s.define(Ty::Integer(8, false));
    let (s2, count) = s1.u32_constant(byte_width as u32);
    let (s3, composite_type) = s2.define(Ty::Vector { element, count });
    let (s4, composite) = s3.block_inst(
        Op::CompositeConstruct,
        composite_type,
        id_operands(copies(fill_var, byte_width)),
    );
    let width = (byte_width as u32 * 8) as u32;
    let (s5, result_type) = s4.define(
        if is_float {
            Ty::Float(width)
        } else {
            Ty::Integer(width, false)
        },
    );
    s5.block_inst(Op::Bitcast, result_type, seq![Operand::Id(composite)])
}

/// Putting together a value of type `ty` all of whose bytes are `fill_var`, following ids
/// through at most `depth` types. It cannot be done for a type of another kind or width than
/// here, nor where an id stands for no type or a count is no integer constant.
pub open spec fn dynamic_pattern_at(s: State, ty: Ty, fill_var: Word, depth: nat) -> Option<
    (State, Word),
>
    decreases depth,
{
    if depth == 0 {
        None
    } else {
        match ty {
            Ty::Integer(width, _) => if width == 8 {
                Some((s, fill_var))
            } else if width == 16 {
                Some(dynamic_scalar(s, fill_var, 2, false))
            } else if width == 32 {
                Some(dynamic_scalar(s, fill_var, 4, false))
            } else if width == 64 {
                Some(dynamic_scalar(s, fill_var, 8, false))
            } else {
                None
            },
            Ty::Float(width) => if width == 32 {
                Some(dynamic_scalar(s, fill_var, 4, true))
            } else if width == 64 {
                Some(dynamic_scalar(s, fill_var, 8, true))
            } else {
                None
            },
            Ty::Vector { element, count } | Ty::Array { element, count } => {
                if s.type_defs.contains_key(element) {
                    match dynamic_pattern_at(
                        s,
                        s.type_defs[element],
                        fill_var,
                        (depth - 1) as nat,
                    ) {
                        Some((t, part)) => if t.constants.contains_key(count) {
                            let (typed, id) = t.define(ty);
                            Some(
                                typed.block_inst(
                                    Op::CompositeConstruct,
                                    id,
                                    id_operands(
                                        copies(part, (t.constants[count] as usize) as nat),
                                    ),
                                ),
                            )
                        } else {
                            None
                        },
                        None => None,
                    }
                } else {
                    None
                }
            },
            _ => None,
        }
    }
}

/// Putting together a value of type `ty` all of whose bytes are `fill_var`, if that can be
/// done.
pub open spec fn dynamic_pattern(s: State, ty: Ty, fill_var: Word) -> Option<(State, Word)> {
    if exists|depth: nat| dynamic_pattern_at(s, ty, fill_var, depth) is Some {
        dynamic_pattern_at(
            s,
            ty,
            fill_var,
            choose|depth: nat| dynamic_pattern_at(s, ty, fill_var, depth) is Some,
        )
    } else {
        None
    }
}

/// Looking deeper does not change the pattern.
proof fn lemma_const_pattern_deeper(s: State, ty: Ty, byte: u8, depth: nat, deeper: nat)
    requires
        const_pattern_at(s, ty, byte, depth) is Some,
        depth <= deeper,
    ensures
        const_pattern_at(s, ty, byte, deeper) == const_pattern_at(s, ty, byte, depth),
    decreases depth,
{
    match ty {
        Ty::Vector { element, .. } | Ty::Array { element, .. } => {
            lemma_const_pattern_deeper(
                s,
                s.type_defs[element],
                byte,
                (depth - 1) as nat,
                (deeper - 1) as nat,
            );
        },
        _ => {},
    }
}

/// The pattern that is found at any depth is the pattern.
pub proof fn lemma_const_pattern_found(s: State, ty: Ty, byte: u8, depth: nat)
    requires
        const_pattern_at(s, ty, byte, depth) is Some,
    ensures
        const_pattern(s, ty, byte) == const_pattern_at(s, ty, byte, depth),
{
    let other = choose|depth: nat| const_pattern_at(s, ty, byte, depth) is Some;
    if other <= depth {
        lemma_const_pattern_deeper(s, ty, byte, other, depth);
    } else {
        lemma_const_pattern_deeper(s, ty, byte, depth, other);
    }
}

/// Looking deeper does not change the pattern.
proof fn lemma_dynamic_pattern_deeper(s: State, ty: Ty, fill_var: Word, depth: nat, deeper: nat)
    requires
        dynamic_pattern_at(s, ty, fill_var, depth) is Some,
        depth <= deeper,
    ensures
        dynamic_pattern_at(s, ty, fill_var, deeper) == dynamic_pattern_at(s, ty, fill_var, depth),
    decreases depth,
{
    match ty {
        Ty::Vector { element, .. } | Ty::Array { element, .. } => {
            lemma_dynamic_pattern_deeper(
                s,
                s.type_defs[element],
                fill_var,
                (depth - 1) as nat,
                (deeper - 1) as nat,
            );
        },
        _ => {},
    }
}

/// The pattern that is found at any depth is the pattern.
pub proof fn lemma_dynamic_pattern_found(s: State, ty: Ty, fill_var: Word, depth: nat)
    requires
        dynamic_pattern_at(s, ty, fill_var, depth) is Some,
    ensures
        dynamic_pattern(s, ty, fill_var) == dynamic_pattern_at(s, ty, fill_var, depth),
{
    let other = choose|depth: nat| dynamic_pattern_at(s, ty, fill_var, depth) is Some;
    if other <= depth {
        lemma_dynamic_pattern_deeper(s, ty, fill_var, other, depth);
    } else {
        lemma_dynamic_pattern_deeper(s, ty, fill_var, depth, other);
    }
}

/// `n` times the same id.
fn repeat_id(id: Word, n: usize) -> (r: Vec<Word>)
    ensures
        r@ == copies(id, n as nat),
{
    let mut r: Vec<Word> = Vec::new();
    for i in 0..n
        invariant
            r@ == copies(id, i as nat),
    {
        r.push(id);
        assert(r@ =~= copies(id, (i + 1) as nat));
    }
    r
}

/// Emits a constant all of whose bytes are `fill_byte`.
fn const_fill(
    ty: &SpirvType,
    cx: &mut CodegenCx,
    fill_byte: u8,
    Ghost(depth): Ghost<nat>,
) -> (r: Word)
    requires
        old(cx).wf(),
        const_pattern_at(old(cx)@, ty@, fill_byte, depth) is Some,
        const_pattern_at(old(cx)@, ty@, fill_byte, depth)->Some_0.0.fits(),
    ensures
        Some((final(cx)@, r)) == const_pattern_at(old(cx)@, ty@, fill_byte, depth),
        final(cx).wf(),
    decreases depth,
{
    match ty {
        SpirvType::Integer(width, _signedness) => match *width {
            8 => {
                let id: Word = ty.def(cx);
                cx.emit_constant_u32(id, fill_byte as u32)
            },
            16 => {
                let id: Word = ty.def(cx);
                cx.emit_constant_u32(id, memset_fill_u16(fill_byte) as u32)
            },
            32 => {
                let id: Word = ty.def(cx);
                cx.emit_constant_u32(id, memset_fill_u32(fill_byte))
            },
            64 => {
                let id: Word = ty.def(cx);
                cx.emit_constant_u64(id, memset_fill_u64(fill_byte))
            },
            _ => unreached(),
        },
        SpirvType::Float(width) => match *width {
            32 => {
                let id: Word = ty.def(cx);
                cx.emit_constant_float32(id, memset_fill_u32(fill_byte))
            },
            64 => {
                let id: Word = ty.def(cx);
                cx.emit_constant_float64(id, memset_fill_u64(fill_byte))
            },
            _ => unreached(),
        },
        SpirvType::Vector { element, count } | SpirvType::Array { element, count } => {
            let element: SpirvType = cx.lookup_type(*element);
            let elem_pat: Word = const_fill(&element, cx, fill_byte, Ghost((depth - 1) as nat));
            let count: usize = cx.lookup_const_u64(*count).unwrap() as usize;
            let id: Word = ty.def(cx);
            cx.emit_constant_composite(id, repeat_id(elem_pat, count))
        },
        _ => unreached(),
    }
}

/// Puts together a scalar of `byte_width` times the byte `fill_var`.
fn memset_dynamic_scalar(
    builder: &mut BlockBuilder,
    fill_var: Word,
    byte_width: usize,
    is_float: bool,
) -> (r: Word)
    requires
        old(builder).wf(),
        byte_width as u32 * 8 <= u32::MAX,
        dynamic_scalar(old(builder)@, fill_var, byte_width as nat, is_float).0.fits(),
    ensures
        (final(builder)@, r) == dynamic_scalar(
            old(builder)@,
            fill_var,
            byte_width as nat,
            is_float,
        ),
        final(builder).wf(),
{
    let element: Word = SpirvType::Integer(8, false).def(&mut builder.cx);
    let count: Word = builder.cx.constant_u32(byte_width as u32).def;
    let composite_type: Word = SpirvType::Vector { element, count }.def(&mut builder.cx);
    let composite: Word = builder.cx.emit_composite_construct(
        composite_type,
        repeat_id(fill_var, byte_width),
    );
    let width: u32 = byte_width as u32 * 8;
    let result_type: SpirvType = if is_float {
        SpirvType::Float(width)
    } else {
        SpirvType::Integer(width, false)
    };
    let result_type: Word = result_type.def(&mut builder.cx);
    builder.cx.emit_bitcast(result_type, composite)
}

/// Puts together a value all of whose bytes are `fill_var`.
fn dynamic_fill(
    ty: &SpirvType,
    builder: &mut BlockBuilder,
    fill_var: Word,
    Ghost(depth): Ghost<nat>,
) -> (r: Word)
    requires
        old(builder).wf(),
        dynamic_pattern_at(old(builder)@, ty@, fill_var, depth) is Some,
        dynamic_pattern_at(old(builder)@, ty@, fill_var, depth)->Some_0.0.fits(),
    ensures
        Some((final(builder)@, r)) == dynamic_pattern_at(old(builder)@, ty@, fill_var, depth),
        final(builder).wf(),
    decreases depth,
{
    match ty {
        SpirvType::Integer(width, _signedness) => match *width {
            8 => fill_var,
            16 => memset_dynamic_scalar(builder, fill_var, 2, false),
            32 => memset_dynamic_scalar(builder, fill_var, 4, false),
            64 => memset_dynamic_scalar(builder, fill_var, 8, false),
            _ => unreached(),
        },
        SpirvType::Float(width) => match *width {
            32 => memset_dynamic_scalar(builder, fill_var, 4, true),
            64 => memset_dynamic_scalar(builder, fill_var, 8, true),
            _ => unreached(),
        },
        SpirvType::Array { element, count } | SpirvType::Vector { element, count } => {
            let element: SpirvType = builder.cx.lookup_type(*element);
            let elem_pat: Word = dynamic_fill(
                &element,
                builder,
                fill_var,
                Ghost((depth - 1) as nat),
            );
            let count: usize = builder.cx.lookup_const_u64(*count).unwrap() as usize;
            let id: Word = ty.def(&mut builder.cx);
            builder.cx.emit_composite_construct(id, repeat_id(elem_pat, count))
        },
        _ => unreached(),
    }
}

impl SpirvType {
    /// Emits a constant of this type all of whose bytes are `fill_byte`.
    pub fn memset_const_pattern(&self, cx: &mut CodegenCx, fill_byte: u8) -> (r: Word)
        requires
            old(cx).wf(),
            const_pattern(old(cx)@, self@, fill_byte) is Some,
            const_pattern(old(cx)@, self@, fill_byte)->Some_0.0.fits(),
        ensures
            Some((final(cx)@, r)) == const_pattern(old(cx)@, self@, fill_byte),
            final(cx).wf(),
    {
        let ghost depth = choose|depth: nat|
            const_pattern_at(old(cx)@, self@, fill_byte, depth) is Some;
        const_fill(self, cx, fill_byte, Ghost(depth))
    }

    /// Puts together a value of this type all of whose bytes are `fill_var`, which is the id
    /// of an 8-bit integer.
    pub fn memset_dynamic_pattern(&self, builder: &mut BlockBuilder, fill_var: Word) -> (r: Word)
        requires
            old(builder).wf(),
            dynamic_pattern(old(builder)@, self@, fill_var) is Some,
            dynamic_pattern(old(builder)@, self@, fill_var)->Some_0.0.fits(),
        ensures
            Some((final(builder)@, r)) == dynamic_pattern(old(builder)@, self@, fill_var),
            final(builder).wf(),
    {
        let ghost depth = choose|depth: nat|
            dynamic_pattern_at(old(builder)@, self@, fill_var, depth) is Some;
        dynamic_fill(self, builder, fill_var, Ghost(depth))
    }
}

} // verus!
