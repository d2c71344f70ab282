//! Types and constants in a module.
use crate::emit::{Inst, Op, Operand};
use crate::spirv_type::Ty;
use crate::state::{
    is_type_op, lemma_add_constant, lemma_define, lemma_submap_at, lemma_u32_constant, type_inst,
    State,
};
use rspirv::spirv::Word;
use vstd::prelude::*;

verus! {

/// Defining a type a second time gives the same id, and changes nothing.
pub proof fn law_def_idempotent(s: State, ty: Ty)
    requires
        s.wf(),
        s.define(ty).0.fits(),
    ensures
        s.define(ty).0.define(ty) == s.define(ty),
{
    lemma_define(s, ty);
}

/// A type keeps its id, whatever is added to the module later.
pub proof fn law_id_stays(s: State, later: State, ty: Ty)
    requires
        s.wf(),
        s.define(ty).0.fits(),
        s.define(ty).0.extended_by(later),
    ensures
        later.define(ty) == (later, s.define(ty).1),
{
    lemma_define(s, ty);
    lemma_submap_at(s.define(ty).0.type_cache, later.type_cache, ty);
}

/// The id of a type that has been defined stands for that type, now and later.
pub proof fn law_lookup_after_def(s: State, later: State, ty: Ty)
    requires
        s.wf(),
        s.define(ty).0.fits(),
        s.define(ty).0.extended_by(later),
    ensures
        later.type_defs.contains_key(s.define(ty).1),
        later.type_defs[s.define(ty).1] == ty,
{
    lemma_define(s, ty);
    lemma_submap_at(s.define(ty).0.type_defs, later.type_defs, s.define(ty).1);
}

/// Different types have different ids. Structs with the same fields, but with different
/// names or offsets, are different types.
pub proof fn law_distinct_types_distinct_ids(s: State, a: Ty, b: Ty)
    requires
        s.wf(),
        a != b,
        s.define(a).0.define(b).0.fits(),
    ensures
        s.define(a).1 != s.define(a).0.define(b).1,
{
    lemma_define(s, a);
    lemma_define(s.define(a).0, b);
    let id = s.define(a).1;
    lemma_submap_at(s.define(a).0.type_defs, s.define(a).0.define(b).0.type_defs, id);
}

/// Defining a type keeps every type, constant, name, and decoration that is there, and the
/// state stays well formed.
pub proof fn law_def_keeps(s: State, ty: Ty)
    requires
        s.wf(),
        s.define(ty).0.fits(),
    ensures
        s.extended_by(s.define(ty).0),
        s.define(ty).0.wf(),
{
    lemma_define(s, ty);
}

/// A type that has not been defined gets an id that nothing else has: neither a type that
/// has been defined, nor any other instruction.
pub proof fn law_new_type_new_id(s: State, ty: Ty)
    requires
        s.wf(),
        !s.type_cache.contains_key(ty),
    ensures
        !s.type_defs.contains_key(s.define(ty).1),
        forall|i: int|
            0 <= i < s.module.globals.len() ==> (#[trigger] s.module.globals[i]).result_id != Some(
                s.define(ty).1,
            ),
        s.define(ty).0.module.globals == s.module.globals.push(type_inst(s.define(ty).1, ty)),
{
    let id = s.define(ty).1;
    if s.type_defs.contains_key(id) {
        let inst = type_inst(id, s.type_defs[id]);
        assert(s.module.globals.contains(inst));
        let i = choose|i: int| 0 <= i < s.module.globals.len() && s.module.globals[i] == inst;
        assert(s.module.globals[i].result_id == Some(id));
    }
}

/// The type definitions are up to date: an id stands for a type exactly if the module has a
/// type instruction with that id, and that instruction is the one for the type.
pub proof fn law_type_defs_up_to_date(s: State, id: Word)
    requires
        s.wf(),
    ensures
        s.type_defs.contains_key(id) <==> exists|i: int|
            0 <= i < s.module.globals.len() && (#[trigger] s.module.globals[i]).result_id == Some(
                id,
            ) && is_type_op(s.module.globals[i].op),
        s.type_defs.contains_key(id) ==> s.module.globals.contains(
            type_inst(id, s.type_defs[id]),
        ),
{
    if s.type_defs.contains_key(id) {
        let inst = type_inst(id, s.type_defs[id]);
        assert(s.module.globals.contains(inst));
        let i = choose|i: int| 0 <= i < s.module.globals.len() && s.module.globals[i] == inst;
        assert(s.module.globals[i].result_id == Some(id));
        assert(is_type_op(s.module.globals[i].op));
    }
}

/// No two instructions of a module share an id.
pub proof fn law_ids_unique(s: State, i: int, j: int)
    requires
        s.wf(),
        0 <= i < s.module.globals.len(),
        0 <= j < s.module.globals.len(),
        s.module.globals[i].result_id == s.module.globals[j].result_id,
    ensures
        i == j,
{
}

/// The value of a constant can be looked up once it has been emitted, and what is there is
/// kept.
pub proof fn law_constant_known(s: State, value: u32)
    requires
        s.wf(),
        s.u32_constant(value).0.fits(),
    ensures
        s.u32_constant(value).0.constants.contains_key(s.u32_constant(value).1),
        s.u32_constant(value).0.constants[s.u32_constant(value).1] == value,
        s.extended_by(s.u32_constant(value).0),
        s.u32_constant(value).0.wf(),
{
    lemma_u32_constant(s, value);
}

/// The same of a constant of any integer type.
pub proof fn law_typed_constant_known(s: State, ty: Word, narrow: u32, wide: u64)
    requires
        s.wf(),
        s.int32_constant(ty, narrow).0.fits(),
    ensures
        s.int32_constant(ty, narrow).0.constants[s.int32_constant(ty, narrow).1] == narrow,
        s.int64_constant(ty, wide).0.constants[s.int64_constant(ty, wide).1] == wide,
        s.extended_by(s.int32_constant(ty, narrow).0),
        s.extended_by(s.int64_constant(ty, wide).0),
        s.int32_constant(ty, narrow).0.wf(),
        s.int64_constant(ty, wide).0.wf(),
{
    let (t, id) = s.int32_constant(ty, narrow);
    let inst = Inst {
        op: Op::Constant,
        result_type: Some(ty),
        result_id: Some(id),
        operands: seq![Operand::Int32(narrow)],
    };
    lemma_add_constant(s, t, inst);
    let (t, id) = s.int64_constant(ty, wide);
    let inst = Inst {
        op: Op::Constant,
        result_type: Some(ty),
        result_id: Some(id),
        operands: seq![Operand::Int64(wide)],
    };
    lemma_add_constant(s, t, inst);
}

} // verus!
