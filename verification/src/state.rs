//! The state of a translation as a mathematical value, and what each step does to it.
use crate::emit::{find_identical, id_operands, Decoration, Emitted, Inst, Op, Operand};
use crate::spirv_type::Ty;
use rspirv::spirv::Word;
use vstd::prelude::*;

verus! {

/// The module under construction, and what is known of the ids in it.
#[verifier::ext_equal]
pub struct State {
    pub module: Emitted,
    /// The type that each type id stands for.
    pub type_defs: Map<Word, Ty>,
    /// The id of each type that has been defined.
    pub type_cache: Map<Ty, Word>,
    /// The value of each integer constant.
    pub constants: Map<Word, u64>,
    /// The size of a pointer in bits.
    pub pointer_bits: usize,
}

/// The opcode that defines a type.
pub open spec fn type_op(ty: Ty) -> Op {
    match ty {
        Ty::Void => Op::TypeVoid,
        Ty::Bool => Op::TypeBool,
        Ty::Integer(..) => Op::TypeInt,
        Ty::Float(..) => Op::TypeFloat,
        Ty::Adt { .. } => Op::TypeStruct,
        Ty::Vector { .. } => Op::TypeVector,
        Ty::Array { .. } => Op::TypeArray,
        Ty::Pointer { .. } => Op::TypePointer,
        Ty::Function { .. } => Op::TypeFunction,
    }
}

/// The operands of the instruction that defines a type.
pub open spec fn type_operands(ty: Ty) -> Seq<Operand> {
    match ty {
        Ty::Void => seq![],
        Ty::Bool => seq![],
        Ty::Integer(width, signedness) => seq![
            Operand::Int32(width),
            Operand::Int32(if signedness { 1 } else { 0 }),
        ],
        Ty::Float(width) => seq![Operand::Int32(width)],
        Ty::Adt { field_types, .. } => id_operands(field_types),
        Ty::Vector { element, count } => seq![Operand::Id(element), Operand::Int32(count)],
        Ty::Array { element, count } => seq![Operand::Id(element), Operand::Id(count)],
        Ty::Pointer { storage_class, pointee } => seq![
            Operand::Class(storage_class),
            Operand::Id(pointee),
        ],
        Ty::Function { return_type, arguments } => seq![Operand::Id(return_type)] + id_operands(
            arguments,
        ),
    }
}

/// The instruction that defines a type under an id.
pub open spec fn type_inst(id: Word, ty: Ty) -> Inst {
    Inst {
        op: type_op(ty),
        result_type: None,
        result_id: Some(id),
        operands: type_operands(ty),
    }
}

/// The instruction that names the type `id`.
pub open spec fn name_inst(id: Word, name: Seq<char>) -> Inst {
    Inst {
        op: Op::Name,
        result_type: None,
        result_id: None,
        operands: seq![Operand::Id(id), Operand::Text(name)],
    }
}

/// The instruction that names a member of the type `id`.
pub open spec fn member_name_inst(id: Word, member: u32, name: Seq<char>) -> Inst {
    Inst {
        op: Op::MemberName,
        result_type: None,
        result_id: None,
        operands: seq![Operand::Id(id), Operand::Int32(member), Operand::Text(name)],
    }
}

/// The instruction that gives the offset of a member of the type `id`.
pub open spec fn member_offset_inst(id: Word, member: u32, offset: u32) -> Inst {
    Inst {
        op: Op::MemberDecorate,
        result_type: None,
        result_id: None,
        operands: seq![
            Operand::Id(id),
            Operand::Int32(member),
            Operand::Decoration(Decoration::Offset),
            Operand::Int32(offset),
        ],
    }
}

/// The instructions that name members of the type `id`, one for each name, in order.
pub open spec fn member_name_insts(id: Word, names: Seq<Seq<char>>) -> Seq<Inst> {
    Seq::new(names.len(), |i: int| member_name_inst(id, i as u32, names[i]))
}

/// The instructions that give member offsets of the type `id`, one for each offset, in
/// order.
pub open spec fn member_offset_insts(id: Word, offsets: Seq<u32>) -> Seq<Inst> {
    Seq::new(offsets.len(), |i: int| member_offset_inst(id, i as u32, offsets[i]))
}

/// The debug names that go with the definition of a type.
pub open spec fn type_names(id: Word, ty: Ty) -> Seq<Inst> {
    match ty {
        Ty::Adt { name, field_names, .. } => {
            let own = match name {
                Some(name) => seq![name_inst(id, name)],
                None => seq![],
            };
            let members = match field_names {
                Some(names) => member_name_insts(id, names),
                None => seq![],
            };
            own + members
        },
        _ => seq![],
    }
}

/// The decorations that go with the definition of a type.
pub open spec fn type_annotations(id: Word, ty: Ty) -> Seq<Inst> {
    match ty {
        Ty::Adt { field_offsets: Some(offsets), .. } => member_offset_insts(id, offsets),
        _ => seq![],
    }
}

/// Whether an opcode defines a type.
pub open spec fn is_type_op(op: Op) -> bool {
    match op {
        Op::TypeVoid | Op::TypeBool | Op::TypeInt | Op::TypeFloat | Op::TypeVector | Op::TypeArray
        | Op::TypeStruct | Op::TypePointer | Op::TypeFunction => true,
        _ => false,
    }
}

/// The value of an integer constant, if the instruction is one.
pub open spec fn int_constant(inst: Inst) -> Option<u64> {
    if inst.op == Op::Constant && inst.operands.len() == 1 {
        match inst.operands[0] {
            Operand::Int32(value) => Some(value as u64),
            Operand::Int64(value) => Some(value),
            _ => None,
        }
    } else {
        None
    }
}

impl State {
    /// Type ids and types are in one-to-one correspondence.
    pub open spec fn types_paired(self) -> bool {
        &&& forall|id: Word| #[trigger]
            self.type_defs.contains_key(id) ==> self.type_cache.contains_key(self.type_defs[id])
                && self.type_cache[self.type_defs[id]] == id
        &&& forall|ty: Ty| #[trigger]
            self.type_cache.contains_key(ty) ==> self.type_defs.contains_key(self.type_cache[ty])
                && self.type_defs[self.type_cache[ty]] == ty
    }

    /// Every global has an id of its own, and the next id is unused.
    pub open spec fn ids_distinct(self) -> bool {
        &&& 1 <= self.module.next_id <= Word::MAX
        &&& forall|i: int|
            0 <= i < self.module.globals.len() ==> (
            #[trigger] self.module.globals[i]).result_id is Some
                && self.module.globals[i].result_id->0 < self.module.next_id
        &&& forall|i: int, j: int|
            0 <= i < j < self.module.globals.len() ==> (
            #[trigger] self.module.globals[i]).result_id != (
            #[trigger] self.module.globals[j]).result_id
    }

    /// The type definitions are exactly the type instructions of the module.
    pub open spec fn types_emitted(self) -> bool {
        &&& forall|i: int|
            0 <= i < self.module.globals.len() && is_type_op((
            #[trigger] self.module.globals[i]).op) ==> self.type_defs.contains_key(
                self.module.globals[i].result_id->0,
            ) && self.module.globals[i] == type_inst(
                self.module.globals[i].result_id->0,
                self.type_defs[self.module.globals[i].result_id->0],
            )
        &&& forall|id: Word| #[trigger]
            self.type_defs.contains_key(id) ==> self.module.globals.contains(
                type_inst(id, self.type_defs[id]),
            )
    }

    /// The known constants are exactly the integer constants of the module.
    pub open spec fn constants_emitted(self) -> bool {
        &&& forall|i: int|
            0 <= i < self.module.globals.len() && int_constant(
                #[trigger] self.module.globals[i],
            ) is Some ==> self.constants.contains_key(self.module.globals[i].result_id->0)
                && self.constants[self.module.globals[i].result_id->0] == int_constant(
                self.module.globals[i],
            )->0
        &&& forall|id: Word| #[trigger]
            self.constants.contains_key(id) ==> exists|i: int|
                0 <= i < self.module.globals.len() && (
                #[trigger] self.module.globals[i]).result_id == Some(id) && int_constant(
                    self.module.globals[i],
                ) == Some(self.constants[id])
    }

    /// What is selected is there: a function begins with an instruction, and a block lies in
    /// the selected function.
    pub open spec fn selection_consistent(self) -> bool {
        &&& self.module.in_function <==> self.module.function is Some
        &&& self.module.in_block <==> self.module.block is Some
        &&& self.module.in_block ==> self.module.in_function
    }

    /// What holds of every state.
    pub open spec fn wf(self) -> bool {
        &&& self.types_paired()
        &&& self.ids_distinct()
        &&& self.types_emitted()
        &&& self.constants_emitted()
        &&& self.selection_consistent()
    }

    /// Whether the ids that have been handed out fit a word.
    pub open spec fn fits(self) -> bool {
        self.module.next_id <= Word::MAX
    }

    /// Whether `later` keeps everything that is known in this state, and everything that
    /// has been emitted, and may add to it.
    pub open spec fn extended_by(self, later: State) -> bool {
        &&& self.type_defs.submap_of(later.type_defs)
        &&& self.type_cache.submap_of(later.type_cache)
        &&& self.constants.submap_of(later.constants)
        &&& self.pointer_bits == later.pointer_bits
        &&& self.module.next_id <= later.module.next_id
        &&& self.module.globals.is_prefix_of(later.module.globals)
        &&& self.module.names.is_prefix_of(later.module.names)
        &&& self.module.annotations.is_prefix_of(later.module.annotations)
        &&& self.module.in_function == later.module.in_function
        &&& self.module.in_block == later.module.in_block
        &&& self.module.function == later.module.function
        &&& self.module.label == later.module.label
    }

    /// Defining a type: a type that has been defined keeps its id, another one is
    /// emitted under the next id.
    pub open spec fn define(self, ty: Ty) -> (State, Word) {
        if self.type_cache.contains_key(ty) {
            (self, self.type_cache[ty])
        } else {
            let id = self.module.next_id as Word;
            (
                State {
                    module: Emitted {
                        globals: self.module.globals.push(type_inst(id, ty)),
                        names: self.module.names + type_names(id, ty),
                        annotations: self.module.annotations + type_annotations(id, ty),
                        next_id: self.module.next_id + 1,
                        ..self.module
                    },
                    type_defs: self.type_defs.insert(id, ty),
                    type_cache: self.type_cache.insert(ty, id),
                    ..self
                },
                id,
            )
        }
    }

    /// Emitting a 32-bit integer constant of type `ty`.
    pub open spec fn int32_constant(self, ty: Word, value: u32) -> (State, Word) {
        let (module, id) = self.module.add_global(
            Op::Constant,
            Some(ty),
            seq![Operand::Int32(value)],
        );
        (State { module, constants: self.constants.insert(id, value as u64), ..self }, id)
    }

    /// Emitting a 64-bit integer constant of type `ty`.
    pub open spec fn int64_constant(self, ty: Word, value: u64) -> (State, Word) {
        let (module, id) = self.module.add_global(
            Op::Constant,
            Some(ty),
            seq![Operand::Int64(value)],
        );
        (State { module, constants: self.constants.insert(id, value), ..self }, id)
    }

    /// Emitting a 32-bit float constant of type `ty`.
    pub open spec fn float32_constant(self, ty: Word, bits: u32) -> (State, Word) {
        let (module, id) = self.module.add_global(
            Op::Constant,
            Some(ty),
            seq![Operand::Float32(bits)],
        );
        (State { module, ..self }, id)
    }

    /// Emitting a 64-bit float constant of type `ty`.
    pub open spec fn float64_constant(self, ty: Word, bits: u64) -> (State, Word) {
        let (module, id) = self.module.add_global(
            Op::Constant,
            Some(ty),
            seq![Operand::Float64(bits)],
        );
        (State { module, ..self }, id)
    }

    /// Emitting a constant of type `ty` that is made of other constants.
    pub open spec fn composite_constant(self, ty: Word, parts: Seq<Word>) -> (State, Word) {
        let (module, id) = self.module.add_global(
            Op::ConstantComposite,
            Some(ty),
            id_operands(parts),
        );
        (State { module, ..self }, id)
    }

    /// Emitting a `u32` constant: its type is defined first.
    pub open spec fn u32_constant(self, value: u32) -> (State, Word) {
        let (typed, ty) = self.define(Ty::Integer(32, false));
        typed.int32_constant(ty, value)
    }

    /// Beginning a function and a block in it.
    pub open spec fn function_block(self, return_type: Word, function_type: Word) -> State {
        State {
            module: Emitted {
                in_function: true,
                in_block: true,
                function: Some(
                    Inst {
                        op: Op::Function,
                        result_type: Some(return_type),
                        result_id: Some(self.module.next_id as Word),
                        operands: seq![Operand::NoControl, Operand::Id(function_type)],
                    },
                ),
                label: Some(
                    Inst {
                        op: Op::Label,
                        result_type: None,
                        result_id: Some((self.module.next_id + 1) as Word),
                        operands: seq![],
                    },
                ),
                block: Some(seq![]),
                next_id: self.module.next_id + 2,
                ..self.module
            },
            ..self
        }
    }

    /// Appending an instruction to the selected block.
    pub open spec fn block_inst(self, op: Op, ty: Word, operands: Seq<Operand>) -> (State, Word) {
        let (module, id) = self.module.add_to_block(op, ty, operands);
        (State { module, ..self }, id)
    }
}

/// What [`find_identical`] finds is in the list.
pub proof fn lemma_find_identical(globals: Seq<Inst>, op: Op, operands: Seq<Operand>)
    ensures
        find_identical(globals, op, operands) is Some ==> exists|i: int|
            0 <= i < globals.len() && (#[trigger] globals[i]).op == op && globals[i].operands
                == operands && globals[i].result_id == find_identical(globals, op, operands),
    decreases globals.len(),
{
    if globals.len() > 0 && !(globals[0].op == op && globals[0].operands == operands
        && globals[0].result_id is Some) {
        let rest = globals.drop_first();
        lemma_find_identical(rest, op, operands);
        if find_identical(rest, op, operands) is Some {
            let i = choose|i: int|
                0 <= i < rest.len() && (#[trigger] rest[i]).op == op && rest[i].operands == operands
                    && rest[i].result_id == find_identical(rest, op, operands);
            assert(globals[i + 1] == rest[i]);
        }
    }
}

/// Equal lists of id operands come from equal lists of ids.
pub proof fn lemma_id_operands_injective(a: Seq<Word>, b: Seq<Word>)
    requires
        id_operands(a) == id_operands(b),
    ensures
        a == b,
{
    assert(id_operands(a).len() == a.len());
    assert(id_operands(b).len() == b.len());
    assert forall|i: int| 0 <= i < a.len() implies a[i] == b[i] by {
        assert(id_operands(a)[i] == Operand::Id(a[i]));
        assert(id_operands(b)[i] == Operand::Id(b[i]));
    }
    assert(a =~= b);
}

/// Except for structs, a type is determined by the instruction that defines it.
pub proof fn lemma_type_inst_injective(a: Ty, b: Ty)
    requires
        type_op(a) == type_op(b),
        type_operands(a) == type_operands(b),
        !(a is Adt),
    ensures
        a == b,
{
    let x = type_operands(a);
    let y = type_operands(b);
    match (a, b) {
        (
            Ty::Function { return_type: r1, arguments: a1 },
            Ty::Function { return_type: r2, arguments: a2 },
        ) => {
            assert(x[0] == Operand::Id(r1));
            assert(y[0] == Operand::Id(r2));
            assert(x.subrange(1, x.len() as int) =~= id_operands(a1));
            assert(y.subrange(1, y.len() as int) =~= id_operands(a2));
            lemma_id_operands_injective(a1, a2);
        },
        _ => {
            if x.len() > 0 {
                assert(x[0] == y[0]);
            }
            if x.len() > 1 {
                assert(x[1] == y[1]);
            }
        },
    }
}

/// A type that has not been defined is not in the module either, so the builder does
/// not find it there.
pub proof fn lemma_undefined_not_emitted(s: State, ty: Ty)
    requires
        s.wf(),
        !s.type_cache.contains_key(ty),
        !(ty is Adt),
    ensures
        find_identical(s.module.globals, type_op(ty), type_operands(ty)) is None,
{
    let globals = s.module.globals;
    lemma_find_identical(globals, type_op(ty), type_operands(ty));
    if find_identical(globals, type_op(ty), type_operands(ty)) is Some {
        let i = choose|i: int|
            0 <= i < globals.len() && (#[trigger] globals[i]).op == type_op(ty)
                && globals[i].operands == type_operands(ty) && globals[i].result_id
                == find_identical(globals, type_op(ty), type_operands(ty));
        let id = globals[i].result_id->0;
        assert(is_type_op(globals[i].op));
        lemma_type_inst_injective(ty, s.type_defs[id]);
    }
}

proof fn lemma_submap_transitive<K, V>(a: Map<K, V>, b: Map<K, V>, c: Map<K, V>)
    requires
        a.submap_of(b),
        b.submap_of(c),
    ensures
        a.submap_of(c),
{
    assert forall|k: K| #[trigger] a.dom().contains(k) implies c.dom().contains(k) && a[k]
        == c[k] by {
        assert(b.dom().contains(k));
    }
}

/// What is in a map is in every map that contains it.
pub proof fn lemma_submap_at<K, V>(a: Map<K, V>, b: Map<K, V>, k: K)
    requires
        a.submap_of(b),
        a.contains_key(k),
    ensures
        b.contains_key(k),
        b[k] == a[k],
{
    assert(a.dom().contains(k));
    assert(b.dom().contains(k));
}

/// Extension is reflexive.
pub proof fn lemma_extended_self(s: State)
    ensures
        s.extended_by(s),
{
    assert(s.module.globals =~= s.module.globals.subrange(0, s.module.globals.len() as int));
    assert(s.module.names =~= s.module.names.subrange(0, s.module.names.len() as int));
    assert(s.module.annotations =~= s.module.annotations.subrange(
        0,
        s.module.annotations.len() as int,
    ));
}

/// Extension is transitive.
pub proof fn lemma_extended_transitive(a: State, b: State, c: State)
    requires
        a.extended_by(b),
        b.extended_by(c),
    ensures
        a.extended_by(c),
{
    assert(a.module.globals =~= c.module.globals.subrange(0, a.module.globals.len() as int));
    assert(a.module.names =~= c.module.names.subrange(0, a.module.names.len() as int));
    assert(a.module.annotations =~= c.module.annotations.subrange(
        0,
        a.module.annotations.len() as int,
    ));
    lemma_submap_transitive(a.type_defs, b.type_defs, c.type_defs);
    lemma_submap_transitive(a.type_cache, b.type_cache, c.type_cache);
    lemma_submap_transitive(a.constants, b.constants, c.constants);
}

/// Defining a type keeps the state well formed, keeps everything that is known, and
/// gives the type an id that stands for it.
pub proof fn lemma_define(s: State, ty: Ty)
    requires
        s.wf(),
        s.define(ty).0.fits(),
    ensures
        s.define(ty).0.wf(),
        s.extended_by(s.define(ty).0),
        s.define(ty).0.module.block == s.module.block,
        s.define(ty).0.constants == s.constants,
        s.define(ty).0.type_defs.contains_key(s.define(ty).1),
        s.define(ty).0.type_defs[s.define(ty).1] == ty,
        s.define(ty).0.type_cache.contains_key(ty),
        s.define(ty).0.type_cache[ty] == s.define(ty).1,
{
    let (t, id) = s.define(ty);
    if !s.type_cache.contains_key(ty) {
        let old_len = s.module.globals.len() as int;
        let inst = type_inst(id, ty);
        assert(t.module.globals[old_len] == inst);
        assert(forall|i: int| 0 <= i < old_len ==> t.module.globals[i] == s.module.globals[i]);
        assert(!s.type_defs.contains_key(id)) by {
            if s.type_defs.contains_key(id) {
                let i = choose|i: int|
                    0 <= i < old_len && s.module.globals[i] == type_inst(id, s.type_defs[id]);
                assert(s.module.globals.contains(type_inst(id, s.type_defs[id])));
                assert(s.module.globals[i].result_id == Some(id));
            }
        }
        assert(t.types_paired());
        assert(t.ids_distinct());
        assert(t.types_emitted()) by {
            assert forall|k: Word| #[trigger]
                t.type_defs.contains_key(k) implies t.module.globals.contains(
                type_inst(k, t.type_defs[k]),
            ) by {
                if k == id {
                    assert(t.module.globals[old_len] == type_inst(k, t.type_defs[k]));
                } else {
                    assert(s.type_defs.contains_key(k));
                    let i = choose|i: int|
                        0 <= i < old_len && s.module.globals[i] == type_inst(k, s.type_defs[k]);
                    assert(s.module.globals.contains(type_inst(k, s.type_defs[k])));
                    assert(t.module.globals[i] == type_inst(k, t.type_defs[k]));
                }
            }
            assert forall|i: int|
                0 <= i < t.module.globals.len() && is_type_op((#[trigger] t.module.globals[i]).op)
                implies t.type_defs.contains_key(t.module.globals[i].result_id->0)
                && t.module.globals[i] == type_inst(
                t.module.globals[i].result_id->0,
                t.type_defs[t.module.globals[i].result_id->0],
            ) by {
                if i < old_len {
                    assert(t.module.globals[i] == s.module.globals[i]);
                }
            }
        }
        assert(t.constants_emitted()) by {
            lemma_constants_kept(s, t, inst);
        }
        assert(s.module.globals.is_prefix_of(t.module.globals));
        assert(s.module.names.is_prefix_of(t.module.names));
        assert(s.module.annotations.is_prefix_of(t.module.annotations));
    }
}

/// Handing out ids to what is no global keeps a state well formed.
pub proof fn lemma_same_globals(s: State, t: State)
    requires
        s.wf(),
        t.fits(),
        s.module.next_id <= t.module.next_id,
        t.module.globals == s.module.globals,
        t.selection_consistent(),
        t.type_defs == s.type_defs,
        t.type_cache == s.type_cache,
        t.constants == s.constants,
    ensures
        t.wf(),
{
}

/// One more global that is no integer constant leaves the known constants as they are.
proof fn lemma_constants_kept(s: State, t: State, inst: Inst)
    requires
        s.constants_emitted(),
        t.constants == s.constants,
        t.module.globals == s.module.globals.push(inst),
        int_constant(inst) is None,
    ensures
        t.constants_emitted(),
{
    assert forall|id: Word| #[trigger] t.constants.contains_key(id) implies exists|i: int|
        0 <= i < t.module.globals.len() && (#[trigger] t.module.globals[i]).result_id == Some(id)
            && int_constant(t.module.globals[i]) == Some(t.constants[id]) by {
        assert(s.constants.contains_key(id));
        let i = choose|i: int|
            0 <= i < s.module.globals.len() && (#[trigger] s.module.globals[i]).result_id == Some(
                id,
            ) && int_constant(s.module.globals[i]) == Some(s.constants[id]);
        assert(t.module.globals[i] == s.module.globals[i]);
    }
    assert forall|i: int|
        0 <= i < t.module.globals.len() && int_constant(#[trigger] t.module.globals[i]) is Some
        implies t.constants.contains_key(t.module.globals[i].result_id->0)
        && t.constants[t.module.globals[i].result_id->0] == int_constant(t.module.globals[i])->0 by {
        if i < s.module.globals.len() {
            assert(t.module.globals[i] == s.module.globals[i]);
        }
    }
}

/// One more global under the next id, which is no type, keeps the state well formed and
/// everything that is known. If it is an integer constant, its value becomes known.
pub proof fn lemma_add_constant(s: State, t: State, inst: Inst)
    requires
        s.wf(),
        t.fits(),
        t.module == (Emitted {
            globals: s.module.globals.push(inst),
            next_id: s.module.next_id + 1,
            ..s.module
        }),
        inst.result_id == Some(s.module.next_id as Word),
        !is_type_op(inst.op),
        t.constants == match int_constant(inst) {
            Some(value) => s.constants.insert(s.module.next_id as Word, value),
            None => s.constants,
        },
        t.type_defs == s.type_defs,
        t.type_cache == s.type_cache,
        t.pointer_bits == s.pointer_bits,
    ensures
        t.wf(),
        s.extended_by(t),
{
    let old_len = s.module.globals.len() as int;
    let id = s.module.next_id as Word;
    assert(t.module.globals[old_len] == inst);
    assert(forall|i: int| 0 <= i < old_len ==> t.module.globals[i] == s.module.globals[i]);
    assert(t.types_paired());
    assert(t.ids_distinct());
    assert(t.types_emitted()) by {
        assert forall|k: Word| #[trigger]
            t.type_defs.contains_key(k) implies t.module.globals.contains(
            type_inst(k, t.type_defs[k]),
        ) by {
            assert(s.type_defs.contains_key(k));
            let i = choose|i: int|
                0 <= i < old_len && s.module.globals[i] == type_inst(k, s.type_defs[k]);
            assert(s.module.globals.contains(type_inst(k, s.type_defs[k])));
            assert(t.module.globals[i] == type_inst(k, t.type_defs[k]));
        }
        assert forall|i: int|
            0 <= i < t.module.globals.len() && is_type_op((#[trigger] t.module.globals[i]).op)
            implies t.type_defs.contains_key(t.module.globals[i].result_id->0)
            && t.module.globals[i] == type_inst(
            t.module.globals[i].result_id->0,
            t.type_defs[t.module.globals[i].result_id->0],
        ) by {
            assert(i < old_len);
        }
    }
    assert(!s.constants.contains_key(id)) by {
        if s.constants.contains_key(id) {
            let i = choose|i: int|
                0 <= i < old_len && (#[trigger] s.module.globals[i]).result_id == Some(id)
                    && int_constant(s.module.globals[i]) == Some(s.constants[id]);
            assert(s.module.globals[i].result_id->0 < s.module.next_id);
        }
    }
    if int_constant(inst) is None {
        lemma_constants_kept(s, t, inst);
    } else {
        assert(t.constants_emitted()) by {
            assert forall|k: Word| #[trigger] t.constants.contains_key(k) implies exists|i: int|
                0 <= i < t.module.globals.len() && (#[trigger] t.module.globals[i]).result_id
                    == Some(k) && int_constant(t.module.globals[i]) == Some(t.constants[k]) by {
                if k == id {
                    assert(t.module.globals[old_len].result_id == Some(k));
                } else {
                    assert(s.constants.contains_key(k));
                    let i = choose|i: int|
                        0 <= i < old_len && (#[trigger] s.module.globals[i]).result_id == Some(k)
                            && int_constant(s.module.globals[i]) == Some(s.constants[k]);
                    assert(t.module.globals[i] == s.module.globals[i]);
                }
            }
            assert forall|i: int|
                0 <= i < t.module.globals.len() && int_constant(
                    #[trigger] t.module.globals[i],
                ) is Some implies t.constants.contains_key(t.module.globals[i].result_id->0)
                && t.constants[t.module.globals[i].result_id->0] == int_constant(
                t.module.globals[i],
            )->0 by {
                if i < old_len {
                    assert(t.module.globals[i] == s.module.globals[i]);
                    assert(s.module.globals[i].result_id->0 < s.module.next_id);
                }
            }
        }
    }
    assert(s.module.globals.is_prefix_of(t.module.globals));
    assert(s.module.names.is_prefix_of(t.module.names));
    assert(s.module.annotations.is_prefix_of(t.module.annotations));
}

/// Emitting a `u32` constant keeps the state well formed and everything that is known, and
/// its value becomes known.
pub proof fn lemma_u32_constant(s: State, value: u32)
    requires
        s.wf(),
        s.u32_constant(value).0.fits(),
    ensures
        s.u32_constant(value).0.wf(),
        s.extended_by(s.u32_constant(value).0),
        s.u32_constant(value).0.module.block == s.module.block,
        s.u32_constant(value).0.constants.contains_key(s.u32_constant(value).1),
        s.u32_constant(value).0.constants[s.u32_constant(value).1] == value,
{
    let (typed, ty) = s.define(Ty::Integer(32, false));
    let (t, id) = typed.int32_constant(ty, value);
    lemma_define(s, Ty::Integer(32, false));
    let inst = Inst {
        op: Op::Constant,
        result_type: Some(ty),
        result_id: Some(id),
        operands: seq![Operand::Int32(value)],
    };
    lemma_add_constant(typed, t, inst);
    lemma_extended_transitive(s, typed, t);
}

} // verus!
