//! The translation context: the module under construction, and the types and constants
//! that have been put into it.
use crate::emit;
use crate::emit::{contents, Decoration, Emitted, Inst, Op, Operand};
use crate::spirv_type::{texts, SpirvType, Ty};
use crate::state::{
    lemma_add_constant, lemma_define, lemma_same_globals, lemma_undefined_not_emitted,
    member_name_insts, member_offset_insts, State,
};
use rspirv::spirv::Word;
use vstd::prelude::*;

verus! {

/// A value and its type.
#[derive(Clone, Copy, Debug, PartialEq, Eq, Structural)]
pub struct SpirvValue {
    pub def: Word,
    pub ty: Word,
}

/// The translation context.
pub struct CodegenCx {
    builder: rspirv::dr::Builder,
    /// The types that have been defined, with their ids.
    types: Vec<(Word, SpirvType)>,
    /// The integer constants that have been emitted, with their ids.
    constants: Vec<(Word, u64)>,
    /// The id that the next instruction gets.
    next_id: Word,
    /// The size of a pointer in bits.
    pointer_bits: usize,
}

/// A list of pairs as a map. The later of two pairs with one key counts.
spec fn pairs_map<K, V>(pairs: Seq<(K, V)>) -> Map<K, V>
    decreases pairs.len(),
{
    if pairs.len() == 0 {
        Map::empty()
    } else {
        pairs_map(pairs.drop_last()).insert(pairs.last().0, pairs.last().1)
    }
}

proof fn lemma_pairs_map_push<K, V>(pairs: Seq<(K, V)>, pair: (K, V))
    ensures
        pairs_map(pairs.push(pair)) == pairs_map(pairs).insert(pair.0, pair.1),
{
    assert(pairs.push(pair).drop_last() =~= pairs);
}

proof fn lemma_pairs_map_absent<K, V>(pairs: Seq<(K, V)>, key: K)
    requires
        forall|i: int| 0 <= i < pairs.len() ==> (#[trigger] pairs[i]).0 != key,
    ensures
        !pairs_map(pairs).contains_key(key),
    decreases pairs.len(),
{
    if pairs.len() > 0 {
        let rest = pairs.drop_last();
        assert forall|i: int| 0 <= i < rest.len() implies (#[trigger] rest[i]).0 != key by {
            assert(rest[i] == pairs[i]);
        }
        lemma_pairs_map_absent(rest, key);
    }
}

proof fn lemma_pairs_map_present<K, V>(pairs: Seq<(K, V)>, key: K, i: int)
    requires
        0 <= i < pairs.len(),
        pairs[i].0 == key,
        forall|j: int| i < j < pairs.len() ==> (#[trigger] pairs[j]).0 != key,
    ensures
        pairs_map(pairs).contains_key(key),
        pairs_map(pairs)[key] == pairs[i].1,
    decreases pairs.len(),
{
    if i < pairs.len() - 1 {
        let rest = pairs.drop_last();
        assert(pairs[pairs.len() - 1].0 != key);
        assert(rest[i] == pairs[i]);
        assert forall|j: int| i < j < rest.len() implies (#[trigger] rest[j]).0 != key by {
            assert(rest[j] == pairs[j]);
        }
        lemma_pairs_map_present(rest, key, i);
    }
}

/// The defined types, by their ids.
spec fn by_id(types: Seq<(Word, SpirvType)>) -> Seq<(Word, Ty)> {
    types.map_values(|entry: (Word, SpirvType)| (entry.0, entry.1@))
}

/// The ids of the defined types, by the types.
spec fn by_type(types: Seq<(Word, SpirvType)>) -> Seq<(Ty, Word)> {
    types.map_values(|entry: (Word, SpirvType)| (entry.1@, entry.0))
}

impl View for CodegenCx {
    type V = State;

    closed spec fn view(&self) -> State {
        State {
            module: contents(self.builder),
            type_defs: pairs_map(by_id(self.types@)),
            type_cache: pairs_map(by_type(self.types@)),
            constants: pairs_map(self.constants@),
            pointer_bits: self.pointer_bits,
        }
    }
}

impl CodegenCx {
    /// A context with an empty module, for a target whose pointers have this many bits.
    pub fn new(pointer_bits: usize) -> (r: CodegenCx)
        ensures
            r@ == (State {
                module: Emitted {
                    globals: seq![],
                    names: seq![],
                    annotations: seq![],
                    in_function: false,
                    in_block: false,
                    function: None,
                    label: None,
                    block: None,
                    next_id: 1,
                },
                type_defs: Map::empty(),
                type_cache: Map::empty(),
                constants: Map::empty(),
                pointer_bits,
            }),
            r.wf(),
    {
        let r = CodegenCx {
            builder: emit::new_builder(),
            types: Vec::new(),
            constants: Vec::new(),
            next_id: 1,
            pointer_bits,
        };
        assert(by_id(r.types@) =~= seq![]);
        assert(by_type(r.types@) =~= seq![]);
        r
    }

    /// The module that has been built.
    pub fn into_builder(self) -> (r: rspirv::dr::Builder)
        ensures
            contents(r) == self@.module,
    {
        self.builder
    }

    /// Whether the context has counted the ids right.
    pub closed spec fn counted(&self) -> bool {
        self.next_id == self@.module.next_id
    }

    /// What holds of every context.
    pub open spec fn wf(&self) -> bool {
        &&& self.counted()
        &&& self@.wf()
    }

    /// The id that the next instruction gets.
    pub fn next_id(&self) -> (r: Word)
        requires
            self.wf(),
        ensures
            r == self@.module.next_id,
    {
        self.next_id
    }

    /// The size of a pointer in bits.
    pub fn pointer_bits(&self) -> (r: usize)
        ensures
            r == self@.pointer_bits,
    {
        self.pointer_bits
    }

    /// The id of a type, if the type has been defined.
    pub(crate) fn cached(&self, ty: &SpirvType) -> (r: Option<Word>)
        ensures
            r is Some <==> self@.type_cache.contains_key(ty@),
            r is Some ==> r->0 == self@.type_cache[ty@],
    {
        let ghost pairs = by_type(self.types@);
        let mut i: usize = self.types.len();
        while i > 0
            invariant
                i <= self.types@.len(),
                pairs == by_type(self.types@),
                forall|j: int| i <= j < pairs.len() ==> (#[trigger] pairs[j]).0 != ty@,
            decreases i,
        {
            i = i - 1;
            assert(pairs[i as int] == (self.types@[i as int].1@, self.types@[i as int].0));
            if self.types[i].1 == *ty {
                proof {
                    lemma_pairs_map_present(pairs, ty@, i as int);
                }
                return Some(self.types[i].0);
            }
        }
        proof {
            lemma_pairs_map_absent(pairs, ty@);
        }
        None
    }

    /// The place of a type in the list, if the id stands for a type.
    fn position(&self, id: Word) -> (r: Option<usize>)
        ensures
            r is Some <==> self@.type_defs.contains_key(id),
            r is Some ==> r->0 < self.types@.len() && self.types@[r->0 as int].1@
                == self@.type_defs[id],
    {
        let ghost pairs = by_id(self.types@);
        let mut i: usize = self.types.len();
        while i > 0
            invariant
                i <= self.types@.len(),
                pairs == by_id(self.types@),
                forall|j: int| i <= j < pairs.len() ==> (#[trigger] pairs[j]).0 != id,
            decreases i,
        {
            i = i - 1;
            assert(pairs[i as int] == (self.types@[i as int].0, self.types@[i as int].1@));
            if self.types[i].0 == id {
                proof {
                    lemma_pairs_map_present(pairs, id, i as int);
                }
                return Some(i);
            }
        }
        proof {
            lemma_pairs_map_absent(pairs, id);
        }
        None
    }

    /// Whether an id stands for a type.
    pub fn is_type(&self, id: Word) -> (r: bool)
        ensures
            r == self@.type_defs.contains_key(id),
    {
        self.position(id).is_some()
    }

    /// The type that an id stands for.
    pub fn lookup_type(&self, id: Word) -> (r: SpirvType)
        requires
            self@.type_defs.contains_key(id),
        ensures
            r@ == self@.type_defs[id],
    {
        let i: usize = self.position(id).unwrap();
        self.types[i].1.clone()
    }

    /// The value of the integer constant that an id stands for, if it stands for one.
    pub fn lookup_const_u64(&self, id: Word) -> (r: Option<u64>)
        ensures
            r is Some <==> self@.constants.contains_key(id),
            r is Some ==> r->0 == self@.constants[id],
    {
        let mut i: usize = self.constants.len();
        while i > 0
            invariant
                i <= self.constants@.len(),
                forall|j: int| i <= j < self.constants@.len() ==> (
                #[trigger] self.constants@[j]).0 != id,
            decreases i,
        {
            i = i - 1;
            if self.constants[i].0 == id {
                proof {
                    lemma_pairs_map_present(self.constants@, id, i as int);
                }
                return Some(self.constants[i].1);
            }
        }
        proof {
            lemma_pairs_map_absent(self.constants@, id);
        }
        None
    }

    /// Emits a 32-bit integer constant of type `ty`.
    pub fn emit_constant_u32(&mut self, ty: Word, value: u32) -> (r: Word)
        requires
            old(self).wf(),
            old(self)@.int32_constant(ty, value).0.fits(),
        ensures
            (final(self)@, r) == old(self)@.int32_constant(ty, value),
            final(self).wf(),
    {
        let id: Word = emit::constant_u32(&mut self.builder, ty, value);
        self.next_id = id + 1;
        self.constants.push((id, value as u64));
        proof {
            lemma_pairs_map_push(old(self).constants@, (id, value as u64));
            let inst = Inst {
                op: Op::Constant,
                result_type: Some(ty),
                result_id: Some(id),
                operands: seq![Operand::Int32(value)],
            };
            lemma_add_constant(old(self)@, self@, inst);
        }
        id
    }

    /// Emits a 64-bit integer constant of type `ty`.
    pub fn emit_constant_u64(&mut self, ty: Word, value: u64) -> (r: Word)
        requires
            old(self).wf(),
            old(self)@.int64_constant(ty, value).0.fits(),
        ensures
            (final(self)@, r) == old(self)@.int64_constant(ty, value),
            final(self).wf(),
    {
        let id: Word = emit::constant_u64(&mut self.builder, ty, value);
        self.next_id = id + 1;
        self.constants.push((id, value));
        proof {
            lemma_pairs_map_push(old(self).constants@, (id, value));
            let inst = Inst {
                op: Op::Constant,
                result_type: Some(ty),
                result_id: Some(id),
                operands: seq![Operand::Int64(value)],
            };
            lemma_add_constant(old(self)@, self@, inst);
        }
        id
    }

    /// Emits a 32-bit float constant of type `ty`, given by its bit pattern.
    pub fn emit_constant_float32(&mut self, ty: Word, bits: u32) -> (r: Word)
        requires
            old(self).wf(),
            old(self)@.float32_constant(ty, bits).0.fits(),
        ensures
            (final(self)@, r) == old(self)@.float32_constant(ty, bits),
            final(self).wf(),
    {
        let id: Word = emit::constant_float32(&mut self.builder, ty, bits);
        self.next_id = id + 1;
        proof {
            let inst = Inst {
                op: Op::Constant,
                result_type: Some(ty),
                result_id: Some(id),
                operands: seq![Operand::Float32(bits)],
            };
            lemma_add_constant(old(self)@, self@, inst);
        }
        id
    }

    /// Emits a 64-bit float constant of type `ty`, given by its bit pattern.
    pub fn emit_constant_float64(&mut self, ty: Word, bits: u64) -> (r: Word)
        requires
            old(self).wf(),
            old(self)@.float64_constant(ty, bits).0.fits(),
        ensures
            (final(self)@, r) == old(self)@.float64_constant(ty, bits),
            final(self).wf(),
    {
        let id: Word = emit::constant_float64(&mut self.builder, ty, bits);
        self.next_id = id + 1;
        proof {
            let inst = Inst {
                op: Op::Constant,
                result_type: Some(ty),
                result_id: Some(id),
                operands: seq![Operand::Float64(bits)],
            };
            lemma_add_constant(old(self)@, self@, inst);
        }
        id
    }

    /// Emits a constant of type `ty` that is made of other constants.
    pub fn emit_constant_composite(&mut self, ty: Word, parts: Vec<Word>) -> (r: Word)
        requires
            old(self).wf(),
            old(self)@.composite_constant(ty, parts@).0.fits(),
        ensures
            (final(self)@, r) == old(self)@.composite_constant(ty, parts@),
            final(self).wf(),
    {
        let ghost constituents = parts@;
        let id: Word = emit::constant_composite(&mut self.builder, ty, parts);
        self.next_id = id + 1;
        proof {
            let inst = Inst {
                op: Op::ConstantComposite,
                result_type: Some(ty),
                result_id: Some(id),
                operands: emit::id_operands(constituents),
            };
            lemma_add_constant(old(self)@, self@, inst);
        }
        id
    }

    /// Begins a function, and a block in it.
    pub(crate) fn begin_function_block(&mut self, return_type: Word, function_type: Word)
        requires
            old(self).wf(),
            old(self)@.module.function is None,
            old(self)@.module.next_id + 2 <= Word::MAX,
        ensures
            final(self)@ == old(self)@.function_block(return_type, function_type),
            final(self).wf(),
    {
        let _function = emit::begin_function(&mut self.builder, return_type, function_type);
        let _label = emit::begin_block(&mut self.builder);
        self.next_id = self.next_id + 2;
        proof {
            lemma_same_globals(old(self)@, self@);
        }
    }

    /// Appends an instruction that puts a composite value together to the selected block.
    pub(crate) fn emit_composite_construct(&mut self, ty: Word, parts: Vec<Word>) -> (r: Word)
        requires
            old(self).wf(),
            old(self)@.module.block is Some,
            old(self)@.module.next_id < Word::MAX,
        ensures
            (final(self)@, r) == old(self)@.block_inst(
                Op::CompositeConstruct,
                ty,
                emit::id_operands(parts@),
            ),
            final(self).wf(),
    {
        let id: Word = emit::composite_construct(&mut self.builder, ty, parts).unwrap();
        self.next_id = id + 1;
        proof {
            lemma_same_globals(old(self)@, self@);
        }
        id
    }

    /// Appends an instruction that reinterprets a value to the selected block.
    pub(crate) fn emit_bitcast(&mut self, ty: Word, operand: Word) -> (r: Word)
        requires
            old(self).wf(),
            old(self)@.module.block is Some,
            old(self)@.module.next_id < Word::MAX,
        ensures
            (final(self)@, r) == old(self)@.block_inst(
                Op::Bitcast,
                ty,
                seq![Operand::Id(operand)],
            ),
            final(self).wf(),
    {
        let id: Word = emit::bitcast(&mut self.builder, ty, operand).unwrap();
        self.next_id = id + 1;
        proof {
            lemma_same_globals(old(self)@, self@);
        }
        id
    }

    /// Emits a `u32` constant, whose type is defined first.
    pub fn constant_u32(&mut self, value: u32) -> (r: SpirvValue)
        requires
            old(self).wf(),
            old(self)@.u32_constant(value).0.fits(),
        ensures
            (final(self)@, r.def) == old(self)@.u32_constant(value),
            r.ty == old(self)@.define(Ty::Integer(32, false)).1,
            final(self).wf(),
    {
        let ty: Word = SpirvType::Integer(32, false).def(self);
        let def: Word = self.emit_constant_u32(ty, value);
        SpirvValue { def, ty }
    }
}

impl SpirvType {
    /// The id of this type. The type is emitted the first time that its id is asked for,
    /// and from then on the same id is given out.
    ///
    /// No other function puts a type into the module, so the type definitions stay up to
    /// date.
    pub fn def(&self, cx: &mut CodegenCx) -> (r: Word)
        requires
            old(cx).wf(),
            old(cx)@.define(self@).0.fits(),
        ensures
            (final(cx)@, r) == old(cx)@.define(self@),
            final(cx).wf(),
    {
        if let Some(cached) = cx.cached(self) {
            return cached;
        }
        let ghost before = cx@;
        proof {
            if !(self@ is Adt) {
                lemma_undefined_not_emitted(cx@, self@);
            }
            lemma_define(cx@, self@);
        }
        let result: Word = match self {
            SpirvType::Void => emit::type_void(&mut cx.builder),
            SpirvType::Bool => emit::type_bool(&mut cx.builder),
            SpirvType::Integer(width, signedness) => emit::type_int(
                &mut cx.builder,
                *width,
                if *signedness {
                    1
                } else {
                    0
                },
            ),
            SpirvType::Float(width) => emit::type_float(&mut cx.builder, *width),
            SpirvType::Adt { name, field_types, field_offsets, field_names } => {
                // A unique struct is emitted each time, because structs with the same
                // fields can have different decorations.
                let id: Word = emit::fresh_id(&mut cx.builder);
                let result: Word = emit::type_struct_id(
                    &mut cx.builder,
                    id,
                    field_types.clone(),
                );
                if let Some(name) = name {
                    emit::name(&mut cx.builder, result, name);
                }
                if let Some(field_offsets) = field_offsets {
                    emit_offsets(&mut cx.builder, result, field_offsets);
                }
                if let Some(field_names) = field_names {
                    emit_names(&mut cx.builder, result, field_names);
                }
                result
            },
            SpirvType::Vector { element, count } => emit::type_vector(
                &mut cx.builder,
                *element,
                *count,
            ),
            SpirvType::Array { element, count } => emit::type_array(
                &mut cx.builder,
                *element,
                *count,
            ),
            SpirvType::Pointer { storage_class, pointee } => emit::type_pointer(
                &mut cx.builder,
                *storage_class,
                *pointee,
            ),
            SpirvType::Function { return_type, arguments } => emit::type_function(
                &mut cx.builder,
                *return_type,
                arguments.clone(),
            ),
        };
        cx.types.push((result, self.clone()));
        cx.next_id = result + 1;
        proof {
            let (after, id) = before.define(self@);
            let types = old(cx).types@;
            assert(result == id);
            assert(by_id(cx.types@) =~= by_id(types).push((result, self@)));
            assert(by_type(cx.types@) =~= by_type(types).push((self@, result)));
            lemma_pairs_map_push(by_id(types), (result, self@));
            lemma_pairs_map_push(by_type(types), (self@, result));
            assert(contents(cx.builder) =~= after.module);
            assert(cx@ =~= after);
        }
        result
    }
}

/// Gives each member its offset.
fn emit_offsets(b: &mut rspirv::dr::Builder, id: Word, offsets: &Vec<u32>)
    ensures
        contents(*final(b)) == (Emitted {
            annotations: contents(*old(b)).annotations + member_offset_insts(id, offsets@),
            ..contents(*old(b))
        }),
{
    for index in 0..offsets.len()
        invariant
            contents(*b) == (Emitted {
                annotations: contents(*old(b)).annotations + member_offset_insts(
                    id,
                    offsets@,
                ).take(index as int),
                ..contents(*old(b))
            }),
    {
        emit::member_decorate(b, id, index as u32, Decoration::Offset, offsets[index]);
        proof {
            let all = member_offset_insts(id, offsets@);
            assert(all.take(index + 1) =~= all.take(index as int).push(all[index as int]));
        }
        assert(contents(*b).annotations =~= contents(*old(b)).annotations + member_offset_insts(
            id,
            offsets@,
        ).take(index + 1));
    }
    assert(member_offset_insts(id, offsets@).take(offsets@.len() as int) =~= member_offset_insts(
        id,
        offsets@,
    ));
}

/// Gives each member its name.
fn emit_names(b: &mut rspirv::dr::Builder, id: Word, names: &Vec<String>)
    ensures
        contents(*final(b)) == (Emitted {
            names: contents(*old(b)).names + member_name_insts(id, texts(names@)),
            ..contents(*old(b))
        }),
{
    for index in 0..names.len()
        invariant
            contents(*b) == (Emitted {
                names: contents(*old(b)).names + member_name_insts(id, texts(names@)).take(
                    index as int,
                ),
                ..contents(*old(b))
            }),
    {
        emit::member_name(b, id, index as u32, &names[index]);
        proof {
            let all = member_name_insts(id, texts(names@));
            assert(all.take(index + 1) =~= all.take(index as int).push(all[index as int]));
        }
        assert(contents(*b).names =~= contents(*old(b)).names + member_name_insts(
            id,
            texts(names@),
        ).take(index + 1));
    }
    assert(member_name_insts(id, texts(names@)).take(names@.len() as int) =~= member_name_insts(
        id,
        texts(names@),
    ));
}

} // verus!
