//! What the crate asks of `rspirv::dr::Builder`.
//!
//! The builder is opaque here. Its contents are named section by section, and each
//! wrapper says what one builder method does to them.
use crate::storage::StorageClass;
use rspirv::spirv::Word;
use vstd::prelude::*;

verus! {

/// The module under construction.
#[verifier::external_type_specification]
#[verifier::external_body]
pub struct ExBuilder(rspirv::dr::Builder);

/// Why the builder refused an instruction.
#[verifier::external_type_specification]
#[verifier::external_body]
pub struct ExError(rspirv::dr::Error);

/// Opcodes of the instructions that the crate emits.
pub enum Op {
    Name,
    MemberName,
    TypeVoid,
    TypeBool,
    TypeInt,
    TypeFloat,
    TypeVector,
    TypeArray,
    TypeStruct,
    TypePointer,
    TypeFunction,
    Constant,
    ConstantComposite,
    MemberDecorate,
    Function,
    Label,
    CompositeConstruct,
    Bitcast,
}

/// Decorations that the crate puts on struct members.
#[derive(Clone, Copy)]
pub enum Decoration {
    Offset,
}

/// One operand of an instruction. A float literal is given by its bit pattern.
pub enum Operand {
    Id(Word),
    Int32(u32),
    Int64(u64),
    Float32(u32),
    Float64(u64),
    Text(Seq<char>),
    Class(StorageClass),
    Decoration(Decoration),
    /// No function control.
    NoControl,
}

/// One instruction.
#[verifier::ext_equal]
pub struct Inst {
    pub op: Op,
    pub result_type: Option<Word>,
    pub result_id: Option<Word>,
    pub operands: Seq<Operand>,
}

/// Everything that a builder holds and the crate speaks of.
#[verifier::ext_equal]
pub struct Emitted {
    /// Types and constants (`types_global_values`).
    pub globals: Seq<Inst>,
    /// Debug names (`debug_names`).
    pub names: Seq<Inst>,
    /// Decorations (`annotations`).
    pub annotations: Seq<Inst>,
    /// Whether a function is selected (`selected_function`).
    pub in_function: bool,
    /// Whether a block is selected (`selected_block`).
    pub in_block: bool,
    /// The instruction that begins the selected function, if there is one.
    pub function: Option<Inst>,
    /// The label of the selected block, if there is one.
    pub label: Option<Inst>,
    /// The instructions of the selected block of the selected function, if there is one.
    pub block: Option<Seq<Inst>>,
    /// The id that the next instruction gets.
    pub next_id: nat,
}

/// The types and constants of a builder's module, in order.
pub uninterp spec fn global_insts(b: rspirv::dr::Builder) -> Seq<Inst>;

/// The debug names of a builder's module, in order.
pub uninterp spec fn name_insts(b: rspirv::dr::Builder) -> Seq<Inst>;

/// The annotations of a builder's module, in order.
pub uninterp spec fn annotation_insts(b: rspirv::dr::Builder) -> Seq<Inst>;

/// Whether a function is selected in a builder.
pub uninterp spec fn function_selected(b: rspirv::dr::Builder) -> bool;

/// Whether a block is selected in a builder. A builder can keep a block selected that belongs
/// to no selected function.
pub uninterp spec fn block_selected(b: rspirv::dr::Builder) -> bool;

/// The instruction that begins the selected function of a builder, if there is one.
pub uninterp spec fn function_inst(b: rspirv::dr::Builder) -> Option<Inst>;

/// The label of the selected block of the selected function of a builder, if there is one.
pub uninterp spec fn label_inst(b: rspirv::dr::Builder) -> Option<Inst>;

/// The instructions of the selected block of the selected function of a builder, if there is
/// such a block.
pub uninterp spec fn block_insts(b: rspirv::dr::Builder) -> Option<Seq<Inst>>;

/// The next unused id of a builder.
pub uninterp spec fn unused_id(b: rspirv::dr::Builder) -> nat;

/// The contents of a builder, all sections together.
pub open spec fn contents(b: rspirv::dr::Builder) -> Emitted {
    Emitted {
        globals: global_insts(b),
        names: name_insts(b),
        annotations: annotation_insts(b),
        in_function: function_selected(b),
        in_block: block_selected(b),
        function: function_inst(b),
        label: label_inst(b),
        block: block_insts(b),
        next_id: unused_id(b),
    }
}

/// The result id of the first instruction with this opcode and these operands.
pub open spec fn find_identical(
    globals: Seq<Inst>,
    op: Op,
    operands: Seq<Operand>,
) -> Option<Word>
    decreases globals.len(),
{
    if globals.len() == 0 {
        None
    } else if globals[0].op == op && globals[0].operands == operands && globals[0].result_id
        is Some {
        globals[0].result_id
    } else {
        find_identical(globals.drop_first(), op, operands)
    }
}

impl Emitted {
    /// The contents and the new id after one more type or constant.
    pub open spec fn add_global(
        self,
        op: Op,
        result_type: Option<Word>,
        operands: Seq<Operand>,
    ) -> (Emitted, Word) {
        let id = self.next_id as Word;
        (
            Emitted {
                globals: self.globals.push(
                    Inst { op, result_type, result_id: Some(id), operands },
                ),
                next_id: self.next_id + 1,
                ..self
            },
            id,
        )
    }

    /// The contents and the type's id after asking for a type: an identical type that
    /// is already there is used again.
    pub open spec fn add_type(self, op: Op, operands: Seq<Operand>) -> (Emitted, Word) {
        match find_identical(self.globals, op, operands) {
            Some(id) => (self, id),
            None => self.add_global(op, None, operands),
        }
    }

    /// Whether asking for a type leaves an id to hand out, if one is needed.
    pub open spec fn can_add_type(self, op: Op, operands: Seq<Operand>) -> bool {
        find_identical(self.globals, op, operands) is Some || self.next_id < Word::MAX
    }

    /// The contents and the new id after one more instruction in the selected block.
    pub open spec fn add_to_block(
        self,
        op: Op,
        result_type: Word,
        operands: Seq<Operand>,
    ) -> (Emitted, Word)
        recommends
            self.block is Some,
    {
        let id = self.next_id as Word;
        (
            Emitted {
                block: Some(
                    self.block->0.push(
                        Inst { op, result_type: Some(result_type), result_id: Some(id), operands },
                    ),
                ),
                next_id: self.next_id + 1,
                ..self
            },
            id,
        )
    }
}

/// Ids as operands.
pub open spec fn id_operands(ids: Seq<Word>) -> Seq<Operand> {
    ids.map_values(|id: Word| Operand::Id(id))
}

/// `Builder::new`: an empty module, nothing selected, ids from 1 on.
#[verifier::external_body]
pub(crate) fn new_builder() -> (r: rspirv::dr::Builder)
    ensures
        global_insts(r) == Seq::<Inst>::empty(),
        name_insts(r) == Seq::<Inst>::empty(),
        annotation_insts(r) == Seq::<Inst>::empty(),
        !function_selected(r),
        !block_selected(r),
        function_inst(r) is None,
        label_inst(r) is None,
        block_insts(r) is None,
        unused_id(r) == 1,
{
    rspirv::dr::Builder::new()
}

/// `Builder::id`: hands out the next unused id and changes nothing else.
#[verifier::external_body]
pub(crate) fn fresh_id(b: &mut rspirv::dr::Builder) -> (r: Word)
    requires
        contents(*old(b)).next_id < Word::MAX,
    ensures
        r == contents(*old(b)).next_id,
        contents(*final(b)) == (Emitted {
            next_id: contents(*old(b)).next_id + 1,
            ..contents(*old(b))
        }),
{
    b.id()
}

/// `Builder::type_void`: appends `OpTypeVoid` unless it is there already.
#[verifier::external_body]
pub(crate) fn type_void(b: &mut rspirv::dr::Builder) -> (r: Word)
    requires
        contents(*old(b)).can_add_type(Op::TypeVoid, seq![]),
    ensures
        (contents(*final(b)), r) == contents(*old(b)).add_type(Op::TypeVoid, seq![]),
{
    b.type_void()
}

/// `Builder::type_bool`: appends `OpTypeBool` unless it is there already.
#[verifier::external_body]
pub(crate) fn type_bool(b: &mut rspirv::dr::Builder) -> (r: Word)
    requires
        contents(*old(b)).can_add_type(Op::TypeBool, seq![]),
    ensures
        (contents(*final(b)), r) == contents(*old(b)).add_type(Op::TypeBool, seq![]),
{
    b.type_bool()
}

/// `Builder::type_int`: appends `OpTypeInt` unless an identical one is there already.
#[verifier::external_body]
pub(crate) fn type_int(b: &mut rspirv::dr::Builder, width: u32, signedness: u32) -> (r: Word)
    requires
        contents(*old(b)).can_add_type(
            Op::TypeInt,
            seq![Operand::Int32(width), Operand::Int32(signedness)],
        ),
    ensures
        (contents(*final(b)), r) == contents(*old(b)).add_type(
            Op::TypeInt,
            seq![Operand::Int32(width), Operand::Int32(signedness)],
        ),
{
    b.type_int(width, signedness)
}

/// `Builder::type_float`: appends `OpTypeFloat` unless an identical one is there
/// already.
#[verifier::external_body]
pub(crate) fn type_float(b: &mut rspirv::dr::Builder, width: u32) -> (r: Word)
    requires
        contents(*old(b)).can_add_type(Op::TypeFloat, seq![Operand::Int32(width)]),
    ensures
        (contents(*final(b)), r) == contents(*old(b)).add_type(
            Op::TypeFloat,
            seq![Operand::Int32(width)],
        ),
{
    b.type_float(width)
}

/// `Builder::type_struct_id` with an id: appends `OpTypeStruct` under that id, whether
/// or not an identical one is there.
#[verifier::external_body]
pub(crate) fn type_struct_id(b: &mut rspirv::dr::Builder, id: Word, members: Vec<Word>) -> (r: Word)
    ensures
        r == id,
        contents(*final(b)) == (Emitted {
            globals: contents(*old(b)).globals.push(
                Inst {
                    op: Op::TypeStruct,
                    result_type: None,
                    result_id: Some(id),
                    operands: id_operands(members@),
                },
            ),
            ..contents(*old(b))
        }),
{
    b.type_struct_id(Some(id), members)
}

/// `Builder::type_vector`: appends `OpTypeVector` unless an identical one is there
/// already. The count is a literal.
#[verifier::external_body]
pub(crate) fn type_vector(b: &mut rspirv::dr::Builder, element: Word, count: u32) -> (r: Word)
    requires
        contents(*old(b)).can_add_type(
            Op::TypeVector,
            seq![Operand::Id(element), Operand::Int32(count)],
        ),
    ensures
        (contents(*final(b)), r) == contents(*old(b)).add_type(
            Op::TypeVector,
            seq![Operand::Id(element), Operand::Int32(count)],
        ),
{
    b.type_vector(element, count)
}

/// `Builder::type_array`: appends `OpTypeArray` unless an identical one is there
/// already. The count is the id of a constant.
#[verifier::external_body]
pub(crate) fn type_array(b: &mut rspirv::dr::Builder, element: Word, count: Word) -> (r: Word)
    requires
        contents(*old(b)).can_add_type(
            Op::TypeArray,
            seq![Operand::Id(element), Operand::Id(count)],
        ),
    ensures
        (contents(*final(b)), r) == contents(*old(b)).add_type(
            Op::TypeArray,
            seq![Operand::Id(element), Operand::Id(count)],
        ),
{
    b.type_array(element, count)
}

/// `Builder::type_pointer` without an id: appends `OpTypePointer` unless an identical
/// one is there already. The storage class goes over by its name, which
/// `rspirv::spirv::StorageClass` shares with [`StorageClass`].
#[verifier::external_body]
pub(crate) fn type_pointer(
    b: &mut rspirv::dr::Builder,
    class: StorageClass,
    pointee: Word,
) -> (r: Word)
    requires
        contents(*old(b)).can_add_type(
            Op::TypePointer,
            seq![Operand::Class(class), Operand::Id(pointee)],
        ),
    ensures
        (contents(*final(b)), r) == contents(*old(b)).add_type(
            Op::TypePointer,
            seq![Operand::Class(class), Operand::Id(pointee)],
        ),
{
    b.type_pointer(None, format!("{:?}", class).parse().unwrap(), pointee)
}

/// `Builder::type_function`: appends `OpTypeFunction` unless an identical one is there
/// already.
#[verifier::external_body]
pub(crate) fn type_function(
    b: &mut rspirv::dr::Builder,
    return_type: Word,
    arguments: Vec<Word>,
) -> (r: Word)
    requires
        contents(*old(b)).can_add_type(
            Op::TypeFunction,
            seq![Operand::Id(return_type)] + id_operands(arguments@),
        ),
    ensures
        (contents(*final(b)), r) == contents(*old(b)).add_type(
            Op::TypeFunction,
            seq![Operand::Id(return_type)] + id_operands(arguments@),
        ),
{
    b.type_function(return_type, arguments)
}

/// `Builder::name`: appends `OpName`.
#[verifier::external_body]
pub(crate) fn name(b: &mut rspirv::dr::Builder, target: Word, text: &str)
    ensures
        contents(*final(b)) == (Emitted {
            names: contents(*old(b)).names.push(
                Inst {
                    op: Op::Name,
                    result_type: None,
                    result_id: None,
                    operands: seq![Operand::Id(target), Operand::Text(text@)],
                },
            ),
            ..contents(*old(b))
        }),
{
    b.name(target, text)
}

/// `Builder::member_name`: appends `OpMemberName`.
#[verifier::external_body]
pub(crate) fn member_name(b: &mut rspirv::dr::Builder, target: Word, member: u32, text: &str)
    ensures
        contents(*final(b)) == (Emitted {
            names: contents(*old(b)).names.push(
                Inst {
                    op: Op::MemberName,
                    result_type: None,
                    result_id: None,
                    operands: seq![
                        Operand::Id(target),
                        Operand::Int32(member),
                        Operand::Text(text@),
                    ],
                },
            ),
            ..contents(*old(b))
        }),
{
    b.member_name(target, member, text)
}

/// `Builder::member_decorate` with one literal: appends `OpMemberDecorate`.
#[verifier::external_body]
pub(crate) fn member_decorate(
    b: &mut rspirv::dr::Builder,
    target: Word,
    member: u32,
    decoration: Decoration,
    literal: u32,
)
    ensures
        contents(*final(b)) == (Emitted {
            annotations: contents(*old(b)).annotations.push(
                Inst {
                    op: Op::MemberDecorate,
                    result_type: None,
                    result_id: None,
                    operands: seq![
                        Operand::Id(target),
                        Operand::Int32(member),
                        Operand::Decoration(decoration),
                        Operand::Int32(literal),
                    ],
                },
            ),
            ..contents(*old(b))
        }),
{
    let decoration = match decoration {
        Decoration::Offset => rspirv::spirv::Decoration::Offset,
    };
    b.member_decorate(target, member, decoration, vec![rspirv::dr::Operand::LiteralInt32(literal)])
}

/// `Builder::constant_u32`: appends `OpConstant` with a 32-bit integer literal.
#[verifier::external_body]
pub(crate) fn constant_u32(b: &mut rspirv::dr::Builder, ty: Word, value: u32) -> (r: Word)
    requires
        contents(*old(b)).next_id < Word::MAX,
    ensures
        (contents(*final(b)), r) == contents(*old(b)).add_global(
            Op::Constant,
            Some(ty),
            seq![Operand::Int32(value)],
        ),
{
    b.constant_u32(ty, value)
}

/// `Builder::constant_u64`: appends `OpConstant` with a 64-bit integer literal.
#[verifier::external_body]
pub(crate) fn constant_u64(b: &mut rspirv::dr::Builder, ty: Word, value: u64) -> (r: Word)
    requires
        contents(*old(b)).next_id < Word::MAX,
    ensures
        (contents(*final(b)), r) == contents(*old(b)).add_global(
            Op::Constant,
            Some(ty),
            seq![Operand::Int64(value)],
        ),
{
    b.constant_u64(ty, value)
}

/// `Builder::constant_f32`: appends `OpConstant` with the 32-bit float literal that has
/// the bit pattern `bits`, as `rspirv::binary::Decoder::float32` reads it from a word.
#[verifier::external_body]
pub(crate) fn constant_float32(b: &mut rspirv::dr::Builder, ty: Word, bits: u32) -> (r: Word)
    requires
        contents(*old(b)).next_id < Word::MAX,
    ensures
        (contents(*final(b)), r) == contents(*old(b)).add_global(
            Op::Constant,
            Some(ty),
            seq![Operand::Float32(bits)],
        ),
{
    b.constant_f32(ty, rspirv::binary::Decoder::new(&bits.to_le_bytes()).float32().unwrap())
}

/// `Builder::constant_f64`: appends `OpConstant` with the 64-bit float literal that has
/// the bit pattern `bits`, as `rspirv::binary::Decoder::float64` reads it from two words,
/// the low one first.
#[verifier::external_body]
pub(crate) fn constant_float64(b: &mut rspirv::dr::Builder, ty: Word, bits: u64) -> (r: Word)
    requires
        contents(*old(b)).next_id < Word::MAX,
    ensures
        (contents(*final(b)), r) == contents(*old(b)).add_global(
            Op::Constant,
            Some(ty),
            seq![Operand::Float64(bits)],
        ),
{
    b.constant_f64(ty, rspirv::binary::Decoder::new(&bits.to_le_bytes()).float64().unwrap())
}

/// `Builder::constant_composite`: appends `OpConstantComposite`.
#[verifier::external_body]
pub(crate) fn constant_composite(
    b: &mut rspirv::dr::Builder,
    ty: Word,
    parts: Vec<Word>,
) -> (r: Word)
    requires
        contents(*old(b)).next_id < Word::MAX,
    ensures
        (contents(*final(b)), r) == contents(*old(b)).add_global(
            Op::ConstantComposite,
            Some(ty),
            id_operands(parts@),
        ),
{
    b.constant_composite(ty, parts)
}

/// `Builder::begin_function` with no function control and an id of its own: selects a
/// new function that begins with `OpFunction`, unless a function is selected, in which case
/// nothing changes. No block is selected, so the new function has no selected block either.
#[verifier::external_body]
pub(crate) fn begin_function(
    b: &mut rspirv::dr::Builder,
    return_type: Word,
    function_type: Word,
) -> (r: Result<Word, rspirv::dr::Error>)
    requires
        contents(*old(b)).next_id < Word::MAX,
        !contents(*old(b)).in_block,
    ensures
        contents(*old(b)).in_function ==> r is Err && contents(*final(b)) == contents(*old(b)),
        !contents(*old(b)).in_function ==> r is Ok && r->Ok_0 == contents(*old(b)).next_id
            && contents(*final(b)) == (Emitted {
            in_function: true,
            function: Some(
                Inst {
                    op: Op::Function,
                    result_type: Some(return_type),
                    result_id: Some(r->Ok_0),
                    operands: seq![Operand::NoControl, Operand::Id(function_type)],
                },
            ),
            next_id: contents(*old(b)).next_id + 1,
            ..contents(*old(b))
        }),
{
    b.begin_function(return_type, None, rspirv::spirv::FunctionControl::NONE, function_type)
}

/// `Builder::begin_block` with a label of its own, in a function that is there and selected:
/// selects a new, empty block in it, which begins with `OpLabel`. With a block selected,
/// nothing changes.
#[verifier::external_body]
pub(crate) fn begin_block(b: &mut rspirv::dr::Builder) -> (r: Result<Word, rspirv::dr::Error>)
    requires
        contents(*old(b)).next_id < Word::MAX,
        contents(*old(b)).function is Some,
    ensures
        contents(*old(b)).in_block ==> r is Err && contents(*final(b)) == contents(*old(b)),
        !contents(*old(b)).in_block ==> r is Ok && r->Ok_0 == contents(*old(b)).next_id
            && contents(*final(b)) == (Emitted {
            in_block: true,
            label: Some(
                Inst {
                    op: Op::Label,
                    result_type: None,
                    result_id: Some(r->Ok_0),
                    operands: seq![],
                },
            ),
            block: Some(Seq::empty()),
            next_id: contents(*old(b)).next_id + 1,
            ..contents(*old(b))
        }),
{
    b.begin_block(None)
}

/// `Builder::composite_construct` with a result id of its own, with a block to append to:
/// appends `OpCompositeConstruct` to the selected block.
#[verifier::external_body]
pub(crate) fn composite_construct(
    b: &mut rspirv::dr::Builder,
    ty: Word,
    parts: Vec<Word>,
) -> (r: Result<Word, rspirv::dr::Error>)
    requires
        contents(*old(b)).next_id < Word::MAX,
        contents(*old(b)).block is Some,
    ensures
        r is Ok,
        (contents(*final(b)), r->Ok_0) == contents(*old(b)).add_to_block(
            Op::CompositeConstruct,
            ty,
            id_operands(parts@),
        ),
{
    b.composite_construct(ty, None, parts)
}

/// `Builder::bitcast` with a result id of its own, with a block to append to: appends
/// `OpBitcast` to the selected block.
#[verifier::external_body]
pub(crate) fn bitcast(
    b: &mut rspirv::dr::Builder,
    ty: Word,
    operand: Word,
) -> (r: Result<Word, rspirv::dr::Error>)
    requires
        contents(*old(b)).next_id < Word::MAX,
        contents(*old(b)).block is Some,
    ensures
        r is Ok,
        (contents(*final(b)), r->Ok_0) == contents(*old(b)).add_to_block(
            Op::Bitcast,
            ty,
            seq![Operand::Id(operand)],
        ),
{
    b.bitcast(ty, None, operand)
}

} // verus!
