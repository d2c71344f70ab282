//! Whether there are enough ids left for a translation.
//!
//! A [`Plan`] goes through a translation without emitting anything: it finds the types that
//! are there, and remembers the ids that the others would get.
use crate::check::{lemma_shapes, shape_of, shapes_of, Lowered, LoweredSignature};
use crate::codegen_cx::CodegenCx;
use crate::fn_abi::{
    check_arguments, check_signature, intern_argument, intern_arguments, intern_return,
    intern_signature, lemma_arguments_take, lemma_intern_arguments_grows, lower_argument,
};
use crate::layout::{ArgAbi, FnAbi, PassMode, Unsupported};
use crate::lower::Shape;
use crate::spirv_type::{copy_strings, SpirvType, Ty};
use crate::state::{lemma_define, lemma_u32_constant, State};
use crate::trans::{intern, intern_all, lemma_intern_all_take};
use rspirv::spirv::Word;
use vstd::pervasive::unreached;
use vstd::prelude::*;

verus! {

/// A translation that is not carried out.
struct Plan<'cx> {
    cx: &'cx CodegenCx,
    /// The types that would be defined, with their ids.
    added: Vec<(Word, SpirvType)>,
    /// The id that the next instruction would get.
    next_id: Word,
    /// The state that the translation would lead to.
    state: Ghost<State>,
}

impl<'cx> Plan<'cx> {
    /// The state that the translation would lead to.
    spec fn state(&self) -> State {
        self.state@
    }

    /// What holds of every plan: the types of that state are those of the context and those
    /// that would be defined.
    #[verifier::opaque]
    spec fn wf(&self) -> bool {
        &&& self.state().wf()
        &&& self.next_id == self.state().module.next_id
        &&& forall|ty: Ty| #[trigger]
            self.cx@.type_cache.contains_key(ty) ==> self.state().type_cache.contains_key(ty)
                && self.state().type_cache[ty] == self.cx@.type_cache[ty]
        &&& forall|i: int|
            0 <= i < self.added@.len() ==> self.state().type_cache.contains_key(
                (#[trigger] self.added@[i]).1@,
            ) && self.state().type_cache[self.added@[i].1@] == self.added@[i].0
        &&& forall|ty: Ty| #[trigger]
            self.state().type_cache.contains_key(ty) ==> self.cx@.type_cache.contains_key(ty)
                || exists|i: int| 0 <= i < self.added@.len() && (#[trigger] self.added@[i]).1@
                == ty
    }

    /// A plan that begins with a context as it is.
    fn new(cx: &'cx CodegenCx) -> (r: Plan<'cx>)
        requires
            cx.wf(),
        ensures
            r.wf(),
            r.state() == cx@,
    {
        reveal(Plan::wf);
        Plan { cx, added: Vec::new(), next_id: cx.next_id(), state: Ghost(cx@) }
    }

    /// The id that a type has or would get, if there is one left for it.
    fn define(&mut self, ty: SpirvType) -> (r: Option<Word>)
        requires
            old(self).wf(),
        ensures
            match r {
                Some(id) => final(self).wf() && (final(self).state(), id) == old(
                    self,
                ).state().define(ty@),
                None => !old(self).state().define(ty@).0.fits(),
            },
    {
        reveal(Plan::wf);
        if let Some(id) = self.cx.cached(&ty) {
            return Some(id);
        }
        for i in 0..self.added.len()
            invariant
                self == old(self),
                self.wf(),
                forall|j: int| 0 <= j < i ==> (#[trigger] self.added@[j]).1@ != ty@,
        {
            reveal(Plan::wf);
            if self.added[i].1 == ty {
                return Some(self.added[i].0);
            }
        }
        assert(!self.state().type_cache.contains_key(ty@));
        if self.next_id == Word::MAX {
            return None;
        }
        let id: Word = self.next_id;
        let ghost before = self.state();
        let ghost added = self.added@;
        proof {
            lemma_define(before, ty@);
        }
        self.next_id = id + 1;
        self.added.push((id, ty));
        self.state = Ghost(before.define(ty@).0);
        proof {
            let after = self.state();
            assert(self.added@[added.len() as int] == (id, ty));
            assert(forall|i: int| 0 <= i < added.len() ==> self.added@[i] == added[i]);
            assert forall|i: int| 0 <= i < self.added@.len() implies after.type_cache.contains_key(
                (#[trigger] self.added@[i]).1@,
            ) && after.type_cache[self.added@[i].1@] == self.added@[i].0 by {
                if i < added.len() {
                    assert(added[i].1@ != ty@);
                }
            }
            assert forall|other: Ty| #[trigger]
                after.type_cache.contains_key(other) implies self.cx@.type_cache.contains_key(other)
                || exists|i: int| 0 <= i < self.added@.len() && (#[trigger] self.added@[i]).1@
                == other by {
                if other == ty@ {
                    assert(self.added@[added.len() as int].1@ == other);
                } else if !self.cx@.type_cache.contains_key(other) {
                    let i = choose|i: int| 0 <= i < added.len() && (#[trigger] added[i]).1@ == other;
                    assert(self.added@[i].1@ == other);
                }
            }
        }
        Some(id)
    }

    /// The id that a `u32` constant would get, if there is one left for it.
    fn constant(&mut self, value: u32) -> (r: Option<Word>)
        requires
            old(self).wf(),
        ensures
            match r {
                Some(id) => final(self).wf() && (final(self).state(), id) == old(
                    self,
                ).state().u32_constant(value),
                None => !old(self).state().u32_constant(value).0.fits(),
            },
    {
        reveal(Plan::wf);
        if self.define(SpirvType::Integer(32, false)).is_none() || self.next_id == Word::MAX {
            return None;
        }
        let id: Word = self.next_id;
        let ghost typed = *self;
        proof {
            lemma_u32_constant(old(self).state(), value);
        }
        self.next_id = id + 1;
        self.state = Ghost(old(self).state().u32_constant(value).0);
        proof {
            assert(typed.wf());
            assert(self.added == typed.added);
            assert(self.state().type_cache == typed.state().type_cache);
            assert forall|ty: Ty| #[trigger]
                self.state().type_cache.contains_key(ty) implies self.cx@.type_cache.contains_key(ty)
                || exists|i: int| 0 <= i < self.added@.len() && (#[trigger] self.added@[i]).1@
                == ty by {
                assert(typed.state().type_cache.contains_key(ty));
            }
        }
        Some(id)
    }

    /// The id that a type has or would get, with everything that it is made of.
    fn type_id(&mut self, ty: &Lowered) -> (r: Option<Word>)
        requires
            old(self).wf(),
        ensures
            match r {
                Some(id) => final(self).wf() && (final(self).state(), id) == intern(
                    old(self).state(),
                    ty@,
                ),
                None => !intern(old(self).state(), ty@).0.fits(),
            },
        decreases *ty, 1nat,
    {
        match ty {
            Lowered::Void => self.define(SpirvType::Void),
            Lowered::Bool => self.define(SpirvType::Bool),
            Lowered::Integer(width, signedness) => self.define(
                SpirvType::Integer(*width, *signedness),
            ),
            Lowered::Float(width) => self.define(SpirvType::Float(*width)),
            Lowered::Adt { .. } => match self.struct_id(ty) {
                Some((id, _)) => Some(id),
                None => None,
            },
            Lowered::Vector { element, count } => {
                let element: Word = match self.type_id(element) {
                    Some(id) => id,
                    None => {
                        return None;
                    },
                };
                self.define(SpirvType::Vector { element, count: *count })
            },
            Lowered::Array { element, count } => {
                let element: Word = match self.type_id(element) {
                    Some(id) => id,
                    None => {
                        return None;
                    },
                };
                let count: Word = match self.constant(*count) {
                    Some(id) => id,
                    None => {
                        return None;
                    },
                };
                self.define(SpirvType::Array { element, count })
            },
            Lowered::Pointer { storage_class, pointee } => {
                let pointee: Word = match self.type_id(pointee) {
                    Some(id) => id,
                    None => {
                        return None;
                    },
                };
                self.define(SpirvType::Pointer { storage_class: *storage_class, pointee })
            },
        }
    }

    /// The id that a struct has or would get, and those of its fields.
    fn struct_id(&mut self, ty: &Lowered) -> (r: Option<(Word, Vec<Word>)>)
        requires
            old(self).wf(),
            ty is Adt,
        ensures
            match r {
                Some((id, field_types)) => final(self).wf() && (final(self).state(), id) == intern(
                    old(self).state(),
                    ty@,
                ) && final(self).state().type_defs[id]->field_types == field_types@,
                None => !intern(old(self).state(), ty@).0.fits(),
            },
        decreases *ty, 0nat,
    {
        match ty {
            Lowered::Adt { name, fields, field_offsets, field_names } => {
                let field_types: Vec<Word> = match self.type_ids(fields) {
                    Some(field_types) => field_types,
                    None => {
                        return None;
                    },
                };
                let adt = SpirvType::Adt {
                    name: match name {
                        Some(name) => Some(name.clone()),
                        None => None,
                    },
                    field_types: field_types.clone(),
                    field_offsets: match field_offsets {
                        Some(field_offsets) => Some(field_offsets.clone()),
                        None => None,
                    },
                    field_names: match field_names {
                        Some(field_names) => Some(copy_strings(field_names)),
                        None => None,
                    },
                };
                let ghost before = self.state();
                let ghost ty = adt@;
                reveal(Plan::wf);
                match self.define(adt) {
                    Some(id) => {
                        proof {
                            lemma_define(before, ty);
                        }
                        Some((id, field_types))
                    },
                    None => None,
                }
            },
            _ => unreached(),
        }
    }

    /// The ids that several types have or would get.
    fn type_ids(&mut self, types: &Vec<Lowered>) -> (r: Option<Vec<Word>>)
        requires
            old(self).wf(),
        ensures
            match r {
                Some(ids) => final(self).wf() && (final(self).state(), ids@) == intern_all(
                    old(self).state(),
                    shapes_of(types@),
                ),
                None => !intern_all(old(self).state(), shapes_of(types@)).0.fits(),
            },
        decreases *types, 2nat,
    {
        let ghost s = self.state();
        let ghost shapes = shapes_of(types@);
        proof {
            lemma_shapes(types@);
            assert(shapes.take(0) =~= seq![]);
        }
        let mut ids: Vec<Word> = Vec::new();
        for i in 0..types.len()
            invariant
                self.wf(),
                s == old(self).state(),
                shapes.len() == types@.len(),
                shapes == shapes_of(types@),
                forall|j: int|
                    0 <= j < types@.len() ==> #[trigger] shapes_of(types@)[j] == shape_of(
                        types@[j],
                    ),
                (self.state(), ids@) == intern_all(s, shapes.take(i as int)),
        {
            proof {
                lemma_intern_all_take(s, shapes, i as int);
                lemma_intern_all_take(s, shapes, i + 1);
                assert(shapes[i as int] == types@[i as int]@);
            }
            match self.type_id(&types[i]) {
                Some(id) => {
                    ids.push(id);
                },
                None => {
                    return None;
                },
            }
        }
        assert(shapes.take(types@.len() as int) =~= shapes);
        Some(ids)
    }

    /// The ids of the types that an argument would be passed as.
    fn argument(&mut self, mode: PassMode, ty: &Lowered, Ghost(arg): Ghost<ArgAbi>) -> (r: Option<
        Vec<Word>,
    >)
        requires
            old(self).wf(),
            mode == arg.mode,
            lower_argument(arg) == Ok::<Shape, Unsupported>(ty@),
        ensures
            match r {
                Some(ids) => final(self).wf() && (final(self).state(), ids@) == intern_argument(
                    old(self).state(),
                    arg,
                ),
                None => !intern_argument(old(self).state(), arg).0.fits(),
            },
    {
        if mode == PassMode::Pair {
            match self.struct_id(ty) {
                Some((_, field_types)) => Some(field_types),
                None => None,
            }
        } else {
            match self.type_id(ty) {
                Some(id) => {
                    let mut ids: Vec<Word> = Vec::new();
                    ids.push(id);
                    assert(ids@ =~= seq![id]);
                    Some(ids)
                },
                None => None,
            }
        }
    }

    /// Whether there are enough ids left for a signature.
    fn signature(&mut self, fn_abi: &FnAbi, types: &LoweredSignature) -> (r: bool)
        requires
            old(self).wf(),
            check_signature(*fn_abi) is Ok,
            types.is_for(*fn_abi),
        ensures
            r == intern_signature(old(self).state(), *fn_abi).0.fits(),
    {
        let ghost s = self.state();
        let ghost (t, ret, first) = intern_return(s, fn_abi.ret);
        proof {
            lemma_intern_arguments_grows(t, fn_abi.args@);
        }
        let mut return_type: Word = match self.type_id(&types.ret) {
            Some(id) => id,
            None => {
                return false;
            },
        };
        let mut arguments: Vec<Word> = Vec::new();
        if fn_abi.ret.mode == PassMode::Indirect {
            arguments.push(return_type);
            return_type = match self.define(SpirvType::Void) {
                Some(void) => void,
                None => {
                    return false;
                },
            };
        }
        assert(arguments@ =~= first);
        assert((self.state(), return_type) == (t, ret));
        assert(fn_abi.args@.take(0) =~= seq![]);
        assert(first + Seq::<Word>::empty() =~= first);
        for i in 0..fn_abi.args.len()
            invariant
                self.wf(),
                s == old(self).state(),
                check_arguments(fn_abi.args@) is Ok,
                types.is_for(*fn_abi),
                intern_arguments(t, fn_abi.args@).0.module.next_id <= intern_signature(
                    s,
                    *fn_abi,
                ).0.module.next_id,
                self.state() == intern_arguments(t, fn_abi.args@.take(i as int)).0,
                arguments@ == first + intern_arguments(t, fn_abi.args@.take(i as int)).1,
        {
            proof {
                lemma_arguments_take(t, fn_abi.args@, i as int);
                lemma_arguments_take(t, fn_abi.args@, i + 1);
                assert(lower_argument(fn_abi.args@[i as int]) is Ok);
            }
            let ghost before = arguments@;
            let mode: PassMode = fn_abi.args[i].mode;
            match self.argument(mode, &types.args[i], Ghost(fn_abi.args@[i as int])) {
                Some(mut ids) => {
                    let ghost more = ids@;
                    arguments.append(&mut ids);
                    assert(arguments@ =~= before + more);
                    assert(arguments@ =~= first + intern_arguments(
                        t,
                        fn_abi.args@.take(i + 1),
                    ).1);
                },
                None => {
                    return false;
                },
            }
        }
        assert(fn_abi.args@.take(fn_abi.args@.len() as int) =~= fn_abi.args@);
        reveal(Plan::wf);
        self.define(SpirvType::Function { return_type, arguments }).is_some()
    }
}

/// Whether there are enough ids left to define a type and everything that it is made of.
pub fn type_fits(cx: &CodegenCx, ty: &Lowered) -> (r: bool)
    requires
        cx.wf(),
    ensures
        r == intern(cx@, ty@).0.fits(),
{
    reveal(Plan::wf);
    let mut plan: Plan = Plan::new(cx);
    plan.type_id(ty).is_some()
}

/// Whether there are enough ids left to define the types of a signature.
pub fn signature_fits(cx: &CodegenCx, fn_abi: &FnAbi, types: &LoweredSignature) -> (r: bool)
    requires
        cx.wf(),
        check_signature(*fn_abi) is Ok,
        types.is_for(*fn_abi),
    ensures
        r == intern_signature(cx@, *fn_abi).0.fits(),
{
    let mut plan: Plan = Plan::new(cx);
    plan.signature(fn_abi, types)
}

} // verus!
