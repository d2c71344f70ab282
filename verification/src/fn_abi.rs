//! Translation of function signatures.
use crate::codegen_cx::CodegenCx;
use crate::layout::{ArgAbi, FnAbi, PassMode, Unsupported};
use crate::lower::{lower, pointer_to, Shape};
use crate::spirv_type::{SpirvType, Ty};
use crate::state::{lemma_define, State};
use crate::storage::StorageClass;
use crate::trans::{
    intern, intern_all, lemma_intern_all, lemma_intern_grows, trans_type, trans_type_immediate,
};
use rspirv::spirv::Word;
use vstd::pervasive::unreached;
use vstd::prelude::*;

verus! {

/// What a return value is translated to. What is returned indirectly is written through a
/// pointer that the caller passes.
pub open spec fn lower_return(ret: ArgAbi) -> Result<Shape, Unsupported> {
    match ret.mode {
        PassMode::Ignore => Ok(Shape::Void),
        PassMode::Direct => lower(ret.layout, true),
        PassMode::Pair | PassMode::Cast => lower(ret.layout, false),
        PassMode::Indirect => match lower(ret.layout, false) {
            Ok(pointee) => Ok(pointer_to(pointee)),
            Err(error) => Err(error),
        },
    }
}

/// What an argument is translated to.
pub open spec fn lower_argument(arg: ArgAbi) -> Result<Shape, Unsupported> {
    match arg.mode {
        PassMode::Ignore => Err(Unsupported::IgnoredArgument),
        PassMode::Direct => lower(arg.layout, true),
        PassMode::Pair => match lower(arg.layout, false) {
            Ok(shape) => if shape is Adt && shape->fields.len() == 2 {
                Ok(shape)
            } else {
                Err(Unsupported::PairNotTuple)
            },
            Err(error) => Err(error),
        },
        PassMode::Cast => lower(arg.layout, false),
        PassMode::Indirect => match lower(arg.layout, false) {
            Ok(pointee) => Ok(pointer_to(pointee)),
            Err(error) => Err(error),
        },
    }
}

/// Whether all arguments can be translated, and why not.
pub open spec fn check_arguments(args: Seq<ArgAbi>) -> Result<(), Unsupported>
    decreases args.len(),
{
    if args.len() == 0 {
        Ok(())
    } else {
        match check_arguments(args.drop_last()) {
            Ok(()) => match lower_argument(args.last()) {
                Ok(_) => Ok(()),
                Err(error) => Err(error),
            },
            Err(error) => Err(error),
        }
    }
}

/// Whether a signature can be translated, and why not.
pub open spec fn check_signature(fn_abi: FnAbi) -> Result<(), Unsupported> {
    match lower_return(fn_abi.ret) {
        Ok(_) => check_arguments(fn_abi.args@),
        Err(error) => Err(error),
    }
}

/// Defining the types of a return value: the return type, and the types of the arguments that
/// it adds.
pub open spec fn intern_return(s: State, ret: ArgAbi) -> (State, Word, Seq<Word>) {
    let (t, id) = intern(s, lower_return(ret)->Ok_0);
    if ret.mode == PassMode::Indirect {
        let (u, void) = t.define(Ty::Void);
        (u, void, seq![id])
    } else {
        (t, id, seq![])
    }
}

/// Defining the types of an argument. A pair is passed as two arguments.
pub open spec fn intern_argument(s: State, arg: ArgAbi) -> (State, Seq<Word>) {
    let (t, id) = intern(s, lower_argument(arg)->Ok_0);
    if arg.mode == PassMode::Pair {
        (t, t.type_defs[id]->field_types)
    } else {
        (t, seq![id])
    }
}

/// Defining the types of several arguments, one after the other.
pub open spec fn intern_arguments(s: State, args: Seq<ArgAbi>) -> (State, Seq<Word>)
    decreases args.len(),
{
    if args.len() == 0 {
        (s, seq![])
    } else {
        let (t, ids) = intern_arguments(s, args.drop_last());
        let (u, more) = intern_argument(t, args.last());
        (u, ids + more)
    }
}

/// Defining the types of a signature: the function type, the return type, and the argument
/// types. The pointer that a return value is written through is the first argument.
pub open spec fn intern_signature(s: State, fn_abi: FnAbi) -> (State, (Word, Word, Seq<Word>)) {
    let (t, return_type, first) = intern_return(s, fn_abi.ret);
    let (u, others) = intern_arguments(t, fn_abi.args@);
    let arguments = first + others;
    let (v, function_type) = u.define(Ty::Function { return_type, arguments });
    (v, (function_type, return_type, arguments))
}

/// Ids are only ever added.
pub proof fn lemma_intern_arguments_grows(s: State, args: Seq<ArgAbi>)
    ensures
        s.module.next_id <= intern_arguments(s, args).0.module.next_id,
    decreases args.len(),
{
    if args.len() > 0 {
        lemma_intern_arguments_grows(s, args.drop_last());
        let t = intern_arguments(s, args.drop_last()).0;
        lemma_intern_grows(t, lower_argument(args.last())->Ok_0);
    }
}

/// The first arguments are translated like all of them.
pub proof fn lemma_arguments_take(s: State, args: Seq<ArgAbi>, n: int)
    requires
        0 <= n <= args.len(),
        check_arguments(args) is Ok,
    ensures
        intern_arguments(s, args.take(n)).0.module.next_id
            <= intern_arguments(s, args).0.module.next_id,
        n < args.len() ==> lower_argument(args[n]) is Ok && intern_arguments(
            s,
            args.take(n + 1),
        ) == ({
            let (t, ids) = intern_arguments(s, args.take(n));
            let (u, more) = intern_argument(t, args[n]);
            (u, ids + more)
        }),
    decreases args.len(),
{
    if n == args.len() {
        assert(args.take(n) =~= args);
    } else {
        let rest = args.drop_last();
        assert(args.take(n + 1).drop_last() =~= args.take(n));
        assert(args.take(n + 1).last() == args[n]);
        lemma_arguments_take(s, rest, n);
        assert(rest.take(n) =~= args.take(n));
        lemma_intern_grows(intern_arguments(s, rest).0, lower_argument(args.last())->Ok_0);
        if n < rest.len() {
            assert(rest[n] == args[n]);
        }
    }
}

/// A struct that has been interned is a struct of as many fields.
proof fn lemma_interned_adt(s: State, shape: Shape)
    requires
        s.wf(),
        shape is Adt,
        intern(s, shape).0.fits(),
    ensures
        intern(s, shape).0.type_defs.contains_key(intern(s, shape).1),
        intern(s, shape).0.type_defs[intern(s, shape).1] is Adt,
        intern(s, shape).0.type_defs[intern(s, shape).1]->field_types.len()
            == shape->fields.len(),
{
    match shape {
        Shape::Adt { name, fields, field_offsets, field_names } => {
            let (t, field_types) = intern_all(s, fields);
            lemma_intern_all(s, fields);
            lemma_define(t, Ty::Adt { name, field_types, field_offsets, field_names });
        },
        _ => {},
    }
}

/// Translates the type of an argument, and adds the types that it is passed as.
fn trans_argument(cx: &mut CodegenCx, arg: &ArgAbi, argument_types: &mut Vec<Word>)
    requires
        old(cx).wf(),
        lower_argument(*arg) is Ok,
        intern_argument(old(cx)@, *arg).0.fits(),
    ensures
        final(cx)@ == intern_argument(old(cx)@, *arg).0,
        final(argument_types)@ == old(argument_types)@ + intern_argument(old(cx)@, *arg).1,
        final(cx).wf(),
{
    match arg.mode {
        PassMode::Ignore => unreached(),
        PassMode::Direct => {
            argument_types.push(trans_type_immediate(cx, &arg.layout));
        },
        PassMode::Pair => {
            proof {
                lemma_interned_adt(cx@, lower_argument(*arg)->Ok_0);
            }
            let id: Word = trans_type(cx, &arg.layout);
            let tuple: SpirvType = cx.lookup_type(id);
            match &tuple {
                SpirvType::Adt { field_types, .. } => {
                    argument_types.push(field_types[0]);
                    argument_types.push(field_types[1]);
                    assert(argument_types@ =~= old(argument_types)@ + field_types@);
                },
                _ => unreached(),
            }
        },
        PassMode::Cast => {
            argument_types.push(trans_type(cx, &arg.layout));
        },
        PassMode::Indirect => {
            let pointee: Word = trans_type(cx, &arg.layout);
            argument_types.push(
                SpirvType::Pointer { storage_class: StorageClass::Generic, pointee }.def(cx),
            );
        },
    }
}

/// Translates the signature of a function. Returns the function type, the return type, and
/// the argument types.
pub fn trans_fnabi(cx: &mut CodegenCx, fn_abi: &FnAbi) -> (r: (Word, Word, Vec<Word>))
    requires
        old(cx).wf(),
        check_signature(*fn_abi) is Ok,
        intern_signature(old(cx)@, *fn_abi).0.fits(),
    ensures
        (final(cx)@, (r.0, r.1, r.2@)) == intern_signature(old(cx)@, *fn_abi),
        final(cx).wf(),
{
    let ghost s = cx@;
    let ghost (t, ret, first) = intern_return(s, fn_abi.ret);
    proof {
        lemma_intern_arguments_grows(t, fn_abi.args@);
    }
    let mut argument_types: Vec<Word> = Vec::new();
    let return_type: Word = match fn_abi.ret.mode {
        PassMode::Ignore => SpirvType::Void.def(cx),
        PassMode::Direct => trans_type_immediate(cx, &fn_abi.ret.layout),
        PassMode::Pair => trans_type(cx, &fn_abi.ret.layout),
        PassMode::Cast => trans_type(cx, &fn_abi.ret.layout),
        PassMode::Indirect => {
            let pointee: Word = trans_type(cx, &fn_abi.ret.layout);
            let pointer: Word = SpirvType::Pointer {
                storage_class: StorageClass::Generic,
                pointee,
            }.def(cx);
            // Important: the return pointer comes *first*, not last.
            argument_types.push(pointer);
            SpirvType::Void.def(cx)
        },
    };
    assert(argument_types@ =~= first);
    assert((cx@, return_type) == (t, ret));
    assert(fn_abi.args@.take(0) =~= seq![]);
    assert(first + Seq::<Word>::empty() =~= first);
    for i in 0..fn_abi.args.len()
        invariant
            cx.wf(),
            check_arguments(fn_abi.args@) is Ok,
            intern_arguments(t, fn_abi.args@).0.fits(),
            cx@ == intern_arguments(t, fn_abi.args@.take(i as int)).0,
            argument_types@ == first + intern_arguments(t, fn_abi.args@.take(i as int)).1,
    {
        proof {
            lemma_arguments_take(t, fn_abi.args@, i as int);
            lemma_arguments_take(t, fn_abi.args@, i + 1);
        }
        trans_argument(cx, &fn_abi.args[i], &mut argument_types);
        assert(argument_types@ =~= first + intern_arguments(t, fn_abi.args@.take(i + 1)).1);
    }
    assert(fn_abi.args@.take(fn_abi.args@.len() as int) =~= fn_abi.args@);
    let function_type: Word = SpirvType::Function {
        return_type,
        arguments: argument_types.clone(),
    }.def(cx);
    (function_type, return_type, argument_types)
}

} // verus!
