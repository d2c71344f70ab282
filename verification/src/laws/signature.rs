//! Signatures that have been translated.
use crate::fn_abi::{
    check_arguments, check_signature, intern_argument, intern_arguments, intern_return,
    intern_signature, lemma_intern_arguments_grows, lower_argument, lower_return,
};
use crate::laws::translation::{
    denote_all, denotes, law_denotes_kept, law_translation_denotes, lemma_denote_all_kept,
};
use crate::layout::{ArgAbi, FnAbi, PassMode};
use crate::lower::{lower, pointer_to, Shape};
use crate::spirv_type::Ty;
use crate::state::{lemma_define, lemma_extended_transitive, State};
use crate::trans::{intern, lemma_intern_grows};
use rspirv::spirv::Word;
use vstd::prelude::*;

verus! {

/// The type that a function returns.
pub open spec fn return_shape(ret: ArgAbi) -> Shape {
    if ret.mode == PassMode::Indirect {
        Shape::Void
    } else {
        lower_return(ret)->Ok_0
    }
}

/// The types of the arguments that a return value adds.
pub open spec fn return_arguments(ret: ArgAbi) -> Seq<Shape> {
    if ret.mode == PassMode::Indirect {
        seq![lower_return(ret)->Ok_0]
    } else {
        seq![]
    }
}

/// The types that an argument is passed as: both halves of a pair.
pub open spec fn argument_shapes(arg: ArgAbi) -> Seq<Shape> {
    if arg.mode == PassMode::Pair {
        lower_argument(arg)->Ok_0->fields
    } else {
        seq![lower_argument(arg)->Ok_0]
    }
}

/// The types that some arguments are passed as.
pub open spec fn arguments_shapes(args: Seq<ArgAbi>) -> Seq<Shape>
    decreases args.len(),
{
    if args.len() == 0 {
        seq![]
    } else {
        arguments_shapes(args.drop_last()) + argument_shapes(args.last())
    }
}

/// How many arguments some arguments are passed as.
pub open spec fn argument_count(args: Seq<ArgAbi>) -> nat
    decreases args.len(),
{
    if args.len() == 0 {
        0
    } else {
        argument_count(args.drop_last()) + if args.last().mode == PassMode::Pair {
            2nat
        } else {
            1
        }
    }
}

proof fn lemma_denote_concat(
    s: State,
    a: Seq<Word>,
    b: Seq<Word>,
    shapes: Seq<Shape>,
    more: Seq<Shape>,
)
    requires
        denote_all(s, a, shapes),
        denote_all(s, b, more),
    ensures
        denote_all(s, a + b, shapes + more),
    decreases more.len(),
{
    if more.len() == 0 {
        assert(a + b =~= a);
        assert(shapes + more =~= shapes);
    } else {
        lemma_denote_concat(s, a, b.drop_last(), shapes, more.drop_last());
        assert((a + b).drop_last() =~= a + b.drop_last());
        assert((shapes + more).drop_last() =~= shapes + more.drop_last());
    }
}

proof fn lemma_denote_single(s: State, id: Word, shape: Shape)
    requires
        denotes(s, id, shape),
    ensures
        denote_all(s, seq![id], seq![shape]),
{
    assert(seq![id].drop_last() =~= seq![]);
    assert(seq![shape].drop_last() =~= seq![]);
    assert(denote_all(s, seq![], seq![]));
}

proof fn lemma_return(s: State, ret: ArgAbi)
    requires
        s.wf(),
        intern_return(s, ret).0.fits(),
    ensures
        ({
            let (t, id, first) = intern_return(s, ret);
            &&& t.wf()
            &&& s.extended_by(t)
            &&& denotes(t, id, return_shape(ret))
            &&& denote_all(t, first, return_arguments(ret))
        }),
{
    let shape = lower_return(ret)->Ok_0;
    let (t, id) = intern(s, shape);
    law_translation_denotes(s, shape);
    if ret.mode == PassMode::Indirect {
        let u = t.define(Ty::Void).0;
        lemma_define(t, Ty::Void);
        lemma_extended_transitive(s, t, u);
        law_denotes_kept(t, u, id, shape);
        lemma_denote_single(u, id, shape);
    } else {
        assert(denote_all(t, seq![], seq![]));
    }
}

proof fn lemma_argument(s: State, arg: ArgAbi)
    requires
        s.wf(),
        lower_argument(arg) is Ok,
        intern_argument(s, arg).0.fits(),
    ensures
        ({
            let (t, ids) = intern_argument(s, arg);
            &&& t.wf()
            &&& s.extended_by(t)
            &&& denote_all(t, ids, argument_shapes(arg))
        }),
{
    let shape = lower_argument(arg)->Ok_0;
    let (t, id) = intern(s, shape);
    law_translation_denotes(s, shape);
    if arg.mode == PassMode::Pair {
        assert(denotes(t, id, shape));
    } else {
        lemma_denote_single(t, id, shape);
    }
}

proof fn lemma_arguments(s: State, args: Seq<ArgAbi>)
    requires
        s.wf(),
        check_arguments(args) is Ok,
        intern_arguments(s, args).0.fits(),
    ensures
        ({
            let (t, ids) = intern_arguments(s, args);
            &&& t.wf()
            &&& s.extended_by(t)
            &&& denote_all(t, ids, arguments_shapes(args))
        }),
    decreases args.len(),
{
    if args.len() == 0 {
        assert(denote_all(s, seq![], seq![]));
    } else {
        let (t, ids) = intern_arguments(s, args.drop_last());
        let (u, more) = intern_argument(t, args.last());
        lemma_intern_grows(t, lower_argument(args.last())->Ok_0);
        lemma_arguments(s, args.drop_last());
        lemma_argument(t, args.last());
        lemma_extended_transitive(s, t, u);
        lemma_denote_all_kept(t, u, ids, arguments_shapes(args.drop_last()));
        lemma_denote_concat(
            u,
            ids,
            more,
            arguments_shapes(args.drop_last()),
            argument_shapes(args.last()),
        );
    }
}

/// A signature is translated to a function type with the return type and the argument types
/// that are given back. The return type and the argument types stand for what the return
/// value and the arguments are translated to, in order, behind the arguments that the return
/// value adds. The state stays well formed, and what is there is kept.
pub proof fn law_signature(s: State, fn_abi: FnAbi)
    requires
        s.wf(),
        check_signature(fn_abi) is Ok,
        intern_signature(s, fn_abi).0.fits(),
    ensures
        ({
            let (t, (function_type, return_type, arguments)) = intern_signature(s, fn_abi);
            &&& t.wf()
            &&& s.extended_by(t)
            &&& t.type_defs.contains_key(function_type)
            &&& t.type_defs[function_type] == Ty::Function { return_type, arguments }
            &&& denotes(t, return_type, return_shape(fn_abi.ret))
            &&& denote_all(
                t,
                arguments,
                return_arguments(fn_abi.ret) + arguments_shapes(fn_abi.args@),
            )
        }),
{
    let (t, return_type, first) = intern_return(s, fn_abi.ret);
    let (u, others) = intern_arguments(t, fn_abi.args@);
    let arguments = first + others;
    let ty = Ty::Function { return_type, arguments };
    let v = u.define(ty).0;
    lemma_intern_arguments_grows(t, fn_abi.args@);
    lemma_return(s, fn_abi.ret);
    lemma_arguments(t, fn_abi.args@);
    lemma_define(u, ty);
    lemma_extended_transitive(s, t, u);
    lemma_extended_transitive(s, u, v);
    let ret = return_shape(fn_abi.ret);
    law_denotes_kept(t, u, return_type, ret);
    law_denotes_kept(u, v, return_type, ret);
    let one = return_arguments(fn_abi.ret);
    let two = arguments_shapes(fn_abi.args@);
    lemma_denote_all_kept(t, u, first, one);
    lemma_denote_concat(u, first, others, one, two);
    lemma_denote_all_kept(u, v, arguments, one + two);
}

proof fn lemma_denote_first(s: State, ids: Seq<Word>, shapes: Seq<Shape>)
    requires
        denote_all(s, ids, shapes),
        shapes.len() > 0,
    ensures
        ids.len() == shapes.len(),
        denotes(s, ids[0], shapes[0]),
    decreases shapes.len(),
{
    if shapes.len() > 1 {
        lemma_denote_first(s, ids.drop_last(), shapes.drop_last());
    }
}

/// What is returned indirectly is written through a pointer. The pointer is the first
/// argument, and the function itself returns nothing.
pub proof fn law_return_pointer_first(s: State, fn_abi: FnAbi)
    requires
        s.wf(),
        check_signature(fn_abi) is Ok,
        intern_signature(s, fn_abi).0.fits(),
        fn_abi.ret.mode == PassMode::Indirect,
    ensures
        ({
            let (t, (function_type, return_type, arguments)) = intern_signature(s, fn_abi);
            &&& arguments.len() > 0
            &&& denotes(t, arguments[0], pointer_to(lower(fn_abi.ret.layout, false)->Ok_0))
            &&& denotes(t, return_type, Shape::Void)
        }),
{
    law_signature(s, fn_abi);
    let (t, (function_type, return_type, arguments)) = intern_signature(s, fn_abi);
    let shapes = return_arguments(fn_abi.ret) + arguments_shapes(fn_abi.args@);
    assert(shapes[0] == lower_return(fn_abi.ret)->Ok_0);
    lemma_denote_first(t, arguments, shapes);
}

proof fn lemma_shape_count(args: Seq<ArgAbi>)
    requires
        check_arguments(args) is Ok,
    ensures
        arguments_shapes(args).len() == argument_count(args),
    decreases args.len(),
{
    if args.len() > 0 {
        lemma_shape_count(args.drop_last());
    }
}

/// Each argument is passed as one argument, and a pair as two. A return value that is written
/// through a pointer adds one.
pub proof fn law_argument_count(s: State, fn_abi: FnAbi)
    requires
        s.wf(),
        check_signature(fn_abi) is Ok,
        intern_signature(s, fn_abi).0.fits(),
    ensures
        intern_signature(s, fn_abi).1.2.len() == argument_count(fn_abi.args@) + if fn_abi.ret.mode
            == PassMode::Indirect {
            1nat
        } else {
            0
        },
{
    law_signature(s, fn_abi);
    lemma_shape_count(fn_abi.args@);
    let (t, (function_type, return_type, arguments)) = intern_signature(s, fn_abi);
    let shapes = return_arguments(fn_abi.ret) + arguments_shapes(fn_abi.args@);
    assert(denote_all(t, arguments, shapes));
}

} // verus!
