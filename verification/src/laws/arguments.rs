//! What the parts of a signature are translated to, said of how they are passed.
use crate::check::LoweredSignature;
use crate::fn_abi::{
    check_arguments, check_signature, intern_argument, intern_arguments, intern_return,
    intern_signature, lower_argument, lower_return,
};
use crate::laws::signature::{
    argument_count, argument_shapes, arguments_shapes, law_signature, return_arguments,
    return_shape,
};
use crate::laws::translation::{denote_all, denotes};
use crate::layout::{ArgAbi, FnAbi, PassMode, Unsupported};
use crate::lower::{lower, Shape};
use crate::spirv_type::Ty;
use crate::state::State;
use crate::storage::StorageClass;
use crate::trans::intern;
use rspirv::spirv::Word;
use vstd::prelude::*;

verus! {

/// Whether a return value can be translated: one that is not passed always can, one that is
/// passed directly if its layout can as that of an immediate value, any other if its layout
/// can as that of a value in memory.
pub open spec fn can_return(ret: ArgAbi) -> bool {
    match ret.mode {
        PassMode::Ignore => true,
        PassMode::Direct => lower(ret.layout, true) is Ok,
        PassMode::Pair | PassMode::Cast | PassMode::Indirect => lower(ret.layout, false) is Ok,
    }
}

/// Whether an argument can be translated: one that is not passed never can, and one that is
/// passed as a pair has to be a struct of two fields.
pub open spec fn can_pass(arg: ArgAbi) -> bool {
    match arg.mode {
        PassMode::Ignore => false,
        PassMode::Direct => lower(arg.layout, true) is Ok,
        PassMode::Pair => lower(arg.layout, false) is Ok && lower(arg.layout, false)->Ok_0 is Adt
            && lower(arg.layout, false)->Ok_0->fields.len() == 2,
        PassMode::Cast | PassMode::Indirect => lower(arg.layout, false) is Ok,
    }
}

/// What a return value is translated to.
pub proof fn law_return_shape(ret: ArgAbi)
    ensures
        lower_return(ret) is Ok <==> can_return(ret),
        ret.mode == PassMode::Ignore ==> lower_return(ret) == Ok::<Shape, Unsupported>(
            Shape::Void,
        ),
        ret.mode == PassMode::Direct ==> lower_return(ret) == lower(ret.layout, true),
        ret.mode == PassMode::Pair || ret.mode == PassMode::Cast ==> lower_return(ret) == lower(
            ret.layout,
            false,
        ),
        ret.mode == PassMode::Indirect && can_return(ret) ==> lower_return(ret)->Ok_0 == (
        Shape::Pointer {
            storage_class: StorageClass::Generic,
            pointee: Box::new(lower(ret.layout, false)->Ok_0),
        }),
        ret.mode == PassMode::Indirect && !can_return(ret) ==> lower_return(ret) == lower(
            ret.layout,
            false,
        ),
{
}

/// What an argument is translated to.
pub proof fn law_argument_shape(arg: ArgAbi)
    ensures
        lower_argument(arg) is Ok <==> can_pass(arg),
        arg.mode == PassMode::Ignore ==> lower_argument(arg) == Err::<Shape, Unsupported>(
            Unsupported::IgnoredArgument,
        ),
        arg.mode == PassMode::Direct ==> lower_argument(arg) == lower(arg.layout, true),
        arg.mode == PassMode::Cast ==> lower_argument(arg) == lower(arg.layout, false),
        arg.mode == PassMode::Pair && (can_pass(arg) || lower(arg.layout, false) is Err)
            ==> lower_argument(arg) == lower(arg.layout, false),
        arg.mode == PassMode::Pair && !can_pass(arg) && lower(arg.layout, false) is Ok
            ==> lower_argument(arg) == Err::<Shape, Unsupported>(Unsupported::PairNotTuple),
        arg.mode == PassMode::Indirect && can_pass(arg) ==> lower_argument(arg)->Ok_0 == (
        Shape::Pointer {
            storage_class: StorageClass::Generic,
            pointee: Box::new(lower(arg.layout, false)->Ok_0),
        }),
        arg.mode == PassMode::Indirect && !can_pass(arg) ==> lower_argument(arg) == lower(
            arg.layout,
            false,
        ),
{
}

proof fn lemma_arguments_passed(args: Seq<ArgAbi>)
    ensures
        check_arguments(args) is Ok <==> forall|i: int|
            0 <= i < args.len() ==> can_pass(#[trigger] args[i]),
    decreases args.len(),
{
    if args.len() > 0 {
        let rest = args.drop_last();
        lemma_arguments_passed(rest);
        assert(forall|i: int| 0 <= i < rest.len() ==> rest[i] == args[i]);
        assert(args.last() == args[args.len() - 1]);
        if check_arguments(args) is Ok {
            assert forall|i: int| 0 <= i < args.len() implies can_pass(#[trigger] args[i]) by {
                if i < rest.len() {
                    assert(can_pass(rest[i]));
                }
            }
        }
        if forall|i: int| 0 <= i < args.len() ==> can_pass(#[trigger] args[i]) {
            assert forall|i: int| 0 <= i < rest.len() implies can_pass(#[trigger] rest[i]) by {
                assert(can_pass(args[i]));
            }
            assert(can_pass(args[args.len() - 1]));
        }
    }
}

/// A signature is accepted exactly if its return value and each of its arguments can be
/// translated.
pub proof fn law_signature_accepted(fn_abi: FnAbi)
    ensures
        check_signature(fn_abi) is Ok <==> can_return(fn_abi.ret) && forall|i: int|
            0 <= i < fn_abi.args@.len() ==> can_pass(#[trigger] fn_abi.args@[i]),
{
    lemma_arguments_passed(fn_abi.args@);
}

proof fn lemma_first_refused(args: Seq<ArgAbi>, k: int)
    requires
        0 <= k < args.len(),
        !can_pass(args[k]),
        forall|i: int| 0 <= i < k ==> can_pass(#[trigger] args[i]),
    ensures
        check_arguments(args) == Err::<(), Unsupported>(lower_argument(args[k])->Err_0),
    decreases args.len(),
{
    let rest = args.drop_last();
    assert forall|i: int| 0 <= i < k implies can_pass(#[trigger] rest[i]) by {
        assert(can_pass(args[i]));
    }
    if k < rest.len() {
        lemma_first_refused(rest, k);
    } else {
        lemma_arguments_passed(rest);
    }
}

/// A signature that is refused is refused for its return value, or else for the first argument
/// that cannot be translated: because it is not passed, because it is no pair, or for its
/// layout.
pub proof fn law_signature_refused(fn_abi: FnAbi, k: int)
    ensures
        !can_return(fn_abi.ret) ==> check_signature(fn_abi) == Err::<(), Unsupported>(
            lower(fn_abi.ret.layout, fn_abi.ret.mode == PassMode::Direct)->Err_0,
        ),
        can_return(fn_abi.ret) && 0 <= k < fn_abi.args@.len() && !can_pass(fn_abi.args@[k]) && (
        forall|i: int| 0 <= i < k ==> can_pass(#[trigger] fn_abi.args@[i])) ==> {
            let arg = fn_abi.args@[k];
            let lowered = lower(arg.layout, arg.mode == PassMode::Direct);
            check_signature(fn_abi) == Err::<(), Unsupported>(
                if arg.mode == PassMode::Ignore {
                    Unsupported::IgnoredArgument
                } else if lowered is Err {
                    lowered->Err_0
                } else {
                    Unsupported::PairNotTuple
                },
            )
        },
{
    if can_return(fn_abi.ret) && 0 <= k < fn_abi.args@.len() && !can_pass(fn_abi.args@[k]) && (
    forall|i: int| 0 <= i < k ==> can_pass(#[trigger] fn_abi.args@[i])) {
        lemma_first_refused(fn_abi.args@, k);
        law_argument_shape(fn_abi.args@[k]);
    }
}

/// Where the types of an argument stand among those of all arguments.
proof fn lemma_argument_place(args: Seq<ArgAbi>, i: int)
    requires
        0 <= i < args.len(),
        check_arguments(args) is Ok,
    ensures
        arguments_shapes(args).len() == argument_count(args),
        argument_count(args.take(i)) + argument_shapes(args[i]).len() <= argument_count(args),
        forall|j: int|
            0 <= j < argument_shapes(args[i]).len() ==> arguments_shapes(args)[argument_count(
                args.take(i),
            ) + j] == #[trigger] argument_shapes(args[i])[j],
    decreases args.len(),
{
    let rest = args.drop_last();
    lemma_arguments_passed(args);
    law_argument_shape(args[i]);
    lemma_place_count(rest);
    lemma_place_count(args);
    if i < rest.len() {
        lemma_argument_place(rest, i);
        assert(rest.take(i) =~= args.take(i));
        assert(rest[i] == args[i]);
        assert forall|j: int| 0 <= j < argument_shapes(args[i]).len() implies arguments_shapes(
            args,
        )[argument_count(args.take(i)) + j] == #[trigger] argument_shapes(args[i])[j] by {
            assert(arguments_shapes(rest)[argument_count(rest.take(i)) + j]
                == argument_shapes(rest[i])[j]);
        }
    } else {
        assert(args.take(i) =~= rest);
        assert(args.last() == args[i]);
    }
}

proof fn lemma_place_count(args: Seq<ArgAbi>)
    requires
        check_arguments(args) is Ok,
    ensures
        arguments_shapes(args).len() == argument_count(args),
    decreases args.len(),
{
    if args.len() > 0 {
        lemma_place_count(args.drop_last());
        law_argument_shape(args.last());
    }
}

proof fn lemma_denote_at(s: State, ids: Seq<Word>, shapes: Seq<Shape>, i: int)
    requires
        denote_all(s, ids, shapes),
        0 <= i < shapes.len(),
    ensures
        ids.len() == shapes.len(),
        denotes(s, ids[i], shapes[i]),
    decreases shapes.len(),
{
    if i < shapes.len() - 1 {
        lemma_denote_at(s, ids.drop_last(), shapes.drop_last(), i);
    }
}

/// How many arguments stand before those of the signature: the pointer that the return value
/// is written through.
pub open spec fn added_count(fn_abi: FnAbi) -> nat {
    if fn_abi.ret.mode == PassMode::Indirect {
        1
    } else {
        0
    }
}

/// Each argument stands in its place, behind those before it, and its type is determined by
/// how it is passed: directly, it is what the layout is as that of an immediate value; cast,
/// what it is in memory; indirectly, a generic pointer to that, whatever it is; as a pair, the
/// two fields of it, one after the other.
pub proof fn law_argument_type(s: State, fn_abi: FnAbi, i: int)
    requires
        s.wf(),
        check_signature(fn_abi) is Ok,
        intern_signature(s, fn_abi).0.fits(),
        0 <= i < fn_abi.args@.len(),
    ensures
        ({
            let (t, (function_type, return_type, arguments)) = intern_signature(s, fn_abi);
            let arg = fn_abi.args@[i];
            let place = (added_count(fn_abi) + argument_count(fn_abi.args@.take(i))) as int;
            &&& place < arguments.len()
            &&& arg.mode != PassMode::Ignore
            &&& arg.mode == PassMode::Direct ==> denotes(
                t,
                arguments[place],
                lower(arg.layout, true)->Ok_0,
            )
            &&& arg.mode == PassMode::Cast ==> denotes(
                t,
                arguments[place],
                lower(arg.layout, false)->Ok_0,
            )
            &&& arg.mode == PassMode::Indirect ==> denotes(
                t,
                arguments[place],
                Shape::Pointer {
                    storage_class: StorageClass::Generic,
                    pointee: Box::new(lower(arg.layout, false)->Ok_0),
                },
            )
            &&& arg.mode == PassMode::Pair ==> {
                let pair = lower(arg.layout, false)->Ok_0;
                &&& place + 1 < arguments.len()
                &&& pair is Adt
                &&& pair->fields.len() == 2
                &&& denotes(t, arguments[place], pair->fields[0])
                &&& denotes(t, arguments[place + 1], pair->fields[1])
            }
        }),
{
    let (t, (function_type, return_type, arguments)) = intern_signature(s, fn_abi);
    let arg = fn_abi.args@[i];
    let shapes = return_arguments(fn_abi.ret) + arguments_shapes(fn_abi.args@);
    let place = (added_count(fn_abi) + argument_count(fn_abi.args@.take(i))) as int;
    law_signature(s, fn_abi);
    lemma_arguments_passed(fn_abi.args@);
    law_argument_shape(arg);
    lemma_argument_place(fn_abi.args@, i);
    assert(shapes[place] == argument_shapes(arg)[0]);
    lemma_denote_at(t, arguments, shapes, place);
    if arg.mode == PassMode::Pair {
        assert(shapes[place + 1] == argument_shapes(arg)[1]);
        lemma_denote_at(t, arguments, shapes, place + 1);
    }
}

/// The return type is determined by how the return value is passed: nothing, if it is not
/// passed, or if it is written through a pointer, which is then the first argument and points
/// to what the layout is in memory. There are no other arguments than these and those of the
/// signature. The function type is made of the return type and the arguments.
pub proof fn law_return_type(s: State, fn_abi: FnAbi)
    requires
        s.wf(),
        check_signature(fn_abi) is Ok,
        intern_signature(s, fn_abi).0.fits(),
    ensures
        ({
            let (t, (function_type, return_type, arguments)) = intern_signature(s, fn_abi);
            let ret = fn_abi.ret;
            &&& arguments.len() == added_count(fn_abi) + argument_count(fn_abi.args@)
            &&& t.type_defs.contains_key(function_type)
            &&& t.type_defs[function_type] == Ty::Function { return_type, arguments }
            &&& ret.mode == PassMode::Ignore || ret.mode == PassMode::Indirect ==> denotes(
                t,
                return_type,
                Shape::Void,
            )
            &&& ret.mode == PassMode::Direct ==> denotes(
                t,
                return_type,
                lower(ret.layout, true)->Ok_0,
            )
            &&& ret.mode == PassMode::Pair || ret.mode == PassMode::Cast ==> denotes(
                t,
                return_type,
                lower(ret.layout, false)->Ok_0,
            )
            &&& ret.mode == PassMode::Indirect ==> denotes(
                t,
                arguments[0],
                Shape::Pointer {
                    storage_class: StorageClass::Generic,
                    pointee: Box::new(lower(ret.layout, false)->Ok_0),
                },
            )
        }),
{
    let (t, (function_type, return_type, arguments)) = intern_signature(s, fn_abi);
    let shapes = return_arguments(fn_abi.ret) + arguments_shapes(fn_abi.args@);
    law_signature(s, fn_abi);
    law_return_shape(fn_abi.ret);
    lemma_place_count(fn_abi.args@);
    assert(denote_all(t, arguments, shapes));
    assert(denotes(t, return_type, return_shape(fn_abi.ret)));
    if fn_abi.ret.mode == PassMode::Indirect {
        lemma_denote_at(t, arguments, shapes, 0);
    }
}

/// The types of a signature are defined in order: those of the return value, those of the
/// arguments, and the function type at last.
pub proof fn law_signature_steps(s: State, fn_abi: FnAbi)
    ensures
        ({
            let (t, return_type, first) = intern_return(s, fn_abi.ret);
            let (u, others) = intern_arguments(t, fn_abi.args@);
            let arguments = first + others;
            let (v, function_type) = u.define(Ty::Function { return_type, arguments });
            intern_signature(s, fn_abi) == (v, (function_type, return_type, arguments))
        }),
{
}

/// A return value takes the steps of its type. If it is written through a pointer, the pointer
/// is defined first, and then the type of nothing.
pub proof fn law_return_steps(s: State, ret: ArgAbi)
    requires
        can_return(ret),
    ensures
        ({
            let (t, return_type, first) = intern_return(s, ret);
            match ret.mode {
                PassMode::Ignore => (t, return_type) == s.define(Ty::Void) && first.len() == 0,
                PassMode::Direct => (t, return_type) == intern(s, lower(ret.layout, true)->Ok_0)
                    && first.len() == 0,
                PassMode::Pair | PassMode::Cast => (t, return_type) == intern(
                    s,
                    lower(ret.layout, false)->Ok_0,
                ) && first.len() == 0,
                PassMode::Indirect => {
                    let (u, pointer) = intern(
                        s,
                        Shape::Pointer {
                            storage_class: StorageClass::Generic,
                            pointee: Box::new(lower(ret.layout, false)->Ok_0),
                        },
                    );
                    (t, return_type) == u.define(Ty::Void) && first == seq![pointer]
                },
            }
        }),
{
    law_return_shape(ret);
}

/// Arguments take their steps one after the other, from the first to the last, and their ids
/// come in that order.
pub proof fn law_arguments_in_order(s: State, first: Seq<ArgAbi>, second: Seq<ArgAbi>)
    ensures
        ({
            let (t, one) = intern_arguments(s, first);
            let (u, two) = intern_arguments(t, second);
            intern_arguments(s, first + second) == (u, one + two)
        }),
        first.len() == 0 ==> intern_arguments(s, first) == (s, Seq::<Word>::empty()),
        first.len() == 1 ==> intern_arguments(s, first) == intern_argument(s, first[0]),
    decreases second.len(),
{
    let (t, one) = intern_arguments(s, first);
    if second.len() == 0 {
        assert(first + second =~= first);
        assert(one + Seq::<Word>::empty() =~= one);
    } else {
        let rest = second.drop_last();
        law_arguments_in_order(s, first, rest);
        assert((first + second).drop_last() =~= first + rest);
        let (v, ids) = intern_arguments(t, rest);
        let (u, more) = intern_argument(v, second.last());
        assert(one + (ids + more) =~= (one + ids) + more);
    }
    if first.len() == 1 {
        assert(first.drop_last() =~= Seq::<ArgAbi>::empty());
        assert(intern_arguments(s, Seq::<ArgAbi>::empty()) == (s, Seq::<Word>::empty()));
        let (u, more) = intern_argument(s, first[0]);
        assert(Seq::<Word>::empty() + more =~= more);
    }
}

/// An argument takes the steps of its type. A pair is passed as the fields of the struct that
/// is defined for it.
pub proof fn law_argument_steps(s: State, arg: ArgAbi)
    requires
        can_pass(arg),
    ensures
        ({
            let (t, ids) = intern_argument(s, arg);
            let in_memory = lower(arg.layout, false)->Ok_0;
            match arg.mode {
                PassMode::Ignore => true,
                PassMode::Direct => {
                    let (u, id) = intern(s, lower(arg.layout, true)->Ok_0);
                    t == u && ids == seq![id]
                },
                PassMode::Cast => {
                    let (u, id) = intern(s, in_memory);
                    t == u && ids == seq![id]
                },
                PassMode::Indirect => {
                    let (u, id) = intern(
                        s,
                        Shape::Pointer {
                            storage_class: StorageClass::Generic,
                            pointee: Box::new(in_memory),
                        },
                    );
                    t == u && ids == seq![id]
                },
                PassMode::Pair => {
                    let (u, id) = intern(s, in_memory);
                    t == u && ids == u.type_defs[id]->field_types
                },
            }
        }),
{
    law_argument_shape(arg);
}

/// The types that are found for a signature are those of its return value and of its arguments,
/// one for one.
pub proof fn law_signature_found(types: LoweredSignature, fn_abi: FnAbi, i: int)
    requires
        types.is_for(fn_abi),
    ensures
        can_return(fn_abi.ret),
        fn_abi.ret.mode == PassMode::Ignore ==> types.ret@ is Void,
        fn_abi.ret.mode == PassMode::Direct ==> types.ret@ == lower(fn_abi.ret.layout, true)->Ok_0,
        fn_abi.ret.mode == PassMode::Pair || fn_abi.ret.mode == PassMode::Cast ==> types.ret@
            == lower(fn_abi.ret.layout, false)->Ok_0,
        fn_abi.ret.mode == PassMode::Indirect ==> types.ret@ == (Shape::Pointer {
            storage_class: StorageClass::Generic,
            pointee: Box::new(lower(fn_abi.ret.layout, false)->Ok_0),
        }),
        types.args@.len() == fn_abi.args@.len(),
        0 <= i < fn_abi.args@.len() ==> {
            let arg = fn_abi.args@[i];
            let found = types.args@[i]@;
            &&& can_pass(arg)
            &&& arg.mode == PassMode::Direct ==> found == lower(arg.layout, true)->Ok_0
            &&& arg.mode == PassMode::Pair || arg.mode == PassMode::Cast ==> found == lower(
                arg.layout,
                false,
            )->Ok_0
            &&& arg.mode == PassMode::Indirect ==> found == (Shape::Pointer {
                storage_class: StorageClass::Generic,
                pointee: Box::new(lower(arg.layout, false)->Ok_0),
            })
        },
{
    law_return_shape(fn_abi.ret);
    if 0 <= i < fn_abi.args@.len() {
        let arg = fn_abi.args@[i];
        law_argument_shape(arg);
        assert(lower_argument(arg) == Ok::<Shape, Unsupported>(types.args@[i]@));
    }
}

} // verus!
