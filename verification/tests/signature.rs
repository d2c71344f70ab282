use spirv_abi::check::{check_fnabi, try_trans_fnabi, TransError};
use spirv_abi::codegen_cx::CodegenCx;
use spirv_abi::fn_abi::trans_fnabi;
use spirv_abi::layout::{
    Abi, ArgAbi, FieldsShape, FnAbi, PassMode, Primitive, Scalar, TyAndLayout, TyKind, Unsupported,
    Variants,
};
use spirv_abi::plan::signature_fits;
use spirv_abi::spirv_type::SpirvType;

fn layout(name: &str, abi: Abi) -> TyAndLayout {
    TyAndLayout {
        name: name.to_string(),
        is_zst: false,
        size: 4,
        kind: TyKind::Adt { boxed: None, variants: vec![] },
        abi,
        fields: FieldsShape::Primitive,
        field_layouts: vec![],
        variants: Variants::Single { index: 0 },
    }
}

fn scalar(value: Primitive) -> Scalar {
    Scalar { value, is_bool: false }
}

fn u32_layout() -> TyAndLayout {
    layout("u32", Abi::Scalar(scalar(Primitive::Int(32, false))))
}

fn bool_layout() -> TyAndLayout {
    layout(
        "bool",
        Abi::Scalar(Scalar { value: Primitive::Int(8, false), is_bool: true }),
    )
}

fn pair_layout() -> TyAndLayout {
    layout(
        "P",
        Abi::ScalarPair(scalar(Primitive::F32), scalar(Primitive::Int(64, true))),
    )
}

fn arg(mode: PassMode, layout: TyAndLayout) -> ArgAbi {
    ArgAbi { layout, mode }
}

fn shown(ret: ArgAbi, args: Vec<ArgAbi>) -> String {
    let fn_abi = FnAbi { args, ret };
    let mut cx = CodegenCx::new(64);
    assert!(check_fnabi(&fn_abi).is_ok());
    let (function, return_type, arguments) = trans_fnabi(&mut cx, &fn_abi);
    assert!(cx.lookup_type(function) == SpirvType::Function { return_type, arguments });
    cx.debug_type(function).to_string()
}

fn refused(ret: ArgAbi, args: Vec<ArgAbi>) -> Unsupported {
    let fn_abi = FnAbi { args, ret };
    let mut cx = CodegenCx::new(64);
    let error = check_fnabi(&fn_abi).unwrap_err();
    assert_eq!(
        try_trans_fnabi(&mut cx, &fn_abi),
        Err(TransError::Unsupported(error))
    );
    assert_eq!(cx.next_id(), 1);
    error
}

fn nothing() -> ArgAbi {
    arg(PassMode::Ignore, u32_layout())
}

#[test]
fn return_values() {
    assert_eq!(shown(nothing(), vec![]), "fn() -> void");
    assert_eq!(
        shown(arg(PassMode::Direct, u32_layout()), vec![]),
        "fn() -> u32"
    );
    assert_eq!(
        shown(arg(PassMode::Direct, bool_layout()), vec![]),
        "fn() -> bool"
    );
    assert_eq!(
        shown(arg(PassMode::Pair, pair_layout()), vec![]),
        "fn() -> struct P { f32, i64 }"
    );
    assert_eq!(
        shown(arg(PassMode::Cast, bool_layout()), vec![]),
        "fn() -> u8"
    );
}

#[test]
fn return_pointer_comes_first() {
    assert_eq!(
        shown(
            arg(PassMode::Indirect, pair_layout()),
            vec![arg(PassMode::Direct, u32_layout())]
        ),
        "fn(*{Generic} struct P { f32, i64 }, u32) -> void"
    );
    assert_eq!(
        shown(arg(PassMode::Indirect, bool_layout()), vec![]),
        "fn(*{Generic} u8) -> void"
    );
}

#[test]
fn arguments() {
    assert_eq!(
        shown(
            nothing(),
            vec![
                arg(PassMode::Direct, bool_layout()),
                arg(PassMode::Cast, bool_layout()),
                arg(PassMode::Indirect, u32_layout()),
            ]
        ),
        "fn(bool, u8, *{Generic} u32) -> void"
    );
}

#[test]
fn pairs_are_two_arguments() {
    let fn_abi = FnAbi {
        args: vec![
            arg(PassMode::Direct, u32_layout()),
            arg(PassMode::Pair, pair_layout()),
            arg(PassMode::Direct, u32_layout()),
        ],
        ret: arg(PassMode::Indirect, u32_layout()),
    };
    let mut cx = CodegenCx::new(64);
    let (function, return_type, arguments) = trans_fnabi(&mut cx, &fn_abi);
    assert_eq!(arguments.len(), 5);
    assert!(cx.lookup_type(return_type) == SpirvType::Void);
    assert_eq!(
        cx.debug_type(function).to_string(),
        "fn(*{Generic} u32, u32, f32, i64, u32) -> void"
    );
}

#[test]
fn same_signature_same_id() {
    let fn_abi = FnAbi {
        args: vec![arg(PassMode::Pair, pair_layout())],
        ret: nothing(),
    };
    let mut cx = CodegenCx::new(64);
    let first = trans_fnabi(&mut cx, &fn_abi);
    let next = cx.next_id();
    assert_eq!(trans_fnabi(&mut cx, &fn_abi), first);
    assert_eq!(cx.next_id(), next);
}

#[test]
fn trying_a_signature() {
    let fn_abi = FnAbi {
        args: vec![arg(PassMode::Direct, u32_layout())],
        ret: arg(PassMode::Indirect, u32_layout()),
    };
    let mut one = CodegenCx::new(64);
    let mut two = CodegenCx::new(64);
    let types = check_fnabi(&fn_abi).unwrap();
    assert_eq!(
        format!("{:?}", types),
        "LoweredSignature { ret: Pointer { storage_class: Generic, pointee: Integer(32, false) }, \
         args: [Integer(32, false)] }"
    );
    assert!(signature_fits(&one, &fn_abi, &types));
    assert_eq!(one.next_id(), 1);
    assert_eq!(
        try_trans_fnabi(&mut one, &fn_abi),
        Ok(trans_fnabi(&mut two, &fn_abi))
    );
}

#[test]
fn ignored_arguments_are_refused() {
    assert_eq!(
        refused(nothing(), vec![nothing()]),
        Unsupported::IgnoredArgument
    );
}

#[test]
fn pairs_that_are_no_pairs_are_refused() {
    assert_eq!(
        refused(nothing(), vec![arg(PassMode::Pair, u32_layout())]),
        Unsupported::PairNotTuple
    );
    let mut empty = u32_layout();
    empty.is_zst = true;
    assert_eq!(
        refused(nothing(), vec![arg(PassMode::Pair, empty)]),
        Unsupported::PairNotTuple
    );
}

#[test]
fn the_first_refusal_counts() {
    assert_eq!(
        refused(
            arg(PassMode::Direct, layout("!", Abi::Uninhabited)),
            vec![nothing()]
        ),
        Unsupported::Uninhabited
    );
    assert_eq!(
        refused(
            nothing(),
            vec![
                arg(PassMode::Pair, u32_layout()),
                arg(PassMode::Indirect, layout("!", Abi::Uninhabited)),
            ]
        ),
        Unsupported::PairNotTuple
    );
}
