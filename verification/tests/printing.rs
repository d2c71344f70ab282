use rspirv::spirv::StorageClass as Class;
use spirv_abi::codegen_cx::CodegenCx;
use spirv_abi::spirv_type::SpirvType;
use spirv_abi::storage::StorageClass;
use std::fmt::Debug;

#[derive(Debug)]
struct Void {}

#[derive(Debug)]
struct Bool {}

#[allow(dead_code)]
#[derive(Debug)]
struct Integer {
    width: u32,
    signedness: bool,
}

#[allow(dead_code)]
#[derive(Debug)]
struct Float {
    width: u32,
}

#[allow(dead_code)]
#[derive(Debug)]
struct Adt {
    name: Option<String>,
    field_types: Vec<Box<dyn Debug>>,
    field_offsets: Option<Vec<u32>>,
    field_names: Option<Vec<String>>,
}

#[allow(dead_code)]
#[derive(Debug)]
struct Vector<T> {
    element: T,
    count: u64,
}

#[allow(dead_code)]
#[derive(Debug)]
struct Array<T> {
    element: T,
    count: u64,
}

#[allow(dead_code)]
#[derive(Debug)]
struct Pointer<T> {
    storage_class: Class,
    pointee: T,
}

#[allow(dead_code)]
#[derive(Debug)]
struct Function {
    return_type: SpirvType,
    arguments: Vec<Box<dyn Debug>>,
}

fn shown(cx: &CodegenCx, ty: SpirvType) -> String {
    ty.debug(cx).to_string()
}

fn check_debug(cx: &CodegenCx, ty: SpirvType, expected: &dyn Debug) {
    let printer = ty.debug(cx);
    assert_eq!(printer.to_debug_string(false), format!("{:?}", expected));
    assert_eq!(printer.to_debug_string(true), format!("{:#?}", expected));
}

fn strings(texts: &[&str]) -> Vec<String> {
    texts.iter().map(|text| text.to_string()).collect()
}

#[test]
fn display_scalars() {
    let cx = CodegenCx::new(64);
    assert_eq!(shown(&cx, SpirvType::Void), "void");
    assert_eq!(shown(&cx, SpirvType::Bool), "bool");
    assert_eq!(shown(&cx, SpirvType::Integer(32, true)), "i32");
    assert_eq!(shown(&cx, SpirvType::Integer(8, false)), "u8");
    assert_eq!(shown(&cx, SpirvType::Integer(u32::MAX, false)), "u4294967295");
    assert_eq!(shown(&cx, SpirvType::Integer(0, true)), "i0");
    assert_eq!(shown(&cx, SpirvType::Float(64)), "f64");
}

#[test]
fn display_structs() {
    let mut cx = CodegenCx::new(64);
    let int = SpirvType::Integer(32, true).def(&mut cx);
    let float = SpirvType::Float(32).def(&mut cx);
    let adt = |name: Option<&str>, field_types: Vec<u32>, names: Option<&[&str]>| SpirvType::Adt {
        name: name.map(|name| name.to_string()),
        field_types,
        field_offsets: None,
        field_names: names.map(strings),
    };
    assert_eq!(shown(&cx, adt(None, vec![], None)), "struct {  }");
    assert_eq!(shown(&cx, adt(Some("S"), vec![], None)), "struct S {  }");
    assert_eq!(shown(&cx, adt(None, vec![int], None)), "struct { i32 }");
    assert_eq!(
        shown(&cx, adt(None, vec![int, float, int], None)),
        "struct { i32, f32, i32 }"
    );
    assert_eq!(
        shown(&cx, adt(Some("Point"), vec![int, float], Some(&["x", "y"]))),
        "struct Point { x: i32, y: f32 }"
    );
    assert_eq!(
        shown(&cx, adt(None, vec![int], Some(&["x", "unused"]))),
        "struct { x: i32 }"
    );
}

#[test]
fn display_arrays_and_vectors() {
    let mut cx = CodegenCx::new(64);
    let int = SpirvType::Integer(32, false).def(&mut cx);
    let five = cx.constant_u32(5).def;
    let large = cx.emit_constant_u64(int, u64::MAX);
    let array = SpirvType::Array { element: int, count: five };
    assert_eq!(shown(&cx, array.clone()), "[u32; 5]");
    assert_eq!(
        shown(&cx, SpirvType::Vector { element: int, count: five }),
        "vec<u32, 5>"
    );
    assert_eq!(
        shown(&cx, SpirvType::Array { element: int, count: large }),
        "[u32; 18446744073709551615]"
    );
    let inner = array.def(&mut cx);
    assert_eq!(
        shown(&cx, SpirvType::Array { element: inner, count: five }),
        "[[u32; 5]; 5]"
    );
    assert_eq!(cx.debug_type(inner).to_string(), "[u32; 5]");
}

#[test]
fn display_pointers_and_functions() {
    let mut cx = CodegenCx::new(64);
    let void = SpirvType::Void.def(&mut cx);
    let int = SpirvType::Integer(32, true).def(&mut cx);
    let pointer = SpirvType::Pointer {
        storage_class: StorageClass::PushConstant,
        pointee: int,
    };
    assert_eq!(shown(&cx, pointer.clone()), "*{PushConstant} i32");
    let pointer = pointer.def(&mut cx);
    let function = |return_type: u32, arguments: Vec<u32>| SpirvType::Function {
        return_type,
        arguments,
    };
    assert_eq!(shown(&cx, function(void, vec![])), "fn() -> void");
    assert_eq!(shown(&cx, function(int, vec![int])), "fn(i32) -> i32");
    assert_eq!(
        shown(&cx, function(pointer, vec![int, pointer, void])),
        "fn(i32, *{PushConstant} i32, void) -> *{PushConstant} i32"
    );
}

#[test]
fn display_stays() {
    let mut cx = CodegenCx::new(64);
    let int = SpirvType::Integer(32, true).def(&mut cx);
    let two = cx.constant_u32(2).def;
    let array = SpirvType::Array { element: int, count: two };
    let before = shown(&cx, array.clone());
    cx.constant_u32(3);
    array.def(&mut cx);
    assert_eq!(before, "[i32; 2]");
    assert_eq!(shown(&cx, array), before);
}

#[test]
fn debug_scalars() {
    let cx = CodegenCx::new(64);
    check_debug(&cx, SpirvType::Void, &Void {});
    check_debug(&cx, SpirvType::Bool, &Bool {});
    check_debug(
        &cx,
        SpirvType::Integer(32, true),
        &Integer { width: 32, signedness: true },
    );
    check_debug(
        &cx,
        SpirvType::Integer(8, false),
        &Integer { width: 8, signedness: false },
    );
    check_debug(&cx, SpirvType::Float(64), &Float { width: 64 });
}

#[test]
fn debug_in_one_line() {
    let mut cx = CodegenCx::new(64);
    let int = SpirvType::Integer(32, true).def(&mut cx);
    let five = cx.constant_u32(5).def;
    let array = SpirvType::Array { element: int, count: five };
    assert_eq!(
        array.debug(&cx).to_debug_string(false),
        "Array { element: Integer { width: 32, signedness: true }, count: 5 }"
    );
}

#[test]
fn debug_over_several_lines() {
    let mut cx = CodegenCx::new(64);
    let int = SpirvType::Integer(32, true).def(&mut cx);
    let five = cx.constant_u32(5).def;
    let array = SpirvType::Array { element: int, count: five };
    let expected = "Array {\n    element: Integer {\n        width: 32,\n        signedness: true,\n    },\n    count: 5,\n}";
    assert_eq!(array.debug(&cx).to_debug_string(true), expected);
}

#[test]
fn debug_structs() {
    let mut cx = CodegenCx::new(64);
    let int = SpirvType::Integer(32, true).def(&mut cx);
    let float = SpirvType::Float(32).def(&mut cx);
    check_debug(
        &cx,
        SpirvType::Adt {
            name: None,
            field_types: vec![],
            field_offsets: None,
            field_names: None,
        },
        &Adt {
            name: None,
            field_types: vec![],
            field_offsets: None,
            field_names: None,
        },
    );
    check_debug(
        &cx,
        SpirvType::Adt {
            name: Some("Point".to_string()),
            field_types: vec![int, float],
            field_offsets: Some(vec![0, 4]),
            field_names: Some(strings(&["x", "y"])),
        },
        &Adt {
            name: Some("Point".to_string()),
            field_types: vec![
                Box::new(Integer { width: 32, signedness: true }),
                Box::new(Float { width: 32 }),
            ],
            field_offsets: Some(vec![0, 4]),
            field_names: Some(strings(&["x", "y"])),
        },
    );
    check_debug(
        &cx,
        SpirvType::Adt {
            name: None,
            field_types: vec![int],
            field_offsets: Some(vec![]),
            field_names: Some(vec![]),
        },
        &Adt {
            name: None,
            field_types: vec![Box::new(Integer { width: 32, signedness: true })],
            field_offsets: Some(vec![]),
            field_names: Some(vec![]),
        },
    );
}

#[test]
fn debug_escapes_names() {
    let cx = CodegenCx::new(64);
    let name = "a \"b\"\n\\c\u{e9}";
    check_debug(
        &cx,
        SpirvType::Adt {
            name: Some(name.to_string()),
            field_types: vec![],
            field_offsets: None,
            field_names: Some(strings(&[name, ""])),
        },
        &Adt {
            name: Some(name.to_string()),
            field_types: vec![],
            field_offsets: None,
            field_names: Some(strings(&[name, ""])),
        },
    );
}

#[test]
fn debug_arrays_vectors_and_pointers() {
    let mut cx = CodegenCx::new(64);
    let int = SpirvType::Integer(32, false).def(&mut cx);
    let seven = cx.constant_u32(7).def;
    check_debug(
        &cx,
        SpirvType::Vector { element: int, count: seven },
        &Vector {
            element: Integer { width: 32, signedness: false },
            count: 7,
        },
    );
    let array = SpirvType::Array { element: int, count: seven }.def(&mut cx);
    check_debug(
        &cx,
        SpirvType::Pointer {
            storage_class: StorageClass::Uniform,
            pointee: array,
        },
        &Pointer {
            storage_class: Class::Uniform,
            pointee: Array {
                element: Integer { width: 32, signedness: false },
                count: 7,
            },
        },
    );
}

#[test]
fn debug_functions_leave_the_return_type_as_it_is() {
    let mut cx = CodegenCx::new(64);
    let int = SpirvType::Integer(32, true).def(&mut cx);
    let seven = cx.constant_u32(7).def;
    let pointer = SpirvType::Pointer {
        storage_class: StorageClass::Generic,
        pointee: int,
    };
    let returned = vec![
        SpirvType::Void,
        SpirvType::Bool,
        SpirvType::Integer(16, true),
        SpirvType::Float(32),
        SpirvType::Adt {
            name: Some("R".to_string()),
            field_types: vec![int, int],
            field_offsets: Some(vec![0, 4]),
            field_names: Some(strings(&["a", "b"])),
        },
        SpirvType::Adt {
            name: None,
            field_types: vec![],
            field_offsets: None,
            field_names: None,
        },
        SpirvType::Vector { element: int, count: seven },
        SpirvType::Array { element: int, count: seven },
        pointer.clone(),
        SpirvType::Function { return_type: int, arguments: vec![int] },
    ];
    pointer.def(&mut cx);
    for ty in returned {
        let return_type = ty.def(&mut cx);
        check_debug(
            &cx,
            SpirvType::Function {
                return_type,
                arguments: vec![int, int],
            },
            &Function {
                return_type: ty,
                arguments: vec![
                    Box::new(Integer { width: 32, signedness: true }),
                    Box::new(Integer { width: 32, signedness: true }),
                ],
            },
        );
    }
    let void = SpirvType::Void.def(&mut cx);
    check_debug(
        &cx,
        SpirvType::Function { return_type: void, arguments: vec![] },
        &Function { return_type: SpirvType::Void, arguments: vec![] },
    );
}

#[test]
fn debug_stays() {
    let mut cx = CodegenCx::new(64);
    let int = SpirvType::Integer(32, true).def(&mut cx);
    let two = cx.constant_u32(2).def;
    let array = SpirvType::Array { element: int, count: two };
    let before = array.clone().debug(&cx).to_debug_string(true);
    cx.constant_u32(3);
    array.def(&mut cx);
    assert_eq!(array.debug(&cx).to_debug_string(true), before);
}
