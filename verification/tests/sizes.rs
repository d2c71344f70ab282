use spirv_abi::codegen_cx::CodegenCx;
use spirv_abi::spirv_type::SpirvType;
use spirv_abi::storage::StorageClass;

fn adt(field_types: Vec<u32>) -> SpirvType {
    SpirvType::Adt {
        name: None,
        field_types,
        field_offsets: None,
        field_names: None,
    }
}

#[test]
fn scalars() {
    let cx = CodegenCx::new(64);
    assert_eq!(SpirvType::Void.sizeof_in_bits(&cx), 0);
    assert_eq!(SpirvType::Bool.sizeof_in_bits(&cx), 1);
    assert_eq!(SpirvType::Integer(8, false).sizeof_in_bits(&cx), 8);
    assert_eq!(SpirvType::Integer(64, true).sizeof_in_bits(&cx), 64);
    assert_eq!(SpirvType::Float(32).sizeof_in_bits(&cx), 32);
}

#[test]
fn pointers_have_the_size_of_the_target() {
    for bits in [32usize, 64] {
        let mut cx = CodegenCx::new(bits);
        let byte = SpirvType::Integer(8, false).def(&mut cx);
        let pointer = SpirvType::Pointer {
            storage_class: StorageClass::Generic,
            pointee: byte,
        };
        let function = SpirvType::Function {
            return_type: byte,
            arguments: vec![],
        };
        assert_eq!(pointer.sizeof_in_bits(&cx), bits);
        assert_eq!(function.sizeof_in_bits(&cx), bits);
    }
}

#[test]
fn arrays_and_vectors() {
    let mut cx = CodegenCx::new(64);
    let word = SpirvType::Integer(32, false).def(&mut cx);
    let five = cx.constant_u32(5).def;
    let none = cx.constant_u32(0).def;
    let array = SpirvType::Array { element: word, count: five };
    let vector = SpirvType::Vector { element: word, count: five };
    let empty = SpirvType::Array { element: word, count: none };
    assert_eq!(array.sizeof_in_bits(&cx), 160);
    assert_eq!(vector.sizeof_in_bits(&cx), 160);
    assert_eq!(empty.sizeof_in_bits(&cx), 0);
    let inner = array.def(&mut cx);
    let nested = SpirvType::Array { element: inner, count: five };
    assert_eq!(nested.sizeof_in_bits(&cx), 800);
}

#[test]
fn structs_add_up() {
    let mut cx = CodegenCx::new(64);
    let word = SpirvType::Integer(32, false).def(&mut cx);
    let bit = SpirvType::Bool.def(&mut cx);
    let inner = adt(vec![word, bit]).def(&mut cx);
    assert_eq!(adt(vec![]).sizeof_in_bits(&cx), 0);
    assert_eq!(adt(vec![word, bit]).sizeof_in_bits(&cx), 33);
    assert_eq!(adt(vec![bit, word]).sizeof_in_bits(&cx), 33);
    assert_eq!(adt(vec![inner, word, inner]).sizeof_in_bits(&cx), 98);
}

#[test]
fn offsets_do_not_count() {
    let mut cx = CodegenCx::new(64);
    let word = SpirvType::Integer(32, false).def(&mut cx);
    let ty = SpirvType::Adt {
        name: None,
        field_types: vec![word, word],
        field_offsets: Some(vec![0, 64]),
        field_names: None,
    };
    assert_eq!(ty.sizeof_in_bits(&cx), 64);
}

#[test]
fn sizes_stay() {
    let mut cx = CodegenCx::new(64);
    let word = SpirvType::Integer(32, false).def(&mut cx);
    let three = cx.constant_u32(3).def;
    let array = SpirvType::Array { element: word, count: three };
    let before = array.sizeof_in_bits(&cx);
    array.def(&mut cx);
    cx.constant_u32(4);
    SpirvType::Float(64).def(&mut cx);
    assert_eq!(before, 96);
    assert_eq!(array.sizeof_in_bits(&cx), before);
}
