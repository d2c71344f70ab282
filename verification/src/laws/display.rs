//! How each kind of type is displayed, said of the text itself.
use crate::laws::rendering::{begin, law_joined};
use crate::printer::{
    adt_header, display, display_at, display_id_at, displays_at, labelled, lemma_display_found,
    lemma_display_id_deeper, lemma_displays, lemma_displays_deeper,
};
use crate::spirv_type::Ty;
use crate::state::State;
use crate::storage::{class_name, StorageClass};
use crate::text::{decimal, join};
use rspirv::spirv::Word;
use vstd::prelude::*;

verus! {

/// The text of the type that an id stands for, if it has one.
pub open spec fn shown(s: State, id: Word) -> Option<Seq<char>> {
    if s.type_defs.contains_key(id) {
        display(s, s.type_defs[id])
    } else {
        None
    }
}

/// Whether the types that some ids stand for have texts.
pub open spec fn all_shown(s: State, ids: Seq<Word>) -> bool {
    forall|i: int| 0 <= i < ids.len() ==> shown(s, #[trigger] ids[i]) is Some
}

proof fn lemma_shown_at(s: State, id: Word, depth: nat)
    requires
        display_id_at(s, id, depth) is Some,
    ensures
        shown(s, id) == display_id_at(s, id, depth),
{
    lemma_display_found(s, s.type_defs[id], depth);
}

proof fn lemma_shown_depth(s: State, id: Word) -> (depth: nat)
    requires
        shown(s, id) is Some,
    ensures
        display_id_at(s, id, depth) == shown(s, id),
{
    choose|depth: nat| display_at(s, s.type_defs[id], depth) is Some
}

proof fn lemma_all_shown_depth(s: State, ids: Seq<Word>) -> (depth: nat)
    requires
        all_shown(s, ids),
    ensures
        displays_at(s, ids, depth) is Some,
        displays_at(s, ids, depth)->0.len() == ids.len(),
        forall|i: int|
            0 <= i < ids.len() ==> Some(displays_at(s, ids, depth)->0[i]) == shown(
                s,
                #[trigger] ids[i],
            ),
    decreases ids.len(),
{
    if ids.len() == 0 {
        0
    } else {
        let rest = ids.drop_last();
        assert forall|i: int| 0 <= i < rest.len() implies shown(s, #[trigger] rest[i]) is Some by {
            assert(rest[i] == ids[i]);
        }
        assert(shown(s, ids[ids.len() - 1]) is Some);
        let one = lemma_all_shown_depth(s, rest);
        let two = lemma_shown_depth(s, ids.last());
        let depth = if one <= two {
            two
        } else {
            one
        };
        lemma_displays_deeper(s, rest, one, depth);
        lemma_display_id_deeper(s, ids.last(), two, depth);
        assert forall|i: int| 0 <= i < ids.len() implies Some(
            displays_at(s, ids, depth)->0[i],
        ) == shown(s, #[trigger] ids[i]) by {
            if i < rest.len() {
                assert(rest[i] == ids[i]);
            }
        }
        depth
    }
}

proof fn lemma_displays_shown(s: State, ids: Seq<Word>, depth: nat)
    requires
        displays_at(s, ids, depth) is Some,
    ensures
        all_shown(s, ids),
{
    lemma_displays(s, ids, depth);
    assert forall|i: int| 0 <= i < ids.len() implies shown(s, #[trigger] ids[i]) is Some by {
        assert(display_id_at(s, ids[i], depth) is Some);
        lemma_shown_at(s, ids[i], depth);
    }
}

/// Scalars have short names: an integer begins with `i` or `u`, as it has a sign or not, a
/// float with `f`, and the width follows.
pub proof fn law_scalar_text(s: State, ty: Ty)
    ensures
        ty is Void ==> display(s, ty) == Some("void"@),
        ty is Bool ==> display(s, ty) == Some("bool"@),
        ty is Integer && ty->Integer_1 ==> display(s, ty) == Some(
            "i"@ + decimal(ty->Integer_0 as nat),
        ),
        ty is Integer && !ty->Integer_1 ==> display(s, ty) == Some(
            "u"@ + decimal(ty->Integer_0 as nat),
        ),
        ty is Float ==> display(s, ty) == Some("f"@ + decimal(ty->Float_0 as nat)),
{
    if display_at(s, ty, 1) is Some {
        lemma_display_found(s, ty, 1);
    }
}

/// A pointer is displayed with its storage class and what it points to, if that is displayed.
pub proof fn law_pointer_text(s: State, storage_class: StorageClass, pointee: Word)
    ensures
        ({
            let text = display(s, Ty::Pointer { storage_class, pointee });
            match shown(s, pointee) {
                Some(inner) => text == Some("*{"@ + class_name(storage_class) + "} "@ + inner),
                None => text is None,
            }
        }),
{
    let ty = Ty::Pointer { storage_class, pointee };
    if shown(s, pointee) is Some {
        let depth = lemma_shown_depth(s, pointee);
        assert(display_at(s, ty, depth + 1) is Some);
        lemma_display_found(s, ty, depth + 1);
    } else {
        assert forall|depth: nat| display_at(s, ty, depth) is None by {
            if display_at(s, ty, depth) is Some {
                lemma_shown_at(s, pointee, (depth - 1) as nat);
            }
        }
    }
}

/// An array is displayed with its element and the value of its count, if both are known, and
/// so is a vector.
pub proof fn law_array_text(s: State, element: Word, count: Word)
    ensures
        ({
            let array = display(s, Ty::Array { element, count });
            let vector = display(s, Ty::Vector { element, count });
            if shown(s, element) is Some && s.constants.contains_key(count) {
                let number = decimal(s.constants[count] as nat);
                &&& array == Some("["@ + shown(s, element)->0 + "; "@ + number + "]"@)
                &&& vector == Some("vec<"@ + shown(s, element)->0 + ", "@ + number + ">"@)
            } else {
                array is None && vector is None
            }
        }),
{
    let array = Ty::Array { element, count };
    let vector = Ty::Vector { element, count };
    if shown(s, element) is Some && s.constants.contains_key(count) {
        let depth = lemma_shown_depth(s, element);
        assert(display_at(s, array, depth + 1) is Some);
        assert(display_at(s, vector, depth + 1) is Some);
        lemma_display_found(s, array, depth + 1);
        lemma_display_found(s, vector, depth + 1);
    } else {
        assert forall|depth: nat|
            display_at(s, array, depth) is None && display_at(s, vector, depth) is None by {
            if display_at(s, array, depth) is Some || display_at(s, vector, depth) is Some {
                lemma_shown_at(s, element, (depth - 1) as nat);
            }
        }
    }
}

/// A function is displayed with the texts of its arguments in order, joined in parentheses,
/// and the text of its return type, if all of them are displayed.
pub proof fn law_function_text(s: State, return_type: Word, arguments: Seq<Word>)
    ensures
        ({
            let text = display(s, Ty::Function { return_type, arguments });
            if shown(s, return_type) is Some && all_shown(s, arguments) {
                text == Some(
                    "fn("@ + join(
                        Seq::new(arguments.len(), |i: int| shown(s, arguments[i])->0),
                    ) + ") -> "@ + shown(s, return_type)->0,
                )
            } else {
                text is None
            }
        }),
{
    let ty = Ty::Function { return_type, arguments };
    if shown(s, return_type) is Some && all_shown(s, arguments) {
        let one = lemma_shown_depth(s, return_type);
        let two = lemma_all_shown_depth(s, arguments);
        let depth = if one <= two {
            two
        } else {
            one
        };
        lemma_display_id_deeper(s, return_type, one, depth);
        lemma_displays_deeper(s, arguments, two, depth);
        let texts = displays_at(s, arguments, depth)->0;
        assert(texts =~= Seq::new(arguments.len(), |i: int| shown(s, arguments[i])->0));
        assert(display_at(s, ty, depth + 1) is Some);
        lemma_display_found(s, ty, depth + 1);
    } else {
        assert forall|depth: nat| display_at(s, ty, depth) is None by {
            if display_at(s, ty, depth) is Some {
                lemma_shown_at(s, return_type, (depth - 1) as nat);
                lemma_displays_shown(s, arguments, (depth - 1) as nat);
            }
        }
    }
}

/// How the text of a struct begins.
pub open spec fn struct_opening(name: Option<Seq<char>>) -> Seq<char> {
    match name {
        Some(name) => "struct "@ + name + " { "@,
        None => "struct { "@,
    }
}

/// A struct is displayed with its name, if it has one, and its fields in order, joined in
/// braces. If there are names for the fields, each field stands behind its own name, a colon,
/// and a space. It is not displayed if a field is not, or if there are fewer names than fields.
pub proof fn law_struct_text(s: State, ty: Ty)
    requires
        ty is Adt,
    ensures
        ({
            let ids = ty->field_types;
            let names = ty->field_names;
            let text = display(s, ty);
            if !all_shown(s, ids) || (names is Some && names->0.len() < ids.len()) {
                text is None
            } else if names is None {
                text == Some(
                    struct_opening(ty->name) + join(
                        Seq::new(ids.len(), |i: int| shown(s, ids[i])->0),
                    ) + " }"@,
                )
            } else {
                text == Some(
                    struct_opening(ty->name) + join(
                        Seq::new(
                            ids.len(),
                            |i: int| names->0[i] + ": "@ + shown(s, ids[i])->0,
                        ),
                    ) + " }"@,
                )
            }
        }),
{
    let ids = ty->field_types;
    let names = ty->field_names;
    if all_shown(s, ids) && !(names is Some && names->0.len() < ids.len()) {
        let depth = lemma_all_shown_depth(s, ids);
        let texts = displays_at(s, ids, depth)->0;
        let parts = Seq::new(texts.len(), |i: int| labelled(names, texts, i));
        assert(display_at(s, ty, depth + 1) == Some(adt_header(ty->name) + join(parts) + " }"@));
        lemma_display_found(s, ty, depth + 1);
        assert forall|i: int| 0 <= i < ids.len() implies Some(#[trigger] texts[i]) == shown(
            s,
            ids[i],
        ) by {
            assert(shown(s, ids[i]) is Some);
        }
        if names is None {
            assert(parts =~= Seq::new(ids.len(), |i: int| shown(s, ids[i])->0));
        } else {
            assert(parts =~= Seq::new(
                ids.len(),
                |i: int| names->0[i] + ": "@ + shown(s, ids[i])->0,
            ));
        }
    } else {
        assert forall|depth: nat| display_at(s, ty, depth) is None by {
            if display_at(s, ty, depth) is Some {
                lemma_displays_shown(s, ids, (depth - 1) as nat);
                lemma_displays(s, ids, (depth - 1) as nat);
            }
        }
    }
}

/// The fields of a struct with names as they stand in its text.
pub open spec fn named_fields(s: State, ty: Ty) -> Seq<Seq<char>> {
    Seq::new(
        ty->field_types.len(),
        |i: int| ty->field_names->0[i] + ": "@ + shown(s, ty->field_types[i])->0,
    )
}

/// In the text of a struct with names, field `i` stands behind those before it: first its own
/// name, then a colon and a space, then the text of its own type. A comma and a space follow,
/// or the end of the struct.
pub proof fn law_field_text(s: State, ty: Ty, i: int)
    requires
        ty is Adt,
        ty->field_names is Some,
        ty->field_names->0.len() >= ty->field_types.len(),
        all_shown(s, ty->field_types),
        0 <= i < ty->field_types.len(),
    ensures
        display(s, ty) is Some,
        ({
            let text = display(s, ty)->0;
            let name = ty->field_names->0[i];
            let field = shown(s, ty->field_types[i])->0;
            let at = (struct_opening(ty->name).len() + begin(named_fields(s, ty), 2, i)) as int;
            let middle = at + name.len();
            let end = middle + 2 + field.len();
            &&& end + 2 <= text.len()
            &&& text.subrange(at, middle) == name
            &&& text[middle] == ':'
            &&& text[middle + 1] == ' '
            &&& text.subrange(middle + 2, end) == field
            &&& i + 1 < ty->field_types.len() ==> text[end] == ',' && text[end + 1] == ' '
            &&& i + 1 == ty->field_types.len() ==> text[end] == ' ' && text[end + 1] == '}'
                && text.len() == end + 2
        }),
{
    reveal_strlit(": ");
    reveal_strlit(" }");
    law_struct_text(s, ty);
    let parts = named_fields(s, ty);
    law_joined(parts, i);
    let text = display(s, ty)->0;
    let name = ty->field_names->0[i];
    let field = shown(s, ty->field_types[i])->0;
    let head = struct_opening(ty->name);
    let inside = join(parts);
    assert(text =~= head + inside + " }"@);
    let start = begin(parts, 2, i) as int;
    let at = head.len() + start;
    let middle = at + name.len();
    let end = middle + 2 + field.len();
    assert(parts[i] == name + ": "@ + field);
    let part = inside.subrange(start, start + parts[i].len());
    assert(part == parts[i]);
    assert(text.subrange(at, middle) =~= part.subrange(0, name.len() as int));
    assert(part.subrange(0, name.len() as int) =~= name);
    assert(text[middle] == part[name.len() as int]);
    assert(text[middle + 1] == part[name.len() as int + 1]);
    assert(text.subrange(middle + 2, end) =~= part.subrange(
        name.len() as int + 2,
        part.len() as int,
    ));
    assert(part.subrange(name.len() as int + 2, part.len() as int) =~= field);
    if i + 1 < ty->field_types.len() {
        assert(text[end] == inside[start + parts[i].len()]);
        assert(text[end + 1] == inside[start + parts[i].len() + 1]);
    } else {
        assert(begin(parts, 2, i + 1) == begin(parts, 2, i) + parts[i].len() + 2);
        assert(inside.len() == start + parts[i].len());
        assert(text[end] == " }"@[0]);
        assert(text[end + 1] == " }"@[1]);
    }
}

/// The name of each storage class.
pub proof fn law_class_names()
    ensures
        class_name(StorageClass::UniformConstant) == "UniformConstant"@,
        class_name(StorageClass::Input) == "Input"@,
        class_name(StorageClass::Uniform) == "Uniform"@,
        class_name(StorageClass::Output) == "Output"@,
        class_name(StorageClass::Workgroup) == "Workgroup"@,
        class_name(StorageClass::CrossWorkgroup) == "CrossWorkgroup"@,
        class_name(StorageClass::Private) == "Private"@,
        class_name(StorageClass::Function) == "Function"@,
        class_name(StorageClass::Generic) == "Generic"@,
        class_name(StorageClass::PushConstant) == "PushConstant"@,
        class_name(StorageClass::AtomicCounter) == "AtomicCounter"@,
        class_name(StorageClass::Image) == "Image"@,
        class_name(StorageClass::StorageBuffer) == "StorageBuffer"@,
        class_name(StorageClass::CallableDataNV) == "CallableDataNV"@,
        class_name(StorageClass::IncomingCallableDataNV) == "IncomingCallableDataNV"@,
        class_name(StorageClass::RayPayloadNV) == "RayPayloadNV"@,
        class_name(StorageClass::HitAttributeNV) == "HitAttributeNV"@,
        class_name(StorageClass::IncomingRayPayloadNV) == "IncomingRayPayloadNV"@,
        class_name(StorageClass::ShaderRecordBufferNV) == "ShaderRecordBufferNV"@,
        class_name(StorageClass::PhysicalStorageBuffer) == "PhysicalStorageBuffer"@,
        class_name(StorageClass::CodeSectionINTEL) == "CodeSectionINTEL"@,
{
}

} // verus!
