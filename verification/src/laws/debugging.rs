//! What the debug output of each kind of type is made of.
use crate::printer::{
    debug_at, debug_id_at, debug_tree, debugs_at, lemma_debug_found, lemma_debug_id_deeper,
    lemma_debugs, lemma_debugs_deeper, opt_text_tree, opt_texts_tree, opt_words_tree, shallow_tree,
    words_tree,
};
use crate::spirv_type::Ty;
use crate::state::State;
use crate::storage::class_name;
use crate::text::{decimal, quoted_text, Form, Tree};
use rspirv::spirv::Word;
use vstd::prelude::*;

verus! {

/// Debug output that is only a text.
pub open spec fn leaf(text: Seq<char>) -> Tree {
    Tree { form: Form::Atom, text, labels: seq![], items: seq![] }
}

/// Debug output of a number.
pub open spec fn number_leaf(n: u64) -> Tree {
    leaf(decimal(n as nat))
}

/// Debug output of a struct.
pub open spec fn record(text: Seq<char>, labels: Seq<Seq<char>>, items: Seq<Tree>) -> Tree {
    Tree { form: Form::Struct, text, labels, items }
}

/// Debug output of a tuple.
pub open spec fn group(text: Seq<char>, items: Seq<Tree>) -> Tree {
    Tree { form: Form::Tuple, text, labels: seq![], items }
}

/// Debug output of a list.
pub open spec fn sequence(items: Seq<Tree>) -> Tree {
    Tree { form: Form::List, text: seq![], labels: seq![], items }
}

/// Debug output of a name, if there is one: in quotation marks.
pub open spec fn name_tree(name: Option<Seq<char>>) -> Tree {
    if name is Some {
        group("Some"@, seq![leaf(quoted_text(name->0))])
    } else {
        leaf("None"@)
    }
}

/// Debug output of numbers.
pub open spec fn numbers_tree(numbers: Seq<u32>) -> Tree {
    sequence(Seq::new(numbers.len(), |i: int| number_leaf(numbers[i] as u64)))
}

/// Debug output of offsets, if there are any.
pub open spec fn offsets_tree(offsets: Option<Seq<u32>>) -> Tree {
    if offsets is Some {
        group("Some"@, seq![numbers_tree(offsets->0)])
    } else {
        leaf("None"@)
    }
}

/// Debug output of the names of fields, if there are any.
pub open spec fn names_tree(names: Option<Seq<Seq<char>>>) -> Tree {
    if names is Some {
        group(
            "Some"@,
            seq![sequence(Seq::new(names->0.len(), |i: int| leaf(quoted_text(names->0[i]))))],
        )
    } else {
        leaf("None"@)
    }
}

proof fn lemma_parts(
    name: Option<Seq<char>>,
    words: Seq<u32>,
    offsets: Option<Seq<u32>>,
    names: Option<Seq<Seq<char>>>,
)
    ensures
        opt_text_tree(name) == name_tree(name),
        words_tree(words) == numbers_tree(words),
        opt_words_tree(offsets) == offsets_tree(offsets),
        opt_texts_tree(names) == names_tree(names),
{
    assert(words_tree(words).items =~= numbers_tree(words).items);
    if offsets is Some {
        assert(words_tree(offsets->0).items =~= numbers_tree(offsets->0).items);
    }
    if names is Some {
        let all = Seq::new(names->0.len(), |i: int| leaf(quoted_text(names->0[i])));
        assert(names->0.map_values(
            |text: Seq<char>| crate::text::atom(quoted_text(text)),
        ) =~= all);
    }
}

/// The debug output of the type that an id stands for, if there is any.
pub open spec fn traced(s: State, id: Word) -> Option<Tree> {
    if s.type_defs.contains_key(id) {
        debug_tree(s, s.type_defs[id])
    } else {
        None
    }
}

/// Whether the types that some ids stand for have debug output.
pub open spec fn all_traced(s: State, ids: Seq<Word>) -> bool {
    forall|i: int| 0 <= i < ids.len() ==> traced(s, #[trigger] ids[i]) is Some
}

proof fn lemma_traced_at(s: State, id: Word, depth: nat)
    requires
        debug_id_at(s, id, depth) is Some,
    ensures
        traced(s, id) == debug_id_at(s, id, depth),
{
    lemma_debug_found(s, s.type_defs[id], depth);
}

proof fn lemma_traced_depth(s: State, id: Word) -> (depth: nat)
    requires
        traced(s, id) is Some,
    ensures
        debug_id_at(s, id, depth) == traced(s, id),
{
    choose|depth: nat| debug_at(s, s.type_defs[id], depth) is Some
}

proof fn lemma_all_traced_depth(s: State, ids: Seq<Word>) -> (depth: nat)
    requires
        all_traced(s, ids),
    ensures
        debugs_at(s, ids, depth) is Some,
        debugs_at(s, ids, depth)->0 == Seq::new(ids.len(), |i: int| traced(s, ids[i])->0),
    decreases ids.len(),
{
    let all = Seq::new(ids.len(), |i: int| traced(s, ids[i])->0);
    if ids.len() == 0 {
        assert(all =~= Seq::<Tree>::empty());
        0
    } else {
        let rest = ids.drop_last();
        assert forall|i: int| 0 <= i < rest.len() implies traced(s, #[trigger] rest[i]) is Some by {
            assert(rest[i] == ids[i]);
        }
        assert(traced(s, ids[ids.len() - 1]) is Some);
        let one = lemma_all_traced_depth(s, rest);
        let two = lemma_traced_depth(s, ids.last());
        let depth = if one <= two {
            two
        } else {
            one
        };
        lemma_debugs_deeper(s, rest, one, depth);
        lemma_debug_id_deeper(s, ids.last(), two, depth);
        assert(debugs_at(s, ids, depth)->0 =~= all);
        depth
    }
}

proof fn lemma_debugs_traced(s: State, ids: Seq<Word>, depth: nat)
    requires
        debugs_at(s, ids, depth) is Some,
    ensures
        all_traced(s, ids),
{
    lemma_debugs(s, ids, depth);
    assert forall|i: int| 0 <= i < ids.len() implies traced(s, #[trigger] ids[i]) is Some by {
        assert(debug_id_at(s, ids[i], depth) is Some);
        lemma_traced_at(s, ids[i], depth);
    }
}

/// Scalars have their kind, and width and sign under their names.
pub proof fn law_scalar_debug(s: State, ty: Ty)
    ensures
        ty is Void ==> debug_tree(s, ty) == Some(record("Void"@, seq![], seq![])),
        ty is Bool ==> debug_tree(s, ty) == Some(record("Bool"@, seq![], seq![])),
        ty is Integer ==> debug_tree(s, ty) == Some(
            record(
                "Integer"@,
                seq!["width"@, "signedness"@],
                seq![
                    number_leaf(ty->Integer_0 as u64),
                    leaf(
                        if ty->Integer_1 {
                            "true"@
                        } else {
                            "false"@
                        },
                    ),
                ],
            ),
        ),
        ty is Float ==> debug_tree(s, ty) == Some(
            record("Float"@, seq!["width"@], seq![number_leaf(ty->Float_0 as u64)]),
        ),
{
    if debug_at(s, ty, 1) is Some {
        lemma_debug_found(s, ty, 1);
        let t = debug_at(s, ty, 1)->0;
        match ty {
            Ty::Integer(width, signedness) => {
                assert(t.labels =~= seq!["width"@, "signedness"@]);
                assert(t.items =~= seq![
                    number_leaf(width as u64),
                    leaf(
                        if signedness {
                            "true"@
                        } else {
                            "false"@
                        },
                    ),
                ]);
            },
            Ty::Float(width) => {
                assert(t.labels =~= seq!["width"@]);
                assert(t.items =~= seq![number_leaf(width as u64)]);
            },
            _ => {},
        }
    }
}

/// A struct has its name, the debug output of its field types in order, its offsets, and the
/// names of its fields. It has debug output exactly if its field types have.
pub proof fn law_struct_debug(s: State, ty: Ty)
    requires
        ty is Adt,
    ensures
        debug_tree(s, ty) is Some <==> all_traced(s, ty->field_types),
        all_traced(s, ty->field_types) ==> debug_tree(s, ty)->0 == record(
            "Adt"@,
            seq!["name"@, "field_types"@, "field_offsets"@, "field_names"@],
            seq![
                name_tree(ty->name),
                sequence(
                    Seq::new(
                        ty->field_types.len(),
                        |i: int| traced(s, ty->field_types[i])->0,
                    ),
                ),
                offsets_tree(ty->field_offsets),
                names_tree(ty->field_names),
            ],
        ),
{
    let ids = ty->field_types;
    if all_traced(s, ids) {
        let depth = lemma_all_traced_depth(s, ids);
        assert(debug_at(s, ty, depth + 1) is Some);
        lemma_debug_found(s, ty, depth + 1);
        lemma_parts(ty->name, seq![], ty->field_offsets, ty->field_names);
        let t = debug_tree(s, ty)->0;
        assert(t.labels =~= seq!["name"@, "field_types"@, "field_offsets"@, "field_names"@]);
        assert(t.items =~= seq![
            name_tree(ty->name),
            sequence(Seq::new(ids.len(), |i: int| traced(s, ids[i])->0)),
            offsets_tree(ty->field_offsets),
            names_tree(ty->field_names),
        ]);
    } else {
        assert forall|depth: nat| debug_at(s, ty, depth) is None by {
            if debug_at(s, ty, depth) is Some {
                lemma_debugs_traced(s, ids, (depth - 1) as nat);
            }
        }
    }
}

/// An array has the debug output of its element and the value of its count, and so has a
/// vector. They have debug output exactly if both are known.
pub proof fn law_array_debug(s: State, element: Word, count: Word)
    ensures
        ({
            let array = debug_tree(s, Ty::Array { element, count });
            let vector = debug_tree(s, Ty::Vector { element, count });
            if traced(s, element) is Some && s.constants.contains_key(count) {
                let items = seq![traced(s, element)->0, number_leaf(s.constants[count])];
                &&& array == Some(record("Array"@, seq!["element"@, "count"@], items))
                &&& vector == Some(record("Vector"@, seq!["element"@, "count"@], items))
            } else {
                array is None && vector is None
            }
        }),
{
    let array = Ty::Array { element, count };
    let vector = Ty::Vector { element, count };
    if traced(s, element) is Some && s.constants.contains_key(count) {
        let depth = lemma_traced_depth(s, element);
        assert(debug_at(s, array, depth + 1) is Some);
        assert(debug_at(s, vector, depth + 1) is Some);
        lemma_debug_found(s, array, depth + 1);
        lemma_debug_found(s, vector, depth + 1);
        let items = seq![traced(s, element)->0, number_leaf(s.constants[count])];
        assert(debug_tree(s, array)->0.labels =~= seq!["element"@, "count"@]);
        assert(debug_tree(s, array)->0.items =~= items);
        assert(debug_tree(s, vector)->0.labels =~= seq!["element"@, "count"@]);
        assert(debug_tree(s, vector)->0.items =~= items);
    } else {
        assert forall|depth: nat|
            debug_at(s, array, depth) is None && debug_at(s, vector, depth) is None by {
            if debug_at(s, array, depth) is Some || debug_at(s, vector, depth) is Some {
                lemma_traced_at(s, element, (depth - 1) as nat);
            }
        }
    }
}

/// A pointer has its storage class and the debug output of what it points to. It has debug
/// output exactly if that has.
pub proof fn law_pointer_debug(s: State, ty: Ty)
    requires
        ty is Pointer,
    ensures
        debug_tree(s, ty) is Some <==> traced(s, ty->pointee) is Some,
        traced(s, ty->pointee) is Some ==> debug_tree(s, ty)->0 == record(
            "Pointer"@,
            seq!["storage_class"@, "pointee"@],
            seq![leaf(class_name(ty->storage_class)), traced(s, ty->pointee)->0],
        ),
{
    let pointee = ty->pointee;
    if traced(s, pointee) is Some {
        let depth = lemma_traced_depth(s, pointee);
        assert(debug_at(s, ty, depth + 1) is Some);
        lemma_debug_found(s, ty, depth + 1);
        let t = debug_tree(s, ty)->0;
        assert(t.labels =~= seq!["storage_class"@, "pointee"@]);
        assert(t.items =~= seq![leaf(class_name(ty->storage_class)), traced(s, pointee)->0]);
    } else {
        assert forall|depth: nat| debug_at(s, ty, depth) is None by {
            if debug_at(s, ty, depth) is Some {
                lemma_traced_at(s, pointee, (depth - 1) as nat);
            }
        }
    }
}

/// A function has its return type, in which ids are left as they are, and the debug output of
/// its arguments in order. It has debug output exactly if its arguments have, and its return
/// type is known.
pub proof fn law_function_debug(s: State, ty: Ty)
    requires
        ty is Function,
    ensures
        ({
            let ids = ty->arguments;
            let is_known = all_traced(s, ids) && s.type_defs.contains_key(ty->return_type);
            &&& debug_tree(s, ty) is Some <==> is_known
            &&& is_known ==> debug_tree(s, ty)->0 == record(
                "Function"@,
                seq!["return_type"@, "arguments"@],
                seq![
                    shallow_tree(s.type_defs[ty->return_type]),
                    sequence(Seq::new(ids.len(), |i: int| traced(s, ids[i])->0)),
                ],
            )
        }),
{
    let ids = ty->arguments;
    if all_traced(s, ids) && s.type_defs.contains_key(ty->return_type) {
        let depth = lemma_all_traced_depth(s, ids);
        assert(debug_at(s, ty, depth + 1) is Some);
        lemma_debug_found(s, ty, depth + 1);
        let t = debug_tree(s, ty)->0;
        assert(t.labels =~= seq!["return_type"@, "arguments"@]);
        assert(t.items =~= seq![
            shallow_tree(s.type_defs[ty->return_type]),
            sequence(Seq::new(ids.len(), |i: int| traced(s, ids[i])->0)),
        ]);
    } else {
        assert forall|depth: nat| debug_at(s, ty, depth) is None by {
            if debug_at(s, ty, depth) is Some {
                lemma_debugs_traced(s, ids, (depth - 1) as nat);
            }
        }
    }
}

/// A type in which ids are left as they are: scalars without names for their parts, other types
/// with their parts under their names.
pub proof fn law_shallow_debug(ty: Ty)
    ensures
        ({
            let t = shallow_tree(ty);
            &&& ty is Void ==> t == leaf("Void"@)
            &&& ty is Bool ==> t == leaf("Bool"@)
            &&& ty is Integer ==> t == group(
                "Integer"@,
                seq![
                    number_leaf(ty->Integer_0 as u64),
                    leaf(
                        if ty->Integer_1 {
                            "true"@
                        } else {
                            "false"@
                        },
                    ),
                ],
            )
            &&& ty is Float ==> t == group("Float"@, seq![number_leaf(ty->Float_0 as u64)])
            &&& ty is Adt ==> t == record(
                "Adt"@,
                seq!["name"@, "field_types"@, "field_offsets"@, "field_names"@],
                seq![
                    name_tree(ty->name),
                    numbers_tree(ty->field_types),
                    offsets_tree(ty->field_offsets),
                    names_tree(ty->field_names),
                ],
            )
            &&& ty is Vector ==> t == record(
                "Vector"@,
                seq!["element"@, "count"@],
                seq![
                    number_leaf(ty->Vector_element as u64),
                    number_leaf(ty->Vector_count as u64),
                ],
            )
            &&& ty is Array ==> t == record(
                "Array"@,
                seq!["element"@, "count"@],
                seq![
                    number_leaf(ty->Array_element as u64),
                    number_leaf(ty->Array_count as u64),
                ],
            )
            &&& ty is Pointer ==> t == record(
                "Pointer"@,
                seq!["storage_class"@, "pointee"@],
                seq![leaf(class_name(ty->storage_class)), number_leaf(ty->pointee as u64)],
            )
            &&& ty is Function ==> t == record(
                "Function"@,
                seq!["return_type"@, "arguments"@],
                seq![number_leaf(ty->return_type as u64), numbers_tree(ty->arguments)],
            )
        }),
{
    let t = shallow_tree(ty);
    match ty {
        Ty::Adt { name, field_types, field_offsets, field_names } => {
            lemma_parts(name, field_types, field_offsets, field_names);
            assert(t.labels =~= seq!["name"@, "field_types"@, "field_offsets"@, "field_names"@]);
            assert(t.items =~= seq![
                name_tree(name),
                numbers_tree(field_types),
                offsets_tree(field_offsets),
                names_tree(field_names),
            ]);
        },
        Ty::Vector { element, count } | Ty::Array { element, count } => {
            assert(t.labels =~= seq!["element"@, "count"@]);
            assert(t.items =~= seq![number_leaf(element as u64), number_leaf(count as u64)]);
        },
        Ty::Pointer { storage_class, pointee } => {
            assert(t.labels =~= seq!["storage_class"@, "pointee"@]);
            assert(t.items =~= seq![leaf(class_name(storage_class)), number_leaf(pointee as u64)]);
        },
        Ty::Function { return_type, arguments } => {
            lemma_parts(None, arguments, None, None);
            assert(t.labels =~= seq!["return_type"@, "arguments"@]);
            assert(t.items =~= seq![number_leaf(return_type as u64), numbers_tree(arguments)]);
        },
        _ => {},
    }
}

} // verus!
