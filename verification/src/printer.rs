//! Types as text.
use crate::codegen_cx::CodegenCx;
use crate::spirv_type::{opt_text, opt_texts, opt_words, texts, SpirvType, Ty};
use crate::state::State;
use crate::storage::class_name;
use crate::text::{
    atom, decimal, join, lemma_join_push, lemma_trees_push, list, named, push_decimal, quoted,
    quoted_text, render, trees, truth, tuple, DebugNode, Tree,
};
use rspirv::spirv::Word;
use vstd::prelude::*;

verus! {

/// A type together with the context that its ids belong to.
pub struct SpirvTypePrinter<'cx> {
    ty: SpirvType,
    cx: &'cx CodegenCx,
}

/// A type in the way it is displayed, following ids through at most `depth` types. There is
/// no such text where an id stands for no type, a count is no integer constant, or a field
/// has no name while others have.
pub open spec fn display_at(s: State, ty: Ty, depth: nat) -> Option<Seq<char>>
    decreases depth, 0nat,
{
    if depth == 0 {
        None
    } else {
        match ty {
            Ty::Void => Some("void"@),
            Ty::Bool => Some("bool"@),
            Ty::Integer(width, signedness) => Some(
                (if signedness {
                    "i"@
                } else {
                    "u"@
                }) + decimal(width as nat),
            ),
            Ty::Float(width) => Some("f"@ + decimal(width as nat)),
            Ty::Adt { name, field_types, field_names, .. } => match displays_at(
                s,
                field_types,
                (depth - 1) as nat,
            ) {
                Some(fields) => if field_names is None || fields.len() <= field_names->0.len() {
                    Some(
                        adt_header(name) + join(
                            Seq::new(fields.len(), |i: int| labelled(field_names, fields, i)),
                        ) + " }"@,
                    )
                } else {
                    None
                },
                None => None,
            },
            Ty::Vector { element, count } => match display_id_at(s, element, (depth - 1) as nat) {
                Some(element) => if s.constants.contains_key(count) {
                    Some("vec<"@ + element + ", "@ + decimal(s.constants[count] as nat) + ">"@)
                } else {
                    None
                },
                None => None,
            },
            Ty::Array { element, count } => match display_id_at(s, element, (depth - 1) as nat) {
                Some(element) => if s.constants.contains_key(count) {
                    Some("["@ + element + "; "@ + decimal(s.constants[count] as nat) + "]"@)
                } else {
                    None
                },
                None => None,
            },
            Ty::Pointer { storage_class, pointee } => match display_id_at(
                s,
                pointee,
                (depth - 1) as nat,
            ) {
                Some(pointee) => Some("*{"@ + class_name(storage_class) + "} "@ + pointee),
                None => None,
            },
            Ty::Function { return_type, arguments } => match (
                displays_at(s, arguments, (depth - 1) as nat),
                display_id_at(s, return_type, (depth - 1) as nat),
            ) {
                (Some(arguments), Some(return_type)) => Some(
                    "fn("@ + join(arguments) + ") -> "@ + return_type,
                ),
                _ => None,
            },
        }
    }
}

/// The type that an id stands for, as in [`display_at`].
pub open spec fn display_id_at(s: State, id: Word, depth: nat) -> Option<Seq<char>>
    decreases depth, 1nat,
{
    if s.type_defs.contains_key(id) {
        display_at(s, s.type_defs[id], depth)
    } else {
        None
    }
}

/// The types that some ids stand for, as in [`display_at`].
pub open spec fn displays_at(s: State, ids: Seq<Word>, depth: nat) -> Option<Seq<Seq<char>>>
    decreases depth, ids.len() + 2,
{
    if ids.len() == 0 {
        Some(seq![])
    } else {
        match (displays_at(s, ids.drop_last(), depth), display_id_at(s, ids.last(), depth)) {
            (Some(texts), Some(text)) => Some(texts.push(text)),
            _ => None,
        }
    }
}

/// How the text of a struct begins.
pub open spec fn adt_header(name: Option<Seq<char>>) -> Seq<char> {
    match name {
        Some(name) => "struct "@ + name + " { "@,
        None => "struct { "@,
    }
}

/// A field behind its name, if the fields have names.
pub open spec fn labelled(
    names: Option<Seq<Seq<char>>>,
    fields: Seq<Seq<char>>,
    i: int,
) -> Seq<char> {
    match names {
        Some(names) => names[i] + ": "@ + fields[i],
        None => fields[i],
    }
}

/// A type in the way it is displayed, if it can be.
pub open spec fn display(s: State, ty: Ty) -> Option<Seq<char>> {
    if exists|depth: nat| display_at(s, ty, depth) is Some {
        display_at(s, ty, choose|depth: nat| display_at(s, ty, depth) is Some)
    } else {
        None
    }
}

/// Debug output of an optional text.
pub open spec fn opt_text_tree(text: Option<Seq<char>>) -> Tree {
    match text {
        Some(text) => tuple("Some"@, seq![atom(quoted_text(text))]),
        None => atom("None"@),
    }
}

/// Debug output of some words.
pub open spec fn words_tree(words: Seq<u32>) -> Tree {
    list(words.map_values(|word: u32| atom(decimal(word as nat))))
}

/// Debug output of an optional list of words.
pub open spec fn opt_words_tree(words: Option<Seq<u32>>) -> Tree {
    match words {
        Some(words) => tuple("Some"@, seq![words_tree(words)]),
        None => atom("None"@),
    }
}

/// Debug output of an optional list of texts.
pub open spec fn opt_texts_tree(texts: Option<Seq<Seq<char>>>) -> Tree {
    match texts {
        Some(texts) => tuple(
            "Some"@,
            seq![list(texts.map_values(|text: Seq<char>| atom(quoted_text(text))))],
        ),
        None => atom("None"@),
    }
}

/// Debug output of a type whose ids are left as they are.
pub open spec fn shallow_tree(ty: Ty) -> Tree {
    match ty {
        Ty::Void => atom("Void"@),
        Ty::Bool => atom("Bool"@),
        Ty::Integer(width, signedness) => tuple(
            "Integer"@,
            seq![atom(decimal(width as nat)), truth(signedness)],
        ),
        Ty::Float(width) => tuple("Float"@, seq![atom(decimal(width as nat))]),
        Ty::Adt { name, field_types, field_offsets, field_names } => named("Adt"@).field(
            "name"@,
            opt_text_tree(name),
        ).field("field_types"@, words_tree(field_types)).field(
            "field_offsets"@,
            opt_words_tree(field_offsets),
        ).field("field_names"@, opt_texts_tree(field_names)),
        Ty::Vector { element, count } => named("Vector"@).field(
            "element"@,
            atom(decimal(element as nat)),
        ).field("count"@, atom(decimal(count as nat))),
        Ty::Array { element, count } => named("Array"@).field(
            "element"@,
            atom(decimal(element as nat)),
        ).field("count"@, atom(decimal(count as nat))),
        Ty::Pointer { storage_class, pointee } => named("Pointer"@).field(
            "storage_class"@,
            atom(class_name(storage_class)),
        ).field("pointee"@, atom(decimal(pointee as nat))),
        Ty::Function { return_type, arguments } => named("Function"@).field(
            "return_type"@,
            atom(decimal(return_type as nat)),
        ).field("arguments"@, words_tree(arguments)),
    }
}

/// Debug output of a type, following ids through at most `depth` types. There is none where
/// an id stands for no type, or a count is no integer constant. The return type of a function
/// is not followed further.
pub open spec fn debug_at(s: State, ty: Ty, depth: nat) -> Option<Tree>
    decreases depth, 0nat,
{
    if depth == 0 {
        None
    } else {
        match ty {
            Ty::Void => Some(named("Void"@)),
            Ty::Bool => Some(named("Bool"@)),
            Ty::Integer(width, signedness) => Some(
                named("Integer"@).field("width"@, atom(decimal(width as nat))).field(
                    "signedness"@,
                    truth(signedness),
                ),
            ),
            Ty::Float(width) => Some(
                named("Float"@).field("width"@, atom(decimal(width as nat))),
            ),
            Ty::Adt { name, field_types, field_offsets, field_names } => match debugs_at(
                s,
                field_types,
                (depth - 1) as nat,
            ) {
                Some(fields) => Some(
                    named("Adt"@).field("name"@, opt_text_tree(name)).field(
                        "field_types"@,
                        list(fields),
                    ).field("field_offsets"@, opt_words_tree(field_offsets)).field(
                        "field_names"@,
                        opt_texts_tree(field_names),
                    ),
                ),
                None => None,
            },
            Ty::Vector { element, count } => match debug_id_at(s, element, (depth - 1) as nat) {
                Some(element) => if s.constants.contains_key(count) {
                    Some(
                        named("Vector"@).field("element"@, element).field(
                            "count"@,
                            atom(decimal(s.constants[count] as nat)),
                        ),
                    )
                } else {
                    None
                },
                None => None,
            },
            Ty::Array { element, count } => match debug_id_at(s, element, (depth - 1) as nat) {
                Some(element) => if s.constants.contains_key(count) {
                    Some(
                        named("Array"@).field("element"@, element).field(
                            "count"@,
                            atom(decimal(s.constants[count] as nat)),
                        ),
                    )
                } else {
                    None
                },
                None => None,
            },
            Ty::Pointer { storage_class, pointee } => match debug_id_at(
                s,
                pointee,
                (depth - 1) as nat,
            ) {
                Some(pointee) => Some(
                    named("Pointer"@).field("storage_class"@, atom(class_name(storage_class))).field(
                        "pointee"@,
                        pointee,
                    ),
                ),
                None => None,
            },
            Ty::Function { return_type, arguments } => match debugs_at(
                s,
                arguments,
                (depth - 1) as nat,
            ) {
                Some(arguments) => if s.type_defs.contains_key(return_type) {
                    Some(
                        named("Function"@).field(
                            "return_type"@,
                            shallow_tree(s.type_defs[return_type]),
                        ).field("arguments"@, list(arguments)),
                    )
                } else {
                    None
                },
                None => None,
            },
        }
    }
}

/// The type that an id stands for, as in [`debug_at`].
pub open spec fn debug_id_at(s: State, id: Word, depth: nat) -> Option<Tree>
    decreases depth, 1nat,
{
    if s.type_defs.contains_key(id) {
        debug_at(s, s.type_defs[id], depth)
    } else {
        None
    }
}

/// The types that some ids stand for, as in [`debug_at`].
pub open spec fn debugs_at(s: State, ids: Seq<Word>, depth: nat) -> Option<Seq<Tree>>
    decreases depth, ids.len() + 2,
{
    if ids.len() == 0 {
        Some(seq![])
    } else {
        match (debugs_at(s, ids.drop_last(), depth), debug_id_at(s, ids.last(), depth)) {
            (Some(trees), Some(tree)) => Some(trees.push(tree)),
            _ => None,
        }
    }
}

/// Debug output of a type, if there is any.
pub open spec fn debug_tree(s: State, ty: Ty) -> Option<Tree> {
    if exists|depth: nat| debug_at(s, ty, depth) is Some {
        debug_at(s, ty, choose|depth: nat| debug_at(s, ty, depth) is Some)
    } else {
        None
    }
}

/// What is found for several ids is what is found for each of them.
pub proof fn lemma_displays(s: State, ids: Seq<Word>, depth: nat)
    requires
        displays_at(s, ids, depth) is Some,
    ensures
        displays_at(s, ids, depth)->0.len() == ids.len(),
        forall|i: int|
            0 <= i < ids.len() ==> #[trigger] display_id_at(s, ids[i], depth) == Some(
                displays_at(s, ids, depth)->0[i],
            ),
    decreases ids.len(),
{
    if ids.len() > 0 {
        let all = displays_at(s, ids, depth)->0;
        let rest = ids.drop_last();
        lemma_displays(s, rest, depth);
        assert forall|i: int| 0 <= i < ids.len() implies #[trigger] display_id_at(
            s,
            ids[i],
            depth,
        ) == Some(all[i]) by {
            if i < rest.len() {
                assert(rest[i] == ids[i]);
                assert(displays_at(s, rest, depth)->0[i] == all[i]);
            }
        }
    }
}

/// What is found for several ids is what is found for each of them.
pub proof fn lemma_debugs(s: State, ids: Seq<Word>, depth: nat)
    requires
        debugs_at(s, ids, depth) is Some,
    ensures
        debugs_at(s, ids, depth)->0.len() == ids.len(),
        forall|i: int|
            0 <= i < ids.len() ==> #[trigger] debug_id_at(s, ids[i], depth) == Some(
                debugs_at(s, ids, depth)->0[i],
            ),
    decreases ids.len(),
{
    if ids.len() > 0 {
        let all = debugs_at(s, ids, depth)->0;
        let rest = ids.drop_last();
        lemma_debugs(s, rest, depth);
        assert forall|i: int| 0 <= i < ids.len() implies #[trigger] debug_id_at(
            s,
            ids[i],
            depth,
        ) == Some(all[i]) by {
            if i < rest.len() {
                assert(rest[i] == ids[i]);
                assert(debugs_at(s, rest, depth)->0[i] == all[i]);
            }
        }
    }
}

/// Looking deeper does not change the text.
proof fn lemma_display_deeper(s: State, ty: Ty, depth: nat, deeper: nat)
    requires
        display_at(s, ty, depth) is Some,
        depth <= deeper,
    ensures
        display_at(s, ty, deeper) == display_at(s, ty, depth),
    decreases depth, 0nat,
{
    let less = (depth - 1) as nat;
    let more = (deeper - 1) as nat;
    match ty {
        Ty::Adt { field_types, .. } => {
            lemma_displays_deeper(s, field_types, less, more);
        },
        Ty::Vector { element, .. } | Ty::Array { element, .. } => {
            lemma_display_id_deeper(s, element, less, more);
        },
        Ty::Pointer { pointee, .. } => {
            lemma_display_id_deeper(s, pointee, less, more);
        },
        Ty::Function { return_type, arguments } => {
            lemma_displays_deeper(s, arguments, less, more);
            lemma_display_id_deeper(s, return_type, less, more);
        },
        _ => {},
    }
}

/// Looking deeper does not change the text of the type that an id stands for.
pub proof fn lemma_display_id_deeper(s: State, id: Word, depth: nat, deeper: nat)
    requires
        display_id_at(s, id, depth) is Some,
        depth <= deeper,
    ensures
        display_id_at(s, id, deeper) == display_id_at(s, id, depth),
    decreases depth, 1nat,
{
    lemma_display_deeper(s, s.type_defs[id], depth, deeper);
}

/// Looking deeper does not change the texts of the types that some ids stand for.
pub proof fn lemma_displays_deeper(s: State, ids: Seq<Word>, depth: nat, deeper: nat)
    requires
        displays_at(s, ids, depth) is Some,
        depth <= deeper,
    ensures
        displays_at(s, ids, deeper) == displays_at(s, ids, depth),
    decreases depth, ids.len() + 2,
{
    if ids.len() > 0 {
        lemma_displays_deeper(s, ids.drop_last(), depth, deeper);
        lemma_display_id_deeper(s, ids.last(), depth, deeper);
    }
}

/// What is found at any depth is the text.
pub proof fn lemma_display_found(s: State, ty: Ty, depth: nat)
    requires
        display_at(s, ty, depth) is Some,
    ensures
        display(s, ty) == display_at(s, ty, depth),
{
    let other = choose|depth: nat| display_at(s, ty, depth) is Some;
    if other <= depth {
        lemma_display_deeper(s, ty, other, depth);
    } else {
        lemma_display_deeper(s, ty, depth, other);
    }
}

/// Looking deeper does not change the debug output.
proof fn lemma_debug_deeper(s: State, ty: Ty, depth: nat, deeper: nat)
    requires
        debug_at(s, ty, depth) is Some,
        depth <= deeper,
    ensures
        debug_at(s, ty, deeper) == debug_at(s, ty, depth),
    decreases depth, 0nat,
{
    let less = (depth - 1) as nat;
    let more = (deeper - 1) as nat;
    match ty {
        Ty::Adt { field_types, .. } => {
            lemma_debugs_deeper(s, field_types, less, more);
        },
        Ty::Vector { element, .. } | Ty::Array { element, .. } => {
            lemma_debug_id_deeper(s, element, less, more);
        },
        Ty::Pointer { pointee, .. } => {
            lemma_debug_id_deeper(s, pointee, less, more);
        },
        Ty::Function { arguments, .. } => {
            lemma_debugs_deeper(s, arguments, less, more);
        },
        _ => {},
    }
}

/// Looking deeper does not change the debug output of the type that an id stands for.
pub proof fn lemma_debug_id_deeper(s: State, id: Word, depth: nat, deeper: nat)
    requires
        debug_id_at(s, id, depth) is Some,
        depth <= deeper,
    ensures
        debug_id_at(s, id, deeper) == debug_id_at(s, id, depth),
    decreases depth, 1nat,
{
    lemma_debug_deeper(s, s.type_defs[id], depth, deeper);
}

/// Looking deeper does not change the debug output of the types that some ids stand for.
pub proof fn lemma_debugs_deeper(s: State, ids: Seq<Word>, depth: nat, deeper: nat)
    requires
        debugs_at(s, ids, depth) is Some,
        depth <= deeper,
    ensures
        debugs_at(s, ids, deeper) == debugs_at(s, ids, depth),
    decreases depth, ids.len() + 2,
{
    if ids.len() > 0 {
        lemma_debugs_deeper(s, ids.drop_last(), depth, deeper);
        lemma_debug_id_deeper(s, ids.last(), depth, deeper);
    }
}

/// What is found at any depth is the debug output.
pub proof fn lemma_debug_found(s: State, ty: Ty, depth: nat)
    requires
        debug_at(s, ty, depth) is Some,
    ensures
        debug_tree(s, ty) == debug_at(s, ty, depth),
{
    let other = choose|depth: nat| debug_at(s, ty, depth) is Some;
    if other <= depth {
        lemma_debug_deeper(s, ty, other, depth);
    } else {
        lemma_debug_deeper(s, ty, depth, other);
    }
}

/// Appends the types that some ids stand for, with a comma and a space between them, each
/// behind its name if there are names.
fn write_types(
    ids: &Vec<Word>,
    names: &Option<Vec<String>>,
    cx: &CodegenCx,
    out: &mut String,
    Ghost(depth): Ghost<nat>,
)
    requires
        displays_at(cx@, ids@, depth) is Some,
        names is None || ids@.len() <= names->0@.len(),
    ensures
        final(out)@ == old(out)@ + join(
            Seq::new(
                ids@.len(),
                |i: int| labelled(opt_texts(*names), displays_at(cx@, ids@, depth)->0, i),
            ),
        ),
    decreases depth, 1nat,
{
    let ghost head = out@;
    let ghost texts = displays_at(cx@, ids@, depth)->0;
    let ghost parts = Seq::new(ids@.len(), |i: int| labelled(opt_texts(*names), texts, i));
    assert(out@ =~= head + join(parts.take(0)));
    for index in 0..ids.len()
        invariant
            displays_at(cx@, ids@, depth) is Some,
            names is None || ids@.len() <= names->0@.len(),
            texts == displays_at(cx@, ids@, depth)->0,
            parts == Seq::new(ids@.len(), |i: int| labelled(opt_texts(*names), texts, i)),
            out@ == head + join(parts.take(index as int)),
    {
        let ghost i = index as int;
        proof {
            lemma_displays(cx@, ids@, depth);
            assert(display_id_at(cx@, ids@[i], depth) is Some);
        }
        if index > 0 {
            out.append(", ");
        }
        if let Some(names) = names {
            out.append(&names[index]);
            out.append(": ");
        }
        let ty: SpirvType = cx.lookup_type(ids[index]);
        write_display(&ty, cx, out, Ghost(depth));
        proof {
            assert(parts.take(i + 1) =~= parts.take(i).push(parts[i]));
            lemma_join_push(parts.take(i), parts[i]);
            assert(out@ =~= head + join(parts.take(i + 1)));
        }
    }
    assert(parts.take(ids@.len() as int) =~= parts);
}

/// Appends a type in the way it is displayed.
fn write_display(ty: &SpirvType, cx: &CodegenCx, out: &mut String, Ghost(depth): Ghost<nat>)
    requires
        display_at(cx@, ty@, depth) is Some,
    ensures
        final(out)@ == old(out)@ + display_at(cx@, ty@, depth)->0,
    decreases depth, 0nat,
{
    let ghost before = out@;
    let ghost text = display_at(cx@, ty@, depth)->0;
    let ghost deeper = (depth - 1) as nat;
    proof {
        match ty@ {
            Ty::Adt { field_types, .. } => lemma_displays(cx@, field_types, deeper),
            Ty::Function { arguments, .. } => lemma_displays(cx@, arguments, deeper),
            _ => {},
        }
    }
    match ty {
        SpirvType::Void => out.append("void"),
        SpirvType::Bool => out.append("bool"),
        SpirvType::Integer(width, signedness) => {
            out.append(
                if *signedness {
                    "i"
                } else {
                    "u"
                },
            );
            push_decimal(out, *width as u64);
        },
        SpirvType::Float(width) => {
            out.append("f");
            push_decimal(out, *width as u64);
        },
        SpirvType::Adt { name, field_types, field_offsets: _, field_names } => {
            if let Some(name) = name {
                out.append("struct ");
                out.append(name);
                out.append(" { ");
            } else {
                out.append("struct { ");
            }
            write_types(field_types, field_names, cx, out, Ghost(deeper));
            out.append(" }");
        },
        SpirvType::Vector { element, count } => {
            let len: u64 = cx.lookup_const_u64(*count).unwrap();
            out.append("vec<");
            write_display(&cx.lookup_type(*element), cx, out, Ghost(deeper));
            out.append(", ");
            push_decimal(out, len);
            out.append(">");
        },
        SpirvType::Array { element, count } => {
            let len: u64 = cx.lookup_const_u64(*count).unwrap();
            out.append("[");
            write_display(&cx.lookup_type(*element), cx, out, Ghost(deeper));
            out.append("; ");
            push_decimal(out, len);
            out.append("]");
        },
        SpirvType::Pointer { storage_class, pointee } => {
            out.append("*{");
            out.append(storage_class.name());
            out.append("} ");
            write_display(&cx.lookup_type(*pointee), cx, out, Ghost(deeper));
        },
        SpirvType::Function { return_type, arguments } => {
            out.append("fn(");
            write_types(arguments, &None, cx, out, Ghost(deeper));
            proof {
                let parts = displays_at(cx@, arguments@, deeper)->0;
                assert(Seq::new(parts.len(), |i: int| labelled(None, parts, i)) =~= parts);
            }
            out.append(") -> ");
            write_display(&cx.lookup_type(*return_type), cx, out, Ghost(deeper));
        },
    }
    assert(out@ =~= before + text);
}

/// Debug output of an optional text.
fn opt_text_node(text: &Option<String>) -> (r: DebugNode)
    ensures
        r@ == opt_text_tree(opt_text(*text)),
{
    match text {
        Some(text) => {
            let mut items: Vec<DebugNode> = Vec::new();
            items.push(DebugNode::atom(&quoted(text)));
            proof {
                lemma_trees_push(seq![], items@[0]);
                assert(trees(items@) =~= seq![items@[0]@]);
            }
            DebugNode::tuple("Some", items)
        },
        None => DebugNode::atom("None"),
    }
}

/// Debug output of some words.
fn words_node(words: &Vec<u32>) -> (r: DebugNode)
    ensures
        r@ == words_tree(words@),
{
    let ghost all = words@.map_values(|word: u32| atom(decimal(word as nat)));
    let mut items: Vec<DebugNode> = Vec::new();
    for i in 0..words.len()
        invariant
            all == words@.map_values(|word: u32| atom(decimal(word as nat))),
            trees(items@) == all.take(i as int),
    {
        let item: DebugNode = DebugNode::number(words[i] as u64);
        proof {
            lemma_trees_push(items@, item);
            assert(all.take(i + 1) =~= all.take(i as int).push(all[i as int]));
        }
        items.push(item);
    }
    assert(all.take(words@.len() as int) =~= all);
    DebugNode::list(items)
}

/// Debug output of an optional list of words.
fn opt_words_node(words: &Option<Vec<u32>>) -> (r: DebugNode)
    ensures
        r@ == opt_words_tree(opt_words(*words)),
{
    match words {
        Some(words) => {
            let mut items: Vec<DebugNode> = Vec::new();
            items.push(words_node(words));
            proof {
                lemma_trees_push(seq![], items@[0]);
                assert(trees(items@) =~= seq![items@[0]@]);
            }
            DebugNode::tuple("Some", items)
        },
        None => DebugNode::atom("None"),
    }
}

/// Debug output of an optional list of texts.
fn opt_texts_node(strings: &Option<Vec<String>>) -> (r: DebugNode)
    ensures
        r@ == opt_texts_tree(opt_texts(*strings)),
{
    match strings {
        Some(strings) => {
            let ghost all = texts(strings@).map_values(
                |text: Seq<char>| atom(quoted_text(text)),
            );
            let mut inner: Vec<DebugNode> = Vec::new();
            for i in 0..strings.len()
                invariant
                    all == texts(strings@).map_values(|text: Seq<char>| atom(quoted_text(text))),
                    trees(inner@) == all.take(i as int),
            {
                let item: DebugNode = DebugNode::atom(&quoted(&strings[i]));
                proof {
                    lemma_trees_push(inner@, item);
                    assert(all.take(i + 1) =~= all.take(i as int).push(all[i as int]));
                }
                inner.push(item);
            }
            assert(all.take(strings@.len() as int) =~= all);
            let mut items: Vec<DebugNode> = Vec::new();
            items.push(DebugNode::list(inner));
            proof {
                lemma_trees_push(seq![], items@[0]);
                assert(trees(items@) =~= seq![items@[0]@]);
            }
            DebugNode::tuple("Some", items)
        },
        None => DebugNode::atom("None"),
    }
}

/// Debug output of a type whose ids are left as they are.
fn shallow_node(ty: &SpirvType) -> (r: DebugNode)
    ensures
        r@ == shallow_tree(ty@),
{
    match ty {
        SpirvType::Void => DebugNode::atom("Void"),
        SpirvType::Bool => DebugNode::atom("Bool"),
        SpirvType::Integer(width, signedness) => {
            let mut items: Vec<DebugNode> = Vec::new();
            items.push(DebugNode::number(*width as u64));
            items.push(DebugNode::truth(*signedness));
            proof {
                lemma_trees_push(seq![], items@[0]);
                lemma_trees_push(seq![items@[0]], items@[1]);
                assert(items@ =~= seq![items@[0]].push(items@[1]));
                assert(trees(items@) =~= seq![items@[0]@, items@[1]@]);
            }
            DebugNode::tuple("Integer", items)
        },
        SpirvType::Float(width) => {
            let mut items: Vec<DebugNode> = Vec::new();
            items.push(DebugNode::number(*width as u64));
            proof {
                lemma_trees_push(seq![], items@[0]);
                assert(trees(items@) =~= seq![items@[0]@]);
            }
            DebugNode::tuple("Float", items)
        },
        SpirvType::Adt { name, field_types, field_offsets, field_names } => DebugNode::named(
            "Adt",
        ).field("name", opt_text_node(name)).field("field_types", words_node(field_types)).field(
            "field_offsets",
            opt_words_node(field_offsets),
        ).field("field_names", opt_texts_node(field_names)),
        SpirvType::Vector { element, count } => DebugNode::named("Vector").field(
            "element",
            DebugNode::number(*element as u64),
        ).field("count", DebugNode::number(*count as u64)),
        SpirvType::Array { element, count } => DebugNode::named("Array").field(
            "element",
            DebugNode::number(*element as u64),
        ).field("count", DebugNode::number(*count as u64)),
        SpirvType::Pointer { storage_class, pointee } => DebugNode::named("Pointer").field(
            "storage_class",
            DebugNode::atom(storage_class.name()),
        ).field("pointee", DebugNode::number(*pointee as u64)),
        SpirvType::Function { return_type, arguments } => DebugNode::named("Function").field(
            "return_type",
            DebugNode::number(*return_type as u64),
        ).field("arguments", words_node(arguments)),
    }
}

/// Debug output of the types that some ids stand for.
fn debug_nodes(ids: &Vec<Word>, cx: &CodegenCx, Ghost(depth): Ghost<nat>) -> (r: Vec<DebugNode>)
    requires
        debugs_at(cx@, ids@, depth) is Some,
    ensures
        trees(r@) == debugs_at(cx@, ids@, depth)->0,
    decreases depth, 1nat,
{
    let ghost all = debugs_at(cx@, ids@, depth)->0;
    let mut nodes: Vec<DebugNode> = Vec::new();
    for i in 0..ids.len()
        invariant
            debugs_at(cx@, ids@, depth) is Some,
            all == debugs_at(cx@, ids@, depth)->0,
            trees(nodes@) == all.take(i as int),
    {
        proof {
            lemma_debugs(cx@, ids@, depth);
            assert(debug_id_at(cx@, ids@[i as int], depth) is Some);
            assert(all.take(i + 1) =~= all.take(i as int).push(all[i as int]));
        }
        let node: DebugNode = debug_node(&cx.lookup_type(ids[i]), cx, Ghost(depth));
        proof {
            lemma_trees_push(nodes@, node);
        }
        nodes.push(node);
    }
    proof {
        lemma_debugs(cx@, ids@, depth);
        assert(all.take(ids@.len() as int) =~= all);
    }
    nodes
}

/// Debug output of a type.
fn debug_node(ty: &SpirvType, cx: &CodegenCx, Ghost(depth): Ghost<nat>) -> (r: DebugNode)
    requires
        debug_at(cx@, ty@, depth) is Some,
    ensures
        r@ == debug_at(cx@, ty@, depth)->0,
    decreases depth, 0nat,
{
    let ghost deeper = (depth - 1) as nat;
    match ty {
        SpirvType::Void => DebugNode::named("Void"),
        SpirvType::Bool => DebugNode::named("Bool"),
        SpirvType::Integer(width, signedness) => DebugNode::named("Integer").field(
            "width",
            DebugNode::number(*width as u64),
        ).field("signedness", DebugNode::truth(*signedness)),
        SpirvType::Float(width) => DebugNode::named("Float").field(
            "width",
            DebugNode::number(*width as u64),
        ),
        SpirvType::Adt { name, field_types, field_offsets, field_names } => {
            let fields: Vec<DebugNode> = debug_nodes(field_types, cx, Ghost(deeper));
            DebugNode::named("Adt").field("name", opt_text_node(name)).field(
                "field_types",
                DebugNode::list(fields),
            ).field("field_offsets", opt_words_node(field_offsets)).field(
                "field_names",
                opt_texts_node(field_names),
            )
        },
        SpirvType::Vector { element, count } => {
            let element: DebugNode = debug_node(&cx.lookup_type(*element), cx, Ghost(deeper));
            let len: u64 = cx.lookup_const_u64(*count).unwrap();
            DebugNode::named("Vector").field("element", element).field(
                "count",
                DebugNode::number(len),
            )
        },
        SpirvType::Array { element, count } => {
            let element: DebugNode = debug_node(&cx.lookup_type(*element), cx, Ghost(deeper));
            let len: u64 = cx.lookup_const_u64(*count).unwrap();
            DebugNode::named("Array").field("element", element).field(
                "count",
                DebugNode::number(len),
            )
        },
        SpirvType::Pointer { storage_class, pointee } => {
            let pointee: DebugNode = debug_node(&cx.lookup_type(*pointee), cx, Ghost(deeper));
            DebugNode::named("Pointer").field(
                "storage_class",
                DebugNode::atom(storage_class.name()),
            ).field("pointee", pointee)
        },
        SpirvType::Function { return_type, arguments } => {
            let args: Vec<DebugNode> = debug_nodes(arguments, cx, Ghost(deeper));
            DebugNode::named("Function").field(
                "return_type",
                shallow_node(&cx.lookup_type(*return_type)),
            ).field("arguments", DebugNode::list(args))
        },
    }
}

impl<'cx> SpirvTypePrinter<'cx> {
    /// The type that is printed.
    pub closed spec fn ty(&self) -> Ty {
        self.ty@
    }

    /// The state of the context that the type's ids belong to.
    pub closed spec fn state(&self) -> State {
        self.cx@
    }

    /// The type in the way it is displayed.
    pub fn to_string(&self) -> (r: String)
        requires
            display(self.state(), self.ty()) is Some,
        ensures
            Some(r@) == display(self.state(), self.ty()),
    {
        let ghost depth = choose|depth: nat| display_at(self.cx@, self.ty@, depth) is Some;
        let mut out: String = String::new();
        write_display(&self.ty, self.cx, &mut out, Ghost(depth));
        assert(out@ =~= display_at(self.cx@, self.ty@, depth)->0);
        out
    }

    /// Debug output of the type, in one line, or over several lines.
    pub fn to_debug_string(&self, pretty: bool) -> (r: String)
        requires
            debug_tree(self.state(), self.ty()) is Some,
        ensures
            r@ == render(debug_tree(self.state(), self.ty())->0, pretty, 0),
    {
        let ghost depth = choose|depth: nat| debug_at(self.cx@, self.ty@, depth) is Some;
        debug_node(&self.ty, self.cx, Ghost(depth)).render(pretty)
    }
}

impl SpirvType {
    /// This type, ready to be printed.
    pub fn debug<'cx>(self, cx: &'cx CodegenCx) -> (r: SpirvTypePrinter<'cx>)
        ensures
            r.ty() == self@,
            r.state() == cx@,
    {
        SpirvTypePrinter { ty: self, cx }
    }
}

impl CodegenCx {
    /// The type that an id stands for, ready to be printed.
    pub fn debug_type<'cx>(&'cx self, id: Word) -> (r: SpirvTypePrinter<'cx>)
        requires
            self@.type_defs.contains_key(id),
        ensures
            r.ty() == self@.type_defs[id],
            r.state() == self@,
    {
        self.lookup_type(id).debug(self)
    }
}

} // verus!
