//! Types as text.
use crate::printer::{
    debug_at, debug_id_at, debug_tree, debugs_at, display, display_at, display_id_at, displays_at,
    lemma_debug_found, lemma_display_found,
};
use crate::spirv_type::Ty;
use crate::state::{lemma_submap_at, State};
use rspirv::spirv::Word;
use vstd::prelude::*;

verus! {

proof fn lemma_display_kept(s: State, later: State, ty: Ty, depth: nat)
    requires
        s.extended_by(later),
        display_at(s, ty, depth) is Some,
    ensures
        display_at(later, ty, depth) == display_at(s, ty, depth),
    decreases depth, 0nat,
{
    let less = (depth - 1) as nat;
    match ty {
        Ty::Adt { field_types, .. } => lemma_displays_kept(s, later, field_types, less),
        Ty::Vector { element, count } | Ty::Array { element, count } => {
            lemma_submap_at(s.constants, later.constants, count);
            lemma_display_id_kept(s, later, element, less);
        },
        Ty::Pointer { pointee, .. } => lemma_display_id_kept(s, later, pointee, less),
        Ty::Function { return_type, arguments } => {
            lemma_displays_kept(s, later, arguments, less);
            lemma_display_id_kept(s, later, return_type, less);
        },
        _ => {},
    }
}

proof fn lemma_display_id_kept(s: State, later: State, id: Word, depth: nat)
    requires
        s.extended_by(later),
        display_id_at(s, id, depth) is Some,
    ensures
        display_id_at(later, id, depth) == display_id_at(s, id, depth),
    decreases depth, 1nat,
{
    lemma_submap_at(s.type_defs, later.type_defs, id);
    lemma_display_kept(s, later, s.type_defs[id], depth);
}

proof fn lemma_displays_kept(s: State, later: State, ids: Seq<Word>, depth: nat)
    requires
        s.extended_by(later),
        displays_at(s, ids, depth) is Some,
    ensures
        displays_at(later, ids, depth) == displays_at(s, ids, depth),
    decreases depth, ids.len() + 2,
{
    if ids.len() > 0 {
        lemma_displays_kept(s, later, ids.drop_last(), depth);
        lemma_display_id_kept(s, later, ids.last(), depth);
    }
}

/// A type is displayed in the same way, whatever is added to the module later.
pub proof fn law_display_kept(s: State, later: State, ty: Ty)
    requires
        s.extended_by(later),
        display(s, ty) is Some,
    ensures
        display(later, ty) == display(s, ty),
{
    let depth = choose|depth: nat| display_at(s, ty, depth) is Some;
    lemma_display_kept(s, later, ty, depth);
    lemma_display_found(later, ty, depth);
}

proof fn lemma_debug_kept(s: State, later: State, ty: Ty, depth: nat)
    requires
        s.extended_by(later),
        debug_at(s, ty, depth) is Some,
    ensures
        debug_at(later, ty, depth) == debug_at(s, ty, depth),
    decreases depth, 0nat,
{
    let less = (depth - 1) as nat;
    match ty {
        Ty::Adt { field_types, .. } => lemma_debugs_kept(s, later, field_types, less),
        Ty::Vector { element, count } | Ty::Array { element, count } => {
            lemma_submap_at(s.constants, later.constants, count);
            lemma_debug_id_kept(s, later, element, less);
        },
        Ty::Pointer { pointee, .. } => lemma_debug_id_kept(s, later, pointee, less),
        Ty::Function { return_type, arguments } => {
            lemma_submap_at(s.type_defs, later.type_defs, return_type);
            lemma_debugs_kept(s, later, arguments, less);
        },
        _ => {},
    }
}

proof fn lemma_debug_id_kept(s: State, later: State, id: Word, depth: nat)
    requires
        s.extended_by(later),
        debug_id_at(s, id, depth) is Some,
    ensures
        debug_id_at(later, id, depth) == debug_id_at(s, id, depth),
    decreases depth, 1nat,
{
    lemma_submap_at(s.type_defs, later.type_defs, id);
    lemma_debug_kept(s, later, s.type_defs[id], depth);
}

proof fn lemma_debugs_kept(s: State, later: State, ids: Seq<Word>, depth: nat)
    requires
        s.extended_by(later),
        debugs_at(s, ids, depth) is Some,
    ensures
        debugs_at(later, ids, depth) == debugs_at(s, ids, depth),
    decreases depth, ids.len() + 2,
{
    if ids.len() > 0 {
        lemma_debugs_kept(s, later, ids.drop_last(), depth);
        lemma_debug_id_kept(s, later, ids.last(), depth);
    }
}

/// The debug output of a type stays the same, whatever is added to the module later.
pub proof fn law_debug_kept(s: State, later: State, ty: Ty)
    requires
        s.extended_by(later),
        debug_tree(s, ty) is Some,
    ensures
        debug_tree(later, ty) == debug_tree(s, ty),
{
    let depth = choose|depth: nat| debug_at(s, ty, depth) is Some;
    lemma_debug_kept(s, later, ty, depth);
    lemma_debug_found(later, ty, depth);
}

} // verus!
