//! Which types can be filled with a byte.
use crate::memset::{
    const_pattern, const_pattern_at, dynamic_pattern, dynamic_pattern_at, dynamic_scalar,
};
use crate::spirv_type::Ty;
use crate::state::State;
use rspirv::spirv::Word;
use vstd::prelude::*;

verus! {

/// Whether a type can be filled, following ids through at most `depth` types: an integer or
/// float of a supported width, or a vector or array of such types whose count is a constant.
pub open spec fn fillable_at(s: State, ty: Ty, depth: nat) -> bool
    decreases depth,
{
    depth > 0 && match ty {
        Ty::Integer(width, _) => width == 8 || width == 16 || width == 32 || width == 64,
        Ty::Float(width) => width == 32 || width == 64,
        Ty::Vector { element, count } | Ty::Array { element, count } => {
            &&& s.type_defs.contains_key(element)
            &&& s.constants.contains_key(count)
            &&& fillable_at(s, s.type_defs[element], (depth - 1) as nat)
        },
        _ => false,
    }
}

/// Whether a type can be filled.
pub open spec fn fillable(s: State, ty: Ty) -> bool {
    exists|depth: nat| fillable_at(s, ty, depth)
}

/// The ids of the counts of a vector or array and of its elements, following ids through at
/// most `depth` types.
pub open spec fn counts_at(s: State, ty: Ty, depth: nat) -> Set<Word>
    decreases depth,
{
    if depth == 0 {
        Set::empty()
    } else {
        match ty {
            Ty::Vector { element, count } | Ty::Array { element, count } => {
                if s.type_defs.contains_key(element) {
                    counts_at(s, s.type_defs[element], (depth - 1) as nat).insert(count)
                } else {
                    Set::empty().insert(count)
                }
            },
            _ => Set::empty(),
        }
    }
}

/// Whether an id is that of a count in a type, as in [`counts_at`].
pub open spec fn has_count(s: State, ty: Ty, count: Word) -> bool {
    exists|depth: nat| counts_at(s, ty, depth).contains(count)
}

/// Whether `later` knows every constant that is known in this state, and whether it knows a
/// constant among the ids that had been handed out only if that is known in this state.
pub open spec fn constants_grow(s: State, later: State) -> bool {
    &&& s.module.next_id <= later.module.next_id
    &&& s.constants.dom().subset_of(later.constants.dom())
    &&& later.fits() ==> forall|id: Word|
        id < s.module.next_id && #[trigger] later.constants.contains_key(id)
            ==> s.constants.contains_key(id)
}

proof fn lemma_constants_grow(a: State, b: State, c: State)
    requires
        constants_grow(a, b),
        constants_grow(b, c),
    ensures
        constants_grow(a, c),
{
    if c.fits() {
        assert forall|id: Word|
            id < a.module.next_id && #[trigger] c.constants.contains_key(
                id,
            ) implies a.constants.contains_key(id) by {
            assert(b.constants.contains_key(id));
        }
    }
}

proof fn lemma_dynamic_scalar_constants(s: State, fill_var: Word, n: nat, is_float: bool)
    ensures
        constants_grow(s, dynamic_scalar(s, fill_var, n, is_float).0),
{
    let (s1, element) = s.define(Ty::Integer(8, false));
    let (typed, word) = s1.define(Ty::Integer(32, false));
    let (s2, count) = s1.u32_constant(n as u32);
    let t = dynamic_scalar(s, fill_var, n, is_float).0;
    assert(constants_grow(s, typed));
    assert(constants_grow(typed, s2));
    assert(constants_grow(s2, t));
    lemma_constants_grow(s, typed, s2);
    lemma_constants_grow(s, s2, t);
}

proof fn lemma_const_pattern_constants(s: State, ty: Ty, byte: u8, depth: nat)
    ensures
        const_pattern_at(s, ty, byte, depth) matches Some(p) ==> constants_grow(s, p.0),
    decreases depth,
{
    if const_pattern_at(s, ty, byte, depth) is Some {
        let t = const_pattern_at(s, ty, byte, depth)->Some_0.0;
        match ty {
            Ty::Vector { element, .. } | Ty::Array { element, .. } => {
                let inner = s.type_defs[element];
                let less = (depth - 1) as nat;
                let u = const_pattern_at(s, inner, byte, less)->Some_0.0;
                lemma_const_pattern_constants(s, inner, byte, less);
                assert(constants_grow(u, t));
                lemma_constants_grow(s, u, t);
            },
            _ => {
                let typed = s.define(ty).0;
                assert(constants_grow(s, typed));
                assert(constants_grow(typed, t));
                lemma_constants_grow(s, typed, t);
            },
        }
    }
}

proof fn lemma_dynamic_pattern_constants(s: State, ty: Ty, fill_var: Word, depth: nat)
    ensures
        dynamic_pattern_at(s, ty, fill_var, depth) matches Some(p) ==> constants_grow(s, p.0),
    decreases depth,
{
    if dynamic_pattern_at(s, ty, fill_var, depth) is Some {
        let t = dynamic_pattern_at(s, ty, fill_var, depth)->Some_0.0;
        match ty {
            Ty::Vector { element, .. } | Ty::Array { element, .. } => {
                let inner = s.type_defs[element];
                let less = (depth - 1) as nat;
                let u = dynamic_pattern_at(s, inner, fill_var, less)->Some_0.0;
                lemma_dynamic_pattern_constants(s, inner, fill_var, less);
                assert(constants_grow(u, t));
                lemma_constants_grow(s, u, t);
            },
            Ty::Integer(width, _) => if width != 8 {
                lemma_dynamic_scalar_constants(s, fill_var, (width / 8) as nat, false);
            },
            Ty::Float(width) => {
                lemma_dynamic_scalar_constants(s, fill_var, (width / 8) as nat, true);
            },
            _ => {},
        }
    }
}

/// A type that can be filled is filled with a constant, and with a value at run time.
proof fn lemma_fillable_filled(s: State, ty: Ty, byte: u8, fill_var: Word, depth: nat)
    requires
        fillable_at(s, ty, depth),
    ensures
        const_pattern_at(s, ty, byte, depth) is Some,
        dynamic_pattern_at(s, ty, fill_var, depth) is Some,
    decreases depth,
{
    match ty {
        Ty::Vector { element, .. } | Ty::Array { element, .. } => {
            let inner = s.type_defs[element];
            let less = (depth - 1) as nat;
            lemma_fillable_filled(s, inner, byte, fill_var, less);
            lemma_const_pattern_constants(s, inner, byte, less);
            lemma_dynamic_pattern_constants(s, inner, fill_var, less);
        },
        _ => {},
    }
}

/// Counts of the elements are counts of the whole.
proof fn lemma_counts_inside(s: State, ty: Ty, element: Word)
    requires
        ty is Vector && ty->Vector_element == element || ty is Array && ty->Array_element
            == element,
        s.type_defs.contains_key(element),
    ensures
        forall|count: Word| #[trigger]
            has_count(s, s.type_defs[element], count) ==> has_count(s, ty, count),
{
    assert forall|count: Word| #[trigger]
        has_count(s, s.type_defs[element], count) implies has_count(s, ty, count) by {
        let depth = choose|depth: nat|
            counts_at(s, s.type_defs[element], depth).contains(count);
        assert(counts_at(s, ty, depth + 1).contains(count));
    }
}

/// Whether the count of a type has been handed out, or is known, and so for its elements.
pub open spec fn counts_settled(s: State, ty: Ty) -> bool {
    forall|count: Word| #[trigger]
        has_count(s, ty, count) ==> s.constants.contains_key(count) || count < s.module.next_id
}

proof fn lemma_const_filled_fillable(s: State, ty: Ty, byte: u8, depth: nat)
    requires
        counts_settled(s, ty),
        const_pattern_at(s, ty, byte, depth) is Some,
        const_pattern_at(s, ty, byte, depth)->Some_0.0.fits(),
    ensures
        fillable_at(s, ty, depth),
    decreases depth,
{
    match ty {
        Ty::Vector { element, count } | Ty::Array { element, count } => {
            let inner = s.type_defs[element];
            let less = (depth - 1) as nat;
            lemma_counts_inside(s, ty, element);
            lemma_const_pattern_constants(s, inner, byte, less);
            lemma_const_filled_fillable(s, inner, byte, less);
            assert(counts_at(s, ty, 1).contains(count));
            assert(has_count(s, ty, count));
        },
        _ => {},
    }
}

proof fn lemma_dynamic_filled_fillable(s: State, ty: Ty, fill_var: Word, depth: nat)
    requires
        counts_settled(s, ty),
        dynamic_pattern_at(s, ty, fill_var, depth) is Some,
        dynamic_pattern_at(s, ty, fill_var, depth)->Some_0.0.fits(),
    ensures
        fillable_at(s, ty, depth),
    decreases depth,
{
    match ty {
        Ty::Vector { element, count } | Ty::Array { element, count } => {
            let inner = s.type_defs[element];
            let less = (depth - 1) as nat;
            lemma_counts_inside(s, ty, element);
            lemma_dynamic_pattern_constants(s, inner, fill_var, less);
            lemma_dynamic_filled_fillable(s, inner, fill_var, less);
            assert(counts_at(s, ty, 1).contains(count));
            assert(has_count(s, ty, count));
        },
        _ => {},
    }
}

/// The same types can be filled with a constant and with a value at run time: integers of 8,
/// 16, 32, and 64 bits, floats of 32 and 64 bits, and vectors and arrays of such types whose
/// counts are constants. Here, all counts that the type is made with are known constants.
pub proof fn law_same_types_filled(s: State, ty: Ty, byte: u8, fill_var: Word)
    requires
        forall|count: Word| #[trigger]
            has_count(s, ty, count) ==> s.constants.contains_key(count),
    ensures
        const_pattern(s, ty, byte) is Some <==> dynamic_pattern(s, ty, fill_var) is Some,
        const_pattern(s, ty, byte) is Some <==> fillable(s, ty),
{
    if const_pattern(s, ty, byte) is Some {
        let depth = choose|depth: nat| const_pattern_at(s, ty, byte, depth) is Some;
        lemma_known_counts_fillable(s, ty, byte, fill_var, depth);
        lemma_fillable_filled(s, ty, byte, fill_var, depth);
    }
    if dynamic_pattern(s, ty, fill_var) is Some {
        let depth = choose|depth: nat| dynamic_pattern_at(s, ty, fill_var, depth) is Some;
        lemma_known_counts_fillable(s, ty, byte, fill_var, depth);
        lemma_fillable_filled(s, ty, byte, fill_var, depth);
    }
    if fillable(s, ty) {
        let depth = choose|depth: nat| fillable_at(s, ty, depth);
        lemma_fillable_filled(s, ty, byte, fill_var, depth);
    }
}

proof fn lemma_known_counts_fillable(s: State, ty: Ty, byte: u8, fill_var: Word, depth: nat)
    requires
        forall|count: Word| #[trigger]
            has_count(s, ty, count) ==> s.constants.contains_key(count),
        const_pattern_at(s, ty, byte, depth) is Some || dynamic_pattern_at(
            s,
            ty,
            fill_var,
            depth,
        ) is Some,
    ensures
        fillable_at(s, ty, depth),
    decreases depth,
{
    match ty {
        Ty::Vector { element, count } | Ty::Array { element, count } => {
            lemma_counts_inside(s, ty, element);
            lemma_known_counts_fillable(
                s,
                s.type_defs[element],
                byte,
                fill_var,
                (depth - 1) as nat,
            );
            assert(counts_at(s, ty, 1).contains(count));
            assert(has_count(s, ty, count));
        },
        _ => {},
    }
}

/// The same if a count may be no constant, in which case neither is possible. Every count is
/// an id that has been handed out: another one could become the id of a constant that is
/// emitted on the way. There are ids enough for what is emitted.
pub proof fn law_same_types_refused(s: State, ty: Ty, byte: u8, fill_var: Word)
    requires
        counts_settled(s, ty),
        const_pattern(s, ty, byte) matches Some(p) ==> p.0.fits(),
        dynamic_pattern(s, ty, fill_var) matches Some(p) ==> p.0.fits(),
    ensures
        const_pattern(s, ty, byte) is Some <==> dynamic_pattern(s, ty, fill_var) is Some,
        const_pattern(s, ty, byte) is Some <==> fillable(s, ty),
{
    if const_pattern(s, ty, byte) is Some {
        let depth = choose|depth: nat| const_pattern_at(s, ty, byte, depth) is Some;
        lemma_const_filled_fillable(s, ty, byte, depth);
        lemma_fillable_filled(s, ty, byte, fill_var, depth);
    }
    if dynamic_pattern(s, ty, fill_var) is Some {
        let depth = choose|depth: nat| dynamic_pattern_at(s, ty, fill_var, depth) is Some;
        lemma_dynamic_filled_fillable(s, ty, fill_var, depth);
        lemma_fillable_filled(s, ty, byte, fill_var, depth);
    }
    if fillable(s, ty) {
        let depth = choose|depth: nat| fillable_at(s, ty, depth);
        lemma_fillable_filled(s, ty, byte, fill_var, depth);
    }
}

} // verus!
