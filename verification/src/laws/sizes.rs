//! Sizes of types.
use crate::sizes::{
    fitting, lemma_size_deeper, lemma_size_found, lemma_sizes_deeper, size_at, size_in_bits,
    sizes_at,
};
use crate::spirv_type::Ty;
use crate::state::{lemma_submap_at, State};
use rspirv::spirv::Word;
use vstd::prelude::*;

verus! {

proof fn lemma_size_kept(s: State, later: State, ty: Ty, depth: nat)
    requires
        s.extended_by(later),
        size_at(s, ty, depth) is Some,
    ensures
        size_at(later, ty, depth) == size_at(s, ty, depth),
    decreases depth, 0nat,
{
    match ty {
        Ty::Adt { field_types, .. } => {
            assert(sizes_at(s, field_types, (depth - 1) as nat) is Some);
            lemma_sizes_kept(s, later, field_types, (depth - 1) as nat);
            assert(size_at(later, ty, depth) == sizes_at(later, field_types, (depth - 1) as nat));
        },
        Ty::Vector { element, count } | Ty::Array { element, count } => {
            lemma_submap_at(s.type_defs, later.type_defs, element);
            lemma_submap_at(s.constants, later.constants, count);
            lemma_size_kept(s, later, s.type_defs[element], (depth - 1) as nat);
        },
        _ => {},
    }
}

proof fn lemma_sizes_kept(s: State, later: State, ids: Seq<Word>, depth: nat)
    requires
        s.extended_by(later),
        sizes_at(s, ids, depth) is Some,
    ensures
        sizes_at(later, ids, depth) == sizes_at(s, ids, depth),
    decreases depth, ids.len() + 1,
{
    if ids.len() > 0 {
        lemma_submap_at(s.type_defs, later.type_defs, ids.last());
        lemma_sizes_kept(s, later, ids.drop_last(), depth);
        lemma_size_kept(s, later, s.type_defs[ids.last()], depth);
    }
}

/// A type keeps its size, whatever is added to the module later.
pub proof fn law_size_kept(s: State, later: State, ty: Ty)
    requires
        s.extended_by(later),
        size_in_bits(s, ty) is Some,
    ensures
        size_in_bits(later, ty) == size_in_bits(s, ty),
{
    let depth = choose|depth: nat| size_at(s, ty, depth) is Some;
    lemma_size_kept(s, later, ty, depth);
    lemma_size_found(later, ty, depth);
}

/// The sizes of the types that are made of no others. A pointer has the size that the target
/// says, and so has a function.
pub proof fn law_scalar_sizes(s: State, ty: Ty)
    ensures
        ty is Void ==> size_in_bits(s, ty) == Some(0nat),
        ty is Bool ==> size_in_bits(s, ty) == Some(1nat),
        ty matches Ty::Integer(width, _) ==> size_in_bits(s, ty) == Some(width as nat),
        ty matches Ty::Float(width) ==> size_in_bits(s, ty) == Some(width as nat),
        ty is Pointer || ty is Function ==> size_in_bits(s, ty) == Some(s.pointer_bits as nat),
{
    if size_at(s, ty, 1) is Some {
        lemma_size_found(s, ty, 1);
    }
}

/// A vector or array has the size of its elements together.
pub proof fn law_array_size(s: State, element: Word, count: Word)
    requires
        s.type_defs.contains_key(element),
        s.constants.contains_key(count),
        size_in_bits(s, s.type_defs[element]) is Some,
    ensures
        size_in_bits(s, Ty::Array { element, count }) == fitting(
            size_in_bits(s, s.type_defs[element])->0 * (s.constants[count] as usize) as nat,
        ),
        size_in_bits(s, Ty::Vector { element, count }) == size_in_bits(
            s,
            Ty::Array { element, count },
        ),
{
    let inner = s.type_defs[element];
    let array = Ty::Array { element, count };
    let vector = Ty::Vector { element, count };
    let depth = choose|depth: nat| size_at(s, inner, depth) is Some;
    assert(size_at(s, array, depth + 1) == fitting(
        size_in_bits(s, inner)->0 * (s.constants[count] as usize) as nat,
    ));
    assert(size_at(s, vector, depth + 1) == size_at(s, array, depth + 1));
    if size_at(s, array, depth + 1) is Some {
        lemma_size_found(s, array, depth + 1);
        lemma_size_found(s, vector, depth + 1);
    } else {
        assert forall|other: nat| size_at(s, array, other) is None && size_at(
            s,
            vector,
            other,
        ) is None by {
            if size_at(s, array, other) is Some || size_at(s, vector, other) is Some {
                lemma_size_found(s, inner, (other - 1) as nat);
            }
        }
    }
}

/// The sum of the sizes of some types.
pub open spec fn size_sum(s: State, ids: Seq<Word>) -> nat
    decreases ids.len(),
{
    if ids.len() == 0 {
        0
    } else {
        size_sum(s, ids.drop_last()) + size_in_bits(s, s.type_defs[ids.last()])->0
    }
}

proof fn lemma_sizes_sum(s: State, ids: Seq<Word>) -> (depth: nat)
    requires
        forall|i: int|
            0 <= i < ids.len() ==> s.type_defs.contains_key(#[trigger] ids[i]) && size_in_bits(
                s,
                s.type_defs[ids[i]],
            ) is Some,
        size_sum(s, ids) <= usize::MAX,
    ensures
        sizes_at(s, ids, depth) == Some(size_sum(s, ids)),
    decreases ids.len(),
{
    if ids.len() == 0 {
        0
    } else {
        let rest = ids.drop_last();
        assert forall|i: int| 0 <= i < rest.len() implies s.type_defs.contains_key(
            #[trigger] rest[i],
        ) && size_in_bits(s, s.type_defs[rest[i]]) is Some by {
            assert(rest[i] == ids[i]);
        }
        assert(ids.last() == ids[ids.len() - 1]);
        let one = lemma_sizes_sum(s, rest);
        let ty = s.type_defs[ids.last()];
        let two = choose|depth: nat| size_at(s, ty, depth) is Some;
        let depth = if one <= two {
            two
        } else {
            one
        };
        lemma_sizes_deeper(s, rest, one, depth);
        lemma_size_deeper(s, ty, two, depth);
        depth
    }
}

/// A struct has the size of its fields together, in whatever order they stand. Offsets do not
/// count.
pub proof fn law_struct_size(s: State, ty: Ty)
    requires
        ty is Adt,
        forall|i: int|
            0 <= i < ty->field_types.len() ==> s.type_defs.contains_key(
                #[trigger] ty->field_types[i],
            ) && size_in_bits(s, s.type_defs[ty->field_types[i]]) is Some,
        size_sum(s, ty->field_types) <= usize::MAX,
    ensures
        size_in_bits(s, ty) == Some(size_sum(s, ty->field_types)),
{
    let depth = lemma_sizes_sum(s, ty->field_types);
    assert(size_at(s, ty, depth + 1) == Some(size_sum(s, ty->field_types)));
    lemma_size_found(s, ty, depth + 1);
}

/// A vector or array has a size exactly if its element has one, its count is a constant, and
/// the size of the elements together fits. That is its size.
pub proof fn law_array_sized(s: State, element: Word, count: Word)
    ensures
        ({
            let array = size_in_bits(s, Ty::Array { element, count });
            let vector = size_in_bits(s, Ty::Vector { element, count });
            let inner = size_in_bits(s, s.type_defs[element]);
            let total = inner->0 * (s.constants[count] as usize) as nat;
            if s.type_defs.contains_key(element) && s.constants.contains_key(count) && inner is Some
                && total <= usize::MAX {
                array == Some(total) && vector == Some(total)
            } else {
                array is None && vector is None
            }
        }),
{
    if s.type_defs.contains_key(element) && s.constants.contains_key(count) && size_in_bits(
        s,
        s.type_defs[element],
    ) is Some {
        law_array_size(s, element, count);
    } else {
        assert forall|depth: nat|
            size_at(s, Ty::Array { element, count }, depth) is None && size_at(
                s,
                Ty::Vector { element, count },
                depth,
            ) is None by {
            if size_at(s, Ty::Array { element, count }, depth) is Some || size_at(
                s,
                Ty::Vector { element, count },
                depth,
            ) is Some {
                lemma_size_found(s, s.type_defs[element], (depth - 1) as nat);
            }
        }
    }
}

/// Whether the types that some ids stand for have sizes.
pub open spec fn all_sized(s: State, ids: Seq<Word>) -> bool {
    forall|i: int|
        0 <= i < ids.len() ==> s.type_defs.contains_key(#[trigger] ids[i]) && size_in_bits(
            s,
            s.type_defs[ids[i]],
        ) is Some
}

proof fn lemma_sum_sized(s: State, ids: Seq<Word>, depth: nat)
    requires
        sizes_at(s, ids, depth) is Some,
    ensures
        all_sized(s, ids),
        size_sum(s, ids) == sizes_at(s, ids, depth)->0,
        size_sum(s, ids) <= usize::MAX,
    decreases ids.len(),
{
    if ids.len() > 0 {
        let rest = ids.drop_last();
        lemma_sum_sized(s, rest, depth);
        lemma_size_found(s, s.type_defs[ids.last()], depth);
        assert forall|i: int| 0 <= i < ids.len() implies s.type_defs.contains_key(#[trigger] ids[i])
            && size_in_bits(s, s.type_defs[ids[i]]) is Some by {
            if i < rest.len() {
                assert(rest[i] == ids[i]);
            }
        }
    }
}

/// A struct has a size exactly if its fields have sizes and their sum fits.
pub proof fn law_struct_sized(s: State, ty: Ty)
    requires
        ty is Adt,
    ensures
        size_in_bits(s, ty) is Some <==> all_sized(s, ty->field_types) && size_sum(
            s,
            ty->field_types,
        ) <= usize::MAX,
        size_in_bits(s, ty) is Some ==> size_in_bits(s, ty)->0 == size_sum(s, ty->field_types),
{
    if all_sized(s, ty->field_types) && size_sum(s, ty->field_types) <= usize::MAX {
        law_struct_size(s, ty);
    } else {
        assert forall|depth: nat| size_at(s, ty, depth) is None by {
            if size_at(s, ty, depth) is Some {
                lemma_sum_sized(s, ty->field_types, (depth - 1) as nat);
            }
        }
    }
}

} // verus!
