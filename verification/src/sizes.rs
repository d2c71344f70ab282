//! Sizes of types.
use crate::codegen_cx::CodegenCx;
use crate::spirv_type::{SpirvType, Ty};
use crate::state::State;
use rspirv::spirv::Word;
use vstd::prelude::*;

verus! {

/// The size of a type in bits, following ids through at most `depth` types. There is none
/// where an id stands for no type, a count is no integer constant, or the size, or that of
/// a part, does not fit.
pub open spec fn size_at(s: State, ty: Ty, depth: nat) -> Option<nat>
    decreases depth, 0nat,
{
    if depth == 0 {
        None
    } else {
        match ty {
            Ty::Void => Some(0),
            Ty::Bool => Some(1),
            Ty::Integer(width, _) => Some(width as nat),
            Ty::Float(width) => Some(width as nat),
            Ty::Adt { field_types, .. } => sizes_at(s, field_types, (depth - 1) as nat),
            Ty::Vector { element, count } | Ty::Array { element, count } => {
                if s.type_defs.contains_key(element) && s.constants.contains_key(count) {
                    match size_at(s, s.type_defs[element], (depth - 1) as nat) {
                        Some(size) => fitting(size * (s.constants[count] as usize) as nat),
                        None => None,
                    }
                } else {
                    None
                }
            },
            Ty::Pointer { .. } | Ty::Function { .. } => Some(s.pointer_bits as nat),
        }
    }
}

/// The sum of the sizes of some types, as in [`size_at`].
pub open spec fn sizes_at(s: State, ids: Seq<Word>, depth: nat) -> Option<nat>
    decreases depth, ids.len() + 1,
{
    if ids.len() == 0 {
        Some(0)
    } else if s.type_defs.contains_key(ids.last()) {
        match (
            sizes_at(s, ids.drop_last(), depth),
            size_at(s, s.type_defs[ids.last()], depth),
        ) {
            (Some(sum), Some(size)) => fitting(sum + size),
            _ => None,
        }
    } else {
        None
    }
}

/// A size, if it fits.
pub open spec fn fitting(size: nat) -> Option<nat> {
    if size <= usize::MAX {
        Some(size)
    } else {
        None
    }
}

/// The size of a type in bits, if it has one.
pub open spec fn size_in_bits(s: State, ty: Ty) -> Option<nat> {
    if exists|depth: nat| size_at(s, ty, depth) is Some {
        size_at(s, ty, choose|depth: nat| size_at(s, ty, depth) is Some)
    } else {
        None
    }
}

/// Looking deeper does not change a size.
pub proof fn lemma_size_deeper(s: State, ty: Ty, depth: nat, deeper: nat)
    requires
        size_at(s, ty, depth) is Some,
        depth <= deeper,
    ensures
        size_at(s, ty, deeper) == size_at(s, ty, depth),
    decreases depth, 0nat,
{
    match ty {
        Ty::Adt { field_types, .. } => {
            lemma_sizes_deeper(s, field_types, (depth - 1) as nat, (deeper - 1) as nat);
        },
        Ty::Vector { element, count } | Ty::Array { element, count } => {
            lemma_size_deeper(s, s.type_defs[element], (depth - 1) as nat, (deeper - 1) as nat);
        },
        _ => {},
    }
}

/// Looking deeper does not change a sum of sizes.
pub proof fn lemma_sizes_deeper(s: State, ids: Seq<Word>, depth: nat, deeper: nat)
    requires
        sizes_at(s, ids, depth) is Some,
        depth <= deeper,
    ensures
        sizes_at(s, ids, deeper) == sizes_at(s, ids, depth),
    decreases depth, ids.len() + 1,
{
    if ids.len() > 0 {
        lemma_sizes_deeper(s, ids.drop_last(), depth, deeper);
        lemma_size_deeper(s, s.type_defs[ids.last()], depth, deeper);
    }
}

/// The size that is found at any depth is the size.
pub proof fn lemma_size_found(s: State, ty: Ty, depth: nat)
    requires
        size_at(s, ty, depth) is Some,
    ensures
        size_in_bits(s, ty) == size_at(s, ty, depth),
{
    let other = choose|depth: nat| size_at(s, ty, depth) is Some;
    if other <= depth {
        lemma_size_deeper(s, ty, other, depth);
    } else {
        lemma_size_deeper(s, ty, depth, other);
    }
}

/// A partial sum that is part of a sum that exists, exists too.
proof fn lemma_sizes_prefix(s: State, ids: Seq<Word>, depth: nat, n: int)
    requires
        sizes_at(s, ids, depth) is Some,
        0 <= n <= ids.len(),
    ensures
        sizes_at(s, ids.take(n), depth) is Some,
    decreases ids.len(),
{
    if n == ids.len() {
        assert(ids.take(n) =~= ids);
    } else {
        lemma_sizes_prefix(s, ids.drop_last(), depth, n);
        assert(ids.drop_last().take(n) =~= ids.take(n));
    }
}

/// The size of a type in bits.
fn size_of(ty: &SpirvType, cx: &CodegenCx, Ghost(depth): Ghost<nat>) -> (r: usize)
    requires
        size_at(cx@, ty@, depth) is Some,
    ensures
        Some(r as nat) == size_at(cx@, ty@, depth),
    decreases depth,
{
    match ty {
        SpirvType::Void => 0,
        SpirvType::Bool => 1,
        SpirvType::Integer(width, _) => *width as usize,
        SpirvType::Float(width) => *width as usize,
        SpirvType::Adt { field_types, .. } => {
            let mut sum: usize = 0;
            for i in 0..field_types.len()
                invariant
                    depth > 0,
                    sizes_at(cx@, field_types@, (depth - 1) as nat) is Some,
                    Some(sum as nat) == sizes_at(
                        cx@,
                        field_types@.take(i as int),
                        (depth - 1) as nat,
                    ),
            {
                proof {
                    lemma_sizes_prefix(cx@, field_types@, (depth - 1) as nat, i + 1);
                    assert(field_types@.take(i + 1).drop_last() =~= field_types@.take(i as int));
                }
                let field: SpirvType = cx.lookup_type(field_types[i]);
                let size: usize = size_of(&field, cx, Ghost((depth - 1) as nat));
                sum = sum + size;
            }
            assert(field_types@.take(field_types@.len() as int) =~= field_types@);
            sum
        },
        SpirvType::Vector { element, count } | SpirvType::Array { element, count } => {
            let size: usize = size_of(
                &cx.lookup_type(*element),
                cx,
                Ghost((depth - 1) as nat),
            );
            let count: usize = cx.lookup_const_u64(*count).unwrap() as usize;
            size * count
        },
        SpirvType::Pointer { .. } | SpirvType::Function { .. } => cx.pointer_bits(),
    }
}

impl SpirvType {
    /// The size of this type in bits.
    pub fn sizeof_in_bits(&self, cx: &CodegenCx) -> (r: usize)
        requires
            size_in_bits(cx@, self@) is Some,
        ensures
            Some(r as nat) == size_in_bits(cx@, self@),
    {
        let ghost depth = choose|depth: nat| size_at(cx@, self@, depth) is Some;
        size_of(self, cx, Ghost(depth))
    }
}

} // verus!
