//! In which order types are defined.
use crate::emit::Operand;
use crate::laws::instructions::{law_u32_constant, literal_added};
use crate::lower::Shape;
use crate::spirv_type::Ty;
use crate::state::State;
use crate::trans::{intern, intern_all};
use rspirv::spirv::Word;
use vstd::prelude::*;

verus! {

/// A type that is made of no others takes one step.
pub proof fn law_scalar_step(s: State, shape: Shape)
    ensures
        shape is Void ==> intern(s, shape) == s.define(Ty::Void),
        shape is Bool ==> intern(s, shape) == s.define(Ty::Bool),
        shape is Integer ==> intern(s, shape) == s.define(
            Ty::Integer(shape->Integer_0, shape->Integer_1),
        ),
        shape is Float ==> intern(s, shape) == s.define(Ty::Float(shape->Float_0)),
{
}

/// What a pointer points to is defined first, then the pointer to it.
pub proof fn law_pointer_steps(s: State, shape: Shape)
    requires
        shape is Pointer,
    ensures
        ({
            let (t, pointee) = intern(s, *shape->pointee);
            intern(s, shape) == t.define(
                Ty::Pointer { storage_class: shape->storage_class, pointee },
            )
        }),
{
}

/// The element of a vector is defined first, then the vector, with its count as it is.
pub proof fn law_vector_steps(s: State, shape: Shape)
    requires
        shape is Vector,
    ensures
        ({
            let (t, element) = intern(s, *shape->Vector_element);
            intern(s, shape) == t.define(Ty::Vector { element, count: shape->Vector_count })
        }),
{
}

/// The element of an array is defined first, then a new constant for the count, then the
/// array.
pub proof fn law_array_steps(s: State, shape: Shape)
    requires
        shape is Array,
    ensures
        ({
            let (t, element) = intern(s, *shape->Array_element);
            let (typed, word) = t.define(Ty::Integer(32, false));
            let (u, count) = t.u32_constant(shape->Array_count);
            &&& literal_added(typed, u, count, word, Operand::Int32(shape->Array_count))
            &&& intern(s, shape) == u.define(Ty::Array { element, count })
        }),
{
    law_u32_constant(intern(s, *shape->Array_element).0, shape->Array_count);
}

/// The fields of a struct are defined first, then the struct.
pub proof fn law_struct_steps(s: State, shape: Shape)
    requires
        shape is Adt,
    ensures
        ({
            let (t, field_types) = intern_all(s, shape->fields);
            intern(s, shape) == t.define(
                Ty::Adt {
                    name: shape->name,
                    field_types,
                    field_offsets: shape->field_offsets,
                    field_names: shape->field_names,
                },
            )
        }),
{
}

/// Types are defined one after the other, from the first to the last, and the ids come in that
/// order.
pub proof fn law_types_in_order(s: State, first: Seq<Shape>, second: Seq<Shape>)
    ensures
        ({
            let (t, one) = intern_all(s, first);
            let (u, two) = intern_all(t, second);
            intern_all(s, first + second) == (u, one + two)
        }),
        first.len() == 0 ==> intern_all(s, first) == (s, Seq::<Word>::empty()),
        first.len() == 1 ==> intern_all(s, first) == (
            intern(s, first[0]).0,
            seq![intern(s, first[0]).1],
        ),
    decreases second.len(),
{
    let (t, one) = intern_all(s, first);
    if second.len() == 0 {
        assert(first + second =~= first);
        assert(one + Seq::<Word>::empty() =~= one);
    } else {
        let rest = second.drop_last();
        law_types_in_order(s, first, rest);
        assert((first + second).drop_last() =~= first + rest);
        let (v, ids) = intern_all(t, rest);
        let (u, id) = intern(v, second.last());
        assert(one + ids.push(id) =~= (one + ids).push(id));
    }
    if first.len() == 1 {
        assert(first.drop_last() =~= Seq::<Shape>::empty());
        assert(intern_all(s, Seq::<Shape>::empty()) == (s, Seq::<Word>::empty()));
        assert(Seq::<Word>::empty().push(intern(s, first[0]).1) =~= seq![intern(s, first[0]).1]);
    }
}

} // verus!
