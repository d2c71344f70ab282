//! SPIR-V types as the crate describes them.
use crate::storage::StorageClass;
use rspirv::spirv::Word;
use vstd::prelude::*;

verus! {

/// A SPIR-V type whose components are given by their ids.
#[derive(Debug, PartialOrd, Ord, Hash)]
pub enum SpirvType {
    Void,
    Bool,
    Integer(u32, bool),
    Float(u32),
    /// A struct, enum, or union.
    Adt {
        name: Option<String>,
        field_types: Vec<Word>,
        /// *byte* offsets
        field_offsets: Option<Vec<u32>>,
        field_names: Option<Vec<String>>,
    },
    Vector { element: Word, count: Word },
    Array { element: Word, count: Word },
    Pointer { storage_class: StorageClass, pointee: Word },
    Function { return_type: Word, arguments: Vec<Word> },
}

/// A [`SpirvType`] as a mathematical value.
#[verifier::ext_equal]
pub enum Ty {
    Void,
    Bool,
    Integer(u32, bool),
    Float(u32),
    Adt {
        name: Option<Seq<char>>,
        field_types: Seq<Word>,
        field_offsets: Option<Seq<u32>>,
        field_names: Option<Seq<Seq<char>>>,
    },
    Vector { element: Word, count: Word },
    Array { element: Word, count: Word },
    Pointer { storage_class: StorageClass, pointee: Word },
    Function { return_type: Word, arguments: Seq<Word> },
}

/// The texts of some strings.
pub open spec fn texts(strings: Seq<String>) -> Seq<Seq<char>> {
    strings.map_values(|s: String| s@)
}

/// The text of an optional string.
pub open spec fn opt_text(s: Option<String>) -> Option<Seq<char>> {
    match s {
        Some(s) => Some(s@),
        None => None,
    }
}

/// The texts of an optional list of strings.
pub open spec fn opt_texts(v: Option<Vec<String>>) -> Option<Seq<Seq<char>>> {
    match v {
        Some(v) => Some(texts(v@)),
        None => None,
    }
}

/// The words of an optional list of words.
pub open spec fn opt_words(v: Option<Vec<u32>>) -> Option<Seq<u32>> {
    match v {
        Some(v) => Some(v@),
        None => None,
    }
}

impl View for SpirvType {
    type V = Ty;

    open spec fn view(&self) -> Ty {
        match *self {
            SpirvType::Void => Ty::Void,
            SpirvType::Bool => Ty::Bool,
            SpirvType::Integer(width, signedness) => Ty::Integer(width, signedness),
            SpirvType::Float(width) => Ty::Float(width),
            SpirvType::Adt { name, field_types, field_offsets, field_names } => Ty::Adt {
                name: opt_text(name),
                field_types: field_types@,
                field_offsets: opt_words(field_offsets),
                field_names: opt_texts(field_names),
            },
            SpirvType::Vector { element, count } => Ty::Vector { element, count },
            SpirvType::Array { element, count } => Ty::Array { element, count },
            SpirvType::Pointer { storage_class, pointee } => Ty::Pointer { storage_class, pointee },
            SpirvType::Function { return_type, arguments } => Ty::Function {
                return_type,
                arguments: arguments@,
            },
        }
    }
}

/// Whether two lists of words are the same.
fn same_words(a: &Vec<u32>, b: &Vec<u32>) -> (r: bool)
    ensures
        r == (a@ == b@),
{
    if a.len() != b.len() {
        return false;
    }
    for i in 0..a.len()
        invariant
            a@.len() == b@.len(),
            forall|j: int| 0 <= j < i ==> a@[j] == b@[j],
    {
        if a[i] != b[i] {
            return false;
        }
    }
    assert(a@ =~= b@);
    true
}

/// Whether two lists of strings are the same.
fn same_strings(a: &Vec<String>, b: &Vec<String>) -> (r: bool)
    ensures
        r == (texts(a@) == texts(b@)),
{
    if a.len() != b.len() {
        assert(texts(a@).len() != texts(b@).len());
        return false;
    }
    for i in 0..a.len()
        invariant
            a@.len() == b@.len(),
            forall|j: int| 0 <= j < i ==> a@[j]@ == b@[j]@,
    {
        if a[i] != b[i] {
            assert(texts(a@)[i as int] != texts(b@)[i as int]);
            return false;
        }
    }
    assert(texts(a@) =~= texts(b@));
    true
}

/// Whether two optional strings are the same.
fn same_opt_string(a: &Option<String>, b: &Option<String>) -> (r: bool)
    ensures
        r == (opt_text(*a) == opt_text(*b)),
{
    match (a, b) {
        (Some(a), Some(b)) => *a == *b,
        (None, None) => true,
        _ => false,
    }
}

/// Whether two optional lists of words are the same.
fn same_opt_words(a: &Option<Vec<u32>>, b: &Option<Vec<u32>>) -> (r: bool)
    ensures
        r == (opt_words(*a) == opt_words(*b)),
{
    match (a, b) {
        (Some(a), Some(b)) => same_words(a, b),
        (None, None) => true,
        _ => false,
    }
}

/// Whether two optional lists of strings are the same.
fn same_opt_strings(a: &Option<Vec<String>>, b: &Option<Vec<String>>) -> (r: bool)
    ensures
        r == (opt_texts(*a) == opt_texts(*b)),
{
    match (a, b) {
        (Some(a), Some(b)) => same_strings(a, b),
        (None, None) => true,
        _ => false,
    }
}

impl PartialEq for SpirvType {
    fn eq(&self, other: &Self) -> (r: bool) {
        match (self, other) {
            (SpirvType::Void, SpirvType::Void) => true,
            (SpirvType::Bool, SpirvType::Bool) => true,
            (SpirvType::Integer(w1, s1), SpirvType::Integer(w2, s2)) => *w1 == *w2 && *s1 == *s2,
            (SpirvType::Float(w1), SpirvType::Float(w2)) => *w1 == *w2,
            (
                SpirvType::Adt { name: n1, field_types: t1, field_offsets: o1, field_names: m1 },
                SpirvType::Adt { name: n2, field_types: t2, field_offsets: o2, field_names: m2 },
            ) => same_opt_string(n1, n2) && same_words(t1, t2) && same_opt_words(o1, o2)
                && same_opt_strings(m1, m2),
            (
                SpirvType::Vector { element: e1, count: c1 },
                SpirvType::Vector { element: e2, count: c2 },
            ) => *e1 == *e2 && *c1 == *c2,
            (
                SpirvType::Array { element: e1, count: c1 },
                SpirvType::Array { element: e2, count: c2 },
            ) => *e1 == *e2 && *c1 == *c2,
            (
                SpirvType::Pointer { storage_class: s1, pointee: p1 },
                SpirvType::Pointer { storage_class: s2, pointee: p2 },
            ) => *s1 == *s2 && *p1 == *p2,
            (
                SpirvType::Function { return_type: r1, arguments: a1 },
                SpirvType::Function { return_type: r2, arguments: a2 },
            ) => *r1 == *r2 && same_words(a1, a2),
            _ => false,
        }
    }
}

impl vstd::std_specs::cmp::PartialEqSpecImpl for SpirvType {
    open spec fn obeys_eq_spec() -> bool {
        true
    }

    open spec fn eq_spec(&self, other: &Self) -> bool {
        self@ == other@
    }
}

impl Eq for SpirvType {

}

/// A copy of a list of strings.
pub(crate) fn copy_strings(v: &Vec<String>) -> (r: Vec<String>)
    ensures
        texts(r@) == texts(v@),
{
    let mut r: Vec<String> = Vec::new();
    for i in 0..v.len()
        invariant
            r@.len() == i,
            forall|j: int| 0 <= j < i ==> r@[j]@ == v@[j]@,
    {
        r.push(v[i].clone());
    }
    assert(texts(r@) =~= texts(v@));
    r
}

impl Clone for SpirvType {
    fn clone(&self) -> (r: Self)
        ensures
            r@ == self@,
    {
        match self {
            SpirvType::Void => SpirvType::Void,
            SpirvType::Bool => SpirvType::Bool,
            SpirvType::Integer(width, signedness) => SpirvType::Integer(*width, *signedness),
            SpirvType::Float(width) => SpirvType::Float(*width),
            SpirvType::Adt { name, field_types, field_offsets, field_names } => SpirvType::Adt {
                name: match name {
                    Some(name) => Some(name.clone()),
                    None => None,
                },
                field_types: field_types.clone(),
                field_offsets: match field_offsets {
                    Some(field_offsets) => Some(field_offsets.clone()),
                    None => None,
                },
                field_names: match field_names {
                    Some(field_names) => Some(copy_strings(field_names)),
                    None => None,
                },
            },
            SpirvType::Vector { element, count } => SpirvType::Vector {
                element: *element,
                count: *count,
            },
            SpirvType::Array { element, count } => SpirvType::Array {
                element: *element,
                count: *count,
            },
            SpirvType::Pointer { storage_class, pointee } => SpirvType::Pointer {
                storage_class: *storage_class,
                pointee: *pointee,
            },
            SpirvType::Function { return_type, arguments } => SpirvType::Function {
                return_type: *return_type,
                arguments: arguments.clone(),
            },
        }
    }
}

} // verus!
