//! The value domain of the representation.

use vstd::prelude::*;

verus! {

/// Byte order of the target.
#[derive(Copy, Clone, Debug, PartialEq, Eq, Hash, Structural)]
pub enum Endian {
    Little,
    Big,
}

/// What the target fixes about data: the width of a pointer and the byte order.
#[derive(Copy, Clone, Debug, PartialEq, Eq, Hash, Structural)]
pub struct DataLayout {
    pub ptr_bits: u32,
    pub endian: Endian,
}

impl DataLayout {
    /// The layout of a 64-bit little-endian target.
    pub fn default_64bit_le() -> (r: Self)
        ensures
            r == (DataLayout { ptr_bits: 64, endian: Endian::Little }),
    {
        DataLayout { ptr_bits: 64, endian: Endian::Little }
    }
}

/// The shape of a value. Two types are the same when every component is the
/// same; there are no names and no subtyping.
#[derive(Debug, PartialEq, Eq, Hash)]
pub enum Type {
    Void,
    I1,
    I8,
    I16,
    I32,
    I64,
    I128,
    U8,
    U16,
    U32,
    U64,
    U128,
    F16,
    F32,
    F64,
    Ptr(Box<Type>),
    Array(Box<Type>, u64),
    Struct(Vec<Type>),
    Tuple(Vec<Type>),
}

/// The mathematical value of a [`Type`]: the same tree, with sequences in
/// place of vectors, so that equality is structural.
pub enum TypeV {
    Void,
    I1,
    I8,
    I16,
    I32,
    I64,
    I128,
    U8,
    U16,
    U32,
    U64,
    U128,
    F16,
    F32,
    F64,
    Ptr(Box<TypeV>),
    Array(Box<TypeV>, u64),
    Struct(Seq<TypeV>),
    Tuple(Seq<TypeV>),
}

/// The values of the types `s[i..]`, in order.
pub open spec fn types_view_from(s: Seq<Type>, i: int) -> Seq<TypeV>
    decreases s, s.len() - i,
{
    if 0 <= i < s.len() {
        seq![s[i]@] + types_view_from(s, i + 1)
    } else {
        Seq::empty()
    }
}

/// The values of the types in `s`, in order.
pub open spec fn types_view(s: Seq<Type>) -> Seq<TypeV> {
    types_view_from(s, 0)
}

impl View for Type {
    type V = TypeV;

    open spec fn view(&self) -> TypeV
        decreases self,
    {
        match self {
            Type::Void => TypeV::Void,
            Type::I1 => TypeV::I1,
            Type::I8 => TypeV::I8,
            Type::I16 => TypeV::I16,
            Type::I32 => TypeV::I32,
            Type::I64 => TypeV::I64,
            Type::I128 => TypeV::I128,
            Type::U8 => TypeV::U8,
            Type::U16 => TypeV::U16,
            Type::U32 => TypeV::U32,
            Type::U64 => TypeV::U64,
            Type::U128 => TypeV::U128,
            Type::F16 => TypeV::F16,
            Type::F32 => TypeV::F32,
            Type::F64 => TypeV::F64,
            Type::Ptr(inner) => TypeV::Ptr(Box::new((**inner)@)),
            Type::Array(inner, n) => TypeV::Array(Box::new((**inner)@), *n),
            Type::Struct(fields) => TypeV::Struct(types_view_from(fields@, 0)),
            Type::Tuple(items) => TypeV::Tuple(types_view_from(items@, 0)),
        }
    }
}

/// `types_view_from(s, i)` lists the values of `s[i..]` one for one.
pub proof fn lemma_types_view_from(s: Seq<Type>, i: int)
    requires
        0 <= i <= s.len(),
    ensures
        types_view_from(s, i).len() == s.len() - i,
        forall|k: int| 0 <= k < s.len() - i ==> #[trigger] types_view_from(s, i)[k] == s[i + k]@,
    decreases s.len() - i,
{
    if i < s.len() {
        lemma_types_view_from(s, i + 1);
        let tail = types_view_from(s, i + 1);
        assert(types_view_from(s, i) == seq![s[i]@] + tail);
        assert forall|k: int| 0 <= k < s.len() - i implies #[trigger] types_view_from(s, i)[k]
            == s[i + k]@ by {
            if k > 0 {
                assert(types_view_from(s, i)[k] == tail[k - 1]);
            }
        }
    }
}

/// `types_view(s)` has the length of `s` and holds the value of each element.
pub proof fn lemma_types_view(s: Seq<Type>)
    ensures
        types_view(s).len() == s.len(),
        forall|k: int| 0 <= k < s.len() ==> #[trigger] types_view(s)[k] == s[k]@,
{
    lemma_types_view_from(s, 0);
}

/// Element-wise comparison of two lists of types.
fn same_list(a: &Vec<Type>, b: &Vec<Type>) -> (r: bool)
    ensures
        r == (types_view(a@) == types_view(b@)),
    decreases a,
{
    proof {
        lemma_types_view(a@);
        lemma_types_view(b@);
    }
    if a.len() != b.len() {
        return false;
    }
    let mut i: usize = 0;
    while i < a.len()
        invariant
            i <= a.len(),
            a.len() == b.len(),
            types_view(a@).len() == a.len(),
            types_view(b@).len() == b.len(),
            forall|k: int| 0 <= k < a.len() ==> #[trigger] types_view(a@)[k] == a@[k]@,
            forall|k: int| 0 <= k < b.len() ==> #[trigger] types_view(b@)[k] == b@[k]@,
            forall|k: int| 0 <= k < i ==> a@[k]@ == b@[k]@,
        decreases a.len() - i,
    {
        if !a[i].same(&b[i]) {
            assert(types_view(a@)[i as int] != types_view(b@)[i as int]);
            return false;
        }
        i += 1;
    }
    assert(types_view(a@) =~= types_view(b@));
    true
}

/// A copy of each type in `a`, in order.
fn cloned_list(a: &Vec<Type>) -> (r: Vec<Type>)
    ensures
        types_view(r@) == types_view(a@),
    decreases a,
{
    let mut out: Vec<Type> = Vec::new();
    let mut i: usize = 0;
    while i < a.len()
        invariant
            i <= a.len(),
            out.len() == i,
            forall|k: int| 0 <= k < i ==> out@[k]@ == a@[k]@,
        decreases a.len() - i,
    {
        out.push(a[i].cloned());
        i += 1;
    }
    proof {
        lemma_types_view(a@);
        lemma_types_view(out@);
        assert(types_view(out@) =~= types_view(a@));
    }
    out
}

impl Type {
    /// The type of a pointer to `inner`.
    pub fn ptr_to(inner: Type) -> (r: Self)
        ensures
            r == Type::Ptr(Box::new(inner)),
            r@ == TypeV::Ptr(Box::new(inner@)),
    {
        Type::Ptr(Box::new(inner))
    }

    /// Structural equality: every component of the two types is the same.
    pub fn same(&self, other: &Type) -> (r: bool)
        ensures
            r == (self@ == other@),
        decreases self,
    {
        match self {
            Type::Void => matches!(other, Type::Void),
            Type::I1 => matches!(other, Type::I1),
            Type::I8 => matches!(other, Type::I8),
            Type::I16 => matches!(other, Type::I16),
            Type::I32 => matches!(other, Type::I32),
            Type::I64 => matches!(other, Type::I64),
            Type::I128 => matches!(other, Type::I128),
            Type::U8 => matches!(other, Type::U8),
            Type::U16 => matches!(other, Type::U16),
            Type::U32 => matches!(other, Type::U32),
            Type::U64 => matches!(other, Type::U64),
            Type::U128 => matches!(other, Type::U128),
            Type::F16 => matches!(other, Type::F16),
            Type::F32 => matches!(other, Type::F32),
            Type::F64 => matches!(other, Type::F64),
            Type::Ptr(inner) => match other {
                Type::Ptr(o) => inner.same(o),
                _ => false,
            },
            Type::Array(inner, n) => match other {
                Type::Array(o, m) => *n == *m && inner.same(o),
                _ => false,
            },
            Type::Struct(fields) => match other {
                Type::Struct(o) => same_list(fields, o),
                _ => false,
            },
            Type::Tuple(items) => match other {
                Type::Tuple(o) => same_list(items, o),
                _ => false,
            },
        }
    }

    /// A copy with the same value.
    pub fn cloned(&self) -> (r: Type)
        ensures
            r@ == self@,
        decreases self,
    {
        match self {
            Type::Void => Type::Void,
            Type::I1 => Type::I1,
            Type::I8 => Type::I8,
            Type::I16 => Type::I16,
            Type::I32 => Type::I32,
            Type::I64 => Type::I64,
            Type::I128 => Type::I128,
            Type::U8 => Type::U8,
            Type::U16 => Type::U16,
            Type::U32 => Type::U32,
            Type::U64 => Type::U64,
            Type::U128 => Type::U128,
            Type::F16 => Type::F16,
            Type::F32 => Type::F32,
            Type::F64 => Type::F64,
            Type::Ptr(inner) => Type::Ptr(Box::new(inner.cloned())),
            Type::Array(inner, n) => Type::Array(Box::new(inner.cloned()), *n),
            Type::Struct(fields) => Type::Struct(cloned_list(fields)),
            Type::Tuple(items) => Type::Tuple(cloned_list(items)),
        }
    }
}

impl Clone for Type {
    fn clone(&self) -> (r: Self)
        ensures
            r@ == self@,
    {
        self.cloned()
    }
}

} // verus!
