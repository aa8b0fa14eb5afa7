//! Move type layouts and Move values, with their mathematical models.

use vstd::prelude::*;
use crate::address::AccountAddress;

verus! {

/// The layout of a Move type, as a function signature gives it.
#[derive(Debug, PartialEq, Eq)]
pub enum TypeLayout {
    Bool,
    U8,
    U64,
    U128,
    Address,
    Vector(Box<TypeLayout>),
    /// A struct, by the layouts of its fields.
    Struct(Vec<TypeLayout>),
    Signer,
}

/// Model of a `TypeLayout`.
pub enum Layout {
    Bool,
    U8,
    U64,
    U128,
    Address,
    Vector(Box<Layout>),
    Struct(Seq<Layout>),
    Signer,
}

impl View for TypeLayout {
    type V = Layout;

    open spec fn view(&self) -> Layout
        decreases self, 1nat,
    {
        match self {
            TypeLayout::Bool => Layout::Bool,
            TypeLayout::U8 => Layout::U8,
            TypeLayout::U64 => Layout::U64,
            TypeLayout::U128 => Layout::U128,
            TypeLayout::Address => Layout::Address,
            TypeLayout::Vector(inner) => Layout::Vector(Box::new((**inner).view())),
            TypeLayout::Struct(fields) => Layout::Struct(layouts_view(fields@)),
            TypeLayout::Signer => Layout::Signer,
        }
    }
}

/// The models of a sequence of layouts.
pub open spec fn layouts_view(s: Seq<TypeLayout>) -> Seq<Layout>
    decreases s, 0nat,
{
    Seq::new(
        s.len(),
        |i: int|
            if 0 <= i < s.len() {
                s[i].view()
            } else {
                Layout::Bool
            },
    )
}

impl TypeLayout {
    /// A copy of the layout.
    pub fn duplicate(&self) -> (r: TypeLayout)
        ensures
            r@ == self@,
        decreases self,
    {
        match self {
            TypeLayout::Bool => TypeLayout::Bool,
            TypeLayout::U8 => TypeLayout::U8,
            TypeLayout::U64 => TypeLayout::U64,
            TypeLayout::U128 => TypeLayout::U128,
            TypeLayout::Address => TypeLayout::Address,
            TypeLayout::Vector(inner) => {
                let c = (**inner).duplicate();
                TypeLayout::Vector(Box::new(c))
            },
            TypeLayout::Struct(fields) => {
                let mut out: Vec<TypeLayout> = Vec::new();
                let mut i: usize = 0;
                while i < fields.len()
                    invariant
                        i <= fields@.len(),
                        out@.len() == i,
                        forall|j: int| 0 <= j < i ==> (#[trigger] out@[j])@ == fields@[j]@,
                        *self == TypeLayout::Struct(*fields),
                    decreases fields@.len() - i,
                {
                    proof {
                        vstd::std_specs::vec::axiom_vec_index_decreases(*fields, i as int);
                        assert(decreases_to!(*self => self->Struct_0));
                    }
                    let c = fields[i].duplicate();
                    out.push(c);
                    i = i + 1;
                }
                assert(layouts_view(out@) =~= layouts_view(fields@));
                TypeLayout::Struct(out)
            },
            TypeLayout::Signer => TypeLayout::Signer,
        }
    }
}

/// Copies a sequence of layouts.
pub fn duplicate_layouts(s: &[TypeLayout]) -> (r: Vec<TypeLayout>)
    ensures
        layouts_view(r@) == layouts_view(s@),
{
    let mut out: Vec<TypeLayout> = Vec::new();
    let mut i: usize = 0;
    while i < s.len()
        invariant
            i <= s@.len(),
            out@.len() == i,
            forall|j: int| 0 <= j < i ==> (#[trigger] out@[j])@ == s@[j]@,
        decreases s@.len() - i,
    {
        let c = s[i].duplicate();
        out.push(c);
        i = i + 1;
    }
    assert(layouts_view(out@) =~= layouts_view(s@));
    out
}

/// A Move value.
#[derive(Debug, PartialEq, Eq)]
pub enum MoveValue {
    U8(u8),
    U64(u64),
    U128(u128),
    Bool(bool),
    Address(AccountAddress),
    Vector(Vec<MoveValue>),
    /// A struct, by the values of its fields.
    Struct(Vec<MoveValue>),
    Signer(AccountAddress),
}

/// Model of a `MoveValue`.
pub enum Value {
    U8(u8),
    U64(u64),
    U128(u128),
    Bool(bool),
    Address(Seq<u8>),
    Vector(Seq<Value>),
    Struct(Seq<Value>),
    Signer(Seq<u8>),
}

impl View for MoveValue {
    type V = Value;

    open spec fn view(&self) -> Value
        decreases self, 1nat,
    {
        match self {
            MoveValue::U8(v) => Value::U8(*v),
            MoveValue::U64(v) => Value::U64(*v),
            MoveValue::U128(v) => Value::U128(*v),
            MoveValue::Bool(b) => Value::Bool(*b),
            MoveValue::Address(a) => Value::Address(a@),
            MoveValue::Vector(items) => Value::Vector(values_view(items@)),
            MoveValue::Struct(items) => Value::Struct(values_view(items@)),
            MoveValue::Signer(a) => Value::Signer(a@),
        }
    }
}

/// The models of a sequence of values.
pub open spec fn values_view(s: Seq<MoveValue>) -> Seq<Value>
    decreases s, 0nat,
{
    Seq::new(
        s.len(),
        |i: int|
            if 0 <= i < s.len() {
                s[i].view()
            } else {
                Value::Bool(false)
            },
    )
}

} // verus!
