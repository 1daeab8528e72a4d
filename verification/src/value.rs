//! Protocol values: what one complete reply of the server decodes to.

use vstd::prelude::*;
use vstd::slice::slice_to_vec;

verus! {

/// A value that may key a map or be a member of a set.
#[derive(Debug, PartialEq, Eq)]
pub enum RespPrimitive {
    Integer(i64),
    Nil,
    String(Vec<u8>),
}

/// A decoded protocol value. Containers nest to any depth.
///
/// `Double` holds the IEEE 754 bit pattern of the number, so that the value
/// crosses the library bit for bit. `SetOf`, `MapOf` and `Attribute` hold their
/// members in the order in which the decoder yields them.
#[derive(Debug, PartialEq, Eq)]
pub enum RespValue {
    Attribute(Vec<(RespPrimitive, RespValue)>),
    Array(Vec<RespValue>),
    Bignum(Vec<u8>),
    Boolean(bool),
    Double(u64),
    Error(Vec<u8>),
    Integer(i64),
    MapOf(Vec<(RespPrimitive, RespValue)>),
    Nil,
    Push(Vec<RespValue>),
    SetOf(Vec<RespPrimitive>),
    String(Vec<u8>),
    Verbatim(Vec<u8>, Vec<u8>),
}

/// The mathematical content of a [`RespPrimitive`].
pub enum PrimitiveModel {
    Integer(i64),
    Nil,
    String(Seq<u8>),
}

/// The mathematical content of a [`RespValue`].
pub enum ValueModel {
    Attribute(Seq<(PrimitiveModel, ValueModel)>),
    Array(Seq<ValueModel>),
    Bignum(Seq<u8>),
    Boolean(bool),
    Double(u64),
    Error(Seq<u8>),
    Integer(i64),
    MapOf(Seq<(PrimitiveModel, ValueModel)>),
    Nil,
    Push(Seq<ValueModel>),
    SetOf(Seq<PrimitiveModel>),
    String(Seq<u8>),
    Verbatim(Seq<u8>, Seq<u8>),
}

impl View for RespPrimitive {
    type V = PrimitiveModel;

    open spec fn view(&self) -> PrimitiveModel {
        match self {
            RespPrimitive::Integer(n) => PrimitiveModel::Integer(*n),
            RespPrimitive::Nil => PrimitiveModel::Nil,
            RespPrimitive::String(bytes) => PrimitiveModel::String(bytes@),
        }
    }
}

/// The models of a sequence of primitives, in order.
pub open spec fn primitive_models(items: Seq<RespPrimitive>) -> Seq<PrimitiveModel> {
    Seq::new(items.len(), |i: int| items[i]@)
}

/// The models of a sequence of values, in order.
pub open spec fn value_models(items: Seq<RespValue>) -> Seq<ValueModel>
    decreases items,
{
    Seq::new(
        items.len(),
        |i: int|
            if 0 <= i < items.len() {
                value_model(items[i])
            } else {
                arbitrary()
            },
    )
}

/// The models of a sequence of key/value pairs, in order.
pub open spec fn pair_models(items: Seq<(RespPrimitive, RespValue)>) -> Seq<
    (PrimitiveModel, ValueModel),
>
    decreases items,
{
    Seq::new(
        items.len(),
        |i: int|
            if 0 <= i < items.len() {
                (items[i].0@, value_model(items[i].1))
            } else {
                arbitrary()
            },
    )
}

/// The model of one value.
pub open spec fn value_model(value: RespValue) -> ValueModel
    decreases value,
{
    match value {
        RespValue::Attribute(pairs) => ValueModel::Attribute(pair_models(pairs@)),
        RespValue::Array(items) => ValueModel::Array(value_models(items@)),
        RespValue::Bignum(digits) => ValueModel::Bignum(digits@),
        RespValue::Boolean(b) => ValueModel::Boolean(b),
        RespValue::Double(bits) => ValueModel::Double(bits),
        RespValue::Error(bytes) => ValueModel::Error(bytes@),
        RespValue::Integer(n) => ValueModel::Integer(n),
        RespValue::MapOf(pairs) => ValueModel::MapOf(pair_models(pairs@)),
        RespValue::Nil => ValueModel::Nil,
        RespValue::Push(items) => ValueModel::Push(value_models(items@)),
        RespValue::SetOf(members) => ValueModel::SetOf(primitive_models(members@)),
        RespValue::String(bytes) => ValueModel::String(bytes@),
        RespValue::Verbatim(format, text) => ValueModel::Verbatim(format@, text@),
    }
}

impl View for RespValue {
    type V = ValueModel;

    open spec fn view(&self) -> ValueModel {
        value_model(*self)
    }
}

impl Clone for RespPrimitive {
    fn clone(&self) -> (copy: Self)
        ensures
            copy@ == self@,
    {
        match self {
            RespPrimitive::Integer(n) => RespPrimitive::Integer(*n),
            RespPrimitive::Nil => RespPrimitive::Nil,
            RespPrimitive::String(bytes) => RespPrimitive::String(slice_to_vec(bytes.as_slice())),
        }
    }
}

fn copy_members(members: &Vec<RespPrimitive>) -> (copy: Vec<RespPrimitive>)
    ensures
        primitive_models(copy@) == primitive_models(members@),
{
    let mut copy: Vec<RespPrimitive> = Vec::new();
    let mut i: usize = 0;
    while i < members.len()
        invariant
            i <= members.len(),
            copy.len() == i,
            forall|j: int| 0 <= j < i ==> (#[trigger] copy@[j])@ == members@[j]@,
        decreases members.len() - i,
    {
        copy.push(members[i].clone());
        i += 1;
    }
    assert(primitive_models(copy@) =~= primitive_models(members@));
    copy
}

fn copy_values(items: &Vec<RespValue>) -> (copy: Vec<RespValue>)
    ensures
        value_models(copy@) == value_models(items@),
    decreases items,
{
    let mut copy: Vec<RespValue> = Vec::new();
    let mut i: usize = 0;
    while i < items.len()
        invariant
            i <= items.len(),
            copy.len() == i,
            forall|j: int| 0 <= j < i ==> (#[trigger] copy@[j])@ == items@[j]@,
        decreases items.len() - i,
    {
        copy.push(items[i].clone());
        i += 1;
    }
    assert(value_models(copy@) =~= value_models(items@));
    copy
}

fn copy_entries(pairs: &Vec<(RespPrimitive, RespValue)>) -> (copy: Vec<(RespPrimitive, RespValue)>)
    ensures
        pair_models(copy@) == pair_models(pairs@),
    decreases pairs,
{
    let mut copy: Vec<(RespPrimitive, RespValue)> = Vec::new();
    let mut i: usize = 0;
    while i < pairs.len()
        invariant
            i <= pairs.len(),
            copy.len() == i,
            forall|j: int|
                0 <= j < i ==> (#[trigger] copy@[j]).0@ == pairs@[j].0@ && copy@[j].1@
                    == pairs@[j].1@,
        decreases pairs.len() - i,
    {
        copy.push((pairs[i].0.clone(), pairs[i].1.clone()));
        i += 1;
    }
    assert(pair_models(copy@) =~= pair_models(pairs@));
    copy
}

impl Clone for RespValue {
    fn clone(&self) -> (copy: Self)
        ensures
            copy@ == self@,
        decreases self,
    {
        match self {
            RespValue::Attribute(pairs) => RespValue::Attribute(copy_entries(pairs)),
            RespValue::Array(items) => RespValue::Array(copy_values(items)),
            RespValue::Bignum(digits) => RespValue::Bignum(slice_to_vec(digits.as_slice())),
            RespValue::Boolean(b) => RespValue::Boolean(*b),
            RespValue::Double(bits) => RespValue::Double(*bits),
            RespValue::Error(bytes) => RespValue::Error(slice_to_vec(bytes.as_slice())),
            RespValue::Integer(n) => RespValue::Integer(*n),
            RespValue::MapOf(pairs) => RespValue::MapOf(copy_entries(pairs)),
            RespValue::Nil => RespValue::Nil,
            RespValue::Push(items) => RespValue::Push(copy_values(items)),
            RespValue::SetOf(members) => RespValue::SetOf(copy_members(members)),
            RespValue::String(bytes) => RespValue::String(slice_to_vec(bytes.as_slice())),
            RespValue::Verbatim(format, text) => RespValue::Verbatim(
                slice_to_vec(format.as_slice()),
                slice_to_vec(text.as_slice()),
            ),
        }
    }
}

} // verus!
