//! Marshaled values: the closed set of tagged values handed to the host, and
//! the conversion of protocol values into them.

use crate::escape::{escape_ascii, escaped, lemma_escape_round_trip, unescaped};
use crate::text::decode_text;
use crate::value::{
    pair_models, primitive_models, value_models, PrimitiveModel, RespPrimitive, RespValue,
    ValueModel,
};
use vstd::prelude::*;
use vstd::slice::slice_to_vec;
use vstd::utf8::{decode_utf8, decode_utf8_encode_utf8, encode_utf8, valid_utf8};

verus! {

/// The discriminant of a marshaled value. The set is closed: a host can
/// tell every value it is handed by one of these.
#[derive(Clone, Copy, Debug, PartialEq, Eq, Structural)]
pub enum Tag {
    /// `int`: a signed 64-bit integer.
    Int,
    /// `nil`: nothing.
    Nil,
    /// `boolean`.
    Boolean,
    /// `double`: a 64-bit floating-point number.
    Double,
    /// `bignum`: a number of any size, as decimal text.
    Bignum,
    /// `string`: a byte string, as escaped text.
    String,
    /// `error`: an error of the server, as escaped text.
    Error,
    /// `verbatim`: a text with the name of its format.
    Verbatim,
    /// `array`: a sequence.
    Array,
    /// `push`: a sequence that the server sent unasked.
    Push,
    /// `set`: the members of a set, in no order that a host may rely on.
    SetOf,
    /// `map`: key/value pairs, of a map or of the attributes of a reply.
    MapOf,
}

impl Tag {
    /// The tag as the host sees it.
    pub open spec fn name(self) -> Seq<char> {
        match self {
            Tag::Int => "int"@,
            Tag::Nil => "nil"@,
            Tag::Boolean => "boolean"@,
            Tag::Double => "double"@,
            Tag::Bignum => "bignum"@,
            Tag::String => "string"@,
            Tag::Error => "error"@,
            Tag::Verbatim => "verbatim"@,
            Tag::Array => "array"@,
            Tag::Push => "push"@,
            Tag::SetOf => "set"@,
            Tag::MapOf => "map"@,
        }
    }

    /// The tag as the host sees it.
    pub fn as_str(&self) -> (name: &'static str)
        ensures
            name@ == self.name(),
    {
        match self {
            Tag::Int => "int",
            Tag::Nil => "nil",
            Tag::Boolean => "boolean",
            Tag::Double => "double",
            Tag::Bignum => "bignum",
            Tag::String => "string",
            Tag::Error => "error",
            Tag::Verbatim => "verbatim",
            Tag::Array => "array",
            Tag::Push => "push",
            Tag::SetOf => "set",
            Tag::MapOf => "map",
        }
    }
}

/// A text with the name of its format.
#[derive(Debug, PartialEq, Eq)]
pub struct VerbatimValue {
    format: String,
    value: String,
}

/// What a marshaled value carries.
///
/// `Double` holds the IEEE 754 bit pattern of the number.
#[derive(Debug, PartialEq, Eq)]
pub enum Payload {
    Null,
    Integer(i64),
    Boolean(bool),
    Double(u64),
    Text(String),
    Verbatim(VerbatimValue),
    List(Vec<JsRespValue>),
    Pairs(Vec<(JsRespValue, JsRespValue)>),
}

/// A marshaled value: a tag and what it carries.
#[derive(Debug, PartialEq, Eq)]
pub struct JsRespValue {
    tag: Tag,
    value: Payload,
}

/// The mathematical content of a [`VerbatimValue`].
pub struct VerbatimModel {
    pub format: Seq<char>,
    pub value: Seq<char>,
}

/// The mathematical content of a [`Payload`].
pub enum PayloadModel {
    Null,
    Integer(i64),
    Boolean(bool),
    Double(u64),
    Text(Seq<char>),
    Verbatim(VerbatimModel),
    List(Seq<Marshaled>),
    Pairs(Seq<(Marshaled, Marshaled)>),
}

/// The mathematical content of a [`JsRespValue`].
pub struct Marshaled {
    pub tag: Tag,
    pub value: PayloadModel,
}

impl View for VerbatimValue {
    type V = VerbatimModel;

    closed spec fn view(&self) -> VerbatimModel {
        VerbatimModel { format: self.format@, value: self.value@ }
    }
}

/// The models of a sequence of marshaled values, in order.
pub open spec fn list_models(items: Seq<JsRespValue>) -> Seq<Marshaled>
    decreases items,
{
    Seq::new(
        items.len(),
        |i: int|
            if 0 <= i < items.len() {
                marshaled_model(items[i])
            } else {
                arbitrary()
            },
    )
}

/// The models of a sequence of pairs of marshaled values, in order.
pub open spec fn pairs_models(items: Seq<(JsRespValue, JsRespValue)>) -> Seq<
    (Marshaled, Marshaled),
>
    decreases items,
{
    Seq::new(
        items.len(),
        |i: int|
            if 0 <= i < items.len() {
                (marshaled_model(items[i].0), marshaled_model(items[i].1))
            } else {
                arbitrary()
            },
    )
}

/// The model of what a marshaled value carries.
pub open spec fn payload_model(payload: Payload) -> PayloadModel
    decreases payload,
{
    match payload {
        Payload::Null => PayloadModel::Null,
        Payload::Integer(n) => PayloadModel::Integer(n),
        Payload::Boolean(b) => PayloadModel::Boolean(b),
        Payload::Double(bits) => PayloadModel::Double(bits),
        Payload::Text(text) => PayloadModel::Text(text@),
        Payload::Verbatim(verbatim) => PayloadModel::Verbatim(verbatim@),
        Payload::List(items) => PayloadModel::List(list_models(items@)),
        Payload::Pairs(pairs) => PayloadModel::Pairs(pairs_models(pairs@)),
    }
}

/// The model of a marshaled value.
pub closed spec fn marshaled_model(value: JsRespValue) -> Marshaled
    decreases value,
{
    Marshaled { tag: value.tag, value: payload_model(value.value) }
}

impl View for Payload {
    type V = PayloadModel;

    open spec fn view(&self) -> PayloadModel {
        payload_model(*self)
    }
}

impl View for JsRespValue {
    type V = Marshaled;

    open spec fn view(&self) -> Marshaled {
        marshaled_model(*self)
    }
}

/// What a key of a map or a member of a set is marshaled to.
pub open spec fn marshaled_primitive(value: PrimitiveModel) -> Marshaled {
    match value {
        PrimitiveModel::Integer(n) => Marshaled { tag: Tag::Int, value: PayloadModel::Integer(n) },
        PrimitiveModel::Nil => Marshaled { tag: Tag::Nil, value: PayloadModel::Null },
        PrimitiveModel::String(bytes) => Marshaled {
            tag: Tag::String,
            value: PayloadModel::Text(escaped(bytes)),
        },
    }
}

/// The members of a set, marshaled one by one, in order.
pub open spec fn marshaled_members(members: Seq<PrimitiveModel>) -> Seq<Marshaled> {
    Seq::new(members.len(), |i: int| marshaled_primitive(members[i]))
}

/// The items of a sequence, marshaled one by one, in order.
pub open spec fn marshaled_items(items: Seq<ValueModel>) -> Seq<Marshaled>
    decreases items,
{
    Seq::new(
        items.len(),
        |i: int|
            if 0 <= i < items.len() {
                marshaled(items[i])
            } else {
                arbitrary()
            },
    )
}

/// The entries of a map, key and value marshaled, one by one, in order.
pub open spec fn marshaled_pairs(pairs: Seq<(PrimitiveModel, ValueModel)>) -> Seq<
    (Marshaled, Marshaled),
>
    decreases pairs,
{
    Seq::new(
        pairs.len(),
        |i: int|
            if 0 <= i < pairs.len() {
                (marshaled_primitive(pairs[i].0), marshaled(pairs[i].1))
            } else {
                arbitrary()
            },
    )
}

/// What a protocol value is marshaled to.
///
/// Scalars keep their payload. Byte strings and errors are carried as
/// escaped text. Big numbers and verbatim texts are carried as the text
/// that their bytes encode. Containers are carried as the sequence of their
/// marshaled members, in the order of the source; maps and attributes as a
/// sequence of pairs, both under the tag of a map.
pub open spec fn marshaled(value: ValueModel) -> Marshaled
    decreases value,
{
    match value {
        ValueModel::Attribute(pairs) => Marshaled {
            tag: Tag::MapOf,
            value: PayloadModel::Pairs(marshaled_pairs(pairs)),
        },
        ValueModel::Array(items) => Marshaled {
            tag: Tag::Array,
            value: PayloadModel::List(marshaled_items(items)),
        },
        ValueModel::Bignum(digits) => Marshaled {
            tag: Tag::Bignum,
            value: PayloadModel::Text(decode_utf8(digits)),
        },
        ValueModel::Boolean(b) => Marshaled { tag: Tag::Boolean, value: PayloadModel::Boolean(b) },
        ValueModel::Double(bits) => Marshaled {
            tag: Tag::Double,
            value: PayloadModel::Double(bits),
        },
        ValueModel::Error(bytes) => Marshaled {
            tag: Tag::Error,
            value: PayloadModel::Text(escaped(bytes)),
        },
        ValueModel::Integer(n) => Marshaled { tag: Tag::Int, value: PayloadModel::Integer(n) },
        ValueModel::MapOf(pairs) => Marshaled {
            tag: Tag::MapOf,
            value: PayloadModel::Pairs(marshaled_pairs(pairs)),
        },
        ValueModel::Nil => Marshaled { tag: Tag::Nil, value: PayloadModel::Null },
        ValueModel::Push(items) => Marshaled {
            tag: Tag::Push,
            value: PayloadModel::List(marshaled_items(items)),
        },
        ValueModel::SetOf(members) => Marshaled {
            tag: Tag::SetOf,
            value: PayloadModel::List(marshaled_members(members)),
        },
        ValueModel::String(bytes) => Marshaled {
            tag: Tag::String,
            value: PayloadModel::Text(escaped(bytes)),
        },
        ValueModel::Verbatim(format, text) => Marshaled {
            tag: Tag::Verbatim,
            value: PayloadModel::Verbatim(
                VerbatimModel { format: decode_utf8(format), value: decode_utf8(text) },
            ),
        },
    }
}

/// True when every big number and every verbatim text in the value, at any
/// depth, is valid UTF-8: the values that can be marshaled.
pub open spec fn convertible(value: ValueModel) -> bool
    decreases value,
{
    match value {
        ValueModel::Bignum(digits) => valid_utf8(digits),
        ValueModel::Verbatim(format, text) => valid_utf8(format) && valid_utf8(text),
        ValueModel::Array(items) => all_convertible(items),
        ValueModel::Push(items) => all_convertible(items),
        ValueModel::MapOf(pairs) => all_values_convertible(pairs),
        ValueModel::Attribute(pairs) => all_values_convertible(pairs),
        _ => true,
    }
}

/// True when every item can be marshaled.
pub open spec fn all_convertible(items: Seq<ValueModel>) -> bool
    decreases items,
{
    forall|i: int| 0 <= i < items.len() ==> convertible(#[trigger] items[i])
}

/// True when the value of every entry can be marshaled.
pub open spec fn all_values_convertible(pairs: Seq<(PrimitiveModel, ValueModel)>) -> bool
    decreases pairs,
{
    forall|i: int| 0 <= i < pairs.len() ==> convertible((#[trigger] pairs[i]).1)
}

/// A value that cannot be marshaled: it holds a big number or a verbatim
/// text whose bytes are not valid UTF-8.
#[derive(Clone, Copy, Debug, PartialEq, Eq, Structural)]
pub struct InvalidText;

fn marshal_primitive(value: &RespPrimitive) -> (out: JsRespValue)
    ensures
        out@ == marshaled_primitive(value@),
{
    match value {
        RespPrimitive::Integer(n) => JsRespValue { tag: Tag::Int, value: Payload::Integer(*n) },
        RespPrimitive::Nil => JsRespValue { tag: Tag::Nil, value: Payload::Null },
        RespPrimitive::String(bytes) => JsRespValue {
            tag: Tag::String,
            value: Payload::Text(escape_ascii(bytes.as_slice())),
        },
    }
}

fn marshal_members(members: &Vec<RespPrimitive>) -> (out: Vec<JsRespValue>)
    ensures
        list_models(out@) == marshaled_members(primitive_models(members@)),
{
    let mut out: Vec<JsRespValue> = Vec::new();
    let mut i: usize = 0;
    while i < members.len()
        invariant
            i <= members.len(),
            out.len() == i,
            forall|j: int| 0 <= j < i ==> (#[trigger] out@[j])@ == marshaled_primitive(members@[j]@),
        decreases members.len() - i,
    {
        out.push(marshal_primitive(&members[i]));
        i += 1;
    }
    assert(list_models(out@) =~= marshaled_members(primitive_models(members@)));
    out
}

fn marshal_items(items: &Vec<RespValue>) -> (out: Result<Vec<JsRespValue>, InvalidText>)
    ensures
        match out {
            Ok(list) => all_convertible(value_models(items@)) && list_models(list@)
                == marshaled_items(value_models(items@)),
            Err(_) => !all_convertible(value_models(items@)),
        },
    decreases items,
{
    let mut out: Vec<JsRespValue> = Vec::new();
    let mut i: usize = 0;
    while i < items.len()
        invariant
            i <= items.len(),
            out.len() == i,
            forall|j: int| 0 <= j < i ==> convertible(#[trigger] value_models(items@)[j]),
            forall|j: int| 0 <= j < i ==> (#[trigger] out@[j])@ == marshaled(items@[j]@),
        decreases items.len() - i,
    {
        assert(value_models(items@)[i as int] == items@[i as int]@);
        match marshal_value(&items[i]) {
            Ok(item) => {
                out.push(item);
            },
            Err(error) => {
                return Err(error);
            },
        }
        i += 1;
    }
    assert(list_models(out@) =~= marshaled_items(value_models(items@)));
    Ok(out)
}

fn marshal_pairs(pairs: &Vec<(RespPrimitive, RespValue)>) -> (out: Result<
    Vec<(JsRespValue, JsRespValue)>,
    InvalidText,
>)
    ensures
        match out {
            Ok(list) => all_values_convertible(pair_models(pairs@)) && pairs_models(list@)
                == marshaled_pairs(pair_models(pairs@)),
            Err(_) => !all_values_convertible(pair_models(pairs@)),
        },
    decreases pairs,
{
    let mut out: Vec<(JsRespValue, JsRespValue)> = Vec::new();
    let mut i: usize = 0;
    while i < pairs.len()
        invariant
            i <= pairs.len(),
            out.len() == i,
            forall|j: int| 0 <= j < i ==> convertible((#[trigger] pair_models(pairs@)[j]).1),
            forall|j: int|
                0 <= j < i ==> {
                    &&& (#[trigger] out@[j]).0@ == marshaled_primitive(pairs@[j].0@)
                    &&& out@[j].1@ == marshaled(pairs@[j].1@)
                },
        decreases pairs.len() - i,
    {
        assert(pair_models(pairs@)[i as int] == (pairs@[i as int].0@, pairs@[i as int].1@));
        let key = marshal_primitive(&pairs[i].0);
        match marshal_value(&pairs[i].1) {
            Ok(value) => {
                out.push((key, value));
            },
            Err(error) => {
                return Err(error);
            },
        }
        i += 1;
    }
    assert(pairs_models(out@) =~= marshaled_pairs(pair_models(pairs@)));
    Ok(out)
}

fn marshal_value(value: &RespValue) -> (out: Result<JsRespValue, InvalidText>)
    ensures
        match out {
            Ok(marshaled_value) => convertible(value@) && marshaled_value@ == marshaled(value@),
            Err(_) => !convertible(value@),
        },
    decreases value,
{
    match value {
        RespValue::Attribute(pairs) => {
            match marshal_pairs(pairs) {
                Ok(list) => Ok(JsRespValue { tag: Tag::MapOf, value: Payload::Pairs(list) }),
                Err(error) => Err(error),
            }
        },
        RespValue::Array(items) => {
            match marshal_items(items) {
                Ok(list) => Ok(JsRespValue { tag: Tag::Array, value: Payload::List(list) }),
                Err(error) => Err(error),
            }
        },
        RespValue::Bignum(digits) => {
            match decode_text(slice_to_vec(digits.as_slice())) {
                Some(text) => Ok(JsRespValue { tag: Tag::Bignum, value: Payload::Text(text) }),
                None => Err(InvalidText),
            }
        },
        RespValue::Boolean(b) => Ok(JsRespValue { tag: Tag::Boolean, value: Payload::Boolean(*b) }),
        RespValue::Double(bits) => Ok(
            JsRespValue { tag: Tag::Double, value: Payload::Double(*bits) },
        ),
        RespValue::Error(bytes) => Ok(
            JsRespValue { tag: Tag::Error, value: Payload::Text(escape_ascii(bytes.as_slice())) },
        ),
        RespValue::Integer(n) => Ok(JsRespValue { tag: Tag::Int, value: Payload::Integer(*n) }),
        RespValue::MapOf(pairs) => {
            match marshal_pairs(pairs) {
                Ok(list) => Ok(JsRespValue { tag: Tag::MapOf, value: Payload::Pairs(list) }),
                Err(error) => Err(error),
            }
        },
        RespValue::Nil => Ok(JsRespValue { tag: Tag::Nil, value: Payload::Null }),
        RespValue::Push(items) => {
            match marshal_items(items) {
                Ok(list) => Ok(JsRespValue { tag: Tag::Push, value: Payload::List(list) }),
                Err(error) => Err(error),
            }
        },
        RespValue::SetOf(members) => Ok(
            JsRespValue { tag: Tag::SetOf, value: Payload::List(marshal_members(members)) },
        ),
        RespValue::String(bytes) => Ok(
            JsRespValue { tag: Tag::String, value: Payload::Text(escape_ascii(bytes.as_slice())) },
        ),
        RespValue::Verbatim(format, text) => {
            match decode_text(slice_to_vec(format.as_slice())) {
                Some(format_text) => match decode_text(slice_to_vec(text.as_slice())) {
                    Some(value_text) => Ok(
                        JsRespValue {
                            tag: Tag::Verbatim,
                            value: Payload::Verbatim(
                                VerbatimValue { format: format_text, value: value_text },
                            ),
                        },
                    ),
                    None => Err(InvalidText),
                },
                None => Err(InvalidText),
            }
        },
    }
}

/// Marshals a key of a map or a member of a set.
pub fn convert_primitive(value: RespPrimitive) -> (out: JsRespValue)
    ensures
        out@ == marshaled_primitive(value@),
        out@.well_formed(),
{
    marshal_primitive(&value)
}

/// Marshals a protocol value, or says that it cannot be marshaled.
///
/// The result is `Err` exactly when the value holds, at any depth, a big
/// number or a verbatim text that is not valid UTF-8. Nothing is put in the
/// place of such a text.
///
/// The value is walked by plain recursion: the stack grows with the depth
/// to which the containers nest, not with their size.
pub fn try_convert(value: RespValue) -> (out: Result<JsRespValue, InvalidText>)
    ensures
        out is Ok <==> convertible(value@),
        out matches Ok(marshaled_value) ==> marshaled_value@ == marshaled(value@)
            && marshaled_value@.well_formed(),
{
    proof {
        lemma_marshaled_well_formed(value@);
    }
    marshal_value(&value)
}

/// Marshals a protocol value whose big numbers and verbatim texts are all
/// valid UTF-8.
///
/// The value is walked by plain recursion: the stack grows with the depth
/// to which the containers nest, not with their size.
pub fn convert(value: RespValue) -> (out: JsRespValue)
    requires
        convertible(value@),
    ensures
        out@ == marshaled(value@),
        out@.well_formed(),
{
    proof {
        lemma_marshaled_well_formed(value@);
    }
    match marshal_value(&value) {
        Ok(marshaled_value) => marshaled_value,
        Err(_) => {
            proof {
                assert(false);
            }
            JsRespValue { tag: Tag::Nil, value: Payload::Null }
        },
    }
}

impl Marshaled {
    /// True when the tag and what is carried go together, here and in every
    /// member: an integer under `int`, nothing under `nil`, a boolean under
    /// `boolean`, a number under `double`, a text under `bignum`, `string`
    /// and `error`, a text with its format under `verbatim`, a sequence
    /// under `array`, `push` and `set`, and a sequence of pairs under `map`.
    pub open spec fn well_formed(self) -> bool
        decreases self,
    {
        match self.value {
            PayloadModel::Null => self.tag == Tag::Nil,
            PayloadModel::Integer(_) => self.tag == Tag::Int,
            PayloadModel::Boolean(_) => self.tag == Tag::Boolean,
            PayloadModel::Double(_) => self.tag == Tag::Double,
            PayloadModel::Text(_) => self.tag == Tag::Bignum || self.tag == Tag::String
                || self.tag == Tag::Error,
            PayloadModel::Verbatim(_) => self.tag == Tag::Verbatim,
            PayloadModel::List(items) => {
                &&& self.tag == Tag::Array || self.tag == Tag::Push || self.tag == Tag::SetOf
                &&& forall|i: int| 0 <= i < items.len() ==> (#[trigger] items[i]).well_formed()
            },
            PayloadModel::Pairs(pairs) => {
                &&& self.tag == Tag::MapOf
                &&& forall|i: int|
                    0 <= i < pairs.len() ==> {
                        &&& (#[trigger] pairs[i]).0.well_formed()
                        &&& pairs[i].1.well_formed()
                    }
            },
        }
    }
}

/// Whatever is marshaled, the tag and what is carried go together, at every
/// depth.
pub proof fn lemma_marshaled_well_formed(value: ValueModel)
    ensures
        marshaled(value).well_formed(),
    decreases value,
{
    match value {
        ValueModel::Array(items) => {
            lemma_items_well_formed(items);
        },
        ValueModel::Push(items) => {
            lemma_items_well_formed(items);
        },
        ValueModel::MapOf(pairs) => {
            lemma_pairs_well_formed(pairs);
        },
        ValueModel::Attribute(pairs) => {
            lemma_pairs_well_formed(pairs);
        },
        ValueModel::SetOf(members) => {
            assert forall|i: int| 0 <= i < members.len() implies (#[trigger] marshaled_members(
                members,
            )[i]).well_formed() by {
                lemma_primitive_well_formed(members[i]);
            }
        },
        _ => {},
    }
}

proof fn lemma_primitive_well_formed(value: PrimitiveModel)
    ensures
        marshaled_primitive(value).well_formed(),
{
}

proof fn lemma_items_well_formed(items: Seq<ValueModel>)
    ensures
        marshaled_items(items).len() == items.len(),
        forall|i: int|
            0 <= i < items.len() ==> (#[trigger] marshaled_items(items)[i]).well_formed(),
    decreases items,
{
    assert forall|i: int| 0 <= i < items.len() implies (#[trigger] marshaled_items(
        items,
    )[i]).well_formed() by {
        lemma_marshaled_well_formed(items[i]);
    }
}

proof fn lemma_pairs_well_formed(pairs: Seq<(PrimitiveModel, ValueModel)>)
    ensures
        marshaled_pairs(pairs).len() == pairs.len(),
        forall|i: int|
            0 <= i < pairs.len() ==> {
                &&& (#[trigger] marshaled_pairs(pairs)[i]).0.well_formed()
                &&& marshaled_pairs(pairs)[i].1.well_formed()
            },
    decreases pairs,
{
    assert forall|i: int| 0 <= i < pairs.len() implies {
        &&& (#[trigger] marshaled_pairs(pairs)[i]).0.well_formed()
        &&& marshaled_pairs(pairs)[i].1.well_formed()
    } by {
        lemma_primitive_well_formed(pairs[i].0);
        lemma_marshaled_well_formed(pairs[i].1);
    }
}

/// Every scalar is marshaled under its own tag with an equal payload: an
/// integer, a boolean and a number as they are, a nil as nothing, a byte
/// string and an error as a text that un-escapes to their bytes, a big
/// number and a verbatim text as the text that their bytes encode.
pub proof fn lemma_scalar_keeps_payload(value: ValueModel)
    requires
        convertible(value),
    ensures
        match value {
            ValueModel::Integer(n) => marshaled(value) == (Marshaled {
                tag: Tag::Int,
                value: PayloadModel::Integer(n),
            }),
            ValueModel::Nil => marshaled(value) == (Marshaled {
                tag: Tag::Nil,
                value: PayloadModel::Null,
            }),
            ValueModel::Boolean(b) => marshaled(value) == (Marshaled {
                tag: Tag::Boolean,
                value: PayloadModel::Boolean(b),
            }),
            ValueModel::Double(bits) => marshaled(value) == (Marshaled {
                tag: Tag::Double,
                value: PayloadModel::Double(bits),
            }),
            ValueModel::Bignum(digits) => {
                &&& marshaled(value).tag == Tag::Bignum
                &&& marshaled(value).value matches PayloadModel::Text(text)
                &&& encode_utf8(text) == digits
            },
            ValueModel::String(bytes) => {
                &&& marshaled(value).tag == Tag::String
                &&& marshaled(value).value matches PayloadModel::Text(text)
                &&& unescaped(text) == Some(bytes)
            },
            ValueModel::Error(bytes) => {
                &&& marshaled(value).tag == Tag::Error
                &&& marshaled(value).value matches PayloadModel::Text(text)
                &&& unescaped(text) == Some(bytes)
            },
            ValueModel::Verbatim(format, text) => {
                &&& marshaled(value).tag == Tag::Verbatim
                &&& marshaled(value).value matches PayloadModel::Verbatim(verbatim)
                &&& encode_utf8(verbatim.format) == format
                &&& encode_utf8(verbatim.value) == text
            },
            _ => true,
        },
{
    match value {
        ValueModel::Bignum(digits) => {
            decode_utf8_encode_utf8(digits);
        },
        ValueModel::String(bytes) => {
            lemma_escape_round_trip(bytes);
        },
        ValueModel::Error(bytes) => {
            lemma_escape_round_trip(bytes);
        },
        ValueModel::Verbatim(format, text) => {
            decode_utf8_encode_utf8(format);
            decode_utf8_encode_utf8(text);
        },
        _ => {},
    }
}

/// A key of a map or a member of a set is marshaled as the scalar of the
/// same kind is.
pub proof fn lemma_primitive_as_scalar(value: PrimitiveModel)
    ensures
        match value {
            PrimitiveModel::Integer(n) => marshaled_primitive(value) == marshaled(
                ValueModel::Integer(n),
            ),
            PrimitiveModel::Nil => marshaled_primitive(value) == marshaled(ValueModel::Nil),
            PrimitiveModel::String(bytes) => marshaled_primitive(value) == marshaled(
                ValueModel::String(bytes),
            ),
        },
{
}

/// A container is marshaled member by member, with nothing added, dropped
/// or moved: as many members as the source has, the one at each place
/// being what the source's member at that place is marshaled to. Arrays,
/// pushes and sets keep their own tag; maps and attributes both come out
/// under the tag of a map.
pub proof fn lemma_container_keeps_order(value: ValueModel)
    ensures
        match value {
            ValueModel::Array(items) => {
                &&& marshaled(value).tag == Tag::Array
                &&& marshaled(value).value matches PayloadModel::List(list)
                &&& list.len() == items.len()
                &&& forall|i: int| 0 <= i < items.len() ==> list[i] == marshaled(items[i])
            },
            ValueModel::Push(items) => {
                &&& marshaled(value).tag == Tag::Push
                &&& marshaled(value).value matches PayloadModel::List(list)
                &&& list.len() == items.len()
                &&& forall|i: int| 0 <= i < items.len() ==> list[i] == marshaled(items[i])
            },
            ValueModel::SetOf(members) => {
                &&& marshaled(value).tag == Tag::SetOf
                &&& marshaled(value).value matches PayloadModel::List(list)
                &&& list.len() == members.len()
                &&& forall|i: int|
                    0 <= i < members.len() ==> list[i] == marshaled_primitive(members[i])
            },
            ValueModel::MapOf(pairs) => {
                &&& marshaled(value).tag == Tag::MapOf
                &&& marshaled(value).value matches PayloadModel::Pairs(list)
                &&& list.len() == pairs.len()
                &&& forall|i: int|
                    0 <= i < pairs.len() ==> list[i] == (
                        marshaled_primitive(pairs[i].0),
                        marshaled(pairs[i].1),
                    )
            },
            ValueModel::Attribute(pairs) => {
                &&& marshaled(value).tag == Tag::MapOf
                &&& marshaled(value).value matches PayloadModel::Pairs(list)
                &&& list.len() == pairs.len()
                &&& forall|i: int|
                    0 <= i < pairs.len() ==> list[i] == (
                        marshaled_primitive(pairs[i].0),
                        marshaled(pairs[i].1),
                    )
            },
            _ => true,
        },
{
}

impl VerbatimValue {
    /// The name of the format of the text.
    pub fn format(&self) -> (text: String)
        ensures
            text@ == self@.format,
    {
        self.format.clone()
    }

    /// The text.
    pub fn value(&self) -> (text: String)
        ensures
            text@ == self@.value,
    {
        self.value.clone()
    }
}

impl Clone for VerbatimValue {
    fn clone(&self) -> (copy: Self)
        ensures
            copy@ == self@,
    {
        VerbatimValue { format: self.format.clone(), value: self.value.clone() }
    }
}

impl JsRespValue {
    /// The tag, as the host sees it.
    pub fn tag(&self) -> (name: String)
        ensures
            name@ == self@.tag.name(),
    {
        self.tag.as_str().to_owned()
    }

    /// The tag.
    pub fn kind(&self) -> (tag: Tag)
        ensures
            tag == self@.tag,
    {
        self.tag
    }

    /// What the value carries.
    pub fn value(&self) -> (payload: Payload)
        ensures
            payload@ == self@.value,
    {
        self.value.clone()
    }
}

impl Clone for Payload {
    fn clone(&self) -> (copy: Self)
        ensures
            copy@ == self@,
        decreases self,
    {
        match self {
            Payload::Null => Payload::Null,
            Payload::Integer(n) => Payload::Integer(*n),
            Payload::Boolean(b) => Payload::Boolean(*b),
            Payload::Double(bits) => Payload::Double(*bits),
            Payload::Text(text) => Payload::Text(text.clone()),
            Payload::Verbatim(verbatim) => Payload::Verbatim(verbatim.clone()),
            Payload::List(items) => Payload::List(copy_list(items)),
            Payload::Pairs(pairs) => Payload::Pairs(copy_pairs(pairs)),
        }
    }
}

fn copy_list(items: &Vec<JsRespValue>) -> (copy: Vec<JsRespValue>)
    ensures
        list_models(copy@) == list_models(items@),
    decreases items,
{
    let mut copy: Vec<JsRespValue> = Vec::new();
    let mut i: usize = 0;
    while i < items.len()
        invariant
            i <= items.len(),
            copy.len() == i,
            forall|j: int| 0 <= j < i ==> (#[trigger] copy@[j])@ == items@[j]@,
        decreases items.len() - i,
    {
        copy.push(items[i].clone());
        i += 1;
    }
    assert(list_models(copy@) =~= list_models(items@));
    copy
}

fn copy_pairs(pairs: &Vec<(JsRespValue, JsRespValue)>) -> (copy: Vec<(JsRespValue, JsRespValue)>)
    ensures
        pairs_models(copy@) == pairs_models(pairs@),
    decreases pairs,
{
    let mut copy: Vec<(JsRespValue, JsRespValue)> = Vec::new();
    let mut i: usize = 0;
    while i < pairs.len()
        invariant
            i <= pairs.len(),
            copy.len() == i,
            forall|j: int|
                0 <= j < i ==> (#[trigger] copy@[j]).0@ == pairs@[j].0@ && copy@[j].1@
                    == pairs@[j].1@,
        decreases pairs.len() - i,
    {
        copy.push((pairs[i].0.clone(), pairs[i].1.clone()));
        i += 1;
    }
    assert(pairs_models(copy@) =~= pairs_models(pairs@));
    copy
}

impl Clone for JsRespValue {
    fn clone(&self) -> (copy: Self)
        ensures
            copy@ == self@,
        decreases self,
    {
        JsRespValue { tag: self.tag, value: self.value.clone() }
    }
}

} // verus!
