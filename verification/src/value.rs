//! Dynamically typed configuration values and the tag-driven decoder that
//! turns raw string values into them.

use vstd::prelude::*;

use crate::ParseError;
use crate::ParseErrorModel;
use crate::traits::ParseFromArgs;
use crate::traits::spec_codec_bool;
use crate::traits::spec_codec_string;
use crate::traits::spec_codec_uint;

verus! {

/// The type of a primitive (leaf) binding: which codec decodes its raw
/// values.
#[derive(Debug)]
pub enum TypeTag {
    /// A string, taken from the first raw value as it is.
    Str,
    /// An 8-bit unsigned integer.
    U8,
    /// A 16-bit unsigned integer.
    U16,
    /// A 32-bit unsigned integer.
    U32,
    /// A 64-bit unsigned integer.
    U64,
    /// A boolean, matched against the literals `true` and `false`.
    Bool,
    /// An optional wrapper around an inner primitive type.
    Opt(Box<TypeTag>),
    /// A sequence wrapper: every raw value decoded independently through the
    /// inner type, failures discarded.
    List(Box<TypeTag>),
}

/// A dynamically typed value produced by a bind: the instance shape that a
/// schema describes.
#[derive(Debug, PartialEq)]
pub enum Value {
    /// A string value.
    Str(String),
    /// An 8-bit unsigned integer value.
    U8(u8),
    /// A 16-bit unsigned integer value.
    U16(u16),
    /// A 32-bit unsigned integer value.
    U32(u32),
    /// A 64-bit unsigned integer value.
    U64(u64),
    /// A boolean value.
    Bool(bool),
    /// An optional value.
    Opt(Option<Box<Value>>),
    /// A list of values decoded element by element.
    List(Vec<Value>),
    /// A bound instance: one value per schema field, in schema order.
    Record(Vec<Value>),
    /// A dynamically keyed map, in the order its keys were first seen.
    Dict(Vec<(String, Value)>),
}

/// Spec-level model of a [`Value`]: the same tree with strings and vectors
/// replaced by sequences.
pub enum ValueModel {
    /// Model of [`Value::Str`].
    Str(Seq<char>),
    /// Model of [`Value::U8`].
    U8(u8),
    /// Model of [`Value::U16`].
    U16(u16),
    /// Model of [`Value::U32`].
    U32(u32),
    /// Model of [`Value::U64`].
    U64(u64),
    /// Model of [`Value::Bool`].
    Bool(bool),
    /// Model of [`Value::Opt`].
    Opt(Option<Box<ValueModel>>),
    /// Model of [`Value::List`].
    List(Seq<ValueModel>),
    /// Model of [`Value::Record`].
    Record(Seq<ValueModel>),
    /// Model of [`Value::Dict`].
    Dict(Seq<(Seq<char>, ValueModel)>),
}

/// The model of a single value.
pub open spec fn spec_value_model(v: Value) -> ValueModel
    decreases v,
{
    match v {
        Value::Str(s) => ValueModel::Str(s@),
        Value::U8(n) => ValueModel::U8(n),
        Value::U16(n) => ValueModel::U16(n),
        Value::U32(n) => ValueModel::U32(n),
        Value::U64(n) => ValueModel::U64(n),
        Value::Bool(b) => ValueModel::Bool(b),
        Value::Opt(o) => ValueModel::Opt(
            match o {
                Some(b) => Some(Box::new(spec_value_model(*b))),
                None => None,
            },
        ),
        Value::List(items) => ValueModel::List(spec_values_model(items@)),
        Value::Record(fields) => ValueModel::Record(spec_values_model(fields@)),
        Value::Dict(entries) => ValueModel::Dict(spec_entries_model(entries@)),
    }
}

/// The models of a sequence of values, in order.
pub open spec fn spec_values_model(s: Seq<Value>) -> Seq<ValueModel>
    decreases s,
{
    if s.len() == 0 {
        Seq::empty()
    } else {
        spec_values_model(s.drop_last()).push(spec_value_model(s.last()))
    }
}

/// The models of a sequence of keyed values, in order.
pub open spec fn spec_entries_model(s: Seq<(String, Value)>) -> Seq<(Seq<char>, ValueModel)>
    decreases s,
{
    if s.len() == 0 {
        Seq::empty()
    } else {
        spec_entries_model(s.drop_last()).push((s.last().0@, spec_value_model(s.last().1)))
    }
}

impl DeepView for Value {
    type V = ValueModel;

    open spec fn deep_view(&self) -> ValueModel {
        spec_value_model(*self)
    }
}

/// Copies a value; the copy has the same model.
#[verifier::loop_isolation(false)]
pub fn clone_value(v: &Value) -> (r: Value)
    ensures
        r.deep_view() == v.deep_view(),
    decreases *v,
{
    match v {
        Value::Str(s) => Value::Str(s.clone()),
        Value::U8(n) => Value::U8(*n),
        Value::U16(n) => Value::U16(*n),
        Value::U32(n) => Value::U32(*n),
        Value::U64(n) => Value::U64(*n),
        Value::Bool(b) => Value::Bool(*b),
        Value::Opt(o) => match o {
            Some(b) => Value::Opt(Some(Box::new(clone_value(b)))),
            None => Value::Opt(None),
        },
        Value::List(items) => {
            proof {
                assert(decreases_to!(*v => items@));
            }
            Value::List(clone_values(items))
        },
        Value::Record(fields) => {
            proof {
                assert(decreases_to!(*v => fields@));
            }
            Value::Record(clone_values(fields))
        },
        Value::Dict(entries) => {
            let mut out: Vec<(String, Value)> = Vec::new();
            let mut i: usize = 0;
            while i < entries.len()
                invariant
                    i <= entries.len(),
                    spec_entries_model(out@) == spec_entries_model(entries@.take(i as int)),
                decreases entries.len() - i,
            {
                let k = entries[i].0.clone();
                proof {
                    assert(decreases_to!(*v => entries@));
                    assert(decreases_to!(entries@ => entries@[i as int]));
                    assert(decreases_to!(entries@[i as int] => entries@[i as int].1));
                    assert(decreases_to!(*v => entries@[i as int].1));
                }
                let c = clone_value(&entries[i].1);
                proof {
                    let prev = out@;
                    let next = entries@.take(i + 1);
                    assert(next.drop_last() =~= entries@.take(i as int));
                    assert(next.last() == entries@[i as int]);
                    assert(prev.push((k, c)).drop_last() =~= prev);
                }
                out.push((k, c));
                i = i + 1;
            }
            assert(entries@.take(entries@.len() as int) =~= entries@);
            Value::Dict(out)
        },
    }
}

/// Copies a vector of values; the copy has the same models.
#[verifier::loop_isolation(false)]
pub fn clone_values(items: &Vec<Value>) -> (r: Vec<Value>)
    ensures
        spec_values_model(r@) == spec_values_model(items@),
    decreases items@,
{
    let mut out: Vec<Value> = Vec::new();
    let mut i: usize = 0;
    while i < items.len()
        invariant
            i <= items.len(),
            spec_values_model(out@) == spec_values_model(items@.take(i as int)),
        decreases items.len() - i,
    {
        proof {
            assert(decreases_to!(items@ => items@[i as int]));
        }
        let c = clone_value(&items[i]);
        proof {
            let prev = out@;
            let next = items@.take(i + 1);
            assert(next.drop_last() =~= items@.take(i as int));
            assert(next.last() == items@[i as int]);
            assert(prev.push(c).drop_last() =~= prev);
        }
        out.push(c);
        i = i + 1;
    }
    assert(items@.take(items@.len() as int) =~= items@);
    out
}

// --- zero values ----------------------------------------------------------------

/// The zero (default) value of a primitive type: the value the binder falls
/// back to under the zero-value default policy.
pub open spec fn spec_zero_value(tag: TypeTag) -> ValueModel {
    match tag {
        TypeTag::Str => ValueModel::Str(Seq::empty()),
        TypeTag::U8 => ValueModel::U8(0),
        TypeTag::U16 => ValueModel::U16(0),
        TypeTag::U32 => ValueModel::U32(0),
        TypeTag::U64 => ValueModel::U64(0),
        TypeTag::Bool => ValueModel::Bool(false),
        TypeTag::Opt(_) => ValueModel::Opt(None),
        TypeTag::List(_) => ValueModel::List(Seq::empty()),
    }
}

/// Builds the zero value of `tag`.
pub fn zero_value(tag: &TypeTag) -> (r: Value)
    ensures
        r.deep_view() == spec_zero_value(*tag),
{
    match tag {
        TypeTag::Str => Value::Str(String::new()),
        TypeTag::U8 => Value::U8(0),
        TypeTag::U16 => Value::U16(0),
        TypeTag::U32 => Value::U32(0),
        TypeTag::U64 => Value::U64(0),
        TypeTag::Bool => Value::Bool(false),
        TypeTag::Opt(_) => Value::Opt(None),
        TypeTag::List(_) => {
            let items: Vec<Value> = Vec::new();
            assert(spec_values_model(items@) =~= Seq::<ValueModel>::empty());
            Value::List(items)
        },
    }
}

// --- the tag-driven decoder -------------------------------------------------------

/// Model of [`decode`]: how a list of raw values decodes through the codec
/// of `tag`. Scalar tags read only the first raw value; the optional wrapper
/// decodes the inner type; the sequence wrapper decodes every raw value
/// independently and keeps the successes.
pub open spec fn spec_decode(tag: TypeTag, values: Seq<Seq<char>>) -> Result<
    ValueModel,
    ParseErrorModel,
>
    decreases tag, 0nat, 0nat,
{
    match tag {
        TypeTag::Str => match spec_codec_string(values) {
            Ok(s) => Ok(ValueModel::Str(s)),
            Err(e) => Err(e),
        },
        TypeTag::U8 => match spec_codec_uint(values, u8::MAX as int) {
            Ok(v) => Ok(ValueModel::U8(v as u8)),
            Err(e) => Err(e),
        },
        TypeTag::U16 => match spec_codec_uint(values, u16::MAX as int) {
            Ok(v) => Ok(ValueModel::U16(v as u16)),
            Err(e) => Err(e),
        },
        TypeTag::U32 => match spec_codec_uint(values, u32::MAX as int) {
            Ok(v) => Ok(ValueModel::U32(v as u32)),
            Err(e) => Err(e),
        },
        TypeTag::U64 => match spec_codec_uint(values, u64::MAX as int) {
            Ok(v) => Ok(ValueModel::U64(v as u64)),
            Err(e) => Err(e),
        },
        TypeTag::Bool => match spec_codec_bool(values) {
            Ok(v) => Ok(ValueModel::Bool(v)),
            Err(e) => Err(e),
        },
        TypeTag::Opt(inner) => if values.len() < 1 {
            Err(ParseErrorModel::MissingValue)
        } else {
            match spec_decode(*inner, values) {
                Ok(v) => Ok(ValueModel::Opt(Some(Box::new(v)))),
                Err(e) => Err(e),
            }
        },
        TypeTag::List(inner) => if values.len() < 1 {
            Err(ParseErrorModel::MissingValue)
        } else {
            Ok(ValueModel::List(spec_decode_each(*inner, values)))
        },
    }
}

/// The raw values of `values` that decode successfully through the codec of
/// `tag`, one by one, in order.
pub open spec fn spec_decode_each(tag: TypeTag, values: Seq<Seq<char>>) -> Seq<ValueModel>
    decreases tag, values.len(), 1nat,
{
    if values.len() == 0 {
        Seq::empty()
    } else {
        let rest = spec_decode_each(tag, values.drop_last());
        match spec_decode(tag, seq![values.last()]) {
            Ok(v) => rest.push(v),
            Err(_) => rest,
        }
    }
}

/// Decodes `values` through the codec identified by `tag`.
#[verifier::loop_isolation(false)]
pub fn decode(tag: &TypeTag, values: &Vec<String>) -> (r: Result<Value, ParseError>)
    ensures
        match r {
            Ok(v) => spec_decode(*tag, values.deep_view()) == Ok::<ValueModel, ParseErrorModel>(
                v.deep_view(),
            ),
            Err(e) => spec_decode(*tag, values.deep_view()) == Err::<ValueModel, ParseErrorModel>(
                e.deep_view(),
            ),
        },
    decreases *tag,
{
    let ghost dv = values.deep_view();
    match tag {
        TypeTag::Str => match <String as ParseFromArgs>::parse(clone_string_vec(values)) {
            Ok(s) => Ok(Value::Str(s)),
            Err(e) => Err(e),
        },
        TypeTag::U8 => match <u8 as ParseFromArgs>::parse(clone_string_vec(values)) {
            Ok(v) => Ok(Value::U8(v)),
            Err(e) => Err(e),
        },
        TypeTag::U16 => match <u16 as ParseFromArgs>::parse(clone_string_vec(values)) {
            Ok(v) => Ok(Value::U16(v)),
            Err(e) => Err(e),
        },
        TypeTag::U32 => match <u32 as ParseFromArgs>::parse(clone_string_vec(values)) {
            Ok(v) => Ok(Value::U32(v)),
            Err(e) => Err(e),
        },
        TypeTag::U64 => match <u64 as ParseFromArgs>::parse(clone_string_vec(values)) {
            Ok(v) => Ok(Value::U64(v)),
            Err(e) => Err(e),
        },
        TypeTag::Bool => match <bool as ParseFromArgs>::parse(clone_string_vec(values)) {
            Ok(v) => Ok(Value::Bool(v)),
            Err(e) => Err(e),
        },
        TypeTag::Opt(inner) => {
            if values.len() < 1 {
                return Err(ParseError::MissingValue);
            }
            match decode(inner, values) {
                Ok(v) => Ok(Value::Opt(Some(Box::new(v)))),
                Err(e) => Err(e),
            }
        },
        TypeTag::List(inner) => {
            if values.len() < 1 {
                return Err(ParseError::MissingValue);
            }
            let mut out: Vec<Value> = Vec::new();
            let mut i: usize = 0;
            while i < values.len()
                invariant
                    i <= values.len(),
                    dv == values.deep_view(),
                    dv.len() == values.len(),
                    spec_values_model(out@) == spec_decode_each(**inner, dv.take(i as int)),
                decreases values.len() - i,
            {
                let single = vec![values[i].clone()];
                proof {
                    assert(single.deep_view() =~= seq![dv[i as int]]);
                    assert(dv.take(i + 1).drop_last() =~= dv.take(i as int));
                    assert(dv.take(i + 1).last() == dv[i as int]);
                }
                let ghost old_out = out@;
                match decode(inner, &single) {
                    Ok(v) => {
                        proof {
                            assert(old_out.push(v).drop_last() =~= old_out);
                        }
                        out.push(v);
                    },
                    Err(_) => {},
                }
                i = i + 1;
            }
            proof {
                assert(dv.take(i as int) =~= dv);
            }
            Ok(Value::List(out))
        },
    }
}

/// Copies a vector of strings; the copy has the same model.
#[verifier::loop_isolation(false)]
pub fn clone_string_vec(v: &Vec<String>) -> (r: Vec<String>)
    ensures
        r.deep_view() == v.deep_view(),
{
    let mut out: Vec<String> = Vec::new();
    let mut i: usize = 0;
    while i < v.len()
        invariant
            i <= v.len(),
            out.deep_view() == v.deep_view().take(i as int),
        decreases v.len() - i,
    {
        out.push(v[i].clone());
        assert(out.deep_view() =~~= v.deep_view().take(i + 1));
        i = i + 1;
    }
    assert(out.deep_view() =~~= v.deep_view());
    out
}

} // verus!
