//! Per-type value codecs: the interface for turning a list of raw string
//! values into a single typed value, with default-fallback combinators, and
//! its implementations for the built-in primitive types.

use vstd::prelude::*;

use crate::ParseError;
use crate::ParseErrorModel;
use crate::args::ArgsModel;
use crate::args::RawArgs;
use crate::introspect::ArgumentDetail;
use crate::introspect::ArgumentDetailModel;
use crate::strutil::spec_parse_uint;
use crate::strutil::parse_uint;
use crate::strutil::str_eq;

verus! {

/// The interface for parsing a whole collection of arguments into a single
/// concrete struct, and for listing the arguments the struct accepts.
///
/// Implementations are written by users of the library, one per target
/// structure, typically as a thin typed layer over a [`crate::schema::Schema`]
/// and [`crate::bind::bind`]. Each implementation fixes its own mathematical
/// description through the two spec functions; the executable methods are
/// bound to those descriptions.
pub trait FromArgs: DeepView + Sized {
    /// Mathematical description of [`FromArgs::parse`].
    spec fn spec_parse(args: ArgsModel) -> Result<Self::V, ParseErrorModel>;

    /// Mathematical description of [`FromArgs::arguments`].
    spec fn spec_arguments() -> Seq<ArgumentDetailModel>;

    /// Parses the given collection of arguments into a valid instance.
    fn parse(args: RawArgs) -> (r: Result<Self, ParseError>)
        ensures
            (match r {
                Ok(v) => Self::spec_parse(args.deep_view()) == Ok::<Self::V, ParseErrorModel>(
                    v.deep_view(),
                ),
                Err(e) => Self::spec_parse(args.deep_view()) == Err::<Self::V, ParseErrorModel>(
                    e.deep_view(),
                ),
            }),
    ;

    /// The catalogue of arguments the implementing type accepts.
    fn arguments() -> (r: Vec<ArgumentDetail>)
        ensures
            r.deep_view() == Self::spec_arguments(),
    ;
}

/// Deep view of a codec result: the value and the error replaced by their
/// spec-level models.
pub open spec fn codec_result_view<T: DeepView>(r: Result<T, ParseError>) -> Result<
    T::V,
    ParseErrorModel,
> {
    match r {
        Ok(v) => Ok(v.deep_view()),
        Err(e) => Err(e.deep_view()),
    }
}

// --- shared codec models ------------------------------------------------------

/// Model of the string codec: the first raw value, taken as it is.
pub open spec fn spec_codec_string(values: Seq<Seq<char>>) -> Result<Seq<char>, ParseErrorModel> {
    if values.len() < 1 {
        Err(ParseErrorModel::MissingValue)
    } else {
        Ok(values[0])
    }
}

/// Model of the unsigned-integer codecs: the first raw value read as a
/// decimal number, rejected when malformed or above `max`.
pub open spec fn spec_codec_uint(values: Seq<Seq<char>>, max: int) -> Result<
    int,
    ParseErrorModel,
> {
    if values.len() < 1 {
        Err(ParseErrorModel::MissingValue)
    } else {
        match spec_parse_uint(values[0]) {
            Some(v) => if v <= max {
                Ok(v)
            } else {
                Err(ParseErrorModel::InvalidValue)
            },
            None => Err(ParseErrorModel::InvalidValue),
        }
    }
}

/// Model of the boolean codec: an exact, case-sensitive match of the first
/// raw value against the literals `true` and `false`.
pub open spec fn spec_codec_bool(values: Seq<Seq<char>>) -> Result<bool, ParseErrorModel> {
    if values.len() < 1 {
        Err(ParseErrorModel::MissingValue)
    } else if values[0] == "true"@ {
        Ok(true)
    } else if values[0] == "false"@ {
        Ok(false)
    } else {
        Err(ParseErrorModel::InvalidValue)
    }
}

/// Every built-in scalar codec depends only on the first raw value: on two
/// non-empty value lists that agree on their first element, the string,
/// boolean and unsigned-integer codecs of every width decode to the same
/// result, whatever follows.
pub proof fn lemma_scalar_codecs_use_first_value_only(a: Seq<Seq<char>>, b: Seq<Seq<char>>)
    requires
        a.len() >= 1,
        b.len() >= 1,
        a[0] == b[0],
    ensures
        spec_codec_string(a) == spec_codec_string(b),
        spec_codec_bool(a) == spec_codec_bool(b),
        forall|max: int| #[trigger] spec_codec_uint(a, max) == spec_codec_uint(b, max),
{
}

// --- the codec interface --------------------------------------------------------

/// The interface for parsing a list of raw argument values into a single
/// concrete value of the implementing type.
///
/// Every implementation fixes its own mathematical description through
/// [`ParseFromArgs::spec_parse`] and [`ParseFromArgs::spec_default`]; the
/// executable methods are bound to those descriptions.
pub trait ParseFromArgs: DeepView + Sized {
    /// Mathematical description of [`ParseFromArgs::parse`].
    spec fn spec_parse(values: Seq<Seq<char>>) -> Result<Self::V, ParseErrorModel>;

    /// Model of the fallback value used by [`ParseFromArgs::parse_with_default`].
    spec fn spec_default() -> Self::V;

    /// Parses the given raw values into a single value of the type.
    fn parse(values: Vec<String>) -> (r: Result<Self, ParseError>)
        ensures
            codec_result_view(r) == Self::spec_parse(values.deep_view()),
    ;

    /// The type's fallback value.
    fn default_value() -> (r: Self)
        ensures
            r.deep_view() == Self::spec_default(),
    ;

    /// Parses the given raw values using [`ParseFromArgs::parse`], or, if
    /// that fails for whatever reason, falls back to calling `default_func`.
    fn parse_with_default_fn<F: Fn() -> Self>(values: Vec<String>, default_func: F) -> (r: Self)
        requires
            default_func.requires(()),
        ensures
            match Self::spec_parse(values.deep_view()) {
                Ok(v) => r.deep_view() == v,
                Err(_) => default_func.ensures((), r),
            },
    {
        match Self::parse(values) {
            Ok(v) => v,
            Err(_) => default_func(),
        }
    }

    /// Parses the given raw values using [`ParseFromArgs::parse`], or, if
    /// that fails for whatever reason, falls back to the type's default.
    fn parse_with_default(values: Vec<String>) -> (r: Self)
        ensures
            r.deep_view() == (match Self::spec_parse(values.deep_view()) {
                Ok(v) => v,
                Err(_) => Self::spec_default(),
            }),
    {
        match Self::parse(values) {
            Ok(v) => v,
            Err(_) => Self::default_value(),
        }
    }
}

// --- built-in codecs ------------------------------------------------------------

impl ParseFromArgs for String {
    open spec fn spec_parse(values: Seq<Seq<char>>) -> Result<Seq<char>, ParseErrorModel> {
        spec_codec_string(values)
    }

    open spec fn spec_default() -> Seq<char> {
        Seq::empty()
    }

    fn parse(values: Vec<String>) -> (r: Result<Self, ParseError>) {
        if values.len() < 1 {
            return Err(ParseError::MissingValue);
        }
        let v = values[0].clone();
        assert(values.deep_view()[0] == values@[0]@);
        Ok(v)
    }

    fn default_value() -> (r: Self) {
        String::new()
    }
}

impl ParseFromArgs for u64 {
    open spec fn spec_parse(values: Seq<Seq<char>>) -> Result<u64, ParseErrorModel> {
        match spec_codec_uint(values, u64::MAX as int) {
            Ok(v) => Ok(v as u64),
            Err(e) => Err(e),
        }
    }

    open spec fn spec_default() -> u64 {
        0
    }

    fn parse(values: Vec<String>) -> (r: Result<Self, ParseError>) {
        if values.len() < 1 {
            return Err(ParseError::MissingValue);
        }
        assert(values.deep_view()[0] == values@[0]@);
        match parse_uint(values[0].as_str(), u64::MAX) {
            Some(u) => Ok(u),
            None => Err(ParseError::InvalidValue),
        }
    }

    fn default_value() -> (r: Self) {
        0
    }
}

impl ParseFromArgs for u32 {
    open spec fn spec_parse(values: Seq<Seq<char>>) -> Result<u32, ParseErrorModel> {
        match spec_codec_uint(values, u32::MAX as int) {
            Ok(v) => Ok(v as u32),
            Err(e) => Err(e),
        }
    }

    open spec fn spec_default() -> u32 {
        0
    }

    fn parse(values: Vec<String>) -> (r: Result<Self, ParseError>) {
        if values.len() < 1 {
            return Err(ParseError::MissingValue);
        }
        assert(values.deep_view()[0] == values@[0]@);
        match parse_uint(values[0].as_str(), u32::MAX as u64) {
            Some(u) => Ok(u as u32),
            None => Err(ParseError::InvalidValue),
        }
    }

    fn default_value() -> (r: Self) {
        0
    }
}

impl ParseFromArgs for u16 {
    open spec fn spec_parse(values: Seq<Seq<char>>) -> Result<u16, ParseErrorModel> {
        match spec_codec_uint(values, u16::MAX as int) {
            Ok(v) => Ok(v as u16),
            Err(e) => Err(e),
        }
    }

    open spec fn spec_default() -> u16 {
        0
    }

    fn parse(values: Vec<String>) -> (r: Result<Self, ParseError>) {
        if values.len() < 1 {
            return Err(ParseError::MissingValue);
        }
        assert(values.deep_view()[0] == values@[0]@);
        match parse_uint(values[0].as_str(), u16::MAX as u64) {
            Some(u) => Ok(u as u16),
            None => Err(ParseError::InvalidValue),
        }
    }

    fn default_value() -> (r: Self) {
        0
    }
}

impl ParseFromArgs for u8 {
    open spec fn spec_parse(values: Seq<Seq<char>>) -> Result<u8, ParseErrorModel> {
        match spec_codec_uint(values, u8::MAX as int) {
            Ok(v) => Ok(v as u8),
            Err(e) => Err(e),
        }
    }

    open spec fn spec_default() -> u8 {
        0
    }

    fn parse(values: Vec<String>) -> (r: Result<Self, ParseError>) {
        if values.len() < 1 {
            return Err(ParseError::MissingValue);
        }
        assert(values.deep_view()[0] == values@[0]@);
        match parse_uint(values[0].as_str(), u8::MAX as u64) {
            Some(u) => Ok(u as u8),
            None => Err(ParseError::InvalidValue),
        }
    }

    fn default_value() -> (r: Self) {
        0
    }
}

impl ParseFromArgs for bool {
    open spec fn spec_parse(values: Seq<Seq<char>>) -> Result<bool, ParseErrorModel> {
        spec_codec_bool(values)
    }

    open spec fn spec_default() -> bool {
        false
    }

    fn parse(values: Vec<String>) -> (r: Result<Self, ParseError>) {
        if values.len() < 1 {
            return Err(ParseError::MissingValue);
        }
        assert(values.deep_view()[0] == values@[0]@);
        if str_eq(values[0].as_str(), "true") {
            Ok(true)
        } else if str_eq(values[0].as_str(), "false") {
            Ok(false)
        } else {
            Err(ParseError::InvalidValue)
        }
    }

    fn default_value() -> (r: Self) {
        false
    }
}

impl<T: ParseFromArgs> ParseFromArgs for Option<T> {
    open spec fn spec_parse(values: Seq<Seq<char>>) -> Result<Option<T::V>, ParseErrorModel> {
        if values.len() < 1 {
            Err(ParseErrorModel::MissingValue)
        } else {
            match T::spec_parse(values) {
                Ok(v) => Ok(Some(v)),
                Err(e) => Err(e),
            }
        }
    }

    open spec fn spec_default() -> Option<T::V> {
        None
    }

    fn parse(values: Vec<String>) -> (r: Result<Self, ParseError>) {
        if values.len() < 1 {
            return Err(ParseError::MissingValue);
        }
        match T::parse(values) {
            Ok(v) => Ok(Some(v)),
            Err(e) => Err(e),
        }
    }

    fn default_value() -> (r: Self) {
        None
    }
}

/// The values of `values` that the codec of `T` accepts when decoded one by
/// one, in order, failures discarded.
pub open spec fn spec_collect_ok<T: ParseFromArgs>(values: Seq<Seq<char>>) -> Seq<T::V>
    decreases values.len(),
{
    if values.len() == 0 {
        Seq::empty()
    } else {
        let rest = spec_collect_ok::<T>(values.drop_last());
        match T::spec_parse(seq![values.last()]) {
            Ok(v) => rest.push(v),
            Err(_) => rest,
        }
    }
}

impl<T: ParseFromArgs> ParseFromArgs for Vec<T> {
    open spec fn spec_parse(values: Seq<Seq<char>>) -> Result<Seq<T::V>, ParseErrorModel> {
        if values.len() < 1 {
            Err(ParseErrorModel::MissingValue)
        } else {
            Ok(spec_collect_ok::<T>(values))
        }
    }

    open spec fn spec_default() -> Seq<T::V> {
        Seq::empty()
    }

    fn parse(values: Vec<String>) -> (r: Result<Self, ParseError>) {
        if values.len() < 1 {
            return Err(ParseError::MissingValue);
        }
        let ghost dv = values.deep_view();
        let mut out: Vec<T> = Vec::new();
        assert(out.deep_view() =~= spec_collect_ok::<T>(dv.take(0)));
        let mut i: usize = 0;
        while i < values.len()
            invariant
                i <= values.len(),
                dv == values.deep_view(),
                dv.len() == values.len(),
                out.deep_view() == spec_collect_ok::<T>(dv.take(i as int)),
            decreases values.len() - i,
        {
            let single = vec![values[i].clone()];
            proof {
                assert(single.deep_view() =~= seq![dv[i as int]]);
                assert(dv.take(i + 1).drop_last() =~= dv.take(i as int));
                assert(dv.take(i + 1).last() == dv[i as int]);
            }
            let ghost old_out = out.deep_view();
            match T::parse(single) {
                Ok(v) => {
                    out.push(v);
                    assert(out.deep_view() =~= old_out.push(v.deep_view()));
                },
                Err(_) => {},
            }
            i = i + 1;
        }
        proof {
            assert(dv.take(i as int) =~= dv);
        }
        Ok(out)
    }

    fn default_value() -> (r: Self) {
        let r: Vec<T> = Vec::new();
        assert(r.deep_view() =~= Seq::<T::V>::empty());
        r
    }
}

} // verus!
