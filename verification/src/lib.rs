//! A data-binding and schema-introspection engine for flat, multi-valued
//! string key/value collections.
//!
//! Raw `(key, value)` pairs gathered from argument providers (command-line
//! flags, environment variables, fixed test data) are aggregated into a
//! [`RawArgs`](args::RawArgs) multimap and bound against a declarative
//! [`Schema`](schema::Schema), producing a dynamically typed
//! [`Value`](value::Value) tree or a [`ParseError`]. The same schema can be
//! introspected into a flat catalogue of argument descriptors.

use vstd::prelude::*;

use crate::args::RawArgs;
use crate::args::aggregate;
use crate::args::spec_aggregate;
use crate::bind::MAX_NESTING_DEPTH;
use crate::bind::spec_bind;
use crate::schema::Schema;
use crate::value::Value;
use crate::value::ValueModel;

pub mod args;
pub mod bind;
pub mod introspect;
pub mod provider;
pub mod schema;
pub mod strutil;
pub mod traits;
pub mod value;

verus! {

/// Spec-level model of a [`ParseError`]: the same shape, with every string
/// replaced by its sequence of characters.
pub enum ParseErrorModel {
    /// Model of [`ParseError::MissingParam`].
    MissingParam { name: Seq<char> },
    /// Model of [`ParseError::MissingValue`].
    MissingValue,
    /// Model of [`ParseError::InvalidValue`].
    InvalidValue,
    /// Model of [`ParseError::Custom`].
    Custom(Seq<char>),
}

/// The error returned when attempting to parse the arguments.
#[derive(Debug, PartialEq)]
pub enum ParseError {
    /// Some parameter was missing. Reserved for structural errors; the binder
    /// itself never constructs this variant.
    MissingParam {
        /// The name of the missing parameter.
        name: String,
    },
    /// There was no data to be used for parsing.
    MissingValue,
    /// The supplied value was malformed or in an incorrect format.
    InvalidValue,
    /// A custom error returned by user-supplied decoders.
    Custom(String),
}

impl DeepView for ParseError {
    type V = ParseErrorModel;

    open spec fn deep_view(&self) -> ParseErrorModel {
        match self {
            ParseError::MissingParam { name } => (ParseErrorModel::MissingParam {
                name: name@,
            }),
            ParseError::MissingValue => ParseErrorModel::MissingValue,
            ParseError::InvalidValue => ParseErrorModel::InvalidValue,
            ParseError::Custom(msg) => ParseErrorModel::Custom(msg@),
        }
    }
}

/// The interface implemented by argument providers, which source raw
/// key/value pairs from different places: command-line flags, environment
/// variables, fixed test data. A provider may read its source however it
/// sees fit, so no contract constrains its output.
pub trait ArgProvider {
    /// The list of key/value argument pairs this provider contributes, in
    /// the order it produced them.
    fn get_args(&self) -> Vec<(String, String)>;
}

/// Aggregates the given provider outputs and parses an instance of `T` from
/// the aggregated collection of arguments. Providers are consumed in caller
/// order: under one key, values of earlier outputs come before later ones.
pub fn parse_args_from_providers<T: traits::FromArgs>(provider_args: &Vec<Vec<(String, String)>>)
    -> (r: Result<T, ParseError>)
    ensures
        match r {
            Ok(v) => T::spec_parse(spec_aggregate(provider_args.deep_view())) == Ok::<
                T::V,
                ParseErrorModel,
            >(v.deep_view()),
            Err(e) => T::spec_parse(spec_aggregate(provider_args.deep_view())) == Err::<
                T::V,
                ParseErrorModel,
            >(e.deep_view()),
        },
{
    let all_args: RawArgs = aggregate(provider_args);
    T::parse(all_args)
}

/// Aggregates the given provider outputs and binds them against `schema`:
/// the schema-driven entry point.
pub fn parse_from_providers(schema: &Schema, provider_args: &Vec<Vec<(String, String)>>) -> (r:
    Result<Value, ParseError>)
    ensures
        match r {
            Ok(v) => spec_bind(
                schema.deep_view(),
                spec_aggregate(provider_args.deep_view()),
                MAX_NESTING_DEPTH as nat,
            ) == Ok::<ValueModel, ParseErrorModel>(v.deep_view()),
            Err(e) => spec_bind(
                schema.deep_view(),
                spec_aggregate(provider_args.deep_view()),
                MAX_NESTING_DEPTH as nat,
            ) == Err::<ValueModel, ParseErrorModel>(e.deep_view()),
        },
{
    let all_args = aggregate(provider_args);
    bind::bind(schema, &all_args)
}

} // verus!
