//! The introspector: the schema traversal that derives the flat catalogue of
//! known-argument descriptors, using the same key-space rules as the binder,
//! without materializing any values.

use vstd::prelude::*;

use crate::schema::DefaultPolicyModel;
use crate::schema::FieldKind;
use crate::schema::FieldKindModel;
use crate::schema::FieldSpec;
use crate::schema::FieldSpecModel;
use crate::schema::Schema;
use crate::schema::SchemaModel;
use crate::schema::lemma_fields_model_pointwise;
use crate::schema::spec_fields_model;

verus! {

/// A descriptor of one known argument, generated fresh from a schema on
/// every listing and never cached.
#[derive(Debug, PartialEq)]
pub struct ArgumentDetail {
    /// The argument's name pattern. For map fields it contains the literal
    /// placeholder segment `{name}` standing for the dynamic key.
    pub name: String,
    /// Whether the argument must be provided for a bind to succeed.
    pub required: bool,
    /// A human-readable description of the argument.
    pub description: String,
}

/// Spec-level model of an [`ArgumentDetail`].
pub struct ArgumentDetailModel {
    /// Model of the name pattern.
    pub name: Seq<char>,
    /// Whether the argument is required.
    pub required: bool,
    /// Model of the description.
    pub description: Seq<char>,
}

impl DeepView for ArgumentDetail {
    type V = ArgumentDetailModel;

    open spec fn deep_view(&self) -> ArgumentDetailModel {
        ArgumentDetailModel { name: self.name@, required: self.required, description: self.description@ }
    }
}

/// `details` with every name prefixed by `prefix`, required flags passed
/// through unchanged.
pub open spec fn spec_prefix_details(
    details: Seq<ArgumentDetailModel>,
    prefix: Seq<char>,
) -> Seq<ArgumentDetailModel> {
    details.map_values(
        |d: ArgumentDetailModel|
            ArgumentDetailModel {
                name: prefix + d.name,
                required: d.required,
                description: d.description,
            },
    )
}

/// `details` with every name prefixed by `prefix` and every required flag
/// forced to `false`: an entry inside a dynamically keyed map can never be
/// individually mandatory.
pub open spec fn spec_optional_details(
    details: Seq<ArgumentDetailModel>,
    prefix: Seq<char>,
) -> Seq<ArgumentDetailModel> {
    details.map_values(
        |d: ArgumentDetailModel|
            ArgumentDetailModel { name: prefix + d.name, required: false, description: d.description },
    )
}

/// The descriptors one field contributes to the listing.
///
/// A primitive field contributes one descriptor under its binding name,
/// required exactly when its default policy is `Required`. A nested field
/// contributes the descriptors of its nested schema, names prefixed by the
/// binding name and the separator. A dynamic primitive map contributes one
/// descriptor with the `{name}` placeholder, never required. A dynamic
/// nested map contributes the descriptors of its nested schema behind the
/// placeholder, all forced optional.
pub open spec fn spec_field_details(field: FieldSpecModel) -> Seq<ArgumentDetailModel>
    decreases field,
{
    match field.kind {
        FieldKindModel::Primitive(_) => seq![
            ArgumentDetailModel {
                name: field.binding_name,
                required: field.default_policy is Required,
                description: Seq::empty(),
            },
        ],
        FieldKindModel::Nested(sub) => spec_prefix_details(
            spec_list_fields(sub.fields),
            field.binding_name + "."@,
        ),
        FieldKindModel::MapPrimitive(_) => seq![
            ArgumentDetailModel {
                name: field.binding_name + ".{name}"@,
                required: false,
                description: Seq::empty(),
            },
        ],
        FieldKindModel::MapNested(sub) => spec_optional_details(
            spec_list_fields(sub.fields),
            field.binding_name + ".{name}."@,
        ),
    }
}

/// The descriptors of a list of fields, in declaration order, depth first.
pub open spec fn spec_list_fields(fields: Seq<FieldSpecModel>) -> Seq<ArgumentDetailModel>
    decreases fields,
{
    if fields.len() == 0 {
        Seq::empty()
    } else {
        spec_list_fields(fields.drop_last()) + spec_field_details(fields.last())
    }
}

/// Model of [`list_arguments`].
pub open spec fn spec_list_arguments(schema: SchemaModel) -> Seq<ArgumentDetailModel> {
    spec_list_fields(schema.fields)
}

/// Builds the transformed copy of already-listed descriptors: every name
/// prefixed by `prefix`, and, when `force_optional` is set, every required
/// flag cleared.
#[verifier::loop_isolation(false)]
fn transform_details(details: Vec<ArgumentDetail>, prefix: &String, force_optional: bool) -> (r:
    Vec<ArgumentDetail>)
    ensures
        r.deep_view() == (if force_optional {
            spec_optional_details(details.deep_view(), prefix@)
        } else {
            spec_prefix_details(details.deep_view(), prefix@)
        }),
{
    let ghost ddv = details.deep_view();
    let ghost target = if force_optional {
        spec_optional_details(ddv, prefix@)
    } else {
        spec_prefix_details(ddv, prefix@)
    };
    let mut out: Vec<ArgumentDetail> = Vec::new();
    let mut i: usize = 0;
    while i < details.len()
        invariant
            i <= details.len(),
            out.deep_view() =~= target.take(i as int),
        decreases details.len() - i,
    {
        proof {
            assert(ddv[i as int] == details@[i as int].deep_view());
        }
        let name = prefix.clone().concat(details[i].name.as_str());
        let required = if force_optional {
            false
        } else {
            details[i].required
        };
        let description = details[i].description.clone();
        let d = ArgumentDetail { name, required, description };
        assert(d.deep_view() == target[i as int]);
        let ghost pre = out.deep_view();
        out.push(d);
        assert(out.deep_view() =~= pre.push(d.deep_view()));
        assert(out.deep_view() =~= target.take(i + 1));
        i = i + 1;
    }
    assert(target.take(details@.len() as int) =~= target);
    out
}

/// The descriptors contributed by one field; see [`spec_field_details`].
#[verifier::loop_isolation(false)]
fn field_details(field: &FieldSpec) -> (r: Vec<ArgumentDetail>)
    ensures
        r.deep_view() == spec_field_details(field.deep_view()),
    decreases *field,
{
    match &field.kind {
        FieldKind::Primitive(_) => {
            let required = match &field.default_policy {
                crate::schema::DefaultPolicy::Required => true,
                _ => false,
            };
            let d = ArgumentDetail {
                name: field.binding_name.clone(),
                required,
                description: String::new(),
            };
            let out = vec![d];
            assert(out.deep_view() =~= spec_field_details(field.deep_view()));
            out
        },
        FieldKind::Nested(sub) => {
            proof {
                assert(decreases_to!(*field => field.kind));
                assert(decreases_to!(field.kind => *sub));
                assert(decreases_to!(*sub => sub.fields));
                assert(decreases_to!(sub.fields => sub.fields@));
            }
            let inner = list_details(&sub.fields);
            let mut prefix = field.binding_name.clone();
            prefix.append(".");
            transform_details(inner, &prefix, false)
        },
        FieldKind::MapPrimitive(_) => {
            let mut name = field.binding_name.clone();
            name.append(".{name}");
            let d = ArgumentDetail { name, required: false, description: String::new() };
            let out = vec![d];
            assert(out.deep_view() =~= spec_field_details(field.deep_view()));
            out
        },
        FieldKind::MapNested(sub) => {
            proof {
                assert(decreases_to!(*field => field.kind));
                assert(decreases_to!(field.kind => *sub));
                assert(decreases_to!(*sub => sub.fields));
                assert(decreases_to!(sub.fields => sub.fields@));
            }
            let inner = list_details(&sub.fields);
            let mut prefix = field.binding_name.clone();
            prefix.append(".{name}.");
            transform_details(inner, &prefix, true)
        },
    }
}

/// The descriptors of every field of `fields`, in order, depth first; see
/// [`spec_list_fields`].
#[verifier::loop_isolation(false)]
fn list_details(fields: &Vec<FieldSpec>) -> (r: Vec<ArgumentDetail>)
    ensures
        r.deep_view() == spec_list_fields(spec_fields_model(fields@)),
    decreases fields@,
{
    let ghost fmodel = spec_fields_model(fields@);
    proof {
        lemma_fields_model_pointwise(fields@);
    }
    let mut out: Vec<ArgumentDetail> = Vec::new();
    assert(out.deep_view() =~= spec_list_fields(fmodel.take(0)));
    let mut i: usize = 0;
    while i < fields.len()
        invariant
            i <= fields.len(),
            out.deep_view() == spec_list_fields(fmodel.take(i as int)),
        decreases fields.len() - i,
    {
        proof {
            assert(decreases_to!(fields@ => fields@[i as int]));
            assert(fmodel.take(i + 1).drop_last() =~= fmodel.take(i as int));
            assert(fmodel.take(i + 1).last() == fmodel[i as int]);
        }
        let ds = field_details(&fields[i]);
        let ghost pre = out.deep_view();
        let mut j: usize = 0;
        let ghost dsm = ds.deep_view();
        while j < ds.len()
            invariant
                j <= ds.len(),
                dsm == ds.deep_view(),
                out.deep_view() == pre + dsm.take(j as int),
            decreases ds.len() - j,
        {
            let ghost mid = out.deep_view();
            let d = ArgumentDetail {
                name: ds[j].name.clone(),
                required: ds[j].required,
                description: ds[j].description.clone(),
            };
            assert(d.deep_view() == dsm[j as int]);
            out.push(d);
            assert(out.deep_view() =~= mid.push(dsm[j as int]));
            assert(pre + dsm.take(j + 1) =~= (pre + dsm.take(j as int)).push(dsm[j as int]));
            j = j + 1;
        }
        proof {
            assert(dsm.take(dsm.len() as int) =~= dsm);
        }
        i = i + 1;
    }
    proof {
        assert(fmodel.take(fmodel.len() as int) =~= fmodel);
    }
    out
}

/// Derives the flat catalogue of known-argument descriptors from `schema`
/// alone, using the same naming rules the binder uses to locate keys. The
/// output order matches schema field declaration order, depth first, and the
/// result is a pure function of the schema.
pub fn list_arguments(schema: &Schema) -> (r: Vec<ArgumentDetail>)
    ensures
        r.deep_view() == spec_list_arguments(schema.deep_view()),
{
    list_details(&schema.fields)
}

/// Two listings of the same schema are identical: listing arguments is a
/// pure function of the schema, with no hidden state.
pub proof fn lemma_list_arguments_idempotent(
    schema: SchemaModel,
    first: Seq<ArgumentDetailModel>,
    second: Seq<ArgumentDetailModel>,
)
    requires
        first == spec_list_arguments(schema),
        second == spec_list_arguments(schema),
    ensures
        first == second,
{
}

/// Every descriptor a dynamic map field contributes reports `required =
/// false`, whatever the element schema's own required fields say.
pub proof fn lemma_map_details_never_required(field: FieldSpecModel)
    requires
        field.kind is MapPrimitive || field.kind is MapNested,
    ensures
        forall|i: int|
            0 <= i < spec_field_details(field).len() ==> !(#[trigger] spec_field_details(
                field,
            )[i]).required,
{
}

} // verus!
