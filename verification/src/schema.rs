//! The declarative description of a target structure: an ordered list of
//! field descriptors, each tagged with a binding kind and carrying enough
//! information to recurse.

use vstd::prelude::*;

use crate::value::TypeTag;
use crate::value::Value;
use crate::value::ValueModel;
use crate::value::spec_value_model;

verus! {

/// How a primitive field resolves when its raw values are missing or fail to
/// decode.
#[derive(Debug)]
pub enum DefaultPolicy {
    /// The field is required: a decode failure fails the whole bind.
    Required,
    /// A decode failure falls back to the zero value of the field's type.
    Zero,
    /// A decode failure falls back to the given value.
    Fallback(Value),
}

/// Spec-level model of a [`DefaultPolicy`].
pub enum DefaultPolicyModel {
    /// Model of [`DefaultPolicy::Required`].
    Required,
    /// Model of [`DefaultPolicy::Zero`].
    Zero,
    /// Model of [`DefaultPolicy::Fallback`].
    Fallback(ValueModel),
}

/// The shape category of a field: how the field claims keys and resolves its
/// value.
#[derive(Debug)]
pub enum FieldKind {
    /// Claims exactly the key equal to the binding name; the raw values are
    /// decoded through the codec of the type tag.
    Primitive(TypeTag),
    /// Claims every key with prefix `binding name + "."`; the stripped
    /// suffixes are bound recursively against the nested schema.
    Nested(Schema),
    /// Claims every key with prefix `binding name + "."`; the first path
    /// segment of each suffix becomes a dynamic map key whose raw values are
    /// decoded through the codec of the type tag.
    MapPrimitive(TypeTag),
    /// Claims every key with prefix `binding name + "."`; the first path
    /// segment of each suffix becomes a dynamic map key, the rest a nested
    /// path bound per key against the nested schema.
    MapNested(Schema),
}

/// Spec-level model of a [`FieldKind`].
pub enum FieldKindModel {
    /// Model of [`FieldKind::Primitive`].
    Primitive(TypeTag),
    /// Model of [`FieldKind::Nested`].
    Nested(SchemaModel),
    /// Model of [`FieldKind::MapPrimitive`].
    MapPrimitive(TypeTag),
    /// Model of [`FieldKind::MapNested`].
    MapNested(SchemaModel),
}

/// One field of a schema.
#[derive(Debug)]
pub struct FieldSpec {
    /// The literal key segment searched for in the arguments. It defaults to
    /// the target field's own identifier but may be any name: it is
    /// independent of the target structure, which supports renaming.
    pub binding_name: String,
    /// The field's binding kind.
    pub kind: FieldKind,
    /// How the field resolves when decoding fails. Only primitive fields
    /// consult it; nested and map fields ignore it.
    pub default_policy: DefaultPolicy,
}

/// Spec-level model of a [`FieldSpec`].
pub struct FieldSpecModel {
    /// Model of the binding name.
    pub binding_name: Seq<char>,
    /// Model of the binding kind.
    pub kind: FieldKindModel,
    /// Model of the default policy.
    pub default_policy: DefaultPolicyModel,
}

/// The static description of a target structure: an ordered sequence of
/// field descriptors. Immutable and reusable across many binds.
#[derive(Debug)]
pub struct Schema {
    /// The fields, in declaration order of the target structure.
    pub fields: Vec<FieldSpec>,
}

/// Spec-level model of a [`Schema`].
pub struct SchemaModel {
    /// Models of the fields, in order.
    pub fields: Seq<FieldSpecModel>,
}

/// The model of a default policy.
pub open spec fn spec_policy_model(p: DefaultPolicy) -> DefaultPolicyModel
    decreases p,
{
    match p {
        DefaultPolicy::Required => DefaultPolicyModel::Required,
        DefaultPolicy::Zero => DefaultPolicyModel::Zero,
        DefaultPolicy::Fallback(v) => DefaultPolicyModel::Fallback(spec_value_model(v)),
    }
}

/// The model of a binding kind.
pub open spec fn spec_kind_model(k: FieldKind) -> FieldKindModel
    decreases k,
{
    match k {
        FieldKind::Primitive(tag) => FieldKindModel::Primitive(tag),
        FieldKind::Nested(sub) => FieldKindModel::Nested(spec_schema_model(sub)),
        FieldKind::MapPrimitive(tag) => FieldKindModel::MapPrimitive(tag),
        FieldKind::MapNested(sub) => FieldKindModel::MapNested(spec_schema_model(sub)),
    }
}

/// The model of one field.
pub open spec fn spec_field_model(f: FieldSpec) -> FieldSpecModel
    decreases f,
{
    FieldSpecModel {
        binding_name: f.binding_name@,
        kind: spec_kind_model(f.kind),
        default_policy: spec_policy_model(f.default_policy),
    }
}

/// The models of a sequence of fields, in order.
pub open spec fn spec_fields_model(fs: Seq<FieldSpec>) -> Seq<FieldSpecModel>
    decreases fs,
{
    if fs.len() == 0 {
        Seq::empty()
    } else {
        spec_fields_model(fs.drop_last()).push(spec_field_model(fs.last()))
    }
}

/// The model of a schema.
pub open spec fn spec_schema_model(s: Schema) -> SchemaModel
    decreases s,
{
    SchemaModel { fields: spec_fields_model(s.fields@) }
}

/// `spec_fields_model` is the pointwise model of its input.
pub proof fn lemma_fields_model_pointwise(fs: Seq<FieldSpec>)
    ensures
        spec_fields_model(fs).len() == fs.len(),
        forall|i: int| 0 <= i < fs.len() ==> spec_fields_model(fs)[i] == spec_field_model(
            #[trigger] fs[i],
        ),
    decreases fs,
{
    if fs.len() > 0 {
        lemma_fields_model_pointwise(fs.drop_last());
        assert forall|i: int| 0 <= i < fs.len() implies spec_fields_model(fs)[i]
            == spec_field_model(fs[i]) by {
            if i < fs.len() - 1 {
                assert(fs.drop_last()[i] == fs[i]);
            } else {
                assert(fs[i] == fs.last());
            }
        }
    }
}

impl DeepView for DefaultPolicy {
    type V = DefaultPolicyModel;

    open spec fn deep_view(&self) -> DefaultPolicyModel {
        spec_policy_model(*self)
    }
}

impl DeepView for FieldKind {
    type V = FieldKindModel;

    open spec fn deep_view(&self) -> FieldKindModel {
        spec_kind_model(*self)
    }
}

impl DeepView for FieldSpec {
    type V = FieldSpecModel;

    open spec fn deep_view(&self) -> FieldSpecModel {
        spec_field_model(*self)
    }
}

impl DeepView for Schema {
    type V = SchemaModel;

    open spec fn deep_view(&self) -> SchemaModel {
        spec_schema_model(*self)
    }
}

impl Schema {
    /// An empty schema.
    pub fn new() -> (r: Self)
        ensures
            r.deep_view().fields == Seq::<FieldSpecModel>::empty(),
    {
        let r = Schema { fields: Vec::new() };
        proof {
            lemma_fields_model_pointwise(r.fields@);
            assert(spec_fields_model(r.fields@) =~= Seq::<FieldSpecModel>::empty());
        }
        r
    }

    /// Appends a field to the schema.
    pub fn push_field(&mut self, field: FieldSpec)
        ensures
            final(self).deep_view().fields == old(self).deep_view().fields.push(
                field.deep_view(),
            ),
    {
        let ghost pre = self.fields@;
        self.fields.push(field);
        proof {
            assert(self.fields@.drop_last() =~= pre);
        }
    }
}

} // verus!
