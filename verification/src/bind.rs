//! The binder: the recursive algorithm that resolves a flat namespace of
//! dotted keys against a schema and produces a populated value tree or a
//! structured error.

use vstd::prelude::*;

use crate::ParseError;
use crate::ParseErrorModel;
use crate::args::ArgsModel;
use crate::args::RawArgs;
use crate::args::find_key;
use crate::args::lemma_key_index_characterization;
use crate::args::spec_add_values;
use crate::args::spec_key_index;
use crate::args::spec_lookup;
use crate::schema::DefaultPolicy;
use crate::schema::DefaultPolicyModel;
use crate::schema::FieldKind;
use crate::schema::FieldKindModel;
use crate::schema::FieldSpec;
use crate::schema::FieldSpecModel;
use crate::schema::Schema;
use crate::schema::SchemaModel;
use crate::schema::lemma_fields_model_pointwise;
use crate::schema::spec_fields_model;
use crate::strutil::find_char;
use crate::strutil::spec_find_char;
use crate::strutil::spec_starts_with;
use crate::strutil::strip_prefix;
use crate::value::TypeTag;
use crate::value::Value;
use crate::value::ValueModel;
use crate::value::clone_string_vec;
use crate::value::clone_value;
use crate::value::decode;
use crate::value::spec_decode;
use crate::value::spec_entries_model;
use crate::value::spec_value_model;
use crate::value::spec_values_model;
use crate::value::spec_zero_value;
use crate::value::zero_value;

verus! {

/// The greatest number of nesting levels a bind will follow before it fails
/// deterministically. A schema deeper than this is treated as malformed.
pub const MAX_NESTING_DEPTH: usize = 64;

/// Model of the error reported when the nesting guard trips.
pub open spec fn spec_depth_error() -> ParseErrorModel {
    ParseErrorModel::Custom("schema nesting exceeds the supported depth"@)
}

fn depth_error() -> (r: ParseError)
    ensures
        r.deep_view() == spec_depth_error(),
{
    ParseError::Custom("schema nesting exceeds the supported depth".to_owned())
}

// --- key grouping -------------------------------------------------------------------

/// The entries of `m` whose key starts with `prefix`, in order, with the
/// prefix stripped from their keys. A key equal to the prefix without the
/// trailing separator is not claimed.
pub open spec fn spec_group_prefix(m: ArgsModel, prefix: Seq<char>) -> ArgsModel
    decreases m.len(),
{
    if m.len() == 0 {
        Seq::empty()
    } else {
        let init = spec_group_prefix(m.drop_last(), prefix);
        if spec_starts_with(m.last().0, prefix) {
            init.push((m.last().0.skip(prefix.len() as int), m.last().1))
        } else {
            init
        }
    }
}

/// The first path segment of `s`: everything before the first `'.'`, or all
/// of `s` when it has none.
pub open spec fn spec_first_segment(s: Seq<char>) -> Seq<char> {
    match spec_find_char(s, '.') {
        Some(i) => s.take(i),
        None => s,
    }
}

/// The entries of `m` whose key starts with `prefix`, their values merged
/// under the first path segment of the stripped suffix, segments in
/// first-seen order.
pub open spec fn spec_group_segments(m: ArgsModel, prefix: Seq<char>) -> ArgsModel
    decreases m.len(),
{
    if m.len() == 0 {
        Seq::empty()
    } else {
        let init = spec_group_segments(m.drop_last(), prefix);
        if spec_starts_with(m.last().0, prefix) {
            spec_add_values(
                init,
                spec_first_segment(m.last().0.skip(prefix.len() as int)),
                m.last().1,
            )
        } else {
            init
        }
    }
}

/// `gs` with the values `vals` recorded under the nested key `skey` of the
/// group `gkey`: merged into the group already holding `gkey`, or as a fresh
/// group at the end.
pub open spec fn spec_add_group(
    gs: Seq<(Seq<char>, ArgsModel)>,
    gkey: Seq<char>,
    skey: Seq<char>,
    vals: Seq<Seq<char>>,
) -> Seq<(Seq<char>, ArgsModel)> {
    let i = spec_key_index(gs, gkey);
    if i == -1 {
        gs.push((gkey, spec_add_values(Seq::empty(), skey, vals)))
    } else {
        gs.update(i, (gs[i].0, spec_add_values(gs[i].1, skey, vals)))
    }
}

/// The entries of `m` whose key starts with `prefix`, grouped two levels
/// deep: the first segment of the stripped suffix names the group, the rest
/// of the suffix is the key inside the group. A suffix with no further `'.'`
/// is malformed and silently skipped.
pub open spec fn spec_group_nested(m: ArgsModel, prefix: Seq<char>) -> Seq<(Seq<char>, ArgsModel)>
    decreases m.len(),
{
    if m.len() == 0 {
        Seq::empty()
    } else {
        let init = spec_group_nested(m.drop_last(), prefix);
        if spec_starts_with(m.last().0, prefix) {
            let suffix = m.last().0.skip(prefix.len() as int);
            match spec_find_char(suffix, '.') {
                Some(i) => spec_add_group(init, suffix.take(i), suffix.skip(i + 1), m.last().1),
                None => init,
            }
        } else {
            init
        }
    }
}

/// Collects the entries of `args` claimed by the prefix, keys stripped.
fn group_prefix(args: &RawArgs, prefix: &String) -> (r: RawArgs)
    ensures
        r.deep_view() == spec_group_prefix(args.deep_view(), prefix@),
{
    let ghost adv = args.deep_view();
    let mut r = RawArgs { entries: Vec::new() };
    assert(r.deep_view() =~= spec_group_prefix(adv.take(0), prefix@));
    let n = args.entries.len();
    let mut i: usize = 0;
    while i < n
        invariant
            n == args.entries.len(),
            i <= n,
            adv == args.deep_view(),
            adv.len() == n,
            r.deep_view() == spec_group_prefix(adv.take(i as int), prefix@),
        decreases n - i,
    {
        proof {
            assert(adv.take(i + 1).drop_last() =~= adv.take(i as int));
            assert(adv.take(i + 1).last() == adv[i as int]);
            assert(adv[i as int].0 == args.entries@[i as int].0@);
        }
        match strip_prefix(args.entries[i].0.as_str(), prefix.as_str()) {
            Some(suffix) => {
                let vals = clone_string_vec(&args.entries[i].1);
                let ghost pre = r.deep_view();
                r.entries.push((suffix, vals));
                assert(r.deep_view() =~~= pre.push((
                    adv[i as int].0.skip(prefix@.len() as int),
                    adv[i as int].1,
                )));
            },
            None => {},
        }
        i = i + 1;
    }
    proof {
        assert(adv.take(n as int) =~= adv);
    }
    r
}

/// Collects the entries of `args` claimed by the prefix, their values merged
/// under the first segment of each stripped suffix.
fn group_segments(args: &RawArgs, prefix: &String) -> (r: RawArgs)
    ensures
        r.deep_view() == spec_group_segments(args.deep_view(), prefix@),
{
    let ghost adv = args.deep_view();
    let mut r = RawArgs { entries: Vec::new() };
    assert(r.deep_view() =~= spec_group_segments(adv.take(0), prefix@));
    let n = args.entries.len();
    let mut i: usize = 0;
    while i < n
        invariant
            n == args.entries.len(),
            i <= n,
            adv == args.deep_view(),
            adv.len() == n,
            r.deep_view() == spec_group_segments(adv.take(i as int), prefix@),
        decreases n - i,
    {
        proof {
            assert(adv.take(i + 1).drop_last() =~= adv.take(i as int));
            assert(adv.take(i + 1).last() == adv[i as int]);
            assert(adv[i as int].0 == args.entries@[i as int].0@);
        }
        match strip_prefix(args.entries[i].0.as_str(), prefix.as_str()) {
            Some(suffix) => {
                let vals = clone_string_vec(&args.entries[i].1);
                let ghost sdv = suffix@;
                let seg = match find_char(suffix.as_str(), '.') {
                    Some(p) => {
                        proof {
                            crate::strutil::lemma_find_char_characterization(sdv, '.');
                        }
                        let s = suffix.as_str().substring_char(0, p);
                        assert(s@ =~= sdv.take(spec_find_char(sdv, '.')->Some_0));
                        s.to_owned()
                    },
                    None => suffix,
                };
                assert(seg@ == spec_first_segment(adv[i as int].0.skip(prefix@.len() as int)));
                r.add_values(seg, vals);
            },
            None => {},
        }
        i = i + 1;
    }
    proof {
        assert(adv.take(n as int) =~= adv);
    }
    r
}

/// Copies an argument collection; the copy has the same model.
fn clone_raw_args(a: &RawArgs) -> (r: RawArgs)
    ensures
        r.deep_view() == a.deep_view(),
{
    let mut entries: Vec<(String, Vec<String>)> = Vec::new();
    let mut i: usize = 0;
    while i < a.entries.len()
        invariant
            i <= a.entries.len(),
            entries.deep_view() == a.deep_view().take(i as int),
        decreases a.entries.len() - i,
    {
        let k = a.entries[i].0.clone();
        let vs = clone_string_vec(&a.entries[i].1);
        let ghost pre = entries.deep_view();
        entries.push((k, vs));
        assert(entries.deep_view() =~~= pre.push(a.deep_view()[i as int]));
        assert(a.deep_view().take(i + 1) =~= a.deep_view().take(i as int).push(
            a.deep_view()[i as int],
        ));
        i = i + 1;
    }
    assert(a.deep_view().take(a.entries@.len() as int) =~= a.deep_view());
    RawArgs { entries }
}

/// Records `vals` under the nested key `skey` of the group `gkey`.
fn add_group(groups: &mut Vec<(String, RawArgs)>, gkey: String, skey: String, vals: Vec<String>)
    ensures
        final(groups).deep_view() == spec_add_group(
            old(groups).deep_view(),
            gkey@,
            skey@,
            vals.deep_view(),
        ),
{
    proof {
        lemma_key_index_characterization(groups.deep_view(), gkey@);
    }
    let ghost old_dv = groups.deep_view();
    match find_key(groups, gkey.as_str()) {
        Some(i) => {
            proof {
                let ki = spec_key_index(old_dv, gkey@);
                assert(old_dv[i as int].0 == gkey@);
                assert(ki == i as int) by {
                    if ki == -1 {
                        assert(old_dv[i as int].0 != gkey@);
                    } else if ki < i as int {
                        assert(groups@[ki].0@ != gkey@);
                    } else if ki > i as int {
                        assert(old_dv[i as int].0 != gkey@);
                    }
                }
            }
            let k2 = groups[i].0.clone();
            let mut sub = clone_raw_args(&groups[i].1);
            sub.add_values(skey, vals);
            groups.set(i, (k2, sub));
            assert(groups.deep_view() =~~= spec_add_group(old_dv, gkey@, skey@, vals.deep_view()))
                by {
                assert(groups@[i as int].deep_view() == (
                    old_dv[i as int].0,
                    spec_add_values(old_dv[i as int].1, skey@, vals.deep_view()),
                ));
            }
        },
        None => {
            proof {
                let ki = spec_key_index(old_dv, gkey@);
                if ki != -1 {
                    assert(groups@[ki].0@ == gkey@);
                    assert(false);
                }
            }
            let mut sub = RawArgs::new();
            sub.add_values(skey, vals);
            assert(sub.deep_view() == spec_add_values(Seq::empty(), skey@, vals.deep_view()));
            groups.push((gkey, sub));
            assert(groups.deep_view() =~~= spec_add_group(old_dv, gkey@, skey@, vals.deep_view()));
        },
    }
}

/// Collects the entries of `args` claimed by the prefix into two-level
/// groups: map key, then per-group arguments.
fn group_nested(args: &RawArgs, prefix: &String) -> (r: Vec<(String, RawArgs)>)
    ensures
        r.deep_view() == spec_group_nested(args.deep_view(), prefix@),
{
    let ghost adv = args.deep_view();
    let mut r: Vec<(String, RawArgs)> = Vec::new();
    assert(r.deep_view() =~= spec_group_nested(adv.take(0), prefix@));
    let n = args.entries.len();
    let mut i: usize = 0;
    while i < n
        invariant
            n == args.entries.len(),
            i <= n,
            adv == args.deep_view(),
            adv.len() == n,
            r.deep_view() == spec_group_nested(adv.take(i as int), prefix@),
        decreases n - i,
    {
        proof {
            assert(adv.take(i + 1).drop_last() =~= adv.take(i as int));
            assert(adv.take(i + 1).last() == adv[i as int]);
            assert(adv[i as int].0 == args.entries@[i as int].0@);
        }
        match strip_prefix(args.entries[i].0.as_str(), prefix.as_str()) {
            Some(suffix) => {
                let ghost sdv = suffix@;
                match find_char(suffix.as_str(), '.') {
                    Some(p) => {
                        proof {
                            crate::strutil::lemma_find_char_characterization(sdv, '.');
                        }
                        let slen = suffix.as_str().unicode_len();
                        let gkey = suffix.as_str().substring_char(0, p).to_owned();
                        let skey = suffix.as_str().substring_char(p + 1, slen).to_owned();
                        proof {
                            let fi = spec_find_char(sdv, '.')->Some_0;
                            assert(gkey@ =~= sdv.take(fi));
                            assert(skey@ =~= sdv.skip(fi + 1));
                        }
                        let vals = clone_string_vec(&args.entries[i].1);
                        add_group(&mut r, gkey, skey, vals);
                    },
                    None => {},
                }
            },
            None => {},
        }
        i = i + 1;
    }
    proof {
        assert(adv.take(n as int) =~= adv);
    }
    r
}

// --- the recursive bind ---------------------------------------------------------------

/// Model of resolving one field against the arguments.
///
/// A primitive field decodes the raw values found under its binding name (an
/// absent key decodes an empty list); a decode failure is answered by the
/// field's default policy. A nested field binds the stripped suffixes of its
/// claimed keys against the nested schema and propagates that bind's error.
/// Map fields group their claimed keys by the dynamic first segment and drop
/// entries that fail, so they never fail themselves. One unit of fuel is
/// spent on each nesting level; an exhausted nested field reports the depth
/// error.
pub open spec fn spec_resolve_field(
    field: FieldSpecModel,
    args: ArgsModel,
    fuel: nat,
) -> Result<ValueModel, ParseErrorModel>
    decreases fuel, 0nat, 0nat,
{
    match field.kind {
        FieldKindModel::Primitive(tag) => {
            let values = match spec_lookup(args, field.binding_name) {
                Some(vs) => vs,
                None => Seq::empty(),
            };
            match spec_decode(tag, values) {
                Ok(v) => Ok(v),
                Err(e) => match field.default_policy {
                    DefaultPolicyModel::Required => Err(e),
                    DefaultPolicyModel::Zero => Ok(spec_zero_value(tag)),
                    DefaultPolicyModel::Fallback(v) => Ok(v),
                },
            }
        },
        FieldKindModel::Nested(sub) => {
            if fuel == 0 {
                Err(spec_depth_error())
            } else {
                let sub_args = spec_group_prefix(args, field.binding_name + "."@);
                match spec_bind_fields(sub.fields, sub_args, (fuel - 1) as nat) {
                    Ok(vs) => Ok(ValueModel::Record(vs)),
                    Err(e) => Err(e),
                }
            }
        },
        FieldKindModel::MapPrimitive(tag) => {
            let groups = spec_group_segments(args, field.binding_name + "."@);
            Ok(ValueModel::Dict(spec_decode_groups(tag, groups)))
        },
        FieldKindModel::MapNested(sub) => {
            if fuel == 0 {
                Ok(ValueModel::Dict(Seq::empty()))
            } else {
                let groups = spec_group_nested(args, field.binding_name + "."@);
                Ok(ValueModel::Dict(spec_bind_groups(sub, groups, (fuel - 1) as nat)))
            }
        },
    }
}

/// Model of binding a list of fields, in order: the first field that fails
/// fails the whole bind with its error.
pub open spec fn spec_bind_fields(
    fields: Seq<FieldSpecModel>,
    args: ArgsModel,
    fuel: nat,
) -> Result<Seq<ValueModel>, ParseErrorModel>
    decreases fuel, 1nat, fields.len(),
{
    if fields.len() == 0 {
        Ok(Seq::empty())
    } else {
        match spec_resolve_field(fields.first(), args, fuel) {
            Ok(v) => match spec_bind_fields(fields.drop_first(), args, fuel) {
                Ok(rest) => Ok(seq![v] + rest),
                Err(e) => Err(e),
            },
            Err(e) => Err(e),
        }
    }
}

/// Model of a dynamic map with primitive elements: each group's merged
/// values decoded independently, groups that fail dropped.
pub open spec fn spec_decode_groups(tag: TypeTag, groups: ArgsModel) -> Seq<
    (Seq<char>, ValueModel),
>
    decreases groups.len(),
{
    if groups.len() == 0 {
        Seq::empty()
    } else {
        let init = spec_decode_groups(tag, groups.drop_last());
        match spec_decode(tag, groups.last().1) {
            Ok(v) => init.push((groups.last().0, v)),
            Err(_) => init,
        }
    }
}

/// Model of a dynamic map with nested elements: each group bound against the
/// nested schema, groups that fail dropped.
pub open spec fn spec_bind_groups(
    sub: SchemaModel,
    groups: Seq<(Seq<char>, ArgsModel)>,
    fuel: nat,
) -> Seq<(Seq<char>, ValueModel)>
    decreases fuel, 2nat, groups.len(),
{
    if groups.len() == 0 {
        Seq::empty()
    } else {
        let init = spec_bind_groups(sub, groups.drop_last(), fuel);
        match spec_bind_fields(sub.fields, groups.last().1, fuel) {
            Ok(vs) => init.push((groups.last().0, ValueModel::Record(vs))),
            Err(_) => init,
        }
    }
}

/// Model of the whole bind: every field of the schema resolved in order,
/// assembled into a record.
pub open spec fn spec_bind(schema: SchemaModel, args: ArgsModel, fuel: nat) -> Result<
    ValueModel,
    ParseErrorModel,
> {
    match spec_bind_fields(schema.fields, args, fuel) {
        Ok(vs) => Ok(ValueModel::Record(vs)),
        Err(e) => Err(e),
    }
}

/// The field's binding name followed by the path separator.
fn dot_prefix(name: &String) -> (r: String)
    ensures
        r@ == name@ + "."@,
{
    let mut p = name.clone();
    p.append(".");
    p
}

/// How the rest of a field-list bind composes with the values already bound.
spec fn spec_with_bound_prefix(
    done: Seq<ValueModel>,
    rest: Result<Seq<ValueModel>, ParseErrorModel>,
) -> Result<Seq<ValueModel>, ParseErrorModel> {
    match rest {
        Ok(vs) => Ok(done + vs),
        Err(e) => Err(e),
    }
}

/// Resolves one field against the arguments; see [`spec_resolve_field`].
#[verifier::loop_isolation(false)]
fn resolve_field(field: &FieldSpec, args: &RawArgs, depth: usize) -> (r: Result<Value, ParseError>)
    ensures
        match r {
            Ok(v) => spec_resolve_field(field.deep_view(), args.deep_view(), depth as nat)
                == Ok::<ValueModel, ParseErrorModel>(v.deep_view()),
            Err(e) => spec_resolve_field(field.deep_view(), args.deep_view(), depth as nat)
                == Err::<ValueModel, ParseErrorModel>(e.deep_view()),
        },
    decreases depth, 0nat, 0nat,
{
    match &field.kind {
        FieldKind::Primitive(tag) => {
            let values = match args.get(field.binding_name.as_str()) {
                Some(vs) => clone_string_vec(vs),
                None => {
                    let empty: Vec<String> = Vec::new();
                    assert(empty.deep_view() =~= Seq::<Seq<char>>::empty());
                    empty
                },
            };
            match decode(tag, &values) {
                Ok(v) => Ok(v),
                Err(e) => match &field.default_policy {
                    DefaultPolicy::Required => Err(e),
                    DefaultPolicy::Zero => Ok(zero_value(tag)),
                    DefaultPolicy::Fallback(v) => Ok(clone_value(v)),
                },
            }
        },
        FieldKind::Nested(sub) => {
            if depth == 0 {
                return Err(depth_error());
            }
            let prefix = dot_prefix(&field.binding_name);
            let sub_args = group_prefix(args, &prefix);
            match bind_fields(&sub.fields, &sub_args, depth - 1) {
                Ok(vs) => Ok(Value::Record(vs)),
                Err(e) => Err(e),
            }
        },
        FieldKind::MapPrimitive(tag) => {
            let prefix = dot_prefix(&field.binding_name);
            let groups = group_segments(args, &prefix);
            Ok(Value::Dict(decode_groups(tag, &groups)))
        },
        FieldKind::MapNested(sub) => {
            if depth == 0 {
                let empty: Vec<(String, Value)> = Vec::new();
                assert(spec_entries_model(empty@) =~= Seq::<(Seq<char>, ValueModel)>::empty());
                return Ok(Value::Dict(empty));
            }
            let prefix = dot_prefix(&field.binding_name);
            let groups = group_nested(args, &prefix);
            Ok(Value::Dict(bind_groups(sub, &groups, depth - 1)))
        },
    }
}

/// Binds every field of `fields` against the arguments, in order, failing
/// fast on the first field that fails; see [`spec_bind_fields`].
#[verifier::loop_isolation(false)]
fn bind_fields(fields: &Vec<FieldSpec>, args: &RawArgs, depth: usize) -> (r: Result<
    Vec<Value>,
    ParseError,
>)
    ensures
        match r {
            Ok(vs) => spec_bind_fields(spec_fields_model(fields@), args.deep_view(), depth as nat)
                == Ok::<Seq<ValueModel>, ParseErrorModel>(spec_values_model(vs@)),
            Err(e) => spec_bind_fields(spec_fields_model(fields@), args.deep_view(), depth as nat)
                == Err::<Seq<ValueModel>, ParseErrorModel>(e.deep_view()),
        },
    decreases depth, 1nat, 0nat,
{
    let ghost fmodel = spec_fields_model(fields@);
    let ghost adv = args.deep_view();
    let ghost fuel = depth as nat;
    proof {
        lemma_fields_model_pointwise(fields@);
    }
    let mut out: Vec<Value> = Vec::new();
    assert(spec_values_model(out@) =~= Seq::<ValueModel>::empty());
    assert(fmodel.skip(0) =~= fmodel);
    let mut i: usize = 0;
    while i < fields.len()
        invariant
            i <= fields.len(),
            spec_bind_fields(fmodel, adv, fuel) == spec_with_bound_prefix(
                spec_values_model(out@),
                spec_bind_fields(fmodel.skip(i as int), adv, fuel),
            ),
        decreases fields.len() - i,
    {
        proof {
            assert(fmodel.skip(i as int).first() == fmodel[i as int]);
            assert(fmodel.skip(i as int).drop_first() =~= fmodel.skip(i + 1));
        }
        match resolve_field(&fields[i], args, depth) {
            Ok(v) => {
                let ghost pre = out@;
                out.push(v);
                proof {
                    assert(out@.drop_last() =~= pre);
                    assert(spec_values_model(out@) == spec_values_model(pre).push(v.deep_view()));
                    match spec_bind_fields(fmodel.skip(i + 1), adv, fuel) {
                        Ok(rest) => {
                            assert(spec_values_model(pre) + (seq![v.deep_view()] + rest)
                                =~= spec_values_model(out@) + rest);
                        },
                        Err(_) => {},
                    }
                }
            },
            Err(e) => {
                return Err(e);
            },
        }
        i = i + 1;
    }
    proof {
        assert(fmodel.skip(i as int) =~= Seq::<FieldSpecModel>::empty());
    }
    Ok(out)
}

/// Decodes every group of a dynamic primitive map, dropping groups whose
/// values fail to decode; see [`spec_decode_groups`].
#[verifier::loop_isolation(false)]
fn decode_groups(tag: &TypeTag, groups: &RawArgs) -> (r: Vec<(String, Value)>)
    ensures
        spec_entries_model(r@) == spec_decode_groups(*tag, groups.deep_view()),
{
    let ghost gdv = groups.deep_view();
    let mut out: Vec<(String, Value)> = Vec::new();
    assert(spec_entries_model(out@) =~= spec_decode_groups(*tag, gdv.take(0)));
    let n = groups.entries.len();
    let mut i: usize = 0;
    while i < n
        invariant
            i <= n,
            spec_entries_model(out@) == spec_decode_groups(*tag, gdv.take(i as int)),
        decreases n - i,
    {
        proof {
            assert(gdv.take(i + 1).drop_last() =~= gdv.take(i as int));
            assert(gdv.take(i + 1).last() == gdv[i as int]);
            assert(gdv[i as int].1 == groups.entries@[i as int].1.deep_view());
        }
        match decode(tag, &groups.entries[i].1) {
            Ok(v) => {
                let key = groups.entries[i].0.clone();
                let ghost pre = out@;
                out.push((key, v));
                proof {
                    assert(out@.drop_last() =~= pre);
                }
            },
            Err(_) => {},
        }
        i = i + 1;
    }
    proof {
        assert(gdv.take(n as int) =~= gdv);
    }
    out
}

/// Binds every group of a dynamic nested map against the nested schema,
/// dropping groups whose bind fails; see [`spec_bind_groups`].
#[verifier::loop_isolation(false)]
fn bind_groups(sub: &Schema, groups: &Vec<(String, RawArgs)>, depth: usize) -> (r: Vec<
    (String, Value),
>)
    ensures
        spec_entries_model(r@) == spec_bind_groups(
            sub.deep_view(),
            groups.deep_view(),
            depth as nat,
        ),
    decreases depth, 2nat, 0nat,
{
    let ghost gdv = groups.deep_view();
    let ghost smodel = sub.deep_view();
    let mut out: Vec<(String, Value)> = Vec::new();
    assert(spec_entries_model(out@) =~= spec_bind_groups(smodel, gdv.take(0), depth as nat));
    let n = groups.len();
    let mut i: usize = 0;
    while i < n
        invariant
            i <= n,
            n == groups.len(),
            spec_entries_model(out@) == spec_bind_groups(smodel, gdv.take(i as int), depth as nat),
        decreases n - i,
    {
        proof {
            assert(gdv.take(i + 1).drop_last() =~= gdv.take(i as int));
            assert(gdv.take(i + 1).last() == gdv[i as int]);
            assert(gdv[i as int].0 == groups@[i as int].0@);
            assert(gdv[i as int].1 == groups@[i as int].1.deep_view());
        }
        let ghost init = spec_bind_groups(smodel, gdv.take(i as int), depth as nat);
        match bind_fields(&sub.fields, &groups[i].1, depth) {
            Ok(vs) => {
                let key = groups[i].0.clone();
                let ghost keym = key@;
                let ghost vsm = spec_values_model(vs@);
                let ghost pre = out@;
                out.push((key, Value::Record(vs)));
                proof {
                    assert(out@.drop_last() =~= pre);
                    assert(out@.last().0@ == keym);
                    assert(spec_value_model(out@.last().1) == ValueModel::Record(vsm));
                    assert(spec_entries_model(out@) == init.push((keym, ValueModel::Record(vsm))));
                    assert(spec_bind_fields(smodel.fields, gdv.take(i + 1).last().1, depth as nat)
                        == Ok::<Seq<ValueModel>, ParseErrorModel>(vsm));
                    assert(spec_bind_groups(smodel, gdv.take(i + 1), depth as nat) == init.push((
                        gdv[i as int].0,
                        ValueModel::Record(vsm),
                    )));
                }
            },
            Err(_) => {},
        }
        i = i + 1;
    }
    proof {
        assert(gdv.take(n as int) =~= gdv);
    }
    out
}

/// Binds `args` against `schema`, producing a record with one value per
/// schema field, in schema order, or the first error a required field or a
/// nested bind reports. Nesting is followed at most [`MAX_NESTING_DEPTH`]
/// levels deep.
pub fn bind(schema: &Schema, args: &RawArgs) -> (r: Result<Value, ParseError>)
    ensures
        match r {
            Ok(v) => spec_bind(schema.deep_view(), args.deep_view(), MAX_NESTING_DEPTH as nat)
                == Ok::<ValueModel, ParseErrorModel>(v.deep_view()),
            Err(e) => spec_bind(schema.deep_view(), args.deep_view(), MAX_NESTING_DEPTH as nat)
                == Err::<ValueModel, ParseErrorModel>(e.deep_view()),
        },
{
    match bind_fields(&schema.fields, args, MAX_NESTING_DEPTH) {
        Ok(vs) => Ok(Value::Record(vs)),
        Err(e) => Err(e),
    }
}

} // verus!
