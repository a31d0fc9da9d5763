//! The aggregated argument multimap: a mapping from keys to ordered
//! sequences of raw string values, built once from the outputs of the
//! argument providers and consumed by a bind.

use vstd::prelude::*;

use crate::strutil::str_eq;
use crate::value::clone_string_vec;

verus! {

/// Spec-level model of a [`RawArgs`]: the entries in the order their keys
/// were first seen, each key with its raw values in arrival order.
pub type ArgsModel = Seq<(Seq<char>, Seq<Seq<char>>)>;

/// The aggregated flat multimap consumed by a bind: keys in first-seen
/// order, each with every raw value provided for it, in provider order.
#[derive(Debug)]
pub struct RawArgs {
    /// The key/values entries, in the order the keys were first seen.
    pub entries: Vec<(String, Vec<String>)>,
}

impl DeepView for RawArgs {
    type V = ArgsModel;

    open spec fn deep_view(&self) -> ArgsModel {
        self.entries.deep_view()
    }
}

// --- lookup -----------------------------------------------------------------------

/// Index of the first entry of `m` whose key is `k`, or `-1` when there is
/// none.
pub open spec fn spec_key_index<T>(m: Seq<(Seq<char>, T)>, k: Seq<char>) -> int
    decreases m.len(),
{
    if m.len() == 0 {
        -1
    } else if m[0].0 == k {
        0
    } else {
        let r = spec_key_index(m.drop_first(), k);
        if r == -1 {
            -1
        } else {
            r + 1
        }
    }
}

/// The raw values stored under the key `k`, if any.
pub open spec fn spec_lookup(m: ArgsModel, k: Seq<char>) -> Option<Seq<Seq<char>>> {
    let i = spec_key_index(m, k);
    if i == -1 {
        None
    } else {
        Some(m[i].1)
    }
}

/// `spec_key_index` returns exactly the first entry holding the key.
pub proof fn lemma_key_index_characterization<T>(m: Seq<(Seq<char>, T)>, k: Seq<char>)
    ensures
        ({
            let i = spec_key_index(m, k);
            if i == -1 {
                forall|j: int| 0 <= j < m.len() ==> (#[trigger] m[j]).0 != k
            } else {
                0 <= i < m.len() && m[i].0 == k && (forall|j: int|
                    0 <= j < i ==> (#[trigger] m[j]).0 != k)
            }
        }),
    decreases m.len(),
{
    if m.len() > 0 && m[0].0 != k {
        let rest = m.drop_first();
        lemma_key_index_characterization(rest, k);
        assert(forall|j: int| 0 < j < m.len() ==> #[trigger] m[j] == rest[j - 1]);
        let r = spec_key_index(rest, k);
        if r == -1 {
            assert forall|j: int| 0 <= j < m.len() implies (#[trigger] m[j]).0 != k by {
                if j > 0 {
                    assert(m[j] == rest[j - 1]);
                }
            }
        } else {
            assert forall|j: int| 0 <= j < r + 1 implies (#[trigger] m[j]).0 != k by {
                if j > 0 {
                    assert(m[j] == rest[j - 1]);
                }
            }
        }
    }
}

/// Finds the first entry of `entries` whose key equals `key`.
pub(crate) fn find_key<T>(entries: &Vec<(String, T)>, key: &str) -> (r: Option<usize>)
    ensures
        match r {
            Some(i) => i < entries.len() && entries@[i as int].0@ == key@ && (forall|j: int|
                0 <= j < i ==> (#[trigger] entries@[j]).0@ != key@),
            None => forall|j: int| 0 <= j < entries.len() ==> (#[trigger] entries@[j]).0@ != key@,
        },
{
    let n = entries.len();
    let mut i: usize = 0;
    while i < n
        invariant
            n == entries.len(),
            i <= n,
            forall|j: int| 0 <= j < i ==> (#[trigger] entries@[j]).0@ != key@,
        decreases n - i,
    {
        if str_eq(entries[i].0.as_str(), key) {
            return Some(i);
        }
        i = i + 1;
    }
    None
}

// --- updates ---------------------------------------------------------------------

/// `m` with the single raw value `v` appended under the key `k`: appended to
/// the entry already holding `k`, or as a fresh entry at the end.
pub open spec fn spec_add_value(m: ArgsModel, k: Seq<char>, v: Seq<char>) -> ArgsModel {
    let i = spec_key_index(m, k);
    if i == -1 {
        m.push((k, seq![v]))
    } else {
        m.update(i, (m[i].0, m[i].1.push(v)))
    }
}

/// `m` with all of `vs` appended under the key `k`.
pub open spec fn spec_add_values(m: ArgsModel, k: Seq<char>, vs: Seq<Seq<char>>) -> ArgsModel {
    let i = spec_key_index(m, k);
    if i == -1 {
        m.push((k, vs))
    } else {
        m.update(i, (m[i].0, m[i].1 + vs))
    }
}

impl RawArgs {
    /// An empty argument collection.
    pub fn new() -> (r: Self)
        ensures
            r.deep_view() == Seq::<(Seq<char>, Seq<Seq<char>>)>::empty(),
    {
        let r = RawArgs { entries: Vec::new() };
        assert(r.deep_view() =~= Seq::<(Seq<char>, Seq<Seq<char>>)>::empty());
        r
    }

    /// The raw values recorded under `key`, if any.
    pub fn get(&self, key: &str) -> (r: Option<&Vec<String>>)
        ensures
            match r {
                Some(vs) => spec_lookup(self.deep_view(), key@) == Some(vs.deep_view()),
                None => spec_lookup(self.deep_view(), key@) is None,
            },
    {
        proof {
            lemma_key_index_characterization(self.deep_view(), key@);
        }
        match find_key(&self.entries, key) {
            Some(i) => {
                proof {
                    let dv = self.deep_view();
                    let ki = spec_key_index(dv, key@);
                    assert(dv[i as int].0 == key@);
                    assert(ki != -1);
                    assert(ki == i as int) by {
                        if ki < i as int {
                            assert(self.entries@[ki].0@ != key@);
                        }
                        if ki > i as int {
                            assert(dv[i as int].0 != key@);
                        }
                    }
                }
                Some(&self.entries[i].1)
            },
            None => {
                proof {
                    let dv = self.deep_view();
                    let ki = spec_key_index(dv, key@);
                    if ki != -1 {
                        assert(self.entries@[ki].0@ == key@);
                        assert(false);
                    }
                }
                None
            },
        }
    }

    /// Appends one raw value under `key`: to the entry already holding the
    /// key, or as a fresh entry at the end.
    pub fn add_value(&mut self, key: String, value: String)
        ensures
            final(self).deep_view() == spec_add_value(old(self).deep_view(), key@, value@),
    {
        proof {
            lemma_key_index_characterization(self.deep_view(), key@);
        }
        let ghost old_dv = self.deep_view();
        match find_key(&self.entries, key.as_str()) {
            Some(i) => {
                proof {
                    let ki = spec_key_index(old_dv, key@);
                    assert(old_dv[i as int].0 == key@);
                    assert(ki == i as int) by {
                        if ki == -1 {
                            assert(old_dv[i as int].0 != key@);
                        } else if ki < i as int {
                            assert(self.entries@[ki].0@ != key@);
                        } else if ki > i as int {
                            assert(old_dv[i as int].0 != key@);
                        }
                    }
                }
                let k2 = self.entries[i].0.clone();
                let mut vs = clone_string_vec(&self.entries[i].1);
                vs.push(value);
                assert(vs.deep_view() =~~= old_dv[i as int].1.push(value@));
                self.entries.set(i, (k2, vs));
                assert(self.deep_view() =~~= spec_add_value(old_dv, key@, value@)) by {
                    assert(self.entries@[i as int].deep_view() == (
                        old_dv[i as int].0,
                        old_dv[i as int].1.push(value@),
                    ));
                }
            },
            None => {
                proof {
                    let ki = spec_key_index(old_dv, key@);
                    if ki != -1 {
                        assert(self.entries@[ki].0@ == key@);
                        assert(false);
                    }
                }
                let single = vec![value];
                self.entries.push((key, single));
                assert(self.deep_view() =~~= spec_add_value(old_dv, key@, value@));
            },
        }
    }

    /// Appends a whole list of raw values under `key`.
    pub fn add_values(&mut self, key: String, values: Vec<String>)
        ensures
            final(self).deep_view() == spec_add_values(old(self).deep_view(), key@, values.deep_view()),
    {
        proof {
            lemma_key_index_characterization(self.deep_view(), key@);
        }
        let ghost old_dv = self.deep_view();
        match find_key(&self.entries, key.as_str()) {
            Some(i) => {
                proof {
                    let ki = spec_key_index(old_dv, key@);
                    assert(old_dv[i as int].0 == key@);
                    assert(ki == i as int) by {
                        if ki == -1 {
                            assert(old_dv[i as int].0 != key@);
                        } else if ki < i as int {
                            assert(self.entries@[ki].0@ != key@);
                        } else if ki > i as int {
                            assert(old_dv[i as int].0 != key@);
                        }
                    }
                }
                let k2 = self.entries[i].0.clone();
                let mut vs = clone_string_vec(&self.entries[i].1);
                let mut j: usize = 0;
                let ghost base = old_dv[i as int].1;
                let ghost vdv = values.deep_view();
                while j < values.len()
                    invariant
                        j <= values.len(),
                        vdv == values.deep_view(),
                        vdv.len() == values.len(),
                        vs.deep_view() == base + vdv.take(j as int),
                    decreases values.len() - j,
                {
                    assert(vdv[j as int] == values@[j as int]@);
                    let ghost pre_dv = vs.deep_view();
                    vs.push(values[j].clone());
                    assert(vs.deep_view() =~~= pre_dv.push(vdv[j as int]));
                    assert(base + vdv.take(j + 1) =~= (base + vdv.take(j as int)).push(
                        vdv[j as int],
                    ));
                    j = j + 1;
                }
                assert(vs.deep_view() =~~= base + vdv) by {
                    assert(vdv.take(vdv.len() as int) =~= vdv);
                }
                self.entries.set(i, (k2, vs));
                assert(self.deep_view() =~~= spec_add_values(old_dv, key@, vdv)) by {
                    assert(self.entries@[i as int].deep_view() == (
                        old_dv[i as int].0,
                        old_dv[i as int].1 + vdv,
                    ));
                }
            },
            None => {
                proof {
                    let ki = spec_key_index(old_dv, key@);
                    if ki != -1 {
                        assert(self.entries@[ki].0@ == key@);
                        assert(false);
                    }
                }
                let ghost vdv = values.deep_view();
                self.entries.push((key, values));
                assert(self.deep_view() =~~= spec_add_values(old_dv, key@, vdv));
            },
        }
    }
}

// --- aggregation ------------------------------------------------------------------

/// `m` extended with every `(key, value)` pair of `pairs`, in order.
pub open spec fn spec_aggregate_pairs(m: ArgsModel, pairs: Seq<(Seq<char>, Seq<char>)>) -> ArgsModel
    decreases pairs.len(),
{
    if pairs.len() == 0 {
        m
    } else {
        spec_add_value(spec_aggregate_pairs(m, pairs.drop_last()), pairs.last().0, pairs.last().1)
    }
}

/// The multimap obtained by appending the pairs of every provider output in
/// `outputs`, providers in caller order, pairs in provider order. Values of
/// a key repeated across providers or occurrences are appended, never
/// replaced.
pub open spec fn spec_aggregate(outputs: Seq<Seq<(Seq<char>, Seq<char>)>>) -> ArgsModel
    decreases outputs.len(),
{
    if outputs.len() == 0 {
        Seq::empty()
    } else {
        spec_aggregate_pairs(spec_aggregate(outputs.drop_last()), outputs.last())
    }
}

/// Merges the ordered provider outputs into one multimap: later values of a
/// key are appended after earlier ones, never replacing them.
pub fn aggregate(outputs: &Vec<Vec<(String, String)>>) -> (r: RawArgs)
    ensures
        r.deep_view() == spec_aggregate(outputs.deep_view()),
{
    let ghost odv = outputs.deep_view();
    let mut r = RawArgs::new();
    let mut p: usize = 0;
    assert(r.deep_view() == spec_aggregate(odv.take(0)));
    while p < outputs.len()
        invariant
            p <= outputs.len(),
            odv == outputs.deep_view(),
            odv.len() == outputs.len(),
            r.deep_view() == spec_aggregate(odv.take(p as int)),
        decreases outputs.len() - p,
    {
        let pairs = &outputs[p];
        let ghost pdv = odv[p as int];
        assert(pdv == pairs.deep_view());
        let mut j: usize = 0;
        assert(spec_aggregate_pairs(r.deep_view(), pdv.take(0)) == r.deep_view());
        let ghost base = r.deep_view();
        while j < pairs.len()
            invariant
                j <= pairs.len(),
                pdv == pairs.deep_view(),
                pdv.len() == pairs.len(),
                r.deep_view() == spec_aggregate_pairs(base, pdv.take(j as int)),
            decreases pairs.len() - j,
        {
            let key = pairs[j].0.clone();
            let value = pairs[j].1.clone();
            proof {
                assert(pdv.take(j + 1).drop_last() =~= pdv.take(j as int));
                assert(pdv.take(j + 1).last() == pdv[j as int]);
            }
            r.add_value(key, value);
            j = j + 1;
        }
        proof {
            assert(pdv.take(pdv.len() as int) =~= pdv);
            assert(odv.take(p + 1).drop_last() =~= odv.take(p as int));
            assert(odv.take(p + 1).last() == odv[p as int]);
        }
        p = p + 1;
    }
    proof {
        assert(odv.take(odv.len() as int) =~= odv);
    }
    r
}

} // verus!
