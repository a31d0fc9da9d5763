//! A provider for environment-variable arguments: the pure half, which
//! normalizes already-collected variable pairs. Reading the process
//! environment itself is left to the callers.

use vstd::prelude::*;

verus! {

/// Name for what `str::to_lowercase` returns on a given sequence of
/// characters: the result depends on the characters alone.
pub uninterp spec fn lower_of(s: Seq<char>) -> Seq<char>;

/// Relies on `str::to_lowercase` of the standard library: its result is a
/// function of the input characters alone, named here by `lower_of`.
#[verifier::external_body]
fn to_lowercase(s: &str) -> (r: String)
    ensures
        r@ == lower_of(s@),
{
    s.to_lowercase()
}

/// The provider configuration for environment-variable arguments: whether
/// variable names are converted to lowercase before being passed on.
#[derive(Debug)]
pub struct Env {
    to_lowercase: bool,
}

/// Model of [`Env::parse`]: the pairs unchanged, or every key passed through
/// the lowercase mapping when the provider is configured to do so.
pub open spec fn spec_env_parse(
    lower: bool,
    pairs: Seq<(Seq<char>, Seq<char>)>,
) -> Seq<(Seq<char>, Seq<char>)> {
    if lower {
        pairs.map_values(|p: (Seq<char>, Seq<char>)| (lower_of(p.0), p.1))
    } else {
        pairs
    }
}

impl Env {
    /// Whether this instance converts variable names to lowercase.
    pub closed spec fn spec_converts(&self) -> bool {
        self.to_lowercase
    }

    /// Creates a new instance of the provider with the given configuration.
    pub fn new(to_lowercase: bool) -> (r: Self)
        ensures
            r.spec_converts() == to_lowercase,
    {
        Env { to_lowercase }
    }

    /// Whether the names of the environment variables are converted to
    /// lowercase before being passed on.
    pub fn converts_to_lowercase(&self) -> (r: bool)
        ensures
            r == self.spec_converts(),
    {
        self.to_lowercase
    }

    /// Updates the lowercase option for this instance.
    pub fn convert_to_lowercase(&mut self, nvalue: bool)
        ensures
            final(self).spec_converts() == nvalue,
    {
        self.to_lowercase = nvalue;
    }

    /// Normalizes collected variable pairs: keys are lowercased exactly when
    /// the instance is configured to convert, values pass through unchanged.
    pub fn parse(&self, pairs: Vec<(String, String)>) -> (r: Vec<(String, String)>)
        ensures
            r.deep_view() == spec_env_parse(self.spec_converts(), pairs.deep_view()),
    {
        let ghost pdv = pairs.deep_view();
        if !self.to_lowercase {
            return pairs;
        }
        let mut out: Vec<(String, String)> = Vec::new();
        let ghost target = spec_env_parse(true, pdv);
        let mut i: usize = 0;
        while i < pairs.len()
            invariant
                i <= pairs.len(),
                pdv == pairs.deep_view(),
                pdv.len() == pairs.len(),
                target == spec_env_parse(true, pdv),
                out.deep_view() =~= target.take(i as int),
            decreases pairs.len() - i,
        {
            proof {
                assert(pdv[i as int] == (pairs@[i as int].0@, pairs@[i as int].1@));
            }
            let key = to_lowercase(pairs[i].0.as_str());
            let value = pairs[i].1.clone();
            let ghost pre = out.deep_view();
            out.push((key, value));
            assert(out.deep_view() =~~= pre.push((lower_of(pdv[i as int].0), pdv[i as int].1)));
            assert(out.deep_view() =~= target.take(i + 1));
            i = i + 1;
        }
        assert(target.take(pdv.len() as int) =~= target);
        out
    }
}

} // verus!
