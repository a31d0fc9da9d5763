//! A provider that hands out a caller-populated, fixed list of arguments,
//! mostly intended for tests and defaults injection.

use vstd::prelude::*;

use crate::ArgProvider;

verus! {

/// A fixed list of arguments that the provider hands to the parser as it is.
#[derive(Debug)]
pub struct Fixed {
    args: Vec<(String, String)>,
}

impl DeepView for Fixed {
    type V = Seq<(Seq<char>, Seq<char>)>;

    closed spec fn deep_view(&self) -> Seq<(Seq<char>, Seq<char>)> {
        self.args.deep_view()
    }
}

impl Fixed {
    /// Creates a new empty list of fixed arguments.
    pub fn empty() -> (r: Self)
        ensures
            r.deep_view() == Seq::<(Seq<char>, Seq<char>)>::empty(),
    {
        let r = Fixed { args: Vec::new() };
        assert(r.deep_view() =~= Seq::<(Seq<char>, Seq<char>)>::empty());
        r
    }

    /// Adds the given key/value pair to the end of the list of arguments.
    pub fn add_arg(&mut self, key: String, value: String)
        ensures
            final(self).deep_view() == old(self).deep_view().push((key@, value@)),
    {
        let ghost pre = self.deep_view();
        self.args.push((key, value));
        assert(self.deep_view() =~~= pre.push((key@, value@)));
    }
}

impl ArgProvider for Fixed {
    fn get_args(&self) -> (r: Vec<(String, String)>)
        ensures
            r.deep_view() == self.deep_view(),
    {
        let mut out: Vec<(String, String)> = Vec::new();
        let mut i: usize = 0;
        while i < self.args.len()
            invariant
                i <= self.args.len(),
                out.deep_view() == self.deep_view().take(i as int),
            decreases self.args.len() - i,
        {
            let k = self.args[i].0.clone();
            let v = self.args[i].1.clone();
            let ghost pre = out.deep_view();
            out.push((k, v));
            assert(out.deep_view() =~~= pre.push(self.deep_view()[i as int]));
            assert(self.deep_view().take(i + 1) =~= self.deep_view().take(i as int).push(
                self.deep_view()[i as int],
            ));
            i = i + 1;
        }
        out
    }
}

} // verus!
