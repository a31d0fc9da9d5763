//! A provider for command-line arguments: the pure half, which reads flag
//! pairs out of an already-collected token list. Reading the process
//! arguments themselves is left to the callers.
//!
//! A token beginning with one or more leading `-` characters is a key; if it
//! contains `=`, the text before is the key and after is the value;
//! otherwise the following token, if present, is the value. Tokens not
//! preceded by a dangling key and not themselves a flag are ignored.

use vstd::prelude::*;

use crate::strutil::find_char;
use crate::strutil::lemma_find_char_characterization;
use crate::strutil::spec_find_char;
use crate::strutil::spec_trim_leading;
use crate::strutil::trim_leading;

verus! {

/// The provider for arguments passed to the program on the command line.
#[derive(Debug)]
pub struct Cli {}

/// Model of [`Cli::parse_vars`]: the key/value pairs read from a token list,
/// in order. A token that does not start with `-` is skipped; the leading
/// dashes are trimmed; a `=` splits key and value inside one token, and
/// otherwise the next token, whatever it is, becomes the value. A dangling
/// key at the end of the input produces no pair.
pub open spec fn spec_parse_vars(items: Seq<Seq<char>>) -> Seq<(Seq<char>, Seq<char>)>
    decreases items.len(),
{
    if items.len() == 0 {
        Seq::empty()
    } else {
        let item = items.first();
        if item.len() == 0 || item[0] != '-' {
            spec_parse_vars(items.drop_first())
        } else {
            let trimmed = spec_trim_leading(item, '-');
            match spec_find_char(trimmed, '=') {
                Some(p) => seq![(trimmed.take(p), trimmed.skip(p + 1))] + spec_parse_vars(
                    items.drop_first(),
                ),
                None => if items.len() == 1 {
                    Seq::empty()
                } else {
                    seq![(trimmed, items[1])] + spec_parse_vars(items.skip(2))
                },
            }
        }
    }
}

impl Cli {
    /// Creates a new instance of the provider.
    pub fn new() -> (r: Self) {
        Cli {  }
    }

    /// Reads the key/value flag pairs out of the token list `items`.
    #[verifier::loop_isolation(false)]
    pub fn parse_vars(items: Vec<String>) -> (r: Vec<(String, String)>)
        ensures
            r.deep_view() == spec_parse_vars(items.deep_view()),
    {
        let ghost idv = items.deep_view();
        let mut out: Vec<(String, String)> = Vec::new();
        let mut i: usize = 0;
        assert(idv.skip(0) =~= idv);
        assert(out.deep_view() =~= Seq::<(Seq<char>, Seq<char>)>::empty());
        while i < items.len()
            invariant
                i <= items.len(),
                spec_parse_vars(idv) == out.deep_view() + spec_parse_vars(idv.skip(i as int)),
            decreases items.len() - i,
        {
            proof {
                assert(idv.skip(i as int).first() == idv[i as int]);
                assert(idv.skip(i as int).drop_first() =~= idv.skip(i + 1));
                assert(idv[i as int] == items@[i as int]@);
            }
            let item = &items[i];
            let item_len = item.as_str().unicode_len();
            if item_len == 0 || item.as_str().get_char(0) != '-' {
                i = i + 1;
                continue ;
            }
            let trimmed = trim_leading(item.as_str(), '-');
            let ghost tdv = spec_trim_leading(idv[i as int], '-');
            match find_char(trimmed, '=') {
                Some(p) => {
                    proof {
                        lemma_find_char_characterization(tdv, '=');
                    }
                    let tlen = trimmed.unicode_len();
                    let key = trimmed.substring_char(0, p).to_owned();
                    let value = trimmed.substring_char(p + 1, tlen).to_owned();
                    proof {
                        let fp = spec_find_char(tdv, '=')->Some_0;
                        assert(key@ =~= tdv.take(fp));
                        assert(value@ =~= tdv.skip(fp + 1));
                    }
                    let ghost pre = out.deep_view();
                    out.push((key, value));
                    assert(out.deep_view() =~~= pre.push((
                        tdv.take(spec_find_char(tdv, '=')->Some_0),
                        tdv.skip(spec_find_char(tdv, '=')->Some_0 + 1),
                    )));
                    proof {
                        let pair = (
                            tdv.take(spec_find_char(tdv, '=')->Some_0),
                            tdv.skip(spec_find_char(tdv, '=')->Some_0 + 1),
                        );
                        assert(pre + (seq![pair] + spec_parse_vars(idv.skip(i + 1))) =~= pre.push(
                            pair,
                        ) + spec_parse_vars(idv.skip(i + 1)));
                    }
                    i = i + 1;
                },
                None => {
                    if i + 1 >= items.len() {
                        proof {
                            assert(idv.skip(i as int).len() == 1);
                            assert(spec_parse_vars(idv.skip(i as int)) =~= Seq::<
                                (Seq<char>, Seq<char>),
                            >::empty());
                            assert(out.deep_view() + Seq::<(Seq<char>, Seq<char>)>::empty()
                                =~= out.deep_view());
                        }
                        return out;
                    }
                    let key = trimmed.to_owned();
                    let value = items[i + 1].clone();
                    proof {
                        assert(idv.skip(i as int)[1] == idv[i + 1]);
                        assert(idv[i + 1] == items@[i + 1]@);
                        assert(idv.skip(i as int).skip(2) =~= idv.skip(i + 2));
                    }
                    let ghost pre = out.deep_view();
                    out.push((key, value));
                    assert(out.deep_view() =~~= pre.push((tdv, idv[i + 1])));
                    proof {
                        let pair = (tdv, idv[i + 1]);
                        assert(pre + (seq![pair] + spec_parse_vars(idv.skip(i + 2))) =~= pre.push(
                            pair,
                        ) + spec_parse_vars(idv.skip(i + 2)));
                    }
                    i = i + 2;
                },
            }
        }
        proof {
            assert(idv.skip(i as int) =~= Seq::<Seq<char>>::empty());
            assert(out.deep_view() + Seq::<(Seq<char>, Seq<char>)>::empty() =~= out.deep_view());
        }
        out
    }
}

} // verus!
