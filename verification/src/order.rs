//! A stable sort by a string key, as `slice::sort_by` with `String::cmp` orders items.

use vstd::prelude::*;
use crate::text::{lex_lt, lex_le, str_lt, lemma_lex_transitive, lemma_lex_asymmetric,
    lemma_lex_total, lemma_lex_irreflexive};

verus! {

broadcast use vstd::std_specs::vec::group_vec_axioms;

/// Items that are ordered by a string key.
pub trait SortKey {
    spec fn sort_key(&self) -> Seq<char>;

    fn key_str(&self) -> (r: &str)
        ensures
            r@ == self.sort_key(),
    ;
}

impl SortKey for String {
    open spec fn sort_key(&self) -> Seq<char> {
        self@
    }

    fn key_str(&self) -> (r: &str) {
        self.as_str()
    }
}

/// The keys of `items` never decrease.
pub open spec fn sorted_by_key<T: SortKey>(items: Seq<T>) -> bool {
    forall|i: int, j: int| 0 <= i < j < items.len() ==> lex_le(items[i].sort_key(), items[j].sort_key())
}

/// `result` holds the items of `source`, moved by `perm` (`result[k]` is `source[perm[k]]`),
/// each exactly once, and items with equal keys keep their order.
pub open spec fn stable_permutation<T: SortKey>(result: Seq<T>, source: Seq<T>, perm: Seq<int>) -> bool {
    &&& result.len() == source.len()
    &&& perm.len() == source.len()
    &&& forall|k: int| 0 <= k < perm.len() ==> 0 <= #[trigger] perm[k] < source.len()
    &&& forall|k: int| 0 <= k < perm.len() ==> result[k] == source[#[trigger] perm[k]]
    &&& forall|k: int, l: int| 0 <= k < l < perm.len() ==> perm[k] != perm[l]
    &&& forall|k: int, l: int| 0 <= k < l < perm.len() && result[k].sort_key() == result[l].sort_key() ==> perm[k] < perm[l]
}

/// `v.sort_by(|a, b| a.key().cmp(b.key()))`: the items ordered by key, equal keys in their
/// input order.
pub fn stable_sort<T: SortKey>(v: Vec<T>) -> (r: Vec<T>)
    ensures
        sorted_by_key(r@),
        exists|perm: Seq<int>| stable_permutation(r@, v@, perm),
{
    let ghost src = v@;
    assert(v.len() == src.len());
    let mut out: Vec<T> = Vec::new();
    let ghost mut perm: Seq<int> = Seq::empty();
    let mut i: usize = 0;
    for x in it: v.into_iter()
        invariant
            it.seq() == src,
            src.len() <= usize::MAX,
            i == it.index(),
            out@.len() == i,
            sorted_by_key(out@),
            stable_permutation(out@, src.take(i as int), perm),
    {
        let mut p: usize = 0;
        while p < out.len() && !str_lt(x.key_str(), out[p].key_str())
            invariant
                p <= out@.len(),
                forall|k: int| 0 <= k < p ==> lex_le(#[trigger] out@[k].sort_key(), x.sort_key()),
            decreases out@.len() - p,
        {
            proof {
                lemma_lex_total(x.sort_key(), out@[p as int].sort_key());
            }
            p += 1;
        }
        proof {
            assert forall|k: int| p <= k < out@.len() implies lex_lt(x.sort_key(), #[trigger] out@[k].sort_key()) by {
                if k > p {
                    assert(lex_le(out@[p as int].sort_key(), out@[k].sort_key()));
                    if out@[p as int].sort_key() != out@[k].sort_key() {
                        lemma_lex_transitive(x.sort_key(), out@[p as int].sort_key(), out@[k].sort_key());
                    }
                }
            }
        }
        let ghost old_out = out@;
        let ghost old_perm = perm;
        let ghost xv = x;
        out.insert(p, x);
        proof {
            perm = old_perm.insert(p as int, i as int);
            let s = src.take(i + 1);
            assert(src.take(i + 1)[i as int] == xv);
            assert forall|k: int| 0 <= k < out@.len() implies #[trigger] out@[k] == (if k < p {
                old_out[k]
            } else if k == p {
                xv
            } else {
                old_out[k - 1]
            }) by {}
            assert forall|k: int, l: int| 0 <= k < l < out@.len() implies lex_le(
                out@[k].sort_key(),
                out@[l].sort_key(),
            ) by {
                if k < p && l > p {
                    let a = old_out[k].sort_key();
                    let b = xv.sort_key();
                    let c = old_out[l - 1].sort_key();
                    if a != b {
                        lemma_lex_transitive(a, b, c);
                    }
                }
            }
            assert(stable_permutation(out@, s, perm)) by {
                assert forall|k: int| 0 <= k < perm.len() implies out@[k] == s[#[trigger] perm[k]] by {
                    if k < p {
                        assert(s[old_perm[k]] == src.take(i as int)[old_perm[k]]);
                    } else if k > p {
                        assert(s[old_perm[k - 1]] == src.take(i as int)[old_perm[k - 1]]);
                    }
                }
                assert forall|k: int, l: int| 0 <= k < l < perm.len() && out@[k].sort_key()
                    == out@[l].sort_key() implies perm[k] < perm[l] by {
                    if l == p {
                        assert(perm[k] == old_perm[k]);
                    } else if k == p {
                        lemma_lex_asymmetric(xv.sort_key(), old_out[l - 1].sort_key());
                    }
                }
            }
        }
        i += 1;
    }
    proof {
        assert(src.take(i as int) =~= src);
    }
    out
}

/// The views of a list of strings.
pub open spec fn string_views(s: Seq<String>) -> Seq<Seq<char>> {
    s.map_values(|x: String| x@)
}

/// `r` lists the items of `s`, each exactly once: `r[k]` is `s[perm[k]]` for a one-to-one `perm`.
pub open spec fn permutation_of<A>(r: Seq<A>, s: Seq<A>) -> bool {
    exists|perm: Seq<int>|
        #![trigger perm.len()]
        perm.len() == s.len() && r.len() == s.len() && (forall|k: int|
            0 <= k < perm.len() ==> 0 <= #[trigger] perm[k] < s.len()) && (forall|k: int, l: int|
            0 <= k < l < perm.len() ==> perm[k] != perm[l]) && (forall|k: int|
            0 <= k < perm.len() ==> r[k] == s[#[trigger] perm[k]])
}

/// The strings of `r` never decrease.
pub open spec fn sorted_strings(r: Seq<Seq<char>>) -> bool {
    forall|i: int, j: int| 0 <= i < j < r.len() ==> lex_le(r[i], r[j])
}

/// `r` is `s` sorted (as `slice::sort` sorts strings).
pub open spec fn sorted_permutation(r: Seq<Seq<char>>, s: Seq<Seq<char>>) -> bool {
    sorted_strings(r) && permutation_of(r, s)
}

/// `v.sort()` on strings.
pub fn sort_strings(v: Vec<String>) -> (r: Vec<String>)
    ensures
        sorted_permutation(string_views(r@), string_views(v@)),
{
    let ghost src = v@;
    let r = stable_sort(v);
    proof {
        let perm = choose|perm: Seq<int>| stable_permutation(r@, src, perm);
        assert(perm.len() == src.len());
        let rv = string_views(r@);
        let sv = string_views(src);
        assert forall|k: int| 0 <= k < perm.len() implies rv[k] == sv[#[trigger] perm[k]] by {
            assert(r@[k] == src[perm[k]]);
        }
        assert forall|i: int, j: int| 0 <= i < j < rv.len() implies lex_le(rv[i], rv[j]) by {
            assert(lex_le(r@[i].sort_key(), r@[j].sort_key()));
        }
    }
    r
}

} // verus!
