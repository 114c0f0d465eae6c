//! Process names offered to the user: sorted, without repeats, limited in number.

use vstd::prelude::*;
use crate::text::{chars_of, string_of};

verus! {

/// Strict order of texts by character code, as `String`'s `Ord` compares (UTF-8 byte
/// order is code point order).
pub open spec fn text_lt(a: Seq<char>, b: Seq<char>) -> bool
    decreases a.len(),
{
    if a.len() == 0 {
        b.len() > 0
    } else if b.len() == 0 {
        false
    } else if a[0] != b[0] {
        a[0] < b[0]
    } else {
        text_lt(a.drop_first(), b.drop_first())
    }
}

/// No text is smaller than itself.
pub proof fn lemma_text_lt_irreflexive(a: Seq<char>)
    ensures
        !text_lt(a, a),
    decreases a.len(),
{
    if a.len() > 0 {
        lemma_text_lt_irreflexive(a.drop_first());
    }
}

/// Of two texts, at most one is smaller than the other.
pub proof fn lemma_text_lt_asymmetric(a: Seq<char>, b: Seq<char>)
    requires
        text_lt(a, b),
    ensures
        !text_lt(b, a),
    decreases a.len(),
{
    if a.len() > 0 && b.len() > 0 && a[0] == b[0] {
        lemma_text_lt_asymmetric(a.drop_first(), b.drop_first());
    }
}

/// The order is transitive.
pub proof fn lemma_text_lt_transitive(a: Seq<char>, b: Seq<char>, c: Seq<char>)
    requires
        text_lt(a, b),
        text_lt(b, c),
    ensures
        text_lt(a, c),
    decreases a.len(),
{
    if a.len() > 0 && b.len() > 0 && c.len() > 0 {
        if a[0] == b[0] && b[0] == c[0] {
            lemma_text_lt_transitive(a.drop_first(), b.drop_first(), c.drop_first());
        }
    }
}

/// Two different texts are ordered one way or the other.
pub proof fn lemma_text_lt_total(a: Seq<char>, b: Seq<char>)
    requires
        a != b,
    ensures
        text_lt(a, b) || text_lt(b, a),
    decreases a.len(),
{
    if a.len() > 0 && b.len() > 0 {
        if a[0] == b[0] {
            if a.drop_first() == b.drop_first() {
                assert(a =~= seq![a[0]] + a.drop_first());
                assert(b =~= seq![b[0]] + b.drop_first());
            }
            lemma_text_lt_total(a.drop_first(), b.drop_first());
        }
    } else if a.len() == 0 && b.len() == 0 {
        assert(a =~= b);
    }
}

/// Whether `a` comes strictly before `b`.
pub fn chars_lt(a: &Vec<char>, b: &Vec<char>) -> (r: bool)
    ensures
        r == text_lt(a@, b@),
{
    let mut i: usize = 0;
    assert(a@.skip(0) == a@);
    assert(b@.skip(0) == b@);
    loop
        invariant
            i <= a.len(),
            i <= b.len(),
            text_lt(a@, b@) == text_lt(a@.skip(i as int), b@.skip(i as int)),
        decreases a.len() - i,
    {
        if i == a.len() {
            return i < b.len();
        }
        if i == b.len() {
            return false;
        }
        let x = a[i];
        let y = b[i];
        proof {
            assert(a@.skip(i as int)[0] == x);
            assert(b@.skip(i as int)[0] == y);
            assert(a@.skip(i as int).drop_first() == a@.skip(i + 1));
            assert(b@.skip(i as int).drop_first() == b@.skip(i + 1));
        }
        if x != y {
            return x < y;
        }
        i = i + 1;
    }
}

/// The texts are in strictly increasing order.
pub open spec fn strictly_sorted(s: Seq<Seq<char>>) -> bool {
    forall|i: int, j: int| 0 <= i < j < s.len() ==> text_lt(#[trigger] s[i], #[trigger] s[j])
}

/// `r` is the first `limit` distinct texts of `names` in increasing order: sorted without
/// repeats, drawn from `names`, and holding every name unless the limit cut it off.
pub open spec fn first_sorted_distinct(names: Seq<Seq<char>>, limit: int, r: Seq<Seq<char>>) -> bool {
    &&& r.len() <= limit
    &&& strictly_sorted(r)
    &&& forall|i: int| 0 <= i < r.len() ==> names.contains(#[trigger] r[i])
    &&& forall|x: Seq<char>|
        #[trigger] names.contains(x) ==> r.contains(x) || (r.len() == limit && (limit == 0
            || text_lt(r.last(), x)))
}

/// The names of the running processes to offer: sorted, without repeats, at most `limit`.
pub fn list_process_names(names: &Vec<String>, limit: usize) -> (r: Vec<String>)
    ensures
        first_sorted_distinct(
            names@.map_values(|s: String| s@),
            limit as int,
            r@.map_values(|s: String| s@),
        ),
{
    let ghost all = names@.map_values(|s: String| s@);
    let mut texts: Vec<Vec<char>> = Vec::new();
    let n = names.len();
    for i in 0..n
        invariant
            n == names.len(),
            all == names@.map_values(|s: String| s@),
            texts@.len() == i,
            forall|k: int| 0 <= k < i ==> (#[trigger] texts@[k])@ == all[k],
    {
        texts.push(chars_of(names[i].as_str()));
    }
    let mut chosen: Vec<Vec<char>> = Vec::new();
    let mut out: Vec<String> = Vec::new();
    let ghost mut picked: Seq<Seq<char>> = Seq::empty();
    while chosen.len() < limit
        invariant
            n == names.len(),
            n == texts@.len(),
            all == names@.map_values(|s: String| s@),
            forall|k: int| 0 <= k < n ==> (#[trigger] texts@[k])@ == all[k],
            picked.len() == chosen@.len(),
            picked.len() <= limit,
            forall|k: int| 0 <= k < picked.len() ==> (#[trigger] chosen@[k])@ == picked[k],
            out@.map_values(|s: String| s@) == picked,
            strictly_sorted(picked),
            forall|k: int| 0 <= k < picked.len() ==> all.contains(#[trigger] picked[k]),
            picked.len() > 0 ==> forall|x: Seq<char>|
                #[trigger] all.contains(x) && !text_lt(picked.last(), x) ==> picked.contains(x),
        ensures
            picked.len() == limit || forall|x: Seq<char>| #[trigger] all.contains(x) ==> picked.contains(x),
        decreases limit - chosen.len(),
    {
        // the smallest name after the last one chosen
        let mut best: Option<usize> = None;
        let mut k: usize = 0;
        while k < n
            invariant
                k <= n,
                n == texts@.len(),
                forall|j: int| 0 <= j < n ==> (#[trigger] texts@[j])@ == all[j],
                picked.len() == chosen@.len(),
                forall|j: int| 0 <= j < picked.len() ==> (#[trigger] chosen@[j])@ == picked[j],
                best matches Some(b) ==> b < k && (picked.len() == 0 || text_lt(
                    picked.last(),
                    all[b as int],
                )),
                forall|j: int|
                    0 <= j < k && (picked.len() == 0 || text_lt(picked.last(), #[trigger] all[j]))
                        ==> (best matches Some(b) && (all[b as int] == all[j] || text_lt(
                        all[b as int],
                        all[j],
                    ))),
            decreases n - k,
        {
            let after_last = chosen.len() == 0 || chars_lt(&chosen[chosen.len() - 1], &texts[k]);
            let ghost cand = all[k as int];
            proof {
                assert(texts@[k as int]@ == cand);
                if chosen.len() > 0 {
                    assert(chosen@[chosen@.len() - 1]@ == picked.last());
                }
                assert(after_last == (picked.len() == 0 || text_lt(picked.last(), cand)));
            }
            if after_last {
                let better = match best {
                    None => true,
                    Some(b) => {
                        assert(texts@[b as int]@ == all[b as int]);
                        chars_lt(&texts[k], &texts[b])
                    },
                };
                let ghost old_best = best;
                if better {
                    best = Some(k);
                    proof {
                        assert forall|j: int|
                            0 <= j < k + 1 && (picked.len() == 0 || text_lt(
                                picked.last(),
                                #[trigger] all[j],
                            )) implies (best matches Some(b) && (all[b as int] == all[j]
                            || text_lt(all[b as int], all[j]))) by {
                            if j < k {
                                match old_best {
                                    Some(b) => {
                                        assert(text_lt(cand, all[b as int]));
                                        if all[b as int] != all[j] {
                                            lemma_text_lt_transitive(cand, all[b as int], all[j]);
                                        }
                                    },
                                    None => {},
                                }
                            }
                        }
                    }
                } else {
                    proof {
                        let b = best->0;
                        assert(!text_lt(cand, all[b as int]));
                        if all[b as int] != cand {
                            lemma_text_lt_total(all[b as int], cand);
                        }
                    }
                }
            }
            k = k + 1;
        }
        match best {
            None => {
                proof {
                    assert forall|x: Seq<char>| #[trigger] all.contains(x) implies picked.contains(x) by {
                        let j = choose|j: int| 0 <= j < all.len() && all[j] == x;
                        if picked.len() > 0 && text_lt(picked.last(), x) {
                            assert(all[j] == x);
                        }
                    }
                    assert(picked.len() > 0 || all.len() == 0) by {
                        if all.len() > 0 {
                            assert(all[0] == all[0]);
                        }
                    }
                }
                break;
            },
            Some(b) => {
                let next = texts[b].clone();
                proof {
                    let m = all[b as int];
                    assert(next@ == m);
                    assert forall|i: int, j: int| 0 <= i < j < picked.len() + 1 implies text_lt(
                        #[trigger] picked.push(m)[i],
                        #[trigger] picked.push(m)[j],
                    ) by {
                        if j == picked.len() {
                            if i < picked.len() - 1 {
                                lemma_text_lt_transitive(picked[i], picked.last(), m);
                            }
                        }
                    }
                    assert forall|x: Seq<char>|
                        #[trigger] all.contains(x) && !text_lt(m, x) implies picked.push(m).contains(x) by {
                        let j = choose|j: int| 0 <= j < all.len() && all[j] == x;
                        if x == m {
                            assert(picked.push(m)[picked.len() as int] == m);
                        } else if picked.len() > 0 && !text_lt(picked.last(), x) {
                            let w = choose|w: int| 0 <= w < picked.len() && picked[w] == x;
                            assert(picked.push(m)[w] == x);
                        } else {
                            assert(all[j] == x);
                            lemma_text_lt_total(m, x);
                            lemma_text_lt_asymmetric(x, m);
                        }
                    }
                    picked = picked.push(m);
                }
                out.push(string_of(&next));
                chosen.push(next);
                assert(out@.map_values(|s: String| s@) =~= picked);
            },
        }
    }
    proof {
        assert forall|x: Seq<char>| #[trigger] all.contains(x) implies picked.contains(x) || (
        picked.len() == limit && (limit == 0 || text_lt(picked.last(), x))) by {
            if !picked.contains(x) && picked.len() > 0 {
                if !text_lt(picked.last(), x) {
                    assert(picked.contains(x));
                }
            }
        }
    }
    out
}

} // verus!
