//! Clean-up of the BPE merge rules of a tokenizer before it is loaded: a
//! rule is kept only when both of its sides and their concatenation are in
//! the vocabulary.
use vstd::prelude::*;

use crate::text::{chars_of, find, find_spec, lemma_find_spec, occurs_at, push_str, str_eq, string_of};

verus! {

/// One entry of the `merges` list of a tokenizer.
pub enum MergeRule {
    /// A pair of two strings.
    Pair(String, String),
    /// A string `"left right"`.
    Joined(String),
    /// Anything else.
    Other,
}

/// The two sides of a joined rule: split at its first space.
pub open spec fn split_rule(s: Seq<char>) -> Option<(Seq<char>, Seq<char>)> {
    match find_spec(s, seq![' '], 0) {
        Some(i) => Some((s.take(i), s.skip(i + 1))),
        None => None,
    }
}

/// The sides of a rule, if it has two.
pub open spec fn rule_sides(m: MergeRule) -> Option<(Seq<char>, Seq<char>)> {
    match m {
        MergeRule::Pair(a, b) => Some((a@, b@)),
        MergeRule::Joined(s) => split_rule(s@),
        MergeRule::Other => None,
    }
}

/// The vocabulary holds `t`.
pub open spec fn in_vocab(vocab: Seq<String>, t: Seq<char>) -> bool {
    exists|k: int| 0 <= k < vocab.len() && (#[trigger] vocab[k])@ == t
}

/// A rule stays: it has two sides, and both sides and their concatenation
/// are in the vocabulary.
pub open spec fn rule_kept(vocab: Seq<String>, m: MergeRule) -> bool {
    match rule_sides(m) {
        Some((a, b)) => in_vocab(vocab, a) && in_vocab(vocab, b) && in_vocab(vocab, a + b),
        None => false,
    }
}

/// Membership by search: the vocabulary is taken as a list of its strings,
/// since with string keys Verus's specification of `HashSet` proves nothing
/// of what a lookup returns.
fn vocab_has(vocab: &Vec<String>, t: &Vec<char>) -> (r: bool)
    ensures
        r == in_vocab(vocab@, t@),
{
    let mut k: usize = 0;
    while k < vocab.len()
        invariant
            k <= vocab@.len(),
            forall|j: int| 0 <= j < k ==> (#[trigger] vocab@[j])@ != t@,
        decreases vocab@.len() - k,
    {
        if crate::text::str_eq_vec(vocab[k].as_str(), t) {
            return true;
        }
        k += 1;
    }
    false
}

fn sides_of(m: &MergeRule) -> (r: Option<(Vec<char>, Vec<char>)>)
    ensures
        match rule_sides(*m) {
            Some((a, b)) => r matches Some((x, y)) && x@ == a && y@ == b,
            None => r is None,
        },
{
    match m {
        MergeRule::Pair(a, b) => Some((chars_of(a.as_str()), chars_of(b.as_str()))),
        MergeRule::Joined(s) => {
            let v = chars_of(s.as_str());
            let n = v.len();
            let sp: Vec<char> = vec![' '];
            assert(sp@ == seq![' ']);
            match find(&v, &sp, 0) {
                Some(i) => {
                    proof {
                        lemma_find_spec(v@, sp@, 0);
                    }
                    let left = crate::text::slice_of(&v, 0, i);
                    assert(occurs_at(v@, sp@, i as int));
                    let right = crate::text::slice_of(&v, i + 1, n);
                    assert(left@ == v@.take(i as int));
                    assert(right@ == v@.skip(i + 1));
                    Some((left, right))
                },
                None => None,
            }
        },
        MergeRule::Other => None,
    }
}

/// Which merge rules stay ([`rule_kept`]), and how many go. With an empty
/// vocabulary nothing is checked and every rule stays.
pub fn sanitize_bpe_merges(vocab: &Vec<String>, merges: &Vec<MergeRule>) -> (r: (Vec<bool>, usize))
    ensures
        r.0@.len() == merges@.len(),
        vocab@.len() == 0 ==> r.1 == 0 && forall|k: int| 0 <= k < merges@.len() ==> #[trigger] r.0@[k],
        vocab@.len() > 0 ==> forall|k: int|
            0 <= k < merges@.len() ==> #[trigger] r.0@[k] == rule_kept(vocab@, merges@[k]),
        r.1 == r.0@.filter(|b: bool| !b).len(),
{
    let mut keep: Vec<bool> = Vec::new();
    let mut removed: usize = 0;
    let mut k: usize = 0;
    while k < merges.len()
        invariant
            k <= merges@.len(),
            keep@.len() == k,
            removed <= k,
            removed == keep@.filter(|b: bool| !b).len(),
            vocab@.len() == 0 ==> removed == 0,
            vocab@.len() == 0 ==> forall|j: int| 0 <= j < k ==> #[trigger] keep@[j],
            vocab@.len() > 0 ==> forall|j: int|
                0 <= j < k ==> #[trigger] keep@[j] == rule_kept(vocab@, merges@[j]),
        decreases merges@.len() - k,
    {
        let ok = if vocab.len() == 0 {
            true
        } else {
            match sides_of(&merges[k]) {
                Some((a, b)) => {
                    let mut ab = a.clone();
                    crate::text::push_all(&mut ab, &b);
                    vocab_has(vocab, &a) && vocab_has(vocab, &b) && vocab_has(vocab, &ab)
                },
                None => false,
            }
        };
        let ghost before = keep@;
        keep.push(ok);
        proof {
            reveal(Seq::filter);
            assert(keep@.drop_last() == before);
        }
        if !ok {
            removed += 1;
        }
        k += 1;
    }
    (keep, removed)
}

} // verus!
