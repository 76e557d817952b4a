//! Keeping a list in ascending order of its string keys.

use vstd::prelude::*;
use vstd::relations::{sorted_by, total_ordering};
use crate::text::{
    chars_le, lemma_lex_le_antisymmetric, lemma_lex_le_reflexive, lemma_lex_le_total,
    lemma_lex_le_transitive, lex_le,
};

verus! {

/// Whether the keys ascend: none comes before an earlier one.
pub open spec fn is_ascending(keys: Seq<Seq<char>>) -> bool {
    forall|i: int, j: int| 0 <= i < j < keys.len() ==> lex_le(#[trigger] keys[i], #[trigger] keys[j])
}

/// The characters of each key.
pub open spec fn key_texts(keys: Seq<Vec<char>>) -> Seq<Seq<char>> {
    Seq::new(keys.len(), |i: int| keys[i]@)
}

/// The order of strings as a relation.
pub open spec fn string_order() -> spec_fn(Seq<char>, Seq<char>) -> bool {
    |a: Seq<char>, b: Seq<char>| lex_le(a, b)
}

/// The lexicographic order is a total order on strings.
pub proof fn lemma_string_order_is_total()
    ensures
        total_ordering(string_order()),
{
    let r = string_order();
    assert forall|a: Seq<char>| #[trigger] r(a, a) by {
        lemma_lex_le_reflexive(a);
    }
    assert forall|a: Seq<char>, b: Seq<char>| #[trigger] r(a, b) && #[trigger] r(b, a) implies a
        == b by {
        lemma_lex_le_antisymmetric(a, b);
    }
    assert forall|a: Seq<char>, b: Seq<char>, c: Seq<char>| #[trigger]
        r(a, b) && #[trigger] r(b, c) implies r(a, c) by {
        lemma_lex_le_transitive(a, b, c);
    }
    assert forall|a: Seq<char>, b: Seq<char>| #[trigger] r(a, b) || #[trigger] r(b, a) by {
        lemma_lex_le_total(a, b);
    }
}

/// Ascending keys are sorted by the order of strings, and the other way round.
pub proof fn lemma_ascending_is_sorted(keys: Seq<Seq<char>>)
    ensures
        is_ascending(keys) == sorted_by(keys, string_order()),
{
    let r = string_order();
    if is_ascending(keys) {
        assert forall|i: int, j: int| 0 <= i < j < keys.len() implies #[trigger] r(
            keys[i],
            keys[j],
        ) by {
            assert(lex_le(keys[i], keys[j]));
        }
    }
    if sorted_by(keys, r) {
        assert forall|i: int, j: int| 0 <= i < j < keys.len() implies lex_le(
            #[trigger] keys[i],
            #[trigger] keys[j],
        ) by {
            assert(r(keys[i], keys[j]));
        }
    }
}

/// Where `key` belongs among ascending keys: behind every key that is not
/// greater, before every key that is.
pub open spec fn is_insertion_point(keys: Seq<Seq<char>>, key: Seq<char>, pos: int) -> bool {
    &&& 0 <= pos <= keys.len()
    &&& forall|k: int| 0 <= k < pos ==> lex_le(#[trigger] keys[k], key)
    &&& forall|k: int| pos <= k < keys.len() ==> !lex_le(#[trigger] keys[k], key)
}

/// Two insertion points of one key among the same keys are the same position.
pub proof fn lemma_insertion_point_is_unique(
    keys: Seq<Seq<char>>,
    key: Seq<char>,
    pos: int,
    other: int,
)
    requires
        is_insertion_point(keys, key, pos),
        is_insertion_point(keys, key, other),
    ensures
        pos == other,
{
    if pos < other {
        assert(lex_le(keys[pos], key));
    } else if other < pos {
        assert(lex_le(keys[other], key));
    }
}

/// The insertion point of `key` among `keys`.
pub open spec fn insertion_index(keys: Seq<Seq<char>>, key: Seq<char>) -> int {
    choose|pos: int| is_insertion_point(keys, key, pos)
}

/// A position that is an insertion point is the insertion point.
pub proof fn lemma_insertion_index_is(keys: Seq<Seq<char>>, key: Seq<char>, pos: int)
    requires
        is_insertion_point(keys, key, pos),
    ensures
        insertion_index(keys, key) == pos,
{
    lemma_insertion_point_is_unique(keys, key, pos, insertion_index(keys, key));
}

/// Ascending keys still ascend with `key` put in at its insertion point.
pub proof fn lemma_insert_keeps_ascending(keys: Seq<Seq<char>>, key: Seq<char>, pos: int)
    requires
        is_ascending(keys),
        is_insertion_point(keys, key, pos),
    ensures
        is_ascending(keys.insert(pos, key)),
{
    let after = keys.insert(pos, key);
    assert forall|i: int, j: int| 0 <= i < j < after.len() implies lex_le(
        #[trigger] after[i],
        #[trigger] after[j],
    ) by {
        if j < pos {
            assert(after[i] == keys[i] && after[j] == keys[j]);
        } else if j == pos {
            assert(after[i] == keys[i]);
        } else if i < pos {
            assert(after[i] == keys[i] && after[j] == keys[j - 1]);
        } else if i == pos {
            assert(after[j] == keys[j - 1]);
            lemma_lex_le_total(keys[j - 1], key);
        } else {
            assert(after[i] == keys[i - 1] && after[j] == keys[j - 1]);
        }
    }
}

/// Finds the insertion point of `key` among ascending keys.
pub(crate) fn insertion_point(keys: &Vec<Vec<char>>, key: &Vec<char>) -> (pos: usize)
    requires
        is_ascending(key_texts(keys@)),
    ensures
        is_insertion_point(key_texts(keys@), key@, pos as int),
{
    let ghost texts = key_texts(keys@);
    let mut pos: usize = keys.len();
    while pos > 0 && !chars_le(&keys[pos - 1], key)
        invariant
            pos <= keys.len(),
            texts == key_texts(keys@),
            forall|k: int| pos <= k < keys.len() ==> !lex_le(#[trigger] texts[k], key@),
        decreases pos,
    {
        pos -= 1;
    }
    proof {
        if pos > 0 {
            assert(lex_le(texts[pos - 1], key@));
            assert forall|k: int| 0 <= k < pos implies lex_le(#[trigger] texts[k], key@) by {
                if k < pos - 1 {
                    assert(lex_le(texts[k], texts[pos - 1]));
                    lemma_lex_le_transitive(texts[k], texts[pos - 1], key@);
                }
            }
        }
    }
    pos
}

} // verus!
