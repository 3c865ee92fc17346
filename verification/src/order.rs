//! The order of strings, and sorting by it.

use vstd::prelude::*;
use vstd::string::*;
use vstd::utf8::*;

verus! {

/// `a` and `b` agree up to `k`, and there `a` ends or holds the smaller byte.
pub open spec fn below_at(a: Seq<u8>, b: Seq<u8>, k: int) -> bool {
    &&& 0 <= k <= a.len()
    &&& k < b.len()
    &&& forall|i: int| 0 <= i < k ==> a[i] == b[i]
    &&& k == a.len() || a[k] < b[k]
}

/// The lexicographic order of byte strings.
pub open spec fn bytes_lt(a: Seq<u8>, b: Seq<u8>) -> bool {
    exists|k: int| below_at(a, b, k)
}

/// The order of strings: lexicographic by the bytes of their UTF-8 encoding.
pub open spec fn text_lt(a: Seq<char>, b: Seq<char>) -> bool {
    bytes_lt(encode_utf8(a), encode_utf8(b))
}

/// No text comes before itself.
pub proof fn lemma_text_lt_irreflexive(a: Seq<char>)
    ensures
        !text_lt(a, a),
{
}

/// The order of texts is transitive.
pub proof fn lemma_text_lt_transitive(a: Seq<char>, b: Seq<char>, c: Seq<char>)
    requires
        text_lt(a, b),
        text_lt(b, c),
    ensures
        text_lt(a, c),
{
    let (x, y, z) = (encode_utf8(a), encode_utf8(b), encode_utf8(c));
    let j = choose|j: int| below_at(x, y, j);
    let k = choose|k: int| below_at(y, z, k);
    if j <= k {
        assert(below_at(x, z, j));
    } else {
        assert(below_at(x, z, k));
    }
}

/// Byte strings that agree up to `k` are equal or ordered one way.
proof fn lemma_bytes_total_from(a: Seq<u8>, b: Seq<u8>, k: int)
    requires
        0 <= k <= a.len(),
        k <= b.len(),
        forall|i: int| 0 <= i < k ==> a[i] == b[i],
    ensures
        a == b || bytes_lt(a, b) || bytes_lt(b, a),
    decreases a.len() - k,
{
    if k == a.len() && k == b.len() {
        assert(a =~= b);
    } else if k == a.len() {
        assert(below_at(a, b, k));
    } else if k == b.len() {
        assert(below_at(b, a, k));
    } else if a[k] < b[k] {
        assert(below_at(a, b, k));
    } else if b[k] < a[k] {
        assert(below_at(b, a, k));
    } else {
        lemma_bytes_total_from(a, b, k + 1);
    }
}

/// Of two different texts, one comes before the other.
pub proof fn lemma_text_lt_total(a: Seq<char>, b: Seq<char>)
    ensures
        a == b || text_lt(a, b) || text_lt(b, a),
{
    lemma_bytes_total_from(encode_utf8(a), encode_utf8(b), 0);
    encode_utf8_decode_utf8(a);
    encode_utf8_decode_utf8(b);
}

/// Tells whether `a` comes before `b`.
pub fn is_text_lt(a: &str, b: &str) -> (less: bool)
    ensures
        less == text_lt(a@, b@),
{
    let x = a.as_bytes();
    let y = b.as_bytes();
    let mut k: usize = 0;
    while k < x.len() && k < y.len()
        invariant
            k <= x@.len(),
            k <= y@.len(),
            x@ == encode_utf8(a@),
            y@ == encode_utf8(b@),
            forall|i: int| 0 <= i < k ==> x@[i] == y@[i],
        decreases x@.len() - k,
    {
        if x[k] < y[k] {
            proof {
                assert(below_at(x@, y@, k as int));
            }
            return true;
        }
        if y[k] < x[k] {
            proof {
                assert forall|j: int| !below_at(x@, y@, j) by {
                    if below_at(x@, y@, j) {
                        assert(j <= k) by {
                            if j > k {
                                assert(x@[k as int] == y@[k as int]);
                            }
                        }
                        assert(j < k ==> x@[j] == y@[j]);
                    }
                }
            }
            return false;
        }
        k = k + 1;
    }
    proof {
        if k < y@.len() {
            assert(below_at(x@, y@, k as int));
        } else {
            assert forall|j: int| !below_at(x@, y@, j) by {}
        }
    }
    k < y.len()
}

/// Tells whether two texts are the same.
pub fn is_text_eq(a: &str, b: &str) -> (same: bool)
    ensures
        same == (a@ == b@),
{
    proof {
        lemma_text_lt_total(a@, b@);
        lemma_text_lt_irreflexive(a@);
    }
    !is_text_lt(a, b) && !is_text_lt(b, a)
}

/// The texts of a list of strings.
pub open spec fn texts(list: Seq<String>) -> Seq<Seq<char>> {
    Seq::new(list.len(), |i: int| list[i]@)
}

/// No text comes before one that stands to its left.
pub open spec fn sorted(list: Seq<Seq<char>>) -> bool {
    forall|i: int, j: int| 0 <= i < j < list.len() ==> !text_lt(#[trigger] list[j], #[trigger] list[i])
}

/// Sorts strings.
pub fn sort_texts(list: Vec<String>) -> (result: Vec<String>)
    ensures
        sorted(texts(result@)),
        texts(result@).to_multiset() == texts(list@).to_multiset(),
{
    let mut result: Vec<String> = Vec::new();
    let mut n: usize = 0;
    proof {
        assert(texts(result@) =~= texts(list@).take(0));
    }
    while n < list.len()
        invariant
            n <= list@.len(),
            sorted(texts(result@)),
            texts(result@).to_multiset() == texts(list@).take(n as int).to_multiset(),
            result@.len() == n,
        decreases list@.len() - n,
    {
        let item = list[n].clone();
        let mut at: usize = result.len();
        while at > 0 && is_text_lt(item.as_str(), result[at - 1].as_str())
            invariant
                at <= result@.len(),
                sorted(texts(result@)),
                forall|i: int| at <= i < result@.len() ==> text_lt(item@, #[trigger] result@[i]@),
            decreases at,
        {
            at = at - 1;
        }
        let ghost before = texts(result@);
        result.insert(at, item);
        proof {
            let after = texts(result@);
            assert(after =~= before.insert(at as int, item@));
            assert forall|i: int, j: int| 0 <= i < j < after.len() implies !text_lt(
                #[trigger] after[j],
                #[trigger] after[i],
            ) by {
                lemma_text_lt_irreflexive(item@);
                if i < at && j == at {
                    if at >= 1 && i < at - 1 {
                        assert(!text_lt(before[at - 1], before[i]));
                        lemma_text_lt_total(before[at - 1], before[i]);
                        if text_lt(item@, before[i]) && before[at - 1] != before[i] {
                            lemma_text_lt_transitive(item@, before[i], before[at - 1]);
                        }
                    }
                } else if i == at {
                    assert(before[j - 1] == result@[j]@);
                    if text_lt(before[j - 1], item@) {
                        lemma_text_lt_transitive(item@, before[j - 1], item@);
                    }
                } else if i < at && j > at {
                    assert(after[j] == before[j - 1] && after[i] == before[i]);
                } else if j < at {
                    assert(after[j] == before[j] && after[i] == before[i]);
                } else {
                    assert(after[j] == before[j - 1] && after[i] == before[i - 1]);
                }
            }
            after.to_multiset_ensures();
            assert(after.remove(at as int) =~= before);
            assert(after[at as int] == item@ && after.contains(item@));
            assert(after.to_multiset() =~= before.to_multiset().insert(item@));
            let prefix = texts(list@).take(n as int);
            prefix.to_multiset_ensures();
            assert(texts(list@).take(n + 1) =~= prefix.push(item@));
        }
        n = n + 1;
    }
    proof {
        assert(texts(list@).take(n as int) =~= texts(list@));
    }
    result
}

/// Two sorted lists of the same texts are the same list.
pub proof fn law_sorting_has_one_result(a: Seq<Seq<char>>, b: Seq<Seq<char>>)
    requires
        sorted(a),
        sorted(b),
        a.to_multiset() == b.to_multiset(),
    ensures
        a == b,
    decreases a.len(),
{
    a.to_multiset_ensures();
    b.to_multiset_ensures();
    assert(a.len() == a.to_multiset().len() && b.len() == b.to_multiset().len());
    if a.len() == 0 {
        assert(a =~= b);
    } else {
        let (x, y) = (a.last(), b.last());
        assert(a.contains(y)) by {
            assert(b[b.len() - 1] == y);
            assert(b.contains(y));
            assert(b.to_multiset().count(y) > 0);
        }
        assert(b.contains(x)) by {
            assert(a[a.len() - 1] == x);
            assert(a.contains(x));
            assert(a.to_multiset().count(x) > 0);
        }
        let i = choose|i: int| 0 <= i < a.len() && a[i] == y;
        let j = choose|j: int| 0 <= j < b.len() && b[j] == x;
        lemma_text_lt_total(x, y);
        assert(i < a.len() - 1 ==> !text_lt(a[a.len() - 1], a[i]));
        assert(j < b.len() - 1 ==> !text_lt(b[b.len() - 1], b[j]));
        assert(x == y);
        assert(a.drop_last() =~= a.remove(a.len() - 1));
        assert(b.drop_last() =~= b.remove(b.len() - 1));
        assert(sorted(a.drop_last())) by {
            assert forall|i: int, j: int| 0 <= i < j < a.drop_last().len() implies !text_lt(
                #[trigger] a.drop_last()[j],
                #[trigger] a.drop_last()[i],
            ) by {
                assert(!text_lt(a[j], a[i]));
            }
        }
        assert(sorted(b.drop_last())) by {
            assert forall|i: int, j: int| 0 <= i < j < b.drop_last().len() implies !text_lt(
                #[trigger] b.drop_last()[j],
                #[trigger] b.drop_last()[i],
            ) by {
                assert(!text_lt(b[j], b[i]));
            }
        }
        law_sorting_has_one_result(a.drop_last(), b.drop_last());
        assert(a =~= a.drop_last().push(x));
        assert(b =~= b.drop_last().push(y));
    }
}

} // verus!
