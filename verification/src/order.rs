//! Byte-lexicographic order (the order of `String`'s `Ord`, which compares
//! UTF-8 bytes), an in-place stable insertion sort by that order, and
//! removal of adjacent repeats.

use vstd::prelude::*;
use vstd::utf8::encode_utf8;

verus! {

broadcast use vstd::seq_lib::group_to_multiset_ensures, vstd::seq_lib::to_multiset_remove,
    vstd::seq_lib::to_multiset_insert;

/// Lexicographic "strictly less" on byte sequences.
pub open spec fn seq_lt(a: Seq<u8>, b: Seq<u8>) -> bool
    decreases a.len(),
{
    if a.len() == 0 {
        b.len() > 0
    } else if b.len() == 0 {
        false
    } else if a[0] < b[0] {
        true
    } else if a[0] > b[0] {
        false
    } else {
        seq_lt(a.drop_first(), b.drop_first())
    }
}

pub proof fn lemma_lt_irreflexive(a: Seq<u8>)
    ensures
        !seq_lt(a, a),
    decreases a.len(),
{
    if a.len() > 0 {
        lemma_lt_irreflexive(a.drop_first());
    }
}

pub proof fn lemma_lt_asymmetric(a: Seq<u8>, b: Seq<u8>)
    ensures
        seq_lt(a, b) ==> !seq_lt(b, a),
    decreases a.len(),
{
    if a.len() > 0 && b.len() > 0 && a[0] == b[0] {
        lemma_lt_asymmetric(a.drop_first(), b.drop_first());
    }
}

pub proof fn lemma_lt_transitive(a: Seq<u8>, b: Seq<u8>, c: Seq<u8>)
    ensures
        seq_lt(a, b) && seq_lt(b, c) ==> seq_lt(a, c),
    decreases a.len(),
{
    if a.len() > 0 && b.len() > 0 && c.len() > 0 {
        lemma_lt_transitive(a.drop_first(), b.drop_first(), c.drop_first());
    }
}

pub proof fn lemma_lt_total(a: Seq<u8>, b: Seq<u8>)
    ensures
        seq_lt(a, b) || a == b || seq_lt(b, a),
    decreases a.len(),
{
    if a.len() > 0 && b.len() > 0 {
        lemma_lt_total(a.drop_first(), b.drop_first());
        if a[0] == b[0] && a.drop_first() == b.drop_first() {
            assert(a =~= seq![a[0]] + a.drop_first());
            assert(b =~= seq![b[0]] + b.drop_first());
        }
    } else if a.len() == 0 && b.len() == 0 {
        assert(a =~= b);
    }
}

/// Lexicographic comparison of two byte slices.
pub fn bytes_less(a: &[u8], b: &[u8]) -> (r: bool)
    ensures
        r == seq_lt(a@, b@),
{
    let mut i: usize = 0;
    proof {
        assert(a@.subrange(0, a@.len() as int) =~= a@);
        assert(b@.subrange(0, b@.len() as int) =~= b@);
    }
    while i < a.len() && i < b.len() && a[i] == b[i]
        invariant
            i <= a@.len(),
            i <= b@.len(),
            seq_lt(a@, b@) == seq_lt(a@.subrange(i as int, a@.len() as int), b@.subrange(i as int, b@.len() as int)),
        decreases a@.len() - i,
    {
        proof {
            let sa = a@.subrange(i as int, a@.len() as int);
            let sb = b@.subrange(i as int, b@.len() as int);
            assert(sa.drop_first() =~= a@.subrange(i + 1, a@.len() as int));
            assert(sb.drop_first() =~= b@.subrange(i + 1, b@.len() as int));
        }
        i = i + 1;
    }
    if i == a.len() {
        i < b.len()
    } else if i == b.len() {
        false
    } else {
        a[i] < b[i]
    }
}

/// Values that are ordered by a byte string.
pub trait SortKey {
    spec fn key(&self) -> Seq<u8>;

    fn key_bytes(&self) -> (bytes: &[u8])
        ensures
            bytes@ == self.key(),
    ;
}

impl SortKey for String {
    open spec fn key(&self) -> Seq<u8> {
        encode_utf8(self@)
    }

    fn key_bytes(&self) -> (bytes: &[u8]) {
        self.as_str().as_bytes()
    }
}

/// Some element of `s` has key `k`.
pub open spec fn has_key<T: SortKey>(s: Seq<T>, k: Seq<u8>) -> bool {
    exists|j: int| 0 <= j < s.len() && #[trigger] s[j].key() == k
}

/// Non-decreasing by key.
pub open spec fn sorted_by_key<T: SortKey>(s: Seq<T>) -> bool {
    forall|i: int, j: int| 0 <= i < j < s.len() ==> !seq_lt(#[trigger] s[j].key(), #[trigger] s[i].key())
}

/// Strictly increasing by key (sorted, no two equal keys).
pub open spec fn strictly_sorted_by_key<T: SortKey>(s: Seq<T>) -> bool {
    forall|i: int, j: int| 0 <= i < j < s.len() ==> seq_lt(#[trigger] s[i].key(), #[trigger] s[j].key())
}

/// Sorts `v` by key, keeping the order of equal keys (an insertion sort).
pub fn sort_by_key<T: SortKey>(v: &mut Vec<T>)
    ensures
        final(v)@.to_multiset() == old(v)@.to_multiset(),
        final(v)@.len() == old(v)@.len(),
        sorted_by_key(final(v)@),
        sorted_by_key(old(v)@) ==> final(v)@ == old(v)@,
{
    let n = v.len();
    if n < 2 {
        return;
    }
    let mut i: usize = 1;
    while i < n
        invariant
            n == v@.len(),
            1 <= i <= n,
            v@.to_multiset() == old(v)@.to_multiset(),
            sorted_by_key(v@.take(i as int)),
            sorted_by_key(old(v)@) ==> v@ == old(v)@,
        decreases n - i,
    {
        let ghost before = v@;
        let x = v.remove(i);
        let mut j: usize = i;
        while j > 0 && bytes_less(x.key_bytes(), v[j - 1].key_bytes())
            invariant
                v@ == before.remove(i as int),
                j <= i < n,
                v@.len() == n - 1,
                x == before[i as int],
                forall|k: int| j <= k < i ==> seq_lt(x.key(), #[trigger] v@[k].key()),
                (sorted_by_key(old(v)@) && before == old(v)@) ==> j == i,
                before.len() == n,
            decreases j,
        {
            proof {
                if sorted_by_key(old(v)@) && before == old(v)@ {
                    assert(v@[j - 1] == before[i - 1]);
                    assert(!seq_lt(before[i as int].key(), before[i - 1].key()));
                }
            }
            j = j - 1;
        }
        let ghost removed = v@;
        v.insert(j, x);
        proof {
            let s = v@;
            assert(s == removed.insert(j as int, x));
            if sorted_by_key(old(v)@) && before == old(v)@ {
                assert(s =~= before);
            }
            assert forall|a: int, b: int| 0 <= a < b < i + 1 implies !seq_lt(
                #[trigger] s.take(i + 1)[b].key(),
                #[trigger] s.take(i + 1)[a].key(),
            ) by {
                assert(s.take(i + 1)[a] == s[a]);
                assert(s.take(i + 1)[b] == s[b]);
                let ka = s[a].key();
                let kb = s[b].key();
                if b < j {
                    assert(s[a] == before.take(i as int)[a]);
                    assert(s[b] == before.take(i as int)[b]);
                } else if b == j {
                    assert(s[a] == before.take(i as int)[a]);
                    assert(j > 0);
                    let kp = removed[j - 1].key();
                    assert(removed[j - 1] == before.take(i as int)[j - 1]);
                    assert(!seq_lt(x.key(), kp));
                    if a < j - 1 {
                        assert(!seq_lt(kp, ka));
                        lemma_lt_total(ka, kp);
                        lemma_lt_transitive(kb, ka, kp);
                    }
                } else if a == j {
                    assert(s[b] == removed[b - 1]);
                    assert(seq_lt(x.key(), removed[b - 1].key()));
                    lemma_lt_asymmetric(x.key(), kb);
                } else if a < j {
                    assert(s[a] == before.take(i as int)[a]);
                    assert(s[b] == before.take(i as int)[b - 1]);
                } else {
                    assert(s[a] == before.take(i as int)[a - 1]);
                    assert(s[b] == before.take(i as int)[b - 1]);
                }
            }
        }
        i = i + 1;
    }
    proof {
        assert(v@.take(n as int) =~= v@);
    }
}

/// Removes each element whose key equals that of the element before it.
pub fn dedup_sorted<T: SortKey>(v: &mut Vec<T>)
    requires
        sorted_by_key(old(v)@),
    ensures
        strictly_sorted_by_key(final(v)@),
        forall|j: int| 0 <= j < final(v)@.len() ==> old(v)@.contains(#[trigger] final(v)@[j]),
        forall|i: int| 0 <= i < old(v)@.len() ==> has_key(final(v)@, #[trigger] old(v)@[i].key()),
{
    let ghost original = v@;
    let n = v.len();
    let mut kept: Vec<T> = Vec::new();
    let mut k: usize = 0;
    while k < n
        invariant
            n == original.len(),
            k <= n,
            sorted_by_key(original),
            v@ == original.subrange(k as int, n as int),
            strictly_sorted_by_key(kept@),
            k > 0 ==> kept@.len() > 0 && kept@.last().key() == original[k - 1].key(),
            k == 0 ==> kept@.len() == 0,
            forall|j: int| 0 <= j < kept@.len() ==> original.contains(#[trigger] kept@[j]),
            forall|i: int| 0 <= i < k ==> has_key(kept@, #[trigger] original[i].key()),
        decreases n - k,
    {
        let ghost old_kept = kept@;
        let x = v.remove(0);
        assert(x == original[k as int]);
        let keep = if kept.len() == 0 {
            true
        } else {
            let last = kept.len() - 1;
            !bytes_equal_keys(kept[last].key_bytes(), x.key_bytes())
        };
        if keep {
            proof {
                if kept@.len() > 0 {
                    let lk = kept@.last().key();
                    assert(lk != x.key());
                    assert(original[k as int] == x);
                    assert(!seq_lt(original[k as int].key(), original[k - 1].key()));
                    lemma_lt_total(lk, x.key());
                    assert forall|a: int, b: int| 0 <= a < b < kept@.len() + 1 implies seq_lt(
                        #[trigger] kept@.push(x)[a].key(),
                        #[trigger] kept@.push(x)[b].key(),
                    ) by {
                        assert(kept@.push(x)[a] == kept@[a]);
                        if b < kept@.len() {
                            assert(kept@.push(x)[b] == kept@[b]);
                        }
                        if b == kept@.len() && a < kept@.len() - 1 {
                            assert(seq_lt(kept@[a].key(), lk));
                            lemma_lt_transitive(kept@[a].key(), lk, x.key());
                        }
                    }
                }
            }
            kept.push(x);
        }
        proof {
            assert forall|i: int| 0 <= i < k + 1 implies has_key(kept@, #[trigger] original[i].key()) by {
                if i == k {
                    assert(kept@[kept@.len() - 1].key() == original[i].key());
                } else {
                    let j = choose|j: int| 0 <= j < old_kept.len() && old_kept[j].key() == original[i].key();
                    assert(kept@[j] == old_kept[j]);
                }
            }
            assert(v@ =~= original.subrange(k + 1, n as int));
        }
        k = k + 1;
    }
    *v = kept;
}

fn bytes_equal_keys(a: &[u8], b: &[u8]) -> (r: bool)
    ensures
        r == (a@ == b@),
{
    crate::text::bytes_equal(a, b)
}

/// Texts in strictly increasing order of their UTF-8 bytes, as `String`'s
/// `Ord` compares them.
pub open spec fn texts_strictly_sorted(s: Seq<Seq<char>>) -> bool {
    forall|i: int, j: int| 0 <= i < j < s.len() ==> seq_lt(encode_utf8(#[trigger] s[i]), encode_utf8(#[trigger] s[j]))
}

/// Two strictly sorted lists of texts that hold the same texts are equal: a
/// set of texts has one sorted list.
pub proof fn lemma_sorted_texts_unique(a: Seq<Seq<char>>, b: Seq<Seq<char>>)
    requires
        texts_strictly_sorted(a),
        texts_strictly_sorted(b),
        forall|x: Seq<char>| a.contains(x) <==> b.contains(x),
    ensures
        a == b,
    decreases a.len(),
{
    if a.len() == 0 {
        if b.len() > 0 {
            assert(b.contains(b[0]));
        }
        assert(b =~= a);
    } else {
        assert(a.contains(a[0]));
        let k = choose|k: int| 0 <= k < b.len() && b[k] == a[0];
        assert(b.contains(b[0]));
        let m = choose|m: int| 0 <= m < a.len() && a[m] == b[0];
        if k > 0 && m > 0 {
            assert(seq_lt(encode_utf8(b[0]), encode_utf8(b[k])));
            assert(seq_lt(encode_utf8(a[0]), encode_utf8(a[m])));
            lemma_lt_asymmetric(encode_utf8(a[0]), encode_utf8(b[0]));
        }
        assert(a[0] == b[0]) by {
            if m > 0 {
                assert(k == 0);
            }
        }
        let a2 = a.drop_first();
        let b2 = b.drop_first();
        assert forall|x: Seq<char>| a2.contains(x) implies b2.contains(x) by {
            let i = choose|i: int| 0 <= i < a2.len() && a2[i] == x;
            assert(a[i + 1] == x);
            assert(a.contains(x));
            let j = choose|j: int| 0 <= j < b.len() && b[j] == x;
            if j == 0 {
                assert(seq_lt(encode_utf8(a[0]), encode_utf8(a[i + 1])));
                lemma_lt_irreflexive(encode_utf8(x));
            }
            assert(b2[j - 1] == x);
        }
        assert forall|x: Seq<char>| b2.contains(x) implies a2.contains(x) by {
            let i = choose|i: int| 0 <= i < b2.len() && b2[i] == x;
            assert(b[i + 1] == x);
            assert(b.contains(x));
            let j = choose|j: int| 0 <= j < a.len() && a[j] == x;
            if j == 0 {
                assert(seq_lt(encode_utf8(b[0]), encode_utf8(b[i + 1])));
                lemma_lt_irreflexive(encode_utf8(x));
            }
            assert(a2[j - 1] == x);
        }
        assert(texts_strictly_sorted(a2)) by {
            assert forall|i: int, j: int| 0 <= i < j < a2.len() implies seq_lt(encode_utf8(#[trigger] a2[i]), encode_utf8(#[trigger] a2[j])) by {
                assert(a2[i] == a[i + 1] && a2[j] == a[j + 1]);
            }
        }
        assert(texts_strictly_sorted(b2)) by {
            assert forall|i: int, j: int| 0 <= i < j < b2.len() implies seq_lt(encode_utf8(#[trigger] b2[i]), encode_utf8(#[trigger] b2[j])) by {
                assert(b2[i] == b[i + 1] && b2[j] == b[j + 1]);
            }
        }
        lemma_sorted_texts_unique(a2, b2);
        assert(a =~= seq![a[0]] + a2);
        assert(b =~= seq![b[0]] + b2);
    }
}

/// The sorted list of the texts for which `member` holds, where there are
/// finitely many: a set of texts has one sorted list.
pub open spec fn sorted_texts(member: spec_fn(Seq<char>) -> bool) -> Seq<Seq<char>> {
    choose|s: Seq<Seq<char>>| texts_strictly_sorted(s) && forall|x: Seq<char>| s.contains(x) <==> member(x)
}

/// A strictly sorted list that holds exactly the texts of `member` is
/// `sorted_texts(member)`.
pub proof fn lemma_sorted_texts_is(s: Seq<Seq<char>>, member: spec_fn(Seq<char>) -> bool)
    requires
        texts_strictly_sorted(s),
        forall|x: Seq<char>| s.contains(x) <==> member(x),
    ensures
        sorted_texts(member) == s,
{
    let chosen = sorted_texts(member);
    assert(texts_strictly_sorted(chosen) && forall|x: Seq<char>| chosen.contains(x) <==> member(x));
    lemma_sorted_texts_unique(s, chosen);
}

/// Sorts texts by their UTF-8 bytes (as `Vec<String>::sort` does) and drops
/// repeats (as `dedup` then does): the result is strictly sorted and holds
/// the same texts.
pub fn sort_dedup_texts(v: &mut Vec<String>)
    ensures
        texts_strictly_sorted(final(v).deep_view()),
        forall|x: Seq<char>| final(v).deep_view().contains(x) <==> old(v).deep_view().contains(x),
{
    let ghost collected = v@;
    sort_by_key(v);
    let ghost sorted = v@;
    dedup_sorted(v);
    proof {
        let s = v.deep_view();
        assert forall|a: int, b: int| 0 <= a < b < s.len() implies seq_lt(encode_utf8(#[trigger] s[a]), encode_utf8(#[trigger] s[b])) by {
            assert(seq_lt(v@[a].key(), v@[b].key()));
        }
        sorted.to_multiset_ensures();
        collected.to_multiset_ensures();
        assert forall|x: Seq<char>| s.contains(x) <==> old(v).deep_view().contains(x) by {
            if s.contains(x) {
                let j = choose|j: int| 0 <= j < s.len() && s[j] == x;
                assert(sorted.contains(v@[j]));
                let k = choose|k: int| 0 <= k < sorted.len() && sorted[k] == v@[j];
                assert(sorted.to_multiset().count(sorted[k]) > 0);
                assert(collected.contains(sorted[k]));
                let c = choose|c: int| 0 <= c < collected.len() && collected[c] == sorted[k];
                assert(old(v).deep_view()[c] == x);
            }
            if old(v).deep_view().contains(x) {
                let c = choose|c: int| 0 <= c < collected.len() && old(v).deep_view()[c] == x;
                assert(collected.to_multiset().count(collected[c]) > 0);
                assert(sorted.contains(collected[c]));
                let k = choose|k: int| 0 <= k < sorted.len() && sorted[k] == collected[c];
                assert(has_key(v@, sorted[k].key()));
                let j = choose|j: int| 0 <= j < v@.len() && #[trigger] v@[j].key() == sorted[k].key();
                crate::text::lemma_utf8_injective(v@[j]@, sorted[k]@);
                assert(s[j] == x);
            }
        }
    }
}

/// An element of a concatenation is an element of one of its parts.
pub proof fn lemma_concat_contains<A>(a: Seq<A>, b: Seq<A>, x: A)
    ensures
        (a + b).contains(x) <==> (a.contains(x) || b.contains(x)),
{
    if (a + b).contains(x) {
        let j = choose|j: int| 0 <= j < (a + b).len() && (a + b)[j] == x;
        if j < a.len() {
            assert(a[j] == x);
        } else {
            assert(b[j - a.len()] == x);
        }
    }
    if a.contains(x) {
        let j = choose|j: int| 0 <= j < a.len() && a[j] == x;
        assert((a + b)[j] == x);
    }
    if b.contains(x) {
        let j = choose|j: int| 0 <= j < b.len() && b[j] == x;
        assert((a + b)[a.len() + j] == x);
    }
}

/// Appends copies of the texts of `more`.
pub fn extend_texts(v: &mut Vec<String>, more: &[String])
    ensures
        final(v).deep_view() == old(v).deep_view() + more.deep_view(),
{
    let ghost start = v.deep_view();
    let mut k: usize = 0;
    while k < more.len()
        invariant
            k <= more@.len(),
            v.deep_view() == start + more.deep_view().take(k as int),
        decreases more@.len() - k,
    {
        let ghost before = v.deep_view();
        let item = more[k].clone();
        v.push(item);
        proof {
            assert(v.deep_view() =~= before.push(more@[k as int]@));
            assert(more.deep_view().take(k + 1) =~= more.deep_view().take(k as int).push(more@[k as int]@));
        }
        k = k + 1;
        proof {
            assert(v.deep_view() =~= start + more.deep_view().take(k as int));
        }
    }
    proof {
        assert(more.deep_view().take(more@.len() as int) =~= more.deep_view());
    }
}

} // verus!
