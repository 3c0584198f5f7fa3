//! The order of labels.
//!
//! Labels are ordered as strings are: lexicographically by the bytes of
//! their UTF-8 encoding.

use vstd::prelude::*;
use vstd::utf8::encode_utf8;

verus! {

/// Whether `a` comes strictly before `b` in lexicographic order: at the
/// first position where they differ `a` has the smaller byte, or `a` ends
/// there and `b` goes on.
pub open spec fn bytes_less(a: Seq<u8>, b: Seq<u8>) -> bool {
    exists|k: int| #[trigger] differ_at(a, b, k) && (k == a.len() || a[k] < b[k])
}

/// Whether `k` is the first position at which `a` and `b` differ, where a
/// sequence that has ended differs from one that goes on.
pub open spec fn differ_at(a: Seq<u8>, b: Seq<u8>, k: int) -> bool {
    &&& 0 <= k <= a.len()
    &&& k < b.len()
    &&& forall|i: int| 0 <= i < k ==> a[i] == b[i]
    &&& k < a.len() ==> a[k] != b[k]
}

/// Whether the label `a` is ordered strictly before the label `b`.
pub open spec fn label_less(a: Seq<char>, b: Seq<char>) -> bool {
    bytes_less(encode_utf8(a), encode_utf8(b))
}

/// No sequence of bytes comes before itself.
pub proof fn lemma_bytes_less_irreflexive(a: Seq<u8>)
    ensures
        !bytes_less(a, a),
{
}

/// The order on byte sequences is transitive.
pub proof fn lemma_bytes_less_transitive(a: Seq<u8>, b: Seq<u8>, c: Seq<u8>)
    requires
        bytes_less(a, b),
        bytes_less(b, c),
    ensures
        bytes_less(a, c),
{
    let k1 = choose|k: int| #[trigger] differ_at(a, b, k) && (k == a.len() || a[k] < b[k]);
    let k2 = choose|k: int| #[trigger] differ_at(b, c, k) && (k == b.len() || b[k] < c[k]);
    let k = if k1 <= k2 {
        k1
    } else {
        k2
    };
    assert(differ_at(a, c, k));
}

/// No label comes before itself.
pub proof fn lemma_label_less_irreflexive(a: Seq<char>)
    ensures
        !label_less(a, a),
{
    lemma_bytes_less_irreflexive(encode_utf8(a));
}

/// The order on labels is transitive.
pub proof fn lemma_label_less_transitive(a: Seq<char>, b: Seq<char>, c: Seq<char>)
    requires
        label_less(a, b),
        label_less(b, c),
    ensures
        label_less(a, c),
{
    lemma_bytes_less_transitive(encode_utf8(a), encode_utf8(b), encode_utf8(c));
}

/// Of two different labels one comes before the other.
pub proof fn lemma_label_less_total(a: Seq<char>, b: Seq<char>)
    ensures
        a == b || label_less(a, b) || label_less(b, a),
{
    let x = encode_utf8(a);
    let y = encode_utf8(b);
    if a != b {
        vstd::utf8::encode_utf8_decode_utf8(a);
        vstd::utf8::encode_utf8_decode_utf8(b);
        assert(x != y);
        lemma_first_difference(x, y, 0);
    }
}

/// Two byte sequences that agree before position `from` and are not equal
/// are ordered one way or the other.
proof fn lemma_first_difference(x: Seq<u8>, y: Seq<u8>, from: int)
    requires
        0 <= from <= x.len(),
        from <= y.len(),
        forall|i: int| 0 <= i < from ==> x[i] == y[i],
        x != y,
    ensures
        bytes_less(x, y) || bytes_less(y, x),
    decreases x.len() - from,
{
    if from == x.len() {
        if from == y.len() {
            assert(x =~= y);
        } else {
            assert(differ_at(x, y, from));
        }
    } else if from == y.len() {
        assert(differ_at(y, x, from));
    } else if x[from] != y[from] {
        assert(differ_at(x, y, from));
        assert(differ_at(y, x, from));
    } else {
        lemma_first_difference(x, y, from + 1);
    }
}

/// How one label stands to another in the order of labels.
#[derive(Clone, Copy, Debug, PartialEq, Eq)]
pub enum LabelOrder {
    Before,
    Same,
    After,
}

/// Compares two labels byte by byte.
pub fn compare_labels(a: &str, b: &str) -> (r: LabelOrder)
    ensures
        r == LabelOrder::Before <==> label_less(a@, b@),
        r == LabelOrder::Same <==> a@ == b@,
        r == LabelOrder::After <==> label_less(b@, a@),
{
    let x = a.as_bytes();
    let y = b.as_bytes();
    proof {
        lemma_label_less_irreflexive(a@);
        if label_less(a@, b@) && label_less(b@, a@) {
            lemma_label_less_transitive(a@, b@, a@);
        }
    }
    let mut i: usize = 0;
    while i < x.len() && i < y.len()
        invariant
            0 <= i <= x.len(),
            i <= y.len(),
            x@ == encode_utf8(a@),
            y@ == encode_utf8(b@),
            forall|j: int| 0 <= j < i ==> x@[j] == y@[j],
        decreases x.len() - i,
    {
        if x[i] < y[i] {
            assert(differ_at(x@, y@, i as int));
            return LabelOrder::Before;
        }
        if x[i] > y[i] {
            assert(differ_at(y@, x@, i as int));
            return LabelOrder::After;
        }
        i += 1;
    }
    if i < y.len() {
        assert(differ_at(x@, y@, i as int));
        LabelOrder::Before
    } else if i < x.len() {
        assert(differ_at(y@, x@, i as int));
        LabelOrder::After
    } else {
        proof {
            assert(x@ =~= y@);
            vstd::utf8::encode_utf8_decode_utf8(a@);
            vstd::utf8::encode_utf8_decode_utf8(b@);
        }
        LabelOrder::Same
    }
}

/// Whether every label of `keys` is ordered strictly before all those that
/// follow it.
pub open spec fn sorted(keys: Seq<Seq<char>>) -> bool {
    forall|i: int, j: int|
        0 <= i < j < keys.len() ==> label_less(#[trigger] keys[i], #[trigger] keys[j])
}

/// A sorted sequence of labels holds no label twice.
pub proof fn lemma_sorted_no_duplicates(keys: Seq<Seq<char>>)
    requires
        sorted(keys),
    ensures
        keys.no_duplicates(),
{
    assert forall|i: int, j: int|
        0 <= i < keys.len() && 0 <= j < keys.len() && i != j implies keys[i] != keys[j] by {
        lemma_label_less_irreflexive(keys[i]);
        if i < j {
            assert(label_less(keys[i], keys[j]));
        } else {
            assert(label_less(keys[j], keys[i]));
        }
    }
}

/// In a sorted sequence each label stands at the position that
/// `index_of` gives for it.
pub proof fn lemma_sorted_index_of(keys: Seq<Seq<char>>, i: int)
    requires
        sorted(keys),
        0 <= i < keys.len(),
    ensures
        keys.contains(keys[i]),
        keys.index_of(keys[i]) == i,
{
    lemma_sorted_no_duplicates(keys);
    assert(keys.contains(keys[i]));
    keys.index_of_first_ensures(keys[i]);
    let j = keys.index_of(keys[i]);
    assert(0 <= j < keys.len() && keys[j] == keys[i]);
}

/// The order of a map's labels depends on the set of labels alone: two
/// sorted sequences that hold the same labels are the same sequence.
pub proof fn lemma_sorted_unique(a: Seq<Seq<char>>, b: Seq<Seq<char>>)
    requires
        sorted(a),
        sorted(b),
        forall|k: Seq<char>| a.contains(k) <==> b.contains(k),
    ensures
        a == b,
    decreases a.len(),
{
    if a.len() == 0 {
        if b.len() > 0 {
            assert(b.contains(b[0]));
        }
        assert(a =~= b);
    } else {
        assert(a.contains(a[0]));
        assert(b.contains(a[0]));
        let j = choose|j: int| 0 <= j < b.len() && b[j] == a[0];
        assert(b.contains(b[0]));
        assert(a.contains(b[0]));
        let i = choose|i: int| 0 <= i < a.len() && a[i] == b[0];
        if i > 0 && j > 0 {
            assert(label_less(a[0], a[i]));
            assert(label_less(b[0], b[j]));
            lemma_label_less_transitive(a[0], b[0], a[0]);
            lemma_label_less_irreflexive(a[0]);
        }
        assert(a[0] == b[0]);
        let a1 = a.drop_first();
        let b1 = b.drop_first();
        assert(sorted(a1)) by {
            assert forall|p: int, q: int| 0 <= p < q < a1.len() implies label_less(
                #[trigger] a1[p],
                #[trigger] a1[q],
            ) by {
                assert(label_less(a[p + 1], a[q + 1]));
            }
        }
        assert(sorted(b1)) by {
            assert forall|p: int, q: int| 0 <= p < q < b1.len() implies label_less(
                #[trigger] b1[p],
                #[trigger] b1[q],
            ) by {
                assert(label_less(b[p + 1], b[q + 1]));
            }
        }
        lemma_label_less_irreflexive(a[0]);
        assert forall|k: Seq<char>| a1.contains(k) <==> b1.contains(k) by {
            if a1.contains(k) {
                let p = choose|p: int| 0 <= p < a1.len() && a1[p] == k;
                assert(a[p + 1] == k);
                assert(label_less(a[0], a[p + 1]));
                assert(a.contains(k));
                let q = choose|q: int| 0 <= q < b.len() && b[q] == k;
                assert(q != 0);
                assert(b1[q - 1] == k);
            }
            if b1.contains(k) {
                let p = choose|p: int| 0 <= p < b1.len() && b1[p] == k;
                assert(b[p + 1] == k);
                assert(label_less(b[0], b[p + 1]));
                assert(b.contains(k));
                let q = choose|q: int| 0 <= q < a.len() && a[q] == k;
                assert(q != 0);
                assert(a1[q - 1] == k);
            }
        }
        lemma_sorted_unique(a1, b1);
        assert(a =~= seq![a[0]] + a1);
        assert(b =~= seq![b[0]] + b1);
    }
}

} // verus!
