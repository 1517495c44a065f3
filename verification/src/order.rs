//! Orders on ids and texts, and sorting by them.
use vstd::prelude::*;
use vstd::relations::{sorted_by, total_ordering};

use crate::text::texts_of;

verus! {

broadcast use vstd::seq_lib::group_to_multiset_ensures;

/// The order of ids.
pub open spec fn id_leq(a: u128, b: u128) -> bool {
    a <= b
}

/// The lexicographic order of texts, by character code: the order of
/// `String` comparison.
pub open spec fn text_leq(a: Seq<char>, b: Seq<char>) -> bool
    decreases a.len(),
{
    if a.len() == 0 {
        true
    } else if b.len() == 0 {
        false
    } else if a[0] != b[0] {
        (a[0] as u32) < (b[0] as u32)
    } else {
        text_leq(a.drop_first(), b.drop_first())
    }
}

pub proof fn lemma_id_leq_total()
    ensures
        total_ordering(|a: u128, b: u128| id_leq(a, b)),
{
}

proof fn lemma_text_leq_reflexive(a: Seq<char>)
    ensures
        text_leq(a, a),
    decreases a.len(),
{
    if a.len() > 0 {
        lemma_text_leq_reflexive(a.drop_first());
    }
}

proof fn lemma_char_code_injective(x: char, y: char)
    requires
        x as u32 == y as u32,
    ensures
        x == y,
{
}

proof fn lemma_text_leq_antisymmetric(a: Seq<char>, b: Seq<char>)
    requires
        text_leq(a, b),
        text_leq(b, a),
    ensures
        a == b,
    decreases a.len(),
{
    if a.len() == 0 {
        assert(b.len() == 0 || text_leq(b, a) == false);
        assert(b =~= a);
    } else {
        assert(b.len() > 0);
        if a[0] != b[0] {
            assert(false);
        } else {
            lemma_text_leq_antisymmetric(a.drop_first(), b.drop_first());
            assert(a =~= seq![a[0]] + a.drop_first());
            assert(b =~= seq![b[0]] + b.drop_first());
        }
    }
}

proof fn lemma_text_leq_transitive(a: Seq<char>, b: Seq<char>, c: Seq<char>)
    requires
        text_leq(a, b),
        text_leq(b, c),
    ensures
        text_leq(a, c),
    decreases a.len(),
{
    if a.len() == 0 {
    } else {
        assert(b.len() > 0);
        assert(c.len() > 0);
        if a[0] == b[0] && b[0] == c[0] {
            lemma_text_leq_transitive(a.drop_first(), b.drop_first(), c.drop_first());
        } else if a[0] == c[0] {
            // a[0] < b[0] <= ... would need c[0] >= b[0] > a[0]
            if a[0] != b[0] && b[0] != c[0] {
                assert((a[0] as u32) < (b[0] as u32));
                assert((b[0] as u32) < (c[0] as u32));
            }
        }
    }
}

proof fn lemma_text_leq_connected(a: Seq<char>, b: Seq<char>)
    ensures
        text_leq(a, b) || text_leq(b, a),
    decreases a.len(),
{
    if a.len() > 0 && b.len() > 0 {
        if a[0] == b[0] {
            lemma_text_leq_connected(a.drop_first(), b.drop_first());
        } else if (a[0] as u32) == (b[0] as u32) {
            lemma_char_code_injective(a[0], b[0]);
        }
    }
}

pub proof fn lemma_text_leq_total()
    ensures
        total_ordering(|a: Seq<char>, b: Seq<char>| text_leq(a, b)),
{
    assert forall|a: Seq<char>| text_leq(a, a) by {
        lemma_text_leq_reflexive(a);
    }
    assert forall|a: Seq<char>, b: Seq<char>| text_leq(a, b) && text_leq(b, a) implies a == b by {
        lemma_text_leq_antisymmetric(a, b);
    }
    assert forall|a: Seq<char>, b: Seq<char>, c: Seq<char>| text_leq(a, b) && text_leq(b, c) implies text_leq(a, c) by {
        lemma_text_leq_transitive(a, b, c);
    }
    assert forall|a: Seq<char>, b: Seq<char>| text_leq(a, b) || text_leq(b, a) by {
        lemma_text_leq_connected(a, b);
    }
}

/// Whether `a` comes before `b` or equals it, computed.
pub fn text_le(a: &String, b: &String) -> (r: bool)
    ensures
        r == text_leq(a@, b@),
{
    let x = crate::text::chars_of(a.as_str());
    let y = crate::text::chars_of(b.as_str());
    let mut i: usize = 0;
    proof {
        assert(a@.skip(0) =~= a@);
        assert(b@.skip(0) =~= b@);
        assert(x@.take(0) =~= y@.take(0));
    }
    while i < x.len()
        invariant
            x@ == a@,
            y@ == b@,
            i <= x@.len(),
            i <= y@.len(),
            x@.take(i as int) == y@.take(i as int),
            text_leq(a@, b@) == text_leq(a@.skip(i as int), b@.skip(i as int)),
        decreases x@.len() - i,
    {
        let ghost sa = a@.skip(i as int);
        let ghost sb = b@.skip(i as int);
        if i == y.len() {
            return false;
        }
        proof {
            assert(sa[0] == x@[i as int]);
            assert(sb[0] == y@[i as int]);
            assert(sa.drop_first() =~= a@.skip(i + 1));
            assert(sb.drop_first() =~= b@.skip(i + 1));
        }
        if x[i] != y[i] {
            return (x[i] as u32) < (y[i] as u32);
        }
        proof {
            assert(x@.take(i + 1) =~= x@.take(i as int).push(x@[i as int]));
            assert(y@.take(i + 1) =~= y@.take(i as int).push(y@[i as int]));
        }
        i = i + 1;
    }
    true
}

/// Inserting `x` after the elements of a sorted list that come before it
/// keeps the list sorted.
proof fn lemma_insert_sorted<T>(s: Seq<T>, x: T, j: int, leq: spec_fn(T, T) -> bool)
    requires
        total_ordering(leq),
        sorted_by(s, leq),
        0 <= j <= s.len(),
        forall|k: int| 0 <= k < j ==> leq(s[k], x),
        j < s.len() ==> !leq(s[j], x),
    ensures
        sorted_by(s.insert(j, x), leq),
{
    let t = s.insert(j, x);
    if j < s.len() {
        assert(leq(x, s[j]));
    }
    assert forall|a: int, b: int| 0 <= a < b < t.len() implies leq(t[a], t[b]) by {
        if a < j && b == j {
        } else if a == j && b > j {
            assert(t[b] == s[b - 1]);
            if b - 1 > j {
                assert(leq(s[j], s[b - 1]));
            }
        } else if a < j && b > j {
            assert(t[b] == s[b - 1]);
        } else if a > j {
            assert(t[a] == s[a - 1]);
            assert(t[b] == s[b - 1]);
        }
    }
}

/// `v` sorted by id.
pub fn sort_ids(v: &Vec<u128>) -> (r: Vec<u128>)
    ensures
        r@ == v@.sort_by(|a: u128, b: u128| id_leq(a, b)),
{
    let ghost leq = |a: u128, b: u128| id_leq(a, b);
    let mut r: Vec<u128> = Vec::new();
    let mut i: usize = 0;
    while i < v.len()
        invariant
            i <= v@.len(),
            sorted_by(r@, leq),
            r@.to_multiset() == v@.take(i as int).to_multiset(),
            leq == |a: u128, b: u128| id_leq(a, b),
        decreases v@.len() - i,
    {
        let x = v[i];
        let mut j: usize = 0;
        while j < r.len() && r[j] <= x
            invariant
                j <= r@.len(),
                forall|k: int| 0 <= k < j ==> r@[k] <= x,
            decreases r@.len() - j,
        {
            j = j + 1;
        }
        proof {
            lemma_id_leq_total();
            lemma_insert_sorted(r@, x, j as int, leq);
            assert(v@.take(i + 1) =~= v@.take(i as int).push(x));
        }
        r.insert(j, x);
        i = i + 1;
    }
    proof {
        assert(v@.take(v@.len() as int) =~= v@);
        lemma_id_leq_total();
        v@.lemma_sort_by_ensures(leq);
        vstd::seq_lib::lemma_sorted_unique(r@, v@.sort_by(leq), leq);
    }
    r
}

/// `v` sorted in the order of `String` comparison.
pub fn sort_texts(v: &Vec<String>) -> (r: Vec<String>)
    ensures
        texts_of(r@) == texts_of(v@).sort_by(|a: Seq<char>, b: Seq<char>| text_leq(a, b)),
{
    let ghost leq = |a: Seq<char>, b: Seq<char>| text_leq(a, b);
    let mut r: Vec<String> = Vec::new();
    let mut i: usize = 0;
    while i < v.len()
        invariant
            i <= v@.len(),
            sorted_by(texts_of(r@), leq),
            texts_of(r@).to_multiset() == texts_of(v@.take(i as int)).to_multiset(),
            leq == |a: Seq<char>, b: Seq<char>| text_leq(a, b),
        decreases v@.len() - i,
    {
        let x = v[i].clone();
        let mut j: usize = 0;
        while j < r.len() && text_le(&r[j], &x)
            invariant
                j <= r@.len(),
                forall|k: int| 0 <= k < j ==> text_leq(r@[k]@, x@),
            decreases r@.len() - j,
        {
            j = j + 1;
        }
        let ghost before = r@;
        proof {
            lemma_text_leq_total();
            assert(texts_of(before.insert(j as int, x)) =~= texts_of(before).insert(j as int, x@));
            lemma_insert_sorted(texts_of(before), x@, j as int, leq);
            assert(texts_of(v@.take(i + 1)) =~= texts_of(v@.take(i as int)).push(x@));
        }
        r.insert(j, x);
        i = i + 1;
    }
    proof {
        assert(v@.take(v@.len() as int) =~= v@);
        lemma_text_leq_total();
        texts_of(v@).lemma_sort_by_ensures(leq);
        vstd::seq_lib::lemma_sorted_unique(texts_of(r@), texts_of(v@).sort_by(leq), leq);
    }
    r
}

} // verus!
