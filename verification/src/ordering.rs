use vstd::prelude::*;

use crate::names::{lower_str, str_lowercase};

verus! {

/// Whether text `a` comes strictly before text `b`, comparing characters by code point
/// from the start, a proper prefix first (the order of `String`).
pub open spec fn text_lt(a: Seq<char>, b: Seq<char>) -> bool
    decreases a.len(),
{
    if a.len() == 0 {
        b.len() > 0
    } else if b.len() == 0 {
        false
    } else if a[0] != b[0] {
        (a[0] as int) < (b[0] as int)
    } else {
        text_lt(a.drop_first(), b.drop_first())
    }
}

proof fn lemma_text_lt_skip(a: Seq<char>, b: Seq<char>, i: int)
    requires
        0 <= i <= a.len(),
        i <= b.len(),
        forall|k: int| 0 <= k < i ==> a[k] == b[k],
    ensures
        text_lt(a, b) == text_lt(a.skip(i), b.skip(i)),
    decreases i,
{
    if i > 0 {
        assert(a[0] == b[0]);
        lemma_text_lt_skip(a.drop_first(), b.drop_first(), i - 1);
        assert(a.drop_first().skip(i - 1) =~= a.skip(i));
        assert(b.drop_first().skip(i - 1) =~= b.skip(i));
    } else {
        assert(a.skip(0) =~= a);
        assert(b.skip(0) =~= b);
    }
}

/// Whether text `a` comes strictly before text `b`.
pub fn text_less(a: &str, b: &str) -> (r: bool)
    ensures
        r == text_lt(a@, b@),
{
    let na = a.unicode_len();
    let nb = b.unicode_len();
    let mut i: usize = 0;
    while i < na && i < nb && a.get_char(i) == b.get_char(i)
        invariant
            na == a@.len(),
            nb == b@.len(),
            i <= na,
            i <= nb,
            forall|k: int| 0 <= k < i ==> a@[k] == b@[k],
        decreases na - i,
    {
        i = i + 1;
    }
    proof {
        lemma_text_lt_skip(a@, b@, i as int);
        let sa = a@.skip(i as int);
        let sb = b@.skip(i as int);
        if i < na && i < nb {
            assert(sa[0] == a@[i as int]);
            assert(sb[0] == b@[i as int]);
        }
    }
    if i == na {
        i < nb
    } else if i == nb {
        false
    } else {
        (a.get_char(i) as u32) < (b.get_char(i) as u32)
    }
}

/// The key that names are sorted by: their lower-case form.
pub open spec fn name_key(s: Seq<char>) -> Seq<char> {
    str_lowercase(s)
}

/// `sorted` with `x` inserted after every element whose key does not come after the
/// key of `x`.
pub open spec fn insert_by_key(sorted: Seq<Seq<char>>, x: Seq<char>) -> Seq<Seq<char>>
    decreases sorted.len(),
{
    if sorted.len() == 0 {
        seq![x]
    } else if text_lt(name_key(x), name_key(sorted.last())) {
        insert_by_key(sorted.drop_last(), x).push(sorted.last())
    } else {
        sorted.push(x)
    }
}

/// The names `s` in the order of their keys; names with equal keys keep their order
/// (a stable sort, as `sort_by_key` does).
pub open spec fn sorted_by_key(s: Seq<Seq<char>>) -> Seq<Seq<char>>
    decreases s.len(),
{
    if s.len() == 0 {
        seq![]
    } else {
        insert_by_key(sorted_by_key(s.drop_last()), s.last())
    }
}

proof fn lemma_insert_at(sorted: Seq<Seq<char>>, x: Seq<char>, p: int)
    requires
        0 <= p <= sorted.len(),
        forall|j: int| p <= j < sorted.len() ==> text_lt(name_key(x), name_key(#[trigger] sorted[j])),
        p == 0 || !text_lt(name_key(x), name_key(sorted[p - 1])),
    ensures
        insert_by_key(sorted, x) == sorted.insert(p, x),
    decreases sorted.len(),
{
    if sorted.len() == 0 {
        assert(sorted.insert(p, x) =~= seq![x]);
    } else if p == sorted.len() {
        assert(sorted.insert(p, x) =~= sorted.push(x));
    } else {
        let d = sorted.drop_last();
        assert(text_lt(name_key(x), name_key(sorted[sorted.len() - 1])));
        assert forall|j: int| p <= j < d.len() implies text_lt(name_key(x), name_key(#[trigger] d[j])) by {
            assert(d[j] == sorted[j]);
        }
        if p > 0 {
            assert(d[p - 1] == sorted[p - 1]);
        }
        lemma_insert_at(d, x, p);
        assert(d.insert(p, x).push(sorted.last()) =~= sorted.insert(p, x));
    }
}

/// Sorts names by their lower-case form, keeping the order of names whose lower-case
/// forms are equal.
pub fn sort_by_lowercase(names: Vec<String>) -> (r: Vec<String>)
    ensures
        r@.map_values(|s: String| s@) == sorted_by_key(names@.map_values(|s: String| s@)),
{
    let ghost input = names@.map_values(|s: String| s@);
    let mut out: Vec<String> = Vec::new();
    let mut keys: Vec<String> = Vec::new();
    let mut i: usize = 0;
    while i < names.len()
        invariant
            input == names@.map_values(|s: String| s@),
            i <= names@.len(),
            keys@.len() == out@.len(),
            forall|k: int| 0 <= k < keys@.len() ==> #[trigger] keys@[k]@ == name_key(out@[k]@),
            out@.map_values(|s: String| s@) == sorted_by_key(input.take(i as int)),
        decreases names@.len() - i,
    {
        let x = names[i].clone();
        let kx = lower_str(x.as_str());
        let ghost sorted = out@.map_values(|s: String| s@);
        let mut p = out.len();
        while p > 0 && text_less(kx.as_str(), keys[p - 1].as_str())
            invariant
                p <= out@.len(),
                keys@.len() == out@.len(),
                sorted == out@.map_values(|s: String| s@),
                kx@ == name_key(x@),
                forall|k: int| 0 <= k < keys@.len() ==> #[trigger] keys@[k]@ == name_key(out@[k]@),
                forall|j: int| p <= j < sorted.len() ==> text_lt(name_key(x@), name_key(#[trigger] sorted[j])),
            decreases p,
        {
            assert(sorted[p - 1] == out@[p - 1]@);
            p = p - 1;
        }
        proof {
            if p > 0 {
                assert(sorted[p - 1] == out@[p - 1]@);
            }
            lemma_insert_at(sorted, x@, p as int);
            assert(input.take(i + 1).drop_last() =~= input.take(i as int));
            assert(input.take(i + 1).last() == x@);
        }
        let ghost old_keys = keys@;
        let ghost old_out = out@;
        out.insert(p, x);
        keys.insert(p, kx);
        assert(out@.map_values(|s: String| s@) =~= sorted.insert(p as int, x@));
        assert forall|k: int| 0 <= k < keys@.len() implies #[trigger] keys@[k]@ == name_key(out@[k]@) by {
            if k < p {
                assert(keys@[k] == old_keys[k] && out@[k] == old_out[k]);
            } else if k > p {
                assert(keys@[k] == old_keys[k - 1] && out@[k] == old_out[k - 1]);
            }
        }
        i = i + 1;
    }
    assert(input.take(names@.len() as int) =~= input);
    out
}


proof fn lemma_text_lt_irreflexive(a: Seq<char>)
    ensures
        !text_lt(a, a),
    decreases a.len(),
{
    if a.len() > 0 {
        lemma_text_lt_irreflexive(a.drop_first());
    }
}

proof fn lemma_text_lt_transitive(a: Seq<char>, b: Seq<char>, c: Seq<char>)
    requires
        text_lt(a, b),
        text_lt(b, c),
    ensures
        text_lt(a, c),
    decreases a.len(),
{
    if a.len() > 0 && b.len() > 0 && c.len() > 0 && a[0] == b[0] && b[0] == c[0] {
        lemma_text_lt_transitive(a.drop_first(), b.drop_first(), c.drop_first());
    }
}

proof fn lemma_text_lt_total(a: Seq<char>, b: Seq<char>)
    requires
        a != b,
    ensures
        text_lt(a, b) || text_lt(b, a),
    decreases a.len(),
{
    if a.len() > 0 && b.len() > 0 && a[0] == b[0] {
        if a.drop_first() == b.drop_first() {
            assert(a =~= seq![a[0]] + a.drop_first());
            assert(b =~= seq![b[0]] + b.drop_first());
        }
        lemma_text_lt_total(a.drop_first(), b.drop_first());
    } else if a.len() == 0 && b.len() == 0 {
        assert(a =~= b);
    }
}

/// The text order is a strict total order: irreflexive, transitive and total.
pub proof fn lemma_text_order(a: Seq<char>, b: Seq<char>, c: Seq<char>)
    ensures
        !text_lt(a, a),
        text_lt(a, b) && text_lt(b, c) ==> text_lt(a, c),
        a != b ==> text_lt(a, b) || text_lt(b, a),
        text_lt(a, b) ==> !text_lt(b, a),
{
    lemma_text_lt_irreflexive(a);
    if text_lt(a, b) && text_lt(b, c) {
        lemma_text_lt_transitive(a, b, c);
    }
    if a != b {
        lemma_text_lt_total(a, b);
    }
    if text_lt(a, b) && text_lt(b, a) {
        lemma_text_lt_transitive(a, b, a);
    }
}

/// Not coming after is transitive.
proof fn lemma_text_le_transitive(a: Seq<char>, b: Seq<char>, c: Seq<char>)
    requires
        !text_lt(b, a),
        !text_lt(c, b),
    ensures
        !text_lt(c, a),
{
    if text_lt(c, a) {
        lemma_text_order(b, c, a);
        lemma_text_order(c, b, a);
        if b != c {
            if text_lt(b, c) {
                lemma_text_order(b, c, a);
            }
        }
    }
}

/// Whether the keys of `s` never decrease.
pub open spec fn sorted_keys(s: Seq<Seq<char>>) -> bool {
    forall|i: int, j: int| 0 <= i < j < s.len() ==> !text_lt(name_key(#[trigger] s[j]), name_key(#[trigger] s[i]))
}

proof fn lemma_insert_bounded(s: Seq<Seq<char>>, x: Seq<char>, b: Seq<char>)
    requires
        forall|i: int| 0 <= i < s.len() ==> !text_lt(name_key(b), name_key(#[trigger] s[i])),
        !text_lt(name_key(b), name_key(x)),
    ensures
        forall|i: int| 0 <= i < insert_by_key(s, x).len() ==> !text_lt(name_key(b), name_key(#[trigger] insert_by_key(s, x)[i])),
        insert_by_key(s, x).len() == s.len() + 1,
    decreases s.len(),
{
    if s.len() > 0 && text_lt(name_key(x), name_key(s.last())) {
        let d = s.drop_last();
        assert forall|i: int| 0 <= i < d.len() implies !text_lt(name_key(b), name_key(#[trigger] d[i])) by {
            assert(d[i] == s[i]);
        }
        lemma_insert_bounded(d, x, b);
        let r = insert_by_key(s, x);
        assert forall|i: int| 0 <= i < r.len() implies !text_lt(name_key(b), name_key(#[trigger] r[i])) by {
            if i < r.len() - 1 {
                assert(r[i] == insert_by_key(d, x)[i]);
            } else {
                assert(r[i] == s[s.len() - 1]);
            }
        }
    }
}

proof fn lemma_insert_sorted(s: Seq<Seq<char>>, x: Seq<char>)
    requires
        sorted_keys(s),
    ensures
        sorted_keys(insert_by_key(s, x)),
    decreases s.len(),
{
    if s.len() > 0 {
        let last = s.last();
        let d = s.drop_last();
        if text_lt(name_key(x), name_key(last)) {
            assert(sorted_keys(d)) by {
                assert forall|i: int, j: int| 0 <= i < j < d.len() implies !text_lt(name_key(#[trigger] d[j]), name_key(#[trigger] d[i])) by {
                    assert(d[i] == s[i] && d[j] == s[j]);
                }
            }
            lemma_insert_sorted(d, x);
            lemma_text_order(name_key(x), name_key(last), name_key(last));
            assert forall|i: int| 0 <= i < d.len() implies !text_lt(name_key(last), name_key(#[trigger] d[i])) by {
                assert(d[i] == s[i]);
                assert(s[s.len() - 1] == last);
            }
            lemma_insert_bounded(d, x, last);
            let m = insert_by_key(d, x);
            let r = m.push(last);
            assert forall|i: int, j: int| 0 <= i < j < r.len() implies !text_lt(name_key(#[trigger] r[j]), name_key(#[trigger] r[i])) by {
                if j < m.len() {
                    assert(r[i] == m[i] && r[j] == m[j]);
                } else {
                    assert(r[j] == last);
                    assert(r[i] == m[i]);
                }
            }
        } else {
            let r = s.push(x);
            assert forall|i: int, j: int| 0 <= i < j < r.len() implies !text_lt(name_key(#[trigger] r[j]), name_key(#[trigger] r[i])) by {
                if j < s.len() {
                    assert(r[i] == s[i] && r[j] == s[j]);
                } else {
                    assert(r[j] == x);
                    assert(r[i] == s[i]);
                    if i < s.len() - 1 {
                        assert(!text_lt(name_key(s[s.len() - 1]), name_key(s[i])));
                        lemma_text_le_transitive(name_key(s[i]), name_key(last), name_key(x));
                    }
                }
            }
        }
    }
}

proof fn lemma_insert_multiset(s: Seq<Seq<char>>, x: Seq<char>)
    ensures
        insert_by_key(s, x).to_multiset() == s.to_multiset().insert(x),
    decreases s.len(),
{
    broadcast use vstd::seq_lib::group_to_multiset_ensures;

    if s.len() == 0 {
        assert(seq![x] =~= s.push(x));
    } else if text_lt(name_key(x), name_key(s.last())) {
        let d = s.drop_last();
        lemma_insert_multiset(d, x);
        assert(d.push(s.last()) =~= s);
        assert(insert_by_key(s, x).to_multiset() =~= s.to_multiset().insert(x));
    }
}

/// Sorting by lower-case form yields the same names, with keys that never decrease.
pub proof fn lemma_sorted_by_key_sorts(s: Seq<Seq<char>>)
    ensures
        sorted_keys(sorted_by_key(s)),
        sorted_by_key(s).to_multiset() == s.to_multiset(),
    decreases s.len(),
{
    broadcast use vstd::seq_lib::group_to_multiset_ensures;

    if s.len() > 0 {
        lemma_sorted_by_key_sorts(s.drop_last());
        lemma_insert_sorted(sorted_by_key(s.drop_last()), s.last());
        lemma_insert_multiset(sorted_by_key(s.drop_last()), s.last());
        assert(s.drop_last().push(s.last()) =~= s);
    }
}

} // verus!
