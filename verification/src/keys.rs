//! The order of object keys: the order of strings, code point by code
//! point, in which an object description keeps its entries.
use vstd::prelude::*;
use vstd::string::StrSliceExecFns;

verus! {

/// `a` comes before `b`: at the first position where they differ, `a`
/// has the smaller character, or `a` is a proper prefix of `b`. This is
/// the order of `String`, whose bytes are UTF-8 and so order as the
/// code points do.
pub open spec fn key_less(a: Seq<char>, b: Seq<char>) -> bool
    decreases a.len(),
{
    if a.len() == 0 {
        b.len() > 0
    } else if b.len() == 0 {
        false
    } else if a[0] != b[0] {
        a[0] < b[0]
    } else {
        key_less(a.drop_first(), b.drop_first())
    }
}

/// Each key occurs once.
pub open spec fn keys_distinct<T>(es: Seq<(Seq<char>, T)>) -> bool {
    forall|i: int, j: int| 0 <= i < j < es.len() ==> #[trigger] es[i].0 != #[trigger] es[j].0
}

/// The keys of the entries stand in increasing order, so each occurs once.
pub open spec fn keys_sorted<T>(es: Seq<(Seq<char>, T)>) -> bool {
    forall|i: int, j: int| 0 <= i < j < es.len() ==> key_less(#[trigger] es[i].0, #[trigger] es[j].0)
}

/// No key comes before itself.
pub proof fn lemma_key_less_irreflexive(a: Seq<char>)
    ensures
        !key_less(a, a),
    decreases a.len(),
{
    if a.len() > 0 {
        lemma_key_less_irreflexive(a.drop_first());
    }
}

/// The order of keys is transitive.
pub proof fn lemma_key_less_transitive(a: Seq<char>, b: Seq<char>, c: Seq<char>)
    requires
        key_less(a, b),
        key_less(b, c),
    ensures
        key_less(a, c),
    decreases a.len(),
{
    if a.len() > 0 && b.len() > 0 && c.len() > 0 && a[0] == b[0] && b[0] == c[0] {
        lemma_key_less_transitive(a.drop_first(), b.drop_first(), c.drop_first());
    }
}

/// Of two different keys, one comes before the other.
pub proof fn lemma_key_less_total(a: Seq<char>, b: Seq<char>)
    requires
        a != b,
    ensures
        key_less(a, b) || key_less(b, a),
    decreases a.len(),
{
    if a.len() == 0 && b.len() == 0 {
        assert(a =~= b);
    } else if a.len() > 0 && b.len() > 0 && a[0] == b[0] {
        let da = a.drop_first();
        let db = b.drop_first();
        assert(da.len() == a.len() - 1);
        assert(db.len() == b.len() - 1);
        if da == db {
            assert(a.len() == b.len());
            assert forall|i: int| 0 <= i < a.len() implies a[i] == b[i] by {
                if i > 0 {
                    assert(a[i] == da[i - 1]);
                    assert(b[i] == db[i - 1]);
                }
            }
            assert(a =~= b);
        } else {
            lemma_key_less_total(da, db);
        }
    }
}

/// Sorted keys are distinct.
pub proof fn lemma_sorted_keys_distinct<T>(es: Seq<(Seq<char>, T)>)
    requires
        keys_sorted(es),
    ensures
        keys_distinct(es),
{
    assert forall|i: int, j: int| 0 <= i < j < es.len() implies #[trigger] es[i].0 != #[trigger] es[j].0 by {
        assert(key_less(es[i].0, es[j].0));
        lemma_key_less_irreflexive(es[i].0);
    }
}

/// Where a new key `k` goes among sorted entries: after each key that
/// comes before it.
pub open spec fn insert_position<T>(m: Seq<(Seq<char>, T)>, k: Seq<char>) -> int
    decreases m.len(),
{
    if m.len() == 0 {
        0
    } else if key_less(m.last().0, k) {
        m.len() as int
    } else {
        insert_position(m.drop_last(), k)
    }
}

/// Between the keys that come before `k` and those that come after it
/// lies the position where `k` goes.
pub proof fn lemma_insert_position<T>(m: Seq<(Seq<char>, T)>, k: Seq<char>, i: int)
    requires
        0 <= i <= m.len(),
        forall|j: int| 0 <= j < i ==> key_less((#[trigger] m[j]).0, k),
        forall|j: int| i <= j < m.len() ==> key_less(k, (#[trigger] m[j]).0),
    ensures
        insert_position(m, k) == i,
    decreases m.len(),
{
    if m.len() > 0 && i < m.len() {
        let p = m.drop_last();
        assert(key_less(k, m[m.len() - 1].0));
        if key_less(m.last().0, k) {
            lemma_key_less_transitive(k, m.last().0, k);
            lemma_key_less_irreflexive(k);
        }
        assert forall|j: int| 0 <= j < i implies key_less((#[trigger] p[j]).0, k) by {
            assert(p[j] == m[j]);
        }
        assert forall|j: int| i <= j < p.len() implies key_less(k, (#[trigger] p[j]).0) by {
            assert(p[j] == m[j]);
        }
        lemma_insert_position(p, k, i);
    }
}

/// Where key `k` stands among entries, or -1.
pub open spec fn key_position<T>(m: Seq<(Seq<char>, T)>, k: Seq<char>) -> int
    decreases m.len(),
{
    if m.len() == 0 {
        -1
    } else if m.last().0 == k {
        m.len() - 1
    } else {
        key_position(m.drop_last(), k)
    }
}

/// The entries with `k` set to `d`: in place where `k` is already, else
/// at the place of `k` in the order of keys.
pub open spec fn assoc_insert<T>(m: Seq<(Seq<char>, T)>, k: Seq<char>, d: T) -> Seq<(Seq<char>, T)> {
    if key_position(m, k) >= 0 {
        m.update(key_position(m, k), (k, d))
    } else {
        m.insert(insert_position(m, k), (k, d))
    }
}

/// Where a key stands among entries.
pub proof fn lemma_key_position<T>(m: Seq<(Seq<char>, T)>, k: Seq<char>)
    ensures
        -1 <= key_position(m, k) < m.len(),
        key_position(m, k) >= 0 ==> m[key_position(m, k)].0 == k,
        key_position(m, k) == -1 ==> forall|j: int| 0 <= j < m.len() ==> (#[trigger] m[j]).0 != k,
        keys_distinct(m) ==> forall|j: int| 0 <= j < m.len() && (#[trigger] m[j]).0 == k ==> key_position(m, k) == j,
    decreases m.len(),
{
    if m.len() > 0 {
        let p = m.drop_last();
        lemma_key_position(p, k);
        assert(m.last() == m[m.len() - 1]);
        assert forall|j: int| 0 <= j < p.len() implies #[trigger] p[j] == m[j] by {}
        if keys_distinct(m) {
            assert(keys_distinct(p)) by {
                assert forall|i: int, j: int| 0 <= i < j < p.len() implies #[trigger] p[i].0 != #[trigger] p[j].0 by {
                    assert(p[i] == m[i] && p[j] == m[j]);
                }
            }
            assert forall|j: int| 0 <= j < m.len() && (#[trigger] m[j]).0 == k implies key_position(m, k) == j by {
                if j < m.len() - 1 {
                    assert(p[j] == m[j]);
                    if m.last().0 == k {
                        assert(m[j].0 != m[m.len() - 1].0);
                    }
                }
            }
        }
        if key_position(m, k) == -1 {
            assert forall|j: int| 0 <= j < m.len() implies (#[trigger] m[j]).0 != k by {
                if j < m.len() - 1 {
                    assert(p[j] == m[j]);
                }
            }
        }
    }
}

/// Among sorted entries without `k`, the keys before the place of `k`
/// come before `k`, and the others after it.
pub proof fn lemma_insert_position_splits<T>(m: Seq<(Seq<char>, T)>, k: Seq<char>)
    requires
        keys_sorted(m),
        forall|j: int| 0 <= j < m.len() ==> (#[trigger] m[j]).0 != k,
    ensures
        0 <= insert_position(m, k) <= m.len(),
        forall|j: int| 0 <= j < insert_position(m, k) ==> key_less((#[trigger] m[j]).0, k),
        forall|j: int| insert_position(m, k) <= j < m.len() ==> key_less(k, (#[trigger] m[j]).0),
    decreases m.len(),
{
    if m.len() > 0 {
        let p = m.drop_last();
        let last = m[m.len() - 1].0;
        assert(m.last().0 == last);
        assert forall|j: int| 0 <= j < p.len() implies #[trigger] p[j] == m[j] by {}
        if key_less(last, k) {
            assert forall|j: int| 0 <= j < m.len() implies key_less((#[trigger] m[j]).0, k) by {
                if j < m.len() - 1 {
                    assert(key_less(m[j].0, last));
                    lemma_key_less_transitive(m[j].0, last, k);
                }
            }
        } else {
            lemma_key_less_total(last, k);
            assert(keys_sorted(p)) by {
                assert forall|i: int, j: int| 0 <= i < j < p.len() implies key_less(#[trigger] p[i].0, #[trigger] p[j].0) by {
                    assert(p[i] == m[i] && p[j] == m[j]);
                }
            }
            assert forall|j: int| 0 <= j < p.len() implies (#[trigger] p[j]).0 != k by {
                assert(p[j] == m[j]);
            }
            lemma_insert_position_splits(p, k);
            assert forall|j: int| insert_position(m, k) <= j < m.len() implies key_less(k, (#[trigger] m[j]).0) by {
                if j < m.len() - 1 {
                    assert(p[j] == m[j]);
                }
            }
            assert forall|j: int| 0 <= j < insert_position(m, k) implies key_less((#[trigger] m[j]).0, k) by {
                assert(p[j] == m[j]);
            }
        }
    }
}

/// Setting a key keeps the keys sorted.
pub proof fn lemma_assoc_insert_sorted<T>(m: Seq<(Seq<char>, T)>, k: Seq<char>, d: T)
    requires
        keys_sorted(m),
    ensures
        keys_sorted(assoc_insert(m, k, d)),
{
    lemma_sorted_keys_distinct(m);
    lemma_key_position(m, k);
    let r = assoc_insert(m, k, d);
    if key_position(m, k) >= 0 {
        assert forall|i: int, j: int| 0 <= i < j < r.len() implies key_less(#[trigger] r[i].0, #[trigger] r[j].0) by {
            assert(r[i].0 == m[i].0);
            assert(r[j].0 == m[j].0);
        }
    } else {
        lemma_insert_position_splits(m, k);
        let q = insert_position(m, k);
        m.insert_ensures(q, (k, d));
        assert forall|i: int, j: int| 0 <= i < j < r.len() implies key_less(#[trigger] r[i].0, #[trigger] r[j].0) by {
            if j < q {
                assert(r[i] == m[i] && r[j] == m[j]);
            } else if j == q {
                assert(r[i] == m[i]);
            } else if i < q {
                assert(r[i] == m[i]);
                assert(r[j] == m[j - 1]);
                lemma_key_less_transitive(m[i].0, k, m[j - 1].0);
            } else if i == q {
                assert(r[j] == m[j - 1]);
            } else {
                assert(r[i] == m[i - 1] && r[j] == m[j - 1]);
            }
        }
    }
}

/// Setting key `k` adds `k` to the keys and keeps the others.
pub proof fn lemma_assoc_insert_keys<T>(m: Seq<(Seq<char>, T)>, k: Seq<char>, d: T, q: Seq<char>)
    requires
        keys_sorted(m),
    ensures
        (exists|j: int| 0 <= j < assoc_insert(m, k, d).len() && (#[trigger] assoc_insert(m, k, d)[j]).0 == q)
            <==> (q == k || exists|j: int| 0 <= j < m.len() && (#[trigger] m[j]).0 == q),
{
    lemma_key_position(m, k);
    let r = assoc_insert(m, k, d);
    let p = key_position(m, k);
    let n = insert_position(m, k);
    if p < 0 {
        lemma_insert_position_splits(m, k);
        m.insert_ensures(n, (k, d));
    }
    if q == k {
        if p >= 0 {
            assert(r[p].0 == q);
        } else {
            assert(r[n].0 == q);
        }
    }
    if exists|j: int| 0 <= j < m.len() && (#[trigger] m[j]).0 == q {
        let j = choose|j: int| 0 <= j < m.len() && (#[trigger] m[j]).0 == q;
        if p >= 0 {
            if j == p {
                assert(r[j].0 == k);
            } else {
                assert(r[j].0 == q);
            }
        } else if j < n {
            assert(r[j].0 == q);
        } else {
            assert(r[j + 1].0 == q);
        }
    }
    if exists|j: int| 0 <= j < r.len() && (#[trigger] r[j]).0 == q {
        let j = choose|j: int| 0 <= j < r.len() && (#[trigger] r[j]).0 == q;
        if p >= 0 {
            if j != p {
                assert(m[j].0 == q);
            }
        } else if j < n {
            assert(m[j].0 == q);
        } else if j > n {
            assert(m[j - 1].0 == q);
        }
    }
}

/// Whether `a` comes before `b`.
pub fn string_less(a: &String, b: &String) -> (r: bool)
    ensures
        r == key_less(a@, b@),
{
    let sa = a.as_str();
    let sb = b.as_str();
    let na = sa.unicode_len();
    let nb = sb.unicode_len();
    let mut i: usize = 0;
    proof {
        assert(a@.skip(0) =~= a@);
        assert(b@.skip(0) =~= b@);
    }
    while i < na && i < nb
        invariant
            i <= na,
            i <= nb,
            na == a@.len(),
            nb == b@.len(),
            sa@ == a@,
            sb@ == b@,
            key_less(a@, b@) == key_less(a@.skip(i as int), b@.skip(i as int)),
        decreases na - i,
    {
        let ca = sa.get_char(i);
        let cb = sb.get_char(i);
        proof {
            assert(a@.skip(i as int)[0] == ca);
            assert(b@.skip(i as int)[0] == cb);
            assert(a@.skip(i as int).drop_first() =~= a@.skip(i + 1));
            assert(b@.skip(i as int).drop_first() =~= b@.skip(i + 1));
        }
        if ca != cb {
            return ca < cb;
        }
        i += 1;
    }
    i == na && i < nb
}

} // verus!
