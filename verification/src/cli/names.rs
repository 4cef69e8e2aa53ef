//! Sensor readings keyed by name: the order of names (character by
//! character, by code point, a shorter name before its extensions) and the
//! name-sorted list of readings that it gives.
use vstd::prelude::*;
use crate::cli::ec_wrapper::temps_view;

verus! {

/// `a` and `b` agree on their first `k` characters.
pub open spec fn agree_below(a: Seq<char>, b: Seq<char>, k: int) -> bool {
    forall|j: int| 0 <= j < k ==> #[trigger] a[j] == b[j]
}

/// `a` sorts before `b`, decided at position `k`: they agree before it, and
/// there `a` ends while `b` goes on, or `a` has the smaller character.
pub open spec fn lt_at(a: Seq<char>, b: Seq<char>, k: int) -> bool {
    &&& 0 <= k <= a.len()
    &&& k <= b.len()
    &&& agree_below(a, b, k)
    &&& ((k == a.len() && k < b.len()) || (k < a.len() && k < b.len() && (a[k] as int) < (b[k] as int)))
}

/// `a` sorts before `b`.
pub open spec fn name_lt(a: Seq<char>, b: Seq<char>) -> bool {
    exists|k: int| #[trigger] lt_at(a, b, k)
}

/// No name sorts before itself, and of two names at most one sorts first.
pub proof fn lemma_name_lt_asymmetric(a: Seq<char>, b: Seq<char>)
    ensures
        !(name_lt(a, b) && name_lt(b, a)),
        !name_lt(a, a),
{
    if name_lt(a, b) && name_lt(b, a) {
        let k1 = choose|k: int| #[trigger] lt_at(a, b, k);
        let k2 = choose|k: int| #[trigger] lt_at(b, a, k);
        if k1 < k2 {
            assert(b[k1] == a[k1]);
        } else if k2 < k1 {
            assert(a[k2] == b[k2]);
        }
    }
    if name_lt(a, a) {
        let k = choose|k: int| #[trigger] lt_at(a, a, k);
    }
}

pub proof fn lemma_name_lt_transitive(a: Seq<char>, b: Seq<char>, c: Seq<char>)
    requires
        name_lt(a, b),
        name_lt(b, c),
    ensures
        name_lt(a, c),
{
    let k1 = choose|k: int| #[trigger] lt_at(a, b, k);
    let k2 = choose|k: int| #[trigger] lt_at(b, c, k);
    let k = if k1 <= k2 { k1 } else { k2 };
    assert forall|j: int| 0 <= j < k implies #[trigger] a[j] == c[j] by {
        assert(a[j] == b[j]);
        assert(b[j] == c[j]);
    }
    if k1 < k2 {
        if k1 < a.len() {
            assert(b[k1] == c[k1]);
        }
    } else if k2 < k1 {
        assert(a[k2] == b[k2]);
    }
    assert(lt_at(a, c, k));
}

proof fn lemma_first_difference(a: Seq<char>, b: Seq<char>, i: int)
    requires
        0 <= i <= a.len(),
        i <= b.len(),
        agree_below(a, b, i),
        a != b,
    ensures
        name_lt(a, b) || name_lt(b, a),
    decreases a.len() - i,
{
    if i == a.len() || i == b.len() {
        if a.len() == b.len() {
            assert(a =~= b);
        } else if a.len() < b.len() {
            assert(lt_at(a, b, i));
        } else {
            assert(lt_at(b, a, i));
        }
    } else if a[i] != b[i] {
        if (a[i] as int) < (b[i] as int) {
            assert(lt_at(a, b, i));
        } else {
            assert((a[i] as int) != (b[i] as int));
            assert(lt_at(b, a, i));
        }
    } else {
        lemma_first_difference(a, b, i + 1);
    }
}

/// Of two different names one sorts before the other.
pub proof fn lemma_name_lt_total(a: Seq<char>, b: Seq<char>)
    requires
        a != b,
    ensures
        name_lt(a, b) || name_lt(b, a),
{
    lemma_first_difference(a, b, 0);
}

/// Whether `a` sorts before `b`.
pub fn name_less(a: &str, b: &str) -> (r: bool)
    ensures
        r == name_lt(a@, b@),
{
    let la = a.unicode_len();
    let lb = b.unicode_len();
    let mut i: usize = 0;
    while i < la && i < lb
        invariant
            la == a@.len(),
            lb == b@.len(),
            i <= la,
            i <= lb,
            agree_below(a@, b@, i as int),
        decreases la - i,
    {
        let ca = a.get_char(i);
        let cb = b.get_char(i);
        if ca != cb {
            let r = (ca as u32) < (cb as u32);
            proof {
                if r {
                    assert(lt_at(a@, b@, i as int));
                } else {
                    assert((ca as u32) != (cb as u32));
                    assert(lt_at(b@, a@, i as int));
                    lemma_name_lt_asymmetric(a@, b@);
                }
            }
            return r;
        }
        i = i + 1;
    }
    proof {
        if la < lb {
            assert(lt_at(a@, b@, i as int));
        } else if name_lt(a@, b@) {
            let k = choose|k: int| #[trigger] lt_at(a@, b@, k);
            if k < i {
                assert(a@[k] == b@[k]);
            }
        }
    }
    la < lb
}

/// Names strictly increase along `m`.
pub open spec fn sorted_by_name(m: Seq<(Seq<char>, i32)>) -> bool {
    forall|i: int, j: int| 0 <= i < j < m.len() ==> name_lt(#[trigger] m[i].0, #[trigger] m[j].0)
}

/// Law: in a name-sorted list no two readings share a name.
pub proof fn lemma_sorted_names_distinct(m: Seq<(Seq<char>, i32)>)
    requires
        sorted_by_name(m),
    ensures
        forall|i: int, j: int| 0 <= i < j < m.len() ==> #[trigger] m[i].0 != #[trigger] m[j].0,
{
    assert forall|i: int, j: int| 0 <= i < j < m.len() implies #[trigger] m[i].0 != #[trigger] m[j].0 by {
        assert(name_lt(m[i].0, m[j].0));
        lemma_name_lt_asymmetric(m[i].0, m[i].0);
    }
}

/// Records `(name, t)` in the name-sorted list `m`, replacing the reading
/// with that name, as a map keyed by name does.
pub fn insert_reading(m: &mut Vec<(String, i32)>, name: String, t: i32)
    requires
        sorted_by_name(temps_view(old(m)@)),
    ensures
        sorted_by_name(temps_view(final(m)@)),
        forall|e: (Seq<char>, i32)| #[trigger] temps_view(final(m)@).contains(e) == (e == (name@, t) || (
        temps_view(old(m)@).contains(e) && e.0 != name@)),
{
    let ghost v0 = temps_view(m@);
    let n = m.len();
    let mut i: usize = 0;
    while i < n && name_less(m[i].0.as_str(), name.as_str())
        invariant
            n == m@.len(),
            i <= n,
            v0 == temps_view(m@),
            forall|j: int| 0 <= j < i ==> name_lt(#[trigger] v0[j].0, name@),
        decreases n - i,
    {
        i = i + 1;
    }
    proof {
        assert forall|j: int| 0 <= j < v0.len() implies #[trigger] v0[j] == (m@[j].0@, m@[j].1) by {}
    }
    let x = (name, t);
    let ghost xv = (x.0@, t);
    if i < n && m[i].0 == x.0 {
        m.set(i, x);
        let ghost v1 = temps_view(m@);
        proof {
            assert(v1 =~= v0.update(i as int, xv));
            lemma_sorted_names_distinct(v0);
            assert forall|a: int, b: int| 0 <= a < b < v1.len() implies name_lt(#[trigger] v1[a].0, #[trigger] v1[b].0) by {
                assert(v1[a].0 == v0[a].0 && v1[b].0 == v0[b].0);
            }
            assert forall|e: (Seq<char>, i32)| #[trigger] v1.contains(e) == (e == xv || (v0.contains(e) && e.0 != xv.0)) by {
                if v1.contains(e) {
                    let k = choose|k: int| 0 <= k < v1.len() && v1[k] == e;
                    if k != i {
                        assert(v0[k] == e);
                        assert(v0[k].0 != v0[i as int].0);
                    }
                }
                if e == xv {
                    assert(v1[i as int] == e);
                }
                if v0.contains(e) && e.0 != xv.0 {
                    let k = choose|k: int| 0 <= k < v0.len() && v0[k] == e;
                    assert(k != i);
                    assert(v1[k] == e);
                }
            }
        }
    } else {
        m.insert(i, x);
        let ghost v1 = temps_view(m@);
        proof {
            assert(v1 =~= v0.insert(i as int, xv));
            if i < n {
                assert(v0[i as int].0 != xv.0);
                assert(!name_lt(v0[i as int].0, xv.0));
                lemma_name_lt_total(v0[i as int].0, xv.0);
            }
            assert forall|j: int| i <= j < v0.len() implies name_lt(xv.0, #[trigger] v0[j].0) by {
                if j > i {
                    assert(name_lt(v0[i as int].0, v0[j].0));
                    lemma_name_lt_transitive(xv.0, v0[i as int].0, v0[j].0);
                }
            }
            assert forall|a: int, b: int| 0 <= a < b < v1.len() implies name_lt(#[trigger] v1[a].0, #[trigger] v1[b].0) by {
                if b < i {
                    assert(v1[a] == v0[a] && v1[b] == v0[b]);
                } else if b == i {
                    assert(v1[a] == v0[a]);
                } else if a == i {
                    assert(v1[b] == v0[b - 1]);
                } else if a < i {
                    assert(v1[a] == v0[a] && v1[b] == v0[b - 1]);
                    assert(name_lt(v0[a].0, xv.0));
                    assert(name_lt(xv.0, v0[b - 1].0));
                    lemma_name_lt_transitive(v0[a].0, xv.0, v0[b - 1].0);
                } else {
                    assert(v1[a] == v0[a - 1] && v1[b] == v0[b - 1]);
                }
            }
            assert forall|j: int| 0 <= j < v0.len() implies #[trigger] v0[j].0 != xv.0 by {
                if j < i {
                    lemma_name_lt_asymmetric(v0[j].0, xv.0);
                } else {
                    lemma_name_lt_asymmetric(xv.0, v0[j].0);
                }
            }
            assert forall|e: (Seq<char>, i32)| #[trigger] v1.contains(e) == (e == xv || (v0.contains(e) && e.0 != xv.0)) by {
                if v1.contains(e) {
                    let k = choose|k: int| 0 <= k < v1.len() && v1[k] == e;
                    if k < i {
                        assert(v0[k] == e);
                    } else if k > i {
                        assert(v0[k - 1] == e);
                    }
                }
                if e == xv {
                    assert(v1[i as int] == e);
                }
                if v0.contains(e) && e.0 != xv.0 {
                    let k = choose|k: int| 0 <= k < v0.len() && v0[k] == e;
                    if k < i {
                        assert(v1[k] == e);
                    } else {
                        assert(v1[k + 1] == e);
                    }
                }
            }
        }
    }
}

/// The readings of `list` (no two with the same name) as a map keyed by
/// name: the same readings, listed in name order.
pub fn readings_by_name(list: &Vec<(String, i32)>) -> (m: Vec<(String, i32)>)
    requires
        forall|i: int, j: int| 0 <= i < j < list@.len() ==> #[trigger] list@[i].0@ != #[trigger] list@[j].0@,
    ensures
        sorted_by_name(temps_view(m@)),
        forall|e: (Seq<char>, i32)| #[trigger] temps_view(m@).contains(e) == temps_view(list@).contains(e),
{
    let ghost lv = temps_view(list@);
    let mut m: Vec<(String, i32)> = Vec::new();
    let mut k: usize = 0;
    assert(temps_view(m@) =~= Seq::<(Seq<char>, i32)>::empty());
    while k < list.len()
        invariant
            k <= list@.len(),
            lv == temps_view(list@),
            forall|i: int, j: int| 0 <= i < j < list@.len() ==> #[trigger] list@[i].0@ != #[trigger] list@[j].0@,
            sorted_by_name(temps_view(m@)),
            forall|e: (Seq<char>, i32)| #[trigger] temps_view(m@).contains(e) == lv.take(k as int).contains(e),
        decreases list@.len() - k,
    {
        let name = list[k].0.clone();
        let t = list[k].1;
        let ghost before = temps_view(m@);
        insert_reading(&mut m, name, t);
        proof {
            let xk = (list@[k as int].0@, t);
            assert(lv[k as int] == xk);
            let next = lv.take(k + 1);
            assert forall|e: (Seq<char>, i32)| #[trigger] temps_view(m@).contains(e) == next.contains(e) by {
                if next.contains(e) {
                    let j = choose|j: int| 0 <= j < next.len() && next[j] == e;
                    if j < k {
                        assert(lv.take(k as int)[j] == e);
                        assert(before.contains(e));
                        assert(list@[j].0@ != list@[k as int].0@);
                    }
                }
                if before.contains(e) {
                    assert(lv.take(k as int).contains(e));
                    let prev = lv.take(k as int);
                    let j = choose|j: int| 0 <= j < prev.len() && prev[j] == e;
                    assert(next[j] == e);
                    assert(list@[j].0@ != list@[k as int].0@);
                }
                if e == xk {
                    assert(next[k as int] == e);
                }
            }
        }
        k = k + 1;
    }
    assert(lv.take(list@.len() as int) =~= lv);
    m
}

} // verus!
