//! Record keys: lexicographic order on identifiers and the sorted, unique
//! layout of keyed record sequences.
use vstd::prelude::*;

verus! {

/// Strict lexicographic order on identifiers, by code point.
pub open spec fn key_lt(a: Seq<char>, b: Seq<char>) -> bool
    decreases a.len(),
{
    if a.len() == 0 {
        b.len() > 0
    } else if b.len() == 0 {
        false
    } else if a[0] != b[0] {
        (a[0] as int) < (b[0] as int)
    } else {
        key_lt(a.drop_first(), b.drop_first())
    }
}

pub proof fn lemma_key_lt_irreflexive(a: Seq<char>)
    ensures
        !key_lt(a, a),
    decreases a.len(),
{
    if a.len() > 0 {
        lemma_key_lt_irreflexive(a.drop_first());
    }
}

pub proof fn lemma_key_lt_transitive(a: Seq<char>, b: Seq<char>, c: Seq<char>)
    requires
        key_lt(a, b),
        key_lt(b, c),
    ensures
        key_lt(a, c),
    decreases a.len(),
{
    if a.len() > 0 && b.len() > 0 && c.len() > 0 && a[0] == b[0] && b[0] == c[0] {
        lemma_key_lt_transitive(a.drop_first(), b.drop_first(), c.drop_first());
    }
}

pub proof fn lemma_key_lt_total(a: Seq<char>, b: Seq<char>)
    requires
        a != b,
    ensures
        key_lt(a, b) || key_lt(b, a),
    decreases a.len(),
{
    if a.len() > 0 && b.len() > 0 {
        if a[0] == b[0] {
            if a.drop_first() == b.drop_first() {
                assert(a =~= seq![a[0]] + a.drop_first());
                assert(b =~= seq![b[0]] + b.drop_first());
            }
            lemma_key_lt_total(a.drop_first(), b.drop_first());
        } else {
            assert((a[0] as int) != (b[0] as int));
        }
    } else if a.len() == 0 && b.len() == 0 {
        assert(a =~= b);
    }
}

proof fn lemma_key_lt_skip(a: Seq<char>, b: Seq<char>, i: int)
    requires
        0 <= i <= a.len(),
        i <= b.len(),
        a.take(i) =~= b.take(i),
    ensures
        key_lt(a, b) == key_lt(a.skip(i), b.skip(i)),
    decreases i,
{
    if i > 0 {
        assert(a[0] == a.take(i)[0]);
        assert(b[0] == b.take(i)[0]);
        assert(a.drop_first().take(i - 1) =~= b.drop_first().take(i - 1)) by {
            assert forall|k: int| 0 <= k < i - 1 implies a.drop_first()[k] == b.drop_first()[k] by {
                assert(a[k + 1] == a.take(i)[k + 1]);
                assert(b[k + 1] == b.take(i)[k + 1]);
            }
        }
        lemma_key_lt_skip(a.drop_first(), b.drop_first(), i - 1);
        assert(a.drop_first().skip(i - 1) =~= a.skip(i));
        assert(b.drop_first().skip(i - 1) =~= b.skip(i));
    } else {
        assert(a.skip(0) =~= a);
        assert(b.skip(0) =~= b);
    }
}

/// Whether `a` orders strictly before `b`.
pub fn key_less(a: &str, b: &str) -> (r: bool)
    ensures
        r == key_lt(a@, b@),
{
    let la = a.unicode_len();
    let lb = b.unicode_len();
    let mut i: usize = 0;
    while i < la && i < lb
        invariant
            la == a@.len(),
            lb == b@.len(),
            i <= la,
            i <= lb,
            a@.take(i as int) =~= b@.take(i as int),
        decreases la - i,
    {
        let ca = a.get_char(i);
        let cb = b.get_char(i);
        if ca != cb {
            proof {
                lemma_key_lt_skip(a@, b@, i as int);
                assert(a@.skip(i as int)[0] == ca);
                assert(b@.skip(i as int)[0] == cb);
            }
            return (ca as u32) < (cb as u32);
        }
        proof {
            assert(a@.take(i + 1) =~= a@.take(i as int).push(ca));
            assert(b@.take(i + 1) =~= b@.take(i as int).push(cb));
        }
        i = i + 1;
    }
    proof {
        lemma_key_lt_skip(a@, b@, i as int);
    }
    i == la && i < lb
}

/// Whether `a` and `b` are the same identifier.
pub fn key_eq(a: &str, b: &str) -> (r: bool)
    ensures
        r == (a@ == b@),
{
    let la = a.unicode_len();
    let lb = b.unicode_len();
    if la != lb {
        return false;
    }
    let mut i: usize = 0;
    while i < la
        invariant
            la == a@.len(),
            lb == b@.len(),
            la == lb,
            i <= la,
            a@.take(i as int) =~= b@.take(i as int),
        decreases la - i,
    {
        if a.get_char(i) != b.get_char(i) {
            return false;
        }
        proof {
            assert(a@.take(i + 1) =~= a@.take(i as int).push(a@[i as int]));
            assert(b@.take(i + 1) =~= b@.take(i as int).push(b@[i as int]));
        }
        i = i + 1;
    }
    proof {
        assert(a@ =~= a@.take(la as int));
        assert(b@ =~= b@.take(la as int));
    }
    true
}

/// A record stored under an identifier.
pub trait Keyed {
    spec fn key_of(&self) -> Seq<char>;

    fn key(&self) -> (r: &String)
        ensures
            r@ == self.key_of(),
    ;
}

/// Records in strictly ascending key order, hence with unique keys.
pub open spec fn sorted_by_key<T: Keyed>(s: Seq<T>) -> bool {
    forall|i: int, j: int| 0 <= i < j < s.len() ==> key_lt(s[i].key_of(), s[j].key_of())
}

pub open spec fn has_key<T: Keyed>(s: Seq<T>, k: Seq<char>) -> bool {
    exists|i: int| 0 <= i < s.len() && s[i].key_of() == k
}

/// In a sorted sequence at most one record holds a given key.
pub proof fn lemma_sorted_unique<T: Keyed>(s: Seq<T>, i: int, j: int)
    requires
        sorted_by_key(s),
        0 <= i < s.len(),
        0 <= j < s.len(),
        s[i].key_of() == s[j].key_of(),
    ensures
        i == j,
{
    if i < j {
        lemma_key_lt_irreflexive(s[i].key_of());
    } else if j < i {
        lemma_key_lt_irreflexive(s[i].key_of());
    }
}

/// Position of the record with key `k`, if there is one.
pub fn find_key<T: Keyed>(v: &Vec<T>, k: &str) -> (r: Option<usize>)
    ensures
        match r {
            Some(i) => i < v@.len() && v@[i as int].key_of() == k@,
            None => !has_key(v@, k@),
        },
{
    let mut i: usize = 0;
    while i < v.len()
        invariant
            i <= v@.len(),
            forall|j: int| 0 <= j < i ==> v@[j].key_of() != k@,
        decreases v@.len() - i,
    {
        if key_eq(v[i].key().as_str(), k) {
            return Some(i);
        }
        i = i + 1;
    }
    None
}

/// Inserts a record whose key is new, keeping the keys in ascending order.
pub fn insert_sorted<T: Keyed>(v: &mut Vec<T>, item: T) -> (pos: usize)
    requires
        sorted_by_key(old(v)@),
        !has_key(old(v)@, item.key_of()),
    ensures
        pos <= old(v)@.len(),
        final(v)@ == old(v)@.insert(pos as int, item),
        sorted_by_key(final(v)@),
{
    let mut i: usize = 0;
    while i < v.len() && key_less(v[i].key().as_str(), item.key().as_str())
        invariant
            i <= v@.len(),
            forall|j: int| 0 <= j < i ==> key_lt(#[trigger] v@[j].key_of(), item.key_of()),
        decreases v@.len() - i,
    {
        i = i + 1;
    }
    proof {
        let s = v@;
        let k = item.key_of();
        if i < s.len() {
            assert(s[i as int].key_of() != k);
            lemma_key_lt_total(s[i as int].key_of(), k);
            assert forall|j: int| i <= j < s.len() implies key_lt(k, #[trigger] s[j].key_of()) by {
                if j > i {
                    lemma_key_lt_transitive(k, s[i as int].key_of(), s[j].key_of());
                }
            }
        }
    }
    v.insert(i, item);
    proof {
        let s = v@;
        assert forall|a: int, b: int| 0 <= a < b < s.len() implies key_lt(
            s[a].key_of(),
            s[b].key_of(),
        ) by {
            let o = old(v)@;
            if b < i {
                assert(s[a] == o[a] && s[b] == o[b]);
            } else if b == i {
                assert(s[a] == o[a]);
            } else if a == i {
                assert(s[b] == o[b - 1]);
            } else if a < i {
                assert(s[a] == o[a] && s[b] == o[b - 1]);
                lemma_key_lt_transitive(o[a].key_of(), item.key_of(), o[b - 1].key_of());
            } else {
                assert(s[a] == o[a - 1] && s[b] == o[b - 1]);
            }
        }
    }
    i
}

/// The record stored under `k`, read as a finite map from keys to records.
pub open spec fn lookup<T: Keyed>(s: Seq<T>, k: Seq<char>) -> Option<T> {
    if has_key(s, k) {
        Some(s[choose|x: int| 0 <= x < s.len() && s[x].key_of() == k])
    } else {
        None
    }
}

pub proof fn lemma_lookup_at<T: Keyed>(s: Seq<T>, i: int)
    requires
        sorted_by_key(s),
        0 <= i < s.len(),
    ensures
        lookup(s, s[i].key_of()) == Some(s[i]),
{
    let k = s[i].key_of();
    assert(has_key(s, k));
    assert forall|x: int| 0 <= x < s.len() && s[x].key_of() == k implies s[x] == s[i] by {
        lemma_sorted_unique(s, i, x);
    }
}

/// Stores `item` under its key, replacing the record held there, if any.
pub fn upsert<T: Keyed>(v: &mut Vec<T>, item: T)
    requires
        sorted_by_key(old(v)@),
    ensures
        sorted_by_key(final(v)@),
        lookup(final(v)@, item.key_of()) == Some(item),
        forall|k: Seq<char>| k != item.key_of() ==> lookup(final(v)@, k) == lookup(old(v)@, k),
{
    let ghost k0 = item.key_of();
    match find_key(v, item.key().as_str()) {
        Some(i) => {
            v.set(i, item);
            proof {
                let o = old(v)@;
                let s = v@;
                assert(sorted_by_key(s)) by {
                    assert forall|a: int, b: int| 0 <= a < b < s.len() implies key_lt(
                        s[a].key_of(),
                        s[b].key_of(),
                    ) by {
                        assert(s[a].key_of() == o[a].key_of());
                        assert(s[b].key_of() == o[b].key_of());
                    }
                }
                lemma_lookup_at(s, i as int);
                assert forall|k: Seq<char>| k != k0 implies lookup(s, k) == lookup(o, k) by {
                    if has_key(o, k) {
                        let j = choose|j: int| 0 <= j < o.len() && o[j].key_of() == k;
                        assert(s[j] == o[j]);
                        lemma_lookup_at(o, j);
                        lemma_lookup_at(s, j);
                    } else if has_key(s, k) {
                        let j = choose|j: int| 0 <= j < s.len() && s[j].key_of() == k;
                        assert(s[j] == o[j]);
                    }
                }
            }
        },
        None => {
            let pos = insert_sorted(v, item);
            proof {
                let o = old(v)@;
                let s = v@;
                assert(s[pos as int] == item);
                lemma_lookup_at(s, pos as int);
                assert forall|k: Seq<char>| k != k0 implies lookup(s, k) == lookup(o, k) by {
                    if has_key(o, k) {
                        let j = choose|j: int| 0 <= j < o.len() && o[j].key_of() == k;
                        let js = if j < pos { j } else { j + 1 };
                        assert(s[js] == o[j]);
                        lemma_lookup_at(o, j);
                        lemma_lookup_at(s, js);
                    } else if has_key(s, k) {
                        let j = choose|j: int| 0 <= j < s.len() && s[j].key_of() == k;
                        if j < pos {
                            assert(s[j] == o[j]);
                        } else if j > pos {
                            assert(s[j] == o[j - 1]);
                        }
                    }
                }
            }
        },
    }
}

/// Removes the record stored under `k`, if any.
pub fn remove_key<T: Keyed>(v: &mut Vec<T>, k: &str)
    requires
        sorted_by_key(old(v)@),
    ensures
        sorted_by_key(final(v)@),
        lookup(final(v)@, k@) is None,
        forall|k2: Seq<char>| k2 != k@ ==> lookup(final(v)@, k2) == lookup(old(v)@, k2),
{
    match find_key(v, k) {
        Some(i) => {
            v.remove(i);
            proof {
                let o = old(v)@;
                let s = v@;
                assert forall|a: int, b: int| 0 <= a < b < s.len() implies key_lt(
                    s[a].key_of(),
                    s[b].key_of(),
                ) by {
                    let oa = if a < i { a } else { a + 1 };
                    let ob = if b < i { b } else { b + 1 };
                    assert(s[a] == o[oa] && s[b] == o[ob]);
                }
                if has_key(s, k@) {
                    let j = choose|j: int| 0 <= j < s.len() && s[j].key_of() == k@;
                    let oj = if j < i { j } else { j + 1 };
                    assert(s[j] == o[oj]);
                    lemma_sorted_unique(o, i as int, oj);
                }
                assert forall|k2: Seq<char>| k2 != k@ implies lookup(s, k2) == lookup(o, k2) by {
                    if has_key(o, k2) {
                        let j = choose|j: int| 0 <= j < o.len() && o[j].key_of() == k2;
                        assert(j != i);
                        let js = if j < i { j } else { j - 1 };
                        assert(s[js] == o[j]);
                        lemma_lookup_at(o, j);
                        lemma_lookup_at(s, js);
                    } else if has_key(s, k2) {
                        let j = choose|j: int| 0 <= j < s.len() && s[j].key_of() == k2;
                        let oj = if j < i { j } else { j + 1 };
                        assert(s[j] == o[oj]);
                    }
                }
            }
        },
        None => {},
    }
}

/// One step of filtering a prefix: the next element is kept exactly when it
/// satisfies the predicate.
pub proof fn lemma_filter_step<T>(s: Seq<T>, i: int, pred: spec_fn(T) -> bool)
    requires
        0 <= i < s.len(),
    ensures
        s.take(i + 1).filter(pred) == (if pred(s[i]) {
            s.take(i).filter(pred).push(s[i])
        } else {
            s.take(i).filter(pred)
        }),
{
    reveal(Seq::filter);
    assert(s.take(i + 1).drop_last() =~= s.take(i));
}

/// Filtering keeps records in ascending key order.
pub proof fn lemma_filter_sorted<T: Keyed>(s: Seq<T>, pred: spec_fn(T) -> bool)
    requires
        sorted_by_key(s),
    ensures
        sorted_by_key(s.filter(pred)),
    decreases s.len(),
{
    reveal(Seq::filter);
    if s.len() > 0 {
        let rest = s.drop_last();
        assert(sorted_by_key(rest)) by {
            assert forall|i: int, j: int| 0 <= i < j < rest.len() implies key_lt(
                rest[i].key_of(),
                rest[j].key_of(),
            ) by {
                assert(rest[i] == s[i] && rest[j] == s[j]);
            }
        }
        lemma_filter_sorted(rest, pred);
        let f = rest.filter(pred);
        if pred(s.last()) {
            assert forall|i: int| 0 <= i < f.len() implies key_lt(
                #[trigger] f[i].key_of(),
                s.last().key_of(),
            ) by {
                assert(f.contains(f[i]));
                rest.lemma_filter_contains_rev(pred, f[i]);
                let j = choose|j: int| 0 <= j < rest.len() && rest[j] == f[i];
                assert(rest[j] == s[j]);
            }
            let g = f.push(s.last());
            assert forall|i: int, j: int| 0 <= i < j < g.len() implies key_lt(
                g[i].key_of(),
                g[j].key_of(),
            ) by {
                if j < f.len() {
                    assert(g[i] == f[i] && g[j] == f[j]);
                } else {
                    assert(g[i] == f[i] && g[j] == s.last());
                }
            }
        }
    }
}

/// The identifiers of a sequence of records, in order.
pub fn keys_of<T: Keyed>(v: &Vec<T>) -> (r: Vec<String>)
    ensures
        r@.map_values(|s: String| s@) == v@.map_values(|t: T| t.key_of()),
{
    let mut r: Vec<String> = Vec::new();
    let mut i: usize = 0;
    while i < v.len()
        invariant
            i <= v@.len(),
            r@.map_values(|s: String| s@) =~= v@.take(i as int).map_values(|t: T| t.key_of()),
        decreases v@.len() - i,
    {
        let k = v[i].key().clone();
        let ghost before = r@;
        r.push(k);
        proof {
            assert(v@.take(i + 1) =~= v@.take(i as int).push(v@[i as int]));
            assert(r@.map_values(|s: String| s@) =~= before.map_values(|s: String| s@).push(k@));
            assert(v@.take(i + 1).map_values(|t: T| t.key_of()) =~= v@.take(i as int).map_values(
                |t: T| t.key_of(),
            ).push(k@));
        }
        i = i + 1;
    }
    proof {
        assert(v@.take(i as int) =~= v@);
    }
    r
}

} // verus!
