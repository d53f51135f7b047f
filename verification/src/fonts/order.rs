//! The order of the family list the Windows settings page shows: each family once,
//! sorted by its lowercase name, families whose names lower alike keeping their order.

use vstd::prelude::*;
use vstd::string::StringSliceAdditionalSpecFns;
use vstd::utf8::encode_utf8;

use super::{families, first_seen, views};
use crate::text::{lowercase, to_lowercase};

verus! {

/// Byte-wise lexicographic order, as `String`'s `Ord` compares.
pub open spec fn bytes_le(a: Seq<u8>, b: Seq<u8>) -> bool
    decreases a.len(),
{
    if a.len() == 0 {
        true
    } else if b.len() == 0 {
        false
    } else if a[0] != b[0] {
        a[0] < b[0]
    } else {
        bytes_le(a.drop_first(), b.drop_first())
    }
}

/// `bytes_le` is plain lexicographic byte order: where the two first differ, at `k`,
/// the smaller byte decides, whatever the lengths; when one is a prefix of the other,
/// the shorter comes first.
pub proof fn lemma_bytes_le_lexicographic(a: Seq<u8>, b: Seq<u8>, k: int)
    requires
        0 <= k <= a.len(),
        k <= b.len(),
        a.take(k) == b.take(k),
    ensures
        k < a.len() && k < b.len() && a[k] != b[k] ==> (bytes_le(a, b) <==> a[k] < b[k]),
        k == a.len() ==> bytes_le(a, b),
        k == b.len() && k < a.len() ==> !bytes_le(a, b),
    decreases k,
{
    if k > 0 {
        assert(a[0] == a.take(k)[0] && b[0] == b.take(k)[0]);
        assert(a.drop_first().take(k - 1) =~= a.take(k).drop_first());
        assert(b.drop_first().take(k - 1) =~= b.take(k).drop_first());
        lemma_bytes_le_lexicographic(a.drop_first(), b.drop_first(), k - 1);
        if k < a.len() {
            assert(a.drop_first()[k - 1] == a[k]);
        }
        if k < b.len() {
            assert(b.drop_first()[k - 1] == b[k]);
        }
    }
}

/// `x` put into the key-sorted `s` after every entry whose key is not greater: the
/// place a stable sort gives it.
pub open spec fn insert_by_key(s: Seq<(Seq<u8>, Seq<char>)>, x: (Seq<u8>, Seq<char>)) -> Seq<
    (Seq<u8>, Seq<char>),
>
    decreases s.len(),
{
    if s.len() == 0 {
        seq![x]
    } else if bytes_le(s.last().0, x.0) {
        s.push(x)
    } else {
        insert_by_key(s.drop_last(), x).push(s.last())
    }
}

/// `items` stably sorted by key.
pub open spec fn sorted_by_key(items: Seq<(Seq<u8>, Seq<char>)>) -> Seq<(Seq<u8>, Seq<char>)>
    decreases items.len(),
{
    if items.len() == 0 {
        items
    } else {
        insert_by_key(sorted_by_key(items.drop_last()), items.last())
    }
}

/// Every key is at most every later key.
pub open spec fn key_sorted(s: Seq<(Seq<u8>, Seq<char>)>) -> bool {
    forall|i: int, j: int| 0 <= i < j < s.len() ==> bytes_le(#[trigger] s[i].0, #[trigger] s[j].0)
}

proof fn lemma_bytes_le_total(a: Seq<u8>, b: Seq<u8>)
    ensures
        bytes_le(a, b) || bytes_le(b, a),
    decreases a.len(),
{
    if a.len() > 0 && b.len() > 0 && a[0] == b[0] {
        lemma_bytes_le_total(a.drop_first(), b.drop_first());
    }
}

proof fn lemma_bytes_le_trans(a: Seq<u8>, b: Seq<u8>, c: Seq<u8>)
    requires
        bytes_le(a, b),
        bytes_le(b, c),
    ensures
        bytes_le(a, c),
    decreases a.len(),
{
    if a.len() > 0 && b.len() > 0 && c.len() > 0 && a[0] == b[0] && b[0] == c[0] {
        lemma_bytes_le_trans(a.drop_first(), b.drop_first(), c.drop_first());
    }
}

proof fn lemma_insert_by_key(s: Seq<(Seq<u8>, Seq<char>)>, x: (Seq<u8>, Seq<char>))
    requires
        key_sorted(s),
    ensures
        key_sorted(insert_by_key(s, x)),
        insert_by_key(s, x).to_multiset() =~= s.to_multiset().insert(x),
    decreases s.len(),
{
    broadcast use vstd::seq_lib::group_to_multiset_ensures;

    if s.len() == 0 {
        assert(seq![x] =~= Seq::<(Seq<u8>, Seq<char>)>::empty().push(x));
    } else if bytes_le(s.last().0, x.0) {
        let r = s.push(x);
        assert forall|i: int, j: int| 0 <= i < j < r.len() implies bytes_le(
            #[trigger] r[i].0,
            #[trigger] r[j].0,
        ) by {
            if j == s.len() {
                if i < s.len() - 1 {
                    lemma_bytes_le_trans(s[i].0, s.last().0, x.0);
                }
            } else {
                assert(r[i] == s[i] && r[j] == s[j]);
            }
        }
    } else {
        let init = s.drop_last();
        let last = s.last();
        assert(key_sorted(init)) by {
            assert forall|i: int, j: int| 0 <= i < j < init.len() implies bytes_le(
                #[trigger] init[i].0,
                #[trigger] init[j].0,
            ) by {
                assert(init[i] == s[i] && init[j] == s[j]);
            }
        }
        lemma_insert_by_key(init, x);
        let m = insert_by_key(init, x);
        let r = m.push(last);
        lemma_bytes_le_total(last.0, x.0);
        assert forall|k: int| 0 <= k < m.len() implies bytes_le(#[trigger] m[k].0, last.0) by {
            assert(m.to_multiset().count(m[k]) > 0);
            if m[k] != x {
                assert(init.to_multiset().count(m[k]) > 0);
                assert(init.contains(m[k]));
                let i = choose|i: int| 0 <= i < init.len() && init[i] == m[k];
                assert(s[i] == init[i]);
                assert(s[s.len() - 1] == last);
            }
        }
        assert forall|i: int, j: int| 0 <= i < j < r.len() implies bytes_le(
            #[trigger] r[i].0,
            #[trigger] r[j].0,
        ) by {
            if j == m.len() {
                assert(r[i] == m[i]);
            } else {
                assert(r[i] == m[i] && r[j] == m[j]);
            }
        }
        assert(s =~= init.push(last));
    }
}

/// A stable sort by key is sorted by key and holds exactly the entries it was given.
pub proof fn lemma_sorted_by_key(items: Seq<(Seq<u8>, Seq<char>)>)
    ensures
        key_sorted(sorted_by_key(items)),
        sorted_by_key(items).to_multiset() =~= items.to_multiset(),
    decreases items.len(),
{
    broadcast use vstd::seq_lib::group_to_multiset_ensures;

    if items.len() > 0 {
        lemma_sorted_by_key(items.drop_last());
        lemma_insert_by_key(sorted_by_key(items.drop_last()), items.last());
        assert(items =~= items.drop_last().push(items.last()));
    }
}

/// The names of `names`, each keyed by the bytes of `keys` at the same position.
pub open spec fn keyed(names: Seq<Seq<char>>, keys: Seq<Seq<u8>>) -> Seq<(Seq<u8>, Seq<char>)> {
    Seq::new(names.len(), |i: int| (keys[i], names[i]))
}

pub open spec fn names_of(items: Seq<(Seq<u8>, Seq<char>)>) -> Seq<Seq<char>> {
    items.map_values(|e: (Seq<u8>, Seq<char>)| e.1)
}

pub open spec fn key_bytes(keys: Seq<String>) -> Seq<Seq<u8>> {
    keys.map_values(|k: String| encode_utf8(k@))
}

/// Whether `a <= b` byte-wise.
fn key_le(a: &str, b: &str) -> (r: bool)
    ensures
        r == bytes_le(a.spec_bytes(), b.spec_bytes()),
{
    let x = a.as_bytes();
    let y = b.as_bytes();
    let mut i: usize = 0;
    proof {
        assert(x@.skip(0) =~= x@);
        assert(y@.skip(0) =~= y@);
    }
    while i < x.len() && i < y.len() && x[i] == y[i]
        invariant
            i <= x@.len(),
            i <= y@.len(),
            x@ == a.spec_bytes(),
            y@ == b.spec_bytes(),
            bytes_le(x@, y@) == bytes_le(x@.skip(i as int), y@.skip(i as int)),
        decreases x@.len() - i,
    {
        proof {
            assert(x@.skip(i as int).drop_first() =~= x@.skip(i + 1));
            assert(y@.skip(i as int).drop_first() =~= y@.skip(i + 1));
        }
        i += 1;
    }
    if i == x.len() {
        true
    } else if i == y.len() {
        false
    } else {
        x[i] < y[i]
    }
}

/// `names` stably sorted by `keys` (the key of each name at the same position),
/// compared byte-wise.
pub fn sort_by_keys(names: Vec<String>, keys: Vec<String>) -> (sorted: Vec<String>)
    requires
        keys@.len() == names@.len(),
    ensures
        views(sorted@) == names_of(sorted_by_key(keyed(views(names@), key_bytes(keys@)))),
{
    let ghost items = keyed(views(names@), key_bytes(keys@));
    let mut out: Vec<(String, String)> = Vec::new();
    let mut i: usize = 0;
    while i < names.len()
        invariant
            i <= names@.len(),
            keys@.len() == names@.len(),
            items == keyed(views(names@), key_bytes(keys@)),
            out@.map_values(|e: (String, String)| (encode_utf8(e.0@), e.1@)) == sorted_by_key(
                items.take(i as int),
            ),
        decreases names@.len() - i,
    {
        let ghost s = out@.map_values(|e: (String, String)| (encode_utf8(e.0@), e.1@));
        let key = keys[i].clone();
        let name = names[i].clone();
        let ghost x = (encode_utf8(key@), name@);
        proof {
            assert(items[i as int] == x);
            assert(items.take(i + 1).drop_last() =~= items.take(i as int));
            assert(items.take(i + 1).last() == x);
        }
        let mut j: usize = out.len();
        proof {
            assert(s.take(j as int) =~= s);
            assert(s.skip(j as int) =~= Seq::<(Seq<u8>, Seq<char>)>::empty());
            assert(insert_by_key(s, x) + Seq::<(Seq<u8>, Seq<char>)>::empty() =~= insert_by_key(s, x));
        }
        while j > 0 && !key_le(out[j - 1].0.as_str(), key.as_str())
            invariant
                j <= out@.len(),
                s == out@.map_values(|e: (String, String)| (encode_utf8(e.0@), e.1@)),
                x == (encode_utf8(key@), name@),
                insert_by_key(s, x) == insert_by_key(s.take(j as int), x) + s.skip(j as int),
            decreases j,
        {
            proof {
                let t = s.take(j as int);
                assert(t.last() == s[j - 1]);
                assert(t.drop_last() =~= s.take(j - 1));
                assert(s.skip(j - 1) =~= seq![s[j - 1]] + s.skip(j as int));
                assert(insert_by_key(t, x) == insert_by_key(s.take(j - 1), x).push(s[j - 1]));
                assert(insert_by_key(s.take(j - 1), x).push(s[j - 1]) + s.skip(j as int)
                    =~= insert_by_key(s.take(j - 1), x) + s.skip(j - 1));
            }
            j -= 1;
        }
        proof {
            let t = s.take(j as int);
            if j > 0 {
                assert(t.last() == s[j - 1]);
                assert(insert_by_key(t, x) == t.push(x));
            } else {
                assert(t =~= Seq::<(Seq<u8>, Seq<char>)>::empty());
                assert(insert_by_key(t, x) == seq![x]);
            }
        }
        out.insert(j, (key, name));
        proof {
            let t = s.take(j as int);
            let now = out@.map_values(|e: (String, String)| (encode_utf8(e.0@), e.1@));
            assert(now =~= t.push(x) + s.skip(j as int));
        }
        i += 1;
    }
    proof {
        assert(items.take(names@.len() as int) =~= items);
    }
    let mut sorted: Vec<String> = Vec::new();
    let mut k: usize = 0;
    while k < out.len()
        invariant
            k <= out@.len(),
            sorted@.len() == k,
            forall|m: int| 0 <= m < k ==> #[trigger] sorted@[m]@ == out@[m].1@,
        decreases out@.len() - k,
    {
        sorted.push(out[k].1.clone());
        k += 1;
    }
    proof {
        let full = out@.map_values(|e: (String, String)| (encode_utf8(e.0@), e.1@));
        assert(views(sorted@) =~= names_of(full));
    }
    sorted
}

/// The family names for the settings page (`names`, every family the system lists):
/// each once, sorted by its lowercase name, names that lower alike keeping the order
/// they came in.
pub fn settings_families(names: &[String]) -> (v: Vec<String>)
    ensures
        views(v@) == names_of(
            sorted_by_key(
                keyed(
                    first_seen(views(names@)),
                    first_seen(views(names@)).map_values(
                        |n: Seq<char>| encode_utf8(lowercase(n)),
                    ),
                ),
            ),
        ),
{
    let unique = families(names);
    let mut keys: Vec<String> = Vec::new();
    let mut i: usize = 0;
    while i < unique.len()
        invariant
            i <= unique@.len(),
            keys@.len() == i,
            forall|k: int| 0 <= k < i ==> #[trigger] keys@[k]@ == lowercase(unique@[k]@),
        decreases unique@.len() - i,
    {
        keys.push(to_lowercase(unique[i].as_str()));
        i += 1;
    }
    let ghost u = views(unique@);
    let v = sort_by_keys(unique, keys);
    proof {
        let lowered = u.map_values(|n: Seq<char>| encode_utf8(lowercase(n)));
        assert(keyed(u, key_bytes(keys@)) =~= keyed(u, lowered)) by {
            assert forall|k: int| 0 <= k < u.len() implies key_bytes(keys@)[k] == lowered[k] by {
                assert(keys@[k]@ == lowercase(u[k]));
            }
        }
    }
    v
}

} // verus!
