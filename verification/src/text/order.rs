//! The order of strings, character by character, and stable sorting by it.

use vstd::prelude::*;

use super::chars::chars_of;

verus! {

/// Whether `a` stands before `b` in a dictionary, or equals it.
pub open spec fn text_le(a: Seq<char>, b: Seq<char>) -> bool
    decreases a.len(),
{
    if a.len() == 0 {
        true
    } else if b.len() == 0 {
        false
    } else if a[0] == b[0] {
        text_le(a.drop_first(), b.drop_first())
    } else {
        a[0] < b[0]
    }
}

/// Puts `x` into `s` behind every element whose key is at most its own, scanning from the right.
pub open spec fn insert_by<T>(s: Seq<T>, x: T, key: spec_fn(T) -> Seq<char>) -> Seq<T>
    decreases s.len(),
{
    if s.len() == 0 {
        seq![x]
    } else if text_le(key(s.last()), key(x)) {
        s.push(x)
    } else {
        insert_by(s.drop_last(), x, key).push(s.last())
    }
}

/// `s` in the order of its keys; elements with one key keep their order.
pub open spec fn sort_by<T>(s: Seq<T>, key: spec_fn(T) -> Seq<char>) -> Seq<T>
    decreases s.len(),
{
    if s.len() == 0 {
        s
    } else {
        insert_by(sort_by(s.drop_last(), key), s.last(), key)
    }
}

/// Strings in dictionary order.
pub open spec fn sorted(s: Seq<Seq<char>>) -> Seq<Seq<char>> {
    sort_by(s, |t: Seq<char>| t)
}

/// Whether the keys of `s` never decrease.
pub open spec fn in_order<T>(s: Seq<T>, key: spec_fn(T) -> Seq<char>) -> bool {
    forall|i: int, j: int|
        0 <= i <= j < s.len() ==> text_le(key(#[trigger] s[i]), key(#[trigger] s[j]))
}

/// The first place at which two strings differ decides which stands first, and a string stands
/// before any longer one that starts with it.
pub proof fn first_difference_decides(a: Seq<char>, b: Seq<char>, i: int)
    requires
        0 <= i <= a.len(),
        i <= b.len(),
        forall|j: int| 0 <= j < i ==> a[j] == b[j],
    ensures
        i < a.len() && i < b.len() && a[i] < b[i] ==> text_le(a, b) && !text_le(b, a),
        i == a.len() ==> text_le(a, b),
        i == a.len() && i < b.len() ==> !text_le(b, a),
    decreases a.len(),
{
    if i > 0 {
        assert(a[0] == b[0]);
        let x = a.drop_first();
        let y = b.drop_first();
        assert forall|j: int| 0 <= j < i - 1 implies x[j] == y[j] by {
            assert(x[j] == a[j + 1]);
            assert(y[j] == b[j + 1]);
        }
        first_difference_decides(x, y, i - 1);
    }
}

/// The order is total: of two strings one stands before the other.
pub proof fn text_le_total(a: Seq<char>, b: Seq<char>)
    ensures
        text_le(a, b) || text_le(b, a),
    decreases a.len(),
{
    if a.len() > 0 && b.len() > 0 {
        text_le_total(a.drop_first(), b.drop_first());
    }
}

/// The order is transitive.
pub proof fn text_le_transitive(a: Seq<char>, b: Seq<char>, c: Seq<char>)
    requires
        text_le(a, b),
        text_le(b, c),
    ensures
        text_le(a, c),
    decreases a.len(),
{
    if a.len() > 0 && b.len() > 0 && c.len() > 0 && a[0] == b[0] && b[0] == c[0] {
        text_le_transitive(a.drop_first(), b.drop_first(), c.drop_first());
    }
}

/// Two strings that stand before each other are equal.
pub proof fn text_le_antisymmetric(a: Seq<char>, b: Seq<char>)
    requires
        text_le(a, b),
        text_le(b, a),
    ensures
        a == b,
    decreases a.len(),
{
    if a.len() > 0 && b.len() > 0 {
        text_le_antisymmetric(a.drop_first(), b.drop_first());
        assert(a =~= seq![a[0]] + a.drop_first());
        assert(b =~= seq![b[0]] + b.drop_first());
    } else {
        assert(a =~= b);
    }
}

proof fn lemma_insert_position<T>(s: Seq<T>, x: T, key: spec_fn(T) -> Seq<char>, j: int)
    requires
        0 <= j <= s.len(),
        j > 0 ==> text_le(key(s[j - 1]), key(x)),
        forall|k: int| j <= k < s.len() ==> !text_le(key(#[trigger] s[k]), key(x)),
    ensures
        insert_by(s, x, key) == s.insert(j, x),
    decreases s.len(),
{
    if s.len() > j {
        lemma_insert_position(s.drop_last(), x, key, j);
        assert(s.drop_last().insert(j, x).push(s.last()) =~= s.insert(j, x));
    } else if s.len() == 0 {
        assert(s.insert(j, x) =~= seq![x]);
    } else {
        assert(s.insert(j, x) =~= s.push(x));
    }
}

proof fn lemma_insert_by<T>(s: Seq<T>, x: T, key: spec_fn(T) -> Seq<char>)
    requires
        in_order(s, key),
    ensures
        in_order(insert_by(s, x, key), key),
        insert_by(s, x, key).to_multiset() == s.to_multiset().insert(x),
    decreases s.len(),
{
    broadcast use vstd::seq_lib::group_to_multiset_ensures;

    let r = insert_by(s, x, key);
    text_le_total(key(x), key(x));
    if s.len() == 0 {
        assert(s.push(x) =~= seq![x]);
    } else if text_le(key(s.last()), key(x)) {
        assert forall|i: int, j: int| 0 <= i <= j < r.len() implies text_le(
            key(#[trigger] r[i]),
            key(#[trigger] r[j]),
        ) by {
            if i < s.len() && j == s.len() {
                assert(text_le(key(s[i]), key(s[s.len() - 1])));
                text_le_transitive(key(s[i]), key(s.last()), key(x));
            }
        }
    } else {
        let t = insert_by(s.drop_last(), x, key);
        lemma_insert_by(s.drop_last(), x, key);
        text_le_total(key(s.last()), key(x));
        assert(s =~= s.drop_last().push(s.last()));
        assert forall|i: int| 0 <= i < t.len() implies text_le(
            key(#[trigger] t[i]),
            key(s.last()),
        ) by {
            assert(t.to_multiset().count(t[i]) > 0);
            if t[i] != x {
                assert(s.drop_last().to_multiset().count(t[i]) > 0);
                let k = choose|k: int| 0 <= k < s.drop_last().len() && s.drop_last()[k] == t[i];
                assert(text_le(key(s[k]), key(s[s.len() - 1])));
            }
        }
        text_le_total(key(s.last()), key(s.last()));
        assert forall|i: int, j: int| 0 <= i <= j < r.len() implies text_le(
            key(#[trigger] r[i]),
            key(#[trigger] r[j]),
        ) by {
            if j < t.len() {
                assert(text_le(key(t[i]), key(t[j])));
            } else if i < t.len() {
                assert(text_le(key(t[i]), key(s.last())));
            }
        }
    }
}

/// Sorting puts the elements in order and neither loses nor adds one.
pub proof fn sort_by_sorts<T>(s: Seq<T>, key: spec_fn(T) -> Seq<char>)
    ensures
        in_order(sort_by(s, key), key),
        sort_by(s, key).to_multiset() == s.to_multiset(),
        sort_by(s, key).len() == s.len(),
    decreases s.len(),
{
    broadcast use vstd::seq_lib::group_to_multiset_ensures;

    if s.len() > 0 {
        sort_by_sorts(s.drop_last(), key);
        lemma_insert_by(sort_by(s.drop_last(), key), s.last(), key);
        assert(s =~= s.drop_last().push(s.last()));
    }
    assert(sort_by(s, key).to_multiset().len() == s.to_multiset().len());
}

/// Which strings are sorted, not the order in which they came, decides the sorted row.
pub proof fn sorted_ignores_order(s: Seq<Seq<char>>, t: Seq<Seq<char>>)
    requires
        s.to_multiset() == t.to_multiset(),
    ensures
        sorted(s) == sorted(t),
{
    let key = |u: Seq<char>| u;
    let leq = |a: Seq<char>, b: Seq<char>| text_le(a, b);
    sort_by_sorts(s, key);
    sort_by_sorts(t, key);
    assert(vstd::relations::total_ordering(leq)) by {
        assert forall|a: Seq<char>| #[trigger] leq(a, a) by {
            text_le_total(a, a);
        }
        assert forall|a: Seq<char>, b: Seq<char>| #[trigger]
            leq(a, b) && #[trigger] leq(b, a) implies a == b by {
            text_le_antisymmetric(a, b);
        }
        assert forall|a: Seq<char>, b: Seq<char>, c: Seq<char>| #[trigger]
            leq(a, b) && #[trigger] leq(b, c) implies leq(a, c) by {
            text_le_transitive(a, b, c);
        }
        assert forall|a: Seq<char>, b: Seq<char>| #[trigger] leq(a, b) || #[trigger] leq(b, a) by {
            text_le_total(a, b);
        }
    }
    assert(vstd::relations::sorted_by(sorted(s), leq)) by {
        assert forall|i: int, j: int| 0 <= i < j < sorted(s).len() implies #[trigger] leq(
            sorted(s)[i],
            sorted(s)[j],
        ) by {
            assert(text_le(key(sorted(s)[i]), key(sorted(s)[j])));
        }
    }
    assert(vstd::relations::sorted_by(sorted(t), leq)) by {
        assert forall|i: int, j: int| 0 <= i < j < sorted(t).len() implies #[trigger] leq(
            sorted(t)[i],
            sorted(t)[j],
        ) by {
            assert(text_le(key(sorted(t)[i]), key(sorted(t)[j])));
        }
    }
    vstd::seq_lib::lemma_sorted_unique(sorted(s), sorted(t), leq);
}

/// Whether `a` stands before `b` in a dictionary, or equals it.
pub fn is_text_le(a: &str, b: &str) -> (r: bool)
    ensures
        r == text_le(a@, b@),
{
    let v = chars_of(a);
    let w = chars_of(b);
    let mut i: usize = 0;
    assert(v@.skip(0) == v@);
    assert(w@.skip(0) == w@);
    while i < v.len() && i < w.len()
        invariant
            i <= v@.len(),
            i <= w@.len(),
            v@ == a@,
            w@ == b@,
            text_le(a@, b@) == text_le(v@.skip(i as int), w@.skip(i as int)),
        decreases v@.len() - i,
    {
        if v[i] != w[i] {
            return v[i] < w[i];
        }
        assert(v@.skip(i as int).drop_first() =~= v@.skip(i + 1));
        assert(w@.skip(i as int).drop_first() =~= w@.skip(i + 1));
        i = i + 1;
    }
    i == v.len()
}

/// The position at which `insert_by` puts a value with the key `key` into a row with the keys
/// `keys`.
pub fn insert_position(keys: &Vec<String>, key: &str) -> (r: usize)
    ensures
        r <= keys@.len(),
        r > 0 ==> text_le(keys@[r - 1]@, key@),
        forall|k: int| r <= k < keys@.len() ==> !text_le(#[trigger] keys@[k]@, key@),
{
    let mut j: usize = keys.len();
    while j > 0 && !is_text_le(&keys[j - 1], key)
        invariant
            j <= keys@.len(),
            forall|k: int| j <= k < keys@.len() ==> !text_le(#[trigger] keys@[k]@, key@),
        decreases j,
    {
        j = j - 1;
    }
    j
}

/// Strings in dictionary order.
pub fn sort_texts(items: &Vec<String>) -> (r: Vec<String>)
    ensures
        r.deep_view() == sorted(items.deep_view()),
{
    let ghost all = items.deep_view();
    let ghost key = |t: Seq<char>| t;
    let mut out: Vec<String> = Vec::new();
    let mut i: usize = 0;
    assert(all.take(0) =~= Seq::empty());
    assert(out.deep_view() =~= Seq::empty());
    while i < items.len()
        invariant
            i <= items@.len(),
            all == items.deep_view(),
            key == (|t: Seq<char>| t),
            out.deep_view() == sort_by(all.take(i as int), key),
        decreases items@.len() - i,
    {
        let ghost before = out.deep_view();
        let item = items[i].clone();
        let j: usize = insert_position(&out, &item);
        proof {
            assert(all.take(i + 1).drop_last() =~= all.take(i as int));
            assert(all.take(i + 1).last() == item@);
            assert forall|k: int| j <= k < before.len() implies !text_le(
                key(#[trigger] before[k]),
                key(item@),
            ) by {
                assert(before[k] == out@[k]@);
            }
            lemma_insert_position(before, item@, key, j as int);
        }
        out.insert(j, item);
        assert(out.deep_view() =~= before.insert(j as int, item@));
        i = i + 1;
    }
    assert(all.take(i as int) =~= all);
    out
}

/// The positions below `n`.
pub open spec fn positions(n: nat) -> Seq<int> {
    Seq::new(n, |i: int| i)
}

proof fn lemma_insert_map<A, B>(s: Seq<A>, x: A, f: spec_fn(A) -> B, key: spec_fn(B) -> Seq<char>)
    ensures
        insert_by(s, x, |a: A| key(f(a))).map_values(f) == insert_by(s.map_values(f), f(x), key),
    decreases s.len(),
{
    let inner = |a: A| key(f(a));
    let mapped = s.map_values(f);
    if s.len() == 0 {
        assert(seq![x].map_values(f) =~= seq![f(x)]);
    } else {
        assert(mapped.last() == f(s.last()));
        assert(mapped.drop_last() =~= s.drop_last().map_values(f));
        if text_le(inner(s.last()), inner(x)) {
            assert(s.push(x).map_values(f) =~= mapped.push(f(x)));
        } else {
            lemma_insert_map(s.drop_last(), x, f, key);
            assert(insert_by(s.drop_last(), x, inner).push(s.last()).map_values(f) =~= insert_by(
                s.drop_last(),
                x,
                inner,
            ).map_values(f).push(f(s.last())));
        }
    }
}

/// Sorting does not care what elements stand for: what they stand for can be looked up afterwards.
pub proof fn sort_of_images<A, B>(s: Seq<A>, f: spec_fn(A) -> B, key: spec_fn(B) -> Seq<char>)
    ensures
        sort_by(s, |a: A| key(f(a))).map_values(f) == sort_by(s.map_values(f), key),
    decreases s.len(),
{
    let inner = |a: A| key(f(a));
    if s.len() == 0 {
        assert(s.map_values(f) =~= seq![]);
        assert(sort_by(s, inner).map_values(f) =~= seq![]);
    } else {
        assert(s.map_values(f).drop_last() =~= s.drop_last().map_values(f));
        assert(s.map_values(f).last() == f(s.last()));
        sort_of_images(s.drop_last(), f, key);
        lemma_insert_map(sort_by(s.drop_last(), inner), s.last(), f, key);
    }
}

/// The positions of the keys, in the order of the keys.
pub fn sorted_positions(keys: &Vec<String>) -> (r: Vec<usize>)
    ensures
        r@.map_values(|i: usize| i as int) == sort_by(
            positions(keys@.len()),
            |i: int| keys@[i]@,
        ),
        forall|k: int| 0 <= k < r@.len() ==> (#[trigger] r@[k]) < keys@.len(),
        r@.len() == keys@.len(),
{
    let ghost key = |i: int| keys@[i]@;
    let ghost number = |i: usize| i as int;
    let ghost all = positions(keys@.len());
    let mut order: Vec<usize> = Vec::new();
    let mut placed: Vec<String> = Vec::new();
    let mut i: usize = 0;
    assert(all.take(0) =~= seq![]);
    assert(order@.map_values(number) =~= sort_by(all.take(0), key));
    while i < keys.len()
        invariant
            i <= keys@.len(),
            key == (|i: int| keys@[i]@),
            number == (|i: usize| i as int),
            all == positions(keys@.len()),
            order@.len() == i,
            placed@.len() == i,
            forall|k: int| 0 <= k < i ==> (#[trigger] order@[k]) < keys@.len(),
            forall|k: int| 0 <= k < i ==> (#[trigger] placed@[k])@ == key(order@[k] as int),
            order@.map_values(number) == sort_by(all.take(i as int), key),
        decreases keys@.len() - i,
    {
        let ghost before = order@;
        let ghost held = placed@;
        let ghost mapped = before.map_values(number);
        assert(all.take(i + 1).drop_last() =~= all.take(i as int));
        assert(all.take(i + 1).last() == i as int);
        let j: usize = insert_position(&placed, &keys[i]);
        proof {
            assert forall|k: int| j <= k < mapped.len() implies !text_le(
                key(#[trigger] mapped[k]),
                key(i as int),
            ) by {
                assert(held[k]@ == key(before[k] as int));
            }
            if j > 0 {
                assert(held[j - 1]@ == key(before[j - 1] as int));
            }
            lemma_insert_position(mapped, i as int, key, j as int);
        }
        order.insert(j, i);
        placed.insert(j, keys[i].clone());
        assert(order@.map_values(number) =~= mapped.insert(j as int, i as int));
        assert forall|k: int| 0 <= k < i + 1 implies (#[trigger] placed@[k])@ == key(
            order@[k] as int,
        ) by {
            if k < j {
                assert(held[k]@ == key(before[k] as int));
            } else if k > j {
                assert(held[k - 1]@ == key(before[k - 1] as int));
            }
        }
        i = i + 1;
    }
    assert(all.take(i as int) =~= all);
    order
}

} // verus!
