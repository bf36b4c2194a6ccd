//! Searching, filtering and stable sorting of sequences.

use vstd::prelude::*;

verus! {

/// The first member of `s` that `p` holds of.
pub open spec fn first_where<T>(s: Seq<T>, p: spec_fn(T) -> bool) -> Option<T>
    decreases s.len(),
{
    if s.len() == 0 {
        None
    } else if p(s[0]) {
        Some(s[0])
    } else {
        first_where(s.skip(1), p)
    }
}

/// One step of a search: the member in front does not qualify.
pub proof fn lemma_first_where_step<T>(s: Seq<T>, p: spec_fn(T) -> bool, i: int)
    requires
        0 <= i < s.len(),
        !p(s[i]),
    ensures
        first_where(s.skip(i), p) == first_where(s.skip(i + 1), p),
{
    assert(s.skip(i)[0] == s[i]);
    assert(s.skip(i).skip(1) =~= s.skip(i + 1));
}

/// A search ends at the first member that qualifies.
pub proof fn lemma_first_where_found<T>(s: Seq<T>, p: spec_fn(T) -> bool, i: int)
    requires
        0 <= i < s.len(),
        p(s[i]),
    ensures
        first_where(s.skip(i), p) == Some(s[i]),
{
    assert(s.skip(i)[0] == s[i]);
}

/// What a search finds is a member that qualifies, and it finds one wherever one is.
pub proof fn lemma_first_where<T>(s: Seq<T>, p: spec_fn(T) -> bool)
    ensures
        first_where(s, p) is Some ==> s.contains(first_where(s, p)->0) && p(first_where(s, p)->0),
        first_where(s, p) is None ==> forall|i: int| 0 <= i < s.len() ==> !p(#[trigger] s[i]),
    decreases s.len(),
{
    if s.len() > 0 && !p(s[0]) {
        lemma_first_where(s.skip(1), p);
        match first_where(s.skip(1), p) {
            Some(x) => {
                let k = choose|k: int| 0 <= k < s.skip(1).len() && s.skip(1)[k] == x;
                assert(s[k + 1] == x);
            },
            None => {
                assert forall|i: int| 0 <= i < s.len() implies !p(#[trigger] s[i]) by {
                    if i > 0 {
                        assert(s.skip(1)[i - 1] == s[i]);
                    }
                }
            },
        }
    }
}

/// Filtering one member more.
pub proof fn lemma_filter_step<T>(s: Seq<T>, p: spec_fn(T) -> bool, i: int)
    requires
        0 <= i < s.len(),
    ensures
        s.take(i + 1).filter(p) == (if p(s[i]) {
            s.take(i).filter(p).push(s[i])
        } else {
            s.take(i).filter(p)
        }),
{
    reveal(Seq::filter);
    assert(s.take(i + 1).drop_last() =~= s.take(i));
    assert(s.take(i + 1).last() == s[i]);
}

/// A whole sequence is its own longest prefix.
pub proof fn lemma_take_all<T>(s: Seq<T>)
    ensures
        s.take(s.len() as int) == s,
        s.skip(0) == s,
{
    assert(s.take(s.len() as int) =~= s);
    assert(s.skip(0) =~= s);
}

/// `sorted` with `x` put behind the last entry whose key is not above its own.
pub open spec fn insert_by_key<T>(sorted: Seq<(i64, T)>, x: (i64, T)) -> Seq<(i64, T)>
    decreases sorted.len(),
{
    if sorted.len() == 0 {
        seq![x]
    } else if sorted.last().0 <= x.0 {
        sorted.push(x)
    } else {
        insert_by_key(sorted.drop_last(), x).push(sorted.last())
    }
}

/// The entries of `s` by ascending key; entries of equal key keep their order.
pub open spec fn sort_by_key<T>(s: Seq<(i64, T)>) -> Seq<(i64, T)>
    decreases s.len(),
{
    if s.len() == 0 {
        s
    } else {
        insert_by_key(sort_by_key(s.drop_last()), s.last())
    }
}

/// The entries without their keys.
pub open spec fn payloads<T>(s: Seq<(i64, T)>) -> Seq<T> {
    s.map_values(|entry: (i64, T)| entry.1)
}

proof fn lemma_insert_at<T>(sorted: Seq<(i64, T)>, x: (i64, T), k: int)
    requires
        0 <= k <= sorted.len(),
        forall|j: int| k <= j < sorted.len() ==> (#[trigger] sorted[j]).0 > x.0,
        k > 0 ==> sorted[k - 1].0 <= x.0,
    ensures
        insert_by_key(sorted, x) == sorted.insert(k, x),
    decreases sorted.len(),
{
    if sorted.len() == 0 {
        assert(seq![x] =~= sorted.insert(k, x));
    } else if sorted.last().0 <= x.0 {
        assert(k == sorted.len());
        assert(sorted.push(x) =~= sorted.insert(k, x));
    } else {
        let front = sorted.drop_last();
        assert(k < sorted.len()) by {
            if k == sorted.len() {
                assert(sorted[k - 1] == sorted.last());
            }
        }
        lemma_insert_at(front, x, k);
        assert(front.insert(k, x).push(sorted.last()) =~= sorted.insert(k, x));
    }
}

/// Sorts by key; entries of equal key keep their order.
pub fn sort_entries<T: Copy>(s: &Vec<(i64, T)>) -> (sorted: Vec<(i64, T)>)
    ensures
        sorted@ == sort_by_key(s@),
{
    let mut sorted: Vec<(i64, T)> = Vec::new();
    assert(s@.take(0) =~= Seq::<(i64, T)>::empty());
    for i in 0..s.len()
        invariant
            sorted@ == sort_by_key(s@.take(i as int)),
    {
        let x = s[i];
        let ghost held = sorted@;
        let mut k: usize = sorted.len();
        while k > 0 && sorted[k - 1].0 > x.0
            invariant
                k <= sorted@.len(),
                sorted@ == held,
                forall|j: int| k <= j < sorted@.len() ==> (#[trigger] sorted@[j]).0 > x.0,
            decreases k,
        {
            k -= 1;
        }
        proof {
            lemma_insert_at(held, x, k as int);
            assert(s@.take(i + 1).drop_last() =~= s@.take(i as int));
            assert(s@.take(i + 1).last() == x);
        }
        sorted.insert(k, x);
    }
    proof {
        lemma_take_all(s@);
    }
    sorted
}

/// Sorts by key and drops the keys.
pub fn sorted_payloads<T: Copy>(s: &Vec<(i64, T)>) -> (sorted: Vec<T>)
    ensures
        sorted@ == payloads(sort_by_key(s@)),
{
    let entries = sort_entries(s);
    let mut sorted: Vec<T> = Vec::new();
    for i in 0..entries.len()
        invariant
            sorted@ == payloads(entries@.take(i as int)),
    {
        sorted.push(entries[i].1);
        assert(payloads(entries@.take(i + 1)) =~= payloads(entries@.take(i as int)).push(
            entries@[i as int].1,
        ));
    }
    proof {
        lemma_take_all(entries@);
    }
    sorted
}

/// The members of `s` that `f` accepts, where `f` decides as `p` says.
pub fn filter_by<T: Copy, F: Fn(T) -> bool>(s: &Vec<T>, f: F, Ghost(p): Ghost<spec_fn(T) -> bool>) -> (kept:
    Vec<T>)
    requires
        forall|i: int| 0 <= i < s@.len() ==> call_requires(f, (#[trigger] s@[i],)),
        forall|i: int, b: bool|
            0 <= i < s@.len() && #[trigger] call_ensures(f, (s@[i],), b) ==> b == p(s@[i]),
    ensures
        kept@ == s@.filter(p),
        kept@.len() <= s@.len(),
        forall|i: int|
            0 <= i < kept@.len() ==> p(#[trigger] kept@[i]) && s@.contains(kept@[i]),
{
    let mut kept: Vec<T> = Vec::new();
    assert(s@.take(0).filter(p) =~= Seq::empty()) by {
        reveal(Seq::filter);
    }
    for i in 0..s.len()
        invariant
            forall|k: int| 0 <= k < s@.len() ==> call_requires(f, (#[trigger] s@[k],)),
            forall|k: int, b: bool|
                0 <= k < s@.len() && #[trigger] call_ensures(f, (s@[k],), b) ==> b == p(s@[k]),
            kept@ == s@.take(i as int).filter(p),
            kept@.len() <= i,
            forall|k: int|
                0 <= k < kept@.len() ==> p(#[trigger] kept@[k]) && s@.contains(kept@[k]),
    {
        proof {
            lemma_filter_step(s@, p, i as int);
        }
        let x: T = s[i];
        assert(s@[i as int] == x);
        if f(x) {
            kept.push(x);
        }
    }
    proof {
        lemma_take_all(s@);
    }
    kept
}

/// The first member of `s` that `f` accepts, where `f` decides as `p` says.
pub fn find_by<T: Copy, F: Fn(T) -> bool>(s: &Vec<T>, f: F, Ghost(p): Ghost<spec_fn(T) -> bool>) -> (found:
    Option<T>)
    requires
        forall|i: int| 0 <= i < s@.len() ==> call_requires(f, (#[trigger] s@[i],)),
        forall|i: int, b: bool|
            0 <= i < s@.len() && #[trigger] call_ensures(f, (s@[i],), b) ==> b == p(s@[i]),
    ensures
        found == first_where(s@, p),
        found is Some ==> p(found->0) && s@.contains(found->0),
{
    proof {
        lemma_take_all(s@);
        lemma_first_where(s@, p);
    }
    for i in 0..s.len()
        invariant
            forall|k: int| 0 <= k < s@.len() ==> call_requires(f, (#[trigger] s@[k],)),
            forall|k: int, b: bool|
                0 <= k < s@.len() && #[trigger] call_ensures(f, (s@[k],), b) ==> b == p(s@[k]),
            first_where(s@, p) == first_where(s@.skip(i as int), p),
            first_where(s@, p) is Some ==> s@.contains(first_where(s@, p)->0) && p(
                first_where(s@, p)->0,
            ),
    {
        let x: T = s[i];
        assert(s@[i as int] == x);
        if f(x) {
            proof {
                lemma_first_where_found(s@, p, i as int);
            }
            return Some(x);
        }
        proof {
            lemma_first_where_step(s@, p, i as int);
        }
    }
    None
}

/// Whether some member of `s` is as `p` says.
pub open spec fn some_where<T>(s: Seq<T>, p: spec_fn(T) -> bool) -> bool {
    exists|i: int| 0 <= i < s.len() && p(#[trigger] s[i])
}

/// Whether `f` accepts some member of `s`, where `f` decides as `p` says.
pub fn any_by<T: Copy, F: Fn(T) -> bool>(s: &Vec<T>, f: F, Ghost(p): Ghost<spec_fn(T) -> bool>) -> (any:
    bool)
    requires
        forall|i: int| 0 <= i < s@.len() ==> call_requires(f, (#[trigger] s@[i],)),
        forall|i: int, b: bool|
            0 <= i < s@.len() && #[trigger] call_ensures(f, (s@[i],), b) ==> b == p(s@[i]),
    ensures
        any == some_where(s@, p),
{
    for i in 0..s.len()
        invariant
            forall|k: int| 0 <= k < s@.len() ==> call_requires(f, (#[trigger] s@[k],)),
            forall|k: int, b: bool|
                0 <= k < s@.len() && #[trigger] call_ensures(f, (s@[k],), b) ==> b == p(s@[k]),
            forall|k: int| 0 <= k < i ==> !p(#[trigger] s@[k]),
    {
        let x: T = s[i];
        assert(s@[i as int] == x);
        if f(x) {
            return true;
        }
    }
    false
}

/// `s` without the members that occur earlier in it.
pub open spec fn distinct<T>(s: Seq<T>) -> Seq<T>
    decreases s.len(),
{
    if s.len() == 0 {
        s
    } else {
        crate::ordered_tiles::with(distinct(s.drop_last()), s.last())
    }
}

/// Whether `s` holds `x`.
pub fn has_id(s: &Vec<u16>, x: u16) -> (has: bool)
    ensures
        has == s@.contains(x),
{
    for i in 0..s.len()
        invariant
            forall|k: int| 0 <= k < i ==> s@[k] != x,
    {
        if s[i] == x {
            assert(s@[i as int] == x);
            return true;
        }
    }
    false
}

/// `s` without the members that occur earlier in it.
pub fn distinct_ids(s: &Vec<u16>) -> (ids: Vec<u16>)
    ensures
        ids@ == distinct(s@),
        ids@.len() <= s@.len(),
        forall|i: int| 0 <= i < ids@.len() ==> s@.contains(#[trigger] ids@[i]),
{
    let mut ids: Vec<u16> = Vec::new();
    assert(s@.take(0) =~= Seq::<u16>::empty());
    for i in 0..s.len()
        invariant
            ids@ == distinct(s@.take(i as int)),
            ids@.len() <= i,
            forall|k: int| 0 <= k < ids@.len() ==> s@.contains(#[trigger] ids@[k]),
    {
        assert(s@.take(i + 1).drop_last() =~= s@.take(i as int));
        let x: u16 = s[i];
        assert(s@[i as int] == x);
        if !has_id(&ids, x) {
            ids.push(x);
        }
    }
    proof {
        lemma_take_all(s@);
    }
    ids
}

/// Ids by their number.
pub open spec fn sorted_ids(s: Seq<u16>) -> Seq<u16> {
    payloads(sort_by_key(s.map_values(|id: u16| (id as i64, id))))
}

/// Ids by their number.
pub fn sort_ids(s: &Vec<u16>) -> (sorted: Vec<u16>)
    ensures
        sorted@ == sorted_ids(s@),
{
    let mut keyed: Vec<(i64, u16)> = Vec::new();
    for i in 0..s.len()
        invariant
            keyed@ == s@.take(i as int).map_values(|id: u16| (id as i64, id)),
    {
        keyed.push((s[i] as i64, s[i]));
        assert(s@.take(i + 1).map_values(|id: u16| (id as i64, id)) =~= s@.take(i as int).map_values(
            |id: u16| (id as i64, id),
        ).push((s@[i as int] as i64, s@[i as int])));
    }
    proof {
        lemma_take_all(s@);
    }
    sorted_payloads(&keyed)
}

/// No id occurs twice among those that are left.
pub proof fn law_distinct<T>(s: Seq<T>)
    ensures
        distinct(s).no_duplicates(),
        forall|x: T| #[trigger] distinct(s).contains(x) == s.contains(x),
    decreases s.len(),
{
    if s.len() > 0 {
        let front = s.drop_last();
        law_distinct(front);
        let held = distinct(front);
        let y = s.last();
        let grown = crate::ordered_tiles::with(held, y);
        assert(s[s.len() - 1] == y);
        assert forall|x: T| #[trigger] s.contains(x) == (front.contains(x) || x == y) by {
            if front.contains(x) {
                let k = choose|k: int| 0 <= k < front.len() && front[k] == x;
                assert(s[k] == x);
            }
            if s.contains(x) && x != y {
                let k = choose|k: int| 0 <= k < s.len() && s[k] == x;
                assert(front[k] == x);
            }
        }
        if !held.contains(y) {
            assert(grown == held.push(y));
            assert forall|x: T| #[trigger] grown.contains(x) == (held.contains(x) || x == y) by {
                assert(grown[held.len() as int] == y);
                if held.contains(x) {
                    let j = choose|j: int| 0 <= j < held.len() && held[j] == x;
                    assert(grown[j] == x);
                }
                if grown.contains(x) && x != y {
                    let k = choose|k: int| 0 <= k < grown.len() && grown[k] == x;
                    assert(held[k] == x);
                }
            }
        }
    }
}

/// Keys never descend.
pub open spec fn ascending<T>(s: Seq<(i64, T)>) -> bool {
    forall|i: int, j: int| 0 <= i <= j < s.len() ==> (#[trigger] s[i]).0 <= (#[trigger] s[j]).0
}

proof fn lemma_insert_ascending<T>(sorted: Seq<(i64, T)>, x: (i64, T))
    requires
        ascending(sorted),
    ensures
        ascending(insert_by_key(sorted, x)),
        insert_by_key(sorted, x).len() == sorted.len() + 1,
        insert_by_key(sorted, x).to_multiset() == sorted.to_multiset().insert(x),
        forall|i: int|
            0 <= i < insert_by_key(sorted, x).len() ==> (#[trigger] insert_by_key(sorted, x)[i]).0
                <= (if sorted.len() > 0 && sorted.last().0 > x.0 {
                sorted.last().0
            } else {
                x.0
            }),
    decreases sorted.len(),
{
    broadcast use vstd::seq_lib::group_to_multiset_ensures;

    if sorted.len() == 0 {
        assert(sorted.push(x) =~= seq![x]);
    } else if sorted.last().0 <= x.0 {
        assert forall|i: int| 0 <= i < sorted.push(x).len() implies (#[trigger] sorted.push(x)[i]).0 <= x.0 by {
            if i < sorted.len() {
                assert(sorted[i].0 <= sorted[sorted.len() - 1].0);
            }
        }
    } else {
        let front = sorted.drop_last();
        lemma_insert_ascending(front, x);
        let inserted = insert_by_key(front, x);
        if front.len() > 0 {
            assert(sorted[front.len() - 1].0 <= sorted[sorted.len() - 1].0);
        }
        assert(front.push(sorted.last()) =~= sorted);
        assert(inserted.push(sorted.last()).to_multiset() =~= sorted.to_multiset().insert(x));
    }
}

/// Sorting yields ascending keys and keeps every entry as often as it was there.
pub proof fn law_sorting<T>(s: Seq<(i64, T)>)
    ensures
        ascending(sort_by_key(s)),
        sort_by_key(s).len() == s.len(),
        sort_by_key(s).to_multiset() == s.to_multiset(),
    decreases s.len(),
{
    broadcast use vstd::seq_lib::group_to_multiset_ensures;

    if s.len() > 0 {
        law_sorting(s.drop_last());
        lemma_insert_ascending(sort_by_key(s.drop_last()), s.last());
        assert(s.drop_last().push(s.last()) =~= s);
    }
}

proof fn lemma_insert_keeps_class<T>(sorted: Seq<(i64, T)>, x: (i64, T), key: i64)
    requires
        ascending(sorted),
    ensures
        insert_by_key(sorted, x).filter(|e: (i64, T)| e.0 == key) == (if x.0 == key {
            sorted.filter(|e: (i64, T)| e.0 == key).push(x)
        } else {
            sorted.filter(|e: (i64, T)| e.0 == key)
        }),
    decreases sorted.len(),
{
    reveal(Seq::filter);
    let class = |e: (i64, T)| e.0 == key;
    if sorted.len() == 0 {
        assert(seq![x].drop_last() =~= Seq::<(i64, T)>::empty());
        assert(seq![x].last() == x);
        assert(Seq::<(i64, T)>::empty().filter(class) =~= Seq::<(i64, T)>::empty());
    } else if sorted.last().0 <= x.0 {
        assert(sorted.push(x).drop_last() =~= sorted);
        assert(sorted.push(x).last() == x);
    } else {
        let front = sorted.drop_last();
        lemma_insert_keeps_class(front, x, key);
        let inserted = insert_by_key(front, x);
        assert(inserted.push(sorted.last()).drop_last() =~= inserted);
    }
}

/// Sorting is stable: the entries of any one key come out in the order they went in.
pub proof fn law_sorting_is_stable<T>(s: Seq<(i64, T)>, key: i64)
    ensures
        sort_by_key(s).filter(|e: (i64, T)| e.0 == key) == s.filter(|e: (i64, T)| e.0 == key),
    decreases s.len(),
{
    reveal(Seq::filter);
    if s.len() > 0 {
        law_sorting(s.drop_last());
        law_sorting_is_stable(s.drop_last(), key);
        lemma_insert_keeps_class(sort_by_key(s.drop_last()), s.last(), key);
    }
}

/// `sorted` with `x` put behind the last entry that it does not come before.
pub open spec fn insert_with<T>(sorted: Seq<T>, x: T, before: spec_fn(T, T) -> bool) -> Seq<T>
    decreases sorted.len(),
{
    if sorted.len() == 0 {
        seq![x]
    } else if !before(x, sorted.last()) {
        sorted.push(x)
    } else {
        insert_with(sorted.drop_last(), x, before).push(sorted.last())
    }
}

/// The members of `s`, each behind those that it does not come before, in the order in
/// which they went in.
pub open spec fn sort_with<T>(s: Seq<T>, before: spec_fn(T, T) -> bool) -> Seq<T>
    decreases s.len(),
{
    if s.len() == 0 {
        s
    } else {
        insert_with(sort_with(s.drop_last(), before), s.last(), before)
    }
}

proof fn lemma_insert_with_at<T>(sorted: Seq<T>, x: T, before: spec_fn(T, T) -> bool, k: int)
    requires
        0 <= k <= sorted.len(),
        forall|j: int| k <= j < sorted.len() ==> before(x, #[trigger] sorted[j]),
        k > 0 ==> !before(x, sorted[k - 1]),
    ensures
        insert_with(sorted, x, before) == sorted.insert(k, x),
    decreases sorted.len(),
{
    if sorted.len() == 0 {
        assert(seq![x] =~= sorted.insert(k, x));
    } else if !before(x, sorted.last()) {
        assert(k == sorted.len()) by {
            if k < sorted.len() {
                assert(before(x, sorted[sorted.len() - 1]));
            }
        }
        assert(sorted.push(x) =~= sorted.insert(k, x));
    } else {
        let front = sorted.drop_last();
        assert(k < sorted.len()) by {
            if k == sorted.len() {
                assert(sorted[k - 1] == sorted.last());
            }
        }
        lemma_insert_with_at(front, x, before, k);
        assert(front.insert(k, x).push(sorted.last()) =~= sorted.insert(k, x));
    }
}

/// The members of `s` in the order that `f` gives, where `f` decides as `before` says.
pub fn sort_by<T: Copy, F: Fn(T, T) -> bool>(
    s: &Vec<T>,
    f: F,
    Ghost(before): Ghost<spec_fn(T, T) -> bool>,
) -> (sorted: Vec<T>)
    requires
        forall|x: T, y: T| #[trigger] call_requires(f, (x, y)),
        forall|x: T, y: T, b: bool| #[trigger] call_ensures(f, (x, y), b) ==> b == before(x, y),
    ensures
        sorted@ == sort_with(s@, before),
{
    let mut sorted: Vec<T> = Vec::new();
    assert(s@.take(0) =~= Seq::<T>::empty());
    for i in 0..s.len()
        invariant
            forall|x: T, y: T| #[trigger] call_requires(f, (x, y)),
            forall|x: T, y: T, b: bool|
                #[trigger] call_ensures(f, (x, y), b) ==> b == before(x, y),
            sorted@ == sort_with(s@.take(i as int), before),
    {
        let x: T = s[i];
        let ghost held = sorted@;
        let mut k: usize = sorted.len();
        while k > 0
            invariant_except_break
                k <= sorted@.len(),
            invariant
                forall|x: T, y: T| #[trigger] call_requires(f, (x, y)),
                forall|x: T, y: T, b: bool|
                    #[trigger] call_ensures(f, (x, y), b) ==> b == before(x, y),
                k <= sorted@.len(),
                sorted@ == held,
                forall|j: int| k <= j < sorted@.len() ==> before(x, #[trigger] sorted@[j]),
            ensures
                k > 0 ==> !before(x, sorted@[k - 1]),
            decreases k,
        {
            if !f(x, sorted[k - 1]) {
                break;
            }
            k -= 1;
        }
        proof {
            lemma_insert_with_at(held, x, before, k as int);
            assert(s@.take(i + 1).drop_last() =~= s@.take(i as int));
            assert(s@.take(i + 1).last() == x);
        }
        sorted.insert(k, x);
    }
    proof {
        lemma_take_all(s@);
    }
    sorted
}

proof fn lemma_insert_with_members<T>(sorted: Seq<T>, x: T, before: spec_fn(T, T) -> bool)
    ensures
        insert_with(sorted, x, before).to_multiset() == sorted.to_multiset().insert(x),
    decreases sorted.len(),
{
    broadcast use vstd::seq_lib::group_to_multiset_ensures;

    if sorted.len() == 0 {
        assert(sorted.push(x) =~= seq![x]);
    } else if before(x, sorted.last()) {
        let front = sorted.drop_last();
        lemma_insert_with_members(front, x, before);
        assert(front.push(sorted.last()) =~= sorted);
        assert(insert_with(front, x, before).push(sorted.last()).to_multiset()
            =~= sorted.to_multiset().insert(x));
    }
}

/// Sorting keeps every member as often as it was there.
pub proof fn law_sorting_keeps_the_members<T>(s: Seq<T>, before: spec_fn(T, T) -> bool)
    ensures
        sort_with(s, before).to_multiset() == s.to_multiset(),
    decreases s.len(),
{
    broadcast use vstd::seq_lib::group_to_multiset_ensures;

    if s.len() > 0 {
        law_sorting_keeps_the_members(s.drop_last(), before);
        lemma_insert_with_members(sort_with(s.drop_last(), before), s.last(), before);
        assert(s.drop_last().push(s.last()) =~= s);
    }
}

proof fn lemma_insert_with_len<T>(sorted: Seq<T>, x: T, before: spec_fn(T, T) -> bool)
    ensures
        insert_with(sorted, x, before).len() == sorted.len() + 1,
    decreases sorted.len(),
{
    if sorted.len() > 0 && before(x, sorted.last()) {
        lemma_insert_with_len(sorted.drop_last(), x, before);
    }
}

/// Sorting keeps the length.
pub proof fn lemma_sort_with_len<T>(s: Seq<T>, before: spec_fn(T, T) -> bool)
    ensures
        sort_with(s, before).len() == s.len(),
    decreases s.len(),
{
    if s.len() > 0 {
        lemma_sort_with_len(s.drop_last(), before);
        lemma_insert_with_len(sort_with(s.drop_last(), before), s.last(), before);
    }
}

/// Different numbers below `n` are no more than `n`.
pub proof fn lemma_distinct_below(s: Seq<u32>, n: nat)
    requires
        s.no_duplicates(),
        forall|i: int| 0 <= i < s.len() ==> #[trigger] s[i] < n,
    ensures
        s.len() <= n,
    decreases n,
{
    if n == 0 {
        if s.len() > 0 {
            assert(s[0] < n);
        }
    } else if exists|k: int| 0 <= k < s.len() && #[trigger] s[k] == n - 1 {
        let k = choose|k: int| 0 <= k < s.len() && #[trigger] s[k] == n - 1;
        let rest = s.remove(k);
        assert forall|i: int| 0 <= i < rest.len() implies #[trigger] rest[i] < n - 1 by {
            let j = if i < k {
                i
            } else {
                i + 1
            };
            assert(rest[i] == s[j]);
        }
        assert(rest.no_duplicates()) by {
            assert forall|i: int, j: int|
                0 <= i < rest.len() && 0 <= j < rest.len() && i != j implies rest[i] != rest[j] by {
                let a = if i < k {
                    i
                } else {
                    i + 1
                };
                let b = if j < k {
                    j
                } else {
                    j + 1
                };
                assert(rest[i] == s[a] && rest[j] == s[b]);
            }
        }
        lemma_distinct_below(rest, (n - 1) as nat);
    } else {
        lemma_distinct_below(s, (n - 1) as nat);
    }
}

proof fn lemma_insert_by_key_len<T>(sorted: Seq<(i64, T)>, x: (i64, T))
    ensures
        insert_by_key(sorted, x).len() == sorted.len() + 1,
    decreases sorted.len(),
{
    if sorted.len() > 0 {
        lemma_insert_by_key_len(sorted.drop_last(), x);
    }
}

/// Sorting by a key keeps the length.
pub proof fn lemma_sort_by_key_len<T>(s: Seq<(i64, T)>)
    ensures
        sort_by_key(s).len() == s.len(),
    decreases s.len(),
{
    if s.len() > 0 {
        lemma_sort_by_key_len(s.drop_last());
        lemma_insert_by_key_len(sort_by_key(s.drop_last()), s.last());
    }
}

proof fn lemma_insert_by_key_members<T>(sorted: Seq<(i64, T)>, x: (i64, T), y: (i64, T))
    requires
        insert_by_key(sorted, x).contains(y),
    ensures
        y == x || sorted.contains(y),
    decreases sorted.len(),
{
    let all = insert_by_key(sorted, x);
    let i = choose|i: int| 0 <= i < all.len() && all[i] == y;
    if sorted.len() == 0 {
    } else if sorted.last().0 <= x.0 {
        if i < sorted.len() {
            assert(sorted[i] == y);
        }
    } else {
        let front = sorted.drop_last();
        lemma_insert_by_key_len(front, x);
        if i < front.len() + 1 {
            assert(insert_by_key(front, x)[i] == y);
            lemma_insert_by_key_members(front, x, y);
            if front.contains(y) {
                let k = choose|k: int| 0 <= k < front.len() && front[k] == y;
                assert(sorted[k] == y);
            }
        } else {
            assert(sorted[sorted.len() - 1] == y);
        }
    }
}

proof fn lemma_sort_by_key_members<T>(s: Seq<(i64, T)>, y: (i64, T))
    requires
        sort_by_key(s).contains(y),
    ensures
        s.contains(y),
    decreases s.len(),
{
    if s.len() > 0 {
        let front = s.drop_last();
        lemma_insert_by_key_members(sort_by_key(front), s.last(), y);
        if y == s.last() {
            assert(s[s.len() - 1] == y);
        } else {
            lemma_sort_by_key_members(front, y);
            let k = choose|k: int| 0 <= k < front.len() && front[k] == y;
            assert(s[k] == y);
        }
    }
}

/// Sorting by a key brings nothing in that was not there.
pub proof fn lemma_sorted_members<T>(s: Seq<T>, key: spec_fn(T) -> (i64, T))
    requires
        forall|x: T| (#[trigger] key(x)).1 == x,
    ensures
        forall|x: T|
            #[trigger] payloads(sort_by_key(s.map_values(key))).contains(x) ==> s.contains(x),
{
    let sorted = sort_by_key(s.map_values(key));
    assert forall|x: T| #[trigger] payloads(sorted).contains(x) implies s.contains(x) by {
        let i = choose|i: int| 0 <= i < payloads(sorted).len() && payloads(sorted)[i] == x;
        assert(sorted[i].1 == x);
        assert(sorted.contains(sorted[i]));
        lemma_sort_by_key_members(s.map_values(key), sorted[i]);
        let k = choose|k: int|
            0 <= k < s.map_values(key).len() && s.map_values(key)[k] == sorted[i];
        assert(key(s[k]).1 == s[k]);
        assert(s[k] == x);
    }
}

/// What is kept was there and is as `p` says.
pub proof fn lemma_filter_holds<T>(s: Seq<T>, p: spec_fn(T) -> bool)
    ensures
        forall|x: T| #[trigger] s.filter(p).contains(x) ==> p(x) && s.contains(x),
    decreases s.len(),
{
    reveal(Seq::filter);
    if s.len() > 0 {
        let front = s.drop_last();
        lemma_filter_holds(front, p);
        assert forall|x: T| #[trigger] s.filter(p).contains(x) implies p(x) && s.contains(x) by {
            let i = choose|i: int| 0 <= i < s.filter(p).len() && s.filter(p)[i] == x;
            if i < front.filter(p).len() {
                assert(front.filter(p)[i] == x);
                assert(front.filter(p).contains(x));
                let k = choose|k: int| 0 <= k < front.len() && front[k] == x;
                assert(s[k] == x);
            } else {
                assert(s[s.len() - 1] == x);
            }
        }
    }
}

/// What is kept is what was there and is as `p` says; nothing is kept twice that was there
/// once.
pub proof fn lemma_filter_members<T>(s: Seq<T>, p: spec_fn(T) -> bool)
    ensures
        forall|x: T| #[trigger] s.filter(p).contains(x) == (s.contains(x) && p(x)),
        s.no_duplicates() ==> s.filter(p).no_duplicates(),
    decreases s.len(),
{
    reveal(Seq::filter);
    lemma_filter_holds(s, p);
    if s.len() > 0 {
        let front = s.drop_last();
        let kept = front.filter(p);
        let all = s.filter(p);
        lemma_filter_members(front, p);
        assert forall|x: T| s.contains(x) && p(x) implies #[trigger] all.contains(x) by {
            let i = choose|i: int| 0 <= i < s.len() && s[i] == x;
            if i < front.len() {
                assert(front[i] == x);
                assert(kept.contains(x));
                let k = choose|k: int| 0 <= k < kept.len() && kept[k] == x;
                assert(all[k] == x);
            } else {
                assert(all[kept.len() as int] == x);
            }
        }
        if s.no_duplicates() {
            assert(front.no_duplicates()) by {
                assert forall|i: int, j: int| 0 <= i < front.len() && 0 <= j < front.len() && i
                    != j implies front[i] != front[j] by {
                    assert(s[i] != s[j]);
                }
            }
            if p(s.last()) && kept.contains(s.last()) {
                assert(front.contains(s.last()));
                let k = choose|k: int| 0 <= k < front.len() && front[k] == s.last();
                assert(s[k] != s[s.len() - 1]);
            }
            assert forall|i: int, j: int| 0 <= i < all.len() && 0 <= j < all.len() && i != j implies all[i]
                != all[j] by {
                if i == kept.len() {
                    assert(kept.contains(kept[j]));
                } else if j == kept.len() {
                    assert(kept.contains(kept[i]));
                }
            }
        }
    }
}

/// Two lists without repeats that hold the same are permutations of one another.
pub proof fn lemma_same_members<T>(a: Seq<T>, b: Seq<T>)
    requires
        a.no_duplicates(),
        b.no_duplicates(),
        forall|x: T| #[trigger] a.contains(x) == b.contains(x),
    ensures
        a.to_multiset() == b.to_multiset(),
        a.len() == b.len(),
{
    broadcast use vstd::seq_lib::group_to_multiset_ensures;

    a.lemma_multiset_has_no_duplicates();
    b.lemma_multiset_has_no_duplicates();
    assert forall|x: T| a.to_multiset().count(x) == b.to_multiset().count(x) by {
        assert(a.contains(x) == b.contains(x));
        assert(a.contains(x) == (a.to_multiset().count(x) > 0));
        assert(b.contains(x) == (b.to_multiset().count(x) > 0));
        assert(a.to_multiset().contains(x) == (a.to_multiset().count(x) > 0));
        assert(b.to_multiset().contains(x) == (b.to_multiset().count(x) > 0));
    }
    assert(a.to_multiset() =~= b.to_multiset());
    assert(a.len() == a.to_multiset().len() && b.len() == b.to_multiset().len());
}

/// Has the key `k`.
pub open spec fn has_key<T>(key: spec_fn(T) -> (i64, T), k: i64) -> spec_fn(T) -> bool {
    |x: T| key(x).0 == k
}

/// Leaving out keys and picking by key can be done in either order.
proof fn lemma_filter_payloads<T>(s: Seq<(i64, T)>, key: spec_fn(T) -> (i64, T), k: i64)
    requires
        forall|i: int| 0 <= i < s.len() ==> key((#[trigger] s[i]).1) == s[i],
    ensures
        payloads(s).filter(has_key(key, k)) == payloads(s.filter(|e: (i64, T)| e.0 == k)),
    decreases s.len(),
{
    reveal(Seq::filter);
    let p = has_key(key, k);
    let q = |e: (i64, T)| e.0 == k;
    if s.len() > 0 {
        let front = s.drop_last();
        assert forall|i: int| 0 <= i < front.len() implies key((#[trigger] front[i]).1)
            == front[i] by {
            assert(front[i] == s[i]);
        }
        lemma_filter_payloads(front, key, k);
        assert(payloads(s).drop_last() =~= payloads(front));
        assert(key(s[s.len() - 1].1) == s[s.len() - 1]);
        if q(s.last()) {
            assert(payloads(front.filter(q).push(s.last())) =~= payloads(front.filter(q)).push(
                s.last().1,
            ));
        }
    } else {
        assert(payloads(s).filter(p) =~= payloads(s.filter(q)));
    }
}

/// What is the same but for the order is so without the keys too.
proof fn lemma_payloads_of_permutations<T>(a: Seq<(i64, T)>, b: Seq<(i64, T)>)
    requires
        a.to_multiset() == b.to_multiset(),
    ensures
        payloads(a).to_multiset() == payloads(b).to_multiset(),
    decreases a.len(),
{
    broadcast use vstd::seq_lib::group_to_multiset_ensures;

    assert(a.len() == a.to_multiset().len() && b.len() == b.to_multiset().len());
    if a.len() == 0 {
        assert(payloads(a) =~= payloads(b));
    } else {
        let x = a.last();
        assert(a.contains(a[a.len() - 1]));
        assert(a.to_multiset().count(x) > 0);
        assert(b.contains(x));
        let i = choose|i: int| 0 <= i < b.len() && b[i] == x;
        let front = a.drop_last();
        let rest = b.remove(i);
        assert(front =~= a.remove(a.len() - 1));
        vstd::seq_lib::to_multiset_remove(a, a.len() - 1);
        vstd::seq_lib::to_multiset_remove(b, i);
        lemma_payloads_of_permutations(front, rest);
        assert(payloads(front) =~= payloads(a).remove(a.len() - 1));
        assert(payloads(rest) =~= payloads(b).remove(i));
        vstd::seq_lib::to_multiset_remove(payloads(a), a.len() - 1);
        vstd::seq_lib::to_multiset_remove(payloads(b), i);
        assert(payloads(a).to_multiset() =~= payloads(front).to_multiset().insert(x.1));
        assert(payloads(b).to_multiset() =~= payloads(rest).to_multiset().insert(x.1));
    }
}

/// Sorting a list by a key permutes it: the keys ascend, and members of one key keep their
/// order.
pub proof fn law_sorting_by<T>(s: Seq<T>, key: spec_fn(T) -> (i64, T))
    requires
        forall|x: T| (#[trigger] key(x)).1 == x,
    ensures
        ({
            let sorted = payloads(sort_by_key(s.map_values(key)));
            &&& sorted.len() == s.len()
            &&& sorted.to_multiset() == s.to_multiset()
            &&& forall|x: T| #[trigger] sorted.contains(x) == s.contains(x)
            &&& s.no_duplicates() ==> sorted.no_duplicates()
            &&& forall|i: int, j: int|
                0 <= i <= j < sorted.len() ==> key(#[trigger] sorted[i]).0 <= key(
                    #[trigger] sorted[j],
                ).0
            &&& forall|k: i64|
                sorted.filter(#[trigger] has_key(key, k)) == s.filter(has_key(key, k))
        }),
{
    broadcast use vstd::seq_lib::group_to_multiset_ensures;

    let keyed = s.map_values(key);
    let entries = sort_by_key(keyed);
    let sorted = payloads(entries);
    law_sorting(keyed);
    assert forall|i: int| 0 <= i < entries.len() implies key((#[trigger] entries[i]).1)
        == entries[i] by {
        assert(entries.contains(entries[i]));
        assert(entries.to_multiset().count(entries[i]) > 0);
        assert(keyed.contains(entries[i]));
        let k = choose|k: int| 0 <= k < keyed.len() && keyed[k] == entries[i];
        assert(key(s[k]).1 == s[k]);
    }
    assert(sorted.map_values(key) =~= entries);
    assert(payloads(keyed) =~= s) by {
        assert forall|i: int| 0 <= i < s.len() implies payloads(keyed)[i] == s[i] by {
            assert(key(s[i]).1 == s[i]);
        }
    }
    lemma_payloads_of_permutations(entries, keyed);
    assert forall|x: T| #[trigger] sorted.contains(x) == s.contains(x) by {
        assert(sorted.contains(x) == (sorted.to_multiset().count(x) > 0));
        assert(s.contains(x) == (s.to_multiset().count(x) > 0));
    }
    if s.no_duplicates() {
        s.lemma_multiset_has_no_duplicates();
        sorted.lemma_multiset_has_no_duplicates_conv();
    }
    assert forall|k: i64| sorted.filter(#[trigger] has_key(key, k)) == s.filter(
        has_key(key, k),
    ) by {
        law_sorting_is_stable(keyed, k);
        lemma_filter_payloads(entries, key, k);
        assert forall|i: int| 0 <= i < keyed.len() implies key((#[trigger] keyed[i]).1)
            == keyed[i] by {
            assert(key(s[i]).1 == s[i]);
        }
        lemma_filter_payloads(keyed, key, k);
    }
    assert forall|i: int, j: int| 0 <= i <= j < sorted.len() implies key(#[trigger] sorted[i]).0
        <= key(#[trigger] sorted[j]).0 by {
        assert(key(entries[i].1) == entries[i] && key(entries[j].1) == entries[j]);
    }
}

/// Where a search finds: the first place that qualifies.
pub proof fn lemma_first_where_at<T>(s: Seq<T>, p: spec_fn(T) -> bool) -> (at: int)
    requires
        first_where(s, p) is Some,
    ensures
        0 <= at < s.len(),
        s[at] == first_where(s, p)->0,
        p(s[at]),
        forall|k: int| 0 <= k < at ==> !p(#[trigger] s[k]),
    decreases s.len(),
{
    if p(s[0]) {
        0
    } else {
        let at = lemma_first_where_at(s.skip(1), p) + 1;
        assert(s[at] == s.skip(1)[at - 1]);
        assert forall|k: int| 0 <= k < at implies !p(#[trigger] s[k]) by {
            if k > 0 {
                assert(s[k] == s.skip(1)[k - 1]);
            }
        }
        at
    }
}

/// What is kept is no more than there was.
pub proof fn lemma_filter_len<T>(s: Seq<T>, p: spec_fn(T) -> bool)
    ensures
        s.filter(p).len() <= s.len(),
    decreases s.len(),
{
    reveal(Seq::filter);
    if s.len() > 0 {
        lemma_filter_len(s.drop_last(), p);
    }
}

/// Sorting by an order that goes by a score permutes a list: the scores descend.
pub proof fn law_sorting_with<T>(
    s: Seq<T>,
    before: spec_fn(T, T) -> bool,
    score: spec_fn(T) -> int,
)
    requires
        forall|x: T, y: T| #[trigger] before(x, y) == (score(x) > score(y)),
    ensures
        ({
            let sorted = sort_with(s, before);
            &&& sorted.len() == s.len()
            &&& sorted.to_multiset() == s.to_multiset()
            &&& forall|x: T| #[trigger] sorted.contains(x) == s.contains(x)
            &&& forall|i: int, j: int|
                0 <= i <= j < sorted.len() ==> score(#[trigger] sorted[i]) >= score(
                    #[trigger] sorted[j],
                )
        }),
{
    broadcast use vstd::seq_lib::group_to_multiset_ensures;

    let sorted = sort_with(s, before);
    lemma_sort_with_len(s, before);
    law_sorting_keeps_the_members(s, before);
    lemma_sorted_with(s, before, score);
    assert forall|x: T| #[trigger] sorted.contains(x) == s.contains(x) by {
        assert(sorted.contains(x) == (sorted.to_multiset().count(x) > 0));
        assert(s.contains(x) == (s.to_multiset().count(x) > 0));
    }
}

proof fn lemma_sorted_with<T>(
    s: Seq<T>,
    before: spec_fn(T, T) -> bool,
    score: spec_fn(T) -> int,
)
    requires
        forall|x: T, y: T| #[trigger] before(x, y) == (score(x) > score(y)),
    ensures
        forall|i: int, j: int|
            0 <= i <= j < sort_with(s, before).len() ==> score(#[trigger] sort_with(s, before)[i])
                >= score(#[trigger] sort_with(s, before)[j]),
    decreases s.len(),
{
    if s.len() > 0 {
        lemma_sorted_with(s.drop_last(), before, score);
        lemma_inserted_with(sort_with(s.drop_last(), before), s.last(), before, score);
    }
}

proof fn lemma_inserted_with<T>(
    sorted: Seq<T>,
    x: T,
    before: spec_fn(T, T) -> bool,
    score: spec_fn(T) -> int,
)
    requires
        forall|x: T, y: T| #[trigger] before(x, y) == (score(x) > score(y)),
        forall|i: int, j: int|
            0 <= i <= j < sorted.len() ==> score(#[trigger] sorted[i]) >= score(
                #[trigger] sorted[j],
            ),
    ensures
        ({
            let all = insert_with(sorted, x, before);
            &&& all.len() == sorted.len() + 1
            &&& forall|i: int, j: int|
                0 <= i <= j < all.len() ==> score(#[trigger] all[i]) >= score(#[trigger] all[j])
            &&& forall|i: int|
                0 <= i < all.len() ==> #[trigger] all[i] == x || sorted.contains(all[i])
        }),
    decreases sorted.len(),
{
    let all = insert_with(sorted, x, before);
    if sorted.len() > 0 {
        let front = sorted.drop_last();
        let last = sorted.last();
        assert(sorted[sorted.len() - 1] == last);
        if !before(x, last) {
            assert forall|i: int, j: int| 0 <= i <= j < all.len() implies score(#[trigger] all[i])
                >= score(#[trigger] all[j]) by {
                if j == sorted.len() && i < j {
                    assert(score(sorted[i]) >= score(last));
                }
            }
            assert forall|i: int| 0 <= i < all.len() implies #[trigger] all[i] == x
                || sorted.contains(all[i]) by {
                if i < sorted.len() {
                    assert(sorted[i] == all[i]);
                }
            }
        } else {
            assert forall|i: int, j: int| 0 <= i <= j < front.len() implies score(
                #[trigger] front[i],
            ) >= score(#[trigger] front[j]) by {
                assert(front[i] == sorted[i] && front[j] == sorted[j]);
            }
            lemma_inserted_with(front, x, before, score);
            let most = insert_with(front, x, before);
            assert forall|i: int| 0 <= i < most.len() implies score(#[trigger] most[i]) >= score(
                last,
            ) && (most[i] == x || sorted.contains(most[i])) by {
                if most[i] != x {
                    let k = choose|k: int| 0 <= k < front.len() && front[k] == most[i];
                    assert(sorted[k] == most[i]);
                }
            }
            assert(all == most.push(last));
            assert(sorted.contains(last));
        }
    }
}

} // verus!
