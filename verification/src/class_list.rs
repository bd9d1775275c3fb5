//! The class list of an element (a DOM token list): an ordered set of class
//! names, what adding and removing names does to it, and the laws that tie
//! the two together.
use vstd::prelude::*;
use crate::class_names::{is_valid_token, views};

verus! {

/// `list` after `t` was added: unchanged when `t` is in it already, else with
/// `t` at the end.
pub open spec fn with_token(list: Seq<Seq<char>>, t: Seq<char>) -> Seq<Seq<char>> {
    if list.contains(t) {
        list
    } else {
        list.push(t)
    }
}

/// `list` with every occurrence of `t` taken out, the rest in order.
pub open spec fn without_token(list: Seq<Seq<char>>, t: Seq<char>) -> Seq<Seq<char>>
    decreases list.len(),
{
    if list.len() == 0 {
        list
    } else {
        let rest = without_token(list.drop_last(), t);
        if list.last() == t {
            rest
        } else {
            rest.push(list.last())
        }
    }
}

/// The names of `ts` that adding them one by one to `list` appends: each name
/// that is neither in `list` nor earlier in `ts`, in the order of `ts`.
pub open spec fn added_tokens(list: Seq<Seq<char>>, ts: Seq<Seq<char>>) -> Seq<Seq<char>>
    decreases ts.len(),
{
    if ts.len() == 0 {
        seq![]
    } else {
        let prev = added_tokens(list, ts.drop_last());
        if (list + prev).contains(ts.last()) {
            prev
        } else {
            prev.push(ts.last())
        }
    }
}

/// `list` after the names of `ts` were removed one by one.
pub open spec fn removed_tokens(list: Seq<Seq<char>>, ts: Seq<Seq<char>>) -> Seq<Seq<char>>
    decreases ts.len(),
{
    if ts.len() == 0 {
        list
    } else {
        without_token(removed_tokens(list, ts.drop_last()), ts.last())
    }
}

/// The elements of `list` that `ts` does not hold, in order.
pub open spec fn not_in(list: Seq<Seq<char>>, ts: Seq<Seq<char>>) -> Seq<Seq<char>>
    decreases list.len(),
{
    if list.len() == 0 {
        list
    } else {
        let rest = not_in(list.drop_last(), ts);
        if ts.contains(list.last()) {
            rest
        } else {
            rest.push(list.last())
        }
    }
}

/// A well-formed class list: valid class names, none twice.
pub open spec fn is_class_list(list: Seq<Seq<char>>) -> bool {
    &&& list.no_duplicates()
    &&& forall|i: int| 0 <= i < list.len() ==> is_valid_token(#[trigger] list[i])
}

/// Every name of `ts` is a valid class name.
pub open spec fn all_valid(ts: Seq<Seq<char>>) -> bool {
    forall|i: int| 0 <= i < ts.len() ==> is_valid_token(#[trigger] ts[i])
}

proof fn lemma_not_in_append(a: Seq<Seq<char>>, b: Seq<Seq<char>>, ts: Seq<Seq<char>>)
    ensures
        not_in(a + b, ts) == not_in(a, ts) + not_in(b, ts),
    decreases b.len(),
{
    if b.len() == 0 {
        assert(a + b == a);
        assert(not_in(a, ts) + not_in(b, ts) == not_in(a, ts));
    } else {
        lemma_not_in_append(a, b.drop_last(), ts);
        assert((a + b).drop_last() == a + b.drop_last());
        assert((a + b).last() == b.last());
        if !ts.contains(b.last()) {
            assert(not_in(a, ts) + not_in(b.drop_last(), ts).push(b.last()) == (not_in(a, ts)
                + not_in(b.drop_last(), ts)).push(b.last()));
        }
    }
}

proof fn lemma_not_in_disjoint(list: Seq<Seq<char>>, ts: Seq<Seq<char>>)
    requires
        forall|i: int| 0 <= i < list.len() ==> !ts.contains(#[trigger] list[i]),
    ensures
        not_in(list, ts) == list,
    decreases list.len(),
{
    if list.len() > 0 {
        let init = list.drop_last();
        assert forall|i: int| 0 <= i < init.len() implies !ts.contains(#[trigger] init[i]) by {
            assert(init[i] == list[i]);
        }
        lemma_not_in_disjoint(init, ts);
        assert(!ts.contains(list[list.len() - 1]));
        assert(init.push(list.last()) == list);
    }
}

proof fn lemma_not_in_all(ts: Seq<Seq<char>>, us: Seq<Seq<char>>)
    requires
        forall|i: int| 0 <= i < ts.len() ==> us.contains(#[trigger] ts[i]),
    ensures
        not_in(ts, us) == Seq::<Seq<char>>::empty(),
    decreases ts.len(),
{
    if ts.len() > 0 {
        let init = ts.drop_last();
        assert forall|i: int| 0 <= i < init.len() implies us.contains(#[trigger] init[i]) by {
            assert(init[i] == ts[i]);
        }
        lemma_not_in_all(init, us);
        assert(us.contains(ts[ts.len() - 1]));
    }
}

proof fn lemma_without_not_in(list: Seq<Seq<char>>, ts: Seq<Seq<char>>, t: Seq<char>)
    ensures
        without_token(not_in(list, ts), t) == not_in(list, ts.push(t)),
    decreases list.len(),
{
    if list.len() > 0 {
        lemma_without_not_in(list.drop_last(), ts, t);
        let x = list.last();
        assert(ts.push(t).contains(x) <==> (ts.contains(x) || x == t)) by {
            if ts.push(t).contains(x) {
                let k = choose|k: int| 0 <= k < ts.push(t).len() && ts.push(t)[k] == x;
                if k < ts.len() {
                    assert(ts[k] == x);
                }
            }
            if ts.contains(x) {
                let k = choose|k: int| 0 <= k < ts.len() && ts[k] == x;
                assert(ts.push(t)[k] == x);
            }
            if x == t {
                assert(ts.push(t)[ts.len() as int] == x);
            }
        }
        let r = not_in(list.drop_last(), ts);
        if !ts.contains(x) {
            assert(r.push(x).drop_last() == r);
        }
    }
}

proof fn lemma_removed_is_not_in(list: Seq<Seq<char>>, ts: Seq<Seq<char>>)
    ensures
        removed_tokens(list, ts) == not_in(list, ts),
    decreases ts.len(),
{
    if ts.len() == 0 {
        lemma_not_in_disjoint(list, ts);
    } else {
        lemma_removed_is_not_in(list, ts.drop_last());
        lemma_without_not_in(list, ts.drop_last(), ts.last());
        assert(ts.drop_last().push(ts.last()) == ts);
    }
}

proof fn lemma_not_in_twice(list: Seq<Seq<char>>, ts: Seq<Seq<char>>)
    ensures
        not_in(not_in(list, ts), ts) == not_in(list, ts),
    decreases list.len(),
{
    if list.len() > 0 {
        lemma_not_in_twice(list.drop_last(), ts);
        let rest = not_in(list.drop_last(), ts);
        if !ts.contains(list.last()) {
            assert(rest.push(list.last()).drop_last() == rest);
        }
    }
}

/// Removing the same names a second time changes nothing.
pub proof fn lemma_remove_twice(list: Seq<Seq<char>>, ts: Seq<Seq<char>>)
    ensures
        removed_tokens(removed_tokens(list, ts), ts) == removed_tokens(list, ts),
{
    lemma_removed_is_not_in(list, ts);
    lemma_removed_is_not_in(removed_tokens(list, ts), ts);
    lemma_not_in_twice(list, ts);
}

/// Adding names to a class list appends exactly the names of
/// `added_tokens`: none of them was in the list, none comes twice, each comes
/// from `ts`, and afterwards every name of `ts` is in the list.
pub proof fn lemma_added_tokens(list: Seq<Seq<char>>, ts: Seq<Seq<char>>)
    ensures
        added_tokens(list, ts).no_duplicates(),
        forall|i: int|
            0 <= i < added_tokens(list, ts).len() ==> !list.contains(
                #[trigger] added_tokens(list, ts)[i],
            ) && ts.contains(added_tokens(list, ts)[i]),
        forall|i: int| 0 <= i < ts.len() ==> (list + added_tokens(list, ts)).contains(#[trigger] ts[i]),
        list.no_duplicates() ==> (list + added_tokens(list, ts)).no_duplicates(),
    decreases ts.len(),
{
    if ts.len() > 0 {
        let init = ts.drop_last();
        lemma_added_tokens(list, init);
        let prev = added_tokens(list, init);
        let t = ts.last();
        let a = added_tokens(list, ts);
        assert forall|i: int| 0 <= i < a.len() implies !list.contains(#[trigger] a[i]) && ts.contains(
            a[i],
        ) by {
            if i < prev.len() {
                assert(a[i] == prev[i]);
                let k = choose|k: int| 0 <= k < init.len() && init[k] == prev[i];
                assert(ts[k] == init[k]);
            } else {
                assert(a[i] == t);
                assert(ts[ts.len() - 1] == t);
                if list.contains(t) {
                    let k = choose|k: int| 0 <= k < list.len() && list[k] == t;
                    assert((list + prev)[k] == t);
                }
            }
        }
        assert forall|i: int| 0 <= i < ts.len() implies (list + a).contains(#[trigger] ts[i]) by {
            let x = ts[i];
            if i < init.len() {
                assert(init[i] == x);
                assert((list + prev).contains(x));
                let k = choose|k: int| 0 <= k < (list + prev).len() && (list + prev)[k] == x;
                if k < list.len() {
                    assert((list + a)[k] == x);
                } else {
                    assert(prev[k - list.len()] == x);
                    assert(a[k - list.len()] == x);
                    assert((list + a)[k] == x);
                }
            } else {
                assert(x == t);
                if (list + prev).contains(t) {
                    let k = choose|k: int| 0 <= k < (list + prev).len() && (list + prev)[k] == t;
                    if k < list.len() {
                        assert((list + a)[k] == x);
                    } else {
                        assert(prev[k - list.len()] == x);
                        assert((list + a)[k] == x);
                    }
                } else {
                    assert((list + a)[(list.len() + prev.len()) as int] == x);
                }
            }
        }
        if !(list + prev).contains(t) {
            assert forall|i: int, j: int|
                0 <= i < a.len() && 0 <= j < a.len() && i != j implies a[i] != a[j] by {
                if i == prev.len() {
                    assert((list + prev)[list.len() + j] == prev[j]);
                } else if j == prev.len() {
                    assert((list + prev)[list.len() + i] == prev[i]);
                } else {
                    assert(a[i] == prev[i] && a[j] == prev[j]);
                }
            }
            if list.no_duplicates() {
                let b = list + a;
                assert(b == (list + prev).push(t));
                assert forall|i: int, j: int|
                    0 <= i < b.len() && 0 <= j < b.len() && i != j implies b[i] != b[j] by {
                    if i == b.len() - 1 {
                        assert((list + prev)[j] == b[j]);
                    } else if j == b.len() - 1 {
                        assert((list + prev)[i] == b[i]);
                    } else {
                        assert((list + prev)[i] == b[i] && (list + prev)[j] == b[j]);
                    }
                }
            }
        }
    }
}

/// Removing the names that an addition appended gives back the class list
/// as it was before the addition.
pub proof fn lemma_remove_added_restores(list: Seq<Seq<char>>, ts: Seq<Seq<char>>)
    ensures
        removed_tokens(list + added_tokens(list, ts), added_tokens(list, ts)) == list,
{
    let a = added_tokens(list, ts);
    lemma_added_tokens(list, ts);
    lemma_removed_is_not_in(list + a, a);
    lemma_not_in_append(list, a, a);
    assert forall|i: int| 0 <= i < list.len() implies !a.contains(#[trigger] list[i]) by {
        if a.contains(list[i]) {
            let k = choose|k: int| 0 <= k < a.len() && a[k] == list[i];
            assert(!list.contains(a[k]));
        }
    }
    lemma_not_in_disjoint(list, a);
    assert forall|i: int| 0 <= i < a.len() implies a.contains(#[trigger] a[i]) by {}
    lemma_not_in_all(a, a);
    assert(list + Seq::<Seq<char>>::empty() == list);
}

/// Removing names keeps a class list well formed; adding valid names does
/// too.
pub proof fn lemma_class_list_kept(list: Seq<Seq<char>>, ts: Seq<Seq<char>>)
    requires
        is_class_list(list),
    ensures
        is_class_list(removed_tokens(list, ts)),
        all_valid(ts) ==> is_class_list(list + added_tokens(list, ts)),
{
    lemma_removed_is_not_in(list, ts);
    lemma_not_in_sub(list, ts);
    lemma_added_tokens(list, ts);
    if all_valid(ts) {
        let b = list + added_tokens(list, ts);
        assert forall|i: int| 0 <= i < b.len() implies is_valid_token(#[trigger] b[i]) by {
            if i >= list.len() {
                let x = added_tokens(list, ts)[i - list.len()];
                assert(b[i] == x);
                let k = choose|k: int| 0 <= k < ts.len() && ts[k] == x;
            }
        }
    }
}

proof fn lemma_not_in_sub(list: Seq<Seq<char>>, ts: Seq<Seq<char>>)
    requires
        is_class_list(list),
    ensures
        is_class_list(not_in(list, ts)),
    decreases list.len(),
{
    if list.len() > 0 {
        let init = list.drop_last();
        assert(is_class_list(init)) by {
            assert forall|i: int, j: int|
                0 <= i < init.len() && 0 <= j < init.len() && i != j implies init[i] != init[j] by {
                assert(list[i] == init[i] && list[j] == init[j]);
            }
            assert forall|i: int| 0 <= i < init.len() implies is_valid_token(#[trigger] init[i]) by {
                assert(list[i] == init[i]);
            }
        }
        lemma_not_in_sub(init, ts);
        let rest = not_in(init, ts);
        let x = list.last();
        if !ts.contains(x) {
            lemma_not_in_subset(init, ts, x);
            assert(!init.contains(x)) by {
                if init.contains(x) {
                    let k = choose|k: int| 0 <= k < init.len() && init[k] == x;
                    assert(list[k] == list[list.len() - 1]);
                }
            }
            let r = rest.push(x);
            assert forall|i: int, j: int|
                0 <= i < r.len() && 0 <= j < r.len() && i != j implies r[i] != r[j] by {
                if i == rest.len() {
                    assert(rest[j] == r[j]);
                    assert(rest.contains(r[j]));
                } else if j == rest.len() {
                    assert(rest[i] == r[i]);
                    assert(rest.contains(r[i]));
                } else {
                    assert(rest[i] == r[i] && rest[j] == r[j]);
                }
            }
            assert forall|i: int| 0 <= i < r.len() implies is_valid_token(#[trigger] r[i]) by {
                if i < rest.len() {
                    assert(rest[i] == r[i]);
                } else {
                    assert(list[list.len() - 1] == x);
                }
            }
        }
    }
}

proof fn lemma_not_in_subset(list: Seq<Seq<char>>, ts: Seq<Seq<char>>, x: Seq<char>)
    ensures
        not_in(list, ts).contains(x) ==> list.contains(x),
    decreases list.len(),
{
    if list.len() > 0 {
        let init = list.drop_last();
        lemma_not_in_subset(init, ts, x);
        let rest = not_in(init, ts);
        if not_in(list, ts).contains(x) {
            let k = choose|k: int| 0 <= k < not_in(list, ts).len() && not_in(list, ts)[k] == x;
            if k < rest.len() {
                assert(rest[k] == x);
                let m = choose|m: int| 0 <= m < init.len() && init[m] == x;
                assert(list[m] == x);
            } else {
                assert(list[list.len() - 1] == x);
            }
        }
    }
}

/// Whether the class list `list` holds `t`.
pub fn contains_token(list: &Vec<String>, t: &String) -> (r: bool)
    ensures
        r == views(list@).contains(t@),
{
    let mut i: usize = 0;
    while i < list.len()
        invariant
            i <= list.len(),
            forall|j: int| 0 <= j < i ==> views(list@)[j] != t@,
        decreases list.len() - i,
    {
        if list[i] == *t {
            assert(views(list@)[i as int] == t@);
            return true;
        }
        i = i + 1;
    }
    false
}

/// `list` with `t` taken out.
pub fn remove_token(list: &Vec<String>, t: &String) -> (r: Vec<String>)
    ensures
        views(r@) == without_token(views(list@), t@),
{
    let mut r: Vec<String> = Vec::new();
    let mut i: usize = 0;
    while i < list.len()
        invariant
            i <= list.len(),
            views(r@) == without_token(views(list@).take(i as int), t@),
        decreases list.len() - i,
    {
        assert(views(list@).take(i + 1).drop_last() == views(list@).take(i as int));
        if list[i] != *t {
            let x = list[i].clone();
            r.push(x);
            assert(views(r@) == views(r@.drop_last()).push(x@));
        }
        i = i + 1;
    }
    assert(views(list@).take(list.len() as int) == views(list@));
    r
}

} // verus!
