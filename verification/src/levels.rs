//! Lists of namespace paths, each once, in order.

use vstd::prelude::*;

use crate::text;
use crate::text::{before, same, same_texts};

verus! {

/// `a` comes before `b`: at the first level where they differ, or because it
/// ends there.
pub open spec fn path_before(a: Seq<Seq<char>>, b: Seq<Seq<char>>) -> bool
    decreases a.len(),
{
    if b.len() == 0 {
        false
    } else if a.len() == 0 {
        true
    } else if a[0] != b[0] {
        text::text_before(a[0], b[0])
    } else {
        path_before(a.drop_first(), b.drop_first())
    }
}

/// Two different paths are ordered one way, and only one way.
pub proof fn paths_are_ordered(a: Seq<Seq<char>>, b: Seq<Seq<char>>)
    ensures
        a == b ==> !path_before(a, b),
        a != b ==> (path_before(a, b) <==> !path_before(b, a)),
    decreases a.len(),
{
    if a.len() > 0 && b.len() > 0 {
        paths_are_ordered(a.drop_first(), b.drop_first());
        text::order_is_total(a[0], b[0]);
        if a[0] == b[0] && a.drop_first() == b.drop_first() {
            assert(a =~= seq![a[0]] + a.drop_first());
            assert(b =~= seq![b[0]] + b.drop_first());
        }
    } else if a.len() == 0 && b.len() == 0 {
        assert(a =~= b);
    }
}

/// The order of paths is transitive.
pub proof fn path_order_is_transitive(a: Seq<Seq<char>>, b: Seq<Seq<char>>, c: Seq<Seq<char>>)
    requires
        path_before(a, b),
        path_before(b, c),
    ensures
        path_before(a, c),
    decreases a.len(),
{
    if a.len() > 0 && b.len() > 0 && c.len() > 0 {
        text::order_is_total(a[0], b[0]);
        text::order_is_total(b[0], c[0]);
        text::order_is_total(a[0], c[0]);
        if a[0] == b[0] && b[0] == c[0] {
            path_order_is_transitive(a.drop_first(), b.drop_first(), c.drop_first());
        } else if a[0] != b[0] && b[0] != c[0] {
            text::order_is_transitive(a[0], b[0], c[0]);
        }
    }
}

/// Whether `a` comes before `b`.
pub fn comes_before(a: &Vec<String>, b: &Vec<String>) -> (r: bool)
    ensures
        r == path_before(text::texts(a@), text::texts(b@)),
{
    let ghost x = text::texts(a@);
    let ghost y = text::texts(b@);
    let mut i: usize = 0;
    assert(x.skip(0) =~= x && y.skip(0) =~= y);
    while i < a.len() && i < b.len()
        invariant
            i <= a@.len(),
            i <= b@.len(),
            x == text::texts(a@),
            y == text::texts(b@),
            path_before(x, y) == path_before(x.skip(i as int), y.skip(i as int)),
        decreases a@.len() - i,
    {
        assert(x.skip(i as int)[0] == a@[i as int]@);
        assert(y.skip(i as int)[0] == b@[i as int]@);
        if !same(a[i].as_str(), b[i].as_str()) {
            return before(a[i].as_str(), b[i].as_str());
        }
        assert(x.skip(i as int).drop_first() =~= x.skip(i + 1));
        assert(y.skip(i as int).drop_first() =~= y.skip(i + 1));
        i = i + 1;
    }
    i < b.len()
}

/// The texts of a list of paths.
pub open spec fn paths(items: Seq<Vec<String>>) -> Seq<Seq<Seq<char>>> {
    items.map_values(|v: Vec<String>| text::texts(v@))
}

/// Whether the list holds exactly the paths of the set, each once, in order.
pub open spec fn lists_paths(items: Seq<Vec<String>>, set: Set<Seq<Seq<char>>>) -> bool {
    &&& forall|i: int, j: int|
        0 <= i < j < items.len() ==> path_before(#[trigger] paths(items)[i], #[trigger] paths(items)[j])
    &&& forall|p: Seq<Seq<char>>| #[trigger] paths(items).contains(p) == set.contains(p)
}

fn put_path(items: &mut Vec<Vec<String>>, path: Vec<String>, Ghost(set): Ghost<Set<Seq<Seq<char>>>>)
    requires
        lists_paths(old(items)@, set),
    ensures
        lists_paths(final(items)@, set.insert(text::texts(path@))),
{
    let ghost old_items = items@;
    let ghost p = text::texts(path@);
    let mut i: usize = 0;
    while i < items.len() && comes_before(&items[i], &path)
        invariant
            i <= items@.len(),
            items@ == old_items,
            p == text::texts(path@),
            forall|j: int| 0 <= j < i ==> path_before(#[trigger] paths(items@)[j], p),
        decreases items@.len() - i,
    {
        assert(paths(items@)[i as int] == text::texts(items@[i as int]@));
        i = i + 1;
    }
    if i < items.len() && same_texts(&items[i], &path) {
        assert(paths(old_items)[i as int] == p);
        assert(paths(old_items).contains(p));
        assert(set.insert(p) =~= set);
        return;
    }
    items.insert(i, path);
    let ghost was = paths(old_items);
    let ghost now = paths(items@);
    assert(now =~= was.insert(i as int, p));
    assert forall|a: int, b: int| 0 <= a < b < items@.len() implies path_before(
        #[trigger] paths(items@)[a],
        #[trigger] paths(items@)[b],
    ) by {
        if b < i {
            assert(path_before(was[a], was[b]));
        } else if b == i {
            assert(path_before(was[a], p));
        } else if a == i {
            paths_are_ordered(was[i as int], p);
            if b - 1 > i {
                assert(path_before(was[i as int], was[b - 1]));
                path_order_is_transitive(p, was[i as int], was[b - 1]);
            }
        } else if a < i {
            assert(path_before(was[a], was[b - 1]));
        } else {
            assert(path_before(was[a - 1], was[b - 1]));
        }
    }
    assert forall|q: Seq<Seq<char>>| #[trigger] paths(items@).contains(q) == set.insert(p).contains(q) by {
        if now.contains(q) {
            let a = choose|a: int| 0 <= a < now.len() && now[a] == q;
            if a < i {
                assert(was[a] == q);
                assert(was.contains(q));
            } else if a > i {
                assert(was[a - 1] == q);
                assert(was.contains(q));
            }
        }
        if q == p {
            assert(now[i as int] == q);
        } else if set.contains(q) {
            assert(was.contains(q));
            let a = choose|a: int| 0 <= a < was.len() && was[a] == q;
            if a < i {
                assert(now[a] == q);
            } else {
                assert(now[a + 1] == q);
            }
        }
    }
}

/// The paths of a list, each once, in order.
pub fn sorted_paths(items: Vec<Vec<String>>) -> (r: Vec<Vec<String>>)
    ensures
        lists_paths(r@, paths(items@).to_set()),
{
    let mut out: Vec<Vec<String>> = Vec::new();
    let ghost all = items@;
    assert(paths(all.take(0)).to_set() =~= Set::<Seq<Seq<char>>>::empty());
    assert(paths(out@) =~= Seq::<Seq<Seq<char>>>::empty());
    for path in it: items
        invariant
            it.seq() == all,
            lists_paths(out@, paths(all.take(it.index())).to_set()),
    {
        let ghost front = paths(all.take(it.index()));
        let ghost next = paths(all.take(it.index() + 1));
        let ghost p = text::texts(path@);
        assert(next =~= front.push(p));
        assert(next.to_set() =~= front.to_set().insert(p)) by {
            assert forall|q: Seq<Seq<char>>| next.contains(q) == (front.contains(q) || q == p) by {
                if front.contains(q) {
                    let a = choose|a: int| 0 <= a < front.len() && front[a] == q;
                    assert(next[a] == q);
                }
                assert(next[front.len() as int] == p);
                if next.contains(q) {
                    let a = choose|a: int| 0 <= a < next.len() && next[a] == q;
                    if a < front.len() {
                        assert(front[a] == q);
                    }
                }
            }
        }
        put_path(&mut out, path, Ghost(front.to_set()));
    }
    assert(all.take(all.len() as int) =~= all);
    out
}

} // verus!
