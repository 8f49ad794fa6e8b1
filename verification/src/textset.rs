//! Lists of texts, each once, in order.

use vstd::prelude::*;

use crate::text;
use crate::text::starts;
use crate::textmap;
use crate::textmap::TextMap;

verus! {

/// Whether the list holds exactly the texts of the set, each once, in order.
pub open spec fn lists_texts(items: Seq<String>, set: Set<Seq<char>>) -> bool {
    &&& forall|i: int, j: int|
        0 <= i < j < items.len() ==> text::text_before(#[trigger] items[i]@, #[trigger] items[j]@)
    &&& forall|t: Seq<char>| #[trigger] text::texts(items).contains(t) == set.contains(t)
}

/// The keys of a map, in order.
pub fn keys<V>(map: &TextMap<V>) -> (r: Vec<String>)
    ensures
        lists_texts(r@, map@.dom()),
        r@.len() == map.pairs().len(),
        forall|i: int| 0 <= i < r@.len() ==> (#[trigger] r@[i])@ == map.pairs()[i].0,
{
    let mut out: Vec<String> = Vec::new();
    let n: usize = map.len();
    let mut i: usize = 0;
    while i < n
        invariant
            i <= n,
            n == map.pairs().len(),
            out@.len() == i,
            forall|j: int| 0 <= j < i ==> (#[trigger] out@[j])@ == map.pairs()[j].0,
        decreases n - i,
    {
        out.push(map.key_at(i).clone());
        i = i + 1;
    }
    assert forall|a: int, b: int| 0 <= a < b < out@.len() implies text::text_before(
        #[trigger] out@[a]@,
        #[trigger] out@[b]@,
    ) by {
        assert(text::text_before(map.pairs()[a].0, map.pairs()[b].0));
    }
    assert forall|t: Seq<char>| #[trigger] text::texts(out@).contains(t) == map@.dom().contains(t) by {
        if text::texts(out@).contains(t) {
            let a = choose|a: int| 0 <= a < text::texts(out@).len() && text::texts(out@)[a] == t;
            assert(out@[a]@ == t);
            assert(textmap::stands_at(map.pairs(), t, a));
        }
        if map@.dom().contains(t) {
            let a = choose|a: int| textmap::stands_at(map.pairs(), t, a);
            assert(out@[a]@ == t);
            assert(text::texts(out@)[a] == t);
        }
    }
    out
}

/// The map with each of the items as a key.
pub fn with_keys(map: TextMap<()>, items: &Vec<String>) -> (r: TextMap<()>)
    ensures
        r@.dom() == map@.dom().union(text::texts(items@).to_set()),
{
    let mut out = map;
    let mut i: usize = 0;
    assert(map@.dom().union(text::texts(items@.take(0)).to_set()) =~= map@.dom());
    while i < items.len()
        invariant
            i <= items@.len(),
            out@.dom() == map@.dom().union(text::texts(items@.take(i as int)).to_set()),
        decreases items@.len() - i,
    {
        let ghost before = out@.dom();
        out = out.with(items[i].as_str(), ());
        let ghost front = text::texts(items@.take(i as int));
        let ghost next = text::texts(items@.take(i + 1));
        assert(next =~= front.push(items@[i as int]@));
        assert(next.to_set() =~= front.to_set().insert(items@[i as int]@)) by {
            assert forall|t: Seq<char>| next.contains(t) == (front.contains(t) || t == items@[i as int]@) by {
                if front.contains(t) {
                    let a = choose|a: int| 0 <= a < front.len() && front[a] == t;
                    assert(next[a] == t);
                }
                assert(next[i as int] == items@[i as int]@);
                if next.contains(t) {
                    let a = choose|a: int| 0 <= a < next.len() && next[a] == t;
                    if a < i {
                        assert(front[a] == t);
                    }
                }
            }
        }
        assert(out@.dom() =~= map@.dom().union(next.to_set()));
        i = i + 1;
    }
    assert(items@.take(items@.len() as int) =~= items@);
    out
}

/// The texts of a list, each once, in order.
pub fn sorted_distinct(items: &Vec<String>) -> (r: Vec<String>)
    ensures
        lists_texts(r@, text::texts(items@).to_set()),
{
    let all = with_keys(TextMap::new(), items);
    assert(Map::<Seq<char>, ()>::empty().dom().union(text::texts(items@).to_set()) =~= text::texts(items@).to_set());
    keys(&all)
}

/// The items that start with one of two prefixes, in the order they have.
pub(crate) fn starting_with(items: &Vec<String>, one: &str, other: &str, Ghost(set): Ghost<Set<Seq<char>>>) -> (r: Vec<String>)
    requires
        lists_texts(items@, set),
    ensures
        lists_texts(r@, set.filter(|t: Seq<char>| one@.is_prefix_of(t) || other@.is_prefix_of(t))),
{
    let ghost keep = |t: Seq<char>| one@.is_prefix_of(t) || other@.is_prefix_of(t);
    let mut out: Vec<String> = Vec::new();
    let mut from: Vec<usize> = Vec::new();
    let mut i: usize = 0;
    while i < items.len()
        invariant
            i <= items@.len(),
            lists_texts(items@, set),
            keep == (|t: Seq<char>| one@.is_prefix_of(t) || other@.is_prefix_of(t)),
            from@.len() == out@.len(),
            forall|j: int| 0 <= j < from@.len() ==> (#[trigger] from@[j]) < i && out@[j] == items@[from@[j] as int] && keep(out@[j]@),
            forall|a: int, b: int| 0 <= a < b < from@.len() ==> #[trigger] from@[a] < #[trigger] from@[b],
            forall|k: int| 0 <= k < i && keep(#[trigger] items@[k]@) ==> out@.contains(items@[k]),
        decreases items@.len() - i,
    {
        let ghost before = out@;
        if starts(items[i].as_str(), one) || starts(items[i].as_str(), other) {
            out.push(items[i].clone());
            from.push(i);
            assert(out@[before.len() as int] == items@[i as int]);
            assert forall|k: int| 0 <= k < i + 1 && keep(#[trigger] items@[k]@) implies out@.contains(items@[k]) by {
                if k < i {
                    assert(before.contains(items@[k]));
                    let a = choose|a: int| 0 <= a < before.len() && before[a] == items@[k];
                    assert(out@[a] == items@[k]);
                }
            }
        }
        i = i + 1;
    }
    let ghost kept = set.filter(keep);
    assert forall|a: int, b: int| 0 <= a < b < out@.len() implies text::text_before(
        #[trigger] out@[a]@,
        #[trigger] out@[b]@,
    ) by {
        assert(from@[a] < from@[b]);
        assert(text::text_before(items@[from@[a] as int]@, items@[from@[b] as int]@));
    }
    assert forall|t: Seq<char>| #[trigger] text::texts(out@).contains(t) == kept.contains(t) by {
        if text::texts(out@).contains(t) {
            let a = choose|a: int| 0 <= a < text::texts(out@).len() && text::texts(out@)[a] == t;
            assert(out@[a]@ == t);
            assert(from@[a] < items@.len());
            assert(text::texts(items@)[from@[a] as int] == t);
            assert(text::texts(items@).contains(t));
        }
        if kept.contains(t) {
            assert(text::texts(items@).contains(t));
            let k = choose|k: int| 0 <= k < text::texts(items@).len() && text::texts(items@)[k] == t;
            assert(items@[k]@ == t);
            assert(out@.contains(items@[k]));
            let a = choose|a: int| 0 <= a < out@.len() && out@[a] == items@[k];
            assert(text::texts(out@)[a] == t);
        }
    }
    out
}

} // verus!
