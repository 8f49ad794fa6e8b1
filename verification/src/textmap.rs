//! A map from text keys, held in key order.

use vstd::prelude::*;

use crate::text;
use crate::text::{before, same};

verus! {

/// Whether the keys of the pairs are in order, each only once.
pub open spec fn in_key_order<V>(pairs: Seq<(Seq<char>, V)>) -> bool {
    forall|i: int, j: int| 0 <= i < j < pairs.len() ==> text::text_before(#[trigger] pairs[i].0, #[trigger] pairs[j].0)
}

/// Where the key stands among the pairs.
pub open spec fn stands_at<V>(pairs: Seq<(Seq<char>, V)>, key: Seq<char>, i: int) -> bool {
    0 <= i < pairs.len() && pairs[i].0 == key
}

/// The map that the pairs hold.
pub open spec fn map_of<V>(pairs: Seq<(Seq<char>, V)>) -> Map<Seq<char>, V> {
    Map::new(
        |k: Seq<char>| exists|i: int| stands_at(pairs, k, i),
        |k: Seq<char>| pairs[choose|i: int| stands_at(pairs, k, i)].1,
    )
}

/// A map from text keys, held in key order.
#[derive(Debug)]
pub struct TextMap<V> {
    entries: Vec<(String, V)>,
}

/// The pairs of an entry list, each key by its text.
pub open spec fn pairs_of<V>(entries: Seq<(String, V)>) -> Seq<(Seq<char>, V)> {
    entries.map_values(|e: (String, V)| (e.0@, e.1))
}

impl<V> TextMap<V> {
    /// The pairs, in key order.
    pub closed spec fn pairs(&self) -> Seq<(Seq<char>, V)> {
        pairs_of(self.entries@)
    }

    #[verifier::type_invariant]
    spec fn ordered(&self) -> bool {
        in_key_order(self.pairs())
    }
}

impl<V> View for TextMap<V> {
    type V = Map<Seq<char>, V>;

    open spec fn view(&self) -> Map<Seq<char>, V> {
        map_of(self.pairs())
    }
}

/// A key stands in one place only.
pub proof fn one_place<V>(pairs: Seq<(Seq<char>, V)>, i: int)
    requires
        in_key_order(pairs),
        0 <= i < pairs.len(),
    ensures
        map_of(pairs).dom().contains(pairs[i].0),
        map_of(pairs)[pairs[i].0] == pairs[i].1,
{
    assert(stands_at(pairs, pairs[i].0, i));
    let j = choose|j: int| stands_at(pairs, pairs[i].0, j);
    text::order_is_total(pairs[i].0, pairs[j].0);
    if i < j {
        assert(text::text_before(pairs[i].0, pairs[j].0));
    } else if j < i {
        assert(text::text_before(pairs[j].0, pairs[i].0));
    }
}

/// The value of a key that comes at place `i` put to `v`.
proof fn replaced_at<V>(pairs: Seq<(Seq<char>, V)>, i: int, v: V)
    requires
        in_key_order(pairs),
        0 <= i < pairs.len(),
    ensures
        in_key_order(pairs.update(i, (pairs[i].0, v))),
        map_of(pairs.update(i, (pairs[i].0, v))) == map_of(pairs).insert(pairs[i].0, v),
{
    let new = pairs.update(i, (pairs[i].0, v));
    let key = pairs[i].0;
    assert forall|a: int, b: int| 0 <= a < b < new.len() implies text::text_before(
        #[trigger] new[a].0,
        #[trigger] new[b].0,
    ) by {
        assert(new[a].0 == pairs[a].0 && new[b].0 == pairs[b].0);
        assert(text::text_before(pairs[a].0, pairs[b].0));
    }
    assert forall|k: Seq<char>| map_of(new).dom().contains(k) <==> map_of(pairs).insert(key, v).dom().contains(k) by {
        if map_of(new).dom().contains(k) {
            let a = choose|a: int| stands_at(new, k, a);
            assert(stands_at(pairs, k, a));
        }
        if map_of(pairs).dom().contains(k) {
            let a = choose|a: int| stands_at(pairs, k, a);
            assert(stands_at(new, k, a));
        }
        if k == key {
            assert(stands_at(new, k, i));
        }
    }
    assert forall|k: Seq<char>| map_of(new).dom().contains(k) implies map_of(new)[k] == map_of(pairs).insert(
        key,
        v,
    )[k] by {
        let a = choose|a: int| stands_at(new, k, a);
        one_place(new, a);
        one_place(pairs, a);
        if k == key {
            one_place(new, i);
        }
    }
    assert(map_of(new) =~= map_of(pairs).insert(key, v));
}

/// A new key put in at its place.
proof fn inserted_at<V>(pairs: Seq<(Seq<char>, V)>, i: int, key: Seq<char>, v: V)
    requires
        in_key_order(pairs),
        0 <= i <= pairs.len(),
        forall|j: int| 0 <= j < i ==> text::text_before(#[trigger] pairs[j].0, key),
        i < pairs.len() ==> text::text_before(key, pairs[i].0),
    ensures
        in_key_order(pairs.insert(i, (key, v))),
        map_of(pairs.insert(i, (key, v))) == map_of(pairs).insert(key, v),
        !map_of(pairs).dom().contains(key),
{
    let new = pairs.insert(i, (key, v));
    assert forall|j: int| i <= j < pairs.len() implies text::text_before(key, #[trigger] pairs[j].0) by {
        if j > i {
            assert(text::text_before(pairs[i].0, pairs[j].0));
            text::order_is_transitive(key, pairs[i].0, pairs[j].0);
        }
    }
    assert forall|a: int, b: int| 0 <= a < b < new.len() implies text::text_before(
        #[trigger] new[a].0,
        #[trigger] new[b].0,
    ) by {
        if a < i && b < i {
            assert(text::text_before(pairs[a].0, pairs[b].0));
        } else if a < i && b > i {
            assert(text::text_before(pairs[a].0, pairs[b - 1].0));
        } else if a > i {
            assert(text::text_before(pairs[a - 1].0, pairs[b - 1].0));
        } else if a == i {
            assert(text::text_before(key, pairs[b - 1].0));
        }
    }
    assert(!map_of(pairs).dom().contains(key)) by {
        if map_of(pairs).dom().contains(key) {
            let a = choose|a: int| stands_at(pairs, key, a);
            text::order_is_total(key, key);
            if a < i {
                assert(text::text_before(pairs[a].0, key));
            } else {
                assert(text::text_before(key, pairs[a].0));
            }
        }
    }
    assert forall|k: Seq<char>| map_of(new).dom().contains(k) <==> map_of(pairs).insert(key, v).dom().contains(k) by {
        if map_of(new).dom().contains(k) {
            let a = choose|a: int| stands_at(new, k, a);
            if a < i {
                assert(stands_at(pairs, k, a));
            } else if a > i {
                assert(stands_at(pairs, k, a - 1));
            }
        }
        if map_of(pairs).dom().contains(k) {
            let a = choose|a: int| stands_at(pairs, k, a);
            if a < i {
                assert(stands_at(new, k, a));
            } else {
                assert(stands_at(new, k, a + 1));
            }
        }
        if k == key {
            assert(stands_at(new, k, i));
        }
    }
    assert forall|k: Seq<char>| map_of(new).dom().contains(k) implies map_of(new)[k] == map_of(pairs).insert(
        key,
        v,
    )[k] by {
        let a = choose|a: int| stands_at(new, k, a);
        one_place(new, a);
        if a < i {
            one_place(pairs, a);
        } else if a > i {
            one_place(pairs, a - 1);
        }
    }
    assert(map_of(new) =~= map_of(pairs).insert(key, v));
}

/// A key taken out.
proof fn removed_at<V>(pairs: Seq<(Seq<char>, V)>, i: int)
    requires
        in_key_order(pairs),
        0 <= i < pairs.len(),
    ensures
        in_key_order(pairs.remove(i)),
        map_of(pairs.remove(i)) == map_of(pairs).remove(pairs[i].0),
{
    let new = pairs.remove(i);
    let key = pairs[i].0;
    assert forall|a: int, b: int| 0 <= a < b < new.len() implies text::text_before(
        #[trigger] new[a].0,
        #[trigger] new[b].0,
    ) by {
        let x = if a < i { a } else { a + 1 };
        let y = if b < i { b } else { b + 1 };
        assert(text::text_before(pairs[x].0, pairs[y].0));
    }
    assert forall|k: Seq<char>| map_of(new).dom().contains(k) <==> map_of(pairs).remove(key).dom().contains(k) by {
        if map_of(new).dom().contains(k) {
            let a = choose|a: int| stands_at(new, k, a);
            let x = if a < i { a } else { a + 1 };
            assert(stands_at(pairs, k, x));
            text::order_is_total(pairs[x].0, key);
            if x < i {
                assert(text::text_before(pairs[x].0, pairs[i].0));
            } else {
                assert(text::text_before(pairs[i].0, pairs[x].0));
            }
            assert(k != key) by {
                text::order_is_total(key, key);
            }
        }
        if map_of(pairs).dom().contains(k) && k != key {
            let a = choose|a: int| stands_at(pairs, k, a);
            let x = if a < i { a } else { a - 1 };
            assert(stands_at(new, k, x));
        }
    }
    assert forall|k: Seq<char>| map_of(new).dom().contains(k) implies map_of(new)[k] == map_of(pairs).remove(
        key,
    )[k] by {
        let a = choose|a: int| stands_at(new, k, a);
        let x = if a < i { a } else { a + 1 };
        one_place(new, a);
        one_place(pairs, x);
    }
    assert(map_of(new) =~= map_of(pairs).remove(key));
}

impl<V> TextMap<V> {
    /// A map with nothing in it.
    pub fn new() -> (r: TextMap<V>)
        ensures
            r@ == Map::<Seq<char>, V>::empty(),
            r.pairs() == Seq::<(Seq<char>, V)>::empty(),
    {
        let entries: Vec<(String, V)> = Vec::new();
        assert(pairs_of(entries@) == Seq::<(Seq<char>, V)>::empty());
        let r = TextMap { entries };
        assert(r@ =~= Map::<Seq<char>, V>::empty()) by {
            assert forall|k: Seq<char>| !r@.dom().contains(k) by {
                if r@.dom().contains(k) {
                    let i = choose|i: int| stands_at(r.pairs(), k, i);
                }
            }
        }
        r
    }

    /// How many keys there are.
    pub fn len(&self) -> (r: usize)
        ensures
            r == self.pairs().len(),
            in_key_order(self.pairs()),
    {
        proof {
            use_type_invariant(self);
        }
        self.entries.len()
    }

    /// The key at place `i` of the key order.
    pub fn key_at(&self, i: usize) -> (r: &String)
        requires
            i < self.pairs().len(),
        ensures
            r@ == self.pairs()[i as int].0,
    {
        &self.entries[i].0
    }

    /// The value at place `i` of the key order.
    pub fn value_at(&self, i: usize) -> (r: &V)
        requires
            i < self.pairs().len(),
        ensures
            *r == self.pairs()[i as int].1,
    {
        &self.entries[i].1
    }

    /// Where `key` stands, or where it would be put in.
    fn place(&self, key: &str) -> (r: (usize, bool))
        ensures
            r.0 <= self.pairs().len(),
            r.1 ==> r.0 < self.pairs().len() && self.pairs()[r.0 as int].0 == key@,
            !r.1 ==> !self@.dom().contains(key@),
            !r.1 ==> forall|j: int| 0 <= j < r.0 ==> text::text_before(#[trigger] self.pairs()[j].0, key@),
            !r.1 && r.0 < self.pairs().len() ==> text::text_before(key@, self.pairs()[r.0 as int].0),
    {
        proof {
            use_type_invariant(self);
        }
        let mut i: usize = 0;
        while i < self.entries.len()
            invariant
                i <= self.entries@.len(),
                self.pairs().len() == self.entries@.len(),
                in_key_order(self.pairs()),
                forall|j: int| 0 <= j < i ==> text::text_before(#[trigger] self.pairs()[j].0, key@),
            decreases self.entries@.len() - i,
        {
            assert(self.pairs()[i as int].0 == self.entries@[i as int].0@);
            if same(self.entries[i].0.as_str(), key) {
                return (i, true);
            }
            if !before(self.entries[i].0.as_str(), key) {
                proof {
                    text::order_is_total(self.pairs()[i as int].0, key@);
                    inserted_at(self.pairs(), i as int, key@, self.entries@[0].1);
                }
                return (i, false);
            }
            i = i + 1;
        }
        proof {
            if self.entries@.len() > 0 {
                inserted_at(self.pairs(), i as int, key@, self.entries@[0].1);
            } else {
                assert(!self@.dom().contains(key@)) by {
                    if self@.dom().contains(key@) {
                        let a = choose|a: int| stands_at(self.pairs(), key@, a);
                    }
                }
            }
        }
        (i, false)
    }

    /// The value of `key`.
    pub fn get(&self, key: &str) -> (r: Option<&V>)
        ensures
            r is Some == self@.dom().contains(key@),
            r matches Some(v) ==> *v == self@[key@],
    {
        let (i, found) = self.place(key);
        if found {
            proof {
                use_type_invariant(self);
                one_place(self.pairs(), i as int);
            }
            Some(&self.entries[i].1)
        } else {
            None
        }
    }

    /// Whether there is such a key.
    pub fn has(&self, key: &str) -> (r: bool)
        ensures
            r == self@.dom().contains(key@),
    {
        self.get(key).is_some()
    }

    /// The map with `key` at `value`.
    pub fn with(self, key: &str, value: V) -> (r: TextMap<V>)
        ensures
            r@ == self@.insert(key@, value),
            r.pairs().len() == self.pairs().len() + (if self@.dom().contains(key@) {
                0int
            } else {
                1int
            }),
    {
        let (i, found) = self.place(key);
        proof {
            use_type_invariant(&self);
        }
        let ghost old_pairs = self.pairs();
        let mut entries = self.entries;
        if found {
            assert(stands_at(old_pairs, key@, i as int));
            proof {
                replaced_at(old_pairs, i as int, value);
            }
            let ghost before_entries = entries@;
            entries.set(i, (key.to_owned(), value));
            assert(pairs_of(entries@) == old_pairs.update(i as int, (key@, value)));
        } else {
            proof {
                inserted_at(old_pairs, i as int, key@, value);
            }
            entries.insert(i, (key.to_owned(), value));
            assert(pairs_of(entries@) == old_pairs.insert(i as int, (key@, value)));
        }
        TextMap { entries }
    }

    /// The map without `key`.
    pub fn without(self, key: &str) -> (r: TextMap<V>)
        ensures
            r@ == self@.remove(key@),
    {
        let (i, found) = self.place(key);
        if !found {
            assert(self@.remove(key@) =~= self@);
            return self;
        }
        proof {
            use_type_invariant(&self);
            removed_at(self.pairs(), i as int);
        }
        let ghost old_pairs = self.pairs();
        let mut entries = self.entries;
        let gone = entries.remove(i);
        assert(pairs_of(entries@) == old_pairs.remove(i as int));
        TextMap { entries }
    }
}

impl TextMap<String> {
    /// A copy of the map.
    pub fn copy(&self) -> (r: TextMap<String>)
        ensures
            r.pairs() == self.pairs(),
            r@ == self@,
    {
        proof {
            use_type_invariant(self);
        }
        let mut entries: Vec<(String, String)> = Vec::new();
        let mut i: usize = 0;
        while i < self.entries.len()
            invariant
                i <= self.entries@.len(),
                entries@ == self.entries@.take(i as int),
            decreases self.entries@.len() - i,
        {
            entries.push((self.entries[i].0.clone(), self.entries[i].1.clone()));
            assert(self.entries@.take(i as int).push(self.entries@[i as int]) == self.entries@.take(i + 1));
            i = i + 1;
        }
        assert(self.entries@.take(self.entries@.len() as int) == self.entries@);
        TextMap { entries }
    }

    /// The map with every pair of `other` put in.
    pub fn with_all(self, other: &TextMap<String>) -> (r: TextMap<String>)
        ensures
            text_values(r@) == text_values(self@).union_prefer_right(text_values(other@)),
    {
        let mut out = self;
        let n: usize = other.len();
        let mut i: usize = 0;
        proof {
            assert(map_of(other.pairs().take(0)) =~= Map::<Seq<char>, String>::empty()) by {
                assert forall|k: Seq<char>| !map_of(other.pairs().take(0)).dom().contains(k) by {
                    if map_of(other.pairs().take(0)).dom().contains(k) {
                        let a = choose|a: int| stands_at(other.pairs().take(0), k, a);
                    }
                }
            }
            assert(text_values(self@).union_prefer_right(text_values(Map::<Seq<char>, String>::empty())) =~= text_values(self@));
        }
        while i < n
            invariant
                i <= n,
                n == other.pairs().len(),
                in_key_order(other.pairs()),
                text_values(out@) == text_values(self@).union_prefer_right(text_values(map_of(other.pairs().take(i as int)))),
            decreases n - i,
        {
            proof {
                taken_one_more(other.pairs(), i as int);
            }
            let ghost before_map = out@;
            out = out.with(other.key_at(i).as_str(), other.value_at(i).clone());
            let ghost pair = other.pairs()[i as int];
            assert(text_values(out@) =~= text_values(before_map).insert(pair.0, pair.1@));
            assert(text_values(map_of(other.pairs().take(i + 1))) =~= text_values(map_of(other.pairs().take(i as int))).insert(
                pair.0,
                pair.1@,
            ));
            assert(text_values(out@) =~= text_values(self@).union_prefer_right(
                text_values(map_of(other.pairs().take(i + 1))),
            ));
            i = i + 1;
        }
        assert(other.pairs().take(n as int) == other.pairs());
        out
    }
}

/// A map of strings, each value by its text.
pub open spec fn text_values(m: Map<Seq<char>, String>) -> Map<Seq<char>, Seq<char>> {
    m.map_values(|s: String| s@)
}

/// One pair more.
pub proof fn taken_one_more<V>(pairs: Seq<(Seq<char>, V)>, i: int)
    requires
        in_key_order(pairs),
        0 <= i < pairs.len(),
    ensures
        map_of(pairs.take(i + 1)) == map_of(pairs.take(i)).insert(pairs[i].0, pairs[i].1),
        !map_of(pairs.take(i)).dom().contains(pairs[i].0),
{
    let front = pairs.take(i);
    assert forall|a: int, b: int| 0 <= a < b < front.len() implies text::text_before(
        #[trigger] front[a].0,
        #[trigger] front[b].0,
    ) by {
        assert(text::text_before(pairs[a].0, pairs[b].0));
    }
    assert forall|j: int| 0 <= j < i implies text::text_before(#[trigger] front[j].0, pairs[i].0) by {
        assert(text::text_before(pairs[j].0, pairs[i].0));
    }
    inserted_at(front, i, pairs[i].0, pairs[i].1);
    assert(front.insert(i, pairs[i]) =~= pairs.take(i + 1));
}

} // verus!
