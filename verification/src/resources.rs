//! The per-cycle map of auxiliary resource bytes (flag images), and the
//! fan-in step of the batch downloader: every item of a batch resolves to
//! either bytes or a failure, and exactly the successful items end up in the
//! map. The batch as a whole never fails.

use vstd::prelude::*;

use crate::text::str_eq_chars;

verus! {

/// The mapping that a sequence of keyed entries denotes; a later entry for
/// the same key supersedes an earlier one.
pub open spec fn map_of(s: Seq<(Seq<char>, Seq<u8>)>) -> Map<Seq<char>, Seq<u8>>
    decreases s.len(),
{
    if s.len() == 0 {
        Map::empty()
    } else {
        map_of(s.drop_last()).insert(s.last().0, s.last().1)
    }
}

/// No two entries share a key.
pub open spec fn unique_keys<T>(s: Seq<(Seq<char>, T)>) -> bool {
    forall|i: int, j: int| 0 <= i < j < s.len() ==> (#[trigger] s[i]).0 != (#[trigger] s[j]).0
}

/// A mapping from resource key to raw resource bytes, with one entry per
/// key. Within a refresh cycle it only grows; a new cycle replaces it.
pub struct ResourceMap {
    entries: Vec<(String, Vec<u8>)>,
}

impl View for ResourceMap {
    type V = Map<Seq<char>, Seq<u8>>;

    closed spec fn view(&self) -> Map<Seq<char>, Seq<u8>> {
        map_of(self.entry_views())
    }
}

impl ResourceMap {
    /// The keys and byte buffers held, in insertion order.
    pub closed spec fn entry_views(&self) -> Seq<(Seq<char>, Seq<u8>)> {
        self.entries@.map_values(|p: (String, Vec<u8>)| (p.0@, p.1@))
    }

    /// Well-formed: one entry per key.
    pub closed spec fn wf(&self) -> bool {
        unique_keys(self.entry_views())
    }

    /// An empty map.
    pub fn new() -> (r: ResourceMap)
        ensures
            r.wf(),
            r@ == Map::<Seq<char>, Seq<u8>>::empty(),
            r.entry_views() == Seq::<(Seq<char>, Seq<u8>)>::empty(),
    {
        let r = ResourceMap { entries: Vec::new() };
        proof {
            assert(r.entry_views() =~= Seq::<(Seq<char>, Seq<u8>)>::empty());
        }
        r
    }

    /// Number of keys held.
    pub fn len(&self) -> (r: usize)
        requires
            self.wf(),
        ensures
            r == self@.dom().len(),
    {
        proof {
            lemma_map_of_len(self.entry_views());
        }
        self.entries.len()
    }

    /// The bytes stored under a key, if any.
    pub fn get(&self, key: &str) -> (r: Option<&Vec<u8>>)
        requires
            self.wf(),
        ensures
            match r {
                Some(v) => self@.contains_key(key@) && self@[key@] == v@,
                None => !self@.contains_key(key@),
            },
    {
        let mut i: usize = 0;
        while i < self.entries.len()
            invariant
                self.wf(),
                i <= self.entries@.len(),
                forall|j: int| 0 <= j < i ==> (#[trigger] self.entry_views()[j]).0 != key@,
            decreases self.entries@.len() - i,
        {
            if str_eq_chars(self.entries[i].0.as_str(), key) {
                proof {
                    lemma_map_of_found(self.entry_views(), i as int, key@);
                }
                return Some(&self.entries[i].1);
            }
            i = i + 1;
        }
        proof {
            lemma_map_of_absent(self.entry_views(), key@);
        }
        None
    }

    /// Stores bytes under a key, superseding any bytes already there.
    pub fn insert(&mut self, key: String, value: Vec<u8>)
        requires
            old(self).wf(),
        ensures
            final(self).wf(),
            final(self)@ == old(self)@.insert(key@, value@),
    {
        let ghost pre = self.entry_views();
        let mut i: usize = 0;
        while i < self.entries.len()
            invariant
                unique_keys(pre),
                old(self).entry_views() == pre,
                self.entry_views() == pre,
                i <= self.entries@.len(),
                forall|j: int| 0 <= j < i ==> (#[trigger] pre[j]).0 != key@,
            decreases self.entries@.len() - i,
        {
            if str_eq_chars(self.entries[i].0.as_str(), key.as_str()) {
                self.entries.set(i, (key, value));
                proof {
                    assert(self.entry_views() =~= pre.update(i as int, (key@, value@)));
                    lemma_map_of_update(pre, i as int, key@, value@);
                }
                return ;
            }
            i = i + 1;
        }
        self.entries.push((key, value));
        proof {
            assert(self.entry_views() =~= pre.push((key@, value@)));
            assert(self.entry_views().drop_last() =~= pre);
        }
    }

    /// Adds every entry of `other` to this map, superseding entries already
    /// present under the same keys.
    pub fn merge(&mut self, other: &ResourceMap)
        requires
            old(self).wf(),
        ensures
            final(self).wf(),
            final(self)@ == old(self)@.union_prefer_right(other@),
    {
        let ghost pre = self@;
        let ghost oviews = other.entry_views();
        let mut i: usize = 0;
        while i < other.entries.len()
            invariant
                oviews == other.entry_views(),
                i <= other.entries@.len(),
                self.wf(),
                self@ == pre.union_prefer_right(map_of(oviews.take(i as int))),
            decreases other.entries@.len() - i,
        {
            let (key, value) = (other.entries[i].0.clone(), other.entries[i].1.clone());
            self.insert(key, value);
            proof {
                assert(oviews.take(i + 1).drop_last() =~= oviews.take(i as int));
                assert(oviews.take(i + 1).last() == oviews[i as int]);
                assert(pre.union_prefer_right(map_of(oviews.take(i + 1)))
                    =~= pre.union_prefer_right(map_of(oviews.take(i as int))).insert(
                    oviews[i as int].0,
                    oviews[i as int].1,
                ));
            }
            i = i + 1;
        }
        proof {
            assert(oviews.take(oviews.len() as int) =~= oviews);
            assert(pre.union_prefer_right(map_of(Seq::empty())) =~= pre);
        }
    }
}

/// The mapping that a resolved batch denotes: every item that resolved to
/// bytes is present under its key, every failed item is absent.
pub open spec fn spec_collect(outcomes: Seq<(Seq<char>, Option<Seq<u8>>)>) -> Map<
    Seq<char>,
    Seq<u8>,
>
    decreases outcomes.len(),
{
    if outcomes.len() == 0 {
        Map::empty()
    } else {
        match outcomes.last().1 {
            Some(bytes) => spec_collect(outcomes.drop_last()).insert(outcomes.last().0, bytes),
            None => spec_collect(outcomes.drop_last()),
        }
    }
}

/// How many items of a batch resolved to bytes.
pub open spec fn count_successes(outcomes: Seq<(Seq<char>, Option<Seq<u8>>)>) -> nat
    decreases outcomes.len(),
{
    if outcomes.len() == 0 {
        0
    } else {
        count_successes(outcomes.drop_last()) + if outcomes.last().1 is Some {
            1nat
        } else {
            0nat
        }
    }
}

/// The keys of the items of a batch that resolved to bytes.
pub open spec fn success_keys(outcomes: Seq<(Seq<char>, Option<Seq<u8>>)>) -> Set<Seq<char>> {
    Set::new(
        |k: Seq<char>|
            exists|i: int|
                0 <= i < outcomes.len() && (#[trigger] outcomes[i]).0 == k && outcomes[i].1 is Some,
    )
}

/// Gathers the outcomes of one resolved batch into a resource map: each item
/// that resolved to bytes contributes its entry, each failed item
/// contributes nothing, and the batch as a whole cannot fail.
pub fn collect_batch(outcomes: Vec<(String, Option<Vec<u8>>)>) -> (r: ResourceMap)
    ensures
        r.wf(),
        r@ == spec_collect(outcome_views(outcomes@)),
{
    let ghost views = outcome_views(outcomes@);
    let mut r = ResourceMap::new();
    for i in 0..outcomes.len()
        invariant
            views == outcome_views(outcomes@),
            r.wf(),
            r@ == spec_collect(views.take(i as int)),
    {
        match &outcomes[i].1 {
            Some(bytes) => {
                r.insert(outcomes[i].0.clone(), bytes.clone());
            },
            None => {},
        }
        proof {
            assert(views.take(i + 1).drop_last() =~= views.take(i as int));
            assert(views.take(i + 1).last() == views[i as int]);
        }
    }
    proof {
        assert(views.take(views.len() as int) =~= views);
    }
    r
}

/// The key and resolution of each batch item, in order.
pub open spec fn outcome_views(s: Seq<(String, Option<Vec<u8>>)>) -> Seq<
    (Seq<char>, Option<Seq<u8>>),
> {
    s.map_values(
        |p: (String, Option<Vec<u8>>)|
            (
                p.0@,
                match p.1 {
                    Some(b) => Some(b@),
                    None => None,
                },
            ),
    )
}

proof fn lemma_map_of_finite(s: Seq<(Seq<char>, Seq<u8>)>)
    ensures
        map_of(s).dom().finite(),
    decreases s.len(),
{
    if s.len() > 0 {
        lemma_map_of_finite(s.drop_last());
    }
}

/// With one entry per key, the denoted map has exactly one key per entry.
proof fn lemma_map_of_len(s: Seq<(Seq<char>, Seq<u8>)>)
    requires
        unique_keys(s),
    ensures
        map_of(s).dom().finite(),
        map_of(s).dom().len() == s.len(),
    decreases s.len(),
{
    lemma_map_of_finite(s);
    if s.len() > 0 {
        assert(unique_keys(s.drop_last()));
        lemma_map_of_len(s.drop_last());
        lemma_map_of_keys(s.drop_last());
        assert(!map_of(s.drop_last()).dom().contains(s.last().0));
    }
}

/// Every key of the denoted map is the key of some entry.
proof fn lemma_map_of_keys(s: Seq<(Seq<char>, Seq<u8>)>)
    ensures
        forall|k: Seq<char>|
            #[trigger] map_of(s).contains_key(k) ==> exists|i: int|
                0 <= i < s.len() && (#[trigger] s[i]).0 == k,
    decreases s.len(),
{
    if s.len() > 0 {
        lemma_map_of_keys(s.drop_last());
        assert forall|k: Seq<char>| #[trigger] map_of(s).contains_key(k) implies exists|i: int|
            0 <= i < s.len() && (#[trigger] s[i]).0 == k by {
            if k == s.last().0 {
                assert(s[s.len() - 1].0 == k);
            } else {
                assert(map_of(s.drop_last()).contains_key(k));
                let i = choose|i: int| 0 <= i < s.drop_last().len() && (#[trigger] s.drop_last()[i]).0 == k;
                assert(s[i].0 == k);
            }
        }
    }
}

/// With one entry per key, the entry at `i` gives the value of its key.
proof fn lemma_map_of_found(s: Seq<(Seq<char>, Seq<u8>)>, i: int, k: Seq<char>)
    requires
        unique_keys(s),
        0 <= i < s.len(),
        s[i].0 == k,
    ensures
        map_of(s).contains_key(k),
        map_of(s)[k] == s[i].1,
    decreases s.len(),
{
    if i == s.len() - 1 {
    } else {
        assert(unique_keys(s.drop_last()));
        assert(s.drop_last()[i] == s[i]);
        lemma_map_of_found(s.drop_last(), i, k);
        assert(s.last().0 != k);
    }
}

/// A key no entry carries is absent from the denoted map.
proof fn lemma_map_of_absent(s: Seq<(Seq<char>, Seq<u8>)>, k: Seq<char>)
    requires
        forall|j: int| 0 <= j < s.len() ==> (#[trigger] s[j]).0 != k,
    ensures
        !map_of(s).contains_key(k),
    decreases s.len(),
{
    if s.len() > 0 {
        assert(forall|j: int|
            0 <= j < s.drop_last().len() ==> (#[trigger] s.drop_last()[j]).0 != k);
        lemma_map_of_absent(s.drop_last(), k);
        assert(s[s.len() - 1].0 != k);
    }
}

/// Overwriting the one entry of a key in place denotes inserting over it.
proof fn lemma_map_of_update(s: Seq<(Seq<char>, Seq<u8>)>, i: int, k: Seq<char>, v: Seq<u8>)
    requires
        unique_keys(s),
        0 <= i < s.len(),
        s[i].0 == k,
    ensures
        unique_keys(s.update(i, (k, v))),
        map_of(s.update(i, (k, v))) == map_of(s).insert(k, v),
    decreases s.len(),
{
    let t = s.update(i, (k, v));
    assert forall|a: int, b: int| 0 <= a < b < t.len() implies (#[trigger] t[a]).0 != (
    #[trigger] t[b]).0 by {
        assert(s[a].0 != s[b].0);
    }
    if i == s.len() - 1 {
        assert(t.drop_last() =~= s.drop_last());
        assert(t.last() == (k, v));
        assert(map_of(t) =~= map_of(s).insert(k, v));
    } else {
        assert(s.drop_last()[i] == s[i]);
        assert(unique_keys(s.drop_last()));
        lemma_map_of_update(s.drop_last(), i, k, v);
        assert(t.drop_last() =~= s.drop_last().update(i, (k, v)));
        assert(t.last() == s.last());
        assert(s.last().0 != k);
        assert(map_of(t) =~= map_of(s).insert(k, v));
    }
}

/// Joining a fully resolved batch keeps exactly the items that succeeded:
/// the result's keys are the keys of the successful items, and, when the
/// batch's keys are distinct, the result holds as many entries as there were
/// successes.
pub proof fn lemma_join_completeness(outcomes: Seq<(Seq<char>, Option<Seq<u8>>)>)
    requires
        unique_keys(outcomes),
    ensures
        spec_collect(outcomes).dom() =~= success_keys(outcomes),
        spec_collect(outcomes).dom().finite(),
        spec_collect(outcomes).dom().len() == count_successes(outcomes),
    decreases outcomes.len(),
{
    lemma_collect_dom(outcomes);
    if outcomes.len() > 0 {
        assert(unique_keys(outcomes.drop_last()));
        lemma_join_completeness(outcomes.drop_last());
        match outcomes.last().1 {
            Some(bytes) => {
                assert(!success_keys(outcomes.drop_last()).contains(outcomes.last().0)) by {
                    if success_keys(outcomes.drop_last()).contains(outcomes.last().0) {
                        let i = choose|i: int|
                            0 <= i < outcomes.drop_last().len() && (#[trigger] outcomes.drop_last()[i]).0
                                == outcomes.last().0 && outcomes.drop_last()[i].1 is Some;
                        assert(outcomes[i].0 == outcomes[outcomes.len() - 1].0);
                    }
                }
                lemma_collect_dom(outcomes.drop_last());
            },
            None => {},
        }
    }
}

/// The keys of a joined batch are exactly the keys of its successful items.
proof fn lemma_collect_dom(outcomes: Seq<(Seq<char>, Option<Seq<u8>>)>)
    ensures
        spec_collect(outcomes).dom() =~= success_keys(outcomes),
    decreases outcomes.len(),
{
    if outcomes.len() > 0 {
        lemma_collect_dom(outcomes.drop_last());
        assert forall|k: Seq<char>| success_keys(outcomes).contains(k) implies spec_collect(
            outcomes,
        ).dom().contains(k) by {
            let i = choose|i: int|
                0 <= i < outcomes.len() && (#[trigger] outcomes[i]).0 == k && outcomes[i].1 is Some;
            if i < outcomes.len() - 1 {
                assert(outcomes.drop_last()[i] == outcomes[i]);
                assert(success_keys(outcomes.drop_last()).contains(k));
            }
        }
        assert forall|k: Seq<char>| spec_collect(outcomes).dom().contains(k) implies success_keys(
            outcomes,
        ).contains(k) by {
            if outcomes.last().1 is Some && k == outcomes.last().0 {
                assert(outcomes[outcomes.len() - 1].0 == k);
            } else {
                assert(success_keys(outcomes.drop_last()).contains(k));
                let i = choose|i: int|
                    0 <= i < outcomes.drop_last().len() && (#[trigger] outcomes.drop_last()[i]).0
                        == k && outcomes.drop_last()[i].1 is Some;
                assert(outcomes[i].0 == k && outcomes[i].1 is Some);
            }
        }
    }
}

/// A batch whose items all failed still joins, to the empty mapping rather
/// than to an error.
pub proof fn lemma_batch_never_fails(outcomes: Seq<(Seq<char>, Option<Seq<u8>>)>)
    requires
        forall|i: int| 0 <= i < outcomes.len() ==> (#[trigger] outcomes[i]).1 is None,
    ensures
        spec_collect(outcomes) == Map::<Seq<char>, Seq<u8>>::empty(),
    decreases outcomes.len(),
{
    if outcomes.len() > 0 {
        assert(forall|i: int|
            0 <= i < outcomes.drop_last().len() ==> (#[trigger] outcomes.drop_last()[i]).1
                is None);
        lemma_batch_never_fails(outcomes.drop_last());
        assert(outcomes[outcomes.len() - 1].1 is None);
    }
}

} // verus!
