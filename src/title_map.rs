//! A map keyed by entry title, kept as a list of pairs with unique titles.
use vstd::prelude::*;

verus! {

/// Values keyed by title; a title occurs at most once.
pub struct TitleMap<V> {
    entries: Vec<(String, V)>,
    contents: Ghost<Map<Seq<char>, V>>,
}

impl<V> View for TitleMap<V> {
    type V = Map<Seq<char>, V>;

    closed spec fn view(&self) -> Map<Seq<char>, V> {
        self.contents@
    }
}

impl<V> TitleMap<V> {
    /// The pairs stand for the map exactly, each title once.
    pub closed spec fn wf(&self) -> bool {
        &&& forall|i: int|
            0 <= i < self.entries@.len() ==> #[trigger] self.contents@.contains_key(self.entries@[i].0@)
                && self.contents@[self.entries@[i].0@] == self.entries@[i].1
        &&& forall|k: Seq<char>|
            #[trigger] self.contents@.contains_key(k) ==> exists|i: int|
                0 <= i < self.entries@.len() && #[trigger] self.entries@[i].0@ == k
        &&& forall|i: int, j: int|
            0 <= i < self.entries@.len() && 0 <= j < self.entries@.len() && i != j
                ==> #[trigger] self.entries@[i].0@ != #[trigger] self.entries@[j].0@
    }

    /// An empty map.
    pub fn new() -> (r: Self)
        ensures
            r.wf(),
            r@ == Map::<Seq<char>, V>::empty(),
    {
        TitleMap { entries: Vec::new(), contents: Ghost(Map::empty()) }
    }

    /// Position of `title` among the pairs.
    fn find(&self, title: &str) -> (r: Option<usize>)
        requires
            self.wf(),
        ensures
            r matches Some(i) ==> i < self.entries@.len() && self.entries@[i as int].0@ == title@,
            r is None ==> !self@.contains_key(title@),
    {
        let key = String::from_str(title);
        let mut i: usize = 0;
        while i < self.entries.len()
            invariant
                i <= self.entries@.len(),
                key@ == title@,
                forall|j: int| 0 <= j < i ==> self.entries@[j].0@ != title@,
            decreases self.entries@.len() - i,
        {
            if self.entries[i].0.eq(&key) {
                return Some(i);
            }
            i = i + 1;
        }
        None
    }

    /// The value stored under `title`.
    pub fn get(&self, title: &str) -> (r: Option<&V>)
        requires
            self.wf(),
        ensures
            r is Some <==> self@.contains_key(title@),
            r matches Some(v) ==> self@[title@] == *v,
    {
        match self.find(title) {
            Some(i) => {
                assert(self.contents@.contains_key(self.entries@[i as int].0@));
                Some(&self.entries[i].1)
            },
            None => None,
        }
    }

    /// Removes `title`; tells whether it was present.
    pub fn remove(&mut self, title: &str) -> (r: bool)
        requires
            old(self).wf(),
        ensures
            final(self).wf(),
            final(self)@ == old(self)@.remove(title@),
            r == old(self)@.contains_key(title@),
    {
        match self.find(title) {
            Some(i) => {
                let ghost pre = self.entries@;
                let ghost pre_map = self.contents@;
                self.entries.remove(i);
                self.contents = Ghost(self.contents@.remove(title@));
                assert forall|j: int| 0 <= j < self.entries@.len() implies #[trigger] self.contents@.contains_key(
                    self.entries@[j].0@,
                ) && self.contents@[self.entries@[j].0@] == self.entries@[j].1 by {
                    let k = if j < i { j } else { j + 1 };
                    assert(self.entries@[j] == pre[k]);
                    assert(pre[k].0@ != pre[i as int].0@);
                    assert(pre_map.contains_key(pre[k].0@));
                }
                assert forall|k: Seq<char>| #[trigger] self.contents@.contains_key(k) implies exists|j: int|
                    0 <= j < self.entries@.len() && #[trigger] self.entries@[j].0@ == k by {
                    let m = choose|m: int| 0 <= m < pre.len() && #[trigger] pre[m].0@ == k;
                    let j = if m < i { m } else { m - 1 };
                    assert(self.entries@[j] == pre[m]);
                }
                assert forall|a: int, b: int|
                    0 <= a < self.entries@.len() && 0 <= b < self.entries@.len() && a != b
                        implies #[trigger] self.entries@[a].0@ != #[trigger] self.entries@[b].0@ by {
                    let ka = if a < i { a } else { a + 1 };
                    let kb = if b < i { b } else { b + 1 };
                    assert(self.entries@[a] == pre[ka]);
                    assert(self.entries@[b] == pre[kb]);
                }
                true
            },
            None => {
                assert(self.contents@.remove(title@) =~= self.contents@);
                false
            },
        }
    }

    /// Stores `value` under `title`, replacing what was there.
    pub fn insert(&mut self, title: String, value: V)
        requires
            old(self).wf(),
        ensures
            final(self).wf(),
            final(self)@ == old(self)@.insert(title@, value),
    {
        let ghost pre_map = self.contents@;
        self.remove(title.as_str());
        let ghost pre = self.entries@;
        let ghost mid = self.contents@;
        let ghost key = title@;
        self.entries.push((title, value));
        self.contents = Ghost(self.contents@.insert(key, value));
        assert forall|j: int| 0 <= j < self.entries@.len() implies #[trigger] self.contents@.contains_key(
            self.entries@[j].0@,
        ) && self.contents@[self.entries@[j].0@] == self.entries@[j].1 by {
            if j < pre.len() {
                assert(self.entries@[j] == pre[j]);
            }
        }
        assert forall|k: Seq<char>| #[trigger] self.contents@.contains_key(k) implies exists|j: int|
            0 <= j < self.entries@.len() && #[trigger] self.entries@[j].0@ == k by {
            if k != key {
                let m = choose|m: int| 0 <= m < pre.len() && #[trigger] pre[m].0@ == k;
                assert(self.entries@[m] == pre[m]);
            } else {
                assert(self.entries@[pre.len() as int].0@ == key);
            }
        }
        assert forall|a: int, b: int|
            0 <= a < self.entries@.len() && 0 <= b < self.entries@.len() && a != b
                implies #[trigger] self.entries@[a].0@ != #[trigger] self.entries@[b].0@ by {
            if a < pre.len() {
                assert(self.entries@[a] == pre[a]);
                assert(mid.contains_key(pre[a].0@));
            }
            if b < pre.len() {
                assert(self.entries@[b] == pre[b]);
                assert(mid.contains_key(pre[b].0@));
            }
        }
        assert(self.contents@ =~= pre_map.insert(key, value));
    }

    /// Every title, once each.
    pub fn titles(&self) -> (r: Vec<String>)
        requires
            self.wf(),
        ensures
            forall|i: int| 0 <= i < r@.len() ==> #[trigger] self@.contains_key(r@[i]@),
            forall|k: Seq<char>| #[trigger] self@.contains_key(k) ==> exists|i: int| 0 <= i < r@.len() && #[trigger] r@[i]@ == k,
            forall|i: int, j: int| 0 <= i < r@.len() && 0 <= j < r@.len() && i != j ==> #[trigger] r@[i]@ != #[trigger] r@[j]@,
    {
        let mut r: Vec<String> = Vec::new();
        let mut i: usize = 0;
        while i < self.entries.len()
            invariant
                self.wf(),
                i <= self.entries@.len(),
                r@.len() == i,
                forall|j: int| 0 <= j < i ==> #[trigger] r@[j]@ == self.entries@[j].0@,
            decreases self.entries@.len() - i,
        {
            r.push(self.entries[i].0.clone());
            i = i + 1;
        }
        assert forall|k: Seq<char>| #[trigger] self@.contains_key(k) implies exists|j: int| 0 <= j < r@.len() && #[trigger] r@[j]@ == k by {
            let m = choose|m: int| 0 <= m < self.entries@.len() && #[trigger] self.entries@[m].0@ == k;
            assert(r@[m]@ == k);
        }
        assert forall|a: int| 0 <= a < r@.len() implies #[trigger] self@.contains_key(r@[a]@) by {
            assert(self.contents@.contains_key(self.entries@[a].0@));
        }
        assert forall|a: int, b: int| 0 <= a < r@.len() && 0 <= b < r@.len() && a != b implies #[trigger] r@[a]@ != #[trigger] r@[b]@ by {
            assert(self.entries@[a].0@ != self.entries@[b].0@);
        }
        r
    }

    /// Removes every title.
    pub fn clear(&mut self)
        ensures
            final(self).wf(),
            final(self)@ == Map::<Seq<char>, V>::empty(),
    {
        self.entries = Vec::new();
        self.contents = Ghost(Map::empty());
    }
}

} // verus!
