//! The flag table of a request envelope: a map from flag names to values.

use vstd::prelude::*;

verus! {

/// A map from flag names to flag values. Each name occurs at most once;
/// setting a name that is already present replaces its value.
pub struct Flags {
    entries: Vec<(String, String)>,
}

impl Flags {
    /// The entry at `i` has the name `k`.
    pub closed spec fn has_key_at(self, i: int, k: Seq<char>) -> bool {
        0 <= i < self.entries@.len() && self.entries@[i].0@ == k
    }

    /// No name occurs twice.
    pub closed spec fn wf(self) -> bool {
        forall|i: int, j: int|
            0 <= i < self.entries@.len() && 0 <= j < self.entries@.len() && i != j
                ==> self.entries@[i].0@ != self.entries@[j].0@
    }

    /// An empty table.
    pub fn new() -> (r: Flags)
        ensures
            r.wf(),
            r@ == Map::<Seq<char>, Seq<char>>::empty(),
    {
        let r = Flags { entries: Vec::new() };
        assert(r@ =~= Map::<Seq<char>, Seq<char>>::empty());
        r
    }

    /// Sets `key` to `value`, replacing any earlier value of `key`.
    pub fn insert(&mut self, key: String, value: String)
        requires
            old(self).wf(),
        ensures
            final(self).wf(),
            final(self)@ == old(self)@.insert(key@, value@),
    {
        let ghost before = *self;
        let n = self.entries.len();
        let mut i: usize = 0;
        while i < n
            invariant
                i <= n,
                n == self.entries@.len(),
                *self == before,
                before == *old(self),
                before.wf(),
                forall|j: int| 0 <= j < i ==> self.entries@[j].0@ != key@,
            decreases n - i,
        {
            if self.entries[i].0 == key {
                let ghost k = key@;
                let ghost v = value@;
                self.entries.set(i, (key, value));
                proof {
                    before.lemma_insert_view(*self, k, v, i as int);
                }
                return;
            }
            i = i + 1;
        }
        let ghost k = key@;
        let ghost v = value@;
        self.entries.push((key, value));
        proof {
            before.lemma_insert_view(*self, k, v, n as int);
        }
    }

    /// The value of `key`, if it is set.
    pub fn get(&self, key: &str) -> (r: Option<String>)
        requires
            self.wf(),
        ensures
            match r {
                Some(v) => self@.dom().contains(key@) && self@[key@] == v@,
                None => !self@.dom().contains(key@),
            },
    {
        let n = self.entries.len();
        let wanted = String::from_str(key);
        let mut i: usize = 0;
        while i < n
            invariant
                i <= n,
                n == self.entries@.len(),
                wanted@ == key@,
                self.wf(),
                forall|j: int| 0 <= j < i ==> self.entries@[j].0@ != key@,
            decreases n - i,
        {
            if self.entries[i].0 == wanted {
                proof {
                    assert(self.has_key_at(i as int, key@));
                    let w = choose|w: int| self.has_key_at(w, key@);
                    assert(w == i as int);
                }
                return Some(self.entries[i].1.clone());
            }
            i = i + 1;
        }
        assert(!exists|w: int| self.has_key_at(w, key@));
        None
    }

    /// The number of names that are set.
    pub fn len(&self) -> (r: usize)
        requires
            self.wf(),
        ensures
            r == self@.len(),
    {
        proof { self.lemma_len(); }
        self.entries.len()
    }

    /// The (name, value) pairs of the table, each name once.
    pub fn pairs(&self) -> (r: Vec<(String, String)>)
        requires
            self.wf(),
        ensures
            r@.len() == self@.len(),
            forall|i: int|
                #![auto]
                0 <= i < r@.len() ==> self@.dom().contains(r@[i].0@) && self@[r@[i].0@]
                    == r@[i].1@,
            forall|i: int, j: int|
                #![auto]
                0 <= i < r@.len() && 0 <= j < r@.len() && i != j ==> r@[i].0@ != r@[j].0@,
    {
        proof { self.lemma_len(); }
        let n = self.entries.len();
        let mut out: Vec<(String, String)> = Vec::new();
        let mut i: usize = 0;
        while i < n
            invariant
                i <= n,
                n == self.entries@.len(),
                self.wf(),
                out@.len() == i,
                forall|j: int|
                    #![auto]
                    0 <= j < i ==> out@[j].0@ == self.entries@[j].0@ && out@[j].1@
                        == self.entries@[j].1@,
            decreases n - i,
        {
            let k = self.entries[i].0.clone();
            let v = self.entries[i].1.clone();
            out.push((k, v));
            i = i + 1;
        }
        assert forall|j: int|
            #![auto]
            0 <= j < out@.len() implies self@.dom().contains(out@[j].0@) && self@[out@[j].0@]
                == out@[j].1@ by {
            assert(self.has_key_at(j, out@[j].0@));
            let w = choose|w: int| self.has_key_at(w, out@[j].0@);
            assert(w == j);
        }
        out
    }

    /// `after` is `self` with the entry at `at` set to (`k`, `v`): `at` is
    /// either where `k` stood or one past the end, and no other entry names
    /// `k`.
    proof fn lemma_insert_view(self, after: Flags, k: Seq<char>, v: Seq<char>, at: int)
        requires
            self.wf(),
            0 <= at <= self.entries@.len(),
            at < self.entries@.len() ==> self.entries@[at].0@ == k,
            forall|j: int| 0 <= j < self.entries@.len() && j != at ==> self.entries@[j].0@ != k,
            after.entries@.len() == if at < self.entries@.len() {
                self.entries@.len()
            } else {
                self.entries@.len() + 1
            },
            after.entries@[at].0@ == k,
            after.entries@[at].1@ == v,
            forall|j: int| 0 <= j < self.entries@.len() && j != at ==> after.entries@[j] == self.entries@[j],
        ensures
            after.wf(),
            after@ == self@.insert(k, v),
    {
        let old_map = self@;
        assert forall|a: int, b: int|
            0 <= a < after.entries@.len() && 0 <= b < after.entries@.len() && a != b
                implies after.entries@[a].0@ != after.entries@[b].0@ by {
            if a != at && b != at {
                assert(self.entries@[a].0@ != self.entries@[b].0@);
            }
        }
        assert forall|kk: Seq<char>|
            #![auto]
            after@.dom().contains(kk) <==> old_map.insert(k, v).dom().contains(kk) by {
            if kk != k && old_map.dom().contains(kk) {
                let w = choose|w: int| self.has_key_at(w, kk);
                assert(after.has_key_at(w, kk));
            }
            if after@.dom().contains(kk) && kk != k {
                let w = choose|w: int| after.has_key_at(w, kk);
                assert(self.has_key_at(w, kk));
            }
            if kk == k {
                assert(after.has_key_at(at, kk));
            }
        }
        assert forall|kk: Seq<char>|
            #![auto]
            after@.dom().contains(kk) implies after@[kk] == old_map.insert(k, v)[kk] by {
            let w = choose|w: int| after.has_key_at(w, kk);
            if kk == k {
                assert(after.has_key_at(at, kk));
                assert(w == at);
            } else {
                let w2 = choose|w2: int| self.has_key_at(w2, kk);
                assert(self.has_key_at(w, kk));
                assert(w2 == w);
            }
        }
        assert(after@ =~= old_map.insert(k, v));
    }

    proof fn lemma_len(self)
        requires
            self.wf(),
        ensures
            self@.len() == self.entries@.len(),
            self@.dom().finite(),
    {
        let keys = self.entries@.map_values(|e: (String, String)| e.0@);
        assert(self@.dom() =~= keys.to_set()) by {
            assert forall|k: Seq<char>| self@.dom().contains(k) implies keys.to_set().contains(k) by {
                let w = choose|w: int| self.has_key_at(w, k);
                assert(keys[w] == k);
            }
            assert forall|k: Seq<char>| keys.to_set().contains(k) implies self@.dom().contains(k) by {
                let w = choose|w: int| 0 <= w < keys.len() && keys[w] == k;
                assert(self.has_key_at(w, k));
            }
        }
        assert(keys.no_duplicates());
        keys.unique_seq_to_set();
    }
}

impl View for Flags {
    type V = Map<Seq<char>, Seq<char>>;

    closed spec fn view(&self) -> Map<Seq<char>, Seq<char>> {
        Map::new(
            |k: Seq<char>| exists|i: int| self.has_key_at(i, k),
            |k: Seq<char>| self.entries@[choose|i: int| self.has_key_at(i, k)].1@,
        )
    }
}

impl Clone for Flags {
    fn clone(&self) -> (r: Self)
        ensures
            self.wf() ==> r.wf() && r@ == self@,
    {
        let n = self.entries.len();
        let mut out: Vec<(String, String)> = Vec::new();
        let mut i: usize = 0;
        while i < n
            invariant
                i <= n,
                n == self.entries@.len(),
                out@.len() == i,
                forall|j: int|
                    #![auto]
                    0 <= j < i ==> out@[j].0@ == self.entries@[j].0@ && out@[j].1@
                        == self.entries@[j].1@,
            decreases n - i,
        {
            let k = self.entries[i].0.clone();
            let v = self.entries[i].1.clone();
            out.push((k, v));
            i = i + 1;
        }
        let r = Flags { entries: out };
        proof {
            if self.wf() {
                assert forall|k: Seq<char>, i: int| r.has_key_at(i, k) == self.has_key_at(i, k) by {}
                assert forall|k: Seq<char>| #![auto] r@.dom().contains(k) implies r@[k] == self@[k] by {
                    let w = choose|w: int| r.has_key_at(w, k);
                    let w2 = choose|w2: int| self.has_key_at(w2, k);
                    assert(self.has_key_at(w, k));
                    assert(w == w2);
                }
                assert(r@ =~= self@);
            }
        }
        r
    }
}

} // verus!
