//! Staged selections: partially specified jobs held under a short identifier
//! until the follow-up choice arrives.
use vstd::prelude::*;
use vstd::string::*;

verus! {

/// A link whose quality has not been chosen yet.
#[derive(Debug, Clone)]
pub struct PendingDownload {
    pub url: String,
    pub chat_id: i64,
    pub message_id: i32,
}

/// A downloaded file whose output format has not been chosen yet.
#[derive(Debug, Clone)]
pub struct PendingConversion {
    pub filename: String,
    pub thumbnail_path: Option<String>,
    pub chat_id: i64,
    pub message_id: i32,
}

impl PendingDownload {
    pub fn copied(&self) -> (r: PendingDownload)
        ensures
            r == *self,
    {
        PendingDownload { url: self.url.clone(), chat_id: self.chat_id, message_id: self.message_id }
    }
}

impl PendingConversion {
    pub fn copied(&self) -> (r: PendingConversion)
        ensures
            r == *self,
    {
        PendingConversion {
            filename: self.filename.clone(),
            thumbnail_path: match &self.thumbnail_path {
                Some(t) => Some(t.clone()),
                None => None,
            },
            chat_id: self.chat_id,
            message_id: self.message_id,
        }
    }
}

/// The value stored under `k`, if any.
pub open spec fn lookup<V>(m: Map<Seq<char>, V>, k: Seq<char>) -> Option<V> {
    if m.contains_key(k) {
        Some(m[k])
    } else {
        None
    }
}

/// Records keyed by the text of their identifier, kept in insertion order.
pub struct PendingTable<V> {
    entries: Vec<(String, V)>,
    contents: Ghost<Map<Seq<char>, V>>,
}

impl<V> View for PendingTable<V> {
    type V = Map<Seq<char>, V>;

    closed spec fn view(&self) -> Map<Seq<char>, V> {
        self.contents@
    }
}

impl<V> PendingTable<V> {
    /// The stored keys, as texts, with their records, in insertion order.
    pub closed spec fn entries(&self) -> Seq<(Seq<char>, V)> {
        self.entries@.map_values(|e: (String, V)| (e.0@, e.1))
    }

    pub closed spec fn wf(&self) -> bool {
        &&& forall|i: int|
            0 <= i < self.entries@.len() ==> {
                &&& self.contents@.contains_key(#[trigger] self.entries@[i].0@)
                &&& self.contents@[self.entries@[i].0@] == self.entries@[i].1
            }
        &&& forall|i: int, j: int|
            0 <= i < self.entries@.len() && 0 <= j < self.entries@.len() && i != j
                ==> #[trigger] self.entries@[i].0@ != #[trigger] self.entries@[j].0@
        &&& forall|k: Seq<char>|
            #[trigger] self.contents@.contains_key(k) ==> exists|i: int|
                0 <= i < self.entries@.len() && #[trigger] self.entries@[i].0@ == k
    }

    /// Each stored pair is what the map holds under its key.
    pub proof fn lemma_entries_agree(&self)
        requires
            self.wf(),
        ensures
            self.entries().len() == self@.dom().len(),
            forall|i: int|
                0 <= i < self.entries().len() ==> {
                    &&& self@.contains_key(#[trigger] self.entries()[i].0)
                    &&& self@[self.entries()[i].0] == self.entries()[i].1
                },
            forall|k: Seq<char>|
                #[trigger] self@.contains_key(k) ==> exists|i: int|
                    0 <= i < self.entries().len() && #[trigger] self.entries()[i].0 == k,
    {
        assert forall|i: int| 0 <= i < self.entries().len() implies #[trigger] self.entries()[i] == (
        self.entries@[i].0@, self.entries@[i].1) by {}
        assert forall|k: Seq<char>| #[trigger] self@.contains_key(k) implies exists|i: int|
            0 <= i < self.entries().len() && #[trigger] self.entries()[i].0 == k by {
            let i = choose|i: int| 0 <= i < self.entries@.len() && #[trigger] self.entries@[i].0@ == k;
            assert(self.entries()[i].0 == k);
        }
        let keys = self.entries@.map_values(|e: (String, V)| e.0@);
        assert forall|i: int, j: int| 0 <= i < keys.len() && 0 <= j < keys.len() && i != j implies keys[i]
            != keys[j] by {
            assert(keys[i] == self.entries@[i].0@);
            assert(keys[j] == self.entries@[j].0@);
        }
        keys.unique_seq_to_set();
        assert(keys.to_set() =~= self.contents@.dom()) by {
            assert forall|k: Seq<char>| keys.to_set().contains(k) implies self.contents@.dom().contains(k) by {
                let i = choose|i: int| 0 <= i < keys.len() && keys[i] == k;
                assert(self.entries@[i].0@ == k);
            }
            assert forall|k: Seq<char>| self.contents@.dom().contains(k) implies keys.to_set().contains(k) by {
                assert(self.contents@.contains_key(k));
                let i = choose|i: int| 0 <= i < self.entries@.len() && #[trigger] self.entries@[i].0@ == k;
                assert(keys[i] == k);
            }
        }
    }

    pub fn new() -> (r: Self)
        ensures
            r.wf(),
            r@ == Map::<Seq<char>, V>::empty(),
            r.entries().len() == 0,
    {
        PendingTable { entries: Vec::new(), contents: Ghost(Map::empty()) }
    }

    pub fn len(&self) -> (r: usize)
        requires
            self.wf(),
        ensures
            r == self.entries().len(),
            r == self@.dom().len(),
    {
        proof {
            self.lemma_entries_agree();
        }
        self.entries.len()
    }

    /// The pair stored at position `i` of the insertion order.
    pub fn entry_at(&self, i: usize) -> (r: (&String, &V))
        requires
            self.wf(),
            i < self.entries().len(),
        ensures
            r.0@ == self.entries()[i as int].0,
            *r.1 == self.entries()[i as int].1,
            self@.contains_key(r.0@),
            self@[r.0@] == *r.1,
    {
        let e = &self.entries[i];
        (&e.0, &e.1)
    }

    fn find(&self, key: &String) -> (r: Option<usize>)
        requires
            self.wf(),
        ensures
            match r {
                Some(i) => i < self.entries@.len() && self.entries@[i as int].0@ == key@,
                None => !self@.contains_key(key@),
            },
    {
        let mut i: usize = 0;
        while i < self.entries.len()
            invariant
                self.wf(),
                i <= self.entries@.len(),
                forall|j: int| 0 <= j < i ==> self.entries@[j].0@ != key@,
            decreases self.entries@.len() - i,
        {
            if self.entries[i].0 == *key {
                return Some(i);
            }
            i = i + 1;
        }
        proof {
            if self.contents@.contains_key(key@) {
                let j = choose|j: int| 0 <= j < self.entries@.len() && #[trigger] self.entries@[j].0@ == key@;
                assert(self.entries@[j].0@ == key@);
            }
        }
        None
    }

    /// Stores `value` under `key`, replacing what was there.
    pub fn insert(&mut self, key: String, value: V)
        requires
            old(self).wf(),
        ensures
            final(self).wf(),
            final(self)@ == old(self)@.insert(key@, value),
            final(self).entries() == upsert(old(self).entries(), key@, value),
    {
        let ghost k = key@;
        let ghost v = value;
        let ghost pos: int;
        match self.find(&key) {
            Some(i) => {
                self.entries.set(i, (key, value));
                proof {
                    pos = i as int;
                }
            },
            None => {
                self.entries.push((key, value));
                proof {
                    pos = self.entries@.len() - 1;
                }
            },
        }
        assert(self.entries@[pos].0@ == k);
        proof {
            let oe = old(self).entries();
            if exists|j: int| 0 <= j < oe.len() && oe[j].0 == k {
                let c = choose|j: int| 0 <= j < oe.len() && oe[j].0 == k;
                assert(old(self).entries@[c].0@ == k);
                assert(old(self).entries@[pos].0@ == k);
                assert(c == pos);
                assert(self.entries() =~= oe.update(pos, (k, v)));
            } else {
                if pos < oe.len() {
                    assert(oe[pos].0 == old(self).entries@[pos].0@);
                }
                assert(self.entries() =~= oe.push((k, v)));
            }
        }
        self.contents = Ghost(self.contents@.insert(k, v));
        assert(self.wf()) by {
            let es = self.entries@;
            let m = self.contents@;
            assert forall|i: int| 0 <= i < es.len() implies m.contains_key(#[trigger] es[i].0@) && m[es[i].0@]
                == es[i].1 by {
                if es[i].0@ != k {
                    assert(old(self).entries@[i] == es[i]);
                }
            }
            assert forall|kk: Seq<char>| #[trigger] m.contains_key(kk) implies exists|i: int|
                0 <= i < es.len() && #[trigger] es[i].0@ == kk by {
                if kk == k {
                    assert(es[pos].0@ == kk);
                } else {
                    let i = choose|i: int|
                        0 <= i < old(self).entries@.len() && #[trigger] old(self).entries@[i].0@ == kk;
                    assert(es[i].0@ == kk);
                }
            }
        }
    }

    /// The record stored under `key`, left in place.
    pub fn get(&self, key: &str) -> (r: Option<&V>)
        requires
            self.wf(),
        ensures
            match r {
                Some(v) => lookup(self@, key@) == Some(*v),
                None => lookup(self@, key@) is None,
            },
    {
        let k = String::from_str(key);
        match self.find(&k) {
            Some(i) => Some(&self.entries[i].1),
            None => None,
        }
    }

    /// Removes the record stored under `key` and hands it back.
    pub fn remove(&mut self, key: &str) -> (r: Option<V>)
        requires
            old(self).wf(),
        ensures
            final(self).wf(),
            r == lookup(old(self)@, key@),
            final(self)@ == old(self)@.remove(key@),
    {
        let k = String::from_str(key);
        match self.find(&k) {
            Some(i) => {
                let ghost old_es = self.entries@;
                let e = self.entries.remove(i);
                self.contents = Ghost(self.contents@.remove(k@));
                assert(self.wf()) by {
                    let es = self.entries@;
                    let m = self.contents@;
                    assert forall|j: int| 0 <= j < es.len() implies m.contains_key(#[trigger] es[j].0@) && m[es[j].0@]
                        == es[j].1 by {
                        let oj = if j < i { j } else { j + 1 };
                        assert(es[j] == old_es[oj]);
                        assert(oj != i);
                    }
                    assert forall|a: int, b: int| 0 <= a < es.len() && 0 <= b < es.len() && a != b implies #[trigger] es[a].0@
                        != #[trigger] es[b].0@ by {
                        let oa = if a < i { a } else { a + 1 };
                        let ob = if b < i { b } else { b + 1 };
                        assert(es[a] == old_es[oa]);
                        assert(es[b] == old_es[ob]);
                    }
                    assert forall|kk: Seq<char>| #[trigger] m.contains_key(kk) implies exists|j: int|
                        0 <= j < es.len() && #[trigger] es[j].0@ == kk by {
                        let oj = choose|oj: int| 0 <= oj < old_es.len() && #[trigger] old_es[oj].0@ == kk;
                        assert(oj != i);
                        let j = if oj < i { oj } else { oj - 1 };
                        assert(es[j] == old_es[oj]);
                    }
                }
                Some(e.1)
            },
            None => {
                assert(self.contents@.remove(k@) =~= self.contents@);
                None
            },
        }
    }

    /// Removes every record.
    pub fn clear(&mut self)
        requires
            old(self).wf(),
        ensures
            final(self).wf(),
            final(self)@ == Map::<Seq<char>, V>::empty(),
            final(self).entries().len() == 0,
    {
        self.entries.clear();
        self.contents = Ghost(Map::empty());
    }
}

/// `es` after storing `v` under `k`: in place where `k` is already
/// stored, at the end otherwise.
pub open spec fn upsert<V>(es: Seq<(Seq<char>, V)>, k: Seq<char>, v: V) -> Seq<(Seq<char>, V)> {
    if exists|i: int| 0 <= i < es.len() && es[i].0 == k {
        es.update(choose|i: int| 0 <= i < es.len() && es[i].0 == k, (k, v))
    } else {
        es.push((k, v))
    }
}

/// What `take` leaves behind and hands back.
pub open spec fn take_spec<V>(m: Map<Seq<char>, V>, k: Seq<char>) -> (Map<Seq<char>, V>, Option<V>) {
    (m.remove(k), lookup(m, k))
}

/// Taking a staged record consumes it: a second take of the same identifier
/// finds nothing, whatever the first one returned.
pub proof fn take_is_idempotent<V>(m: Map<Seq<char>, V>, k: Seq<char>)
    ensures
        take_spec(take_spec(m, k).0, k).1 is None,
        take_spec(take_spec(m, k).0, k).0 == take_spec(m, k).0,
{
    assert(m.remove(k).remove(k) =~= m.remove(k));
}

} // verus!
