//! A map keyed by strings, held as parallel vectors of keys and values.
//!
//! The coordinator keeps its whole state in memory in maps of this kind. The
//! host's storage maps and deques are reached only through cosmwasm's
//! `Storage` trait object, and verified code cannot call through an outside
//! trait; so the host's store is read and written at the edge, once per
//! invocation, and every decision in between is made on this state.
use vstd::prelude::*;

use crate::text::same_text;

verus! {

/// A finite map from strings to values; each key appears at most once.
pub struct StrMap<V> {
    keys: Vec<String>,
    vals: Vec<V>,
    contents: Ghost<Map<Seq<char>, V>>,
}

impl<V> View for StrMap<V> {
    type V = Map<Seq<char>, V>;

    closed spec fn view(&self) -> Map<Seq<char>, V> {
        self.contents@
    }
}

impl<V> StrMap<V> {
    /// Keys are distinct and the vectors agree with the abstract map.
    pub closed spec fn wf(&self) -> bool {
        &&& self.keys.len() == self.vals.len()
        &&& forall|i: int, j: int|
            0 <= i < j < self.keys.len() ==> self.keys[i]@ != self.keys[j]@
        &&& forall|i: int|
            0 <= i < self.keys.len() ==> #[trigger] self.contents@.contains_key(self.keys[i]@)
                && self.contents@[self.keys[i]@] == self.vals[i]
        &&& forall|k: Seq<char>|
            #[trigger] self.contents@.contains_key(k) ==> exists|i: int|
                0 <= i < self.keys.len() && self.keys[i]@ == k
    }

    /// An empty map.
    pub fn new() -> (r: Self)
        ensures
            r.wf(),
            r@ == Map::<Seq<char>, V>::empty(),
    {
        StrMap { keys: Vec::new(), vals: Vec::new(), contents: Ghost(Map::empty()) }
    }

    /// Position of `k` among the keys.
    fn find(&self, k: &str) -> (r: Option<usize>)
        requires
            self.wf(),
        ensures
            match r {
                Some(i) => i < self.keys.len() && self.keys[i as int]@ == k@
                    && self@.contains_key(k@),
                None => !self@.contains_key(k@),
            },
    {
        let n = self.keys.len();
        let mut i: usize = 0;
        while i < n
            invariant
                self.wf(),
                n == self.keys.len(),
                i <= n,
                forall|j: int| 0 <= j < i ==> self.keys[j]@ != k@,
            decreases n - i,
        {
            if same_text(&self.keys[i], k) {
                proof {
                    assert(self.contents@.contains_key(self.keys[i as int]@));
                }
                return Some(i);
            }
            i = i + 1;
        }
        None
    }

    /// Whether `k` is bound.
    pub fn contains_key(&self, k: &str) -> (r: bool)
        requires
            self.wf(),
        ensures
            r == self@.contains_key(k@),
    {
        self.find(k).is_some()
    }

    /// The value bound to `k`, if any.
    pub fn get(&self, k: &str) -> (r: Option<&V>)
        requires
            self.wf(),
        ensures
            match r {
                Some(v) => self@.contains_key(k@) && *v == self@[k@],
                None => !self@.contains_key(k@),
            },
    {
        match self.find(k) {
            Some(i) => Some(&self.vals[i]),
            None => None,
        }
    }

    /// Unbinds `k` and hands back what it was bound to.
    pub fn remove(&mut self, k: &str) -> (r: Option<V>)
        requires
            old(self).wf(),
        ensures
            final(self).wf(),
            final(self)@ == old(self)@.remove(k@),
            match r {
                Some(v) => old(self)@.contains_key(k@) && v == old(self)@[k@],
                None => !old(self)@.contains_key(k@),
            },
    {
        match self.find(k) {
            Some(i) => {
                let ghost old_keys = self.keys@;
                let ghost old_vals = self.vals@;
                let ghost m = self.contents@.remove(k@);
                let _ = self.keys.remove(i);
                let v = self.vals.remove(i);
                self.contents = Ghost(m);
                proof {
                    assert forall|j: int| 0 <= j < self.keys.len() implies
                        #[trigger] self.contents@.contains_key(self.keys[j]@)
                        && self.contents@[self.keys[j]@] == self.vals[j] by {
                        if j < i {
                            assert(self.keys[j] == old_keys[j]);
                            assert(self.vals[j] == old_vals[j]);
                            assert(old_keys[j]@ != old_keys[i as int]@);
                        } else {
                            assert(self.keys[j] == old_keys[j + 1]);
                            assert(self.vals[j] == old_vals[j + 1]);
                            assert(old_keys[j + 1]@ != old_keys[i as int]@);
                        }
                    }
                    assert forall|key: Seq<char>| #[trigger] self.contents@.contains_key(key)
                        implies exists|j: int| 0 <= j < self.keys.len() && self.keys[j]@ == key by {
                        let w = choose|w: int| 0 <= w < old_keys.len() && old_keys[w]@ == key;
                        if w < i {
                            assert(self.keys[w]@ == key);
                        } else {
                            assert(w != i);
                            assert(self.keys[w - 1]@ == key);
                        }
                    }
                }
                Some(v)
            },
            None => {
                proof {
                    assert(self.contents@.remove(k@) =~= self.contents@);
                }
                None
            },
        }
    }

    /// Binds `k` to `v`, replacing any earlier binding of `k`.
    pub fn insert(&mut self, k: String, v: V)
        requires
            old(self).wf(),
        ensures
            final(self).wf(),
            final(self)@ == old(self)@.insert(k@, v),
    {
        let _ = self.remove(k.as_str());
        let ghost m = self.contents@.insert(k@, v);
        let ghost old_keys = self.keys@;
        let ghost old_vals = self.vals@;
        proof {
            assert forall|j: int| 0 <= j < old_keys.len() implies old_keys[j]@ != k@ by {
                assert(self.contents@.contains_key(self.keys[j]@));
            }
        }
        self.keys.push(k);
        self.vals.push(v);
        self.contents = Ghost(m);
        proof {
            assert forall|a: int, b: int| 0 <= a < b < self.keys.len() implies
                self.keys[a]@ != self.keys[b]@ by {
                assert(self.keys[a] == old_keys[a]);
                if b < old_keys.len() {
                    assert(self.keys[b] == old_keys[b]);
                }
            }
            assert forall|j: int| 0 <= j < self.keys.len() implies
                #[trigger] self.contents@.contains_key(self.keys[j]@)
                && self.contents@[self.keys[j]@] == self.vals[j] by {
                if j < old_keys.len() {
                    assert(self.keys[j] == old_keys[j]);
                    assert(self.vals[j] == old_vals[j]);
                    assert(old_keys[j]@ != k@);
                }
            }
            assert forall|key: Seq<char>| #[trigger] self.contents@.contains_key(key)
                implies exists|j: int| 0 <= j < self.keys.len() && self.keys[j]@ == key by {
                if key != self.keys[old_keys.len() as int]@ {
                    let w = choose|w: int| 0 <= w < old_keys.len() && old_keys[w]@ == key;
                    assert(self.keys[w]@ == key);
                }
            }
        }
    }

    /// The bound keys, each once.
    pub fn keys(&self) -> (r: Vec<String>)
        requires
            self.wf(),
        ensures
            r@.len() == self@.dom().len(),
            forall|i: int| 0 <= i < r@.len() ==> self@.contains_key(#[trigger] r@[i]@),
            forall|k: Seq<char>|
                #[trigger] self@.contains_key(k) ==> exists|i: int| 0 <= i < r@.len() && r@[i]@ == k,
            forall|i: int, j: int| 0 <= i < j < r@.len() ==> r@[i]@ != r@[j]@,
    {
        let mut out: Vec<String> = Vec::new();
        let n = self.keys.len();
        let mut i: usize = 0;
        while i < n
            invariant
                self.wf(),
                n == self.keys.len(),
                i <= n,
                out@.len() == i,
                forall|j: int| 0 <= j < i ==> out@[j] == self.keys@[j],
            decreases n - i,
        {
            out.push(self.keys[i].clone());
            i = i + 1;
        }
        proof {
            let view_keys = self.keys@.map_values(|s: String| s@);
            assert(view_keys.no_duplicates());
            assert(view_keys.to_set() =~= self@.dom()) by {
                assert forall|k: Seq<char>| self@.dom().contains(k) implies view_keys.to_set().contains(k) by {
                    let w = choose|w: int| 0 <= w < self.keys.len() && self.keys[w]@ == k;
                    assert(view_keys[w] == k);
                }
                assert forall|k: Seq<char>| view_keys.to_set().contains(k) implies self@.dom().contains(k) by {
                    let w = choose|w: int| 0 <= w < view_keys.len() && view_keys[w] == k;
                    assert(self.contents@.contains_key(self.keys[w]@));
                }
            }
            view_keys.unique_seq_to_set();
            assert forall|k: Seq<char>| #[trigger] self@.contains_key(k) implies exists|j: int|
                0 <= j < out@.len() && out@[j]@ == k by {
                let w = choose|w: int| 0 <= w < self.keys.len() && self.keys[w]@ == k;
                assert(out@[w]@ == k);
            }
            assert forall|j: int| 0 <= j < out@.len() implies self@.contains_key(#[trigger] out@[j]@) by {
                assert(self.contents@.contains_key(self.keys[j]@));
            }
        }
        out
    }
}

} // verus!
