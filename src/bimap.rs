//! The bidirectional map between controller addresses and token ids.
//!
//! Both directions share one key space: binding `c` to `t` writes the entry
//! `c -> t` and the entry `t -> c`, so a lookup by either key finds the other.
use vstd::prelude::*;

use crate::error::{ContractError, Missing};
use crate::store::StrMap;

verus! {

/// Every entry is mirrored: the value of a key maps back to the key.
pub open spec fn is_mirrored(m: Map<Seq<char>, Seq<char>>) -> bool {
    forall|k: Seq<char>| #[trigger] m.contains_key(k) ==> m.contains_key(m[k]) && m[m[k]] == k
}

/// `m` without the pair that `k` belongs to.
pub open spec fn unbind(m: Map<Seq<char>, Seq<char>>, k: Seq<char>) -> Map<Seq<char>, Seq<char>> {
    if m.contains_key(k) {
        m.remove(k).remove(m[k])
    } else {
        m
    }
}

/// `m` with `c` and `t` bound to each other, after dropping the pairs that
/// either of them belonged to.
pub open spec fn bind(m: Map<Seq<char>, Seq<char>>, c: Seq<char>, t: Seq<char>) -> Map<
    Seq<char>,
    Seq<char>,
> {
    unbind(unbind(m, c), t).insert(c, t).insert(t, c)
}

proof fn lemma_unbind_mirrored(m: Map<Seq<char>, Seq<char>>, k: Seq<char>)
    requires
        is_mirrored(m),
    ensures
        is_mirrored(unbind(m, k)),
        !unbind(m, k).contains_key(k),
{
    let u = unbind(m, k);
    assert forall|j: Seq<char>| #[trigger] u.contains_key(j) implies u.contains_key(u[j])
        && u[u[j]] == j by {
        if m.contains_key(k) {
            assert(m.contains_key(m[k]));
            assert(m[j] != k);
            assert(m[j] != m[k]);
        }
    }
}

proof fn lemma_bind_mirrored(m: Map<Seq<char>, Seq<char>>, c: Seq<char>, t: Seq<char>)
    requires
        is_mirrored(m),
    ensures
        is_mirrored(bind(m, c, t)),
{
    lemma_unbind_mirrored(m, c);
    lemma_unbind_mirrored(unbind(m, c), t);
    let u = unbind(unbind(m, c), t);
    let b = bind(m, c, t);
    assert forall|j: Seq<char>| #[trigger] b.contains_key(j) implies b.contains_key(b[j])
        && b[b[j]] == j by {
        if j != c && j != t {
            assert(u.contains_key(j));
            assert(u[j] != c && u[j] != t) by {
                if u[j] == c || u[j] == t {
                    assert(u.contains_key(u[j]));
                }
            }
        }
    }
}

/// Binding `c` to `t` keeps every pair that shares no key with them.
pub proof fn lemma_bind_keeps_other_pairs(
    m: Map<Seq<char>, Seq<char>>,
    c: Seq<char>,
    t: Seq<char>,
    c2: Seq<char>,
    t2: Seq<char>,
)
    requires
        is_mirrored(m),
        m.contains_key(c2),
        m[c2] == t2,
        c2 != c,
        c2 != t,
        t2 != c,
        t2 != t,
    ensures
        bind(m, c, t).contains_key(c2),
        bind(m, c, t)[c2] == t2,
        bind(m, c, t).contains_key(t2),
        bind(m, c, t)[t2] == c2,
{
    lemma_unbind_mirrored(m, c);
    let u = unbind(m, c);
    assert(u.contains_key(c2) && u[c2] == t2);
    assert(u.contains_key(t2) && u[t2] == c2);
    if u.contains_key(t) {
        assert(u[t] != c2);
        assert(u[t] != t2);
    }
}

/// Controllers and tokens bound one to one, looked up by either side.
pub struct NftIcaBiMap {
    entries: StrMap<String>,
}

impl View for NftIcaBiMap {
    type V = Map<Seq<char>, Seq<char>>;

    closed spec fn view(&self) -> Map<Seq<char>, Seq<char>> {
        Map::new(|k: Seq<char>| self.entries@.contains_key(k), |k: Seq<char>| self.entries@[k]@)
    }
}

impl NftIcaBiMap {
    /// The map is well formed and every entry is mirrored.
    pub closed spec fn wf(&self) -> bool {
        &&& self.entries.wf()
        &&& is_mirrored(self@)
    }

    /// A well-formed bimap is mirrored.
    pub proof fn lemma_mirrored(&self)
        requires
            self.wf(),
        ensures
            is_mirrored(self@),
    {
    }

    /// An empty bimap.
    pub fn new() -> (r: Self)
        ensures
            r.wf(),
            r@ == Map::<Seq<char>, Seq<char>>::empty(),
    {
        let r = NftIcaBiMap { entries: StrMap::new() };
        proof {
            assert(r@ =~= Map::<Seq<char>, Seq<char>>::empty());
        }
        r
    }

    /// Drops the pair that `key` belongs to, if any.
    pub fn remove(&mut self, key: &str)
        requires
            old(self).wf(),
        ensures
            final(self).wf(),
            final(self)@ == unbind(old(self)@, key@),
    {
        let ghost before = self@;
        match self.entries.remove(key) {
            Some(other) => {
                let _ = self.entries.remove(other.as_str());
                proof {
                    assert(self@ =~= before.remove(key@).remove(other@));
                }
            },
            None => {
                proof {
                    assert(self@ =~= before);
                }
            },
        }
        proof {
            lemma_unbind_mirrored(before, key@);
        }
    }

    /// Binds `ica_addr` and `nft_id` to each other. Pairs that either of them
    /// belonged to are dropped first, so the map stays one to one.
    pub fn insert(&mut self, ica_addr: String, nft_id: String)
        requires
            old(self).wf(),
        ensures
            final(self).wf(),
            final(self)@ == bind(old(self)@, ica_addr@, nft_id@),
    {
        let ghost before = self@;
        self.remove(ica_addr.as_str());
        self.remove(nft_id.as_str());
        let ghost middle = self@;
        let c = ica_addr.clone();
        let t = nft_id.clone();
        self.entries.insert(ica_addr, nft_id);
        self.entries.insert(t, c);
        proof {
            assert(self@ =~= middle.insert(c@, t@).insert(t@, c@));
            lemma_bind_mirrored(before, c@, t@);
        }
    }

    /// Every key of the map, from both sides, each once.
    pub fn keys(&self) -> (r: Vec<String>)
        requires
            self.wf(),
        ensures
            forall|i: int| 0 <= i < r@.len() ==> self@.contains_key(#[trigger] r@[i]@),
            forall|k: Seq<char>|
                #[trigger] self@.contains_key(k) ==> exists|i: int| 0 <= i < r@.len() && r@[i]@ == k,
            forall|i: int, j: int| 0 <= i < j < r@.len() ==> r@[i]@ != r@[j]@,
    {
        let r = self.entries.keys();
        proof {
            assert forall|k: Seq<char>| #[trigger] self@.contains_key(k) implies exists|i: int|
                0 <= i < r@.len() && r@[i]@ == k by {
                assert(self.entries@.contains_key(k));
            }
        }
        r
    }

    /// The key bound to `key`, if any.
    pub fn may_load(&self, key: &str) -> (r: Option<String>)
        requires
            self.wf(),
        ensures
            match r {
                Some(v) => self@.contains_key(key@) && v@ == self@[key@],
                None => !self@.contains_key(key@),
            },
    {
        match self.entries.get(key) {
            Some(v) => Some(v.clone()),
            None => None,
        }
    }

    /// The key bound to `key`; a missing key is an error.
    pub fn load(&self, key: &str) -> (r: Result<String, ContractError>)
        requires
            self.wf(),
        ensures
            match r {
                Ok(v) => self@.contains_key(key@) && v@ == self@[key@],
                Err(e) => !self@.contains_key(key@) && e == ContractError::NotFound(
                    Missing::BimapEntry,
                ),
            },
    {
        match self.may_load(key) {
            Some(v) => Ok(v),
            None => Err(ContractError::NotFound(Missing::BimapEntry)),
        }
    }
}

/// Binding `c` to `t` makes each the lookup result of the other, and removing
/// either key afterwards leaves neither bound.
pub proof fn lemma_bimap_round_trip(m: Map<Seq<char>, Seq<char>>, c: Seq<char>, t: Seq<char>)
    requires
        is_mirrored(m),
    ensures
        bind(m, c, t).contains_key(c),
        bind(m, c, t)[c] == t,
        bind(m, c, t).contains_key(t),
        bind(m, c, t)[t] == c,
        !unbind(bind(m, c, t), c).contains_key(c),
        !unbind(bind(m, c, t), c).contains_key(t),
        !unbind(bind(m, c, t), t).contains_key(c),
        !unbind(bind(m, c, t), t).contains_key(t),
{
}

} // verus!
