//! The client registry: the set of identifiers of the connections that are
//! currently between "accepted" and "terminated".  The acceptor inserts an
//! id before it hands the connection to a worker, and the worker removes it
//! when it finishes, so the registry's cardinality is exactly the number of
//! live workers.

use vstd::prelude::*;
use vstd::seq_lib::*;

verus! {

/// Appending an element that is not yet present keeps a duplicate-free
/// sequence duplicate-free and inserts the element into its set of values.
proof fn lemma_push_fresh(s: Seq<u128>, id: u128)
    requires
        s.no_duplicates(),
        !s.contains(id),
    ensures
        s.push(id).no_duplicates(),
        s.push(id).to_set() == s.to_set().insert(id),
{
    let t = s.push(id);
    assert forall|i: int, j: int|
        0 <= i < t.len() && 0 <= j < t.len() && i != j implies t[i] != t[j] by {
        if i < s.len() && j < s.len() {
        } else if j == s.len() {
            if t[i] == id {
                assert(s[i] == id);
                assert(s.contains(id));
            }
        } else {
            if t[j] == id {
                assert(s[j] == id);
                assert(s.contains(id));
            }
        }
    }
    assert forall|x: u128| #[trigger] t.to_set().contains(x)
        implies s.to_set().insert(id).contains(x) by {
        let k = choose|k: int| 0 <= k < t.len() && t[k] == x;
        if k < s.len() {
            assert(s[k] == x);
            assert(s.contains(x));
        }
    }
    assert forall|x: u128| #[trigger] s.to_set().insert(id).contains(x)
        implies t.to_set().contains(x) by {
        if x == id {
            assert(t[s.len() as int] == x);
        } else {
            let k = choose|k: int| 0 <= k < s.len() && s[k] == x;
            assert(t[k] == x);
        }
        assert(t.contains(x));
    }
    assert(t.to_set() =~= s.to_set().insert(id));
}

/// Removing the one index that holds `id` from a duplicate-free sequence
/// keeps it duplicate-free and removes `id` from its set of values.
proof fn lemma_remove_at(s: Seq<u128>, i: int, id: u128)
    requires
        s.no_duplicates(),
        0 <= i < s.len(),
        s[i] == id,
    ensures
        s.remove(i).no_duplicates(),
        s.remove(i).to_set() == s.to_set().remove(id),
{
    let t = s.remove(i);
    s.remove_ensures(i);
    assert forall|p: int, q: int|
        0 <= p < t.len() && 0 <= q < t.len() && p != q implies t[p] != t[q] by {
        let p0: int = if p < i { p } else { p + 1 };
        let q0: int = if q < i { q } else { q + 1 };
        assert(t[p] == s[p0]);
        assert(t[q] == s[q0]);
    }
    assert forall|x: u128| #[trigger] t.to_set().contains(x)
        implies s.to_set().remove(id).contains(x) by {
        let k = choose|k: int| 0 <= k < t.len() && t[k] == x;
        let k0: int = if k < i { k } else { k + 1 };
        assert(s[k0] == x);
        assert(s.contains(x));
        if x == id {
            assert(s[k0] == s[i] && k0 != i);
        }
    }
    assert forall|x: u128| #[trigger] s.to_set().remove(id).contains(x)
        implies t.to_set().contains(x) by {
        let k = choose|k: int| 0 <= k < s.len() && s[k] == x;
        assert(k != i);
        let k1: int = if k < i { k } else { k - 1 };
        assert(t[k1] == x);
        assert(t.contains(x));
    }
    assert(t.to_set() =~= s.to_set().remove(id));
}

/// A registry of live client connections, identified by process-unique
/// 128-bit ids.  Viewed as the finite set of registered ids.
pub struct ClientRegistry {
    ids: Vec<u128>,
}

impl View for ClientRegistry {
    type V = Set<u128>;

    closed spec fn view(&self) -> Set<u128> {
        self.ids@.to_set()
    }
}

impl ClientRegistry {
    /// The backing vector holds each registered id exactly once, so its
    /// length is the cardinality of the set of registered ids.
    pub closed spec fn wf(&self) -> bool {
        self.ids@.no_duplicates()
    }

    /// A fresh, empty registry.
    pub fn new() -> (r: ClientRegistry)
        ensures
            r.wf(),
            r@ == Set::<u128>::empty(),
    {
        let r = ClientRegistry { ids: Vec::new() };
        proof {
            assert(r.ids@.to_set() =~= Set::<u128>::empty());
        }
        r
    }

    /// Whether `id` is currently registered.
    pub fn contains(&self, id: u128) -> (r: bool)
        requires
            self.wf(),
        ensures
            r == self@.contains(id),
    {
        let n = self.ids.len();
        let mut i: usize = 0;
        while i < n
            invariant
                n == self.ids@.len(),
                0 <= i <= n,
                forall|j: int| 0 <= j < i ==> self.ids@[j] != id,
            decreases n - i,
        {
            if self.ids[i] == id {
                proof {
                    assert(self.ids@.contains(id));
                }
                return true;
            }
            i = i + 1;
        }
        proof {
            assert(!self.ids@.contains(id));
        }
        false
    }

    /// The number of registered clients.
    pub fn count(&self) -> (r: usize)
        requires
            self.wf(),
        ensures
            r == self@.len(),
    {
        proof {
            self.ids@.unique_seq_to_set();
        }
        self.ids.len()
    }

    /// Registers `id`.  If it was already present the registry is unchanged;
    /// otherwise the set of registered ids grows by exactly this id.  Either
    /// way the result is the number of registered clients afterwards.
    pub fn insert(&mut self, id: u128) -> (r: usize)
        requires
            old(self).wf(),
        ensures
            final(self).wf(),
            final(self)@ == old(self)@.insert(id),
            r == final(self)@.len(),
    {
        if !self.contains(id) {
            proof {
                lemma_push_fresh(self.ids@, id);
            }
            self.ids.push(id);
        } else {
            proof {
                assert(self.ids@.to_set() =~= self.ids@.to_set().insert(id));
            }
        }
        self.count()
    }

    /// Removes `id` if it is registered; the registry is unchanged when it
    /// is not.  Returns the number of registered clients afterwards.
    pub fn remove(&mut self, id: u128) -> (r: usize)
        requires
            old(self).wf(),
        ensures
            final(self).wf(),
            final(self)@ == old(self)@.remove(id),
            r == final(self)@.len(),
    {
        let n = self.ids.len();
        let mut i: usize = 0;
        while i < n
            invariant
                n == self.ids@.len(),
                0 <= i <= n,
                self.ids@ == old(self).ids@,
                self.ids@.no_duplicates(),
                forall|j: int| 0 <= j < i ==> self.ids@[j] != id,
            decreases n - i,
        {
            if self.ids[i] == id {
                proof {
                    lemma_remove_at(self.ids@, i as int, id);
                }
                self.ids.remove(i);
                return self.count();
            }
            i = i + 1;
        }
        proof {
            assert(!self.ids@.contains(id));
            assert(self.ids@.to_set() =~= self.ids@.to_set().remove(id));
        }
        self.count()
    }

    /// Atomically empties the registry and returns the number of clients
    /// that were registered before the call.
    pub fn drain(&mut self) -> (r: usize)
        requires
            old(self).wf(),
        ensures
            final(self).wf(),
            final(self)@ == Set::<u128>::empty(),
            r == old(self)@.len(),
    {
        let prev = self.count();
        self.ids.clear();
        proof {
            assert(self.ids@.to_set() =~= Set::<u128>::empty());
        }
        prev
    }
}

} // verus!
