//! Bounded least-recently-used cache of named handles.
//!
//! Opening a namespace handle is expensive, so the ordered-kv backend
//! keeps a fixed number of open handles, most recently used first, and
//! evicts the least recently used one when a new handle needs room.
use vstd::prelude::*;

verus! {

/// Two parallel columns — names and values — ordered from most to
/// least recently used, holding at most `cap` entries.
pub struct LruCache<V> {
    pub names: Vec<String>,
    pub vals: Vec<V>,
    pub cap: usize,
}

impl<V> LruCache<V> {
    /// Shape invariant: parallel columns, bounded, no name twice.
    pub open spec fn wf(&self) -> bool {
        &&& self.names@.len() == self.vals@.len()
        &&& self.names@.len() <= self.cap
        &&& self.cap >= 1
        &&& forall|i: int, j: int|
            0 <= i < j < self.names@.len() ==> self.names@[i]@ != self.names@[j]@
    }

    /// Whether some entry carries this name.
    pub open spec fn spec_contains(&self, name: Seq<char>) -> bool {
        exists|i: int| 0 <= i < self.names@.len() && self.names@[i]@ == name
    }

    /// An empty cache with room for `cap` entries.
    pub fn new(cap: usize) -> (r: LruCache<V>)
        requires
            cap >= 1,
        ensures
            r.wf(),
            r.names@.len() == 0,
            r.cap == cap,
    {
        LruCache { names: Vec::new(), vals: Vec::new(), cap }
    }

    /// Position of the entry with this name, if any; no reordering.
    pub fn position(&self, name: &str) -> (r: Option<usize>)
        ensures
            r matches Some(i) ==> i < self.names@.len() && self.names@[i as int]@ == name@,
            r is None ==> !self.spec_contains(name@),
    {
        let owned = name.to_owned();
        let n = self.names.len();
        let mut i: usize = 0;
        while i < n
            invariant
                n == self.names@.len(),
                i <= n,
                owned@ == name@,
                forall|j: int| 0 <= j < i ==> self.names@[j]@ != name@,
            decreases n - i,
        {
            if self.names[i] == owned {
                return Some(i);
            }
            i += 1;
        }
        None
    }

    /// Move entry `i` to the front, keeping every pair together.
    pub fn promote(&mut self, i: usize)
        requires
            old(self).wf(),
            i < old(self).names@.len(),
        ensures
            final(self).wf(),
            final(self).cap == old(self).cap,
            final(self).names@.len() == old(self).names@.len(),
            final(self).names@[0] == old(self).names@[i as int],
            final(self).vals@[0] == old(self).vals@[i as int],
            forall|j: int|
                1 <= j <= i ==> (#[trigger] final(self).names@[j]) == old(self).names@[j - 1],
            forall|j: int|
                1 <= j <= i ==> (#[trigger] final(self).vals@[j]) == old(self).vals@[j - 1],
            forall|j: int|
                i < j < final(self).names@.len() ==> (#[trigger] final(self).names@[j]) == old(
                    self,
                ).names@[j],
            forall|j: int|
                i < j < final(self).names@.len() ==> (#[trigger] final(self).vals@[j]) == old(
                    self,
                ).vals@[j],
    {
        let name = self.names.remove(i);
        self.names.insert(0, name);
        let v = self.vals.remove(i);
        self.vals.insert(0, v);
        proof {
            let pre = old(self);
            assert forall|j: int| 0 <= j < self.names@.len() implies self.names@[j] == (if j == 0 {
                pre.names@[i as int]
            } else if j <= i {
                pre.names@[j - 1]
            } else {
                pre.names@[j]
            }) by {
                assert(self.names@ == pre.names@.remove(i as int).insert(
                    0,
                    pre.names@[i as int],
                ));
            }
            assert forall|j: int| 0 <= j < self.vals@.len() implies self.vals@[j] == (if j == 0 {
                pre.vals@[i as int]
            } else if j <= i {
                pre.vals@[j - 1]
            } else {
                pre.vals@[j]
            }) by {
                assert(self.vals@ == pre.vals@.remove(i as int).insert(0, pre.vals@[i as int]));
            }
        }
    }

    /// Put a fresh entry at the front; a full cache hands back the
    /// least recently used value to make room.
    pub fn insert_front(&mut self, name: String, v: V) -> (evicted: Option<V>)
        requires
            old(self).wf(),
            !old(self).spec_contains(name@),
        ensures
            final(self).wf(),
            final(self).cap == old(self).cap,
            final(self).names@[0]@ == name@,
            final(self).vals@[0] == v,
            forall|j: int|
                1 <= j < final(self).names@.len() ==> (#[trigger] final(self).names@[j]) == old(
                    self,
                ).names@[j - 1],
            forall|j: int|
                1 <= j < final(self).names@.len() ==> (#[trigger] final(self).vals@[j]) == old(
                    self,
                ).vals@[j - 1],
            ({
                if old(self).names@.len() < old(self).cap {
                    &&& evicted is None
                    &&& final(self).names@.len() == old(self).names@.len() + 1
                } else {
                    &&& evicted == Some(old(self).vals@.last())
                    &&& final(self).names@.len() == old(self).cap
                }
            }),
    {
        let mut ev: Option<V> = None;
        if self.names.len() == self.cap {
            let _dropped_name = self.names.pop();
            ev = self.vals.pop();
        }
        self.names.insert(0, name);
        self.vals.insert(0, v);
        ev
    }
}

} // verus!
