//! Mount state of widgets and the lifecycle events waiting to be delivered.
use vstd::prelude::*;
use crate::node::NodeId;

verus! {

#[derive(Clone, Copy, Debug, PartialEq, Eq, Structural)]
pub enum LifecycleEvent {
    Mount { node_id: NodeId },
    Unmount { node_id: NodeId },
    Update { node_id: NodeId },
}

/// The mounted nodes (each once) and the events not yet taken.
#[derive(Debug)]
pub struct LifecycleTracker {
    pub mounted: Vec<NodeId>,
    pub pending: Vec<LifecycleEvent>,
}

pub open spec fn ids_distinct(s: Seq<NodeId>) -> bool {
    forall|i: int, j: int| 0 <= i < s.len() && 0 <= j < s.len() && i != j ==> s[i] != s[j]
}

impl LifecycleTracker {
    pub open spec fn wf(&self) -> bool {
        ids_distinct(self.mounted@)
    }

    pub open spec fn spec_mounted(&self, id: NodeId) -> bool {
        self.mounted@.contains(id)
    }

    pub fn new() -> (r: LifecycleTracker)
        ensures
            r.wf(),
            r.mounted@.len() == 0,
            r.pending@.len() == 0,
    {
        LifecycleTracker { mounted: Vec::new(), pending: Vec::new() }
    }

    fn position(&self, id: NodeId) -> (r: Option<usize>)
        ensures
            r is Some ==> r->Some_0 < self.mounted@.len() && self.mounted@[r->Some_0 as int] == id,
            r is None ==> !self.mounted@.contains(id),
    {
        let mut i: usize = 0;
        while i < self.mounted.len()
            invariant
                i <= self.mounted@.len(),
                forall|j: int| 0 <= j < i ==> self.mounted@[j] != id,
            decreases self.mounted@.len() - i,
        {
            if self.mounted[i] == id {
                return Some(i);
            }
            i = i + 1;
        }
        None
    }

    /// Mark `id` mounted; queues a mount event unless it already was.
    pub fn on_mount(&mut self, id: NodeId)
        requires
            old(self).wf(),
        ensures
            final(self).wf(),
            final(self).spec_mounted(id),
            old(self).spec_mounted(id) ==> *final(self) == *old(self),
            !old(self).spec_mounted(id) ==> final(self).mounted@ == old(self).mounted@.push(id)
                && final(self).pending@ == old(self).pending@.push(
                LifecycleEvent::Mount { node_id: id },
            ),
    {
        if self.position(id).is_none() {
            self.mounted.push(id);
            self.pending.push(LifecycleEvent::Mount { node_id: id });
            proof {
                assert(self.mounted@[self.mounted@.len() - 1] == id);
            }
        }
    }

    /// Mark `id` unmounted; queues an unmount event if it was mounted.
    pub fn on_unmount(&mut self, id: NodeId)
        requires
            old(self).wf(),
        ensures
            final(self).wf(),
            !final(self).spec_mounted(id),
            forall|n: NodeId| n != id ==> (final(self).spec_mounted(n) == old(self).spec_mounted(n)),
            !old(self).spec_mounted(id) ==> final(self).pending@ == old(self).pending@,
            old(self).spec_mounted(id) ==> final(self).pending@ == old(self).pending@.push(
                LifecycleEvent::Unmount { node_id: id },
            ),
    {
        match self.position(id) {
            Some(p) => {
                let ghost before = self.mounted@;
                self.mounted.remove(p);
                proof {
                    assert(self.mounted@ == before.remove(p as int));
                    assert forall|n: NodeId| n != id implies (self.mounted@.contains(n) == before.contains(n)) by {
                        if before.contains(n) {
                            let k = choose|k: int| 0 <= k < before.len() && before[k] == n;
                            if k < p {
                                assert(self.mounted@[k] == n);
                            } else {
                                assert(self.mounted@[k - 1] == n);
                            }
                        }
                    }
                    if self.mounted@.contains(id) {
                        let k = choose|k: int| 0 <= k < self.mounted@.len() && self.mounted@[k] == id;
                        if k < p {
                            assert(before[k] == id);
                        } else {
                            assert(before[k + 1] == id);
                        }
                    }
                }
                self.pending.push(LifecycleEvent::Unmount { node_id: id });
            },
            None => {},
        }
    }

    /// Queue an update event if `id` is mounted.
    pub fn on_update(&mut self, id: NodeId)
        ensures
            final(self).mounted == old(self).mounted,
            !old(self).spec_mounted(id) ==> final(self).pending@ == old(self).pending@,
            old(self).spec_mounted(id) ==> final(self).pending@ == old(self).pending@.push(
                LifecycleEvent::Update { node_id: id },
            ),
    {
        if self.position(id).is_some() {
            self.pending.push(LifecycleEvent::Update { node_id: id });
        }
    }

    pub fn is_mounted(&self, id: NodeId) -> (r: bool)
        ensures
            r == self.spec_mounted(id),
    {
        self.position(id).is_some()
    }

    /// The mounted nodes, each once.
    pub fn mounted_nodes(&self) -> (r: Vec<NodeId>)
        ensures
            r@ == self.mounted@,
    {
        let mut out: Vec<NodeId> = Vec::new();
        let mut i: usize = 0;
        while i < self.mounted.len()
            invariant
                i <= self.mounted@.len(),
                out@ == self.mounted@.subrange(0, i as int),
            decreases self.mounted@.len() - i,
        {
            out.push(self.mounted[i]);
            proof {
                assert(out@ =~= self.mounted@.subrange(0, i + 1));
            }
            i = i + 1;
        }
        proof {
            assert(out@ =~= self.mounted@);
        }
        out
    }

    pub fn mounted_count(&self) -> (r: usize)
        ensures
            r == self.mounted@.len(),
    {
        self.mounted.len()
    }

    /// Take the queued events, oldest first, leaving none.
    pub fn pending_events(&mut self) -> (r: Vec<LifecycleEvent>)
        ensures
            r@ == old(self).pending@,
            final(self).pending@.len() == 0,
            final(self).mounted == old(self).mounted,
    {
        let mut taken: Vec<LifecycleEvent> = Vec::new();
        std::mem::swap(&mut taken, &mut self.pending);
        taken
    }

    pub fn has_pending(&self) -> (r: bool)
        ensures
            r == (self.pending@.len() > 0),
    {
        self.pending.len() > 0
    }

    /// Forget all mounts and events.
    pub fn clear(&mut self)
        ensures
            final(self).wf(),
            final(self).mounted@.len() == 0,
            final(self).pending@.len() == 0,
    {
        self.mounted.clear();
        self.pending.clear();
    }
}

impl Default for LifecycleTracker {
    fn default() -> (r: LifecycleTracker)
        ensures
            r.wf(),
            r.mounted@.len() == 0,
            r.pending@.len() == 0,
    {
        LifecycleTracker::new()
    }
}

} // verus!
