//! Keyboard focus order over the focusable nodes of a screen.
use vstd::prelude::*;
use crate::node::{NodeData, NodeId};

verus! {

/// Focusable nodes in tree order, and which of them has focus.
#[derive(Debug)]
pub struct FocusChain {
    pub nodes: Vec<NodeId>,
    pub current: Option<usize>,
}

/// Whether a node can take focus: focusable, visible and enabled.
pub open spec fn can_focus(d: NodeData) -> bool {
    d.focusable && d.visible && !d.disabled
}

/// The ids of the nodes of `walk[0..n]` that can take focus, in order.
pub open spec fn focus_order(walk: Seq<(NodeId, NodeData)>, n: int) -> Seq<NodeId>
    decreases n,
{
    if n <= 0 || n > walk.len() {
        Seq::empty()
    } else if can_focus(walk[n - 1].1) {
        focus_order(walk, n - 1).push(walk[n - 1].0)
    } else {
        focus_order(walk, n - 1)
    }
}

impl FocusChain {
    pub open spec fn wf(&self) -> bool {
        self.current is Some ==> self.current->Some_0 < self.nodes@.len()
    }

    pub open spec fn spec_current(&self) -> Option<NodeId> {
        match self.current {
            Some(i) => if i < self.nodes@.len() {
                Some(self.nodes@[i as int])
            } else {
                None
            },
            None => None,
        }
    }

    pub fn new() -> (r: FocusChain)
        ensures
            r.wf(),
            r.nodes@.len() == 0,
            r.current is None,
    {
        FocusChain { nodes: Vec::new(), current: None }
    }

    fn position(&self, id: NodeId) -> (r: Option<usize>)
        ensures
            r is Some ==> r->Some_0 < self.nodes@.len() && self.nodes@[r->Some_0 as int] == id
                && forall|j: int| 0 <= j < r->Some_0 ==> self.nodes@[j] != id,
            r is None ==> !self.nodes@.contains(id),
    {
        let mut i: usize = 0;
        while i < self.nodes.len()
            invariant
                i <= self.nodes@.len(),
                forall|j: int| 0 <= j < i ==> self.nodes@[j] != id,
            decreases self.nodes@.len() - i,
        {
            if self.nodes[i] == id {
                return Some(i);
            }
            i = i + 1;
        }
        None
    }

    /// Rebuild the order from a depth-first walk of the tree, keeping focus
    /// on the previously focused node when it can still take focus.
    pub fn rebuild(&mut self, walk: &[(NodeId, NodeData)])
        requires
            old(self).wf(),
        ensures
            final(self).wf(),
            final(self).nodes@ == focus_order(walk@, walk@.len() as int),
            match old(self).spec_current() {
                Some(id) => if final(self).nodes@.contains(id) {
                    final(self).spec_current() == Some(id)
                } else {
                    final(self).current is None
                },
                None => final(self).current is None,
            },
    {
        let old_focused = self.current_node();
        let mut nodes: Vec<NodeId> = Vec::new();
        let mut i: usize = 0;
        while i < walk.len()
            invariant
                i <= walk@.len(),
                nodes@ == focus_order(walk@, i as int),
            decreases walk@.len() - i,
        {
            let d = &walk[i].1;
            if d.focusable && d.visible && !d.disabled {
                nodes.push(walk[i].0);
            }
            i = i + 1;
        }
        self.nodes = nodes;
        self.current = None;
        match old_focused {
            Some(id) => {
                match self.position(id) {
                    Some(p) => {
                        self.current = Some(p);
                    },
                    None => {},
                }
            },
            None => {},
        }
    }

    /// The focused node, if any.
    pub fn current_node(&self) -> (r: Option<NodeId>)
        ensures
            r == self.spec_current(),
    {
        match self.current {
            Some(i) => if i < self.nodes.len() {
                Some(self.nodes[i])
            } else {
                None
            },
            None => None,
        }
    }

    /// Move focus to the next node, wrapping to the first; the first node
    /// when nothing had focus.
    pub fn focus_next(&mut self) -> (r: Option<NodeId>)
        requires
            old(self).wf(),
        ensures
            final(self).wf(),
            final(self).nodes == old(self).nodes,
            old(self).nodes@.len() == 0 ==> r is None && final(self).current == old(self).current,
            old(self).nodes@.len() > 0 ==> final(self).current == Some(
                match old(self).current {
                    Some(i) => ((i + 1) % (old(self).nodes@.len() as int)) as usize,
                    None => 0usize,
                },
            ) && r == final(self).spec_current(),
    {
        let n = self.nodes.len();
        if n == 0 {
            return None;
        }
        let next = match self.current {
            Some(i) => (i + 1) % n,
            None => 0,
        };
        self.current = Some(next);
        Some(self.nodes[next])
    }

    /// Move focus to the previous node, wrapping to the last; the last node
    /// when nothing had focus.
    pub fn focus_previous(&mut self) -> (r: Option<NodeId>)
        requires
            old(self).wf(),
        ensures
            final(self).wf(),
            final(self).nodes == old(self).nodes,
            old(self).nodes@.len() == 0 ==> r is None && final(self).current == old(self).current,
            old(self).nodes@.len() > 0 ==> final(self).current == Some(
                match old(self).current {
                    Some(i) => if i == 0 {
                        (old(self).nodes@.len() - 1) as usize
                    } else {
                        (i - 1) as usize
                    },
                    None => (old(self).nodes@.len() - 1) as usize,
                },
            ) && r == final(self).spec_current(),
    {
        let n = self.nodes.len();
        if n == 0 {
            return None;
        }
        let prev = match self.current {
            Some(i) => if i == 0 {
                n - 1
            } else {
                i - 1
            },
            None => n - 1,
        };
        self.current = Some(prev);
        Some(self.nodes[prev])
    }

    /// Focus `id` if it is in the chain.
    pub fn focus_node(&mut self, id: NodeId) -> (r: bool)
        requires
            old(self).wf(),
        ensures
            final(self).wf(),
            final(self).nodes == old(self).nodes,
            r == old(self).nodes@.contains(id),
            r ==> final(self).spec_current() == Some(id),
            !r ==> final(self).current == old(self).current,
    {
        match self.position(id) {
            Some(p) => {
                self.current = Some(p);
                true
            },
            None => false,
        }
    }

    /// Drop focus.
    pub fn clear(&mut self)
        ensures
            final(self).nodes == old(self).nodes,
            final(self).current is None,
    {
        self.current = None;
    }

    pub fn len(&self) -> (r: usize)
        ensures
            r == self.nodes@.len(),
    {
        self.nodes.len()
    }

    pub fn is_empty(&self) -> (r: bool)
        ensures
            r == (self.nodes@.len() == 0),
    {
        self.nodes.len() == 0
    }
}

impl Default for FocusChain {
    fn default() -> (r: FocusChain)
        ensures
            r.wf(),
            r.nodes@.len() == 0,
            r.current is None,
    {
        FocusChain::new()
    }
}

} // verus!
