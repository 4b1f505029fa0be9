use gilt_tui::focus::FocusChain;
use gilt_tui::node::{NodeData, NodeId};

/// A small tree whose walk feeds the focus chain.
struct Dom {
    nodes: Vec<(NodeData, Vec<usize>)>,
    removed: Vec<bool>,
}

impl Dom {
    fn new() -> Self {
        Dom { nodes: Vec::new(), removed: Vec::new() }
    }

    fn insert(&mut self, data: NodeData) -> NodeId {
        self.nodes.push((data, Vec::new()));
        self.removed.push(false);
        NodeId(self.nodes.len() as u64)
    }

    fn insert_child(&mut self, parent: NodeId, data: NodeData) -> NodeId {
        let id = self.insert(data);
        self.nodes[parent.0 as usize - 1].1.push(id.0 as usize - 1);
        id
    }

    fn get_mut(&mut self, id: NodeId) -> Option<&mut NodeData> {
        self.nodes.get_mut(id.0 as usize - 1).map(|n| &mut n.0)
    }

    fn remove(&mut self, id: NodeId) -> Option<NodeData> {
        self.removed[id.0 as usize - 1] = true;
        Some(self.nodes[id.0 as usize - 1].0.clone())
    }

    /// Depth-first from the first node, children in order.
    fn walk(&self) -> Vec<(NodeId, NodeData)> {
        let mut out = Vec::new();
        if self.nodes.is_empty() {
            return out;
        }
        let mut stack = vec![0usize];
        while let Some(i) = stack.pop() {
            if self.removed[i] {
                continue;
            }
            out.push((NodeId(i as u64 + 1), self.nodes[i].0.clone()));
            for &c in self.nodes[i].1.iter().rev() {
                stack.push(c);
            }
        }
        out
    }
}

#[test]
fn new_chain_is_empty() {
    let chain = FocusChain::new();
    assert!(chain.is_empty());
    assert_eq!(chain.len(), 0);
    assert!(chain.current_node().is_none());
}

#[test]
fn default_chain_is_empty() {
    let chain = FocusChain::default();
    assert!(chain.is_empty());
}

#[test]
fn focus_next_empty_chain() {
    let mut chain = FocusChain::new();
    assert!(chain.focus_next().is_none());
}

#[test]
fn focus_previous_empty_chain() {
    let mut chain = FocusChain::new();
    assert!(chain.focus_previous().is_none());
}

#[test]
fn rebuild_from_dom() {
    let mut dom = Dom::new();
    let root = dom.insert(NodeData::new("Root"));
    let _a = dom.insert_child(root, NodeData::new("A").focusable(true));
    let _b = dom.insert_child(root, NodeData::new("B").focusable(true));
    let _c = dom.insert_child(root, NodeData::new("C")); // not focusable

    let mut chain = FocusChain::new();
    chain.rebuild(&dom.walk());

    assert_eq!(chain.len(), 2);
    assert!(chain.current_node().is_none()); // no focus yet
}

#[test]
fn rebuild_skips_invisible_nodes() {
    let mut dom = Dom::new();
    let root = dom.insert(NodeData::new("Root"));
    let _a = dom.insert_child(root, NodeData::new("A").focusable(true));
    let b_id = dom.insert_child(root, NodeData::new("B").focusable(true));

    // Make B invisible.
    dom.get_mut(b_id).unwrap().visible = false;

    let mut chain = FocusChain::new();
    chain.rebuild(&dom.walk());

    assert_eq!(chain.len(), 1);
}

#[test]
fn rebuild_skips_disabled_nodes() {
    let mut dom = Dom::new();
    let root = dom.insert(NodeData::new("Root"));
    let _a = dom.insert_child(root, NodeData::new("A").focusable(true));
    let _b = dom.insert_child(
        root,
        NodeData::new("B").focusable(true).disabled(true),
    );

    let mut chain = FocusChain::new();
    chain.rebuild(&dom.walk());

    assert_eq!(chain.len(), 1);
}

#[test]
fn focus_next_cycles() {
    let mut dom = Dom::new();
    let root = dom.insert(NodeData::new("Root"));
    let a = dom.insert_child(root, NodeData::new("A").focusable(true));
    let b = dom.insert_child(root, NodeData::new("B").focusable(true));
    let c = dom.insert_child(root, NodeData::new("C").focusable(true));

    let mut chain = FocusChain::new();
    chain.rebuild(&dom.walk());

    // First call: focus first node.
    assert_eq!(chain.focus_next(), Some(a));
    assert_eq!(chain.current_node(), Some(a));

    // Second: focus second.
    assert_eq!(chain.focus_next(), Some(b));
    assert_eq!(chain.current_node(), Some(b));

    // Third: focus third.
    assert_eq!(chain.focus_next(), Some(c));

    // Fourth: wrap around.
    assert_eq!(chain.focus_next(), Some(a));
}

#[test]
fn focus_previous_cycles() {
    let mut dom = Dom::new();
    let root = dom.insert(NodeData::new("Root"));
    let a = dom.insert_child(root, NodeData::new("A").focusable(true));
    let b = dom.insert_child(root, NodeData::new("B").focusable(true));
    let c = dom.insert_child(root, NodeData::new("C").focusable(true));

    let mut chain = FocusChain::new();
    chain.rebuild(&dom.walk());

    // No current focus, previous goes to last.
    assert_eq!(chain.focus_previous(), Some(c));

    // Previous from last goes to middle.
    assert_eq!(chain.focus_previous(), Some(b));

    // Previous from middle goes to first.
    assert_eq!(chain.focus_previous(), Some(a));

    // Previous from first wraps to last.
    assert_eq!(chain.focus_previous(), Some(c));
}

#[test]
fn focus_node_by_id() {
    let mut dom = Dom::new();
    let root = dom.insert(NodeData::new("Root"));
    let _a = dom.insert_child(root, NodeData::new("A").focusable(true));
    let b = dom.insert_child(root, NodeData::new("B").focusable(true));

    let mut chain = FocusChain::new();
    chain.rebuild(&dom.walk());

    assert!(chain.focus_node(b));
    assert_eq!(chain.current_node(), Some(b));
}

#[test]
fn focus_node_not_in_chain() {
    let mut dom = Dom::new();
    let root = dom.insert(NodeData::new("Root"));
    let c = dom.insert_child(root, NodeData::new("C")); // not focusable

    let mut chain = FocusChain::new();
    chain.rebuild(&dom.walk());

    assert!(!chain.focus_node(c));
    assert!(chain.current_node().is_none());
}

#[test]
fn clear_focus() {
    let mut dom = Dom::new();
    let root = dom.insert(NodeData::new("Root"));
    let _a = dom.insert_child(root, NodeData::new("A").focusable(true));

    let mut chain = FocusChain::new();
    chain.rebuild(&dom.walk());
    chain.focus_next();
    assert!(chain.current_node().is_some());

    chain.clear();
    assert!(chain.current_node().is_none());
}

#[test]
fn rebuild_preserves_focus() {
    let mut dom = Dom::new();
    let root = dom.insert(NodeData::new("Root"));
    let _a = dom.insert_child(root, NodeData::new("A").focusable(true));
    let b = dom.insert_child(root, NodeData::new("B").focusable(true));

    let mut chain = FocusChain::new();
    chain.rebuild(&dom.walk());
    chain.focus_node(b);
    assert_eq!(chain.current_node(), Some(b));

    // Add a new node and rebuild.
    let _c = dom.insert_child(root, NodeData::new("C").focusable(true));
    chain.rebuild(&dom.walk());

    // Focus should still be on b.
    assert_eq!(chain.current_node(), Some(b));
}

#[test]
fn rebuild_clears_focus_if_removed() {
    let mut dom = Dom::new();
    let root = dom.insert(NodeData::new("Root"));
    let _a = dom.insert_child(root, NodeData::new("A").focusable(true));
    let b = dom.insert_child(root, NodeData::new("B").focusable(true));

    let mut chain = FocusChain::new();
    chain.rebuild(&dom.walk());
    chain.focus_node(b);
    assert_eq!(chain.current_node(), Some(b));

    // Remove b from DOM.
    dom.remove(b);
    chain.rebuild(&dom.walk());

    // Focus should be cleared (b no longer exists).
    assert!(chain.current_node().is_none());
}

