//! Widget tree nodes as the style engine reads them.
use vstd::prelude::*;
use crate::text::{chars_of, string_from_chars};

verus! {

/// Identity of a node in a widget tree.
#[derive(Clone, Copy, Debug, PartialEq, Eq, Hash, PartialOrd, Ord, Structural)]
pub struct NodeId(pub u64);

/// What the styling and focus logic read from a node.
#[derive(Clone, Debug)]
pub struct NodeData {
    pub widget_type: String,
    pub id: Option<String>,
    pub classes: Vec<String>,
    pub visible: bool,
    pub focusable: bool,
    pub disabled: bool,
}

/// Whether `name` is among `classes`.
pub open spec fn has_class_name(classes: Seq<String>, name: Seq<char>) -> bool {
    exists|i: int| 0 <= i < classes.len() && (#[trigger] classes[i])@ == name
}

/// No class name occurs twice.
pub open spec fn distinct_classes(classes: Seq<String>) -> bool {
    forall|i: int, j: int|
        0 <= i < classes.len() && 0 <= j < classes.len() && i != j ==> (#[trigger] classes[i])@
            != (#[trigger] classes[j])@
}

fn to_string(s: &str) -> (r: String)
    ensures
        r@ == s@,
{
    string_from_chars(chars_of(s))
}

impl NodeData {
    pub open spec fn wf(&self) -> bool {
        distinct_classes(self.classes@)
    }

    /// A visible, unfocusable, enabled node of the given type, with no id and
    /// no classes.
    pub fn new(widget_type: &str) -> (r: NodeData)
        ensures
            r.widget_type@ == widget_type@,
            r.id is None,
            r.classes@.len() == 0,
            r.visible,
            !r.focusable,
            !r.disabled,
            r.wf(),
    {
        NodeData {
            widget_type: to_string(widget_type),
            id: None,
            classes: Vec::new(),
            visible: true,
            focusable: false,
            disabled: false,
        }
    }

    pub fn with_id(self, id: &str) -> (r: NodeData)
        ensures
            r.id is Some && r.id->Some_0@ == id@,
            r.widget_type == self.widget_type,
            r.classes == self.classes,
            r.visible == self.visible,
            r.focusable == self.focusable,
            r.disabled == self.disabled,
    {
        let mut s = self;
        s.id = Some(to_string(id));
        s
    }

    /// Adds `class` unless it is already there.
    pub fn with_class(self, class: &str) -> (r: NodeData)
        requires
            self.wf(),
        ensures
            r.wf(),
            has_class_name(self.classes@, class@) ==> r.classes@ == self.classes@,
            !has_class_name(self.classes@, class@) ==> r.classes@.len() == self.classes@.len() + 1
                && r.classes@.drop_last() == self.classes@ && r.classes@.last()@ == class@,
            r.widget_type == self.widget_type,
            r.id == self.id,
            r.visible == self.visible,
            r.focusable == self.focusable,
            r.disabled == self.disabled,
    {
        let mut s = self;
        s.add_class(class);
        s
    }

    /// Adds each of `classes` in turn, skipping those already there.
    pub fn with_classes(self, classes: &[&str]) -> (r: NodeData)
        requires
            self.wf(),
        ensures
            r.wf(),
            forall|i: int| 0 <= i < self.classes@.len() ==> r.classes@[i] == self.classes@[i],
            forall|i: int|
                0 <= i < classes@.len() ==> has_class_name(r.classes@, (#[trigger] classes@[i])@),
            forall|i: int|
                0 <= i < r.classes@.len() ==> has_class_name(self.classes@, (#[trigger] r.classes@[i])@)
                    || exists|j: int| 0 <= j < classes@.len() && r.classes@[i]@ == classes@[j]@,
            r.widget_type == self.widget_type,
            r.id == self.id,
    {
        let mut s = self;
        let mut k: usize = 0;
        while k < classes.len()
            invariant
                k <= classes@.len(),
                s.wf(),
                s.widget_type == self.widget_type,
                s.id == self.id,
                s.classes@.len() >= self.classes@.len(),
                forall|i: int| 0 <= i < self.classes@.len() ==> s.classes@[i] == self.classes@[i],
                forall|i: int| 0 <= i < k ==> has_class_name(s.classes@, (#[trigger] classes@[i])@),
                forall|i: int|
                    0 <= i < s.classes@.len() ==> has_class_name(self.classes@, (#[trigger] s.classes@[i])@)
                        || exists|j: int| 0 <= j < classes@.len() && s.classes@[i]@ == classes@[j]@,
            decreases classes@.len() - k,
        {
            let ghost before = s.classes@;
            s.add_class(classes[k]);
            proof {
                assert forall|i: int| 0 <= i < k + 1 implies has_class_name(
                    s.classes@,
                    (#[trigger] classes@[i])@,
                ) by {
                    if i < k {
                        let w = choose|w: int| 0 <= w < before.len() && (#[trigger] before[w])@ == classes@[i]@;
                        assert(s.classes@[w] == before[w]);
                    }
                }
                assert forall|i: int| 0 <= i < s.classes@.len() implies has_class_name(
                    self.classes@,
                    (#[trigger] s.classes@[i])@,
                ) || exists|j: int| 0 <= j < classes@.len() && s.classes@[i]@ == classes@[j]@ by {
                    if i < before.len() {
                        assert(s.classes@[i] == before[i]);
                    } else {
                        assert(s.classes@[i]@ == classes@[k as int]@);
                    }
                }
            }
            k = k + 1;
        }
        s
    }

    pub fn focusable(self, focusable: bool) -> (r: NodeData)
        ensures
            r.focusable == focusable,
            r.widget_type == self.widget_type,
            r.id == self.id,
            r.classes == self.classes,
            r.visible == self.visible,
            r.disabled == self.disabled,
    {
        let mut s = self;
        s.focusable = focusable;
        s
    }

    pub fn disabled(self, disabled: bool) -> (r: NodeData)
        ensures
            r.disabled == disabled,
            r.widget_type == self.widget_type,
            r.id == self.id,
            r.classes == self.classes,
            r.visible == self.visible,
            r.focusable == self.focusable,
    {
        let mut s = self;
        s.disabled = disabled;
        s
    }

    /// Whether the node carries `class`.
    pub fn has_class(&self, class: &str) -> (r: bool)
        ensures
            r == has_class_name(self.classes@, class@),
    {
        let name = to_string(class);
        let mut i: usize = 0;
        while i < self.classes.len()
            invariant
                i <= self.classes@.len(),
                name@ == class@,
                forall|j: int| 0 <= j < i ==> (#[trigger] self.classes@[j])@ != class@,
            decreases self.classes@.len() - i,
        {
            if self.classes[i] == name {
                return true;
            }
            i = i + 1;
        }
        false
    }

    /// Adds `class` at the end unless it is already there.
    pub fn add_class(&mut self, class: &str)
        requires
            old(self).wf(),
        ensures
            final(self).wf(),
            has_class_name(old(self).classes@, class@) ==> final(self).classes@ == old(
                self,
            ).classes@,
            !has_class_name(old(self).classes@, class@) ==> final(self).classes@.len() == old(
                self,
            ).classes@.len() + 1 && final(self).classes@.drop_last() == old(self).classes@
                && final(self).classes@.last()@ == class@,
            final(self).widget_type == old(self).widget_type,
            final(self).id == old(self).id,
            final(self).visible == old(self).visible,
            final(self).focusable == old(self).focusable,
            final(self).disabled == old(self).disabled,
    {
        if !self.has_class(class) {
            let ghost before = self.classes@;
            self.classes.push(to_string(class));
            proof {
                assert(self.classes@.drop_last() =~= before);
            }
        }
    }

    /// Removes every occurrence of `class`, keeping the rest in order.
    pub fn remove_class(&mut self, class: &str)
        ensures
            !has_class_name(final(self).classes@, class@),
            forall|i: int|
                0 <= i < final(self).classes@.len() ==> has_class_name(
                    old(self).classes@,
                    (#[trigger] final(self).classes@[i])@,
                ),
            forall|i: int|
                0 <= i < old(self).classes@.len() && (#[trigger] old(self).classes@[i])@ != class@
                    ==> has_class_name(final(self).classes@, old(self).classes@[i]@),
            old(self).wf() ==> final(self).wf(),
            final(self).widget_type == old(self).widget_type,
            final(self).id == old(self).id,
            final(self).visible == old(self).visible,
            final(self).focusable == old(self).focusable,
            final(self).disabled == old(self).disabled,
    {
        let name = to_string(class);
        let mut kept: Vec<String> = Vec::new();
        let mut i: usize = 0;
        while i < self.classes.len()
            invariant
                i <= self.classes@.len(),
                name@ == class@,
                !has_class_name(kept@, class@),
                forall|k: int|
                    0 <= k < kept@.len() ==> exists|j: int|
                        0 <= j < i && (#[trigger] kept@[k]) == self.classes@[j],
                forall|j: int|
                    0 <= j < i && (#[trigger] self.classes@[j])@ != class@ ==> has_class_name(
                        kept@,
                        self.classes@[j]@,
                    ),
                distinct_classes(self.classes@) ==> distinct_classes(kept@),
            decreases self.classes@.len() - i,
        {
            let ghost before = kept@;
            if !(self.classes[i] == name) {
                let c = self.classes[i].clone();
                proof {
                    if distinct_classes(self.classes@) {
                        assert forall|k: int| 0 <= k < before.len() implies (#[trigger] before[k])@
                            != c@ by {
                            let j = choose|j: int| 0 <= j < i && before[k] == self.classes@[j];
                        }
                    }
                }
                kept.push(c);
                proof {
                    assert forall|k: int| 0 <= k < kept@.len() implies exists|j: int|
                        0 <= j < i + 1 && (#[trigger] kept@[k]) == self.classes@[j] by {
                        if k < before.len() {
                            assert(kept@[k] == before[k]);
                        } else {
                            assert(kept@[k] == self.classes@[i as int]);
                        }
                    }
                    assert forall|j: int|
                        0 <= j < i + 1 && (#[trigger] self.classes@[j])@ != class@ implies has_class_name(
                        kept@,
                        self.classes@[j]@,
                    ) by {
                        if j < i {
                            let w = choose|w: int| 0 <= w < before.len() && (#[trigger] before[w])@ == self.classes@[j]@;
                            assert(kept@[w] == before[w]);
                        } else {
                            assert(kept@[before.len() as int] == c);
                        }
                    }
                    if has_class_name(kept@, class@) {
                        let w = choose|w: int| 0 <= w < kept@.len() && (#[trigger] kept@[w])@ == class@;
                        if w < before.len() {
                            assert(kept@[w] == before[w]);
                        }
                    }
                    if distinct_classes(self.classes@) {
                        assert forall|a: int, b: int|
                            0 <= a < kept@.len() && 0 <= b < kept@.len() && a != b implies (#[trigger] kept@[a])@
                            != (#[trigger] kept@[b])@ by {
                            if a < before.len() && b < before.len() {
                                assert(kept@[a] == before[a] && kept@[b] == before[b]);
                            } else if a < before.len() {
                                assert(kept@[a] == before[a]);
                            } else {
                                assert(kept@[b] == before[b]);
                            }
                        }
                    }
                }
            }
            i = i + 1;
        }
        self.classes = kept;
    }

    /// Removes `class` when present, adds it otherwise.
    pub fn toggle_class(&mut self, class: &str)
        requires
            old(self).wf(),
        ensures
            final(self).wf(),
            has_class_name(old(self).classes@, class@) <==> !has_class_name(final(self).classes@, class@),
            forall|n: Seq<char>|
                n != class@ ==> (#[trigger] has_class_name(final(self).classes@, n) == has_class_name(
                    old(self).classes@,
                    n,
                )),
            final(self).widget_type == old(self).widget_type,
            final(self).id == old(self).id,
    {
        let ghost before = self.classes@;
        if self.has_class(class) {
            self.remove_class(class);
            proof {
                assert forall|n: Seq<char>| n != class@ implies #[trigger] has_class_name(
                    self.classes@,
                    n,
                ) == has_class_name(before, n) by {
                    if has_class_name(before, n) {
                        let k = choose|k: int| 0 <= k < before.len() && (#[trigger] before[k])@ == n;
                        assert(before[k]@ != class@);
                    }
                    if has_class_name(self.classes@, n) {
                        let k = choose|k: int| 0 <= k < self.classes@.len() && (#[trigger] self.classes@[k])@ == n;
                        assert(has_class_name(before, self.classes@[k]@));
                    }
                }
            }
        } else {
            self.add_class(class);
            proof {
                assert(self.classes@[self.classes@.len() - 1]@ == class@);
                assert(self.classes@.drop_last() == before);
                assert forall|n: Seq<char>| n != class@ implies #[trigger] has_class_name(
                    self.classes@,
                    n,
                ) == has_class_name(before, n) by {
                    if has_class_name(before, n) {
                        let k = choose|k: int| 0 <= k < before.len() && (#[trigger] before[k])@ == n;
                        assert(self.classes@[k] == before[k]);
                    }
                    if has_class_name(self.classes@, n) {
                        let k = choose|k: int| 0 <= k < self.classes@.len() && (#[trigger] self.classes@[k])@ == n;
                        assert(k < before.len());
                        assert(self.classes@[k] == before[k]);
                    }
                }
            }
        }
    }
}

} // verus!
