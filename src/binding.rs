//! Key bindings: which action a key with modifiers triggers.
use vstd::prelude::*;
use crate::input::{Key, KeyEvent, Modifiers};
use crate::text::{chars_of, string_from_chars};

verus! {

/// What a bound key does.
#[derive(Clone, Debug, PartialEq)]
pub enum BindingAction {
    Quit,
    FocusNext,
    FocusPrevious,
    /// An application-defined action, by name.
    Custom(String),
}

impl BindingAction {
    /// The action's name as it reads in debug output: `Quit`,
    /// `Custom("name")`, ...
    pub fn describe(&self) -> (r: String) {
        match self {
            BindingAction::Quit => string_from_chars(chars_of("Quit")),
            BindingAction::FocusNext => string_from_chars(chars_of("FocusNext")),
            BindingAction::FocusPrevious => string_from_chars(chars_of("FocusPrevious")),
            BindingAction::Custom(name) => {
                let mut v = chars_of("Custom(\"");
                let mut n = chars_of(name.as_str());
                v.append(&mut n);
                v.push('"');
                v.push(')');
                string_from_chars(v)
            },
        }
    }
}

/// One binding.
#[derive(Debug)]
pub struct KeyBinding {
    pub key: Key,
    pub modifiers: Modifiers,
    pub action: BindingAction,
}

/// Bindings with at most one per (key, modifiers) pair.
#[derive(Debug)]
pub struct KeyBindingRegistry {
    pub bindings: Vec<KeyBinding>,
}

/// The action bound to `(k, m)` among `bs`, if any.
pub open spec fn bound(bs: Seq<KeyBinding>, k: Key, m: Modifiers) -> Option<BindingAction>
    decreases bs.len(),
{
    if bs.len() == 0 {
        None
    } else if bs.last().key == k && bs.last().modifiers == m {
        Some(bs.last().action)
    } else {
        bound(bs.drop_last(), k, m)
    }
}

pub open spec fn keys_unique(bs: Seq<KeyBinding>) -> bool {
    forall|i: int, j: int|
        0 <= i < bs.len() && 0 <= j < bs.len() && i != j ==> !(bs[i].key == bs[j].key
            && bs[i].modifiers == bs[j].modifiers)
}

proof fn lemma_bound_at(bs: Seq<KeyBinding>, i: int)
    requires
        keys_unique(bs),
        0 <= i < bs.len(),
    ensures
        bound(bs, bs[i].key, bs[i].modifiers) == Some(bs[i].action),
    decreases bs.len(),
{
    if i < bs.len() - 1 {
        let p = bs.drop_last();
        assert(keys_unique(p)) by {
            assert forall|a: int, b: int|
                0 <= a < p.len() && 0 <= b < p.len() && a != b implies !(p[a].key == p[b].key
                && p[a].modifiers == p[b].modifiers) by {
                assert(p[a] == bs[a] && p[b] == bs[b]);
            }
        }
        assert(p[i] == bs[i]);
        lemma_bound_at(p, i);
    }
}

proof fn lemma_bound_none(bs: Seq<KeyBinding>, k: Key, m: Modifiers)
    requires
        forall|i: int| 0 <= i < bs.len() ==> !(bs[i].key == k && bs[i].modifiers == m),
    ensures
        bound(bs, k, m) is None,
    decreases bs.len(),
{
    if bs.len() > 0 {
        let p = bs.drop_last();
        assert forall|i: int| 0 <= i < p.len() implies !(p[i].key == k && p[i].modifiers == m) by {
            assert(p[i] == bs[i]);
        }
        lemma_bound_none(p, k, m);
    }
}

impl KeyBindingRegistry {
    pub open spec fn wf(&self) -> bool {
        keys_unique(self.bindings@)
    }

    pub open spec fn lookup(&self, k: Key, m: Modifiers) -> Option<BindingAction> {
        bound(self.bindings@, k, m)
    }

    pub fn new() -> (r: KeyBindingRegistry)
        ensures
            r.wf(),
            r.bindings@.len() == 0,
    {
        KeyBindingRegistry { bindings: Vec::new() }
    }

    /// Ctrl+C quits, Tab and BackTab move focus.
    pub fn with_defaults() -> (r: KeyBindingRegistry)
        ensures
            r.wf(),
            r.bindings@.len() == 3,
            r.lookup(Key::Char('c'), Modifiers(2)) == Some(BindingAction::Quit),
            r.lookup(Key::Tab, Modifiers(0)) == Some(BindingAction::FocusNext),
            r.lookup(Key::BackTab, Modifiers(0)) == Some(BindingAction::FocusPrevious),
    {
        let mut r = KeyBindingRegistry::new();
        r.bind(Key::Char('c'), Modifiers::ctrl(), BindingAction::Quit);
        r.bind(Key::Tab, Modifiers::none(), BindingAction::FocusNext);
        r.bind(Key::BackTab, Modifiers::none(), BindingAction::FocusPrevious);
        r
    }

    fn position(&self, key: Key, modifiers: Modifiers) -> (r: Option<usize>)
        ensures
            r is Some ==> r->Some_0 < self.bindings@.len() && self.bindings@[r->Some_0 as int].key
                == key && self.bindings@[r->Some_0 as int].modifiers == modifiers,
            r is None ==> forall|i: int|
                0 <= i < self.bindings@.len() ==> !(self.bindings@[i].key == key
                    && self.bindings@[i].modifiers == modifiers),
    {
        let mut i: usize = 0;
        while i < self.bindings.len()
            invariant
                i <= self.bindings@.len(),
                forall|j: int|
                    0 <= j < i ==> !(self.bindings@[j].key == key && self.bindings@[j].modifiers
                        == modifiers),
            decreases self.bindings@.len() - i,
        {
            if self.bindings[i].key == key && self.bindings[i].modifiers == modifiers {
                return Some(i);
            }
            i = i + 1;
        }
        None
    }

    /// Bind `(key, modifiers)` to `action`, replacing any earlier binding.
    pub fn bind(&mut self, key: Key, modifiers: Modifiers, action: BindingAction)
        requires
            old(self).wf(),
        ensures
            final(self).wf(),
            final(self).lookup(key, modifiers) == Some(action),
            forall|k: Key, m: Modifiers|
                !(k == key && m == modifiers) ==> #[trigger] final(self).lookup(k, m) == old(
                    self,
                ).lookup(k, m),
            old(self).lookup(key, modifiers) is None ==> final(self).bindings@.len() == old(
                self,
            ).bindings@.len() + 1,
            old(self).lookup(key, modifiers) is Some ==> final(self).bindings@.len() == old(
                self,
            ).bindings@.len(),
    {
        let ghost before = self.bindings@;
        match self.position(key, modifiers) {
            Some(p) => {
                proof {
                    lemma_bound_at(before, p as int);
                }
                self.bindings.set(p, KeyBinding { key, modifiers, action });
                proof {
                    let after = self.bindings@;
                    assert(keys_unique(after)) by {
                        assert forall|a: int, b: int|
                            0 <= a < after.len() && 0 <= b < after.len() && a != b implies !(
                            after[a].key == after[b].key && after[a].modifiers == after[b].modifiers) by {
                            assert(before[p as int].key == key && before[p as int].modifiers == modifiers);
                        }
                    }
                    lemma_bound_at(after, p as int);
                    assert forall|k: Key, m: Modifiers|
                        !(k == key && m == modifiers) implies #[trigger] bound(after, k, m) == bound(before, k, m) by {
                        lemma_bound_same(before, after, p as int, k, m);
                    }
                }
            },
            None => {
                proof {
                    lemma_bound_none(before, key, modifiers);
                }
                self.bindings.push(KeyBinding { key, modifiers, action });
                proof {
                    let after = self.bindings@;
                    assert(after.drop_last() =~= before);
                    assert(keys_unique(after)) by {
                        assert forall|a: int, b: int|
                            0 <= a < after.len() && 0 <= b < after.len() && a != b implies !(
                            after[a].key == after[b].key && after[a].modifiers == after[b].modifiers) by {
                            if a < before.len() && b < before.len() {
                                assert(after[a] == before[a] && after[b] == before[b]);
                            } else if a < before.len() {
                                assert(after[a] == before[a]);
                            } else {
                                assert(after[b] == before[b]);
                            }
                        }
                    }
                }
            },
        }
    }

    /// Remove the binding of `(key, modifiers)` and return its action.
    pub fn unbind(&mut self, key: Key, modifiers: Modifiers) -> (r: Option<BindingAction>)
        requires
            old(self).wf(),
        ensures
            final(self).wf(),
            r == old(self).lookup(key, modifiers),
            final(self).lookup(key, modifiers) is None,
            forall|k: Key, m: Modifiers|
                !(k == key && m == modifiers) ==> #[trigger] final(self).lookup(k, m) == old(
                    self,
                ).lookup(k, m),
    {
        let ghost before = self.bindings@;
        match self.position(key, modifiers) {
            Some(p) => {
                let b = self.bindings.remove(p);
                proof {
                    let after = self.bindings@;
                    lemma_bound_at(before, p as int);
                    assert(keys_unique(after)) by {
                        assert forall|a: int, c: int|
                            0 <= a < after.len() && 0 <= c < after.len() && a != c implies !(
                            after[a].key == after[c].key && after[a].modifiers == after[c].modifiers) by {
                            let a2 = if a < p { a } else { a + 1 };
                            let c2 = if c < p { c } else { c + 1 };
                            assert(after[a] == before[a2] && after[c] == before[c2]);
                        }
                    }
                    assert forall|i: int| 0 <= i < after.len() implies !(after[i].key == key
                        && after[i].modifiers == modifiers) by {
                        let i2 = if i < p { i } else { i + 1 };
                        assert(after[i] == before[i2]);
                    }
                    lemma_bound_none(after, key, modifiers);
                    assert forall|k: Key, m: Modifiers|
                        !(k == key && m == modifiers) implies #[trigger] bound(after, k, m) == bound(before, k, m) by {
                        lemma_bound_removed(before, p as int, k, m);
                    }
                }
                Some(b.action)
            },
            None => {
                proof {
                    lemma_bound_none(before, key, modifiers);
                }
                None
            },
        }
    }

    /// The action bound to the event's key and modifiers.
    pub fn resolve(&self, event: &KeyEvent) -> (r: Option<&BindingAction>)
        requires
            self.wf(),
        ensures
            match self.lookup(event.code, event.modifiers) {
                Some(a) => r is Some && *r->Some_0 == a,
                None => r is None,
            },
    {
        match self.position(event.code, event.modifiers) {
            Some(p) => {
                proof {
                    lemma_bound_at(self.bindings@, p as int);
                }
                Some(&self.bindings[p].action)
            },
            None => {
                proof {
                    lemma_bound_none(self.bindings@, event.code, event.modifiers);
                }
                None
            },
        }
    }

    pub fn len(&self) -> (r: usize)
        ensures
            r == self.bindings@.len(),
    {
        self.bindings.len()
    }

    pub fn is_empty(&self) -> (r: bool)
        ensures
            r == (self.bindings@.len() == 0),
    {
        self.bindings.len() == 0
    }
}

impl Default for KeyBindingRegistry {
    fn default() -> (r: KeyBindingRegistry)
        ensures
            r.wf(),
            r.bindings@.len() == 0,
    {
        KeyBindingRegistry::new()
    }
}

/// Replacing entry `p` by one with the same key leaves other keys' lookups alone.
proof fn lemma_bound_same(before: Seq<KeyBinding>, after: Seq<KeyBinding>, p: int, k: Key, m: Modifiers)
    requires
        before.len() == after.len(),
        0 <= p < before.len(),
        forall|i: int| 0 <= i < before.len() && i != p ==> after[i] == before[i],
        after[p].key == before[p].key && after[p].modifiers == before[p].modifiers,
        !(k == before[p].key && m == before[p].modifiers),
    ensures
        bound(after, k, m) == bound(before, k, m),
    decreases before.len(),
{
    if before.len() > 0 {
        if p < before.len() - 1 {
            lemma_bound_same(before.drop_last(), after.drop_last(), p, k, m);
        } else {
            assert(before.drop_last() =~= after.drop_last());
        }
    }
}

/// Removing entry `p` leaves other keys' lookups alone.
proof fn lemma_bound_removed(before: Seq<KeyBinding>, p: int, k: Key, m: Modifiers)
    requires
        0 <= p < before.len(),
        !(k == before[p].key && m == before[p].modifiers),
    ensures
        bound(before.remove(p), k, m) == bound(before, k, m),
    decreases before.len(),
{
    let after = before.remove(p);
    if p == before.len() - 1 {
        assert(after =~= before.drop_last());
    } else {
        assert(after.drop_last() =~= before.drop_last().remove(p));
        assert(after.last() == before.last());
        lemma_bound_removed(before.drop_last(), p, k, m);
    }
}

} // verus!
