//! Cascade precedence: a six-field value compared field by field.
use vstd::prelude::*;
use crate::model::{Selector, SelectorComponent, SelectorPart};

verus! {

/// `(is_user, important, id_count, class_count, type_count, source_order)`,
/// ordered lexicographically in that order. Counts saturate at `u16::MAX`.
#[derive(Clone, Copy, Debug, PartialEq, Eq, PartialOrd, Ord, Hash, Default, Structural)]
pub struct Specificity {
    pub is_user: u8,
    pub important: u8,
    pub id_count: u16,
    pub class_count: u16,
    pub type_count: u16,
    pub source_order: u32,
}

/// What a count counts.
#[derive(Clone, Copy, Debug, PartialEq, Eq, Structural)]
pub enum Weight {
    Ids,
    Classes,
    Types,
}

pub open spec fn weight(w: Weight, c: SelectorComponent) -> nat {
    match w {
        Weight::Ids => id_weight(c),
        Weight::Classes => class_weight(c),
        Weight::Types => type_weight(c),
    }
}

pub open spec fn id_weight(c: SelectorComponent) -> nat {
    if c is Id { 1 } else { 0 }
}

/// Classes and pseudo-classes both count as classes.
pub open spec fn class_weight(c: SelectorComponent) -> nat {
    if c is Class || c is PseudoClass { 1 } else { 0 }
}

pub open spec fn type_weight(c: SelectorComponent) -> nat {
    if c is Type { 1 } else { 0 }
}

/// Sum of `w` over the first `n` components.
pub open spec fn component_sum(cs: Seq<SelectorComponent>, n: int, w: Weight) -> nat
    decreases n,
{
    if n <= 0 || n > cs.len() {
        0
    } else {
        component_sum(cs, n - 1, w) + weight(w, cs[n - 1])
    }
}

/// Sum of `w` over every component of the first `n` parts; combinators add
/// nothing.
pub open spec fn part_sum(ps: Seq<SelectorPart>, n: int, w: Weight) -> nat
    decreases n,
{
    if n <= 0 || n > ps.len() {
        0
    } else {
        part_sum(ps, n - 1, w) + match ps[n - 1] {
            SelectorPart::Compound(c) => component_sum(c.components@, c.components@.len() as int, w),
            SelectorPart::Combinator(_) => 0,
        }
    }
}

pub open spec fn selector_count(s: Selector, w: Weight) -> nat {
    part_sum(s.parts@, s.parts@.len() as int, w)
}

/// `n`, saturated at `u16::MAX`.
pub open spec fn sat16(n: nat) -> u16 {
    if n > 0xffff { 0xffff } else { n as u16 }
}

/// Strict lexicographic order on the six fields.
pub open spec fn spec_less(a: Specificity, b: Specificity) -> bool {
    if a.is_user != b.is_user {
        a.is_user < b.is_user
    } else if a.important != b.important {
        a.important < b.important
    } else if a.id_count != b.id_count {
        a.id_count < b.id_count
    } else if a.class_count != b.class_count {
        a.class_count < b.class_count
    } else if a.type_count != b.type_count {
        a.type_count < b.type_count
    } else {
        a.source_order < b.source_order
    }
}

/// The specificity of `s` with the given origin, importance and order.
pub open spec fn spec_from_selector(s: Selector, source_order: u32, is_default: bool, important: bool) -> Specificity {
    Specificity {
        is_user: if is_default { 0 } else { 1 },
        important: if important { 1 } else { 0 },
        id_count: sat16(selector_count(s, Weight::Ids)),
        class_count: sat16(selector_count(s, Weight::Classes)),
        type_count: sat16(selector_count(s, Weight::Types)),
        source_order,
    }
}

fn bump(n: u16) -> (r: u16)
    ensures
        r == if n < 0xffff { (n + 1) as u16 } else { n },
{
    if n < 0xffff { n + 1 } else { n }
}

impl Specificity {
    /// All fields zero.
    pub fn new() -> (r: Specificity)
        ensures
            r == (Specificity {
                is_user: 0,
                important: 0,
                id_count: 0,
                class_count: 0,
                type_count: 0,
                source_order: 0,
            }),
    {
        Specificity {
            is_user: 0,
            important: 0,
            id_count: 0,
            class_count: 0,
            type_count: 0,
            source_order: 0,
        }
    }

    /// Count ids, classes (with pseudo-classes) and types over every compound
    /// of `selector`; `*` counts for nothing.
    pub fn from_selector(selector: &Selector, source_order: u32, is_default: bool, important: bool) -> (r: Specificity)
        ensures
            r == spec_from_selector(*selector, source_order, is_default, important),
    {
        let mut ids: u16 = 0;
        let mut classes: u16 = 0;
        let mut types: u16 = 0;
        let parts = &selector.parts;
        let mut i: usize = 0;
        while i < parts.len()
            invariant
                i <= parts@.len(),
                ids == sat16(part_sum(parts@, i as int, Weight::Ids)),
                classes == sat16(part_sum(parts@, i as int, Weight::Classes)),
                types == sat16(part_sum(parts@, i as int, Weight::Types)),
            decreases parts@.len() - i,
        {
            match &parts[i] {
                SelectorPart::Compound(compound) => {
                    let cs = &compound.components;
                    let mut j: usize = 0;
                    while j < cs.len()
                        invariant
                            j <= cs@.len(),
                            i < parts@.len(),
                            parts@[i as int] == SelectorPart::Compound(*compound),
                            ids == sat16(part_sum(parts@, i as int, Weight::Ids) + component_sum(cs@, j as int, Weight::Ids)),
                            classes == sat16(part_sum(parts@, i as int, Weight::Classes) + component_sum(cs@, j as int, Weight::Classes)),
                            types == sat16(part_sum(parts@, i as int, Weight::Types) + component_sum(cs@, j as int, Weight::Types)),
                        decreases cs@.len() - j,
                    {
                        proof {
                            assert(component_sum(cs@, j + 1, Weight::Ids) == component_sum(cs@, j as int, Weight::Ids)
                                + id_weight(cs@[j as int]));
                            assert(component_sum(cs@, j + 1, Weight::Classes) == component_sum(cs@, j as int, Weight::Classes)
                                + class_weight(cs@[j as int]));
                            assert(component_sum(cs@, j + 1, Weight::Types) == component_sum(cs@, j as int, Weight::Types)
                                + type_weight(cs@[j as int]));
                        }
                        match &cs[j] {
                            SelectorComponent::Id(_) => {
                                ids = bump(ids);
                            },
                            SelectorComponent::Class(_) | SelectorComponent::PseudoClass(_) => {
                                classes = bump(classes);
                            },
                            SelectorComponent::Type(_) => {
                                types = bump(types);
                            },
                            SelectorComponent::Universal => {},
                        }
                        j = j + 1;
                    }
                },
                SelectorPart::Combinator(_) => {},
            }
            i = i + 1;
        }
        Specificity {
            is_user: if is_default { 0 } else { 1 },
            important: if important { 1 } else { 0 },
            id_count: ids,
            class_count: classes,
            type_count: types,
            source_order,
        }
    }

    /// Whether this comes from a default (built-in) stylesheet.
    pub fn is_default(&self) -> (r: bool)
        ensures
            r == (self.is_user == 0),
    {
        self.is_user == 0
    }

    /// Whether `self` ranks strictly below `other`.
    pub fn precedes(&self, other: &Specificity) -> (r: bool)
        ensures
            r == spec_less(*self, *other),
    {
        if self.is_user != other.is_user {
            self.is_user < other.is_user
        } else if self.important != other.important {
            self.important < other.important
        } else if self.id_count != other.id_count {
            self.id_count < other.id_count
        } else if self.class_count != other.class_count {
            self.class_count < other.class_count
        } else if self.type_count != other.type_count {
            self.type_count < other.type_count
        } else {
            self.source_order < other.source_order
        }
    }
}

/// Holding origin, importance and source order fixed, a selector with more
/// ids ranks strictly higher, whatever the class and type counts.
pub proof fn more_ids_rank_higher(a: Specificity, b: Specificity)
    requires
        a.is_user == b.is_user,
        a.important == b.important,
        a.source_order == b.source_order,
        a.id_count < b.id_count,
    ensures
        spec_less(a, b),
        !spec_less(b, a),
{
}

/// Any specificity of a user stylesheet ranks above any of a default one,
/// whatever their id, class and type counts.
pub proof fn user_origin_dominates(s1: Selector, s2: Selector, o1: u32, o2: u32, i1: bool, i2: bool)
    ensures
        spec_less(spec_from_selector(s1, o1, true, i1), spec_from_selector(s2, o2, false, i2)),
{
}

} // verus!
