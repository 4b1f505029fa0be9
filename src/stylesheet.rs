//! Compiled stylesheets, selector matching and the cascade.
//!
//! A node is given as its ancestry chain: the node itself first, then its
//! parent, and so on up to the root.
use vstd::prelude::*;
use crate::model::{
    Combinator, CompoundSelector, Declaration, RuleSet, Selector, SelectorComponent, SelectorPart,
    StyleSheet,
};
use crate::node::{has_class_name, NodeData};
use crate::properties::{apply_declaration, apply_view, lemma_applied_view};
use crate::specificity::{spec_from_selector, spec_less, Specificity};
use crate::styles::{lemma_merge_view, merge_view, Styles, StylesView};

verus! {

/// Whether one simple selector holds of a node. Pseudo-classes never do.
pub open spec fn component_matches(c: SelectorComponent, n: NodeData) -> bool {
    match c {
        SelectorComponent::Type(name) => n.widget_type@ == name@,
        SelectorComponent::Universal => true,
        SelectorComponent::Class(name) => has_class_name(n.classes@, name@),
        SelectorComponent::Id(name) => n.id is Some && n.id->Some_0@ == name@,
        SelectorComponent::PseudoClass(_) => false,
    }
}

/// Every component of the compound holds of the node.
pub open spec fn compound_matches(c: CompoundSelector, n: NodeData) -> bool {
    forall|i: int| 0 <= i < c.components@.len() ==> component_matches(#[trigger] c.components@[i], n)
}

/// The first position at or after `a` in `chain` whose node the compound
/// matches, or the chain's length.
pub open spec fn first_match_from(c: CompoundSelector, chain: Seq<NodeData>, a: int) -> int
    decreases chain.len() - a,
{
    if a < 0 || a >= chain.len() {
        chain.len() as int
    } else if compound_matches(c, chain[a]) {
        a
    } else {
        first_match_from(c, chain, a + 1)
    }
}

/// Whether `parts[0..=k]` match, given that the compound `parts[k]` matched
/// the node at `chain[a]`: walking left, a child combinator tries only the
/// parent, a descendant combinator the nearest matching ancestor.
pub open spec fn match_left(parts: Seq<SelectorPart>, k: int, chain: Seq<NodeData>, a: int) -> bool
    decreases k,
{
    if k <= 0 {
        true
    } else if !(parts[k - 1] is Combinator) || k - 1 == 0 || !(parts[k - 2] is Compound) {
        false
    } else {
        let c = parts[k - 2]->Compound_0;
        match parts[k - 1]->Combinator_0 {
            Combinator::Child => a + 1 < chain.len() && compound_matches(c, chain[a + 1])
                && match_left(parts, k - 2, chain, a + 1),
            Combinator::Descendant => {
                let f = first_match_from(c, chain, a + 1);
                f < chain.len() && match_left(parts, k - 2, chain, f)
            },
        }
    }
}

/// Whether the selector matches the first node of `chain`.
pub open spec fn selector_matches(s: Selector, chain: Seq<NodeData>) -> bool {
    let ps = s.parts@;
    &&& ps.len() > 0
    &&& chain.len() > 0
    &&& ps.last() is Compound
    &&& compound_matches(ps.last()->Compound_0, chain[0])
    &&& match_left(ps, ps.len() - 1, chain, 0)
}

/// Whether every component of `compound` holds of `node`.
pub fn matches_compound(compound: &CompoundSelector, node: &NodeData) -> (r: bool)
    ensures
        r == compound_matches(*compound, *node),
{
    let cs = &compound.components;
    let mut i: usize = 0;
    while i < cs.len()
        invariant
            cs@ == compound.components@,
            i <= cs@.len(),
            forall|j: int| 0 <= j < i ==> component_matches(#[trigger] cs@[j], *node),
        decreases cs@.len() - i,
    {
        let ok = match &cs[i] {
            SelectorComponent::Type(name) => node.widget_type == *name,
            SelectorComponent::Universal => true,
            SelectorComponent::Class(name) => node.has_class(name.as_str()),
            SelectorComponent::Id(name) => match &node.id {
                Some(id) => *id == *name,
                None => false,
            },
            SelectorComponent::PseudoClass(_) => false,
        };
        if !ok {
            assert(!component_matches(cs@[i as int], *node));
            return false;
        }
        i = i + 1;
    }
    true
}

fn first_match(compound: &CompoundSelector, chain: &[NodeData], a: usize) -> (r: usize)
    ensures
        r == first_match_from(*compound, chain@, a as int),
{
    let mut p = a;
    if p >= chain.len() {
        return chain.len();
    }
    while p < chain.len()
        invariant
            a <= p <= chain@.len(),
            first_match_from(*compound, chain@, a as int) == first_match_from(*compound, chain@, p as int),
        decreases chain@.len() - p,
    {
        if matches_compound(compound, &chain[p]) {
            return p;
        }
        p = p + 1;
    }
    p
}

/// Whether `selector` matches `chain[0]`, reading its ancestors from the rest
/// of the chain.
pub fn matches_selector(selector: &Selector, chain: &[NodeData]) -> (r: bool)
    ensures
        r == selector_matches(*selector, chain@),
{
    let parts = &selector.parts;
    if parts.len() == 0 || chain.len() == 0 {
        return false;
    }
    let mut k = parts.len() - 1;
    match &parts[k] {
        SelectorPart::Compound(c) => {
            if !matches_compound(c, &chain[0]) {
                return false;
            }
        },
        SelectorPart::Combinator(_) => {
            return false;
        },
    }
    let mut a: usize = 0;
    let n = chain.len();
    while k > 0
        invariant
            n == chain@.len(),
            k < parts@.len(),
            a < chain@.len(),
            selector_matches(*selector, chain@) == match_left(parts@, k as int, chain@, a as int),
        decreases k,
    {
        let comb = match &parts[k - 1] {
            SelectorPart::Combinator(c) => *c,
            SelectorPart::Compound(_) => {
                return false;
            },
        };
        if k - 1 == 0 {
            return false;
        }
        let compound = match &parts[k - 2] {
            SelectorPart::Compound(c) => c,
            SelectorPart::Combinator(_) => {
                return false;
            },
        };
        match comb {
            Combinator::Child => {
                if a + 1 >= chain.len() || !matches_compound(compound, &chain[a + 1]) {
                    return false;
                }
                a = a + 1;
            },
            Combinator::Descendant => {
                let f = first_match(compound, chain, a + 1);
                if f >= chain.len() {
                    return false;
                }
                a = f;
            },
        }
        k = k - 2;
    }
    true
}

/// A rule with its precomputed specificity and source position.
#[derive(Clone, Debug)]
pub struct CompiledRule {
    pub rule: RuleSet,
    pub specificity: Specificity,
    pub source_order: usize,
}

/// A stylesheet ready for matching; never changed after compiling.
#[derive(Clone, Debug)]
pub struct CompiledStylesheet {
    pub rules: Vec<CompiledRule>,
}

pub open spec fn spec_max(a: Specificity, b: Specificity) -> Specificity {
    if spec_less(a, b) {
        b
    } else {
        a
    }
}

/// The greatest specificity among the first `n` selectors; all zero for none.
pub open spec fn max_specificity(
    sels: Seq<Selector>,
    n: int,
    order: u32,
    is_default: bool,
    important: bool,
) -> Specificity
    decreases n,
{
    if n <= 0 || n > sels.len() {
        Specificity {
            is_user: 0,
            important: 0,
            id_count: 0,
            class_count: 0,
            type_count: 0,
            source_order: 0,
        }
    } else if n == 1 {
        spec_from_selector(sels[0], order, is_default, important)
    } else {
        spec_max(
            max_specificity(sels, n - 1, order, is_default, important),
            spec_from_selector(sels[n - 1], order, is_default, important),
        )
    }
}

/// Whether any declaration of the rule is `!important`.
pub open spec fn has_important(ds: Seq<Declaration>) -> bool {
    exists|i: int| 0 <= i < ds.len() && (#[trigger] ds[i]).important
}

/// The compiled form of rule `i` of a sheet.
pub open spec fn compiled_as(c: CompiledRule, r: RuleSet, i: int, is_default: bool) -> bool {
    &&& c.rule == r
    &&& c.source_order == i
    &&& c.specificity == max_specificity(
        r.selectors@,
        r.selectors@.len() as int,
        i as u32,
        is_default,
        has_important(r.declarations@),
    )
}

fn any_important(ds: &Vec<Declaration>) -> (r: bool)
    ensures
        r == has_important(ds@),
{
    let mut i: usize = 0;
    while i < ds.len()
        invariant
            i <= ds@.len(),
            forall|j: int| 0 <= j < i ==> !(#[trigger] ds@[j]).important,
        decreases ds@.len() - i,
    {
        if ds[i].important {
            return true;
        }
        i = i + 1;
    }
    false
}

fn rule_specificity(rule: &RuleSet, order: u32, is_default: bool, important: bool) -> (r: Specificity)
    ensures
        r == max_specificity(rule.selectors@, rule.selectors@.len() as int, order, is_default, important),
{
    let sels = &rule.selectors;
    if sels.len() == 0 {
        return Specificity::new();
    }
    let mut best = Specificity::from_selector(&sels[0], order, is_default, important);
    let mut i: usize = 1;
    while i < sels.len()
        invariant
            1 <= i <= sels@.len(),
            best == max_specificity(sels@, i as int, order, is_default, important),
        decreases sels@.len() - i,
    {
        let s = Specificity::from_selector(&sels[i], order, is_default, important);
        if best.precedes(&s) {
            best = s;
        }
        i = i + 1;
    }
    best
}

impl CompiledStylesheet {
    /// Compile every rule: its specificity is the greatest among its
    /// selectors, with `important` set when any declaration is `!important`.
    pub fn compile(stylesheet: StyleSheet, is_default: bool) -> (r: CompiledStylesheet)
        requires
            stylesheet.rules@.len() <= u32::MAX as nat + 1,
        ensures
            r.rules@.len() == stylesheet.rules@.len(),
            forall|i: int|
                0 <= i < r.rules@.len() ==> compiled_as(
                    #[trigger] r.rules@[i],
                    stylesheet.rules@[i],
                    i,
                    is_default,
                ),
    {
        let ghost all = stylesheet.rules@;
        let mut source = stylesheet.rules;
        let n = source.len();
        let mut rules: Vec<CompiledRule> = Vec::new();
        let mut i: usize = 0;
        while i < n
            invariant
                n == all.len() <= u32::MAX as nat + 1,
                i <= n,
                source@ == all.subrange(i as int, n as int),
                rules@.len() == i,
                forall|j: int| 0 <= j < i ==> compiled_as(#[trigger] rules@[j], all[j], j, is_default),
            decreases n - i,
        {
            let rule = source.remove(0);
            proof {
                assert(rule == all[i as int]);
                assert(source@ =~= all.subrange(i + 1, n as int));
            }
            let important = any_important(&rule.declarations);
            let specificity = rule_specificity(&rule, i as u32, is_default, important);
            rules.push(CompiledRule { rule, specificity, source_order: i });
            i = i + 1;
        }
        CompiledStylesheet { rules }
    }
}

/// The record after the first `n` declarations, each applied in order and
/// skipped when it does not apply.
pub open spec fn decls_view(ds: Seq<Declaration>, n: int) -> StylesView
    decreases n,
{
    if n <= 0 || n > ds.len() {
        Styles::empty()@
    } else {
        apply_view(decls_view(ds, n - 1), ds[n - 1].property@, ds[n - 1].values@)
    }
}

/// The record that one rule's declarations give on their own.
pub open spec fn rule_view(r: RuleSet) -> StylesView {
    decls_view(r.declarations@, r.declarations@.len() as int)
}

/// Whether any of the rule's selectors matches the first node of `chain`.
pub open spec fn rule_matches(r: RuleSet, chain: Seq<NodeData>) -> bool {
    exists|i: int| 0 <= i < r.selectors@.len() && selector_matches(#[trigger] r.selectors@[i], chain)
}

/// Cascade order: specificity first, then source order.
pub open spec fn ranks_below(a: CompiledRule, b: CompiledRule) -> bool {
    spec_less(a.specificity, b.specificity) || (a.specificity == b.specificity && a.source_order
        < b.source_order)
}

/// Indices below `n` of the rules that match, in source order.
pub open spec fn candidates(rules: Seq<CompiledRule>, chain: Seq<NodeData>, n: int) -> Seq<int>
    decreases n,
{
    if n <= 0 || n > rules.len() {
        Seq::empty()
    } else if rule_matches(rules[n - 1].rule, chain) {
        candidates(rules, chain, n - 1).push(n - 1)
    } else {
        candidates(rules, chain, n - 1)
    }
}

/// Position in `cands` of the lowest-ranked rule (the first such on ties).
pub open spec fn lowest(rules: Seq<CompiledRule>, cands: Seq<int>) -> int
    decreases cands.len(),
{
    if cands.len() <= 1 {
        0
    } else {
        let m = lowest(rules, cands.drop_last());
        if ranks_below(rules[cands.last()], rules[cands[m]]) {
            cands.len() - 1
        } else {
            m
        }
    }
}

/// Merge the rules of `cands` onto `acc`, lowest rank first.
pub open spec fn cascade(acc: StylesView, rules: Seq<CompiledRule>, cands: Seq<int>) -> StylesView
    decreases cands.len(),
{
    if cands.len() == 0 {
        acc
    } else {
        let m = lowest(rules, cands);
        if 0 <= m < cands.len() {
            cascade(merge_view(acc, rule_view(rules[cands[m]].rule)), rules, cands.remove(m))
        } else {
            acc
        }
    }
}

/// The resolved style of the first node of `chain`.
pub open spec fn resolved(rules: Seq<CompiledRule>, chain: Seq<NodeData>) -> StylesView {
    cascade(Styles::empty()@, rules, candidates(rules, chain, rules.len() as int))
}

proof fn lemma_lowest_bound(rules: Seq<CompiledRule>, cands: Seq<int>)
    requires
        cands.len() > 0,
    ensures
        0 <= lowest(rules, cands) < cands.len(),
    decreases cands.len(),
{
    if cands.len() > 1 {
        lemma_lowest_bound(rules, cands.drop_last());
    }
}

/// The record one rule's declarations give; a declaration that does not
/// apply is skipped.
pub fn rule_styles(ds: &Vec<Declaration>) -> (r: Styles)
    ensures
        r@ == decls_view(ds@, ds@.len() as int),
{
    let mut st = Styles::new();
    let mut i: usize = 0;
    while i < ds.len()
        invariant
            i <= ds@.len(),
            st@ == decls_view(ds@, i as int),
        decreases ds@.len() - i,
    {
        let ghost before = st;
        let d = &ds[i];
        let res = apply_declaration(&mut st, d.property.as_str(), d.values.as_slice());
        proof {
            if res is Ok {
                lemma_applied_view(before, d.property@, d.values@, st);
            }
        }
        i = i + 1;
    }
    st
}

fn rule_matches_exec(rule: &RuleSet, chain: &[NodeData]) -> (r: bool)
    ensures
        r == rule_matches(*rule, chain@),
{
    let mut i: usize = 0;
    while i < rule.selectors.len()
        invariant
            i <= rule.selectors@.len(),
            forall|j: int| 0 <= j < i ==> !selector_matches(#[trigger] rule.selectors@[j], chain@),
        decreases rule.selectors@.len() - i,
    {
        if matches_selector(&rule.selectors[i], chain) {
            return true;
        }
        i = i + 1;
    }
    false
}

impl CompiledStylesheet {
    fn lowest_exec(&self, cands: &Vec<usize>) -> (r: usize)
        requires
            cands@.len() > 0,
            forall|j: int| 0 <= j < cands@.len() ==> (#[trigger] cands@[j]) < self.rules@.len(),
        ensures
            r == lowest(self.rules@, cands@.map_values(|x: usize| x as int)),
    {
        let ghost cs = cands@.map_values(|x: usize| x as int);
        let mut m: usize = 0;
        let mut j: usize = 1;
        while j < cands.len()
            invariant
                1 <= j <= cands@.len(),
                cs == cands@.map_values(|x: usize| x as int),
                forall|t: int| 0 <= t < cands@.len() ==> (#[trigger] cands@[t]) < self.rules@.len(),
                m == lowest(self.rules@, cs.subrange(0, j as int)),
                m < j,
            decreases cands@.len() - j,
        {
            proof {
                assert(cs.subrange(0, j + 1).drop_last() =~= cs.subrange(0, j as int));
            }
            let a = &self.rules[cands[j]];
            let b = &self.rules[cands[m]];
            if a.specificity.precedes(&b.specificity) || (a.specificity == b.specificity
                && a.source_order < b.source_order) {
                m = j;
            }
            j = j + 1;
        }
        proof {
            assert(cs.subrange(0, cands@.len() as int) =~= cs);
        }
        m
    }

    /// The resolved style of `chain[0]`: the matching rules merged from the
    /// lowest rank (specificity, then source order) to the highest, each
    /// rule's declarations applied on their own first. A declaration that
    /// does not apply is skipped; the rest of its rule still applies.
    pub fn compute_styles(&self, chain: &[NodeData]) -> (r: Styles)
        ensures
            r@ == resolved(self.rules@, chain@),
    {
        let mut cands: Vec<usize> = Vec::new();
        let mut i: usize = 0;
        while i < self.rules.len()
            invariant
                i <= self.rules@.len(),
                cands@.map_values(|x: usize| x as int) == candidates(self.rules@, chain@, i as int),
                forall|j: int| 0 <= j < cands@.len() ==> (#[trigger] cands@[j]) < i,
            decreases self.rules@.len() - i,
        {
            if rule_matches_exec(&self.rules[i].rule, chain) {
                let ghost before = cands@;
                cands.push(i);
                proof {
                    assert(cands@.map_values(|x: usize| x as int) =~= before.map_values(
                        |x: usize| x as int,
                    ).push(i as int));
                }
            }
            i = i + 1;
        }
        let mut acc = Styles::new();
        while cands.len() > 0
            invariant
                forall|j: int| 0 <= j < cands@.len() ==> (#[trigger] cands@[j]) < self.rules@.len(),
                cascade(acc@, self.rules@, cands@.map_values(|x: usize| x as int)) == resolved(
                    self.rules@,
                    chain@,
                ),
            decreases cands@.len(),
        {
            let ghost cs = cands@.map_values(|x: usize| x as int);
            let m = self.lowest_exec(&cands);
            proof {
                lemma_lowest_bound(self.rules@, cs);
            }
            let idx = cands.remove(m);
            let scratch = rule_styles(&self.rules[idx].rule.declarations);
            let ghost prev = acc;
            acc = acc.merge(&scratch);
            proof {
                lemma_merge_view(prev, scratch);
                assert(cands@.map_values(|x: usize| x as int) =~= cs.remove(m as int));
            }
        }
        proof {
            assert(cands@.map_values(|x: usize| x as int) =~= Seq::<int>::empty());
        }
        acc
    }
}

/// With `A > B`, a node that `B` matches is not matched when its parent
/// fails `A`, even if a grandparent satisfies `A`.
pub proof fn child_combinator_checks_only_parent(s: Selector, chain: Seq<NodeData>)
    requires
        s.parts@.len() == 3,
        s.parts@[0] is Compound,
        s.parts@[1] == SelectorPart::Combinator(Combinator::Child),
        s.parts@[2] is Compound,
        chain.len() >= 3,
        !compound_matches(s.parts@[0]->Compound_0, chain[1]),
    ensures
        !selector_matches(s, chain),
{
}

/// A pseudo-class component holds of no node, so no compound that holds one
/// matches, whatever its other components.
pub proof fn pseudo_class_never_matches(c: CompoundSelector, n: NodeData, i: int)
    requires
        0 <= i < c.components@.len(),
        c.components@[i] is PseudoClass,
    ensures
        !component_matches(c.components@[i], n),
        !compound_matches(c, n),
{
}

impl Default for CompiledStylesheet {
    /// A stylesheet with no rules.
    fn default() -> (r: CompiledStylesheet)
        ensures
            r.rules@.len() == 0,
    {
        CompiledStylesheet { rules: Vec::new() }
    }
}

} // verus!
