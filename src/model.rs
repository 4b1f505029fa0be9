//! The stylesheet syntax tree: selectors, declarations, rules, sheets.
use vstd::prelude::*;

verus! {

/// One simple selector inside a compound.
#[derive(Clone, Debug, PartialEq)]
pub enum SelectorComponent {
    /// A widget type name, as in `Button`.
    Type(String),
    /// `*`
    Universal,
    /// `.name`
    Class(String),
    /// `#name`
    Id(String),
    /// `:name` (kept without the colon).
    PseudoClass(String),
}

/// The relation between two compounds of a selector.
#[derive(Clone, Copy, Debug, PartialEq, Eq, Structural)]
pub enum Combinator {
    /// Whitespace: any ancestor.
    Descendant,
    /// `>`: the immediate parent.
    Child,
}

/// Simple selectors with no combinator between them, as in `Button.primary:hover`.
#[derive(Clone, Debug, PartialEq)]
pub struct CompoundSelector {
    pub components: Vec<SelectorComponent>,
}

impl CompoundSelector {
    pub fn new() -> (r: CompoundSelector)
        ensures
            r.components@.len() == 0,
    {
        CompoundSelector { components: Vec::new() }
    }

    pub fn push(&mut self, component: SelectorComponent)
        ensures
            final(self).components@ == old(self).components@.push(component),
    {
        self.components.push(component);
    }

    /// Not empty, and only the first component may be a type or `*`.
    pub open spec fn well_formed(&self) -> bool {
        &&& self.components@.len() > 0
        &&& forall|i: int|
            1 <= i < self.components@.len() ==> (#[trigger] self.components@[i] is Class
                || self.components@[i] is Id || self.components@[i] is PseudoClass)
    }

    pub open spec fn spec_is_universal(&self) -> bool {
        self.components@.len() == 1 && self.components@[0] is Universal
    }

    /// True only when the compound is exactly `*`.
    pub fn is_universal(&self) -> (r: bool)
        ensures
            r == self.spec_is_universal(),
    {
        self.components.len() == 1 && match &self.components[0] {
            SelectorComponent::Universal => true,
            _ => false,
        }
    }
}

/// One element of a selector: a compound or a combinator.
#[derive(Clone, Debug, PartialEq)]
pub enum SelectorPart {
    Compound(CompoundSelector),
    Combinator(Combinator),
}

/// A complex selector: compounds joined by combinators, read left to right.
#[derive(Clone, Debug, PartialEq)]
pub struct Selector {
    pub parts: Vec<SelectorPart>,
}

impl Selector {
    pub fn new() -> (r: Selector)
        ensures
            r.parts@.len() == 0,
    {
        Selector { parts: Vec::new() }
    }

    /// Starts and ends with a compound, alternates compound and combinator,
    /// and each compound is well formed.
    pub open spec fn well_formed(&self) -> bool {
        &&& self.parts@.len() % 2 == 1
        &&& forall|i: int|
            0 <= i < self.parts@.len() ==> if i % 2 == 0 {
                (#[trigger] self.parts@[i]) is Compound && self.parts@[i]->Compound_0.well_formed()
            } else {
                self.parts@[i] is Combinator
            }
    }
}

/// One value of a declaration. Numbers are held in thousandths: `1.5` is
/// `1500`.
#[derive(Clone, Debug, PartialEq)]
pub enum DeclarationValue {
    Ident(String),
    Number(i64),
    /// A number and its unit, as in `50%` or `1fr`.
    Dimension(i64, String),
    /// Hex digits of a color, without the `#`.
    Color(String),
    /// The text of a quoted string, without the quotes.
    String(String),
    /// A variable name, without the `$`.
    Variable(String),
}

/// `property: values [!important]`
#[derive(Clone, Debug, PartialEq)]
pub struct Declaration {
    pub property: String,
    pub values: Vec<DeclarationValue>,
    pub important: bool,
}

impl Declaration {
    pub fn new(property: String, values: Vec<DeclarationValue>, important: bool) -> (r:
        Declaration)
        ensures
            r == (Declaration { property, values, important }),
    {
        Declaration { property, values, important }
    }
}

/// Comma-separated selectors sharing one declaration block.
#[derive(Clone, Debug, PartialEq)]
pub struct RuleSet {
    pub selectors: Vec<Selector>,
    pub declarations: Vec<Declaration>,
}

/// Rules in source order.
#[derive(Clone, Debug, PartialEq)]
pub struct StyleSheet {
    pub rules: Vec<RuleSet>,
}

impl StyleSheet {
    pub fn new() -> (r: StyleSheet)
        ensures
            r.rules@.len() == 0,
    {
        StyleSheet { rules: Vec::new() }
    }
}


impl Default for CompoundSelector {
    fn default() -> (r: CompoundSelector)
        ensures
            r.components@.len() == 0,
    {
        CompoundSelector::new()
    }
}

impl Default for Selector {
    fn default() -> (r: Selector)
        ensures
            r.parts@.len() == 0,
    {
        Selector::new()
    }
}

impl Default for StyleSheet {
    fn default() -> (r: StyleSheet)
        ensures
            r.rules@.len() == 0,
    {
        StyleSheet::new()
    }
}

} // verus!
