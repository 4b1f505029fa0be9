use gilt_tui::model::{
    Combinator, CompoundSelector, Declaration, DeclarationValue, RuleSet, Selector, SelectorComponent,
    SelectorPart, StyleSheet,
};

#[test]
fn test_compound_selector_new() {
    let cs = CompoundSelector::new();
    assert!(cs.components.is_empty());
    assert!(!cs.is_universal());
}

#[test]
fn test_compound_selector_push() {
    let mut cs = CompoundSelector::new();
    cs.push(SelectorComponent::Type("Button".into()));
    cs.push(SelectorComponent::Class("primary".into()));
    assert_eq!(cs.components.len(), 2);
}

#[test]
fn test_compound_selector_is_universal() {
    let mut cs = CompoundSelector::new();
    cs.push(SelectorComponent::Universal);
    assert!(cs.is_universal());
}

#[test]
fn test_compound_selector_not_universal_with_extras() {
    let mut cs = CompoundSelector::new();
    cs.push(SelectorComponent::Universal);
    cs.push(SelectorComponent::Class("foo".into()));
    assert!(!cs.is_universal());
}

#[test]
fn test_selector_new() {
    let s = Selector::new();
    assert!(s.parts.is_empty());
}

#[test]
fn test_selector_with_parts() {
    let mut container = CompoundSelector::new();
    container.push(SelectorComponent::Type("Container".into()));

    let mut button = CompoundSelector::new();
    button.push(SelectorComponent::Type("Button".into()));
    button.push(SelectorComponent::Class("primary".into()));

    let selector = Selector {
        parts: vec![
            SelectorPart::Compound(container),
            SelectorPart::Combinator(Combinator::Child),
            SelectorPart::Compound(button),
        ],
    };

    assert_eq!(selector.parts.len(), 3);
    assert!(matches!(&selector.parts[0], SelectorPart::Compound(cs) if cs.components.len() == 1));
    assert!(matches!(&selector.parts[1], SelectorPart::Combinator(Combinator::Child)));
    assert!(matches!(&selector.parts[2], SelectorPart::Compound(cs) if cs.components.len() == 2));
}

#[test]
fn test_declaration_new() {
    let decl = Declaration::new(
        "color".into(),
        vec![DeclarationValue::Ident("red".into())],
        false,
    );
    assert_eq!(decl.property, "color");
    assert_eq!(decl.values.len(), 1);
    assert!(!decl.important);
}

#[test]
fn test_declaration_important() {
    let decl = Declaration::new(
        "color".into(),
        vec![DeclarationValue::Color("ff0000".into())],
        true,
    );
    assert!(decl.important);
}

#[test]
fn test_declaration_multiple_values() {
    let decl = Declaration::new(
        "margin".into(),
        vec![
            DeclarationValue::Number(1000),
            DeclarationValue::Number(2000),
            DeclarationValue::Dimension(50000, "%".into()),
            DeclarationValue::Dimension(1000, "fr".into()),
        ],
        false,
    );
    assert_eq!(decl.values.len(), 4);
}

#[test]
fn test_declaration_value_variants() {
    // Verify all variants can be constructed
    let _ident = DeclarationValue::Ident("bold".into());
    let _num = DeclarationValue::Number(42000);
    let _dim = DeclarationValue::Dimension(100000, "vw".into());
    let _color = DeclarationValue::Color("aabbcc".into());
    let _string = DeclarationValue::String("hello world".into());
    let _var = DeclarationValue::Variable("primary".into());
}

#[test]
fn test_stylesheet_new() {
    let ss = StyleSheet::new();
    assert!(ss.rules.is_empty());
}

#[test]
fn test_stylesheet_default() {
    let ss = StyleSheet::default();
    assert!(ss.rules.is_empty());
}

#[test]
fn test_ruleset_construction() {
    let mut sel = CompoundSelector::new();
    sel.push(SelectorComponent::Type("Button".into()));

    let rule = RuleSet {
        selectors: vec![Selector {
            parts: vec![SelectorPart::Compound(sel)],
        }],
        declarations: vec![Declaration::new(
            "color".into(),
            vec![DeclarationValue::Ident("red".into())],
            false,
        )],
    };

    assert_eq!(rule.selectors.len(), 1);
    assert_eq!(rule.declarations.len(), 1);
}

#[test]
fn test_selector_component_variants() {
    let type_sel = SelectorComponent::Type("Button".into());
    let universal = SelectorComponent::Universal;
    let class = SelectorComponent::Class("primary".into());
    let id = SelectorComponent::Id("main".into());
    let pseudo = SelectorComponent::PseudoClass("hover".into());

    // Verify equality
    assert_eq!(type_sel, SelectorComponent::Type("Button".into()));
    assert_ne!(type_sel, universal);
    assert_eq!(class, SelectorComponent::Class("primary".into()));
    assert_eq!(id, SelectorComponent::Id("main".into()));
    assert_eq!(pseudo, SelectorComponent::PseudoClass("hover".into()));
}

#[test]
fn test_combinator_variants() {
    assert_ne!(Combinator::Descendant, Combinator::Child);
    assert_eq!(Combinator::Child, Combinator::Child);
}

