use gilt_tui::model::{
    Combinator, DeclarationValue, RuleSet, Selector, SelectorComponent, SelectorPart, StyleSheet,
};
use gilt_tui::parser::parse_css;

fn strip_comments(input: &str) -> String {
    gilt_tui::parser::strip_comments(input).into_iter().collect()
}

fn split_dimension(input: &str) -> Option<(String, String)> {
    let chars: Vec<char> = input.chars().collect();
    gilt_tui::parser::split_dimension(&chars).map(|(n, u)| (n.into_iter().collect(), u))
}

fn parse(input: &str) -> StyleSheet {
    parse_css(input).unwrap_or_else(|e| panic!("parse failed: {e:?}"))
}

fn first_rule(input: &str) -> RuleSet {
    let sheet = parse(input);
    assert!(!sheet.rules.is_empty(), "expected at least one rule");
    sheet.rules.into_iter().next().unwrap()
}

fn first_compound(sel: &Selector) -> &[SelectorComponent] {
    match &sel.parts[0] {
        SelectorPart::Compound(c) => &c.components,
        _ => panic!("expected compound selector at index 0"),
    }
}

#[test]
fn parse_simple_rule() {
    let rule = first_rule("Button { color: red; }");
    assert_eq!(rule.selectors.len(), 1);
    assert_eq!(rule.declarations.len(), 1);

    let comps = first_compound(&rule.selectors[0]);
    assert_eq!(comps.len(), 1);
    assert_eq!(comps[0], SelectorComponent::Type("Button".into()));

    let decl = &rule.declarations[0];
    assert_eq!(decl.property, "color");
    assert!(!decl.important);
    assert_eq!(decl.values.len(), 1);
    assert_eq!(decl.values[0], DeclarationValue::Ident("red".into()));
}

#[test]
fn parse_compound_selector() {
    let rule = first_rule("Button.primary:hover { color: blue; }");
    let comps = first_compound(&rule.selectors[0]);
    assert_eq!(comps.len(), 3);
    assert_eq!(comps[0], SelectorComponent::Type("Button".into()));
    assert_eq!(comps[1], SelectorComponent::Class("primary".into()));
    assert_eq!(comps[2], SelectorComponent::PseudoClass("hover".into()));
}

#[test]
fn parse_descendant_combinator() {
    let rule = first_rule("Container Panel { margin: 1; }");
    let sel = &rule.selectors[0];
    assert_eq!(sel.parts.len(), 3);

    match &sel.parts[0] {
        SelectorPart::Compound(c) => {
            assert_eq!(c.components[0], SelectorComponent::Type("Container".into()));
        }
        _ => panic!("expected compound"),
    }
    assert_eq!(
        sel.parts[1],
        SelectorPart::Combinator(Combinator::Descendant)
    );
    match &sel.parts[2] {
        SelectorPart::Compound(c) => {
            assert_eq!(c.components[0], SelectorComponent::Type("Panel".into()));
        }
        _ => panic!("expected compound"),
    }
}

#[test]
fn parse_child_combinator() {
    let rule = first_rule("Container > Button { padding: 1 2; }");
    let sel = &rule.selectors[0];
    assert_eq!(sel.parts.len(), 3);
    assert_eq!(
        sel.parts[1],
        SelectorPart::Combinator(Combinator::Child)
    );
}

#[test]
fn parse_multiple_selectors() {
    let rule = first_rule("Button, Label { color: green; }");
    assert_eq!(rule.selectors.len(), 2);

    let comps0 = first_compound(&rule.selectors[0]);
    assert_eq!(comps0[0], SelectorComponent::Type("Button".into()));

    let comps1 = first_compound(&rule.selectors[1]);
    assert_eq!(comps1[0], SelectorComponent::Type("Label".into()));
}

#[test]
fn parser_parse_multiple_declarations() {
    let rule = first_rule("Button { color: red; background: blue; text-align: center; }");
    assert_eq!(rule.declarations.len(), 3);
    assert_eq!(rule.declarations[0].property, "color");
    assert_eq!(rule.declarations[1].property, "background");
    assert_eq!(rule.declarations[2].property, "text-align");
}

#[test]
fn parse_dimensions() {
    let rule = first_rule("Panel { width: 50%; height: 1fr; min-width: 10; }");
    assert_eq!(rule.declarations.len(), 3);

    assert_eq!(rule.declarations[0].property, "width");
    assert_eq!(
        rule.declarations[0].values[0],
        DeclarationValue::Dimension(50000, "%".into())
    );

    assert_eq!(rule.declarations[1].property, "height");
    assert_eq!(
        rule.declarations[1].values[0],
        DeclarationValue::Dimension(1000, "fr".into())
    );

    assert_eq!(rule.declarations[2].property, "min-width");
    assert_eq!(
        rule.declarations[2].values[0],
        DeclarationValue::Number(10000)
    );
}

#[test]
fn parse_important() {
    let rule = first_rule("Button { color: red !important; }");
    assert_eq!(rule.declarations.len(), 1);
    assert!(rule.declarations[0].important);
    assert_eq!(
        rule.declarations[0].values[0],
        DeclarationValue::Ident("red".into())
    );
}

#[test]
fn parse_hex_colors() {
    let rule = first_rule("Label { color: #ff0000; background: #fff; }");
    assert_eq!(rule.declarations.len(), 2);
    assert_eq!(
        rule.declarations[0].values[0],
        DeclarationValue::Color("ff0000".into())
    );
    assert_eq!(
        rule.declarations[1].values[0],
        DeclarationValue::Color("fff".into())
    );
}

#[test]
fn parse_with_comments() {
    let input = "/* comment */ Button { color: red; /* inline */ background: blue; }";
    let rule = first_rule(input);
    assert_eq!(rule.declarations.len(), 2);
    assert_eq!(rule.declarations[0].property, "color");
    assert_eq!(rule.declarations[1].property, "background");
}

#[test]
fn parse_comment_between_rules() {
    let input = "Button { color: red; } /* between */ Label { color: blue; }";
    let sheet = parse(input);
    assert_eq!(sheet.rules.len(), 2);
}

#[test]
fn parse_unclosed_brace() {
    let result = parse_css("Button { color: red;");
    assert!(result.is_err());
}

#[test]
fn parse_empty_input() {
    let sheet = parse("");
    assert!(sheet.rules.is_empty());
}

#[test]
fn parse_multiple_rules() {
    let sheet = parse("Button { color: red; } Label { color: blue; }");
    assert_eq!(sheet.rules.len(), 2);
}

#[test]
fn parse_universal_selector() {
    let rule = first_rule("* { color: white; }");
    let comps = first_compound(&rule.selectors[0]);
    assert_eq!(comps[0], SelectorComponent::Universal);
}

#[test]
fn parse_id_selector() {
    let rule = first_rule("#sidebar { color: gray; }");
    let comps = first_compound(&rule.selectors[0]);
    assert_eq!(comps[0], SelectorComponent::Id("sidebar".into()));
}

#[test]
fn parse_class_only_selector() {
    let rule = first_rule(".primary { color: blue; }");
    let comps = first_compound(&rule.selectors[0]);
    assert_eq!(comps[0], SelectorComponent::Class("primary".into()));
}

#[test]
fn parse_margin_shorthand() {
    let rule = first_rule("Panel { margin: 1 2 3 4; }");
    let decl = &rule.declarations[0];
    assert_eq!(decl.property, "margin");
    assert_eq!(decl.values.len(), 4);
    assert_eq!(decl.values[0], DeclarationValue::Number(1000));
    assert_eq!(decl.values[1], DeclarationValue::Number(2000));
    assert_eq!(decl.values[2], DeclarationValue::Number(3000));
    assert_eq!(decl.values[3], DeclarationValue::Number(4000));
}

#[test]
fn parse_declaration_without_trailing_semicolon() {
    let rule = first_rule("Button { color: red }");
    assert_eq!(rule.declarations.len(), 1);
    assert_eq!(rule.declarations[0].property, "color");
}

#[test]
fn parse_complex_selector_chain() {
    let rule = first_rule("Container > Panel .item:hover { color: red; }");
    let sel = &rule.selectors[0];
    // Container > Panel <descendant> .item:hover
    // = [Container] > [Panel] descendant [.item:hover]
    assert_eq!(sel.parts.len(), 5);

    match &sel.parts[0] {
        SelectorPart::Compound(c) => {
            assert_eq!(c.components[0], SelectorComponent::Type("Container".into()));
        }
        _ => panic!("expected compound"),
    }
    assert_eq!(
        sel.parts[1],
        SelectorPart::Combinator(Combinator::Child)
    );
    match &sel.parts[2] {
        SelectorPart::Compound(c) => {
            assert_eq!(c.components.len(), 1);
            assert_eq!(c.components[0], SelectorComponent::Type("Panel".into()));
        }
        _ => panic!("expected compound"),
    }
    assert_eq!(
        sel.parts[3],
        SelectorPart::Combinator(Combinator::Descendant)
    );
    match &sel.parts[4] {
        SelectorPart::Compound(c) => {
            assert_eq!(c.components.len(), 2);
            assert_eq!(c.components[0], SelectorComponent::Class("item".into()));
            assert_eq!(
                c.components[1],
                SelectorComponent::PseudoClass("hover".into())
            );
        }
        _ => panic!("expected compound"),
    }
}

#[test]
fn whitespace_distinguishes_compound_from_descendant() {
    // No space: single compound
    let rule = first_rule("Panel.item { color: red; }");
    let sel = &rule.selectors[0];
    assert_eq!(sel.parts.len(), 1);
    match &sel.parts[0] {
        SelectorPart::Compound(c) => {
            assert_eq!(c.components.len(), 2);
            assert_eq!(c.components[0], SelectorComponent::Type("Panel".into()));
            assert_eq!(c.components[1], SelectorComponent::Class("item".into()));
        }
        _ => panic!("expected compound"),
    }

    // With space: descendant combinator
    let rule = first_rule("Panel .item { color: red; }");
    let sel = &rule.selectors[0];
    assert_eq!(sel.parts.len(), 3);
    match &sel.parts[0] {
        SelectorPart::Compound(c) => {
            assert_eq!(c.components.len(), 1);
            assert_eq!(c.components[0], SelectorComponent::Type("Panel".into()));
        }
        _ => panic!("expected compound"),
    }
    assert_eq!(
        sel.parts[1],
        SelectorPart::Combinator(Combinator::Descendant)
    );
    match &sel.parts[2] {
        SelectorPart::Compound(c) => {
            assert_eq!(c.components.len(), 1);
            assert_eq!(c.components[0], SelectorComponent::Class("item".into()));
        }
        _ => panic!("expected compound"),
    }
}

#[test]
fn strip_comments_basic() {
    let result = strip_comments("a /* comment */ b");
    // The space before /* + replacement space + space after */ = 3 spaces
    assert_eq!(result, "a   b");
}

#[test]
fn strip_comments_multiple() {
    let result = strip_comments("/* c1 */ a /* c2 */ b /* c3 */");
    // Each comment becomes one space; surrounding spaces preserved
    assert_eq!(result, "  a   b  ");
}

#[test]
fn strip_comments_no_comments() {
    assert_eq!(strip_comments("hello world"), "hello world");
}

#[test]
fn strip_comments_unterminated() {
    let result = strip_comments("a /* unterminated");
    // Unterminated comment consumes rest of input, replaced by single space
    assert_eq!(result, "a  ");
}

#[test]
fn split_dimension_percent() {
    assert_eq!(split_dimension("50%"), Some(("50".to_string(), "%".to_string())));
}

#[test]
fn split_dimension_fr() {
    assert_eq!(split_dimension("1fr"), Some(("1".to_string(), "fr".to_string())));
}

#[test]
fn split_dimension_vw() {
    assert_eq!(split_dimension("100vw"), Some(("100".to_string(), "vw".to_string())));
}

#[test]
fn split_dimension_negative() {
    assert_eq!(split_dimension("-10%"), Some(("-10".to_string(), "%".to_string())));
}

#[test]
fn split_dimension_float() {
    assert_eq!(split_dimension("1.5fr"), Some(("1.5".to_string(), "fr".to_string())));
}

