use gilt_tui::model::{Combinator, DeclarationValue, SelectorComponent, SelectorPart};
use gilt_tui::node::NodeData;
use gilt_tui::parser::{parse_css, ParseError};
use gilt_tui::properties::{apply_declaration, PropertyError};
use gilt_tui::scalar::{Scalar, ScalarBox};
use gilt_tui::specificity::Specificity;
use gilt_tui::styles::{BorderKind, Styles};
use gilt_tui::stylesheet::CompiledStylesheet;

fn resolve(css: &str, chain: &[NodeData]) -> Styles {
    let sheet = parse_css(css).unwrap();
    CompiledStylesheet::compile(sheet, false).compute_styles(chain)
}

#[test]
fn compound_without_space_is_one_compound() {
    let sheet = parse_css("Panel.item { color: red; }").unwrap();
    let sel = &sheet.rules[0].selectors[0];
    assert_eq!(sel.parts.len(), 1);
    match &sel.parts[0] {
        SelectorPart::Compound(c) => {
            assert_eq!(c.components.len(), 2);
            assert_eq!(c.components[0], SelectorComponent::Type("Panel".into()));
            assert_eq!(c.components[1], SelectorComponent::Class("item".into()));
        }
        _ => panic!("expected a compound"),
    }
}

#[test]
fn space_makes_descendant_combinator() {
    let sheet = parse_css("Panel .item { color: red; }").unwrap();
    let sel = &sheet.rules[0].selectors[0];
    assert_eq!(sel.parts.len(), 3);
    assert!(matches!(sel.parts[0], SelectorPart::Compound(_)));
    assert_eq!(sel.parts[1], SelectorPart::Combinator(Combinator::Descendant));
    assert!(matches!(sel.parts[2], SelectorPart::Compound(_)));
}

#[test]
fn class_beats_type() {
    let node = NodeData::new("Button").with_class("primary");
    let s = resolve("Button { color: red; } .primary { color: blue; }", &[node]);
    assert_eq!(s.color, Some("blue".to_string()));
}

#[test]
fn later_rule_wins_on_equal_specificity() {
    let node = NodeData::new("Button");
    let s = resolve("Button { color: red; } Button { color: blue; }", &[node]);
    assert_eq!(s.color, Some("blue".to_string()));
}

#[test]
fn padding_two_values_expand() {
    let node = NodeData::new("Button");
    let s = resolve("Button { padding: 1 2; }", &[node]);
    assert_eq!(
        s.padding,
        Some(ScalarBox {
            top: Scalar::cells(1000),
            right: Scalar::cells(2000),
            bottom: Scalar::cells(1000),
            left: Scalar::cells(2000),
        })
    );
}

#[test]
fn id_ancestor_required() {
    let other = NodeData::new("Panel").with_id("main");
    let root = NodeData::new("Container").with_id("root");
    let button = NodeData::new("Button");
    let s = resolve("#sidebar Button { color: red; }", &[button.clone(), other, root]);
    assert!(s.color.is_none());
    let sidebar = NodeData::new("Panel").with_id("sidebar");
    let s2 = resolve("#sidebar Button { color: red; }", &[button, sidebar]);
    assert_eq!(s2.color, Some("red".to_string()));
}

#[test]
fn border_kind_and_color() {
    let node = NodeData::new("Button");
    let s = resolve("Button { border: thin red; }", &[node]);
    let b = s.border.unwrap();
    assert_eq!(b.kind, BorderKind::Thin);
    assert_eq!(b.color, Some("red".to_string()));
}

#[test]
fn unknown_property_is_dropped_in_cascade() {
    let node = NodeData::new("Button");
    let s = resolve(
        "Button { color: red; font-family: monospace; background: blue; }",
        &[node],
    );
    assert_eq!(s.color, Some("red".to_string()));
    assert_eq!(s.background, Some("blue".to_string()));
}

#[test]
fn child_combinator_skips_grandparent() {
    let button = NodeData::new("Button");
    let middle = NodeData::new("Panel");
    let top = NodeData::new("Container");
    let s = resolve("Container > Button { color: red; }", &[button.clone(), middle.clone(), top.clone()]);
    assert!(s.color.is_none());
    let s2 = resolve("Container Button { color: red; }", &[button, middle, top]);
    assert_eq!(s2.color, Some("red".to_string()));
}

#[test]
fn pseudo_class_never_matches_even_when_rest_does() {
    let node = NodeData::new("Button").with_class("primary").with_id("ok");
    let s = resolve("Button.primary#ok:hover { color: red; }", &[node]);
    assert!(s.color.is_none());
}

#[test]
fn more_ids_rank_higher_concrete() {
    let a = Specificity { is_user: 1, important: 0, id_count: 1, class_count: 9, type_count: 9, source_order: 3 };
    let b = Specificity { id_count: 2, class_count: 0, type_count: 0, ..a };
    assert!(a.precedes(&b));
    assert!(!b.precedes(&a));
}

#[test]
fn user_origin_beats_many_ids() {
    let default_rule = Specificity { is_user: 0, important: 1, id_count: 50, class_count: 0, type_count: 0, source_order: 9 };
    let user_rule = Specificity { is_user: 1, important: 0, id_count: 0, class_count: 0, type_count: 0, source_order: 0 };
    assert!(default_rule.precedes(&user_rule));
}

#[test]
fn merge_disagreeing_records_order_matters() {
    let mut a = Styles::new();
    a.color = Some("red".into());
    let mut b = Styles::new();
    b.color = Some("blue".into());
    assert_eq!(a.merge(&b).color, Some("blue".to_string()));
    assert_eq!(b.merge(&a).color, Some("red".to_string()));
    assert_ne!(a.merge(&b), b.merge(&a));
}

#[test]
fn important_boosts_whole_rule() {
    let node = NodeData::new("Button").with_id("ok");
    let s = resolve("Button { color: red !important; background: red; } #ok { color: blue; background: blue; }", &[node]);
    assert_eq!(s.color, Some("red".to_string()));
    assert_eq!(s.background, Some("red".to_string()));
}

#[test]
fn rule_specificity_is_max_of_selectors() {
    let sheet = parse_css("#a, Button { color: red; }").unwrap();
    let c = CompiledStylesheet::compile(sheet, true);
    assert_eq!(c.rules[0].specificity.id_count, 1);
    assert_eq!(c.rules[0].specificity.type_count, 0);
    assert_eq!(c.rules[0].specificity.is_user, 0);
}

#[test]
fn missing_colon_fails_whole_sheet() {
    let r = parse_css("A { color: red; } B { color red; }");
    assert!(matches!(r, Err(ParseError::UnexpectedToken { .. })));
}

#[test]
fn eof_inside_rule_is_eof_error() {
    let r = parse_css("Button {");
    assert!(matches!(r, Err(ParseError::UnexpectedEof(_))));
}

#[test]
fn bad_selector_start_is_positioned() {
    match parse_css("{ color: red; }") {
        Err(ParseError::UnexpectedToken { position, .. }) => assert_eq!(position, 0),
        other => panic!("unexpected: {:?}", other),
    }
}

#[test]
fn invalid_value_names_property() {
    let mut s = Styles::new();
    match apply_declaration(&mut s, "width", &[DeclarationValue::Ident("wide".into())]) {
        Err(PropertyError::InvalidValue { property, .. }) => assert_eq!(property, "width"),
        other => panic!("unexpected: {:?}", other),
    }
    assert!(s.is_empty());
}

#[test]
fn text_style_none_sets_all_false() {
    let node = NodeData::new("Label");
    let s = resolve("Label { text-style: bold none; }", &[node]);
    let f = s.text_style.unwrap();
    assert_eq!(f.bold, Some(false));
    assert_eq!(f.reverse, Some(false));
}

#[test]
fn auto_is_case_sensitive() {
    let mut s = Styles::new();
    assert!(apply_declaration(&mut s, "width", &[DeclarationValue::Ident("AUTO".into())]).is_err());
    apply_declaration(&mut s, "width", &[DeclarationValue::Ident("auto".into())]).unwrap();
    assert_eq!(s.width, Some(Scalar::auto()));
}

#[test]
fn decimal_numbers_in_thousandths() {
    let sheet = parse_css("A { width: 1.25; height: -0.5fr; margin: 3.14159; }").unwrap();
    let d = &sheet.rules[0].declarations;
    assert_eq!(d[0].values[0], DeclarationValue::Number(1250));
    assert_eq!(d[1].values[0], DeclarationValue::Dimension(-500, "fr".into()));
    assert_eq!(d[2].values[0], DeclarationValue::Number(3141));
}

#[test]
fn hex_color_gets_hash_back() {
    let node = NodeData::new("A");
    let s = resolve("A { color: #ff0000; }", &[node]);
    assert_eq!(s.color, Some("#ff0000".to_string()));
}

#[test]
fn comment_replaced_by_one_space_splits_compound() {
    let sheet = parse_css("Panel/* x */.item { color: red; }").unwrap();
    assert_eq!(sheet.rules[0].selectors[0].parts.len(), 3);
}

#[test]
fn stray_characters_are_dropped() {
    let sheet = parse_css("A { color: red; } @ ~").unwrap();
    assert_eq!(sheet.rules.len(), 1);
}

#[test]
fn scalar_text_forms() {
    assert_eq!(Scalar::cells(-1500).to_text(), "-1.5");
    assert_eq!(Scalar::percent(12345).to_text(), "12.345%");
    assert_eq!(Scalar::vh(100).to_text(), "0.1vh");
}

#[test]
fn white_space_matches_std() {
    for v in 0u32..0x110000 {
        if let Some(c) = char::from_u32(v) {
            assert_eq!(gilt_tui::snapshot::is_white(c), c.is_whitespace(), "U+{:04X}", v);
        }
    }
}

#[test]
fn empty_text_style_is_invalid() {
    let mut s = Styles::new();
    match apply_declaration(&mut s, "text-style", &[]) {
        Err(PropertyError::InvalidValue { property, .. }) => assert_eq!(property, "text-style"),
        other => panic!("unexpected: {:?}", other),
    }
    assert!(s.is_empty());
}

#[test]
fn border_with_three_values_is_invalid() {
    let mut s = Styles::new();
    let vals = [
        DeclarationValue::Ident("thin".into()),
        DeclarationValue::Ident("red".into()),
        DeclarationValue::Ident("blue".into()),
    ];
    match apply_declaration(&mut s, "border", &vals) {
        Err(PropertyError::InvalidValue { property, .. }) => assert_eq!(property, "border"),
        other => panic!("unexpected: {:?}", other),
    }
    assert!(s.is_empty());
}

#[test]
fn touching_compound_start_is_no_descendant() {
    assert!(parse_css("*Button { color: red; }").is_err());
    assert!(parse_css("* Button { color: red; }").is_ok());
}

#[test]
fn unclosed_brace_is_eof() {
    assert!(matches!(parse_css("Button { color: red;"), Err(ParseError::UnexpectedEof(_))));
    assert!(matches!(parse_css("A >"), Err(ParseError::UnexpectedEof(_))));
}

#[test]
fn missing_colon_error_position() {
    // tokens: Button { color red ; }  -> the stray `red` is token 3
    match parse_css("Button { color red; }") {
        Err(ParseError::UnexpectedToken { position, .. }) => assert_eq!(position, 3),
        other => panic!("unexpected: {:?}", other),
    }
}

#[test]
fn declaration_values_and_importance_kept() {
    let sheet = parse_css("A { margin: 1 2fr !important; color: red }").unwrap();
    let d = &sheet.rules[0].declarations;
    assert_eq!(d.len(), 2);
    assert_eq!(d[0].values, vec![DeclarationValue::Number(1000), DeclarationValue::Dimension(2000, "fr".into())]);
    assert!(d[0].important);
    assert_eq!(d[1].values, vec![DeclarationValue::Ident("red".into())]);
    assert!(!d[1].important);
}

#[test]
fn empty_value_list_is_kept() {
    let sheet = parse_css("A { color: ; }").unwrap();
    assert!(sheet.rules[0].declarations[0].values.is_empty());
}
