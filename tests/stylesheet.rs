use gilt_tui::model::{Combinator, CompoundSelector, Selector, SelectorComponent, SelectorPart};
use gilt_tui::node::NodeData;
use gilt_tui::parser::parse_css;
use gilt_tui::styles::{Display, TextAlign};
use gilt_tui::stylesheet::{matches_compound, matches_selector, CompiledStylesheet};

/// A small tree: each node with the index of its parent.
struct Dom {
    nodes: Vec<(NodeData, Option<usize>)>,
}

impl Dom {
    fn new() -> Self {
        Dom { nodes: Vec::new() }
    }

    fn insert(&mut self, data: NodeData) -> usize {
        self.nodes.push((data, None));
        self.nodes.len() - 1
    }

    fn insert_child(&mut self, parent: usize, data: NodeData) -> usize {
        self.nodes.push((data, Some(parent)));
        self.nodes.len() - 1
    }

    /// The node, then its ancestors up to the root.
    fn chain(&self, id: usize) -> Vec<NodeData> {
        let mut out = Vec::new();
        let mut cur = Some(id);
        while let Some(i) = cur {
            out.push(self.nodes[i].0.clone());
            cur = self.nodes[i].1;
        }
        out
    }
}

fn build_test_dom() -> (Dom, usize, usize, usize, usize, usize) {
    let mut dom = Dom::new();
    let root = dom.insert(NodeData::new("Container").with_id("root"));
    let panel = dom.insert_child(
        root,
        NodeData::new("Panel")
            .with_id("main")
            .with_class("content"),
    );
    let sidebar = dom.insert_child(
        root,
        NodeData::new("Panel")
            .with_id("sidebar")
            .with_class("nav"),
    );
    let btn = dom.insert_child(
        panel,
        NodeData::new("Button")
            .with_class("primary")
            .with_class("btn"),
    );
    let lbl = dom.insert_child(panel, NodeData::new("Label").with_id("title"));
    (dom, root, panel, sidebar, btn, lbl)
}

#[test]
fn match_type_selector() {
    let (dom, _, _, _, btn, _) = build_test_dom();
    let sheet = parse_css("Button { color: red; }").unwrap();
    let compiled = CompiledStylesheet::compile(sheet, false);
    let styles = compiled.compute_styles(&dom.chain(btn));
    assert_eq!(styles.color, Some("red".into()));
}

#[test]
fn match_class_selector() {
    let (dom, _, _, _, btn, _) = build_test_dom();
    let sheet = parse_css(".primary { color: blue; }").unwrap();
    let compiled = CompiledStylesheet::compile(sheet, false);
    let styles = compiled.compute_styles(&dom.chain(btn));
    assert_eq!(styles.color, Some("blue".into()));
}

#[test]
fn match_id_selector() {
    let (dom, _, _, _, _, lbl) = build_test_dom();
    let sheet = parse_css("#title { color: green; }").unwrap();
    let compiled = CompiledStylesheet::compile(sheet, false);
    let styles = compiled.compute_styles(&dom.chain(lbl));
    assert_eq!(styles.color, Some("green".into()));
}

#[test]
fn match_universal_selector() {
    let (dom, _, _, _, btn, _) = build_test_dom();
    let sheet = parse_css("* { color: white; }").unwrap();
    let compiled = CompiledStylesheet::compile(sheet, false);
    let styles = compiled.compute_styles(&dom.chain(btn));
    assert_eq!(styles.color, Some("white".into()));
}

#[test]
fn no_match_wrong_type() {
    let (dom, _, _, _, btn, _) = build_test_dom();
    let sheet = parse_css("Label { color: red; }").unwrap();
    let compiled = CompiledStylesheet::compile(sheet, false);
    let styles = compiled.compute_styles(&dom.chain(btn));
    assert!(styles.color.is_none());
}

#[test]
fn match_descendant_combinator() {
    let (dom, _, _, _, btn, _) = build_test_dom();
    let sheet = parse_css("Container Button { color: red; }").unwrap();
    let compiled = CompiledStylesheet::compile(sheet, false);
    let styles = compiled.compute_styles(&dom.chain(btn));
    assert_eq!(styles.color, Some("red".into()));
}

#[test]
fn match_descendant_skips_intermediate() {
    let (dom, _, _, _, btn, _) = build_test_dom();
    // Button is grandchild of Container (Container > Panel > Button)
    let sheet = parse_css("Container Button { color: red; }").unwrap();
    let compiled = CompiledStylesheet::compile(sheet, false);
    let styles = compiled.compute_styles(&dom.chain(btn));
    assert_eq!(styles.color, Some("red".into()));
}

#[test]
fn no_match_wrong_ancestor() {
    let (dom, _, _, _, btn, _) = build_test_dom();
    // sidebar is Panel, not the parent of btn
    let sheet = parse_css("#sidebar Button { color: red; }").unwrap();
    let compiled = CompiledStylesheet::compile(sheet, false);
    let styles = compiled.compute_styles(&dom.chain(btn));
    assert!(styles.color.is_none());
}

#[test]
fn match_child_combinator() {
    let (dom, _, panel, _, _, _) = build_test_dom();
    let sheet = parse_css("Container > Panel { color: red; }").unwrap();
    let compiled = CompiledStylesheet::compile(sheet, false);
    let styles = compiled.compute_styles(&dom.chain(panel));
    assert_eq!(styles.color, Some("red".into()));
}

#[test]
fn no_match_child_combinator_grandchild() {
    let (dom, _, _, _, btn, _) = build_test_dom();
    // Button is grandchild of Container, not direct child
    let sheet = parse_css("Container > Button { color: red; }").unwrap();
    let compiled = CompiledStylesheet::compile(sheet, false);
    let styles = compiled.compute_styles(&dom.chain(btn));
    assert!(styles.color.is_none());
}

#[test]
fn cascade_higher_specificity_wins() {
    let (dom, _, _, _, btn, _) = build_test_dom();
    // Type selector (specificity 0,0,1) vs class selector (specificity 0,1,0)
    let sheet =
        parse_css("Button { color: red; } .primary { color: blue; }").unwrap();
    let compiled = CompiledStylesheet::compile(sheet, false);
    let styles = compiled.compute_styles(&dom.chain(btn));
    assert_eq!(styles.color, Some("blue".into()));
}

#[test]
fn cascade_later_rule_wins_at_same_specificity() {
    let (dom, _, _, _, btn, _) = build_test_dom();
    let sheet =
        parse_css("Button { color: red; } Button { color: blue; }").unwrap();
    let compiled = CompiledStylesheet::compile(sheet, false);
    let styles = compiled.compute_styles(&dom.chain(btn));
    assert_eq!(styles.color, Some("blue".into()));
}

#[test]
fn cascade_merge_different_properties() {
    let (dom, _, _, _, btn, _) = build_test_dom();
    let sheet =
        parse_css("Button { color: red; } .primary { background: blue; }").unwrap();
    let compiled = CompiledStylesheet::compile(sheet, false);
    let styles = compiled.compute_styles(&dom.chain(btn));
    assert_eq!(styles.color, Some("red".into()));
    assert_eq!(styles.background, Some("blue".into()));
}

#[test]
fn merge_multiple_rules() {
    let (dom, _, _, _, btn, _) = build_test_dom();
    let sheet = parse_css(
        r#"
        Button { display: block; color: red; }
        .btn { text-align: center; }
        .primary { color: blue; background: white; }
        "#,
    )
    .unwrap();
    let compiled = CompiledStylesheet::compile(sheet, false);
    let styles = compiled.compute_styles(&dom.chain(btn));

    assert_eq!(styles.display, Some(Display::Block));
    assert_eq!(styles.color, Some("blue".into())); // .primary overrides Button
    assert_eq!(styles.text_align, Some(TextAlign::Center));
    assert_eq!(styles.background, Some("white".into()));
}

#[test]
fn empty_stylesheet_produces_empty_styles() {
    let (dom, _, _, _, btn, _) = build_test_dom();
    let compiled = CompiledStylesheet::default();
    let styles = compiled.compute_styles(&dom.chain(btn));
    assert!(styles.is_empty());
}

#[test]
fn compound_selector_higher_specificity() {
    let (dom, _, _, _, btn, _) = build_test_dom();
    // Button.primary has specificity (0,1,1) > .primary (0,1,0) > Button (0,0,1)
    let sheet = parse_css(
        r#"
        Button { color: red; }
        .primary { color: green; }
        Button.primary { color: blue; }
        "#,
    )
    .unwrap();
    let compiled = CompiledStylesheet::compile(sheet, false);
    let styles = compiled.compute_styles(&dom.chain(btn));
    assert_eq!(styles.color, Some("blue".into()));
}

#[test]
fn matches_compound_type() {
    let node = NodeData::new("Button");
    let compound = CompoundSelector {
        components: vec![SelectorComponent::Type("Button".into())],
    };
    assert!(matches_compound(&compound, &node));

    let compound_wrong = CompoundSelector {
        components: vec![SelectorComponent::Type("Label".into())],
    };
    assert!(!matches_compound(&compound_wrong, &node));
}

#[test]
fn matches_compound_class() {
    let node = NodeData::new("Button").with_class("primary");
    let compound = CompoundSelector {
        components: vec![SelectorComponent::Class("primary".into())],
    };
    assert!(matches_compound(&compound, &node));

    let compound_wrong = CompoundSelector {
        components: vec![SelectorComponent::Class("secondary".into())],
    };
    assert!(!matches_compound(&compound_wrong, &node));
}

#[test]
fn matches_compound_id() {
    let node = NodeData::new("Button").with_id("save");
    let compound = CompoundSelector {
        components: vec![SelectorComponent::Id("save".into())],
    };
    assert!(matches_compound(&compound, &node));
}

#[test]
fn matches_compound_universal() {
    let node = NodeData::new("Button");
    let compound = CompoundSelector {
        components: vec![SelectorComponent::Universal],
    };
    assert!(matches_compound(&compound, &node));
}

#[test]
fn matches_compound_pseudo_class_returns_false() {
    let node = NodeData::new("Button");
    let compound = CompoundSelector {
        components: vec![
            SelectorComponent::Type("Button".into()),
            SelectorComponent::PseudoClass("hover".into()),
        ],
    };
    // Pseudo-classes never match.
    assert!(!matches_compound(&compound, &node));
}

#[test]
fn matches_compound_multiple_parts() {
    let node = NodeData::new("Button")
        .with_class("primary")
        .with_class("btn");
    let compound = CompoundSelector {
        components: vec![
            SelectorComponent::Type("Button".into()),
            SelectorComponent::Class("primary".into()),
        ],
    };
    assert!(matches_compound(&compound, &node));

    // Fails if any part doesn't match
    let compound_fail = CompoundSelector {
        components: vec![
            SelectorComponent::Type("Button".into()),
            SelectorComponent::Class("secondary".into()),
        ],
    };
    assert!(!matches_compound(&compound_fail, &node));
}

#[test]
fn matches_selector_simple() {
    let (dom, _, _, _, btn, _) = build_test_dom();
    let selector = Selector {
        parts: vec![SelectorPart::Compound(CompoundSelector {
            components: vec![SelectorComponent::Type("Button".into())],
        })],
    };
    assert!(matches_selector(&selector, &dom.chain(btn)));
}

#[test]
fn matches_selector_child_combinator() {
    let (dom, _, panel, _, btn, _) = build_test_dom();
    let selector = Selector {
        parts: vec![
            SelectorPart::Compound(CompoundSelector {
                components: vec![SelectorComponent::Type("Panel".into())],
            }),
            SelectorPart::Combinator(Combinator::Child),
            SelectorPart::Compound(CompoundSelector {
                components: vec![SelectorComponent::Type("Button".into())],
            }),
        ],
    };
    assert!(matches_selector(&selector, &dom.chain(btn)));

    // panel's parent is Container, not Panel
    assert!(!matches_selector(&selector, &dom.chain(panel)));
}

#[test]
fn matches_selector_descendant_combinator() {
    let (dom, _, _, _, btn, _) = build_test_dom();
    let selector = Selector {
        parts: vec![
            SelectorPart::Compound(CompoundSelector {
                components: vec![SelectorComponent::Type("Container".into())],
            }),
            SelectorPart::Combinator(Combinator::Descendant),
            SelectorPart::Compound(CompoundSelector {
                components: vec![SelectorComponent::Type("Button".into())],
            }),
        ],
    };
    assert!(matches_selector(&selector, &dom.chain(btn)));
}

#[test]
fn matches_selector_empty_returns_false() {
    let (dom, _, _, _, btn, _) = build_test_dom();
    let selector = Selector { parts: vec![] };
    assert!(!matches_selector(&selector, &dom.chain(btn)));
}

