use gilt_tui::binding::{BindingAction, KeyBindingRegistry};
use gilt_tui::input::{Key, KeyEvent, Modifiers};

#[test]
fn new_registry_is_empty() {
    let reg = KeyBindingRegistry::new();
    assert!(reg.is_empty());
    assert_eq!(reg.len(), 0);
}

#[test]
fn default_registry_is_empty() {
    let reg = KeyBindingRegistry::default();
    assert!(reg.is_empty());
}

#[test]
fn with_defaults_has_three_bindings() {
    let reg = KeyBindingRegistry::with_defaults();
    assert_eq!(reg.len(), 3);
}

#[test]
fn bind_and_resolve() {
    let mut reg = KeyBindingRegistry::new();
    reg.bind(Key::Char('q'), Modifiers::none(), BindingAction::Quit);

    let event = KeyEvent::new(Key::Char('q'), Modifiers::none());
    let action = reg.resolve(&event);
    assert!(action.is_some());
    assert!(matches!(action.unwrap(), BindingAction::Quit));
}

#[test]
fn resolve_no_match() {
    let reg = KeyBindingRegistry::new();
    let event = KeyEvent::new(Key::Char('q'), Modifiers::none());
    assert!(reg.resolve(&event).is_none());
}

#[test]
fn resolve_wrong_modifiers() {
    let mut reg = KeyBindingRegistry::new();
    reg.bind(Key::Char('q'), Modifiers::ctrl(), BindingAction::Quit);

    // Without Ctrl — no match.
    let event = KeyEvent::new(Key::Char('q'), Modifiers::none());
    assert!(reg.resolve(&event).is_none());

    // With Ctrl — match.
    let event2 = KeyEvent::new(Key::Char('q'), Modifiers::ctrl());
    assert!(reg.resolve(&event2).is_some());
}

#[test]
fn unbind_removes_binding() {
    let mut reg = KeyBindingRegistry::new();
    reg.bind(Key::Char('q'), Modifiers::none(), BindingAction::Quit);
    assert_eq!(reg.len(), 1);

    let removed = reg.unbind(Key::Char('q'), Modifiers::none());
    assert!(removed.is_some());
    assert!(reg.is_empty());

    let event = KeyEvent::new(Key::Char('q'), Modifiers::none());
    assert!(reg.resolve(&event).is_none());
}

#[test]
fn unbind_nonexistent_returns_none() {
    let mut reg = KeyBindingRegistry::new();
    let removed = reg.unbind(Key::Char('z'), Modifiers::none());
    assert!(removed.is_none());
}

#[test]
fn bind_overwrites_existing() {
    let mut reg = KeyBindingRegistry::new();
    reg.bind(
        Key::Char('q'),
        Modifiers::none(),
        BindingAction::Custom("first".into()),
    );
    reg.bind(
        Key::Char('q'),
        Modifiers::none(),
        BindingAction::Custom("second".into()),
    );
    assert_eq!(reg.len(), 1);

    let event = KeyEvent::new(Key::Char('q'), Modifiers::none());
    let action = reg.resolve(&event).unwrap();
    match action {
        BindingAction::Custom(name) => assert_eq!(name, "second"),
        _ => panic!("expected Custom action"),
    }
}

#[test]
fn defaults_ctrl_c_quit() {
    let reg = KeyBindingRegistry::with_defaults();
    let event = KeyEvent::new(Key::Char('c'), Modifiers::ctrl());
    let action = reg.resolve(&event);
    assert!(matches!(action, Some(BindingAction::Quit)));
}

#[test]
fn defaults_tab_focus_next() {
    let reg = KeyBindingRegistry::with_defaults();
    let event = KeyEvent::new(Key::Tab, Modifiers::none());
    let action = reg.resolve(&event);
    assert!(matches!(action, Some(BindingAction::FocusNext)));
}

#[test]
fn defaults_backtab_focus_previous() {
    let reg = KeyBindingRegistry::with_defaults();
    let event = KeyEvent::new(Key::BackTab, Modifiers::none());
    let action = reg.resolve(&event);
    assert!(matches!(action, Some(BindingAction::FocusPrevious)));
}

#[test]
fn binding_action_debug() {
    assert_eq!(format!("{:?}", BindingAction::Quit), "Quit");
    assert_eq!(format!("{:?}", BindingAction::FocusNext), "FocusNext");
    assert_eq!(
        format!("{:?}", BindingAction::Custom("test".into())),
        "Custom(\"test\")"
    );
}


#[test]
fn describe_matches_debug_form() {
    assert_eq!(BindingAction::Quit.describe(), "Quit");
    assert_eq!(BindingAction::Custom("help".into()).describe(), "Custom(\"help\")");
}
