use herdr::keybindings::{
    resolve_direct_binding, resolve_exact_binding_with_repeat, resolve_non_indexed_action,
    resolve_prefix_binding_with_repeat, ActionKeybinds, CustomCommandKeybind, IndexedKeybind,
    KeyBinding, KeyCode, KeybindAction, KeybindDispatch, KeybindMatch, Keybinds, TerminalKey,
    CONTROL, SHIFT,
};

fn prefix(code: KeyCode, repeat: bool) -> KeyBinding {
    KeyBinding { dispatch: KeybindDispatch::Prefix, code, modifiers: 0, repeat }
}

fn direct(code: KeyCode, modifiers: u8, repeat: bool) -> KeyBinding {
    KeyBinding { dispatch: KeybindDispatch::Direct, code, modifiers, repeat }
}

fn binds(bindings: Vec<KeyBinding>) -> ActionKeybinds {
    ActionKeybinds { bindings }
}

/// The shipped defaults this suite relies on: `prefix+?` opens help and
/// `prefix+1..9` switch tabs.
fn default_keybinds() -> Keybinds {
    let mut keybinds = Keybinds::unbound();
    keybinds.help = binds(vec![prefix(KeyCode::Char('?'), false)]);
    keybinds.switch_tab = vec![IndexedKeybind {
        dispatch: KeybindDispatch::Prefix,
        modifiers: 0,
        keys: "123456789".chars().map(KeyCode::Char).collect(),
    }];
    keybinds
}

#[test]
fn one_shared_resolver_handles_direct_prefix_and_indexed_bindings() {
    let mut keybinds = default_keybinds();
    keybinds.next_tab = binds(vec![direct(KeyCode::Char('n'), CONTROL, false)]);

    let direct_key = TerminalKey::new(KeyCode::Char('n'), CONTROL);
    assert!(matches!(
        resolve_direct_binding(&keybinds, &direct_key),
        Some(KeybindMatch::Action(KeybindAction::NextTab))
    ));

    let help = TerminalKey::new(KeyCode::Char('?'), 0);
    assert!(matches!(
        resolve_prefix_binding_with_repeat(&keybinds, &help).map(|resolved| resolved.binding),
        Some(KeybindMatch::Action(KeybindAction::Help))
    ));

    let one = TerminalKey::new(KeyCode::Char('1'), 0);
    assert!(matches!(
        resolve_prefix_binding_with_repeat(&keybinds, &one).map(|resolved| resolved.binding),
        Some(KeybindMatch::Action(KeybindAction::SwitchTab(0)))
    ));
}

#[test]
fn prefix_resolution_uses_shared_generated_character_fallback() {
    let keybinds = default_keybinds();
    let mut key = TerminalKey::new(KeyCode::Char('/'), SHIFT);
    key.generated_text = Some("?".to_owned());

    assert!(matches!(
        resolve_prefix_binding_with_repeat(&keybinds, &key).map(|resolved| resolved.binding),
        Some(KeybindMatch::Action(KeybindAction::Help))
    ));
}

#[test]
fn prefix_resolution_reports_table_form_repeat_opt_in() {
    let mut keybinds = default_keybinds();
    keybinds.next_tab = binds(vec![prefix(KeyCode::Char('n'), true)]);
    keybinds.previous_tab = binds(vec![prefix(KeyCode::Char('p'), false)]);

    let next = TerminalKey::new(KeyCode::Char('n'), 0);
    let resolved = resolve_prefix_binding_with_repeat(&keybinds, &next).expect("next_tab");
    assert!(matches!(resolved.binding, KeybindMatch::Action(KeybindAction::NextTab)));
    assert!(resolved.repeatable);

    let previous = TerminalKey::new(KeyCode::Char('p'), 0);
    let resolved = resolve_prefix_binding_with_repeat(&keybinds, &previous).expect("previous_tab");
    assert!(!resolved.repeatable);
}

#[test]
fn direct_dispatch_never_reports_repeat() {
    let mut keybinds = default_keybinds();
    keybinds.next_tab = binds(vec![direct(KeyCode::Char('n'), CONTROL, true)]);

    let key = TerminalKey::new(KeyCode::Char('n'), CONTROL);
    let resolved = resolve_exact_binding_with_repeat(&keybinds, &key, KeybindDispatch::Direct)
        .expect("next_tab");
    assert!(!resolved.repeatable);
}

#[test]
fn generated_character_fallback_keeps_repeat_opt_in() {
    let mut keybinds = default_keybinds();
    keybinds.help = binds(vec![prefix(KeyCode::Char('?'), true)]);
    let mut key = TerminalKey::new(KeyCode::Char('/'), SHIFT);
    key.generated_text = Some("?".to_owned());

    let resolved = resolve_prefix_binding_with_repeat(&keybinds, &key).expect("help");
    assert!(matches!(resolved.binding, KeybindMatch::Action(KeybindAction::Help)));
    assert!(resolved.repeatable);
}

#[test]
fn custom_commands_and_indexed_bindings_are_never_repeatable() {
    let mut keybinds = default_keybinds();
    keybinds.custom_commands = vec![CustomCommandKeybind {
        bindings: binds(vec![prefix(KeyCode::Char('y'), true)]),
        command: "lazygit".to_owned(),
    }];

    let indexed = TerminalKey::new(KeyCode::Char('1'), 0);
    let resolved = resolve_prefix_binding_with_repeat(&keybinds, &indexed).expect("switch_tab");
    assert!(matches!(resolved.binding, KeybindMatch::Action(KeybindAction::SwitchTab(0))));
    assert!(!resolved.repeatable);

    let command = TerminalKey::new(KeyCode::Char('y'), 0);
    let resolved = resolve_prefix_binding_with_repeat(&keybinds, &command).expect("command");
    assert!(matches!(resolved.binding, KeybindMatch::Command(_)));
    assert!(!resolved.repeatable);
}

#[test]
fn the_earlier_table_entry_wins_a_shared_key() {
    let mut keybinds = Keybinds::unbound();
    // `help` comes before `next_tab` in the table, so it takes the key.
    keybinds.next_tab = binds(vec![prefix(KeyCode::Char('x'), false)]);
    keybinds.help = binds(vec![prefix(KeyCode::Char('x'), false)]);
    let key = TerminalKey::new(KeyCode::Char('x'), 0);
    assert_eq!(
        resolve_non_indexed_action(&keybinds, &key, KeybindDispatch::Prefix),
        Some(KeybindAction::Help)
    );
    assert_eq!(resolve_non_indexed_action(&keybinds, &key, KeybindDispatch::Direct), None);
}

#[test]
fn indexed_bindings_prefer_exact_modifiers() {
    let mut keybinds = Keybinds::unbound();
    keybinds.switch_tab = vec![IndexedKeybind {
        dispatch: KeybindDispatch::Direct,
        modifiers: CONTROL,
        keys: vec![KeyCode::Char('1'), KeyCode::Char('2')],
    }];
    keybinds.switch_workspace = vec![IndexedKeybind {
        dispatch: KeybindDispatch::Direct,
        modifiers: 4,
        keys: vec![KeyCode::Char('1'), KeyCode::Char('2')],
    }];
    let alt_two = TerminalKey::new(KeyCode::Char('2'), 4);
    assert!(matches!(
        resolve_direct_binding(&keybinds, &alt_two),
        Some(KeybindMatch::Action(KeybindAction::SwitchWorkspace(1)))
    ));
    // With no exact match, the first binding of any modifiers takes it.
    let shift_two = TerminalKey::new(KeyCode::Char('2'), SHIFT);
    assert!(matches!(
        resolve_direct_binding(&keybinds, &shift_two),
        Some(KeybindMatch::Action(KeybindAction::SwitchTab(1)))
    ));
}

#[test]
fn control_characters_generate_no_fallback() {
    let keybinds = default_keybinds();
    let mut key = TerminalKey::new(KeyCode::Char('/'), SHIFT);
    key.generated_text = Some("\u{1b}".to_owned());
    assert!(resolve_prefix_binding_with_repeat(&keybinds, &key).is_none());
    key.generated_text = Some("??".to_owned());
    assert!(resolve_prefix_binding_with_repeat(&keybinds, &key).is_none());
}
