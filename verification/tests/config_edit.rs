use herdr::config_edit::{ConfigEdit, ConfigOp, ToastDelivery};

fn upsert(section: &str, key: &str, value: &str) -> ConfigOp {
    ConfigOp::Upsert { section: section.into(), key: key.into(), value: value.into() }
}

/// Settings edits name the keys they rewrite; none of them touches the
/// `[keys]` section, so table-form bindings survive every edit.
#[test]
fn config_edits_preserve_table_form_keybindings() {
    let edits = [
        ConfigEdit::Theme("mocha".into()),
        ConfigEdit::StatusIndicators("symbols".into()),
        ConfigEdit::Sound(false),
        ConfigEdit::ToastDelivery(ToastDelivery::Off),
    ];
    for edit in edits {
        for op in edit.apply() {
            let section = match &op {
                ConfigOp::Upsert { section, .. } | ConfigOp::Remove { section, .. } => section,
            };
            assert_ne!(section, "keys", "{} edit touched [keys]", edit.description());
        }
    }
}

#[test]
fn each_edit_names_its_keys() {
    assert_eq!(
        ConfigEdit::Theme("mocha".into()).apply(),
        vec![upsert("theme", "name", "\"mocha\""), upsert("theme", "auto_switch", "false")]
    );
    assert_eq!(
        ConfigEdit::StatusIndicators("symbols".into()).apply(),
        vec![upsert("ui", "status_indicators", "\"symbols\"")]
    );
    assert_eq!(ConfigEdit::Sound(true).apply(), vec![upsert("ui.sound", "enabled", "true")]);
    assert_eq!(
        ConfigEdit::ToastDelivery(ToastDelivery::System).apply(),
        vec![
            upsert("ui.toast", "delivery", "\"system\""),
            ConfigOp::Remove { section: "ui.toast".into(), key: "enabled".into() },
        ]
    );
}

#[test]
fn edits_describe_themselves() {
    assert_eq!(ConfigEdit::Theme("x".into()).description(), "theme");
    assert_eq!(ConfigEdit::StatusIndicators("x".into()).description(), "status indicators");
    assert_eq!(ConfigEdit::Sound(true).description(), "sound setting");
    assert_eq!(ConfigEdit::ToastDelivery(ToastDelivery::Herdr).description(), "toast setting");
}
