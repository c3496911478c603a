//! Edits the settings screen makes to `config.toml`.
//!
//! Each edit names the keys it rewrites; the file is edited textually, key
//! by key, so that everything else in it (table-form key bindings
//! included) survives untouched.

use vstd::prelude::*;

verus! {

/// Where toasts are delivered.
#[derive(Debug, Clone, Copy, PartialEq, Eq, Structural)]
pub enum ToastDelivery {
    Off,
    Herdr,
    Terminal,
    System,
}

/// One settings change.
#[derive(Debug, Clone, PartialEq, Eq)]
pub enum ConfigEdit {
    /// Switch to the named theme (and stop switching automatically).
    Theme(String),
    /// Show status indicators in the named style.
    StatusIndicators(String),
    /// Turn sound on or off.
    Sound(bool),
    /// Deliver toasts this way.
    ToastDelivery(ToastDelivery),
}

/// One textual change to the configuration file.
#[derive(Debug, Clone, PartialEq, Eq)]
pub enum ConfigOp {
    /// Set `key` in `[section]` to the TOML value `value`, adding the
    /// section or key when missing.
    Upsert { section: String, key: String, value: String },
    /// Remove `key` from `[section]`, if present.
    Remove { section: String, key: String },
}

pub enum OpModel {
    Upsert { section: Seq<char>, key: Seq<char>, value: Seq<char> },
    Remove { section: Seq<char>, key: Seq<char> },
}

pub open spec fn op_model(op: ConfigOp) -> OpModel {
    match op {
        ConfigOp::Upsert { section, key, value } => OpModel::Upsert {
            section: section@,
            key: key@,
            value: value@,
        },
        ConfigOp::Remove { section, key } => OpModel::Remove { section: section@, key: key@ },
    }
}

pub open spec fn ops_model(ops: Seq<ConfigOp>) -> Seq<OpModel> {
    ops.map_values(|o: ConfigOp| op_model(o))
}

/// `text` in double quotes, as a TOML string.
pub open spec fn quoted(text: Seq<char>) -> Seq<char> {
    seq!['"'] + text + seq!['"']
}

/// The TOML value of a boolean.
pub open spec fn toml_bool(b: bool) -> Seq<char> {
    if b {
        "true"@
    } else {
        "false"@
    }
}

/// The config name of a toast delivery.
pub open spec fn delivery_name(d: ToastDelivery) -> Seq<char> {
    match d {
        ToastDelivery::Off => "off"@,
        ToastDelivery::Herdr => "herdr"@,
        ToastDelivery::Terminal => "terminal"@,
        ToastDelivery::System => "system"@,
    }
}

/// The changes an edit makes, in order: a theme sets `[theme] name` and
/// turns `auto_switch` off; status indicators set `[ui]
/// status_indicators`; sound sets `[ui.sound] enabled`; toast delivery sets
/// `[ui.toast] delivery` and drops the older `enabled` key.
pub open spec fn edit_ops(edit: ConfigEdit) -> Seq<OpModel> {
    match edit {
        ConfigEdit::Theme(name) => seq![
            OpModel::Upsert { section: "theme"@, key: "name"@, value: quoted(name@) },
            OpModel::Upsert { section: "theme"@, key: "auto_switch"@, value: toml_bool(false) },
        ],
        ConfigEdit::StatusIndicators(style) => seq![
            OpModel::Upsert { section: "ui"@, key: "status_indicators"@, value: quoted(style@) },
        ],
        ConfigEdit::Sound(enabled) => seq![
            OpModel::Upsert { section: "ui.sound"@, key: "enabled"@, value: toml_bool(enabled) },
        ],
        ConfigEdit::ToastDelivery(d) => seq![
            OpModel::Upsert { section: "ui.toast"@, key: "delivery"@, value: quoted(delivery_name(d)) },
            OpModel::Remove { section: "ui.toast"@, key: "enabled"@ },
        ],
    }
}

/// What an edit is called in messages.
pub open spec fn description_spec(edit: ConfigEdit) -> Seq<char> {
    match edit {
        ConfigEdit::Theme(_) => "theme"@,
        ConfigEdit::StatusIndicators(_) => "status indicators"@,
        ConfigEdit::Sound(_) => "sound setting"@,
        ConfigEdit::ToastDelivery(_) => "toast setting"@,
    }
}

fn quote(text: &str) -> (q: String)
    ensures
        q@ == quoted(text@),
{
    let mut q = String::new();
    q.append("\"");
    q.append(text);
    q.append("\"");
    proof {
        reveal_strlit("\"");
    }
    assert(q@ =~= quoted(text@));
    q
}

fn bool_value(b: bool) -> (v: String)
    ensures
        v@ == toml_bool(b),
{
    if b {
        "true".to_owned()
    } else {
        "false".to_owned()
    }
}

fn upsert(section: &str, key: &str, value: String) -> (op: ConfigOp)
    ensures
        op_model(op) == (OpModel::Upsert { section: section@, key: key@, value: value@ }),
{
    ConfigOp::Upsert { section: section.to_owned(), key: key.to_owned(), value }
}

impl ConfigEdit {
    /// What the edit is called in messages.
    pub fn description(&self) -> (d: &'static str)
        ensures
            d@ == description_spec(*self),
    {
        match self {
            ConfigEdit::Theme(_) => "theme",
            ConfigEdit::StatusIndicators(_) => "status indicators",
            ConfigEdit::Sound(_) => "sound setting",
            ConfigEdit::ToastDelivery(_) => "toast setting",
        }
    }

    /// The textual changes the edit makes to the file, per [`edit_ops`].
    pub fn apply(&self) -> (ops: Vec<ConfigOp>)
        ensures
            ops_model(ops@) == edit_ops(*self),
    {
        let mut ops: Vec<ConfigOp> = Vec::new();
        match self {
            ConfigEdit::Theme(name) => {
                ops.push(upsert("theme", "name", quote(name.as_str())));
                ops.push(upsert("theme", "auto_switch", bool_value(false)));
            },
            ConfigEdit::StatusIndicators(style) => {
                ops.push(upsert("ui", "status_indicators", quote(style.as_str())));
            },
            ConfigEdit::Sound(enabled) => {
                ops.push(upsert("ui.sound", "enabled", bool_value(*enabled)));
            },
            ConfigEdit::ToastDelivery(delivery) => {
                let name = match delivery {
                    ToastDelivery::Off => "off",
                    ToastDelivery::Herdr => "herdr",
                    ToastDelivery::Terminal => "terminal",
                    ToastDelivery::System => "system",
                };
                ops.push(upsert("ui.toast", "delivery", quote(name)));
                ops.push(
                    ConfigOp::Remove { section: "ui.toast".to_owned(), key: "enabled".to_owned() },
                );
            },
        }
        assert(ops_model(ops@) =~= edit_ops(*self));
        ops
    }
}


/// The toast delivery a `[ui.toast] delivery` value names when the file is
/// read back: the variant spelled in lower case.
pub open spec fn delivery_named(name: Seq<char>) -> Option<ToastDelivery> {
    if name == "off"@ {
        Some(ToastDelivery::Off)
    } else if name == "herdr"@ {
        Some(ToastDelivery::Herdr)
    } else if name == "terminal"@ {
        Some(ToastDelivery::Terminal)
    } else if name == "system"@ {
        Some(ToastDelivery::System)
    } else {
        None
    }
}

/// A toast delivery edit writes the name of the delivery chosen: its
/// `[ui.toast] delivery` value is a quoted name that reads back as that
/// same delivery, and it drops the older `enabled` key. So two different
/// deliveries never write the same value.
pub proof fn law_toast_delivery_edit_writes_the_chosen_delivery(d: ToastDelivery)
    ensures
        ({
            let ops = edit_ops(ConfigEdit::ToastDelivery(d));
            &&& ops.len() == 2
            &&& ops[0] matches OpModel::Upsert { section, key, value }
            &&& section == "ui.toast"@ && key == "delivery"@
            &&& value.len() >= 2 && value[0] == '"' && value[value.len() - 1] == '"'
            &&& delivery_named(value.subrange(1, value.len() - 1)) == Some(d)
            &&& ops[1] == (OpModel::Remove { section: "ui.toast"@, key: "enabled"@ })
        }),
{
    reveal_strlit("off");
    reveal_strlit("herdr");
    reveal_strlit("terminal");
    reveal_strlit("system");
    let n = delivery_name(d);
    assert(quoted(n).subrange(1, quoted(n).len() - 1) =~= n);
}

} // verus!
