//! Resolution of a key press to the binding it triggers.
//!
//! Bindings come in three kinds, tried in this order: the named actions
//! (scanned in a fixed table order, the first match winning), custom
//! commands, and indexed actions such as "switch to tab N". Prefix-mode
//! resolution falls back to the character the key generated, so a shifted
//! symbol finds the binding written with that symbol. Only named actions
//! resolved in prefix mode can opt in to repeating.

use vstd::prelude::*;

verus! {

/// A key, as the terminal reports it.
#[derive(Debug, Clone, Copy, PartialEq, Eq, Structural)]
pub enum KeyCode {
    Char(char),
    F(u8),
    Backspace,
    Enter,
    Left,
    Right,
    Up,
    Down,
    Home,
    End,
    PageUp,
    PageDown,
    Tab,
    BackTab,
    Delete,
    Insert,
    Esc,
    Null,
    /// Any other key.
    Other,
}

/// Modifier bits, as crossterm's `KeyModifiers` lays them out.
pub const SHIFT: u8 = 1;
pub const CONTROL: u8 = 2;
pub const ALT: u8 = 4;

/// A key press: its code, its modifier bits, and the text it generated
/// (when the terminal reports one).
#[derive(Debug, Clone, PartialEq, Eq)]
pub struct TerminalKey {
    pub code: KeyCode,
    pub modifiers: u8,
    pub generated_text: Option<String>,
}

impl TerminalKey {
    /// A key press with no generated text.
    pub fn new(code: KeyCode, modifiers: u8) -> (key: Self)
        ensures
            key.code == code,
            key.modifiers == modifiers,
            key.generated_text is None,
    {
        TerminalKey { code, modifiers, generated_text: None }
    }
}

/// How a binding is reached: directly, or after the prefix key.
#[derive(Debug, Clone, Copy, PartialEq, Eq, Structural)]
pub enum KeybindDispatch {
    Direct,
    Prefix,
}

/// One key bound to an action: the key and modifiers, how it is reached,
/// and whether it opted in to repeating.
#[derive(Debug, Clone, Copy, PartialEq, Eq, Structural)]
pub struct KeyBinding {
    pub dispatch: KeybindDispatch,
    pub code: KeyCode,
    pub modifiers: u8,
    pub repeat: bool,
}

/// The bindings of one action.
#[derive(Debug, Clone, PartialEq, Eq)]
pub struct ActionKeybinds {
    pub bindings: Vec<KeyBinding>,
}

/// A custom command bound to keys.
#[derive(Debug, Clone, PartialEq, Eq)]
pub struct CustomCommandKeybind {
    pub bindings: ActionKeybinds,
    pub command: String,
}

/// An indexed binding: reached by `dispatch` with `modifiers`; the n-th of
/// `keys` selects index n.
#[derive(Debug, Clone, PartialEq, Eq)]
pub struct IndexedKeybind {
    pub dispatch: KeybindDispatch,
    pub modifiers: u8,
    pub keys: Vec<KeyCode>,
}

/// A resolved binding.
#[derive(Debug, Clone, PartialEq, Eq)]
pub enum KeybindMatch {
    Action(KeybindAction),
    Command(CustomCommandKeybind),
}

/// The value of a [`KeybindMatch`].
pub enum MatchModel {
    Action(KeybindAction),
    Command { bindings: Seq<KeyBinding>, command: Seq<char> },
}

pub open spec fn command_model(c: CustomCommandKeybind) -> MatchModel {
    MatchModel::Command { bindings: c.bindings.bindings@, command: c.command@ }
}

pub open spec fn match_model(m: KeybindMatch) -> MatchModel {
    match m {
        KeybindMatch::Action(a) => MatchModel::Action(a),
        KeybindMatch::Command(c) => command_model(c),
    }
}

/// A resolved binding plus whether it opted in to repeating.
#[derive(Debug, Clone, PartialEq, Eq)]
pub struct PrefixKeybindMatch {
    pub binding: KeybindMatch,
    pub repeatable: bool,
}

/// An action a key binding triggers.
#[derive(Debug, Clone, Copy, PartialEq, Eq, Structural)]
pub enum KeybindAction {
    NewWorkspace,
    NewWorktree,
    OpenWorktree,
    RemoveWorktree,
    RenameWorkspace,
    CloseWorkspace,
    SwitchWorkspace(usize),
    SwitchTab(usize),
    FocusAgent(usize),
    WorkspacePicker,
    PreviousWorkspace,
    NextWorkspace,
    PreviousAgent,
    NextAgent,
    NewTab,
    RenameTab,
    PreviousTab,
    NextTab,
    MoveTabPrevious,
    MoveTabNext,
    CloseTab,
    RenamePane,
    FocusPaneLeft,
    FocusPaneDown,
    FocusPaneUp,
    FocusPaneRight,
    SwapPaneLeft,
    SwapPaneDown,
    SwapPaneUp,
    SwapPaneRight,
    SplitVertical,
    SplitHorizontal,
    ClosePane,
    EditScrollback,
    CopyMode,
    Zoom,
    EnterResizeMode,
    ResizePaneLeft,
    ResizePaneDown,
    ResizePaneUp,
    ResizePaneRight,
    ToggleSidebar,
    CyclePaneNext,
    CyclePanePrevious,
    LastPane,
    Help,
    Settings,
    ReloadConfig,
    OpenNotificationTarget,
    Detach,
    OpenNavigator,
    ToggleAgentMark,
}

/// The key bindings of every action, custom command and indexed action.
#[derive(Debug, Clone, PartialEq, Eq)]
pub struct Keybinds {
    pub help: ActionKeybinds,
    pub settings: ActionKeybinds,
    pub workspace_picker: ActionKeybinds,
    pub new_workspace: ActionKeybinds,
    pub new_worktree: ActionKeybinds,
    pub open_worktree: ActionKeybinds,
    pub remove_worktree: ActionKeybinds,
    pub rename_workspace: ActionKeybinds,
    pub close_workspace: ActionKeybinds,
    pub previous_workspace: ActionKeybinds,
    pub next_workspace: ActionKeybinds,
    pub previous_agent: ActionKeybinds,
    pub next_agent: ActionKeybinds,
    pub new_tab: ActionKeybinds,
    pub rename_tab: ActionKeybinds,
    pub previous_tab: ActionKeybinds,
    pub next_tab: ActionKeybinds,
    pub move_tab_previous: ActionKeybinds,
    pub move_tab_next: ActionKeybinds,
    pub close_tab: ActionKeybinds,
    pub rename_pane: ActionKeybinds,
    pub edit_scrollback: ActionKeybinds,
    pub copy_mode: ActionKeybinds,
    pub focus_pane_left: ActionKeybinds,
    pub focus_pane_down: ActionKeybinds,
    pub focus_pane_up: ActionKeybinds,
    pub focus_pane_right: ActionKeybinds,
    pub swap_pane_left: ActionKeybinds,
    pub swap_pane_down: ActionKeybinds,
    pub swap_pane_up: ActionKeybinds,
    pub swap_pane_right: ActionKeybinds,
    pub last_pane: ActionKeybinds,
    pub cycle_pane_next: ActionKeybinds,
    pub cycle_pane_previous: ActionKeybinds,
    pub split_vertical: ActionKeybinds,
    pub split_horizontal: ActionKeybinds,
    pub close_pane: ActionKeybinds,
    pub zoom: ActionKeybinds,
    pub resize_mode: ActionKeybinds,
    pub resize_pane_left: ActionKeybinds,
    pub resize_pane_down: ActionKeybinds,
    pub resize_pane_up: ActionKeybinds,
    pub resize_pane_right: ActionKeybinds,
    pub toggle_sidebar: ActionKeybinds,
    pub reload_config: ActionKeybinds,
    pub open_notification_target: ActionKeybinds,
    pub detach: ActionKeybinds,
    pub goto: ActionKeybinds,
    pub toggle_mark: ActionKeybinds,
    pub custom_commands: Vec<CustomCommandKeybind>,
    pub switch_tab: Vec<IndexedKeybind>,
    pub switch_workspace: Vec<IndexedKeybind>,
    pub focus_agent: Vec<IndexedKeybind>,
}

/// The number of non-indexed actions.
pub const ACTION_COUNT: usize = 49;

/// The non-indexed actions with their bindings, in the order the resolver
/// scans them: the first whose bindings match wins.
pub open spec fn action_table(kb: Keybinds) -> Seq<(ActionKeybinds, KeybindAction)> {
    seq![
        (kb.help, KeybindAction::Help),
        (kb.settings, KeybindAction::Settings),
        (kb.workspace_picker, KeybindAction::WorkspacePicker),
        (kb.new_workspace, KeybindAction::NewWorkspace),
        (kb.new_worktree, KeybindAction::NewWorktree),
        (kb.open_worktree, KeybindAction::OpenWorktree),
        (kb.remove_worktree, KeybindAction::RemoveWorktree),
        (kb.rename_workspace, KeybindAction::RenameWorkspace),
        (kb.close_workspace, KeybindAction::CloseWorkspace),
        (kb.previous_workspace, KeybindAction::PreviousWorkspace),
        (kb.next_workspace, KeybindAction::NextWorkspace),
        (kb.previous_agent, KeybindAction::PreviousAgent),
        (kb.next_agent, KeybindAction::NextAgent),
        (kb.new_tab, KeybindAction::NewTab),
        (kb.rename_tab, KeybindAction::RenameTab),
        (kb.previous_tab, KeybindAction::PreviousTab),
        (kb.next_tab, KeybindAction::NextTab),
        (kb.move_tab_previous, KeybindAction::MoveTabPrevious),
        (kb.move_tab_next, KeybindAction::MoveTabNext),
        (kb.close_tab, KeybindAction::CloseTab),
        (kb.rename_pane, KeybindAction::RenamePane),
        (kb.edit_scrollback, KeybindAction::EditScrollback),
        (kb.copy_mode, KeybindAction::CopyMode),
        (kb.focus_pane_left, KeybindAction::FocusPaneLeft),
        (kb.focus_pane_down, KeybindAction::FocusPaneDown),
        (kb.focus_pane_up, KeybindAction::FocusPaneUp),
        (kb.focus_pane_right, KeybindAction::FocusPaneRight),
        (kb.swap_pane_left, KeybindAction::SwapPaneLeft),
        (kb.swap_pane_down, KeybindAction::SwapPaneDown),
        (kb.swap_pane_up, KeybindAction::SwapPaneUp),
        (kb.swap_pane_right, KeybindAction::SwapPaneRight),
        (kb.last_pane, KeybindAction::LastPane),
        (kb.cycle_pane_next, KeybindAction::CyclePaneNext),
        (kb.cycle_pane_previous, KeybindAction::CyclePanePrevious),
        (kb.split_vertical, KeybindAction::SplitVertical),
        (kb.split_horizontal, KeybindAction::SplitHorizontal),
        (kb.close_pane, KeybindAction::ClosePane),
        (kb.zoom, KeybindAction::Zoom),
        (kb.resize_mode, KeybindAction::EnterResizeMode),
        (kb.resize_pane_left, KeybindAction::ResizePaneLeft),
        (kb.resize_pane_down, KeybindAction::ResizePaneDown),
        (kb.resize_pane_up, KeybindAction::ResizePaneUp),
        (kb.resize_pane_right, KeybindAction::ResizePaneRight),
        (kb.toggle_sidebar, KeybindAction::ToggleSidebar),
        (kb.reload_config, KeybindAction::ReloadConfig),
        (kb.open_notification_target, KeybindAction::OpenNotificationTarget),
        (kb.detach, KeybindAction::Detach),
        (kb.goto, KeybindAction::OpenNavigator),
        (kb.toggle_mark, KeybindAction::ToggleAgentMark),
    ]
}

/// Entry `i` of [`action_table`].
fn table_entry(kb: &Keybinds, i: usize) -> (entry: (&ActionKeybinds, KeybindAction))
    requires
        i < ACTION_COUNT,
    ensures
        *entry.0 == action_table(*kb)[i as int].0,
        entry.1 == action_table(*kb)[i as int].1,
{
    match i {
        0 => (&kb.help, KeybindAction::Help),
        1 => (&kb.settings, KeybindAction::Settings),
        2 => (&kb.workspace_picker, KeybindAction::WorkspacePicker),
        3 => (&kb.new_workspace, KeybindAction::NewWorkspace),
        4 => (&kb.new_worktree, KeybindAction::NewWorktree),
        5 => (&kb.open_worktree, KeybindAction::OpenWorktree),
        6 => (&kb.remove_worktree, KeybindAction::RemoveWorktree),
        7 => (&kb.rename_workspace, KeybindAction::RenameWorkspace),
        8 => (&kb.close_workspace, KeybindAction::CloseWorkspace),
        9 => (&kb.previous_workspace, KeybindAction::PreviousWorkspace),
        10 => (&kb.next_workspace, KeybindAction::NextWorkspace),
        11 => (&kb.previous_agent, KeybindAction::PreviousAgent),
        12 => (&kb.next_agent, KeybindAction::NextAgent),
        13 => (&kb.new_tab, KeybindAction::NewTab),
        14 => (&kb.rename_tab, KeybindAction::RenameTab),
        15 => (&kb.previous_tab, KeybindAction::PreviousTab),
        16 => (&kb.next_tab, KeybindAction::NextTab),
        17 => (&kb.move_tab_previous, KeybindAction::MoveTabPrevious),
        18 => (&kb.move_tab_next, KeybindAction::MoveTabNext),
        19 => (&kb.close_tab, KeybindAction::CloseTab),
        20 => (&kb.rename_pane, KeybindAction::RenamePane),
        21 => (&kb.edit_scrollback, KeybindAction::EditScrollback),
        22 => (&kb.copy_mode, KeybindAction::CopyMode),
        23 => (&kb.focus_pane_left, KeybindAction::FocusPaneLeft),
        24 => (&kb.focus_pane_down, KeybindAction::FocusPaneDown),
        25 => (&kb.focus_pane_up, KeybindAction::FocusPaneUp),
        26 => (&kb.focus_pane_right, KeybindAction::FocusPaneRight),
        27 => (&kb.swap_pane_left, KeybindAction::SwapPaneLeft),
        28 => (&kb.swap_pane_down, KeybindAction::SwapPaneDown),
        29 => (&kb.swap_pane_up, KeybindAction::SwapPaneUp),
        30 => (&kb.swap_pane_right, KeybindAction::SwapPaneRight),
        31 => (&kb.last_pane, KeybindAction::LastPane),
        32 => (&kb.cycle_pane_next, KeybindAction::CyclePaneNext),
        33 => (&kb.cycle_pane_previous, KeybindAction::CyclePanePrevious),
        34 => (&kb.split_vertical, KeybindAction::SplitVertical),
        35 => (&kb.split_horizontal, KeybindAction::SplitHorizontal),
        36 => (&kb.close_pane, KeybindAction::ClosePane),
        37 => (&kb.zoom, KeybindAction::Zoom),
        38 => (&kb.resize_mode, KeybindAction::EnterResizeMode),
        39 => (&kb.resize_pane_left, KeybindAction::ResizePaneLeft),
        40 => (&kb.resize_pane_down, KeybindAction::ResizePaneDown),
        41 => (&kb.resize_pane_up, KeybindAction::ResizePaneUp),
        42 => (&kb.resize_pane_right, KeybindAction::ResizePaneRight),
        43 => (&kb.toggle_sidebar, KeybindAction::ToggleSidebar),
        44 => (&kb.reload_config, KeybindAction::ReloadConfig),
        45 => (&kb.open_notification_target, KeybindAction::OpenNotificationTarget),
        46 => (&kb.detach, KeybindAction::Detach),
        47 => (&kb.goto, KeybindAction::OpenNavigator),
        _ => (&kb.toggle_mark, KeybindAction::ToggleAgentMark),
    }
}

impl Keybinds {
    /// Keybinds with nothing bound.
    pub fn unbound() -> (kb: Self)
        ensures
            kb.help.bindings@.len() == 0,
            kb.settings.bindings@.len() == 0,
            kb.workspace_picker.bindings@.len() == 0,
            kb.new_workspace.bindings@.len() == 0,
            kb.new_worktree.bindings@.len() == 0,
            kb.open_worktree.bindings@.len() == 0,
            kb.remove_worktree.bindings@.len() == 0,
            kb.rename_workspace.bindings@.len() == 0,
            kb.close_workspace.bindings@.len() == 0,
            kb.previous_workspace.bindings@.len() == 0,
            kb.next_workspace.bindings@.len() == 0,
            kb.previous_agent.bindings@.len() == 0,
            kb.next_agent.bindings@.len() == 0,
            kb.new_tab.bindings@.len() == 0,
            kb.rename_tab.bindings@.len() == 0,
            kb.previous_tab.bindings@.len() == 0,
            kb.next_tab.bindings@.len() == 0,
            kb.move_tab_previous.bindings@.len() == 0,
            kb.move_tab_next.bindings@.len() == 0,
            kb.close_tab.bindings@.len() == 0,
            kb.rename_pane.bindings@.len() == 0,
            kb.edit_scrollback.bindings@.len() == 0,
            kb.copy_mode.bindings@.len() == 0,
            kb.focus_pane_left.bindings@.len() == 0,
            kb.focus_pane_down.bindings@.len() == 0,
            kb.focus_pane_up.bindings@.len() == 0,
            kb.focus_pane_right.bindings@.len() == 0,
            kb.swap_pane_left.bindings@.len() == 0,
            kb.swap_pane_down.bindings@.len() == 0,
            kb.swap_pane_up.bindings@.len() == 0,
            kb.swap_pane_right.bindings@.len() == 0,
            kb.last_pane.bindings@.len() == 0,
            kb.cycle_pane_next.bindings@.len() == 0,
            kb.cycle_pane_previous.bindings@.len() == 0,
            kb.split_vertical.bindings@.len() == 0,
            kb.split_horizontal.bindings@.len() == 0,
            kb.close_pane.bindings@.len() == 0,
            kb.zoom.bindings@.len() == 0,
            kb.resize_mode.bindings@.len() == 0,
            kb.resize_pane_left.bindings@.len() == 0,
            kb.resize_pane_down.bindings@.len() == 0,
            kb.resize_pane_up.bindings@.len() == 0,
            kb.resize_pane_right.bindings@.len() == 0,
            kb.toggle_sidebar.bindings@.len() == 0,
            kb.reload_config.bindings@.len() == 0,
            kb.open_notification_target.bindings@.len() == 0,
            kb.detach.bindings@.len() == 0,
            kb.goto.bindings@.len() == 0,
            kb.toggle_mark.bindings@.len() == 0,
            kb.custom_commands@.len() == 0,
            kb.switch_tab@.len() == 0,
            kb.switch_workspace@.len() == 0,
            kb.focus_agent@.len() == 0,
    {
        Keybinds {
            help: ActionKeybinds { bindings: Vec::new() },
            settings: ActionKeybinds { bindings: Vec::new() },
            workspace_picker: ActionKeybinds { bindings: Vec::new() },
            new_workspace: ActionKeybinds { bindings: Vec::new() },
            new_worktree: ActionKeybinds { bindings: Vec::new() },
            open_worktree: ActionKeybinds { bindings: Vec::new() },
            remove_worktree: ActionKeybinds { bindings: Vec::new() },
            rename_workspace: ActionKeybinds { bindings: Vec::new() },
            close_workspace: ActionKeybinds { bindings: Vec::new() },
            previous_workspace: ActionKeybinds { bindings: Vec::new() },
            next_workspace: ActionKeybinds { bindings: Vec::new() },
            previous_agent: ActionKeybinds { bindings: Vec::new() },
            next_agent: ActionKeybinds { bindings: Vec::new() },
            new_tab: ActionKeybinds { bindings: Vec::new() },
            rename_tab: ActionKeybinds { bindings: Vec::new() },
            previous_tab: ActionKeybinds { bindings: Vec::new() },
            next_tab: ActionKeybinds { bindings: Vec::new() },
            move_tab_previous: ActionKeybinds { bindings: Vec::new() },
            move_tab_next: ActionKeybinds { bindings: Vec::new() },
            close_tab: ActionKeybinds { bindings: Vec::new() },
            rename_pane: ActionKeybinds { bindings: Vec::new() },
            edit_scrollback: ActionKeybinds { bindings: Vec::new() },
            copy_mode: ActionKeybinds { bindings: Vec::new() },
            focus_pane_left: ActionKeybinds { bindings: Vec::new() },
            focus_pane_down: ActionKeybinds { bindings: Vec::new() },
            focus_pane_up: ActionKeybinds { bindings: Vec::new() },
            focus_pane_right: ActionKeybinds { bindings: Vec::new() },
            swap_pane_left: ActionKeybinds { bindings: Vec::new() },
            swap_pane_down: ActionKeybinds { bindings: Vec::new() },
            swap_pane_up: ActionKeybinds { bindings: Vec::new() },
            swap_pane_right: ActionKeybinds { bindings: Vec::new() },
            last_pane: ActionKeybinds { bindings: Vec::new() },
            cycle_pane_next: ActionKeybinds { bindings: Vec::new() },
            cycle_pane_previous: ActionKeybinds { bindings: Vec::new() },
            split_vertical: ActionKeybinds { bindings: Vec::new() },
            split_horizontal: ActionKeybinds { bindings: Vec::new() },
            close_pane: ActionKeybinds { bindings: Vec::new() },
            zoom: ActionKeybinds { bindings: Vec::new() },
            resize_mode: ActionKeybinds { bindings: Vec::new() },
            resize_pane_left: ActionKeybinds { bindings: Vec::new() },
            resize_pane_down: ActionKeybinds { bindings: Vec::new() },
            resize_pane_up: ActionKeybinds { bindings: Vec::new() },
            resize_pane_right: ActionKeybinds { bindings: Vec::new() },
            toggle_sidebar: ActionKeybinds { bindings: Vec::new() },
            reload_config: ActionKeybinds { bindings: Vec::new() },
            open_notification_target: ActionKeybinds { bindings: Vec::new() },
            detach: ActionKeybinds { bindings: Vec::new() },
            goto: ActionKeybinds { bindings: Vec::new() },
            toggle_mark: ActionKeybinds { bindings: Vec::new() },
            custom_commands: Vec::new(),
            switch_tab: Vec::new(),
            switch_workspace: Vec::new(),
            focus_agent: Vec::new(),
        }
    }
}

// ---------------------------------------------------------------------------
// Matching
// ---------------------------------------------------------------------------

/// The binding is reached by `dispatch` with exactly the key's code and
/// modifiers.
pub open spec fn binding_matches(b: KeyBinding, key: TerminalKey, dispatch: KeybindDispatch) -> bool {
    b.dispatch == dispatch && b.code == key.code && b.modifiers == key.modifiers
}

/// Some binding of the action is reached by the key.
pub open spec fn action_matches_spec(a: ActionKeybinds, key: TerminalKey, dispatch: KeybindDispatch) -> bool {
    exists|i: int| 0 <= i < a.bindings@.len() && binding_matches(#[trigger] a.bindings@[i], key, dispatch)
}

/// Some prefix binding of the action that the key reaches opted in to
/// repeating.
pub open spec fn repeatable_spec(a: ActionKeybinds, key: TerminalKey) -> bool {
    exists|i: int|
        0 <= i < a.bindings@.len() && binding_matches(
            #[trigger] a.bindings@[i],
            key,
            KeybindDispatch::Prefix,
        ) && a.bindings@[i].repeat
}

/// Whether some binding of `bindings` is reached by `key` via `dispatch`.
pub fn action_matches(bindings: &ActionKeybinds, key: &TerminalKey, dispatch: KeybindDispatch) -> (r:
    bool)
    ensures
        r == action_matches_spec(*bindings, *key, dispatch),
{
    let n = bindings.bindings.len();
    let mut i: usize = 0;
    while i < n
        invariant
            n == bindings.bindings@.len(),
            i <= n,
            forall|j: int| 0 <= j < i ==> !binding_matches(#[trigger] bindings.bindings@[j], *key, dispatch),
        decreases n - i,
    {
        let b = bindings.bindings[i];
        if b.dispatch == dispatch && b.code == key.code && b.modifiers == key.modifiers {
            assert(binding_matches(bindings.bindings@[i as int], *key, dispatch));
            return true;
        }
        i = i + 1;
    }
    false
}

/// Whether a prefix binding of `bindings` that `key` reaches opted in to
/// repeating.
pub fn repeatable_for_key(bindings: &ActionKeybinds, key: &TerminalKey) -> (r: bool)
    ensures
        r == repeatable_spec(*bindings, *key),
{
    let n = bindings.bindings.len();
    let mut i: usize = 0;
    while i < n
        invariant
            n == bindings.bindings@.len(),
            i <= n,
            forall|j: int|
                0 <= j < i ==> !(binding_matches(
                    #[trigger] bindings.bindings@[j],
                    *key,
                    KeybindDispatch::Prefix,
                ) && bindings.bindings@[j].repeat),
        decreases n - i,
    {
        let b = bindings.bindings[i];
        if b.dispatch == KeybindDispatch::Prefix && b.code == key.code && b.modifiers == key.modifiers
            && b.repeat {
            assert(binding_matches(bindings.bindings@[i as int], *key, KeybindDispatch::Prefix));
            return true;
        }
        i = i + 1;
    }
    false
}

// ---------------------------------------------------------------------------
// Named actions
// ---------------------------------------------------------------------------

/// The first table entry from `k` on whose bindings the key reaches.
pub open spec fn first_action_from(kb: Keybinds, key: TerminalKey, dispatch: KeybindDispatch, k: int) -> Option<
    int,
>
    decreases ACTION_COUNT - k,
{
    if k < 0 || k >= ACTION_COUNT {
        None
    } else if action_matches_spec(action_table(kb)[k].0, key, dispatch) {
        Some(k)
    } else {
        first_action_from(kb, key, dispatch, k + 1)
    }
}

/// The table entry a key resolves to: the first whose bindings it reaches.
pub open spec fn non_indexed_spec(kb: Keybinds, key: TerminalKey, dispatch: KeybindDispatch) -> Option<
    int,
> {
    first_action_from(kb, key, dispatch, 0)
}

proof fn lemma_first_action_bound(kb: Keybinds, key: TerminalKey, dispatch: KeybindDispatch, k: int)
    requires
        0 <= k,
    ensures
        first_action_from(kb, key, dispatch, k) matches Some(i) ==> k <= i < ACTION_COUNT,
    decreases ACTION_COUNT - k,
{
    if k < ACTION_COUNT && !action_matches_spec(action_table(kb)[k].0, key, dispatch) {
        lemma_first_action_bound(kb, key, dispatch, k + 1);
    }
}

/// The table entry (its position in [`action_table`]) of the first named
/// action whose bindings the key reaches. Two actions on one key are not
/// reported as a conflict: the later one never fires.
pub fn resolve_non_indexed_binding(kb: &Keybinds, key: &TerminalKey, dispatch: KeybindDispatch) -> (found:
    Option<usize>)
    ensures
        found is Some ==> found->0 < ACTION_COUNT && non_indexed_spec(*kb, *key, dispatch) == Some(
            found->0 as int,
        ),
        found is None ==> non_indexed_spec(*kb, *key, dispatch) is None,
{
    proof {
        lemma_first_action_bound(*kb, *key, dispatch, 0);
    }
    let mut k: usize = ACTION_COUNT;
    let mut found: Option<usize> = None;
    while k > 0
        invariant
            k <= ACTION_COUNT,
            found is Some ==> found->0 < ACTION_COUNT && first_action_from(*kb, *key, dispatch, k as int)
                == Some(found->0 as int),
            found is None ==> first_action_from(*kb, *key, dispatch, k as int) is None,
        decreases k,
    {
        k = k - 1;
        let (bindings, _action) = table_entry(kb, k);
        if action_matches(bindings, key, dispatch) {
            found = Some(k);
        }
    }
    found
}

/// The named action a key resolves to.
pub open spec fn non_indexed_action_spec(kb: Keybinds, key: TerminalKey, dispatch: KeybindDispatch) -> Option<
    KeybindAction,
> {
    match non_indexed_spec(kb, key, dispatch) {
        Some(i) => Some(action_table(kb)[i].1),
        None => None,
    }
}

/// The named action a key resolves to, per [`non_indexed_action_spec`].
pub fn resolve_non_indexed_action(kb: &Keybinds, key: &TerminalKey, dispatch: KeybindDispatch) -> (action:
    Option<KeybindAction>)
    ensures
        action == non_indexed_action_spec(*kb, *key, dispatch),
{
    match resolve_non_indexed_binding(kb, key, dispatch) {
        Some(i) => {
            let (_, action) = table_entry(kb, i);
            Some(action)
        },
        None => None,
    }
}

// ---------------------------------------------------------------------------
// Custom commands
// ---------------------------------------------------------------------------

/// The first custom command from `k` on whose bindings the key reaches.
pub open spec fn first_command_from(
    commands: Seq<CustomCommandKeybind>,
    key: TerminalKey,
    dispatch: KeybindDispatch,
    k: int,
) -> Option<int>
    decreases commands.len() - k,
{
    if k < 0 || k >= commands.len() {
        None
    } else if action_matches_spec(commands[k].bindings, key, dispatch) {
        Some(k)
    } else {
        first_command_from(commands, key, dispatch, k + 1)
    }
}

/// The custom command a key resolves to.
pub open spec fn custom_command_spec(kb: Keybinds, key: TerminalKey, dispatch: KeybindDispatch) -> Option<
    CustomCommandKeybind,
> {
    match first_command_from(kb.custom_commands@, key, dispatch, 0) {
        Some(i) => Some(kb.custom_commands@[i]),
        None => None,
    }
}

proof fn lemma_first_command_bound(
    commands: Seq<CustomCommandKeybind>,
    key: TerminalKey,
    dispatch: KeybindDispatch,
    k: int,
)
    requires
        0 <= k,
    ensures
        first_command_from(commands, key, dispatch, k) matches Some(i) ==> k <= i < commands.len(),
    decreases commands.len() - k,
{
    if k < commands.len() && !action_matches_spec(commands[k].bindings, key, dispatch) {
        lemma_first_command_bound(commands, key, dispatch, k + 1);
    }
}

fn copy_command(c: &CustomCommandKeybind) -> (r: CustomCommandKeybind)
    ensures
        command_model(r) == command_model(*c),
{
    let n = c.bindings.bindings.len();
    let mut bindings: Vec<KeyBinding> = Vec::new();
    let mut i: usize = 0;
    while i < n
        invariant
            n == c.bindings.bindings@.len(),
            i <= n,
            bindings@ == c.bindings.bindings@.subrange(0, i as int),
        decreases n - i,
    {
        bindings.push(c.bindings.bindings[i]);
        i = i + 1;
        assert(bindings@ =~= c.bindings.bindings@.subrange(0, i as int));
    }
    assert(c.bindings.bindings@.subrange(0, n as int) =~= c.bindings.bindings@);
    let r = CustomCommandKeybind {
        bindings: ActionKeybinds { bindings },
        command: c.command.clone(),
    };
    r
}

/// The first custom command whose bindings the key reaches.
pub fn resolve_custom_command(kb: &Keybinds, key: &TerminalKey, dispatch: KeybindDispatch) -> (command:
    Option<CustomCommandKeybind>)
    ensures
        match custom_command_spec(*kb, *key, dispatch) {
            Some(c) => command is Some && command_model(command->0) == command_model(c),
            None => command is None,
        },
{
    let commands = &kb.custom_commands;
    let n = commands.len();
    proof {
        lemma_first_command_bound(commands@, *key, dispatch, 0);
    }
    let mut k = n;
    let mut found: Option<usize> = None;
    while k > 0
        invariant
            n == commands@.len(),
            k <= n,
            match first_command_from(commands@, *key, dispatch, k as int) {
                Some(i) => found == Some(i as usize),
                None => found is None,
            },
            found is Some ==> found->0 < n,
        decreases k,
    {
        k = k - 1;
        if action_matches(&commands[k].bindings, key, dispatch) {
            found = Some(k);
        }
    }
    match found {
        Some(i) => Some(copy_command(&commands[i])),
        None => None,
    }
}

// ---------------------------------------------------------------------------
// Indexed actions
// ---------------------------------------------------------------------------

/// The kind of an indexed action.
#[derive(Debug, Clone, Copy, PartialEq, Eq, Structural)]
pub enum IndexedKind {
    SwitchTab,
    SwitchWorkspace,
    FocusAgent,
}

pub open spec fn indexed_action(kind: IndexedKind, index: usize) -> KeybindAction {
    match kind {
        IndexedKind::SwitchTab => KeybindAction::SwitchTab(index),
        IndexedKind::SwitchWorkspace => KeybindAction::SwitchWorkspace(index),
        IndexedKind::FocusAgent => KeybindAction::FocusAgent(index),
    }
}

/// The indexed bindings in the order they are tried: switching tabs, then
/// workspaces, then focusing agents.
pub open spec fn indexed_table(kb: Keybinds) -> Seq<(IndexedKeybind, IndexedKind)> {
    kb.switch_tab@.map_values(|b: IndexedKeybind| (b, IndexedKind::SwitchTab)) + kb.switch_workspace@.map_values(
        |b: IndexedKeybind| (b, IndexedKind::SwitchWorkspace),
    ) + kb.focus_agent@.map_values(|b: IndexedKeybind| (b, IndexedKind::FocusAgent))
}

/// The position of the key's code among the binding's keys.
pub open spec fn matched_index_from(b: IndexedKeybind, key: TerminalKey, k: int) -> Option<int>
    decreases b.keys@.len() - k,
{
    if k < 0 || k >= b.keys@.len() {
        None
    } else if b.keys@[k] == key.code {
        Some(k)
    } else {
        matched_index_from(b, key, k + 1)
    }
}

/// The binding is reached by `dispatch`, and its modifiers equal the key's
/// exactly when `exact` is set (differ otherwise).
pub open spec fn trigger_matches(b: IndexedKeybind, key: TerminalKey, dispatch: KeybindDispatch, exact: bool) -> bool {
    b.dispatch == dispatch && (key.modifiers == b.modifiers) == exact
}

/// The first indexed binding from `k` on that the key triggers and selects
/// an index of.
pub open spec fn first_indexed_from(
    table: Seq<(IndexedKeybind, IndexedKind)>,
    key: TerminalKey,
    dispatch: KeybindDispatch,
    exact: bool,
    k: int,
) -> Option<KeybindAction>
    decreases table.len() - k,
{
    if k < 0 || k >= table.len() {
        None
    } else if trigger_matches(table[k].0, key, dispatch, exact) && matched_index_from(table[k].0, key, 0) is Some {
        Some(indexed_action(table[k].1, matched_index_from(table[k].0, key, 0)->0 as usize))
    } else {
        first_indexed_from(table, key, dispatch, exact, k + 1)
    }
}

/// The indexed action a key resolves to: bindings whose modifiers match
/// exactly are tried first, the others after.
pub open spec fn indexed_spec(kb: Keybinds, key: TerminalKey, dispatch: KeybindDispatch) -> Option<KeybindAction> {
    match first_indexed_from(indexed_table(kb), key, dispatch, true, 0) {
        Some(a) => Some(a),
        None => first_indexed_from(indexed_table(kb), key, dispatch, false, 0),
    }
}

fn matched_index(b: &IndexedKeybind, key: &TerminalKey) -> (found: Option<usize>)
    ensures
        match matched_index_from(*b, *key, 0) {
            Some(i) => found == Some(i as usize),
            None => found is None,
        },
{
    let n = b.keys.len();
    let mut k = n;
    let mut found: Option<usize> = None;
    while k > 0
        invariant
            n == b.keys@.len(),
            k <= n,
            match matched_index_from(*b, *key, k as int) {
                Some(i) => found == Some(i as usize),
                None => found is None,
            },
        decreases k,
    {
        k = k - 1;
        if b.keys[k] == key.code {
            found = Some(k);
        }
    }
    found
}

proof fn lemma_matched_index_bound(b: IndexedKeybind, key: TerminalKey, k: int)
    requires
        0 <= k,
    ensures
        matched_index_from(b, key, k) matches Some(i) ==> k <= i < b.keys@.len(),
    decreases b.keys@.len() - k,
{
    if k < b.keys@.len() && b.keys@[k] != key.code {
        lemma_matched_index_bound(b, key, k + 1);
    }
}

fn make_indexed_action(kind: IndexedKind, index: usize) -> (action: KeybindAction)
    ensures
        action == indexed_action(kind, index),
{
    match kind {
        IndexedKind::SwitchTab => KeybindAction::SwitchTab(index),
        IndexedKind::SwitchWorkspace => KeybindAction::SwitchWorkspace(index),
        IndexedKind::FocusAgent => KeybindAction::FocusAgent(index),
    }
}

/// Scans `list`, which sits in `table` from position `offset`, from the
/// back; `found_after` is the result for the positions after it.
fn scan_list(
    list: &Vec<IndexedKeybind>,
    kind: IndexedKind,
    key: &TerminalKey,
    dispatch: KeybindDispatch,
    exact: bool,
    Ghost(table): Ghost<Seq<(IndexedKeybind, IndexedKind)>>,
    Ghost(offset): Ghost<int>,
    found_after: Option<KeybindAction>,
) -> (found: Option<KeybindAction>)
    requires
        0 <= offset,
        offset + list@.len() <= table.len(),
        forall|j: int| 0 <= j < list@.len() ==> #[trigger] table[offset + j] == (list@[j], kind),
        found_after == first_indexed_from(table, *key, dispatch, exact, offset + list@.len()),
    ensures
        found == first_indexed_from(table, *key, dispatch, exact, offset),
{
    let mut j = list.len();
    let mut found = found_after;
    while j > 0
        invariant
            j <= list@.len(),
            0 <= offset,
            offset + list@.len() <= table.len(),
            forall|i: int| 0 <= i < list@.len() ==> #[trigger] table[offset + i] == (list@[i], kind),
            found == first_indexed_from(table, *key, dispatch, exact, offset + j),
        decreases j,
    {
        j = j - 1;
        let binding = &list[j];
        assert(table[offset + j] == (list@[j as int], kind));
        if binding.dispatch == dispatch && (key.modifiers == binding.modifiers) == exact {
            match matched_index(binding, key) {
                Some(index) => {
                    found = Some(make_indexed_action(kind, index));
                },
                None => {},
            }
        }
    }
    found
}

fn scan_indexed(kb: &Keybinds, key: &TerminalKey, dispatch: KeybindDispatch, exact: bool) -> (action:
    Option<KeybindAction>)
    ensures
        action == first_indexed_from(indexed_table(*kb), *key, dispatch, exact, 0),
{
    let ghost t = indexed_table(*kb);
    let ghost a = kb.switch_tab@.len() as int;
    let ghost b = kb.switch_workspace@.len() as int;
    let ghost c = kb.focus_agent@.len() as int;
    let ghost t1 = kb.switch_tab@.map_values(|b: IndexedKeybind| (b, IndexedKind::SwitchTab));
    let ghost t2 = kb.switch_workspace@.map_values(|b: IndexedKeybind| (b, IndexedKind::SwitchWorkspace));
    let ghost t3 = kb.focus_agent@.map_values(|b: IndexedKeybind| (b, IndexedKind::FocusAgent));
    assert(t == t1 + t2 + t3);
    assert(t.len() == a + b + c);
    assert forall|j: int| 0 <= j < c implies #[trigger] t[a + b + j] == (kb.focus_agent@[j], IndexedKind::FocusAgent) by {
        assert((t1 + t2 + t3)[a + b + j] == t3[j]);
    }
    assert forall|j: int| 0 <= j < b implies #[trigger] t[a + j] == (kb.switch_workspace@[j], IndexedKind::SwitchWorkspace) by {
        assert((t1 + t2 + t3)[a + j] == t2[j]);
    }
    assert forall|j: int| 0 <= j < a implies #[trigger] t[0 + j] == (kb.switch_tab@[j], IndexedKind::SwitchTab) by {
        assert((t1 + t2 + t3)[j] == t1[j]);
    }
    let found = scan_list(&kb.focus_agent, IndexedKind::FocusAgent, key, dispatch, exact, Ghost(t), Ghost(a + b), None);
    let found = scan_list(&kb.switch_workspace, IndexedKind::SwitchWorkspace, key, dispatch, exact, Ghost(t), Ghost(a), found);
    scan_list(&kb.switch_tab, IndexedKind::SwitchTab, key, dispatch, exact, Ghost(t), Ghost(0int), found)
}

/// The indexed action a key resolves to, per [`indexed_spec`].
pub fn resolve_indexed_action(kb: &Keybinds, key: &TerminalKey, dispatch: KeybindDispatch) -> (action:
    Option<KeybindAction>)
    ensures
        action == indexed_spec(*kb, *key, dispatch),
{
    match scan_indexed(kb, key, dispatch, true) {
        Some(action) => Some(action),
        None => scan_indexed(kb, key, dispatch, false),
    }
}

// ---------------------------------------------------------------------------
// Resolution
// ---------------------------------------------------------------------------

/// What a key resolves to via `dispatch`: a named action (repeatable only
/// in prefix mode, when its matching binding opted in), else a custom
/// command, else an indexed action (neither ever repeatable).
pub open spec fn exact_spec(kb: Keybinds, key: TerminalKey, dispatch: KeybindDispatch) -> Option<
    (MatchModel, bool),
> {
    match non_indexed_spec(kb, key, dispatch) {
        Some(i) => Some(
            (
                MatchModel::Action(action_table(kb)[i].1),
                dispatch == KeybindDispatch::Prefix && repeatable_spec(action_table(kb)[i].0, key),
            ),
        ),
        None => match custom_command_spec(kb, key, dispatch) {
            Some(c) => Some((command_model(c), false)),
            None => match indexed_spec(kb, key, dispatch) {
                Some(a) => Some((MatchModel::Action(a), false)),
                None => None,
            },
        },
    }
}

pub open spec fn prefix_match_model(m: PrefixKeybindMatch) -> (MatchModel, bool) {
    (match_model(m.binding), m.repeatable)
}

/// What a key resolves to via `dispatch`, with its repeat opt-in, per
/// [`exact_spec`].
pub fn resolve_exact_binding_with_repeat(kb: &Keybinds, key: &TerminalKey, dispatch: KeybindDispatch) -> (resolved:
    Option<PrefixKeybindMatch>)
    ensures
        match exact_spec(*kb, *key, dispatch) {
            Some(m) => resolved is Some && prefix_match_model(resolved->0) == m,
            None => resolved is None,
        },
{
    match resolve_non_indexed_binding(kb, key, dispatch) {
        Some(i) => {
            let (bindings, action) = table_entry(kb, i);
            let repeatable = dispatch == KeybindDispatch::Prefix && repeatable_for_key(bindings, key);
            return Some(PrefixKeybindMatch { binding: KeybindMatch::Action(action), repeatable });
        },
        None => {},
    }
    match resolve_custom_command(kb, key, dispatch) {
        Some(command) => Some(PrefixKeybindMatch { binding: KeybindMatch::Command(command), repeatable: false }),
        None => match resolve_indexed_action(kb, key, dispatch) {
            Some(action) => Some(PrefixKeybindMatch { binding: KeybindMatch::Action(action), repeatable: false }),
            None => None,
        },
    }
}

/// What a key resolves to via `dispatch`.
pub fn resolve_exact_binding(kb: &Keybinds, key: &TerminalKey, dispatch: KeybindDispatch) -> (binding:
    Option<KeybindMatch>)
    ensures
        match exact_spec(*kb, *key, dispatch) {
            Some(m) => binding is Some && match_model(binding->0) == m.0,
            None => binding is None,
        },
{
    match resolve_exact_binding_with_repeat(kb, key, dispatch) {
        Some(resolved) => Some(resolved.binding),
        None => None,
    }
}

/// What a directly dispatched key resolves to.
pub fn resolve_direct_binding(kb: &Keybinds, key: &TerminalKey) -> (binding: Option<KeybindMatch>)
    ensures
        match exact_spec(*kb, *key, KeybindDispatch::Direct) {
            Some(m) => binding is Some && match_model(binding->0) == m.0,
            None => binding is None,
        },
{
    resolve_exact_binding(kb, key, KeybindDispatch::Direct)
}

/// A control character (Unicode category Cc).
pub open spec fn is_control_spec(c: char) -> bool {
    (c as u32) < 0x20 || (0x7f <= (c as u32) && (c as u32) <= 0x9f)
}

fn is_control(c: char) -> (r: bool)
    ensures
        r == is_control_spec(c),
{
    let v = c as u32;
    v < 0x20 || (0x7f <= v && v <= 0x9f)
}

/// The key a press stands for by the text it generated: exactly one
/// character that is not a control character, as a bare key.
pub open spec fn generated_key_spec(key: TerminalKey) -> Option<TerminalKey> {
    match key.generated_text {
        Some(text) => if text@.len() == 1 && !is_control_spec(text@[0]) {
            Some(TerminalKey { code: KeyCode::Char(text@[0]), modifiers: 0, generated_text: None })
        } else {
            None
        },
        None => None,
    }
}

fn generated_character_key(key: &TerminalKey) -> (generated: Option<TerminalKey>)
    ensures
        generated == generated_key_spec(*key),
{
    match &key.generated_text {
        Some(text) => {
            let n = text.unicode_len();
            if n != 1 {
                return None;
            }
            let character = text.get_char(0);
            if is_control(character) {
                return None;
            }
            Some(TerminalKey::new(KeyCode::Char(character), 0))
        },
        None => None,
    }
}

/// What a key resolves to in prefix mode: what it reaches itself, else what
/// the character it generated reaches (and that key decides the repeat).
pub open spec fn prefix_spec(kb: Keybinds, key: TerminalKey) -> Option<(MatchModel, bool)> {
    match exact_spec(kb, key, KeybindDispatch::Prefix) {
        Some(m) => Some(m),
        None => match generated_key_spec(key) {
            Some(g) => exact_spec(kb, g, KeybindDispatch::Prefix),
            None => None,
        },
    }
}

/// Resolves a prefix-dispatched key, reporting whether it opted in to
/// repeat, per [`prefix_spec`].
pub fn resolve_prefix_binding_with_repeat(kb: &Keybinds, key: &TerminalKey) -> (resolved: Option<
    PrefixKeybindMatch,
>)
    ensures
        match prefix_spec(*kb, *key) {
            Some(m) => resolved is Some && prefix_match_model(resolved->0) == m,
            None => resolved is None,
        },
{
    match resolve_exact_binding_with_repeat(kb, key, KeybindDispatch::Prefix) {
        Some(resolved) => Some(resolved),
        None => match generated_character_key(key) {
            Some(generated) => resolve_exact_binding_with_repeat(kb, &generated, KeybindDispatch::Prefix),
            None => None,
        },
    }
}

// ---------------------------------------------------------------------------
// Laws
// ---------------------------------------------------------------------------

/// A directly dispatched key never resolves to a repeatable binding.
pub proof fn law_direct_dispatch_never_repeats(kb: Keybinds, key: TerminalKey)
    ensures
        exact_spec(kb, key, KeybindDispatch::Direct) matches Some(m) ==> !m.1,
{
}

/// Custom commands and indexed actions are never repeatable: a repeatable
/// resolution is always a named action whose matching prefix binding opted
/// in.
pub proof fn law_only_named_prefix_actions_repeat(kb: Keybinds, key: TerminalKey, dispatch: KeybindDispatch)
    ensures
        exact_spec(kb, key, dispatch) matches Some(m) && m.1 ==> dispatch == KeybindDispatch::Prefix
            && non_indexed_spec(kb, key, dispatch) is Some && repeatable_spec(
            action_table(kb)[non_indexed_spec(kb, key, dispatch)->0].0,
            key,
        ),
{
}

/// Earlier table entries win: the action a key resolves to is the first
/// whose bindings it reaches, so no earlier action's bindings reach it.
pub proof fn law_first_matching_action_wins(kb: Keybinds, key: TerminalKey, dispatch: KeybindDispatch)
    ensures
        non_indexed_spec(kb, key, dispatch) matches Some(i) ==> action_matches_spec(action_table(kb)[i].0, key, dispatch)
            && forall|j: int| 0 <= j < i ==> !action_matches_spec(#[trigger] action_table(kb)[j].0, key, dispatch),
        non_indexed_spec(kb, key, dispatch) is None ==> forall|j: int|
            0 <= j < ACTION_COUNT ==> !action_matches_spec(#[trigger] action_table(kb)[j].0, key, dispatch),
{
    lemma_first_action_scan(kb, key, dispatch, 0);
}

proof fn lemma_first_action_scan(kb: Keybinds, key: TerminalKey, dispatch: KeybindDispatch, k: int)
    requires
        0 <= k <= ACTION_COUNT,
    ensures
        first_action_from(kb, key, dispatch, k) matches Some(i) ==> k <= i < ACTION_COUNT && action_matches_spec(action_table(kb)[i].0, key, dispatch)
            && forall|j: int| k <= j < i ==> !action_matches_spec(#[trigger] action_table(kb)[j].0, key, dispatch),
        first_action_from(kb, key, dispatch, k) is None ==> forall|j: int|
            k <= j < ACTION_COUNT ==> !action_matches_spec(#[trigger] action_table(kb)[j].0, key, dispatch),
    decreases ACTION_COUNT - k,
{
    if k < ACTION_COUNT && !action_matches_spec(action_table(kb)[k].0, key, dispatch) {
        lemma_first_action_scan(kb, key, dispatch, k + 1);
    }
}


/// The bindings the configuration gives named action `a` (its own field of
/// the keybinds); `None` for the indexed actions, which have no field of
/// their own.
pub open spec fn action_field(kb: Keybinds, a: KeybindAction) -> Option<ActionKeybinds> {
    match a {
        KeybindAction::NewWorkspace => Some(kb.new_workspace),
        KeybindAction::NewWorktree => Some(kb.new_worktree),
        KeybindAction::OpenWorktree => Some(kb.open_worktree),
        KeybindAction::RemoveWorktree => Some(kb.remove_worktree),
        KeybindAction::RenameWorkspace => Some(kb.rename_workspace),
        KeybindAction::CloseWorkspace => Some(kb.close_workspace),
        KeybindAction::SwitchWorkspace(_) => None,
        KeybindAction::SwitchTab(_) => None,
        KeybindAction::FocusAgent(_) => None,
        KeybindAction::WorkspacePicker => Some(kb.workspace_picker),
        KeybindAction::PreviousWorkspace => Some(kb.previous_workspace),
        KeybindAction::NextWorkspace => Some(kb.next_workspace),
        KeybindAction::PreviousAgent => Some(kb.previous_agent),
        KeybindAction::NextAgent => Some(kb.next_agent),
        KeybindAction::NewTab => Some(kb.new_tab),
        KeybindAction::RenameTab => Some(kb.rename_tab),
        KeybindAction::PreviousTab => Some(kb.previous_tab),
        KeybindAction::NextTab => Some(kb.next_tab),
        KeybindAction::MoveTabPrevious => Some(kb.move_tab_previous),
        KeybindAction::MoveTabNext => Some(kb.move_tab_next),
        KeybindAction::CloseTab => Some(kb.close_tab),
        KeybindAction::RenamePane => Some(kb.rename_pane),
        KeybindAction::FocusPaneLeft => Some(kb.focus_pane_left),
        KeybindAction::FocusPaneDown => Some(kb.focus_pane_down),
        KeybindAction::FocusPaneUp => Some(kb.focus_pane_up),
        KeybindAction::FocusPaneRight => Some(kb.focus_pane_right),
        KeybindAction::SwapPaneLeft => Some(kb.swap_pane_left),
        KeybindAction::SwapPaneDown => Some(kb.swap_pane_down),
        KeybindAction::SwapPaneUp => Some(kb.swap_pane_up),
        KeybindAction::SwapPaneRight => Some(kb.swap_pane_right),
        KeybindAction::SplitVertical => Some(kb.split_vertical),
        KeybindAction::SplitHorizontal => Some(kb.split_horizontal),
        KeybindAction::ClosePane => Some(kb.close_pane),
        KeybindAction::EditScrollback => Some(kb.edit_scrollback),
        KeybindAction::CopyMode => Some(kb.copy_mode),
        KeybindAction::Zoom => Some(kb.zoom),
        KeybindAction::EnterResizeMode => Some(kb.resize_mode),
        KeybindAction::ResizePaneLeft => Some(kb.resize_pane_left),
        KeybindAction::ResizePaneDown => Some(kb.resize_pane_down),
        KeybindAction::ResizePaneUp => Some(kb.resize_pane_up),
        KeybindAction::ResizePaneRight => Some(kb.resize_pane_right),
        KeybindAction::ToggleSidebar => Some(kb.toggle_sidebar),
        KeybindAction::CyclePaneNext => Some(kb.cycle_pane_next),
        KeybindAction::CyclePanePrevious => Some(kb.cycle_pane_previous),
        KeybindAction::LastPane => Some(kb.last_pane),
        KeybindAction::Help => Some(kb.help),
        KeybindAction::Settings => Some(kb.settings),
        KeybindAction::ReloadConfig => Some(kb.reload_config),
        KeybindAction::OpenNotificationTarget => Some(kb.open_notification_target),
        KeybindAction::Detach => Some(kb.detach),
        KeybindAction::OpenNavigator => Some(kb.goto),
        KeybindAction::ToggleAgentMark => Some(kb.toggle_mark),
    }
}

proof fn lemma_table_entries_are_their_actions_fields(kb: Keybinds, i: int)
    requires
        0 <= i < ACTION_COUNT,
    ensures
        action_field(kb, action_table(kb)[i].1) == Some(action_table(kb)[i].0),
{
    let t = action_table(kb);
    assert(t.len() == ACTION_COUNT);
    assert(action_field(kb, t[i].1) == Some(t[i].0));
}

proof fn lemma_named_actions_are_in_the_table(kb: Keybinds, a: KeybindAction)
    requires
        action_field(kb, a) is Some,
    ensures
        exists|i: int| 0 <= i < ACTION_COUNT && (#[trigger] action_table(kb)[i]).1 == a,
{
    match a {
        KeybindAction::NewWorkspace => {
            assert(action_table(kb)[3] == (kb.new_workspace, KeybindAction::NewWorkspace));
        },
        KeybindAction::NewWorktree => {
            assert(action_table(kb)[4] == (kb.new_worktree, KeybindAction::NewWorktree));
        },
        KeybindAction::OpenWorktree => {
            assert(action_table(kb)[5] == (kb.open_worktree, KeybindAction::OpenWorktree));
        },
        KeybindAction::RemoveWorktree => {
            assert(action_table(kb)[6] == (kb.remove_worktree, KeybindAction::RemoveWorktree));
        },
        KeybindAction::RenameWorkspace => {
            assert(action_table(kb)[7] == (kb.rename_workspace, KeybindAction::RenameWorkspace));
        },
        KeybindAction::CloseWorkspace => {
            assert(action_table(kb)[8] == (kb.close_workspace, KeybindAction::CloseWorkspace));
        },
        KeybindAction::SwitchWorkspace(_) => {},
        KeybindAction::SwitchTab(_) => {},
        KeybindAction::FocusAgent(_) => {},
        KeybindAction::WorkspacePicker => {
            assert(action_table(kb)[2] == (kb.workspace_picker, KeybindAction::WorkspacePicker));
        },
        KeybindAction::PreviousWorkspace => {
            assert(action_table(kb)[9] == (kb.previous_workspace, KeybindAction::PreviousWorkspace));
        },
        KeybindAction::NextWorkspace => {
            assert(action_table(kb)[10] == (kb.next_workspace, KeybindAction::NextWorkspace));
        },
        KeybindAction::PreviousAgent => {
            assert(action_table(kb)[11] == (kb.previous_agent, KeybindAction::PreviousAgent));
        },
        KeybindAction::NextAgent => {
            assert(action_table(kb)[12] == (kb.next_agent, KeybindAction::NextAgent));
        },
        KeybindAction::NewTab => {
            assert(action_table(kb)[13] == (kb.new_tab, KeybindAction::NewTab));
        },
        KeybindAction::RenameTab => {
            assert(action_table(kb)[14] == (kb.rename_tab, KeybindAction::RenameTab));
        },
        KeybindAction::PreviousTab => {
            assert(action_table(kb)[15] == (kb.previous_tab, KeybindAction::PreviousTab));
        },
        KeybindAction::NextTab => {
            assert(action_table(kb)[16] == (kb.next_tab, KeybindAction::NextTab));
        },
        KeybindAction::MoveTabPrevious => {
            assert(action_table(kb)[17] == (kb.move_tab_previous, KeybindAction::MoveTabPrevious));
        },
        KeybindAction::MoveTabNext => {
            assert(action_table(kb)[18] == (kb.move_tab_next, KeybindAction::MoveTabNext));
        },
        KeybindAction::CloseTab => {
            assert(action_table(kb)[19] == (kb.close_tab, KeybindAction::CloseTab));
        },
        KeybindAction::RenamePane => {
            assert(action_table(kb)[20] == (kb.rename_pane, KeybindAction::RenamePane));
        },
        KeybindAction::FocusPaneLeft => {
            assert(action_table(kb)[23] == (kb.focus_pane_left, KeybindAction::FocusPaneLeft));
        },
        KeybindAction::FocusPaneDown => {
            assert(action_table(kb)[24] == (kb.focus_pane_down, KeybindAction::FocusPaneDown));
        },
        KeybindAction::FocusPaneUp => {
            assert(action_table(kb)[25] == (kb.focus_pane_up, KeybindAction::FocusPaneUp));
        },
        KeybindAction::FocusPaneRight => {
            assert(action_table(kb)[26] == (kb.focus_pane_right, KeybindAction::FocusPaneRight));
        },
        KeybindAction::SwapPaneLeft => {
            assert(action_table(kb)[27] == (kb.swap_pane_left, KeybindAction::SwapPaneLeft));
        },
        KeybindAction::SwapPaneDown => {
            assert(action_table(kb)[28] == (kb.swap_pane_down, KeybindAction::SwapPaneDown));
        },
        KeybindAction::SwapPaneUp => {
            assert(action_table(kb)[29] == (kb.swap_pane_up, KeybindAction::SwapPaneUp));
        },
        KeybindAction::SwapPaneRight => {
            assert(action_table(kb)[30] == (kb.swap_pane_right, KeybindAction::SwapPaneRight));
        },
        KeybindAction::SplitVertical => {
            assert(action_table(kb)[34] == (kb.split_vertical, KeybindAction::SplitVertical));
        },
        KeybindAction::SplitHorizontal => {
            assert(action_table(kb)[35] == (kb.split_horizontal, KeybindAction::SplitHorizontal));
        },
        KeybindAction::ClosePane => {
            assert(action_table(kb)[36] == (kb.close_pane, KeybindAction::ClosePane));
        },
        KeybindAction::EditScrollback => {
            assert(action_table(kb)[21] == (kb.edit_scrollback, KeybindAction::EditScrollback));
        },
        KeybindAction::CopyMode => {
            assert(action_table(kb)[22] == (kb.copy_mode, KeybindAction::CopyMode));
        },
        KeybindAction::Zoom => {
            assert(action_table(kb)[37] == (kb.zoom, KeybindAction::Zoom));
        },
        KeybindAction::EnterResizeMode => {
            assert(action_table(kb)[38] == (kb.resize_mode, KeybindAction::EnterResizeMode));
        },
        KeybindAction::ResizePaneLeft => {
            assert(action_table(kb)[39] == (kb.resize_pane_left, KeybindAction::ResizePaneLeft));
        },
        KeybindAction::ResizePaneDown => {
            assert(action_table(kb)[40] == (kb.resize_pane_down, KeybindAction::ResizePaneDown));
        },
        KeybindAction::ResizePaneUp => {
            assert(action_table(kb)[41] == (kb.resize_pane_up, KeybindAction::ResizePaneUp));
        },
        KeybindAction::ResizePaneRight => {
            assert(action_table(kb)[42] == (kb.resize_pane_right, KeybindAction::ResizePaneRight));
        },
        KeybindAction::ToggleSidebar => {
            assert(action_table(kb)[43] == (kb.toggle_sidebar, KeybindAction::ToggleSidebar));
        },
        KeybindAction::CyclePaneNext => {
            assert(action_table(kb)[32] == (kb.cycle_pane_next, KeybindAction::CyclePaneNext));
        },
        KeybindAction::CyclePanePrevious => {
            assert(action_table(kb)[33] == (kb.cycle_pane_previous, KeybindAction::CyclePanePrevious));
        },
        KeybindAction::LastPane => {
            assert(action_table(kb)[31] == (kb.last_pane, KeybindAction::LastPane));
        },
        KeybindAction::Help => {
            assert(action_table(kb)[0] == (kb.help, KeybindAction::Help));
        },
        KeybindAction::Settings => {
            assert(action_table(kb)[1] == (kb.settings, KeybindAction::Settings));
        },
        KeybindAction::ReloadConfig => {
            assert(action_table(kb)[44] == (kb.reload_config, KeybindAction::ReloadConfig));
        },
        KeybindAction::OpenNotificationTarget => {
            assert(action_table(kb)[45] == (kb.open_notification_target, KeybindAction::OpenNotificationTarget));
        },
        KeybindAction::Detach => {
            assert(action_table(kb)[46] == (kb.detach, KeybindAction::Detach));
        },
        KeybindAction::OpenNavigator => {
            assert(action_table(kb)[47] == (kb.goto, KeybindAction::OpenNavigator));
        },
        KeybindAction::ToggleAgentMark => {
            assert(action_table(kb)[48] == (kb.toggle_mark, KeybindAction::ToggleAgentMark));
        },
    }
}

/// Every named action fires from its own bindings: when a key resolves to
/// a named action, the key reaches that action's own field of the
/// keybinds (so `split_vertical`'s key never yields `SplitHorizontal`).
pub proof fn law_named_action_comes_from_its_own_bindings(
    kb: Keybinds,
    key: TerminalKey,
    dispatch: KeybindDispatch,
)
    ensures
        non_indexed_spec(kb, key, dispatch) is Some ==> {
            &&& exact_spec(kb, key, dispatch) matches Some((MatchModel::Action(a), _))
            &&& action_field(kb, a) matches Some(f)
            &&& action_matches_spec(f, key, dispatch)
        },
{
    lemma_first_action_scan(kb, key, dispatch, 0);
    if let Some(i) = non_indexed_spec(kb, key, dispatch) {
        lemma_table_entries_are_their_actions_fields(kb, i);
    }
}

/// A key that reaches exactly one named action's bindings resolves to that
/// action: if `a`'s own bindings reach the key and no other named action's
/// do, the key resolves to `a`.
pub proof fn law_only_bound_action_is_resolved(
    kb: Keybinds,
    key: TerminalKey,
    dispatch: KeybindDispatch,
    a: KeybindAction,
)
    requires
        action_field(kb, a) matches Some(f) && action_matches_spec(f, key, dispatch),
        forall|b: KeybindAction|
            b != a && (#[trigger] action_field(kb, b)) is Some ==> !action_matches_spec(
                action_field(kb, b)->0,
                key,
                dispatch,
            ),
    ensures
        non_indexed_action_spec(kb, key, dispatch) == Some(a),
        exact_spec(kb, key, dispatch) matches Some((MatchModel::Action(r), _)) && r == a,
{
    lemma_named_actions_are_in_the_table(kb, a);
    let i = choose|i: int| 0 <= i < ACTION_COUNT && (#[trigger] action_table(kb)[i]).1 == a;
    lemma_table_entries_are_their_actions_fields(kb, i);
    lemma_first_action_scan(kb, key, dispatch, 0);
    match non_indexed_spec(kb, key, dispatch) {
        Some(j) => {
            lemma_table_entries_are_their_actions_fields(kb, j);
            let b = action_table(kb)[j].1;
            if b != a {
                assert(action_field(kb, b) is Some);
                assert(!action_matches_spec(action_field(kb, b)->0, key, dispatch));
            }
        },
        None => {
            assert(!action_matches_spec(action_table(kb)[i].0, key, dispatch));
        },
    }
}

} // verus!
