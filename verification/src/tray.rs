//! The system tray: its menu, what each menu entry does, and how the tray shows whether a
//! recording is in progress.

use vstd::prelude::*;
use crate::text::str_equal;

verus! {

/// How the tray shows the recording state.
pub struct TrayUpdate {
    /// Whether "Start Recording" can be chosen.
    pub start_enabled: bool,
    /// Whether "Stop Recording" can be chosen.
    pub stop_enabled: bool,
    /// The tray icon's tooltip.
    pub tooltip: String,
}

/// The tooltip while recording.
pub open spec fn recording_tooltip() -> Seq<char> {
    "Crambo — Recording"@
}

/// The tooltip while idle.
pub open spec fn idle_tooltip() -> Seq<char> {
    "Crambo"@
}

/// Whether "Start Recording" can be chosen in the given recording state.
pub open spec fn start_enabled_when(recording: bool) -> bool {
    !recording
}

/// Whether "Stop Recording" can be chosen in the given recording state.
pub open spec fn stop_enabled_when(recording: bool) -> bool {
    recording
}

/// The tooltip in the given recording state.
pub open spec fn tooltip_when(recording: bool) -> Seq<char> {
    if recording {
        recording_tooltip()
    } else {
        idle_tooltip()
    }
}

/// What the tray shows in the given recording state: whether "Start Recording" and
/// "Stop Recording" can be chosen, and the tooltip.
pub open spec fn spec_tray_view(recording: bool) -> (bool, bool, Seq<char>) {
    (start_enabled_when(recording), stop_enabled_when(recording), tooltip_when(recording))
}

/// What the tray shows after the updates for the recording states `rs` are applied in order to
/// a tray that showed `shown`; each update sets all three of its parts.
pub open spec fn spec_after_updates(shown: (bool, bool, Seq<char>), rs: Seq<bool>) -> (bool, bool, Seq<char>)
    decreases rs.len(),
{
    if rs.len() == 0 {
        shown
    } else {
        spec_after_updates(spec_tray_view(rs[0]), rs.drop_first())
    }
}

/// The last update wins: whatever the tray showed and whatever came before, after a run of
/// updates it shows what the last one says; so repeating an update changes nothing.
pub proof fn lemma_last_update_wins(shown: (bool, bool, Seq<char>), rs: Seq<bool>)
    requires
        rs.len() >= 1,
    ensures
        spec_after_updates(shown, rs) == spec_tray_view(rs.last()),
    decreases rs.len(),
{
    if rs.len() > 1 {
        lemma_last_update_wins(spec_tray_view(rs[0]), rs.drop_first());
        assert(rs.drop_first().last() == rs.last());
    } else {
        assert(rs.drop_first().len() == 0);
        assert(spec_after_updates(spec_tray_view(rs[0]), rs.drop_first()) == spec_tray_view(rs[0]));
        assert(rs.last() == rs[0]);
    }
}

/// How the tray shows `recording`: only the opposite action can be chosen, and the tooltip
/// says when a recording is in progress.
pub fn set_recording_state(recording: bool) -> (r: TrayUpdate)
    ensures
        r.start_enabled == start_enabled_when(recording),
        r.stop_enabled == stop_enabled_when(recording),
        r.tooltip@ == tooltip_when(recording),
{
    let tooltip = if recording {
        String::from_str("Crambo — Recording")
    } else {
        String::from_str("Crambo")
    };
    TrayUpdate { start_enabled: !recording, stop_enabled: recording, tooltip }
}

/// An entry of the tray menu.
pub struct MenuEntry {
    /// The identifier that a menu event carries.
    pub id: String,
    /// The label shown.
    pub label: String,
    /// Whether it can be chosen when the tray is set up.
    pub enabled: bool,
}

/// The tray menu as it is set up: identifier, label and whether it can be chosen.
pub open spec fn spec_menu() -> Seq<(Seq<char>, Seq<char>, bool)> {
    seq![
        ("start"@, "Start Recording"@, true),
        ("stop"@, "Stop Recording"@, false),
        ("open"@, "Open Crambo"@, true),
        ("quit"@, "Quit"@, true),
    ]
}

/// A menu entry by view.
pub open spec fn entry_view(e: MenuEntry) -> (Seq<char>, Seq<char>, bool) {
    (e.id@, e.label@, e.enabled)
}

fn entry(id: &str, label: &str, enabled: bool) -> (r: MenuEntry)
    ensures
        entry_view(r) == (id@, label@, enabled),
{
    MenuEntry { id: String::from_str(id), label: String::from_str(label), enabled }
}

/// The tray menu, in order, as it is set up.
pub fn tray_menu() -> (r: Vec<MenuEntry>)
    ensures
        r@.map_values(|e: MenuEntry| entry_view(e)) == spec_menu(),
{
    let mut v: Vec<MenuEntry> = Vec::new();
    v.push(entry("start", "Start Recording", true));
    v.push(entry("stop", "Stop Recording", false));
    v.push(entry("open", "Open Crambo", true));
    v.push(entry("quit", "Quit", true));
    assert(v@.map_values(|e: MenuEntry| entry_view(e)) =~= spec_menu());
    v
}

/// The tooltip the tray is set up with.
pub fn initial_tooltip() -> (r: String)
    ensures
        r@ == idle_tooltip(),
{
    String::from_str("Crambo")
}

/// The menu as set up shows the idle state: its start and stop entries can be chosen exactly
/// as `set_recording_state(false)` sets them, and its tooltip is the idle one.
pub proof fn lemma_menu_starts_idle()
    ensures
        spec_menu()[0].2 == start_enabled_when(false),
        spec_menu()[1].2 == stop_enabled_when(false),
{
}

/// What a tray menu event asks for.
#[derive(Clone, Copy, PartialEq, Eq, Debug)]
pub enum TrayAction {
    /// Start a recording in the main window and emit "tray-start-recording".
    StartRecording,
    /// Stop the recording in the main window and emit "tray-stop-recording".
    StopRecording,
    /// Show and focus the main window.
    OpenWindow,
    /// Quit the application.
    Quit,
    /// Nothing.
    Ignore,
}

/// What the menu event with identifier `id` asks for.
pub open spec fn spec_menu_action(id: Seq<char>) -> TrayAction {
    if id == "start"@ {
        TrayAction::StartRecording
    } else if id == "stop"@ {
        TrayAction::StopRecording
    } else if id == "open"@ {
        TrayAction::OpenWindow
    } else if id == "quit"@ {
        TrayAction::Quit
    } else {
        TrayAction::Ignore
    }
}

/// What the menu event with identifier `id` asks for.
pub fn tray_menu_action(id: &str) -> (r: TrayAction)
    ensures
        r == spec_menu_action(id@),
{
    if str_equal(id, "start") {
        TrayAction::StartRecording
    } else if str_equal(id, "stop") {
        TrayAction::StopRecording
    } else if str_equal(id, "open") {
        TrayAction::OpenWindow
    } else if str_equal(id, "quit") {
        TrayAction::Quit
    } else {
        TrayAction::Ignore
    }
}

/// Each entry of the menu, when chosen, asks for its own action, and the four actions differ.
pub proof fn lemma_menu_actions()
    ensures
        spec_menu_action(spec_menu()[0].0) == TrayAction::StartRecording,
        spec_menu_action(spec_menu()[1].0) == TrayAction::StopRecording,
        spec_menu_action(spec_menu()[2].0) == TrayAction::OpenWindow,
        spec_menu_action(spec_menu()[3].0) == TrayAction::Quit,
{
    reveal_strlit("start");
    reveal_strlit("stop");
    reveal_strlit("open");
    reveal_strlit("quit");
    assert("stop"@.len() != "start"@.len());
    assert("open"@.len() != "start"@.len());
    assert("open"@[0] != "stop"@[0]);
    assert("quit"@.len() != "start"@.len());
    assert("quit"@[0] != "stop"@[0]);
    assert("quit"@[0] != "open"@[0]);
}

} // verus!
