use crambo_desktop::tray::{initial_tooltip, set_recording_state, tray_menu, tray_menu_action, TrayAction};

#[test]
fn tray_shows_recording_state() {
    let rec = set_recording_state(true);
    assert!(!rec.start_enabled);
    assert!(rec.stop_enabled);
    assert_eq!(rec.tooltip, "Crambo — Recording");
    let idle = set_recording_state(false);
    assert!(idle.start_enabled);
    assert!(!idle.stop_enabled);
    assert_eq!(idle.tooltip, "Crambo");
    assert_eq!(initial_tooltip(), "Crambo");
}

#[test]
fn tray_menu_matches_idle_state_and_actions() {
    let menu = tray_menu();
    let ids: Vec<&str> = menu.iter().map(|e| e.id.as_str()).collect();
    assert_eq!(ids, vec!["start", "stop", "open", "quit"]);
    let labels: Vec<&str> = menu.iter().map(|e| e.label.as_str()).collect();
    assert_eq!(labels, vec!["Start Recording", "Stop Recording", "Open Crambo", "Quit"]);
    let idle = set_recording_state(false);
    assert_eq!(menu[0].enabled, idle.start_enabled);
    assert_eq!(menu[1].enabled, idle.stop_enabled);
    assert!(menu[2].enabled && menu[3].enabled);
    assert_eq!(tray_menu_action(&menu[0].id), TrayAction::StartRecording);
    assert_eq!(tray_menu_action(&menu[1].id), TrayAction::StopRecording);
    assert_eq!(tray_menu_action(&menu[2].id), TrayAction::OpenWindow);
    assert_eq!(tray_menu_action(&menu[3].id), TrayAction::Quit);
    assert_eq!(tray_menu_action("other"), TrayAction::Ignore);
    assert_eq!(tray_menu_action("Start"), TrayAction::Ignore);
}
