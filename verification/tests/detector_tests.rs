use crambo_desktop::detector::{detect_meeting_app, meeting_from_lowered_process, ProcessInfo};

fn proc(name: &str, cmd: &[&str]) -> ProcessInfo {
    ProcessInfo { name: name.to_string(), cmd: cmd.iter().map(|a| a.to_string()).collect() }
}

#[test]
fn desktop_meeting_apps_are_recognised() {
    assert_eq!(detect_meeting_app(&vec![proc("Zoom.us", &[])]), Some("Zoom".to_string()));
    assert_eq!(detect_meeting_app(&vec![proc("MSTeams", &[])]), Some("Microsoft Teams".to_string()));
    assert_eq!(detect_meeting_app(&vec![proc("CiscoCollabHost", &[])]), Some("Webex".to_string()));
    assert_eq!(detect_meeting_app(&vec![proc("webexmta", &[])]), Some("Webex".to_string()));
}

#[test]
fn browsers_are_named_by_the_meeting_site() {
    let meet = proc("Google Chrome", &["/opt/chrome", "https://MEET.google.com/abc-defg-hij"]);
    assert_eq!(detect_meeting_app(&vec![meet]), Some("Google Meet".to_string()));
    let edge = proc("msedge.exe", &["https://teams.microsoft.com/l/meetup"]);
    assert_eq!(detect_meeting_app(&vec![edge]), Some("Microsoft Teams".to_string()));
    let chrome_teams = proc("chrome", &["chrome --app=https://teams.microsoft.com/l/meetup-join/x"]);
    assert_eq!(detect_meeting_app(&vec![chrome_teams]), Some("Microsoft Teams".to_string()));
    let edge_meet = proc("msedge", &["msedge", "--new-window", "https://meet.google.com/x"]);
    assert_eq!(detect_meeting_app(&vec![edge_meet]), Some("Google Meet".to_string()));
    assert_eq!(detect_meeting_app(&vec![proc("chrome", &["https://example.com"])]), None);
    assert_eq!(detect_meeting_app(&vec![proc("chrome", &[])]), None);
}

#[test]
fn meet_is_tried_before_teams() {
    let both = proc("chrome", &["https://teams.microsoft.com/a", "https://meet.google.com/b"]);
    assert_eq!(detect_meeting_app(&vec![both]), Some("Google Meet".to_string()));
}

#[test]
fn first_revealing_process_wins() {
    let ps = vec![
        proc("bash", &[]),
        proc("chrome", &["/usr/bin/chrome", "https://meet.google.com/x"]),
        proc("zoom", &[]),
    ];
    assert_eq!(detect_meeting_app(&ps), Some("Google Meet".to_string()));
    assert_eq!(detect_meeting_app(&vec![]), None);
    assert_eq!(detect_meeting_app(&vec![proc("firefox", &["meet.google.com"])]), None);
}

#[test]
fn meeting_from_already_lowered_process() {
    let cmd = vec!["/usr/bin/msedge".to_string(), "https://teams.microsoft.com/x".to_string()];
    assert_eq!(meeting_from_lowered_process("msedge", &cmd), Some("Microsoft Teams".to_string()));
    assert_eq!(meeting_from_lowered_process("zoom.us", &vec![]), Some("Zoom".to_string()));
    assert_eq!(meeting_from_lowered_process("bash", &cmd), None);
}
