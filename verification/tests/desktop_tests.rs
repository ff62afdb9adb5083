use whatszara::desktop::{bridge_outcome, bridge_payload, parse_unsigned, route_action, DesktopCommand};
use whatszara::params::ParamMap;

fn params(pairs: &[(&str, &str)]) -> ParamMap {
    let mut p = ParamMap::new();
    for (k, v) in pairs {
        p.insert(k.to_string(), v.to_string());
    }
    p
}

#[test]
fn unsigned_numbers_read_like_rust() {
    assert_eq!(parse_unsigned("42", 255), Some(42));
    assert_eq!(parse_unsigned("+7", 255), Some(7));
    assert_eq!(parse_unsigned("007", 255), Some(7));
    assert_eq!(parse_unsigned("255", 255), Some(255));
    assert_eq!(parse_unsigned("256", 255), None);
    assert_eq!(parse_unsigned("+", 255), None);
    assert_eq!(parse_unsigned("", 255), None);
    assert_eq!(parse_unsigned("-1", 255), None);
    assert_eq!(parse_unsigned(" 5", 255), None);
    assert_eq!(parse_unsigned("1x", 255), None);
    assert_eq!(parse_unsigned("18446744073709551615", u64::MAX), Some(u64::MAX));
    assert_eq!(parse_unsigned("18446744073709551616", u64::MAX), None);
    for t in ["0", "+12", "255", "256", "99999", "a", "+"] {
        assert_eq!(parse_unsigned(t, 255).map(|v| v as u8), t.parse::<u8>().ok());
    }
}

#[test]
fn volume_level_defaults_to_fifty() {
    assert!(matches!(route_action("set_volume", &params(&[("level", "30")])), DesktopCommand::SetVolume { level: 30 }));
    assert!(matches!(route_action("set_volume", &params(&[("level", "loud")])), DesktopCommand::SetVolume { level: 50 }));
    assert!(matches!(route_action("set_volume", &params(&[("level", "300")])), DesktopCommand::SetVolume { level: 50 }));
    assert!(matches!(route_action("set_volume", &params(&[])), DesktopCommand::SetVolume { level: 50 }));
}

#[test]
fn simple_commands_take_their_parameters() {
    match route_action("execute_shell", &params(&[("command", "ls -la")])) {
        DesktopCommand::Shell { command } => assert_eq!(command, "ls -la"),
        other => panic!("unexpected {:?}", other),
    }
    match route_action("open_app", &params(&[])) {
        DesktopCommand::OpenApp { name } => assert_eq!(name, ""),
        other => panic!("unexpected {:?}", other),
    }
    match route_action("play_music", &params(&[("query", "jazz")])) {
        DesktopCommand::PlayMusic { query } => assert_eq!(query.as_deref(), Some("jazz")),
        other => panic!("unexpected {:?}", other),
    }
    match route_action("list_images", &params(&[])) {
        DesktopCommand::ListImages { path } => assert_eq!(path, None),
        other => panic!("unexpected {:?}", other),
    }
    assert!(matches!(route_action("get_volume", &params(&[])), DesktopCommand::GetVolume));
    assert!(matches!(route_action("pause_music", &params(&[])), DesktopCommand::PauseMusic));
    assert!(matches!(route_action("next_track", &params(&[])), DesktopCommand::NextTrack));
    assert!(matches!(route_action("prev_track", &params(&[])), DesktopCommand::PrevTrack));
    assert!(matches!(route_action("get_desktop_paths", &params(&[])), DesktopCommand::DesktopPaths));
    assert!(matches!(route_action("list_chats", &params(&[("limit", "10")])), DesktopCommand::ListChats { limit: 10 }));
    assert!(matches!(route_action("list_chats", &params(&[])), DesktopCommand::ListChats { limit: 50 }));
}

#[test]
fn contact_search_with_and_without_query() {
    assert!(matches!(route_action("search_contacts", &params(&[("query", "")])), DesktopCommand::ListContacts));
    match route_action("search_contacts", &params(&[("query", "bob")])) {
        DesktopCommand::SearchContacts { query } => assert_eq!(query, "bob"),
        other => panic!("unexpected {:?}", other),
    }
}

#[test]
fn sending_needs_a_recipient_and_something_to_send() {
    match route_action("send_message", &params(&[("message", "hi")])) {
        DesktopCommand::Refused(r) => {
            assert!(!r.success);
            assert_eq!(r.error, "recipient is required");
            assert_eq!(r.action, "send_message");
            assert_eq!(r.params.len(), 0);
        }
        other => panic!("unexpected {:?}", other),
    }
    match route_action("send_file", &params(&[("recipient", "bob")])) {
        DesktopCommand::Refused(r) => assert_eq!(r.error, "message or file path is required"),
        other => panic!("unexpected {:?}", other),
    }
    match route_action("send_file", &params(&[("recipient", "bob"), ("file_path", "~/a.png")])) {
        DesktopCommand::Send { recipient, message, media_path } => {
            assert_eq!((recipient.as_str(), message.as_str(), media_path.as_str()), ("bob", "", "~/a.png"));
        }
        other => panic!("unexpected {:?}", other),
    }
    match route_action("send_message", &params(&[("recipient", "bob"), ("message", "hi"), ("file_path", "x"), ("path", "y")])) {
        DesktopCommand::Send { media_path, .. } => assert_eq!(media_path, "y"),
        other => panic!("unexpected {:?}", other),
    }
}

#[test]
fn unknown_actions_are_refused_with_their_parameters() {
    match route_action("dance", &params(&[("style", "tango")])) {
        DesktopCommand::Refused(r) => {
            assert_eq!(r.error, "Unknown action: dance");
            assert_eq!(r.action, "dance");
            assert_eq!(r.output, "");
            assert_eq!(r.params.get("style").map(|s| s.as_str()), Some("tango"));
        }
        other => panic!("unexpected {:?}", other),
    }
}

#[test]
fn bridge_payload_expands_only_a_leading_tilde() {
    let (r, m, p) = bridge_payload("bob", "hi", "");
    assert_eq!((r.as_str(), m.as_str(), p), ("bob", "hi", None));
    let (_, _, p) = bridge_payload("bob", "", "/tmp/a.png");
    assert_eq!(p.as_deref(), Some("/tmp/a.png"));
    let (_, _, p) = bridge_payload("bob", "", "~other/a.png");
    assert_eq!(p.as_deref(), Some("~other/a.png"));
    let (_, _, p) = bridge_payload("bob", "", "~/a.png");
    let p = p.unwrap();
    assert!(p.ends_with("/a.png"));
}

#[test]
fn bridge_outcome_reports_the_status() {
    let ok = bridge_outcome("send_message", "bob", true, "200 OK");
    assert!(ok.success);
    assert_eq!((ok.output.as_str(), ok.error.as_str(), ok.action.as_str()), ("Sent to bob", "", "send_message"));
    let bad = bridge_outcome("send_file", "bob", false, "404 Not Found");
    assert!(!bad.success);
    assert_eq!((bad.output.as_str(), bad.error.as_str()), ("", "Bridge rejected: 404 Not Found"));
    assert_eq!(bad.params.len(), 0);
}
