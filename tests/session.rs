use voice_core::coordinator::{should_speak, speech_text, speech_text_from_pieces, Coordinator, Payload};
use voice_core::db::User;
use voice_core::device::{search_action, select_device, DeviceSession, SearchAction};
use voice_core::globals::{
    domain_for, get_auth_client_id, get_auth_domain, get_domain, get_ip_api_key, get_magnus_id,
    get_open_ai_key, get_opencage_key, get_thread_id, get_weather_api_user_agent, set_thread_id,
    EnvSnapshot, Globals,
};
use voice_core::settings::{all_permissions, check_permissions, Permission, PermissionGrants};

#[test]
fn second_round_trip_is_rejected() {
    let mut c = Coordinator::new();
    assert!(c.try_begin());
    assert!(!c.try_begin());
    assert!(c.is_running_now());
    c.finish();
    assert!(!c.is_running_now());
    assert!(c.try_begin());
}

#[test]
fn closing_twice_stops_once() {
    let mut s = DeviceSession::opened();
    assert!(s.close());
    assert!(!s.close());
    assert!(!s.is_open_now());
}

#[test]
fn selected_device_is_found_by_name() {
    let names = vec!["Built-in".to_string(), "USB Mic".to_string(), "USB Mic".to_string()];
    assert_eq!(select_device(&names, &"USB Mic".to_string()), Some(1));
    assert_eq!(select_device(&names, &"Headset".to_string()), None);
    assert_eq!(select_device(&vec![], &"USB Mic".to_string()), None);
    assert_eq!(search_action(true), SearchAction::Use);
    assert_eq!(search_action(false), SearchAction::WaitAndRetry);
}

#[test]
fn code_blocks_are_not_spoken() {
    let reply = "Here you go:\n```rust\nfn main() {}\n```\nThat prints nothing.";
    assert_eq!(speech_text(reply), "Here you go:\n\n\nThat prints nothing.");
    assert_eq!(speech_text("no code here"), "no code here");
    assert_eq!(speech_text("a ```x``` b ```y``` c"), "a \n b \n c");
}

#[test]
fn pieces_join_on_lines() {
    let pieces = vec!["one".to_string(), "two".to_string(), "".to_string()];
    assert_eq!(speech_text_from_pieces(&pieces), "one\ntwo\n");
    assert_eq!(speech_text_from_pieces(&vec![]), "");
}

#[test]
fn blank_text_is_not_spoken() {
    assert!(should_speak(true, "hello"));
    assert!(!should_speak(true, "  \n\t "));
    assert!(!should_speak(true, ""));
    assert!(!should_speak(false, "hello"));
    assert!(!should_speak(true, "\u{a0}\u{3000}\u{2028}"));
    assert!(should_speak(true, " \u{a0}ok\u{3000}"));
}

#[test]
fn permission_names() {
    let names: Vec<&str> = all_permissions().iter().map(|p| p.as_str()).collect();
    assert_eq!(names, vec!["Clipboard", "Location", "Microphone", "Screenshot", "Tts"]);
}

#[test]
fn denied_permissions_are_named() {
    let grants = PermissionGrants { clipboard: true, location: false, microphone: true, screenshot: false, tts: true };
    assert_eq!(check_permissions(&grants, &vec![Permission::Clipboard, Permission::Tts]), None);
    assert_eq!(check_permissions(&grants, &vec![]), None);
    assert_eq!(
        check_permissions(&grants, &vec![Permission::Screenshot, Permission::Clipboard, Permission::Location]),
        Some("You MUST tell the user they need to allow access to ALL of the following features in settings: Screenshot, Location".to_string())
    );
    let none = PermissionGrants::none_granted();
    assert!(!none.is_granted(Permission::Microphone));
}

fn env(magnus: Option<&str>, is_prod: Option<&str>) -> EnvSnapshot {
    EnvSnapshot {
        magnus_id: magnus.map(|s| s.to_string()),
        open_ai_key: Some("SECRET-REDACTED".to_string()),
        ip_api_key: None,
        opencage_key: Some("cage".to_string()),
        weather_api_user_agent: Some("agent".to_string()),
        auth_domain: Some("auth.example".to_string()),
        auth_client_id: None,
        is_prod: is_prod.map(|s| s.to_string()),
    }
}

#[test]
fn context_from_environment() {
    assert!(Globals::from_env(&env(None, None)).is_none());
    let mut g = Globals::from_env(&env(Some("asst_1"), Some("true"))).unwrap();
    assert_eq!(get_magnus_id(&g), "asst_1");
    assert_eq!(get_open_ai_key(&g), "SECRET-REDACTED");
    assert_eq!(get_ip_api_key(&g), "");
    assert_eq!(get_opencage_key(&g), "cage");
    assert_eq!(get_weather_api_user_agent(&g), "agent");
    assert_eq!(get_auth_domain(&g), "auth.example");
    assert_eq!(get_auth_client_id(&g), "");
    assert_eq!(get_domain(&g), "https://magnusbackend.azurewebsites.net");
    assert_eq!(get_thread_id(&g), "");
    set_thread_id(&mut g, "thread_9".to_string());
    assert_eq!(get_thread_id(&g), "thread_9");
}

#[test]
fn domain_choice() {
    assert_eq!(domain_for(&Some("true".to_string())), "https://magnusbackend.azurewebsites.net");
    assert_eq!(domain_for(&Some("false".to_string())), "http://localhost:3000");
    assert_eq!(domain_for(&None), "");
}

#[test]
fn plain_records() {
    let u = User::new("1".to_string(), "ada".to_string(), "ada@example.com".to_string(), "2024-01-01".to_string());
    assert_eq!(u.username, "ada");
    assert_eq!(Payload::new("hi".to_string()).message, "hi");
}
