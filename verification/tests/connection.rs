use edgefirst_navsat::args::Mode;
use edgefirst_navsat::config::ConfigEntry;
use edgefirst_navsat::connection::{session_config, session_entries};

#[test]
fn session_entries_list_mode_and_endpoints() {
    let endpoints = vec!["tcp/127.0.0.1:7447".to_string()];
    assert_eq!(
        session_entries(Mode::Client, &endpoints),
        [
            ConfigEntry { key: "mode".to_string(), value: "\"client\"".to_string() },
            ConfigEntry {
                key: "connect/endpoints".to_string(),
                value: "[\"tcp/127.0.0.1:7447\"]".to_string()
            },
        ]
    );
    assert_eq!(session_entries(Mode::Peer, &Vec::new())[1].value, "[]");
}

#[test]
fn session_config_checks_endpoints() {
    assert!(session_config(Mode::Peer, &vec!["tcp/127.0.0.1:7447".to_string()]).is_ok());
    let err = session_config(Mode::Peer, &vec!["nonsense".to_string()]).err().unwrap();
    assert_eq!(err.key, "connect/endpoints");
}
