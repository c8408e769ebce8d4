use std::collections::HashMap;

use edgefirst_navsat::args::{
    config_entries, empty_env_vars, env_bound_names, hostname_and_namespace, namespace_from_hostname,
    non_empty_endpoints, zenoh_config, zenoh_config_for, zenoh_namespace, Args, LogLevel, Mode, KEEP,
};
use edgefirst_navsat::config::ConfigEntry;

/// Arguments as the command line `--topic gps --rust-log info --mode peer`
/// parses, with every other argument at its default.
fn parse_cli() -> Args {
    Args {
        gpsd: "127.0.0.1:2947".to_string(),
        topic: "gps".to_string(),
        rust_log: LogLevel::Info,
        tracy: false,
        mode: Mode::Peer,
        connect: Vec::new(),
        listen: Vec::new(),
        no_multicast_scouting: false,
    }
}

/// Fake environment lookup over a fixed table; never touches the process.
fn lookup(env: &[(&str, &str)]) -> impl Fn(&str) -> Option<String> {
    let table: HashMap<String, String> = env
        .iter()
        .map(|(k, v)| ((*k).to_string(), (*v).to_string()))
        .collect();
    move |name| table.get(name).cloned()
}

fn entry(key: &str, value: &str) -> ConfigEntry {
    ConfigEntry { key: key.to_string(), value: value.to_string() }
}

#[test]
fn empty_env_vars_lists_only_empty_bound_vars() {
    let env = [
        ("TRACY", ""),
        ("RUST_LOG", ""),
        ("CONNECT", ""),
        ("GPSD", "10.0.0.1:99"),
        ("MODE", "peer"),
    ];
    let mut got = empty_env_vars(&env_bound_names(), &KEEP, lookup(&env));
    got.sort();
    assert_eq!(got, ["CONNECT", "RUST_LOG", "TRACY"]);
}

#[test]
fn empty_env_vars_ignores_unset_and_nonempty() {
    let env = [("GPSD", "127.0.0.1:2947"), ("TOPIC", "gps")];
    assert!(empty_env_vars(&env_bound_names(), &KEEP, lookup(&env)).is_empty());
    assert!(empty_env_vars(&env_bound_names(), &KEEP, lookup(&[])).is_empty());
}

#[test]
fn empty_env_vars_honours_keep() {
    let env = [("TRACY", ""), ("TOPIC", "")];
    let mut got = empty_env_vars(&env_bound_names(), &[], lookup(&env));
    got.sort();
    assert_eq!(got, ["TOPIC", "TRACY"]);
    assert_eq!(empty_env_vars(&env_bound_names(), &["TOPIC"], lookup(&env)), ["TRACY"]);
    assert!(empty_env_vars(&env_bound_names(), &["TOPIC", "TRACY"], lookup(&env)).is_empty());
}

#[test]
fn empty_env_vars_never_lists_unbound_vars() {
    let env = [("PATH", ""), ("HOME", ""), ("NOT_A_NAVSAT_VAR", "")];
    assert!(empty_env_vars(&env_bound_names(), &KEEP, lookup(&env)).is_empty());
}

#[test]
fn empty_env_vars_lists_in_declaration_order() {
    let env: Vec<(&str, &str)> = [
        "NO_MULTICAST_SCOUTING",
        "LISTEN",
        "CONNECT",
        "MODE",
        "TRACY",
        "RUST_LOG",
        "TOPIC",
        "GPSD",
    ]
    .iter()
    .map(|k| (*k, ""))
    .collect();
    assert_eq!(
        empty_env_vars(&env_bound_names(), &KEEP, lookup(&env)),
        ["GPSD", "TOPIC", "RUST_LOG", "TRACY", "MODE", "CONNECT", "LISTEN", "NO_MULTICAST_SCOUTING"]
    );
}

#[test]
fn env_bound_names_are_the_argument_variables() {
    assert_eq!(
        env_bound_names(),
        ["GPSD", "TOPIC", "RUST_LOG", "TRACY", "MODE", "CONNECT", "LISTEN", "NO_MULTICAST_SCOUTING"]
    );
    assert!(KEEP.is_empty());
}

#[test]
fn zenoh_config_sets_namespace() {
    let ns = zenoh_namespace();
    assert!(!ns.is_empty(), "namespace should be non-empty");
    assert!(!ns.contains('/'), "namespace must not contain '/'");
    let rendered = zenoh_config(&parse_cli()).unwrap().into_zenoh().to_string();
    assert!(rendered.contains(&ns), "config should include namespace {ns}: {rendered}");
}

#[test]
fn namespace_falls_back_to_localhost() {
    assert_eq!(namespace_from_hostname(String::new()), "localhost");
    assert_eq!(namespace_from_hostname("rack/unit-3".to_string()), "localhost");
    assert_eq!(namespace_from_hostname("/".to_string()), "localhost");
    assert_eq!(namespace_from_hostname("maivin-42".to_string()), "maivin-42");
}

#[test]
fn mode_names_round_trip() {
    for (name, mode) in [("peer", Mode::Peer), ("client", Mode::Client), ("router", Mode::Router)] {
        assert_eq!(Mode::parse(name), Some(mode));
        assert_eq!(mode.as_str(), name);
    }
    assert_eq!(Mode::parse("Peer"), None);
    assert_eq!(Mode::parse(""), None);
    assert_eq!(Mode::parse("peer "), None);
}

#[test]
fn config_entries_for_default_arguments() {
    let entries = config_entries(&parse_cli(), "maivin");
    assert_eq!(
        entries,
        [
            entry("namespace", "\"maivin\""),
            entry("mode", "\"peer\""),
            entry("scouting/multicast/interface", "\"lo\""),
        ]
    );
}

#[test]
fn config_entries_drop_empty_endpoints() {
    let mut args = parse_cli();
    args.mode = Mode::Client;
    args.connect = vec![String::new(), "tcp/10.0.0.1:7447".to_string(), String::new()];
    args.listen = vec![String::new()];
    args.no_multicast_scouting = true;
    let entries = config_entries(&args, "host");
    assert_eq!(
        entries,
        [
            entry("namespace", "\"host\""),
            entry("mode", "\"client\""),
            entry("connect/endpoints", "[\"tcp/10.0.0.1:7447\"]"),
            entry("scouting/multicast/enabled", "false"),
            entry("scouting/multicast/interface", "\"lo\""),
        ]
    );
}

#[test]
fn config_entries_list_every_endpoint() {
    let mut args = parse_cli();
    args.mode = Mode::Router;
    args.connect = vec!["tcp/a:1".to_string(), "udp/b:2".to_string()];
    args.listen = vec!["tcp/0.0.0.0:7447".to_string()];
    let entries = config_entries(&args, "quote\"d");
    assert_eq!(
        entries,
        [
            entry("namespace", "\"quote\\\"d\""),
            entry("mode", "\"router\""),
            entry("connect/endpoints", "[\"tcp/a:1\",\"udp/b:2\"]"),
            entry("listen/endpoints", "[\"tcp/0.0.0.0:7447\"]"),
            entry("scouting/multicast/interface", "\"lo\""),
        ]
    );
}

#[test]
fn non_empty_endpoints_keeps_order() {
    let items = vec![
        "b".to_string(),
        String::new(),
        "a".to_string(),
        String::new(),
        "b".to_string(),
    ];
    assert_eq!(non_empty_endpoints(&items), ["b", "a", "b"]);
    assert!(non_empty_endpoints(&vec![String::new(), String::new()]).is_empty());
}

#[test]
fn zenoh_config_accepts_endpoints() {
    let mut args = parse_cli();
    args.connect = vec!["tcp/127.0.0.1:7447".to_string()];
    args.listen = vec![String::new()];
    args.no_multicast_scouting = true;
    let config = zenoh_config(&args).unwrap().into_zenoh();
    let rendered = config.to_string();
    assert!(rendered.contains("tcp/127.0.0.1:7447"), "{rendered}");
}

#[test]
fn zenoh_config_rejects_bad_endpoint() {
    let mut args = parse_cli();
    args.connect = vec!["not an endpoint".to_string()];
    let err = zenoh_config(&args).err().unwrap();
    assert_eq!(err.key, "connect/endpoints");
}

#[test]
fn empty_env_vars_uses_the_given_names() {
    let names = vec!["A".to_string(), "B".to_string(), "C".to_string()];
    let env = [("A", ""), ("B", "x"), ("C", ""), ("GPSD", "")];
    assert_eq!(empty_env_vars(&names, &["C"], lookup(&env)), ["A"]);
}

#[test]
fn empty_env_vars_does_not_look_up_kept_names() {
    let names = env_bound_names();
    let asked = std::cell::RefCell::new(Vec::new());
    let got = empty_env_vars(&names, &["TOPIC", "MODE"], |name: &str| {
        asked.borrow_mut().push(name.to_string());
        Some(String::new())
    });
    assert_eq!(got, ["GPSD", "RUST_LOG", "TRACY", "CONNECT", "LISTEN", "NO_MULTICAST_SCOUTING"]);
    assert!(!asked.borrow().iter().any(|n| n == "TOPIC" || n == "MODE"));
    assert_eq!(asked.borrow().len(), 6);
}

#[test]
fn hostname_and_namespace_agree() {
    let (hostname, namespace) = hostname_and_namespace();
    if hostname.is_empty() || hostname.contains('/') {
        assert_eq!(namespace, "localhost");
    } else {
        assert_eq!(namespace, hostname);
    }
    assert_eq!(namespace, zenoh_namespace());
}

#[test]
fn config_for_drops_empty_connect_endpoint() {
    let mut args = parse_cli();
    args.connect = vec![String::new(), "tcp/10.0.0.1:7447".to_string()];
    let config = zenoh_config_for(&args, "navsat01").unwrap().into_zenoh();
    let endpoints = config.get_json("connect/endpoints").unwrap();
    assert!(endpoints.contains("tcp/10.0.0.1:7447"), "{endpoints}");
    assert_eq!(config.get_json("namespace").unwrap(), "\"navsat01\"");
    assert_eq!(config.get_json("mode").unwrap(), "\"peer\"");
    assert_eq!(config.get_json("scouting/multicast/interface").unwrap(), "\"lo\"");
}

#[test]
fn config_for_with_only_empty_endpoints_is_default_endpoints() {
    let mut args = parse_cli();
    args.connect = vec![String::new()];
    args.listen = vec![String::new()];
    let config = zenoh_config_for(&args, "navsat01").unwrap().into_zenoh();
    let default = zenoh::Config::default();
    assert_eq!(
        config.get_json("connect/endpoints").unwrap(),
        default.get_json("connect/endpoints").unwrap()
    );
    assert_eq!(
        config.get_json("listen/endpoints").unwrap(),
        default.get_json("listen/endpoints").unwrap()
    );
}

#[test]
fn config_entries_escape_control_characters() {
    let entries = config_entries(&parse_cli(), "a\nb\u{1}c\\");
    assert_eq!(entries[0], entry("namespace", "\"a\\nb\\u0001c\\\\\""));
}
