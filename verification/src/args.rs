//! Command-line / environment configuration of the node, the scrubbing of
//! empty environment variables, and the Zenoh session configuration that the
//! arguments select.

use vstd::prelude::*;
use crate::config::{
    build_zenoh_config, built_from, entries_view, keys_outside_plugins, lemma_keys_outside_plugins_concat,
    lemma_not_plugins_key, lemma_value_of_concat, value_of, ConfigEntry, ConfigError, ZenohConfig,
};
use crate::json::{
    json_bool, json_string, json_string_array, json_text_of_bool, json_text_of_string,
    json_text_of_string_array, strings_view,
};
use crate::text::{contains_char, contains_str, str_eq, strs_view};

verus! {

/// Zenoh participant mode (Zenoh's `WhatAmI`).
#[derive(Clone, Copy, Debug, PartialEq, Eq, Structural)]
pub enum Mode {
    Peer,
    Client,
    Router,
}

impl Mode {
    /// The name Zenoh gives the mode, which is also how it is serialised.
    pub open spec fn spec_name(self) -> Seq<char> {
        match self {
            Mode::Router => "router"@,
            Mode::Peer => "peer"@,
            Mode::Client => "client"@,
        }
    }

    /// The mode a name stands for: exactly `router`, `peer` or `client`.
    pub open spec fn spec_parse(s: Seq<char>) -> Option<Mode> {
        if s == "router"@ {
            Some(Mode::Router)
        } else if s == "peer"@ {
            Some(Mode::Peer)
        } else if s == "client"@ {
            Some(Mode::Client)
        } else {
            None
        }
    }

    /// The mode's name.
    pub fn as_str(&self) -> (s: &'static str)
        ensures
            s@ == self.spec_name(),
    {
        match self {
            Mode::Router => "router",
            Mode::Peer => "peer",
            Mode::Client => "client",
        }
    }

    /// Parses a mode name as Zenoh does; `None` for any other text.
    pub fn parse(s: &str) -> (r: Option<Mode>)
        ensures
            r == Mode::spec_parse(s@),
    {
        if str_eq(s, "router") {
            Some(Mode::Router)
        } else if str_eq(s, "peer") {
            Some(Mode::Peer)
        } else if str_eq(s, "client") {
            Some(Mode::Client)
        } else {
            None
        }
    }
}

/// Parsing a mode's name gives the mode back, and the three names differ.
pub proof fn lemma_mode_name_round_trip(m: Mode)
    ensures
        Mode::spec_parse(m.spec_name()) == Some(m),
{
    reveal_strlit("router");
    reveal_strlit("peer");
    reveal_strlit("client");
    assert("router"@ != "peer"@) by { assert("router"@[0] != "peer"@[0]); }
    assert("router"@ != "client"@) by { assert("router"@[0] != "client"@[0]); }
    assert("peer"@ != "client"@) by { assert("peer"@[0] != "client"@[0]); }
}

/// Application log level (a level filter: `off` silences everything).
#[derive(Clone, Copy, Debug, PartialEq, Eq, Structural)]
pub enum LogLevel {
    Off,
    Error,
    Warn,
    Info,
    Debug,
    Trace,
}

/// Command-line arguments of the NavSat node, each also settable through an
/// environment variable: `GPSD`, `TOPIC`, `RUST_LOG`, `TRACY`, `MODE`,
/// `CONNECT`, `LISTEN`, `NO_MULTICAST_SCOUTING`.
#[derive(Clone, Debug)]
pub struct Args {
    /// GPSD daemon endpoint to connect to (host:port).
    pub gpsd: String,
    /// Zenoh key expression for NavSatFix messages; the session namespace
    /// prefixes it with `{hostname}/` on the wire.
    pub topic: String,
    /// Application log level.
    pub rust_log: LogLevel,
    /// Enable Tracy profiler broadcast.
    pub tracy: bool,
    /// Zenoh participant mode.
    pub mode: Mode,
    /// Zenoh endpoints to connect to.
    pub connect: Vec<String>,
    /// Zenoh endpoints to listen on.
    pub listen: Vec<String>,
    /// Disable Zenoh multicast peer discovery.
    pub no_multicast_scouting: bool,
}

/// Environment variables whose empty value is meaningful and must be kept.
/// NavSat has none: every empty value means "use the default".
pub const KEEP: [&'static str; 0] = [];


/// The environment variables bound to the arguments, in the order the
/// arguments are declared.
pub open spec fn spec_env_bound_names() -> Seq<Seq<char>> {
    seq![
        "GPSD"@,
        "TOPIC"@,
        "RUST_LOG"@,
        "TRACY"@,
        "MODE"@,
        "CONNECT"@,
        "LISTEN"@,
        "NO_MULTICAST_SCOUTING"@,
    ]
}

/// The environment variables bound to the arguments of `Args`, in
/// declaration order.
pub fn env_bound_names() -> (r: Vec<String>)
    ensures
        strings_view(r@) == spec_env_bound_names(),
{
    let r = vec![
        "GPSD".to_owned(),
        "TOPIC".to_owned(),
        "RUST_LOG".to_owned(),
        "TRACY".to_owned(),
        "MODE".to_owned(),
        "CONNECT".to_owned(),
        "LISTEN".to_owned(),
        "NO_MULTICAST_SCOUTING".to_owned(),
    ];
    assert(strings_view(r@) =~= spec_env_bound_names());
    r
}

/// The characters of an optional string.
pub open spec fn opt_str_view(o: Option<String>) -> Option<Seq<char>> {
    match o {
        Some(s) => Some(s@),
        None => None,
    }
}

/// Whether a variable with the given value is scrubbed: it is set, its value
/// is empty, and it is not one of those kept.
pub open spec fn is_scrubbed(keep: Seq<Seq<char>>, name: Seq<char>, value: Option<Seq<char>>) -> bool {
    !keep.contains(name) && value == Some(Seq::<char>::empty())
}

/// The names, in order, of the variables that are scrubbed, given the value
/// each of `names` was found to have.
pub open spec fn spec_scrubbed_names(
    keep: Seq<Seq<char>>,
    names: Seq<Seq<char>>,
    values: Seq<Option<Seq<char>>>,
) -> Seq<Seq<char>>
    decreases names.len(),
{
    if names.len() == 0 {
        Seq::empty()
    } else {
        let earlier = spec_scrubbed_names(keep, names.drop_last(), values.take(names.len() - 1));
        if is_scrubbed(keep, names.last(), values[names.len() - 1]) {
            earlier.push(names.last())
        } else {
            earlier
        }
    }
}

/// The lookup `var` can answer `value` when asked for the variable `name`.
pub open spec fn lookup_answers<F: Fn(&str) -> Option<String>>(
    var: F,
    name: Seq<char>,
    value: Option<Seq<char>>,
) -> bool {
    exists|s: &str, o: Option<String>|
        #![trigger var.ensures((s,), o)]
        s@ == name && var.ensures((s,), o) && opt_str_view(o) == value
}

/// Names, among `names` (the environment variables bound to this program's
/// arguments), whose value as reported by `var` is present but empty and
/// that are not listed in `keep`, in the order of `names`. The environment is
/// only read through `var`, once for each name that is not kept, so whatever
/// `var` answers, the result is exactly the scrubbed names for those answers.
pub fn empty_env_vars(names: &Vec<String>, keep: &[&str], var: impl Fn(&str) -> Option<String>) -> (r: Vec<
    String,
>)
    requires
        forall|s: &str| var.requires((s,)),
    ensures
        exists|values: Seq<Option<Seq<char>>>|
            {
                &&& values.len() == names.len()
                &&& forall|i: int|
                    0 <= i < values.len() && !strs_view(keep@).contains(names@[i]@) ==> lookup_answers(
                        var,
                        names@[i]@,
                        #[trigger] values[i],
                    )
                &&& forall|i: int|
                    0 <= i < values.len() && strs_view(keep@).contains(names@[i]@) ==> (
                    #[trigger] values[i]) is None
                &&& strings_view(r@) == spec_scrubbed_names(strs_view(keep@), strings_view(names@), values)
            },
{
    let ghost all = strings_view(names@);
    let ghost keep_view = strs_view(keep@);
    let mut r: Vec<String> = Vec::new();
    let ghost mut values: Seq<Option<Seq<char>>> = Seq::empty();
    for i in 0..names.len()
        invariant
            all == strings_view(names@),
            keep_view == strs_view(keep@),
            forall|s: &str| var.requires((s,)),
            values.len() == i,
            forall|j: int|
                0 <= j < i && !keep_view.contains(all[j]) ==> lookup_answers(var, all[j], #[trigger] values[j]),
            forall|j: int| 0 <= j < i && keep_view.contains(all[j]) ==> (#[trigger] values[j]) is None,
            strings_view(r@) == spec_scrubbed_names(keep_view, all.take(i as int), values),
    {
        let name = names[i].as_str();
        assert(name@ == all[i as int]);
        let kept = contains_str(keep, name);
        let ghost old_values = values;
        let empty = if kept {
            proof {
                values = values.push(None);
            }
            false
        } else {
            let value = var(name);
            proof {
                values = values.push(opt_str_view(value));
                assert(lookup_answers(var, all[i as int], values[i as int]));
            }
            match &value {
                Some(v) => v.as_str().is_empty(),
                None => false,
            }
        };
        proof {
            assert(all.take(i + 1).drop_last() =~= all.take(i as int));
            assert(values.take(i as int) =~= old_values);
            assert(all.take(i + 1).last() == all[i as int]);
            if empty {
                assert(values[i as int]->0 =~= Seq::<char>::empty());
            }
            assert((!kept && empty) == is_scrubbed(keep_view, all[i as int], values[i as int]));
        }
        let ghost earlier = strings_view(r@);
        if !kept && empty {
            r.push(names[i].clone());
            proof {
                assert(strings_view(r@) =~= earlier.push(all[i as int]));
            }
        }
        assert(spec_scrubbed_names(keep_view, all.take(i + 1), values) == if is_scrubbed(
            keep_view,
            all[i as int],
            values[i as int],
        ) {
            spec_scrubbed_names(keep_view, all.take(i as int), old_values).push(all[i as int])
        } else {
            spec_scrubbed_names(keep_view, all.take(i as int), old_values)
        });
    }
    assert(all.take(names.len() as int) =~= all);
    r
}

/// The session namespace for a system hostname: the hostname itself, or
/// `localhost` when it is empty or holds a `/` (which would open sub-keys).
pub open spec fn spec_namespace(hostname: Seq<char>) -> Seq<char> {
    if hostname.len() == 0 || hostname.contains('/') {
        "localhost"@
    } else {
        hostname
    }
}

/// Chooses the Zenoh session namespace for a hostname. The namespace is
/// never empty and never holds a `/`.
pub fn namespace_from_hostname(hostname: String) -> (r: String)
    ensures
        r@ == spec_namespace(hostname@),
        r@.len() > 0,
        !r@.contains('/'),
{
    if hostname.as_str().is_empty() || contains_char(hostname.as_str(), '/') {
        proof {
            reveal_strlit("localhost");
            assert(!"localhost"@.contains('/')) by {
                assert forall|i: int| 0 <= i < "localhost"@.len() implies "localhost"@[i] != '/' by {}
            }
        }
        "localhost".to_owned()
    } else {
        hostname
    }
}

/// `gethostname::gethostname()`, converted lossily to UTF-8. The hostname is
/// the machine's: nothing is promised of it.
#[verifier::external_body]
fn system_hostname() -> String {
    gethostname::gethostname().to_string_lossy().into_owned()
}

/// The system hostname and the Zenoh session namespace chosen for it. The
/// namespace differs from the hostname exactly when the fallback to
/// `localhost` was taken (`lemma_fallback_visible`), which the program
/// reports.
pub fn hostname_and_namespace() -> (r: (String, String))
    ensures
        r.1@ == spec_namespace(r.0@),
        r.1@.len() > 0,
        !r.1@.contains('/'),
{
    let hostname = system_hostname();
    let namespace = namespace_from_hostname(hostname.clone());
    (hostname, namespace)
}

/// The namespace differs from the hostname exactly when the hostname is
/// empty or holds a `/`, that is, when the fallback was taken.
pub proof fn lemma_fallback_visible(hostname: Seq<char>)
    ensures
        (spec_namespace(hostname) != hostname) <==> (hostname.len() == 0 || hostname.contains('/')),
{
    reveal_strlit("localhost");
    if hostname.len() > 0 && hostname.contains('/') {
        let j = choose|j: int| 0 <= j < hostname.len() && hostname[j] == '/';
        if hostname == "localhost"@ {
            assert("localhost"@[j] != '/');
        }
    }
}

/// System hostname used as the Zenoh session namespace, or `localhost` when
/// the hostname is empty or holds a `/`.
pub fn zenoh_namespace() -> (r: String)
    ensures
        exists|hostname: Seq<char>| r@ == spec_namespace(hostname),
        r@.len() > 0,
        !r@.contains('/'),
{
    let (_hostname, namespace) = hostname_and_namespace();
    namespace
}

/// The strings of `items` that are not empty, in order.
pub open spec fn non_empty_strings(items: Seq<Seq<char>>) -> Seq<Seq<char>>
    decreases items.len(),
{
    if items.len() == 0 {
        Seq::empty()
    } else {
        let earlier = non_empty_strings(items.drop_last());
        if items.last().len() > 0 {
            earlier.push(items.last())
        } else {
            earlier
        }
    }
}

/// Only empty strings are dropped: a string is kept exactly when it is one
/// of the items and is not empty.
pub proof fn lemma_non_empty_strings(items: Seq<Seq<char>>, x: Seq<char>)
    ensures
        non_empty_strings(items).contains(x) <==> (items.contains(x) && x.len() > 0),
        non_empty_strings(items).len() <= items.len(),
    decreases items.len(),
{
    if items.len() > 0 {
        let earlier_items = items.drop_last();
        lemma_non_empty_strings(earlier_items, x);
        let earlier = non_empty_strings(earlier_items);
        if non_empty_strings(items).contains(x) {
            if earlier.contains(x) {
                let j = choose|j: int| 0 <= j < earlier_items.len() && earlier_items[j] == x;
                assert(items[j] == x);
            } else {
                assert(items[items.len() - 1] == x);
            }
        }
        if items.contains(x) && x.len() > 0 {
            let j = choose|j: int| 0 <= j < items.len() && items[j] == x;
            if j < items.len() - 1 {
                assert(earlier_items[j] == x);
                if items.last().len() > 0 {
                    let k = choose|k: int| 0 <= k < earlier.len() && earlier[k] == x;
                    assert(earlier.push(items.last())[k] == x);
                }
            } else {
                assert(non_empty_strings(items).last() == x);
            }
        }
    }
}

/// Drops the empty strings of a list of endpoints, keeping the order.
pub fn non_empty_endpoints(items: &Vec<String>) -> (r: Vec<String>)
    ensures
        strings_view(r@) == non_empty_strings(strings_view(items@)),
{
    let ghost all = strings_view(items@);
    let mut r: Vec<String> = Vec::new();
    for i in 0..items.len()
        invariant
            all == strings_view(items@),
            strings_view(r@) == non_empty_strings(all.take(i as int)),
    {
        let ghost earlier = strings_view(r@);
        assert(all.take(i + 1).drop_last() =~= all.take(i as int));
        assert(all.take(i + 1).last() == items@[i as int]@);
        if !items[i].as_str().is_empty() {
            r.push(items[i].clone());
            assert(strings_view(r@) =~= earlier.push(items@[i as int]@));
        }
    }
    assert(all.take(items.len() as int) =~= all);
    r
}

/// A single entry setting `key` to the JSON array of `items`, or no entry
/// when there are no items.
pub open spec fn endpoints_entry(key: Seq<char>, items: Seq<Seq<char>>) -> Seq<(Seq<char>, Seq<char>)> {
    if items.len() > 0 {
        seq![(key, json_text_of_string_array(items))]
    } else {
        Seq::empty()
    }
}

/// The settings, in order, that the arguments put into Zenoh's default
/// configuration for a session in namespace `namespace`:
/// the namespace, the mode, the non-empty connect and listen endpoints
/// (each only when there is one), multicast scouting switched off when asked,
/// and multicast scouting on the loopback interface.
pub open spec fn spec_config_entries(
    namespace: Seq<char>,
    mode: Mode,
    connect: Seq<Seq<char>>,
    listen: Seq<Seq<char>>,
    no_multicast_scouting: bool,
) -> Seq<(Seq<char>, Seq<char>)> {
    seq![("namespace"@, json_text_of_string(namespace)), ("mode"@, json_text_of_string(mode.spec_name()))]
        + endpoints_entry("connect/endpoints"@, non_empty_strings(connect))
        + endpoints_entry("listen/endpoints"@, non_empty_strings(listen))
        + (if no_multicast_scouting {
        seq![("scouting/multicast/enabled"@, json_text_of_bool(false))]
    } else {
        Seq::empty()
    }) + seq![("scouting/multicast/interface"@, json_text_of_string("lo"@))]
}

/// `spec_config_entries` for the fields of `args`.
pub open spec fn args_config_entries(args: Args, namespace: Seq<char>) -> Seq<(Seq<char>, Seq<char>)> {
    spec_config_entries(
        namespace,
        args.mode,
        strings_view(args.connect@),
        strings_view(args.listen@),
        args.no_multicast_scouting,
    )
}

/// Appends one setting.
fn push_entry(entries: &mut Vec<ConfigEntry>, key: &str, value: String)
    ensures
        entries_view(final(entries)@) == entries_view(old(entries)@).push((key@, value@)),
{
    entries.push(ConfigEntry { key: key.to_owned(), value });
    assert(entries_view(entries@) =~= entries_view(old(entries)@).push((key@, value@)));
}

/// Appends the endpoints setting for `items` when it has a non-empty one.
fn push_endpoints_entry(entries: &mut Vec<ConfigEntry>, key: &str, items: &Vec<String>)
    ensures
        entries_view(final(entries)@) == entries_view(old(entries)@) + endpoints_entry(
            key@,
            non_empty_strings(strings_view(items@)),
        ),
{
    let kept = non_empty_endpoints(items);
    if kept.len() > 0 {
        let value = json_string_array(&kept);
        push_entry(entries, key, value);
    } else {
        assert(entries_view(entries@) =~= entries_view(entries@) + Seq::empty());
    }
}

/// The settings, in order, that the arguments select for a session in
/// namespace `namespace`, each value as JSON5 text.
pub fn config_entries(args: &Args, namespace: &str) -> (r: Vec<ConfigEntry>)
    ensures
        entries_view(r@) == args_config_entries(*args, namespace@),
        value_of(entries_view(r@), "namespace"@) == Some(json_text_of_string(namespace@)),
        value_of(entries_view(r@), "mode"@) == Some(json_text_of_string(args.mode.spec_name())),
        value_of(entries_view(r@), "connect/endpoints"@) == if has_non_empty(strings_view(args.connect@)) {
            Some(json_text_of_string_array(non_empty_strings(strings_view(args.connect@))))
        } else {
            None::<Seq<char>>
        },
        value_of(entries_view(r@), "listen/endpoints"@) == if has_non_empty(strings_view(args.listen@)) {
            Some(json_text_of_string_array(non_empty_strings(strings_view(args.listen@))))
        } else {
            None::<Seq<char>>
        },
        value_of(entries_view(r@), "scouting/multicast/enabled"@) == if args.no_multicast_scouting {
            Some(json_text_of_bool(false))
        } else {
            None::<Seq<char>>
        },
        value_of(entries_view(r@), "scouting/multicast/interface"@) == Some(json_text_of_string("lo"@)),
{
    proof {
        lemma_config_entries_by_key(
            namespace@,
            args.mode,
            strings_view(args.connect@),
            strings_view(args.listen@),
            args.no_multicast_scouting,
        );
    }
    let mut r: Vec<ConfigEntry> = Vec::new();
    push_entry(&mut r, "namespace", json_string(namespace));
    push_entry(&mut r, "mode", json_string(args.mode.as_str()));
    let ghost head = entries_view(r@);
    push_endpoints_entry(&mut r, "connect/endpoints", &args.connect);
    let ghost with_connect = entries_view(r@);
    push_endpoints_entry(&mut r, "listen/endpoints", &args.listen);
    let ghost with_listen = entries_view(r@);
    if args.no_multicast_scouting {
        push_entry(&mut r, "scouting/multicast/enabled", json_bool(false));
    }
    let ghost with_scouting = entries_view(r@);
    push_entry(&mut r, "scouting/multicast/interface", json_string("lo"));
    assert(entries_view(r@) =~= args_config_entries(*args, namespace@));
    r
}

/// None of the settings the arguments select has a key in Zenoh's `plugins`
/// section.
pub proof fn lemma_config_keys_outside_plugins(
    namespace: Seq<char>,
    mode: Mode,
    connect: Seq<Seq<char>>,
    listen: Seq<Seq<char>>,
    no_multicast_scouting: bool,
)
    ensures
        keys_outside_plugins(spec_config_entries(namespace, mode, connect, listen, no_multicast_scouting)),
{
    reveal_strlit("namespace");
    reveal_strlit("mode");
    reveal_strlit("connect/endpoints");
    reveal_strlit("listen/endpoints");
    reveal_strlit("scouting/multicast/enabled");
    reveal_strlit("scouting/multicast/interface");
    lemma_not_plugins_key("namespace"@);
    lemma_not_plugins_key("mode"@);
    lemma_not_plugins_key("connect/endpoints"@);
    lemma_not_plugins_key("listen/endpoints"@);
    lemma_not_plugins_key("scouting/multicast/enabled"@);
    lemma_not_plugins_key("scouting/multicast/interface"@);
    let head = seq![
        ("namespace"@, json_text_of_string(namespace)),
        ("mode"@, json_text_of_string(mode.spec_name())),
    ];
    let c = endpoints_entry("connect/endpoints"@, non_empty_strings(connect));
    let l = endpoints_entry("listen/endpoints"@, non_empty_strings(listen));
    let m: Seq<(Seq<char>, Seq<char>)> = if no_multicast_scouting {
        seq![("scouting/multicast/enabled"@, json_text_of_bool(false))]
    } else {
        Seq::empty()
    };
    let t = seq![("scouting/multicast/interface"@, json_text_of_string("lo"@))];
    assert(keys_outside_plugins(head));
    assert(keys_outside_plugins(c));
    assert(keys_outside_plugins(l));
    assert(keys_outside_plugins(m));
    assert(keys_outside_plugins(t));
    lemma_keys_outside_plugins_concat(head, c);
    lemma_keys_outside_plugins_concat(head + c, l);
    lemma_keys_outside_plugins_concat(head + c + l, m);
    lemma_keys_outside_plugins_concat(head + c + l + m, t);
}

/// The Zenoh configuration the arguments select for a session in namespace
/// `namespace`: Zenoh's default with the settings of `config_entries`
/// inserted in order, when Zenoh accepts each of them; otherwise an error
/// naming the first setting Zenoh refuses.
pub fn zenoh_config_for(args: &Args, namespace: &str) -> (r: Result<ZenohConfig, ConfigError>)
    ensures
        built_from(r, args_config_entries(*args, namespace@)),
{
    let entries = config_entries(args, namespace);
    proof {
        lemma_config_keys_outside_plugins(
            namespace@,
            args.mode,
            strings_view(args.connect@),
            strings_view(args.listen@),
            args.no_multicast_scouting,
        );
    }
    build_zenoh_config(&entries)
}

/// The Zenoh configuration the arguments select on this machine:
/// `zenoh_config_for` the namespace chosen for the machine's hostname.
pub fn zenoh_config(args: &Args) -> (r: Result<ZenohConfig, ConfigError>)
    ensures
        exists|hostname: Seq<char>|
            #![trigger spec_namespace(hostname)]
            built_from(r, args_config_entries(*args, spec_namespace(hostname))),
{
    let (_hostname, namespace) = hostname_and_namespace();
    zenoh_config_for(args, namespace.as_str())
}

/// A name is listed among the scrubbed variables exactly when it is one of
/// the looked-up names, was found set to the empty string, and is not kept:
/// unset, non-empty, kept and unbound variables are never listed.
pub proof fn lemma_scrubbed_names_exact(
    keep: Seq<Seq<char>>,
    names: Seq<Seq<char>>,
    values: Seq<Option<Seq<char>>>,
    x: Seq<char>,
)
    requires
        values.len() == names.len(),
    ensures
        spec_scrubbed_names(keep, names, values).contains(x) <==> exists|i: int|
            0 <= i < names.len() && names[i] == x && is_scrubbed(keep, x, #[trigger] values[i]),
    decreases names.len(),
{
    if names.len() > 0 {
        let n = names.len() - 1;
        let earlier_names = names.drop_last();
        let earlier_values = values.take(n);
        lemma_scrubbed_names_exact(keep, earlier_names, earlier_values, x);
        let earlier = spec_scrubbed_names(keep, earlier_names, earlier_values);
        if spec_scrubbed_names(keep, names, values).contains(x) {
            if earlier.contains(x) {
                let i = choose|i: int|
                    0 <= i < earlier_names.len() && earlier_names[i] == x && is_scrubbed(
                        keep,
                        x,
                        #[trigger] earlier_values[i],
                    );
                assert(names[i] == x && values[i] == earlier_values[i]);
            } else {
                assert(names[n] == x && is_scrubbed(keep, x, values[n]));
            }
        }
        if exists|i: int| 0 <= i < names.len() && names[i] == x && is_scrubbed(keep, x, #[trigger] values[i]) {
            let i = choose|i: int| 0 <= i < names.len() && names[i] == x && is_scrubbed(keep, x, #[trigger] values[i]);
            if i < n {
                assert(earlier_names[i] == x && earlier_values[i] == values[i]);
                assert(earlier.contains(x));
                if is_scrubbed(keep, names.last(), values[n]) {
                    assert(earlier.push(names.last())[earlier.index_of(x)] == x);
                }
            } else {
                assert(spec_scrubbed_names(keep, names, values).last() == x);
            }
        }
    }
}

/// The scrubbed names are a selection of the looked-up names: never more of
/// them, and each one of them.
pub proof fn lemma_scrubbed_names_are_looked_up(
    keep: Seq<Seq<char>>,
    names: Seq<Seq<char>>,
    values: Seq<Option<Seq<char>>>,
)
    requires
        values.len() == names.len(),
    ensures
        spec_scrubbed_names(keep, names, values).len() <= names.len(),
        forall|x: Seq<char>| #[trigger] spec_scrubbed_names(keep, names, values).contains(x) ==> names.contains(x),
    decreases names.len(),
{
    if names.len() > 0 {
        lemma_scrubbed_names_are_looked_up(keep, names.drop_last(), values.take(names.len() - 1));
        assert forall|x: Seq<char>| #[trigger] spec_scrubbed_names(keep, names, values).contains(x) implies names.contains(x) by {
            lemma_scrubbed_names_exact(keep, names, values, x);
            let i = choose|i: int| 0 <= i < names.len() && names[i] == x && is_scrubbed(keep, x, #[trigger] values[i]);
            assert(names[i] == x);
        }
    }
}

/// Keeping a variable only removes that variable from the scrubbed names:
/// for any other name, being listed does not depend on whether `kept` is kept.
pub proof fn lemma_keep_removes_only_kept(
    keep: Seq<Seq<char>>,
    kept: Seq<char>,
    names: Seq<Seq<char>>,
    values: Seq<Option<Seq<char>>>,
    x: Seq<char>,
)
    requires
        values.len() == names.len(),
    ensures
        !spec_scrubbed_names(keep.push(kept), names, values).contains(kept),
        x != kept ==> (spec_scrubbed_names(keep.push(kept), names, values).contains(x)
            <==> spec_scrubbed_names(keep, names, values).contains(x)),
{
    lemma_scrubbed_names_exact(keep.push(kept), names, values, kept);
    lemma_scrubbed_names_exact(keep.push(kept), names, values, x);
    lemma_scrubbed_names_exact(keep, names, values, x);
    assert(keep.push(kept).contains(kept)) by {
        assert(keep.push(kept)[keep.len() as int] == kept);
    }
    if x != kept {
        assert(keep.push(kept).contains(x) <==> keep.contains(x)) by {
            if keep.push(kept).contains(x) {
                let j = choose|j: int| 0 <= j < keep.push(kept).len() && keep.push(kept)[j] == x;
                assert(j < keep.len());
                assert(keep[j] == x);
            }
            if keep.contains(x) {
                let j = choose|j: int| 0 <= j < keep.len() && keep[j] == x;
                assert(keep.push(kept)[j] == x);
            }
        }
    }
}


/// Endpoint lists made only of empty strings select the same settings as no
/// endpoints at all: an empty `CONNECT` or `LISTEN` means "none".
pub proof fn lemma_empty_endpoints_ignored(
    namespace: Seq<char>,
    mode: Mode,
    connect: Seq<Seq<char>>,
    listen: Seq<Seq<char>>,
    no_multicast_scouting: bool,
)
    requires
        forall|i: int| 0 <= i < connect.len() ==> (#[trigger] connect[i]).len() == 0,
        forall|i: int| 0 <= i < listen.len() ==> (#[trigger] listen[i]).len() == 0,
    ensures
        spec_config_entries(namespace, mode, connect, listen, no_multicast_scouting) == spec_config_entries(
            namespace,
            mode,
            Seq::empty(),
            Seq::empty(),
            no_multicast_scouting,
        ),
{
    lemma_all_empty_dropped(connect);
    lemma_all_empty_dropped(listen);
}

/// A list of empty strings has no non-empty string.
proof fn lemma_all_empty_dropped(items: Seq<Seq<char>>)
    requires
        forall|i: int| 0 <= i < items.len() ==> (#[trigger] items[i]).len() == 0,
    ensures
        non_empty_strings(items) == Seq::<Seq<char>>::empty(),
    decreases items.len(),
{
    if items.len() > 0 {
        let earlier = items.drop_last();
        assert forall|i: int| 0 <= i < earlier.len() implies (#[trigger] earlier[i]).len() == 0 by {
            assert(earlier[i] == items[i]);
        }
        lemma_all_empty_dropped(earlier);
        assert(items.last() == items[items.len() - 1]);
    }
}

/// Whatever Zenoh decides, endpoint lists made only of empty strings give
/// the same configuration, and the same success or failure, as no endpoints
/// at all: an empty `CONNECT` or `LISTEN` means "none".
pub proof fn lemma_empty_endpoints_same_config(
    r: Result<ZenohConfig, ConfigError>,
    namespace: Seq<char>,
    mode: Mode,
    connect: Seq<Seq<char>>,
    listen: Seq<Seq<char>>,
    no_multicast_scouting: bool,
)
    requires
        forall|i: int| 0 <= i < connect.len() ==> (#[trigger] connect[i]).len() == 0,
        forall|i: int| 0 <= i < listen.len() ==> (#[trigger] listen[i]).len() == 0,
        built_from(r, spec_config_entries(namespace, mode, connect, listen, no_multicast_scouting)),
    ensures
        built_from(
            r,
            spec_config_entries(namespace, mode, Seq::empty(), Seq::empty(), no_multicast_scouting),
        ),
{
    lemma_empty_endpoints_ignored(namespace, mode, connect, listen, no_multicast_scouting);
}

/// Whether one of `items` is a non-empty string.
pub open spec fn has_non_empty(items: Seq<Seq<char>>) -> bool {
    exists|i: int| 0 <= i < items.len() && (#[trigger] items[i]).len() > 0
}

/// Dropping empty strings from two lists one after another is dropping them
/// from each list: the kept strings keep their order.
pub proof fn lemma_non_empty_strings_concat(a: Seq<Seq<char>>, b: Seq<Seq<char>>)
    ensures
        non_empty_strings(a + b) == non_empty_strings(a) + non_empty_strings(b),
    decreases b.len(),
{
    if b.len() == 0 {
        assert(a + b =~= a);
        assert(non_empty_strings(a) + Seq::<Seq<char>>::empty() =~= non_empty_strings(a));
    } else {
        assert((a + b).drop_last() =~= a + b.drop_last());
        assert((a + b).last() == b.last());
        lemma_non_empty_strings_concat(a, b.drop_last());
        if b.last().len() > 0 {
            assert(non_empty_strings(a) + non_empty_strings(b.drop_last()).push(b.last()) =~= (
            non_empty_strings(a) + non_empty_strings(b.drop_last())).push(b.last()));
        }
    }
}

/// A single string is kept exactly when it is not empty.
pub proof fn lemma_non_empty_strings_single(x: Seq<char>)
    ensures
        non_empty_strings(seq![x]) == if x.len() > 0 {
            seq![x]
        } else {
            Seq::<Seq<char>>::empty()
        },
{
    assert(seq![x].drop_last() =~= Seq::<Seq<char>>::empty());
    assert(non_empty_strings(Seq::<Seq<char>>::empty()) == Seq::<Seq<char>>::empty());
    assert(seq![x].last() == x);
    assert(Seq::<Seq<char>>::empty().push(x) =~= seq![x]);
}

/// Some string is kept exactly when some string is not empty.
pub proof fn lemma_has_non_empty(items: Seq<Seq<char>>)
    ensures
        non_empty_strings(items).len() > 0 <==> has_non_empty(items),
{
    if has_non_empty(items) {
        let i = choose|i: int| 0 <= i < items.len() && (#[trigger] items[i]).len() > 0;
        lemma_non_empty_strings(items, items[i]);
    }
    if non_empty_strings(items).len() > 0 {
        let x = non_empty_strings(items)[0];
        lemma_non_empty_strings(items, x);
        let j = choose|j: int| 0 <= j < items.len() && items[j] == x;
        assert(items[j].len() > 0);
    }
}

/// The first of two optional values that is present.
pub open spec fn or_else(a: Option<Seq<char>>, b: Option<Seq<char>>) -> Option<Seq<char>> {
    if a is Some {
        a
    } else {
        b
    }
}

/// Looking up one key in a single setting.
proof fn lemma_value_of_single(k: Seq<char>, v: Seq<char>, key: Seq<char>)
    ensures
        value_of(seq![(k, v)], key) == if k == key {
            Some(v)
        } else {
            None::<Seq<char>>
        },
{
    assert(seq![(k, v)].drop_first() =~= Seq::<(Seq<char>, Seq<char>)>::empty());
    assert(value_of(Seq::<(Seq<char>, Seq<char>)>::empty(), key) is None);
}

/// The value the settings selected by the arguments hold at `key`.
pub open spec fn expected_config_value(
    namespace: Seq<char>,
    mode: Mode,
    connect: Seq<Seq<char>>,
    listen: Seq<Seq<char>>,
    no_multicast_scouting: bool,
    key: Seq<char>,
) -> Option<Seq<char>> {
    if key == "namespace"@ {
        Some(json_text_of_string(namespace))
    } else if key == "mode"@ {
        Some(json_text_of_string(mode.spec_name()))
    } else if key == "connect/endpoints"@ {
        if has_non_empty(connect) {
            Some(json_text_of_string_array(non_empty_strings(connect)))
        } else {
            None
        }
    } else if key == "listen/endpoints"@ {
        if has_non_empty(listen) {
            Some(json_text_of_string_array(non_empty_strings(listen)))
        } else {
            None
        }
    } else if key == "scouting/multicast/enabled"@ {
        if no_multicast_scouting {
            Some(json_text_of_bool(false))
        } else {
            None
        }
    } else if key == "scouting/multicast/interface"@ {
        Some(json_text_of_string("lo"@))
    } else {
        None
    }
}

/// Looking up any key in the settings selected by the arguments.
proof fn lemma_config_lookup(
    namespace: Seq<char>,
    mode: Mode,
    connect: Seq<Seq<char>>,
    listen: Seq<Seq<char>>,
    no_multicast_scouting: bool,
    key: Seq<char>,
)
    ensures
        value_of(spec_config_entries(namespace, mode, connect, listen, no_multicast_scouting), key)
            == expected_config_value(namespace, mode, connect, listen, no_multicast_scouting, key),
{
    reveal_strlit("namespace");
    reveal_strlit("mode");
    reveal_strlit("connect/endpoints");
    reveal_strlit("listen/endpoints");
    reveal_strlit("scouting/multicast/enabled");
    reveal_strlit("scouting/multicast/interface");
    lemma_has_non_empty(connect);
    lemma_has_non_empty(listen);
    let kn = "namespace"@;
    let km = "mode"@;
    let kc = "connect/endpoints"@;
    let kl = "listen/endpoints"@;
    let ke = "scouting/multicast/enabled"@;
    let ki = "scouting/multicast/interface"@;
    assert(kn.len() == 9 && km.len() == 4 && kc.len() == 17 && kl.len() == 16 && ke.len() == 26 && ki.len()
        == 28);
    let n = seq![(kn, json_text_of_string(namespace))];
    let m = seq![(km, json_text_of_string(mode.spec_name()))];
    let c = endpoints_entry(kc, non_empty_strings(connect));
    let l = endpoints_entry(kl, non_empty_strings(listen));
    let s: Seq<(Seq<char>, Seq<char>)> = if no_multicast_scouting {
        seq![(ke, json_text_of_bool(false))]
    } else {
        Seq::empty()
    };
    let t = seq![(ki, json_text_of_string("lo"@))];
    let e = spec_config_entries(namespace, mode, connect, listen, no_multicast_scouting);
    assert(n + m =~= seq![(kn, json_text_of_string(namespace)), (km, json_text_of_string(mode.spec_name()))]);
    assert(e == n + m + c + l + s + t);
    assert(value_of(Seq::<(Seq<char>, Seq<char>)>::empty(), key) is None);
    lemma_value_of_concat(n, m, key);
    lemma_value_of_concat(n + m, c, key);
    lemma_value_of_concat(n + m + c, l, key);
    lemma_value_of_concat(n + m + c + l, s, key);
    lemma_value_of_concat(n + m + c + l + s, t, key);
    lemma_value_of_single(kn, json_text_of_string(namespace), key);
    lemma_value_of_single(km, json_text_of_string(mode.spec_name()), key);
    lemma_value_of_single(ki, json_text_of_string("lo"@), key);
    if has_non_empty(connect) {
        lemma_value_of_single(kc, json_text_of_string_array(non_empty_strings(connect)), key);
    }
    if has_non_empty(listen) {
        lemma_value_of_single(kl, json_text_of_string_array(non_empty_strings(listen)), key);
    }
    if no_multicast_scouting {
        lemma_value_of_single(ke, json_text_of_bool(false), key);
    }
}

/// What the settings selected by the arguments hold, key by key: the
/// namespace and the mode, each rendered as a JSON string; the connect and
/// the listen endpoints only when one of them is not empty, as the JSON array
/// of the non-empty ones; `scouting/multicast/enabled` set to `false`
/// exactly when multicast scouting is switched off, whatever the endpoints;
/// the multicast interface always `lo`; and nothing else.
pub proof fn lemma_config_entries_by_key(
    namespace: Seq<char>,
    mode: Mode,
    connect: Seq<Seq<char>>,
    listen: Seq<Seq<char>>,
    no_multicast_scouting: bool,
)
    ensures
        ({
            let e = spec_config_entries(namespace, mode, connect, listen, no_multicast_scouting);
            &&& value_of(e, "namespace"@) == Some(json_text_of_string(namespace))
            &&& value_of(e, "mode"@) == Some(json_text_of_string(mode.spec_name()))
            &&& value_of(e, "connect/endpoints"@) == if has_non_empty(connect) {
                Some(json_text_of_string_array(non_empty_strings(connect)))
            } else {
                None::<Seq<char>>
            }
            &&& value_of(e, "listen/endpoints"@) == if has_non_empty(listen) {
                Some(json_text_of_string_array(non_empty_strings(listen)))
            } else {
                None::<Seq<char>>
            }
            &&& value_of(e, "scouting/multicast/enabled"@) == if no_multicast_scouting {
                Some(json_text_of_bool(false))
            } else {
                None::<Seq<char>>
            }
            &&& value_of(e, "scouting/multicast/interface"@) == Some(json_text_of_string("lo"@))
            &&& e.len() == 3 + (if has_non_empty(connect) {
                1int
            } else {
                0int
            }) + (if has_non_empty(listen) {
                1int
            } else {
                0int
            }) + (if no_multicast_scouting {
                1int
            } else {
                0int
            })
        }),
{
    reveal_strlit("namespace");
    reveal_strlit("mode");
    reveal_strlit("connect/endpoints");
    reveal_strlit("listen/endpoints");
    reveal_strlit("scouting/multicast/enabled");
    reveal_strlit("scouting/multicast/interface");
    assert("namespace"@.len() == 9 && "mode"@.len() == 4 && "connect/endpoints"@.len() == 17
        && "listen/endpoints"@.len() == 16 && "scouting/multicast/enabled"@.len() == 26
        && "scouting/multicast/interface"@.len() == 28);
    lemma_has_non_empty(connect);
    lemma_has_non_empty(listen);
    lemma_config_lookup(namespace, mode, connect, listen, no_multicast_scouting, "namespace"@);
    lemma_config_lookup(namespace, mode, connect, listen, no_multicast_scouting, "mode"@);
    lemma_config_lookup(namespace, mode, connect, listen, no_multicast_scouting, "connect/endpoints"@);
    lemma_config_lookup(namespace, mode, connect, listen, no_multicast_scouting, "listen/endpoints"@);
    lemma_config_lookup(namespace, mode, connect, listen, no_multicast_scouting, "scouting/multicast/enabled"@);
    lemma_config_lookup(namespace, mode, connect, listen, no_multicast_scouting, "scouting/multicast/interface"@);
}

} // verus!
