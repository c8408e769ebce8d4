//! The configuration of a Zenoh session opened in a given mode towards a
//! list of endpoints.

use vstd::prelude::*;
use crate::args::Mode;
use crate::config::{
    build_zenoh_config, built_from, entries_view, keys_outside_plugins, lemma_not_plugins_key, value_of,
    ConfigEntry, ConfigError, ZenohConfig,
};
use crate::json::{json_string, json_string_array, json_text_of_string, json_text_of_string_array, strings_view};

verus! {

/// The settings, in order, for a session in `mode` connecting to `endpoints`:
/// the mode, then the full list of connect endpoints.
pub open spec fn spec_session_entries(mode: Mode, endpoints: Seq<Seq<char>>) -> Seq<(Seq<char>, Seq<char>)> {
    seq![
        ("mode"@, json_text_of_string(mode.spec_name())),
        ("connect/endpoints"@, json_text_of_string_array(endpoints)),
    ]
}

/// The settings for a session in `mode` connecting to `endpoint`.
pub fn session_entries(mode: Mode, endpoint: &Vec<String>) -> (r: Vec<ConfigEntry>)
    ensures
        entries_view(r@) == spec_session_entries(mode, strings_view(endpoint@)),
        r@.len() == 2,
        value_of(entries_view(r@), "mode"@) == Some(json_text_of_string(mode.spec_name())),
        value_of(entries_view(r@), "connect/endpoints"@) == Some(json_text_of_string_array(strings_view(endpoint@))),
{
    proof {
        lemma_session_entries_by_key(mode, strings_view(endpoint@));
    }
    let r = vec![
        ConfigEntry { key: "mode".to_owned(), value: json_string(mode.as_str()) },
        ConfigEntry { key: "connect/endpoints".to_owned(), value: json_string_array(endpoint) },
    ];
    assert(entries_view(r@) =~= spec_session_entries(mode, strings_view(endpoint@)));
    r
}

/// The Zenoh configuration of a session in `mode` connecting to `endpoint`:
/// Zenoh's default with the settings of `session_entries` inserted in order,
/// when Zenoh accepts each of them (it parses each endpoint when the list is
/// inserted); otherwise an error naming the first setting Zenoh refuses.
pub fn session_config(mode: Mode, endpoint: &Vec<String>) -> (r: Result<ZenohConfig, ConfigError>)
    ensures
        built_from(r, spec_session_entries(mode, strings_view(endpoint@))),
{
    let entries = session_entries(mode, endpoint);
    proof {
        reveal_strlit("mode");
        reveal_strlit("connect/endpoints");
        lemma_not_plugins_key("mode"@);
        lemma_not_plugins_key("connect/endpoints"@);
        assert(keys_outside_plugins(spec_session_entries(mode, strings_view(endpoint@))));
    }
    build_zenoh_config(&entries)
}

/// A session's settings are exactly two: its mode, rendered as a JSON
/// string, and every given endpoint, in the given order, as the JSON array of
/// the connect endpoints.
pub proof fn lemma_session_entries_by_key(mode: Mode, endpoints: Seq<Seq<char>>)
    ensures
        spec_session_entries(mode, endpoints).len() == 2,
        value_of(spec_session_entries(mode, endpoints), "mode"@) == Some(json_text_of_string(mode.spec_name())),
        value_of(spec_session_entries(mode, endpoints), "connect/endpoints"@) == Some(
            json_text_of_string_array(endpoints),
        ),
{
    reveal_strlit("mode");
    reveal_strlit("connect/endpoints");
    let e = spec_session_entries(mode, endpoints);
    assert("mode"@.len() == 4 && "connect/endpoints"@.len() == 17);
    assert(e.drop_first() =~= seq![("connect/endpoints"@, json_text_of_string_array(endpoints))]);
    assert(e.drop_first().drop_first() =~= Seq::<(Seq<char>, Seq<char>)>::empty());
    assert(e[0].0 != "connect/endpoints"@);
    assert(e.drop_first()[0].0 == "connect/endpoints"@);
    assert(value_of(e.drop_first(), "connect/endpoints"@) == Some(json_text_of_string_array(endpoints)));
}

} // verus!
