//! Building a Zenoh session configuration from key / JSON5 value entries.

use vstd::prelude::*;

verus! {

#[verifier::external_type_specification]
#[verifier::external_body]
pub struct ExZenohConfig(zenoh::Config);

/// One setting of a Zenoh configuration: the slash-separated path of a key
/// and the JSON5 text of its value.
#[derive(Clone, Debug, PartialEq, Eq)]
pub struct ConfigEntry {
    pub key: String,
    pub value: String,
}

/// A setting that Zenoh refused to insert into its configuration.
#[derive(Clone, Debug, PartialEq, Eq)]
pub struct ConfigError {
    pub key: String,
}

/// The key and value text of each entry.
pub open spec fn entries_view(entries: Seq<ConfigEntry>) -> Seq<(Seq<char>, Seq<char>)> {
    entries.map_values(|e: ConfigEntry| (e.key@, e.value@))
}

/// The value of the first of `settings` with key `key`, if any.
pub open spec fn value_of(settings: Seq<(Seq<char>, Seq<char>)>, key: Seq<char>) -> Option<Seq<char>>
    decreases settings.len(),
{
    if settings.len() == 0 {
        None
    } else if settings[0].0 == key {
        Some(settings[0].1)
    } else {
        value_of(settings.drop_first(), key)
    }
}

/// Looking a key up in settings one after another finds it in the first
/// part when it is there, and in the second part otherwise.
pub proof fn lemma_value_of_concat(
    a: Seq<(Seq<char>, Seq<char>)>,
    b: Seq<(Seq<char>, Seq<char>)>,
    key: Seq<char>,
)
    ensures
        value_of(a + b, key) == if value_of(a, key) is Some {
            value_of(a, key)
        } else {
            value_of(b, key)
        },
    decreases a.len(),
{
    if a.len() == 0 {
        assert(a + b =~= b);
    } else {
        assert((a + b)[0] == a[0]);
        assert((a + b).drop_first() =~= a.drop_first() + b);
        lemma_value_of_concat(a.drop_first(), b, key);
    }
}

/// A key with its leading slashes removed, as Zenoh reads it.
pub open spec fn without_leading_slashes(key: Seq<char>) -> Seq<char>
    decreases key.len(),
{
    if key.len() > 0 && key[0] == '/' {
        without_leading_slashes(key.drop_first())
    } else {
        key
    }
}

/// Whether a key reaches Zenoh's free-form `plugins` section: once leading
/// slashes are removed, it is `plugins` or starts with `plugins/`. Zenoh
/// accepts any value at `plugins`, and a later key under it then panics, so
/// such keys are not inserted here.
pub open spec fn is_plugins_key(key: Seq<char>) -> bool {
    let k = without_leading_slashes(key);
    k == "plugins"@ || (k.len() >= 8 && k.take(8) == "plugins/"@)
}

/// No setting of `settings` has a key in the `plugins` section.
pub open spec fn keys_outside_plugins(settings: Seq<(Seq<char>, Seq<char>)>) -> bool {
    forall|i: int| 0 <= i < settings.len() ==> !is_plugins_key(#[trigger] settings[i].0)
}

/// A key that starts with neither `/` nor `p` is not in the `plugins`
/// section.
pub proof fn lemma_not_plugins_key(key: Seq<char>)
    requires
        key.len() > 0,
        key[0] != '/',
        key[0] != 'p',
    ensures
        !is_plugins_key(key),
{
    reveal_strlit("plugins");
    reveal_strlit("plugins/");
    assert(without_leading_slashes(key) == key);
    assert("plugins"@[0] == 'p');
    if key.len() >= 8 {
        assert(key.take(8)[0] == key[0]);
        assert("plugins/"@[0] == 'p');
    }
}

/// Settings with no key in the `plugins` section, one after another, have
/// none either.
pub proof fn lemma_keys_outside_plugins_concat(a: Seq<(Seq<char>, Seq<char>)>, b: Seq<(Seq<char>, Seq<char>)>)
    requires
        keys_outside_plugins(a),
        keys_outside_plugins(b),
    ensures
        keys_outside_plugins(a + b),
{
    assert forall|i: int| 0 <= i < (a + b).len() implies !is_plugins_key(#[trigger] (a + b)[i].0) by {
        if i < a.len() {
            assert((a + b)[i] == a[i]);
        } else {
            assert((a + b)[i] == b[i - a.len()]);
        }
    }
}

/// Whether Zenoh's `Config::insert_json5(key, value)` succeeds on the
/// configuration made by inserting `settings`, in order, into Zenoh's default
/// configuration. Zenoh parses the value as JSON5 at the key and validates it
/// against that configuration; nothing else goes into the answer.
pub uninterp spec fn zenoh_accepts(
    settings: Seq<(Seq<char>, Seq<char>)>,
    key: Seq<char>,
    value: Seq<char>,
) -> bool;

/// A Zenoh configuration together with the settings, in order, that were
/// inserted into Zenoh's default configuration to make it. Only `new` and
/// `insert_json5` make or change one, so the configuration is always
/// Zenoh's default with exactly those settings inserted.
pub struct ZenohConfig {
    config: zenoh::Config,
    settings: Ghost<Seq<(Seq<char>, Seq<char>)>>,
}

/// `zenoh::Config::default()`. The configuration is opaque here: nothing is
/// promised of it.
#[verifier::external_body]
fn zenoh_default_config() -> zenoh::Config {
    zenoh::Config::default()
}

impl ZenohConfig {
    /// The settings inserted into Zenoh's default configuration, in order.
    pub closed spec fn settings(self) -> Seq<(Seq<char>, Seq<char>)> {
        self.settings@
    }

    /// Zenoh's default configuration, with no setting inserted.
    pub fn new() -> (c: Self)
        ensures
            c.settings() == Seq::<(Seq<char>, Seq<char>)>::empty(),
    {
        ZenohConfig { config: zenoh_default_config(), settings: Ghost(Seq::empty()) }
    }

    /// `zenoh::Config::insert_json5(key, value)` on the held configuration,
    /// keeping the configuration when Zenoh accepts the setting and dropping
    /// it when Zenoh refuses it. Whether it is accepted is `zenoh_accepts` of
    /// the settings made so far, the key and the value. The recorded settings
    /// are left for the caller to extend. Keys in the `plugins` section are
    /// left out: Zenoh takes any value there and may then panic on a later
    /// key under it.
    #[verifier::external_body]
    fn zenoh_insert_json5(self, key: &str, value: &str) -> (r: Option<Self>)
        requires
            !is_plugins_key(key@),
        ensures
            r is Some == zenoh_accepts(self.settings(), key@, value@),
            r matches Some(c) ==> c.settings() == self.settings(),
    {
        let mut c = self;
        match c.config.insert_json5(key, value) {
            Ok(()) => Some(c),
            Err(_) => None,
        }
    }

    /// Inserts the setting `key` = `value` (JSON5 text), for a key outside
    /// Zenoh's `plugins` section. `Some` of the configuration with that
    /// setting added exactly when Zenoh accepts it; `None` when Zenoh refuses
    /// it.
    pub fn insert_json5(self, key: &str, value: &str) -> (r: Option<Self>)
        requires
            !is_plugins_key(key@),
        ensures
            r is Some == zenoh_accepts(self.settings(), key@, value@),
            r matches Some(c) ==> c.settings() == self.settings().push((key@, value@)),
    {
        match self.zenoh_insert_json5(key, value) {
            Some(c) => {
                let ghost inserted = c.settings@.push((key@, value@));
                let mut c = c;
                c.settings = Ghost(inserted);
                Some(c)
            },
            None => None,
        }
    }

    /// The Zenoh configuration itself.
    pub fn into_zenoh(self) -> zenoh::Config {
        self.config
    }
}

/// Zenoh accepts each of the first `n` settings after the ones before it.
pub open spec fn accepted_through(settings: Seq<(Seq<char>, Seq<char>)>, n: int) -> bool {
    forall|i: int|
        0 <= i < n ==> #[trigger] zenoh_accepts(settings.take(i), settings[i].0, settings[i].1)
}

/// Zenoh accepts every one of `settings`, each after the ones before it.
pub open spec fn all_accepted(settings: Seq<(Seq<char>, Seq<char>)>) -> bool {
    accepted_through(settings, settings.len() as int)
}

/// What inserting `settings`, in order, into Zenoh's default configuration
/// gives: the configuration holding exactly those settings when Zenoh
/// accepts each of them, and otherwise an error naming the key of the first
/// setting Zenoh refuses.
pub open spec fn built_from(
    r: Result<ZenohConfig, ConfigError>,
    settings: Seq<(Seq<char>, Seq<char>)>,
) -> bool {
    &&& r is Ok <==> all_accepted(settings)
    &&& r matches Ok(c) ==> c.settings() == settings
    &&& r matches Err(e) ==> exists|i: int|
        0 <= i < settings.len() && accepted_through(settings, i) && !zenoh_accepts(
            settings.take(i),
            settings[i].0,
            settings[i].1,
        ) && #[trigger] settings[i].0 == e.key@
}

/// Starts from Zenoh's default configuration and inserts the entries, none
/// of them in the `plugins` section, in order, stopping at the first one Zenoh refuses.
pub fn build_zenoh_config(entries: &Vec<ConfigEntry>) -> (r: Result<ZenohConfig, ConfigError>)
    requires
        keys_outside_plugins(entries_view(entries@)),
    ensures
        built_from(r, entries_view(entries@)),
{
    let ghost all = entries_view(entries@);
    let mut config = ZenohConfig::new();
    assert(all.take(0) =~= Seq::<(Seq<char>, Seq<char>)>::empty());
    for i in 0..entries.len()
        invariant
            all == entries_view(entries@),
            keys_outside_plugins(all),
            config.settings() == all.take(i as int),
            accepted_through(all, i as int),
    {
        let entry = &entries[i];
        assert(all[i as int] == (entry.key@, entry.value@));
        assert(!is_plugins_key(all[i as int].0));
        config = match config.insert_json5(entry.key.as_str(), entry.value.as_str()) {
            Some(c) => c,
            None => {
                let key = entry.key.clone();
                assert(!zenoh_accepts(all.take(i as int), all[i as int].0, all[i as int].1));
                assert(!all_accepted(all));
                return Err(ConfigError { key });
            },
        };
        assert(all.take(i + 1) =~= all.take(i as int).push(all[i as int]));
        assert(accepted_through(all, i + 1)) by {
            assert forall|j: int| 0 <= j < i + 1 implies #[trigger] zenoh_accepts(
                all.take(j),
                all[j].0,
                all[j].1,
            ) by {
                if j < i {
                    assert(accepted_through(all, i as int));
                }
            }
        }
    }
    assert(all.take(entries.len() as int) =~= all);
    Ok(config)
}

} // verus!
