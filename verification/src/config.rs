//! Profiles, saved queries and the safety policy that a profile carries;
//! how configurations are layered and where they are kept.

use vstd::prelude::*;

use crate::crypto::{decrypt_outcome, is_encrypted, is_token, Crypto, DecryptError};
use crate::name_map::{merged, value_of, NameMap};
use crate::text::{
    chars_of, push_str_chars, string_from_chars, to_uppercase, uppercase_text,
};

verus! {

/// The constraints that an operator places on queries run through a profile.
#[derive(Clone, Debug)]
pub struct SafetyPolicy {
    pub default_limit: u32,
    pub max_limit: u32,
    pub timeout_seconds: u64,
    pub allowed_operations: Vec<String>,
}

impl SafetyPolicy {
    /// The allow-list as texts.
    pub open spec fn allowed(&self) -> Seq<Seq<char>> {
        self.allowed_operations@.map_values(|op: String| op@)
    }

    /// The row limits are usable: the default is positive and does not
    /// exceed the ceiling.
    pub open spec fn well_formed(&self) -> bool {
        0 < self.default_limit <= self.max_limit
    }

    /// Checks `well_formed`.
    pub fn is_well_formed(&self) -> (ok: bool)
        ensures
            ok == self.well_formed(),
    {
        0 < self.default_limit && self.default_limit <= self.max_limit
    }
}

/// A query kept under a name, with the parameters that it takes.
#[derive(Clone, Debug)]
pub struct SavedQuery {
    pub sql: String,
    pub description: Option<String>,
    pub params: Vec<String>,
}

/// The settings that hold where a profile says nothing else.
#[derive(Clone, Debug)]
pub struct DefaultSettings {
    pub default_profile: String,
    pub cache_ttl_hours: u32,
    pub output_format: String,
}

/// `DefaultSettings` with its texts as sequences of characters.
pub ghost struct DefaultSettingsView {
    pub default_profile: Seq<char>,
    pub cache_ttl_hours: u32,
    pub output_format: Seq<char>,
}

impl View for DefaultSettings {
    type V = DefaultSettingsView;

    open spec fn view(&self) -> DefaultSettingsView {
        DefaultSettingsView {
            default_profile: self.default_profile@,
            cache_ttl_hours: self.cache_ttl_hours,
            output_format: self.output_format@,
        }
    }
}

/// The settings of a configuration that says nothing.
pub open spec fn initial_defaults() -> DefaultSettingsView {
    DefaultSettingsView {
        default_profile: "local"@,
        cache_ttl_hours: 24,
        output_format: "table"@,
    }
}

/// The profile that is used where none is named.
pub fn default_profile() -> (name: String)
    ensures
        name@ == "local"@,
{
    "local".to_owned()
}

/// The hours for which a schema cache is taken as fresh.
pub fn default_cache_ttl() -> (hours: u32)
    ensures
        hours == 24,
{
    24
}

/// The output format that is used where none is named.
pub fn default_output_format() -> (format: String)
    ensures
        format@ == "table"@,
{
    "table".to_owned()
}

impl Default for DefaultSettings {
    fn default() -> (settings: Self)
        ensures
            settings@ == initial_defaults(),
    {
        DefaultSettings {
            default_profile: default_profile(),
            cache_ttl_hours: default_cache_ttl(),
            output_format: default_output_format(),
        }
    }
}

/// How to reach one database, and what may be done to it.
#[derive(Clone, Debug)]
pub struct DatabaseProfile {
    pub db_type: String,
    pub host: String,
    pub port: u16,
    pub user: String,
    pub password: String,
    pub database: String,
    pub schema: Option<String>,
    pub safety: SafetyPolicy,
}

impl DatabaseProfile {
    /// `other` is this profile but for its password.
    pub open spec fn same_but_password(&self, other: &DatabaseProfile) -> bool {
        &&& self.db_type == other.db_type
        &&& self.host == other.host
        &&& self.port == other.port
        &&& self.user == other.user
        &&& self.database == other.database
        &&& self.schema == other.schema
        &&& self.safety == other.safety
    }
}

/// Why a configuration has no answer.
#[derive(Clone, Debug)]
pub enum ConfigError {
    /// No profile has the name.
    ProfileNotFound(String),
    /// No saved query has the name.
    SavedQueryNotFound(String),
}

impl ConfigError {
    /// The error in words.
    pub open spec fn message_text(&self) -> Seq<char> {
        match *self {
            ConfigError::ProfileNotFound(name) => "Profile '"@ + name@ + "' not found"@,
            ConfigError::SavedQueryNotFound(name) => "Saved query '"@ + name@ + "' not found"@,
        }
    }

    /// The error in words.
    pub fn message(&self) -> (text: String)
        ensures
            text@ == self.message_text(),
    {
        let mut chars: Vec<char> = Vec::new();
        match self {
            ConfigError::ProfileNotFound(name) => {
                push_str_chars(&mut chars, "Profile '");
                push_str_chars(&mut chars, name.as_str());
            },
            ConfigError::SavedQueryNotFound(name) => {
                push_str_chars(&mut chars, "Saved query '");
                push_str_chars(&mut chars, name.as_str());
            },
        }
        push_str_chars(&mut chars, "' not found");
        string_from_chars(&chars)
    }
}

/// `child` below the directory `base`: the two joined by one separator,
/// which is left out where `base` is empty or ends with one. This is what
/// `PathBuf::push` gives on Unix for a relative `child`.
pub open spec fn joined_path(base: Seq<char>, child: Seq<char>) -> Seq<char> {
    if base.len() == 0 || base.last() == '/' {
        base + child
    } else {
        base.push('/') + child
    }
}

/// `child` below the directory `base`.
pub fn join_path(base: &str, child: &str) -> (path: String)
    ensures
        path@ == joined_path(base@, child@),
{
    let mut chars = chars_of(base);
    let n: usize = chars.len();
    if n > 0 && chars[n - 1] != '/' {
        chars.push('/');
    }
    push_str_chars(&mut chars, child);
    string_from_chars(&chars)
}

/// The directory of this program's configuration: below
/// `XDG_CONFIG_HOME` where that is set, else below `.config` in the home
/// directory.
pub open spec fn config_base_dir_text(
    xdg_config_home: Option<Seq<char>>,
    home: Option<Seq<char>>,
) -> Option<Seq<char>> {
    match xdg_config_home {
        Some(dir) => Some(joined_path(dir, "rds-cli"@)),
        None => match home {
            Some(dir) => Some(joined_path(joined_path(dir, ".config"@), "rds-cli"@)),
            None => None,
        },
    }
}

/// The text of an optional string slice.
pub open spec fn str_view(text: Option<&str>) -> Option<Seq<char>> {
    match text {
        Some(s) => Some(s@),
        None => None,
    }
}

/// What the master key and the environment make of a profile's password.
/// A token is decrypted where there is a key that opens it, and is left as
/// it is otherwise. Any other password gives way to the profile's variable
/// in the environment, where that is set.
pub open spec fn resolved_password(
    password: Seq<char>,
    profile_name: Seq<char>,
    key: Option<Seq<u8>>,
    environment: Seq<(Seq<char>, String)>,
) -> Seq<char> {
    if is_token(password) {
        match key {
            Some(k) => match decrypt_outcome(k, password) {
                Ok(plaintext) => plaintext,
                Err(_) => password,
            },
            None => password,
        }
    } else {
        match value_of(environment, password_variable(profile_name)) {
            Some(value) => value@,
            None => password,
        }
    }
}

/// The name of the environment variable that holds a profile's password.
pub open spec fn password_variable(profile_name: Seq<char>) -> Seq<char> {
    "DB_PASSWORD_"@ + uppercase_text(profile_name)
}

/// The name of the environment variable that holds a profile's password.
pub fn password_variable_name(profile_name: &str) -> (variable: String)
    ensures
        variable@ == password_variable(profile_name@),
{
    let mut chars: Vec<char> = Vec::new();
    push_str_chars(&mut chars, "DB_PASSWORD_");
    push_str_chars(&mut chars, to_uppercase(profile_name).as_str());
    string_from_chars(&chars)
}

/// The key of an optional cipher.
pub open spec fn key_of(crypto: Option<&Crypto>) -> Option<Seq<u8>> {
    match crypto {
        Some(c) => Some(c.key()),
        None => None,
    }
}

/// `after` holds the profiles of `before` under the same names, each with
/// its password resolved and nothing else changed.
pub open spec fn passwords_resolved(
    before: Seq<(Seq<char>, DatabaseProfile)>,
    after: Seq<(Seq<char>, DatabaseProfile)>,
    key: Option<Seq<u8>>,
    environment: Seq<(Seq<char>, String)>,
) -> bool {
    &&& after.len() == before.len()
    &&& forall|i: int|
        0 <= i < before.len() ==> {
            &&& (#[trigger] after[i]).0 == before[i].0
            &&& before[i].1.same_but_password(&after[i].1)
            &&& after[i].1.password@ == resolved_password(
                before[i].1.password@,
                before[i].0,
                key,
                environment,
            )
        }
}

/// The settings of `base` with those of `over` laid on top: a profile name
/// or output format that is empty, or a cache lifetime of zero, leaves the
/// setting of `base`.
pub open spec fn merged_defaults(
    base: DefaultSettingsView,
    over: DefaultSettingsView,
) -> DefaultSettingsView {
    DefaultSettingsView {
        default_profile: if over.default_profile.len() > 0 {
            over.default_profile
        } else {
            base.default_profile
        },
        cache_ttl_hours: if over.cache_ttl_hours > 0 {
            over.cache_ttl_hours
        } else {
            base.cache_ttl_hours
        },
        output_format: if over.output_format.len() > 0 {
            over.output_format
        } else {
            base.output_format
        },
    }
}

/// The profiles of a configuration laid over `base`, where there is one.
pub open spec fn layered_profiles(
    base: Seq<(Seq<char>, DatabaseProfile)>,
    over: Option<ApplicationConfig>,
) -> Seq<(Seq<char>, DatabaseProfile)> {
    match over {
        Some(layer) => merged(base, layer.profiles@),
        None => base,
    }
}

/// The saved queries of a configuration laid over `base`, where there is
/// one.
pub open spec fn layered_queries(
    base: Seq<(Seq<char>, SavedQuery)>,
    over: Option<ApplicationConfig>,
) -> Seq<(Seq<char>, SavedQuery)> {
    match over {
        Some(layer) => merged(base, layer.saved_queries@),
        None => base,
    }
}

/// The settings of a configuration laid over `base`, where there is one.
pub open spec fn layered_defaults(
    base: DefaultSettingsView,
    over: Option<ApplicationConfig>,
) -> DefaultSettingsView {
    match over {
        Some(layer) => merged_defaults(base, layer.defaults@),
        None => base,
    }
}

/// The settings with the profile named on the command line as the default.
pub open spec fn with_cli_profile(
    settings: DefaultSettingsView,
    cli_profile: Option<String>,
) -> DefaultSettingsView {
    match cli_profile {
        Some(name) => DefaultSettingsView { default_profile: name@, ..settings },
        None => settings,
    }
}

/// Everything that is configured: the profiles and the saved queries by
/// name, and the defaults.
pub struct ApplicationConfig {
    pub profiles: NameMap<DatabaseProfile>,
    pub defaults: DefaultSettings,
    pub saved_queries: NameMap<SavedQuery>,
}

impl Default for ApplicationConfig {
    fn default() -> (config: Self)
        ensures
            config.profiles@ == Seq::<(Seq<char>, DatabaseProfile)>::empty(),
            config.saved_queries@ == Seq::<(Seq<char>, SavedQuery)>::empty(),
            config.defaults@ == initial_defaults(),
    {
        ApplicationConfig {
            profiles: NameMap::new(),
            defaults: DefaultSettings::default(),
            saved_queries: NameMap::new(),
        }
    }
}

impl ApplicationConfig {
    /// The configuration with `other` laid on top.
    pub fn merge(self, other: Self) -> (result: Self)
        ensures
            result.profiles@ == merged(self.profiles@, other.profiles@),
            result.saved_queries@ == merged(self.saved_queries@, other.saved_queries@),
            result.defaults@ == merged_defaults(self.defaults@, other.defaults@),
    {
        let mut result = self;
        result.profiles.extend(other.profiles);
        result.saved_queries.extend(other.saved_queries);
        if !other.defaults.default_profile.as_str().is_empty() {
            result.defaults.default_profile = other.defaults.default_profile;
        }
        if other.defaults.cache_ttl_hours > 0 {
            result.defaults.cache_ttl_hours = other.defaults.cache_ttl_hours;
        }
        if !other.defaults.output_format.as_str().is_empty() {
            result.defaults.output_format = other.defaults.output_format;
        }
        result
    }

    /// Resolves the password of every profile: a token is decrypted with
    /// `crypto`, any other password gives way to the profile's variable in
    /// `environment`.
    pub fn load_env_vars(&mut self, crypto: Option<&Crypto>, environment: &NameMap<String>)
        ensures
            passwords_resolved(
                old(self).profiles@,
                final(self).profiles@,
                key_of(crypto),
                environment@,
            ),
            final(self).defaults == old(self).defaults,
            final(self).saved_queries == old(self).saved_queries,
    {
        let ghost before = self.profiles@;
        let n: usize = self.profiles.len();
        let mut i: usize = 0;
        while i < n
            invariant
                i <= n,
                n == before.len(),
                self.profiles@.len() == n,
                self.defaults == old(self).defaults,
                self.saved_queries == old(self).saved_queries,
                passwords_resolved(
                    before.take(i as int),
                    self.profiles@.take(i as int),
                    key_of(crypto),
                    environment@,
                ),
                forall|j: int| i <= j < n ==> self.profiles@[j] == before[j],
            decreases n - i,
        {
            let ghost current = self.profiles@;
            let resolved = resolve_password(
                self.profiles.value_at(i).password.as_str(),
                self.profiles.name_at(i).as_str(),
                crypto,
                environment,
            );
            let blank = DatabaseProfile {
                db_type: String::new(),
                host: String::new(),
                port: 0,
                user: String::new(),
                password: String::new(),
                database: String::new(),
                schema: None,
                safety: SafetyPolicy {
                    default_limit: 0,
                    max_limit: 0,
                    timeout_seconds: 0,
                    allowed_operations: Vec::new(),
                },
            };
            let mut profile = self.profiles.replace_at(i, blank);
            profile.password = resolved;
            self.profiles.replace_at(i, profile);
            i += 1;
            proof {
                let now = self.profiles@;
                assert forall|j: int| 0 <= j < i implies {
                    &&& (#[trigger] now.take(i as int)[j]).0 == before.take(i as int)[j].0
                    &&& before.take(i as int)[j].1.same_but_password(&now.take(i as int)[j].1)
                    &&& now.take(i as int)[j].1.password@ == resolved_password(
                        before.take(i as int)[j].1.password@,
                        before.take(i as int)[j].0,
                        key_of(crypto),
                        environment@,
                    )
                } by {
                    if j < i - 1 {
                        assert(now[j] == current[j]);
                        assert(current.take(i - 1)[j] == current[j]);
                        assert(before.take(i - 1)[j] == before[j]);
                    }
                }
            }
        }
        assert(before.take(n as int) =~= before);
        assert(self.profiles@.take(n as int) =~= self.profiles@);
    }

    /// The configuration that the layers give: the defaults, then the
    /// user's configuration, then the project's, with the passwords
    /// resolved and the profile named on the command line as the default.
    pub fn load(
        user_config: Option<ApplicationConfig>,
        project_config: Option<ApplicationConfig>,
        crypto: Option<&Crypto>,
        environment: &NameMap<String>,
        cli_profile: Option<String>,
    ) -> (config: Self)
        ensures
            passwords_resolved(
                layered_profiles(
                    layered_profiles(Seq::empty(), user_config),
                    project_config,
                ),
                config.profiles@,
                key_of(crypto),
                environment@,
            ),
            config.saved_queries@ == layered_queries(
                layered_queries(Seq::empty(), user_config),
                project_config,
            ),
            config.defaults@ == with_cli_profile(
                layered_defaults(layered_defaults(initial_defaults(), user_config), project_config),
                cli_profile,
            ),
    {
        let initial = ApplicationConfig::default();
        let with_user = match user_config {
            Some(layer) => initial.merge(layer),
            None => initial,
        };
        let mut config = match project_config {
            Some(layer) => with_user.merge(layer),
            None => with_user,
        };
        config.load_env_vars(crypto, environment);
        match cli_profile {
            Some(name) => {
                config.defaults.default_profile = name;
            },
            None => {},
        }
        config
    }

    /// The directory of this program's configuration, from the values of
    /// `XDG_CONFIG_HOME` and `HOME`.
    pub fn config_base_dir(xdg_config_home: Option<&str>, home: Option<&str>) -> (dir: Option<
        String,
    >)
        ensures
            crate::text::text_view(dir) == config_base_dir_text(
                str_view(xdg_config_home),
                str_view(home),
            ),
    {
        match xdg_config_home {
            Some(base) => Some(join_path(base, "rds-cli")),
            None => match home {
                Some(base) => {
                    let dot_config = join_path(base, ".config");
                    Some(join_path(dot_config.as_str(), "rds-cli"))
                },
                None => None,
            },
        }
    }

    /// The path of the user's configuration file.
    pub fn user_config_path(xdg_config_home: Option<&str>, home: Option<&str>) -> (path: Option<
        String,
    >)
        ensures
            crate::text::text_view(path) == match config_base_dir_text(
                str_view(xdg_config_home),
                str_view(home),
            ) {
                Some(dir) => Some(joined_path(dir, "config.toml"@)),
                None => None,
            },
    {
        match Self::config_base_dir(xdg_config_home, home) {
            Some(dir) => Some(join_path(dir.as_str(), "config.toml")),
            None => None,
        }
    }

    /// The path of the project's configuration file, in the current
    /// directory.
    pub fn project_config_path(current_dir: Option<&str>) -> (path: Option<String>)
        ensures
            crate::text::text_view(path) == match str_view(current_dir) {
                Some(dir) => Some(joined_path(dir, ".rds-cli.toml"@)),
                None => None,
            },
    {
        match current_dir {
            Some(dir) => Some(join_path(dir, ".rds-cli.toml")),
            None => None,
        }
    }

    /// The profile under `name`.
    pub fn get_profile(&self, name: &str) -> (profile: Result<&DatabaseProfile, ConfigError>)
        ensures
            match value_of(self.profiles@, name@) {
                Some(found) => profile matches Ok(p) && *p == found,
                None => profile matches Err(ConfigError::ProfileNotFound(n)) && n@ == name@,
            },
    {
        match self.profiles.get(name) {
            Some(profile) => Ok(profile),
            None => Err(ConfigError::ProfileNotFound(name.to_owned())),
        }
    }

    /// The saved query under `name`.
    pub fn get_saved_query(&self, name: &str) -> (query: Result<&SavedQuery, ConfigError>)
        ensures
            match value_of(self.saved_queries@, name@) {
                Some(found) => query matches Ok(q) && *q == found,
                None => query matches Err(ConfigError::SavedQueryNotFound(n)) && n@ == name@,
            },
    {
        match self.saved_queries.get(name) {
            Some(query) => Ok(query),
            None => Err(ConfigError::SavedQueryNotFound(name.to_owned())),
        }
    }
}

/// What the master key and the environment make of one profile's password.
pub fn resolve_password(
    password: &str,
    profile_name: &str,
    crypto: Option<&Crypto>,
    environment: &NameMap<String>,
) -> (resolved: String)
    ensures
        resolved@ == resolved_password(password@, profile_name@, key_of(crypto), environment@),
{
    if is_encrypted(password) {
        match crypto {
            Some(cipher) => match cipher.decrypt(password) {
                Ok(plaintext) => plaintext,
                Err(_) => password.to_owned(),
            },
            None => password.to_owned(),
        }
    } else {
        let variable = password_variable_name(profile_name);
        match environment.get(variable.as_str()) {
            Some(value) => value.clone(),
            None => password.to_owned(),
        }
    }
}

/// What is shown of a stored password: the plaintext of a token, the
/// password itself where it is no token, and a mark where it is empty.
pub open spec fn shown_password_text(password: Seq<char>, key: Seq<u8>) -> Result<
    Seq<char>,
    DecryptError,
> {
    if is_token(password) {
        decrypt_outcome(key, password)
    } else if password.len() > 0 {
        Ok(password)
    } else {
        Ok("(empty)"@)
    }
}

/// What is shown of a stored password.
pub fn shown_password(password: &str, crypto: &Crypto) -> (shown: Result<String, DecryptError>)
    ensures
        crate::crypto::plaintext_view(shown) == shown_password_text(password@, crypto.key()),
{
    if is_encrypted(password) {
        crypto.decrypt(password)
    } else if !password.is_empty() {
        Ok(password.to_owned())
    } else {
        Ok("(empty)".to_owned())
    }
}

} // verus!
