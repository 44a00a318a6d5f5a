//! The program's settings, read out of a loaded configuration file: for
//! each site, whether it is used, whether the user's ratings are downloaded
//! first, and the account name and access token.

use vstd::prelude::*;
use vstd::string::*;
use config::{Config, ConfigError};

verus! {

/// `config::Config`, a loaded configuration, held opaque; what it holds is
/// named by `config_booleans` and `config_strings`.
#[verifier::external_type_specification]
#[verifier::external_body]
pub struct ExConfig(Config);

/// `config::ConfigError`, carried through opaque inside `SettingError`.
#[verifier::external_type_specification]
#[verifier::external_body]
pub struct ExConfigError(ConfigError);

/// The settings of a loaded configuration that read as a boolean, by key:
/// exactly the keys for which `Config::get_bool` answers `Ok`, each with the
/// boolean it answers.
pub uninterp spec fn config_booleans(config: Config) -> Map<Seq<char>, bool>;

/// The settings of a loaded configuration that read as text, by key:
/// exactly the keys for which `Config::get_string` answers `Ok`, each with
/// the text it answers.
pub uninterp spec fn config_strings(config: Config) -> Map<Seq<char>, Seq<char>>;

/// `Config::get_bool`: the setting at `key` read as a boolean. The
/// configuration's booleans are named by `config_booleans`; nothing is
/// claimed of which error comes back.
#[verifier::external_body]
fn get_bool(config: &Config, key: &str) -> (res: Result<bool, ConfigError>)
    ensures
        match res {
            Ok(b) => config_booleans(*config).contains_key(key@) && config_booleans(*config)[key@] == b,
            Err(_) => !config_booleans(*config).contains_key(key@),
        },
{
    config.get_bool(key)
}

/// `Config::get_string`: the setting at `key` read as text. The
/// configuration's texts are named by `config_strings`; nothing is claimed
/// of which error comes back.
#[verifier::external_body]
fn get_string(config: &Config, key: &str) -> (res: Result<String, ConfigError>)
    ensures
        match res {
            Ok(s) => config_strings(*config).contains_key(key@) && config_strings(*config)[key@] == s@,
            Err(_) => !config_strings(*config).contains_key(key@),
        },
{
    config.get_string(key)
}

/// The program's settings.
#[derive(Debug)]
pub struct AppConfig {
    pub neodb_enable: bool,
    pub neodb_download: bool,
    pub neodb_username: String,
    pub neodb_token: String,
    pub bangumi_enable: bool,
    pub bangumi_download: bool,
    pub bangumi_username: String,
    pub bangumi_token: String,
}

/// `settings` holds exactly what the configuration says.
pub open spec fn read_from(
    settings: AppConfig,
    booleans: Map<Seq<char>, bool>,
    strings: Map<Seq<char>, Seq<char>>,
) -> bool {
    &&& settings.neodb_enable == booleans["neodb_enable"@]
    &&& settings.neodb_download == booleans["neodb_download"@]
    &&& settings.neodb_username@ == strings["neodb_username"@]
    &&& settings.neodb_token@ == strings["neodb_token"@]
    &&& settings.bangumi_enable == booleans["bangumi_enable"@]
    &&& settings.bangumi_download == booleans["bangumi_download"@]
    &&& settings.bangumi_username@ == strings["bangumi_username"@]
    &&& settings.bangumi_token@ == strings["bangumi_token"@]
}

/// A setting that could not be read: its key, and what the configuration
/// library answered.
#[derive(Debug)]
pub struct SettingError {
    pub key: String,
    pub cause: ConfigError,
}

/// The first setting, in the order they are read, that is missing or of
/// the wrong type; `None` when all eight are there.
pub open spec fn first_unreadable(
    booleans: Map<Seq<char>, bool>,
    strings: Map<Seq<char>, Seq<char>>,
) -> Option<Seq<char>> {
    if !booleans.contains_key("neodb_enable"@) {
        Some("neodb_enable"@)
    } else if !booleans.contains_key("neodb_download"@) {
        Some("neodb_download"@)
    } else if !strings.contains_key("neodb_username"@) {
        Some("neodb_username"@)
    } else if !strings.contains_key("neodb_token"@) {
        Some("neodb_token"@)
    } else if !booleans.contains_key("bangumi_enable"@) {
        Some("bangumi_enable"@)
    } else if !booleans.contains_key("bangumi_download"@) {
        Some("bangumi_download"@)
    } else if !strings.contains_key("bangumi_username"@) {
        Some("bangumi_username"@)
    } else if !strings.contains_key("bangumi_token"@) {
        Some("bangumi_token"@)
    } else {
        None
    }
}

/// Settings read out of a configuration hold each value under the key of
/// the same name: every flag is the configuration's boolean at that field's
/// key, and every name and token is its text at that field's key.
pub proof fn lemma_settings_by_key(
    settings: AppConfig,
    booleans: Map<Seq<char>, bool>,
    strings: Map<Seq<char>, Seq<char>>,
)
    requires
        read_from(settings, booleans, strings),
    ensures
        settings.neodb_enable == booleans["neodb_enable"@],
        settings.neodb_download == booleans["neodb_download"@],
        settings.neodb_username@ == strings["neodb_username"@],
        settings.neodb_token@ == strings["neodb_token"@],
        settings.bangumi_enable == booleans["bangumi_enable"@],
        settings.bangumi_download == booleans["bangumi_download"@],
        settings.bangumi_username@ == strings["bangumi_username"@],
        settings.bangumi_token@ == strings["bangumi_token"@],
{
}

/// Reading fails exactly when one of the eight settings is missing or of
/// the wrong type, and then names such a setting.
pub proof fn lemma_first_unreadable(booleans: Map<Seq<char>, bool>, strings: Map<Seq<char>, Seq<char>>)
    ensures
        first_unreadable(booleans, strings) is None <==> {
            &&& booleans.contains_key("neodb_enable"@)
            &&& booleans.contains_key("neodb_download"@)
            &&& strings.contains_key("neodb_username"@)
            &&& strings.contains_key("neodb_token"@)
            &&& booleans.contains_key("bangumi_enable"@)
            &&& booleans.contains_key("bangumi_download"@)
            &&& strings.contains_key("bangumi_username"@)
            &&& strings.contains_key("bangumi_token"@)
        },
        first_unreadable(booleans, strings) matches Some(key) ==>
            !booleans.contains_key(key) || !strings.contains_key(key),
{
}

fn read_bool(config: &Config, key: &str) -> (res: Result<bool, SettingError>)
    ensures
        match res {
            Ok(b) => config_booleans(*config).contains_key(key@) && config_booleans(*config)[key@] == b,
            Err(e) => !config_booleans(*config).contains_key(key@) && e.key@ == key@,
        },
{
    match get_bool(config, key) {
        Ok(value) => Ok(value),
        Err(cause) => Err(SettingError { key: String::from_str(key), cause }),
    }
}

fn read_string(config: &Config, key: &str) -> (res: Result<String, SettingError>)
    ensures
        match res {
            Ok(s) => config_strings(*config).contains_key(key@) && config_strings(*config)[key@] == s@,
            Err(e) => !config_strings(*config).contains_key(key@) && e.key@ == key@,
        },
{
    match get_string(config, key) {
        Ok(value) => Ok(value),
        Err(cause) => Err(SettingError { key: String::from_str(key), cause }),
    }
}

impl AppConfig {
    /// Reads the settings out of a loaded configuration file. All eight
    /// must be there with the right type; otherwise it fails on the first,
    /// in the order of the fields, that is not.
    pub fn from_file(config: &Config) -> (res: Result<AppConfig, SettingError>)
        ensures
            match res {
                Ok(settings) => {
                    &&& first_unreadable(config_booleans(*config), config_strings(*config)) is None
                    &&& read_from(settings, config_booleans(*config), config_strings(*config))
                },
                Err(e) => first_unreadable(config_booleans(*config), config_strings(*config)) == Some(e.key@),
            },
            res is Ok <==> {
                &&& config_booleans(*config).contains_key("neodb_enable"@)
                &&& config_booleans(*config).contains_key("neodb_download"@)
                &&& config_strings(*config).contains_key("neodb_username"@)
                &&& config_strings(*config).contains_key("neodb_token"@)
                &&& config_booleans(*config).contains_key("bangumi_enable"@)
                &&& config_booleans(*config).contains_key("bangumi_download"@)
                &&& config_strings(*config).contains_key("bangumi_username"@)
                &&& config_strings(*config).contains_key("bangumi_token"@)
            },
            res matches Ok(settings) ==> {
                &&& settings.neodb_enable == config_booleans(*config)["neodb_enable"@]
                &&& settings.neodb_download == config_booleans(*config)["neodb_download"@]
                &&& settings.neodb_username@ == config_strings(*config)["neodb_username"@]
                &&& settings.neodb_token@ == config_strings(*config)["neodb_token"@]
                &&& settings.bangumi_enable == config_booleans(*config)["bangumi_enable"@]
                &&& settings.bangumi_download == config_booleans(*config)["bangumi_download"@]
                &&& settings.bangumi_username@ == config_strings(*config)["bangumi_username"@]
                &&& settings.bangumi_token@ == config_strings(*config)["bangumi_token"@]
            },
            res matches Err(e) ==> !config_booleans(*config).contains_key(e.key@)
                || !config_strings(*config).contains_key(e.key@),
    {
        let neodb_enable = match read_bool(config, "neodb_enable") {
            Ok(value) => value,
            Err(e) => return Err(e),
        };
        let neodb_download = match read_bool(config, "neodb_download") {
            Ok(value) => value,
            Err(e) => return Err(e),
        };
        let neodb_username = match read_string(config, "neodb_username") {
            Ok(value) => value,
            Err(e) => return Err(e),
        };
        let neodb_token = match read_string(config, "neodb_token") {
            Ok(value) => value,
            Err(e) => return Err(e),
        };
        let bangumi_enable = match read_bool(config, "bangumi_enable") {
            Ok(value) => value,
            Err(e) => return Err(e),
        };
        let bangumi_download = match read_bool(config, "bangumi_download") {
            Ok(value) => value,
            Err(e) => return Err(e),
        };
        let bangumi_username = match read_string(config, "bangumi_username") {
            Ok(value) => value,
            Err(e) => return Err(e),
        };
        let bangumi_token = match read_string(config, "bangumi_token") {
            Ok(value) => value,
            Err(e) => return Err(e),
        };
        Ok(AppConfig {
            neodb_enable,
            neodb_download,
            neodb_username,
            neodb_token,
            bangumi_enable,
            bangumi_download,
            bangumi_username,
            bangumi_token,
        })
    }
}

} // verus!
