//! The settings that the commands run with, and how they are put together
//! from what the configuration file and the environment hold.

use vstd::prelude::*;
use crate::text::same_text;

verus! {

/// Access to the metadata service.
pub struct ApiConfig {
    /// The key sent with every metadata request.
    pub key: String,
}

/// Places on disk.
pub struct FsConfig {
    /// The directory under which everything is stored.
    pub out_dir: String,
    /// The font file that overlay text is set in.
    pub font_file: String,
}

/// All settings.
pub struct Config {
    pub api: ApiConfig,
    pub fs: FsConfig,
}

/// One entry of a configuration source: a dotted key and its value.
pub struct Setting {
    pub key: String,
    pub value: String,
}

/// The three settings that must be present.
#[derive(Clone, Copy, PartialEq, Eq, Structural, Debug)]
pub enum ConfigKey {
    ApiKey,
    OutDir,
    FontFile,
}

/// Why no configuration could be put together.
#[derive(Clone, Copy, PartialEq, Eq, Structural, Debug)]
pub enum ConfigError {
    /// Neither source holds this key.
    Missing(ConfigKey),
}

/// The dotted name under which a key stands in a source.
pub open spec fn key_name(key: ConfigKey) -> Seq<char> {
    match key {
        ConfigKey::ApiKey => "api.key"@,
        ConfigKey::OutDir => "fs.out_dir"@,
        ConfigKey::FontFile => "fs.font_file"@,
    }
}

/// The value that a source gives `key`: that of the last entry with this
/// key, if there is one.
pub open spec fn lookup(source: Seq<Setting>, key: Seq<char>) -> Option<Seq<char>>
    decreases source.len(),
{
    if source.len() == 0 {
        None
    } else if source.last().key@ == key {
        Some(source.last().value@)
    } else {
        lookup(source.drop_last(), key)
    }
}

/// The value in force for `key`: the environment's, where it has one, else
/// the file's.
pub open spec fn effective(file: Seq<Setting>, environment: Seq<Setting>, key: Seq<char>) -> Option<
    Seq<char>,
> {
    match lookup(environment, key) {
        Some(value) => Some(value),
        None => lookup(file, key),
    }
}

/// The name of the configuration file that is read where none is given.
pub open spec fn default_file_name() -> Seq<char> {
    "config"@
}

fn find(source: &Vec<Setting>, key: &str) -> (out: Option<String>)
    ensures
        match out {
            Some(value) => lookup(source@, key@) == Some(value@),
            None => lookup(source@, key@) is None,
        },
{
    let mut i: usize = source.len();
    assert(source@.take(source@.len() as int) == source@);
    while i > 0
        invariant
            i <= source.len(),
            lookup(source@, key@) == lookup(source@.take(i as int), key@),
        decreases i,
    {
        proof {
            let seen = source@.take(i as int);
            assert(seen.last() == source@[i as int - 1]);
            assert(seen.drop_last() == source@.take(i as int - 1));
        }
        if same_text(source[i - 1].key.as_str(), key) {
            return Some(source[i - 1].value.clone());
        }
        i -= 1;
    }
    None
}

fn resolve(file: &Vec<Setting>, environment: &Vec<Setting>, key: &str) -> (out: Option<String>)
    ensures
        match out {
            Some(value) => effective(file@, environment@, key@) == Some(value@),
            None => effective(file@, environment@, key@) is None,
        },
{
    match find(environment, key) {
        Some(value) => Some(value),
        None => find(file, key),
    }
}

impl Config {
    /// Puts the configuration together from the entries of the configuration
    /// file and those of the environment. The environment overrides the
    /// file. All three settings must be present: the first that is missing,
    /// in the order API key, output directory, font file, is reported.
    pub fn load(file: &Vec<Setting>, environment: &Vec<Setting>) -> (out: Result<
        Config,
        ConfigError,
    >)
        ensures
            match out {
                Ok(config) => {
                    &&& effective(file@, environment@, key_name(ConfigKey::ApiKey)) == Some(
                        config.api.key@,
                    )
                    &&& effective(file@, environment@, key_name(ConfigKey::OutDir)) == Some(
                        config.fs.out_dir@,
                    )
                    &&& effective(file@, environment@, key_name(ConfigKey::FontFile)) == Some(
                        config.fs.font_file@,
                    )
                },
                Err(ConfigError::Missing(key)) => {
                    &&& effective(file@, environment@, key_name(key)) is None
                    &&& key != ConfigKey::ApiKey ==> effective(
                        file@,
                        environment@,
                        key_name(ConfigKey::ApiKey),
                    ) is Some
                    &&& key == ConfigKey::FontFile ==> effective(
                        file@,
                        environment@,
                        key_name(ConfigKey::OutDir),
                    ) is Some
                },
            },
    {
        let key = match resolve(file, environment, "api.key") {
            Some(value) => value,
            None => { return Err(ConfigError::Missing(ConfigKey::ApiKey)); },
        };
        let out_dir = match resolve(file, environment, "fs.out_dir") {
            Some(value) => value,
            None => { return Err(ConfigError::Missing(ConfigKey::OutDir)); },
        };
        let font_file = match resolve(file, environment, "fs.font_file") {
            Some(value) => value,
            None => { return Err(ConfigError::Missing(ConfigKey::FontFile)); },
        };
        Ok(Config { api: ApiConfig { key }, fs: FsConfig { out_dir, font_file } })
    }

    /// The configuration file to read: the one that was asked for, else the
    /// default.
    pub fn file_name(path: Option<&str>) -> (out: String)
        ensures
            out@ == match path {
                Some(given) => given@,
                None => default_file_name(),
            },
    {
        match path {
            Some(given) => String::from_str(given),
            None => String::from_str("config"),
        }
    }
}

} // verus!
