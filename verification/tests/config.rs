use clip_preparer::config::{Config, ConfigError, ConfigKey, Setting};

fn setting(key: &str, value: &str) -> Setting {
    Setting { key: String::from(key), value: String::from(value) }
}

fn full_file() -> Vec<Setting> {
    vec![
        setting("api.key", "from-file"),
        setting("fs.out_dir", "out"),
        setting("fs.font_file", "fonts/Inter.ttf"),
    ]
}

#[test]
fn all_settings_from_the_file() {
    let config = Config::load(&full_file(), &Vec::new()).ok().unwrap();
    assert_eq!(config.api.key, "from-file");
    assert_eq!(config.fs.out_dir, "out");
    assert_eq!(config.fs.font_file, "fonts/Inter.ttf");
}

#[test]
fn the_environment_overrides_the_file() {
    let environment = vec![setting("api.key", "from-env")];
    let config = Config::load(&full_file(), &environment).ok().unwrap();
    assert_eq!(config.api.key, "from-env");
    assert_eq!(config.fs.out_dir, "out");
}

#[test]
fn all_settings_from_the_environment() {
    let environment = vec![
        setting("fs.font_file", "f.ttf"),
        setting("fs.out_dir", "o"),
        setting("api.key", "k"),
    ];
    let config = Config::load(&Vec::new(), &environment).ok().unwrap();
    assert_eq!(config.api.key, "k");
    assert_eq!(config.fs.out_dir, "o");
    assert_eq!(config.fs.font_file, "f.ttf");
}

#[test]
fn the_last_entry_of_a_source_wins() {
    let mut file = full_file();
    file.push(setting("fs.out_dir", "elsewhere"));
    let config = Config::load(&file, &Vec::new()).ok().unwrap();
    assert_eq!(config.fs.out_dir, "elsewhere");
}

#[test]
fn unknown_keys_are_ignored() {
    let mut file = full_file();
    file.push(setting("fs.out.dir", "wrong"));
    file.push(setting("API.KEY", "wrong"));
    let config = Config::load(&file, &vec![setting("debug", "1")]).ok().unwrap();
    assert_eq!(config.api.key, "from-file");
    assert_eq!(config.fs.out_dir, "out");
}

#[test]
fn missing_api_key_is_reported_first() {
    assert_eq!(
        Config::load(&Vec::new(), &Vec::new()).err(),
        Some(ConfigError::Missing(ConfigKey::ApiKey))
    );
    let file = vec![setting("fs.out_dir", "out"), setting("fs.font_file", "f.ttf")];
    assert_eq!(
        Config::load(&file, &Vec::new()).err(),
        Some(ConfigError::Missing(ConfigKey::ApiKey))
    );
}

#[test]
fn missing_output_directory_is_reported() {
    let file = vec![setting("api.key", "k")];
    assert_eq!(
        Config::load(&file, &Vec::new()).err(),
        Some(ConfigError::Missing(ConfigKey::OutDir))
    );
    let file = vec![setting("api.key", "k"), setting("fs.font_file", "f.ttf")];
    assert_eq!(
        Config::load(&file, &Vec::new()).err(),
        Some(ConfigError::Missing(ConfigKey::OutDir))
    );
}

#[test]
fn missing_font_file_is_reported() {
    let file = vec![setting("api.key", "k")];
    let environment = vec![setting("fs.out_dir", "out")];
    assert_eq!(
        Config::load(&file, &environment).err(),
        Some(ConfigError::Missing(ConfigKey::FontFile))
    );
}

#[test]
fn the_configuration_file_defaults_to_config() {
    assert_eq!(Config::file_name(None), "config");
    assert_eq!(Config::file_name(Some("settings/local.toml")), "settings/local.toml");
}
