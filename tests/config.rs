use ros_rerun::config::{load, validate_config, finish_load, Api, Config, ConfigError, DBConfig, LogLevel, Options};

fn options(config: Option<&str>, listen: Option<&str>) -> Options {
    Options {
        config: config.map(|c| c.to_string()),
        log_level: LogLevel::Debug,
        listen: listen.map(|l| l.to_string()),
        subcommands: None,
    }
}

#[test]
fn cli_override_config() {
    let opts = options(Some("config.toml"), Some("1.1.1.1:9001"));
    let mut config = Config::new();
    opts.override_config(&mut config);
    assert_eq!(config.api.address, "1.1.1.1:9001");
}

#[test]
fn default_api_settings() {
    let api = Api::default();
    assert!(api.enabled);
    assert_eq!(api.address, "127.0.0.1:9888");
    assert_eq!(Config::new().api.address, api.address);
}

#[test]
fn load_prefers_the_given_file() {
    let opts = options(Some("mine.toml"), None);
    assert_eq!(load(&opts, true, true).expect("found"), "mine.toml");
    assert_eq!(load(&opts, false, true).expect("found"), "config.toml");
    assert!(matches!(load(&opts, false, false), Err(ConfigError::NotFound)));
    assert_eq!(load(&options(None, None), false, true).expect("found"), "config.toml");
}

#[test]
fn db_validation() {
    let mut db = DBConfig::new();
    assert!(matches!(db.validate(false), Err(ConfigError::Validation(_))));
    assert!(db.validate(true).is_ok());
    db.enabled = Some(false);
    assert!(db.validate(false).is_ok());
    let mut config = Config::new();
    config.db.enabled = Some(true);
    assert!(validate_config(&config, false).is_err());
}

#[test]
fn finishing_a_load_records_the_path() {
    let mut config = Config::new();
    finish_load(&mut config, &options(None, Some("0.0.0.0:1")), "a.toml".into());
    assert_eq!(config.config_paths, vec!["a.toml".to_string()]);
    assert_eq!(config.api.address, "0.0.0.0:1");
}
