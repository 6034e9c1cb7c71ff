use rah::config::{Config, ConfigError, Setting};

#[test]
fn default_settings() {
    let c = Config::default();
    assert_eq!(c.config_path, "/etc/rah.toml");
    assert_eq!(c.db_path, "/var/lib/rah/db/");
    assert_eq!(c.cache_path, "/var/cache/rah/");
    assert!(c.color);
    assert_eq!(c.delete_make_deps, None);
}

#[test]
fn parse_sets_every_key() {
    let mut c = Config::default();
    let text = "db_path = \"/tmp/db\"\ncache_path = \"/tmp/cache\"\ncolor = false\ndelete_make_deps = true\n";
    assert!(c.parse(None, text).is_ok());
    assert_eq!(c.config_path, "/etc/rah.toml");
    assert_eq!(c.db_path, "/tmp/db");
    assert_eq!(c.cache_path, "/tmp/cache");
    assert!(!c.color);
    assert_eq!(c.delete_make_deps, Some(true));
}

#[test]
fn parse_takes_the_given_path() {
    let mut c = Config::default();
    assert!(c.parse(Some("/home/me/rah.toml".to_string()), "").is_ok());
    assert_eq!(c.config_path, "/home/me/rah.toml");
    assert_eq!(c.db_path, "/var/lib/rah/db/");
    assert!(c.color);
}

#[test]
fn parse_refuses_bad_toml() {
    let mut c = Config::default();
    let r = c.parse(Some("/x".to_string()), "color = = true");
    assert!(matches!(r, Err(ConfigError::Syntax)));
    assert_eq!(c.config_path, "/etc/rah.toml");
    assert!(c.color);
}

#[test]
fn parse_refuses_unknown_key() {
    let mut c = Config::default();
    match c.parse(None, "colour = false\n") {
        Err(ConfigError::UnknownKey(k)) => assert_eq!(k, "colour"),
        other => panic!("unexpected {:?}", other),
    }
    assert!(c.color);
}

#[test]
fn parse_refuses_wrong_kind() {
    let mut c = Config::default();
    match c.parse(Some("/x".to_string()), "color = \"yes\"\n") {
        Err(ConfigError::WrongType(k)) => assert_eq!(k, "color"),
        other => panic!("unexpected {:?}", other),
    }
    assert!(c.color);
    assert_eq!(c.config_path, "/etc/rah.toml");
    match c.parse(None, "db_path = 3\n") {
        Err(ConfigError::WrongType(k)) => assert_eq!(k, "db_path"),
        other => panic!("unexpected {:?}", other),
    }
    assert_eq!(c.db_path, "/var/lib/rah/db/");
}

#[test]
fn apply_is_all_or_nothing() {
    let mut c = Config::default();
    let settings = vec![
        ("color".to_string(), Setting::Flag(false)),
        ("db_path".to_string(), Setting::Other),
    ];
    assert!(matches!(c.apply(&settings), Err(ConfigError::WrongType(_))));
    assert!(c.color);
    let settings = vec![
        ("color".to_string(), Setting::Flag(false)),
        ("db_path".to_string(), Setting::Text("/d".to_string())),
        ("color".to_string(), Setting::Flag(true)),
    ];
    assert!(c.apply(&settings).is_ok());
    assert!(c.color);
    assert_eq!(c.db_path, "/d");
}
