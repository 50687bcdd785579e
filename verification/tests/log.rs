use rift::log::{Config, Level};

#[test]
fn test_default() {
    rift::log::default("test", "alpha");
}

#[test]
fn test_new() {
    let cfg = Config { json: true, level: Level::Debug };
    rift::log::new(&cfg, "test", "alpha");
    let cfg = Config { json: false, level: Level::Debug };
    rift::log::new(&cfg, "test", "alpha");
}

#[test]
fn test_level_filter() {
    // A record passes when it is at least as severe as the threshold.
    assert!(Level::Critical.is_at_least(&Level::Error));
    assert!(Level::Error.is_at_least(&Level::Error));
    assert!(!Level::Info.is_at_least(&Level::Error));
    assert!(Level::Info.is_at_least(&Level::Trace));
}

#[test]
fn test_settings() {
    let settings = rift::log::default("riftd", "0.1.0");
    assert_eq!(settings.binary, "riftd");
    assert_eq!(settings.version, "0.1.0");
    assert!(!settings.json);
    assert_eq!(settings.level, Level::Critical);

    let cfg = Config { json: true, level: Level::Info };
    let settings = rift::log::new(&cfg, "riftd", "0.1.0");
    assert!(settings.json);
    assert_eq!(settings.level, Level::Info);
}
