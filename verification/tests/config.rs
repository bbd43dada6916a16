use cstat::config::{load_config, ConfigFile};
use cstat::types::Config;

fn small(table: &toml::Table, key: &str) -> Option<u8> {
    table.get(key).and_then(|v| v.as_integer()).map(|n| u8::try_from(n).unwrap())
}

fn load_from_str(s: &str) -> Config {
    let file = match s.parse::<toml::Table>() {
        Ok(table) => ConfigFile::Parsed(Config {
            separator: table.get("separator").and_then(|v| v.as_str()).map(|v| v.to_string()),
            colors: table.get("colors").and_then(|v| v.as_bool()),
            path_levels: small(&table, "path_levels"),
            context_warning: small(&table, "context_warning"),
            context_critical: small(&table, "context_critical"),
        }),
        Err(e) => ConfigFile::Invalid(e.to_string()),
    };
    load_config(file).0
}

#[test]
fn missing_file_returns_defaults() {
    let (cfg, warning) = load_config(ConfigFile::Unreadable);
    assert_eq!(cfg.separator(), " │ ");
    assert!(cfg.colors());
    assert_eq!(cfg.path_levels(), 1);
    assert_eq!(warning, None);
}

#[test]
fn no_path_returns_defaults() {
    let (cfg, warning) = load_config(ConfigFile::NoPath);
    assert!(cfg.colors());
    assert_eq!(warning, None);
}

#[test]
fn full_config() {
    let cfg = load_from_str(
        r#"
separator = " | "
colors = false
path_levels = 2
context_warning = 60
context_critical = 80
"#,
    );
    assert_eq!(cfg.separator(), " | ");
    assert!(!cfg.colors());
    assert_eq!(cfg.path_levels(), 2);
    assert_eq!(cfg.context_warning, Some(60));
    assert_eq!(cfg.context_critical, Some(80));
}

#[test]
fn partial_config() {
    let cfg = load_from_str("colors = false\n");
    assert!(!cfg.colors());
    assert_eq!(cfg.separator(), " │ ");
    assert_eq!(cfg.path_levels(), 1);
    assert_eq!(cfg.context_warning, None);
}

#[test]
fn malformed_toml_returns_defaults() {
    let cfg = load_from_str("this is not valid toml {{{}}}");
    assert!(cfg.colors());
    assert_eq!(cfg.separator(), " │ ");
}

#[test]
fn empty_file_returns_defaults() {
    let cfg = load_from_str("");
    assert!(cfg.colors());
    assert_eq!(cfg.separator(), " │ ");
}

#[test]
fn path_levels_clamped() {
    let cfg = load_from_str("path_levels = 5\n");
    assert_eq!(cfg.path_levels(), 3);

    let cfg = load_from_str("path_levels = 0\n");
    assert_eq!(cfg.path_levels(), 1);
}

#[test]
fn invalid_config_is_reported() {
    let (cfg, warning) = load_config(ConfigFile::Invalid("expected `=`".into()));
    assert!(cfg.colors());
    assert_eq!(warning.as_deref(), Some("cstat: invalid config: expected `=`"));
}
