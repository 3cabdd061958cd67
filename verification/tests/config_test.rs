use so::config::{parse_limit, resolve, Config, Overrides, Toggle};
use so::error::ErrorKind;

fn persisted_example() -> Config {
    Config {
        limit: 20,
        sites: vec![String::from("stackoverflow")],
        api_key: None,
        lucky: false,
        duckduckgo: false,
    }
}

#[test]
fn resolve_overrides_replace_persisted() {
    let overrides = Overrides {
        limit: Some(String::from("5")),
        sites: Some(vec![String::from("superuser"), String::from("unix")]),
        api_key: None,
        lucky_on: true,
        lucky_off: false,
        duckduckgo_on: false,
        duckduckgo_off: false,
    };
    let c = resolve(persisted_example(), overrides).unwrap();
    assert_eq!(c.limit, 5);
    assert_eq!(c.sites, vec![String::from("superuser"), String::from("unix")]);
    assert!(c.lucky);
    assert!(!c.duckduckgo);
}

#[test]
fn resolve_explicit_off_beats_persisted_on() {
    let mut persisted = persisted_example();
    persisted.lucky = true;
    let mut overrides = Overrides {
        limit: None,
        sites: None,
        api_key: None,
        lucky_on: false,
        lucky_off: true,
        duckduckgo_on: false,
        duckduckgo_off: false,
    };
    let c = resolve(persisted, overrides).unwrap();
    assert!(!c.lucky);

    let mut persisted = persisted_example();
    persisted.lucky = true;
    overrides = Overrides {
        limit: None,
        sites: None,
        api_key: None,
        lucky_on: false,
        lucky_off: false,
        duckduckgo_on: false,
        duckduckgo_off: false,
    };
    let c = resolve(persisted, overrides).unwrap();
    assert!(c.lucky);
}

#[test]
fn resolve_no_overrides_keeps_persisted() {
    let c = resolve(persisted_example(), Overrides::none()).unwrap();
    assert_eq!(c.limit, 20);
    assert_eq!(c.sites, vec![String::from("stackoverflow")]);
    assert_eq!(c.api_key, None);
    assert!(!c.lucky);
    assert!(!c.duckduckgo);
}

#[test]
fn resolve_conflicting_toggle_is_config_error() {
    let overrides = Overrides {
        limit: None,
        sites: None,
        api_key: None,
        lucky_on: true,
        lucky_off: true,
        duckduckgo_on: false,
        duckduckgo_off: false,
    };
    let e = resolve(persisted_example(), overrides).unwrap_err();
    assert_eq!(e.kind, ErrorKind::Config);
}

#[test]
fn resolve_api_key_override_replaces() {
    let mut persisted = persisted_example();
    persisted.api_key = Some(String::from("old-key"));
    let mut overrides = Overrides::none();
    overrides.api_key = Some(String::from("new-key"));
    let c = resolve(persisted, overrides).unwrap();
    assert_eq!(c.api_key, Some(String::from("new-key")));
}

#[test]
fn resolve_bad_limit_is_config_error() {
    let mut overrides = Overrides::none();
    overrides.limit = Some(String::from("twenty"));
    let e = resolve(persisted_example(), overrides).unwrap_err();
    assert_eq!(e.kind, ErrorKind::Config);
}

#[test]
fn parse_limit_accepts_positive_integers() {
    assert_eq!(parse_limit("1").unwrap(), 1);
    assert_eq!(parse_limit("20").unwrap(), 20);
    assert_eq!(parse_limit("65535").unwrap(), 65535);
}

#[test]
fn parse_limit_rejects_zero_empty_and_garbage() {
    assert_eq!(parse_limit("0").unwrap_err().kind, ErrorKind::Config);
    assert_eq!(parse_limit("").unwrap_err().kind, ErrorKind::Config);
    assert_eq!(parse_limit("12a").unwrap_err().kind, ErrorKind::Config);
    assert_eq!(parse_limit("-3").unwrap_err().kind, ErrorKind::Config);
    assert_eq!(parse_limit("65536").unwrap_err().kind, ErrorKind::Config);
    assert_eq!(parse_limit("999999999999").unwrap_err().kind, ErrorKind::Config);
}

#[test]
fn toggle_from_flags_covers_all_states() {
    assert_eq!(Toggle::from_flags(true, false).unwrap(), Toggle::On);
    assert_eq!(Toggle::from_flags(false, true).unwrap(), Toggle::Off);
    assert_eq!(Toggle::from_flags(false, false).unwrap(), Toggle::Inherit);
    assert_eq!(Toggle::from_flags(true, true).unwrap_err().kind, ErrorKind::Config);
}

#[test]
fn default_config_is_well_formed() {
    let c = Config::default();
    assert_eq!(c.limit, 20);
    assert_eq!(c.sites, vec![String::from("stackoverflow")]);
    assert_eq!(c.api_key, None);
    assert!(!c.lucky);
    assert!(!c.duckduckgo);
}
