use spot::settings::{load, ConfigError, DEFAULT_PORT};

fn pairs(items: &[(&str, &str)]) -> Vec<(String, String)> {
    items.iter().map(|(k, v)| (k.to_string(), v.to_string())).collect()
}

#[test]
fn override_wins_over_base() {
    let base = pairs(&[("name", "spot"), ("level", "info")]);
    let env = pairs(&[("SPOT_LEVEL", "debug")]);
    let c = load(Some(base), env).unwrap();
    assert_eq!(c.get("level").map(|s| s.as_str()), Some("debug"));
    assert_eq!(c.get("name").map(|s| s.as_str()), Some("spot"));
}

#[test]
fn last_override_wins() {
    let base = pairs(&[("level", "info")]);
    let env = pairs(&[("SPOT_LEVEL", "debug"), ("spot_level", "trace")]);
    let c = load(Some(base), env).unwrap();
    assert_eq!(c.get("level").map(|s| s.as_str()), Some("trace"));
}

#[test]
fn missing_source_fails() {
    let env = pairs(&[("SPOT_PORT", "5000")]);
    assert!(matches!(load(None, env), Err(ConfigError::MissingSource)));
    assert!(matches!(load(None, Vec::new()), Err(ConfigError::MissingSource)));
}

#[test]
fn unprefixed_variables_are_ignored() {
    let base = pairs(&[("port", "4000")]);
    let env = pairs(&[("PORT", "1"), ("SPOTPORT", "2"), ("OTHER_PORT", "3")]);
    let c = load(Some(base), env).unwrap();
    assert_eq!(c.get("port").map(|s| s.as_str()), Some("4000"));
    assert_eq!(c.listen_port(), Ok(4000));
}

#[test]
fn base_keys_are_lowercased() {
    let base = pairs(&[("Port", "4000")]);
    let c = load(Some(base), Vec::new()).unwrap();
    assert_eq!(c.get("port").map(|s| s.as_str()), Some("4000"));
    assert_eq!(c.get("Port"), None);
}

#[test]
fn env_override_port_end_to_end() {
    let base = pairs(&[("PORT", "4000")]);
    let env = pairs(&[("SPOT_PORT", "5000")]);
    let c = load(Some(base), env).unwrap();
    assert_eq!(c.listen_port(), Ok(5000));
}

#[test]
fn default_port_when_unset() {
    let c = load(Some(Vec::new()), Vec::new()).unwrap();
    assert_eq!(DEFAULT_PORT, 3000);
    assert_eq!(c.listen_port(), Ok(3000));
    assert_eq!(c.get("port"), None);
}

#[test]
fn port_bounds() {
    let c = load(Some(pairs(&[("port", "65535")])), Vec::new()).unwrap();
    assert_eq!(c.listen_port(), Ok(65535));
    let c = load(Some(pairs(&[("port", "0")])), Vec::new()).unwrap();
    assert_eq!(c.listen_port(), Ok(0));
    let c = load(Some(pairs(&[("port", "65536")])), Vec::new()).unwrap();
    assert_eq!(c.listen_port(), Err(ConfigError::InvalidPort));
    let c = load(Some(pairs(&[("port", "123456789012345678901234567890")])), Vec::new()).unwrap();
    assert_eq!(c.listen_port(), Err(ConfigError::InvalidPort));
}

#[test]
fn port_not_a_number() {
    for bad in ["", "80a", "-1", " 80", "eighty"] {
        let c = load(Some(pairs(&[("port", bad)])), Vec::new()).unwrap();
        assert_eq!(c.listen_port(), Err(ConfigError::InvalidPort), "{bad:?}");
    }
}

#[test]
fn keys_are_listed_once() {
    let base = pairs(&[("port", "4000"), ("name", "a"), ("NAME", "b")]);
    let env = pairs(&[("SPOT_PORT", "5000"), ("SPOT_TOKEN", "x")]);
    let c = load(Some(base), env).unwrap();
    let mut keys = c.keys();
    keys.sort();
    assert_eq!(keys, vec!["name".to_string(), "port".to_string(), "token".to_string()]);
    assert_eq!(c.get("name").map(|s| s.as_str()), Some("b"));
}
