use jjq::config::{get_or_default, get_strategy, get_trunk_bookmark, is_valid_key, require_initialized, validate_set, Strategy};

#[test]
fn test_config_invalid_key() {
    let e = validate_set("invalid_key", "x").err().unwrap();
    assert_eq!(e.code, 10);
    assert!(e.message.starts_with("unknown config key: invalid_key\nvalid keys: trunk_bookmark, check_command"));
}

#[test]
fn strategy_names_round_trip() {
    assert_eq!(Strategy::from_name("merge"), Some(Strategy::Merge));
    assert_eq!(Strategy::from_name("rebase"), Some(Strategy::Rebase));
    assert_eq!(Strategy::from_name("squash"), None);
    assert_eq!(Strategy::Merge.as_str(), "merge");
    assert_eq!(Strategy::Rebase.as_str(), "rebase");
}

#[test]
fn config_keys_and_values_are_checked() {
    assert!(is_valid_key("trunk_bookmark") && is_valid_key("check_command") && is_valid_key("strategy"));
    assert!(!is_valid_key("max_failures"));
    assert!(validate_set("strategy", "rebase").is_ok());
    let e = validate_set("strategy", "squash").err().unwrap();
    assert_eq!(e.message, "invalid value for strategy: squash\nvalid values: rebase, merge");
    assert!(validate_set("check_command", "make test").is_ok());
}

#[test]
fn defaults_apply_when_unset() {
    assert_eq!(get_trunk_bookmark(None), "main");
    assert_eq!(get_trunk_bookmark(Some("trunk".to_string())), "trunk");
    assert_eq!(get_or_default(None, "d"), "d");
    assert_eq!(get_strategy(None).ok(), Some(Strategy::Merge));
    assert_eq!(get_strategy(Some("rebase".to_string())).ok(), Some(Strategy::Rebase));
    assert_eq!(get_strategy(Some("bogus".to_string())).err().unwrap().message, "invalid strategy value: bogus");
}

#[test]
fn test_run_without_init() {
    let e = require_initialized(false).err().unwrap();
    assert_eq!(format!("jjq: {}", e.message), "jjq: jjq is not initialized. Run 'jjq init' first.");
    assert_eq!(e.code, 10);
    assert!(require_initialized(true).is_ok());
}

#[test]
fn test_push_without_init_fails() {
    let e = require_initialized(false).err().unwrap();
    assert_eq!(format!("jjq: {}", e.message), "jjq: jjq is not initialized. Run 'jjq init' first.");
}

#[test]
fn test_config_without_init_fails() {
    let e = require_initialized(false).err().unwrap();
    assert_eq!(format!("jjq: {}", e.message), "jjq: jjq is not initialized. Run 'jjq init' first.");
}
