use assoc_guard::features::config_type_to_rtl;
use assoc_guard::features::decode_config;
use assoc_guard::features::enabled_state_to_rtl;
use assoc_guard::features::query_feature_configuration;
use assoc_guard::features::FeatureConfiguration;
use assoc_guard::features::FeatureConfigurationType;
use assoc_guard::features::FeatureEnabledState;
use assoc_guard::features::FeatureError;
use assoc_guard::setuserfta::is_cmd_script;
use assoc_guard::setuserfta::SetUserFtaError;
use assoc_guard::sysinfo::build_sysinfo;
use assoc_guard::text::json_string;
use assoc_guard::text::non_empty;
use assoc_guard::text::str_le;
use assoc_guard::text::u64_to_dec;

#[test]
fn decode_config_unpacks_flag_word() {
    // priority 8, enabled state 2 (enabled), variant 5, payload kind 1
    let flags: u32 = 8 | (2 << 4) | (5 << 8) | (1 << 14);
    let cfg = decode_config(42, flags, 7);
    assert_eq!(cfg.feature_id, 42);
    assert_eq!(cfg.priority, 8);
    assert_eq!(cfg.enabled_state, FeatureEnabledState::Enabled);
    assert_eq!(cfg.variant, 5);
    assert_eq!(cfg.variant_payload_kind, 1);
    assert_eq!(cfg.variant_payload, 7);
}

#[test]
fn decode_config_state_variants() {
    assert_eq!(decode_config(1, 1 << 4, 0).enabled_state, FeatureEnabledState::Disabled);
    assert_eq!(decode_config(1, 2 << 4, 0).enabled_state, FeatureEnabledState::Enabled);
    assert_eq!(decode_config(1, 3 << 4, 0).enabled_state, FeatureEnabledState::Default);
    assert_eq!(decode_config(1, 0, 0).enabled_state, FeatureEnabledState::Default);
}

#[test]
fn rtl_numeric_mappings() {
    assert_eq!(enabled_state_to_rtl(FeatureEnabledState::Default), 0);
    assert_eq!(enabled_state_to_rtl(FeatureEnabledState::Disabled), 1);
    assert_eq!(enabled_state_to_rtl(FeatureEnabledState::Enabled), 2);
    assert_eq!(config_type_to_rtl(FeatureConfigurationType::Boot), 0);
    assert_eq!(config_type_to_rtl(FeatureConfigurationType::Runtime), 1);
}

#[test]
fn query_feature_finds_first_match() {
    let mk = |id: u32| FeatureConfiguration {
        feature_id: id,
        priority: 0,
        enabled_state: FeatureEnabledState::Default,
        variant: 0,
        variant_payload_kind: 0,
        variant_payload: id,
    };
    let all = vec![mk(1), mk(2), mk(2)];
    let found = query_feature_configuration(2, &all).unwrap();
    assert_eq!(found.variant_payload, 2);
    let missing = query_feature_configuration(9, &all);
    assert!(matches!(missing, Err(FeatureError::NotFound { feature_id: 9 })));
}

#[test]
fn feature_error_messages() {
    assert_eq!(FeatureError::WindowsOnly.message(), "windows-only");
    let e = FeatureError::WindowsApiError { api: "RtlSetFeatureConfigurations".to_string(), status: -1073741811 };
    assert_eq!(e.message(), "RtlSetFeatureConfigurations failed with NTSTATUS -1073741811");
    assert_eq!(FeatureError::NotFound { feature_id: 3 }.message(), "feature id 3 not found");
}

#[test]
fn sysinfo_reports_latest_scheme() {
    let si = build_sysinfo(Some("S-1-5-21-1-2-3-1000".to_string()), Some(1), Some(true), Some(true));
    assert!(si.user_choice_latest_enabled);
    assert_eq!(si.guidance.len(), 4);
    assert!(si.guidance[0].starts_with("HashVersion!=0 detected"));

    let si = build_sysinfo(Some("S-1-5-21-1-2-3-1000".to_string()), Some(0), None, None);
    assert!(!si.user_choice_latest_enabled);
    assert!(si.guidance.is_empty());

    let si = build_sysinfo(None, None, None, Some(false));
    assert!(!si.user_choice_latest_enabled);
    assert!(si.guidance.is_empty());
}

#[test]
fn is_cmd_script_checks_extension() {
    assert!(is_cmd_script("helper.cmd"));
    assert!(is_cmd_script("helper.BAT"));
    assert!(!is_cmd_script("SetUserFTA.exe"));
    assert!(!is_cmd_script("cmd"));
    assert!(!is_cmd_script(".cmd"));
    assert!(is_cmd_script("a.b.cmd"));
}

#[test]
fn setuserfta_error_messages() {
    assert_eq!(SetUserFtaError::InvalidArgs.message(), "invalid args");
    assert_eq!(SetUserFtaError::SpawnFailed("boom".to_string()).message(), "boom");
    let e = SetUserFtaError::NonZeroExit {
        code: Some(3),
        stdout: String::new(),
        stderr: "denied".to_string(),
    };
    assert_eq!(e.message(), "SetUserFTA failed (exit=3): denied");
    let e = SetUserFtaError::NonZeroExit {
        code: None,
        stdout: "out".to_string(),
        stderr: String::new(),
    };
    assert_eq!(e.message(), "SetUserFTA failed: out");
}

#[test]
fn json_string_escapes() {
    assert_eq!(json_string("plain"), "\"plain\"");
    assert_eq!(json_string("a\"b\\c"), "\"a\\\"b\\\\c\"");
    assert_eq!(json_string("a\nb\rc\td"), "\"a\\nb\\rc\\td\"");
    assert_eq!(json_string("\u{1}"), "\"\\u0001\"");
    assert_eq!(json_string("\u{9f}"), "\"\\u009f\"");
}

#[test]
fn text_helpers() {
    assert_eq!(non_empty("  x  "), Some("x"));
    assert_eq!(non_empty("   "), None);
    assert!(str_le("abc", "abd"));
    assert!(str_le("abc", "abc"));
    assert!(!str_le("abd", "abc"));
    assert!(str_le("ab", "abc"));
    assert_eq!(u64_to_dec(0), "0");
    assert_eq!(u64_to_dec(1234567890), "1234567890");
}
