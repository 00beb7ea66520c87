use pass_craft::config::{AppConfig, ConfigError};

fn valid() -> AppConfig {
    AppConfig {
        method: "SHA256".to_string(),
        cut_length: 8,
        end_char: "!".to_string(),
        upper_start: 3,
        name: "test".to_string(),
        email: "test@example.com".to_string(),
        site: "example.com".to_string(),
        input_file: None,
        output_file: None,
        platform_identifier: "test".to_string(),
    }
}

#[test]
fn test_config_validation() {
    let valid_config = valid();

    assert!(valid_config.validate().is_ok());

    let invalid_configs = vec![
        AppConfig { method: "INVALID".to_string(), ..valid_config.clone() },
        AppConfig { cut_length: 0, ..valid_config.clone() },
        AppConfig { cut_length: 65, ..valid_config.clone() },
        AppConfig { upper_start: 10, ..valid_config.clone() },
    ];

    for (i, config) in invalid_configs.iter().enumerate() {
        assert!(config.validate().is_err(), "Test case {} should fail", i);
    }
}

#[test]
fn validation_names_each_error() {
    let c = valid();
    assert_eq!(AppConfig { method: "FOO".to_string(), ..c.clone() }.validate(), Err(ConfigError::UnsupportedMethod));
    assert_eq!(AppConfig { cut_length: 0, ..c.clone() }.validate(), Err(ConfigError::InvalidCutLength));
    assert_eq!(AppConfig { cut_length: 65, ..c.clone() }.validate(), Err(ConfigError::InvalidCutLength));
    assert_eq!(AppConfig { upper_start: 9, ..c.clone() }.validate(), Err(ConfigError::InvalidUpperStart));
    assert_eq!(AppConfig { cut_length: 64, upper_start: 64, ..c.clone() }.validate(), Ok(()));
    assert_eq!(AppConfig { cut_length: 1, upper_start: 0, ..c.clone() }.validate(), Ok(()));
    assert_eq!(AppConfig { method: "sha512".to_string(), ..c.clone() }.validate(), Ok(()));
    assert_eq!(AppConfig { method: "Md5".to_string(), ..c.clone() }.validate(), Ok(()));
    assert_eq!(AppConfig { method: "".to_string(), ..c.clone() }.validate(), Err(ConfigError::UnsupportedMethod));
    assert_eq!(ConfigError::UnsupportedMethod.describe("FOO"), "Unsupported hash algorithm: FOO");
    assert_eq!(ConfigError::InvalidCutLength.describe("MD5"), "Cut length must be between 1-64");
    assert_eq!(
        ConfigError::InvalidUpperStart.describe("MD5"),
        "Upper start position cannot exceed cut length"
    );
}

#[test]
fn validation_checks_method_first() {
    let c = AppConfig { method: "FOO".to_string(), cut_length: 0, upper_start: 5, ..valid() };
    assert_eq!(c.validate(), Err(ConfigError::UnsupportedMethod));
    let c = AppConfig { cut_length: 0, upper_start: 5, ..valid() };
    assert_eq!(c.validate(), Err(ConfigError::InvalidCutLength));
}

#[test]
fn defaults() {
    let c = AppConfig::default();
    assert_eq!(c.method, "SHA512");
    assert_eq!(c.cut_length, 8);
    assert_eq!(c.end_char, "!");
    assert_eq!(c.upper_start, 3);
    assert_eq!(c.name, "");
    assert_eq!(c.email, "");
    assert_eq!(c.site, "");
    assert_eq!(c.input_file, None);
    assert_eq!(c.output_file, None);
}

#[test]
fn text_then_hash_resolution() {
    let c = AppConfig::new(
        Some("name:john,site:example.com"),
        Some("method:sha256,cut:10"),
        None,
        None,
        None,
        None,
        None,
    );
    assert_eq!(c.method, "SHA256");
    assert_eq!(c.cut_length, 10);
    assert_eq!(c.name, "john");
    assert_eq!(c.site, "example.com");
    assert_eq!(c.email, "");
    assert_eq!(c.end_char, "!");
    assert_eq!(c.upper_start, 3);
    assert_eq!(c.input_file, None);
    assert_eq!(c.output_file, None);
}

#[test]
fn compact_form_resolution() {
    let mut c = AppConfig::default();
    AppConfig::apply_sslf_config(&mut c, "name:a,email:b;method:md5,cut:4");
    assert_eq!(c.name, "a");
    assert_eq!(c.email, "b");
    assert_eq!(c.method, "MD5");
    assert_eq!(c.cut_length, 4);
    assert_eq!(c.site, "");
    assert_eq!(c.end_char, "!");
    assert_eq!(c.upper_start, 3);
}

#[test]
fn compact_form_without_semicolon() {
    let mut c = AppConfig::default();
    AppConfig::apply_sslf_config(&mut c, "name:a,cut:4");
    assert_eq!(c.name, "a");
    assert_eq!(c.cut_length, 8);
}

#[test]
fn file_overrides_inline_sources() {
    let file = "# my passwords\n\n   \nname:x;method:sha1,cut:5\n";
    let from_file = AppConfig::new(
        Some("name:john,site:example.com"),
        Some("method:sha256,cut:10"),
        None,
        None,
        Some("conf.txt"),
        Some(file),
        Some("out.txt"),
    );
    let direct = AppConfig::new(None, None, None, Some("name:x;method:sha1,cut:5"), Some("conf.txt"), None, Some("out.txt"));
    assert_eq!(from_file.name, "x");
    assert_eq!(from_file.method, "SHA1");
    assert_eq!(from_file.cut_length, 5);
    assert_eq!(from_file.site, "");
    for c in [&from_file, &direct] {
        assert_eq!(c.input_file.as_deref(), Some("conf.txt"));
        assert_eq!(c.output_file.as_deref(), Some("out.txt"));
    }
    assert_eq!(from_file.name, direct.name);
    assert_eq!(from_file.email, direct.email);
    assert_eq!(from_file.site, direct.site);
    assert_eq!(from_file.method, direct.method);
    assert_eq!(from_file.cut_length, direct.cut_length);
    assert_eq!(from_file.end_char, direct.end_char);
    assert_eq!(from_file.upper_start, direct.upper_start);
}

#[test]
fn empty_file_keeps_inline_sources() {
    let c = AppConfig::new(Some("name:john"), None, None, None, Some("f"), Some("# only a comment\n\n"), None);
    assert_eq!(c.name, "john");
    let d = AppConfig::load_from_file("# only a comment\n\n");
    assert_eq!(d.name, "");
    assert_eq!(d.method, "SHA512");
}

#[test]
fn file_last_meaningful_line_wins() {
    let c = AppConfig::load_from_file("name:a;cut:4\r\nname:b;cut:6 <!-- old -->\r\n<!-- name:c;cut:7 -->\n");
    assert_eq!(c.name, "b");
    assert_eq!(c.cut_length, 6);
}

#[test]
fn unknown_keys_are_ignored() {
    let mut c = AppConfig::default();
    AppConfig::apply_text_config(&mut c, "foo:bar,name:n,nokey,bar:baz");
    AppConfig::apply_hash_config(&mut c, "foo:bar,cut:9,name:ignored");
    assert_eq!(c.name, "n");
    assert_eq!(c.cut_length, 9);
    assert_eq!(c.method, "SHA512");
    assert_eq!(c.email, "");
    let mut d = AppConfig::default();
    AppConfig::apply_slkv_config(&mut d, "foo:bar");
    assert_eq!(d.name, "");
    assert_eq!(d.method, "SHA512");
    assert_eq!(d.cut_length, 8);
    assert_eq!(d.end_char, "!");
    assert_eq!(d.upper_start, 3);
}

#[test]
fn combined_list_sets_both_kinds() {
    let mut c = AppConfig::default();
    AppConfig::apply_slkv_config(&mut c, " cut : 12 , name : ann ,end:#, upper-start:5, email:e@x");
    assert_eq!(c.name, "ann");
    assert_eq!(c.email, "e@x");
    assert_eq!(c.cut_length, 12);
    assert_eq!(c.end_char, "#");
    assert_eq!(c.upper_start, 5);
}

#[test]
fn unreadable_numbers_fall_back() {
    let mut c = AppConfig::default();
    AppConfig::apply_hash_config(&mut c, "cut:20,upper-start:9");
    AppConfig::apply_hash_config(&mut c, "cut:abc,upper-start:-1");
    assert_eq!(c.cut_length, 8);
    assert_eq!(c.upper_start, 3);
    AppConfig::apply_hash_config(&mut c, "cut:+7,upper-start:99999999999999999999999");
    assert_eq!(c.cut_length, 7);
    assert_eq!(c.upper_start, 3);
    AppConfig::apply_hash_config(&mut c, "cut:");
    assert_eq!(c.cut_length, 8);
}

#[test]
fn value_keeps_later_colons() {
    let mut c = AppConfig::default();
    AppConfig::apply_text_config(&mut c, "site:http://a.b");
    assert_eq!(c.site, "http://a.b");
}

#[test]
fn method_is_stored_upper_case() {
    let mut c = AppConfig::default();
    AppConfig::apply_hash_config(&mut c, "method: sha1 ");
    assert_eq!(c.method, "SHA1");
    AppConfig::apply_hash_config(&mut c, "method:\u{17f}ha512");
    assert_eq!(c.method, "SHA512");
    assert!(c.validate().is_ok());
}
