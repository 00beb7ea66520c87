use pass_craft::config::{AppConfig, ConfigError};
use pass_craft::digest::{get_string_hash, HashMethod};
use pass_craft::password::{format_password, generate_password_hash};

#[test]
fn test_generate_password_hash() {
    let config = AppConfig {
        method: "MD5".to_string(),
        cut_length: 6,
        end_char: "!".to_string(),
        upper_start: 2,
        name: "test".to_string(),
        email: "test@example.com".to_string(),
        site: "example.com".to_string(),
        ..Default::default()
    };

    let result = generate_password_hash(&config).unwrap();
    assert!(result.starts_with("test,"));
    assert!(result.ends_with(",example.com"));
    assert!(result.contains("!"));
}

#[test]
fn test_hash_functions() {
    let test_string = "hello world";

    let md5_hash = get_string_hash(test_string, "MD5");
    let sha1_hash = get_string_hash(test_string, "SHA1");
    let sha256_hash = get_string_hash(test_string, "SHA256");
    let sha512_hash = get_string_hash(test_string, "SHA512");

    assert_eq!(md5_hash.len(), 32);
    assert_eq!(sha1_hash.len(), 40);
    assert_eq!(sha256_hash.len(), 64);
    assert_eq!(sha512_hash.len(), 128);

    assert_eq!(md5_hash, "5eb63bbbe01eeed093cb22bb8f5acdc3");
}

#[test]
fn known_digests() {
    assert_eq!(get_string_hash("hello world", "sha1"), "2aae6c35c94fcfb415dbe95f408b9ce91ee846ed");
    assert_eq!(
        get_string_hash("hello world", "Sha256"),
        "b94d27b9934d3e08a52e52d7da7dabfac484efe37a5380ee9088f7ace2efcde9"
    );
    assert_eq!(
        get_string_hash("hello world", "SHA512"),
        "309ecc489c12d6eb4cc40f50c902f2b4d0ed77ee511a7c7a9bcd3ca86d4cd86f989dd35bc5ff499670da34255b45b0cfd830e81f605dcf7dc5542e93ae9cd76f"
    );
    assert_eq!(get_string_hash("", "md5"), "d41d8cd98f00b204e9800998ecf8427e");
}

#[test]
fn method_names() {
    assert_eq!(HashMethod::from_name("md5"), Some(HashMethod::Md5));
    assert_eq!(HashMethod::from_name("SHA1"), Some(HashMethod::Sha1));
    assert_eq!(HashMethod::from_name("sHa256"), Some(HashMethod::Sha256));
    assert_eq!(HashMethod::from_name("sha512"), Some(HashMethod::Sha512));
    assert_eq!(HashMethod::from_name("sha-512"), None);
    assert_eq!(HashMethod::from_name(""), None);
    assert_eq!(HashMethod::Md5.digest("hello world").len(), 16);
    assert_eq!(HashMethod::Sha512.digest("hello world").len(), 64);
}

fn md5_config(cut: usize, end: &str, upper: usize) -> AppConfig {
    AppConfig {
        method: "MD5".to_string(),
        cut_length: cut,
        end_char: end.to_string(),
        upper_start: upper,
        name: "test".to_string(),
        email: "test@example.com".to_string(),
        site: "example.com".to_string(),
        ..Default::default()
    }
}

const HELLO_MD5: &str = "5eb63bbbe01eeed093cb22bb8f5acdc3";

#[test]
fn format_cuts_replaces_and_uppercases() {
    let c = md5_config(6, "!", 2);
    assert_eq!(format_password(&c, HELLO_MD5), "test,5Eb63!,example.com");
}

#[test]
fn format_end_char_is_uppercased_inside_span() {
    let c = md5_config(4, "xyz", 4);
    assert_eq!(format_password(&c, HELLO_MD5), "test,5EBX,example.com");
    let c = md5_config(4, "xyz", 3);
    assert_eq!(format_password(&c, HELLO_MD5), "test,5EBx,example.com");
}

#[test]
fn format_without_end_char() {
    let c = md5_config(8, "", 0);
    assert_eq!(format_password(&c, HELLO_MD5), "test,5eb63bbb,example.com");
}

#[test]
fn format_cut_longer_than_digest() {
    let c = md5_config(40, "", 0);
    assert_eq!(format_password(&c, HELLO_MD5), format!("test,{},example.com", HELLO_MD5));
}

#[test]
fn format_span_longer_than_token_uppercases_all() {
    let c = md5_config(40, "x", 40);
    assert_eq!(format_password(&c, HELLO_MD5), "test,5EB63BBBE01EEED093CB22BB8F5ACDCX,example.com");
    let r = generate_password_hash(&c).unwrap();
    let token = &r["test,".len()..r.len() - ",example.com".len()];
    assert_eq!(token.len(), 32);
    assert!(token.ends_with('X'));
    assert!(token.chars().all(|ch| !ch.is_ascii_lowercase()));
}

#[test]
fn unicode_method_names() {
    assert_eq!(HashMethod::from_name("\u{17f}ha1"), Some(HashMethod::Sha1));
    assert_eq!(HashMethod::from_upper("SHA256"), Some(HashMethod::Sha256));
    assert_eq!(HashMethod::from_upper("sha256"), None);
    assert_eq!(get_string_hash("hello world", "md5"), HELLO_MD5);
}

#[test]
fn generated_token_has_the_cut_length() {
    for method in ["MD5", "SHA1", "SHA256", "SHA512"] {
        let c = AppConfig { method: method.to_string(), ..md5_config(10, "#", 4) };
        let r = generate_password_hash(&c).unwrap();
        let token = &r["test,".len()..r.len() - ",example.com".len()];
        assert_eq!(token.chars().count(), 10);
        assert!(token.ends_with('#'));
        assert!(token[..4].chars().all(|ch| !ch.is_ascii_lowercase()));
        assert!(token[4..].chars().all(|ch| !ch.is_ascii_uppercase()));
    }
}

#[test]
fn generation_is_deterministic() {
    let c = md5_config(12, "@", 5);
    let a = generate_password_hash(&c).unwrap();
    let b = generate_password_hash(&c.clone()).unwrap();
    assert_eq!(a, b);
    let expected = format_password(&c, &get_string_hash("test,test@example.com,example.com", "MD5"));
    assert_eq!(a, expected);
}

#[test]
fn generation_hashes_email_but_omits_it() {
    let a = generate_password_hash(&md5_config(12, "", 0)).unwrap();
    let other = AppConfig { email: "other@example.com".to_string(), ..md5_config(12, "", 0) };
    let b = generate_password_hash(&other).unwrap();
    assert!(!a.contains("test@example.com"));
    assert_ne!(a, b);
}

#[test]
fn generation_rejects_invalid_config() {
    let c = AppConfig { method: "FOO".to_string(), ..md5_config(6, "!", 2) };
    assert_eq!(generate_password_hash(&c), Err(ConfigError::UnsupportedMethod));
    let c = md5_config(6, "!", 7);
    assert_eq!(generate_password_hash(&c), Err(ConfigError::InvalidUpperStart));
}
