use hmac::{Hmac, Mac};
use aquerty_stop::license::{generate_key, info_from_key, sign_payload, validate_key};

#[test]
fn demo_key_works() {
    assert!(validate_key("AQUERTY-PRO-DEMO-2026"));
}

#[test]
fn generated_key_roundtrips() {
    let key = generate_key("SACHA");
    assert!(validate_key(&key));
}

#[test]
fn generated_key_has_expected_shape() {
    let key = generate_key("sacha");
    assert!(key.starts_with("AQUERTY-SACHA-"));
    let sig = &key["AQUERTY-SACHA-".len()..];
    assert_eq!(sig.len(), 8);
    assert!(sig.chars().all(|c| c.is_ascii_digit() || ('A'..='F').contains(&c)));
    assert_eq!(sig, sign_payload("SACHA"));
}

#[test]
fn signature_is_upper_hex_of_hmac_prefix() {
    let mut mac = <Hmac<sha2::Sha256> as Mac>::new_from_slice(b"aquerty-stop-v1-change-me-before-ship").unwrap();
    mac.update(b"ORDER42");
    let tag = mac.finalize().into_bytes();
    let expected = hex::encode(&tag[..4]).to_uppercase();
    assert_eq!(sign_payload("ORDER42"), expected);
    assert_ne!(sign_payload("ORDER42"), sign_payload("ORDER43"));
}

#[test]
fn key_is_normalized_before_checking() {
    let key = generate_key("life-gum0001");
    assert!(validate_key(&format!("  {}  ", key.to_lowercase())));
    let spaced = key.replacen('-', " - ", 1);
    assert!(validate_key(&spaced));
    assert!(validate_key(" aquerty-pro-demo-2026 "));
}

#[test]
fn payload_with_dashes_roundtrips() {
    let key = generate_key("a-b-c");
    assert!(key.starts_with("AQUERTY-A-B-C-"));
    assert!(validate_key(&key));
}

#[test]
fn bad_keys_are_refused() {
    assert!(!validate_key(""));
    assert!(!validate_key("   "));
    assert!(!validate_key("AQUERTY-SACHA"));
    assert!(!validate_key("OTHER-SACHA-12345678"));
    let key = generate_key("SACHA");
    let mut tampered = key.clone();
    tampered.replace_range(8..9, "T");
    assert!(!validate_key(&tampered));
    let short = &key[..key.len() - 1];
    assert!(!validate_key(short));
    let not_hex = format!("{}G", &key[..key.len() - 1]);
    assert!(!validate_key(&not_hex));
}

#[test]
fn license_info_for_each_kind_of_key() {
    let free = info_from_key(None);
    assert!(!free.is_pro);
    assert_eq!(free.key, None);
    assert_eq!(free.message, "Version gratuite");

    let bad = info_from_key(Some("nope"));
    assert!(!bad.is_pro);
    assert_eq!(bad.key, None);
    assert_eq!(bad.message, "Clé invalide");

    let pro = info_from_key(Some("  aquerty-pro-demo-2026 "));
    assert!(pro.is_pro);
    assert_eq!(pro.key.as_deref(), Some("AQUERTY-PRO-DEMO-2026"));
    assert_eq!(pro.message, "Licence Pro active");
}

#[test]
fn verdict_ignores_padding_case_and_spaces() {
    for k in [generate_key("SACHA"), "AQUERTY-PRO-DEMO-2026".to_string(), "AQUERTY-X-00000000".to_string()] {
        let v = validate_key(&k);
        assert_eq!(v, validate_key(&format!(" {} ", k.to_ascii_lowercase())));
        assert_eq!(v, validate_key(&k.replace(' ', "")));
    }
}

#[test]
fn stored_key_validates_and_is_stored_as_itself() {
    let typed = format!("  {} ", generate_key("order7").to_lowercase());
    let info = info_from_key(Some(&typed));
    assert!(info.is_pro);
    let stored = info.key.clone().unwrap();
    assert_eq!(stored, typed.trim().to_uppercase());
    let again = info_from_key(Some(&stored));
    assert!(again.is_pro);
    assert_eq!(again.key, Some(stored));
}

#[test]
fn verdict_ignores_padding_case_and_spaces_beyond_ascii() {
    for k in ["AQUERTY-PRO-DEMO-2026 é", "äquerty-x", "AQUERTY-PRO-DEMO-2026", "  aquerty pro demo 2026 ß"] {
        let v = validate_key(k);
        assert_eq!(v, validate_key(&format!(" {} ", k.to_ascii_lowercase())));
        assert_eq!(v, validate_key(&k.replace(' ', "")));
    }
}
