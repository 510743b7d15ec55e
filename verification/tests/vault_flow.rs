use muppet::vault::{derive_vault_key, encode_salt, load_or_create_salt, VaultError};

#[test]
fn derivation_is_deterministic() {
    let k1 = derive_vault_key(b"correct horse", b"somesalt").unwrap();
    let k2 = derive_vault_key(b"correct horse", b"somesalt").unwrap();
    assert_eq!(k1, k2);
    assert_eq!(k1.len(), 32);
}

#[test]
fn derivation_depends_on_password() {
    let k1 = derive_vault_key(b"password-one", b"somesalt").unwrap();
    let k2 = derive_vault_key(b"password-two", b"somesalt").unwrap();
    assert_ne!(k1, k2);
    // the key is derived, not the password echoed back
    assert_ne!(k1.as_slice(), b"password-one".as_slice());
}

#[test]
fn derivation_depends_on_salt() {
    let k1 = derive_vault_key(b"one password", b"salt-aaaa").unwrap();
    let k2 = derive_vault_key(b"one password", b"salt-bbbb").unwrap();
    assert_ne!(k1, k2);
}

#[test]
fn derivation_rejects_short_salt() {
    let r = derive_vault_key(b"pw", b"short");
    assert_eq!(r.unwrap_err(), VaultError::Derivation);
    assert_eq!(VaultError::Derivation.message(), "failed to hash password");
    assert_eq!(VaultError::RandomSource.message(), "failed to generate random salt");
}

#[test]
fn salt_encoding_matches_known_values() {
    // hex encoding is two digits per byte: always 64 characters,
    // leading zeroes kept
    let zeros = [0u8; 32];
    assert_eq!(encode_salt(&zeros), "0".repeat(64));
    let mut b = [0u8; 32];
    b[0] = 1;
    b[16] = 0xab;
    let expected: String = b.iter().map(|x| format!("{:02x}", x)).collect();
    assert_eq!(encode_salt(&b), expected);
    assert!(encode_salt(&b).starts_with("01000000"));
    // ascending bytes, in byte order, lowercase
    let asc: Vec<u8> = (0u8..32).collect();
    let expected: String = asc.iter().map(|x| format!("{:02x}", x)).collect();
    assert_eq!(encode_salt(&asc), expected);
    assert_eq!(
        encode_salt(&asc),
        "000102030405060708090a0b0c0d0e0f101112131415161718191a1b1c1d1e1f"
    );
    assert_eq!(encode_salt(&asc).len(), 64);
}

#[test]
fn existing_salt_is_kept_and_never_rewritten() {
    let plan = load_or_create_salt(Some("keep-me-exactly".to_string())).unwrap();
    assert_eq!(plan.salt, "keep-me-exactly");
    assert!(!plan.write_new_file);
}

#[test]
fn missing_salt_is_generated_and_marked_for_writing() {
    let plan = load_or_create_salt(None).unwrap();
    assert!(plan.write_new_file);
    assert_eq!(plan.salt.len(), 64);
    assert!(plan.salt.chars().all(|c| c.is_ascii_hexdigit() && !c.is_ascii_uppercase()));
    // two draws almost surely differ; equal draws would mean the random
    // source handed back a constant
    let other = load_or_create_salt(None).unwrap();
    assert_ne!(plan.salt, other.salt);
}
