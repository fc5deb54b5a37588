use deskpet::ghost_file::{GhostFileError, GhostFileManager};
use deskpet::sealing::{open_sealed, seal_with, OpenError};
use deskpet::secure_config::SecureConfigManager;

#[test]
fn test_encrypted_save_load_roundtrip() {
    let json = r#"{"ghost_id":"g-1","name":"加密测试","generation":0}"#;
    let master_key: [u8; 32] = [42u8; 32];
    let data = GhostFileManager::save_encrypted(json, &master_key).unwrap();
    let loaded = GhostFileManager::load_encrypted(&data, &master_key).unwrap();
    assert_eq!(loaded, json);
}

#[test]
fn test_wrong_key_fails_to_decrypt() {
    let json = r#"{"name":"密钥测试"}"#;
    let key1: [u8; 32] = [1u8; 32];
    let key2: [u8; 32] = [2u8; 32];
    let data = GhostFileManager::save_encrypted(json, &key1).unwrap();
    let result = GhostFileManager::load_encrypted(&data, &key2);
    assert!(result.is_err());
    assert!(matches!(result, Err(GhostFileError::Decryption(_))));
}

#[test]
fn test_encrypted_file_binary_format() {
    let json = r#"{"name":"格式测试"}"#;
    let master_key: [u8; 32] = [42u8; 32];
    let data = GhostFileManager::save_encrypted(json, &master_key).unwrap();
    assert!(GhostFileManager::is_encrypted_file(Some(data.as_slice())));
    assert_eq!(&data[..2], b"GF");
    assert_eq!(data.len(), 2 + 32 + 12 + json.len() + 16);
    assert!(!GhostFileManager::is_encrypted_file(Some(json.as_bytes())));
    assert!(!GhostFileManager::is_encrypted_file(None));
}

#[test]
fn ghost_file_uses_the_first_32_bytes_of_a_longer_key() {
    let json = "{}";
    let mut long_key = vec![7u8; 40];
    let data = GhostFileManager::save_encrypted(json, &long_key).unwrap();
    long_key[35] = 0;
    assert_eq!(GhostFileManager::load_encrypted(&data, &long_key).unwrap(), json);
}

#[test]
fn ghost_file_format_errors() {
    let key = [3u8; 32];
    match GhostFileManager::load_encrypted(b"GF-short", &key) {
        Err(GhostFileError::InvalidFormat(m)) => assert_eq!(m, "File too short to be a valid ghost file"),
        other => panic!("unexpected {:?}", other),
    }
    let other = vec![0u8; 60];
    match GhostFileManager::load_encrypted(&other, &key) {
        Err(GhostFileError::InvalidFormat(m)) => assert_eq!(m, "Not a ghost file or unsupported version"),
        other => panic!("unexpected {:?}", other),
    }
}

#[test]
fn ghost_file_error_messages() {
    assert_eq!(GhostFileError::Io("x".to_string()).to_string(), "IO error: x");
    assert_eq!(GhostFileError::Decryption("aead::Error".to_string()).to_string(), "Decryption error: aead::Error");
    assert_eq!(GhostFileError::InvalidFormat("y".to_string()).to_string(), "Invalid file format: y");
}

#[test]
fn sealing_with_fixed_salt_and_nonce_opens_again() {
    let salt = [9u8; 32];
    let nonce = [8u8; 12];
    let key = [5u8; 32];
    let data = seal_with(b"XY", b"label", &key, &salt, &nonce, b"secret").unwrap();
    assert_eq!(&data[..2], b"XY");
    assert_eq!(&data[2..34], &salt);
    assert_eq!(&data[34..46], &nonce);
    assert_ne!(&data[46..52], b"secret");
    assert_eq!(open_sealed(b"XY", b"label", &key, &data).unwrap(), b"secret".to_vec());
    assert!(matches!(open_sealed(b"XY", b"other", &key, &data), Err(OpenError::Decrypt(_))));
    assert!(matches!(open_sealed(b"ZZ", b"label", &key, &data), Err(OpenError::WrongMagic)));
}

#[test]
fn test_ai_config_roundtrip() {
    let json = br#"{"endpoint":"https://api.deepseek.com/v1","api_key":"sk-test-secret-key","model":"deepseek-chat"}"#;
    let key = [11u8; 32];
    let data = SecureConfigManager::save_ai_config(json, &key).unwrap();
    assert_eq!(&data[..2], b"AC");
    let loaded = SecureConfigManager::load_ai_config(Some(data.as_slice()), &key).unwrap().unwrap();
    assert_eq!(loaded, json.to_vec());
}

#[test]
fn test_ai_config_missing_file_returns_none() {
    let key = [11u8; 32];
    assert!(SecureConfigManager::load_ai_config(None, &key).unwrap().is_none());
}

#[test]
fn ai_config_errors() {
    let key = [11u8; 32];
    assert_eq!(SecureConfigManager::load_ai_config(Some(&b"AC"[..]), &key).unwrap_err(), "配置文件格式无效");
    assert_eq!(
        SecureConfigManager::load_ai_config(Some(&[0u8; 50][..]), &key).unwrap_err(),
        "配置文件格式无效或版本不受支持"
    );
    let data = SecureConfigManager::save_ai_config(b"{}", &key).unwrap();
    let other = [12u8; 32];
    assert_eq!(
        SecureConfigManager::load_ai_config(Some(data.as_slice()), &other).unwrap_err(),
        "解密配置失败: aead::Error"
    );
}
