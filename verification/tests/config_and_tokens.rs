//! The application configuration and the persisted device tokens.

use liana_gui::aliases::AliasMap;
use liana_gui::chain::Fingerprint;
use liana_gui::config::{Config, ConfigError, LogLevel};
use liana_gui::hw::DeviceKind;
use liana_gui::wallet::{HardwareWalletConfig, Wallet};

#[test]
fn config_new_points_at_the_daemon_config() {
    let cfg = Config::new(String::from("/data/daemon.toml"), true);
    assert_eq!(cfg.daemon_config_path.as_deref(), Some("/data/daemon.toml"));
    assert_eq!(cfg.daemon_rpc_path, None);
    assert_eq!(cfg.log_level, None);
    assert_eq!(cfg.debug, None);
    assert!(cfg.start_internal_bitcoind);
}

#[test]
fn log_level_named_values() {
    let mut cfg = Config::new(String::from("p"), false);
    cfg.log_level = Some(String::from("info"));
    assert_eq!(cfg.log_level().unwrap(), LogLevel::Info);
    cfg.log_level = Some(String::from("debug"));
    assert_eq!(cfg.log_level().unwrap(), LogLevel::Debug);
    cfg.log_level = Some(String::from("trace"));
    assert_eq!(cfg.log_level().unwrap(), LogLevel::Trace);
}

#[test]
fn log_level_rejects_unknown_values() {
    let mut cfg = Config::new(String::from("p"), false);
    cfg.log_level = Some(String::from("verbose"));
    assert_eq!(
        cfg.log_level(),
        Err(ConfigError::InvalidField(
            "log_level",
            String::from("Unknown value 'verbose'")
        ))
    );
}

#[test]
fn log_level_defaults() {
    let mut cfg = Config::new(String::from("p"), false);
    assert_eq!(cfg.log_level().unwrap(), LogLevel::Info);
    cfg.debug = Some(true);
    assert_eq!(cfg.log_level().unwrap(), LogLevel::Debug);
    cfg.debug = Some(false);
    assert_eq!(cfg.log_level().unwrap(), LogLevel::Info);
}

#[test]
fn device_token_round_trip() {
    let mut token = [0u8; 32];
    for (i, b) in token.iter_mut().enumerate() {
        *b = (7 * i + 3) as u8;
    }
    let cfg = HardwareWalletConfig::new(&DeviceKind::Ledger, Fingerprint::new(77), &token);
    assert_eq!(cfg.kind, "ledger");
    assert_eq!(cfg.fingerprint, Fingerprint::new(77));
    assert!(cfg.token_valid());
    assert_eq!(cfg.token(), token.to_vec());
}

#[test]
fn device_token_hex_is_lowercase_two_digits_per_byte() {
    let token = [0xABu8; 32];
    let cfg = HardwareWalletConfig::new(&DeviceKind::Coldcard, Fingerprint::new(1), &token);
    assert_eq!(cfg.token.len(), 64);
    assert!(cfg.token.chars().all(|c| c == 'a' || c == 'b'));
    assert_eq!(&cfg.token[0..2], "ab");
}

#[test]
fn tampered_token_is_rejected() {
    let token = [0u8; 32];
    let mut cfg = HardwareWalletConfig::new(&DeviceKind::Ledger, Fingerprint::new(1), &token);
    cfg.token = String::from("zz");
    assert!(!cfg.token_valid());
    cfg.token = String::from("abc");
    assert!(!cfg.token_valid());
    // well-formed hex of the wrong length is rejected too
    cfg.token = String::from("abcd");
    assert!(!cfg.token_valid());
}

#[test]
fn wallet_key_lookup() {
    let fp1 = Fingerprint::new(1);
    let fp2 = Fingerprint::new(2);
    let token = [1u8; 32];
    let wallet = Wallet {
        name: String::from("w"),
        main_descriptor: String::from("wsh(pk(k))#c"),
        keys: vec![fp1],
        keys_aliases: AliasMap::new(),
        hardware_wallets: vec![HardwareWalletConfig::new(&DeviceKind::Ledger, fp1, &token)],
    };
    assert!(wallet.has_key(fp1));
    assert!(!wallet.has_key(fp2));
    assert_eq!(wallet.descriptor_keys(), &vec![fp1]);
    assert!(wallet.hw_config(fp1).is_some());
    assert!(wallet.hw_config(fp2).is_none());
}

#[test]
fn alias_table_write_is_exclusive() {
    let fp1 = Fingerprint::new(1);
    let fp2 = Fingerprint::new(2);
    let mut table = AliasMap::new();
    table.set(fp1, String::from("X"));
    table.set(fp2, String::from("X"));
    assert_eq!(table.get(fp1), None);
    assert_eq!(table.get(fp2).map(String::as_str), Some("X"));
    table.set(fp1, String::from("Y"));
    assert_eq!(table.get(fp1).map(String::as_str), Some("Y"));
    assert_eq!(table.get(fp2).map(String::as_str), Some("X"));
    let copy = table.duplicate();
    assert_eq!(copy.get(fp1).map(String::as_str), Some("Y"));
    assert_eq!(copy.get_owned(fp2).as_deref(), Some("X"));
}
