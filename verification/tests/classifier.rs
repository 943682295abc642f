//! The device classifier: one record (or a silent drop) per observation.

use liana_gui::aliases::AliasMap;
use liana_gui::chain::{Fingerprint, Network};
use liana_gui::classify::{
    classify, handle_jade_device, DeviceObservation, FingerprintRead, JadeInfo, JadeNetworks,
    JadeState, JadeStep, NetworkSpace,
};
use liana_gui::hw::{DeviceKind, HardwareWallet, LockedDevice, UnsupportedReason};
use liana_gui::version::Version;
use liana_gui::wallet::Wallet;

fn wallet_with_keys(keys: Vec<Fingerprint>) -> Wallet {
    Wallet {
        name: String::from("main"),
        main_descriptor: String::from("wsh(multi(2,a,b))#checksum"),
        keys,
        keys_aliases: AliasMap::new(),
        hardware_wallets: Vec::new(),
    }
}

fn observation(id: &str, kind: DeviceKind, fingerprint: FingerprintRead) -> DeviceObservation {
    DeviceObservation {
        id: String::from(id),
        kind,
        version: Some(Version::new(2, 2, 0)),
        network_space: None,
        fingerprint,
        pairing_code: None,
        registered: Some(false),
    }
}

#[test]
fn device_outside_wallet_key_set_is_unsupported() {
    let fp1 = Fingerprint::new(1);
    let fp2 = Fingerprint::new(2);
    let wallet = wallet_with_keys(vec![fp1]);
    let aliases = AliasMap::new();
    let obs = observation("specter-0", DeviceKind::Specter, FingerprintRead::Found(fp2));
    let record = classify(obs, Network::Bitcoin, Some(&wallet), &aliases).unwrap();
    assert!(matches!(
        record,
        HardwareWallet::Unsupported {
            reason: UnsupportedReason::NotPartOfWallet(fp),
            ..
        } if fp == fp2
    ));
}

#[test]
fn mainnet_only_device_on_testnet_is_wrong_network() {
    let aliases = AliasMap::new();
    let mut obs = observation(
        "jade-0",
        DeviceKind::Jade,
        FingerprintRead::Found(Fingerprint::new(7)),
    );
    obs.network_space = Some(NetworkSpace::Main);
    let record = classify(obs, Network::Testnet, None, &aliases).unwrap();
    assert!(matches!(
        record,
        HardwareWallet::Unsupported {
            reason: UnsupportedReason::WrongNetwork,
            ..
        }
    ));
}

#[test]
fn network_mismatch_on_fingerprint_read_is_wrong_network() {
    let aliases = AliasMap::new();
    let obs = observation("jade-1", DeviceKind::Jade, FingerprintRead::NetworkMismatch);
    let record = classify(obs, Network::Bitcoin, None, &aliases).unwrap();
    assert!(matches!(
        record,
        HardwareWallet::Unsupported {
            reason: UnsupportedReason::WrongNetwork,
            ..
        }
    ));
}

#[test]
fn failed_fingerprint_read_drops_the_device() {
    let aliases = AliasMap::new();
    let obs = observation("specter-1", DeviceKind::Specter, FingerprintRead::Failed);
    assert!(classify(obs, Network::Bitcoin, None, &aliases).is_none());
}

#[test]
fn unlock_requiring_device_becomes_locked() {
    let aliases = AliasMap::new();
    let mut obs = observation(
        "bitbox-0",
        DeviceKind::BitBox02,
        FingerprintRead::NeedsUnlock(LockedDevice::BitBox02),
    );
    obs.pairing_code = Some(String::from("AB CD"));
    let record = classify(obs, Network::Bitcoin, None, &aliases).unwrap();
    match record {
        HardwareWallet::Locked {
            id,
            device,
            pairing_code,
            kind,
        } => {
            assert_eq!(id, "bitbox-0");
            assert!(matches!(device, Some(LockedDevice::BitBox02)));
            assert_eq!(pairing_code.as_deref(), Some("AB CD"));
            assert!(matches!(kind, DeviceKind::BitBox02));
        }
        other => panic!("expected a locked record, got {:?}", other),
    }
}

#[test]
fn old_ledger_firmware_is_version_too_old() {
    let aliases = AliasMap::new();
    let mut obs = observation(
        "ledger-0",
        DeviceKind::Ledger,
        FingerprintRead::Found(Fingerprint::new(9)),
    );
    obs.version = Some(Version::new(2, 0, 5));
    let record = classify(obs, Network::Bitcoin, None, &aliases).unwrap();
    assert!(matches!(
        record,
        HardwareWallet::Unsupported {
            reason: UnsupportedReason::Version {
                minimal_supported_version,
            },
            ..
        } if minimal_supported_version == Version::new(2, 1, 0)
    ));
}

#[test]
fn usable_signer_gets_its_alias_resolved() {
    let fp = Fingerprint::new(5);
    let mut aliases = AliasMap::new();
    aliases.set(fp, String::from("my signer"));
    let wallet = wallet_with_keys(vec![fp]);
    let obs = observation("coldcard-0", DeviceKind::Coldcard, FingerprintRead::Found(fp));
    let record = classify(obs, Network::Bitcoin, Some(&wallet), &aliases).unwrap();
    match record {
        HardwareWallet::Supported {
            id,
            fingerprint,
            registered,
            alias,
            ..
        } => {
            assert_eq!(id, "coldcard-0");
            assert_eq!(fingerprint, fp);
            assert_eq!(registered, Some(false));
            assert_eq!(alias.as_deref(), Some("my signer"));
        }
        other => panic!("expected a supported record, got {:?}", other),
    }
    // the record's accessors agree with its variant
}

#[test]
fn fingerprint_accessor_tracks_supportedness() {
    let fp = Fingerprint::new(5);
    let aliases = AliasMap::new();
    let obs = observation("coldcard-1", DeviceKind::Coldcard, FingerprintRead::Found(fp));
    let supported = classify(obs, Network::Bitcoin, None, &aliases).unwrap();
    assert!(supported.is_supported());
    assert_eq!(supported.fingerprint(), Some(fp));
    let obs2 = observation("jade-9", DeviceKind::Jade, FingerprintRead::NetworkMismatch);
    let unsupported = classify(obs2, Network::Bitcoin, None, &aliases).unwrap();
    assert!(!unsupported.is_supported());
    assert_eq!(unsupported.fingerprint(), None);
}

#[test]
fn jade_on_wrong_network_is_reported() {
    let info = JadeInfo {
        jade_version: String::from("1.0.21"),
        jade_networks: JadeNetworks::Main,
        jade_state: JadeState::Ready,
    };
    let step = handle_jade_device(String::from("jade-2"), Network::Signet, &info);
    match step {
        JadeStep::Record(HardwareWallet::Unsupported {
            id,
            version,
            reason: UnsupportedReason::WrongNetwork,
            ..
        }) => {
            assert_eq!(id, "jade-2");
            assert_eq!(version, Some(Version::new(1, 0, 21)));
        }
        other => panic!("expected a wrong-network record, got {:?}", other),
    }
}

#[test]
fn locked_jade_enters_the_unlock_flow() {
    let info = JadeInfo {
        jade_version: String::from("v1.0.30"),
        jade_networks: JadeNetworks::All,
        jade_state: JadeState::Locked,
    };
    let step = handle_jade_device(String::from("jade-3"), Network::Bitcoin, &info);
    assert!(matches!(
        step,
        JadeStep::Record(HardwareWallet::Locked {
            device: Some(LockedDevice::Jade),
            pairing_code: None,
            ..
        })
    ));
}

#[test]
fn ready_jade_proceeds_with_its_parsed_version() {
    let info = JadeInfo {
        jade_version: String::from("v0.1.47"),
        jade_networks: JadeNetworks::Test,
        jade_state: JadeState::Ready,
    };
    let step = handle_jade_device(String::from("jade-4"), Network::Regtest, &info);
    match step {
        JadeStep::Ready { id, version } => {
            assert_eq!(id, "jade-4");
            assert_eq!(version, Some(Version::new(0, 1, 47)));
        }
        other => panic!("expected the ready step, got {:?}", other),
    }
}

#[test]
fn unparsable_jade_version_is_carried_as_unknown() {
    let info = JadeInfo {
        jade_version: String::from("not-a-version"),
        jade_networks: JadeNetworks::All,
        jade_state: JadeState::Ready,
    };
    let step = handle_jade_device(String::from("jade-5"), Network::Bitcoin, &info);
    match step {
        JadeStep::Ready { version, .. } => assert_eq!(version, None),
        other => panic!("expected the ready step, got {:?}", other),
    }
}
