//! The session registry: reconciliation, unlock resolution, aliases.

use liana_gui::aliases::AliasMap;
use liana_gui::chain::{Fingerprint, Network};
use liana_gui::hw::{DeviceKind, HardwareWallet, LockedDevice, UnsupportedReason};
use liana_gui::registry::{ConnectedList, HardwareWalletMessage, HardwareWallets, HwError};
use liana_gui::version::Version;
use liana_gui::wallet::Wallet;

fn registry() -> HardwareWallets {
    HardwareWallets::new(String::from("/tmp/datadir"), Network::Bitcoin)
}

fn supported(id: &str, fp: u32) -> HardwareWallet {
    HardwareWallet::Supported {
        id: String::from(id),
        kind: DeviceKind::Specter,
        fingerprint: Fingerprint::new(fp),
        version: Some(Version::new(1, 8, 0)),
        registered: None,
        alias: None,
    }
}

fn locked(id: &str) -> HardwareWallet {
    HardwareWallet::Locked {
        id: String::from(id),
        device: Some(LockedDevice::Jade),
        pairing_code: None,
        kind: DeviceKind::Jade,
    }
}

fn list_message(new: Vec<HardwareWallet>, still: Vec<&str>) -> HardwareWalletMessage {
    HardwareWalletMessage::List(ConnectedList {
        new,
        still: still.into_iter().map(String::from).collect(),
    })
}

#[test]
fn error_message_is_surfaced_unchanged() {
    let mut reg = registry();
    let r = reg.update(HardwareWalletMessage::Error(String::from("usb subsystem down")));
    match r {
        Err(HwError::Device(text)) => assert_eq!(text, "usb subsystem down"),
        Ok(_) => panic!("a cycle error must be surfaced"),
    }
    assert!(reg.list.is_empty());
}

#[test]
fn new_records_are_appended_and_disconnected_ones_removed() {
    let mut reg = registry();
    reg.update(list_message(vec![supported("a", 1), supported("b", 2)], vec![]))
        .unwrap();
    assert_eq!(reg.list.len(), 2);
    // "a" is still connected, "b" is gone, "c" arrives
    reg.update(list_message(vec![supported("c", 3)], vec!["a"]))
        .unwrap();
    let ids: Vec<&str> = reg.list.iter().map(|h| h.id().as_str()).collect();
    assert_eq!(ids, vec!["a", "c"]);
}

#[test]
fn omitted_id_is_removed_on_next_reconciliation() {
    let mut reg = registry();
    reg.update(list_message(vec![supported("gone", 4)], vec![]))
        .unwrap();
    assert_eq!(reg.list.len(), 1);
    reg.update(list_message(vec![], vec![])).unwrap();
    assert!(reg.list.is_empty());
}

#[test]
fn reconciliation_is_idempotent() {
    let mut reg = registry();
    reg.update(list_message(
        vec![supported("a", 1), locked("jade-x"), supported("b", 2)],
        vec![],
    ))
    .unwrap();
    let first = format!("{:?}", reg.list);
    // the same still-connected and new inputs again, no unlock completions
    let second_jobs = reg
        .update(list_message(vec![], vec!["a", "jade-x", "b"]))
        .unwrap();
    let second = format!("{:?}", reg.list);
    let third_jobs = reg
        .update(list_message(vec![], vec!["a", "jade-x", "b"]))
        .unwrap();
    let third = format!("{:?}", reg.list);
    assert_eq!(second, third);
    assert!(third_jobs.is_empty());
    // the first run differs from the second only by the taken unlock handle
    assert_eq!(second_jobs.len(), 0);
    assert!(first.contains("jade-x"));
}

#[test]
fn pending_unlock_is_dispatched_exactly_once() {
    let mut reg = registry();
    let jobs = reg
        .update(list_message(vec![locked("jade-1"), supported("a", 1)], vec![]))
        .unwrap();
    assert_eq!(jobs.len(), 1);
    assert_eq!(jobs[0].id, "jade-1");
    assert!(matches!(jobs[0].device, LockedDevice::Jade));
    // the handle was taken: the next cycle dispatches nothing
    let jobs2 = reg
        .update(list_message(vec![], vec!["jade-1", "a"]))
        .unwrap();
    assert!(jobs2.is_empty());
}

#[test]
fn unlock_completion_replaces_the_locked_record() {
    let mut reg = registry();
    reg.update(list_message(vec![locked("dev-1")], vec![])).unwrap();
    let outcome = HardwareWallet::Supported {
        id: String::from("dev-1"),
        kind: DeviceKind::Jade,
        fingerprint: Fingerprint::new(3),
        version: None,
        registered: Some(false),
        alias: None,
    };
    reg.update(HardwareWalletMessage::Unlocked(
        String::from("dev-1"),
        Ok(outcome),
    ))
    .unwrap();
    let matching: Vec<&HardwareWallet> =
        reg.list.iter().filter(|h| h.id() == "dev-1").collect();
    assert_eq!(matching.len(), 1);
    assert!(matching[0].is_supported());
    assert_eq!(matching[0].fingerprint(), Some(Fingerprint::new(3)));
}

#[test]
fn unlock_completion_for_unknown_id_is_discarded() {
    let mut reg = registry();
    reg.update(list_message(vec![supported("a", 1)], vec![])).unwrap();
    let before = format!("{:?}", reg.list);
    let outcome = HardwareWallet::Supported {
        id: String::from("dev-9"),
        kind: DeviceKind::Jade,
        fingerprint: Fingerprint::new(9),
        version: None,
        registered: None,
        alias: None,
    };
    let r = reg.update(HardwareWalletMessage::Unlocked(
        String::from("dev-9"),
        Ok(outcome),
    ));
    assert!(r.is_ok());
    assert_eq!(before, format!("{:?}", reg.list));
}

#[test]
fn failed_unlock_drops_the_device() {
    let mut reg = registry();
    reg.update(list_message(vec![locked("dev-2"), supported("a", 1)], vec![]))
        .unwrap();
    reg.update(HardwareWalletMessage::Unlocked(
        String::from("dev-2"),
        Err(HwError::Device(String::from("user refused"))),
    ))
    .unwrap();
    let ids: Vec<&str> = reg.list.iter().map(|h| h.id().as_str()).collect();
    assert_eq!(ids, vec!["a"]);
}

#[test]
fn set_alias_is_exclusive_and_shown_after_reconciliation() {
    let fp1 = Fingerprint::new(1);
    let fp2 = Fingerprint::new(2);
    let mut reg = registry();
    reg.update(list_message(vec![supported("a", 1), supported("b", 2)], vec![]))
        .unwrap();
    reg.set_alias(fp2, String::from("X"));
    reg.set_alias(fp1, String::from("X"));
    // fp1 carries X now; fp2 lost it, in the table and on the records
    assert_eq!(reg.aliases.get(fp1).map(String::as_str), Some("X"));
    assert_eq!(reg.aliases.get(fp2), None);
    for hw in &reg.list {
        if let HardwareWallet::Supported { fingerprint, alias, .. } = hw {
            if *fingerprint == fp1 {
                assert_eq!(alias.as_deref(), Some("X"));
            } else {
                assert_eq!(alias.as_deref(), None);
            }
        }
    }
    // and the next reconciliation keeps showing it
    reg.update(list_message(vec![], vec!["a", "b"])).unwrap();
    for hw in &reg.list {
        if let HardwareWallet::Supported { fingerprint, alias, .. } = hw {
            if *fingerprint == fp1 {
                assert_eq!(alias.as_deref(), Some("X"));
            } else {
                assert_eq!(alias.as_deref(), None);
            }
        }
    }
}

#[test]
fn wallet_reload_downgrades_departed_keys() {
    let fp1 = Fingerprint::new(1);
    let wallet = Wallet {
        name: String::from("w"),
        main_descriptor: String::from("wsh(pk(k))#c"),
        keys: vec![fp1],
        keys_aliases: AliasMap::new(),
        hardware_wallets: Vec::new(),
    };
    let mut reg = registry().with_wallet(wallet);
    reg.update(list_message(vec![supported("a", 1), supported("b", 2)], vec![]))
        .unwrap();
    let a = &reg.list[0];
    let b = &reg.list[1];
    assert!(a.is_supported());
    assert!(matches!(
        b,
        HardwareWallet::Unsupported {
            reason: UnsupportedReason::NotPartOfWallet(fp),
            ..
        } if *fp == Fingerprint::new(2)
    ));
}

#[test]
fn set_network_clears_tracking() {
    let mut reg = registry();
    reg.update(list_message(vec![supported("a", 1)], vec![])).unwrap();
    reg.set_network(Network::Testnet);
    assert!(reg.list.is_empty());
    assert!(matches!(reg.network, Network::Testnet));
}

#[test]
fn load_aliases_replaces_the_table() {
    let fp = Fingerprint::new(8);
    let mut table = AliasMap::new();
    table.set(fp, String::from("cold storage"));
    let mut reg = registry();
    reg.load_aliases(table);
    assert_eq!(reg.aliases.get(fp).map(String::as_str), Some("cold storage"));
}

#[test]
fn with_wallet_adopts_the_wallet_aliases() {
    let fp = Fingerprint::new(4);
    let mut table = AliasMap::new();
    table.set(fp, String::from("label"));
    let wallet = Wallet {
        name: String::from("w"),
        main_descriptor: String::from("wsh(pk(k))#c"),
        keys: vec![fp],
        keys_aliases: table,
        hardware_wallets: Vec::new(),
    };
    let reg = registry().with_wallet(wallet);
    assert_eq!(reg.aliases.get(fp).map(String::as_str), Some("label"));
}
