//! The per-cycle scan bookkeeping.

use liana_gui::aliases::AliasMap;
use liana_gui::chain::{Fingerprint, Network};
use liana_gui::hw::{DeviceKind, HardwareWallet, LockedDevice};
use liana_gui::scan::HwState;
use liana_gui::version::Version;

fn state() -> HwState {
    HwState {
        network: Network::Bitcoin,
        keys_aliases: AliasMap::new(),
        wallet: None,
        taproot: false,
        connected_supported_hws: vec![String::from("known-1")],
        hws: Vec::new(),
        still: Vec::new(),
    }
}

fn supported(id: &str) -> HardwareWallet {
    HardwareWallet::Supported {
        id: String::from(id),
        kind: DeviceKind::Specter,
        fingerprint: Fingerprint::new(1),
        version: Some(Version::new(1, 0, 0)),
        registered: None,
        alias: None,
    }
}

fn unsupported(id: &str) -> HardwareWallet {
    HardwareWallet::Unsupported {
        id: String::from(id),
        kind: DeviceKind::Ledger,
        version: None,
        reason: liana_gui::hw::UnsupportedReason::WrongNetwork,
    }
}

#[test]
fn known_candidate_goes_on_the_still_list() {
    let mut st = state();
    assert!(st.note_candidate(String::from("known-1")));
    assert_eq!(st.still, vec![String::from("known-1")]);
    assert!(st.hws.is_empty());
}

#[test]
fn unknown_candidate_is_left_for_classification() {
    let mut st = state();
    assert!(!st.note_candidate(String::from("fresh-1")));
    assert!(st.still.is_empty());
}

#[test]
fn finish_cycle_reports_and_resets() {
    let mut st = state();
    assert!(st.note_candidate(String::from("known-1")));
    st.add_record(supported("fresh-1"));
    st.add_record(unsupported("broken-1"));
    st.add_record(HardwareWallet::Locked {
        id: String::from("jade-1"),
        device: Some(LockedDevice::Jade),
        pairing_code: None,
        kind: DeviceKind::Jade,
    });
    let msg = st.finish_cycle();
    // the registry receives everything that was scanned
    let new_ids: Vec<&str> = msg.new.iter().map(|h| h.id().as_str()).collect();
    assert_eq!(new_ids, vec!["fresh-1", "broken-1", "jade-1"]);
    assert_eq!(msg.still, vec![String::from("known-1")]);
    // only locked and supported newcomers count as connected next cycle:
    // unsupported ones are probed afresh
    assert_eq!(
        st.connected_supported_hws,
        vec![
            String::from("known-1"),
            String::from("fresh-1"),
            String::from("jade-1")
        ]
    );
    assert!(st.hws.is_empty());
    assert!(st.still.is_empty());
}
