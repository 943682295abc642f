//! The compatibility policy: version ordering and the taproot-miniscript
//! table.

use liana_gui::compat::{is_compatible_with_tapminiscript, ledger_version_supported};
use liana_gui::hw::DeviceKind;
use liana_gui::version::Version;

#[test]
fn version_ordering_basic() {
    let v220 = Version::new(2, 2, 0);
    let v210 = Version::new(2, 1, 0);
    let v190 = Version::new(1, 9, 0);
    let v200 = Version::new(2, 0, 0);
    assert!(v220.at_least(&v210));
    assert!(!v190.at_least(&v200));
    assert!(v210.at_least(&v210));
    assert!(!v210.at_least(&v220));
}

#[test]
fn missing_version_never_satisfies_a_minimum() {
    assert!(!ledger_version_supported(None));
    assert!(!is_compatible_with_tapminiscript(&DeviceKind::Ledger, None));
    assert!(!is_compatible_with_tapminiscript(&DeviceKind::Coldcard, None));
}

#[test]
fn ledger_minimum_is_2_1_0() {
    assert!(ledger_version_supported(Some(&Version::new(2, 1, 0))));
    assert!(ledger_version_supported(Some(&Version::new(2, 1, 1))));
    assert!(ledger_version_supported(Some(&Version::new(3, 0, 0))));
    assert!(!ledger_version_supported(Some(&Version::new(2, 0, 9))));
    assert!(!ledger_version_supported(Some(&Version::new(1, 9, 9))));
}

#[test]
fn tapminiscript_table() {
    assert!(is_compatible_with_tapminiscript(
        &DeviceKind::Ledger,
        Some(&Version::new(2, 2, 0))
    ));
    assert!(!is_compatible_with_tapminiscript(
        &DeviceKind::Ledger,
        Some(&Version::new(2, 1, 9))
    ));
    // a kind listed without a constraint is compatible even with no version
    assert!(is_compatible_with_tapminiscript(&DeviceKind::Specter, None));
    assert!(is_compatible_with_tapminiscript(
        &DeviceKind::SpecterSimulator,
        None
    ));
    // a kind absent from the table is incompatible whatever it runs
    assert!(!is_compatible_with_tapminiscript(
        &DeviceKind::Jade,
        Some(&Version::new(99, 0, 0))
    ));
    assert!(!is_compatible_with_tapminiscript(
        &DeviceKind::BitBox02,
        Some(&Version::new(99, 0, 0))
    ));
    // coldcard has its own minimum
    assert!(is_compatible_with_tapminiscript(
        &DeviceKind::Coldcard,
        Some(&Version::new(6, 3, 3))
    ));
    assert!(!is_compatible_with_tapminiscript(
        &DeviceKind::Coldcard,
        Some(&Version::new(6, 3, 2))
    ));
}

#[test]
fn device_kind_names() {
    assert_eq!(DeviceKind::Ledger.name(), "ledger");
    assert_eq!(DeviceKind::BitBox02.name(), "bitbox02");
    assert_eq!(DeviceKind::SpecterSimulator.name(), "specter-simulator");
    assert_eq!(DeviceKind::Jade.name(), "jade");
}
