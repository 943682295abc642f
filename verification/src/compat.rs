//! Version and feature compatibility gating.
//!
//! Two policies live here. The per-kind minimum supported firmware version
//! decides whether a device is usable at all (today only Ledger devices carry
//! such a gate). The taproot-miniscript table decides whether a device can be
//! offered the advanced script policy feature: a kind absent from the table is
//! incompatible, a kind listed without a minimum is always compatible, and a
//! kind listed with a minimum is compatible from that version on (inclusive).
//! An unknown firmware version never satisfies a minimum.

use vstd::prelude::*;

use crate::hw::DeviceKind;
use crate::version::{version_ge_spec, Version};

verus! {

/// The value behind an optional version reference.
pub open spec fn deref_opt_version(v: Option<&Version>) -> Option<Version> {
    match v {
        Some(x) => Some(*x),
        None => None,
    }
}

/// The minimum firmware version a device kind must run to be usable at all;
/// `None` where no gate applies.
pub open spec fn min_supported_version(kind: DeviceKind) -> Option<Version> {
    match kind {
        DeviceKind::Ledger => Some(Version { major: 2, minor: 1, patch: 0 }),
        DeviceKind::LedgerSimulator => Some(Version { major: 2, minor: 1, patch: 0 }),
        _ => None,
    }
}

/// Whether a reported firmware version passes a kind's minimum: kinds without
/// a gate always pass; an unknown version never passes a gate.
pub open spec fn version_supported(kind: DeviceKind, version: Option<Version>) -> bool {
    match min_supported_version(kind) {
        None => true,
        Some(min) => version matches Some(v) && version_ge_spec(v, min),
    }
}

/// Whether a Ledger firmware version is supported: at least 2.1.0, with an
/// unknown version never supported.
pub fn ledger_version_supported(version: Option<&Version>) -> (r: bool)
    ensures
        r == version_supported(DeviceKind::Ledger, deref_opt_version(version)),
{
    match version {
        Some(v) => v.at_least(&Version { major: 2, minor: 1, patch: 0 }),
        None => false,
    }
}

/// The taproot-miniscript table entry of a kind: `None` for an unknown kind,
/// `Some(None)` for a kind without a version constraint, `Some(Some(min))`
/// for a kind supported from `min` on.
pub open spec fn tapminiscript_minimum(kind: DeviceKind) -> Option<Option<Version>> {
    match kind {
        DeviceKind::Ledger => Some(Some(Version { major: 2, minor: 2, patch: 0 })),
        DeviceKind::Specter => Some(None),
        DeviceKind::SpecterSimulator => Some(None),
        DeviceKind::Coldcard => Some(Some(Version { major: 6, minor: 3, patch: 3 })),
        _ => None,
    }
}

/// The taproot-miniscript policy: kind in the table, and the reported version
/// meets the kind's minimum where the table names one.
pub open spec fn compatible_with_tapminiscript(kind: DeviceKind, version: Option<Version>) -> bool {
    match tapminiscript_minimum(kind) {
        None => false,
        Some(None) => true,
        Some(Some(min)) => version matches Some(v) && version_ge_spec(v, min),
    }
}

/// Whether a device of `device_kind` running `version` can be offered the
/// taproot-miniscript script policy feature.
pub fn is_compatible_with_tapminiscript(device_kind: &DeviceKind, version: Option<&Version>) -> (r:
    bool)
    ensures
        r == compatible_with_tapminiscript(*device_kind, deref_opt_version(version)),
{
    match device_kind {
        DeviceKind::Specter => true,
        DeviceKind::SpecterSimulator => true,
        DeviceKind::Ledger => match version {
            Some(v) => v.at_least(&Version { major: 2, minor: 2, patch: 0 }),
            None => false,
        },
        DeviceKind::Coldcard => match version {
            Some(v) => v.at_least(&Version { major: 6, minor: 3, patch: 3 }),
            None => false,
        },
        _ => false,
    }
}

} // verus!
