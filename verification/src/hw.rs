//! Device records: what the discovery subsystem knows about one connected
//! signing device.
//!
//! A record is exactly one of three variants. `Unsupported` names the reason
//! the device cannot sign for the active wallet; `Locked` carries the
//! renderable summary of a pending unlock flow (the one-shot unlock
//! continuation itself is consumed by taking it out of the record);
//! `Supported` is a usable signer. A master-key fingerprint is present if and
//! only if the record is `Supported`. The vendor transport handle that
//! performs device I/O is owned by the caller, keyed by the session id, and
//! never enters a record.

use vstd::prelude::*;

use crate::aliases::{lookup, str_opt_view, AliasMap};
use crate::chain::Fingerprint;
use crate::version::Version;

verus! {

/// The vendor family a connected device talks like.
#[derive(Clone, Copy, Debug, PartialEq, Eq, Structural)]
pub enum DeviceKind {
    BitBox02,
    Coldcard,
    Specter,
    SpecterSimulator,
    Ledger,
    LedgerSimulator,
    Jade,
}

/// The display name of a device kind.
pub open spec fn device_kind_name(kind: DeviceKind) -> Seq<char> {
    match kind {
        DeviceKind::BitBox02 => "bitbox02"@,
        DeviceKind::Coldcard => "coldcard"@,
        DeviceKind::Specter => "specter"@,
        DeviceKind::SpecterSimulator => "specter-simulator"@,
        DeviceKind::Ledger => "ledger"@,
        DeviceKind::LedgerSimulator => "ledger-simulator"@,
        DeviceKind::Jade => "jade"@,
    }
}

impl DeviceKind {
    /// The display name of this kind.
    pub fn name(&self) -> (r: String)
        ensures
            r@ == device_kind_name(*self),
    {
        match self {
            DeviceKind::BitBox02 => String::from_str("bitbox02"),
            DeviceKind::Coldcard => String::from_str("coldcard"),
            DeviceKind::Specter => String::from_str("specter"),
            DeviceKind::SpecterSimulator => String::from_str("specter-simulator"),
            DeviceKind::Ledger => String::from_str("ledger"),
            DeviceKind::LedgerSimulator => String::from_str("ledger-simulator"),
            DeviceKind::Jade => String::from_str("jade"),
        }
    }
}

/// Why a connected device cannot sign for the active wallet.
#[derive(Debug)]
pub enum UnsupportedReason {
    /// The firmware is older than the kind's minimum supported version.
    Version { minimal_supported_version: Version },
    /// The device does not offer a required operation.
    Method(&'static str),
    /// The device's master key is not among the wallet's signer keys.
    NotPartOfWallet(Fingerprint),
    /// The device is configured for another network than the wallet targets.
    WrongNetwork,
}

/// The mathematical value of an `UnsupportedReason`.
pub enum UnsupportedReasonView {
    Version { minimal_supported_version: Version },
    Method(Seq<char>),
    NotPartOfWallet(Fingerprint),
    WrongNetwork,
}

impl View for UnsupportedReason {
    type V = UnsupportedReasonView;

    open spec fn view(&self) -> UnsupportedReasonView {
        match self {
            UnsupportedReason::Version { minimal_supported_version } => {
                UnsupportedReasonView::Version {
                    minimal_supported_version: *minimal_supported_version,
                }
            },
            UnsupportedReason::Method(name) => UnsupportedReasonView::Method(name@),
            UnsupportedReason::NotPartOfWallet(fp) => UnsupportedReasonView::NotPartOfWallet(*fp),
            UnsupportedReason::WrongNetwork => UnsupportedReasonView::WrongNetwork,
        }
    }
}

/// Which unlock continuation a `Locked` record's pending flow belongs to. The
/// continuation itself (a pairing handshake or an authentication exchange on
/// the transport) is owned by the caller that dispatches the background
/// unlock task; taking this tag out of the record marks the continuation as
/// consumed, so it can be dispatched at most once.
#[derive(Clone, Copy, Debug, PartialEq, Eq, Structural)]
pub enum LockedDevice {
    BitBox02,
    Jade,
}

/// One tracked device, keyed by its transport-assigned session id.
#[derive(Debug)]
pub enum HardwareWallet {
    Unsupported {
        id: String,
        kind: DeviceKind,
        version: Option<Version>,
        reason: UnsupportedReason,
    },
    Locked {
        id: String,
        /// The pending unlock continuation; `None` once it has been taken for
        /// dispatch.
        device: Option<LockedDevice>,
        /// A human-verifiable value the user confirms on-device.
        pairing_code: Option<String>,
        kind: DeviceKind,
    },
    Supported {
        id: String,
        kind: DeviceKind,
        fingerprint: Fingerprint,
        version: Option<Version>,
        /// Whether the wallet's spending policy is known to be enrolled on
        /// the device; `None` when nothing asked yet.
        registered: Option<bool>,
        /// The user-chosen label, resolved from the alias table by
        /// fingerprint.
        alias: Option<String>,
    },
}

/// The mathematical value of a device record.
pub enum HardwareWalletView {
    Unsupported {
        id: Seq<char>,
        kind: DeviceKind,
        version: Option<Version>,
        reason: UnsupportedReasonView,
    },
    Locked {
        id: Seq<char>,
        device: Option<LockedDevice>,
        pairing_code: Option<Seq<char>>,
        kind: DeviceKind,
    },
    Supported {
        id: Seq<char>,
        kind: DeviceKind,
        fingerprint: Fingerprint,
        version: Option<Version>,
        registered: Option<bool>,
        alias: Option<Seq<char>>,
    },
}

impl View for HardwareWallet {
    type V = HardwareWalletView;

    open spec fn view(&self) -> HardwareWalletView {
        match self {
            HardwareWallet::Unsupported { id, kind, version, reason } => {
                HardwareWalletView::Unsupported {
                    id: id@,
                    kind: *kind,
                    version: *version,
                    reason: reason@,
                }
            },
            HardwareWallet::Locked { id, device, pairing_code, kind } => {
                HardwareWalletView::Locked {
                    id: id@,
                    device: *device,
                    pairing_code: match pairing_code {
                        Some(p) => Some(p@),
                        None => None,
                    },
                    kind: *kind,
                }
            },
            HardwareWallet::Supported { id, kind, fingerprint, version, registered, alias } => {
                HardwareWalletView::Supported {
                    id: id@,
                    kind: *kind,
                    fingerprint: *fingerprint,
                    version: *version,
                    registered: *registered,
                    alias: match alias {
                        Some(a) => Some(a@),
                        None => None,
                    },
                }
            },
        }
    }
}

impl HardwareWalletView {
    /// The session id of the record.
    pub open spec fn id(self) -> Seq<char> {
        match self {
            HardwareWalletView::Unsupported { id, .. } => id,
            HardwareWalletView::Locked { id, .. } => id,
            HardwareWalletView::Supported { id, .. } => id,
        }
    }

    /// The device kind of the record.
    pub open spec fn kind(self) -> DeviceKind {
        match self {
            HardwareWalletView::Unsupported { kind, .. } => kind,
            HardwareWalletView::Locked { kind, .. } => kind,
            HardwareWalletView::Supported { kind, .. } => kind,
        }
    }

    /// The master-key fingerprint, present exactly on `Supported`.
    pub open spec fn fingerprint(self) -> Option<Fingerprint> {
        match self {
            HardwareWalletView::Supported { fingerprint, .. } => Some(fingerprint),
            _ => None,
        }
    }

    /// Whether the record is a usable signer.
    pub open spec fn is_supported(self) -> bool {
        self is Supported
    }
}

impl HardwareWallet {
    /// A freshly classified, fully usable signer: the `Supported` record for
    /// a device whose identity was just read, with its alias resolved from
    /// the table and no registration known yet.
    pub fn new(
        id: String,
        kind: DeviceKind,
        fingerprint: Fingerprint,
        version: Option<Version>,
        aliases: Option<&AliasMap>,
    ) -> (r: HardwareWallet)
        ensures
            r@ == (HardwareWalletView::Supported {
                id: id@,
                kind,
                fingerprint,
                version,
                registered: None,
                alias: match aliases {
                    Some(table) => lookup(table@, fingerprint),
                    None => None,
                },
            }),
    {
        let alias = match aliases {
            Some(table) => table.get_owned(fingerprint),
            None => None,
        };
        proof {
            assert(str_opt_view(alias) == (match aliases {
                Some(table) => lookup(table@, fingerprint),
                None => None,
            }));
        }
        HardwareWallet::Supported { id, kind, fingerprint, version, registered: None, alias }
    }

    /// The session id.
    pub fn id(&self) -> (r: &String)
        ensures
            r@ == self@.id(),
    {
        match self {
            HardwareWallet::Locked { id, .. } => id,
            HardwareWallet::Unsupported { id, .. } => id,
            HardwareWallet::Supported { id, .. } => id,
        }
    }

    /// The device kind.
    pub fn kind(&self) -> (r: &DeviceKind)
        ensures
            *r == self@.kind(),
    {
        match self {
            HardwareWallet::Locked { kind, .. } => kind,
            HardwareWallet::Unsupported { kind, .. } => kind,
            HardwareWallet::Supported { kind, .. } => kind,
        }
    }

    /// The master-key fingerprint, present exactly when the record is
    /// `Supported`.
    pub fn fingerprint(&self) -> (r: Option<Fingerprint>)
        ensures
            r == self@.fingerprint(),
    {
        match self {
            HardwareWallet::Locked { .. } => None,
            HardwareWallet::Unsupported { .. } => None,
            HardwareWallet::Supported { fingerprint, .. } => Some(*fingerprint),
        }
    }

    /// Whether the record is a usable signer.
    pub fn is_supported(&self) -> (r: bool)
        ensures
            r == self@.is_supported(),
    {
        matches!(self, HardwareWallet::Supported { .. })
    }
}

/// A fingerprint is present on a record exactly when the record is
/// `Supported`.
pub proof fn lemma_fingerprint_iff_supported(hw: HardwareWalletView)
    ensures
        hw.fingerprint() is Some <==> hw.is_supported(),
{
}

} // verus!
