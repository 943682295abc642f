//! The device classifier: pure decision logic that turns what a transport
//! observed about one connected device into exactly one device record, or
//! into no record at all when the device is dropped for this cycle.
//!
//! The rules, in the order they apply:
//! a device network-locked to the wrong network is `Unsupported(WrongNetwork)`;
//! a device whose protocol requires an explicit unlock step before it reveals
//! its fingerprint becomes `Locked`; a fingerprint read refused over a network
//! mismatch is `Unsupported(WrongNetwork)`; any other fingerprint-read failure
//! drops the device for this cycle (transiently busy devices reappear on the
//! next scan); firmware below the kind's minimum is
//! `Unsupported(VersionTooOld)`; a fingerprint outside the supplied wallet's
//! key set is `Unsupported(NotInWalletKeySet)`; everything else is a
//! `Supported` signer.

use vstd::prelude::*;

use crate::aliases::{lookup, str_opt_view, AliasMap};
use crate::chain::{Fingerprint, Network};
use crate::compat::{min_supported_version, version_supported};
use crate::hw::{
    DeviceKind, HardwareWallet, HardwareWalletView, LockedDevice, UnsupportedReason,
    UnsupportedReasonView,
};
use crate::version::{parse_version_text, parsed_version_of, Version};
use crate::wallet::Wallet;

verus! {

/// The network space a device reports being configured for.
#[derive(Clone, Copy, Debug, PartialEq, Eq, Structural)]
pub enum NetworkSpace {
    Main,
    Test,
    All,
}

/// Whether a device configured for `space` can serve a wallet targeting
/// `network`: a mainnet-only device serves only the main network, a test-only
/// device serves only test networks, and an unrestricted device serves any.
pub open spec fn network_compatible(space: NetworkSpace, network: Network) -> bool {
    match space {
        NetworkSpace::Main => network == Network::Bitcoin,
        NetworkSpace::Test => network != Network::Bitcoin,
        NetworkSpace::All => true,
    }
}

/// What reading the master fingerprint of a device came to.
#[derive(Clone, Copy, Debug, PartialEq, Eq, Structural)]
pub enum FingerprintRead {
    /// The fingerprint was read.
    Found(Fingerprint),
    /// The device reveals its fingerprint only after an explicit unlock step;
    /// the tag names the pending continuation.
    NeedsUnlock(LockedDevice),
    /// The device refused the read because it is set to another network.
    NetworkMismatch,
    /// The read failed for any other reason (transport error, device busy).
    Failed,
}

/// Everything a transport scanner observed about one connected device.
#[derive(Debug)]
pub struct DeviceObservation {
    /// The transport-assigned session id.
    pub id: String,
    pub kind: DeviceKind,
    pub version: Option<Version>,
    /// The network space the device is locked to, where its protocol reports
    /// one.
    pub network_space: Option<NetworkSpace>,
    pub fingerprint: FingerprintRead,
    /// The human-verifiable pairing value of a pending unlock flow.
    pub pairing_code: Option<String>,
    /// Whether the wallet's policy is known to be enrolled on the device.
    pub registered: Option<bool>,
}

/// The mathematical value of an observation.
pub struct DeviceObservationView {
    pub id: Seq<char>,
    pub kind: DeviceKind,
    pub version: Option<Version>,
    pub network_space: Option<NetworkSpace>,
    pub fingerprint: FingerprintRead,
    pub pairing_code: Option<Seq<char>>,
    pub registered: Option<bool>,
}

impl View for DeviceObservation {
    type V = DeviceObservationView;

    open spec fn view(&self) -> DeviceObservationView {
        DeviceObservationView {
            id: self.id@,
            kind: self.kind,
            version: self.version,
            network_space: self.network_space,
            fingerprint: self.fingerprint,
            pairing_code: match &self.pairing_code {
                Some(p) => Some(p@),
                None => None,
            },
            registered: self.registered,
        }
    }
}

/// The view of an optional record.
pub open spec fn record_opt_view(r: Option<HardwareWallet>) -> Option<HardwareWalletView> {
    match r {
        Some(h) => Some(h@),
        None => None,
    }
}

/// The signer key set of an optional wallet context.
pub open spec fn wallet_keys_view(w: Option<&Wallet>) -> Option<Seq<Fingerprint>> {
    match w {
        Some(wallet) => Some(wallet.keys@),
        None => None,
    }
}

/// The record the classifier produces for an observation, or `None` where the
/// device is dropped for this cycle.
pub open spec fn classify_spec(
    obs: DeviceObservationView,
    network: Network,
    wallet_keys: Option<Seq<Fingerprint>>,
    aliases: Map<Fingerprint, Seq<char>>,
) -> Option<HardwareWalletView> {
    if obs.network_space matches Some(space) && !network_compatible(space, network) {
        Some(
            HardwareWalletView::Unsupported {
                id: obs.id,
                kind: obs.kind,
                version: obs.version,
                reason: UnsupportedReasonView::WrongNetwork,
            },
        )
    } else {
        match obs.fingerprint {
            FingerprintRead::NeedsUnlock(device) => Some(
                HardwareWalletView::Locked {
                    id: obs.id,
                    device: Some(device),
                    pairing_code: obs.pairing_code,
                    kind: obs.kind,
                },
            ),
            FingerprintRead::NetworkMismatch => Some(
                HardwareWalletView::Unsupported {
                    id: obs.id,
                    kind: obs.kind,
                    version: obs.version,
                    reason: UnsupportedReasonView::WrongNetwork,
                },
            ),
            FingerprintRead::Failed => None,
            FingerprintRead::Found(fp) => {
                if !version_supported(obs.kind, obs.version) {
                    Some(
                        HardwareWalletView::Unsupported {
                            id: obs.id,
                            kind: obs.kind,
                            version: obs.version,
                            reason: UnsupportedReasonView::Version {
                                minimal_supported_version: min_supported_version(obs.kind)->0,
                            },
                        },
                    )
                } else if wallet_keys matches Some(keys) && !keys.contains(fp) {
                    Some(
                        HardwareWalletView::Unsupported {
                            id: obs.id,
                            kind: obs.kind,
                            version: obs.version,
                            reason: UnsupportedReasonView::NotPartOfWallet(fp),
                        },
                    )
                } else {
                    Some(
                        HardwareWalletView::Supported {
                            id: obs.id,
                            kind: obs.kind,
                            fingerprint: fp,
                            version: obs.version,
                            registered: obs.registered,
                            alias: lookup(aliases, fp),
                        },
                    )
                }
            },
        }
    }
}

/// Whether `space` can serve `network`.
fn network_compatible_exec(space: NetworkSpace, network: Network) -> (r: bool)
    ensures
        r == network_compatible(space, network),
{
    match space {
        NetworkSpace::Main => matches!(network, Network::Bitcoin),
        NetworkSpace::Test => !matches!(network, Network::Bitcoin),
        NetworkSpace::All => true,
    }
}

/// The per-kind minimum supported firmware version.
fn min_supported_version_exec(kind: &DeviceKind) -> (r: Option<Version>)
    ensures
        r == min_supported_version(*kind),
{
    match kind {
        DeviceKind::Ledger => Some(Version { major: 2, minor: 1, patch: 0 }),
        DeviceKind::LedgerSimulator => Some(Version { major: 2, minor: 1, patch: 0 }),
        _ => None,
    }
}

/// Whether the reported firmware passes the kind's minimum.
fn version_supported_exec(kind: &DeviceKind, version: &Option<Version>) -> (r: bool)
    ensures
        r == version_supported(*kind, *version),
{
    match min_supported_version_exec(kind) {
        None => true,
        Some(min) => match version {
            Some(v) => v.at_least(&min),
            None => false,
        },
    }
}

/// Classifies one observed device against the target network, the optional
/// wallet key set, and the alias table, producing exactly one record — or
/// none, where the device is dropped for this cycle.
pub fn classify(
    obs: DeviceObservation,
    network: Network,
    wallet: Option<&Wallet>,
    aliases: &AliasMap,
) -> (r: Option<HardwareWallet>)
    ensures
        record_opt_view(r) == classify_spec(obs@, network, wallet_keys_view(wallet), aliases@),
{
    let DeviceObservation { id, kind, version, network_space, fingerprint, pairing_code, registered } =
        obs;
    if let Some(space) = network_space {
        if !network_compatible_exec(space, network) {
            return Some(
                HardwareWallet::Unsupported {
                    id,
                    kind,
                    version,
                    reason: UnsupportedReason::WrongNetwork,
                },
            );
        }
    }
    match fingerprint {
        FingerprintRead::NeedsUnlock(device) => Some(
            HardwareWallet::Locked { id, device: Some(device), pairing_code, kind },
        ),
        FingerprintRead::NetworkMismatch => Some(
            HardwareWallet::Unsupported { id, kind, version, reason: UnsupportedReason::WrongNetwork },
        ),
        FingerprintRead::Failed => None,
        FingerprintRead::Found(fp) => {
            if !version_supported_exec(&kind, &version) {
                let min = match min_supported_version_exec(&kind) {
                    Some(m) => m,
                    None => unreached(),
                };
                Some(
                    HardwareWallet::Unsupported {
                        id,
                        kind,
                        version,
                        reason: UnsupportedReason::Version { minimal_supported_version: min },
                    },
                )
            } else {
                let in_wallet = match wallet {
                    Some(w) => w.has_key(fp),
                    None => true,
                };
                if !in_wallet {
                    Some(
                        HardwareWallet::Unsupported {
                            id,
                            kind,
                            version,
                            reason: UnsupportedReason::NotPartOfWallet(fp),
                        },
                    )
                } else {
                    let alias = aliases.get_owned(fp);
                    proof {
                        assert(str_opt_view(alias) == lookup(aliases@, fp));
                    }
                    Some(
                        HardwareWallet::Supported {
                            id,
                            kind,
                            fingerprint: fp,
                            version,
                            registered,
                            alias,
                        },
                    )
                }
            }
        },
    }
}

/// The readiness state a Jade device reports.
#[derive(Clone, Copy, Debug, PartialEq, Eq, Structural)]
pub enum JadeState {
    Uninit,
    Unsaved,
    Locked,
    Ready,
    Temp,
}

/// The network space a Jade device reports being set up for.
#[derive(Clone, Copy, Debug, PartialEq, Eq, Structural)]
pub enum JadeNetworks {
    Main,
    Test,
    All,
}

/// What a Jade device reports about itself before any unlock.
#[derive(Debug)]
pub struct JadeInfo {
    /// The firmware version, as the raw text the device sent.
    pub jade_version: String,
    pub jade_networks: JadeNetworks,
    pub jade_state: JadeState,
}

/// Whether a Jade set up for `nets` cannot serve a wallet targeting
/// `network`.
pub open spec fn jade_wrong_network(nets: JadeNetworks, network: Network) -> bool {
    ||| (network == Network::Bitcoin && nets != JadeNetworks::Main && nets != JadeNetworks::All)
    ||| (network != Network::Bitcoin && nets == JadeNetworks::Main)
}

/// What examining a Jade's self-report decides before its fingerprint can be
/// read.
#[derive(Debug)]
pub enum JadeStep {
    /// The device is already classified: set up for the wrong network, or
    /// waiting for its unlock flow.
    Record(HardwareWallet),
    /// The device is ready: read its fingerprint and classify the outcome.
    Ready { id: String, version: Option<Version> },
}

/// Examines a Jade device's self-report: a device on the wrong network is
/// `Unsupported(WrongNetwork)`, a device not yet ready enters the `Locked`
/// unlock flow, and a ready device proceeds to fingerprint reading with its
/// parsed firmware version.
pub fn handle_jade_device(id: String, network: Network, info: &JadeInfo) -> (r: JadeStep)
    ensures
        jade_wrong_network(info.jade_networks, network) ==> (r matches JadeStep::Record(h)
            && h@ == (HardwareWalletView::Unsupported {
            id: id@,
            kind: DeviceKind::Jade,
            version: parsed_version_of(info.jade_version@),
            reason: UnsupportedReasonView::WrongNetwork,
        })),
        !jade_wrong_network(info.jade_networks, network) && info.jade_state != JadeState::Ready
            ==> (r matches JadeStep::Record(h) && h@ == (HardwareWalletView::Locked {
            id: id@,
            device: Some(LockedDevice::Jade),
            pairing_code: None,
            kind: DeviceKind::Jade,
        })),
        !jade_wrong_network(info.jade_networks, network) && info.jade_state == JadeState::Ready
            ==> (r matches JadeStep::Ready { id: rid, version } && rid@ == id@ && version
            == parsed_version_of(info.jade_version@)),
{
    let version = parse_version_text(info.jade_version.as_str());
    let wrong = match network {
        Network::Bitcoin => !matches!(info.jade_networks, JadeNetworks::Main | JadeNetworks::All),
        _ => matches!(info.jade_networks, JadeNetworks::Main),
    };
    if wrong {
        JadeStep::Record(
            HardwareWallet::Unsupported {
                id,
                kind: DeviceKind::Jade,
                version,
                reason: UnsupportedReason::WrongNetwork,
            },
        )
    } else {
        match info.jade_state {
            JadeState::Ready => JadeStep::Ready { id, version },
            _ => JadeStep::Record(
                HardwareWallet::Locked {
                    id,
                    device: Some(LockedDevice::Jade),
                    pairing_code: None,
                    kind: DeviceKind::Jade,
                },
            ),
        }
    }
}

} // verus!
