//! Per-cycle scan state: the bookkeeping every transport scanner shares while
//! one poll cycle runs.
//!
//! A scanner that reaches an endpoint first asks whether its session id is
//! already tracked; a tracked id only goes on the still-connected list, an
//! unknown one is classified afresh and its record collected. Ending the
//! cycle computes the id set the next cycle will treat as tracked (the
//! still-connected ids plus the `Locked` and `Supported` newcomers —
//! `Unsupported` devices are probed again every cycle) and hands the cycle's
//! outcome to the session registry.

use vstd::prelude::*;
use vstd::seq_lib::*;

use crate::aliases::AliasMap;
use crate::chain::Network;
use crate::hw::{HardwareWallet, HardwareWalletView};
use crate::registry::{contains_id, ids_view, record_views, ConnectedList};
use crate::wallet::Wallet;

verus! {

/// Where a poll cycle's outcome is delivered.
#[derive(Debug, Clone)]
pub enum Destination {
    Installer,
    SettingsWallet,
    Receive,
    Psbt,
}

/// What the poll loop is asked to do.
pub enum HwMessage {
    Poll(Destination),
}

/// Whether a record's session counts as connected for the next cycle.
pub open spec fn session_kept(r: HardwareWalletView) -> bool {
    r is Locked || r is Supported
}

/// The session test as a predicate.
pub open spec fn session_kept_pred() -> spec_fn(HardwareWalletView) -> bool {
    |r: HardwareWalletView| session_kept(r)
}

/// The id extraction as a function over records.
pub open spec fn id_fn() -> spec_fn(HardwareWalletView) -> Seq<char> {
    |r: HardwareWalletView| r.id()
}

/// The state one poll cycle works on.
pub struct HwState {
    pub network: Network,
    /// The alias table the classifier resolves labels from.
    pub keys_aliases: AliasMap,
    /// The wallet context, once one is loaded.
    pub wallet: Option<Wallet>,
    /// Whether the wallet uses a taproot descriptor.
    pub taproot: bool,
    /// The session ids the previous cycle left connected.
    pub connected_supported_hws: Vec<String>,
    /// This cycle's freshly classified records.
    pub hws: Vec<HardwareWallet>,
    /// This cycle's still-connected ids.
    pub still: Vec<String>,
}

impl HwState {
    /// Notes a reachable endpoint: a session id the previous cycle already
    /// tracked goes on the still-connected list (and the caller skips the
    /// handshake); an unknown one is left to be classified afresh.
    pub fn note_candidate(&mut self, id: String) -> (known: bool)
        ensures
            known == ids_view(old(self).connected_supported_hws@).contains(id@),
            known ==> final(self).still@ == old(self).still@.push(id),
            !known ==> final(self).still == old(self).still,
            final(self).network == old(self).network,
            final(self).keys_aliases == old(self).keys_aliases,
            final(self).wallet == old(self).wallet,
            final(self).taproot == old(self).taproot,
            final(self).connected_supported_hws == old(self).connected_supported_hws,
            final(self).hws == old(self).hws,
    {
        if contains_id(&self.connected_supported_hws, &id) {
            self.still.push(id);
            true
        } else {
            false
        }
    }

    /// Collects one freshly classified record.
    pub fn add_record(&mut self, hw: HardwareWallet)
        ensures
            final(self).hws@ == old(self).hws@.push(hw),
            final(self).network == old(self).network,
            final(self).keys_aliases == old(self).keys_aliases,
            final(self).wallet == old(self).wallet,
            final(self).taproot == old(self).taproot,
            final(self).connected_supported_hws == old(self).connected_supported_hws,
            final(self).still == old(self).still,
    {
        self.hws.push(hw);
    }

    /// Ends the cycle: the next cycle treats as tracked the still-connected
    /// ids followed by the ids of the `Locked` and `Supported` newcomers, and
    /// the cycle's records and still-connected ids go to the registry.
    pub fn finish_cycle(&mut self) -> (msg: ConnectedList)
        ensures
            msg.new@ == old(self).hws@,
            msg.still@ == old(self).still@,
            ids_view(final(self).connected_supported_hws@) == ids_view(old(self).still@)
                + record_views(old(self).hws@).filter(session_kept_pred()).map_values(id_fn()),
            final(self).hws@ == Seq::<HardwareWallet>::empty(),
            final(self).still@ == Seq::<String>::empty(),
            final(self).network == old(self).network,
            final(self).keys_aliases == old(self).keys_aliases,
            final(self).wallet == old(self).wallet,
            final(self).taproot == old(self).taproot,
    {
        let ghost kp = session_kept_pred();
        let ghost idf = id_fn();
        let ghost hws0 = record_views(self.hws@);
        let mut connected: Vec<String> = Vec::new();
        let mut i: usize = 0;
        while i < self.still.len()
            invariant
                i <= self.still.len(),
                connected@ == self.still@.take(i as int),
            decreases self.still.len() - i,
        {
            let entry = self.still[i].clone();
            connected.push(entry);
            proof {
                assert(connected@ =~= self.still@.take(i + 1));
            }
            i += 1;
        }
        proof {
            assert(self.still@.take(i as int) =~= self.still@);
            assert(ids_view(connected@) =~= ids_view(self.still@));
            assert(record_views(self.hws@.take(0)).filter(kp).map_values(idf) =~= Seq::empty());
        }
        let ghost base = ids_view(self.still@);
        let mut j: usize = 0;
        while j < self.hws.len()
            invariant
                j <= self.hws.len(),
                kp == session_kept_pred(),
                idf == id_fn(),
                base == ids_view(self.still@),
                hws0 == record_views(self.hws@),
                ids_view(connected@) == base + record_views(self.hws@.take(j as int)).filter(
                    kp,
                ).map_values(idf),
            decreases self.hws.len() - j,
        {
            let keep = matches!(
                &self.hws[j],
                HardwareWallet::Locked { .. } | HardwareWallet::Supported { .. },
            );
            let ghost connprev = connected@;
            if keep {
                let entry = self.hws[j].id().clone();
                connected.push(entry);
            }
            proof {
                reveal(Seq::filter);
                let taken = record_views(self.hws@.take(j + 1));
                let prev = record_views(self.hws@.take(j as int));
                assert(taken.drop_last() =~= prev);
                assert(taken.last() == self.hws@[j as int]@);
                assert(keep == kp(self.hws@[j as int]@));
                if keep {
                    assert(taken.filter(kp) =~= prev.filter(kp).push(self.hws@[j as int]@));
                    assert(taken.filter(kp).map_values(idf) =~= prev.filter(kp).map_values(
                        idf,
                    ).push(self.hws@[j as int]@.id()));
                    assert(ids_view(connected@) =~= ids_view(connprev).push(
                        self.hws@[j as int]@.id(),
                    ));
                } else {
                    assert(taken.filter(kp) =~= prev.filter(kp));
                }
                assert(ids_view(connected@) =~= base + taken.filter(kp).map_values(idf));
            }
            j += 1;
        }
        proof {
            assert(self.hws@.take(j as int) =~= self.hws@);
        }
        let mut new: Vec<HardwareWallet> = Vec::new();
        let mut still: Vec<String> = Vec::new();
        core::mem::swap(&mut new, &mut self.hws);
        core::mem::swap(&mut still, &mut self.still);
        self.connected_supported_hws = connected;
        ConnectedList { new, still }
    }
}

} // verus!
