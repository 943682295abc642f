//! The session registry: the stateful core that owns the tracked device
//! records and the alias table, reconciles successive scan results, and
//! resolves pending unlock flows.
//!
//! One reconciliation step (a `List` message) removes every record whose
//! session id is absent from the still-connected list, appends the freshly
//! scanned records, recomputes every `Supported` record's alias from the
//! table, hands out the pending unlock continuations exactly once, and — when
//! a wallet is loaded — downgrades any `Supported` record whose fingerprint
//! left the wallet's key set. An unlock completion (an `Unlocked` message)
//! replaces the matching `Locked` record in place with its terminal outcome,
//! or is silently discarded when its session id is no longer tracked.

use vstd::prelude::*;
use vstd::seq_lib::*;

use crate::aliases::{lookup, str_opt_view, AliasMap};
use crate::classify::wallet_keys_view;
use crate::chain::{Fingerprint, Network};
use crate::hw::{HardwareWallet, HardwareWalletView, LockedDevice, UnsupportedReason, UnsupportedReasonView};
use crate::wallet::Wallet;

verus! {

/// A device-level error surfaced by the registry.
#[derive(Debug)]
pub enum HwError {
    Device(String),
}

/// One background unlock task to dispatch: the session id it belongs to and
/// which continuation was taken out of the record. Each pending continuation
/// is handed out exactly once.
#[derive(Debug)]
pub struct UnlockJob {
    pub id: String,
    pub device: LockedDevice,
}

/// The mathematical value of an unlock job.
pub struct UnlockJobView {
    pub id: Seq<char>,
    pub device: LockedDevice,
}

impl View for UnlockJob {
    type V = UnlockJobView;

    open spec fn view(&self) -> UnlockJobView {
        UnlockJobView { id: self.id@, device: self.device }
    }
}

/// One scan cycle's outcome: the freshly classified records and the ids of
/// the devices the caller already tracks that are still connected.
#[derive(Debug)]
pub struct ConnectedList {
    pub new: Vec<HardwareWallet>,
    pub still: Vec<String>,
}

/// What the registry is told between cycles.
#[derive(Debug)]
pub enum HardwareWalletMessage {
    /// A cycle-level error (the transport subsystem could not start).
    Error(String),
    /// A completed scan cycle.
    List(ConnectedList),
    /// A completed unlock flow: the originating session id and its terminal
    /// outcome.
    Unlocked(String, Result<HardwareWallet, HwError>),
}

/// The views of a record list.
pub open spec fn record_views(l: Seq<HardwareWallet>) -> Seq<HardwareWalletView> {
    l.map_values(|h: HardwareWallet| h@)
}

/// The views of an id list.
pub open spec fn ids_view(l: Seq<String>) -> Seq<Seq<char>> {
    l.map_values(|s: String| s@)
}

/// The views of a job list.
pub open spec fn job_views(l: Seq<UnlockJob>) -> Seq<UnlockJobView> {
    l.map_values(|j: UnlockJob| j@)
}

/// The view of an optional job.
pub open spec fn job_opt_view(o: Option<UnlockJob>) -> Option<UnlockJobView> {
    match o {
        Some(j) => Some(j@),
        None => None,
    }
}

/// The signer key set of the loaded wallet, if one is loaded.
pub open spec fn keys_of(w: Option<Wallet>) -> Option<Seq<Fingerprint>> {
    match w {
        Some(wallet) => Some(wallet.keys@),
        None => None,
    }
}

/// Whether a record survives the removal step: its id is on the
/// still-connected list.
pub open spec fn still_pred(still: Seq<Seq<char>>) -> spec_fn(HardwareWalletView) -> bool {
    |r: HardwareWalletView| still.contains(r.id())
}

/// Whether a record survives dropping one session id.
pub open spec fn drop_id_pred(id: Seq<char>) -> spec_fn(HardwareWalletView) -> bool {
    |r: HardwareWalletView| r.id() != id
}

/// The per-record transform of one reconciliation: a `Supported` record whose
/// fingerprint left the wallet's key set is downgraded, any other `Supported`
/// record has its alias recomputed from the table, and a `Locked` record has
/// its pending continuation taken out (for dispatch as a background task).
pub open spec fn refresh_record(
    r: HardwareWalletView,
    aliases: Map<Fingerprint, Seq<char>>,
    wallet_keys: Option<Seq<Fingerprint>>,
) -> HardwareWalletView {
    match r {
        HardwareWalletView::Supported { id, kind, fingerprint, version, registered, alias } => {
            if wallet_keys matches Some(keys) && !keys.contains(fingerprint) {
                HardwareWalletView::Unsupported {
                    id,
                    kind,
                    version,
                    reason: UnsupportedReasonView::NotPartOfWallet(fingerprint),
                }
            } else {
                HardwareWalletView::Supported {
                    id,
                    kind,
                    fingerprint,
                    version,
                    registered,
                    alias: lookup(aliases, fingerprint),
                }
            }
        },
        HardwareWalletView::Locked { id, device, pairing_code, kind } => {
            HardwareWalletView::Locked { id, device: None, pairing_code, kind }
        },
        HardwareWalletView::Unsupported { .. } => r,
    }
}

/// The reconciliation transform as a predicate over records.
pub open spec fn refresh_pred(
    aliases: Map<Fingerprint, Seq<char>>,
    wallet_keys: Option<Seq<Fingerprint>>,
) -> spec_fn(HardwareWalletView) -> HardwareWalletView {
    |r: HardwareWalletView| refresh_record(r, aliases, wallet_keys)
}

/// Whether a record still holds an undispatched unlock continuation.
pub open spec fn pending_unlock(r: HardwareWalletView) -> bool {
    r matches HardwareWalletView::Locked { device: Some(_), .. }
}

/// The pending-unlock test as a predicate.
pub open spec fn pending_pred() -> spec_fn(HardwareWalletView) -> bool {
    |r: HardwareWalletView| pending_unlock(r)
}

/// The unlock job a pending `Locked` record gives rise to.
pub open spec fn job_of(r: HardwareWalletView) -> UnlockJobView
    recommends
        pending_unlock(r),
{
    UnlockJobView { id: r.id(), device: r->Locked_device->0 }
}

/// The job extraction as a function over records.
pub open spec fn job_fn() -> spec_fn(HardwareWalletView) -> UnlockJobView {
    |r: HardwareWalletView| job_of(r)
}

/// The tracked list after the removal and append steps of one
/// reconciliation, before the per-record transform.
pub open spec fn merged_spec(
    list: Seq<HardwareWalletView>,
    still: Seq<Seq<char>>,
    new: Seq<HardwareWalletView>,
) -> Seq<HardwareWalletView> {
    list.filter(still_pred(still)) + new
}

/// The tracked list after one full reconciliation.
pub open spec fn reconcile_spec(
    list: Seq<HardwareWalletView>,
    still: Seq<Seq<char>>,
    new: Seq<HardwareWalletView>,
    aliases: Map<Fingerprint, Seq<char>>,
    wallet_keys: Option<Seq<Fingerprint>>,
) -> Seq<HardwareWalletView> {
    merged_spec(list, still, new).map_values(refresh_pred(aliases, wallet_keys))
}

/// The unlock jobs one reconciliation dispatches, in list order.
pub open spec fn unlock_jobs_spec(
    list: Seq<HardwareWalletView>,
    still: Seq<Seq<char>>,
    new: Seq<HardwareWalletView>,
) -> Seq<UnlockJobView> {
    merged_spec(list, still, new).filter(pending_pred()).map_values(job_fn())
}

/// How one alias write changes a record on the spot: the written fingerprint
/// shows the new label, and any other record showing that label loses it.
pub open spec fn alias_update_record(
    r: HardwareWalletView,
    fg: Fingerprint,
    label: Seq<char>,
) -> HardwareWalletView {
    match r {
        HardwareWalletView::Supported { id, kind, fingerprint, version, registered, alias } => {
            if fingerprint == fg {
                HardwareWalletView::Supported {
                    id,
                    kind,
                    fingerprint,
                    version,
                    registered,
                    alias: Some(label),
                }
            } else if alias == Some(label) {
                HardwareWalletView::Supported {
                    id,
                    kind,
                    fingerprint,
                    version,
                    registered,
                    alias: None,
                }
            } else {
                r
            }
        },
        _ => r,
    }
}

/// The alias-write transform as a function over records.
pub open spec fn alias_update_fn(fg: Fingerprint, label: Seq<char>) -> spec_fn(
    HardwareWalletView,
) -> HardwareWalletView {
    |r: HardwareWalletView| alias_update_record(r, fg, label)
}

/// One record after an alias write.
fn alias_update_one(r: HardwareWallet, fg: Fingerprint, label: &String) -> (out: HardwareWallet)
    ensures
        out@ == alias_update_record(r@, fg, label@),
{
    match r {
        HardwareWallet::Supported { id, kind, fingerprint, version, registered, alias } => {
            if fingerprint == fg {
                HardwareWallet::Supported {
                    id,
                    kind,
                    fingerprint,
                    version,
                    registered,
                    alias: Some(label.clone()),
                }
            } else {
                let shows_label = match &alias {
                    Some(a) => *a == *label,
                    None => false,
                };
                if shows_label {
                    HardwareWallet::Supported {
                        id,
                        kind,
                        fingerprint,
                        version,
                        registered,
                        alias: None,
                    }
                } else {
                    HardwareWallet::Supported { id, kind, fingerprint, version, registered, alias }
                }
            }
        },
        other => other,
    }
}

/// Whether `r` is the `Locked` record of session `id`.
pub open spec fn locked_with_id(r: HardwareWalletView, id: Seq<char>) -> bool {
    r is Locked && r.id() == id
}

/// A terminal unlock outcome as it enters the list: a `Supported` outcome has
/// its alias resolved from the table.
pub open spec fn resolved_record(
    hw: HardwareWalletView,
    aliases: Map<Fingerprint, Seq<char>>,
) -> HardwareWalletView {
    match hw {
        HardwareWalletView::Supported { id, kind, fingerprint, version, registered, alias } => {
            HardwareWalletView::Supported {
                id,
                kind,
                fingerprint,
                version,
                registered,
                alias: lookup(aliases, fingerprint),
            }
        },
        _ => hw,
    }
}

/// The tracked list after an unlock outcome `hw` arrives: the first `Locked`
/// record carrying `hw`'s session id is replaced in place; a list without one
/// is unchanged.
pub open spec fn resolve_spec(
    list: Seq<HardwareWalletView>,
    hw: HardwareWalletView,
    aliases: Map<Fingerprint, Seq<char>>,
) -> Seq<HardwareWalletView>
    decreases list.len(),
{
    if list.len() == 0 {
        list
    } else if locked_with_id(list[0], hw.id()) {
        seq![resolved_record(hw, aliases)] + list.drop_first()
    } else {
        seq![list[0]] + resolve_spec(list.drop_first(), hw, aliases)
    }
}

/// Whether `ids` holds `id`.
pub(crate) fn contains_id(ids: &Vec<String>, id: &String) -> (r: bool)
    ensures
        r == ids_view(ids@).contains(id@),
{
    let mut i: usize = 0;
    while i < ids.len()
        invariant
            i <= ids.len(),
            forall|j: int| 0 <= j < i ==> ids_view(ids@)[j] != id@,
        decreases ids.len() - i,
    {
        if ids[i] == *id {
            proof {
                assert(ids_view(ids@)[i as int] == id@);
            }
            return true;
        }
        i += 1;
    }
    false
}

/// The per-record reconciliation transform, and the unlock job it hands out,
/// if the record held a pending continuation.
fn refresh_one(r: HardwareWallet, aliases: &AliasMap, wallet: Option<&Wallet>) -> (out: (
    HardwareWallet,
    Option<UnlockJob>,
))
    ensures
        out.0@ == refresh_record(r@, aliases@, wallet_keys_view(wallet)),
        job_opt_view(out.1) == (if pending_unlock(r@) {
            Some(job_of(r@))
        } else {
            None
        }),
{
    match r {
        HardwareWallet::Supported { id, kind, fingerprint, version, registered, alias: _ } => {
            let in_wallet = match wallet {
                Some(w) => w.has_key(fingerprint),
                None => true,
            };
            if !in_wallet {
                (
                    HardwareWallet::Unsupported {
                        id,
                        kind,
                        version,
                        reason: UnsupportedReason::NotPartOfWallet(fingerprint),
                    },
                    None,
                )
            } else {
                let alias = aliases.get_owned(fingerprint);
                proof {
                    assert(str_opt_view(alias) == lookup(aliases@, fingerprint));
                }
                (
                    HardwareWallet::Supported { id, kind, fingerprint, version, registered, alias },
                    None,
                )
            }
        },
        HardwareWallet::Locked { id, device, pairing_code, kind } => {
            match device {
                Some(d) => {
                    let job = UnlockJob { id: id.clone(), device: d };
                    (HardwareWallet::Locked { id, device: None, pairing_code, kind }, Some(job))
                },
                None => (HardwareWallet::Locked { id, device: None, pairing_code, kind }, None),
            }
        },
        other => (other, None),
    }
}

/// A terminal unlock outcome with its alias resolved from the table.
fn resolve_alias(hw: HardwareWallet, aliases: &AliasMap) -> (r: HardwareWallet)
    ensures
        r@ == resolved_record(hw@, aliases@),
{
    match hw {
        HardwareWallet::Supported { id, kind, fingerprint, version, registered, alias: _ } => {
            let alias = aliases.get_owned(fingerprint);
            proof {
                assert(str_opt_view(alias) == lookup(aliases@, fingerprint));
            }
            HardwareWallet::Supported { id, kind, fingerprint, version, registered, alias }
        },
        other => other,
    }
}

/// The session registry.
pub struct HardwareWallets {
    pub network: Network,
    /// The tracked device records, in arrival order.
    pub list: Vec<HardwareWallet>,
    /// The process-wide alias table.
    pub aliases: AliasMap,
    /// The wallet context devices are classified against, once loaded.
    pub wallet: Option<Wallet>,
    /// Where per-device pairing data is persisted.
    pub datadir_path: String,
}

impl HardwareWallets {
    /// An empty registry for `network`.
    pub fn new(datadir_path: String, network: Network) -> (r: HardwareWallets)
        ensures
            r.network == network,
            r.list@ == Seq::<HardwareWallet>::empty(),
            r.aliases@ == Map::<Fingerprint, Seq<char>>::empty(),
            r.wallet is None,
            r.datadir_path@ == datadir_path@,
    {
        HardwareWallets {
            network,
            list: Vec::new(),
            aliases: AliasMap::new(),
            wallet: None,
            datadir_path,
        }
    }

    /// The registry with a wallet context loaded; the alias table is replaced
    /// by the wallet's.
    pub fn with_wallet(self, wallet: Wallet) -> (r: HardwareWallets)
        ensures
            r.network == self.network,
            r.list == self.list,
            r.aliases@ == wallet.keys_aliases@,
            r.wallet == Some(wallet),
            r.datadir_path == self.datadir_path,
    {
        let aliases = wallet.keys_aliases.duplicate();
        HardwareWallets { aliases, wallet: Some(wallet), ..self }
    }

    /// Replaces the alias table wholesale (loaded from the external store).
    pub fn load_aliases(&mut self, aliases: AliasMap)
        ensures
            final(self).aliases == aliases,
            final(self).network == old(self).network,
            final(self).list == old(self).list,
            final(self).wallet == old(self).wallet,
            final(self).datadir_path == old(self).datadir_path,
    {
        self.aliases = aliases;
    }

    /// Switches the target network; a network change invalidates every prior
    /// connection, so the tracked list is cleared.
    pub fn set_network(&mut self, network: Network)
        ensures
            final(self).network == network,
            final(self).list@ == Seq::<HardwareWallet>::empty(),
            final(self).aliases == old(self).aliases,
            final(self).wallet == old(self).wallet,
            final(self).datadir_path == old(self).datadir_path,
    {
        self.network = network;
        self.list = Vec::new();
    }

    /// Gives fingerprint `fg` the display label `new_alias`, in the table and
    /// on the tracked records: no other fingerprint keeps that label, in
    /// either place.
    pub fn set_alias(&mut self, fg: Fingerprint, new_alias: String)
        ensures
            final(self).aliases@.contains_key(fg),
            final(self).aliases@[fg] == new_alias@,
            forall|k: Fingerprint|
                k != fg ==> (#[trigger] final(self).aliases@.contains_key(k) <==> (old(self).aliases@.contains_key(k) && old(self).aliases@[k] != new_alias@)),
            forall|k: Fingerprint|
                k != fg && final(self).aliases@.contains_key(k) ==> #[trigger] final(self).aliases@[k] == old(self).aliases@[k],
            record_views(final(self).list@) == record_views(old(self).list@).map_values(
                alias_update_fn(fg, new_alias@),
            ),
            final(self).network == old(self).network,
            final(self).wallet == old(self).wallet,
            final(self).datadir_path == old(self).datadir_path,
    {
        let label = new_alias.clone();
        self.aliases.set(fg, new_alias);
        let ghost l0 = record_views(self.list@);
        let ghost ufn = alias_update_fn(fg, label@);
        let mut olds: Vec<HardwareWallet> = Vec::new();
        core::mem::swap(&mut olds, &mut self.list);
        let ghost olds0 = olds@;
        let mut out: Vec<HardwareWallet> = Vec::new();
        proof {
            assert(olds0.skip(0) =~= olds0);
            assert(record_views(olds0.take(0)).map_values(ufn) =~= Seq::empty());
            assert(record_views(out@) =~= Seq::empty());
        }
        while olds.len() > 0
            invariant
                olds@.len() <= olds0.len(),
                ufn == alias_update_fn(fg, label@),
                olds@ == olds0.skip(olds0.len() - olds@.len()),
                record_views(out@) == record_views(olds0.take(olds0.len() - olds@.len())).map_values(
                    ufn,
                ),
            decreases olds@.len(),
        {
            let ghost k = olds0.len() - olds@.len();
            let rec = olds.remove(0);
            proof {
                assert(olds0.skip(k)[0] == olds0[k]);
                assert(rec == olds0[k]);
                assert(olds@ =~= olds0.skip(k + 1));
            }
            let updated = alias_update_one(rec, fg, &label);
            let ghost outprev = out@;
            out.push(updated);
            proof {
                assert(record_views(out@) =~= record_views(outprev).push(updated@));
                assert(record_views(olds0.take(k + 1)) =~= record_views(olds0.take(k)).push(
                    olds0[k]@,
                ));
                assert(record_views(olds0.take(k + 1)).map_values(ufn) =~= record_views(
                    olds0.take(k),
                ).map_values(ufn).push(ufn(olds0[k]@)));
                assert(record_views(out@) =~= record_views(olds0.take(k + 1)).map_values(ufn));
            }
        }
        proof {
            assert(olds0.take(olds0.len() - olds@.len()) =~= olds0);
            assert(record_views(olds0) =~= l0);
        }
        self.list = out;
    }

    /// Processes one message: a scan cycle is reconciled into the tracked
    /// list and the unlock continuations to dispatch are handed back; an
    /// unlock completion replaces (or, for an unknown or failed session,
    /// drops) its record; a cycle-level error is surfaced unchanged.
    pub fn update(&mut self, message: HardwareWalletMessage) -> (r: Result<
        Vec<UnlockJob>,
        HwError,
    >)
        ensures
            final(self).network == old(self).network,
            final(self).wallet == old(self).wallet,
            final(self).aliases == old(self).aliases,
            final(self).datadir_path == old(self).datadir_path,
            message matches HardwareWalletMessage::Error(e) ==> *final(self) == *old(self) && (
            r matches Err(HwError::Device(d)) && d@ == e@),
            message matches HardwareWalletMessage::List(cl) ==> {
                &&& record_views(final(self).list@) == reconcile_spec(
                    record_views(old(self).list@),
                    ids_view(cl.still@),
                    record_views(cl.new@),
                    old(self).aliases@,
                    keys_of(old(self).wallet),
                )
                &&& r matches Ok(jobs) && job_views(jobs@) == unlock_jobs_spec(
                    record_views(old(self).list@),
                    ids_view(cl.still@),
                    record_views(cl.new@),
                )
            },
            message matches HardwareWalletMessage::Unlocked(id, res) ==> {
                &&& r matches Ok(jobs) && jobs@ == Seq::<UnlockJob>::empty()
                &&& res matches Err(_) ==> record_views(final(self).list@) == record_views(
                    old(self).list@,
                ).filter(drop_id_pred(id@))
                &&& res matches Ok(hw) ==> record_views(final(self).list@) == resolve_spec(
                    record_views(old(self).list@),
                    hw@,
                    old(self).aliases@,
                )
            },
    {
        match message {
            HardwareWalletMessage::Error(e) => Err(HwError::Device(e)),
            HardwareWalletMessage::List(ConnectedList { mut new, still }) => {
                let ghost l0 = record_views(self.list@);
                let ghost stillv = ids_view(still@);
                let ghost spred = still_pred(stillv);
                // step 1: drop every record whose id is no longer connected
                let mut olds: Vec<HardwareWallet> = Vec::new();
                core::mem::swap(&mut olds, &mut self.list);
                let ghost olds0 = olds@;
                let mut kept: Vec<HardwareWallet> = Vec::new();
                proof {
                    assert(olds0.skip(0) =~= olds0);
                    assert(record_views(olds0.take(0)).filter(spred) =~= Seq::empty());
                    assert(record_views(kept@) =~= Seq::empty());
                }
                while olds.len() > 0
                    invariant
                        olds@.len() <= olds0.len(),
                        spred == still_pred(ids_view(still@)),
                        olds@ == olds0.skip(olds0.len() - olds@.len()),
                        record_views(kept@) == record_views(
                            olds0.take(olds0.len() - olds@.len()),
                        ).filter(spred),
                    decreases olds@.len(),
                {
                    let ghost k = olds0.len() - olds@.len();
                    let rec = olds.remove(0);
                    proof {
                        assert(olds0.skip(k)[0] == olds0[k]);
                        assert(rec == olds0[k]);
                        assert(olds@ =~= olds0.skip(k + 1));
                    }
                    let keep = contains_id(&still, rec.id());
                    proof {
                        reveal(Seq::filter);
                        assert(record_views(olds0.take(k + 1)).drop_last() =~= record_views(
                            olds0.take(k),
                        ));
                        assert(record_views(olds0.take(k + 1)).last() == olds0[k]@);
                        assert(keep == spred(olds0[k]@));
                    }
                    if keep {
                        kept.push(rec);
                    }
                    proof {
                        assert(record_views(kept@) =~= record_views(olds0.take(k + 1)).filter(
                            spred,
                        ));
                    }
                }
                proof {
                    assert(olds0.take(olds0.len() - olds@.len()) =~= olds0);
                    assert(record_views(kept@) == l0.filter(spred)) by {
                        assert(record_views(olds0) =~= l0);
                    }
                }
                // step 2: append the freshly scanned records
                let ghost new0 = record_views(new@);
                kept.append(&mut new);
                let ghost m0 = record_views(kept@);
                proof {
                    assert(m0 =~= merged_spec(l0, stillv, new0));
                }
                // steps 3-5: recompute aliases, hand out pending unlock
                // continuations, downgrade records that left the key set
                let ghost rpred = refresh_pred(self.aliases@, keys_of(self.wallet));
                let ghost ppred = pending_pred();
                let ghost jfn = job_fn();
                let mut merged = kept;
                let ghost mseq = merged@;
                let mut result: Vec<HardwareWallet> = Vec::new();
                let mut jobs: Vec<UnlockJob> = Vec::new();
                proof {
                    assert(mseq.skip(0) =~= mseq);
                    assert(record_views(mseq.take(0)).map_values(rpred) =~= Seq::empty());
                    assert(record_views(mseq.take(0)).filter(ppred) =~= Seq::empty());
                    assert(record_views(result@) =~= Seq::empty());
                    assert(job_views(jobs@) =~= Seq::empty());
                    assert(record_views(mseq.take(0)).filter(ppred).map_values(jfn)
                        =~= Seq::empty());
                }
                while merged.len() > 0
                    invariant
                        merged@.len() <= mseq.len(),
                        rpred == refresh_pred(self.aliases@, keys_of(self.wallet)),
                        ppred == pending_pred(),
                        jfn == job_fn(),
                        merged@ == mseq.skip(mseq.len() - merged@.len()),
                        record_views(result@) == record_views(
                            mseq.take(mseq.len() - merged@.len()),
                        ).map_values(rpred),
                        job_views(jobs@) == record_views(
                            mseq.take(mseq.len() - merged@.len()),
                        ).filter(ppred).map_values(jfn),
                    decreases merged@.len(),
                {
                    let ghost k = mseq.len() - merged@.len();
                    let rec = merged.remove(0);
                    proof {
                        assert(mseq.skip(k)[0] == mseq[k]);
                        assert(rec == mseq[k]);
                        assert(merged@ =~= mseq.skip(k + 1));
                    }
                    let wref = self.wallet.as_ref();
                    proof {
                        assert(wallet_keys_view(wref) == keys_of(self.wallet));
                    }
                    let (refreshed, job) = refresh_one(rec, &self.aliases, wref);
                    proof {
                        assert(refreshed@ == refresh_record(mseq[k]@, self.aliases@, keys_of(
                            self.wallet,
                        )));
                        assert(refreshed@ == rpred(mseq[k]@));
                    }
                    let ghost resprev = result@;
                    result.push(refreshed);
                    let ghost jv = job_opt_view(job);
                    let ghost jobsprev = jobs@;
                    if let Some(j) = job {
                        jobs.push(j);
                    }
                    proof {
                        reveal(Seq::filter);
                        let taken = record_views(mseq.take(k + 1));
                        let prev = record_views(mseq.take(k));
                        assert(taken.drop_last() =~= prev);
                        assert(taken.last() == mseq[k]@);
                        assert(record_views(result@) =~= record_views(resprev).push(
                            refreshed@,
                        ));
                        assert(taken.map_values(rpred) =~= prev.map_values(rpred).push(rpred(
                            mseq[k]@,
                        )));
                        assert(record_views(result@) =~= taken.map_values(rpred));
                        if pending_unlock(mseq[k]@) {
                            assert(jv == Some(job_of(mseq[k]@)));
                            assert(taken.filter(ppred) =~= prev.filter(ppred).push(mseq[k]@));
                            assert(taken.filter(ppred).map_values(jfn) =~= prev.filter(
                                ppred,
                            ).map_values(jfn).push(jfn(mseq[k]@)));
                            assert(job_views(jobs@) =~= job_views(jobsprev).push(job_of(
                                mseq[k]@,
                            )));
                            assert(job_views(jobs@) =~= taken.filter(ppred).map_values(jfn));
                        } else {
                            assert(jv is None);
                            assert(jobs@ == jobsprev);
                            assert(taken.filter(ppred) =~= prev.filter(ppred));
                            assert(job_views(jobs@) =~= taken.filter(ppred).map_values(jfn));
                        }
                    }
                }
                proof {
                    assert(mseq.take(mseq.len() - merged@.len()) =~= mseq);
                    assert(record_views(mseq) =~= m0);
                }
                self.list = result;
                Ok(jobs)
            },
            HardwareWalletMessage::Unlocked(id, res) => {
                match res {
                    Err(_) => {
                        // the unlock failed: drop the device from tracking
                        let ghost l0 = record_views(self.list@);
                        let ghost dpred = drop_id_pred(id@);
                        let mut olds: Vec<HardwareWallet> = Vec::new();
                        core::mem::swap(&mut olds, &mut self.list);
                        let ghost olds0 = olds@;
                        let mut kept: Vec<HardwareWallet> = Vec::new();
                        proof {
                            assert(olds0.skip(0) =~= olds0);
                            assert(record_views(olds0.take(0)).filter(dpred) =~= Seq::empty());
                            assert(record_views(kept@) =~= Seq::empty());
                        }
                        while olds.len() > 0
                            invariant
                                olds@.len() <= olds0.len(),
                                dpred == drop_id_pred(id@),
                                olds@ == olds0.skip(olds0.len() - olds@.len()),
                                record_views(kept@) == record_views(
                                    olds0.take(olds0.len() - olds@.len()),
                                ).filter(dpred),
                            decreases olds@.len(),
                        {
                            let ghost k = olds0.len() - olds@.len();
                            let rec = olds.remove(0);
                            proof {
                                assert(olds0.skip(k)[0] == olds0[k]);
                                assert(rec == olds0[k]);
                                assert(olds@ =~= olds0.skip(k + 1));
                            }
                            let keep = !(*rec.id() == id);
                            proof {
                                reveal(Seq::filter);
                                assert(record_views(olds0.take(k + 1)).drop_last()
                                    =~= record_views(olds0.take(k)));
                                assert(record_views(olds0.take(k + 1)).last() == olds0[k]@);
                                assert(keep == dpred(olds0[k]@));
                            }
                            if keep {
                                kept.push(rec);
                            }
                            proof {
                                assert(record_views(kept@) =~= record_views(
                                    olds0.take(k + 1),
                                ).filter(dpred));
                            }
                        }
                        proof {
                            assert(olds0.take(olds0.len() - olds@.len()) =~= olds0);
                            assert(record_views(olds0) =~= l0);
                        }
                        self.list = kept;
                        Ok(Vec::new())
                    },
                    Ok(hw) => {
                        // replace the matching Locked record in place; an id
                        // no longer tracked discards the outcome silently
                        let ghost l0 = record_views(self.list@);
                        let ghost hw0 = hw@;
                        let target = hw.id().clone();
                        let mut rest: Vec<HardwareWallet> = Vec::new();
                        core::mem::swap(&mut rest, &mut self.list);
                        let ghost rest0 = rest@;
                        let mut out: Vec<HardwareWallet> = Vec::new();
                        let mut pending: Option<HardwareWallet> = Some(hw);
                        let mut jmatch: Ghost<int> = Ghost(0);
                        proof {
                            assert(rest0.skip(0) =~= rest0);
                            assert(record_views(rest0.take(0)) =~= Seq::empty());
                            assert(record_views(out@) =~= Seq::empty());
                        }
                        while rest.len() > 0
                            invariant
                                rest@.len() <= rest0.len(),
                                target@ == hw0.id(),
                                rest@ == rest0.skip(rest0.len() - rest@.len()),
                                pending matches Some(h) ==> h@ == hw0,
                                pending is Some ==> {
                                    &&& record_views(out@) == record_views(
                                        rest0.take(rest0.len() - rest@.len()),
                                    )
                                    &&& forall|j: int|
                                        0 <= j < rest0.len() - rest@.len() ==> !locked_with_id(
                                            #[trigger] record_views(rest0)[j],
                                            hw0.id(),
                                        )
                                },
                                pending is None ==> {
                                    &&& 0 <= jmatch@ < rest0.len() - rest@.len()
                                    &&& locked_with_id(record_views(rest0)[jmatch@], hw0.id())
                                    &&& forall|j: int|
                                        0 <= j < jmatch@ ==> !locked_with_id(
                                            #[trigger] record_views(rest0)[j],
                                            hw0.id(),
                                        )
                                    &&& record_views(out@) == record_views(rest0.take(jmatch@)) + seq![
                                        resolved_record(hw0, self.aliases@),
                                    ] + record_views(
                                        rest0.subrange(jmatch@ + 1, rest0.len() - rest@.len()),
                                    )
                                },
                            decreases rest@.len(),
                        {
                            let ghost k = rest0.len() - rest@.len();
                            let rec = rest.remove(0);
                            proof {
                                assert(rest0.skip(k)[0] == rest0[k]);
                                assert(rec == rest0[k]);
                                assert(rest@ =~= rest0.skip(k + 1));
                            }
                            let is_match = pending.is_some() && matches!(
                                rec,
                                HardwareWallet::Locked { .. },
                            ) && *rec.id() == target;
                            if is_match {
                                let resolved = match pending.take() {
                                    Some(h) => resolve_alias(h, &self.aliases),
                                    None => unreached(),
                                };
                                out.push(resolved);
                                jmatch = Ghost(k);
                                proof {
                                    assert(locked_with_id(record_views(rest0)[k], hw0.id()));
                                    assert(record_views(out@) =~= record_views(rest0.take(k))
                                        + seq![resolved_record(hw0, self.aliases@)]
                                        + record_views(rest0.subrange(k + 1, k + 1)));
                                }
                            } else {
                                let ghost outprev = out@;
                                out.push(rec);
                                proof {
                                    assert(out@ =~= outprev.push(rest0[k]));
                                    assert(record_views(out@) =~= record_views(outprev).push(
                                        rest0[k]@,
                                    ));
                                    if pending is Some {
                                        assert(!locked_with_id(record_views(rest0)[k], hw0.id()));
                                        assert(record_views(outprev) == record_views(
                                            rest0.take(k),
                                        ));
                                        assert(record_views(rest0.take(k + 1)) =~= record_views(
                                            rest0.take(k),
                                        ).push(rest0[k]@));
                                        assert(record_views(out@) =~= record_views(
                                            rest0.take(k + 1),
                                        ));
                                    } else {
                                        assert(record_views(out@) =~= record_views(
                                            rest0.take(jmatch@),
                                        ) + seq![resolved_record(hw0, self.aliases@)]
                                            + record_views(rest0.subrange(jmatch@ + 1, k + 1)));
                                    }
                                }
                            }
                        }
                        proof {
                            assert(rest0.take(rest0.len() - rest@.len()) =~= rest0);
                            assert(record_views(rest0) =~= l0);
                            if pending is Some {
                                Self::lemma_resolve_none(l0, hw0, self.aliases@);
                                assert(record_views(out@) =~= l0);
                            } else {
                                Self::lemma_resolve_at(l0, hw0, self.aliases@, jmatch@);
                                assert(record_views(rest0.take(jmatch@)) =~= l0.take(jmatch@));
                                assert(record_views(rest0.subrange(jmatch@ + 1, rest0.len() as int))
                                    =~= l0.skip(jmatch@ + 1));
                                assert(record_views(out@) =~= l0.take(jmatch@) + seq![
                                    resolved_record(hw0, self.aliases@),
                                ] + l0.skip(jmatch@ + 1));
                            }
                        }
                        self.list = out;
                        Ok(Vec::new())
                    },
                }
            },
        }
    }

    /// A list without a matching `Locked` record is unchanged by an unlock
    /// outcome.
    proof fn lemma_resolve_none(
        list: Seq<HardwareWalletView>,
        hw: HardwareWalletView,
        aliases: Map<Fingerprint, Seq<char>>,
    )
        requires
            forall|j: int| 0 <= j < list.len() ==> !locked_with_id(#[trigger] list[j], hw.id()),
        ensures
            resolve_spec(list, hw, aliases) == list,
        decreases list.len(),
    {
        if list.len() > 0 {
            assert(!locked_with_id(list[0], hw.id()));
            lemma_resolve_none_rec(list, hw, aliases);
        }
    }

    /// An unlock outcome replaces exactly the first matching `Locked` record.
    proof fn lemma_resolve_at(
        list: Seq<HardwareWalletView>,
        hw: HardwareWalletView,
        aliases: Map<Fingerprint, Seq<char>>,
        i: int,
    )
        requires
            0 <= i < list.len(),
            locked_with_id(list[i], hw.id()),
            forall|j: int| 0 <= j < i ==> !locked_with_id(#[trigger] list[j], hw.id()),
        ensures
            resolve_spec(list, hw, aliases) == list.take(i) + seq![resolved_record(hw, aliases)]
                + list.skip(i + 1),
        decreases i,
    {
        if i == 0 {
            assert(resolve_spec(list, hw, aliases) =~= list.take(0) + seq![
                resolved_record(hw, aliases),
            ] + list.skip(1));
        } else {
            Self::lemma_resolve_at(list.drop_first(), hw, aliases, i - 1);
            assert(list.drop_first().take(i - 1) =~= list.take(i).drop_first());
            assert(list.drop_first().skip(i) =~= list.skip(i + 1));
            assert(resolve_spec(list, hw, aliases) =~= list.take(i) + seq![
                resolved_record(hw, aliases),
            ] + list.skip(i + 1));
        }
    }
}

/// The reconciliation transform keeps a record's session id.
proof fn lemma_refresh_keeps_id(
    aliases: Map<Fingerprint, Seq<char>>,
    wallet_keys: Option<Seq<Fingerprint>>,
)
    ensures
        forall|r: HardwareWalletView| (#[trigger] refresh_record(r, aliases, wallet_keys)).id()
            == r.id(),
{
}

/// The reconciliation transform is idempotent on every record: a second pass
/// changes nothing.
proof fn lemma_refresh_idempotent(
    aliases: Map<Fingerprint, Seq<char>>,
    wallet_keys: Option<Seq<Fingerprint>>,
)
    ensures
        forall|r: HardwareWalletView| #[trigger] refresh_record(
            refresh_record(r, aliases, wallet_keys),
            aliases,
            wallet_keys,
        ) == refresh_record(r, aliases, wallet_keys),
{
}

/// Mapping a transform that does not change what a predicate tests commutes
/// with filtering by that predicate.
proof fn lemma_filter_map_commute(
    s: Seq<HardwareWalletView>,
    f: spec_fn(HardwareWalletView) -> HardwareWalletView,
    p: spec_fn(HardwareWalletView) -> bool,
)
    requires
        forall|r: HardwareWalletView| p(#[trigger] f(r)) == p(r),
    ensures
        s.map_values(f).filter(p) == s.filter(p).map_values(f),
    decreases s.len(),
{
    reveal(Seq::filter);
    if s.len() == 0 {
        assert(s.map_values(f).filter(p) =~= s.filter(p).map_values(f));
    } else {
        let rest = s.drop_last();
        lemma_filter_map_commute(rest, f, p);
        assert(s.map_values(f).drop_last() =~= rest.map_values(f));
        assert(s.map_values(f).last() == f(s.last()));
        if p(s.last()) {
            assert(s.filter(p) == rest.filter(p).push(s.last()));
            assert(s.filter(p).map_values(f) =~= rest.filter(p).map_values(f).push(f(s.last())));
            assert(s.map_values(f).filter(p) =~= rest.map_values(f).filter(p).push(f(s.last())));
        } else {
            assert(s.filter(p) == rest.filter(p));
            assert(s.map_values(f).filter(p) == rest.map_values(f).filter(p));
        }
    }
}

/// Filtering keeps a list whose records all pass the predicate.
proof fn lemma_filter_all_pass(s: Seq<HardwareWalletView>, p: spec_fn(HardwareWalletView) -> bool)
    requires
        forall|i: int| 0 <= i < s.len() ==> p(#[trigger] s[i]),
    ensures
        s.filter(p) == s,
    decreases s.len(),
{
    reveal(Seq::filter);
    if s.len() > 0 {
        lemma_filter_all_pass(s.drop_last(), p);
        assert(s.filter(p) =~= s.drop_last().push(s.last()));
        assert(s.drop_last().push(s.last()) =~= s);
    }
}

/// Filtering drops a list whose records all fail the predicate.
proof fn lemma_filter_none_pass(s: Seq<HardwareWalletView>, p: spec_fn(HardwareWalletView) -> bool)
    requires
        forall|i: int| 0 <= i < s.len() ==> !p(#[trigger] s[i]),
    ensures
        s.filter(p) == Seq::<HardwareWalletView>::empty(),
    decreases s.len(),
{
    reveal(Seq::filter);
    if s.len() > 0 {
        lemma_filter_none_pass(s.drop_last(), p);
        assert(s.filter(p) =~= Seq::<HardwareWalletView>::empty());
    }
}

/// Reconciliation is idempotent: running the same still-connected list and
/// the same newly scanned records through the registry twice, with no unlock
/// completion in between, yields the registry the first run yields — provided
/// no newly scanned record reuses a still-connected session id (scanners
/// report a reappearing id on the still-connected list, never as a new
/// record).
pub proof fn lemma_reconcile_idempotent(
    list: Seq<HardwareWalletView>,
    still: Seq<Seq<char>>,
    new: Seq<HardwareWalletView>,
    aliases: Map<Fingerprint, Seq<char>>,
    wallet_keys: Option<Seq<Fingerprint>>,
)
    requires
        forall|i: int| 0 <= i < new.len() ==> !still.contains((#[trigger] new[i]).id()),
    ensures
        reconcile_spec(
            reconcile_spec(list, still, new, aliases, wallet_keys),
            still,
            new,
            aliases,
            wallet_keys,
        ) == reconcile_spec(list, still, new, aliases, wallet_keys),
{
    let f = refresh_pred(aliases, wallet_keys);
    let sp = still_pred(still);
    let kept = list.filter(sp);
    let r1 = reconcile_spec(list, still, new, aliases, wallet_keys);
    lemma_refresh_keeps_id(aliases, wallet_keys);
    lemma_refresh_idempotent(aliases, wallet_keys);
    assert forall|r: HardwareWalletView| sp(#[trigger] f(r)) == sp(r) by {
        assert(f(r) == refresh_record(r, aliases, wallet_keys));
    }
    // what survives the second removal step: exactly the refreshed kept part
    lemma_filter_map_commute(kept + new, f, sp);
    Seq::filter_distributes_over_add(kept, new, sp);
    assert forall|i: int| 0 <= i < kept.len() implies sp(#[trigger] kept[i]) by {
        Seq::lemma_filter_pred(list, sp, i);
    }
    lemma_filter_all_pass(kept, sp);
    assert forall|i: int| 0 <= i < new.len() implies !sp(#[trigger] new[i]) by {}
    lemma_filter_none_pass(new, sp);
    assert(kept.filter(sp) + new.filter(sp) =~= kept);
    assert(r1.filter(sp) == kept.map_values(f));
    // the second full pass reduces to the first, record by record
    let r2 = reconcile_spec(r1, still, new, aliases, wallet_keys);
    assert(r2 == (kept.map_values(f) + new).map_values(f));
    assert((kept.map_values(f) + new).map_values(f) =~= (kept + new).map_values(f)) by {
        assert forall|i: int| 0 <= i < kept.len() + new.len() implies ((kept.map_values(f)
            + new).map_values(f))[i] == ((kept + new).map_values(f))[i] by {
            if i < kept.len() {
                assert((kept.map_values(f) + new)[i] == f(kept[i]));
                assert(f(f(kept[i])) == f(kept[i]));
            } else {
                assert((kept.map_values(f) + new)[i] == new[i - kept.len()]);
            }
        }
    }
    assert(r2 == r1);
}

/// Pairwise distinct session ids in a record list.
pub open spec fn distinct_ids(l: Seq<HardwareWalletView>) -> bool {
    forall|i: int, j: int| 0 <= i < j < l.len() ==> (#[trigger] l[i]).id() != (#[trigger] l[j]).id()
}

/// Filtering a record list keeps its session ids pairwise distinct.
proof fn lemma_filter_distinct_ids(
    s: Seq<HardwareWalletView>,
    pred: spec_fn(HardwareWalletView) -> bool,
)
    requires
        distinct_ids(s),
    ensures
        distinct_ids(s.filter(pred)),
    decreases s.len(),
{
    reveal(Seq::filter);
    if s.len() > 0 {
        let rest = s.drop_last();
        assert(distinct_ids(rest));
        lemma_filter_distinct_ids(rest, pred);
        let sub = rest.filter(pred);
        if pred(s.last()) {
            assert forall|i: int, j: int|
                0 <= i < j < sub.push(s.last()).len() implies (#[trigger] sub.push(
                s.last(),
            )[i]).id() != (#[trigger] sub.push(s.last())[j]).id() by {
                if j < sub.len() {
                    assert(sub[i].id() != sub[j].id());
                } else {
                    Seq::lemma_filter_contains_rev(rest, pred, sub[i]);
                    let j0 = choose|j0: int| 0 <= j0 < rest.len() && rest[j0] == sub[i];
                    assert(s[j0] == sub[i]);
                    assert(s[j0].id() != s[s.len() - 1].id());
                }
            }
        }
    }
}

/// A session id that reappears in two consecutive cycles denotes the same
/// physical session and is never duplicated: when the tracked list and the
/// newly scanned records each carry distinct ids, and no new record reuses a
/// still-connected id, the reconciled list's ids are pairwise distinct.
pub proof fn lemma_reconcile_distinct_ids(
    list: Seq<HardwareWalletView>,
    still: Seq<Seq<char>>,
    new: Seq<HardwareWalletView>,
    aliases: Map<Fingerprint, Seq<char>>,
    wallet_keys: Option<Seq<Fingerprint>>,
)
    requires
        distinct_ids(list),
        distinct_ids(new),
        forall|i: int| 0 <= i < new.len() ==> !still.contains((#[trigger] new[i]).id()),
    ensures
        distinct_ids(reconcile_spec(list, still, new, aliases, wallet_keys)),
{
    let sp = still_pred(still);
    let f = refresh_pred(aliases, wallet_keys);
    let kept = list.filter(sp);
    let merged = kept + new;
    let out = reconcile_spec(list, still, new, aliases, wallet_keys);
    lemma_filter_distinct_ids(list, sp);
    lemma_refresh_keeps_id(aliases, wallet_keys);
    assert forall|i: int, j: int|
        0 <= i < j < merged.len() implies (#[trigger] merged[i]).id() != (
    #[trigger] merged[j]).id() by {
        if i < kept.len() && j >= kept.len() {
            // a survivor's id is on the still-connected list, a newcomer's is not
            Seq::lemma_filter_pred(list, sp, i);
            assert(still.contains(kept[i].id()));
            assert(!still.contains(new[j - kept.len()].id()));
        }
    }
    assert forall|i: int, j: int|
        0 <= i < j < out.len() implies (#[trigger] out[i]).id() != (#[trigger] out[j]).id() by {
        assert(out[i] == f(merged[i]));
        assert(out[j] == f(merged[j]));
        assert(f(merged[i]) == refresh_record(merged[i], aliases, wallet_keys));
        assert(f(merged[j]) == refresh_record(merged[j], aliases, wallet_keys));
        assert(merged[i].id() != merged[j].id());
    }
}

/// Resolving an unlock outcome replaces a record in place: the list keeps its
/// length and every position keeps its session id, so a session tracked once
/// is tracked exactly once afterwards.
pub proof fn lemma_resolve_keeps_ids(
    list: Seq<HardwareWalletView>,
    hw: HardwareWalletView,
    aliases: Map<Fingerprint, Seq<char>>,
)
    ensures
        resolve_spec(list, hw, aliases).len() == list.len(),
        forall|i: int|
            0 <= i < list.len() ==> (#[trigger] resolve_spec(list, hw, aliases)[i]).id() == list[i].id(),
    decreases list.len(),
{
    if list.len() > 0 {
        if locked_with_id(list[0], hw.id()) {
            let out = seq![resolved_record(hw, aliases)] + list.drop_first();
            assert(out[0].id() == hw.id());
            assert forall|i: int|
                0 <= i < list.len() implies (#[trigger] out[i]).id() == list[i].id() by {
                if i > 0 {
                    assert(out[i] == list.drop_first()[i - 1]);
                }
            }
        } else {
            lemma_resolve_keeps_ids(list.drop_first(), hw, aliases);
            let out = seq![list[0]] + resolve_spec(list.drop_first(), hw, aliases);
            assert forall|i: int|
                0 <= i < list.len() implies (#[trigger] out[i]).id() == list[i].id() by {
                if i > 0 {
                    assert(out[i] == resolve_spec(list.drop_first(), hw, aliases)[i - 1]);
                    assert(list.drop_first()[i - 1] == list[i]);
                }
            }
        }
    }
}

/// After an alias write that gives `fg` the label, the next reconciliation
/// shows that label on every `Supported` record whose fingerprint is `fg`.
pub proof fn lemma_alias_shown_after_reconcile(
    list: Seq<HardwareWalletView>,
    still: Seq<Seq<char>>,
    new: Seq<HardwareWalletView>,
    aliases: Map<Fingerprint, Seq<char>>,
    wallet_keys: Option<Seq<Fingerprint>>,
    fg: Fingerprint,
    label: Seq<char>,
)
    requires
        aliases.contains_key(fg),
        aliases[fg] == label,
    ensures
        forall|i: int|
            0 <= i < reconcile_spec(list, still, new, aliases, wallet_keys).len() ==> ((
            #[trigger] reconcile_spec(list, still, new, aliases, wallet_keys)[i]) matches
                HardwareWalletView::Supported { fingerprint, alias, .. } ==> (fingerprint == fg
                ==> alias == Some(label))),
{
    let f = refresh_pred(aliases, wallet_keys);
    let merged = merged_spec(list, still, new);
    let out = reconcile_spec(list, still, new, aliases, wallet_keys);
    assert forall|i: int|
        0 <= i < out.len() implies ((#[trigger] out[i]) matches HardwareWalletView::Supported {
        fingerprint,
        alias,
        ..
    } ==> (fingerprint == fg ==> alias == Some(label))) by {
        assert(out[i] == f(merged[i]));
        assert(out[i] == refresh_record(merged[i], aliases, wallet_keys));
    }
}

/// The recursion of `lemma_resolve_none`.
proof fn lemma_resolve_none_rec(
    list: Seq<HardwareWalletView>,
    hw: HardwareWalletView,
    aliases: Map<Fingerprint, Seq<char>>,
)
    requires
        forall|j: int| 0 <= j < list.len() ==> !locked_with_id(#[trigger] list[j], hw.id()),
    ensures
        resolve_spec(list, hw, aliases) == list,
    decreases list.len(),
{
    if list.len() > 0 {
        lemma_resolve_none_rec(list.drop_first(), hw, aliases);
        assert(resolve_spec(list, hw, aliases) =~= seq![list[0]] + list.drop_first());
        assert(seq![list[0]] + list.drop_first() =~= list);
    }
}

} // verus!
