//! The alias table: one process-wide mapping from master-key fingerprints to
//! user-chosen display labels.
//!
//! The table is owned by the session registry and viewed as a
//! `Map<Fingerprint, Seq<char>>`. Writing an alias removes that label from
//! every other fingerprint, so at most one fingerprint carries a given label
//! after a write.

use vstd::prelude::*;
use vstd::seq_lib::*;

use crate::chain::Fingerprint;

verus! {

/// First-match lookup: whether the association list `s` holds key `k`.
pub open spec fn assoc_has(s: Seq<(Fingerprint, String)>, k: Fingerprint) -> bool
    decreases s.len(),
{
    if s.len() == 0 {
        false
    } else if s[0].0 == k {
        true
    } else {
        assoc_has(s.drop_first(), k)
    }
}

/// First-match lookup: the label that the association list `s` holds for key
/// `k` (meaningful only when `assoc_has(s, k)`).
pub open spec fn assoc_val(s: Seq<(Fingerprint, String)>, k: Fingerprint) -> Seq<char>
    decreases s.len(),
{
    if s.len() == 0 {
        Seq::empty()
    } else if s[0].0 == k {
        s[0].1@
    } else {
        assoc_val(s.drop_first(), k)
    }
}

/// The keys of `s` are pairwise distinct.
pub open spec fn distinct_keys(s: Seq<(Fingerprint, String)>) -> bool {
    forall|i: int, j: int| 0 <= i < j < s.len() ==> (#[trigger] s[i]).0 != (#[trigger] s[j]).0
}

/// Whether an entry survives `set(fp, alias)`: it neither carries the label
/// being written nor belongs to the fingerprint being written.
pub open spec fn keeps_entry(p: (Fingerprint, String), fp: Fingerprint, alias: Seq<char>) -> bool {
    p.1@ != alias && p.0 != fp
}

/// The survival test of `set(fp, alias)` as a predicate over entries.
pub open spec fn keep_pred(fp: Fingerprint, alias: Seq<char>) -> spec_fn((Fingerprint, String)) -> bool {
    |p: (Fingerprint, String)| keeps_entry(p, fp, alias)
}

/// The view of an optional owned label.
pub open spec fn str_opt_view(o: Option<String>) -> Option<Seq<char>> {
    match o {
        Some(s) => Some(s@),
        None => None,
    }
}

/// Lookup in the table's view: the label of `fp`, if the table holds one.
pub open spec fn lookup(m: Map<Fingerprint, Seq<char>>, fp: Fingerprint) -> Option<Seq<char>> {
    if m.contains_key(fp) {
        Some(m[fp])
    } else {
        None
    }
}

/// The fingerprint-to-label table.
#[derive(Debug)]
pub struct AliasMap {
    entries: Vec<(Fingerprint, String)>,
}

impl View for AliasMap {
    type V = Map<Fingerprint, Seq<char>>;

    closed spec fn view(&self) -> Map<Fingerprint, Seq<char>> {
        Map::new(
            |k: Fingerprint| assoc_has(self.entries@, k),
            |k: Fingerprint| assoc_val(self.entries@, k),
        )
    }
}

/// Skipping a prefix free of `k` does not change the lookup of `k`.
proof fn lemma_assoc_skip(s: Seq<(Fingerprint, String)>, k: Fingerprint, i: int)
    requires
        0 <= i <= s.len(),
        forall|j: int| 0 <= j < i ==> (#[trigger] s[j]).0 != k,
    ensures
        assoc_has(s, k) == assoc_has(s.skip(i), k),
        assoc_has(s, k) ==> assoc_val(s, k) == assoc_val(s.skip(i), k),
    decreases i,
{
    if i == 0 {
        assert(s.skip(0) =~= s);
    } else {
        lemma_assoc_skip(s.drop_first(), k, i - 1);
        assert(s.drop_first().skip(i - 1) =~= s.skip(i));
    }
}

/// A key is found exactly when some entry carries it.
proof fn lemma_assoc_has_index(s: Seq<(Fingerprint, String)>, k: Fingerprint)
    ensures
        assoc_has(s, k) <==> exists|j: int| 0 <= j < s.len() && (#[trigger] s[j]).0 == k,
    decreases s.len(),
{
    if s.len() > 0 {
        lemma_assoc_has_index(s.drop_first(), k);
        if exists|j: int| 0 <= j < s.drop_first().len() && (#[trigger] s.drop_first()[j]).0 == k {
            let j = choose|j: int|
                0 <= j < s.drop_first().len() && (#[trigger] s.drop_first()[j]).0 == k;
            assert(s[j + 1].0 == k);
        }
        if s[0].0 != k && exists|j: int| 0 <= j < s.len() && (#[trigger] s[j]).0 == k {
            let j = choose|j: int| 0 <= j < s.len() && (#[trigger] s[j]).0 == k;
            assert(s.drop_first()[j - 1].0 == k);
        }
    }
}

/// On a list with distinct keys, the entry at any position gives the lookup.
proof fn lemma_assoc_unique_at(s: Seq<(Fingerprint, String)>, k: Fingerprint, i: int)
    requires
        distinct_keys(s),
        0 <= i < s.len(),
        s[i].0 == k,
    ensures
        assoc_has(s, k),
        assoc_val(s, k) == s[i].1@,
{
    assert forall|j: int| 0 <= j < i implies (#[trigger] s[j]).0 != k by {
        assert(s[j].0 != s[i].0);
    }
    lemma_assoc_skip(s, k, i);
    assert(s.skip(i)[0] == s[i]);
}

/// Appending an entry for another key does not change a lookup.
proof fn lemma_assoc_push_other(s: Seq<(Fingerprint, String)>, e: (Fingerprint, String), k: Fingerprint)
    requires
        e.0 != k,
    ensures
        assoc_has(s.push(e), k) == assoc_has(s, k),
        assoc_has(s, k) ==> assoc_val(s.push(e), k) == assoc_val(s, k),
    decreases s.len(),
{
    if s.len() == 0 {
        assert(s.push(e).len() == 1);
        assert(s.push(e)[0] == e);
        assert(s.push(e).drop_first() =~= Seq::<(Fingerprint, String)>::empty());
        assert(!assoc_has(Seq::<(Fingerprint, String)>::empty(), k));
        assert(!assoc_has(s.push(e), k));
    } else {
        lemma_assoc_push_other(s.drop_first(), e, k);
        assert(s.push(e).drop_first() =~= s.drop_first().push(e));
        assert(s.push(e)[0] == s[0]);
    }
}

/// Filtering keeps the keys pairwise distinct.
proof fn lemma_filter_distinct(s: Seq<(Fingerprint, String)>, pred: spec_fn((Fingerprint, String)) -> bool)
    requires
        distinct_keys(s),
    ensures
        distinct_keys(s.filter(pred)),
    decreases s.len(),
{
    reveal(Seq::filter);
    if s.len() > 0 {
        let rest = s.drop_last();
        assert(distinct_keys(rest));
        lemma_filter_distinct(rest, pred);
        let sub = rest.filter(pred);
        if pred(s.last()) {
            assert forall|i: int, j: int|
                0 <= i < j < sub.push(s.last()).len() implies (#[trigger] sub.push(s.last())[i]).0
                != (#[trigger] sub.push(s.last())[j]).0 by {
                if j < sub.len() {
                    assert(sub[i].0 != sub[j].0);
                } else {
                    // the pushed entry is s.last(); sub[i] stems from rest
                    Seq::lemma_filter_contains_rev(rest, pred, sub[i]);
                    let j0 = choose|j0: int| 0 <= j0 < rest.len() && rest[j0] == sub[i];
                    assert(s[j0] == sub[i]);
                    assert(s[j0].0 != s[s.len() - 1].0);
                }
            }
        }
    }
}

impl AliasMap {
    #[verifier::type_invariant]
    spec fn wf(&self) -> bool {
        distinct_keys(self.entries@)
    }

    /// The empty table.
    pub fn new() -> (r: AliasMap)
        ensures
            r@ == Map::<Fingerprint, Seq<char>>::empty(),
    {
        let r = AliasMap { entries: Vec::new() };
        proof {
            assert(r@ =~= Map::<Fingerprint, Seq<char>>::empty());
        }
        r
    }

    /// The label stored for `fp`, if any.
    pub fn get(&self, fp: Fingerprint) -> (r: Option<&String>)
        ensures
            r is Some <==> self@.contains_key(fp),
            r matches Some(a) ==> self@[fp] == a@,
    {
        let mut i: usize = 0;
        while i < self.entries.len()
            invariant
                i <= self.entries.len(),
                forall|j: int| 0 <= j < i ==> (#[trigger] self.entries@[j]).0 != fp,
            decreases self.entries.len() - i,
        {
            if self.entries[i].0 == fp {
                proof {
                    lemma_assoc_skip(self.entries@, fp, i as int);
                    assert(self.entries@.skip(i as int)[0] == self.entries@[i as int]);
                }
                return Some(&self.entries[i].1);
            }
            i += 1;
        }
        proof {
            lemma_assoc_skip(self.entries@, fp, i as int);
            assert(self.entries@.skip(i as int) =~= Seq::empty());
        }
        None
    }

    /// Gives `fp` the label `alias`, and takes that label away from every
    /// other fingerprint: after the call no other key maps to `alias`.
    pub fn set(&mut self, fp: Fingerprint, alias: String)
        ensures
            final(self)@.contains_key(fp),
            final(self)@[fp] == alias@,
            forall|k: Fingerprint|
                k != fp ==> (#[trigger] final(self)@.contains_key(k) <==> (old(self)@.contains_key(
                    k,
                ) && old(self)@[k] != alias@)),
            forall|k: Fingerprint|
                k != fp && final(self)@.contains_key(k) ==> #[trigger] final(self)@[k] == old(
                    self,
                )@[k],
    {
        proof {
            use_type_invariant(&*self);
        }
        let ghost olds = self.entries@;
        let ghost pred = keep_pred(fp, alias@);
        let mut out: Vec<(Fingerprint, String)> = Vec::new();
        let mut i: usize = 0;
        proof {
            assert(olds.take(0).filter(pred) =~= Seq::empty());
        }
        while i < self.entries.len()
            invariant
                i <= self.entries.len(),
                self.entries@ == olds,
                pred == keep_pred(fp, alias@),
                out@ == olds.take(i as int).filter(pred),
            decreases self.entries.len() - i,
        {
            let same_label = self.entries[i].1 == alias;
            let same_key = self.entries[i].0 == fp;
            let keep = !same_label && !same_key;
            proof {
                reveal(Seq::filter);
                assert(olds.take(i + 1).drop_last() =~= olds.take(i as int));
                assert(olds.take(i + 1).last() == olds[i as int]);
                assert(same_label == (olds[i as int].1@ == alias@));
                assert(same_key == (olds[i as int].0 == fp));
                assert(keep == keeps_entry(olds[i as int], fp, alias@));
                assert(keep == pred(olds[i as int]));
            }
            if keep {
                let label = self.entries[i].1.clone();
                let entry = (self.entries[i].0, label);
                proof {
                    assert(entry.0 == olds[i as int].0 && entry.1 == olds[i as int].1);
                    assert(entry == olds[i as int]);
                }
                out.push(entry);
            }
            proof {
                reveal(Seq::filter);
                assert(out@ =~= olds.take(i + 1).filter(pred));
            }
            i += 1;
        }
        proof {
            assert(olds.take(i as int) =~= olds);
        }
        out.push((fp, alias));
        proof {
            Self::lemma_set_entries(olds, pred, fp, out@[out@.len() - 1].1);
            assert(out@[out@.len() - 1] == (fp, out@[out@.len() - 1].1));
            assert(out@ =~= olds.filter(pred).push(out@[out@.len() - 1]));
        }
        self.entries = out;
    }

    /// What `set` leaves in the entry list: the surviving entries followed by
    /// the new pair, with distinct keys and the stated lookups.
    proof fn lemma_set_entries(
        olds: Seq<(Fingerprint, String)>,
        pred: spec_fn((Fingerprint, String)) -> bool,
        fp: Fingerprint,
        label: String,
    )
        requires
            distinct_keys(olds),
            forall|p: (Fingerprint, String)| #[trigger] pred(p) <==> keeps_entry(p, fp, label@),
        ensures
            ({
                let news = olds.filter(pred).push((fp, label));
                &&& distinct_keys(news)
                &&& assoc_has(news, fp)
                &&& assoc_val(news, fp) == label@
                &&& forall|k: Fingerprint|
                    k != fp ==> (#[trigger] assoc_has(news, k) <==> (assoc_has(olds, k)
                        && assoc_val(olds, k) != label@))
                &&& forall|k: Fingerprint|
                    k != fp && #[trigger] assoc_has(news, k) ==> assoc_val(news, k) == assoc_val(
                        olds,
                        k,
                    )
            }),
    {
        let filtered = olds.filter(pred);
        let e = (fp, label);
        let news = filtered.push(e);
        lemma_filter_distinct(olds, pred);
        // no surviving entry carries fp, so the pushed pair keeps keys distinct
        // and is the one the lookup of fp finds
        assert forall|j: int| 0 <= j < filtered.len() implies (#[trigger] filtered[j]).0 != fp by {
            Seq::lemma_filter_pred(olds, pred, j);
        }
        assert(distinct_keys(news)) by {
            assert forall|i: int, j: int|
                0 <= i < j < news.len() implies (#[trigger] news[i]).0 != (#[trigger] news[j]).0 by {
                if j < filtered.len() {
                    assert(filtered[i].0 != filtered[j].0);
                } else {
                    assert(news[j] == e);
                    assert(news[i] == filtered[i]);
                }
            }
        }
        lemma_assoc_skip(news, fp, filtered.len() as int);
        assert(news.skip(filtered.len() as int)[0] == e);
        // lookups of other keys go through the filtered prefix
        assert forall|k: Fingerprint| k != fp implies (#[trigger] assoc_has(news, k) <==> (
        assoc_has(olds, k) && assoc_val(olds, k) != label@)) by {
            Self::lemma_filtered_lookup(olds, pred, fp, label, k);
            lemma_assoc_push_other(filtered, e, k);
        }
        assert forall|k: Fingerprint| k != fp && #[trigger] assoc_has(news, k) implies assoc_val(
            news,
            k,
        ) == assoc_val(olds, k) by {
            Self::lemma_filtered_lookup(olds, pred, fp, label, k);
            lemma_assoc_push_other(filtered, e, k);
        }
    }

    /// How a lookup of a key other than `fp` relates before and after the
    /// filtering step of `set`.
    proof fn lemma_filtered_lookup(
        olds: Seq<(Fingerprint, String)>,
        pred: spec_fn((Fingerprint, String)) -> bool,
        fp: Fingerprint,
        label: String,
        k: Fingerprint,
    )
        requires
            distinct_keys(olds),
            forall|p: (Fingerprint, String)| #[trigger] pred(p) <==> keeps_entry(p, fp, label@),
            k != fp,
        ensures
            assoc_has(olds.filter(pred), k) <==> (assoc_has(olds, k) && assoc_val(olds, k)
                != label@),
            assoc_has(olds.filter(pred), k) ==> assoc_val(olds.filter(pred), k) == assoc_val(
                olds,
                k,
            ),
    {
        let filtered = olds.filter(pred);
        lemma_filter_distinct(olds, pred);
        lemma_assoc_has_index(olds, k);
        lemma_assoc_has_index(filtered, k);
        if assoc_has(olds, k) {
            let i = choose|i: int| 0 <= i < olds.len() && (#[trigger] olds[i]).0 == k;
            lemma_assoc_unique_at(olds, k, i);
            if olds[i].1@ != label@ {
                // the entry survives and is the one found afterwards
                Seq::lemma_filter_contains(olds, pred, i);
                let j = choose|j: int| 0 <= j < filtered.len() && filtered[j] == olds[i];
                lemma_assoc_unique_at(filtered, k, j);
            } else {
                // the entry is removed, and no other entry carries k
                if assoc_has(filtered, k) {
                    let j = choose|j: int|
                        0 <= j < filtered.len() && (#[trigger] filtered[j]).0 == k;
                    Seq::lemma_filter_pred(olds, pred, j);
                    Seq::lemma_filter_contains_rev(olds, pred, filtered[j]);
                    let i2 = choose|i2: int| 0 <= i2 < olds.len() && olds[i2] == filtered[j];
                    assert(i2 == i || olds[i2].0 != olds[i].0);
                }
            }
        } else {
            if assoc_has(filtered, k) {
                let j = choose|j: int| 0 <= j < filtered.len() && (#[trigger] filtered[j]).0 == k;
                Seq::lemma_filter_contains_rev(olds, pred, filtered[j]);
                let i2 = choose|i2: int| 0 <= i2 < olds.len() && olds[i2] == filtered[j];
            }
        }
    }

    /// The label stored for `fp`, if any, as an owned string.
    pub fn get_owned(&self, fp: Fingerprint) -> (r: Option<String>)
        ensures
            str_opt_view(r) == lookup(self@, fp),
    {
        match self.get(fp) {
            Some(a) => Some(a.clone()),
            None => None,
        }
    }

    /// A copy of the table with the same contents.
    pub fn duplicate(&self) -> (r: AliasMap)
        ensures
            r@ == self@,
    {
        proof {
            use_type_invariant(&*self);
        }
        let mut out: Vec<(Fingerprint, String)> = Vec::new();
        let mut i: usize = 0;
        while i < self.entries.len()
            invariant
                i <= self.entries.len(),
                out@ =~= self.entries@.take(i as int),
            decreases self.entries.len() - i,
        {
            let label = self.entries[i].1.clone();
            out.push((self.entries[i].0, label));
            i += 1;
        }
        proof {
            assert(self.entries@.take(i as int) =~= self.entries@);
        }
        let r = AliasMap { entries: out };
        proof {
            assert(r@ =~= self@);
        }
        r
    }
}

} // verus!
