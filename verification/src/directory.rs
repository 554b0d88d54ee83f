//! The peer directory and its reconciliation against the live peer set.
//!
//! The directory maps fingerprints to the address and descriptor each peer
//! last announced.  One reconciliation cycle replaces its contents with the
//! live snapshot and reports the difference: a discovery event for every
//! fingerprint that is new, then a loss event for every fingerprint that
//! disappeared.  A peer that merely reappears has its record refreshed with
//! no event.

use vstd::prelude::*;
use crate::messages::ShareEvent;
use crate::messages::count_discovered_for;
use crate::messages::count_lost_for;
use crate::messages::is_discovered_for;
use crate::messages::is_lost_for;
use crate::messages::lemma_count_discovered_add;
use crate::messages::lemma_count_lost_add;
use crate::peer::PeerRecord;
use crate::peer::record_for;
use crate::peer::seq_has_fp;
use crate::peer::unique_fps;

verus! {

/// The event announcing that the peer of record `r` was discovered.
pub open spec fn discovered_event(r: PeerRecord) -> ShareEvent {
    ShareEvent::PeerDiscovered { fingerprint: r.fingerprint, device: r.device, addr: r.address }
}

/// The event announcing that the peer of record `r` was lost.
pub open spec fn lost_event(r: PeerRecord) -> ShareEvent {
    ShareEvent::PeerLost { fingerprint: r.fingerprint }
}

/// The discovery events of one cycle, for the first `n` live records: one
/// event per live record whose fingerprint the directory `dir` does not
/// hold, in live-snapshot order.
pub open spec fn discovered_events_upto(
    dir: Seq<PeerRecord>,
    live: Seq<PeerRecord>,
    n: int,
) -> Seq<ShareEvent>
    decreases n,
{
    if n <= 0 {
        Seq::empty()
    } else {
        discovered_events_upto(dir, live, n - 1) + (if !seq_has_fp(
            dir,
            live[n - 1].fingerprint@,
        ) {
            seq![discovered_event(live[n - 1])]
        } else {
            Seq::empty()
        })
    }
}

/// The loss events of one cycle, for the first `n` directory records: one
/// event per directory record whose fingerprint the live snapshot does not
/// hold, in directory order.
pub open spec fn lost_events_upto(
    dir: Seq<PeerRecord>,
    live: Seq<PeerRecord>,
    n: int,
) -> Seq<ShareEvent>
    decreases n,
{
    if n <= 0 {
        Seq::empty()
    } else {
        lost_events_upto(dir, live, n - 1) + (if !seq_has_fp(live, dir[n - 1].fingerprint@) {
            seq![lost_event(dir[n - 1])]
        } else {
            Seq::empty()
        })
    }
}

/// All events of one reconciliation cycle of the directory `dir` against
/// the live snapshot `live`: every discovery, then every loss.
pub open spec fn reconcile_events(dir: Seq<PeerRecord>, live: Seq<PeerRecord>) -> Seq<ShareEvent> {
    discovered_events_upto(dir, live, live.len() as int) + lost_events_upto(
        dir,
        live,
        dir.len() as int,
    )
}

/// The directory contents after one reconciliation cycle: exactly the live
/// snapshot.
pub open spec fn reconciled_directory(
    dir: Seq<PeerRecord>,
    live: Seq<PeerRecord>,
) -> Seq<PeerRecord> {
    live
}

/// The counts of a one-event sequence.
proof fn lemma_count_single(e: ShareEvent, fp: Seq<char>)
    ensures
        count_discovered_for(seq![e], fp) == (if is_discovered_for(e, fp) {
            1nat
        } else {
            0nat
        }),
        count_lost_for(seq![e], fp) == (if is_lost_for(e, fp) {
            1nat
        } else {
            0nat
        }),
{
    assert(seq![e].len() == 1);
    assert(seq![e].drop_last() =~= Seq::<ShareEvent>::empty());
    assert(count_discovered_for(Seq::<ShareEvent>::empty(), fp) == 0);
    assert(count_lost_for(Seq::<ShareEvent>::empty(), fp) == 0);
    assert(seq![e].last() == e);
}

/// Extending a prefix of `s` by one record adds exactly that record's
/// fingerprint to the fingerprints the prefix holds.
proof fn lemma_has_fp_subrange_step(s: Seq<PeerRecord>, n: int, fp: Seq<char>)
    requires
        0 < n <= s.len(),
    ensures
        seq_has_fp(s.subrange(0, n), fp) <==> (seq_has_fp(s.subrange(0, n - 1), fp) || s[n
            - 1].fingerprint@ == fp),
{
    let a = s.subrange(0, n);
    let b = s.subrange(0, n - 1);
    if seq_has_fp(a, fp) {
        let i = choose|i: int| 0 <= i < a.len() && a[i].fingerprint@ == fp;
        if i < n - 1 {
            assert(b[i] == a[i]);
            assert(seq_has_fp(b, fp));
        } else {
            assert(a[n - 1] == s[n - 1]);
        }
    }
    if seq_has_fp(b, fp) {
        let i = choose|i: int| 0 <= i < b.len() && b[i].fingerprint@ == fp;
        assert(a[i] == b[i]);
        assert(seq_has_fp(a, fp));
    }
    if s[n - 1].fingerprint@ == fp {
        assert(a[n - 1] == s[n - 1]);
        assert(seq_has_fp(a, fp));
    }
}

/// The discovery events of a cycle announce no loss.
proof fn lemma_disc_upto_all_disc(dir: Seq<PeerRecord>, live: Seq<PeerRecord>, n: int, fp: Seq<char>)
    ensures
        count_lost_for(discovered_events_upto(dir, live, n), fp) == 0,
    decreases n,
{
    if n <= 0 {
        assert(discovered_events_upto(dir, live, n) =~= Seq::<ShareEvent>::empty());
    } else {
        lemma_disc_upto_all_disc(dir, live, n - 1, fp);
        let prev = discovered_events_upto(dir, live, n - 1);
        if !seq_has_fp(dir, live[n - 1].fingerprint@) {
            let e = discovered_event(live[n - 1]);
            lemma_count_lost_add(prev, seq![e], fp);
            lemma_count_single(e, fp);
        } else {
            assert(discovered_events_upto(dir, live, n) =~= prev);
        }
    }
}

/// The loss events of a cycle announce no discovery, and every one of them
/// is a loss announcement.
proof fn lemma_lost_upto_all_lost(dir: Seq<PeerRecord>, live: Seq<PeerRecord>, n: int, fp: Seq<char>)
    ensures
        count_discovered_for(lost_events_upto(dir, live, n), fp) == 0,
        forall|k: int|
            0 <= k < lost_events_upto(dir, live, n).len() ==> #[trigger] lost_events_upto(
                dir,
                live,
                n,
            )[k] is PeerLost,
    decreases n,
{
    if n <= 0 {
        assert(lost_events_upto(dir, live, n) =~= Seq::<ShareEvent>::empty());
    } else {
        lemma_lost_upto_all_lost(dir, live, n - 1, fp);
        let prev = lost_events_upto(dir, live, n - 1);
        if !seq_has_fp(live, dir[n - 1].fingerprint@) {
            let e = lost_event(dir[n - 1]);
            lemma_count_discovered_add(prev, seq![e], fp);
            lemma_count_single(e, fp);
            assert(forall|k: int|
                0 <= k < (prev + seq![e]).len() ==> #[trigger] (prev + seq![e])[k] is PeerLost);
        } else {
            assert(lost_events_upto(dir, live, n) =~= prev);
        }
    }
}

/// Every discovery event of a cycle is a discovery announcement.
proof fn lemma_disc_upto_only_discoveries(dir: Seq<PeerRecord>, live: Seq<PeerRecord>, n: int)
    ensures
        forall|k: int|
            0 <= k < discovered_events_upto(dir, live, n).len() ==> #[trigger] discovered_events_upto(
                dir,
                live,
                n,
            )[k] is PeerDiscovered,
    decreases n,
{
    if n <= 0 {
        assert(discovered_events_upto(dir, live, n) =~= Seq::<ShareEvent>::empty());
    } else {
        lemma_disc_upto_only_discoveries(dir, live, n - 1);
        let prev = discovered_events_upto(dir, live, n - 1);
        if !seq_has_fp(dir, live[n - 1].fingerprint@) {
            let e = discovered_event(live[n - 1]);
            assert(forall|k: int|
                0 <= k < (prev + seq![e]).len() ==> #[trigger] (prev
                    + seq![e])[k] is PeerDiscovered);
        } else {
            assert(discovered_events_upto(dir, live, n) =~= prev);
        }
    }
}

/// Law: within one reconciliation cycle, every discovery event precedes
/// every loss event; once a loss has been announced, no further discovery
/// follows in that cycle.
pub proof fn lemma_discoveries_precede_losses(dir: Seq<PeerRecord>, live: Seq<PeerRecord>)
    ensures
        forall|a: int, b: int|
            0 <= a <= b < reconcile_events(dir, live).len() && #[trigger] reconcile_events(
                dir,
                live,
            )[a] is PeerLost ==> !(#[trigger] reconcile_events(dir, live)[b] is PeerDiscovered),
{
    let disc = discovered_events_upto(dir, live, live.len() as int);
    let lost = lost_events_upto(dir, live, dir.len() as int);
    let evs = reconcile_events(dir, live);
    lemma_disc_upto_only_discoveries(dir, live, live.len() as int);
    lemma_lost_upto_all_lost(dir, live, dir.len() as int, Seq::empty());
    assert forall|a: int, b: int|
        0 <= a <= b < evs.len() && #[trigger] evs[a] is PeerLost implies !(#[trigger] evs[b] is PeerDiscovered) by {
        assert(evs[a] == if a < disc.len() {
            disc[a]
        } else {
            lost[a - disc.len()]
        });
        assert(evs[b] == if b < disc.len() {
            disc[b]
        } else {
            lost[b - disc.len()]
        });
        assert(a >= disc.len());
    }
}

/// How often the discovery events of a cycle announce `fp`: once if the
/// first `n` live records hold `fp` and the directory does not, else never.
proof fn lemma_disc_upto_counts(dir: Seq<PeerRecord>, live: Seq<PeerRecord>, n: int, fp: Seq<char>)
    requires
        unique_fps(live),
        0 <= n <= live.len(),
    ensures
        count_discovered_for(discovered_events_upto(dir, live, n), fp) == (if !seq_has_fp(dir, fp)
            && seq_has_fp(live.subrange(0, n), fp) {
            1nat
        } else {
            0nat
        }),
    decreases n,
{
    if n <= 0 {
        assert(discovered_events_upto(dir, live, n) =~= Seq::<ShareEvent>::empty());
        assert(live.subrange(0, n) =~= Seq::<PeerRecord>::empty());
    } else {
        lemma_disc_upto_counts(dir, live, n - 1, fp);
        lemma_has_fp_subrange_step(live, n, fp);
        let prev = discovered_events_upto(dir, live, n - 1);
        let rfp = live[n - 1].fingerprint@;
        if rfp == fp {
            assert(!seq_has_fp(live.subrange(0, n - 1), fp)) by {
                if seq_has_fp(live.subrange(0, n - 1), fp) {
                    let b = live.subrange(0, n - 1);
                    let i = choose|i: int| 0 <= i < b.len() && b[i].fingerprint@ == fp;
                    assert(b[i] == live[i]);
                    assert(live[i].fingerprint@ != live[n - 1].fingerprint@);
                }
            };
        }
        if !seq_has_fp(dir, rfp) {
            let e = discovered_event(live[n - 1]);
            lemma_count_discovered_add(prev, seq![e], fp);
            lemma_count_single(e, fp);
        } else {
            assert(discovered_events_upto(dir, live, n) =~= prev);
        }
    }
}

/// How often the loss events of a cycle announce `fp`: once if the first
/// `n` directory records hold `fp` and the live snapshot does not, else
/// never.
proof fn lemma_lost_upto_counts(dir: Seq<PeerRecord>, live: Seq<PeerRecord>, n: int, fp: Seq<char>)
    requires
        unique_fps(dir),
        0 <= n <= dir.len(),
    ensures
        count_lost_for(lost_events_upto(dir, live, n), fp) == (if seq_has_fp(dir.subrange(0, n), fp)
            && !seq_has_fp(live, fp) {
            1nat
        } else {
            0nat
        }),
    decreases n,
{
    if n <= 0 {
        assert(lost_events_upto(dir, live, n) =~= Seq::<ShareEvent>::empty());
        assert(dir.subrange(0, n) =~= Seq::<PeerRecord>::empty());
    } else {
        lemma_lost_upto_counts(dir, live, n - 1, fp);
        lemma_has_fp_subrange_step(dir, n, fp);
        let prev = lost_events_upto(dir, live, n - 1);
        let rfp = dir[n - 1].fingerprint@;
        if rfp == fp {
            assert(!seq_has_fp(dir.subrange(0, n - 1), fp)) by {
                if seq_has_fp(dir.subrange(0, n - 1), fp) {
                    let b = dir.subrange(0, n - 1);
                    let i = choose|i: int| 0 <= i < b.len() && b[i].fingerprint@ == fp;
                    assert(b[i] == dir[i]);
                    assert(dir[i].fingerprint@ != dir[n - 1].fingerprint@);
                }
            };
        }
        if !seq_has_fp(live, rfp) {
            let e = lost_event(dir[n - 1]);
            lemma_count_lost_add(prev, seq![e], fp);
            lemma_count_single(e, fp);
        } else {
            assert(lost_events_upto(dir, live, n) =~= prev);
        }
    }
}

/// Every discovery event of a cycle that announces `fp` carries the live
/// snapshot's record for `fp`.
proof fn lemma_disc_upto_payload(dir: Seq<PeerRecord>, live: Seq<PeerRecord>, n: int, fp: Seq<char>)
    requires
        unique_fps(live),
        0 <= n <= live.len(),
    ensures
        forall|k: int|
            0 <= k < discovered_events_upto(dir, live, n).len() && is_discovered_for(
                #[trigger] discovered_events_upto(dir, live, n)[k],
                fp,
            ) ==> discovered_events_upto(dir, live, n)[k] == discovered_event(record_for(live, fp)),
    decreases n,
{
    if n <= 0 {
    } else {
        lemma_disc_upto_payload(dir, live, n - 1, fp);
        let prev = discovered_events_upto(dir, live, n - 1);
        if !seq_has_fp(dir, live[n - 1].fingerprint@) {
            let e = discovered_event(live[n - 1]);
            let cur = discovered_events_upto(dir, live, n);
            assert(cur == prev + seq![e]);
            assert(forall|k: int| 0 <= k < prev.len() ==> cur[k] == prev[k]);
            assert(cur[prev.len() as int] == e);
            if is_discovered_for(e, fp) {
                crate::peer::lemma_record_for_is_unique(live, fp, n - 1);
            }
        } else {
            assert(discovered_events_upto(dir, live, n) =~= prev);
        }
    }
}

/// Law: in one reconciliation cycle, a fingerprint present in the live
/// snapshot but absent from the directory is announced as discovered
/// exactly once, carrying the live snapshot's address and descriptor; any
/// other fingerprint is never announced as discovered.
pub proof fn lemma_discovery_exactly_once(
    dir: Seq<PeerRecord>,
    live: Seq<PeerRecord>,
    fp: Seq<char>,
)
    requires
        unique_fps(live),
    ensures
        count_discovered_for(reconcile_events(dir, live), fp) == (if seq_has_fp(live, fp)
            && !seq_has_fp(dir, fp) {
            1nat
        } else {
            0nat
        }),
        forall|k: int|
            0 <= k < reconcile_events(dir, live).len() && is_discovered_for(
                #[trigger] reconcile_events(dir, live)[k],
                fp,
            ) ==> reconcile_events(dir, live)[k] == discovered_event(record_for(live, fp)),
{
    let disc = discovered_events_upto(dir, live, live.len() as int);
    let lost = lost_events_upto(dir, live, dir.len() as int);
    lemma_disc_upto_counts(dir, live, live.len() as int, fp);
    lemma_lost_upto_all_lost(dir, live, dir.len() as int, fp);
    lemma_count_discovered_add(disc, lost, fp);
    assert(live.subrange(0, live.len() as int) =~= live);
    lemma_disc_upto_payload(dir, live, live.len() as int, fp);
    assert(forall|k: int| 0 <= k < disc.len() ==> #[trigger] reconcile_events(dir, live)[k] == disc[k]);
    assert(forall|k: int|
        disc.len() <= k < reconcile_events(dir, live).len() ==> #[trigger] reconcile_events(
            dir,
            live,
        )[k] == lost[k - disc.len()]);
}

/// Law: in one reconciliation cycle, a fingerprint present in the
/// directory but absent from the live snapshot is announced as lost exactly
/// once; any other fingerprint is never announced as lost.
pub proof fn lemma_loss_exactly_once(dir: Seq<PeerRecord>, live: Seq<PeerRecord>, fp: Seq<char>)
    requires
        unique_fps(dir),
    ensures
        count_lost_for(reconcile_events(dir, live), fp) == (if seq_has_fp(dir, fp) && !seq_has_fp(
            live,
            fp,
        ) {
            1nat
        } else {
            0nat
        }),
{
    let disc = discovered_events_upto(dir, live, live.len() as int);
    let lost = lost_events_upto(dir, live, dir.len() as int);
    lemma_lost_upto_counts(dir, live, dir.len() as int, fp);
    lemma_disc_upto_all_disc(dir, live, live.len() as int, fp);
    lemma_count_lost_add(disc, lost, fp);
    assert(dir.subrange(0, dir.len() as int) =~= dir);
}

/// The directory contents after a run of reconciliation cycles, one per
/// snapshot of `snaps`, starting from `init`.
pub open spec fn directory_after(
    init: Seq<PeerRecord>,
    snaps: Seq<Seq<PeerRecord>>,
) -> Seq<PeerRecord>
    decreases snaps.len(),
{
    if snaps.len() == 0 {
        init
    } else {
        reconciled_directory(directory_after(init, snaps.drop_last()), snaps.last())
    }
}

/// Law: after any run of reconciliation cycles, the directory holds
/// exactly the records of the most recent snapshot, and no fingerprint
/// twice.
pub proof fn lemma_directory_matches_last_snapshot(
    init: Seq<PeerRecord>,
    snaps: Seq<Seq<PeerRecord>>,
)
    requires
        snaps.len() > 0,
        unique_fps(snaps.last()),
    ensures
        directory_after(init, snaps) == snaps.last(),
        unique_fps(directory_after(init, snaps)),
{
}

/// Whether some record of `v` carries the fingerprint `fp`.
pub fn vec_has_fp(v: &Vec<PeerRecord>, fp: &String) -> (r: bool)
    ensures
        r == seq_has_fp(v@, fp@),
{
    let mut i: usize = 0;
    while i < v.len()
        invariant
            0 <= i <= v@.len(),
            forall|k: int| 0 <= k < i ==> v@[k].fingerprint@ != fp@,
        decreases v@.len() - i,
    {
        if v[i].fingerprint == *fp {
            assert(seq_has_fp(v@, fp@));
            return true;
        }
        i += 1;
    }
    false
}

/// The peer directory: records keyed by fingerprint, no fingerprint twice.
#[derive(Debug)]
pub struct PeerDirectory {
    pub records: Vec<PeerRecord>,
}

impl PeerDirectory {
    /// The directory invariant: no two records share a fingerprint.
    pub open spec fn wf(self) -> bool {
        unique_fps(self.records@)
    }

    /// An empty directory.
    pub fn new() -> (d: PeerDirectory)
        ensures
            d.records@ == Seq::<PeerRecord>::empty(),
            d.wf(),
    {
        PeerDirectory { records: Vec::new() }
    }

    /// Whether the directory holds a record for the fingerprint `fp`.
    pub fn contains_fingerprint(&self, fp: &String) -> (r: bool)
        ensures
            r == seq_has_fp(self.records@, fp@),
    {
        vec_has_fp(&self.records, fp)
    }

    /// A point-in-time copy of the directory contents.
    pub fn snapshot(&self) -> (r: Vec<PeerRecord>)
        ensures
            r@ == self.records@,
    {
        let mut r: Vec<PeerRecord> = Vec::new();
        let mut i: usize = 0;
        while i < self.records.len()
            invariant
                0 <= i <= self.records@.len(),
                r@ == self.records@.subrange(0, i as int),
            decreases self.records@.len() - i,
        {
            r.push(self.records[i].clone_value());
            proof {
                assert(r@ =~= self.records@.subrange(0, i + 1 as int));
            }
            i += 1;
        }
        proof {
            assert(r@ =~= self.records@);
        }
        r
    }

    /// One reconciliation cycle against the live snapshot `live`.
    ///
    /// Afterwards the directory holds exactly the records of `live`; the
    /// returned events announce each new fingerprint once, then each
    /// vanished fingerprint once, and nothing else.
    pub fn reconcile(&mut self, live: &Vec<PeerRecord>) -> (events: Vec<ShareEvent>)
        requires
            old(self).wf(),
            unique_fps(live@),
        ensures
            final(self).records@ == reconciled_directory(old(self).records@, live@),
            final(self).wf(),
            events@ == reconcile_events(old(self).records@, live@),
    {
        let ghost dir = self.records@;
        let mut events: Vec<ShareEvent> = Vec::new();
        let mut fresh: Vec<PeerRecord> = Vec::new();
        let mut i: usize = 0;
        while i < live.len()
            invariant
                0 <= i <= live@.len(),
                self.records@ == dir,
                fresh@ == live@.subrange(0, i as int),
                events@ == discovered_events_upto(dir, live@, i as int),
            decreases live@.len() - i,
        {
            let r = &live[i];
            if !self.contains_fingerprint(&r.fingerprint) {
                events.push(
                    ShareEvent::PeerDiscovered {
                        fingerprint: r.fingerprint.clone(),
                        device: r.device.clone_value(),
                        addr: r.address.clone_value(),
                    },
                );
                proof {
                    assert(events@ =~= discovered_events_upto(dir, live@, i as int) + seq![
                        discovered_event(live@[i as int]),
                    ]);
                }
            } else {
                proof {
                    assert(events@ =~= discovered_events_upto(dir, live@, i as int)
                        + Seq::<ShareEvent>::empty());
                }
            }
            fresh.push(r.clone_value());
            proof {
                assert(fresh@ =~= live@.subrange(0, i + 1 as int));
            }
            i += 1;
        }
        let ghost all_discovered = events@;
        assert(all_discovered == discovered_events_upto(dir, live@, live@.len() as int));
        let mut j: usize = 0;
        while j < self.records.len()
            invariant
                0 <= j <= self.records@.len(),
                self.records@ == dir,
                events@ == all_discovered + lost_events_upto(dir, live@, j as int),
            decreases self.records@.len() - j,
        {
            let r = &self.records[j];
            if !vec_has_fp(live, &r.fingerprint) {
                events.push(ShareEvent::PeerLost { fingerprint: r.fingerprint.clone() });
                proof {
                    assert(events@ =~= all_discovered + (lost_events_upto(dir, live@, j as int)
                        + seq![lost_event(dir[j as int])]));
                }
            } else {
                proof {
                    assert(events@ =~= all_discovered + (lost_events_upto(dir, live@, j as int)
                        + Seq::<ShareEvent>::empty()));
                }
            }
            j += 1;
        }
        proof {
            assert(fresh@ =~= live@);
        }
        self.records = fresh;
        events
    }
}

} // verus!
