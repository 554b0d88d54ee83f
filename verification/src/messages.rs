//! Commands and events carried between the caller and the worker.
//!
//! Commands travel from the foreground caller to the background worker and
//! are consumed exactly once, in submission order.  Events travel the other
//! way and are drained by the caller without blocking, in the order the
//! worker produced them.

use vstd::prelude::*;
use crate::peer::DeviceDescriptor;
use crate::peer::PeerAddress;

verus! {

/// An operator intent, queued for the background worker.
#[derive(Debug, Clone, PartialEq)]
pub enum ShareCommand {
    /// Request to send one file to one peer.
    SendFile { peer_fingerprint: String, file_path: String },
    /// Stop the share manager.
    Shutdown,
}

/// A state notification, queued for the foreground caller.
#[derive(Debug, Clone, PartialEq)]
pub enum ShareEvent {
    /// A new peer device was discovered.
    PeerDiscovered { fingerprint: String, device: DeviceDescriptor, addr: PeerAddress },
    /// A peer device was removed or became unreachable.
    PeerLost { fingerprint: String },
    /// File transfer started.
    TransferStarted { peer_fingerprint: String, file_path: String },
    /// File transfer completed successfully.
    TransferComplete { peer_fingerprint: String },
    /// File transfer failed.
    TransferFailed { peer_fingerprint: String, error: String },
    /// An error occurred in the background service.
    Error(String),
}

/// Whether `e` announces the discovery of the fingerprint `fp`.
pub open spec fn is_discovered_for(e: ShareEvent, fp: Seq<char>) -> bool {
    e is PeerDiscovered && e->PeerDiscovered_fingerprint@ == fp
}

/// Whether `e` announces the loss of the fingerprint `fp`.
pub open spec fn is_lost_for(e: ShareEvent, fp: Seq<char>) -> bool {
    e is PeerLost && e->PeerLost_fingerprint@ == fp
}

/// How many events of `s` announce the discovery of the fingerprint `fp`.
pub open spec fn count_discovered_for(s: Seq<ShareEvent>, fp: Seq<char>) -> nat
    decreases s.len(),
{
    if s.len() == 0 {
        0
    } else {
        count_discovered_for(s.drop_last(), fp) + (if is_discovered_for(s.last(), fp) {
            1nat
        } else {
            0nat
        })
    }
}

/// How many events of `s` announce the loss of the fingerprint `fp`.
pub open spec fn count_lost_for(s: Seq<ShareEvent>, fp: Seq<char>) -> nat
    decreases s.len(),
{
    if s.len() == 0 {
        0
    } else {
        count_lost_for(s.drop_last(), fp) + (if is_lost_for(s.last(), fp) {
            1nat
        } else {
            0nat
        })
    }
}

/// Discovery counts add up over concatenation.
pub proof fn lemma_count_discovered_add(a: Seq<ShareEvent>, b: Seq<ShareEvent>, fp: Seq<char>)
    ensures
        count_discovered_for(a + b, fp) == count_discovered_for(a, fp) + count_discovered_for(
            b,
            fp,
        ),
    decreases b.len(),
{
    if b.len() == 0 {
        assert(a + b =~= a);
    } else {
        lemma_count_discovered_add(a, b.drop_last(), fp);
        assert((a + b).drop_last() =~= a + b.drop_last());
        assert((a + b).last() == b.last());
    }
}

/// Loss counts add up over concatenation.
pub proof fn lemma_count_lost_add(a: Seq<ShareEvent>, b: Seq<ShareEvent>, fp: Seq<char>)
    ensures
        count_lost_for(a + b, fp) == count_lost_for(a, fp) + count_lost_for(b, fp),
    decreases b.len(),
{
    if b.len() == 0 {
        assert(a + b =~= a);
    } else {
        lemma_count_lost_add(a, b.drop_last(), fp);
        assert((a + b).drop_last() =~= a + b.drop_last());
        assert((a + b).last() == b.last());
    }
}

} // verus!
