//! Peer identities and descriptors.
//!
//! A peer is known by an opaque fingerprint string and carries the network
//! endpoint it was last seen at together with the device metadata it
//! announced.  The directory and the discovery reconciliation pass work over
//! sequences of [`PeerRecord`]s; the spec functions here say what it means
//! for such a sequence to mention a fingerprint, and to mention each
//! fingerprint at most once.

use vstd::prelude::*;

verus! {

/// A network endpoint a peer can be reached at: textual IP address and port.
#[derive(Debug, Clone, PartialEq)]
pub struct PeerAddress {
    pub ip: String,
    pub port: u16,
}

/// Metadata a peer announces about itself: display name, device kind and
/// transfer capabilities.
#[derive(Debug, Clone, PartialEq)]
pub struct DeviceDescriptor {
    pub alias: String,
    pub version: String,
    pub device_model: Option<String>,
    pub device_type: Option<String>,
    pub port: u16,
    pub protocol: String,
    pub download: bool,
}

/// One entry of the peer directory: a fingerprint with the address and
/// descriptor it was last announced with.
#[derive(Debug, Clone, PartialEq)]
pub struct PeerRecord {
    pub fingerprint: String,
    pub address: PeerAddress,
    pub device: DeviceDescriptor,
}

/// Whether some record in `s` carries the fingerprint `fp`.
pub open spec fn seq_has_fp(s: Seq<PeerRecord>, fp: Seq<char>) -> bool {
    exists|i: int| 0 <= i < s.len() && s[i].fingerprint@ == fp
}

/// Whether the records of `s` carry pairwise distinct fingerprints.
pub open spec fn unique_fps(s: Seq<PeerRecord>) -> bool {
    forall|i: int, j: int|
        0 <= i < j < s.len() ==> s[i].fingerprint@ != s[j].fingerprint@
}

/// An index of `s` whose record carries the fingerprint `fp`; meaningful
/// only when `seq_has_fp(s, fp)`.
pub open spec fn fp_index(s: Seq<PeerRecord>, fp: Seq<char>) -> int {
    choose|i: int| 0 <= i < s.len() && s[i].fingerprint@ == fp
}

/// The record of `s` carrying the fingerprint `fp`; meaningful only when
/// `seq_has_fp(s, fp)`.
pub open spec fn record_for(s: Seq<PeerRecord>, fp: Seq<char>) -> PeerRecord {
    s[fp_index(s, fp)]
}

/// Under `unique_fps`, any index whose record carries `fp` is the one
/// `record_for` picks.
pub proof fn lemma_record_for_is_unique(s: Seq<PeerRecord>, fp: Seq<char>, i: int)
    requires
        unique_fps(s),
        0 <= i < s.len(),
        s[i].fingerprint@ == fp,
    ensures
        fp_index(s, fp) == i,
        record_for(s, fp) == s[i],
{
    assert(seq_has_fp(s, fp));
    let j = fp_index(s, fp);
    assert(0 <= j < s.len() && s[j].fingerprint@ == fp);
    if i < j {
        assert(s[i].fingerprint@ != s[j].fingerprint@);
    } else if j < i {
        assert(s[j].fingerprint@ != s[i].fingerprint@);
    }
}

/// A copy of an optional string, equal as a value to the original.
pub fn clone_opt_string(o: &Option<String>) -> (r: Option<String>)
    ensures
        r == *o,
{
    match o {
        Option::None => Option::None,
        Option::Some(s) => Option::Some(s.clone()),
    }
}

impl PeerAddress {
    /// A copy of this address, equal as a value to the original.
    pub fn clone_value(&self) -> (r: PeerAddress)
        ensures
            r == *self,
    {
        let r = PeerAddress { ip: self.ip.clone(), port: self.port };
        assert(r == *self);
        r
    }
}

impl DeviceDescriptor {
    /// A copy of this descriptor, equal as a value to the original.
    pub fn clone_value(&self) -> (r: DeviceDescriptor)
        ensures
            r == *self,
    {
        let r = DeviceDescriptor {
            alias: self.alias.clone(),
            version: self.version.clone(),
            device_model: clone_opt_string(&self.device_model),
            device_type: clone_opt_string(&self.device_type),
            port: self.port,
            protocol: self.protocol.clone(),
            download: self.download,
        };
        assert(r == *self);
        r
    }
}

impl PeerRecord {
    /// A copy of this record, equal as a value to the original.
    pub fn clone_value(&self) -> (r: PeerRecord)
        ensures
            r == *self,
    {
        let r = PeerRecord {
            fingerprint: self.fingerprint.clone(),
            address: self.address.clone_value(),
            device: self.device.clone_value(),
        };
        assert(r == *self);
        r
    }
}

} // verus!
