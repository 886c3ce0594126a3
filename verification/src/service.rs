//! Reconciliation of a detected address against the provider's records:
//! pick the record currently published for the target name and decide the
//! one provider call (create, update, or none) that a run may make.

use vstd::prelude::*;
use vstd::pervasive::unreached;
use crate::addr::{IpAddress, Ipv4Address, Ipv6Address};
use crate::config::ServiceCloudflareConfig;

verus! {

/// What a provider record holds: an IPv4 address, an IPv6 address, or
/// content of some other record type that reconciliation ignores.
#[derive(Clone, Copy, Debug, PartialEq, Eq, Structural)]
pub enum RecordContent {
    A(Ipv4Address),
    Aaaa(Ipv6Address),
    Other,
}

/// A record read back from the provider.
#[derive(Debug)]
pub struct RemoteRecord {
    pub id: String,
    pub content: RecordContent,
    pub proxied: bool,
    pub ttl: u32,
}

/// The record content a detected address publishes.
pub open spec fn content_of(ip: IpAddress) -> RecordContent {
    match ip {
        IpAddress::V4(a) => RecordContent::A(a),
        IpAddress::V6(a) => RecordContent::Aaaa(a),
    }
}

/// Whether a record carries an address (an A or AAAA record).
pub open spec fn is_address_record(r: RemoteRecord) -> bool {
    r.content is A || r.content is Aaaa
}

/// Index of the first address record at or after `i`, if any.
pub open spec fn first_address_index(rs: Seq<RemoteRecord>, i: int) -> Option<int>
    decreases rs.len() - i,
{
    if i < 0 || i >= rs.len() {
        None
    } else if is_address_record(rs[i]) {
        Some(i)
    } else {
        first_address_index(rs, i + 1)
    }
}

/// The record reconciliation regards as current: the first listed record
/// that carries an address, other record types sharing the name ignored.
pub open spec fn first_address_record(rs: Seq<RemoteRecord>) -> Option<RemoteRecord> {
    match first_address_index(rs, 0) {
        None => None,
        Some(i) => Some(rs[i]),
    }
}

/// A found index lies within the searched range and is an address record.
proof fn lemma_first_address_index_bounds(rs: Seq<RemoteRecord>, i: int)
    requires
        0 <= i <= rs.len(),
        first_address_index(rs, i) is Some,
    ensures
        i <= first_address_index(rs, i)->Some_0 < rs.len(),
        is_address_record(rs[first_address_index(rs, i)->Some_0]),
    decreases rs.len() - i,
{
    if i < rs.len() && !is_address_record(rs[i]) {
        lemma_first_address_index_bounds(rs, i + 1);
    }
}

/// Executable form of the record content a detected address publishes.
pub fn detected_content(ip: IpAddress) -> (r: RecordContent)
    ensures
        r == content_of(ip),
{
    match ip {
        IpAddress::V4(a) => RecordContent::A(a),
        IpAddress::V6(a) => RecordContent::Aaaa(a),
    }
}

/// Retrieves the current DNS record among the listed ones: the first that
/// carries an address.
pub fn cf_current_dns_record(records: Vec<RemoteRecord>) -> (r: Option<RemoteRecord>)
    ensures
        r == first_address_record(records@),
{
    let ghost rs = records@;
    let mut remaining = records;
    let mut i: usize = 0;
    let mut idx: Option<usize> = None;
    while i < remaining.len()
        invariant
            remaining@ == rs,
            i <= rs.len(),
            match idx {
                None => first_address_index(rs, 0) == first_address_index(rs, i as int),
                Some(k) => first_address_index(rs, 0) == Some(k as int) && (k as int) < rs.len(),
            },
        decreases rs.len() - i,
    {
        if idx.is_none() {
            let addressish = match remaining[i].content {
                RecordContent::A(_) => true,
                RecordContent::Aaaa(_) => true,
                RecordContent::Other => false,
            };
            if addressish {
                idx = Some(i);
            }
        }
        i = i + 1;
    }
    match idx {
        Some(k) => Some(remaining.remove(k)),
        None => None,
    }
}

/// Extracts the address a record publishes.
pub fn cf_ip_from_record(record: &RemoteRecord) -> (r: IpAddress)
    requires
        is_address_record(*record),
    ensures
        content_of(r) == record.content,
{
    match record.content {
        RecordContent::A(a) => IpAddress::V4(a),
        RecordContent::Aaaa(a) => IpAddress::V6(a),
        RecordContent::Other => unreached(),
    }
}

/// The one provider mutation a run may make.
#[derive(Debug)]
pub enum RecordAction {
    /// The published address already equals the detected one: no call.
    NoOp,
    /// No record is published for the name: create one.
    Create { name: String, content: RecordContent, proxied: bool, ttl: Option<u32> },
    /// The published address differs: replace it, keeping the record's
    /// proxy flag and time-to-live.
    Update { id: String, name: String, content: RecordContent, proxied: bool, ttl: Option<u32> },
}

/// Decide the provider call for one run. When no listed record carries an
/// address, the decision is always a create with the configured name, the
/// detected content, the proxy flag off and no explicit time-to-live. When
/// one does and it already publishes the detected address, nothing mutates.
/// When one does and its content differs, the decision is exactly one update
/// of that record, preserving its proxy flag and time-to-live.
pub fn cloudflare_plan(
    config: &ServiceCloudflareConfig,
    detected_ip_addr: IpAddress,
    records: Vec<RemoteRecord>,
) -> (a: RecordAction)
    ensures
        match first_address_record(records@) {
            None => a matches RecordAction::Create { name, content, proxied, ttl } && name
                == config.name && content == content_of(detected_ip_addr) && proxied == false
                && ttl is None,
            Some(cur) => if cur.content == content_of(detected_ip_addr) {
                a is NoOp
            } else {
                a matches RecordAction::Update { id, name, content, proxied, ttl } && id == cur.id
                    && name == config.name && content == content_of(detected_ip_addr) && proxied
                    == cur.proxied && ttl == Some(cur.ttl)
            },
        },
{
    let detected_dns_content = detected_content(detected_ip_addr);
    let ghost rs = records@;
    match cf_current_dns_record(records) {
        Some(current) => {
            proof {
                if first_address_index(rs, 0) is Some {
                    lemma_first_address_index_bounds(rs, 0);
                }
            }
            let current_ip_addr = cf_ip_from_record(&current);
            if detected_ip_addr == current_ip_addr {
                RecordAction::NoOp
            } else {
                RecordAction::Update {
                    id: current.id,
                    name: config.name.clone(),
                    content: detected_dns_content,
                    proxied: current.proxied,
                    ttl: Some(current.ttl),
                }
            }
        },
        None => RecordAction::Create {
            name: config.name.clone(),
            content: detected_dns_content,
            proxied: false,
            ttl: None,
        },
    }
}

} // verus!
