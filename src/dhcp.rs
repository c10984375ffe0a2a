//! The minimal DHCP lease server's decisions: which address to offer, when to
//! acknowledge or refuse a request, and how the lease table changes.
//!
//! Addresses are IPv4 addresses as `u32` (most significant byte first),
//! hardware addresses are the six bytes of a MAC address packed into a `u64`,
//! and times are whole seconds on a monotonic clock.
use vstd::prelude::*;

verus! {

/// The server's own address, 192.168.32.100.
pub const SERVER_IP: u32 = 0xC0A8_2064;

/// First address of the pool, 192.168.32.61.
pub const POOL_START: u32 = 0xC0A8_203D;

/// Number of addresses in the pool.
pub const POOL_SIZE: u32 = 1;

/// Subnet mask handed out, 255.255.255.0.
pub const SUBNET_MASK: u32 = 0xFFFF_FF00;

/// Router handed out, 192.168.32.100.
pub const ROUTER_IP: u32 = 0xC0A8_2064;

/// First DNS server handed out, 8.8.8.8.
pub const DNS_PRIMARY: u32 = 0x0808_0808;

/// Second DNS server handed out, 4.4.4.4.
pub const DNS_SECONDARY: u32 = 0x0404_0404;

/// Lease duration in seconds.
pub const LEASE_DURATION_SECS: u32 = 7200;

/// Reason given with a refusal.
pub const NAK_MESSAGE: &'static str = "Requested IP not available";

/// A lease: the client holding an address, and when the binding lapses.
#[derive(Clone, Copy, Debug, PartialEq, Eq, Structural)]
pub struct Lease {
    pub hw: u64,
    pub expires: u64,
}

/// The kinds of inbound message the server answers; others are ignored.
#[derive(Clone, Copy, Debug, PartialEq, Eq, Structural)]
pub enum MessageKind {
    Discover,
    Request,
    Release,
    Decline,
    Other,
}

/// What the server reads of an inbound message.
#[derive(Clone, Copy, Debug, PartialEq, Eq, Structural)]
pub struct DhcpRequest {
    pub kind: MessageKind,
    /// Client hardware address.
    pub chaddr: u64,
    /// The requested-address option, if present.
    pub requested_ip: Option<u32>,
    /// The client's own address field.
    pub ciaddr: u32,
    /// Whether the message's server identifier names this server.
    pub for_this_server: bool,
}

/// The server's answer.
#[derive(Clone, Copy, Debug, PartialEq, Eq, Structural)]
pub enum DhcpReply {
    /// Offer this address, with the lease options.
    Offer(u32),
    /// Acknowledge this address, with the lease options.
    Ack(u32),
    /// Refuse the request, with the reason `NAK_MESSAGE`.
    Nak,
}

pub open spec fn in_pool(ip: u32) -> bool {
    POOL_START <= ip && ip < POOL_START + POOL_SIZE
}

pub open spec fn slot_of(ip: u32) -> int {
    ip - POOL_START
}

pub open spec fn ip_of(slot: int) -> u32 {
    (POOL_START + slot) as u32
}

/// The lease table: one slot per pool address, in address order; and the slot
/// last offered by the round-robin scan.
pub type LeaseModel = (Seq<Option<Lease>>, u32);

pub open spec fn lease_wf(m: LeaseModel) -> bool {
    m.0.len() == POOL_SIZE && m.1 < POOL_SIZE
}

/// An address is available to a client when it lies in the pool and is free,
/// already bound to that client, or bound by a lease that has lapsed.
pub open spec fn available_spec(slots: Seq<Option<Lease>>, hw: u64, ip: u32, now: u64) -> bool {
    in_pool(ip) && match slots[slot_of(ip)] {
        None => true,
        Some(l) => l.hw == hw || now > l.expires,
    }
}

pub open spec fn held_by(slots: Seq<Option<Lease>>, hw: u64, k: int) -> bool {
    0 <= k < slots.len() && slots[k] is Some && slots[k]->0.hw == hw
}

/// The first slot at or after `k` that the client holds.
pub open spec fn first_held_from(slots: Seq<Option<Lease>>, hw: u64, k: int) -> Option<int>
    decreases slots.len() - k,
{
    if k < 0 || k >= slots.len() {
        None
    } else if held_by(slots, hw, k) {
        Some(k)
    } else {
        first_held_from(slots, hw, k + 1)
    }
}

/// The lowest address the client holds a lease on, lapsed or not.
pub open spec fn current_lease_spec(slots: Seq<Option<Lease>>, hw: u64) -> Option<u32> {
    match first_held_from(slots, hw, 0) {
        Some(k) => Some(ip_of(k)),
        None => None,
    }
}

/// The round-robin scan: from just past the slot last offered, the first
/// available slot within `tries` steps; the slot the scan stopped on.
pub open spec fn scan_pool(slots: Seq<Option<Lease>>, hw: u64, now: u64, last: u32, tries: nat) -> (
    u32,
    Option<u32>,
)
    decreases tries,
{
    if tries == 0 {
        (last, None)
    } else {
        let next = ((last + 1) % (POOL_SIZE as int)) as u32;
        if available_spec(slots, hw, ip_of(next as int), now) {
            (next, Some(ip_of(next as int)))
        } else {
            scan_pool(slots, hw, now, next, (tries - 1) as nat)
        }
    }
}

/// When a lease committed at `now` lapses.
pub open spec fn expiry(now: u64) -> u64 {
    if now <= u64::MAX - LEASE_DURATION_SECS {
        (now + LEASE_DURATION_SECS) as u64
    } else {
        u64::MAX
    }
}

/// The address a request asks for: the requested-address option, else the
/// client's own address field.
pub open spec fn requested_address(req: DhcpRequest) -> u32 {
    match req.requested_ip {
        Some(ip) => ip,
        None => req.ciaddr,
    }
}

/// The table with every lease of the client removed.
pub open spec fn release_all(slots: Seq<Option<Lease>>, hw: u64) -> Seq<Option<Lease>> {
    Seq::new(
        slots.len(),
        |k: int|
            if held_by(slots, hw, k) {
                None
            } else {
                slots[k]
            },
    )
}

/// How the server answers one message at time `now`, and its next state.
pub open spec fn handle_spec(m: LeaseModel, req: DhcpRequest, now: u64) -> (LeaseModel, Option<
    DhcpReply,
>) {
    let (slots, last) = m;
    match req.kind {
        MessageKind::Discover => {
            if req.requested_ip is Some && available_spec(
                slots,
                req.chaddr,
                req.requested_ip->0,
                now,
            ) {
                (m, Some(DhcpReply::Offer(req.requested_ip->0)))
            } else if current_lease_spec(slots, req.chaddr) is Some {
                (m, Some(DhcpReply::Offer(current_lease_spec(slots, req.chaddr)->0)))
            } else {
                let (next, found) = scan_pool(slots, req.chaddr, now, last, POOL_SIZE as nat);
                (
                    (slots, next),
                    match found {
                        Some(ip) => Some(DhcpReply::Offer(ip)),
                        None => None,
                    },
                )
            }
        },
        MessageKind::Request => {
            let ip = requested_address(req);
            if !req.for_this_server {
                (m, None)
            } else if !available_spec(slots, req.chaddr, ip, now) {
                (m, Some(DhcpReply::Nak))
            } else {
                (
                    (
                        slots.update(
                            slot_of(ip),
                            Some(Lease { hw: req.chaddr, expires: expiry(now) }),
                        ),
                        last,
                    ),
                    Some(DhcpReply::Ack(ip)),
                )
            }
        },
        MessageKind::Release | MessageKind::Decline => {
            if !req.for_this_server {
                (m, None)
            } else {
                ((release_all(slots, req.chaddr), last), None)
            }
        },
        MessageKind::Other => (m, None),
    }
}

/// The lease table of the DHCP server and its round-robin position. One
/// message is handled at a time, so the table has a single writer.
pub struct LeaseServer {
    leases: Vec<Option<Lease>>,
    last_lease: u32,
}

impl View for LeaseServer {
    type V = LeaseModel;

    closed spec fn view(&self) -> LeaseModel {
        (self.leases@, self.last_lease)
    }
}

impl LeaseServer {
    /// A server with no leases.
    pub fn new() -> (r: LeaseServer)
        ensures
            lease_wf(r@),
            forall|k: int| 0 <= k < POOL_SIZE ==> #[trigger] r@.0[k] is None,
            r@.1 == 0,
    {
        let mut leases: Vec<Option<Lease>> = Vec::new();
        let mut k: u32 = 0;
        while k < POOL_SIZE
            invariant
                k <= POOL_SIZE,
                leases.len() == k,
                forall|j: int| 0 <= j < k ==> #[trigger] leases@[j] is None,
            decreases POOL_SIZE - k,
        {
            leases.push(None);
            k = k + 1;
        }
        LeaseServer { leases, last_lease: 0 }
    }

    /// The lease on an address, if the address is in the pool and bound.
    pub fn lease_on(&self, ip: u32) -> (r: Option<Lease>)
        requires
            lease_wf(self@),
        ensures
            r == (if in_pool(ip) {
                self@.0[slot_of(ip)]
            } else {
                None
            }),
    {
        if ip < POOL_START || ip - POOL_START >= POOL_SIZE {
            return None;
        }
        self.leases[(ip - POOL_START) as usize]
    }

    /// Whether `ip` may be handed to the client `chaddr` at time `now`.
    pub fn available(&self, chaddr: u64, ip: u32, now: u64) -> (r: bool)
        requires
            lease_wf(self@),
        ensures
            r == available_spec(self@.0, chaddr, ip, now),
    {
        if ip < POOL_START || ip - POOL_START >= POOL_SIZE {
            return false;
        }
        match self.leases[(ip - POOL_START) as usize] {
            None => true,
            Some(l) => l.hw == chaddr || now > l.expires,
        }
    }

    /// The lowest address the client holds a lease on.
    pub fn current_lease(&self, chaddr: u64) -> (r: Option<u32>)
        requires
            lease_wf(self@),
        ensures
            r == current_lease_spec(self@.0, chaddr),
    {
        let mut k: usize = 0;
        while k < self.leases.len()
            invariant
                lease_wf(self@),
                k <= self.leases.len(),
                first_held_from(self@.0, chaddr, 0) == first_held_from(self@.0, chaddr, k as int),
            decreases self.leases.len() - k,
        {
            match self.leases[k] {
                Some(l) => {
                    if l.hw == chaddr {
                        return Some(POOL_START + k as u32);
                    }
                },
                None => {},
            }
            k = k + 1;
        }
        None
    }

    fn scan(&mut self, chaddr: u64, now: u64) -> (r: Option<u32>)
        requires
            lease_wf(old(self)@),
        ensures
            lease_wf(final(self)@),
            final(self)@.0 == old(self)@.0,
            (final(self)@.1, r) == scan_pool(
                old(self)@.0,
                chaddr,
                now,
                old(self)@.1,
                POOL_SIZE as nat,
            ),
    {
        let mut tries: u32 = POOL_SIZE;
        while tries > 0
            invariant
                lease_wf(self@),
                self@.0 == old(self)@.0,
                scan_pool(old(self)@.0, chaddr, now, old(self)@.1, POOL_SIZE as nat) == scan_pool(
                    self@.0,
                    chaddr,
                    now,
                    self@.1,
                    tries as nat,
                ),
            decreases tries,
        {
            self.last_lease = (self.last_lease + 1) % POOL_SIZE;
            let ip = POOL_START + self.last_lease;
            if self.available(chaddr, ip, now) {
                return Some(ip);
            }
            tries = tries - 1;
        }
        None
    }

    /// Answers one inbound message received at time `now`.
    pub fn handle_request(&mut self, req: &DhcpRequest, now: u64) -> (r: Option<DhcpReply>)
        requires
            lease_wf(old(self)@),
        ensures
            lease_wf(final(self)@),
            (final(self)@, r) == handle_spec(old(self)@, *req, now),
    {
        match req.kind {
            MessageKind::Discover => {
                if let Some(ip) = req.requested_ip {
                    if self.available(req.chaddr, ip, now) {
                        return Some(DhcpReply::Offer(ip));
                    }
                }
                if let Some(ip) = self.current_lease(req.chaddr) {
                    return Some(DhcpReply::Offer(ip));
                }
                match self.scan(req.chaddr, now) {
                    Some(ip) => Some(DhcpReply::Offer(ip)),
                    None => None,
                }
            },
            MessageKind::Request => {
                if !req.for_this_server {
                    return None;
                }
                let ip = match req.requested_ip {
                    Some(x) => x,
                    None => req.ciaddr,
                };
                if !self.available(req.chaddr, ip, now) {
                    return Some(DhcpReply::Nak);
                }
                let expires = if now <= u64::MAX - LEASE_DURATION_SECS as u64 {
                    now + LEASE_DURATION_SECS as u64
                } else {
                    u64::MAX
                };
                self.leases.set(
                    (ip - POOL_START) as usize,
                    Some(Lease { hw: req.chaddr, expires }),
                );
                Some(DhcpReply::Ack(ip))
            },
            MessageKind::Release | MessageKind::Decline => {
                if !req.for_this_server {
                    return None;
                }
                self.release(req.chaddr);
                None
            },
            MessageKind::Other => None,
        }
    }

    fn release(&mut self, chaddr: u64)
        requires
            lease_wf(old(self)@),
        ensures
            final(self)@ == (release_all(old(self)@.0, chaddr), old(self)@.1),
    {
        let ghost before = self.leases@;
        let mut k: usize = 0;
        while k < self.leases.len()
            invariant
                k <= self.leases.len(),
                self.leases.len() == before.len(),
                self.last_lease == old(self)@.1,
                before == old(self)@.0,
                forall|j: int|
                    0 <= j < k ==> #[trigger] self.leases@[j] == release_all(before, chaddr)[j],
                forall|j: int| k <= j < before.len() ==> #[trigger] self.leases@[j] == before[j],
            decreases self.leases.len() - k,
        {
            let ghost cur = self.leases@;
            assert(cur[k as int] == before[k as int]);
            match self.leases[k] {
                Some(l) => {
                    if l.hw == chaddr {
                        self.leases.set(k, None);
                        assert(self.leases@ == cur.update(k as int, None));
                    }
                },
                None => {},
            }
            assert(self.leases@[k as int] == release_all(before, chaddr)[k as int]);
            k = k + 1;
        }
        assert(self@.0 =~= release_all(before, chaddr));
    }
}

proof fn lemma_no_lease_held(slots: Seq<Option<Lease>>, hw: u64, k: int)
    requires
        forall|j: int| k <= j < slots.len() ==> !held_by(slots, hw, j),
    ensures
        first_held_from(slots, hw, k) is None,
    decreases slots.len() - k,
{
    if 0 <= k < slots.len() {
        lemma_no_lease_held(slots, hw, k + 1);
    }
}

proof fn lemma_only_lease_held(slots: Seq<Option<Lease>>, hw: u64, k: int, s: int)
    requires
        held_by(slots, hw, s),
        forall|j: int| j != s ==> !held_by(slots, hw, j),
        0 <= k <= s,
    ensures
        first_held_from(slots, hw, k) == Some(s),
    decreases s - k,
{
    if k < s {
        lemma_only_lease_held(slots, hw, k + 1, s);
    }
}

proof fn lemma_scan_finds_nothing(
    slots: Seq<Option<Lease>>,
    hw: u64,
    now: u64,
    last: u32,
    tries: nat,
)
    requires
        forall|ip: u32| !available_spec(slots, hw, ip, now),
    ensures
        scan_pool(slots, hw, now, last, tries).1 is None,
    decreases tries,
{
    if tries > 0 {
        let next = ((last + 1) % (POOL_SIZE as int)) as u32;
        lemma_scan_finds_nothing(slots, hw, now, next, (tries - 1) as nat);
    }
}

/// A pool whose every address is bound by an unexpired lease of some other
/// client has nothing for this client: a Discover gets no Offer, whatever
/// address it asks for, and a Request for any address is refused.
pub proof fn lemma_held_pool_refuses_others(m: LeaseModel, hw: u64, req: DhcpRequest, now: u64)
    requires
        lease_wf(m),
        forall|k: int|
            0 <= k < m.0.len() ==> #[trigger] m.0[k] is Some && m.0[k]->0.hw != hw && now
                <= m.0[k]->0.expires,
        req.chaddr == hw,
    ensures
        req.kind is Discover ==> handle_spec(m, req, now).1 is None,
        req.kind is Request && req.for_this_server ==> handle_spec(m, req, now).1 == Some(
            DhcpReply::Nak,
        ),
{
    assert forall|ip: u32| !available_spec(m.0, hw, ip, now) by {
        if in_pool(ip) {
            assert(m.0[slot_of(ip)] is Some);
        }
    }
    assert forall|j: int| 0 <= j < m.0.len() implies !held_by(m.0, hw, j) by {
        assert(m.0[j] is Some);
    }
    lemma_no_lease_held(m.0, hw, 0);
    lemma_scan_finds_nothing(m.0, hw, now, m.1, POOL_SIZE as nat);
}

/// After a client is offered an address and its Request for it is
/// acknowledged, a later Discover from the same client, asking for no
/// address or for that one, is offered that address again. The client is
/// taken to hold no lease on another address.
pub proof fn lemma_acknowledged_lease_reoffered(
    m: LeaseModel,
    discover: DhcpRequest,
    t0: u64,
    request: DhcpRequest,
    t1: u64,
    later: DhcpRequest,
    t2: u64,
    ip: u32,
)
    requires
        lease_wf(m),
        discover.kind is Discover,
        request.kind is Request,
        later.kind is Discover,
        discover.chaddr == request.chaddr,
        later.chaddr == request.chaddr,
        handle_spec(m, discover, t0).1 == Some(DhcpReply::Offer(ip)),
        handle_spec(handle_spec(m, discover, t0).0, request, t1).1 == Some(DhcpReply::Ack(ip)),
        forall|k: int| held_by(m.0, request.chaddr, k) ==> k == slot_of(ip),
        later.requested_ip is None || later.requested_ip == Some(ip),
    ensures
        ({
            let m1 = handle_spec(m, discover, t0).0;
            let m2 = handle_spec(m1, request, t1).0;
            handle_spec(m2, later, t2).1 == Some(DhcpReply::Offer(ip))
        }),
{
    let hw = request.chaddr;
    let m1 = handle_spec(m, discover, t0).0;
    assert(m1.0 == m.0);
    assert(requested_address(request) == ip);
    let m2 = handle_spec(m1, request, t1).0;
    assert(in_pool(ip));
    assert(m2.0 == m.0.update(slot_of(ip), Some(Lease { hw, expires: expiry(t1) })));
    assert(held_by(m2.0, hw, slot_of(ip)));
    assert forall|j: int| j != slot_of(ip) implies !held_by(m2.0, hw, j) by {
        if 0 <= j < m2.0.len() {
            assert(m2.0[j] == m.0[j]);
        }
    }
    lemma_only_lease_held(m2.0, hw, 0, slot_of(ip));
    assert(ip_of(slot_of(ip)) == ip);
}

} // verus!
