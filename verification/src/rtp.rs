//! The RTP relay: which local port a leg gets, and where a leg's packets go.
//!
//! A leg latches the address that its first packet came from (so that it works through NAT whatever
//! the session description said) and sends there.
use crate::addr::SocketAddress;
use vstd::prelude::*;

verus! {

/// One relayed media leg.
pub struct RtpLeg {
    pub local_port: u16,
    /// Where packets of this leg are sent: the latched source, or the address that was set.
    pub remote: Option<SocketAddress>,
    /// When RTP was last received (milliseconds since the epoch, 0 for never).
    pub last_rx_ms: u64,
}

impl RtpLeg {
    /// When RTP was last received, for the inactivity sweep.
    pub fn activity(&self) -> (r: u64)
        ensures
            r == self.last_rx_ms,
    {
        self.last_rx_ms
    }

    /// Sets the remote address, as from a session description before the first packet.
    pub fn set_remote(&mut self, addr: SocketAddress)
        ensures
            *final(self) == (RtpLeg { remote: Some(addr), ..*old(self) }),
    {
        self.remote = Some(addr);
    }

    /// The leg once a packet from `from` was received: its source is latched where it is the first.
    pub open spec fn heard(self, from: SocketAddress, now_ms: u64) -> RtpLeg {
        RtpLeg {
            remote: if self.last_rx_ms == 0 {
                Some(from)
            } else {
                self.remote
            },
            last_rx_ms: now_ms,
            ..self
        }
    }

    /// Takes note of a packet from `from`: its time, and its source where it is the first packet.
    pub fn recv(&mut self, from: SocketAddress, now_ms: u64)
        ensures
            *final(self) == old(self).heard(from, now_ms),
    {
        if self.last_rx_ms == 0 {
            self.remote = Some(from);
        }
        self.last_rx_ms = now_ms;
    }

    /// Where a packet is to be sent; nowhere while no remote is known.
    pub fn send(&self) -> (r: Option<SocketAddress>)
        ensures
            r == self.remote,
    {
        self.remote
    }
}

/// The ports that the relay hands out.
pub struct RtpRelay {
    bind_host: String,
    port_min: u16,
    port_max: u16,
    next_port: u16,
}

/// The contents of an `RtpRelay`.
#[verifier::ext_equal]
pub struct RelayView {
    pub bind_host: Seq<char>,
    pub port_min: u16,
    pub port_max: u16,
    pub next_port: u16,
}

impl View for RtpRelay {
    type V = RelayView;

    closed spec fn view(&self) -> RelayView {
        RelayView {
            bind_host: self.bind_host@,
            port_min: self.port_min,
            port_max: self.port_max,
            next_port: self.next_port,
        }
    }
}

/// The larger of two ports.
pub open spec fn max_port(a: int, b: int) -> int {
    if a < b {
        b
    } else {
        a
    }
}

/// The port after `p`: ports are taken in steps of two (the odd ones between them are for RTCP) and
/// start over past the upper limit.
pub open spec fn port_after(min: int, max: int, p: int) -> int {
    if p + 2 > max {
        min
    } else {
        p + 2
    }
}

/// A relay that has taken no port yet, on ports from `port_min` (at least 1024) to `port_max` (at
/// least one more).
pub open spec fn relay_on(bind_host: Seq<char>, port_min: u16, port_max: u16) -> RelayView {
    let low = max_port(port_min as int, 1024);
    RelayView {
        bind_host,
        port_min: low as u16,
        port_max: max_port(port_max as int, low + 1) as u16,
        next_port: low as u16,
    }
}

impl RelayView {
    /// The relay once its next port is taken.
    pub open spec fn advanced(self) -> RelayView {
        RelayView {
            next_port: port_after(self.port_min as int, self.port_max as int, self.next_port as int) as u16,
            ..self
        }
    }

    /// A relay keeps to every second port from its lower limit to its upper one.
    pub open spec fn in_range(self) -> bool {
        &&& 1024 <= self.port_min < self.port_max
        &&& self.port_min <= self.next_port <= self.port_max
        &&& (self.next_port - self.port_min) % 2 == 0
    }

    /// The relay once its next `k` ports are taken.
    pub open spec fn walked(self, k: nat) -> RelayView
        decreases k,
    {
        if k == 0 {
            self
        } else {
            self.walked((k - 1) as nat).advanced()
        }
    }

    /// How often binding may fail before an allocation is given up.
    pub open spec fn retries(self) -> int {
        (self.port_max - self.port_min) / 2
    }
}

/// The search for a port that can be bound.
pub struct LegAlloc {
    /// The port whose binding was asked for last.
    pub port: Option<u16>,
    /// How many bindings have failed.
    pub attempts: u16,
}

/// What an allocation asks for next.
pub enum AllocStep {
    /// Bind this port and say whether that worked.
    Bind(u16),
    /// The leg on the port that was bound.
    Allocated(RtpLeg),
    /// No port could be bound.
    Exhausted,
}

impl LegAlloc {
    /// An allocation that has asked for nothing yet.
    pub fn new() -> (r: Self)
        ensures
            r.port is None,
            r.attempts == 0,
    {
        LegAlloc { port: None, attempts: 0 }
    }
}

impl RtpRelay {
    #[verifier::type_invariant]
    spec fn well_formed(self) -> bool {
        self@.in_range()
    }

    /// A relay on ports from `port_min` (at least 1024) to `port_max` (at least one more).
    pub fn new(bind_host: String, port_min: u16, port_max: u16) -> (r: Self)
        requires
            port_min < 0xFFFF,
        ensures
            r@ == relay_on(bind_host@, port_min, port_max),
            r@.in_range(),
    {
        let low: u16 = if port_min < 1024 {
            1024
        } else {
            port_min
        };
        let high: u16 = if port_max < low + 1 {
            low + 1
        } else {
            port_max
        };
        RtpRelay { bind_host, port_min: low, port_max: high, next_port: low }
    }

    /// The host that ports are bound on.
    pub fn bind_host(&self) -> (r: &String)
        ensures
            r@ == self@.bind_host,
            self@.in_range(),
    {
        proof {
            use_type_invariant(self);
        }
        &self.bind_host
    }

    fn take_port(&mut self) -> (r: u16)
        ensures
            r == old(self)@.next_port,
            final(self)@ == old(self)@.advanced(),
            old(self)@.in_range(),
    {
        proof {
            use_type_invariant(&*self);
        }
        let p = self.next_port;
        let next: u16 = if p >= 0xFFFE || p + 2 > self.port_max {
            self.port_min
        } else {
            p + 2
        };
        self.next_port = next;
        p
    }

    /// One step of an allocation: `bound` says whether the port that it last asked for was bound.
    pub fn alloc_leg(&mut self, alloc: &mut LegAlloc, bound: bool) -> (r: AllocStep)
        requires
            old(alloc).attempts <= 0x7FFF,
        ensures
            old(self)@.in_range(),
            match old(alloc).port {
                Some(port) if bound => {
                    &&& r == AllocStep::Allocated(
                        RtpLeg { local_port: port, remote: None, last_rx_ms: 0 },
                    )
                    &&& final(self)@ == old(self)@
                    &&& *final(alloc) == *old(alloc)
                },
                Some(port) if old(alloc).attempts + 1 > old(self)@.retries() => {
                    &&& r == AllocStep::Exhausted
                    &&& final(self)@ == old(self)@
                    &&& final(alloc).attempts == old(alloc).attempts + 1
                    &&& final(alloc).port == old(alloc).port
                },
                _ => {
                    &&& r == AllocStep::Bind(old(self)@.next_port)
                    &&& final(self)@ == old(self)@.advanced()
                    &&& final(alloc).port == Some(old(self)@.next_port)
                    &&& final(alloc).attempts == old(alloc).attempts + (if old(alloc).port is Some {
                        1int
                    } else {
                        0
                    })
                    &&& final(alloc).attempts <= 0x7FFF
                },
            },
    {
        proof {
            use_type_invariant(&*self);
        }
        match alloc.port {
            Some(port) => {
                if bound {
                    return AllocStep::Allocated(
                        RtpLeg { local_port: port, remote: None, last_rx_ms: 0 },
                    );
                }
                alloc.attempts = alloc.attempts + 1;
                if alloc.attempts > (self.port_max - self.port_min) / 2 {
                    return AllocStep::Exhausted;
                }
            },
            None => {},
        }
        let port = self.take_port();
        alloc.port = Some(port);
        AllocStep::Bind(port)
    }

    /// One packet of a call with two legs: it arrived on the first leg (`on_first`) or on the
    /// second. The source of a leg's first packet is latched, and a packet goes where the other leg
    /// sends.
    pub fn bridge(
        a: &mut RtpLeg,
        b: &mut RtpLeg,
        on_first: bool,
        from: SocketAddress,
        now_ms: u64,
    ) -> (r: Option<SocketAddress>)
        ensures
            on_first ==> {
                &&& *final(a) == old(a).heard(from, now_ms)
                &&& *final(b) == *old(b)
                &&& r == old(b).remote
            },
            !on_first ==> {
                &&& *final(b) == old(b).heard(from, now_ms)
                &&& *final(a) == *old(a)
                &&& r == old(a).remote
            },
    {
        if on_first {
            a.recv(from, now_ms);
            b.send()
        } else {
            b.recv(from, now_ms);
            a.send()
        }
    }
}

// ---- laws ----

/// The leg once packets were received, each with its source and its time.
pub open spec fn after_packets(leg: RtpLeg, packets: Seq<(SocketAddress, u64)>) -> RtpLeg
    decreases packets.len(),
{
    if packets.len() == 0 {
        leg
    } else {
        let p = packets.last();
        after_packets(leg, packets.drop_last()).heard(p.0, p.1)
    }
}

/// A leg sends to where its first packet came from, whatever was set before and wherever later
/// packets come from.
pub proof fn first_source_stays_latched(leg: RtpLeg, packets: Seq<(SocketAddress, u64)>)
    requires
        leg.last_rx_ms == 0,
        packets.len() > 0,
        forall|i: int| 0 <= i < packets.len() ==> (#[trigger] packets[i]).1 > 0,
    ensures
        after_packets(leg, packets).remote == Some(packets[0].0),
        after_packets(leg, packets).last_rx_ms == packets.last().1,
    decreases packets.len(),
{
    let init = packets.drop_last();
    if init.len() > 0 {
        first_source_stays_latched(leg, init);
        assert(init.last() == packets[init.len() - 1]);
    } else {
        assert(after_packets(leg, init) == leg);
    }
}

/// The number of ports that a relay takes before it starts over.
pub open spec fn port_count(min: int, max: int) -> int {
    (max - min) / 2 + 1
}

/// The port that is taken `k` allocations after the lower limit.
pub open spec fn nth_port(min: int, max: int, k: nat) -> int
    decreases k,
{
    if k == 0 {
        min
    } else {
        port_after(min, max, nth_port(min, max, (k - 1) as nat))
    }
}

/// The relay walks through the ports of its range in steps of two, and then starts over.
pub proof fn ports_cycle(min: int, max: int, k: nat)
    requires
        min <= max,
    ensures
        nth_port(min, max, k) == min + 2 * (k as int % port_count(min, max)),
        min <= nth_port(min, max, k) <= max,
    decreases k,
{
    let n = port_count(min, max);
    if k > 0 {
        ports_cycle(min, max, (k - 1) as nat);
        let j = (k - 1) as int % n;
        let p = nth_port(min, max, (k - 1) as nat);
        assert(p == min + 2 * j);
        vstd::arithmetic::div_mod::lemma_add_mod_noop((k - 1) as int, 1, n);
        if n == 1 {
            assert(k as int % 1 == 0);
        } else {
            assert(1int % n == 1) by {
                vstd::arithmetic::div_mod::lemma_small_mod(1, n as nat);
            }
            assert(k as int % n == (j + 1) % n);
            if j + 1 == n {
                vstd::arithmetic::div_mod::lemma_mod_self_0(n);
            } else {
                vstd::arithmetic::div_mod::lemma_small_mod((j + 1) as nat, n as nat);
            }
        }
    } else {
        vstd::arithmetic::div_mod::lemma_small_mod(0, n as nat);
    }
}

/// Two legs that are allocated one after the other are on different ports, where the range holds
/// more than one.
pub proof fn consecutive_ports_differ(v: RelayView)
    requires
        v.in_range(),
        v.port_max - v.port_min >= 2,
    ensures
        v.next_port != v.advanced().next_port,
        v.advanced().in_range(),
{
}

/// From any port on, a relay walks on as it does from its lower limit.
proof fn lemma_walk(v: RelayView, k: nat)
    requires
        v.in_range(),
    ensures
        v.walked(k).next_port == nth_port(
            v.port_min as int,
            v.port_max as int,
            ((v.next_port - v.port_min) / 2 + k) as nat,
        ),
        v.walked(k).port_min == v.port_min,
        v.walked(k).port_max == v.port_max,
    decreases k,
{
    let min = v.port_min as int;
    let max = v.port_max as int;
    let i = (v.next_port - v.port_min) / 2;
    if k == 0 {
        ports_cycle(min, max, i as nat);
        vstd::arithmetic::div_mod::lemma_small_mod(i as nat, port_count(min, max) as nat);
    } else {
        lemma_walk(v, (k - 1) as nat);
        ports_cycle(min, max, (i + k) as nat);
    }
}

/// An allocation that is given up has asked for every port of the relay, wherever its walk stood:
/// it makes as many bindings as the relay has ports.
pub proof fn every_port_is_tried(v: RelayView, p: int)
    requires
        v.in_range(),
        v.port_min <= p <= v.port_max,
        (p - v.port_min) % 2 == 0,
    ensures
        v.retries() + 1 == port_count(v.port_min as int, v.port_max as int),
        exists|k: nat| k <= v.retries() && (#[trigger] v.walked(k)).next_port == p,
{
    let min = v.port_min as int;
    let max = v.port_max as int;
    let n = port_count(min, max);
    let i = (v.next_port - min) / 2;
    let j = (p - min) / 2;
    let k = (if i <= j {
        j - i
    } else {
        j - i + n
    }) as nat;
    lemma_walk(v, k);
    ports_cycle(min, max, (i + k) as nat);
    assert((i + k) % n == j) by {
        vstd::arithmetic::div_mod::lemma_small_mod(j as nat, n as nat);
        if i > j {
            vstd::arithmetic::div_mod::lemma_mod_add_multiples_vanish(j, n);
        }
    }
    assert(v.walked(k).next_port == p);
}

} // verus!
