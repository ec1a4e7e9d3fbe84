//! Which ports a relay uses and where its legs send, told port by port and packet by packet.
use crate::addr::SocketAddress;
use crate::rtp::{relay_on, RelayView, RtpLeg};
use vstd::prelude::*;

verus! {

/// A relay uses the ports that it was given, but none below 1024, and begins with the lowest; a range
/// that would be empty is made one of two ports.
pub proof fn relay_begins_with_its_lowest_port(bind_host: Seq<char>, port_min: u16, port_max: u16)
    requires
        port_min < 0xFFFF,
    ensures
        ({
            let r = relay_on(bind_host, port_min, port_max);
            &&& r.bind_host == bind_host
            &&& r.port_min >= 1024 && r.port_min >= port_min
            &&& r.port_min == 1024 || r.port_min == port_min
            &&& r.port_max > r.port_min && r.port_max >= port_max
            &&& r.port_max == r.port_min + 1 || r.port_max == port_max
            &&& r.next_port == r.port_min
        }),
{
}

/// A relay goes on by two ports as long as there is one, and then begins again.
pub proof fn relay_goes_on_by_two(r: RelayView)
    requires
        r.in_range(),
    ensures
        ({
            let s = r.advanced();
            &&& r.next_port + 2 <= r.port_max ==> s.next_port == r.next_port + 2
            &&& r.next_port + 2 > r.port_max ==> s.next_port == r.port_min
            &&& s == (RelayView { next_port: s.next_port, ..r })
            &&& s.in_range()
        }),
{
}

/// The first packet that a leg receives says where it sends; no later one does. Every packet is noted
/// as heard.
pub proof fn first_packet_aims_the_leg(leg: RtpLeg, from: SocketAddress, now_ms: u64)
    ensures
        ({
            let l = leg.heard(from, now_ms);
            &&& leg.last_rx_ms == 0 ==> l.remote == Some(from)
            &&& leg.last_rx_ms != 0 ==> l.remote == leg.remote
            &&& l.last_rx_ms == now_ms
            &&& l.local_port == leg.local_port
        }),
{
}

} // verus!
