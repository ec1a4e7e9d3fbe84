//! What the SIP side starts with.
use crate::addr::SocketAddress;
use crate::config::{Config, TrunkDirection, TrunkView};
use crate::rtp::{relay_on, RtpRelay};
use crate::sip_state::{SipState, SipView, TrunkStateView};
use crate::table::{has_key, lists, Table};
use crate::text::texts_of;
use crate::transport::{
    choose_advertised_host, host_choice, registers_out, seed_trunk, trunk_seed, SipTransport,
    TransportView,
};
use vstd::prelude::*;
use vstd::string::*;

verus! {

/// The SIP side as it starts.
pub struct SipStart {
    pub transport: SipTransport,
    /// The ports for relayed RTP.
    pub relay: RtpRelay,
    /// The trunks that this server registers with.
    pub registering: Vec<String>,
    /// Whether calls can go on too long, so that they have to be swept.
    pub sweeps: bool,
}

/// The address of a trunk, where its remote host is one.
pub open spec fn address_of(addresses: Map<Seq<char>, SocketAddress>, name: Seq<char>) -> Option<
    SocketAddress,
> {
    if addresses.contains_key(name) {
        Some(addresses[name])
    } else {
        None
    }
}

/// The trunks that the configuration provisions, none of them up yet.
pub open spec fn seeded(
    trunks: Map<Seq<char>, TrunkView>,
    addresses: Map<Seq<char>, SocketAddress>,
    now_ms: u64,
) -> Map<Seq<char>, TrunkStateView> {
    Map::new(
        |k: Seq<char>| trunks.contains_key(k),
        |k: Seq<char>| trunk_seed(k, trunks[k], address_of(addresses, k), now_ms),
    )
}

/// Whether this server registers with the trunk's peer.
pub open spec fn registers(tc: TrunkView) -> bool {
    tc.enabled && tc.direction == TrunkDirection::Outbound && tc.remote_host.len() > 0
}

/// `names` lists the trunks that this server registers with, each once.
pub open spec fn lists_registering(names: Seq<Seq<char>>, trunks: Map<Seq<char>, TrunkView>) -> bool {
    &&& names.no_duplicates()
    &&& forall|k: Seq<char>| #[trigger]
        names.contains(k) <==> trunks.contains_key(k) && registers(trunks[k])
}

fn seed_trunks(
    config: &Config,
    addresses: &Table<String, SocketAddress>,
    now_ms: u64,
    state: &mut SipState,
) -> (r: Vec<String>)
    requires
        old(state)@.trunks == Map::<Seq<char>, TrunkStateView>::empty(),
    ensures
        final(state)@ == (SipView {
            trunks: seeded(config.sip.trunks@, addresses@, now_ms),
            ..old(state)@
        }),
        lists_registering(texts_of(r@), config.sip.trunks@),
{
    let mut names: Vec<String> = Vec::new();
    let ghost all = config.sip.trunks@;
    let n = config.sip.trunks.len();
    let ghost items = config.sip.trunks.items();
    let ghost before = state@;
    let mut i: usize = 0;
    while i < n
        invariant
            i <= n,
            items == config.sip.trunks.items(),
            all == config.sip.trunks@,
            n == items.len(),
            lists(items, all),
            before == old(state)@,
            state@ == (SipView { trunks: state@.trunks, ..before }),
            forall|k: Seq<char>| #[trigger]
                state@.trunks.contains_key(k) <==> exists|j: int| 0 <= j < i && #[trigger] items[j].0 == k,
            forall|k: Seq<char>| #[trigger]
                state@.trunks.contains_key(k) ==> state@.trunks[k] == trunk_seed(
                    k,
                    all[k],
                    address_of(addresses@, k),
                    now_ms,
                ),
            texts_of(names@).no_duplicates(),
            forall|k: Seq<char>| #[trigger]
                texts_of(names@).contains(k) <==> exists|j: int|
                    0 <= j < i && #[trigger] items[j].0 == k && registers(items[j].1),
        decreases n - i,
    {
        let name = config.sip.trunks.key_at(i);
        let tc = config.sip.trunks.value_at(i);
        let ghost k0 = items[i as int].0;
        let ghost sofar = state@.trunks;
        let ghost named = texts_of(names@);
        assert(all[k0] == items[i as int].1);
        let addr = match addresses.get(name) {
            Some(a) => Some(*a),
            None => None,
        };
        state.set_trunk(seed_trunk(name.as_str(), tc, addr, now_ms));
        assert(state@.trunks =~= sofar.insert(
            k0,
            trunk_seed(k0, all[k0], address_of(addresses@, k0), now_ms),
        ));
        if registers_out(tc) {
            names.push(name.clone());
            proof {
                let m = texts_of(names@);
                assert(m =~= named.push(k0));
                assert(!named.contains(k0)) by {
                    if named.contains(k0) {
                        let j = choose|j: int| 0 <= j < i && #[trigger] items[j].0 == k0 && registers(items[j].1);
                        assert(items[j].0 != items[i as int].0);
                    }
                }
                assert forall|k: Seq<char>| #[trigger] m.contains(k) == (named.contains(k) || k == k0) by {
                    if named.contains(k) {
                        let a = choose|a: int| 0 <= a < named.len() && named[a] == k;
                        assert(m[a] == k);
                    }
                    assert(m[named.len() as int] == k0);
                    if m.contains(k) {
                        let a = choose|a: int| 0 <= a < m.len() && m[a] == k;
                        if a < named.len() {
                            assert(named[a] == k);
                        }
                    }
                }
            }
        }
        assert forall|k: Seq<char>| #[trigger] texts_of(names@).contains(k) <==> exists|j: int|
            0 <= j < i + 1 && #[trigger] items[j].0 == k && registers(items[j].1) by {
            if named.contains(k) {
                let j = choose|j: int| 0 <= j < i && #[trigger] items[j].0 == k && registers(items[j].1);
                assert(items[j].0 == k);
            }
            if k == k0 {
                assert(items[i as int].0 == k);
            }
        }
        assert forall|k: Seq<char>| #[trigger] state@.trunks.contains_key(k) <==> exists|j: int|
            0 <= j < i + 1 && #[trigger] items[j].0 == k by {
            if sofar.contains_key(k) {
                let j = choose|j: int| 0 <= j < i && #[trigger] items[j].0 == k;
                assert(items[j].0 == k);
            }
            if k == k0 {
                assert(items[i as int].0 == k);
            }
        }
        i += 1;
    }
    proof {
        let want = seeded(all, addresses@, now_ms);
        assert forall|k: Seq<char>| #[trigger] state@.trunks.contains_key(k) == all.contains_key(k) by {
            if all.contains_key(k) {
                assert(has_key(items, k));
                let j = choose|j: int| 0 <= j < items.len() && #[trigger] items[j].0 == k;
                assert(items[j].0 == k);
            }
            if state@.trunks.contains_key(k) {
                let j = choose|j: int| 0 <= j < n && #[trigger] items[j].0 == k;
                assert(all.contains_key(items[j].0));
            }
        }
        assert(state@.trunks =~= want);
        assert forall|k: Seq<char>| #[trigger] texts_of(names@).contains(k) <==> all.contains_key(k) && registers(
            all[k],
        ) by {
            if texts_of(names@).contains(k) {
                let j = choose|j: int| 0 <= j < n && #[trigger] items[j].0 == k && registers(items[j].1);
                assert(all.contains_key(items[j].0));
            }
            if all.contains_key(k) {
                assert(has_key(items, k));
                let j = choose|j: int| 0 <= j < items.len() && #[trigger] items[j].0 == k;
                assert(items[j].0 == k);
            }
        }
    }
    names
}

/// The SIP side as it starts, or nothing where it is switched off. `local` is the address that the
/// socket is bound to, `local_text` and `local_host` are it and its host as text, `detected` is the
/// host of the interface that leads outward, and `addresses` holds the addresses of the trunks whose
/// remote host is one.
pub fn run(
    config: &Config,
    local: &SocketAddress,
    local_text: &str,
    local_host: &str,
    detected: &str,
    addresses: &Table<String, SocketAddress>,
    now_ms: u64,
) -> (r: Option<SipStart>)
    requires
        config.sip.enabled ==> config.sip.rtp_port_min < 0xFFFF,
    ensures
        r is Some == config.sip.enabled,
        r matches Some(s) ==> {
            &&& s.transport@ == (TransportView {
                sip: SipView {
                    registrations: Map::empty(),
                    trunks: seeded(config.sip.trunks@, addresses@, now_ms),
                    calls: Map::empty(),
                    media: Map::empty(),
                    total_calls: 0,
                    total_registrations: 0,
                    enabled: true,
                    listen: local_text@,
                    realm: config.sip.realm@,
                },
                advertised_host: host_choice(
                    config.sip.advertised_host@,
                    *local,
                    local_host@,
                    detected@,
                ),
                nonces: Map::empty(),
                relays: Map::empty(),
                bridge: true,
            })
            &&& s.relay@ == relay_on(
                local_host@,
                config.sip.rtp_port_min,
                config.sip.rtp_port_max,
            )
            &&& lists_registering(texts_of(s.registering@), config.sip.trunks@)
            &&& s.sweeps == (config.sip.max_call_duration_seconds > 0
                || config.call_inactivity_timeout_seconds > 0)
        },
{
    if !config.sip.enabled {
        return None;
    }
    let host = choose_advertised_host(
        config.sip.advertised_host.as_str(),
        local,
        local_host,
        detected,
    );
    let relay = RtpRelay::new(
        local_host.to_string(),
        config.sip.rtp_port_min,
        config.sip.rtp_port_max,
    );
    let mut state = SipState::new(true, local_text.to_string(), config.sip.realm.clone());
    let registering = seed_trunks(config, addresses, now_ms, &mut state);
    let transport = SipTransport::new(state, host, true);
    let sweeps = config.sip.max_call_duration_seconds > 0 || config.call_inactivity_timeout_seconds
        > 0;
    Some(SipStart { transport, relay, registering, sweeps })
}

} // verus!
