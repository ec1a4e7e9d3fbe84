use brew_server::addr::SocketAddress;
use brew_server::brew::{
    Action, ActiveCall, BrewMessage, BrewState, CallKind, CallPayload, CallState, Client, ClientMode,
    Frame, FrameKind, LatLon, Now, SubscriberKind,
};
use brew_server::config::Config;
use brew_server::router::{handle_packet, private_setup_offered};
use brew_server::sds::{
    body_as_text, extract_sds_position, position_candidates, purge_ephemeral, sds_is_lip, Candidate,
};
use brew_server::sweep::{expired_calls, idle_calls, run_call_duration_sweep};
use brew_server::table::{KeySet, Table};

const SEC: u128 = 1_000_000_000;

fn at(ms: u64) -> Now {
    Now { epoch_ms: ms, mono_ns: ms as u128 * 1_000_000 }
}

fn client(mode: ClientMode) -> Client {
    Client {
        mode,
        remote_addr: Some(SocketAddress::V4 { ip: 1, port: 2 }),
        version: 0,
    }
}

fn server(modes: &[ClientMode]) -> BrewState {
    let mut s = BrewState::new();
    for (i, m) in modes.iter().enumerate() {
        s.clients.insert(i as u128 + 1, client(*m));
    }
    s
}

const BS: ClientMode = ClientMode::Basestation;

fn deliver(s: &mut BrewState, c: &Config, from: u128, m: BrewMessage, ms: u64) -> Vec<Action> {
    handle_packet(s, c, from, Some((m, 0)), &[], &[], 60 * SEC, at(ms))
}

fn subscriber(kind: SubscriberKind, issi: u32, groups: &[u32]) -> BrewMessage {
    BrewMessage::Subscriber { kind, issi, groups: groups.to_vec() }
}

fn control(state: CallState, id: u128) -> BrewMessage {
    BrewMessage::CallControl { state, id, payload: CallPayload::Raw { pair: None } }
}

fn group_tx(id: u128, source: u32, destination: u32, priority: u8) -> BrewMessage {
    BrewMessage::CallControl {
        state: CallState::GroupTx,
        id,
        payload: CallPayload::GroupTransmission { source, destination, priority },
    }
}

fn setup(id: u128, source: u32, destination: u32, number: &str) -> BrewMessage {
    BrewMessage::CallControl {
        state: CallState::SetupRequest,
        id,
        payload: CallPayload::CircularCall { source, destination, number: number.to_string() },
    }
}

fn frame(kind: FrameKind, id: u128) -> BrewMessage {
    BrewMessage::Frame { frame: kind, id }
}

/// Who gets the packet as it came in.
fn forwarded(actions: &[Action]) -> Vec<u128> {
    let mut out = vec![];
    for a in actions {
        if let Action::Send { to, frame: Frame::Verbatim } = a {
            out.extend(to.to_vec());
        }
    }
    out.sort();
    out
}

fn group(s: &BrewState, g: u32) -> Vec<u128> {
    let mut v = s.group_clients.get(&g).map(|c| c.to_vec()).unwrap_or_default();
    v.sort();
    v
}

// ---- group calls ----

#[test]
fn group_transmission_reaches_the_affiliated() {
    let (mut s, c) = (server(&[BS, BS, BS]), Config::default());
    deliver(&mut s, &c, 2, subscriber(SubscriberKind::Affiliate, 200, &[90]), 0);
    let a = deliver(&mut s, &c, 1, group_tx(7, 100, 90, 3), 5);
    assert_eq!(forwarded(&a), vec![2]);
    assert!(matches!(
        a[1],
        Action::CallStarted { id: 7, kind: CallKind::Group, source: 100, destination: 90, priority: 3 }
    ));
    assert_eq!(s.group_floor.get(&90), Some(&7));
    let call = s.calls.get(&7).unwrap();
    assert_eq!((call.owner, call.started_at, call.last_activity_ms), (1, 5_000_000, 5));
}

#[test]
fn group_without_affiliations_falls_back_to_everyone() {
    let (mut s, mut c) = (server(&[BS, BS, BS]), Config::default());
    let a = deliver(&mut s, &c, 1, group_tx(7, 100, 90, 3), 5);
    assert_eq!(forwarded(&a), vec![2, 3]);
    c.fallback_broadcast_when_no_affiliations = false;
    let a = deliver(&mut s, &c, 1, group_tx(8, 100, 91, 3), 5);
    assert_eq!(forwarded(&a), vec![]);
    c.route_without_affiliations = true;
    deliver(&mut s, &c, 2, subscriber(SubscriberKind::Affiliate, 200, &[92]), 0);
    let a = deliver(&mut s, &c, 1, group_tx(9, 100, 92, 3), 5);
    assert_eq!(forwarded(&a), vec![2, 3]);
}

#[test]
fn equal_priority_does_not_take_the_floor() {
    let (mut s, c) = (server(&[BS, BS]), Config::default());
    deliver(&mut s, &c, 1, group_tx(7, 100, 90, 3), 0);
    assert!(deliver(&mut s, &c, 2, group_tx(8, 200, 90, 3), 1).is_empty());
    assert_eq!(s.group_floor.get(&90), Some(&7));
    assert!(s.calls.get(&8).is_none());
}

#[test]
fn higher_priority_pre_empts() {
    let (mut s, c) = (server(&[BS, BS, BS]), Config::default());
    deliver(&mut s, &c, 1, group_tx(7, 100, 90, 3), 0);
    let a = deliver(&mut s, &c, 2, group_tx(8, 200, 90, 4), 1);
    match &a[0] {
        Action::Send { to, frame: Frame::CallCause { state: CallState::GroupIdle, call: 7, cause: 1 } } => {
            let mut v = to.to_vec();
            v.sort();
            assert_eq!(v, vec![1, 2, 3]);
        },
        _ => panic!("the old call is released first"),
    }
    assert_eq!(forwarded(&a), vec![1, 3]);
    assert!(matches!(a[2], Action::CallEnded { id: 7 }));
    assert!(matches!(a[3], Action::TeardownBridge { id: 7 }));
    assert!(matches!(a[4], Action::CallStarted { id: 8, .. }));
    assert!(s.calls.get(&7).is_none());
    assert_eq!(s.group_floor.get(&90), Some(&8));
}

#[test]
fn lower_number_can_win_and_groups_can_have_several_calls() {
    let (mut s, mut c) = (server(&[BS, BS]), Config::default());
    c.higher_priority_number_wins = false;
    deliver(&mut s, &c, 1, group_tx(7, 100, 90, 3), 0);
    assert!(deliver(&mut s, &c, 2, group_tx(8, 200, 90, 4), 1).is_empty());
    assert_eq!(deliver(&mut s, &c, 2, group_tx(8, 200, 90, 2), 1).len(), 5);
    c.allow_multiple_calls_per_group = true;
    assert_eq!(deliver(&mut s, &c, 1, group_tx(9, 100, 90, 9), 1).len(), 2);
    assert!(s.calls.get(&8).is_some() && s.calls.get(&9).is_some());
}

#[test]
fn only_the_owner_ends_a_group_call() {
    let (mut s, c) = (server(&[BS, BS]), Config::default());
    deliver(&mut s, &c, 1, group_tx(7, 100, 90, 3), 0);
    assert!(deliver(&mut s, &c, 2, control(CallState::GroupIdle, 7), 1).is_empty());
    let a = deliver(&mut s, &c, 1, control(CallState::GroupIdle, 7), 1);
    assert_eq!(forwarded(&a), vec![2]);
    assert!(matches!(a[1], Action::CallEnded { id: 7 }));
    assert!(matches!(a[2], Action::TeardownBridge { id: 7 }));
    assert!(s.group_floor.get(&90).is_none());
    assert!(deliver(&mut s, &c, 1, control(CallState::GroupIdle, 7), 1).is_empty());
}

#[test]
fn only_the_floor_holder_speaks() {
    let (mut s, c) = (server(&[BS, BS]), Config::default());
    deliver(&mut s, &c, 1, group_tx(7, 100, 90, 3), 0);
    assert!(deliver(&mut s, &c, 2, frame(FrameKind::Traffic, 7), 1).is_empty());
    let a = deliver(&mut s, &c, 1, frame(FrameKind::Traffic, 7), 9);
    assert!(matches!(a[0], Action::VoiceFrame { id: 7 }));
    assert_eq!(forwarded(&a), vec![2]);
    assert_eq!(s.calls.get(&7).unwrap().last_activity_ms, 9);
    let a = deliver(&mut s, &c, 1, frame(FrameKind::Dtmf, 7), 10);
    assert_eq!((a.len(), forwarded(&a)), (1, vec![2]));
    assert!(deliver(&mut s, &c, 1, frame(FrameKind::Other(9), 7), 10).is_empty());
}

// ---- private calls ----

#[test]
fn private_call_goes_to_the_client_of_the_callee() {
    let (mut s, c) = (server(&[BS, BS, BS]), Config::default());
    deliver(&mut s, &c, 2, subscriber(SubscriberKind::Register, 200, &[]), 0);
    let a = deliver(&mut s, &c, 1, setup(7, 100, 200, ""), 1);
    assert_eq!(forwarded(&a), vec![2]);
    assert!(matches!(a[1], Action::CallStarted { id: 7, kind: CallKind::Private, priority: 0, .. }));
    let a = deliver(&mut s, &c, 2, control(CallState::Alert, 7), 2);
    assert_eq!(forwarded(&a), vec![1]);
    assert_eq!(s.calls.get(&7).unwrap().last_activity_ms, 2);
    let a = deliver(&mut s, &c, 2, frame(FrameKind::Traffic, 7), 3);
    assert_eq!(forwarded(&a), vec![1]);
    assert!(deliver(&mut s, &c, 3, frame(FrameKind::Traffic, 7), 3).is_empty());
    assert!(deliver(&mut s, &c, 3, control(CallState::Release, 7), 3).is_empty());
    let a = deliver(&mut s, &c, 2, control(CallState::Release, 7), 4);
    assert_eq!(forwarded(&a), vec![1]);
    assert!(s.calls.get(&7).is_none());
}

#[test]
fn refused_set_up_ends_the_call() {
    let (mut s, c) = (server(&[BS, BS]), Config::default());
    deliver(&mut s, &c, 2, subscriber(SubscriberKind::Register, 200, &[]), 0);
    deliver(&mut s, &c, 1, setup(7, 100, 200, ""), 1);
    let a = deliver(&mut s, &c, 2, control(CallState::SetupReject, 7), 2);
    assert_eq!(forwarded(&a), vec![1]);
    assert!(matches!(a[1], Action::CallEnded { id: 7 }));
    assert!(s.calls.get(&7).is_none());
}

#[test]
fn private_control_needs_a_private_call() {
    let (mut s, c) = (server(&[BS, BS]), Config::default());
    deliver(&mut s, &c, 1, group_tx(7, 100, 90, 3), 0);
    assert!(deliver(&mut s, &c, 2, control(CallState::Alert, 7), 1).is_empty());
    assert!(deliver(&mut s, &c, 2, control(CallState::Alert, 8), 1).is_empty());
}

#[test]
fn unknown_callee_is_offered_to_sip() {
    let (mut s, c) = (server(&[BS]), Config::default());
    for (number, want) in [("", "4711"), ("  ", "4711"), (" 9123 ", "9123")] {
        let a = deliver(&mut s, &c, 1, setup(7, 100, 4711, number), 1);
        match &a[0] {
            Action::OfferToSip { id: 7, client: 1, source: 100, destination: 4711, dialled } => {
                assert_eq!(dialled, want);
            },
            _ => panic!("offered"),
        }
        assert!(s.calls.get(&7).is_none());
    }
    let a = private_setup_offered(7, 100, 4711, true);
    assert!(matches!(a[0], Action::CallStarted { id: 7, kind: CallKind::Private, source: 100, destination: 4711, priority: 0 }));
    assert!(private_setup_offered(7, 100, 4711, false).is_empty());
}

#[test]
fn set_up_with_a_bare_pair_or_none() {
    let (mut s, c) = (server(&[BS, BS]), Config::default());
    deliver(&mut s, &c, 2, subscriber(SubscriberKind::Register, 200, &[]), 0);
    let raw = |pair| BrewMessage::CallControl {
        state: CallState::SetupRequest,
        id: 7,
        payload: CallPayload::Raw { pair },
    };
    assert!(deliver(&mut s, &c, 1, raw(None), 1).is_empty());
    assert_eq!(forwarded(&deliver(&mut s, &c, 1, raw(Some((100, 200))), 1)), vec![2]);
    // A call to oneself goes nowhere.
    assert!(deliver(&mut s, &c, 2, raw(Some((100, 200))), 1).is_empty());
}

// ---- subscribers ----

#[test]
fn registration_moves_with_its_groups() {
    let (mut s, c) = (server(&[BS, BS]), Config::default());
    deliver(&mut s, &c, 1, subscriber(SubscriberKind::Affiliate, 100, &[90, 91]), 0);
    assert_eq!((group(&s, 90), group(&s, 91)), (vec![1], vec![1]));
    deliver(&mut s, &c, 2, subscriber(SubscriberKind::Reregister, 100, &[]), 0);
    assert_eq!((group(&s, 90), group(&s, 91)), (vec![2], vec![2]));
    assert_eq!(s.subscribers.get(&100).unwrap().client_id, 2);
    assert_eq!(s.subscribers.get(&100).unwrap().groups.len(), 2);
}

#[test]
fn move_takes_the_group_from_a_client_that_still_has_a_member() {
    let (mut s, c) = (server(&[BS, BS]), Config::default());
    deliver(&mut s, &c, 1, subscriber(SubscriberKind::Affiliate, 100, &[90]), 0);
    deliver(&mut s, &c, 1, subscriber(SubscriberKind::Affiliate, 101, &[90]), 0);
    deliver(&mut s, &c, 2, subscriber(SubscriberKind::Register, 100, &[]), 0);
    assert_eq!(group(&s, 90), vec![2]);
}

#[test]
fn deregistration_leaves_the_groups_without_other_members() {
    let (mut s, c) = (server(&[BS, BS]), Config::default());
    deliver(&mut s, &c, 1, subscriber(SubscriberKind::Affiliate, 100, &[90, 91]), 0);
    deliver(&mut s, &c, 1, subscriber(SubscriberKind::Affiliate, 101, &[91]), 0);
    // Not by another client.
    deliver(&mut s, &c, 2, subscriber(SubscriberKind::Deregister, 100, &[]), 0);
    assert!(s.subscribers.get(&100).is_some());
    deliver(&mut s, &c, 1, subscriber(SubscriberKind::Deregister, 100, &[]), 0);
    assert!(s.subscribers.get(&100).is_none());
    assert_eq!((group(&s, 90), group(&s, 91)), (vec![], vec![1]));
}

#[test]
fn deaffiliation_is_for_the_client_of_the_subscriber() {
    let (mut s, c) = (server(&[BS, BS]), Config::default());
    deliver(&mut s, &c, 1, subscriber(SubscriberKind::Affiliate, 100, &[90]), 0);
    deliver(&mut s, &c, 2, subscriber(SubscriberKind::Deaffiliate, 100, &[90]), 0);
    deliver(&mut s, &c, 2, subscriber(SubscriberKind::Affiliate, 100, &[92]), 0);
    assert_eq!((group(&s, 90), group(&s, 92)), (vec![1], vec![]));
    deliver(&mut s, &c, 1, subscriber(SubscriberKind::Deaffiliate, 100, &[90, 90]), 0);
    assert_eq!(group(&s, 90), vec![]);
    assert!(s.subscribers.get(&100).unwrap().groups.is_empty());
}

#[test]
fn registrations_go_to_the_other_servers_only() {
    let (mut s, c) = (server(&[BS, ClientMode::Peer, ClientMode::Peer]), Config::default());
    let a = deliver(&mut s, &c, 2, subscriber(SubscriberKind::Affiliate, 100, &[90]), 0);
    assert_eq!(a.len(), 1);
    match &a[0] {
        Action::Send { to, frame: Frame::Subscriber { kind: SubscriberKind::Affiliate, issi: 100, groups } } => {
            assert_eq!(to.to_vec(), vec![3]);
            assert_eq!(groups, &vec![90]);
        },
        _ => panic!("relayed"),
    }
    // Dropped messages go no further; unknown ones neither.
    assert!(deliver(&mut s, &c, 1, subscriber(SubscriberKind::Affiliate, 100, &[91]), 0).is_empty());
    assert!(deliver(&mut s, &c, 1, subscriber(SubscriberKind::Other(99), 100, &[91]), 0).is_empty());
}

#[test]
fn mobile_stations_are_logged() {
    let (mut s, c) = (server(&[ClientMode::Terminal, BS]), Config::default());
    let a = deliver(&mut s, &c, 1, subscriber(SubscriberKind::Register, 100, &[]), 0);
    assert!(matches!(a[0], Action::Registration { issi: 100, registered: true }));
    let a = deliver(&mut s, &c, 1, subscriber(SubscriberKind::Deregister, 100, &[]), 0);
    assert!(matches!(a[0], Action::Registration { issi: 100, registered: false }));
    assert!(deliver(&mut s, &c, 2, subscriber(SubscriberKind::Register, 101, &[]), 0).is_empty());
}

// ---- SDS ----

fn header(id: u128, source: u32, destination: u32) -> BrewMessage {
    BrewMessage::CallControl {
        state: CallState::ShortTransfer,
        id,
        payload: CallPayload::ShortTransfer { source, destination },
    }
}

#[test]
fn sds_goes_to_the_destination_and_the_report_back() {
    let (mut s, c) = (server(&[BS, BS, BS]), Config::default());
    deliver(&mut s, &c, 2, subscriber(SubscriberKind::Register, 200, &[]), 0);
    let a = deliver(&mut s, &c, 1, header(7, 100, 200), 1);
    assert_eq!(forwarded(&a), vec![2]);
    assert!(matches!(a[1], Action::Sds { id: 7, source: 100, destination: 200 }));
    assert_eq!(forwarded(&deliver(&mut s, &c, 1, frame(FrameKind::SdsTransfer, 7), 2)), vec![2]);
    assert!(deliver(&mut s, &c, 3, frame(FrameKind::SdsTransfer, 7), 2).is_empty());
    assert!(deliver(&mut s, &c, 3, frame(FrameKind::SdsReport, 7), 2).is_empty());
    let a = deliver(&mut s, &c, 2, frame(FrameKind::SdsReport, 7), 3);
    assert_eq!(forwarded(&a), vec![1]);
    assert!(matches!(a[1], Action::SdsReport { id: 7 }));
    // One target: the transaction is complete.
    assert!(deliver(&mut s, &c, 2, frame(FrameKind::SdsReport, 7), 3).is_empty());
}

#[test]
fn sds_to_a_group_is_reported_by_each() {
    let (mut s, c) = (server(&[BS, BS, BS]), Config::default());
    for (client, issi) in [(2u128, 200), (3, 300)] {
        deliver(&mut s, &c, client, subscriber(SubscriberKind::Affiliate, issi, &[90]), 0);
    }
    assert_eq!(forwarded(&deliver(&mut s, &c, 1, header(7, 100, 90), 1)), vec![2, 3]);
    for client in [2u128, 3, 2] {
        assert_eq!(forwarded(&deliver(&mut s, &c, client, frame(FrameKind::SdsReport, 7), 3)), vec![1]);
    }
}

#[test]
fn sds_routes_are_forgotten_after_their_time() {
    let (mut s, c) = (server(&[BS, BS, BS]), Config::default());
    for (client, issi) in [(2u128, 200), (3, 300)] {
        deliver(&mut s, &c, client, subscriber(SubscriberKind::Affiliate, issi, &[90]), 0);
    }
    deliver(&mut s, &c, 1, header(7, 100, 90), 1_000);
    deliver(&mut s, &c, 1, header(8, 100, 90), 30_000);
    purge_ephemeral(&mut s, 60 * SEC, at(60_999));
    assert_eq!(forwarded(&deliver(&mut s, &c, 2, frame(FrameKind::SdsReport, 7), 60_999)), vec![1]);
    purge_ephemeral(&mut s, 60 * SEC, at(61_000));
    assert!(deliver(&mut s, &c, 3, frame(FrameKind::SdsReport, 7), 61_000).is_empty());
    assert_eq!(forwarded(&deliver(&mut s, &c, 3, frame(FrameKind::SdsReport, 8), 61_000)), vec![1]);
    assert_eq!((s.sds_routes.len(), s.clients.len(), s.subscribers.len()), (1, 3, 2));
}

#[test]
fn packet_finds_no_stale_route() {
    let (mut s, c) = (server(&[BS, BS, BS]), Config::default());
    for (client, issi) in [(2u128, 200), (3, 300)] {
        deliver(&mut s, &c, client, subscriber(SubscriberKind::Affiliate, issi, &[90]), 0);
    }
    deliver(&mut s, &c, 1, header(7, 100, 90), 1_000);
    assert_eq!(forwarded(&deliver(&mut s, &c, 2, frame(FrameKind::SdsReport, 7), 60_999)), vec![1]);
    assert!(deliver(&mut s, &c, 3, frame(FrameKind::SdsReport, 7), 61_000).is_empty());
    assert_eq!(s.sds_routes.len(), 0);
    // A malformed packet purges too.
    deliver(&mut s, &c, 1, header(8, 100, 90), 70_000);
    assert!(handle_packet(&mut s, &c, 1, None, &[], &[], 60 * SEC, at(130_000)).is_empty());
    assert_eq!(s.sds_routes.len(), 0);
}

#[test]
fn undeliverable_sds_is_still_attributed() {
    let (mut s, c) = (server(&[BS]), Config::default());
    let raw = framed(&LIP);
    let fix = Some(LatLon { lat: 1, lon: 2 });
    let p = |s: &mut BrewState, m| handle_packet(s, &c, 1, Some((m, 0)), &raw, &[fix], 60 * SEC, at(1));
    let a = p(&mut s, header(7, 100, 999));
    assert_eq!(a.len(), 1);
    assert!(matches!(a[0], Action::Position { issi: 100, .. }));
    let a = p(&mut s, frame(FrameKind::SdsTransfer, 7));
    assert!(matches!(a[1], Action::Position { issi: 100, .. }));
    // Without a header the position is noted under the ISSI 0.
    let a = p(&mut s, frame(FrameKind::SdsTransfer, 8));
    assert!(matches!(a[0], Action::Position { issi: 0, .. }));
}

// ---- positions ----

// Real LIP beacon captured from a Basestation (ISSI 90), Athens.
const LIP: [u8; 11] = [0x0a, 0x01, 0x0e, 0x62, 0x39, 0xb0, 0x43, 0x9a, 0xff, 0xe0, 0x20];

fn framed(payload: &[u8]) -> Vec<u8> {
    // 20-byte Brew frame header (contents irrelevant to the scan) + SDS body.
    let mut v = vec![0u8; 20];
    v.extend_from_slice(payload);
    v
}

fn fix(lat: f64, lon: f64) -> LatLon {
    LatLon { lat: lat.to_bits(), lon: lon.to_bits() }
}

/// The position, where the decoders accept the candidates that `accept` does.
fn extract(raw: &[u8], accept: impl Fn(Candidate) -> Option<LatLon>) -> Option<(f64, f64, String)> {
    let decoded: Vec<Option<LatLon>> = position_candidates(raw).into_iter().map(accept).collect();
    extract_sds_position(raw, &decoded)
        .map(|p| (f64::from_bits(p.at.lat), f64::from_bits(p.at.lon), p.note))
}

#[test]
fn decodes_mth850_long_report_from_framed_sds() {
    let hex = "f2 01 2f 5a 58 59 e4 8e 4a 45 bf 8a b6 3c 8a be 54 b6 c8 00 83 00 11 80 13 13 23 2f 34 1f 5c 77 6d ea 66 36 08 68 e3 10 e6 16 c1 56 60";
    let raw: Vec<u8> = hex.split_whitespace()
        .map(|b| u8::from_str_radix(b, 16).unwrap()).collect();
    let (lat, lon, note) = extract(&raw, |c| match c {
        Candidate::Long(20) => Some(fix(37.9917, 23.7640)),
        _ => None,
    }).expect("should decode long report");
    assert!((lat - 37.9917).abs() < 0.01, "lat={lat}");
    assert!((lon - 23.7640).abs() < 0.01, "lon={lon}");
    assert!(note.contains("long"));
}

#[test]
fn decodes_lip_from_framed_sds() {
    let raw = framed(&LIP);
    let (lat, lon, note) = extract(&raw, |c| match c {
        Candidate::Short(20) => Some(fix(37.9920, 23.7642)),
        _ => None,
    }).expect("should decode");
    assert!((lat - 37.9920).abs() < 0.01, "lat={lat}");
    assert!((lon - 23.7642).abs() < 0.01, "lon={lon}");
    assert!(note.contains("LIP"));
}

#[test]
fn decodes_lip_with_sds_tl_header_prefix() {
    let mut payload = vec![0x82, 0x00, 0x00, 0x00];
    payload.extend_from_slice(&LIP);
    let raw = framed(&payload);
    assert!(extract(&raw, |c| match c {
        Candidate::Short(24) => Some(fix(37.9920, 23.7642)),
        _ => None,
    }).is_some());
}

#[test]
fn ignores_non_position_sds() {
    let raw = framed(b"\x01hello there");
    assert_eq!(position_candidates(&raw), vec![Candidate::Text]);
    assert!(extract(&raw, |_| None).is_none());
}

#[test]
fn decodes_textual_beacon() {
    let raw = framed(b"\x0144.4353, 26.1092");
    assert_eq!(body_as_text(&raw), " 44.4353, 26.1092");
    let (lat, lon, note) = extract(&raw, |c| match c {
        Candidate::Text => Some(fix(44.4353, 26.1092)),
        _ => None,
    }).expect("text decode");
    assert!((lat - 44.4353).abs() < 0.01 && (lon - 26.1092).abs() < 0.01);
    assert_eq!(note, "44.4353, 26.1092");
}

#[test]
fn candidates_come_long_short_text() {
    let raw = framed(&[0x0a, 0x83, 0x0a, 0x83]);
    assert_eq!(
        position_candidates(&raw),
        vec![
            Candidate::Long(21),
            Candidate::Long(23),
            Candidate::Short(20),
            Candidate::Short(22),
            Candidate::Text
        ]
    );
    // A frame without content is scanned whole.
    assert_eq!(position_candidates(&[0x0a]), vec![Candidate::Short(0), Candidate::Text]);
    assert!(sds_is_lip(&raw) && sds_is_lip(&[0x83]) && !sds_is_lip(&framed(b"abc")));
    let mut in_header = framed(b"abc");
    in_header[3] = 0x0a;
    assert!(!sds_is_lip(&in_header));
}

// ---- other messages ----

#[test]
fn malformed_and_unknown_packets_are_dropped() {
    let (mut s, c) = (server(&[BS]), Config::default());
    assert!(handle_packet(&mut s, &c, 1, None, &[1], &[], 60 * SEC, at(0)).is_empty());
    assert!(deliver(&mut s, &c, 1, BrewMessage::Error, 0).is_empty());
    assert!(deliver(&mut s, &c, 1, control(CallState::Other(200), 1), 0).is_empty());
    let service = |rssi| BrewMessage::Service { rssi, json: "{}".to_string() };
    assert!(deliver(&mut s, &c, 1, service(false), 0).is_empty());
    assert!(matches!(deliver(&mut s, &c, 1, service(true), 0)[0], Action::Rssi { .. }));
}

#[test]
fn version_is_only_raised() {
    let (mut s, c) = (server(&[BS]), Config::default());
    for (shown, want) in [(0u8, 0u8), (1, 1), (0, 1)] {
        handle_packet(&mut s, &c, 1, Some((BrewMessage::Error, shown)), &[], &[], 60 * SEC, at(0));
        assert_eq!(s.clients.get(&1).unwrap().version, want);
    }
}

// ---- sweep ----

fn call(started_at: u128, kind: CallKind, owner: u128, last_activity_ms: u64) -> ActiveCall {
    ActiveCall {
        kind,
        owner,
        source_issi: 1001,
        destination: 90,
        priority: 0,
        peers: KeySet::new(),
        started_at,
        last_activity_ms,
    }
}

#[test]
fn finds_only_calls_at_or_past_the_limit() {
    let now = Now { epoch_ms: 1_000_000, mono_ns: 1_000 * SEC };
    let mut calls: Table<u128, ActiveCall> = Table::new();
    let old_id = 11;
    calls.insert(old_id, call(now.mono_ns - 120 * SEC, CallKind::Private, 1, now.epoch_ms));
    let fresh_id = 12;
    calls.insert(fresh_id, call(now.mono_ns - 5 * SEC, CallKind::Group, 2, now.epoch_ms));

    let expired = expired_calls(&calls, 60 * SEC, now);
    assert_eq!(expired.len(), 1);
    assert_eq!(expired[0].0, old_id);
    assert_eq!(expired_calls(&calls, 120 * SEC, now).len(), 1);
    assert!(expired_calls(&calls, 0, now).is_empty());
}

#[test]
fn idle_filter_skips_active_and_bridged_calls() {
    let now = Now { epoch_ms: 1_000_000, mono_ns: 1_000 * SEC };
    let mut calls: Table<u128, ActiveCall> = Table::new();
    let stale = call(now.mono_ns, CallKind::Group, 1, now.epoch_ms - 120_000);
    let stale_id = 11;
    let bridged = call(now.mono_ns, CallKind::Private, 2, 0);
    let bridged_owner = bridged.owner;
    calls.insert(stale_id, stale);
    calls.insert(12, bridged);
    calls.insert(13, call(now.mono_ns, CallKind::Group, 3, now.epoch_ms));

    let mut clients: KeySet<u128> = KeySet::new();
    clients.insert(bridged_owner);
    let idle = idle_calls(&calls, 60_000, &clients, now);
    assert_eq!(idle.len(), 1);
    assert_eq!(idle[0].0, stale_id);
    assert!(idle_calls(&calls, 0, &KeySet::new(), now).is_empty());
}

#[test]
fn empty_when_nothing_exceeds_limit() {
    let now = Now { epoch_ms: 1_000_000, mono_ns: 1_000 * SEC };
    let mut calls: Table<u128, ActiveCall> = Table::new();
    calls.insert(11, call(now.mono_ns, CallKind::Private, 1, now.epoch_ms));
    assert!(expired_calls(&calls, 60 * SEC, now).is_empty());
}

#[test]
fn sweep_ends_long_calls_before_silent_ones() {
    let (mut s, mut c) = (server(&[BS]), Config::default());
    c.max_call_duration_seconds = 100;
    c.call_inactivity_timeout_seconds = 10;
    s.calls.insert(1, call(90 * SEC, CallKind::Private, 1, 0));
    s.calls.insert(2, call(0, CallKind::Private, 1, 100_000));
    s.calls.insert(3, call(90 * SEC, CallKind::Private, 1, 0));
    s.calls.insert(4, call(0, CallKind::Group, 1, 0));
    s.calls.insert(5, call(90 * SEC, CallKind::Group, 1, 100_000));
    let a = run_call_duration_sweep(&mut s, &c, at(100_000));
    let ended: Vec<u128> = a
        .iter()
        .filter_map(|x| match x {
            Action::CallEnded { id } => Some(*id),
            _ => None,
        })
        .collect();
    assert_eq!(ended.len(), 4);
    assert!(ended[..2].contains(&2) && ended[..2].contains(&4));
    assert!(ended[2..].contains(&1) && ended[2..].contains(&3));
}

#[test]
fn sweep_ends_calls_like_a_hang_up() {
    let (mut s, mut c) = (server(&[BS, BS]), Config::default());
    c.max_call_duration_seconds = 100;
    c.call_inactivity_timeout_seconds = 10;
    deliver(&mut s, &c, 2, subscriber(SubscriberKind::Register, 200, &[]), 0);
    deliver(&mut s, &c, 1, group_tx(7, 100, 90, 3), 0);
    deliver(&mut s, &c, 1, setup(8, 100, 200, ""), 95_000);
    assert!(run_call_duration_sweep(&mut s, &c, at(9_999)).is_empty());
    // The group call is both too long and silent, and is ended once.
    let a = run_call_duration_sweep(&mut s, &c, at(100_000));
    assert_eq!(a.len(), 3);
    match &a[0] {
        Action::Send { to, frame: Frame::CallCause { state: CallState::GroupIdle, call: 7, cause: 0 } } => {
            assert_eq!(to.to_vec(), vec![2]);
        },
        _ => panic!("told as by a hang-up"),
    }
    assert!(matches!(a[1], Action::CallEnded { id: 7 }));
    assert!(s.calls.get(&7).is_none() && s.group_floor.get(&90).is_none());
    let a = run_call_duration_sweep(&mut s, &c, at(105_000));
    assert!(matches!(a[0], Action::Send { frame: Frame::CallCause { state: CallState::Release, call: 8, cause: 0 }, .. }));
    // A call of a virtual client is not judged by its silence.
    s.clients.insert(9, Client { mode: ClientMode::Terminal, remote_addr: None, version: 1 });
    s.calls.insert(10, call(0, CallKind::Private, 9, 0));
    c.max_call_duration_seconds = 0;
    assert!(run_call_duration_sweep(&mut s, &c, at(1_000_000)).is_empty());
}
