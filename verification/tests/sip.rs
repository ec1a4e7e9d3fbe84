use brew_server::addr::SocketAddress;
use brew_server::brew::{
    Action, BrewState, CallKind, CallState, Client, ClientMode, Frame, Now, Subscriber,
};
use brew_server::auth::{digest_header, digest_input, digest_secret};
use brew_server::bridge::{BrewBridge, BrewCallLink};
use brew_server::calls::{
    call_duration_sweep, handle_request, handle_response, request_with, SipResponse,
};
use brew_server::config::{
    Config, RouteEndpoint, SipExtensionConfig, SipTrunkConfig, TrunkDirection, VoiceRouteConfig,
};
use brew_server::dispatch::{dispatch, legs_needed};
use brew_server::invite::{
    media_address, terminate_to_extension, terminate_to_trunk, Invitation,
};
use brew_server::message::{
    Credentials, HeaderValue, Method, SipMessage, SipRequest, StartLine,
};
use brew_server::registrar::{handle_register, register_with};
use brew_server::routing::{resolve, CallOrigin};
use brew_server::rtp::{AllocStep, LegAlloc, RtpLeg};
use brew_server::sip_state::{LegEndpoint, SipState, TrunkStatus};
use brew_server::startup::run;
use brew_server::table::{KeySet, Table};
use brew_server::transport::{SipAction, SipTransport, Tokens};
use brew_server::trunk_register::{
    register_once, RegisterReply, RegisterStep, TrunkRegistration,
};
use brew_server::watcher::{restarts, Change, ConfigWatcher};

// ---- helpers ----

fn at(ms: u64) -> Now {
    Now { epoch_ms: ms, mono_ns: ms as u128 * 1_000_000 }
}

fn addr(last: u32, port: u16) -> SocketAddress {
    SocketAddress::V4 { ip: 0x0A00_0000 + last, port }
}

fn tokens() -> Tokens {
    Tokens {
        tag: "TAG".into(),
        nonce: "NONCE".into(),
        branch: "BRANCH".into(),
        local_tag: "LOCAL".into(),
        dialog_tag: "DTAG".into(),
        dialog_branch: "DBRANCH".into(),
        call: "CALL".into(),
        brew_call: 77,
        client: 99,
    }
}

fn bridge() -> BrewBridge {
    let state = SipState::new(true, "0.0.0.0:5060".into(), "brew-server".into());
    BrewBridge::new(SipTransport::new(state, "192.0.2.1".into(), true))
}

fn extension(password: &str, allow_outbound: bool) -> SipExtensionConfig {
    SipExtensionConfig { password: password.into(), allow_outbound, ..Default::default() }
}

fn route(pattern: &str, to: RouteEndpoint) -> VoiceRouteConfig {
    VoiceRouteConfig { match_pattern: pattern.into(), to: Some(to), ..Default::default() }
}

fn config() -> Config {
    let mut c = Config::default();
    c.sip.extensions.insert("1001".into(), extension("secret", true));
    c.sip.extensions.insert("1002".into(), extension("", true));
    c.sip.extensions.insert("1003".into(), extension("", false));
    c.sip.trunks.insert("pbx".into(), SipTrunkConfig {
        direction: TrunkDirection::Outbound,
        remote_host: "10.0.0.9:5060".into(),
        username: "brew".into(),
        password: "hunter2".into(),
        ..Default::default()
    });
    c.sip.routes = vec![
        route("10*", RouteEndpoint::SipExtension { user: "1002".into() }),
        VoiceRouteConfig { strip_prefix: "9".into(), ..route("9*", RouteEndpoint::SipTrunk { trunk: "pbx".into(), number: "".into() }) },
        route("200", RouteEndpoint::BrewPrivate { issi: 200 }),
        route("300", RouteEndpoint::BrewGroup { gssi: 90 }),
        route("404", RouteEndpoint::SipTrunk { trunk: "nobody".into(), number: "1".into() }),
    ];
    c
}

const SDP: &str = "v=0\r\nc=IN IP4 10.0.0.5\r\nm=audio 40000 RTP/AVP 8 101\r\n";

fn request(method: Method, from: &str, to: &str) -> SipRequest {
    SipRequest {
        method,
        vias: vec!["SIP/2.0/UDP a".into(), "SIP/2.0/UDP b".into()],
        from: Some(format!("<sip:{from}@h>;tag=f")),
        to: Some(format!("<sip:{to}@h>")),
        to_tagged: false,
        call_id: Some("cid".into()),
        cseq: Some("7 X".into()),
        contact: Some(format!("<sip:{from}@10.0.0.5>")),
        contact_uri: format!("sip:{from}@10.0.0.5"),
        user_agent: Some("ua".into()),
        expires: None,
        to_user: Some(to.into()),
        from_user: Some(from.into()),
        credentials: None,
        body: SDP.as_bytes().to_vec(),
    }
}

fn text(m: &SipMessage, name: &str) -> Option<String> {
    m.headers.iter().find(|h| h.name == name).map(|h| match &h.value {
        HeaderValue::Text(t) => t.clone(),
        _ => panic!("no text"),
    })
}

fn sent(actions: &[SipAction]) -> Vec<(&SipMessage, SocketAddress)> {
    actions
        .iter()
        .filter_map(|a| match a {
            SipAction::Send { message, to } => Some((message, *to)),
            _ => None,
        })
        .collect()
}

fn code(m: &SipMessage) -> u16 {
    match &m.start {
        StartLine::Response { code, .. } => *code,
        _ => panic!("a request"),
    }
}

fn codes(actions: &[SipAction]) -> Vec<u16> {
    sent(actions).iter().map(|(m, _)| code(m)).collect()
}

fn leg(port: u16) -> RtpLeg {
    RtpLeg { local_port: port, remote: None, last_rx_ms: 0 }
}

fn brew() -> BrewState {
    let mut s = BrewState::new();
    for id in [1u128, 2] {
        s.clients.insert(id, Client {
            mode: ClientMode::Basestation,
            remote_addr: Some(addr(1, 1)),
            version: 1,
        });
    }
    s.subscribers.insert(200, Subscriber {
        client_id: 2,
        groups: KeySet::new(),
        mode: ClientMode::Basestation,
    });
    s
}

const PEER: SocketAddress = SocketAddress::V4 { ip: 0x0A00_0005, port: 5060 };

// ---- responses and nonces ----

#[test]
fn response_takes_over_the_mandatory_headers() {
    let t = bridge().transport;
    let req = request(Method::Options, "1001", "1002");
    let m = t.base_response_pub(&req, 200, "OK");
    let names: Vec<&str> = m.headers.iter().map(|h| h.name.as_str()).collect();
    assert_eq!(names, vec!["Via", "Via", "From", "To", "Call-ID", "CSeq", "Server"]);
    let to = text(&m, "To").unwrap();
    assert!(to.starts_with("<sip:1002@h>;tag="));
    assert_eq!(to.len(), "<sip:1002@h>;tag=".len() + 12);
    assert_eq!(text(&m, "Server").unwrap(), "brew-server");
    let m = t.base_response_pub(&req, 100, "Trying");
    assert_eq!(text(&m, "To").unwrap(), "<sip:1002@h>");
    let mut tagged = request(Method::Bye, "1001", "1002");
    tagged.to_tagged = true;
    assert_eq!(text(&t.base_response_pub(&tagged, 200, "OK"), "To").unwrap(), "<sip:1002@h>");
}

#[test]
fn nonce_roundtrip() {
    let mut t = bridge().transport;
    let n = t.new_nonce(at(0));
    assert!(t.nonce_valid(&n, at(0)));
    assert!(!t.nonce_valid("bogus", at(0)));
}

#[test]
fn nonce_is_good_for_two_minutes() {
    let mut t = bridge().transport;
    let n = t.new_nonce(at(1_000));
    assert_eq!(n.len(), 32);
    assert!(t.nonce_valid(&n, at(120_999)));
    assert!(!t.nonce_valid(&n, at(121_000)));
    // It was forgotten.
    assert!(!t.nonce_valid(&n, at(1_000)));
}

// ---- registration ----

#[test]
fn registration_is_challenged_and_then_taken() {
    let (mut b, c) = (bridge(), config());
    let mut req = request(Method::Register, "1001", "1001");
    let a = register_with(&mut b.transport, &c, PEER, &req, at(0), &tokens());
    assert_eq!(codes(&a), vec![401]);
    match &sent(&a)[0].0.headers.last().unwrap().value {
        HeaderValue::Challenge { realm, nonce } => {
            assert_eq!((realm.as_str(), nonce.as_str()), ("brew-server", "NONCE"));
        },
        _ => panic!("a challenge"),
    }
    assert!(b.transport.state.lookup_registration("1001", 10).is_none());

    req.credentials = Some(Credentials { nonce: "NONCE".into(), verified: false });
    assert_eq!(codes(&register_with(&mut b.transport, &c, PEER, &req, at(1), &tokens())), vec![401]);
    req.credentials = Some(Credentials { nonce: "other".into(), verified: true });
    assert_eq!(codes(&register_with(&mut b.transport, &c, PEER, &req, at(1), &tokens())), vec![401]);

    req.credentials = Some(Credentials { nonce: "NONCE".into(), verified: true });
    req.expires = Some(60);
    let a = register_with(&mut b.transport, &c, PEER, &req, at(2), &tokens());
    assert_eq!(codes(&a), vec![200]);
    let ok = sent(&a)[0].0;
    assert_eq!(text(ok, "Contact").unwrap(), "<sip:1001@10.0.0.5>;expires=60");
    assert_eq!(text(ok, "Expires").unwrap(), "60");
    let r = b.transport.state.lookup_registration("1001", 10).unwrap();
    assert_eq!(r.contact, "sip:1001@10.0.0.5");
    assert!(r.source == PEER && r.authenticated);
    assert_eq!((r.expires_at_ms, r.registered_at_ms, r.user_agent.as_str()), (60_002, 2, "ua"));

    req.expires = Some(0);
    let a = register_with(&mut b.transport, &c, PEER, &req, at(3), &tokens());
    assert_eq!(text(sent(&a)[0].0, "Contact").unwrap(), "<sip:1001@10.0.0.5>;expires=0");
    assert_eq!(text(sent(&a)[0].0, "Expires"), None);
    assert!(b.transport.state.lookup_registration("1001", 10).is_none());
}

#[test]
fn registrations_that_are_refused() {
    let (mut b, c) = (bridge(), config());
    let mut req = request(Method::Register, "x", "nobody");
    assert_eq!(codes(&handle_register(&mut b.transport, &c, PEER, &req, at(0))), vec![404]);
    req.to_user = None;
    assert_eq!(codes(&handle_register(&mut b.transport, &c, PEER, &req, at(0))), vec![400]);
}

#[test]
fn extension_without_a_password_registers_for_the_default_time() {
    let (mut b, c) = (bridge(), config());
    let mut req = request(Method::Register, "1002", "1002");
    req.contact = None;
    let a = handle_register(&mut b.transport, &c, PEER, &req, at(5));
    assert_eq!(text(sent(&a)[0].0, "Contact"), None);
    assert_eq!(text(sent(&a)[0].0, "Expires").unwrap(), "3600");
    let r = b.transport.state.lookup_registration("1002", 10).unwrap();
    assert_eq!(r.expires_at_ms, 3_600_005);
    assert!(!r.authenticated);
}

#[test]
fn digest_is_held_against_the_extension_of_the_request() {
    let c = config();
    let user = |u: &str| Some(u.to_string());
    let secret = |m: Method, to, from| digest_secret(&c, &m, &to, &from);
    assert_eq!(secret(Method::Register, user("1001"), user("1002")), user("secret"));
    assert_eq!(secret(Method::Register, user("1002"), user("1001")), None);
    assert_eq!(secret(Method::Register, None, user("1001")), None);
    assert_eq!(secret(Method::Invite, user("1002"), user("1001")), user("secret"));
    assert_eq!(secret(Method::Invite, user("1001"), user("9999")), None);
    assert_eq!(secret(Method::Invite, user("1001"), None), None);
    assert_eq!(secret(Method::Bye, user("1001"), user("1001")), None);
}

#[test]
fn digest_is_read_from_the_header_of_the_method() {
    let (a, p) = (Some("A".to_string()), Some("P".to_string()));
    assert_eq!(digest_header(&Method::Register, a.clone(), p.clone()), a);
    assert_eq!(digest_header(&Method::Register, None, p.clone()), None);
    assert_eq!(digest_header(&Method::Invite, a.clone(), p.clone()), a);
    assert_eq!(digest_header(&Method::Invite, None, p.clone()), p);
    assert_eq!(digest_header(&Method::Options, a.clone(), p.clone()), None);
    let user = Some("1001".to_string());
    let d = digest_input(&config(), &Method::Invite, &None, &user, None, p.clone()).unwrap();
    assert_eq!((d.header.as_str(), d.secret, d.method.as_str()), ("P", Some("secret".to_string()), "INVITE"));
    let d = digest_input(&config(), &Method::Register, &None, &user, a, p).unwrap();
    assert_eq!((d.header.as_str(), d.secret, d.method.as_str()), ("A", None, "REGISTER"));
    assert!(digest_input(&config(), &Method::Invite, &None, &user, None, None).is_none());
}

#[test]
fn methods_keep_their_names() {
    for name in ["REGISTER", "INVITE", "ACK", "BYE", "CANCEL", "OPTIONS", "INFO", ""] {
        assert_eq!(Method::of(name.to_string()).name(), name);
    }
    assert!(matches!(Method::of("INVITE".into()), Method::Invite));
    assert!(matches!(Method::of("invite".into()), Method::Other(_)));
}

// ---- routes ----

#[test]
fn first_matching_route_wins() {
    let c = config();
    let from = CallOrigin::SipExtension("1002".into());
    let find = |d: &str| resolve(&c.sip.routes, &from, d);
    assert!(matches!(find("1055"), Some((LegEndpoint::SipExtension { .. }, 0))));
    match find("99123") {
        Some((LegEndpoint::SipTrunk { trunk, number }, 1)) => {
            assert_eq!((trunk.as_str(), number.as_str()), ("pbx", "9123"));
        },
        _ => panic!("the trunk"),
    }
    assert!(matches!(find("200"), Some((LegEndpoint::BrewPrivate { issi: 200 }, 2))));
    assert!(matches!(find("300"), Some((LegEndpoint::BrewGroup { gssi: 90 }, 3))));
    assert!(find("2000").is_none());
    assert!(find("").is_none());
}

#[test]
fn routes_can_be_restricted_or_switched_off() {
    let mut any = route("*", RouteEndpoint::BrewPrivate { issi: 1 });
    any.from = Some(RouteEndpoint::SipTrunk { trunk: "pbx".into(), number: "55".into() });
    let routes = vec![any];
    let pbx = CallOrigin::SipTrunk("pbx".into());
    assert!(resolve(&routes, &pbx, "55").is_some());
    assert!(resolve(&routes, &pbx, "56").is_none());
    assert!(resolve(&routes, &CallOrigin::SipTrunk("other".into()), "55").is_none());
    assert!(resolve(&routes, &CallOrigin::BrewPrivate(5), "55").is_none());
    let mut issi = route("*", RouteEndpoint::BrewPrivate { issi: 1 });
    issi.from = Some(RouteEndpoint::BrewPrivate { issi: 5 });
    assert!(resolve(&vec![issi], &CallOrigin::BrewPrivate(5), "").is_some());
    let mut off = route("*", RouteEndpoint::BrewPrivate { issi: 1 });
    off.enabled = false;
    assert!(resolve(&vec![off], &pbx, "55").is_none());
    assert!(resolve(&vec![VoiceRouteConfig::default()], &pbx, "55").is_none());
}

// ---- INVITE ----

fn invite(b: &mut BrewBridge, c: &Config, req: &SipRequest) -> (Vec<SipAction>, Option<Invitation>) {
    request_with(b, &mut brew(), c, PEER, req, at(1_000), &tokens())
}

#[test]
fn callers_that_are_turned_away() {
    let (mut b, mut c) = (bridge(), config());
    let try_it = |b: &mut BrewBridge, c: &Config, req: &SipRequest| {
        let (a, next) = invite(b, c, req);
        assert!(next.is_none());
        codes(&a)
    };
    assert_eq!(try_it(&mut b, &c, &request(Method::Invite, "9999", "200")), vec![100, 403]);
    assert_eq!(try_it(&mut b, &c, &request(Method::Invite, "1003", "9555")), vec![100, 403]);
    assert_eq!(try_it(&mut b, &c, &request(Method::Invite, "1001", "200")), vec![100, 407]);
    assert_eq!(try_it(&mut b, &c, &request(Method::Invite, "1002", "555")), vec![100, 404]);
    let mut no_sdp = request(Method::Invite, "1002", "200");
    no_sdp.body = vec![];
    assert_eq!(try_it(&mut b, &c, &no_sdp), vec![100, 488]);
    assert_eq!(b.transport.state.snapshot().total_calls, 0);
    // Without a bridge a call to the Brew side is unavailable.
    b.transport.bridge = false;
    assert_eq!(try_it(&mut b, &c, &request(Method::Invite, "1002", "200")), vec![100, 480]);
    c.sip.routes.clear();
    assert_eq!(try_it(&mut b, &c, &request(Method::Invite, "1002", "200")), vec![100, 404]);
}

#[test]
fn authenticated_caller_is_routed() {
    let (mut b, c) = (bridge(), config());
    let mut req = request(Method::Invite, "1001", "200");
    assert_eq!(codes(&invite(&mut b, &c, &req).0), vec![100, 407]);
    req.credentials = Some(Credentials { nonce: "NONCE".into(), verified: true });
    let (a, next) = invite(&mut b, &c, &req);
    assert_eq!(codes(&a), vec![100]);
    let next = next.unwrap();
    assert_eq!(next.call_id, "cid");
    assert_eq!(next.payloads, vec![8, 101]);
    assert!(matches!(next.to, LegEndpoint::BrewPrivate { issi: 200 }));
    assert_eq!(media_address(&next.offer), "10.0.0.5:40000");
    let call = &b.transport.state.snapshot().active_calls[0];
    assert_eq!((call.state.as_str(), call.started_at_ms), ("routing", 1_000));
}

#[test]
fn extension_without_outbound_permission_is_kept_from_trunks_only() {
    let (mut b, c) = (bridge(), config());
    let (a, next) = invite(&mut b, &c, &request(Method::Invite, "1003", "9555"));
    assert_eq!(codes(&a), vec![100, 403]);
    assert!(next.is_none());
    assert_eq!(b.transport.state.snapshot().total_calls, 0);
    let (a, next) = invite(&mut b, &c, &request(Method::Invite, "1003", "1002"));
    assert_eq!(codes(&a), vec![100]);
    assert!(matches!(next.unwrap().to, LegEndpoint::SipExtension { .. }));
    let (a, next) = invite(&mut b, &c, &request(Method::Invite, "1003", "200"));
    assert_eq!(codes(&a), vec![100]);
    assert!(matches!(next.unwrap().to, LegEndpoint::BrewPrivate { issi: 200 }));
    let (a, next) = invite(&mut b, &c, &request(Method::Invite, "1002", "9555"));
    assert_eq!(codes(&a), vec![100]);
    assert!(matches!(next.unwrap().to, LegEndpoint::SipTrunk { .. }));
}

#[test]
fn peer_of_a_trunk_needs_no_credentials() {
    let (mut b, c) = (bridge(), config());
    let mut t = Table::new();
    t.insert("pbx".to_string(), PEER);
    let mut on = config();
    on.sip.enabled = true;
    let start = run(&on, &addr(0, 5060), "10.0.0.0:5060", "10.0.0.0", "", &t, 0).unwrap();
    b.transport.state = start.transport.state;
    let (a, next) = invite(&mut b, &c, &request(Method::Invite, "anyone", "300"));
    assert_eq!(codes(&a), vec![100]);
    assert!(matches!(next.unwrap().to, LegEndpoint::BrewGroup { gssi: 90 }));
    assert_eq!(b.transport.state.snapshot().trunks[0].active_calls, 1);
}

fn routed(b: &mut BrewBridge, c: &Config, to: &str) -> (SipRequest, Invitation) {
    let req = request(Method::Invite, "1002", to);
    let (_, next) = invite(b, c, &req);
    (req, next.unwrap())
}

#[test]
fn call_to_an_extension_is_put_through() {
    let (mut b, c) = (bridge(), config());
    let reg = request(Method::Register, "1002", "1002");
    handle_register(&mut b.transport, &c, addr(7, 5060), &reg, at(0));
    let (req, call) = routed(&mut b, &c, "1055");
    let a = terminate_to_extension(
        &mut b.transport, PEER, "10.0.0.5:5060", &req, "1002", &call, Some(addr(5, 40000)),
        Some((leg(16000), leg(16002))), at(1_500), &tokens(),
    );
    match &a[0] {
        SipAction::StartRelay { call_id, a, b } => {
            assert_eq!(call_id, "cid");
            assert!(a.remote == Some(addr(5, 40000)) && b.remote.is_none());
        },
        _ => panic!("a relay"),
    }
    let m = sent(&a);
    assert_eq!(code(m[0].0), 200);
    assert!(m[0].1 == PEER && m[1].1 == addr(7, 5060));
    assert_eq!(text(m[0].0, "Contact").unwrap(), "<sip:brew@192.0.2.1>");
    assert!(String::from_utf8(m[0].0.body.clone()).unwrap().contains("m=audio 16000 RTP/AVP 8 101\r\n"));
    let inv = m[1].0;
    assert!(matches!(&inv.start, StartLine::Request { method: Method::Invite, uri } if uri == "sip:1002@10.0.0.5"));
    assert_eq!(text(inv, "Via").unwrap(), "SIP/2.0/UDP 192.0.2.1;branch=z9hG4bKBRANCH");
    assert_eq!(text(inv, "From").unwrap(), "<sip:1002@192.0.2.1>;tag=LOCAL");
    assert_eq!(text(inv, "To").unwrap(), "<sip:1002@10.0.0.5>");
    assert_eq!(text(inv, "Call-ID").unwrap(), "cid");
    assert_eq!(text(inv, "CSeq").unwrap(), "1 INVITE");
    assert!(String::from_utf8(inv.body.clone()).unwrap().contains("m=audio 16002 "));
    let s = b.transport.state.snapshot();
    assert_eq!(s.active_calls[0].answered_at_ms, Some(1_500));
    assert_eq!((s.active_calls[0].rtp_a_port, s.active_calls[0].rtp_b_port), (Some(16000), Some(16002)));

    // A BYE ends it all.
    let (a, _) = request_with(&mut b, &mut brew(), &c, PEER, &request(Method::Bye, "1002", "1055"), at(2_000), &tokens());
    assert!(matches!(&a[0], SipAction::AbortRelay { call_id } if call_id == "cid"));
    assert_eq!(codes(&a), vec![200]);
    assert_eq!(b.transport.state.snapshot().active_calls.len(), 0);
    let (a, _) = request_with(&mut b, &mut brew(), &c, PEER, &request(Method::Cancel, "1002", "1055"), at(2_000), &tokens());
    assert_eq!((a.len(), codes(&a)), (1, vec![200]));
}

#[test]
fn call_to_an_extension_that_fails() {
    let (mut b, c) = (bridge(), config());
    let (req, call) = routed(&mut b, &c, "1055");
    let t = &mut b.transport;
    let a = terminate_to_extension(t, PEER, "10.0.0.5:5060", &req, "1002", &call, None, None, at(0), &tokens());
    assert_eq!(codes(&a), vec![480]);
    assert_eq!(t.state.snapshot().active_calls.len(), 0);
    handle_register(t, &c, addr(7, 5060), &request(Method::Register, "1002", "1002"), at(0));
    let a = terminate_to_extension(t, PEER, "10.0.0.5:5060", &req, "1002", &call, None, None, at(0), &tokens());
    assert_eq!(codes(&a), vec![500]);
    // The binding was for an hour.
    let legs = Some((leg(16000), leg(16002)));
    let a = terminate_to_extension(t, PEER, "10.0.0.5:5060", &req, "1002", &call, None, legs, at(3_600_000), &tokens());
    assert_eq!(codes(&a), vec![480]);
}

fn byes(actions: &[SipAction]) -> Vec<(String, String, String, SocketAddress)> {
    let of = |m: &SipMessage, name| text(m, name).unwrap();
    sent(actions)
        .iter()
        .map(|(m, to)| match &m.start {
            StartLine::Request { method: Method::Bye, uri } => (uri.clone(), of(m, "From"), of(m, "To"), *to),
            _ => panic!("a BYE"),
        })
        .collect()
}

#[test]
fn swept_relay_sends_a_bye_to_both_peers() {
    let (mut b, c) = (bridge(), config());
    handle_register(&mut b.transport, &c, addr(7, 5060), &request(Method::Register, "1002", "1002"), at(0));
    let (req, call) = routed(&mut b, &c, "1055");
    let legs = (Some(leg(16000)), Some(leg(16002)));
    dispatch(
        &mut b, &mut brew(), &c, PEER, "10.0.0.5:5060", &req, &call, None, None, legs.0, legs.1, at(1_000), &tokens(),
    );
    assert!(call_duration_sweep(&mut b, &mut brew(), 2, 0, at(2_999)).is_empty());
    let a = call_duration_sweep(&mut b, &mut brew(), 2, 0, at(3_000));
    assert!(matches!(&a[0], SipAction::AbortRelay { call_id } if call_id == "cid"));
    assert_eq!(a.len(), 3);
    let got = byes(&a);
    let caller = ("sip:1002@10.0.0.5".to_string(), "<sip:1055@h>;tag=TAG".to_string(), "<sip:1002@h>;tag=f".to_string(), PEER);
    assert!(got[0] == caller);
    let callee = (
        "sip:1002@10.0.0.5".to_string(),
        "<sip:1002@192.0.2.1>;tag=LOCAL".to_string(),
        "<sip:1002@10.0.0.5>".to_string(),
        addr(7, 5060),
    );
    assert!(got[1] == callee);
    assert_eq!(text(sent(&a)[1].0, "CSeq").unwrap(), "2 BYE");
    assert_eq!(b.transport.state.snapshot().active_calls.len(), 0);
    assert!(call_duration_sweep(&mut b, &mut brew(), 2, 0, at(9_000)).is_empty());
}

#[test]
fn caller_without_a_contact_gets_the_bye_at_its_address() {
    let (mut b, c) = (bridge(), config());
    let (mut req, call) = routed(&mut b, &c, "9123");
    req.contact = None;
    let put = |b: &mut BrewBridge, req: &SipRequest| {
        dispatch(
            b, &mut brew(), &c, PEER, "10.0.0.5:5060", req, &call, Some(addr(9, 5060)), None, Some(leg(16000)),
            Some(leg(16002)), at(1_000), &tokens(),
        );
        byes(&call_duration_sweep(b, &mut brew(), 1, 0, at(2_000)))
    };
    let got = put(&mut b, &req);
    assert_eq!(got.len(), 2);
    assert_eq!(got[0].0, "sip:10.0.0.5:5060");
    assert_eq!((got[1].0.as_str(), got[1].1.as_str()), ("sip:123@10.0.0.9", "<sip:brew@192.0.2.1>;tag=LOCAL"));
    // Of a caller without a From header no dialog is known.
    routed(&mut b, &c, "9123");
    req.from = None;
    assert_eq!(put(&mut b, &req).len(), 1);
}

#[test]
fn legs_are_asked_for_where_they_are_needed() {
    let (mut b, mut c, mut s) = (bridge(), config(), brew());
    let reg = request(Method::Register, "1002", "1002");
    let needed = |b: &BrewBridge, s: &BrewState, c: &Config, to: LegEndpoint, configured, ms| {
        let (_, mut call) = routed(&mut bridge(), &config(), "200");
        call.to = to;
        legs_needed(b, s, c, &call, configured, at(ms))
    };
    let ext = || LegEndpoint::SipExtension { aor: "1002".into() };
    assert_eq!(needed(&b, &s, &c, ext(), None, 0), 0);
    handle_register(&mut b.transport, &c, addr(7, 5060), &reg, at(0));
    assert_eq!(needed(&b, &s, &c, ext(), None, 3_599_999), 2);
    assert_eq!(needed(&b, &s, &c, ext(), None, 3_600_000), 0);
    let trunk = |t: &str| LegEndpoint::SipTrunk { trunk: t.into(), number: "1".into() };
    assert_eq!(needed(&b, &s, &c, trunk("pbx"), None, 0), 0);
    assert_eq!(needed(&b, &s, &c, trunk("pbx"), Some(addr(9, 1)), 0), 2);
    assert_eq!(needed(&b, &s, &c, trunk("nobody"), Some(addr(9, 1)), 0), 0);
    assert_eq!(needed(&b, &s, &c, LegEndpoint::BrewPrivate { issi: 200 }, None, 0), 1);
    assert_eq!(needed(&b, &s, &c, LegEndpoint::BrewPrivate { issi: 201 }, None, 0), 0);
    let group = || LegEndpoint::BrewGroup { gssi: 90 };
    assert_eq!(needed(&b, &s, &c, group(), None, 0), 1);
    c.fallback_broadcast_when_no_affiliations = false;
    assert_eq!(needed(&b, &s, &c, group(), None, 0), 0);
    let mut members = KeySet::new();
    members.insert(1u128);
    s.group_clients.insert(90, members);
    assert_eq!(needed(&b, &s, &c, group(), None, 0), 1);
    assert_eq!(needed(&b, &s, &c, LegEndpoint::SipExternal { uri: "sip:x".into() }, None, 0), 0);
}

#[test]
fn dispatch_goes_by_the_destination() {
    let (mut b, c, mut s) = (bridge(), config(), brew());
    let go = |b: &mut BrewBridge, s: &mut BrewState, req: &SipRequest, call: &Invitation, l| {
        dispatch(b, s, &c, PEER, "x", req, call, None, None, l, None, at(0), &tokens())
    };
    let (req, call) = routed(&mut b, &c, "200");
    let (a, h) = go(&mut b, &mut s, &req, &call, Some(leg(16000)));
    assert!(h.is_some());
    assert!(matches!(&a[1], SipAction::StartTranscoder { leg, .. } if leg.local_port == 16000));
    let (req, call) = routed(&mut b, &c, "300");
    let (a, h) = go(&mut b, &mut s, &req, &call, Some(leg(16000)));
    assert!(h.is_none());
    assert_eq!(codes(&a), vec![200]);
    let (req, mut call) = routed(&mut b, &c, "1055");
    assert_eq!(codes(&go(&mut b, &mut s, &req, &call, Some(leg(16000))).0), vec![480]);
    call.to = LegEndpoint::SipExternal { uri: "sip:x".into() };
    assert_eq!(codes(&go(&mut b, &mut s, &req, &call, None).0), vec![404]);
}

#[test]
fn call_to_a_trunk_is_put_through_or_fails() {
    let (mut b, c) = (bridge(), config());
    let (req, call) = routed(&mut b, &c, "9123");
    let t = &mut b.transport;
    let put = |t: &mut SipTransport, trunk: &str, configured, legs| {
        terminate_to_trunk(t, &c, PEER, "10.0.0.5:5060", &req, trunk, "123", &call, configured, None, legs, at(9), &tokens())
    };
    assert_eq!(codes(&put(t, "nobody", None, None)), vec![404]);
    assert_eq!(codes(&put(t, "pbx", None, None)), vec![502]);
    assert_eq!(codes(&put(t, "pbx", Some(addr(9, 5060)), None)), vec![500]);
    let a = put(t, "pbx", Some(addr(9, 5060)), Some((leg(16000), leg(16002))));
    let m = sent(&a);
    assert!(m[1].1 == addr(9, 5060));
    assert!(matches!(&m[1].0.start, StartLine::Request { uri, .. } if uri == "sip:123@10.0.0.9"));
    assert_eq!(text(m[1].0, "From").unwrap(), "<sip:brew@192.0.2.1>;tag=LOCAL");
    assert_eq!(text(m[1].0, "To").unwrap(), "<sip:123@10.0.0.9>");
    assert_eq!(text(m[1].0, "Contact").unwrap(), "<sip:brew@192.0.2.1>");
}

#[test]
fn other_methods() {
    let (mut b, c) = (bridge(), config());
    let go = |b: &mut BrewBridge, m| handle_request(b, &mut brew(), &c, PEER, &request(m, "1002", "x"), at(0)).0;
    assert_eq!(codes(&go(&mut b, Method::Options)), vec![200]);
    assert_eq!(codes(&go(&mut b, Method::Other("INFO".into()))), vec![405]);
    assert!(go(&mut b, Method::Ack).is_empty());
    assert_eq!(codes(&go(&mut b, Method::Register)), vec![404]);
}

// ---- SIP to Brew ----

#[test]
fn private_call_rings_until_it_is_accepted() {
    let (mut b, c, mut s) = (bridge(), config(), brew());
    let (req, call) = routed(&mut b, &c, "200");
    let (a, h) = b.sip_to_brew_private(
        &mut s, PEER, "10.0.0.5:5060", &req, 200, &call, Some(addr(5, 40000)), Some(leg(16000)), at(2_000), &tokens(),
    );
    let mut h = h.unwrap();
    assert!(sent(&a).is_empty(), "no answer before the callee's");
    match &a[0] {
        SipAction::Brew(Action::Send { to, frame: Frame::CircularSetup { call: 77, source: 0, destination: 200, priority: 0 } }) => {
            assert_eq!(to.to_vec(), vec![2]);
        },
        _ => panic!("a set-up"),
    }
    match &a[1] {
        SipAction::StartTranscoder { leg, media, .. } => {
            assert!(leg.remote == Some(addr(5, 40000)));
            assert_eq!((media.payload_type, media.brew_call, media.client), (8, 77, 99));
        },
        _ => panic!("a transcoder"),
    }
    let call77 = s.calls.get(&77).unwrap();
    assert_eq!((call77.owner, call77.destination, call77.peers.to_vec()), (99, 200, vec![2]));
    let vc = s.clients.get(&99).unwrap();
    assert!(vc.mode == ClientMode::Terminal && vc.remote_addr.is_none());

    let (a, done) = b.private_call_control(&mut s, "cid", &mut h, CallState::SetupAccept, at(3_000));
    assert_eq!((codes(&a), done), (vec![180], false));
    let ringing_to = text(sent(&a)[0].0, "To").unwrap();
    assert_eq!(ringing_to, "<sip:200@h>;tag=DTAG");
    let (a, done) = b.private_call_control(&mut s, "cid", &mut h, CallState::Alert, at(3_000));
    assert!(a.is_empty() && !done);
    let (a, done) = b.private_call_control(&mut s, "cid", &mut h, CallState::SimplexIdle, at(3_000));
    assert!(a.is_empty() && !done);
    let (a, done) = b.private_call_control(&mut s, "cid", &mut h, CallState::ConnectRequest, at(4_000));
    assert!(done);
    assert!(matches!(&a[0], SipAction::Brew(Action::Send { frame: Frame::ConnectConfirm { call: 77, grant: 0, permission: 0 }, .. })));
    assert_eq!(codes(&a), vec![200]);
    let ok = sent(&a)[0].0;
    assert_eq!(text(ok, "To").unwrap(), ringing_to);
    assert!(String::from_utf8(ok.body.clone()).unwrap().contains("m=audio 16000 RTP/AVP 8 101"));
    assert_eq!(b.transport.state.snapshot().active_calls[0].answered_at_ms, Some(4_000));

    // The Brew side hangs up: the SIP peer gets a BYE in the same dialog.
    s.calls.remove(&77);
    let a = b.teardown_by_brew_call(&mut s, 77, &tokens());
    let bye = sent(&a)[0].0;
    assert!(matches!(&bye.start, StartLine::Request { method: Method::Bye, uri } if uri == "sip:1002@10.0.0.5"));
    assert_eq!(text(bye, "From").unwrap(), ringing_to);
    assert_eq!(text(bye, "To").unwrap(), "<sip:1002@h>;tag=f");
    assert_eq!(text(bye, "CSeq").unwrap(), "2 BYE");
    assert_eq!(text(bye, "Via").unwrap(), "SIP/2.0/UDP 192.0.2.1;branch=z9hG4bKDBRANCH");
    assert!(matches!(&a[1], SipAction::AbortTranscoder { .. }));
    assert!(matches!(&a[2], SipAction::Brew(Action::CallEnded { id: 77 })));
    assert_eq!(a.len(), 3);
    assert!(s.clients.get(&99).is_none());
    assert!(b.teardown_by_brew_call(&mut s, 77, &tokens()).is_empty());
}

#[test]
fn refused_private_call_is_busy() {
    let (mut b, c, mut s) = (bridge(), config(), brew());
    let (req, call) = routed(&mut b, &c, "200");
    let (_, h) = b.sip_to_brew_private(
        &mut s, PEER, "10.0.0.5:5060", &req, 200, &call, None, Some(leg(16000)), at(0), &tokens(),
    );
    let (a, done) = b.private_call_control(&mut s, "cid", &mut h.unwrap(), CallState::SetupReject, at(1));
    assert!(done);
    assert_eq!(codes(&a), vec![486]);
    assert_eq!(text(sent(&a)[0].0, "To").unwrap(), "<sip:200@h>;tag=DTAG");
    assert!(s.calls.get(&77).is_none() && s.clients.get(&99).is_none());
    assert_eq!(b.transport.state.snapshot().active_calls.len(), 0);
}

#[test]
fn private_call_that_cannot_be_bridged() {
    let (mut b, c, mut s) = (bridge(), config(), brew());
    let (req, call) = routed(&mut b, &c, "200");
    let (a, h) = b.sip_to_brew_private(&mut s, PEER, "x", &req, 201, &call, None, Some(leg(1)), at(0), &tokens());
    assert!(codes(&a) == vec![480] && h.is_none());
    let (a, h) = b.sip_to_brew_private(&mut s, PEER, "x", &req, 200, &call, None, None, at(0), &tokens());
    assert!(codes(&a) == vec![500] && h.is_none());
    assert_eq!(b.transport.state.snapshot().active_calls.len(), 0);
}

#[test]
fn group_call_takes_the_floor_and_is_answered() {
    let (mut b, c, mut s) = (bridge(), config(), brew());
    let mut members = KeySet::new();
    members.insert(2u128);
    s.group_clients.insert(90, members);
    let (mut req, call) = routed(&mut b, &c, "300");
    req.contact = None;
    let a = b.sip_to_brew_group(
        &mut s, &c, PEER, "10.0.0.5:5060", &req, 90, &call, None, Some(leg(16000)), at(5), &tokens(),
    );
    match &a[0] {
        SipAction::Brew(Action::Send { to, frame: Frame::GroupTx { call: 77, source: 0, destination: 90, priority: 0 } }) => {
            assert_eq!(to.to_vec(), vec![2]);
        },
        _ => panic!("the floor"),
    }
    assert_eq!(codes(&a), vec![200]);
    assert_eq!(s.group_floor.get(&90), Some(&77));
    assert!(s.group_clients.get(&90).unwrap().contains(&99));
    assert!(s.calls.get(&77).unwrap().kind == CallKind::Group);

    // The sweep ends it on both sides.
    assert!(call_duration_sweep(&mut b, &mut s, 0, 0, at(1_000_000)).is_empty());
    assert!(call_duration_sweep(&mut b, &mut s, 2, 0, at(2_999)).is_empty());
    let a = call_duration_sweep(&mut b, &mut s, 2, 0, at(3_000));
    let bye = sent(&a)[0].0;
    assert!(matches!(&bye.start, StartLine::Request { method: Method::Bye, uri } if uri == "sip:10.0.0.5:5060"));
    assert_eq!(text(bye, "From").unwrap(), "<sip:300@h>;tag=TAG");
    assert!(a.iter().any(|x| matches!(x, SipAction::Brew(Action::Send { frame: Frame::CallCause { state: CallState::GroupIdle, call: 77, cause: 0 }, .. }))));
    assert!(s.group_floor.get(&90).is_none());
    assert!(!s.group_clients.get(&90).unwrap().contains(&99));
    assert_eq!(b.transport.state.snapshot().active_calls.len(), 0);
}

#[test]
fn group_call_that_cannot_be_bridged() {
    let (mut b, mut c, mut s) = (bridge(), config(), brew());
    let (req, call) = routed(&mut b, &c, "300");
    let go = |b: &mut BrewBridge, s: &mut BrewState, c: &Config, l| {
        codes(&b.sip_to_brew_group(s, c, PEER, "x", &req, 90, &call, None, l, at(0), &tokens()))
    };
    assert_eq!(go(&mut b, &mut s, &c, None), vec![500]);
    c.fallback_broadcast_when_no_affiliations = false;
    assert_eq!(go(&mut b, &mut s, &c, Some(leg(1))), vec![480]);
    assert!(s.calls.get(&77).is_none());
}

#[test]
fn bye_tears_a_bridged_call_down() {
    let (mut b, c, mut s) = (bridge(), config(), brew());
    let (req, call) = routed(&mut b, &c, "200");
    b.sip_to_brew_private(&mut s, PEER, "x", &req, 200, &call, None, Some(leg(16000)), at(0), &tokens());
    let (a, _) = request_with(&mut b, &mut s, &c, PEER, &request(Method::Bye, "1002", "200"), at(9), &tokens());
    assert!(matches!(&a[0], SipAction::AbortTranscoder { call_id } if call_id == "cid"));
    match &a[1] {
        SipAction::Brew(Action::Send { to, frame: Frame::CallCause { state: CallState::Release, call: 77, cause: 0 } }) => {
            assert_eq!(to.to_vec(), vec![2]);
        },
        _ => panic!("the callee is told"),
    }
    assert!(matches!(&a[2], SipAction::Brew(Action::CallEnded { id: 77 })));
    assert_eq!(codes(&a), vec![200]);
    assert!(s.calls.get(&77).is_none() && s.clients.get(&99).is_none());
}

// ---- Brew to SIP ----

const LINK: BrewCallLink = BrewCallLink { call_id: 55, client: 1, source_issi: 4711 };

fn place(b: &mut BrewBridge, s: &mut BrewState, c: &Config, dialled: &str, l: Option<RtpLeg>) -> (Vec<SipAction>, bool) {
    let mut addresses = Table::new();
    addresses.insert("pbx".to_string(), addr(9, 5060));
    let origin = CallOrigin::BrewPrivate(4711);
    let to = b.find_destination(c, &addresses, &origin, dialled, 1_000).map(|d| d.uri).unwrap_or_default();
    b.brew_to_sip(s, c, &addresses, &origin, dialled, &to, LINK, l, at(1_000), &tokens())
}

fn answer(code: u16, body: &str) -> SipResponse {
    SipResponse {
        method: Some("INVITE".into()),
        code,
        call_id: Some("brew-CALL".into()),
        to: Some("<sip:123@10.0.0.9>;tag=theirs".into()),
        body: body.as_bytes().to_vec(),
    }
}

fn respond(b: &mut BrewBridge, s: &mut BrewState, r: &SipResponse) -> Vec<SipAction> {
    handle_response(b, s, addr(9, 5060), r, Some(addr(5, 40000)), at(2_000), &tokens())
}

#[test]
fn call_to_sip_follows_the_peer() {
    let (mut b, c, mut s) = (bridge(), config(), brew());
    let (a, taken) = place(&mut b, &mut s, &c, "9123", Some(leg(16000)));
    assert!(taken);
    match &a[0] {
        SipAction::Brew(Action::Send { to, frame: Frame::Control { state: CallState::SetupAccept, call: 55 } }) => {
            assert_eq!(to.to_vec(), vec![1]);
        },
        _ => panic!("accepted"),
    }
    let (inv, to) = sent(&a)[0];
    assert!(to == addr(9, 5060));
    assert!(matches!(&inv.start, StartLine::Request { uri, .. } if uri == "sip:123@10.0.0.9"));
    assert_eq!(text(inv, "From").unwrap(), "<sip:4711@192.0.2.1>;tag=DTAG");
    assert_eq!(text(inv, "Contact").unwrap(), "<sip:4711@192.0.2.1>");
    assert_eq!(text(inv, "Call-ID").unwrap(), "brew-CALL");
    assert!(String::from_utf8(inv.body.clone()).unwrap().contains("m=audio 16000 RTP/AVP 0 8 101\r\n"));
    assert_eq!(b.transport.state.snapshot().active_calls[0].state, "brew-originated");
    assert_eq!(s.calls.get(&55).unwrap().peers.to_vec(), vec![99]);

    let a = respond(&mut b, &mut s, &answer(180, ""));
    assert!(matches!(&a[0], SipAction::Brew(Action::Send { frame: Frame::Control { state: CallState::Alert, call: 55 }, .. })));
    assert!(respond(&mut b, &mut s, &answer(183, "")).is_empty());
    assert!(respond(&mut b, &mut s, &answer(100, "")).is_empty());

    let a = respond(&mut b, &mut s, &answer(200, SDP));
    assert!(matches!(&a[0], SipAction::Brew(Action::Send { frame: Frame::ConnectRequest { call: 55, source: 0, destination: 4711, priority: 0 }, .. })));
    match &a[1] {
        SipAction::StartTranscoder { leg, media, .. } => {
            assert!(leg.local_port == 16000 && leg.remote == Some(addr(5, 40000)));
            assert_eq!((media.payload_type, media.targets.to_vec()), (8, vec![1]));
        },
        _ => panic!("a transcoder"),
    }
    let ack = sent(&a)[0].0;
    assert!(matches!(&ack.start, StartLine::Request { method: Method::Ack, .. }));
    assert_eq!(text(ack, "To").unwrap(), "<sip:123@10.0.0.9>;tag=theirs");
    assert_eq!(text(ack, "CSeq").unwrap(), "1 ACK");
    assert_eq!(b.transport.state.snapshot().active_calls[0].answered_at_ms, Some(2_000));
    for code in [180, 200, 486] {
        assert!(respond(&mut b, &mut s, &answer(code, SDP)).is_empty());
    }
}

#[test]
fn refused_call_to_sip_is_released() {
    let (mut b, c, mut s) = (bridge(), config(), brew());
    place(&mut b, &mut s, &c, "9123", Some(leg(16000)));
    let a = respond(&mut b, &mut s, &answer(486, ""));
    assert!(matches!(&a[0], SipAction::Brew(Action::Send { frame: Frame::CallCause { state: CallState::Release, call: 55, cause: 0 }, .. })));
    assert!(s.calls.get(&55).is_none() && s.clients.get(&99).is_none());
    assert_eq!(b.transport.state.snapshot().active_calls.len(), 0);
}

#[test]
fn answer_without_a_description_leaves_media_unstarted() {
    let (mut b, c, mut s) = (bridge(), config(), brew());
    place(&mut b, &mut s, &c, "9123", Some(leg(16000)));
    let a = respond(&mut b, &mut s, &answer(200, ""));
    assert_eq!(a.len(), 2);
    assert!(!a.iter().any(|x| matches!(x, SipAction::StartTranscoder { .. })));
}

#[test]
fn call_to_sip_names_the_given_uri_in_its_to_header() {
    let (mut b, c, mut s) = (bridge(), config(), brew());
    let mut reg = request(Method::Register, "1002", "1002");
    reg.contact_uri = "sip:1002@10.0.0.5;transport=udp".into();
    handle_register(&mut b.transport, &c, addr(7, 5060), &reg, at(0));
    let (a, taken) = b.brew_to_sip(
        &mut s, &c, &Table::new(), &CallOrigin::BrewPrivate(4711), "1055", "sip:1002@10.0.0.5", LINK, Some(leg(16000)),
        at(1_000), &tokens(),
    );
    assert!(taken);
    let m = sent(&a)[0].0;
    assert!(matches!(&m.start, StartLine::Request { uri, .. } if uri == "sip:1002@10.0.0.5;transport=udp"));
    assert_eq!(text(m, "To").unwrap(), "<sip:1002@10.0.0.5>");
}

#[test]
fn calls_to_sip_without_a_destination() {
    let (mut b, c, mut s) = (bridge(), config(), brew());
    for dialled in ["555", "200", "300", "1055", "404"] {
        let (a, taken) = place(&mut b, &mut s, &c, dialled, Some(leg(16000)));
        assert!(a.is_empty() && !taken, "{dialled}");
    }
    // Without a port the call is taken, and nothing follows.
    let (a, taken) = place(&mut b, &mut s, &c, "9123", None);
    assert!(a.is_empty() && taken);
    let reg = request(Method::Register, "1002", "1002");
    handle_register(&mut b.transport, &c, addr(7, 5060), &reg, at(0));
    let (a, taken) = place(&mut b, &mut s, &c, "1055", Some(leg(16000)));
    assert!(taken && sent(&a)[0].1 == addr(7, 5060));
    assert_eq!(text(sent(&a)[0].0, "To").unwrap(), "<sip:1002@10.0.0.5>");
    // A stale binding is no destination.
    let origin = CallOrigin::BrewPrivate(100);
    let none = Table::new();
    assert!(b.find_destination(&c, &none, &origin, "1055", 3_599_999).is_some());
    assert!(b.find_destination(&c, &none, &origin, "1055", 3_600_000).is_none());
}

// ---- trunks ----

#[test]
fn answers_to_registrations_set_the_status_of_the_trunk() {
    let (mut b, mut s) = (bridge(), brew());
    let mut on = config();
    on.sip.enabled = true;
    let mut t = Table::new();
    t.insert("pbx".to_string(), addr(9, 5060));
    let start = run(&on, &addr(0, 5060), "10.0.0.0:5060", "10.0.0.0", "", &t, 0).unwrap();
    b.transport = start.transport;
    let mut r = answer(200, "");
    r.method = Some("REGISTER".into());
    for (code, status, detail) in [
        (200, TrunkStatus::Up, "200 OK"),
        (401, TrunkStatus::Up, "200 OK"),
        (503, TrunkStatus::Failed, "503"),
    ] {
        r.code = code;
        assert!(respond(&mut b, &mut s, &r).is_empty());
        let snap = b.transport.state.snapshot();
        assert!(snap.trunks[0].status == status);
        assert_eq!(snap.trunks[0].detail, detail);
    }
    r.method = None;
    assert!(respond(&mut b, &mut s, &r).is_empty());
}

#[test]
fn start_seeds_the_trunks() {
    let mut c = config();
    let none = Table::new();
    assert!(run(&c, &addr(0, 5060), "t", "h", "d", &none, 7).is_none());
    c.sip.enabled = true;
    c.sip.trunks.insert("off".into(), SipTrunkConfig { enabled: false, direction: TrunkDirection::Inbound, ..Default::default() });
    let any = SocketAddress::V4 { ip: 0, port: 5060 };
    let s = run(&c, &any, "0.0.0.0:5060", "0.0.0.0", "192.0.2.9", &none, 7).unwrap();
    assert_eq!(s.transport.advertised_host, "192.0.2.9");
    assert_eq!(s.registering, vec!["pbx".to_string()]);
    assert_eq!(s.relay.bind_host(), "0.0.0.0");
    let mut relay = s.relay;
    assert!(matches!(relay.alloc_leg(&mut LegAlloc::new(), false), AllocStep::Bind(16000)));
    assert!(s.sweeps);
    let snap = s.transport.state.snapshot();
    assert_eq!((snap.listen.as_str(), snap.realm.as_str()), ("0.0.0.0:5060", "brew-server"));
    let got: Vec<(&str, &str, &str)> = snap.trunks.iter().map(|t| (t.name.as_str(), t.direction.as_str(), t.detail.as_str())).collect();
    assert_eq!(got, vec![("off", "inbound", "disabled"), ("pbx", "outbound", "provisioned")]);
    c.sip.max_call_duration_seconds = 0;
    c.call_inactivity_timeout_seconds = 0;
    assert!(!run(&c, &any, "", "", "", &none, 7).unwrap().sweeps);
}

fn status(s: &SipState) -> (TrunkStatus, String) {
    let t = &s.snapshot().trunks[0];
    (t.status, t.detail.clone())
}

fn trunk_state() -> SipState {
    let mut c = config();
    c.sip.enabled = true;
    run(&c, &addr(0, 1), "", "", "", &Table::new(), 0).unwrap().transport.state
}

fn reply(code: u16, challenge: Option<&str>) -> Option<RegisterReply> {
    Some(RegisterReply { code: Some(code), challenge: challenge.map(|c| c.to_string()) })
}

#[test]
fn outbound_trunk_answers_the_challenge() {
    let (c, mut s) = (config(), trunk_state());
    let tc = c.sip.trunks.get(&"pbx".to_string()).unwrap();
    let mut r = TrunkRegistration::start(&mut s, "pbx", tc, Some(addr(9, 5060)), at(0)).unwrap();
    let first = r.begin(&mut s, at(1));
    assert_eq!(status(&s), (TrunkStatus::Registering, "sending REGISTER".to_string()));
    assert!(first.call_id.starts_with("pbx-") && first.call_id.len() == 12);
    assert_eq!(first.cseq, 1);
    let id = first.call_id.clone();
    let m = register_once(&r, first, "192.0.2.1", "10.0.0.1:40000");
    assert!(matches!(&m.start, StartLine::Request { method: Method::Register, uri } if uri == "sip:10.0.0.9"));
    assert!(text(&m, "Via").unwrap().starts_with("SIP/2.0/UDP 10.0.0.1:40000;branch=z9hG4bK"));
    assert_eq!(text(&m, "To").unwrap(), "<sip:brew@10.0.0.9>");
    assert_eq!(text(&m, "CSeq").unwrap(), "1 REGISTER");
    assert_eq!(text(&m, "Contact").unwrap(), "<sip:brew@192.0.2.1>");
    assert_eq!(text(&m, "Expires").unwrap(), "300");

    let second = match r.reply_with(&mut s, &reply(407, Some("Digest x")), at(2), "CN") {
        RegisterStep::Send(req) => req,
        _ => panic!("answers"),
    };
    assert_eq!((second.call_id.clone(), second.cseq), (id, 2));
    let m = register_once(&r, second, "192.0.2.1", "10.0.0.1:40000");
    let last = m.headers.last().unwrap();
    assert_eq!(last.name, "Proxy-Authorization");
    match &last.value {
        HeaderValue::Answer { challenge, user, password, uri, cnonce } => {
            assert_eq!(
                [challenge, user, password, uri, cnonce].map(|x| x.as_str()),
                ["Digest x", "brew", "hunter2", "sip:10.0.0.9", "CN"]
            );
        },
        _ => panic!("an answer"),
    }
    assert!(matches!(r.reply(&mut s, &reply(200, None), at(3)), RegisterStep::Sleep(300)));
    assert_eq!(status(&s), (TrunkStatus::Up, "200 OK (auth)".to_string()));
}

#[test]
fn outbound_trunk_outcomes() {
    let (c, tc_name) = (config(), "pbx".to_string());
    let tc = c.sip.trunks.get(&tc_name).unwrap();
    let cases: Vec<(Vec<Option<RegisterReply>>, TrunkStatus, &str)> = vec![
        (vec![reply(200, None)], TrunkStatus::Up, "200 OK"),
        (vec![reply(503, None)], TrunkStatus::Failed, "503"),
        (vec![Some(RegisterReply { code: None, challenge: None })], TrunkStatus::Failed, "0"),
        (vec![None], TrunkStatus::Failed, "no response"),
        (vec![reply(401, None)], TrunkStatus::Registering, "sending REGISTER"),
        (vec![reply(401, Some("x")), reply(403, None)], TrunkStatus::Failed, "403 after auth"),
        (vec![reply(401, Some("x")), None], TrunkStatus::Failed, "no response to auth"),
    ];
    for (replies, want, detail) in cases {
        let mut s = trunk_state();
        let mut r = TrunkRegistration::start(&mut s, "pbx", tc, Some(addr(9, 5060)), at(0)).unwrap();
        r.begin(&mut s, at(1));
        let n = replies.len();
        for (i, x) in replies.iter().enumerate() {
            let step = r.reply(&mut s, x, at(2));
            assert_eq!(matches!(step, RegisterStep::Sleep(300)), i + 1 == n);
        }
        assert_eq!(status(&s), (want, detail.to_string()));
    }
}

#[test]
fn outbound_trunk_without_an_address_fails() {
    let (c, mut s) = (config(), trunk_state());
    let tc = c.sip.trunks.get(&"pbx".to_string()).unwrap();
    assert!(TrunkRegistration::start(&mut s, "pbx", tc, None, at(0)).is_none());
    assert_eq!(status(&s), (TrunkStatus::Failed, "bad remote_host".to_string()));
    let quick = SipTrunkConfig { register_interval_seconds: 5, ..Default::default() };
    let r = TrunkRegistration::start(&mut s, "pbx", &quick, Some(addr(9, 1)), at(0)).unwrap();
    assert_eq!((r.interval, r.user.as_str()), (30, "pbx"));
}

// ---- configuration ----

#[test]
fn defaults() {
    let c = Config::default();
    assert!(c.listen == SocketAddress::V4 { ip: 0, port: 9000 });
    assert_eq!((c.websocket_path.as_str(), c.websocket_subprotocol.as_str()), ("/brew", "brew"));
    assert_eq!((c.preempt_cause, c.max_call_duration_seconds, c.call_inactivity_timeout_seconds), (1, 14400, 60));
    assert!(c.storage.enabled && !c.tls.enabled && !c.sip.enabled && c.dashboard.enabled);
    assert_eq!((c.sip.rtp_port_min, c.sip.rtp_port_max), (16000, 17000));
    assert_eq!(c.aprs.server, "rotate.aprs2.net:14580");
    assert_eq!((c.aprs.symbol_table, c.aprs.symbol_code), ('/', 'j'));
    assert_eq!(c.dashboard.realm, "brew-server-dashboard");
    assert!(TrunkDirection::default() == TrunkDirection::Peer);
    assert_eq!(VoiceRouteConfig::default().match_pattern, "*");
}

#[test]
fn watcher_reports_a_change_once() {
    let mut w = ConfigWatcher::new(Some(1));
    assert!(w.poll(Some(1)) == Change::Unchanged);
    assert!(w.poll(Some(2)) == Change::Changed);
    assert!(w.poll(Some(2)) == Change::Unchanged);
    assert!(w.poll(None) == Change::Changed);
    assert!(restarts(Change::Changed, true));
    assert!(!restarts(Change::Changed, false));
    assert!(!restarts(Change::Unchanged, true));
}
