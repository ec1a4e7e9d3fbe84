use brew_server::addr::SocketAddress;
use brew_server::brew::Now;
use brew_server::calls::overdue_calls;
use brew_server::sip_state::{
    LegEndpoint, Registration, SipCall, SipState, TrunkState, TrunkStatus,
};

const NOW: u64 = 1_700_000_000_000;

fn addr(last: u32, port: u16) -> SocketAddress {
    SocketAddress::V4 { ip: 0x0A00_0000 + last, port }
}

fn reg(aor: &str, ttl_ms: u64) -> Registration {
    Registration {
        aor: aor.into(),
        contact: format!("sip:{aor}@10.0.0.5:5060"),
        source: addr(5, 5060),
        user_agent: "test".into(),
        expires_at_ms: NOW + ttl_ms,
        registered_at_ms: NOW,
        authenticated: true,
    }
}

fn fresh() -> SipState {
    SipState::new(true, "0.0.0.0:5060".into(), "brew".into())
}

fn trunk(name: &str, peer_addr: Option<SocketAddress>) -> TrunkState {
    TrunkState {
        name: name.into(),
        direction: "outbound".into(),
        remote_host: "pbx:5060".into(),
        status: TrunkStatus::Up,
        peer_addr,
        last_event_ms: NOW,
        detail: "ok".into(),
        active_calls: 0,
    }
}

fn sip_call(id: &str, started_at_ms: u64) -> SipCall {
    SipCall {
        call_id: id.into(),
        from: LegEndpoint::SipExtension { aor: "1001".into() },
        to: LegEndpoint::SipTrunk { trunk: "asterisk".into(), number: "5551234".into() },
        started_at_ms,
        answered_at_ms: None,
        state: "ringing".into(),
        rtp_a_port: None,
        rtp_b_port: None,
    }
}

#[test]
fn registration_lifecycle() {
    let mut s = fresh();
    assert!(s.upsert_registration(reg("1001", 60_000)));
    assert!(!s.upsert_registration(reg("1001", 60_000)), "refresh is not new");
    assert!(s.lookup_registration("1001", NOW).is_some());
    let snap = s.snapshot();
    assert_eq!(snap.registrations.len(), 1);
    assert_eq!(snap.total_registrations, 1);
    s.remove_registration("1001");
    assert!(s.lookup_registration("1001", NOW).is_none());
}

#[test]
fn purges_expired_registrations() {
    let mut s = fresh();
    // Already-expired binding.
    let mut r = reg("2002", 0);
    r.expires_at_ms = NOW.saturating_sub(1000);
    s.upsert_registration(r);
    s.purge_expired(NOW);
    assert!(s.lookup_registration("2002", NOW).is_none());
    assert!(s.snapshot().registrations.is_empty());
}

#[test]
fn stale_binding_is_not_found_before_it_is_purged() {
    let mut s = fresh();
    s.upsert_registration(reg("1001", 60_000));
    assert!(s.lookup_registration("1001", NOW + 59_999).is_some());
    assert!(s.lookup_registration("1001", NOW + 60_000).is_none());
    assert!(s.lookup_registration("1001", NOW + 60_001).is_none());
    // It is still listed until the next purge.
    assert_eq!(s.snapshot().registrations.len(), 1);
    s.upsert_registration(reg("1001", 120_000));
    assert!(s.lookup_registration("1001", NOW + 60_000).is_some());
}

#[test]
fn purge_keeps_what_has_not_expired() {
    let mut s = fresh();
    for (aor, ttl) in [("a", 0u64), ("b", 1), ("c", 60_000)] {
        s.upsert_registration(reg(aor, ttl));
    }
    s.purge_expired(NOW);
    assert!(s.lookup_registration("a", NOW).is_none());
    assert!(s.lookup_registration("b", NOW).is_some() && s.lookup_registration("c", NOW).is_some());
    let left: Vec<String> = s.snapshot().registrations.iter().map(|r| r.aor.clone()).collect();
    assert_eq!(left, vec!["b", "c"]);
    assert_eq!(s.snapshot().total_registrations, 3);
}

#[test]
fn call_counts_reflect_on_trunk() {
    let mut s = fresh();
    s.set_trunk(trunk("asterisk", None));
    s.start_call(sip_call("c1", NOW));
    let snap = s.snapshot();
    assert_eq!(snap.trunks[0].active_calls, 1);
    assert_eq!(snap.active_calls.len(), 1);
    s.end_call("c1");
    let snap = s.snapshot();
    assert_eq!(snap.trunks[0].active_calls, 0);
    assert_eq!(snap.active_calls.len(), 0);
    assert_eq!(snap.total_calls, 1, "counter retained after end");
}

#[test]
fn overdue_calls_come_latest_first_and_silent_ones_last() {
    let mut s = fresh();
    for (id, age) in [("quiet", 1u64), ("old", 9_000), ("new", 5_000), ("older", 20_000), ("both", 7_000), ("fresh", 10)] {
        s.start_call(sip_call(id, NOW - age));
    }
    s.answer_call("quiet", NOW - 4_000);
    s.answer_call("both", NOW - 4_000);
    let now = Now { epoch_ms: NOW, mono_ns: 0 };
    assert_eq!(s.calls_by_age(), vec!["quiet", "fresh", "new", "both", "old", "older"]);
    assert_eq!(overdue_calls(&s, 5, 3, now), vec!["new", "both", "old", "older", "quiet"]);
    assert_eq!(overdue_calls(&s, 9, 0, now), vec!["old", "older"]);
    assert_eq!(overdue_calls(&s, 9, 3, now)[..2], ["old", "older"]);
    assert_eq!(overdue_calls(&s, 9, 3, now).len(), 4);
    assert_eq!(overdue_calls(&s, 0, 0, now).len(), 0);
}

#[test]
fn both_legs_on_one_trunk_count_twice() {
    let mut s = fresh();
    s.set_trunk(trunk("asterisk", None));
    let mut c = sip_call("c1", NOW);
    c.from = LegEndpoint::SipTrunk { trunk: "asterisk".into(), number: String::new() };
    s.start_call(c);
    assert_eq!(s.snapshot().trunks[0].active_calls, 2);
    s.end_call("c1");
    s.end_call("c1");
    assert_eq!(s.snapshot().trunks[0].active_calls, 0);
}

#[test]
fn trunk_status_keeps_a_learned_address() {
    let mut s = fresh();
    s.set_trunk(trunk("asterisk", None));
    assert_eq!(s.trunk_for_peer(&addr(9, 5060)), None);
    s.update_trunk_status("asterisk", TrunkStatus::Up, "200 OK".into(), Some(addr(9, 5060)), NOW + 1);
    s.update_trunk_status("asterisk", TrunkStatus::Failed, "503".into(), None, NOW + 2);
    s.update_trunk_status("other", TrunkStatus::Up, "x".into(), None, NOW + 3);
    assert_eq!(s.trunk_for_peer_addr("asterisk"), Some(addr(9, 5060)));
    assert_eq!(s.trunk_for_peer_addr("other"), None);
    assert_eq!(s.trunk_for_peer(&addr(9, 5060)), Some("asterisk".to_string()));
    let snap = s.snapshot();
    assert_eq!(snap.trunks.len(), 1);
    assert_eq!(snap.trunks[0].detail, "503");
    assert_eq!(snap.trunks[0].last_event_ms, NOW + 2);
    assert!(snap.trunks[0].status == TrunkStatus::Failed);
}

#[test]
fn answered_calls_are_idle_without_rtp() {
    let mut s = fresh();
    s.start_call(sip_call("ringing", 0));
    s.start_call(sip_call("silent", 0));
    s.start_call(sip_call("talking", 0));
    s.answer_call("silent", 1_000);
    s.answer_call("talking", 1_000);
    assert_eq!(s.track_media("talking", 0), 0);
    assert_eq!(s.track_media("talking", 0), 1);
    s.media_heard("talking", 1, 60_000);
    s.media_heard("talking", 7, 99_000);
    assert!(s.idle_calls(60_000, 60_999).is_empty());
    assert_eq!(s.idle_calls(60_000, 61_000), vec!["silent".to_string()]);
    let mut both = s.idle_calls(60_000, 120_000);
    both.sort();
    assert_eq!(both, vec!["silent".to_string(), "talking".to_string()]);
    assert_eq!(s.snapshot().active_calls.iter().find(|c| c.call_id == "silent").unwrap().state, "answered");
}

#[test]
fn ports_are_set_where_given() {
    let mut s = fresh();
    s.start_call(sip_call("c1", 0));
    s.set_call_rtp("c1", Some(16000), None);
    s.set_call_rtp("c1", None, Some(16002));
    s.set_call_rtp("nobody", Some(1), Some(2));
    let c = &s.snapshot().active_calls[0];
    assert_eq!((c.rtp_a_port, c.rtp_b_port), (Some(16000), Some(16002)));
}

#[test]
fn snapshot_is_in_order() {
    let mut s = fresh();
    for aor in ["20", "3", "", "100", "1001", "ä", "Z"] {
        s.upsert_registration(reg(aor, 1));
        s.set_trunk(trunk(aor, None));
    }
    for (id, at) in [("a", 5u64), ("b", 9), ("c", 7)] {
        s.start_call(sip_call(id, at));
    }
    let snap = s.snapshot();
    let mut want = vec!["20", "3", "", "100", "1001", "ä", "Z"];
    want.sort();
    let got: Vec<&str> = snap.registrations.iter().map(|r| r.aor.as_str()).collect();
    assert_eq!(got, want);
    let got: Vec<&str> = snap.trunks.iter().map(|t| t.name.as_str()).collect();
    assert_eq!(got, want);
    let got: Vec<&str> = snap.active_calls.iter().map(|c| c.call_id.as_str()).collect();
    assert_eq!(got, vec!["b", "c", "a"]);
    assert_eq!((snap.enabled, snap.listen.as_str(), snap.realm.as_str()), (true, "0.0.0.0:5060", "brew"));
}
