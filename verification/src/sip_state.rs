//! What the server keeps about the SIP side: registrations, trunks and active calls.
use crate::addr::SocketAddress;
use crate::brew::since;
use crate::table::{has_key, lists, Table};
use crate::text::texts_of;
use vstd::prelude::*;

verus! {

/// A live binding of one extension.
pub struct Registration {
    /// The user part of the address of record.
    pub aor: String,
    /// The URI at which the extension can be reached.
    pub contact: String,
    /// Where the registration came from, which is where requests are sent.
    pub source: SocketAddress,
    pub user_agent: String,
    /// When the binding goes stale (milliseconds since the epoch).
    pub expires_at_ms: u64,
    pub registered_at_ms: u64,
    /// Whether the extension authenticated.
    pub authenticated: bool,
}

/// The contents of a `Registration`.
#[verifier::ext_equal]
pub struct RegistrationView {
    pub aor: Seq<char>,
    pub contact: Seq<char>,
    pub source: SocketAddress,
    pub user_agent: Seq<char>,
    pub expires_at_ms: u64,
    pub registered_at_ms: u64,
    pub authenticated: bool,
}

impl View for Registration {
    type V = RegistrationView;

    open spec fn view(&self) -> RegistrationView {
        RegistrationView {
            aor: self.aor@,
            contact: self.contact@,
            source: self.source,
            user_agent: self.user_agent@,
            expires_at_ms: self.expires_at_ms,
            registered_at_ms: self.registered_at_ms,
            authenticated: self.authenticated,
        }
    }
}

impl Registration {
    /// A second registration with the same contents.
    pub fn dup(&self) -> (r: Self)
        ensures
            r@ == self@,
    {
        Registration {
            aor: self.aor.clone(),
            contact: self.contact.clone(),
            source: self.source,
            user_agent: self.user_agent.clone(),
            expires_at_ms: self.expires_at_ms,
            registered_at_ms: self.registered_at_ms,
            authenticated: self.authenticated,
        }
    }
}

/// The health of a trunk.
#[derive(Clone, Copy, Debug, PartialEq, Eq, Structural)]
pub enum TrunkStatus {
    /// Registered with the peer, or the peer was seen.
    Up,
    /// A registration was sent and not yet answered.
    Registering,
    /// The registration failed.
    Failed,
    /// Nothing was tried.
    Down,
}

/// The live state of a trunk.
pub struct TrunkState {
    pub name: String,
    pub direction: String,
    pub remote_host: String,
    pub status: TrunkStatus,
    /// The address at which the peer was last reached.
    pub peer_addr: Option<SocketAddress>,
    pub last_event_ms: u64,
    /// The last status in words.
    pub detail: String,
    pub active_calls: u32,
}

/// The contents of a `TrunkState`.
#[verifier::ext_equal]
pub struct TrunkStateView {
    pub name: Seq<char>,
    pub direction: Seq<char>,
    pub remote_host: Seq<char>,
    pub status: TrunkStatus,
    pub peer_addr: Option<SocketAddress>,
    pub last_event_ms: u64,
    pub detail: Seq<char>,
    pub active_calls: u32,
}

impl View for TrunkState {
    type V = TrunkStateView;

    open spec fn view(&self) -> TrunkStateView {
        TrunkStateView {
            name: self.name@,
            direction: self.direction@,
            remote_host: self.remote_host@,
            status: self.status,
            peer_addr: self.peer_addr,
            last_event_ms: self.last_event_ms,
            detail: self.detail@,
            active_calls: self.active_calls,
        }
    }
}

impl TrunkState {
    /// A second state with the same contents.
    pub fn dup(&self) -> (r: Self)
        ensures
            r@ == self@,
    {
        TrunkState {
            name: self.name.clone(),
            direction: self.direction.clone(),
            remote_host: self.remote_host.clone(),
            status: self.status,
            peer_addr: self.peer_addr,
            last_event_ms: self.last_event_ms,
            detail: self.detail.clone(),
            active_calls: self.active_calls,
        }
    }
}

/// What a leg of a call ends on.
pub enum LegEndpoint {
    SipExtension { aor: String },
    SipTrunk { trunk: String, number: String },
    BrewPrivate { issi: u32 },
    BrewGroup { gssi: u32 },
    /// A SIP party that no route is known for yet.
    SipExternal { uri: String },
}

/// The contents of a `LegEndpoint`.
#[verifier::ext_equal]
pub enum LegView {
    SipExtension { aor: Seq<char> },
    SipTrunk { trunk: Seq<char>, number: Seq<char> },
    BrewPrivate { issi: u32 },
    BrewGroup { gssi: u32 },
    SipExternal { uri: Seq<char> },
}

impl View for LegEndpoint {
    type V = LegView;

    open spec fn view(&self) -> LegView {
        match self {
            LegEndpoint::SipExtension { aor } => LegView::SipExtension { aor: aor@ },
            LegEndpoint::SipTrunk { trunk, number } => LegView::SipTrunk {
                trunk: trunk@,
                number: number@,
            },
            LegEndpoint::BrewPrivate { issi } => LegView::BrewPrivate { issi: *issi },
            LegEndpoint::BrewGroup { gssi } => LegView::BrewGroup { gssi: *gssi },
            LegEndpoint::SipExternal { uri } => LegView::SipExternal { uri: uri@ },
        }
    }
}

impl LegEndpoint {
    /// A second endpoint with the same contents.
    pub fn dup(&self) -> (r: Self)
        ensures
            r@ == self@,
    {
        match self {
            LegEndpoint::SipExtension { aor } => LegEndpoint::SipExtension { aor: aor.clone() },
            LegEndpoint::SipTrunk { trunk, number } => LegEndpoint::SipTrunk {
                trunk: trunk.clone(),
                number: number.clone(),
            },
            LegEndpoint::BrewPrivate { issi } => LegEndpoint::BrewPrivate { issi: *issi },
            LegEndpoint::BrewGroup { gssi } => LegEndpoint::BrewGroup { gssi: *gssi },
            LegEndpoint::SipExternal { uri } => LegEndpoint::SipExternal { uri: uri.clone() },
        }
    }
}

/// An active call.
pub struct SipCall {
    /// The Call-ID of the leg that the call started with.
    pub call_id: String,
    pub from: LegEndpoint,
    pub to: LegEndpoint,
    pub started_at_ms: u64,
    pub answered_at_ms: Option<u64>,
    pub state: String,
    pub rtp_a_port: Option<u16>,
    pub rtp_b_port: Option<u16>,
}

/// The contents of a `SipCall`.
#[verifier::ext_equal]
pub struct SipCallView {
    pub call_id: Seq<char>,
    pub from: LegView,
    pub to: LegView,
    pub started_at_ms: u64,
    pub answered_at_ms: Option<u64>,
    pub state: Seq<char>,
    pub rtp_a_port: Option<u16>,
    pub rtp_b_port: Option<u16>,
}

impl View for SipCall {
    type V = SipCallView;

    open spec fn view(&self) -> SipCallView {
        SipCallView {
            call_id: self.call_id@,
            from: self.from@,
            to: self.to@,
            started_at_ms: self.started_at_ms,
            answered_at_ms: self.answered_at_ms,
            state: self.state@,
            rtp_a_port: self.rtp_a_port,
            rtp_b_port: self.rtp_b_port,
        }
    }
}

impl SipCall {
    /// A second call with the same contents.
    pub fn dup(&self) -> (r: Self)
        ensures
            r@ == self@,
    {
        SipCall {
            call_id: self.call_id.clone(),
            from: self.from.dup(),
            to: self.to.dup(),
            started_at_ms: self.started_at_ms,
            answered_at_ms: self.answered_at_ms,
            state: self.state.clone(),
            rtp_a_port: self.rtp_a_port,
            rtp_b_port: self.rtp_b_port,
        }
    }
}

/// The SIP side as the dashboard shows it.
pub struct SipSnapshot {
    pub enabled: bool,
    pub listen: String,
    pub realm: String,
    pub registrations: Vec<Registration>,
    pub trunks: Vec<TrunkState>,
    pub active_calls: Vec<SipCall>,
    pub total_calls: u64,
    pub total_registrations: u64,
}

/// The state of the SIP side.
pub struct SipState {
    /// By address of record.
    pub registrations: Table<String, Registration>,
    /// By name.
    pub trunks: Table<String, TrunkState>,
    /// By Call-ID.
    pub calls: Table<String, SipCall>,
    /// When RTP was last received on each relay leg of a call, by Call-ID.
    pub media: Table<String, Vec<u64>>,
    pub total_calls: u64,
    pub total_registrations: u64,
    pub enabled: bool,
    pub listen: String,
    pub realm: String,
}

/// The contents of a `SipState`.
#[verifier::ext_equal]
pub struct SipView {
    pub registrations: Map<Seq<char>, RegistrationView>,
    pub trunks: Map<Seq<char>, TrunkStateView>,
    pub calls: Map<Seq<char>, SipCallView>,
    pub media: Map<Seq<char>, Seq<u64>>,
    pub total_calls: u64,
    pub total_registrations: u64,
    pub enabled: bool,
    pub listen: Seq<char>,
    pub realm: Seq<char>,
}

impl View for SipState {
    type V = SipView;

    open spec fn view(&self) -> SipView {
        SipView {
            registrations: self.registrations@,
            trunks: self.trunks@,
            calls: self.calls@,
            media: self.media@,
            total_calls: self.total_calls,
            total_registrations: self.total_registrations,
            enabled: self.enabled,
            listen: self.listen@,
            realm: self.realm@,
        }
    }
}

/// The trunks once a leg on `ep` has begun.
pub open spec fn leg_begun(trunks: Map<Seq<char>, TrunkStateView>, ep: LegView) -> Map<
    Seq<char>,
    TrunkStateView,
> {
    match ep {
        LegView::SipTrunk { trunk, .. } if trunks.contains_key(trunk) => {
            let t = trunks[trunk];
            trunks.insert(trunk, TrunkStateView { active_calls: (t.active_calls + 1) as u32, ..t })
        },
        _ => trunks,
    }
}

/// The trunks once a leg on `ep` has ended.
pub open spec fn leg_ended(trunks: Map<Seq<char>, TrunkStateView>, ep: LegView) -> Map<
    Seq<char>,
    TrunkStateView,
> {
    match ep {
        LegView::SipTrunk { trunk, .. } if trunks.contains_key(trunk) => {
            let t = trunks[trunk];
            trunks.insert(
                trunk,
                TrunkStateView { active_calls: since(1, t.active_calls as int) as u32, ..t },
            )
        },
        _ => trunks,
    }
}

/// The counters have room for another call.
pub open spec fn has_room(s: SipView) -> bool {
    &&& s.total_calls < u64::MAX
    &&& forall|k: Seq<char>| #[trigger]
        s.trunks.contains_key(k) ==> s.trunks[k].active_calls <= u32::MAX - 2
}

/// The state with the call begun.
pub open spec fn call_started(s: SipView, call: SipCallView) -> SipView {
    SipView {
        total_calls: (s.total_calls + 1) as u64,
        trunks: leg_begun(leg_begun(s.trunks, call.from), call.to),
        calls: s.calls.insert(call.call_id, call),
        ..s
    }
}

/// The state with the call ended.
pub open spec fn call_ended(s: SipView, call_id: Seq<char>) -> SipView {
    let media = s.media.remove(call_id);
    if s.calls.contains_key(call_id) {
        let c = s.calls[call_id];
        SipView {
            media,
            calls: s.calls.remove(call_id),
            trunks: leg_ended(leg_ended(s.trunks, c.from), c.to),
            ..s
        }
    } else {
        SipView { media, ..s }
    }
}

/// The state with the status of a trunk changed.
pub open spec fn trunk_updated(
    s: SipView,
    name: Seq<char>,
    status: TrunkStatus,
    detail: Seq<char>,
    peer_addr: Option<SocketAddress>,
    now_ms: u64,
) -> SipView {
    if s.trunks.contains_key(name) {
        let t = s.trunks[name];
        SipView {
            trunks: s.trunks.insert(
                name,
                TrunkStateView {
                    status,
                    detail,
                    last_event_ms: now_ms,
                    peer_addr: if peer_addr is Some {
                        peer_addr
                    } else {
                        t.peer_addr
                    },
                    ..t
                },
            ),
            ..s
        }
    } else {
        s
    }
}

/// The state with a call answered.
pub open spec fn call_answered(s: SipView, call_id: Seq<char>, now_ms: u64) -> SipView {
    if s.calls.contains_key(call_id) {
        SipView {
            calls: s.calls.insert(
                call_id,
                SipCallView {
                    answered_at_ms: Some(now_ms),
                    state: "answered"@,
                    ..s.calls[call_id]
                },
            ),
            ..s
        }
    } else {
        s
    }
}

/// The later of two times.
pub open spec fn later(a: u64, b: u64) -> u64 {
    if a < b {
        b
    } else {
        a
    }
}

/// The latest of the times, 0 where there are none.
pub open spec fn latest(ts: Seq<u64>) -> u64
    decreases ts.len(),
{
    if ts.len() == 0 {
        0
    } else {
        later(latest(ts.drop_last()), ts.last())
    }
}

/// When RTP of the call was last received, 0 for never.
pub open spec fn last_rx(s: SipView, call_id: Seq<char>) -> u64 {
    if s.media.contains_key(call_id) {
        latest(s.media[call_id])
    } else {
        0
    }
}

/// Whether the call was answered and no RTP was received on any leg for `timeout_ms`, counted from
/// the answer where none ever was.
pub open spec fn is_idle(s: SipView, call_id: Seq<char>, timeout_ms: u64, now_ms: u64) -> bool {
    match s.calls[call_id].answered_at_ms {
        Some(answered) => since(later(answered, last_rx(s, call_id)) as int, now_ms as int)
            >= timeout_ms,
        None => false,
    }
}

/// `l` lists the active calls that meet the test, each once.
pub open spec fn lists_ids(
    l: Seq<Seq<char>>,
    calls: Map<Seq<char>, SipCallView>,
    test: spec_fn(Seq<char>) -> bool,
) -> bool {
    &&& l.no_duplicates()
    &&& forall|i: int| 0 <= i < l.len() ==> calls.contains_key(#[trigger] l[i]) && test(l[i])
    &&& forall|k: Seq<char>| #[trigger] calls.contains_key(k) && test(k) ==> l.contains(k)
}

/// A SIP side with nothing registered.
pub open spec fn blank(enabled: bool, listen: Seq<char>, realm: Seq<char>) -> SipView {
    SipView {
        registrations: Map::empty(),
        trunks: Map::empty(),
        calls: Map::empty(),
        media: Map::empty(),
        total_calls: 0,
        total_registrations: 0,
        enabled,
        listen,
        realm,
    }
}

/// Whether the address of record has a live binding: one whose end has not come.
pub open spec fn live(s: SipView, aor: Seq<char>, now_ms: u64) -> bool {
    s.registrations.contains_key(aor) && s.registrations[aor].expires_at_ms > now_ms
}

/// The state once a binding is recorded or refreshed.
pub open spec fn bound(s: SipView, reg: RegistrationView) -> SipView {
    SipView {
        registrations: s.registrations.insert(reg.aor, reg),
        total_registrations: (s.total_registrations + (if s.registrations.contains_key(reg.aor) {
            0int
        } else {
            1
        })) as u64,
        ..s
    }
}

/// The state once a binding is removed.
pub open spec fn unbound(s: SipView, aor: Seq<char>) -> SipView {
    SipView { registrations: s.registrations.remove(aor), ..s }
}

/// The state with its live bindings only.
pub open spec fn purged(s: SipView, now_ms: u64) -> SipView {
    SipView {
        registrations: s.registrations.restrict(Set::new(|k: Seq<char>| live(s, k, now_ms))),
        ..s
    }
}

/// The state once a trunk is put in.
pub open spec fn trunk_put(s: SipView, trunk: TrunkStateView) -> SipView {
    SipView { trunks: s.trunks.insert(trunk.name, trunk), ..s }
}

/// The state once the relay ports of a call are noted, as far as they are given.
pub open spec fn call_ported(s: SipView, call_id: Seq<char>, a: Option<u16>, b: Option<u16>) -> SipView {
    if s.calls.contains_key(call_id) {
        let c = s.calls[call_id];
        let ported = SipCallView {
            rtp_a_port: if a is Some {
                a
            } else {
                c.rtp_a_port
            },
            rtp_b_port: if b is Some {
                b
            } else {
                c.rtp_b_port
            },
            ..c
        };
        SipView { calls: s.calls.insert(call_id, ported), ..s }
    } else {
        s
    }
}

spec fn among<B>(items: Seq<(Seq<char>, B)>, n: int, k: Seq<char>) -> bool {
    exists|j: int| 0 <= j < n && #[trigger] items[j].0 == k
}

impl SipState {
    /// A SIP side with nothing registered.
    pub fn new(enabled: bool, listen: String, realm: String) -> (r: Self)
        ensures
            r@ == blank(enabled, listen@, realm@),
    {
        SipState {
            registrations: Table::new(),
            trunks: Table::new(),
            calls: Table::new(),
            media: Table::new(),
            total_calls: 0,
            total_registrations: 0,
            enabled,
            listen,
            realm,
        }
    }

    /// Records or refreshes a binding; whether it is a new one.
    pub fn upsert_registration(&mut self, reg: Registration) -> (r: bool)
        requires
            old(self)@.total_registrations < u64::MAX,
        ensures
            r == !old(self)@.registrations.contains_key(reg@.aor),
            final(self)@ == bound(old(self)@, reg@),
    {
        let is_new = !self.registrations.contains_key(&reg.aor);
        if is_new {
            self.total_registrations = self.total_registrations + 1;
        }
        let aor = reg.aor.clone();
        self.registrations.insert(aor, reg);
        is_new
    }

    /// Removes a binding.
    pub fn remove_registration(&mut self, aor: &str)
        ensures
            final(self)@ == unbound(old(self)@, aor@),
    {
        let _ = self.registrations.remove(&aor.to_string());
    }

    /// The binding of an address of record, if it has a live one.
    pub fn lookup_registration(&self, aor: &str, now_ms: u64) -> (r: Option<Registration>)
        ensures
            match r {
                Some(reg) => live(self@, aor@, now_ms) && reg@ == self@.registrations[aor@],
                None => !live(self@, aor@, now_ms),
            },
    {
        match self.registrations.get(&aor.to_string()) {
            Some(reg) => {
                if reg.expires_at_ms > now_ms {
                    Some(reg.dup())
                } else {
                    None
                }
            },
            None => None,
        }
    }

    /// Drops the bindings that have gone stale.
    pub fn purge_expired(&mut self, now_ms: u64)
        ensures
            final(self)@ == purged(old(self)@, now_ms),
    {
        let ghost before = self@;
        let mut kept: Table<String, Registration> = Table::new();
        let n = self.registrations.len();
        let ghost items = self.registrations.items();
        let mut i: usize = 0;
        while i < n
            invariant
                i <= n,
                self@ == before,
                items == self.registrations.items(),
                n == items.len(),
                lists(items, self.registrations@),
                forall|k: Seq<char>| #[trigger]
                    kept@.contains_key(k) <==> exists|j: int|
                        0 <= j < i && #[trigger] items[j].0 == k && items[j].1.expires_at_ms
                            > now_ms,
                forall|k: Seq<char>| #[trigger]
                    kept@.contains_key(k) ==> kept@[k] == self.registrations@[k],
            decreases n - i,
        {
            let reg = self.registrations.value_at(i);
            assert(items[i as int].1 == self.registrations@[items[i as int].0]);
            if reg.expires_at_ms > now_ms {
                let key = self.registrations.key_at(i).clone();
                kept.insert(key, reg.dup());
            }
            i += 1;
        }
        proof {
            let want = purged(before, now_ms).registrations;
            assert forall|k: Seq<char>| #[trigger] kept@.contains_key(k) == want.contains_key(k) by {
                if before.registrations.contains_key(k) {
                    assert(has_key(items, k));
                    let j = choose|j: int| 0 <= j < items.len() && #[trigger] items[j].0 == k;
                    assert(items[j].0 == k);
                }
                if kept@.contains_key(k) {
                    let j = choose|j: int|
                        0 <= j < n && #[trigger] items[j].0 == k && items[j].1.expires_at_ms > now_ms;
                    assert(self.registrations@.contains_key(items[j].0));
                }
            }
            assert(kept@ =~= want);
        }
        self.registrations = kept;
    }

    /// Puts a trunk in, or in place of the one of its name.
    pub fn set_trunk(&mut self, trunk: TrunkState)
        ensures
            final(self)@ == trunk_put(old(self)@, trunk@),
    {
        let name = trunk.name.clone();
        self.trunks.insert(name, trunk);
    }

    /// Changes the status of a trunk that is there.
    pub fn update_trunk_status(
        &mut self,
        name: &str,
        status: TrunkStatus,
        detail: String,
        peer_addr: Option<SocketAddress>,
        now_ms: u64,
    )
        ensures
            final(self)@ == trunk_updated(
                old(self)@,
                name@,
                status,
                detail@,
                peer_addr,
                now_ms,
            ),
    {
        let key = name.to_string();
        match self.trunks.remove(&key) {
            Some(mut t) => {
                t.status = status;
                t.detail = detail;
                t.last_event_ms = now_ms;
                if peer_addr.is_some() {
                    t.peer_addr = peer_addr;
                }
                self.trunks.insert(key, t);
            },
            None => {},
        }
        assert(self@ =~= trunk_updated(old(self)@, name@, status, detail@, peer_addr, now_ms));
    }

    /// The learned address of a trunk's peer.
    pub fn trunk_for_peer_addr(&self, name: &str) -> (r: Option<SocketAddress>)
        ensures
            r == (if self@.trunks.contains_key(name@) {
                self@.trunks[name@].peer_addr
            } else {
                None
            }),
    {
        match self.trunks.get(&name.to_string()) {
            Some(t) => t.peer_addr,
            None => None,
        }
    }

    /// A trunk whose peer is at the address.
    pub fn trunk_for_peer(&self, addr: &SocketAddress) -> (r: Option<String>)
        ensures
            match r {
                Some(name) => self@.trunks.contains_key(name@) && self@.trunks[name@].peer_addr
                    == Some(*addr),
                None => forall|k: Seq<char>| #[trigger]
                    self@.trunks.contains_key(k) ==> self@.trunks[k].peer_addr != Some(*addr),
            },
    {
        let n = self.trunks.len();
        let mut i: usize = 0;
        while i < n
            invariant
                i <= n,
                n == self.trunks.items().len(),
                lists(self.trunks.items(), self.trunks@),
                forall|j: int|
                    0 <= j < i ==> (#[trigger] self.trunks.items()[j]).1.peer_addr != Some(*addr),
            decreases n - i,
        {
            let t = self.trunks.value_at(i);
            let found = match t.peer_addr {
                Some(a) => a == *addr,
                None => false,
            };
            if found {
                assert(self.trunks@.contains_key(self.trunks.items()[i as int].0));
                return Some(self.trunks.key_at(i).clone());
            }
            i += 1;
        }
        assert forall|k: Seq<char>| #[trigger] self@.trunks.contains_key(k) implies self@.trunks[k].peer_addr
            != Some(*addr) by {
            assert(has_key(self.trunks.items(), k));
            let j = choose|j: int| 0 <= j < n && #[trigger] self.trunks.items()[j].0 == k;
            assert(self.trunks.items()[j].0 == k);
        }
        None
    }

    fn begin_leg(&mut self, ep: &LegEndpoint)
        requires
            forall|k: Seq<char>| #[trigger]
                old(self)@.trunks.contains_key(k) ==> old(self)@.trunks[k].active_calls < u32::MAX,
        ensures
            final(self)@ == (SipView {
                trunks: leg_begun(old(self)@.trunks, ep@),
                ..old(self)@
            }),
    {
        match ep {
            LegEndpoint::SipTrunk { trunk, .. } => {
                match self.trunks.remove(trunk) {
                    Some(mut t) => {
                        assert(old(self)@.trunks.contains_key(trunk@));
                        t.active_calls = t.active_calls + 1;
                        self.trunks.insert(trunk.clone(), t);
                    },
                    None => {},
                }
            },
            _ => {},
        }
        assert(self@.trunks =~= leg_begun(old(self)@.trunks, ep@));
    }

    fn end_leg(&mut self, ep: &LegEndpoint)
        ensures
            final(self)@ == (SipView {
                trunks: leg_ended(old(self)@.trunks, ep@),
                ..old(self)@
            }),
    {
        match ep {
            LegEndpoint::SipTrunk { trunk, .. } => {
                match self.trunks.remove(trunk) {
                    Some(mut t) => {
                        t.active_calls = t.active_calls.saturating_sub(1);
                        self.trunks.insert(trunk.clone(), t);
                    },
                    None => {},
                }
            },
            _ => {},
        }
        assert(self@.trunks =~= leg_ended(old(self)@.trunks, ep@));
    }

    /// Puts a new call in, and counts it on each trunk that it has a leg on.
    pub fn start_call(&mut self, call: SipCall)
        requires
            has_room(old(self)@),
        ensures
            final(self)@ == call_started(old(self)@, call@),
    {
        self.total_calls = self.total_calls + 1;
        self.begin_leg(&call.from);
        self.begin_leg(&call.to);
        let id = call.call_id.clone();
        self.calls.insert(id, call);
    }

    /// Marks a call answered.
    pub fn answer_call(&mut self, call_id: &str, now_ms: u64)
        ensures
            final(self)@ == call_answered(old(self)@, call_id@, now_ms),
    {
        let key = call_id.to_string();
        match self.calls.remove(&key) {
            Some(mut c) => {
                c.answered_at_ms = Some(now_ms);
                c.state = "answered".to_string();
                self.calls.insert(key, c);
            },
            None => {},
        }
        assert(self@ =~= call_answered(old(self)@, call_id@, now_ms));
    }

    /// Notes the relay ports of a call, where they are given.
    pub fn set_call_rtp(&mut self, call_id: &str, a: Option<u16>, b: Option<u16>)
        ensures
            final(self)@ == call_ported(old(self)@, call_id@, a, b),
    {
        let key = call_id.to_string();
        match self.calls.remove(&key) {
            Some(mut c) => {
                if a.is_some() {
                    c.rtp_a_port = a;
                }
                if b.is_some() {
                    c.rtp_b_port = b;
                }
                self.calls.insert(key, c);
            },
            None => {},
        }
        assert(self@.calls =~= call_ported(old(self)@, call_id@, a, b).calls);
    }

    /// Adds the reception clock of a relay leg to a call; under which number it is kept.
    pub fn track_media(&mut self, call_id: &str, last_rx_ms: u64) -> (r: usize)
        ensures
            ({
                let clocks = if old(self)@.media.contains_key(call_id@) {
                    old(self)@.media[call_id@]
                } else {
                    Seq::empty()
                };
                &&& r == clocks.len()
                &&& final(self)@ == (SipView {
                    media: old(self)@.media.insert(call_id@, clocks.push(last_rx_ms)),
                    ..old(self)@
                })
            }),
    {
        let key = call_id.to_string();
        let mut clocks = match self.media.remove(&key) {
            Some(clocks) => clocks,
            None => Vec::new(),
        };
        let n = clocks.len();
        clocks.push(last_rx_ms);
        let ghost after = clocks@;
        self.media.insert(key, clocks);
        assert(self@.media =~= old(self)@.media.insert(call_id@, after));
        n
    }

    /// Notes that RTP was received on a tracked leg.
    pub fn media_heard(&mut self, call_id: &str, leg: usize, now_ms: u64)
        ensures
            final(self)@ == (if old(self)@.media.contains_key(call_id@) && leg
                < old(self)@.media[call_id@].len() {
                SipView {
                    media: old(self)@.media.insert(
                        call_id@,
                        old(self)@.media[call_id@].update(leg as int, now_ms),
                    ),
                    ..old(self)@
                }
            } else {
                old(self)@
            }),
    {
        let key = call_id.to_string();
        match self.media.remove(&key) {
            Some(mut clocks) => {
                if leg < clocks.len() {
                    clocks.set(leg, now_ms);
                }
                self.media.insert(key, clocks);
            },
            None => {},
        }
        assert(self@.media =~= (if old(self)@.media.contains_key(call_id@) && leg
            < old(self)@.media[call_id@].len() {
            old(self)@.media.insert(
                call_id@,
                old(self)@.media[call_id@].update(leg as int, now_ms),
            )
        } else {
            old(self)@.media
        }));
    }

    fn last_reception(&self, call_id: &String) -> (r: u64)
        ensures
            r == last_rx(self@, call_id@),
    {
        match self.media.get(call_id) {
            Some(clocks) => {
                let mut max: u64 = 0;
                let mut i: usize = 0;
                while i < clocks.len()
                    invariant
                        i <= clocks@.len(),
                        max == latest(clocks@.take(i as int)),
                    decreases clocks@.len() - i,
                {
                    assert(clocks@.take(i + 1).drop_last() =~= clocks@.take(i as int));
                    if max < clocks[i] {
                        max = clocks[i];
                    }
                    i += 1;
                }
                assert(clocks@.take(i as int) =~= clocks@);
                max
            },
            None => 0,
        }
    }

    /// The answered calls that have received no RTP on any leg for `timeout_ms`. A call that is
    /// still ringing carries no media and is left alone.
    pub fn idle_calls(&self, timeout_ms: u64, now_ms: u64) -> (r: Vec<String>)
        ensures
            lists_ids(
                texts_of(r@),
                self@.calls,
                |k: Seq<char>| is_idle(self@, k, timeout_ms, now_ms),
            ),
    {
        let mut out: Vec<String> = Vec::new();
        let n = self.calls.len();
        let ghost items = self.calls.items();
        let mut i: usize = 0;
        while i < n
            invariant
                i <= n,
                items == self.calls.items(),
                n == items.len(),
                lists(items, self.calls@),
                texts_of(out@).no_duplicates(),
                forall|a: int|
                    0 <= a < out@.len() ==> among(items, i as int, (#[trigger] out@[a])@) && is_idle(
                        self@,
                        out@[a]@,
                        timeout_ms,
                        now_ms,
                    ),
                forall|j: int|
                    0 <= j < i && is_idle(self@, (#[trigger] items[j]).0, timeout_ms, now_ms)
                        ==> texts_of(out@).contains(items[j].0),
            decreases n - i,
        {
            let call = self.calls.value_at(i);
            let key = self.calls.key_at(i);
            let idle = match call.answered_at_ms {
                Some(answered) => {
                    let rx = self.last_reception(key);
                    let active = if answered < rx {
                        rx
                    } else {
                        answered
                    };
                    now_ms.saturating_sub(active) >= timeout_ms
                },
                None => false,
            };
            assert(self.calls@[items[i as int].0] == items[i as int].1);
            assert(idle == is_idle(self@, items[i as int].0, timeout_ms, now_ms));
            if idle {
                let ghost before = texts_of(out@);
                let ghost old_out = out@;
                out.push(key.clone());
                proof {
                    let after = texts_of(out@);
                    assert(after =~= before.push(items[i as int].0));
                    assert(!before.contains(items[i as int].0)) by {
                        if before.contains(items[i as int].0) {
                            let a = choose|a: int| 0 <= a < before.len() && before[a] == items[i as int].0;
                            assert(before[a] == old_out[a]@);
                            let j = choose|j: int| 0 <= j < i && #[trigger] items[j].0 == old_out[a]@;
                            assert(items[j].0 != items[i as int].0);
                        }
                    }
                    assert forall|a: int| 0 <= a < out@.len() implies is_idle(
                        self@,
                        (#[trigger] out@[a])@,
                        timeout_ms,
                        now_ms,
                    ) by {
                        if a < old_out.len() {
                            assert(out@[a] == old_out[a]);
                        }
                    }
                    assert forall|j: int| 0 <= j < i + 1 && is_idle(
                        self@,
                        (#[trigger] items[j]).0,
                        timeout_ms,
                        now_ms,
                    ) implies after.contains(items[j].0) by {
                        if j < i {
                            assert(before.contains(items[j].0));
                            let a = choose|a: int| 0 <= a < before.len() && before[a] == items[j].0;
                            assert(after[a] == items[j].0);
                        } else {
                            assert(after[before.len() as int] == items[j].0);
                        }
                    }
                }
            }
            assert forall|a: int| 0 <= a < out@.len() implies among(
                items,
                i + 1,
                (#[trigger] out@[a])@,
            ) by {
                if among(items, i as int, out@[a]@) {
                    let j = choose|j: int| 0 <= j < i && #[trigger] items[j].0 == out@[a]@;
                    assert(items[j].0 == out@[a]@);
                } else {
                    assert(items[i as int].0 == out@[a]@);
                }
            }
            i += 1;
        }
        proof {
            let l = texts_of(out@);
            let test = |k: Seq<char>| is_idle(self@, k, timeout_ms, now_ms);
            assert forall|a: int| 0 <= a < l.len() implies self@.calls.contains_key(#[trigger] l[a]) && test(
                l[a],
            ) by {
                assert(l[a] == out@[a]@);
                let j = choose|j: int| 0 <= j < n && #[trigger] items[j].0 == out@[a]@;
                assert(self.calls@.contains_key(items[j].0));
            }
            assert forall|k: Seq<char>| #[trigger] self@.calls.contains_key(k) && test(k) implies l.contains(
                k,
            ) by {
                assert(has_key(items, k));
                let j = choose|j: int| 0 <= j < n && #[trigger] items[j].0 == k;
                assert(items[j].0 == k);
            }
        }
        out
    }

    /// Ends a call, and takes it off the counts of its trunks.
    pub fn end_call(&mut self, call_id: &str)
        ensures
            final(self)@ == call_ended(old(self)@, call_id@),
    {
        let key = call_id.to_string();
        let _ = self.media.remove(&key);
        match self.calls.remove(&key) {
            Some(c) => {
                self.end_leg(&c.from);
                self.end_leg(&c.to);
            },
            None => {
                assert(self@.calls =~= old(self)@.calls);
            },
        }
        assert(self@ =~= call_ended(old(self)@, call_id@));
    }
}

// ---- laws ----

/// Each record is kept under its own name.
pub open spec fn keyed(s: SipView) -> bool {
    &&& forall|k: Seq<char>| #[trigger]
        s.registrations.contains_key(k) ==> s.registrations[k].aor == k
    &&& forall|k: Seq<char>| #[trigger] s.trunks.contains_key(k) ==> s.trunks[k].name == k
    &&& forall|k: Seq<char>| #[trigger] s.calls.contains_key(k) ==> s.calls[k].call_id == k
}

/// A new SIP side keeps each record under its own name: it has none.
pub proof fn blank_is_keyed(enabled: bool, listen: Seq<char>, realm: Seq<char>)
    ensures
        keyed(blank(enabled, listen, realm)),
{
}

/// Whatever happens to the records, each stays under its own name.
pub proof fn records_stay_keyed(
    s: SipView,
    reg: RegistrationView,
    aor: Seq<char>,
    trunk: TrunkStateView,
    call: SipCallView,
    call_id: Seq<char>,
    a: Option<u16>,
    b: Option<u16>,
    name: Seq<char>,
    status: TrunkStatus,
    detail: Seq<char>,
    peer_addr: Option<SocketAddress>,
    now_ms: u64,
)
    requires
        keyed(s),
    ensures
        keyed(bound(s, reg)),
        keyed(unbound(s, aor)),
        keyed(purged(s, now_ms)),
        keyed(trunk_put(s, trunk)),
        keyed(call_ported(s, call_id, a, b)),
        keyed(call_started(s, call)),
        keyed(call_ended(s, call_id)),
        keyed(call_answered(s, call_id, now_ms)),
        keyed(trunk_updated(s, name, status, detail, peer_addr, now_ms)),
{
}

proof fn lemma_leg_back(trunks: Map<Seq<char>, TrunkStateView>, ep: LegView)
    requires
        forall|k: Seq<char>| #[trigger]
            trunks.contains_key(k) ==> trunks[k].active_calls < u32::MAX,
    ensures
        leg_ended(leg_begun(trunks, ep), ep) == trunks,
{
    assert(leg_ended(leg_begun(trunks, ep), ep) =~= trunks);
}

proof fn lemma_legs_swap(trunks: Map<Seq<char>, TrunkStateView>, a: LegView, b: LegView)
    ensures
        leg_ended(leg_ended(trunks, a), b) == leg_ended(leg_ended(trunks, b), a),
{
    assert(leg_ended(leg_ended(trunks, a), b) =~= leg_ended(leg_ended(trunks, b), a));
}

/// A binding is found until its end and not from then on, whether or not it was purged.
pub proof fn binding_ends_on_time(s: SipView, reg: RegistrationView, now_ms: u64, purge_ms: u64)
    requires
        purge_ms <= now_ms,
    ensures
        live(bound(s, reg), reg.aor, now_ms) == (reg.expires_at_ms > now_ms),
        live(purged(bound(s, reg), purge_ms), reg.aor, now_ms) == (reg.expires_at_ms > now_ms),
{
}

/// A call that is started and ended leaves everything as it was, but for the count of all calls.
pub proof fn ended_call_leaves_no_trace(s: SipView, call: SipCallView)
    requires
        has_room(s),
        !s.calls.contains_key(call.call_id),
        !s.media.contains_key(call.call_id),
    ensures
        call_ended(call_started(s, call), call.call_id) == (SipView {
            total_calls: (s.total_calls + 1) as u64,
            ..s
        }),
{
    let t = call_started(s, call);
    let one = leg_begun(s.trunks, call.from);
    lemma_leg_back(s.trunks, call.from);
    lemma_leg_back(one, call.to);
    lemma_legs_swap(t.trunks, call.from, call.to);
    assert(t.calls.remove(call.call_id) =~= s.calls);
    assert(t.media.remove(call.call_id) =~= s.media);
}

/// A call is not idle while RTP was received on one of its legs less than the timeout ago.
pub proof fn heard_call_is_not_idle(
    s: SipView,
    call_id: Seq<char>,
    leg: int,
    timeout_ms: u64,
    now_ms: u64,
)
    requires
        s.media.contains_key(call_id),
        0 <= leg < s.media[call_id].len(),
        timeout_ms > 0,
        now_ms - s.media[call_id][leg] < timeout_ms,
    ensures
        !is_idle(s, call_id, timeout_ms, now_ms),
{
    lemma_latest(s.media[call_id], leg);
}

proof fn lemma_latest(ts: Seq<u64>, i: int)
    requires
        0 <= i < ts.len(),
    ensures
        ts[i] <= latest(ts),
    decreases ts.len(),
{
    if i < ts.len() - 1 {
        lemma_latest(ts.drop_last(), i);
    }
}

} // verus!
