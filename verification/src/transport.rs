//! The SIP side of the server: the host that it advertises, its trunks, its random tokens and the
//! digest nonces that it issues.
use crate::addr::SocketAddress;
use crate::brew::{since, Action, ActionView, Now};
use crate::config::{SipTrunkConfig, TrunkDirection, TrunkView};
use crate::dialog::{Relayed, RelayedView};
use crate::ids::{is_token, is_v4, new_v4, rand_hex};
use crate::message::{respond, response, SipMessage, SipMessageView, SipRequest};
use crate::rtp::RtpLeg;
use crate::sip_state::{SipState, SipView, TrunkState, TrunkStateView, TrunkStatus};
use crate::table::{has_key, lists, KeySet, Table};
use crate::text::{
    before_first, chars_of, find, lemma_span, other_than, parse_unsigned, slice_of, span, string_of,
    unsigned_value,
};
use vstd::prelude::*;
use vstd::string::*;

verus! {

// ---- the advertised host ----

/// What follows the first colon; nothing where there is none.
pub open spec fn after_colon(s: Seq<char>) -> Seq<char> {
    let n = span(s, other_than(':'));
    if n < s.len() {
        s.skip(n + 1)
    } else {
        Seq::empty()
    }
}

/// Whether the text is a host with a port: one colon, and a port number after it.
pub open spec fn has_port(s: Seq<char>) -> bool {
    &&& span(s, other_than(':')) < s.len()
    &&& !after_colon(s).contains(':')
    &&& unsigned_value(after_colon(s), 0xFFFF) is Some
}

/// The host without a port.
pub open spec fn sanitized(s: Seq<char>) -> Seq<char> {
    if has_port(s) {
        before_first(s, ':')
    } else {
        s
    }
}

/// The configured host to advertise, without a port: it is written into session descriptions,
/// which never carry one. An IPv6 literal is left as it is.
pub fn sanitize_advertised_host(configured: &str) -> (r: String)
    ensures
        r@ == sanitized(configured@),
{
    let v = chars_of(configured);
    assert(v@.skip(0) =~= v@);
    let n = find(&v, ':', 0);
    if n < v.len() {
        let rest = slice_of(&v, n + 1, v.len());
        assert(rest@ =~= after_colon(configured@));
        assert(rest@.skip(0) =~= rest@);
        let m = find(&rest, ':', 0);
        proof {
            lemma_span(rest@, other_than(':'));
            if m < rest@.len() {
                assert(rest@[m as int] == ':');
            }
        }
        if m == rest.len() && parse_unsigned(&rest, 0xFFFF).is_some() {
            let host = slice_of(&v, 0, n);
            assert(host@ =~= before_first(configured@, ':'));
            return string_of(host.as_slice());
        }
    }
    configured.to_string()
}

/// A host that was once made bare stays as it is.
pub proof fn sanitizing_is_idempotent(s: Seq<char>)
    ensures
        sanitized(sanitized(s)) == sanitized(s),
{
    if has_port(s) {
        let t = before_first(s, ':');
        lemma_span(s, other_than(':'));
        lemma_span(t, other_than(':'));
        let n = span(t, other_than(':'));
        if n < t.len() {
            assert(t[n] == s[n]);
            assert(other_than(':')(s[n]));
        }
    }
}

/// The host that the server names: the configured one, else that of its socket, or the detected one
/// where the socket is bound to all of them.
pub open spec fn host_choice(
    configured: Seq<char>,
    local: SocketAddress,
    local_host: Seq<char>,
    detected: Seq<char>,
) -> Seq<char> {
    if configured.len() > 0 {
        sanitized(configured)
    } else if local.unspecified() {
        detected
    } else {
        local_host
    }
}

/// The host to advertise: the configured one, else the one of the socket, unless that is the
/// wildcard, which no peer can reach; then the one that was detected.
pub fn choose_advertised_host(
    configured: &str,
    local: &SocketAddress,
    local_host: &str,
    detected: &str,
) -> (r: String)
    ensures
        r@ == host_choice(configured@, *local, local_host@, detected@),
{
    if configured.unicode_len() > 0 {
        sanitize_advertised_host(configured)
    } else if local.is_unspecified() {
        detected.to_string()
    } else {
        local_host.to_string()
    }
}

// ---- trunks ----

/// A direction in words.
pub open spec fn direction_text(d: TrunkDirection) -> Seq<char> {
    match d {
        TrunkDirection::Inbound => "inbound"@,
        TrunkDirection::Outbound => "outbound"@,
        TrunkDirection::Peer => "peer"@,
    }
}

/// The state that a provisioned trunk starts in.
pub open spec fn trunk_seed(
    name: Seq<char>,
    tc: TrunkView,
    peer_addr: Option<SocketAddress>,
    now_ms: u64,
) -> TrunkStateView {
    TrunkStateView {
        name,
        direction: direction_text(tc.direction),
        remote_host: tc.remote_host,
        status: TrunkStatus::Down,
        peer_addr,
        last_event_ms: now_ms,
        detail: if tc.enabled {
            "provisioned"@
        } else {
            "disabled"@
        },
        active_calls: 0,
    }
}

/// The state that a provisioned trunk starts in; `peer_addr` is its remote host read as an address.
pub fn seed_trunk(
    name: &str,
    tc: &SipTrunkConfig,
    peer_addr: Option<SocketAddress>,
    now_ms: u64,
) -> (r: TrunkState)
    ensures
        r@ == trunk_seed(name@, tc@, peer_addr, now_ms),
{
    TrunkState {
        name: name.to_string(),
        direction: match tc.direction {
            TrunkDirection::Inbound => "inbound".to_string(),
            TrunkDirection::Outbound => "outbound".to_string(),
            TrunkDirection::Peer => "peer".to_string(),
        },
        remote_host: tc.remote_host.clone(),
        status: TrunkStatus::Down,
        peer_addr,
        last_event_ms: now_ms,
        detail: if tc.enabled {
            "provisioned".to_string()
        } else {
            "disabled".to_string()
        },
        active_calls: 0,
    }
}

/// Whether this server registers with the trunk's peer.
pub fn registers_out(tc: &SipTrunkConfig) -> (r: bool)
    ensures
        r == (tc@.enabled && tc@.direction == TrunkDirection::Outbound && tc@.remote_host.len() > 0),
{
    tc.enabled && tc.direction == TrunkDirection::Outbound && tc.remote_host.as_str().unicode_len()
        > 0
}

// ---- tokens ----

/// The random values that handling one event may need.
pub struct Tokens {
    /// A tag for the To header of a response.
    pub tag: String,
    /// A digest nonce.
    pub nonce: String,
    /// A branch for the Via header of a request to a callee.
    pub branch: String,
    /// A tag for the From header of a request.
    pub local_tag: String,
    /// A tag for a dialog with the Brew side.
    pub dialog_tag: String,
    /// A branch for a request of a dialog with the Brew side, or to a caller.
    pub dialog_branch: String,
    /// What the Call-ID of a call from the Brew side is made of.
    pub call: String,
    /// The identifier of a Brew call.
    pub brew_call: u128,
    /// The identifier of a virtual client.
    pub client: u128,
}

/// The contents of `Tokens`.
#[verifier::ext_equal]
pub struct TokensView {
    pub tag: Seq<char>,
    pub nonce: Seq<char>,
    pub branch: Seq<char>,
    pub local_tag: Seq<char>,
    pub dialog_tag: Seq<char>,
    pub dialog_branch: Seq<char>,
    pub call: Seq<char>,
    pub brew_call: u128,
    pub client: u128,
}

impl View for Tokens {
    type V = TokensView;

    open spec fn view(&self) -> TokensView {
        TokensView {
            tag: self.tag@,
            nonce: self.nonce@,
            branch: self.branch@,
            local_tag: self.local_tag@,
            dialog_tag: self.dialog_tag@,
            dialog_branch: self.dialog_branch@,
            call: self.call@,
            brew_call: self.brew_call,
            client: self.client,
        }
    }
}

/// The tokens were drawn at random.
pub open spec fn drawn(t: TokensView) -> bool {
    &&& is_token(t.tag, 12)
    &&& is_token(t.nonce, 32)
    &&& is_token(t.branch, 16)
    &&& is_token(t.local_tag, 12)
    &&& is_token(t.dialog_tag, 32)
    &&& is_token(t.dialog_branch, 32)
    &&& is_token(t.call, 32)
    &&& is_v4(t.brew_call)
    &&& is_v4(t.client)
}

impl Tokens {
    /// Fresh random values.
    pub fn draw() -> (r: Self)
        ensures
            drawn(r@),
    {
        Tokens {
            tag: rand_hex(12),
            nonce: rand_hex(32),
            branch: rand_hex(16),
            local_tag: rand_hex(12),
            dialog_tag: rand_hex(32),
            dialog_branch: rand_hex(32),
            call: rand_hex(32),
            brew_call: new_v4(),
            client: new_v4(),
        }
    }
}

// ---- the transport ----

/// What is to be done, in order, after a SIP event was handled.
pub enum SipAction {
    /// Send the message to the address.
    Send { message: SipMessage, to: SocketAddress },
    /// Relay RTP between the two legs of the call.
    StartRelay { call_id: String, a: RtpLeg, b: RtpLeg },
    /// Stop relaying RTP for the call.
    AbortRelay { call_id: String },
    /// Transcode between an RTP leg and the frames of a Brew call.
    StartTranscoder { call_id: String, leg: RtpLeg, media: Transcoding },
    /// Stop transcoding for the call.
    AbortTranscoder { call_id: String },
    /// Something to be done on the Brew side.
    Brew(Action),
}

/// What a transcoder works on.
pub struct Transcoding {
    /// The RTP payload type of the SIP side.
    pub payload_type: u8,
    pub brew_call: u128,
    /// The virtual client whose frames it takes.
    pub client: u128,
    /// The clients that its frames go to.
    pub targets: KeySet<u128>,
}

/// The contents of a `Transcoding`.
#[verifier::ext_equal]
pub struct TranscodingView {
    pub payload_type: u8,
    pub brew_call: u128,
    pub client: u128,
    pub targets: Set<u128>,
}

impl View for Transcoding {
    type V = TranscodingView;

    open spec fn view(&self) -> TranscodingView {
        TranscodingView {
            payload_type: self.payload_type,
            brew_call: self.brew_call,
            client: self.client,
            targets: self.targets@,
        }
    }
}

/// The contents of a `SipAction`.
#[verifier::ext_equal]
pub enum SipActionView {
    Send { message: SipMessageView, to: SocketAddress },
    StartRelay { call_id: Seq<char>, a: RtpLeg, b: RtpLeg },
    AbortRelay { call_id: Seq<char> },
    StartTranscoder { call_id: Seq<char>, leg: RtpLeg, media: TranscodingView },
    AbortTranscoder { call_id: Seq<char> },
    Brew(ActionView),
}

impl View for SipAction {
    type V = SipActionView;

    open spec fn view(&self) -> SipActionView {
        match self {
            SipAction::Send { message, to } => SipActionView::Send { message: message@, to: *to },
            SipAction::StartRelay { call_id, a, b } => SipActionView::StartRelay {
                call_id: call_id@,
                a: *a,
                b: *b,
            },
            SipAction::AbortRelay { call_id } => SipActionView::AbortRelay { call_id: call_id@ },
            SipAction::StartTranscoder { call_id, leg, media } => SipActionView::StartTranscoder {
                call_id: call_id@,
                leg: *leg,
                media: media@,
            },
            SipAction::AbortTranscoder { call_id } => SipActionView::AbortTranscoder {
                call_id: call_id@,
            },
            SipAction::Brew(action) => SipActionView::Brew(action@),
        }
    }
}

/// The contents of a list of actions.
pub open spec fn sip_actions_view(v: Seq<SipAction>) -> Seq<SipActionView> {
    Seq::new(v.len(), |i: int| v[i]@)
}

/// The SIP side of the server.
pub struct SipTransport {
    pub state: SipState,
    /// The host that the server's messages and descriptions name.
    pub advertised_host: String,
    /// When each digest nonce was issued (monotonic nanoseconds).
    pub nonces: Table<String, u128>,
    /// The calls whose RTP is being relayed, by Call-ID.
    pub relays: Table<String, Relayed>,
    /// Whether calls can be bridged to the Brew side.
    pub bridge: bool,
}

/// The contents of a `SipTransport`.
#[verifier::ext_equal]
pub struct TransportView {
    pub sip: SipView,
    pub advertised_host: Seq<char>,
    pub nonces: Map<Seq<char>, u128>,
    pub relays: Map<Seq<char>, RelayedView>,
    pub bridge: bool,
}

impl View for SipTransport {
    type V = TransportView;

    open spec fn view(&self) -> TransportView {
        TransportView {
            sip: self.state@,
            advertised_host: self.advertised_host@,
            nonces: self.nonces@,
            relays: self.relays@,
            bridge: self.bridge,
        }
    }
}

/// How long a nonce is good for (nanoseconds).
pub const NONCE_TTL_NS: u128 = 120_000_000_000;

/// The nonces that are still good.
pub open spec fn good_nonces(nonces: Map<Seq<char>, u128>, now: Now) -> Map<Seq<char>, u128> {
    nonces.restrict(
        Set::new(
            |k: Seq<char>|
                since(nonces[k] as int, now.mono_ns as int) < NONCE_TTL_NS,
        ),
    )
}

impl SipTransport {
    /// A transport without nonces and relays.
    pub fn new(state: SipState, advertised_host: String, bridge: bool) -> (r: Self)
        ensures
            r@ == (TransportView {
                sip: state@,
                advertised_host: advertised_host@,
                nonces: Map::empty(),
                relays: Map::empty(),
                bridge,
            }),
    {
        SipTransport {
            state,
            advertised_host,
            nonces: Table::new(),
            relays: Table::new(),
            bridge,
        }
    }

    /// Remembers a nonce as issued.
    pub fn remember_nonce(&mut self, nonce: &String, now: Now)
        ensures
            final(self)@ == (TransportView {
                nonces: old(self)@.nonces.insert(nonce@, now.mono_ns),
                ..old(self)@
            }),
    {
        self.nonces.insert(nonce.clone(), now.mono_ns);
    }

    /// Issues a fresh nonce and remembers it.
    pub fn new_nonce(&mut self, now: Now) -> (r: String)
        ensures
            is_token(r@, 32),
            final(self)@ == (TransportView {
                nonces: old(self)@.nonces.insert(r@, now.mono_ns),
                ..old(self)@
            }),
    {
        let nonce = rand_hex(32);
        self.remember_nonce(&nonce, now);
        nonce
    }

    /// Whether a nonce was issued and is still good; those that are not are forgotten.
    pub fn nonce_valid(&mut self, nonce: &str, now: Now) -> (r: bool)
        ensures
            final(self)@ == (TransportView {
                nonces: good_nonces(old(self)@.nonces, now),
                ..old(self)@
            }),
            r == good_nonces(old(self)@.nonces, now).contains_key(nonce@),
    {
        let ghost before = self.nonces@;
        let mut kept: Table<String, u128> = Table::new();
        let n = self.nonces.len();
        let ghost items = self.nonces.items();
        let mut i: usize = 0;
        while i < n
            invariant
                i <= n,
                items == self.nonces.items(),
                self.nonces@ == before,
                n == items.len(),
                lists(items, before),
                self@.sip == old(self)@.sip,
                self@.advertised_host == old(self)@.advertised_host,
                self@.relays == old(self)@.relays,
                self@.bridge == old(self)@.bridge,
                forall|k: Seq<char>| #[trigger]
                    kept@.contains_key(k) <==> exists|j: int|
                        0 <= j < i && #[trigger] items[j].0 == k && since(
                            items[j].1 as int,
                            now.mono_ns as int,
                        ) < NONCE_TTL_NS,
                forall|k: Seq<char>| #[trigger] kept@.contains_key(k) ==> kept@[k] == before[k],
            decreases n - i,
        {
            let issued = *self.nonces.value_at(i);
            assert(items[i as int].1 == before[items[i as int].0]);
            if now.mono_ns.saturating_sub(issued) < NONCE_TTL_NS {
                let key = self.nonces.key_at(i).clone();
                kept.insert(key, issued);
            }
            i += 1;
        }
        proof {
            let want = good_nonces(before, now);
            assert forall|k: Seq<char>| #[trigger] kept@.contains_key(k) == want.contains_key(k) by {
                if before.contains_key(k) {
                    assert(has_key(items, k));
                    let j = choose|j: int| 0 <= j < items.len() && #[trigger] items[j].0 == k;
                    assert(items[j].0 == k);
                }
                if kept@.contains_key(k) {
                    let j = choose|j: int|
                        0 <= j < n && #[trigger] items[j].0 == k && since(
                            items[j].1 as int,
                            now.mono_ns as int,
                        ) < NONCE_TTL_NS;
                    assert(before.contains_key(items[j].0));
                }
            }
            assert(kept@ =~= want);
        }
        self.nonces = kept;
        self.nonces.contains_key(&nonce.to_string())
    }

    /// A response to a request, with a fresh tag where it needs one.
    pub fn base_response_pub(&self, req: &SipRequest, code: u16, reason: &str) -> (r: SipMessage)
        ensures
            exists|tag: Seq<char>| #[trigger] is_token(tag, 12) && r@ == response(
                req@,
                code,
                reason@,
                tag,
            ),
    {
        let tag = rand_hex(12);
        respond(req, code, reason, tag.as_str())
    }
}

/// A nonce is good for two minutes after it was issued.
pub proof fn issued_nonce_is_good(nonces: Map<Seq<char>, u128>, nonce: Seq<char>, issued: Now, now: Now)
    requires
        now.mono_ns < issued.mono_ns + NONCE_TTL_NS,
    ensures
        good_nonces(nonces.insert(nonce, issued.mono_ns), now).contains_key(nonce),
{
}

/// A nonce that was never issued is never good, and none is once its time is over.
pub proof fn other_nonces_are_not(nonces: Map<Seq<char>, u128>, nonce: Seq<char>, now: Now)
    requires
        !nonces.contains_key(nonce) || now.mono_ns >= nonces[nonce] + NONCE_TTL_NS,
    ensures
        !good_nonces(nonces, now).contains_key(nonce),
{
}

} // verus!
