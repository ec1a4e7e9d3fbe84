//! Registration with the peers of outbound trunks: a REGISTER, the answer to its challenge, and a
//! pause, over and over.
use crate::addr::SocketAddress;
use crate::brew::Now;
use crate::config::{SipTrunkConfig, TrunkView};
use crate::ids::{is_token, rand_hex};
use crate::invite::{
    add_tag, angled, make_angled, make_uri, make_via, sip_uri, trunk_user, user_of_trunk, via_value,
    with_tag,
};
use crate::message::{
    text_header, HeaderValue, Method, MethodView, SipMessage, SipMessageView, StartView, ValueView,
};
use crate::sip_state::{trunk_updated, SipState, SipView, TrunkStatus};
use crate::text::{before_first, decimal, decimal_string, take_before};
use vstd::prelude::*;
use vstd::string::*;

verus! {

/// Where the exchange with a peer stands.
#[derive(Clone, Copy, Debug, PartialEq, Eq, Structural)]
pub enum Phase {
    /// Between two registrations.
    Resting,
    /// The first REGISTER was sent.
    Asked,
    /// The REGISTER that answers the challenge was sent.
    Answered,
}

/// The registration of one trunk.
pub struct TrunkRegistration {
    pub name: String,
    pub host: String,
    pub user: String,
    pub password: String,
    pub peer: SocketAddress,
    /// Seconds between two registrations.
    pub interval: u64,
    /// The number of the next request.
    pub cseq: u32,
    /// The Call-ID of the current registration.
    pub call_id: String,
    pub phase: Phase,
}

/// The contents of a `TrunkRegistration`.
#[verifier::ext_equal]
pub struct TrunkRegistrationView {
    pub name: Seq<char>,
    pub host: Seq<char>,
    pub user: Seq<char>,
    pub password: Seq<char>,
    pub peer: SocketAddress,
    pub interval: u64,
    pub cseq: u32,
    pub call_id: Seq<char>,
    pub phase: Phase,
}

impl View for TrunkRegistration {
    type V = TrunkRegistrationView;

    open spec fn view(&self) -> TrunkRegistrationView {
        TrunkRegistrationView {
            name: self.name@,
            host: self.host@,
            user: self.user@,
            password: self.password@,
            peer: self.peer,
            interval: self.interval,
            cseq: self.cseq,
            call_id: self.call_id@,
            phase: self.phase,
        }
    }
}

/// A REGISTER to send.
pub struct RegisterRequest {
    pub call_id: String,
    pub cseq: u32,
    /// The name and value of the header that answers a challenge.
    pub auth: Option<(String, HeaderValue)>,
}

/// The contents of a `RegisterRequest`.
#[verifier::ext_equal]
pub struct RegisterView {
    pub call_id: Seq<char>,
    pub cseq: u32,
    pub auth: Option<(Seq<char>, ValueView)>,
}

impl View for RegisterRequest {
    type V = RegisterView;

    open spec fn view(&self) -> RegisterView {
        RegisterView {
            call_id: self.call_id@,
            cseq: self.cseq,
            auth: match self.auth {
                Some((name, value)) => Some((name@, value@)),
                None => None,
            },
        }
    }
}

/// The answer of a peer.
pub struct RegisterReply {
    pub code: Option<u16>,
    /// The challenge that it carries.
    pub challenge: Option<String>,
}

/// What is to be done next.
pub enum RegisterStep {
    /// Send the request, and wait for the answer.
    Send(RegisterRequest),
    /// Pause for so many seconds.
    Sleep(u64),
}

/// The contents of a `RegisterStep`.
#[verifier::ext_equal]
pub enum StepView {
    Send(RegisterView),
    Sleep(u64),
}

impl View for RegisterStep {
    type V = StepView;

    open spec fn view(&self) -> StepView {
        match self {
            RegisterStep::Send(r) => StepView::Send(r@),
            RegisterStep::Sleep(s) => StepView::Sleep(*s),
        }
    }
}

/// The pause between two registrations: as configured, but half a minute at least.
pub open spec fn pause(seconds: u64) -> u64 {
    if seconds < 30 {
        30
    } else {
        seconds
    }
}

/// A registration that has not begun.
pub open spec fn fresh_registration(
    name: Seq<char>,
    tc: TrunkView,
    peer: SocketAddress,
) -> TrunkRegistrationView {
    TrunkRegistrationView {
        name,
        host: before_first(tc.remote_host, ':'),
        user: trunk_user(name, tc),
        password: tc.password,
        peer,
        interval: pause(tc.register_interval_seconds),
        cseq: 1,
        call_id: Seq::empty(),
        phase: Phase::Resting,
    }
}

/// A number in words of a status line.
pub open spec fn code_text(code: Option<u16>) -> Seq<char> {
    decimal(
        match code {
            Some(c) => c as nat,
            None => 0,
        },
    )
}

/// The status of a trunk after the answer to its first REGISTER; nothing where the answer is a
/// challenge.
pub open spec fn first_status(reply: Option<RegisterReply>) -> Option<(TrunkStatus, Seq<char>)> {
    match reply {
        None => Some((TrunkStatus::Failed, "no response"@)),
        Some(r) => {
            if r.code == Some(200u16) {
                Some((TrunkStatus::Up, "200 OK"@))
            } else if r.code == Some(401u16) || r.code == Some(407u16) {
                None
            } else {
                Some((TrunkStatus::Failed, code_text(r.code)))
            }
        },
    }
}

/// The status of a trunk after the answer to its second REGISTER.
pub open spec fn second_status(reply: Option<RegisterReply>) -> (TrunkStatus, Seq<char>) {
    match reply {
        Some(r) if r.code is Some => {
            if r.code == Some(200u16) {
                (TrunkStatus::Up, "200 OK (auth)"@)
            } else {
                (TrunkStatus::Failed, code_text(r.code) + " after auth"@)
            }
        },
        _ => (TrunkStatus::Failed, "no response to auth"@),
    }
}

/// The header that answers a challenge.
pub open spec fn challenge_answer(
    r: TrunkRegistrationView,
    code: Option<u16>,
    challenge: Seq<char>,
    cnonce: Seq<char>,
) -> (Seq<char>, ValueView) {
    (
        if code == Some(407u16) {
            "Proxy-Authorization"@
        } else {
            "Authorization"@
        },
        ValueView::Answer {
            challenge,
            user: r.user,
            password: r.password,
            uri: "sip:"@ + r.host,
            cnonce,
        },
    )
}

/// What an answer of the peer changes, and what follows.
pub open spec fn replied(
    r: TrunkRegistrationView,
    sip: SipView,
    reply: Option<RegisterReply>,
    now: Now,
    cnonce: Seq<char>,
) -> (TrunkRegistrationView, SipView, StepView) {
    let rest = TrunkRegistrationView { phase: Phase::Resting, ..r };
    let sleep = StepView::Sleep(r.interval);
    match r.phase {
        Phase::Resting => (r, sip, sleep),
        Phase::Asked => match first_status(reply) {
            Some((status, detail)) => (
                rest,
                trunk_updated(sip, r.name, status, detail, Some(r.peer), now.epoch_ms),
                sleep,
            ),
            None => match reply->0.challenge {
                Some(challenge) => (
                    TrunkRegistrationView {
                        phase: Phase::Answered,
                        cseq: (r.cseq + 1) as u32,
                        ..r
                    },
                    sip,
                    StepView::Send(
                        RegisterView {
                            call_id: r.call_id,
                            cseq: r.cseq,
                            auth: Some(
                                challenge_answer(r, reply->0.code, challenge@, cnonce),
                            ),
                        },
                    ),
                ),
                None => (rest, sip, sleep),
            },
        },
        Phase::Answered => {
            let (status, detail) = second_status(reply);
            (
                rest,
                trunk_updated(sip, r.name, status, detail, Some(r.peer), now.epoch_ms),
                sleep,
            )
        },
    }
}

fn text_of_code(code: Option<u16>) -> (r: String)
    ensures
        r@ == code_text(code),
{
    match code {
        Some(c) => decimal_string(c as u64),
        None => decimal_string(0),
    }
}

impl TrunkRegistration {
    /// Starts the registration of a trunk; `parsed` is its remote host read as an address, without
    /// which the trunk fails for good.
    pub fn start(
        state: &mut SipState,
        name: &str,
        tc: &SipTrunkConfig,
        parsed: Option<SocketAddress>,
        now: Now,
    ) -> (r: Option<Self>)
        ensures
            match (r, parsed) {
                (Some(reg), Some(peer)) => reg@ == fresh_registration(name@, tc@, peer)
                    && final(state)@ == old(state)@,
                (None, None) => final(state)@ == trunk_updated(
                    old(state)@,
                    name@,
                    TrunkStatus::Failed,
                    "bad remote_host"@,
                    None,
                    now.epoch_ms,
                ),
                _ => false,
            },
    {
        let peer = match parsed {
            Some(peer) => peer,
            None => {
                state.update_trunk_status(
                    name,
                    TrunkStatus::Failed,
                    "bad remote_host".to_string(),
                    None,
                    now.epoch_ms,
                );
                return None;
            },
        };
        let interval = if tc.register_interval_seconds < 30 {
            30
        } else {
            tc.register_interval_seconds
        };
        Some(
            TrunkRegistration {
                name: name.to_string(),
                host: take_before(tc.remote_host.as_str(), ':'),
                user: user_of_trunk(name, tc),
                password: tc.password.clone(),
                peer,
                interval,
                cseq: 1,
                call_id: String::new(),
                phase: Phase::Resting,
            },
        )
    }

    /// Begins a registration under a fresh Call-ID.
    pub fn begin(&mut self, state: &mut SipState, now: Now) -> (r: RegisterRequest)
        requires
            old(self)@.cseq < u32::MAX,
        ensures
            exists|token: Seq<char>| #[trigger]
                is_token(token, 8) && final(self)@ == (TrunkRegistrationView {
                    call_id: old(self)@.name + "-"@ + token,
                    cseq: (old(self)@.cseq + 1) as u32,
                    phase: Phase::Asked,
                    ..old(self)@
                }),
            r@ == (RegisterView {
                call_id: final(self)@.call_id,
                cseq: old(self)@.cseq,
                auth: None,
            }),
            final(state)@ == trunk_updated(
                old(state)@,
                old(self)@.name,
                TrunkStatus::Registering,
                "sending REGISTER"@,
                Some(old(self)@.peer),
                now.epoch_ms,
            ),
    {
        state.update_trunk_status(
            self.name.as_str(),
            TrunkStatus::Registering,
            "sending REGISTER".to_string(),
            Some(self.peer),
            now.epoch_ms,
        );
        let token = rand_hex(8);
        let mut call_id = self.name.clone();
        call_id.append("-");
        call_id.append(token.as_str());
        let cseq = self.cseq;
        self.call_id = call_id.clone();
        self.cseq = cseq + 1;
        self.phase = Phase::Asked;
        assert(is_token(token@, 8));
        RegisterRequest { call_id, cseq, auth: None }
    }

    /// Takes the answer of the peer, or that there was none in time, with the given random value.
    pub fn reply_with(
        &mut self,
        state: &mut SipState,
        reply: &Option<RegisterReply>,
        now: Now,
        cnonce: &str,
    ) -> (r: RegisterStep)
        requires
            old(self)@.cseq < u32::MAX,
        ensures
            (final(self)@, final(state)@, r@) == replied(
                old(self)@,
                old(state)@,
                *reply,
                now,
                cnonce@,
            ),
    {
        let ghost want = replied(old(self)@, old(state)@, *reply, now, cnonce@);
        match self.phase {
            Phase::Resting => RegisterStep::Sleep(self.interval),
            Phase::Asked => {
                let (status, detail): (TrunkStatus, String) = match reply {
                    None => (TrunkStatus::Failed, "no response".to_string()),
                    Some(r) => match r.code {
                        Some(200) => (TrunkStatus::Up, "200 OK".to_string()),
                        Some(c) if c == 401 || c == 407 => {
                            match &r.challenge {
                                Some(challenge) => {
                                    let mut uri = String::new();
                                    uri.append("sip:");
                                    uri.append(self.host.as_str());
                                    assert(uri@ =~= "sip:"@ + self.host@);
                                    let header = if c == 407 {
                                        "Proxy-Authorization".to_string()
                                    } else {
                                        "Authorization".to_string()
                                    };
                                    let answer = HeaderValue::Answer {
                                        challenge: challenge.clone(),
                                        user: self.user.clone(),
                                        password: self.password.clone(),
                                        uri,
                                        cnonce: cnonce.to_string(),
                                    };
                                    let cseq = self.cseq;
                                    self.cseq = cseq + 1;
                                    self.phase = Phase::Answered;
                                    return RegisterStep::Send(
                                        RegisterRequest {
                                            call_id: self.call_id.clone(),
                                            cseq,
                                            auth: Some((header, answer)),
                                        },
                                    );
                                },
                                None => {
                                    self.phase = Phase::Resting;
                                    return RegisterStep::Sleep(self.interval);
                                },
                            }
                        },
                        _ => (TrunkStatus::Failed, text_of_code(r.code)),
                    },
                };
                state.update_trunk_status(
                    self.name.as_str(),
                    status,
                    detail,
                    Some(self.peer),
                    now.epoch_ms,
                );
                self.phase = Phase::Resting;
                RegisterStep::Sleep(self.interval)
            },
            Phase::Answered => {
                let (status, detail): (TrunkStatus, String) = match reply {
                    Some(RegisterReply { code: Some(c), .. }) => {
                        if *c == 200 {
                            (TrunkStatus::Up, "200 OK (auth)".to_string())
                        } else {
                            let mut text = decimal_string(*c as u64);
                            text.append(" after auth");
                            (TrunkStatus::Failed, text)
                        }
                    },
                    _ => (TrunkStatus::Failed, "no response to auth".to_string()),
                };
                state.update_trunk_status(
                    self.name.as_str(),
                    status,
                    detail,
                    Some(self.peer),
                    now.epoch_ms,
                );
                self.phase = Phase::Resting;
                RegisterStep::Sleep(self.interval)
            },
        }
    }

    /// Takes the answer of the peer, or that there was none in time.
    pub fn reply(
        &mut self,
        state: &mut SipState,
        reply: &Option<RegisterReply>,
        now: Now,
    ) -> (r: RegisterStep)
        requires
            old(self)@.cseq < u32::MAX,
        ensures
            exists|cnonce: Seq<char>| #[trigger]
                is_token(cnonce, 16) && (final(self)@, final(state)@, r@) == replied(
                    old(self)@,
                    old(state)@,
                    *reply,
                    now,
                    cnonce,
                ),
    {
        let cnonce = rand_hex(16);
        self.reply_with(state, reply, now, cnonce.as_str())
    }
}

/// The REGISTER message.
pub open spec fn register_message(
    r: TrunkRegistrationView,
    req: RegisterView,
    advertised_host: Seq<char>,
    local: Seq<char>,
    branch: Seq<char>,
    tag: Seq<char>,
) -> SipMessageView {
    let own = angled(sip_uri(r.user, r.host));
    SipMessageView {
        start: StartView::Request { method: MethodView::Register, uri: "sip:"@ + r.host },
        headers: seq![
            text_header("Via"@, via_value(local, branch)),
            text_header("Max-Forwards"@, "70"@),
            text_header("From"@, with_tag(own, tag)),
            text_header("To"@, own),
            text_header("Call-ID"@, req.call_id),
            text_header("CSeq"@, decimal(req.cseq as nat) + " REGISTER"@),
            text_header("Contact"@, angled(sip_uri(r.user, advertised_host))),
            text_header("Expires"@, "300"@),
        ] + (match req.auth {
            Some(h) => seq![h],
            None => Seq::empty(),
        }),
        body: Seq::empty(),
    }
}

/// The REGISTER message, with fresh random values; `local` is the address of the socket that it is
/// sent from, as text.
pub fn register_once(
    r: &TrunkRegistration,
    req: RegisterRequest,
    advertised_host: &str,
    local: &str,
) -> (m: SipMessage)
    ensures
        exists|branch: Seq<char>, tag: Seq<char>|
            {
                &&& #[trigger] is_token(branch, 16)
                &&& #[trigger] is_token(tag, 12)
                &&& m@ == register_message(r@, req@, advertised_host@, local@, branch, tag)
            },
{
    let branch = rand_hex(16);
    let tag = rand_hex(12);
    let ghost want = register_message(r@, req@, advertised_host@, local@, branch@, tag@);
    let mut uri = String::new();
    uri.append("sip:");
    uri.append(r.host.as_str());
    assert(uri@ =~= "sip:"@ + r.host@);
    let own = make_uri(r.user.as_str(), r.host.as_str());
    let contact = make_uri(r.user.as_str(), advertised_host);
    let RegisterRequest { call_id, cseq, auth } = req;
    let mut number = decimal_string(cseq as u64);
    number.append(" REGISTER");
    let mut m = SipMessage::new_request(Method::Register, uri);
    m.push_header("Via", make_via(local, branch.as_str()));
    m.push_header("Max-Forwards", "70".to_string());
    m.push_header("From", add_tag(make_angled(own.as_str()), tag.as_str()));
    m.push_header("To", make_angled(own.as_str()));
    m.push_header("Call-ID", call_id);
    m.push_header("CSeq", number);
    m.push_header("Contact", make_angled(contact.as_str()));
    m.push_header("Expires", "300".to_string());
    match auth {
        Some((name, value)) => {
            m.push_value(name.as_str(), value);
        },
        None => {},
    }
    assert(m@.headers =~= want.headers);
    m
}

// ---- laws ----

/// A registration is over after two answers at most: whatever the peer says to the second REGISTER,
/// the trunk is then up or failed, and a pause follows.
pub proof fn two_answers_settle(
    r: TrunkRegistrationView,
    sip: SipView,
    first: Option<RegisterReply>,
    second: Option<RegisterReply>,
    now: Now,
    later: Now,
    c1: Seq<char>,
    c2: Seq<char>,
)
    requires
        r.phase == Phase::Asked,
        sip.trunks.contains_key(r.name),
        first_status(first) is None,
        first->0.challenge is Some,
    ensures
        ({
            let (r1, s1, step1) = replied(r, sip, first, now, c1);
            let (r2, s2, step2) = replied(r1, s1, second, later, c2);
            &&& step1 is Send
            &&& step2 == StepView::Sleep(r.interval)
            &&& r2.phase == Phase::Resting
            &&& s2.trunks[r.name].status == TrunkStatus::Up || s2.trunks[r.name].status
                == TrunkStatus::Failed
            &&& s2.trunks[r.name].status == TrunkStatus::Up <==> (second is Some && second->0.code
                == Some(200u16))
        }),
{
}

} // verus!
