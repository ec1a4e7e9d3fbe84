//! SIP messages: what the server reads of a request, and the messages that it writes.
use crate::text::{opt_text, texts_of};
use vstd::prelude::*;
use vstd::string::*;

verus! {

/// A SIP method.
pub enum Method {
    Register,
    Invite,
    Ack,
    Bye,
    Cancel,
    Options,
    Other(String),
}

/// The contents of a `Method`.
#[verifier::ext_equal]
pub enum MethodView {
    Register,
    Invite,
    Ack,
    Bye,
    Cancel,
    Options,
    Other(Seq<char>),
}

impl View for Method {
    type V = MethodView;

    open spec fn view(&self) -> MethodView {
        match self {
            Method::Register => MethodView::Register,
            Method::Invite => MethodView::Invite,
            Method::Ack => MethodView::Ack,
            Method::Bye => MethodView::Bye,
            Method::Cancel => MethodView::Cancel,
            Method::Options => MethodView::Options,
            Method::Other(name) => MethodView::Other(name@),
        }
    }
}

impl MethodView {
    /// The name of the method.
    pub open spec fn name(self) -> Seq<char> {
        match self {
            MethodView::Register => "REGISTER"@,
            MethodView::Invite => "INVITE"@,
            MethodView::Ack => "ACK"@,
            MethodView::Bye => "BYE"@,
            MethodView::Cancel => "CANCEL"@,
            MethodView::Options => "OPTIONS"@,
            MethodView::Other(name) => name,
        }
    }
}

/// The method of a name.
pub open spec fn method_of(name: Seq<char>) -> MethodView {
    if name == "REGISTER"@ {
        MethodView::Register
    } else if name == "INVITE"@ {
        MethodView::Invite
    } else if name == "ACK"@ {
        MethodView::Ack
    } else if name == "BYE"@ {
        MethodView::Bye
    } else if name == "CANCEL"@ {
        MethodView::Cancel
    } else if name == "OPTIONS"@ {
        MethodView::Options
    } else {
        MethodView::Other(name)
    }
}

impl Method {
    /// The name of the method.
    pub fn name(&self) -> (r: String)
        ensures
            r@ == self@.name(),
    {
        match self {
            Method::Register => "REGISTER".to_string(),
            Method::Invite => "INVITE".to_string(),
            Method::Ack => "ACK".to_string(),
            Method::Bye => "BYE".to_string(),
            Method::Cancel => "CANCEL".to_string(),
            Method::Options => "OPTIONS".to_string(),
            Method::Other(name) => name.clone(),
        }
    }

    /// The method of a name.
    pub fn of(name: String) -> (r: Self)
        ensures
            r@ == method_of(name@),
    {
        if name == "REGISTER".to_string() {
            Method::Register
        } else if name == "INVITE".to_string() {
            Method::Invite
        } else if name == "ACK".to_string() {
            Method::Ack
        } else if name == "BYE".to_string() {
            Method::Bye
        } else if name == "CANCEL".to_string() {
            Method::Cancel
        } else if name == "OPTIONS".to_string() {
            Method::Options
        } else {
            Method::Other(name)
        }
    }
}

/// A method keeps its name.
pub proof fn method_name_round_trip(name: Seq<char>)
    ensures
        method_of(name).name() == name,
{
}

/// The first line of a message.
pub enum StartLine {
    Request { method: Method, uri: String },
    Response { code: u16, reason: String },
}

/// The contents of a `StartLine`.
#[verifier::ext_equal]
pub enum StartView {
    Request { method: MethodView, uri: Seq<char> },
    Response { code: u16, reason: Seq<char> },
}

impl View for StartLine {
    type V = StartView;

    open spec fn view(&self) -> StartView {
        match self {
            StartLine::Request { method, uri } => StartView::Request { method: method@, uri: uri@ },
            StartLine::Response { code, reason } => StartView::Response {
                code: *code,
                reason: reason@,
            },
        }
    }
}

impl StartLine {
    /// A second line with the same contents.
    pub fn dup(&self) -> (r: Self)
        ensures
            r@ == self@,
    {
        match self {
            StartLine::Request { method, uri } => StartLine::Request {
                method: match method {
                    Method::Register => Method::Register,
                    Method::Invite => Method::Invite,
                    Method::Ack => Method::Ack,
                    Method::Bye => Method::Bye,
                    Method::Cancel => Method::Cancel,
                    Method::Options => Method::Options,
                    Method::Other(name) => Method::Other(name.clone()),
                },
                uri: uri.clone(),
            },
            StartLine::Response { code, reason } => StartLine::Response {
                code: *code,
                reason: reason.clone(),
            },
        }
    }
}

/// The value of a header.
pub enum HeaderValue {
    Text(String),
    /// A digest challenge.
    Challenge { realm: String, nonce: String },
    /// The answer to the digest challenge that a peer sent.
    Answer { challenge: String, user: String, password: String, uri: String, cnonce: String },
}

/// The contents of a `HeaderValue`.
#[verifier::ext_equal]
pub enum ValueView {
    Text(Seq<char>),
    Challenge { realm: Seq<char>, nonce: Seq<char> },
    Answer {
        challenge: Seq<char>,
        user: Seq<char>,
        password: Seq<char>,
        uri: Seq<char>,
        cnonce: Seq<char>,
    },
}

impl View for HeaderValue {
    type V = ValueView;

    open spec fn view(&self) -> ValueView {
        match self {
            HeaderValue::Text(t) => ValueView::Text(t@),
            HeaderValue::Challenge { realm, nonce } => ValueView::Challenge {
                realm: realm@,
                nonce: nonce@,
            },
            HeaderValue::Answer { challenge, user, password, uri, cnonce } => ValueView::Answer {
                challenge: challenge@,
                user: user@,
                password: password@,
                uri: uri@,
                cnonce: cnonce@,
            },
        }
    }
}

/// A header.
pub struct Header {
    pub name: String,
    pub value: HeaderValue,
}

impl Header {
    /// A second header with the same contents.
    pub fn dup(&self) -> (r: Self)
        ensures
            r.name@ == self.name@,
            r.value@ == self.value@,
    {
        let value = match &self.value {
            HeaderValue::Text(t) => HeaderValue::Text(t.clone()),
            HeaderValue::Challenge { realm, nonce } => HeaderValue::Challenge {
                realm: realm.clone(),
                nonce: nonce.clone(),
            },
            HeaderValue::Answer { challenge, user, password, uri, cnonce } => HeaderValue::Answer {
                challenge: challenge.clone(),
                user: user.clone(),
                password: password.clone(),
                uri: uri.clone(),
                cnonce: cnonce.clone(),
            },
        };
        Header { name: self.name.clone(), value }
    }
}

/// The contents of a list of headers: the names with the values.
pub open spec fn headers_view(v: Seq<Header>) -> Seq<(Seq<char>, ValueView)> {
    Seq::new(v.len(), |i: int| (v[i].name@, v[i].value@))
}

/// A header with a text.
pub open spec fn text_header(name: Seq<char>, value: Seq<char>) -> (Seq<char>, ValueView) {
    (name, ValueView::Text(value))
}

/// A message that the server writes.
pub struct SipMessage {
    pub start: StartLine,
    pub headers: Vec<Header>,
    pub body: Vec<u8>,
}

/// The contents of a `SipMessage`.
#[verifier::ext_equal]
pub struct SipMessageView {
    pub start: StartView,
    pub headers: Seq<(Seq<char>, ValueView)>,
    pub body: Seq<u8>,
}

impl View for SipMessage {
    type V = SipMessageView;

    open spec fn view(&self) -> SipMessageView {
        SipMessageView {
            start: self.start@,
            headers: headers_view(self.headers@),
            body: self.body@,
        }
    }
}

impl SipMessage {
    /// A request without headers.
    pub fn new_request(method: Method, uri: String) -> (r: Self)
        ensures
            r@ == (SipMessageView {
                start: StartView::Request { method: method@, uri: uri@ },
                headers: Seq::empty(),
                body: Seq::empty(),
            }),
    {
        let r = SipMessage {
            start: StartLine::Request { method, uri },
            headers: Vec::new(),
            body: Vec::new(),
        };
        assert(r@.headers =~= Seq::empty());
        r
    }

    /// A response without headers.
    pub fn new_response(code: u16, reason: &str) -> (r: Self)
        ensures
            r@ == (SipMessageView {
                start: StartView::Response { code, reason: reason@ },
                headers: Seq::empty(),
                body: Seq::empty(),
            }),
    {
        let r = SipMessage {
            start: StartLine::Response { code, reason: reason.to_string() },
            headers: Vec::new(),
            body: Vec::new(),
        };
        assert(r@.headers =~= Seq::empty());
        r
    }

    /// A second message with the same contents.
    pub fn dup(&self) -> (r: Self)
        ensures
            r@ == self@,
    {
        let mut headers: Vec<Header> = Vec::new();
        let mut i: usize = 0;
        while i < self.headers.len()
            invariant
                i <= self.headers@.len(),
                headers_view(headers@) == self@.headers.take(i as int),
            decreases self.headers@.len() - i,
        {
            let ghost before = headers@;
            let h = self.headers[i].dup();
            let ghost entry = (h.name@, h.value@);
            headers.push(h);
            assert(headers_view(headers@) =~= headers_view(before).push(entry));
            assert(self@.headers.take(i + 1) =~= self@.headers.take(i as int).push(entry));
            i += 1;
        }
        assert(self@.headers.take(i as int) =~= self@.headers);
        let body = self.body.clone();
        assert(body@ =~= self.body@);
        SipMessage { start: self.start.dup(), headers, body }
    }

    /// Adds a header with a text.
    pub fn push_header(&mut self, name: &str, value: String)
        ensures
            final(self)@ == (SipMessageView {
                headers: old(self)@.headers.push(text_header(name@, value@)),
                ..old(self)@
            }),
    {
        let ghost before = self.headers@;
        self.headers.push(Header { name: name.to_string(), value: HeaderValue::Text(value) });
        assert(self@.headers =~= headers_view(before).push(text_header(name@, value@)));
    }

    /// Adds a header.
    pub fn push_value(&mut self, name: &str, value: HeaderValue)
        ensures
            final(self)@ == (SipMessageView {
                headers: old(self)@.headers.push((name@, value@)),
                ..old(self)@
            }),
    {
        let ghost before = self.headers@;
        self.headers.push(Header { name: name.to_string(), value });
        assert(self@.headers =~= headers_view(before).push((name@, value@)));
    }
}

/// Digest credentials of a request.
pub struct Credentials {
    /// The nonce that they answer; empty where they name none.
    pub nonce: String,
    /// Whether the digest is that of the password of the extension that the request is checked
    /// against, for the method of the request and this nonce.
    pub verified: bool,
}

/// A request that was received, as far as the server reads it.
pub struct SipRequest {
    pub method: Method,
    pub vias: Vec<String>,
    pub from: Option<String>,
    pub to: Option<String>,
    /// Whether the To header carries a tag.
    pub to_tagged: bool,
    pub call_id: Option<String>,
    pub cseq: Option<String>,
    pub contact: Option<String>,
    /// The URI of the Contact header; empty where there is none.
    pub contact_uri: String,
    pub user_agent: Option<String>,
    pub expires: Option<u64>,
    /// The user part of the URI of the To header.
    pub to_user: Option<String>,
    /// The user part of the URI of the From header.
    pub from_user: Option<String>,
    pub credentials: Option<Credentials>,
    pub body: Vec<u8>,
}

/// The contents of a `SipRequest`.
#[verifier::ext_equal]
pub struct RequestView {
    pub method: MethodView,
    pub vias: Seq<Seq<char>>,
    pub from: Option<Seq<char>>,
    pub to: Option<Seq<char>>,
    pub to_tagged: bool,
    pub call_id: Option<Seq<char>>,
    pub cseq: Option<Seq<char>>,
    pub contact: Option<Seq<char>>,
    pub contact_uri: Seq<char>,
    pub user_agent: Option<Seq<char>>,
    pub expires: Option<u64>,
    pub to_user: Option<Seq<char>>,
    pub from_user: Option<Seq<char>>,
    /// The nonce, and whether the digest is right.
    pub credentials: Option<(Seq<char>, bool)>,
    pub body: Seq<u8>,
}

impl View for SipRequest {
    type V = RequestView;

    open spec fn view(&self) -> RequestView {
        RequestView {
            method: self.method@,
            vias: texts_of(self.vias@),
            from: opt_text(self.from),
            to: opt_text(self.to),
            to_tagged: self.to_tagged,
            call_id: opt_text(self.call_id),
            cseq: opt_text(self.cseq),
            contact: opt_text(self.contact),
            contact_uri: self.contact_uri@,
            user_agent: opt_text(self.user_agent),
            expires: self.expires,
            to_user: opt_text(self.to_user),
            from_user: opt_text(self.from_user),
            credentials: match self.credentials {
                Some(c) => Some((c.nonce@, c.verified)),
                None => None,
            },
            body: self.body@,
        }
    }
}

/// An optional text, empty where there is none.
pub open spec fn or_empty(s: Option<Seq<char>>) -> Seq<char> {
    match s {
        Some(t) => t,
        None => Seq::empty(),
    }
}

/// An optional text, empty where there is none.
pub fn text_or_empty(s: &Option<String>) -> (r: String)
    ensures
        r@ == or_empty(opt_text(*s)),
{
    match s {
        Some(t) => t.clone(),
        None => String::new(),
    }
}

// ---- responses ----

/// A header that is copied where it is there.
pub open spec fn copied(name: Seq<char>, value: Option<Seq<char>>) -> Seq<(Seq<char>, ValueView)> {
    match value {
        Some(v) => seq![text_header(name, v)],
        None => Seq::empty(),
    }
}

/// The To header of a response: with the tag, where the request has none and the response is not
/// the provisional 100.
pub open spec fn tagged_to(req: RequestView, code: u16, tag: Seq<char>) -> Option<Seq<char>> {
    match req.to {
        Some(to) => Some(
            if !req.to_tagged && code != 100 {
                to + ";tag="@ + tag
            } else {
                to
            },
        ),
        None => None,
    }
}

/// The headers that every response takes over from its request, with the given To header.
pub open spec fn response_headers(req: RequestView, to: Option<Seq<char>>) -> Seq<
    (Seq<char>, ValueView),
> {
    req.vias.map_values(|v: Seq<char>| text_header("Via"@, v)) + copied("From"@, req.from) + copied(
        "To"@,
        to,
    ) + copied("Call-ID"@, req.call_id) + copied("CSeq"@, req.cseq) + seq![
        text_header("Server"@, "brew-server"@),
    ]
}

/// A response to a request, without a body.
pub open spec fn response(
    req: RequestView,
    code: u16,
    reason: Seq<char>,
    tag: Seq<char>,
) -> SipMessageView {
    SipMessageView {
        start: StartView::Response { code, reason },
        headers: response_headers(req, tagged_to(req, code, tag)),
        body: Seq::empty(),
    }
}

/// A response with the given To header in place of the one of the request.
pub open spec fn response_to(
    req: RequestView,
    code: u16,
    reason: Seq<char>,
    to: Seq<char>,
) -> SipMessageView {
    SipMessageView {
        start: StartView::Response { code, reason },
        headers: response_headers(req, Some(to)),
        body: Seq::empty(),
    }
}

fn copy_header(out: &mut SipMessage, name: &str, value: &Option<String>)
    ensures
        final(out)@ == (SipMessageView {
            headers: old(out)@.headers + copied(name@, opt_text(*value)),
            ..old(out)@
        }),
{
    match value {
        Some(v) => {
            out.push_header(name, v.clone());
        },
        None => {},
    }
    assert(out@.headers =~= old(out)@.headers + copied(name@, opt_text(*value)));
}

fn build_response(req: &SipRequest, code: u16, reason: &str, to: &Option<String>) -> (r: SipMessage)
    ensures
        r@ == (SipMessageView {
            start: StartView::Response { code, reason: reason@ },
            headers: response_headers(req@, opt_text(*to)),
            body: Seq::empty(),
        }),
{
    let mut out = SipMessage::new_response(code, reason);
    let ghost vias = req@.vias.map_values(|v: Seq<char>| text_header("Via"@, v));
    let mut i: usize = 0;
    while i < req.vias.len()
        invariant
            i <= req.vias@.len(),
            vias == req@.vias.map_values(|v: Seq<char>| text_header("Via"@, v)),
            out@.start == (StartView::Response { code, reason: reason@ }),
            out@.body == Seq::<u8>::empty(),
            out@.headers == vias.take(i as int),
        decreases req.vias@.len() - i,
    {
        out.push_header("Via", req.vias[i].clone());
        assert(out@.headers =~= vias.take(i + 1));
        i += 1;
    }
    assert(vias.take(i as int) =~= vias);
    copy_header(&mut out, "From", &req.from);
    copy_header(&mut out, "To", to);
    copy_header(&mut out, "Call-ID", &req.call_id);
    copy_header(&mut out, "CSeq", &req.cseq);
    out.push_header("Server", "brew-server".to_string());
    assert(out@.headers =~= response_headers(req@, opt_text(*to)));
    out
}

/// A response to a request, with the tag where it needs one.
pub fn respond(req: &SipRequest, code: u16, reason: &str, tag: &str) -> (r: SipMessage)
    ensures
        r@ == response(req@, code, reason@, tag@),
{
    let to = match &req.to {
        Some(to) => {
            let mut value = to.clone();
            if !req.to_tagged && code != 100 {
                value.append(";tag=");
                value.append(tag);
            }
            Some(value)
        },
        None => None,
    };
    assert(opt_text(to) == tagged_to(req@, code, tag@));
    build_response(req, code, reason, &to)
}

/// A response to a request, with the given To header.
pub fn respond_to(req: &SipRequest, code: u16, reason: &str, to: &str) -> (r: SipMessage)
    ensures
        r@ == response_to(req@, code, reason@, to@),
{
    let value = Some(to.to_string());
    build_response(req, code, reason, &value)
}

} // verus!
