//! The registrar: which registrations are taken, and how they are answered.
use crate::addr::SocketAddress;
use crate::brew::Now;
use crate::config::Config;
use crate::message::{
    or_empty, respond, response, text_or_empty, HeaderValue, RequestView, SipMessage,
    SipMessageView, SipRequest, ValueView,
};
use crate::sip_state::{Registration, RegistrationView, SipView};
use crate::text::{decimal, decimal_string, push_decimal};
use crate::transport::{
    drawn, good_nonces, sip_actions_view, SipAction, SipActionView, SipTransport, Tokens,
    TokensView, TransportView,
};
use vstd::prelude::*;
use vstd::string::*;

verus! {

/// A message to send.
pub open spec fn reply(message: SipMessageView, to: SocketAddress) -> SipActionView {
    SipActionView::Send { message, to }
}

/// The message with another header.
pub open spec fn with_header(m: SipMessageView, name: Seq<char>, value: ValueView) -> SipMessageView {
    SipMessageView { headers: m.headers.push((name, value)), ..m }
}

// ---- authentication ----

/// Whether the request is authenticated: its credentials answer a nonce that is still good, and are
/// right.
pub open spec fn authenticated(t: TransportView, req: RequestView, now: Now) -> bool {
    match req.credentials {
        Some((nonce, verified)) => good_nonces(t.nonces, now).contains_key(nonce) && verified,
        None => false,
    }
}

/// The transport once the credentials of the request were looked at.
pub open spec fn checked(t: TransportView, req: RequestView, now: Now) -> TransportView {
    if req.credentials is Some {
        TransportView { nonces: good_nonces(t.nonces, now), ..t }
    } else {
        t
    }
}

/// The transport once a nonce was issued.
pub open spec fn issued(t: TransportView, nonce: Seq<char>, now: Now) -> TransportView {
    TransportView { nonces: t.nonces.insert(nonce, now.mono_ns), ..t }
}

/// Whether the request is authenticated.
pub fn check_credentials(t: &mut SipTransport, req: &SipRequest, now: Now) -> (r: bool)
    ensures
        r == authenticated(old(t)@, req@, now),
        final(t)@ == checked(old(t)@, req@, now),
{
    match &req.credentials {
        Some(c) => {
            let good = t.nonce_valid(c.nonce.as_str(), now);
            good && c.verified
        },
        None => false,
    }
}

/// A response that asks for credentials.
pub open spec fn challenge(
    config: Config,
    req: RequestView,
    code: u16,
    reason: Seq<char>,
    header: Seq<char>,
    tok: TokensView,
) -> SipMessageView {
    with_header(
        response(req, code, reason, tok.tag),
        header,
        ValueView::Challenge { realm: config.sip.realm@, nonce: tok.nonce },
    )
}

/// A response that asks for credentials; its nonce is remembered.
pub fn ask_credentials(
    t: &mut SipTransport,
    config: &Config,
    req: &SipRequest,
    code: u16,
    reason: &str,
    header: &str,
    tok: &Tokens,
    now: Now,
) -> (r: SipMessage)
    ensures
        final(t)@ == issued(old(t)@, tok@.nonce, now),
        r@ == challenge(*config, req@, code, reason@, header@, tok@),
{
    t.remember_nonce(&tok.nonce, now);
    let mut resp = respond(req, code, reason, tok.tag.as_str());
    resp.push_value(
        header,
        HeaderValue::Challenge { realm: config.sip.realm.clone(), nonce: tok.nonce.clone() },
    );
    resp
}

// ---- registration ----

/// How long the binding is to last (seconds).
pub open spec fn lifetime(config: Config, req: RequestView) -> u64 {
    match req.expires {
        Some(e) => e,
        None => config.sip.registration_ttl_seconds,
    }
}

/// The end of the binding can be told.
pub open spec fn lifetime_fits(config: Config, req: RequestView, now: Now) -> bool {
    now.epoch_ms + lifetime(config, req) * 1000 <= u64::MAX
}

/// The binding that the request asks for.
pub open spec fn binding(
    config: Config,
    peer: SocketAddress,
    req: RequestView,
    now: Now,
) -> RegistrationView {
    let aor = req.to_user->0;
    RegistrationView {
        aor,
        contact: req.contact_uri,
        source: peer,
        user_agent: or_empty(req.user_agent),
        expires_at_ms: (now.epoch_ms + lifetime(config, req) * 1000) as u64,
        registered_at_ms: now.epoch_ms,
        authenticated: config.sip.extensions@[aor].password.len() > 0,
    }
}

/// The answer to a registration that was taken, with the contact and its lifetime.
pub open spec fn registration_ok(config: Config, req: RequestView, tag: Seq<char>) -> SipMessageView {
    let ok = response(req, 200, "OK"@, tag);
    let contact = or_empty(req.contact);
    let life = decimal(lifetime(config, req) as nat);
    let named = if contact.len() > 0 {
        with_header(ok, "Contact"@, ValueView::Text(contact + ";expires="@ + life))
    } else {
        ok
    };
    if lifetime(config, req) == 0 {
        named
    } else {
        with_header(named, "Expires"@, ValueView::Text(life))
    }
}

/// What a registration changes and causes.
pub open spec fn register(
    t: TransportView,
    config: Config,
    peer: SocketAddress,
    req: RequestView,
    now: Now,
    tok: TokensView,
) -> (TransportView, Seq<SipActionView>) {
    if req.to_user is None {
        (t, seq![reply(response(req, 400, "Bad Request"@, tok.tag), peer)])
    } else if !config.sip.extensions@.contains_key(req.to_user->0) {
        (t, seq![reply(response(req, 404, "Not Found"@, tok.tag), peer)])
    } else {
        let aor = req.to_user->0;
        let secret = config.sip.extensions@[aor].password;
        let t1 = if secret.len() > 0 {
            checked(t, req, now)
        } else {
            t
        };
        if secret.len() > 0 && !authenticated(t, req, now) {
            (
                issued(t1, tok.nonce, now),
                seq![
                    reply(
                        challenge(config, req, 401, "Unauthorized"@, "WWW-Authenticate"@, tok),
                        peer,
                    ),
                ],
            )
        } else {
            let sip = if lifetime(config, req) == 0 {
                SipView { registrations: t1.sip.registrations.remove(aor), ..t1.sip }
            } else {
                SipView {
                    registrations: t1.sip.registrations.insert(
                        aor,
                        binding(config, peer, req, now),
                    ),
                    total_registrations: (t1.sip.total_registrations + (
                    if t1.sip.registrations.contains_key(aor) {
                        0int
                    } else {
                        1
                    })) as u64,
                    ..t1.sip
                }
            };
            (
                TransportView { sip, ..t1 },
                seq![reply(registration_ok(config, req, tok.tag), peer)],
            )
        }
    }
}

fn single(message: SipMessage, to: SocketAddress) -> (r: Vec<SipAction>)
    ensures
        sip_actions_view(r@) == seq![reply(message@, to)],
{
    let mut actions: Vec<SipAction> = Vec::new();
    let ghost m = message@;
    actions.push(SipAction::Send { message, to });
    assert(sip_actions_view(actions@) =~= seq![reply(m, to)]);
    actions
}

/// Handles a registration, with the given random values.
pub fn register_with(
    t: &mut SipTransport,
    config: &Config,
    peer: SocketAddress,
    req: &SipRequest,
    now: Now,
    tok: &Tokens,
) -> (r: Vec<SipAction>)
    requires
        lifetime_fits(*config, req@, now),
        old(t)@.sip.total_registrations < u64::MAX,
    ensures
        (final(t)@, sip_actions_view(r@)) == register(
            old(t)@,
            *config,
            peer,
            req@,
            now,
            tok@,
        ),
{
    let ghost want = register(old(t)@, *config, peer, req@, now, tok@);
    let aor = match &req.to_user {
        Some(aor) => aor.clone(),
        None => {
            return single(respond(req, 400, "Bad Request", tok.tag.as_str()), peer);
        },
    };
    let secured = match config.sip.extensions.get(&aor) {
        Some(ext) => ext.password.as_str().unicode_len() > 0,
        None => {
            return single(respond(req, 404, "Not Found", tok.tag.as_str()), peer);
        },
    };
    if secured {
        let authed = check_credentials(t, req, now);
        if !authed {
            let resp = ask_credentials(
                t,
                config,
                req,
                401,
                "Unauthorized",
                "WWW-Authenticate",
                tok,
                now,
            );
            return single(resp, peer);
        }
    }
    let expires = match req.expires {
        Some(e) => e,
        None => config.sip.registration_ttl_seconds,
    };
    let contact = text_or_empty(&req.contact);
    let ghost t1 = t@;
    if expires == 0 {
        t.state.remove_registration(aor.as_str());
    } else {
        let reg = Registration {
            aor: aor.clone(),
            contact: req.contact_uri.clone(),
            source: peer,
            user_agent: text_or_empty(&req.user_agent),
            expires_at_ms: now.epoch_ms + expires * 1000,
            registered_at_ms: now.epoch_ms,
            authenticated: secured,
        };
        assert(reg@ == binding(*config, peer, req@, now));
        let _ = t.state.upsert_registration(reg);
    }
    let mut resp = respond(req, 200, "OK", tok.tag.as_str());
    let ghost ok = resp@;
    let has_contact = contact.as_str().unicode_len() > 0;
    if has_contact {
        let mut value = contact.clone();
        value.append(";expires=");
        push_decimal(&mut value, expires);
        assert(value@ =~= contact@ + ";expires="@ + decimal(expires as nat));
        resp.push_header("Contact", value);
    }
    if expires != 0 {
        resp.push_header("Expires", decimal_string(expires));
    }
    assert(resp@ == registration_ok(*config, req@, tok@.tag));
    let r = single(resp, peer);
    assert(t@ =~= want.0);
    r
}

/// Handles a registration.
pub fn handle_register(
    t: &mut SipTransport,
    config: &Config,
    peer: SocketAddress,
    req: &SipRequest,
    now: Now,
) -> (r: Vec<SipAction>)
    requires
        lifetime_fits(*config, req@, now),
        old(t)@.sip.total_registrations < u64::MAX,
    ensures
        exists|tok: TokensView| #[trigger]
            drawn(tok) && (final(t)@, sip_actions_view(r@)) == register(
                old(t)@,
                *config,
                peer,
                req@,
                now,
                tok,
            ),
{
    let tok = Tokens::draw();
    register_with(t, config, peer, req, now, &tok)
}

// ---- laws ----

/// A registration that is not authenticated, where the extension has a password, binds nothing and
/// frees nothing.
pub proof fn unauthenticated_registration_binds_nothing(
    t: TransportView,
    config: Config,
    peer: SocketAddress,
    req: RequestView,
    now: Now,
    tok: TokensView,
)
    requires
        req.to_user matches Some(aor) ==> config.sip.extensions@.contains_key(aor)
            ==> config.sip.extensions@[aor].password.len() > 0,
        !authenticated(t, req, now),
    ensures
        register(t, config, peer, req, now, tok).0.sip == t.sip,
{
}

/// An extension that was challenged and answers in time, with the right digest, is bound to where
/// its request came from.
pub proof fn answered_challenge_binds(
    t: TransportView,
    config: Config,
    peer: SocketAddress,
    first: RequestView,
    second: RequestView,
    asked: Now,
    now: Now,
    tok: TokensView,
    tok2: TokensView,
)
    requires
        first.to_user is Some,
        second.to_user == first.to_user,
        config.sip.extensions@.contains_key(first.to_user->0),
        config.sip.extensions@[first.to_user->0].password.len() > 0,
        !authenticated(t, first, asked),
        second.credentials == Some((tok.nonce, true)),
        now.mono_ns < asked.mono_ns + crate::transport::NONCE_TTL_NS,
        lifetime(config, second) > 0,
    ensures
        ({
            let t1 = register(t, config, peer, first, asked, tok).0;
            let t2 = register(t1, config, peer, second, now, tok2).0;
            &&& t2.sip.registrations.contains_key(first.to_user->0)
            &&& t2.sip.registrations[first.to_user->0] == binding(config, peer, second, now)
        }),
{
}

} // verus!
