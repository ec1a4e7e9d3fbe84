//! What the digest of a request is held against: which header, whose password and which method.
use crate::addr::SocketAddress;
use crate::brew::Now;
use crate::config::Config;
use crate::invite::{caller, Refusal};
use crate::message::{or_empty, text_or_empty, Method, MethodView, RequestView};
use crate::registrar::{authenticated, challenge, checked, issued, register, reply};
use crate::routing::OriginView;
use crate::text::opt_text;
use crate::transport::{TokensView, TransportView};
use vstd::prelude::*;
use vstd::string::*;

verus! {

/// Who a request authenticates as: the extension that it registers, or the one that it calls for.
pub open spec fn digest_user(
    method: MethodView,
    to_user: Option<Seq<char>>,
    from_user: Option<Seq<char>>,
) -> Option<Seq<char>> {
    match method {
        MethodView::Register => to_user,
        MethodView::Invite => Some(or_empty(from_user)),
        _ => None,
    }
}

/// The password that the digest of a request has to be of: that of the extension, where it is
/// provisioned and has one.
pub open spec fn secret_of(
    config: Config,
    method: MethodView,
    to_user: Option<Seq<char>>,
    from_user: Option<Seq<char>>,
) -> Option<Seq<char>> {
    match digest_user(method, to_user, from_user) {
        Some(user) if config.sip.extensions@.contains_key(user)
            && config.sip.extensions@[user].password.len() > 0 => Some(
            config.sip.extensions@[user].password,
        ),
        _ => None,
    }
}

/// The header that holds the digest: Authorization, or for a call Proxy-Authorization where there is
/// none.
pub open spec fn header_of(
    method: MethodView,
    authorization: Option<Seq<char>>,
    proxy_authorization: Option<Seq<char>>,
) -> Option<Seq<char>> {
    match method {
        MethodView::Register => authorization,
        MethodView::Invite => if authorization is Some {
            authorization
        } else {
            proxy_authorization
        },
        _ => None,
    }
}

/// The password that the digest of a request has to be of.
pub fn digest_secret(
    config: &Config,
    method: &Method,
    to_user: &Option<String>,
    from_user: &Option<String>,
) -> (r: Option<String>)
    ensures
        opt_text(r) == secret_of(*config, method@, opt_text(*to_user), opt_text(*from_user)),
{
    let user: String = match method {
        Method::Register => match to_user {
            Some(user) => user.clone(),
            None => {
                return None;
            },
        },
        Method::Invite => text_or_empty(from_user),
        _ => {
            return None;
        },
    };
    match config.sip.extensions.get(&user) {
        Some(ext) => {
            if ext.password.as_str().unicode_len() > 0 {
                Some(ext.password.clone())
            } else {
                None
            }
        },
        None => None,
    }
}

/// The header that holds the digest of a request.
pub fn digest_header(
    method: &Method,
    authorization: Option<String>,
    proxy_authorization: Option<String>,
) -> (r: Option<String>)
    ensures
        opt_text(r) == header_of(method@, opt_text(authorization), opt_text(proxy_authorization)),
{
    match method {
        Method::Register => authorization,
        Method::Invite => {
            if authorization.is_some() {
                authorization
            } else {
                proxy_authorization
            }
        },
        _ => None,
    }
}

/// What a digest is held against.
pub struct DigestInput {
    /// The header that holds the digest.
    pub header: String,
    /// The password, where the request has to be authenticated at all.
    pub secret: Option<String>,
    /// The method that the digest is of.
    pub method: String,
}

/// The contents of a `DigestInput`.
#[verifier::ext_equal]
pub struct DigestInputView {
    pub header: Seq<char>,
    pub secret: Option<Seq<char>>,
    pub method: Seq<char>,
}

impl View for DigestInput {
    type V = DigestInputView;

    open spec fn view(&self) -> DigestInputView {
        DigestInputView {
            header: self.header@,
            secret: opt_text(self.secret),
            method: self.method@,
        }
    }
}

/// What the digest of a request is held against, where the request has one that counts.
pub fn digest_input(
    config: &Config,
    method: &Method,
    to_user: &Option<String>,
    from_user: &Option<String>,
    authorization: Option<String>,
    proxy_authorization: Option<String>,
) -> (r: Option<DigestInput>)
    ensures
        match (r, header_of(method@, opt_text(authorization), opt_text(proxy_authorization))) {
            (Some(d), Some(header)) => d@ == (DigestInputView {
                header,
                secret: secret_of(*config, method@, opt_text(*to_user), opt_text(*from_user)),
                method: method@.name(),
            }),
            (None, None) => true,
            _ => false,
        },
{
    let secret = digest_secret(config, method, to_user, from_user);
    match digest_header(method, authorization, proxy_authorization) {
        Some(header) => Some(DigestInput { header, secret, method: method.name() }),
        None => None,
    }
}

// ---- laws ----

/// A call that comes from no trunk is challenged exactly where there is a password for it and it is
/// not authenticated.
pub proof fn calls_are_challenged_for_a_secret(
    t: TransportView,
    config: Config,
    req: RequestView,
    now: Now,
)
    ensures
        caller(t, config, req, None, now) == Err::<OriginView, Refusal>(Refusal::Challenge) <==> (secret_of(
            config,
            MethodView::Invite,
            req.to_user,
            req.from_user,
        ) is Some && !authenticated(t, req, now)),
{
}

/// A registration for which there is a password, and that is not authenticated, is challenged.
pub proof fn registrations_are_challenged_for_a_secret(
    t: TransportView,
    config: Config,
    peer: SocketAddress,
    req: RequestView,
    now: Now,
    tok: TokensView,
)
    requires
        secret_of(config, MethodView::Register, req.to_user, req.from_user) is Some,
        !authenticated(t, req, now),
    ensures
        register(t, config, peer, req, now, tok) == (
            issued(checked(t, req, now), tok.nonce, now),
            seq![
                reply(
                    challenge(config, req, 401, "Unauthorized"@, "WWW-Authenticate"@, tok),
                    peer,
                ),
            ],
        ),
{
}

} // verus!
