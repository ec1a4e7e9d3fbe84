//! Calls whose destination is known: the relay legs that they need, and where they are put through.
use crate::addr::SocketAddress;
use crate::brew::{BrewState, Now};
use crate::bridge::{no_actions, push_action, Both, BrewBridge, BridgeView};
use crate::bridging::{
    opt_handshake, to_brew_group, to_brew_private, HandshakeView, PrivateCallHandshake,
};
use crate::config::Config;
use crate::invite::{
    address_of_trunk, terminate_to_extension, terminate_to_trunk, to_extension, to_trunk,
    trunk_address, Invitation, InvitationView,
};
use crate::message::{respond, response, RequestView, SipRequest};
use crate::registrar::reply;
use crate::rtp::RtpLeg;
use crate::sip_state::{live, LegEndpoint, LegView};
use crate::transport::{
    sip_actions_view, SipAction, SipActionView, Tokens, TokensView, TransportView,
};
use vstd::prelude::*;

verus! {

/// How many relay legs a call needs: two where it stays on the SIP side and one where it goes to the
/// Brew side, but none where it is turned down anyway.
pub open spec fn legs_wanted(
    x: Both,
    config: Config,
    to: LegView,
    configured: Option<SocketAddress>,
    now: Now,
) -> u8 {
    let sip = x.bridge.transport.sip;
    match to {
        LegView::SipExtension { aor } => if live(sip, aor, now.epoch_ms) {
            2
        } else {
            0
        },
        LegView::SipTrunk { trunk, number } => if config.sip.trunks@.contains_key(trunk)
            && trunk_address(sip, trunk, configured) is Some {
            2
        } else {
            0
        },
        LegView::BrewPrivate { issi } => if x.brew.subscribers.contains_key(issi) {
            1
        } else {
            0
        },
        LegView::BrewGroup { gssi } => if x.brew.affiliated(gssi) =~= Set::<u128>::empty()
            && !config.fallback_broadcast_when_no_affiliations {
            0
        } else {
            1
        },
        LegView::SipExternal { uri } => 0,
    }
}

/// How many relay legs the call needs. `configured` is the remote host of the trunk that it goes to,
/// read as an address.
pub fn legs_needed(
    b: &BrewBridge,
    brew: &BrewState,
    config: &Config,
    call: &Invitation,
    configured: Option<SocketAddress>,
    now: Now,
) -> (r: u8)
    ensures
        r == legs_wanted((Both { bridge: b@, brew: brew@ }), *config, call@.to, configured, now),
{
    match &call.to {
        LegEndpoint::SipExtension { aor } => {
            if b.transport.state.lookup_registration(aor.as_str(), now.epoch_ms).is_some() {
                2
            } else {
                0
            }
        },
        LegEndpoint::SipTrunk { trunk, number: _ } => {
            if config.sip.trunks.contains_key(trunk) && address_of_trunk(
                &b.transport,
                trunk.as_str(),
                configured,
            ).is_some() {
                2
            } else {
                0
            }
        },
        LegEndpoint::BrewPrivate { issi } => {
            if brew.subscribers.contains_key(issi) {
                1
            } else {
                0
            }
        },
        LegEndpoint::BrewGroup { gssi } => {
            let empty = match brew.group_clients.get(gssi) {
                Some(members) => members.is_empty(),
                None => true,
            };
            if empty && !config.fallback_broadcast_when_no_affiliations {
                0
            } else {
                1
            }
        },
        LegEndpoint::SipExternal { uri: _ } => 0,
    }
}

/// Two legs, where both could be had.
pub open spec fn both_legs(first: Option<RtpLeg>, second: Option<RtpLeg>) -> Option<
    (RtpLeg, RtpLeg),
> {
    match (first, second) {
        (Some(a), Some(b)) => Some((a, b)),
        _ => None,
    }
}

/// What follows when a call is put through to its destination. The last part of the result holds
/// the responses that a call to a Brew subscriber may get.
pub open spec fn dispatched(
    x: Both,
    config: Config,
    caller: SocketAddress,
    caller_text: Seq<char>,
    req: RequestView,
    call: InvitationView,
    configured: Option<SocketAddress>,
    media: Option<SocketAddress>,
    first: Option<RtpLeg>,
    second: Option<RtpLeg>,
    now: Now,
    tok: TokensView,
) -> (Both, Seq<SipActionView>, Option<HandshakeView>) {
    let t = x.bridge.transport;
    let legs = both_legs(first, second);
    match call.to {
        LegView::SipExtension { aor } => {
            let (t2, actions) = to_extension(
                t,
                caller,
                caller_text,
                req,
                aor,
                call,
                media,
                legs,
                now,
                tok,
            );
            (with_transport(x, t2), actions, None)
        },
        LegView::SipTrunk { trunk, number } => {
            let (t2, actions) = to_trunk(
                t,
                config,
                caller,
                caller_text,
                req,
                trunk,
                number,
                call,
                configured,
                media,
                legs,
                now,
                tok,
            );
            (with_transport(x, t2), actions, None)
        },
        LegView::BrewPrivate { issi } => to_brew_private(
            x,
            caller,
            caller_text,
            req,
            issi,
            call,
            media,
            first,
            now,
            tok,
        ),
        LegView::BrewGroup { gssi } => {
            let (y, actions) = to_brew_group(
                x,
                config,
                caller,
                caller_text,
                req,
                gssi,
                call,
                media,
                first,
                now,
                tok,
            );
            (y, actions, None)
        },
        LegView::SipExternal { uri } => (
            x,
            seq![reply(response(req, 404, "Not Found"@, tok.tag), caller)],
            None,
        ),
    }
}

/// Both sides with the given transport.
pub open spec fn with_transport(x: Both, t: TransportView) -> Both {
    Both { bridge: BridgeView { transport: t, ..x.bridge }, ..x }
}

/// Puts a call through to its destination, with the given random values. `caller_text` is the
/// caller's address as text, `configured` the remote host of the trunk that the call goes to, read
/// as an address, `media` the address of the caller's media, and `first` and `second` are the relay
/// legs that could be had of those that are needed.
pub fn dispatch(
    b: &mut BrewBridge,
    brew: &mut BrewState,
    config: &Config,
    caller: SocketAddress,
    caller_text: &str,
    req: &SipRequest,
    call: &Invitation,
    configured: Option<SocketAddress>,
    media: Option<SocketAddress>,
    first: Option<RtpLeg>,
    second: Option<RtpLeg>,
    now: Now,
    tok: &Tokens,
) -> (r: (Vec<SipAction>, Option<PrivateCallHandshake>))
    ensures
        (
            Both { bridge: final(b)@, brew: final(brew)@ },
            sip_actions_view(r.0@),
            opt_handshake(r.1),
        ) == dispatched(
            (Both { bridge: old(b)@, brew: old(brew)@ }),
            *config,
            caller,
            caller_text@,
            req@,
            call@,
            configured,
            media,
            first,
            second,
            now,
            tok@,
        ),
{
    match &call.to {
        LegEndpoint::SipExtension { aor } => {
            let legs = match (first, second) {
                (Some(a), Some(b)) => Some((a, b)),
                _ => None,
            };
            let actions = terminate_to_extension(
                &mut b.transport,
                caller,
                caller_text,
                req,
                aor.as_str(),
                call,
                media,
                legs,
                now,
                tok,
            );
            (actions, None)
        },
        LegEndpoint::SipTrunk { trunk, number } => {
            let legs = match (first, second) {
                (Some(a), Some(b)) => Some((a, b)),
                _ => None,
            };
            let actions = terminate_to_trunk(
                &mut b.transport,
                config,
                caller,
                caller_text,
                req,
                trunk.as_str(),
                number.as_str(),
                call,
                configured,
                media,
                legs,
                now,
                tok,
            );
            (actions, None)
        },
        LegEndpoint::BrewPrivate { issi } => b.sip_to_brew_private(
            brew,
            caller,
            caller_text,
            req,
            *issi,
            call,
            media,
            first,
            now,
            tok,
        ),
        LegEndpoint::BrewGroup { gssi } => {
            let actions = b.sip_to_brew_group(
                brew,
                config,
                caller,
                caller_text,
                req,
                *gssi,
                call,
                media,
                first,
                now,
                tok,
            );
            (actions, None)
        },
        LegEndpoint::SipExternal { uri: _ } => {
            let mut actions = no_actions();
            push_action(
                &mut actions,
                SipAction::Send {
                    message: respond(req, 404, "Not Found", tok.tag.as_str()),
                    to: caller,
                },
            );
            assert(sip_actions_view(actions@) =~= seq![
                reply(response(req@, 404, "Not Found"@, tok@.tag), caller),
            ]);
            (actions, None)
        },
    }
}

// ---- laws ----

/// Where no relay leg is needed, legs make no difference; where one or two are, their lack is
/// answered with 500, and a second leg makes no difference to a call that needs one.
pub proof fn legs_are_needed_where_they_count(
    x: Both,
    config: Config,
    caller: SocketAddress,
    caller_text: Seq<char>,
    req: RequestView,
    call: InvitationView,
    configured: Option<SocketAddress>,
    media: Option<SocketAddress>,
    first: Option<RtpLeg>,
    second: Option<RtpLeg>,
    now: Now,
    tok: TokensView,
)
    ensures
        ({
            let n = legs_wanted(x, config, call.to, configured, now);
            let with_legs = |a: Option<RtpLeg>, b: Option<RtpLeg>|
                dispatched(
                    x,
                    config,
                    caller,
                    caller_text,
                    req,
                    call,
                    configured,
                    media,
                    a,
                    b,
                    now,
                    tok,
                );
            let failed = seq![
                reply(response(req, 500, "Server Internal Error"@, tok.tag), caller),
            ];
            &&& n == 0 ==> with_legs(first, second) == with_legs(None, None)
            &&& n == 1 ==> with_legs(first, second) == with_legs(first, None)
            &&& n >= 1 ==> with_legs(None, second).1 == failed
            &&& n == 2 ==> with_legs(first, None).1 == failed
        }),
{
}

} // verus!
