//! What is kept of SIP dialogs to end them from this side.
use crate::addr::SocketAddress;
use crate::invite::{add_tag, make_via, via_value};
use crate::message::{
    tagged_to, text_header, Method, MethodView, RequestView, SipMessage, SipMessageView, SipRequest,
    StartView,
};
use crate::registrar::reply;
use crate::text::opt_text;
use crate::transport::{SipActionView, TokensView};
use vstd::prelude::*;
use vstd::string::*;

verus! {

/// What is kept of a SIP dialog to end it from this side.
pub struct DialogBye {
    pub request_uri: String,
    pub target_addr: SocketAddress,
    pub from: String,
    pub to: String,
}

/// The contents of a `DialogBye`.
#[verifier::ext_equal]
pub struct DialogView {
    pub request_uri: Seq<char>,
    pub target_addr: SocketAddress,
    pub from: Seq<char>,
    pub to: Seq<char>,
}

impl View for DialogBye {
    type V = DialogView;

    open spec fn view(&self) -> DialogView {
        DialogView {
            request_uri: self.request_uri@,
            target_addr: self.target_addr,
            from: self.from@,
            to: self.to@,
        }
    }
}

/// The contents of an optional dialog.
pub open spec fn opt_dialog(d: Option<DialogBye>) -> Option<DialogView> {
    match d {
        Some(d) => Some(d@),
        None => None,
    }
}

// ---- the dialog of a caller ----

/// The dialog of a SIP caller, as far as it is known: `to` is the To header of the answer.
pub open spec fn caller_dialog(
    req: RequestView,
    caller: SocketAddress,
    caller_text: Seq<char>,
    to: Option<Seq<char>>,
) -> Option<DialogView> {
    match (to, req.from) {
        (Some(to), Some(from)) => Some(
            DialogView {
                request_uri: if req.contact is Some {
                    req.contact_uri
                } else {
                    "sip:"@ + caller_text
                },
                target_addr: caller,
                from: to,
                to: from,
            },
        ),
        _ => None,
    }
}

/// The dialog of a SIP caller, as far as it is known: `to` is the To header of the answer.
pub fn make_dialog(
    req: &SipRequest,
    caller: SocketAddress,
    caller_text: &str,
    to: Option<String>,
) -> (r: Option<DialogBye>)
    ensures
        opt_dialog(r) == caller_dialog(req@, caller, caller_text@, opt_text(to)),
{
    match (to, &req.from) {
        (Some(to), Some(from)) => {
            let request_uri = match &req.contact {
                Some(_) => req.contact_uri.clone(),
                None => {
                    let mut s = String::new();
                    s.append("sip:");
                    s.append(caller_text);
                    assert(s@ =~= "sip:"@ + caller_text@);
                    s
                },
            };
            Some(DialogBye { request_uri, target_addr: caller, from: to, to: from.clone() })
        },
        _ => None,
    }
}

/// The To header of the answer to a request.
pub fn answered_to(req: &SipRequest, tag: &str) -> (r: Option<String>)
    ensures
        opt_text(r) == tagged_to(req@, 200, tag@),
{
    match &req.to {
        Some(to) => {
            if req.to_tagged {
                Some(to.clone())
            } else {
                Some(add_tag(to.clone(), tag))
            }
        },
        None => None,
    }
}

// ---- the end of a dialog ----

/// A BYE in a dialog.
pub open spec fn bye_message(
    host: Seq<char>,
    d: DialogView,
    call_id: Seq<char>,
    branch: Seq<char>,
) -> SipMessageView {
    SipMessageView {
        start: StartView::Request { method: MethodView::Bye, uri: d.request_uri },
        headers: seq![
            text_header("Via"@, via_value(host, branch)),
            text_header("Max-Forwards"@, "70"@),
            text_header("From"@, d.from),
            text_header("To"@, d.to),
            text_header("Call-ID"@, call_id),
            text_header("CSeq"@, "2 BYE"@),
        ],
        body: Seq::empty(),
    }
}

/// A BYE in a dialog.
pub fn make_bye(host: &str, d: &DialogBye, call_id: &str, branch: &str) -> (r: SipMessage)
    ensures
        r@ == bye_message(host@, d@, call_id@, branch@),
{
    let mut m = SipMessage::new_request(Method::Bye, d.request_uri.clone());
    m.push_header("Via", make_via(host, branch));
    m.push_header("Max-Forwards", "70".to_string());
    m.push_header("From", d.from.clone());
    m.push_header("To", d.to.clone());
    m.push_header("Call-ID", call_id.to_string());
    m.push_header("CSeq", "2 BYE".to_string());
    assert(m@.headers =~= bye_message(host@, d@, call_id@, branch@).headers);
    m
}

// ---- relayed calls ----

/// The dialogs of a call whose RTP is relayed: that of the caller, as far as it is known, and that
/// of the callee.
pub struct Relayed {
    pub caller: Option<DialogBye>,
    pub callee: DialogBye,
}

/// The contents of `Relayed`.
#[verifier::ext_equal]
pub struct RelayedView {
    pub caller: Option<DialogView>,
    pub callee: DialogView,
}

impl View for Relayed {
    type V = RelayedView;

    open spec fn view(&self) -> RelayedView {
        RelayedView { caller: opt_dialog(self.caller), callee: self.callee@ }
    }
}

/// The BYE to the peer of a dialog.
pub open spec fn bye_to(
    host: Seq<char>,
    d: DialogView,
    call_id: Seq<char>,
    branch: Seq<char>,
) -> SipActionView {
    reply(bye_message(host, d, call_id, branch), d.target_addr)
}

/// The BYEs to the peers of a relayed call.
pub open spec fn relay_byes(
    host: Seq<char>,
    relayed: RelayedView,
    call_id: Seq<char>,
    tok: TokensView,
) -> Seq<SipActionView> {
    let to_callee = bye_to(host, relayed.callee, call_id, tok.branch);
    match relayed.caller {
        Some(d) => seq![bye_to(host, d, call_id, tok.dialog_branch), to_callee],
        None => seq![to_callee],
    }
}

} // verus!
