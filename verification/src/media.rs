//! Session descriptions of SIP calls, and the negotiation of codecs.
use crate::text::{
    chars_of, decimal, has_prefix, lines, opt_text, parse_unsigned, push_decimal, split_lines,
    split_words, starts_with, string_of, text_of_bytes, texts, trim_end, trimmed_end,
    unsigned_value, utf8_lossy, words,
};
use vstd::prelude::*;
use vstd::string::*;
use vstd::utf8::*;

verus! {

/// The part of a session description that a call needs: where the audio goes and which payload
/// types are on offer.
#[derive(Debug)]
pub struct Sdp {
    /// Connection address of the `c=` line (of the first audio section, else of the session).
    pub connection_addr: String,
    /// Port of the first `m=audio` line.
    pub audio_port: u16,
    /// Payload types of the first `m=audio` line.
    pub payload_types: Vec<u8>,
}

/// The contents of an `Sdp`.
#[verifier::ext_equal]
pub struct SdpView {
    pub connection_addr: Seq<char>,
    pub audio_port: u16,
    pub payload_types: Seq<u8>,
}

impl View for Sdp {
    type V = SdpView;

    open spec fn view(&self) -> SdpView {
        SdpView {
            connection_addr: self.connection_addr@,
            audio_port: self.audio_port,
            payload_types: self.payload_types@,
        }
    }
}

// ---- reading ----

/// The lines of a description, without the whitespace at their ends.
pub open spec fn sdp_lines(text: Seq<char>) -> Seq<Seq<char>> {
    lines(text).map_values(|l: Seq<char>| trim_end(l))
}

/// The line that opens the first audio section, after `m=audio`.
pub open spec fn audio_line(ls: Seq<Seq<char>>) -> Option<Seq<char>>
    decreases ls.len(),
{
    if ls.len() == 0 {
        None
    } else if audio_line(ls.drop_last()) is None && starts_with(ls.last(), "m=audio "@) {
        Some(ls.last().skip(8))
    } else {
        audio_line(ls.drop_last())
    }
}

/// Whether the last section that `ls` opens is its first audio section.
pub open spec fn in_audio(ls: Seq<Seq<char>>) -> bool
    decreases ls.len(),
{
    if ls.len() == 0 {
        false
    } else if starts_with(ls.last(), "m=audio "@) {
        audio_line(ls.drop_last()) is None
    } else if starts_with(ls.last(), "m="@) {
        false
    } else {
        in_audio(ls.drop_last())
    }
}

/// Whether `ls` opens a section.
pub open spec fn opened(ls: Seq<Seq<char>>) -> bool
    decreases ls.len(),
{
    ls.len() > 0 && (starts_with(ls.last(), "m="@) || opened(ls.drop_last()))
}

/// Whether the line after `ls` stands in the first audio section (`audio`), or before all sections.
pub open spec fn in_scope(ls: Seq<Seq<char>>, audio: bool) -> bool {
    if audio {
        in_audio(ls)
    } else {
        !opened(ls)
    }
}

/// The address on the last `c=` line of `ls` that stands in the first audio section (`audio`), or
/// before all sections: the third word after `c=`.
pub open spec fn connection(ls: Seq<Seq<char>>, audio: bool) -> Option<Seq<char>>
    decreases ls.len(),
{
    if ls.len() == 0 {
        None
    } else if starts_with(ls.last(), "c="@) && in_scope(ls.drop_last(), audio) {
        let ws = words(ls.last().skip(2));
        if ws.len() > 2 {
            Some(ws[2])
        } else {
            None
        }
    } else {
        connection(ls.drop_last(), audio)
    }
}

/// The port of the first audio section: the first word on its line, if that is a port number.
pub open spec fn audio_port(ls: Seq<Seq<char>>) -> Option<nat> {
    match audio_line(ls) {
        Some(l) if words(l).len() > 0 => unsigned_value(words(l)[0], 0xFFFF),
        _ => None,
    }
}

/// The words of `ws` that are numbers of at most 255.
pub open spec fn byte_numbers(ws: Seq<Seq<char>>) -> Seq<u8>
    decreases ws.len(),
{
    if ws.len() == 0 {
        Seq::empty()
    } else {
        match unsigned_value(ws.last(), 0xFF) {
            Some(n) => byte_numbers(ws.drop_last()).push(n as u8),
            None => byte_numbers(ws.drop_last()),
        }
    }
}

/// The payload types of the first audio section: the numbers that follow port and transport.
pub open spec fn payload_list(ls: Seq<Seq<char>>) -> Seq<u8> {
    match audio_line(ls) {
        Some(l) if words(l).len() > 2 => byte_numbers(words(l).skip(2)),
        _ => Seq::empty(),
    }
}

/// What the text of a description says: nothing where its first audio section has no port, or where
/// there is no connection address in that section and none before all sections.
pub open spec fn sdp_of(text: Seq<char>) -> Option<SdpView> {
    let ls = sdp_lines(text);
    let conn = match connection(ls, true) {
        Some(a) => Some(a),
        None => connection(ls, false),
    };
    match (conn, audio_port(ls)) {
        (Some(a), Some(p)) => Some(
            SdpView { connection_addr: a, audio_port: p as u16, payload_types: payload_list(ls) },
        ),
        _ => None,
    }
}

/// The text of a message body: its UTF-8 decoding, or the lossy decoding of what is not UTF-8.
pub open spec fn body_text(body: Seq<u8>) -> Seq<char> {
    if valid_utf8(body) {
        decode_utf8(body)
    } else {
        utf8_lossy(body)
    }
}

/// The words of `v` after its first `n` characters.
fn words_after(v: &Vec<char>, n: usize) -> (r: Vec<Vec<char>>)
    requires
        n <= v@.len(),
    ensures
        texts(r@) == words(v@.skip(n as int)),
{
    let rest = crate::text::slice_of(v, n, v.len());
    assert(rest@ =~= v@.skip(n as int));
    split_words(&rest)
}

spec fn opt_nat(n: Option<u16>) -> Option<nat> {
    match n {
        Some(p) => Some(p as nat),
        None => None,
    }
}

impl Sdp {
    /// Reads a session description. There is none without an audio port and a connection address.
    pub fn parse(body: &[u8]) -> (r: Option<Sdp>)
        ensures
            match r {
                Some(sdp) => sdp_of(body_text(body@)) == Some(sdp@),
                None => sdp_of(body_text(body@)) is None,
            },
    {
        let text = text_of_bytes(body);
        Sdp::parse_text(text.as_str())
    }

    /// Reads a session description from its text.
    pub fn parse_text(text: &str) -> (r: Option<Sdp>)
        ensures
            match r {
                Some(sdp) => sdp_of(text@) == Some(sdp@),
                None => sdp_of(text@) is None,
            },
    {
        proof {
            reveal_strlit("c=");
            reveal_strlit("m=");
            reveal_strlit("m=audio ");
        }
        let v = chars_of(text);
        let raw = split_lines(&v);
        let ghost ls = sdp_lines(text@);
        let mut session_conn: Option<String> = None;
        let mut media_conn: Option<String> = None;
        let mut port: Option<u16> = None;
        let mut payload_types: Vec<u8> = Vec::new();
        let mut audio: bool = false;
        let mut seen: bool = false;
        let mut sections: bool = false;
        let mut i: usize = 0;
        while i < raw.len()
            invariant
                i <= raw@.len(),
                raw@.len() == ls.len(),
                texts(raw@) == lines(text@),
                ls == sdp_lines(text@),
                audio == in_audio(ls.take(i as int)),
                seen == (audio_line(ls.take(i as int)) is Some),
                sections == opened(ls.take(i as int)),
                audio ==> sections,
                opt_text(session_conn) == connection(ls.take(i as int), false),
                opt_text(media_conn) == connection(ls.take(i as int), true),
                opt_nat(port) == audio_port(ls.take(i as int)),
                payload_types@ == payload_list(ls.take(i as int)),
                "c="@.len() == 2,
                "m=audio "@.len() == 8,
                "c="@[0] == 'c',
                "m="@.len() == 2,
                "m="@[0] == 'm',
                "m="@[1] == '=',
                "m=audio "@[0] == 'm',
                "m=audio "@[1] == '=',
            decreases raw@.len() - i,
        {
            let line = trimmed_end(&raw[i]);
            let ghost done = ls.take(i as int);
            let ghost now = ls.take(i + 1);
            proof {
                assert(texts(raw@)[i as int] == raw@[i as int]@);
                assert(line@ == ls[i as int]);
                assert(now.drop_last() =~= done);
                assert(now.last() == line@);
                if starts_with(line@, "c="@) {
                    assert(line@.take(2)[0] == line@[0]);
                }
                if starts_with(line@, "m="@) {
                    assert(line@.take(2)[0] == line@[0]);
                }
                if starts_with(line@, "m=audio "@) {
                    assert(line@.take(8)[0] == line@[0]);
                    assert(line@.take(8)[1] == line@[1]);
                    assert(line@.take(2) =~= "m="@);
                }
            }
            if has_prefix(&line, "c=") {
                let ws = words_after(&line, 2);
                let conn: Option<String> = if ws.len() > 2 {
                    assert(texts(ws@)[2] == ws@[2]@);
                    Some(string_of(ws[2].as_slice()))
                } else {
                    None
                };
                assert(texts(ws@).len() == ws@.len());
                if audio {
                    media_conn = conn;
                } else if !sections {
                    session_conn = conn;
                }
            } else if has_prefix(&line, "m=audio ") && !seen {
                audio = true;
                seen = true;
                sections = true;
                let ws = words_after(&line, 8);
                assert(texts(ws@).len() == ws@.len());
                port = if ws.len() > 0 {
                    assert(texts(ws@)[0] == ws@[0]@);
                    match parse_unsigned(&ws[0], 0xFFFF) {
                        Some(p) => Some(p as u16),
                        None => None,
                    }
                } else {
                    None
                };
                if ws.len() > 2 {
                    let ghost nums = words(line@.skip(8)).skip(2);
                    let mut j: usize = 2;
                    assert(nums.take(0) =~= Seq::<Seq<char>>::empty());
                    assert(payload_types@ =~= byte_numbers(nums.take(0)));
                    while j < ws.len()
                        invariant
                            2 <= j <= ws@.len(),
                            texts(ws@) == words(line@.skip(8)),
                            nums == words(line@.skip(8)).skip(2),
                            nums.len() == ws@.len() - 2,
                            payload_types@ == byte_numbers(nums.take(j - 2)),
                        decreases ws@.len() - j,
                    {
                        proof {
                            assert(texts(ws@)[j as int] == ws@[j as int]@);
                            assert(nums.take(j - 1).drop_last() =~= nums.take(j - 2));
                            assert(nums.take(j - 1).last() == ws@[j as int]@);
                        }
                        match parse_unsigned(&ws[j], 0xFF) {
                            Some(n) => {
                                payload_types.push(n as u8);
                            },
                            None => {},
                        }
                        j += 1;
                    }
                    assert(nums.take(nums.len() as int) =~= nums);
                }
            } else if has_prefix(&line, "m=") {
                audio = false;
                sections = true;
            }
            i += 1;
        }
        assert(ls.take(ls.len() as int) =~= ls);
        let conn = match media_conn {
            Some(a) => Some(a),
            None => session_conn,
        };
        match conn {
            Some(a) => match port {
                Some(p) => Some(Sdp { connection_addr: a, audio_port: p, payload_types }),
                None => None,
            },
            None => None,
        }
    }
}

// ---- writing ----

/// Decimal numerals with single spaces between them.
pub open spec fn spaced(pts: Seq<u8>) -> Seq<char>
    decreases pts.len(),
{
    if pts.len() == 0 {
        Seq::empty()
    } else if pts.len() == 1 {
        decimal(pts[0] as nat)
    } else {
        spaced(pts.drop_last()).push(' ') + decimal(pts.last() as nat)
    }
}

/// The payload types on the media line: PCMU where there are none.
pub open spec fn listed(pts: Seq<u8>) -> Seq<u8> {
    if pts.len() == 0 {
        seq![0u8]
    } else {
        pts
    }
}

/// The attribute lines of a payload type.
pub open spec fn rtpmap(pt: u8) -> Seq<char> {
    if pt == 0 {
        "a=rtpmap:0 PCMU/8000\r\n"@
    } else if pt == 8 {
        "a=rtpmap:8 PCMA/8000\r\n"@
    } else if pt == 101 {
        "a=rtpmap:101 telephone-event/8000\r\na=fmtp:101 0-16\r\n"@
    } else {
        Seq::empty()
    }
}

/// The attribute lines of the payload types, in order.
pub open spec fn rtpmaps(pts: Seq<u8>) -> Seq<char>
    decreases pts.len(),
{
    if pts.len() == 0 {
        Seq::empty()
    } else {
        rtpmaps(pts.drop_last()) + rtpmap(pts.last())
    }
}

/// The description of a relay leg at `addr` and `port`.
pub open spec fn sdp_text(addr: Seq<char>, port: u16, pts: Seq<u8>) -> Seq<char> {
    "v=0\r\no=brew-server 0 0 IN IP4 "@ + addr + "\r\ns=brew\r\nc=IN IP4 "@ + addr
        + "\r\nt=0 0\r\nm=audio "@ + decimal(port as nat) + " RTP/AVP "@ + spaced(listed(pts)) + "\r\n"@
        + rtpmaps(pts) + "a=sendrecv\r\n"@
}

fn push_spaced(out: &mut String, pts: &[u8])
    ensures
        final(out)@ == old(out)@ + spaced(pts@),
{
    let ghost start = out@;
    let mut i: usize = 0;
    assert(start + spaced(pts@.take(0)) =~= start);
    while i < pts.len()
        invariant
            i <= pts@.len(),
            out@ == start + spaced(pts@.take(i as int)),
        decreases pts@.len() - i,
    {
        let ghost now = pts@.take(i + 1);
        proof {
            assert(now.drop_last() =~= pts@.take(i as int));
            assert(now.last() == pts@[i as int]);
        }
        if i > 0 {
            out.push(' ');
        } else {
            assert(spaced(pts@.take(0)) =~= Seq::<char>::empty());
        }
        push_decimal(out, pts[i] as u64);
        assert(out@ =~= start + spaced(now));
        i += 1;
    }
    assert(pts@.take(pts@.len() as int) =~= pts@);
}

impl Sdp {
    /// Writes the description of a relay leg.
    pub fn build(relay_addr: &str, relay_port: u16, payload_types: &[u8]) -> (r: Vec<u8>)
        ensures
            r@ == encode_utf8(sdp_text(relay_addr@, relay_port, payload_types@)),
    {
        let mut sdp = String::new();
        sdp.append("v=0\r\no=brew-server 0 0 IN IP4 ");
        sdp.append(relay_addr);
        sdp.append("\r\ns=brew\r\nc=IN IP4 ");
        sdp.append(relay_addr);
        sdp.append("\r\nt=0 0\r\nm=audio ");
        push_decimal(&mut sdp, relay_port as u64);
        sdp.append(" RTP/AVP ");
        if payload_types.len() == 0 {
            let pcmu: [u8; 1] = [0];
            push_spaced(&mut sdp, pcmu.as_slice());
            assert(pcmu@ =~= listed(payload_types@));
        } else {
            push_spaced(&mut sdp, payload_types);
        }
        sdp.append("\r\n");
        let ghost head = sdp@;
        assert(head =~= "v=0\r\no=brew-server 0 0 IN IP4 "@ + relay_addr@ + "\r\ns=brew\r\nc=IN IP4 "@
            + relay_addr@ + "\r\nt=0 0\r\nm=audio "@ + decimal(relay_port as nat) + " RTP/AVP "@ + spaced(
            listed(payload_types@),
        ) + "\r\n"@);
        let mut i: usize = 0;
        assert(head + rtpmaps(payload_types@.take(0)) =~= head);
        while i < payload_types.len()
            invariant
                i <= payload_types@.len(),
                sdp@ == head + rtpmaps(payload_types@.take(i as int)),
            decreases payload_types@.len() - i,
        {
            let ghost now = payload_types@.take(i + 1);
            proof {
                assert(now.drop_last() =~= payload_types@.take(i as int));
                assert(now.last() == payload_types@[i as int]);
            }
            let pt: u8 = payload_types[i];
            if pt == 0 {
                sdp.append("a=rtpmap:0 PCMU/8000\r\n");
            } else if pt == 8 {
                sdp.append("a=rtpmap:8 PCMA/8000\r\n");
            } else if pt == 101 {
                sdp.append("a=rtpmap:101 telephone-event/8000\r\na=fmtp:101 0-16\r\n");
            }
            assert(sdp@ =~= head + rtpmaps(now));
            i += 1;
        }
        assert(payload_types@.take(payload_types@.len() as int) =~= payload_types@);
        sdp.append("a=sendrecv\r\n");
        assert(sdp@ =~= sdp_text(relay_addr@, relay_port, payload_types@));
        sdp.into_bytes()
    }
}

/// The G.711 codec of an offer that is answered: PCMU before PCMA, and PCMU where it has neither.
pub open spec fn offered_codec(offer: Seq<u8>) -> u8 {
    if offer.contains(0) {
        0
    } else if offer.contains(8) {
        8
    } else {
        0
    }
}

/// The payload types that answer an offer: one codec, and DTMF events where they are offered.
pub open spec fn negotiated(offer: Seq<u8>) -> Seq<u8> {
    if offer.contains(101) {
        seq![offered_codec(offer), 101]
    } else {
        seq![offered_codec(offer)]
    }
}

fn offers(offer: &[u8], pt: u8) -> (r: bool)
    ensures
        r == offer@.contains(pt),
{
    let mut i: usize = 0;
    while i < offer.len()
        invariant
            i <= offer@.len(),
            forall|j: int| 0 <= j < i ==> #[trigger] offer@[j] != pt,
        decreases offer@.len() - i,
    {
        if offer[i] == pt {
            return true;
        }
        i += 1;
    }
    false
}

/// Chooses the payload types that answer an offer.
pub fn negotiate_payloads(offer: &[u8]) -> (r: Vec<u8>)
    ensures
        r@ == negotiated(offer@),
{
    let mut out: Vec<u8> = Vec::new();
    if offers(offer, 0) {
        out.push(0);
    } else if offers(offer, 8) {
        out.push(8);
    } else {
        out.push(0);
    }
    if offers(offer, 101) {
        out.push(101);
    }
    assert(out@ =~= negotiated(offer@));
    out
}

} // verus!
