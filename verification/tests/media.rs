use brew_server::addr::SocketAddress;
use brew_server::bridge::BrewBridge;
use brew_server::media::{negotiate_payloads, Sdp};
use brew_server::rtp::{AllocStep, LegAlloc, RtpLeg, RtpRelay};

const OFFER: &str = "v=0\r\n\
o=alice 1 1 IN IP4 10.0.0.5\r\n\
s=-\r\n\
c=IN IP4 10.0.0.5\r\n\
t=0 0\r\n\
m=audio 40000 RTP/AVP 0 8 101\r\n\
a=rtpmap:0 PCMU/8000\r\n\
a=rtpmap:101 telephone-event/8000\r\n";

#[test]
fn parses_offer() {
    let sdp = Sdp::parse(OFFER.as_bytes()).unwrap();
    assert_eq!(sdp.connection_addr, "10.0.0.5");
    assert_eq!(sdp.audio_port, 40000);
    assert_eq!(sdp.payload_types, vec![0, 8, 101]);
}

#[test]
fn negotiates_common_codec() {
    assert_eq!(negotiate_payloads(&[0, 8, 101]), vec![0, 101]);
    assert_eq!(negotiate_payloads(&[8, 101]), vec![8, 101]);
    assert_eq!(negotiate_payloads(&[9]), vec![0]); // fallback to PCMU
}

#[test]
fn builds_answer_with_rtpmap() {
    let ans = String::from_utf8(Sdp::build("1.2.3.4", 16000, &[0, 101])).unwrap();
    assert!(ans.contains("m=audio 16000 RTP/AVP 0 101\r\n"));
    assert!(ans.contains("a=rtpmap:0 PCMU/8000\r\n"));
    assert!(ans.contains("telephone-event/8000"));
    assert!(ans.contains("c=IN IP4 1.2.3.4"));
}

#[test]
fn built_description_is_exact() {
    let text = String::from_utf8(Sdp::build("1.2.3.4", 16000, &[0, 8, 101])).unwrap();
    assert_eq!(
        text,
        "v=0\r\no=brew-server 0 0 IN IP4 1.2.3.4\r\ns=brew\r\nc=IN IP4 1.2.3.4\r\nt=0 0\r\n\
m=audio 16000 RTP/AVP 0 8 101\r\na=rtpmap:0 PCMU/8000\r\na=rtpmap:8 PCMA/8000\r\n\
a=rtpmap:101 telephone-event/8000\r\na=fmtp:101 0-16\r\na=sendrecv\r\n"
    );
}

#[test]
fn description_reads_back_what_was_written() {
    for (port, pts) in [(16000u16, vec![0u8, 101]), (1, vec![8]), (65535, vec![0, 8, 101, 33])] {
        let body = Sdp::build("192.168.1.7", port, &pts);
        let sdp = Sdp::parse(&body).unwrap();
        assert_eq!(sdp.connection_addr, "192.168.1.7");
        assert_eq!(sdp.audio_port, port);
        assert_eq!(sdp.payload_types, pts);
    }
    // Without payload types PCMU is listed.
    let sdp = Sdp::parse(&Sdp::build("h", 4000, &[])).unwrap();
    assert_eq!(sdp.payload_types, vec![0]);
}

#[test]
fn connection_of_the_audio_section_wins() {
    let text = "v=0\r\nc=IN IP4 1.1.1.1\r\nm=video 4000 RTP/AVP 96\r\nc=IN IP4 2.2.2.2\r\n\
m=audio 5000 RTP/AVP 8\r\nc=IN IP4 3.3.3.3\r\n";
    let sdp = Sdp::parse(text.as_bytes()).unwrap();
    assert_eq!(sdp.connection_addr, "3.3.3.3");
    assert_eq!(sdp.audio_port, 5000);
    assert_eq!(sdp.payload_types, vec![8]);
}

#[test]
fn first_audio_section_is_the_one_that_counts() {
    let text = "v=0\r\nc=IN IP4 1.1.1.1\r\nm=audio 5000 RTP/AVP 8 101\r\nc=IN IP4 2.2.2.2\r\n\
m=audio 6000 RTP/AVP 0\r\nc=IN IP4 3.3.3.3\r\n";
    let sdp = Sdp::parse(text.as_bytes()).unwrap();
    assert_eq!(sdp.connection_addr, "2.2.2.2");
    assert_eq!(sdp.audio_port, 5000);
    assert_eq!(sdp.payload_types, vec![8, 101]);
}

#[test]
fn later_sections_do_not_change_the_address_of_the_session() {
    let parsed = |t: &str| {
        let s = Sdp::parse(t.as_bytes()).unwrap();
        (s.connection_addr, s.audio_port)
    };
    let session = ("1.1.1.1".to_string(), 4000);
    let audio = "v=0\r\nc=IN IP4 1.1.1.1\r\nm=audio 4000 RTP/AVP 0\r\n";
    assert_eq!(parsed(&format!("{audio}m=audio 5000 RTP/AVP 0\r\nc=IN IP4 2.2.2.2\r\n")), session);
    assert_eq!(parsed(&format!("{audio}m=video 5000 RTP/AVP 96\r\nc=IN IP4 2.2.2.2\r\n")), session);
    assert_eq!(parsed(&format!("{audio}m=video 5000 RTP/AVP 96\r\nc=broken\r\n")), session);
    let video = "v=0\r\nc=IN IP4 1.1.1.1\r\nm=video 5000 RTP/AVP 96\r\nc=IN IP4 2.2.2.2\r\nm=audio 4000 RTP/AVP 0\r\n";
    assert_eq!(parsed(video), session);
    // An address of another section alone is none.
    assert!(Sdp::parse(b"v=0\r\nm=video 5000 RTP/AVP 96\r\nc=IN IP4 2.2.2.2\r\nm=audio 4000 RTP/AVP 0\r\n").is_none());
}

#[test]
fn description_without_audio_or_address_is_none() {
    assert!(Sdp::parse(b"").is_none());
    assert!(Sdp::parse(b"v=0\r\nc=IN IP4 1.1.1.1\r\n").is_none());
    assert!(Sdp::parse(b"v=0\r\nm=audio 5000 RTP/AVP 0\r\n").is_none());
    assert!(Sdp::parse(b"c=IN IP4 1.1.1.1\r\nm=audio notaport RTP/AVP 0\r\n").is_none());
}

#[test]
fn description_that_is_not_utf8_is_read_lossily() {
    let mut body = b"s=\xff\xfe\r\n".to_vec();
    body.extend_from_slice(OFFER.as_bytes());
    let sdp = Sdp::parse(&body).unwrap();
    assert_eq!(sdp.connection_addr, "10.0.0.5");
    assert_eq!(sdp.audio_port, 40000);
}

/// Pins the codec choice of a bridged call: the transcoder runs at what the peer answered with.
#[test]
fn transcoder_payload_type_honours_pcma_only_answer() {
    assert_eq!(BrewBridge::transcoder_payload_type(&[8]), 8, "PCMA-only answer must select PCMA");
    assert_eq!(BrewBridge::transcoder_payload_type(&[0]), 0, "PCMU-only answer must select PCMU");
    assert_eq!(BrewBridge::transcoder_payload_type(&[8, 101]), 8, "PCMA with telephone-event must still pick PCMA");
    assert_eq!(BrewBridge::transcoder_payload_type(&[]), 0, "no usable codec falls back to PCMU");
}

#[test]
fn sdp_answer_with_pcma_only_parses_and_selects_pcma() {
    let sdp = b"v=0\r\no=- 1 1 IN IP4 10.0.0.5\r\ns=-\r\nc=IN IP4 10.0.0.5\r\nt=0 0\r\nm=audio 20000 RTP/AVP 8\r\na=rtpmap:8 PCMA/8000\r\n";
    let offer = Sdp::parse(sdp).expect("valid SDP");
    assert_eq!(BrewBridge::transcoder_payload_type(&offer.payload_types), 8);
}

#[test]
fn transcoder_runs_at_the_codec_that_was_answered() {
    for offer in [vec![0u8, 8, 101], vec![8, 0], vec![8, 101], vec![9], vec![], vec![101]] {
        let answer = negotiate_payloads(&offer);
        assert_eq!(BrewBridge::transcoder_payload_type(&answer), answer[0]);
    }
}

fn bound_leg(relay: &mut RtpRelay) -> RtpLeg {
    let mut a = LegAlloc::new();
    let first = relay.alloc_leg(&mut a, false);
    assert!(matches!(first, AllocStep::Bind(_)));
    match relay.alloc_leg(&mut a, true) {
        AllocStep::Allocated(leg) => leg,
        _ => panic!("a bound port is a leg"),
    }
}

#[test]
fn relay_allocates_distinct_ports() {
    let mut relay = RtpRelay::new("127.0.0.1".to_string(), 41000, 41010);
    let a = bound_leg(&mut relay);
    let b = bound_leg(&mut relay);
    assert_ne!(a.local_port, b.local_port);
    assert!(a.local_port >= 41000 && a.local_port < 41010);
}

fn v4(d: u8, port: u16) -> SocketAddress {
    SocketAddress::V4 { ip: 0x7F00_0000 + d as u32, port }
}

#[test]
fn relay_forwards_after_latch() {
    let mut relay = RtpRelay::new("127.0.0.1".to_string(), 42000, 42020);
    let mut a = bound_leg(&mut relay);
    let mut b = bound_leg(&mut relay);
    let ep_a = v4(1, 50001);
    let ep_b = v4(1, 50002);
    a.set_remote(ep_a);
    b.set_remote(ep_b);
    // RTP from A must be relayed to latched B, and the other way round.
    assert_eq!(RtpRelay::bridge(&mut a, &mut b, true, ep_a, 7), Some(ep_b));
    assert_eq!(RtpRelay::bridge(&mut a, &mut b, false, ep_b, 9), Some(ep_a));
    assert_eq!(a.activity(), 7);
    assert_eq!(b.activity(), 9);
}

#[test]
fn relay_latches_the_first_source_and_drops_until_then() {
    let mut relay = RtpRelay::new("127.0.0.1".to_string(), 42000, 42020);
    let mut a = bound_leg(&mut relay);
    let mut b = bound_leg(&mut relay);
    assert_eq!(RtpRelay::bridge(&mut a, &mut b, true, v4(1, 1), 1), None);
    assert_eq!(RtpRelay::bridge(&mut a, &mut b, false, v4(2, 2), 2), Some(v4(1, 1)));
    // A later source changes nothing, but its packet is relayed.
    assert_eq!(RtpRelay::bridge(&mut a, &mut b, true, v4(3, 3), 3), Some(v4(2, 2)));
    assert_eq!(a.send(), Some(v4(1, 1)));
    assert_eq!(a.activity(), 3);
}

#[test]
fn first_packet_takes_the_place_of_the_described_address() {
    let mut relay = RtpRelay::new("127.0.0.1".to_string(), 42000, 42020);
    let mut a = bound_leg(&mut relay);
    a.set_remote(v4(9, 9));
    assert_eq!(a.send(), Some(v4(9, 9)));
    a.recv(v4(1, 1), 5);
    assert_eq!(a.send(), Some(v4(1, 1)));
    a.recv(v4(2, 2), 6);
    assert_eq!((a.send(), a.activity()), (Some(v4(1, 1)), 6));
}

#[test]
fn relay_walks_its_ports_in_steps_of_two() {
    let mut relay = RtpRelay::new("h".to_string(), 41000, 41006);
    let got: Vec<u16> = (0..5).map(|_| bound_leg(&mut relay).local_port).collect();
    assert_eq!(got, vec![41000, 41002, 41004, 41006, 41000]);
    assert_eq!(relay.bind_host(), "h");
}

#[test]
fn relay_limits_are_raised() {
    let mut relay = RtpRelay::new("h".to_string(), 80, 80);
    assert_eq!(bound_leg(&mut relay).local_port, 1024);
    assert_eq!(bound_leg(&mut relay).local_port, 1024);
}

#[test]
fn allocation_gives_up_after_every_port() {
    let mut relay = RtpRelay::new("h".to_string(), 41000, 41006);
    let mut a = LegAlloc::new();
    let mut asked = vec![];
    loop {
        match relay.alloc_leg(&mut a, false) {
            AllocStep::Bind(p) => asked.push(p),
            AllocStep::Exhausted => break,
            AllocStep::Allocated(_) => panic!("nothing was bound"),
        }
    }
    assert_eq!(asked, vec![41000, 41002, 41004, 41006]);
}

#[test]
fn allocation_tries_every_port_from_the_middle_of_the_walk() {
    let mut relay = RtpRelay::new("h".to_string(), 41000, 41007);
    bound_leg(&mut relay);
    let mut a = LegAlloc::new();
    let mut asked = vec![];
    while let AllocStep::Bind(p) = relay.alloc_leg(&mut a, false) {
        asked.push(p);
    }
    assert_eq!(asked, vec![41002, 41004, 41006, 41000]);
}

#[test]
fn walk_ends_at_the_last_port_there_is() {
    let mut relay = RtpRelay::new("h".to_string(), 65533, 65535);
    let got: Vec<u16> = (0..3).map(|_| bound_leg(&mut relay).local_port).collect();
    assert_eq!(got, vec![65533, 65535, 65533]);
    let mut relay = RtpRelay::new("h".to_string(), 65532, 65535);
    let got: Vec<u16> = (0..3).map(|_| bound_leg(&mut relay).local_port).collect();
    assert_eq!(got, vec![65532, 65534, 65532]);
}
