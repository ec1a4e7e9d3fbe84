//! What a session description says, told line by line, and which codecs are agreed on.
use crate::media::{
    audio_line, byte_numbers, connection, in_audio, negotiated, opened, rtpmap, rtpmaps, sdp_lines,
    sdp_of,
};
use crate::text::{lines, starts_with, trim_end, unsigned_value, words};
use vstd::prelude::*;
use vstd::string::*;

verus! {

// ---- codecs ----

/// An offer is answered with one G.711 codec: PCMA where it offers that and not PCMU, and PCMU
/// otherwise; DTMF events are added where they are offered.
pub proof fn one_codec_is_agreed_on(offer: Seq<u8>)
    ensures
        ({
            let r = negotiated(offer);
            &&& r.len() == if offer.contains(101) {
                2int
            } else {
                1
            }
            &&& r[0] == 0 || r[0] == 8
            &&& r[0] == 8 <==> offer.contains(8) && !offer.contains(0)
            &&& r.len() > 1 ==> r[1] == 101
        }),
{
}

// ---- sections ----

/// Whether a line opens an audio section.
pub open spec fn opens_audio(l: Seq<char>) -> bool {
    exists|rest: Seq<char>| l == "m=audio "@ + rest
}

/// Whether a line opens a section.
pub open spec fn opens_section(l: Seq<char>) -> bool {
    exists|rest: Seq<char>| l == "m="@ + rest
}

/// Whether a line gives a connection address.
pub open spec fn gives_address(l: Seq<char>) -> bool {
    exists|rest: Seq<char>| l == "c="@ + rest
}

/// Whether line `k` stands before all sections.
pub open spec fn in_session(ls: Seq<Seq<char>>, k: int) -> bool {
    forall|j: int| 0 <= j < k ==> !opens_section(#[trigger] ls[j])
}

/// Whether line `k` stands in the audio section that line `a` opens.
pub open spec fn in_section(ls: Seq<Seq<char>>, a: int, k: int) -> bool {
    &&& 0 <= a < k
    &&& opens_audio(ls[a])
    &&& forall|j: int| 0 <= j < a ==> !opens_audio(#[trigger] ls[j])
    &&& forall|j: int| a < j < k ==> !opens_section(#[trigger] ls[j])
}

proof fn lemma_prefix(l: Seq<char>, p: Seq<char>)
    ensures
        starts_with(l, p) <==> exists|rest: Seq<char>| l == p + rest,
{
    if starts_with(l, p) {
        assert(l =~= p + l.skip(p.len() as int));
    }
    if exists|rest: Seq<char>| l == p + rest {
        let rest = choose|rest: Seq<char>| l == p + rest;
        assert(l.take(p.len() as int) =~= p);
    }
}

/// An audio section is a section.
proof fn lemma_audio_is_section(l: Seq<char>)
    ensures
        opens_audio(l) ==> opens_section(l),
{
    reveal_strlit("m=audio ");
    reveal_strlit("m=");
    if opens_audio(l) {
        let rest = choose|rest: Seq<char>| l == "m=audio "@ + rest;
        assert(l =~= "m="@ + l.skip(2));
    }
}

/// The first line that opens an audio section is the one that counts, and there is none where no line
/// does.
pub proof fn first_audio_section_counts(ls: Seq<Seq<char>>, k: int)
    requires
        0 <= k <= ls.len(),
        forall|j: int| 0 <= j < k ==> !opens_audio(#[trigger] ls[j]),
        k < ls.len() ==> opens_audio(ls[k]),
    ensures
        k == ls.len() ==> audio_line(ls) is None,
        k < ls.len() ==> audio_line(ls) is Some && ls[k] == "m=audio "@ + audio_line(ls)->0,
    decreases ls.len(),
{
    reveal_strlit("m=audio ");
    if ls.len() > 0 {
        let m = ls.drop_last();
        lemma_prefix(ls.last(), "m=audio "@);
        assert(ls.last() == ls[ls.len() - 1]);
        assert forall|j: int| 0 <= j < k && j < m.len() implies !opens_audio(#[trigger] m[j]) by {
            assert(m[j] == ls[j]);
        }
        if k < m.len() {
            assert(m[k] == ls[k]);
            first_audio_section_counts(m, k);
        } else {
            first_audio_section_counts(m, m.len() as int);
            if k == m.len() {
                assert(ls[k] =~= "m=audio "@ + ls[k].skip(8));
            }
        }
    }
}

proof fn lemma_opened(ls: Seq<Seq<char>>)
    ensures
        opened(ls) <==> !in_session(ls, ls.len() as int),
    decreases ls.len(),
{
    if ls.len() > 0 {
        let m = ls.drop_last();
        lemma_opened(m);
        lemma_prefix(ls.last(), "m="@);
        assert(ls.last() == ls[ls.len() - 1]);
        if in_session(ls, ls.len() as int) {
            assert forall|j: int| 0 <= j < m.len() implies !opens_section(#[trigger] m[j]) by {
                assert(m[j] == ls[j]);
            }
            assert(!opens_section(ls[ls.len() - 1]));
        } else {
            let j = choose|j: int| 0 <= j < ls.len() && opens_section(#[trigger] ls[j]);
            if j < m.len() {
                assert(m[j] == ls[j]);
            }
        }
    }
}

proof fn lemma_audio_none(ls: Seq<Seq<char>>)
    ensures
        audio_line(ls) is None <==> forall|j: int|
            0 <= j < ls.len() ==> !opens_audio(#[trigger] ls[j]),
    decreases ls.len(),
{
    if ls.len() > 0 {
        let m = ls.drop_last();
        lemma_audio_none(m);
        lemma_prefix(ls.last(), "m=audio "@);
        let n = ls.len() - 1;
        assert(ls.last() == ls[n]);
        if audio_line(ls) is None {
            assert forall|j: int| 0 <= j < ls.len() implies !opens_audio(#[trigger] ls[j]) by {
                if j < n {
                    assert(m[j] == ls[j]);
                }
            }
        }
        if forall|j: int| 0 <= j < ls.len() ==> !opens_audio(#[trigger] ls[j]) {
            assert(!opens_audio(ls[n]));
            assert forall|j: int| 0 <= j < m.len() implies !opens_audio(#[trigger] m[j]) by {
                assert(m[j] == ls[j]);
            }
        }
    }
}

proof fn lemma_in_audio(ls: Seq<Seq<char>>)
    ensures
        in_audio(ls) <==> exists|a: int| in_section(ls, a, ls.len() as int),
    decreases ls.len(),
{
    let len = ls.len() as int;
    if ls.len() > 0 {
        let m = ls.drop_last();
        let n = len - 1;
        lemma_in_audio(m);
        lemma_audio_none(m);
        lemma_prefix(ls.last(), "m=audio "@);
        lemma_prefix(ls.last(), "m="@);
        lemma_audio_is_section(ls.last());
        assert(ls.last() == ls[n]);
        assert forall|j: int| 0 <= j < n implies #[trigger] m[j] == ls[j] by {}
        if in_audio(ls) {
            if opens_audio(ls[n]) {
                assert forall|j: int| 0 <= j < n implies !opens_audio(#[trigger] ls[j]) by {
                    assert(m[j] == ls[j]);
                }
                assert(in_section(ls, n, len));
            } else {
                let a = choose|a: int| in_section(m, a, n);
                assert(m[a] == ls[a]);
                assert forall|j: int| 0 <= j < a implies !opens_audio(#[trigger] ls[j]) by {
                    assert(m[j] == ls[j]);
                }
                assert forall|j: int| a < j < len implies !opens_section(#[trigger] ls[j]) by {
                    if j < n {
                        assert(m[j] == ls[j]);
                    }
                }
                assert(in_section(ls, a, len));
            }
        }
        if exists|a: int| in_section(ls, a, len) {
            let a = choose|a: int| in_section(ls, a, len);
            if a == n {
                assert forall|j: int| 0 <= j < m.len() implies !opens_audio(#[trigger] m[j]) by {
                    assert(m[j] == ls[j]);
                }
            } else {
                assert(!opens_section(ls[n]));
                assert(m[a] == ls[a]);
                assert forall|j: int| 0 <= j < a implies !opens_audio(#[trigger] m[j]) by {
                    assert(m[j] == ls[j]);
                }
                assert forall|j: int| a < j < n implies !opens_section(#[trigger] m[j]) by {
                    assert(m[j] == ls[j]);
                }
                assert(in_section(m, a, n));
            }
        }
    }
}

/// Whether line `k` gives an address that counts: in the first audio section (`audio`), or before all
/// sections.
pub open spec fn address_line(ls: Seq<Seq<char>>, k: int, audio: bool) -> bool {
    &&& 0 <= k < ls.len()
    &&& gives_address(ls[k])
    &&& if audio {
        exists|a: int| in_section(ls, a, k)
    } else {
        in_session(ls, k)
    }
}

proof fn lemma_address_line(ls: Seq<Seq<char>>, k: int, audio: bool)
    requires
        0 <= k < ls.len(),
    ensures
        address_line(ls, k, audio) <==> starts_with(ls[k], "c="@) && crate::media::in_scope(
            ls.take(k),
            audio,
        ),
{
    let m = ls.take(k);
    lemma_prefix(ls[k], "c="@);
    lemma_opened(m);
    lemma_in_audio(m);
    assert forall|j: int| 0 <= j < k implies #[trigger] m[j] == ls[j] by {}
    if in_session(ls, k) {
        assert forall|j: int| 0 <= j < k implies !opens_section(#[trigger] m[j]) by {
            assert(m[j] == ls[j]);
        }
    }
    if in_session(m, k) {
        assert forall|j: int| 0 <= j < k implies !opens_section(#[trigger] ls[j]) by {
            assert(m[j] == ls[j]);
        }
    }
    assert forall|a: int| in_section(ls, a, k) == in_section(m, a, k) by {
        lemma_same_section(ls, m, a, k);
        lemma_same_section(m, ls, a, k);
    }
}

proof fn lemma_same_section(x: Seq<Seq<char>>, y: Seq<Seq<char>>, a: int, k: int)
    requires
        forall|j: int| 0 <= j < k ==> #[trigger] x[j] == y[j],
    ensures
        in_section(x, a, k) ==> in_section(y, a, k),
{
    if in_section(x, a, k) {
        assert(x[a] == y[a]);
        assert forall|j: int| 0 <= j < a implies !opens_audio(#[trigger] y[j]) by {
            assert(x[j] == y[j]);
        }
        assert forall|j: int| a < j < k implies !opens_section(#[trigger] y[j]) by {
            assert(x[j] == y[j]);
        }
    }
}

/// The last address line that counts gives the address: the third word behind `c=`. There is none
/// where no line counts.
pub proof fn last_address_line_counts(ls: Seq<Seq<char>>, k: int, audio: bool)
    requires
        -1 <= k < ls.len(),
        k >= 0 ==> address_line(ls, k, audio),
        forall|j: int| k < j < ls.len() ==> !#[trigger] address_line(ls, j, audio),
    ensures
        ({
            let r = connection(ls, audio);
            let ws = words(ls[k].skip(2));
            &&& k < 0 ==> r is None
            &&& k >= 0 ==> (r is Some <==> ws.len() > 2)
            &&& r is Some ==> r->0 == ws[2]
        }),
    decreases ls.len(),
{
    if ls.len() > 0 {
        let n = ls.len() - 1;
        let m = ls.drop_last();
        assert(ls.take(n) =~= m);
        lemma_address_line(ls, n, audio);
        assert(ls.last() == ls[n]);
        if k < n {
            assert(!address_line(ls, n, audio));
            assert forall|j: int| 0 <= j < n implies address_line(m, j, audio) == address_line(
                ls,
                j,
                audio,
            ) by {
                lemma_address_line(ls, j, audio);
                lemma_address_line(m, j, audio);
                assert(m.take(j) =~= ls.take(j));
                assert(m[j] == ls[j]);
            }
            if k >= 0 {
                assert(address_line(m, k, audio));
                assert(m[k] == ls[k]);
            }
            assert forall|j: int| k < j < m.len() implies !#[trigger] address_line(m, j, audio) by {
                assert(!address_line(ls, j, audio));
            }
            last_address_line_counts(m, k, audio);
        }
    }
}

/// A description says something exactly where the line of its first audio section begins with a port
/// number and there is an address. The address of that section comes before that of the session; the
/// payload types are the numbers from the third word on.
pub proof fn description_needs_port_and_address(text: Seq<char>)
    ensures
        ({
            let ls = Seq::new(lines(text).len(), |i: int| trim_end(lines(text)[i]));
            let r = sdp_of(text);
            let l = audio_line(ls);
            let ws = words(l->0);
            let near = connection(ls, true);
            let far = connection(ls, false);
            let port = unsigned_value(ws[0], 65535);
            &&& r is Some <==> l is Some && ws.len() > 0 && port is Some && (near is Some
                || far is Some)
            &&& r is Some ==> {
                &&& r->0.audio_port == port->0
                &&& near is Some ==> r->0.connection_addr == near->0
                &&& near is None ==> r->0.connection_addr == far->0
                &&& r->0.payload_types == (if ws.len() > 2 {
                    byte_numbers(ws.skip(2))
                } else {
                    seq![]
                })
            }
        }),
{
    let ls = Seq::new(lines(text).len(), |i: int| trim_end(lines(text)[i]));
    assert(sdp_lines(text) =~= ls);
}

/// The payload types of a list of words are those of its parts, in order; a word counts where it is a
/// number of at most 255.
pub proof fn payload_types_are_the_numbers(a: Seq<Seq<char>>, b: Seq<Seq<char>>, w: Seq<char>)
    ensures
        byte_numbers(a + b) == byte_numbers(a) + byte_numbers(b),
        unsigned_value(w, 255) matches Some(n) ==> byte_numbers(seq![w]) == seq![n as u8],
        unsigned_value(w, 255) is None ==> byte_numbers(seq![w]).len() == 0,
    decreases b.len(),
{
    let one = seq![w];
    assert(one.drop_last() =~= Seq::<Seq<char>>::empty());
    assert(byte_numbers(one.drop_last()) =~= Seq::<u8>::empty());
    assert(one.last() == w);
    if unsigned_value(w, 255) is Some {
        assert(byte_numbers(one) =~= seq![unsigned_value(w, 255)->0 as u8]);
    }
    if b.len() == 0 {
        assert(a + b =~= a);
        assert(byte_numbers(a) + byte_numbers(b) =~= byte_numbers(a));
    } else {
        payload_types_are_the_numbers(a, b.drop_last(), w);
        assert((a + b).drop_last() =~= a + b.drop_last());
        assert((a + b).last() == b.last());
        assert(byte_numbers(a + b) =~= byte_numbers(a) + byte_numbers(b));
    }
}

/// The attribute lines are those of each payload type in order: its name and rate for PCMU, PCMA and
/// DTMF events, for the last also which events, and none for another.
pub proof fn attributes_follow_the_payload_types(a: Seq<u8>, b: Seq<u8>, pt: u8)
    ensures
        rtpmaps(a + b) == rtpmaps(a) + rtpmaps(b),
        rtpmaps(seq![0u8]) == "a=rtpmap:0 PCMU/8000\r\n"@,
        rtpmaps(seq![8u8]) == "a=rtpmap:8 PCMA/8000\r\n"@,
        rtpmaps(seq![101u8]) == "a=rtpmap:101 telephone-event/8000\r\na=fmtp:101 0-16\r\n"@,
        pt != 0 && pt != 8 && pt != 101 ==> rtpmaps(seq![pt]).len() == 0,
    decreases b.len(),
{
    lemma_one_attribute(0);
    lemma_one_attribute(8);
    lemma_one_attribute(101);
    lemma_one_attribute(pt);
    if b.len() == 0 {
        assert(a + b =~= a);
        assert(rtpmaps(a) + rtpmaps(b) =~= rtpmaps(a));
    } else {
        attributes_follow_the_payload_types(a, b.drop_last(), pt);
        assert((a + b).drop_last() =~= a + b.drop_last());
        assert((a + b).last() == b.last());
        assert(rtpmaps(a + b) =~= rtpmaps(a) + rtpmaps(b));
    }
}

proof fn lemma_one_attribute(pt: u8)
    ensures
        rtpmaps(seq![pt]) == rtpmap(pt),
{
    let one = seq![pt];
    assert(one.drop_last() =~= Seq::<u8>::empty());
    assert(rtpmaps(one.drop_last()) =~= Seq::<char>::empty());
    assert(one.last() == pt);
    assert(rtpmaps(one) =~= rtpmap(pt));
}

} // verus!
