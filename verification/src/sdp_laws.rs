//! What a reader gets back of a written session description.
use crate::media::{
    audio_line, body_text, byte_numbers, connection, in_audio, listed, opened, rtpmap, rtpmaps,
    sdp_lines, sdp_of, sdp_text, spaced, SdpView,
};
use crate::text::{
    decimal, decimal_round_trip, is_digit, is_space, lemma_decimal, lemma_lines_cons, lemma_span,
    lemma_span_is, lines, not_space, span, starts_with, trim_end, words,
};
use vstd::prelude::*;
use vstd::string::*;
use vstd::utf8::*;

verus! {

// ---- words ----

/// The words of two texts that a space parts are the words of the one and those of the other.
proof fn lemma_words_split(a: Seq<char>, b: Seq<char>)
    ensures
        words(a.push(' ') + b) == words(a) + words(b),
    decreases a.len(),
{
    let s = a.push(' ') + b;
    if a.len() == 0 {
        assert(s[0] == ' ');
        assert(s.skip(1) =~= b);
        assert(words(a) + words(b) =~= words(b));
    } else if is_space(a[0]) {
        assert(s[0] == a[0]);
        assert(s.skip(1) =~= a.skip(1).push(' ') + b);
        lemma_words_split(a.skip(1), b);
    } else {
        let n = span(a, not_space());
        lemma_span(a, not_space());
        assert(s[0] == a[0]);
        assert forall|i: int| 0 <= i < n implies not_space()(#[trigger] s[i]) by {
            assert(s[i] == a[i]);
        }
        if n < a.len() {
            assert(s[n] == a[n]);
        } else {
            assert(s[n] == ' ');
        }
        lemma_span_is(s, not_space(), n);
        assert(s.take(n) =~= a.take(n));
        if n < a.len() {
            assert(s.skip(n) =~= a.skip(n).push(' ') + b);
            lemma_words_split(a.skip(n), b);
            assert(words(s) =~= words(a) + words(b));
        } else {
            assert(a.skip(n) =~= Seq::<char>::empty());
            assert(s.skip(n) =~= a.skip(n).push(' ') + b);
            lemma_words_split(a.skip(n), b);
            assert(words(s) =~= words(a) + words(b));
        }
    }
}

/// Whether `s` is a word: some characters, none of them whitespace.
pub open spec fn is_word(s: Seq<char>) -> bool {
    s.len() > 0 && forall|i: int| 0 <= i < s.len() ==> !is_space(#[trigger] s[i])
}

proof fn lemma_one_word(w: Seq<char>)
    requires
        is_word(w),
    ensures
        words(w) == seq![w],
{
    lemma_span_is(w, not_space(), w.len() as int);
    assert(w.take(w.len() as int) =~= w);
    assert(w.skip(w.len() as int) =~= Seq::<char>::empty());
    assert(words(Seq::<char>::empty()) =~= Seq::<Seq<char>>::empty());
    assert(!is_space(w[0]));
    assert(words(w) =~= seq![w]);
}

proof fn lemma_decimal_word(n: nat)
    ensures
        is_word(decimal(n)),
        !is_space(decimal(n).last()),
{
    lemma_decimal(n);
    assert forall|i: int| 0 <= i < decimal(n).len() implies !is_space(#[trigger] decimal(n)[i]) by {
        assert(is_digit(decimal(n)[i]));
    }
}

/// The decimal numerals of a list.
spec fn numerals(pts: Seq<u8>) -> Seq<Seq<char>> {
    Seq::new(pts.len(), |i: int| decimal(pts[i] as nat))
}

proof fn lemma_spaced(pts: Seq<u8>)
    requires
        pts.len() > 0,
    ensures
        words(spaced(pts)) == numerals(pts),
        byte_numbers(numerals(pts)) == pts,
        spaced(pts).len() > 0,
        !is_space(spaced(pts).last()),
        forall|i: int| 0 <= i < spaced(pts).len() ==> #[trigger] spaced(pts)[i] != '\n',
    decreases pts.len(),
{
    let last = pts.last() as nat;
    lemma_decimal_word(last);
    lemma_one_word(decimal(last));
    lemma_decimal(last);
    decimal_round_trip(last, 0xFF);
    assert(numerals(pts).last() == decimal(last));
    assert(numerals(pts).drop_last() =~= numerals(pts.drop_last()));
    assert forall|i: int| 0 <= i < decimal(last).len() implies #[trigger] decimal(last)[i] != '\n' by {
        assert(is_digit(decimal(last)[i]));
    }
    if pts.len() == 1 {
        assert(numerals(pts) =~= seq![decimal(last)]);
        assert(byte_numbers(numerals(pts).drop_last()) =~= Seq::<u8>::empty());
        assert(byte_numbers(numerals(pts)) =~= pts);
    } else {
        let init = pts.drop_last();
        lemma_spaced(init);
        lemma_words_split(spaced(init), decimal(last));
        assert(words(spaced(pts)) =~= numerals(pts));
        assert(byte_numbers(numerals(pts)) =~= pts);
        let s = spaced(pts);
        assert forall|i: int| 0 <= i < s.len() implies #[trigger] s[i] != '\n' by {
            if i < spaced(init).len() {
                assert(s[i] == spaced(init)[i]);
            } else if i > spaced(init).len() {
                assert(s[i] == decimal(last)[i - spaced(init).len() - 1]);
            }
        }
    }
}

// ---- lines ----

proof fn lemma_trim_prefix(s: Seq<char>)
    ensures
        trim_end(s).len() <= s.len(),
        trim_end(s) == s.take(trim_end(s).len() as int),
    decreases s.len(),
{
    if s.len() > 0 && is_space(s.last()) {
        lemma_trim_prefix(s.drop_last());
        assert(trim_end(s) =~= s.take(trim_end(s).len() as int));
    } else {
        assert(s.take(s.len() as int) =~= s);
    }
}

proof fn lemma_trim_cr(s: Seq<char>)
    requires
        s.len() > 0,
        !is_space(s.last()),
    ensures
        trim_end(s.push('\r')) == s,
{
    assert(s.push('\r').drop_last() =~= s);
    assert(trim_end(s) == s);
}

/// A line that opens no section and gives no address.
spec fn neutral(l: Seq<char>) -> bool {
    !starts_with(l, "c="@) && !starts_with(l, "m="@) && !starts_with(l, "m=audio "@)
}

proof fn lemma_neutral(l: Seq<char>)
    requires
        l.len() == 0 || (l[0] != 'c' && l[0] != 'm'),
    ensures
        neutral(trim_end(l)),
{
    reveal_strlit("c=");
    reveal_strlit("m=");
    reveal_strlit("m=audio ");
    lemma_trim_prefix(l);
    let t = trim_end(l);
    if t.len() > 0 {
        assert(t[0] == l[0]);
    }
    if starts_with(t, "c="@) {
        assert(t.take(2)[0] == t[0]);
    }
    if starts_with(t, "m="@) {
        assert(t.take(2)[0] == t[0]);
    }
    if starts_with(t, "m=audio "@) {
        assert(t.take(8)[0] == t[0]);
    }
}

spec fn all_neutral(ls: Seq<Seq<char>>) -> bool {
    forall|i: int| 0 <= i < ls.len() ==> neutral(trim_end(#[trigger] ls[i]))
}

proof fn lemma_neutral_cons(a: Seq<char>, b: Seq<char>)
    requires
        forall|i: int| 0 <= i < a.len() ==> #[trigger] a[i] != '\n',
        a.len() > 0,
        a[0] != 'c',
        a[0] != 'm',
        all_neutral(lines(b)),
    ensures
        all_neutral(lines(a.push('\n') + b)),
{
    lemma_lines_cons(a, b);
    lemma_neutral(a);
    let ls = lines(a.push('\n') + b);
    assert forall|i: int| 0 <= i < ls.len() implies neutral(trim_end(#[trigger] ls[i])) by {
        if i > 0 {
            assert(ls[i] == lines(b)[i - 1]);
        }
    }
}

proof fn lemma_rtpmap_neutral(pt: u8, b: Seq<char>)
    requires
        all_neutral(lines(b)),
    ensures
        all_neutral(lines(rtpmap(pt) + b)),
{
    if pt == 0 {
        reveal_strlit("a=rtpmap:0 PCMU/8000\r\n");
        let l = "a=rtpmap:0 PCMU/8000\r\n"@;
        assert(rtpmap(pt) + b =~= l.drop_last().push('\n') + b);
        lemma_neutral_cons(l.drop_last(), b);
    } else if pt == 8 {
        reveal_strlit("a=rtpmap:8 PCMA/8000\r\n");
        let l = "a=rtpmap:8 PCMA/8000\r\n"@;
        assert(rtpmap(pt) + b =~= l.drop_last().push('\n') + b);
        lemma_neutral_cons(l.drop_last(), b);
    } else if pt == 101 {
        reveal_strlit("a=rtpmap:101 telephone-event/8000\r\na=fmtp:101 0-16\r\n");
        let l = "a=rtpmap:101 telephone-event/8000\r\na=fmtp:101 0-16\r\n"@;
        let one = l.take(34);
        let two = l.subrange(35, l.len() - 1);
        lemma_neutral_cons(two, b);
        assert(rtpmap(pt) + b =~= one.push('\n') + (two.push('\n') + b));
        lemma_neutral_cons(one, two.push('\n') + b);
    } else {
        assert(rtpmap(pt) + b =~= b);
    }
}

proof fn lemma_rtpmaps_neutral(pts: Seq<u8>, b: Seq<char>)
    requires
        all_neutral(lines(b)),
    ensures
        all_neutral(lines(rtpmaps(pts) + b)),
    decreases pts.len(),
{
    if pts.len() == 0 {
        assert(rtpmaps(pts) + b =~= b);
    } else {
        lemma_rtpmap_neutral(pts.last(), b);
        lemma_rtpmaps_neutral(pts.drop_last(), rtpmap(pts.last()) + b);
        assert(rtpmaps(pts) + b =~= rtpmaps(pts.drop_last()) + (rtpmap(pts.last()) + b));
    }
}

/// The lines of `ls` without the whitespace at their ends.
spec fn trimmed_lines(ls: Seq<Seq<char>>) -> Seq<Seq<char>> {
    ls.map_values(|l: Seq<char>| trim_end(l))
}

proof fn lemma_neutral_tail(head: Seq<Seq<char>>, tail: Seq<Seq<char>>)
    requires
        all_neutral(tail),
    ensures
        in_audio(head + trimmed_lines(tail)) == in_audio(head),
        opened(head + trimmed_lines(tail)) == opened(head),
        connection(head + trimmed_lines(tail), true) == connection(head, true),
        connection(head + trimmed_lines(tail), false) == connection(head, false),
        audio_line(head + trimmed_lines(tail)) == audio_line(head),
    decreases tail.len(),
{
    let all = head + trimmed_lines(tail);
    if tail.len() == 0 {
        assert(all =~= head);
    } else {
        let init = tail.drop_last();
        assert forall|i: int| 0 <= i < init.len() implies neutral(trim_end(#[trigger] init[i])) by {
            assert(init[i] == tail[i]);
        }
        lemma_neutral_tail(head, init);
        assert(all.drop_last() =~= head + trimmed_lines(init));
        assert(all.last() == trim_end(tail[tail.len() - 1]));
        assert(neutral(trim_end(tail[tail.len() - 1])));
    }
}

// ---- the law ----

spec fn crlf_line(s: Seq<char>) -> Seq<char> {
    s.push('\r')
}

/// Whether `s` holds no line feed.
spec fn unbroken(s: Seq<char>) -> bool {
    forall|i: int| 0 <= i < s.len() ==> #[trigger] s[i] != '\n'
}

proof fn lemma_unbroken_add(a: Seq<char>, b: Seq<char>)
    requires
        unbroken(a),
        unbroken(b),
    ensures
        unbroken(a + b),
{
    let s = a + b;
    assert forall|i: int| 0 <= i < s.len() implies #[trigger] s[i] != '\n' by {
        if i < a.len() {
            assert(s[i] == a[i]);
        } else {
            assert(s[i] == b[i - a.len()]);
        }
    }
}

/// `line`, a carriage return and a line feed, and then `rest`.
spec fn then_line(line: Seq<char>, rest: Seq<char>) -> Seq<char> {
    crlf_line(line).push('\n') + rest
}

proof fn lemma_then_line(line: Seq<char>, rest: Seq<char>)
    requires
        unbroken(line),
    ensures
        lines(then_line(line, rest)) == seq![crlf_line(line)] + lines(rest),
{
    assert(unbroken(crlf_line(line)));
    lemma_lines_cons(crlf_line(line), rest);
}

proof fn lemma_regroup_three(
    a: Seq<char>,
    x: Seq<char>,
    b: Seq<char>,
    c: Seq<char>,
    rest: Seq<char>,
)
    ensures
        a + x + (seq!['\r', '\n'] + b + seq!['\r', '\n'] + c) + rest == then_line(
            a + x,
            then_line(b, c + rest),
        ),
{
    assert(a + x + (seq!['\r', '\n'] + b + seq!['\r', '\n'] + c) + rest =~= then_line(
        a + x,
        then_line(b, c + rest),
    ));
}

proof fn lemma_regroup_media(m: Seq<char>, n: Seq<char>, t: Seq<char>, l: Seq<char>, rest: Seq<char>)
    ensures
        m + (n + t + l + seq!['\r', '\n'] + rest) == then_line(m + n + t + l, rest),
{
    assert(m + (n + t + l + seq!['\r', '\n'] + rest) =~= then_line(m + n + t + l, rest));
}

/// The text of a description, line by line, with `rest` after the media line.
spec fn line_by_line(addr: Seq<char>, num: Seq<char>, list: Seq<char>, rest: Seq<char>) -> Seq<char> {
    let media = "m=audio "@ + num + " RTP/AVP "@ + list;
    let s3 = then_line("c=IN IP4 "@ + addr, then_line("t=0 0"@, then_line(media, rest)));
    then_line("v=0"@, then_line("o=brew-server 0 0 IN IP4 "@ + addr, then_line("s=brew"@, s3)))
}

proof fn lemma_assoc(a: Seq<char>, b: Seq<char>, c: Seq<char>)
    ensures
        a + b + c == a + (b + c),
{
    assert(a + b + c =~= a + (b + c));
}

/// Five parts after `p`, taken as one.
proof fn lemma_assoc_five(
    p: Seq<char>,
    a: Seq<char>,
    b: Seq<char>,
    c: Seq<char>,
    d: Seq<char>,
    e: Seq<char>,
)
    ensures
        p + a + b + c + d + e == p + (a + b + c + d + e),
{
    lemma_assoc(p, a, b);
    lemma_assoc(p, a + b, c);
    lemma_assoc(p, a + b + c, d);
    lemma_assoc(p, a + b + c + d, e);
}

/// The pieces that a description is written in are its lines.
proof fn lemma_regroup_pieces(
    v: Seq<char>,
    o: Seq<char>,
    s: Seq<char>,
    c: Seq<char>,
    t: Seq<char>,
    m: Seq<char>,
    avp: Seq<char>,
    addr: Seq<char>,
    num: Seq<char>,
    list: Seq<char>,
    rest: Seq<char>,
)
    ensures
        ({
            let crlf = seq!['\r', '\n'];
            let first = v + crlf + o;
            let second = crlf + s + crlf + c;
            let third = crlf + t + crlf + m;
            first + addr + second + addr + third + num + avp + list + crlf + rest == then_line(
                v,
                then_line(
                    o + addr,
                    then_line(
                        s,
                        then_line(
                            c + addr,
                            then_line(t, then_line(m + num + avp + list, rest)),
                        ),
                    ),
                ),
            )
        }),
{
    let crlf = seq!['\r', '\n'];
    let first = v + crlf + o;
    let second = crlf + s + crlf + c;
    let third = crlf + t + crlf + m;
    let tail = num + avp + list + crlf + rest;
    let after_third = addr + third + tail;
    let after_second = addr + second + after_third;
    lemma_regroup_media(m, num, avp, list, rest);
    lemma_regroup_three(c, addr, t, m, tail);
    lemma_regroup_three(o, addr, s, c, after_third);
    lemma_assoc_five(first + addr + second + addr + third, num, avp, list, crlf, rest);
    lemma_assoc(first + addr + second, addr, third);
    lemma_assoc(first + addr + second, addr + third, tail);
    lemma_assoc(first, addr, second);
    lemma_assoc(first, addr + second, after_third);
    lemma_assoc(v + crlf, o, after_second);
    lemma_assoc(o, addr, second);
    lemma_assoc(o, addr + second, after_third);
    lemma_assoc(c, addr, third);
    lemma_assoc(c, addr + third, tail);
    assert(v + crlf + (o + after_second) =~= then_line(v, o + after_second));
}

proof fn lemma_regroup(addr: Seq<char>, num: Seq<char>, list: Seq<char>, rest: Seq<char>)
    ensures
        "v=0\r\no=brew-server 0 0 IN IP4 "@ + addr + "\r\ns=brew\r\nc=IN IP4 "@ + addr
            + "\r\nt=0 0\r\nm=audio "@ + num + " RTP/AVP "@ + list + "\r\n"@ + rest == line_by_line(
            addr,
            num,
            list,
            rest,
        ),
{
    let crlf = seq!['\r', '\n'];
    let v = "v=0"@;
    let o = "o=brew-server 0 0 IN IP4 "@;
    let s = "s=brew"@;
    let c = "c=IN IP4 "@;
    let t = "t=0 0"@;
    let m = "m=audio "@;
    assert("v=0\r\no=brew-server 0 0 IN IP4 "@ == v + crlf + o) by {
        reveal_strlit("v=0\r\no=brew-server 0 0 IN IP4 ");
        reveal_strlit("v=0");
        reveal_strlit("o=brew-server 0 0 IN IP4 ");
        assert("v=0\r\no=brew-server 0 0 IN IP4 "@ =~= v + crlf + o);
    }
    assert("\r\ns=brew\r\nc=IN IP4 "@ == crlf + s + crlf + c) by {
        reveal_strlit("\r\ns=brew\r\nc=IN IP4 ");
        reveal_strlit("s=brew");
        reveal_strlit("c=IN IP4 ");
        assert("\r\ns=brew\r\nc=IN IP4 "@ =~= crlf + s + crlf + c);
    }
    assert("\r\nt=0 0\r\nm=audio "@ == crlf + t + crlf + m) by {
        reveal_strlit("\r\nt=0 0\r\nm=audio ");
        reveal_strlit("t=0 0");
        reveal_strlit("m=audio ");
        assert("\r\nt=0 0\r\nm=audio "@ =~= crlf + t + crlf + m);
    }
    assert("\r\n"@ == crlf) by {
        reveal_strlit("\r\n");
        assert("\r\n"@ =~= crlf);
    }
    lemma_regroup_pieces(v, o, s, c, t, m, " RTP/AVP "@, addr, num, list, rest);
}

proof fn lemma_head_lines(addr: Seq<char>, num: Seq<char>, list: Seq<char>, rest: Seq<char>)
    requires
        unbroken(addr),
        unbroken(num),
        unbroken(list),
    ensures
        lines(line_by_line(addr, num, list, rest)) == seq![
            crlf_line("v=0"@),
            crlf_line("o=brew-server 0 0 IN IP4 "@ + addr),
            crlf_line("s=brew"@),
            crlf_line("c=IN IP4 "@ + addr),
            crlf_line("t=0 0"@),
            crlf_line("m=audio "@ + num + " RTP/AVP "@ + list),
        ] + lines(rest),
{
    assert(unbroken("v=0"@) && unbroken("s=brew"@) && unbroken("t=0 0"@) && unbroken(
        "o=brew-server 0 0 IN IP4 "@,
    ) && unbroken("c=IN IP4 "@) && unbroken("m=audio "@) && unbroken(" RTP/AVP "@)) by {
        reveal_strlit("v=0");
        reveal_strlit("o=brew-server 0 0 IN IP4 ");
        reveal_strlit("s=brew");
        reveal_strlit("c=IN IP4 ");
        reveal_strlit("t=0 0");
        reveal_strlit("m=audio ");
        reveal_strlit(" RTP/AVP ");
    }
    let media = "m=audio "@ + num + " RTP/AVP "@ + list;
    lemma_unbroken_add("m=audio "@, num);
    lemma_unbroken_add("m=audio "@ + num, " RTP/AVP "@);
    lemma_unbroken_add("m=audio "@ + num + " RTP/AVP "@, list);
    lemma_unbroken_add("c=IN IP4 "@, addr);
    lemma_unbroken_add("o=brew-server 0 0 IN IP4 "@, addr);
    let s5 = then_line(media, rest);
    let s4 = then_line("t=0 0"@, s5);
    let s3 = then_line("c=IN IP4 "@ + addr, s4);
    let s2 = then_line("s=brew"@, s3);
    let s1 = then_line("o=brew-server 0 0 IN IP4 "@ + addr, s2);
    lemma_then_line(media, rest);
    lemma_then_line("t=0 0"@, s5);
    lemma_then_line("c=IN IP4 "@ + addr, s4);
    lemma_then_line("s=brew"@, s3);
    lemma_then_line("o=brew-server 0 0 IN IP4 "@ + addr, s2);
    lemma_then_line("v=0"@, s1);
    assert(lines(line_by_line(addr, num, list, rest)) =~= seq![
        crlf_line("v=0"@),
        crlf_line("o=brew-server 0 0 IN IP4 "@ + addr),
        crlf_line("s=brew"@),
        crlf_line("c=IN IP4 "@ + addr),
        crlf_line("t=0 0"@),
        crlf_line(media),
    ] + lines(rest));
}

/// A description of six lines of which the fourth gives the address and the sixth is the media line.
proof fn lemma_six_lines(
    v: Seq<char>,
    o: Seq<char>,
    s: Seq<char>,
    c: Seq<char>,
    t: Seq<char>,
    m: Seq<char>,
    addr: Seq<char>,
)
    requires
        neutral(v),
        neutral(o),
        neutral(s),
        neutral(t),
        starts_with(c, "c="@),
        !starts_with(c, "m="@),
        !starts_with(c, "m=audio "@),
        starts_with(m, "m=audio "@),
        !starts_with(m, "c="@),
        words(c.skip(2)).len() > 2,
        words(c.skip(2))[2] == addr,
        words(m.skip(8)).len() > 2,
    ensures
        connection(seq![v, o, s, c, t, m], false) == Some(addr),
        connection(seq![v, o, s, c, t, m], true) is None,
        audio_line(seq![v, o, s, c, t, m]) == Some(m.skip(8)),
{
    let head = seq![v, o, s, c, t, m];
    let h0 = Seq::<Seq<char>>::empty();
    let h1 = seq![v];
    let h2 = seq![v, o];
    let h3 = seq![v, o, s];
    let h4 = seq![v, o, s, c];
    let h5 = seq![v, o, s, c, t];
    assert(h1.drop_last() =~= h0);
    assert(h2.drop_last() =~= h1);
    assert(h3.drop_last() =~= h2);
    assert(h4.drop_last() =~= h3);
    assert(h5.drop_last() =~= h4);
    assert(head.drop_last() =~= h5);
    assert(!in_audio(h0));
    assert(!in_audio(h1));
    assert(!in_audio(h2));
    assert(!in_audio(h3));
    assert(!opened(h0));
    assert(!opened(h1));
    assert(!opened(h2));
    assert(!opened(h3));
    assert(connection(h0, true) is None);
    assert(connection(h1, true) is None);
    assert(connection(h2, true) is None);
    assert(connection(h3, true) is None);
    assert(connection(h4, true) is None);
    assert(connection(h5, true) is None);
    assert(connection(h4, false) == Some(addr));
    assert(connection(h5, false) == Some(addr));
    assert(audio_line(h1) is None);
    assert(audio_line(h2) is None);
    assert(audio_line(h3) is None);
    assert(audio_line(h4) is None);
    assert(audio_line(h5) is None);
}

proof fn lemma_connection_line(addr: Seq<char>)
    requires
        is_word(addr),
    ensures
        starts_with("c=IN IP4 "@ + addr, "c="@),
        !starts_with("c=IN IP4 "@ + addr, "m="@),
        !starts_with("c=IN IP4 "@ + addr, "m=audio "@),
        words(("c=IN IP4 "@ + addr).skip(2)) == seq!["IN"@, "IP4"@, addr],
        trim_end(crlf_line("c=IN IP4 "@ + addr)) == "c=IN IP4 "@ + addr,
{
    reveal_strlit("c=IN IP4 ");
    reveal_strlit("c=");
    reveal_strlit("m=");
    reveal_strlit("m=audio ");
    reveal_strlit("IN");
    reveal_strlit("IP4");
    let conn = "c=IN IP4 "@ + addr;
    assert(conn.take(2) =~= "c="@);
    assert(conn.take(2)[0] == 'c');
    if starts_with(conn, "m=audio "@) {
        assert(conn.take(8)[0] == 'c');
    }
    assert(conn.skip(2) =~= ("IN"@.push(' ') + "IP4"@).push(' ') + addr);
    lemma_words_split("IN"@.push(' ') + "IP4"@, addr);
    lemma_words_split("IN"@, "IP4"@);
    lemma_one_word("IN"@);
    lemma_one_word("IP4"@);
    lemma_one_word(addr);
    assert(seq!["IN"@] + seq!["IP4"@] + seq![addr] =~= seq!["IN"@, "IP4"@, addr]);
    assert(conn.last() == addr.last());
    lemma_trim_cr(conn);
}

proof fn lemma_media_line(num: Seq<char>, list: Seq<char>, nums: Seq<Seq<char>>)
    requires
        is_word(num),
        words(list) == nums,
        list.len() > 0,
        !is_space(list.last()),
    ensures
        starts_with("m=audio "@ + num + " RTP/AVP "@ + list, "m=audio "@),
        !starts_with("m=audio "@ + num + " RTP/AVP "@ + list, "c="@),
        words(("m=audio "@ + num + " RTP/AVP "@ + list).skip(8)) == seq![num, "RTP/AVP"@] + nums,
        trim_end(crlf_line("m=audio "@ + num + " RTP/AVP "@ + list)) == "m=audio "@ + num + " RTP/AVP "@
            + list,
{
    reveal_strlit("m=audio ");
    reveal_strlit("c=");
    reveal_strlit(" RTP/AVP ");
    reveal_strlit("RTP/AVP");
    let media = "m=audio "@ + num + " RTP/AVP "@ + list;
    assert(media.take(8) =~= "m=audio "@);
    if starts_with(media, "c="@) {
        assert(media.take(2)[0] == 'm');
    }
    assert(media.skip(8) =~= (num.push(' ') + "RTP/AVP"@).push(' ') + list);
    lemma_words_split(num.push(' ') + "RTP/AVP"@, list);
    lemma_words_split(num, "RTP/AVP"@);
    lemma_one_word(num);
    lemma_one_word("RTP/AVP"@);
    assert(seq![num] + seq!["RTP/AVP"@] + nums =~= seq![num, "RTP/AVP"@] + nums);
    assert(media.last() == list.last());
    lemma_trim_cr(media);
}

proof fn lemma_other_lines(addr: Seq<char>)
    requires
        is_word(addr),
    ensures
        neutral("v=0"@),
        trim_end(crlf_line("v=0"@)) == "v=0"@,
        neutral("s=brew"@),
        trim_end(crlf_line("s=brew"@)) == "s=brew"@,
        neutral("t=0 0"@),
        trim_end(crlf_line("t=0 0"@)) == "t=0 0"@,
        neutral("o=brew-server 0 0 IN IP4 "@ + addr),
        trim_end(crlf_line("o=brew-server 0 0 IN IP4 "@ + addr)) == "o=brew-server 0 0 IN IP4 "@ + addr,
{
    reveal_strlit("v=0");
    reveal_strlit("s=brew");
    reveal_strlit("t=0 0");
    reveal_strlit("o=brew-server 0 0 IN IP4 ");
    let origin = "o=brew-server 0 0 IN IP4 "@ + addr;
    assert(origin.last() == addr.last());
    lemma_trim_cr("v=0"@);
    lemma_trim_cr("s=brew"@);
    lemma_trim_cr("t=0 0"@);
    lemma_trim_cr(origin);
    lemma_neutral(crlf_line("v=0"@));
    lemma_neutral(crlf_line("s=brew"@));
    lemma_neutral(crlf_line("t=0 0"@));
    lemma_neutral(crlf_line(origin));
}

/// The attribute lines say nothing of the address, the port or the payload types.
proof fn lemma_attributes_neutral(pts: Seq<u8>)
    ensures
        all_neutral(lines(rtpmaps(pts) + "a=sendrecv\r\n"@)),
{
    reveal_strlit("a=sendrecv\r\n");
    let last = "a=sendrecv\r\n"@;
    let none = Seq::<char>::empty();
    lemma_span(none, crate::text::other_than('\n'));
    assert(lines(none) =~= seq![none]);
    lemma_neutral(none);
    assert(all_neutral(lines(none)));
    assert(last =~= last.drop_last().push('\n') + none);
    lemma_neutral_cons(last.drop_last(), none);
    lemma_rtpmaps_neutral(pts, last);
}

proof fn lemma_description(addr: Seq<char>, port: u16, pts: Seq<u8>)
    requires
        is_word(addr),
    ensures
        sdp_of(sdp_text(addr, port, pts)) == Some(
            SdpView { connection_addr: addr, audio_port: port, payload_types: listed(pts) },
        ),
{
    let num = decimal(port as nat);
    let list = spaced(listed(pts));
    let nums = numerals(listed(pts));
    let v = "v=0"@;
    let o = "o=brew-server 0 0 IN IP4 "@ + addr;
    let s = "s=brew"@;
    let c = "c=IN IP4 "@ + addr;
    let t = "t=0 0"@;
    let m = "m=audio "@ + num + " RTP/AVP "@ + list;
    let rest = rtpmaps(pts) + "a=sendrecv\r\n"@;
    let text = sdp_text(addr, port, pts);
    lemma_spaced(listed(pts));
    lemma_decimal_word(port as nat);
    lemma_attributes_neutral(pts);
    assert forall|i: int| 0 <= i < addr.len() implies #[trigger] addr[i] != '\n' by {
        assert(!is_space(addr[i]));
    }
    assert forall|i: int| 0 <= i < num.len() implies #[trigger] num[i] != '\n' by {
        assert(!is_space(num[i]));
    }
    lemma_head_lines(addr, num, list, rest);
    lemma_regroup(addr, num, list, rest);
    assert(text == line_by_line(addr, num, list, rest)) by {
        let init = "v=0\r\no=brew-server 0 0 IN IP4 "@ + addr + "\r\ns=brew\r\nc=IN IP4 "@ + addr
            + "\r\nt=0 0\r\nm=audio "@ + num + " RTP/AVP "@ + list + "\r\n"@;
        assert(init + rtpmaps(pts) + "a=sendrecv\r\n"@ =~= init + rest);
    }
    lemma_connection_line(addr);
    lemma_media_line(num, list, nums);
    lemma_other_lines(addr);
    let head = seq![v, o, s, c, t, m];
    assert(sdp_lines(text) =~= head + trimmed_lines(lines(rest)));
    lemma_neutral_tail(head, lines(rest));
    let ws = words(m.skip(8));
    assert(ws.skip(2) =~= nums);
    lemma_six_lines(v, o, s, c, t, m, addr);
    decimal_round_trip(port as nat, 0xFFFF);
}

/// Reading back a written description gives its address, its port and its payload types (PCMU where
/// it was written for none), for every address that is a word.
pub proof fn sdp_round_trip(addr: Seq<char>, port: u16, pts: Seq<u8>)
    requires
        is_word(addr),
    ensures
        sdp_of(body_text(encode_utf8(sdp_text(addr, port, pts)))) == Some(
            SdpView { connection_addr: addr, audio_port: port, payload_types: listed(pts) },
        ),
{
    let text = sdp_text(addr, port, pts);
    encode_utf8_valid_utf8(text);
    encode_utf8_decode_utf8(text);
    lemma_description(addr, port, pts);
}

} // verus!
