//! What the functions on text find, told by how the text is put together.
use crate::text::{
    all_digits, before_first, decimal, hex, is_digit, is_hex, is_space, lemma_decimal,
    lemma_lines_cons, lemma_span_is, lines, not_space, other_than, starts_with, trim, trim_end,
    trim_start, unsigned_value, words,
};
use vstd::prelude::*;

verus! {

/// Whether a text holds nothing but whitespace.
pub open spec fn blank_text(s: Seq<char>) -> bool {
    forall|i: int| 0 <= i < s.len() ==> is_space(#[trigger] s[i])
}

/// Whether a text holds no whitespace and is not empty.
pub open spec fn solid(s: Seq<char>) -> bool {
    s.len() > 0 && forall|i: int| 0 <= i < s.len() ==> !is_space(#[trigger] s[i])
}

/// Among the ASCII characters the blank, the tab, the line feed, the vertical tab, the form feed and
/// the carriage return are whitespace, and no other; beyond them only separators are.
pub proof fn whitespace_is_blank(c: char)
    ensures
        ({
            let u = c as int;
            &&& u < 128 ==> (is_space(c) <==> c == ' ' || 9 <= u <= 13)
            &&& u >= 128 && is_space(c) ==> u == 133 || u == 160 || u == 5760 || 8192 <= u <= 8202
                || u == 8232 || u == 8233 || u == 8239 || u == 8287 || u == 12288
            &&& u == 133 || u == 160 || u == 5760 || 8192 <= u <= 8202 || u == 8232 || u == 8233
                || u == 8239 || u == 8287 || u == 12288 ==> is_space(c)
        }),
{
}

/// A text starts with another exactly where it is that other with something behind it.
pub proof fn start_is_a_prefix(s: Seq<char>, p: Seq<char>, rest: Seq<char>)
    ensures
        starts_with(p + rest, p),
        starts_with(s, p) ==> s == p + s.skip(p.len() as int),
{
    assert((p + rest).take(p.len() as int) =~= p);
    if starts_with(s, p) {
        assert(s =~= p + s.skip(p.len() as int));
    }
}

/// What precedes the first separator is what stands before it, whatever follows; a text without one
/// is taken whole.
pub proof fn part_before_the_separator(a: Seq<char>, c: char, b: Seq<char>)
    requires
        !a.contains(c),
    ensures
        before_first(a, c) == a,
        before_first(a + seq![c] + b, c) == a,
{
    let s = a + seq![c] + b;
    let n = a.len() as int;
    assert forall|i: int| 0 <= i < n implies other_than(c)(#[trigger] a[i]) by {
        assert(a.contains(a[i]));
    }
    lemma_span_is(a, other_than(c), n);
    assert forall|i: int| 0 <= i < n implies other_than(c)(#[trigger] s[i]) by {
        assert(s[i] == a[i]);
    }
    assert(s[n] == c);
    lemma_span_is(s, other_than(c), n);
    assert(a.take(n) =~= a);
    assert(s.take(n) =~= a);
}

/// Trimming takes all whitespace off the end, and nothing else.
pub proof fn end_is_trimmed(s: Seq<char>, w: Seq<char>)
    requires
        s.len() > 0 ==> !is_space(s[s.len() - 1]),
        blank_text(w),
    ensures
        trim_end(s + w) == s,
    decreases w.len(),
{
    if w.len() == 0 {
        assert(s + w =~= s);
    } else {
        assert((s + w).last() == w[w.len() - 1]);
        assert((s + w).drop_last() =~= s + w.drop_last());
        assert forall|i: int| 0 <= i < w.drop_last().len() implies is_space(
            #[trigger] w.drop_last()[i],
        ) by {
            assert(w.drop_last()[i] == w[i]);
        }
        end_is_trimmed(s, w.drop_last());
    }
}

/// Trimming takes all whitespace off the start, and nothing else.
pub proof fn start_is_trimmed(w: Seq<char>, s: Seq<char>)
    requires
        s.len() > 0 ==> !is_space(s[0]),
        blank_text(w),
    ensures
        trim_start(w + s) == s,
    decreases w.len(),
{
    if w.len() == 0 {
        assert(w + s =~= s);
    } else {
        assert((w + s)[0] == w[0]);
        assert((w + s).skip(1) =~= w.skip(1) + s);
        assert forall|i: int| 0 <= i < w.skip(1).len() implies is_space(#[trigger] w.skip(1)[i]) by {
            assert(w.skip(1)[i] == w[i + 1]);
        }
        start_is_trimmed(w.skip(1), s);
    }
}

/// Trimming takes the whitespace off both ends.
pub proof fn both_ends_are_trimmed(w: Seq<char>, s: Seq<char>, v: Seq<char>)
    requires
        s.len() > 0,
        !is_space(s[0]),
        !is_space(s[s.len() - 1]),
        blank_text(w),
        blank_text(v),
    ensures
        trim(w + s + v) == s,
{
    assert(w + s + v =~= w + (s + v));
    start_is_trimmed(w, s + v);
    end_is_trimmed(s, v);
}

/// Words are what stands between whitespace: whitespace before a word is passed over, and a word ends
/// at the next whitespace or with the text.
pub proof fn words_stand_between_whitespace(w: Seq<char>, c: char, rest: Seq<char>)
    requires
        solid(w),
        is_space(c),
    ensures
        words(Seq::<char>::empty()).len() == 0,
        words(seq![c] + rest) == words(rest),
        words(w) == seq![w],
        words(w + seq![c] + rest) == seq![w] + words(rest),
{
    let n = w.len() as int;
    assert((seq![c] + rest).skip(1) =~= rest);
    assert(!is_space(w[0]));
    lemma_span_is(w, not_space(), n);
    assert(w.take(n) =~= w);
    assert(w.skip(n) =~= Seq::<char>::empty());
    assert(words(w.skip(n)) =~= Seq::<Seq<char>>::empty());
    assert(words(w) =~= seq![w]);
    let s = w + seq![c] + rest;
    assert forall|i: int| 0 <= i < n implies not_space()(#[trigger] s[i]) by {
        assert(s[i] == w[i]);
    }
    assert(s[n] == c);
    lemma_span_is(s, not_space(), n);
    assert(s[0] == w[0]);
    assert(s.take(n) =~= w);
    assert(s.skip(n) =~= seq![c] + rest);
}

/// Lines are what stands between line feeds; a text without one is a line.
pub proof fn lines_stand_between_line_feeds(a: Seq<char>, b: Seq<char>)
    requires
        !a.contains('\n'),
    ensures
        lines(a) == seq![a],
        lines(a + seq!['\n'] + b) == seq![a] + lines(b),
{
    assert forall|i: int| 0 <= i < a.len() implies #[trigger] a[i] != '\n' by {
        assert(a.contains(a[i]));
    }
    lemma_span_is(a, other_than('\n'), a.len() as int);
    lemma_lines_cons(a, b);
    assert(a + seq!['\n'] + b =~= a.push('\n') + b);
}

/// The numeral of a number has no sign and no leading zero, and is read back as the number, with or
/// without a plus sign, where it is not over the limit.
pub proof fn numeral_is_read_back(n: nat, max: nat)
    ensures
        ({
            let s = decimal(n);
            let want = if n <= max {
                Some(n)
            } else {
                None
            };
            &&& unsigned_value(s, max) == want
            &&& unsigned_value(seq!['+'] + s, max) == want
            &&& s.len() > 0 && (n > 0 ==> s[0] != '0')
            &&& forall|i: int| 0 <= i < s.len() ==> '0' <= #[trigger] s[i] <= '9'
        }),
{
    lemma_decimal(n);
    lemma_no_leading_zero(n);
    let s = decimal(n);
    assert(is_digit(s[0]));
    assert((seq!['+'] + s).skip(1) =~= s);
    assert forall|i: int| 0 <= i < s.len() implies '0' <= #[trigger] s[i] <= '9' by {
        assert(is_digit(s[i]));
    }
}

proof fn lemma_no_leading_zero(n: nat)
    ensures
        n > 0 ==> decimal(n).len() > 0 && decimal(n)[0] != '0',
    decreases n,
{
    if n >= 10 {
        lemma_no_leading_zero(n / 10);
        lemma_decimal(n / 10);
        assert(decimal(n)[0] == decimal(n / 10)[0]);
    }
}

/// A numeral with one more digit is ten times as much and that digit; nothing but digits, after one
/// plus sign at most, is a numeral, and nothing is none.
pub proof fn numerals_are_digits(s: Seq<char>, c: char, max: nat)
    ensures
        unsigned_value(Seq::<char>::empty(), max) is None,
        unsigned_value(seq!['+'], max) is None,
        ({
            let before = unsigned_value(s, max);
            let after = unsigned_value(s.push(c), max);
            &&& before is Some && !('0' <= c <= '9') ==> after is None
            &&& before is Some && '0' <= c <= '9' ==> {
                let n = before->0 * 10 + (c as u32 - '0' as u32);
                &&& n <= max ==> after == Some(n as nat)
                &&& n > max ==> after is None
            }
        }),
{
    let before = unsigned_value(s, max);
    assert(seq!['+'].skip(1) =~= Seq::<char>::empty());
    if before is Some {
        let t = crate::text::unsigned_part(s);
        let u = crate::text::unsigned_part(s.push(c));
        assert(s.push(c)[0] == s[0]);
        assert(u =~= t.push(c)) by {
            if s[0] == '+' {
                assert(s.push(c).skip(1) =~= s.skip(1).push(c));
            }
        }
        assert(u.drop_last() =~= t);
        assert(u.last() == c);
        if '0' <= c <= '9' {
            assert(all_digits(u)) by {
                assert forall|i: int| 0 <= i < u.len() implies is_digit(#[trigger] u[i]) by {
                    if i < t.len() {
                        assert(u[i] == t[i]);
                        assert(is_digit(t[i]));
                    }
                }
            }
        } else {
            assert(!is_digit(u[u.len() - 1]));
        }
    }
}

/// A hexadecimal numeral has the width that is asked for, in lower-case digits, and its last digit is
/// that of the number, which the rest holds a sixteenth of.
pub proof fn hex_numeral_has_its_width(n: nat, width: nat)
    ensures
        hex(n, width).len() == width,
        forall|i: int| 0 <= i < width ==> is_hex(#[trigger] hex(n, width)[i]),
        width > 0 ==> {
            let d = hex(n, width)[width - 1];
            &&& n % 16 < 10 ==> d as u32 == '0' as u32 + n % 16
            &&& n % 16 >= 10 ==> d as u32 == 'a' as u32 + (n % 16 - 10)
            &&& hex(n, width).drop_last() == hex(n / 16, (width - 1) as nat)
        },
    decreases width,
{
    if width > 0 {
        hex_numeral_has_its_width(n / 16, (width - 1) as nat);
        let rest = hex(n / 16, (width - 1) as nat);
        let s = hex(n, width);
        assert(s.drop_last() =~= rest);
        assert forall|i: int| 0 <= i < width implies is_hex(#[trigger] s[i]) by {
            if i < width - 1 {
                assert(s[i] == rest[i]);
            }
        }
    }
}

} // verus!
