//! Text, seen as sequences of characters.

use vstd::prelude::*;
use vstd::utf8::{
    decode_utf8, encode_utf8, encode_utf8_decode_utf8, encode_utf8_valid_utf8, is_ascii_chars,
    is_ascii_chars_encode_utf8, valid_utf8,
};

verus! {

/// `core::str::from_utf8`: bytes are text exactly where they are well-formed
/// UTF-8, and the text is the one that they encode.
#[verifier::external_body]
pub(crate) fn text_of(b: &[u8]) -> (r: Option<&str>)
    ensures
        r.is_some() == valid_utf8(b@),
        r matches Some(s) ==> s@ == decode_utf8(b@) && encode_utf8(s@) == b@,
{
    core::str::from_utf8(b).ok()
}

/// `String::push`: puts the character at the end.
pub assume_specification[ String::push ](s: &mut String, c: char)
    ensures
        final(s)@ == old(s)@.push(c),
;

/// The text of bytes that need not be well-formed, with a mark for each run
/// that is not.
pub uninterp spec fn lossy_text(b: Seq<u8>) -> Seq<char>;

/// `String::from_utf8_lossy`: depends on the bytes alone, and on well-formed
/// UTF-8 is the text that they encode. What stands for a malformed run is left
/// to the name.
#[verifier::external_body]
pub(crate) fn lossy(b: &[u8]) -> (r: String)
    ensures
        r@ == lossy_text(b@),
        valid_utf8(b@) ==> r@ == decode_utf8(b@),
{
    String::from_utf8_lossy(b).into_owned()
}

/// The text of bytes, whatever they are: what they encode where they are
/// well-formed, and otherwise what stands for them.
pub open spec fn readable(b: Seq<u8>) -> Seq<char> {
    if valid_utf8(b) {
        decode_utf8(b)
    } else {
        lossy_text(b)
    }
}

/// Every byte is one character of ASCII.
pub open spec fn is_ascii(b: Seq<u8>) -> bool {
    forall|i: int| 0 <= i < b.len() ==> #[trigger] b[i] < 128
}

/// The characters of ASCII bytes, one for each.
pub open spec fn ascii(b: Seq<u8>) -> Seq<char> {
    Seq::new(b.len(), |i: int| b[i] as char)
}

/// ASCII bytes are read as the characters that they are.
pub proof fn law_ascii_is_read_as_it_stands(b: Seq<u8>)
    requires
        is_ascii(b),
    ensures
        valid_utf8(b),
        readable(b) == ascii(b),
{
    let t = ascii(b);
    assert(is_ascii_chars(t)) by {
        assert forall|i: int| 0 <= i < t.len() implies '\0' <= #[trigger] t[i] <= '\u{7f}' by {
            assert(b[i] < 128);
        }
    }
    is_ascii_chars_encode_utf8(t);
    assert forall|i: int| 0 <= i < b.len() implies encode_utf8(t)[i] == b[i] by {
        assert(b[i] < 128);
        assert(t[i] as u8 == b[i]);
    }
    assert(encode_utf8(t) =~= b);
    encode_utf8_valid_utf8(t);
    encode_utf8_decode_utf8(t);
}

/// The text in quotes, with its control characters escaped.
pub uninterp spec fn debug_text(s: Seq<char>) -> Seq<char>;

/// The `Debug` form of a `str`, which depends on the text alone.
#[verifier::external_body]
pub(crate) fn quoted(s: &str) -> (r: String)
    ensures
        r@ == debug_text(s@),
{
    format!("{:?}", s)
}

/// The characters of a text.
pub fn chars_of(s: &str) -> (r: Vec<char>)
    ensures
        r@ == s@,
{
    let mut v: Vec<char> = Vec::new();
    for c in it: s.chars()
        invariant
            v@ == it.seq().take(it.index()),
            it.seq() == s@,
    {
        v.push(c);
        assert(v@ =~= it.seq().take(it.index() + 1));
    }
    assert(v@ =~= s@);
    v
}

/// The text of some characters.
pub fn text_from(v: &[char]) -> (r: String)
    ensures
        r@ == v@,
{
    let mut s = String::new();
    let mut i: usize = 0;
    while i < v.len()
        invariant
            i <= v@.len(),
            s@ == v@.take(i as int),
        decreases v.len() - i,
    {
        s.push(v[i]);
        i = i + 1;
        assert(s@ =~= v@.take(i as int));
    }
    assert(s@ =~= v@);
    s
}

/// Whether two texts are the same.
pub fn same_text(a: &str, b: &str) -> (r: bool)
    ensures
        r == (a@ == b@),
{
    String::from_str(a) == String::from_str(b)
}

/// The character of a decimal or hexadecimal digit.
pub open spec fn digit(d: int) -> char {
    if d < 10 {
        ((48 + d) as u8) as char
    } else {
        ((87 + d) as u8) as char
    }
}

/// A number in decimal.
pub open spec fn decimal(n: int) -> Seq<char>
    decreases n,
{
    if n < 10 {
        seq![digit(n)]
    } else {
        decimal(n / 10).push(digit(n % 10))
    }
}

/// A byte in hexadecimal, two lower-case digits.
pub open spec fn hex_byte(b: u8) -> Seq<char> {
    seq![digit(b as int / 16), digit(b as int % 16)]
}

/// The character of a digit below sixteen.
pub fn digit_char(d: u8) -> (r: char)
    requires
        d < 16,
    ensures
        r == digit(d as int),
{
    if d < 10 {
        (48 + d) as char
    } else {
        (87 + d) as char
    }
}

/// Write a number in decimal at the end of `out`.
pub fn push_decimal(out: &mut String, n: u64)
    ensures
        final(out)@ == old(out)@ + decimal(n as int),
    decreases n,
{
    let ghost before = out@;
    if n >= 10 {
        push_decimal(out, n / 10);
    }
    out.push(digit_char((n % 10) as u8));
    assert(out@ =~= before + decimal(n as int));
}

/// Write a byte in hexadecimal at the end of `out`.
pub fn push_hex_byte(out: &mut String, b: u8)
    ensures
        final(out)@ == old(out)@ + hex_byte(b),
{
    let ghost before = out@;
    out.push(digit_char(b / 16));
    out.push(digit_char(b % 16));
    assert(out@ =~= before + hex_byte(b));
}

/// The bytes of `s` before the first NUL, all of them where there is none.
pub open spec fn until_nul(s: Seq<u8>) -> Seq<u8>
    decreases s.len(),
{
    if s.len() == 0 || s[0] == 0 {
        Seq::empty()
    } else {
        seq![s[0]] + until_nul(s.skip(1))
    }
}

/// What a NUL-padded field says: empty where it is not text.
pub open spec fn padded_text(s: Seq<u8>) -> Seq<char> {
    if valid_utf8(until_nul(s)) {
        decode_utf8(until_nul(s))
    } else {
        Seq::empty()
    }
}

/// `b` cut or padded with NULs to `n` bytes.
pub open spec fn padded(b: Seq<u8>, n: int) -> Seq<u8> {
    Seq::new(
        n as nat,
        |i: int|
            if i < b.len() {
                b[i]
            } else {
                0u8
            },
    )
}

/// A run without NULs is kept whole, and the NUL after it ends it.
pub proof fn lemma_until_nul(s: Seq<u8>, n: int)
    requires
        0 <= n <= s.len(),
        forall|i: int| 0 <= i < n ==> s[i] != 0,
        n < s.len() ==> s[n] == 0,
    ensures
        until_nul(s) == s.take(n),
    decreases n,
{
    if n == 0 {
        assert(s.take(0) =~= Seq::empty());
    } else {
        assert forall|i: int| 0 <= i < n - 1 implies s.skip(1)[i] != 0 by {
            assert(s.skip(1)[i] == s[i + 1]);
        }
        lemma_until_nul(s.skip(1), n - 1);
        assert(s.take(n) =~= seq![s[0]] + s.skip(1).take(n - 1));
    }
}

/// What stands before the first NUL is a prefix without one.
pub proof fn lemma_until_nul_shape(s: Seq<u8>)
    ensures
        until_nul(s).len() <= s.len(),
        until_nul(s) == s.take(until_nul(s).len() as int),
        forall|i: int| 0 <= i < until_nul(s).len() ==> until_nul(s)[i] != 0,
    decreases s.len(),
{
    if s.len() > 0 && s[0] != 0 {
        lemma_until_nul_shape(s.skip(1));
        let rest = until_nul(s.skip(1));
        assert(until_nul(s) =~= s.take(until_nul(s).len() as int));
    } else {
        assert(until_nul(s) =~= s.take(0));
    }
}

/// Padding and reading back gives the same text, where it fits and holds no NUL.
pub proof fn lemma_padded_text(t: Seq<char>, n: int)
    requires
        encode_utf8(t).len() <= n,
        forall|i: int| 0 <= i < encode_utf8(t).len() ==> encode_utf8(t)[i] != 0,
    ensures
        padded_text(padded(encode_utf8(t), n)) == t,
{
    let b = encode_utf8(t);
    let p = padded(b, n);
    lemma_until_nul(p, b.len() as int);
    assert(p.take(b.len() as int) =~= b);
    vstd::utf8::encode_utf8_valid_utf8(t);
    vstd::utf8::encode_utf8_decode_utf8(t);
}

/// Read a NUL-padded field.
pub fn read_padded(b: &[u8]) -> (r: &str)
    ensures
        r@ == padded_text(b@),
{
    let n: usize = b.len();
    let mut end: usize = 0;
    while end < n && b[end] != 0
        invariant
            end <= n == b@.len(),
            forall|i: int| 0 <= i < end ==> b@[i] != 0,
        decreases n - end,
    {
        end = end + 1;
    }
    proof {
        lemma_until_nul(b@, end as int);
        reveal_strlit("");
        assert(b@.subrange(0, end as int) =~= b@.take(end as int));
    }
    match text_of(vstd::slice::slice_subrange(b, 0, end)) {
        Some(s) => s,
        None => {
            let s = "";
            assert(s@ =~= Seq::empty());
            s
        },
    }
}

/// `p` stands in `t` at `i`.
pub open spec fn stands_at(t: Seq<char>, p: Seq<char>, i: int) -> bool {
    0 <= i <= t.len() - p.len() && t.subrange(i, i + p.len()) == p
}

/// `p` stands somewhere in `t`.
pub open spec fn has(t: Seq<char>, p: Seq<char>) -> bool {
    exists|i: int| stands_at(t, p, i)
}

/// Whether `p` stands in `t` at `at`.
pub fn is_at(t: &[char], p: &[char], at: usize) -> (r: bool)
    requires
        at <= t@.len(),
    ensures
        r == stands_at(t@, p@, at as int),
{
    let total: usize = t.len();
    if p.len() > total - at {
        return false;
    }
    let mut i: usize = 0;
    while i < p.len()
        invariant
            i <= p@.len(),
            at + p@.len() <= total == t@.len(),
            forall|k: int| 0 <= k < i ==> t@[at + k] == p@[k],
        decreases p.len() - i,
    {
        if t[at + i] != p[i] {
            assert(t@.subrange(at as int, at + p@.len())[i as int] != p@[i as int]);
            return false;
        }
        i = i + 1;
    }
    assert(t@.subrange(at as int, at + p@.len()) =~= p@);
    true
}

/// Whether one text stands somewhere in another.
pub fn contains(text: &str, part: &str) -> (r: bool)
    ensures
        r == has(text@, part@),
{
    let t: Vec<char> = chars_of(text);
    let p: Vec<char> = chars_of(part);
    let mut i: usize = 0;
    while i < t.len()
        invariant
            i <= t@.len(),
            t@ == text@,
            p@ == part@,
            forall|k: int| 0 <= k < i ==> !stands_at(text@, part@, k),
        decreases t.len() - i,
    {
        if is_at(t.as_slice(), p.as_slice(), i) {
            return true;
        }
        i = i + 1;
    }
    let r: bool = is_at(t.as_slice(), p.as_slice(), i);
    assert(r == has(text@, part@)) by {
        if has(text@, part@) {
            let k = choose|k: int| stands_at(text@, part@, k);
            assert(k == i);
        }
    }
    r
}

/// A Unicode white-space character.
pub open spec fn is_blank(c: char) -> bool {
    ||| '\u{9}' <= c <= '\u{d}'
    ||| c == ' '
    ||| c == '\u{85}'
    ||| c == '\u{a0}'
    ||| c == '\u{1680}'
    ||| '\u{2000}' <= c <= '\u{200a}'
    ||| c == '\u{2028}'
    ||| c == '\u{2029}'
    ||| c == '\u{202f}'
    ||| c == '\u{205f}'
    ||| c == '\u{3000}'
}

/// A text without the white space at its start.
pub open spec fn trim_start(t: Seq<char>) -> Seq<char>
    decreases t.len(),
{
    if t.len() > 0 && is_blank(t[0]) {
        trim_start(t.skip(1))
    } else {
        t
    }
}

/// A text without the white space at its end.
pub open spec fn trim_end(t: Seq<char>) -> Seq<char>
    decreases t.len(),
{
    if t.len() > 0 && is_blank(t.last()) {
        trim_end(t.drop_last())
    } else {
        t
    }
}

/// A text without the white space around it.
pub open spec fn trimmed(t: Seq<char>) -> Seq<char> {
    trim_end(trim_start(t))
}

fn blank(c: char) -> (r: bool)
    ensures
        r == is_blank(c),
{
    ('\u{9}' <= c && c <= '\u{d}') || c == ' ' || c == '\u{85}' || c == '\u{a0}' || c
        == '\u{1680}' || ('\u{2000}' <= c && c <= '\u{200a}') || c == '\u{2028}' || c
        == '\u{2029}' || c == '\u{202f}' || c == '\u{205f}' || c == '\u{3000}'
}

/// Take the white space off both ends.
pub fn trim(t: &[char]) -> (r: &[char])
    ensures
        r@ == trimmed(t@),
{
    let n: usize = t.len();
    let mut from: usize = 0;
    assert(t@.skip(0) =~= t@);
    while from < n && blank(t[from])
        invariant
            from <= n == t@.len(),
            trim_start(t@) == trim_start(t@.skip(from as int)),
        decreases n - from,
    {
        assert(t@.skip(from as int).skip(1) =~= t@.skip(from + 1));
        from = from + 1;
    }
    assert(trim_start(t@) == t@.skip(from as int));
    let mut to: usize = n;
    assert(t@.subrange(from as int, n as int) =~= t@.skip(from as int));
    while to > from && blank(t[to - 1])
        invariant
            from <= to <= n == t@.len(),
            trim_end(t@.skip(from as int)) == trim_end(t@.subrange(from as int, to as int)),
        decreases to - from,
    {
        assert(t@.subrange(from as int, to as int).drop_last() =~= t@.subrange(
            from as int,
            to - 1,
        ));
        to = to - 1;
    }
    let r: &[char] = vstd::slice::slice_subrange(t, from, to);
    assert(trim_end(r@) == r@) by {
        if r@.len() > 0 {
            assert(r@.last() == t@[to - 1]);
        }
    }
    r
}

/// Bytes in hexadecimal.
pub open spec fn hex_text(b: Seq<u8>) -> Seq<char>
    decreases b.len(),
{
    if b.len() == 0 {
        Seq::empty()
    } else {
        hex_text(b.drop_last()) + hex_byte(b.last())
    }
}

/// Write bytes in hexadecimal, two lower-case digits each.
pub fn hex(bytes: &[u8]) -> (r: String)
    ensures
        r@ == hex_text(bytes@),
{
    let mut s = String::new();
    let n: usize = bytes.len();
    let mut i: usize = 0;
    assert(bytes@.take(0) =~= Seq::empty());
    while i < n
        invariant
            i <= n == bytes@.len(),
            s@ == hex_text(bytes@.take(i as int)),
        decreases n - i,
    {
        push_hex_byte(&mut s, bytes[i]);
        assert(bytes@.take(i + 1).drop_last() =~= bytes@.take(i as int));
        i = i + 1;
    }
    assert(bytes@.take(n as int) =~= bytes@);
    s
}

/// A whole number in decimal, with a minus sign where it is negative.
pub open spec fn signed(n: int) -> Seq<char> {
    if n < 0 {
        seq!['-'] + decimal(-n)
    } else {
        decimal(n)
    }
}

/// Write a whole number in decimal at the end of `out`.
pub fn push_signed(out: &mut String, n: i64)
    requires
        n > i64::MIN,
    ensures
        final(out)@ == old(out)@ + signed(n as int),
{
    let ghost before = out@;
    if n < 0 {
        out.push('-');
        push_decimal(out, (-n) as u64);
        assert(out@ =~= before + signed(n as int));
    } else {
        push_decimal(out, n as u64);
    }
}

/// A text with blanks behind it, up to `width` characters.
pub open spec fn padded_right(t: Seq<char>, width: int) -> Seq<char> {
    if t.len() < width {
        t + Seq::new((width - t.len()) as nat, |i: int| ' ')
    } else {
        t
    }
}

/// Write a text at the end of `out`, with blanks behind it up to `width`
/// characters.
pub fn push_padded(out: &mut String, t: &str, width: usize)
    ensures
        final(out)@ == old(out)@ + padded_right(t@, width as int),
{
    let ghost before = out@;
    out.append(t);
    let n: usize = chars_of(t).len();
    let mut i: usize = n;
    assert(out@ =~= before + t@ + Seq::new(0, |i: int| ' '));
    while i < width
        invariant
            n == t@.len(),
            n <= i,
            i <= width || i == n,
            out@ == before + t@ + Seq::new((i - n) as nat, |i: int| ' '),
        decreases width - i,
    {
        out.push(' ');
        i = i + 1;
        assert(out@ =~= before + t@ + Seq::new((i - n) as nat, |i: int| ' '));
    }
    assert(out@ =~= before + padded_right(t@, width as int));
}

/// `t` from `i` on with every occurrence of `from` replaced, left to right and
/// without overlaps.
pub open spec fn replaced(t: Seq<char>, from: Seq<char>, to: Seq<char>, i: int) -> Seq<char>
    decreases t.len() - i,
{
    if i < 0 || i >= t.len() {
        Seq::empty()
    } else if from.len() > 0 && stands_at(t, from, i) {
        to + replaced(t, from, to, i + from.len())
    } else {
        seq![t[i]] + replaced(t, from, to, i + 1)
    }
}

/// Replace every occurrence of a text that is not empty.
pub fn replace(text: &str, from: &str, to: &str) -> (r: String)
    requires
        from@.len() > 0,
    ensures
        r@ == replaced(text@, from@, to@, 0),
{
    let t: Vec<char> = chars_of(text);
    let p: Vec<char> = chars_of(from);
    let n: usize = t.len();
    let mut out = String::new();
    let mut i: usize = 0;
    assert(out@ + replaced(text@, from@, to@, 0) =~= replaced(text@, from@, to@, 0));
    while i < n
        invariant
            i <= n == t@.len(),
            t@ == text@,
            p@ == from@,
            from@.len() > 0,
            out@ + replaced(text@, from@, to@, i as int) == replaced(text@, from@, to@, 0),
        decreases n - i,
    {
        let ghost before = out@;
        if is_at(t.as_slice(), p.as_slice(), i) {
            out.append(to);
            assert(out@ + replaced(text@, from@, to@, i + from@.len()) =~= before + (to@ + replaced(
                text@,
                from@,
                to@,
                i + from@.len(),
            )));
            i = i + p.len();
        } else {
            out.push(t[i]);
            assert(out@ + replaced(text@, from@, to@, i + 1) =~= before + (seq![t@[i as int]]
                + replaced(text@, from@, to@, i + 1)));
            i = i + 1;
        }
    }
    assert(out@ + replaced(text@, from@, to@, i as int) =~= out@);
    out
}

/// The number that decimal digits spell.
pub open spec fn spelled(t: Seq<char>) -> int
    decreases t.len(),
{
    if t.len() == 0 {
        0
    } else {
        10 * spelled(t.drop_last()) + (t.last() as int - 48)
    }
}

/// A number in decimal is made of the digits from 0 to 9, starts with a 0 only
/// where it is nothing else, and spells the number. One below zero has a minus
/// sign before it.
pub proof fn law_a_number_is_spelled_by_its_digits(n: int)
    requires
        0 <= n,
    ensures
        decimal(n).len() > 0,
        forall|i: int| 0 <= i < decimal(n).len() ==> 48 <= #[trigger] decimal(n)[i] as int <= 57,
        spelled(decimal(n)) == n,
        n >= 10 ==> decimal(n)[0] as int != 48,
        n < 10 ==> decimal(n).len() == 1,
        n > 0 ==> decimal(n)[0] as int != 48,
        signed(n) == decimal(n),
        n > 0 ==> signed(-n) == seq!['-'] + decimal(n),
    decreases n,
{
    if n >= 10 {
        law_a_number_is_spelled_by_its_digits(n / 10);
        let (head, all) = (decimal(n / 10), decimal(n));
        assert(all.drop_last() =~= head);
        assert forall|i: int| 0 <= i < all.len() implies 48 <= #[trigger] all[i] as int <= 57 by {
            if i < head.len() {
                assert(all[i] == head[i]);
            }
        }
        assert(all[0] == head[0]);
    } else {
        assert(decimal(n).drop_last() =~= Seq::empty());
        reveal_with_fuel(spelled, 2);
    }
}

/// Bytes in hexadecimal are two characters each, in order: the digits from 0 to
/// 9, then the letters from a to f.
pub proof fn law_two_characters_for_each_byte(b: Seq<u8>, i: int)
    requires
        0 <= i < b.len(),
    ensures
        ({
            let t = hex_text(b);
            let (high, low) = (b[i] as int / 16, b[i] as int % 16);
            &&& t.len() == 2 * b.len()
            &&& t[2 * i] as int == if high < 10 {
                48 + high
            } else {
                87 + high
            }
            &&& t[2 * i + 1] as int == if low < 10 {
                48 + low
            } else {
                87 + low
            }
            &&& hex_byte(b[i]) == seq![t[2 * i], t[2 * i + 1]]
        }),
    decreases b.len(),
{
    let head = b.drop_last();
    lemma_hex_len(head);
    if i < head.len() {
        law_two_characters_for_each_byte(head, i);
        assert(head[i] == b[i]);
        assert(hex_text(b)[2 * i] == hex_text(head)[2 * i]);
        assert(hex_text(b)[2 * i + 1] == hex_text(head)[2 * i + 1]);
    }
    assert(hex_byte(b[i]) =~= seq![hex_text(b)[2 * i], hex_text(b)[2 * i + 1]]);
}

proof fn lemma_hex_len(b: Seq<u8>)
    ensures
        hex_text(b).len() == 2 * b.len(),
    decreases b.len(),
{
    if b.len() > 0 {
        lemma_hex_len(b.drop_last());
    }
}

/// Trimming takes white space off both ends and nothing else: what is left is a
/// run of the text, all that was taken is white, and neither end of it is.
pub proof fn law_trimming_takes_white_space_alone(t: Seq<char>)
    ensures
        exists|a: int, b: int|
            #![trigger t.subrange(a, b)]
            0 <= a <= b <= t.len() && trimmed(t) == t.subrange(a, b) && (forall|i: int|
                (0 <= i < a || b <= i < t.len()) ==> is_blank(#[trigger] t[i])) && (a < b
                ==> !is_blank(t[a]) && !is_blank(t[b - 1])),
{
    let a = lemma_trim_start(t);
    let u = trim_start(t);
    let n = lemma_trim_end(u);
    let b = a + n;
    assert(u.take(n) =~= t.subrange(a, b));
    if 0 < n {
        assert(u[0] == t[a]);
        assert(u[n - 1] == t[b - 1]);
    }
    assert forall|i: int| (0 <= i < a || b <= i < t.len()) implies is_blank(#[trigger] t[i]) by {
        if i >= b {
            assert(u[i - a] == t[i]);
        }
    }
}

proof fn lemma_trim_start(t: Seq<char>) -> (a: int)
    ensures
        0 <= a <= t.len(),
        trim_start(t) == t.skip(a),
        forall|i: int| 0 <= i < a ==> is_blank(#[trigger] t[i]),
        a < t.len() ==> !is_blank(t[a]),
    decreases t.len(),
{
    if t.len() > 0 && is_blank(t[0]) {
        let k = lemma_trim_start(t.skip(1));
        assert(t.skip(1).skip(k) =~= t.skip(1 + k));
        assert forall|i: int| 0 <= i < 1 + k implies is_blank(#[trigger] t[i]) by {
            if i > 0 {
                assert(t.skip(1)[i - 1] == t[i]);
            }
        }
        1 + k
    } else {
        assert(t.skip(0) =~= t);
        0
    }
}

proof fn lemma_trim_end(t: Seq<char>) -> (n: int)
    ensures
        0 <= n <= t.len(),
        trim_end(t) == t.take(n),
        forall|i: int| n <= i < t.len() ==> is_blank(#[trigger] t[i]),
        n > 0 ==> !is_blank(t[n - 1]),
    decreases t.len(),
{
    if t.len() > 0 && is_blank(t.last()) {
        let n = lemma_trim_end(t.drop_last());
        assert(t.drop_last().take(n) =~= t.take(n));
        assert forall|i: int| n <= i < t.len() implies is_blank(#[trigger] t[i]) by {
            if i < t.len() - 1 {
                assert(t.drop_last()[i] == t[i]);
            }
        }
        n
    } else {
        assert(t.take(t.len() as int) =~= t);
        t.len() as int
    }
}

/// A text is found in another wherever it stands between two others, and to
/// stand at a place is to be there character by character.
pub proof fn law_what_it_is_to_stand_in_a_text(
    a: Seq<char>,
    p: Seq<char>,
    b: Seq<char>,
    t: Seq<char>,
    i: int,
)
    ensures
        has(a + p + b, p),
        stands_at(t, p, i) <==> 0 <= i && i + p.len() <= t.len() && forall|k: int|
            0 <= k < p.len() ==> #[trigger] t[i + k] == p[k],
        stands_at(t, p, i) ==> has(t, p),
        has(t, p) ==> p.len() <= t.len(),
{
    let at = a.len() as int;
    assert((a + p + b).subrange(at, at + p.len()) =~= p);
    assert(stands_at(a + p + b, p, at));
    if 0 <= i && i + p.len() <= t.len() {
        let part = t.subrange(i, i + p.len());
        if forall|k: int| 0 <= k < p.len() ==> #[trigger] t[i + k] == p[k] {
            assert forall|k: int| 0 <= k < p.len() implies part[k] == p[k] by {
                assert(t[i + k] == p[k]);
            }
            assert(part =~= p);
        }
        if part == p {
            assert forall|k: int| 0 <= k < p.len() implies #[trigger] t[i + k] == p[k] by {
                assert(part[k] == t[i + k]);
            }
        }
    }
}

/// Padding keeps the text and adds blanks behind it, up to the width and no
/// further.
pub proof fn law_padding_adds_blanks_behind(t: Seq<char>, width: int, i: int)
    ensures
        t.len() >= width ==> padded_right(t, width) == t,
        t.len() < width ==> padded_right(t, width).len() == width,
        0 <= i < t.len() ==> padded_right(t, width)[i] == t[i],
        t.len() <= i < width ==> padded_right(t, width)[i] == ' ',
{
}

/// A text in which nothing is found stays as it is. Otherwise the first place
/// where it is found is replaced, and what follows is gone through in the same
/// way.
pub proof fn law_each_occurrence_is_replaced(
    t: Seq<char>,
    from: Seq<char>,
    to: Seq<char>,
    i: int,
    n: int,
)
    requires
        from.len() > 0,
        0 <= i <= n <= t.len(),
        forall|k: int| i <= k < n ==> !stands_at(t, from, k),
    ensures
        n == t.len() ==> replaced(t, from, to, i) == t.skip(i),
        n < t.len() && stands_at(t, from, n) ==> replaced(t, from, to, i) == t.subrange(i, n) + to
            + replaced(t, from, to, n + from.len()),
    decreases n - i,
{
    if i < n {
        law_each_occurrence_is_replaced(t, from, to, i + 1, n);
        assert(!stands_at(t, from, i));
        assert(seq![t[i]] + t.skip(i + 1) =~= t.skip(i));
        assert(seq![t[i]] + t.subrange(i + 1, n) =~= t.subrange(i, n));
        if n < t.len() && stands_at(t, from, n) {
            assert(replaced(t, from, to, i) =~= t.subrange(i, n) + to + replaced(
                t,
                from,
                to,
                n + from.len(),
            ));
        }
    } else {
        assert(t.subrange(i, n) =~= Seq::empty());
        if n == t.len() {
            assert(t.skip(i) =~= Seq::empty());
        }
        if n < t.len() && stands_at(t, from, n) {
            assert(replaced(t, from, to, i) =~= t.subrange(i, n) + to + replaced(
                t,
                from,
                to,
                n + from.len(),
            ));
        }
    }
}

/// A padded field says what stands before its first NUL, whatever follows that,
/// and nothing where it is not text.
pub proof fn law_what_a_padded_field_says(head: Seq<u8>, behind: Seq<u8>, t: Seq<char>)
    requires
        forall|i: int| 0 <= i < head.len() ==> #[trigger] head[i] != 0,
    ensures
        head == encode_utf8(t) ==> padded_text(head) == t && padded_text(head + seq![0u8] + behind)
            == t,
        !valid_utf8(head) ==> padded_text(head).len() == 0 && padded_text(
            head + seq![0u8] + behind,
        ).len() == 0,
{
    let field = head + seq![0u8] + behind;
    lemma_until_nul(head, head.len() as int);
    lemma_until_nul(field, head.len() as int);
    assert(head.take(head.len() as int) =~= head);
    assert(field.take(head.len() as int) =~= head);
    encode_utf8_valid_utf8(t);
    encode_utf8_decode_utf8(t);
}

} // verus!
