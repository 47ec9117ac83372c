//! Bytes in hexadecimal.

use vstd::prelude::*;

use crate::text::{chars_of, trim, trimmed};
use crate::views::outcome;
use vstd::utf8::encode_utf8;

verus! {

/// The digit for a number below sixteen.
pub open spec fn hex_digit(n: nat) -> char {
    if n < 10 {
        (48 + n) as char
    } else {
        (87 + n) as char
    }
}

/// Bytes in hexadecimal: two small digits for each.
pub open spec fn hex_text(bytes: Seq<u8>) -> Seq<char> {
    Seq::new(
        2 * bytes.len(),
        |i: int|
            if i % 2 == 0 {
                hex_digit(bytes[i / 2] as nat / 16)
            } else {
                hex_digit(bytes[i / 2] as nat % 16)
            },
    )
}

/// The digit for a number below sixteen.
fn digit_of(n: u8) -> (c: char)
    requires
        n < 16,
    ensures
        c == hex_digit(n as nat),
{
    if n < 10 {
        (48 + n) as char
    } else {
        (87 + n) as char
    }
}

/// Writes bytes in hexadecimal.
pub fn encode(bytes: &[u8]) -> (out: String)
    ensures
        out@ == hex_text(bytes@),
{
    let mut out = String::new();
    let mut i: usize = 0;
    while i < bytes.len()
        invariant
            i <= bytes@.len(),
            out@ == hex_text(bytes@.take(i as int)),
        decreases bytes@.len() - i,
    {
        let b: u8 = bytes[i];
        let ghost before = out@;
        out.push(digit_of(b / 16));
        out.push(digit_of(b % 16));
        proof {
            let next = hex_text(bytes@.take(i + 1));
            assert(next.len() == before.len() + 2);
            assert forall|j: int| 0 <= j < next.len() implies next[j] == #[trigger] out@[j] by {
                if j < before.len() {
                    assert(bytes@.take(i + 1)[j / 2] == bytes@.take(i as int)[j / 2]);
                    assert(before[j] == next[j]);
                }
            }
            assert(out@ =~= next);
        }
        i = i + 1;
    }
    assert(bytes@.take(bytes@.len() as int) =~= bytes@);
    out
}

/// How many bytes a character takes in UTF-8.
pub open spec fn width(c: char) -> nat {
    if c as u32 <= 0x7f {
        1
    } else if c as u32 <= 0x7ff {
        2
    } else if c as u32 <= 0xffff {
        3
    } else {
        4
    }
}

/// How many bytes a character takes in UTF-8.
fn byte_len(c: char) -> (n: u32)
    ensures
        n == width(c),
{
    let code: u32 = c as u32;
    if code <= 0x7f {
        1
    } else if code <= 0x7ff {
        2
    } else if code <= 0xffff {
        3
    } else {
        4
    }
}

/// How many bytes a text takes in UTF-8.
pub open spec fn text_width(s: Seq<char>) -> nat
    decreases s.len(),
{
    if s.len() == 0 {
        0
    } else {
        text_width(s.drop_last()) + width(s.last())
    }
}

/// The number that a hexadecimal digit stands for, in small or in capital letters.
pub open spec fn hex_value(c: char) -> Option<nat> {
    if '0' <= c <= '9' {
        Some((c as nat - 48) as nat)
    } else if 'a' <= c <= 'f' {
        Some((c as nat - 87) as nat)
    } else if 'A' <= c <= 'F' {
        Some((c as nat - 55) as nat)
    } else {
        None
    }
}

/// The byte that two characters stand for: two digits, or a plus sign and a digit.
pub open spec fn pair_value(a: char, b: char) -> Option<nat> {
    match (hex_value(a), hex_value(b)) {
        (Some(x), Some(y)) => Some(x * 16 + y),
        (None, Some(y)) => if a == '+' {
            Some(y)
        } else {
            None
        },
        _ => None,
    }
}

/// Whether reading the text two bytes at a time would cut a character in two before it comes to an
/// end or to what is no hexadecimal.
pub open spec fn cuts(s: Seq<char>) -> bool
    decreases s.len(),
{
    if s.len() == 0 || width(s[0]) == 2 {
        false
    } else if width(s[0]) > 2 || s.len() == 1 || width(s[1]) > 1 {
        true
    } else {
        pair_value(s[0], s[1]) is Some && cuts(s.skip(2))
    }
}

/// The bytes that a text of pairs stands for, as far as each pair stands for one.
pub open spec fn pairs_read(s: Seq<char>) -> Option<Seq<u8>>
    decreases s.len(),
{
    if s.len() == 0 {
        Some(Seq::empty())
    } else if s.len() == 1 {
        None
    } else {
        match (pair_value(s[0], s[1]), pairs_read(s.skip(2))) {
            (Some(v), Some(rest)) => Some(seq![v as u8] + rest),
            _ => None,
        }
    }
}

/// What reading a text as hexadecimal gives, with the white space around it left out.
pub open spec fn hex_read(text: Seq<char>) -> Result<Seq<u8>, Seq<char>> {
    let s = trimmed(text);
    if text_width(s) % 2 != 0 {
        Err("hex length must be even"@)
    } else {
        match pairs_read(s) {
            Some(bytes) => Ok(bytes),
            None => Err("bad hex: invalid digit found in string"@),
        }
    }
}

/// Whether a text can be read two bytes at a time with no character cut in two.
pub open spec fn readable(text: Seq<char>) -> bool {
    text_width(trimmed(text)) % 2 != 0 || !cuts(trimmed(text))
}

/// Whether a text takes an odd number of bytes.
fn is_odd(chars: &[char]) -> (odd: bool)
    ensures
        odd == (text_width(chars@) % 2 != 0),
{
    let mut odd = false;
    let mut i: usize = 0;
    while i < chars.len()
        invariant
            i <= chars@.len(),
            odd == (text_width(chars@.take(i as int)) % 2 != 0),
        decreases chars@.len() - i,
    {
        let c = chars[i];
        assert(chars@.take(i + 1).drop_last() =~= chars@.take(i as int));
        assert(chars@.take(i + 1).last() == c);
        if byte_len(c) % 2 != 0 {
            odd = !odd;
        }
        i = i + 1;
    }
    assert(chars@.take(chars@.len() as int) =~= chars@);
    odd
}

/// The number that a hexadecimal digit stands for.
fn value_of(c: char) -> (out: Option<u8>)
    ensures
        match out {
            Some(v) => hex_value(c) == Some(v as nat) && v < 16,
            None => hex_value(c) is None,
        },
{
    if '0' <= c && c <= '9' {
        Some((c as u32 - 48) as u8)
    } else if 'a' <= c && c <= 'f' {
        Some((c as u32 - 87) as u8)
    } else if 'A' <= c && c <= 'F' {
        Some((c as u32 - 55) as u8)
    } else {
        None
    }
}

/// The byte that two characters stand for.
fn byte_of(a: char, b: char) -> (out: Option<u8>)
    ensures
        match out {
            Some(v) => pair_value(a, b) == Some(v as nat),
            None => pair_value(a, b) is None,
        },
{
    match (value_of(a), value_of(b)) {
        (Some(x), Some(y)) => Some(x * 16 + y),
        (None, Some(y)) => if a == '+' {
            Some(y)
        } else {
            None
        },
        _ => None,
    }
}

/// Whether [`hex_decode`] can read a text: one in which it would cut a character in two it cannot.
pub fn is_readable(text: &str) -> (yes: bool)
    ensures
        yes == readable(text@),
{
    let all = chars_of(text);
    let s = trim(all.as_slice());
    if is_odd(s) {
        return true;
    }
    let mut i: usize = 0;
    assert(s@.skip(0) =~= s@);
    while i < s.len()
        invariant
            i <= s@.len(),
            s@ == trimmed(text@),
            text_width(s@) % 2 == 0,
            cuts(s@.skip(i as int)) == cuts(s@),
        decreases s@.len() - i,
    {
        let c = s[i];
        let ghost rest = s@.skip(i as int);
        assert(rest[0] == c);
        if byte_len(c) == 2 {
            return true;
        }
        if byte_len(c) > 2 || s.len() - i == 1 {
            return false;
        }
        let d = s[i + 1];
        assert(rest[1] == d);
        if byte_len(d) > 1 {
            return false;
        }
        if byte_of(c, d).is_none() {
            return true;
        }
        assert(rest.skip(2) =~= s@.skip(i + 2));
        i = i + 2;
    }
    true
}

/// Reads hexadecimal, with white space around it left out.
pub fn hex_decode(text: &str) -> (out: Result<Vec<u8>, String>)
    requires
        readable(text@),
    ensures
        outcome(out) == hex_read(text@),
{
    let all = chars_of(text);
    let s = trim(all.as_slice());
    if is_odd(s) {
        return Err("hex length must be even".to_owned());
    }
    let mut out: Vec<u8> = Vec::new();
    let mut i: usize = 0;
    let ghost whole = pairs_read(s@);
    assert(s@.skip(0) =~= s@);
    proof {
        if let Some(b) = whole {
            assert(out@ + b =~= b);
        }
    }
    while i < s.len()
        invariant
            i <= s@.len(),
            s@ == trimmed(text@),
            text_width(s@) % 2 == 0,
            whole == pairs_read(s@),
            match pairs_read(s@.skip(i as int)) {
                Some(b) => whole == Some(out@ + b),
                None => whole is None,
            },
        decreases s@.len() - i,
    {
        let ghost rest = s@.skip(i as int);
        if s.len() - i < 2 {
            assert(rest.len() == 1);
            return Err("bad hex: invalid digit found in string".to_owned());
        }
        assert(rest[0] == s@[i as int] && rest[1] == s@[i + 1]);
        assert(rest.skip(2) =~= s@.skip(i + 2));
        let v: u8 = match byte_of(s[i], s[i + 1]) {
            Some(v) => v,
            None => return Err("bad hex: invalid digit found in string".to_owned()),
        };
        proof {
            if let Some(b) = pairs_read(rest.skip(2)) {
                assert(out@ + (seq![v] + b) =~= out@.push(v) + b);
            }
        }
        out.push(v);
        i = i + 2;
    }
    assert(out@ + Seq::<u8>::empty() =~= out@);
    Ok(out)
}

/// Hexadecimal digits are read back.
proof fn lemma_digit_read_back(n: nat)
    requires
        n < 16,
    ensures
        hex_value(hex_digit(n)) == Some(n),
        width(hex_digit(n)) == 1,
        !crate::text::is_space(hex_digit(n)),
{
}

/// A text of hexadecimal digits: what it takes, and what is read from it.
proof fn lemma_hex_text(bytes: Seq<u8>)
    ensures
        text_width(hex_text(bytes)) == 2 * bytes.len(),
        pairs_read(hex_text(bytes)) == Some(bytes),
        !cuts(hex_text(bytes)),
    decreases bytes.len(),
{
    let s = hex_text(bytes);
    if bytes.len() > 0 {
        let b = bytes[0] as nat;
        lemma_digit_read_back(b / 16);
        lemma_digit_read_back(b % 16);
        assert(s[0] == hex_digit(b / 16));
        assert(s[1] == hex_digit(b % 16));
        let tail = bytes.skip(1);
        assert(s.skip(2) =~= hex_text(tail)) by {
            assert forall|i: int| 0 <= i < 2 * tail.len() implies s.skip(2)[i] == #[trigger] hex_text(
                tail,
            )[i] by {
                assert(tail[i / 2] == bytes[(i + 2) / 2]);
            }
        }
        lemma_hex_text(tail);
        assert(pair_value(s[0], s[1]) == Some(b));
        assert(seq![bytes[0]] + tail =~= bytes);
        lemma_narrow(s);
    } else {
        assert(bytes =~= Seq::empty());
    }
}

/// A text of characters of one byte each takes as many bytes.
proof fn lemma_narrow(s: Seq<char>)
    requires
        forall|i: int| 0 <= i < s.len() ==> width(#[trigger] s[i]) == 1,
    ensures
        text_width(s) == s.len(),
    decreases s.len(),
{
    if s.len() > 0 {
        assert(s.last() == s[s.len() - 1]);
        assert forall|i: int| 0 <= i < s.len() - 1 implies width(#[trigger] s.drop_last()[i]) == 1 by {
            assert(s.drop_last()[i] == s[i]);
        }
        lemma_narrow(s.drop_last());
    }
}

/// What was written in hexadecimal can be read, and gives the bytes back.
pub proof fn law_hex_read_back(bytes: Seq<u8>)
    ensures
        readable(hex_text(bytes)),
        hex_read(hex_text(bytes)) == Ok::<Seq<u8>, Seq<char>>(bytes),
{
    let s = hex_text(bytes);
    if bytes.len() > 0 {
        lemma_digit_read_back(bytes[0] as nat / 16);
        lemma_digit_read_back(bytes.last() as nat % 16);
        assert(s[0] == hex_digit(bytes[0] as nat / 16));
        assert(s.last() == hex_digit(bytes.last() as nat % 16));
    }
    assert(trimmed(s) == s);
    lemma_hex_text(bytes);
}

/// The digits stand for 0 to 15 in their order, small or capital; no other character is a digit.
pub proof fn law_hexadecimal_digits(c: char, n: int)
    requires
        0 <= n < 16,
    ensures
        hex_digit(n as nat) == "0123456789abcdef"@[n],
        hex_value("0123456789abcdef"@[n]) == Some(n as nat),
        hex_value("0123456789ABCDEF"@[n]) == Some(n as nat),
        hex_value(c) is Some <==> "0123456789abcdef"@.contains(c) || "0123456789ABCDEF"@.contains(c),
{
    reveal_strlit("0123456789abcdef");
    reveal_strlit("0123456789ABCDEF");
    let small = "0123456789abcdef"@;
    let large = "0123456789ABCDEF"@;
    if let Some(v) = hex_value(c) {
        if 'A' <= c <= 'F' {
            assert(large[v as int] == c);
        } else {
            assert(small[v as int] == c);
        }
    }
}

/// Bytes are written one by one, two small digits for each: the high half, then the low half.
pub proof fn law_hex_is_written_byte_by_byte(a: Seq<u8>, b: u8)
    ensures
        hex_text(a).len() == 2 * a.len(),
        hex_text(a.push(b)) == hex_text(a) + seq![
            "0123456789abcdef"@[b as int / 16],
            "0123456789abcdef"@[b as int % 16],
        ],
        forall|i: int|
            0 <= i < hex_text(a).len() ==> "0123456789abcdef"@.contains(#[trigger] hex_text(a)[i]),
{
    let n = a.len() as int;
    law_hexadecimal_digits('0', b as int / 16);
    law_hexadecimal_digits('0', b as int % 16);
    assert forall|i: int| 0 <= i < hex_text(a).len() implies "0123456789abcdef"@.contains(
        #[trigger] hex_text(a)[i],
    ) by {
        let v = a[i / 2] as int;
        let d = if i % 2 == 0 {
            v / 16
        } else {
            v % 16
        };
        law_hexadecimal_digits('0', d);
        assert("0123456789abcdef"@.len() == 16) by {
            reveal_strlit("0123456789abcdef");
        }
        assert(hex_text(a)[i] == "0123456789abcdef"@[d]);
    }
    assert forall|i: int| 0 <= i < 2 * n implies #[trigger] hex_text(a.push(b))[i] == hex_text(
        a,
    )[i] by {
        assert(a.push(b)[i / 2] == a[i / 2]);
    }
    assert(hex_text(a.push(b)) =~= hex_text(a) + seq![
        "0123456789abcdef"@[b as int / 16],
        "0123456789abcdef"@[b as int % 16],
    ]);
}

/// A pair of digits is read as the byte that it stands for, and what stands in front and behind it
/// is read by itself.
pub proof fn law_hex_is_read_pair_by_pair(s: Seq<char>, bytes: Seq<u8>, i: int)
    requires
        pairs_read(s) == Some(bytes),
        0 <= i < bytes.len(),
    ensures
        s.len() == 2 * bytes.len(),
        hex_value(s[2 * i + 1]) is Some,
        hex_value(s[2 * i]) matches Some(v) ==> bytes[i] == 16 * v + hex_value(s[2 * i + 1])->0,
        hex_value(s[2 * i]) is None ==> s[2 * i] == '+' && bytes[i] == hex_value(s[2 * i + 1])->0,
    decreases s.len(),
{
    lemma_digits_small(s[2 * i], s[2 * i + 1]);
    let rest = pairs_read(s.skip(2))->0;
    if rest.len() == 0 {
        lemma_no_pairs(s.skip(2));
    }
    if i > 0 {
        law_hex_is_read_pair_by_pair(s.skip(2), rest, i - 1);
        assert(s.skip(2)[2 * (i - 1)] == s[2 * i]);
        assert(s.skip(2)[2 * (i - 1) + 1] == s[2 * i + 1]);
    } else if rest.len() > 0 {
        law_hex_is_read_pair_by_pair(s.skip(2), rest, 0);
    }
}

/// Digits are below sixteen.
proof fn lemma_digits_small(a: char, b: char)
    ensures
        hex_value(a) matches Some(v) ==> v < 16,
        hex_value(b) matches Some(v) ==> v < 16,
{
}

/// Only the empty text is read as no bytes.
proof fn lemma_no_pairs(s: Seq<char>)
    requires
        pairs_read(s) matches Some(b) && b.len() == 0,
    ensures
        s.len() == 0,
{
}

/// Texts are joined in UTF-8 as they are.
proof fn lemma_encoded_push(s: Seq<char>, c: char)
    ensures
        encode_utf8(s.push(c)).len() == encode_utf8(s).len() + encode_utf8(seq![c]).len(),
    decreases s.len(),
{
    if s.len() == 0 {
        assert(s.push(c) =~= seq![c]);
    } else {
        assert(s.push(c).drop_first() =~= s.drop_first().push(c));
        lemma_encoded_push(s.drop_first(), c);
    }
}

/// The width of a text is the number of bytes that its UTF-8 form has.
pub proof fn law_width_is_that_of_utf8(s: Seq<char>)
    ensures
        text_width(s) == encode_utf8(s).len(),
    decreases s.len(),
{
    if s.len() > 0 {
        let front = s.drop_last();
        let c = s.last();
        law_width_is_that_of_utf8(front);
        assert(front.push(c) =~= s);
        lemma_encoded_push(front, c);
        assert(seq![c].drop_first() =~= Seq::empty());
        assert(encode_utf8(Seq::<char>::empty()).len() == 0);
        vstd::utf8::char_is_scalar(c);
        assert(encode_utf8(seq![c]) =~= vstd::utf8::encode_scalar(c as u32));
        assert(vstd::utf8::encode_scalar(c as u32).len() == width(c));
    }
}

/// A text of an odd number of bytes is refused for that; one of an even number is read, or refused
/// for a character that is no digit.
pub proof fn law_hex_of_odd_length_is_refused(text: Seq<char>)
    ensures
        encode_utf8(trimmed(text)).len() % 2 != 0 ==> hex_read(text) == Err::<Seq<u8>, Seq<char>>(
            "hex length must be even"@,
        ),
        encode_utf8(trimmed(text)).len() % 2 == 0 ==> (hex_read(text) is Ok || hex_read(text)
            == Err::<Seq<u8>, Seq<char>>("bad hex: invalid digit found in string"@)),
        hex_read(text) matches Ok(bytes) ==> trimmed(text).len() == 2 * bytes.len(),
{
    law_width_is_that_of_utf8(trimmed(text));
    if let Ok(bytes) = hex_read(text) {
        if bytes.len() > 0 {
            law_hex_is_read_pair_by_pair(trimmed(text), bytes, 0);
        } else {
            lemma_no_pairs(trimmed(text));
        }
    }
}

/// A text of hexadecimal digits, two for each byte, is read.
proof fn lemma_digits_are_read(s: Seq<char>)
    requires
        s.len() % 2 == 0,
        forall|i: int| 0 <= i < s.len() ==> hex_value(#[trigger] s[i]) is Some,
    ensures
        pairs_read(s) is Some,
        !cuts(s),
        text_width(s) == s.len(),
    decreases s.len(),
{
    assert forall|i: int| 0 <= i < s.len() implies width(#[trigger] s[i]) == 1 by {
        assert(hex_value(s[i]) is Some);
    }
    lemma_narrow(s);
    if s.len() > 0 {
        let rest = s.skip(2);
        assert(hex_value(s[0]) is Some && hex_value(s[1]) is Some);
        assert forall|i: int| 0 <= i < rest.len() implies hex_value(#[trigger] rest[i]) is Some by {
            assert(rest[i] == s[i + 2]);
        }
        lemma_digits_are_read(rest);
    }
}

/// Every text of hexadecimal digits, small or capital, two for each byte, is read, whatever white
/// space stands around it.
pub proof fn law_hexadecimal_digits_are_read(a: Seq<char>, s: Seq<char>, b: Seq<char>)
    requires
        crate::text::all_space(a),
        crate::text::all_space(b),
        s.len() % 2 == 0,
        forall|i: int| 0 <= i < s.len() ==> hex_value(#[trigger] s[i]) is Some,
    ensures
        readable(a + s + b),
        hex_read(a + s + b) is Ok,
        hex_read(a + s + b) == hex_read(s),
{
    if s.len() > 0 {
        assert(hex_value(s[0]) is Some);
        assert(hex_value(s[s.len() - 1]) is Some);
        assert(!crate::text::is_space(s[0]) && !crate::text::is_space(s.last()));
    }
    crate::text::law_trim_drops_the_white_space_around(a, s, b);
    let e = Seq::<char>::empty();
    crate::text::law_trim_drops_the_white_space_around(e, s, e);
    assert(e + s + e =~= s);
    lemma_digits_are_read(s);
}

/// Whether every character takes one byte.
pub open spec fn narrow(s: Seq<char>) -> bool {
    forall|i: int| 0 <= i < s.len() ==> width(#[trigger] s[i]) == 1
}

/// A text in which every character takes one byte can always be read two bytes at a time.
pub proof fn law_narrow_texts_are_readable(s: Seq<char>)
    requires
        narrow(s),
    ensures
        readable(s),
{
    lemma_trimmed_start_narrow(s);
    lemma_trimmed_end_narrow(crate::text::trimmed_start(s));
    lemma_narrow_cuts_nothing(trimmed(s));
}

/// What is left of a narrow text without the white space at its start is narrow.
proof fn lemma_trimmed_start_narrow(s: Seq<char>)
    requires
        narrow(s),
    ensures
        narrow(crate::text::trimmed_start(s)),
    decreases s.len(),
{
    if s.len() > 0 && crate::text::is_space(s[0]) {
        assert forall|i: int| 0 <= i < s.skip(1).len() implies width(#[trigger] s.skip(1)[i]) == 1 by {
            assert(s.skip(1)[i] == s[i + 1]);
        }
        lemma_trimmed_start_narrow(s.skip(1));
    }
}

/// What is left of a narrow text without the white space at its end is narrow.
proof fn lemma_trimmed_end_narrow(s: Seq<char>)
    requires
        narrow(s),
    ensures
        narrow(crate::text::trimmed_end(s)),
    decreases s.len(),
{
    if s.len() > 0 && crate::text::is_space(s.last()) {
        assert forall|i: int| 0 <= i < s.drop_last().len() implies width(#[trigger] s.drop_last()[i])
            == 1 by {
            assert(s.drop_last()[i] == s[i]);
        }
        lemma_trimmed_end_narrow(s.drop_last());
    }
}

/// Reading a narrow text two bytes at a time cuts nothing, if the number of bytes is even.
proof fn lemma_narrow_cuts_nothing(s: Seq<char>)
    requires
        narrow(s),
    ensures
        text_width(s) == s.len(),
        s.len() % 2 == 0 ==> !cuts(s),
    decreases s.len(),
{
    lemma_narrow(s);
    if s.len() >= 2 {
        let rest = s.skip(2);
        assert(width(s[0]) == 1 && width(s[1]) == 1);
        assert forall|i: int| 0 <= i < rest.len() implies width(#[trigger] rest[i]) == 1 by {
            assert(rest[i] == s[i + 2]);
        }
        lemma_narrow_cuts_nothing(rest);
    }
}

/// Behind digits, two for each byte, a narrow character with a wide one behind it would be cut: such
/// a text of an even number of bytes is not readable.
pub proof fn law_cut_characters_are_found(p: Seq<char>, c: char, w: char, rest: Seq<char>)
    requires
        p.len() % 2 == 0,
        forall|i: int| 0 <= i < p.len() ==> hex_value(#[trigger] p[i]) is Some,
        width(c) == 1,
        width(w) > 1,
        trimmed(p + seq![c, w] + rest) == p + seq![c, w] + rest,
        text_width(p + seq![c, w] + rest) % 2 == 0,
    ensures
        !readable(p + seq![c, w] + rest),
{
    lemma_cut_behind(p, c, w, rest);
}

/// Reading comes to the place where a character is cut.
proof fn lemma_cut_behind(p: Seq<char>, c: char, w: char, rest: Seq<char>)
    requires
        p.len() % 2 == 0,
        forall|i: int| 0 <= i < p.len() ==> hex_value(#[trigger] p[i]) is Some,
        width(c) == 1,
        width(w) > 1,
    ensures
        cuts(p + seq![c, w] + rest),
    decreases p.len(),
{
    let s = p + seq![c, w] + rest;
    if p.len() == 0 {
        assert(s[0] == c && s[1] == w);
    } else {
        let q = p.skip(2);
        assert(s[0] == p[0] && s[1] == p[1]);
        assert(hex_value(p[0]) is Some && hex_value(p[1]) is Some);
        assert(s.skip(2) =~= q + seq![c, w] + rest);
        assert forall|i: int| 0 <= i < q.len() implies hex_value(#[trigger] q[i]) is Some by {
            assert(q[i] == p[i + 2]);
        }
        lemma_cut_behind(q, c, w, rest);
    }
}

/// Where a text is cut rests on what stands behind its digits, two for each byte: nothing is cut
/// where the text ends there, where a character of two bytes stands there, or two of one byte that
/// are no digits; a character is cut where a longer one stands there, or one of one byte with nothing
/// or a longer one behind it.
pub proof fn law_cuts_are_behind_the_digits(p: Seq<char>, q: Seq<char>)
    requires
        p.len() % 2 == 0,
        forall|i: int| 0 <= i < p.len() ==> hex_value(#[trigger] p[i]) is Some,
    ensures
        cuts(p + q) == cuts(q),
        q.len() == 0 ==> !cuts(q),
        q.len() > 0 && width(q[0]) == 2 ==> !cuts(q),
        q.len() > 0 && width(q[0]) > 2 ==> cuts(q),
        q.len() == 1 && width(q[0]) == 1 ==> cuts(q),
        q.len() > 1 && width(q[0]) == 1 && width(q[1]) > 1 ==> cuts(q),
        q.len() > 1 && width(q[0]) == 1 && width(q[1]) == 1 && pair_value(q[0], q[1]) is None
            ==> !cuts(q),
    decreases p.len(),
{
    let s = p + q;
    if p.len() == 0 {
        assert(s =~= q);
    } else {
        let t = p.skip(2);
        assert(s[0] == p[0] && s[1] == p[1]);
        assert(hex_value(p[0]) is Some && hex_value(p[1]) is Some);
        assert(s.skip(2) =~= t + q);
        assert forall|i: int| 0 <= i < t.len() implies hex_value(#[trigger] t[i]) is Some by {
            assert(t[i] == p[i + 2]);
        }
        law_cuts_are_behind_the_digits(t, q);
    }
}

/// Two digits stand for sixteen times the first and the second; a plus sign in place of the first
/// counts nothing; any other two characters stand for no byte.
pub proof fn law_pairs_are_digits_or_a_plus(a: char, b: char)
    ensures
        hex_value(a) matches Some(x) ==> (hex_value(b) matches Some(y) ==> pair_value(a, b) == Some(
            16 * x + y,
        )),
        hex_value(b) matches Some(y) ==> pair_value('+', b) == Some(y),
        hex_value(b) is None ==> pair_value(a, b) is None,
        hex_value(a) is None && a != '+' ==> pair_value(a, b) is None,
{
}

} // verus!
