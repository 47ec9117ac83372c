//! Characters, decimal numbers and white space, as the text formats of this crate use them.

use vstd::prelude::*;
use vstd::utf8::{encode_utf8, encode_utf8_decode_utf8};

verus! {

/// `String::push`: the character comes last, behind everything that was there.
pub assume_specification[ String::push ](s: &mut String, c: char)
    ensures
        final(s)@ == old(s)@.push(c),
;

/// The characters of a text, in order.
pub fn chars_of(s: &str) -> (out: Vec<char>)
    ensures
        out@ == s@,
{
    let mut out: Vec<char> = Vec::new();
    for c in iter: s.chars()
        invariant
            iter.seq() == s@,
            out@ == s@.take(iter.index()),
    {
        out.push(c);
    }
    assert(s@.take(s@.len() as int) =~= s@);
    out
}

/// The text that holds these characters.
pub fn text_of(chars: &[char]) -> (out: String)
    ensures
        out@ == chars@,
{
    let mut out = String::new();
    let mut i: usize = 0;
    while i < chars.len()
        invariant
            i <= chars.len(),
            out@ == chars@.take(i as int),
        decreases chars.len() - i,
    {
        out.push(chars[i]);
        assert(chars@.take(i + 1) =~= chars@.take(i as int).push(chars@[i as int]));
        i = i + 1;
    }
    assert(chars@.take(chars@.len() as int) =~= chars@);
    out
}

/// A text with another behind it.
pub fn with_text(start: &str, end: &str) -> (out: String)
    ensures
        out@ == start@ + end@,
{
    let mut out = start.to_owned();
    out.append(end);
    out
}

/// Whether two texts are the same, character for character.
pub fn same_text(a: &str, b: &str) -> (same: bool)
    ensures
        same == (a@ == b@),
{
    let x = a.as_bytes();
    let y = b.as_bytes();
    proof {
        encode_utf8_decode_utf8(a@);
        encode_utf8_decode_utf8(b@);
    }
    if x.len() != y.len() {
        return false;
    }
    let mut i: usize = 0;
    while i < x.len()
        invariant
            i <= x.len(),
            x.len() == y.len(),
            x@ == encode_utf8(a@),
            y@ == encode_utf8(b@),
            x@.take(i as int) == y@.take(i as int),
        decreases x.len() - i,
    {
        if x[i] != y[i] {
            assert(x@[i as int] != y@[i as int]);
            return false;
        }
        assert(x@.take(i + 1) =~= x@.take(i as int).push(x@[i as int]));
        assert(y@.take(i + 1) =~= y@.take(i as int).push(y@[i as int]));
        i = i + 1;
    }
    assert(x@.take(x@.len() as int) =~= x@);
    assert(y@.take(y@.len() as int) =~= y@);
    true
}

/// The digit that stands for a number below ten.
pub open spec fn digit(d: nat) -> char {
    (48 + d) as char
}

/// Whether a character is one of the ten decimal digits.
pub open spec fn is_digit(c: char) -> bool {
    '0' <= c <= '9'
}

/// The number that a digit stands for.
pub open spec fn digit_value(c: char) -> nat {
    (c as nat - 48) as nat
}

/// A number in decimal, with no leading zeros.
pub open spec fn dec(n: nat) -> Seq<char>
    decreases n,
{
    if n < 10 {
        seq![digit(n)]
    } else {
        dec(n / 10).push(digit(n % 10))
    }
}

/// An integer in decimal, with a minus sign if it is negative.
pub open spec fn dec_int(i: int) -> Seq<char> {
    if i < 0 {
        seq!['-'] + dec((-i) as nat)
    } else {
        dec(i as nat)
    }
}

/// Appends a number in decimal.
pub fn push_u64(out: &mut String, n: u64)
    ensures
        final(out)@ == old(out)@ + dec(n as nat),
    decreases n,
{
    if n >= 10 {
        push_u64(out, n / 10);
    }
    let d = (n % 10) as u8;
    out.push((48 + d) as char);
    assert(out@ =~= old(out)@ + dec(n as nat));
}

/// Appends an integer in decimal.
pub fn push_i64(out: &mut String, i: i64)
    ensures
        final(out)@ == old(out)@ + dec_int(i as int),
{
    if i < 0 {
        out.push('-');
        if i == i64::MIN {
            push_u64(out, 9223372036854775808);
        } else {
            push_u64(out, (-i) as u64);
        }
        assert(out@ =~= old(out)@ + dec_int(i as int));
    } else {
        push_u64(out, i as u64);
    }
}

/// Whether every character is a digit.
pub open spec fn all_digits(s: Seq<char>) -> bool {
    forall|i: int| 0 <= i < s.len() ==> is_digit(#[trigger] s[i])
}

/// The number that a row of digits writes, however many there are.
pub open spec fn digits_value(s: Seq<char>) -> nat
    decreases s.len(),
{
    if s.len() == 0 {
        0
    } else {
        digits_value(s.drop_last()) * 10 + digit_value(s.last())
    }
}

/// The integer that a text writes: an optional sign, then at least one digit, and nothing else.
pub open spec fn int_written(s: Seq<char>) -> Option<int> {
    let signed = s.len() > 0 && (s[0] == '-' || s[0] == '+');
    let body = if signed {
        s.skip(1)
    } else {
        s
    };
    if body.len() == 0 || !all_digits(body) {
        None
    } else if signed && s[0] == '-' {
        Some(-digits_value(body))
    } else {
        Some(digits_value(body) as int)
    }
}

/// The same, for the integers that fit in 64 bits with a sign.
pub open spec fn i64_written(s: Seq<char>) -> Option<i64> {
    match int_written(s) {
        Some(v) if i64::MIN <= v <= i64::MAX => Some(v as i64),
        _ => None,
    }
}

/// More digits never write a smaller number.
pub proof fn lemma_digits_value_grows(s: Seq<char>, n: int)
    requires
        0 <= n <= s.len(),
    ensures
        digits_value(s.take(n)) <= digits_value(s),
    decreases s.len() - n,
{
    if n == s.len() {
        assert(s.take(n) =~= s);
    } else {
        lemma_digits_value_grows(s, n + 1);
        assert(s.take(n + 1).drop_last() =~= s.take(n));
    }
}

/// Reads a row of digits as a number of at most `limit`.
fn read_digits(chars: &[char], from: usize, limit: u64) -> (out: Option<u64>)
    requires
        from <= chars@.len(),
    ensures
        out == if from < chars@.len() && all_digits(chars@.skip(from as int)) && digits_value(
            chars@.skip(from as int),
        ) <= limit {
            Some(digits_value(chars@.skip(from as int)) as u64)
        } else {
            None
        },
{
    let ghost body = chars@.skip(from as int);
    if from >= chars.len() {
        return None;
    }
    let mut acc: u64 = 0;
    let mut i: usize = from;
    while i < chars.len()
        invariant
            from <= i <= chars@.len(),
            body == chars@.skip(from as int),
            all_digits(body.take(i - from)),
            acc == digits_value(body.take(i - from)),
            acc <= limit,
        decreases chars@.len() - i,
    {
        let c = chars[i];
        assert(body[i - from] == c);
        if c < '0' || c > '9' {
            return None;
        }
        let d: u64 = c as u64 - 48;
        let ghost next = body.take(i - from + 1);
        proof {
            assert(next.drop_last() =~= body.take(i - from));
            assert(next.last() == c);
            assert(digits_value(next) == acc * 10 + d);
            lemma_digits_value_grows(body, i - from + 1);
            assert forall|j: int| 0 <= j < next.len() implies is_digit(#[trigger] next[j]) by {
                if j < i - from {
                    assert(next[j] == body.take(i - from)[j]);
                }
            }
        }
        if d > limit || acc > limit / 10 || acc * 10 > limit - d {
            return None;
        }
        acc = acc * 10 + d;
        i = i + 1;
    }
    assert(body.take(body.len() as int) =~= body);
    Some(acc)
}

/// Reads a text as a 64-bit integer, as `str::parse` does for `i64`.
pub fn parse_i64(chars: &[char]) -> (out: Option<i64>)
    ensures
        out == i64_written(chars@),
{
    assert(chars@.skip(0) =~= chars@);
    if chars.len() == 0 {
        return None;
    }
    if chars[0] == '-' {
        match read_digits(chars, 1, 9223372036854775808) {
            Some(v) => {
                if v == 9223372036854775808 {
                    Some(i64::MIN)
                } else {
                    Some(-(v as i64))
                }
            },
            None => None,
        }
    } else {
        let from: usize = if chars[0] == '+' {
            1
        } else {
            0
        };
        match read_digits(chars, from, 9223372036854775807) {
            Some(v) => Some(v as i64),
            None => None,
        }
    }
}

/// What a number in decimal is made of.
pub proof fn lemma_dec(n: nat)
    ensures
        dec(n).len() > 0,
        all_digits(dec(n)),
        digits_value(dec(n)) == n,
    decreases n,
{
    if n < 10 {
        assert(dec(n).drop_last() =~= Seq::<char>::empty());
        assert(dec(n).last() == digit(n));
        assert(digits_value(Seq::<char>::empty()) == 0);
        assert(digits_value(dec(n)) == digit_value(digit(n)));
    } else {
        lemma_dec(n / 10);
        assert(dec(n).drop_last() =~= dec(n / 10));
        assert(dec(n).last() == digit(n % 10));
    }
}

/// Reading a 64-bit integer gives back what writing it in decimal started from.
pub proof fn lemma_dec_int_read_back(i: i64)
    ensures
        i64_written(dec_int(i as int)) == Some(i),
{
    if i < 0 {
        lemma_dec((-i) as nat);
        assert(dec_int(i as int).skip(1) =~= dec((-i) as nat));
    } else {
        lemma_dec(i as nat);
        assert(is_digit(dec(i as nat)[0]));
    }
}

/// How many numbers have at most `k` digits.
pub open spec fn pow10(k: nat) -> nat
    decreases k,
{
    if k == 0 {
        1
    } else {
        10 * pow10((k - 1) as nat)
    }
}

/// A number below a power of ten has no more digits than the power.
proof fn lemma_dec_len_below(n: nat, k: nat)
    requires
        n < pow10(k),
        k > 0,
    ensures
        dec(n).len() <= k,
    decreases k,
{
    if n >= 10 {
        if k == 1 {
            assert(pow10(1) == 10 * pow10(0));
        }
        lemma_dec_len_below(n / 10, (k - 1) as nat);
    }
}

/// A 64-bit number has at most twenty digits, an integer at most a sign more.
pub proof fn lemma_dec_len(n: u64, i: i64)
    ensures
        dec(n as nat).len() <= 20,
        dec_int(i as int).len() <= 21,
{
    assert(pow10(20) == 100_000_000_000_000_000_000) by {
        reveal_with_fuel(pow10, 21);
    }
    lemma_dec_len_below(n as nat, 20);
    if i < 0 {
        lemma_dec_len_below((-i) as nat, 20);
    } else {
        lemma_dec_len_below(i as nat, 20);
    }
}

/// A character takes at most four bytes in UTF-8.
pub proof fn lemma_encoded_len(s: Seq<char>)
    ensures
        encode_utf8(s).len() <= 4 * s.len(),
    decreases s.len(),
{
    if s.len() > 0 {
        lemma_encoded_len(s.drop_first());
    }
}

/// Whether a character is white space, as Unicode's `White_Space` property has it.
pub open spec fn is_space(c: char) -> bool {
    ||| '\u{9}' <= c <= '\u{d}'
    ||| c == ' '
    ||| c == '\u{85}'
    ||| c == '\u{a0}'
    ||| c == '\u{1680}'
    ||| '\u{2000}' <= c <= '\u{200a}'
    ||| c == '\u{2028}'
    ||| c == '\u{2029}'
    ||| c == '\u{202f}'
    ||| c == '\u{205f}'
    ||| c == '\u{3000}'
}

/// Whether a character is white space.
pub fn is_white_space(c: char) -> (space: bool)
    ensures
        space == is_space(c),
{
    ('\u{9}' <= c && c <= '\u{d}') || c == ' ' || c == '\u{85}' || c == '\u{a0}' || c == '\u{1680}'
        || ('\u{2000}' <= c && c <= '\u{200a}') || c == '\u{2028}' || c == '\u{2029}' || c
        == '\u{202f}' || c == '\u{205f}' || c == '\u{3000}'
}

/// What is left of a text without the white space at its start.
pub open spec fn trimmed_start(s: Seq<char>) -> Seq<char>
    decreases s.len(),
{
    if s.len() > 0 && is_space(s[0]) {
        trimmed_start(s.skip(1))
    } else {
        s
    }
}

/// What is left of a text without the white space at its end.
pub open spec fn trimmed_end(s: Seq<char>) -> Seq<char>
    decreases s.len(),
{
    if s.len() > 0 && is_space(s.last()) {
        trimmed_end(s.drop_last())
    } else {
        s
    }
}

/// What is left of a text without the white space on both sides.
pub open spec fn trimmed(s: Seq<char>) -> Seq<char> {
    trimmed_end(trimmed_start(s))
}

/// Drops the white space at the start.
pub fn trim_start<'a>(chars: &'a [char]) -> (out: &'a [char])
    ensures
        out@ == trimmed_start(chars@),
{
    let mut i: usize = 0;
    assert(chars@.skip(0) =~= chars@);
    while i < chars.len() && is_white_space(chars[i])
        invariant
            i <= chars@.len(),
            trimmed_start(chars@.skip(i as int)) == trimmed_start(chars@),
        decreases chars@.len() - i,
    {
        assert(chars@.skip(i as int).skip(1) =~= chars@.skip(i + 1));
        i = i + 1;
    }
    let out = &chars[i..chars.len()];
    assert(out@ =~= chars@.skip(i as int));
    out
}

/// Drops the white space on both sides.
pub fn trim<'a>(chars: &'a [char]) -> (out: &'a [char])
    ensures
        out@ == trimmed(chars@),
{
    let rest = trim_start(chars);
    let mut n: usize = rest.len();
    assert(rest@.take(n as int) =~= rest@);
    while n > 0 && is_white_space(rest[n - 1])
        invariant
            n <= rest@.len(),
            trimmed_end(rest@.take(n as int)) == trimmed_end(rest@),
        decreases n,
    {
        assert(rest@.take(n as int).drop_last() =~= rest@.take(n - 1));
        n = n - 1;
    }
    let out = &rest[0..n];
    assert(out@ =~= rest@.take(n as int));
    out
}

/// The number of characters up to the first white space.
pub open spec fn word_len(s: Seq<char>) -> nat
    decreases s.len(),
{
    if s.len() == 0 || is_space(s[0]) {
        0
    } else {
        1 + word_len(s.skip(1))
    }
}

/// A word does not run past the end of the text.
pub proof fn lemma_word_len(s: Seq<char>)
    ensures
        word_len(s) <= s.len(),
        s.len() > 0 && !is_space(s[0]) ==> word_len(s) > 0,
    decreases s.len(),
{
    if s.len() > 0 && !is_space(s[0]) {
        lemma_word_len(s.skip(1));
    }
}

/// Trimming keeps an end of the text, which does not start with white space.
pub proof fn lemma_trimmed_start(s: Seq<char>)
    ensures
        trimmed_start(s).len() <= s.len(),
        trimmed_start(s).len() > 0 ==> !is_space(trimmed_start(s)[0]),
    decreases s.len(),
{
    if s.len() > 0 && is_space(s[0]) {
        lemma_trimmed_start(s.skip(1));
    }
}

/// The words of a text: what stands between white space.
pub open spec fn words(s: Seq<char>) -> Seq<Seq<char>>
    decreases s.len(),
{
    let t = trimmed_start(s);
    if t.len() == 0 {
        Seq::empty()
    } else {
        proof {
            lemma_trimmed_start(s);
            lemma_word_len(t);
        }
        seq![t.take(word_len(t) as int)] + words(t.skip(word_len(t) as int))
    }
}

/// Splits a text at white space.
pub fn split_words<'a>(chars: &'a [char]) -> (out: Vec<&'a [char]>)
    ensures
        out@.len() == words(chars@).len(),
        forall|i: int| 0 <= i < out@.len() ==> (#[trigger] out@[i])@ == words(chars@)[i],
{
    let mut out: Vec<&'a [char]> = Vec::new();
    let mut rest = trim_start(chars);
    let ghost mut done: Seq<Seq<char>> = Seq::empty();
    proof {
        lemma_trimmed_start(chars@);
        lemma_trim_twice(chars@);
        assert(done + words(rest@) =~= words(rest@));
    }
    while rest.len() > 0
        invariant
            rest@.len() > 0 ==> !is_space(rest@[0]),
            done + words(rest@) == words(chars@),
            out@.len() == done.len(),
            forall|i: int| 0 <= i < out@.len() ==> (#[trigger] out@[i])@ == done[i],
        decreases rest@.len(),
    {
        let ghost t = rest@;
        let mut n: usize = 0;
        assert(t.skip(0) =~= t);
        while n < rest.len() && !is_white_space(rest[n])
            invariant
                n <= rest@.len(),
                t == rest@,
                n + word_len(t.skip(n as int)) == word_len(t),
            decreases rest@.len() - n,
        {
            assert(t.skip(n as int).skip(1) =~= t.skip(n + 1));
            n = n + 1;
        }
        proof {
            lemma_word_len(t);
            assert(n == word_len(t));
        }
        let word = &rest[0..n];
        let tail = &rest[n..rest.len()];
        assert(word@ =~= t.take(n as int));
        assert(tail@ =~= t.skip(n as int));
        out.push(word);
        rest = trim_start(tail);
        proof {
            lemma_trimmed_start(tail@);
            lemma_trim_twice(tail@);
            let before = done;
            done = done.push(word@);
            assert(trimmed_start(t) == t);
            assert(words(t) == seq![word@] + words(tail@));
            assert(before + (seq![word@] + words(tail@)) =~= done + words(rest@));
        }
    }
    assert(words(rest@) =~= Seq::<Seq<char>>::empty());
    assert(done + words(rest@) =~= done);
    out
}

/// White space that was dropped does not count: the words are the same.
pub proof fn lemma_trim_twice(s: Seq<char>)
    ensures
        trimmed_start(trimmed_start(s)) == trimmed_start(s),
        words(trimmed_start(s)) == words(s),
{
    lemma_trimmed_start(s);
}

/// Whether `needle` stands in `s` at position `i`.
pub open spec fn occurs_at(s: Seq<char>, needle: Seq<char>, i: int) -> bool {
    0 <= i && i + needle.len() <= s.len() && s.subrange(i, i + needle.len()) == needle
}

/// The first position at or behind `i` where `needle` stands in `s`.
pub open spec fn first_at(s: Seq<char>, needle: Seq<char>, i: int) -> Option<int>
    decreases s.len() - i + 1,
{
    if i < 0 || i + needle.len() > s.len() {
        None
    } else if occurs_at(s, needle, i) {
        Some(i)
    } else {
        first_at(s, needle, i + 1)
    }
}

/// Whether `needle` stands in `s` at position `i`.
pub fn stands_at(s: &[char], needle: &[char], i: usize) -> (yes: bool)
    ensures
        yes == occurs_at(s@, needle@, i as int),
{
    if needle.len() > s.len() || i > s.len() - needle.len() {
        return false;
    }
    let ghost part = s@.subrange(i as int, i + needle@.len());
    let mut k: usize = 0;
    while k < needle.len()
        invariant
            k <= needle@.len(),
            i + needle@.len() <= s.len(),
            part == s@.subrange(i as int, i + needle@.len()),
            forall|j: int| 0 <= j < k ==> part[j] == needle@[j],
        decreases needle@.len() - k,
    {
        if s[i + k] != needle[k] {
            assert(part[k as int] != needle@[k as int]);
            return false;
        }
        k = k + 1;
    }
    assert(part =~= needle@);
    true
}

/// Looks for the first place where `needle` stands in `s`.
pub fn find(s: &[char], needle: &[char]) -> (out: Option<usize>)
    ensures
        match out {
            Some(i) => first_at(s@, needle@, 0) == Some(i as int) && i + needle.len() <= s.len(),
            None => first_at(s@, needle@, 0) is None,
        },
{
    if needle.len() > s.len() {
        return None;
    }
    let mut i: usize = 0;
    while i <= s.len() - needle.len()
        invariant
            needle@.len() <= s@.len(),
            i <= s@.len() - needle@.len() + 1,
            first_at(s@, needle@, i as int) == first_at(s@, needle@, 0),
        decreases s@.len() - needle@.len() + 1 - i,
    {
        if stands_at(s, needle, i) {
            return Some(i);
        }
        if i == s.len() - needle.len() {
            assert(first_at(s@, needle@, i + 1) is None);
            return None;
        }
        i = i + 1;
    }
    None
}

/// Whether a text starts with another.
pub fn starts_with(s: &str, prefix: &str) -> (yes: bool)
    ensures
        yes == prefix@.is_prefix_of(s@),
{
    let a = chars_of(s);
    let b = chars_of(prefix);
    let yes = stands_at(a.as_slice(), b.as_slice(), 0);
    assert(prefix@.is_prefix_of(s@) == occurs_at(s@, prefix@, 0));
    yes
}

/// Whether a text is the decimal form of an integer: reading it gives the integer, it has a minus
/// sign if and only if the integer is negative, no plus sign, and no zero in front of other digits.
pub open spec fn is_decimal_of(t: Seq<char>, v: int) -> bool {
    &&& t.len() > 0
    &&& int_written(t) == Some(v)
    &&& t[0] != '+'
    &&& (t[0] == '-' <==> v < 0)
    &&& (t[0] == '0' ==> t.len() == 1)
    &&& (t[0] == '-' ==> t.len() > 1 && t[1] != '0')
}

/// A decimal number starts with a zero only if it is zero.
proof fn lemma_dec_first(n: nat)
    ensures
        dec(n).len() > 0,
        dec(n)[0] == '0' ==> n == 0,
        n == 0 ==> dec(n).len() == 1,
    decreases n,
{
    if n >= 10 {
        lemma_dec_first(n / 10);
        assert(dec(n)[0] == dec(n / 10)[0]);
    }
}

/// An integer is written in its decimal form, and a number as the integer that it is.
pub proof fn law_integers_are_written_in_decimal(i: int)
    ensures
        is_decimal_of(dec_int(i), i),
        i >= 0 ==> dec(i as nat) == dec_int(i),
{
    if i < 0 {
        lemma_dec((-i) as nat);
        lemma_dec_first((-i) as nat);
        assert(dec_int(i).skip(1) =~= dec((-i) as nat));
        assert(dec_int(i)[1] == dec((-i) as nat)[0]);
    } else {
        lemma_dec(i as nat);
        lemma_dec_first(i as nat);
        assert(is_digit(dec(i as nat)[0]));
    }
}

/// Digits count by their place: each place to the left counts ten times as much.
pub proof fn law_digits_count_by_place(a: Seq<char>, b: Seq<char>)
    ensures
        digits_value(a + b) == digits_value(a) * pow10(b.len()) + digits_value(b),
        b.len() == 1 && '0' <= b[0] ==> digits_value(b) == b[0] as nat - '0' as nat,
    decreases b.len(),
{
    if b.len() == 0 {
        assert(a + b =~= a);
        assert(digits_value(a) * 1 == digits_value(a)) by (nonlinear_arith);
    } else {
        law_digits_count_by_place(a, b.drop_last());
        assert((a + b).drop_last() =~= a + b.drop_last());
        let v = digits_value(a) as int;
        let p = pow10((b.len() - 1) as nat) as int;
        assert(v * (10 * p) == (v * p) * 10) by (nonlinear_arith);
        if b.len() == 1 {
            assert(b.drop_last() =~= Seq::empty());
            assert(b.last() == b[0]);
        }
    }
}

/// A sign in front changes the sign of an integer and nothing else; a text with anything but digits
/// behind the sign, or with no digits at all, writes none.
pub proof fn law_sign_and_digits_write_an_integer(body: Seq<char>)
    requires
        body.len() > 0,
        all_digits(body),
    ensures
        int_written(body) == Some(digits_value(body) as int),
        int_written(seq!['+'] + body) == Some(digits_value(body) as int),
        int_written(seq!['-'] + body) == Some(-(digits_value(body) as int)),
{
    assert(is_digit(body[0]));
    assert((seq!['+'] + body).skip(1) =~= body);
    assert((seq!['-'] + body).skip(1) =~= body);
}

/// A text with a character that is neither a digit nor a sign in front writes no integer.
pub proof fn law_other_characters_write_no_integer(s: Seq<char>, i: int)
    requires
        0 <= i < s.len(),
        !('0' <= s[i] <= '9'),
        i > 0 || (s[0] != '-' && s[0] != '+') || s.len() == 1,
    ensures
        int_written(s) is None,
        i64_written(s) is None,
{
    let signed = s[0] == '-' || s[0] == '+';
    if signed {
        if i > 0 {
            assert(s.skip(1)[i - 1] == s[i]);
        }
    } else {
        assert(!is_digit(s[i]));
    }
}

/// A 64-bit integer is read if and only if the integer that is written fits.
pub proof fn law_integers_are_read_where_they_fit(s: Seq<char>, v: int)
    requires
        int_written(s) == Some(v),
    ensures
        i64_written(s) is Some <==> -0x8000_0000_0000_0000 <= v <= 0x7fff_ffff_ffff_ffff,
        i64_written(s) matches Some(i) ==> i == v,
{
}

/// The characters that count as white space are those that Unicode says do.
pub proof fn law_white_space_is_unicodes(c: char)
    ensures
        is_space(c) <==> "\u{9}\u{a}\u{b}\u{c}\u{d}\u{20}\u{85}\u{a0}\u{1680}\u{2000}\u{2001}\u{2002}\u{2003}\u{2004}\u{2005}\u{2006}\u{2007}\u{2008}\u{2009}\u{200a}\u{2028}\u{2029}\u{202f}\u{205f}\u{3000}"@.contains(
        c),
{
    reveal_strlit("\u{9}\u{a}\u{b}\u{c}\u{d}\u{20}\u{85}\u{a0}\u{1680}\u{2000}\u{2001}\u{2002}\u{2003}\u{2004}\u{2005}\u{2006}\u{2007}\u{2008}\u{2009}\u{200a}\u{2028}\u{2029}\u{202f}\u{205f}\u{3000}");
    let all = "\u{9}\u{a}\u{b}\u{c}\u{d}\u{20}\u{85}\u{a0}\u{1680}\u{2000}\u{2001}\u{2002}\u{2003}\u{2004}\u{2005}\u{2006}\u{2007}\u{2008}\u{2009}\u{200a}\u{2028}\u{2029}\u{202f}\u{205f}\u{3000}"@;
    let u = c as u32;
    assert(all.len() == 25);
    if is_space(c) {
        let i: int = if u <= 0xd {
            u - 9
        } else if u == 0x20 {
            5
        } else if u == 0x85 {
            6
        } else if u == 0xa0 {
            7
        } else if u == 0x1680 {
            8
        } else if u <= 0x200a {
            9 + (u - 0x2000)
        } else if u <= 0x2029 {
            20 + (u - 0x2028)
        } else if u == 0x202f {
            22
        } else if u == 0x205f {
            23
        } else {
            24
        };
        assert(all[i] == c);
    }
}

/// Whether every character is white space.
pub open spec fn all_space(s: Seq<char>) -> bool {
    forall|i: int| 0 <= i < s.len() ==> is_space(#[trigger] s[i])
}

/// Whether no character is white space.
pub open spec fn no_space(s: Seq<char>) -> bool {
    forall|i: int| 0 <= i < s.len() ==> !is_space(#[trigger] s[i])
}

/// White space in front is dropped, up to the first other character.
proof fn lemma_trim_front(a: Seq<char>, s: Seq<char>)
    requires
        all_space(a),
        s.len() == 0 || !is_space(s[0]),
    ensures
        trimmed_start(a + s) == s,
    decreases a.len(),
{
    if a.len() == 0 {
        assert(a + s =~= s);
    } else {
        assert((a + s)[0] == a[0]);
        assert((a + s).skip(1) =~= a.skip(1) + s);
        assert forall|i: int| 0 <= i < a.skip(1).len() implies is_space(#[trigger] a.skip(1)[i]) by {
            assert(a.skip(1)[i] == a[i + 1]);
        }
        lemma_trim_front(a.skip(1), s);
    }
}

/// White space behind is dropped, up to the last other character.
proof fn lemma_trim_back(s: Seq<char>, b: Seq<char>)
    requires
        all_space(b),
        s.len() == 0 || !is_space(s.last()),
    ensures
        trimmed_end(s + b) == s,
    decreases b.len(),
{
    if b.len() == 0 {
        assert(s + b =~= s);
    } else {
        assert((s + b).last() == b.last());
        assert(b.last() == b[b.len() - 1]);
        assert((s + b).drop_last() =~= s + b.drop_last());
        assert forall|i: int| 0 <= i < b.drop_last().len() implies is_space(
            #[trigger] b.drop_last()[i],
        ) by {
            assert(b.drop_last()[i] == b[i]);
        }
        lemma_trim_back(s, b.drop_last());
    }
}

/// Trimming drops the white space on both sides, all of it and nothing else.
pub proof fn law_trim_drops_the_white_space_around(a: Seq<char>, s: Seq<char>, b: Seq<char>)
    requires
        all_space(a),
        all_space(b),
        s.len() == 0 || (!is_space(s[0]) && !is_space(s.last())),
    ensures
        trimmed(a + s + b) == s,
        s.len() > 0 ==> trimmed_start(a + s + b) == s + b,
{
    if s.len() == 0 {
        let e = Seq::<char>::empty();
        assert(a + s + b =~= (a + b) + e);
        assert forall|i: int| 0 <= i < (a + b).len() implies is_space(#[trigger] (a + b)[i]) by {
            if i < a.len() {
                assert((a + b)[i] == a[i]);
            } else {
                assert((a + b)[i] == b[i - a.len()]);
            }
        }
        lemma_trim_front(a + b, e);
        assert(trimmed_end(e) == e);
        assert(s =~= e);
    } else {
        assert(a + s + b =~= a + (s + b));
        assert((s + b)[0] == s[0]);
        lemma_trim_front(a, s + b);
        lemma_trim_back(s, b);
    }
}

/// A word ends where the first white space stands.
proof fn lemma_word_ends(w: Seq<char>, rest: Seq<char>)
    requires
        no_space(w),
        rest.len() == 0 || is_space(rest[0]),
    ensures
        word_len(w + rest) == w.len(),
    decreases w.len(),
{
    if w.len() == 0 {
        assert(w + rest =~= rest);
    } else {
        assert((w + rest)[0] == w[0]);
        assert((w + rest).skip(1) =~= w.skip(1) + rest);
        assert forall|i: int| 0 <= i < w.skip(1).len() implies !is_space(#[trigger] w.skip(1)[i]) by {
            assert(w.skip(1)[i] == w[i + 1]);
        }
        lemma_word_ends(w.skip(1), rest);
    }
}

/// White space parts words: behind it the first word is what stands up to the next, and the other
/// words are those of what is left.
pub proof fn law_words_stand_between_white_space(sp: Seq<char>, w: Seq<char>, rest: Seq<char>)
    requires
        all_space(sp),
        no_space(w),
        w.len() > 0,
        rest.len() == 0 || is_space(rest[0]),
    ensures
        words(sp + w + rest) == seq![w] + words(rest),
        words(sp) == Seq::<Seq<char>>::empty(),
{
    let t = w + rest;
    assert(sp + w + rest =~= sp + t);
    assert(t[0] == w[0]);
    lemma_trim_front(sp, t);
    lemma_word_ends(w, rest);
    assert(t.take(w.len() as int) =~= w);
    assert(t.skip(w.len() as int) =~= rest);
    lemma_trim_front(sp, Seq::empty());
    assert(sp + Seq::<char>::empty() =~= sp);
}

/// What is found is the first place: a place where the text stands, with none before it; and where
/// nothing is found the text stands nowhere.
pub proof fn law_found_place_is_the_first(s: Seq<char>, needle: Seq<char>, from: int)
    requires
        0 <= from,
    ensures
        match first_at(s, needle, from) {
            Some(i) => {
                &&& from <= i
                &&& i + needle.len() <= s.len()
                &&& s.subrange(i, i + needle.len()) == needle
                &&& forall|k: int|
                    from <= k < i ==> #[trigger] s.subrange(k, k + needle.len()) != needle
            },
            None => forall|k: int|
                from <= k && k + needle.len() <= s.len() ==> #[trigger] s.subrange(
                    k,
                    k + needle.len(),
                ) != needle,
        },
    decreases s.len() - from + 1,
{
    if from + needle.len() <= s.len() && !occurs_at(s, needle, from) {
        law_found_place_is_the_first(s, needle, from + 1);
    }
}

/// Where a number ends can be told: two texts that start with a number in decimal and go on with
/// something else are the same only if the numbers and what follows are.
pub proof fn law_numbers_are_told_apart(a: nat, x: Seq<char>, b: nat, y: Seq<char>)
    requires
        dec(a) + x == dec(b) + y,
        x.len() > 0 && !('0' <= x[0] <= '9'),
        y.len() > 0 && !('0' <= y[0] <= '9'),
    ensures
        a == b,
        x == y,
{
    lemma_dec(a);
    lemma_dec(b);
    let s = dec(a) + x;
    let m = dec(a).len() as int;
    let n = dec(b).len() as int;
    if m < n {
        assert(s[m] == x[0]);
        assert(s[m] == dec(b)[m]);
        assert(is_digit(dec(b)[m]));
    }
    if n < m {
        assert(s[n] == y[0]);
        assert(s[n] == dec(a)[n]);
        assert(is_digit(dec(a)[n]));
    }
    assert(s.take(m) =~= dec(a));
    assert(s.take(n) =~= dec(b));
    assert(s.skip(m) =~= x);
    assert(s.skip(n) =~= y);
}

/// The rest of a line: what stands up to the next line feed.
pub open spec fn rest_of_line(s: Seq<char>) -> Seq<char>
    decreases s.len(),
{
    if s.len() == 0 || s[0] == '\n' {
        Seq::empty()
    } else {
        seq![s[0]] + rest_of_line(s.skip(1))
    }
}

/// What a printed text says under a name: what stands behind `name=` on the first line that starts
/// so.
pub open spec fn said_under(text: Seq<char>, name: Seq<char>) -> Option<Seq<char>>
    decreases text.len(),
{
    let line = rest_of_line(text);
    if (name + seq!['=']).is_prefix_of(line) {
        Some(line.skip(name.len() as int + 1))
    } else if line.len() < text.len() {
        said_under(text.skip(line.len() as int + 1), name)
    } else {
        None
    }
}

/// A line ends at the first line feed.
pub proof fn lemma_line_ends(v: Seq<char>, rest: Seq<char>)
    requires
        !v.contains('\n'),
        rest.len() > 0 && rest[0] == '\n',
    ensures
        rest_of_line(v + rest) == v,
    decreases v.len(),
{
    if v.len() == 0 {
        assert(v + rest =~= rest);
        assert(v =~= Seq::empty());
    } else {
        assert(v[0] != '\n') by {
            assert(v.contains(v[0]));
        }
        assert((v + rest)[0] == v[0]);
        assert((v + rest).skip(1) =~= v.skip(1) + rest);
        assert(!v.skip(1).contains('\n')) by {
            if v.skip(1).contains('\n') {
                let i = choose|i: int| 0 <= i < v.skip(1).len() && v.skip(1)[i] == '\n';
                assert(v[i + 1] == '\n');
            }
        }
        lemma_line_ends(v.skip(1), rest);
        assert(seq![v[0]] + v.skip(1) =~= v);
    }
}

/// The first place is the one that no other comes before.
pub proof fn lemma_first_place(s: Seq<char>, needle: Seq<char>, from: int, at: int)
    requires
        0 <= from <= at,
        occurs_at(s, needle, at),
        forall|k: int| from <= k < at ==> !#[trigger] occurs_at(s, needle, k),
    ensures
        first_at(s, needle, from) == Some(at),
    decreases at - from,
{
    if from < at {
        assert(!occurs_at(s, needle, from));
        lemma_first_place(s, needle, from + 1, at);
    }
}

/// What a text says under a name is on its first line, or else said by the lines behind it.
pub proof fn lemma_said(line: Seq<char>, rest: Seq<char>, name: Seq<char>)
    requires
        !line.contains('\n'),
    ensures
        said_under(line + seq!['\n'] + rest, name) == if (name + seq!['=']).is_prefix_of(line) {
            Some(line.skip(name.len() as int + 1))
        } else {
            said_under(rest, name)
        },
{
    let tail = seq!['\n'] + rest;
    let text = line + seq!['\n'] + rest;
    assert(text =~= line + tail);
    lemma_line_ends(line, tail);
    assert(text.skip(line.len() as int + 1) =~= rest);
}

/// A line that starts with a name says what stands behind it, under that name and no other that
/// starts with another letter.
pub proof fn lemma_said_under(own: Seq<char>, v: Seq<char>, rest: Seq<char>, name: Seq<char>)
    requires
        own.len() > 0 && name.len() > 0,
        !own.contains('\n'),
        !v.contains('\n'),
        own == name || own[0] != name[0],
    ensures
        said_under(own + seq!['='] + v + seq!['\n'] + rest, name) == if own == name {
            Some(v)
        } else {
            said_under(rest, name)
        },
{
    let line = own + seq!['='] + v;
    assert(!line.contains('\n')) by {
        if line.contains('\n') {
            let i = choose|i: int| 0 <= i < line.len() && line[i] == '\n';
            if i < own.len() {
                assert(own[i] == '\n');
            } else if i > own.len() {
                assert(v[i - own.len() - 1] == '\n');
            }
        }
    }
    lemma_said(line, rest, name);
    let head = name + seq!['='];
    if own == name {
        assert(line.take(head.len() as int) =~= head);
        assert(line.skip(name.len() as int + 1) =~= v);
    } else {
        assert(line[0] == own[0] && head[0] == name[0]);
        if head.is_prefix_of(line) {
            assert(line.take(head.len() as int)[0] == line[0]);
        }
    }
}

/// Nothing is said by no text.
pub proof fn lemma_nothing_said(name: Seq<char>)
    ensures
        said_under(Seq::empty(), name) is None,
{
    let e = Seq::<char>::empty();
    assert(rest_of_line(e) =~= e);
}

/// An integer in decimal has digits and a minus sign only: it is on one line, with no white space.
pub proof fn lemma_dec_int_plain(i: int, c: char)
    requires
        !('0' <= c <= '9') && c != '-',
    ensures
        !dec_int(i).contains(c),
        no_space(dec_int(i)),
        dec_int(i).len() > 0,
{
    let n: nat = if i < 0 {
        (-i) as nat
    } else {
        i as nat
    };
    lemma_dec(n);
    assert forall|k: int| 0 <= k < dec_int(i).len() implies is_digit(#[trigger] dec_int(i)[k])
        || dec_int(i)[k] == '-' by {
        if i < 0 && k > 0 {
            assert(dec_int(i)[k] == dec(n)[k - 1]);
        }
        if i >= 0 {
            assert(is_digit(dec(n)[k]));
        }
    }
    assert forall|k: int| 0 <= k < dec_int(i).len() implies !is_space(#[trigger] dec_int(i)[k]) by {
        assert(is_digit(dec_int(i)[k]) || dec_int(i)[k] == '-');
    }
}

} // verus!
