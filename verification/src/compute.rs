//! The computation itself, and the texts that its inputs travel in.

use vstd::prelude::*;

use crate::text::{
    all_space, chars_of, dec, dec_int, find, first_at, i64_written, is_digit, is_space,
    law_found_place_is_the_first, lemma_dec, lemma_dec_int_read_back, occurs_at, parse_i64,
    push_i64, trim_start, trimmed_start, with_text,
};
use crate::views::outcome;

verus! {

/// What is computed.
pub open spec fn value(x: int, y: int) -> int {
    x * x * x + 5 * y
}

/// Whether the cube, the product and their sum fit in 64 bits.
pub open spec fn fits(x: i64, y: i64) -> bool {
    &&& i64::MIN <= x * x * x <= i64::MAX
    &&& i64::MIN <= 5 * y <= i64::MAX
    &&& i64::MIN <= value(x as int, y as int) <= i64::MAX
}

/// A cube fits in 64 bits if and only if its root is small enough.
proof fn lemma_cube_fits(x: i64)
    ensures
        i64::MIN <= x * x * x <= i64::MAX <==> -2097152 <= x <= 2097151,
{
    if x > 2097151 {
        assert(x * x * x >= 2097152int * 2097152 * 2097152) by (nonlinear_arith)
            requires
                x >= 2097152,
        ;
    } else if x < -2097152 {
        assert(x * x * x <= -2097153int * 2097153 * 2097153) by (nonlinear_arith)
            requires
                x <= -2097153,
        ;
    } else {
        assert(-2097152int * 2097152 * 2097152 <= x * x * x <= 2097151int * 2097151 * 2097151)
            by (nonlinear_arith)
            requires
                -2097152 <= x <= 2097151,
        ;
    }
}

/// Computes `x^3 + 5*y`.
pub fn compute(x: i64, y: i64) -> (out: i64)
    requires
        fits(x, y),
    ensures
        out == value(x as int, y as int),
{
    proof {
        lemma_cube_fits(x);
        assert(0 <= x * x <= 0x400_0000_0000) by (nonlinear_arith)
            requires
                -2097152 <= x <= 2097151,
        ;
    }
    x * x * x + 5 * y
}

/// Computes `x^3 + 5*y`, if every step of it fits in 64 bits.
pub fn compute_checked(x: i64, y: i64) -> (out: Option<i64>)
    ensures
        out == if fits(x, y) {
            Some(value(x as int, y as int) as i64)
        } else {
            None
        },
{
    proof {
        lemma_cube_fits(x);
    }
    if x < -2097152 || x > 2097151 {
        return None;
    }
    if y < -1844674407370955161 || y > 1844674407370955161 {
        return None;
    }
    proof {
        assert(0 <= x * x <= 0x400_0000_0000) by (nonlinear_arith)
            requires
                -2097152 <= x <= 2097151,
        ;
    }
    let cube: i64 = x * x * x;
    let product: i64 = 5 * y;
    cube.checked_add(product)
}

/// The digits and minus signs that a text starts with.
pub open spec fn number_len(s: Seq<char>) -> nat
    decreases s.len(),
{
    if s.len() == 0 || !(is_digit(s[0]) || s[0] == '-') {
        0
    } else {
        1 + number_len(s.skip(1))
    }
}

/// The integer behind the first place where `needle` stands.
pub open spec fn field_value(s: Seq<char>, needle: Seq<char>) -> Option<i64> {
    match first_at(s, needle, 0) {
        None => None,
        Some(i) => {
            let rest = trimmed_start(s.skip(i + needle.len()));
            i64_written(rest.take(number_len(rest) as int))
        },
    }
}

/// What reading the inputs gives.
pub open spec fn xy_read(s: Seq<char>) -> Result<(i64, i64), Seq<char>> {
    match (field_value(s, "\"x\":"@), field_value(s, "\"y\":"@)) {
        (None, _) => Err("missing x in plaintext: "@ + s),
        (Some(_), None) => Err("missing y in plaintext: "@ + s),
        (Some(x), Some(y)) => Ok((x, y)),
    }
}

/// Reads the integer behind the first place where `needle` stands.
fn extract_field(s: &[char], needle: &str) -> (out: Option<i64>)
    ensures
        out == field_value(s@, needle@),
{
    let key = chars_of(needle);
    let start: usize = match find(s, key.as_slice()) {
        Some(i) => i + key.len(),
        None => return None,
    };
    let tail = &s[start..s.len()];
    assert(tail@ =~= s@.skip(start as int));
    let rest = trim_start(tail);
    let mut n: usize = 0;
    assert(rest@.skip(0) =~= rest@);
    while n < rest.len() && (('0' <= rest[n] && rest[n] <= '9') || rest[n] == '-')
        invariant
            n <= rest@.len(),
            n + number_len(rest@.skip(n as int)) == number_len(rest@),
        decreases rest@.len() - n,
    {
        assert(rest@.skip(n as int).skip(1) =~= rest@.skip(n + 1));
        n = n + 1;
    }
    let number = &rest[0..n];
    assert(number@ =~= rest@.take(n as int));
    parse_i64(number)
}

/// Reads the inputs from a text such as `{"x":2,"y":3}`.
pub fn parse_xy_json(s: &str) -> (out: Result<(i64, i64), String>)
    ensures
        outcome(out) == xy_read(s@),
{
    let chars = chars_of(s);
    let x: i64 = match extract_field(chars.as_slice(), "\"x\":") {
        Some(x) => x,
        None => return Err(with_text("missing x in plaintext: ", s)),
    };
    let y: i64 = match extract_field(chars.as_slice(), "\"y\":") {
        Some(y) => y,
        None => return Err(with_text("missing y in plaintext: ", s)),
    };
    Ok((x, y))
}

/// The inputs as a text.
pub open spec fn xy_text(x: i64, y: i64) -> Seq<char> {
    "{\"x\":"@ + dec_int(x as int) + ",\"y\":"@ + dec_int(y as int) + "}"@
}

/// Writes the inputs as a text such as `{"x":2,"y":3}`.
pub fn xy_json(x: i64, y: i64) -> (out: String)
    ensures
        out@ == xy_text(x, y),
{
    let mut out = "{\"x\":".to_owned();
    push_i64(&mut out, x);
    out.append(",\"y\":");
    push_i64(&mut out, y);
    out.append("}");
    out
}

/// What an integer in decimal is made of.
proof fn lemma_dec_int_chars(i: int)
    ensures
        dec_int(i).len() > 0,
        forall|k: int|
            0 <= k < dec_int(i).len() ==> is_digit(#[trigger] dec_int(i)[k]) || dec_int(i)[k] == '-',
{
    if i < 0 {
        lemma_dec((-i) as nat);
        assert forall|k: int| 0 <= k < dec_int(i).len() implies is_digit(#[trigger] dec_int(i)[k])
            || dec_int(i)[k] == '-' by {
            if k > 0 {
                assert(dec_int(i)[k] == dec((-i) as nat)[k - 1]);
            }
        }
    } else {
        lemma_dec(i as nat);
    }
}

/// A number ends where the first other character stands.
proof fn lemma_number_ends(s: Seq<char>, n: int)
    requires
        0 <= n < s.len(),
        forall|k: int| 0 <= k < n ==> is_digit(#[trigger] s[k]) || s[k] == '-',
        !is_digit(s[n]) && s[n] != '-',
    ensures
        number_len(s) == n,
    decreases n,
{
    if n > 0 {
        assert(is_digit(s[0]) || s[0] == '-');
        assert forall|k: int| 0 <= k < n - 1 implies is_digit(#[trigger] s.skip(1)[k]) || s.skip(
            1,
        )[k] == '-' by {
            assert(s.skip(1)[k] == s[k + 1]);
        }
        lemma_number_ends(s.skip(1), n - 1);
    }
}

/// The first place is the one that no other comes before.
proof fn lemma_first_at(s: Seq<char>, needle: Seq<char>, from: int, at: int)
    requires
        0 <= from <= at,
        occurs_at(s, needle, at),
        forall|k: int| from <= k < at ==> !#[trigger] occurs_at(s, needle, k),
    ensures
        first_at(s, needle, from) == Some(at),
    decreases at - from,
{
    if from < at {
        assert(!occurs_at(s, needle, from));
        lemma_first_at(s, needle, from + 1, at);
    }
}

/// The integer that stands behind a key, and before something else, is read.
proof fn lemma_field(s: Seq<char>, needle: Seq<char>, at: int, v: i64, post: Seq<char>)
    requires
        first_at(s, needle, 0) == Some(at),
        s.skip(at + needle.len()) == dec_int(v as int) + post,
        post.len() > 0,
        !is_digit(post[0]) && post[0] != '-',
    ensures
        field_value(s, needle) == Some(v),
{
    let d = dec_int(v as int);
    let n = d.len() as int;
    let rest = d + post;
    lemma_dec_int_chars(v as int);
    lemma_dec_int_read_back(v);
    assert(rest[0] == d[0]);
    assert(!is_space(rest[0]));
    assert(trimmed_start(rest) == rest);
    assert forall|k: int| 0 <= k < n implies is_digit(#[trigger] rest[k]) || rest[k] == '-' by {
        assert(rest[k] == d[k]);
    }
    assert(rest[n] == post[0]);
    lemma_number_ends(rest, n);
    assert(rest.take(n) =~= d);
}

/// Where the keys stand in the text of the inputs.
proof fn lemma_keys_in_text(dx: Seq<char>, tail: Seq<char>)
    requires
        forall|k: int| 0 <= k < dx.len() ==> is_digit(#[trigger] dx[k]) || dx[k] == '-',
    ensures
        first_at("{\"x\":"@ + dx + ",\"y\":"@ + tail, "\"x\":"@, 0) == Some(1int),
        first_at("{\"x\":"@ + dx + ",\"y\":"@ + tail, "\"y\":"@, 0) == Some(6 + dx.len() as int),
{
    reveal_strlit("{\"x\":");
    reveal_strlit("\"x\":");
    reveal_strlit(",\"y\":");
    reveal_strlit("\"y\":");
    let s = "{\"x\":"@ + dx + ",\"y\":"@ + tail;
    let nx = "\"x\":"@;
    let ny = "\"y\":"@;
    let n = dx.len() as int;
    assert(s.subrange(1, 5) =~= nx);
    assert(!occurs_at(s, nx, 0)) by {
        assert(s.subrange(0, 4)[0] == '{');
    }
    lemma_first_at(s, nx, 0, 1);
    assert(s.subrange(6 + n, 10 + n) =~= ny);
    assert forall|k: int| 0 <= k < 6 + n implies !#[trigger] occurs_at(s, ny, k) by {
        let part = s.subrange(k, k + 4);
        assert(part[0] == s[k] && part[1] == s[k + 1]);
        if 5 <= k < 5 + n {
            assert(s[k] == dx[k - 5]);
        }
    }
    lemma_first_at(s, ny, 0, 6 + n);
}

/// Reading gives back the inputs that were written.
pub proof fn law_xy_read_back(x: i64, y: i64)
    ensures
        xy_read(xy_text(x, y)) == Ok::<(i64, i64), Seq<char>>((x, y)),
{
    let dx = dec_int(x as int);
    let dy = dec_int(y as int);
    let s = xy_text(x, y);
    lemma_dec_int_chars(x as int);
    assert(s =~= "{\"x\":"@ + dx + ",\"y\":"@ + (dy + "}"@));
    lemma_keys_in_text(dx, dy + "}"@);
    assert("{\"x\":"@.len() == 5 && "\"x\":"@.len() == 4 && ",\"y\":"@.len() == 5
        && "\"y\":"@.len() == 4 && ",\"y\":"@[0] == ',' && "}"@.len() == 1 && "}"@[0] == '}') by {
        reveal_strlit("{\"x\":");
        reveal_strlit("\"x\":");
        reveal_strlit(",\"y\":");
        reveal_strlit("\"y\":");
        reveal_strlit("}");
    }
    let px = ",\"y\":"@ + dy + "}"@;
    assert(s.skip(5) =~= dx + px);
    assert(px[0] == ',');
    lemma_field(s, "\"x\":"@, 1, x, px);
    assert(s.skip(10 + dx.len() as int) =~= dy + "}"@);
    lemma_field(s, "\"y\":"@, 6 + dx.len() as int, y, "}"@);
}

/// What is computed is the cube of `x` and five times `y`; it can be if and only if `x` has at most
/// 21 bits beside its sign, five times `y` has at most 63, and so has the sum.
pub proof fn law_value_is_cube_and_five_times(x: i64, y: i64)
    ensures
        value(x as int, y as int) == x * x * x + 5 * y,
        fits(x, y) <==> -0x20_0000 <= x < 0x20_0000 && -1844674407370955161 <= y
            <= 1844674407370955161 && -0x8000_0000_0000_0000 <= x * x * x + 5 * y
            <= 0x7fff_ffff_ffff_ffff,
        value(0, 0) == 0,
        value(-x, -y) == -value(x as int, y as int),
        value(x as int, y + 1) == value(x as int, y as int) + 5,
        value(x + 1, y as int) - value(x as int, y as int) == 3 * (x * x) + 3 * x + 1,
{
    lemma_cube_fits(x);
    let a = x as int;
    let b = y as int;
    assert((-a) * (-a) * (-a) == -(a * a * a)) by (nonlinear_arith);
    assert((a + 1) * (a + 1) * (a + 1) == a * a * a + 3 * (a * a) + 3 * a + 1) by (nonlinear_arith);
}

/// Behind the first place where a name stands, white space is passed over and the digits and minus
/// signs that follow are read, up to the first other character or the end.
pub proof fn law_field_is_read_behind_its_name(
    before: Seq<char>,
    needle: Seq<char>,
    space: Seq<char>,
    number: Seq<char>,
    after: Seq<char>,
)
    requires
        ({
            let s = before + needle + space + number + after;
            forall|k: int| 0 <= k < before.len() ==> !#[trigger] occurs_at(s, needle, k)
        }),
        all_space(space),
        number.len() > 0,
        forall|k: int|
            0 <= k < number.len() ==> '0' <= (#[trigger] number[k]) <= '9' || number[k] == '-',
        after.len() > 0 ==> !('0' <= after[0] <= '9') && after[0] != '-',
    ensures
        field_value(before + needle + space + number + after, needle) == i64_written(number),
{
    let s = before + needle + space + number + after;
    let at = before.len() as int;
    assert(s.subrange(at, at + needle.len()) =~= needle);
    lemma_first_at(s, needle, 0, at);
    let rest = number + after;
    assert(s.skip(at + needle.len()) =~= space + number + after);
    assert(s.skip(at + needle.len()) =~= space + rest + Seq::<char>::empty());
    assert(rest[0] == number[0]);
    assert(!is_space(rest[0]));
    lemma_space_is_dropped(space, rest);
    lemma_number_is_taken(number, after);
    assert(rest.take(number.len() as int) =~= number);
}

/// White space at the start is dropped.
proof fn lemma_space_is_dropped(space: Seq<char>, rest: Seq<char>)
    requires
        all_space(space),
        rest.len() > 0 && !is_space(rest[0]),
    ensures
        trimmed_start(space + rest + Seq::<char>::empty()) == rest,
    decreases space.len(),
{
    let s = space + rest + Seq::<char>::empty();
    if space.len() == 0 {
        assert(s =~= rest);
    } else {
        assert(s[0] == space[0] && is_space(space[0]));
        assert(s.skip(1) =~= space.skip(1) + rest + Seq::<char>::empty());
        assert forall|i: int| 0 <= i < space.skip(1).len() implies is_space(
            #[trigger] space.skip(1)[i],
        ) by {
            assert(is_space(space[i + 1]));
        }
        lemma_space_is_dropped(space.skip(1), rest);
    }
}

/// A number is as long as its digits and minus signs.
proof fn lemma_number_is_taken(number: Seq<char>, after: Seq<char>)
    requires
        forall|k: int|
            0 <= k < number.len() ==> '0' <= (#[trigger] number[k]) <= '9' || number[k] == '-',
        after.len() > 0 ==> !('0' <= after[0] <= '9') && after[0] != '-',
    ensures
        number_len(number + after) == number.len(),
    decreases number.len(),
{
    let s = number + after;
    if number.len() == 0 {
        assert(s =~= after);
    } else {
        assert(s[0] == number[0]);
        assert(s.skip(1) =~= number.skip(1) + after);
        assert forall|k: int| 0 <= k < number.skip(1).len() implies '0' <= (
        #[trigger] number.skip(1)[k]) <= '9' || number.skip(1)[k] == '-' by {
            assert(number.skip(1)[k] == number[k + 1]);
        }
        lemma_number_is_taken(number.skip(1), after);
    }
}

/// Where a name does not stand, nothing is read. The inputs are what is read behind the names of
/// both; what is missing is told, `x` first, with the whole text.
pub proof fn law_inputs_are_read_by_name(s: Seq<char>)
    ensures
        ({
            let x = field_value(s, "\"x\":"@);
            let y = field_value(s, "\"y\":"@);
            &&& ((forall|k: int| !#[trigger] occurs_at(s, "\"x\":"@, k)) ==> x is None)
            &&& ((forall|k: int| !#[trigger] occurs_at(s, "\"y\":"@, k)) ==> y is None)
            &&& (x is None ==> xy_read(s) == Err::<(i64, i64), Seq<char>>(
                "missing x in plaintext: "@ + s,
            ))
            &&& (x is Some && y is None ==> xy_read(s) == Err::<(i64, i64), Seq<char>>(
                "missing y in plaintext: "@ + s,
            ))
            &&& (x is Some && y is Some ==> xy_read(s) == Ok::<(i64, i64), Seq<char>>(
                (x->0, y->0),
            ))
        }),
{
    law_found_place_is_the_first(s, "\"x\":"@, 0);
    law_found_place_is_the_first(s, "\"y\":"@, 0);
    if let Some(i) = first_at(s, "\"x\":"@, 0) {
        assert(occurs_at(s, "\"x\":"@, i));
    }
    if let Some(i) = first_at(s, "\"y\":"@, 0) {
        assert(occurs_at(s, "\"y\":"@, i));
    }
}

} // verus!
