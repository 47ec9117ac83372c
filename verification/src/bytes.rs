//! Little-endian numbers and rows of bytes.

use vstd::prelude::*;

verus! {

/// The low `width` bytes of a number, the lowest first.
pub open spec fn le(n: nat, width: nat) -> Seq<u8>
    decreases width,
{
    if width == 0 {
        Seq::empty()
    } else {
        seq![(n % 256) as u8] + le(n / 256, (width - 1) as nat)
    }
}

/// The number that a row of bytes writes, the lowest byte first.
pub open spec fn le_value(s: Seq<u8>) -> nat
    decreases s.len(),
{
    if s.len() == 0 {
        0
    } else {
        s[0] as nat + 256 * le_value(s.skip(1))
    }
}

/// How many numbers fit in `width` bytes.
pub open spec fn pow256(width: nat) -> nat
    decreases width,
{
    if width == 0 {
        1
    } else {
        256 * pow256((width - 1) as nat)
    }
}

/// A number takes as many bytes as it is given.
pub broadcast proof fn lemma_le_len(n: nat, width: nat)
    ensures
        #[trigger] le(n, width).len() == width,
    decreases width,
{
    if width > 0 {
        lemma_le_len(n / 256, (width - 1) as nat);
    }
}

/// A row of bytes writes a number that fits in as many bytes.
pub proof fn lemma_le_value_bound(s: Seq<u8>)
    ensures
        le_value(s) < pow256(s.len()),
    decreases s.len(),
{
    if s.len() > 0 {
        lemma_le_value_bound(s.skip(1));
    }
}

/// A number that fits is read back from its bytes.
pub proof fn lemma_le_read_back(n: nat, width: nat)
    requires
        n < pow256(width),
    ensures
        le_value(le(n, width)) == n,
    decreases width,
{
    if width > 0 {
        let w = (width - 1) as nat;
        lemma_le_read_back(n / 256, w);
        assert(le(n, width).skip(1) =~= le(n / 256, w));
        assert(le(n, width)[0] == (n % 256) as u8);
    }
}

/// Bytes are read back from the number that they write.
pub proof fn lemma_le_write_back(s: Seq<u8>)
    ensures
        le(le_value(s), s.len()) == s,
    decreases s.len(),
{
    if s.len() > 0 {
        lemma_le_write_back(s.skip(1));
        let n = le_value(s);
        assert(n % 256 == s[0] as nat);
        assert(n / 256 == le_value(s.skip(1)));
        assert(le(n, s.len()) =~= s);
    } else {
        assert(le(le_value(s), s.len()) =~= s);
    }
}

/// Two numbers that fit and have the same bytes are the same.
pub proof fn lemma_le_injective(m: nat, n: nat, width: nat)
    requires
        m < pow256(width),
        n < pow256(width),
        le(m, width) == le(n, width),
    ensures
        m == n,
{
    lemma_le_read_back(m, width);
    lemma_le_read_back(n, width);
}

/// The widths that the formats of this crate use.
pub proof fn lemma_pow256()
    ensures
        pow256(1) == 0x100,
        pow256(2) == 0x1_0000,
        pow256(4) == 0x1_0000_0000,
        pow256(8) == 0x1_0000_0000_0000_0000,
{
    reveal_with_fuel(pow256, 9);
}

/// Appends bytes.
pub fn append(out: &mut Vec<u8>, more: &[u8])
    ensures
        final(out)@ == old(out)@ + more@,
{
    out.extend_from_slice(more);
    assert(out@ =~= old(out)@ + more@);
}

/// Appends the low `width` bytes of a number.
pub fn push_le(out: &mut Vec<u8>, n: u64, width: usize)
    ensures
        final(out)@ == old(out)@ + le(n as nat, width as nat),
    decreases width,
{
    if width > 0 {
        out.push((n % 256) as u8);
        push_le(out, n / 256, width - 1);
    }
    assert(out@ =~= old(out)@ + le(n as nat, width as nat));
}

/// Reads the number that stands in `width` bytes from `from` on.
pub fn read_le(bytes: &[u8], from: usize, width: usize) -> (n: u64)
    requires
        width <= 8,
        from + width <= bytes.len(),
    ensures
        n == le_value(bytes@.subrange(from as int, from + width)),
    decreases width,
{
    if width == 0 {
        return 0;
    }
    let ghost part = bytes@.subrange(from as int, from + width);
    proof {
        lemma_le_value_bound(part);
        lemma_le_value_bound(part.skip(1));
        reveal_with_fuel(pow256, 9);
        assert(part.skip(1) =~= bytes@.subrange(from + 1, from + width));
    }
    let rest: u64 = read_le(bytes, from + 1, width - 1);
    bytes[from] as u64 + 256 * rest
}

/// Copies the bytes from `from` up to `to`.
pub fn part(bytes: &[u8], from: usize, to: usize) -> (out: Vec<u8>)
    requires
        from <= to <= bytes@.len(),
    ensures
        out@ == bytes@.subrange(from as int, to as int),
{
    let mut out: Vec<u8> = Vec::with_capacity(to - from);
    append(&mut out, &bytes[from..to]);
    assert(out@ =~= bytes@.subrange(from as int, to as int));
    out
}

/// Copies all the bytes.
pub fn copy(bytes: &[u8]) -> (out: Vec<u8>)
    ensures
        out@ == bytes@,
{
    let mut out: Vec<u8> = Vec::with_capacity(bytes.len());
    append(&mut out, bytes);
    assert(out@ =~= bytes@);
    out
}

/// Whether two rows of bytes are the same.
pub fn same_bytes(a: &[u8], b: &[u8]) -> (same: bool)
    ensures
        same == (a@ == b@),
{
    if a.len() != b.len() {
        return false;
    }
    let mut i: usize = 0;
    while i < a.len()
        invariant
            i <= a@.len(),
            a@.len() == b@.len(),
            forall|j: int| 0 <= j < i ==> a@[j] == b@[j],
        decreases a@.len() - i,
    {
        if a[i] != b[i] {
            assert(a@[i as int] != b@[i as int]);
            return false;
        }
        i = i + 1;
    }
    assert(a@ =~= b@);
    true
}

/// The bytes from `from` on, as an array.
pub fn array_at<const N: usize>(bytes: &[u8], from: usize) -> (out: [u8; N])
    requires
        from + N <= bytes.len(),
    ensures
        out@ == bytes@.subrange(from as int, from + N),
{
    let mut out = [0u8; N];
    let mut i: usize = 0;
    while i < N
        invariant
            i <= N,
            from + N <= bytes.len(),
            forall|j: int| 0 <= j < i ==> out@[j] == bytes@[from + j],
        decreases N - i,
    {
        out[i] = bytes[from + i];
        i = i + 1;
    }
    assert(out@ =~= bytes@.subrange(from as int, from + N));
    out
}

/// A byte counts by its place: each place to the right counts 256 times as much.
pub proof fn law_bytes_count_by_place(s: Seq<u8>, b: u8)
    ensures
        le_value(s.push(b)) == le_value(s) + pow256(s.len()) * b,
    decreases s.len(),
{
    let t = s.push(b);
    if s.len() == 0 {
        assert(t.skip(1) =~= Seq::empty());
        assert(t[0] == b);
        let p = pow256(0) as int;
        let v = b as int;
        assert(p * v == v) by (nonlinear_arith)
            requires
                p == 1,
        ;
        assert(le_value(t.skip(1)) == 0);
    } else {
        assert(t.skip(1) =~= s.skip(1).push(b));
        law_bytes_count_by_place(s.skip(1), b);
        let p = pow256((s.len() - 1) as nat) as int;
        let v = b as int;
        assert(256 * (p * v) == (256 * p) * v) by (nonlinear_arith);
    }
}

/// The bytes of a number write the number, as far as it fits: what does not fit is cut off.
pub proof fn law_number_is_cut_to_its_bytes(n: nat, width: nat)
    ensures
        le(n, width).len() == width,
        le_value(le(n, width)) == n % pow256(width),
        pow256(width) > 0,
    decreases width,
{
    if width == 0 {
    } else {
        let w = (width - 1) as nat;
        law_number_is_cut_to_its_bytes(n / 256, w);
        lemma_le_len(n, width);
        assert(le(n, width).skip(1) =~= le(n / 256, w));
        assert(le(n, width)[0] == (n % 256) as u8);
        let p = pow256(w) as int;
        let m = n as int;
        vstd::arithmetic::div_mod::lemma_mod_breakdown(m, 256, p);
    }
}

} // verus!
