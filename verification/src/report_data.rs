//! What an enclave report vouches for: a public key, its version and a nonce.

use vstd::prelude::*;

use crate::bytes::{
    append, law_number_is_cut_to_its_bytes, le, le_value, lemma_le_injective, lemma_le_len,
    lemma_pow256, push_le,
};
use crate::frame::{ATTESTATION_CACHE_TTL_SECS, PROTOCOL_VERSION};
use crate::outside::{sha256, sha256_digest};
use crate::text::{dec, dec_int, law_integers_are_written_in_decimal, push_u64};
use crate::views::optional;

verus! {

/// What is hashed: protocol version, key version, and key and nonce with their lengths.
pub open spec fn binding_preimage(key_version: u64, public_key: Seq<u8>, nonce: Seq<u8>) -> Seq<u8> {
    le(PROTOCOL_VERSION as nat, 2) + le(key_version as nat, 8) + le(public_key.len(), 2)
        + public_key + le(nonce.len(), 1) + nonce
}

/// The report data that binds a key and a nonce: the hash, then 32 zero bytes.
pub open spec fn report_data_for(key_version: u64, public_key: Seq<u8>, nonce: Seq<u8>) -> Seq<u8> {
    sha256(binding_preimage(key_version, public_key, nonce)) + Seq::new(32, |i: int| 0u8)
}

/// A digest with 32 zero bytes behind it.
fn zero_padded(digest: &[u8; 32]) -> (out: [u8; 64])
    ensures
        out@ == digest@ + Seq::new(32, |i: int| 0u8),
{
    let mut out = [0u8; 64];
    let mut i: usize = 0;
    while i < 32
        invariant
            i <= 32,
            forall|j: int| 0 <= j < i ==> out@[j] == digest@[j],
            forall|j: int| i <= j < 64 ==> out@[j] == 0,
        decreases 32 - i,
    {
        out[i] = digest[i];
        i = i + 1;
    }
    assert(out@ =~= digest@ + Seq::new(32, |i: int| 0u8));
    out
}

/// The report data that binds a key and a nonce to each other:
///
/// ```text
/// digest = SHA256(
///     protocol_version : u16 LE
///   || key_version      : u64 LE
///   || pubkey_len       : u16 LE
///   || public_key_bytes : [u8]
///   || nonce_len        : u8
///   || nonce            : [u8]    // nonce_len = 0 if there is no nonce
/// )
/// REPORTDATA = digest[0..32] || [0u8; 32]
/// ```
///
/// The lengths are cut to the bytes that they have.
pub fn report_data_binding(key_version: u64, public_key: &[u8], nonce: &[u8]) -> (out: [u8; 64])
    ensures
        out@ == report_data_for(key_version, public_key@, nonce@),
{
    let mut input: Vec<u8> = Vec::new();
    push_le(&mut input, PROTOCOL_VERSION as u64, 2);
    push_le(&mut input, key_version, 8);
    push_le(&mut input, public_key.len() as u64, 2);
    append(&mut input, public_key);
    push_le(&mut input, nonce.len() as u64, 1);
    append(&mut input, nonce);
    assert(input@ =~= binding_preimage(key_version, public_key@, nonce@));
    zero_padded(&sha256_digest(input.as_slice()))
}

/// The report data that a nonce alone has.
pub open spec fn nonce_report_data(nonce: Seq<u8>) -> Seq<u8> {
    sha256(le(PROTOCOL_VERSION as nat, 2) + nonce) + Seq::new(32, |i: int| 0u8)
}

/// The simple binding of a nonce alone, kept for comparison: the hash of the protocol version (two
/// bytes, the lowest first) and the nonce, then 32 zero bytes. It binds no key: for that there is
/// [`report_data_binding`].
pub fn report_data_from_nonce(nonce: &[u8]) -> (out: [u8; 64])
    ensures
        out@ == nonce_report_data(nonce@),
{
    let mut input: Vec<u8> = Vec::new();
    push_le(&mut input, PROTOCOL_VERSION as u64, 2);
    append(&mut input, nonce);
    assert(input@ =~= le(PROTOCOL_VERSION as nat, 2) + nonce@);
    zero_padded(&sha256_digest(input.as_slice()))
}

/// What is hashed tells key version, key and nonce apart, as long as their lengths fit in the
/// bytes that they have.
pub proof fn law_preimage_injective(
    v1: u64,
    pk1: Seq<u8>,
    nonce1: Seq<u8>,
    v2: u64,
    pk2: Seq<u8>,
    nonce2: Seq<u8>,
)
    requires
        pk1.len() < 0x1_0000,
        pk2.len() < 0x1_0000,
        nonce1.len() < 0x100,
        nonce2.len() < 0x100,
        binding_preimage(v1, pk1, nonce1) == binding_preimage(v2, pk2, nonce2),
    ensures
        v1 == v2,
        pk1 == pk2,
        nonce1 == nonce2,
{
    broadcast use lemma_le_len;

    lemma_pow256();
    let a = binding_preimage(v1, pk1, nonce1);
    let b = binding_preimage(v2, pk2, nonce2);
    assert(a.subrange(2, 10) =~= le(v1 as nat, 8));
    assert(b.subrange(2, 10) =~= le(v2 as nat, 8));
    lemma_le_injective(v1 as nat, v2 as nat, 8);
    assert(a.subrange(10, 12) =~= le(pk1.len(), 2));
    assert(b.subrange(10, 12) =~= le(pk2.len(), 2));
    lemma_le_injective(pk1.len(), pk2.len(), 2);
    let end = 12 + pk1.len() as int;
    assert(a.subrange(12, end) =~= pk1);
    assert(b.subrange(12, end) =~= pk2);
    assert(a.subrange(end + 1, a.len() as int) =~= nonce1);
    assert(b.subrange(end + 1, b.len() as int) =~= nonce2);
}

/// Two different bindings with the same report data would be a collision of SHA-256.
pub proof fn law_report_data_binds(
    v1: u64,
    pk1: Seq<u8>,
    nonce1: Seq<u8>,
    v2: u64,
    pk2: Seq<u8>,
    nonce2: Seq<u8>,
)
    requires
        pk1.len() < 0x1_0000,
        pk2.len() < 0x1_0000,
        nonce1.len() < 0x100,
        nonce2.len() < 0x100,
        report_data_for(v1, pk1, nonce1) == report_data_for(v2, pk2, nonce2),
        v1 != v2 || pk1 != pk2 || nonce1 != nonce2,
    ensures
        binding_preimage(v1, pk1, nonce1) != binding_preimage(v2, pk2, nonce2),
        sha256(binding_preimage(v1, pk1, nonce1)) == sha256(binding_preimage(v2, pk2, nonce2)),
{
    if binding_preimage(v1, pk1, nonce1) == binding_preimage(v2, pk2, nonce2) {
        law_preimage_injective(v1, pk1, nonce1, v2, pk2, nonce2);
    }
    let a = report_data_for(v1, pk1, nonce1);
    let b = report_data_for(v2, pk2, nonce2);
    assert(a.take(a.len() - 32) =~= sha256(binding_preimage(v1, pk1, nonce1)));
    assert(b.take(b.len() - 32) =~= sha256(binding_preimage(v2, pk2, nonce2)));
}

/// A JSON field with a text, and a comma behind it.
pub open spec fn text_field(open: Seq<char>, value: Option<Seq<char>>) -> Seq<char> {
    match value {
        Some(s) => open + s + "\","@,
        None => Seq::empty(),
    }
}

/// What the attestation cache holds.
pub open spec fn cache_text(
    quote: Seq<char>,
    key_version: u64,
    public_key: Seq<char>,
    binding_nonce: Option<Seq<char>>,
    report_data: Option<Seq<char>>,
    generated_at: u64,
    sequence: u64,
) -> Seq<char> {
    let expires_at: nat = if generated_at + ATTESTATION_CACHE_TTL_SECS > u64::MAX {
        u64::MAX as nat
    } else {
        (generated_at + ATTESTATION_CACHE_TTL_SECS) as nat
    };
    "{\"v\":"@ + dec(PROTOCOL_VERSION as nat) + ",\"quote_type\":\"ecdsa\",\"quote\":\""@ + quote
        + "\",\"key_version\":"@ + dec(key_version as nat) + ",\"public_key\":\""@ + public_key
        + "\","@ + text_field("\"binding_nonce\":\""@, binding_nonce) + text_field(
        "\"report_data\":\""@,
        report_data,
    ) + "\"generated_at\":"@ + dec(generated_at as nat) + ",\"expires_at\":"@ + dec(expires_at)
        + ",\"sequence\":"@ + dec(sequence as nat) + "}"@
}

/// Appends a JSON field with a text, if there is one.
fn push_text_field(out: &mut String, open: &str, value: Option<&str>)
    ensures
        final(out)@ == old(out)@ + text_field(open@, optional(value)),
{
    match value {
        Some(s) => {
            out.append(open);
            out.append(s);
            out.append("\",");
        },
        None => {},
    }
    assert(out@ =~= old(out)@ + text_field(open@, optional(value)));
}

/// The attestation cache. Whoever reads it gets no reason to trust the key in it: that takes a
/// verified quote.
pub fn attestation_cache_json(
    quote_b64: &str,
    key_version: u64,
    public_key_b64: &str,
    binding_nonce_b64: Option<&str>,
    report_data_b64: Option<&str>,
    generated_at: u64,
    sequence: u64,
) -> (out: String)
    ensures
        out@ == cache_text(
            quote_b64@,
            key_version,
            public_key_b64@,
            optional(binding_nonce_b64),
            optional(report_data_b64),
            generated_at,
            sequence,
        ),
{
    let expires_at: u64 = generated_at.saturating_add(ATTESTATION_CACHE_TTL_SECS);
    let mut out = "{\"v\":".to_owned();
    push_u64(&mut out, PROTOCOL_VERSION as u64);
    out.append(",\"quote_type\":\"ecdsa\",\"quote\":\"");
    out.append(quote_b64);
    out.append("\",\"key_version\":");
    push_u64(&mut out, key_version);
    out.append(",\"public_key\":\"");
    out.append(public_key_b64);
    out.append("\",");
    push_text_field(&mut out, "\"binding_nonce\":\"", binding_nonce_b64);
    push_text_field(&mut out, "\"report_data\":\"", report_data_b64);
    out.append("\"generated_at\":");
    push_u64(&mut out, generated_at);
    out.append(",\"expires_at\":");
    push_u64(&mut out, expires_at);
    out.append(",\"sequence\":");
    push_u64(&mut out, sequence);
    out.append("}");
    out
}

/// What is hashed, place by place: the protocol's version, the key's version, the length of the key
/// and the key, the length of the nonce and the nonce. Lengths are cut to two bytes and to one.
pub proof fn law_preimage_has_its_places(key_version: u64, public_key: Seq<u8>, nonce: Seq<u8>)
    ensures
        ({
            let p = binding_preimage(key_version, public_key, nonce);
            let n = public_key.len() as int;
            &&& p.len() == 13 + n + nonce.len()
            &&& le_value(p.subrange(0, 2)) == 1
            &&& le_value(p.subrange(2, 10)) == key_version
            &&& le_value(p.subrange(10, 12)) == n % 0x1_0000
            &&& p.subrange(12, 12 + n) == public_key
            &&& p[12 + n] == nonce.len() % 0x100
            &&& p.skip(13 + n) == nonce
        }),
{
    broadcast use lemma_le_len;

    lemma_pow256();
    let p = binding_preimage(key_version, public_key, nonce);
    let n = public_key.len() as int;
    law_number_is_cut_to_its_bytes(1, 2);
    law_number_is_cut_to_its_bytes(key_version as nat, 8);
    law_number_is_cut_to_its_bytes(public_key.len(), 2);
    assert(p.subrange(0, 2) =~= le(1, 2));
    assert(p.subrange(2, 10) =~= le(key_version as nat, 8));
    assert(p.subrange(10, 12) =~= le(public_key.len(), 2));
    assert(p.subrange(12, 12 + n) =~= public_key);
    assert(p[12 + n] == le(nonce.len(), 1)[0]);
    assert(p.skip(13 + n) =~= nonce);
}

/// Report data is the hash of what is bound, and 32 zero bytes behind it.
pub proof fn law_report_data_is_hash_and_zeros(key_version: u64, public_key: Seq<u8>, nonce: Seq<u8>)
    ensures
        ({
            let r = report_data_for(key_version, public_key, nonce);
            let h = sha256(binding_preimage(key_version, public_key, nonce));
            &&& r.len() == h.len() + 32
            &&& r.take(h.len() as int) == h
            &&& forall|i: int| h.len() <= i < r.len() ==> #[trigger] r[i] == 0
        }),
{
    let r = report_data_for(key_version, public_key, nonce);
    let h = sha256(binding_preimage(key_version, public_key, nonce));
    assert(r.take(h.len() as int) =~= h);
}

/// A field of the cache is there if and only if there is a value for it.
pub open spec fn field_or_nothing(f: Seq<char>, name: Seq<char>, value: Option<Seq<char>>) -> bool {
    match value {
        Some(v) => f == "\""@ + name + "\":\""@ + v + "\","@,
        None => f.len() == 0,
    }
}

/// The attestation cache tells the quote, the key and its version, then the nonce and the report
/// data where they are there, then when it was made, that it expires an hour later, and its number.
pub proof fn law_cache_tells_what_was_attested(
    quote: Seq<char>,
    key_version: u64,
    public_key: Seq<char>,
    binding_nonce: Option<Seq<char>>,
    report_data: Option<Seq<char>>,
    generated_at: u64,
    sequence: u64,
)
    ensures
        exists|nonce_field: Seq<char>, report_data_field: Seq<char>|
            {
                &&& #[trigger] field_or_nothing(nonce_field, "binding_nonce"@, binding_nonce)
                &&& #[trigger] field_or_nothing(report_data_field, "report_data"@, report_data)
                &&& cache_text(
                    quote,
                    key_version,
                    public_key,
                    binding_nonce,
                    report_data,
                    generated_at,
                    sequence,
                ) == "{\"v\":1,\"quote_type\":\"ecdsa\",\"quote\":\""@ + quote
                    + "\",\"key_version\":"@ + dec_int(key_version as int) + ",\"public_key\":\""@
                    + public_key + "\","@ + nonce_field + report_data_field + "\"generated_at\":"@
                    + dec_int(generated_at as int) + ",\"expires_at\":"@ + dec_int(
                    if generated_at <= 0xffff_ffff_ffff_ffff - 3600 {
                        generated_at + 3600
                    } else {
                        0xffff_ffff_ffff_ffff
                    },
                ) + ",\"sequence\":"@ + dec_int(sequence as int) + "}"@
            },
{
    let expires: nat = if generated_at + 3600 > u64::MAX {
        u64::MAX as nat
    } else {
        (generated_at + 3600) as nat
    };
    law_integers_are_written_in_decimal(key_version as int);
    law_integers_are_written_in_decimal(generated_at as int);
    law_integers_are_written_in_decimal(expires as int);
    law_integers_are_written_in_decimal(sequence as int);
    reveal_strlit("{\"v\":");
    reveal_strlit(",\"quote_type\":\"ecdsa\",\"quote\":\"");
    reveal_strlit("{\"v\":1,\"quote_type\":\"ecdsa\",\"quote\":\"");
    reveal_strlit("\"");
    reveal_strlit("binding_nonce");
    reveal_strlit("report_data");
    reveal_strlit("\":\"");
    reveal_strlit("\"binding_nonce\":\"");
    reveal_strlit("\"report_data\":\"");
    assert("{\"v\":1,\"quote_type\":\"ecdsa\",\"quote\":\""@ =~= "{\"v\":"@ + dec(1)
        + ",\"quote_type\":\"ecdsa\",\"quote\":\""@);
    assert("\""@ + "binding_nonce"@ + "\":\""@ =~= "\"binding_nonce\":\""@);
    assert("\""@ + "report_data"@ + "\":\""@ =~= "\"report_data\":\""@);
    assert(field_or_nothing(
        text_field("\"binding_nonce\":\""@, binding_nonce),
        "binding_nonce"@,
        binding_nonce,
    ));
    assert(field_or_nothing(
        text_field("\"report_data\":\""@, report_data),
        "report_data"@,
        report_data,
    ));
}

/// The report data of a nonce alone is the hash of a one, a zero and the nonce, and then 32 zeros.
pub proof fn law_nonce_is_hashed_behind_the_version(nonce: Seq<u8>)
    ensures
        nonce_report_data(nonce) == sha256(seq![1u8, 0u8] + nonce) + seq![0u8; 32],
{
    assert(le(0, 0) =~= Seq::empty());
    assert(le(0, 1) =~= seq![0u8]);
    assert(le(1, 2) =~= seq![1u8, 0u8]);
    assert(Seq::new(32, |i: int| 0u8) =~= seq![0u8; 32]);
}

} // verus!
