//! HPKE with P-256, HKDF-SHA256 and AES-GCM-128 (RFC 9180).
//!
//! A ciphertext, before base64:
//!
//! ```text
//! enc_len : u16 LE
//! enc     : encapsulated key (65 bytes for P-256)
//! ciphertext || tag
//! ```

use vstd::prelude::*;
use vstd::utf8::encode_utf8;

use crate::bytes::{
    append, le, le_value, lemma_le_len, lemma_le_read_back, lemma_le_value_bound, lemma_pow256,
    push_le, read_le,
};
use crate::outside::{
    hpke_check_encapped_key, hpke_check_private_key, hpke_check_public_key, hpke_encapped_key,
    hpke_generate, hpke_open, hpke_opened, hpke_pair, hpke_private_key, hpke_public_key, hpke_seal,
    key_verdict, within_gcm_limit,
};
use crate::text::{
    dec, dec_int, law_integers_are_written_in_decimal, law_numbers_are_told_apart, push_u64,
    with_text,
};
use crate::views::outcome;

verus! {

/// What every ciphertext of this protocol is bound to.
pub const HPKE_INFO: &'static str = "tee-demo/hpke-p256/v1";

/// The associated data of a request.
pub open spec fn aad_text(v: u16, id: u64, op: Seq<char>, key_version: u64) -> Seq<char> {
    "{\"v\":"@ + dec(v as nat) + ",\"id\":"@ + dec(id as nat) + ",\"op\":\""@ + op
        + "\",\"key_version\":"@ + dec(key_version as nat) + "}"@
}

/// The associated data of a request: `{"v":1,"id":42,"op":"compute","key_version":5}`.
pub fn aad_json(v: u16, id: u64, op: &str, key_version: u64) -> (out: String)
    ensures
        out@ == aad_text(v, id, op@, key_version),
{
    let mut out = "{\"v\":".to_owned();
    push_u64(&mut out, v as u64);
    out.append(",\"id\":");
    push_u64(&mut out, id);
    out.append(",\"op\":\"");
    out.append(op);
    out.append("\",\"key_version\":");
    push_u64(&mut out, key_version);
    out.append("}");
    out
}

/// A fresh key pair: the public key, an uncompressed point, then the private key. It never fails.
pub fn generate_keypair() -> (out: Result<(Vec<u8>, Vec<u8>), String>)
    ensures
        out matches Ok(pair) && hpke_pair(pair.0@, pair.1@) && pair.0@[0] == 4,
{
    Ok(hpke_generate())
}

/// What a private key makes of a ciphertext and its associated data.
pub open spec fn opened(private_key: Seq<u8>, ct: Seq<u8>, aad: Seq<u8>) -> Result<
    Seq<u8>,
    Seq<char>,
> {
    let enc_len = le_value(ct.take(2)) as int;
    let enc = ct.subrange(2, 2 + enc_len);
    if ct.len() < 2 {
        Err("ct too short"@)
    } else if ct.len() < 2 + enc_len {
        Err("ct truncated"@)
    } else {
        match (
            key_verdict(32, private_key, hpke_private_key(private_key)),
            key_verdict(65, enc, hpke_encapped_key(enc)),
        ) {
            (Err(e), _) => Err("invalid hpke private key: "@ + e),
            (Ok(_), Err(e)) => Err("invalid hpke encapsulated key: "@ + e),
            (Ok(_), Ok(_)) => match hpke_opened(
                private_key,
                enc,
                encode_utf8(HPKE_INFO@),
                ct.skip(2 + enc_len),
                aad,
            ) {
                Some(plaintext) => Ok(plaintext),
                None => Err("hpke open: Failed to open ciphertext"@),
            },
        }
    }
}

/// Whether every private key that belongs to the public key opens the ciphertext to the plaintext.
pub open spec fn sealed_to(
    public_key: Seq<u8>,
    ct: Seq<u8>,
    aad: Seq<u8>,
    plaintext: Seq<u8>,
) -> bool {
    forall|sk: Seq<u8>| #[trigger]
        hpke_pair(public_key, sk) ==> opened(sk, ct, aad) == Ok::<Seq<u8>, Seq<char>>(plaintext)
}

/// Encrypts to a public key. Which ciphertext comes rests on chance; each of them opens to the
/// plaintext again.
pub fn encrypt(public_key: &[u8], plaintext: &[u8], aad: &[u8]) -> (out: Result<Vec<u8>, String>)
    ensures
        match key_verdict(65, public_key@, hpke_public_key(public_key@)) {
            Err(e) => outcome(out) == Err::<Seq<u8>, Seq<char>>("invalid hpke public key: "@ + e),
            Ok(_) => if !within_gcm_limit(plaintext@, aad@) {
                outcome(out) == Err::<Seq<u8>, Seq<char>>("hpke seal: Failed to seal plaintext"@)
            } else {
                &&& out matches Ok(ct)
                &&& ct@.len() == 2 + 65 + plaintext@.len() + 16
                &&& ct@.take(2) == le(65, 2)
                &&& hpke_encapped_key(ct@.subrange(2, 67))
                &&& sealed_to(public_key@, ct@, aad@, plaintext@)
            },
        },
{
    match hpke_check_public_key(public_key) {
        Ok(_) => {},
        Err(e) => return Err(with_text("invalid hpke public key: ", e.as_str())),
    }
    let (enc, ct) = match hpke_seal(public_key, HPKE_INFO.as_bytes(), plaintext, aad) {
        Ok(sealed) => sealed,
        Err(e) => {
            proof {
                reveal_strlit("hpke seal: ");
                reveal_strlit("Failed to seal plaintext");
                reveal_strlit("hpke seal: Failed to seal plaintext");
            }
            let text = with_text("hpke seal: ", e.as_str());
            assert(text@ =~= "hpke seal: Failed to seal plaintext"@);
            return Err(text);
        },
    };
    let mut out: Vec<u8> = Vec::new();
    push_le(&mut out, enc.len() as u64, 2);
    append(&mut out, enc.as_slice());
    append(&mut out, ct.as_slice());
    proof {
        broadcast use lemma_le_len;

        lemma_pow256();
        lemma_le_read_back(65, 2);
        assert(out@.take(2) =~= le(65, 2));
        assert(out@.subrange(2, 67) =~= enc@);
        assert(out@.skip(67) =~= ct@);
        assert forall|sk: Seq<u8>| #[trigger] hpke_pair(public_key@, sk) implies opened(
            sk,
            out@,
            aad@,
        ) == Ok::<Seq<u8>, Seq<char>>(plaintext@) by {}
    }
    Ok(out)
}

/// Decrypts with a private key.
pub fn decrypt(private_key: &[u8], ct: &[u8], aad: &[u8]) -> (out: Result<Vec<u8>, String>)
    ensures
        outcome(out) == opened(private_key@, ct@, aad@),
{
    if ct.len() < 2 {
        return Err("ct too short".to_owned());
    }
    proof {
        assert(ct@.subrange(0, 2) =~= ct@.take(2));
        lemma_le_value_bound(ct@.take(2));
        lemma_pow256();
    }
    let enc_len: usize = read_le(ct, 0, 2) as usize;
    if ct.len() - 2 < enc_len {
        return Err("ct truncated".to_owned());
    }
    let enc = &ct[2..2 + enc_len];
    let ciphertext = &ct[2 + enc_len..ct.len()];
    assert(ciphertext@ =~= ct@.skip(2 + enc_len));
    match hpke_check_private_key(private_key) {
        Ok(_) => {},
        Err(e) => return Err(with_text("invalid hpke private key: ", e.as_str())),
    }
    match hpke_check_encapped_key(enc) {
        Ok(_) => {},
        Err(e) => return Err(with_text("invalid hpke encapsulated key: ", e.as_str())),
    }
    match hpke_open(private_key, enc, HPKE_INFO.as_bytes(), ciphertext, aad) {
        Ok(plaintext) => Ok(plaintext),
        Err(e) => {
            proof {
                reveal_strlit("hpke open: ");
                reveal_strlit("Failed to open ciphertext");
                reveal_strlit("hpke open: Failed to open ciphertext");
            }
            let text = with_text("hpke open: ", e.as_str());
            assert(text@ =~= "hpke open: Failed to open ciphertext"@);
            Err(text)
        },
    }
}

/// The associated data tells requests apart: two that agree in it agree in protocol version, id, op
/// and key version, as long as no op has a quotation mark in it.
pub proof fn law_associated_data_tells_requests_apart(
    v1: u16,
    id1: u64,
    op1: Seq<char>,
    kv1: u64,
    v2: u16,
    id2: u64,
    op2: Seq<char>,
    kv2: u64,
)
    requires
        aad_text(v1, id1, op1, kv1) == aad_text(v2, id2, op2, kv2),
        !op1.contains('"'),
        !op2.contains('"'),
    ensures
        v1 == v2,
        id1 == id2,
        op1 == op2,
        kv1 == kv2,
{
    lemma_aad_parts(v1, id1, op1, kv1);
    lemma_aad_parts(v2, id2, op2, kv2);
    let x1 = from_id(id1, op1, kv1);
    let y1 = from_id(id2, op2, kv2);
    let x2 = from_op(op1, kv1);
    let y2 = from_op(op2, kv2);
    let x3 = from_key_version(kv1);
    let y3 = from_key_version(kv2);
    lemma_after("{\"v\":"@, dec(v1 as nat) + x1, dec(v2 as nat) + y1);
    law_numbers_are_told_apart(v1 as nat, x1, v2 as nat, y1);
    lemma_after(",\"id\":"@, dec(id1 as nat) + x2, dec(id2 as nat) + y2);
    law_numbers_are_told_apart(id1 as nat, x2, id2 as nat, y2);
    lemma_after(",\"op\":\""@, op1 + x3, op2 + y3);
    lemma_up_to_the_mark(op1, x3, op2, y3);
    lemma_after("\",\"key_version\":"@, dec(kv1 as nat) + "}"@, dec(kv2 as nat) + "}"@);
    assert("}"@.len() == 1 && "}"@[0] == '}') by {
        reveal_strlit("}");
    }
    law_numbers_are_told_apart(kv1 as nat, "}"@, kv2 as nat, "}"@);
}

/// The associated data from the key version on.
spec fn from_key_version(key_version: u64) -> Seq<char> {
    "\",\"key_version\":"@ + (dec(key_version as nat) + "}"@)
}

/// The associated data from the op on.
spec fn from_op(op: Seq<char>, key_version: u64) -> Seq<char> {
    ",\"op\":\""@ + (op + from_key_version(key_version))
}

/// The associated data from the id on.
spec fn from_id(id: u64, op: Seq<char>, key_version: u64) -> Seq<char> {
    ",\"id\":"@ + (dec(id as nat) + from_op(op, key_version))
}

/// How the associated data goes on behind each of its numbers.
proof fn lemma_aad_parts(v: u16, id: u64, op: Seq<char>, key_version: u64)
    ensures
        aad_text(v, id, op, key_version) == "{\"v\":"@ + (dec(v as nat) + from_id(
            id,
            op,
            key_version,
        )),
        from_id(id, op, key_version).len() > 0 && from_id(id, op, key_version)[0] == ',',
        from_op(op, key_version).len() > 0 && from_op(op, key_version)[0] == ',',
        from_key_version(key_version).len() > 0 && from_key_version(key_version)[0] == '"',
{
    assert(aad_text(v, id, op, key_version) =~= "{\"v\":"@ + (dec(v as nat) + from_id(
        id,
        op,
        key_version,
    )));
    assert(",\"id\":"@.len() > 0 && ",\"id\":"@[0] == ',') by {
        reveal_strlit(",\"id\":");
    }
    assert(",\"op\":\""@.len() > 0 && ",\"op\":\""@[0] == ',') by {
        reveal_strlit(",\"op\":\"");
    }
    assert("\",\"key_version\":"@.len() > 0 && "\",\"key_version\":"@[0] == '"') by {
        reveal_strlit("\",\"key_version\":");
    }
}

/// Two texts without a quotation mark are the same where they are the same with one behind them.
proof fn lemma_up_to_the_mark(a: Seq<char>, x: Seq<char>, b: Seq<char>, y: Seq<char>)
    requires
        a + x == b + y,
        !a.contains('"'),
        !b.contains('"'),
        x.len() > 0 && x[0] == '"',
        y.len() > 0 && y[0] == '"',
    ensures
        a == b,
        x == y,
{
    let s = a + x;
    let t = b + y;
    assert(s[a.len() as int] == '"');
    assert(t[b.len() as int] == '"');
    if a.len() < b.len() {
        assert(t[a.len() as int] == b[a.len() as int]);
    }
    if b.len() < a.len() {
        assert(s[b.len() as int] == a[b.len() as int]);
    }
    assert(a =~= s.take(a.len() as int));
    assert(b =~= t.take(b.len() as int));
    lemma_after(a, x, y);
}

/// What stands behind the same start is the same.
proof fn lemma_after(head: Seq<char>, a: Seq<char>, b: Seq<char>)
    requires
        head + a == head + b,
    ensures
        a == b,
{
    assert((head + a).skip(head.len() as int) =~= a);
    assert((head + b).skip(head.len() as int) =~= b);
}

/// The associated data names protocol version, id, op and key version, each in its place.
pub proof fn law_associated_data_names_the_request(v: u16, id: u64, op: Seq<char>, key_version: u64)
    ensures
        aad_text(v, id, op, key_version) == "{\"v\":"@ + dec_int(v as int) + ",\"id\":"@ + dec_int(
            id as int,
        ) + ",\"op\":\""@ + op + "\",\"key_version\":"@ + dec_int(key_version as int) + "}"@,
{
    law_integers_are_written_in_decimal(v as int);
    law_integers_are_written_in_decimal(id as int);
    law_integers_are_written_in_decimal(key_version as int);
}

/// A ciphertext is two bytes of length, the low one first, so many bytes of encapsulated key, and
/// the rest. Both keys are looked at, the private one first; then the rest is opened under the
/// associated data, as a message of this protocol.
pub proof fn law_ciphertext_is_opened_by_its_parts(
    private_key: Seq<u8>,
    lo: u8,
    hi: u8,
    enc: Seq<u8>,
    body: Seq<u8>,
    aad: Seq<u8>,
)
    requires
        enc.len() == lo + 256 * hi,
    ensures
        ({
            let out = opened(private_key, seq![lo, hi] + enc + body, aad);
            let private_ok = private_key.len() == 32 && hpke_private_key(private_key);
            let enc_ok = enc.len() == 65 && hpke_encapped_key(enc);
            let plain = hpke_opened(
                private_key,
                enc,
                encode_utf8("tee-demo/hpke-p256/v1"@),
                body,
                aad,
            );
            &&& (private_key.len() == 32 && !hpke_private_key(private_key) ==> out == Err::<
                Seq<u8>,
                Seq<char>,
            >("invalid hpke private key: Input value is invalid"@))
            &&& (private_key.len() != 32 ==> out is Err)
            &&& (private_ok && enc.len() == 65 && !hpke_encapped_key(enc) ==> out == Err::<
                Seq<u8>,
                Seq<char>,
            >("invalid hpke encapsulated key: Input value is invalid"@))
            &&& (private_ok && enc.len() != 65 ==> out is Err)
            &&& (private_ok && enc_ok ==> {
                &&& (plain matches Some(p) ==> out == Ok::<Seq<u8>, Seq<char>>(p))
                &&& (plain is None ==> out == Err::<Seq<u8>, Seq<char>>(
                    "hpke open: Failed to open ciphertext"@,
                ))
            })
        }),
{
    let ct = seq![lo, hi] + enc + body;
    lemma_two_bytes(ct);
    assert(ct.subrange(2, 2 + enc.len() as int) =~= enc);
    assert(ct.skip(2 + enc.len() as int) =~= body);
    reveal_strlit("invalid hpke private key: ");
    reveal_strlit("invalid hpke encapsulated key: ");
    reveal_strlit("Input value is invalid");
    reveal_strlit("invalid hpke private key: Input value is invalid");
    reveal_strlit("invalid hpke encapsulated key: Input value is invalid");
    assert("invalid hpke private key: "@ + "Input value is invalid"@
        =~= "invalid hpke private key: Input value is invalid"@);
    assert("invalid hpke encapsulated key: "@ + "Input value is invalid"@
        =~= "invalid hpke encapsulated key: Input value is invalid"@);
}

/// The number that the first two bytes write.
proof fn lemma_two_bytes(ct: Seq<u8>)
    requires
        ct.len() >= 2,
    ensures
        le_value(ct.take(2)) == ct[0] + 256 * ct[1],
{
    let t = ct.take(2);
    assert(t.skip(1).skip(1) =~= Seq::<u8>::empty());
    assert(le_value(t.skip(1).skip(1)) == 0);
    assert(t.skip(1)[0] == ct[1]);
    assert(le_value(t.skip(1)) == ct[1]);
}

/// A ciphertext that is cut off before its length, or inside its encapsulated key, is refused.
pub proof fn law_cut_ciphertext_is_refused(private_key: Seq<u8>, ct: Seq<u8>, aad: Seq<u8>)
    ensures
        ct.len() < 2 ==> opened(private_key, ct, aad) == Err::<Seq<u8>, Seq<char>>(
            "ct too short"@,
        ),
        ct.len() >= 2 && ct.len() - 2 < ct[0] + 256 * ct[1] ==> opened(private_key, ct, aad)
            == Err::<Seq<u8>, Seq<char>>("ct truncated"@),
{
    if ct.len() >= 2 {
        lemma_two_bytes(ct);
    }
}

/// What was sealed to a public key, the private key that belongs to it opens.
pub proof fn law_sealed_ciphertext_opens(
    public_key: Seq<u8>,
    private_key: Seq<u8>,
    ct: Seq<u8>,
    aad: Seq<u8>,
    plaintext: Seq<u8>,
)
    requires
        sealed_to(public_key, ct, aad, plaintext),
        hpke_pair(public_key, private_key),
    ensures
        opened(private_key, ct, aad) == Ok::<Seq<u8>, Seq<char>>(plaintext),
{
}

} // verus!
