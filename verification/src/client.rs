//! What a client asks, and what it makes of the answers.

use vstd::prelude::*;
use vstd::utf8::encode_utf8;

use crate::aead::{aad_json, aad_text, encrypt, sealed_to};
use crate::bytes::{le, push_le, same_bytes};
use crate::compute::{xy_json, xy_text};
use crate::frame::{
    bare_frame, Frame, FrameView, OP_CLIENT_CHALLENGE, OP_CLIENT_COMPUTE, OP_CLIENT_PUBKEY,
    OP_CLIENT_ROTATE,
};
use crate::hex::{hex_decode, hex_read, hex_text, law_hex_read_back, readable};
use crate::host::{failed, failed_text};
use crate::outside::{
    b64_decode, b64_encode, base64_read, base64_text, decodes_to, hpke_public_key, key_verdict,
    within_gcm_limit, Collateral, CollateralView,
};
use crate::report_data::{report_data_binding, report_data_for};
use crate::text::{
    dec, dec_int, i64_written, is_decimal_of, law_integers_are_written_in_decimal,
    lemma_dec_int_plain, lemma_dec_int_read_back, lemma_dec_len, lemma_encoded_len, lemma_line_ends,
    lemma_nothing_said, lemma_said, lemma_said_under, push_i64, push_u64, rest_of_line, said_under,
};
use crate::verify::{frame_verdict, verify_attestation_frame};
use crate::views::{optional, outcome};

verus! {

/// What reading the nonce of a challenge gives: 1 to 255 bytes.
pub open spec fn nonce_read(text: Seq<char>) -> Result<Seq<u8>, Seq<char>> {
    match hex_read(text) {
        Err(e) => Err(e),
        Ok(bytes) => if bytes.len() == 0 || bytes.len() > 255 {
            Err("nonce length must be 1..=255"@)
        } else {
            Ok(bytes)
        },
    }
}

/// Reads the nonce of a challenge from hexadecimal.
pub fn parse_nonce(text: &str) -> (out: Result<Vec<u8>, String>)
    requires
        readable(text@),
    ensures
        outcome(out) == nonce_read(text@),
{
    match hex_decode(text) {
        Err(e) => Err(e),
        Ok(bytes) => if bytes.len() == 0 || bytes.len() > 255 {
            Err("nonce length must be 1..=255".to_owned())
        } else {
            Ok(bytes)
        },
    }
}

/// A nonce made of the time, for when no chance is to be had: the eight bytes of the time over and
/// over, each with its place added to it.
pub open spec fn time_nonce_of(now: u64) -> Seq<u8> {
    Seq::new(32, |i: int| ((le(now as nat, 8)[i % 8] + i) % 256) as u8)
}

/// Makes a nonce of the time.
pub fn time_nonce(now: u64) -> (out: [u8; 32])
    ensures
        out@ == time_nonce_of(now),
{
    let mut t: Vec<u8> = Vec::new();
    push_le(&mut t, now, 8);
    assert(t@ =~= le(now as nat, 8));
    proof {
        crate::bytes::lemma_le_len(now as nat, 8);
    }
    let mut out = [0u8; 32];
    let mut i: usize = 0;
    while i < 32
        invariant
            i <= 32,
            t@ == le(now as nat, 8),
            t@.len() == 8,
            forall|j: int| 0 <= j < i ==> out@[j] == time_nonce_of(now)[j],
        decreases 32 - i,
    {
        let sum: u16 = t[i % 8] as u16 + i as u16;
        out[i] = (sum % 256) as u8;
        i = i + 1;
    }
    assert(out@ =~= time_nonce_of(now));
    out
}

/// A challenge.
pub open spec fn challenge_frame(id: u64, nonce: Seq<u8>) -> FrameView {
    FrameView {
        id: Some(id),
        nonce: Some(base64_text(nonce)),
        ..bare_frame(OP_CLIENT_CHALLENGE@)
    }
}

/// Challenges the runtime to prove itself under a nonce.
pub fn challenge_request(id: u64, nonce: &[u8]) -> (out: Frame)
    ensures
        out@ == challenge_frame(id, nonce@),
{
    let mut req = Frame::new(OP_CLIENT_CHALLENGE);
    req.id = Some(id);
    req.nonce = Some(b64_encode(nonce));
    req
}

/// Whether a challenge was met, or what went wrong.
pub open spec fn challenge_met(resp: FrameView) -> Result<(), Seq<char>> {
    if resp.ok == Some(true) {
        Ok(())
    } else {
        Err(failed_text("challenge failed: "@, resp))
    }
}

/// Whether a challenge was met, or what went wrong.
pub fn check_challenge(resp: &Frame) -> (out: Result<(), String>)
    ensures
        outcome(out) == challenge_met(resp@),
{
    if resp.ok != Some(true) {
        return Err(failed("challenge failed: ", resp));
    }
    Ok(())
}

/// A line with a name and a value, if there is one.
pub open spec fn line(name: Seq<char>, value: Option<Seq<char>>) -> Seq<char> {
    match value {
        Some(v) => name + "="@ + v + "\n"@,
        None => Seq::empty(),
    }
}

/// Appends a line with a name and a value, if there is one.
fn push_line(out: &mut String, name: &str, value: Option<&str>)
    ensures
        final(out)@ == old(out)@ + line(name@, optional(value)),
{
    match value {
        Some(v) => {
            out.append(name);
            out.append("=");
            out.append(v);
            out.append("\n");
        },
        None => {},
    }
    assert(out@ =~= old(out)@ + line(name@, optional(value)));
}

/// An optional text, borrowed.
fn borrowed<'a>(text: &'a Option<String>) -> (out: Option<&'a str>)
    ensures
        optional(out) == optional(*text),
{
    match text {
        Some(s) => Some(s.as_str()),
        None => None,
    }
}

/// What is printed of a challenge that was met, behind what is printed of the attestation.
pub open spec fn challenge_text(nonce: Seq<u8>, resp: FrameView) -> Seq<char> {
    line("NONCE"@, Some(base64_text(nonce))) + line("QUOTE"@, resp.quote)
}

/// What is printed of a challenge that was met, behind what is printed of the attestation.
pub fn challenge_lines(nonce: &[u8], resp: &Frame) -> (out: String)
    ensures
        out@ == challenge_text(nonce@, resp@),
{
    let mut out = String::new();
    push_line(&mut out, "NONCE", Some(b64_encode(nonce).as_str()));
    push_line(&mut out, "QUOTE", borrowed(&resp.quote));
    assert(out@ =~= challenge_text(nonce@, resp@));
    out
}

/// The key that a challenge has vouched for.
pub open spec fn challenged_key(resp: FrameView) -> Result<(u64, Seq<u8>), Seq<char>> {
    match resp.public_key {
        None => Err("no public_key"@),
        Some(text) => match base64_read(text) {
            Err(e) => Err(e),
            Ok(key) => Ok((resp.key_version.unwrap_or(0), key)),
        },
    }
}

/// Takes the key, and its version, that a challenge has vouched for.
pub fn key_of_challenge(resp: &Frame) -> (out: Result<(u64, Vec<u8>), String>)
    ensures
        outcome(out) == challenged_key(resp@),
{
    let text = match &resp.public_key {
        Some(text) => text,
        None => return Err("no public_key".to_owned()),
    };
    let key_version: u64 = match resp.key_version {
        Some(v) => v,
        None => 0,
    };
    match b64_decode(text.as_str()) {
        Ok(key) => Ok((key_version, key)),
        Err(e) => Err(e),
    }
}

/// A challenge that was met: what is printed of it, and the key that it vouches for.
pub struct Accepted {
    pub lines: String,
    pub key_version: u64,
    pub public_key: Vec<u8>,
}

impl View for Accepted {
    type V = (Seq<char>, u64, Seq<u8>);

    open spec fn view(&self) -> (Seq<char>, u64, Seq<u8>) {
        (self.lines@, self.key_version, self.public_key@)
    }
}

/// What comes of the answer to a challenge: what is printed, and the key with its version, if the
/// challenge was met and the attestation verifies under the client's nonce; or what went wrong.
pub open spec fn challenge_accepted(
    resp: FrameView,
    nonce: Seq<u8>,
    expected_mrenclave: Option<Seq<char>>,
    collateral: CollateralView,
    now: u64,
) -> Result<(Seq<char>, u64, Seq<u8>), Seq<char>> {
    if let Err(e) = challenge_met(resp) {
        Err(e)
    } else {
        match frame_verdict(resp, Some(nonce), expected_mrenclave, collateral, now) {
            Err(e) => Err(e),
            Ok(lines) => match challenged_key(resp) {
                Err(e) => Err(e),
                Ok((key_version, public_key)) => Ok((lines, key_version, public_key)),
            },
        }
    }
}

/// Takes the answer to a challenge: only an attestation that verifies gives a key.
pub fn accept_challenge(
    resp: &Frame,
    nonce: &[u8],
    expected_mrenclave: Option<&str>,
    collateral: &Collateral,
    now: u64,
) -> (out: Result<Accepted, String>)
    ensures
        outcome(out) == challenge_accepted(
            resp@,
            nonce@,
            optional(expected_mrenclave),
            collateral@,
            now,
        ),
{
    match check_challenge(resp) {
        Ok(_) => {},
        Err(e) => return Err(e),
    }
    let lines = match verify_attestation_frame(
        resp,
        Some(nonce),
        expected_mrenclave,
        collateral,
        now,
    ) {
        Ok(lines) => lines,
        Err(e) => return Err(e),
    };
    match key_of_challenge(resp) {
        Ok((key_version, public_key)) => Ok(Accepted { lines, key_version, public_key }),
        Err(e) => Err(e),
    }
}

/// Whether a frame asks to compute on these inputs: they are encrypted to the key, bound to the
/// request's id and to the key's version.
pub open spec fn asks_to_compute(
    f: FrameView,
    id: u64,
    key_version: u64,
    public_key: Seq<u8>,
    x: i64,
    y: i64,
) -> bool {
    let aad = aad_text(1, id, OP_CLIENT_COMPUTE@, key_version);
    exists|ct: Seq<u8>|
        {
            &&& #[trigger] sealed_to(public_key, ct, encode_utf8(aad), encode_utf8(xy_text(x, y)))
            &&& decodes_to(base64_text(ct), ct)
            &&& f == FrameView {
                id: Some(id),
                key_version: Some(key_version),
                ct: Some(base64_text(ct)),
                aad_json: Some(aad),
                ..bare_frame(OP_CLIENT_COMPUTE@)
            }
        }
}

/// The texts of a request are short.
proof fn lemma_short(id: u64, key_version: u64, x: i64, y: i64)
    ensures
        within_gcm_limit(
            encode_utf8(xy_text(x, y)),
            encode_utf8(aad_text(1, id, OP_CLIENT_COMPUTE@, key_version)),
        ),
{
    reveal_strlit("{\"x\":");
    reveal_strlit(",\"y\":");
    reveal_strlit("}");
    reveal_strlit("{\"v\":");
    reveal_strlit(",\"id\":");
    reveal_strlit(",\"op\":\"");
    reveal_strlit("\",\"key_version\":");
    reveal_strlit("compute");
    lemma_dec_len(1, x);
    lemma_dec_len(id, y);
    lemma_dec_len(key_version, y);
    lemma_encoded_len(xy_text(x, y));
    lemma_encoded_len(aad_text(1, id, OP_CLIENT_COMPUTE@, key_version));
}

/// Asks to compute on inputs that only the holder of the private key can read. This fails only for
/// a key that is none.
pub fn calc_request(id: u64, key_version: u64, public_key: &[u8], x: i64, y: i64) -> (out: Result<
    Frame,
    String,
>)
    ensures
        match key_verdict(65, public_key@, hpke_public_key(public_key@)) {
            Err(e) => outcome(out) == Err::<FrameView, Seq<char>>("invalid hpke public key: "@ + e),
            Ok(_) => out matches Ok(f) && asks_to_compute(
                f@,
                id,
                key_version,
                public_key@,
                x,
                y,
            ),
        },
{
    let aad = aad_json(1, id, OP_CLIENT_COMPUTE, key_version);
    let plaintext = xy_json(x, y);
    proof {
        lemma_short(id, key_version, x, y);
    }
    let ct = match encrypt(public_key, plaintext.as_str().as_bytes(), aad.as_str().as_bytes()) {
        Ok(ct) => ct,
        Err(e) => return Err(e),
    };
    assert(sealed_to(public_key@, ct@, encode_utf8(aad@), encode_utf8(xy_text(x, y))));
    let mut req = Frame::new(OP_CLIENT_COMPUTE);
    req.id = Some(id);
    req.key_version = Some(key_version);
    req.ct = Some(b64_encode(ct.as_slice()));
    req.aad_json = Some(aad);
    Ok(req)
}

/// A request to compute that was made behind a challenge that was met; or why none could be made.
pub struct VerifiedCalc {
    pub accepted: Accepted,
    pub request: Result<Frame, String>,
}

/// Takes the answer to a challenge and, only if its attestation verifies, asks to compute on inputs
/// that are encrypted to the key that it vouches for.
pub fn calc_behind_challenge(
    resp: &Frame,
    nonce: &[u8],
    expected_mrenclave: Option<&str>,
    collateral: &Collateral,
    now: u64,
    id: u64,
    x: i64,
    y: i64,
) -> (out: Result<VerifiedCalc, String>)
    ensures
        match challenge_accepted(
            resp@,
            nonce@,
            optional(expected_mrenclave),
            collateral@,
            now,
        ) {
            Err(e) => out matches Err(text) && text@ == e,
            Ok((lines, key_version, public_key)) => {
                &&& out matches Ok(calc)
                &&& calc.accepted@ == (lines, key_version, public_key)
                &&& match key_verdict(65, public_key, hpke_public_key(public_key)) {
                    Err(e) => calc.request matches Err(text) && text@
                        == "invalid hpke public key: "@ + e,
                    Ok(_) => calc.request matches Ok(f) && asks_to_compute(
                        f@,
                        id,
                        key_version,
                        public_key,
                        x,
                        y,
                    ),
                }
            },
        },
{
    match accept_challenge(resp, nonce, expected_mrenclave, collateral, now) {
        Ok(accepted) => {
            let request = calc_request(
                id,
                accepted.key_version,
                accepted.public_key.as_slice(),
                x,
                y,
            );
            Ok(VerifiedCalc { accepted, request })
        },
        Err(e) => Err(e),
    }
}

/// What is printed of a result.
pub open spec fn result_lines(x: i64, y: i64, key_version: u64, result: i64) -> Seq<char> {
    "TEE 计算结果: "@ + dec_int(x as int) + "^3 + 5*"@ + dec_int(y as int) + " = "@ + dec_int(
        result as int,
    ) + "\nRESULT="@ + dec_int(result as int) + "\nKEY_VERSION="@ + dec(key_version as nat) + "\n"@
}

/// A text that may be missing.
pub open spec fn or_empty(text: Option<Seq<char>>) -> Seq<char> {
    match text {
        Some(s) => s,
        None => Seq::empty(),
    }
}

/// What comes of the answer to a request to compute: what is printed, or what went wrong.
pub open spec fn calc_answered(x: i64, y: i64, key_version: u64, resp: FrameView) -> Result<
    Seq<char>,
    Seq<char>,
> {
    if resp.ok == Some(true) {
        match resp.result {
            Some(result) => Ok(result_lines(x, y, key_version, result)),
            None => Err("missing result"@),
        }
    } else {
        Err(
            "compute failed: "@ + or_empty(resp.error) + " (code: "@ + or_empty(resp.code) + ")"@,
        )
    }
}

/// Takes the answer to a request to compute.
pub fn calc_answer(x: i64, y: i64, key_version: u64, resp: &Frame) -> (out: Result<String, String>)
    ensures
        outcome(out) == calc_answered(x, y, key_version, resp@),
{
    if resp.ok == Some(true) {
        let result: i64 = match resp.result {
            Some(result) => result,
            None => return Err("missing result".to_owned()),
        };
        let mut out = "TEE 计算结果: ".to_owned();
        push_i64(&mut out, x);
        out.append("^3 + 5*");
        push_i64(&mut out, y);
        out.append(" = ");
        push_i64(&mut out, result);
        out.append("\nRESULT=");
        push_i64(&mut out, result);
        out.append("\nKEY_VERSION=");
        push_u64(&mut out, key_version);
        out.append("\n");
        return Ok(out);
    }
    let mut text = "compute failed: ".to_owned();
    append_some(&mut text, &resp.error);
    text.append(" (code: ");
    append_some(&mut text, &resp.code);
    text.append(")");
    Err(text)
}

/// Appends a text that may be missing.
fn append_some(out: &mut String, text: &Option<String>)
    ensures
        final(out)@ == old(out)@ + or_empty(optional(*text)),
{
    match text {
        Some(s) => {
            out.append(s.as_str());
        },
        None => {},
    }
    assert(out@ =~= old(out)@ + or_empty(optional(*text)));
}

/// A request with an op and the id 1.
pub open spec fn first_request(op: Seq<char>) -> FrameView {
    FrameView { id: Some(1), ..bare_frame(op) }
}

/// Asks for the public key.
pub fn pubkey_request() -> (out: Frame)
    ensures
        out@ == first_request(OP_CLIENT_PUBKEY@),
{
    let mut req = Frame::new(OP_CLIENT_PUBKEY);
    req.id = Some(1);
    req
}

/// Asks for a rotation.
pub fn rotate_request() -> (out: Frame)
    ensures
        out@ == first_request(OP_CLIENT_ROTATE@),
{
    let mut req = Frame::new(OP_CLIENT_ROTATE);
    req.id = Some(1);
    req
}

/// The lines about a key that come first.
pub open spec fn key_lines(resp: FrameView) -> Seq<char> {
    "KEY_VERSION="@ + dec(resp.key_version.unwrap_or(0) as nat) + "\nPUBLIC_KEY="@ + or_empty(
        resp.public_key,
    ) + "\n"@ + line("QUOTE"@, resp.quote)
}

/// The lines about a key that come first.
fn lines_of_key(resp: &Frame) -> (out: String)
    ensures
        out@ == key_lines(resp@),
{
    let key_version: u64 = match resp.key_version {
        Some(v) => v,
        None => 0,
    };
    let mut out = "KEY_VERSION=".to_owned();
    push_u64(&mut out, key_version);
    out.append("\nPUBLIC_KEY=");
    append_some(&mut out, &resp.public_key);
    out.append("\n");
    push_line(&mut out, "QUOTE", borrowed(&resp.quote));
    out
}

/// What is printed of the answer to a request for the public key.
pub open spec fn pubkey_text(resp: FrameView) -> Seq<char> {
    key_lines(resp) + line("REPORTDATA"@, resp.report_data)
}

/// What is printed of the answer to a request for the public key.
pub fn pubkey_lines(resp: &Frame) -> (out: String)
    ensures
        out@ == pubkey_text(resp@),
{
    let mut out = lines_of_key(resp);
    push_line(&mut out, "REPORTDATA", borrowed(&resp.report_data));
    out
}

/// What is printed, and what went wrong behind it, if anything did.
pub struct Printed {
    pub lines: String,
    pub error: Option<String>,
}

impl View for Printed {
    type V = (Seq<char>, Option<Seq<char>>);

    open spec fn view(&self) -> (Seq<char>, Option<Seq<char>>) {
        (self.lines@, optional(self.error))
    }
}

/// What checking the report data of a rotation against its key gives: whether it binds it.
pub open spec fn rotation_bound(
    report_data: Seq<char>,
    public_key: Seq<char>,
    key_version: u64,
    nonce: Seq<char>,
) -> Result<bool, Seq<char>> {
    match (base64_read(public_key), base64_read(nonce), base64_read(report_data)) {
        (Err(e), _, _) => Err(e),
        (Ok(_), Err(e), _) => Err(e),
        (Ok(_), Ok(_), Err(e)) => Err(e),
        (Ok(key), Ok(nonce), Ok(actual)) => Ok(
            actual == report_data_for(key_version, key, nonce),
        ),
    }
}

/// What comes of the answer to a rotation: what is printed and, where the report data is there with
/// all that it should bind and does not, an error.
pub open spec fn rotate_answered(resp: FrameView) -> (Seq<char>, Option<Seq<char>>) {
    let lines = key_lines(resp) + line("BINDING_NONCE"@, resp.binding_nonce) + line(
        "REPORTDATA"@,
        resp.report_data,
    );
    if resp.ok != Some(true) {
        (Seq::empty(), Some(failed_text("rotate failed: "@, resp)))
    } else {
        match (resp.report_data, resp.public_key, resp.key_version, resp.binding_nonce) {
            (Some(rd), Some(pk), Some(kv), Some(nonce)) => match rotation_bound(rd, pk, kv, nonce) {
                Err(e) => (lines, Some(e)),
                Ok(true) => (lines + "REPORTDATA_BINDING_OK\n"@, None),
                Ok(false) => (lines, Some("REPORTDATA binding mismatch after rotate"@)),
            },
            _ => (lines, None),
        }
    }
}

/// Checks the report data of a rotation against its key.
fn check_rotation(report_data: &str, public_key: &str, key_version: u64, nonce: &str) -> (out: Result<
    bool,
    String,
>)
    ensures
        outcome(out) == rotation_bound(report_data@, public_key@, key_version, nonce@),
{
    let key = match b64_decode(public_key) {
        Ok(key) => key,
        Err(e) => return Err(e),
    };
    let nonce = match b64_decode(nonce) {
        Ok(nonce) => nonce,
        Err(e) => return Err(e),
    };
    let expected = report_data_binding(key_version, key.as_slice(), nonce.as_slice());
    let actual = match b64_decode(report_data) {
        Ok(actual) => actual,
        Err(e) => return Err(e),
    };
    Ok(same_bytes(actual.as_slice(), expected.as_slice()))
}

/// Takes the answer to a rotation.
pub fn rotate_answer(resp: &Frame) -> (out: Printed)
    ensures
        out@ == rotate_answered(resp@),
{
    if resp.ok != Some(true) {
        let lines = String::new();
        assert(lines@ =~= Seq::<char>::empty());
        return Printed { lines, error: Some(failed("rotate failed: ", resp)) };
    }
    let mut lines = lines_of_key(resp);
    push_line(&mut lines, "BINDING_NONCE", borrowed(&resp.binding_nonce));
    push_line(&mut lines, "REPORTDATA", borrowed(&resp.report_data));
    match (&resp.report_data, &resp.public_key, resp.key_version, &resp.binding_nonce) {
        (Some(rd), Some(pk), Some(kv), Some(nonce)) => match check_rotation(
            rd.as_str(),
            pk.as_str(),
            kv,
            nonce.as_str(),
        ) {
            Err(e) => Printed { lines, error: Some(e) },
            Ok(true) => {
                lines.append("REPORTDATA_BINDING_OK\n");
                Printed { lines, error: None }
            },
            Ok(false) => Printed {
                lines,
                error: Some("REPORTDATA binding mismatch after rotate".to_owned()),
            },
        },
        _ => Printed { lines, error: None },
    }
}

/// Whether a text that may be missing is on one line.
pub open spec fn on_one_line(text: Option<Seq<char>>) -> bool {
    text matches Some(s) ==> !s.contains('\n')
}

/// A line is the name, an equals sign, the value and a line feed; with no value there is no line.
pub proof fn law_line_has_name_and_value(name: Seq<char>, value: Seq<char>)
    ensures
        line(name, Some(value)) == name + "="@ + value + "\n"@,
        line(name, None) == Seq::<char>::empty(),
{
}

/// A line says its value under its name, and a missing line says nothing.
proof fn lemma_line(name: Seq<char>, value: Option<Seq<char>>, rest: Seq<char>, asked: Seq<char>)
    requires
        name.len() > 0 && asked.len() > 0,
        !name.contains('\n'),
        on_one_line(value),
        name == asked || name[0] != asked[0],
    ensures
        said_under(line(name, value) + rest, asked) == if name == asked && value is Some {
            value
        } else {
            said_under(rest, asked)
        },
{
    reveal_strlit("=");
    reveal_strlit("\n");
    match value {
        Some(v) => {
            assert(line(name, value) + rest =~= name + seq!['='] + v + seq!['\n'] + rest);
            lemma_said_under(name, v, rest, asked);
        },
        None => {
            assert(line(name, value) + rest =~= rest);
        },
    }
}

/// The names that are printed start with different letters, and are on one line.
proof fn lemma_names()
    ensures
        "KEY_VERSION"@.len() == 11 && "KEY_VERSION"@[0] == 'K' && !"KEY_VERSION"@.contains('\n'),
        "PUBLIC_KEY"@.len() == 10 && "PUBLIC_KEY"@[0] == 'P' && !"PUBLIC_KEY"@.contains('\n'),
        "QUOTE"@.len() == 5 && "QUOTE"@[0] == 'Q' && !"QUOTE"@.contains('\n'),
        "BINDING_NONCE"@.len() == 13 && "BINDING_NONCE"@[0] == 'B' && !"BINDING_NONCE"@.contains(
            '\n',
        ),
        "REPORTDATA"@.len() == 10 && "REPORTDATA"@[0] == 'R' && !"REPORTDATA"@.contains('\n'),
        "NONCE"@.len() == 5 && "NONCE"@[0] == 'N' && !"NONCE"@.contains('\n'),
        "RESULT"@.len() == 6 && "RESULT"@[0] == 'R' && !"RESULT"@.contains('\n'),
{
    reveal_strlit("KEY_VERSION");
    reveal_strlit("PUBLIC_KEY");
    reveal_strlit("QUOTE");
    reveal_strlit("BINDING_NONCE");
    reveal_strlit("REPORTDATA");
    reveal_strlit("NONCE");
    reveal_strlit("RESULT");
}

/// The printed text of an accepted answer says under `RESULT` exactly the result in the answer, in
/// decimal, with its sign, and under `KEY_VERSION` the version of the key; its first line has the
/// inputs and the result once more.
pub proof fn law_result_is_printed(x: i64, y: i64, key_version: u64, resp: FrameView, result: i64)
    requires
        resp.ok == Some(true),
        resp.result == Some(result),
    ensures
        ({
            &&& calc_answered(x, y, key_version, resp) matches Ok(text)
            &&& said_under(text, "RESULT"@) matches Some(t)
            &&& is_decimal_of(t, result as int)
            &&& i64_written(t) == Some(result)
            &&& said_under(text, "KEY_VERSION"@) matches Some(k)
            &&& is_decimal_of(k, key_version as int)
            &&& rest_of_line(text) == "TEE 计算结果: "@ + dec_int(x as int) + "^3 + 5*"@ + dec_int(
                y as int,
            ) + " = "@ + t
            &&& text.len() == rest_of_line(text).len() + 8 + t.len() + 13 + k.len() + 1
        }),
{
    let dx = dec_int(x as int);
    let dy = dec_int(y as int);
    let dr = dec_int(result as int);
    let dk = dec_int(key_version as int);
    law_integers_are_written_in_decimal(result as int);
    law_integers_are_written_in_decimal(key_version as int);
    lemma_dec_int_read_back(result);
    lemma_dec_int_plain(x as int, '\n');
    lemma_dec_int_plain(y as int, '\n');
    lemma_dec_int_plain(result as int, '\n');
    lemma_dec_int_plain(key_version as int, '\n');
    lemma_first_line(dx, dy, dr);
    lemma_result_said("TEE 计算结果: "@ + dx + "^3 + 5*"@ + dy + " = "@ + dr, dr, dk);
}

/// What the lines of a result say, behind a first line that has no name.
proof fn lemma_result_said(first: Seq<char>, dr: Seq<char>, dk: Seq<char>)
    requires
        !first.contains('\n') && !dr.contains('\n') && !dk.contains('\n'),
        !("RESULT"@ + seq!['=']).is_prefix_of(first),
        !("KEY_VERSION"@ + seq!['=']).is_prefix_of(first),
    ensures
        ({
            let text = first + "\nRESULT="@ + dr + "\nKEY_VERSION="@ + dk + "\n"@;
            &&& said_under(text, "RESULT"@) == Some(dr)
            &&& said_under(text, "KEY_VERSION"@) == Some(dk)
            &&& rest_of_line(text) == first
            &&& text.len() == first.len() + 8 + dr.len() + 13 + dk.len() + 1
        }),
{
    let text = first + "\nRESULT="@ + dr + "\nKEY_VERSION="@ + dk + "\n"@;
    let e = Seq::<char>::empty();
    let kl = "KEY_VERSION"@ + seq!['='] + dk + seq!['\n'] + e;
    let rl = "RESULT"@ + seq!['='] + dr + seq!['\n'] + kl;
    assert(text == first + seq!['\n'] + rl && text.len() == first.len() + 8 + dr.len() + 13
        + dk.len() + 1) by {
        reveal_strlit("\nRESULT=");
        reveal_strlit("\nKEY_VERSION=");
        reveal_strlit("\n");
        reveal_strlit("RESULT");
        reveal_strlit("KEY_VERSION");
        assert(text =~= first + seq!['\n'] + rl);
    }
    lemma_names();
    lemma_said(first, rl, "RESULT"@);
    lemma_said(first, rl, "KEY_VERSION"@);
    assert(first + seq!['\n'] + rl =~= first + (seq!['\n'] + rl));
    lemma_line_ends(first, seq!['\n'] + rl);
    lemma_said_under("RESULT"@, dr, kl, "RESULT"@);
    lemma_said_under("RESULT"@, dr, kl, "KEY_VERSION"@);
    lemma_said_under("KEY_VERSION"@, dk, e, "KEY_VERSION"@);
}

/// The first line of a result is one line, and none with a name.
proof fn lemma_first_line(dx: Seq<char>, dy: Seq<char>, dr: Seq<char>)
    requires
        !dx.contains('\n') && !dy.contains('\n') && !dr.contains('\n'),
    ensures
        ({
            let first = "TEE 计算结果: "@ + dx + "^3 + 5*"@ + dy + " = "@ + dr;
            &&& !first.contains('\n')
            &&& !("RESULT"@ + seq!['=']).is_prefix_of(first)
            &&& !("KEY_VERSION"@ + seq!['=']).is_prefix_of(first)
        }),
{
    reveal_strlit("TEE 计算结果: ");
    reveal_strlit("^3 + 5*");
    reveal_strlit(" = ");
    let a = "TEE 计算结果: "@;
    let b = "^3 + 5*"@;
    let c = " = "@;
    let first = a + dx + b + dy + c + dr;
    lemma_names();
    assert(!first.contains('\n')) by {
        if first.contains('\n') {
            let i = choose|i: int| 0 <= i < first.len() && first[i] == '\n';
            let n1 = a.len() as int;
            let n2 = n1 + dx.len();
            let n3 = n2 + b.len();
            let n4 = n3 + dy.len();
            let n5 = n4 + c.len();
            if i < n1 {
                assert(a[i] == '\n');
            } else if i < n2 {
                assert(dx[i - n1] == '\n');
            } else if i < n3 {
                assert(b[i - n2] == '\n');
            } else if i < n4 {
                assert(dy[i - n3] == '\n');
            } else if i < n5 {
                assert(c[i - n4] == '\n');
            } else {
                assert(dr[i - n5] == '\n');
            }
        }
    }
    assert(first[0] == 'T');
    let h1 = "RESULT"@ + seq!['='];
    let h2 = "KEY_VERSION"@ + seq!['='];
    assert(h1[0] == 'R' && h2[0] == 'K');
    if h1.is_prefix_of(first) {
        assert(first.take(h1.len() as int)[0] == first[0]);
    }
    if h2.is_prefix_of(first) {
        assert(first.take(h2.len() as int)[0] == first[0]);
    }
}

/// An answer that is none, or that has no result, prints nothing: the client says what went wrong,
/// in the words of the answer.
pub proof fn law_failed_computation_is_told(x: i64, y: i64, key_version: u64, resp: FrameView)
    ensures
        calc_answered(x, y, key_version, resp) is Ok <==> resp.ok == Some(true) && resp.result
            is Some,
        resp.ok == Some(true) && resp.result is None ==> calc_answered(x, y, key_version, resp)
            == Err::<Seq<char>, Seq<char>>("missing result"@),
        resp.ok != Some(true) && resp.error is Some && resp.code is Some ==> calc_answered(
            x,
            y,
            key_version,
            resp,
        ) == Err::<Seq<char>, Seq<char>>(
            "compute failed: "@ + resp.error->0 + " (code: "@ + resp.code->0 + ")"@,
        ),
        resp.ok != Some(true) && resp.error is None && resp.code is None ==> calc_answered(
            x,
            y,
            key_version,
            resp,
        ) == Err::<Seq<char>, Seq<char>>("compute failed:  (code: )"@),
{
    reveal_strlit("compute failed: ");
    reveal_strlit(" (code: ");
    reveal_strlit(")");
    reveal_strlit("compute failed:  (code: )");
    let e = Seq::<char>::empty();
    assert("compute failed: "@ + e + " (code: "@ + e + ")"@ =~= "compute failed:  (code: )"@);
}

/// What is said of a challenge that was not met, or of a rotation that failed: a few words, and the
/// error of the answer behind them, if it has one.
pub proof fn law_failures_are_told_in_the_words_of_the_answer(what: Seq<char>, resp: FrameView)
    ensures
        resp.error matches Some(e) ==> failed_text(what, resp) == what + e,
        resp.error is None ==> failed_text(what, resp) == what,
        challenge_met(resp) is Ok <==> resp.ok == Some(true),
        resp.ok != Some(true) && resp.error is None ==> challenge_met(resp) == Err::<(), Seq<char>>(
            "challenge failed: "@,
        ),
        resp.ok != Some(true) ==> (resp.error matches Some(e) ==> challenge_met(resp) == Err::<
            (),
            Seq<char>,
        >("challenge failed: "@ + e)),
        resp.ok != Some(true) ==> rotate_answered(resp).0.len() == 0,
        resp.ok != Some(true) ==> (resp.error matches Some(e) ==> rotate_answered(resp).1 == Some(
            "rotate failed: "@ + e,
        )),
{
    assert(what + Seq::<char>::empty() =~= what);
    assert("challenge failed: "@ + Seq::<char>::empty() =~= "challenge failed: "@);
}

/// The lines about a key, one by one.
proof fn lemma_key_lines_parts(resp: FrameView, rest: Seq<char>)
    ensures
        key_lines(resp) + rest == "KEY_VERSION"@ + seq!['='] + dec_int(
            resp.key_version.unwrap_or(0) as int,
        ) + seq!['\n'] + ("PUBLIC_KEY"@ + seq!['='] + or_empty(resp.public_key) + seq!['\n'] + (line(
            "QUOTE"@,
            resp.quote,
        ) + rest)),
{
    reveal_strlit("KEY_VERSION=");
    reveal_strlit("KEY_VERSION");
    reveal_strlit("\nPUBLIC_KEY=");
    reveal_strlit("PUBLIC_KEY");
    reveal_strlit("\n");
    assert(key_lines(resp) + rest =~= "KEY_VERSION"@ + seq!['='] + dec_int(
        resp.key_version.unwrap_or(0) as int,
    ) + seq!['\n'] + ("PUBLIC_KEY"@ + seq!['='] + or_empty(resp.public_key) + seq!['\n'] + (line(
        "QUOTE"@,
        resp.quote,
    ) + rest)));
}

/// What the lines about a key say.
proof fn lemma_key_lines(resp: FrameView, rest: Seq<char>, asked: Seq<char>)
    requires
        on_one_line(resp.public_key),
        on_one_line(resp.quote),
        asked == "KEY_VERSION"@ || asked == "PUBLIC_KEY"@ || asked == "QUOTE"@ || asked
            == "BINDING_NONCE"@ || asked == "REPORTDATA"@,
    ensures
        said_under(key_lines(resp) + rest, asked) == if asked == "KEY_VERSION"@ {
            Some(dec_int(resp.key_version.unwrap_or(0) as int))
        } else if asked == "PUBLIC_KEY"@ {
            Some(
                match resp.public_key {
                    Some(s) => s,
                    None => Seq::empty(),
                },
            )
        } else if asked == "QUOTE"@ && resp.quote is Some {
            resp.quote
        } else {
            said_under(rest, asked)
        },
{
    let n = resp.key_version.unwrap_or(0);
    let dk = dec_int(n as int);
    let pk = or_empty(resp.public_key);
    lemma_names();
    lemma_dec_int_plain(n as int, '\n');
    assert(!pk.contains('\n'));
    let tail = line("QUOTE"@, resp.quote) + rest;
    let second = "PUBLIC_KEY"@ + seq!['='] + pk + seq!['\n'] + tail;
    lemma_key_lines_parts(resp, rest);
    lemma_said_under("KEY_VERSION"@, dk, second, asked);
    lemma_said_under("PUBLIC_KEY"@, pk, tail, asked);
    lemma_line("QUOTE"@, resp.quote, rest, asked);
}

/// What is printed of a public key says under each name what the answer has in that field, and
/// nothing under a name whose field is missing.
pub proof fn law_public_key_is_printed(resp: FrameView)
    requires
        on_one_line(resp.public_key),
        on_one_line(resp.quote),
        on_one_line(resp.report_data),
    ensures
        said_under(pubkey_text(resp), "KEY_VERSION"@) matches Some(t) && is_decimal_of(
            t,
            match resp.key_version {
                Some(v) => v as int,
                None => 0,
            },
        ),
        said_under(pubkey_text(resp), "PUBLIC_KEY"@) == Some(
            match resp.public_key {
                Some(s) => s,
                None => Seq::empty(),
            },
        ),
        said_under(pubkey_text(resp), "QUOTE"@) == resp.quote,
        said_under(pubkey_text(resp), "REPORTDATA"@) == resp.report_data,
        pubkey_text(resp) == "KEY_VERSION="@ + dec_int(
            match resp.key_version {
                Some(v) => v as int,
                None => 0,
            },
        ) + "\nPUBLIC_KEY="@ + match resp.public_key {
            Some(s) => s,
            None => Seq::empty(),
        } + "\n"@ + line("QUOTE"@, resp.quote) + line("REPORTDATA"@, resp.report_data),
{
    let e = Seq::<char>::empty();
    let rest = line("REPORTDATA"@, resp.report_data);
    lemma_names();
    law_integers_are_written_in_decimal(resp.key_version.unwrap_or(0) as int);
    lemma_key_lines(resp, rest, "KEY_VERSION"@);
    lemma_key_lines(resp, rest, "PUBLIC_KEY"@);
    lemma_key_lines(resp, rest, "QUOTE"@);
    lemma_key_lines(resp, rest, "REPORTDATA"@);
    assert(rest + e =~= rest);
    lemma_line("REPORTDATA"@, resp.report_data, e, "REPORTDATA"@);
    lemma_line("REPORTDATA"@, resp.report_data, e, "QUOTE"@);
    lemma_nothing_said("REPORTDATA"@);
    lemma_nothing_said("QUOTE"@);
}

/// What is printed of a rotation says under each name what the answer has in that field, and
/// nothing under a name whose field is missing.
pub proof fn law_rotation_is_printed(resp: FrameView)
    requires
        resp.ok == Some(true),
        on_one_line(resp.public_key),
        on_one_line(resp.quote),
        on_one_line(resp.binding_nonce),
        on_one_line(resp.report_data),
    ensures
        said_under(rotate_answered(resp).0, "KEY_VERSION"@) matches Some(t) && is_decimal_of(
            t,
            match resp.key_version {
                Some(v) => v as int,
                None => 0,
            },
        ),
        said_under(rotate_answered(resp).0, "PUBLIC_KEY"@) == Some(
            match resp.public_key {
                Some(s) => s,
                None => Seq::empty(),
            },
        ),
        said_under(rotate_answered(resp).0, "QUOTE"@) == resp.quote,
        said_under(rotate_answered(resp).0, "BINDING_NONCE"@) == resp.binding_nonce,
        said_under(rotate_answered(resp).0, "REPORTDATA"@) == resp.report_data,
        ("KEY_VERSION="@ + dec_int(
            match resp.key_version {
                Some(v) => v as int,
                None => 0,
            },
        ) + "\nPUBLIC_KEY="@ + match resp.public_key {
            Some(s) => s,
            None => Seq::empty(),
        } + "\n"@ + line("QUOTE"@, resp.quote) + line("BINDING_NONCE"@, resp.binding_nonce) + line(
            "REPORTDATA"@,
            resp.report_data,
        )).is_prefix_of(rotate_answered(resp).0),
        resp.report_data is None || resp.public_key is None || resp.key_version is None
            || resp.binding_nonce is None ==> rotate_answered(resp).1 is None && rotate_answered(
            resp,
        ).0 == key_lines(resp) + line("BINDING_NONCE"@, resp.binding_nonce) + line(
            "REPORTDATA"@,
            resp.report_data,
        ),
{
    let text = rotate_answered(resp).0;
    let lines = key_lines(resp) + line("BINDING_NONCE"@, resp.binding_nonce) + line(
        "REPORTDATA"@,
        resp.report_data,
    );
    let end = text.skip(lines.len() as int);
    assert(text =~= lines + end);
    let l2 = line("REPORTDATA"@, resp.report_data) + end;
    let l1 = line("BINDING_NONCE"@, resp.binding_nonce) + l2;
    assert(text =~= key_lines(resp) + l1);
    lemma_names();
    law_integers_are_written_in_decimal(resp.key_version.unwrap_or(0) as int);
    lemma_key_lines(resp, l1, "KEY_VERSION"@);
    lemma_key_lines(resp, l1, "PUBLIC_KEY"@);
    lemma_key_lines(resp, l1, "QUOTE"@);
    lemma_key_lines(resp, l1, "BINDING_NONCE"@);
    lemma_key_lines(resp, l1, "REPORTDATA"@);
    lemma_line("BINDING_NONCE"@, resp.binding_nonce, l2, "QUOTE"@);
    lemma_line("BINDING_NONCE"@, resp.binding_nonce, l2, "BINDING_NONCE"@);
    lemma_line("BINDING_NONCE"@, resp.binding_nonce, l2, "REPORTDATA"@);
    lemma_line("REPORTDATA"@, resp.report_data, end, "QUOTE"@);
    lemma_line("REPORTDATA"@, resp.report_data, end, "BINDING_NONCE"@);
    lemma_line("REPORTDATA"@, resp.report_data, end, "REPORTDATA"@);
    lemma_rotation_end(resp);
}

/// What is printed last of a rotation has no name.
proof fn lemma_rotation_end(resp: FrameView)
    requires
        resp.ok == Some(true),
    ensures
        ({
            let lines = key_lines(resp) + line("BINDING_NONCE"@, resp.binding_nonce) + line(
                "REPORTDATA"@,
                resp.report_data,
            );
            let end = rotate_answered(resp).0.skip(lines.len() as int);
            &&& rotate_answered(resp).0 == lines + end
            &&& end == Seq::<char>::empty() || end == "REPORTDATA_BINDING_OK\n"@
            &&& said_under(end, "QUOTE"@) is None
            &&& said_under(end, "BINDING_NONCE"@) is None
            &&& said_under(end, "REPORTDATA"@) is None
        }),
{
    let lines = key_lines(resp) + line("BINDING_NONCE"@, resp.binding_nonce) + line(
        "REPORTDATA"@,
        resp.report_data,
    );
    let text = rotate_answered(resp).0;
    let end = text.skip(lines.len() as int);
    let e = Seq::<char>::empty();
    let ok = "REPORTDATA_BINDING_OK"@;
    assert(end =~= e || end =~= "REPORTDATA_BINDING_OK\n"@);
    assert(text =~= lines + end);
    lemma_nothing_said("QUOTE"@);
    lemma_nothing_said("BINDING_NONCE"@);
    lemma_nothing_said("REPORTDATA"@);
    reveal_strlit("REPORTDATA_BINDING_OK");
    reveal_strlit("REPORTDATA_BINDING_OK\n");
    reveal_strlit("QUOTE");
    reveal_strlit("BINDING_NONCE");
    reveal_strlit("REPORTDATA");
    assert("REPORTDATA_BINDING_OK\n"@ =~= ok + seq!['\n'] + e);
    lemma_said(ok, e, "QUOTE"@);
    lemma_said(ok, e, "BINDING_NONCE"@);
    lemma_said(ok, e, "REPORTDATA"@);
    let h = "REPORTDATA"@ + seq!['='];
    assert(h[10] == '=' && ok[10] == '_');
    if h.is_prefix_of(ok) {
        assert(ok.take(h.len() as int)[10] == ok[10]);
    }
    let h2 = "QUOTE"@ + seq!['='];
    if h2.is_prefix_of(ok) {
        assert(ok.take(h2.len() as int)[0] == ok[0]);
    }
    let h3 = "BINDING_NONCE"@ + seq!['='];
    if h3.is_prefix_of(ok) {
        assert(ok.take(h3.len() as int)[0] == ok[0]);
    }
}

/// A rotation whose answer has key, version, nonce and report data is accepted if and only if the
/// report data is the hash that binds exactly that key, version and nonce; the text says so, and
/// only then.
pub proof fn law_rotation_is_checked(
    resp: FrameView,
    public_key: Seq<u8>,
    version: u64,
    nonce: Seq<u8>,
    report_data: Seq<u8>,
)
    requires
        resp.ok == Some(true),
        resp.public_key matches Some(t) && base64_read(t) == Ok::<Seq<u8>, Seq<char>>(public_key),
        resp.key_version == Some(version),
        resp.binding_nonce matches Some(t) && base64_read(t) == Ok::<Seq<u8>, Seq<char>>(nonce),
        resp.report_data matches Some(t) && base64_read(t) == Ok::<Seq<u8>, Seq<char>>(report_data),
    ensures
        rotate_answered(resp).1 is None <==> report_data == report_data_for(
            version,
            public_key,
            nonce,
        ),
        report_data != report_data_for(version, public_key, nonce) ==> rotate_answered(resp).1
            == Some("REPORTDATA binding mismatch after rotate"@),
        report_data == report_data_for(version, public_key, nonce) ==> (
        "REPORTDATA="@ + resp.report_data->0 + "\nREPORTDATA_BINDING_OK\n"@).is_suffix_of(
            rotate_answered(resp).0,
        ),
        report_data != report_data_for(version, public_key, nonce) ==> ("REPORTDATA="@
            + resp.report_data->0 + "\n"@).is_suffix_of(rotate_answered(resp).0),
{
    let text = rotate_answered(resp).0;
    let rd = resp.report_data->0;
    reveal_strlit("REPORTDATA=");
    reveal_strlit("REPORTDATA");
    reveal_strlit("=");
    reveal_strlit("\n");
    reveal_strlit("REPORTDATA_BINDING_OK\n");
    reveal_strlit("\nREPORTDATA_BINDING_OK\n");
    assert("REPORTDATA="@ =~= "REPORTDATA"@ + "="@);
    assert("\nREPORTDATA_BINDING_OK\n"@ =~= "\n"@ + "REPORTDATA_BINDING_OK\n"@);
    let plain = "REPORTDATA="@ + rd + "\n"@;
    let good = "REPORTDATA="@ + rd + "\nREPORTDATA_BINDING_OK\n"@;
    if report_data == report_data_for(version, public_key, nonce) {
        assert(text.skip(text.len() - good.len()) =~= good);
    } else {
        assert(text.skip(text.len() - plain.len()) =~= plain);
    }
}

/// What is printed of a challenge that was met says the nonce, and the quote of the answer if it has
/// one.
pub proof fn law_challenge_is_printed(nonce: Seq<u8>, resp: FrameView)
    requires
        on_one_line(resp.quote),
        !base64_text(nonce).contains('\n'),
    ensures
        said_under(challenge_text(nonce, resp), "NONCE"@) == Some(base64_text(nonce)),
        said_under(challenge_text(nonce, resp), "QUOTE"@) == resp.quote,
        challenge_text(nonce, resp) == "NONCE="@ + base64_text(nonce) + "\n"@ + line(
            "QUOTE"@,
            resp.quote,
        ),
{
    law_line_has_name_and_value("NONCE"@, base64_text(nonce));
    assert("NONCE="@ == "NONCE"@ + "="@) by {
        reveal_strlit("NONCE=");
        reveal_strlit("NONCE");
        reveal_strlit("=");
        assert("NONCE="@ =~= "NONCE"@ + "="@);
    }
    let e = Seq::<char>::empty();
    let l = line("QUOTE"@, resp.quote);
    lemma_names();
    lemma_line("NONCE"@, Some(base64_text(nonce)), l, "NONCE"@);
    lemma_line("NONCE"@, Some(base64_text(nonce)), l, "QUOTE"@);
    assert(l + e =~= l);
    lemma_line("QUOTE"@, resp.quote, e, "QUOTE"@);
    lemma_nothing_said("QUOTE"@);
}

/// A nonce in hexadecimal is taken if it has 1 to 255 bytes, and comes out as it was written.
pub proof fn law_nonce_of_a_challenge(nonce: Seq<u8>)
    ensures
        1 <= nonce.len() <= 255 ==> nonce_read(hex_text(nonce)) == Ok::<Seq<u8>, Seq<char>>(nonce),
        nonce.len() == 0 || nonce.len() > 255 ==> nonce_read(hex_text(nonce)) == Err::<
            Seq<u8>,
            Seq<char>,
        >("nonce length must be 1..=255"@),
{
    law_hex_read_back(nonce);
}

/// A text that is no hexadecimal is no nonce, and is refused for the same reason.
pub proof fn law_nonce_is_hexadecimal(text: Seq<char>)
    ensures
        hex_read(text) is Err ==> nonce_read(text) == hex_read(text),
        nonce_read(text) is Ok ==> nonce_read(text) == hex_read(text),
{
}

/// The nonce that is made of the time: the byte at each place, less the place, is the byte of the
/// time at that place, counted over and over.
pub proof fn law_time_nonce_repeats_the_time(now: u64, i: int)
    requires
        0 <= i < 32,
    ensures
        time_nonce_of(now).len() == 32,
        (time_nonce_of(now)[i] - i) % 256 == le(now as nat, 8)[i % 8],
        i >= 8 ==> (time_nonce_of(now)[i] - time_nonce_of(now)[i - 8]) % 256 == 8,
{
    crate::bytes::lemma_le_len(now as nat, 8);
}

/// What a client asks for: a challenge carries its id and the nonce; a request for the public key
/// and one for a rotation carry their op and an id; none carries anything else.
pub proof fn law_requests_carry_what_was_asked(id: u64, nonce: Seq<u8>, op: Seq<char>)
    requires
        decodes_to(base64_text(nonce), nonce),
    ensures
        challenge_frame(id, nonce).op == "challenge"@,
        challenge_frame(id, nonce).id == Some(id),
        challenge_frame(id, nonce).nonce matches Some(t) && base64_read(t) == Ok::<
            Seq<u8>,
            Seq<char>,
        >(nonce),
        (FrameView { id: None, nonce: None, ..challenge_frame(id, nonce) }) == bare_frame(
            "challenge"@,
        ),
        first_request(op).op == op,
        first_request(op).id == Some(1u64),
        (FrameView { id: None, ..first_request(op) }) == bare_frame(op),
{
}

/// The key that is taken from the answer to a challenge is the one in its field, with the version in
/// its field, or zero where it has none.
pub proof fn law_key_is_taken_from_the_answer(resp: FrameView)
    ensures
        resp.public_key is None ==> challenged_key(resp) == Err::<(u64, Seq<u8>), Seq<char>>(
            "no public_key"@,
        ),
        resp.public_key matches Some(t) ==> match base64_read(t) {
            Ok(key) => challenged_key(resp) matches Ok((v, k)) && k == key && v
                == match resp.key_version {
                Some(v) => v,
                None => 0,
            },
            Err(e) => challenged_key(resp) == Err::<(u64, Seq<u8>), Seq<char>>(e),
        },
{
}

/// A request to compute carries the inputs where only the enclave can read them, under associated
/// data that names version, id, op and key version, and nothing in clear.
pub proof fn law_request_to_compute_shows_no_inputs(
    f: FrameView,
    id: u64,
    key_version: u64,
    public_key: Seq<u8>,
    x: i64,
    y: i64,
)
    requires
        asks_to_compute(f, id, key_version, public_key, x, y),
    ensures
        f.op == "compute"@,
        f.id == Some(id),
        f.key_version == Some(key_version),
        f.aad_json == Some(
            "{\"v\":1,\"id\":"@ + dec_int(id as int) + ",\"op\":\"compute\",\"key_version\":"@
                + dec_int(key_version as int) + "}"@,
        ),
        f.ct is Some && f.x is None && f.y is None && f.result is None && f.message is None,
        (FrameView { id: None, key_version: None, ct: None, aad_json: None, ..f }) == bare_frame(
            "compute"@,
        ),
{
    law_integers_are_written_in_decimal(id as int);
    law_integers_are_written_in_decimal(key_version as int);
    reveal_strlit("{\"v\":");
    reveal_strlit(",\"id\":");
    reveal_strlit("{\"v\":1,\"id\":");
    reveal_strlit(",\"op\":\"");
    reveal_strlit("compute");
    reveal_strlit("\",\"key_version\":");
    reveal_strlit(",\"op\":\"compute\",\"key_version\":");
    assert("{\"v\":1,\"id\":"@ =~= "{\"v\":"@ + dec(1) + ",\"id\":"@);
    let a = "{\"v\":1,\"id\":"@ + dec(id as nat);
    assert(a + ",\"op\":\"compute\",\"key_version\":"@ =~= a + ",\"op\":\""@ + "compute"@
        + "\",\"key_version\":"@);
}

/// A rotation whose key, nonce or report data cannot be read is not accepted, and the reason is told:
/// of the key first, then of the nonce.
pub proof fn law_unreadable_rotation_is_told(
    resp: FrameView,
    rd: Seq<char>,
    pk: Seq<char>,
    nonce: Seq<char>,
    version: u64,
)
    requires
        resp.ok == Some(true),
        resp.report_data == Some(rd),
        resp.public_key == Some(pk),
        resp.binding_nonce == Some(nonce),
        resp.key_version == Some(version),
    ensures
        base64_read(pk) matches Err(e) ==> rotate_answered(resp).1 == Some(e),
        base64_read(pk) is Ok ==> (base64_read(nonce) matches Err(e) ==> rotate_answered(resp).1
            == Some(e)),
        base64_read(pk) is Ok && base64_read(nonce) is Ok ==> (base64_read(rd) matches Err(e)
            ==> rotate_answered(resp).1 == Some(e)),
{
}

/// An answer to a challenge that is not accepted is refused for what is wrong with it first: that the
/// challenge was not met, then that its attestation does not verify, then that it has no key.
pub proof fn law_refused_challenge_is_told_why(
    resp: FrameView,
    nonce: Seq<u8>,
    expected_mrenclave: Option<Seq<char>>,
    collateral: CollateralView,
    now: u64,
)
    ensures
        ({
            let out = challenge_accepted(resp, nonce, expected_mrenclave, collateral, now);
            let verdict = frame_verdict(resp, Some(nonce), expected_mrenclave, collateral, now);
            &&& (resp.ok != Some(true) && resp.error is None ==> out == Err::<
                (Seq<char>, u64, Seq<u8>),
                Seq<char>,
            >("challenge failed: "@))
            &&& (resp.ok != Some(true) ==> (resp.error matches Some(e) ==> out == Err::<
                (Seq<char>, u64, Seq<u8>),
                Seq<char>,
            >("challenge failed: "@ + e)))
            &&& (resp.ok == Some(true) ==> (verdict matches Err(e) ==> out == Err::<
                (Seq<char>, u64, Seq<u8>),
                Seq<char>,
            >(e)))
            &&& (resp.ok == Some(true) ==> (verdict matches Ok(lines) ==> match challenged_key(
                resp,
            ) {
                Err(e) => out == Err::<(Seq<char>, u64, Seq<u8>), Seq<char>>(e),
                Ok((version, key)) => out == Ok::<(Seq<char>, u64, Seq<u8>), Seq<char>>(
                    (lines, version, key),
                ),
            }))
        }),
{
    assert("challenge failed: "@ + Seq::<char>::empty() =~= "challenge failed: "@);
}

} // verus!
