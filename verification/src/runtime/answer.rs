//! What the runtime answers.

use vstd::prelude::*;
use vstd::utf8::{decode_utf8, encode_utf8, valid_utf8};

use crate::aead::{aad_json, aad_text};
use crate::compute::{compute_checked, fits, parse_xy_json, value, xy_read};
use crate::frame::{
    bare_frame, copy_text, Frame, FrameView, ERR_BAD_INPUT, OP_CLIENT_COMPUTE,
    OP_HOST_ATTESTATION_RESPONSE, OP_HOST_COMPUTE_RESPONSE, OP_HOST_READY, OP_HOST_ROTATE_RESPONSE,
};
use crate::key_store::{store_opened, KeyStore, StoreView};
use crate::outside::{b64_decode, b64_encode, base64_read, base64_text, utf8_error_text, utf8_text};
use crate::text::with_text;
use crate::views::optional;

verus! {

/// The frame that says that the runtime is ready, with its current key.
pub open spec fn ready_frame(store: StoreView) -> FrameView {
    FrameView {
        ok: Some(true),
        key_version: Some(store.current_version),
        public_key: match store.current() {
            Some(k) => Some(base64_text(k.public_key)),
            None => None,
        },
        ..bare_frame(OP_HOST_READY@)
    }
}

/// Says that the runtime is ready.
pub fn ready(store: &KeyStore) -> (out: Frame)
    ensures
        out@ == ready_frame(store@),
{
    let mut out = Frame::new(OP_HOST_READY);
    out.ok = Some(true);
    out.key_version = Some(store.current_version);
    match store.current() {
        Some(k) => {
            out.public_key = Some(b64_encode(k.public_key.as_slice()));
        },
        None => {},
    }
    out
}

/// The frame that carries an attestation.
pub open spec fn attestation_frame(
    attested_at: u64,
    version: u64,
    public_key: Seq<u8>,
    quote: Seq<u8>,
    nonce: Seq<u8>,
    report_data: Seq<u8>,
) -> FrameView {
    FrameView {
        ok: Some(true),
        attested_at: Some(attested_at),
        key_version: Some(version),
        public_key: Some(base64_text(public_key)),
        quote: Some(base64_text(quote)),
        binding_nonce: Some(base64_text(nonce)),
        report_data: Some(base64_text(report_data)),
        ..bare_frame(OP_HOST_ATTESTATION_RESPONSE@)
    }
}

/// Makes the frame that carries an attestation.
pub fn attestation(
    attested_at: u64,
    version: u64,
    public_key: &[u8],
    quote: &[u8],
    nonce: &[u8],
    report_data: &[u8],
) -> (out: Frame)
    ensures
        out@ == attestation_frame(
            attested_at,
            version,
            public_key@,
            quote@,
            nonce@,
            report_data@,
        ),
{
    let mut out = Frame::new(OP_HOST_ATTESTATION_RESPONSE);
    out.ok = Some(true);
    out.attested_at = Some(attested_at);
    out.key_version = Some(version);
    out.public_key = Some(b64_encode(public_key));
    out.quote = Some(b64_encode(quote));
    out.binding_nonce = Some(b64_encode(nonce));
    out.report_data = Some(b64_encode(report_data));
    out
}

/// The answer to a rotation: the new key, with the attestation of it.
pub open spec fn rotation_frame(
    id: Option<u64>,
    version: u64,
    public_key: Seq<u8>,
    attest: FrameView,
) -> FrameView {
    FrameView {
        id,
        ok: Some(true),
        key_version: Some(version),
        public_key: Some(base64_text(public_key)),
        quote: attest.quote,
        binding_nonce: attest.binding_nonce,
        report_data: attest.report_data,
        attested_at: attest.attested_at,
        ..bare_frame(OP_HOST_ROTATE_RESPONSE@)
    }
}

/// Answers a rotation.
pub fn rotation(id: Option<u64>, version: u64, public_key: &[u8], attest: &Frame) -> (out: Frame)
    ensures
        out@ == rotation_frame(id, version, public_key@, attest@),
{
    let mut out = Frame::new(OP_HOST_ROTATE_RESPONSE);
    out.id = id;
    out.ok = Some(true);
    out.key_version = Some(version);
    out.public_key = Some(b64_encode(public_key));
    out.quote = copy_text(&attest.quote);
    out.binding_nonce = copy_text(&attest.binding_nonce);
    out.report_data = copy_text(&attest.report_data);
    out.attested_at = attest.attested_at;
    out
}

/// The answer to a frame with an op that the runtime does not have.
pub open spec fn unsupported_frame(request: FrameView) -> FrameView {
    FrameView {
        id: request.id,
        ok: Some(false),
        error: Some("unsupported op: "@ + request.op),
        ..bare_frame(request.op + "_error"@)
    }
}

/// Answers a frame with an op that the runtime does not have.
pub fn unsupported(request: &Frame) -> (out: Frame)
    ensures
        out@ == unsupported_frame(request@),
{
    let mut out = Frame::new(with_text(request.op.as_str(), "_error").as_str());
    out.id = request.id;
    out.ok = Some(false);
    out.error = Some(with_text("unsupported op: ", request.op.as_str()));
    out
}

/// What a request to compute holds, once it is decrypted: the inputs, or an error code and what it
/// means.
pub open spec fn inputs(store: StoreView, key_version: u64, ct_b64: Seq<char>, aad: Seq<char>) -> Result<
    (i64, i64),
    (Seq<char>, Seq<char>),
> {
    match base64_read(ct_b64) {
        Err(e) => Err((ERR_BAD_INPUT@, e)),
        Ok(ct) => match store_opened(store, key_version, ct, encode_utf8(aad)) {
            Err(e) => Err((e.code_text(), e.message_text())),
            Ok(plaintext) => if !valid_utf8(plaintext) {
                Err((ERR_BAD_INPUT@, utf8_error_text(plaintext)))
            } else {
                match xy_read(decode_utf8(plaintext)) {
                    Err(e) => Err((ERR_BAD_INPUT@, e)),
                    Ok(xy) => Ok(xy),
                }
            },
        },
    }
}

/// An error code and what it means.
pub struct Refusal {
    pub code: String,
    pub message: String,
}

/// Decrypts and reads the inputs of a request to compute.
pub fn read_inputs(store: &KeyStore, key_version: u64, ct_b64: &str, aad: &str) -> (out: Result<
    (i64, i64),
    Refusal,
>)
    ensures
        match out {
            Ok(xy) => inputs(store@, key_version, ct_b64@, aad@) == Ok::<
                (i64, i64),
                (Seq<char>, Seq<char>),
            >(xy),
            Err(r) => inputs(store@, key_version, ct_b64@, aad@) == Err::<
                (i64, i64),
                (Seq<char>, Seq<char>),
            >((r.code@, r.message@)),
        },
{
    let ct = match b64_decode(ct_b64) {
        Ok(ct) => ct,
        Err(e) => return Err(Refusal { code: ERR_BAD_INPUT.to_owned(), message: e }),
    };
    let plaintext = match store.decrypt(key_version, ct.as_slice(), aad.as_bytes()) {
        Ok(plaintext) => plaintext,
        Err(e) => return Err(
            Refusal { code: e.code().to_owned(), message: e.message().to_owned() },
        ),
    };
    let text = match utf8_text(plaintext.as_slice()) {
        Ok(text) => text,
        Err(e) => return Err(Refusal { code: ERR_BAD_INPUT.to_owned(), message: e }),
    };
    match parse_xy_json(text.as_str()) {
        Ok(xy) => Ok(xy),
        Err(e) => Err(Refusal { code: ERR_BAD_INPUT.to_owned(), message: e }),
    }
}

/// The answer that refuses to compute.
pub open spec fn refused_frame(id: Option<u64>, code: Seq<char>, message: Seq<char>) -> FrameView {
    FrameView {
        id,
        ok: Some(false),
        code: Some(code),
        error: Some(message),
        ..bare_frame(OP_HOST_COMPUTE_RESPONSE@)
    }
}

/// The answer with a result.
pub open spec fn result_frame(id: Option<u64>, result: i64) -> FrameView {
    FrameView {
        id,
        ok: Some(true),
        result: Some(result),
        ..bare_frame(OP_HOST_COMPUTE_RESPONSE@)
    }
}

/// The associated data of a request: what it names or, where it names none, what it should have
/// been.
pub open spec fn request_aad(request: FrameView) -> Seq<char> {
    match request.aad_json {
        Some(aad) => aad,
        None => aad_text(
            request.v,
            request.id.unwrap_or(0),
            OP_CLIENT_COMPUTE@,
            request.key_version.unwrap_or(0),
        ),
    }
}

/// The answer to a request to compute; none if a step of the computation does not fit in 64 bits.
pub open spec fn compute_frame(store: StoreView, request: FrameView) -> Option<FrameView> {
    match request.ct {
        None => Some(refused_frame(request.id, ERR_BAD_INPUT@, "missing ct"@)),
        Some(ct) => match inputs(
            store,
            request.key_version.unwrap_or(0),
            ct,
            request_aad(request),
        ) {
            Err((code, message)) => Some(refused_frame(request.id, code, message)),
            Ok((x, y)) => if fits(x, y) {
                Some(result_frame(request.id, value(x as int, y as int) as i64))
            } else {
                None
            },
        },
    }
}

/// Refuses to compute.
fn refuse(id: Option<u64>, code: String, message: String) -> (out: Frame)
    ensures
        out@ == refused_frame(id, code@, message@),
{
    let mut out = Frame::new(OP_HOST_COMPUTE_RESPONSE);
    out.id = id;
    out.ok = Some(false);
    out.code = Some(code);
    out.error = Some(message);
    out
}

/// Answers a request to compute; gives nothing if a step of the computation does not fit in 64
/// bits.
pub fn compute_response(store: &KeyStore, request: &Frame) -> (out: Option<Frame>)
    ensures
        optional(out) == compute_frame(store@, request@),
{
    let ct = match &request.ct {
        Some(ct) => ct,
        None => return Some(
            refuse(request.id, ERR_BAD_INPUT.to_owned(), "missing ct".to_owned()),
        ),
    };
    let key_version: u64 = match request.key_version {
        Some(v) => v,
        None => 0,
    };
    let aad = match &request.aad_json {
        Some(aad) => aad.clone(),
        None => {
            let id: u64 = match request.id {
                Some(id) => id,
                None => 0,
            };
            aad_json(request.v, id, OP_CLIENT_COMPUTE, key_version)
        },
    };
    match read_inputs(store, key_version, ct.as_str(), aad.as_str()) {
        Ok((x, y)) => match compute_checked(x, y) {
            Some(result) => {
                let mut out = Frame::new(OP_HOST_COMPUTE_RESPONSE);
                out.id = request.id;
                out.ok = Some(true);
                out.result = Some(result);
                Some(out)
            },
            None => None,
        },
        Err(r) => Some(refuse(request.id, r.code, r.message)),
    }
}

} // verus!
