//! How the host serves a client: what it answers itself, what it passes on to the runtime, and what
//! it makes of the runtime's answer. It never looks into a ciphertext.

use vstd::prelude::*;
use vstd::utf8::encode_utf8;

use crate::aead::{aad_json, aad_text};
use crate::frame::{
    bare_frame, copy_text, Frame, FrameView, OP_CLIENT_CHALLENGE, OP_CLIENT_COMPUTE,
    OP_CLIENT_PUBKEY, OP_CLIENT_ROTATE, OP_HOST_CHALLENGE_RESULT, OP_HOST_COMPUTE_RESULT,
    OP_HOST_PUBKEY_RESULT, OP_HOST_ROTATE_RESULT,
};
use crate::host::{
    answer_taken, attestation_request, attestation_taken, bundle_of, compute_request, next,
    rotate_request, rotation_taken, AttestationBundle, BundleView, ConnectionView, Reply, ReplyView,
    RuntimeConnection,
};
use crate::outside::{b64_decode, base64_read, base64_text};
use crate::report_data::report_data_for;
use crate::text::{dec_int, law_integers_are_written_in_decimal, same_text, with_text};

verus! {

/// The nonce of an attestation that is made for a client who asks for the public key.
pub const PUBKEY_NONCE: &'static str = "pubkey-attest-nonce";

/// What a client waits for: the answer of the runtime to the request `id`, for the client's own
/// request `client_id`.
#[derive(Clone, Copy, Debug, PartialEq, Eq, Structural)]
pub enum Wait {
    Compute { client_id: u64, id: u64 },
    Challenge { client_id: u64, id: u64 },
    Pubkey { client_id: u64, id: u64 },
    Rotate { client_id: u64, id: u64 },
}

/// What the host does next about a client.
pub enum Serving {
    /// It answers, and is done.
    Answer(Frame),
    /// It gives up, with no answer.
    Fail(String),
    /// It sends a frame to the runtime and waits for the answer.
    Forward { frame: Frame, wait: Wait },
    /// It waits on.
    Await(Wait),
}

/// What a [`Serving`] holds.
pub ghost enum ServingView {
    Answer(FrameView),
    Fail(Seq<char>),
    Forward { frame: FrameView, wait: Wait },
    Await(Wait),
}

impl View for Serving {
    type V = ServingView;

    open spec fn view(&self) -> ServingView {
        match self {
            Serving::Answer(f) => ServingView::Answer(f@),
            Serving::Fail(e) => ServingView::Fail(e@),
            Serving::Forward { frame, wait } => ServingView::Forward { frame: frame@, wait: *wait },
            Serving::Await(wait) => ServingView::Await(*wait),
        }
    }
}

/// An answer that says what went wrong.
pub open spec fn refusal(op: Seq<char>, client_id: u64, error: Seq<char>) -> FrameView {
    FrameView { id: Some(client_id), ok: Some(false), error: Some(error), ..bare_frame(op) }
}

/// The answer to a client that asks to compute: the result, or the error and its code.
pub open spec fn compute_result(client_id: u64, resp: FrameView) -> FrameView {
    if resp.ok == Some(true) {
        FrameView {
            id: Some(client_id),
            ok: Some(true),
            result: resp.result,
            status: Some("ok"@),
            ..bare_frame(OP_HOST_COMPUTE_RESULT@)
        }
    } else {
        FrameView {
            id: Some(client_id),
            ok: Some(false),
            status: Some("error"@),
            code: resp.code,
            error: resp.error,
            ..bare_frame(OP_HOST_COMPUTE_RESULT@)
        }
    }
}

/// The answer to a client that asks for an attestation or a rotation.
pub open spec fn attested_result(op: Seq<char>, client_id: u64, resp: FrameView) -> FrameView {
    FrameView {
        id: Some(client_id),
        ok: Some(true),
        key_version: resp.key_version,
        public_key: resp.public_key,
        quote: resp.quote,
        binding_nonce: resp.binding_nonce,
        report_data: resp.report_data,
        attested_at: resp.attested_at,
        ..bare_frame(op)
    }
}

/// The answer to a client that asks for the public key.
pub open spec fn pubkey_result(client_id: u64, bundle: BundleView) -> FrameView {
    FrameView {
        id: Some(client_id),
        ok: Some(true),
        key_version: Some(bundle.key_version),
        public_key: bundle.public_key,
        attested_at: Some(bundle.attested_at),
        quote: bundle.quote,
        binding_nonce: bundle.binding_nonce,
        report_data: bundle.report_data,
        ..bare_frame(OP_HOST_PUBKEY_RESULT@)
    }
}

/// The step that sends a request with the next id to the runtime.
pub open spec fn forwarded(c: ConnectionView, frame: FrameView, wait: Wait) -> (
    ConnectionView,
    ServingView,
) {
    (ConnectionView { next_id: next(c), ..c }, ServingView::Forward { frame, wait })
}

/// What the host does about a client's request.
pub open spec fn request_served(c: ConnectionView, req: FrameView) -> (ConnectionView, ServingView) {
    let client_id = req.id.unwrap_or(0);
    let id = next(c);
    if req.op == OP_CLIENT_COMPUTE@ {
        let key_version = req.key_version.unwrap_or(1);
        let aad = match req.aad_json {
            Some(aad) => aad,
            None => aad_text(req.v, client_id, OP_CLIENT_COMPUTE@, key_version),
        };
        match req.ct {
            None => (c, ServingView::Fail("missing ct"@)),
            Some(ct) => forwarded(
                c,
                compute_request(id, ct, aad, key_version),
                Wait::Compute { client_id, id },
            ),
        }
    } else if req.op == OP_CLIENT_CHALLENGE@ {
        match req.nonce {
            None => (
                c,
                ServingView::Answer(
                    refusal(OP_HOST_CHALLENGE_RESULT@, client_id, "missing nonce"@),
                ),
            ),
            Some(text) => match base64_read(text) {
                Err(e) => (c, ServingView::Fail(e)),
                Ok(nonce) => forwarded(
                    c,
                    attestation_request(id, Some(nonce)),
                    Wait::Challenge { client_id, id },
                ),
            },
        }
    } else if req.op == OP_CLIENT_PUBKEY@ {
        if c.latest_bundle.quote is Some {
            (c, ServingView::Answer(pubkey_result(client_id, c.latest_bundle)))
        } else {
            forwarded(
                c,
                attestation_request(id, Some(encode_utf8(PUBKEY_NONCE@))),
                Wait::Pubkey { client_id, id },
            )
        }
    } else if req.op == OP_CLIENT_ROTATE@ {
        forwarded(c, rotate_request(id), Wait::Rotate { client_id, id })
    } else {
        (
            c,
            ServingView::Answer(
                refusal("error"@, client_id, "unsupported client op: "@ + req.op),
            ),
        )
    }
}

/// What the host does about a frame from the runtime while a client waits.
pub open spec fn response_served(c: ConnectionView, wait: Wait, resp: FrameView) -> (
    ConnectionView,
    ServingView,
) {
    match wait {
        Wait::Compute { client_id, id } => {
            let (after, reply) = answer_taken(c, id, client_id, resp);
            (
                after,
                match reply {
                    ReplyView::More => ServingView::Await(wait),
                    ReplyView::Done(f) => ServingView::Answer(compute_result(client_id, f)),
                    ReplyView::Fail(e) => ServingView::Fail(e),
                },
            )
        },
        Wait::Challenge { client_id, id } => {
            let (after, reply) = attestation_taken(c, id, resp);
            (
                after,
                match reply {
                    Ok(f) => ServingView::Answer(
                        attested_result(OP_HOST_CHALLENGE_RESULT@, client_id, f),
                    ),
                    Err(e) => ServingView::Fail(e),
                },
            )
        },
        Wait::Pubkey { client_id, id } => {
            let (after, reply) = attestation_taken(c, id, resp);
            (
                after,
                match reply {
                    Ok(_) => ServingView::Answer(pubkey_result(client_id, after.latest_bundle)),
                    Err(e) => ServingView::Fail(e),
                },
            )
        },
        Wait::Rotate { client_id, id } => {
            let (after, reply) = rotation_taken(c, id, resp);
            (
                after,
                match reply {
                    ReplyView::More => ServingView::Await(wait),
                    ReplyView::Done(f) => ServingView::Answer(
                        attested_result(OP_HOST_ROTATE_RESULT@, client_id, f),
                    ),
                    ReplyView::Fail(e) => ServingView::Fail(e),
                },
            )
        },
    }
}

/// An answer that says what went wrong.
fn refuse(op: &str, client_id: u64, error: String) -> (out: Frame)
    ensures
        out@ == refusal(op@, client_id, error@),
{
    let mut out = Frame::new(op);
    out.id = Some(client_id);
    out.ok = Some(false);
    out.error = Some(error);
    out
}

/// Answers a client that asks to compute.
fn computed(client_id: u64, resp: Frame) -> (out: Frame)
    ensures
        out@ == compute_result(client_id, resp@),
{
    let mut out = Frame::new(OP_HOST_COMPUTE_RESULT);
    out.id = Some(client_id);
    if resp.ok == Some(true) {
        out.ok = Some(true);
        out.result = resp.result;
        out.status = Some("ok".to_owned());
    } else {
        out.ok = Some(false);
        out.status = Some("error".to_owned());
        out.code = resp.code;
        out.error = resp.error;
    }
    out
}

/// Answers a client that asks for an attestation or a rotation.
fn attested(op: &str, client_id: u64, resp: Frame) -> (out: Frame)
    ensures
        out@ == attested_result(op@, client_id, resp@),
{
    let mut out = Frame::new(op);
    out.id = Some(client_id);
    out.ok = Some(true);
    out.key_version = resp.key_version;
    out.public_key = resp.public_key;
    out.quote = resp.quote;
    out.binding_nonce = resp.binding_nonce;
    out.report_data = resp.report_data;
    out.attested_at = resp.attested_at;
    out
}

/// Answers a client that asks for the public key.
fn pubkey(client_id: u64, bundle: &AttestationBundle) -> (out: Frame)
    ensures
        out@ == pubkey_result(client_id, bundle@),
{
    let mut out = Frame::new(OP_HOST_PUBKEY_RESULT);
    out.id = Some(client_id);
    out.ok = Some(true);
    out.key_version = Some(bundle.key_version);
    out.public_key = copy_text(&bundle.public_key);
    out.attested_at = Some(bundle.attested_at);
    out.quote = copy_text(&bundle.quote);
    out.binding_nonce = copy_text(&bundle.binding_nonce);
    out.report_data = copy_text(&bundle.report_data);
    out
}

/// Whether a client's request is passed on to the runtime, which takes an id.
pub fn passes_on(runtime: &RuntimeConnection, req: &Frame) -> (yes: bool)
    ensures
        yes == (request_served(runtime@, req@).1 is Forward),
{
    let op = req.op.as_str();
    if same_text(op, OP_CLIENT_COMPUTE) {
        return req.ct.is_some();
    }
    if same_text(op, OP_CLIENT_CHALLENGE) {
        return match &req.nonce {
            Some(text) => b64_decode(text.as_str()).is_ok(),
            None => false,
        };
    }
    if same_text(op, OP_CLIENT_PUBKEY) {
        return runtime.latest_bundle.quote.is_none();
    }
    same_text(op, OP_CLIENT_ROTATE)
}

/// Takes a client's request.
pub fn handle_client(runtime: &mut RuntimeConnection, req: Frame) -> (out: Serving)
    requires
        request_served(old(runtime)@, req@).1 is Forward ==> old(runtime).next_id < u64::MAX,
    ensures
        (final(runtime)@, out@) == request_served(old(runtime)@, req@),
{
    let client_id: u64 = match req.id {
        Some(id) => id,
        None => 0,
    };
    if same_text(req.op.as_str(), OP_CLIENT_COMPUTE) {
        let ct = match &req.ct {
            Some(ct) => ct,
            None => return Serving::Fail("missing ct".to_owned()),
        };
        let key_version: u64 = match req.key_version {
            Some(v) => v,
            None => 1,
        };
        let aad = match &req.aad_json {
            Some(aad) => aad.clone(),
            None => aad_json(req.v, client_id, OP_CLIENT_COMPUTE, key_version),
        };
        let frame = runtime.request_compute_ct(ct.as_str(), aad.as_str(), key_version);
        let id: u64 = runtime.next_id;
        return Serving::Forward { frame, wait: Wait::Compute { client_id, id } };
    }
    if same_text(req.op.as_str(), OP_CLIENT_CHALLENGE) {
        let nonce = match &req.nonce {
            Some(text) => match b64_decode(text.as_str()) {
                Ok(nonce) => nonce,
                Err(e) => return Serving::Fail(e),
            },
            None => return Serving::Answer(
                refuse(OP_HOST_CHALLENGE_RESULT, client_id, "missing nonce".to_owned()),
            ),
        };
        let frame = runtime.request_attestation(Some(nonce.as_slice()));
        let id: u64 = runtime.next_id;
        return Serving::Forward { frame, wait: Wait::Challenge { client_id, id } };
    }
    if same_text(req.op.as_str(), OP_CLIENT_PUBKEY) {
        if runtime.latest_bundle.quote.is_some() {
            return Serving::Answer(pubkey(client_id, &runtime.latest_bundle));
        }
        let frame = runtime.request_attestation(Some(PUBKEY_NONCE.as_bytes()));
        let id: u64 = runtime.next_id;
        return Serving::Forward { frame, wait: Wait::Pubkey { client_id, id } };
    }
    if same_text(req.op.as_str(), OP_CLIENT_ROTATE) {
        let frame = runtime.request_rotate();
        let id: u64 = runtime.next_id;
        return Serving::Forward { frame, wait: Wait::Rotate { client_id, id } };
    }
    Serving::Answer(
        refuse("error", client_id, with_text("unsupported client op: ", req.op.as_str())),
    )
}

/// Takes a frame from the runtime while a client waits.
pub fn handle_response(runtime: &mut RuntimeConnection, wait: Wait, resp: Frame) -> (out: Serving)
    ensures
        (final(runtime)@, out@) == response_served(old(runtime)@, wait, resp@),
{
    match wait {
        Wait::Compute { client_id, id } => match runtime.take_answer(id, client_id, resp) {
            Reply::More => Serving::Await(wait),
            Reply::Done(f) => Serving::Answer(computed(client_id, f)),
            Reply::Fail(e) => Serving::Fail(e),
        },
        Wait::Challenge { client_id, id } => match runtime.take_attestation(id, resp) {
            Ok(f) => Serving::Answer(attested(OP_HOST_CHALLENGE_RESULT, client_id, f)),
            Err(e) => Serving::Fail(e),
        },
        Wait::Pubkey { client_id, id } => match runtime.take_attestation(id, resp) {
            Ok(_) => Serving::Answer(pubkey(client_id, &runtime.latest_bundle)),
            Err(e) => Serving::Fail(e),
        },
        Wait::Rotate { client_id, id } => match runtime.take_rotation(id, resp) {
            Reply::More => Serving::Await(wait),
            Reply::Done(f) => Serving::Answer(attested(OP_HOST_ROTATE_RESULT, client_id, f)),
            Reply::Fail(e) => Serving::Fail(e),
        },
    }
}

/// The client that a wait is for.
pub open spec fn client_of(wait: Wait) -> u64 {
    match wait {
        Wait::Compute { client_id, .. } => client_id,
        Wait::Challenge { client_id, .. } => client_id,
        Wait::Pubkey { client_id, .. } => client_id,
        Wait::Rotate { client_id, .. } => client_id,
    }
}

/// The request of the runtime that a wait is for.
pub open spec fn request_of(wait: Wait) -> u64 {
    match wait {
        Wait::Compute { id, .. } => id,
        Wait::Challenge { id, .. } => id,
        Wait::Pubkey { id, .. } => id,
        Wait::Rotate { id, .. } => id,
    }
}

/// A client is answered under the id of its own request, whatever ids the host uses towards the
/// runtime, and a request that is passed on has an id that no request before it had.
pub proof fn law_clients_get_their_own_ids(
    c: ConnectionView,
    req: FrameView,
    wait: Wait,
    resp: FrameView,
)
    requires
        c.next_id < u64::MAX,
    ensures
        match request_served(c, req).1 {
            ServingView::Answer(f) => f.id == Some(req.id.unwrap_or(0)),
            ServingView::Forward { frame, wait: w } => client_of(w) == req.id.unwrap_or(0)
                && frame.id == Some(request_of(w)) && request_of(w) == c.next_id + 1
                && request_served(c, req).0.next_id == request_of(w),
            ServingView::Fail(_) => true,
            ServingView::Await(_) => false,
        },
        match response_served(c, wait, resp).1 {
            ServingView::Answer(f) => f.id == Some(client_of(wait)),
            ServingView::Await(w) => w == wait,
            ServingView::Fail(_) => true,
            ServingView::Forward { .. } => false,
        },
{
}

/// A ciphertext is passed on as it came, with the associated data and the key version that it was
/// made for, and with nothing in clear.
pub proof fn law_ciphertext_is_passed_on_unread(c: ConnectionView, req: FrameView)
    requires
        req.op == OP_CLIENT_COMPUTE@,
        req.ct is Some,
        req.aad_json is Some,
        req.key_version is Some,
    ensures
        request_served(c, req).1 matches ServingView::Forward { frame, .. } && frame.ct == req.ct
            && frame.aad_json == req.aad_json && frame.key_version == req.key_version && frame.x
            is None && frame.y is None,
{
}

/// The ops of clients' requests differ.
pub proof fn lemma_client_ops_differ()
    ensures
        OP_CLIENT_COMPUTE@ != OP_CLIENT_CHALLENGE@,
        OP_CLIENT_COMPUTE@ != OP_CLIENT_PUBKEY@,
        OP_CLIENT_COMPUTE@ != OP_CLIENT_ROTATE@,
        OP_CLIENT_CHALLENGE@ != OP_CLIENT_PUBKEY@,
        OP_CLIENT_CHALLENGE@ != OP_CLIENT_ROTATE@,
        OP_CLIENT_PUBKEY@ != OP_CLIENT_ROTATE@,
{
    reveal_strlit("compute");
    reveal_strlit("challenge");
    reveal_strlit("pubkey");
    reveal_strlit("rotate");
    assert(OP_CLIENT_COMPUTE@[1] == 'o');
    assert(OP_CLIENT_CHALLENGE@[1] == 'h');
    assert(OP_CLIENT_PUBKEY@[0] == 'p');
    assert(OP_CLIENT_ROTATE@[0] == 'r');
}

/// A request to compute is passed on with the ciphertext that it has, under the key version that it
/// names, or 1, and with the associated data that it names, or else what it should have been. One
/// with no ciphertext is given up.
pub proof fn law_compute_request_is_passed_on(c: ConnectionView, req: FrameView)
    requires
        req.op == "compute"@,
        c.next_id < u64::MAX,
    ensures
        req.ct is None ==> request_served(c, req) == (c, ServingView::Fail("missing ct"@)),
        req.ct is Some ==> {
            let version: u64 = match req.key_version {
                Some(v) => v,
                None => 1,
            };
            let client_id: u64 = match req.id {
                Some(id) => id,
                None => 0,
            };
            &&& request_served(c, req).0 == (ConnectionView {
                next_id: (c.next_id + 1) as u64,
                ..c
            })
            &&& request_served(c, req).1 matches ServingView::Forward { frame, wait }
            &&& wait == (Wait::Compute { client_id, id: (c.next_id + 1) as u64 })
            &&& frame.op == "runtime.ComputeRequest"@
            &&& frame.id == Some((c.next_id + 1) as u64)
            &&& frame.ct == req.ct
            &&& frame.key_version == Some(version)
            &&& (req.aad_json is Some ==> frame.aad_json == req.aad_json)
            &&& (req.aad_json is None ==> frame.aad_json == Some(
                "{\"v\":"@ + dec_int(req.v as int) + ",\"id\":"@ + dec_int(client_id as int)
                    + ",\"op\":\""@ + "compute"@ + "\",\"key_version\":"@ + dec_int(version as int)
                    + "}"@,
            ))
            &&& frame.x is None && frame.y is None
        },
{
    law_integers_are_written_in_decimal(req.v as int);
    law_integers_are_written_in_decimal(req.id.unwrap_or(0) as int);
    law_integers_are_written_in_decimal(req.key_version.unwrap_or(1) as int);
}

/// A challenge is passed on as a request for an attestation under the client's very nonce. One with
/// no nonce is refused; one whose nonce cannot be read is given up.
pub proof fn law_challenge_is_passed_on(c: ConnectionView, req: FrameView)
    requires
        req.op == "challenge"@,
        c.next_id < u64::MAX,
    ensures
        ({
            let client_id: u64 = match req.id {
                Some(id) => id,
                None => 0,
            };
            match req.nonce {
                None => {
                    &&& request_served(c, req).0 == c
                    &&& request_served(c, req).1 matches ServingView::Answer(a)
                    &&& a.op == "challenge_result"@ && a.id == Some(client_id)
                    &&& a.ok == Some(false) && a.error == Some("missing nonce"@)
                    &&& (FrameView { id: None, ok: None, error: None, ..a }) == bare_frame(a.op)
                },
                Some(text) => match base64_read(text) {
                    Err(e) => request_served(c, req) == (c, ServingView::Fail(e)),
                    Ok(nonce) => {
                        &&& request_served(c, req).0 == (ConnectionView {
                            next_id: (c.next_id + 1) as u64,
                            ..c
                        })
                        &&& request_served(c, req).1 matches ServingView::Forward { frame, wait }
                        &&& wait == (Wait::Challenge { client_id, id: (c.next_id + 1) as u64 })
                        &&& frame.op == "runtime.AttestationRequest"@
                        &&& frame.id == Some((c.next_id + 1) as u64)
                        &&& frame.nonce == Some(base64_text(nonce))
                    },
                },
            }
        }),
{
    lemma_client_ops_differ();
}

/// A request for the public key is answered from the kept attestation, field by field, if it has a
/// quote; and otherwise an attestation is asked for first. A request for a rotation is passed on. Any
/// other is refused in words.
pub proof fn law_other_requests_are_served(c: ConnectionView, req: FrameView)
    requires
        c.next_id < u64::MAX,
    ensures
        ({
            let client_id: u64 = match req.id {
                Some(id) => id,
                None => 0,
            };
            let next_id = (c.next_id + 1) as u64;
            let b = c.latest_bundle;
            &&& (req.op == "pubkey"@ && b.quote is Some ==> {
                &&& request_served(c, req).0 == c
                &&& request_served(c, req).1 matches ServingView::Answer(a)
                &&& a.op == "pubkey_result"@ && a.id == Some(client_id) && a.ok == Some(true)
                &&& a.key_version == Some(b.key_version) && a.public_key == b.public_key
                &&& a.attested_at == Some(b.attested_at) && a.quote == b.quote
                &&& a.binding_nonce == b.binding_nonce && a.report_data == b.report_data
                &&& a.error is None && a.code is None && a.result is None
            })
            &&& (req.op == "pubkey"@ && b.quote is None ==> {
                &&& request_served(c, req).0 == (ConnectionView { next_id, ..c })
                &&& request_served(c, req).1 matches ServingView::Forward { frame, wait }
                &&& wait == (Wait::Pubkey { client_id, id: next_id })
                &&& frame.op == "runtime.AttestationRequest"@ && frame.id == Some(next_id)
                &&& frame.nonce == Some(base64_text(encode_utf8("pubkey-attest-nonce"@)))
            })
            &&& (req.op == "rotate"@ ==> {
                &&& request_served(c, req).0 == (ConnectionView { next_id, ..c })
                &&& request_served(c, req).1 matches ServingView::Forward { frame, wait }
                &&& wait == (Wait::Rotate { client_id, id: next_id })
                &&& frame.op == "runtime.RotateRequest"@ && frame.id == Some(next_id)
                &&& (FrameView { id: None, ..frame }) == bare_frame(frame.op)
            })
            &&& (req.op != "compute"@ && req.op != "challenge"@ && req.op != "pubkey"@ && req.op
                != "rotate"@ ==> {
                &&& request_served(c, req).0 == c
                &&& request_served(c, req).1 matches ServingView::Answer(a)
                &&& a.op == "error"@ && a.id == Some(client_id) && a.ok == Some(false)
                &&& a.error == Some("unsupported client op: "@ + req.op)
            })
        }),
{
    lemma_client_ops_differ();
}

/// An attestation that the runtime made for a key, its version and a nonce reaches a client that asks
/// for the public key as it is: in one and the same answer the nonce and the report data read back to
/// the nonce and to what binds the key and the version that stand beside them.
pub proof fn law_public_key_comes_with_its_attestation(
    c: ConnectionView,
    req: FrameView,
    f: FrameView,
    version: u64,
    public_key: Seq<u8>,
    nonce: Seq<u8>,
)
    requires
        req.op == "pubkey"@,
        c.latest_bundle == bundle_of(f),
        f.quote is Some,
        f.key_version == Some(version),
        f.public_key matches Some(t) && base64_read(t) == Ok::<Seq<u8>, Seq<char>>(public_key),
        f.binding_nonce matches Some(t) && base64_read(t) == Ok::<Seq<u8>, Seq<char>>(nonce),
        f.report_data matches Some(t) && base64_read(t) == Ok::<Seq<u8>, Seq<char>>(
            report_data_for(version, public_key, nonce),
        ),
    ensures
        ({
            &&& request_served(c, req).1 matches ServingView::Answer(a)
            &&& a.key_version == Some(version)
            &&& a.public_key matches Some(k) && base64_read(k) == Ok::<Seq<u8>, Seq<char>>(
                public_key,
            )
            &&& a.binding_nonce matches Some(n) && base64_read(n) == Ok::<Seq<u8>, Seq<char>>(nonce)
            &&& a.report_data matches Some(r) && base64_read(r) == Ok::<Seq<u8>, Seq<char>>(
                report_data_for(version, public_key, nonce),
            )
            &&& a.quote == f.quote
        }),
{
    lemma_client_ops_differ();
}

/// What the runtime answers reaches the client field by field. A result comes with the word `ok`, an
/// error with its code and the word `error`; an attestation and a rotation come with key, version,
/// quote, nonce, report data and time.
pub proof fn law_answers_reach_the_client(c: ConnectionView, client_id: u64, id: u64, f: FrameView)
    ensures
        f.op == "host.ComputeResponse"@ && f.id == Some(id) ==> {
            let served = response_served(c, Wait::Compute { client_id, id }, f);
            &&& served.0 == c
            &&& served.1 matches ServingView::Answer(a)
            &&& a.op == "compute_result"@ && a.id == Some(client_id)
            &&& (f.ok == Some(true) ==> {
                &&& a.ok == Some(true) && a.result == f.result && a.status == Some("ok"@)
                &&& a.code is None && a.error is None
            })
            &&& (f.ok != Some(true) ==> {
                &&& a.ok == Some(false) && a.result is None && a.status == Some("error"@)
                &&& a.code == f.code && a.error == f.error
            })
            &&& (FrameView {
                id: None,
                ok: None,
                result: None,
                status: None,
                code: None,
                error: None,
                ..a
            }) == bare_frame(a.op)
        },
        f.op == "host.AttestationResponse"@ && f.id == Some(id) && f.ok == Some(true) ==> {
            let served = response_served(c, Wait::Challenge { client_id, id }, f);
            &&& served.1 matches ServingView::Answer(a)
            &&& a.op == "challenge_result"@ && carries(a, client_id, f)
        },
        f.op == "host.AttestationResponse"@ && f.id == Some(id) && f.ok == Some(true)
            && f.key_version is Some && f.attested_at is Some ==> {
            let served = response_served(c, Wait::Pubkey { client_id, id }, f);
            &&& served.1 matches ServingView::Answer(a)
            &&& a.op == "pubkey_result"@ && carries(a, client_id, f)
        },
        f.op == "host.RotateResponse"@ && f.id == Some(id) && f.ok == Some(true) ==> {
            let served = response_served(c, Wait::Rotate { client_id, id }, f);
            &&& served.1 matches ServingView::Answer(a)
            &&& a.op == "rotate_result"@ && carries(a, client_id, f)
        },
{
    crate::host::lemma_host_ops_differ();
}

/// Whether an answer to a client carries the attestation in a frame, and nothing else.
pub open spec fn carries(a: FrameView, client_id: u64, f: FrameView) -> bool {
    &&& a.id == Some(client_id) && a.ok == Some(true)
    &&& a.key_version == f.key_version && a.public_key == f.public_key
    &&& a.quote == f.quote && a.attested_at == f.attested_at
    &&& a.binding_nonce == f.binding_nonce && a.report_data == f.report_data
    &&& a.v == 1 && a.seq is None && a.error is None && a.nonce is None && a.target_info is None
    &&& a.att_key_id is None && a.report is None && a.ct is None && a.aad_json is None
    &&& a.code is None && a.x is None && a.y is None && a.status is None && a.result is None
    &&& a.message is None && a.path is None && a.blob is None
}

/// What a client waits for comes, or fails, or is waited for on, just as the connection takes the
/// runtime's answer; and the connection is then as that leaves it. A client that asked for the public
/// key is answered from the attestation that was just kept.
pub proof fn law_clients_wait_for_the_runtime(
    c: ConnectionView,
    client_id: u64,
    id: u64,
    f: FrameView,
)
    ensures
        ({
            let (after, taken) = answer_taken(c, id, client_id, f);
            let (then, served) = response_served(c, Wait::Compute { client_id, id }, f);
            &&& then == after
            &&& (taken is More ==> served == ServingView::Await(Wait::Compute { client_id, id }))
            &&& (taken matches ReplyView::Fail(e) ==> served == ServingView::Fail(e))
            &&& (taken is Done ==> served is Answer)
        }),
        ({
            let (after, taken) = attestation_taken(c, id, f);
            let (then, served) = response_served(c, Wait::Challenge { client_id, id }, f);
            &&& then == after
            &&& (taken matches Err(e) ==> served == ServingView::Fail(e))
            &&& (taken is Ok ==> served is Answer)
        }),
        ({
            let (after, taken) = attestation_taken(c, id, f);
            let (then, served) = response_served(c, Wait::Pubkey { client_id, id }, f);
            &&& then == after
            &&& (taken matches Err(e) ==> served == ServingView::Fail(e))
            &&& (taken is Ok ==> (served matches ServingView::Answer(a) && a.op
                == "pubkey_result"@ && a.key_version == Some(after.latest_bundle.key_version)
                && a.attested_at == Some(after.latest_bundle.attested_at)))
        }),
        ({
            let (after, taken) = rotation_taken(c, id, f);
            let (then, served) = response_served(c, Wait::Rotate { client_id, id }, f);
            &&& then == after
            &&& (taken is More ==> served == ServingView::Await(Wait::Rotate { client_id, id }))
            &&& (taken matches ReplyView::Fail(e) ==> served == ServingView::Fail(e))
            &&& (taken is Done ==> served is Answer)
        }),
{
}

} // verus!
