//! What holds from client to runtime and back.

use vstd::prelude::*;
use vstd::utf8::{encode_utf8, encode_utf8_decode_utf8, encode_utf8_valid_utf8};

use crate::aead::{aad_text, sealed_to};
use crate::client::{
    asks_to_compute, calc_answered, challenge_accepted, challenged_key, first_request, key_lines,
    law_result_is_printed, line, result_lines, rotate_answered,
};
use crate::compute::{fits, law_xy_read_back, value, xy_text};
use crate::frame::{
    is_loader_name, FrameView, ATTESTATION_NAME, ERR_KEY_EXPIRED, KEYRING_NAME, OP_CLIENT_CHALLENGE,
    OP_CLIENT_COMPUTE, OP_CLIENT_PUBKEY, OP_CLIENT_ROTATE, OP_HOST_ATTESTATION_RESPONSE,
    OP_HOST_CHALLENGE_RESULT, OP_HOST_COMPUTE_RESPONSE, OP_HOST_READY, OP_HOST_ROTATE_RESPONSE,
    OP_LOADER_WRITE_BLOB_RESULT, OP_RUNTIME_ROTATE_REQUEST, SEALED_KEYS_NAME,
};
use crate::hex::hex_text;
use crate::host::{bundle_of, ConnectionView};
use crate::key_store::{
    law_ciphertext_survives_one_rotation, rotated, store_opened, DecryptErr, StoreView,
};
use crate::loader::{
    blob_read, failure, lemma_request_ops, loader_step, quote_got, quote_started, routed, safe_name,
    success, LoaderStepView, Route,
};
use crate::outside::{
    base64_read, base64_text, decodes_to, hpke_pair, lowercase_text, quote_verdict, CollateralView,
};
use crate::report_data::report_data_for;
use crate::runtime::answer::{
    attestation_frame, compute_frame, refused_frame, result_frame, rotation_frame,
};
use crate::runtime::laws::law_loader_calls_are_numbered;
use crate::runtime::state::{AfterWrite, Call, EventView, Phase, RuntimeView};
use crate::runtime::step::{answer_op, stepped};
use crate::serve::{
    attested_result, lemma_client_ops_differ, request_served, response_served, ServingView, Wait,
};
use crate::text::{i64_written, is_decimal_of, said_under};
use crate::verify::{frame_verdict, verified_lines};

verus! {

/// The frame that the host sends to the runtime for a client's request.
pub open spec fn sent_on(c: ConnectionView, req: FrameView) -> FrameView {
    (request_served(c, req).1)->Forward_frame
}

/// What the client's request waits for.
pub open spec fn waits_for(c: ConnectionView, req: FrameView) -> Wait {
    (request_served(c, req).1)->Forward_wait
}

/// What the runtime answers to a request that a store opens to the text of the inputs.
proof fn lemma_answer(
    s: StoreView,
    c: ConnectionView,
    req: FrameView,
    id: u64,
    key_version: u64,
    ct: Seq<u8>,
    x: i64,
    y: i64,
)
    requires
        req.op == OP_CLIENT_COMPUTE@,
        req.id == Some(id),
        req.key_version == Some(key_version),
        req.ct == Some(base64_text(ct)),
        req.aad_json == Some(aad_text(1, id, OP_CLIENT_COMPUTE@, key_version)),
        decodes_to(base64_text(ct), ct),
        store_opened(
            s,
            key_version,
            ct,
            encode_utf8(aad_text(1, id, OP_CLIENT_COMPUTE@, key_version)),
        ) == Ok::<Seq<u8>, DecryptErr>(encode_utf8(xy_text(x, y))),
        fits(x, y),
    ensures
        compute_frame(s, sent_on(c, req)) == Some(
            result_frame(sent_on(c, req).id, value(x as int, y as int) as i64),
        ),
{
    encode_utf8_valid_utf8(xy_text(x, y));
    encode_utf8_decode_utf8(xy_text(x, y));
    law_xy_read_back(x, y);
}

/// A client that encrypts its inputs to the runtime's current key gets `x^3 + 5*y` printed: the host
/// passes the request on, the runtime computes, the host passes the result back. It still does when
/// the key was rotated once while the request was under way; when it was rotated twice, the runtime
/// says that the key has expired.
pub proof fn law_client_gets_the_result(
    s: StoreView,
    c: ConnectionView,
    req: FrameView,
    id: u64,
    x: i64,
    y: i64,
    pk1: Seq<u8>,
    sk1: Seq<u8>,
    pk2: Seq<u8>,
    sk2: Seq<u8>,
)
    requires
        s.wf(),
        s.current_version < u64::MAX - 1,
        asks_to_compute(req, id, s.current_version, s.current()->0.public_key, x, y),
        fits(x, y),
        hpke_pair(pk1, sk1),
        hpke_pair(pk2, sk2),
    ensures
        ({
            let result = value(x as int, y as int) as i64;
            let asked = sent_on(c, req);
            let answer = result_frame(asked.id, result);
            let c1 = request_served(c, req).0;
            let served = response_served(c1, waits_for(c, req), answer);
            let s1 = rotated(s, pk1, sk1);
            let s2 = rotated(s1, pk2, sk2);
            &&& request_served(c, req).1 is Forward
            &&& result == x * x * x + 5 * y
            &&& compute_frame(s, asked) == Some(answer)
            &&& compute_frame(s1, asked) == Some(answer)
            &&& compute_frame(s2, asked) == Some(
                refused_frame(
                    asked.id,
                    ERR_KEY_EXPIRED@,
                    "key version expired (retention=2)"@,
                ),
            )
            &&& served.1 matches ServingView::Answer(resp)
            &&& resp.id == Some(id)
            &&& calc_answered(x, y, s.current_version, resp) == Ok::<Seq<char>, Seq<char>>(
                result_lines(x, y, s.current_version, result),
            )
        }),
{
    let kv = s.current_version;
    let aad = aad_text(1, id, OP_CLIENT_COMPUTE@, kv);
    let pk = s.current()->0.public_key;
    let ct = choose|ct: Seq<u8>|
        {
            &&& #[trigger] sealed_to(pk, ct, encode_utf8(aad), encode_utf8(xy_text(x, y)))
            &&& decodes_to(base64_text(ct), ct)
            &&& req.ct == Some(base64_text(ct))
        };
    law_ciphertext_survives_one_rotation(
        s,
        ct,
        encode_utf8(aad),
        encode_utf8(xy_text(x, y)),
        pk1,
        sk1,
        pk2,
        sk2,
    );
    lemma_answer(s, c, req, id, kv, ct, x, y);
    lemma_answer(rotated(s, pk1, sk1), c, req, id, kv, ct, x, y);
    assert(OP_HOST_COMPUTE_RESPONSE@ != OP_HOST_ATTESTATION_RESPONSE@) by {
        reveal_strlit("host.ComputeResponse");
        reveal_strlit("host.AttestationResponse");
        assert(OP_HOST_COMPUTE_RESPONSE@[5] != OP_HOST_ATTESTATION_RESPONSE@[5]);
    }
}

/// A challenge that the runtime meets is accepted: with a quote that verifies, and a report in it
/// that the enclave made for its key under the client's nonce, the client takes the attestation, and
/// takes that key for the runtime's.
pub proof fn law_honest_attestation_is_accepted(
    client_id: u64,
    attested_at: u64,
    version: u64,
    public_key: Seq<u8>,
    quote: Seq<u8>,
    nonce: Seq<u8>,
    mr_enclave: Seq<u8>,
    expected_mrenclave: Option<Seq<char>>,
    collateral: CollateralView,
    now: u64,
)
    requires
        decodes_to(base64_text(public_key), public_key),
        decodes_to(base64_text(quote), quote),
        decodes_to(base64_text(nonce), nonce),
        quote_verdict(quote, collateral, now) == Ok::<Option<(Seq<u8>, Seq<u8>)>, Seq<char>>(
            Some((mr_enclave, report_data_for(version, public_key, nonce))),
        ),
        expected_mrenclave matches Some(e) ==> hex_text(mr_enclave) == lowercase_text(e),
    ensures
        ({
            let report_data = report_data_for(version, public_key, nonce);
            let made = attestation_frame(
                attested_at,
                version,
                public_key,
                quote,
                nonce,
                report_data,
            );
            let resp = attested_result(OP_HOST_CHALLENGE_RESULT@, client_id, made);
            &&& frame_verdict(resp, Some(nonce), expected_mrenclave, collateral, now) == Ok::<
                Seq<char>,
                Seq<char>,
            >(verified_lines(mr_enclave, report_data, version, base64_text(public_key)))
            &&& challenged_key(resp) == Ok::<(u64, Seq<u8>), Seq<char>>((version, public_key))
        }),
{
}

/// The key of an attestation that verifies is the one that the enclave vouches for: the quote
/// verifies, it is of an SGX enclave, of the expected one if one is expected, and its report data
/// binds exactly the key and the version that the client takes from the frame to the client's nonce.
pub proof fn law_accepted_attestation_vouches_for_the_key(
    resp: FrameView,
    nonce: Seq<u8>,
    expected_mrenclave: Option<Seq<char>>,
    collateral: CollateralView,
    now: u64,
)
    requires
        frame_verdict(resp, Some(nonce), expected_mrenclave, collateral, now) is Ok,
    ensures
        ({
            &&& resp.quote is Some
            &&& challenged_key(resp) matches Ok((key_version, public_key))
            &&& base64_read(resp.quote->0) matches Ok(quote)
            &&& quote_verdict(quote, collateral, now) matches Ok(Some((mr_enclave, report_data)))
            &&& report_data == report_data_for(key_version, public_key, nonce)
            &&& (expected_mrenclave matches Some(m) ==> hex_text(mr_enclave) == lowercase_text(m))
        }),
{
}

/// A client takes no key but one that was verified: where it accepts the answer to a challenge, the
/// challenge was met, the attestation verifies, and the key, to which its inputs are encrypted then,
/// is the one that the enclave vouches for under the client's nonce.
pub proof fn law_client_takes_only_a_verified_key(
    resp: FrameView,
    nonce: Seq<u8>,
    expected_mrenclave: Option<Seq<char>>,
    collateral: CollateralView,
    now: u64,
)
    ensures
        challenge_accepted(resp, nonce, expected_mrenclave, collateral, now) matches Ok(
            (lines, key_version, public_key),
        ) ==> {
            &&& resp.ok == Some(true)
            &&& frame_verdict(resp, Some(nonce), expected_mrenclave, collateral, now) == Ok::<
                Seq<char>,
                Seq<char>,
            >(lines)
            &&& base64_read(resp.quote->0) matches Ok(quote)
            &&& quote_verdict(quote, collateral, now) matches Ok(Some((mr_enclave, report_data)))
            &&& report_data == report_data_for(key_version, public_key, nonce)
            &&& (expected_mrenclave matches Some(m) ==> hex_text(mr_enclave) == lowercase_text(m))
        },
        challenge_accepted(resp, nonce, expected_mrenclave, collateral, now) is Ok <==> resp.ok
            == Some(true) && frame_verdict(
            resp,
            Some(nonce),
            expected_mrenclave,
            collateral,
            now,
        ) is Ok,
{
    if frame_verdict(resp, Some(nonce), expected_mrenclave, collateral, now) is Ok {
        law_accepted_attestation_vouches_for_the_key(
            resp,
            nonce,
            expected_mrenclave,
            collateral,
            now,
        );
    }
}

/// An attestation that comes before the answer, because the last one was too old or the key was
/// rotated, is kept by the host as the latest one, and the client waits on.
pub proof fn law_attestation_in_between_is_kept(c: ConnectionView, wait: Wait, attest: FrameView)
    requires
        wait is Compute || wait is Rotate,
        attest.op == OP_HOST_ATTESTATION_RESPONSE@,
    ensures
        response_served(c, wait, attest) == (
            (ConnectionView { latest_bundle: bundle_of(attest), ..c }),
            ServingView::Await(wait),
        ),
{
}

/// A client that asks for a rotation gets the new key, and finds that the report data binds it: the
/// runtime's attestation and its answer go through the host, which keeps the attestation.
pub proof fn law_client_sees_the_rotation(
    c: ConnectionView,
    attested_at: u64,
    version: u64,
    public_key: Seq<u8>,
    quote: Seq<u8>,
    nonce: Seq<u8>,
)
    requires
        decodes_to(base64_text(public_key), public_key),
        decodes_to(base64_text(nonce), nonce),
        decodes_to(
            base64_text(report_data_for(version, public_key, nonce)),
            report_data_for(version, public_key, nonce),
        ),
    ensures
        ({
            let req = first_request(OP_CLIENT_ROTATE@);
            let made = attestation_frame(
                attested_at,
                version,
                public_key,
                quote,
                nonce,
                report_data_for(version, public_key, nonce),
            );
            let answer = rotation_frame(sent_on(c, req).id, version, public_key, made);
            let wait = waits_for(c, req);
            let c1 = request_served(c, req).0;
            let c2 = response_served(c1, wait, made).0;
            let served = response_served(c2, wait, answer);
            &&& request_served(c, req).1 is Forward
            &&& sent_on(c, req).op == OP_RUNTIME_ROTATE_REQUEST@
            &&& response_served(c1, wait, made).1 == ServingView::Await(wait)
            &&& served.0.latest_bundle == bundle_of(made)
            &&& served.1 matches ServingView::Answer(resp)
            &&& resp.key_version == Some(version)
            &&& resp.public_key == Some(base64_text(public_key))
            &&& rotate_answered(resp).0 == key_lines(resp) + line(
                "BINDING_NONCE"@,
                resp.binding_nonce,
            ) + line("REPORTDATA"@, resp.report_data) + "REPORTDATA_BINDING_OK\n"@
            &&& rotate_answered(resp).1 is None
        }),
{
    reveal_strlit("compute");
    reveal_strlit("challenge");
    reveal_strlit("pubkey");
    reveal_strlit("rotate");
    assert(OP_CLIENT_ROTATE@.len() == 6);
    assert(OP_CLIENT_ROTATE@ != OP_CLIENT_COMPUTE@);
    assert(OP_CLIENT_ROTATE@ != OP_CLIENT_CHALLENGE@);
    assert(OP_CLIENT_ROTATE@[0] != OP_CLIENT_PUBKEY@[0]);
    assert(OP_HOST_ROTATE_RESPONSE@ != OP_HOST_ATTESTATION_RESPONSE@) by {
        reveal_strlit("host.RotateResponse");
        reveal_strlit("host.AttestationResponse");
        assert(OP_HOST_ROTATE_RESPONSE@[5] != OP_HOST_ATTESTATION_RESPONSE@[5]);
    }
}

/// Whether base64 reads back what it writes.
pub open spec fn base64_reads_back() -> bool {
    forall|b: Seq<u8>| decodes_to(#[trigger] base64_text(b), b)
}

/// Whether a frame is an answer that the loader may give to the request with this number, once it
/// has tried what it decided to do.
pub open spec fn may_answer(step: LoaderStepView, seq: Option<u64>, reply: FrameView) -> bool {
    match step {
        LoaderStepView::Reply(f) => reply == f,
        LoaderStepView::ReadBlob { .. } => exists|blob: Option<Seq<u8>>| reply
            == #[trigger] blob_read(seq, blob),
        LoaderStepView::WriteBlob { .. } => reply == success(OP_LOADER_WRITE_BLOB_RESULT@, seq) || (
        exists|e: Seq<char>| reply == #[trigger] failure(OP_LOADER_WRITE_BLOB_RESULT@, seq, e)),
        LoaderStepView::InitQuote => exists|r: Result<(Seq<u8>, Seq<u8>), Seq<char>>| reply
            == #[trigger] quote_started(seq, r),
        LoaderStepView::GetQuote { .. } => exists|r: Result<Seq<u8>, Seq<char>>| reply
            == #[trigger] quote_got(seq, r),
    }
}

/// The names of the runtime's blobs are names that the loader takes.
proof fn lemma_blob_names()
    ensures
        safe_name(SEALED_KEYS_NAME@),
        safe_name(KEYRING_NAME@),
        safe_name(ATTESTATION_NAME@),
{
    reveal_strlit("sealed_keys.bin");
    reveal_strlit("keyring.json");
    reveal_strlit("attestation.json");
}

/// The ops that the runtime sends to the host are passed on to it.
proof fn lemma_host_ops()
    ensures
        routed(OP_HOST_READY@) == Route::Host,
        routed(OP_HOST_ATTESTATION_RESPONSE@) == Route::Host,
        routed(OP_HOST_COMPUTE_RESPONSE@) == Route::Host,
        routed(OP_HOST_ROTATE_RESPONSE@) == Route::Host,
{
    reveal_strlit("loader.");
    reveal_strlit("host.Ready");
    reveal_strlit("host.AttestationResponse");
    reveal_strlit("host.ComputeResponse");
    reveal_strlit("host.RotateResponse");
    assert forall|op: Seq<char>| #[trigger] is_loader_name(op) implies op[0] == 'l' by {
        assert("loader."@[0] == 'l');
        assert(op.take(7)[0] == op[0]);
    }
}

/// What the runtime asks of the loader, the loader does: it keeps the request, finds nothing wrong
/// with it, and whatever it answers is what the runtime waits for. All other frames of the runtime go
/// to the host; the one exception is the answer to a request whose op looks like the loader's.
pub proof fn law_loader_serves_the_runtime(s: RuntimeView, event: EventView, i: int)
    requires
        base64_reads_back(),
        0 <= i < stepped(s, event).frames.len(),
        event matches EventView::Frame(f) ==> !is_loader_name(f.op + "_error"@) || !(s.phase
            is Idle),
        s.phase matches Phase::Loader { call: Call::Write(AfterWrite::Cached { response, .. }), .. }
            ==> response.op == OP_HOST_ATTESTATION_RESPONSE@,
        s.phase matches Phase::Loader {
            call: Call::Write(AfterWrite::Refreshed { response, .. }),
            ..
        } ==> response.op == OP_HOST_ATTESTATION_RESPONSE@,
    ensures
        ({
            let r = stepped(s, event);
            let f = r.frames[i];
            if r.runtime.loader_seq == s.loader_seq {
                routed(f.op) == Route::Host
            } else {
                &&& routed(f.op) == Route::Loader
                &&& !(loader_step(f) is Reply)
                &&& r.runtime.phase matches Phase::Loader { seq, call }
                &&& forall|reply: FrameView| #[trigger]
                    may_answer(loader_step(f), f.seq, reply) ==> reply.op == answer_op(call)
                        && reply.seq == Some(seq)
            }
        }),
{
    lemma_request_ops();
    lemma_blob_names();
    lemma_host_ops();
    law_loader_calls_are_numbered(s, event);
}

/// The result that a client gets printed for inputs that it encrypted to the runtime's current key
/// reads as `x^3 + 5*y`, with its sign.
pub proof fn law_printed_result_is_what_was_asked_for(
    s: StoreView,
    c: ConnectionView,
    req: FrameView,
    id: u64,
    x: i64,
    y: i64,
    pk: Seq<u8>,
    sk: Seq<u8>,
)
    requires
        s.wf(),
        s.current_version < u64::MAX - 1,
        asks_to_compute(req, id, s.current_version, s.current()->0.public_key, x, y),
        fits(x, y),
        hpke_pair(pk, sk),
    ensures
        ({
            &&& compute_frame(s, sent_on(c, req)) matches Some(answer)
            &&& response_served(request_served(c, req).0, waits_for(c, req), answer).1 matches
                ServingView::Answer(resp)
            &&& calc_answered(x, y, s.current_version, resp) matches Ok(text)
            &&& said_under(text, "RESULT"@) matches Some(t)
            &&& i64_written(t) matches Some(v)
            &&& v == x * x * x + 5 * y
            &&& is_decimal_of(t, x * x * x + 5 * y)
        }),
{
    law_client_gets_the_result(s, c, req, id, x, y, pk, sk, pk, sk);
    let result = value(x as int, y as int) as i64;
    let answer = compute_frame(s, sent_on(c, req))->0;
    let served = response_served(request_served(c, req).0, waits_for(c, req), answer).1;
    let resp = served->Answer_0;
    assert(resp.ok == Some(true) && resp.result == Some(result));
    law_result_is_printed(x, y, s.current_version, resp, result);
}

/// An attestation that the runtime made for its key under a nonce is what the host then gives with
/// that key: key, version, quote, nonce, report data and time all read back to what they were made
/// of, and the report data binds the key, the version and the nonce in the same answer.
pub proof fn law_public_key_is_given_as_it_was_attested(
    c: ConnectionView,
    req: FrameView,
    attested_at: u64,
    version: u64,
    public_key: Seq<u8>,
    quote: Seq<u8>,
    nonce: Seq<u8>,
)
    requires
        req.op == "pubkey"@,
        c.latest_bundle == bundle_of(
            attestation_frame(
                attested_at,
                version,
                public_key,
                quote,
                nonce,
                report_data_for(version, public_key, nonce),
            ),
        ),
        decodes_to(base64_text(public_key), public_key),
        decodes_to(base64_text(quote), quote),
        decodes_to(base64_text(nonce), nonce),
        decodes_to(
            base64_text(report_data_for(version, public_key, nonce)),
            report_data_for(version, public_key, nonce),
        ),
    ensures
        ({
            &&& request_served(c, req).1 matches ServingView::Answer(a)
            &&& a.ok == Some(true)
            &&& a.key_version == Some(version)
            &&& a.attested_at == Some(attested_at)
            &&& a.public_key matches Some(k) && decodes_to(k, public_key)
            &&& a.quote matches Some(q) && decodes_to(q, quote)
            &&& a.binding_nonce matches Some(n) && decodes_to(n, nonce)
            &&& a.report_data matches Some(r) && decodes_to(
                r,
                report_data_for(version, public_key, nonce),
            )
        }),
{
    lemma_client_ops_differ();
}

} // verus!
