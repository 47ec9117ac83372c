//! How the runtime goes from one state to the next.

use vstd::prelude::*;
use vstd::utf8::encode_utf8;

use crate::aead::generate_keypair;
use crate::bytes::{copy, le, push_le};
use crate::frame::{
    bare_frame, Frame, FrameView, ATTESTATION_NAME, KEYRING_NAME, OP_LOADER_GET_QUOTE,
    OP_LOADER_GET_QUOTE_RESULT, OP_LOADER_INIT_QUOTE, OP_LOADER_INIT_QUOTE_RESULT,
    OP_LOADER_READ_BLOB, OP_LOADER_READ_BLOB_RESULT, OP_LOADER_WRITE_BLOB,
    OP_LOADER_WRITE_BLOB_RESULT, OP_RUNTIME_ATTESTATION_REQUEST, OP_RUNTIME_COMPUTE_REQUEST,
    OP_RUNTIME_ROTATE_REQUEST, SEALED_KEYS_NAME,
};
use crate::key_store::{empty_store, keyring_text, rotated, KeyStore, StoreView};
use crate::outside::{b64_decode, b64_encode, base64_read, base64_text, hpke_pair};
use crate::report_data::{attestation_cache_json, cache_text, report_data_binding, report_data_for};
use crate::runtime::answer::{
    attestation, attestation_frame, compute_frame, compute_response, ready, ready_frame, rotation,
    rotation_frame, unsupported, unsupported_frame,
};
use crate::runtime::state::{
    frame_views, AfterAttest, AfterPersist, AfterWrite, Call, Event, EventView, Job, Need, NeedView,
    Phase, PhaseView, Runtime, RuntimeView, Step, StepView, Stop,
};
use crate::sealing::{
    blob_request, blob_shaped, fresh_keyid, fresh_nonce, seal_with, sealed, unseal, unseal_request,
    unsealed, SealKey, SealKeyView,
};
use crate::text::same_text;
use crate::views::outcome;

verus! {

/// After how many seconds an attestation is too old to compute under.
pub const STALE_THRESHOLD_SECS: u64 = 5400;

/// The nonce of an attestation that the runtime makes by itself.
pub const STALE_NONCE: &'static str = "stale-auto-attest-nonce";

/// The nonce of an attestation that was asked for without one.
pub const DEFAULT_NONCE: &'static str = "pr3c-default-nonce";

/// How long the target information of a quoting enclave is, in bytes.
pub const TARGET_INFO_LEN: usize = 512;

/// A step to another phase, with nothing sent.
pub open spec fn to_phase(s: RuntimeView, phase: PhaseView) -> StepView {
    StepView { runtime: RuntimeView { phase, ..s }, frames: Seq::empty() }
}

/// A step that stops the runtime.
pub open spec fn to_error(s: RuntimeView, error: Seq<char>) -> StepView {
    to_phase(s, Phase::Stopped(Stop::Error(error)))
}

/// A step that calls the loader: the request gets the next number, and the runtime waits for the
/// answer.
pub open spec fn to_call(
    s: RuntimeView,
    request: FrameView,
    call: Call<FrameView, Seq<u8>>,
) -> StepView {
    if s.loader_seq == u64::MAX {
        to_phase(s, Phase::Stopped(Stop::Overflow))
    } else {
        let seq = (s.loader_seq + 1) as u64;
        StepView {
            runtime: RuntimeView { loader_seq: seq, phase: Phase::Loader { seq, call }, ..s },
            frames: seq![FrameView { seq: Some(seq), ..request }],
        }
    }
}

/// A step that has the loader write a blob.
pub open spec fn to_write(
    s: RuntimeView,
    name: Seq<char>,
    data: Seq<u8>,
    after: AfterWrite<FrameView, Seq<u8>>,
) -> StepView {
    to_call(
        s,
        FrameView {
            path: Some(name),
            blob: Some(base64_text(data)),
            ..bare_frame(OP_LOADER_WRITE_BLOB@)
        },
        Call::Write(after),
    )
}

/// A step that has the loader write the keyring.
pub open spec fn to_keyring(s: RuntimeView, after: AfterWrite<FrameView, Seq<u8>>) -> StepView {
    to_write(s, KEYRING_NAME@, encode_utf8(keyring_text(s.store)), after)
}

/// A step that starts an attestation of the current key.
pub open spec fn to_attestation(
    s: RuntimeView,
    nonce: Seq<u8>,
    after: AfterAttest<FrameView, Seq<u8>>,
) -> StepView {
    match s.store.current() {
        None => to_error(s, "empty KeyStore"@),
        Some(k) => to_call(
            s,
            bare_frame(OP_LOADER_INIT_QUOTE@),
            Call::InitQuote(Job { nonce, version: k.version, public_key: k.public_key, after }),
        ),
    }
}

/// A step that answers a request to compute, behind the frames that are sent before.
pub open spec fn to_result(s: RuntimeView, before: Seq<FrameView>, request: FrameView) -> StepView {
    match compute_frame(s.store, request) {
        Some(answer) => StepView {
            runtime: RuntimeView { phase: Phase::Idle, ..s },
            frames: before.push(answer),
        },
        None => StepView {
            runtime: RuntimeView { phase: Phase::Stopped(Stop::Overflow), ..s },
            frames: before,
        },
    }
}

/// What a frame from the loader says went wrong.
pub open spec fn failed(f: FrameView, otherwise: Seq<char>) -> Seq<char> {
    match f.error {
        Some(e) => e,
        None => otherwise,
    }
}

/// The step that the sealed store leads to, as far as there is one and it looks like one: to its
/// key, or else to a new store.
pub open spec fn on_sealed_read(s: RuntimeView, f: FrameView) -> StepView {
    match f.blob {
        Some(text) if f.ok == Some(true) => match base64_read(text) {
            Err(e) => to_error(s, e),
            Ok(blob) => if blob_shaped(blob) {
                to_phase(s, Phase::Unseal { blob })
            } else {
                to_phase(s, Phase::FirstPair)
            },
        },
        _ => to_phase(s, Phase::FirstPair),
    }
}

/// The step that the key of a sealed store leads to: to the store, or else to a new one.
pub open spec fn on_unseal_key(
    s: RuntimeView,
    blob: Seq<u8>,
    key: Result<Seq<u8>, Seq<char>>,
) -> StepView {
    let opened: Result<StoreView, Seq<char>> = match key {
        Ok(key) => unsealed(blob, key),
        Err(e) => Err(e),
    };
    match opened {
        Ok(store) => to_keyring(RuntimeView { store, ..s }, AfterWrite::Booted),
        Err(_) => to_phase(s, Phase::FirstPair),
    }
}

/// The step to readiness.
pub open spec fn to_ready(s: RuntimeView) -> StepView {
    StepView {
        runtime: RuntimeView { phase: Phase::Idle, ..s },
        frames: seq![ready_frame(s.store)],
    }
}

/// The nonce that an attestation is asked for with, or else another one.
pub open spec fn asked_nonce(f: FrameView, otherwise: Seq<u8>) -> Result<Seq<u8>, Seq<char>> {
    match f.nonce {
        Some(text) => base64_read(text),
        None => Ok(otherwise),
    }
}

/// The step behind the sealing of a store.
pub open spec fn on_persisted(s: RuntimeView, after: AfterPersist<FrameView, Seq<u8>>) -> StepView {
    match after {
        AfterPersist::Boot => to_ready(s),
        AfterPersist::Rotate { request, version, public_key } => match asked_nonce(
            request,
            le(version as nat, 8),
        ) {
            Err(e) => to_error(s, e),
            Ok(nonce) => to_attestation(
                s,
                nonce,
                AfterAttest::Rotate { id: request.id, version, public_key },
            ),
        },
    }
}

/// The step behind an attestation: it is sent, with what was waiting for it.
pub open spec fn on_attested(
    s: RuntimeView,
    response: FrameView,
    after: AfterAttest<FrameView, Seq<u8>>,
) -> StepView {
    let dated = RuntimeView { last_attested_at: response.attested_at.unwrap_or(0), ..s };
    match after {
        AfterAttest::Answer { id } => StepView {
            runtime: RuntimeView { phase: Phase::Idle, ..dated },
            frames: seq![FrameView { id, ..response }],
        },
        AfterAttest::Compute { request } => to_result(
            dated,
            seq![FrameView { id: None, ..response }],
            request,
        ),
        AfterAttest::Rotate { id, version, public_key } => StepView {
            runtime: RuntimeView { phase: Phase::Idle, ..dated },
            frames: seq![
                FrameView { id: None, ..response },
                rotation_frame(id, version, public_key, response),
            ],
        },
    }
}

/// The step that the loader's word about a blob that it was to write leads to.
pub open spec fn on_written(
    s: RuntimeView,
    after: AfterWrite<FrameView, Seq<u8>>,
    f: FrameView,
) -> StepView {
    if f.ok != Some(true) {
        to_error(s, failed(f, "loader.write_blob failed"@))
    } else {
        match after {
            AfterWrite::Booted => to_ready(s),
            AfterWrite::Sealed(after) => to_keyring(s, AfterWrite::Listed(after)),
            AfterWrite::Listed(after) => on_persisted(s, after),
            AfterWrite::Cached { response, after } => to_keyring(
                s,
                AfterWrite::Refreshed { response, after },
            ),
            AfterWrite::Refreshed { response, after } => on_attested(s, response, after),
        }
    }
}

/// The step that the loader's word about the quoting enclave leads to.
pub open spec fn on_quote_started(
    s: RuntimeView,
    job: Job<FrameView, Seq<u8>>,
    f: FrameView,
) -> StepView {
    if f.ok != Some(true) {
        to_error(s, failed(f, "loader.init_quote failed"@))
    } else {
        match (f.att_key_id, f.target_info) {
            (None, _) => to_error(s, "missing att_key_id"@),
            (Some(_), None) => to_error(s, "missing target_info"@),
            (Some(a), Some(t)) => match (base64_read(a), base64_read(t)) {
                (Err(e), _) => to_error(s, e),
                (Ok(_), Err(e)) => to_error(s, e),
                (Ok(att_key_id), Ok(target_info)) => if target_info.len() != TARGET_INFO_LEN {
                    to_error(s, "invalid target_info"@)
                } else {
                    let report_data = report_data_for(job.version, job.public_key, job.nonce);
                    to_phase(s, Phase::Report { job, att_key_id, target_info, report_data })
                },
            },
        }
    }
}

/// The step that the loader's word about a quote leads to.
pub open spec fn on_quote(
    s: RuntimeView,
    job: Job<FrameView, Seq<u8>>,
    report_data: Seq<u8>,
    f: FrameView,
) -> StepView {
    if f.ok != Some(true) {
        to_error(s, failed(f, "loader.get_quote failed"@))
    } else {
        match f.quote {
            None => to_error(s, "missing quote"@),
            Some(text) => match base64_read(text) {
                Err(e) => to_error(s, e),
                Ok(quote) => to_phase(s, Phase::Date { job, report_data, quote }),
            },
        }
    }
}

/// The op of the answer to a call of the loader.
pub open spec fn answer_op(call: Call<FrameView, Seq<u8>>) -> Seq<char> {
    match call {
        Call::ReadSealed => OP_LOADER_READ_BLOB_RESULT@,
        Call::Write(_) => OP_LOADER_WRITE_BLOB_RESULT@,
        Call::InitQuote(_) => OP_LOADER_INIT_QUOTE_RESULT@,
        Call::GetQuote { .. } => OP_LOADER_GET_QUOTE_RESULT@,
    }
}

/// The step that the loader's answer to a call leads to.
pub open spec fn on_answer(
    s: RuntimeView,
    call: Call<FrameView, Seq<u8>>,
    f: FrameView,
) -> StepView {
    match call {
        Call::ReadSealed => on_sealed_read(s, f),
        Call::Write(after) => on_written(s, after, f),
        Call::InitQuote(job) => on_quote_started(s, job, f),
        Call::GetQuote { job, report_data } => on_quote(s, job, report_data, f),
    }
}

/// The step that dates an attestation and has the loader cache it.
pub open spec fn on_date(
    s: RuntimeView,
    job: Job<FrameView, Seq<u8>>,
    report_data: Seq<u8>,
    quote: Seq<u8>,
    now: u64,
) -> StepView {
    let attest_sequence: u64 = if s.attest_sequence == u64::MAX {
        u64::MAX
    } else {
        (s.attest_sequence + 1) as u64
    };
    let cache = cache_text(
        base64_text(quote),
        job.version,
        base64_text(job.public_key),
        Some(base64_text(job.nonce)),
        Some(base64_text(report_data)),
        now,
        attest_sequence,
    );
    to_write(
        RuntimeView { attest_sequence, ..s },
        ATTESTATION_NAME@,
        encode_utf8(cache),
        AfterWrite::Cached {
            response: attestation_frame(
                now,
                job.version,
                job.public_key,
                quote,
                job.nonce,
                report_data,
            ),
            after: job.after,
        },
    )
}

/// Whether the last attestation is too old, or there is none.
pub open spec fn is_stale(last_attested_at: u64, now: u64) -> bool {
    last_attested_at == 0 || now - last_attested_at > STALE_THRESHOLD_SECS
}

/// The step that a request leads to.
pub open spec fn on_request(s: RuntimeView, f: FrameView) -> StepView {
    if f.op == OP_RUNTIME_ATTESTATION_REQUEST@ {
        match asked_nonce(f, encode_utf8(DEFAULT_NONCE@)) {
            Err(e) => to_error(s, e),
            Ok(nonce) => to_attestation(s, nonce, AfterAttest::Answer { id: f.id }),
        }
    } else if f.op == OP_RUNTIME_COMPUTE_REQUEST@ {
        to_phase(s, Phase::Staleness { request: f })
    } else if f.op == OP_RUNTIME_ROTATE_REQUEST@ {
        to_phase(s, Phase::RotatePair { request: f })
    } else {
        StepView { runtime: s, frames: seq![unsupported_frame(f)] }
    }
}

/// The step that a rotation to a key pair leads to.
pub open spec fn on_rotation(
    s: RuntimeView,
    request: FrameView,
    public_key: Seq<u8>,
    private_key: Seq<u8>,
) -> StepView {
    if s.store.current_version == u64::MAX {
        to_phase(s, Phase::Stopped(Stop::Overflow))
    } else {
        let store = rotated(s.store, public_key, private_key);
        to_phase(
            RuntimeView { store, ..s },
            Phase::SealId {
                after: AfterPersist::Rotate { request, version: store.current_version, public_key },
            },
        )
    }
}

/// The step of the runtime. What it did not need changes nothing.
pub open spec fn stepped(s: RuntimeView, event: EventView) -> StepView {
    match (s.phase, event) {
        (Phase::Loader { seq, call }, EventView::Frame(f)) => if f.op == answer_op(call) && f.seq
            == Some(seq) {
            on_answer(s, call, f)
        } else {
            to_phase(s, s.phase)
        },
        (Phase::Unseal { blob }, EventView::UnsealKey(key)) => on_unseal_key(s, blob, key),
        (Phase::FirstPair, EventView::KeyPair { public_key, private_key }) => to_phase(
            RuntimeView { store: rotated(empty_store(), public_key, private_key), ..s },
            Phase::SealId { after: AfterPersist::Boot },
        ),
        (Phase::SealId { after }, EventView::KeyId(keyid)) => match keyid {
            Err(e) => to_error(s, e),
            Ok(keyid) => to_phase(s, Phase::SealKey { after, keyid }),
        },
        (Phase::SealKey { after, keyid }, EventView::SealKey(derived)) => match derived {
            Err(e) => to_error(s, e),
            Ok((key, isvsvn, cpusvn)) => to_phase(
                s,
                Phase::SealNonce { after, key: SealKeyView { key, keyid, isvsvn, cpusvn } },
            ),
        },
        (Phase::SealNonce { after, key }, EventView::Nonce(nonce)) => match nonce {
            Err(e) => to_error(s, e),
            Ok(nonce) => match sealed(s.store, key, nonce) {
                Err(e) => to_error(s, e),
                Ok(blob) => to_write(s, SEALED_KEYS_NAME@, blob, AfterWrite::Sealed(after)),
            },
        },
        (Phase::Idle, EventView::Frame(f)) => on_request(s, f),
        (Phase::Staleness { request }, EventView::Clock(now)) => if is_stale(
            s.last_attested_at,
            now,
        ) {
            to_attestation(s, encode_utf8(STALE_NONCE@), AfterAttest::Compute { request })
        } else {
            to_result(s, Seq::empty(), request)
        },
        (
            Phase::RotatePair { request },
            EventView::KeyPair { public_key, private_key },
        ) => on_rotation(s, request, public_key, private_key),
        (
            Phase::Report { job, att_key_id, target_info, report_data },
            EventView::Report(report),
        ) => to_call(
            s,
            FrameView {
                att_key_id: Some(base64_text(att_key_id)),
                report: Some(base64_text(report)),
                ..bare_frame(OP_LOADER_GET_QUOTE@)
            },
            Call::GetQuote { job, report_data },
        ),
        (Phase::Date { job, report_data, quote }, EventView::Clock(now)) => on_date(
            s,
            job,
            report_data,
            quote,
            now,
        ),
        _ => to_phase(s, s.phase),
    }
}

/// What the runtime needs in a phase.
pub open spec fn needed(phase: PhaseView) -> NeedView {
    match phase {
        Phase::Loader { .. } => NeedView::Frame,
        Phase::Unseal { blob } => match blob_request(blob) {
            Ok(request) => NeedView::UnsealKey { request },
            Err(e) => NeedView::Nothing(Stop::Error(e)),
        },
        Phase::FirstPair => NeedView::KeyPair,
        Phase::SealId { .. } => NeedView::KeyId,
        Phase::SealKey { keyid, .. } => NeedView::SealKey { keyid },
        Phase::SealNonce { .. } => NeedView::Nonce,
        Phase::Idle => NeedView::Frame,
        Phase::Staleness { .. } => NeedView::Clock,
        Phase::RotatePair { .. } => NeedView::KeyPair,
        Phase::Report { target_info, report_data, .. } => NeedView::Report {
            target_info,
            report_data,
        },
        Phase::Date { .. } => NeedView::Clock,
        Phase::Stopped(why) => NeedView::Nothing(why),
    }
}

/// The first step: the runtime has no keys yet, and asks the loader for its sealed store.
pub open spec fn started() -> StepView {
    to_call(
        RuntimeView {
            loader_seq: 0,
            last_attested_at: 0,
            attest_sequence: 0,
            store: empty_store(),
            phase: Phase::Idle,
        },
        FrameView { path: Some(SEALED_KEYS_NAME@), ..bare_frame(OP_LOADER_READ_BLOB@) },
        Call::ReadSealed,
    )
}

/// One frame to send.
fn one(frame: Frame) -> (out: Vec<Frame>)
    ensures
        frame_views(out@) == seq![frame@],
{
    let mut out: Vec<Frame> = Vec::new();
    out.push(frame);
    assert(frame_views(out@) =~= seq![frame@]);
    out
}

/// Nothing to send.
fn none() -> (out: Vec<Frame>)
    ensures
        frame_views(out@) == Seq::<FrameView>::empty(),
{
    let out: Vec<Frame> = Vec::new();
    assert(frame_views(out@) =~= Seq::<FrameView>::empty());
    out
}

/// What a frame from the loader says went wrong.
fn failure(f: Frame, otherwise: &str) -> (out: String)
    ensures
        out@ == failed(f@, otherwise@),
{
    match f.error {
        Some(e) => e,
        None => otherwise.to_owned(),
    }
}

/// The nonce that an attestation is asked for with, or else another one.
fn nonce_of(f: &Frame, otherwise: Vec<u8>) -> (out: Result<Vec<u8>, String>)
    ensures
        outcome(out) == asked_nonce(f@, otherwise@),
{
    match &f.nonce {
        Some(text) => b64_decode(text.as_str()),
        None => Ok(otherwise),
    }
}

/// Gives the runtime what chance has to supply: key pairs, key ids and nonces. Everything else
/// comes from outside.
pub fn draw(need: &Need) -> (out: Option<Event>)
    ensures
        match need@ {
            NeedView::KeyPair => out matches Some(Event::KeyPair { public_key, private_key })
                && hpke_pair(public_key@, private_key@),
            NeedView::KeyId => out matches Some(Event::KeyId(_)),
            NeedView::Nonce => out matches Some(Event::Nonce(_)),
            _ => out is None,
        },
{
    match need {
        Need::KeyPair => match generate_keypair() {
            Ok((public_key, private_key)) => Some(Event::KeyPair { public_key, private_key }),
            Err(_) => None,
        },
        Need::KeyId => Some(Event::KeyId(fresh_keyid())),
        Need::Nonce => Some(Event::Nonce(fresh_nonce())),
        _ => None,
    }
}

impl Runtime {
    /// Starts the runtime.
    pub fn start() -> (out: Step)
        ensures
            out@ == started(),
    {
        let runtime = Runtime {
            loader_seq: 0,
            last_attested_at: 0,
            attest_sequence: 0,
            store: KeyStore { current_version: 0, keys: Vec::new() },
            phase: Phase::Idle,
        };
        assert(runtime.store@.keys =~= empty_store().keys);
        let mut request = Frame::new(OP_LOADER_READ_BLOB);
        request.path = Some(SEALED_KEYS_NAME.to_owned());
        runtime.call(request, Call::ReadSealed)
    }

    /// Says what the runtime needs.
    pub fn need(&self) -> (out: Need)
        ensures
            out@ == needed(self@.phase),
    {
        match &self.phase {
            Phase::Loader { seq: _, call: _ } => Need::Frame,
            Phase::Unseal { blob } => match unseal_request(blob.as_slice()) {
                Ok(request) => Need::UnsealKey { request },
                Err(e) => Need::Nothing(Stop::Error(e)),
            },
            Phase::FirstPair => Need::KeyPair,
            Phase::SealId { after: _ } => Need::KeyId,
            Phase::SealKey { after: _, keyid } => Need::SealKey { keyid: *keyid },
            Phase::SealNonce { after: _, key: _ } => Need::Nonce,
            Phase::Idle => Need::Frame,
            Phase::Staleness { request: _ } => Need::Clock,
            Phase::RotatePair { request: _ } => Need::KeyPair,
            Phase::Report { job: _, att_key_id: _, target_info, report_data } => Need::Report {
                target_info: copy(target_info.as_slice()),
                report_data: copy(report_data.as_slice()),
            },
            Phase::Date { job: _, report_data: _, quote: _ } => Need::Clock,
            Phase::Stopped(Stop::Error(e)) => Need::Nothing(Stop::Error(e.clone())),
            Phase::Stopped(Stop::Overflow) => Need::Nothing(Stop::Overflow),
        }
    }

    /// Goes to another phase and sends nothing.
    fn go(self, phase: Phase<Frame, Vec<u8>, [u8; 32], SealKey, String>) -> (out: Step)
        ensures
            out@ == to_phase(self@, phase@),
    {
        Step { runtime: Runtime { phase, ..self }, frames: none() }
    }

    /// Stops.
    fn stop(self, error: String) -> (out: Step)
        ensures
            out@ == to_error(self@, error@),
    {
        self.go(Phase::Stopped(Stop::Error(error)))
    }

    /// Calls the loader.
    fn call(self, request: Frame, call: Call<Frame, Vec<u8>>) -> (out: Step)
        ensures
            out@ == to_call(self@, request@, call@),
    {
        if self.loader_seq == u64::MAX {
            return self.go(Phase::Stopped(Stop::Overflow));
        }
        let seq: u64 = self.loader_seq + 1;
        let mut request = request;
        request.seq = Some(seq);
        let runtime = Runtime { loader_seq: seq, phase: Phase::Loader { seq, call }, ..self };
        Step { runtime, frames: one(request) }
    }

    /// Has the loader write a blob.
    fn write(self, name: &str, data: &[u8], after: AfterWrite<Frame, Vec<u8>>) -> (out: Step)
        ensures
            out@ == to_write(self@, name@, data@, after@),
    {
        let mut request = Frame::new(OP_LOADER_WRITE_BLOB);
        request.path = Some(name.to_owned());
        request.blob = Some(b64_encode(data));
        self.call(request, Call::Write(after))
    }

    /// Has the loader write the keyring.
    fn write_keyring(self, after: AfterWrite<Frame, Vec<u8>>) -> (out: Step)
        ensures
            out@ == to_keyring(self@, after@),
    {
        let text = self.store.keyring_json();
        self.write(KEYRING_NAME, text.as_str().as_bytes(), after)
    }

    /// Starts an attestation of the current key.
    fn attest(self, nonce: Vec<u8>, after: AfterAttest<Frame, Vec<u8>>) -> (out: Step)
        ensures
            out@ == to_attestation(self@, nonce@, after@),
    {
        let (version, public_key) = match self.store.current() {
            Some(k) => (k.version, copy(k.public_key.as_slice())),
            None => return self.stop("empty KeyStore".to_owned()),
        };
        let request = Frame::new(OP_LOADER_INIT_QUOTE);
        self.call(request, Call::InitQuote(Job { nonce, version, public_key, after }))
    }

    /// Answers a request to compute, behind the frames that are sent before.
    fn answer_compute(self, before: Vec<Frame>, request: &Frame) -> (out: Step)
        ensures
            out@ == to_result(self@, frame_views(before@), request@),
    {
        match compute_response(&self.store, request) {
            Some(answer) => {
                let mut frames = before;
                frames.push(answer);
                assert(frame_views(frames@) =~= frame_views(before@).push(answer@));
                Step { runtime: Runtime { phase: Phase::Idle, ..self }, frames }
            },
            None => Step {
                runtime: Runtime { phase: Phase::Stopped(Stop::Overflow), ..self },
                frames: before,
            },
        }
    }

    /// Says that it is ready.
    fn be_ready(self) -> (out: Step)
        ensures
            out@ == to_ready(self@),
    {
        let frame = ready(&self.store);
        Step { runtime: Runtime { phase: Phase::Idle, ..self }, frames: one(frame) }
    }

    /// Takes the loader's word about the sealed store.
    fn take_sealed(self, f: Frame) -> (out: Step)
        ensures
            out@ == on_sealed_read(self@, f@),
    {
        if f.ok != Some(true) {
            return self.go(Phase::FirstPair);
        }
        match &f.blob {
            Some(text) => match b64_decode(text.as_str()) {
                Err(e) => self.stop(e),
                Ok(blob) => match unseal_request(blob.as_slice()) {
                    Ok(_) => self.go(Phase::Unseal { blob }),
                    Err(_) => self.go(Phase::FirstPair),
                },
            },
            None => self.go(Phase::FirstPair),
        }
    }

    /// Opens the sealed store.
    fn open_sealed(self, blob: Vec<u8>, key: Result<[u8; 16], String>) -> (out: Step)
        ensures
            out@ == on_unseal_key(self@, blob@, outcome(key)),
    {
        let opened = match key {
            Ok(key) => unseal(blob.as_slice(), Some(&key)),
            Err(e) => Err(e),
        };
        match opened {
            Ok(store) => {
                let runtime = Runtime { store, ..self };
                runtime.write_keyring(AfterWrite::Booted)
            },
            Err(_) => self.go(Phase::FirstPair),
        }
    }

    /// Goes on when the store was sealed.
    fn persisted(self, after: AfterPersist<Frame, Vec<u8>>) -> (out: Step)
        ensures
            out@ == on_persisted(self@, after@),
    {
        match after {
            AfterPersist::Boot => self.be_ready(),
            AfterPersist::Rotate { request, version, public_key } => {
                let mut counter: Vec<u8> = Vec::new();
                push_le(&mut counter, version, 8);
                assert(counter@ =~= le(version as nat, 8));
                match nonce_of(&request, counter) {
                    Err(e) => self.stop(e),
                    Ok(nonce) => self.attest(
                        nonce,
                        AfterAttest::Rotate { id: request.id, version, public_key },
                    ),
                }
            },
        }
    }

    /// Sends an attestation, with what was waiting for it.
    fn attested(self, response: Frame, after: AfterAttest<Frame, Vec<u8>>) -> (out: Step)
        ensures
            out@ == on_attested(self@, response@, after@),
    {
        let last_attested_at: u64 = match response.attested_at {
            Some(t) => t,
            None => 0,
        };
        let runtime = Runtime { last_attested_at, ..self };
        let mut response = response;
        let ghost made = response@;
        match after {
            AfterAttest::Answer { id } => {
                response.id = id;
                Step { runtime: Runtime { phase: Phase::Idle, ..runtime }, frames: one(response) }
            },
            AfterAttest::Compute { request } => {
                response.id = None;
                runtime.answer_compute(one(response), &request)
            },
            AfterAttest::Rotate { id, version, public_key } => {
                response.id = None;
                let answer = rotation(id, version, public_key.as_slice(), &response);
                let mut frames = one(response);
                let ghost sent = frames@;
                frames.push(answer);
                assert(frame_views(frames@) =~= frame_views(sent).push(answer@));
                assert(frame_views(frames@) =~= seq![
                    FrameView { id: None, ..made },
                    rotation_frame(id, version, public_key@, made),
                ]);
                Step { runtime: Runtime { phase: Phase::Idle, ..runtime }, frames }
            },
        }
    }

    /// Takes the loader's word about a blob that it was to write.
    fn written(self, after: AfterWrite<Frame, Vec<u8>>, f: Frame) -> (out: Step)
        ensures
            out@ == on_written(self@, after@, f@),
    {
        if f.ok != Some(true) {
            return self.stop(failure(f, "loader.write_blob failed"));
        }
        match after {
            AfterWrite::Booted => self.be_ready(),
            AfterWrite::Sealed(after) => self.write_keyring(AfterWrite::Listed(after)),
            AfterWrite::Listed(after) => self.persisted(after),
            AfterWrite::Cached { response, after } => self.write_keyring(
                AfterWrite::Refreshed { response, after },
            ),
            AfterWrite::Refreshed { response, after } => self.attested(response, after),
        }
    }

    /// Takes the loader's word about the quoting enclave.
    fn quote_started(self, job: Job<Frame, Vec<u8>>, f: Frame) -> (out: Step)
        ensures
            out@ == on_quote_started(self@, job@, f@),
    {
        if f.ok != Some(true) {
            return self.stop(failure(f, "loader.init_quote failed"));
        }
        let (a, t) = match (&f.att_key_id, &f.target_info) {
            (Some(a), Some(t)) => (a, t),
            (Some(_), None) => return self.stop("missing target_info".to_owned()),
            (None, _) => return self.stop("missing att_key_id".to_owned()),
        };
        let att_key_id = match b64_decode(a.as_str()) {
            Ok(b) => b,
            Err(e) => return self.stop(e),
        };
        let target_info = match b64_decode(t.as_str()) {
            Ok(b) => b,
            Err(e) => return self.stop(e),
        };
        if target_info.len() != TARGET_INFO_LEN {
            return self.stop("invalid target_info".to_owned());
        }
        let bound = report_data_binding(
            job.version,
            job.public_key.as_slice(),
            job.nonce.as_slice(),
        );
        let report_data = copy(bound.as_slice());
        self.go(Phase::Report { job, att_key_id, target_info, report_data })
    }

    /// Takes the loader's word about a quote.
    fn quoted(self, job: Job<Frame, Vec<u8>>, report_data: Vec<u8>, f: Frame) -> (out: Step)
        ensures
            out@ == on_quote(self@, job@, report_data@, f@),
    {
        if f.ok != Some(true) {
            return self.stop(failure(f, "loader.get_quote failed"));
        }
        match &f.quote {
            None => self.stop("missing quote".to_owned()),
            Some(text) => match b64_decode(text.as_str()) {
                Err(e) => self.stop(e),
                Ok(quote) => self.go(Phase::Date { job, report_data, quote }),
            },
        }
    }

    /// Dates an attestation and has the loader cache it.
    fn dated(
        self,
        job: Job<Frame, Vec<u8>>,
        report_data: Vec<u8>,
        quote: Vec<u8>,
        now: u64,
    ) -> (out: Step)
        ensures
            out@ == on_date(self@, job@, report_data@, quote@, now),
    {
        let response = attestation(
            now,
            job.version,
            job.public_key.as_slice(),
            quote.as_slice(),
            job.nonce.as_slice(),
            report_data.as_slice(),
        );
        let attest_sequence: u64 = self.attest_sequence.saturating_add(1);
        let cache = attestation_cache_json(
            b64_encode(quote.as_slice()).as_str(),
            job.version,
            b64_encode(job.public_key.as_slice()).as_str(),
            Some(b64_encode(job.nonce.as_slice()).as_str()),
            Some(b64_encode(report_data.as_slice()).as_str()),
            now,
            attest_sequence,
        );
        let runtime = Runtime { attest_sequence, ..self };
        runtime.write(
            ATTESTATION_NAME,
            cache.as_str().as_bytes(),
            AfterWrite::Cached { response, after: job.after },
        )
    }

    /// Takes a request.
    fn request(self, f: Frame) -> (out: Step)
        requires
            self@.phase == PhaseView::Idle,
        ensures
            out@ == on_request(self@, f@),
    {
        if same_text(f.op.as_str(), OP_RUNTIME_ATTESTATION_REQUEST) {
            return match nonce_of(&f, copy(DEFAULT_NONCE.as_bytes())) {
                Err(e) => self.stop(e),
                Ok(nonce) => self.attest(nonce, AfterAttest::Answer { id: f.id }),
            };
        }
        if same_text(f.op.as_str(), OP_RUNTIME_COMPUTE_REQUEST) {
            return self.go(Phase::Staleness { request: f });
        }
        if same_text(f.op.as_str(), OP_RUNTIME_ROTATE_REQUEST) {
            return self.go(Phase::RotatePair { request: f });
        }
        let answer = unsupported(&f);
        Step { runtime: self, frames: one(answer) }
    }

    /// Rotates to a key pair.
    fn rotate(self, request: Frame, public_key: Vec<u8>, private_key: Vec<u8>) -> (out: Step)
        ensures
            out@ == on_rotation(self@, request@, public_key@, private_key@),
    {
        if self.store.current_version == u64::MAX {
            return self.go(Phase::Stopped(Stop::Overflow));
        }
        let mut store = self.store.clone();
        let kept = copy(public_key.as_slice());
        store.rotate_to(public_key, private_key);
        let version: u64 = store.current_version;
        let runtime = Runtime { store, ..self };
        runtime.go(
            Phase::SealId { after: AfterPersist::Rotate { request, version, public_key: kept } },
        )
    }

    /// Takes one step.
    pub fn step(self, event: Event) -> (out: Step)
        ensures
            out@ == stepped(self@, event@),
    {
        let Runtime { loader_seq, last_attested_at, attest_sequence, store, phase } = self;
        let rest = Runtime {
            loader_seq,
            last_attested_at,
            attest_sequence,
            store,
            phase: Phase::Idle,
        };
        match (phase, event) {
            (Phase::Loader { seq, call }, Event::Frame(f)) => {
                let op = match &call {
                    Call::ReadSealed => OP_LOADER_READ_BLOB_RESULT,
                    Call::Write(_) => OP_LOADER_WRITE_BLOB_RESULT,
                    Call::InitQuote(_) => OP_LOADER_INIT_QUOTE_RESULT,
                    Call::GetQuote { job: _, report_data: _ } => OP_LOADER_GET_QUOTE_RESULT,
                };
                if !same_text(f.op.as_str(), op) || f.seq != Some(seq) {
                    return rest.go(Phase::Loader { seq, call });
                }
                match call {
                    Call::ReadSealed => rest.take_sealed(f),
                    Call::Write(after) => rest.written(after, f),
                    Call::InitQuote(job) => rest.quote_started(job, f),
                    Call::GetQuote { job, report_data } => rest.quoted(job, report_data, f),
                }
            },
            (Phase::Unseal { blob }, Event::UnsealKey(key)) => rest.open_sealed(blob, key),
            (Phase::FirstPair, Event::KeyPair { public_key, private_key }) => {
                let mut store = KeyStore { current_version: 0, keys: Vec::new() };
                assert(store@.keys =~= empty_store().keys);
                store.rotate_to(public_key, private_key);
                let runtime = Runtime { store, ..rest };
                runtime.go(Phase::SealId { after: AfterPersist::Boot })
            },
            (Phase::SealId { after }, Event::KeyId(keyid)) => match keyid {
                Err(e) => rest.stop(e),
                Ok(keyid) => rest.go(Phase::SealKey { after, keyid }),
            },
            (Phase::SealKey { after, keyid }, Event::SealKey(derived)) => match derived {
                Err(e) => rest.stop(e),
                Ok(d) => rest.go(
                    Phase::SealNonce {
                        after,
                        key: SealKey { key: d.key, keyid, isvsvn: d.isvsvn, cpusvn: d.cpusvn },
                    },
                ),
            },
            (Phase::SealNonce { after, key }, Event::Nonce(nonce)) => match nonce {
                Err(e) => rest.stop(e),
                Ok(nonce) => match seal_with(&rest.store, &key, &nonce) {
                    Err(e) => rest.stop(e),
                    Ok(blob) => rest.write(
                        SEALED_KEYS_NAME,
                        blob.as_slice(),
                        AfterWrite::Sealed(after),
                    ),
                },
            },
            (Phase::Idle, Event::Frame(f)) => rest.request(f),
            (Phase::Staleness { request }, Event::Clock(now)) => {
                let elapsed: u64 = now.saturating_sub(rest.last_attested_at);
                if rest.last_attested_at == 0 || elapsed > STALE_THRESHOLD_SECS {
                    rest.attest(
                        copy(STALE_NONCE.as_bytes()),
                        AfterAttest::Compute { request },
                    )
                } else {
                    rest.answer_compute(none(), &request)
                }
            },
            (Phase::RotatePair { request }, Event::KeyPair { public_key, private_key }) =>
                rest.rotate(request, public_key, private_key),
            (
                Phase::Report { job, att_key_id, target_info: _, report_data },
                Event::Report(report),
            ) => {
                let mut request = Frame::new(OP_LOADER_GET_QUOTE);
                request.att_key_id = Some(b64_encode(att_key_id.as_slice()));
                request.report = Some(b64_encode(report.as_slice()));
                rest.call(request, Call::GetQuote { job, report_data })
            },
            (Phase::Date { job, report_data, quote }, Event::Clock(now)) => rest.dated(
                job,
                report_data,
                quote,
                now,
            ),
            (phase, _) => rest.go(phase),
        }
    }
}

} // verus!
