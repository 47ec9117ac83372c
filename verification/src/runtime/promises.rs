//! What the runtime asks for, sends and keeps in each of its steps.

use vstd::prelude::*;
use vstd::utf8::{decode_utf8, encode_utf8, valid_utf8};

use crate::bytes::le;
use crate::compute::xy_read;
use crate::frame::{bare_frame, FrameView};
use crate::key_store::{empty_store, keyring_text, rotated, store_opened, DecryptErr, StoreView};
use crate::outside::{base64_read, base64_text, utf8_error_text};
use crate::report_data::{cache_text, report_data_for};
use crate::runtime::answer::{attestation_frame, compute_frame, inputs};
use crate::runtime::state::{
    AfterAttest, AfterPersist, AfterWrite, Call, EventView, Job, NeedView, Phase, PhaseView,
    RuntimeView, StepView, Stop,
};
use crate::runtime::step::{needed, started, stepped};
use crate::sealing::{blob_request, blob_shaped, sealed, unsealed, SealKeyView};
use crate::text::dec_int;

verus! {

/// A frame that asks the loader to write a blob, and nothing else.
pub open spec fn asks_to_write(f: FrameView, seq: int, path: Seq<char>, data: Seq<u8>) -> bool {
    &&& f.op == "loader.write_blob"@
    &&& f.seq == Some(seq as u64)
    &&& f.path == Some(path)
    &&& f.blob == Some(base64_text(data))
    &&& (FrameView { seq: None, path: None, blob: None, ..f }) == bare_frame(f.op)
}

/// Whether a state has stopped with this error, and is otherwise as it was.
pub open spec fn stopped_with(s: RuntimeView, r: StepView, error: Seq<char>) -> bool {
    &&& needed(r.runtime.phase) == NeedView::Nothing(Stop::Error(error))
    &&& r.frames == Seq::<FrameView>::empty()
    &&& r.runtime == (RuntimeView { phase: r.runtime.phase, ..s })
}

/// When the quoting enclave has named itself, the runtime needs a report to that very enclave, over
/// report data that binds the key, its version and the nonce of the attestation; and what it then
/// sends to be quoted is that report, with the attestation key that came with the enclave's name.
pub proof fn law_report_is_made_for_the_named_enclave(
    s: RuntimeView,
    seq: u64,
    job: Job<FrameView, Seq<u8>>,
    f: FrameView,
    att_key_id: Seq<u8>,
    target_info: Seq<u8>,
    report: Seq<u8>,
)
    requires
        s.phase == (PhaseView::Loader { seq, call: Call::InitQuote(job) }),
        s.loader_seq < u64::MAX,
        f.op == "loader.init_quote_result"@,
        f.seq == Some(seq),
        f.ok == Some(true),
        f.att_key_id matches Some(a) && base64_read(a) == Ok::<Seq<u8>, Seq<char>>(att_key_id),
        f.target_info matches Some(t) && base64_read(t) == Ok::<Seq<u8>, Seq<char>>(target_info),
        target_info.len() == 512,
    ensures
        ({
            let asked = stepped(s, EventView::Frame(f));
            let quoted = stepped(asked.runtime, EventView::Report(report));
            &&& asked.frames == Seq::<FrameView>::empty()
            &&& needed(asked.runtime.phase) == (NeedView::Report {
                target_info,
                report_data: report_data_for(job.version, job.public_key, job.nonce),
            })
            &&& quoted.frames.len() == 1
            &&& quoted.frames[0].op == "loader.get_quote"@
            &&& quoted.frames[0].seq == Some((s.loader_seq + 1) as u64)
            &&& quoted.frames[0].att_key_id == Some(base64_text(att_key_id))
            &&& quoted.frames[0].report == Some(base64_text(report))
            &&& (FrameView { seq: None, att_key_id: None, report: None, ..quoted.frames[0] })
                == bare_frame("loader.get_quote"@)
            &&& needed(quoted.runtime.phase) == NeedView::Frame
        }),
{
}

/// A request for an attestation asks the loader for the quoting enclave, and once that is named the
/// runtime needs a report that binds its current key, the version of it, and the nonce in the
/// request, or else the one that stands for none.
pub proof fn law_attestation_is_of_the_current_key(
    s: RuntimeView,
    request: FrameView,
    nonce: Seq<u8>,
    f: FrameView,
    target_info: Seq<u8>,
)
    requires
        s.phase == PhaseView::Idle,
        s.loader_seq < u64::MAX,
        s.store.current() is Some,
        request.op == "runtime.AttestationRequest"@,
        request.nonce matches Some(t) ==> base64_read(t) == Ok::<Seq<u8>, Seq<char>>(nonce),
        request.nonce is None ==> nonce == encode_utf8("pr3c-default-nonce"@),
        f.op == "loader.init_quote_result"@,
        f.seq == Some((s.loader_seq + 1) as u64),
        f.ok == Some(true),
        f.att_key_id matches Some(a) && base64_read(a) is Ok,
        f.target_info matches Some(t) && base64_read(t) == Ok::<Seq<u8>, Seq<char>>(target_info),
        target_info.len() == 512,
    ensures
        ({
            let key = s.store.current()->0;
            let asked = stepped(s, EventView::Frame(request));
            let named = stepped(asked.runtime, EventView::Frame(f));
            &&& asked.frames.len() == 1
            &&& asked.frames[0].op == "loader.init_quote"@
            &&& asked.frames[0].seq == Some((s.loader_seq + 1) as u64)
            &&& (FrameView { seq: None, ..asked.frames[0] }) == bare_frame("loader.init_quote"@)
            &&& needed(named.runtime.phase) == (NeedView::Report {
                target_info,
                report_data: report_data_for(key.version, key.public_key, nonce),
            })
        }),
{
}

/// A request to compute that finds the last attestation missing or more than an hour and a half old
/// is attested for first, under a nonce of its own; one that finds it fresh is not.
pub proof fn law_old_attestation_is_renewed(s: RuntimeView, request: FrameView, now: u64)
    requires
        s.phase == PhaseView::Idle,
        s.loader_seq < u64::MAX,
        s.store.current() is Some,
        request.op == "runtime.ComputeRequest"@,
    ensures
        ({
            let key = s.store.current()->0;
            let asked = stepped(s, EventView::Frame(request));
            let told = stepped(asked.runtime, EventView::Clock(now));
            &&& needed(asked.runtime.phase) == NeedView::Clock
            &&& asked.frames == Seq::<FrameView>::empty()
            &&& (s.last_attested_at == 0 || now > s.last_attested_at + 5400 ==> {
                &&& told.frames.len() == 1
                &&& told.frames[0].op == "loader.init_quote"@
                &&& told.runtime.phase == (PhaseView::Loader {
                    seq: (s.loader_seq + 1) as u64,
                    call: Call::InitQuote(
                        Job {
                            nonce: encode_utf8("stale-auto-attest-nonce"@),
                            version: key.version,
                            public_key: key.public_key,
                            after: AfterAttest::Compute { request },
                        },
                    ),
                })
            })
            &&& (s.last_attested_at != 0 && now <= s.last_attested_at + 5400 ==> {
                &&& told.runtime.loader_seq == s.loader_seq
                &&& told.runtime.last_attested_at == s.last_attested_at
                &&& forall|i: int|
                    0 <= i < told.frames.len() ==> (#[trigger] told.frames[i]).op
                        == "host.ComputeResponse"@
            })
        }),
{
    lemma_requests_differ();
}

/// The ops of the host's requests differ.
pub proof fn lemma_requests_differ()
    ensures
        "runtime.AttestationRequest"@ != "runtime.ComputeRequest"@,
        "runtime.AttestationRequest"@ != "runtime.RotateRequest"@,
        "runtime.ComputeRequest"@ != "runtime.RotateRequest"@,
{
    reveal_strlit("runtime.AttestationRequest");
    reveal_strlit("runtime.ComputeRequest");
    reveal_strlit("runtime.RotateRequest");
    assert("runtime.AttestationRequest"@[8] == 'A');
    assert("runtime.ComputeRequest"@[8] == 'C');
    assert("runtime.RotateRequest"@[8] == 'R');
}

/// A quote is dated with the time that the runtime is then told, and counted; what is cached of it
/// is the quote, the key, its version, the nonce, the report data, the time and the count.
pub proof fn law_quote_is_dated_and_cached(
    s: RuntimeView,
    seq: u64,
    job: Job<FrameView, Seq<u8>>,
    report_data: Seq<u8>,
    f: FrameView,
    quote: Seq<u8>,
    now: u64,
)
    requires
        s.phase == (PhaseView::Loader { seq, call: Call::GetQuote { job, report_data } }),
        s.loader_seq < u64::MAX,
        f.op == "loader.get_quote_result"@,
        f.seq == Some(seq),
        f.ok == Some(true),
        f.quote matches Some(q) && base64_read(q) == Ok::<Seq<u8>, Seq<char>>(quote),
    ensures
        ({
            let quoted = stepped(s, EventView::Frame(f));
            let dated = stepped(quoted.runtime, EventView::Clock(now));
            let count = dated.runtime.attest_sequence;
            &&& needed(quoted.runtime.phase) == NeedView::Clock
            &&& quoted.frames == Seq::<FrameView>::empty()
            &&& (s.attest_sequence < u64::MAX ==> count == s.attest_sequence + 1)
            &&& (s.attest_sequence == u64::MAX ==> count == u64::MAX)
            &&& dated.frames.len() == 1
            &&& asks_to_write(
                dated.frames[0],
                s.loader_seq + 1,
                "attestation.json"@,
                encode_utf8(
                    cache_text(
                        base64_text(quote),
                        job.version,
                        base64_text(job.public_key),
                        Some(base64_text(job.nonce)),
                        Some(base64_text(report_data)),
                        now,
                        count,
                    ),
                ),
            )
            &&& dated.runtime.store == s.store
            &&& dated.runtime.last_attested_at == s.last_attested_at
        }),
{
}

/// When an attestation was cached and the keyring written anew, the attestation is sent: as the
/// answer, under the id of its request; or, with no id, before the answer to what waited for it.
/// From then on it is the last one.
#[verifier::rlimit(40)]
pub proof fn law_attestation_is_sent_when_it_is_kept(
    s: RuntimeView,
    seq: u64,
    response: FrameView,
    after: AfterAttest<FrameView, Seq<u8>>,
    cached: FrameView,
    listed: FrameView,
)
    requires
        s.phase == (PhaseView::Loader {
            seq,
            call: Call::Write(AfterWrite::Cached { response, after }),
        }),
        s.loader_seq < u64::MAX,
        cached.op == "loader.write_blob_result"@,
        cached.seq == Some(seq),
        cached.ok == Some(true),
        listed.op == "loader.write_blob_result"@,
        listed.seq == Some((s.loader_seq + 1) as u64),
        listed.ok == Some(true),
    ensures
        ({
            let kept = stepped(s, EventView::Frame(cached));
            let sent = stepped(kept.runtime, EventView::Frame(listed));
            &&& kept.frames.len() == 1
            &&& asks_to_write(
                kept.frames[0],
                s.loader_seq + 1,
                "keyring.json"@,
                encode_utf8(keyring_text(s.store)),
            )
            &&& (response.attested_at matches Some(t) ==> sent.runtime.last_attested_at == t)
            &&& (response.attested_at is None ==> sent.runtime.last_attested_at == 0)
            &&& sent.runtime.store == s.store
            &&& sent.runtime.attest_sequence == s.attest_sequence
            &&& sent.frames.len() >= 1
            &&& (FrameView { id: response.id, ..sent.frames[0] }) == response
            &&& (after matches AfterAttest::Answer { id } ==> sent.frames.len() == 1
                && sent.frames[0].id == id && sent.runtime.phase == PhaseView::Idle)
            &&& (after matches AfterAttest::Compute { request } ==> sent.frames[0].id is None && (
            compute_frame(s.store, request) matches Some(answer) ==> sent.frames.len() == 2
                && sent.frames[1] == answer && sent.runtime.phase == PhaseView::Idle))
            &&& (after matches AfterAttest::Rotate { id, version, public_key } ==> {
                let answer = sent.frames[1];
                &&& sent.frames.len() == 2
                &&& sent.runtime.phase == PhaseView::Idle
                &&& sent.frames[0].id is None
                &&& answer.op == "host.RotateResponse"@ && answer.id == id
                &&& answer.ok == Some(true) && answer.key_version == Some(version)
                &&& answer.public_key == Some(base64_text(public_key))
                &&& answer.quote == response.quote && answer.attested_at == response.attested_at
                &&& answer.binding_nonce == response.binding_nonce
                &&& answer.report_data == response.report_data
            })
        }),
{
}

/// A computation that waited for an attestation and does not fit in 64 bits stops the runtime; the
/// attestation is sent all the same.
pub proof fn law_overflow_behind_an_attestation(
    s: RuntimeView,
    seq: u64,
    response: FrameView,
    request: FrameView,
    listed: FrameView,
)
    requires
        s.phase == (PhaseView::Loader {
            seq,
            call: Call::Write(
                AfterWrite::Refreshed { response, after: AfterAttest::Compute { request } },
            ),
        }),
        compute_frame(s.store, request) is None,
        listed.op == "loader.write_blob_result"@,
        listed.seq == Some(seq),
        listed.ok == Some(true),
    ensures
        ({
            let sent = stepped(s, EventView::Frame(listed));
            &&& sent.frames.len() == 1
            &&& sent.frames[0].id is None
            &&& (FrameView { id: response.id, ..sent.frames[0] }) == response
            &&& needed(sent.runtime.phase) == NeedView::Nothing(Stop::<Seq<char>>::Overflow)
        }),
{
}

/// Where the loader says that something did not go well, or leaves out what it was asked for, or
/// writes it so that it cannot be read, the runtime stops and says so.
pub proof fn law_runtime_stops_when_the_loader_fails(
    s: RuntimeView,
    seq: u64,
    call: Call<FrameView, Seq<u8>>,
    f: FrameView,
)
    requires
        s.phase == (PhaseView::Loader { seq, call }),
        f.seq == Some(seq),
    ensures
        ({
            let r = stepped(s, EventView::Frame(f));
            let writes = call is Write && f.op == "loader.write_blob_result"@;
            let starts = call is InitQuote && f.op == "loader.init_quote_result"@;
            let quotes = call is GetQuote && f.op == "loader.get_quote_result"@;
            &&& ((writes || starts || quotes) && f.ok != Some(true) ==> (f.error matches Some(e)
                ==> stopped_with(s, r, e)))
            &&& (writes && f.ok != Some(true) && f.error is None ==> stopped_with(
                s,
                r,
                "loader.write_blob failed"@,
            ))
            &&& (starts && f.ok != Some(true) && f.error is None ==> stopped_with(
                s,
                r,
                "loader.init_quote failed"@,
            ))
            &&& (quotes && f.ok != Some(true) && f.error is None ==> stopped_with(
                s,
                r,
                "loader.get_quote failed"@,
            ))
            &&& (starts && f.ok == Some(true) && f.att_key_id is None ==> stopped_with(
                s,
                r,
                "missing att_key_id"@,
            ))
            &&& (starts && f.ok == Some(true) && f.att_key_id is Some && f.target_info is None
                ==> stopped_with(s, r, "missing target_info"@))
            &&& (starts && f.ok == Some(true) ==> (f.att_key_id matches Some(a) ==> (f.target_info
                matches Some(t) ==> {
                &&& (base64_read(a) matches Err(e) ==> stopped_with(s, r, e))
                &&& (base64_read(a) is Ok ==> (base64_read(t) matches Err(e) ==> stopped_with(
                    s,
                    r,
                    e,
                )))
                &&& (base64_read(a) is Ok ==> (base64_read(t) matches Ok(target_info)
                    ==> target_info.len() != 512 ==> stopped_with(s, r, "invalid target_info"@)))
            })))
            &&& (quotes && f.ok == Some(true) && f.quote is None ==> stopped_with(
                s,
                r,
                "missing quote"@,
            ))
            &&& (quotes && f.ok == Some(true) ==> (f.quote matches Some(q) ==> (base64_read(
                q,
            ) matches Err(e) ==> stopped_with(s, r, e))))
        }),
{
}

/// An answer of the loader under another number, or with another op, changes nothing.
pub proof fn law_other_answers_are_passed_over(
    s: RuntimeView,
    seq: u64,
    call: Call<FrameView, Seq<u8>>,
    f: FrameView,
)
    requires
        s.phase == (PhaseView::Loader { seq, call }),
        f.seq != Some(seq) || (call is ReadSealed && f.op != "loader.read_blob_result"@) || (call
            is Write && f.op != "loader.write_blob_result"@) || (call is InitQuote && f.op
            != "loader.init_quote_result"@) || (call is GetQuote && f.op
            != "loader.get_quote_result"@),
    ensures
        stepped(s, EventView::Frame(f)) == (StepView { runtime: s, frames: Seq::empty() }),
{
}

/// The runtime starts by asking for its sealed store. Where there is none, or what there is cannot
/// be one, or the key of it does not come or does not open it, the runtime needs a first key pair;
/// where what came cannot even be read, it stops.
pub proof fn law_runtime_starts_from_its_sealed_store(
    f: FrameView,
    blob: Seq<u8>,
    key: Result<Seq<u8>, Seq<char>>,
)
    requires
        f.op == "loader.read_blob_result"@,
        f.seq == Some(1u64),
        f.ok == Some(true) ==> (f.blob matches Some(t) ==> (base64_read(t) matches Ok(read)
            ==> read == blob)),
    ensures
        ({
            let first = started();
            let told = stepped(first.runtime, EventView::Frame(f));
            let opened = stepped(told.runtime, EventView::UnsealKey(key));
            let found = f.ok == Some(true) && f.blob is Some;
            &&& first.frames.len() == 1
            &&& first.frames[0].op == "loader.read_blob"@
            &&& first.frames[0].seq == Some(1u64)
            &&& first.frames[0].path == Some("sealed_keys.bin"@)
            &&& (FrameView { seq: None, path: None, ..first.frames[0] }) == bare_frame(
                "loader.read_blob"@,
            )
            &&& first.runtime.last_attested_at == 0 && first.runtime.attest_sequence == 0
            &&& told.frames == Seq::<FrameView>::empty()
            &&& (!found ==> needed(told.runtime.phase) == NeedView::KeyPair)
            &&& (found ==> (base64_read(f.blob->0) matches Err(e) ==> stopped_with(
                first.runtime,
                told,
                e,
            )))
            &&& (found && base64_read(f.blob->0) is Ok && !blob_shaped(blob) ==> needed(
                told.runtime.phase,
            ) == NeedView::KeyPair)
            &&& (found && base64_read(f.blob->0) is Ok && blob_shaped(blob) ==> {
                &&& (blob_request(blob) matches Ok(request) ==> needed(told.runtime.phase) == (
                NeedView::UnsealKey { request }))
                &&& (key is Err ==> needed(opened.runtime.phase) == NeedView::KeyPair)
                &&& (key matches Ok(k) ==> {
                    &&& (unsealed(blob, k) is Err ==> needed(opened.runtime.phase)
                        == NeedView::KeyPair)
                    &&& (unsealed(blob, k) matches Ok(store) ==> {
                        &&& opened.runtime.store == store
                        &&& opened.frames.len() == 1
                        &&& asks_to_write(
                            opened.frames[0],
                            2,
                            "keyring.json"@,
                            encode_utf8(keyring_text(store)),
                        )
                    })
                })
            })
        }),
{
}

/// When the loader has written the keyring of an unsealed store, the runtime says that it is ready
/// with that store, and waits for requests.
pub proof fn law_runtime_is_ready_with_its_store(
    s: RuntimeView,
    seq: u64,
    call: Call<FrameView, Seq<u8>>,
    f: FrameView,
)
    requires
        s.phase == (PhaseView::Loader { seq, call }),
        call == Call::<FrameView, Seq<u8>>::Write(AfterWrite::Booted) || call == Call::<
            FrameView,
            Seq<u8>,
        >::Write(AfterWrite::Listed(AfterPersist::Boot)),
        f.op == "loader.write_blob_result"@,
        f.seq == Some(seq),
        f.ok == Some(true),
    ensures
        ({
            let r = stepped(s, EventView::Frame(f));
            &&& r.runtime == (RuntimeView { phase: PhaseView::Idle, ..s })
            &&& r.frames.len() == 1
            &&& r.frames[0].op == "host.Ready"@ && r.frames[0].ok == Some(true)
            &&& r.frames[0].key_version == Some(s.store.current_version)
            &&& (s.store.current() matches Some(k) ==> r.frames[0].public_key == Some(
                base64_text(k.public_key),
            ))
            &&& (s.store.current() is None ==> r.frames[0].public_key is None)
            &&& (FrameView { ok: None, key_version: None, public_key: None, ..r.frames[0] })
                == bare_frame("host.Ready"@)
        }),
{
}

/// A store is sealed under the key with the id that was drawn, for the security versions that the
/// key came with, and under the nonce that was drawn; the loader writes it, and then the keyring.
pub proof fn law_store_is_sealed_with_what_was_drawn(
    s: RuntimeView,
    after: AfterPersist<FrameView, Seq<u8>>,
    keyid: Seq<u8>,
    key: Seq<u8>,
    isvsvn: u16,
    cpusvn: Seq<u8>,
    nonce: Seq<u8>,
    f: FrameView,
)
    requires
        s.phase == (PhaseView::SealId { after }),
        s.loader_seq < u64::MAX - 1,
        f.op == "loader.write_blob_result"@,
        f.seq == Some((s.loader_seq + 1) as u64),
        f.ok == Some(true),
    ensures
        ({
            let id = stepped(s, EventView::KeyId(Ok(keyid)));
            let derived = stepped(id.runtime, EventView::SealKey(Ok((key, isvsvn, cpusvn))));
            let drawn = stepped(derived.runtime, EventView::Nonce(Ok(nonce)));
            let written = stepped(drawn.runtime, EventView::Frame(f));
            &&& needed(s.phase) == NeedView::KeyId
            &&& id.frames == Seq::<FrameView>::empty()
            &&& needed(id.runtime.phase) == (NeedView::SealKey { keyid })
            &&& derived.frames == Seq::<FrameView>::empty()
            &&& needed(derived.runtime.phase) == NeedView::Nonce
            &&& match sealed(s.store, SealKeyView { key, keyid, isvsvn, cpusvn }, nonce) {
                Err(e) => stopped_with(s, drawn, e),
                Ok(blob) => {
                    &&& drawn.frames.len() == 1
                    &&& asks_to_write(
                        drawn.frames[0],
                        s.loader_seq + 1,
                        "sealed_keys.bin"@,
                        blob,
                    )
                    &&& written.frames.len() == 1
                    &&& asks_to_write(
                        written.frames[0],
                        s.loader_seq + 2,
                        "keyring.json"@,
                        encode_utf8(keyring_text(s.store)),
                    )
                    &&& written.runtime.store == s.store
                    &&& written.runtime.phase == (PhaseView::Loader {
                        seq: (s.loader_seq + 2) as u64,
                        call: Call::Write(AfterWrite::Listed(after)),
                    })
                },
            }
        }),
{
}

/// What was to be drawn or derived and could not be stops the runtime with the reason.
pub proof fn law_runtime_stops_without_a_seal(
    s: RuntimeView,
    after: AfterPersist<FrameView, Seq<u8>>,
    keyid: Seq<u8>,
    key: SealKeyView,
    e: Seq<char>,
)
    ensures
        s.phase == (PhaseView::SealId { after }) ==> stopped_with(
            s,
            stepped(s, EventView::KeyId(Err(e))),
            e,
        ),
        s.phase == (PhaseView::SealKey { after, keyid }) ==> stopped_with(
            s,
            stepped(s, EventView::SealKey(Err(e))),
            e,
        ),
        s.phase == (PhaseView::SealNonce { after, key }) ==> stopped_with(
            s,
            stepped(s, EventView::Nonce(Err(e))),
            e,
        ),
{
}

/// A first key pair makes a store of it alone; a key pair for a rotation is added to the store, and
/// what follows the sealing speaks of the new version and key.
pub proof fn law_key_pair_goes_into_the_store(
    s: RuntimeView,
    request: FrameView,
    public_key: Seq<u8>,
    private_key: Seq<u8>,
)
    ensures
        ({
            let r = stepped(s, EventView::KeyPair { public_key, private_key });
            &&& (s.phase == PhaseView::FirstPair ==> {
                &&& r.frames == Seq::<FrameView>::empty()
                &&& needed(r.runtime.phase) == NeedView::KeyId
                &&& r.runtime.store == rotated(empty_store(), public_key, private_key)
                &&& r.runtime == (RuntimeView {
                    store: r.runtime.store,
                    phase: PhaseView::SealId { after: AfterPersist::Boot },
                    ..s
                })
            })
            &&& (s.phase == (PhaseView::RotatePair { request }) && s.store.current_version
                < u64::MAX ==> {
                &&& r.frames == Seq::<FrameView>::empty()
                &&& needed(r.runtime.phase) == NeedView::KeyId
                &&& r.runtime.store == rotated(s.store, public_key, private_key)
                &&& r.runtime == (RuntimeView {
                    store: r.runtime.store,
                    phase: PhaseView::SealId {
                        after: AfterPersist::Rotate {
                            request,
                            version: (s.store.current_version + 1) as u64,
                            public_key,
                        },
                    },
                    ..s
                })
            })
            &&& (s.phase == (PhaseView::RotatePair { request }) && s.store.current_version
                == u64::MAX ==> {
                &&& r.frames == Seq::<FrameView>::empty()
                &&& needed(r.runtime.phase) == NeedView::Nothing(Stop::<Seq<char>>::Overflow)
                &&& r.runtime.store == s.store
            })
        }),
{
}

/// When the store of a rotation is sealed and listed, the current key is attested, under the nonce
/// that was asked with, or else under the new version in eight bytes, the low one first.
pub proof fn law_rotation_goes_on_with_an_attestation(
    s: RuntimeView,
    seq: u64,
    request: FrameView,
    version: u64,
    public_key: Seq<u8>,
    nonce: Seq<u8>,
    f: FrameView,
)
    requires
        s.phase == (PhaseView::Loader {
            seq,
            call: Call::Write(
                AfterWrite::Listed(AfterPersist::Rotate { request, version, public_key }),
            ),
        }),
        s.loader_seq < u64::MAX,
        s.store.current() is Some,
        request.nonce is None ==> nonce == le(version as nat, 8),
        f.op == "loader.write_blob_result"@,
        f.seq == Some(seq),
        f.ok == Some(true),
    ensures
        ({
            let r = stepped(s, EventView::Frame(f));
            let key = s.store.current()->0;
            &&& (request.nonce matches Some(t) ==> (base64_read(t) matches Err(e) ==> stopped_with(
                s,
                r,
                e,
            )))
            &&& (request.nonce is None || base64_read(request.nonce->0) == Ok::<
                Seq<u8>,
                Seq<char>,
            >(nonce) ==> {
                &&& r.frames.len() == 1
                &&& r.frames[0].op == "loader.init_quote"@
                &&& r.runtime.phase == (PhaseView::Loader {
                    seq: (s.loader_seq + 1) as u64,
                    call: Call::InitQuote(
                        Job {
                            nonce,
                            version: key.version,
                            public_key: key.public_key,
                            after: AfterAttest::Rotate { id: request.id, version, public_key },
                        },
                    ),
                })
            })
        }),
{
}

/// A request for an attestation whose nonce cannot be read stops the runtime, and so does any when
/// it has no key. A request for a rotation waits for a key pair. One with another op is refused in
/// words, under its own id, and changes nothing.
pub proof fn law_other_requests_are_answered(s: RuntimeView, request: FrameView)
    requires
        s.phase == PhaseView::Idle,
    ensures
        ({
            let r = stepped(s, EventView::Frame(request));
            &&& (request.op == "runtime.AttestationRequest"@ ==> {
                &&& (request.nonce matches Some(t) ==> (base64_read(t) matches Err(e)
                    ==> stopped_with(s, r, e)))
                &&& (request.nonce is None && s.store.current() is None ==> stopped_with(
                    s,
                    r,
                    "empty KeyStore"@,
                ))
            })
            &&& (request.op == "runtime.RotateRequest"@ ==> {
                &&& needed(r.runtime.phase) == NeedView::KeyPair
                &&& r.frames == Seq::<FrameView>::empty()
                &&& r.runtime == (RuntimeView { phase: PhaseView::RotatePair { request }, ..s })
            })
            &&& (request.op != "runtime.AttestationRequest"@ && request.op
                != "runtime.ComputeRequest"@ && request.op != "runtime.RotateRequest"@ ==> {
                &&& r.runtime == s
                &&& r.frames.len() == 1
                &&& r.frames[0].op == request.op + "_error"@
                &&& r.frames[0].id == request.id && r.frames[0].ok == Some(false)
                &&& r.frames[0].error == Some("unsupported op: "@ + request.op)
                &&& (FrameView { id: None, ok: None, error: None, ..r.frames[0] }) == bare_frame(
                    r.frames[0].op,
                )
            })
        }),
{
    lemma_requests_differ();
}

/// The frame that carries an attestation has each part in its own field, and nothing else.
pub proof fn law_attestation_has_its_fields(
    attested_at: u64,
    version: u64,
    public_key: Seq<u8>,
    quote: Seq<u8>,
    nonce: Seq<u8>,
    report_data: Seq<u8>,
)
    ensures
        ({
            let f = attestation_frame(attested_at, version, public_key, quote, nonce, report_data);
            &&& f.op == "host.AttestationResponse"@ && f.ok == Some(true)
            &&& f.attested_at == Some(attested_at) && f.key_version == Some(version)
            &&& f.public_key == Some(base64_text(public_key))
            &&& f.quote == Some(base64_text(quote))
            &&& f.binding_nonce == Some(base64_text(nonce))
            &&& f.report_data == Some(base64_text(report_data))
            &&& (FrameView {
                ok: None,
                attested_at: None,
                key_version: None,
                public_key: None,
                quote: None,
                binding_nonce: None,
                report_data: None,
                ..f
            }) == bare_frame(f.op)
        }),
{
}

/// A dated attestation, as it waits to be sent, is of the quote, the key, its version, the nonce and
/// the report data that it was made with, at the time that the runtime was told.
pub proof fn law_attestation_is_made_of_its_parts(
    s: RuntimeView,
    job: Job<FrameView, Seq<u8>>,
    report_data: Seq<u8>,
    quote: Seq<u8>,
    now: u64,
)
    requires
        s.phase == (PhaseView::Date { job, report_data, quote }),
        s.loader_seq < u64::MAX,
    ensures
        ({
            let r = stepped(s, EventView::Clock(now));
            &&& r.runtime.phase matches Phase::Loader {
                seq,
                call: Call::Write(AfterWrite::Cached { response, after }),
            }
            &&& seq == s.loader_seq + 1
            &&& after == job.after
            &&& response.op == "host.AttestationResponse"@ && response.ok == Some(true)
            &&& response.attested_at == Some(now) && response.key_version == Some(job.version)
            &&& response.public_key == Some(base64_text(job.public_key))
            &&& response.quote == Some(base64_text(quote))
            &&& response.binding_nonce == Some(base64_text(job.nonce))
            &&& response.report_data == Some(base64_text(report_data))
        }),
{
}

/// A request to compute is answered under its own id: with `x`³ + 5`y` of the inputs that its
/// ciphertext holds, or with the code and the words of what is wrong. It is not answered only where
/// a step of the computation does not fit in 64 bits.
pub proof fn law_computation_is_answered(store: StoreView, request: FrameView)
    ensures
        ({
            let version: u64 = match request.key_version {
                Some(v) => v,
                None => 0,
            };
            let aad: Seq<char> = match request.aad_json {
                Some(a) => a,
                None => "{\"v\":"@ + dec_int(request.v as int) + ",\"id\":"@ + dec_int(
                    match request.id {
                        Some(id) => id as int,
                        None => 0,
                    },
                ) + ",\"op\":\""@ + "compute"@ + "\",\"key_version\":"@ + dec_int(version as int)
                    + "}"@,
            };
            let answer = compute_frame(store, request);
            &&& (answer matches Some(a) ==> a.op == "host.ComputeResponse"@ && a.id == request.id
                && (FrameView { id: None, ok: None, result: None, code: None, error: None, ..a })
                == bare_frame(a.op))
            &&& (request.ct is None ==> (answer matches Some(a) && a.ok == Some(false) && a.code
                == Some("bad_input"@) && a.error == Some("missing ct"@) && a.result is None))
            &&& (request.ct matches Some(ct) ==> match inputs(store, version, ct, aad) {
                Err((code, message)) => answer matches Some(a) && a.ok == Some(false) && a.code
                    == Some(code) && a.error == Some(message) && a.result is None,
                Ok((x, y)) => {
                    let fits = i64::MIN <= x * x * x <= i64::MAX && i64::MIN <= 5 * y <= i64::MAX
                        && i64::MIN <= x * x * x + 5 * y <= i64::MAX;
                    &&& (answer is Some <==> fits)
                    &&& (answer matches Some(a) ==> a.ok == Some(true) && a.code is None && a.error
                        is None && (a.result matches Some(v) && v == x * x * x + 5 * y))
                },
            })
        }),
{
    crate::text::law_integers_are_written_in_decimal(request.v as int);
    crate::text::law_integers_are_written_in_decimal(request.id.unwrap_or(0) as int);
    crate::text::law_integers_are_written_in_decimal(request.key_version.unwrap_or(0) as int);
}

/// What a ciphertext holds is decrypted with the key of the named version, under the associated
/// data, and read as inputs. What cannot be read, decrypted or read as text is told apart.
pub proof fn law_inputs_are_decrypted(
    store: StoreView,
    key_version: u64,
    ct_b64: Seq<char>,
    aad: Seq<char>,
)
    ensures
        ({
            let out = inputs(store, key_version, ct_b64, aad);
            match base64_read(ct_b64) {
                Err(e) => out == Err::<(i64, i64), (Seq<char>, Seq<char>)>(("bad_input"@, e)),
                Ok(ct) => match store_opened(store, key_version, ct, encode_utf8(aad)) {
                    Err(DecryptErr::Expired) => out == Err::<(i64, i64), (Seq<char>, Seq<char>)>(
                        ("key_expired"@, "key version expired (retention=2)"@),
                    ),
                    Err(DecryptErr::Unknown) => out == Err::<(i64, i64), (Seq<char>, Seq<char>)>(
                        ("key_unknown"@, "key version unknown"@),
                    ),
                    Err(DecryptErr::Failed) => out == Err::<(i64, i64), (Seq<char>, Seq<char>)>(
                        ("decrypt_failed"@, "hpke decrypt failed"@),
                    ),
                    Ok(plain) => {
                        &&& (!valid_utf8(plain) ==> out == Err::<
                            (i64, i64),
                            (Seq<char>, Seq<char>),
                        >(("bad_input"@, utf8_error_text(plain))))
                        &&& (valid_utf8(plain) ==> match xy_read(decode_utf8(plain)) {
                            Err(e) => out == Err::<(i64, i64), (Seq<char>, Seq<char>)>(
                                ("bad_input"@, e),
                            ),
                            Ok(xy) => out == Ok::<(i64, i64), (Seq<char>, Seq<char>)>(xy),
                        })
                    },
                },
            }
        }),
{
}

/// A request to compute that finds the last attestation fresh is answered with nothing but its
/// answer; where the computation does not fit in 64 bits there is none, and the runtime stops.
pub proof fn law_fresh_runtime_answers_or_stops(s: RuntimeView, request: FrameView, now: u64)
    requires
        s.phase == (PhaseView::Staleness { request }),
        s.last_attested_at != 0,
        now <= s.last_attested_at + 5400,
    ensures
        ({
            let r = stepped(s, EventView::Clock(now));
            &&& r.runtime == (RuntimeView { phase: r.runtime.phase, ..s })
            &&& (compute_frame(s.store, request) matches Some(answer) ==> r.frames.len() == 1
                && r.frames[0] == answer && needed(r.runtime.phase) == NeedView::Frame)
            &&& (compute_frame(s.store, request) is None ==> r.frames.len() == 0 && needed(
                r.runtime.phase,
            ) == NeedView::Nothing(Stop::<Seq<char>>::Overflow))
        }),
{
}

/// When the numbers for calls of the loader have run out, the runtime stops and sends nothing.
pub proof fn law_runtime_stops_when_numbers_run_out(
    s: RuntimeView,
    request: FrameView,
    data: Seq<u8>,
    now: u64,
)
    requires
        s.loader_seq == u64::MAX,
        s.store.current() is Some,
        request.op == "runtime.AttestationRequest"@ && request.nonce is None,
    ensures
        ({
            let asked = stepped(s, EventView::Frame(request));
            let reported = stepped(s, EventView::Report(data));
            let dated = stepped(s, EventView::Clock(now));
            let overflow = NeedView::Nothing(Stop::<Seq<char>>::Overflow);
            &&& (s.phase == PhaseView::Idle ==> needed(asked.runtime.phase) == overflow
                && asked.frames.len() == 0)
            &&& (s.phase is Report ==> needed(reported.runtime.phase) == overflow
                && reported.frames.len() == 0)
            &&& (s.phase is Date ==> needed(dated.runtime.phase) == overflow && dated.frames.len()
                == 0)
        }),
{
}

} // verus!
