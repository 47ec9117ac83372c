//! What holds of the runtime over all its steps, and over the runs that its users see.

use vstd::prelude::*;
use vstd::utf8::encode_utf8;

use crate::bytes::le;
use crate::frame::{
    FrameView, OP_LOADER_GET_QUOTE_RESULT, OP_LOADER_INIT_QUOTE_RESULT, OP_LOADER_READ_BLOB_RESULT,
    OP_LOADER_WRITE_BLOB_RESULT, OP_RUNTIME_ATTESTATION_REQUEST, OP_RUNTIME_COMPUTE_REQUEST,
    OP_RUNTIME_ROTATE_REQUEST, SEALED_KEYS_NAME,
};
use crate::key_store::{
    empty_store, law_keyring_shows_no_private_key, law_rotated_stores_can_be_encoded,
    law_rotation_keeps_the_store_well_formed, rotated, same_public, store_encoded, StoreView,
};
use crate::outside::{aes_opened, aes_sealed, base64_read, hpke_pair};
use crate::report_data::report_data_for;
use crate::runtime::answer::{attestation_frame, compute_frame, ready_frame, rotation_frame};
use crate::runtime::state::{
    AfterAttest, AfterPersist, AfterWrite, Call, EventView, NeedView, Phase, PhaseView, RuntimeView,
    StepView,
};
use crate::runtime::step::{
    asked_nonce, is_stale, needed, on_attested, on_persisted, started, stepped, to_attestation,
    DEFAULT_NONCE, STALE_NONCE, TARGET_INFO_LEN,
};
use crate::sealing::{
    blob_shaped, law_unseal_gives_back_seal, seal_request_for, sealed, unsealed, SealKeyView,
};

verus! {

/// Whether an event is what was needed.
pub open spec fn meets(need: NeedView, event: EventView) -> bool {
    match need {
        NeedView::Frame => event is Frame,
        NeedView::Clock => event is Clock,
        NeedView::KeyPair => event is KeyPair,
        NeedView::KeyId => event is KeyId,
        NeedView::Nonce => event is Nonce,
        NeedView::SealKey { .. } => event is SealKey,
        NeedView::UnsealKey { .. } => event is UnsealKey,
        NeedView::Report { .. } => event is Report,
        NeedView::Nothing(_) => false,
    }
}

/// What the runtime did not need changes nothing; nothing changes a runtime that has stopped. (It
/// waits for the key of a sealed blob only where the blob has the shape of one.)
pub proof fn law_unneeded_event_changes_nothing(s: RuntimeView, event: EventView)
    requires
        !meets(needed(s.phase), event),
        s.phase matches Phase::Unseal { blob } ==> blob_shaped(blob),
    ensures
        stepped(s, event) == (StepView { runtime: s, frames: Seq::empty() }),
{
}

/// Calls of the loader are numbered one by one: a step makes at most one, sends nothing else with
/// it, and then waits for the answer with its number.
pub proof fn law_loader_calls_are_numbered(s: RuntimeView, event: EventView)
    ensures
        ({
            let r = stepped(s, event);
            if r.runtime.loader_seq == s.loader_seq {
                r.runtime.phase matches Phase::Loader { seq, call } ==> r.runtime == s && r.frames
                    == Seq::<FrameView>::empty()
            } else {
                &&& r.runtime.loader_seq == s.loader_seq + 1
                &&& r.frames.len() == 1
                &&& r.frames[0].seq == Some(r.runtime.loader_seq)
                &&& r.runtime.phase matches Phase::Loader { seq, call }
                &&& seq == r.runtime.loader_seq
            }
        }),
{
}

/// The store changes only when it is unsealed, made or rotated.
pub proof fn law_store_changes_only_by_boot_or_rotation(s: RuntimeView, event: EventView)
    ensures
        stepped(s, event).runtime.store != s.store ==> s.phase is Unseal || s.phase is FirstPair
            || s.phase is RotatePair,
{
}

/// Whether the runtime has no store yet.
pub open spec fn without_store(phase: PhaseView) -> bool {
    match phase {
        Phase::Loader { call: Call::ReadSealed, .. } => true,
        Phase::Unseal { .. } => true,
        Phase::FirstPair => true,
        Phase::Stopped(_) => true,
        _ => false,
    }
}

/// Whether the runtime's store is as rotations leave it, as soon as it has one.
pub open spec fn sound(s: RuntimeView) -> bool {
    without_store(s.phase) || s.store.wf()
}

/// The runtime starts without a store, and no step takes away from its soundness: at any time it
/// holds the current key pair and at most the one before. This rests on what comes from outside:
/// key pairs that belong together, and no store in a sealed blob but one that was well-formed when
/// it was sealed.
pub proof fn law_runtime_stays_sound(s: RuntimeView, event: EventView)
    requires
        sound(s),
        event matches EventView::KeyPair { public_key, private_key } ==> hpke_pair(
            public_key,
            private_key,
        ),
        s.phase matches Phase::Unseal { blob } ==> (event matches EventView::UnsealKey(Ok(key)) ==> (
        unsealed(blob, key) matches Ok(store) ==> store.wf())),
    ensures
        sound(started().runtime),
        sound(stepped(s, event).runtime),
{
    if let EventView::KeyPair { public_key, private_key } = event {
        law_rotation_keeps_the_store_well_formed(empty_store(), public_key, private_key);
        if s.phase is RotatePair && s.store.current_version < u64::MAX {
            law_rotation_keeps_the_store_well_formed(s.store, public_key, private_key);
        }
    }
}

/// What the loader says of a call that went well.
pub open spec fn went_well(f: FrameView, op: Seq<char>, seq: int) -> bool {
    f.op == op && f.seq == Some(seq as u64) && f.ok == Some(true)
}

/// Six things that come back while an attestation is made: the loader's word about the quoting
/// enclave, a report, a quote, the time, and the loader's word about two blobs.
pub ghost struct Round {
    pub enclave: FrameView,
    pub report: Seq<u8>,
    pub quoted: FrameView,
    pub now: u64,
    pub cached: FrameView,
    pub listed: FrameView,
}

impl Round {
    /// The quote.
    pub open spec fn quote(self) -> Seq<u8> {
        base64_read(self.quoted.quote->0)->Ok_0
    }

    /// Whether all went well, for calls from the number `seq` on.
    pub open spec fn well(self, seq: int) -> bool {
        &&& went_well(self.enclave, OP_LOADER_INIT_QUOTE_RESULT@, seq)
        &&& self.enclave.att_key_id matches Some(a)
        &&& base64_read(a) is Ok
        &&& self.enclave.target_info matches Some(t)
        &&& base64_read(t) matches Ok(target_info)
        &&& target_info.len() == TARGET_INFO_LEN
        &&& went_well(self.quoted, OP_LOADER_GET_QUOTE_RESULT@, seq + 1)
        &&& self.quoted.quote matches Some(q)
        &&& base64_read(q) is Ok
        &&& went_well(self.cached, OP_LOADER_WRITE_BLOB_RESULT@, seq + 2)
        &&& went_well(self.listed, OP_LOADER_WRITE_BLOB_RESULT@, seq + 3)
    }
}

/// Where the runtime is when a round went through it.
#[verifier::opaque]
pub open spec fn after_round(s: RuntimeView, round: Round) -> StepView {
    let s1 = stepped(s, EventView::Frame(round.enclave)).runtime;
    let s2 = stepped(s1, EventView::Report(round.report)).runtime;
    let s3 = stepped(s2, EventView::Frame(round.quoted)).runtime;
    let s4 = stepped(s3, EventView::Clock(round.now)).runtime;
    let s5 = stepped(s4, EventView::Frame(round.cached)).runtime;
    stepped(s5, EventView::Frame(round.listed))
}

/// The number of attestations after one more.
pub open spec fn one_more(n: u64) -> u64 {
    if n == u64::MAX {
        u64::MAX
    } else {
        (n + 1) as u64
    }
}

/// A round that goes well makes an attestation of the current key under the nonce.
proof fn lemma_round(
    s: RuntimeView,
    nonce: Seq<u8>,
    after: AfterAttest<FrameView, Seq<u8>>,
    round: Round,
)
    requires
        s.loader_seq < u64::MAX - 4,
        s.store.current() is Some,
        round.well(s.loader_seq + 1),
    ensures
        ({
            let k = s.store.current()->0;
            let made = attestation_frame(
                round.now,
                k.version,
                k.public_key,
                round.quote(),
                nonce,
                report_data_for(k.version, k.public_key, nonce),
            );
            let last = after_round(to_attestation(s, nonce, after).runtime, round);
            exists|at: RuntimeView|
                {
                    &&& last == #[trigger] on_attested(at, made, after)
                    &&& at.store == s.store
                    &&& at.loader_seq == s.loader_seq + 4
                    &&& at.attest_sequence == one_more(s.attest_sequence)
                }
        }),
{
    reveal(after_round);
    let s0 = to_attestation(s, nonce, after).runtime;
    let s1 = stepped(s0, EventView::Frame(round.enclave)).runtime;
    assert(s1.phase is Report);
    let s2 = stepped(s1, EventView::Report(round.report)).runtime;
    assert(s2.phase is Loader);
    let s3 = stepped(s2, EventView::Frame(round.quoted)).runtime;
    assert(s3.phase is Date);
    let s4 = stepped(s3, EventView::Clock(round.now)).runtime;
    assert(s4.phase is Loader);
    let s5 = stepped(s4, EventView::Frame(round.cached)).runtime;
    assert(s5.phase is Loader);
    let k = s.store.current()->0;
    let made = attestation_frame(
        round.now,
        k.version,
        k.public_key,
        round.quote(),
        nonce,
        report_data_for(k.version, k.public_key, nonce),
    );
    assert(stepped(s5, EventView::Frame(round.listed)) == on_attested(s5, made, after));
}

/// An attestation that is asked for is answered, under the id of the request, with a quote over
/// report data that binds the current key, its version and the nonce that was asked with. The store
/// stays as it is.
pub proof fn law_attestation_request_is_answered(s: RuntimeView, request: FrameView, round: Round)
    requires
        s.phase == PhaseView::Idle,
        s.loader_seq < u64::MAX - 4,
        s.store.current() is Some,
        request.op == OP_RUNTIME_ATTESTATION_REQUEST@,
        asked_nonce(request, encode_utf8(DEFAULT_NONCE@)) is Ok,
        round.well(s.loader_seq + 1),
    ensures
        ({
            let nonce = asked_nonce(request, encode_utf8(DEFAULT_NONCE@))->Ok_0;
            let k = s.store.current()->0;
            let last = after_round(stepped(s, EventView::Frame(request)).runtime, round);
            &&& last.frames == seq![
                FrameView {
                    id: request.id,
                    ..attestation_frame(
                        round.now,
                        k.version,
                        k.public_key,
                        round.quote(),
                        nonce,
                        report_data_for(k.version, k.public_key, nonce),
                    )
                },
            ]
            &&& last.runtime == RuntimeView {
                loader_seq: (s.loader_seq + 4) as u64,
                last_attested_at: round.now,
                attest_sequence: one_more(s.attest_sequence),
                ..s
            }
        }),
{
    let nonce = asked_nonce(request, encode_utf8(DEFAULT_NONCE@))->Ok_0;
    lemma_round(s, nonce, AfterAttest::Answer { id: request.id }, round);
}

/// A request to compute that comes while the last attestation is fresh is answered at once, and
/// nothing else changes.
pub proof fn law_fresh_runtime_computes_at_once(s: RuntimeView, request: FrameView, now: u64)
    requires
        s.phase == PhaseView::Idle,
        request.op == OP_RUNTIME_COMPUTE_REQUEST@,
        !is_stale(s.last_attested_at, now),
        compute_frame(s.store, request) is Some,
    ensures
        ({
            let s1 = stepped(s, EventView::Frame(request)).runtime;
            stepped(s1, EventView::Clock(now)) == StepView {
                runtime: s,
                frames: seq![compute_frame(s.store, request)->0],
            }
        }),
{
    assert(OP_RUNTIME_COMPUTE_REQUEST@ != OP_RUNTIME_ATTESTATION_REQUEST@) by {
        reveal_strlit("runtime.ComputeRequest");
        reveal_strlit("runtime.AttestationRequest");
        assert(OP_RUNTIME_COMPUTE_REQUEST@[8] != OP_RUNTIME_ATTESTATION_REQUEST@[8]);
    }
    assert(Seq::<FrameView>::empty().push(compute_frame(s.store, request)->0) =~= seq![
        compute_frame(s.store, request)->0,
    ]);
}

/// A request to compute that comes when the last attestation is too old, or there is none, is
/// answered all the same; before the answer a new attestation is sent, with no id.
#[verifier::rlimit(30)]
pub proof fn law_stale_runtime_attests_before_it_computes(
    s: RuntimeView,
    request: FrameView,
    now: u64,
    round: Round,
)
    requires
        s.phase == PhaseView::Idle,
        s.loader_seq < u64::MAX - 4,
        s.store.current() is Some,
        request.op == OP_RUNTIME_COMPUTE_REQUEST@,
        is_stale(s.last_attested_at, now),
        compute_frame(s.store, request) is Some,
        round.well(s.loader_seq + 1),
    ensures
        ({
            let nonce = encode_utf8(STALE_NONCE@);
            let k = s.store.current()->0;
            let s1 = stepped(s, EventView::Frame(request)).runtime;
            let last = after_round(stepped(s1, EventView::Clock(now)).runtime, round);
            &&& last.frames == seq![
                attestation_frame(
                    round.now,
                    k.version,
                    k.public_key,
                    round.quote(),
                    nonce,
                    report_data_for(k.version, k.public_key, nonce),
                ),
                compute_frame(s.store, request)->0,
            ]
            &&& last.runtime == RuntimeView {
                loader_seq: (s.loader_seq + 4) as u64,
                last_attested_at: round.now,
                attest_sequence: one_more(s.attest_sequence),
                ..s
            }
        }),
{
    assert(OP_RUNTIME_COMPUTE_REQUEST@ != OP_RUNTIME_ATTESTATION_REQUEST@) by {
        reveal_strlit("runtime.ComputeRequest");
        reveal_strlit("runtime.AttestationRequest");
        assert(OP_RUNTIME_COMPUTE_REQUEST@[8] != OP_RUNTIME_ATTESTATION_REQUEST@[8]);
    }
    let s1 = stepped(s, EventView::Frame(request)).runtime;
    let nonce = encode_utf8(STALE_NONCE@);
    lemma_round(s1, nonce, AfterAttest::Compute { request }, round);
    let k = s.store.current()->0;
    let made = attestation_frame(
        round.now,
        k.version,
        k.public_key,
        round.quote(),
        nonce,
        report_data_for(k.version, k.public_key, nonce),
    );
    assert(made.id is None);
    assert(seq![made].push(compute_frame(s.store, request)->0) =~= seq![
        made,
        compute_frame(s.store, request)->0,
    ]);
}

/// Five things that come back while a store is sealed and written: a key id, the key for it, a
/// nonce, and the loader's word about two blobs.
pub ghost struct Sealing {
    pub keyid: Seq<u8>,
    pub derived: (Seq<u8>, u16, Seq<u8>),
    pub nonce: Seq<u8>,
    pub stored: FrameView,
    pub listed: FrameView,
}

impl Sealing {
    /// The key, with what it was derived for.
    pub open spec fn key(self) -> SealKeyView {
        SealKeyView {
            key: self.derived.0,
            keyid: self.keyid,
            isvsvn: self.derived.1,
            cpusvn: self.derived.2,
        }
    }

    /// Whether all went well with this store, for calls from the number `seq` on.
    pub open spec fn well(self, store: StoreView, seq: int) -> bool {
        &&& sealed(store, self.key(), self.nonce) is Ok
        &&& went_well(self.stored, OP_LOADER_WRITE_BLOB_RESULT@, seq)
        &&& went_well(self.listed, OP_LOADER_WRITE_BLOB_RESULT@, seq + 1)
    }
}

/// Where the runtime is when a sealing went through it.
#[verifier::opaque]
pub open spec fn after_sealing(s: RuntimeView, sealing: Sealing) -> StepView {
    let s1 = stepped(s, EventView::KeyId(Ok(sealing.keyid))).runtime;
    let s2 = stepped(s1, EventView::SealKey(Ok(sealing.derived))).runtime;
    let s3 = stepped(s2, EventView::Nonce(Ok(sealing.nonce))).runtime;
    let s4 = stepped(s3, EventView::Frame(sealing.stored)).runtime;
    stepped(s4, EventView::Frame(sealing.listed))
}

/// Whether nothing but the phase and the number of calls has changed.
pub open spec fn calls_later(s: RuntimeView, at: RuntimeView, calls: int) -> bool {
    &&& at.loader_seq == s.loader_seq + calls
    &&& at.last_attested_at == s.last_attested_at
    &&& at.attest_sequence == s.attest_sequence
    &&& at.store == s.store
}

/// A sealing that goes well leaves the store as it is.
proof fn lemma_sealing(
    s: RuntimeView,
    after: AfterPersist<FrameView, Seq<u8>>,
    sealing: Sealing,
)
    requires
        s.phase == (PhaseView::SealId { after }),
        s.loader_seq < u64::MAX - 2,
        sealing.well(s.store, s.loader_seq + 1),
    ensures
        exists|at: RuntimeView|
            {
                &&& after_sealing(s, sealing) == #[trigger] on_persisted(at, after)
                &&& calls_later(s, at, 2)
            },
{
    reveal(after_sealing);
    let s1 = stepped(s, EventView::KeyId(Ok(sealing.keyid))).runtime;
    assert(s1.phase is SealKey);
    let s2 = stepped(s1, EventView::SealKey(Ok(sealing.derived))).runtime;
    assert(s2.phase is SealNonce);
    let s3 = stepped(s2, EventView::Nonce(Ok(sealing.nonce))).runtime;
    assert(s3.phase is Loader);
    let s4 = stepped(s3, EventView::Frame(sealing.stored)).runtime;
    assert(s4.phase is Loader);
    assert(stepped(s4, EventView::Frame(sealing.listed)) == on_persisted(s4, after));
}

/// A rotation makes the new key pair the current one, seals the store that holds it, and attests the
/// new key: first the attestation is sent, then the answer, which carries the same quote. The
/// nonce is the one that was asked with, or else the new version.
#[verifier::rlimit(30)]
pub proof fn law_rotation_attests_the_new_key(
    s: RuntimeView,
    request: FrameView,
    public_key: Seq<u8>,
    private_key: Seq<u8>,
    sealing: Sealing,
    round: Round,
)
    requires
        s.phase == PhaseView::Idle,
        s.loader_seq < u64::MAX - 6,
        s.store.wf(),
        s.store.current_version < u64::MAX,
        request.op == OP_RUNTIME_ROTATE_REQUEST@,
        asked_nonce(request, le((s.store.current_version + 1) as nat, 8)) is Ok,
        hpke_pair(public_key, private_key),
        sealing.well(rotated(s.store, public_key, private_key), s.loader_seq + 1),
        round.well(s.loader_seq + 3),
    ensures
        ({
            let version = (s.store.current_version + 1) as u64;
            let nonce = asked_nonce(request, le(version as nat, 8))->Ok_0;
            let made = attestation_frame(
                round.now,
                version,
                public_key,
                round.quote(),
                nonce,
                report_data_for(version, public_key, nonce),
            );
            let s1 = stepped(s, EventView::Frame(request)).runtime;
            let s2 = stepped(s1, EventView::KeyPair { public_key, private_key }).runtime;
            let s3 = after_sealing(s2, sealing).runtime;
            let last = after_round(s3, round);
            &&& last.frames == seq![made, rotation_frame(request.id, version, public_key, made)]
            &&& last.runtime == RuntimeView {
                loader_seq: (s.loader_seq + 6) as u64,
                last_attested_at: round.now,
                attest_sequence: one_more(s.attest_sequence),
                store: rotated(s.store, public_key, private_key),
                ..s
            }
            &&& last.runtime.store.wf()
        }),
{
    assert(OP_RUNTIME_ROTATE_REQUEST@ != OP_RUNTIME_ATTESTATION_REQUEST@
        && OP_RUNTIME_ROTATE_REQUEST@ != OP_RUNTIME_COMPUTE_REQUEST@) by {
        reveal_strlit("runtime.RotateRequest");
        reveal_strlit("runtime.ComputeRequest");
        reveal_strlit("runtime.AttestationRequest");
        assert(OP_RUNTIME_ROTATE_REQUEST@[8] != OP_RUNTIME_ATTESTATION_REQUEST@[8]);
        assert(OP_RUNTIME_ROTATE_REQUEST@[8] != OP_RUNTIME_COMPUTE_REQUEST@[8]);
    }
    let version = (s.store.current_version + 1) as u64;
    let nonce = asked_nonce(request, le(version as nat, 8))->Ok_0;
    let store = rotated(s.store, public_key, private_key);
    law_rotation_keeps_the_store_well_formed(s.store, public_key, private_key);
    let s1 = stepped(s, EventView::Frame(request)).runtime;
    let s2 = stepped(s1, EventView::KeyPair { public_key, private_key }).runtime;
    let then = AfterPersist::Rotate { request, version, public_key };
    assert(s2.phase == PhaseView::SealId { after: then });
    lemma_sealing(s2, then, sealing);
    let at = choose|at: RuntimeView|
        {
            &&& after_sealing(s2, sealing) == #[trigger] on_persisted(at, then)
            &&& calls_later(s2, at, 2)
        };
    let after = AfterAttest::Rotate { id: request.id, version, public_key };
    assert(on_persisted(at, then) == to_attestation(at, nonce, after));
    lemma_round(at, nonce, after, round);
}

/// A runtime that starts with a sealed store, and gets the key that it was sealed with, has that
/// store again and says so.
pub proof fn law_boot_restores_the_sealed_store(
    found: FrameView,
    blob: Seq<u8>,
    key: Seq<u8>,
    store: StoreView,
    listed: FrameView,
)
    requires
        went_well(found, OP_LOADER_READ_BLOB_RESULT@, 1),
        found.blob matches Some(text) && base64_read(text) == Ok::<Seq<u8>, Seq<char>>(blob),
        unsealed(blob, key) == Ok::<StoreView, Seq<char>>(store),
        went_well(listed, OP_LOADER_WRITE_BLOB_RESULT@, 2),
    ensures
        ({
            let s1 = stepped(started().runtime, EventView::Frame(found)).runtime;
            let s2 = stepped(s1, EventView::UnsealKey(Ok(key))).runtime;
            let last = stepped(s2, EventView::Frame(listed));
            &&& s1.phase == PhaseView::Unseal { blob }
            &&& last.frames == seq![ready_frame(store)]
            &&& last.runtime.store == store
            &&& last.runtime.phase == PhaseView::Idle
        }),
{
}

/// A runtime that starts without a sealed store, or with one that it cannot open, makes one with a
/// first key pair, seals it and says that it is ready with version 1.
pub proof fn law_first_boot_makes_a_store(
    found: FrameView,
    public_key: Seq<u8>,
    private_key: Seq<u8>,
    sealing: Sealing,
)
    requires
        found.op == OP_LOADER_READ_BLOB_RESULT@,
        found.seq == Some(1u64),
        found.ok != Some(true) || found.blob is None,
        hpke_pair(public_key, private_key),
        sealing.well(rotated(empty_store(), public_key, private_key), 2),
    ensures
        ({
            let store = rotated(empty_store(), public_key, private_key);
            let s1 = stepped(started().runtime, EventView::Frame(found)).runtime;
            let s2 = stepped(s1, EventView::KeyPair { public_key, private_key }).runtime;
            let last = after_sealing(s2, sealing);
            &&& last.frames == seq![ready_frame(store)]
            &&& last.runtime.store == store
            &&& last.runtime.phase == PhaseView::Idle
            &&& store.wf()
            &&& store.current_version == 1
        }),
{
    law_rotation_keeps_the_store_well_formed(empty_store(), public_key, private_key);
    let s1 = stepped(started().runtime, EventView::Frame(found)).runtime;
    let s2 = stepped(s1, EventView::KeyPair { public_key, private_key }).runtime;
    lemma_sealing(s2, AfterPersist::Boot, sealing);
}

/// What a runtime has sealed, it has again when it starts anew with that blob and the same seal key,
/// as long as the cipher gives back what it was given.
pub proof fn law_restart_keeps_the_keys(
    store: StoreView,
    sealing: Sealing,
    found: FrameView,
    listed: FrameView,
)
    requires
        store.wf(),
        sealing.keyid.len() == 32,
        sealing.derived.2.len() == 16,
        sealing.nonce.len() == 12,
        aes_sealed(sealing.derived.0, sealing.nonce, store_encoded(store)) matches Some(ct)
            && ct.len() >= 16 && aes_opened(sealing.derived.0, sealing.nonce, ct) == Some(
            store_encoded(store),
        ),
        went_well(found, OP_LOADER_READ_BLOB_RESULT@, 1),
        found.blob matches Some(text) && base64_read(text) == sealed(
            store,
            sealing.key(),
            sealing.nonce,
        ),
        went_well(listed, OP_LOADER_WRITE_BLOB_RESULT@, 2),
    ensures
        ({
            let s1 = stepped(started().runtime, EventView::Frame(found)).runtime;
            let s2 = stepped(s1, EventView::UnsealKey(Ok(sealing.derived.0))).runtime;
            let last = stepped(s2, EventView::Frame(listed));
            &&& needed(s1.phase) == NeedView::UnsealKey {
                request: seal_request_for(sealing.derived.1, sealing.derived.2, sealing.keyid),
            }
            &&& last.frames == seq![ready_frame(store)]
            &&& last.runtime.store == store
            &&& last.runtime.phase == PhaseView::Idle
        }),
{
    law_rotated_stores_can_be_encoded(store);
    law_unseal_gives_back_seal(store, sealing.key(), sealing.nonce);
    let blob = sealed(store, sealing.key(), sealing.nonce)->Ok_0;
    law_boot_restores_the_sealed_store(found, blob, sealing.derived.0, store, listed);
}

/// Whether two states differ in private keys only.
pub open spec fn agree(a: RuntimeView, b: RuntimeView) -> bool {
    &&& a.loader_seq == b.loader_seq
    &&& a.last_attested_at == b.last_attested_at
    &&& a.attest_sequence == b.attest_sequence
    &&& a.phase == b.phase
    &&& same_public(a.store, b.store)
}

/// An event, with another private key in it if it has one.
pub open spec fn with_private_key(event: EventView, private_key: Seq<u8>) -> EventView {
    match event {
        EventView::KeyPair { public_key, .. } => EventView::KeyPair { public_key, private_key },
        _ => event,
    }
}

/// Whether a step answers a request to compute, for which it needs private keys.
pub open spec fn computes(s: RuntimeView, event: EventView) -> bool {
    match (s.phase, event) {
        (Phase::Staleness { .. }, EventView::Clock(now)) => !is_stale(s.last_attested_at, now),
        (
            Phase::Loader {
                seq,
                call: Call::Write(AfterWrite::Refreshed { after: AfterAttest::Compute { .. }, .. }),
            },
            EventView::Frame(f),
        ) => went_well(f, OP_LOADER_WRITE_BLOB_RESULT@, seq as int),
        _ => false,
    }
}

/// Two stores that differ in private keys only still do when both are rotated to one public key.
proof fn lemma_rotated_public(
    a: StoreView,
    b: StoreView,
    public_key: Seq<u8>,
    sk1: Seq<u8>,
    sk2: Seq<u8>,
)
    requires
        same_public(a, b),
    ensures
        same_public(rotated(a, public_key, sk1), rotated(b, public_key, sk2)),
{
    let x = rotated(a, public_key, sk1).keys;
    let y = rotated(b, public_key, sk2).keys;
    assert forall|i: int| 0 <= i < x.len() implies #[trigger] x[i].version == y[i].version
        && x[i].public_key == y[i].public_key by {
        let off = a.keys.len() + 1 - x.len();
        if i + off < a.keys.len() {
            assert(x[i] == a.keys[i + off]);
            assert(y[i] == b.keys[i + off]);
        }
    }
}

/// Private keys stay inside: but for sealing the store and computing, what the runtime sends, and
/// what it does next, is the same for any other private keys.
pub proof fn law_private_keys_stay_inside(
    a: RuntimeView,
    b: RuntimeView,
    event: EventView,
    private_key: Seq<u8>,
)
    requires
        agree(a, b),
        !(a.phase is SealNonce),
        !computes(a, event),
    ensures
        stepped(a, event).frames == stepped(b, with_private_key(event, private_key)).frames,
        agree(
            stepped(a, event).runtime,
            stepped(b, with_private_key(event, private_key)).runtime,
        ),
{
    law_keyring_shows_no_private_key(a.store, b.store);
    if let EventView::KeyPair { public_key, private_key: own } = event {
        lemma_rotated_public(a.store, b.store, public_key, own, private_key);
        lemma_rotated_public(empty_store(), empty_store(), public_key, own, private_key);
    }
}

/// When the store is sealed, private keys show in the blob and nowhere else.
pub proof fn law_sealing_shows_only_the_blob(a: RuntimeView, b: RuntimeView, nonce: Seq<u8>)
    requires
        agree(a, b),
        a.phase matches Phase::SealNonce { after, key } && sealed(a.store, key, nonce) is Ok
            && sealed(b.store, key, nonce) is Ok,
        a.loader_seq < u64::MAX,
    ensures
        ({
            let x = stepped(a, EventView::Nonce(Ok(nonce)));
            let y = stepped(b, EventView::Nonce(Ok(nonce)));
            &&& x.frames.len() == 1 && y.frames.len() == 1
            &&& x.frames[0].path == Some(SEALED_KEYS_NAME@)
            &&& y.frames[0] == FrameView { blob: y.frames[0].blob, ..x.frames[0] }
            &&& agree(x.runtime, y.runtime)
        }),
{
}

} // verus!
