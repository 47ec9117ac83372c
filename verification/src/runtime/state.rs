//! Where the runtime stands, what it needs, and what it is given.

use vstd::prelude::*;

use crate::frame::{Frame, FrameView};
use crate::key_store::{KeyStore, StoreView};
use crate::sealing::{KeyRequest, KeyRequestView, SealKey, SealKeyView};
use crate::views::outcome;

verus! {

// The states of the machine are written once, for frames `F`, bytes `B`, key ids `I`, seal keys `K`
// and texts `T`: those of the program, and their views.

/// Why the runtime stopped.
pub enum Stop<T> {
    /// Something went wrong, which the text says.
    Error(T),
    /// A counter or the result of a computation does not fit in 64 bits.
    Overflow,
}

/// What follows when the store was sealed and written.
pub enum AfterPersist<F, B> {
    /// The runtime is ready.
    Boot,
    /// The rotation goes on with an attestation of the new key.
    Rotate { request: F, version: u64, public_key: B },
}

/// What follows when an attestation was made.
pub enum AfterAttest<F, B> {
    /// It is the answer to a request.
    Answer { id: Option<u64> },
    /// A computation had waited for it.
    Compute { request: F },
    /// It ends a rotation.
    Rotate { id: Option<u64>, version: u64, public_key: B },
}

/// An attestation in the making: what it vouches for, and what follows.
pub struct Job<F, B> {
    pub nonce: B,
    pub version: u64,
    pub public_key: B,
    pub after: AfterAttest<F, B>,
}

/// What follows when the loader has written a blob.
pub enum AfterWrite<F, B> {
    /// It was the keyring of a store that was unsealed.
    Booted,
    /// It was the sealed store.
    Sealed(AfterPersist<F, B>),
    /// It was the keyring of a store that was sealed.
    Listed(AfterPersist<F, B>),
    /// It was the attestation cache.
    Cached { response: F, after: AfterAttest<F, B> },
    /// It was the keyring, behind the attestation cache.
    Refreshed { response: F, after: AfterAttest<F, B> },
}

/// What the loader was asked for.
pub enum Call<F, B> {
    ReadSealed,
    Write(AfterWrite<F, B>),
    InitQuote(Job<F, B>),
    GetQuote { job: Job<F, B>, report_data: B },
}

/// Where the runtime stands.
pub enum Phase<F, B, I, K, T> {
    /// It waits for the loader's answer to the call with this number.
    Loader { seq: u64, call: Call<F, B> },
    /// It waits for the key of a sealed blob.
    Unseal { blob: B },
    /// It waits for the first key pair of a new store.
    FirstPair,
    /// It waits for the id of a seal key.
    SealId { after: AfterPersist<F, B> },
    /// It waits for the seal key with this id.
    SealKey { after: AfterPersist<F, B>, keyid: I },
    /// It waits for a nonce to seal with.
    SealNonce { after: AfterPersist<F, B>, key: K },
    /// It waits for a request.
    Idle,
    /// It waits for the time, to find out whether its last attestation is too old.
    Staleness { request: F },
    /// It waits for the key pair to rotate to.
    RotatePair { request: F },
    /// It waits for a report about itself.
    Report { job: Job<F, B>, att_key_id: B, target_info: B, report_data: B },
    /// It waits for the time, to date an attestation.
    Date { job: Job<F, B>, report_data: B, quote: B },
    /// It has stopped.
    Stopped(Stop<T>),
}

pub type PhaseView = Phase<FrameView, Seq<u8>, Seq<u8>, SealKeyView, Seq<char>>;

impl View for Stop<String> {
    type V = Stop<Seq<char>>;

    open spec fn view(&self) -> Stop<Seq<char>> {
        match self {
            Stop::Error(e) => Stop::Error(e@),
            Stop::Overflow => Stop::Overflow,
        }
    }
}

impl View for AfterPersist<Frame, Vec<u8>> {
    type V = AfterPersist<FrameView, Seq<u8>>;

    open spec fn view(&self) -> AfterPersist<FrameView, Seq<u8>> {
        match self {
            AfterPersist::Boot => AfterPersist::Boot,
            AfterPersist::Rotate { request, version, public_key } => AfterPersist::Rotate {
                request: request@,
                version: *version,
                public_key: public_key@,
            },
        }
    }
}

impl View for AfterAttest<Frame, Vec<u8>> {
    type V = AfterAttest<FrameView, Seq<u8>>;

    open spec fn view(&self) -> AfterAttest<FrameView, Seq<u8>> {
        match self {
            AfterAttest::Answer { id } => AfterAttest::Answer { id: *id },
            AfterAttest::Compute { request } => AfterAttest::Compute { request: request@ },
            AfterAttest::Rotate { id, version, public_key } => AfterAttest::Rotate {
                id: *id,
                version: *version,
                public_key: public_key@,
            },
        }
    }
}

impl View for Job<Frame, Vec<u8>> {
    type V = Job<FrameView, Seq<u8>>;

    open spec fn view(&self) -> Job<FrameView, Seq<u8>> {
        Job {
            nonce: self.nonce@,
            version: self.version,
            public_key: self.public_key@,
            after: self.after@,
        }
    }
}

impl View for AfterWrite<Frame, Vec<u8>> {
    type V = AfterWrite<FrameView, Seq<u8>>;

    open spec fn view(&self) -> AfterWrite<FrameView, Seq<u8>> {
        match self {
            AfterWrite::Booted => AfterWrite::Booted,
            AfterWrite::Sealed(after) => AfterWrite::Sealed(after@),
            AfterWrite::Listed(after) => AfterWrite::Listed(after@),
            AfterWrite::Cached { response, after } => AfterWrite::Cached {
                response: response@,
                after: after@,
            },
            AfterWrite::Refreshed { response, after } => AfterWrite::Refreshed {
                response: response@,
                after: after@,
            },
        }
    }
}

impl View for Call<Frame, Vec<u8>> {
    type V = Call<FrameView, Seq<u8>>;

    open spec fn view(&self) -> Call<FrameView, Seq<u8>> {
        match self {
            Call::ReadSealed => Call::ReadSealed,
            Call::Write(after) => Call::Write(after@),
            Call::InitQuote(job) => Call::InitQuote(job@),
            Call::GetQuote { job, report_data } => Call::GetQuote {
                job: job@,
                report_data: report_data@,
            },
        }
    }
}

impl View for Phase<Frame, Vec<u8>, [u8; 32], SealKey, String> {
    type V = PhaseView;

    open spec fn view(&self) -> PhaseView {
        match self {
            Phase::Loader { seq, call } => Phase::Loader { seq: *seq, call: call@ },
            Phase::Unseal { blob } => Phase::Unseal { blob: blob@ },
            Phase::FirstPair => Phase::FirstPair,
            Phase::SealId { after } => Phase::SealId { after: after@ },
            Phase::SealKey { after, keyid } => Phase::SealKey { after: after@, keyid: keyid@ },
            Phase::SealNonce { after, key } => Phase::SealNonce { after: after@, key: key@ },
            Phase::Idle => Phase::Idle,
            Phase::Staleness { request } => Phase::Staleness { request: request@ },
            Phase::RotatePair { request } => Phase::RotatePair { request: request@ },
            Phase::Report { job, att_key_id, target_info, report_data } => Phase::Report {
                job: job@,
                att_key_id: att_key_id@,
                target_info: target_info@,
                report_data: report_data@,
            },
            Phase::Date { job, report_data, quote } => Phase::Date {
                job: job@,
                report_data: report_data@,
                quote: quote@,
            },
            Phase::Stopped(why) => Phase::Stopped(why@),
        }
    }
}

/// The runtime.
pub struct Runtime {
    /// The number of the last call of the loader.
    pub loader_seq: u64,
    /// When the last attestation was made, in seconds; 0 if none was.
    pub last_attested_at: u64,
    /// How many attestations were made.
    pub attest_sequence: u64,
    pub store: KeyStore,
    pub phase: Phase<Frame, Vec<u8>, [u8; 32], SealKey, String>,
}

/// What a [`Runtime`] holds.
pub ghost struct RuntimeView {
    pub loader_seq: u64,
    pub last_attested_at: u64,
    pub attest_sequence: u64,
    pub store: StoreView,
    pub phase: PhaseView,
}

impl View for Runtime {
    type V = RuntimeView;

    open spec fn view(&self) -> RuntimeView {
        RuntimeView {
            loader_seq: self.loader_seq,
            last_attested_at: self.last_attested_at,
            attest_sequence: self.attest_sequence,
            store: self.store@,
            phase: self.phase@,
        }
    }
}

/// What a row of frames holds.
pub open spec fn frame_views(frames: Seq<Frame>) -> Seq<FrameView> {
    frames.map_values(|f: Frame| f@)
}

/// The runtime after a step, and the frames that it sends.
pub struct Step {
    pub runtime: Runtime,
    pub frames: Vec<Frame>,
}

/// What a [`Step`] holds.
pub ghost struct StepView {
    pub runtime: RuntimeView,
    pub frames: Seq<FrameView>,
}

impl View for Step {
    type V = StepView;

    open spec fn view(&self) -> StepView {
        StepView { runtime: self.runtime@, frames: frame_views(self.frames@) }
    }
}

/// A key that the processor derived for the enclave as it is, and the security versions that it is
/// for.
pub struct Derived {
    pub key: [u8; 16],
    pub isvsvn: u16,
    pub cpusvn: [u8; 16],
}

impl View for Derived {
    type V = (Seq<u8>, u16, Seq<u8>);

    open spec fn view(&self) -> (Seq<u8>, u16, Seq<u8>) {
        (self.key@, self.isvsvn, self.cpusvn@)
    }
}

/// What the runtime needs before it can go on.
pub enum Need {
    /// The next frame from the loader.
    Frame,
    /// The time, in seconds.
    Clock,
    /// A fresh key pair.
    KeyPair,
    /// A fresh key id.
    KeyId,
    /// A fresh nonce.
    Nonce,
    /// The seal key with this id, for the security versions that the enclave has.
    SealKey { keyid: [u8; 32] },
    /// The seal key that a blob was sealed with.
    UnsealKey { request: KeyRequest },
    /// A report about the enclave to this target, with this report data.
    Report { target_info: Vec<u8>, report_data: Vec<u8> },
    /// Nothing: it has stopped.
    Nothing(Stop<String>),
}

/// What a [`Need`] holds.
pub ghost enum NeedView {
    Frame,
    Clock,
    KeyPair,
    KeyId,
    Nonce,
    SealKey { keyid: Seq<u8> },
    UnsealKey { request: KeyRequestView },
    Report { target_info: Seq<u8>, report_data: Seq<u8> },
    Nothing(Stop<Seq<char>>),
}

impl View for Need {
    type V = NeedView;

    open spec fn view(&self) -> NeedView {
        match self {
            Need::Frame => NeedView::Frame,
            Need::Clock => NeedView::Clock,
            Need::KeyPair => NeedView::KeyPair,
            Need::KeyId => NeedView::KeyId,
            Need::Nonce => NeedView::Nonce,
            Need::SealKey { keyid } => NeedView::SealKey { keyid: keyid@ },
            Need::UnsealKey { request } => NeedView::UnsealKey { request: request@ },
            Need::Report { target_info, report_data } => NeedView::Report {
                target_info: target_info@,
                report_data: report_data@,
            },
            Need::Nothing(why) => NeedView::Nothing(why@),
        }
    }
}

/// What the runtime is given.
pub enum Event {
    Frame(Frame),
    Clock(u64),
    KeyPair { public_key: Vec<u8>, private_key: Vec<u8> },
    KeyId(Result<[u8; 32], String>),
    Nonce(Result<[u8; 12], String>),
    SealKey(Result<Derived, String>),
    UnsealKey(Result<[u8; 16], String>),
    Report(Vec<u8>),
}

/// What an [`Event`] holds.
pub ghost enum EventView {
    Frame(FrameView),
    Clock(u64),
    KeyPair { public_key: Seq<u8>, private_key: Seq<u8> },
    KeyId(Result<Seq<u8>, Seq<char>>),
    Nonce(Result<Seq<u8>, Seq<char>>),
    SealKey(Result<(Seq<u8>, u16, Seq<u8>), Seq<char>>),
    UnsealKey(Result<Seq<u8>, Seq<char>>),
    Report(Seq<u8>),
}

impl View for Event {
    type V = EventView;

    open spec fn view(&self) -> EventView {
        match self {
            Event::Frame(f) => EventView::Frame(f@),
            Event::Clock(t) => EventView::Clock(*t),
            Event::KeyPair { public_key, private_key } => EventView::KeyPair {
                public_key: public_key@,
                private_key: private_key@,
            },
            Event::KeyId(r) => EventView::KeyId(outcome(*r)),
            Event::Nonce(r) => EventView::Nonce(outcome(*r)),
            Event::SealKey(r) => EventView::SealKey(outcome(*r)),
            Event::UnsealKey(r) => EventView::UnsealKey(outcome(*r)),
            Event::Report(r) => EventView::Report(r@),
        }
    }
}

} // verus!
