//! The host between clients and runtime: it passes requests on and keeps the latest attestation.

use vstd::prelude::*;

use crate::frame::{
    bare_frame, copy_text, Frame, FrameView, OP_HOST_ATTESTATION_RESPONSE, OP_HOST_COMPUTE_RESPONSE,
    OP_HOST_READY, OP_HOST_ROTATE_RESPONSE, OP_RUNTIME_ATTESTATION_REQUEST,
    OP_RUNTIME_COMPUTE_REQUEST, OP_RUNTIME_ROTATE_REQUEST,
};
use crate::outside::{b64_encode, base64_read, base64_text, decodes_to};
use crate::text::{
    dec, dec_int, law_integers_are_written_in_decimal, push_u64, same_text, with_text,
};
use crate::views::{optional, outcome};

verus! {

/// The latest attestation that the host has seen. The host checks nothing of it.
pub struct AttestationBundle {
    pub attested_at: u64,
    pub key_version: u64,
    pub public_key: Option<String>,
    pub quote: Option<String>,
    pub binding_nonce: Option<String>,
    pub report_data: Option<String>,
}

/// What an [`AttestationBundle`] holds.
pub ghost struct BundleView {
    pub attested_at: u64,
    pub key_version: u64,
    pub public_key: Option<Seq<char>>,
    pub quote: Option<Seq<char>>,
    pub binding_nonce: Option<Seq<char>>,
    pub report_data: Option<Seq<char>>,
}

impl View for AttestationBundle {
    type V = BundleView;

    open spec fn view(&self) -> BundleView {
        BundleView {
            attested_at: self.attested_at,
            key_version: self.key_version,
            public_key: optional(self.public_key),
            quote: optional(self.quote),
            binding_nonce: optional(self.binding_nonce),
            report_data: optional(self.report_data),
        }
    }
}

/// The attestation that a frame carries.
pub open spec fn bundle_of(f: FrameView) -> BundleView {
    BundleView {
        attested_at: f.attested_at.unwrap_or(0),
        key_version: f.key_version.unwrap_or(0),
        public_key: f.public_key,
        quote: f.quote,
        binding_nonce: f.binding_nonce,
        report_data: f.report_data,
    }
}

/// A number, or zero where there is none.
fn or_zero(n: Option<u64>) -> (out: u64)
    ensures
        out == n.unwrap_or(0),
{
    match n {
        Some(n) => n,
        None => 0,
    }
}

impl AttestationBundle {
    /// The attestation that a frame carries.
    pub fn from_frame(frame: &Frame) -> (out: Self)
        ensures
            out@ == bundle_of(frame@),
    {
        AttestationBundle {
            attested_at: or_zero(frame.attested_at),
            key_version: or_zero(frame.key_version),
            public_key: copy_text(&frame.public_key),
            quote: copy_text(&frame.quote),
            binding_nonce: copy_text(&frame.binding_nonce),
            report_data: copy_text(&frame.report_data),
        }
    }
}

impl Clone for AttestationBundle {
    fn clone(&self) -> (out: AttestationBundle)
        ensures
            out@ == self@,
    {
        AttestationBundle {
            attested_at: self.attested_at,
            key_version: self.key_version,
            public_key: copy_text(&self.public_key),
            quote: copy_text(&self.quote),
            binding_nonce: copy_text(&self.binding_nonce),
            report_data: copy_text(&self.report_data),
        }
    }
}

/// The host's end of its connection to the runtime.
pub struct RuntimeConnection {
    /// The id of the last request.
    pub next_id: u64,
    pub latest_bundle: AttestationBundle,
}

/// What a [`RuntimeConnection`] holds.
pub ghost struct ConnectionView {
    pub next_id: u64,
    pub latest_bundle: BundleView,
}

impl View for RuntimeConnection {
    type V = ConnectionView;

    open spec fn view(&self) -> ConnectionView {
        ConnectionView { next_id: self.next_id, latest_bundle: self.latest_bundle@ }
    }
}

/// What the first frame of a runtime leads to: a connection, if it says that it is ready.
pub open spec fn connected(f: FrameView) -> Result<ConnectionView, Seq<char>> {
    if f.op != OP_HOST_READY@ {
        Err("expected host.Ready, got "@ + f.op)
    } else {
        Ok(ConnectionView { next_id: 0, latest_bundle: bundle_of(f) })
    }
}

/// What comes of a frame while an answer is awaited.
pub enum Reply<T> {
    /// It was not the answer, and the host waits on.
    More,
    /// It was the answer.
    Done(T),
    /// The request has failed.
    Fail(String),
}

/// What a [`Reply`] holds.
pub ghost enum ReplyView<T> {
    More,
    Done(T),
    Fail(Seq<char>),
}

impl<T: View> View for Reply<T> {
    type V = ReplyView<T::V>;

    open spec fn view(&self) -> ReplyView<T::V> {
        match self {
            Reply::More => ReplyView::More,
            Reply::Done(v) => ReplyView::Done(v@),
            Reply::Fail(e) => ReplyView::Fail(e@),
        }
    }
}

/// What a frame says went wrong, behind a few words about what was tried.
pub open spec fn failed_text(what: Seq<char>, f: FrameView) -> Seq<char> {
    what + match f.error {
        Some(e) => e,
        None => Seq::empty(),
    }
}

/// What a frame says went wrong, behind a few words about what was tried.
pub fn failed(what: &str, f: &Frame) -> (out: String)
    ensures
        out@ == failed_text(what@, f@),
{
    match &f.error {
        Some(e) => with_text(what, e.as_str()),
        None => {
            assert(what@ + Seq::<char>::empty() =~= what@);
            what.to_owned()
        },
    }
}

/// An optional number, as a text for programmers.
pub open spec fn debug_text(n: Option<u64>) -> Seq<char> {
    match n {
        Some(n) => "Some("@ + dec(n as nat) + ")"@,
        None => "None"@,
    }
}

/// The next id.
pub open spec fn next(c: ConnectionView) -> u64 {
    (c.next_id + 1) as u64
}

/// A request for an attestation.
pub open spec fn attestation_request(id: u64, nonce: Option<Seq<u8>>) -> FrameView {
    FrameView {
        id: Some(id),
        nonce: match nonce {
            Some(n) => Some(base64_text(n)),
            None => None,
        },
        ..bare_frame(OP_RUNTIME_ATTESTATION_REQUEST@)
    }
}

/// What comes of a frame while an attestation is awaited: it has to be the answer.
pub open spec fn attestation_taken(c: ConnectionView, id: u64, f: FrameView) -> (
    ConnectionView,
    Result<FrameView, Seq<char>>,
) {
    if f.op != OP_HOST_ATTESTATION_RESPONSE@ {
        (c, Err("unexpected op: "@ + f.op))
    } else if f.id != Some(id) {
        (
            c,
            Err(
                "attestation response id mismatch (got "@ + debug_text(f.id) + ", want "@ + dec(
                    id as nat,
                ) + ")"@,
            ),
        )
    } else if f.ok != Some(true) {
        (c, Err(failed_text("attestation failed: "@, f)))
    } else {
        (ConnectionView { latest_bundle: bundle_of(f), ..c }, Ok(f))
    }
}

/// A request to compute on inputs in clear.
pub open spec fn plain_compute_request(id: u64, x: i64, y: i64) -> FrameView {
    FrameView { id: Some(id), x: Some(x), y: Some(y), ..bare_frame(OP_RUNTIME_COMPUTE_REQUEST@) }
}

/// What comes of a frame while a result is awaited: an attestation in between is kept.
pub open spec fn result_taken(c: ConnectionView, id: u64, f: FrameView) -> (
    ConnectionView,
    ReplyView<i64>,
) {
    if f.op == OP_HOST_ATTESTATION_RESPONSE@ {
        (ConnectionView { latest_bundle: bundle_of(f), ..c }, ReplyView::More)
    } else if f.op != OP_HOST_COMPUTE_RESPONSE@ {
        (c, ReplyView::Fail("unexpected op during compute: "@ + f.op))
    } else if f.id != Some(id) {
        (c, ReplyView::Fail("compute response id mismatch"@))
    } else if f.ok != Some(true) {
        (c, ReplyView::Fail(failed_text("compute failed: "@, f)))
    } else {
        match f.result {
            Some(v) => (c, ReplyView::Done(v)),
            None => (c, ReplyView::Fail("missing result"@)),
        }
    }
}

/// A request to compute on inputs that only the runtime can read.
pub open spec fn compute_request(
    id: u64,
    ct: Seq<char>,
    aad_json: Seq<char>,
    key_version: u64,
) -> FrameView {
    FrameView {
        id: Some(id),
        ct: Some(ct),
        aad_json: Some(aad_json),
        key_version: Some(key_version),
        ..bare_frame(OP_RUNTIME_COMPUTE_REQUEST@)
    }
}

/// What comes of a frame while the answer to such a request is awaited: an attestation in between
/// is kept, and the answer gets the client's id.
pub open spec fn answer_taken(c: ConnectionView, id: u64, client_id: u64, f: FrameView) -> (
    ConnectionView,
    ReplyView<FrameView>,
) {
    if f.op == OP_HOST_ATTESTATION_RESPONSE@ {
        (ConnectionView { latest_bundle: bundle_of(f), ..c }, ReplyView::More)
    } else if f.op != OP_HOST_COMPUTE_RESPONSE@ {
        (c, ReplyView::Fail("unexpected op during compute_ct: "@ + f.op))
    } else if f.id != Some(id) {
        (c, ReplyView::Fail("compute_ct response id mismatch"@))
    } else {
        (c, ReplyView::Done(FrameView { id: Some(client_id), ..f }))
    }
}

/// A request to rotate.
pub open spec fn rotate_request(id: u64) -> FrameView {
    FrameView { id: Some(id), ..bare_frame(OP_RUNTIME_ROTATE_REQUEST@) }
}

/// What comes of a frame while a rotation is awaited: an attestation in between is kept, and so is
/// the new key.
pub open spec fn rotation_taken(c: ConnectionView, id: u64, f: FrameView) -> (
    ConnectionView,
    ReplyView<FrameView>,
) {
    if f.op == OP_HOST_ATTESTATION_RESPONSE@ {
        (ConnectionView { latest_bundle: bundle_of(f), ..c }, ReplyView::More)
    } else if f.op != OP_HOST_ROTATE_RESPONSE@ {
        (c, ReplyView::Fail("unexpected op during rotate: "@ + f.op))
    } else if f.id != Some(id) {
        (c, ReplyView::Fail("rotate response id mismatch"@))
    } else if f.ok != Some(true) {
        (c, ReplyView::Fail(failed_text("rotate failed: "@, f)))
    } else if f.quote is Some {
        (ConnectionView { latest_bundle: bundle_of(f), ..c }, ReplyView::Done(f))
    } else {
        let latest_bundle = BundleView {
            key_version: f.key_version.unwrap_or(0),
            public_key: f.public_key,
            ..c.latest_bundle
        };
        (ConnectionView { latest_bundle, ..c }, ReplyView::Done(f))
    }
}

impl RuntimeConnection {
    /// Takes the first frame of a runtime.
    pub fn open(ready: &Frame) -> (out: Result<Self, String>)
        ensures
            outcome(out) == connected(ready@),
    {
        if !same_text(ready.op.as_str(), OP_HOST_READY) {
            return Err(with_text("expected host.Ready, got ", ready.op.as_str()));
        }
        Ok(
            RuntimeConnection {
                next_id: 0,
                latest_bundle: AttestationBundle::from_frame(ready),
            },
        )
    }

    /// The id for the next request.
    pub fn next_id(&mut self) -> (id: u64)
        requires
            old(self).next_id < u64::MAX,
        ensures
            id == old(self)@.next_id + 1,
            final(self)@ == (ConnectionView { next_id: id, ..old(self)@ }),
    {
        self.next_id = self.next_id + 1;
        self.next_id
    }

    /// Asks for an attestation.
    pub fn request_attestation(&mut self, nonce: Option<&[u8]>) -> (out: Frame)
        requires
            old(self).next_id < u64::MAX,
        ensures
            out@ == attestation_request(next(old(self)@), optional(nonce)),
            final(self)@ == (ConnectionView { next_id: next(old(self)@), ..old(self)@ }),
    {
        let id: u64 = self.next_id();
        let mut req = Frame::new(OP_RUNTIME_ATTESTATION_REQUEST);
        req.id = Some(id);
        match nonce {
            Some(n) => {
                req.nonce = Some(b64_encode(n));
            },
            None => {},
        }
        req
    }

    /// Takes the answer to a request for an attestation.
    pub fn take_attestation(&mut self, id: u64, resp: Frame) -> (out: Result<Frame, String>)
        ensures
            (final(self)@, outcome(out)) == attestation_taken(old(self)@, id, resp@),
    {
        if !same_text(resp.op.as_str(), OP_HOST_ATTESTATION_RESPONSE) {
            return Err(with_text("unexpected op: ", resp.op.as_str()));
        }
        if resp.id != Some(id) {
            let mut text = "attestation response id mismatch (got ".to_owned();
            match resp.id {
                Some(n) => {
                    let ghost start = text@;
                    text.append("Some(");
                    push_u64(&mut text, n);
                    text.append(")");
                    assert(text@ =~= start + debug_text(resp.id));
                },
                None => {
                    text.append("None");
                },
            }
            text.append(", want ");
            push_u64(&mut text, id);
            text.append(")");
            return Err(text);
        }
        if resp.ok != Some(true) {
            return Err(failed("attestation failed: ", &resp));
        }
        self.latest_bundle = AttestationBundle::from_frame(&resp);
        Ok(resp)
    }

    /// Asks for a computation on inputs in clear.
    pub fn request_compute(&mut self, x: i64, y: i64) -> (out: Frame)
        requires
            old(self).next_id < u64::MAX,
        ensures
            out@ == plain_compute_request(next(old(self)@), x, y),
            final(self)@ == (ConnectionView { next_id: next(old(self)@), ..old(self)@ }),
    {
        let id: u64 = self.next_id();
        let mut req = Frame::new(OP_RUNTIME_COMPUTE_REQUEST);
        req.id = Some(id);
        req.x = Some(x);
        req.y = Some(y);
        req
    }

    /// Takes a frame while a result is awaited.
    pub fn take_result(&mut self, id: u64, resp: Frame) -> (out: Reply<i64>)
        ensures
            (final(self)@, out@) == result_taken(old(self)@, id, resp@),
    {
        if same_text(resp.op.as_str(), OP_HOST_ATTESTATION_RESPONSE) {
            self.latest_bundle = AttestationBundle::from_frame(&resp);
            return Reply::More;
        }
        if !same_text(resp.op.as_str(), OP_HOST_COMPUTE_RESPONSE) {
            return Reply::Fail(with_text("unexpected op during compute: ", resp.op.as_str()));
        }
        if resp.id != Some(id) {
            return Reply::Fail("compute response id mismatch".to_owned());
        }
        if resp.ok != Some(true) {
            return Reply::Fail(failed("compute failed: ", &resp));
        }
        match resp.result {
            Some(v) => Reply::Done(v),
            None => Reply::Fail("missing result".to_owned()),
        }
    }

    /// Passes on a request to compute on inputs that only the runtime can read.
    pub fn request_compute_ct(&mut self, ct: &str, aad_json: &str, key_version: u64) -> (out: Frame)
        requires
            old(self).next_id < u64::MAX,
        ensures
            out@ == compute_request(next(old(self)@), ct@, aad_json@, key_version),
            final(self)@ == (ConnectionView { next_id: next(old(self)@), ..old(self)@ }),
    {
        let id: u64 = self.next_id();
        let mut req = Frame::new(OP_RUNTIME_COMPUTE_REQUEST);
        req.id = Some(id);
        req.ct = Some(ct.to_owned());
        req.aad_json = Some(aad_json.to_owned());
        req.key_version = Some(key_version);
        req
    }

    /// Takes a frame while the answer to such a request is awaited.
    pub fn take_answer(&mut self, id: u64, client_id: u64, resp: Frame) -> (out: Reply<Frame>)
        ensures
            (final(self)@, out@) == answer_taken(old(self)@, id, client_id, resp@),
    {
        if same_text(resp.op.as_str(), OP_HOST_ATTESTATION_RESPONSE) {
            self.latest_bundle = AttestationBundle::from_frame(&resp);
            return Reply::More;
        }
        if !same_text(resp.op.as_str(), OP_HOST_COMPUTE_RESPONSE) {
            return Reply::Fail(with_text("unexpected op during compute_ct: ", resp.op.as_str()));
        }
        if resp.id != Some(id) {
            return Reply::Fail("compute_ct response id mismatch".to_owned());
        }
        let mut out = resp;
        out.id = Some(client_id);
        Reply::Done(out)
    }

    /// Asks for a rotation.
    pub fn request_rotate(&mut self) -> (out: Frame)
        requires
            old(self).next_id < u64::MAX,
        ensures
            out@ == rotate_request(next(old(self)@)),
            final(self)@ == (ConnectionView { next_id: next(old(self)@), ..old(self)@ }),
    {
        let id: u64 = self.next_id();
        let mut req = Frame::new(OP_RUNTIME_ROTATE_REQUEST);
        req.id = Some(id);
        req
    }

    /// Takes a frame while a rotation is awaited.
    pub fn take_rotation(&mut self, id: u64, resp: Frame) -> (out: Reply<Frame>)
        ensures
            (final(self)@, out@) == rotation_taken(old(self)@, id, resp@),
    {
        if same_text(resp.op.as_str(), OP_HOST_ATTESTATION_RESPONSE) {
            self.latest_bundle = AttestationBundle::from_frame(&resp);
            return Reply::More;
        }
        if !same_text(resp.op.as_str(), OP_HOST_ROTATE_RESPONSE) {
            return Reply::Fail(with_text("unexpected op during rotate: ", resp.op.as_str()));
        }
        if resp.id != Some(id) {
            return Reply::Fail("rotate response id mismatch".to_owned());
        }
        if resp.ok != Some(true) {
            return Reply::Fail(failed("rotate failed: ", &resp));
        }
        if resp.quote.is_some() {
            self.latest_bundle = AttestationBundle::from_frame(&resp);
        } else {
            self.latest_bundle.key_version = or_zero(resp.key_version);
            self.latest_bundle.public_key = copy_text(&resp.public_key);
        }
        Reply::Done(resp)
    }
}

/// The attestation that is kept of a frame has its key, quote, nonce and report data as they are,
/// and its time and version, or zero where it has none.
pub proof fn law_attestation_is_kept_field_by_field(f: FrameView)
    ensures
        ({
            let b = bundle_of(f);
            &&& b.public_key == f.public_key
            &&& b.quote == f.quote
            &&& b.binding_nonce == f.binding_nonce
            &&& b.report_data == f.report_data
            &&& (f.attested_at matches Some(t) ==> b.attested_at == t)
            &&& (f.attested_at is None ==> b.attested_at == 0)
            &&& (f.key_version matches Some(v) ==> b.key_version == v)
            &&& (f.key_version is None ==> b.key_version == 0)
        }),
{
}

/// A connection opens with a ready frame and nothing else, with no request made, and with the key in
/// that frame.
pub proof fn law_connection_opens_when_ready(f: FrameView)
    ensures
        connected(f) is Ok <==> f.op == "host.Ready"@,
        connected(f) matches Ok(c) ==> c.next_id == 0 && c.latest_bundle == bundle_of(f),
        f.op != "host.Ready"@ ==> connected(f) == Err::<ConnectionView, Seq<char>>(
            "expected host.Ready, got "@ + f.op,
        ),
{
}

/// What the host asks of the runtime: an attestation under the nonce that it was given, if any; a
/// computation on inputs in clear; one on a ciphertext, with its associated data and key version as
/// they are; a rotation. Each has its id, and nothing else.
pub proof fn law_host_asks_what_it_was_asked(
    id: u64,
    nonce: Seq<u8>,
    ct: Seq<char>,
    aad: Seq<char>,
    key_version: u64,
    x: i64,
    y: i64,
)
    requires
        decodes_to(base64_text(nonce), nonce),
    ensures
        ({
            let a = attestation_request(id, Some(nonce));
            &&& a.op == "runtime.AttestationRequest"@ && a.id == Some(id)
            &&& a.nonce matches Some(t) && base64_read(t) == Ok::<Seq<u8>, Seq<char>>(nonce)
            &&& (FrameView { id: None, nonce: None, ..a }) == bare_frame(a.op)
        }),
        ({
            let a = attestation_request(id, None);
            &&& a.op == "runtime.AttestationRequest"@ && a.id == Some(id)
            &&& (FrameView { id: None, ..a }) == bare_frame(a.op)
        }),
        ({
            let p = plain_compute_request(id, x, y);
            &&& p.op == "runtime.ComputeRequest"@ && p.id == Some(id)
            &&& p.x == Some(x) && p.y == Some(y)
            &&& (FrameView { id: None, x: None, y: None, ..p }) == bare_frame(p.op)
        }),
        ({
            let c = compute_request(id, ct, aad, key_version);
            &&& c.op == "runtime.ComputeRequest"@ && c.id == Some(id)
            &&& c.ct == Some(ct) && c.aad_json == Some(aad) && c.key_version == Some(key_version)
            &&& (FrameView { id: None, ct: None, aad_json: None, key_version: None, ..c })
                == bare_frame(c.op)
        }),
        ({
            let r = rotate_request(id);
            &&& r.op == "runtime.RotateRequest"@ && r.id == Some(id)
            &&& (FrameView { id: None, ..r }) == bare_frame(r.op)
        }),
{
}

/// An attestation is taken if and only if the frame is an attestation, answers this very request and
/// says that it went well; then it is handed on as it is and kept, and otherwise nothing changes.
pub proof fn law_attestation_is_taken_only_as_answer(c: ConnectionView, id: u64, f: FrameView)
    ensures
        ({
            let (after, out) = attestation_taken(c, id, f);
            &&& after.next_id == c.next_id
            &&& (out is Ok <==> f.op == "host.AttestationResponse"@ && f.id == Some(id) && f.ok
                == Some(true))
            &&& (out matches Ok(g) ==> g == f && after.latest_bundle == bundle_of(f))
            &&& (out is Err ==> after == c)
            &&& (f.op != "host.AttestationResponse"@ ==> out == Err::<FrameView, Seq<char>>(
                "unexpected op: "@ + f.op,
            ))
            &&& (f.op == "host.AttestationResponse"@ && f.id is None ==> out == Err::<
                FrameView,
                Seq<char>,
            >(
                "attestation response id mismatch (got None, want "@ + dec_int(id as int) + ")"@,
            ))
            &&& (f.op == "host.AttestationResponse"@ ==> (f.id matches Some(n) ==> n != id ==> out
                == Err::<FrameView, Seq<char>>(
                "attestation response id mismatch (got Some("@ + dec_int(n as int) + "), want "@
                    + dec_int(id as int) + ")"@,
            )))
            &&& (f.op == "host.AttestationResponse"@ && f.id == Some(id) && f.ok != Some(true) ==> (
            f.error matches Some(e) ==> out == Err::<FrameView, Seq<char>>(
                "attestation failed: "@ + e,
            )))
            &&& (f.op == "host.AttestationResponse"@ && f.id == Some(id) && f.ok != Some(true)
                && f.error is None ==> out == Err::<FrameView, Seq<char>>("attestation failed: "@))
        }),
{
    law_integers_are_written_in_decimal(id as int);
    assert("attestation failed: "@ + Seq::<char>::empty() =~= "attestation failed: "@);
    if let Some(n) = f.id {
        law_integers_are_written_in_decimal(n as int);
        reveal_strlit("attestation response id mismatch (got ");
        reveal_strlit("attestation response id mismatch (got Some(");
        reveal_strlit("Some(");
        reveal_strlit(")");
        reveal_strlit(", want ");
        reveal_strlit("), want ");
        let d = dec(n as nat);
        let e = dec(id as nat);
        assert("attestation response id mismatch (got "@ + ("Some("@ + d + ")"@) + ", want "@ + e
            + ")"@ =~= "attestation response id mismatch (got Some("@ + d + "), want "@ + e + ")"@);
    } else {
        reveal_strlit("attestation response id mismatch (got ");
        reveal_strlit("None");
        reveal_strlit(", want ");
        reveal_strlit("attestation response id mismatch (got None, want ");
        assert("attestation response id mismatch (got "@ + "None"@ + ", want "@
            =~= "attestation response id mismatch (got None, want "@);
    }
}

/// A result is taken if and only if the frame answers this very computation, says that it went well
/// and has a result; then it is that result. An attestation on the way is kept, and the host waits
/// on; anything else fails and changes nothing.
pub proof fn law_result_is_taken_only_as_answer(c: ConnectionView, id: u64, f: FrameView)
    ensures
        ({
            let (after, out) = result_taken(c, id, f);
            &&& after.next_id == c.next_id
            &&& (out is More <==> f.op == "host.AttestationResponse"@)
            &&& (out is More ==> after.latest_bundle == bundle_of(f))
            &&& (!(out is More) ==> after == c)
            &&& (out matches ReplyView::Done(v) ==> f.result == Some(v) && f.id == Some(id) && f.ok
                == Some(true) && f.op == "host.ComputeResponse"@)
            &&& (f.op == "host.ComputeResponse"@ && f.id == Some(id) && f.ok == Some(true) && f.result
                is Some ==> out is Done)
            &&& (f.op == "host.ComputeResponse"@ && f.id != Some(id) ==> out == ReplyView::<
                i64,
            >::Fail("compute response id mismatch"@))
            &&& (f.op == "host.ComputeResponse"@ && f.id == Some(id) && f.ok == Some(true) && f.result
                is None ==> out == ReplyView::<i64>::Fail("missing result"@))
            &&& (f.op == "host.ComputeResponse"@ && f.id == Some(id) && f.ok != Some(true) ==> (
            f.error matches Some(e) ==> out == ReplyView::<i64>::Fail("compute failed: "@ + e)))
            &&& (f.op == "host.ComputeResponse"@ && f.id == Some(id) && f.ok != Some(true) && f.error
                is None ==> out == ReplyView::<i64>::Fail("compute failed: "@))
            &&& (f.op != "host.ComputeResponse"@ && f.op != "host.AttestationResponse"@ ==> out
                == ReplyView::<i64>::Fail("unexpected op during compute: "@ + f.op))
        }),
{
    assert("compute failed: "@ + Seq::<char>::empty() =~= "compute failed: "@);
    lemma_host_ops_differ();
}

/// The answer to a computation on a ciphertext is handed on as it is, but for the client's own id, if
/// and only if it answers this very request. An attestation on the way is kept, and the host waits
/// on; anything else fails and changes nothing.
pub proof fn law_answer_is_handed_on_as_it_is(
    c: ConnectionView,
    id: u64,
    client_id: u64,
    f: FrameView,
)
    ensures
        ({
            let (after, out) = answer_taken(c, id, client_id, f);
            &&& after.next_id == c.next_id
            &&& (out is More <==> f.op == "host.AttestationResponse"@)
            &&& (out is More ==> after.latest_bundle == bundle_of(f))
            &&& (!(out is More) ==> after == c)
            &&& (out is Done <==> f.op == "host.ComputeResponse"@ && f.id == Some(id))
            &&& (out matches ReplyView::Done(g) ==> g.id == Some(client_id) && (FrameView {
                id: f.id,
                ..g
            }) == f)
            &&& (f.op == "host.ComputeResponse"@ && f.id != Some(id) ==> out == ReplyView::<
                FrameView,
            >::Fail("compute_ct response id mismatch"@))
            &&& (f.op != "host.ComputeResponse"@ && f.op != "host.AttestationResponse"@ ==> out
                == ReplyView::<FrameView>::Fail("unexpected op during compute_ct: "@ + f.op))
        }),
{
    lemma_host_ops_differ();
}

/// The answer to a rotation is handed on as it is if and only if it answers this very request and
/// says that it went well. Then the host keeps the new key, with the quote that comes with it, or
/// with the one that it has. An attestation on the way is kept, and the host waits on; anything else
/// fails and changes nothing.
pub proof fn law_rotation_is_taken_only_as_answer(c: ConnectionView, id: u64, f: FrameView)
    ensures
        ({
            let (after, out) = rotation_taken(c, id, f);
            &&& after.next_id == c.next_id
            &&& (out is More <==> f.op == "host.AttestationResponse"@)
            &&& (out is More ==> after.latest_bundle == bundle_of(f))
            &&& (out is Fail ==> after == c)
            &&& (out is Done <==> f.op == "host.RotateResponse"@ && f.id == Some(id) && f.ok == Some(
                true,
            ))
            &&& (out matches ReplyView::Done(g) ==> {
                &&& g == f
                &&& after.latest_bundle.public_key == f.public_key
                &&& (f.key_version matches Some(v) ==> after.latest_bundle.key_version == v)
                &&& (f.key_version is None ==> after.latest_bundle.key_version == 0)
                &&& (f.quote is Some ==> after.latest_bundle == bundle_of(f))
                &&& (f.quote is None ==> after.latest_bundle.quote == c.latest_bundle.quote
                    && after.latest_bundle.report_data == c.latest_bundle.report_data
                    && after.latest_bundle.binding_nonce == c.latest_bundle.binding_nonce
                    && after.latest_bundle.attested_at == c.latest_bundle.attested_at)
            })
            &&& (f.op == "host.RotateResponse"@ && f.id != Some(id) ==> out == ReplyView::<
                FrameView,
            >::Fail("rotate response id mismatch"@))
            &&& (f.op == "host.RotateResponse"@ && f.id == Some(id) && f.ok != Some(true) ==> (
            f.error matches Some(e) ==> out == ReplyView::<FrameView>::Fail(
                "rotate failed: "@ + e,
            )))
            &&& (f.op == "host.RotateResponse"@ && f.id == Some(id) && f.ok != Some(true) && f.error
                is None ==> out == ReplyView::<FrameView>::Fail("rotate failed: "@))
            &&& (f.op != "host.RotateResponse"@ && f.op != "host.AttestationResponse"@ ==> out
                == ReplyView::<FrameView>::Fail("unexpected op during rotate: "@ + f.op))
        }),
{
    assert("rotate failed: "@ + Seq::<char>::empty() =~= "rotate failed: "@);
    lemma_host_ops_differ();
}

/// The ops of the runtime's answers differ.
pub proof fn lemma_host_ops_differ()
    ensures
        OP_HOST_ATTESTATION_RESPONSE@ != OP_HOST_COMPUTE_RESPONSE@,
        OP_HOST_ATTESTATION_RESPONSE@ != OP_HOST_ROTATE_RESPONSE@,
        OP_HOST_COMPUTE_RESPONSE@ != OP_HOST_ROTATE_RESPONSE@,
{
    reveal_strlit("host.AttestationResponse");
    reveal_strlit("host.ComputeResponse");
    reveal_strlit("host.RotateResponse");
    assert(OP_HOST_ATTESTATION_RESPONSE@[5] == 'A');
    assert(OP_HOST_COMPUTE_RESPONSE@[5] == 'C');
    assert(OP_HOST_ROTATE_RESPONSE@[5] == 'R');
}

} // verus!
