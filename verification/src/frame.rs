//! The messages that client, host, loader and runtime exchange.

use vstd::prelude::*;

use crate::text::starts_with;
use crate::views::optional;

verus! {

pub const PROTOCOL_VERSION: u16 = 1;

// Between loader and runtime.
pub const OP_LOADER_INIT_QUOTE: &'static str = "loader.init_quote";

pub const OP_LOADER_INIT_QUOTE_RESULT: &'static str = "loader.init_quote_result";

pub const OP_LOADER_GET_QUOTE: &'static str = "loader.get_quote";

pub const OP_LOADER_GET_QUOTE_RESULT: &'static str = "loader.get_quote_result";

pub const OP_LOADER_READ_BLOB: &'static str = "loader.read_blob";

pub const OP_LOADER_READ_BLOB_RESULT: &'static str = "loader.read_blob_result";

pub const OP_LOADER_WRITE_BLOB: &'static str = "loader.write_blob";

pub const OP_LOADER_WRITE_BLOB_RESULT: &'static str = "loader.write_blob_result";

// Between host and runtime, passed on by the loader.
pub const OP_RUNTIME_ATTESTATION_REQUEST: &'static str = "runtime.AttestationRequest";

pub const OP_HOST_ATTESTATION_RESPONSE: &'static str = "host.AttestationResponse";

pub const OP_RUNTIME_COMPUTE_REQUEST: &'static str = "runtime.ComputeRequest";

pub const OP_HOST_COMPUTE_RESPONSE: &'static str = "host.ComputeResponse";

// Between client and host.
pub const OP_CLIENT_COMPUTE: &'static str = "compute";

pub const OP_HOST_COMPUTE_RESULT: &'static str = "compute_result";

pub const OP_CLIENT_PUBKEY: &'static str = "pubkey";

pub const OP_HOST_PUBKEY_RESULT: &'static str = "pubkey_result";

pub const OP_CLIENT_ROTATE: &'static str = "rotate";

pub const OP_HOST_ROTATE_RESULT: &'static str = "rotate_result";

pub const OP_CLIENT_CHALLENGE: &'static str = "challenge";

pub const OP_HOST_CHALLENGE_RESULT: &'static str = "challenge_result";

pub const OP_RUNTIME_ROTATE_REQUEST: &'static str = "runtime.RotateRequest";

pub const OP_HOST_ROTATE_RESPONSE: &'static str = "host.RotateResponse";

pub const OP_HOST_READY: &'static str = "host.Ready";

// Names of the blobs that the loader keeps.
pub const SEALED_KEYS_NAME: &'static str = "sealed_keys.bin";

pub const KEYRING_NAME: &'static str = "keyring.json";

pub const ATTESTATION_NAME: &'static str = "attestation.json";

pub const ALG_HPKE_P256: &'static str = "hpke-p256";

// Error codes of a compute response.
pub const ERR_KEY_EXPIRED: &'static str = "key_expired";

pub const ERR_KEY_UNKNOWN: &'static str = "key_unknown";

pub const ERR_DECRYPT_FAILED: &'static str = "decrypt_failed";

pub const ERR_BAD_INPUT: &'static str = "bad_input";

/// How long a challenge nonce should be, in bytes.
pub const CHALLENGE_NONCE_LEN: usize = 32;

/// How long a cached attestation is kept, in seconds. The cache is a convenience: it stands for no
/// fresh nonce.
pub const ATTESTATION_CACHE_TTL_SECS: u64 = 3600;

/// One message. Which of the optional fields are there depends on `op`.
#[derive(Debug)]
pub struct Frame {
    pub v: u16,
    pub op: String,
    /// Pairs an answer with its request.
    pub id: Option<u64>,
    /// Pairs an answer of the loader with its request.
    pub seq: Option<u64>,
    pub ok: Option<bool>,
    pub error: Option<String>,
    pub nonce: Option<String>,
    pub binding_nonce: Option<String>,
    pub target_info: Option<String>,
    pub att_key_id: Option<String>,
    pub report: Option<String>,
    /// The quote, in base64.
    pub quote: Option<String>,
    pub report_data: Option<String>,
    pub attested_at: Option<u64>,
    pub key_version: Option<u64>,
    pub public_key: Option<String>,
    /// The HPKE ciphertext of a computation's inputs, in base64.
    pub ct: Option<String>,
    /// The associated data that the ciphertext is bound to: `{v,id,op,key_version}` in clear.
    pub aad_json: Option<String>,
    /// What went wrong, as one of the `ERR_` codes.
    pub code: Option<String>,
    pub x: Option<i64>,
    pub y: Option<i64>,
    pub status: Option<String>,
    pub result: Option<i64>,
    pub message: Option<String>,
    /// The name of a blob, with no directory.
    pub path: Option<String>,
    /// What a blob holds, in base64.
    pub blob: Option<String>,
}

/// What a [`Frame`] holds.
pub ghost struct FrameView {
    pub v: u16,
    pub op: Seq<char>,
    pub id: Option<u64>,
    pub seq: Option<u64>,
    pub ok: Option<bool>,
    pub error: Option<Seq<char>>,
    pub nonce: Option<Seq<char>>,
    pub binding_nonce: Option<Seq<char>>,
    pub target_info: Option<Seq<char>>,
    pub att_key_id: Option<Seq<char>>,
    pub report: Option<Seq<char>>,
    pub quote: Option<Seq<char>>,
    pub report_data: Option<Seq<char>>,
    pub attested_at: Option<u64>,
    pub key_version: Option<u64>,
    pub public_key: Option<Seq<char>>,
    pub ct: Option<Seq<char>>,
    pub aad_json: Option<Seq<char>>,
    pub code: Option<Seq<char>>,
    pub x: Option<i64>,
    pub y: Option<i64>,
    pub status: Option<Seq<char>>,
    pub result: Option<i64>,
    pub message: Option<Seq<char>>,
    pub path: Option<Seq<char>>,
    pub blob: Option<Seq<char>>,
}

impl View for Frame {
    type V = FrameView;

    open spec fn view(&self) -> FrameView {
        FrameView {
            v: self.v,
            op: self.op@,
            id: self.id,
            seq: self.seq,
            ok: self.ok,
            error: optional(self.error),
            nonce: optional(self.nonce),
            binding_nonce: optional(self.binding_nonce),
            target_info: optional(self.target_info),
            att_key_id: optional(self.att_key_id),
            report: optional(self.report),
            quote: optional(self.quote),
            report_data: optional(self.report_data),
            attested_at: self.attested_at,
            key_version: self.key_version,
            public_key: optional(self.public_key),
            ct: optional(self.ct),
            aad_json: optional(self.aad_json),
            code: optional(self.code),
            x: self.x,
            y: self.y,
            status: optional(self.status),
            result: self.result,
            message: optional(self.message),
            path: optional(self.path),
            blob: optional(self.blob),
        }
    }
}

/// A frame of the protocol's version that holds nothing but its op.
pub open spec fn bare_frame(op: Seq<char>) -> FrameView {
    FrameView {
        v: PROTOCOL_VERSION,
        op,
        id: None,
        seq: None,
        ok: None,
        error: None,
        nonce: None,
        binding_nonce: None,
        target_info: None,
        att_key_id: None,
        report: None,
        quote: None,
        report_data: None,
        attested_at: None,
        key_version: None,
        public_key: None,
        ct: None,
        aad_json: None,
        code: None,
        x: None,
        y: None,
        status: None,
        result: None,
        message: None,
        path: None,
        blob: None,
    }
}

/// Whether an op is the loader's to handle.
pub open spec fn is_loader_name(op: Seq<char>) -> bool {
    "loader."@.is_prefix_of(op)
}

impl Frame {
    /// A frame with this op and nothing else.
    pub fn new(op: &str) -> (out: Frame)
        ensures
            out@ == bare_frame(op@),
    {
        Frame {
            v: PROTOCOL_VERSION,
            op: op.to_owned(),
            id: None,
            seq: None,
            ok: None,
            error: None,
            nonce: None,
            binding_nonce: None,
            target_info: None,
            att_key_id: None,
            report: None,
            quote: None,
            report_data: None,
            attested_at: None,
            key_version: None,
            public_key: None,
            ct: None,
            aad_json: None,
            code: None,
            x: None,
            y: None,
            status: None,
            result: None,
            message: None,
            path: None,
            blob: None,
        }
    }

    /// Whether this is one of the loader's own ops.
    pub fn is_loader_op(&self) -> (yes: bool)
        ensures
            yes == is_loader_name(self@.op),
    {
        starts_with(self.op.as_str(), "loader.")
    }
}

/// A copy of an optional text.
pub fn copy_text(text: &Option<String>) -> (out: Option<String>)
    ensures
        optional(out) == optional(*text),
{
    match text {
        Some(s) => Some(s.clone()),
        None => None,
    }
}

impl Clone for Frame {
    fn clone(&self) -> (out: Frame)
        ensures
            out@ == self@,
    {
        Frame {
            v: self.v,
            op: self.op.clone(),
            id: self.id,
            seq: self.seq,
            ok: self.ok,
            error: copy_text(&self.error),
            nonce: copy_text(&self.nonce),
            binding_nonce: copy_text(&self.binding_nonce),
            target_info: copy_text(&self.target_info),
            att_key_id: copy_text(&self.att_key_id),
            report: copy_text(&self.report),
            quote: copy_text(&self.quote),
            report_data: copy_text(&self.report_data),
            attested_at: self.attested_at,
            key_version: self.key_version,
            public_key: copy_text(&self.public_key),
            ct: copy_text(&self.ct),
            aad_json: copy_text(&self.aad_json),
            code: copy_text(&self.code),
            x: self.x,
            y: self.y,
            status: copy_text(&self.status),
            result: self.result,
            message: copy_text(&self.message),
            path: copy_text(&self.path),
            blob: copy_text(&self.blob),
        }
    }
}

/// A new frame has the protocol's version and the op that it was given, and nothing else.
pub proof fn law_new_frame_holds_its_op_only(op: Seq<char>)
    ensures
        ({
            let f = bare_frame(op);
            &&& f.v == 1
            &&& f.op == op
            &&& f.id is None && f.seq is None && f.ok is None && f.error is None
            &&& f.nonce is None && f.binding_nonce is None && f.target_info is None
            &&& f.att_key_id is None && f.report is None && f.quote is None
            &&& f.report_data is None && f.attested_at is None && f.key_version is None
            &&& f.public_key is None && f.ct is None && f.aad_json is None && f.code is None
            &&& f.x is None && f.y is None && f.status is None && f.result is None
            &&& f.message is None && f.path is None && f.blob is None
        }),
{
}

/// An op is the loader's if and only if it is `loader.` and something behind it, or nothing.
pub proof fn law_loader_ops_start_with_loader(op: Seq<char>)
    ensures
        is_loader_name("loader."@ + op),
        op.len() >= 7 && op.take(7) != "loader."@ ==> !is_loader_name(op),
        op.len() < 7 ==> !is_loader_name(op),
{
    reveal_strlit("loader.");
    assert(("loader."@ + op).take(7) =~= "loader."@);
}

} // verus!
