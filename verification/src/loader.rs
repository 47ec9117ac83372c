//! The loader between enclave and host: it serves the `loader.` ops itself and passes everything
//! else on.

use vstd::prelude::*;

use crate::bytes::{copy, part};
use crate::frame::{
    bare_frame, copy_text, is_loader_name, Frame, FrameView, OP_LOADER_GET_QUOTE,
    OP_LOADER_GET_QUOTE_RESULT, OP_LOADER_INIT_QUOTE, OP_LOADER_INIT_QUOTE_RESULT,
    OP_LOADER_READ_BLOB, OP_LOADER_READ_BLOB_RESULT, OP_LOADER_WRITE_BLOB,
    OP_LOADER_WRITE_BLOB_RESULT,
};
use crate::hex::{self, hex_read, hex_text, law_hex_read_back};
use crate::outside::{
    b64_decode, b64_encode, base64_read, base64_text, decodes_to, lowercase_text, to_lowercase,
};
use crate::text::{chars_of, same_text, with_text};
use crate::views::{optional, outcome};

verus! {

/// Where a frame from the enclave goes.
#[derive(Clone, Copy, Debug, PartialEq, Eq, Structural)]
pub enum Route {
    /// The loader serves it.
    Loader,
    /// It is passed on to the host as it is.
    Host,
}

/// Where a frame from the enclave goes: the `loader.` ops stay, all else is passed on.
pub open spec fn routed(op: Seq<char>) -> Route {
    if is_loader_name(op) {
        Route::Loader
    } else {
        Route::Host
    }
}

/// Where a frame from the enclave goes.
pub fn route(frame: &Frame) -> (out: Route)
    ensures
        out == routed(frame@.op),
{
    if frame.is_loader_op() {
        Route::Loader
    } else {
        Route::Host
    }
}

/// Whether a character may stand in the name of a blob.
pub open spec fn name_char(c: char) -> bool {
    ||| 'a' <= c <= 'z'
    ||| 'A' <= c <= 'Z'
    ||| '0' <= c <= '9'
    ||| c == '.'
    ||| c == '_'
    ||| c == '-'
}

/// Whether a name names a blob: one or more of the characters that may stand in it, no two dots in
/// a row. Such a name has no separator and leads out of no directory.
pub open spec fn safe_name(s: Seq<char>) -> bool {
    &&& s.len() > 0
    &&& forall|i: int| 0 <= i < s.len() ==> name_char(#[trigger] s[i])
    &&& forall|i: int| 0 <= i < s.len() - 1 && #[trigger] s[i] == '.' ==> s[i + 1] != '.'
}

/// The name, if it names a blob.
pub fn safe_blob_name<'a>(name: &'a str) -> (out: Option<&'a str>)
    ensures
        out == if safe_name(name@) {
            Some(name)
        } else {
            None
        },
{
    let s = chars_of(name);
    if s.len() == 0 {
        return None;
    }
    let mut i: usize = 0;
    while i < s.len()
        invariant
            i <= s@.len(),
            s@ == name@,
            forall|j: int| 0 <= j < i ==> name_char(#[trigger] s@[j]),
            forall|j: int| 0 <= j < i - 1 && #[trigger] s@[j] == '.' ==> s@[j + 1] != '.',
        decreases s@.len() - i,
    {
        let c = s[i];
        assert(name@[i as int] == c);
        if !(('a' <= c && c <= 'z') || ('A' <= c && c <= 'Z') || ('0' <= c && c <= '9') || c == '.'
            || c == '_' || c == '-') {
            assert(!name_char(name@[i as int]));
            return None;
        }
        if i > 0 && c == '.' && s[i - 1] == '.' {
            assert(name@[i - 1] == '.' && name@[i - 1 + 1] == '.');
            return None;
        }
        i = i + 1;
    }
    Some(name)
}

/// What the loader does about a request.
pub enum LoaderStep {
    /// It answers.
    Reply(Frame),
    /// It reads the blob of this name, and answers with [`read_blob_reply`].
    ReadBlob { name: String },
    /// It writes the blob of this name, and answers with [`write_blob_reply`].
    WriteBlob { name: String, data: Vec<u8> },
    /// It asks for an attestation key and the quoting enclave, and answers with
    /// [`init_quote_reply`].
    InitQuote,
    /// It asks for a quote, and answers with [`get_quote_reply`].
    GetQuote { att_key_id: Vec<u8>, report: Vec<u8> },
}

/// What a [`LoaderStep`] holds.
pub ghost enum LoaderStepView {
    Reply(FrameView),
    ReadBlob { name: Seq<char> },
    WriteBlob { name: Seq<char>, data: Seq<u8> },
    InitQuote,
    GetQuote { att_key_id: Seq<u8>, report: Seq<u8> },
}

impl View for LoaderStep {
    type V = LoaderStepView;

    open spec fn view(&self) -> LoaderStepView {
        match self {
            LoaderStep::Reply(f) => LoaderStepView::Reply(f@),
            LoaderStep::ReadBlob { name } => LoaderStepView::ReadBlob { name: name@ },
            LoaderStep::WriteBlob { name, data } => LoaderStepView::WriteBlob {
                name: name@,
                data: data@,
            },
            LoaderStep::InitQuote => LoaderStepView::InitQuote,
            LoaderStep::GetQuote { att_key_id, report } => LoaderStepView::GetQuote {
                att_key_id: att_key_id@,
                report: report@,
            },
        }
    }
}

/// A result that says what went wrong.
pub open spec fn failure(op: Seq<char>, seq: Option<u64>, error: Seq<char>) -> FrameView {
    FrameView { seq, ok: Some(false), error: Some(error), ..bare_frame(op) }
}

/// A result that says that all went well, and nothing more.
pub open spec fn success(op: Seq<char>, seq: Option<u64>) -> FrameView {
    FrameView { seq, ok: Some(true), ..bare_frame(op) }
}

/// A result that says what went wrong.
fn fail(op: &str, seq: Option<u64>, error: String) -> (out: Frame)
    ensures
        out@ == failure(op@, seq, error@),
{
    let mut out = Frame::new(op);
    out.seq = seq;
    out.ok = Some(false);
    out.error = Some(error);
    out
}

/// A result that says that all went well, and nothing more.
fn succeed(op: &str, seq: Option<u64>) -> (out: Frame)
    ensures
        out@ == success(op@, seq),
{
    let mut out = Frame::new(op);
    out.seq = seq;
    out.ok = Some(true);
    out
}

/// What a field in base64 holds, if it is there.
pub open spec fn field_bytes(field: Option<Seq<char>>, missing: Seq<char>) -> Result<
    Seq<u8>,
    Seq<char>,
> {
    match field {
        Some(text) => base64_read(text),
        None => Err(missing),
    }
}

/// What a field in base64 holds, if it is there.
fn bytes_in(field: &Option<String>, missing: &str) -> (out: Result<Vec<u8>, String>)
    ensures
        outcome(out) == field_bytes(optional(*field), missing@),
{
    match field {
        Some(text) => b64_decode(text.as_str()),
        None => Err(missing.to_owned()),
    }
}

/// What the loader does about a request for a blob.
pub open spec fn blob_step(frame: FrameView) -> LoaderStepView {
    let read = frame.op == OP_LOADER_READ_BLOB@;
    let result_op = if read {
        OP_LOADER_READ_BLOB_RESULT@
    } else {
        OP_LOADER_WRITE_BLOB_RESULT@
    };
    match frame.path {
        Some(name) if safe_name(name) => if read {
            LoaderStepView::ReadBlob { name }
        } else {
            match field_bytes(frame.blob, "missing blob"@) {
                Ok(data) => LoaderStepView::WriteBlob { name, data },
                Err(e) => LoaderStepView::Reply(failure(result_op, frame.seq, e)),
            }
        },
        _ => LoaderStepView::Reply(failure(result_op, frame.seq, "invalid blob path"@)),
    }
}

/// What the loader does about a request.
pub open spec fn loader_step(frame: FrameView) -> LoaderStepView {
    if frame.op == OP_LOADER_READ_BLOB@ || frame.op == OP_LOADER_WRITE_BLOB@ {
        blob_step(frame)
    } else if frame.op == OP_LOADER_INIT_QUOTE@ {
        LoaderStepView::InitQuote
    } else if frame.op == OP_LOADER_GET_QUOTE@ {
        match (
            field_bytes(frame.report, "missing report"@),
            field_bytes(frame.att_key_id, "missing att_key_id"@),
        ) {
            (Err(e), _) => LoaderStepView::Reply(
                failure(OP_LOADER_GET_QUOTE_RESULT@, frame.seq, e),
            ),
            (Ok(_), Err(e)) => LoaderStepView::Reply(
                failure(OP_LOADER_GET_QUOTE_RESULT@, frame.seq, e),
            ),
            (Ok(report), Ok(att_key_id)) => LoaderStepView::GetQuote { att_key_id, report },
        }
    } else {
        LoaderStepView::Reply(
            failure(
                frame.op + "_result"@,
                frame.seq,
                "unsupported loader op: "@ + frame.op,
            ),
        )
    }
}

/// Decides about a request for a blob.
pub fn handle_blob_op(frame: &Frame) -> (out: LoaderStep)
    requires
        frame@.op == OP_LOADER_READ_BLOB@ || frame@.op == OP_LOADER_WRITE_BLOB@,
    ensures
        out@ == blob_step(frame@),
{
    let read = same_text(frame.op.as_str(), OP_LOADER_READ_BLOB);
    let result_op = if read {
        OP_LOADER_READ_BLOB_RESULT
    } else {
        OP_LOADER_WRITE_BLOB_RESULT
    };
    let safe = match &frame.path {
        Some(path) => safe_blob_name(path.as_str()),
        None => None,
    };
    let name = match safe {
        Some(name) => name.to_owned(),
        None => return LoaderStep::Reply(
            fail(result_op, frame.seq, "invalid blob path".to_owned()),
        ),
    };
    if read {
        return LoaderStep::ReadBlob { name };
    }
    match bytes_in(&frame.blob, "missing blob") {
        Ok(data) => LoaderStep::WriteBlob { name, data },
        Err(e) => LoaderStep::Reply(fail(OP_LOADER_WRITE_BLOB_RESULT, frame.seq, e)),
    }
}

/// Decides about a request to the loader.
pub fn handle_loader_op(frame: &Frame) -> (out: LoaderStep)
    ensures
        out@ == loader_step(frame@),
{
    let op = frame.op.as_str();
    if same_text(op, OP_LOADER_READ_BLOB) || same_text(op, OP_LOADER_WRITE_BLOB) {
        return handle_blob_op(frame);
    }
    if same_text(op, OP_LOADER_INIT_QUOTE) {
        return LoaderStep::InitQuote;
    }
    if same_text(op, OP_LOADER_GET_QUOTE) {
        let report = match bytes_in(&frame.report, "missing report") {
            Ok(report) => report,
            Err(e) => return LoaderStep::Reply(fail(OP_LOADER_GET_QUOTE_RESULT, frame.seq, e)),
        };
        return match bytes_in(&frame.att_key_id, "missing att_key_id") {
            Ok(att_key_id) => LoaderStep::GetQuote { att_key_id, report },
            Err(e) => LoaderStep::Reply(fail(OP_LOADER_GET_QUOTE_RESULT, frame.seq, e)),
        };
    }
    LoaderStep::Reply(
        fail(with_text(op, "_result").as_str(), frame.seq, with_text("unsupported loader op: ", op)),
    )
}

/// The two sides that the loader stands between.
#[derive(Clone, Copy, Debug, PartialEq, Eq, Structural)]
pub enum Leg {
    Enclave,
    Host,
}

/// What the loader does with a frame.
pub enum Relay {
    /// It does this, and answers the enclave.
    Serve(LoaderStep),
    /// It passes the frame on to the host.
    ToHost(Frame),
    /// It passes the frame on to the enclave.
    ToEnclave(Frame),
}

/// What a [`Relay`] holds.
pub ghost enum RelayView {
    Serve(LoaderStepView),
    ToHost(FrameView),
    ToEnclave(FrameView),
}

impl View for Relay {
    type V = RelayView;

    open spec fn view(&self) -> RelayView {
        match self {
            Relay::Serve(step) => RelayView::Serve(step@),
            Relay::ToHost(f) => RelayView::ToHost(f@),
            Relay::ToEnclave(f) => RelayView::ToEnclave(f@),
        }
    }
}

/// What the loader does with a frame from one of its sides.
pub open spec fn relayed(from: Leg, frame: FrameView) -> RelayView {
    match (from, routed(frame.op)) {
        (Leg::Enclave, Route::Loader) => RelayView::Serve(loader_step(frame)),
        (Leg::Enclave, Route::Host) => RelayView::ToHost(frame),
        (Leg::Host, _) => RelayView::ToEnclave(frame),
    }
}

/// Decides what to do with a frame from one of the loader's sides.
pub fn relay(from: Leg, frame: Frame) -> (out: Relay)
    ensures
        out@ == relayed(from, frame@),
{
    match from {
        Leg::Enclave => match route(&frame) {
            Route::Loader => Relay::Serve(handle_loader_op(&frame)),
            Route::Host => Relay::ToHost(frame),
        },
        Leg::Host => Relay::ToEnclave(frame),
    }
}

/// The answer to a request for a blob, which may not be there.
pub open spec fn blob_read(seq: Option<u64>, blob: Option<Seq<u8>>) -> FrameView {
    match blob {
        Some(bytes) => FrameView {
            blob: Some(base64_text(bytes)),
            ..success(OP_LOADER_READ_BLOB_RESULT@, seq)
        },
        None => failure(OP_LOADER_READ_BLOB_RESULT@, seq, "not found"@),
    }
}

/// Answers a request for a blob, which may not be there.
pub fn read_blob_reply(seq: Option<u64>, blob: Option<&[u8]>) -> (out: Frame)
    ensures
        out@ == blob_read(seq, optional(blob)),
{
    match blob {
        Some(bytes) => {
            let mut out = succeed(OP_LOADER_READ_BLOB_RESULT, seq);
            out.blob = Some(b64_encode(bytes));
            out
        },
        None => fail(OP_LOADER_READ_BLOB_RESULT, seq, "not found".to_owned()),
    }
}

/// The answer to a request to write a blob.
pub open spec fn blob_written(seq: Option<u64>, written: Result<(), Seq<char>>) -> FrameView {
    match written {
        Ok(_) => success(OP_LOADER_WRITE_BLOB_RESULT@, seq),
        Err(e) => failure(OP_LOADER_WRITE_BLOB_RESULT@, seq, e),
    }
}

/// Answers a request to write a blob.
pub fn write_blob_reply(seq: Option<u64>, written: Result<(), String>) -> (out: Frame)
    ensures
        out@ == blob_written(seq, outcome(written)),
{
    match written {
        Ok(_) => succeed(OP_LOADER_WRITE_BLOB_RESULT, seq),
        Err(e) => fail(OP_LOADER_WRITE_BLOB_RESULT, seq, e),
    }
}

/// The answer to a request for an attestation key and the quoting enclave.
pub open spec fn quote_started(
    seq: Option<u64>,
    started: Result<(Seq<u8>, Seq<u8>), Seq<char>>,
) -> FrameView {
    match started {
        Ok((att_key_id, target_info)) => FrameView {
            att_key_id: Some(base64_text(att_key_id)),
            target_info: Some(base64_text(target_info)),
            ..success(OP_LOADER_INIT_QUOTE_RESULT@, seq)
        },
        Err(e) => failure(OP_LOADER_INIT_QUOTE_RESULT@, seq, e),
    }
}

/// Answers a request for an attestation key and the quoting enclave, with the key's id and the
/// enclave's target information.
pub fn init_quote_reply(seq: Option<u64>, started: Result<(Vec<u8>, Vec<u8>), String>) -> (out: Frame)
    ensures
        out@ == quote_started(seq, outcome(started)),
{
    match started {
        Ok((att_key_id, target_info)) => {
            let mut out = succeed(OP_LOADER_INIT_QUOTE_RESULT, seq);
            out.att_key_id = Some(b64_encode(att_key_id.as_slice()));
            out.target_info = Some(b64_encode(target_info.as_slice()));
            out
        },
        Err(e) => fail(OP_LOADER_INIT_QUOTE_RESULT, seq, e),
    }
}

/// The answer to a request for a quote.
pub open spec fn quote_got(seq: Option<u64>, quote: Result<Seq<u8>, Seq<char>>) -> FrameView {
    match quote {
        Ok(quote) => FrameView {
            quote: Some(base64_text(quote)),
            ..success(OP_LOADER_GET_QUOTE_RESULT@, seq)
        },
        Err(e) => failure(OP_LOADER_GET_QUOTE_RESULT@, seq, e),
    }
}

/// Answers a request for a quote.
pub fn get_quote_reply(seq: Option<u64>, quote: Result<Vec<u8>, String>) -> (out: Frame)
    ensures
        out@ == quote_got(seq, outcome(quote)),
{
    match quote {
        Ok(quote) => {
            let mut out = succeed(OP_LOADER_GET_QUOTE_RESULT, seq);
            out.quote = Some(b64_encode(quote.as_slice()));
            out
        },
        Err(e) => fail(OP_LOADER_GET_QUOTE_RESULT, seq, e),
    }
}

/// What choosing among the attestation keys that the platform offers gives: the first.
pub open spec fn first_key(ids: Seq<Vec<u8>>) -> Result<Seq<u8>, Seq<char>> {
    if ids.len() == 0 {
        Err("no att_key_id from aesmd"@)
    } else {
        Ok(ids[0]@)
    }
}

/// Chooses among the attestation keys that the platform offers.
pub fn choose_att_key(ids: &Vec<Vec<u8>>) -> (out: Result<Vec<u8>, String>)
    ensures
        outcome(out) == first_key(ids@),
{
    if ids.len() == 0 {
        return Err("no att_key_id from aesmd".to_owned());
    }
    Ok(copy(ids[0].as_slice()))
}

/// How much of a SIGSTRUCT file is read, in bytes.
pub const SIGSTRUCT_LEN: usize = 992;

/// What checking the measurement in a SIGSTRUCT gives: the measurement in hexadecimal, or what is
/// wrong.
pub open spec fn sigstruct_checked(sigstruct: Seq<u8>, expected_hex: Seq<char>) -> Result<
    Seq<char>,
    Seq<char>,
> {
    let actual = hex_text(sigstruct.subrange(960, 992));
    if sigstruct.len() < SIGSTRUCT_LEN {
        Err("读取 SIGSTRUCT 失败（文件太短？）: failed to fill whole buffer"@)
    } else if actual != lowercase_text(expected_hex) {
        Err(
            "MRENCLAVE 不匹配！\n  期望: "@ + expected_hex + "\n  实际: "@ + actual
                + "\n可能 sgxs 已被替换，拒绝加载。"@,
        )
    } else {
        Ok(actual)
    }
}

/// Holds the measurement in a SIGSTRUCT, 32 bytes from 960 on, to the expected one.
pub fn verify_mrenclave(sigstruct: &[u8], expected_hex: &str) -> (out: Result<String, String>)
    ensures
        outcome(out) == sigstruct_checked(sigstruct@, expected_hex@),
{
    if sigstruct.len() < SIGSTRUCT_LEN {
        return Err("读取 SIGSTRUCT 失败（文件太短？）: failed to fill whole buffer".to_owned());
    }
    let actual = hex::encode(part(sigstruct, 960, 992).as_slice());
    let wanted = to_lowercase(expected_hex);
    if !same_text(actual.as_str(), wanted.as_str()) {
        let mut text = with_text("MRENCLAVE 不匹配！\n  期望: ", expected_hex);
        text.append("\n  实际: ");
        text.append(actual.as_str());
        text.append("\n可能 sgxs 已被替换，拒绝加载。");
        return Err(text);
    }
    Ok(actual)
}

/// Which signature an enclave is loaded with.
pub struct Signing {
    /// The signature file; none for a development run, which signs with a dummy key.
    pub sig: Option<String>,
    /// The measurement that the signature must be for.
    pub expected_mrenclave: Option<String>,
    /// Whether arguments were given that have no effect.
    pub ignored: bool,
}

/// Decides which signature an enclave is loaded with: a production run takes the one that it is
/// given, or else the default one; a development run takes none, whatever it is given.
pub fn signing(
    production: bool,
    sig: &Option<String>,
    expected_mrenclave: &Option<String>,
    default_sig: &str,
) -> (out: Signing)
    ensures
        production ==> {
            &&& optional(out.sig) == Some(
                match *sig {
                    Some(s) => s@,
                    None => default_sig@,
                },
            )
            &&& optional(out.expected_mrenclave) == optional(*expected_mrenclave)
            &&& !out.ignored
        },
        !production ==> {
            &&& out.sig is None
            &&& out.expected_mrenclave is None
            &&& out.ignored == (sig is Some || expected_mrenclave is Some)
        },
{
    if production {
        let sig = match sig {
            Some(s) => s.clone(),
            None => default_sig.to_owned(),
        };
        Signing {
            sig: Some(sig),
            expected_mrenclave: copy_text(expected_mrenclave),
            ignored: false,
        }
    } else {
        Signing {
            sig: None,
            expected_mrenclave: None,
            ignored: sig.is_some() || expected_mrenclave.is_some(),
        }
    }
}

/// Of the frames from the enclave the loader keeps those with an op of its own, and no other: they
/// never reach the host, and everything else does, as it came. What comes from the host goes to the
/// enclave as it came, whatever its op.
pub proof fn law_only_loader_ops_stay(frame: FrameView)
    ensures
        is_loader_name(frame.op) <==> routed(frame.op) == Route::Loader,
        is_loader_name(frame.op) ==> relayed(Leg::Enclave, frame) == RelayView::Serve(
            loader_step(frame),
        ),
        !is_loader_name(frame.op) ==> relayed(Leg::Enclave, frame) == RelayView::ToHost(frame),
        relayed(Leg::Host, frame) == RelayView::ToEnclave(frame),
{
}

/// A blob name does not lead out of the directory that blobs are kept in: it has no separator, and
/// it is not the name of the directory above.
pub proof fn law_safe_name_stays_in_place(name: Seq<char>)
    requires
        safe_name(name),
    ensures
        !name.contains('/'),
        !name.contains('\\'),
        name != ".."@,
        name.len() > 0,
{
    reveal_strlit("..");
    if name == ".."@ {
        assert(name[0] == '.' && name[1] == '.');
    }
    if name.contains('/') {
        let i = choose|i: int| 0 <= i < name.len() && name[i] == '/';
        assert(name_char(name[i]));
    }
    if name.contains('\\') {
        let i = choose|i: int| 0 <= i < name.len() && name[i] == '\\';
        assert(name_char(name[i]));
    }
}

/// What is written under a name and then read under it comes back as it was, as long as base64 reads
/// back what it writes.
pub proof fn law_blob_is_read_as_written(write: FrameView, read: FrameView, data: Seq<u8>)
    requires
        write.op == OP_LOADER_WRITE_BLOB@,
        read.op == OP_LOADER_READ_BLOB@,
        write.path == read.path,
        write.path matches Some(name) && safe_name(name),
        write.blob == Some(base64_text(data)),
        decodes_to(base64_text(data), data),
    ensures
        loader_step(write) == (LoaderStepView::WriteBlob { name: write.path->0, data }),
        loader_step(read) == (LoaderStepView::ReadBlob { name: write.path->0 }),
        blob_read(read.seq, Some(data)).blob == write.blob,
{
    lemma_request_ops();
}

/// The ops of the loader's requests: each differs from the others and stays with the loader.
pub proof fn lemma_request_ops()
    ensures
        OP_LOADER_READ_BLOB@ != OP_LOADER_WRITE_BLOB@,
        OP_LOADER_READ_BLOB@ != OP_LOADER_INIT_QUOTE@,
        OP_LOADER_READ_BLOB@ != OP_LOADER_GET_QUOTE@,
        OP_LOADER_WRITE_BLOB@ != OP_LOADER_INIT_QUOTE@,
        OP_LOADER_WRITE_BLOB@ != OP_LOADER_GET_QUOTE@,
        OP_LOADER_INIT_QUOTE@ != OP_LOADER_GET_QUOTE@,
        routed(OP_LOADER_READ_BLOB@) == Route::Loader,
        routed(OP_LOADER_WRITE_BLOB@) == Route::Loader,
        routed(OP_LOADER_INIT_QUOTE@) == Route::Loader,
        routed(OP_LOADER_GET_QUOTE@) == Route::Loader,
{
    reveal_strlit("loader.");
    reveal_strlit("loader.read_blob");
    reveal_strlit("loader.write_blob");
    reveal_strlit("loader.init_quote");
    reveal_strlit("loader.get_quote");
    let read = OP_LOADER_READ_BLOB@;
    let write = OP_LOADER_WRITE_BLOB@;
    let init = OP_LOADER_INIT_QUOTE@;
    let get = OP_LOADER_GET_QUOTE@;
    assert(read[7] == 'r' && write[7] == 'w' && init[7] == 'i' && get[7] == 'g');
    assert(read.take(7) =~= "loader."@);
    assert(write.take(7) =~= "loader."@);
    assert(init.take(7) =~= "loader."@);
    assert(get.take(7) =~= "loader."@);
}

/// A SIGSTRUCT passes if and only if it has at least 992 bytes and the expected text, in lower case,
/// is the hexadecimal of its measurement, the bytes from 960 up to 992. What comes out then reads
/// back to the measurement.
pub proof fn law_sigstruct_is_held_to_its_measurement(sigstruct: Seq<u8>, expected_hex: Seq<char>)
    ensures
        sigstruct_checked(sigstruct, expected_hex) is Ok <==> sigstruct.len() >= 992
            && lowercase_text(expected_hex) == hex_text(sigstruct.subrange(960, 992)),
        sigstruct_checked(sigstruct, expected_hex) matches Ok(t) ==> t == lowercase_text(expected_hex)
            && hex_read(t) == Ok::<Seq<u8>, Seq<char>>(sigstruct.subrange(960, 992)),
        sigstruct.len() < 992 ==> sigstruct_checked(sigstruct, expected_hex) == Err::<
            Seq<char>,
            Seq<char>,
        >("读取 SIGSTRUCT 失败（文件太短？）: failed to fill whole buffer"@),
        sigstruct.len() >= 992 && lowercase_text(expected_hex) != hex_text(
            sigstruct.subrange(960, 992),
        ) ==> sigstruct_checked(sigstruct, expected_hex) == Err::<Seq<char>, Seq<char>>(
            "MRENCLAVE 不匹配！\n  期望: "@ + expected_hex + "\n  实际: "@ + hex_text(
                sigstruct.subrange(960, 992),
            ) + "\n可能 sgxs 已被替换，拒绝加载。"@,
        ),
{
    law_hex_read_back(sigstruct.subrange(960, 992));
}

/// Two SIGSTRUCTs that pass for one expected text are of the same enclave.
pub proof fn law_swapped_enclave_is_not_loaded(
    sigstruct: Seq<u8>,
    other: Seq<u8>,
    expected_hex: Seq<char>,
)
    requires
        sigstruct_checked(sigstruct, expected_hex) is Ok,
        sigstruct_checked(other, expected_hex) is Ok,
    ensures
        sigstruct.subrange(960, 992) == other.subrange(960, 992),
{
    law_hex_read_back(sigstruct.subrange(960, 992));
    law_hex_read_back(other.subrange(960, 992));
}

/// What the loader answers has the number of the request, says whether it went well, and holds what
/// was asked for in its own field and nothing else: the bytes of a blob, the id of a key and a
/// target, a quote, or what went wrong.
pub proof fn law_answers_hold_what_was_asked_for(
    seq: Option<u64>,
    a: Seq<u8>,
    b: Seq<u8>,
    error: Seq<char>,
)
    requires
        decodes_to(base64_text(a), a),
        decodes_to(base64_text(b), b),
    ensures
        ({
            let read = blob_read(seq, Some(a));
            &&& read.op == "loader.read_blob_result"@ && read.seq == seq && read.ok == Some(true)
            &&& read.blob matches Some(t) && base64_read(t) == Ok::<Seq<u8>, Seq<char>>(a)
            &&& (FrameView { seq: None, ok: None, blob: None, ..read }) == bare_frame(
                "loader.read_blob_result"@,
            )
        }),
        ({
            let missing = blob_read(seq, None);
            &&& missing.op == "loader.read_blob_result"@ && missing.seq == seq
            &&& missing.ok == Some(false) && missing.error == Some("not found"@)
            &&& missing.blob is None
            &&& (FrameView { seq: None, ok: None, error: None, ..missing }) == bare_frame(
                "loader.read_blob_result"@,
            )
        }),
        ({
            let started = quote_started(seq, Ok((a, b)));
            &&& started.op == "loader.init_quote_result"@ && started.seq == seq
            &&& started.ok == Some(true)
            &&& started.att_key_id matches Some(t) && base64_read(t) == Ok::<Seq<u8>, Seq<char>>(a)
            &&& started.target_info matches Some(t2) && base64_read(t2) == Ok::<
                Seq<u8>,
                Seq<char>,
            >(b)
            &&& (FrameView { seq: None, ok: None, att_key_id: None, target_info: None, ..started })
                == bare_frame("loader.init_quote_result"@)
        }),
        ({
            let got = quote_got(seq, Ok(a));
            &&& got.op == "loader.get_quote_result"@ && got.seq == seq && got.ok == Some(true)
            &&& got.quote matches Some(t) && base64_read(t) == Ok::<Seq<u8>, Seq<char>>(a)
            &&& (FrameView { seq: None, ok: None, quote: None, ..got }) == bare_frame(
                "loader.get_quote_result"@,
            )
        }),
        ({
            let done = blob_written(seq, Ok(()));
            &&& done.op == "loader.write_blob_result"@ && done.seq == seq && done.ok == Some(true)
            &&& (FrameView { seq: None, ok: None, ..done }) == bare_frame(
                "loader.write_blob_result"@,
            )
        }),
        ({
            let w = blob_written(seq, Err(error));
            let i = quote_started(seq, Err(error));
            let g = quote_got(seq, Err(error));
            &&& w.op == "loader.write_blob_result"@ && i.op == "loader.init_quote_result"@ && g.op
                == "loader.get_quote_result"@
            &&& w.seq == seq && i.seq == seq && g.seq == seq
            &&& w.ok == Some(false) && i.ok == Some(false) && g.ok == Some(false)
            &&& w.error == Some(error) && i.error == Some(error) && g.error == Some(error)
            &&& (FrameView { seq: None, ok: None, error: None, ..w }) == bare_frame(w.op)
            &&& (FrameView { seq: None, ok: None, error: None, ..i }) == bare_frame(i.op)
            &&& (FrameView { seq: None, ok: None, error: None, ..g }) == bare_frame(g.op)
        }),
{
}

/// What the loader does about a request: it reads or writes the blob that is named, with the bytes
/// that the request holds, if the name is one; it asks for a quote over the report that the request
/// holds, under the key that it holds; and refuses what is missing or cannot be read, in words.
pub proof fn law_requests_are_done_as_asked(f: FrameView)
    ensures
        f.op == "loader.read_blob"@ ==> match loader_step(f) {
            LoaderStepView::ReadBlob { name } => f.path == Some(name) && safe_name(name),
            LoaderStepView::Reply(r) => (f.path is None || !safe_name(f.path->0)) && r.op
                == "loader.read_blob_result"@ && r.ok == Some(false) && r.seq == f.seq && r.error
                == Some("invalid blob path"@),
            _ => false,
        },
        f.op == "loader.write_blob"@ ==> match loader_step(f) {
            LoaderStepView::WriteBlob { name, data } => f.path == Some(name) && safe_name(name)
                && f.blob is Some && base64_read(f.blob->0) == Ok::<Seq<u8>, Seq<char>>(data),
            LoaderStepView::Reply(r) => {
                &&& r.op == "loader.write_blob_result"@ && r.ok == Some(false) && r.seq == f.seq
                &&& if f.path is None || !safe_name(f.path->0) {
                    r.error == Some("invalid blob path"@)
                } else if f.blob is None {
                    r.error == Some("missing blob"@)
                } else {
                    base64_read(f.blob->0) matches Err(e) && r.error == Some(e)
                }
            },
            _ => false,
        },
        f.op == "loader.init_quote"@ ==> loader_step(f) == LoaderStepView::InitQuote,
        f.op == "loader.get_quote"@ ==> match loader_step(f) {
            LoaderStepView::GetQuote { att_key_id, report } => f.att_key_id is Some && f.report
                is Some && base64_read(f.att_key_id->0) == Ok::<Seq<u8>, Seq<char>>(att_key_id)
                && base64_read(f.report->0) == Ok::<Seq<u8>, Seq<char>>(report),
            LoaderStepView::Reply(r) => {
                &&& r.op == "loader.get_quote_result"@ && r.ok == Some(false) && r.seq == f.seq
                &&& if f.report is None {
                    r.error == Some("missing report"@)
                } else if base64_read(f.report->0) is Err {
                    r.error == Some(base64_read(f.report->0)->Err_0)
                } else if f.att_key_id is None {
                    r.error == Some("missing att_key_id"@)
                } else {
                    base64_read(f.att_key_id->0) matches Err(e) && r.error == Some(e)
                }
            },
            _ => false,
        },
        f.op != "loader.read_blob"@ && f.op != "loader.write_blob"@ && f.op != "loader.init_quote"@
            && f.op != "loader.get_quote"@ ==> (loader_step(f) matches LoaderStepView::Reply(r)
            && r.op == f.op + "_result"@ && r.ok == Some(false) && r.seq == f.seq && r.error == Some(
            "unsupported loader op: "@ + f.op,
        )),
{
    lemma_request_ops();
}

/// A name names a blob if and only if it is made of letters, digits, dots, underscores and hyphens,
/// at least one of them, and has no two dots in a row anywhere.
pub proof fn law_blob_names(name: Seq<char>)
    ensures
        safe_name(name) ==> forall|i: int|
            0 <= i < name.len()
                ==> "ABCDEFGHIJKLMNOPQRSTUVWXYZabcdefghijklmnopqrstuvwxyz0123456789._-"@.contains(
                #[trigger] name[i],
            ),
        name.len() > 0 && (forall|i: int|
            0 <= i < name.len()
                ==> "ABCDEFGHIJKLMNOPQRSTUVWXYZabcdefghijklmnopqrstuvwxyz0123456789._-"@.contains(
                #[trigger] name[i],
            )) && !safe_name(name) ==> exists|i: int|
            0 <= i < name.len() - 1 && #[trigger] name[i] == '.' && name[i + 1] == '.',
        safe_name(name) ==> name.len() > 0,
{
    reveal_strlit("ABCDEFGHIJKLMNOPQRSTUVWXYZabcdefghijklmnopqrstuvwxyz0123456789._-");
    let all = "ABCDEFGHIJKLMNOPQRSTUVWXYZabcdefghijklmnopqrstuvwxyz0123456789._-"@;
    assert forall|c: char| all.contains(c) == #[trigger] name_char(c) by {
        if name_char(c) {
            let u = c as int;
            let i: int = if 'A' <= c <= 'Z' {
                u - 65
            } else if 'a' <= c <= 'z' {
                26 + u - 97
            } else if '0' <= c <= '9' {
                52 + u - 48
            } else if c == '.' {
                62
            } else if c == '_' {
                63
            } else {
                64
            };
            assert(all[i] == c);
        }
    }
    if safe_name(name) {
        assert forall|i: int| 0 <= i < name.len() implies all.contains(#[trigger] name[i]) by {
            assert(name_char(name[i]));
        }
    } else if name.len() > 0 && (forall|i: int| 0 <= i < name.len() ==> all.contains(
        #[trigger] name[i],
    )) {
        assert forall|i: int| 0 <= i < name.len() implies name_char(#[trigger] name[i]) by {
            assert(all.contains(name[i]));
        }
    }
}

/// The first of the keys that the platform offers is chosen, if it offers one.
pub proof fn law_first_attestation_key_is_chosen(ids: Seq<Vec<u8>>)
    ensures
        ids.len() == 0 ==> first_key(ids) == Err::<Seq<u8>, Seq<char>>(
            "no att_key_id from aesmd"@,
        ),
        ids.len() > 0 ==> first_key(ids) == Ok::<Seq<u8>, Seq<char>>(ids.first()@),
{
}

} // verus!
