use tee_demo::client::{
    calc_answer, calc_request, challenge_lines, challenge_request, check_challenge,
    key_of_challenge, parse_nonce, pubkey_lines, pubkey_request, rotate_answer, rotate_request,
    time_nonce,
};
use tee_demo::frame::Frame;
use tee_demo::host::RuntimeConnection;
use tee_demo::loader::{
    get_quote_reply, handle_loader_op, init_quote_reply, read_blob_reply, route, write_blob_reply,
    LoaderStep, Route,
};
use tee_demo::outside::{b64_decode, b64_encode, EnclaveReport, VerifiedReport};
use tee_demo::report_data::report_data_binding;
use tee_demo::runtime::state::{Derived, Event, Need, Runtime, Stop};
use tee_demo::runtime::step::draw;
use tee_demo::serve::{handle_client, handle_response, Serving};
use tee_demo::verify::check_attestation;

/// A runtime, a loader with its blobs, and a processor that derives keys from key ids.
struct Machine {
    runtime: Option<Runtime>,
    now: u64,
    blobs: Vec<(String, Vec<u8>)>,
    out: Vec<Frame>,
    reports: Vec<(Vec<u8>, Vec<u8>)>,
}

fn derive(keyid: &[u8; 32]) -> [u8; 16] {
    let mut key = [0u8; 16];
    for i in 0..16 {
        key[i] = keyid[i] ^ keyid[16 + i];
    }
    key
}

impl Machine {
    fn boot(blobs: Vec<(String, Vec<u8>)>) -> Machine {
        let step = Runtime::start();
        let mut m = Machine { runtime: None, now: 1000, blobs, out: vec![], reports: vec![] };
        let runtime = step.runtime;
        m.runtime = Some(runtime);
        m.sent(step.frames);
        m
    }

    fn blob(&self, name: &str) -> Option<Vec<u8>> {
        self.blobs.iter().find(|(n, _)| n == name).map(|(_, b)| b.clone())
    }

    fn sent(&mut self, frames: Vec<Frame>) {
        for f in frames {
            match route(&f) {
                Route::Host => self.out.push(f),
                Route::Loader => {
                    let reply = match handle_loader_op(&f) {
                        LoaderStep::Reply(r) => r,
                        LoaderStep::ReadBlob { name } => {
                            read_blob_reply(f.seq, self.blob(&name).as_deref())
                        }
                        LoaderStep::WriteBlob { name, data } => {
                            self.blobs.retain(|(n, _)| *n != name);
                            self.blobs.push((name, data));
                            write_blob_reply(f.seq, Ok(()))
                        }
                        LoaderStep::InitQuote => {
                            init_quote_reply(f.seq, Ok((vec![1, 2, 3], vec![0; 512])))
                        }
                        LoaderStep::GetQuote { att_key_id, report } => {
                            assert_eq!(att_key_id, [1, 2, 3]);
                            get_quote_reply(f.seq, Ok(report))
                        }
                    };
                    // A frame that nobody asked for is dropped.
                    let mut stray = reply.clone();
                    stray.seq = Some(u64::MAX);
                    self.give(Event::Frame(stray));
                    self.give(Event::Frame(reply));
                }
            }
        }
        self.supply();
    }

    fn give(&mut self, event: Event) {
        let step = self.runtime.take().unwrap().step(event);
        self.runtime = Some(step.runtime);
        self.sent(step.frames);
    }

    fn supply(&mut self) {
        let need = self.runtime.as_ref().unwrap().need();
        if let Some(event) = draw(&need) {
            return self.give(event);
        }
        match need {
            Need::Clock => self.give(Event::Clock(self.now)),
            Need::SealKey { keyid } => self.give(Event::SealKey(Ok(Derived {
                key: derive(&keyid),
                isvsvn: 3,
                cpusvn: [4; 16],
            }))),
            Need::UnsealKey { request } => {
                assert_eq!(request.isvsvn, 3);
                self.give(Event::UnsealKey(Ok(derive(&request.keyid))))
            }
            Need::Report { target_info, report_data } => {
                self.reports.push((target_info, report_data.clone()));
                self.give(Event::Report(report_data))
            }
            _ => {}
        }
    }

    fn ask(&mut self, f: Frame) -> Vec<Frame> {
        self.out.clear();
        self.give(Event::Frame(f));
        std::mem::take(&mut self.out)
    }

    fn stopped(&self) -> Option<String> {
        match self.runtime.as_ref().unwrap().need() {
            Need::Nothing(Stop::Error(e)) => Some(e),
            Need::Nothing(Stop::Overflow) => Some("overflow".to_string()),
            _ => None,
        }
    }
}

fn request(op: &str, id: u64) -> Frame {
    let mut f = Frame::new(op);
    f.id = Some(id);
    f
}

#[test]
fn first_boot_makes_and_seals_a_store() {
    let m = Machine::boot(vec![]);
    assert_eq!(m.out.len(), 1);
    let ready = &m.out[0];
    assert_eq!((ready.op.as_str(), ready.ok, ready.key_version), ("host.Ready", Some(true), Some(1)));
    let rt = m.runtime.as_ref().unwrap();
    assert_eq!(ready.public_key, Some(b64_encode(&rt.store.keys[0].public_key)));
    assert!(m.blob("sealed_keys.bin").is_some());
    assert_eq!(m.blob("keyring.json").unwrap(), rt.store.keyring_json().as_bytes());
    assert_eq!(rt.loader_seq, 3);
}

#[test]
fn second_boot_has_the_same_keys() {
    let mut a = Machine::boot(vec![]);
    a.ask(request("runtime.RotateRequest", 1));
    let b = Machine::boot(a.blobs.clone());
    let (x, y) = (a.runtime.as_ref().unwrap(), b.runtime.as_ref().unwrap());
    assert_eq!(y.store.current_version, 2);
    assert_eq!(x.store.encode(), y.store.encode());
    assert_eq!(b.out[0].key_version, Some(2));
    assert_eq!(y.loader_seq, 2);
    // Nothing can be opened: the runtime starts anew.
    let mut blobs = a.blobs.clone();
    for (_, b) in blobs.iter_mut() {
        let last = b.len() - 1;
        b[last] ^= 1;
    }
    let c = Machine::boot(blobs);
    assert_eq!(c.out[0].key_version, Some(1));
    assert_ne!(c.out[0].public_key, a.out.first().and_then(|f| f.public_key.clone()));
    let d = Machine::boot(vec![("sealed_keys.bin".to_string(), b"junk".to_vec())]);
    assert_eq!(d.out[0].key_version, Some(1));
}

#[test]
fn attestation_binds_the_current_key() {
    let mut m = Machine::boot(vec![]);
    let mut req = request("runtime.AttestationRequest", 7);
    req.nonce = Some(b64_encode(b"my nonce"));
    let out = m.ask(req);
    assert_eq!(out.len(), 1);
    let f = &out[0];
    assert_eq!((f.op.as_str(), f.id, f.ok), ("host.AttestationResponse", Some(7), Some(true)));
    assert_eq!((f.attested_at, f.key_version), (Some(1000), Some(1)));
    assert_eq!(f.binding_nonce, Some(b64_encode(b"my nonce")));
    let pk = b64_decode(f.public_key.as_deref().unwrap()).unwrap();
    let rd = report_data_binding(1, &pk, b"my nonce");
    assert_eq!(f.report_data, Some(b64_encode(&rd)));
    assert_eq!(f.quote, Some(b64_encode(&rd)));
    assert_eq!(m.reports[0].0.len(), 512);
    let cache = String::from_utf8(m.blob("attestation.json").unwrap()).unwrap();
    assert!(cache.contains(r#""generated_at":1000,"expires_at":4600,"sequence":1}"#));
    let out = m.ask(request("runtime.AttestationRequest", 8));
    assert_eq!(out[0].binding_nonce, Some(b64_encode(b"pr3c-default-nonce")));
    assert_eq!(m.runtime.as_ref().unwrap().attest_sequence, 2);
}

#[test]
fn rotation_attests_the_new_key() {
    let mut m = Machine::boot(vec![]);
    let out = m.ask(request("runtime.RotateRequest", 5));
    assert_eq!(out.len(), 2);
    let (a, r) = (&out[0], &out[1]);
    assert_eq!((a.op.as_str(), a.id, a.key_version), ("host.AttestationResponse", None, Some(2)));
    assert_eq!((r.op.as_str(), r.id, r.ok), ("host.RotateResponse", Some(5), Some(true)));
    assert_eq!((r.key_version, r.attested_at), (Some(2), Some(1000)));
    assert_eq!((&r.quote, &r.report_data, &r.public_key), (&a.quote, &a.report_data, &a.public_key));
    assert_eq!(r.binding_nonce, Some(b64_encode(&2u64.to_le_bytes())));
    let printed = rotate_answer(&{
        let mut f = r.clone();
        f.op = "rotate_result".to_string();
        f
    });
    assert!(printed.lines.ends_with("REPORTDATA_BINDING_OK\n"));
    assert!(printed.error.is_none());
    let mut with_nonce = request("runtime.RotateRequest", 6);
    with_nonce.nonce = Some(b64_encode(b"n"));
    let out = m.ask(with_nonce);
    assert_eq!(out[1].binding_nonce, Some(b64_encode(b"n")));
    assert_eq!(m.runtime.as_ref().unwrap().store.keys.len(), 2);
}

#[test]
fn unknown_ops_are_answered() {
    let mut m = Machine::boot(vec![]);
    let out = m.ask(request("runtime.Dance", 5));
    assert_eq!((out[0].op.as_str(), out[0].id, out[0].ok), ("runtime.Dance_error", Some(5), Some(false)));
    assert_eq!(out[0].error.as_deref(), Some("unsupported op: runtime.Dance"));
    assert!(m.stopped().is_none());
}

#[test]
fn bad_nonces_stop_the_runtime() {
    let mut m = Machine::boot(vec![]);
    let mut f = request("runtime.AttestationRequest", 1);
    f.nonce = Some("a!bc".to_string());
    assert!(m.ask(f).is_empty());
    assert_eq!(m.stopped().unwrap(), "Invalid symbol 33, offset 1.");
    assert!(m.ask(request("runtime.RotateRequest", 1)).is_empty());
    let mut n = Machine::boot(vec![]);
    let mut f = request("runtime.RotateRequest", 1);
    f.nonce = Some("a!bc".to_string());
    assert!(n.ask(f).is_empty());
    assert_eq!(n.stopped().unwrap(), "Invalid symbol 33, offset 1.");
    assert_eq!(n.runtime.as_ref().unwrap().store.current_version, 2);
}

/// A runtime that has called the loader and waits for the answer.
fn waiting(f: Frame) -> (Runtime, Frame) {
    let m = Machine::boot(vec![]);
    let step = m.runtime.unwrap().step(Event::Frame(f));
    let call = step.frames.into_iter().next().unwrap();
    (step.runtime, call)
}

fn end(rt: Runtime, f: Frame) -> String {
    match rt.step(Event::Frame(f)).runtime.need() {
        Need::Nothing(Stop::Error(e)) => e,
        _ => panic!("not stopped"),
    }
}

#[test]
fn loader_failures_stop_the_runtime() {
    let att = || request("runtime.AttestationRequest", 1);
    let (rt, call) = waiting(att());
    assert_eq!(end(rt, init_quote_reply(call.seq, Err("no aesm".to_string()))), "no aesm");
    let bare = |op: &str, seq| {
        let mut f = Frame::new(op);
        f.seq = seq;
        f
    };
    let (rt, call) = waiting(att());
    assert_eq!(end(rt, bare("loader.init_quote_result", call.seq)), "loader.init_quote failed");
    let (rt, call) = waiting(att());
    let mut f = bare("loader.init_quote_result", call.seq);
    f.ok = Some(true);
    assert_eq!(end(rt, f.clone()), "missing att_key_id");
    let (rt, _) = waiting(att());
    f.att_key_id = Some("a!bc".to_string());
    assert_eq!(end(rt, f.clone()), "missing target_info");
    let (rt, _) = waiting(att());
    f.target_info = Some(b64_encode(&[0; 511]));
    assert_eq!(end(rt, f.clone()), "Invalid symbol 33, offset 1.");
    let (rt, _) = waiting(att());
    f.att_key_id = Some(String::new());
    assert_eq!(end(rt, f.clone()), "invalid target_info");
    let quoting = || {
        let (rt, call) = waiting(att());
        let rt = rt
            .step(Event::Frame(init_quote_reply(call.seq, Ok((vec![], vec![0; 512])))))
            .runtime;
        let step = rt.step(Event::Report(vec![5]));
        (step.runtime, step.frames[0].seq, step.frames[0].report.clone())
    };
    let (rt, seq, report) = quoting();
    assert_eq!(report.as_deref(), Some("BQ=="));
    assert_eq!(end(rt, bare("loader.get_quote_result", seq)), "loader.get_quote failed");
    let (rt, seq, _) = quoting();
    let mut f = bare("loader.get_quote_result", seq);
    f.ok = Some(true);
    assert_eq!(end(rt, f), "missing quote");
    let (rt, seq, _) = quoting();
    let rt = rt.step(Event::Frame(get_quote_reply(seq, Ok(vec![1])))).runtime;
    let step = rt.step(Event::Clock(5));
    let seq = step.frames[0].seq;
    assert_eq!(step.frames[0].path.as_deref(), Some("attestation.json"));
    assert_eq!(end(step.runtime, bare("loader.write_blob_result", seq)), "loader.write_blob failed");
}

#[test]
fn chance_that_fails_stops_the_runtime() {
    let step = Runtime::start();
    let seq = step.frames[0].seq;
    let rt = step.runtime.step(Event::Frame(read_blob_reply(seq, None))).runtime;
    let rt = rt
        .step(Event::KeyPair { public_key: vec![1], private_key: vec![2] })
        .runtime;
    // Not what is needed: nothing changes.
    let step = rt.step(Event::Clock(7));
    assert!(step.frames.is_empty());
    assert!(matches!(step.runtime.need(), Need::KeyId));
    let rt = step.runtime.step(Event::KeyId(Err("no entropy".to_string()))).runtime;
    assert!(matches!(rt.need(), Need::Nothing(Stop::Error(e)) if e == "no entropy"));
}

#[test]
fn full_version_counter_stops_the_runtime() {
    let mut m = Machine::boot(vec![]);
    m.runtime.as_mut().unwrap().store.current_version = u64::MAX;
    m.ask(request("runtime.RotateRequest", 1));
    assert_eq!(m.stopped().unwrap(), "overflow");
    let mut n = Machine::boot(vec![]);
    n.runtime.as_mut().unwrap().loader_seq = u64::MAX;
    n.ask(request("runtime.AttestationRequest", 1));
    assert_eq!(n.stopped().unwrap(), "overflow");
}

/// Sends a client's request through a host to a machine.
fn serve(host: &mut RuntimeConnection, m: &mut Machine, req: Frame) -> Frame {
    let mut serving = handle_client(host, req);
    let mut inbox: Vec<Frame> = vec![];
    loop {
        serving = match serving {
            Serving::Answer(f) => return f,
            Serving::Fail(e) => panic!("{e}"),
            Serving::Forward { frame, wait } => {
                inbox = m.ask(frame);
                inbox.reverse();
                handle_response(host, wait, inbox.pop().unwrap())
            }
            Serving::Await(wait) => handle_response(host, wait, inbox.pop().unwrap()),
        };
    }
}

fn connected() -> (RuntimeConnection, Machine) {
    let m = Machine::boot(vec![]);
    let host = RuntimeConnection::open(&m.out[0]).unwrap_or_else(|e| panic!("{e}"));
    (host, m)
}

#[test]
fn client_gets_the_result() {
    let (mut host, mut m) = connected();
    let nonce = time_nonce(77);
    let resp = serve(&mut host, &mut m, challenge_request(1, &nonce));
    assert!(check_challenge(&resp).is_ok());
    let rd: Vec<u8> = b64_decode(resp.report_data.as_deref().unwrap()).unwrap();
    let mut report_data = [0u8; 64];
    report_data.copy_from_slice(&rd);
    let v = VerifiedReport { sgx: Some(EnclaveReport { mr_enclave: [1; 32], report_data }) };
    assert!(check_attestation(
        &v,
        resp.public_key.as_deref().unwrap(),
        resp.key_version.unwrap(),
        &nonce,
        resp.binding_nonce.as_deref().unwrap(),
        None
    )
    .is_ok());
    let (kv, pk) = key_of_challenge(&resp).unwrap();
    assert_eq!(kv, 1);
    for (x, y, want) in [(2, 3, 23), (0, 10, 50), (-1, 4, 19), (10, 20, 1100)] {
        let req = calc_request(55, kv, &pk, x, y).unwrap();
        assert_eq!(req.aad_json.as_deref(), Some(r#"{"v":1,"id":55,"op":"compute","key_version":1}"#));
        let resp = serve(&mut host, &mut m, req);
        assert_eq!((resp.id, resp.result), (Some(55), Some(want)));
        assert_eq!(
            calc_answer(x, y, kv, &resp).unwrap(),
            format!("TEE 计算结果: {x}^3 + 5*{y} = {want}\nRESULT={want}\nKEY_VERSION=1\n")
        );
    }
}

#[test]
fn old_key_is_good_for_one_rotation() {
    let (mut host, mut m) = connected();
    let (kv, pk) = key_of_challenge(&serve(&mut host, &mut m, pubkey_request())).unwrap();
    let req = calc_request(1, kv, &pk, 2, 3).unwrap();
    assert_eq!(serve(&mut host, &mut m, req.clone()).result, Some(23));
    serve(&mut host, &mut m, rotate_request());
    assert_eq!(serve(&mut host, &mut m, req.clone()).result, Some(23));
    serve(&mut host, &mut m, rotate_request());
    let resp = serve(&mut host, &mut m, req);
    assert_eq!((resp.ok, resp.result), (Some(false), None));
    assert_eq!(resp.code.as_deref(), Some("key_expired"));
    assert_eq!(
        calc_answer(2, 3, kv, &resp).unwrap_err(),
        "compute failed: key version expired (retention=2) (code: key_expired)"
    );
    assert_eq!(host.latest_bundle.key_version, 3);
}

#[test]
fn stale_attestations_are_renewed_before_computing() {
    let mut m = Machine::boot(vec![]);
    let out = m.ask(request("runtime.ComputeRequest", 1));
    assert_eq!(out.len(), 2);
    assert_eq!((out[0].op.as_str(), out[0].id), ("host.AttestationResponse", None));
    assert_eq!(out[0].binding_nonce, Some(b64_encode(b"stale-auto-attest-nonce")));
    assert_eq!((out[1].op.as_str(), out[1].ok), ("host.ComputeResponse", Some(false)));
    assert_eq!((out[1].code.as_deref(), out[1].error.as_deref()), (Some("bad_input"), Some("missing ct")));
    m.now = 1000 + 5400;
    assert_eq!(m.ask(request("runtime.ComputeRequest", 2)).len(), 1);
    m.now = 1000 + 5401;
    assert_eq!(m.ask(request("runtime.ComputeRequest", 3)).len(), 2);
    assert_eq!(m.runtime.as_ref().unwrap().last_attested_at, 6401);
    m.now = 5;
    assert_eq!(m.ask(request("runtime.ComputeRequest", 4)).len(), 1);
}

fn refused(m: &mut Machine, ct: &str, key_version: Option<u64>) -> (String, String) {
    let mut f = request("runtime.ComputeRequest", 9);
    f.ct = Some(ct.to_string());
    f.key_version = key_version;
    let out = m.ask(f);
    let r = out.last().unwrap();
    assert_eq!((r.id, r.ok), (Some(9), Some(false)));
    (r.code.clone().unwrap(), r.error.clone().unwrap())
}

#[test]
fn bad_requests_are_refused() {
    let mut m = Machine::boot(vec![]);
    let pair = |a: &str, b: &str| (a.to_string(), b.to_string());
    let pk = m.runtime.as_ref().unwrap().store.keys[0].public_key.clone();
    assert_eq!(refused(&mut m, "a!bc", Some(1)), pair("bad_input", "Invalid symbol 33, offset 1."));
    assert_eq!(refused(&mut m, "AAAA", Some(1)), pair("decrypt_failed", "hpke decrypt failed"));
    assert_eq!(refused(&mut m, "AAAA", Some(2)), pair("key_unknown", "key version unknown"));
    assert_eq!(refused(&mut m, "AAAA", None), pair("key_unknown", "key version unknown"));
    let aad = r#"{"v":1,"id":9,"op":"compute","key_version":1}"#;
    let ct = |pt: &[u8]| {
        b64_encode(&tee_demo::aead::encrypt(&pk, pt, aad.as_bytes()).unwrap())
    };
    assert_eq!(
        refused(&mut m, &ct(b"hello"), Some(1)),
        pair("bad_input", "missing x in plaintext: hello")
    );
    assert_eq!(
        refused(&mut m, &ct(br#"{"x":1}"#), Some(1)),
        pair("bad_input", r#"missing y in plaintext: {"x":1}"#)
    );
    assert_eq!(
        refused(&mut m, &ct(&[0x61, 0xff]), Some(1)),
        pair("bad_input", "invalid utf-8 sequence of 1 bytes from index 1")
    );
    let mut f = request("runtime.ComputeRequest", 9);
    f.ct = Some(ct(br#"{"x":9000000,"y":0}"#));
    f.key_version = Some(1);
    assert!(m.ask(f).is_empty());
    assert_eq!(m.stopped().unwrap(), "overflow");
}

#[test]
fn client_texts_are_exact() {
    assert_eq!(parse_nonce("00ff").unwrap(), [0, 255]);
    assert_eq!(parse_nonce("").unwrap_err(), "nonce length must be 1..=255");
    assert_eq!(parse_nonce(&"00".repeat(255)).unwrap().len(), 255);
    assert_eq!(parse_nonce(&"00".repeat(256)).unwrap_err(), "nonce length must be 1..=255");
    assert_eq!(parse_nonce("0").unwrap_err(), "hex length must be even");
    let t = time_nonce(0x01020304050607ff);
    assert_eq!(&t[..9], &[0xff, 0x08, 0x08, 0x08, 0x08, 0x08, 0x08, 0x08, 0x07]);
    assert_eq!(t[31], 0x01 + 31);
    let mut f = Frame::new("challenge_result");
    assert_eq!(check_challenge(&f).unwrap_err(), "challenge failed: ");
    f.error = Some("missing nonce".to_string());
    assert_eq!(check_challenge(&f).unwrap_err(), "challenge failed: missing nonce");
    assert_eq!(key_of_challenge(&f).unwrap_err(), "no public_key");
    assert_eq!(challenge_lines(b"abc", &f), "NONCE=YWJj\n");
    f.quote = Some("Q".to_string());
    assert_eq!(challenge_lines(b"abc", &f), "NONCE=YWJj\nQUOTE=Q\n");
    assert_eq!(
        calc_request(1, 1, b"short", 1, 2).err().unwrap(),
        "invalid hpke public key: Incorrect input length. Expected 65 bytes. Got 5."
    );
    let mut r = Frame::new("compute_result");
    assert_eq!(calc_answer(1, 2, 3, &r).unwrap_err(), "compute failed:  (code: )");
    r.ok = Some(true);
    assert_eq!(calc_answer(1, 2, 3, &r).unwrap_err(), "missing result");
    let mut p = Frame::new("pubkey_result");
    assert_eq!(pubkey_lines(&p), "KEY_VERSION=0\nPUBLIC_KEY=\n");
    p.key_version = Some(4);
    p.public_key = Some("PK".to_string());
    p.quote = Some("Q".to_string());
    p.report_data = Some("R".to_string());
    assert_eq!(pubkey_lines(&p), "KEY_VERSION=4\nPUBLIC_KEY=PK\nQUOTE=Q\nREPORTDATA=R\n");
}

#[test]
fn rotation_answers_are_checked() {
    let mut f = Frame::new("rotate_result");
    f.error = Some("why".to_string());
    let p = rotate_answer(&f);
    assert_eq!((p.lines.as_str(), p.error.as_deref()), ("", Some("rotate failed: why")));
    f.ok = Some(true);
    f.key_version = Some(2);
    f.public_key = Some(b64_encode(b"key"));
    f.binding_nonce = Some(b64_encode(b"nonce"));
    let head = "KEY_VERSION=2\nPUBLIC_KEY=a2V5\nBINDING_NONCE=bm9uY2U=\n";
    let p = rotate_answer(&f);
    assert_eq!((p.lines.as_str(), p.error), (head, None));
    let rd = b64_encode(&report_data_binding(2, b"key", b"nonce"));
    f.report_data = Some(rd.clone());
    let p = rotate_answer(&f);
    assert_eq!(p.lines, format!("{head}REPORTDATA={rd}\nREPORTDATA_BINDING_OK\n"));
    assert!(p.error.is_none());
    f.key_version = Some(3);
    let p = rotate_answer(&f);
    assert!(!p.lines.contains("BINDING_OK"));
    assert_eq!(p.error.as_deref(), Some("REPORTDATA binding mismatch after rotate"));
    f.report_data = Some("a!bc".to_string());
    assert_eq!(rotate_answer(&f).error.as_deref(), Some("Invalid symbol 33, offset 1."));
}
