use tee_demo::frame::Frame;
use tee_demo::host::{AttestationBundle, Reply, RuntimeConnection};
use tee_demo::launch::{
    attest_nonce, check_attest, check_serve, launch, parse_pid, wait_for_loader, worker_nonce, Arg,
    Launch, LoaderMode, Var, Waiting,
};
use tee_demo::loader::{
    choose_att_key, get_quote_reply, handle_blob_op, handle_loader_op, init_quote_reply, read_blob_reply, route,
    safe_blob_name, signing, verify_mrenclave, write_blob_reply, relay, Leg, LoaderStep, Relay, Route,
};
use tee_demo::outside::{b64_encode, Collateral, EnclaveReport, VerifiedReport};
use tee_demo::report_data::report_data_binding;
use tee_demo::serve::{handle_client, handle_response, passes_on, Serving, Wait};
use tee_demo::verify::{
    check_attestation, evidence_of, mrenclave_hex, report_data_b64, verify_attestation,
    verify_attestation_frame,
};

fn frame(op: &str, id: Option<u64>) -> Frame {
    let mut f = Frame::new(op);
    f.id = id;
    f
}

fn reply(step: LoaderStep) -> Frame {
    match step {
        LoaderStep::Reply(f) => f,
        _ => panic!("no reply"),
    }
}

#[test]
fn loader_keeps_its_own_ops_only() {
    assert_eq!(route(&Frame::new("loader.init_quote")), Route::Loader);
    assert_eq!(route(&Frame::new("loader.nonsense")), Route::Loader);
    assert_eq!(route(&Frame::new("loader.init_quote_result")), Route::Loader);
    assert_eq!(route(&Frame::new("host.Ready")), Route::Host);
    assert_eq!(route(&Frame::new("runtime.loader.x")), Route::Host);
}

#[test]
fn frames_are_relayed() {
    let mut result = Frame::new("loader.init_quote_result");
    result.seq = Some(3);
    match relay(Leg::Enclave, result.clone()) {
        Relay::Serve(LoaderStep::Reply(r)) => {
            assert_eq!(r.op, "loader.init_quote_result_result");
            assert_eq!((r.seq, r.ok), (Some(3), Some(false)));
        }
        _ => panic!("not served"),
    }
    assert!(matches!(
        relay(Leg::Enclave, Frame::new("loader.init_quote")),
        Relay::Serve(LoaderStep::InitQuote)
    ));
    assert!(matches!(
        relay(Leg::Enclave, frame("host.Ready", Some(4))),
        Relay::ToHost(f) if f.op == "host.Ready" && f.id == Some(4)
    ));
    assert!(matches!(
        relay(Leg::Host, result),
        Relay::ToEnclave(f) if f.op == "loader.init_quote_result" && f.seq == Some(3)
    ));
    assert!(matches!(relay(Leg::Host, Frame::new("loader.init_quote")), Relay::ToEnclave(_)));
}

#[test]
fn blob_names_stay_in_place() {
    assert_eq!(safe_blob_name("sealed_keys.bin"), Some("sealed_keys.bin"));
    assert_eq!(safe_blob_name("a-B_9."), Some("a-B_9."));
    assert_eq!(safe_blob_name("."), Some("."));
    for bad in ["", "..", "a..b", "a/b", "a\\b", "a b", "ä", "a\0", "../x"] {
        assert_eq!(safe_blob_name(bad), None, "{bad}");
    }
}

#[test]
fn blob_requests_are_decided() {
    let mut f = Frame::new("loader.read_blob");
    f.seq = Some(4);
    f.path = Some("x.bin".to_string());
    assert!(matches!(handle_loader_op(&f), LoaderStep::ReadBlob { name } if name == "x.bin"));
    f.path = Some("../x".to_string());
    let r = reply(handle_loader_op(&f));
    assert_eq!(r.op, "loader.read_blob_result");
    assert_eq!(r.seq, Some(4));
    assert_eq!(r.ok, Some(false));
    assert_eq!(r.error.as_deref(), Some("invalid blob path"));
    f.path = None;
    assert_eq!(reply(handle_blob_op(&f)).error.as_deref(), Some("invalid blob path"));
    let mut w = Frame::new("loader.write_blob");
    w.seq = Some(5);
    assert_eq!(reply(handle_loader_op(&w)).op, "loader.write_blob_result");
    w.path = Some("x.bin".to_string());
    assert_eq!(reply(handle_loader_op(&w)).error.as_deref(), Some("missing blob"));
    w.blob = Some("a!bc".to_string());
    assert_eq!(
        reply(handle_loader_op(&w)).error.as_deref(),
        Some("Invalid symbol 33, offset 1.")
    );
    w.blob = Some(b64_encode(b"data"));
    assert!(matches!(
        handle_loader_op(&w),
        LoaderStep::WriteBlob { name, data } if name == "x.bin" && data == b"data"
    ));
}

#[test]
fn quote_requests_are_decided() {
    assert!(matches!(
        handle_loader_op(&Frame::new("loader.init_quote")),
        LoaderStep::InitQuote
    ));
    let mut f = Frame::new("loader.get_quote");
    f.seq = Some(6);
    let r = reply(handle_loader_op(&f));
    assert_eq!(r.op, "loader.get_quote_result");
    assert_eq!(r.error.as_deref(), Some("missing report"));
    f.report = Some("!".to_string());
    assert_eq!(reply(handle_loader_op(&f)).ok, Some(false));
    f.report = Some(b64_encode(b"report"));
    assert_eq!(reply(handle_loader_op(&f)).error.as_deref(), Some("missing att_key_id"));
    f.att_key_id = Some(b64_encode(b"key"));
    assert!(matches!(
        handle_loader_op(&f),
        LoaderStep::GetQuote { att_key_id, report } if att_key_id == b"key" && report == b"report"
    ));
    let mut other = Frame::new("loader.dance");
    other.seq = Some(7);
    let r = reply(handle_loader_op(&other));
    assert_eq!(r.op, "loader.dance_result");
    assert_eq!(r.seq, Some(7));
    assert_eq!(r.error.as_deref(), Some("unsupported loader op: loader.dance"));
}

#[test]
fn loader_replies_say_what_happened() {
    let r = read_blob_reply(Some(1), Some(b"abc"));
    assert_eq!((r.op.as_str(), r.seq, r.ok), ("loader.read_blob_result", Some(1), Some(true)));
    assert_eq!(r.blob.as_deref(), Some("YWJj"));
    let r = read_blob_reply(None, None);
    assert_eq!((r.ok, r.error.as_deref()), (Some(false), Some("not found")));
    let r = write_blob_reply(Some(2), Ok(()));
    assert_eq!((r.op.as_str(), r.ok, r.error), ("loader.write_blob_result", Some(true), None));
    let r = write_blob_reply(Some(2), Err("disk full".to_string()));
    assert_eq!((r.ok, r.error.as_deref()), (Some(false), Some("disk full")));
    let r = init_quote_reply(Some(3), Ok((b"k".to_vec(), b"t".to_vec())));
    assert_eq!((r.op.as_str(), r.ok), ("loader.init_quote_result", Some(true)));
    assert_eq!((r.att_key_id.as_deref(), r.target_info.as_deref()), (Some("aw=="), Some("dA==")));
    let r = init_quote_reply(Some(3), Err("no aesm".to_string()));
    assert_eq!((r.ok, r.error.as_deref()), (Some(false), Some("no aesm")));
    let r = get_quote_reply(Some(4), Ok(b"q".to_vec()));
    assert_eq!((r.op.as_str(), r.quote.as_deref()), ("loader.get_quote_result", Some("cQ==")));
    let r = get_quote_reply(Some(4), Err("no".to_string()));
    assert_eq!((r.ok, r.error.as_deref()), (Some(false), Some("no")));
}

#[test]
fn sigstruct_measurement_is_checked() {
    let mut sig = vec![0u8; 1808];
    for (i, b) in sig[960..992].iter_mut().enumerate() {
        *b = 0xa0 + i as u8;
    }
    let hex: String = sig[960..992].iter().map(|b| format!("{b:02x}")).collect();
    assert_eq!(verify_mrenclave(&sig, &hex).unwrap(), hex);
    assert_eq!(verify_mrenclave(&sig, &hex.to_uppercase()).unwrap(), hex);
    assert_eq!(verify_mrenclave(&sig[..992], &hex).unwrap(), hex);
    assert_eq!(
        verify_mrenclave(&sig, "00").unwrap_err(),
        format!("MRENCLAVE 不匹配！\n  期望: 00\n  实际: {hex}\n可能 sgxs 已被替换，拒绝加载。")
    );
    assert!(verify_mrenclave(&sig[..991], &hex).unwrap_err().starts_with("读取 SIGSTRUCT 失败"));
}

#[test]
fn first_attestation_key_is_chosen() {
    assert_eq!(choose_att_key(&vec![vec![1, 2], vec![3]]).unwrap(), [1, 2]);
    assert_eq!(choose_att_key(&vec![]).unwrap_err(), "no att_key_id from aesmd");
}

#[test]
fn signature_is_chosen() {
    let s = |x: &str| Some(x.to_string());
    let a = signing(true, &None, &s("ab"), "x.sig");
    assert_eq!((a.sig, a.expected_mrenclave, a.ignored), (s("x.sig"), s("ab"), false));
    let b = signing(true, &s("y.sig"), &None, "x.sig");
    assert_eq!((b.sig, b.expected_mrenclave, b.ignored), (s("y.sig"), None, false));
    let c = signing(false, &s("y.sig"), &None, "x.sig");
    assert_eq!((c.sig, c.expected_mrenclave, c.ignored), (None, None, true));
    let d = signing(false, &None, &None, "x.sig");
    assert_eq!((d.sig, d.ignored), (None, false));
}

fn connection() -> RuntimeConnection {
    let mut ready = Frame::new("host.Ready");
    ready.ok = Some(true);
    ready.key_version = Some(3);
    ready.public_key = Some("PK".to_string());
    RuntimeConnection::open(&ready).unwrap_or_else(|e| panic!("{e}"))
}

fn attested(id: Option<u64>) -> Frame {
    let mut f = frame("host.AttestationResponse", id);
    f.ok = Some(true);
    f.attested_at = Some(99);
    f.key_version = Some(4);
    f.public_key = Some("PK4".to_string());
    f.quote = Some("Q".to_string());
    f.binding_nonce = Some("N".to_string());
    f.report_data = Some("R".to_string());
    f
}

#[test]
fn connection_opens_with_ready() {
    let c = connection();
    assert_eq!(c.next_id, 0);
    assert_eq!(c.latest_bundle.key_version, 3);
    assert_eq!(c.latest_bundle.attested_at, 0);
    assert_eq!(c.latest_bundle.public_key.as_deref(), Some("PK"));
    assert_eq!(
        RuntimeConnection::open(&Frame::new("host.Other")).err().unwrap(),
        "expected host.Ready, got host.Other"
    );
    let b = AttestationBundle::from_frame(&attested(None)).clone();
    assert_eq!((b.attested_at, b.key_version), (99, 4));
    assert_eq!(b.quote.as_deref(), Some("Q"));
}

#[test]
fn attestation_answers_are_checked() {
    let mut c = connection();
    let req = c.request_attestation(Some(b"abc"));
    assert_eq!(req.op, "runtime.AttestationRequest");
    assert_eq!((req.id, req.nonce.as_deref()), (Some(1), Some("YWJj")));
    assert_eq!(c.request_attestation(None).nonce, None);
    assert_eq!(c.next_id, 2);
    let e = |r: Result<Frame, String>| r.err().unwrap();
    assert_eq!(e(c.take_attestation(2, frame("x", None))), "unexpected op: x");
    assert_eq!(
        e(c.take_attestation(2, attested(None))),
        "attestation response id mismatch (got None, want 2)"
    );
    assert_eq!(
        e(c.take_attestation(2, attested(Some(7)))),
        "attestation response id mismatch (got Some(7), want 2)"
    );
    let mut bad = attested(Some(2));
    bad.ok = None;
    assert_eq!(e(c.take_attestation(2, bad)), "attestation failed: ");
    let mut bad = attested(Some(2));
    bad.ok = Some(false);
    bad.error = Some("no".to_string());
    assert_eq!(e(c.take_attestation(2, bad)), "attestation failed: no");
    assert_eq!(c.latest_bundle.key_version, 3);
    assert!(c.take_attestation(2, attested(Some(2))).is_ok());
    assert_eq!(c.latest_bundle.key_version, 4);
    assert_eq!(c.latest_bundle.quote.as_deref(), Some("Q"));
}

#[test]
fn plain_results_are_taken() {
    let mut c = connection();
    let req = c.request_compute(2, 3);
    assert_eq!((req.op.as_str(), req.id), ("runtime.ComputeRequest", Some(1)));
    assert_eq!((req.x, req.y), (Some(2), Some(3)));
    assert!(matches!(c.take_result(1, attested(None)), Reply::More));
    assert_eq!(c.latest_bundle.key_version, 4);
    let fail = |r: Reply<i64>| match r {
        Reply::Fail(e) => e,
        _ => panic!("no failure"),
    };
    assert_eq!(fail(c.take_result(1, frame("x", None))), "unexpected op during compute: x");
    let mut r = frame("host.ComputeResponse", Some(2));
    assert_eq!(fail(c.take_result(1, r.clone())), "compute response id mismatch");
    r.id = Some(1);
    r.error = Some("why".to_string());
    assert_eq!(fail(c.take_result(1, r.clone())), "compute failed: why");
    r.ok = Some(true);
    assert_eq!(fail(c.take_result(1, r.clone())), "missing result");
    r.result = Some(23);
    assert!(matches!(c.take_result(1, r), Reply::Done(23)));
}

fn answer(s: Serving) -> Frame {
    match s {
        Serving::Answer(f) => f,
        _ => panic!("no answer"),
    }
}

fn fail(s: Serving) -> String {
    match s {
        Serving::Fail(e) => e,
        _ => panic!("no failure"),
    }
}

fn forward(s: Serving) -> (Frame, Wait) {
    match s {
        Serving::Forward { frame, wait } => (frame, wait),
        _ => panic!("not passed on"),
    }
}

#[test]
fn compute_is_passed_on_unread() {
    let mut c = connection();
    assert_eq!(fail(handle_client(&mut c, frame("compute", Some(9)))), "missing ct");
    assert_eq!(c.next_id, 0);
    let mut req = frame("compute", Some(9));
    req.ct = Some("CT".to_string());
    let (f, w) = forward(handle_client(&mut c, req.clone()));
    assert_eq!((f.op.as_str(), f.id), ("runtime.ComputeRequest", Some(1)));
    assert_eq!(f.ct.as_deref(), Some("CT"));
    assert_eq!(f.key_version, Some(1));
    assert_eq!(
        f.aad_json.as_deref(),
        Some(r#"{"v":1,"id":9,"op":"compute","key_version":1}"#)
    );
    assert_eq!(w, Wait::Compute { client_id: 9, id: 1 });
    req.key_version = Some(5);
    req.aad_json = Some("AAD".to_string());
    let (f, w) = forward(handle_client(&mut c, req));
    assert_eq!((f.key_version, f.aad_json.as_deref()), (Some(5), Some("AAD")));
    assert!(matches!(handle_response(&mut c, w, attested(None)), Serving::Await(x) if x == w));
    assert_eq!(c.latest_bundle.key_version, 4);
    assert_eq!(
        fail(handle_response(&mut c, w, frame("x", None))),
        "unexpected op during compute_ct: x"
    );
    assert_eq!(
        fail(handle_response(&mut c, w, frame("host.ComputeResponse", Some(1)))),
        "compute_ct response id mismatch"
    );
    let mut r = frame("host.ComputeResponse", Some(2));
    r.ok = Some(true);
    r.result = Some(23);
    let out = answer(handle_response(&mut c, w, r.clone()));
    assert_eq!((out.op.as_str(), out.id, out.ok), ("compute_result", Some(9), Some(true)));
    assert_eq!((out.result, out.status.as_deref()), (Some(23), Some("ok")));
    r.ok = Some(false);
    r.code = Some("key_expired".to_string());
    r.error = Some("old".to_string());
    let out = answer(handle_response(&mut c, w, r));
    assert_eq!((out.ok, out.result, out.status.as_deref()), (Some(false), None, Some("error")));
    assert_eq!((out.code.as_deref(), out.error.as_deref()), (Some("key_expired"), Some("old")));
}

#[test]
fn challenge_is_passed_on() {
    let mut c = connection();
    let out = answer(handle_client(&mut c, frame("challenge", None)));
    assert_eq!((out.op.as_str(), out.id, out.ok), ("challenge_result", Some(0), Some(false)));
    assert_eq!(out.error.as_deref(), Some("missing nonce"));
    let mut req = frame("challenge", Some(8));
    req.nonce = Some("a!bc".to_string());
    assert_eq!(fail(handle_client(&mut c, req.clone())), "Invalid symbol 33, offset 1.");
    req.nonce = Some("YWJj".to_string());
    let (f, w) = forward(handle_client(&mut c, req));
    assert_eq!((f.op.as_str(), f.nonce.as_deref()), ("runtime.AttestationRequest", Some("YWJj")));
    assert_eq!(w, Wait::Challenge { client_id: 8, id: 1 });
    let out = answer(handle_response(&mut c, w, attested(Some(1))));
    assert_eq!((out.op.as_str(), out.id, out.ok), ("challenge_result", Some(8), Some(true)));
    assert_eq!((out.key_version, out.attested_at), (Some(4), Some(99)));
    assert_eq!(out.public_key.as_deref(), Some("PK4"));
    assert_eq!(out.quote.as_deref(), Some("Q"));
    assert_eq!(out.binding_nonce.as_deref(), Some("N"));
    assert_eq!(out.report_data.as_deref(), Some("R"));
    assert_eq!(fail(handle_response(&mut c, w, frame("x", None))), "unexpected op: x");
}

#[test]
fn pubkey_is_attested_first() {
    let mut c = connection();
    let (f, w) = forward(handle_client(&mut c, frame("pubkey", Some(1))));
    assert_eq!(f.nonce, Some(b64_encode(b"pubkey-attest-nonce")));
    let out = answer(handle_response(&mut c, w, attested(Some(1))));
    assert_eq!((out.op.as_str(), out.key_version), ("pubkey_result", Some(4)));
    assert_eq!(out.public_key.as_deref(), Some("PK4"));
    let again = answer(handle_client(&mut c, frame("pubkey", Some(2))));
    assert_eq!((again.id, again.quote.as_deref()), (Some(2), Some("Q")));
    assert_eq!(c.next_id, 1);
}

#[test]
fn rotation_is_passed_on() {
    let mut c = connection();
    let (f, w) = forward(handle_client(&mut c, frame("rotate", Some(1))));
    assert_eq!((f.op.as_str(), f.id), ("runtime.RotateRequest", Some(1)));
    assert!(matches!(handle_response(&mut c, w, attested(None)), Serving::Await(_)));
    assert_eq!(
        fail(handle_response(&mut c, w, frame("x", None))),
        "unexpected op during rotate: x"
    );
    let mut r = frame("host.RotateResponse", Some(2));
    assert_eq!(fail(handle_response(&mut c, w, r.clone())), "rotate response id mismatch");
    r.id = Some(1);
    r.error = Some("why".to_string());
    assert_eq!(fail(handle_response(&mut c, w, r.clone())), "rotate failed: why");
    r.ok = Some(true);
    r.key_version = Some(6);
    r.public_key = Some("PK6".to_string());
    let out = answer(handle_response(&mut c, w, r.clone()));
    assert_eq!((out.op.as_str(), out.key_version), ("rotate_result", Some(6)));
    assert_eq!(c.latest_bundle.key_version, 6);
    assert_eq!(c.latest_bundle.quote.as_deref(), Some("Q"));
    r.quote = Some("Q6".to_string());
    answer(handle_response(&mut c, w, r));
    assert_eq!(c.latest_bundle.quote.as_deref(), Some("Q6"));
    assert_eq!(c.latest_bundle.attested_at, 0);
}

#[test]
fn passing_on_is_foreseen() {
    let mut c = connection();
    let mut f = frame("compute", Some(1));
    assert!(!passes_on(&c, &f));
    f.ct = Some("CT".to_string());
    assert!(passes_on(&c, &f));
    let mut f = frame("challenge", Some(1));
    assert!(!passes_on(&c, &f));
    f.nonce = Some("a!bc".to_string());
    assert!(!passes_on(&c, &f));
    f.nonce = Some("YWJj".to_string());
    assert!(passes_on(&c, &f));
    assert!(passes_on(&c, &frame("rotate", None)));
    assert!(!passes_on(&c, &frame("dance", None)));
    assert!(passes_on(&c, &frame("pubkey", None)));
    c.latest_bundle.quote = Some("Q".to_string());
    assert!(!passes_on(&c, &frame("pubkey", None)));
    // Behind the last id the host still answers what it need not pass on.
    c.next_id = u64::MAX;
    assert_eq!(answer(handle_client(&mut c, frame("pubkey", Some(6)))).id, Some(6));
}

#[test]
fn unknown_client_ops_are_refused() {
    let mut c = connection();
    let out = answer(handle_client(&mut c, frame("dance", Some(5))));
    assert_eq!((out.op.as_str(), out.id, out.ok), ("error", Some(5), Some(false)));
    assert_eq!(out.error.as_deref(), Some("unsupported client op: dance"));
}

fn verified(report_data: [u8; 64]) -> VerifiedReport {
    VerifiedReport { sgx: Some(EnclaveReport { mr_enclave: [0xab; 32], report_data }) }
}

fn no_collateral() -> Collateral {
    Collateral {
        pck_crl_issuer_chain: String::new(),
        root_ca_crl: vec![],
        pck_crl: vec![],
        tcb_info_issuer_chain: String::new(),
        tcb_info: String::new(),
        tcb_info_signature: vec![],
        qe_identity_issuer_chain: String::new(),
        qe_identity: String::new(),
        qe_identity_signature: vec![],
        pck_certificate_chain: None,
    }
}

#[test]
fn report_is_held_to_key_and_nonce() {
    let pk = b"public key";
    let v = verified(report_data_binding(4, pk, b"nonce"));
    let hex = "ab".repeat(32);
    assert_eq!(mrenclave_hex(&v).unwrap(), hex);
    assert_eq!(
        report_data_b64(&v).unwrap(),
        b64_encode(&report_data_binding(4, pk, b"nonce"))
    );
    let pk64 = b64_encode(pk);
    let n64 = b64_encode(b"nonce");
    assert!(check_attestation(&v, &pk64, 4, b"nonce", &n64, None).is_ok());
    assert!(check_attestation(&v, &pk64, 4, b"nonce", &n64, Some(&hex.to_uppercase())).is_ok());
    assert_eq!(
        check_attestation(&v, &pk64, 4, b"nonce", &n64, Some("CD")).unwrap_err(),
        format!("MRENCLAVE mismatch: expected cd, got {hex}")
    );
    assert_eq!(
        check_attestation(&v, &pk64, 4, b"other", &n64, None).unwrap_err(),
        "binding_nonce does not match Client challenge nonce"
    );
    assert_eq!(
        check_attestation(&v, "a!bc", 4, b"nonce", &n64, None).unwrap_err(),
        "Invalid symbol 33, offset 1."
    );
    assert_eq!(
        check_attestation(&v, &pk64, 4, b"nonce", "a!bc", None).unwrap_err(),
        "Invalid symbol 33, offset 1."
    );
    let other = b64_encode(b"another key");
    assert_eq!(
        check_attestation(&v, &other, 4, b"nonce", &n64, None).unwrap_err(),
        format!(
            "REPORTDATA binding failed (Host may have swapped public_key)\nexpected: {}\nactual:   {}",
            b64_encode(&report_data_binding(4, b"another key", b"nonce")),
            b64_encode(&report_data_binding(4, pk, b"nonce")),
        )
    );
    assert!(check_attestation(&v, &pk64, 5, b"nonce", &n64, None).is_err());
    let none = VerifiedReport { sgx: None };
    assert_eq!(
        check_attestation(&none, &pk64, 4, b"nonce", &n64, None).unwrap_err(),
        "no SGX enclave report"
    );
    assert!(mrenclave_hex(&none).is_none() && report_data_b64(&none).is_none());
}

#[test]
fn quotes_that_are_none_are_refused() {
    let c = no_collateral();
    assert_eq!(
        verify_attestation("a!bc", "", 1, b"", "", None, &c, 0).err().unwrap(),
        "Invalid symbol 33, offset 1."
    );
    assert!(verify_attestation(&b64_encode(b"no quote"), "", 1, b"", "", None, &c, 0).is_err());
    assert!(verify_attestation(&b64_encode(&[0u8; 2000]), "", 1, b"", "", None, &c, 0).is_err());
}

#[test]
fn evidence_has_to_be_complete() {
    let e = |f: &Frame, n: Option<&[u8]>| evidence_of(f, n).err().unwrap();
    let mut f = Frame::new("challenge_result");
    assert_eq!(e(&f, None), "missing quote");
    f.quote = Some(b64_encode(b"no quote"));
    assert_eq!(e(&f, None), "missing public_key");
    f.public_key = Some("PK".to_string());
    assert_eq!(e(&f, None), "missing binding_nonce");
    f.binding_nonce = Some("a!bc".to_string());
    assert_eq!(e(&f, None), "Invalid symbol 33, offset 1.");
    let ok = evidence_of(&f, Some(b"mine")).unwrap_or_else(|e| panic!("{e}"));
    assert_eq!((ok.quote, ok.nonce), (b"no quote".to_vec(), b"mine".to_vec()));
    f.binding_nonce = Some(b64_encode(b"theirs"));
    let ok = evidence_of(&f, None).unwrap_or_else(|e| panic!("{e}"));
    assert_eq!(ok.nonce, b"theirs");
    assert!(verify_attestation_frame(&f, None, None, &no_collateral(), 0).is_err());
    f.quote = None;
    assert_eq!(
        verify_attestation_frame(&f, None, None, &no_collateral(), 0).unwrap_err(),
        "missing quote"
    );
}

#[test]
fn loader_is_launched() {
    let mode = |production, has_sig, has_mrenclave, sandbox| LoaderMode {
        production,
        has_sig,
        has_mrenclave,
        sandbox,
    };
    let args = |m| match launch(m, true, "w") {
        Ok(Launch::Direct(a)) => a,
        _ => panic!("not direct"),
    };
    let vars = |m| match launch(m, true, "w") {
        Ok(Launch::Sandboxed(v)) => v,
        _ => panic!("not sandboxed"),
    };
    assert_eq!(
        args(mode(false, true, true, false)),
        [Arg::HostSocketFlag, Arg::HostSocket, Arg::DataDirFlag, Arg::DataDir, Arg::Sgxs]
    );
    let all: Vec<&str> = args(mode(true, true, true, false))
        .into_iter()
        .map(|a| a.flag().unwrap_or("value"))
        .collect();
    assert_eq!(
        all,
        [
            "--host-socket",
            "value",
            "--data-dir",
            "value",
            "--production",
            "--sig",
            "value",
            "--expected-mrenclave",
            "value",
            "value"
        ]
    );
    let names: Vec<&str> =
        vars(mode(false, true, true, true)).into_iter().map(|v| v.name()).collect();
    assert_eq!(
        names,
        [
            "LOADER",
            "HOST_SOCK",
            "SGXS",
            "DATA_DIR",
            "RUN_DIR",
            "TEE_ROOT",
            "PRODUCTION",
            "SIG",
            "EXPECTED_MRENCLAVE"
        ]
    );
    assert_eq!(vars(mode(true, false, false, true))[6], Var::Production(true));
    assert_eq!(vars(mode(true, false, false, true)).len(), 7);
    assert_eq!(
        launch(mode(true, false, false, true), false, "/w.sh").err().unwrap(),
        "sandbox wrapper missing: /w.sh (disable with --sandbox=false)"
    );
    assert!(launch(mode(true, false, false, false), false, "/w.sh").is_ok());
}

#[test]
fn loader_is_waited_for() {
    assert_eq!(wait_for_loader(true, 0), Waiting::ExitedEarly);
    assert_eq!(wait_for_loader(true, 30_000), Waiting::ExitedEarly);
    assert_eq!(wait_for_loader(false, 30_000), Waiting::TimedOut);
    assert_eq!(wait_for_loader(false, 29_999), Waiting::Sleep { millis: 50 });
}

#[test]
fn host_starts_only_when_it_can() {
    assert!(check_serve(("s", false), ("l", true), ("x", true)).is_ok());
    assert_eq!(
        check_serve(("s", true), ("l", false), ("x", false)).unwrap_err(),
        "client socket exists: s, run stop first"
    );
    assert_eq!(
        check_serve(("s", false), ("l", false), ("x", false)).unwrap_err(),
        "loader not built: l"
    );
    assert_eq!(
        check_serve(("s", false), ("l", true), ("x", false)).unwrap_err(),
        "sgxs not found: x"
    );
    assert!(check_attest("s", false).is_ok());
    assert_eq!(
        check_attest("s", true).unwrap_err(),
        "runtime socket busy: s, stop serve first"
    );
    assert_eq!(attest_nonce(Some("abc")), b"abc");
    assert_eq!(attest_nonce(None), b"pr2-attest-nonce");
    assert_eq!(worker_nonce(1700000000), b"attest-worker-1700000000");
}

#[test]
fn process_ids_are_read_as_std_reads_them() {
    for s in [
        "1", " 42\n", "+7", "4294967295", "4294967296", "99999999999x", "9x", "-1", "-0", "+", "-",
        "", "  ", "0x1", "1 2", "+4294967296", "00012",
    ] {
        let want = s.trim().parse::<u32>().map_err(|e| e.to_string());
        assert_eq!(parse_pid(s), want, "{s}");
    }
}
