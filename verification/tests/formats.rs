use tee_demo::compute::{compute, compute_checked, parse_xy_json, xy_json};
use tee_demo::frame::{Frame, PROTOCOL_VERSION};
use tee_demo::hex::{encode, hex_decode, is_readable};
use tee_demo::report_data::{
    attestation_cache_json, report_data_binding, report_data_from_nonce,
};
use tee_demo::text::{chars_of, parse_i64};
use tee_demo::wire::{decode_len, encode_frame, read_frame, write_frame, MAX_BODY_LEN};
use tee_demo::worker::{respond, Answer};

#[test]
fn frames_start_bare() {
    let f = Frame::new("loader.init_quote");
    assert_eq!(f.v, PROTOCOL_VERSION);
    assert_eq!(f.op, "loader.init_quote");
    assert!(f.id.is_none() && f.seq.is_none() && f.ok.is_none() && f.blob.is_none());
    assert!(f.is_loader_op());
    assert!(!Frame::new("loader").is_loader_op());
    assert!(!Frame::new("host.Ready").is_loader_op());
    assert!(!Frame::new("").is_loader_op());
    let mut g = Frame::new("x");
    g.id = Some(3);
    g.error = Some("bad".to_string());
    let h = g.clone();
    assert_eq!(h.op, "x");
    assert_eq!(h.id, Some(3));
    assert_eq!(h.error.as_deref(), Some("bad"));
}

#[test]
fn bodies_are_read_as_written() {
    let mut stream: Vec<u8> = Vec::new();
    write_frame(&mut stream, b"{\"v\":1}").unwrap();
    write_frame(&mut stream, b"").unwrap();
    write_frame(&mut stream, b"abc").unwrap();
    assert_eq!(&stream[..4], &[7, 0, 0, 0]);
    let a = read_frame(&stream).unwrap_or_else(|e| panic!("{e}"));
    assert_eq!(a.body, b"{\"v\":1}");
    assert_eq!(a.used, 11);
    let b = read_frame(&stream[11..]).unwrap_or_else(|e| panic!("{e}"));
    assert_eq!(b.body, b"");
    assert_eq!(b.used, 4);
    let c = read_frame(&stream[15..]).unwrap_or_else(|e| panic!("{e}"));
    assert_eq!(c.body, b"abc");
    assert_eq!(encode_frame(b"abc").unwrap(), [3, 0, 0, 0, b'a', b'b', b'c']);
}

#[test]
fn cut_frames_are_refused() {
    let bytes = encode_frame(b"abc").unwrap();
    for n in 0..4 {
        assert_eq!(
            read_frame(&bytes[..n]).err().unwrap(),
            "read len: failed to fill whole buffer"
        );
    }
    for n in 4..7 {
        assert_eq!(
            read_frame(&bytes[..n]).err().unwrap(),
            "read body: failed to fill whole buffer"
        );
    }
}

#[test]
fn long_frames_are_refused() {
    let n = MAX_BODY_LEN as u32;
    assert_eq!(decode_len(&n.to_le_bytes(), "frame too large: ").unwrap(), MAX_BODY_LEN);
    assert_eq!(
        decode_len(&(n + 1).to_le_bytes(), "frame too large: ").unwrap_err(),
        "frame too large: 16777217"
    );
    assert_eq!(
        read_frame(&[0xff, 0xff, 0xff, 0xff, 1]).err().unwrap(),
        "frame len too large: 4294967295"
    );
}

#[test]
fn report_data_binds_key_and_nonce() {
    let bare = report_data_binding(0, b"", b"");
    assert_eq!(
        encode(&bare[..32]),
        "8150a65e854b9bbbd52eefd048eb025c76fe48f0475c0f942c9db9eda40a94c3"
    );
    assert_eq!(&bare[32..], &[0u8; 32]);
    let a = report_data_binding(1, b"key", b"nonce");
    assert_eq!(
        encode(&a[..32]),
        "d2ac7e2e40d9a53842c3898c7ac7c31cc92d063b3723304dbffccd7155bd6bd4"
    );
    assert_ne!(a, report_data_binding(2, b"key", b"nonce"));
    assert_ne!(a, report_data_binding(1, b"kez", b"nonce"));
    assert_ne!(a, report_data_binding(1, b"key", b"noncf"));
    assert_ne!(report_data_binding(1, b"ab", b"c"), report_data_binding(1, b"a", b"bc"));
}

#[test]
fn simple_binding_hashes_version_and_nonce_only() {
    let empty = report_data_from_nonce(b"");
    assert_eq!(
        encode(&empty[..32]),
        "47dc540c94ceb704a23875c11273e16bb0b8a87aed84de911f2133568115f254"
    );
    assert_eq!(&empty[32..], &[0u8; 32]);
    let a = report_data_from_nonce(b"nonce");
    assert_eq!(
        encode(&a[..32]),
        "2437e74a54284f06a25ac64c8e71073490c449421dc92709e187a520ba8808bd"
    );
    assert_eq!(&a[32..], &[0u8; 32]);
    assert_ne!(a, report_data_binding(0, b"", b"nonce"));
}

#[test]
fn attestation_cache_has_its_fields() {
    assert_eq!(
        attestation_cache_json("Q", 3, "P", Some("N"), Some("R"), 100, 2),
        r#"{"v":1,"quote_type":"ecdsa","quote":"Q","key_version":3,"public_key":"P","binding_nonce":"N","report_data":"R","generated_at":100,"expires_at":3700,"sequence":2}"#
    );
    assert_eq!(
        attestation_cache_json("", 0, "", None, None, u64::MAX, 0),
        r#"{"v":1,"quote_type":"ecdsa","quote":"","key_version":0,"public_key":"","generated_at":18446744073709551615,"expires_at":18446744073709551615,"sequence":0}"#
    );
}

#[test]
fn hex_is_read_back() {
    assert_eq!(encode(&[]), "");
    assert_eq!(encode(&[0x00, 0x0f, 0xa5, 0xff]), "000fa5ff");
    assert_eq!(hex_decode("000fa5ff").unwrap(), [0x00, 0x0f, 0xa5, 0xff]);
    assert_eq!(hex_decode("  000FA5fF\n").unwrap(), [0x00, 0x0f, 0xa5, 0xff]);
    assert_eq!(hex_decode("").unwrap(), Vec::<u8>::new());
    assert_eq!(hex_decode("+f").unwrap(), [0x0f]);
    assert_eq!(hex_decode("abc").unwrap_err(), "hex length must be even");
    let bad = "bad hex: invalid digit found in string";
    assert_eq!(hex_decode("zz").unwrap_err(), bad);
    assert_eq!(hex_decode("-f").unwrap_err(), bad);
    assert_eq!(hex_decode("f+").unwrap_err(), bad);
    assert_eq!(hex_decode("é").unwrap_err(), bad);
    assert_eq!(hex_decode("zzaéb").unwrap_err(), bad);
}

#[test]
fn hex_that_cuts_a_character_is_found() {
    assert!(is_readable("00ff"));
    assert!(is_readable("abc"));
    assert!(is_readable("é"));
    assert!(is_readable("zzaéb"));
    assert!(!is_readable("aéb"));
    assert!(!is_readable("00aéb"));
    assert!(!is_readable("语a"));
    assert!(is_readable("语"));
}

#[test]
fn results_are_those_of_the_table() {
    assert_eq!(compute(2, 3), 23);
    assert_eq!(compute(0, 10), 50);
    assert_eq!(compute(-1, 4), 19);
    assert_eq!(compute(10, 20), 1100);
    assert_eq!(compute(-2097152, 0), i64::MIN);
}

#[test]
fn results_that_do_not_fit_are_found() {
    assert_eq!(compute_checked(2, 3), Some(23));
    assert_eq!(compute_checked(2097151, 0), Some(9223358842721533951));
    assert_eq!(compute_checked(2097152, -1), None);
    assert_eq!(compute_checked(-2097152, -1), None);
    assert_eq!(compute_checked(-2097152, 1), Some(i64::MIN + 5));
    assert_eq!(compute_checked(0, i64::MAX / 5), Some(i64::MAX - 2));
    assert_eq!(compute_checked(0, i64::MAX / 5 + 1), None);
    assert_eq!(compute_checked(0, i64::MIN / 5), Some(i64::MIN + 3));
    assert_eq!(compute_checked(0, i64::MIN / 5 - 1), None);
    assert_eq!(compute_checked(2097151, i64::MAX / 5), None);
    assert_eq!(compute_checked(i64::MAX, 0), None);
    assert_eq!(compute_checked(i64::MIN, i64::MIN), None);
}

#[test]
fn inputs_are_read_back() {
    for (x, y) in [(2, 3), (0, 0), (-1, 4), (i64::MIN, i64::MAX), (i64::MAX, i64::MIN)] {
        assert_eq!(parse_xy_json(&xy_json(x, y)).unwrap(), (x, y));
    }
    assert_eq!(xy_json(2, 3), r#"{"x":2,"y":3}"#);
    assert_eq!(parse_xy_json("{\"y\": 3, \"x\":\n\t-4 }").unwrap(), (-4, 3));
    assert_eq!(parse_xy_json(r#""x":1"x":2"y":3"#).unwrap(), (1, 3));
    assert_eq!(parse_xy_json(r#""x":1.5,"y":2"#).unwrap(), (1, 2));
}

#[test]
fn inputs_that_are_missing_are_found() {
    assert_eq!(
        parse_xy_json(r#"{"y":3}"#).unwrap_err(),
        r#"missing x in plaintext: {"y":3}"#
    );
    assert_eq!(
        parse_xy_json(r#"{"x":3}"#).unwrap_err(),
        r#"missing y in plaintext: {"x":3}"#
    );
    assert_eq!(
        parse_xy_json(r#"{"x":9223372036854775808,"y":1}"#).unwrap_err(),
        r#"missing x in plaintext: {"x":9223372036854775808,"y":1}"#
    );
    assert_eq!(
        parse_xy_json(r#"{"x":1-2,"y":1}"#).unwrap_err(),
        r#"missing x in plaintext: {"x":1-2,"y":1}"#
    );
    assert_eq!(
        parse_xy_json(r#"{"x":+1,"y":1}"#).unwrap_err(),
        r#"missing x in plaintext: {"x":+1,"y":1}"#
    );
    assert_eq!(parse_xy_json("").unwrap_err(), "missing x in plaintext: ");
}

#[test]
fn integers_are_read_as_std_reads_them() {
    for s in [
        "0", "-0", "+0", "12", "-12", "+12", "", "-", "+", "--1", "+-1", "1-", "1a", " 1",
        "9223372036854775807", "9223372036854775808", "-9223372036854775808",
        "-9223372036854775809", "00000000000000000000000000012", "99999999999999999999", "１",
    ] {
        assert_eq!(parse_i64(&chars_of(s)), s.parse::<i64>().ok(), "{s}");
    }
}

fn line(s: &str) -> String {
    match respond(s) {
        Answer::Quit => "quit".to_string(),
        Answer::Skip => "skip".to_string(),
        Answer::Line(l) => l,
        Answer::Overflow => "overflow".to_string(),
    }
}

#[test]
fn lines_are_answered() {
    assert_eq!(line("2 3"), "RESULT=23");
    assert_eq!(line("  -1\t4 "), "RESULT=19");
    assert_eq!(line("0 10"), "RESULT=50");
    assert_eq!(line("10 20"), "RESULT=1100");
    assert_eq!(line("+1 -1"), "RESULT=-4");
    assert_eq!(line("quit"), "quit");
    assert_eq!(line(" exit "), "quit");
    assert_eq!(line("quit now"), "ERROR=bad_x");
    assert_eq!(line(""), "skip");
    assert_eq!(line(" \u{3000}\t"), "skip");
    assert_eq!(line("1"), "ERROR=bad_input");
    assert_eq!(line("1 2 3"), "ERROR=bad_input");
    assert_eq!(line("a 2"), "ERROR=bad_x");
    assert_eq!(line("1 b"), "ERROR=bad_y");
    assert_eq!(line("a b"), "ERROR=bad_x");
    assert_eq!(line("3000000 1"), "overflow");
}
