//! Whether an attestation is to be believed.

use vstd::prelude::*;

use crate::bytes::{copy, same_bytes};
use crate::frame::{Frame, FrameView};
use crate::hex::{self, hex_read, hex_text, law_hex_is_written_byte_by_byte, law_hex_read_back};
use crate::outside::{
    b64_decode, b64_encode, base64_read, base64_text, decodes_to, lowercase_text, quote_verdict,
    sha256, to_lowercase, verify_quote_allow_debug, Collateral, CollateralView, ReportView,
    VerifiedReport,
};
use crate::report_data::{
    binding_preimage, law_report_data_binds, report_data_binding, report_data_for,
};
use crate::text::{
    dec, dec_int, law_integers_are_written_in_decimal, lemma_dec_int_plain, lemma_said_under,
    push_u64, said_under, same_text, with_text,
};
use crate::views::{optional, outcome};

verus! {

/// The measurement of the enclave that a report speaks of, in hexadecimal.
pub open spec fn measurement_text(report: ReportView) -> Option<Seq<char>> {
    match report {
        Some((mr_enclave, _)) => Some(hex_text(mr_enclave)),
        None => None,
    }
}

/// The report data of the enclave that a report speaks of, in base64.
pub open spec fn report_data_text(report: ReportView) -> Option<Seq<char>> {
    match report {
        Some((_, report_data)) => Some(base64_text(report_data)),
        None => None,
    }
}

/// The measurement of the enclave that a report speaks of, in hexadecimal.
pub fn mrenclave_hex(report: &VerifiedReport) -> (out: Option<String>)
    ensures
        optional(out) == measurement_text(report@),
{
    match &report.sgx {
        Some(r) => Some(hex::encode(r.mr_enclave.as_slice())),
        None => None,
    }
}

/// The report data of the enclave that a report speaks of, in base64.
pub fn report_data_b64(report: &VerifiedReport) -> (out: Option<String>)
    ensures
        optional(out) == report_data_text(report@),
{
    match &report.sgx {
        Some(r) => Some(b64_encode(r.report_data.as_slice())),
        None => None,
    }
}

/// What is said of a report that vouches for something else than it should.
pub open spec fn binding_failed(expected: Seq<u8>, actual: Seq<u8>) -> Seq<char> {
    "REPORTDATA binding failed (Host may have swapped public_key)\nexpected: "@ + base64_text(
        expected,
    ) + "\nactual:   "@ + base64_text(actual)
}

/// What is said of a report of another enclave than expected.
pub open spec fn mrenclave_mismatch(expected: Seq<char>, actual: Seq<char>) -> Seq<char> {
    "MRENCLAVE mismatch: expected "@ + expected + ", got "@ + actual
}

/// What checking a verified report gives: nothing, or what is wrong with it. It has to be of an SGX
/// enclave, of the expected one if one is expected, the nonce that came with it has to be the
/// client's, and its report data has to bind key version, key and nonce.
pub open spec fn checked(
    report: ReportView,
    public_key_b64: Seq<char>,
    key_version: u64,
    client_nonce: Seq<u8>,
    binding_nonce_b64: Seq<char>,
    expected_mrenclave: Option<Seq<char>>,
) -> Result<(), Seq<char>> {
    match report {
        None => Err("no SGX enclave report"@),
        Some((mr_enclave, report_data)) => if expected_mrenclave matches Some(expected)
            && hex_text(mr_enclave) != lowercase_text(expected) {
            Err(
                mrenclave_mismatch(
                    lowercase_text(expected_mrenclave->0),
                    hex_text(mr_enclave),
                ),
            )
        } else {
            match (base64_read(binding_nonce_b64), base64_read(public_key_b64)) {
                (Err(e), _) => Err(e),
                (Ok(binding), key) => if binding != client_nonce {
                    Err("binding_nonce does not match Client challenge nonce"@)
                } else {
                    match key {
                        Err(e) => Err(e),
                        Ok(public_key) => {
                            let wanted = report_data_for(key_version, public_key, client_nonce);
                            if report_data != wanted {
                                Err(binding_failed(wanted, report_data))
                            } else {
                                Ok(())
                            }
                        },
                    }
                },
            }
        },
    }
}

/// Checks a verified report against what the client asked for.
pub fn check_attestation(
    verified: &VerifiedReport,
    public_key_b64: &str,
    key_version: u64,
    client_nonce: &[u8],
    binding_nonce_b64: &str,
    expected_mrenclave: Option<&str>,
) -> (out: Result<(), String>)
    ensures
        outcome(out) == checked(
            verified@,
            public_key_b64@,
            key_version,
            client_nonce@,
            binding_nonce_b64@,
            optional(expected_mrenclave),
        ),
{
    let mrenclave = match mrenclave_hex(verified) {
        Some(m) => m,
        None => return Err("no SGX enclave report".to_owned()),
    };
    match expected_mrenclave {
        Some(expected) => {
            let exp = to_lowercase(expected);
            if !same_text(mrenclave.as_str(), exp.as_str()) {
                let mut text = with_text("MRENCLAVE mismatch: expected ", exp.as_str());
                text.append(", got ");
                text.append(mrenclave.as_str());
                return Err(text);
            }
        },
        None => {},
    }
    let binding = match b64_decode(binding_nonce_b64) {
        Ok(b) => b,
        Err(e) => return Err(e),
    };
    if !same_bytes(binding.as_slice(), client_nonce) {
        return Err("binding_nonce does not match Client challenge nonce".to_owned());
    }
    let public_key = match b64_decode(public_key_b64) {
        Ok(k) => k,
        Err(e) => return Err(e),
    };
    let wanted = report_data_binding(key_version, public_key.as_slice(), client_nonce);
    let rd_b64 = match report_data_b64(verified) {
        Some(r) => r,
        None => return Err("no report_data".to_owned()),
    };
    let report_data = match &verified.sgx {
        Some(r) => copy(r.report_data.as_slice()),
        None => return Err("no report_data".to_owned()),
    };
    if !same_bytes(report_data.as_slice(), wanted.as_slice()) {
        let mut text = with_text(
            "REPORTDATA binding failed (Host may have swapped public_key)\nexpected: ",
            b64_encode(wanted.as_slice()).as_str(),
        );
        text.append("\nactual:   ");
        text.append(rd_b64.as_str());
        return Err(text);
    }
    Ok(())
}

/// What verifying an attestation gives: the report, or why it is not to be believed.
pub open spec fn attestation_verdict(
    quote_b64: Seq<char>,
    public_key_b64: Seq<char>,
    key_version: u64,
    client_nonce: Seq<u8>,
    binding_nonce_b64: Seq<char>,
    expected_mrenclave: Option<Seq<char>>,
    collateral: CollateralView,
    now: u64,
) -> Result<ReportView, Seq<char>> {
    match base64_read(quote_b64) {
        Err(e) => Err(e),
        Ok(quote) => match quote_verdict(quote, collateral, now) {
            Err(e) => Err(e),
            Ok(report) => match checked(
                report,
                public_key_b64,
                key_version,
                client_nonce,
                binding_nonce_b64,
                expected_mrenclave,
            ) {
                Err(e) => Err(e),
                Ok(_) => Ok(report),
            },
        },
    }
}

/// Verifies an attestation:
///
/// 1. the quote, against the collateral, at the given time;
/// 2. the measurement, where one is expected;
/// 3. the nonce that came with it, which must be the one of this challenge;
/// 4. the report data, which must bind nonce, public key and key version.
pub fn verify_attestation(
    quote_b64: &str,
    public_key_b64: &str,
    key_version: u64,
    client_nonce: &[u8],
    binding_nonce_b64: &str,
    expected_mrenclave: Option<&str>,
    collateral: &Collateral,
    now: u64,
) -> (out: Result<VerifiedReport, String>)
    ensures
        outcome(out) == attestation_verdict(
            quote_b64@,
            public_key_b64@,
            key_version,
            client_nonce@,
            binding_nonce_b64@,
            optional(expected_mrenclave),
            collateral@,
            now,
        ),
{
    let quote = match b64_decode(quote_b64) {
        Ok(q) => q,
        Err(e) => return Err(e),
    };
    let verified = match verify_quote_allow_debug(quote.as_slice(), collateral, now) {
        Ok(v) => v,
        Err(e) => return Err(e),
    };
    match check_attestation(
        &verified,
        public_key_b64,
        key_version,
        client_nonce,
        binding_nonce_b64,
        expected_mrenclave,
    ) {
        Ok(_) => Ok(verified),
        Err(e) => Err(e),
    }
}

/// A report that passes is of an SGX enclave, of the expected one if one is expected, and vouches
/// for exactly this key version, key and nonce.
pub proof fn law_accepted_report_vouches_for_the_key(
    report: ReportView,
    public_key_b64: Seq<char>,
    key_version: u64,
    client_nonce: Seq<u8>,
    binding_nonce_b64: Seq<char>,
    expected_mrenclave: Option<Seq<char>>,
)
    ensures
        checked(
            report,
            public_key_b64,
            key_version,
            client_nonce,
            binding_nonce_b64,
            expected_mrenclave,
        ) is Ok <==> {
            &&& report matches Some((mr_enclave, report_data))
            &&& (expected_mrenclave matches Some(e) ==> hex_text(mr_enclave) == lowercase_text(e))
            &&& base64_read(binding_nonce_b64) matches Ok(binding)
            &&& binding == client_nonce
            &&& base64_read(public_key_b64) matches Ok(public_key)
            &&& report_data == report_data_for(key_version, public_key, client_nonce)
        },
{
}

/// A report that an enclave made for one key version, key and nonce does not pass for others,
/// unless SHA-256 has a collision: a host that swaps the key, or replays an old quote, is found out.
pub proof fn law_swapped_key_is_found_out(
    report: ReportView,
    made_version: u64,
    made_key: Seq<u8>,
    made_nonce: Seq<u8>,
    public_key_b64: Seq<char>,
    key_version: u64,
    client_nonce: Seq<u8>,
    binding_nonce_b64: Seq<char>,
    expected_mrenclave: Option<Seq<char>>,
)
    requires
        report matches Some((_, report_data)) && report_data == report_data_for(
            made_version,
            made_key,
            made_nonce,
        ),
        made_key.len() < 0x1_0000,
        made_nonce.len() < 0x100,
        base64_read(public_key_b64) matches Ok(public_key) && public_key.len() < 0x1_0000,
        client_nonce.len() < 0x100,
        key_version != made_version || base64_read(public_key_b64)->Ok_0 != made_key || client_nonce
            != made_nonce,
    ensures
        checked(
            report,
            public_key_b64,
            key_version,
            client_nonce,
            binding_nonce_b64,
            expected_mrenclave,
        ) is Ok ==> {
            let made = binding_preimage(made_version, made_key, made_nonce);
            let claimed = binding_preimage(
                key_version,
                base64_read(public_key_b64)->Ok_0,
                client_nonce,
            );
            made != claimed && sha256(made) == sha256(claimed)
        },
{
    let public_key = base64_read(public_key_b64)->Ok_0;
    if checked(
        report,
        public_key_b64,
        key_version,
        client_nonce,
        binding_nonce_b64,
        expected_mrenclave,
    ) is Ok {
        law_report_data_binds(
            made_version,
            made_key,
            made_nonce,
            key_version,
            public_key,
            client_nonce,
        );
    }
}

/// What of a frame an attestation is verified with.
pub struct Evidence {
    pub quote: Vec<u8>,
    pub nonce: Vec<u8>,
}

impl View for Evidence {
    type V = (Seq<u8>, Seq<u8>);

    open spec fn view(&self) -> (Seq<u8>, Seq<u8>) {
        (self.quote@, self.nonce@)
    }
}

/// The quote of a frame and the nonce that it is held to: the client's or, where the client gave
/// none, the one that the frame itself names.
pub open spec fn evidence(frame: FrameView, client_nonce: Option<Seq<u8>>) -> Result<
    (Seq<u8>, Seq<u8>),
    Seq<char>,
> {
    match (frame.quote, frame.public_key, frame.binding_nonce) {
        (None, _, _) => Err("missing quote"@),
        (Some(_), None, _) => Err("missing public_key"@),
        (Some(_), Some(_), None) => Err("missing binding_nonce"@),
        (Some(quote), Some(_), Some(binding)) => {
            let nonce: Result<Seq<u8>, Seq<char>> = match client_nonce {
                Some(n) => Ok(n),
                None => base64_read(binding),
            };
            match (nonce, base64_read(quote)) {
                (Err(e), _) => Err(e),
                (Ok(_), Err(e)) => Err(e),
                (Ok(n), Ok(q)) => Ok((q, n)),
            }
        },
    }
}

/// Takes from a frame what collateral is fetched and an attestation is verified with.
pub fn evidence_of(frame: &Frame, client_nonce: Option<&[u8]>) -> (out: Result<Evidence, String>)
    ensures
        outcome(out) == evidence(frame@, optional(client_nonce)),
{
    let quote_b64 = match &frame.quote {
        Some(q) => q,
        None => return Err("missing quote".to_owned()),
    };
    if frame.public_key.is_none() {
        return Err("missing public_key".to_owned());
    }
    let binding = match &frame.binding_nonce {
        Some(b) => b,
        None => return Err("missing binding_nonce".to_owned()),
    };
    let nonce = match client_nonce {
        Some(n) => copy(n),
        None => match b64_decode(binding.as_str()) {
            Ok(n) => n,
            Err(e) => return Err(e),
        },
    };
    match b64_decode(quote_b64.as_str()) {
        Ok(quote) => Ok(Evidence { quote, nonce }),
        Err(e) => Err(e),
    }
}

/// What is printed of an attestation that was verified.
pub open spec fn verified_lines(
    mr_enclave: Seq<u8>,
    report_data: Seq<u8>,
    key_version: u64,
    public_key_b64: Seq<char>,
) -> Seq<char> {
    "MRENCLAVE="@ + hex_text(mr_enclave) + "\nREPORTDATA="@ + base64_text(report_data)
        + "\nKEY_VERSION="@ + dec(key_version as nat) + "\nPUBLIC_KEY="@ + public_key_b64
        + "\nREPORTDATA_BINDING_OK\nQUOTE_VERIFY_OK\n"@
}

/// What verifying the attestation in a frame gives: what is printed of it, or why it is not to be
/// believed.
pub open spec fn frame_verdict(
    frame: FrameView,
    client_nonce: Option<Seq<u8>>,
    expected_mrenclave: Option<Seq<char>>,
    collateral: CollateralView,
    now: u64,
) -> Result<Seq<char>, Seq<char>> {
    match evidence(frame, client_nonce) {
        Err(e) => Err(e),
        Ok((_, nonce)) => {
            let key_version = frame.key_version.unwrap_or(0);
            match attestation_verdict(
                frame.quote->0,
                frame.public_key->0,
                key_version,
                nonce,
                frame.binding_nonce->0,
                expected_mrenclave,
                collateral,
                now,
            ) {
                Err(e) => Err(e),
                Ok(report) => Ok(
                    verified_lines((report->0).0, (report->0).1, key_version, frame.public_key->0),
                ),
            }
        },
    }
}

/// Verifies the attestation in a frame: what is to be printed of it, or why it is not to be
/// believed.
pub fn verify_attestation_frame(
    frame: &Frame,
    client_nonce: Option<&[u8]>,
    expected_mrenclave: Option<&str>,
    collateral: &Collateral,
    now: u64,
) -> (out: Result<String, String>)
    ensures
        outcome(out) == frame_verdict(
            frame@,
            optional(client_nonce),
            optional(expected_mrenclave),
            collateral@,
            now,
        ),
{
    let evidence = match evidence_of(frame, client_nonce) {
        Ok(e) => e,
        Err(e) => return Err(e),
    };
    let (quote_b64, pk_b64, binding) = match (&frame.quote, &frame.public_key, &frame.binding_nonce) {
        (Some(q), Some(p), Some(b)) => (q, p, b),
        _ => return Err("missing quote".to_owned()),
    };
    let key_version: u64 = match frame.key_version {
        Some(v) => v,
        None => 0,
    };
    let verified = match verify_attestation(
        quote_b64.as_str(),
        pk_b64.as_str(),
        key_version,
        evidence.nonce.as_slice(),
        binding.as_str(),
        expected_mrenclave,
        collateral,
        now,
    ) {
        Ok(v) => v,
        Err(e) => return Err(e),
    };
    let mrenclave = match mrenclave_hex(&verified) {
        Some(m) => m,
        None => return Err("no SGX enclave report".to_owned()),
    };
    let report_data = match report_data_b64(&verified) {
        Some(r) => r,
        None => return Err("no report_data".to_owned()),
    };
    let mut lines = with_text("MRENCLAVE=", mrenclave.as_str());
    lines.append("\nREPORTDATA=");
    lines.append(report_data.as_str());
    lines.append("\nKEY_VERSION=");
    push_u64(&mut lines, key_version);
    lines.append("\nPUBLIC_KEY=");
    lines.append(pk_b64.as_str());
    lines.append("\nREPORTDATA_BINDING_OK\nQUOTE_VERIFY_OK\n");
    Ok(lines)
}

/// What is printed of a report can be read back: the measurement from its hexadecimal, the report
/// data from its base64. A report of no SGX enclave has neither.
pub proof fn law_report_is_read_back(mr_enclave: Seq<u8>, report_data: Seq<u8>)
    requires
        decodes_to(base64_text(report_data), report_data),
    ensures
        measurement_text(Some((mr_enclave, report_data))) matches Some(t) && hex_read(t) == Ok::<
            Seq<u8>,
            Seq<char>,
        >(mr_enclave) && t.len() == 2 * mr_enclave.len(),
        report_data_text(Some((mr_enclave, report_data))) matches Some(t) && base64_read(t) == Ok::<
            Seq<u8>,
            Seq<char>,
        >(report_data),
        measurement_text(None) is None && report_data_text(None) is None,
{
    law_hex_read_back(mr_enclave);
}

/// The measurement is on one line.
proof fn lemma_measurement_on_one_line(mr_enclave: Seq<u8>)
    ensures
        !hex_text(mr_enclave).contains('\n'),
{
    let t = hex_text(mr_enclave);
    if t.contains('\n') {
        let i = choose|i: int| 0 <= i < t.len() && t[i] == '\n';
        law_hex_is_written_byte_by_byte(mr_enclave, 0);
        reveal_strlit("0123456789abcdef");
        assert("0123456789abcdef"@.contains(t[i]));
    }
}

/// An attestation that is accepted is printed as it was verified. The text starts with the line
/// `MRENCLAVE=` and the measurement in the quote, in small hexadecimal digits that read back to it;
/// where one was expected it is the expected one in lower case. Then come the report data in the
/// quote, the version and the key in the frame, and that both checks went well.
pub proof fn law_verified_attestation_is_printed(
    frame: FrameView,
    client_nonce: Option<Seq<u8>>,
    expected_mrenclave: Option<Seq<char>>,
    collateral: CollateralView,
    now: u64,
    quote: Seq<u8>,
    mr_enclave: Seq<u8>,
    report_data: Seq<u8>,
)
    requires
        frame_verdict(frame, client_nonce, expected_mrenclave, collateral, now) is Ok,
        base64_read(frame.quote->0) == Ok::<Seq<u8>, Seq<char>>(quote),
        quote_verdict(quote, collateral, now) == Ok::<ReportView, Seq<char>>(
            Some((mr_enclave, report_data)),
        ),
    ensures
        ({
            let text = frame_verdict(
                frame,
                client_nonce,
                expected_mrenclave,
                collateral,
                now,
            )->Ok_0;
            let version: int = match frame.key_version {
                Some(v) => v as int,
                None => 0,
            };
            &&& said_under(text, "MRENCLAVE"@) matches Some(h)
            &&& hex_read(h) == Ok::<Seq<u8>, Seq<char>>(mr_enclave)
            &&& h.len() == 2 * mr_enclave.len()
            &&& (expected_mrenclave matches Some(e) ==> h == lowercase_text(e))
            &&& text == "MRENCLAVE="@ + h + "\nREPORTDATA="@ + base64_text(report_data)
                + "\nKEY_VERSION="@ + dec_int(version) + "\nPUBLIC_KEY="@ + frame.public_key->0
                + "\nREPORTDATA_BINDING_OK\nQUOTE_VERIFY_OK\n"@
            &&& (!base64_text(report_data).contains('\n') ==> said_under(text, "REPORTDATA"@) == Some(
                base64_text(report_data),
            ) && said_under(text, "KEY_VERSION"@) == Some(dec_int(version)))
        }),
{
    let version: int = match frame.key_version {
        Some(v) => v as int,
        None => 0,
    };
    let h = hex_text(mr_enclave);
    law_hex_read_back(mr_enclave);
    lemma_measurement_on_one_line(mr_enclave);
    law_integers_are_written_in_decimal(version);
    lemma_dec_int_plain(version, '\n');
    lemma_verified_said(
        h,
        base64_text(report_data),
        dec_int(version),
        frame.public_key->0,
    );
}

/// What the lines of a verified attestation say.
proof fn lemma_verified_said(h: Seq<char>, r: Seq<char>, d: Seq<char>, key: Seq<char>)
    requires
        !h.contains('\n') && !d.contains('\n'),
    ensures
        ({
            let text = "MRENCLAVE="@ + h + "\nREPORTDATA="@ + r + "\nKEY_VERSION="@ + d
                + "\nPUBLIC_KEY="@ + key + "\nREPORTDATA_BINDING_OK\nQUOTE_VERIFY_OK\n"@;
            &&& said_under(text, "MRENCLAVE"@) == Some(h)
            &&& (!r.contains('\n') ==> said_under(text, "REPORTDATA"@) == Some(r) && said_under(
                text,
                "KEY_VERSION"@,
            ) == Some(d))
        }),
{
    let text = "MRENCLAVE="@ + h + "\nREPORTDATA="@ + r + "\nKEY_VERSION="@ + d + "\nPUBLIC_KEY="@
        + key + "\nREPORTDATA_BINDING_OK\nQUOTE_VERIFY_OK\n"@;
    let tail = "PUBLIC_KEY="@ + key + "\nREPORTDATA_BINDING_OK\nQUOTE_VERIFY_OK\n"@;
    let l3 = "KEY_VERSION"@ + seq!['='] + d + seq!['\n'] + tail;
    let l2 = "REPORTDATA"@ + seq!['='] + r + seq!['\n'] + l3;
    let l1 = "MRENCLAVE"@ + seq!['='] + h + seq!['\n'] + l2;
    assert(text == l1) by {
        reveal_strlit("MRENCLAVE=");
        reveal_strlit("MRENCLAVE");
        reveal_strlit("\nREPORTDATA=");
        reveal_strlit("REPORTDATA");
        reveal_strlit("\nKEY_VERSION=");
        reveal_strlit("KEY_VERSION");
        reveal_strlit("\nPUBLIC_KEY=");
        reveal_strlit("PUBLIC_KEY=");
        assert(text =~= l1);
    }
    assert("MRENCLAVE"@.len() == 9 && "MRENCLAVE"@[0] == 'M' && !"MRENCLAVE"@.contains('\n')
        && "REPORTDATA"@.len() == 10 && "REPORTDATA"@[0] == 'R' && !"REPORTDATA"@.contains('\n')
        && "KEY_VERSION"@.len() == 11 && "KEY_VERSION"@[0] == 'K' && !"KEY_VERSION"@.contains(
        '\n',
    )) by {
        reveal_strlit("MRENCLAVE");
        reveal_strlit("REPORTDATA");
        reveal_strlit("KEY_VERSION");
    }
    lemma_said_under("MRENCLAVE"@, h, l2, "MRENCLAVE"@);
    lemma_said_under("MRENCLAVE"@, h, l2, "REPORTDATA"@);
    lemma_said_under("MRENCLAVE"@, h, l2, "KEY_VERSION"@);
    if !r.contains('\n') {
        lemma_said_under("REPORTDATA"@, r, l3, "REPORTDATA"@);
        lemma_said_under("REPORTDATA"@, r, l3, "KEY_VERSION"@);
        lemma_said_under("KEY_VERSION"@, d, tail, "KEY_VERSION"@);
    }
}

/// Why a report is refused, in the order in which it is looked at: it is of no SGX enclave; of
/// another than the expected one; the nonce with it cannot be read, or is not the client's; the key
/// cannot be read; the report data binds something else.
pub proof fn law_refused_reports_are_told_why(
    report: ReportView,
    public_key_b64: Seq<char>,
    key_version: u64,
    client_nonce: Seq<u8>,
    binding_nonce_b64: Seq<char>,
    expected_mrenclave: Option<Seq<char>>,
)
    ensures
        ({
            let out = checked(
                report,
                public_key_b64,
                key_version,
                client_nonce,
                binding_nonce_b64,
                expected_mrenclave,
            );
            match report {
                None => out == Err::<(), Seq<char>>("no SGX enclave report"@),
                Some((mr_enclave, report_data)) => {
                    let other = expected_mrenclave matches Some(e) && hex_text(mr_enclave)
                        != lowercase_text(e);
                    let binding = base64_read(binding_nonce_b64);
                    let key = base64_read(public_key_b64);
                    &&& (other ==> out == Err::<(), Seq<char>>(
                        "MRENCLAVE mismatch: expected "@ + lowercase_text(expected_mrenclave->0)
                            + ", got "@ + hex_text(mr_enclave),
                    ))
                    &&& (!other && binding is Err ==> out == Err::<(), Seq<char>>(binding->Err_0))
                    &&& (!other && binding is Ok && binding->Ok_0 != client_nonce ==> out == Err::<
                        (),
                        Seq<char>,
                    >("binding_nonce does not match Client challenge nonce"@))
                    &&& (!other && binding == Ok::<Seq<u8>, Seq<char>>(client_nonce) && key is Err
                        ==> out == Err::<(), Seq<char>>(key->Err_0))
                    &&& (!other && binding == Ok::<Seq<u8>, Seq<char>>(client_nonce) && key is Ok
                        && report_data != report_data_for(key_version, key->Ok_0, client_nonce)
                        ==> out == Err::<(), Seq<char>>(
                        "REPORTDATA binding failed (Host may have swapped public_key)\nexpected: "@
                            + base64_text(report_data_for(key_version, key->Ok_0, client_nonce))
                            + "\nactual:   "@ + base64_text(report_data),
                    ))
                },
            }
        }),
{
}

/// A quote that cannot be read, or that does not verify, is refused for just that, before anything
/// else is looked at; and a report is what it says only if the quote verifies.
pub proof fn law_quote_comes_first(
    quote_b64: Seq<char>,
    public_key_b64: Seq<char>,
    key_version: u64,
    client_nonce: Seq<u8>,
    binding_nonce_b64: Seq<char>,
    expected_mrenclave: Option<Seq<char>>,
    collateral: CollateralView,
    now: u64,
)
    ensures
        ({
            let out = attestation_verdict(
                quote_b64,
                public_key_b64,
                key_version,
                client_nonce,
                binding_nonce_b64,
                expected_mrenclave,
                collateral,
                now,
            );
            &&& (base64_read(quote_b64) matches Err(e) ==> out == Err::<ReportView, Seq<char>>(e))
            &&& (base64_read(quote_b64) matches Ok(q) ==> match quote_verdict(q, collateral, now) {
                Err(e) => out == Err::<ReportView, Seq<char>>(e),
                Ok(report) => match checked(
                    report,
                    public_key_b64,
                    key_version,
                    client_nonce,
                    binding_nonce_b64,
                    expected_mrenclave,
                ) {
                    Ok(_) => out == Ok::<ReportView, Seq<char>>(report),
                    Err(e) => out == Err::<ReportView, Seq<char>>(e),
                },
            })
        }),
{
}

/// An attestation in a frame is looked at only if quote, key and nonce are there and can be read;
/// the nonce that it is held to is the client's, or, where the client gave none, the frame's own.
pub proof fn law_evidence_is_complete(
    frame: FrameView,
    client_nonce: Option<Seq<u8>>,
    expected_mrenclave: Option<Seq<char>>,
    collateral: CollateralView,
    now: u64,
)
    ensures
        evidence(frame, client_nonce) matches Ok((quote, nonce)) ==> {
            &&& frame.quote is Some && frame.public_key is Some && frame.binding_nonce is Some
            &&& base64_read(frame.quote->0) == Ok::<Seq<u8>, Seq<char>>(quote)
            &&& (client_nonce matches Some(n) ==> nonce == n)
            &&& (client_nonce is None ==> base64_read(frame.binding_nonce->0) == Ok::<
                Seq<u8>,
                Seq<char>,
            >(nonce))
        },
        frame.quote is None ==> evidence(frame, client_nonce) == Err::<
            (Seq<u8>, Seq<u8>),
            Seq<char>,
        >("missing quote"@),
        frame.quote is Some && frame.public_key is None ==> evidence(frame, client_nonce) == Err::<
            (Seq<u8>, Seq<u8>),
            Seq<char>,
        >("missing public_key"@),
        frame.quote is Some && frame.public_key is Some && frame.binding_nonce is None ==> evidence(
            frame,
            client_nonce,
        ) == Err::<(Seq<u8>, Seq<u8>), Seq<char>>("missing binding_nonce"@),
        frame.quote is Some && frame.public_key is Some && frame.binding_nonce is Some
            && base64_read(frame.quote->0) is Ok && (client_nonce is Some || base64_read(
            frame.binding_nonce->0,
        ) is Ok) ==> evidence(frame, client_nonce) is Ok,
        frame.quote is Some && frame.public_key is Some && frame.binding_nonce is Some
            && client_nonce is None ==> (base64_read(frame.binding_nonce->0) matches Err(e)
            ==> evidence(frame, client_nonce) == Err::<(Seq<u8>, Seq<u8>), Seq<char>>(e)),
        frame.quote is Some && frame.public_key is Some && frame.binding_nonce is Some && (
        client_nonce is Some || base64_read(frame.binding_nonce->0) is Ok) ==> (base64_read(
            frame.quote->0,
        ) matches Err(e) ==> evidence(frame, client_nonce) == Err::<
            (Seq<u8>, Seq<u8>),
            Seq<char>,
        >(e)),
        evidence(frame, client_nonce) matches Err(e) ==> frame_verdict(
            frame,
            client_nonce,
            expected_mrenclave,
            collateral,
            now,
        ) == Err::<Seq<char>, Seq<char>>(e),
{
}

} // verus!
