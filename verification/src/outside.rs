//! The calls into other crates, each behind a function that says what is relied on.

use aes_gcm::aead::{Aead, KeyInit};
use base64::Engine;
use dcap_qvl::quote::Report;
use dcap_qvl::verify::QuoteVerifier;
use dcap_qvl::QuoteCollateralV3;
use hpke::kem::DhP256HkdfSha256;
use hpke::{Deserializable, Kem, Serializable};
use sha2::Digest;
use vstd::prelude::*;
use vstd::utf8::{decode_utf8, is_ascii_chars, valid_utf8};

use crate::text::dec;
use crate::views::outcome;

verus! {

/// The text that `base64::engine::general_purpose::STANDARD.encode` makes of bytes.
pub uninterp spec fn base64_text(bytes: Seq<u8>) -> Seq<char>;

/// What `base64::engine::general_purpose::STANDARD.decode` makes of a text: the bytes, or what the
/// error says.
pub uninterp spec fn base64_read(text: Seq<char>) -> Result<Seq<u8>, Seq<char>>;

/// Whether decoding a text gives these bytes.
pub open spec fn decodes_to(text: Seq<char>, bytes: Seq<u8>) -> bool {
    base64_read(text) matches Ok(b) && b == bytes
}

/// `Engine::encode` of the standard base64 alphabet with padding. Its result is a function of the
/// bytes, four characters of ASCII for each three bytes begun, and decoding gives the bytes back.
#[verifier::external_body]
pub fn b64_encode(bytes: &[u8]) -> (text: String)
    ensures
        text@ == base64_text(bytes@),
        text@.len() == 4 * ((bytes@.len() + 2) / 3),
        is_ascii_chars(text@),
        decodes_to(text@, bytes@),
{
    base64::engine::general_purpose::STANDARD.encode(bytes)
}

/// `Engine::decode` of the standard base64 alphabet with padding. Its result, and the text of its
/// error, are functions of the text.
#[verifier::external_body]
pub fn b64_decode(text: &str) -> (out: Result<Vec<u8>, String>)
    ensures
        outcome(out) == base64_read(text@),
{
    base64::engine::general_purpose::STANDARD.decode(text).map_err(|e| e.to_string())
}

/// The SHA-256 digest of bytes.
pub uninterp spec fn sha256(bytes: Seq<u8>) -> Seq<u8>;

/// `sha2::Sha256::digest`: 32 bytes that depend on the given bytes alone.
#[verifier::external_body]
pub(crate) fn sha256_digest(bytes: &[u8]) -> (out: [u8; 32])
    ensures
        out@ == sha256(bytes@),
{
    sha2::Sha256::digest(bytes).into()
}

/// What `Aes128Gcm::encrypt` makes of a plaintext under a key and a nonce, if it accepts it.
pub uninterp spec fn aes_sealed(key: Seq<u8>, nonce: Seq<u8>, plaintext: Seq<u8>) -> Option<Seq<u8>>;

/// What `Aes128Gcm::decrypt` makes of a ciphertext under a key and a nonce, if it accepts it.
pub uninterp spec fn aes_opened(key: Seq<u8>, nonce: Seq<u8>, ciphertext: Seq<u8>) -> Option<
    Seq<u8>,
>;

/// The longest input that AES-GCM takes, in bytes.
pub open spec fn gcm_limit() -> nat {
    0x10_0000_0000
}

/// Whether a plaintext and the data that goes with it are short enough for AES-GCM.
pub open spec fn within_gcm_limit(plaintext: Seq<u8>, aad: Seq<u8>) -> bool {
    plaintext.len() <= gcm_limit() && aad.len() <= gcm_limit()
}

/// `aes_gcm::Aes128Gcm::encrypt` with no associated data: refuses only a plaintext over the limit
/// of GCM, appends a tag of 16 bytes, and decrypting gives the plaintext back.
#[verifier::external_body]
pub(crate) fn aes_encrypt(key: &[u8; 16], nonce: &[u8; 12], plaintext: &[u8]) -> (out: Option<
    Vec<u8>,
>)
    ensures
        out is Some <==> plaintext@.len() <= gcm_limit(),
        match out {
            Some(ct) => {
                &&& aes_sealed(key@, nonce@, plaintext@) == Some(ct@)
                &&& ct@.len() == plaintext@.len() + 16
                &&& aes_opened(key@, nonce@, ct@) == Some(plaintext@)
            },
            None => aes_sealed(key@, nonce@, plaintext@) is None,
        },
{
    aes_gcm::Aes128Gcm::new(key.into()).encrypt(nonce.into(), plaintext).ok()
}

/// `aes_gcm::Aes128Gcm::decrypt` with no associated data: its result is a function of key, nonce
/// and ciphertext, and a plaintext is 16 bytes shorter than its ciphertext.
#[verifier::external_body]
pub(crate) fn aes_decrypt(key: &[u8; 16], nonce: &[u8; 12], ciphertext: &[u8]) -> (out: Option<
    Vec<u8>,
>)
    ensures
        match out {
            Some(pt) => {
                &&& aes_opened(key@, nonce@, ciphertext@) == Some(pt@)
                &&& pt@.len() + 16 == ciphertext@.len()
            },
            None => aes_opened(key@, nonce@, ciphertext@) is None,
        },
{
    aes_gcm::Aes128Gcm::new(key.into()).decrypt(nonce.into(), ciphertext).ok()
}

/// `getrandom::getrandom`: bytes from the operating system, or what its error says. Which bytes
/// come, and whether any do, rests on chance and on the machine.
#[verifier::external_body]
pub(crate) fn random_bytes<const N: usize>() -> (out: Result<[u8; N], String>) {
    let mut buf = [0u8; N];
    match getrandom::getrandom(&mut buf) {
        Ok(()) => Ok(buf),
        Err(e) => Err(e.to_string()),
    }
}

/// Whether `PublicKey::from_bytes` of HPKE's P-256 KEM accepts 65 bytes.
pub uninterp spec fn hpke_public_key(bytes: Seq<u8>) -> bool;

/// Whether `PrivateKey::from_bytes` of HPKE's P-256 KEM accepts 32 bytes.
pub uninterp spec fn hpke_private_key(bytes: Seq<u8>) -> bool;

/// Whether `EncappedKey::from_bytes` of HPKE's P-256 KEM accepts 65 bytes.
pub uninterp spec fn hpke_encapped_key(bytes: Seq<u8>) -> bool;

/// What `Kem::sk_to_pk` of HPKE's P-256 KEM makes of a private key.
pub uninterp spec fn hpke_public_of(private_key: Seq<u8>) -> Seq<u8>;

/// What `hpke::single_shot_open` makes of a ciphertext in base mode with P-256, HKDF-SHA256 and
/// AES-GCM-128, if it accepts it.
pub uninterp spec fn hpke_opened(
    private_key: Seq<u8>,
    enc: Seq<u8>,
    info: Seq<u8>,
    ciphertext: Seq<u8>,
    aad: Seq<u8>,
) -> Option<Seq<u8>>;

/// What an error says of an input that has `got` bytes in place of `want`.
pub open spec fn wrong_length_text(want: nat, got: nat) -> Seq<char> {
    "Incorrect input length. Expected "@ + dec(want) + " bytes. Got "@ + dec(got) + "."@
}

/// What a key parser answers: an error about the length, then one about the value.
pub open spec fn key_verdict(want: nat, bytes: Seq<u8>, valid: bool) -> Result<(), Seq<char>> {
    if bytes.len() != want {
        Err(wrong_length_text(want, bytes.len()))
    } else if !valid {
        Err("Input value is invalid"@)
    } else {
        Ok(())
    }
}

/// `PublicKey::from_bytes` of HPKE's P-256 KEM: takes 65 bytes, and of those the ones that it
/// finds to be a point.
#[verifier::external_body]
pub(crate) fn hpke_check_public_key(bytes: &[u8]) -> (out: Result<(), String>)
    ensures
        outcome(out) == key_verdict(65, bytes@, hpke_public_key(bytes@)),
{
    <DhP256HkdfSha256 as Kem>::PublicKey::from_bytes(bytes).map(|_| ()).map_err(|e| e.to_string())
}

/// `PrivateKey::from_bytes` of HPKE's P-256 KEM: takes 32 bytes, and of those the ones that it
/// finds to be a scalar of the curve.
#[verifier::external_body]
pub(crate) fn hpke_check_private_key(bytes: &[u8]) -> (out: Result<(), String>)
    ensures
        outcome(out) == key_verdict(32, bytes@, hpke_private_key(bytes@)),
{
    <DhP256HkdfSha256 as Kem>::PrivateKey::from_bytes(bytes).map(|_| ()).map_err(|e| e.to_string())
}

/// `EncappedKey::from_bytes` of HPKE's P-256 KEM: takes 65 bytes, and of those the ones that it
/// finds to be a point.
#[verifier::external_body]
pub(crate) fn hpke_check_encapped_key(bytes: &[u8]) -> (out: Result<(), String>)
    ensures
        outcome(out) == key_verdict(65, bytes@, hpke_encapped_key(bytes@)),
{
    <DhP256HkdfSha256 as Kem>::EncappedKey::from_bytes(bytes).map(|_| ()).map_err(|e| e.to_string())
}

/// Whether these are a private key that the KEM takes and the public key that belongs to it.
pub open spec fn hpke_pair(public_key: Seq<u8>, private_key: Seq<u8>) -> bool {
    &&& public_key.len() == 65
    &&& hpke_public_key(public_key)
    &&& private_key.len() == 32
    &&& hpke_private_key(private_key)
    &&& public_key == hpke_public_of(private_key)
}

/// Whether every private key that belongs to the public key opens the ciphertext to the plaintext.
pub open spec fn hpke_opens_to(
    public_key: Seq<u8>,
    enc: Seq<u8>,
    info: Seq<u8>,
    ciphertext: Seq<u8>,
    aad: Seq<u8>,
    plaintext: Seq<u8>,
) -> bool {
    forall|sk: Seq<u8>| #[trigger]
        hpke_pair(public_key, sk) ==> hpke_opened(sk, enc, info, ciphertext, aad) == Some(plaintext)
}

/// `Kem::gen_keypair` of HPKE's P-256 KEM with the operating system's randomness: a public key of
/// 65 bytes, an uncompressed point (its first byte is 4), and the private key of 32 bytes that it
/// belongs to, each of which the KEM takes back. Which pair comes rests on chance.
/// Where the operating system has no randomness to give, the process ends with a panic.
#[verifier::external_body]
pub(crate) fn hpke_generate() -> (pair: (Vec<u8>, Vec<u8>))
    ensures
        pair.0@.len() == 65,
        pair.0@[0] == 4,
        hpke_public_key(pair.0@),
        pair.1@.len() == 32,
        hpke_private_key(pair.1@),
        pair.0@ == hpke_public_of(pair.1@),
{
    let (sk, pk) = <DhP256HkdfSha256 as Kem>::gen_keypair(&mut rand_core::OsRng);
    (pk.to_bytes().to_vec(), sk.to_bytes().to_vec())
}

/// `hpke::single_shot_seal` in base mode with P-256, HKDF-SHA256 and AES-GCM-128, and the operating
/// system's randomness: refuses only inputs over the limit of GCM, and opening what it gives with
/// the private key that belongs to the public key gives the plaintext back. The encapsulated key
/// and the ciphertext rest on chance. Where the operating system has no randomness to give, the
/// process ends with a panic.
#[verifier::external_body]
pub(crate) fn hpke_seal(
    public_key: &[u8],
    info: &[u8],
    plaintext: &[u8],
    aad: &[u8],
) -> (out: Result<(Vec<u8>, Vec<u8>), String>)
    requires
        public_key@.len() == 65,
        hpke_public_key(public_key@),
    ensures
        out is Ok <==> within_gcm_limit(plaintext@, aad@),
        match out {
            Ok(s) => {
                &&& s.0@.len() == 65
                &&& hpke_encapped_key(s.0@)
                &&& s.1@.len() == plaintext@.len() + 16
                &&& hpke_opens_to(public_key@, s.0@, info@, s.1@, aad@, plaintext@)
            },
            Err(e) => e@ == "Failed to seal plaintext"@,
        },
{
    let pk = <DhP256HkdfSha256 as Kem>::PublicKey::from_bytes(public_key).map_err(|e| e.to_string())?;
    hpke::single_shot_seal::<hpke::aead::AesGcm128, hpke::kdf::HkdfSha256, DhP256HkdfSha256, _>(
        &hpke::OpModeS::Base,
        &pk,
        info,
        plaintext,
        aad,
        &mut rand_core::OsRng,
    ).map(|(enc, ct)| (enc.to_bytes().to_vec(), ct)).map_err(|e| e.to_string())
}

/// `hpke::single_shot_open` in base mode with P-256, HKDF-SHA256 and AES-GCM-128: its result is a
/// function of its arguments, and a plaintext is 16 bytes shorter than its ciphertext.
#[verifier::external_body]
pub(crate) fn hpke_open(
    private_key: &[u8],
    enc: &[u8],
    info: &[u8],
    ciphertext: &[u8],
    aad: &[u8],
) -> (out: Result<Vec<u8>, String>)
    requires
        private_key@.len() == 32,
        hpke_private_key(private_key@),
        enc@.len() == 65,
        hpke_encapped_key(enc@),
    ensures
        match out {
            Ok(pt) => {
                &&& hpke_opened(private_key@, enc@, info@, ciphertext@, aad@) == Some(pt@)
                &&& pt@.len() + 16 == ciphertext@.len()
            },
            Err(e) => {
                &&& hpke_opened(private_key@, enc@, info@, ciphertext@, aad@) is None
                &&& e@ == "Failed to open ciphertext"@
            },
        },
{
    let sk = <DhP256HkdfSha256 as Kem>::PrivateKey::from_bytes(private_key).map_err(|e| e.to_string())?;
    let enc = <DhP256HkdfSha256 as Kem>::EncappedKey::from_bytes(enc).map_err(|e| e.to_string())?;
    hpke::single_shot_open::<hpke::aead::AesGcm128, hpke::kdf::HkdfSha256, DhP256HkdfSha256>(
        &hpke::OpModeR::Base,
        &sk,
        &enc,
        info,
        ciphertext,
        aad,
    ).map_err(|e| e.to_string())
}

/// What the error of `core::str::from_utf8` says of bytes that are no UTF-8.
pub uninterp spec fn utf8_error_text(bytes: Seq<u8>) -> Seq<char>;

/// `core::str::from_utf8`: the text whose UTF-8 encoding the bytes are, if they are one. What the
/// error says is a function of the bytes.
#[verifier::external_body]
pub(crate) fn utf8_text(bytes: &[u8]) -> (out: Result<String, String>)
    ensures
        match out {
            Ok(s) => valid_utf8(bytes@) && s@ == decode_utf8(bytes@),
            Err(e) => !valid_utf8(bytes@) && e@ == utf8_error_text(bytes@),
        },
{
    core::str::from_utf8(bytes).map(|s| s.to_owned()).map_err(|e| e.to_string())
}

/// What `str::to_lowercase` makes of a text.
pub uninterp spec fn lowercase_text(text: Seq<char>) -> Seq<char>;

/// The small letter for a capital letter of ASCII; every other character as it is.
pub open spec fn ascii_lower(c: char) -> char {
    if 'A' <= c <= 'Z' {
        (c as u32 + 32) as char
    } else {
        c
    }
}

/// `str::to_lowercase`: a function of the text, which on ASCII turns capital letters small, one by
/// one, and leaves the rest.
#[verifier::external_body]
pub(crate) fn to_lowercase(text: &str) -> (out: String)
    ensures
        out@ == lowercase_text(text@),
        text.is_ascii() ==> out@ == text@.map_values(|c: char| ascii_lower(c)),
{
    text.to_lowercase()
}

/// The certificates and lists that a quote is checked against.
pub struct Collateral {
    pub pck_crl_issuer_chain: String,
    pub root_ca_crl: Vec<u8>,
    pub pck_crl: Vec<u8>,
    pub tcb_info_issuer_chain: String,
    pub tcb_info: String,
    pub tcb_info_signature: Vec<u8>,
    pub qe_identity_issuer_chain: String,
    pub qe_identity: String,
    pub qe_identity_signature: Vec<u8>,
    pub pck_certificate_chain: Option<String>,
}

/// What a [`Collateral`] holds.
pub ghost struct CollateralView {
    pub pck_crl_issuer_chain: Seq<char>,
    pub root_ca_crl: Seq<u8>,
    pub pck_crl: Seq<u8>,
    pub tcb_info_issuer_chain: Seq<char>,
    pub tcb_info: Seq<char>,
    pub tcb_info_signature: Seq<u8>,
    pub qe_identity_issuer_chain: Seq<char>,
    pub qe_identity: Seq<char>,
    pub qe_identity_signature: Seq<u8>,
    pub pck_certificate_chain: Option<Seq<char>>,
}

impl View for Collateral {
    type V = CollateralView;

    open spec fn view(&self) -> CollateralView {
        CollateralView {
            pck_crl_issuer_chain: self.pck_crl_issuer_chain@,
            root_ca_crl: self.root_ca_crl@,
            pck_crl: self.pck_crl@,
            tcb_info_issuer_chain: self.tcb_info_issuer_chain@,
            tcb_info: self.tcb_info@,
            tcb_info_signature: self.tcb_info_signature@,
            qe_identity_issuer_chain: self.qe_identity_issuer_chain@,
            qe_identity: self.qe_identity@,
            qe_identity_signature: self.qe_identity_signature@,
            pck_certificate_chain: match self.pck_certificate_chain {
                Some(s) => Some(s@),
                None => None,
            },
        }
    }
}

/// What a verified quote says of an SGX enclave.
pub struct EnclaveReport {
    pub mr_enclave: [u8; 32],
    pub report_data: [u8; 64],
}

/// A verified quote: what it says of an SGX enclave, if it speaks of one.
pub struct VerifiedReport {
    pub sgx: Option<EnclaveReport>,
}

/// What a [`VerifiedReport`] holds: the measurement and the report data of an SGX enclave.
pub type ReportView = Option<(Seq<u8>, Seq<u8>)>;

impl View for VerifiedReport {
    type V = ReportView;

    open spec fn view(&self) -> ReportView {
        match self.sgx {
            Some(r) => Some((r.mr_enclave@, r.report_data@)),
            None => None,
        }
    }
}

/// What `dcap_qvl::verify::QuoteVerifier`, with Intel's production root and debug enclaves allowed,
/// finds of a quote at a time: the report, or what the error says.
pub uninterp spec fn quote_verdict(
    quote: Seq<u8>,
    collateral: CollateralView,
    now: u64,
) -> Result<ReportView, Seq<char>>;

/// `QuoteVerifier::new_prod().allow_debug(true).verify` of `dcap_qvl`: its result is a function of
/// the quote, the collateral and the time. Of the report only what an SGX enclave has is kept.
#[verifier::external_body]
pub fn verify_quote_allow_debug(quote: &[u8], c: &Collateral, now: u64) -> (out: Result<
    VerifiedReport,
    String,
>)
    ensures
        outcome(out) == quote_verdict(quote@, c@, now),
{
    let c = QuoteCollateralV3 { pck_crl_issuer_chain: c.pck_crl_issuer_chain.clone(),
        root_ca_crl: c.root_ca_crl.clone(), pck_crl: c.pck_crl.clone(), tcb_info: c.tcb_info.clone(),
        tcb_info_issuer_chain: c.tcb_info_issuer_chain.clone(), qe_identity: c.qe_identity.clone(),
        tcb_info_signature: c.tcb_info_signature.clone(),
        qe_identity_issuer_chain: c.qe_identity_issuer_chain.clone(),
        qe_identity_signature: c.qe_identity_signature.clone(),
        pck_certificate_chain: c.pck_certificate_chain.clone() };
    QuoteVerifier::new_prod().allow_debug(true).verify(quote, &c, now).map(|v| match v.report {
        Report::SgxEnclave(r) => VerifiedReport { sgx: Some(
            EnclaveReport { mr_enclave: r.mr_enclave, report_data: r.report_data }) },
        _ => VerifiedReport { sgx: None },
    }).map_err(|e| e.to_string())
}

} // verus!
