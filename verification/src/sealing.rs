//! Sealing of a key store: it can be opened again only by the enclave that sealed it. Nothing here
//! keeps an old blob from being put back.
//!
//! The seal key comes from the processor (`EGETKEY`, policy `MRENCLAVE`); the blob is AES-128-GCM
//! over the binary form of the store:
//!
//! ```text
//! magic[4] || keyid[32] || isvsvn[2] || cpusvn[16] || nonce[12] || ct+tag
//! ```

use vstd::prelude::*;

use crate::bytes::{
    append, array_at, le, le_value, lemma_le_len, lemma_le_read_back, lemma_le_value_bound,
    lemma_pow256, push_le, read_le, same_bytes,
};
use crate::key_store::{
    encodable, key_encoded, keys_encoded, law_decode_gives_back_encode, store_decoded,
    store_encoded, KeyStore, KeyView, StoreView,
};
use crate::outside::{aes_decrypt, aes_encrypt, aes_opened, aes_sealed, random_bytes};
use crate::views::outcome;

verus! {

/// What a sealed blob starts with: `TDK1`.
pub const MAGIC: [u8; 4] = [0x54, 0x44, 0x4b, 0x31];

/// Where the ciphertext starts in a sealed blob.
pub const HEADER_LEN: usize = 66;

/// The number of the seal key among the keys that a processor derives.
pub const KEYNAME_SEAL: u16 = 4;

/// What a derived key depends on, besides the processor.
#[derive(Clone, Copy, Debug, PartialEq, Eq, Structural)]
pub enum KeyPolicy {
    /// The measurement of the enclave.
    MrEnclave,
}

/// What the processor is asked for.
pub struct KeyRequest {
    pub keyname: u16,
    pub keypolicy: KeyPolicy,
    pub isvsvn: u16,
    pub cpusvn: [u8; 16],
    pub attributemask: [u64; 2],
    pub keyid: [u8; 32],
    pub miscmask: u32,
}

/// What a [`KeyRequest`] holds.
pub ghost struct KeyRequestView {
    pub keyname: u16,
    pub keypolicy: KeyPolicy,
    pub isvsvn: u16,
    pub cpusvn: Seq<u8>,
    pub attributemask: Seq<u64>,
    pub keyid: Seq<u8>,
    pub miscmask: u32,
}

impl View for KeyRequest {
    type V = KeyRequestView;

    open spec fn view(&self) -> KeyRequestView {
        KeyRequestView {
            keyname: self.keyname,
            keypolicy: self.keypolicy,
            isvsvn: self.isvsvn,
            cpusvn: self.cpusvn@,
            attributemask: self.attributemask@,
            keyid: self.keyid@,
            miscmask: self.miscmask,
        }
    }
}

/// The request for the seal key of an enclave: bound to its measurement and to all attributes.
pub open spec fn seal_request_for(isvsvn: u16, cpusvn: Seq<u8>, keyid: Seq<u8>) -> KeyRequestView {
    KeyRequestView {
        keyname: KEYNAME_SEAL,
        keypolicy: KeyPolicy::MrEnclave,
        isvsvn,
        cpusvn,
        attributemask: seq![u64::MAX, u64::MAX],
        keyid,
        miscmask: u32::MAX,
    }
}

/// The request for the seal key of an enclave at these security versions.
pub fn seal_request(isvsvn: u16, cpusvn: [u8; 16], keyid: [u8; 32]) -> (out: KeyRequest)
    ensures
        out@ == seal_request_for(isvsvn, cpusvn@, keyid@),
{
    let out = KeyRequest {
        keyname: KEYNAME_SEAL,
        keypolicy: KeyPolicy::MrEnclave,
        isvsvn,
        cpusvn,
        attributemask: [u64::MAX, u64::MAX],
        keyid,
        miscmask: u32::MAX,
    };
    assert(out.attributemask@ =~= seq![u64::MAX, u64::MAX]);
    out
}

/// A seal key and what it was derived for.
pub struct SealKey {
    pub key: [u8; 16],
    pub keyid: [u8; 32],
    pub isvsvn: u16,
    pub cpusvn: [u8; 16],
}

/// What a [`SealKey`] holds.
pub ghost struct SealKeyView {
    pub key: Seq<u8>,
    pub keyid: Seq<u8>,
    pub isvsvn: u16,
    pub cpusvn: Seq<u8>,
}

impl View for SealKey {
    type V = SealKeyView;

    open spec fn view(&self) -> SealKeyView {
        SealKeyView {
            key: self.key@,
            keyid: self.keyid@,
            isvsvn: self.isvsvn,
            cpusvn: self.cpusvn@,
        }
    }
}

/// A sealed blob: what the key was derived for, the nonce, and the ciphertext.
pub open spec fn blob_of(k: SealKeyView, nonce: Seq<u8>, ct: Seq<u8>) -> Seq<u8> {
    MAGIC@ + k.keyid + le(k.isvsvn as nat, 2) + k.cpusvn + nonce + ct
}

/// What sealing makes of a store under a key and a nonce.
pub open spec fn sealed(s: StoreView, k: SealKeyView, nonce: Seq<u8>) -> Result<
    Seq<u8>,
    Seq<char>,
> {
    match aes_sealed(k.key, nonce, store_encoded(s)) {
        Some(ct) => Ok(blob_of(k, nonce, ct)),
        None => Err("seal encrypt: aead::Error"@),
    }
}

/// Whether a blob is long enough to hold a header and a tag, and starts as one does.
pub open spec fn blob_shaped(blob: Seq<u8>) -> bool {
    blob.len() >= HEADER_LEN + 16 && blob.take(4) == MAGIC@
}

/// The request for the key of a blob.
pub open spec fn blob_request(blob: Seq<u8>) -> Result<KeyRequestView, Seq<char>> {
    if blob_shaped(blob) {
        Ok(
            seal_request_for(
                le_value(blob.subrange(36, 38)) as u16,
                blob.subrange(38, 54),
                blob.subrange(4, 36),
            ),
        )
    } else {
        Err("invalid sealed blob"@)
    }
}

/// What a key makes of a blob.
pub open spec fn unsealed(blob: Seq<u8>, key: Seq<u8>) -> Result<StoreView, Seq<char>> {
    if !blob_shaped(blob) {
        Err("invalid sealed blob"@)
    } else {
        match aes_opened(key, blob.subrange(54, 66), blob.skip(66)) {
            Some(plaintext) => store_decoded(plaintext),
            None => Err("unseal failed (wrong MRENCLAVE / corrupt blob)"@),
        }
    }
}

/// Seals a store under a key and a nonce. What fits in the binary form can be sealed, and comes
/// back when it is unsealed with the same key.
pub fn seal_with(store: &KeyStore, k: &SealKey, nonce: &[u8; 12]) -> (out: Result<Vec<u8>, String>)
    ensures
        outcome(out) == sealed(store@, k@, nonce@),
        encodable(store@) ==> out is Ok,
        out matches Ok(blob) ==> blob@.len() == HEADER_LEN + store_encoded(store@).len() + 16,
        out matches Ok(blob) ==> blob_request(blob@) == Ok::<KeyRequestView, Seq<char>>(
            seal_request_for(k.isvsvn, k.cpusvn@, k.keyid@),
        ),
        out matches Ok(blob) ==> unsealed(blob@, k.key@) == store_decoded(store_encoded(store@)),
        out matches Ok(blob) ==> encodable(store@) ==> unsealed(blob@, k.key@) == Ok::<
            StoreView,
            Seq<char>,
        >(store@),
{
    let plaintext = store.encode();
    proof {
        if encodable(store@) {
            lemma_encoded_len(store@.keys);
            law_decode_gives_back_encode(store@, Seq::empty());
            assert(store_encoded(store@) + Seq::<u8>::empty() =~= store_encoded(store@));
        }
        lemma_le_len(store@.current_version as nat, 8);
        lemma_le_len(store@.keys.len(), 1);
    }
    let ct = match aes_encrypt(&k.key, nonce, plaintext.as_slice()) {
        Some(ct) => ct,
        None => return Err("seal encrypt: aead::Error".to_owned()),
    };
    let mut out: Vec<u8> = Vec::new();
    append(&mut out, MAGIC.as_slice());
    append(&mut out, k.keyid.as_slice());
    push_le(&mut out, k.isvsvn as u64, 2);
    append(&mut out, k.cpusvn.as_slice());
    append(&mut out, nonce.as_slice());
    append(&mut out, ct.as_slice());
    assert(out@ =~= blob_of(k@, nonce@, ct@));
    proof {
        lemma_blob(k@, nonce@, ct@);
    }
    Ok(out)
}

/// Seals a store under a key, with a fresh nonce. Without a processor to derive keys there is no
/// sealing. Whether the nonce can be drawn, and which one comes, rests on the machine.
pub fn seal(store: &KeyStore, k: Option<&SealKey>) -> (out: Result<Vec<u8>, String>)
    ensures
        k is None ==> outcome(out) == Err::<Seq<u8>, Seq<char>>("sealing requires SGX"@),
        k matches Some(k) ==> (out matches Ok(blob) ==> exists|nonce: Seq<u8>|
            nonce.len() == 12 && #[trigger] sealed(store@, k@, nonce) == Ok::<Seq<u8>, Seq<char>>(
                blob@,
            )),
        k is Some ==> (out matches Ok(blob) ==> blob@.len() == HEADER_LEN + store_encoded(
            store@,
        ).len() + 16),
        k matches Some(k) ==> (out matches Ok(blob) ==> blob_request(blob@) == Ok::<
            KeyRequestView,
            Seq<char>,
        >(seal_request_for(k.isvsvn, k.cpusvn@, k.keyid@))),
        k matches Some(k) ==> (out matches Ok(blob) ==> encodable(store@) ==> unsealed(
            blob@,
            k.key@,
        ) == Ok::<StoreView, Seq<char>>(store@)),
{
    match k {
        Some(k) => match fresh_nonce() {
            Ok(nonce) => seal_with(store, k, &nonce),
            Err(e) => Err(e),
        },
        None => Err("sealing requires SGX".to_owned()),
    }
}

/// A key id for a new seal key, from the operating system.
pub(crate) fn fresh_keyid() -> (out: Result<[u8; 32], String>) {
    random_bytes::<32>()
}

/// A nonce for a new blob, from the operating system.
pub(crate) fn fresh_nonce() -> (out: Result<[u8; 12], String>) {
    random_bytes::<12>()
}

/// Whether a blob has the shape of a sealed one.
fn shaped(blob: &[u8]) -> (yes: bool)
    ensures
        yes == blob_shaped(blob@),
{
    if blob.len() < HEADER_LEN + 16 {
        return false;
    }
    let start = &blob[0..4];
    assert(start@ =~= blob@.take(4));
    same_bytes(start, MAGIC.as_slice())
}

/// Which key opens a blob.
pub fn unseal_request(blob: &[u8]) -> (out: Result<KeyRequest, String>)
    ensures
        outcome(out) == blob_request(blob@),
{
    if !shaped(blob) {
        return Err("invalid sealed blob".to_owned());
    }
    proof {
        lemma_le_value_bound(blob@.subrange(36, 38));
        lemma_pow256();
    }
    let isvsvn: u16 = read_le(blob, 36, 2) as u16;
    let cpusvn: [u8; 16] = array_at(blob, 38);
    let keyid: [u8; 32] = array_at(blob, 4);
    Ok(seal_request(isvsvn, cpusvn, keyid))
}

/// Opens a blob with the key that [`unseal_request`] asked for.
pub fn unseal(blob: &[u8], key: Option<&[u8; 16]>) -> (out: Result<KeyStore, String>)
    ensures
        outcome(out) == match key {
            Some(key) => unsealed(blob@, key@),
            None => Err("sealing requires SGX"@),
        },
{
    let key = match key {
        Some(key) => key,
        None => return Err("sealing requires SGX".to_owned()),
    };
    if !shaped(blob) {
        return Err("invalid sealed blob".to_owned());
    }
    let nonce: [u8; 12] = array_at(blob, 54);
    let ct = &blob[66..blob.len()];
    assert(ct@ =~= blob@.skip(66));
    match aes_decrypt(key, &nonce, ct) {
        Some(plaintext) => KeyStore::decode(plaintext.as_slice()),
        None => Err("unseal failed (wrong MRENCLAVE / corrupt blob)".to_owned()),
    }
}

/// Where the parts of a blob stand.
proof fn lemma_blob(k: SealKeyView, nonce: Seq<u8>, ct: Seq<u8>)
    requires
        k.keyid.len() == 32,
        k.cpusvn.len() == 16,
        nonce.len() == 12,
        ct.len() >= 16,
    ensures
        blob_request(blob_of(k, nonce, ct)) == Ok::<KeyRequestView, Seq<char>>(
            seal_request_for(k.isvsvn, k.cpusvn, k.keyid),
        ),
        blob_of(k, nonce, ct).subrange(54, 66) == nonce,
        blob_of(k, nonce, ct).skip(66) == ct,
        blob_of(k, nonce, ct).len() == HEADER_LEN + ct.len(),
{
    broadcast use lemma_le_len;

    lemma_pow256();
    let blob = blob_of(k, nonce, ct);
    assert(blob.take(4) =~= MAGIC@);
    assert(blob.subrange(4, 36) =~= k.keyid);
    assert(blob.subrange(36, 38) =~= le(k.isvsvn as nat, 2));
    lemma_le_read_back(k.isvsvn as nat, 2);
    assert(blob.subrange(38, 54) =~= k.cpusvn);
    assert(blob.subrange(54, 66) =~= nonce);
    assert(blob.skip(66) =~= ct);
}

/// The keys of a store whose numbers fit do not take more bytes than the numbers allow.
proof fn lemma_encoded_len(keys: Seq<KeyView>)
    requires
        forall|i: int|
            0 <= i < keys.len() ==> (#[trigger] keys[i]).public_key.len() < 0x1_0000
                && keys[i].private_key.len() < 0x1_0000,
    ensures
        keys_encoded(keys).len() <= keys.len() * 0x2_000a,
    decreases keys.len(),
{
    broadcast use lemma_le_len;

    if keys.len() > 0 {
        let tail = keys.skip(1);
        assert forall|i: int| 0 <= i < tail.len() implies (#[trigger] tail[i]).public_key.len()
            < 0x1_0000 && tail[i].private_key.len() < 0x1_0000 by {
            assert(tail[i] == keys[i + 1]);
        }
        lemma_encoded_len(tail);
        assert(key_encoded(keys[0]).len() <= 0x2_000a);
    }
}

/// A store that fits in its binary form comes back from its sealed blob with the same key, as long
/// as the cipher gives back what it was given; and the blob asks for the key that it was sealed
/// with.
pub proof fn law_unseal_gives_back_seal(s: StoreView, k: SealKeyView, nonce: Seq<u8>)
    requires
        encodable(s),
        k.keyid.len() == 32,
        k.cpusvn.len() == 16,
        nonce.len() == 12,
        aes_sealed(k.key, nonce, store_encoded(s)) matches Some(ct) && ct.len() >= 16 && aes_opened(
            k.key,
            nonce,
            ct,
        ) == Some(store_encoded(s)),
    ensures
        sealed(s, k, nonce) matches Ok(blob) && blob_request(blob) == Ok::<
            KeyRequestView,
            Seq<char>,
        >(seal_request_for(k.isvsvn, k.cpusvn, k.keyid)) && unsealed(blob, k.key) == Ok::<
            StoreView,
            Seq<char>,
        >(s),
{
    let ct = aes_sealed(k.key, nonce, store_encoded(s))->0;
    lemma_blob(k, nonce, ct);
    law_decode_gives_back_encode(s, Seq::empty());
    assert(store_encoded(s) + Seq::<u8>::empty() =~= store_encoded(s));
}

/// A sealed blob has its parts in their places: `TDK1`, the id of the key, the security version of
/// the enclave, that of the processor, the nonce, and what the cipher made of the store. Where the
/// cipher refuses, that is told.
pub proof fn law_blob_has_its_places(s: StoreView, k: SealKeyView, nonce: Seq<u8>)
    requires
        k.keyid.len() == 32,
        k.cpusvn.len() == 16,
        nonce.len() == 12,
    ensures
        match aes_sealed(k.key, nonce, store_encoded(s)) {
            None => sealed(s, k, nonce) == Err::<Seq<u8>, Seq<char>>("seal encrypt: aead::Error"@),
            Some(ct) => {
                &&& sealed(s, k, nonce) matches Ok(blob)
                &&& blob.len() == 66 + ct.len()
                &&& blob[0] == 'T' as u8 && blob[1] == 'D' as u8
                &&& blob[2] == 'K' as u8 && blob[3] == '1' as u8
                &&& blob.subrange(4, 36) == k.keyid
                &&& blob[36] + 256 * blob[37] == k.isvsvn
                &&& blob.subrange(38, 54) == k.cpusvn
                &&& blob.subrange(54, 66) == nonce
                &&& blob.skip(66) == ct
            },
        },
{
    broadcast use lemma_le_len;

    if let Some(ct) = aes_sealed(k.key, nonce, store_encoded(s)) {
        let blob = blob_of(k, nonce, ct);
        let svn = le(k.isvsvn as nat, 2);
        lemma_pow256();
        lemma_le_read_back(k.isvsvn as nat, 2);
        lemma_two(svn);
        assert(blob.subrange(4, 36) =~= k.keyid);
        assert(blob[36] == svn[0] && blob[37] == svn[1]);
        assert(blob.subrange(38, 54) =~= k.cpusvn);
        assert(blob.subrange(54, 66) =~= nonce);
        assert(blob.skip(66) =~= ct);
        assert(blob[0] == MAGIC@[0] && blob[1] == MAGIC@[1]);
        assert(blob[2] == MAGIC@[2] && blob[3] == MAGIC@[3]);
    }
}

/// The number that two bytes write.
proof fn lemma_two(s: Seq<u8>)
    requires
        s.len() == 2,
    ensures
        le_value(s) == s[0] + 256 * s[1],
{
    assert(s.skip(1).skip(1) =~= Seq::<u8>::empty());
    assert(le_value(s.skip(1).skip(1)) == 0);
    assert(s.skip(1)[0] == s[1]);
    assert(le_value(s.skip(1)) == s[1]);
}

/// Whatever is shorter than a header and a tag, or does not start with `TDK1`, is no sealed blob.
/// One that is asks for the key with the id and for the security versions in it, and is opened with
/// the nonce in it; where the key does not open it, that is told.
pub proof fn law_blob_is_opened_by_its_places(blob: Seq<u8>, key: Seq<u8>)
    ensures
        ({
            let shaped = blob.len() >= 82 && blob[0] == 'T' as u8 && blob[1] == 'D' as u8
                && blob[2] == 'K' as u8 && blob[3] == '1' as u8;
            &&& blob_shaped(blob) == shaped
            &&& (!shaped ==> {
                &&& blob_request(blob) == Err::<KeyRequestView, Seq<char>>("invalid sealed blob"@)
                &&& unsealed(blob, key) == Err::<StoreView, Seq<char>>("invalid sealed blob"@)
            })
            &&& (shaped ==> {
                &&& blob_request(blob) matches Ok(request)
                &&& request.isvsvn == blob[36] + 256 * blob[37]
                &&& request.cpusvn == blob.subrange(38, 54)
                &&& request.keyid == blob.subrange(4, 36)
                &&& match aes_opened(key, blob.subrange(54, 66), blob.skip(66)) {
                    Some(plaintext) => unsealed(blob, key) == store_decoded(plaintext),
                    None => unsealed(blob, key) == Err::<StoreView, Seq<char>>(
                        "unseal failed (wrong MRENCLAVE / corrupt blob)"@,
                    ),
                }
            })
        }),
{
    if blob.len() >= 82 {
        let start = blob.take(4);
        assert(start[0] == blob[0] && start[1] == blob[1]);
        assert(start[2] == blob[2] && start[3] == blob[3]);
        assert(MAGIC@[0] == 'T' as u8 && MAGIC@[1] == 'D' as u8);
        assert(MAGIC@[2] == 'K' as u8 && MAGIC@[3] == '1' as u8);
        if blob[0] == MAGIC@[0] && blob[1] == MAGIC@[1] && blob[2] == MAGIC@[2] && blob[3]
            == MAGIC@[3] {
            assert(start =~= MAGIC@);
        }
        lemma_two(blob.subrange(36, 38));
        lemma_le_value_bound(blob.subrange(36, 38));
        lemma_pow256();
    }
}

/// The processor is asked for its seal key, bound to the measurement of the enclave and to all of
/// its attributes, for these security versions and this id.
pub proof fn law_seal_key_is_bound_to_the_enclave(isvsvn: u16, cpusvn: Seq<u8>, keyid: Seq<u8>)
    ensures
        ({
            let r = seal_request_for(isvsvn, cpusvn, keyid);
            &&& r.keyname == 4 && r.keypolicy == KeyPolicy::MrEnclave
            &&& r.isvsvn == isvsvn && r.cpusvn == cpusvn && r.keyid == keyid
            &&& r.attributemask.len() == 2
            &&& r.attributemask[0] == 0xffff_ffff_ffff_ffff
            &&& r.attributemask[1] == 0xffff_ffff_ffff_ffff
            &&& r.miscmask == 0xffff_ffff
        }),
{
}

} // verus!
