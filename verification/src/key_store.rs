//! The key pairs that the runtime holds: the current one and the one before it.

use vstd::prelude::*;

use crate::aead::{self, opened, sealed_to};
use crate::bytes::{
    append, le, le_value, lemma_le_len, lemma_le_read_back, lemma_le_value_bound,
    lemma_le_write_back, lemma_pow256, part, push_le, read_le,
};
use crate::frame::{ERR_DECRYPT_FAILED, ERR_KEY_EXPIRED, ERR_KEY_UNKNOWN};
use crate::outside::{b64_encode, base64_text, hpke_pair};
use crate::text::{dec, dec_int, law_integers_are_written_in_decimal, push_u64};
use crate::views::outcome;

verus! {

/// How many key pairs are kept.
pub const RETENTION: usize = 2;

/// A key pair and its version.
pub struct StoredKey {
    pub version: u64,
    pub public_key: Vec<u8>,
    pub private_key: Vec<u8>,
}

/// What a [`StoredKey`] holds.
pub ghost struct KeyView {
    pub version: u64,
    pub public_key: Seq<u8>,
    pub private_key: Seq<u8>,
}

impl View for StoredKey {
    type V = KeyView;

    open spec fn view(&self) -> KeyView {
        KeyView {
            version: self.version,
            public_key: self.public_key@,
            private_key: self.private_key@,
        }
    }
}

impl Clone for StoredKey {
    fn clone(&self) -> (out: StoredKey)
        ensures
            out@ == self@,
    {
        StoredKey {
            version: self.version,
            public_key: crate::bytes::copy(self.public_key.as_slice()),
            private_key: crate::bytes::copy(self.private_key.as_slice()),
        }
    }
}

/// The key pairs, the oldest first, and the version of the current one.
pub struct KeyStore {
    pub current_version: u64,
    pub keys: Vec<StoredKey>,
}

/// What a [`KeyStore`] holds.
pub ghost struct StoreView {
    pub current_version: u64,
    pub keys: Seq<KeyView>,
}

/// What a row of stored keys holds.
pub open spec fn key_views(keys: Seq<StoredKey>) -> Seq<KeyView> {
    keys.map_values(|k: StoredKey| k@)
}

impl View for KeyStore {
    type V = StoreView;

    open spec fn view(&self) -> StoreView {
        StoreView { current_version: self.current_version, keys: key_views(self.keys@) }
    }
}

/// The first key of a version.
pub open spec fn key_of(keys: Seq<KeyView>, version: u64) -> Option<KeyView>
    decreases keys.len(),
{
    if keys.len() == 0 {
        None
    } else if keys[0].version == version {
        Some(keys[0])
    } else {
        key_of(keys.skip(1), version)
    }
}

/// A store with no keys, before the first rotation.
pub open spec fn empty_store() -> StoreView {
    StoreView { current_version: 0, keys: Seq::empty() }
}

impl StoreView {
    /// The current key.
    pub open spec fn current(self) -> Option<KeyView> {
        key_of(self.keys, self.current_version)
    }

    /// Whether the store is as rotations leave it: the current version and, from the second on, the
    /// one before it, each with a key pair that belongs together.
    pub open spec fn wf(self) -> bool {
        &&& self.current_version >= 1
        &&& self.keys.len() == if self.current_version == 1 {
            1int
        } else {
            RETENTION as int
        }
        &&& forall|i: int|
            0 <= i < self.keys.len() ==> (#[trigger] self.keys[i]).version == self.current_version - (
            self.keys.len() - 1 - i) && hpke_pair(
                self.keys[i].public_key,
                self.keys[i].private_key,
            )
    }
}

/// The store after a rotation to this key pair: it comes last, and only the last two stay.
pub open spec fn rotated(s: StoreView, public_key: Seq<u8>, private_key: Seq<u8>) -> StoreView {
    let version = (s.current_version + 1) as u64;
    let keys = s.keys.push(KeyView { version, public_key, private_key });
    StoreView {
        current_version: version,
        keys: if keys.len() > RETENTION {
            keys.skip(keys.len() - RETENTION)
        } else {
            keys
        },
    }
}

/// Why a ciphertext was not opened.
#[derive(Clone, Copy, Debug, PartialEq, Eq, Structural)]
pub enum DecryptErr {
    Expired,
    Unknown,
    Failed,
}

impl DecryptErr {
    /// The error code of a response.
    pub open spec fn code_text(self) -> Seq<char> {
        match self {
            DecryptErr::Expired => ERR_KEY_EXPIRED@,
            DecryptErr::Unknown => ERR_KEY_UNKNOWN@,
            DecryptErr::Failed => ERR_DECRYPT_FAILED@,
        }
    }

    /// What a response says in words.
    pub open spec fn message_text(self) -> Seq<char> {
        match self {
            DecryptErr::Expired => "key version expired (retention=2)"@,
            DecryptErr::Unknown => "key version unknown"@,
            DecryptErr::Failed => "hpke decrypt failed"@,
        }
    }

    /// The error code of a response.
    pub fn code(&self) -> (out: &'static str)
        ensures
            out@ == self.code_text(),
    {
        match self {
            DecryptErr::Expired => ERR_KEY_EXPIRED,
            DecryptErr::Unknown => ERR_KEY_UNKNOWN,
            DecryptErr::Failed => ERR_DECRYPT_FAILED,
        }
    }

    /// What a response says in words.
    pub fn message(&self) -> (out: &'static str)
        ensures
            out@ == self.message_text(),
    {
        match self {
            DecryptErr::Expired => "key version expired (retention=2)",
            DecryptErr::Unknown => "key version unknown",
            DecryptErr::Failed => "hpke decrypt failed",
        }
    }
}

/// What looking a version up gives: its key, or whether it is too old or was never there.
pub open spec fn looked_up(s: StoreView, version: u64) -> Result<KeyView, DecryptErr> {
    match key_of(s.keys, version) {
        Some(k) => Ok(k),
        None => if s.current_version - version >= 2 {
            Err(DecryptErr::Expired)
        } else {
            Err(DecryptErr::Unknown)
        },
    }
}

/// What the store makes of a ciphertext for one of its versions.
pub open spec fn store_opened(s: StoreView, version: u64, ct: Seq<u8>, aad: Seq<u8>) -> Result<
    Seq<u8>,
    DecryptErr,
> {
    match looked_up(s, version) {
        Err(e) => Err(e),
        Ok(k) => match opened(k.private_key, ct, aad) {
            Ok(plaintext) => Ok(plaintext),
            Err(_) => Err(DecryptErr::Failed),
        },
    }
}

/// A key in the keyring: what is public of it.
pub open spec fn keyring_entry(k: KeyView) -> Seq<char> {
    "{\"version\":"@ + dec(k.version as nat) + ",\"public_key\":\""@ + base64_text(k.public_key)
        + "\",\"algorithm\":\"hpke-p256\"}"@
}

/// The keys of the keyring, with commas between them.
pub open spec fn keyring_entries(keys: Seq<KeyView>) -> Seq<char>
    decreases keys.len(),
{
    if keys.len() == 0 {
        Seq::empty()
    } else if keys.len() == 1 {
        keyring_entry(keys[0])
    } else {
        keyring_entries(keys.drop_last()) + ","@ + keyring_entry(keys.last())
    }
}

/// The keyring.
pub open spec fn keyring_text(s: StoreView) -> Seq<char> {
    "{\"v\":1,\"current_version\":"@ + dec(s.current_version as nat) + ",\"keys\":["@
        + keyring_entries(s.keys) + "]}"@
}

/// A key in the binary form of a store.
pub open spec fn key_encoded(k: KeyView) -> Seq<u8> {
    le(k.version as nat, 8) + le(k.public_key.len(), 2) + k.public_key + le(k.private_key.len(), 2)
        + k.private_key
}

/// The keys in the binary form of a store, one behind the other.
pub open spec fn keys_encoded(keys: Seq<KeyView>) -> Seq<u8>
    decreases keys.len(),
{
    if keys.len() == 0 {
        Seq::empty()
    } else {
        key_encoded(keys[0]) + keys_encoded(keys.skip(1))
    }
}

/// The binary form of a store.
pub open spec fn store_encoded(s: StoreView) -> Seq<u8> {
    le(s.current_version as nat, 8) + le(s.keys.len(), 1) + keys_encoded(s.keys)
}

/// Reads one key from the start of the bytes: the key and how many bytes it takes.
#[verifier::opaque]
pub open spec fn key_decoded(b: Seq<u8>) -> Result<(KeyView, int), Seq<char>> {
    let pk_len = le_value(b.subrange(8, 10)) as int;
    let sk_len = le_value(b.subrange(10 + pk_len, 12 + pk_len)) as int;
    if b.len() < 10 {
        Err("truncated keystore"@)
    } else if b.len() < 12 + pk_len {
        Err("truncated pubkey"@)
    } else if b.len() < 12 + pk_len + sk_len {
        Err("truncated seckey"@)
    } else {
        Ok(
            (
                KeyView {
                    version: le_value(b.take(8)) as u64,
                    public_key: b.subrange(10, 10 + pk_len),
                    private_key: b.subrange(12 + pk_len, 12 + pk_len + sk_len),
                },
                12 + pk_len + sk_len,
            ),
        )
    }
}

/// Puts keys in front of those that were read.
pub open spec fn behind(done: Seq<KeyView>, rest: Result<Seq<KeyView>, Seq<char>>) -> Result<
    Seq<KeyView>,
    Seq<char>,
> {
    match rest {
        Ok(keys) => Ok(done + keys),
        Err(e) => Err(e),
    }
}

/// Reads `n` keys from the start of the bytes.
pub open spec fn keys_decoded(b: Seq<u8>, n: nat) -> Result<Seq<KeyView>, Seq<char>>
    decreases n,
{
    if n == 0 {
        Ok(Seq::empty())
    } else {
        match key_decoded(b) {
            Err(e) => Err(e),
            Ok((k, used)) => behind(seq![k], keys_decoded(b.skip(used), (n - 1) as nat)),
        }
    }
}

/// Reads a store from its binary form. What stands behind the last key does not count.
pub open spec fn store_decoded(b: Seq<u8>) -> Result<StoreView, Seq<char>> {
    if b.len() < 9 {
        Err("keystore too short"@)
    } else {
        match keys_decoded(b.skip(9), b[8] as nat) {
            Err(e) => Err(e),
            Ok(keys) => Ok(
                StoreView { current_version: le_value(b.take(8)) as u64, keys },
            ),
        }
    }
}

impl KeyStore {
    /// A store with one fresh key pair, of version 1.
    pub fn new() -> (out: Result<Self, String>)
        ensures
            out matches Ok(store) && store@.wf() && store@.current_version == 1,
    {
        let mut store = KeyStore { current_version: 0, keys: Vec::new() };
        assert(store@.keys =~= empty_store().keys);
        match store.rotate() {
            Ok(_) => {},
            Err(e) => return Err(e),
        }
        Ok(store)
    }

    /// Adds a key pair as the next version and drops all but the last two.
    pub fn rotate_to(&mut self, public_key: Vec<u8>, private_key: Vec<u8>)
        requires
            old(self).current_version < u64::MAX,
        ensures
            final(self)@ == rotated(old(self)@, public_key@, private_key@),
            (old(self)@.wf() || old(self)@ == empty_store()) && hpke_pair(
                public_key@,
                private_key@,
            ) ==> final(self)@.wf(),
    {
        proof {
            if (self@.wf() || self@ == empty_store()) && hpke_pair(public_key@, private_key@) {
                law_rotation_keeps_the_store_well_formed(self@, public_key@, private_key@);
            }
        }
        let version: u64 = self.current_version + 1;
        self.current_version = version;
        self.keys.push(StoredKey { version, public_key, private_key });
        let ghost all = self.keys@;
        assert(key_views(all) =~= old(self)@.keys.push(
            KeyView { version, public_key: public_key@, private_key: private_key@ },
        ));
        assert(all.skip(0) =~= all);
        while self.keys.len() > RETENTION
            invariant
                self.current_version == version,
                self.keys@.len() <= all.len(),
                self.keys@ == all.skip(all.len() - self.keys@.len()),
                all.len() >= RETENTION ==> self.keys@.len() >= RETENTION,
                all.len() < RETENTION ==> self.keys@.len() == all.len(),
            decreases self.keys@.len(),
        {
            let _ = self.keys.remove(0);
            assert(self.keys@ =~= all.skip(all.len() - self.keys@.len()));
        }
        assert(self@.keys =~= rotated(old(self)@, public_key@, private_key@).keys);
    }

    /// Rotates to a fresh key pair.
    pub fn rotate(&mut self) -> (out: Result<&StoredKey, String>)
        requires
            old(self).current_version < u64::MAX,
        ensures
            out matches Ok(k) && hpke_pair(k@.public_key, k@.private_key) && k@.version
                == old(self)@.current_version + 1 && final(self)@ == rotated(
                old(self)@,
                k@.public_key,
                k@.private_key,
            ),
            old(self)@.wf() || old(self)@ == empty_store() ==> final(self)@.wf(),
    {
        let (pk, sk) = match aead::generate_keypair() {
            Ok(pair) => pair,
            Err(e) => return Err(e),
        };
        let ghost new = (pk@, sk@);
        self.rotate_to(pk, sk);
        assert(self@.keys.last().public_key == new.0 && self@.keys.last().private_key == new.1);
        assert(self@.keys.len() == self.keys@.len());
        let last: usize = self.keys.len() - 1;
        assert(self.keys@[last as int]@ == self@.keys.last());
        Ok(&self.keys[last])
    }

    /// The current key.
    pub fn current(&self) -> (out: Option<&StoredKey>)
        ensures
            match out {
                Some(k) => self@.current() == Some(k@),
                None => self@.current() is None,
            },
    {
        self.find(self.current_version)
    }

    /// The first key of a version.
    fn find(&self, version: u64) -> (out: Option<&StoredKey>)
        ensures
            match out {
                Some(k) => key_of(self@.keys, version) == Some(k@),
                None => key_of(self@.keys, version) is None,
            },
    {
        let ghost keys = self@.keys;
        let mut i: usize = 0;
        assert(keys.skip(0) =~= keys);
        while i < self.keys.len()
            invariant
                i <= self.keys@.len(),
                keys == self@.keys,
                key_of(keys.skip(i as int), version) == key_of(keys, version),
            decreases self.keys@.len() - i,
        {
            assert(keys[i as int] == self.keys@[i as int]@);
            if self.keys[i].version == version {
                return Some(&self.keys[i]);
            }
            assert(keys.skip(i as int).skip(1) =~= keys.skip(i + 1));
            i = i + 1;
        }
        None
    }

    /// Looks the key of a version up.
    pub fn lookup(&self, version: u64) -> (out: Result<&StoredKey, DecryptErr>)
        ensures
            match out {
                Ok(k) => looked_up(self@, version) == Ok::<KeyView, DecryptErr>(k@),
                Err(e) => looked_up(self@, version) == Err::<KeyView, DecryptErr>(e),
            },
    {
        match self.find(version) {
            Some(k) => Ok(k),
            None => if self.current_version.saturating_sub(version) >= 2 {
                Err(DecryptErr::Expired)
            } else {
                Err(DecryptErr::Unknown)
            },
        }
    }

    /// Decrypts with the key of a version.
    pub fn decrypt(&self, version: u64, ct: &[u8], aad: &[u8]) -> (out: Result<Vec<u8>, DecryptErr>)
        ensures
            match out {
                Ok(pt) => store_opened(self@, version, ct@, aad@) == Ok::<Seq<u8>, DecryptErr>(pt@),
                Err(e) => store_opened(self@, version, ct@, aad@) == Err::<Seq<u8>, DecryptErr>(e),
            },
    {
        match self.lookup(version) {
            Ok(key) => match aead::decrypt(key.private_key.as_slice(), ct, aad) {
                Ok(plaintext) => Ok(plaintext),
                Err(_) => Err(DecryptErr::Failed),
            },
            Err(e) => Err(e),
        }
    }

    /// The keyring: the public keys and their versions.
    pub fn keyring_json(&self) -> (out: String)
        ensures
            out@ == keyring_text(self@),
    {
        let ghost keys = self@.keys;
        let mut out = "{\"v\":1,\"current_version\":".to_owned();
        push_u64(&mut out, self.current_version);
        out.append(",\"keys\":[");
        let ghost start = out@;
        let mut i: usize = 0;
        assert(out@ =~= start + keyring_entries(keys.take(0)));
        while i < self.keys.len()
            invariant
                i <= self.keys@.len(),
                keys == self@.keys,
                out@ == start + keyring_entries(keys.take(i as int)),
            decreases self.keys@.len() - i,
        {
            let key = &self.keys[i];
            let ghost k = keys[i as int];
            let ghost before = out@;
            assert(k == key@);
            if i > 0 {
                out.append(",");
            }
            out.append("{\"version\":");
            push_u64(&mut out, key.version);
            out.append(",\"public_key\":\"");
            out.append(b64_encode(key.public_key.as_slice()).as_str());
            out.append("\",\"algorithm\":\"hpke-p256\"}");
            proof {
                let next = keys.take(i + 1);
                assert(next.drop_last() =~= keys.take(i as int));
                if i > 0 {
                    assert(out@ =~= before + ","@ + keyring_entry(k));
                    assert(out@ =~= start + keyring_entries(next));
                } else {
                    assert(keys.take(0) =~= Seq::empty());
                    assert(before =~= start);
                    assert(out@ =~= start + keyring_entry(k));
                    assert(next[0] == k);
                }
            }
            i = i + 1;
        }
        assert(keys.take(keys.len() as int) =~= keys);
        out.append("]}");
        out
    }

    /// The binary form of the store, for sealing. The number of keys and the lengths are cut to the
    /// bytes that they have.
    pub fn encode(&self) -> (out: Vec<u8>)
        ensures
            out@ == store_encoded(self@),
    {
        let ghost keys = self@.keys;
        let mut out: Vec<u8> = Vec::new();
        push_le(&mut out, self.current_version, 8);
        push_le(&mut out, self.keys.len() as u64, 1);
        let mut i: usize = 0;
        assert(keys.skip(0) =~= keys);
        assert(out@ + keys_encoded(keys.skip(0)) =~= store_encoded(self@));
        while i < self.keys.len()
            invariant
                i <= self.keys@.len(),
                keys == self@.keys,
                out@ + keys_encoded(keys.skip(i as int)) == store_encoded(self@),
            decreases self.keys@.len() - i,
        {
            let key = &self.keys[i];
            let ghost k = keys[i as int];
            let ghost before = out@;
            assert(k == key@);
            push_le(&mut out, key.version, 8);
            push_le(&mut out, key.public_key.len() as u64, 2);
            append(&mut out, key.public_key.as_slice());
            push_le(&mut out, key.private_key.len() as u64, 2);
            append(&mut out, key.private_key.as_slice());
            proof {
                assert(out@ =~= before + key_encoded(k));
                assert(keys.skip(i as int).skip(1) =~= keys.skip(i + 1));
                assert(before + (key_encoded(k) + keys_encoded(keys.skip(i + 1))) =~= out@
                    + keys_encoded(keys.skip(i + 1)));
            }
            i = i + 1;
        }
        assert(out@ + keys_encoded(keys.skip(i as int)) =~= out@);
        out
    }

    /// Reads one key, `from` on: the key and where the next one starts.
    fn decode_key(bytes: &[u8], from: usize) -> (out: Result<(StoredKey, usize), String>)
        requires
            from <= bytes@.len(),
        ensures
            match out {
                Ok(found) => {
                    &&& key_decoded(bytes@.skip(from as int)) == Ok::<(KeyView, int), Seq<char>>(
                        (found.0@, found.1 - from),
                    )
                    &&& from <= found.1 <= bytes@.len()
                },
                Err(e) => key_decoded(bytes@.skip(from as int)) == Err::<(KeyView, int), Seq<char>>(
                    e@,
                ),
            },
    {
        let ghost b = bytes@.skip(from as int);
        proof {
            reveal(key_decoded);
        }
        if bytes.len() - from < 10 {
            return Err("truncated keystore".to_owned());
        }
        proof {
            lemma_pow256();
            assert(b.take(8) =~= bytes@.subrange(from as int, from + 8));
            assert(b.subrange(8, 10) =~= bytes@.subrange(from + 8, from + 10));
            lemma_le_value_bound(b.subrange(8, 10));
            lemma_le_value_bound(b.take(8));
        }
        let version: u64 = read_le(bytes, from, 8);
        let pk_len: usize = read_le(bytes, from + 8, 2) as usize;
        let pk_at: usize = from + 10;
        if bytes.len() - pk_at < pk_len || bytes.len() - pk_at - pk_len < 2 {
            return Err("truncated pubkey".to_owned());
        }
        proof {
            assert(b.subrange(10 + pk_len, 12 + pk_len) =~= bytes@.subrange(
                pk_at + pk_len,
                pk_at + pk_len + 2,
            ));
            lemma_le_value_bound(b.subrange(10 + pk_len, 12 + pk_len));
        }
        let sk_len: usize = read_le(bytes, pk_at + pk_len, 2) as usize;
        let sk_at: usize = pk_at + pk_len + 2;
        if bytes.len() - sk_at < sk_len {
            return Err("truncated seckey".to_owned());
        }
        let public_key = part(bytes, pk_at, pk_at + pk_len);
        let private_key = part(bytes, sk_at, sk_at + sk_len);
        assert(public_key@ =~= b.subrange(10, 10 + pk_len));
        assert(private_key@ =~= b.subrange(12 + pk_len, 12 + pk_len + sk_len));
        Ok((StoredKey { version, public_key, private_key }, sk_at + sk_len))
    }

    /// Reads a store from its binary form.
    pub fn decode(bytes: &[u8]) -> (out: Result<Self, String>)
        ensures
            outcome(out) == store_decoded(bytes@),
    {
        if bytes.len() < 9 {
            return Err("keystore too short".to_owned());
        }
        proof {
            assert(bytes@.take(8) =~= bytes@.subrange(0, 8));
        }
        let current_version: u64 = read_le(bytes, 0, 8);
        let n: usize = bytes[8] as usize;
        let ghost all = keys_decoded(bytes@.skip(9), n as nat);
        let mut off: usize = 9;
        let mut keys: Vec<StoredKey> = Vec::new();
        let mut i: usize = 0;
        assert(behind(key_views(keys@), all) == all) by {
            if let Ok(ks) = all {
                assert(key_views(keys@) + ks =~= ks);
            }
        }
        while i < n
            invariant
                i <= n,
                9 <= off <= bytes@.len(),
                all == keys_decoded(bytes@.skip(9), n as nat),
                behind(key_views(keys@), keys_decoded(bytes@.skip(off as int), (n - i) as nat)) == all,
                bytes@.len() >= 9,
                n == bytes@[8],
            decreases n - i,
        {
            let ghost done = key_views(keys@);
            let ghost b = bytes@.skip(off as int);
            match Self::decode_key(bytes, off) {
                Ok((key, next)) => {
                    proof {
                        let rest = keys_decoded(bytes@.skip(next as int), (n - i - 1) as nat);
                        assert(b.skip(next - off) =~= bytes@.skip(next as int));
                        assert(key_views(keys@.push(key)) =~= done.push(key@));
                        if let Ok(ks) = rest {
                            assert(done + (seq![key@] + ks) =~= done.push(key@) + ks);
                        }
                    }
                    keys.push(key);
                    off = next;
                },
                Err(e) => return Err(e),
            }
            i = i + 1;
        }
        assert(key_views(keys@) + Seq::<KeyView>::empty() =~= key_views(keys@));
        Ok(KeyStore { current_version, keys })
    }
}

impl Clone for KeyStore {
    fn clone(&self) -> (out: KeyStore)
        ensures
            out@ == self@,
    {
        let mut keys: Vec<StoredKey> = Vec::new();
        let mut i: usize = 0;
        while i < self.keys.len()
            invariant
                i <= self.keys@.len(),
                keys@.len() == i,
                forall|j: int| 0 <= j < i ==> (#[trigger] keys@[j])@ == self.keys@[j]@,
            decreases self.keys@.len() - i,
        {
            keys.push(self.keys[i].clone());
            i = i + 1;
        }
        assert(key_views(keys@) =~= key_views(self.keys@));
        KeyStore { current_version: self.current_version, keys }
    }
}

/// Whether the numbers of a store fit in the bytes that its binary form has for them.
pub open spec fn encodable(s: StoreView) -> bool {
    &&& s.keys.len() < 0x100
    &&& forall|i: int|
        0 <= i < s.keys.len() ==> (#[trigger] s.keys[i]).public_key.len() < 0x1_0000
            && s.keys[i].private_key.len() < 0x1_0000
}

/// A key is read back from its binary form, whatever stands behind it.
proof fn lemma_key_read_back(k: KeyView, rest: Seq<u8>)
    requires
        k.public_key.len() < 0x1_0000,
        k.private_key.len() < 0x1_0000,
    ensures
        key_decoded(key_encoded(k) + rest) == Ok::<(KeyView, int), Seq<char>>(
            (k, key_encoded(k).len() as int),
        ),
{
    broadcast use lemma_le_len;

    reveal(key_decoded);
    lemma_pow256();
    let b = key_encoded(k) + rest;
    let p = k.public_key.len() as int;
    lemma_le_read_back(k.version as nat, 8);
    lemma_le_read_back(k.public_key.len(), 2);
    lemma_le_read_back(k.private_key.len(), 2);
    assert(b.take(8) =~= le(k.version as nat, 8));
    assert(b.subrange(8, 10) =~= le(k.public_key.len(), 2));
    assert(b.subrange(10, 10 + p) =~= k.public_key);
    assert(b.subrange(10 + p, 12 + p) =~= le(k.private_key.len(), 2));
    assert(b.subrange(12 + p, 12 + p + k.private_key.len()) =~= k.private_key);
}

/// Keys are read back from their binary form, whatever stands behind them.
proof fn lemma_keys_read_back(keys: Seq<KeyView>, rest: Seq<u8>)
    requires
        forall|i: int|
            0 <= i < keys.len() ==> (#[trigger] keys[i]).public_key.len() < 0x1_0000
                && keys[i].private_key.len() < 0x1_0000,
    ensures
        keys_decoded(keys_encoded(keys) + rest, keys.len()) == Ok::<Seq<KeyView>, Seq<char>>(keys),
    decreases keys.len(),
{
    if keys.len() == 0 {
        assert(keys =~= Seq::empty());
    } else {
        let k = keys[0];
        let tail = keys.skip(1);
        let b = keys_encoded(keys) + rest;
        assert forall|i: int| 0 <= i < tail.len() implies (#[trigger] tail[i]).public_key.len()
            < 0x1_0000 && tail[i].private_key.len() < 0x1_0000 by {
            assert(tail[i] == keys[i + 1]);
        }
        lemma_keys_read_back(tail, rest);
        lemma_key_read_back(k, keys_encoded(tail) + rest);
        assert(b =~= key_encoded(k) + (keys_encoded(tail) + rest));
        assert(b.skip(key_encoded(k).len() as int) =~= keys_encoded(tail) + rest);
        assert(seq![k] + tail =~= keys);
    }
}

/// Decoding gives back the store that was encoded, whatever stands behind it.
pub proof fn law_decode_gives_back_encode(s: StoreView, rest: Seq<u8>)
    requires
        encodable(s),
    ensures
        store_decoded(store_encoded(s) + rest) == Ok::<StoreView, Seq<char>>(s),
{
    broadcast use lemma_le_len;

    lemma_pow256();
    let b = store_encoded(s) + rest;
    lemma_le_read_back(s.current_version as nat, 8);
    assert(b.take(8) =~= le(s.current_version as nat, 8));
    assert(le(s.keys.len(), 1)[0] == s.keys.len() as u8);
    assert(b[8] == s.keys.len() as u8);
    assert(b.skip(9) =~= keys_encoded(s.keys) + rest);
    lemma_keys_read_back(s.keys, rest);
}

/// A key that was read has the bytes that it was read from.
proof fn lemma_key_write_back(b: Seq<u8>)
    requires
        key_decoded(b) is Ok,
    ensures
        key_encoded(key_decoded(b)->Ok_0.0) == b.take(key_decoded(b)->Ok_0.1),
        key_decoded(b)->Ok_0.0.public_key.len() < 0x1_0000,
        key_decoded(b)->Ok_0.0.private_key.len() < 0x1_0000,
        0 <= key_decoded(b)->Ok_0.1 <= b.len(),
{
    broadcast use lemma_le_len;

    reveal(key_decoded);
    lemma_pow256();
    let p = le_value(b.subrange(8, 10)) as int;
    lemma_le_value_bound(b.take(8));
    lemma_le_write_back(b.take(8));
    lemma_le_write_back(b.subrange(8, 10));
    lemma_le_write_back(b.subrange(10 + p, 12 + p));
    lemma_le_value_bound(b.subrange(8, 10));
    lemma_le_value_bound(b.subrange(10 + p, 12 + p));
    let (k, used) = key_decoded(b)->Ok_0;
    assert(key_encoded(k) =~= b.take(used));
}

/// Keys that were read have the bytes that they were read from.
proof fn lemma_keys_write_back(b: Seq<u8>, n: nat)
    requires
        keys_decoded(b, n) is Ok,
    ensures
        keys_decoded(b, n)->Ok_0.len() == n,
        forall|i: int|
            0 <= i < n ==> (#[trigger] keys_decoded(b, n)->Ok_0[i]).public_key.len() < 0x1_0000
                && keys_decoded(b, n)->Ok_0[i].private_key.len() < 0x1_0000,
        keys_encoded(keys_decoded(b, n)->Ok_0).is_prefix_of(b),
    decreases n,
{
    if n > 0 {
        lemma_key_write_back(b);
        let (k, used) = key_decoded(b)->Ok_0;
        let tail = keys_decoded(b.skip(used), (n - 1) as nat);
        lemma_keys_write_back(b.skip(used), (n - 1) as nat);
        let keys = seq![k] + tail->Ok_0;
        assert(keys.skip(1) =~= tail->Ok_0);
        assert forall|i: int| 0 <= i < n implies (#[trigger] keys[i]).public_key.len() < 0x1_0000
            && keys[i].private_key.len() < 0x1_0000 by {
            if i > 0 {
                assert(keys[i] == tail->Ok_0[i - 1]);
            }
        }
        let e = keys_encoded(tail->Ok_0);
        assert(e == b.skip(used).take(e.len() as int));
        assert(b.take(used) + e =~= b.take(used + e.len()));
    }
}

/// A store that was decoded fits in its binary form, and has the bytes that it was decoded from, up
/// to what stands behind its last key.
pub proof fn law_encode_gives_back_decode(b: Seq<u8>)
    requires
        store_decoded(b) is Ok,
    ensures
        encodable(store_decoded(b)->Ok_0),
        store_encoded(store_decoded(b)->Ok_0).is_prefix_of(b),
{
    broadcast use lemma_le_len;

    lemma_pow256();
    let s = store_decoded(b)->Ok_0;
    lemma_keys_write_back(b.skip(9), b[8] as nat);
    lemma_le_value_bound(b.take(8));
    lemma_le_write_back(b.take(8));
    let e = keys_encoded(s.keys);
    assert(le(s.keys.len(), 1)[0] == b[8]);
    assert(e == b.skip(9).take(e.len() as int));
    assert(store_encoded(s) =~= b.take(9 + e.len() as int));
}

/// A rotation to a key pair that belongs together keeps a store as rotations leave it, and makes
/// the new pair the current one.
pub proof fn law_rotation_keeps_the_store_well_formed(
    s: StoreView,
    public_key: Seq<u8>,
    private_key: Seq<u8>,
)
    requires
        s.wf() || s == empty_store(),
        s.current_version < u64::MAX,
        hpke_pair(public_key, private_key),
    ensures
        rotated(s, public_key, private_key).wf(),
        rotated(s, public_key, private_key).keys.len() <= RETENTION,
        rotated(s, public_key, private_key).current_version == s.current_version + 1,
        rotated(s, public_key, private_key).current() == Some(
            KeyView { version: (s.current_version + 1) as u64, public_key, private_key },
        ),
{
    let r = rotated(s, public_key, private_key);
    reveal_with_fuel(key_of, 3);
    if s == empty_store() {
        assert(r.keys[0] == KeyView { version: 1, public_key, private_key });
    }
}

/// A store that was rotated holds the current version and the one before it, and no other: older
/// versions are expired, all the rest is unknown.
pub proof fn law_lookup_tells_expired_from_unknown(s: StoreView, version: u64)
    requires
        s.wf(),
    ensures
        looked_up(s, version) is Ok <==> version == s.current_version || (version >= 1 && version
            == s.current_version - 1),
        looked_up(s, version) matches Ok(k) ==> k.version == version && hpke_pair(
            k.public_key,
            k.private_key,
        ),
        looked_up(s, version) == Err::<KeyView, DecryptErr>(DecryptErr::Expired) <==> version
            <= s.current_version - 2,
        looked_up(s, version) == Err::<KeyView, DecryptErr>(DecryptErr::Unknown) <==> version
            > s.current_version || (version == 0 && s.current_version == 1),
{
    reveal_with_fuel(key_of, 3);
    if s.keys.len() == 2 {
        assert(s.keys.skip(1)[0] == s.keys[1]);
    }
}

/// A store that was rotated fits in its binary form.
pub proof fn law_rotated_stores_can_be_encoded(s: StoreView)
    requires
        s.wf(),
    ensures
        encodable(s),
{
    assert forall|i: int| 0 <= i < s.keys.len() implies (#[trigger] s.keys[i]).public_key.len()
        < 0x1_0000 && s.keys[i].private_key.len() < 0x1_0000 by {
        assert(hpke_pair(s.keys[i].public_key, s.keys[i].private_key));
    }
}

/// What is encrypted to the current key can be decrypted, still can after one rotation, and after
/// two comes back as expired.
pub proof fn law_ciphertext_survives_one_rotation(
    s: StoreView,
    ct: Seq<u8>,
    aad: Seq<u8>,
    plaintext: Seq<u8>,
    pk1: Seq<u8>,
    sk1: Seq<u8>,
    pk2: Seq<u8>,
    sk2: Seq<u8>,
)
    requires
        s.wf(),
        s.current_version < u64::MAX - 1,
        hpke_pair(pk1, sk1),
        hpke_pair(pk2, sk2),
        sealed_to(s.current()->0.public_key, ct, aad, plaintext),
    ensures
        store_opened(s, s.current_version, ct, aad) == Ok::<Seq<u8>, DecryptErr>(plaintext),
        store_opened(rotated(s, pk1, sk1), s.current_version, ct, aad) == Ok::<Seq<u8>, DecryptErr>(
            plaintext,
        ),
        store_opened(rotated(rotated(s, pk1, sk1), pk2, sk2), s.current_version, ct, aad) == Err::<
            Seq<u8>,
            DecryptErr,
        >(DecryptErr::Expired),
{
    let r1 = rotated(s, pk1, sk1);
    let r2 = rotated(r1, pk2, sk2);
    law_rotation_keeps_the_store_well_formed(s, pk1, sk1);
    law_rotation_keeps_the_store_well_formed(r1, pk2, sk2);
    law_lookup_tells_expired_from_unknown(s, s.current_version);
    law_lookup_tells_expired_from_unknown(r1, s.current_version);
    law_lookup_tells_expired_from_unknown(r2, s.current_version);
    reveal_with_fuel(key_of, 3);
    let k = s.keys.last();
    if s.keys.len() == 2 {
        assert(s.keys.skip(1)[0] == s.keys[1]);
    }
    assert(s.current() == Some(k));
    assert(r1.keys[0] == k);
    assert(hpke_pair(k.public_key, k.private_key));
}

/// Whether two rows of keys differ in private keys only.
pub open spec fn same_public_keys(a: Seq<KeyView>, b: Seq<KeyView>) -> bool {
    &&& a.len() == b.len()
    &&& forall|i: int|
        #![trigger a[i]]
        #![trigger b[i]]
        0 <= i < a.len() ==> a[i].version == b[i].version && a[i].public_key == b[i].public_key
}

/// Whether two stores differ in private keys only.
pub open spec fn same_public(a: StoreView, b: StoreView) -> bool {
    a.current_version == b.current_version && same_public_keys(a.keys, b.keys)
}

/// Looking for a version does not depend on private keys.
proof fn lemma_found_public(a: Seq<KeyView>, b: Seq<KeyView>, version: u64)
    requires
        same_public_keys(a, b),
    ensures
        match (key_of(a, version), key_of(b, version)) {
            (Some(x), Some(y)) => x.version == y.version && x.public_key == y.public_key,
            (None, None) => true,
            _ => false,
        },
    decreases a.len(),
{
    if a.len() > 0 {
        assert(a[0].version == b[0].version);
        assert forall|i: int| 0 <= i < a.skip(1).len() implies #[trigger] a.skip(1)[i].version
            == b.skip(1)[i].version && a.skip(1)[i].public_key == b.skip(1)[i].public_key by {
            assert(a[i + 1].version == b[i + 1].version);
        }
        lemma_found_public(a.skip(1), b.skip(1), version);
    }
}

/// The entries of the keyring do not depend on private keys.
proof fn lemma_listed_public(a: Seq<KeyView>, b: Seq<KeyView>)
    requires
        same_public_keys(a, b),
    ensures
        keyring_entries(a) == keyring_entries(b),
    decreases a.len(),
{
    if a.len() == 1 {
        assert(a[0].version == b[0].version);
    } else if a.len() > 1 {
        assert(a.last() == a[a.len() - 1] && b.last() == b[b.len() - 1]);
        assert forall|i: int| 0 <= i < a.drop_last().len() implies #[trigger] a.drop_last()[i].version
            == b.drop_last()[i].version && a.drop_last()[i].public_key
            == b.drop_last()[i].public_key by {
            assert(a[i].version == b[i].version);
        }
        lemma_listed_public(a.drop_last(), b.drop_last());
    }
}

/// What is public of a store, its keyring and its current public key, shows nothing of its private
/// keys: it is the same for any other private keys.
pub proof fn law_keyring_shows_no_private_key(a: StoreView, b: StoreView)
    requires
        same_public(a, b),
    ensures
        keyring_text(a) == keyring_text(b),
        match (a.current(), b.current()) {
            (Some(x), Some(y)) => x.version == y.version && x.public_key == y.public_key,
            (None, None) => true,
            _ => false,
        },
{
    lemma_listed_public(a.keys, b.keys);
    lemma_found_public(a.keys, b.keys, a.current_version);
}

/// A version finds the first key that has it, and finds nothing where no key has it.
pub proof fn law_version_finds_its_first_key(keys: Seq<KeyView>, version: u64)
    ensures
        match key_of(keys, version) {
            Some(k) => k.version == version && exists|i: int|
                0 <= i < keys.len() && #[trigger] keys[i] == k && forall|j: int|
                    0 <= j < i ==> (#[trigger] keys[j]).version != version,
            None => forall|i: int| 0 <= i < keys.len() ==> (#[trigger] keys[i]).version != version,
        },
    decreases keys.len(),
{
    if keys.len() > 0 && keys[0].version != version {
        let tail = keys.skip(1);
        law_version_finds_its_first_key(tail, version);
        match key_of(keys, version) {
            Some(k) => {
                let i = choose|i: int|
                    0 <= i < tail.len() && #[trigger] tail[i] == k && forall|j: int|
                        0 <= j < i ==> (#[trigger] tail[j]).version != version;
                assert(keys[i + 1] == k);
                assert forall|j: int| 0 <= j < i + 1 implies (#[trigger] keys[j]).version
                    != version by {
                    if j > 0 {
                        assert(tail[j - 1] == keys[j]);
                    }
                }
            },
            None => {
                assert forall|j: int| 0 <= j < keys.len() implies (#[trigger] keys[j]).version
                    != version by {
                    if j > 0 {
                        assert(tail[j - 1] == keys[j]);
                    }
                }
            },
        }
    } else if keys.len() > 0 {
        assert(keys[0] == key_of(keys, version)->0);
    }
}

/// A rotation counts the version up by one and puts the new key pair last, under that version. Of
/// the keys before, only the last one stays, as it was.
pub proof fn law_rotation_puts_the_new_key_last(
    s: StoreView,
    public_key: Seq<u8>,
    private_key: Seq<u8>,
)
    requires
        s.current_version < u64::MAX,
    ensures
        ({
            let r = rotated(s, public_key, private_key);
            &&& r.current_version == s.current_version + 1
            &&& r.keys.len() == if s.keys.len() == 0 {
                1int
            } else {
                2
            }
            &&& r.keys.last().version == s.current_version + 1
            &&& r.keys.last().public_key == public_key
            &&& r.keys.last().private_key == private_key
            &&& (s.keys.len() > 0 ==> r.keys[0] == s.keys.last())
            &&& ((forall|i: int|
                0 <= i < s.keys.len() ==> (#[trigger] s.keys[i]).version <= s.current_version)
                ==> r.current() == Some(r.keys.last()))
        }),
{
    let r = rotated(s, public_key, private_key);
    if r.keys.len() == 2 {
        assert(r.keys[0] == s.keys[s.keys.len() - 1]);
        assert(r.keys.skip(1)[0] == r.keys.last());
        assert(key_of(r.keys.skip(1), r.current_version) == Some(r.keys.last()));
    } else {
        assert(r.keys[0] == r.keys.last());
    }
}

/// A ciphertext for a version is decrypted with the private key of that version and no other. A
/// version that is not held is too old if it lies two or more behind, and otherwise not known. Each
/// of the errors has its code and its words.
pub proof fn law_ciphertext_is_opened_with_the_key_of_its_version(
    s: StoreView,
    version: u64,
    ct: Seq<u8>,
    aad: Seq<u8>,
)
    ensures
        match key_of(s.keys, version) {
            Some(k) => {
                &&& looked_up(s, version) == Ok::<KeyView, DecryptErr>(k)
                &&& (opened(k.private_key, ct, aad) matches Ok(plain) ==> store_opened(
                    s,
                    version,
                    ct,
                    aad,
                ) == Ok::<Seq<u8>, DecryptErr>(plain))
                &&& (opened(k.private_key, ct, aad) is Err ==> store_opened(s, version, ct, aad)
                    == Err::<Seq<u8>, DecryptErr>(DecryptErr::Failed))
            },
            None => {
                let why = if version + 2 <= s.current_version {
                    DecryptErr::Expired
                } else {
                    DecryptErr::Unknown
                };
                &&& looked_up(s, version) == Err::<KeyView, DecryptErr>(why)
                &&& store_opened(s, version, ct, aad) == Err::<Seq<u8>, DecryptErr>(why)
            },
        },
        DecryptErr::Expired.code_text() == "key_expired"@,
        DecryptErr::Expired.message_text() == "key version expired (retention=2)"@,
        DecryptErr::Unknown.code_text() == "key_unknown"@,
        DecryptErr::Unknown.message_text() == "key version unknown"@,
        DecryptErr::Failed.code_text() == "decrypt_failed"@,
        DecryptErr::Failed.message_text() == "hpke decrypt failed"@,
{
}

/// The keyring lists each key with its version and its public key, the oldest first, behind the
/// current version.
pub proof fn law_keyring_lists_the_public_keys(s: StoreView, k: KeyView)
    ensures
        keyring_text(s) == "{\"v\":1,\"current_version\":"@ + dec_int(s.current_version as int)
            + ",\"keys\":["@ + keyring_entries(s.keys) + "]}"@,
        keyring_entry(k) == "{\"version\":"@ + dec_int(k.version as int) + ",\"public_key\":\""@
            + base64_text(k.public_key) + "\",\"algorithm\":\"hpke-p256\"}"@,
        keyring_entries(Seq::empty()) == Seq::<char>::empty(),
        keyring_entries(seq![k]) == keyring_entry(k),
        s.keys.len() > 0 ==> keyring_entries(s.keys.push(k)) == keyring_entries(s.keys) + ","@
            + keyring_entry(k),
{
    law_integers_are_written_in_decimal(s.current_version as int);
    law_integers_are_written_in_decimal(k.version as int);
    assert(s.keys.push(k).drop_last() =~= s.keys);
}

/// The binary form of a store: the current version in eight bytes, the number of keys in one, and
/// then each key: its version in eight bytes, and both of its halves behind their lengths in two
/// bytes. All numbers have their low byte first.
pub proof fn law_store_is_written_key_by_key(s: StoreView, k: KeyView, rest: Seq<KeyView>)
    requires
        s.keys == seq![k] + rest,
        s.keys.len() < 0x100,
    ensures
        ({
            let b = store_encoded(s);
            let p = k.public_key.len() as int;
            let q = k.private_key.len() as int;
            &&& b.len() >= 9 + 12 + p + q
            &&& le_value(b.take(8)) == s.current_version
            &&& b[8] == s.keys.len()
            &&& le_value(b.subrange(9, 17)) == k.version
            &&& (p < 0x1_0000 ==> le_value(b.subrange(17, 19)) == p)
            &&& b.subrange(19, 19 + p) == k.public_key
            &&& (q < 0x1_0000 ==> le_value(b.subrange(19 + p, 21 + p)) == q)
            &&& b.subrange(21 + p, 21 + p + q) == k.private_key
            &&& b.skip(21 + p + q) == keys_encoded(rest)
        }),
        keys_encoded(Seq::empty()) == Seq::<u8>::empty(),
        keys_encoded(seq![k] + rest) == key_encoded(k) + keys_encoded(rest),
{
    broadcast use lemma_le_len;

    lemma_pow256();
    let b = store_encoded(s);
    let p = k.public_key.len() as int;
    let q = k.private_key.len() as int;
    assert(s.keys.skip(1) =~= rest);
    assert(s.keys[0] == k);
    lemma_le_read_back(s.current_version as nat, 8);
    lemma_le_read_back(k.version as nat, 8);
    assert(b.take(8) =~= le(s.current_version as nat, 8));
    assert(le(s.keys.len(), 1)[0] == s.keys.len() as u8);
    assert(b[8] == le(s.keys.len(), 1)[0]);
    assert(b.subrange(9, 17) =~= le(k.version as nat, 8));
    assert(b.subrange(17, 19) =~= le(k.public_key.len(), 2));
    if p < 0x1_0000 {
        lemma_le_read_back(k.public_key.len(), 2);
    }
    assert(b.subrange(19, 19 + p) =~= k.public_key);
    assert(b.subrange(19 + p, 21 + p) =~= le(k.private_key.len(), 2));
    if q < 0x1_0000 {
        lemma_le_read_back(k.private_key.len(), 2);
    }
    assert(b.subrange(21 + p, 21 + p + q) =~= k.private_key);
    assert(b.skip(21 + p + q) =~= keys_encoded(rest));
}

/// Bytes that end before the number of keys, or inside the first key, are no store; what is
/// missing is told.
pub proof fn law_cut_store_is_refused(b: Seq<u8>)
    ensures
        b.len() < 9 ==> store_decoded(b) == Err::<StoreView, Seq<char>>("keystore too short"@),
        b.len() >= 9 && b[8] == 0 ==> store_decoded(b) == Ok::<StoreView, Seq<char>>(
            StoreView { current_version: le_value(b.take(8)) as u64, keys: Seq::empty() },
        ),
        9 <= b.len() < 19 && b[8] > 0 ==> store_decoded(b) == Err::<StoreView, Seq<char>>(
            "truncated keystore"@,
        ),
        b.len() >= 19 && b[8] > 0 ==> ({
            let p = le_value(b.subrange(17, 19)) as int;
            let q = le_value(b.subrange(19 + p, 21 + p)) as int;
            &&& (b.len() < 21 + p ==> store_decoded(b) == Err::<StoreView, Seq<char>>(
                "truncated pubkey"@,
            ))
            &&& (21 + p <= b.len() < 21 + p + q ==> store_decoded(b) == Err::<
                StoreView,
                Seq<char>,
            >("truncated seckey"@))
        }),
{
    reveal(key_decoded);
    if b.len() >= 9 {
        let c = b.skip(9);
        if b.len() >= 19 {
            let p = le_value(b.subrange(17, 19)) as int;
            assert(c.subrange(8, 10) =~= b.subrange(17, 19));
            if b.len() >= 21 + p {
                assert(c.subrange(10 + p, 12 + p) =~= b.subrange(19 + p, 21 + p));
            }
        }
    }
}

/// A store with one key more in front is read like the store without it: what cannot be read is told
/// in the same words, and what can be read has that key in front.
pub proof fn law_keys_are_read_one_by_one(version: u64, n: u8, k: KeyView, rest: Seq<u8>)
    requires
        n > 0,
        k.public_key.len() < 0x1_0000,
        k.private_key.len() < 0x1_0000,
    ensures
        ({
            let without = store_decoded(le(version as nat, 8) + seq![(n - 1) as u8] + rest);
            let with_key = store_decoded(
                le(version as nat, 8) + seq![n] + (key_encoded(k) + rest),
            );
            match without {
                Err(e) => with_key == Err::<StoreView, Seq<char>>(e),
                Ok(s) => with_key == Ok::<StoreView, Seq<char>>(
                    StoreView { current_version: version, keys: seq![k] + s.keys },
                ) && s.current_version == version,
            }
        }),
{
    broadcast use lemma_le_len;

    let a = le(version as nat, 8) + seq![(n - 1) as u8] + rest;
    let b = le(version as nat, 8) + seq![n] + (key_encoded(k) + rest);
    lemma_pow256();
    lemma_le_read_back(version as nat, 8);
    assert(a.skip(9) =~= rest);
    assert(b.skip(9) =~= key_encoded(k) + rest);
    assert(a.take(8) =~= le(version as nat, 8));
    assert(b.take(8) =~= le(version as nat, 8));
    lemma_key_read_back(k, rest);
    assert((key_encoded(k) + rest).skip(key_encoded(k).len() as int) =~= rest);
}

} // verus!
