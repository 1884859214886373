//! Secrets under authenticated encryption.
//!
//! A vault seals a secret with AES-256-GCM under its key and a fresh
//! 96-bit nonce, and hands a secret out only in a buffer that is wiped when
//! it is dropped.

use crate::random::random_bytes;
use crate::string_map::StringMap;
use crate::text::views;
use aes_gcm::aead::{Aead, KeyInit};
use vstd::prelude::*;
use vstd::slice::slice_to_vec;
use vstd::string::*;
use vstd::utf8::{decode_utf8, encode_utf8_decode_utf8, valid_utf8};

verus! {

/// The length of a nonce in bytes.
pub const NONCE_LEN: usize = 12;

/// The longest plaintext that AES-GCM seals: 2^36 bytes.
pub const MAX_PLAINTEXT_LEN: u64 = 0x10_0000_0000;

/// A sealed secret: the ciphertext with its tag, the nonce it was sealed
/// with, and the version of the key.
#[derive(Debug)]
pub struct EncryptedValue {
    pub ciphertext: Vec<u8>,
    pub iv: Vec<u8>,
    pub version: u32,
}

pub struct EncryptedValueView {
    pub ciphertext: Seq<u8>,
    pub iv: Seq<u8>,
    pub version: u32,
}

impl View for EncryptedValue {
    type V = EncryptedValueView;

    open spec fn view(&self) -> EncryptedValueView {
        EncryptedValueView { ciphertext: self.ciphertext@, iv: self.iv@, version: self.version }
    }
}

impl Clone for EncryptedValue {
    fn clone(&self) -> (copy: Self)
        ensures
            copy@ == self@,
    {
        EncryptedValue {
            ciphertext: self.ciphertext.clone(),
            iv: self.iv.clone(),
            version: self.version,
        }
    }
}

/// A secret in the clear. Its bytes are wiped when it is dropped.
#[derive(Debug)]
pub struct SensitiveData {
    plaintext: Vec<u8>,
}

impl View for SensitiveData {
    type V = Seq<u8>;

    closed spec fn view(&self) -> Seq<u8> {
        self.plaintext@
    }
}

/// `std::str::Utf8Error`, carried through as it comes.
#[verifier::external_type_specification]
#[verifier::external_body]
pub struct ExUtf8Error(std::str::Utf8Error);

/// `aes_gcm::Error`, which says no more than that sealing or opening failed.
#[verifier::external_type_specification]
#[verifier::external_body]
pub struct ExAeadError(aes_gcm::Error);

/// Overwrites the bytes of `bytes` and its spare capacity with zeros and
/// empties it, with `zeroize::Zeroize::zeroize`.
#[verifier::external_body]
fn wipe(bytes: &mut Vec<u8>)
    ensures
        final(bytes)@.len() == 0,
    opens_invariants none
    no_unwind
{
    zeroize::Zeroize::zeroize(bytes);
}

/// Reads `bytes` as UTF-8 with `std::str::from_utf8`. It succeeds exactly
/// on well-formed UTF-8, and the string then has these bytes.
#[verifier::external_body]
fn utf8_text(bytes: &[u8]) -> (text: Result<&str, std::str::Utf8Error>)
    ensures
        text is Ok <==> valid_utf8(bytes@),
        text matches Ok(s) ==> s.spec_bytes() == bytes@,
{
    std::str::from_utf8(bytes)
}

/// What AES-256-GCM gives for `plaintext` under `key` and `nonce`, without
/// associated data: the ciphertext followed by its tag of 16 bytes.
pub uninterp spec fn aes256_gcm_seal(key: Seq<u8>, nonce: Seq<u8>, plaintext: Seq<u8>) -> Seq<u8>;

/// What AES-256-GCM recovers from `sealed` under `key` and `nonce`, without
/// associated data: the plaintext, or `None` where the tag does not match.
pub uninterp spec fn aes256_gcm_open(key: Seq<u8>, nonce: Seq<u8>, sealed: Seq<u8>) -> Option<
    Seq<u8>,
>;

/// Seals `plaintext` with `aes_gcm::Aes256Gcm` through `Aead::encrypt`.
/// The call fails exactly where the plaintext is longer than 2^36 bytes.
/// The result is `aes256_gcm_seal`, 16 bytes longer than the plaintext, and
/// it opens under the same key and nonce to the plaintext.
#[verifier::external_body]
fn seal(key: &[u8; 32], nonce: &[u8; 12], plaintext: &[u8]) -> (sealed: Result<
    Vec<u8>,
    aes_gcm::Error,
>)
    ensures
        sealed is Ok <==> plaintext@.len() <= MAX_PLAINTEXT_LEN,
        sealed matches Ok(bytes) ==> {
            &&& bytes@ == aes256_gcm_seal(key@, nonce@, plaintext@)
            &&& bytes@.len() == plaintext@.len() + 16
            &&& aes256_gcm_open(key@, nonce@, bytes@) == Some(plaintext@)
        },
{
    let cipher = aes_gcm::Aes256Gcm::new(aes_gcm::Key::<aes_gcm::Aes256Gcm>::from_slice(key));
    cipher.encrypt(aes_gcm::Nonce::from_slice(nonce), plaintext)
}

/// Opens `sealed` with `aes_gcm::Aes256Gcm` through `Aead::decrypt`. The
/// nonce must be 12 bytes long. The result is `aes256_gcm_open`.
#[verifier::external_body]
fn unseal(key: &[u8; 32], nonce: &[u8], sealed: &[u8]) -> (opened: Result<Vec<u8>, aes_gcm::Error>)
    requires
        nonce@.len() == 12,
    ensures
        match opened {
            Ok(bytes) => aes256_gcm_open(key@, nonce@, sealed@) == Some(bytes@),
            Err(_) => aes256_gcm_open(key@, nonce@, sealed@) is None,
        },
{
    let cipher = aes_gcm::Aes256Gcm::new(aes_gcm::Key::<aes_gcm::Aes256Gcm>::from_slice(key));
    cipher.decrypt(aes_gcm::Nonce::from_slice(nonce), sealed)
}

impl Drop for SensitiveData {
    /// Wipes the secret before its storage is given back.
    fn drop(&mut self)
        ensures
            final(self)@.len() == 0,
        opens_invariants none
        no_unwind
    {
        wipe(&mut self.plaintext);
    }
}

impl Clone for SensitiveData {
    fn clone(&self) -> (copy: Self)
        ensures
            copy@ == self@,
    {
        SensitiveData { plaintext: self.plaintext.clone() }
    }
}

impl SensitiveData {
    pub fn new(data: Vec<u8>) -> (secret: Self)
        ensures
            secret@ == data@,
    {
        Self { plaintext: data }
    }

    /// Wipes the secret now: its bytes are overwritten and it is left empty.
    pub fn zeroize(&mut self)
        ensures
            final(self)@.len() == 0,
    {
        wipe(&mut self.plaintext);
    }

    pub fn as_bytes(&self) -> (bytes: &[u8])
        ensures
            bytes@ == self@,
    {
        self.plaintext.as_slice()
    }

    /// The secret as text, where its bytes are well-formed UTF-8.
    pub fn as_str(&self) -> (text: Result<&str, std::str::Utf8Error>)
        ensures
            text is Ok <==> valid_utf8(self@),
            text matches Ok(s) ==> s@ == decode_utf8(self@),
    {
        let text = utf8_text(self.plaintext.as_slice());
        proof {
            if let Ok(s) = text {
                encode_utf8_decode_utf8(s@);
            }
        }
        text
    }
}

pub struct CredentialVault {
    key: [u8; 32],
    version: u32,
    credentials: StringMap<EncryptedValue>,
}

pub struct CredentialVaultView {
    pub key: Seq<u8>,
    pub version: u32,
    pub credentials: Map<Seq<char>, EncryptedValueView>,
}

/// The views of the sealed values of a map.
pub open spec fn sealed_views(values: Map<Seq<char>, EncryptedValue>) -> Map<
    Seq<char>,
    EncryptedValueView,
> {
    values.map_values(|v: EncryptedValue| v@)
}

impl CredentialVaultView {
    /// The sealed value that `plaintext` gives with `nonce`, or why it gives
    /// none.
    pub open spec fn sealed(self, plaintext: Seq<u8>, nonce: Seq<u8>) -> Result<
        EncryptedValueView,
        Seq<char>,
    > {
        if plaintext.len() <= MAX_PLAINTEXT_LEN {
            Ok(
                EncryptedValueView {
                    ciphertext: aes256_gcm_seal(self.key, nonce, plaintext),
                    iv: nonce,
                    version: self.version,
                },
            )
        } else {
            Err("Encryption failed: aead::Error"@)
        }
    }

    /// The plaintext of `value`, or why it cannot be had: the key of its
    /// version is not here, its nonce is not 12 bytes long, or its tag does
    /// not match.
    pub open spec fn opened(self, value: EncryptedValueView) -> Result<Seq<u8>, Seq<char>> {
        if value.version != self.version {
            Err("Key version not found"@)
        } else if value.iv.len() != 12 {
            Err("Decryption failed: invalid nonce length"@)
        } else {
            match aes256_gcm_open(self.key, value.iv, value.ciphertext) {
                Some(plaintext) => Ok(plaintext),
                None => Err("Decryption failed: aead::Error"@),
            }
        }
    }

    /// The plaintext of the credential `id`, or why it cannot be had.
    pub open spec fn retrieved(self, id: Seq<char>) -> Result<Seq<u8>, Seq<char>> {
        if self.credentials.contains_key(id) {
            self.opened(self.credentials[id])
        } else {
            Err("Credential not found"@)
        }
    }

    /// Every credential can be moved to another key: it opens under the
    /// key at hand, and its plaintext is short enough to be sealed again.
    pub open spec fn migratable(self) -> bool {
        forall|id: Seq<char>| #[trigger]
            self.credentials.contains_key(id) ==> (self.retrieved(id) matches Ok(plaintext)
                && plaintext.len() <= MAX_PLAINTEXT_LEN)
    }

    /// `after` is this vault moved to `key` of `version`: it holds the
    /// same credentials, and each of them gives the plaintext that it gave
    /// before.
    pub open spec fn migrated_to(self, after: CredentialVaultView, key: Seq<u8>, version: u32) -> bool {
        &&& after.key == key
        &&& after.version == version
        &&& after.credentials.dom() == self.credentials.dom()
        &&& forall|id: Seq<char>| #[trigger]
            self.credentials.contains_key(id) ==> self.retrieved(id) is Ok && after.retrieved(id)
                == self.retrieved(id)
    }

    /// The vault after `plaintext` is stored under `id` with `nonce`.
    pub open spec fn with_stored(self, id: Seq<char>, plaintext: Seq<u8>, nonce: Seq<u8>) -> CredentialVaultView {
        match self.sealed(plaintext, nonce) {
            Ok(value) => CredentialVaultView {
                credentials: self.credentials.insert(id, value),
                ..self
            },
            Err(_) => self,
        }
    }
}

impl View for CredentialVault {
    type V = CredentialVaultView;

    closed spec fn view(&self) -> CredentialVaultView {
        CredentialVaultView {
            key: self.key@,
            version: self.version,
            credentials: sealed_views(self.credentials@),
        }
    }
}

/// Whether `got` is `want`, the value taken by its view and the error by
/// its text.
pub open spec fn sealed_is(got: Result<EncryptedValue, String>, want: Result<
    EncryptedValueView,
    Seq<char>,
>) -> bool {
    match got {
        Ok(value) => want == Ok::<EncryptedValueView, Seq<char>>(value@),
        Err(message) => want == Err::<EncryptedValueView, Seq<char>>(message@),
    }
}

/// Whether `got` is `want`, the secret taken by its bytes and the error by
/// its text.
pub open spec fn secret_is(got: Result<SensitiveData, String>, want: Result<Seq<u8>, Seq<char>>) -> bool {
    match got {
        Ok(secret) => want == Ok::<Seq<u8>, Seq<char>>(secret@),
        Err(message) => want == Err::<Seq<u8>, Seq<char>>(message@),
    }
}

impl CredentialVault {
    /// An empty vault whose key, of version 1, is `key_material`.
    pub fn new(key_material: [u8; 32]) -> (vault: Self)
        ensures
            vault@ == (CredentialVaultView {
                key: key_material@,
                version: 1,
                credentials: Map::empty(),
            }),
    {
        let vault = Self { key: key_material, version: 1, credentials: StringMap::new() };
        assert(vault@.credentials =~= Map::<Seq<char>, EncryptedValueView>::empty());
        vault
    }

    /// Seals `plaintext` under the vault's key with `nonce` and stamps the
    /// result with the key's version. The ciphertext is the plaintext's
    /// length plus the 16 bytes of the tag, and what comes out opens under
    /// this vault to `plaintext`.
    pub fn encrypt_with_nonce(&self, plaintext: &[u8], nonce: [u8; 12]) -> (result: Result<
        EncryptedValue,
        String,
    >)
        ensures
            sealed_is(result, self@.sealed(plaintext@, nonce@)),
            result is Ok <==> plaintext@.len() <= MAX_PLAINTEXT_LEN,
            result matches Ok(value) ==> value@.ciphertext.len() == plaintext@.len() + 16,
            result matches Ok(value) ==> self@.opened(value@) == Ok::<Seq<u8>, Seq<char>>(
                plaintext@,
            ),
    {
        match seal(&self.key, &nonce, plaintext) {
            Ok(ciphertext) => Ok(
                EncryptedValue {
                    ciphertext,
                    iv: slice_to_vec(nonce.as_slice()),
                    version: self.version,
                },
            ),
            Err(_) => Err("Encryption failed: aead::Error".to_string()),
        }
    }

    /// Seals `plaintext` under the vault's key with a freshly drawn nonce.
    /// It succeeds on every plaintext of at most 2^36 bytes. What comes out
    /// has a nonce of 12 bytes, the version of the vault's key and a
    /// ciphertext 16 bytes longer than the plaintext, and opens under this
    /// vault to `plaintext`.
    pub fn encrypt(&self, plaintext: &[u8]) -> (result: Result<EncryptedValue, String>)
        ensures
            exists|nonce: Seq<u8>|
                nonce.len() == 12 && sealed_is(result, #[trigger] self@.sealed(plaintext@, nonce)),
            result is Ok <==> plaintext@.len() <= MAX_PLAINTEXT_LEN,
            result matches Ok(value) ==> {
                &&& value@.iv.len() == 12
                &&& value@.version == self@.version
                &&& value@.ciphertext.len() == plaintext@.len() + 16
            },
            result matches Ok(value) ==> self@.opened(value@) == Ok::<Seq<u8>, Seq<char>>(
                plaintext@,
            ),
    {
        let nonce = random_bytes::<12>();
        let result = self.encrypt_with_nonce(plaintext, nonce);
        assert(sealed_is(result, self@.sealed(plaintext@, nonce@)));
        result
    }

    /// Opens `encrypted` with the key of its version.
    pub fn decrypt(&self, encrypted: &EncryptedValue) -> (result: Result<SensitiveData, String>)
        ensures
            secret_is(result, self@.opened(encrypted@)),
    {
        if encrypted.version != self.version {
            return Err("Key version not found".to_string());
        }
        if encrypted.iv.len() != NONCE_LEN {
            return Err("Decryption failed: invalid nonce length".to_string());
        }
        match unseal(&self.key, encrypted.iv.as_slice(), encrypted.ciphertext.as_slice()) {
            Ok(plaintext) => Ok(SensitiveData::new(plaintext)),
            Err(_) => Err("Decryption failed: aead::Error".to_string()),
        }
    }

    /// Seals `plaintext` with `nonce` and stores it under `id`, in place of
    /// what was stored there. Where sealing fails nothing changes.
    pub fn store_with_nonce(&mut self, id: String, plaintext: &[u8], nonce: [u8; 12]) -> (result:
        Result<(), String>)
        ensures
            final(self)@ == old(self)@.with_stored(id@, plaintext@, nonce@),
            result is Ok <==> plaintext@.len() <= MAX_PLAINTEXT_LEN,
            result matches Err(message) ==> message@ == "Encryption failed: aead::Error"@,
            result is Ok ==> final(self)@.retrieved(id@) == Ok::<Seq<u8>, Seq<char>>(plaintext@),
            result is Ok ==> final(self)@.credentials[id@].ciphertext.len() == plaintext@.len()
                + 16,
    {
        match self.encrypt_with_nonce(plaintext, nonce) {
            Ok(encrypted) => {
                self.credentials.insert(id, encrypted);
                assert(self@.credentials =~= old(self)@.credentials.insert(id@, encrypted@));
                Ok(())
            },
            Err(message) => Err(message),
        }
    }

    /// Seals `plaintext` with a freshly drawn nonce and stores it under
    /// `id`, in place of what was stored there.
    pub fn store(&mut self, id: String, plaintext: &[u8]) -> (result: Result<(), String>)
        ensures
            exists|nonce: Seq<u8>|
                nonce.len() == 12 && final(self)@ == #[trigger] old(self)@.with_stored(
                    id@,
                    plaintext@,
                    nonce,
                ),
            result is Ok <==> plaintext@.len() <= MAX_PLAINTEXT_LEN,
            result matches Err(message) ==> message@ == "Encryption failed: aead::Error"@,
            result is Ok ==> final(self)@.retrieved(id@) == Ok::<Seq<u8>, Seq<char>>(plaintext@),
            result is Ok ==> {
                &&& final(self)@.credentials.contains_key(id@)
                &&& final(self)@.credentials[id@].iv.len() == 12
                &&& final(self)@.credentials[id@].version == old(self)@.version
                &&& final(self)@.credentials[id@].ciphertext.len() == plaintext@.len() + 16
            },
    {
        let nonce = random_bytes::<12>();
        let result = self.store_with_nonce(id, plaintext, nonce);
        assert(self@ == old(self)@.with_stored(id@, plaintext@, nonce@));
        result
    }

    /// The secret stored under `id`, in the clear.
    pub fn retrieve(&self, id: &str) -> (result: Result<SensitiveData, String>)
        ensures
            secret_is(result, self@.retrieved(id@)),
    {
        match self.credentials.get(id) {
            Some(encrypted) => self.decrypt(encrypted),
            None => Err("Credential not found".to_string()),
        }
    }

    /// Removes the credential `id`.
    pub fn delete(&mut self, id: &str) -> (result: Result<(), String>)
        ensures
            final(self)@ == (CredentialVaultView {
                credentials: old(self)@.credentials.remove(id@),
                ..old(self)@
            }),
            result is Ok <==> old(self)@.credentials.contains_key(id@),
            result matches Err(message) ==> message@ == "Credential not found"@,
    {
        let removed = self.credentials.remove(id);
        assert(self@.credentials =~= old(self)@.credentials.remove(id@));
        match removed {
            Some(_) => Ok(()),
            None => Err("Credential not found".to_string()),
        }
    }

    /// Moves the vault to the key `key_material` of `version`: every
    /// credential is opened under the key at hand and sealed again under the
    /// new one, with a fresh nonce. It succeeds where every credential can
    /// be moved, and says how many were; where one cannot, the vault stays
    /// as it was.
    pub fn rotate_to(&mut self, key_material: [u8; 32], version: u32) -> (result: Result<
        usize,
        String,
    >)
        ensures
            result is Ok <==> old(self)@.migratable(),
            result matches Ok(count) ==> old(self)@.migrated_to(final(self)@, key_material@, version)
                && old(self)@.credentials.dom().finite() && count
                == old(self)@.credentials.dom().len(),
            result is Err ==> final(self)@ == old(self)@,
    {
        let ids = self.credentials.keys();
        let ghost names = views(ids@);
        let ghost from = self@;
        proof {
            assert(from.credentials.dom() =~= self.credentials@.dom());
            names.unique_seq_to_set();
        }
        let mut moved = CredentialVault::new(key_material);
        moved.version = version;
        let mut i: usize = 0;
        while i < ids.len()
            invariant
                i <= ids@.len(),
                names == views(ids@),
                names.no_duplicates(),
                names.to_set() == from.credentials.dom(),
                from == self@,
                *self == *old(self),
                moved@.key == key_material@,
                moved@.version == version,
                moved@.credentials.dom() == names.take(i as int).to_set(),
                forall|id: Seq<char>| #[trigger]
                    names.take(i as int).contains(id) ==> (from.retrieved(id) matches Ok(plaintext)
                        && plaintext.len() <= MAX_PLAINTEXT_LEN) && moved@.retrieved(id)
                        == from.retrieved(id),
            decreases ids@.len() - i,
        {
            let ghost name = names[i as int];
            let ghost sofar = names.take(i as int);
            let ghost upto = names.take(i + 1);
            proof {
                assert(names.contains(name));
                assert(from.credentials.contains_key(name));
                assert forall|id: Seq<char>| upto.contains(id) <==> (id == name || sofar.contains(
                    id,
                )) by {
                    if sofar.contains(id) {
                        let k = choose|k: int| 0 <= k < sofar.len() && #[trigger] sofar[k] == id;
                        assert(upto[k] == id);
                    }
                    if id == name {
                        assert(upto[i as int] == id);
                    }
                    if upto.contains(id) {
                        let k = choose|k: int| 0 <= k < upto.len() && #[trigger] upto[k] == id;
                        if k < i {
                            assert(sofar[k] == id);
                        }
                    }
                }
            }
            let secret = match self.retrieve(ids[i].as_str()) {
                Ok(secret) => secret,
                Err(message) => {
                    return Err(message);
                },
            };
            let ghost before = moved@;
            match moved.store(ids[i].clone(), secret.as_bytes()) {
                Ok(_) => {},
                Err(message) => {
                    return Err(message);
                },
            }
            proof {
                assert(moved@.credentials.dom() =~= upto.to_set());
                assert forall|id: Seq<char>| #[trigger] upto.contains(id) implies (from.retrieved(
                    id,
                ) matches Ok(plaintext) && plaintext.len() <= MAX_PLAINTEXT_LEN) && moved@.retrieved(
                    id,
                ) == from.retrieved(id) by {
                    if id != name {
                        assert(sofar.contains(id));
                        assert(moved@.credentials[id] == before.credentials[id]);
                    }
                }
            }
            i = i + 1;
        }
        proof {
            assert(names.take(i as int) =~= names);
        }
        let count = ids.len();
        *self = moved;
        Ok(count)
    }
}

} // verus!
