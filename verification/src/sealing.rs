//! The encrypted file format shared by ghost files and the stored AI
//! configuration: two magic bytes, a 32-byte random salt, a 12-byte random
//! nonce, then the AES-256-GCM ciphertext (with its tag) of the content
//! under a file key that HKDF-SHA256 derives from the master key and salt.
use vstd::prelude::*;
use aes_gcm::aead::{Aead, KeyInit};
use rand::RngCore;

verus! {

/// The 32 bytes that HKDF-SHA256 expands from `ikm` with `salt` and `info`.
pub uninterp spec fn hkdf_sha256(salt: Seq<u8>, ikm: Seq<u8>, info: Seq<u8>) -> Seq<u8>;

/// `hkdf::Hkdf::<Sha256>::new(Some(salt), ikm)` followed by `expand(info)`
/// into 32 bytes. The key is named `hkdf_sha256` of the three inputs; the
/// expansion cannot fail for 32 bytes (it fails only above 255 * 32).
#[verifier::external_body]
pub(crate) fn hkdf_sha256_key(salt: &[u8], ikm: &[u8], info: &[u8]) -> (k: Vec<u8>)
    ensures
        k@ == hkdf_sha256(salt@, ikm@, info@),
        k@.len() == 32,
{
    let hk = hkdf::Hkdf::<sha2::Sha256>::new(Some(salt), ikm);
    let mut okm = [0u8; 32];
    hk.expand(info, &mut okm).expect("32 bytes never exceed the HKDF output limit");
    okm.to_vec()
}

/// The AES-256-GCM ciphertext, followed by its 16-byte tag, of `plaintext`
/// under `key` and `nonce`.
pub uninterp spec fn aes256gcm_sealed(key: Seq<u8>, nonce: Seq<u8>, plaintext: Seq<u8>) -> Seq<u8>;

/// The longest plaintext AES-GCM accepts: 2^36 bytes.
pub open spec fn gcm_max_plaintext() -> nat {
    0x10_0000_0000
}

/// `Aes256Gcm::encrypt` with no associated data. It succeeds exactly when
/// the plaintext is at most 2^36 bytes, with the ciphertext named
/// `aes256gcm_sealed`; its error displays as `aead::Error`.
#[verifier::external_body]
pub(crate) fn aes256gcm_encrypt(key: &[u8], nonce: &[u8], plaintext: &[u8]) -> (r: Result<
    Vec<u8>,
    String,
>)
    requires
        key@.len() == 32,
        nonce@.len() == 12,
    ensures
        r is Ok <==> plaintext@.len() <= gcm_max_plaintext(),
        r matches Ok(c) ==> c@ == aes256gcm_sealed(key@, nonce@, plaintext@),
        r matches Err(e) ==> e@ == "aead::Error"@,
{
    let cipher = aes_gcm::Aes256Gcm::new(aes_gcm::Key::<aes_gcm::Aes256Gcm>::from_slice(key));
    cipher.encrypt(aes_gcm::Nonce::from_slice(nonce), plaintext).map_err(|e| e.to_string())
}

/// `Aes256Gcm::decrypt` with no associated data. What it gives back is a
/// plaintext whose sealing is the ciphertext, and it gives back any such
/// plaintext (of a length that encryption accepts) that exists: decryption
/// undoes encryption under the same key and nonce, and fails when the tag
/// does not match. Its error displays as `aead::Error`.
#[verifier::external_body]
pub(crate) fn aes256gcm_decrypt(key: &[u8], nonce: &[u8], ciphertext: &[u8]) -> (r: Result<
    Vec<u8>,
    String,
>)
    requires
        key@.len() == 32,
        nonce@.len() == 12,
    ensures
        r matches Ok(p) ==> ciphertext@ == aes256gcm_sealed(key@, nonce@, p@),
        forall|p: Seq<u8>|
            p.len() <= gcm_max_plaintext() && ciphertext@ == aes256gcm_sealed(key@, nonce@, p)
                ==> r is Ok && r->Ok_0@ == p,
        r matches Err(e) ==> e@ == "aead::Error"@,
{
    let cipher = aes_gcm::Aes256Gcm::new(aes_gcm::Key::<aes_gcm::Aes256Gcm>::from_slice(key));
    cipher.decrypt(aes_gcm::Nonce::from_slice(nonce), ciphertext).map_err(|e| e.to_string())
}

/// `n` bytes from the operating system's random source (`OsRng`). Nothing
/// is stated of their values; the source panics only when the operating
/// system cannot supply randomness.
#[verifier::external_body]
pub(crate) fn random_bytes(n: usize) -> (r: Vec<u8>)
    ensures
        r@.len() == n,
{
    let mut v = vec![0u8; n];
    aes_gcm::aead::OsRng.fill_bytes(&mut v);
    v
}

/// The header length: magic, salt and nonce.
pub open spec fn header_len() -> int {
    46
}

/// The key that seals a file: HKDF-SHA256 of the master key with the
/// file's salt and the format's `info` label.
pub open spec fn file_key(master: Seq<u8>, salt: Seq<u8>, info: Seq<u8>) -> Seq<u8> {
    hkdf_sha256(salt, master, info)
}

/// The bytes of a sealed file.
pub open spec fn sealed_file(
    magic: Seq<u8>,
    info: Seq<u8>,
    master: Seq<u8>,
    salt: Seq<u8>,
    nonce: Seq<u8>,
    plaintext: Seq<u8>,
) -> Seq<u8> {
    magic + salt + nonce + aes256gcm_sealed(file_key(master, salt, info), nonce, plaintext)
}

/// The salt stored in a sealed file.
pub open spec fn salt_of(data: Seq<u8>) -> Seq<u8> {
    data.subrange(2, 34)
}

/// The nonce stored in a sealed file.
pub open spec fn nonce_of(data: Seq<u8>) -> Seq<u8> {
    data.subrange(34, 46)
}

/// The ciphertext stored in a sealed file.
pub open spec fn ciphertext_of(data: Seq<u8>) -> Seq<u8> {
    data.subrange(46, data.len() as int)
}

/// `data` is a sealed file of this format that holds `plaintext`.
pub open spec fn opens_to(
    magic: Seq<u8>,
    info: Seq<u8>,
    master: Seq<u8>,
    data: Seq<u8>,
    plaintext: Seq<u8>,
) -> bool {
    &&& data.len() >= header_len()
    &&& data.take(2) == magic
    &&& ciphertext_of(data) == aes256gcm_sealed(
        file_key(master, salt_of(data), info),
        nonce_of(data),
        plaintext,
    )
}

/// Seals `plaintext` with a given salt and nonce.
pub fn seal_with(
    magic: &[u8],
    info: &[u8],
    master: &[u8],
    salt: &[u8],
    nonce: &[u8],
    plaintext: &[u8],
) -> (r: Result<Vec<u8>, String>)
    requires
        magic@.len() == 2,
        salt@.len() == 32,
        nonce@.len() == 12,
    ensures
        r is Ok <==> plaintext@.len() <= gcm_max_plaintext(),
        r matches Ok(d) ==> d@ == sealed_file(magic@, info@, master@, salt@, nonce@, plaintext@),
        r matches Err(e) ==> e@ == "aead::Error"@,
{
    let key = hkdf_sha256_key(salt, master, info);
    let sealed = aes256gcm_encrypt(key.as_slice(), nonce, plaintext);
    match sealed {
        Ok(c) => {
            let mut out: Vec<u8> = Vec::new();
            let mut i: usize = 0;
            while i < 2
                invariant
                    i <= 2,
                    magic@.len() == 2,
                    out@ == magic@.take(i as int),
                decreases 2 - i,
            {
                out.push(magic[i]);
                assert(out@ =~= magic@.take(i + 1));
                i = i + 1;
            }
            assert(magic@.take(2) =~= magic@);
            append_bytes(&mut out, salt);
            append_bytes(&mut out, nonce);
            append_bytes(&mut out, c.as_slice());
            Ok(out)
        },
        Err(e) => Err(e),
    }
}

/// Appends the bytes of `w` to `v`.
pub fn append_bytes(v: &mut Vec<u8>, w: &[u8])
    ensures
        final(v)@ == old(v)@ + w@,
{
    let mut k: usize = 0;
    while k < w.len()
        invariant
            k <= w@.len(),
            v@ == old(v)@ + w@.take(k as int),
        decreases w@.len() - k,
    {
        v.push(w[k]);
        assert(old(v)@ + w@.take(k + 1) =~= old(v)@ + w@.take(k as int) + seq![w@[k as int]]);
        k = k + 1;
    }
    assert(w@.take(w@.len() as int) =~= w@);
}

/// Seals `plaintext` with a fresh random salt and nonce.
pub fn seal(magic: &[u8], info: &[u8], master: &[u8], plaintext: &[u8]) -> (r: Result<
    Vec<u8>,
    String,
>)
    requires
        magic@.len() == 2,
    ensures
        r is Ok <==> plaintext@.len() <= gcm_max_plaintext(),
        r matches Ok(d) ==> exists|salt: Seq<u8>, nonce: Seq<u8>|
            salt.len() == 32 && nonce.len() == 12 && d@ == sealed_file(
                magic@,
                info@,
                master@,
                salt,
                nonce,
                plaintext@,
            ),
        r matches Err(e) ==> e@ == "aead::Error"@,
{
    let salt = random_bytes(32);
    let nonce = random_bytes(12);
    seal_with(magic, info, master, salt.as_slice(), nonce.as_slice(), plaintext)
}

/// Why a sealed file could not be opened.
#[derive(Debug)]
pub enum OpenError {
    /// Shorter than the header.
    TooShort,
    /// The magic bytes are not this format's.
    WrongMagic,
    /// The ciphertext does not authenticate under the derived key; the
    /// cipher's message.
    Decrypt(String),
}

/// Opens a sealed file: checks its length and magic, derives the file key
/// from the master key and the stored salt, and decrypts. The content comes
/// back exactly when the file is a sealing of it under this master key.
pub fn open_sealed(magic: &[u8], info: &[u8], master: &[u8], data: &[u8]) -> (r: Result<
    Vec<u8>,
    OpenError,
>)
    requires
        magic@.len() == 2,
    ensures
        data@.len() < header_len() <==> r matches Err(OpenError::TooShort),
        data@.len() >= header_len() && data@.take(2) != magic@ <==> r matches Err(
            OpenError::WrongMagic,
        ),
        r matches Err(OpenError::Decrypt(e)) ==> e@ == "aead::Error"@,
        r matches Ok(p) ==> opens_to(magic@, info@, master@, data@, p@),
        forall|p: Seq<u8>|
            p.len() <= gcm_max_plaintext() && opens_to(magic@, info@, master@, data@, p) ==> (
            r matches Ok(q) && q@ == p),
{
    if data.len() < 46 {
        return Err(OpenError::TooShort);
    }
    if data[0] != magic[0] || data[1] != magic[1] {
        proof {
            if data@.take(2) == magic@ {
                assert(data@.take(2)[0] == data@[0]);
                assert(data@.take(2)[1] == data@[1]);
            }
        }
        return Err(OpenError::WrongMagic);
    }
    assert(data@.take(2) =~= magic@);
    let (head, ciphertext) = data.split_at(46);
    let (front, nonce) = head.split_at(34);
    let (_, salt) = front.split_at(2);
    assert(salt@ =~= salt_of(data@));
    assert(nonce@ =~= nonce_of(data@));
    assert(ciphertext@ =~= ciphertext_of(data@));
    let key = hkdf_sha256_key(salt, master, info);
    match aes256gcm_decrypt(key.as_slice(), nonce, ciphertext) {
        Ok(p) => Ok(p),
        Err(e) => Err(OpenError::Decrypt(e)),
    }
}

/// A file sealed with any salt and nonce opens to the content it was
/// sealed from, under the same master key, magic and label.
pub proof fn law_sealed_file_opens(
    magic: Seq<u8>,
    info: Seq<u8>,
    master: Seq<u8>,
    salt: Seq<u8>,
    nonce: Seq<u8>,
    plaintext: Seq<u8>,
)
    requires
        magic.len() == 2,
        salt.len() == 32,
        nonce.len() == 12,
    ensures
        opens_to(
            magic,
            info,
            master,
            sealed_file(magic, info, master, salt, nonce, plaintext),
            plaintext,
        ),
{
    let d = sealed_file(magic, info, master, salt, nonce, plaintext);
    assert(d.take(2) =~= magic);
    assert(salt_of(d) =~= salt);
    assert(nonce_of(d) =~= nonce);
    assert(ciphertext_of(d) =~= aes256gcm_sealed(file_key(master, salt, info), nonce, plaintext));
}

} // verus!
