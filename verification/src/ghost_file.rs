//! Encrypted ghost files: the ghost's JSON text sealed under the machine's
//! master key, in the `GF` format.
use vstd::prelude::*;
use vstd::utf8::{decode_utf8, encode_utf8, valid_utf8};
use crate::sealing::{gcm_max_plaintext, open_sealed, opens_to, seal, sealed_file, OpenError};

verus! {

broadcast use vstd::string::group_string_axioms;

/// Why a ghost file could not be written or read.
#[derive(Debug)]
pub enum GhostFileError {
    Io(String),
    Encryption(String),
    Decryption(String),
    Serialization(String),
    InvalidFormat(String),
}

/// The message of an error, as it is displayed.
pub open spec fn ghost_file_error_text(e: GhostFileError) -> Seq<char> {
    match e {
        GhostFileError::Io(m) => "IO error: "@ + m@,
        GhostFileError::Encryption(m) => "Encryption error: "@ + m@,
        GhostFileError::Decryption(m) => "Decryption error: "@ + m@,
        GhostFileError::Serialization(m) => "Serialization error: "@ + m@,
        GhostFileError::InvalidFormat(m) => "Invalid file format: "@ + m@,
    }
}

impl GhostFileError {
    /// The message of the error, as it is displayed.
    pub fn to_string(&self) -> (s: String)
        ensures
            s@ == ghost_file_error_text(*self),
    {
        let (prefix, m) = match self {
            GhostFileError::Io(m) => ("IO error: ", m),
            GhostFileError::Encryption(m) => ("Encryption error: ", m),
            GhostFileError::Decryption(m) => ("Decryption error: ", m),
            GhostFileError::Serialization(m) => ("Serialization error: ", m),
            GhostFileError::InvalidFormat(m) => ("Invalid file format: ", m),
        };
        let mut s = prefix.to_owned();
        s.append(m.as_str());
        s
    }
}

/// The magic bytes of a ghost file, `GF`.
pub open spec fn ghost_magic() -> Seq<u8> {
    seq![0x47u8, 0x46u8]
}

/// The HKDF label of ghost-file keys, `deskpet-ghost-file-key`.
pub open spec fn ghost_info() -> Seq<u8> {
    "deskpet-ghost-file-key"@.map_values(|c: char| c as u8)
}

fn ghost_magic_bytes() -> (v: Vec<u8>)
    ensures
        v@ == ghost_magic(),
{
    let mut v: Vec<u8> = Vec::new();
    v.push(0x47u8);
    v.push(0x46u8);
    assert(v@ =~= ghost_magic());
    v
}

fn ghost_info_bytes() -> (v: Vec<u8>)
    ensures
        v@ == ghost_info(),
{
    let label = "deskpet-ghost-file-key";
    proof {
        reveal_strlit("deskpet-ghost-file-key");
    }
    let b = label.as_bytes();
    let mut v: Vec<u8> = Vec::new();
    let mut i: usize = 0;
    assert(b@ == encode_utf8(label@));
    assert(label@.len() == 22);
    assert(b@ =~= ghost_info()) by {
        vstd::utf8::is_ascii_chars_encode_utf8(label@);
    }
    while i < b.len()
        invariant
            i <= b@.len(),
            v@ == b@.take(i as int),
        decreases b@.len() - i,
    {
        v.push(b[i]);
        assert(v@ =~= b@.take(i + 1));
        i = i + 1;
    }
    assert(b@.take(b@.len() as int) =~= b@);
    v
}

/// The master key a ghost file is sealed with: the first 32 bytes of the
/// key given.
pub open spec fn ghost_master(key: Seq<u8>) -> Seq<u8> {
    key.take(32)
}

/// Reads and writes encrypted ghost files.
pub struct GhostFileManager;

impl GhostFileManager {
    /// Seals the JSON text of a ghost under the first 32 bytes of
    /// `master_key`, with a fresh salt and nonce; returns the file's bytes.
    pub fn save_encrypted(ghost_json: &str, master_key: &[u8]) -> (r: Result<
        Vec<u8>,
        GhostFileError,
    >)
        requires
            master_key@.len() >= 32,
        ensures
            r is Ok <==> encode_utf8(ghost_json@).len() <= gcm_max_plaintext(),
            r matches Ok(d) ==> exists|salt: Seq<u8>, nonce: Seq<u8>|
                salt.len() == 32 && nonce.len() == 12 && d@ == sealed_file(
                    ghost_magic(),
                    ghost_info(),
                    ghost_master(master_key@),
                    salt,
                    nonce,
                    encode_utf8(ghost_json@),
                ),
            r matches Err(e) ==> (e matches GhostFileError::Encryption(m) && m@ == "aead::Error"@),
    {
        let (key, _) = master_key.split_at(32);
        assert(key@ =~= ghost_master(master_key@));
        let magic = ghost_magic_bytes();
        let info = ghost_info_bytes();
        match seal(magic.as_slice(), info.as_slice(), key, ghost_json.as_bytes()) {
            Ok(d) => Ok(d),
            Err(e) => Err(GhostFileError::Encryption(e)),
        }
    }

    /// Opens a ghost file sealed under the first 32 bytes of `master_key`
    /// and returns its JSON text.
    pub fn load_encrypted(file_data: &[u8], master_key: &[u8]) -> (r: Result<
        String,
        GhostFileError,
    >)
        requires
            master_key@.len() >= 32,
        ensures
            file_data@.len() < 46 ==> (r matches Err(GhostFileError::InvalidFormat(m)) && m@
                == "File too short to be a valid ghost file"@),
            file_data@.len() >= 46 && file_data@.take(2) != ghost_magic() ==> (r matches Err(
                GhostFileError::InvalidFormat(m),
            ) && m@ == "Not a ghost file or unsupported version"@),
            r matches Ok(s) ==> opens_to(
                ghost_magic(),
                ghost_info(),
                ghost_master(master_key@),
                file_data@,
                encode_utf8(s@),
            ),
            forall|json: Seq<char>|
                encode_utf8(json).len() <= gcm_max_plaintext() && opens_to(
                    ghost_magic(),
                    ghost_info(),
                    ghost_master(master_key@),
                    file_data@,
                    encode_utf8(json),
                ) ==> (r matches Ok(s) && s@ == json),
            r matches Err(e) ==> e is InvalidFormat || e is Decryption,
    {
        let (key, _) = master_key.split_at(32);
        assert(key@ =~= ghost_master(master_key@));
        let magic = ghost_magic_bytes();
        let info = ghost_info_bytes();
        match open_sealed(magic.as_slice(), info.as_slice(), key, file_data) {
            Err(OpenError::TooShort) => Err(
                GhostFileError::InvalidFormat("File too short to be a valid ghost file".to_owned()),
            ),
            Err(OpenError::WrongMagic) => Err(
                GhostFileError::InvalidFormat("Not a ghost file or unsupported version".to_owned()),
            ),
            Err(OpenError::Decrypt(e)) => Err(GhostFileError::Decryption(e)),
            Ok(plain) => {
                let ghost p = plain@;
                match crate::extract_service::string_from_utf8(plain) {
                    Ok(s) => {
                        proof {
                            vstd::utf8::decode_utf8_encode_utf8(p);
                            assert forall|json: Seq<char>|
                                encode_utf8(json).len() <= gcm_max_plaintext() && opens_to(
                                    ghost_magic(),
                                    ghost_info(),
                                    ghost_master(master_key@),
                                    file_data@,
                                    encode_utf8(json),
                                ) implies s@ == json by {
                                vstd::utf8::encode_utf8_decode_utf8(json);
                            }
                        }
                        Ok(s)
                    },
                    Err(e) => {
                        proof {
                            assert forall|json: Seq<char>|
                                !(opens_to(
                                    ghost_magic(),
                                    ghost_info(),
                                    ghost_master(master_key@),
                                    file_data@,
                                    encode_utf8(json),
                                ) && encode_utf8(json).len() <= gcm_max_plaintext()) by {
                                vstd::utf8::encode_utf8_valid_utf8(json);
                            }
                        }
                        Err(GhostFileError::Decryption(e))
                    },
                }
            },
        }
    }

    /// Whether the contents of a file (`None` when it could not be read)
    /// begin with the ghost-file magic `GF`.
    pub fn is_encrypted_file(data: Option<&[u8]>) -> (b: bool)
        ensures
            b == (data matches Some(d) && d@.len() >= 2 && d@.take(2) == ghost_magic()),
    {
        match data {
            Some(d) => {
                if d.len() >= 2 && d[0] == 0x47u8 && d[1] == 0x46u8 {
                    assert(d@.take(2) =~= ghost_magic());
                    true
                } else {
                    proof {
                        if d@.len() >= 2 && d@.take(2) == ghost_magic() {
                            assert(d@.take(2)[0] == d@[0]);
                            assert(d@.take(2)[1] == d@[1]);
                        }
                    }
                    false
                }
            },
            None => false,
        }
    }
}

/// A ghost file written from some JSON text with a master key reads back,
/// with the same key, as that text: the bytes `save_encrypted` writes open
/// to the text's UTF-8 encoding, and `load_encrypted` returns the text of
/// any file that opens to it.
pub proof fn law_ghost_file_round_trip(json: Seq<char>, master_key: Seq<u8>, salt: Seq<u8>, nonce: Seq<u8>)
    requires
        master_key.len() >= 32,
        salt.len() == 32,
        nonce.len() == 12,
    ensures
        opens_to(
            ghost_magic(),
            ghost_info(),
            ghost_master(master_key),
            sealed_file(
                ghost_magic(),
                ghost_info(),
                ghost_master(master_key),
                salt,
                nonce,
                encode_utf8(json),
            ),
            encode_utf8(json),
        ),
{
    crate::sealing::law_sealed_file_opens(
        ghost_magic(),
        ghost_info(),
        ghost_master(master_key),
        salt,
        nonce,
        encode_utf8(json),
    );
}

} // verus!
