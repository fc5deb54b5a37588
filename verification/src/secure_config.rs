//! The AI configuration stored encrypted on disk (`AC` format), so that API
//! keys never sit in plain text; the key is the same master key as ghost
//! files use.
use vstd::prelude::*;
use crate::ai_service::AIProviderConfig;
use crate::sealing::{gcm_max_plaintext, open_sealed, opens_to, seal, sealed_file, OpenError};

verus! {

broadcast use vstd::string::group_string_axioms;

/// The magic bytes of the configuration file, `AC`.
pub open spec fn config_magic() -> Seq<u8> {
    seq![0x41u8, 0x43u8]
}

/// The HKDF label of configuration keys, `deskpet-secure-config-key`.
pub open spec fn config_info() -> Seq<u8> {
    "deskpet-secure-config-key"@.map_values(|c: char| c as u8)
}

fn config_magic_bytes() -> (v: Vec<u8>)
    ensures
        v@ == config_magic(),
{
    let mut v: Vec<u8> = Vec::new();
    v.push(0x41u8);
    v.push(0x43u8);
    assert(v@ =~= config_magic());
    v
}

fn config_info_bytes() -> (v: Vec<u8>)
    ensures
        v@ == config_info(),
{
    let label = "deskpet-secure-config-key";
    proof {
        reveal_strlit("deskpet-secure-config-key");
    }
    let b = label.as_bytes();
    let mut v: Vec<u8> = Vec::new();
    let mut i: usize = 0;
    assert(b@ =~= config_info()) by {
        vstd::utf8::is_ascii_chars_encode_utf8(label@);
    }
    while i < b.len()
        invariant
            i <= b@.len(),
            v@ == b@.take(i as int),
        decreases b@.len() - i,
    {
        v.push(b[i]);
        assert(v@ =~= b@.take(i + 1));
        i = i + 1;
    }
    assert(b@.take(b@.len() as int) =~= b@);
    v
}

/// Encrypted storage of the AI configuration.
pub struct SecureConfigManager;

impl SecureConfigManager {
    /// Seals the serialized configuration under the 32-byte master key with
    /// a fresh salt and nonce; returns the bytes of the configuration file.
    pub fn save_ai_config(config_json: &[u8], master_key: &[u8]) -> (r: Result<Vec<u8>, String>)
        requires
            master_key@.len() == 32,
        ensures
            r is Ok <==> config_json@.len() <= gcm_max_plaintext(),
            r matches Ok(d) ==> exists|salt: Seq<u8>, nonce: Seq<u8>|
                salt.len() == 32 && nonce.len() == 12 && d@ == sealed_file(
                    config_magic(),
                    config_info(),
                    master_key@,
                    salt,
                    nonce,
                    config_json@,
                ),
            r matches Err(e) ==> e@ == "加密失败: "@ + "aead::Error"@,
    {
        let magic = config_magic_bytes();
        let info = config_info_bytes();
        match seal(magic.as_slice(), info.as_slice(), master_key, config_json) {
            Ok(d) => Ok(d),
            Err(e) => {
                let mut m = "加密失败: ".to_owned();
                m.append(e.as_str());
                Err(m)
            },
        }
    }

    /// Opens the configuration file (`None` when there is none) and returns
    /// the serialized configuration it holds.
    pub fn load_ai_config(file_data: Option<&[u8]>, master_key: &[u8]) -> (r: Result<
        Option<Vec<u8>>,
        String,
    >)
        requires
            master_key@.len() == 32,
        ensures
            file_data is None ==> r matches Ok(None),
            file_data matches Some(d) ==> {
                &&& d@.len() < 46 ==> (r matches Err(e) && e@ == "配置文件格式无效"@)
                &&& d@.len() >= 46 && d@.take(2) != config_magic() ==> (r matches Err(e) && e@
                    == "配置文件格式无效或版本不受支持"@)
                &&& r matches Ok(Some(p)) ==> opens_to(
                    config_magic(),
                    config_info(),
                    master_key@,
                    d@,
                    p@,
                )
                &&& forall|p: Seq<u8>|
                    p.len() <= gcm_max_plaintext() && opens_to(
                        config_magic(),
                        config_info(),
                        master_key@,
                        d@,
                        p,
                    ) ==> (r matches Ok(Some(q)) && q@ == p)
                &&& r is Err && d@.len() >= 46 && d@.take(2) == config_magic() ==> r->Err_0@
                    == "解密配置失败: "@ + "aead::Error"@
            },
    {
        match file_data {
            None => Ok(None),
            Some(d) => {
                let magic = config_magic_bytes();
                let info = config_info_bytes();
                match open_sealed(magic.as_slice(), info.as_slice(), master_key, d) {
                    Ok(p) => Ok(Some(p)),
                    Err(OpenError::TooShort) => Err("配置文件格式无效".to_owned()),
                    Err(OpenError::WrongMagic) => Err("配置文件格式无效或版本不受支持".to_owned()),
                    Err(OpenError::Decrypt(e)) => {
                        let mut m = "解密配置失败: ".to_owned();
                        m.append(e.as_str());
                        Err(m)
                    },
                }
            },
        }
    }

    /// Whether a usable configuration was loaded.
    pub fn has_ai_config(loaded: &Result<Option<AIProviderConfig>, String>) -> (b: bool)
        ensures
            b == (loaded matches Ok(Some(_))),
    {
        match loaded {
            Ok(Some(_)) => true,
            _ => false,
        }
    }
}

/// A configuration file written with a master key opens, with the same key,
/// to the serialized configuration it was written from.
pub proof fn law_config_file_round_trip(
    config_json: Seq<u8>,
    master_key: Seq<u8>,
    salt: Seq<u8>,
    nonce: Seq<u8>,
)
    requires
        master_key.len() == 32,
        salt.len() == 32,
        nonce.len() == 12,
    ensures
        opens_to(
            config_magic(),
            config_info(),
            master_key,
            sealed_file(config_magic(), config_info(), master_key, salt, nonce, config_json),
            config_json,
        ),
{
    crate::sealing::law_sealed_file_opens(
        config_magic(),
        config_info(),
        master_key,
        salt,
        nonce,
        config_json,
    );
}

} // verus!
