//! API keys kept in the settings table, protected by the operating system.
//! Where no protection service exists, keys can be neither stored nor read.
use vstd::prelude::*;
use crate::text::{chars_to_string, concat_chars, owned, same_chars, str_chars, trim, trimmed};

verus! {

/// What an earlier version left in place of a key kept by the Windows
/// Credential Manager.
pub const CREDENTIAL_MANAGER_MARKER: &'static str = "windows-credential-manager-v1";

/// The settings key under which secret `name` is stored.
pub open spec fn spec_setting_key(name: Seq<char>) -> Seq<char> {
    "secret."@ + name
}

pub fn setting_key(name: &str) -> (r: String)
    ensures
        r@ == spec_setting_key(name@),
{
    let v = concat_chars(str_chars("secret.").as_slice(), str_chars(name).as_slice());
    chars_to_string(v.as_slice())
}

/// What saving a secret does: a value that is blank once trimmed removes
/// the stored secret (`None`); any other value is stored, trimmed.
pub open spec fn spec_value_to_store(value: Seq<char>) -> Option<Seq<char>> {
    if trim(value).len() == 0 {
        None
    } else {
        Some(trim(value))
    }
}

pub fn value_to_store(value: &str) -> (r: Option<String>)
    ensures
        match r {
            Some(v) => spec_value_to_store(value@) == Some(v@),
            None => spec_value_to_store(value@) is None,
        },
{
    let t = trimmed(str_chars(value).as_slice());
    if t.len() == 0 {
        None
    } else {
        Some(chars_to_string(t.as_slice()))
    }
}

/// The stored text that must be unprotected to read a secret: none when
/// nothing is stored or when only the old Credential Manager marker is.
pub open spec fn spec_protected_text(stored: Option<Seq<char>>) -> Option<Seq<char>> {
    match stored {
        None => None,
        Some(v) => if v == CREDENTIAL_MANAGER_MARKER@ {
            None
        } else {
            Some(v)
        },
    }
}

pub fn protected_text(stored: Option<&str>) -> (r: Option<&str>)
    ensures
        match r {
            Some(v) => spec_protected_text(
                match stored {
                    Some(s) => Some(s@),
                    None => None,
                },
            ) == Some(v@),
            None => spec_protected_text(
                match stored {
                    Some(s) => Some(s@),
                    None => None,
                },
            ) is None,
        },
{
    match stored {
        None => None,
        Some(v) => {
            if same_chars(str_chars(v).as_slice(), str_chars(CREDENTIAL_MANAGER_MARKER).as_slice()) {
                None
            } else {
                Some(v)
            }
        },
    }
}

pub open spec fn unsupported_message() -> Seq<char> {
    "O armazenamento protegido de credenciais está disponível no Desktop Windows"@
}

/// Protects a secret for storage.  Without the Windows protection service
/// this always fails.
pub fn protect(value: &str) -> (r: Result<String, String>)
    ensures
        r matches Err(e) && e@ == unsupported_message(),
{
    Err(owned("O armazenamento protegido de credenciais está disponível no Desktop Windows"))
}

/// The text under which the protected bytes of a secret are stored: their
/// standard base64.
pub fn protected_bytes_text(bytes: &[u8]) -> (r: String)
    requires
        bytes@.len() / 3 * 4 + 4 <= usize::MAX,
    ensures
        r@ == crate::steam_data::base64_of(bytes@),
{
    crate::steam_data::base64_standard(bytes)
}

/// Reads back a protected secret.  Without the Windows protection service
/// this always fails.
pub fn unprotect(value: &str) -> (r: Result<String, String>)
    ensures
        r matches Err(e) && e@ == unsupported_message(),
{
    Err(owned("O armazenamento protegido de credenciais está disponível no Desktop Windows"))
}

} // verus!
