//! The desktop updater: which release is newer, which asset is the Windows
//! installer, and whether a download is intact.
use vstd::prelude::*;
use vstd::string::StrSliceExecFns;
use crate::text::{
    ascii_lower_seq, ascii_lowercase, chars_to_string, concat_chars, contains, ends_with,
    eq_ignore_ascii_case, eq_ignore_case, has_prefix, has_substring, has_suffix, owned,
    slice_from, starts_with, str_chars,
};

verus! {

/// What the settings page shows about updates.
#[derive(Debug, Clone)]
pub struct UpdateInfo {
    pub available: bool,
    pub current_version: String,
    pub latest_version: Option<String>,
    pub notes: Option<String>,
    pub published_at: Option<String>,
}

/// A file attached to a release.
#[derive(Debug, Clone)]
pub struct ReleaseAsset {
    pub name: String,
    pub browser_download_url: String,
    pub digest: Option<String>,
}

/// The latest published release.
#[derive(Debug, Clone)]
pub struct Release {
    pub tag_name: String,
    pub body: Option<String>,
    pub published_at: Option<String>,
    pub assets: Vec<ReleaseAsset>,
}

/// A release tag without its leading `v`.
pub open spec fn spec_clean_version(value: Seq<char>) -> Seq<char> {
    if value.len() > 0 && value[0] == 'v' {
        value.skip(1)
    } else {
        value
    }
}

/// The version number of a release tag: the tag without one leading `v`.
pub fn clean_version(value: &str) -> (r: &str)
    ensures
        r@ == spec_clean_version(value@),
{
    let n = value.unicode_len();
    if n > 0 && value.get_char(0) == 'v' {
        value.substring_char(1, n)
    } else {
        value
    }
}

/// An asset is the Windows installer when its name, in lower case, ends
/// with `.exe` and contains `x64` and `setup`.
pub open spec fn is_windows_installer(name: Seq<char>) -> bool {
    let l = ascii_lower_seq(name);
    ends_with(l, ".exe"@) && contains(l, "x64"@) && contains(l, "setup"@)
}

fn installer_name(name: &String) -> (r: bool)
    ensures
        r == is_windows_installer(name@),
{
    let l = ascii_lowercase(str_chars(name.as_str()).as_slice());
    has_suffix(l.as_slice(), str_chars(".exe").as_slice()) && has_substring(
        l.as_slice(),
        str_chars("x64").as_slice(),
    ) && has_substring(l.as_slice(), str_chars("setup").as_slice())
}

/// The first asset of `release` that is the Windows installer.
pub fn windows_asset(release: &Release) -> (r: Option<&ReleaseAsset>)
    ensures
        match r {
            Some(a) => exists|i: int|
                0 <= i < release.assets@.len() && release.assets@[i] == *a && is_windows_installer(
                    a.name@,
                ) && forall|j: int|
                    0 <= j < i ==> !is_windows_installer(#[trigger] release.assets@[j].name@),
            None => forall|j: int|
                0 <= j < release.assets@.len() ==> !is_windows_installer(
                    #[trigger] release.assets@[j].name@,
                ),
        },
{
    let mut i: usize = 0;
    while i < release.assets.len()
        invariant
            i <= release.assets.len(),
            forall|j: int| 0 <= j < i ==> !is_windows_installer(#[trigger] release.assets@[j].name@),
        decreases release.assets.len() - i,
    {
        if installer_name(&release.assets[i].name) {
            return Some(&release.assets[i]);
        }
        i += 1;
    }
    None
}

/// The error text of `semver::Version::parse` on `s`, `None` when `s` is a
/// valid semantic version.
pub uninterp spec fn semver_parse_error(s: Seq<char>) -> Option<Seq<char>>;

/// Whether version `a` is greater than version `b` in semantic-version
/// precedence, as `semver::Version`'s ordering decides.
pub uninterp spec fn semver_greater(a: Seq<char>, b: Seq<char>) -> bool;

/// Calls `semver::Version::parse` and keeps only the error, written with
/// its `Display`; the result is named `semver_parse_error`.
#[verifier::external_body]
fn semver_error(s: &str) -> (r: Option<String>)
    ensures
        crate::models::opt_view(r) == semver_parse_error(s@),
{
    semver::Version::parse(s).err().map(|e| e.to_string())
}

/// Compares two valid versions with `semver::Version`'s `>`; the texts are
/// parsed first, which cannot fail on valid versions.  The result is named
/// `semver_greater`.
#[verifier::external_body]
fn version_greater(a: &str, b: &str) -> (r: bool)
    requires
        semver_parse_error(a@) is None,
        semver_parse_error(b@) is None,
    ensures
        r == semver_greater(a@, b@),
{
    semver::Version::parse(a).unwrap() > semver::Version::parse(b).unwrap()
}

pub open spec fn opt_str(o: Option<String>) -> Option<Seq<char>> {
    crate::models::opt_view(o)
}

/// The update check: the current version must parse; without a release
/// nothing is available; the latest tag (without `v`) must parse, and an
/// update is available when it is newer and the release has a Windows
/// installer.
pub fn update_info(current_text: &str, release: Option<&Release>) -> (r: Result<UpdateInfo, String>)
    ensures
        match semver_parse_error(current_text@) {
            Some(e) => (r matches Err(x) && x@ == e),
            None => match release {
                None => (r matches Ok(u) && !u.available && u.current_version@ == current_text@
                    && u.latest_version is None && u.notes is None && u.published_at is None),
                Some(rel) => {
                    let latest = spec_clean_version(rel.tag_name@);
                    match semver_parse_error(latest) {
                        Some(e) => (r matches Err(x) && x@ == "Release inválida: "@ + e),
                        None => (r matches Ok(u) && u.available == (semver_greater(
                            latest,
                            current_text@,
                        ) && exists|i: int|
                            0 <= i < rel.assets@.len() && is_windows_installer(
                                #[trigger] rel.assets@[i].name@,
                            )) && u.current_version@ == current_text@ && opt_str(u.latest_version)
                            == Some(latest) && u.notes == rel.body && u.published_at
                            == rel.published_at),
                    }
                },
            },
        },
{
    match semver_error(current_text) {
        Some(e) => {
            return Err(e);
        },
        None => {},
    }
    let rel = match release {
        None => {
            return Ok(
                UpdateInfo {
                    available: false,
                    current_version: owned(current_text),
                    latest_version: None,
                    notes: None,
                    published_at: None,
                },
            );
        },
        Some(rel) => rel,
    };
    let latest_text = clean_version(rel.tag_name.as_str());
    match semver_error(latest_text) {
        Some(e) => {
            let msg = concat_chars(
                str_chars("Release inválida: ").as_slice(),
                str_chars(e.as_str()).as_slice(),
            );
            return Err(chars_to_string(msg.as_slice()));
        },
        None => {},
    }
    let newer = version_greater(latest_text, current_text);
    let asset = windows_asset(rel);
    Ok(
        UpdateInfo {
            available: newer && asset.is_some(),
            current_version: owned(current_text),
            latest_version: Some(owned(latest_text)),
            notes: rel.body.clone(),
            published_at: rel.published_at.clone(),
        },
    )
}

/// What to download: the installer asset of a newer release and the file
/// name it is saved under, `Ludex_<version>_x64-setup.exe`.
pub fn download_plan<'a>(current_text: &str, release: &'a Release) -> (r: Result<
    (&'a ReleaseAsset, String),
    String,
>)
    ensures
        match semver_parse_error(current_text@) {
            Some(e) => (r matches Err(x) && x@ == e),
            None => {
                let latest = spec_clean_version(release.tag_name@);
                match semver_parse_error(latest) {
                    Some(e) => (r matches Err(x) && x@ == e),
                    None => if !semver_greater(latest, current_text@) {
                        (r matches Err(x) && x@ == "O Ludex já está atualizado"@)
                    } else if forall|i: int|
                        0 <= i < release.assets@.len() ==> !is_windows_installer(
                            #[trigger] release.assets@[i].name@,
                        ) {
                        (r matches Err(x) && x@
                            == "A release mais recente não contém instalador Windows x64"@)
                    } else {
                        (r matches Ok(p) && is_windows_installer(p.0.name@) && p.1@ == "Ludex_"@
                            + latest + "_x64-setup.exe"@)
                    },
                }
            },
        },
{
    match semver_error(current_text) {
        Some(e) => {
            return Err(e);
        },
        None => {},
    }
    let latest_text = clean_version(release.tag_name.as_str());
    match semver_error(latest_text) {
        Some(e) => {
            return Err(e);
        },
        None => {},
    }
    if !version_greater(latest_text, current_text) {
        return Err(owned("O Ludex já está atualizado"));
    }
    let asset = match windows_asset(release) {
        Some(a) => a,
        None => {
            return Err(owned("A release mais recente não contém instalador Windows x64"));
        },
    };
    let a = concat_chars(str_chars("Ludex_").as_slice(), str_chars(latest_text).as_slice());
    let b = concat_chars(a.as_slice(), str_chars("_x64-setup.exe").as_slice());
    Ok((asset, chars_to_string(b.as_slice())))
}

/// The lower-case hexadecimal SHA-256 digest of `bytes`.
pub uninterp spec fn sha256_hex_of(bytes: Seq<u8>) -> Seq<char>;

/// Calls `sha2::Sha256::digest` and writes the digest in lower-case hex;
/// the text is named `sha256_hex_of`.
#[verifier::external_body]
pub(crate) fn sha256_hex(bytes: &[u8]) -> (r: String)
    ensures
        r@ == sha256_hex_of(bytes@),
{
    format!("{:x}", <sha2::Sha256 as sha2::Digest>::digest(bytes))
}

/// A downloaded installer is accepted when its release gives no
/// `sha256:` digest, or when the digest equals the SHA-256 of the bytes
/// (hex digits in any case).
pub open spec fn spec_digest_ok(digest: Option<Seq<char>>, bytes: Seq<u8>) -> bool {
    match digest {
        Some(d) => if starts_with(d, "sha256:"@) {
            eq_ignore_case(sha256_hex_of(bytes), d.skip(7))
        } else {
            true
        },
        None => true,
    }
}

pub fn installer_digest_ok(digest: Option<&str>, bytes: &[u8]) -> (r: bool)
    ensures
        r == spec_digest_ok(
            match digest {
                Some(d) => Some(d@),
                None => None,
            },
            bytes@,
        ),
{
    match digest {
        Some(d) => {
            let dc = str_chars(d);
            let prefix = str_chars("sha256:");
            proof {
                reveal_strlit("sha256:");
            }
            if has_prefix(dc.as_slice(), prefix.as_slice()) {
                let expected = slice_from(dc.as_slice(), 7);
                let actual = sha256_hex(bytes);
                eq_ignore_ascii_case(str_chars(actual.as_str()).as_slice(), expected.as_slice())
            } else {
                true
            }
        },
        None => true,
    }
}

pub open spec fn installer_unsupported() -> Seq<char> {
    "Atualização automática está habilitada somente no Desktop Windows nesta versão"@
}

/// Starts a downloaded installer.  Installers are Windows programs: on other
/// systems this always fails.
pub fn launch_installer(path: &str) -> (r: Result<(), String>)
    ensures
        r matches Err(e) && e@ == installer_unsupported(),
{
    Err(owned("Atualização automática está habilitada somente no Desktop Windows nesta versão"))
}

} // verus!
