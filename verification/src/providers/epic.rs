//! Epic Games Store: the launcher keeps one JSON `.item` manifest per
//! installed game in its data folder.
use vstd::prelude::*;
use crate::host::path_exists;
use crate::models::{installations_view, opt_view, InstallationView, ScannedInstallation};
use crate::paths::{extension, extension_of, join, path_join};
use crate::providers::ProviderScan;
use crate::text::{chars_to_string, concat_chars, eq_ignore_ascii_case, eq_ignore_case, owned, str_chars, trim, trimmed};

verus! {

/// What Ludex reads of an Epic `.item` manifest.
#[derive(Debug, Clone)]
pub struct EpicManifest {
    pub app_name: Option<String>,
    pub display_name: Option<String>,
    pub install_location: Option<String>,
    pub launch_executable: Option<String>,
    pub catalog_namespace: Option<String>,
    pub catalog_item_id: Option<String>,
    pub is_incomplete_install: bool,
}

pub open spec fn epic_message() -> Seq<char> {
    "Importação baseada nos manifests locais oficiais do Epic Games Launcher."@
}

/// A manifest file is one whose extension is `item`, in any case.
pub open spec fn spec_is_manifest_file(path: Seq<char>) -> bool {
    extension(path) matches Some(e) && eq_ignore_case(e, "item"@)
}

pub fn is_manifest_file(path: &str) -> (r: bool)
    ensures
        r == spec_is_manifest_file(path@),
{
    proof {
        reveal_strlit("item");
    }
    match extension_of(str_chars(path).as_slice()) {
        Some(e) => eq_ignore_ascii_case(e.as_slice(), str_chars("item").as_slice()),
        None => false,
    }
}

/// A field that counts only when it is not blank.
pub open spec fn filled(o: Option<String>) -> Option<Seq<char>> {
    match o {
        Some(s) if trim(s@).len() > 0 => Some(s@),
        _ => None,
    }
}

/// The installation a manifest describes, with `install_exists` telling
/// whether its install folder is present.  A manifest without an app name
/// is refused.  The identifier is `namespace:item:app` when both catalogue
/// ids are non-empty, else the app name; the game counts as installed when
/// the install is complete and its folder exists.
pub open spec fn spec_epic_installation(m: EpicManifest, install_exists: bool) -> Result<
    InstallationView,
    Seq<char>,
> {
    match filled(m.app_name) {
        None => Err("AppName ausente"@),
        Some(app) => {
            let install = filled(m.install_location);
            Ok(
                InstallationView {
                    provider: "epic"@,
                    external_id: match (m.catalog_namespace, m.catalog_item_id) {
                        (Some(ns), Some(cat)) if ns@.len() > 0 && cat@.len() > 0 => ns@ + ":"@
                            + cat@ + ":"@ + app,
                        _ => app,
                    },
                    title: match m.display_name {
                        Some(d) => d@,
                        None => app,
                    },
                    platform: "PC"@,
                    install_dir: install,
                    executable: match (install, filled(m.launch_executable)) {
                        (Some(dir), Some(exe)) => Some(path_join(dir, exe)),
                        _ => None,
                    },
                    installed: !m.is_incomplete_install && install is Some && install_exists,
                    size_bytes: None,
                    last_updated: None,
                },
            )
        },
    }
}

pub open spec fn epic_view(r: Result<ScannedInstallation, String>) -> Result<InstallationView, Seq<char>> {
    match r {
        Ok(i) => Ok(i@),
        Err(e) => Err(e@),
    }
}

fn filled_exec(o: &Option<String>) -> (r: Option<&String>)
    ensures
        match r {
            Some(s) => filled(*o) == Some(s@),
            None => filled(*o) is None,
        },
{
    match o {
        Some(s) => {
            if trimmed(str_chars(s.as_str()).as_slice()).len() > 0 {
                Some(s)
            } else {
                None
            }
        },
        None => None,
    }
}

/// The installation a manifest describes, given whether its install folder
/// exists.
pub fn installation_from_manifest_with(m: &EpicManifest, install_exists: bool) -> (r: Result<
    ScannedInstallation,
    String,
>)
    ensures
        epic_view(r) == spec_epic_installation(*m, install_exists),
{
    let app = match filled_exec(&m.app_name) {
        Some(a) => a,
        None => {
            return Err(owned("AppName ausente"));
        },
    };
    let install = filled_exec(&m.install_location);
    let executable = match (install, filled_exec(&m.launch_executable)) {
        (Some(dir), Some(exe)) => {
            let j = join(str_chars(dir.as_str()).as_slice(), str_chars(exe.as_str()).as_slice());
            Some(chars_to_string(j.as_slice()))
        },
        _ => None,
    };
    let external_id = match (&m.catalog_namespace, &m.catalog_item_id) {
        (Some(ns), Some(cat)) => {
            let nsv = str_chars(ns.as_str());
            let catv = str_chars(cat.as_str());
            if nsv.len() > 0 && catv.len() > 0 {
                let a = concat_chars(nsv.as_slice(), str_chars(":").as_slice());
                let b = concat_chars(a.as_slice(), catv.as_slice());
                let c = concat_chars(b.as_slice(), str_chars(":").as_slice());
                let d = concat_chars(c.as_slice(), str_chars(app.as_str()).as_slice());
                chars_to_string(d.as_slice())
            } else {
                app.clone()
            }
        },
        _ => app.clone(),
    };
    let title = match &m.display_name {
        Some(d) => d.clone(),
        None => app.clone(),
    };
    let installed = !m.is_incomplete_install && install.is_some() && install_exists;
    let install_dir = match install {
        Some(d) => Some(d.clone()),
        None => None,
    };
    Ok(
        ScannedInstallation {
            provider: owned("epic"),
            external_id,
            title,
            platform: owned("PC"),
            install_dir,
            executable,
            installed,
            size_bytes: None,
            last_updated: None,
        },
    )
}

/// The installation a manifest describes; whether the install folder
/// exists is asked of the file system, so the result is the manifest's
/// reading for one of the two answers.
pub fn installation_from_manifest(m: &EpicManifest) -> (r: Result<ScannedInstallation, String>)
    ensures
        exists|b: bool| epic_view(r) == spec_epic_installation(*m, b),
{
    let exists_now = match filled_exec(&m.install_location) {
        Some(d) => path_exists(d.as_str()),
        None => false,
    };
    installation_from_manifest_with(m, exists_now)
}

/// The installations that the manifests describe (refused ones left out),
/// with `found[i]` the answer for manifest `i`'s install folder.
pub open spec fn epic_installations(ms: Seq<EpicManifest>, found: Seq<bool>) -> Seq<InstallationView>
    decreases ms.len(),
{
    if ms.len() == 0 || found.len() == 0 {
        Seq::empty()
    } else {
        let rest = epic_installations(ms.drop_last(), found.drop_last());
        match spec_epic_installation(ms.last(), found.last()) {
            Ok(i) => rest.push(i),
            Err(_) => rest,
        }
    }
}

/// Scans the manifests read from the launcher's data folder
/// `manifests_dir`.  The reported root is the first of `launcher_roots`
/// found on disk, else the data folder.
pub fn scan(manifests: &Vec<EpicManifest>, launcher_roots: &Vec<String>, manifests_dir: Option<String>) -> (r:
    Result<ProviderScan, String>)
    ensures
        r matches Ok(s) && {
            &&& s.id@ == "epic"@
            &&& s.name@ == "Epic Games Store"@
            &&& s.can_launch
            &&& s.message@ == epic_message()
            &&& (exists|found: Seq<bool>|
                found.len() == launcher_roots@.len() && opt_view(s.root) == match #[trigger] crate::host::first_flagged(
                    crate::text::strings_view(launcher_roots@),
                    found,
                ) {
                    Some(r) => Some(r),
                    None => opt_view(manifests_dir),
                })
            &&& exists|found: Seq<bool>|
                found.len() == manifests@.len() && installations_view(s.installations@)
                    == epic_installations(manifests@, found)
        },
{
    let mut installations: Vec<ScannedInstallation> = Vec::new();
    let ghost mut found: Seq<bool> = Seq::empty();
    let mut i: usize = 0;
    while i < manifests.len()
        invariant
            i <= manifests.len(),
            found.len() == i,
            installations_view(installations@) == epic_installations(manifests@.take(i as int), found),
        decreases manifests.len() - i,
    {
        let m = &manifests[i];
        let r = installation_from_manifest(m);
        let ghost b = choose|b: bool| epic_view(r) == spec_epic_installation(*m, b);
        let ghost before = installations@;
        match r {
            Ok(x) => {
                installations.push(x);
                proof {
                    assert(installations_view(installations@) =~= installations_view(before).push(x@));
                }
            },
            Err(_) => {},
        }
        proof {
            let nf = found.push(b);
            assert(manifests@.take(i as int + 1).drop_last() =~= manifests@.take(i as int));
            assert(nf.drop_last() =~= found);
            found = nf;
        }
        i += 1;
    }
    proof {
        assert(manifests@.take(manifests@.len() as int) =~= manifests@);
    }
    let root = crate::host::first_existing(launcher_roots, None);
    let root = match root {
        Some(r) => Some(r),
        None => manifests_dir,
    };
    Ok(
        ProviderScan {
            id: "epic",
            name: "Epic Games Store",
            root,
            installations,
            can_launch: true,
            message: owned("Importação baseada nos manifests locais oficiais do Epic Games Launcher."),
        },
    )
}

} // verus!
