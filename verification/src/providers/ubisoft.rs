//! Ubisoft Connect: installed games are listed in the Windows registry
//! under the launcher's `Installs` key, one subkey per game id.
use vstd::prelude::*;
use crate::models::{installations_view, InstallationView, ScannedInstallation};
use crate::paths::{component_name, component_name_of};
use crate::providers::ProviderScan;
use crate::text::{chars_to_string, owned, str_chars};

verus! {

/// One subkey of the launcher's `Installs` key: its name and its
/// `InstallDir` value (empty when the value is missing).
#[derive(Debug, Clone)]
pub struct UbisoftInstall {
    pub id: String,
    pub install_dir: String,
}

pub open spec fn ubisoft_message() -> Seq<char> {
    "Detecção pelo Registro oficial do Ubisoft Connect; launch via uplay:// com o ID registrado."@
}

/// An install without a folder is skipped; the title is the folder's name.
pub open spec fn spec_ubisoft_installation(u: UbisoftInstall) -> Option<InstallationView> {
    if u.install_dir@.len() == 0 {
        None
    } else {
        Some(
            InstallationView {
                provider: "ubisoft"@,
                external_id: u.id@,
                title: match component_name(u.install_dir@) {
                    Some(n) => n,
                    None => "Ubisoft Game"@,
                },
                platform: "PC"@,
                install_dir: Some(u.install_dir@),
                executable: None,
                installed: true,
                size_bytes: None,
                last_updated: None,
            },
        )
    }
}

pub open spec fn ubisoft_installations(us: Seq<UbisoftInstall>) -> Seq<InstallationView>
    decreases us.len(),
{
    if us.len() == 0 {
        Seq::empty()
    } else {
        let rest = ubisoft_installations(us.drop_last());
        match spec_ubisoft_installation(us.last()) {
            Some(i) => rest.push(i),
            None => rest,
        }
    }
}

/// Scans Ubisoft Connect's registry entries; `installs` is `None` where
/// there is no registry to ask (other systems), and then nothing is found
/// and games cannot be launched from here.
pub fn scan(installs: Option<Vec<UbisoftInstall>>) -> (r: Result<ProviderScan, String>)
    ensures
        r matches Ok(s) && {
            &&& s.id@ == "ubisoft"@
            &&& s.name@ == "Ubisoft Connect"@
            &&& s.root is None
            &&& match installs {
                None => !s.can_launch && s.installations@.len() == 0 && s.message@
                    == crate::providers::microsoft::unavailable_message(),
                Some(a) => s.can_launch && s.message@ == ubisoft_message() && installations_view(
                    s.installations@,
                ) == ubisoft_installations(a@),
            }
        },
{
    match installs {
        None => Ok(
            ProviderScan {
                id: "ubisoft",
                name: "Ubisoft Connect",
                root: None,
                installations: Vec::new(),
                can_launch: false,
                message: owned("Disponível no Windows."),
            },
        ),
        Some(items) => {
            let mut installations: Vec<ScannedInstallation> = Vec::new();
            let mut i: usize = 0;
            while i < items.len()
                invariant
                    i <= items.len(),
                    installations_view(installations@) == ubisoft_installations(items@.take(i as int)),
                decreases items.len() - i,
            {
                let u = &items[i];
                let ghost before = installations@;
                proof {
                    assert(items@.take(i as int + 1).drop_last() =~= items@.take(i as int));
                }
                let dir = str_chars(u.install_dir.as_str());
                if dir.len() > 0 {
                    let title = match component_name_of(dir.as_slice()) {
                        Some(n) => chars_to_string(n.as_slice()),
                        None => owned("Ubisoft Game"),
                    };
                    let inst = ScannedInstallation {
                        provider: owned("ubisoft"),
                        external_id: u.id.clone(),
                        title,
                        platform: owned("PC"),
                        install_dir: Some(u.install_dir.clone()),
                        executable: None,
                        installed: true,
                        size_bytes: None,
                        last_updated: None,
                    };
                    installations.push(inst);
                    proof {
                        assert(installations_view(installations@) =~= installations_view(before).push(
                            inst@,
                        ));
                    }
                }
                i += 1;
            }
            proof {
                assert(items@.take(items@.len() as int) =~= items@);
            }
            Ok(
                ProviderScan {
                    id: "ubisoft",
                    name: "Ubisoft Connect",
                    root: None,
                    installations,
                    can_launch: true,
                    message: owned(
                        "Detecção pelo Registro oficial do Ubisoft Connect; launch via uplay:// com o ID registrado.",
                    ),
                },
            )
        },
    }
}

} // verus!
