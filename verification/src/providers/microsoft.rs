//! Xbox / Microsoft Store: games are found among the Start-menu apps that
//! Windows registers, by name and application user model id.
use vstd::prelude::*;
use crate::models::{installations_view, InstallationView, ScannedInstallation};
use crate::providers::ProviderScan;
use crate::text::owned;

verus! {

/// One Start-menu app as Windows lists it: `Name` and `AppID`, each when it
/// is a string.
#[derive(Debug, Clone)]
pub struct XboxApp {
    pub name: Option<String>,
    pub app_id: Option<String>,
}

pub open spec fn xbox_message() -> Seq<char> {
    "Detecção conservadora via AUMIDs registrados no Windows; apps ambíguos podem ser adicionados manualmente."@
}

pub open spec fn unavailable_message() -> Seq<char> {
    "Disponível no Windows."@
}

/// The installation an app yields: only one with both a name and an id.
pub open spec fn spec_xbox_installation(a: XboxApp) -> Option<InstallationView> {
    match (a.name, a.app_id) {
        (Some(n), Some(id)) => Some(
            InstallationView {
                provider: "xbox"@,
                external_id: id@,
                title: n@,
                platform: "PC"@,
                install_dir: None,
                executable: None,
                installed: true,
                size_bytes: None,
                last_updated: None,
            },
        ),
        _ => None,
    }
}

pub open spec fn xbox_installations(apps: Seq<XboxApp>) -> Seq<InstallationView>
    decreases apps.len(),
{
    if apps.len() == 0 {
        Seq::empty()
    } else {
        let rest = xbox_installations(apps.drop_last());
        match spec_xbox_installation(apps.last()) {
            Some(i) => rest.push(i),
            None => rest,
        }
    }
}

/// Scans the Xbox apps; `apps` is `None` where Windows' app list cannot be
/// asked (other systems), and then nothing is found and games cannot be
/// launched from here.
pub fn scan(apps: Option<Vec<XboxApp>>) -> (r: Result<ProviderScan, String>)
    ensures
        r matches Ok(s) && {
            &&& s.id@ == "xbox"@
            &&& s.name@ == "Xbox / Microsoft Store"@
            &&& s.root is None
            &&& match apps {
                None => !s.can_launch && s.installations@.len() == 0 && s.message@
                    == unavailable_message(),
                Some(a) => s.can_launch && s.message@ == xbox_message()
                    && installations_view(s.installations@)
                    == xbox_installations(a@),
            }
        },
{
    match apps {
        None => Ok(
            ProviderScan {
                id: "xbox",
                name: "Xbox / Microsoft Store",
                root: None,
                installations: Vec::new(),
                can_launch: false,
                message: owned("Disponível no Windows."),
            },
        ),
        Some(items) => {
            let mut installations: Vec<ScannedInstallation> = Vec::new();
            let mut i: usize = 0;
            while i < items.len()
                invariant
                    i <= items.len(),
                    installations_view(installations@) == xbox_installations(
                        items@.take(i as int),
                    ),
                decreases items.len() - i,
            {
                let a = &items[i];
                let ghost before = installations@;
                proof {
                    assert(items@.take(i as int + 1).drop_last() =~= items@.take(i as int));
                }
                match (&a.name, &a.app_id) {
                    (Some(n), Some(id)) => {
                        let inst = ScannedInstallation {
                            provider: owned("xbox"),
                            external_id: id.clone(),
                            title: n.clone(),
                            platform: owned("PC"),
                            install_dir: None,
                            executable: None,
                            installed: true,
                            size_bytes: None,
                            last_updated: None,
                        };
                        installations.push(inst);
                        proof {
                            assert(installations_view(installations@)
                                =~= installations_view(before).push(inst@));
                        }
                    },
                    _ => {},
                }
                i += 1;
            }
            proof {
                assert(items@.take(items@.len() as int) =~= items@);
            }
            Ok(
                ProviderScan {
                    id: "xbox",
                    name: "Xbox / Microsoft Store",
                    root: None,
                    installations,
                    can_launch: true,
                    message: owned(
                        "Detecção conservadora via AUMIDs registrados no Windows; apps ambíguos podem ser adicionados manualmente.",
                    ),
                },
            )
        },
    }
}

} // verus!
