//! Battle.net: a game folder is recognised by the `.build.info` file that
//! the launcher keeps in it.
use vstd::prelude::*;
use crate::models::{installations_view, InstallationView, ScannedInstallation};
use crate::providers::{folder_game_id, game_id_of_folder, ProviderScan};
use crate::text::owned;

verus! {

/// A folder that holds a `.build.info` file.
#[derive(Debug, Clone)]
pub struct BattlenetGameDir {
    pub dir: String,
    pub title: String,
}

pub open spec fn battlenet_message() -> Seq<char> {
    "Instalações com .build.info são importadas sem hardcode; launch requer product code confiável e oferece fallback manual."@
}

pub open spec fn spec_battlenet_installation(d: BattlenetGameDir) -> InstallationView {
    InstallationView {
        provider: "battlenet"@,
        external_id: folder_game_id(d.title@),
        title: d.title@,
        platform: "PC"@,
        install_dir: Some(d.dir@),
        executable: None,
        installed: true,
        size_bytes: None,
        last_updated: None,
    }
}

/// Scans the folders that carry a `.build.info` file, in the order found.
pub fn scan(dirs: &Vec<BattlenetGameDir>) -> (r: Result<ProviderScan, String>)
    ensures
        r matches Ok(s) && {
            &&& s.id@ == "battlenet"@
            &&& s.name@ == "Battle.net"@
            &&& s.root is None
            &&& !s.can_launch
            &&& s.message@ == battlenet_message()
            &&& installations_view(s.installations@) == dirs@.map_values(
                |d: BattlenetGameDir| spec_battlenet_installation(d),
            )
        },
{
    let mut installations: Vec<ScannedInstallation> = Vec::new();
    let mut i: usize = 0;
    while i < dirs.len()
        invariant
            i <= dirs.len(),
            installations_view(installations@) == dirs@.take(i as int).map_values(
                |d: BattlenetGameDir| spec_battlenet_installation(d),
            ),
        decreases dirs.len() - i,
    {
        let d = &dirs[i];
        let inst = ScannedInstallation {
            provider: owned("battlenet"),
            external_id: game_id_of_folder(d.title.as_str()),
            title: d.title.clone(),
            platform: owned("PC"),
            install_dir: Some(d.dir.clone()),
            executable: None,
            installed: true,
            size_bytes: None,
            last_updated: None,
        };
        let ghost before = installations@;
        proof {
            assert(inst@ == spec_battlenet_installation(dirs@[i as int]));
        }
        installations.push(inst);
        proof {
            assert(installations_view(installations@) =~= installations_view(before).push(inst@));
            assert(dirs@.take(i as int + 1).map_values(|d: BattlenetGameDir| spec_battlenet_installation(d)) =~= dirs@.take(
                i as int,
            ).map_values(|d: BattlenetGameDir| spec_battlenet_installation(d)).push(spec_battlenet_installation(dirs@[i as int])));
        }
        i += 1;
    }
    assert(dirs@.take(dirs@.len() as int) =~= dirs@);
    Ok(
        ProviderScan {
            id: "battlenet",
            name: "Battle.net",
            root: None,
            installations,
            can_launch: false,
            message: owned(
                "Instalações com .build.info são importadas sem hardcode; launch requer product code confiável e oferece fallback manual.",
            ),
        },
    )
}

} // verus!
