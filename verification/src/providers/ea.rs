//! EA app / Origin: each folder under the EA Games or Origin Games roots is
//! a game; its executable is found among the folder's own entries.
use vstd::prelude::*;
use crate::host::path_exists;
use crate::models::{installations_view, InstallationView, ScannedInstallation};
use crate::paths::{component_name, component_name_of, extension, extension_of};
use crate::providers::{folder_game_id, game_id_of_folder, ProviderScan};
use crate::text::{ascii_lower_seq, ascii_lowercase, contains, eq_ignore_ascii_case, eq_ignore_case, has_substring, owned, str_chars};

verus! {

/// A game folder and the paths of its entries, in listing order.
#[derive(Debug, Clone)]
pub struct EaGameDir {
    pub dir: String,
    pub title: String,
    pub entries: Vec<String>,
}

pub open spec fn ea_message() -> Seq<char> {
    "Detecção local conservadora em EA Games/Origin Games; executável direto quando identificado com segurança."@
}

/// An entry taken for the game's executable: an `.exe` (any case) whose
/// name does not contain `unins`.
pub open spec fn is_game_executable(p: Seq<char>) -> bool {
    &&& extension(p) matches Some(e) && eq_ignore_case(e, "exe"@)
    &&& !contains(
        ascii_lower_seq(
            match component_name(p) {
                Some(n) => n,
                None => Seq::empty(),
            },
        ),
        "unins"@,
    )
}

/// The first entry taken for the executable.
pub open spec fn first_executable(entries: Seq<Seq<char>>) -> Option<Seq<char>>
    decreases entries.len(),
{
    if entries.len() == 0 {
        None
    } else if is_game_executable(entries[0]) {
        Some(entries[0])
    } else {
        first_executable(entries.skip(1))
    }
}

fn game_executable(p: &str) -> (r: bool)
    ensures
        r == is_game_executable(p@),
{
    let v = str_chars(p);
    proof {
        reveal_strlit("exe");
        reveal_strlit("unins");
    }
    let ok_ext = match extension_of(v.as_slice()) {
        Some(e) => eq_ignore_ascii_case(e.as_slice(), str_chars("exe").as_slice()),
        None => false,
    };
    if !ok_ext {
        return false;
    }
    let name = match component_name_of(v.as_slice()) {
        Some(n) => n,
        None => Vec::new(),
    };
    proof {
        assert(name@ == match component_name(p@) {
            Some(n) => n,
            None => Seq::<char>::empty(),
        });
    }
    let lower = ascii_lowercase(name.as_slice());
    !has_substring(lower.as_slice(), str_chars("unins").as_slice())
}

/// The executable of a game folder, when one of its entries qualifies.
pub fn find_exe(entries: &Vec<String>) -> (r: Option<String>)
    ensures
        crate::models::opt_view(r) == first_executable(crate::text::strings_view(entries@)),
{
    let ghost es = crate::text::strings_view(entries@);
    let mut i: usize = 0;
    proof {
        assert(es.skip(0) =~= es);
    }
    while i < entries.len()
        invariant
            i <= entries.len(),
            es == crate::text::strings_view(entries@),
            first_executable(es) == first_executable(es.skip(i as int)),
        decreases entries.len() - i,
    {
        proof {
            assert(es.skip(i as int).skip(1) =~= es.skip(i as int + 1));
            assert(es.skip(i as int)[0] == entries@[i as int]@);
        }
        if game_executable(entries[i].as_str()) {
            return Some(entries[i].clone());
        }
        i += 1;
    }
    None
}

pub open spec fn spec_ea_installation(d: EaGameDir) -> InstallationView {
    InstallationView {
        provider: "ea"@,
        external_id: folder_game_id(d.title@),
        title: d.title@,
        platform: "PC"@,
        install_dir: Some(d.dir@),
        executable: first_executable(crate::text::strings_view(d.entries@)),
        installed: true,
        size_bytes: None,
        last_updated: None,
    }
}

/// Scans the EA game folders found under `roots` (candidate roots in order
/// of preference); the reported root is the first of them found on disk.
pub fn scan(roots: &Vec<String>, dirs: &Vec<EaGameDir>) -> (r: Result<ProviderScan, String>)
    ensures
        r matches Ok(s) && {
            &&& s.id@ == "ea"@
            &&& s.name@ == "EA app"@
            &&& s.can_launch
            &&& s.message@ == ea_message()
            &&& (exists|found: Seq<bool>| found.len() == roots@.len() && crate::models::opt_view(s.root) == crate::host::first_flagged(crate::text::strings_view(roots@), found))
            &&& installations_view(s.installations@) == dirs@.map_values(
                |d: EaGameDir| spec_ea_installation(d),
            )
        },
{
    let mut installations: Vec<ScannedInstallation> = Vec::new();
    let mut i: usize = 0;
    while i < dirs.len()
        invariant
            i <= dirs.len(),
            installations_view(installations@) == dirs@.take(i as int).map_values(
                |d: EaGameDir| spec_ea_installation(d),
            ),
        decreases dirs.len() - i,
    {
        let d = &dirs[i];
        let inst = ScannedInstallation {
            provider: owned("ea"),
            external_id: game_id_of_folder(d.title.as_str()),
            title: d.title.clone(),
            platform: owned("PC"),
            install_dir: Some(d.dir.clone()),
            executable: find_exe(&d.entries),
            installed: true,
            size_bytes: None,
            last_updated: None,
        };
        let ghost before = installations@;
        proof {
            assert(inst@ == spec_ea_installation(dirs@[i as int]));
        }
        installations.push(inst);
        proof {
            assert(installations_view(installations@) =~= installations_view(before).push(inst@));
            assert(dirs@.take(i as int + 1).map_values(|d: EaGameDir| spec_ea_installation(d)) =~= dirs@.take(
                i as int,
            ).map_values(|d: EaGameDir| spec_ea_installation(d)).push(spec_ea_installation(dirs@[i as int])));
        }
        i += 1;
    }
    assert(dirs@.take(dirs@.len() as int) =~= dirs@);
    let root = crate::host::first_existing(roots, None);
    Ok(
        ProviderScan {
            id: "ea",
            name: "EA app",
            root,
            installations,
            can_launch: true,
            message: owned(
                "Detecção local conservadora em EA Games/Origin Games; executável direto quando identificado com segurança.",
            ),
        },
    )
}

} // verus!
