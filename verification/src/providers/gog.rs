//! GOG Galaxy: each game folder holds a `goggame-<id>.info` file that names
//! the game and its play tasks.
use vstd::prelude::*;
use crate::host::path_exists;
use crate::models::{installations_view, InstallationView, ScannedInstallation};
use crate::paths::{join, path_join};
use crate::providers::ProviderScan;
use crate::text::{chars_to_string, ends_with, has_prefix, has_suffix, owned, starts_with, str_chars};

verus! {

/// One entry of an info file's `playTasks`.
#[derive(Debug, Clone)]
pub struct GogPlayTask {
    /// `isPrimary`, when it is a boolean.
    pub is_primary: Option<bool>,
    /// `path`, when it is a string.
    pub path: Option<String>,
}

/// What Ludex reads of a `goggame-*.info` file.
#[derive(Debug, Clone)]
pub struct GogInfo {
    pub game_id: Option<String>,
    pub name: Option<String>,
    /// `playTasks`, when it is an array.
    pub play_tasks: Option<Vec<GogPlayTask>>,
}

/// A file found in a game folder; `info` is `None` when the file could not
/// be read or is not JSON.
#[derive(Debug, Clone)]
pub struct GogInfoFile {
    pub file_name: String,
    pub info: Option<GogInfo>,
}

/// A folder under a GOG games root.
#[derive(Debug, Clone)]
pub struct GogGameDir {
    pub dir: String,
    /// The folder's own name, when it is valid Unicode.
    pub dir_name: Option<String>,
    pub files: Vec<GogInfoFile>,
}

/// The path of the first play task marked primary that has a path.
pub open spec fn first_primary(tasks: Seq<GogPlayTask>) -> Option<Seq<char>>
    decreases tasks.len(),
{
    if tasks.len() == 0 {
        None
    } else {
        let t = tasks[0];
        match t.path {
            Some(p) if t.is_primary == Some(true) => Some(p@),
            _ => first_primary(tasks.skip(1)),
        }
    }
}

/// The executable of the primary play task, joined to the install folder.
pub open spec fn spec_primary_task(info: GogInfo, install_dir: Seq<char>) -> Option<Seq<char>> {
    match info.play_tasks {
        None => None,
        Some(ts) => match first_primary(ts@) {
            Some(p) => Some(path_join(install_dir, p)),
            None => None,
        },
    }
}

fn first_primary_exec(tasks: &Vec<GogPlayTask>) -> (r: Option<&String>)
    ensures
        match r {
            Some(p) => first_primary(tasks@) == Some(p@),
            None => first_primary(tasks@) is None,
        },
{
    let mut i: usize = 0;
    proof {
        assert(tasks@.skip(0) =~= tasks@);
    }
    while i < tasks.len()
        invariant
            i <= tasks.len(),
            first_primary(tasks@) == first_primary(tasks@.skip(i as int)),
        decreases tasks.len() - i,
    {
        proof {
            assert(tasks@.skip(i as int).skip(1) =~= tasks@.skip(i as int + 1));
            assert(tasks@.skip(i as int)[0] == tasks@[i as int]);
        }
        let t = &tasks[i];
        match &t.path {
            Some(p) => {
                if t.is_primary == Some(true) {
                    return Some(p);
                }
            },
            None => {},
        }
        i += 1;
    }
    None
}

/// The executable that GOG Galaxy's primary play task names, inside
/// `install_dir`.
pub fn primary_task(info: &GogInfo, install_dir: &str) -> (r: Option<String>)
    ensures
        match r {
            Some(p) => spec_primary_task(*info, install_dir@) == Some(p@),
            None => spec_primary_task(*info, install_dir@) is None,
        },
{
    match &info.play_tasks {
        None => None,
        Some(ts) => match first_primary_exec(ts) {
            Some(p) => {
                let j = join(str_chars(install_dir).as_slice(), str_chars(p.as_str()).as_slice());
                Some(chars_to_string(j.as_slice()))
            },
            None => None,
        },
    }
}

/// `s` with every leading copy of `p` removed (`str::trim_start_matches`).
pub open spec fn strip_leading(s: Seq<char>, p: Seq<char>) -> Seq<char>
    decreases s.len(),
{
    if p.len() > 0 && starts_with(s, p) {
        strip_leading(s.skip(p.len() as int), p)
    } else {
        s
    }
}

/// `s` with every trailing copy of `p` removed (`str::trim_end_matches`).
pub open spec fn strip_trailing(s: Seq<char>, p: Seq<char>) -> Seq<char>
    decreases s.len(),
{
    if p.len() > 0 && ends_with(s, p) {
        strip_trailing(s.take(s.len() - p.len()), p)
    } else {
        s
    }
}

fn strip_leading_exec(s: &[char], p: &[char]) -> (r: Vec<char>)
    requires
        p@.len() > 0,
    ensures
        r@ == strip_leading(s@, p@),
{
    let mut cur = crate::text::slice_from(s, 0);
    proof {
        assert(s@.skip(0) =~= s@);
    }
    while has_prefix(cur.as_slice(), p)
        invariant
            p@.len() > 0,
            strip_leading(cur@, p@) == strip_leading(s@, p@),
        decreases cur.len(),
    {
        cur = crate::text::slice_from(cur.as_slice(), p.len());
    }
    cur
}

fn strip_trailing_exec(s: &[char], p: &[char]) -> (r: Vec<char>)
    requires
        p@.len() > 0,
    ensures
        r@ == strip_trailing(s@, p@),
{
    let mut cur = crate::text::slice_from(s, 0);
    proof {
        assert(s@.skip(0) =~= s@);
    }
    while has_suffix(cur.as_slice(), p)
        invariant
            p@.len() > 0,
            strip_trailing(cur@, p@) == strip_trailing(s@, p@),
        decreases cur.len(),
    {
        cur = crate::text::slice_prefix(cur.as_slice(), cur.len() - p.len());
    }
    cur
}

/// A file that GOG Galaxy writes for each installed game.
pub open spec fn is_info_file(name: Seq<char>) -> bool {
    starts_with(name, "goggame-"@) && ends_with(name, ".info"@)
}

/// Whether a file of a game folder is a GOG Galaxy info file.
pub fn is_info_file_name(name: &str) -> (r: bool)
    ensures
        r == is_info_file(name@),
{
    let n = str_chars(name);
    has_prefix(n.as_slice(), str_chars("goggame-").as_slice()) && has_suffix(
        n.as_slice(),
        str_chars(".info").as_slice(),
    )
}

/// The first info file of a folder that could be read.
pub open spec fn first_info(files: Seq<GogInfoFile>) -> Option<(Seq<char>, GogInfo)>
    decreases files.len(),
{
    if files.len() == 0 {
        None
    } else {
        let f = files[0];
        match f.info {
            Some(info) if is_info_file(f.file_name@) => Some((f.file_name@, info)),
            _ => first_info(files.skip(1)),
        }
    }
}

pub open spec fn gog_message() -> Seq<char> {
    "Jogos DRM-free são iniciados diretamente pelo playTask primário de goggame-*.info."@
}

/// The installation a game folder yields, with `exe_exists` telling whether
/// the primary task's executable is present: identifier from `gameId` (else
/// the info file's name without its `goggame-` and `.info` affixes), title
/// from `name` (else the folder's name, else "GOG Game").
pub open spec fn spec_gog_installation(d: GogGameDir, exe_exists: bool) -> Option<InstallationView> {
    match first_info(d.files@) {
        None => None,
        Some((file_name, info)) => Some(
            InstallationView {
                provider: "gog"@,
                external_id: match info.game_id {
                    Some(g) => g@,
                    None => strip_trailing(strip_leading(file_name, "goggame-"@), ".info"@),
                },
                title: match info.name {
                    Some(n) => n@,
                    None => match d.dir_name {
                        Some(n) => n@,
                        None => "GOG Game"@,
                    },
                },
                platform: "PC"@,
                install_dir: Some(d.dir@),
                executable: if exe_exists {
                    spec_primary_task(info, d.dir@)
                } else {
                    None
                },
                installed: true,
                size_bytes: None,
                last_updated: None,
            },
        ),
    }
}

fn first_info_exec(files: &Vec<GogInfoFile>) -> (r: Option<(&String, &GogInfo)>)
    ensures
        match r {
            Some((n, i)) => first_info(files@) == Some((n@, *i)),
            None => first_info(files@) is None,
        },
{
    let prefix = str_chars("goggame-");
    let suffix = str_chars(".info");
    proof {
        reveal_strlit("goggame-");
        reveal_strlit(".info");
    }
    let mut i: usize = 0;
    proof {
        assert(files@.skip(0) =~= files@);
    }
    while i < files.len()
        invariant
            i <= files.len(),
            prefix@ == "goggame-"@,
            suffix@ == ".info"@,
            first_info(files@) == first_info(files@.skip(i as int)),
        decreases files.len() - i,
    {
        proof {
            assert(files@.skip(i as int).skip(1) =~= files@.skip(i as int + 1));
            assert(files@.skip(i as int)[0] == files@[i as int]);
        }
        let f = &files[i];
        match &f.info {
            Some(info) => {
                let n = str_chars(f.file_name.as_str());
                if has_prefix(n.as_slice(), prefix.as_slice()) && has_suffix(
                    n.as_slice(),
                    suffix.as_slice(),
                ) {
                    return Some((&f.file_name, info));
                }
            },
            None => {},
        }
        i += 1;
    }
    None
}

fn clone_opt(o: &Option<String>) -> (r: Option<String>)
    ensures
        crate::models::opt_view(r) == crate::models::opt_view(*o),
{
    match o {
        Some(s) => Some(s.clone()),
        None => None,
    }
}

/// The installation a game folder yields, given whether the primary task's
/// executable exists.
pub fn installation_from_dir_with(d: &GogGameDir, exe_exists: bool) -> (r: Option<ScannedInstallation>)
    ensures
        match r {
            Some(i) => spec_gog_installation(*d, exe_exists) == Some(i@),
            None => spec_gog_installation(*d, exe_exists) is None,
        },
{
    match first_info_exec(&d.files) {
        None => None,
        Some((file_name, info)) => {
            let external_id = match &info.game_id {
                Some(g) => g.clone(),
                None => {
                    let n = str_chars(file_name.as_str());
                    let p = str_chars("goggame-");
                    let s = str_chars(".info");
                    proof {
                        reveal_strlit("goggame-");
                        reveal_strlit(".info");
                    }
                    let a = strip_leading_exec(n.as_slice(), p.as_slice());
                    let b = strip_trailing_exec(a.as_slice(), s.as_slice());
                    chars_to_string(b.as_slice())
                },
            };
            let title = match &info.name {
                Some(n) => n.clone(),
                None => match &d.dir_name {
                    Some(n) => n.clone(),
                    None => owned("GOG Game"),
                },
            };
            let executable = if exe_exists {
                primary_task(info, d.dir.as_str())
            } else {
                None
            };
            Some(
                ScannedInstallation {
                    provider: owned("gog"),
                    external_id,
                    title,
                    platform: owned("PC"),
                    install_dir: Some(d.dir.clone()),
                    executable,
                    installed: true,
                    size_bytes: None,
                    last_updated: None,
                },
            )
        },
    }
}

/// The installation a game folder yields; whether the primary task's
/// executable exists is asked of the file system, so the result is the
/// folder's reading for one of the two answers.
pub fn installation_from_dir(d: &GogGameDir) -> (r: Option<ScannedInstallation>)
    ensures
        exists|b: bool|
            match r {
                Some(i) => spec_gog_installation(*d, b) == Some(i@),
                None => spec_gog_installation(*d, b) is None,
            },
{
    let exe_exists = match first_info_exec(&d.files) {
        Some((_, info)) => match primary_task(info, d.dir.as_str()) {
            Some(p) => path_exists(p.as_str()),
            None => false,
        },
        None => false,
    };
    installation_from_dir_with(d, exe_exists)
}

/// The installations of all game folders, with `found[i]` the answer for
/// the executable of folder `i`.
pub open spec fn gog_installations(games: Seq<GogGameDir>, found: Seq<bool>) -> Seq<InstallationView>
    decreases games.len(),
{
    if games.len() == 0 || found.len() == 0 {
        Seq::empty()
    } else {
        let rest = gog_installations(games.drop_last(), found.drop_last());
        match spec_gog_installation(games.last(), found.last()) {
            Some(i) => rest.push(i),
            None => rest,
        }
    }
}

/// Every installation a GOG scan reports is an installed PC game of the
/// `gog` provider whose folder is one of the folders that were scanned.
pub proof fn law_gog_installations_shape(games: Seq<GogGameDir>, found: Seq<bool>)
    ensures
        forall|k: int|
            0 <= k < gog_installations(games, found).len() ==> {
                let x = #[trigger] gog_installations(games, found)[k];
                &&& x.provider == "gog"@
                &&& x.platform == "PC"@
                &&& x.installed
                &&& exists|j: int| 0 <= j < games.len() && x.install_dir == Some(#[trigger] games[j].dir@)
            },
    decreases games.len(),
{
    if games.len() == 0 || found.len() == 0 {
    } else {
        let rest = gog_installations(games.drop_last(), found.drop_last());
        law_gog_installations_shape(games.drop_last(), found.drop_last());
        let all = gog_installations(games, found);
        assert forall|k: int| 0 <= k < all.len() implies {
            let x = #[trigger] all[k];
            &&& x.provider == "gog"@
            &&& x.platform == "PC"@
            &&& x.installed
            &&& exists|j: int| 0 <= j < games.len() && x.install_dir == Some(#[trigger] games[j].dir@)
        } by {
            if k < rest.len() {
                let x = rest[k];
                assert(all[k] == x);
                let j = choose|j: int| 0 <= j < games.drop_last().len() && x.install_dir == Some(
                    #[trigger] games.drop_last()[j].dir@,
                );
                assert(games[j] == games.drop_last()[j]);
            } else {
                let j = games.len() - 1;
                assert(games[j] == games.last());
                assert(all[k].install_dir == Some(games[j].dir@));
            }
        }
    }
}

/// A GOG scan reports each folder at most once: when the scanned folders
/// are distinct, no two reported installations share their folder.
pub proof fn law_gog_installations_distinct(games: Seq<GogGameDir>, found: Seq<bool>)
    requires
        forall|a: int, b: int| 0 <= a < b < games.len() ==> #[trigger] games[a].dir@ != #[trigger] games[b].dir@,
    ensures
        forall|a: int, b: int|
            0 <= a < b < gog_installations(games, found).len() ==> #[trigger] gog_installations(games, found)[a].install_dir
                != #[trigger] gog_installations(games, found)[b].install_dir,
    decreases games.len(),
{
    if games.len() == 0 || found.len() == 0 {
    } else {
        let g = games.drop_last();
        assert forall|a: int, b: int| 0 <= a < b < g.len() implies #[trigger] g[a].dir@ != #[trigger] g[b].dir@ by {
            assert(g[a] == games[a] && g[b] == games[b]);
        }
        law_gog_installations_distinct(g, found.drop_last());
        law_gog_installations_shape(g, found.drop_last());
        let rest = gog_installations(g, found.drop_last());
        let all = gog_installations(games, found);
        assert forall|a: int, b: int| 0 <= a < b < all.len() implies #[trigger] all[a].install_dir
            != #[trigger] all[b].install_dir by {
            if b < rest.len() {
                assert(all[a] == rest[a] && all[b] == rest[b]);
            } else {
                assert(all[a] == rest[a]);
                let x = rest[a];
                let j = choose|j: int| 0 <= j < g.len() && x.install_dir == Some(#[trigger] g[j].dir@);
                assert(g[j] == games[j]);
                assert(all[b].install_dir == Some(games[games.len() - 1].dir@));
                assert(games[j].dir@ != games[games.len() - 1].dir@);
            }
        }
    }
}

/// Scans GOG Galaxy's game folders.  `roots` are the candidate games roots
/// in order of preference; `games` are the folders found under those that
/// exist.  The reported root is the first of `roots` found on disk.
pub fn scan(roots: &Vec<String>, games: &Vec<GogGameDir>) -> (r: Result<ProviderScan, String>)
    ensures
        r matches Ok(s) && {
            &&& s.id@ == "gog"@
            &&& s.name@ == "GOG"@
            &&& s.can_launch
            &&& s.message@ == gog_message()
            &&& (exists|found: Seq<bool>| found.len() == roots@.len() && crate::models::opt_view(s.root) == crate::host::first_flagged(crate::text::strings_view(roots@), found))
            &&& exists|found: Seq<bool>|
                found.len() == games@.len() && installations_view(s.installations@) == gog_installations(
                    games@,
                    found,
                )
        },
{
    let mut installations: Vec<ScannedInstallation> = Vec::new();
    let ghost mut found: Seq<bool> = Seq::empty();
    let mut i: usize = 0;
    while i < games.len()
        invariant
            i <= games.len(),
            found.len() == i,
            installations_view(installations@) == gog_installations(games@.take(i as int), found),
        decreases games.len() - i,
    {
        let g = &games[i];
        let r = installation_from_dir(g);
        let ghost b = choose|b: bool|
            match r {
                Some(x) => spec_gog_installation(*g, b) == Some(x@),
                None => spec_gog_installation(*g, b) is None,
            };
        let ghost before = installations@;
        match r {
            Some(x) => {
                installations.push(x);
                proof {
                    assert(installations_view(installations@) =~= installations_view(before).push(x@));
                }
            },
            None => {},
        }
        proof {
            let nf = found.push(b);
            assert(games@.take(i as int + 1).drop_last() =~= games@.take(i as int));
            assert(nf.drop_last() =~= found);
            found = nf;
        }
        i += 1;
    }
    proof {
        assert(games@.take(games@.len() as int) =~= games@);
    }
    let root = crate::host::first_existing(roots, None);
    Ok(
        ProviderScan {
            id: "gog",
            name: "GOG",
            root,
            installations,
            can_launch: true,
            message: owned(
                "Jogos DRM-free são iniciados diretamente pelo playTask primário de goggame-*.info.",
            ),
        },
    )
}

} // verus!
