//! Steam: `libraryfolders.vdf` and `appmanifest_*.acf` parsing, the choice
//! of the Steam root and the list of libraries.
use vstd::prelude::*;
use crate::host::path_exists;
use crate::models::{InstallationView, ScannedInstallation};
use crate::paths::{join, path_join};
use crate::text::{
    all_digits, ascii_lower_seq, ascii_lowercase, chars_to_string, contains, eq_ignore_ascii_case,
    eq_ignore_case, has_prefix, has_substring, is_all_digits, lines, lowercase, owned,
    parse_i64, parse_i64_chars, parse_u64, parse_u64_chars, replace, replace_all, same_chars,
    split_lines, starts_with, str_chars, str_to_lowercase, strings_view, trim, trimmed, views,
};

verus! {

/// The Steam launcher.
pub struct SteamProvider;

// ---------------------------------------------------------------------------
// Quoted fields of a line
// ---------------------------------------------------------------------------

/// State while reading the quoted fields of a line.
pub struct QuoteState {
    pub fields: Seq<Seq<char>>,
    pub current: Seq<char>,
    pub in_quote: bool,
    pub escaped: bool,
}

/// One character: inside quotes a backslash keeps itself and the character
/// after it; a closing quote ends a field; text outside quotes is skipped.
pub open spec fn quote_step(st: QuoteState, ch: char) -> QuoteState {
    if st.escaped {
        QuoteState { current: st.current.push(ch), escaped: false, ..st }
    } else if ch == '\\' && st.in_quote {
        QuoteState { current: st.current.push(ch), escaped: true, ..st }
    } else if ch == '"' {
        if st.in_quote {
            QuoteState {
                fields: st.fields.push(st.current),
                current: Seq::empty(),
                in_quote: false,
                escaped: false,
            }
        } else {
            QuoteState { in_quote: true, ..st }
        }
    } else if st.in_quote {
        QuoteState { current: st.current.push(ch), ..st }
    } else {
        st
    }
}

pub open spec fn quote_run(s: Seq<char>) -> QuoteState
    decreases s.len(),
{
    if s.len() == 0 {
        QuoteState { fields: Seq::empty(), current: Seq::empty(), in_quote: false, escaped: false }
    } else {
        quote_step(quote_run(s.drop_last()), s.last())
    }
}

/// The complete quoted fields of a line, in order.
pub open spec fn spec_quoted_fields(line: Seq<char>) -> Seq<Seq<char>> {
    quote_run(line).fields
}

fn quoted_fields(line: &[char]) -> (r: Vec<Vec<char>>)
    ensures
        views(r@) == spec_quoted_fields(line@),
{
    let mut fields: Vec<Vec<char>> = Vec::new();
    let mut current: Vec<char> = Vec::new();
    let mut in_quote = false;
    let mut escaped = false;
    let mut i: usize = 0;
    while i < line.len()
        invariant
            i <= line.len(),
            views(fields@) == quote_run(line@.take(i as int)).fields,
            current@ == quote_run(line@.take(i as int)).current,
            in_quote == quote_run(line@.take(i as int)).in_quote,
            escaped == quote_run(line@.take(i as int)).escaped,
        decreases line.len() - i,
    {
        let ch = line[i];
        proof {
            assert(line@.take(i + 1).drop_last() =~= line@.take(i as int));
        }
        if escaped {
            current.push(ch);
            escaped = false;
        } else if ch == '\\' && in_quote {
            escaped = true;
            current.push(ch);
        } else if ch == '"' {
            if in_quote {
                let ghost before = fields@;
                fields.push(current);
                proof {
                    assert(views(fields@) =~= views(before).push(current@));
                }
                current = Vec::new();
            }
            in_quote = !in_quote;
        } else if in_quote {
            current.push(ch);
        }
        i += 1;
    }
    assert(line@.take(line.len() as int) =~= line@);
    fields
}

/// A doubled backslash, as Steam escapes it, read as one.
pub open spec fn unescape(v: Seq<char>) -> Seq<char> {
    replace(v, seq!['\\', '\\'], seq!['\\'])
}

fn unescape_exec(v: &[char]) -> (r: Vec<char>)
    ensures
        r@ == unescape(v@),
{
    let pat = ['\\', '\\'];
    let rep = ['\\'];
    assert(pat@ == seq!['\\', '\\']);
    assert(rep@ == seq!['\\']);
    replace_all(v, &pat, &rep)
}

// ---------------------------------------------------------------------------
// libraryfolders.vdf
// ---------------------------------------------------------------------------

/// The library path that a line of `libraryfolders.vdf` names: a `path`
/// key (any ASCII case), or a numeric key whose value holds a `:` or starts
/// with `/`.
pub open spec fn library_path_of(line: Seq<char>) -> Option<Seq<char>> {
    let f = spec_quoted_fields(line);
    if f.len() < 2 {
        None
    } else {
        let key = trim(f[0]);
        let value = unescape(f[1]);
        if eq_ignore_case(key, "path"@) || (all_digits(key) && (contains(value, seq![':'])
            || starts_with(value, seq!['/']))) {
            Some(value)
        } else {
            None
        }
    }
}

pub open spec fn library_paths_of(ls: Seq<Seq<char>>) -> Seq<Seq<char>>
    decreases ls.len(),
{
    if ls.len() == 0 {
        Seq::empty()
    } else {
        let r = library_paths_of(ls.drop_last());
        match library_path_of(ls.last()) {
            Some(p) => r.push(p),
            None => r,
        }
    }
}

/// The library paths of a `libraryfolders.vdf`, in file order.
pub open spec fn spec_libraryfolders(content: Seq<char>) -> Seq<Seq<char>> {
    library_paths_of(lines(content))
}

fn library_path_of_exec(line: &[char]) -> (r: Option<Vec<char>>)
    ensures
        match r {
            Some(v) => library_path_of(line@) == Some(v@),
            None => library_path_of(line@) is None,
        },
{
    let fields = quoted_fields(line);
    if fields.len() < 2 {
        return None;
    }
    let key = trimmed(fields[0].as_slice());
    let value = unescape_exec(fields[1].as_slice());
    let path_word = str_chars("path");
    let colon = [':'];
    let slash = ['/'];
    assert(colon@ == seq![':']);
    assert(slash@ == seq!['/']);
    if eq_ignore_ascii_case(key.as_slice(), path_word.as_slice()) || (is_all_digits(key.as_slice())
        && (has_substring(value.as_slice(), &colon) || has_prefix(value.as_slice(), &slash))) {
        Some(value)
    } else {
        None
    }
}

/// Reads the library paths of a `libraryfolders.vdf`: every line whose first
/// two quoted fields are a `path` key, or a numeric key with an absolute
/// path, gives the second field with `\\` read as `\`.
pub fn parse_libraryfolders(content: &str) -> (r: Vec<String>)
    ensures
        strings_view(r@) == spec_libraryfolders(content@),
{
    let chars = str_chars(content);
    let ls = split_lines(chars.as_slice());
    let mut out: Vec<String> = Vec::new();
    let mut i: usize = 0;
    while i < ls.len()
        invariant
            i <= ls.len(),
            views(ls@) == lines(content@),
            strings_view(out@) == library_paths_of(views(ls@).take(i as int)),
        decreases ls.len() - i,
    {
        proof {
            assert(views(ls@).take(i + 1).drop_last() =~= views(ls@).take(i as int));
            assert(views(ls@).take(i + 1).last() == ls@[i as int]@);
        }
        match library_path_of_exec(ls[i].as_slice()) {
            Some(p) => {
                let ghost before = out@;
                out.push(chars_to_string(p.as_slice()));
                proof {
                    assert(strings_view(out@) =~= strings_view(before).push(p@));
                }
            },
            None => {},
        }
        i += 1;
    }
    assert(views(ls@).take(ls.len() as int) =~= views(ls@));
    out
}

// ---------------------------------------------------------------------------
// appmanifest_*.acf
// ---------------------------------------------------------------------------

/// The value of `wanted` on a line, when the line's first quoted field is
/// that key (any ASCII case) and a second field follows.
pub open spec fn field_value(line: Seq<char>, wanted: Seq<char>) -> Option<Seq<char>> {
    let f = spec_quoted_fields(line);
    if f.len() >= 2 && eq_ignore_case(f[0], wanted) {
        Some(unescape(f[1]))
    } else {
        None
    }
}

pub open spec fn first_value(ls: Seq<Seq<char>>, wanted: Seq<char>) -> Option<Seq<char>>
    decreases ls.len(),
{
    if ls.len() == 0 {
        None
    } else {
        match field_value(ls[0], wanted) {
            Some(v) => Some(v),
            None => first_value(ls.skip(1), wanted),
        }
    }
}

/// The value of the first line of `content` that carries key `wanted`.
pub open spec fn spec_value_for(content: Seq<char>, wanted: Seq<char>) -> Option<Seq<char>> {
    first_value(lines(content), wanted)
}

fn value_for(ls: &Vec<Vec<char>>, wanted: &str) -> (r: Option<Vec<char>>)
    ensures
        match r {
            Some(v) => first_value(views(ls@), wanted@) == Some(v@),
            None => first_value(views(ls@), wanted@) is None,
        },
{
    let w = str_chars(wanted);
    let mut i: usize = 0;
    assert(views(ls@).skip(0) =~= views(ls@));
    while i < ls.len()
        invariant
            i <= ls.len(),
            w@ == wanted@,
            first_value(views(ls@), wanted@) == first_value(views(ls@).skip(i as int), wanted@),
        decreases ls.len() - i,
    {
        proof {
            let rest = views(ls@).skip(i as int);
            assert(rest[0] == ls@[i as int]@);
            assert(rest.skip(1) =~= views(ls@).skip(i + 1));
        }
        let fields = quoted_fields(ls[i].as_slice());
        if fields.len() >= 2 && eq_ignore_ascii_case(fields[0].as_slice(), w.as_slice()) {
            return Some(unescape_exec(fields[1].as_slice()));
        }
        i += 1;
    }
    None
}

/// Application types that are not games.
pub open spec fn non_game_type(t: Seq<char>) -> bool {
    let l = ascii_lower_seq(t);
    l == "tool"@ || l == "config"@ || l == "demo"@ || l == "dlc"@
}

/// Words in a name that mark redistributables, runtimes and tools.
pub open spec fn non_game_needle(k: int) -> Seq<char> {
    if k == 0 {
        "steamworks common redistributables"@
    } else if k == 1 {
        "proton "@
    } else if k == 2 {
        "dedicated server"@
    } else if k == 3 {
        "redistributable"@
    } else if k == 4 {
        "runtime"@
    } else {
        "sdk"@
    }
}

pub open spec fn spec_is_non_game(name: Seq<char>, app_type: Option<Seq<char>>) -> bool {
    ||| (app_type matches Some(t) && non_game_type(t))
    ||| exists|k: int| 0 <= k < 6 && contains(ascii_lower_seq(name), #[trigger] non_game_needle(k))
}

fn non_game_needle_at(k: usize) -> (r: &'static str)
    requires
        k < 6,
    ensures
        r@ == non_game_needle(k as int),
{
    if k == 0 {
        "steamworks common redistributables"
    } else if k == 1 {
        "proton "
    } else if k == 2 {
        "dedicated server"
    } else if k == 3 {
        "redistributable"
    } else if k == 4 {
        "runtime"
    } else {
        "sdk"
    }
}

fn is_non_game(name: &[char], app_type: Option<&[char]>) -> (r: bool)
    ensures
        r == spec_is_non_game(
            name@,
            match app_type {
                Some(t) => Some(t@),
                None => None,
            },
        ),
{
    if let Some(t) = app_type {
        let l = ascii_lowercase(t);
        if same_chars(l.as_slice(), str_chars("tool").as_slice()) || same_chars(
            l.as_slice(),
            str_chars("config").as_slice(),
        ) || same_chars(l.as_slice(), str_chars("demo").as_slice()) || same_chars(
            l.as_slice(),
            str_chars("dlc").as_slice(),
        ) {
            return true;
        }
    }
    let lower = ascii_lowercase(name);
    let mut k: usize = 0;
    while k < 6
        invariant
            k <= 6,
            lower@ == ascii_lower_seq(name@),
            forall|j: int| 0 <= j < k ==> !contains(lower@, #[trigger] non_game_needle(j)),
        decreases 6 - k,
    {
        let needle = str_chars(non_game_needle_at(k));
        if has_substring(lower.as_slice(), needle.as_slice()) {
            return true;
        }
        k += 1;
    }
    false
}

/// Where Steam installs `installdir` inside `library`.
pub open spec fn steam_install_dir(library: Seq<char>, installdir: Seq<char>) -> Seq<char> {
    path_join(path_join(path_join(library, "steamapps"@), "common"@), installdir)
}

pub open spec fn parsed_or_zero(v: Option<Seq<char>>) -> u64 {
    match v {
        Some(t) => match parse_u64(t) {
            Some(x) => x,
            None => 0,
        },
        None => 0,
    }
}

pub open spec fn parsed_i64(v: Option<Seq<char>>) -> Option<i64> {
    match v {
        Some(t) => parse_i64(t),
        None => None,
    }
}

/// What an app manifest describes, given whether its install folder
/// exists: an error naming the first missing required key, no game for
/// tools, DLC, demos and redistributables, or the installation, installed
/// when StateFlags has bit 4 and the folder exists.
pub open spec fn spec_appmanifest(content: Seq<char>, library: Seq<char>, dir_exists: bool) -> Result<
    Option<InstallationView>,
    Seq<char>,
> {
    let ls = lines(content);
    match first_value(ls, "appid"@) {
        None => Err("appid ausente"@),
        Some(appid) => match first_value(ls, "name"@) {
            None => Err("name ausente"@),
            Some(name) => match first_value(ls, "installdir"@) {
                None => Err("installdir ausente"@),
                Some(installdir) => {
                    let flags = parsed_or_zero(first_value(ls, "StateFlags"@));
                    if spec_is_non_game(name, first_value(ls, "AppType"@)) {
                        Ok(None)
                    } else {
                        Ok(
                            Some(
                                InstallationView {
                                    provider: "steam"@,
                                    external_id: appid,
                                    title: name,
                                    platform: "PC"@,
                                    install_dir: Some(steam_install_dir(library, installdir)),
                                    executable: None,
                                    installed: (flags & 4u64) != 0u64 && dir_exists,
                                    size_bytes: parsed_i64(first_value(ls, "SizeOnDisk"@)),
                                    last_updated: parsed_i64(first_value(ls, "LastUpdated"@)),
                                },
                            ),
                        )
                    }
                },
            },
        },
    }
}

pub open spec fn manifest_view(r: Result<Option<ScannedInstallation>, String>) -> Result<
    Option<InstallationView>,
    Seq<char>,
> {
    match r {
        Ok(Some(i)) => Ok(Some(i@)),
        Ok(None) => Ok(None),
        Err(e) => Err(e@),
    }
}

fn parse_u64_or_zero(v: Option<Vec<char>>) -> (r: u64)
    ensures
        r == parsed_or_zero(
            match v {
                Some(t) => Some(t@),
                None => None,
            },
        ),
{
    match v {
        Some(t) => match parse_u64_chars(t.as_slice()) {
            Some(x) => x,
            None => 0,
        },
        None => 0,
    }
}

fn parse_i64_opt(v: Option<Vec<char>>) -> (r: Option<i64>)
    ensures
        r == parsed_i64(
            match v {
                Some(t) => Some(t@),
                None => None,
            },
        ),
{
    match v {
        Some(t) => parse_i64_chars(t.as_slice()),
        None => None,
    }
}

/// The install folder that a manifest names inside `library`, when the
/// manifest has an `installdir` key.
pub fn manifest_install_dir(content: &str, library: &str) -> (r: Option<String>)
    ensures
        match r {
            Some(d) => exists|i: Seq<char>|
                spec_value_for(content@, "installdir"@) == Some(i) && d@ == steam_install_dir(
                    library@,
                    i,
                ),
            None => spec_value_for(content@, "installdir"@) is None,
        },
{
    let chars = str_chars(content);
    let ls = split_lines(chars.as_slice());
    match value_for(&ls, "installdir") {
        Some(installdir) => {
            let lib = str_chars(library);
            let a = join(lib.as_slice(), str_chars("steamapps").as_slice());
            let b = join(a.as_slice(), str_chars("common").as_slice());
            let c = join(b.as_slice(), installdir.as_slice());
            let d = chars_to_string(c.as_slice());
            proof {
                assert(spec_value_for(content@, "installdir"@) == Some(installdir@));
                assert(d@ == steam_install_dir(library@, installdir@));
            }
            Some(d)
        },
        None => None,
    }
}

/// Reads an app manifest of `library`, with `dir_exists` telling whether the
/// install folder it names is present.
pub fn parse_appmanifest_with(content: &str, library: &str, dir_exists: bool) -> (r: Result<
    Option<ScannedInstallation>,
    String,
>)
    ensures
        manifest_view(r) == spec_appmanifest(content@, library@, dir_exists),
{
    let chars = str_chars(content);
    let ls = split_lines(chars.as_slice());
    let appid = match value_for(&ls, "appid") {
        Some(v) => v,
        None => {
            return Err(owned("appid ausente"));
        },
    };
    let name = match value_for(&ls, "name") {
        Some(v) => v,
        None => {
            return Err(owned("name ausente"));
        },
    };
    let installdir = match value_for(&ls, "installdir") {
        Some(v) => v,
        None => {
            return Err(owned("installdir ausente"));
        },
    };
    let flags = parse_u64_or_zero(value_for(&ls, "StateFlags"));
    let size_bytes = parse_i64_opt(value_for(&ls, "SizeOnDisk"));
    let last_updated = parse_i64_opt(value_for(&ls, "LastUpdated"));
    let app_type = value_for(&ls, "AppType");
    let non_game = match &app_type {
        Some(t) => is_non_game(name.as_slice(), Some(t.as_slice())),
        None => is_non_game(name.as_slice(), None),
    };
    if non_game {
        return Ok(None);
    }
    let lib = str_chars(library);
    let a = join(lib.as_slice(), str_chars("steamapps").as_slice());
    let b = join(a.as_slice(), str_chars("common").as_slice());
    let dir = join(b.as_slice(), installdir.as_slice());
    let inst = ScannedInstallation {
        provider: owned("steam"),
        external_id: chars_to_string(appid.as_slice()),
        title: chars_to_string(name.as_slice()),
        platform: owned("PC"),
        install_dir: Some(chars_to_string(dir.as_slice())),
        executable: None,
        installed: (flags & 4u64) != 0u64 && dir_exists,
        size_bytes,
        last_updated,
    };
    Ok(Some(inst))
}

/// Reads an app manifest of `library`.  Whether the install folder exists is
/// asked of the file system; the result is the manifest's reading for one of
/// the two answers.
pub fn parse_appmanifest(content: &str, library: &str) -> (r: Result<
    Option<ScannedInstallation>,
    String,
>)
    ensures
        exists|b: bool| manifest_view(r) == spec_appmanifest(content@, library@, b),
{
    let exists_now = match manifest_install_dir(content, library) {
        Some(dir) => path_exists(dir.as_str()),
        None => false,
    };
    parse_appmanifest_with(content, library, exists_now)
}

// ---------------------------------------------------------------------------
// Roots and libraries
// ---------------------------------------------------------------------------

/// `dir` joined with `Steam`.
pub open spec fn steam_under(dir: Seq<char>) -> Seq<char> {
    path_join(dir, "Steam"@)
}

/// Keeps the values that are present, in order.
pub open spec fn present(vs: Seq<Option<String>>) -> Seq<Seq<char>>
    decreases vs.len(),
{
    if vs.len() == 0 {
        Seq::empty()
    } else {
        let rest = present(vs.drop_last());
        match vs.last() {
            Some(v) => rest.push(v@),
            None => rest,
        }
    }
}

fn keep_present(vs: Vec<Option<String>>, under_steam: bool) -> (r: Vec<String>)
    ensures
        strings_view(r@) == if under_steam {
            present(vs@).map_values(|d: Seq<char>| steam_under(d))
        } else {
            present(vs@)
        },
{
    let mut out: Vec<String> = Vec::new();
    let mut i: usize = 0;
    while i < vs.len()
        invariant
            i <= vs.len(),
            strings_view(out@) == if under_steam {
                present(vs@.take(i as int)).map_values(|d: Seq<char>| steam_under(d))
            } else {
                present(vs@.take(i as int))
            },
        decreases vs.len() - i,
    {
        proof {
            assert(vs@.take(i as int + 1).drop_last() =~= vs@.take(i as int));
        }
        let ghost before = out@;
        match &vs[i] {
            Some(v) => {
                let item = if under_steam {
                    let j = join(str_chars(v.as_str()).as_slice(), str_chars("Steam").as_slice());
                    chars_to_string(j.as_slice())
                } else {
                    v.clone()
                };
                out.push(item);
                proof {
                    assert(strings_view(out@) =~= strings_view(before).push(item@));
                    assert(present(vs@.take(i as int + 1)) == present(vs@.take(i as int)).push(v@));
                    if under_steam {
                        assert(present(vs@.take(i as int + 1)).map_values(|d: Seq<char>| steam_under(d))
                            =~= present(vs@.take(i as int)).map_values(|d: Seq<char>| steam_under(d)).push(
                            steam_under(v@),
                        ));
                    }
                }
            },
            None => {},
        }
        i += 1;
    }
    assert(vs@.take(vs@.len() as int) =~= vs@);
    out
}

impl SteamProvider {
    /// The Steam roots the registry names: the user's `SteamPath`, then the
    /// `InstallPath` of each machine key, for those that are set.
    pub fn registry_roots(steam_path: Option<String>, install_paths: Vec<Option<String>>) -> (r: Vec<
        String,
    >)
        ensures
            strings_view(r@) == present(seq![steam_path] + install_paths@),
    {
        let mut all: Vec<Option<String>> = Vec::new();
        all.push(steam_path);
        let mut rest = install_paths;
        all.append(&mut rest);
        keep_present(all, false)
    }

    /// The usual Steam folders under `Program Files (x86)`, `Program Files`
    /// and the local application data folder, for those that are known.
    pub fn candidate_roots(
        program_files_x86: Option<String>,
        program_files: Option<String>,
        local_app_data: Option<String>,
    ) -> (r: Vec<String>)
        ensures
            strings_view(r@) == present(seq![program_files_x86, program_files, local_app_data]).map_values(
                |d: Seq<char>| steam_under(d),
            ),
    {
        let ghost g = seq![program_files_x86, program_files, local_app_data];
        let mut all: Vec<Option<String>> = Vec::new();
        all.push(program_files_x86);
        all.push(program_files);
        all.push(local_app_data);
        assert(all@ =~= g);
        keep_present(all, true)
    }

    /// The Steam root: the first of `roots` (registry roots first, then the
    /// usual folders) that holds `steam.exe`, as the file system answers
    /// root by root.
    pub fn detect_root(roots: &Vec<String>) -> (r: Option<String>)
        ensures
            exists|found: Seq<bool>|
                found.len() == roots@.len() && crate::models::opt_view(r) == crate::host::first_flagged(
                    strings_view(roots@),
                    found,
                ),
    {
        crate::host::first_existing(roots, Some("steam.exe"))
    }

    /// The libraries of a Steam root: the root itself, then the libraries
    /// that its `libraryfolders.vdf` lists (`content`, when the file
    /// exists), without repeating a path that differs only in case.
    pub fn library_paths(root: &str, content: Option<&str>) -> (r: Vec<String>)
        ensures
            strings_view(r@) == dedup_paths(
                seq![root@] + match content {
                    Some(c) => spec_libraryfolders(c@),
                    None => Seq::empty(),
                },
            ),
            r@.len() >= 1,
            strings_view(r@)[0] == root@,
            forall|i: int, j: int|
                0 <= i < j < r@.len() ==> lowercase(r@[i]@) != lowercase(r@[j]@),
    {
        let mut all: Vec<String> = Vec::new();
        all.push(owned(root));
        match content {
            Some(c) => {
                let mut more = parse_libraryfolders(c);
                all.append(&mut more);
            },
            None => {},
        }
        proof {
            assert(strings_view(all@) =~= seq![root@] + match content {
                Some(c) => spec_libraryfolders(c@),
                None => Seq::<Seq<char>>::empty(),
            });
        }
        let r = dedup_by_lowercase(&all);
        proof {
            lemma_dedup_paths(strings_view(all@));
            assert forall|i: int, j: int| 0 <= i < j < r@.len() implies lowercase(r@[i]@) != lowercase(
                r@[j]@,
            ) by {
                assert(strings_view(r@)[i] == r@[i]@);
                assert(strings_view(r@)[j] == r@[j]@);
            }
        }
        r
    }
}

/// Paths in order, each left out when an earlier path has the same
/// lower-case form.
pub open spec fn dedup_paths(ps: Seq<Seq<char>>) -> Seq<Seq<char>>
    decreases ps.len(),
{
    if ps.len() == 0 {
        Seq::empty()
    } else {
        let rest = dedup_paths(ps.drop_last());
        if exists|j: int| 0 <= j < ps.len() - 1 && lowercase(ps[j]) == lowercase(ps.last()) {
            rest
        } else {
            rest.push(ps.last())
        }
    }
}

/// What `dedup_paths` keeps: the first path is always kept; no two kept
/// paths share a lower-case form; each kept path is one of the inputs.
pub proof fn lemma_dedup_paths(ps: Seq<Seq<char>>)
    ensures
        ps.len() > 0 ==> dedup_paths(ps).len() > 0 && dedup_paths(ps)[0] == ps[0],
        forall|i: int, j: int|
            0 <= i < j < dedup_paths(ps).len() ==> lowercase(dedup_paths(ps)[i]) != lowercase(
                dedup_paths(ps)[j],
            ),
        forall|i: int| 0 <= i < dedup_paths(ps).len() ==> ps.contains(#[trigger] dedup_paths(ps)[i]),
    decreases ps.len(),
{
    if ps.len() > 0 {
        let init = ps.drop_last();
        lemma_dedup_paths(init);
        let rest = dedup_paths(init);
        if ps.len() == 1 {
            assert(init.len() == 0);
            assert(rest.len() == 0);
        } else {
            assert(init[0] == ps[0]);
        }
        assert forall|i: int| 0 <= i < rest.len() implies ps.contains(#[trigger] rest[i]) by {
            let k = choose|k: int| 0 <= k < init.len() && init[k] == rest[i];
            assert(ps[k] == rest[i]);
        }
        if !(exists|j: int| 0 <= j < ps.len() - 1 && lowercase(ps[j]) == lowercase(ps.last())) {
            let d = rest.push(ps.last());
            assert forall|i: int, j: int| 0 <= i < j < d.len() implies lowercase(d[i]) != lowercase(
                d[j],
            ) by {
                if j == d.len() - 1 {
                    let k = choose|k: int| 0 <= k < init.len() && init[k] == rest[i];
                    assert(ps[k] == init[k]);
                }
            }
            assert forall|i: int| 0 <= i < d.len() implies ps.contains(#[trigger] d[i]) by {
                if i == d.len() - 1 {
                    assert(ps[ps.len() - 1] == d[i]);
                } else {
                    assert(d[i] == rest[i]);
                }
            }
        }
    }
}

fn dedup_by_lowercase(all: &Vec<String>) -> (r: Vec<String>)
    ensures
        strings_view(r@) == dedup_paths(strings_view(all@)),
{
    let ghost ps = strings_view(all@);
    let mut out: Vec<String> = Vec::new();
    let mut keys: Vec<Vec<char>> = Vec::new();
    let mut i: usize = 0;
    while i < all.len()
        invariant
            i <= all.len(),
            ps == strings_view(all@),
            strings_view(out@) == dedup_paths(ps.take(i as int)),
            keys@.len() == i,
            forall|j: int| 0 <= j < i ==> (#[trigger] keys@[j])@ == lowercase(ps[j]),
        decreases all.len() - i,
    {
        let key = str_to_lowercase(all[i].as_str());
        let kv = str_chars(key.as_str());
        let mut seen = false;
        let mut j: usize = 0;
        while j < keys.len()
            invariant
                j <= keys.len() == i,
                i < all.len(),
                ps == strings_view(all@),
                kv@ == lowercase(ps[i as int]),
                forall|m: int| 0 <= m < i ==> (#[trigger] keys@[m])@ == lowercase(ps[m]),
                seen <==> exists|m: int| 0 <= m < j && lowercase(ps[m]) == lowercase(ps[i as int]),
            decreases keys.len() - j,
        {
            if same_chars(keys[j].as_slice(), kv.as_slice()) {
                seen = true;
            }
            j += 1;
        }
        proof {
            let t = ps.take(i as int + 1);
            assert(t.drop_last() =~= ps.take(i as int));
            assert(t.last() == ps[i as int]);
            assert((exists|m: int| 0 <= m < t.len() - 1 && lowercase(t[m]) == lowercase(t.last()))
                == seen) by {
                if seen {
                    let m = choose|m: int| 0 <= m < i && lowercase(ps[m]) == lowercase(ps[i as int]);
                    assert(t[m] == ps[m]);
                }
                if exists|m: int| 0 <= m < t.len() - 1 && lowercase(t[m]) == lowercase(t.last()) {
                    let m = choose|m: int| 0 <= m < t.len() - 1 && lowercase(t[m]) == lowercase(t.last());
                    assert(t[m] == ps[m]);
                }
            }
        }
        let ghost before = out@;
        if !seen {
            out.push(all[i].clone());
            proof {
                assert(strings_view(out@) =~= strings_view(before).push(ps[i as int]));
            }
        }
        keys.push(kv);
        i += 1;
    }
    assert(ps.take(all@.len() as int) =~= ps);
    out
}

/// The app manifests of a library are the files named
/// `appmanifest_*.acf`.
pub open spec fn spec_is_appmanifest_name(name: Seq<char>) -> bool {
    starts_with(name, "appmanifest_"@) && crate::text::ends_with(name, ".acf"@)
}

pub fn is_appmanifest_name(name: &str) -> (r: bool)
    ensures
        r == spec_is_appmanifest_name(name@),
{
    let v = str_chars(name);
    has_prefix(v.as_slice(), str_chars("appmanifest_").as_slice()) && crate::text::has_suffix(
        v.as_slice(),
        str_chars(".acf").as_slice(),
    )
}

/// A game read from an app manifest is marked installed exactly when its
/// `StateFlags` value (0 when absent or unreadable) has the fully-installed
/// bit, of value 4, set, whatever its other bits are, and its install folder
/// exists.
pub proof fn law_installed_flag(content: Seq<char>, library: Seq<char>, dir_exists: bool)
    ensures
        spec_appmanifest(content, library, dir_exists) matches Ok(Some(i)) ==> i.installed == (
        parsed_or_zero(spec_value_for(content, "StateFlags"@)) / 4 % 2 == 1 && dir_exists),
{
    let f = parsed_or_zero(spec_value_for(content, "StateFlags"@));
    assert((f & 4u64) != 0u64 <==> f / 4 % 2 == 1) by (bit_vector);
}

/// A manifest describes no game exactly when its `AppType`, in any ASCII
/// case, is `tool`, `config`, `demo` or `dlc`, or its name, in ASCII lower
/// case, contains `steamworks common redistributables`, `proton ` (with
/// the space), `dedicated server`, `redistributable`, `runtime` or `sdk`.
pub proof fn law_non_game(name: Seq<char>, app_type: Option<Seq<char>>)
    ensures
        spec_is_non_game(name, app_type) <==> {
            ||| (app_type matches Some(t) && {
                let lt = ascii_lower_seq(t);
                lt == "tool"@ || lt == "config"@ || lt == "demo"@ || lt == "dlc"@
            })
            ||| contains(ascii_lower_seq(name), "steamworks common redistributables"@)
            ||| contains(ascii_lower_seq(name), "proton "@)
            ||| contains(ascii_lower_seq(name), "dedicated server"@)
            ||| contains(ascii_lower_seq(name), "redistributable"@)
            ||| contains(ascii_lower_seq(name), "runtime"@)
            ||| contains(ascii_lower_seq(name), "sdk"@)
        },
{
    let l = ascii_lower_seq(name);
    if contains(l, "steamworks common redistributables"@) {
        assert(contains(l, non_game_needle(0)));
    } else if contains(l, "proton "@) {
        assert(contains(l, non_game_needle(1)));
    } else if contains(l, "dedicated server"@) {
        assert(contains(l, non_game_needle(2)));
    } else if contains(l, "redistributable"@) {
        assert(contains(l, non_game_needle(3)));
    } else if contains(l, "runtime"@) {
        assert(contains(l, non_game_needle(4)));
    } else if contains(l, "sdk"@) {
        assert(contains(l, non_game_needle(5)));
    }
}

} // verus!
