//! Rules of the library: statuses, ROM import, and how a sync file is
//! merged into the local database.
use vstd::prelude::*;
use crate::product_models::{DiagnosticItem, SyncSummary, RomScanResult};
use crate::text::{
    ascii_lower_seq, ascii_lowercase, chars_less, chars_to_string, concat_chars, decimal_signed,
    i64_decimal, lex_lt, owned, same_chars, str_chars,
};

verus! {

/// The statuses a game can have.
pub open spec fn status_name(k: int) -> Seq<char> {
    if k == 0 {
        "Quero jogar"@
    } else if k == 1 {
        "Jogando"@
    } else if k == 2 {
        "Pausado"@
    } else if k == 3 {
        "Concluído"@
    } else if k == 4 {
        "100%"@
    } else {
        "Abandonado"@
    }
}

fn status_at(k: usize) -> (r: &'static str)
    requires
        k < 6,
    ensures
        r@ == status_name(k as int),
{
    if k == 0 {
        "Quero jogar"
    } else if k == 1 {
        "Jogando"
    } else if k == 2 {
        "Pausado"
    } else if k == 3 {
        "Concluído"
    } else if k == 4 {
        "100%"
    } else {
        "Abandonado"
    }
}

pub open spec fn spec_is_status(s: Seq<char>) -> bool {
    exists|k: int| 0 <= k < 6 && s == #[trigger] status_name(k)
}

/// Checks a status before it is stored; anything but the six statuses is
/// refused.
pub fn check_status(status: &str) -> (r: Result<(), String>)
    ensures
        r is Ok <==> spec_is_status(status@),
        r matches Err(e) ==> e@ == "Status inválido"@,
{
    let s = str_chars(status);
    let mut k: usize = 0;
    while k < 6
        invariant
            k <= 6,
            s@ == status@,
            forall|j: int| 0 <= j < k ==> s@ != #[trigger] status_name(j),
        decreases 6 - k,
    {
        if same_chars(s.as_slice(), str_chars(status_at(k)).as_slice()) {
            return Ok(());
        }
        k += 1;
    }
    Err(owned("Status inválido"))
}

/// The ROM file extensions the scanner imports.
pub open spec fn rom_extension(k: int) -> Seq<char> {
    if k == 0 {
        "iso"@
    } else if k == 1 {
        "chd"@
    } else if k == 2 {
        "cue"@
    } else if k == 3 {
        "rvz"@
    } else if k == 4 {
        "wbfs"@
    } else if k == 5 {
        "gba"@
    } else if k == 6 {
        "gbc"@
    } else if k == 7 {
        "nds"@
    } else if k == 8 {
        "3ds"@
    } else if k == 9 {
        "nsp"@
    } else if k == 10 {
        "xci"@
    } else if k == 11 {
        "nes"@
    } else if k == 12 {
        "snes"@
    } else if k == 13 {
        "n64"@
    } else if k == 14 {
        "z64"@
    } else if k == 15 {
        "v64"@
    } else if k == 16 {
        "bin"@
    } else {
        "pbp"@
    }
}

fn rom_extension_at(k: usize) -> (r: &'static str)
    requires
        k < 18,
    ensures
        r@ == rom_extension(k as int),
{
    if k == 0 {
        "iso"
    } else if k == 1 {
        "chd"
    } else if k == 2 {
        "cue"
    } else if k == 3 {
        "rvz"
    } else if k == 4 {
        "wbfs"
    } else if k == 5 {
        "gba"
    } else if k == 6 {
        "gbc"
    } else if k == 7 {
        "nds"
    } else if k == 8 {
        "3ds"
    } else if k == 9 {
        "nsp"
    } else if k == 10 {
        "xci"
    } else if k == 11 {
        "nes"
    } else if k == 12 {
        "snes"
    } else if k == 13 {
        "n64"
    } else if k == 14 {
        "z64"
    } else if k == 15 {
        "v64"
    } else if k == 16 {
        "bin"
    } else {
        "pbp"
    }
}

pub open spec fn spec_allowed_extension(ext: Seq<char>) -> bool {
    exists|k: int| 0 <= k < 18 && ext == #[trigger] rom_extension(k)
}

/// Whether a (lower-case) extension is one the ROM scanner imports.
pub fn allowed_extension(ext: &str) -> (r: bool)
    ensures
        r == spec_allowed_extension(ext@),
{
    let e = str_chars(ext);
    let mut k: usize = 0;
    while k < 18
        invariant
            k <= 18,
            e@ == ext@,
            forall|j: int| 0 <= j < k ==> e@ != #[trigger] rom_extension(j),
        decreases 18 - k,
    {
        if same_chars(e.as_slice(), str_chars(rom_extension_at(k)).as_slice()) {
            return true;
        }
        k += 1;
    }
    false
}

/// Whether a file with this extension (if any) is imported as a ROM: its
/// extension, in ASCII lower case, is an allowed one.
pub fn rom_extension_accepted(ext: Option<&str>) -> (r: bool)
    ensures
        r == spec_allowed_extension(
            ascii_lower_seq(
                match ext {
                    Some(e) => e@,
                    None => Seq::empty(),
                },
            ),
        ),
{
    let raw = match ext {
        Some(e) => str_chars(e),
        None => Vec::new(),
    };
    let lower = ascii_lowercase(raw.as_slice());
    let text = chars_to_string(lower.as_slice());
    allowed_extension(text.as_str())
}

/// The SHA-256 of a ROM file's bytes in lower-case hex: the key under
/// which the scanner finds duplicates.
pub fn rom_hash(bytes: &[u8]) -> (r: String)
    ensures
        r@ == crate::updater::sha256_hex_of(bytes@),
{
    crate::updater::sha256_hex(bytes)
}

/// What the ROM scanner did with one file.
#[derive(Debug, Clone, Copy, PartialEq, Eq)]
pub enum RomOutcome {
    Imported,
    Duplicate,
    Ignored,
}

/// How many of `outcomes` are `o`.
pub open spec fn count_outcome(outcomes: Seq<RomOutcome>, o: RomOutcome) -> nat
    decreases outcomes.len(),
{
    if outcomes.len() == 0 {
        0
    } else {
        count_outcome(outcomes.drop_last(), o) + if outcomes.last() == o {
            1nat
        } else {
            0nat
        }
    }
}

/// The counts of a ROM folder scan from the outcome of each file found:
/// every file is counted once, as imported, duplicate or ignored.
pub fn rom_scan_result(outcomes: &Vec<RomOutcome>) -> (r: RomScanResult)
    ensures
        r.scanned_files == outcomes@.len(),
        r.imported == count_outcome(outcomes@, RomOutcome::Imported),
        r.duplicates == count_outcome(outcomes@, RomOutcome::Duplicate),
        r.ignored == count_outcome(outcomes@, RomOutcome::Ignored),
        r.imported + r.duplicates + r.ignored == r.scanned_files,
{
    let mut r = RomScanResult { scanned_files: outcomes.len(), imported: 0, duplicates: 0, ignored: 0 };
    let mut i: usize = 0;
    while i < outcomes.len()
        invariant
            i <= outcomes.len(),
            r.scanned_files == outcomes@.len(),
            r.imported == count_outcome(outcomes@.take(i as int), RomOutcome::Imported),
            r.duplicates == count_outcome(outcomes@.take(i as int), RomOutcome::Duplicate),
            r.ignored == count_outcome(outcomes@.take(i as int), RomOutcome::Ignored),
            r.imported + r.duplicates + r.ignored == i,
        decreases outcomes.len() - i,
    {
        proof {
            assert(outcomes@.take(i as int + 1).drop_last() =~= outcomes@.take(i as int));
        }
        match outcomes[i] {
            RomOutcome::Imported => r.imported = r.imported + 1,
            RomOutcome::Duplicate => r.duplicates = r.duplicates + 1,
            RomOutcome::Ignored => r.ignored = r.ignored + 1,
        }
        i += 1;
    }
    assert(outcomes@.take(outcomes@.len() as int) =~= outcomes@);
    r
}

/// One file met by the ROM scanner: its path, its extension and, when that
/// extension is one the scanner imports, the SHA-256 of its bytes.
#[derive(Debug, Clone)]
pub struct RomFile {
    pub path: String,
    pub extension: Option<String>,
    pub hash: Option<String>,
}

pub open spec fn opt_chars(s: Option<String>) -> Seq<char> {
    match s {
        Some(x) => x@,
        None => Seq::empty(),
    }
}

/// Whether the scanner imports a file with this extension.
pub open spec fn rom_file_wanted(f: RomFile) -> bool {
    spec_allowed_extension(ascii_lower_seq(opt_chars(f.extension)))
}

/// The outcome of one file when the ROM table already holds the hashes
/// `hashes` and the paths `paths`: a file of another kind is ignored, one
/// whose hash or path is already known is a duplicate, and any other is
/// imported.
pub open spec fn rom_outcome(f: RomFile, hashes: Set<Seq<char>>, paths: Set<Seq<char>>) -> RomOutcome {
    if !rom_file_wanted(f) {
        RomOutcome::Ignored
    } else if hashes.contains(opt_chars(f.hash)) || paths.contains(f.path@) {
        RomOutcome::Duplicate
    } else {
        RomOutcome::Imported
    }
}

/// The hashes and paths the ROM table holds once `files` have been
/// scanned, in order, from `hashes` and `paths`: each imported file adds
/// its own.
pub open spec fn rom_index_after(
    files: Seq<RomFile>,
    hashes: Set<Seq<char>>,
    paths: Set<Seq<char>>,
) -> (Set<Seq<char>>, Set<Seq<char>>)
    decreases files.len(),
{
    if files.len() == 0 {
        (hashes, paths)
    } else {
        let (h, p) = rom_index_after(files.drop_last(), hashes, paths);
        let f = files.last();
        if rom_outcome(f, h, p) == RomOutcome::Imported {
            (h.insert(opt_chars(f.hash)), p.insert(f.path@))
        } else {
            (h, p)
        }
    }
}

/// The outcome of each of `files`, scanned in order.
pub open spec fn rom_outcomes(files: Seq<RomFile>, hashes: Set<Seq<char>>, paths: Set<Seq<char>>) -> Seq<
    RomOutcome,
> {
    Seq::new(
        files.len(),
        |i: int|
            rom_outcome(
                files[i],
                rom_index_after(files.take(i), hashes, paths).0,
                rom_index_after(files.take(i), hashes, paths).1,
            ),
    )
}

/// The texts of `v` as a set.
pub open spec fn text_set(v: Seq<Vec<char>>) -> Set<Seq<char>> {
    Set::new(|x: Seq<char>| exists|i: int| 0 <= i < v.len() && #[trigger] v[i]@ == x)
}

/// The strings of `v` as a set.
pub open spec fn string_set(v: Seq<String>) -> Set<Seq<char>> {
    Set::new(|x: Seq<char>| exists|i: int| 0 <= i < v.len() && #[trigger] v[i]@ == x)
}

proof fn lemma_text_set_push(v: Seq<Vec<char>>, a: Vec<char>)
    ensures
        text_set(v.push(a)) == text_set(v).insert(a@),
{
    assert forall|x: Seq<char>| text_set(v.push(a)).contains(x) == text_set(v).insert(a@).contains(x) by {
        if text_set(v.push(a)).contains(x) {
            let i = choose|i: int| 0 <= i < v.push(a).len() && #[trigger] v.push(a)[i]@ == x;
            if i < v.len() {
                assert(v[i]@ == x);
            }
        }
        if text_set(v).contains(x) {
            let i = choose|i: int| 0 <= i < v.len() && #[trigger] v[i]@ == x;
            assert(v.push(a)[i]@ == x);
        }
        if x == a@ {
            assert(v.push(a)[v.len() as int]@ == x);
        }
    }
    assert(text_set(v.push(a)) =~= text_set(v).insert(a@));
}

fn text_list_contains(v: &Vec<Vec<char>>, x: &[char]) -> (r: bool)
    ensures
        r == text_set(v@).contains(x@),
{
    let mut i: usize = 0;
    while i < v.len()
        invariant
            i <= v.len(),
            forall|j: int| 0 <= j < i ==> v@[j]@ != x@,
        decreases v.len() - i,
    {
        if same_chars(v[i].as_slice(), x) {
            assert(v@[i as int]@ == x@);
            return true;
        }
        i += 1;
    }
    proof {
        if text_set(v@).contains(x@) {
            let j = choose|j: int| 0 <= j < v@.len() && #[trigger] v@[j]@ == x@;
            assert(v@[j]@ == x@);
        }
    }
    false
}

fn text_list(v: &Vec<String>) -> (r: Vec<Vec<char>>)
    ensures
        text_set(r@) == string_set(v@),
{
    let mut r: Vec<Vec<char>> = Vec::new();
    let mut i: usize = 0;
    while i < v.len()
        invariant
            i <= v.len(),
            r@.len() == i,
            forall|j: int| 0 <= j < i ==> #[trigger] r@[j]@ == v@[j]@,
        decreases v.len() - i,
    {
        r.push(str_chars(v[i].as_str()));
        i += 1;
    }
    assert forall|x: Seq<char>| text_set(r@).contains(x) == string_set(v@).contains(x) by {
        if text_set(r@).contains(x) {
            let j = choose|j: int| 0 <= j < r@.len() && #[trigger] r@[j]@ == x;
            assert(v@[j]@ == x);
        }
        if string_set(v@).contains(x) {
            let j = choose|j: int| 0 <= j < v@.len() && #[trigger] v@[j]@ == x;
            assert(r@[j]@ == x);
        }
    }
    assert(text_set(r@) =~= string_set(v@));
    r
}

/// Decides, file by file, what the ROM scanner does with `files` when the
/// ROM table already holds `known_hashes` and `known_paths`: the decision
/// of each file sees the files imported before it in the same scan.
pub fn rom_scan_plan(files: &Vec<RomFile>, known_hashes: &Vec<String>, known_paths: &Vec<String>) -> (r:
    Vec<RomOutcome>)
    requires
        forall|i: int| 0 <= i < files@.len() && rom_file_wanted(#[trigger] files@[i]) ==> files@[i].hash is Some,
    ensures
        r@ == rom_outcomes(files@, string_set(known_hashes@), string_set(known_paths@)),
{
    let ghost h0 = string_set(known_hashes@);
    let ghost p0 = string_set(known_paths@);
    let mut hashes = text_list(known_hashes);
    let mut paths = text_list(known_paths);
    let mut r: Vec<RomOutcome> = Vec::new();
    let mut i: usize = 0;
    while i < files.len()
        invariant
            i <= files.len(),
            forall|j: int| 0 <= j < files@.len() && rom_file_wanted(#[trigger] files@[j]) ==> files@[j].hash is Some,
            h0 == string_set(known_hashes@),
            p0 == string_set(known_paths@),
            (text_set(hashes@), text_set(paths@)) == rom_index_after(files@.take(i as int), h0, p0),
            r@.len() == i,
            forall|j: int| 0 <= j < i ==> #[trigger] r@[j] == rom_outcomes(files@, h0, p0)[j],
        decreases files.len() - i,
    {
        let f = &files[i];
        let ghost before = rom_index_after(files@.take(i as int), h0, p0);
        proof {
            assert(files@.take(i as int + 1).drop_last() =~= files@.take(i as int));
            assert(files@.take(i as int + 1).last() == files@[i as int]);
        }
        let wanted = rom_extension_accepted(
            match &f.extension {
                Some(e) => Some(e.as_str()),
                None => None,
            },
        );
        proof {
            assert(opt_chars(f.extension) == match f.extension {
                Some(e) => e@,
                None => Seq::<char>::empty(),
            });
        }
        let outcome = if !wanted {
            RomOutcome::Ignored
        } else {
            let h = match &f.hash {
                Some(h) => str_chars(h.as_str()),
                None => Vec::new(),
            };
            let p = str_chars(f.path.as_str());
            assert(h@ == opt_chars(f.hash));
            if text_list_contains(&hashes, h.as_slice()) || text_list_contains(&paths, p.as_slice()) {
                RomOutcome::Duplicate
            } else {
                proof {
                    lemma_text_set_push(hashes@, h);
                    lemma_text_set_push(paths@, p);
                }
                hashes.push(h);
                paths.push(p);
                RomOutcome::Imported
            }
        };
        r.push(outcome);
        i += 1;
    }
    assert(files@.take(files@.len() as int) =~= files@);
    assert(r@ =~= rom_outcomes(files@, h0, p0));
    r
}

proof fn lemma_rom_index_grows(files: Seq<RomFile>, hashes: Set<Seq<char>>, paths: Set<Seq<char>>)
    ensures
        hashes.subset_of(rom_index_after(files, hashes, paths).0),
        paths.subset_of(rom_index_after(files, hashes, paths).1),
    decreases files.len(),
{
    if files.len() > 0 {
        lemma_rom_index_grows(files.drop_last(), hashes, paths);
    }
}

proof fn lemma_rom_index_prefix(files: Seq<RomFile>, hashes: Set<Seq<char>>, paths: Set<Seq<char>>, j: int, k: int)
    requires
        0 <= j <= k <= files.len(),
    ensures
        rom_index_after(files.take(j), hashes, paths).0.subset_of(rom_index_after(files.take(k), hashes, paths).0),
        rom_index_after(files.take(j), hashes, paths).1.subset_of(rom_index_after(files.take(k), hashes, paths).1),
    decreases k - j,
{
    if j < k {
        lemma_rom_index_prefix(files, hashes, paths, j, k - 1);
        assert(files.take(k).drop_last() =~= files.take(k - 1));
    }
}

/// Each file the scanner wants ends up known to the ROM table, by its hash
/// or by its path.
proof fn lemma_rom_wanted_known(files: Seq<RomFile>, hashes: Set<Seq<char>>, paths: Set<Seq<char>>, i: int)
    requires
        0 <= i < files.len(),
        rom_file_wanted(files[i]),
    ensures
        rom_index_after(files, hashes, paths).0.contains(opt_chars(files[i].hash))
            || rom_index_after(files, hashes, paths).1.contains(files[i].path@),
{
    assert(files.take(i + 1).drop_last() =~= files.take(i));
    assert(files.take(i + 1).last() == files[i]);
    assert(files.take(files.len() as int) =~= files);
    lemma_rom_index_prefix(files, hashes, paths, i, i + 1);
    lemma_rom_index_prefix(files, hashes, paths, i + 1, files.len() as int);
}

/// Scanning the same files a second time imports nothing: every file the
/// first scan wanted is then known by its hash or its path, so the second
/// scan counts it as a duplicate, and the others are ignored again.
pub proof fn law_rom_rescan_imports_nothing(files: Seq<RomFile>, hashes: Set<Seq<char>>, paths: Set<Seq<char>>)
    ensures
        ({
            let after = rom_index_after(files, hashes, paths);
            let again = rom_outcomes(files, after.0, after.1);
            &&& forall|i: int| 0 <= i < files.len() ==> #[trigger] again[i] != RomOutcome::Imported
            &&& count_outcome(again, RomOutcome::Imported) == 0
        }),
{
    let after = rom_index_after(files, hashes, paths);
    let again = rom_outcomes(files, after.0, after.1);
    assert forall|i: int| 0 <= i < files.len() implies #[trigger] again[i] != RomOutcome::Imported by {
        if rom_file_wanted(files[i]) {
            lemma_rom_wanted_known(files, hashes, paths, i);
            lemma_rom_index_grows(files.take(i), after.0, after.1);
        }
    }
    lemma_count_absent(again, RomOutcome::Imported);
}

proof fn lemma_count_absent(outcomes: Seq<RomOutcome>, o: RomOutcome)
    requires
        forall|i: int| 0 <= i < outcomes.len() ==> #[trigger] outcomes[i] != o,
    ensures
        count_outcome(outcomes, o) == 0,
    decreases outcomes.len(),
{
    if outcomes.len() > 0 {
        lemma_count_absent(outcomes.drop_last(), o);
    }
}

/// The title of a ROM: its file stem (or `ROM`) with `_` and `.` read as
/// spaces.
pub open spec fn spec_rom_title(stem: Option<Seq<char>>) -> Seq<char> {
    let s = match stem {
        Some(t) => t,
        None => "ROM"@,
    };
    s.map_values(|c: char| if c == '_' || c == '.' { ' ' } else { c })
}

pub fn rom_title(stem: Option<&str>) -> (r: String)
    ensures
        r@ == spec_rom_title(
            match stem {
                Some(t) => Some(t@),
                None => None,
            },
        ),
{
    let s = match stem {
        Some(t) => str_chars(t),
        None => str_chars("ROM"),
    };
    let mut out: Vec<char> = Vec::new();
    let mut i: usize = 0;
    while i < s.len()
        invariant
            i <= s.len(),
            out@ == s@.take(i as int).map_values(
                |c: char|
                    if c == '_' || c == '.' {
                        ' '
                    } else {
                        c
                    },
            ),
        decreases s.len() - i,
    {
        let c = s[i];
        if c == '_' || c == '.' {
            out.push(' ');
        } else {
            out.push(c);
        }
        i += 1;
        assert(out@ =~= s@.take(i as int).map_values(
            |c: char|
                if c == '_' || c == '.' {
                    ' '
                } else {
                    c
                },
        ));
    }
    assert(s@.take(s.len() as int) =~= s@);
    chars_to_string(out.as_slice())
}

// ---------------------------------------------------------------------------
// Sync files
// ---------------------------------------------------------------------------

/// Whether a record's remote `updated_at` wins over the local one: a record
/// that is not stored locally always takes the remote, a remote without a
/// timestamp never wins, and otherwise the later timestamp (compared as
/// text) wins.
pub open spec fn spec_remote_is_newer(local: Option<Seq<char>>, remote: Option<Seq<char>>) -> bool {
    match (local, remote) {
        (None, _) => true,
        (Some(_), None) => false,
        (Some(l), Some(r)) => lex_lt(l, r),
    }
}

pub fn remote_is_newer(local: Option<String>, remote: Option<&str>) -> (r: bool)
    ensures
        r == spec_remote_is_newer(
            crate::models::opt_view(local),
            match remote {
                Some(x) => Some(x@),
                None => None,
            },
        ),
{
    match (local, remote) {
        (None, _) => true,
        (Some(_), None) => false,
        (Some(l), Some(r)) => chars_less(str_chars(l.as_str()).as_slice(), str_chars(r).as_slice()),
    }
}

/// What an import does with a game record of the sync file.
#[derive(Debug, Clone, Copy, PartialEq, Eq)]
pub enum SyncAction {
    Insert,
    Update,
    Skip,
}

/// A game without id or title is skipped, an unknown one inserted, a known
/// one updated when the remote copy is newer and skipped otherwise.
pub open spec fn spec_game_sync_action(
    id: Seq<char>,
    title: Seq<char>,
    local: Option<Seq<char>>,
    remote: Option<Seq<char>>,
) -> SyncAction {
    if id.len() == 0 || title.len() == 0 {
        SyncAction::Skip
    } else if local is None {
        SyncAction::Insert
    } else if spec_remote_is_newer(local, remote) {
        SyncAction::Update
    } else {
        SyncAction::Skip
    }
}

pub fn game_sync_action(id: &str, title: &str, local: Option<String>, remote: Option<&str>) -> (r:
    SyncAction)
    ensures
        r == spec_game_sync_action(
            id@,
            title@,
            crate::models::opt_view(local),
            match remote {
                Some(x) => Some(x@),
                None => None,
            },
        ),
{
    if str_chars(id).len() == 0 || str_chars(title).len() == 0 {
        SyncAction::Skip
    } else if local.is_none() {
        SyncAction::Insert
    } else if remote_is_newer(local, remote) {
        SyncAction::Update
    } else {
        SyncAction::Skip
    }
}

/// Importing a game record again once it was applied changes nothing: the
/// stored `updated_at` is then the record's own, which is not newer than
/// itself, so the record is skipped.
pub proof fn law_reimport_is_skipped(id: Seq<char>, title: Seq<char>, updated_at: Seq<char>)
    ensures
        spec_game_sync_action(id, title, Some(updated_at), Some(updated_at)) == SyncAction::Skip,
{
    crate::text::lemma_lex_lt_irreflexive(updated_at);
}

/// A game record of a sync file as the import reads it: its id, its title
/// and its remote `updated_at`.
pub type GameRecord = (Seq<char>, Seq<char>, Option<Seq<char>>);

/// The `updated_at` stored for `id`, if the game is stored.
pub open spec fn stored_at(store: Map<Seq<char>, Seq<char>>, id: Seq<char>) -> Option<Seq<char>> {
    if store.dom().contains(id) {
        Some(store[id])
    } else {
        None
    }
}

/// One game record applied to the stored `updated_at` of each game id: the
/// action decided for it, and the stamps after the write that action makes
/// (an insert stores the remote stamp or `now`; an update stores the remote
/// stamp, or keeps the stored one when there is none).
pub open spec fn game_import_step(
    store: Map<Seq<char>, Seq<char>>,
    rec: GameRecord,
    now: Seq<char>,
) -> (Map<Seq<char>, Seq<char>>, SyncAction) {
    let a = spec_game_sync_action(rec.0, rec.1, stored_at(store, rec.0), rec.2);
    let s = match a {
        SyncAction::Insert => store.insert(
            rec.0,
            match rec.2 {
                Some(r) => r,
                None => now,
            },
        ),
        SyncAction::Update => store.insert(
            rec.0,
            match rec.2 {
                Some(r) => r,
                None => store[rec.0],
            },
        ),
        SyncAction::Skip => store,
    };
    (s, a)
}

/// The game records of a sync file applied in order.
pub open spec fn games_import(
    store: Map<Seq<char>, Seq<char>>,
    recs: Seq<GameRecord>,
    now: Seq<char>,
) -> (Map<Seq<char>, Seq<char>>, Seq<SyncAction>)
    decreases recs.len(),
{
    if recs.len() == 0 {
        (store, Seq::empty())
    } else {
        let (s, acts) = games_import(store, recs.drop_last(), now);
        let (s2, a) = game_import_step(s, recs.last(), now);
        (s2, acts.push(a))
    }
}

/// Every record of `recs` with an id and a title is stored with a stamp at
/// or after its own.
pub open spec fn records_covered(store: Map<Seq<char>, Seq<char>>, recs: Seq<GameRecord>) -> bool {
    forall|i: int|
        0 <= i < recs.len() && recs[i].0.len() > 0 && recs[i].1.len() > 0 ==> {
            &&& #[trigger] store.dom().contains(recs[i].0)
            &&& (recs[i].2 matches Some(r) ==> crate::text::lex_le(r, store[recs[i].0]))
        }
}

/// Stamps only move forward, and no stored game disappears.
pub open spec fn stamps_grow(a: Map<Seq<char>, Seq<char>>, b: Map<Seq<char>, Seq<char>>) -> bool {
    forall|k: Seq<char>| #[trigger] a.dom().contains(k) ==> b.dom().contains(k) && crate::text::lex_le(a[k], b[k])
}

proof fn lemma_lex_le_trans(a: Seq<char>, b: Seq<char>, c: Seq<char>)
    requires
        crate::text::lex_le(a, b),
        crate::text::lex_le(b, c),
    ensures
        crate::text::lex_le(a, c),
{
    if lex_lt(a, b) && lex_lt(b, c) {
        crate::text::lemma_lex_lt_transitive(a, b, c);
    }
}

proof fn lemma_import_step(store: Map<Seq<char>, Seq<char>>, rec: GameRecord, now: Seq<char>)
    ensures
        stamps_grow(store, game_import_step(store, rec, now).0),
        rec.0.len() > 0 && rec.1.len() > 0 ==> {
            let s = game_import_step(store, rec, now).0;
            &&& s.dom().contains(rec.0)
            &&& (rec.2 matches Some(r) ==> crate::text::lex_le(r, s[rec.0]))
        },
{
    let a = spec_game_sync_action(rec.0, rec.1, stored_at(store, rec.0), rec.2);
    if a == SyncAction::Skip && rec.0.len() > 0 && rec.1.len() > 0 {
        if let Some(r) = rec.2 {
            if r != store[rec.0] {
                crate::text::lemma_lex_lt_total(r, store[rec.0]);
            }
        }
    }
}

proof fn lemma_first_import(store: Map<Seq<char>, Seq<char>>, recs: Seq<GameRecord>, now: Seq<char>)
    ensures
        stamps_grow(store, games_import(store, recs, now).0),
        records_covered(games_import(store, recs, now).0, recs),
        games_import(store, recs, now).1.len() == recs.len(),
    decreases recs.len(),
{
    if recs.len() > 0 {
        let prev = recs.drop_last();
        lemma_first_import(store, prev, now);
        let s = games_import(store, prev, now).0;
        lemma_import_step(s, recs.last(), now);
        let s2 = games_import(store, recs, now).0;
        assert(stamps_grow(store, s2)) by {
            assert forall|k: Seq<char>| #[trigger] store.dom().contains(k) implies s2.dom().contains(k)
                && crate::text::lex_le(store[k], s2[k]) by {
                assert(s.dom().contains(k));
                lemma_lex_le_trans(store[k], s[k], s2[k]);
            }
        }
        assert(records_covered(s2, recs)) by {
            assert forall|i: int|
                0 <= i < recs.len() && recs[i].0.len() > 0 && recs[i].1.len() > 0 implies {
                    &&& #[trigger] s2.dom().contains(recs[i].0)
                    &&& (recs[i].2 matches Some(r) ==> crate::text::lex_le(r, s2[recs[i].0]))
                } by {
                if i < prev.len() {
                    assert(recs[i] == prev[i]);
                    assert(s.dom().contains(prev[i].0));
                    if let Some(r) = recs[i].2 {
                        lemma_lex_le_trans(r, s[recs[i].0], s2[recs[i].0]);
                    }
                } else {
                    assert(recs[i] == recs.last());
                }
            }
        }
    }
}

proof fn lemma_second_import(store: Map<Seq<char>, Seq<char>>, recs: Seq<GameRecord>, now: Seq<char>)
    requires
        records_covered(store, recs),
    ensures
        games_import(store, recs, now).0 == store,
        forall|i: int| 0 <= i < recs.len() ==> #[trigger] games_import(store, recs, now).1[i] == SyncAction::Skip,
        games_import(store, recs, now).1.len() == recs.len(),
    decreases recs.len(),
{
    if recs.len() > 0 {
        let prev = recs.drop_last();
        assert(records_covered(store, prev)) by {
            assert forall|i: int|
                0 <= i < prev.len() && prev[i].0.len() > 0 && prev[i].1.len() > 0 implies {
                    &&& #[trigger] store.dom().contains(prev[i].0)
                    &&& (prev[i].2 matches Some(r) ==> crate::text::lex_le(r, store[prev[i].0]))
                } by {
                assert(prev[i] == recs[i]);
            }
        }
        lemma_second_import(store, prev, now);
        let rec = recs.last();
        let n = recs.len() - 1;
        assert(rec == recs[n]);
        if rec.0.len() > 0 && rec.1.len() > 0 {
            assert(store.dom().contains(recs[n].0));
            if let Some(r) = rec.2 {
                crate::text::lemma_lex_le_not_lt(r, store[rec.0]);
            }
        }
    }
}

/// Importing the same sync file a second time changes no game: right after
/// an import every record with an id and a title is stored with a stamp at
/// or after its own, so the second import skips every record, inserts and
/// updates nothing, and leaves every stored stamp as it was, whatever the
/// clock reads at either import.
pub proof fn law_sync_reimport_changes_no_game(
    store: Map<Seq<char>, Seq<char>>,
    recs: Seq<GameRecord>,
    now1: Seq<char>,
    now2: Seq<char>,
)
    ensures
        ({
            let first = games_import(store, recs, now1).0;
            let again = games_import(first, recs, now2);
            &&& again.0 == first
            &&& forall|i: int| 0 <= i < recs.len() ==> #[trigger] again.1[i] == SyncAction::Skip
            &&& count_action(again.1, SyncAction::Insert) == 0
            &&& count_action(again.1, SyncAction::Update) == 0
        }),
{
    lemma_first_import(store, recs, now1);
    let first = games_import(store, recs, now1).0;
    lemma_second_import(first, recs, now2);
    let again = games_import(first, recs, now2);
    lemma_count_action_absent(again.1, SyncAction::Insert);
    lemma_count_action_absent(again.1, SyncAction::Update);
}

proof fn lemma_count_action_absent(actions: Seq<SyncAction>, a: SyncAction)
    requires
        forall|i: int| 0 <= i < actions.len() ==> #[trigger] actions[i] != a,
    ensures
        count_action(actions, a) == 0,
    decreases actions.len(),
{
    if actions.len() > 0 {
        lemma_count_action_absent(actions.drop_last(), a);
    }
}

/// How many of `actions` are `a`.
pub open spec fn count_action(actions: Seq<SyncAction>, a: SyncAction) -> nat
    decreases actions.len(),
{
    if actions.len() == 0 {
        0
    } else {
        count_action(actions.drop_last(), a) + if actions.last() == a {
            1nat
        } else {
            0nat
        }
    }
}

/// The summary of an import from what was done with each game record, in
/// order: every record is counted exactly once.
pub fn sync_summary(actions: &Vec<SyncAction>) -> (r: SyncSummary)
    ensures
        r.inserted == count_action(actions@, SyncAction::Insert),
        r.updated == count_action(actions@, SyncAction::Update),
        r.skipped == count_action(actions@, SyncAction::Skip),
        r.inserted + r.updated + r.skipped == actions@.len(),
{
    let mut r = SyncSummary { inserted: 0, updated: 0, skipped: 0 };
    let mut i: usize = 0;
    while i < actions.len()
        invariant
            i <= actions.len(),
            r.inserted == count_action(actions@.take(i as int), SyncAction::Insert),
            r.updated == count_action(actions@.take(i as int), SyncAction::Update),
            r.skipped == count_action(actions@.take(i as int), SyncAction::Skip),
            r.inserted + r.updated + r.skipped == i,
        decreases actions.len() - i,
    {
        proof {
            assert(actions@.take(i as int + 1).drop_last() =~= actions@.take(i as int));
        }
        match actions[i] {
            SyncAction::Insert => r = SyncSummary { inserted: r.inserted + 1, ..r },
            SyncAction::Update => r = SyncSummary { updated: r.updated + 1, ..r },
            SyncAction::Skip => r = SyncSummary { skipped: r.skipped + 1, ..r },
        }
        i += 1;
    }
    assert(actions@.take(actions@.len() as int) =~= actions@);
    r
}

/// The envelope check of a sync file: version 1 of `ludex-backup` (whose
/// records sit under `data`, answered `true`) or of `ludex-mobile-sync`
/// (records at the top, `false`); anything else is refused.
pub open spec fn spec_sync_envelope(format: Seq<char>, version: u64) -> Result<bool, Seq<char>> {
    if version != 1 || !(format == "ludex-backup"@ || format == "ludex-mobile-sync"@) {
        Err("Formato/versão de sync não suportado"@)
    } else {
        Ok(format == "ludex-backup"@)
    }
}

pub fn sync_envelope(format: &str, version: u64) -> (r: Result<bool, String>)
    ensures
        match (r, spec_sync_envelope(format@, version)) {
            (Ok(a), Ok(b)) => a == b,
            (Err(a), Err(b)) => a@ == b,
            _ => false,
        },
{
    let f = str_chars(format);
    let backup = same_chars(f.as_slice(), str_chars("ludex-backup").as_slice());
    let mobile = same_chars(f.as_slice(), str_chars("ludex-mobile-sync").as_slice());
    if version != 1 || !(backup || mobile) {
        Err(owned("Formato/versão de sync não suportado"))
    } else {
        Ok(backup)
    }
}

/// A metadata record of a sync file never replaces metadata edited by hand
/// with automatic metadata.
pub fn metadata_import_allowed(existing_manual: i64, manual: i64) -> (r: bool)
    ensures
        r == !(existing_manual != 0 && manual == 0),
{
    !(existing_manual != 0 && manual == 0)
}

/// The RFC 3339 text that `chrono` gives for a Unix time in milliseconds
/// (`DateTime::<Utc>::from_timestamp_millis` then `to_rfc3339`), or `None`
/// out of chrono's range.
pub uninterp spec fn rfc3339_of_millis(ms: i64) -> Option<Seq<char>>;

/// Calls `chrono::DateTime::<Utc>::from_timestamp_millis` and formats the
/// instant with `to_rfc3339`; the text is named `rfc3339_of_millis`.
#[verifier::external_body]
fn ms_rfc3339(ms: i64) -> (r: Option<String>)
    ensures
        crate::models::opt_view(r) == rfc3339_of_millis(ms),
{
    chrono::DateTime::<chrono::Utc>::from_timestamp_millis(ms).map(|d| d.to_rfc3339())
}

/// A timestamp of a sync record: its text when present, else its
/// milliseconds written as RFC 3339.
pub open spec fn spec_record_time(text: Option<Seq<char>>, ms: Option<i64>) -> Option<Seq<char>> {
    match text {
        Some(t) => Some(t),
        None => match ms {
            Some(m) => rfc3339_of_millis(m),
            None => None,
        },
    }
}

pub fn record_time(text: Option<&str>, ms: Option<i64>) -> (r: Option<String>)
    ensures
        crate::models::opt_view(r) == spec_record_time(
            match text {
                Some(t) => Some(t@),
                None => None,
            },
            ms,
        ),
{
    match text {
        Some(t) => Some(owned(t)),
        None => match ms {
            Some(m) => ms_rfc3339(m),
            None => None,
        },
    }
}

// ---------------------------------------------------------------------------
// Diagnostics
// ---------------------------------------------------------------------------

/// The diagnostics page: the schema version, and the number of sessions
/// still open (`info` when there are some, `ok` otherwise).
pub fn diagnostics_items(version: i64, open: i64) -> (r: Vec<DiagnosticItem>)
    ensures
        r@.len() == 2,
        r@[0].level@ == "info"@,
        r@[0].area@ == "database"@,
        r@[0].message@ == "Schema version "@ + decimal_signed(version as int)
            + "; foreign_keys e WAL ativos por conexão."@,
        r@[1].level@ == (if open > 0 {
            "info"@
        } else {
            "ok"@
        }),
        r@[1].area@ == "sessions"@,
        r@[1].message@ == decimal_signed(open as int) + " sessão(ões) ativa(s)."@,
{
    let v = i64_decimal(version);
    let m1a = concat_chars(str_chars("Schema version ").as_slice(), v.as_slice());
    let m1 = concat_chars(
        m1a.as_slice(),
        str_chars("; foreign_keys e WAL ativos por conexão.").as_slice(),
    );
    let o = i64_decimal(open);
    let m2 = concat_chars(o.as_slice(), str_chars(" sessão(ões) ativa(s).").as_slice());
    let mut out: Vec<DiagnosticItem> = Vec::new();
    out.push(
        DiagnosticItem {
            level: owned("info"),
            area: owned("database"),
            message: chars_to_string(m1.as_slice()),
        },
    );
    out.push(
        DiagnosticItem {
            level: if open > 0 {
                owned("info")
            } else {
                owned("ok")
            },
            area: owned("sessions"),
            message: chars_to_string(m2.as_slice()),
        },
    );
    out
}

// ---------------------------------------------------------------------------
// Save backups
// ---------------------------------------------------------------------------

/// Where a save is copied: a folder or file under `backup_root` named by
/// the time stamp and the save's own name (`save` when it has none).
pub open spec fn spec_save_backup_path(backup_root: Seq<char>, stamp: Seq<char>, source: Seq<char>) -> Seq<
    char,
> {
    crate::paths::path_join(
        backup_root,
        stamp + "-"@ + match crate::paths::component_name(source) {
            Some(n) => n,
            None => "save"@,
        },
    )
}

pub fn save_backup_path(backup_root: &str, stamp: &str, source: &str) -> (r: String)
    ensures
        r@ == spec_save_backup_path(backup_root@, stamp@, source@),
{
    let name = match crate::paths::component_name_of(str_chars(source).as_slice()) {
        Some(n) => n,
        None => str_chars("save"),
    };
    proof {
        assert(name@ == match crate::paths::component_name(source@) {
            Some(n) => n,
            None => "save"@,
        });
    }
    let a = concat_chars(str_chars(stamp).as_slice(), str_chars("-").as_slice());
    let b = concat_chars(a.as_slice(), name.as_slice());
    let j = crate::paths::join(str_chars(backup_root).as_slice(), b.as_slice());
    chars_to_string(j.as_slice())
}

/// A backup is restored only while it still exists and never over an
/// existing save.
pub open spec fn spec_restore_check(backup_exists: bool, target_exists: bool) -> Result<(), Seq<char>> {
    if !backup_exists {
        Err("Backup não existe mais"@)
    } else if target_exists {
        Err("Restauração recusada porque o destino já existe. Faça backup/remova explicitamente o destino antes de restaurar."@)
    } else {
        Ok(())
    }
}

pub fn restore_check(backup_exists: bool, target_exists: bool) -> (r: Result<(), String>)
    ensures
        match (r, spec_restore_check(backup_exists, target_exists)) {
            (Ok(_), Ok(_)) => true,
            (Err(a), Err(b)) => a@ == b,
            _ => false,
        },
{
    if !backup_exists {
        Err(owned("Backup não existe mais"))
    } else if target_exists {
        Err(
            owned(
                "Restauração recusada porque o destino já existe. Faça backup/remova explicitamente o destino antes de restaurar.",
            ),
        )
    } else {
        Ok(())
    }
}

// ---------------------------------------------------------------------------
// Records of a sync file
// ---------------------------------------------------------------------------

/// A text field of a sync record, or `d` when the record lacks it.
pub open spec fn text_or(o: Option<String>, d: Seq<char>) -> Seq<char> {
    match o {
        Some(x) => x@,
        None => d,
    }
}

fn or_default(o: &Option<String>, d: &str) -> (r: String)
    ensures
        r@ == text_or(*o, d@),
{
    match o {
        Some(x) => x.clone(),
        None => owned(d),
    }
}

fn clone_text(o: &Option<String>) -> (r: Option<String>)
    ensures
        crate::models::opt_view(r) == crate::models::opt_view(*o),
{
    match o {
        Some(x) => Some(x.clone()),
        None => None,
    }
}

/// A game record of a sync file, each field as present (and of the right
/// JSON type) or not.
#[derive(Debug, Clone)]
pub struct SyncGame {
    pub id: Option<String>,
    pub title: Option<String>,
    pub platform: Option<String>,
    pub source: Option<String>,
    pub favorite: Option<i64>,
    pub status: Option<String>,
    pub updated_at: Option<String>,
    pub updated_at_ms: Option<i64>,
}

/// What is written for a game record.
#[derive(Debug, Clone)]
pub struct GameRow {
    pub id: String,
    pub title: String,
    pub platform: String,
    pub source: String,
    pub favorite: i64,
    pub status: String,
    pub updated_at: Option<String>,
}

/// A game record with its defaults: platform `PC`, source `sync`, not a
/// favourite, status `Quero jogar`; its time is its text or its
/// milliseconds.
pub fn game_row(g: &SyncGame) -> (r: GameRow)
    ensures
        r.id@ == text_or(g.id, Seq::empty()),
        r.title@ == text_or(g.title, Seq::empty()),
        r.platform@ == text_or(g.platform, "PC"@),
        r.source@ == text_or(g.source, "sync"@),
        r.favorite == (match g.favorite {
            Some(f) => f,
            None => 0,
        }),
        r.status@ == text_or(g.status, "Quero jogar"@),
        crate::models::opt_view(r.updated_at) == spec_record_time(
            crate::models::opt_view(g.updated_at),
            g.updated_at_ms,
        ),
{
    proof {
        reveal_strlit("");
    }
    let updated_at = match &g.updated_at {
        Some(t) => record_time(Some(t.as_str()), g.updated_at_ms),
        None => record_time(None, g.updated_at_ms),
    };
    GameRow {
        id: or_default(&g.id, ""),
        title: or_default(&g.title, ""),
        platform: or_default(&g.platform, "PC"),
        source: or_default(&g.source, "sync"),
        favorite: match g.favorite {
            Some(f) => f,
            None => 0,
        },
        status: or_default(&g.status, "Quero jogar"),
        updated_at,
    }
}

/// An installation record of a sync file.
#[derive(Debug, Clone)]
pub struct SyncInstallation {
    pub id: Option<String>,
    pub game_id: Option<String>,
    pub source: Option<String>,
    pub provider: Option<String>,
    pub installed: Option<i64>,
}

/// What is written for an installation record (its other fields are
/// copied as they are).
#[derive(Debug, Clone)]
pub struct InstallationRow {
    pub id: String,
    pub game_id: String,
    pub source: String,
    pub provider: String,
    pub installed: i64,
}

/// An installation record is imported only with a non-empty id and game;
/// source and provider default to `sync`, `installed` to 0.
pub fn installation_row(x: &SyncInstallation) -> (r: Option<InstallationRow>)
    ensures
        (text_or(x.id, Seq::empty()).len() > 0 && text_or(x.game_id, Seq::empty()).len() > 0) <==> r is Some,
        r matches Some(row) ==> {
            &&& row.id@ == text_or(x.id, Seq::empty())
            &&& row.game_id@ == text_or(x.game_id, Seq::empty())
            &&& row.source@ == text_or(x.source, "sync"@)
            &&& row.provider@ == text_or(x.provider, "sync"@)
            &&& row.installed == (match x.installed {
                Some(v) => v,
                None => 0,
            })
        },
{
    proof {
        reveal_strlit("");
    }
    let id = or_default(&x.id, "");
    let game_id = or_default(&x.game_id, "");
    if str_chars(id.as_str()).len() == 0 || str_chars(game_id.as_str()).len() == 0 {
        return None;
    }
    Some(
        InstallationRow {
            id,
            game_id,
            source: or_default(&x.source, "sync"),
            provider: or_default(&x.provider, "sync"),
            installed: match x.installed {
                Some(v) => v,
                None => 0,
            },
        },
    )
}

/// A session record of a sync file.
#[derive(Debug, Clone)]
pub struct SyncSession {
    pub id: Option<String>,
    pub game_id: Option<String>,
    pub started_at: Option<String>,
    pub started_at_ms: Option<i64>,
    pub ended_at: Option<String>,
    pub ended_at_ms: Option<i64>,
    pub duration_seconds: Option<i64>,
    pub device: Option<String>,
    pub provider: Option<String>,
    pub recovered: Option<i64>,
}

/// What is written for a session record.
#[derive(Debug, Clone)]
pub struct SessionRow {
    pub id: String,
    pub game_id: String,
    pub started_at: String,
    pub ended_at: String,
    pub duration_seconds: i64,
    pub device: String,
    pub provider: String,
    pub recovered: i64,
}

/// A session record is imported only with a non-empty id and game and with
/// both a start and an end (text or milliseconds); device and provider
/// default to `sync`, duration and the recovered flag to 0.
pub fn session_row(x: &SyncSession) -> (r: Option<SessionRow>)
    ensures
        ({
            &&& text_or(x.id, Seq::empty()).len() > 0
            &&& text_or(x.game_id, Seq::empty()).len() > 0
            &&& spec_record_time(crate::models::opt_view(x.started_at), x.started_at_ms) is Some
            &&& spec_record_time(crate::models::opt_view(x.ended_at), x.ended_at_ms) is Some
        }) <==> r is Some,
        r matches Some(row) ==> {
            &&& row.id@ == text_or(x.id, Seq::empty())
            &&& row.game_id@ == text_or(x.game_id, Seq::empty())
            &&& spec_record_time(crate::models::opt_view(x.started_at), x.started_at_ms) == Some(
                row.started_at@,
            )
            &&& spec_record_time(crate::models::opt_view(x.ended_at), x.ended_at_ms) == Some(row.ended_at@)
            &&& row.duration_seconds == (match x.duration_seconds {
                Some(v) => v,
                None => 0,
            })
            &&& row.device@ == text_or(x.device, "sync"@)
            &&& row.provider@ == text_or(x.provider, "sync"@)
            &&& row.recovered == (match x.recovered {
                Some(v) => v,
                None => 0,
            })
        },
{
    proof {
        reveal_strlit("");
    }
    let id = or_default(&x.id, "");
    let game_id = or_default(&x.game_id, "");
    if str_chars(id.as_str()).len() == 0 || str_chars(game_id.as_str()).len() == 0 {
        return None;
    }
    let start = match &x.started_at {
        Some(t) => record_time(Some(t.as_str()), x.started_at_ms),
        None => record_time(None, x.started_at_ms),
    };
    let end = match &x.ended_at {
        Some(t) => record_time(Some(t.as_str()), x.ended_at_ms),
        None => record_time(None, x.ended_at_ms),
    };
    match (start, end) {
        (Some(st), Some(en)) => Some(
            SessionRow {
                id,
                game_id,
                started_at: st,
                ended_at: en,
                duration_seconds: match x.duration_seconds {
                    Some(v) => v,
                    None => 0,
                },
                device: or_default(&x.device, "sync"),
                provider: or_default(&x.provider, "sync"),
                recovered: match x.recovered {
                    Some(v) => v,
                    None => 0,
                },
            },
        ),
        _ => None,
    }
}

/// The source and manual flag written for a metadata record of a sync
/// file, `None` when it is skipped: without a game, or when it would
/// replace metadata edited by hand with automatic metadata.  The source
/// defaults to `sync` and the flag to 0.
pub fn metadata_row(game_id: Option<&str>, source: Option<&str>, manual: Option<i64>, existing_manual: i64) -> (r:
    Option<(String, i64)>)
    ensures
        r is Some <==> (match game_id {
            Some(g) => g@.len() > 0,
            None => false,
        }) && !(existing_manual != 0 && (match manual {
            Some(m) => m,
            None => 0,
        }) == 0),
        r matches Some(p) ==> p.0@ == (match source {
            Some(x) => x@,
            None => "sync"@,
        }) && p.1 == (match manual {
            Some(m) => m,
            None => 0,
        }),
{
    let has_game = match game_id {
        Some(g) => str_chars(g).len() > 0,
        None => false,
    };
    let m = match manual {
        Some(v) => v,
        None => 0,
    };
    if !has_game || !metadata_import_allowed(existing_manual, m) {
        return None;
    }
    let src = match source {
        Some(x) => owned(x),
        None => owned("sync"),
    };
    Some((src, m))
}

/// The ROM scanner imports exactly the files whose extension, in ASCII
/// lower case, is one of `iso`, `chd`, `cue`, `rvz`, `wbfs`, `gba`, `gbc`,
/// `nds`, `3ds`, `nsp`, `xci`, `nes`, `snes`, `n64`, `z64`, `v64`, `bin`
/// or `pbp`; every other file is ignored.
pub proof fn law_rom_extensions(ext: Seq<char>)
    ensures
        spec_allowed_extension(ext) <==> {
            ||| ext == "iso"@
            ||| ext == "chd"@
            ||| ext == "cue"@
            ||| ext == "rvz"@
            ||| ext == "wbfs"@
            ||| ext == "gba"@
            ||| ext == "gbc"@
            ||| ext == "nds"@
            ||| ext == "3ds"@
            ||| ext == "nsp"@
            ||| ext == "xci"@
            ||| ext == "nes"@
            ||| ext == "snes"@
            ||| ext == "n64"@
            ||| ext == "z64"@
            ||| ext == "v64"@
            ||| ext == "bin"@
            ||| ext == "pbp"@
        },
{
    if ext == "iso"@ {
        assert(ext == rom_extension(0));
    } else if ext == "chd"@ {
        assert(ext == rom_extension(1));
    } else if ext == "cue"@ {
        assert(ext == rom_extension(2));
    } else if ext == "rvz"@ {
        assert(ext == rom_extension(3));
    } else if ext == "wbfs"@ {
        assert(ext == rom_extension(4));
    } else if ext == "gba"@ {
        assert(ext == rom_extension(5));
    } else if ext == "gbc"@ {
        assert(ext == rom_extension(6));
    } else if ext == "nds"@ {
        assert(ext == rom_extension(7));
    } else if ext == "3ds"@ {
        assert(ext == rom_extension(8));
    } else if ext == "nsp"@ {
        assert(ext == rom_extension(9));
    } else if ext == "xci"@ {
        assert(ext == rom_extension(10));
    } else if ext == "nes"@ {
        assert(ext == rom_extension(11));
    } else if ext == "snes"@ {
        assert(ext == rom_extension(12));
    } else if ext == "n64"@ {
        assert(ext == rom_extension(13));
    } else if ext == "z64"@ {
        assert(ext == rom_extension(14));
    } else if ext == "v64"@ {
        assert(ext == rom_extension(15));
    } else if ext == "bin"@ {
        assert(ext == rom_extension(16));
    } else if ext == "pbp"@ {
        assert(ext == rom_extension(17));
    }
}

/// A file the ROM table knows neither by hash nor by path is imported
/// exactly when its extension, in any ASCII case, is on the scanner's list;
/// one with such an extension that is known by hash or by path is a
/// duplicate.
pub proof fn law_rom_outcome_by_extension(f: RomFile, hashes: Set<Seq<char>>, paths: Set<Seq<char>>)
    ensures
        ({
            let e = ascii_lower_seq(opt_chars(f.extension));
            let listed = e == "iso"@ || e == "chd"@ || e == "cue"@ || e == "rvz"@ || e == "wbfs"@
                || e == "gba"@ || e == "gbc"@ || e == "nds"@ || e == "3ds"@ || e == "nsp"@ || e
                == "xci"@ || e == "nes"@ || e == "snes"@ || e == "n64"@ || e == "z64"@ || e == "v64"@
                || e == "bin"@ || e == "pbp"@;
            let known = hashes.contains(opt_chars(f.hash)) || paths.contains(f.path@);
            &&& (rom_outcome(f, hashes, paths) == RomOutcome::Ignored <==> !listed)
            &&& (rom_outcome(f, hashes, paths) == RomOutcome::Imported <==> listed && !known)
            &&& (rom_outcome(f, hashes, paths) == RomOutcome::Duplicate <==> listed && known)
        }),
{
    law_rom_extensions(ascii_lower_seq(opt_chars(f.extension)));
}

/// A game's status is accepted exactly when it is one of the six:
/// `Quero jogar`, `Jogando`, `Pausado`, `Concluído`, `100%`, `Abandonado`.
pub proof fn law_statuses(s: Seq<char>)
    ensures
        spec_is_status(s) <==> {
            ||| s == "Quero jogar"@
            ||| s == "Jogando"@
            ||| s == "Pausado"@
            ||| s == "Concluído"@
            ||| s == "100%"@
            ||| s == "Abandonado"@
        },
{
    if s == "Quero jogar"@ {
        assert(s == status_name(0));
    } else if s == "Jogando"@ {
        assert(s == status_name(1));
    } else if s == "Pausado"@ {
        assert(s == status_name(2));
    } else if s == "Concluído"@ {
        assert(s == status_name(3));
    } else if s == "100%"@ {
        assert(s == status_name(4));
    } else if s == "Abandonado"@ {
        assert(s == status_name(5));
    }
}

} // verus!
