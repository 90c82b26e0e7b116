//! Data Steam keeps locally: per-app playtime in `localconfig.vdf`, the
//! account whose configuration is used, and artwork files.
use vstd::prelude::*;
use crate::text::{
    all_digits, eq_ignore_ascii_case, eq_ignore_case, is_all_digits, parse_i64, parse_i64_chars,
    same_chars, str_chars,
};
use crate::vdf::{tokenize, tokens_from, tokens_view, Token, TokenV};

verus! {

// ---------------------------------------------------------------------------
// A small map from app ids to minutes
// ---------------------------------------------------------------------------

pub open spec fn entries_map(e: Seq<(Seq<char>, i64)>) -> Map<Seq<char>, i64>
    decreases e.len(),
{
    if e.len() == 0 {
        Map::empty()
    } else {
        entries_map(e.drop_last()).insert(e.last().0, e.last().1)
    }
}

pub open spec fn unique_keys(e: Seq<(Seq<char>, i64)>) -> bool {
    forall|i: int, j: int| 0 <= i < j < e.len() ==> #[trigger] e[i].0 != #[trigger] e[j].0
}

proof fn lemma_entries_map_lookup(e: Seq<(Seq<char>, i64)>, k: Seq<char>)
    requires
        unique_keys(e),
    ensures
        entries_map(e).dom().contains(k) <==> exists|i: int| 0 <= i < e.len() && #[trigger] e[i].0
            == k,
        forall|i: int| 0 <= i < e.len() && #[trigger] e[i].0 == k ==> entries_map(e)[k] == e[i].1,
    decreases e.len(),
{
    if e.len() > 0 {
        let d = e.drop_last();
        assert(unique_keys(d)) by {
            assert forall|i: int, j: int| 0 <= i < j < d.len() implies #[trigger] d[i].0
                != #[trigger] d[j].0 by {
                assert(d[i] == e[i] && d[j] == e[j]);
            }
        }
        lemma_entries_map_lookup(d, k);
        if entries_map(e).dom().contains(k) && e.last().0 != k {
            let i = choose|i: int| 0 <= i < d.len() && #[trigger] d[i].0 == k;
            assert(e[i] == d[i]);
        }
        assert forall|i: int| 0 <= i < e.len() && #[trigger] e[i].0 == k implies entries_map(
            e,
        )[k] == e[i].1 by {
            if i < e.len() - 1 {
                assert(e[i] == d[i]);
                assert(e[e.len() - 1].0 != k);
            }
        }
        if exists|i: int| 0 <= i < e.len() && #[trigger] e[i].0 == k {
            let i = choose|i: int| 0 <= i < e.len() && #[trigger] e[i].0 == k;
            if i < e.len() - 1 {
                assert(d[i] == e[i]);
            }
        }
    }
}

proof fn lemma_entries_map_update(e: Seq<(Seq<char>, i64)>, j: int, v: i64)
    requires
        unique_keys(e),
        0 <= j < e.len(),
    ensures
        entries_map(e.update(j, (e[j].0, v))) == entries_map(e).insert(e[j].0, v),
        unique_keys(e.update(j, (e[j].0, v))),
    decreases e.len(),
{
    let u = e.update(j, (e[j].0, v));
    assert forall|a: int, b: int| 0 <= a < b < u.len() implies #[trigger] u[a].0
        != #[trigger] u[b].0 by {
        assert(u[a].0 == e[a].0 && u[b].0 == e[b].0);
    }
    let d = e.drop_last();
    assert(unique_keys(d)) by {
        assert forall|a: int, b: int| 0 <= a < b < d.len() implies #[trigger] d[a].0
            != #[trigger] d[b].0 by {
            assert(d[a] == e[a] && d[b] == e[b]);
        }
    }
    if j == e.len() - 1 {
        assert(u.drop_last() =~= d);
        assert(entries_map(u) =~= entries_map(e).insert(e[j].0, v));
    } else {
        lemma_entries_map_update(d, j, v);
        assert(u.drop_last() =~= d.update(j, (d[j].0, v)));
        assert(e.last().0 != e[j].0);
        assert(entries_map(u) =~= entries_map(e).insert(e[j].0, v));
    }
}

/// Minutes played per Steam app id, as read from `localconfig.vdf`.
pub struct LocalPlaytime {
    entries: Vec<(String, i64)>,
}

pub open spec fn pairs_view(e: Seq<(String, i64)>) -> Seq<(Seq<char>, i64)> {
    e.map_values(|p: (String, i64)| (p.0@, p.1))
}

impl View for LocalPlaytime {
    type V = Map<Seq<char>, i64>;

    closed spec fn view(&self) -> Map<Seq<char>, i64> {
        entries_map(pairs_view(self.entries@))
    }
}

impl LocalPlaytime {
    pub closed spec fn well_formed(&self) -> bool {
        unique_keys(pairs_view(self.entries@))
    }

    /// The minutes recorded for `app_id`.
    pub fn get(&self, app_id: &str) -> (r: Option<&i64>)
        requires
            self.well_formed(),
        ensures
            match r {
                Some(m) => self@.dom().contains(app_id@) && self@[app_id@] == *m,
                None => !self@.dom().contains(app_id@),
            },
    {
        let ghost e = pairs_view(self.entries@);
        proof {
            lemma_entries_map_lookup(e, app_id@);
        }
        let mut i: usize = 0;
        while i < self.entries.len()
            invariant
                i <= self.entries.len(),
                e == pairs_view(self.entries@),
                unique_keys(e),
                forall|j: int| 0 <= j < i ==> #[trigger] e[j].0 != app_id@,
            decreases self.entries.len() - i,
        {
            assert(e[i as int].0 == self.entries@[i as int].0@);
            if same_chars(
                str_chars(self.entries[i].0.as_str()).as_slice(),
                str_chars(app_id).as_slice(),
            ) {
                proof {
                    lemma_entries_map_lookup(e, app_id@);
                }
                return Some(&self.entries[i].1);
            }
            i += 1;
        }
        None
    }

    /// Whether no playtime was found.
    pub fn is_empty(&self) -> (r: bool)
        requires
            self.well_formed(),
        ensures
            r == (self@.dom().len() == 0),
    {
        proof {
            lemma_entries_map_finite(pairs_view(self.entries@));
            if self.entries@.len() > 0 {
                let e = pairs_view(self.entries@);
                lemma_entries_map_lookup(e, e[0].0);
                assert(self@.dom().contains(e[0].0));
            } else {
                assert(self@.dom() =~= Set::<Seq<char>>::empty());
            }
        }
        self.entries.len() == 0
    }

    /// The app ids and minutes, each app once.
    pub fn entries(&self) -> (r: &Vec<(String, i64)>)
        ensures
            entries_map(pairs_view(r@)) == self@,
    {
        &self.entries
    }
}

proof fn lemma_entries_map_finite(e: Seq<(Seq<char>, i64)>)
    ensures
        entries_map(e).dom().finite(),
    decreases e.len(),
{
    if e.len() > 0 {
        lemma_entries_map_finite(e.drop_last());
    }
}

// ---------------------------------------------------------------------------
// localconfig.vdf
// ---------------------------------------------------------------------------

/// The app id of the innermost section when the sections around it are
/// `Software`/`Valve`/`Steam`/`apps` (any ASCII case).
pub open spec fn apps_path(stack: Seq<Seq<char>>) -> Option<Seq<char>> {
    let n = stack.len() as int;
    if n >= 5 && eq_ignore_case(stack[n - 5], "software"@) && eq_ignore_case(
        stack[n - 4],
        "valve"@,
    ) && eq_ignore_case(stack[n - 3], "steam"@) && eq_ignore_case(stack[n - 2], "apps"@) {
        Some(stack[n - 1])
    } else {
        None
    }
}

/// Records `minutes` for `app`: the larger of what was recorded and the new
/// value, and never below zero.
pub open spec fn record_minutes(values: Map<Seq<char>, i64>, app: Seq<char>, minutes: i64) -> Map<
    Seq<char>,
    i64,
> {
    if values.dom().contains(app) {
        values.insert(app, if values[app] >= minutes { values[app] } else { minutes })
    } else {
        values.insert(app, if minutes >= 0 { minutes } else { 0 })
    }
}

/// A `Playtime` pair inside an app section of numeric id with a value that
/// parses as an integer is recorded; anything else leaves `values` as is.
pub open spec fn playtime_pair(
    stack: Seq<Seq<char>>,
    key: Seq<char>,
    value: Seq<char>,
    values: Map<Seq<char>, i64>,
) -> Map<Seq<char>, i64> {
    if eq_ignore_case(key, "Playtime"@) {
        match apps_path(stack) {
            Some(app) => if all_digits(app) {
                match parse_i64(value) {
                    Some(m) => record_minutes(values, app, m),
                    None => values,
                }
            } else {
                values
            },
            None => values,
        }
    } else {
        values
    }
}

pub open spec fn playtime_run(
    t: Seq<TokenV>,
    i: int,
    stack: Seq<Seq<char>>,
    values: Map<Seq<char>, i64>,
) -> Map<Seq<char>, i64>
    decreases t.len() - i,
{
    if i >= t.len() || i < 0 {
        values
    } else {
        match t[i] {
            TokenV::Text(key) => {
                if i + 1 < t.len() {
                    match t[i + 1] {
                        TokenV::Open => playtime_run(t, i + 2, stack.push(key), values),
                        TokenV::Text(value) => playtime_run(
                            t,
                            i + 2,
                            stack,
                            playtime_pair(stack, key, value, values),
                        ),
                        TokenV::Close => playtime_run(t, i + 1, stack, values),
                    }
                } else {
                    playtime_run(t, i + 1, stack, values)
                }
            },
            TokenV::Close => playtime_run(
                t,
                i + 1,
                if stack.len() > 0 {
                    stack.drop_last()
                } else {
                    stack
                },
                values,
            ),
            TokenV::Open => playtime_run(t, i + 1, stack, values),
        }
    }
}

/// The playtime minutes that `localconfig.vdf` records per app.
pub open spec fn spec_local_playtime(content: Seq<char>) -> Map<Seq<char>, i64> {
    playtime_run(tokens_from(content, 0, true), 0, Seq::empty(), Map::empty())
}

/// Keys that are app ids and minutes that are never negative.
pub open spec fn playtime_entries_ok(values: Map<Seq<char>, i64>) -> bool {
    forall|k: Seq<char>| #[trigger] values.dom().contains(k) ==> all_digits(k) && values[k] >= 0
}

proof fn lemma_playtime_run_ok(
    t: Seq<TokenV>,
    i: int,
    stack: Seq<Seq<char>>,
    values: Map<Seq<char>, i64>,
)
    requires
        playtime_entries_ok(values),
    ensures
        playtime_entries_ok(playtime_run(t, i, stack, values)),
    decreases t.len() - i,
{
    if i >= t.len() || i < 0 {
    } else {
        match t[i] {
            TokenV::Text(key) => {
                if i + 1 < t.len() {
                    match t[i + 1] {
                        TokenV::Open => lemma_playtime_run_ok(t, i + 2, stack.push(key), values),
                        TokenV::Text(value) => {
                            let next = playtime_pair(stack, key, value, values);
                            assert(playtime_entries_ok(next));
                            lemma_playtime_run_ok(t, i + 2, stack, next);
                        },
                        TokenV::Close => lemma_playtime_run_ok(t, i + 1, stack, values),
                    }
                } else {
                    lemma_playtime_run_ok(t, i + 1, stack, values);
                }
            },
            TokenV::Close => lemma_playtime_run_ok(
                t,
                i + 1,
                if stack.len() > 0 {
                    stack.drop_last()
                } else {
                    stack
                },
                values,
            ),
            TokenV::Open => lemma_playtime_run_ok(t, i + 1, stack, values),
        }
    }
}

/// Every entry read from `localconfig.vdf` is keyed by an app id made of
/// ASCII digits and holds a number of minutes that is never negative.
pub proof fn law_local_playtime_entries(content: Seq<char>)
    ensures
        playtime_entries_ok(spec_local_playtime(content)),
{
    lemma_playtime_run_ok(tokens_from(content, 0, true), 0, Seq::empty(), Map::empty());
}

fn word_is(v: &String, w: &str) -> (r: bool)
    ensures
        r == eq_ignore_case(v@, w@),
{
    eq_ignore_ascii_case(str_chars(v.as_str()).as_slice(), str_chars(w).as_slice())
}

fn is_apps_path(stack: &Vec<String>) -> (r: Option<&String>)
    ensures
        match r {
            Some(a) => apps_path(stack@.map_values(|s: String| s@)) == Some(a@),
            None => apps_path(stack@.map_values(|s: String| s@)) is None,
        },
{
    let ghost sv = stack@.map_values(|s: String| s@);
    let n = stack.len();
    if n < 5 {
        return None;
    }
    assert(sv[n - 5] == stack@[n - 5]@ && sv[n - 4] == stack@[n - 4]@ && sv[n - 3] == stack@[n
        - 3]@ && sv[n - 2] == stack@[n - 2]@ && sv[n - 1] == stack@[n - 1]@);
    if word_is(&stack[n - 5], "software") && word_is(&stack[n - 4], "valve") && word_is(
        &stack[n - 3],
        "steam",
    ) && word_is(&stack[n - 2], "apps") {
        Some(&stack[n - 1])
    } else {
        None
    }
}

fn record(entries: &mut Vec<(String, i64)>, app: &String, minutes: i64)
    requires
        unique_keys(pairs_view(old(entries)@)),
    ensures
        unique_keys(pairs_view(final(entries)@)),
        entries_map(pairs_view(final(entries)@)) == record_minutes(
            entries_map(pairs_view(old(entries)@)),
            app@,
            minutes,
        ),
{
    let ghost e = pairs_view(entries@);
    proof {
        lemma_entries_map_lookup(e, app@);
    }
    let app_chars = str_chars(app.as_str());
    let mut i: usize = 0;
    while i < entries.len()
        invariant
            i <= entries.len(),
            e == pairs_view(entries@),
            e == pairs_view(old(entries)@),
            unique_keys(e),
            app_chars@ == app@,
            forall|j: int| 0 <= j < i ==> #[trigger] e[j].0 != app@,
        decreases entries.len() - i,
    {
        assert(e[i as int].0 == entries@[i as int].0@);
        if same_chars(str_chars(entries[i].0.as_str()).as_slice(), app_chars.as_slice()) {
            let old_minutes = entries[i].1;
            let best = if old_minutes >= minutes {
                old_minutes
            } else {
                minutes
            };
            let key = entries[i].0.clone();
            entries.set(i, (key, best));
            proof {
                lemma_entries_map_lookup(e, app@);
                lemma_entries_map_update(e, i as int, best);
                assert(pairs_view(entries@) =~= e.update(i as int, (e[i as int].0, best)));
            }
            return;
        }
        i += 1;
    }
    let first = if minutes >= 0 {
        minutes
    } else {
        0
    };
    entries.push((app.clone(), first));
    proof {
        assert(pairs_view(entries@) =~= e.push((app@, first)));
        let f = e.push((app@, first));
        assert forall|a: int, b: int| 0 <= a < b < f.len() implies #[trigger] f[a].0
            != #[trigger] f[b].0 by {
            if b == f.len() - 1 {
                assert(f[a] == e[a]);
            } else {
                assert(f[a] == e[a] && f[b] == e[b]);
            }
        }
        assert(f.drop_last() =~= e);
    }
}

/// Reads the playtime of each app from `localconfig.vdf`: every
/// `Playtime` value inside `Software/Valve/Steam/apps/<numeric id>`, the
/// largest one when an app appears twice, never below zero.
pub fn parse_local_playtime(content: &str) -> (r: LocalPlaytime)
    ensures
        r.well_formed(),
        r@ == spec_local_playtime(content@),
        forall|k: Seq<char>| #[trigger] r@.dom().contains(k) ==> r@[k] >= 0 && all_digits(k),
{
    let chars = str_chars(content);
    let tokens = tokenize(chars.as_slice(), true);
    let ghost t = tokens_view(tokens@);
    let mut stack: Vec<String> = Vec::new();
    let mut entries: Vec<(String, i64)> = Vec::new();
    let mut i: usize = 0;
    proof {
        assert(stack@.map_values(|s: String| s@) =~= Seq::<Seq<char>>::empty());
        assert(entries_map(pairs_view(entries@)) =~= Map::<Seq<char>, i64>::empty());
    }
    while i < tokens.len()
        invariant
            t == tokens_view(tokens@),
            t == tokens_from(content@, 0, true),
            i <= tokens.len(),
            unique_keys(pairs_view(entries@)),
            spec_local_playtime(content@) == playtime_run(
                t,
                i as int,
                stack@.map_values(|s: String| s@),
                entries_map(pairs_view(entries@)),
            ),
            forall|k: Seq<char>| #[trigger]
                entries_map(pairs_view(entries@)).dom().contains(k) ==> entries_map(
                    pairs_view(entries@),
                )[k] >= 0 && all_digits(k),
        decreases tokens.len() - i,
    {
        let ghost sv = stack@.map_values(|s: String| s@);
        let ghost m0 = entries_map(pairs_view(entries@));
        assert(t[i as int] == tokens@[i as int]@);
        match &tokens[i] {
            Token::Text(key) => {
                if i + 1 < tokens.len() {
                    assert(t[i + 1] == tokens@[i + 1]@);
                    match &tokens[i + 1] {
                        Token::Open => {
                            stack.push(key.clone());
                            proof {
                                assert(stack@.map_values(|s: String| s@) =~= sv.push(key@));
                            }
                            i += 2;
                        },
                        Token::Text(value) => {
                            if word_is(key, "Playtime") {
                                match is_apps_path(&stack) {
                                    Some(app) => {
                                        if is_all_digits(str_chars(app.as_str()).as_slice()) {
                                            match parse_i64_chars(
                                                str_chars(value.as_str()).as_slice(),
                                            ) {
                                                Some(m) => {
                                                    let app_owned = app.clone();
                                                    record(&mut entries, &app_owned, m);
                                                    proof {
                                                        let m1 = entries_map(pairs_view(entries@));
                                                        assert forall|k: Seq<char>| #[trigger]
                                                            m1.dom().contains(k) implies m1[k] >= 0
                                                            && all_digits(k) by {
                                                            if k != app_owned@ {
                                                                assert(m0.dom().contains(k));
                                                            }
                                                        }
                                                    }
                                                },
                                                None => {},
                                            }
                                        }
                                    },
                                    None => {},
                                }
                            }
                            i += 2;
                        },
                        Token::Close => {
                            i += 1;
                        },
                    }
                } else {
                    i += 1;
                }
            },
            Token::Close => {
                if stack.len() > 0 {
                    stack.pop();
                    proof {
                        assert(stack@.map_values(|s: String| s@) =~= sv.drop_last());
                    }
                }
                i += 1;
            },
            Token::Open => {
                i += 1;
            },
        }
    }
    LocalPlaytime { entries }
}

// ---------------------------------------------------------------------------
// Imported playtime, artwork and the active account
// ---------------------------------------------------------------------------

/// Seconds of imported playtime for `minutes`, saturating at the bounds of
/// `i64`.
pub open spec fn spec_imported_seconds(minutes: i64) -> i64 {
    if minutes * 60 > i64::MAX {
        i64::MAX
    } else if minutes * 60 < i64::MIN {
        i64::MIN
    } else {
        (minutes * 60) as i64
    }
}

pub fn imported_seconds(minutes: i64) -> (r: i64)
    ensures
        r == spec_imported_seconds(minutes),
{
    if minutes > i64::MAX / 60 {
        i64::MAX
    } else if minutes < i64::MIN / 60 {
        i64::MIN
    } else {
        minutes * 60
    }
}

pub open spec fn cdn_base(app_id: Seq<char>) -> Seq<char> {
    "https://shared.steamstatic.com/store_item_assets/steam/apps/"@ + app_id
}

/// The cover and hero image that Steam's CDN serves for an app, for an
/// identifier made only of ASCII digits.
pub open spec fn spec_cdn_artwork(app_id: Seq<char>) -> Option<(Seq<char>, Seq<char>)> {
    if all_digits(app_id) {
        Some((cdn_base(app_id) + "/library_600x900.jpg"@, cdn_base(app_id) + "/library_hero.jpg"@))
    } else {
        None
    }
}

pub fn cdn_artwork(app_id: &str) -> (r: Option<(String, String)>)
    ensures
        match r {
            Some((c, h)) => spec_cdn_artwork(app_id@) == Some((c@, h@)),
            None => spec_cdn_artwork(app_id@) is None,
        },
{
    let v = str_chars(app_id);
    if !is_all_digits(v.as_slice()) {
        return None;
    }
    let base = crate::text::concat_chars(
        str_chars("https://shared.steamstatic.com/store_item_assets/steam/apps/").as_slice(),
        v.as_slice(),
    );
    let c = crate::text::concat_chars(base.as_slice(), str_chars("/library_600x900.jpg").as_slice());
    let h = crate::text::concat_chars(base.as_slice(), str_chars("/library_hero.jpg").as_slice());
    Some((crate::text::chars_to_string(c.as_slice()), crate::text::chars_to_string(h.as_slice())))
}

/// A folder under `userdata` that may hold an account's configuration.
#[derive(Debug, Clone)]
pub struct LocalConfigCandidate {
    /// The folder's name.
    pub account: String,
    /// Its `config/localconfig.vdf`.
    pub path: String,
    /// Whether that file exists.
    pub is_file: bool,
    /// When the file was last modified, in nanoseconds from the Unix epoch.
    pub modified: i128,
}

/// The configuration file of an account folder.
pub fn localconfig_path(account_dir: &str) -> (r: String)
    ensures
        r@ == crate::paths::path_join(crate::paths::path_join(account_dir@, "config"@), "localconfig.vdf"@),
{
    let a = crate::paths::join(str_chars(account_dir).as_slice(), str_chars("config").as_slice());
    let b = crate::paths::join(a.as_slice(), str_chars("localconfig.vdf").as_slice());
    crate::text::chars_to_string(b.as_slice())
}

pub open spec fn config_qualifies(c: LocalConfigCandidate) -> bool {
    all_digits(c.account@) && c.is_file
}

/// The most recently modified configuration among numeric account folders
/// (the later one in listing order on a tie), with its modification time.
pub open spec fn newest_config(cs: Seq<LocalConfigCandidate>) -> Option<(i128, Seq<char>)>
    decreases cs.len(),
{
    if cs.len() == 0 {
        None
    } else {
        let best = newest_config(cs.drop_last());
        let c = cs.last();
        if config_qualifies(c) && (best matches Some(b) ==> c.modified >= b.0) {
            Some((c.modified, c.path@))
        } else {
            best
        }
    }
}

/// The configuration file of the account that used Steam last.
pub fn active_localconfig(candidates: &Vec<LocalConfigCandidate>) -> (r: Option<String>)
    ensures
        match r {
            Some(p) => newest_config(candidates@) matches Some(b) && b.1 == p@,
            None => newest_config(candidates@) is None,
        },
{
    let mut best: Option<(i128, String)> = None;
    let mut i: usize = 0;
    while i < candidates.len()
        invariant
            i <= candidates.len(),
            match best {
                Some(b) => newest_config(candidates@.take(i as int)) == Some((b.0, b.1@)),
                None => newest_config(candidates@.take(i as int)) is None,
            },
        decreases candidates.len() - i,
    {
        let c = &candidates[i];
        proof {
            assert(candidates@.take(i as int + 1).drop_last() =~= candidates@.take(i as int));
            assert(candidates@.take(i as int + 1).last() == candidates@[i as int]);
        }
        let qualifies = c.is_file && is_all_digits(str_chars(c.account.as_str()).as_slice());
        let newer = match &best {
            Some(b) => c.modified >= b.0,
            None => true,
        };
        if qualifies && newer {
            best = Some((c.modified, c.path.clone()));
        }
        i += 1;
    }
    assert(candidates@.take(candidates@.len() as int) =~= candidates@);
    match best {
        Some(b) => Some(b.1),
        None => None,
    }
}

/// The largest local image Ludex loads.
pub const MAX_ARTWORK_BYTES: u64 = 20971520;

/// The media type of a local image, from its extension in any ASCII case;
/// the image must be a file of at most 20 MB.
pub open spec fn spec_artwork_mime(path: Seq<char>, is_file: bool, size: u64) -> Result<Seq<char>, Seq<char>> {
    if !is_file {
        Err("Imagem local não encontrada"@)
    } else if size > MAX_ARTWORK_BYTES {
        Err("Imagem local excede 20 MB"@)
    } else {
        let e = crate::text::ascii_lower_seq(
            match crate::paths::extension(path) {
                Some(e) => e,
                None => Seq::empty(),
            },
        );
        if e == "jpg"@ || e == "jpeg"@ {
            Ok("image/jpeg"@)
        } else if e == "png"@ {
            Ok("image/png"@)
        } else if e == "webp"@ {
            Ok("image/webp"@)
        } else if e == "gif"@ {
            Ok("image/gif"@)
        } else {
            Err("Formato de imagem local não suportado"@)
        }
    }
}

pub fn artwork_mime(path: &str, is_file: bool, size: u64) -> (r: Result<&'static str, String>)
    ensures
        match (r, spec_artwork_mime(path@, is_file, size)) {
            (Ok(a), Ok(b)) => a@ == b,
            (Err(a), Err(b)) => a@ == b,
            _ => false,
        },
{
    if !is_file {
        return Err(crate::text::owned("Imagem local não encontrada"));
    }
    if size > MAX_ARTWORK_BYTES {
        return Err(crate::text::owned("Imagem local excede 20 MB"));
    }
    let ext = match crate::paths::extension_of(str_chars(path).as_slice()) {
        Some(e) => e,
        None => Vec::new(),
    };
    proof {
        assert(ext@ == match crate::paths::extension(path@) {
            Some(e) => e,
            None => Seq::<char>::empty(),
        });
    }
    let e = crate::text::ascii_lowercase(ext.as_slice());
    if same_chars(e.as_slice(), str_chars("jpg").as_slice()) || same_chars(
        e.as_slice(),
        str_chars("jpeg").as_slice(),
    ) {
        Ok("image/jpeg")
    } else if same_chars(e.as_slice(), str_chars("png").as_slice()) {
        Ok("image/png")
    } else if same_chars(e.as_slice(), str_chars("webp").as_slice()) {
        Ok("image/webp")
    } else if same_chars(e.as_slice(), str_chars("gif").as_slice()) {
        Ok("image/gif")
    } else {
        Err(crate::text::owned("Formato de imagem local não suportado"))
    }
}

/// The standard base64 text (with `=` padding) of `bytes`.
pub uninterp spec fn base64_of(bytes: Seq<u8>) -> Seq<char>;

/// Calls `base64::engine::general_purpose::STANDARD.encode`; the text is
/// named `base64_of`, and is four characters for every started group of
/// three bytes (the crate's `encoded_len` with padding).  The crate panics
/// when that length does not fit in `usize`, which `requires` rules out.
#[verifier::external_body]
pub(crate) fn base64_standard(bytes: &[u8]) -> (r: String)
    requires
        bytes@.len() / 3 * 4 + 4 <= usize::MAX,
    ensures
        r@ == base64_of(bytes@),
        r@.len() == (bytes@.len() + 2) / 3 * 4,
{
    base64::Engine::encode(&base64::engine::general_purpose::STANDARD, bytes)
}

/// A `data:` URI holding `bytes` with media type `mime`.
pub open spec fn spec_data_uri(mime: Seq<char>, bytes: Seq<u8>) -> Seq<char> {
    "data:"@ + mime + ";base64,"@ + base64_of(bytes)
}

pub fn artwork_data_uri(mime: &str, bytes: &[u8]) -> (r: String)
    requires
        bytes@.len() <= MAX_ARTWORK_BYTES,
    ensures
        r@ == spec_data_uri(mime@, bytes@),
{
    let encoded = base64_standard(bytes);
    let a = crate::text::concat_chars(str_chars("data:").as_slice(), str_chars(mime).as_slice());
    let b = crate::text::concat_chars(a.as_slice(), str_chars(";base64,").as_slice());
    let c = crate::text::concat_chars(b.as_slice(), str_chars(encoded.as_str()).as_slice());
    crate::text::chars_to_string(c.as_slice())
}

/// Local artwork is refused above 20 MiB.
pub proof fn law_artwork_size_limit()
    ensures
        MAX_ARTWORK_BYTES == 20 * 1024 * 1024,
{
}

} // verus!
