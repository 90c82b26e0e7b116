//! The Steam account: which SteamID64 signed in most recently, and the
//! rules applied when the account's owned games are imported.
use vstd::prelude::*;
use crate::text::{
    all_digits, chars_to_string, eq_ignore_ascii_case, eq_ignore_case, is_all_digits, is_hex_digit,
    owned, same_chars, str_chars, trim, trimmed,
};
use crate::vdf::{tokenize, tokens_from, tokens_view, Token, TokenV};

verus! {

/// What the settings page shows of the Steam account.
#[derive(Debug, Clone)]
pub struct SteamAccountStatus {
    pub steam_id: Option<String>,
    pub api_key_configured: bool,
    pub last_sync: Option<String>,
    pub owned_games: usize,
}

/// The counts reported after importing the account's owned games.
#[derive(Debug, Clone)]
pub struct SteamAccountSyncResult {
    pub steam_id: String,
    pub games_found: usize,
    pub games_created: usize,
    pub games_updated: usize,
    pub playtimes_updated: usize,
}

/// A SteamID64 as `loginusers.vdf` writes it: seventeen ASCII digits.
pub open spec fn is_steam_id(s: Seq<char>) -> bool {
    s.len() == 17 && all_digits(s)
}

/// The innermost SteamID64 among the open sections.
pub open spec fn last_steam_id(stack: Seq<Seq<char>>) -> Option<Seq<char>>
    decreases stack.len(),
{
    if stack.len() == 0 {
        None
    } else if is_steam_id(stack.last()) {
        Some(stack.last())
    } else {
        last_steam_id(stack.drop_last())
    }
}

/// What has been learnt while reading `loginusers.vdf`.
pub struct LoginState {
    pub stack: Seq<Seq<char>>,
    pub most_recent: Option<Seq<char>>,
    pub first_id: Option<Seq<char>>,
}

pub open spec fn login_start() -> LoginState {
    LoginState { stack: Seq::empty(), most_recent: None, first_id: None }
}

/// Reads tokens from `i` on: a key followed by `{` opens a section (the
/// first section named by a SteamID64 is remembered); a key followed by a
/// value is a pair, and `MostRecent` `1` marks the innermost account section;
/// `}` closes a section.
pub open spec fn login_run(t: Seq<TokenV>, i: int, st: LoginState) -> LoginState
    decreases t.len() - i,
{
    if i >= t.len() || i < 0 {
        st
    } else {
        match t[i] {
            TokenV::Text(key) => {
                if i + 1 < t.len() {
                    match t[i + 1] {
                        TokenV::Open => login_run(
                            t,
                            i + 2,
                            LoginState {
                                stack: st.stack.push(key),
                                first_id: if is_steam_id(key) && st.first_id is None {
                                    Some(key)
                                } else {
                                    st.first_id
                                },
                                ..st
                            },
                        ),
                        TokenV::Text(value) => {
                            if eq_ignore_case(key, "MostRecent"@) && value == "1"@ {
                                match last_steam_id(st.stack) {
                                    Some(id) => login_run(
                                        t,
                                        i + 2,
                                        LoginState { most_recent: Some(id), ..st },
                                    ),
                                    None => login_run(t, i + 2, st),
                                }
                            } else {
                                login_run(t, i + 2, st)
                            }
                        },
                        TokenV::Close => login_run(t, i + 1, st),
                    }
                } else {
                    login_run(t, i + 1, st)
                }
            },
            TokenV::Close => login_run(
                t,
                i + 1,
                LoginState {
                    stack: if st.stack.len() > 0 {
                        st.stack.drop_last()
                    } else {
                        st.stack
                    },
                    ..st
                },
            ),
            TokenV::Open => login_run(t, i + 1, st),
        }
    }
}

/// The account marked `MostRecent`, else the first account listed.
pub open spec fn spec_loginusers(content: Seq<char>) -> Option<Seq<char>> {
    let st = login_run(tokens_from(content, 0, false), 0, login_start());
    match st.most_recent {
        Some(id) => Some(id),
        None => st.first_id,
    }
}

fn steam_id_text(s: &String) -> (r: bool)
    ensures
        r == is_steam_id(s@),
{
    let v = str_chars(s.as_str());
    v.len() == 17 && is_all_digits(v.as_slice())
}

fn innermost_steam_id(stack: &Vec<String>) -> (r: Option<String>)
    ensures
        match r {
            Some(x) => last_steam_id(stack@.map_values(|s: String| s@)) == Some(x@),
            None => last_steam_id(stack@.map_values(|s: String| s@)) is None,
        },
{
    let ghost sv = stack@.map_values(|s: String| s@);
    let mut k = stack.len();
    assert(sv.take(stack.len() as int) =~= sv);
    while k > 0
        invariant
            k <= stack.len(),
            sv == stack@.map_values(|s: String| s@),
            last_steam_id(sv) == last_steam_id(sv.take(k as int)),
        decreases k,
    {
        proof {
            assert(sv.take(k as int).drop_last() =~= sv.take(k - 1));
            assert(sv.take(k as int).last() == stack@[k - 1]@);
        }
        if steam_id_text(&stack[k - 1]) {
            return Some(stack[k - 1].clone());
        }
        k -= 1;
    }
    None
}

/// The SteamID64 of the account that signed in most recently, from the text
/// of `loginusers.vdf`: the account section holding `"MostRecent" "1"`, or
/// else the first account section; `None` when no section is named by
/// seventeen digits.
pub fn parse_loginusers_most_recent(content: &str) -> (r: Option<String>)
    ensures
        match r {
            Some(x) => spec_loginusers(content@) == Some(x@),
            None => spec_loginusers(content@) is None,
        },
{
    let chars = str_chars(content);
    let tokens = tokenize(chars.as_slice(), false);
    let ghost t = tokens_view(tokens@);
    let mut stack: Vec<String> = Vec::new();
    let mut most_recent: Option<String> = None;
    let mut first_id: Option<String> = None;
    let most_word = str_chars("MostRecent");
    let one = str_chars("1");
    let mut i: usize = 0;
    proof {
        assert(stack@.map_values(|s: String| s@) =~= Seq::<Seq<char>>::empty());
    }
    while i < tokens.len()
        invariant
            t == tokens_view(tokens@),
            t == tokens_from(content@, 0, false),
            most_word@ == "MostRecent"@,
            one@ == "1"@,
            i <= tokens.len(),
            login_run(t, 0, login_start()) == login_run(
                t,
                i as int,
                LoginState {
                    stack: stack@.map_values(|s: String| s@),
                    most_recent: match most_recent {
                        Some(x) => Some(x@),
                        None => None,
                    },
                    first_id: match first_id {
                        Some(x) => Some(x@),
                        None => None,
                    },
                },
            ),
        decreases tokens.len() - i,
    {
        let ghost sv = stack@.map_values(|s: String| s@);
        assert(t[i as int] == tokens@[i as int]@);
        match &tokens[i] {
            Token::Text(key) => {
                if i + 1 < tokens.len() {
                    assert(t[i + 1] == tokens@[i + 1]@);
                    match &tokens[i + 1] {
                        Token::Open => {
                            if steam_id_text(key) && first_id.is_none() {
                                first_id = Some(key.clone());
                            }
                            stack.push(key.clone());
                            proof {
                                assert(stack@.map_values(|s: String| s@) =~= sv.push(key@));
                            }
                            i += 2;
                        },
                        Token::Text(value) => {
                            let key_chars = str_chars(key.as_str());
                            let value_chars = str_chars(value.as_str());
                            if eq_ignore_ascii_case(key_chars.as_slice(), most_word.as_slice())
                                && same_chars(value_chars.as_slice(), one.as_slice()) {
                                match innermost_steam_id(&stack) {
                                    Some(id) => {
                                        most_recent = Some(id);
                                    },
                                    None => {},
                                }
                            }
                            i += 2;
                        },
                        Token::Close => {
                            i += 1;
                        },
                    }
                } else {
                    i += 1;
                }
            },
            Token::Close => {
                if stack.len() > 0 {
                    stack.pop();
                    proof {
                        assert(stack@.map_values(|s: String| s@) =~= sv.drop_last());
                    }
                }
                i += 1;
            },
            Token::Open => {
                i += 1;
            },
        }
    }
    match most_recent {
        Some(id) => Some(id),
        None => first_id,
    }
}

/// A Steam Web API key is accepted when, trimmed, it is empty (which
/// removes the stored key) or made of hexadecimal digits only.
pub open spec fn spec_api_key_ok(key: Seq<char>) -> bool {
    let t = trim(key);
    t.len() == 0 || forall|i: int| 0 <= i < t.len() ==> is_hex_digit(#[trigger] t[i])
}

/// Checks a Steam Web API key before it is stored.
pub fn validate_api_key(key: &str) -> (r: Result<(), String>)
    ensures
        r is Ok <==> spec_api_key_ok(key@),
        r matches Err(e) ==> e@ == "A Steam Web API key deve conter somente caracteres hexadecimais"@,
{
    let chars = str_chars(key);
    let t = trimmed(chars.as_slice());
    if t.len() == 0 {
        return Ok(());
    }
    let mut i: usize = 0;
    while i < t.len()
        invariant
            t@ == trim(key@),
            i <= t.len(),
            forall|j: int| 0 <= j < i ==> is_hex_digit(#[trigger] t@[j]),
        decreases t.len() - i,
    {
        let c = t[i];
        if !(('0' <= c && c <= '9') || ('a' <= c && c <= 'f') || ('A' <= c && c <= 'F')) {
            proof {
                assert(!is_hex_digit(t@[i as int]));
                assert(t@ == trim(key@));
                assert(!spec_api_key_ok(key@));
            }
            return Err(owned("A Steam Web API key deve conter somente caracteres hexadecimais"));
        }
        i += 1;
    }
    Ok(())
}

/// The seconds imported for an owned game: its minutes, at least zero,
/// times sixty, saturating at `i64::MAX`.
pub open spec fn spec_owned_playtime_seconds(minutes: i64) -> i64 {
    let m: int = if minutes < 0 {
        0
    } else {
        minutes as int
    };
    if m * 60 > i64::MAX {
        i64::MAX
    } else {
        (m * 60) as i64
    }
}

pub fn owned_playtime_seconds(minutes: i64) -> (r: i64)
    ensures
        r == spec_owned_playtime_seconds(minutes),
{
    let m = if minutes < 0 {
        0
    } else {
        minutes
    };
    if m > i64::MAX / 60 {
        i64::MAX
    } else {
        m * 60
    }
}

/// The game a title resolves to when the app is not linked yet: only a
/// single title match is trusted.
pub fn unique_match(matches: &Vec<String>) -> (r: Option<String>)
    ensures
        matches@.len() == 1 ==> (r matches Some(x) && x@ == matches@[0]@),
        matches@.len() != 1 ==> r is None,
{
    if matches.len() == 1 {
        Some(matches[0].clone())
    } else {
        None
    }
}

/// The library game an owned Steam app belongs to: the game already linked
/// to its app id, else the only game whose normalised title matches.
pub fn resolve_game(linked: Option<String>, title_matches: &Vec<String>) -> (r: Option<String>)
    ensures
        match linked {
            Some(g) => (r matches Some(x) && x@ == g@),
            None => if title_matches@.len() == 1 {
                r matches Some(x) && x@ == title_matches@[0]@
            } else {
                r is None
            },
        },
{
    match linked {
        Some(g) => Some(g),
        None => unique_match(title_matches),
    }
}

/// The title under which an owned game is imported, `None` for a blank
/// name (such games are skipped).
pub fn owned_game_title(name: &str) -> (r: Option<String>)
    ensures
        match r {
            Some(t) => t@ == trim(name@) && t@.len() > 0,
            None => trim(name@).len() == 0,
        },
{
    let chars = str_chars(name);
    let t = trimmed(chars.as_slice());
    if t.len() == 0 {
        None
    } else {
        Some(chars_to_string(t.as_slice()))
    }
}

/// How many of `flags` are set.
pub open spec fn count_set(flags: Seq<bool>) -> nat
    decreases flags.len(),
{
    if flags.len() == 0 {
        0
    } else {
        count_set(flags.drop_last()) + if flags.last() {
            1nat
        } else {
            0nat
        }
    }
}

/// `count_set` of one sequence is at most that of another that is set
/// wherever it is.
pub proof fn lemma_count_set_le(a: Seq<bool>, b: Seq<bool>)
    requires
        a.len() == b.len(),
        forall|i: int| 0 <= i < a.len() && a[i] ==> b[i],
    ensures
        count_set(a) <= count_set(b) <= b.len(),
    decreases a.len(),
{
    if a.len() > 0 {
        lemma_count_set_le(a.drop_last(), b.drop_last());
    }
}

/// The counts of an owned-games import, from the outcome of each returned
/// game: `created[i]` when the game was added to the library, `touched[i]`
/// when it was imported at all (its name was not blank).  Every imported
/// game also has its playtime written.  When only imported games can be
/// created, the counts are ordered: created ≤ updated ≤ found.
pub fn owned_sync_result(steam_id: String, created: &Vec<bool>, touched: &Vec<bool>) -> (r:
    SteamAccountSyncResult)
    requires
        created@.len() == touched@.len(),
    ensures
        r.steam_id == steam_id,
        r.games_found == touched@.len(),
        r.games_created == count_set(created@),
        r.games_updated == count_set(touched@),
        r.playtimes_updated == count_set(touched@),
        (forall|i: int| 0 <= i < created@.len() && created@[i] ==> touched@[i]) ==> r.games_created
            <= r.games_updated <= r.games_found,
{
    let mut c: usize = 0;
    let mut t: usize = 0;
    let mut i: usize = 0;
    while i < touched.len()
        invariant
            i <= touched.len(),
            created@.len() == touched@.len(),
            c == count_set(created@.take(i as int)),
            t == count_set(touched@.take(i as int)),
            c <= i,
            t <= i,
        decreases touched.len() - i,
    {
        proof {
            assert(created@.take(i as int + 1).drop_last() =~= created@.take(i as int));
            assert(touched@.take(i as int + 1).drop_last() =~= touched@.take(i as int));
        }
        if created[i] {
            c += 1;
        }
        if touched[i] {
            t += 1;
        }
        i += 1;
    }
    proof {
        assert(created@.take(touched@.len() as int) =~= created@);
        assert(touched@.take(touched@.len() as int) =~= touched@);
        if forall|i: int| 0 <= i < created@.len() && created@[i] ==> touched@[i] {
            lemma_count_set_le(created@, touched@);
        }
    }
    SteamAccountSyncResult {
        steam_id,
        games_found: touched.len(),
        games_created: c,
        games_updated: t,
        playtimes_updated: t,
    }
}

} // verus!
