//! Artwork found in Steam's local library cache: which cached files belong
//! to a game, and which of them serve as its cover and its hero image.
use vstd::prelude::*;
use crate::models::opt_view;
use crate::paths::{component_name, component_name_of, extension, extension_of, parent, parent_of, path_join, join};
use crate::text::{
    ascii_lower_seq, ascii_lowercase, chars_to_string, contains, has_prefix, has_substring,
    same_chars, starts_with, str_chars, strings_view,
};

verus! {

/// Local metadata taken from Steam's library cache.
pub struct SteamLocalMetadataProvider;

/// The cover and hero image found for one game.
#[derive(Debug, Clone)]
pub struct SteamArtwork {
    pub cover: Option<String>,
    pub hero: Option<String>,
}

/// How deep below the cache folder candidates are looked for.
pub const CANDIDATE_DEPTH: usize = 3;

/// The cache folder of a Steam root.
pub open spec fn library_cache(root: Seq<char>) -> Seq<char> {
    path_join(path_join(root, "appcache"@), "librarycache"@)
}

/// Below the cache, a folder is entered when it is named after the game or
/// when more than one level is still left to look into.
pub open spec fn spec_enters_folder(folder_name: Option<Seq<char>>, app_id: Seq<char>, depth: int) -> bool {
    folder_name matches Some(n) && (n == app_id || depth > 1)
}

/// A cached file belongs to a game when its name starts with the game's id
/// (ASCII case ignored) or its folder is named after the game, and it is a
/// JPEG, PNG or WebP image.
pub open spec fn spec_is_candidate(path: Seq<char>, app_id: Seq<char>) -> bool {
    &&& component_name(path) matches Some(name) && (starts_with(
        ascii_lower_seq(name),
        ascii_lower_seq(app_id),
    ) || (parent(path) matches Some(pp) && component_name(pp) == Some(app_id)))
    &&& extension(path) matches Some(e) && {
        let l = ascii_lower_seq(e);
        l == "jpg"@ || l == "jpeg"@ || l == "png"@ || l == "webp"@
    }
}

/// A cover: the portrait capsule, under its modern (`library_capsule`,
/// `library_600x900`) or older (`capsule_600x900`, `portrait`) names.
pub open spec fn is_cover_name(lower: Seq<char>) -> bool {
    contains(lower, "library_capsule"@) || contains(lower, "library_600x900"@) || contains(lower, "portrait"@)
        || contains(lower, "capsule_600x900"@)
}

/// A hero image: the wide banner (`library_hero`, `hero`, `background`), or
/// the header image.
pub open spec fn is_hero_name(lower: Seq<char>) -> bool {
    contains(lower, "library_hero"@) || contains(lower, "hero"@) || contains(lower, "background"@)
        || contains(lower, "header"@)
}

/// The artwork chosen among the candidate files `ps[..]`, in order, given
/// what was chosen before: the first file whose name looks like a cover
/// becomes the cover, the first whose name looks like a hero image the
/// hero; the search stops once both are found.
pub open spec fn artwork_from(ps: Seq<Seq<char>>, i: int, cover: Option<Seq<char>>, hero: Option<Seq<char>>) -> (
    Option<Seq<char>>,
    Option<Seq<char>>,
)
    decreases ps.len() - i,
{
    if i < 0 || i >= ps.len() {
        (cover, hero)
    } else {
        match component_name(ps[i]) {
            None => artwork_from(ps, i + 1, cover, hero),
            Some(name) => {
                let lower = ascii_lower_seq(name);
                let c = if cover is None && is_cover_name(lower) {
                    Some(ps[i])
                } else {
                    cover
                };
                let h = if hero is None && is_hero_name(lower) {
                    Some(ps[i])
                } else {
                    hero
                };
                if c is Some && h is Some {
                    (c, h)
                } else {
                    artwork_from(ps, i + 1, c, h)
                }
            },
        }
    }
}

fn contains_word(hay: &[char], w: &str) -> (r: bool)
    ensures
        r == contains(hay@, w@),
{
    has_substring(hay, str_chars(w).as_slice())
}

impl SteamLocalMetadataProvider {
    /// The name under which this provider records what it finds.
    pub fn id(&self) -> (r: &'static str)
        ensures
            r@ == "steam-local-cache"@,
    {
        "steam-local-cache"
    }

    /// The cache folder of `root`.
    pub fn cache_dir(root: &str) -> (r: String)
        ensures
            r@ == library_cache(root@),
    {
        let a = join(str_chars(root).as_slice(), str_chars("appcache").as_slice());
        let b = join(a.as_slice(), str_chars("librarycache").as_slice());
        chars_to_string(b.as_slice())
    }

    /// Whether a folder met below the cache, `depth` levels from the
    /// bottom, is looked into.
    pub fn enters_folder(folder_name: Option<&str>, app_id: &str, depth: usize) -> (r: bool)
        ensures
            r == spec_enters_folder(
                match folder_name {
                    Some(n) => Some(n@),
                    None => None,
                },
                app_id@,
                depth as int,
            ),
    {
        match folder_name {
            Some(n) => depth > 1 || same_chars(str_chars(n).as_slice(), str_chars(app_id).as_slice()),
            None => false,
        }
    }

    /// Whether a cached file is artwork of the game `app_id`.
    pub fn is_candidate(path: &str, app_id: &str) -> (r: bool)
        ensures
            r == spec_is_candidate(path@, app_id@),
    {
        let p = str_chars(path);
        proof {
            reveal_strlit("jpg");
            reveal_strlit("jpeg");
            reveal_strlit("png");
            reveal_strlit("webp");
        }
        let name_ok = match component_name_of(p.as_slice()) {
            None => false,
            Some(name) => {
                let lower = ascii_lowercase(name.as_slice());
                let id_lower = ascii_lowercase(str_chars(app_id).as_slice());
                if has_prefix(lower.as_slice(), id_lower.as_slice()) {
                    true
                } else {
                    match parent_of(p.as_slice()) {
                        None => false,
                        Some(pp) => match component_name_of(pp.as_slice()) {
                            Some(pn) => same_chars(pn.as_slice(), str_chars(app_id).as_slice()),
                            None => false,
                        },
                    }
                }
            },
        };
        if !name_ok {
            return false;
        }
        match extension_of(p.as_slice()) {
            None => false,
            Some(e) => {
                let l = ascii_lowercase(e.as_slice());
                same_chars(l.as_slice(), str_chars("jpg").as_slice()) || same_chars(
                    l.as_slice(),
                    str_chars("jpeg").as_slice(),
                ) || same_chars(l.as_slice(), str_chars("png").as_slice()) || same_chars(
                    l.as_slice(),
                    str_chars("webp").as_slice(),
                )
            },
        }
    }

    /// The cover and hero image among a game's candidate files, in the
    /// order they were found.
    pub fn artwork_for(candidates: &Vec<String>) -> (r: SteamArtwork)
        ensures
            (opt_view(r.cover), opt_view(r.hero)) == artwork_from(strings_view(candidates@), 0, None, None),
    {
        let ghost ps = strings_view(candidates@);
        let mut cover: Option<String> = None;
        let mut hero: Option<String> = None;
        let mut i: usize = 0;
        while i < candidates.len()
            invariant
                i <= candidates.len(),
                ps == strings_view(candidates@),
                artwork_from(ps, 0, None, None) == artwork_from(ps, i as int, opt_view(cover), opt_view(hero)),
            decreases candidates.len() - i,
        {
            let p = &candidates[i];
            proof {
                assert(ps[i as int] == p@);
            }
            match component_name_of(str_chars(p.as_str()).as_slice()) {
                None => {},
                Some(name) => {
                    let lower = ascii_lowercase(name.as_slice());
                    if cover.is_none() && (contains_word(lower.as_slice(), "library_capsule")
                        || contains_word(lower.as_slice(), "library_600x900") || contains_word(
                        lower.as_slice(),
                        "portrait",
                    ) || contains_word(lower.as_slice(), "capsule_600x900")) {
                        cover = Some(p.clone());
                    }
                    if hero.is_none() && (contains_word(lower.as_slice(), "library_hero")
                        || contains_word(lower.as_slice(), "hero") || contains_word(
                        lower.as_slice(),
                        "background",
                    ) || contains_word(lower.as_slice(), "header")) {
                        hero = Some(p.clone());
                    }
                    if cover.is_some() && hero.is_some() {
                        return SteamArtwork { cover, hero };
                    }
                },
            }
            i += 1;
        }
        SteamArtwork { cover, hero }
    }
}

} // verus!
