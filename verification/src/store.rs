//! Store page rules: the country setting, the featured catalogue picked from
//! the Steam feed, and how one game's comparison page is titled and priced
//! from Steam's own listing.  Prices are kept in cents here.
use vstd::prelude::*;
use std::collections::HashSet;
use crate::text::{
    all_digits, ascii_upper_seq, chars_to_string, concat_chars, decimal, is_all_digits,
    is_ascii_alpha, str_chars, trim, trimmed, u64_decimal,
};

verus! {

broadcast use vstd::std_specs::hash::group_hash_axioms;

/// What the store settings page shows.
#[derive(Debug, Clone)]
pub struct StoreSettingsStatus {
    pub ggdeals_configured: bool,
    pub itad_configured: bool,
    pub country: String,
}

/// The settings page status; the country is `BR` until one is saved.
pub fn settings_status(ggdeals_configured: bool, itad_configured: bool, country: Option<String>) -> (r:
    StoreSettingsStatus)
    ensures
        r.ggdeals_configured == ggdeals_configured,
        r.itad_configured == itad_configured,
        r.country@ == (match country {
            Some(c) => c@,
            None => "BR"@,
        }),
{
    let country = match country {
        Some(c) => c,
        None => crate::text::owned("BR"),
    };
    StoreSettingsStatus { ggdeals_configured, itad_configured, country }
}

pub open spec fn country_error() -> Seq<char> {
    "País inválido: use código ISO de 2 letras, como BR"@
}

/// A country setting is the trimmed text in ASCII upper case, accepted only
/// when it is two ASCII letters.
pub open spec fn spec_country(country: Seq<char>) -> Result<Seq<char>, Seq<char>> {
    let t = ascii_upper_seq(trim(country));
    if t.len() == 2 && is_ascii_alpha(t[0]) && is_ascii_alpha(t[1]) {
        Ok(t)
    } else {
        Err(country_error())
    }
}

pub fn normalize_country(country: &str) -> (r: Result<String, String>)
    ensures
        match (r, spec_country(country@)) {
            (Ok(a), Ok(b)) => a@ == b,
            (Err(a), Err(b)) => a@ == b,
            _ => false,
        },
{
    let t = trimmed(str_chars(country).as_slice());
    let u = crate::text::ascii_uppercase(t.as_slice());
    if u.len() == 2 && is_ascii_letter(u[0]) && is_ascii_letter(u[1]) {
        Ok(chars_to_string(u.as_slice()))
    } else {
        Err(crate::text::owned("País inválido: use código ISO de 2 letras, como BR"))
    }
}

fn is_ascii_letter(c: char) -> (r: bool)
    ensures
        r == is_ascii_alpha(c),
{
    ('a' <= c && c <= 'z') || ('A' <= c && c <= 'Z')
}

/// A Steam application identifier is a non-empty run of ASCII digits.
pub open spec fn spec_valid_app_id(app_id: Seq<char>) -> bool {
    app_id.len() > 0 && all_digits(app_id)
}

pub fn valid_app_id(app_id: &str) -> (r: Result<(), String>)
    ensures
        r is Ok <==> spec_valid_app_id(app_id@),
        r matches Err(e) ==> e@ == "Steam AppID inválido"@,
{
    let v = str_chars(app_id);
    if v.len() == 0 || !is_all_digits(v.as_slice()) {
        Err(crate::text::owned("Steam AppID inválido"))
    } else {
        Ok(())
    }
}

/// The stand-in artwork reference for a Steam application.
pub open spec fn artwork_placeholder(app_id: Seq<char>) -> Seq<char> {
    "steam-artwork:"@ + app_id
}

pub fn placeholder_artwork(app_id: &str) -> (r: String)
    ensures
        r@ == artwork_placeholder(app_id@),
{
    let v = concat_chars(str_chars("steam-artwork:").as_slice(), str_chars(app_id).as_slice());
    chars_to_string(v.as_slice())
}

/// The title of a comparison page: the library's own title when it has one
/// that is not blank, else Steam's, else a generic name.
pub open spec fn spec_comparison_title(library_title: Option<Seq<char>>, steam_title: Seq<char>, app_id: Seq<
    char>) -> Seq<char> {
    match library_title {
        Some(t) if trim(t).len() > 0 => t,
        _ => if steam_title.len() == 0 {
            "Steam App "@ + app_id
        } else {
            steam_title
        },
    }
}

pub fn comparison_title(library_title: Option<&str>, steam_title: &str, app_id: &str) -> (r: String)
    ensures
        r@ == spec_comparison_title(
            match library_title {
                Some(t) => Some(t@),
                None => None,
            },
            steam_title@,
            app_id@,
        ),
{
    match library_title {
        Some(t) => {
            let tv = str_chars(t);
            if trimmed(tv.as_slice()).len() > 0 {
                return chars_to_string(tv.as_slice());
            }
        },
        None => {},
    }
    let sv = str_chars(steam_title);
    if sv.len() == 0 {
        let v = concat_chars(str_chars("Steam App ").as_slice(), str_chars(app_id).as_slice());
        chars_to_string(v.as_slice())
    } else {
        chars_to_string(sv.as_slice())
    }
}

/// One item of Steam's featured-categories feed, as the feed gives it:
/// `large_capsule_image` is `Some(None)` when the key is there but is not a
/// string.
#[derive(Debug, Clone)]
pub struct CatalogEntry {
    pub id: Option<u64>,
    pub name: Option<String>,
    pub final_price: Option<i64>,
    pub original_price: Option<i64>,
    pub currency: Option<String>,
    pub large_capsule_image: Option<Option<String>>,
    pub header_image: Option<String>,
    pub discount_percent: Option<i64>,
}

/// One game of the store's catalogue; prices in cents.
#[derive(Debug, Clone)]
pub struct CatalogPick {
    pub app_id: String,
    pub title: String,
    pub cover: Option<String>,
    pub price_cents: Option<i64>,
    pub regular_cents: Option<i64>,
    pub currency: Option<String>,
    pub discount_percent: i64,
}

/// The most games the catalogue shows.
pub const CATALOG_LIMIT: usize = 80;

pub type PickView = (Seq<char>, Seq<char>, Option<Seq<char>>, Option<i64>, Option<i64>, Option<Seq<char>>, i64);

pub open spec fn opt_chars(o: Option<String>) -> Option<Seq<char>> {
    match o {
        Some(s) => Some(s@),
        None => None,
    }
}

pub open spec fn pick_view(p: CatalogPick) -> PickView {
    (p.app_id@, p.title@, opt_chars(p.cover), p.price_cents, p.regular_cents, opt_chars(p.currency), p.discount_percent)
}

pub open spec fn picks_view(ps: Seq<CatalogPick>) -> Seq<PickView> {
    ps.map_values(|p: CatalogPick| pick_view(p))
}

/// The feed item's name, trimmed (an absent name is empty).
pub open spec fn entry_title(e: CatalogEntry) -> Seq<char> {
    trim(
        match e.name {
            Some(n) => n@,
            None => Seq::empty(),
        },
    )
}

/// The cover: the large capsule when that key is present (a placeholder when
/// it is not a string), else the header image, else a placeholder.
pub open spec fn entry_cover(e: CatalogEntry, id: u64) -> Seq<char> {
    match e.large_capsule_image {
        Some(Some(s)) => s@,
        Some(None) => artwork_placeholder(decimal(id as nat)),
        None => match e.header_image {
            Some(h) => h@,
            None => artwork_placeholder(decimal(id as nat)),
        },
    }
}

pub open spec fn entry_pick(e: CatalogEntry, id: u64) -> PickView {
    (
        decimal(id as nat),
        entry_title(e),
        Some(entry_cover(e, id)),
        e.final_price,
        e.original_price,
        opt_chars(e.currency),
        match e.discount_percent {
            Some(d) => d,
            None => 0,
        },
    )
}

/// The catalogue built from the feed items `es[i..]`, given the identifiers
/// already met and the games already picked: an item without an identifier
/// or with one met before is skipped; an item's identifier counts as met
/// even when its title is blank and the item is skipped; picking stops at
/// `CATALOG_LIMIT` games.
pub open spec fn catalog_from(es: Seq<CatalogEntry>, i: int, seen: Set<u64>, out: Seq<PickView>) -> Seq<
    PickView>
    decreases es.len() - i,
{
    if i < 0 || i >= es.len() || out.len() >= CATALOG_LIMIT {
        out
    } else {
        match es[i].id {
            None => catalog_from(es, i + 1, seen, out),
            Some(id) => if seen.contains(id) {
                catalog_from(es, i + 1, seen, out)
            } else if entry_title(es[i]).len() == 0 {
                catalog_from(es, i + 1, seen.insert(id), out)
            } else {
                catalog_from(es, i + 1, seen.insert(id), out.push(entry_pick(es[i], id)))
            },
        }
    }
}

pub open spec fn spec_catalog(es: Seq<CatalogEntry>) -> Seq<PickView> {
    catalog_from(es, 0, Set::empty(), Seq::empty())
}

fn clone_opt(o: &Option<String>) -> (r: Option<String>)
    ensures
        opt_chars(r) == opt_chars(*o),
{
    match o {
        Some(s) => Some(s.clone()),
        None => None,
    }
}

fn cover_of(e: &CatalogEntry, id: u64) -> (r: String)
    ensures
        r@ == entry_cover(*e, id),
{
    match &e.large_capsule_image {
        Some(Some(s)) => s.clone(),
        Some(None) => placeholder_artwork_chars(id),
        None => match &e.header_image {
            Some(h) => h.clone(),
            None => placeholder_artwork_chars(id),
        },
    }
}

fn placeholder_artwork_chars(id: u64) -> (r: String)
    ensures
        r@ == artwork_placeholder(decimal(id as nat)),
{
    let v = concat_chars(str_chars("steam-artwork:").as_slice(), u64_decimal(id).as_slice());
    chars_to_string(v.as_slice())
}

/// No two picks name the same application.
pub open spec fn distinct_apps(out: Seq<PickView>) -> bool {
    forall|a: int, b: int| 0 <= a < b < out.len() ==> (#[trigger] out[a]).0 != (#[trigger] out[b]).0
}

pub open spec fn from_seen(app: Seq<char>, seen: Set<u64>) -> bool {
    exists|id: u64| seen.contains(id) && app == decimal(id as nat)
}

pub open spec fn picked_from(out: Seq<PickView>, seen: Set<u64>) -> bool {
    forall|k: int| 0 <= k < out.len() ==> from_seen((#[trigger] out[k]).0, seen)
}

proof fn lemma_from_seen_insert(app: Seq<char>, seen: Set<u64>, id: u64)
    requires
        from_seen(app, seen),
    ensures
        from_seen(app, seen.insert(id)),
{
    let x = choose|x: u64| seen.contains(x) && app == decimal(x as nat);
    assert(seen.insert(id).contains(x));
}

/// The catalogue never lists an application twice.
pub proof fn lemma_catalog_distinct(es: Seq<CatalogEntry>, i: int, seen: Set<u64>, out: Seq<PickView>)
    requires
        distinct_apps(out),
        picked_from(out, seen),
    ensures
        distinct_apps(catalog_from(es, i, seen, out)),
    decreases es.len() - i,
{
    if i < 0 || i >= es.len() || out.len() >= CATALOG_LIMIT {
    } else {
        match es[i].id {
            None => lemma_catalog_distinct(es, i + 1, seen, out),
            Some(id) => if seen.contains(id) {
                lemma_catalog_distinct(es, i + 1, seen, out);
            } else {
                let seen2 = seen.insert(id);
                assert(picked_from(out, seen2)) by {
                    assert forall|k: int| 0 <= k < out.len() implies from_seen((#[trigger] out[k]).0, seen2) by {
                        lemma_from_seen_insert(out[k].0, seen, id);
                    }
                }
                if entry_title(es[i]).len() == 0 {
                    lemma_catalog_distinct(es, i + 1, seen2, out);
                } else {
                    let p = entry_pick(es[i], id);
                    let out2 = out.push(p);
                    assert(distinct_apps(out2)) by {
                        assert forall|a: int, b: int| 0 <= a < b < out2.len() implies (#[trigger] out2[a]).0
                            != (#[trigger] out2[b]).0 by {
                            assert(out2[a] == out[a]);
                            if b == out.len() {
                                assert(from_seen(out[a].0, seen));
                                let x = choose|x: u64| seen.contains(x) && out[a].0 == decimal(x as nat);
                                if out[a].0 == p.0 {
                                    crate::text::lemma_decimal_injective(x as nat, id as nat);
                                }
                            } else {
                                assert(out2[b] == out[b]);
                            }
                        }
                    }
                    assert(picked_from(out2, seen2)) by {
                        assert forall|k: int| 0 <= k < out2.len() implies from_seen((#[trigger] out2[k]).0, seen2) by {
                            if k == out.len() {
                                assert(seen2.contains(id));
                                assert(out2[k].0 == decimal(id as nat));
                            } else {
                                assert(out2[k] == out[k]);
                                lemma_from_seen_insert(out[k].0, seen, id);
                            }
                        }
                    }
                    lemma_catalog_distinct(es, i + 1, seen2, out2);
                }
            },
        }
    }
}

/// The store's catalogue from the items of Steam's featured categories, in
/// feed order (specials, top sellers, new releases, coming soon).
pub fn catalog_picks(entries: &Vec<CatalogEntry>) -> (r: Vec<CatalogPick>)
    ensures
        picks_view(r@) == spec_catalog(entries@),
        r@.len() <= CATALOG_LIMIT,
        forall|a: int, b: int| 0 <= a < b < r@.len() ==> r@[a].app_id@ != r@[b].app_id@,
{
    let mut seen: HashSet<u64> = HashSet::new();
    let mut out: Vec<CatalogPick> = Vec::new();
    let mut i: usize = 0;
    proof {
        assert(picks_view(out@) =~= Seq::<PickView>::empty());
    }
    while i < entries.len() && out.len() < CATALOG_LIMIT
        invariant
            i <= entries.len(),
            out@.len() <= CATALOG_LIMIT,
            spec_catalog(entries@) == catalog_from(entries@, i as int, seen@, picks_view(out@)),
        decreases entries.len() - i,
    {
        let e = &entries[i];
        match e.id {
            None => {},
            Some(id) => {
                let ghost before_seen = seen@;
                let fresh = seen.insert(id);
                proof {
                    assert(vstd::std_specs::hash::obeys_key_model::<u64>());
                    assert(fresh == !before_seen.contains(id));
                    if !fresh {
                        assert(seen@ =~= before_seen);
                    }
                }
                if fresh {
                    let name = match &e.name {
                        Some(n) => str_chars(n.as_str()),
                        None => Vec::new(),
                    };
                    proof {
                        assert(name@ == match e.name {
                            Some(n) => n@,
                            None => Seq::<char>::empty(),
                        });
                    }
                    let title = trimmed(name.as_slice());
                    if title.len() > 0 {
                        let pick = CatalogPick {
                            app_id: chars_to_string(u64_decimal(id).as_slice()),
                            title: chars_to_string(title.as_slice()),
                            cover: Some(cover_of(e, id)),
                            price_cents: e.final_price,
                            regular_cents: e.original_price,
                            currency: clone_opt(&e.currency),
                            discount_percent: match e.discount_percent {
                                Some(d) => d,
                                None => 0,
                            },
                        };
                        let ghost before = out@;
                        out.push(pick);
                        proof {
                            assert(picks_view(out@) =~= picks_view(before).push(pick_view(pick)));
                        }
                    }
                }
            },
        }
        i += 1;
    }
    proof {
        lemma_catalog_distinct(entries@, 0, Set::empty(), Seq::empty());
        assert forall|a: int, b: int| 0 <= a < b < out@.len() implies out@[a].app_id@ != out@[b].app_id@ by {
            assert(picks_view(out@)[a] == pick_view(out@[a]));
            assert(picks_view(out@)[b] == pick_view(out@[b]));
        }
    }
    out
}

/// The price block of Steam's application details, in cents.
#[derive(Debug, Clone)]
pub struct PriceOverview {
    pub final_cents: Option<i64>,
    pub initial_cents: Option<i64>,
    pub currency: Option<String>,
    pub discount_percent: Option<i64>,
}

/// The `data` block of Steam's application details.
#[derive(Debug, Clone)]
pub struct AppDetails {
    pub name: Option<String>,
    pub header_image: Option<String>,
    pub is_free: Option<bool>,
    pub price_overview: Option<PriceOverview>,
}

/// Steam's own offer for a game, in cents.
#[derive(Debug, Clone)]
pub struct OfficialOffer {
    pub price_cents: i64,
    pub regular_cents: Option<i64>,
    pub currency: String,
    pub cut: i64,
    pub url: String,
}

/// What Steam's listing gives a comparison page.
#[derive(Debug, Clone)]
pub struct SteamListing {
    pub title: String,
    pub cover: Option<String>,
    pub offer: Option<OfficialOffer>,
}

pub open spec fn store_url(app_id: Seq<char>) -> Seq<char> {
    "https://store.steampowered.com/app/"@ + app_id + "/"@
}

pub type OfferView = (i64, Option<i64>, Seq<char>, i64, Seq<char>);

pub open spec fn offer_view(o: Option<OfficialOffer>) -> Option<OfferView> {
    match o {
        Some(o) => Some((o.price_cents, o.regular_cents, o.currency@, o.cut, o.url@)),
        None => None,
    }
}

/// Steam's offer from its price block: none without a final price; the
/// currency defaults to BRL and the discount to zero.  A free game is
/// offered at zero.
pub open spec fn spec_steam_offer(app_id: Seq<char>, d: AppDetails) -> Option<OfferView> {
    if d.is_free == Some(true) {
        Some((0, Some(0), "BRL"@, 0, store_url(app_id)))
    } else {
        match d.price_overview {
            None => None,
            Some(p) => match p.final_cents {
                None => None,
                Some(f) => Some(
                    (
                        f,
                        p.initial_cents,
                        match p.currency {
                            Some(c) => c@,
                            None => "BRL"@,
                        },
                        match p.discount_percent {
                            Some(c) => c,
                            None => 0,
                        },
                        store_url(app_id),
                    ),
                ),
            },
        }
    }
}

/// The listing when Steam answered with `details` (`None`: no `data`
/// block); when Steam refused the request, a generic title and the
/// placeholder artwork, without an offer.
pub open spec fn spec_steam_listing(app_id: Seq<char>, answered: bool, details: Option<AppDetails>) -> (
    Seq<char>,
    Option<Seq<char>>,
    Option<OfferView>,
) {
    if !answered {
        ("Steam App "@ + app_id, Some(artwork_placeholder(app_id)), None)
    } else {
        match details {
            None => (Seq::empty(), None, None),
            Some(d) => (
                match d.name {
                    Some(n) => n@,
                    None => Seq::empty(),
                },
                opt_chars(d.header_image),
                spec_steam_offer(app_id, d),
            ),
        }
    }
}

fn store_url_of(app_id: &str) -> (r: String)
    ensures
        r@ == store_url(app_id@),
{
    let a = concat_chars(
        str_chars("https://store.steampowered.com/app/").as_slice(),
        str_chars(app_id).as_slice(),
    );
    let b = concat_chars(a.as_slice(), str_chars("/").as_slice());
    chars_to_string(b.as_slice())
}

pub fn steam_listing(app_id: &str, answered: bool, details: Option<AppDetails>) -> (r: SteamListing)
    ensures
        (r.title@, opt_chars(r.cover), offer_view(r.offer)) == spec_steam_listing(
            app_id@,
            answered,
            details,
        ),
{
    if !answered {
        let t = concat_chars(str_chars("Steam App ").as_slice(), str_chars(app_id).as_slice());
        return SteamListing {
            title: chars_to_string(t.as_slice()),
            cover: Some(placeholder_artwork(app_id)),
            offer: None,
        };
    }
    match details {
        None => SteamListing { title: String::new(), cover: None, offer: None },
        Some(d) => {
            let title = match &d.name {
                Some(n) => n.clone(),
                None => String::new(),
            };
            let cover = clone_opt(&d.header_image);
            let offer = if d.is_free == Some(true) {
                Some(
                    OfficialOffer {
                        price_cents: 0,
                        regular_cents: Some(0),
                        currency: crate::text::owned("BRL"),
                        cut: 0,
                        url: store_url_of(app_id),
                    },
                )
            } else {
                match &d.price_overview {
                    None => None,
                    Some(p) => match p.final_cents {
                        None => None,
                        Some(f) => Some(
                            OfficialOffer {
                                price_cents: f,
                                regular_cents: p.initial_cents,
                                currency: match &p.currency {
                                    Some(c) => c.clone(),
                                    None => crate::text::owned("BRL"),
                                },
                                cut: match p.discount_percent {
                                    Some(c) => c,
                                    None => 0,
                                },
                                url: store_url_of(app_id),
                            },
                        ),
                    },
                }
            };
            SteamListing { title, cover, offer }
        },
    }
}

// ---------------------------------------------------------------------------
// Offers of IsThereAnyDeal and GG.deals
// ---------------------------------------------------------------------------

/// The text of an offer; its prices are attached by the caller.
#[derive(Debug, Clone)]
pub struct OfferText {
    pub shop: String,
    pub kind: String,
    pub currency: String,
    pub cut: i64,
    pub url: String,
}

pub type OfferTextView = (Seq<char>, Seq<char>, Seq<char>, i64, Seq<char>);

pub open spec fn offer_text_view(o: OfferText) -> OfferTextView {
    (o.shop@, o.kind@, o.currency@, o.cut, o.url@)
}

/// One deal of IsThereAnyDeal's price list: `has_price` tells whether it
/// carries a numeric price amount.
#[derive(Debug, Clone)]
pub struct ItadDeal {
    pub shop: Option<String>,
    pub has_price: bool,
    pub currency: Option<String>,
    pub url: Option<String>,
    pub cut: Option<i64>,
}

/// A deal becomes an official-store offer when it has a price and a
/// non-empty link; the shop defaults to "Loja", the currency to BRL and the
/// discount to zero.
pub open spec fn spec_itad_offer(d: ItadDeal) -> Option<OfferTextView> {
    let url = match d.url {
        Some(u) => u@,
        None => Seq::empty(),
    };
    if !d.has_price || url.len() == 0 {
        None
    } else {
        Some(
            (
                match d.shop {
                    Some(s) => s@,
                    None => "Loja"@,
                },
                "official"@,
                match d.currency {
                    Some(c) => c@,
                    None => "BRL"@,
                },
                match d.cut {
                    Some(c) => c,
                    None => 0,
                },
                url,
            ),
        )
    }
}

pub fn itad_offer(d: &ItadDeal) -> (r: Option<OfferText>)
    ensures
        match r {
            Some(o) => spec_itad_offer(*d) == Some(offer_text_view(o)),
            None => spec_itad_offer(*d) is None,
        },
{
    let url = match &d.url {
        Some(u) => u.clone(),
        None => String::new(),
    };
    if !d.has_price || str_chars(url.as_str()).len() == 0 {
        return None;
    }
    Some(
        OfferText {
            shop: match &d.shop {
                Some(s) => s.clone(),
                None => crate::text::owned("Loja"),
            },
            kind: crate::text::owned("official"),
            currency: match &d.currency {
                Some(c) => c.clone(),
                None => crate::text::owned("BRL"),
            },
            cut: match d.cut {
                Some(c) => c,
                None => 0,
            },
            url,
        },
    )
}

/// GG.deals' page for a Steam application.
pub open spec fn ggdeals_page(app_id: Seq<char>) -> Seq<char> {
    "https://gg.deals/steam/app/"@ + app_id + "/"@
}

pub fn ggdeals_url(app_id: &str, url: Option<&str>) -> (r: String)
    ensures
        r@ == match url {
            Some(u) => u@,
            None => ggdeals_page(app_id@),
        },
{
    match url {
        Some(u) => crate::text::owned(u),
        None => {
            let a = concat_chars(str_chars("https://gg.deals/steam/app/").as_slice(), str_chars(app_id).as_slice());
            let b = concat_chars(a.as_slice(), str_chars("/").as_slice());
            chars_to_string(b.as_slice())
        },
    }
}

/// GG.deals' offers for a game: the best official-store price and the best
/// keyshop price, each when GG.deals gives one, in that order; both link to
/// the game's GG.deals page.
pub open spec fn spec_ggdeals_offers(
    app_id: Seq<char>,
    url: Option<Seq<char>>,
    currency: Option<Seq<char>>,
    has_retail: bool,
    has_keyshop: bool,
) -> Seq<OfferTextView> {
    let link = match url {
        Some(u) => u,
        None => ggdeals_page(app_id),
    };
    let cur = match currency {
        Some(c) => c,
        None => "BRL"@,
    };
    let retail = if has_retail {
        seq![("Melhor loja oficial · GG.deals"@, "official"@, cur, 0i64, link)]
    } else {
        Seq::empty()
    };
    let keyshop = if has_keyshop {
        seq![("Melhor keyshop · GG.deals"@, "keyshop"@, cur, 0i64, link)]
    } else {
        Seq::empty()
    };
    retail + keyshop
}

pub fn ggdeals_offers(app_id: &str, url: Option<&str>, currency: Option<&str>, has_retail: bool, has_keyshop: bool) -> (r:
    Vec<OfferText>)
    ensures
        r@.map_values(|o: OfferText| offer_text_view(o)) == spec_ggdeals_offers(
            app_id@,
            match url {
                Some(u) => Some(u@),
                None => None,
            },
            match currency {
                Some(c) => Some(c@),
                None => None,
            },
            has_retail,
            has_keyshop,
        ),
{
    let cur = match currency {
        Some(c) => crate::text::owned(c),
        None => crate::text::owned("BRL"),
    };
    let mut out: Vec<OfferText> = Vec::new();
    if has_retail {
        out.push(
            OfferText {
                shop: crate::text::owned("Melhor loja oficial · GG.deals"),
                kind: crate::text::owned("official"),
                currency: cur.clone(),
                cut: 0,
                url: ggdeals_url(app_id, url),
            },
        );
    }
    if has_keyshop {
        out.push(
            OfferText {
                shop: crate::text::owned("Melhor keyshop · GG.deals"),
                kind: crate::text::owned("keyshop"),
                currency: cur.clone(),
                cut: 0,
                url: ggdeals_url(app_id, url),
            },
        );
    }
    proof {
        let v = out@.map_values(|o: OfferText| offer_text_view(o));
        let sv = spec_ggdeals_offers(
            app_id@,
            match url {
                Some(u) => Some(u@),
                None => None,
            },
            match currency {
                Some(c) => Some(c@),
                None => None,
            },
            has_retail,
            has_keyshop,
        );
        assert(v.len() == sv.len());
        assert(v =~= sv);
    }
    out
}

} // verus!
