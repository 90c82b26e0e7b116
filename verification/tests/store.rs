use ludex::store::{
    ggdeals_offers, ggdeals_url, itad_offer, ItadDeal,
    catalog_picks, comparison_title, normalize_country, placeholder_artwork, settings_status,
    steam_listing, valid_app_id, AppDetails, CatalogEntry, PriceOverview,
};

fn entry(id: Option<u64>, name: &str) -> CatalogEntry {
    CatalogEntry {
        id,
        name: Some(name.to_string()),
        final_price: Some(1299),
        original_price: Some(2599),
        currency: Some("BRL".to_string()),
        large_capsule_image: None,
        header_image: None,
        discount_percent: Some(50),
    }
}

#[test]
fn countries_are_two_ascii_letters() {
    assert_eq!(normalize_country(" br ").unwrap(), "BR");
    assert_eq!(normalize_country("us").unwrap(), "US");
    let err = "País inválido: use código ISO de 2 letras, como BR";
    assert_eq!(normalize_country("BRA").unwrap_err(), err);
    assert_eq!(normalize_country("B1").unwrap_err(), err);
    assert_eq!(normalize_country("").unwrap_err(), err);
    assert_eq!(normalize_country("bé").unwrap_err(), err);
}

#[test]
fn settings_default_to_brazil() {
    let s = settings_status(true, false, None);
    assert_eq!(s.country, "BR");
    assert!(s.ggdeals_configured && !s.itad_configured);
    assert_eq!(settings_status(false, true, Some("PT".to_string())).country, "PT");
}

#[test]
fn app_ids_are_digits() {
    assert!(valid_app_id("1091500").is_ok());
    assert_eq!(valid_app_id("").unwrap_err(), "Steam AppID inválido");
    assert_eq!(valid_app_id("12a").unwrap_err(), "Steam AppID inválido");
}

#[test]
fn catalog_skips_repeats_and_blank_titles() {
    let mut blank = entry(Some(7), "   ");
    blank.header_image = Some("h7".to_string());
    let mut with_capsule = entry(Some(8), " Hades ");
    with_capsule.large_capsule_image = Some(Some("cap8".to_string()));
    with_capsule.header_image = Some("h8".to_string());
    let mut not_string_capsule = entry(Some(9), "Celeste");
    not_string_capsule.large_capsule_image = Some(None);
    not_string_capsule.header_image = Some("h9".to_string());
    let mut header_only = entry(Some(10), "Inside");
    header_only.header_image = Some("h10".to_string());
    header_only.discount_percent = None;
    let entries = vec![
        blank,
        entry(Some(7), "Limbo"),
        entry(None, "No id"),
        with_capsule,
        entry(Some(8), "Hades again"),
        not_string_capsule,
        header_only,
    ];
    let picks = catalog_picks(&entries);
    assert_eq!(picks.len(), 3);
    assert_eq!(picks[0].app_id, "8");
    assert_eq!(picks[0].title, "Hades");
    assert_eq!(picks[0].cover.as_deref(), Some("cap8"));
    assert_eq!(picks[0].price_cents, Some(1299));
    assert_eq!(picks[0].regular_cents, Some(2599));
    assert_eq!(picks[0].currency.as_deref(), Some("BRL"));
    assert_eq!(picks[0].discount_percent, 50);
    assert_eq!(picks[1].cover.as_deref(), Some("steam-artwork:9"));
    assert_eq!(picks[2].cover.as_deref(), Some("h10"));
    assert_eq!(picks[2].discount_percent, 0);
}

#[test]
fn catalog_stops_at_eighty_games() {
    let entries: Vec<CatalogEntry> = (1..=100).map(|i| entry(Some(i), &format!("Game {i}"))).collect();
    let picks = catalog_picks(&entries);
    assert_eq!(picks.len(), 80);
    assert_eq!(picks[79].app_id, "80");
    assert_eq!(picks[0].cover.as_deref(), Some("steam-artwork:1"));
}

#[test]
fn comparison_titles_prefer_the_library() {
    assert_eq!(comparison_title(Some("Meu Jogo"), "Steam Name", "10"), "Meu Jogo");
    assert_eq!(comparison_title(Some("   "), "Steam Name", "10"), "Steam Name");
    assert_eq!(comparison_title(None, "", "10"), "Steam App 10");
    assert_eq!(placeholder_artwork("10"), "steam-artwork:10");
}

#[test]
fn steam_listing_reads_prices_in_cents() {
    let details = AppDetails {
        name: Some("Hades".to_string()),
        header_image: Some("header.jpg".to_string()),
        is_free: Some(false),
        price_overview: Some(PriceOverview {
            final_cents: Some(4699),
            initial_cents: Some(9399),
            currency: None,
            discount_percent: Some(50),
        }),
    };
    let l = steam_listing("1145360", true, Some(details.clone()));
    assert_eq!(l.title, "Hades");
    assert_eq!(l.cover.as_deref(), Some("header.jpg"));
    let o = l.offer.unwrap();
    assert_eq!(o.price_cents, 4699);
    assert_eq!(o.regular_cents, Some(9399));
    assert_eq!(o.currency, "BRL");
    assert_eq!(o.cut, 50);
    assert_eq!(o.url, "https://store.steampowered.com/app/1145360/");

    let mut free = details.clone();
    free.is_free = Some(true);
    let o = steam_listing("1", true, Some(free)).offer.unwrap();
    assert_eq!((o.price_cents, o.regular_cents, o.cut), (0, Some(0), 0));

    let mut unpriced = details;
    unpriced.price_overview = None;
    assert!(steam_listing("1", true, Some(unpriced)).offer.is_none());

    let refused = steam_listing("42", false, None);
    assert_eq!(refused.title, "Steam App 42");
    assert_eq!(refused.cover.as_deref(), Some("steam-artwork:42"));
    assert!(refused.offer.is_none());

    let empty = steam_listing("42", true, None);
    assert_eq!(empty.title, "");
    assert!(empty.cover.is_none() && empty.offer.is_none());
}

#[test]
fn itad_deals_need_a_price_and_a_link() {
    let d = ItadDeal { shop: None, has_price: true, currency: None, url: Some("https://shop/x".to_string()), cut: None };
    let o = itad_offer(&d).unwrap();
    assert_eq!((o.shop.as_str(), o.kind.as_str(), o.currency.as_str(), o.cut), ("Loja", "official", "BRL", 0));
    let mut no_url = d.clone();
    no_url.url = Some(String::new());
    assert!(itad_offer(&no_url).is_none());
    let mut no_price = d;
    no_price.has_price = false;
    assert!(itad_offer(&no_price).is_none());
}

#[test]
fn ggdeals_offers_link_to_the_game_page() {
    let o = ggdeals_offers("10", None, Some("EUR"), true, true);
    assert_eq!(o.len(), 2);
    assert_eq!(o[0].shop, "Melhor loja oficial · GG.deals");
    assert_eq!(o[1].kind, "keyshop");
    assert_eq!(o[1].url, "https://gg.deals/steam/app/10/");
    assert_eq!(o[0].currency, "EUR");
    assert!(ggdeals_offers("10", Some("u"), None, false, false).is_empty());
    assert_eq!(ggdeals_offers("10", Some("u"), None, false, true)[0].url, "u");
    assert_eq!(ggdeals_url("10", None), "https://gg.deals/steam/app/10/");
}
