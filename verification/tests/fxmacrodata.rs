use lfest::fxmacrodata::{encode, FXMacroDataClient};

#[test]
fn fxmacrodata_urls_without_key() {
    let client = FXMacroDataClient::new("");
    assert_eq!(
        client.data_catalogue(" USD\n"),
        "https://api.fxmacrodata.com/v1/data_catalogue/usd"
    );
    assert_eq!(
        client.announcements("Eur", "CPI"),
        "https://api.fxmacrodata.com/v1/announcements/eur/CPI"
    );
    assert_eq!(
        client.forex("EUR", " uSd "),
        "https://api.fxmacrodata.com/v1/forex/eur/usd"
    );
    assert_eq!(
        client.commodities_latest(),
        "https://api.fxmacrodata.com/v1/commodities/latest"
    );
    assert_eq!(
        client.commodity("Gold"),
        "https://api.fxmacrodata.com/v1/commodities/Gold"
    );
    assert_eq!(
        client.press_releases("JPY"),
        "https://api.fxmacrodata.com/v1/press-releases/jpy"
    );
    assert_eq!(
        client.market_sessions(),
        "https://api.fxmacrodata.com/v1/market_sessions"
    );
    assert_eq!(
        client.risk_sentiment(),
        "https://api.fxmacrodata.com/v1/risk_sentiment"
    );
}

#[test]
fn fxmacrodata_urls_with_key() {
    let client = FXMacroDataClient::new("a b/c~Ä");
    assert_eq!(
        client.calendar("gbp"),
        "https://api.fxmacrodata.com/v1/calendar/gbp?api_key=a%20b%2Fc~%C3%84"
    );
    assert_eq!(
        client.predictions("AUD", "gdp"),
        "https://api.fxmacrodata.com/v1/predictions/aud/gdp?api_key=a%20b%2Fc~%C3%84"
    );
    let client = FXMacroDataClient::new("Key-1_2.3");
    assert_eq!(
        client.cot("Chf"),
        "https://api.fxmacrodata.com/v1/cot/chf?api_key=Key-1_2.3"
    );
    assert_eq!(
        client.curves("nzd"),
        "https://api.fxmacrodata.com/v1/curves/nzd?api_key=Key-1_2.3"
    );
    assert_eq!(
        client.curve_proxies("CAD"),
        "https://api.fxmacrodata.com/v1/curve_proxies/cad?api_key=Key-1_2.3"
    );
    assert_eq!(
        client.forward_curves("sek"),
        "https://api.fxmacrodata.com/v1/forward_curves/sek?api_key=Key-1_2.3"
    );
    assert_eq!(
        client.news("\u{3000}Nok"),
        "https://api.fxmacrodata.com/v1/news/nok?api_key=Key-1_2.3"
    );
    assert_eq!(
        client.central_bankers("USD"),
        "https://api.fxmacrodata.com/v1/central_bankers/usd?api_key=Key-1_2.3"
    );
}

#[test]
fn fxmacrodata_encode_escapes_reserved_bytes() {
    assert_eq!(encode("a b/c"), "a%20b%2Fc");
    assert_eq!(encode("Az09-_.~"), "Az09-_.~");
    assert_eq!(encode("\u{e9}"), "%C3%A9");
}
