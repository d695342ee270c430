use iradio_bridge::radiobrowser::{
    choose_base_url, countries_request, map_station, parse_tags, search_request,
    stations_by_country_request, stations_by_tag_request, tags_request, top_request, RbStation,
};

fn pairs(v: &[(String, String)]) -> Vec<(&str, &str)> {
    v.iter().map(|(k, val)| (k.as_str(), val.as_str())).collect()
}

#[test]
fn tags_are_split_trimmed_and_empty_ones_dropped() {
    assert_eq!(parse_tags("rock, pop,,jazz "), vec!["rock", "pop", "jazz"]);
    assert_eq!(parse_tags(""), Vec::<String>::new());
    assert_eq!(parse_tags(" , ,"), Vec::<String>::new());
    assert_eq!(parse_tags("news"), vec!["news"]);
}

#[test]
fn station_record_maps_to_station() {
    let rb = RbStation {
        stationuuid: "u-1".to_string(),
        name: "Radio One".to_string(),
        url_resolved: "http://stream.example/one".to_string(),
        codec: "MP3".to_string(),
        bitrate: 128,
        countrycode: "DE".to_string(),
        tags: "pop,  rock".to_string(),
        favicon: "http://example/icon.png".to_string(),
    };
    let st = map_station(rb);
    assert_eq!(st.id, "u-1");
    assert_eq!(st.name, "Radio One");
    assert_eq!(st.url, "http://stream.example/one");
    assert_eq!(st.codec, "MP3");
    assert_eq!(st.bitrate, 128);
    assert_eq!(st.country, "DE");
    assert_eq!(st.tags, vec!["pop", "rock"]);
    assert_eq!(st.favicon, "http://example/icon.png");
}

#[test]
fn search_request_has_filters_in_order() {
    let r = search_request("https://api", "jazz", Some("FR"), Some("smooth"), 40);
    assert_eq!(r.url, "https://api/stations/search");
    assert_eq!(
        pairs(&r.query),
        vec![
            ("name", "jazz"),
            ("limit", "40"),
            ("order", "clickcount"),
            ("reverse", "true"),
            ("hidebroken", "true"),
            ("countrycode", "FR"),
            ("tag", "smooth"),
        ]
    );
    let r = search_request("https://api", "", None, None, 7);
    assert_eq!(
        pairs(&r.query),
        vec![
            ("name", ""),
            ("limit", "7"),
            ("order", "clickcount"),
            ("reverse", "true"),
            ("hidebroken", "true"),
        ]
    );
}

#[test]
fn listing_requests() {
    let r = top_request("https://api", 25);
    assert_eq!(r.url, "https://api/stations/topclick/25");
    assert_eq!(pairs(&r.query), vec![("hidebroken", "true")]);

    let r = tags_request("https://api", 200);
    assert_eq!(r.url, "https://api/tags");
    assert_eq!(
        pairs(&r.query),
        vec![("order", "stationcount"), ("reverse", "true"), ("limit", "200")]
    );

    let r = countries_request("https://api");
    assert_eq!(r.url, "https://api/countries");
    assert_eq!(pairs(&r.query), vec![("order", "stationcount"), ("reverse", "true")]);

    let r = stations_by_country_request("https://api", "NL", 40);
    assert_eq!(r.url, "https://api/stations/bycountrycodeexact/NL");
    assert_eq!(
        pairs(&r.query),
        vec![("limit", "40"), ("order", "clickcount"), ("reverse", "true"), ("hidebroken", "true")]
    );
}

#[test]
fn tag_is_url_encoded_in_path() {
    let r = stations_by_tag_request("https://api", "drum & bass", 10);
    assert_eq!(r.url, "https://api/stations/bytag/drum%20%26%20bass");
    assert_eq!(
        pairs(&r.query),
        vec![("limit", "10"), ("order", "clickcount"), ("reverse", "true"), ("hidebroken", "true")]
    );
    let r = stations_by_tag_request("b", "a-z_0.9~", 1);
    assert_eq!(r.url, "b/stations/bytag/a-z_0.9~");
    let r = stations_by_tag_request("b", "é/", 1);
    assert_eq!(r.url, "b/stations/bytag/%C3%A9%2F");
}

#[test]
fn base_url_choice() {
    assert_eq!(choose_base_url("https://mine/json", Some("1.2.3.4")), "https://mine/json");
    assert_eq!(choose_base_url("", Some("1.2.3.4")), "https://1.2.3.4/json");
    assert_eq!(choose_base_url("", None), "https://de1.api.radio-browser.info/json");
}
