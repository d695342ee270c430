use iradio_bridge::api::{
    client_initializing, default_limit, vu_interval_ms, ApiError, AppError, SearchQuery,
    SERVICE_VERSION, TAG_LISTING_LIMIT,
};
use iradio_bridge::state::CreatePlayerError;

#[test]
fn defaults() {
    assert_eq!(default_limit(), 40);
    assert_eq!(TAG_LISTING_LIMIT, 200);
    assert_eq!(SERVICE_VERSION, "2.0.0");
}

#[test]
fn search_text() {
    let q = SearchQuery { q: Some("jazz".to_string()), country: None, tag: None, limit: 40 };
    assert_eq!(q.text(), "jazz");
    let q = SearchQuery { q: None, country: None, tag: None, limit: 40 };
    assert_eq!(q.text(), "");
}

#[test]
fn app_errors_are_500() {
    let e = AppError::new("boom".to_string());
    assert_eq!(e.status_code(), 500);
    assert_eq!(e.message, "boom");
    let e = client_initializing();
    assert_eq!(e.message, "RadioBrowser client is initializing, retry shortly");
    assert_eq!(e.status_code(), 500);
}

#[test]
fn api_error_status_and_message() {
    let cases = [
        (ApiError::Create(CreatePlayerError::UrlRequired), 400, "url is required".to_string()),
        (ApiError::Create(CreatePlayerError::SlotOutOfRange { max: 4 }), 400, "slot must be 1–4".to_string()),
        (ApiError::Create(CreatePlayerError::AllSlotsInUse), 409, "all player slots are in use".to_string()),
        (ApiError::SlotSenderMissing, 500, "slot sender not configured".to_string()),
        (ApiError::PlayerNotFound, 404, "player not found".to_string()),
        (ApiError::GainTargetNotFound, 404, "not found".to_string()),
        (ApiError::FavouriteExists, 409, "already in favourites".to_string()),
        (ApiError::FavouriteNotFound, 404, "favourite not found".to_string()),
    ];
    for (e, status, msg) in cases {
        assert_eq!(e.status_code(), status);
        assert_eq!(e.message(), msg);
    }
}

#[test]
fn vu_interval() {
    assert_eq!(vu_interval_ms(20), 50);
    assert_eq!(vu_interval_ms(0), 1000);
    assert_eq!(vu_interval_ms(1), 1000);
    assert_eq!(vu_interval_ms(3), 333);
    assert_eq!(vu_interval_ms(2000), 0);
}
