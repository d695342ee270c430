//! Decisions of the REST API: request parameters with their defaults and
//! the status code and message of each refusal.  Routing and JSON are done
//! by the application.

use vstd::prelude::*;

use crate::state::CreatePlayerError;
use crate::text::{dec_chars, dec_string, push_str};

verus! {

/// The version reported by the health endpoint.
pub const SERVICE_VERSION: &'static str = "2.0.0";

/// Number of tags the tag listing asks for.
pub const TAG_LISTING_LIMIT: usize = 200;

/// The result limit when a request gives none.
pub fn default_limit() -> (n: usize)
    ensures
        n == 40,
{
    40
}

/// Query of `GET /stations/search`.
pub struct SearchQuery {
    pub q: Option<String>,
    pub country: Option<String>,
    pub tag: Option<String>,
    pub limit: usize,
}

/// Query of `GET /stations/top`.
pub struct TopQuery {
    pub limit: usize,
}

/// Query of `GET /stations/by-tag`.
pub struct TagQuery {
    pub tag: String,
    pub limit: usize,
}

/// Query of `GET /stations/by-country`.
pub struct CountryQuery {
    pub country: String,
    pub limit: usize,
}

impl SearchQuery {
    /// The search text; empty when none was given.
    pub fn text(&self) -> (t: &str)
        ensures
            t@ == match self.q {
                Some(q) => q@,
                None => Seq::<char>::empty(),
            },
    {
        match &self.q {
            Some(q) => q.as_str(),
            None => {
                proof {
                    reveal_strlit("");
                }
                ""
            },
        }
    }
}

/// A failure answered with status 500 and `{"error": message}`.
pub struct AppError {
    pub message: String,
}

impl AppError {
    /// An error with this message.
    pub fn new(message: String) -> (e: Self)
        ensures
            e.message == message,
    {
        AppError { message }
    }

    /// The HTTP status of every `AppError`.
    pub fn status_code(&self) -> (s: u16)
        ensures
            s == 500,
    {
        500
    }
}

/// The refusal of a station request made before the directory client is
/// ready.
pub fn client_initializing() -> (e: AppError)
    ensures
        e.message@ == "RadioBrowser client is initializing, retry shortly"@,
{
    let mut m = String::new();
    push_str(&mut m, "RadioBrowser client is initializing, retry shortly");
    AppError { message: m }
}

/// A refusal of a player or favourite request.
#[derive(PartialEq, Eq, Structural, Debug, Clone, Copy)]
pub enum ApiError {
    /// Starting a player was refused.
    Create(CreatePlayerError),
    /// The slot has no output sender.
    SlotSenderMissing,
    /// No player has the requested id.
    PlayerNotFound,
    /// No player has the id whose gain was to be set.
    GainTargetNotFound,
    /// The station is a favourite already.
    FavouriteExists,
    /// No favourite has the requested id.
    FavouriteNotFound,
}

/// The HTTP status of a refusal.
pub open spec fn api_status(e: ApiError) -> u16 {
    match e {
        ApiError::Create(CreatePlayerError::UrlRequired) => 400,
        ApiError::Create(CreatePlayerError::SlotOutOfRange { .. }) => 400,
        ApiError::Create(CreatePlayerError::AllSlotsInUse) => 409,
        ApiError::SlotSenderMissing => 500,
        ApiError::PlayerNotFound => 404,
        ApiError::GainTargetNotFound => 404,
        ApiError::FavouriteExists => 409,
        ApiError::FavouriteNotFound => 404,
    }
}

/// The message of a refusal.
pub open spec fn api_message(e: ApiError) -> Seq<char> {
    match e {
        ApiError::Create(CreatePlayerError::UrlRequired) => "url is required"@,
        ApiError::Create(CreatePlayerError::SlotOutOfRange { max }) => "slot must be 1–"@
            + dec_chars(max as nat),
        ApiError::Create(CreatePlayerError::AllSlotsInUse) => "all player slots are in use"@,
        ApiError::SlotSenderMissing => "slot sender not configured"@,
        ApiError::PlayerNotFound => "player not found"@,
        ApiError::GainTargetNotFound => "not found"@,
        ApiError::FavouriteExists => "already in favourites"@,
        ApiError::FavouriteNotFound => "favourite not found"@,
    }
}

impl ApiError {
    /// The HTTP status code.
    pub fn status_code(&self) -> (s: u16)
        ensures
            s == api_status(*self),
    {
        match self {
            ApiError::Create(CreatePlayerError::UrlRequired) => 400,
            ApiError::Create(CreatePlayerError::SlotOutOfRange { .. }) => 400,
            ApiError::Create(CreatePlayerError::AllSlotsInUse) => 409,
            ApiError::SlotSenderMissing => 500,
            ApiError::PlayerNotFound => 404,
            ApiError::GainTargetNotFound => 404,
            ApiError::FavouriteExists => 409,
            ApiError::FavouriteNotFound => 404,
        }
    }

    /// The message put under `"error"`.
    pub fn message(&self) -> (m: String)
        ensures
            m@ == api_message(*self),
    {
        let mut m = String::new();
        match self {
            ApiError::Create(CreatePlayerError::UrlRequired) => push_str(&mut m, "url is required"),
            ApiError::Create(CreatePlayerError::SlotOutOfRange { max }) => {
                push_str(&mut m, "slot must be 1–");
                let d = dec_string(*max as u64);
                push_str(&mut m, d.as_str());
            },
            ApiError::Create(CreatePlayerError::AllSlotsInUse) => push_str(
                &mut m,
                "all player slots are in use",
            ),
            ApiError::SlotSenderMissing => push_str(&mut m, "slot sender not configured"),
            ApiError::PlayerNotFound => push_str(&mut m, "player not found"),
            ApiError::GainTargetNotFound => push_str(&mut m, "not found"),
            ApiError::FavouriteExists => push_str(&mut m, "already in favourites"),
            ApiError::FavouriteNotFound => push_str(&mut m, "favourite not found"),
        }
        m
    }
}

/// The interval between VU batches for `vu_fps` batches per second (at
/// least one per second).
pub fn vu_interval_ms(vu_fps: u32) -> (ms: u64)
    ensures
        ms == 1000nat / (if vu_fps < 1 { 1nat } else { vu_fps as nat }),
{
    let fps: u32 = if vu_fps < 1 {
        1
    } else {
        vu_fps
    };
    1000 / (fps as u64)
}

} // verus!
