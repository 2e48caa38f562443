//! What the pages of the quiz decide before anything is rendered: which
//! error a visitor is shown, under which status, and the numbers that go
//! into the headers of an answer.

use crate::deezer::{page_pairs, ApiErrCode, ApiRequest, Deezer, Error};
use crate::state::RetrievalError;
use crate::time::{TimeDelta, Timestamp, NANOS_PER_SECOND};
use vstd::prelude::*;

verus! {

/// How long a page waits for a refresh before it says that the artist is
/// still being loaded, in seconds.
pub const LOAD_TIMEOUT_SECONDS: u64 = 5;

/// How many artists a search asks for.
pub const SEARCH_LIMIT: u32 = 10;

/// The status of a request that could not be read.
pub const STATUS_BAD_REQUEST: u16 = 400;

pub const STATUS_NOT_FOUND: u16 = 404;

pub const STATUS_INTERNAL_SERVER_ERROR: u16 = 500;

pub const STATUS_SERVICE_UNAVAILABLE: u16 = 503;

/// Why a page could not be served.
#[derive(Clone, Copy, Debug, PartialEq, Eq, Structural)]
pub enum QuizError {
    Deezer(Error),
    DbError,
    UnknownError,
    /// The refresh that the page waited for took too long. It goes on.
    Timeout,
}

impl QuizError {
    /// What a failed retrieval is to a page.
    pub open spec fn of(value: RetrievalError) -> QuizError {
        match value {
            RetrievalError::CacheUpdateInternalError => QuizError::UnknownError,
            RetrievalError::ApiError(code) => QuizError::Deezer(Error::ApiError(code)),
            RetrievalError::DbError => QuizError::DbError,
        }
    }

    /// The page that tells of this error.
    pub open spec fn spec_page(self) -> ErrorPage {
        match self {
            QuizError::Deezer(Error::ApiError(ApiErrCode::DataNotFound)) => ErrorPage::NotFound,
            QuizError::Timeout => ErrorPage::Loading,
            _ => ErrorPage::Internal,
        }
    }

    /// The page that tells of this error: an artist that the catalogue does
    /// not know is not found, a refresh that takes too long is still
    /// loading, and everything else is an internal error.
    pub fn page(&self) -> (r: ErrorPage)
        ensures
            r == self.spec_page(),
    {
        match self {
            QuizError::Deezer(Error::ApiError(ApiErrCode::DataNotFound)) => ErrorPage::NotFound,
            QuizError::Timeout => ErrorPage::Loading,
            _ => ErrorPage::Internal,
        }
    }

    /// The status under which this error is answered.
    pub fn status_code(&self) -> (r: u16)
        ensures
            r == self.spec_page().spec_status(),
    {
        self.page().status()
    }
}

impl From<RetrievalError> for QuizError {
    fn from(value: RetrievalError) -> (r: Self) {
        match value {
            RetrievalError::CacheUpdateInternalError => QuizError::UnknownError,
            RetrievalError::ApiError(code) => QuizError::Deezer(Error::ApiError(code)),
            RetrievalError::DbError => QuizError::DbError,
        }
    }
}

impl vstd::std_specs::convert::FromSpecImpl<RetrievalError> for QuizError {
    open spec fn obeys_from_spec() -> bool {
        true
    }

    open spec fn from_spec(value: RetrievalError) -> Self {
        QuizError::of(value)
    }
}

/// The pages that tell a visitor of an error.
#[derive(Clone, Copy, Debug, PartialEq, Eq, Structural)]
pub enum ErrorPage {
    NotFound,
    Loading,
    Internal,
}

impl ErrorPage {
    pub open spec fn spec_status(self) -> u16 {
        match self {
            ErrorPage::NotFound => STATUS_NOT_FOUND,
            ErrorPage::Loading => STATUS_SERVICE_UNAVAILABLE,
            ErrorPage::Internal => STATUS_INTERNAL_SERVER_ERROR,
        }
    }

    /// The status under which the page is answered.
    pub fn status(&self) -> (r: u16)
        ensures
            r == self.spec_status(),
    {
        match self {
            ErrorPage::NotFound => STATUS_NOT_FOUND,
            ErrorPage::Loading => STATUS_SERVICE_UNAVAILABLE,
            ErrorPage::Internal => STATUS_INTERNAL_SERVER_ERROR,
        }
    }
}

/// Why the quiz could not be started.
#[derive(Clone, Copy, Debug, PartialEq, Eq, Structural)]
pub enum QuizInitError {
    DbError,
    IoError,
    ConfigError,
}

/// For how many seconds an answer may be kept by who received it: the time
/// for which a record stays fresh, where that is a number of seconds that a
/// `u32` holds, and the most that a `u32` holds otherwise.
pub fn cache_max_age(cache_duration: TimeDelta) -> (r: u32)
    ensures
        r == (if 0 <= cache_duration@ <= u32::MAX {
            cache_duration@ as u32
        } else {
            u32::MAX
        }),
{
    let seconds: i64 = cache_duration.num_seconds();
    if 0 <= seconds && seconds <= 0xffff_ffff {
        seconds as u32
    } else {
        u32::MAX
    }
}

/// The whole seconds from `now` to `updated_at`, rounded towards zero. Of a
/// record that was updated before `now` this is negative.
pub open spec fn age_of(updated_at: Timestamp, now: Timestamp) -> int {
    let nanos = updated_at.as_nanos() - now.as_nanos();
    if nanos >= 0 {
        nanos / (NANOS_PER_SECOND as int)
    } else {
        -((-nanos) / (NANOS_PER_SECOND as int))
    }
}

/// The number that a page of an artist gives as the age of its record.
/// The two instants are less than `i64::MAX` seconds apart.
pub fn age_seconds(updated_at: Timestamp, now: Timestamp) -> (r: i64)
    requires
        i64::MIN <= age_of(updated_at, now) <= i64::MAX,
    ensures
        r == age_of(updated_at, now),
{
    let nanos: i128 = updated_at.total_nanos() - now.total_nanos();
    if nanos >= 0 {
        (nanos / 1_000_000_000i128) as i64
    } else {
        let back: i128 = (-nanos) / 1_000_000_000i128;
        (-back) as i64
    }
}

/// What a search for `q` asks of the catalogue: the first artists that
/// match, or nothing where there is no query or an empty one.
pub fn search(client: &Deezer, q: Option<&str>) -> (r: Option<ApiRequest>)
    ensures
        match q {
            Some(text) if text@.len() > 0 => {
                &&& r matches Some(request)
                &&& request.segments() == seq!["search"@, "artist"@]
                &&& request.pairs() == seq![("q"@, text@)] + page_pairs(0, SEARCH_LIMIT)
            },
            _ => r is None,
        },
{
    match q {
        Some(text) => {
            if !text.is_empty() {
                Some(client.search_artist(text, 0, SEARCH_LIMIT))
            } else {
                None
            }
        },
        None => None,
    }
}

} // verus!
