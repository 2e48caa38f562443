//! The cache over the catalogue: when a stored artist is served as it is,
//! when it is loaded anew, and which error a caller is given.

use crate::db::{ArtistInfo, StorageError, TrackInfo};
use crate::deezer::{page_pairs, ApiErrCode, ApiRequest, Deezer, Error};
use crate::loading::{enroll, starts, subscribers, Delivery, Loading, LoadingGuard, Outcome};
use crate::time::{fresh_at, is_fresh, TimeDelta, Timestamp};
use vstd::prelude::*;
use vstd::std_specs::hash::*;

verus! {

/// Why a refresh of the cache failed, as every caller that waited for it is
/// told.
#[derive(Clone, Copy, Debug, PartialEq, Eq, Structural)]
pub enum CacheUpdateError {
    /// The catalogue answered with an error code.
    ApiError(ApiErrCode),
    /// Anything else went wrong. Which step it was is not passed on.
    InternalError,
}

/// Why an artist or its tracks could not be had.
#[derive(Clone, Copy, Debug, PartialEq, Eq, Structural)]
pub enum RetrievalError {
    /// A refresh failed for a reason of its own. Only a caller that waited
    /// for a refresh is given this.
    CacheUpdateInternalError,
    /// The catalogue answered with an error code.
    ApiError(ApiErrCode),
    /// The store could not be read, before any refresh was started or
    /// joined: when the record of the artist was looked up, or when the
    /// tracks were read after a hit.
    DbError,
}

impl RetrievalError {
    /// What the error of a refresh is to the caller that asked.
    pub open spec fn of(err: CacheUpdateError) -> RetrievalError {
        match err {
            CacheUpdateError::ApiError(code) => RetrievalError::ApiError(code),
            CacheUpdateError::InternalError => RetrievalError::CacheUpdateInternalError,
        }
    }
}

impl From<CacheUpdateError> for RetrievalError {
    fn from(err: CacheUpdateError) -> (r: Self) {
        match err {
            CacheUpdateError::ApiError(code) => RetrievalError::ApiError(code),
            CacheUpdateError::InternalError => RetrievalError::CacheUpdateInternalError,
        }
    }
}

impl vstd::std_specs::convert::FromSpecImpl<CacheUpdateError> for RetrievalError {
    open spec fn obeys_from_spec() -> bool {
        true
    }

    open spec fn from_spec(err: CacheUpdateError) -> Self {
        RetrievalError::of(err)
    }
}

impl CacheUpdateError {
    /// What a failed request to the catalogue makes of a refresh: an error
    /// code is passed on, anything else is an internal error.
    pub open spec fn of(value: Error) -> CacheUpdateError {
        match value {
            Error::ApiError(code) => CacheUpdateError::ApiError(code),
            _ => CacheUpdateError::InternalError,
        }
    }
}

/// The error of a refresh in which a step failed that was no request to
/// the catalogue.
pub fn to_internal_error() -> (r: CacheUpdateError)
    ensures
        r == CacheUpdateError::InternalError,
{
    CacheUpdateError::InternalError
}

impl From<Error> for CacheUpdateError {
    fn from(value: Error) -> (r: Self) {
        match value {
            Error::ApiError(code) => CacheUpdateError::ApiError(code),
            _ => to_internal_error(),
        }
    }
}

impl vstd::std_specs::convert::FromSpecImpl<Error> for CacheUpdateError {
    open spec fn obeys_from_spec() -> bool {
        true
    }

    open spec fn from_spec(value: Error) -> Self {
        CacheUpdateError::of(value)
    }
}

/// What a refresh delivers: the artist, and the tracks where the refresh
/// has just stored them.
pub type Refreshed = (ArtistInfo, Option<Vec<TrackInfo>>);

/// What a caller that asked for an artist does next.
#[derive(Debug, PartialEq, Eq)]
pub enum CacheStep {
    /// There is an answer at once: the stored record, which is fresh, with
    /// no tracks beside it, or `RetrievalError::DbError` of a store that
    /// could not be read.
    Done(Result<Refreshed, RetrievalError>),
    /// The caller waits for a refresh of the artist. Where a guard comes
    /// with it, no refresh was under way, and the caller starts one and
    /// ends it through the guard.
    Wait(Option<LoadingGuard<u32>>),
}

/// Whether the stored record answers a request at `now`: it does where it
/// is there and fresh.
pub open spec fn cache_hit(stored: Option<ArtistInfo>, ttl: int, now: Timestamp) -> bool {
    stored matches Some(artist) && fresh_at(artist.updated_at, ttl, now)
}

/// What those who waited for a refresh take from its outcome: what the
/// refresh delivered, or its error as a caller sees it, or the internal
/// error where the refresh was given up.
pub open spec fn settled(outcome: Outcome<Result<Refreshed, CacheUpdateError>>) -> Result<
    Refreshed,
    RetrievalError,
> {
    match outcome {
        Outcome::Completed(Ok(refreshed)) => Ok(refreshed),
        Outcome::Completed(Err(e)) => Err(RetrievalError::of(e)),
        Outcome::Aborted => Err(RetrievalError::CacheUpdateInternalError),
    }
}

/// Represents the internal state of the quiz: the refreshes under way, how
/// long a record stays fresh, and the client of the catalogue. A `W` is
/// what a caller leaves behind to be told of a refresh.
pub struct QuizState<W> {
    loading: Loading<u32, W>,
    cache_duration: TimeDelta,
    deezer: Deezer,
}

impl<W> QuizState<W> {
    /// The refreshes under way, each with those who wait for it.
    pub closed spec fn loads(&self) -> Map<u32, Seq<W>> {
        self.loading@
    }

    /// How long a record stays fresh, in seconds.
    pub closed spec fn ttl(&self) -> int {
        self.cache_duration@
    }

    /// The client of the catalogue.
    pub closed spec fn client(&self) -> Deezer {
        self.deezer
    }

    /// Creates a new quiz whose records stay fresh for `cache_duration`.
    pub fn new(cache_duration: TimeDelta) -> (r: Self)
        ensures
            r.loads() == Map::<u32, Seq<W>>::empty(),
            r.ttl() == cache_duration@,
            r.client().base@ == "https://api.deezer.com"@,
    {
        QuizState { loading: Loading::new(), cache_duration, deezer: Deezer::new() }
    }

    /// Decides how a request for `artist` is served, given what the store
    /// holds of the artist, `stored`, and the time, `now`.
    ///
    /// A record that is there and fresh is the answer as it stands: no
    /// refresh is started or joined, so nothing is asked of the catalogue.
    /// A store that could not be read is the error of the store, with
    /// nothing started or joined either. Otherwise the
    /// caller joins the refresh of the artist, with `waiter` to be told of
    /// its outcome, and starts it where none is under way.
    pub fn update_cache_if_needed(
        &mut self,
        artist: u32,
        stored: Result<Option<ArtistInfo>, StorageError>,
        now: Timestamp,
        waiter: W,
    ) -> (r: CacheStep)
        ensures
            final(self).ttl() == old(self).ttl(),
            final(self).client() == old(self).client(),
            match stored {
                Err(_) => {
                    &&& r == CacheStep::Done(Err(RetrievalError::DbError))
                    &&& final(self).loads() == old(self).loads()
                },
                Ok(found) => if cache_hit(found, old(self).ttl(), now) {
                    &&& r == CacheStep::Done(Ok((found->0, None)))
                    &&& final(self).loads() == old(self).loads()
                } else {
                    &&& r matches CacheStep::Wait(guard)
                    &&& final(self).loads() == enroll(old(self).loads(), artist, waiter)
                    &&& guard is Some <==> starts(old(self).loads(), artist)
                    &&& guard matches Some(g) ==> g.id() == artist && g.armed()
                },
            },
    {
        broadcast use group_hash_axioms;

        match stored {
            Err(_) => CacheStep::Done(Err(RetrievalError::DbError)),
            Ok(found) => {
                let hit: Option<ArtistInfo> = match found {
                    Some(record) => {
                        if is_fresh(record.updated_at, self.cache_duration, now) {
                            Some(record)
                        } else {
                            None
                        }
                    },
                    None => None,
                };
                match hit {
                    Some(record) => CacheStep::Done(Ok((record, None))),
                    None => CacheStep::Wait(self.loading.run(artist, waiter)),
                }
            },
        }
    }

    /// Ends the refresh that `guard` stands for: its entry leaves the
    /// registry, and all who waited for it are to be told the one outcome,
    /// which is `result`, or that the refresh was given up where there is
    /// none.
    pub fn finish(
        &mut self,
        guard: LoadingGuard<u32>,
        result: Option<Result<Refreshed, CacheUpdateError>>,
    ) -> (r: Delivery<W, Result<Refreshed, CacheUpdateError>>)
        ensures
            final(self).ttl() == old(self).ttl(),
            final(self).client() == old(self).client(),
            guard.armed() ==> final(self).loads() == old(self).loads().remove(guard.id()),
            !guard.armed() ==> final(self).loads() == old(self).loads(),
            r.outcome == (match result {
                Some(value) => Outcome::Completed(value),
                None => Outcome::Aborted,
            }),
            r.subscribers@ == (if guard.armed() {
                subscribers(old(self).loads(), guard.id())
            } else {
                Seq::empty()
            }),
    {
        broadcast use group_hash_axioms;

        match result {
            Some(value) => guard.resolve(&mut self.loading, value),
            None => guard.abandon(&mut self.loading),
        }
    }

    /// What a caller that waited makes of the outcome it was told.
    pub fn settle(outcome: Outcome<Result<Refreshed, CacheUpdateError>>) -> (r: Result<
        Refreshed,
        RetrievalError,
    >)
        ensures
            r == settled(outcome),
    {
        match outcome {
            Outcome::Completed(Ok(refreshed)) => Ok(refreshed),
            Outcome::Completed(Err(e)) => Err(RetrievalError::from(e)),
            Outcome::Aborted => Err(RetrievalError::from(to_internal_error())),
        }
    }

    /// Retrieves the artist from what the cache answered, at once or after
    /// a refresh: the artist of a hit or of a refresh, or the error as it
    /// stands. So a store that could not be read when the artist was looked
    /// up is `RetrievalError::DbError`, and the error of a refresh is what
    /// `settle` made of it.
    pub fn get_artist(answer: Result<Refreshed, RetrievalError>) -> (r: Result<
        ArtistInfo,
        RetrievalError,
    >)
        ensures
            r == (match answer {
                Ok((artist, _)) => Ok::<ArtistInfo, RetrievalError>(artist),
                Err(e) => Err(e),
            }),
    {
        match answer {
            Ok((artist, _)) => Ok(artist),
            Err(e) => Err(e),
        }
    }

    /// Retrieves the tracks from what the cache answered, at once or after
    /// a refresh. A refresh hands its tracks on, and they are the result.
    /// After a hit there are none at hand: the result is `Ok(None)`, and
    /// the caller reads the tracks from the store and hands what came of
    /// it to `tracks_from_store`. An error is passed on as it stands.
    pub fn get_artist_tracks(answer: Result<Refreshed, RetrievalError>) -> (r: Result<
        Option<Vec<TrackInfo>>,
        RetrievalError,
    >)
        ensures
            r == (match answer {
                Ok((_, tracks)) => Ok::<Option<Vec<TrackInfo>>, RetrievalError>(tracks),
                Err(e) => Err(e),
            }),
    {
        match answer {
            Ok((_, tracks)) => Ok(tracks),
            Err(e) => Err(e),
        }
    }

    /// The tracks that were read from the store after a hit, or the error
    /// of a store that could not be read.
    pub fn tracks_from_store(read: Result<Vec<TrackInfo>, StorageError>) -> (r: Result<
        Vec<TrackInfo>,
        RetrievalError,
    >)
        ensures
            r == (match read {
                Ok(tracks) => Ok::<Vec<TrackInfo>, RetrievalError>(tracks),
                Err(_) => Err(RetrievalError::DbError),
            }),
    {
        match read {
            Ok(tracks) => Ok(tracks),
            Err(_) => Err(RetrievalError::DbError),
        }
    }

    /// Searches for artists with names matching the given query using the Deezer API.
    /// The search goes past the cache: this is the request to send.
    pub fn search_artists(&self, q: &str, index: u32, limit: u32) -> (r: ApiRequest)
        ensures
            r.segments() == seq!["search"@, "artist"@],
            r.pairs() == seq![("q"@, q@)] + page_pairs(index, limit),
    {
        self.deezer.search_artist(q, index, limit)
    }
}

} // verus!
