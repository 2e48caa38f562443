use music_quiz::db::{ArtistInfo, StorageError, TrackInfo};
use music_quiz::deezer::{ApiErrCode, Error};
use music_quiz::loading::Outcome;
use music_quiz::state::{
    to_internal_error, CacheStep, CacheUpdateError, QuizState, RetrievalError,
};
use music_quiz::time::{TimeDelta, Timestamp};

const TTL_SECONDS: i64 = 600;

fn quiz() -> QuizState<u8> {
    QuizState::new(TimeDelta::try_seconds(TTL_SECONDS).unwrap())
}

fn record(id: i64, updated_at: Timestamp) -> ArtistInfo {
    ArtistInfo { id, title: "Mili".to_string(), icon_url: "icon".to_string(), updated_at }
}

fn track(id: i64) -> TrackInfo {
    TrackInfo {
        id,
        album_title: "album".to_string(),
        album_cover_url: "cover".to_string(),
        album_id: 1,
        title: format!("track {id}"),
        preview_url: "preview".to_string(),
    }
}

fn at(secs: i64) -> Timestamp {
    Timestamp { secs, nanos: 0 }
}

#[test]
fn two_callers_at_once_make_one_refresh_and_get_the_same_artist() {
    let mut quiz = quiz();
    let now = at(10_000);
    // Nothing is stored of the artist and no refresh is under way.
    let first = quiz.update_cache_if_needed(42, Ok(None), now, 1);
    let second = quiz.update_cache_if_needed(42, Ok(None), now, 2);
    let guard = match (first, second) {
        (CacheStep::Wait(Some(guard)), CacheStep::Wait(None)) => guard,
        other => panic!("expected one refresh, got {other:?}"),
    };
    let fetched = record(42, now);
    let delivery = quiz.finish(guard, Some(Ok((fetched.clone(), Some(vec![track(1)])))));
    assert_eq!(delivery.subscribers, vec![1, 2]);
    let told = QuizState::<u8>::settle(delivery.outcome);
    let one = QuizState::<u8>::get_artist(told.clone()).unwrap();
    let two = QuizState::<u8>::get_artist(told).unwrap();
    assert_eq!(one, two);
    assert_eq!((one.title, one.icon_url, one.updated_at), ("Mili".to_string(), "icon".to_string(), now));
}

#[test]
fn a_record_older_than_the_time_to_live_is_refreshed() {
    let mut quiz = quiz();
    let now = at(10_000);
    let stored = record(42, at(10_000 - TTL_SECONDS - 1));
    match quiz.update_cache_if_needed(42, Ok(Some(stored)), now, 1) {
        CacheStep::Wait(Some(_)) => {}
        other => panic!("expected a refresh, got {other:?}"),
    }
}

#[test]
fn a_record_within_the_time_to_live_is_served_as_it_is() {
    let mut quiz = quiz();
    let now = at(10_000);
    let stored = record(42, at(10_000 - TTL_SECONDS + 1));
    let step = quiz.update_cache_if_needed(42, Ok(Some(stored.clone())), now, 1);
    assert_eq!(step, CacheStep::Done(Ok((stored, None))));
    // Nothing was registered: the next caller that misses starts the refresh.
    match quiz.update_cache_if_needed(42, Ok(None), now, 2) {
        CacheStep::Wait(Some(_)) => {}
        other => panic!("expected a refresh, got {other:?}"),
    }
}

#[test]
fn a_record_is_stale_at_the_very_end_of_its_time_to_live() {
    let mut quiz = quiz();
    let stored = record(42, at(10_000 - TTL_SECONDS));
    match quiz.update_cache_if_needed(42, Ok(Some(stored)), at(10_000), 1) {
        CacheStep::Wait(Some(_)) => {}
        other => panic!("expected a refresh, got {other:?}"),
    }
    let stored = record(43, Timestamp { secs: 10_000 - TTL_SECONDS, nanos: 1 });
    match quiz.update_cache_if_needed(43, Ok(Some(stored.clone())), at(10_000), 1) {
        CacheStep::Done(Ok((served, None))) => assert_eq!(served, stored),
        other => panic!("expected a hit, got {other:?}"),
    }
}

#[test]
fn a_hit_while_a_refresh_is_under_way_does_not_join_it() {
    let mut quiz = quiz();
    let now = at(10_000);
    let guard = match quiz.update_cache_if_needed(42, Ok(None), now, 1) {
        CacheStep::Wait(Some(guard)) => guard,
        other => panic!("expected a refresh, got {other:?}"),
    };
    let stored = record(42, now);
    let step = quiz.update_cache_if_needed(42, Ok(Some(stored.clone())), now, 2);
    assert_eq!(step, CacheStep::Done(Ok((stored, None))));
    let delivery = quiz.finish(guard, None);
    assert_eq!(delivery.subscribers, vec![1]);
}

#[test]
fn a_store_that_cannot_be_read_is_the_error_of_the_store() {
    let mut quiz = quiz();
    let step = quiz.update_cache_if_needed(42, Err(StorageError), at(0), 1);
    assert_eq!(step, CacheStep::Done(Err(RetrievalError::DbError)));
    let answer = match step {
        CacheStep::Done(answer) => answer,
        CacheStep::Wait(_) => panic!("expected an answer at once"),
    };
    assert_eq!(QuizState::<u8>::get_artist(answer.clone()), Err(RetrievalError::DbError));
    assert_eq!(QuizState::<u8>::get_artist_tracks(answer), Err(RetrievalError::DbError));
    // Nothing was registered: the next caller that misses starts the refresh.
    match quiz.update_cache_if_needed(42, Ok(None), at(0), 2) {
        CacheStep::Wait(Some(_)) => {}
        other => panic!("expected a refresh, got {other:?}"),
    }
}

#[test]
fn a_store_that_cannot_be_read_joins_no_refresh_under_way() {
    let mut quiz = quiz();
    let guard = match quiz.update_cache_if_needed(42, Ok(None), at(0), 1) {
        CacheStep::Wait(Some(guard)) => guard,
        other => panic!("expected a refresh, got {other:?}"),
    };
    let step = quiz.update_cache_if_needed(42, Err(StorageError), at(0), 2);
    assert_eq!(step, CacheStep::Done(Err(RetrievalError::DbError)));
    assert_eq!(quiz.finish(guard, None).subscribers, vec![1]);
}

#[test]
fn a_failed_refresh_is_told_to_all_and_the_next_call_tries_again() {
    let mut quiz = quiz();
    let guard = match quiz.update_cache_if_needed(42, Ok(None), at(0), 1) {
        CacheStep::Wait(Some(guard)) => guard,
        other => panic!("expected a refresh, got {other:?}"),
    };
    assert_eq!(quiz.update_cache_if_needed(42, Ok(None), at(0), 2), CacheStep::Wait(None));
    assert_eq!(quiz.update_cache_if_needed(42, Ok(None), at(0), 3), CacheStep::Wait(None));
    let failure = CacheUpdateError::ApiError(ApiErrCode::DataNotFound);
    let delivery = quiz.finish(guard, Some(Err(failure)));
    assert_eq!(delivery.subscribers, vec![1, 2, 3]);
    assert_eq!(
        QuizState::<u8>::get_artist(QuizState::<u8>::settle(delivery.outcome)),
        Err(RetrievalError::ApiError(ApiErrCode::DataNotFound))
    );
    match quiz.update_cache_if_needed(42, Ok(None), at(0), 4) {
        CacheStep::Wait(Some(_)) => {}
        other => panic!("expected a new refresh, got {other:?}"),
    }
}

#[test]
fn a_refresh_that_was_given_up_is_an_internal_error_to_all() {
    let mut quiz = quiz();
    let guard = match quiz.update_cache_if_needed(42, Ok(None), at(0), 1) {
        CacheStep::Wait(Some(guard)) => guard,
        other => panic!("expected a refresh, got {other:?}"),
    };
    let delivery = quiz.finish(guard, None);
    assert_eq!(delivery.outcome, Outcome::Aborted);
    let told = QuizState::<u8>::settle(delivery.outcome);
    assert_eq!(told, Err(RetrievalError::CacheUpdateInternalError));
    assert_eq!(QuizState::<u8>::get_artist(told), Err(RetrievalError::CacheUpdateInternalError));
}

#[test]
fn the_artist_is_taken_from_a_hit_and_from_a_refresh() {
    let hit = Ok((record(1, at(5)), None));
    assert_eq!(QuizState::<u8>::get_artist(hit), Ok(record(1, at(5))));
    let refreshed = Ok((record(1, at(5)), Some(vec![track(1)])));
    assert_eq!(QuizState::<u8>::get_artist(refreshed), Ok(record(1, at(5))));
    assert_eq!(
        QuizState::<u8>::get_artist(Err(RetrievalError::CacheUpdateInternalError)),
        Err(RetrievalError::CacheUpdateInternalError)
    );
    assert_eq!(
        QuizState::<u8>::get_artist(Err(RetrievalError::DbError)),
        Err(RetrievalError::DbError)
    );
}

#[test]
fn the_tracks_of_a_refresh_are_used_and_those_of_a_hit_are_read() {
    let refreshed = Ok((record(1, at(5)), Some(vec![track(1), track(2)])));
    assert_eq!(
        QuizState::<u8>::get_artist_tracks(refreshed),
        Ok(Some(vec![track(1), track(2)]))
    );
    let hit = Ok((record(1, at(5)), None));
    assert_eq!(QuizState::<u8>::get_artist_tracks(hit), Ok(None));
    assert_eq!(
        QuizState::<u8>::get_artist_tracks(Err(RetrievalError::ApiError(ApiErrCode::Quota))),
        Err(RetrievalError::ApiError(ApiErrCode::Quota))
    );
    assert_eq!(QuizState::<u8>::tracks_from_store(Ok(vec![track(3)])), Ok(vec![track(3)]));
    assert_eq!(
        QuizState::<u8>::tracks_from_store(Err(StorageError)),
        Err(RetrievalError::DbError)
    );
}

#[test]
fn the_outcome_of_a_refresh_is_told_as_a_caller_sees_it() {
    let refreshed = (record(1, at(5)), Some(vec![track(1)]));
    assert_eq!(
        QuizState::<u8>::settle(Outcome::Completed(Ok(refreshed.clone()))),
        Ok(refreshed)
    );
    assert_eq!(
        QuizState::<u8>::settle(Outcome::Completed(Err(CacheUpdateError::InternalError))),
        Err(RetrievalError::CacheUpdateInternalError)
    );
    assert_eq!(
        QuizState::<u8>::settle(Outcome::Completed(Err(CacheUpdateError::ApiError(
            ApiErrCode::ServiceBusy
        )))),
        Err(RetrievalError::ApiError(ApiErrCode::ServiceBusy))
    );
    assert_eq!(
        QuizState::<u8>::settle(Outcome::Aborted),
        Err(RetrievalError::CacheUpdateInternalError)
    );
}

#[test]
fn errors_are_passed_on_by_their_kind() {
    assert_eq!(to_internal_error(), CacheUpdateError::InternalError);
    assert_eq!(
        CacheUpdateError::from(Error::ApiError(ApiErrCode::Quota)),
        CacheUpdateError::ApiError(ApiErrCode::Quota)
    );
    assert_eq!(CacheUpdateError::from(Error::ReqwestError), CacheUpdateError::InternalError);
    assert_eq!(CacheUpdateError::from(Error::UrlParseError), CacheUpdateError::InternalError);
    assert_eq!(
        RetrievalError::from(CacheUpdateError::ApiError(ApiErrCode::Other)),
        RetrievalError::ApiError(ApiErrCode::Other)
    );
    assert_eq!(
        RetrievalError::from(CacheUpdateError::InternalError),
        RetrievalError::CacheUpdateInternalError
    );
}

#[test]
fn a_search_goes_past_the_cache() {
    let quiz = quiz();
    let request = quiz.search_artists("Mili", 0, 10);
    assert_eq!(request.path, vec!["search".to_string(), "artist".to_string()]);
    let pairs: Vec<(&str, &str)> =
        request.params.iter().map(|p| (p.0.as_str(), p.1.as_str())).collect();
    assert_eq!(pairs, vec![("q", "Mili"), ("index", "0"), ("limit", "10")]);
}
