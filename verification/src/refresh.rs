//! One refresh of an artist in the cache, as a machine of states. Each step
//! takes what the store or the catalogue answered and says what to do next;
//! the caller does it and comes back with the answer.

use crate::db::{AlbumInfo, ArtistInfo, TrackInfo};
use crate::deezer::{Album, Artist, Error, PaginatedResponse, Track, PAGE_LIMIT};
use crate::state::{CacheUpdateError, Refreshed};
use crate::time::Timestamp;
use vstd::prelude::*;

verus! {

/// Where a refresh stands.
#[derive(Clone, Copy, Debug, PartialEq, Eq, Structural)]
pub enum RefreshPhase {
    /// The transaction is being opened.
    Started,
    /// The artist's old row is being deleted.
    Clearing,
    FetchingArtist,
    PersistingArtist,
    FetchingAlbums,
    /// The tracks of the first album that is left are being fetched.
    FetchingAlbumTracks,
    /// The row of that album is being stored.
    PersistingAlbum,
    /// The row of the first track that is left of that album is being stored.
    PersistingTrack,
    Committing,
    Succeeded,
    Failed,
}

/// What came back from the step that the machine asked for.
#[derive(Debug, PartialEq, Eq)]
pub enum RefreshEvent {
    /// The store has done what was asked, or has failed to.
    Stored(bool),
    /// The catalogue's answer about the artist, and when it came.
    Artist(Result<Artist, Error>, Timestamp),
    /// The catalogue's answer about the artist's albums.
    Albums(Result<PaginatedResponse<Album>, Error>),
    /// The catalogue's answer about the tracks of an album.
    Tracks(Result<PaginatedResponse<Track>, Error>),
}

/// What the machine asks its caller to do. All storing happens in the one
/// transaction that `OpenTransaction` opens.
#[derive(Debug, PartialEq, Eq)]
pub enum RefreshAction {
    OpenTransaction,
    DeleteArtist(i64),
    FetchArtist(u32),
    InsertArtist(ArtistInfo),
    FetchAlbums { artist: u32, index: u32, limit: u32 },
    FetchTracks { album: u32, index: u32, limit: u32 },
    InsertAlbum(AlbumInfo),
    InsertTrack(TrackInfo),
    Commit,
    /// The refresh is done and its transaction committed.
    Succeed,
    /// The refresh has failed; its transaction is to be dropped.
    Fail(CacheUpdateError),
}

/// A refresh as the contracts see it.
#[verifier::ext_equal]
pub struct RefreshView {
    pub artist_id: u32,
    pub phase: RefreshPhase,
    /// The artist's new record, once the catalogue has sent it.
    pub artist: Option<ArtistInfo>,
    /// The albums that are not done with. The first is the one at work.
    pub albums: Seq<Album>,
    /// The tracks of the album at work that are not stored yet.
    pub found: Seq<Track>,
    /// The tracks that were stored, in the order in which they were.
    pub tracks: Seq<TrackInfo>,
    pub failure: Option<CacheUpdateError>,
}

impl RefreshView {
    /// A refresh of `artist_id` that has asked for its transaction.
    pub open spec fn start(artist_id: u32) -> RefreshView {
        RefreshView {
            artist_id,
            phase: RefreshPhase::Started,
            artist: None,
            albums: Seq::empty(),
            found: Seq::empty(),
            tracks: Seq::empty(),
            failure: None,
        }
    }

    /// An album is at work.
    pub open spec fn in_album(self) -> bool {
        ||| self.phase == RefreshPhase::FetchingAlbumTracks
        ||| self.phase == RefreshPhase::PersistingAlbum
        ||| self.phase == RefreshPhase::PersistingTrack
    }

    /// The artist's record has come.
    pub open spec fn past_artist(self) -> bool {
        ||| self.phase == RefreshPhase::PersistingArtist
        ||| self.phase == RefreshPhase::FetchingAlbums
        ||| self.in_album()
        ||| self.phase == RefreshPhase::Committing
        ||| self.phase == RefreshPhase::Succeeded
    }

    /// What holds of every refresh that `start` and `step` make.
    pub open spec fn wf(self) -> bool {
        &&& self.in_album() ==> self.albums.len() > 0
        &&& self.phase == RefreshPhase::PersistingTrack ==> self.found.len() > 0
        &&& self.phase == RefreshPhase::Failed <==> self.failure is Some
        &&& self.past_artist() ==> self.artist is Some
    }

    /// The refresh is over, one way or the other.
    pub open spec fn finished(self) -> bool {
        self.phase == RefreshPhase::Succeeded || self.phase == RefreshPhase::Failed
    }

    /// The refresh fails with `err`.
    pub open spec fn fail(self, err: CacheUpdateError) -> (RefreshView, RefreshAction) {
        (
            RefreshView { phase: RefreshPhase::Failed, failure: Some(err), ..self },
            RefreshAction::Fail(err),
        )
    }

    /// Turns to the first album that is left, or commits where none is.
    pub open spec fn next_album(self) -> (RefreshView, RefreshAction) {
        if self.albums.len() == 0 {
            (RefreshView { phase: RefreshPhase::Committing, ..self }, RefreshAction::Commit)
        } else {
            (
                RefreshView { phase: RefreshPhase::FetchingAlbumTracks, ..self },
                RefreshAction::FetchTracks { album: self.albums[0].id, index: 0, limit: PAGE_LIMIT },
            )
        }
    }

    /// Stores the first track that is left of the album at work, or leaves
    /// the album where none is.
    pub open spec fn next_track(self) -> (RefreshView, RefreshAction) {
        if self.found.len() == 0 {
            RefreshView { albums: self.albums.skip(1), ..self }.next_album()
        } else {
            (
                RefreshView { phase: RefreshPhase::PersistingTrack, ..self },
                RefreshAction::InsertTrack(TrackInfo::of(self.found[0], self.albums[0])),
            )
        }
    }

    /// The step that the store's success leads to.
    pub open spec fn stored(self) -> (RefreshView, RefreshAction) {
        match self.phase {
            RefreshPhase::Started => (
                RefreshView { phase: RefreshPhase::Clearing, ..self },
                RefreshAction::DeleteArtist(self.artist_id as i64),
            ),
            RefreshPhase::Clearing => (
                RefreshView { phase: RefreshPhase::FetchingArtist, ..self },
                RefreshAction::FetchArtist(self.artist_id),
            ),
            RefreshPhase::PersistingArtist => (
                RefreshView { phase: RefreshPhase::FetchingAlbums, ..self },
                RefreshAction::FetchAlbums { artist: self.artist_id, index: 0, limit: PAGE_LIMIT },
            ),
            RefreshPhase::PersistingAlbum => self.next_track(),
            RefreshPhase::PersistingTrack => RefreshView {
                tracks: self.tracks.push(TrackInfo::of(self.found[0], self.albums[0])),
                found: self.found.skip(1),
                ..self
            }.next_track(),
            RefreshPhase::Committing => (
                RefreshView { phase: RefreshPhase::Succeeded, ..self },
                RefreshAction::Succeed,
            ),
            _ => self.fail(CacheUpdateError::InternalError),
        }
    }

    /// The next state and what is asked for next, on `event`.
    ///
    /// A failure of the store, of the request for the artist or of the
    /// request for the albums fails the refresh. A failure of the request
    /// for the tracks of an album only leaves that album out: neither its
    /// row nor any of its tracks is stored. An answer that was not asked
    /// for fails the refresh. Once the refresh is over, nothing changes.
    pub open spec fn step(self, event: RefreshEvent) -> (RefreshView, RefreshAction) {
        if self.phase == RefreshPhase::Succeeded {
            (self, RefreshAction::Succeed)
        } else if self.phase == RefreshPhase::Failed {
            (self, RefreshAction::Fail(self.failure->0))
        } else {
            match event {
                RefreshEvent::Stored(ok) => if ok {
                    self.stored()
                } else {
                    self.fail(CacheUpdateError::InternalError)
                },
                RefreshEvent::Artist(answer, now) => if self.phase
                    == RefreshPhase::FetchingArtist {
                    match answer {
                        Ok(artist) => (
                            RefreshView {
                                phase: RefreshPhase::PersistingArtist,
                                artist: Some(ArtistInfo::of(artist, now)),
                                ..self
                            },
                            RefreshAction::InsertArtist(ArtistInfo::of(artist, now)),
                        ),
                        Err(e) => self.fail(CacheUpdateError::of(e)),
                    }
                } else {
                    self.fail(CacheUpdateError::InternalError)
                },
                RefreshEvent::Albums(answer) => if self.phase == RefreshPhase::FetchingAlbums {
                    match answer {
                        Ok(page) => RefreshView { albums: page.data@, ..self }.next_album(),
                        Err(e) => self.fail(CacheUpdateError::of(e)),
                    }
                } else {
                    self.fail(CacheUpdateError::InternalError)
                },
                RefreshEvent::Tracks(answer) => if self.phase
                    == RefreshPhase::FetchingAlbumTracks {
                    match answer {
                        Ok(page) => (
                            RefreshView {
                                phase: RefreshPhase::PersistingAlbum,
                                found: page.data@,
                                ..self
                            },
                            RefreshAction::InsertAlbum(
                                AlbumInfo::of(self.albums[0], self.artist_id),
                            ),
                        ),
                        Err(_) => RefreshView { albums: self.albums.skip(1), ..self }.next_album(),
                    }
                } else {
                    self.fail(CacheUpdateError::InternalError)
                },
            }
        }
    }
}

/// The tracks that a run of requests asks to store, in order.
pub open spec fn tracks_to_store(asked: Seq<RefreshAction>) -> Seq<TrackInfo>
    decreases asked.len(),
{
    if asked.len() == 0 {
        Seq::empty()
    } else {
        match asked.last() {
            RefreshAction::InsertTrack(info) => tracks_to_store(asked.drop_last()).push(info),
            _ => tracks_to_store(asked.drop_last()),
        }
    }
}

/// How often a run of requests asks the catalogue for the artist.
pub open spec fn artist_fetches(asked: Seq<RefreshAction>) -> nat
    decreases asked.len(),
{
    if asked.len() == 0 {
        0
    } else {
        match asked.last() {
            RefreshAction::FetchArtist(_) => artist_fetches(asked.drop_last()) + 1,
            _ => artist_fetches(asked.drop_last()),
        }
    }
}

/// The artist that a run of requests asks to store, if any: the last.
pub open spec fn artist_to_store(asked: Seq<RefreshAction>) -> Option<ArtistInfo>
    decreases asked.len(),
{
    if asked.len() == 0 {
        None
    } else {
        match asked.last() {
            RefreshAction::InsertArtist(info) => Some(info),
            _ => artist_to_store(asked.drop_last()),
        }
    }
}

impl RefreshView {
    /// The state after a run of events.
    pub open spec fn run(self, events: Seq<RefreshEvent>) -> RefreshView
        decreases events.len(),
    {
        if events.len() == 0 {
            self
        } else {
            self.run(events.drop_last()).step(events.last()).0
        }
    }

    /// What was asked for on each event of a run, in order.
    pub open spec fn asked(self, events: Seq<RefreshEvent>) -> Seq<RefreshAction>
        decreases events.len(),
    {
        if events.len() == 0 {
            Seq::empty()
        } else {
            self.asked(events.drop_last()).push(
                self.run(events.drop_last()).step(events.last()).1,
            )
        }
    }

    /// How what was asked to be stored stands to the state: the tracks
    /// stored are those asked for, but the one whose storing is awaited.
    spec fn accounts_for(self, asked: Seq<RefreshAction>) -> bool {
        &&& self.wf()
        &&& artist_fetches(asked) <= 1
        &&& self.phase == RefreshPhase::Started || self.phase == RefreshPhase::Clearing
            ==> artist_fetches(asked) == 0
        &&& self.past_artist() ==> artist_to_store(asked) == self.artist
        &&& self.phase == RefreshPhase::PersistingTrack ==> tracks_to_store(asked)
            == self.tracks.push(TrackInfo::of(self.found[0], self.albums[0]))
        &&& self.phase != RefreshPhase::PersistingTrack && self.phase != RefreshPhase::Failed
            ==> tracks_to_store(asked) == self.tracks
        &&& self.phase != RefreshPhase::Started && self.phase != RefreshPhase::Clearing
            && self.phase != RefreshPhase::Failed ==> artist_fetches(asked) == 1
    }

    proof fn lemma_step_accounts(self, asked: Seq<RefreshAction>, event: RefreshEvent)
        requires
            self.accounts_for(asked),
        ensures
            self.step(event).0.accounts_for(asked.push(self.step(event).1)),
    {
        let next = self.step(event).0;
        let action = self.step(event).1;
        let all = asked.push(action);
        assert(all.drop_last() == asked);
        assert(all.last() == action);
    }

    proof fn lemma_run_accounts(self, events: Seq<RefreshEvent>)
        requires
            self == RefreshView::start(self.artist_id),
        ensures
            self.run(events).accounts_for(self.asked(events)),
        decreases events.len(),
    {
        if events.len() > 0 {
            self.lemma_run_accounts(events.drop_last());
            self.run(events.drop_last()).lemma_step_accounts(
                self.asked(events.drop_last()),
                events.last(),
            );
        }
    }

    /// A refresh that succeeds delivers what it had stored: its artist is
    /// the one that it asked to store, and its tracks are those that it
    /// asked to store, each once and in that order. This holds of every
    /// run of events, whatever the store and the catalogue answer.
    pub proof fn lemma_delivers_what_was_stored(artist_id: u32, events: Seq<RefreshEvent>)
        ensures
            ({
                let start = RefreshView::start(artist_id);
                start.run(events).phase == RefreshPhase::Succeeded ==> {
                    &&& start.run(events).artist == artist_to_store(start.asked(events))
                    &&& start.run(events).tracks == tracks_to_store(start.asked(events))
                }
            }),
    {
        RefreshView::start(artist_id).lemma_run_accounts(events);
    }

    /// A refresh asks the catalogue for its artist once at most, whatever
    /// the store and the catalogue answer. It has asked once as soon as
    /// it is past the opening of its transaction and the delete, unless it
    /// has failed; so it has where it succeeds. It has not asked while it
    /// is not yet past them.
    pub proof fn lemma_artist_is_fetched_once(artist_id: u32, events: Seq<RefreshEvent>)
        ensures
            ({
                let start = RefreshView::start(artist_id);
                let phase = start.run(events).phase;
                let fetches = artist_fetches(start.asked(events));
                &&& fetches <= 1
                &&& phase == RefreshPhase::Started || phase == RefreshPhase::Clearing ==> fetches
                    == 0
                &&& phase != RefreshPhase::Started && phase != RefreshPhase::Clearing && phase
                    != RefreshPhase::Failed ==> fetches == 1
            }),
    {
        RefreshView::start(artist_id).lemma_run_accounts(events);
    }

    /// An album whose tracks cannot be listed leaves no trace and does not
    /// fail the refresh: nothing is asked to be stored for it, the tracks
    /// stored are as they were, and the refresh goes on with the next
    /// album, or commits where that was the last.
    pub proof fn lemma_failed_album_is_left_out(self, error: Error)
        requires
            self.wf(),
            self.phase == RefreshPhase::FetchingAlbumTracks,
        ensures
            ({
                let (next, action) = self.step(RefreshEvent::Tracks(Err(error)));
                &&& next.albums == self.albums.skip(1)
                &&& next.tracks == self.tracks
                &&& next.failure is None
                &&& if self.albums.len() == 1 {
                    action == RefreshAction::Commit
                } else {
                    action == RefreshAction::FetchTracks {
                        album: self.albums[1].id,
                        index: 0,
                        limit: PAGE_LIMIT,
                    }
                }
            }),
    {
    }

    /// Every state that a run of events reaches is well formed.
    pub proof fn lemma_run_is_well_formed(artist_id: u32, events: Seq<RefreshEvent>)
        ensures
            RefreshView::start(artist_id).run(events).wf(),
    {
        RefreshView::start(artist_id).lemma_run_accounts(events);
    }
}

/// A refresh of one artist in the cache.
#[derive(Debug, PartialEq, Eq)]
pub struct Refresh {
    artist_id: u32,
    phase: RefreshPhase,
    artist: Option<ArtistInfo>,
    albums: Vec<Album>,
    /// How many of `albums` are done with.
    album_at: usize,
    found: Vec<Track>,
    /// How many of `found` are stored.
    track_at: usize,
    tracks: Vec<TrackInfo>,
    failure: Option<CacheUpdateError>,
}

impl View for Refresh {
    type V = RefreshView;

    closed spec fn view(&self) -> RefreshView {
        RefreshView {
            artist_id: self.artist_id,
            phase: self.phase,
            artist: self.artist,
            albums: self.albums@.skip(self.album_at as int),
            found: self.found@.skip(self.track_at as int),
            tracks: self.tracks@,
            failure: self.failure,
        }
    }
}

impl Refresh {
    #[verifier::type_invariant]
    spec fn inv(self) -> bool {
        &&& self.album_at <= self.albums.len()
        &&& self.track_at <= self.found.len()
        &&& self@.wf()
    }

    /// Begins a refresh of `artist_id`. The first thing asked for is the
    /// transaction.
    pub fn start(artist_id: u32) -> (r: (Refresh, RefreshAction))
        ensures
            r.0@ == RefreshView::start(artist_id),
            r.1 == RefreshAction::OpenTransaction,
            r.0@.wf(),
    {
        let refresh = Refresh {
            artist_id,
            phase: RefreshPhase::Started,
            artist: None,
            albums: Vec::new(),
            album_at: 0,
            found: Vec::new(),
            track_at: 0,
            tracks: Vec::new(),
            failure: None,
        };
        assert(refresh@ =~= RefreshView::start(artist_id));
        (refresh, RefreshAction::OpenTransaction)
    }

    /// Where the refresh stands.
    pub fn phase(&self) -> (r: RefreshPhase)
        ensures
            r == self@.phase,
    {
        self.phase
    }

    /// Whether the refresh is over.
    pub fn is_finished(&self) -> (r: bool)
        ensures
            r == self@.finished(),
    {
        self.phase == RefreshPhase::Succeeded || self.phase == RefreshPhase::Failed
    }

    fn fail(self, err: CacheUpdateError) -> (r: (Refresh, RefreshAction))
        ensures
            r.0@ == self@.fail(err).0,
            r.1 == self@.fail(err).1,
    {
        proof {
            use_type_invariant(&self);
        }
        let refresh = Refresh { phase: RefreshPhase::Failed, failure: Some(err), ..self };
        assert(refresh@ =~= self@.fail(err).0);
        (refresh, RefreshAction::Fail(err))
    }

    /// Turns to the album at `album_at`, with nothing of it found yet.
    fn next_album(self) -> (r: (Refresh, RefreshAction))
        requires
            self@.past_artist(),
        ensures
            r.0@ == self@.next_album().0,
            r.1 == self@.next_album().1,
    {
        proof {
            use_type_invariant(&self);
        }
        if self.album_at == self.albums.len() {
            let refresh = Refresh { phase: RefreshPhase::Committing, ..self };
            assert(refresh@ =~= self@.next_album().0);
            (refresh, RefreshAction::Commit)
        } else {
            let album: u32 = self.albums[self.album_at].id;
            let refresh = Refresh { phase: RefreshPhase::FetchingAlbumTracks, ..self };
            assert(refresh@ =~= self@.next_album().0);
            (refresh, RefreshAction::FetchTracks { album, index: 0, limit: PAGE_LIMIT })
        }
    }

    /// Leaves the album at work.
    fn leave_album(self) -> (r: (Refresh, RefreshAction))
        requires
            self@.in_album(),
        ensures
            r.0@ == (RefreshView { albums: self@.albums.skip(1), ..self@ }).next_album().0,
            r.1 == (RefreshView { albums: self@.albums.skip(1), ..self@ }).next_album().1,
    {
        proof {
            use_type_invariant(&self);
        }
        let refresh = Refresh {
            phase: RefreshPhase::FetchingAlbums,
            album_at: self.album_at + 1,
            ..self
        };
        assert(refresh@.albums =~= self@.albums.skip(1));
        let r = refresh.next_album();
        assert(r.0@ =~= (RefreshView { albums: self@.albums.skip(1), ..self@ }).next_album().0);
        r
    }

    fn next_track(self) -> (r: (Refresh, RefreshAction))
        requires
            self@.in_album(),
        ensures
            r.0@ == self@.next_track().0,
            r.1 == self@.next_track().1,
    {
        proof {
            use_type_invariant(&self);
        }
        if self.track_at == self.found.len() {
            self.leave_album()
        } else {
            let info = TrackInfo::from_deezer(
                self.found[self.track_at].clone(),
                self.albums[self.album_at].clone(),
            );
            let refresh = Refresh { phase: RefreshPhase::PersistingTrack, ..self };
            assert(refresh@ =~= self@.next_track().0);
            (refresh, RefreshAction::InsertTrack(info))
        }
    }

    fn stored(self) -> (r: (Refresh, RefreshAction))
        requires
            !self@.finished(),
        ensures
            r.0@ == self@.stored().0,
            r.1 == self@.stored().1,
    {
        proof {
            use_type_invariant(&self);
        }
        match self.phase {
            RefreshPhase::Started => {
                let id: i64 = self.artist_id as i64;
                let refresh = Refresh { phase: RefreshPhase::Clearing, ..self };
                assert(refresh@ =~= self@.stored().0);
                (refresh, RefreshAction::DeleteArtist(id))
            },
            RefreshPhase::Clearing => {
                let id: u32 = self.artist_id;
                let refresh = Refresh { phase: RefreshPhase::FetchingArtist, ..self };
                assert(refresh@ =~= self@.stored().0);
                (refresh, RefreshAction::FetchArtist(id))
            },
            RefreshPhase::PersistingArtist => {
                let artist: u32 = self.artist_id;
                let refresh = Refresh { phase: RefreshPhase::FetchingAlbums, ..self };
                assert(refresh@ =~= self@.stored().0);
                (refresh, RefreshAction::FetchAlbums { artist, index: 0, limit: PAGE_LIMIT })
            },
            RefreshPhase::PersistingAlbum => self.next_track(),
            RefreshPhase::PersistingTrack => {
                let info = TrackInfo::from_deezer(
                    self.found[self.track_at].clone(),
                    self.albums[self.album_at].clone(),
                );
                let mut tracks = self.tracks;
                tracks.push(info);
                let refresh = Refresh {
                    phase: RefreshPhase::PersistingAlbum,
                    track_at: self.track_at + 1,
                    tracks,
                    ..self
                };
                let ghost stepped = RefreshView {
                    tracks: self@.tracks.push(TrackInfo::of(self@.found[0], self@.albums[0])),
                    found: self@.found.skip(1),
                    ..self@
                };
                assert(refresh@.found =~= stepped.found);
                assert(refresh@.next_track() == stepped.next_track()) by {
                    assert(refresh@.albums == stepped.albums);
                    assert(refresh@.tracks == stepped.tracks);
                }
                refresh.next_track()
            },
            RefreshPhase::Committing => {
                let refresh = Refresh { phase: RefreshPhase::Succeeded, ..self };
                assert(refresh@ =~= self@.stored().0);
                (refresh, RefreshAction::Succeed)
            },
            _ => self.fail(CacheUpdateError::InternalError),
        }
    }

    /// Takes what came back from the step that was asked for last, and says
    /// what to do next.
    pub fn step(self, event: RefreshEvent) -> (r: (Refresh, RefreshAction))
        ensures
            r.0@ == self@.step(event).0,
            r.1 == self@.step(event).1,
            self@.wf(),
    {
        proof {
            use_type_invariant(&self);
        }
        match self.phase {
            RefreshPhase::Succeeded => {
                return (self, RefreshAction::Succeed);
            },
            RefreshPhase::Failed => {
                let err: CacheUpdateError = match self.failure {
                    Some(e) => e,
                    None => CacheUpdateError::InternalError,
                };
                return (self, RefreshAction::Fail(err));
            },
            _ => {},
        }
        match event {
            RefreshEvent::Stored(ok) => {
                if ok {
                    self.stored()
                } else {
                    self.fail(CacheUpdateError::InternalError)
                }
            },
            RefreshEvent::Artist(answer, now) => {
                if self.phase == RefreshPhase::FetchingArtist {
                    match answer {
                        Ok(artist) => {
                            let info = ArtistInfo::from_artist(artist, now);
                            let refresh = Refresh {
                                phase: RefreshPhase::PersistingArtist,
                                artist: Some(info.clone()),
                                ..self
                            };
                            assert(refresh@ =~= self@.step(event).0);
                            (refresh, RefreshAction::InsertArtist(info))
                        },
                        Err(e) => self.fail(CacheUpdateError::from(e)),
                    }
                } else {
                    self.fail(CacheUpdateError::InternalError)
                }
            },
            RefreshEvent::Albums(answer) => {
                if self.phase == RefreshPhase::FetchingAlbums {
                    match answer {
                        Ok(page) => {
                            let refresh = Refresh { albums: page.data, album_at: 0, ..self };
                            assert(refresh@ =~= (RefreshView { albums: page.data@, ..self@ }));
                            refresh.next_album()
                        },
                        Err(e) => self.fail(CacheUpdateError::from(e)),
                    }
                } else {
                    self.fail(CacheUpdateError::InternalError)
                }
            },
            RefreshEvent::Tracks(answer) => {
                if self.phase == RefreshPhase::FetchingAlbumTracks {
                    match answer {
                        Ok(page) => {
                            let info = AlbumInfo::from_album(
                                self.albums[self.album_at].clone(),
                                self.artist_id,
                            );
                            let refresh = Refresh {
                                phase: RefreshPhase::PersistingAlbum,
                                found: page.data,
                                track_at: 0,
                                ..self
                            };
                            assert(refresh@ =~= self@.step(event).0);
                            (refresh, RefreshAction::InsertAlbum(info))
                        },
                        Err(_) => self.leave_album(),
                    }
                } else {
                    self.fail(CacheUpdateError::InternalError)
                }
            },
        }
    }

    /// Ends the refresh and hands out what it delivers: the artist and the
    /// tracks that were stored where it succeeded, the error where it
    /// failed, and nothing while it is under way.
    pub fn into_result(self) -> (r: Option<Result<Refreshed, CacheUpdateError>>)
        ensures
            match r {
                Some(Ok((artist, Some(tracks)))) => {
                    &&& self@.phase == RefreshPhase::Succeeded
                    &&& self@.artist == Some(artist)
                    &&& tracks@ == self@.tracks
                },
                Some(Ok((_, None))) => false,
                Some(Err(e)) => self@.phase == RefreshPhase::Failed && self@.failure == Some(e),
                None => !self@.finished(),
            },
    {
        proof {
            use_type_invariant(&self);
        }
        match self.phase {
            RefreshPhase::Succeeded => match self.artist {
                Some(artist) => Some(Ok((artist, Some(self.tracks)))),
                None => None,
            },
            RefreshPhase::Failed => match self.failure {
                Some(e) => Some(Err(e)),
                None => None,
            },
            _ => None,
        }
    }
}

} // verus!
