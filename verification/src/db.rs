//! The records that the cache keeps: what is stored of an artist, of an
//! album and of a track, and how each is made from what the catalogue sent.

use crate::deezer::{Album, Artist, Track};
use crate::time::Timestamp;
use vstd::prelude::*;

verus! {

/// The store could not do what was asked of it.
#[derive(Clone, Copy, Debug, PartialEq, Eq, Structural)]
pub struct StorageError;

/// Represents info about an artist, corresponding with the `artists` table in the database
#[derive(Debug, PartialEq, Eq)]
pub struct ArtistInfo {
    pub id: i64,
    pub title: String,
    pub icon_url: String,
    /// When the record was made. A record is fresh for the cache's time to
    /// live after this instant.
    pub updated_at: Timestamp,
}

impl Clone for ArtistInfo {
    fn clone(&self) -> (r: Self)
        ensures
            r == *self,
    {
        ArtistInfo {
            id: self.id,
            title: self.title.clone(),
            icon_url: self.icon_url.clone(),
            updated_at: self.updated_at,
        }
    }
}

impl ArtistInfo {
    /// The record of an artist that the catalogue sent at `now`.
    pub open spec fn of(a: Artist, now: Timestamp) -> ArtistInfo {
        ArtistInfo { id: a.id as i64, title: a.name, icon_url: a.picture_medium, updated_at: now }
    }

    /// Makes the record of an artist that the catalogue sent at `now`: the
    /// artist's number and name, the picture of middle size, and `now` as
    /// the time of the update.
    pub fn from_artist(a: Artist, now: Timestamp) -> (r: Self)
        ensures
            r == Self::of(a, now),
    {
        ArtistInfo { id: a.id as i64, title: a.name, icon_url: a.picture_medium, updated_at: now }
    }
}

/// Represents info about an album, corresponding with the `albums` table in the database.
#[derive(Debug, PartialEq, Eq)]
pub struct AlbumInfo {
    pub id: i64,
    pub artist: i64,
    pub title: String,
    pub cover_url: String,
}

impl Clone for AlbumInfo {
    fn clone(&self) -> (r: Self)
        ensures
            r == *self,
    {
        AlbumInfo {
            id: self.id,
            artist: self.artist,
            title: self.title.clone(),
            cover_url: self.cover_url.clone(),
        }
    }
}

impl AlbumInfo {
    /// The record of an album of the artist `artist_id`.
    pub open spec fn of(value: Album, artist_id: u32) -> AlbumInfo {
        AlbumInfo {
            id: value.id as i64,
            artist: artist_id as i64,
            title: value.title,
            cover_url: value.cover_medium,
        }
    }

    /// Creates an `AlbumInfo` from an [`Album`] with the given `artist_id`.
    pub fn from_album(value: Album, artist_id: u32) -> (r: Self)
        ensures
            r == Self::of(value, artist_id),
    {
        AlbumInfo {
            id: value.id as i64,
            artist: artist_id as i64,
            title: value.title,
            cover_url: value.cover_medium,
        }
    }
}

/// Represents info about a track. This corresponds with the `tracks` table, partially joined with `albums`.
#[derive(Debug, PartialEq, Eq)]
pub struct TrackInfo {
    pub id: i64,
    pub album_title: String,
    pub album_cover_url: String,
    pub album_id: i64,
    pub title: String,
    pub preview_url: String,
}

impl Clone for TrackInfo {
    fn clone(&self) -> (r: Self)
        ensures
            r == *self,
    {
        TrackInfo {
            id: self.id,
            album_title: self.album_title.clone(),
            album_cover_url: self.album_cover_url.clone(),
            album_id: self.album_id,
            title: self.title.clone(),
            preview_url: self.preview_url.clone(),
        }
    }
}

impl TrackInfo {
    /// The record of a track of the album `album`.
    pub open spec fn of(track: Track, album: Album) -> TrackInfo {
        TrackInfo {
            id: track.id as i64,
            album_title: album.title,
            album_cover_url: album.cover_medium,
            album_id: album.id as i64,
            title: track.title,
            preview_url: track.preview,
        }
    }

    /// Creates a `TrackInfo` from a [`Track`] and an [`Album`]
    pub fn from_deezer(track: Track, album: Album) -> (r: Self)
        ensures
            r == Self::of(track, album),
    {
        TrackInfo {
            id: track.id as i64,
            album_title: album.title,
            album_cover_url: album.cover_medium,
            album_id: album.id as i64,
            title: track.title,
            preview_url: track.preview,
        }
    }
}

} // verus!
