use music_quiz::db::{AlbumInfo, ArtistInfo, TrackInfo};
use music_quiz::deezer::{Album, Artist, Track};
use music_quiz::time::Timestamp;

fn mili() -> Artist {
    Artist {
        id: 56_563_392,
        name: "Mili".to_string(),
        link: "https://www.deezer.com/artist/56563392".to_string(),
        picture: "https://api.deezer.com/artist/56563392/image".to_string(),
        picture_small: "https://cdn.example/56x56.jpg".to_string(),
        picture_medium: "https://cdn.example/250x250.jpg".to_string(),
        picture_big: "https://cdn.example/500x500.jpg".to_string(),
        picture_xl: "https://cdn.example/1000x1000.jpg".to_string(),
        nb_album: 42,
        radio: true,
        tracklist: "https://api.deezer.com/artist/56563392/top?limit=50".to_string(),
    }
}

fn album() -> Album {
    Album {
        id: 59_795_132,
        title: "Millennium Mother".to_string(),
        link: "https://www.deezer.com/album/59795132".to_string(),
        cover: "https://api.deezer.com/album/59795132/image".to_string(),
        cover_small: "https://cdn.example/cover/56x56.jpg".to_string(),
        cover_medium: "https://cdn.example/cover/250x250.jpg".to_string(),
        cover_big: "https://cdn.example/cover/500x500.jpg".to_string(),
        cover_xl: "https://cdn.example/cover/1000x1000.jpg".to_string(),
        release_date: "2018-04-25".to_string(),
    }
}

fn track() -> Track {
    Track {
        id: 464_861_822,
        readable: true,
        title: "Summoning 101".to_string(),
        title_short: "Summoning 101".to_string(),
        link: "https://www.deezer.com/track/464861822".to_string(),
        duration: 228,
        rank: 407_657,
        explicit_lyrics: false,
        preview: "https://cdn.example/preview.mp3".to_string(),
    }
}

#[test]
fn the_record_of_an_artist() {
    let now = Timestamp { secs: 1_700_000_000, nanos: 123 };
    let info = ArtistInfo::from_artist(mili(), now);
    assert_eq!(
        info,
        ArtistInfo {
            id: 56_563_392,
            title: "Mili".to_string(),
            icon_url: "https://cdn.example/250x250.jpg".to_string(),
            updated_at: now,
        }
    );
}

#[test]
fn the_record_of_an_album() {
    let info = AlbumInfo::from_album(album(), 56_563_392);
    assert_eq!(
        info,
        AlbumInfo {
            id: 59_795_132,
            artist: 56_563_392,
            title: "Millennium Mother".to_string(),
            cover_url: "https://cdn.example/cover/250x250.jpg".to_string(),
        }
    );
}

#[test]
fn the_record_of_a_track() {
    let info = TrackInfo::from_deezer(track(), album());
    assert_eq!(
        info,
        TrackInfo {
            id: 464_861_822,
            album_title: "Millennium Mother".to_string(),
            album_cover_url: "https://cdn.example/cover/250x250.jpg".to_string(),
            album_id: 59_795_132,
            title: "Summoning 101".to_string(),
            preview_url: "https://cdn.example/preview.mp3".to_string(),
        }
    );
}

#[test]
fn the_largest_numbers_fit_the_records() {
    let mut a = mili();
    a.id = u32::MAX;
    assert_eq!(ArtistInfo::from_artist(a, Timestamp { secs: 0, nanos: 0 }).id, 4_294_967_295);
    let mut al = album();
    al.id = u32::MAX;
    let info = AlbumInfo::from_album(al.clone(), u32::MAX);
    assert_eq!((info.id, info.artist), (4_294_967_295, 4_294_967_295));
    let mut t = track();
    t.id = u32::MAX;
    let info = TrackInfo::from_deezer(t, al);
    assert_eq!((info.id, info.album_id), (4_294_967_295, 4_294_967_295));
}

#[test]
fn records_are_cloned_as_they_are() {
    assert_eq!(mili().clone(), mili());
    assert_eq!(album().clone(), album());
    assert_eq!(track().clone(), track());
    let info = TrackInfo::from_deezer(track(), album());
    assert_eq!(info.clone(), info);
    let info = AlbumInfo::from_album(album(), 1);
    assert_eq!(info.clone(), info);
    let info = ArtistInfo::from_artist(mili(), Timestamp { secs: 5, nanos: 6 });
    assert_eq!(info.clone(), info);
}
