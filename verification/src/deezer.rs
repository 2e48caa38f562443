//! The music catalogue's API: its error codes, its records and the requests
//! that the quiz sends to it.

use vstd::prelude::*;
use vstd::utf8::encode_utf8;

verus! {

/// An error code that the catalogue reports in the body of a response.
#[derive(Clone, Copy, Debug, PartialEq, Eq, Structural)]
pub enum ApiErrCode {
    Quota,
    ItemsLimitExceeded,
    Permission,
    TokenInvalid,
    Parameter,
    ParameterMissing,
    QueryInvalid,
    ServiceBusy,
    DataNotFound,
    IndividualAccountNotAllowed,
    Other,
}

impl ApiErrCode {
    /// The numeric code that stands for each error on the wire; `Other` is 0.
    pub open spec fn spec_code(self) -> u16 {
        match self {
            ApiErrCode::Quota => 4,
            ApiErrCode::ItemsLimitExceeded => 100,
            ApiErrCode::Permission => 200,
            ApiErrCode::TokenInvalid => 300,
            ApiErrCode::Parameter => 500,
            ApiErrCode::ParameterMissing => 501,
            ApiErrCode::QueryInvalid => 600,
            ApiErrCode::ServiceBusy => 700,
            ApiErrCode::DataNotFound => 800,
            ApiErrCode::IndividualAccountNotAllowed => 901,
            ApiErrCode::Other => 0,
        }
    }

    /// The error that a numeric code stands for. A code that the catalogue
    /// does not document is `Other`.
    pub open spec fn spec_from_code(code: u16) -> ApiErrCode {
        if code == 4 {
            ApiErrCode::Quota
        } else if code == 100 {
            ApiErrCode::ItemsLimitExceeded
        } else if code == 200 {
            ApiErrCode::Permission
        } else if code == 300 {
            ApiErrCode::TokenInvalid
        } else if code == 500 {
            ApiErrCode::Parameter
        } else if code == 501 {
            ApiErrCode::ParameterMissing
        } else if code == 600 {
            ApiErrCode::QueryInvalid
        } else if code == 700 {
            ApiErrCode::ServiceBusy
        } else if code == 800 {
            ApiErrCode::DataNotFound
        } else if code == 901 {
            ApiErrCode::IndividualAccountNotAllowed
        } else {
            ApiErrCode::Other
        }
    }

    /// Reads an error code off the wire. Every number is accepted.
    pub fn from_code(code: u16) -> (r: ApiErrCode)
        ensures
            r == Self::spec_from_code(code),
    {
        match code {
            4 => ApiErrCode::Quota,
            100 => ApiErrCode::ItemsLimitExceeded,
            200 => ApiErrCode::Permission,
            300 => ApiErrCode::TokenInvalid,
            500 => ApiErrCode::Parameter,
            501 => ApiErrCode::ParameterMissing,
            600 => ApiErrCode::QueryInvalid,
            700 => ApiErrCode::ServiceBusy,
            800 => ApiErrCode::DataNotFound,
            901 => ApiErrCode::IndividualAccountNotAllowed,
            _ => ApiErrCode::Other,
        }
    }

    /// The number that stands for this error on the wire.
    pub fn code(&self) -> (r: u16)
        ensures
            r == self.spec_code(),
    {
        match self {
            ApiErrCode::Quota => 4,
            ApiErrCode::ItemsLimitExceeded => 100,
            ApiErrCode::Permission => 200,
            ApiErrCode::TokenInvalid => 300,
            ApiErrCode::Parameter => 500,
            ApiErrCode::ParameterMissing => 501,
            ApiErrCode::QueryInvalid => 600,
            ApiErrCode::ServiceBusy => 700,
            ApiErrCode::DataNotFound => 800,
            ApiErrCode::IndividualAccountNotAllowed => 901,
            ApiErrCode::Other => 0,
        }
    }
}

/// Why a request to the catalogue failed.
#[derive(Clone, Copy, Debug, PartialEq, Eq, Structural)]
pub enum Error {
    /// The request did not get through, or the answer could not be read.
    ReqwestError,
    /// No address could be made for the request.
    UrlParseError,
    /// The catalogue answered with an error code.
    ApiError(ApiErrCode),
}

impl Error {
    /// What the error is called in messages.
    pub fn message(&self) -> (r: &'static str)
        ensures
            r@ == (match *self {
                Error::ReqwestError => "request error"@,
                Error::UrlParseError => "url parse error"@,
                Error::ApiError(_) => "api error"@,
            }),
    {
        match self {
            Error::ReqwestError => "request error",
            Error::UrlParseError => "url parse error",
            Error::ApiError(_) => "api error",
        }
    }
}

/// Represents an artist as returned from the Deezer API.
#[derive(Debug, PartialEq, Eq)]
pub struct Artist {
    pub id: u32,
    pub name: String,
    pub link: String,
    pub picture: String,
    pub picture_small: String,
    pub picture_medium: String,
    pub picture_big: String,
    pub picture_xl: String,
    pub nb_album: u32,
    pub radio: bool,
    pub tracklist: String,
}

impl Clone for Artist {
    fn clone(&self) -> (r: Self)
        ensures
            r == *self,
    {
        Artist {
            id: self.id,
            name: self.name.clone(),
            link: self.link.clone(),
            picture: self.picture.clone(),
            picture_small: self.picture_small.clone(),
            picture_medium: self.picture_medium.clone(),
            picture_big: self.picture_big.clone(),
            picture_xl: self.picture_xl.clone(),
            nb_album: self.nb_album,
            radio: self.radio,
            tracklist: self.tracklist.clone(),
        }
    }
}

/// Represents an album as returned from the Deezer API.
#[derive(Debug, PartialEq, Eq)]
pub struct Album {
    pub id: u32,
    pub title: String,
    pub link: String,
    pub cover: String,
    pub cover_small: String,
    pub cover_medium: String,
    pub cover_big: String,
    pub cover_xl: String,
    /// The day of release, as the catalogue writes it.
    pub release_date: String,
}

impl Clone for Album {
    fn clone(&self) -> (r: Self)
        ensures
            r == *self,
    {
        Album {
            id: self.id,
            title: self.title.clone(),
            link: self.link.clone(),
            cover: self.cover.clone(),
            cover_small: self.cover_small.clone(),
            cover_medium: self.cover_medium.clone(),
            cover_big: self.cover_big.clone(),
            cover_xl: self.cover_xl.clone(),
            release_date: self.release_date.clone(),
        }
    }
}

/// Represents a track as returned from the Deezer API.
#[derive(Debug, PartialEq, Eq)]
pub struct Track {
    pub id: u32,
    pub readable: bool,
    pub title: String,
    pub title_short: String,
    pub link: String,
    pub duration: u32,
    pub rank: u32,
    pub explicit_lyrics: bool,
    pub preview: String,
}

impl Clone for Track {
    fn clone(&self) -> (r: Self)
        ensures
            r == *self,
    {
        Track {
            id: self.id,
            readable: self.readable,
            title: self.title.clone(),
            title_short: self.title_short.clone(),
            link: self.link.clone(),
            duration: self.duration,
            rank: self.rank,
            explicit_lyrics: self.explicit_lyrics,
            preview: self.preview.clone(),
        }
    }
}

/// Represents a paginated response as returned from the Deezer API.
#[derive(Debug, PartialEq, Eq)]
pub struct PaginatedResponse<T> {
    pub data: Vec<T>,
    pub total: u32,
}

/// The body of an answer: the error that the catalogue reports, or what was
/// asked for.
#[derive(Debug, PartialEq, Eq)]
pub enum DeezerResponse<T> {
    Error { code: ApiErrCode },
    Value(T),
}

impl<T> DeezerResponse<T> {
    /// The answer as a result: a reported error is `Error::ApiError` with
    /// its code, anything else is the value.
    pub fn into_result(self) -> (r: Result<T, Error>)
        ensures
            r == (match self {
                DeezerResponse::Error { code } => Err(Error::ApiError(code)),
                DeezerResponse::Value(value) => Ok(value),
            }),
    {
        match self {
            DeezerResponse::Error { code } => Err(Error::ApiError(code)),
            DeezerResponse::Value(value) => Ok(value),
        }
    }
}

/// The requests that may leave in one window of the rate limit.
pub const QUOTA: u32 = 45;

/// The length of a window of the rate limit, in milliseconds.
pub const WINDOW_MILLIS: u64 = 5_000;

/// The most items that one page of a listing is asked to hold.
pub const PAGE_LIMIT: u32 = 300;

/// The character that writes a digit.
pub open spec fn digit_char(d: nat) -> char
    recommends
        d < 10,
{
    if d == 0 {
        '0'
    } else if d == 1 {
        '1'
    } else if d == 2 {
        '2'
    } else if d == 3 {
        '3'
    } else if d == 4 {
        '4'
    } else if d == 5 {
        '5'
    } else if d == 6 {
        '6'
    } else if d == 7 {
        '7'
    } else if d == 8 {
        '8'
    } else {
        '9'
    }
}

/// A number in decimal digits, without leading zeros.
pub open spec fn decimal_of(n: nat) -> Seq<char>
    decreases n,
{
    if n < 10 {
        seq![digit_char(n)]
    } else {
        decimal_of(n / 10).push(digit_char(n % 10))
    }
}

fn digit_text(d: u32) -> (r: &'static str)
    requires
        d < 10,
    ensures
        r@ == seq![digit_char(d as nat)],
{
    proof {
        reveal_strlit("0");
        reveal_strlit("1");
        reveal_strlit("2");
        reveal_strlit("3");
        reveal_strlit("4");
        reveal_strlit("5");
        reveal_strlit("6");
        reveal_strlit("7");
        reveal_strlit("8");
        reveal_strlit("9");
    }
    let r: &'static str = if d == 0 {
        "0"
    } else if d == 1 {
        "1"
    } else if d == 2 {
        "2"
    } else if d == 3 {
        "3"
    } else if d == 4 {
        "4"
    } else if d == 5 {
        "5"
    } else if d == 6 {
        "6"
    } else if d == 7 {
        "7"
    } else if d == 8 {
        "8"
    } else {
        "9"
    };
    assert(r@ =~= seq![digit_char(d as nat)]);
    r
}

/// Writes a number in decimal digits.
pub fn decimal(n: u32) -> (r: String)
    ensures
        r@ == decimal_of(n as nat),
    decreases n,
{
    if n < 10 {
        String::from_str(digit_text(n))
    } else {
        let r = decimal(n / 10).concat(digit_text(n % 10));
        assert(r@ =~= decimal_of(n as nat));
        r
    }
}

/// A request to the catalogue: the segments of its path and the pairs of
/// its query, in the order in which they are written.
#[derive(Debug, PartialEq, Eq)]
pub struct ApiRequest {
    pub path: Vec<String>,
    pub params: Vec<(String, String)>,
}

impl ApiRequest {
    /// The segments of the path as text.
    pub open spec fn segments(&self) -> Seq<Seq<char>> {
        self.path.deep_view()
    }

    /// The pairs of the query as text.
    pub open spec fn pairs(&self) -> Seq<(Seq<char>, Seq<char>)> {
        self.params.deep_view()
    }
}

/// The length of a text in bytes.
fn byte_len(s: &str) -> (r: usize)
    ensures
        r == encode_utf8(s@).len(),
{
    s.as_bytes().len()
}

/// Adds `more` to `sum`, unless that passes the most that a request holds.
fn add_within(sum: usize, more: usize) -> (r: Option<usize>)
    requires
        sum <= MAX_REQUEST_BYTES,
    ensures
        r == (if sum + more <= MAX_REQUEST_BYTES {
            Some((sum + more) as usize)
        } else {
            None
        }),
{
    if more <= MAX_REQUEST_BYTES - sum {
        Some(sum + more)
    } else {
        None
    }
}

fn pair(key: &str, value: String) -> (r: (String, String))
    ensures
        r.0@ == key@,
        r.1 == value,
{
    (String::from_str(key), value)
}

/// The two pairs that ask for one page of a listing.
pub open spec fn page_pairs(index: u32, limit: u32) -> Seq<(Seq<char>, Seq<char>)> {
    seq![("index"@, decimal_of(index as nat)), ("limit"@, decimal_of(limit as nat))]
}

/// The most bytes that the texts of a request may hold between them for an
/// address to be written. The `url` crate keeps offsets into an address in
/// 32 bits; under this limit no address comes near them.
pub const MAX_REQUEST_BYTES: usize = 0x0100_0000;

/// The bytes of the segments, and one more for each.
pub open spec fn segments_size(segments: Seq<Seq<char>>) -> nat
    decreases segments.len(),
{
    if segments.len() == 0 {
        0
    } else {
        segments_size(segments.drop_last()) + encode_utf8(segments.last()).len() + 1
    }
}

/// The bytes of the pairs, and two more for each.
pub open spec fn pairs_size(pairs: Seq<(Seq<char>, Seq<char>)>) -> nat
    decreases pairs.len(),
{
    if pairs.len() == 0 {
        0
    } else {
        pairs_size(pairs.drop_last()) + encode_utf8(pairs.last().0).len() + encode_utf8(
            pairs.last().1,
        ).len() + 2
    }
}

/// The size of a request to `base`, in bytes of its texts.
pub open spec fn request_size(
    base: Seq<char>,
    segments: Seq<Seq<char>>,
    pairs: Seq<(Seq<char>, Seq<char>)>,
) -> nat {
    encode_utf8(base).len() + segments_size(segments) + pairs_size(pairs)
}

/// The address that the `url` crate writes for a request: `base` with the
/// segments added to its path and the pairs to its query, each escaped as
/// the crate escapes them. There is none where `base` is no address, or
/// one that takes no path.
pub uninterp spec fn address_of(
    base: Seq<char>,
    segments: Seq<Seq<char>>,
    pairs: Seq<(Seq<char>, Seq<char>)>,
) -> Option<Seq<char>>;

/// Writes an address with the `url` crate. `Url::parse` reads `base`;
/// `Url::path_segments_mut` and `PathSegmentsMut::extend` add the segments
/// to its path; `Url::query_pairs_mut` and `Serializer::extend_pairs` add
/// the pairs to its query; the text of the result is handed out. There is
/// no result where `base` does not parse or takes no path. The result
/// depends on the arguments alone, and `address_of` is the name for it;
/// nothing more is claimed of it. The texts are within
/// `MAX_REQUEST_BYTES`, far from where the crate's offsets overflow.
#[verifier::external_body]
fn url_address(base: &str, segments: &Vec<String>, pairs: &Vec<(String, String)>) -> (r: Option<
    String,
>)
    requires
        request_size(base@, segments.deep_view(), pairs.deep_view()) <= MAX_REQUEST_BYTES,
    ensures
        r.deep_view() == address_of(base@, segments.deep_view(), pairs.deep_view()),
{
    let mut url = url::Url::parse(base).ok()?;
    url.path_segments_mut().ok()?.extend(segments.iter());
    url.query_pairs_mut().extend_pairs(pairs.iter());
    Some(url.into())
}

proof fn lemma_segments_size_grows(segments: Seq<Seq<char>>, i: int)
    requires
        0 <= i <= segments.len(),
    ensures
        segments_size(segments.take(i)) <= segments_size(segments),
    decreases segments.len() - i,
{
    if i < segments.len() {
        lemma_segments_size_grows(segments, i + 1);
        assert(segments.take(i + 1).drop_last() == segments.take(i));
    } else {
        assert(segments.take(i) == segments);
    }
}

proof fn lemma_pairs_size_grows(pairs: Seq<(Seq<char>, Seq<char>)>, i: int)
    requires
        0 <= i <= pairs.len(),
    ensures
        pairs_size(pairs.take(i)) <= pairs_size(pairs),
    decreases pairs.len() - i,
{
    if i < pairs.len() {
        lemma_pairs_size_grows(pairs, i + 1);
        assert(pairs.take(i + 1).drop_last() == pairs.take(i));
    } else {
        assert(pairs.take(i) == pairs);
    }
}

/// Represents the Deezer client: it says what is asked of the catalogue.
/// Sending is left to the caller, who holds the connection.
#[derive(Debug, PartialEq, Eq)]
pub struct Deezer {
    pub base: String,
}

impl Deezer {
    /// The client of the public catalogue.
    pub fn new() -> (r: Self)
        ensures
            r.base@ == "https://api.deezer.com"@,
    {
        Deezer { base: String::from_str("https://api.deezer.com") }
    }

    /// Whether the texts of a request are few enough for an address.
    pub fn fits(&self, request: &ApiRequest) -> (r: bool)
        ensures
            r == (request_size(self.base@, request.segments(), request.pairs())
                <= MAX_REQUEST_BYTES),
    {
        let ghost segments = request.segments();
        let ghost pairs = request.pairs();
        let mut sum: usize = match add_within(0, byte_len(self.base.as_str())) {
            Some(s) => s,
            None => {
                return false;
            },
        };
        let mut i: usize = 0;
        assert(segments.take(0) == Seq::<Seq<char>>::empty());
        while i < request.path.len()
            invariant
                i <= request.path.len(),
                segments == request.path.deep_view(),
                sum <= MAX_REQUEST_BYTES,
                sum == encode_utf8(self.base@).len() + segments_size(segments.take(i as int)),
            decreases request.path.len() - i,
        {
            proof {
                assert(segments.take(i + 1).drop_last() == segments.take(i as int));
                assert(segments.take(i + 1).last() == request.path[i as int]@);
                lemma_segments_size_grows(segments, i + 1);
            }
            let with_segment: Option<usize> = match add_within(
                sum,
                byte_len(request.path[i].as_str()),
            ) {
                Some(s) => add_within(s, 1),
                None => None,
            };
            match with_segment {
                Some(s) => {
                    sum = s;
                },
                None => {
                    return false;
                },
            }
            i += 1;
        }
        assert(segments.take(i as int) == segments);
        let mut j: usize = 0;
        assert(pairs.take(0) == Seq::<(Seq<char>, Seq<char>)>::empty());
        while j < request.params.len()
            invariant
                j <= request.params.len(),
                segments == request.path.deep_view(),
                pairs == request.params.deep_view(),
                sum <= MAX_REQUEST_BYTES,
                sum == encode_utf8(self.base@).len() + segments_size(segments) + pairs_size(
                    pairs.take(j as int),
                ),
            decreases request.params.len() - j,
        {
            proof {
                assert(pairs.take(j + 1).drop_last() == pairs.take(j as int));
                assert(pairs.take(j + 1).last() == (
                    request.params[j as int].0@,
                    request.params[j as int].1@,
                ));
                lemma_pairs_size_grows(pairs, j + 1);
            }
            let with_key: Option<usize> = add_within(sum, byte_len(request.params[j].0.as_str()));
            let with_value: Option<usize> = match with_key {
                Some(s) => add_within(s, byte_len(request.params[j].1.as_str())),
                None => None,
            };
            let with_pair: Option<usize> = match with_value {
                Some(s) => add_within(s, 2),
                None => None,
            };
            match with_pair {
                Some(s) => {
                    sum = s;
                },
                None => {
                    return false;
                },
            }
            j += 1;
        }
        assert(pairs.take(j as int) == pairs);
        true
    }

    /// The address to which `request` is sent: the base of the catalogue,
    /// the segments of the request as its path and the pairs as its query.
    /// A request of more than `MAX_REQUEST_BYTES`, and a base that is no
    /// address to add to, give `Error::UrlParseError`.
    pub fn url(&self, request: &ApiRequest) -> (r: Result<String, Error>)
        ensures
            match r {
                Ok(text) => {
                    &&& request_size(self.base@, request.segments(), request.pairs())
                        <= MAX_REQUEST_BYTES
                    &&& address_of(self.base@, request.segments(), request.pairs()) == Some(
                        text@,
                    )
                },
                Err(e) => {
                    &&& e == Error::UrlParseError
                    &&& request_size(self.base@, request.segments(), request.pairs())
                        > MAX_REQUEST_BYTES || address_of(
                        self.base@,
                        request.segments(),
                        request.pairs(),
                    ) is None
                },
            },
    {
        if !self.fits(request) {
            return Err(Error::UrlParseError);
        }
        let address: Option<String> = url_address(
            self.base.as_str(),
            &request.path,
            &request.params,
        );
        Self::address_or_error(address)
    }

    /// The address where one was written, and `Error::UrlParseError` where
    /// none was.
    pub fn address_or_error(address: Option<String>) -> (r: Result<String, Error>)
        ensures
            r == (match address {
                Some(text) => Ok::<String, Error>(text),
                None => Err(Error::UrlParseError),
            }),
    {
        match address {
            Some(text) => Ok(text),
            None => Err(Error::UrlParseError),
        }
    }

    /// Searches artists.
    pub fn search_artist(&self, q: &str, index: u32, limit: u32) -> (r: ApiRequest)
        ensures
            r.segments() == seq!["search"@, "artist"@],
            r.pairs() == seq![("q"@, q@)] + page_pairs(index, limit),
    {
        let mut path: Vec<String> = Vec::new();
        path.push(String::from_str("search"));
        path.push(String::from_str("artist"));
        let mut params: Vec<(String, String)> = Vec::new();
        params.push(pair("q", String::from_str(q)));
        params.push(pair("index", decimal(index)));
        params.push(pair("limit", decimal(limit)));
        let r = ApiRequest { path, params };
        assert(r.segments() =~= seq!["search"@, "artist"@]);
        assert(r.pairs() =~= seq![("q"@, q@)] + page_pairs(index, limit));
        r
    }

    /// Gets artist by ID
    pub fn artist(&self, id: u32) -> (r: ApiRequest)
        ensures
            r.segments() == seq!["artist"@, decimal_of(id as nat)],
            r.pairs() == Seq::<(Seq<char>, Seq<char>)>::empty(),
    {
        let mut path: Vec<String> = Vec::new();
        path.push(String::from_str("artist"));
        path.push(decimal(id));
        let r = ApiRequest { path, params: Vec::new() };
        assert(r.segments() =~= seq!["artist"@, decimal_of(id as nat)]);
        assert(r.pairs() =~= Seq::<(Seq<char>, Seq<char>)>::empty());
        r
    }

    /// Gets albums by artist
    pub fn artist_albums(&self, id: u32, index: u32, limit: u32) -> (r: ApiRequest)
        ensures
            r.segments() == seq!["artist"@, decimal_of(id as nat), "albums"@],
            r.pairs() == page_pairs(index, limit),
    {
        let mut path: Vec<String> = Vec::new();
        path.push(String::from_str("artist"));
        path.push(decimal(id));
        path.push(String::from_str("albums"));
        let mut params: Vec<(String, String)> = Vec::new();
        params.push(pair("index", decimal(index)));
        params.push(pair("limit", decimal(limit)));
        let r = ApiRequest { path, params };
        assert(r.segments() =~= seq!["artist"@, decimal_of(id as nat), "albums"@]);
        assert(r.pairs() =~= page_pairs(index, limit));
        r
    }

    /// Gets tracks in album
    pub fn album_tracks(&self, id: u32, index: u32, limit: u32) -> (r: ApiRequest)
        ensures
            r.segments() == seq!["album"@, decimal_of(id as nat), "tracks"@],
            r.pairs() == page_pairs(index, limit),
    {
        let mut path: Vec<String> = Vec::new();
        path.push(String::from_str("album"));
        path.push(decimal(id));
        path.push(String::from_str("tracks"));
        let mut params: Vec<(String, String)> = Vec::new();
        params.push(pair("index", decimal(index)));
        params.push(pair("limit", decimal(limit)));
        let r = ApiRequest { path, params };
        assert(r.segments() =~= seq!["album"@, decimal_of(id as nat), "tracks"@]);
        assert(r.pairs() =~= page_pairs(index, limit));
        r
    }
}

impl Default for Deezer {
    /// The client of the public catalogue.
    fn default() -> (r: Self)
        ensures
            r.base@ == "https://api.deezer.com"@,
    {
        Self::new()
    }
}

/// Reading the number of an error gives that error again: no two errors
/// share a number.
pub proof fn lemma_code_round_trip(e: ApiErrCode)
    ensures
        ApiErrCode::spec_from_code(e.spec_code()) == e,
{
}

} // verus!
