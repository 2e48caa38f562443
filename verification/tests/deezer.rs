use music_quiz::deezer::{
    decimal, ApiErrCode, ApiRequest, Deezer, DeezerResponse, Error, PaginatedResponse,
    MAX_REQUEST_BYTES, PAGE_LIMIT, QUOTA, WINDOW_MILLIS,
};

fn pairs(request: &ApiRequest) -> Vec<(&str, &str)> {
    request.params.iter().map(|p| (p.0.as_str(), p.1.as_str())).collect()
}

#[test]
fn every_documented_code_is_read() {
    assert_eq!(ApiErrCode::from_code(4), ApiErrCode::Quota);
    assert_eq!(ApiErrCode::from_code(100), ApiErrCode::ItemsLimitExceeded);
    assert_eq!(ApiErrCode::from_code(200), ApiErrCode::Permission);
    assert_eq!(ApiErrCode::from_code(300), ApiErrCode::TokenInvalid);
    assert_eq!(ApiErrCode::from_code(500), ApiErrCode::Parameter);
    assert_eq!(ApiErrCode::from_code(501), ApiErrCode::ParameterMissing);
    assert_eq!(ApiErrCode::from_code(600), ApiErrCode::QueryInvalid);
    assert_eq!(ApiErrCode::from_code(700), ApiErrCode::ServiceBusy);
    assert_eq!(ApiErrCode::from_code(800), ApiErrCode::DataNotFound);
    assert_eq!(ApiErrCode::from_code(901), ApiErrCode::IndividualAccountNotAllowed);
}

#[test]
fn an_unknown_code_is_other() {
    assert_eq!(ApiErrCode::from_code(0), ApiErrCode::Other);
    assert_eq!(ApiErrCode::from_code(1), ApiErrCode::Other);
    assert_eq!(ApiErrCode::from_code(801), ApiErrCode::Other);
    assert_eq!(ApiErrCode::from_code(900), ApiErrCode::Other);
    assert_eq!(ApiErrCode::from_code(u16::MAX), ApiErrCode::Other);
}

#[test]
fn codes_go_round() {
    let mut documented = 0;
    for code in 0..=u16::MAX {
        let read = ApiErrCode::from_code(code);
        if read != ApiErrCode::Other {
            documented += 1;
            assert_eq!(read.code(), code);
        }
    }
    assert_eq!(documented, 10);
    assert_eq!(ApiErrCode::Other.code(), 0);
}

#[test]
fn test_missing_artist() {
    let answer: DeezerResponse<u32> = DeezerResponse::Error { code: ApiErrCode::from_code(800) };
    let artist_err = match answer.into_result().unwrap_err() {
        Error::ApiError(e) => e,
        other => panic!("expected api error, got: {other:#?}"),
    };
    assert_eq!(artist_err, ApiErrCode::DataNotFound);
}

#[test]
fn an_answer_without_an_error_is_its_value() {
    let page = PaginatedResponse { data: vec![1u32, 2, 3], total: 3 };
    let answer = DeezerResponse::Value(page);
    assert_eq!(answer.into_result(), Ok(PaginatedResponse { data: vec![1u32, 2, 3], total: 3 }));
}

#[test]
fn errors_have_their_messages() {
    assert_eq!(Error::ReqwestError.message(), "request error");
    assert_eq!(Error::UrlParseError.message(), "url parse error");
    assert_eq!(Error::ApiError(ApiErrCode::Quota).message(), "api error");
}

#[test]
fn the_limits_of_the_catalogue() {
    assert_eq!(QUOTA, 45);
    assert_eq!(WINDOW_MILLIS, 5_000);
    assert_eq!(PAGE_LIMIT, 300);
}

#[test]
fn numbers_are_written_in_decimal() {
    assert_eq!(decimal(0), "0");
    assert_eq!(decimal(7), "7");
    assert_eq!(decimal(10), "10");
    assert_eq!(decimal(56_563_392), "56563392");
    assert_eq!(decimal(1_000_000_000), "1000000000");
    assert_eq!(decimal(u32::MAX), "4294967295");
}

#[test]
fn the_request_for_an_artist() {
    let request = Deezer::new().artist(56_563_392);
    assert_eq!(request.path, vec!["artist".to_string(), "56563392".to_string()]);
    assert!(request.params.is_empty());
}

#[test]
fn the_request_for_a_search() {
    let request = Deezer::new().search_artist("Mili", 0, 25);
    assert_eq!(request.path, vec!["search".to_string(), "artist".to_string()]);
    assert_eq!(pairs(&request), vec![("q", "Mili"), ("index", "0"), ("limit", "25")]);
}

#[test]
fn the_request_for_the_albums_of_an_artist() {
    let request = Deezer::new().artist_albums(56_563_392, 0, 100);
    assert_eq!(
        request.path,
        vec!["artist".to_string(), "56563392".to_string(), "albums".to_string()]
    );
    assert_eq!(pairs(&request), vec![("index", "0"), ("limit", "100")]);
}

#[test]
fn the_request_for_the_tracks_of_an_album() {
    let request = Deezer::new().album_tracks(59_795_132, 300, 300);
    assert_eq!(
        request.path,
        vec!["album".to_string(), "59795132".to_string(), "tracks".to_string()]
    );
    assert_eq!(pairs(&request), vec![("index", "300"), ("limit", "300")]);
}

#[test]
fn the_address_of_an_artist() {
    let client = Deezer::new();
    assert_eq!(client.base, "https://api.deezer.com");
    let address = client.url(&client.artist(56_563_392));
    assert_eq!(address, Ok("https://api.deezer.com/artist/56563392?".to_string()));
}

#[test]
fn the_address_of_a_listing() {
    let client = Deezer::new();
    let address = client.url(&client.artist_albums(56_563_392, 0, 300));
    assert_eq!(
        address,
        Ok("https://api.deezer.com/artist/56563392/albums?index=0&limit=300".to_string())
    );
}

#[test]
fn the_address_of_a_search_escapes_the_query() {
    let client = Deezer::new();
    let address = client.url(&client.search_artist("AC/DC & friends", 0, 10));
    assert_eq!(
        address,
        Ok("https://api.deezer.com/search/artist?q=AC%2FDC+%26+friends&index=0&limit=10"
            .to_string())
    );
}

#[test]
fn a_segment_is_escaped_and_keeps_its_slash() {
    let client = Deezer { base: "https://example.org/api".to_string() };
    let request = ApiRequest { path: vec!["a/b c".to_string()], params: vec![] };
    assert_eq!(client.url(&request), Ok("https://example.org/api/a%2Fb%20c?".to_string()));
}

#[test]
fn a_base_that_is_no_address_gives_no_address() {
    let client = Deezer { base: "not an address".to_string() };
    assert_eq!(client.url(&client.artist(1)), Err(Error::UrlParseError));
    let mail = Deezer { base: "mailto:someone@example.org".to_string() };
    assert_eq!(mail.url(&mail.artist(1)), Err(Error::UrlParseError));
}

#[test]
fn a_request_that_is_too_long_gives_no_address() {
    let client = Deezer::new();
    let long = "a".repeat(MAX_REQUEST_BYTES);
    let request = client.search_artist(&long, 0, 10);
    assert!(!client.fits(&request));
    assert_eq!(client.url(&request), Err(Error::UrlParseError));
}

#[test]
fn the_size_of_a_request_counts_bytes_and_separators() {
    // 22 bytes of base, 2 segments of 6 + 1, 3 pairs: (1 + n + 2), (5 + 1 + 2), (5 + 2 + 2).
    let client = Deezer::new();
    let fixed = 22 + 7 + 7 + 3 + 8 + 9;
    let fits = "a".repeat(MAX_REQUEST_BYTES - fixed);
    assert!(client.fits(&client.search_artist(&fits, 0, 10)));
    let over = "a".repeat(MAX_REQUEST_BYTES - fixed + 1);
    assert!(!client.fits(&client.search_artist(&over, 0, 10)));
    // A character of three bytes counts three.
    let wide = "\u{3042}".repeat((MAX_REQUEST_BYTES - fixed) / 3);
    assert!(client.fits(&client.search_artist(&wide, 0, 10)));
    let wider = "\u{3042}".repeat((MAX_REQUEST_BYTES - fixed) / 3 + 1);
    assert!(!client.fits(&client.search_artist(&wider, 0, 10)));
}

#[test]
fn an_address_or_the_error() {
    assert_eq!(Deezer::address_or_error(Some("x".to_string())), Ok("x".to_string()));
    assert_eq!(Deezer::address_or_error(None), Err(Error::UrlParseError));
}

#[test]
fn the_default_client_is_that_of_the_public_catalogue() {
    assert_eq!(Deezer::default(), Deezer::new());
    assert_eq!(Deezer::default().base, "https://api.deezer.com");
}
