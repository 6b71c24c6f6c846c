use freally_player::opensubtitles::{
    api_error_message, bearer, bounded_download, download_link, download_read_limit,
    download_refused, endpoint, login_token, rank_candidates, read_reply, search_params,
    Candidate, FetchError, SearchAttributes, SearchFile, SearchItem, MAX_DOWNLOAD_BYTES,
};
use serde_json::Value;

fn text(v: &Value, key: &str) -> Option<String> {
    v.get(key).and_then(|x| x.as_str()).map(|s| s.to_owned())
}

/// Reads a search reply's listings the way the reply's shape is declared: missing fields take
/// their defaults.
fn listings(body: &str) -> Vec<SearchItem> {
    let v: Value = serde_json::from_str(body).expect("json");
    v.get("data")
        .and_then(|d| d.as_array())
        .map(|items| {
            items
                .iter()
                .map(|item| SearchItem {
                    attributes: item.get("attributes").filter(|a| !a.is_null()).map(|a| SearchAttributes {
                        language: text(a, "language"),
                        release: text(a, "release"),
                        download_count: a.get("download_count").and_then(|n| n.as_i64()).unwrap_or(0),
                        files: a
                            .get("files")
                            .and_then(|f| f.as_array())
                            .map(|fs| {
                                fs.iter()
                                    .map(|f| SearchFile {
                                        file_id: f.get("file_id").and_then(|n| n.as_i64()).expect("file_id"),
                                        file_name: text(f, "file_name"),
                                    })
                                    .collect()
                            })
                            .unwrap_or_default(),
                    }),
                })
                .collect()
        })
        .unwrap_or_default()
}

#[test]
fn a_search_response_parses_and_ranks_by_downloads() {
    let body = r#"{
      "total_count": 2,
      "data": [
        {
          "id": "1",
          "type": "subtitle",
          "attributes": {
            "language": "en",
            "release": "Movie.2020.1080p.BluRay",
            "download_count": 120,
            "files": [ { "file_id": 55, "file_name": "movie.en.srt" } ]
          }
        },
        {
          "id": "2",
          "type": "subtitle",
          "attributes": {
            "language": "en",
            "release": "Movie.2020.WEBRip",
            "download_count": 900,
            "files": [ { "file_id": 66, "file_name": "movie.web.srt" } ]
          }
        }
      ]
    }"#;
    let candidates = rank_candidates(listings(body));
    assert_eq!(candidates.len(), 2);
    assert_eq!(candidates[0].file_id, 66);
    assert_eq!(candidates[0].download_count, 900);
    assert_eq!(candidates[1].file_id, 55);
    assert_eq!(candidates[0].language.as_deref(), Some("en"));
}

#[test]
fn a_listing_with_no_downloadable_file_is_dropped() {
    let body = r#"{ "data": [
      { "attributes": { "language": "de", "download_count": 5, "files": [] } }
    ] }"#;
    assert!(rank_candidates(listings(body)).is_empty());
}

#[test]
fn an_empty_search_is_not_an_error() {
    assert!(rank_candidates(listings(r#"{ "data": [] }"#)).is_empty());
}

#[test]
fn a_login_token_is_extracted() {
    let v: Value = serde_json::from_str(r#"{ "token": "abc123", "status": 200 }"#).unwrap();
    assert_eq!(login_token(text(&v, "token")).expect("token"), "abc123");
}

#[test]
fn a_login_without_a_token_is_a_parse_error() {
    let v: Value = serde_json::from_str(r#"{ "status": 401 }"#).unwrap();
    assert!(matches!(login_token(text(&v, "token")), Err(FetchError::Parse(_))));
    assert!(matches!(login_token(Some(String::new())), Err(FetchError::Parse(_))));
}

#[test]
fn a_download_link_is_extracted() {
    let v: Value =
        serde_json::from_str(r#"{ "link": "https://dl.opensubtitles.com/x.srt", "requests": 3 }"#).unwrap();
    assert_eq!(download_link(text(&v, "link")).expect("link"), "https://dl.opensubtitles.com/x.srt");
    assert_eq!(
        download_link(None),
        Err(FetchError::Parse("no download link in the reply".to_owned()))
    );
}

#[test]
fn an_api_error_message_is_pulled_out() {
    let v: Value = serde_json::from_str(r#"{ "message": "invalid api key" }"#).unwrap();
    assert_eq!(api_error_message(text(&v, "message")).as_deref(), Some("invalid api key"));
    let not_json = serde_json::from_str::<Value>("plain text, not json").ok();
    assert_eq!(api_error_message(not_json.and_then(|v| text(&v, "message"))), None);
    assert_eq!(api_error_message(Some(String::new())), None);
}

#[test]
fn equally_downloaded_candidates_keep_their_listing_order() {
    let item = |id: i64, count: i64, name: Option<&str>| SearchItem {
        attributes: Some(SearchAttributes {
            language: None,
            release: None,
            download_count: count,
            files: vec![SearchFile { file_id: id, file_name: name.map(|n| n.to_owned()) }],
        }),
    };
    let ranked = rank_candidates(vec![
        item(1, 5, Some("a")),
        SearchItem { attributes: None },
        item(2, 9, None),
        item(3, 5, Some("c")),
        item(4, 9, Some("d")),
    ]);
    let ids: Vec<i64> = ranked.iter().map(|c| c.file_id).collect();
    assert_eq!(ids, vec![2, 4, 1, 3]);
    assert_eq!(
        ranked[0],
        Candidate { file_id: 2, file_name: "subtitle".to_owned(), language: None, release: None, download_count: 9 }
    );
}

#[test]
fn every_fetch_error_reads_as_documented() {
    assert_eq!(FetchError::Http("timed out".to_owned()).message(), "could not reach OpenSubtitles: timed out");
    assert_eq!(
        FetchError::Api { status: 401, message: "invalid api key".to_owned() }.message(),
        "OpenSubtitles refused the request (401): invalid api key"
    );
    assert_eq!(FetchError::Parse("eof".to_owned()).message(), "unexpected reply from OpenSubtitles: eof");
    assert_eq!(FetchError::TooLarge.message(), "the subtitle from OpenSubtitles was too large to load");
}

#[test]
fn a_refused_reply_carries_the_apis_message_or_the_body() {
    assert_eq!(read_reply(true, 200, "{}".to_owned(), None), Ok("{}".to_owned()));
    assert_eq!(
        read_reply(false, 403, "{\"message\":\"quota\"}".to_owned(), Some("quota".to_owned())),
        Err(FetchError::Api { status: 403, message: "quota".to_owned() })
    );
    assert_eq!(
        read_reply(false, 500, "oops".to_owned(), None),
        Err(FetchError::Api { status: 500, message: "oops".to_owned() })
    );
}

#[test]
fn a_search_sends_only_the_query_and_languages() {
    let params = search_params("Arrival", &vec!["en".to_owned(), "fr".to_owned()]);
    assert_eq!(
        params,
        vec![
            ("query".to_owned(), "Arrival".to_owned()),
            ("languages".to_owned(), "en,fr".to_owned())
        ]
    );
    assert_eq!(search_params("x", &Vec::new()), vec![("query".to_owned(), "x".to_owned())]);
}

#[test]
fn requests_are_addressed_and_authorised_as_the_api_expects() {
    assert_eq!(endpoint("subtitles"), "https://api.opensubtitles.com/api/v1/subtitles");
    assert_eq!(bearer("tok"), "Bearer tok");
    assert_eq!(download_read_limit(), MAX_DOWNLOAD_BYTES + 1);
    assert_eq!(
        download_refused(410),
        FetchError::Api { status: 410, message: "download link rejected".to_owned() }
    );
    assert_eq!(bounded_download(vec![1, 2, 3]), Ok(vec![1, 2, 3]));
    assert_eq!(
        bounded_download(vec![0; (MAX_DOWNLOAD_BYTES + 1) as usize]),
        Err(FetchError::TooLarge)
    );
}
