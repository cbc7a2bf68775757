use rusty_pipe::json::Json;
use rusty_pipe::json_text::parse_json;
use rusty_pipe::stream_metadata::contains_ignoring_case;
use rusty_pipe::utils::{fix_thumbnail_url, mixed_number_word_parse, remove_non_digit_chars, text_from_object, url_from_navigation_endpoint};
use rusty_pipe::{ParsingError, YTChannelInfoItemExtractor, YTPlaylistExtractor, YTStreamExtractor};

fn json(text: &str) -> Json {
    parse_json(text).expect("test JSON")
}

fn video(primary: &str, secondary: &str, player_response: &str) -> YTStreamExtractor<()> {
    YTStreamExtractor {
        doc: String::new(),
        player_response: json(player_response),
        player_code: String::new(),
        video_id: "vid".to_string(),
        initial_data: json("{}"),
        primary_info_renderer: json(primary),
        secondary_info_renderer: json(secondary),
        downloader: (),
    }
}

fn is_parsing<T>(r: &Result<T, ParsingError>) -> bool {
    matches!(r, Err(ParsingError::ParsingError { .. }))
}

#[test]
fn display_text_from_simple_text_and_runs() {
    assert_eq!(text_from_object(&json(r#"{"simpleText": "a"}"#), false).unwrap(), "a");
    assert_eq!(
        text_from_object(&json(r#"{"runs": [{"text": "a\nb"}, {"x": 1}, {"text": "c"}]}"#), false).unwrap(),
        "a\nbc"
    );
    assert_eq!(
        text_from_object(&json(r#"{"runs": [{"text": "a\nb"}]}"#), true).unwrap(),
        "a<br>b"
    );
    assert!(text_from_object(&json(r#"{"runs": []}"#), false).is_none());
    assert!(text_from_object(&json(r#"{"other": 1}"#), false).is_none());
}

#[test]
fn navigation_targets() {
    assert_eq!(url_from_navigation_endpoint(&json(r#"{"urlEndpoint": {"url": "https://x"}}"#)), "https://x");
    assert_eq!(
        url_from_navigation_endpoint(&json(r#"{"browseEndpoint": {"canonicalBaseUrl": "/c/name", "browseId": "UC1"}}"#)),
        "https://www.youtube.com/c/name"
    );
    assert_eq!(
        url_from_navigation_endpoint(&json(r#"{"browseEndpoint": {"browseId": "UC1"}}"#)),
        "https://www.youtube.com/channel/UC1"
    );
    assert_eq!(
        url_from_navigation_endpoint(&json(r#"{"watchEndpoint": {"videoId": "v"}}"#)),
        "https://www.youtube.com/watch?v=v"
    );
    assert_eq!(url_from_navigation_endpoint(&json("{}")), "");
}

#[test]
fn thumbnail_urls() {
    assert_eq!(fix_thumbnail_url("//i.ytimg.com/a.jpg"), "https://i.ytimg.com/a.jpg");
    assert_eq!(fix_thumbnail_url("http://i.ytimg.com/a.jpg"), "https://i.ytimg.com/a.jpg");
    assert_eq!(fix_thumbnail_url("https://i.ytimg.com/a.jpg"), "https://i.ytimg.com/a.jpg");
    assert_eq!(fix_thumbnail_url("i.ytimg.com/a.jpg"), "https://i.ytimg.com/a.jpg");
}

#[test]
fn digits_in_text() {
    assert_eq!(remove_non_digit_chars("1,234 views", u128::MAX), Some(1234));
    assert_eq!(remove_non_digit_chars("no digits", u128::MAX), None);
    assert_eq!(remove_non_digit_chars("2147483648", 2147483647), None);
    assert_eq!(remove_non_digit_chars("2147483647", 2147483647), Some(2147483647));
    assert!(contains_ignoring_case("No Views yet", "no views"));
    assert!(!contains_ignoring_case("12 views", "no views"));
}

#[test]
fn video_name_prefers_renderer() {
    let v = video(r#"{"title": {"runs": [{"text": "T1"}]}}"#, "{}", r#"{"videoDetails": {"title": "T2"}}"#);
    assert_eq!(v.name().unwrap(), "T1");
    let w = video("{}", "{}", r#"{"videoDetails": {"title": "T2"}}"#);
    assert_eq!(w.name().unwrap(), "T2");
    assert!(is_parsing(&video("{}", "{}", "{}").name()));
}

#[test]
fn upload_dates() {
    let v = video("{}", "{}", r#"{"microformat": {"playerMicroformatRenderer": {"uploadDate": "2020-02-14", "publishDate": "2020-01-01"}}}"#);
    assert_eq!(v.textual_upload_date().unwrap(), "2020-02-14");
    let d = v.upload_date().unwrap();
    assert_eq!((d.year, d.month, d.day), (2020, 2, 14));
    let live = video("{}", "{}", r#"{"microformat": {"playerMicroformatRenderer": {"liveBroadcastDetails": {"startTimestamp": "2021-03-04"}}}}"#);
    assert_eq!(live.textual_upload_date().unwrap(), "2021-03-04");
    let bad = video("{}", "{}", r#"{"microformat": {"playerMicroformatRenderer": {"uploadDate": "yesterday"}}}"#);
    assert!(is_parsing(&bad.upload_date()));
    assert!(is_parsing(&video("{}", "{}", r#"{"microformat": {"playerMicroformatRenderer": {}}}"#).textual_upload_date()));
}

#[test]
fn description_sources() {
    let v = video("{}", r#"{"description": {"simpleText": "D"}}"#, r#"{"videoDetails": {"shortDescription": "S"}}"#);
    assert_eq!(v.description(false).unwrap(), ("D".to_string(), true));
    let w = video("{}", "{}", r#"{"videoDetails": {"shortDescription": "S"}}"#);
    assert_eq!(w.description(false).unwrap(), ("S".to_string(), false));
    assert!(is_parsing(&video("{}", "{}", "{}").description(true)));
}

#[test]
fn video_length() {
    assert_eq!(video("{}", "{}", r#"{"videoDetails": {"lengthSeconds": "212"}}"#).length().unwrap(), 212);
    let ms = r#"{"videoDetails": {"lengthSeconds": "x"}, "streamingData": {"formats": [{"approxDurationMs": "61999"}]}}"#;
    assert_eq!(video("{}", "{}", ms).length().unwrap(), 61);
    assert!(is_parsing(&video("{}", "{}", "{}").length()));
}

#[test]
fn view_counts() {
    let v = video(r#"{"viewCount": {"videoViewCountRenderer": {"viewCount": {"simpleText": "1,234,567 views"}}}}"#, "{}", "{}");
    assert_eq!(v.view_count().unwrap(), 1234567);
    let none = video(r#"{"viewCount": {"videoViewCountRenderer": {"viewCount": {"simpleText": "No views"}}}}"#, "{}", "{}");
    assert_eq!(none.view_count().unwrap(), 0);
    let fallback = video("{}", "{}", r#"{"videoDetails": {"viewCount": "42"}}"#);
    assert_eq!(fallback.view_count().unwrap(), 42);
    assert!(is_parsing(&video("{}", "{}", "{}").view_count()));
}

#[test]
fn rating_counts() {
    let v = video(r#"{"sentimentBar": {"sentimentBarRenderer": {"tooltip": "1,000 / 20"}}}"#, "{}", "{}");
    assert_eq!(v.like_count().unwrap(), 1000);
    assert_eq!(v.dislike_count().unwrap(), 20);
    let off = video("{}", "{}", r#"{"videoDetails": {"allowRatings": false}}"#);
    assert_eq!(off.like_count().unwrap(), -1);
    assert_eq!(off.dislike_count().unwrap(), -1);
    let on = video("{}", "{}", r#"{"videoDetails": {"allowRatings": true}}"#);
    assert!(is_parsing(&on.like_count()));
    let one_part = video(r#"{"sentimentBar": {"sentimentBarRenderer": {"tooltip": "7"}}}"#, "{}", r#"{"videoDetails": {"allowRatings": false}}"#);
    assert_eq!(one_part.like_count().unwrap(), 7);
    assert_eq!(one_part.dislike_count().unwrap(), -1);
}

#[test]
fn uploader_fields() {
    let secondary = r#"{"owner": {"videoOwnerRenderer": {
        "title": {"runs": [{"text": "Owner"}]},
        "navigationEndpoint": {"browseEndpoint": {"browseId": "UC9"}},
        "thumbnail": {"thumbnails": [{"url": "//i/a.jpg", "width": 1, "height": 2}, {"url": 3}]}}}}"#;
    let v = video("{}", secondary, "{}");
    assert_eq!(v.uploader_name().unwrap(), "Owner");
    assert_eq!(v.uploader_url().unwrap(), "https://www.youtube.com/channel/UC9");
    let avatars = v.uploader_avatar_url().unwrap();
    assert_eq!(avatars.len(), 1);
    assert_eq!(avatars[0].url, "https://i/a.jpg");
    let w = video("{}", "{}", r#"{"videoDetails": {"channelId": "UC1", "author": "A"}}"#);
    assert_eq!(w.uploader_url().unwrap(), "https://www.youtube.com/channel/UC1");
    assert_eq!(w.uploader_name().unwrap(), "A");
    assert_eq!(w.uploader_avatar_url().unwrap().len(), 0);
    assert!(is_parsing(&video("{}", "{}", "{}").uploader_url()));
}

#[test]
fn video_thumbnail_list() {
    let good = r#"{"videoDetails": {"thumbnail": {"thumbnails": [{"url": "http://i/x.jpg", "width": 10, "height": 20}]}}}"#;
    let t = video("{}", "{}", good).video_thumbnails().unwrap();
    assert_eq!((t[0].url.as_str(), t[0].width, t[0].height), ("https://i/x.jpg", 10, 20));
    let bad = r#"{"videoDetails": {"thumbnail": {"thumbnails": [{"url": "u"}]}}}"#;
    assert!(is_parsing(&video("{}", "{}", bad).video_thumbnails()));
    assert!(is_parsing(&video("{}", "{}", "{}").video_thumbnails()));
}

const PLAYLIST: &str = r#"{
  "sidebar": {"playlistSidebarRenderer": {"items": [
    {"playlistSidebarPrimaryInfoRenderer": {"title": {"runs": [{"text": "Mix"}]}, "stats": [{"runs": [{"text": "1,024 videos"}]}],
       "thumbnailRenderer": {"playlistVideoThumbnailRenderer": {"thumbnail": {"thumbnails": [{"url": "p", "width": 1, "height": 1}]}}}}},
    {"playlistSidebarSecondaryInfoRenderer": {"videoOwner": {"videoOwnerRenderer": {
       "title": {"simpleText": "Owner"},
       "navigationEndpoint": {"browseEndpoint": {"canonicalBaseUrl": "/user/o"}},
       "thumbnail": {"thumbnails": [{"url": "o", "width": 2, "height": 2}]}}}}}
  ]}},
  "microformat": {"microformatDataRenderer": {"title": "Micro"}}
}"#;

#[test]
fn playlist_metadata() {
    let p = YTPlaylistExtractor::from_parts((), json(PLAYLIST), None).unwrap();
    assert_eq!(p.name().unwrap(), "Mix");
    assert_eq!(p.stream_count().unwrap(), 1024);
    assert_eq!(p.thumbnails().unwrap()[0].url, "p");
    assert_eq!(p.uploader_name().unwrap(), "Owner");
    assert_eq!(p.uploader_url().unwrap(), "https://www.youtube.com/user/o");
    assert_eq!(p.uploader_avatars().unwrap()[0].url, "o");
    assert!(p.uploader_info().unwrap().get("title").is_some());
}

#[test]
fn playlist_name_falls_back_to_microformat() {
    let data = json(r#"{"sidebar": {"playlistSidebarRenderer": {"items": [{"playlistSidebarPrimaryInfoRenderer": {}}]}},
        "microformat": {"microformatDataRenderer": {"title": "Micro"}}}"#);
    let p = YTPlaylistExtractor::from_parts((), data, None).unwrap();
    assert_eq!(p.name().unwrap(), "Micro");
    assert!(is_parsing(&p.uploader_info()));
    assert!(is_parsing(&p.stream_count()));
    assert!(is_parsing(&p.thumbnails()));
}

#[test]
fn channel_item_fields() {
    let c = YTChannelInfoItemExtractor {
        channel_info: json(r#"{"channelId": "UC5", "title": {"simpleText": "Chan"},
            "videoCountText": {"runs": [{"text": "31 videos"}]},
            "descriptionSnippet": {"simpleText": "About"},
            "thumbnail": {"thumbnails": [{"url": "c", "width": 1, "height": 1}]}}"#),
    };
    assert_eq!(c.channel_id().unwrap(), "UC5");
    assert_eq!(c.url().unwrap(), "https://www.youtube.com/channel/UC5");
    assert_eq!(c.name().unwrap(), "Chan");
    assert_eq!(c.stream_count().unwrap(), 31);
    assert_eq!(c.description().unwrap().unwrap(), "About");
    assert_eq!(c.thumbnails().unwrap().len(), 1);
    let bare = YTChannelInfoItemExtractor { channel_info: json("{}") };
    assert_eq!(bare.stream_count().unwrap(), -1);
    assert!(bare.description().unwrap().is_none());
    assert!(is_parsing(&bare.channel_id()));
    assert!(is_parsing(&bare.name()));
    assert!(is_parsing(&bare.thumbnails()));
}

#[test]
fn magnitude_words() {
    assert_eq!(mixed_number_word_parse("1.5K subscribers"), Some(1500));
    assert_eq!(mixed_number_word_parse("2,34M"), Some(2340000));
    assert_eq!(mixed_number_word_parse("about 12 subscribers"), Some(12));
    assert_eq!(mixed_number_word_parse("1.23456m"), Some(1234560));
    assert_eq!(mixed_number_word_parse("3B"), None);
    assert_eq!(mixed_number_word_parse("2.1b"), Some(2100000000));
    assert_eq!(mixed_number_word_parse("2.2b"), None);
    assert_eq!(mixed_number_word_parse("2.1K"), Some(2100));
    assert_eq!(mixed_number_word_parse("none"), None);
    let c = YTChannelInfoItemExtractor {
        channel_info: json(r#"{"subscriberCountText": {"simpleText": "4.7K subscribers"}}"#),
    };
    assert_eq!(c.subscriber_count().unwrap(), 4700);
    let bare = YTChannelInfoItemExtractor { channel_info: json("{}") };
    assert_eq!(bare.subscriber_count().unwrap(), -1);
    let words = YTChannelInfoItemExtractor {
        channel_info: json(r#"{"subscriberCountText": {"simpleText": "many"}}"#),
    };
    assert!(is_parsing(&words.subscriber_count()));
}
