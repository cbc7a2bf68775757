use rusty_pipe::cipher::{cipher_stream_url, compat_parse_map, param_value};
use rusty_pipe::envelope::{initial_data, player_response_from_initial_ajax, response_at};
use rusty_pipe::items::classify_items;
use rusty_pipe::json::{walk_path, Hop, Json};
use rusty_pipe::json_text::parse_json;
use rusty_pipe::playlist::{next_page_url_from, page_from_body, playlist_request_url};
use rusty_pipe::text::decimal;
use rusty_pipe::search::{parse_page_number, search_page_request_url, search_request_url, suggestions_from_body};
use rusty_pipe::signature::{build_decryption_script, decryption_func_name, load_decryption_code, match_group1};
use rusty_pipe::stream::{itags, ItagType, StreamItem, Thumbnail};
use rusty_pipe::stream_extractor::{
    envelope_request_url, fix_player_url, player_config, player_script_url, watch_request_url,
};
use rusty_pipe::{
    JsEvaluator, ParsingError, Resolution, YTPlaylistExtractor, YTSearchExtractor, YTSearchItem,
    YTStreamExtractor,
};

/// Answers every script with the token it was asked to decode, marked.
struct MarkingEvaluator;

impl JsEvaluator for MarkingEvaluator {
    fn eval_js(&self, script: &str) -> Result<String, String> {
        let start = script.rfind("decrypt(\"").ok_or("no call")? + "decrypt(\"".len();
        let end = script.len() - "\")".len();
        Ok(format!("dec-{}", &script[start..end]))
    }
}

/// Fails every evaluation.
struct FailingEvaluator;

impl JsEvaluator for FailingEvaluator {
    fn eval_js(&self, _script: &str) -> Result<String, String> {
        Err("engine down".to_string())
    }
}

const SCRIPT: &str = "var Ab={cd:function(a,b){a.splice(0,b)}};xy=function(a){a=a.split(\"\");Ab.cd(a,2);return a.join(\"\")};";
const PROGRAM: &str = "var Ab={cd:function(a,b){a.splice(0,b)}};var xy=function(a){a=a.split(\"\");Ab.cd(a,2);return a.join(\"\")};function decrypt(a){return xy(a);}";

fn json(text: &str) -> Json {
    parse_json(text).expect("test JSON")
}

fn extractor<D>(downloader: D, player_response: &str, code: &str) -> YTStreamExtractor<D> {
    YTStreamExtractor {
        doc: String::new(),
        player_response: json(player_response),
        player_code: code.to_string(),
        video_id: "vid".to_string(),
        initial_data: json("{}"),
        primary_info_renderer: json("{}"),
        secondary_info_renderer: json("{}"),
        downloader,
    }
}

fn is_parsing<T>(r: &Result<T, ParsingError>) -> bool {
    matches!(r, Err(ParsingError::ParsingError { .. }))
}

#[test]
fn parse_json_reads_a_tree() {
    let j = json(r#"{"a": [1, "x", null, true, 2.5]}"#);
    let a = j.get("a").unwrap();
    assert!(matches!(a.at(0), Some(Json::Int(1))));
    assert_eq!(a.at(1).unwrap().as_str().unwrap(), "x");
    assert!(a.at(2).unwrap().is_null());
    assert_eq!(a.at(3).unwrap().as_bool(), Some(true));
    assert!(matches!(a.at(4), Some(Json::Decimal(_))));
    assert!(parse_json("{not json").is_none());
}

#[test]
fn envelope_direct_shape_is_flagged() {
    let env = json(r#"[{}, {}, {"response": {"k": 1}}, {"response": {"k": 2}}]"#);
    let (resp, restricted) = initial_data(&env).unwrap();
    assert!(restricted);
    assert!(matches!(resp.get("k"), Some(Json::Int(1))));
}

#[test]
fn envelope_fallback_shape_reads_index_three() {
    let env = json(r#"[{}, {}, {"other": 0}, {"response": {"k": 2}}]"#);
    let (resp, restricted) = initial_data(&env).unwrap();
    assert!(!restricted);
    assert!(matches!(resp.get("k"), Some(Json::Int(2))));
}

#[test]
fn envelope_without_either_shape_fails() {
    assert!(is_parsing(&initial_data(&json(r#"[{}, {}, {"x": 1}, {"y": 2}]"#))));
    assert!(is_parsing(&initial_data(&json(r#"[{}, {}, {"x": 1}]"#))));
    assert!(is_parsing(&initial_data(&json(r#"[{}, {}, 3, {"response": {}}]"#))));
    assert!(is_parsing(&initial_data(&json(r#"{"response": {}}"#))));
}

#[test]
fn inline_player_response_needs_streaming_data() {
    let with = json(r#"[0, 1, {"playerResponse": {"streamingData": {"formats": []}, "v": 1}}]"#);
    let p = player_response_from_initial_ajax(&with).unwrap();
    assert!(matches!(p.get("v"), Some(Json::Int(1))));
    let empty = json(r#"[0, 1, {"playerResponse": {"streamingData": {}, "v": 1}}]"#);
    assert!(player_response_from_initial_ajax(&empty).is_none());
    let null = json(r#"[0, 1, {"playerResponse": {"streamingData": null}}]"#);
    assert!(player_response_from_initial_ajax(&null).is_none());
    let empty_list = json(r#"[0, 1, {"playerResponse": {"streamingData": []}}]"#);
    assert!(player_response_from_initial_ajax(&empty_list).is_none());
    let without = json(r#"[0, 1, {"playerResponse": {"v": 1}}]"#);
    assert!(player_response_from_initial_ajax(&without).is_none());
}

#[test]
fn page_envelope_response_at_index_one() {
    let env = json(r#"[{}, {"response": {"z": 9}}]"#);
    assert!(matches!(response_at(&env, 1).unwrap().get("z"), Some(Json::Int(9))));
    assert!(is_parsing(&response_at(&env, 0)));
}

#[test]
fn cascade_finds_function_name() {
    assert_eq!(decryption_func_name(SCRIPT).unwrap(), "xy");
    assert!(decryption_func_name("var nothing = 1;").is_none());
}

#[test]
fn program_is_assembled_from_script() {
    assert_eq!(load_decryption_code(SCRIPT).unwrap(), PROGRAM);
}

#[test]
fn program_ignores_newlines_in_helper() {
    let script = "var Ab={cd:function(a,b){a.splice(0,b)}\n};xy=function(a){a=a.split(\"\");Ab.cd(a,2);return a.join(\"\")};";
    assert_eq!(load_decryption_code(script).unwrap(), PROGRAM);
}

#[test]
fn program_with_dollar_names() {
    let script = "var $b={cd:function(a,b){a.reverse()}};x$=function(a){a=a.split(\"\");$b.cd(a,2);return a.join(\"\")};";
    let program = load_decryption_code(script).unwrap();
    assert!(program.starts_with("var $b={cd:function(a,b){a.reverse()}};var x$=function(a)"));
    assert!(program.ends_with("function decrypt(a){return x$(a);}"));
}

#[test]
fn locate_is_deterministic() {
    assert_eq!(load_decryption_code(SCRIPT).unwrap(), load_decryption_code(SCRIPT).unwrap());
}

#[test]
fn locate_fails_without_any_pattern() {
    assert!(is_parsing(&load_decryption_code("function f(b){return b}")));
}

#[test]
fn match_group1_reports_no_match() {
    assert_eq!(match_group1("a(b+)c", "xxabbbc").unwrap(), "bbb");
    assert!(is_parsing(&match_group1("a(b+)c", "xyz")));
}

#[test]
fn decryption_script_calls_decrypt() {
    assert_eq!(build_decryption_script("P", "AAA"), "P;decrypt(\"AAA\")");
}

#[test]
fn cipher_blob_is_decoded() {
    let pairs = compat_parse_map("url=https%3A%2F%2Fex.com%2Fv&sp=sig&s=AAA");
    assert_eq!(pairs.len(), 3);
    assert_eq!(param_value(&pairs, "url"), "https://ex.com/v");
    assert_eq!(param_value(&pairs, "sp"), "sig");
    assert_eq!(param_value(&pairs, "s"), "AAA");
    assert_eq!(param_value(&pairs, "missing"), "");
    assert_eq!(cipher_stream_url(&pairs, "ZZ"), "https://ex.com/v&sig=ZZ");
}

#[test]
fn cipher_blob_edge_cases() {
    let pairs = compat_parse_map("a=1&b&a=2&c=x=y");
    assert_eq!(param_value(&pairs, "a"), "2");
    assert_eq!(param_value(&pairs, "b"), "");
    assert_eq!(param_value(&pairs, "c"), "x");
    assert_eq!(compat_parse_map("").len(), 1);
}

const CIPHER_RESPONSE: &str = r#"{"streamingData": {"adaptiveFormats": [
    {"itag": 251, "bitrate": 1000, "quality": "tiny", "lastModified": "1", "mimeType": "audio/webm",
     "audioQuality": "AUDIO_QUALITY_LOW",
     "signatureCipher": "url=https%3A%2F%2Fex.com%2Fv&sp=sig&s=AAA"}
]}}"#;

#[test]
fn cipher_protected_stream_gets_decrypted_url() {
    let x = extractor(MarkingEvaluator, CIPHER_RESPONSE, PROGRAM);
    let audio = x.audio_streams().unwrap();
    assert_eq!(audio.len(), 1);
    assert_eq!(audio[0].url.as_deref(), Some("https://ex.com/v&sig=dec-AAA"));
    assert_eq!(audio[0].itag, 251);
}

#[test]
fn failed_evaluation_gives_empty_signature() {
    let x = extractor(FailingEvaluator, CIPHER_RESPONSE, PROGRAM);
    let audio = x.audio_streams().unwrap();
    assert_eq!(audio[0].url.as_deref(), Some("https://ex.com/v&sig="));
}

const MIXED_RESPONSE: &str = r#"{"streamingData": {
  "formats": [
    {"url": "u1", "itag": 18, "bitrate": 5, "quality": "medium", "lastModified": "1", "mimeType": "video/mp4", "height": 360, "audioQuality": "AUDIO_QUALITY_LOW"}
  ],
  "adaptiveFormats": [
    {"url": "v1", "itag": 137, "bitrate": 9, "quality": "hd1080", "lastModified": "1", "mimeType": "video/mp4", "height": 1080, "width": 1920},
    {"url": "a1", "itag": 140, "bitrate": 2, "quality": "tiny", "lastModified": "1", "mimeType": "audio/mp4", "audioQuality": "AUDIO_QUALITY_MEDIUM", "audioChannels": 2},
    {"url": "bad", "itag": "x", "bitrate": 2, "quality": "tiny", "lastModified": "1", "mimeType": "audio/mp4"},
    {"url": "v1", "itag": 136, "bitrate": 7, "quality": "hd720", "lastModified": "1", "mimeType": "video/mp4", "height": 720, "width": 1280},
    {"url": "n1", "itag": 160, "bitrate": 1, "quality": "tiny", "lastModified": "1", "mimeType": "video/mp4", "height": null}
  ]
}}"#;

#[test]
fn audio_bucket_excludes_entries_with_height() {
    let x = extractor(MarkingEvaluator, MIXED_RESPONSE, "");
    let audio = x.audio_streams().unwrap();
    let tags: Vec<u32> = audio.iter().map(|s| s.itag).collect();
    assert_eq!(tags, vec![140, 160]);
    assert!(audio.iter().all(|s| s.height.is_none()));
}

#[test]
fn video_only_bucket_excludes_entries_with_audio_quality() {
    let x = extractor(MarkingEvaluator, MIXED_RESPONSE, "");
    let video = x.video_only_stream().unwrap();
    let tags: Vec<u32> = video.iter().map(|s| s.itag).collect();
    assert_eq!(tags, vec![136, 160]);
    assert!(video.iter().all(|s| s.audio_quality.is_none()));
    assert_eq!(video[0].url.as_deref(), Some("v1"));
    assert_eq!(video[0].height, Some(720));
}

#[test]
fn combined_bucket_keeps_everything() {
    let x = extractor(MarkingEvaluator, MIXED_RESPONSE, "");
    let all = x.video_stream().unwrap();
    assert_eq!(all.len(), 1);
    assert_eq!(all[0].itag, 18);
    assert_eq!(all[0].audio_quality.as_deref(), Some("AUDIO_QUALITY_LOW"));
}

#[test]
fn missing_streaming_data_fails_and_missing_list_is_empty() {
    let x = extractor(MarkingEvaluator, r#"{"videoDetails": {}}"#, "");
    assert!(is_parsing(&x.audio_streams()));
    let y = extractor(MarkingEvaluator, r#"{"streamingData": {}}"#, "");
    assert_eq!(y.video_stream().unwrap().len(), 0);
    let pr = json(r#"{"streamingData": 5}"#);
    assert!(is_parsing(&itags(&MarkingEvaluator, "formats", ItagType::Video, &pr, "")));
}

#[test]
fn stream_item_reads_typed_fields() {
    let ok = json(r#"{"itag": 1, "bitrate": 2, "quality": "q", "lastModified": "l", "mimeType": "m", "width": null, "extra": [1]}"#);
    let it = StreamItem::from_json(&ok).unwrap();
    assert_eq!(it.itag, 1);
    assert_eq!(it.width, None);
    assert_eq!(it.mime_type, "m");
    let missing = json(r#"{"itag": 1, "bitrate": 2, "quality": "q", "lastModified": "l"}"#);
    assert!(StreamItem::from_json(&missing).is_none());
    let too_big = json(r#"{"itag": 4294967296, "bitrate": 2, "quality": "q", "lastModified": "l", "mimeType": "m"}"#);
    assert!(StreamItem::from_json(&too_big).is_none());
    let t = Thumbnail::from_json(&json(r#"{"url": "u", "width": 3, "height": 4}"#)).unwrap();
    assert_eq!((t.url.as_str(), t.width, t.height), ("u", 3, 4));
}

#[test]
fn classification_keeps_known_renderers_only() {
    let nodes = match json(r#"[{"videoRenderer": {"videoId": "a"}}, {"channelRenderer": {"channelId": "c"}}, {"unknownRenderer": {"x": 1}}]"#) {
        Json::Array(v) => v,
        _ => unreachable!(),
    };
    let items = classify_items(&nodes).unwrap();
    assert_eq!(items.len(), 2);
    assert!(matches!(items[0], YTSearchItem::StreamInfoItem(_)));
    assert!(matches!(items[1], YTSearchItem::ChannelInfoItem(_)));
}

#[test]
fn classification_priority_and_empty_marker() {
    let nodes = match json(r#"[{"compactVideoRenderer": {"v": 1}}, {"playlistRenderer": {"p": 1}}, {"videoRenderer": 3, "channelRenderer": {}}]"#) {
        Json::Array(v) => v,
        _ => unreachable!(),
    };
    let items = YTSearchExtractor::<()>::collect_streams_from(&nodes).unwrap();
    assert_eq!(items.len(), 2);
    assert!(matches!(items[1], YTSearchItem::PlaylistInfoItem(_)));
    let empty = match json(r#"[{"videoRenderer": {}}, {"backgroundPromoRenderer": {}}, {"channelRenderer": {}}]"#) {
        Json::Array(v) => v,
        _ => unreachable!(),
    };
    assert_eq!(classify_items(&empty).unwrap().len(), 0);
    let marker_only = match json(r#"[{"backgroundPromoRenderer": {}}]"#) {
        Json::Array(v) => v,
        _ => unreachable!(),
    };
    assert_eq!(YTSearchExtractor::<()>::collect_streams_from(&marker_only).unwrap().len(), 0);
}

fn page_body(videos: &[&str], next: Option<(&str, &str)>) -> String {
    let contents: Vec<String> = videos
        .iter()
        .map(|v| format!(r#"{{"playlistVideoRenderer": {{"videoId": "{}"}}}}"#, v))
        .collect();
    let continuations = match next {
        Some((token, tracking)) => format!(
            r#", "continuations": [{{"nextContinuationData": {{"continuation": "{}", "clickTrackingParams": "{}"}}}}]"#,
            token, tracking
        ),
        None => String::new(),
    };
    format!(
        r#"[{{}}, {{"response": {{"continuationContents": {{"playlistVideoListContinuation": {{"contents": [{}]{}}}}}}}}}]"#,
        contents.join(","),
        continuations
    )
}

#[test]
fn absent_continuation_ends_the_list() {
    let (items, next) = page_from_body(&page_body(&["a", "b"], None)).unwrap();
    assert_eq!(items.len(), 2);
    assert!(next.is_none());
    assert!(next_page_url_from(None).is_none());
}

#[test]
fn continuation_builds_next_url() {
    let (items, next) = page_from_body(&page_body(&["a"], Some(("TOK", "TRK")))).unwrap();
    assert_eq!(items.len(), 1);
    assert_eq!(
        next.unwrap(),
        "https://www.youtube.com/browse_ajax?ctoken=TOK&continuation=TOK&itct=TRK"
    );
}

#[test]
fn page_without_list_fails() {
    assert!(is_parsing(&page_from_body(r#"[{}, {"response": {}}]"#)));
    assert!(is_parsing(&page_from_body("not json")));
}

#[test]
fn refetching_a_page_gives_the_same_result() {
    let body = page_body(&["a", "b"], Some(("T", "C")));
    let (first, next1) = page_from_body(&body).unwrap();
    let (second, next2) = page_from_body(&body).unwrap();
    assert_eq!(next1, next2);
    let ids = |v: &Vec<rusty_pipe::YTStreamInfoItemExtractor>| -> Vec<String> {
        v.iter().map(|x| x.video_info.get("videoId").unwrap().as_str().unwrap().clone()).collect()
    };
    assert_eq!(ids(&first), ids(&second));
}

#[test]
fn continuation_chain_ends_after_its_pages() {
    let pages = vec![
        page_body(&["a"], Some(("t1", "c1"))),
        page_body(&["b"], Some(("t2", "c2"))),
        page_body(&["c"], None),
    ];
    let mut fetched = 0;
    let mut current = Some(0usize);
    while let Some(i) = current {
        let (_, next) = page_from_body(&pages[i]).unwrap();
        fetched += 1;
        current = next.map(|_| i + 1);
    }
    assert_eq!(fetched, 3);
}

#[test]
fn playlist_first_page_and_info() {
    let init = json(r#"{"sidebar": {"playlistSidebarRenderer": {"items": [{"playlistSidebarPrimaryInfoRenderer": {"title": {"simpleText": "P"}}}]}},
        "contents": {"twoColumnBrowseResultsRenderer": {"tabs": [{"tabRenderer": {"content": {"sectionListRenderer": {"contents": [{"itemSectionRenderer": {"contents": [{"playlistVideoListRenderer": {"contents": [{"playlistVideoRenderer": {"videoId": "a"}}, {"other": 1}]}}]}}]}}}}]}}}"#);
    let p = YTPlaylistExtractor::from_parts((), init, None).unwrap();
    assert_eq!(p.videos().unwrap().len(), 1);
    assert!(p.next_page_url().unwrap().is_none());
    assert!(p.playlist_info.get("title").is_some());
    assert!(is_parsing(&YTPlaylistExtractor::from_parts((), json("{}"), None)));
}

#[test]
fn request_urls() {
    assert_eq!(watch_request_url("ID"), "https://www.youtube.com/watch?v=ID&disable_polymer=1");
    assert_eq!(
        envelope_request_url("https://www.youtube.com/watch?v=ID&disable_polymer=1"),
        "https://www.youtube.com/watch?v=ID&disable_polymer=1&pbj=1"
    );
    assert_eq!(playlist_request_url("PL"), "https://www.youtube.com/playlist?list=PL&pbj=1");
    let s = search_request_url("q");
    assert_eq!(s, "https://www.youtube.com/results?disable_polymer=1&search_query=q");
    assert_eq!(search_page_request_url(&s, "2"), format!("{}&gl=US&pbj=1&page=2", s));
}

#[test]
fn player_urls_are_made_absolute() {
    assert_eq!(fix_player_url("//a/b.js"), "https://a/b.js");
    assert_eq!(fix_player_url("/s/b.js"), "https://www.youtube.com/s/b.js");
    assert_eq!(fix_player_url("x.js"), "x.js");
    assert_eq!(player_script_url("http://h/p.js"), "http://h/p.js");
    assert_eq!(player_script_url("/p.js"), "https://youtube.com/p.js");
}

#[test]
fn player_config_is_read_from_page() {
    let page = r#"<script>ytplayer.config = {"args": {"x": 1}, "assets": {"js": "/p.js"}};</script>"#;
    let c = player_config(page).unwrap();
    assert!(c.get("assets").is_some());
    assert!(player_config("<html></html>").is_none());
}

const WATCH_DATA: &str = r#"{"contents": {"twoColumnWatchNextResults": {"results": {"results": {"contents": [
    {"videoPrimaryInfoRenderer": {"title": {"simpleText": "T"}}},
    {"videoSecondaryInfoRenderer": {"owner": {}}}
]}}, "secondaryResults": {"secondaryResults": {"results": [{"compactVideoRenderer": {"videoId": "r"}}]}}}}}"#;

#[test]
fn resolve_age_restricted() {
    let body = format!(r#"[{{}}, {{}}, {{"response": {}}}]"#, WATCH_DATA);
    let r = YTStreamExtractor::resolve(MarkingEvaluator, "vid", String::new(), &body);
    assert!(matches!(r, Err(ParsingError::AgeRestricted)));
}

#[test]
fn resolve_inline_player_response() {
    let body = format!(
        r#"[{{}}, {{}}, {{"playerResponse": {{"streamingData": {{"formats": []}}}}}}, {{"response": {}}}]"#,
        WATCH_DATA
    );
    match YTStreamExtractor::resolve(MarkingEvaluator, "vid", String::new(), &body) {
        Ok(Resolution::Ready(x)) => {
            assert_eq!(x.video_id(), "vid");
            assert_eq!(x.player_code, "");
            assert!(x.primary_info_renderer.get("title").is_some());
            assert!(x.secondary_info_renderer.get("owner").is_some());
            assert_eq!(x.related().unwrap().len(), 1);
        }
        _ => panic!("expected a ready extractor"),
    }
}

#[test]
fn resolve_legacy_path_asks_for_player_script() {
    let body = format!(r#"[{{}}, {{}}, {{}}, {{"response": {}}}]"#, WATCH_DATA);
    let doc = r#"<script>ytplayer.config = {"args": {"player_response": "{\"streamingData\": {\"formats\": []}}"}, "assets": {"js": "/s/player/base.js"}};</script>"#;
    match YTStreamExtractor::resolve(MarkingEvaluator, "vid", doc.to_string(), &body) {
        Ok(Resolution::NeedsPlayerScript { extractor, player_url }) => {
            assert_eq!(player_url, "https://www.youtube.com/s/player/base.js");
            assert!(extractor.player_response.get("streamingData").is_some());
            let x = extractor.with_player_code(PROGRAM.to_string());
            assert_eq!(x.player_code, PROGRAM);
        }
        _ => panic!("expected a request for the player script"),
    }
}

#[test]
fn resolve_legacy_path_without_config_fails() {
    let body = format!(r#"[{{}}, {{}}, {{}}, {{"response": {}}}]"#, WATCH_DATA);
    let r = YTStreamExtractor::resolve(MarkingEvaluator, "vid", "<html/>".to_string(), &body);
    match r {
        Err(e) => assert_eq!(e.message(), "cannot get player_config"),
        Ok(_) => panic!("expected a failure"),
    }
    let no_args = r#"<script>ytplayer.config = {"assets": {"js": "/p.js"}};</script>"#;
    match YTStreamExtractor::resolve(MarkingEvaluator, "vid", no_args.to_string(), &body) {
        Err(e) => assert_eq!(e.message(), "cannot get player args"),
        Ok(_) => panic!("expected a failure"),
    }
    let bad_response = r#"<script>ytplayer.config = {"args": {"player_response": "[1]"}, "assets": {"js": "/p.js"}};</script>"#;
    match YTStreamExtractor::resolve(MarkingEvaluator, "vid", bad_response.to_string(), &body) {
        Err(e) => assert_eq!(e.message(), "cannot get player response"),
        Ok(_) => panic!("expected a failure"),
    }
    let no_js = r#"<script>ytplayer.config = {"args": {"player_response": "{}"}, "assets": {}};</script>"#;
    match YTStreamExtractor::resolve(MarkingEvaluator, "vid", no_js.to_string(), &body) {
        Err(e) => assert_eq!(e.message(), "Cant get player url"),
        Ok(_) => panic!("expected a failure"),
    }
}

#[test]
fn resolve_without_info_renderers_fails() {
    let body = r#"[{}, {}, {}, {"response": {"contents": {}}}]"#;
    let r = YTStreamExtractor::resolve(MarkingEvaluator, "vid", String::new(), body);
    assert!(is_parsing(&r));
    let r = YTStreamExtractor::resolve(MarkingEvaluator, "vid", String::new(), "<html>");
    assert!(is_parsing(&r));
}

#[test]
fn search_results_over_sections() {
    let data = json(r#"{"contents": {"twoColumnSearchResultsRenderer": {"primaryContents": {"sectionListRenderer": {"contents": [
        {"itemSectionRenderer": {"contents": [{"videoRenderer": {"v": 1}}, {"channelRenderer": {"c": 1}}]}},
        {"continuationItemRenderer": {}},
        {"itemSectionRenderer": {"contents": [{"playlistRenderer": {"p": 1}}]}}
    ]}}}}}"#);
    let s = YTSearchExtractor::from_parts((), "q".to_string(), data, None);
    let items = s.search_results().unwrap();
    assert_eq!(items.len(), 3);
    assert!(matches!(items[2], YTSearchItem::PlaylistInfoItem(_)));
    assert_eq!(s.next_page_url().unwrap().unwrap(), "2");
    let empty = YTSearchExtractor::from_parts((), "q".to_string(), json("{}"), Some("7".to_string()));
    assert!(is_parsing(&empty.search_results()));
    assert_eq!(empty.next_page_url().unwrap().unwrap(), "8");
}

#[test]
fn search_page_labels() {
    assert_eq!(parse_page_number("12"), Some(12));
    assert_eq!(parse_page_number("+3"), Some(3));
    assert_eq!(parse_page_number("4294967295"), Some(4294967295));
    assert_eq!(parse_page_number("4294967296"), None);
    assert_eq!(parse_page_number(""), None);
    assert_eq!(parse_page_number("+"), None);
    assert_eq!(parse_page_number("1a"), None);
    assert_eq!(decimal(0), "0");
    assert_eq!(decimal(1234567), "1234567");
    let bad = YTSearchExtractor::from_parts((), "q".to_string(), json("{}"), Some("x".to_string()));
    assert!(is_parsing(&bad.next_page_url()));
    let last = YTSearchExtractor::from_parts((), "q".to_string(), json("{}"), Some("4294967295".to_string()));
    assert!(is_parsing(&last.next_page_url()));
}

#[test]
fn suggestions_are_unwrapped() {
    let body = r#"jp([["q",0],[["qa",0],["qb",0],[5]]])"#;
    let body = format!("jp({})", &body[3..body.len() - 1]);
    assert_eq!(suggestions_from_body(&body).unwrap(), vec!["qa".to_string(), "qb".to_string()]);
    assert!(is_parsing(&suggestions_from_body("jp")));
    assert!(is_parsing(&suggestions_from_body("jp(nope)")));
}

#[test]
fn error_messages() {
    let e = ParsingError::parsing_error_from_str("boom");
    assert_eq!(e.message(), "boom");
    assert_eq!(ParsingError::AgeRestricted.message(), "age restricted");
}

#[test]
fn client_identity_headers() {
    let h = rusty_pipe::envelope::client_headers();
    assert_eq!(h.len(), 2);
    assert_eq!(h[0], ("X-YouTube-Client-Name".to_string(), "1".to_string()));
    assert_eq!(h[1], ("X-YouTube-Client-Version".to_string(), "2.20200214.04.00".to_string()));
}

#[test]
fn signatures_are_decoded_only_for_ciphered_objects() {
    let formats = match json(r#"[{"url": "plain"}, {"signatureCipher": "s=XY&url=u&sp=sig"}, 7]"#) {
        Json::Array(v) => v,
        _ => unreachable!(),
    };
    let sigs = rusty_pipe::stream::decode_signatures(&MarkingEvaluator, &formats, PROGRAM);
    assert_eq!(sigs, vec!["".to_string(), "dec-XY".to_string(), "".to_string()]);
    assert_eq!(rusty_pipe::stream::stream_url_with(&formats[0], "ignored"), "plain");
    assert_eq!(rusty_pipe::stream::stream_url_with(&formats[1], "S"), "u&sig=S");
    assert_eq!(rusty_pipe::stream::cipher_blob(&formats[1]), "s=XY&url=u&sp=sig");
}

#[test]
fn cipher_member_takes_precedence() {
    let f = json(r#"{"cipher": "url=a&sp=b&s=c", "signatureCipher": "url=x"}"#);
    assert_eq!(rusty_pipe::stream::cipher_blob(&f), "url=a&sp=b&s=c");
    let g = json(r#"{"cipher": 3, "signatureCipher": "url=x"}"#);
    assert_eq!(rusty_pipe::stream::cipher_blob(&g), "");
}

#[test]
fn duplicate_urls_replace_earlier_entries() {
    let formats = match json(r#"[
        {"url": "same", "itag": 1, "bitrate": 1, "quality": "a", "lastModified": "1", "mimeType": "m"},
        {"url": "other", "itag": 2, "bitrate": 1, "quality": "a", "lastModified": "1", "mimeType": "m"},
        {"url": "same", "itag": 3, "bitrate": 1, "quality": "a", "lastModified": "1", "mimeType": "m"}
    ]"#) {
        Json::Array(v) => v,
        _ => unreachable!(),
    };
    let sigs = vec![String::new(), String::new(), String::new()];
    let entries = rusty_pipe::stream::classify_formats(&formats, &sigs, &ItagType::Video);
    let keyed: Vec<(String, u32)> = entries.iter().map(|(u, s)| (u.clone(), s.itag)).collect();
    assert_eq!(keyed, vec![("same".to_string(), 3), ("other".to_string(), 2)]);
}

#[test]
fn paths_and_copies() {
    let j = json(r#"{"a": [{"b": "x"}]}"#);
    let found = walk_path(&j, &[Hop::Key("a"), Hop::Index(0), Hop::Key("b")]).unwrap();
    assert_eq!(found.as_str().unwrap(), "x");
    assert!(walk_path(&j, &[Hop::Key("a"), Hop::Index(1)]).is_none());
    let copy = j.duplicate();
    assert_eq!(format!("{:?}", copy), format!("{:?}", j));
}

#[test]
fn cascade_takes_the_name_from_the_set_call_patterns() {
    let script = "if(x)c&&d.set(b,encodeURIComponent(Zq(decodeURIComponent(c))));";
    assert_eq!(decryption_func_name(script).unwrap(), "Zq");
    let akamaized = "yt.akamaized.net/)||e;c&&d.set(b,encodeURIComponent(W$(c)));";
    assert_eq!(decryption_func_name(akamaized).unwrap(), "W$");
}

#[test]
fn descriptor_scripts_call_decrypt_on_the_token() {
    let f = json(r#"{"signatureCipher": "s=T0K&url=u&sp=sig"}"#);
    assert_eq!(
        rusty_pipe::stream::decryption_script_for(&f, "P"),
        "P;decrypt(\"T0K\")"
    );
}

#[test]
fn decrypt_signature_runs_the_program() {
    assert_eq!(rusty_pipe::signature::decrypt_signature(&MarkingEvaluator, "AB", PROGRAM), "dec-AB");
    assert_eq!(rusty_pipe::signature::decrypt_signature(&FailingEvaluator, "AB", PROGRAM), "");
}

#[test]
fn search_section_with_marker_adds_nothing() {
    let data = json(r#"{"contents": {"twoColumnSearchResultsRenderer": {"primaryContents": {"sectionListRenderer": {"contents": [
        {"itemSectionRenderer": {"contents": [{"videoRenderer": {"v": 1}}]}},
        {"itemSectionRenderer": {"contents": [{"backgroundPromoRenderer": {}}]}}
    ]}}}}}"#);
    let s = YTSearchExtractor::from_parts((), "q".to_string(), data, None);
    assert_eq!(s.search_results().unwrap().len(), 1);
}
