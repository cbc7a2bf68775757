//! A video's extractor: resolving its player response from the watch page and
//! its envelope, and the stream lists built from that response.
use crate::envelope::{decode_envelope, initial_data, inline_player_response, player_response_from_initial_ajax, watch_content};
use crate::error::ParsingError;
use crate::items::{classify_all, classify_items, item_models, YTSearchItem};
use crate::json::{opt_view, walk, walk_path, Hop, Json, JsonV};
use crate::json_text::{parse_json, parsed_json};
use crate::signature::JsEvaluator;
use crate::stream::{bucket, entry_views, itags, lemma_array_view, streaming_data, views_of, ItagType, StreamItem, StreamItemV};
use crate::text::{concat2, concat3, starts_with};
use vstd::prelude::*;

verus! {

/// The client version sent with JSON-only requests.
pub const HARDCODED_CLIENT_VERSION: &'static str = "2.20200214.04.00";

/// The format lists of a player response.
pub const FORMATS: &'static str = "formats";
pub const ADAPTIVE_FORMATS: &'static str = "adaptiveFormats";

/// The pattern that captures the player configuration in a watch page.
pub const PLAYER_CONFIG_PATTERN: &'static str = "ytplayer.config\\s*=\\s*(\\{.*?\\});";

/// Group 1 of the first match of `pattern` in `text` under the regex crate;
/// nothing where the pattern is refused or does not match, or group 1 took
/// no part in the match.
pub uninterp spec fn regex_group1(pattern: Seq<char>, text: Seq<char>) -> Option<Seq<char>>;

/// Relies on regex::Regex::new and Regex::captures: the first match of the
/// pattern in the text, and its group 1.
#[verifier::external_body]
fn regex_first_group(pattern: &str, text: &str) -> (r: Option<String>)
    ensures
        match r {
            Some(g) => regex_group1(pattern@, text@) == Some(g@),
            None => regex_group1(pattern@, text@) is None,
        },
{
    let re = regex::Regex::new(pattern).ok()?;
    let caps = re.captures(text)?;
    caps.get(1).map(|m| m.as_str().to_string())
}

/// A video's extractor.
pub struct YTStreamExtractor<D> {
    pub doc: String,
    pub player_response: Json,
    pub player_code: String,
    pub video_id: String,
    pub initial_data: Json,
    pub primary_info_renderer: Json,
    pub secondary_info_renderer: Json,
    pub downloader: D,
}

/// What resolving a video gives: a complete extractor, or one that still
/// needs the decoding program from the player script at `player_url`.
pub enum Resolution<D> {
    Ready(YTStreamExtractor<D>),
    NeedsPlayerScript { extractor: YTStreamExtractor<D>, player_url: String },
}

/// The watch page of a video.
pub open spec fn watch_url(id: Seq<char>) -> Seq<char> {
    "https://www.youtube.com/watch?v="@ + id + "&disable_polymer=1"@
}

/// The envelope request that goes with a watch page.
pub open spec fn envelope_url(watch: Seq<char>) -> Seq<char> {
    watch + "&pbj=1"@
}

pub fn watch_request_url(id: &str) -> (r: String)
    ensures
        r@ == watch_url(id@),
{
    concat3("https://www.youtube.com/watch?v=", id, "&disable_polymer=1")
}

pub fn envelope_request_url(watch: &str) -> (r: String)
    ensures
        r@ == envelope_url(watch@),
{
    concat2(watch, "&pbj=1")
}

/// The player configuration embedded in a watch page, when it is an object.
pub open spec fn player_config_of(html: Seq<char>) -> Option<JsonV> {
    match regex_group1(PLAYER_CONFIG_PATTERN@, html) {
        Some(raw) => match parsed_json(raw) {
            Some(v) => if v is Object {
                Some(v)
            } else {
                None
            },
            None => None,
        },
        None => None,
    }
}

/// The `args` object of a player configuration.
pub open spec fn player_args_of(config: JsonV) -> Option<JsonV> {
    match config.field("args"@) {
        Some(a) => if a is Object {
            Some(a)
        } else {
            None
        },
        None => None,
    }
}

/// The player response carried as text in the `player_response` member of
/// the `args` object, when it reads as an object.
pub open spec fn player_response_of(args: JsonV) -> Option<JsonV> {
    match JsonV::text_of(args.field("player_response"@)) {
        Some(t) => match parsed_json(t) {
            Some(v) => if v is Object {
                Some(v)
            } else {
                None
            },
            None => None,
        },
        None => None,
    }
}

/// A player asset path made absolute.
pub open spec fn fixed_player_url(url: Seq<char>) -> Seq<char> {
    if url.len() >= 2 && url.subrange(0, 2) == "//"@ {
        "https:"@ + url
    } else if url.len() >= 1 && url.subrange(0, 1) == "/"@ {
        "https:"@ + "//www.youtube.com"@ + url
    } else {
        url
    }
}

/// The player script's path from a configuration's `assets` object.
pub open spec fn player_url_of(config: JsonV) -> Option<Seq<char>> {
    match config.field("assets"@) {
        Some(a) => if a is Object {
            match JsonV::text_of(a.field("js"@)) {
                Some(js) => Some(fixed_player_url(js)),
                None => None,
            }
        } else {
            None
        },
        None => None,
    }
}

/// The URL the player script is fetched from: an absolute URL as it is, a
/// path under the site otherwise.
pub open spec fn script_url(player_url: Seq<char>) -> Seq<char> {
    if (player_url.len() >= 7 && player_url.subrange(0, 7) == "http://"@) || (player_url.len() >= 8
        && player_url.subrange(0, 8) == "https://"@) {
        player_url
    } else {
        "https://youtube.com"@ + player_url
    }
}

/// Where a watch page's content node keeps its list of renderers.
pub open spec fn watch_contents_path() -> Seq<Hop> {
    seq![
        Hop::Key("contents"),
        Hop::Key("twoColumnWatchNextResults"),
        Hop::Key("results"),
        Hop::Key("results"),
        Hop::Key("contents"),
    ]
}

/// The member `key` of the first node that has one.
pub open spec fn first_with(nodes: Seq<JsonV>, key: Seq<char>) -> Option<JsonV>
    decreases nodes.len(),
{
    if nodes.len() == 0 {
        None
    } else if nodes[0].field(key) is Some {
        nodes[0].field(key)
    } else {
        first_with(nodes.drop_first(), key)
    }
}

/// The info renderer `key` of a watch page's content node.
pub open spec fn info_renderer_of(data: JsonV, key: Seq<char>) -> Option<JsonV> {
    match walk(Some(data), watch_contents_path()) {
        Some(JsonV::Array(nodes)) => first_with(nodes, key),
        _ => None,
    }
}

pub fn player_config(page_html: &str) -> (r: Option<Json>)
    ensures
        opt_json(r) == player_config_of(page_html@),
{
    let raw = match regex_first_group(PLAYER_CONFIG_PATTERN, page_html) {
        Some(g) => g,
        None => return None,
    };
    match parse_json(raw.as_str()) {
        Some(v) => if v.is_object() {
            Some(v)
        } else {
            None
        },
        None => None,
    }
}

/// The view of an optional owned tree.
pub open spec fn opt_json(r: Option<Json>) -> Option<JsonV> {
    match r {
        Some(v) => Some(v@),
        None => None,
    }
}

pub fn player_args(player_config: &Json) -> (r: Option<Json>)
    ensures
        opt_json(r) == player_args_of(player_config@),
{
    match player_config.get("args") {
        Some(a) => if a.is_object() {
            Some(a.duplicate())
        } else {
            None
        },
        None => None,
    }
}

pub fn player_response(player_args: &Json) -> (r: Option<Json>)
    ensures
        opt_json(r) == player_response_of(player_args@),
{
    let text = match player_args.get("player_response") {
        Some(t) => match t.as_str() {
            Some(s) => s,
            None => return None,
        },
        None => return None,
    };
    match parse_json(text.as_str()) {
        Some(v) => if v.is_object() {
            Some(v)
        } else {
            None
        },
        None => None,
    }
}

pub fn fix_player_url(url: &str) -> (r: String)
    ensures
        r@ == fixed_player_url(url@),
{
    proof {
        reveal_strlit("//");
        reveal_strlit("/");
    }
    if starts_with(url, "//") {
        concat2("https:", url)
    } else if starts_with(url, "/") {
        concat3("https:", "//www.youtube.com", url)
    } else {
        String::from_str(url)
    }
}

pub fn player_url(player_config: &Json) -> (r: Option<String>)
    ensures
        crate::fields::text_view(r) == player_url_of(player_config@),
{
    let assets = match player_config.get("assets") {
        Some(a) => a,
        None => return None,
    };
    if !assets.is_object() {
        return None;
    }
    match assets.get("js") {
        Some(js) => match js.as_str() {
            Some(s) => Some(fix_player_url(s.as_str())),
            None => None,
        },
        None => None,
    }
}

/// The URL the player script is fetched from.
pub fn player_script_url(player_url: &str) -> (r: String)
    ensures
        r@ == script_url(player_url@),
{
    proof {
        reveal_strlit("http://");
        reveal_strlit("https://");
    }
    if starts_with(player_url, "http://") || starts_with(player_url, "https://") {
        String::from_str(player_url)
    } else {
        concat2("https://youtube.com", player_url)
    }
}

/// The member `key` of the first node that has one.
pub fn first_node_with<'a>(nodes: &'a Vec<Json>, key: &str) -> (r: Option<&'a Json>)
    ensures
        opt_view(r) == first_with(views_of(nodes@), key@),
{
    let ghost all = views_of(nodes@);
    let mut i: usize = 0;
    proof {
        assert(all.subrange(0, all.len() as int) =~= all);
    }
    while i < nodes.len()
        invariant
            all == views_of(nodes@),
            i <= nodes@.len(),
            first_with(all, key@) == first_with(all.subrange(i as int, all.len() as int), key@),
        decreases nodes.len() - i,
    {
        proof {
            let rest = all.subrange(i as int, all.len() as int);
            assert(rest.drop_first() =~= all.subrange(i as int + 1, all.len() as int));
            assert(rest[0] == nodes@[i as int]@);
        }
        match nodes[i].get(key) {
            Some(v) => return Some(v),
            None => {},
        }
        i += 1;
    }
    proof {
        assert(all.subrange(i as int, all.len() as int) =~= Seq::<JsonV>::empty());
    }
    None
}

/// The info renderer `key` of a watch page's content node.
pub fn info_renderer(initial_data: &Json, key: &str) -> (r: Result<Json, ParsingError>)
    ensures
        match r {
            Ok(j) => info_renderer_of(initial_data@, key@) == Some(j@),
            Err(e) => info_renderer_of(initial_data@, key@) is None && e.is_parsing(),
        },
{
    let path = [
        Hop::Key("contents"),
        Hop::Key("twoColumnWatchNextResults"),
        Hop::Key("results"),
        Hop::Key("results"),
        Hop::Key("contents"),
    ];
    proof {
        assert(path@ =~= watch_contents_path());
    }
    let node = match walk_path(initial_data, &path) {
        Some(n) => n,
        None => return Err(ParsingError::parsing_error_from_str("cant get contents")),
    };
    let contents = match node.as_array() {
        Some(a) => a,
        None => return Err(ParsingError::parsing_error_from_str("cant get contents")),
    };
    proof {
        lemma_array_view(*node, *contents);
    }
    match first_node_with(contents, key) {
        Some(info) => Ok(info.duplicate()),
        None => Err(ParsingError::parsing_error_from_str("could not get info renderer")),
    }
}

pub fn primary_info_renderer(initial_data: &Json) -> (r: Result<Json, ParsingError>)
    ensures
        match r {
            Ok(j) => info_renderer_of(initial_data@, "videoPrimaryInfoRenderer"@) == Some(j@),
            Err(e) => info_renderer_of(initial_data@, "videoPrimaryInfoRenderer"@) is None
                && e.is_parsing(),
        },
{
    info_renderer(initial_data, "videoPrimaryInfoRenderer")
}

pub fn secondary_info_renderer(initial_data: &Json) -> (r: Result<Json, ParsingError>)
    ensures
        match r {
            Ok(j) => info_renderer_of(initial_data@, "videoSecondaryInfoRenderer"@) == Some(j@),
            Err(e) => info_renderer_of(initial_data@, "videoSecondaryInfoRenderer"@) is None
                && e.is_parsing(),
        },
{
    info_renderer(initial_data, "videoSecondaryInfoRenderer")
}

/// The views of stream records.
pub open spec fn stream_views(v: Seq<StreamItem>) -> Seq<StreamItemV> {
    Seq::new(v.len(), |i: int| v[i]@)
}

/// Each record of a bucket with its URL set to the key it was filed under.
pub open spec fn with_urls(e: Seq<(Seq<char>, StreamItemV)>) -> Seq<StreamItemV> {
    Seq::new(e.len(), |i: int| StreamItemV { url: Some(e[i].0), ..e[i].1 })
}

/// What a stream list of a player response holds: a failure where there is no
/// `streamingData` object; otherwise, for some decoded signatures, the bucket
/// of the list `key` with each record's URL set, or nothing where the list is
/// absent.
pub open spec fn streams_hold(
    pr: JsonV,
    key: Seq<char>,
    wanted: ItagType,
    r: Result<Vec<StreamItem>, ParsingError>,
) -> bool {
    match r {
        Err(e) => !(streaming_data(pr) matches Some(JsonV::Object(_))) && e.is_parsing(),
        Ok(v) => streaming_data(pr) matches Some(JsonV::Object(_)) && match streaming_data(
            pr,
        )->0.field(key) {
            Some(JsonV::Array(fs)) => exists|sigs: Seq<Seq<char>>|
                sigs.len() == fs.len() && stream_views(v@) == with_urls(bucket(fs, sigs, wanted)),
            _ => v@.len() == 0,
        },
    }
}

/// Where a watch page's content node keeps related results.
pub open spec fn related_path() -> Seq<Hop> {
    seq![
        Hop::Key("contents"),
        Hop::Key("twoColumnWatchNextResults"),
        Hop::Key("secondaryResults"),
        Hop::Key("secondaryResults"),
        Hop::Key("results"),
    ]
}

/// The related nodes of a watch page's content node; none where absent.
pub open spec fn related_nodes(data: JsonV) -> Seq<JsonV> {
    match walk(Some(data), related_path()) {
        Some(JsonV::Array(nodes)) => nodes,
        _ => Seq::empty(),
    }
}

/// Sets each record's URL to its key.
fn records_with_urls(entries: Vec<(String, StreamItem)>) -> (r: Vec<StreamItem>)
    ensures
        stream_views(r@) == with_urls(entry_views(entries@)),
{
    let ghost e = entry_views(entries@);
    let mut rest = entries;
    let mut out: Vec<StreamItem> = Vec::new();
    let ghost n = rest@.len();
    while rest.len() > 0
        invariant
            out@.len() + rest@.len() == n,
            e.len() == n,
            forall|k: int| 0 <= k < out@.len() ==> (#[trigger] out@[k])@ == with_urls(e)[k],
            forall|k: int|
                0 <= k < rest@.len() ==> (#[trigger] rest@[k]).0@ == e[k + out@.len()].0
                    && rest@[k].1@ == e[k + out@.len()].1,
        decreases rest.len(),
    {
        let (url, item) = rest.remove(0);
        let ghost j = out@.len() as int;
        proof {
            assert(url@ == e[j].0);
            assert(item@ == e[j].1);
        }
        out.push(item.with_url(url));
    }
    proof {
        assert(stream_views(out@) =~= with_urls(e));
    }
    out
}

impl<D> YTStreamExtractor<D> {
    /// The same extractor with the decoding program set.
    pub fn with_player_code(self, code: String) -> (r: Self)
        ensures
            r.player_code == code,
            r.player_response == self.player_response,
            r.doc == self.doc,
            r.video_id == self.video_id,
            r.initial_data == self.initial_data,
            r.primary_info_renderer == self.primary_info_renderer,
            r.secondary_info_renderer == self.secondary_info_renderer,
    {
        YTStreamExtractor { player_code: code, ..self }
    }

    pub fn video_id(&self) -> (r: String)
        ensures
            r@ == self.video_id@,
    {
        self.video_id.clone()
    }

    /// The results related to this video.
    pub fn related(&self) -> (r: Result<Vec<YTSearchItem>, ParsingError>)
        ensures
            r is Ok,
            item_models(r->Ok_0@) == classify_all(related_nodes(self.initial_data@)),
    {
        let path = [
            Hop::Key("contents"),
            Hop::Key("twoColumnWatchNextResults"),
            Hop::Key("secondaryResults"),
            Hop::Key("secondaryResults"),
            Hop::Key("results"),
        ];
        proof {
            assert(path@ =~= related_path());
        }
        let empty: Vec<Json> = Vec::new();
        let results = match walk_path(&self.initial_data, &path) {
            Some(n) => match n.as_array() {
                Some(a) => {
                    proof {
                        lemma_array_view(*n, *a);
                    }
                    a
                },
                None => &empty,
            },
            None => &empty,
        };
        proof {
            assert(views_of(empty@) =~= Seq::<JsonV>::empty());
        }
        classify_items(results)
    }
}

impl<D: JsEvaluator> YTStreamExtractor<D> {
    fn streams(&self, key: &str, wanted: ItagType) -> (r: Result<Vec<StreamItem>, ParsingError>)
        ensures
            streams_hold(self.player_response@, key@, wanted, r),
    {
        let ghost w = wanted;
        match itags(&self.downloader, key, wanted, &self.player_response, self.player_code.as_str()) {
            Ok(entries) => {
                let ghost ev = entry_views(entries@);
                let r = records_with_urls(entries);
                proof {
                    match streaming_data(self.player_response@)->0.field(key@) {
                        Some(JsonV::Array(fs)) => {
                            let sigs = choose|sigs: Seq<Seq<char>>|
                                sigs.len() == fs.len() && ev == bucket(fs, sigs, w);
                            assert(sigs.len() == fs.len() && stream_views(r@) == with_urls(
                                bucket(fs, sigs, w),
                            ));
                        },
                        _ => {
                            assert(stream_views(r@).len() == 0);
                        },
                    }
                }
                Ok(r)
            },
            Err(e) => Err(e),
        }
    }

    /// The combined audio and video streams.
    pub fn video_stream(&self) -> (r: Result<Vec<StreamItem>, ParsingError>)
        ensures
            streams_hold(self.player_response@, FORMATS@, ItagType::Video, r),
    {
        self.streams(FORMATS, ItagType::Video)
    }

    /// The streams without an audio track.
    pub fn video_only_stream(&self) -> (r: Result<Vec<StreamItem>, ParsingError>)
        ensures
            streams_hold(self.player_response@, ADAPTIVE_FORMATS@, ItagType::VideoOnly, r),
            r matches Ok(v) ==> forall|i: int|
                0 <= i < v@.len() ==> (#[trigger] v@[i]).audio_quality is None,
    {
        let r = self.streams(ADAPTIVE_FORMATS, ItagType::VideoOnly);
        proof {
            lemma_bucket_entries(self.player_response@, ADAPTIVE_FORMATS@, ItagType::VideoOnly, r);
        }
        r
    }

    /// The streams without a picture.
    pub fn audio_streams(&self) -> (r: Result<Vec<StreamItem>, ParsingError>)
        ensures
            streams_hold(self.player_response@, ADAPTIVE_FORMATS@, ItagType::Audio, r),
            r matches Ok(v) ==> forall|i: int| 0 <= i < v@.len() ==> (#[trigger] v@[i]).height is None,
    {
        let r = self.streams(ADAPTIVE_FORMATS, ItagType::Audio);
        proof {
            lemma_bucket_entries(self.player_response@, ADAPTIVE_FORMATS@, ItagType::Audio, r);
        }
        r
    }
}

/// Every record of a stream list is admitted by the media type it was built
/// for.
proof fn lemma_bucket_entries(pr: JsonV, key: Seq<char>, wanted: ItagType, r: Result<Vec<StreamItem>, ParsingError>)
    requires
        streams_hold(pr, key, wanted, r),
    ensures
        r matches Ok(v) ==> forall|i: int|
            0 <= i < v@.len() ==> crate::stream::admits(wanted, (#[trigger] v@[i])@),
{
    if let Ok(v) = r {
        if let Some(JsonV::Array(fs)) = streaming_data(pr)->0.field(key) {
            let sigs = choose|sigs: Seq<Seq<char>>|
                sigs.len() == fs.len() && stream_views(v@) == with_urls(bucket(fs, sigs, wanted));
            crate::stream::lemma_bucket_admits(fs, sigs, wanted);
            assert forall|i: int| 0 <= i < v@.len() implies crate::stream::admits(
                wanted,
                (#[trigger] v@[i])@,
            ) by {
                let b = bucket(fs, sigs, wanted);
                assert(stream_views(v@).len() == v@.len());
                assert(with_urls(b).len() == b.len());
                assert(stream_views(v@)[i] == v@[i]@);
                assert(with_urls(b)[i] == StreamItemV { url: Some(b[i].0), ..b[i].1 });
                assert(crate::stream::admits(wanted, bucket(fs, sigs, wanted)[i].1));
            }
        }
    }
}

/// A structural failure whose cause names the step that failed.
pub open spec fn failed_at<T>(r: Result<T, ParsingError>, cause: Seq<char>) -> bool {
    r is Err && r->Err_0.is_parsing() && r->Err_0.cause_text() == cause
}

/// What resolving a video from its watch page and envelope body gives, as a
/// relation between the inputs and the outcome.
pub open spec fn resolution_holds<D>(
    video_id: Seq<char>,
    doc: Seq<char>,
    body: Seq<char>,
    r: Result<Resolution<D>, ParsingError>,
) -> bool {
    match parsed_json(body) {
        None => r is Err && r->Err_0.is_parsing(),
        Some(env) => match watch_content(env) {
            None => r is Err && r->Err_0.is_parsing(),
            Some((data, restricted)) => if restricted {
                r is Err && r->Err_0 is AgeRestricted
            } else {
                let primary = info_renderer_of(data, "videoPrimaryInfoRenderer"@);
                let secondary = info_renderer_of(data, "videoSecondaryInfoRenderer"@);
                if primary is None || secondary is None {
                    r is Err && r->Err_0.is_parsing()
                } else {
                    let fits = |x: YTStreamExtractor<D>, pr: JsonV|
                        x.player_response@ == pr && x.player_code@ == Seq::<char>::empty()
                            && x.initial_data@ == data && x.primary_info_renderer@ == primary->0
                            && x.secondary_info_renderer@ == secondary->0 && x.doc@ == doc
                            && x.video_id@ == video_id;
                    match inline_player_response(env) {
                        Some(pr) => r matches Ok(Resolution::Ready(x)) && fits(x, pr),
                        None => match player_config_of(doc) {
                            None => failed_at(r, "cannot get player_config"@),
                            Some(config) => match player_args_of(config) {
                                None => failed_at(r, "cannot get player args"@),
                                Some(args) => match player_response_of(args) {
                                    None => failed_at(r, "cannot get player response"@),
                                    Some(pr) => match player_url_of(config) {
                                        None => failed_at(r, "Cant get player url"@),
                                        Some(url) => r matches Ok(
                                            Resolution::NeedsPlayerScript { extractor: x, player_url },
                                        ) && fits(x, pr) && player_url@ == script_url(url),
                                    },
                                },
                            },
                        },
                    }
                }
            }
        },
    }
}

impl<D> YTStreamExtractor<D> {
    /// Resolves a video from its watch page and the body of its envelope: the
    /// inlined player response where there is one, else the one configured in
    /// the watch page together with the URL of the player script.
    pub fn resolve(downloader: D, video_id: &str, doc: String, envelope_body: &str) -> (r: Result<Resolution<D>, ParsingError>)
        ensures
            resolution_holds(video_id@, doc@, envelope_body@, r),
    {
        let env = match decode_envelope(envelope_body) {
            Ok(j) => j,
            Err(e) => return Err(e),
        };
        let (data, restricted) = match initial_data(&env) {
            Ok(x) => x,
            Err(e) => return Err(e),
        };
        let inline = player_response_from_initial_ajax(&env);
        if restricted {
            return Err(ParsingError::AgeRestricted);
        }
        let primary = match primary_info_renderer(&data) {
            Ok(p) => p,
            Err(e) => return Err(e),
        };
        let secondary = match secondary_info_renderer(&data) {
            Ok(p) => p,
            Err(e) => return Err(e),
        };
        match inline {
            Some(response) => Ok(
                Resolution::Ready(
                    YTStreamExtractor {
                        doc,
                        player_response: response,
                        player_code: String::new(),
                        video_id: String::from_str(video_id),
                        initial_data: data,
                        primary_info_renderer: primary,
                        secondary_info_renderer: secondary,
                        downloader,
                    },
                ),
            ),
            None => {
                let config = match player_config(doc.as_str()) {
                    Some(c) => c,
                    None => return Err(ParsingError::parsing_error_from_str("cannot get player_config")),
                };
                let args = match player_args(&config) {
                    Some(a) => a,
                    None => return Err(ParsingError::parsing_error_from_str("cannot get player args")),
                };
                let response = match player_response(&args) {
                    Some(p) => p,
                    None => return Err(ParsingError::parsing_error_from_str("cannot get player response")),
                };
                let url = match player_url(&config) {
                    Some(u) => u,
                    None => return Err(ParsingError::parsing_error_from_str("Cant get player url")),
                };
                let player_url = player_script_url(url.as_str());
                Ok(
                    Resolution::NeedsPlayerScript {
                        extractor: YTStreamExtractor {
                            doc,
                            player_response: response,
                            player_code: String::new(),
                            video_id: String::from_str(video_id),
                            initial_data: data,
                            primary_info_renderer: primary,
                            secondary_info_renderer: secondary,
                            downloader,
                        },
                        player_url,
                    },
                )
            },
        }
    }
}

} // verus!
