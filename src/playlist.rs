//! Playlists: the first page read from the playlist's own envelope, and the
//! continuation pages that follow it.
use crate::envelope::{decode_envelope, page_response, response_at};
use crate::error::ParsingError;
use crate::fields::text_view;
use crate::items::{collect_playlist_videos, playlist_videos, video_models, YTStreamInfoItemExtractor};
use crate::json::{get_opt, opt_view, str_opt, walk, walk_path, Hop, Json, JsonV};
use crate::json_text::parsed_json;
use crate::text::concat3;
use vstd::prelude::*;

verus! {

/// A playlist: its envelope's content node, its info node, and, when it was
/// opened at a continuation, that page.
pub struct YTPlaylistExtractor<D> {
    pub downloader: D,
    pub init_data: Json,
    pub playlist_info: Json,
    pub page: Option<(Vec<YTStreamInfoItemExtractor>, Option<String>)>,
}

/// The URL of a continuation page.
pub open spec fn continuation_url(token: Seq<char>, tracking: Seq<char>) -> Seq<char> {
    "https://www.youtube.com/browse_ajax?ctoken="@ + token + "&continuation="@ + token + "&itct="@
        + tracking
}

/// The next page named by a continuation list: its first element's token and
/// tracking parameter, both text.
pub open spec fn next_url_from(c: Option<JsonV>) -> Option<Seq<char>> {
    let d = JsonV::field_of(JsonV::item_of(c, 0), "nextContinuationData"@);
    let token = JsonV::text_of(JsonV::field_of(d, "continuation"@));
    let tracking = JsonV::text_of(JsonV::field_of(d, "clickTrackingParams"@));
    if token is Some && tracking is Some {
        Some(continuation_url(token->0, tracking->0))
    } else {
        None
    }
}

/// Where a continuation page keeps its list.
pub open spec fn continuation_path() -> Seq<Hop> {
    seq![
        Hop::Index(1),
        Hop::Key("response"),
        Hop::Key("continuationContents"),
        Hop::Key("playlistVideoListContinuation"),
    ]
}

/// The entries of a continuation page and the page after it; nothing where
/// the page lacks its list.
pub open spec fn page_of(env: JsonV) -> Option<(Seq<JsonV>, Option<Seq<char>>)> {
    match walk(Some(env), continuation_path()) {
        None => None,
        Some(section) => match section.field("contents"@) {
            Some(JsonV::Array(nodes)) => Some(
                (playlist_videos(nodes), next_url_from(section.field("continuations"@))),
            ),
            _ => None,
        },
    }
}

/// What a continuation page's body gives: nothing where it is not JSON or
/// lacks its list.
pub open spec fn page_result(body: Seq<char>) -> Option<(Seq<JsonV>, Option<Seq<char>>)> {
    match parsed_json(body) {
        Some(env) => page_of(env),
        None => None,
    }
}

/// The continuation named by a page's body, if any.
pub open spec fn next_of(body: Seq<char>) -> Option<Seq<char>> {
    match page_result(body) {
        Some((_, next)) => next,
        None => None,
    }
}

/// The URL of a playlist's envelope.
pub open spec fn playlist_url(id: Seq<char>) -> Seq<char> {
    "https://www.youtube.com/playlist?list="@ + id + "&pbj=1"@
}

pub fn playlist_request_url(id: &str) -> (r: String)
    ensures
        r@ == playlist_url(id@),
{
    concat3("https://www.youtube.com/playlist?list=", id, "&pbj=1")
}

/// Where a playlist keeps its info node.
pub open spec fn info_path() -> Seq<Hop> {
    seq![
        Hop::Key("sidebar"),
        Hop::Key("playlistSidebarRenderer"),
        Hop::Key("items"),
        Hop::Index(0),
        Hop::Key("playlistSidebarPrimaryInfoRenderer"),
    ]
}

/// Where a playlist's first page keeps its list node.
pub open spec fn first_list_path() -> Seq<Hop> {
    seq![
        Hop::Key("contents"),
        Hop::Key("twoColumnBrowseResultsRenderer"),
        Hop::Key("tabs"),
        Hop::Index(0),
        Hop::Key("tabRenderer"),
        Hop::Key("content"),
        Hop::Key("sectionListRenderer"),
        Hop::Key("contents"),
        Hop::Index(0),
        Hop::Key("itemSectionRenderer"),
        Hop::Key("contents"),
        Hop::Index(0),
        Hop::Key("playlistVideoListRenderer"),
    ]
}

/// The URL of the page after a continuation list.
pub fn next_page_url_from(continuation: Option<&Json>) -> (r: Option<String>)
    ensures
        text_view(r) == next_url_from(opt_view(continuation)),
{
    let first = match continuation {
        Some(c) => c.at(0),
        None => None,
    };
    let data = get_opt(first, "nextContinuationData");
    let token = match str_opt(get_opt(data, "continuation")) {
        Some(t) => t,
        None => return None,
    };
    let tracking = match str_opt(get_opt(data, "clickTrackingParams")) {
        Some(t) => t,
        None => return None,
    };
    let mut url = concat3("https://www.youtube.com/browse_ajax?ctoken=", token.as_str(), "&continuation=");
    url.append(token.as_str());
    url.append("&itct=");
    url.append(tracking.as_str());
    Some(url)
}

/// Reads a continuation page from its envelope.
pub fn page_from_envelope(env: &Json) -> (r: Result<(Vec<YTStreamInfoItemExtractor>, Option<String>), ParsingError>)
    ensures
        match r {
            Ok((items, next)) => page_of(env@) == Some((video_models(items@), text_view(next))),
            Err(e) => page_of(env@) is None && e.is_parsing(),
        },
{
    let path = [
        Hop::Index(1),
        Hop::Key("response"),
        Hop::Key("continuationContents"),
        Hop::Key("playlistVideoListContinuation"),
    ];
    proof {
        assert(path@ =~= continuation_path());
    }
    let section = match walk_path(env, &path) {
        Some(s) => s,
        None => return Err(ParsingError::parsing_error_from_str("Cant get continuation")),
    };
    let contents = match section.get("contents") {
        Some(c) => c,
        None => return Err(ParsingError::parsing_error_from_str("items not in continuation")),
    };
    let items = match collect_playlist_videos(contents) {
        Ok(v) => v,
        Err(e) => return Err(e),
    };
    let next = next_page_url_from(section.get("continuations"));
    Ok((items, next))
}

/// Reads a continuation page from the body of its response.
pub fn page_from_body(body: &str) -> (r: Result<(Vec<YTStreamInfoItemExtractor>, Option<String>), ParsingError>)
    ensures
        match r {
            Ok((items, next)) => page_result(body@) == Some((video_models(items@), text_view(next))),
            Err(e) => page_result(body@) is None && e.is_parsing(),
        },
{
    let env = match decode_envelope(body) {
        Ok(j) => j,
        Err(e) => return Err(e),
    };
    page_from_envelope(&env)
}

/// A copy of a list of video entries.
pub fn duplicate_videos(v: &Vec<YTStreamInfoItemExtractor>) -> (r: Vec<YTStreamInfoItemExtractor>)
    ensures
        video_models(r@) == video_models(v@),
{
    let mut out: Vec<YTStreamInfoItemExtractor> = Vec::new();
    let mut i: usize = 0;
    while i < v.len()
        invariant
            i <= v@.len(),
            out@.len() == i,
            forall|k: int| 0 <= k < i ==> (#[trigger] out@[k]).video_info@ == v@[k].video_info@,
        decreases v.len() - i,
    {
        out.push(YTStreamInfoItemExtractor { video_info: v[i].video_info.duplicate() });
        i += 1;
    }
    proof {
        assert(video_models(out@) =~= video_models(v@));
    }
    out
}

/// The content node of a playlist's envelope body: the `response` of its
/// element at index 1.
pub open spec fn playlist_content(body: Seq<char>) -> Option<JsonV> {
    match parsed_json(body) {
        Some(env) => page_response(env, 1),
        None => None,
    }
}

/// Reads the content node of a playlist's envelope.
pub fn initial_data_from_body(body: &str) -> (r: Result<Json, ParsingError>)
    ensures
        match r {
            Ok(j) => playlist_content(body@) == Some(j@),
            Err(e) => playlist_content(body@) is None && e.is_parsing(),
        },
{
    let env = match decode_envelope(body) {
        Ok(j) => j,
        Err(e) => return Err(e),
    };
    response_at(&env, 1)
}

/// The info node of a playlist's content node.
pub fn playlist_info(initial_data: &Json) -> (r: Result<Json, ParsingError>)
    ensures
        match r {
            Ok(j) => walk(Some(initial_data@), info_path()) == Some(j@),
            Err(e) => walk(Some(initial_data@), info_path()) is None && e.is_parsing(),
        },
{
    let path = [
        Hop::Key("sidebar"),
        Hop::Key("playlistSidebarRenderer"),
        Hop::Key("items"),
        Hop::Index(0),
        Hop::Key("playlistSidebarPrimaryInfoRenderer"),
    ];
    proof {
        assert(path@ =~= info_path());
    }
    match walk_path(initial_data, &path) {
        Some(p) => Ok(p.duplicate()),
        None => Err(ParsingError::parsing_error_from_str("Cant get playlist info")),
    }
}

impl<D> YTPlaylistExtractor<D> {
    /// A playlist from its content node and, when it was opened at a
    /// continuation, that page. Fails when the content node has no info node.
    pub fn from_parts(
        downloader: D,
        init_data: Json,
        page: Option<(Vec<YTStreamInfoItemExtractor>, Option<String>)>,
    ) -> (r: Result<Self, ParsingError>)
        ensures
            match r {
                Ok(x) => x.init_data@ == init_data@ && Some(x.playlist_info@) == walk(
                    Some(init_data@),
                    info_path(),
                ) && x.page == page,
                Err(e) => walk(Some(init_data@), info_path()) is None && e.is_parsing(),
            },
    {
        let playlist_info = match playlist_info(&init_data) {
            Ok(p) => p,
            Err(e) => return Err(e),
        };
        Ok(YTPlaylistExtractor { downloader, init_data, playlist_info, page })
    }

    /// The videos of this page: the continuation page's, or the first page's.
    pub fn videos(&self) -> (r: Result<Vec<YTStreamInfoItemExtractor>, ParsingError>)
        ensures
            match self.page {
                Some((v, _)) => r is Ok && video_models(r->Ok_0@) == video_models(v@),
                None => match walk(Some(self.init_data@), first_list_path().push(Hop::Key("contents"))) {
                    Some(JsonV::Array(nodes)) => r is Ok && video_models(r->Ok_0@)
                        == playlist_videos(nodes),
                    _ => r is Err && r->Err_0.is_parsing(),
                },
            },
    {
        match &self.page {
            Some((v, _)) => return Ok(duplicate_videos(v)),
            None => {},
        }
        let path = [
            Hop::Key("contents"),
            Hop::Key("twoColumnBrowseResultsRenderer"),
            Hop::Key("tabs"),
            Hop::Index(0),
            Hop::Key("tabRenderer"),
            Hop::Key("content"),
            Hop::Key("sectionListRenderer"),
            Hop::Key("contents"),
            Hop::Index(0),
            Hop::Key("itemSectionRenderer"),
            Hop::Key("contents"),
            Hop::Index(0),
            Hop::Key("playlistVideoListRenderer"),
            Hop::Key("contents"),
        ];
        proof {
            assert(path@ =~= first_list_path().push(Hop::Key("contents")));
        }
        match walk_path(&self.init_data, &path) {
            Some(videos) => collect_playlist_videos(videos),
            None => Err(ParsingError::parsing_error_from_str("Cant get videos")),
        }
    }

    /// The URL of the next page, if there is one.
    pub fn next_page_url(&self) -> (r: Result<Option<String>, ParsingError>)
        ensures
            r is Ok,
            match self.page {
                Some((_, next)) => text_view(r->Ok_0) == text_view(next),
                None => text_view(r->Ok_0) == match walk(
                    Some(self.init_data@),
                    first_list_path().push(Hop::Key("continuations")),
                ) {
                    Some(c) => next_url_from(Some(c)),
                    None => None,
                },
            },
    {
        match &self.page {
            Some((_, next)) => {
                return Ok(
                    match next {
                        Some(u) => Some(u.clone()),
                        None => None,
                    },
                );
            },
            None => {},
        }
        let path = [
            Hop::Key("contents"),
            Hop::Key("twoColumnBrowseResultsRenderer"),
            Hop::Key("tabs"),
            Hop::Index(0),
            Hop::Key("tabRenderer"),
            Hop::Key("content"),
            Hop::Key("sectionListRenderer"),
            Hop::Key("contents"),
            Hop::Index(0),
            Hop::Key("itemSectionRenderer"),
            Hop::Key("contents"),
            Hop::Index(0),
            Hop::Key("playlistVideoListRenderer"),
            Hop::Key("continuations"),
        ];
        proof {
            assert(path@ =~= first_list_path().push(Hop::Key("continuations")));
        }
        match walk_path(&self.init_data, &path) {
            Some(c) => Ok(next_page_url_from(Some(c))),
            None => Ok(None),
        }
    }
}

/// Reading a page is a function of its body: the same body read twice gives
/// the same entries and the same next page, or fails both times.
pub proof fn lemma_page_idempotent(first: Seq<char>, second: Seq<char>)
    requires
        first == second,
    ensures
        page_result(first) == page_result(second),
        next_of(first) == next_of(second),
{
}

/// How many pages are read from page `i` on, following each page's
/// continuation, until one names no next page.
pub open spec fn pages_until_end(pages: Seq<Seq<char>>, i: int) -> nat
    decreases pages.len() - i,
{
    if i < 0 || i >= pages.len() {
        0
    } else if next_of(pages[i]) is None {
        1
    } else {
        1 + pages_until_end(pages, i + 1)
    }
}

/// Continuations end: where every page but the last names a next page and
/// the last names none, following them reads exactly as many pages as there
/// are, and the last one read gives no next URL.
pub proof fn lemma_continuations_terminate(pages: Seq<Seq<char>>)
    requires
        pages.len() > 0,
        forall|i: int| 0 <= i < pages.len() - 1 ==> (#[trigger] next_of(pages[i])) is Some,
        next_of(pages.last()) is None,
    ensures
        pages_until_end(pages, 0) == pages.len(),
{
    lemma_suffix_count(pages, 0);
}

proof fn lemma_suffix_count(pages: Seq<Seq<char>>, i: int)
    requires
        0 <= i < pages.len(),
        forall|k: int| 0 <= k < pages.len() - 1 ==> (#[trigger] next_of(pages[k])) is Some,
        next_of(pages.last()) is None,
    ensures
        pages_until_end(pages, i) == pages.len() - i,
    decreases pages.len() - i,
{
    if i < pages.len() - 1 {
        assert(next_of(pages[i]) is Some);
        lemma_suffix_count(pages, i + 1);
    }
}

} // verus!
