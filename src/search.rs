//! Search: result pages addressed by a plain page number, and suggestions.
use crate::envelope::{decode_envelope, page_response, response_at};
use crate::error::ParsingError;
use crate::items::{classify_all, classify_items, item_models, YTSearchItem};
use crate::json::{walk, walk_path, Hop, Json, JsonV};
use crate::json_text::{parse_json, parsed_json};
use crate::stream::views_of;
use crate::text::{concat2, concat3, decimal, decimal_text, parse_bounded, parse_unsigned};
use vstd::prelude::*;

verus! {

/// A search: the content node of one result page, the query, and the page
/// number it was opened at.
pub struct YTSearchExtractor<D> {
    pub downloader: D,
    pub initial_data: Json,
    pub query: String,
    pub page: Option<(Vec<YTSearchItem>, Option<String>)>,
    pub p_url: Option<String>,
}

/// The URL of a search for `query`.
pub open spec fn search_url(query: Seq<char>) -> Seq<char> {
    "https://www.youtube.com/results?disable_polymer=1&search_query="@ + query
}

/// The URL of result page `page` of a search.
pub open spec fn search_page_url(url: Seq<char>, page: Seq<char>) -> Seq<char> {
    url + "&gl=US&pbj=1&page="@ + page
}

pub fn search_request_url(query: &str) -> (r: String)
    ensures
        r@ == search_url(query@),
{
    concat2("https://www.youtube.com/results?disable_polymer=1&search_query=", query)
}

pub fn search_page_request_url(url: &str, page: &str) -> (r: String)
    ensures
        r@ == search_page_url(url@, page@),
{
    concat3(url, "&gl=US&pbj=1&page=", page)
}

/// The content node of a result page's body: the `response` object of its
/// envelope's element at index 1.
pub open spec fn search_content(body: Seq<char>) -> Option<JsonV> {
    match parsed_json(body) {
        Some(env) => match page_response(env, 1) {
            Some(r) => if r is Object {
                Some(r)
            } else {
                None
            },
            None => None,
        },
        None => None,
    }
}

/// Reads the content node of a result page.
pub fn search_initial_data(body: &str) -> (r: Result<Json, ParsingError>)
    ensures
        match r {
            Ok(j) => search_content(body@) == Some(j@),
            Err(e) => search_content(body@) is None && e.is_parsing(),
        },
{
    let env = match decode_envelope(body) {
        Ok(j) => j,
        Err(e) => return Err(e),
    };
    let resp = match response_at(&env, 1) {
        Ok(r) => r,
        Err(e) => return Err(e),
    };
    if !resp.is_object() {
        return Err(ParsingError::parsing_error_from_str("initial data not json object"));
    }
    Ok(resp)
}

/// Where a result page keeps its sections.
pub open spec fn sections_path() -> Seq<Hop> {
    seq![
        Hop::Key("contents"),
        Hop::Key("twoColumnSearchResultsRenderer"),
        Hop::Key("primaryContents"),
        Hop::Key("sectionListRenderer"),
        Hop::Key("contents"),
    ]
}

/// The node list of a section, when it has one.
pub open spec fn section_nodes(section: JsonV) -> Option<Seq<JsonV>> {
    match JsonV::field_of(section.field("itemSectionRenderer"@), "contents"@) {
        Some(JsonV::Array(nodes)) => Some(nodes),
        _ => None,
    }
}

/// The classified results of a list of sections, in order; a section without
/// a node list adds nothing, and a section holding the empty-result marker
/// adds no results.
pub open spec fn section_results(sections: Seq<JsonV>) -> Seq<(crate::items::ItemKind, JsonV)>
    decreases sections.len(),
{
    if sections.len() == 0 {
        Seq::empty()
    } else {
        let prev = section_results(sections.drop_last());
        match section_nodes(sections.last()) {
            None => prev,
            Some(nodes) => prev + classify_all(nodes),
        }
    }
}

/// The number a page label reads as, in the way `str::parse::<u32>` reads it.
pub open spec fn parse_u32(s: Seq<char>) -> Option<u32> {
    match parse_bounded(s, u32::MAX as int) {
        Some(n) => Some(n as u32),
        None => None,
    }
}

/// Reads a page label as a number.
pub fn parse_page_number(s: &str) -> (r: Option<u32>)
    ensures
        r == parse_u32(s@),
{
    let r = parse_unsigned(s, 4294967295);
    proof {
        assert(u32::MAX as int == 4294967295u64 as int);
    }
    match r {
        Some(n) => {
            proof {
                let v = parse_bounded(s@, 4294967295u64 as int);
                assert(v is Some);
                assert(n as int == v->0);
            }
            Some(n as u32)
        },
        None => None,
    }
}

impl<D> YTSearchExtractor<D> {
    /// Classifies a list of result nodes.
    pub fn collect_streams_from(videos: &Vec<Json>) -> (r: Result<Vec<YTSearchItem>, ParsingError>)
        ensures
            r is Ok,
            item_models(r->Ok_0@) == classify_all(views_of(videos@)),
    {
        classify_items(videos)
    }

    /// A search opened at page `page_url`, or at the first page.
    pub fn from_parts(downloader: D, query: String, initial_data: Json, page_url: Option<String>) -> (r: Self)
        ensures
            r.initial_data@ == initial_data@,
            r.query@ == query@,
            r.page is None,
            match page_url {
                Some(p) => r.p_url == Some(p),
                None => r.p_url matches Some(one) && one@ == "1"@,
            },
    {
        let p_url = match page_url {
            Some(p) => Some(p),
            None => Some(String::from_str("1")),
        };
        YTSearchExtractor { downloader, initial_data, query, page: None, p_url }
    }

    /// The classified results of this page, over all its sections.
    pub fn search_results(&self) -> (r: Result<Vec<YTSearchItem>, ParsingError>)
        ensures
            self.page is None ==> match walk(Some(self.initial_data@), sections_path()) {
                Some(JsonV::Array(sections)) => r is Ok && item_models(r->Ok_0@)
                    == section_results(sections),
                _ => r is Err && r->Err_0.is_parsing(),
            },
            self.page matches Some((items, _)) ==> r is Ok && item_models(r->Ok_0@)
                == item_models(items@),
    {
        match &self.page {
            Some((items, _)) => return Ok(duplicate_items(items)),
            None => {},
        }
        let path = [
            Hop::Key("contents"),
            Hop::Key("twoColumnSearchResultsRenderer"),
            Hop::Key("primaryContents"),
            Hop::Key("sectionListRenderer"),
            Hop::Key("contents"),
        ];
        proof {
            assert(path@ =~= sections_path());
        }
        let node = match walk_path(&self.initial_data, &path) {
            Some(n) => n,
            None => return Err(ParsingError::parsing_error_from_str("cant get sections")),
        };
        let sections = match node.as_array() {
            Some(a) => a,
            None => return Err(ParsingError::parsing_error_from_str("cant get sections")),
        };
        proof {
            crate::stream::lemma_array_view(*node, *sections);
        }
        let ghost all = views_of(sections@);
        let mut out: Vec<YTSearchItem> = Vec::new();
        let mut i: usize = 0;
        proof {
            assert(all.subrange(0, 0) =~= Seq::<JsonV>::empty());
            assert(item_models(out@) =~= Seq::empty());
        }
        while i < sections.len()
            invariant
                all == views_of(sections@),
                self.page is None,
                walk(Some(self.initial_data@), sections_path()) == Some(JsonV::Array(all)),
                i <= sections@.len(),
                section_results(all.subrange(0, i as int)) == item_models(out@),
            decreases sections.len() - i,
        {
            let sect = &sections[i];
            let ghost pre = all.subrange(0, i as int + 1);
            proof {
                assert(pre.drop_last() =~= all.subrange(0, i as int));
                assert(pre.last() == sect@);
            }
            let nodes = match sect.get("itemSectionRenderer") {
                Some(r) => match r.get("contents") {
                    Some(c) => c.as_array(),
                    None => None,
                },
                None => None,
            };
            match nodes {
                Some(list) => {
                    proof {
                        let c = sect@.field("itemSectionRenderer"@)->0.field("contents"@)->0;
                        assert(c is Array);
                    }
                    let ghost before = item_models(out@);
                    let mut items = match classify_items(list) {
                        Ok(v) => v,
                        Err(e) => return Err(e),
                    };
                    proof {
                        let c = sect@.field("itemSectionRenderer"@)->0.field("contents"@)->0;
                        assert(c == JsonV::Array(views_of(list@))) by {
                            assert(c->Array_0 =~= views_of(list@));
                        }
                    }
                    let ghost added = item_models(items@);
                    out.append(&mut items);
                    proof {
                        assert(item_models(out@) =~= before + added);
                    }
                },
                None => {},
            }
            i += 1;
        }
        proof {
            assert(all.subrange(0, i as int) =~= all);
        }
        Ok(out)
    }

    /// The label of the page after this one.
    pub fn next_page_url(&self) -> (r: Result<Option<String>, ParsingError>)
        ensures
            match r {
                Ok(next) => {
                    let label = match self.p_url {
                        Some(p) => p@,
                        None => Seq::empty(),
                    };
                    &&& parse_u32(label) is Some
                    &&& parse_u32(label)->0 < u32::MAX
                    &&& next is Some
                    &&& next->0@ == decimal_text((parse_u32(label)->0 + 1) as nat)
                },
                Err(e) => e.is_parsing() && {
                    let label = match self.p_url {
                        Some(p) => p@,
                        None => Seq::empty(),
                    };
                    parse_u32(label) is None || parse_u32(label)->0 == u32::MAX
                },
            },
    {
        let parsed = match &self.p_url {
            Some(p) => parse_page_number(p.as_str()),
            None => {
                proof {
                    reveal_strlit("");
                }
                parse_page_number("")
            },
        };
        match parsed {
            Some(n) => if n < 4294967295 {
                Ok(Some(decimal((n + 1) as u64)))
            } else {
                Err(ParsingError::parsing_error_from_str("page number out of range"))
            },
            None => Err(ParsingError::parsing_error_from_str("page label is not a number")),
        }
    }
}

/// A copy of a list of results.
pub fn duplicate_items(v: &Vec<YTSearchItem>) -> (r: Vec<YTSearchItem>)
    ensures
        item_models(r@) == item_models(v@),
{
    let mut out: Vec<YTSearchItem> = Vec::new();
    let mut i: usize = 0;
    while i < v.len()
        invariant
            i <= v@.len(),
            out@.len() == i,
            forall|k: int| 0 <= k < i ==> (#[trigger] out@[k]).model() == v@[k].model(),
        decreases v.len() - i,
    {
        let c = match &v[i] {
            YTSearchItem::StreamInfoItem(x) => YTSearchItem::StreamInfoItem(
                crate::items::YTStreamInfoItemExtractor { video_info: x.video_info.duplicate() },
            ),
            YTSearchItem::ChannelInfoItem(x) => YTSearchItem::ChannelInfoItem(
                crate::items::YTChannelInfoItemExtractor { channel_info: x.channel_info.duplicate() },
            ),
            YTSearchItem::PlaylistInfoItem(x) => YTSearchItem::PlaylistInfoItem(
                crate::items::YTPlaylistInfoItemExtractor {
                    playlist_info: x.playlist_info.duplicate(),
                },
            ),
        };
        out.push(c);
        i += 1;
    }
    proof {
        assert(item_models(out@) =~= item_models(v@));
    }
    out
}

/// The URL of the suggestions for `query`.
pub open spec fn suggestion_url(query: Seq<char>) -> Seq<char> {
    "https://suggestqueries.google.com/complete/search?client=youtube&jsonp=jp&ds=yt&q="@ + query
}

pub fn suggestion_request_url(query: &str) -> (r: String)
    ensures
        r@ == suggestion_url(query@),
{
    concat2("https://suggestqueries.google.com/complete/search?client=youtube&jsonp=jp&ds=yt&q=", query)
}

/// The JSON inside a suggestion body: the body without its three-character
/// prefix and its last character.
pub open spec fn suggestion_json(body: Seq<char>) -> Seq<char> {
    body.subrange(3, body.len() - 1)
}

/// The suggestions in a list: the first element of each element, where that
/// is text.
pub open spec fn suggestions_of(list: Seq<JsonV>) -> Seq<Seq<char>>
    decreases list.len(),
{
    if list.len() == 0 {
        Seq::empty()
    } else {
        let prev = suggestions_of(list.drop_last());
        match JsonV::text_of(list.last().item(0)) {
            Some(t) => prev.push(t),
            None => prev,
        }
    }
}

/// Reads the suggestions from a suggestion body. Fails when the body is too
/// short to hold its wrapper or what it wraps is not JSON; a body without a
/// list gives none.
pub fn suggestions_from_body(body: &str) -> (r: Result<Vec<String>, ParsingError>)
    ensures
        match r {
            Ok(v) => body@.len() >= 4 && match parsed_json(suggestion_json(body@)) {
                Some(j) => crate::stream::texts_of(v@) == match j.item(1) {
                    Some(JsonV::Array(list)) => suggestions_of(list),
                    _ => Seq::empty(),
                },
                None => false,
            },
            Err(e) => e.is_parsing() && (body@.len() < 4 || parsed_json(suggestion_json(body@)) is None),
        },
{
    let n = body.unicode_len();
    if n < 4 {
        return Err(ParsingError::parsing_error_from_str("suggestion body too short"));
    }
    let inner = body.substring_char(3, n - 1);
    let json = match parse_json(inner) {
        Some(j) => j,
        None => return Err(ParsingError::parsing_error_from_str("suggestions are not JSON")),
    };
    let mut out: Vec<String> = Vec::new();
    let l = match json.at(1) {
        Some(l) => l,
        None => {
            proof {
                assert(crate::stream::texts_of(out@) =~= Seq::empty());
            }
            return Ok(out);
        },
    };
    let list = match Some(l) {
        Some(l) => match l.as_array() {
            Some(a) => a,
            None => {
                proof {
                    assert(crate::stream::texts_of(out@) =~= Seq::empty());
                }
                return Ok(out);
            },
        },
        None => {
            proof {
                assert(crate::stream::texts_of(out@) =~= Seq::empty());
            }
            return Ok(out);
        },
    };
    proof {
        crate::stream::lemma_array_view(*l, *list);
    }
    let ghost all = views_of(list@);
    let mut i: usize = 0;
    proof {
        assert(all.subrange(0, 0) =~= Seq::<JsonV>::empty());
        assert(crate::stream::texts_of(out@) =~= Seq::empty());
    }
    while i < list.len()
        invariant
            all == views_of(list@),
            i <= list@.len(),
            crate::stream::texts_of(out@) == suggestions_of(all.subrange(0, i as int)),
        decreases list.len() - i,
    {
        let ghost pre = all.subrange(0, i as int + 1);
        let ghost before = crate::stream::texts_of(out@);
        proof {
            assert(pre.drop_last() =~= all.subrange(0, i as int));
            assert(pre.last() == list@[i as int]@);
        }
        match list[i].at(0) {
            Some(s) => match s.as_str() {
                Some(t) => {
                    out.push(t.clone());
                    proof {
                        assert(crate::stream::texts_of(out@) =~= before.push(t@));
                    }
                },
                None => {},
            },
            None => {},
        }
        i += 1;
    }
    proof {
        assert(all.subrange(0, i as int) =~= all);
    }
    Ok(out)
}

} // verus!
