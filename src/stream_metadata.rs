//! A video's metadata, read defensively from its info renderers with the
//! player response as the fallback.
use crate::cipher::index_from;
use crate::error::ParsingError;
use crate::fields::text_view;
use crate::json::{str_opt, walk, walk_path, Hop, Json, JsonV};
use crate::stream::{lemma_array_view, views_of, Thumbnail};
use crate::stream_extractor::YTStreamExtractor;
use crate::text::{concat2, parse_bounded, parse_unsigned};
use crate::utils::{
    digits_number, display_text, navigation_url, remove_non_digit_chars, text_from_object,
    thumbnail_models, thumbnails_from, thumbnails_in, url_from_navigation_endpoint, all_thumbnails,
};
use crate::cipher::find_char;
use vstd::prelude::*;

verus! {

/// A calendar date.
#[derive(Debug)]
pub struct UploadDate {
    pub year: i32,
    pub month: u32,
    pub day: u32,
}

/// The date that chrono reads from `s` in the form `%Y-%m-%d`, as year,
/// month and day; nothing where it reads none.
pub uninterp spec fn ymd_of(s: Seq<char>) -> Option<(i32, u32, u32)>;

/// Relies on chrono::NaiveDate::parse_from_str with the format `%Y-%m-%d`,
/// and on `Datelike`'s year, month and day: a month runs from 1 to 12 and a
/// day from 1 to 31.
#[verifier::external_body]
fn parse_ymd(s: &str) -> (r: Option<(i32, u32, u32)>)
    ensures
        r == ymd_of(s@),
        r matches Some((_, m, d)) ==> 1 <= m <= 12 && 1 <= d <= 31,
{
    let d = chrono::NaiveDate::parse_from_str(s, "%Y-%m-%d").ok()?;
    Some((chrono::Datelike::year(&d), chrono::Datelike::month(&d), chrono::Datelike::day(&d)))
}

/// The text found along a path, where it is text.
pub open spec fn text_along(v: JsonV, path: Seq<Hop>) -> Option<Seq<char>> {
    JsonV::text_of(walk(Some(v), path))
}

/// The display text of the object found along a path; empty where there is
/// none.
pub open spec fn display_along(v: JsonV, path: Seq<Hop>, html: bool) -> Seq<char> {
    match walk(Some(v), path) {
        Some(o) => match display_text(o, html) {
            Some(t) => t,
            None => Seq::empty(),
        },
        None => Seq::empty(),
    }
}

/// The first choice where it is not empty, else the fallback text, else
/// nothing.
pub open spec fn first_nonempty(first: Seq<char>, fallback: Option<Seq<char>>) -> Option<Seq<char>> {
    if first.len() > 0 {
        Some(first)
    } else {
        match fallback {
            Some(t) => if t.len() > 0 {
                Some(t)
            } else {
                None
            },
            None => None,
        }
    }
}

/// The upload date text of a player response: `uploadDate`, else
/// `publishDate`, of its microformat renderer, else the end or start of its
/// live broadcast. A member that is present must be text.
pub open spec fn upload_date_text(pr: JsonV) -> Option<Seq<char>> {
    match walk(Some(pr), seq![Hop::Key("microformat"), Hop::Key("playerMicroformatRenderer")]) {
        None => None,
        Some(micro) => match micro.field("uploadDate"@) {
            Some(d) => d.text(),
            None => match micro.field("publishDate"@) {
                Some(d) => d.text(),
                None => match micro.field("liveBroadcastDetails"@) {
                    None => None,
                    Some(live) => match live.field("endTimestamp"@) {
                        Some(d) => d.text(),
                        None => match live.field("startTimestamp"@) {
                            Some(d) => d.text(),
                            None => None,
                        },
                    },
                },
            },
        },
    }
}

/// The part of a text before its first `/`.
pub open spec fn before_slash(s: Seq<char>) -> Seq<char> {
    s.subrange(0, index_from(s, '/', 0))
}

/// The part of a text between its first and second `/`, where it has one.
pub open spec fn after_slash(s: Seq<char>) -> Option<Seq<char>> {
    let e = index_from(s, '/', 0);
    if e >= s.len() {
        None
    } else {
        Some(s.subrange(e + 1, index_from(s, '/', e + 1)))
    }
}

/// A rating count: the digits of the rating text; where that text is empty,
/// -1 when ratings are off and a failure when they are on or unknown.
pub open spec fn rating_count(text: Seq<char>, allow_ratings: Option<bool>) -> Option<int> {
    if text.len() == 0 {
        match allow_ratings {
            Some(false) => Some(-1),
            _ => None,
        }
    } else {
        digits_number(text, i128::MAX as int)
    }
}

pub open spec fn tooltip_path() -> Seq<Hop> {
    seq![Hop::Key("sentimentBar"), Hop::Key("sentimentBarRenderer"), Hop::Key("tooltip")]
}

pub open spec fn allow_ratings_of(pr: JsonV) -> Option<bool> {
    match walk(Some(pr), seq![Hop::Key("videoDetails"), Hop::Key("allowRatings")]) {
        Some(JsonV::Bool(b)) => Some(b),
        _ => None,
    }
}

/// Whether `s` holds `pat` at `i`, letters compared without case.
pub open spec fn holds_at(s: Seq<char>, pat: Seq<char>, i: int) -> bool {
    0 <= i && i + pat.len() <= s.len() && forall|k: int|
        0 <= k < pat.len() ==> ascii_lower(#[trigger] s[i + k]) == pat[k]
}

pub open spec fn ascii_lower(c: char) -> char {
    if 'A' <= c <= 'Z' {
        ((c as u8) + 32) as u8 as char
    } else {
        c
    }
}

/// Whether `s` holds `pat` somewhere, letters compared without case.
pub open spec fn contains_lower(s: Seq<char>, pat: Seq<char>) -> bool {
    exists|i: int| holds_at(s, pat, i)
}

fn lower_char(c: char) -> (r: char)
    ensures
        r == ascii_lower(c),
{
    if 'A' <= c && c <= 'Z' {
        ((c as u8) + 32) as char
    } else {
        c
    }
}

/// Whether `s` holds the lower-case text `pat`, letters compared without case.
pub fn contains_ignoring_case(s: &str, pat: &str) -> (r: bool)
    ensures
        r == contains_lower(s@, pat@),
{
    let n = s.unicode_len();
    let m = pat.unicode_len();
    if m > n {
        proof {
            assert forall|i: int| !holds_at(s@, pat@, i) by {}
        }
        return false;
    }
    let mut i: usize = 0;
    while i <= n - m
        invariant
            n == s@.len(),
            m == pat@.len(),
            m <= n,
            i <= n - m + 1,
            forall|j: int| 0 <= j < i ==> !holds_at(s@, pat@, j),
        decreases n - i,
    {
        let mut k: usize = 0;
        let mut same = true;
        while k < m
            invariant
                n == s@.len(),
                m == pat@.len(),
                i + m <= n,
                k <= m,
                same ==> forall|q: int| 0 <= q < k ==> ascii_lower(#[trigger] s@[i + q]) == pat@[q],
                !same ==> !holds_at(s@, pat@, i as int),
            decreases m - k,
        {
            if same && lower_char(s.get_char(i + k)) != pat.get_char(k) {
                same = false;
            }
            k += 1;
        }
        if same {
            proof {
                assert(holds_at(s@, pat@, i as int));
            }
            return true;
        }
        i += 1;
    }
    proof {
        assert forall|j: int| !holds_at(s@, pat@, j) by {
            if 0 <= j < i {
            }
        }
    }
    false
}

/// A view count: zero for a text that says there are no views, else the
/// digits of the text.
pub open spec fn view_count_of(text: Seq<char>) -> Option<int> {
    if text.len() == 0 {
        None
    } else if contains_lower(text, "no views"@) {
        Some(0)
    } else {
        digits_number(text, u128::MAX as int)
    }
}

/// The duration in seconds: `videoDetails.lengthSeconds`, else the first
/// format's `approxDurationMs` in whole seconds.
pub open spec fn length_of(pr: JsonV) -> Option<int> {
    let secs = match text_along(pr, seq![Hop::Key("videoDetails"), Hop::Key("lengthSeconds")]) {
        Some(t) => parse_bounded(t, u64::MAX as int),
        None => None,
    };
    let ms = match text_along(
        pr,
        seq![
            Hop::Key("streamingData"),
            Hop::Key("formats"),
            Hop::Index(0),
            Hop::Key("approxDurationMs"),
        ],
    ) {
        Some(t) => parse_bounded(t, u64::MAX as int),
        None => None,
    };
    if secs is Some {
        secs
    } else {
        match ms {
            Some(v) => Some(v / 1000),
            None => None,
        }
    }
}

pub(crate) fn text_along_path(v: &Json, path: &[Hop]) -> (r: Option<String>)
    ensures
        text_view(r) == text_along(v@, path@),
{
    match str_opt(walk_path(v, path)) {
        Some(s) => Some(s.clone()),
        None => None,
    }
}

pub(crate) fn display_along_path(v: &Json, path: &[Hop], html: bool) -> (r: String)
    ensures
        r@ == display_along(v@, path@, html),
{
    match walk_path(v, path) {
        Some(o) => match text_from_object(o, html) {
            Some(t) => t,
            None => String::new(),
        },
        None => String::new(),
    }
}

impl<D> YTStreamExtractor<D> {
    /// The title: the primary renderer's, else the player response's.
    pub fn name(&self) -> (r: Result<String, ParsingError>)
        ensures
            match first_nonempty(
                display_along(self.primary_info_renderer@, seq![Hop::Key("title")], false),
                text_along(self.player_response@, seq![Hop::Key("videoDetails"), Hop::Key("title")]),
            ) {
                Some(t) => r is Ok && r->Ok_0@ == t,
                None => r is Err && r->Err_0.is_parsing(),
            },
    {
        let path = [Hop::Key("title")];
        proof {
            assert(path@ =~= seq![Hop::Key("title")]);
        }
        let title = display_along_path(&self.primary_info_renderer, &path, false);
        if title.unicode_len() > 0 {
            return Ok(title);
        }
        let path2 = [Hop::Key("videoDetails"), Hop::Key("title")];
        proof {
            assert(path2@ =~= seq![Hop::Key("videoDetails"), Hop::Key("title")]);
        }
        match text_along_path(&self.player_response, &path2) {
            Some(t) => if t.unicode_len() > 0 {
                Ok(t)
            } else {
                Err(ParsingError::parsing_error_from_str("Cant get title"))
            },
            None => Err(ParsingError::parsing_error_from_str("Cant get title")),
        }
    }

    /// The upload date as the page states it.
    pub fn textual_upload_date(&self) -> (r: Result<String, ParsingError>)
        ensures
            match upload_date_text(self.player_response@) {
                Some(t) => r is Ok && r->Ok_0@ == t,
                None => r is Err && r->Err_0.is_parsing(),
            },
    {
        let path = [Hop::Key("microformat"), Hop::Key("playerMicroformatRenderer")];
        proof {
            assert(path@ =~= seq![Hop::Key("microformat"), Hop::Key("playerMicroformatRenderer")]);
        }
        let micro = match walk_path(&self.player_response, &path) {
            Some(m) => m,
            None => return Err(ParsingError::parsing_error_from_str("Cannot get upload date (microformat)")),
        };
        let date = match micro.get("uploadDate") {
            Some(d) => Some(d),
            None => micro.get("publishDate"),
        };
        let date = match date {
            Some(d) => Some(d),
            None => {
                let live = match micro.get("liveBroadcastDetails") {
                    Some(l) => l,
                    None => return Err(
                        ParsingError::parsing_error_from_str("Cannot get upload date (liveBroadcastDetails)"),
                    ),
                };
                match live.get("endTimestamp") {
                    Some(d) => Some(d),
                    None => live.get("startTimestamp"),
                }
            },
        };
        match date {
            Some(d) => match d.as_str() {
                Some(s) => Ok(s.clone()),
                None => Err(ParsingError::parsing_error_from_str("Cannot get upload date (not text)")),
            },
            None => Err(ParsingError::parsing_error_from_str("Cannot get upload date")),
        }
    }

    /// The upload date as a calendar date.
    pub fn upload_date(&self) -> (r: Result<UploadDate, ParsingError>)
        ensures
            match upload_date_text(self.player_response@) {
                Some(t) => match ymd_of(t) {
                    Some((y, m, d)) => r is Ok && r->Ok_0.year == y && r->Ok_0.month == m
                        && r->Ok_0.day == d,
                    None => r is Err && r->Err_0.is_parsing(),
                },
                None => r is Err && r->Err_0.is_parsing(),
            },
            r matches Ok(d) ==> 1 <= d.month <= 12 && 1 <= d.day <= 31,
    {
        let text = match self.textual_upload_date() {
            Ok(t) => t,
            Err(e) => return Err(e),
        };
        match parse_ymd(text.as_str()) {
            Some((year, month, day)) => Ok(UploadDate { year, month, day }),
            None => Err(ParsingError::parsing_error_from_str("Cannot parse date")),
        }
    }

    /// The description, and whether it came from the page's renderer rather
    /// than the player response.
    pub fn description(&self, html: bool) -> (r: Result<(String, bool), ParsingError>)
        ensures
            ({
                let from_page = display_along(
                    self.secondary_info_renderer@,
                    seq![Hop::Key("description")],
                    html,
                );
                let short = text_along(
                    self.player_response@,
                    seq![Hop::Key("videoDetails"), Hop::Key("shortDescription")],
                );
                if from_page.len() > 0 {
                    r is Ok && r->Ok_0.0@ == from_page && r->Ok_0.1
                } else {
                    match short {
                        Some(t) => r is Ok && r->Ok_0.0@ == t && !r->Ok_0.1,
                        None => r is Err && r->Err_0.is_parsing(),
                    }
                }
            }),
    {
        let path = [Hop::Key("description")];
        proof {
            assert(path@ =~= seq![Hop::Key("description")]);
        }
        let desc = display_along_path(&self.secondary_info_renderer, &path, html);
        if desc.unicode_len() > 0 {
            return Ok((desc, true));
        }
        let path2 = [Hop::Key("videoDetails"), Hop::Key("shortDescription")];
        proof {
            assert(path2@ =~= seq![Hop::Key("videoDetails"), Hop::Key("shortDescription")]);
        }
        match text_along_path(&self.player_response, &path2) {
            Some(t) => Ok((t, false)),
            None => Err(ParsingError::parsing_error_from_str("Cant get description")),
        }
    }

    /// The duration in seconds.
    pub fn length(&self) -> (r: Result<u64, ParsingError>)
        ensures
            match length_of(self.player_response@) {
                Some(n) => r is Ok && r->Ok_0 as int == n,
                None => r is Err && r->Err_0.is_parsing(),
            },
    {
        let path = [Hop::Key("videoDetails"), Hop::Key("lengthSeconds")];
        proof {
            assert(path@ =~= seq![Hop::Key("videoDetails"), Hop::Key("lengthSeconds")]);
        }
        match text_along_path(&self.player_response, &path) {
            Some(t) => match parse_unsigned(t.as_str(), 18446744073709551615) {
                Some(n) => return Ok(n),
                None => {},
            },
            None => {},
        }
        let path2 = [
            Hop::Key("streamingData"),
            Hop::Key("formats"),
            Hop::Index(0),
            Hop::Key("approxDurationMs"),
        ];
        proof {
            assert(path2@ =~= seq![
                Hop::Key("streamingData"),
                Hop::Key("formats"),
                Hop::Index(0),
                Hop::Key("approxDurationMs"),
            ]);
        }
        match text_along_path(&self.player_response, &path2) {
            Some(t) => match parse_unsigned(t.as_str(), 18446744073709551615) {
                Some(ms) => Ok(ms / 1000),
                None => Err(ParsingError::parsing_error_from_str("Cant get length")),
            },
            None => Err(ParsingError::parsing_error_from_str("Cant get length")),
        }
    }

    /// The view count.
    pub fn view_count(&self) -> (r: Result<u128, ParsingError>)
        ensures
            ({
                let page = display_along(
                    self.primary_info_renderer@,
                    seq![
                        Hop::Key("viewCount"),
                        Hop::Key("videoViewCountRenderer"),
                        Hop::Key("viewCount"),
                    ],
                    false,
                );
                let text = if page.len() > 0 {
                    page
                } else {
                    match text_along(
                        self.player_response@,
                        seq![Hop::Key("videoDetails"), Hop::Key("viewCount")],
                    ) {
                        Some(t) => t,
                        None => Seq::empty(),
                    }
                };
                match view_count_of(text) {
                    Some(n) => r is Ok && r->Ok_0 as int == n,
                    None => r is Err && r->Err_0.is_parsing(),
                }
            }),
    {
        let path = [Hop::Key("viewCount"), Hop::Key("videoViewCountRenderer"), Hop::Key("viewCount")];
        proof {
            assert(path@ =~= seq![
                Hop::Key("viewCount"),
                Hop::Key("videoViewCountRenderer"),
                Hop::Key("viewCount"),
            ]);
        }
        let mut views = display_along_path(&self.primary_info_renderer, &path, false);
        if views.unicode_len() == 0 {
            let path2 = [Hop::Key("videoDetails"), Hop::Key("viewCount")];
            proof {
                assert(path2@ =~= seq![Hop::Key("videoDetails"), Hop::Key("viewCount")]);
            }
            views = match text_along_path(&self.player_response, &path2) {
                Some(t) => t,
                None => String::new(),
            };
        }
        if views.unicode_len() > 0 {
            if contains_ignoring_case(views.as_str(), "no views") {
                return Ok(0);
            }
            match remove_non_digit_chars(views.as_str(), 340282366920938463463374607431768211455) {
                Some(n) => return Ok(n),
                None => {},
            }
        }
        Err(ParsingError::parsing_error_from_str("Cant get view count"))
    }

    fn rating(&self, second: bool) -> (r: Result<i128, ParsingError>)
        ensures
            ({
                let tip = text_along(self.primary_info_renderer@, tooltip_path());
                let text = match tip {
                    Some(t) => if second {
                        match after_slash(t) {
                            Some(p) => p,
                            None => Seq::empty(),
                        }
                    } else {
                        before_slash(t)
                    },
                    None => Seq::empty(),
                };
                match rating_count(text, allow_ratings_of(self.player_response@)) {
                    Some(n) => r is Ok && r->Ok_0 as int == n,
                    None => r is Err && r->Err_0.is_parsing(),
                }
            }),
    {
        let path = [Hop::Key("sentimentBar"), Hop::Key("sentimentBarRenderer"), Hop::Key("tooltip")];
        proof {
            assert(path@ =~= tooltip_path());
        }
        let text = match text_along_path(&self.primary_info_renderer, &path) {
            Some(t) => {
                let n = t.unicode_len();
                let e = find_char(t.as_str(), '/', 0);
                proof {
                    crate::cipher::lemma_index_from_bounds(t@, '/', 0);
                }
                if second {
                    if e >= n {
                        String::new()
                    } else {
                        let f = find_char(t.as_str(), '/', e + 1);
                        proof {
                            crate::cipher::lemma_index_from_bounds(t@, '/', e + 1);
                        }
                        String::from_str(t.as_str().substring_char(e + 1, f))
                    }
                } else {
                    String::from_str(t.as_str().substring_char(0, e))
                }
            },
            None => String::new(),
        };
        if text.unicode_len() == 0 {
            let path2 = [Hop::Key("videoDetails"), Hop::Key("allowRatings")];
            proof {
                assert(path2@ =~= seq![Hop::Key("videoDetails"), Hop::Key("allowRatings")]);
            }
            return match walk_path(&self.player_response, &path2) {
                Some(a) => match a.as_bool() {
                    Some(false) => Ok(-1),
                    Some(true) => Err(
                        ParsingError::parsing_error_from_str("Ratings are enabled even though the rating is missing"),
                    ),
                    None => Err(ParsingError::parsing_error_from_str("could not get rating")),
                },
                None => Err(ParsingError::parsing_error_from_str("could not get rating")),
            };
        }
        match remove_non_digit_chars(text.as_str(), 170141183460469231731687303715884105727) {
            Some(n) => Ok(n as i128),
            None => Err(ParsingError::parsing_error_from_str("could not get rating")),
        }
    }

    /// The like count; -1 where ratings are off.
    pub fn like_count(&self) -> (r: Result<i128, ParsingError>)
        ensures
            ({
                let text = match text_along(self.primary_info_renderer@, tooltip_path()) {
                    Some(t) => before_slash(t),
                    None => Seq::empty(),
                };
                match rating_count(text, allow_ratings_of(self.player_response@)) {
                    Some(n) => r is Ok && r->Ok_0 as int == n,
                    None => r is Err && r->Err_0.is_parsing(),
                }
            }),
    {
        self.rating(false)
    }

    /// The dislike count; -1 where ratings are off.
    pub fn dislike_count(&self) -> (r: Result<i128, ParsingError>)
        ensures
            ({
                let text = match text_along(self.primary_info_renderer@, tooltip_path()) {
                    Some(t) => match after_slash(t) {
                        Some(p) => p,
                        None => Seq::empty(),
                    },
                    None => Seq::empty(),
                };
                match rating_count(text, allow_ratings_of(self.player_response@)) {
                    Some(n) => r is Ok && r->Ok_0 as int == n,
                    None => r is Err && r->Err_0.is_parsing(),
                }
            }),
    {
        self.rating(true)
    }
}

pub open spec fn owner_path() -> Seq<Hop> {
    seq![Hop::Key("owner"), Hop::Key("videoOwnerRenderer")]
}

/// The thumbnails of a list found along a path, or nothing where there is no
/// list there.
pub open spec fn list_along(v: JsonV, path: Seq<Hop>) -> Option<Seq<JsonV>> {
    match walk(Some(v), path) {
        Some(JsonV::Array(list)) => Some(list),
        _ => None,
    }
}

pub(crate) fn list_along_path<'a>(v: &'a Json, path: &[Hop]) -> (r: Option<&'a Vec<Json>>)
    ensures
        match list_along(v@, path@) {
            Some(l) => r is Some && views_of(r->0@) == l,
            None => r is None,
        },
{
    match walk_path(v, path) {
        Some(n) => match n.as_array() {
            Some(a) => {
                proof {
                    lemma_array_view(*n, *a);
                }
                Some(a)
            },
            None => None,
        },
        None => None,
    }
}

/// Whether every element of a list reads as a thumbnail.
fn every_thumbnail(list: &Vec<Json>) -> (r: bool)
    ensures
        r == all_thumbnails(views_of(list@)),
{
    let mut i: usize = 0;
    while i < list.len()
        invariant
            i <= list@.len(),
            forall|k: int| 0 <= k < i ==> (#[trigger] crate::stream::thumbnail_of(views_of(list@)[k])) is Some,
        decreases list.len() - i,
    {
        if Thumbnail::from_json(&list[i]).is_none() {
            proof {
                assert(crate::stream::thumbnail_of(views_of(list@)[i as int]) is None);
            }
            return false;
        }
        i += 1;
    }
    true
}

impl<D> YTStreamExtractor<D> {
    /// The uploader's page: the owner's navigation target, else the channel
    /// named in the player response.
    pub fn uploader_url(&self) -> (r: Result<String, ParsingError>)
        ensures
            ({
                let nav = match walk(
                    Some(self.secondary_info_renderer@),
                    owner_path().push(Hop::Key("navigationEndpoint")),
                ) {
                    Some(n) => navigation_url(n),
                    None => Seq::empty(),
                };
                let id = text_along(
                    self.player_response@,
                    seq![Hop::Key("videoDetails"), Hop::Key("channelId")],
                );
                if nav.len() > 0 {
                    r is Ok && r->Ok_0@ == nav
                } else {
                    match id {
                        Some(c) => r is Ok && r->Ok_0@ == "https://www.youtube.com/channel/"@ + c,
                        None => r is Err && r->Err_0.is_parsing(),
                    }
                }
            }),
    {
        let path = [Hop::Key("owner"), Hop::Key("videoOwnerRenderer"), Hop::Key("navigationEndpoint")];
        proof {
            assert(path@ =~= owner_path().push(Hop::Key("navigationEndpoint")));
        }
        match walk_path(&self.secondary_info_renderer, &path) {
            Some(nav) => {
                let url = url_from_navigation_endpoint(nav);
                if url.unicode_len() > 0 {
                    return Ok(url);
                }
            },
            None => {},
        }
        let path2 = [Hop::Key("videoDetails"), Hop::Key("channelId")];
        proof {
            assert(path2@ =~= seq![Hop::Key("videoDetails"), Hop::Key("channelId")]);
        }
        match text_along_path(&self.player_response, &path2) {
            Some(id) => Ok(concat2("https://www.youtube.com/channel/", id.as_str())),
            None => Err(ParsingError::parsing_error_from_str("Cant get uploader url")),
        }
    }

    /// The uploader's name: the owner's title, else the player response's
    /// author.
    pub fn uploader_name(&self) -> (r: Result<String, ParsingError>)
        ensures
            match first_nonempty(
                display_along(self.secondary_info_renderer@, owner_path().push(Hop::Key("title")), false),
                text_along(self.player_response@, seq![Hop::Key("videoDetails"), Hop::Key("author")]),
            ) {
                Some(t) => r is Ok && r->Ok_0@ == t,
                None => r is Err && r->Err_0.is_parsing(),
            },
    {
        let path = [Hop::Key("owner"), Hop::Key("videoOwnerRenderer"), Hop::Key("title")];
        proof {
            assert(path@ =~= owner_path().push(Hop::Key("title")));
        }
        let name = display_along_path(&self.secondary_info_renderer, &path, false);
        if name.unicode_len() > 0 {
            return Ok(name);
        }
        let path2 = [Hop::Key("videoDetails"), Hop::Key("author")];
        proof {
            assert(path2@ =~= seq![Hop::Key("videoDetails"), Hop::Key("author")]);
        }
        match text_along_path(&self.player_response, &path2) {
            Some(t) => if t.unicode_len() > 0 {
                Ok(t)
            } else {
                Err(ParsingError::parsing_error_from_str("Cant get uploader name"))
            },
            None => Err(ParsingError::parsing_error_from_str("Cant get uploader name")),
        }
    }

    /// The uploader's avatars, with absolute URLs; those that do not read
    /// are skipped.
    pub fn uploader_avatar_url(&self) -> (r: Result<Vec<Thumbnail>, ParsingError>)
        ensures
            r is Ok,
            thumbnail_models(r->Ok_0@) == match list_along(
                self.secondary_info_renderer@,
                owner_path().push(Hop::Key("thumbnail")).push(Hop::Key("thumbnails")),
            ) {
                Some(list) => thumbnails_in(list, true),
                None => Seq::empty(),
            },
    {
        let path = [
            Hop::Key("owner"),
            Hop::Key("videoOwnerRenderer"),
            Hop::Key("thumbnail"),
            Hop::Key("thumbnails"),
        ];
        proof {
            assert(path@ =~= owner_path().push(Hop::Key("thumbnail")).push(Hop::Key("thumbnails")));
        }
        match list_along_path(&self.secondary_info_renderer, &path) {
            Some(list) => Ok(thumbnails_from(list, true)),
            None => {
                let v: Vec<Thumbnail> = Vec::new();
                proof {
                    assert(thumbnail_models(v@) =~= Seq::empty());
                }
                Ok(v)
            },
        }
    }

    /// The video's thumbnails, with absolute URLs; fails where the list is
    /// missing or one of them does not read.
    pub fn video_thumbnails(&self) -> (r: Result<Vec<Thumbnail>, ParsingError>)
        ensures
            match list_along(
                self.player_response@,
                seq![Hop::Key("videoDetails"), Hop::Key("thumbnail"), Hop::Key("thumbnails")],
            ) {
                Some(list) => if all_thumbnails(list) {
                    r is Ok && thumbnail_models(r->Ok_0@) == thumbnails_in(list, true)
                } else {
                    r is Err && r->Err_0.is_parsing()
                },
                None => r is Err && r->Err_0.is_parsing(),
            },
    {
        let path = [Hop::Key("videoDetails"), Hop::Key("thumbnail"), Hop::Key("thumbnails")];
        proof {
            assert(path@ =~= seq![Hop::Key("videoDetails"), Hop::Key("thumbnail"), Hop::Key("thumbnails")]);
        }
        match list_along_path(&self.player_response, &path) {
            Some(list) => if every_thumbnail(list) {
                Ok(thumbnails_from(list, true))
            } else {
                Err(ParsingError::parsing_error_from_str("Cant read a video thumbnail"))
            },
            None => Err(ParsingError::parsing_error_from_str("Cant get video thumbnails")),
        }
    }
}

} // verus!
