//! A channel entry of a result list: its metadata, read from its renderer.
use crate::error::ParsingError;
use crate::items::YTChannelInfoItemExtractor;
use crate::json::{Hop, JsonV};
use crate::stream::Thumbnail;
use crate::stream_metadata::{list_along, list_along_path};
use crate::text::concat2;
use crate::utils::{digits_number, display_text, mixed_number, mixed_number_word_parse, remove_non_digit_chars, text_from_object, thumbnail_models, thumbnails_from, thumbnails_in};
use vstd::prelude::*;

verus! {

/// The display text of a member, or empty where it gives none.
pub open spec fn text_or_empty(v: JsonV) -> Seq<char> {
    match display_text(v, false) {
        Some(t) => t,
        None => Seq::empty(),
    }
}

impl YTChannelInfoItemExtractor {
    /// The channel's thumbnails; those that do not read are skipped.
    pub fn thumbnails(&self) -> (r: Result<Vec<Thumbnail>, ParsingError>)
        ensures
            match list_along(self.channel_info@, seq![Hop::Key("thumbnail"), Hop::Key("thumbnails")]) {
                Some(l) => r is Ok && thumbnail_models(r->Ok_0@) == thumbnails_in(l, false),
                None => r is Err && r->Err_0.is_parsing(),
            },
    {
        let path = [Hop::Key("thumbnail"), Hop::Key("thumbnails")];
        proof {
            assert(path@ =~= seq![Hop::Key("thumbnail"), Hop::Key("thumbnails")]);
        }
        match list_along_path(&self.channel_info, &path) {
            Some(list) => Ok(thumbnails_from(list, false)),
            None => Err(ParsingError::parsing_error_from_str("no thumbnails")),
        }
    }

    /// The channel's name.
    pub fn name(&self) -> (r: Result<String, ParsingError>)
        ensures
            match self.channel_info@.field("title"@) {
                Some(t) => if text_or_empty(t).len() > 0 {
                    r is Ok && r->Ok_0@ == text_or_empty(t)
                } else {
                    r is Err && r->Err_0.is_parsing()
                },
                None => r is Err && r->Err_0.is_parsing(),
            },
    {
        match self.channel_info.get("title") {
            Some(t) => match text_from_object(t, false) {
                Some(n) => if n.unicode_len() > 0 {
                    Ok(n)
                } else {
                    Err(ParsingError::parsing_error_from_str("Cannot get name"))
                },
                None => Err(ParsingError::parsing_error_from_str("Cannot get name")),
            },
            None => Err(ParsingError::parsing_error_from_str("Cannot get name")),
        }
    }

    /// The channel's identifier.
    pub fn channel_id(&self) -> (r: Result<String, ParsingError>)
        ensures
            match JsonV::text_of(self.channel_info@.field("channelId"@)) {
                Some(id) => r is Ok && r->Ok_0@ == id,
                None => r is Err && r->Err_0.is_parsing(),
            },
    {
        match self.channel_info.get("channelId") {
            Some(v) => match v.as_str() {
                Some(s) => Ok(s.clone()),
                None => Err(ParsingError::parsing_error_from_str("Cant get channel id")),
            },
            None => Err(ParsingError::parsing_error_from_str("Cant get channel id")),
        }
    }

    /// The channel's page.
    pub fn url(&self) -> (r: Result<String, ParsingError>)
        ensures
            match JsonV::text_of(self.channel_info@.field("channelId"@)) {
                Some(id) => r is Ok && r->Ok_0@ == "https://www.youtube.com/channel/"@ + id,
                None => r is Err && r->Err_0.is_parsing(),
            },
    {
        match self.channel_id() {
            Ok(id) => Ok(concat2("https://www.youtube.com/channel/", id.as_str())),
            Err(e) => Err(e),
        }
    }

    /// The number of subscribers: -1 where the renderer does not state it,
    /// else the number its text writes with a magnitude letter.
    pub fn subscriber_count(&self) -> (r: Result<i32, ParsingError>)
        ensures
            match self.channel_info@.field("subscriberCountText"@) {
                Some(t) => match mixed_number(text_or_empty(t)) {
                    Some(v) => if v <= i32::MAX {
                        r is Ok && r->Ok_0 as int == v
                    } else {
                        r is Err && r->Err_0.is_parsing()
                    },
                    None => r is Err && r->Err_0.is_parsing(),
                },
                None => r is Ok && r->Ok_0 == -1,
            },
    {
        match self.channel_info.get("subscriberCountText") {
            Some(t) => {
                let text = match text_from_object(t, false) {
                    Some(s) => s,
                    None => String::new(),
                };
                match mixed_number_word_parse(text.as_str()) {
                    Some(n) => Ok(n),
                    None => Err(ParsingError::parsing_error_from_str("Cant read subscriber count")),
                }
            },
            None => Ok(-1),
        }
    }

    /// The number of videos: -1 where the renderer does not state it, else
    /// the digits of its text.
    pub fn stream_count(&self) -> (r: Result<i32, ParsingError>)
        ensures
            match self.channel_info@.field("videoCountText"@) {
                Some(t) => match digits_number(text_or_empty(t), i32::MAX as int) {
                    Some(n) => r is Ok && r->Ok_0 as int == n,
                    None => r is Err && r->Err_0.is_parsing(),
                },
                None => r is Ok && r->Ok_0 == -1,
            },
    {
        match self.channel_info.get("videoCountText") {
            Some(t) => {
                let text = match text_from_object(t, false) {
                    Some(s) => s,
                    None => String::new(),
                };
                match remove_non_digit_chars(text.as_str(), 2147483647) {
                    Some(n) => Ok(n as i32),
                    None => Err(ParsingError::parsing_error_from_str("Cant read video count")),
                }
            },
            None => Ok(-1),
        }
    }

    /// The description snippet, where the renderer has one.
    pub fn description(&self) -> (r: Result<Option<String>, ParsingError>)
        ensures
            r is Ok,
            crate::fields::text_view(r->Ok_0) == match self.channel_info@.field(
                "descriptionSnippet"@,
            ) {
                Some(t) => display_text(t, false),
                None => None,
            },
    {
        match self.channel_info.get("descriptionSnippet") {
            Some(t) => Ok(text_from_object(t, false)),
            None => Ok(None),
        }
    }
}

} // verus!
