//! A playlist's metadata, read from its info node and its content node.
use crate::error::ParsingError;
use crate::json::{walk, walk_path, Hop, Json, JsonV};
use crate::playlist::YTPlaylistExtractor;
use crate::stream::{views_of, Thumbnail};
use crate::stream_metadata::{display_along, display_along_path, list_along, list_along_path, text_along, text_along_path};
use crate::utils::{
    digits_number, display_text, navigation_url, remove_non_digit_chars, text_from_object,
    thumbnail_models, thumbnails_from, thumbnails_in, url_from_navigation_endpoint,
};
use vstd::prelude::*;

verus! {

pub open spec fn microformat_path() -> Seq<Hop> {
    seq![Hop::Key("microformat"), Hop::Key("microformatDataRenderer")]
}

pub open spec fn owner_in_item() -> Seq<Hop> {
    seq![
        Hop::Key("playlistSidebarSecondaryInfoRenderer"),
        Hop::Key("videoOwner"),
        Hop::Key("videoOwnerRenderer"),
    ]
}

/// The node found along `path` from the first node that has one.
pub open spec fn first_along(nodes: Seq<JsonV>, path: Seq<Hop>) -> Option<JsonV>
    decreases nodes.len(),
{
    if nodes.len() == 0 {
        None
    } else if walk(Some(nodes[0]), path) is Some {
        walk(Some(nodes[0]), path)
    } else {
        first_along(nodes.drop_first(), path)
    }
}

/// The owner node of a playlist's content node.
pub open spec fn uploader_info_of(data: JsonV) -> Option<JsonV> {
    match list_along(
        data,
        seq![Hop::Key("sidebar"), Hop::Key("playlistSidebarRenderer"), Hop::Key("items")],
    ) {
        Some(items) => first_along(items, owner_in_item()),
        None => None,
    }
}

impl<D> YTPlaylistExtractor<D> {
    /// The playlist's name: its info node's title, else the microformat's.
    pub fn name(&self) -> (r: Result<String, ParsingError>)
        ensures
            ({
                let info = display_along(self.playlist_info@, seq![Hop::Key("title")], false);
                if info.len() > 0 {
                    r is Ok && r->Ok_0@ == info
                } else {
                    match text_along(self.init_data@, microformat_path().push(Hop::Key("title"))) {
                        Some(t) => r is Ok && r->Ok_0@ == t,
                        None => r is Err && r->Err_0.is_parsing(),
                    }
                }
            }),
    {
        let path = [Hop::Key("title")];
        proof {
            assert(path@ =~= seq![Hop::Key("title")]);
        }
        let name = display_along_path(&self.playlist_info, &path, false);
        if name.unicode_len() > 0 {
            return Ok(name);
        }
        let path2 = [Hop::Key("microformat"), Hop::Key("microformatDataRenderer"), Hop::Key("title")];
        proof {
            assert(path2@ =~= microformat_path().push(Hop::Key("title")));
        }
        match text_along_path(&self.init_data, &path2) {
            Some(t) => Ok(t),
            None => Err(ParsingError::parsing_error_from_str("Cant get name")),
        }
    }

    /// The playlist's thumbnails, from its info node or else its microformat;
    /// those that do not read are skipped.
    pub fn thumbnails(&self) -> (r: Result<Vec<Thumbnail>, ParsingError>)
        ensures
            ({
                let first = list_along(
                    self.playlist_info@,
                    seq![
                        Hop::Key("thumbnailRenderer"),
                        Hop::Key("playlistVideoThumbnailRenderer"),
                        Hop::Key("thumbnail"),
                        Hop::Key("thumbnails"),
                    ],
                );
                let second = list_along(
                    self.init_data@,
                    microformat_path().push(Hop::Key("thumbnail")).push(Hop::Key("thumbnails")),
                );
                match first {
                    Some(l) => r is Ok && thumbnail_models(r->Ok_0@) == thumbnails_in(l, false),
                    None => match second {
                        Some(l) => r is Ok && thumbnail_models(r->Ok_0@) == thumbnails_in(l, false),
                        None => r is Err && r->Err_0.is_parsing(),
                    },
                }
            }),
    {
        let path = [
            Hop::Key("thumbnailRenderer"),
            Hop::Key("playlistVideoThumbnailRenderer"),
            Hop::Key("thumbnail"),
            Hop::Key("thumbnails"),
        ];
        proof {
            assert(path@ =~= seq![
                Hop::Key("thumbnailRenderer"),
                Hop::Key("playlistVideoThumbnailRenderer"),
                Hop::Key("thumbnail"),
                Hop::Key("thumbnails"),
            ]);
        }
        match list_along_path(&self.playlist_info, &path) {
            Some(list) => return Ok(thumbnails_from(list, false)),
            None => {},
        }
        let path2 = [
            Hop::Key("microformat"),
            Hop::Key("microformatDataRenderer"),
            Hop::Key("thumbnail"),
            Hop::Key("thumbnails"),
        ];
        proof {
            assert(path2@ =~= microformat_path().push(Hop::Key("thumbnail")).push(Hop::Key("thumbnails")));
        }
        match list_along_path(&self.init_data, &path2) {
            Some(list) => Ok(thumbnails_from(list, false)),
            None => Err(ParsingError::parsing_error_from_str("Cant get thumbnails")),
        }
    }

    /// The owner node of the playlist.
    pub fn uploader_info(&self) -> (r: Result<Json, ParsingError>)
        ensures
            match uploader_info_of(self.init_data@) {
                Some(o) => r is Ok && r->Ok_0@ == o,
                None => r is Err && r->Err_0.is_parsing(),
            },
    {
        let path = [Hop::Key("sidebar"), Hop::Key("playlistSidebarRenderer"), Hop::Key("items")];
        proof {
            assert(path@ =~= seq![Hop::Key("sidebar"), Hop::Key("playlistSidebarRenderer"), Hop::Key("items")]);
        }
        let items = match list_along_path(&self.init_data, &path) {
            Some(l) => l,
            None => return Err(ParsingError::parsing_error_from_str("Cant get uploader info")),
        };
        let owner = [
            Hop::Key("playlistSidebarSecondaryInfoRenderer"),
            Hop::Key("videoOwner"),
            Hop::Key("videoOwnerRenderer"),
        ];
        proof {
            assert(owner@ =~= owner_in_item());
        }
        let ghost all = views_of(items@);
        let mut i: usize = 0;
        proof {
            assert(all.subrange(0, all.len() as int) =~= all);
        }
        while i < items.len()
            invariant
                all == views_of(items@),
                owner@ == owner_in_item(),
                uploader_info_of(self.init_data@) == first_along(all, owner_in_item()),
                i <= items@.len(),
                first_along(all, owner_in_item()) == first_along(
                    all.subrange(i as int, all.len() as int),
                    owner_in_item(),
                ),
            decreases items.len() - i,
        {
            proof {
                let rest = all.subrange(i as int, all.len() as int);
                assert(rest.drop_first() =~= all.subrange(i as int + 1, all.len() as int));
                assert(rest[0] == items@[i as int]@);
            }
            match walk_path(&items[i], &owner) {
                Some(o) => return Ok(o.duplicate()),
                None => {},
            }
            i += 1;
        }
        proof {
            assert(all.subrange(i as int, all.len() as int) =~= Seq::<JsonV>::empty());
        }
        Err(ParsingError::parsing_error_from_str("Cant get uploader info"))
    }

    /// The owner's page.
    pub fn uploader_url(&self) -> (r: Result<String, ParsingError>)
        ensures
            match uploader_info_of(self.init_data@) {
                Some(o) => match o.field("navigationEndpoint"@) {
                    Some(nav) => r is Ok && r->Ok_0@ == navigation_url(nav),
                    None => r is Err && r->Err_0.is_parsing(),
                },
                None => r is Err && r->Err_0.is_parsing(),
            },
    {
        let info = match self.uploader_info() {
            Ok(i) => i,
            Err(e) => return Err(e),
        };
        match info.get("navigationEndpoint") {
            Some(nav) => Ok(url_from_navigation_endpoint(nav)),
            None => Err(ParsingError::parsing_error_from_str("Cant get uploader url")),
        }
    }

    /// The owner's name.
    pub fn uploader_name(&self) -> (r: Result<String, ParsingError>)
        ensures
            match uploader_info_of(self.init_data@) {
                Some(o) => match o.field("title"@) {
                    Some(t) => match display_text(t, false) {
                        Some(n) => r is Ok && r->Ok_0@ == n,
                        None => r is Err && r->Err_0.is_parsing(),
                    },
                    None => r is Err && r->Err_0.is_parsing(),
                },
                None => r is Err && r->Err_0.is_parsing(),
            },
    {
        let info = match self.uploader_info() {
            Ok(i) => i,
            Err(e) => return Err(e),
        };
        match info.get("title") {
            Some(t) => match text_from_object(t, false) {
                Some(n) => Ok(n),
                None => Err(ParsingError::parsing_error_from_str("uploader name not found")),
            },
            None => Err(ParsingError::parsing_error_from_str("Cant get uploader name")),
        }
    }

    /// The owner's avatars; those that do not read are skipped.
    pub fn uploader_avatars(&self) -> (r: Result<Vec<Thumbnail>, ParsingError>)
        ensures
            match uploader_info_of(self.init_data@) {
                Some(o) => match list_along(o, seq![Hop::Key("thumbnail"), Hop::Key("thumbnails")]) {
                    Some(l) => r is Ok && thumbnail_models(r->Ok_0@) == thumbnails_in(l, false),
                    None => r is Err && r->Err_0.is_parsing(),
                },
                None => r is Err && r->Err_0.is_parsing(),
            },
    {
        let info = match self.uploader_info() {
            Ok(i) => i,
            Err(e) => return Err(e),
        };
        let path = [Hop::Key("thumbnail"), Hop::Key("thumbnails")];
        proof {
            assert(path@ =~= seq![Hop::Key("thumbnail"), Hop::Key("thumbnails")]);
        }
        match list_along_path(&info, &path) {
            Some(list) => Ok(thumbnails_from(list, false)),
            None => Err(ParsingError::parsing_error_from_str("Cant get uploader thumbnails")),
        }
    }

    /// The number of videos, read from the digits of the first stat.
    pub fn stream_count(&self) -> (r: Result<i32, ParsingError>)
        ensures
            match walk(Some(self.playlist_info@), seq![Hop::Key("stats"), Hop::Index(0)]) {
                Some(stat) => {
                    let text = match display_text(stat, false) {
                        Some(t) => t,
                        None => Seq::empty(),
                    };
                    match digits_number(text, i32::MAX as int) {
                        Some(n) => r is Ok && r->Ok_0 as int == n,
                        None => r is Err && r->Err_0.is_parsing(),
                    }
                },
                None => r is Err && r->Err_0.is_parsing(),
            },
    {
        let path = [Hop::Key("stats"), Hop::Index(0)];
        proof {
            assert(path@ =~= seq![Hop::Key("stats"), Hop::Index(0)]);
        }
        let stat = match walk_path(&self.playlist_info, &path) {
            Some(s) => s,
            None => return Err(ParsingError::parsing_error_from_str("No stats")),
        };
        let text = match text_from_object(stat, false) {
            Some(t) => t,
            None => String::new(),
        };
        match remove_non_digit_chars(text.as_str(), 2147483647) {
            Some(n) => Ok(n as i32),
            None => Err(ParsingError::parsing_error_from_str("Cant read video count")),
        }
    }
}

} // verus!
