//! Result-list nodes and their structural classification: a node's kind is
//! the renderer key it carries.
use crate::error::ParsingError;
use crate::json::{Json, JsonV};
use crate::stream::views_of;
use vstd::prelude::*;

verus! {

/// A video entry of a result list; holds its renderer object.
#[derive(Debug)]
pub struct YTStreamInfoItemExtractor {
    pub video_info: Json,
}

/// A channel entry of a result list; holds its renderer object.
#[derive(Debug)]
pub struct YTChannelInfoItemExtractor {
    pub channel_info: Json,
}

/// A playlist entry of a result list; holds its renderer object.
#[derive(Debug)]
pub struct YTPlaylistInfoItemExtractor {
    pub playlist_info: Json,
}

/// One classified result.
#[derive(Debug)]
pub enum YTSearchItem {
    StreamInfoItem(YTStreamInfoItemExtractor),
    ChannelInfoItem(YTChannelInfoItemExtractor),
    PlaylistInfoItem(YTPlaylistInfoItemExtractor),
}

/// The kinds of result.
#[derive(Debug)]
pub enum ItemKind {
    Stream,
    Channel,
    Playlist,
}

impl YTSearchItem {
    /// The kind of a result and the renderer object it holds.
    pub open spec fn model(&self) -> (ItemKind, JsonV) {
        match self {
            YTSearchItem::StreamInfoItem(x) => (ItemKind::Stream, x.video_info@),
            YTSearchItem::ChannelInfoItem(x) => (ItemKind::Channel, x.channel_info@),
            YTSearchItem::PlaylistInfoItem(x) => (ItemKind::Playlist, x.playlist_info@),
        }
    }
}

/// The models of a list of results.
pub open spec fn item_models(v: Seq<YTSearchItem>) -> Seq<(ItemKind, JsonV)> {
    Seq::new(v.len(), |i: int| v[i].model())
}

/// The renderer objects held by a list of video entries.
pub open spec fn video_models(v: Seq<YTStreamInfoItemExtractor>) -> Seq<JsonV> {
    Seq::new(v.len(), |i: int| v[i].video_info@)
}

/// The kind of a node: the first renderer key it carries, tried in the order
/// video, compact video, channel, playlist. A node whose first key found does
/// not hold an object, or that carries none, is skipped.
pub open spec fn classify(node: JsonV) -> Option<(ItemKind, JsonV)> {
    let video = match node.field("videoRenderer"@) {
        Some(x) => Some(x),
        None => node.field("compactVideoRenderer"@),
    };
    match video {
        Some(x) => if x is Object {
            Some((ItemKind::Stream, x))
        } else {
            None
        },
        None => match node.field("channelRenderer"@) {
            Some(x) => if x is Object {
                Some((ItemKind::Channel, x))
            } else {
                None
            },
            None => match node.field("playlistRenderer"@) {
                Some(x) => if x is Object {
                    Some((ItemKind::Playlist, x))
                } else {
                    None
                },
                None => None,
            },
        },
    }
}

/// Whether a node is the marker of an empty result.
pub open spec fn is_empty_marker(node: JsonV) -> bool {
    node.field("backgroundPromoRenderer"@) is Some
}

/// Whether some node of a list is the empty-result marker.
pub open spec fn has_marker(nodes: Seq<JsonV>) -> bool {
    exists|i: int| 0 <= i < nodes.len() && is_empty_marker(#[trigger] nodes[i])
}

/// The classified nodes of a list, in order; unknown nodes are skipped.
pub open spec fn classified(nodes: Seq<JsonV>) -> Seq<(ItemKind, JsonV)>
    decreases nodes.len(),
{
    if nodes.len() == 0 {
        Seq::empty()
    } else {
        let prev = classified(nodes.drop_last());
        match classify(nodes.last()) {
            Some(c) => prev.push(c),
            None => prev,
        }
    }
}

/// The results of a list of nodes: none at all where the list holds the
/// empty-result marker, which stands for a genuine empty result; else its
/// classified nodes.
pub open spec fn classify_all(nodes: Seq<JsonV>) -> Seq<(ItemKind, JsonV)> {
    if has_marker(nodes) {
        Seq::empty()
    } else {
        classified(nodes)
    }
}

/// The playlist video renderers among a list of nodes, in order.
pub open spec fn playlist_videos(nodes: Seq<JsonV>) -> Seq<JsonV>
    decreases nodes.len(),
{
    if nodes.len() == 0 {
        Seq::empty()
    } else {
        let prev = playlist_videos(nodes.drop_last());
        match nodes.last().field("playlistVideoRenderer"@) {
            Some(x) => if x is Object {
                prev.push(x)
            } else {
                prev
            },
            None => prev,
        }
    }
}

/// Classifies one node.
pub fn classify_node(node: &Json) -> (r: Option<YTSearchItem>)
    ensures
        match r {
            Some(it) => classify(node@) == Some(it.model()),
            None => classify(node@) is None,
        },
{
    let video = match node.get("videoRenderer") {
        Some(x) => Some(x),
        None => node.get("compactVideoRenderer"),
    };
    match video {
        Some(x) => if x.is_object() {
            Some(YTSearchItem::StreamInfoItem(YTStreamInfoItemExtractor { video_info: x.duplicate() }))
        } else {
            None
        },
        None => match node.get("channelRenderer") {
            Some(x) => if x.is_object() {
                Some(YTSearchItem::ChannelInfoItem(YTChannelInfoItemExtractor { channel_info: x.duplicate() }))
            } else {
                None
            },
            None => match node.get("playlistRenderer") {
                Some(x) => if x.is_object() {
                    Some(YTSearchItem::PlaylistInfoItem(YTPlaylistInfoItemExtractor { playlist_info: x.duplicate() }))
                } else {
                    None
                },
                None => None,
            },
        },
    }
}

/// Classifies a list of result nodes; unknown nodes are skipped, and a list
/// holding the empty-result marker gives no results.
pub fn classify_items(videos: &Vec<Json>) -> (r: Result<Vec<YTSearchItem>, ParsingError>)
    ensures
        r is Ok,
        item_models(r->Ok_0@) == classify_all(views_of(videos@)),
{
    let ghost nodes = views_of(videos@);
    let mut out: Vec<YTSearchItem> = Vec::new();
    let mut i: usize = 0;
    proof {
        assert(nodes.subrange(0, 0) =~= Seq::<JsonV>::empty());
        assert(item_models(out@) =~= Seq::empty());
    }
    while i < videos.len()
        invariant
            nodes == views_of(videos@),
            i <= videos@.len(),
            classified(nodes.subrange(0, i as int)) == item_models(out@),
            forall|j: int| 0 <= j < i ==> !is_empty_marker(#[trigger] nodes[j]),
        decreases videos.len() - i,
    {
        let node = &videos[i];
        let ghost pre = nodes.subrange(0, i as int + 1);
        proof {
            assert(pre.drop_last() =~= nodes.subrange(0, i as int));
            assert(pre.last() == node@);
        }
        if node.get("backgroundPromoRenderer").is_some() {
            let empty: Vec<YTSearchItem> = Vec::new();
            proof {
                assert(is_empty_marker(nodes[i as int]));
                assert(has_marker(nodes));
                assert(item_models(empty@) =~= Seq::empty());
            }
            return Ok(empty);
        }
        let ghost before = item_models(out@);
        match classify_node(node) {
            Some(it) => {
                out.push(it);
                proof {
                    assert(item_models(out@) =~= before.push(classify(node@)->0));
                }
            },
            None => {},
        }
        i += 1;
    }
    proof {
        assert(nodes.subrange(0, i as int) =~= nodes);
        assert(!has_marker(nodes));
    }
    Ok(out)
}

/// The video entries of a playlist's node list; fails when it is not a list.
pub fn collect_playlist_videos(videos: &Json) -> (r: Result<Vec<YTStreamInfoItemExtractor>, ParsingError>)
    ensures
        match r {
            Ok(items) => match videos@ {
                JsonV::Array(nodes) => video_models(items@) == playlist_videos(nodes),
                _ => false,
            },
            Err(e) => !(videos@ is Array) && e.is_parsing(),
        },
{
    let list = match videos.as_array() {
        Some(a) => a,
        None => return Err(ParsingError::parsing_error_from_str("Videos not array")),
    };
    proof {
        crate::stream::lemma_array_view(*videos, *list);
    }
    let ghost nodes = views_of(list@);
    let mut out: Vec<YTStreamInfoItemExtractor> = Vec::new();
    let mut i: usize = 0;
    proof {
        assert(nodes.subrange(0, 0) =~= Seq::<JsonV>::empty());
        assert(video_models(out@) =~= Seq::empty());
    }
    while i < list.len()
        invariant
            nodes == views_of(list@),
            i <= list@.len(),
            video_models(out@) == playlist_videos(nodes.subrange(0, i as int)),
        decreases list.len() - i,
    {
        let node = &list[i];
        let ghost pre = nodes.subrange(0, i as int + 1);
        let ghost before = video_models(out@);
        proof {
            assert(pre.drop_last() =~= nodes.subrange(0, i as int));
            assert(pre.last() == node@);
        }
        match node.get("playlistVideoRenderer") {
            Some(v) => if v.is_object() {
                out.push(YTStreamInfoItemExtractor { video_info: v.duplicate() });
                proof {
                    assert(video_models(out@) =~= before.push(v@));
                }
            },
            None => {},
        }
        i += 1;
    }
    proof {
        assert(nodes.subrange(0, i as int) =~= nodes);
    }
    Ok(out)
}

} // verus!
