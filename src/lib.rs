//! Extraction of video metadata and playable stream locations from a
//! video-hosting site's internal JSON responses, with verified contracts.
pub mod channel_item;
pub mod cipher;
pub mod envelope;
pub mod error;
pub mod fields;
pub mod items;
pub mod json;
pub mod json_text;
pub mod playlist;
pub mod playlist_metadata;
pub mod search;
pub mod signature;
pub mod stream;
pub mod stream_extractor;
pub mod stream_metadata;
pub mod text;
pub mod utils;

pub use crate::error::ParsingError;
pub use crate::items::{
    YTChannelInfoItemExtractor, YTPlaylistInfoItemExtractor, YTSearchItem, YTStreamInfoItemExtractor,
};
pub use crate::json::Json;
pub use crate::playlist::YTPlaylistExtractor;
pub use crate::search::YTSearchExtractor;
pub use crate::signature::JsEvaluator;
pub use crate::stream::{ItagType, StreamItem, Thumbnail};
pub use crate::stream_extractor::{Resolution, YTStreamExtractor, HARDCODED_CLIENT_VERSION};
