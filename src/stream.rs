//! Stream format descriptors: their typed reading, the URL each resolves to,
//! and their bucketing by media type.
use crate::cipher::{cipher_pairs, cipher_stream_url, ciphered_url, compat_parse_map, param, param_value};
use crate::error::ParsingError;
use crate::fields::{
    opt_text, opt_u32, optional_text, optional_u32, req_text, req_u32, req_u64, required_text,
    required_u32, required_u64, text_view,
};
use crate::json::{Json, JsonV};
use crate::signature::{build_decryption_script, decryption_script, signature_from_eval, JsEvaluator};
use vstd::prelude::*;

verus! {

/// One playable stream format.
#[derive(Debug)]
pub struct StreamItem {
    pub url: Option<String>,
    pub itag: u32,
    pub approx_duration_ms: Option<String>,
    pub audio_channels: Option<u32>,
    pub audio_quality: Option<String>,
    pub audio_sample_rate: Option<String>,
    pub average_bitrate: Option<u32>,
    pub bitrate: u32,
    pub content_length: Option<String>,
    pub height: Option<u32>,
    pub width: Option<u32>,
    pub quality: String,
    pub quality_label: Option<String>,
    pub last_modified: String,
    pub mime_type: String,
}

/// The mathematical value of a [`StreamItem`].
pub struct StreamItemV {
    pub url: Option<Seq<char>>,
    pub itag: u32,
    pub approx_duration_ms: Option<Seq<char>>,
    pub audio_channels: Option<u32>,
    pub audio_quality: Option<Seq<char>>,
    pub audio_sample_rate: Option<Seq<char>>,
    pub average_bitrate: Option<u32>,
    pub bitrate: u32,
    pub content_length: Option<Seq<char>>,
    pub height: Option<u32>,
    pub width: Option<u32>,
    pub quality: Seq<char>,
    pub quality_label: Option<Seq<char>>,
    pub last_modified: Seq<char>,
    pub mime_type: Seq<char>,
}

impl View for StreamItem {
    type V = StreamItemV;

    open spec fn view(&self) -> StreamItemV {
        StreamItemV {
            url: text_view(self.url),
            itag: self.itag,
            approx_duration_ms: text_view(self.approx_duration_ms),
            audio_channels: self.audio_channels,
            audio_quality: text_view(self.audio_quality),
            audio_sample_rate: text_view(self.audio_sample_rate),
            average_bitrate: self.average_bitrate,
            bitrate: self.bitrate,
            content_length: text_view(self.content_length),
            height: self.height,
            width: self.width,
            quality: self.quality@,
            quality_label: text_view(self.quality_label),
            last_modified: self.last_modified@,
            mime_type: self.mime_type@,
        }
    }
}

/// A thumbnail image.
#[derive(Debug)]
pub struct Thumbnail {
    pub url: String,
    pub width: u64,
    pub height: u64,
}

/// Which streams a caller wants out of a format list.
#[derive(Debug)]
pub enum ItagType {
    /// Every entry.
    Video,
    /// Entries without an audio track.
    VideoOnly,
    /// Entries without a picture.
    Audio,
}

/// The typed record read from a format descriptor; nothing where a member
/// is missing or has the wrong type.
pub open spec fn stream_item_of(o: JsonV) -> Option<StreamItemV> {
    let url = opt_text(o, "url"@);
    let itag = req_u32(o, "itag"@);
    let approx = opt_text(o, "approxDurationMs"@);
    let channels = opt_u32(o, "audioChannels"@);
    let aq = opt_text(o, "audioQuality"@);
    let rate = opt_text(o, "audioSampleRate"@);
    let avg = opt_u32(o, "averageBitrate"@);
    let bitrate = req_u32(o, "bitrate"@);
    let clen = opt_text(o, "contentLength"@);
    let height = opt_u32(o, "height"@);
    let width = opt_u32(o, "width"@);
    let quality = req_text(o, "quality"@);
    let qlabel = opt_text(o, "qualityLabel"@);
    let modified = req_text(o, "lastModified"@);
    let mime = req_text(o, "mimeType"@);
    if o is Object && url is Some && itag is Some && approx is Some && channels is Some && aq is Some
        && rate is Some && avg is Some && bitrate is Some && clen is Some && height is Some
        && width is Some && quality is Some && qlabel is Some && modified is Some && mime is Some {
        Some(
            StreamItemV {
                url: url->0,
                itag: itag->0,
                approx_duration_ms: approx->0,
                audio_channels: channels->0,
                audio_quality: aq->0,
                audio_sample_rate: rate->0,
                average_bitrate: avg->0,
                bitrate: bitrate->0,
                content_length: clen->0,
                height: height->0,
                width: width->0,
                quality: quality->0,
                quality_label: qlabel->0,
                last_modified: modified->0,
                mime_type: mime->0,
            },
        )
    } else {
        None
    }
}

/// The thumbnail read from an object; nothing where a member is missing or
/// has the wrong type.
pub open spec fn thumbnail_of(o: JsonV) -> Option<(Seq<char>, u64, u64)> {
    let url = req_text(o, "url"@);
    let w = req_u64(o, "width"@);
    let h = req_u64(o, "height"@);
    if o is Object && url is Some && w is Some && h is Some {
        Some((url->0, w->0, h->0))
    } else {
        None
    }
}

impl Thumbnail {
    pub open spec fn model(&self) -> (Seq<char>, u64, u64) {
        (self.url@, self.width, self.height)
    }

    /// Reads a thumbnail from an object.
    pub fn from_json(o: &Json) -> (r: Option<Thumbnail>)
        ensures
            match r {
                Some(t) => thumbnail_of(o@) == Some(t.model()),
                None => thumbnail_of(o@) is None,
            },
    {
        if !o.is_object() {
            return None;
        }
        let url = match required_text(o, "url") {
            Some(u) => u,
            None => return None,
        };
        let width = match required_u64(o, "width") {
            Some(w) => w,
            None => return None,
        };
        let height = match required_u64(o, "height") {
            Some(h) => h,
            None => return None,
        };
        Some(Thumbnail { url, width, height })
    }
}

impl StreamItem {
    /// Reads a stream format descriptor.
    pub fn from_json(o: &Json) -> (r: Option<StreamItem>)
        ensures
            match r {
                Some(it) => stream_item_of(o@) == Some(it@),
                None => stream_item_of(o@) is None,
            },
    {
        if !o.is_object() {
            return None;
        }
        let url = match optional_text(o, "url") {
            Some(v) => v,
            None => return None,
        };
        let itag = match required_u32(o, "itag") {
            Some(v) => v,
            None => return None,
        };
        let approx_duration_ms = match optional_text(o, "approxDurationMs") {
            Some(v) => v,
            None => return None,
        };
        let audio_channels = match optional_u32(o, "audioChannels") {
            Some(v) => v,
            None => return None,
        };
        let audio_quality = match optional_text(o, "audioQuality") {
            Some(v) => v,
            None => return None,
        };
        let audio_sample_rate = match optional_text(o, "audioSampleRate") {
            Some(v) => v,
            None => return None,
        };
        let average_bitrate = match optional_u32(o, "averageBitrate") {
            Some(v) => v,
            None => return None,
        };
        let bitrate = match required_u32(o, "bitrate") {
            Some(v) => v,
            None => return None,
        };
        let content_length = match optional_text(o, "contentLength") {
            Some(v) => v,
            None => return None,
        };
        let height = match optional_u32(o, "height") {
            Some(v) => v,
            None => return None,
        };
        let width = match optional_u32(o, "width") {
            Some(v) => v,
            None => return None,
        };
        let quality = match required_text(o, "quality") {
            Some(v) => v,
            None => return None,
        };
        let quality_label = match optional_text(o, "qualityLabel") {
            Some(v) => v,
            None => return None,
        };
        let last_modified = match required_text(o, "lastModified") {
            Some(v) => v,
            None => return None,
        };
        let mime_type = match required_text(o, "mimeType") {
            Some(v) => v,
            None => return None,
        };
        Some(
            StreamItem {
                url,
                itag,
                approx_duration_ms,
                audio_channels,
                audio_quality,
                audio_sample_rate,
                average_bitrate,
                bitrate,
                content_length,
                height,
                width,
                quality,
                quality_label,
                last_modified,
                mime_type,
            },
        )
    }

    /// The same record with its URL set.
    pub fn with_url(self, url: String) -> (r: StreamItem)
        ensures
            r@ == (StreamItemV { url: Some(url@), ..self@ }),
    {
        StreamItem { url: Some(url), ..self }
    }
}

/// The cipher blob of a descriptor: its `cipher` member, or where that is
/// absent its `signatureCipher` member, when the one chosen is text; else empty.
pub open spec fn cipher_text(f: JsonV) -> Seq<char> {
    let c = match f.field("cipher"@) {
        Some(v) => Some(v),
        None => f.field("signatureCipher"@),
    };
    match c {
        Some(JsonV::Str(t)) => t,
        _ => Seq::empty(),
    }
}

/// The plain URL of a descriptor, when its `url` member is text.
pub open spec fn plain_url(f: JsonV) -> Option<Seq<char>> {
    JsonV::text_of(f.field("url"@))
}

/// The URL a descriptor resolves to, given the decoded signature: its plain
/// URL, or else the URL built from its cipher blob.
pub open spec fn stream_url(f: JsonV, signature: Seq<char>) -> Seq<char> {
    match plain_url(f) {
        Some(u) => u,
        None => ciphered_url(cipher_pairs(cipher_text(f)), signature),
    }
}

/// Whether an entry belongs to the wanted bucket: one with an audio quality
/// is not video-only, one with a height is not audio-only.
pub open spec fn admits(wanted: ItagType, it: StreamItemV) -> bool {
    match wanted {
        ItagType::Video => true,
        ItagType::VideoOnly => it.audio_quality is None,
        ItagType::Audio => it.height is None,
    }
}

/// The first index at or after `i` whose URL is `k`, or the length.
pub open spec fn find_url(e: Seq<(Seq<char>, StreamItemV)>, k: Seq<char>, i: int) -> int
    decreases e.len() - i,
{
    if i < 0 || i >= e.len() {
        e.len() as int
    } else if e[i].0 == k {
        i
    } else {
        find_url(e, k, i + 1)
    }
}

/// Inserts an entry keyed by URL; an entry with the same URL is replaced in
/// place.
pub open spec fn upsert(e: Seq<(Seq<char>, StreamItemV)>, k: Seq<char>, v: StreamItemV) -> Seq<(Seq<char>, StreamItemV)> {
    let j = find_url(e, k, 0);
    if j < e.len() {
        e.update(j, (k, v))
    } else {
        e.push((k, v))
    }
}

/// The bucket built from descriptors and their decoded signatures, in order:
/// each descriptor that reads as a record and is admitted is keyed by its URL.
pub open spec fn bucket(fs: Seq<JsonV>, sigs: Seq<Seq<char>>, wanted: ItagType) -> Seq<(Seq<char>, StreamItemV)>
    decreases fs.len(),
{
    if fs.len() == 0 {
        Seq::empty()
    } else {
        let prev = bucket(fs.drop_last(), sigs, wanted);
        let f = fs.last();
        match stream_item_of(f) {
            Some(it) => if admits(wanted, it) {
                upsert(prev, stream_url(f, sigs[fs.len() - 1]), it)
            } else {
                prev
            },
            None => prev,
        }
    }
}

/// The views of a sequence of trees.
pub open spec fn views_of(v: Seq<Json>) -> Seq<JsonV> {
    Seq::new(v.len(), |i: int| v[i]@)
}

/// The views of a sequence of strings.
pub open spec fn texts_of(v: Seq<String>) -> Seq<Seq<char>> {
    Seq::new(v.len(), |i: int| v[i]@)
}

/// The views of keyed entries.
pub open spec fn entry_views(v: Seq<(String, StreamItem)>) -> Seq<(Seq<char>, StreamItemV)> {
    Seq::new(v.len(), |i: int| (v[i].0@, v[i].1@))
}

pub proof fn lemma_array_view(j: Json, items: Vec<Json>)
    requires
        j == Json::Array(items),
    ensures
        j@ == JsonV::Array(views_of(items@)),
{
    assert(j@->Array_0 =~= views_of(items@));
}

/// The URL a descriptor resolves to, given its decoded signature.
pub fn stream_url_with(f: &Json, signature: &str) -> (r: String)
    ensures
        r@ == stream_url(f@, signature@),
{
    match f.get("url") {
        Some(u) => match u.as_str() {
            Some(t) => return t.clone(),
            None => {},
        },
        None => {},
    }
    let blob = cipher_blob(f);
    let pairs = compat_parse_map(blob.as_str());
    cipher_stream_url(&pairs, signature)
}

/// The cipher blob of a descriptor.
pub fn cipher_blob(f: &Json) -> (r: String)
    ensures
        r@ == cipher_text(f@),
{
    let c = match f.get("cipher") {
        Some(v) => Some(v),
        None => f.get("signatureCipher"),
    };
    match c {
        Some(v) => match v.as_str() {
            Some(t) => t.clone(),
            None => String::new(),
        },
        None => String::new(),
    }
}

/// Keys `item` by `url` in `entries`, replacing an entry with the same URL.
fn upsert_entry(entries: &mut Vec<(String, StreamItem)>, url: String, item: StreamItem)
    ensures
        entry_views(final(entries)@) == upsert(entry_views(old(entries)@), url@, item@),
{
    let ghost e = entry_views(entries@);
    let mut i: usize = 0;
    while i < entries.len()
        invariant
            e == entry_views(entries@),
            e == entry_views(old(entries)@),
            i <= entries@.len(),
            find_url(e, url@, 0) == find_url(e, url@, i as int),
        decreases entries.len() - i,
    {
        if entries[i].0 == url {
            let ghost u = url@;
            let ghost v = item@;
            proof {
                assert(e[i as int].0 == u);
                assert(find_url(e, u, i as int) == i);
            }
            entries.set(i, (url, item));
            proof {
                assert(entry_views(entries@) =~= e.update(i as int, (u, v)));
            }
            return;
        }
        i += 1;
    }
    let ghost u = url@;
    let ghost v = item@;
    entries.push((url, item));
    proof {
        assert(entry_views(entries@) =~= e.push((u, v)));
    }
}

/// Buckets descriptors by media type, each keyed by the URL it resolves to
/// with the signature given for it; an entry with a URL seen before replaces
/// the earlier one.
pub fn classify_formats(formats: &Vec<Json>, signatures: &Vec<String>, wanted: &ItagType) -> (r: Vec<(String, StreamItem)>)
    requires
        signatures@.len() == formats@.len(),
    ensures
        entry_views(r@) == bucket(views_of(formats@), texts_of(signatures@), *wanted),
{
    let ghost fs = views_of(formats@);
    let ghost sigs = texts_of(signatures@);
    let mut out: Vec<(String, StreamItem)> = Vec::new();
    let mut i: usize = 0;
    proof {
        assert(fs.subrange(0, 0) =~= Seq::<JsonV>::empty());
        assert(entry_views(out@) =~= Seq::empty());
    }
    while i < formats.len()
        invariant
            fs == views_of(formats@),
            sigs == texts_of(signatures@),
            signatures@.len() == formats@.len(),
            i <= formats@.len(),
            entry_views(out@) == bucket(fs.subrange(0, i as int), sigs, *wanted),
        decreases formats.len() - i,
    {
        let f = &formats[i];
        let ghost pre = fs.subrange(0, i as int + 1);
        proof {
            assert(pre.drop_last() =~= fs.subrange(0, i as int));
            assert(pre.last() == f@);
        }
        match StreamItem::from_json(f) {
            Some(item) => {
                let keep = match wanted {
                    ItagType::Video => true,
                    ItagType::VideoOnly => item.audio_quality.is_none(),
                    ItagType::Audio => item.height.is_none(),
                };
                if keep {
                    let url = stream_url_with(f, signatures[i].as_str());
                    upsert_entry(&mut out, url, item);
                }
            },
            None => {},
        }
        i += 1;
    }
    proof {
        assert(fs.subrange(0, i as int) =~= fs);
    }
    out
}

/// The script that decodes a descriptor's signature: the decoding program,
/// then a call of `decrypt` on the `s` value of the descriptor's cipher blob.
pub open spec fn descriptor_script(f: JsonV, program: Seq<char>) -> Seq<char> {
    decryption_script(program, param(cipher_pairs(cipher_text(f)), "s"@))
}

pub fn decryption_script_for(f: &Json, program: &str) -> (r: String)
    ensures
        r@ == descriptor_script(f@, program@),
{
    let blob = cipher_blob(f);
    let pairs = compat_parse_map(blob.as_str());
    let token = param_value(&pairs, "s");
    build_decryption_script(program, token.as_str())
}

/// The signatures for a list of descriptors: each object without a plain URL
/// has the evaluator run its decoding script, built by
/// [`decryption_script_for`]; the others get an empty signature.
pub fn decode_signatures<E: JsEvaluator>(evaluator: &E, formats: &Vec<Json>, program: &str) -> (r: Vec<String>)
    ensures
        r@.len() == formats@.len(),
        forall|i: int|
            0 <= i < r@.len() && (plain_url(formats@[i]@) is Some || !(formats@[i]@ is Object))
                ==> (#[trigger] r@[i])@ == Seq::<char>::empty(),
{
    let mut out: Vec<String> = Vec::new();
    let mut i: usize = 0;
    while i < formats.len()
        invariant
            i <= formats@.len(),
            out@.len() == i,
            forall|k: int|
                0 <= k < i && (plain_url(formats@[k]@) is Some || !(formats@[k]@ is Object))
                    ==> (#[trigger] out@[k])@ == Seq::<char>::empty(),
        decreases formats.len() - i,
    {
        let f = &formats[i];
        let plain = match f.get("url") {
            Some(u) => u.as_str().is_some(),
            None => false,
        };
        if f.is_object() && !plain {
            let script = decryption_script_for(f, program);
            out.push(signature_from_eval(evaluator.eval_js(script.as_str())));
        } else {
            out.push(String::new());
        }
        i += 1;
    }
    out
}

/// The `streamingData` member of a player response.
pub open spec fn streaming_data(pr: JsonV) -> Option<JsonV> {
    pr.field("streamingData"@)
}

/// The entries of one format list of a player response, bucketed by media
/// type and keyed by resolved URL. Fails when the response has no
/// `streamingData` object; a list that is absent gives no entries.
pub fn itags<E: JsEvaluator>(
    evaluator: &E,
    streaming_data_key: &str,
    itag_type_wanted: ItagType,
    player_response: &Json,
    decryption_code: &str,
) -> (r: Result<Vec<(String, StreamItem)>, ParsingError>)
    ensures
        match r {
            Err(e) => !(streaming_data(player_response@) matches Some(JsonV::Object(_)))
                && e.is_parsing(),
            Ok(entries) => streaming_data(player_response@) matches Some(JsonV::Object(_)) && match
                streaming_data(player_response@)->0.field(streaming_data_key@) {
                Some(JsonV::Array(fs)) => exists|sigs: Seq<Seq<char>>|
                    sigs.len() == fs.len() && entry_views(entries@) == bucket(
                        fs,
                        sigs,
                        itag_type_wanted,
                    ),
                _ => entries@.len() == 0,
            },
        },
{
    let sd = match player_response.get("streamingData") {
        Some(v) => v,
        None => return Err(ParsingError::parsing_error_from_str("Streaming data not found in player response")),
    };
    if !sd.is_object() {
        return Err(ParsingError::parsing_error_from_str("Streaming data not found in player response"));
    }
    let list = match sd.get(streaming_data_key) {
        Some(v) => v,
        None => return Ok(Vec::new()),
    };
    let formats = match list.as_array() {
        Some(a) => a,
        None => return Ok(Vec::new()),
    };
    proof {
        lemma_array_view(*list, *formats);
    }
    let signatures = decode_signatures(evaluator, formats, decryption_code);
    let r = classify_formats(formats, &signatures, &itag_type_wanted);
    proof {
        assert(texts_of(signatures@).len() == views_of(formats@).len());
    }
    Ok(r)
}

proof fn lemma_find_url_bounds(e: Seq<(Seq<char>, StreamItemV)>, k: Seq<char>, i: int)
    requires
        0 <= i <= e.len(),
    ensures
        i <= find_url(e, k, i) <= e.len(),
    decreases e.len() - i,
{
    if i < e.len() && e[i].0 != k {
        lemma_find_url_bounds(e, k, i + 1);
    }
}

/// Every entry of a bucket is admitted by the media type it was built for.
pub proof fn lemma_bucket_admits(fs: Seq<JsonV>, sigs: Seq<Seq<char>>, wanted: ItagType)
    ensures
        forall|i: int|
            0 <= i < bucket(fs, sigs, wanted).len() ==> admits(
                wanted,
                #[trigger] bucket(fs, sigs, wanted)[i].1,
            ),
    decreases fs.len(),
{
    if fs.len() > 0 {
        let prev = bucket(fs.drop_last(), sigs, wanted);
        lemma_bucket_admits(fs.drop_last(), sigs, wanted);
        lemma_find_url_bounds(prev, stream_url(fs.last(), sigs[fs.len() - 1]), 0);
    }
}

/// The audio-only bucket never holds an entry with a height, and the
/// video-only bucket never holds one with an audio quality, for any list of
/// descriptors and any signatures.
pub proof fn lemma_media_buckets_exclusive(fs: Seq<JsonV>, sigs: Seq<Seq<char>>)
    ensures
        forall|i: int|
            0 <= i < bucket(fs, sigs, ItagType::Audio).len() ==> (#[trigger] bucket(
                fs,
                sigs,
                ItagType::Audio,
            )[i]).1.height is None,
        forall|i: int|
            0 <= i < bucket(fs, sigs, ItagType::VideoOnly).len() ==> (#[trigger] bucket(
                fs,
                sigs,
                ItagType::VideoOnly,
            )[i]).1.audio_quality is None,
{
    lemma_bucket_admits(fs, sigs, ItagType::Audio);
    lemma_bucket_admits(fs, sigs, ItagType::VideoOnly);
}

} // verus!
