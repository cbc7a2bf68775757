//! The envelope that the JSON-only endpoints answer with: an array whose
//! elements at fixed places hold the objects of interest.
use crate::cipher::pair_views;
use crate::error::ParsingError;
use crate::json::{Json, JsonV};
use crate::json_text::{parse_json, parsed_json};
use crate::stream_extractor::HARDCODED_CLIENT_VERSION;
use vstd::prelude::*;

verus! {

/// The content node of a watch envelope and whether it was found in the place
/// that marks an age-gated video: the `response` of the object at index 2, or,
/// where that object has none, the `response` of the object at index 3.
pub open spec fn watch_content(env: JsonV) -> Option<(JsonV, bool)> {
    match env.item(2) {
        Some(e2) => if e2 is Object {
            match e2.field("response"@) {
                Some(r) => Some((r, true)),
                None => match env.item(3) {
                    Some(e3) => if e3 is Object {
                        match e3.field("response"@) {
                            Some(r) => Some((r, false)),
                            None => None,
                        }
                    } else {
                        None
                    },
                    None => None,
                },
            }
        } else {
            None
        },
        None => None,
    }
}

/// The player response inlined in a watch envelope: the `playerResponse` of
/// the element at index 2, when it carries a non-empty `streamingData`.
pub open spec fn inline_player_response(env: JsonV) -> Option<JsonV> {
    match JsonV::field_of(env.item(2), "playerResponse"@) {
        Some(p) => if p.field("streamingData"@) matches Some(d) && d.nonempty() {
            Some(p)
        } else {
            None
        },
        None => None,
    }
}

/// The `response` of the element at `index` of a page envelope.
pub open spec fn page_response(env: JsonV, index: int) -> Option<JsonV> {
    JsonV::field_of(env.item(index), "response"@)
}

/// The headers that identify the site's own web client, sent with every
/// request for an envelope.
pub open spec fn client_headers_of() -> Seq<(Seq<char>, Seq<char>)> {
    seq![
        ("X-YouTube-Client-Name"@, "1"@),
        ("X-YouTube-Client-Version"@, HARDCODED_CLIENT_VERSION@),
    ]
}

pub fn client_headers() -> (r: Vec<(String, String)>)
    ensures
        pair_views(r@) == client_headers_of(),
{
    let mut v: Vec<(String, String)> = Vec::new();
    v.push((String::from_str("X-YouTube-Client-Name"), String::from_str("1")));
    v.push((String::from_str("X-YouTube-Client-Version"), String::from_str(HARDCODED_CLIENT_VERSION)));
    proof {
        assert(pair_views(v@) =~= client_headers_of());
    }
    v
}

/// Reads an envelope from the body of a response.
pub fn decode_envelope(body: &str) -> (r: Result<Json, ParsingError>)
    ensures
        match r {
            Ok(j) => parsed_json(body@) == Some(j@),
            Err(e) => parsed_json(body@) is None && e.is_parsing(),
        },
{
    match parse_json(body) {
        Some(j) => Ok(j),
        None => Err(ParsingError::parsing_error_from_str("envelope is not JSON")),
    }
}

/// Finds the content node of a watch envelope; the flag is set when it stood
/// at index 2, which marks an age-gated video.
pub fn initial_data(env: &Json) -> (r: Result<(Json, bool), ParsingError>)
    ensures
        match r {
            Ok((j, restricted)) => watch_content(env@) == Some((j@, restricted)),
            Err(e) => watch_content(env@) is None && e.is_parsing(),
        },
{
    if env.as_array().is_none() {
        return Err(ParsingError::parsing_error_from_str("initial ajax json not array"));
    }
    let e2 = match env.at(2) {
        Some(x) => x,
        None => return Err(ParsingError::parsing_error_from_str("initial ajax 2 not found")),
    };
    if !e2.is_object() {
        return Err(ParsingError::parsing_error_from_str("initial ajax doesnt have index 2"));
    }
    match e2.get("response") {
        Some(resp) => Ok((resp.duplicate(), true)),
        None => {
            let e3 = match env.at(3) {
                Some(x) => x,
                None => return Err(ParsingError::parsing_error_from_str("initial ajax 3 not found")),
            };
            if !e3.is_object() {
                return Err(ParsingError::parsing_error_from_str("initial ajax doesnt have index 3"));
            }
            match e3.get("response") {
                Some(resp) => Ok((resp.duplicate(), false)),
                None => Err(ParsingError::parsing_error_from_str("Cannot get initial data")),
            }
        },
    }
}

/// The player response inlined in a watch envelope, if there is one.
pub fn player_response_from_initial_ajax(env: &Json) -> (r: Option<Json>)
    ensures
        match r {
            Some(p) => inline_player_response(env@) == Some(p@),
            None => inline_player_response(env@) is None,
        },
{
    let resp = match env.at(2) {
        Some(e2) => match e2.get("playerResponse") {
            Some(p) => p,
            None => return None,
        },
        None => return None,
    };
    match resp.get("streamingData") {
        Some(d) => if d.is_nonempty() {
            Some(resp.duplicate())
        } else {
            None
        },
        None => None,
    }
}

/// The `response` object of a page envelope, read from its element at
/// `index`.
pub fn response_at(env: &Json, index: usize) -> (r: Result<Json, ParsingError>)
    ensures
        match r {
            Ok(j) => page_response(env@, index as int) == Some(j@),
            Err(e) => page_response(env@, index as int) is None && e.is_parsing(),
        },
{
    match env.at(index) {
        Some(e) => match e.get("response") {
            Some(resp) => Ok(resp.duplicate()),
            None => Err(ParsingError::parsing_error_from_str("response not found")),
        },
        None => Err(ParsingError::parsing_error_from_str("envelope index not found")),
    }
}

/// Whether the element at `index` of an envelope is an object that carries a
/// `response`.
pub open spec fn carries_response(env: JsonV, index: int) -> bool {
    env.item(index) matches Some(e) && e is Object && e.field("response"@) is Some
}

/// Both shapes of a watch envelope give their exact content node: the
/// `response` of the object at index 2, flagged; where that object has none,
/// the `response` of the object at index 3, unflagged. An envelope with
/// neither shape gives nothing, which the decoder reports as a structural
/// failure.
pub proof fn lemma_envelope_shapes(env: JsonV)
    ensures
        carries_response(env, 2) ==> watch_content(env) == Some(
            (env.item(2)->0.field("response"@)->0, true),
        ),
        env.item(2) matches Some(e2) && e2 is Object && !carries_response(env, 2)
            && carries_response(env, 3) ==> watch_content(env) == Some(
            (env.item(3)->0.field("response"@)->0, false),
        ),
        !carries_response(env, 2) && !carries_response(env, 3) ==> watch_content(env) is None,
{
}

} // verus!
