//! The request and response records of the service, their form/query
//! serializations, and the decoders of the two response bodies.

use vstd::prelude::*;

verus! {

use vstd::string::StrSliceExecFns;
use vstd::utf8::valid_utf8;
use vstd::utf8::encode_utf8;
use vstd::utf8::decode_utf8;
use crate::encoding::spec_encode_pairs;
use crate::encoding::pairs_view;
use crate::encoding::form_urlencode;
use crate::json::SpecJson;
use crate::json::JsonValue;
use crate::json::parse_flat_object;
use crate::json::parse_string_document;
use crate::json::spec_lookup;
use crate::json::parse_flat_object_bytes;
use crate::json::parse_string_document_bytes;
use crate::json::lookup_field;
use crate::json::bytes_into_string;

broadcast use vstd::utf8::encode_utf8_decode_utf8;

/// The outbound form body of the password-grant token request.
#[derive(Debug)]
pub struct AccessTokenRequest {
    pub grant_type: String,
    pub username: String,
    pub password: String,
}

/// The decoded JSON body of a successful token response.
#[derive(Debug)]
pub struct AccessTokenResponse {
    pub access_token: String,
    pub expires_in: i32,
    pub scope: String,
    pub token_type: String,
}

/// The mathematical model of a decoded token response.
pub struct SpecAccessTokenResponse {
    pub access_token: Seq<char>,
    pub expires_in: int,
    pub scope: Seq<char>,
    pub token_type: Seq<char>,
}

impl View for AccessTokenResponse {
    type V = SpecAccessTokenResponse;

    open spec fn view(&self) -> SpecAccessTokenResponse {
        SpecAccessTokenResponse {
            access_token: self.access_token@,
            expires_in: self.expires_in as int,
            scope: self.scope@,
            token_type: self.token_type@,
        }
    }
}

/// The outbound query parameters of the subreddit-name search.
#[derive(Debug)]
pub struct SearchSubredditNameRequest {
    pub exact: bool,
    pub include_over_18: bool,
    pub include_unadvertisable: bool,
    pub query: String,
    pub search_query_id: String,
    pub typeahead_active: bool,
}

/// The form serialization of a boolean.
pub open spec fn spec_bool_bytes(b: bool) -> Seq<u8> {
    if b {
        encode_utf8("true"@)
    } else {
        encode_utf8("false"@)
    }
}

fn bool_bytes(b: bool) -> (r: Vec<u8>)
    ensures
        r@ == spec_bool_bytes(b),
{
    if b {
        "true".as_bytes_vec()
    } else {
        "false".as_bytes_vec()
    }
}

impl AccessTokenRequest {
    /// The key/value pairs this record serializes to, in field order.
    pub open spec fn spec_form_pairs(&self) -> Seq<(Seq<u8>, Seq<u8>)> {
        seq![
            (encode_utf8("grant_type"@), encode_utf8(self.grant_type@)),
            (encode_utf8("username"@), encode_utf8(self.username@)),
            (encode_utf8("password"@), encode_utf8(self.password@)),
        ]
    }

    /// The `application/x-www-form-urlencoded` body this record serializes to.
    pub fn form_body(&self) -> (r: Vec<u8>)
        ensures
            r@ == spec_encode_pairs(self.spec_form_pairs()),
    {
        let mut pairs: Vec<(Vec<u8>, Vec<u8>)> = Vec::new();
        pairs.push(("grant_type".as_bytes_vec(), self.grant_type.as_str().as_bytes_vec()));
        pairs.push(("username".as_bytes_vec(), self.username.as_str().as_bytes_vec()));
        pairs.push(("password".as_bytes_vec(), self.password.as_str().as_bytes_vec()));
        let r = form_urlencode(&pairs);
        proof {
            assert(pairs_view(pairs@) =~= self.spec_form_pairs());
        }
        r
    }
}

impl SearchSubredditNameRequest {
    /// The key/value pairs this record serializes to, in field order.
    pub open spec fn spec_query_pairs(&self) -> Seq<(Seq<u8>, Seq<u8>)> {
        seq![
            (encode_utf8("exact"@), spec_bool_bytes(self.exact)),
            (encode_utf8("include_over_18"@), spec_bool_bytes(self.include_over_18)),
            (
                encode_utf8("include_unadvertisable"@),
                spec_bool_bytes(self.include_unadvertisable),
            ),
            (encode_utf8("query"@), encode_utf8(self.query@)),
            (encode_utf8("search_query_id"@), encode_utf8(self.search_query_id@)),
            (encode_utf8("typeahead_active"@), spec_bool_bytes(self.typeahead_active)),
        ]
    }

    /// The URL query string this record serializes to, without the leading
    /// question mark.
    pub fn query_string(&self) -> (r: Vec<u8>)
        ensures
            r@ == spec_encode_pairs(self.spec_query_pairs()),
    {
        let mut pairs: Vec<(Vec<u8>, Vec<u8>)> = Vec::new();
        pairs.push(("exact".as_bytes_vec(), bool_bytes(self.exact)));
        pairs.push(("include_over_18".as_bytes_vec(), bool_bytes(self.include_over_18)));
        pairs.push((
            "include_unadvertisable".as_bytes_vec(),
            bool_bytes(self.include_unadvertisable),
        ));
        pairs.push(("query".as_bytes_vec(), self.query.as_str().as_bytes_vec()));
        pairs.push(("search_query_id".as_bytes_vec(), self.search_query_id.as_str().as_bytes_vec()));
        pairs.push(("typeahead_active".as_bytes_vec(), bool_bytes(self.typeahead_active)));
        let r = form_urlencode(&pairs);
        proof {
            assert(pairs_view(pairs@) =~= self.spec_query_pairs());
        }
        r
    }
}

/// The decoded token response a body stands for: the body must be one flat
/// JSON object holding string members `access_token`, `scope` and
/// `token_type` and an integer member `expires_in` that fits a signed 32-bit
/// value, the strings valid UTF-8.
pub open spec fn spec_token_response(s: Seq<u8>) -> Option<SpecAccessTokenResponse> {
    match parse_flat_object(s) {
        None => None,
        Some(fields) => {
            let at = spec_lookup(fields, encode_utf8("access_token"@));
            let ei = spec_lookup(fields, encode_utf8("expires_in"@));
            let sc = spec_lookup(fields, encode_utf8("scope"@));
            let tt = spec_lookup(fields, encode_utf8("token_type"@));
            match (at, ei, sc, tt) {
                (
                    Some(SpecJson::Str(a)),
                    Some(SpecJson::Int(n)),
                    Some(SpecJson::Str(c)),
                    Some(SpecJson::Str(t)),
                ) => {
                    if valid_utf8(a) && valid_utf8(c) && valid_utf8(t) && -0x80000000 <= n
                        && n < 0x80000000 {
                        Some(
                            SpecAccessTokenResponse {
                                access_token: decode_utf8(a),
                                expires_in: n,
                                scope: decode_utf8(c),
                                token_type: decode_utf8(t),
                            },
                        )
                    } else {
                        None
                    }
                },
                _ => None,
            }
        },
    }
}

/// Decodes a token-endpoint response body.
pub fn parse_access_token_response(body: &[u8]) -> (r: Option<AccessTokenResponse>)
    ensures
        match r {
            Some(t) => spec_token_response(body@) == Some(t@),
            None => spec_token_response(body@) is None,
        },
{
    let fields = match parse_flat_object_bytes(body) {
        None => {
            return None;
        },
        Some(f) => f,
    };
    let a_bytes: Vec<u8> = match lookup_field(&fields, "access_token".as_bytes()) {
        Some(JsonValue::Str(v)) => vstd::slice::slice_to_vec(v.as_slice()),
        _ => {
            return None;
        },
    };
    let n: i64 = match lookup_field(&fields, "expires_in".as_bytes()) {
        Some(JsonValue::Int(v)) => *v,
        _ => {
            return None;
        },
    };
    let c_bytes: Vec<u8> = match lookup_field(&fields, "scope".as_bytes()) {
        Some(JsonValue::Str(v)) => vstd::slice::slice_to_vec(v.as_slice()),
        _ => {
            return None;
        },
    };
    let t_bytes: Vec<u8> = match lookup_field(&fields, "token_type".as_bytes()) {
        Some(JsonValue::Str(v)) => vstd::slice::slice_to_vec(v.as_slice()),
        _ => {
            return None;
        },
    };
    if n < -0x80000000 || n >= 0x80000000 {
        return None;
    }
    let access_token = match bytes_into_string(a_bytes) {
        None => {
            return None;
        },
        Some(s) => s,
    };
    let scope = match bytes_into_string(c_bytes) {
        None => {
            return None;
        },
        Some(s) => s,
    };
    let token_type = match bytes_into_string(t_bytes) {
        None => {
            return None;
        },
        Some(s) => s,
    };
    Some(
        AccessTokenResponse {
            access_token,
            expires_in: n as i32,
            scope,
            token_type,
        },
    )
}

/// The decoded search response a body stands for: one bare JSON string whose
/// decoded bytes are valid UTF-8.
pub open spec fn spec_search_response(s: Seq<u8>) -> Option<Seq<char>> {
    match parse_string_document(s) {
        Some(v) => {
            if valid_utf8(v) {
                Some(decode_utf8(v))
            } else {
                None
            }
        },
        None => None,
    }
}

/// Decodes a search-endpoint response body.
pub fn parse_search_response(body: &[u8]) -> (r: Option<String>)
    ensures
        match r {
            Some(t) => spec_search_response(body@) == Some(t@),
            None => spec_search_response(body@) is None,
        },
{
    match parse_string_document_bytes(body) {
        None => None,
        Some(v) => bytes_into_string(v),
    }
}

} // verus!
