//! The Reddit client: validated configuration, the plans of the two outbound
//! requests (URL, headers, encoded payload), the interpretation of their
//! outcomes, and the static tool metadata the hosting runtime is shown.
//!
//! The HTTP round trip itself happens outside the library; callers hand the
//! transport's result back in as an [`HttpResponse`] or a failure message.

use vstd::prelude::*;

verus! {

use vstd::string::StrSliceExecFns;
use vstd::string::StringExecFns;
use vstd::pervasive::unreached;
use vstd::utf8::valid_utf8;
use vstd::utf8::encode_utf8;
use vstd::utf8::partial_valid_utf8;
use vstd::utf8::is_ascii_chars;
use crate::encoding::spec_base64;
use crate::encoding::spec_dec_chars;
use crate::encoding::base64_encode;
use crate::encoding::lemma_base64_ascii;
use crate::http::HttpResponse;
use crate::http::RequestError;
use crate::models::AccessTokenRequest;
use crate::models::AccessTokenResponse;
use crate::models::SpecAccessTokenResponse;
use crate::models::SearchSubredditNameRequest;
use crate::models::spec_token_response;
use crate::models::spec_search_response;
use crate::models::parse_access_token_response;
use crate::models::parse_search_response;

broadcast use vstd::utf8::encode_utf8_valid_utf8;

/// A required configuration value that was missing (empty) at construction.
#[derive(Debug)]
pub enum ConfigError {
    MissingClientId,
    MissingClientSecret,
    MissingUsername,
    MissingPassword,
    MissingRedirectUrl,
}

/// The configured client: application credentials and account credentials,
/// all non-empty once constructed.
#[derive(Debug, Clone)]
pub struct RedditClient {
    pub client_id: String,
    pub client_secret: String,
    pub username: String,
    pub password: String,
    pub redirect_url: String,
}

/// The fixed token endpoint.
pub fn auth_url() -> (r: &'static str)
    ensures
        r@ == "https://www.reddit.com/api/v1/access_token"@,
{
    "https://www.reddit.com/api/v1/access_token"
}

/// The fixed subreddit-name search endpoint.
pub fn search_names_url() -> (r: &'static str)
    ensures
        r@ == "https://oauth.reddit.com/api/search_reddit_names"@,
{
    "https://oauth.reddit.com/api/search_reddit_names"
}

/// The sentinel the token fetch yields on every failure.
pub open spec fn spec_sentinel() -> Seq<char> {
    "Unable to fetch access_token from reddit"@
}

/// The token string an outcome of the token round trip stands for: the
/// `access_token` member on full success, the sentinel on every failure.
pub open spec fn spec_access_token_string(outcome: Result<HttpResponse, String>) -> Seq<char> {
    match outcome {
        Err(_) => spec_sentinel(),
        Ok(resp) => {
            if resp.status != 200 {
                spec_sentinel()
            } else {
                match spec_token_response(resp.body@) {
                    Some(m) => m.access_token,
                    None => spec_sentinel(),
                }
            }
        },
    }
}

/// The search result an outcome of the search round trip stands for: the
/// decoded body on full success, otherwise the message of the error.
pub open spec fn spec_search_result(outcome: Result<HttpResponse, String>) -> Result<
    Seq<char>,
    Seq<char>,
> {
    match outcome {
        Err(e) => Err("Request failed: "@ + e@),
        Ok(resp) => {
            if resp.status != 200 {
                Err("Request failed with status: "@ + spec_dec_chars(resp.status as int))
            } else {
                match spec_search_response(resp.body@) {
                    Some(t) => Ok(t),
                    None => Err("Failed to parse the response"@),
                }
            }
        },
    }
}

proof fn lemma_ascii_bytes_valid_utf8(b: Seq<u8>)
    requires
        forall|i: int| 0 <= i < b.len() ==> b[i] < 0x80,
    ensures
        valid_utf8(b),
{
    assert(b.subrange(0, 0) =~= Seq::<u8>::empty());
    assert(partial_valid_utf8(b, 0));
    vstd::utf8::partial_valid_utf8_extend_ascii_block(b, 0, b.len() as int);
    assert(b.subrange(0, b.len() as int) =~= b);
}

impl RedditClient {
    /// Every required setting is present.
    pub open spec fn wf(&self) -> bool {
        &&& self.client_id@.len() > 0
        &&& self.client_secret@.len() > 0
        &&& self.username@.len() > 0
        &&& self.password@.len() > 0
        &&& self.redirect_url@.len() > 0
    }

    /// Builds a client from the five required settings.  Construction fails
    /// on the first missing (empty) setting, in field order, before anything
    /// else happens.
    pub fn new(
        client_id: String,
        client_secret: String,
        username: String,
        password: String,
        redirect_url: String,
    ) -> (r: Result<RedditClient, ConfigError>)
        ensures
            r is Ok <==> (client_id@.len() > 0 && client_secret@.len() > 0 && username@.len() > 0
                && password@.len() > 0 && redirect_url@.len() > 0),
            client_id@.len() == 0 ==> r == Err::<RedditClient, ConfigError>(
                ConfigError::MissingClientId,
            ),
            client_id@.len() > 0 && client_secret@.len() == 0 ==> r == Err::<
                RedditClient,
                ConfigError,
            >(ConfigError::MissingClientSecret),
            client_id@.len() > 0 && client_secret@.len() > 0 && username@.len() == 0 ==> r == Err::<
                RedditClient,
                ConfigError,
            >(ConfigError::MissingUsername),
            client_id@.len() > 0 && client_secret@.len() > 0 && username@.len() > 0
                && password@.len() == 0 ==> r == Err::<RedditClient, ConfigError>(
                ConfigError::MissingPassword,
            ),
            client_id@.len() > 0 && client_secret@.len() > 0 && username@.len() > 0
                && password@.len() > 0 && redirect_url@.len() == 0 ==> r == Err::<
                RedditClient,
                ConfigError,
            >(ConfigError::MissingRedirectUrl),
            r matches Ok(c) ==> c.client_id == client_id && c.client_secret == client_secret
                && c.username == username && c.password == password && c.redirect_url
                == redirect_url && c.wf(),
    {
        if client_id.as_str().is_empty() {
            Err(ConfigError::MissingClientId)
        } else if client_secret.as_str().is_empty() {
            Err(ConfigError::MissingClientSecret)
        } else if username.as_str().is_empty() {
            Err(ConfigError::MissingUsername)
        } else if password.as_str().is_empty() {
            Err(ConfigError::MissingPassword)
        } else if redirect_url.as_str().is_empty() {
            Err(ConfigError::MissingRedirectUrl)
        } else {
            Ok(
                RedditClient {
                    client_id,
                    client_secret,
                    username,
                    password,
                    redirect_url,
                },
            )
        }
    }

    /// The password-grant request this client sends to the token endpoint.
    pub fn access_token_request(&self) -> (r: AccessTokenRequest)
        ensures
            r.grant_type@ == "password"@,
            r.username == self.username,
            r.password == self.password,
    {
        AccessTokenRequest {
            grant_type: String::from_str("password"),
            username: self.username.clone(),
            password: self.password.clone(),
        }
    }

    /// The bytes HTTP Basic authentication is computed over.
    pub open spec fn spec_userpass(&self) -> Seq<u8> {
        encode_utf8(self.client_id@) + seq![0x3au8] + encode_utf8(self.client_secret@)
    }

    /// The `Authorization` header of the token request: `Basic` followed by
    /// the base64 of `client_id:client_secret`.
    pub fn basic_auth_header(&self) -> (r: String)
        ensures
            encode_utf8(r@) == encode_utf8("Basic "@) + spec_base64(self.spec_userpass()),
    {
        let mut input: Vec<u8> = self.client_id.as_str().as_bytes_vec();
        input.push(0x3a);
        let mut secret_bytes: Vec<u8> = self.client_secret.as_str().as_bytes_vec();
        input.append(&mut secret_bytes);
        proof {
            assert(input@ =~= self.spec_userpass());
        }
        let mut bytes: Vec<u8> = "Basic ".as_bytes_vec();
        let mut b64 = base64_encode(input.as_slice());
        bytes.append(&mut b64);
        proof {
            lemma_base64_ascii(self.spec_userpass());
            lemma_ascii_bytes_valid_utf8(spec_base64(self.spec_userpass()));
            vstd::utf8::valid_utf8_concat(
                encode_utf8("Basic "@),
                spec_base64(self.spec_userpass()),
            );
        }
        match crate::json::bytes_into_string(bytes) {
            Some(s) => s,
            None => unreached(),
        }
    }
}

/// The `Authorization` header of a bearer-authenticated request.
pub fn bearer_header(access_token: &str) -> (r: String)
    ensures
        r@ == "Bearer "@ + access_token@,
{
    let mut s = String::from_str("Bearer ");
    s.append(access_token);
    s
}

/// Relies on `uuid::Uuid::new_v4` and its hyphenated `Display` form: a fresh
/// random version-4 identifier rendered as 36 ASCII characters.  Nothing is
/// promised about which identifier comes back.
#[verifier::external_body]
fn fresh_search_query_id() -> (r: String)
    ensures
        r@.len() == 36,
        is_ascii_chars(r@),
{
    uuid::Uuid::new_v4().to_string()
}

impl RedditClient {
    /// Assembles the search request: the caller's parameters pass through
    /// unchanged — `type_ahead` under the wire name `typeahead_active` — and
    /// a fresh random correlation id is drawn for this call alone.
    pub fn search_subreddit_names_request(
        &self,
        query: String,
        exact: bool,
        include_over_18: bool,
        include_unadvertisable: bool,
        type_ahead: bool,
    ) -> (r: SearchSubredditNameRequest)
        ensures
            r.query == query,
            r.exact == exact,
            r.include_over_18 == include_over_18,
            r.include_unadvertisable == include_unadvertisable,
            r.typeahead_active == type_ahead,
            r.search_query_id@.len() == 36,
            is_ascii_chars(r.search_query_id@),
    {
        SearchSubredditNameRequest {
            exact,
            include_over_18,
            include_unadvertisable,
            query,
            search_query_id: fresh_search_query_id(),
            typeahead_active: type_ahead,
        }
    }
}

/// Interprets the outcome of the token round trip: a transport failure keeps
/// its message, a status other than 200 is a status error whatever the body
/// holds, and a 200 body yields the decoded response or a decode error.
pub fn interpret_token_outcome(outcome: Result<HttpResponse, String>) -> (r: Result<
    AccessTokenResponse,
    RequestError,
>)
    ensures
        match outcome {
            Err(e) => r matches Err(RequestError::Transport(t)) && t == e,
            Ok(resp) => {
                if resp.status != 200 {
                    r == Err::<AccessTokenResponse, RequestError>(
                        RequestError::Status(resp.status),
                    )
                } else {
                    match spec_token_response(resp.body@) {
                        Some(m) => r matches Ok(t) && t@ == m,
                        None => r == Err::<AccessTokenResponse, RequestError>(RequestError::Decode),
                    }
                }
            },
        },
{
    match outcome {
        Err(e) => Err(RequestError::Transport(e)),
        Ok(resp) => {
            if resp.status != 200 {
                Err(RequestError::Status(resp.status))
            } else {
                match parse_access_token_response(resp.body.as_slice()) {
                    Some(t) => Ok(t),
                    None => Err(RequestError::Decode),
                }
            }
        },
    }
}

/// The token string handed back to the caller: the `access_token` member of
/// a fully successful response, and the fixed sentinel on every failure.
pub fn access_token_from_outcome(outcome: Result<HttpResponse, String>) -> (r: String)
    ensures
        r@ == spec_access_token_string(outcome),
{
    match interpret_token_outcome(outcome) {
        Ok(t) => t.access_token,
        Err(_) => String::from_str("Unable to fetch access_token from reddit"),
    }
}

/// Interprets the outcome of the search round trip, with the same
/// status-before-body discipline as the token path.
pub fn interpret_search_outcome(outcome: Result<HttpResponse, String>) -> (r: Result<
    String,
    RequestError,
>)
    ensures
        match outcome {
            Err(e) => r matches Err(RequestError::Transport(t)) && t == e,
            Ok(resp) => {
                if resp.status != 200 {
                    r == Err::<String, RequestError>(RequestError::Status(resp.status))
                } else {
                    match spec_search_response(resp.body@) {
                        Some(m) => r matches Ok(t) && t@ == m,
                        None => r == Err::<String, RequestError>(RequestError::Decode),
                    }
                }
            },
        },
{
    match outcome {
        Err(e) => Err(RequestError::Transport(e)),
        Ok(resp) => {
            if resp.status != 200 {
                Err(RequestError::Status(resp.status))
            } else {
                match parse_search_response(resp.body.as_slice()) {
                    Some(t) => Ok(t),
                    None => Err(RequestError::Decode),
                }
            }
        },
    }
}

/// The search result handed back to the caller: the decoded names payload,
/// or the display message of the error that ended the round trip.
pub fn search_result_from_outcome(outcome: Result<HttpResponse, String>) -> (r: Result<
    String,
    String,
>)
    ensures
        match r {
            Ok(v) => spec_search_result(outcome) == Ok::<Seq<char>, Seq<char>>(v@),
            Err(m) => spec_search_result(outcome) == Err::<Seq<char>, Seq<char>>(m@),
        },
{
    match interpret_search_outcome(outcome) {
        Ok(v) => Ok(v),
        Err(e) => Err(e.message()),
    }
}

/// A response whose status is not 200 is refused on the status alone: the
/// result is the same whatever body came with it, and the search error names
/// that status.
pub proof fn lemma_status_error_ignores_body(r1: HttpResponse, r2: HttpResponse)
    requires
        r1.status == r2.status,
        r1.status != 200,
    ensures
        spec_access_token_string(Ok(r1)) == spec_access_token_string(Ok(r2)),
        spec_search_result(Ok(r1)) == spec_search_result(Ok(r2)),
        spec_search_result(Ok(r1)) == Err::<Seq<char>, Seq<char>>(
            "Request failed with status: "@ + spec_dec_chars(r1.status as int),
        ),
{
}

/// On every failing outcome — a transport failure, a status other than 200,
/// or a 200 body that does not decode — the token fetch yields the fixed
/// sentinel, and nothing else.
pub proof fn lemma_sentinel_on_failure(outcome: Result<HttpResponse, String>)
    requires
        match outcome {
            Err(_) => true,
            Ok(resp) => resp.status != 200 || spec_token_response(resp.body@) is None,
        },
    ensures
        spec_access_token_string(outcome) == spec_sentinel(),
{
}

/// On a fully successful outcome the token fetch yields exactly the
/// `access_token` member of the response body, unmodified.
pub proof fn lemma_token_on_success(resp: HttpResponse, m: SpecAccessTokenResponse)
    requires
        resp.status == 200,
        spec_token_response(resp.body@) == Some(m),
    ensures
        spec_access_token_string(Ok(resp)) == m.access_token,
{
}

/// What the server handler reports to the hosting runtime.
pub struct ServerMetadata {
    pub instructions: String,
    pub tools_enabled: bool,
}

impl RedditClient {
    /// The static capability answer: a fixed instruction string, with tool
    /// calling enabled.
    pub fn get_info(&self) -> (r: ServerMetadata)
        ensures
            r.instructions@ == "A MCP server for accessing Reddit"@,
            r.tools_enabled,
    {
        ServerMetadata {
            instructions: String::from_str("A MCP server for accessing Reddit"),
            tools_enabled: true,
        }
    }
}

/// One invokable operation: its name, its description, and the names of its
/// declared parameters, in order.
pub struct ToolDescriptor {
    pub name: String,
    pub description: String,
    pub params: Vec<String>,
}

/// The registration table of the two tools this server exposes.
pub fn tool_descriptors() -> (r: Vec<ToolDescriptor>)
    ensures
        r@.len() == 2,
        r@[0].name@ == "get_access_token"@,
        r@[0].description@ == "Get access_token to authenticate from reddit"@,
        r@[0].params@.len() == 0,
        r@[1].name@ == "search_subreddit_names"@,
        r@[1].description@ == "List subreddit names that begin with a query string."@,
        r@[1].params@.len() == 6,
        r@[1].params@[0]@ == "query"@,
        r@[1].params@[1]@ == "exact"@,
        r@[1].params@[2]@ == "include_over_18"@,
        r@[1].params@[3]@ == "include_unadvertisable"@,
        r@[1].params@[4]@ == "type_ahead"@,
        r@[1].params@[5]@ == "access_token"@,
{
    let mut tools: Vec<ToolDescriptor> = Vec::new();
    tools.push(
        ToolDescriptor {
            name: String::from_str("get_access_token"),
            description: String::from_str("Get access_token to authenticate from reddit"),
            params: Vec::new(),
        },
    );
    let mut params: Vec<String> = Vec::new();
    params.push(String::from_str("query"));
    params.push(String::from_str("exact"));
    params.push(String::from_str("include_over_18"));
    params.push(String::from_str("include_unadvertisable"));
    params.push(String::from_str("type_ahead"));
    params.push(String::from_str("access_token"));
    tools.push(
        ToolDescriptor {
            name: String::from_str("search_subreddit_names"),
            description: String::from_str("List subreddit names that begin with a query string."),
            params,
        },
    );
    tools
}

} // verus!
