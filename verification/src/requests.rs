//! The two requests that are sent to the service, and what their replies mean.

use vstd::prelude::*;

use crate::credentials::field_views;
use crate::profile::ServiceProfile;
use crate::text::{contains_text, decimal, join2, join3, text_contains};

verus! {

/// Identifies the client to the service.
pub const CLIENT_ID: &'static str = "9d1c250a-e61b-44d9-88ed-5944d1962f5e";

/// The interface version that the usage endpoint expects.
pub const BETA_HEADER: &'static str = "oauth-2025-04-20";

/// A request for the current usage.
#[derive(Debug, PartialEq, Eq)]
pub struct UsageRequest {
    pub url: String,
    pub headers: Vec<(String, String)>,
}

/// A request for a new access token; the members of its JSON body are all texts.
#[derive(Debug, PartialEq, Eq)]
pub struct RefreshRequest {
    pub url: String,
    pub headers: Vec<(String, String)>,
    pub body: Vec<(String, String)>,
}

fn field(name: &str, text: &str) -> (field: (String, String))
    ensures
        field.0@ == name@,
        field.1@ == text@,
{
    (name.to_owned(), text.to_owned())
}

/// The headers of a usage request.
pub open spec fn usage_header_views(token: Seq<char>) -> Seq<(Seq<char>, Seq<char>)> {
    seq![
        ("Authorization"@, "Bearer "@ + token),
        ("Accept"@, "application/json"@),
        ("Content-Type"@, "application/json"@),
        ("anthropic-beta"@, BETA_HEADER@),
    ]
}

/// The request that asks for the usage, on behalf of the owner of an access token.
pub fn usage_request(token: &str) -> (request: UsageRequest)
    ensures
        request.url@ == "https://api.anthropic.com/api/oauth/usage"@,
        field_views(request.headers@) == usage_header_views(token@),
{
    let mut headers: Vec<(String, String)> = Vec::new();
    headers.push(("Authorization".to_owned(), join2("Bearer ", token)));
    headers.push(field("Accept", "application/json"));
    headers.push(field("Content-Type", "application/json"));
    headers.push(field("anthropic-beta", BETA_HEADER));
    assert(field_views(headers@) =~= usage_header_views(token@));
    UsageRequest { url: "https://api.anthropic.com/api/oauth/usage".to_owned(), headers }
}

/// The body of a refresh request.
pub open spec fn refresh_body_views(refresh_token: Seq<char>) -> Seq<(Seq<char>, Seq<char>)> {
    seq![
        ("grant_type"@, "refresh_token"@),
        ("refresh_token"@, refresh_token),
        ("client_id"@, CLIENT_ID@),
        (
            "scope"@,
            "user:profile user:inference user:sessions:claude_code user:mcp_servers"@,
        ),
    ]
}

/// The request that trades a refresh token for a new access token.
pub fn refresh_request(profile: &ServiceProfile, refresh_token: &str) -> (request: RefreshRequest)
    ensures
        request.url@ == profile.token_url@,
        field_views(request.headers@) == seq![("Content-Type"@, "application/json"@)],
        field_views(request.body@) == refresh_body_views(refresh_token@),
{
    let mut headers: Vec<(String, String)> = Vec::new();
    headers.push(field("Content-Type", "application/json"));
    assert(field_views(headers@) =~= seq![("Content-Type"@, "application/json"@)]);
    let mut body: Vec<(String, String)> = Vec::new();
    body.push(field("grant_type", "refresh_token"));
    body.push(field("refresh_token", refresh_token));
    body.push(field("client_id", CLIENT_ID));
    body.push(
        field("scope", "user:profile user:inference user:sessions:claude_code user:mcp_servers"),
    );
    assert(field_views(body@) =~= refresh_body_views(refresh_token@));
    RefreshRequest { url: profile.token_url.clone(), headers, body }
}

/// A status code that reports success.
pub open spec fn is_success(status: u16) -> bool {
    200 <= status < 300
}

/// What the status of a reply means.
#[derive(Debug, PartialEq, Eq)]
pub enum ReplyStatus {
    /// The body holds what was asked for.
    Success,
    /// The request failed, for the reason given.
    Failed(String),
}

/// The reason that is given when the access token was not accepted.
pub open spec fn needs_auth() -> Seq<char> {
    "NEEDS_AUTH"@
}

/// The standard reason phrase of a status code, or the words that stand for one.
pub uninterp spec fn status_reason(status: u16) -> Seq<char>;

/// A status code as it is shown: its number and its reason phrase.
pub open spec fn status_text(status: u16) -> Seq<char> {
    decimal(status as nat) + " "@ + status_reason(status)
}

/// Calls `reqwest::StatusCode::from_u16`, which takes codes of three digits, and
/// `to_string` on its result. The contract claims that the text is the number, a
/// space and a phrase, and names the phrase, a function of the code alone; the
/// wording of the phrases is not stated.
#[verifier::external_body]
fn show_status(status: u16) -> (text: String)
    requires
        100 <= status < 1000,
    ensures
        text@ == decimal(status as nat) + " "@ + status_reason(status),
{
    reqwest::StatusCode::from_u16(status).unwrap().to_string()
}

/// Why a usage request with this status failed.
pub open spec fn usage_failure(profile: ServiceProfile, status: u16) -> Seq<char> {
    if status == 401 || status == 403 {
        needs_auth()
    } else {
        profile.provider@ + " usage request failed (HTTP "@ + status_text(status) + ")"@
    }
}

/// Reads the status of a usage reply.
pub fn usage_status(profile: &ServiceProfile, status: u16) -> (reply: ReplyStatus)
    requires
        100 <= status < 1000,
    ensures
        match reply {
            ReplyStatus::Success => is_success(status),
            ReplyStatus::Failed(reason) => !is_success(status) && reason@ == usage_failure(
                *profile,
                status,
            ),
        },
{
    if status == 401 || status == 403 {
        ReplyStatus::Failed("NEEDS_AUTH".to_owned())
    } else if status < 200 || status >= 300 {
        let shown = show_status(status);
        let failed = join3(
            profile.provider.as_str(),
            " usage request failed (HTTP ",
            shown.as_str(),
        );
        ReplyStatus::Failed(join2(failed.as_str(), ")"))
    } else {
        ReplyStatus::Success
    }
}

/// Reads the status of a refresh reply.
pub fn refresh_status(profile: &ServiceProfile, status: u16) -> (reply: ReplyStatus)
    requires
        100 <= status < 1000,
    ensures
        match reply {
            ReplyStatus::Success => is_success(status),
            ReplyStatus::Failed(reason) => !is_success(status) && reason@ == profile.provider@
                + " token refresh failed (HTTP "@ + status_text(status) + ")"@,
        },
{
    if status < 200 || status >= 300 {
        let shown = show_status(status);
        let failed = join3(
            profile.provider.as_str(),
            " token refresh failed (HTTP ",
            shown.as_str(),
        );
        ReplyStatus::Failed(join2(failed.as_str(), ")"))
    } else {
        ReplyStatus::Success
    }
}

/// Whether a failure asks for a new access token: its reason says so.
pub fn asks_for_refresh(reason: &str) -> (asks: bool)
    ensures
        asks == contains_text(reason@, needs_auth()),
{
    text_contains(reason, "NEEDS_AUTH")
}

/// A rejected access token is recognized whatever stands around the reason.
pub proof fn law_rejection_asks_for_refresh(before: Seq<char>, after: Seq<char>)
    ensures
        contains_text(before + needs_auth() + after, needs_auth()),
{
    let reason = before + needs_auth() + after;
    let at = before.len() as int;
    assert(reason.subrange(at, at + needs_auth().len()) =~= needs_auth());
}

/// What a usage request carries: the access token as a bearer, the form of the reply,
/// and the version of the interface.
pub proof fn law_usage_headers(token: Seq<char>)
    ensures
        usage_header_views(token) == seq![
            ("Authorization"@, "Bearer "@ + token),
            ("Accept"@, "application/json"@),
            ("Content-Type"@, "application/json"@),
            ("anthropic-beta"@, "oauth-2025-04-20"@),
        ],
{
}

/// What a refresh request carries: the refresh token, the client, and what it asks
/// for.
pub proof fn law_refresh_body(refresh_token: Seq<char>)
    ensures
        refresh_body_views(refresh_token) == seq![
            ("grant_type"@, "refresh_token"@),
            ("refresh_token"@, refresh_token),
            ("client_id"@, "9d1c250a-e61b-44d9-88ed-5944d1962f5e"@),
            (
                "scope"@,
                "user:profile user:inference user:sessions:claude_code user:mcp_servers"@,
            ),
        ],
{
}

/// A reply that reports neither success nor a rejected token fails with its number
/// and reason; only 401 and 403 reject the token.
pub proof fn law_failures_name_their_status(profile: ServiceProfile, status: u16)
    ensures
        is_success(status) <==> 200 <= status <= 299,
        status == 401 || status == 403 ==> usage_failure(profile, status) == "NEEDS_AUTH"@,
        status != 401 && status != 403 ==> usage_failure(profile, status) == profile.provider@
            + " usage request failed (HTTP "@ + (decimal(status as nat) + " "@ + status_reason(
            status,
        )) + ")"@,
        status_text(status) == decimal(status as nat) + " "@ + status_reason(status),
        needs_auth() == "NEEDS_AUTH"@,
{
}

} // verus!
