//! What a caller gets back from the operations on credentials, requests, the course of
//! a fetch, and texts.

use vstd::prelude::*;

use crate::credentials::{
    after_probe, credential_fields, field_views, first_probe, json_text_at,
    law_credentials_by_outcome, law_field_views, law_login_texts_by_name, law_login_view,
    law_saved_fields, law_search_order, login_texts, plan_label, pretty_object, probe_path,
    read_credentials, read_keychain, read_keychain_credentials, save_credentials, CredentialProbe,
    CredentialSource, Credentials, FileOutcome, KeychainOutcome, Oauth, ProbeStep, ReadStep,
};
use crate::fetch::{
    credentials_read, expects, next, step, FetchAction, FetchError, FetchEvent, FetchState,
};
use crate::metrics_laws::read_alike;
use crate::profile::ServiceProfile;
use crate::requests::{
    asks_for_refresh, law_failures_name_their_status, law_refresh_body, law_usage_headers,
    refresh_request, refresh_status, status_reason, usage_request, usage_status, RefreshRequest,
    ReplyStatus, UsageRequest,
};
use crate::text::{
    after_last, contains_text, copy_text, decimal, decimal_text, digits_value, join2, join3,
    last_part, law_after_last_is_the_last_part, law_decimal_reads_back, text_contains, text_view,
};
use crate::tokens::{fmt_tokens, token_text};

verus! {

/// A named text stands at a position of a list.
pub open spec fn names(fields: Seq<(String, String)>, i: int, name: Seq<char>, text: Seq<char>) -> bool {
    0 <= i < fields.len() && fields[i].0@ == name && fields[i].1@ == text
}

/// The usage request goes to the usage address and carries the access token as a
/// bearer.
pub proof fn law_usage_request(token: &str, request: UsageRequest)
    requires
        call_ensures(usage_request, (token,), request),
    ensures
        request.url@ == "https://api.anthropic.com/api/oauth/usage"@,
        request.headers@.len() == 4,
        names(request.headers@, 0, "Authorization"@, "Bearer "@ + token@),
        names(request.headers@, 1, "Accept"@, "application/json"@),
        names(request.headers@, 2, "Content-Type"@, "application/json"@),
        names(request.headers@, 3, "anthropic-beta"@, "oauth-2025-04-20"@),
{
    let fields = request.headers@;
    law_field_views(fields);
    law_usage_headers(token@);
    assert(field_views(fields)[0].0 == fields[0].0@);
    assert(field_views(fields)[1].0 == fields[1].0@);
    assert(field_views(fields)[2].0 == fields[2].0@);
    assert(field_views(fields)[3].0 == fields[3].0@);
}

/// The refresh request goes to the token address and carries the refresh token.
pub proof fn law_refresh_request(
    profile: &ServiceProfile,
    refresh_token: &str,
    request: RefreshRequest,
)
    requires
        call_ensures(refresh_request, (profile, refresh_token), request),
    ensures
        request.url@ == profile.token_url@,
        request.headers@.len() == 1,
        names(request.headers@, 0, "Content-Type"@, "application/json"@),
        request.body@.len() == 4,
        names(request.body@, 0, "grant_type"@, "refresh_token"@),
        names(request.body@, 1, "refresh_token"@, refresh_token@),
        names(request.body@, 2, "client_id"@, "9d1c250a-e61b-44d9-88ed-5944d1962f5e"@),
        names(
            request.body@,
            3,
            "scope"@,
            "user:profile user:inference user:sessions:claude_code user:mcp_servers"@,
        ),
{
    let headers = request.headers@;
    let body = request.body@;
    law_field_views(headers);
    law_field_views(body);
    law_refresh_body(refresh_token@);
    assert(field_views(headers)[0].0 == headers[0].0@);
    assert(field_views(body)[0].0 == body[0].0@);
    assert(field_views(body)[1].0 == body[1].0@);
    assert(field_views(body)[2].0 == body[2].0@);
    assert(field_views(body)[3].0 == body[3].0@);
}

/// A reply succeeds exactly with a status from 200 to 299. A usage reply with 401 or
/// 403 asks for a new token; every other failure names its status.
pub proof fn law_reply_status(
    profile: &ServiceProfile,
    status: u16,
    usage: ReplyStatus,
    refresh: ReplyStatus,
)
    requires
        call_ensures(usage_status, (profile, status), usage),
        call_ensures(refresh_status, (profile, status), refresh),
    ensures
        usage is Success <==> 200 <= status <= 299,
        refresh is Success <==> 200 <= status <= 299,
        usage matches ReplyStatus::Failed(reason) ==> reason@ == if status == 401 || status == 403 {
            "NEEDS_AUTH"@
        } else {
            profile.provider@ + " usage request failed (HTTP "@ + (decimal(status as nat) + " "@
                + status_reason(status)) + ")"@
        },
        refresh matches ReplyStatus::Failed(reason) ==> reason@ == profile.provider@
            + " token refresh failed (HTTP "@ + (decimal(status as nat) + " "@ + status_reason(
            status,
        )) + ")"@,
        100 <= status <= 999 ==> call_requires(usage_status, (profile, status)),
        100 <= status <= 999 ==> call_requires(refresh_status, (profile, status)),
{
    law_failures_name_their_status(*profile, status);
}

/// A failure asks for a new token exactly if its reason says so somewhere.
pub proof fn law_asks_for_refresh(reason: &str, asks: bool)
    requires
        call_ensures(asks_for_refresh, (reason,), asks),
    ensures
        asks <==> contains_text(reason@, "NEEDS_AUTH"@),
{
}

/// The keychain entry is that of the profile; the search begins with the credentials
/// file, goes from place to place until something was found, and each place but the
/// keychain has a name below the client's directory.
pub proof fn law_search(
    profile: &ServiceProfile,
    entry: String,
    first: CredentialProbe,
    probe: CredentialProbe,
    hit: bool,
    found: ProbeStep,
    path: Option<(String, String)>,
)
    requires
        call_ensures(read_keychain, (profile,), entry),
        call_ensures(first_probe, (), first),
        call_ensures(after_probe, (probe, hit), found),
        call_ensures(probe_path, (profile, probe), path),
    ensures
        entry@ == profile.keychain_service@,
        first is CredentialsFile,
        found is Found <==> hit,
        !hit ==> match probe {
            CredentialProbe::CredentialsFile => found == ProbeStep::Try(CredentialProbe::Keychain),
            CredentialProbe::Keychain => found == ProbeStep::Try(CredentialProbe::Projects),
            CredentialProbe::Projects => found == ProbeStep::Try(CredentialProbe::Transcripts),
            CredentialProbe::Transcripts => found is NotFound,
        },
        path is None <==> probe is Keychain,
        path matches Some((dir, name)) ==> {
            &&& dir@ == profile.config_dir@
            &&& probe is CredentialsFile ==> name@ == ".credentials.json"@
            &&& probe is Projects ==> name@ == "projects"@
            &&& probe is Transcripts ==> name@ == "transcripts"@
        },
{
    law_search_order(probe);
}

/// A file that could be understood is used as it is; otherwise the keychain is asked,
/// whose credentials or error are final.
pub proof fn law_read_credentials<E>(
    file: FileOutcome,
    after_file: ReadStep,
    keychain: KeychainOutcome<E>,
    result: Result<(Credentials, CredentialSource), E>,
)
    requires
        call_ensures(read_credentials, (file,), after_file),
        call_ensures(read_keychain_credentials::<E>, (keychain,), result),
    ensures
        match file {
            FileOutcome::Parsed(credentials) => after_file == ReadStep::Done(
                credentials,
                CredentialSource::File,
            ),
            _ => after_file is AskKeychain,
        },
        match keychain {
            KeychainOutcome::Parsed(credentials) => result == Ok::<
                (Credentials, CredentialSource),
                E,
            >((credentials, CredentialSource::Keychain)),
            KeychainOutcome::Failed(error) => result == Err::<(Credentials, CredentialSource), E>(
                error,
            ),
            KeychainOutcome::Malformed(error) => result == Err::<
                (Credentials, CredentialSource),
                E,
            >(error),
        },
{
    law_credentials_by_outcome(file, keychain);
}

/// What is written down of a login, and what reading the document gives back: both
/// tokens, and the plan as far as it is known.
pub proof fn law_save_credentials(
    access_token: &str,
    refresh_token: &str,
    subscription_type: &Option<String>,
    rate_limit_tier: &Option<String>,
    fields: Vec<(String, String)>,
    document: String,
)
    requires
        call_ensures(
            credential_fields,
            (access_token, refresh_token, subscription_type, rate_limit_tier),
            fields,
        ),
        call_ensures(
            save_credentials,
            (access_token, refresh_token, subscription_type, rate_limit_tier),
            document,
        ),
    ensures
        ({
            let typed = if *subscription_type is Some {
                1int
            } else {
                0
            };
            &&& fields@.len() == 2 + typed + if *rate_limit_tier is Some {
                1int
            } else {
                0
            }
            &&& names(fields@, 0, "accessToken"@, access_token@)
            &&& names(fields@, 1, "refreshToken"@, refresh_token@)
            &&& *subscription_type matches Some(text) ==> names(
                fields@,
                2,
                "subscriptionType"@,
                text@,
            )
            &&& *rate_limit_tier matches Some(text) ==> names(
                fields@,
                2 + typed,
                "rateLimitTier"@,
                text@,
            )
        }),
        document@ == pretty_object("claudeAiOauth"@, field_views(fields@)),
        json_text_at(document@, "claudeAiOauth"@, "accessToken"@) == Some(access_token@),
        json_text_at(document@, "claudeAiOauth"@, "refreshToken"@) == Some(refresh_token@),
        json_text_at(document@, "claudeAiOauth"@, "subscriptionType"@)
            == match *subscription_type {
            Some(text) => Some(text@),
            None => None,
        },
        json_text_at(document@, "claudeAiOauth"@, "rateLimitTier"@) == match *rate_limit_tier {
            Some(text) => Some(text@),
            None => None,
        },
{
    let views = field_views(fields@);
    law_field_views(fields@);
    law_saved_fields(
        access_token@,
        refresh_token@,
        text_view(*subscription_type),
        text_view(*rate_limit_tier),
    );
    law_login_texts_by_name(document@);
    assert(views[0].0 == fields@[0].0@ && views[1].0 == fields@[1].0@);
    if *subscription_type is Some {
        assert(views[2].0 == fields@[2].0@);
    }
    if *rate_limit_tier is Some {
        let i = fields@.len() - 1;
        assert(views[i].0 == fields@[i].0@);
    }
}

/// The login in a document holds the texts that stand there under their names.
pub proof fn law_login_texts(document: &str, login: Oauth)
    requires
        call_ensures(login_texts, (document,), login),
    ensures
        text_view(login.access_token) == json_text_at(
            document@,
            "claudeAiOauth"@,
            "accessToken"@,
        ),
        text_view(login.refresh_token) == json_text_at(
            document@,
            "claudeAiOauth"@,
            "refreshToken"@,
        ),
        text_view(login.subscription_type) == json_text_at(
            document@,
            "claudeAiOauth"@,
            "subscriptionType"@,
        ),
        text_view(login.rate_limit_tier) == json_text_at(
            document@,
            "claudeAiOauth"@,
            "rateLimitTier"@,
        ),
{
    law_login_view(login);
    law_login_texts_by_name(document@);
}

/// The plan that a login shows is its subscription, followed by the last part of its
/// tier where it has one; the event carries it together with that login.
pub proof fn law_plan_shown(
    credentials: Credentials,
    capitalized: String,
    event: FetchEvent,
    subscription: &Option<String>,
    tier: &Option<String>,
    plan: Option<String>,
)
    requires
        call_ensures(credentials_read, (credentials, capitalized), event),
        call_ensures(plan_label, (subscription, tier), plan),
    ensures
        event matches FetchEvent::CredentialsRead { oauth, plan } && oauth == credentials.oauth
            && match oauth {
            Some(login) => if login.subscription_type is Some {
                is_plan(plan, Some(capitalized), login.rate_limit_tier)
            } else {
                plan is None
            },
            None => plan is None,
        },
        is_plan(plan, *subscription, *tier),
{
}

/// A plan in words: none without a subscription, the subscription alone without a
/// tier, and otherwise both, of the tier what stands behind its last underscore.
pub open spec fn is_plan(plan: Option<String>, subscription: Option<String>, tier: Option<String>) -> bool {
    match (subscription, tier) {
        (None, _) => plan is None,
        (Some(subscription), None) => plan matches Some(plan) && plan@ == subscription@,
        (Some(subscription), Some(tier)) => plan matches Some(plan) && plan@ == subscription@ + " "@
            + after_last(tier@, '_'),
    }
}

/// A step follows the course, and may be taken on every event that is waited for; an
/// error is told in its words.
pub proof fn law_step(
    state: FetchState,
    event: FetchEvent,
    local_active: bool,
    result: (FetchState, FetchAction),
    error: &FetchError,
    profile: &ServiceProfile,
    message: String,
)
    requires
        call_ensures(step, (state, event, local_active), result),
        call_ensures(FetchError::message, (error, profile), message),
    ensures
        result == next(state, event, local_active),
        expects(state, event) ==> call_requires(step, (state, event, local_active)),
        message@ == match *error {
            FetchError::NoOauth => "No "@ + profile.provider@ + " OAuth credentials. Run '"@
                + profile.command@ + "' to log in."@,
            FetchError::NoAccessToken => "No "@ + profile.provider@ + " access token."@,
            FetchError::NoRefreshToken => "No refresh token."@,
            FetchError::NoTokenFromRefresh => "Refresh returned no token."@,
        },
{
}

/// Numbers in decimal notation read back, and short token counts are those that
/// [`token_text`] gives.
pub proof fn law_numbers_in_words(number: u64, text: String, tokens: u64, short: String)
    requires
        call_ensures(decimal_text, (number,), text),
        call_ensures(fmt_tokens, (tokens,), short),
    ensures
        digits_value(text@) == number,
        text@.len() > 0,
        text@[0] == '0' ==> number == 0,
        forall|i: int| 0 <= i < text@.len() ==> '0' <= #[trigger] text@[i] <= '9',
        short@ == token_text(tokens as nat),
{
    law_decimal_reads_back(number as nat);
}

/// Texts are joined end to end, copied as they are, searched for a stretch that is the
/// pattern, and cut behind the last separator.
pub proof fn law_texts(
    first: &str,
    second: &str,
    third: &str,
    two: String,
    three: String,
    optional: &Option<String>,
    copy: Option<String>,
    separator: char,
    part: String,
    contains: bool,
)
    requires
        call_ensures(join2, (first, second), two),
        call_ensures(join3, (first, second, third), three),
        call_ensures(copy_text, (optional,), copy),
        call_ensures(last_part, (first, separator), part),
        call_ensures(text_contains, (first, second), contains),
    ensures
        two@ == first@ + second@,
        three@ == first@ + second@ + third@,
        read_alike(copy, *optional),
        part@.len() <= first@.len(),
        part@ == first@.skip(first@.len() - part@.len()),
        !part@.contains(separator),
        part@.len() < first@.len() ==> first@[first@.len() - part@.len() - 1] == separator,
        contains <==> exists|i: int|
            0 <= i <= first@.len() - second@.len() && #[trigger] first@.subrange(
                i,
                i + second@.len(),
            ) == second@,
{
    law_after_last_is_the_last_part(first@, separator);
}

} // verus!
