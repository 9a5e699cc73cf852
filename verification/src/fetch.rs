//! The course of a usage request: which steps are taken, in which order, and what
//! is shown in the end.

use vstd::prelude::*;

use crate::credentials::{plan_label, plan_text, Credentials, Oauth};
use crate::profile::ServiceProfile;
use crate::requests::{asks_for_refresh, needs_auth};
use crate::text::{after_last, contains_text, copy_text, join3, text_view};

verus! {

/// What is being waited for.
#[derive(Debug, PartialEq, Eq)]
pub enum FetchState {
    /// Stored credentials.
    Credentials,
    /// The usage, asked for with the stored access token.
    Usage { oauth: Oauth, plan: Option<String> },
    /// A new access token.
    Refresh { oauth: Oauth, plan: Option<String> },
    /// The usage, asked for with the new access token.
    Retry { plan: Option<String> },
    /// Nothing any more.
    Done,
}

/// What has happened.
#[derive(Debug, PartialEq, Eq)]
pub enum FetchEvent {
    /// No credentials could be read.
    CredentialsFailed,
    /// Credentials were read; `plan` is the plan they show.
    CredentialsRead { oauth: Option<Oauth>, plan: Option<String> },
    /// The service reported the usage.
    UsageFetched,
    /// The service did not report the usage, for the reason given.
    UsageFailed { reason: String },
    /// The access token was renewed.
    Refreshed { access_token: Option<String>, refresh_token: Option<String> },
    /// The access token was not renewed.
    RefreshFailed,
}

/// The plan that a login shows, where `capitalized` is its subscription type with a
/// capital first letter: none without a login or a subscription type.
pub open spec fn plan_of(oauth: Option<Oauth>, capitalized: Seq<char>) -> Option<Seq<char>> {
    match oauth {
        Some(oauth) => if oauth.subscription_type is Some {
            plan_text(Some(capitalized), text_view(oauth.rate_limit_tier))
        } else {
            None
        },
        None => None,
    }
}

/// The event of having read credentials, with the plan that they show.
pub fn credentials_read(credentials: Credentials, capitalized: String) -> (event: FetchEvent)
    ensures
        event matches FetchEvent::CredentialsRead { oauth, plan } && oauth == credentials.oauth
            && text_view(plan) == plan_of(credentials.oauth, capitalized@),
{
    let plan = match &credentials.oauth {
        Some(oauth) => if oauth.subscription_type.is_some() {
            plan_label(&Some(capitalized), &oauth.rate_limit_tier)
        } else {
            None
        },
        None => None,
    };
    FetchEvent::CredentialsRead { oauth: credentials.oauth, plan }
}

/// A login to write down.
#[derive(Debug, PartialEq, Eq)]
pub struct RenewedLogin {
    pub access_token: String,
    pub refresh_token: String,
    pub subscription_type: Option<String>,
    pub rate_limit_tier: Option<String>,
}

/// What to do next.
#[derive(Debug, PartialEq, Eq)]
pub enum FetchAction {
    /// Ask for the usage with this access token, after writing down the renewed
    /// login if there is one.
    FetchUsage { save: Option<RenewedLogin>, access_token: String },
    /// Ask for a new access token with this refresh token.
    RefreshToken { refresh_token: String },
    /// Show what local messages give, under this plan.
    ShowLocal { plan: Option<String> },
    /// Show the report, under this plan.
    ShowReport { plan: Option<String> },
    /// Give up, with the error that came with the event.
    FailWithCause,
    /// Give up, with this error.
    Fail(FetchError),
}

/// Errors in what was read or received.
#[derive(Debug, Clone, Copy, PartialEq, Eq, Structural)]
pub enum FetchError {
    NoOauth,
    NoAccessToken,
    NoRefreshToken,
    NoTokenFromRefresh,
}

/// The error in words.
pub open spec fn error_text(error: FetchError, profile: ServiceProfile) -> Seq<char> {
    match error {
        FetchError::NoOauth => "No "@ + profile.provider@ + " OAuth credentials. Run '"@
            + profile.command@ + "' to log in."@,
        FetchError::NoAccessToken => "No "@ + profile.provider@ + " access token."@,
        FetchError::NoRefreshToken => "No refresh token."@,
        FetchError::NoTokenFromRefresh => "Refresh returned no token."@,
    }
}

impl FetchError {
    /// The error in words.
    pub fn message(&self, profile: &ServiceProfile) -> (text: String)
        ensures
            text@ == error_text(*self, *profile),
    {
        match self {
            FetchError::NoOauth => {
                let start = join3("No ", profile.provider.as_str(), " OAuth credentials. Run '");
                join3(start.as_str(), profile.command.as_str(), "' to log in.")
            },
            FetchError::NoAccessToken => join3("No ", profile.provider.as_str(), " access token."),
            FetchError::NoRefreshToken => "No refresh token.".to_owned(),
            FetchError::NoTokenFromRefresh => "Refresh returned no token.".to_owned(),
        }
    }
}

/// The event is one that is being waited for.
pub open spec fn expects(state: FetchState, event: FetchEvent) -> bool {
    match state {
        FetchState::Credentials => event is CredentialsFailed || event is CredentialsRead,
        FetchState::Usage { .. } => event is UsageFetched || event is UsageFailed,
        FetchState::Refresh { .. } => event is Refreshed || event is RefreshFailed,
        FetchState::Retry { .. } => event is UsageFetched || event is UsageFailed,
        FetchState::Done => false,
    }
}

/// Gives up, or shows what local messages give where a block is active.
pub open spec fn local_or(
    local_active: bool,
    plan: Option<String>,
    otherwise: FetchAction,
) -> (FetchState, FetchAction) {
    if local_active {
        (FetchState::Done, FetchAction::ShowLocal { plan })
    } else {
        (FetchState::Done, otherwise)
    }
}

/// How the course goes on: the next state and what to do, given whether local
/// messages show an active block.
pub open spec fn next(state: FetchState, event: FetchEvent, local_active: bool) -> (
    FetchState,
    FetchAction,
) {
    match (state, event) {
        (FetchState::Credentials, FetchEvent::CredentialsRead { oauth: Some(oauth), plan }) => {
            match oauth.access_token {
                Some(access_token) => (
                    FetchState::Usage { oauth, plan },
                    FetchAction::FetchUsage { save: None, access_token },
                ),
                None => (FetchState::Done, FetchAction::Fail(FetchError::NoAccessToken)),
            }
        },
        (FetchState::Credentials, FetchEvent::CredentialsRead { oauth: None, plan }) => local_or(
            local_active,
            None,
            FetchAction::Fail(FetchError::NoOauth),
        ),
        (FetchState::Usage { oauth, plan }, FetchEvent::UsageFetched) => (
            FetchState::Done,
            FetchAction::ShowReport { plan },
        ),
        (FetchState::Usage { oauth, plan }, FetchEvent::UsageFailed { reason }) => {
            if !contains_text(reason@, needs_auth()) {
                local_or(local_active, plan, FetchAction::FailWithCause)
            } else {
                match oauth.refresh_token {
                    Some(refresh_token) => (
                        FetchState::Refresh { oauth, plan },
                        FetchAction::RefreshToken { refresh_token },
                    ),
                    None => (FetchState::Done, FetchAction::Fail(FetchError::NoRefreshToken)),
                }
            }
        },
        (
            FetchState::Refresh { oauth, plan },
            FetchEvent::Refreshed { access_token: Some(access_token), refresh_token },
        ) => (
            FetchState::Retry { plan },
            FetchAction::FetchUsage {
                save: match refresh_token {
                    Some(refresh_token) => Some(
                        RenewedLogin {
                            access_token,
                            refresh_token,
                            subscription_type: oauth.subscription_type,
                            rate_limit_tier: oauth.rate_limit_tier,
                        },
                    ),
                    None => None,
                },
                access_token,
            },
        ),
        (
            FetchState::Refresh { oauth, plan },
            FetchEvent::Refreshed { access_token: None, refresh_token },
        ) => (FetchState::Done, FetchAction::Fail(FetchError::NoTokenFromRefresh)),
        (FetchState::Retry { plan }, FetchEvent::UsageFetched) => (
            FetchState::Done,
            FetchAction::ShowReport { plan },
        ),
        (FetchState::Credentials, FetchEvent::CredentialsFailed) => local_or(
            local_active,
            None,
            FetchAction::FailWithCause,
        ),
        _ => (FetchState::Done, FetchAction::FailWithCause),
    }
}

/// Takes one step.
pub fn step(state: FetchState, event: FetchEvent, local_active: bool) -> (result: (
    FetchState,
    FetchAction,
))
    requires
        expects(state, event),
    ensures
        result == next(state, event, local_active),
{
    match (state, event) {
        (FetchState::Credentials, FetchEvent::CredentialsRead { oauth, plan }) => match oauth {
            Some(oauth) => match copy_text(&oauth.access_token) {
                Some(access_token) => (
                    FetchState::Usage { oauth, plan },
                    FetchAction::FetchUsage { save: None, access_token },
                ),
                None => (FetchState::Done, FetchAction::Fail(FetchError::NoAccessToken)),
            },
            None => fall_back(local_active, None, FetchAction::Fail(FetchError::NoOauth)),
        },
        (FetchState::Credentials, FetchEvent::CredentialsFailed) => fall_back(
            local_active,
            None,
            FetchAction::FailWithCause,
        ),
        (FetchState::Usage { oauth: _, plan }, FetchEvent::UsageFetched) => (
            FetchState::Done,
            FetchAction::ShowReport { plan },
        ),
        (FetchState::Usage { oauth, plan }, FetchEvent::UsageFailed { reason }) => {
            if !asks_for_refresh(reason.as_str()) {
                return fall_back(local_active, plan, FetchAction::FailWithCause);
            }
            match copy_text(&oauth.refresh_token) {
                Some(refresh_token) => (
                    FetchState::Refresh { oauth, plan },
                    FetchAction::RefreshToken { refresh_token },
                ),
                None => (FetchState::Done, FetchAction::Fail(FetchError::NoRefreshToken)),
            }
        },
        (
            FetchState::Refresh { oauth, plan },
            FetchEvent::Refreshed { access_token, refresh_token },
        ) => match access_token {
            Some(access_token) => {
                let save = match refresh_token {
                    Some(refresh_token) => Some(
                        RenewedLogin {
                            access_token: access_token.clone(),
                            refresh_token,
                            subscription_type: oauth.subscription_type,
                            rate_limit_tier: oauth.rate_limit_tier,
                        },
                    ),
                    None => None,
                };
                (FetchState::Retry { plan }, FetchAction::FetchUsage { save, access_token })
            },
            None => (FetchState::Done, FetchAction::Fail(FetchError::NoTokenFromRefresh)),
        },
        (FetchState::Retry { plan }, FetchEvent::UsageFetched) => (
            FetchState::Done,
            FetchAction::ShowReport { plan },
        ),
        _ => (FetchState::Done, FetchAction::FailWithCause),
    }
}

fn fall_back(local_active: bool, plan: Option<String>, otherwise: FetchAction) -> (result: (
    FetchState,
    FetchAction,
))
    ensures
        result == local_or(local_active, plan, otherwise),
{
    if local_active {
        (FetchState::Done, FetchAction::ShowLocal { plan })
    } else {
        (FetchState::Done, otherwise)
    }
}

/// How many steps can still follow.
pub open spec fn steps_left(state: FetchState) -> nat {
    match state {
        FetchState::Credentials => 4,
        FetchState::Usage { .. } => 3,
        FetchState::Refresh { .. } => 2,
        FetchState::Retry { .. } => 1,
        FetchState::Done => 0,
    }
}

/// The action ends the course.
pub open spec fn is_final(action: FetchAction) -> bool {
    !(action is FetchUsage) && !(action is RefreshToken)
}

/// Every step comes closer to the end, and the course is over exactly when
/// something is shown or given up.
pub proof fn law_course_ends(state: FetchState, event: FetchEvent, local_active: bool)
    requires
        expects(state, event),
    ensures
        steps_left(next(state, event, local_active).0) < steps_left(state),
        next(state, event, local_active).0 is Done <==> is_final(
            next(state, event, local_active).1,
        ),
        next(state, event, local_active).1 is RefreshToken ==> state is Usage,
{
}

/// The report is shown exactly when the service reported the usage.
pub proof fn law_report_needs_usage(state: FetchState, event: FetchEvent, local_active: bool)
    requires
        expects(state, event),
    ensures
        next(state, event, local_active).1 is ShowReport <==> event is UsageFetched,
{
}

/// With an active block in the local messages, missing credentials, a missing login
/// and a failure that does not ask for a new access token are answered with the
/// local metrics; without one they are errors, and local metrics are never shown.
pub proof fn law_local_metrics_stand_in(state: FetchState, event: FetchEvent, local_active: bool)
    requires
        expects(state, event),
    ensures
        next(state, event, local_active).1 is ShowLocal <==> local_active && {
            ||| event is CredentialsFailed
            ||| event matches FetchEvent::CredentialsRead { oauth, .. } && oauth is None
            ||| state is Usage && (event matches FetchEvent::UsageFailed { reason }
                && !contains_text(reason@, needs_auth()))
        },
{
}

/// A login is written down only when the service handed out a new refresh token,
/// with both new tokens and the plan as it was read.
pub proof fn law_only_renewed_logins_are_saved(
    state: FetchState,
    event: FetchEvent,
    local_active: bool,
)
    requires
        expects(state, event),
    ensures
        (next(state, event, local_active).1 matches FetchAction::FetchUsage { save, access_token }
            && save is Some) <==> {
            event matches FetchEvent::Refreshed { access_token, refresh_token } && access_token is Some
                && refresh_token is Some
        },
        next(state, event, local_active).1 matches FetchAction::FetchUsage {
            save: Some(login),
            access_token,
        } ==> {
            &&& state matches FetchState::Refresh { oauth, plan }
            &&& event == (FetchEvent::Refreshed {
                access_token: Some(login.access_token),
                refresh_token: Some(login.refresh_token),
            })
            &&& login.access_token == access_token
            &&& login.subscription_type == oauth.subscription_type
            &&& login.rate_limit_tier == oauth.rate_limit_tier
        },
{
}

/// The plan that a course goes by, as long as it goes on after the credentials were
/// read.
pub open spec fn plan_in(state: FetchState) -> Option<Option<String>> {
    match state {
        FetchState::Usage { plan, .. } => Some(plan),
        FetchState::Refresh { plan, .. } => Some(plan),
        FetchState::Retry { plan } => Some(plan),
        _ => None,
    }
}

/// The plan that came with the credentials is the one that is shown: it is kept from
/// step to step, and shown where anything is. Without a login no plan is shown.
pub proof fn law_plan_is_kept(state: FetchState, event: FetchEvent, local_active: bool)
    requires
        expects(state, event),
    ensures
        ({
            let (after, action) = next(state, event, local_active);
            let kept = match event {
                FetchEvent::CredentialsRead { oauth: Some(oauth), plan } => Some(plan),
                _ => plan_in(state),
            };
            &&& plan_in(after) matches Some(plan) ==> kept == Some(plan)
            &&& action matches FetchAction::ShowReport { plan } ==> kept == Some(plan)
            &&& action matches FetchAction::ShowLocal { plan } ==> match kept {
                Some(kept) => plan == kept,
                None => plan is None,
            }
        }),
{
}

/// The events can happen one after another, starting from `state`.
pub open spec fn follows(state: FetchState, events: Seq<FetchEvent>, local_active: bool) -> bool
    decreases events.len(),
{
    events.len() == 0 || {
        &&& expects(state, events[0])
        &&& follows(next(state, events[0], local_active).0, events.drop_first(), local_active)
    }
}

/// How often the access token is renewed on the way.
pub open spec fn refreshes(state: FetchState, events: Seq<FetchEvent>, local_active: bool) -> nat
    decreases events.len(),
{
    if events.len() == 0 {
        0
    } else {
        let (after, action) = next(state, events[0], local_active);
        let rest = refreshes(after, events.drop_first(), local_active);
        if action is RefreshToken {
            rest + 1
        } else {
            rest
        }
    }
}

/// Whatever happens, a course takes at most four steps and renews the access token
/// at most once.
pub proof fn law_course_is_short(state: FetchState, events: Seq<FetchEvent>, local_active: bool)
    requires
        follows(state, events, local_active),
    ensures
        events.len() <= steps_left(state) <= 4,
        refreshes(state, events, local_active) <= 1,
        steps_left(state) <= 2 ==> refreshes(state, events, local_active) == 0,
    decreases events.len(),
{
    if events.len() > 0 {
        law_course_ends(state, events[0], local_active);
        law_course_is_short(
            next(state, events[0], local_active).0,
            events.drop_first(),
            local_active,
        );
    }
}

/// Once credentials were read, the usage is asked for with the access token of the
/// login; a login without one, and credentials without a login, are errors of their
/// own, the latter only while no local block is active.
pub proof fn law_first_request(oauth: Option<Oauth>, plan: Option<String>, local_active: bool)
    ensures
        ({
            let event = FetchEvent::CredentialsRead { oauth, plan };
            let (after, action) = next(FetchState::Credentials, event, local_active);
            match oauth {
                Some(oauth) => match oauth.access_token {
                    Some(token) => {
                        &&& action == (FetchAction::FetchUsage { save: None, access_token: token })
                        &&& after == (FetchState::Usage { oauth, plan })
                    },
                    None => action == FetchAction::Fail(FetchError::NoAccessToken),
                },
                None => if local_active {
                    action == (FetchAction::ShowLocal { plan: None })
                } else {
                    action == FetchAction::Fail(FetchError::NoOauth)
                },
            }
        }),
        next(FetchState::Credentials, FetchEvent::CredentialsFailed, local_active).1 == (
        if local_active {
            FetchAction::ShowLocal { plan: None }
        } else {
            FetchAction::FailWithCause
        }),
{
}

/// A rejected access token is renewed with the refresh token of the same login, and a
/// login without one is an error; any other failure is final, and shown as local
/// metrics while a local block is active.
pub proof fn law_failed_request(
    oauth: Oauth,
    plan: Option<String>,
    reason: String,
    local_active: bool,
)
    ensures
        ({
            let event = FetchEvent::UsageFailed { reason };
            let (after, action) = next(FetchState::Usage { oauth, plan }, event, local_active);
            if contains_text(reason@, "NEEDS_AUTH"@) {
                match oauth.refresh_token {
                    Some(token) => {
                        &&& action == (FetchAction::RefreshToken { refresh_token: token })
                        &&& after == (FetchState::Refresh { oauth, plan })
                    },
                    None => action == FetchAction::Fail(FetchError::NoRefreshToken),
                }
            } else if local_active {
                action == (FetchAction::ShowLocal { plan })
            } else {
                action is FailWithCause
            }
        }),
{
}

/// After a renewal the usage is asked for once more with the new access token. The new
/// login is written down exactly if a new refresh token came with it. A renewal without
/// an access token is an error, a failed renewal and a second failure are final, and
/// local metrics are shown in none of these cases.
pub proof fn law_second_request(
    oauth: Oauth,
    plan: Option<String>,
    access_token: Option<String>,
    refresh_token: Option<String>,
    reason: String,
    local_active: bool,
)
    ensures
        ({
            let waiting = FetchState::Refresh { oauth, plan };
            let event = FetchEvent::Refreshed { access_token, refresh_token };
            let (after, action) = next(waiting, event, local_active);
            match access_token {
                Some(token) => {
                    &&& after == (FetchState::Retry { plan })
                    &&& action matches FetchAction::FetchUsage { save, access_token }
                    &&& access_token == token
                    &&& save is Some <==> refresh_token is Some
                    &&& save matches Some(login) ==> {
                        &&& login.access_token == token
                        &&& Some(login.refresh_token) == refresh_token
                        &&& login.subscription_type == oauth.subscription_type
                        &&& login.rate_limit_tier == oauth.rate_limit_tier
                    }
                },
                None => action == FetchAction::Fail(FetchError::NoTokenFromRefresh),
            }
        }),
        next(
            FetchState::Refresh { oauth, plan },
            FetchEvent::RefreshFailed,
            local_active,
        ).1 is FailWithCause,
        next(
            FetchState::Retry { plan },
            FetchEvent::UsageFailed { reason },
            local_active,
        ).1 is FailWithCause,
{
}

/// The usage that was reported is shown, under the plan of the login, at whichever
/// request it came.
pub proof fn law_reported_usage_is_shown(oauth: Oauth, plan: Option<String>, local_active: bool)
    ensures
        next(FetchState::Usage { oauth, plan }, FetchEvent::UsageFetched, local_active) == (
            FetchState::Done,
            FetchAction::ShowReport { plan },
        ),
        next(FetchState::Retry { plan }, FetchEvent::UsageFetched, local_active) == (
            FetchState::Done,
            FetchAction::ShowReport { plan },
        ),
{
}

/// Which events each state takes: every answer that the action before it can bring.
pub proof fn law_states_take_their_answers(
    oauth: Oauth,
    plan: Option<String>,
    read: Option<Oauth>,
    access_token: Option<String>,
    refresh_token: Option<String>,
    reason: String,
)
    ensures
        expects(FetchState::Credentials, FetchEvent::CredentialsFailed),
        expects(FetchState::Credentials, FetchEvent::CredentialsRead { oauth: read, plan }),
        expects(FetchState::Usage { oauth, plan }, FetchEvent::UsageFetched),
        expects(FetchState::Usage { oauth, plan }, FetchEvent::UsageFailed { reason }),
        expects(
            FetchState::Refresh { oauth, plan },
            FetchEvent::Refreshed { access_token, refresh_token },
        ),
        expects(FetchState::Refresh { oauth, plan }, FetchEvent::RefreshFailed),
        expects(FetchState::Retry { plan }, FetchEvent::UsageFetched),
        expects(FetchState::Retry { plan }, FetchEvent::UsageFailed { reason }),
{
}

/// The errors in words.
pub proof fn law_errors_in_words(profile: ServiceProfile)
    ensures
        error_text(FetchError::NoOauth, profile) == "No "@ + profile.provider@
            + " OAuth credentials. Run '"@ + profile.command@ + "' to log in."@,
        error_text(FetchError::NoAccessToken, profile) == "No "@ + profile.provider@
            + " access token."@,
        error_text(FetchError::NoRefreshToken, profile) == "No refresh token."@,
        error_text(FetchError::NoTokenFromRefresh, profile) == "Refresh returned no token."@,
{
}

/// The plan of a login is its capitalized subscription, followed by a space and the
/// last part of its tier where it has one; a login without a subscription has none.
pub proof fn law_plan_of_a_login(oauth: Oauth, capitalized: Seq<char>)
    ensures
        plan_of(None, capitalized) is None,
        oauth.subscription_type is None ==> plan_of(Some(oauth), capitalized) is None,
        oauth.subscription_type is Some && oauth.rate_limit_tier is None ==> plan_of(
            Some(oauth),
            capitalized,
        ) == Some(capitalized),
        oauth.subscription_type is Some ==> (oauth.rate_limit_tier matches Some(tier) ==> plan_of(
            Some(oauth),
            capitalized,
        ) == Some(capitalized + " "@ + after_last(tier@, '_'))),
{
}

} // verus!
