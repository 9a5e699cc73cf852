use claude_usage::credentials::{
    after_probe, credential_fields, first_probe, login_texts, plan_label, probe_path,
    read_credentials, read_keychain, read_keychain_credentials, save_credentials, CredentialProbe,
    CredentialSource, Credentials, FileOutcome, KeychainOutcome, Oauth, ProbeStep, ReadStep,
};
use claude_usage::fetch::{
    credentials_read, step, FetchAction, FetchError, FetchEvent, FetchState, RenewedLogin,
};
use claude_usage::profile::ServiceProfile;
use claude_usage::requests::{
    asks_for_refresh, refresh_request, refresh_status, usage_request, usage_status, ReplyStatus,
};
use claude_usage::reset::{parse_resets_at_secs, seconds_until, UtcInstant};
use claude_usage::text::{last_part, text_contains};

fn profile() -> ServiceProfile {
    ServiceProfile {
        provider: "Acme".to_string(),
        command: "acme".to_string(),
        client: "acme".to_string(),
        config_dir: ".acme".to_string(),
        keychain_service: "Acme-credentials".to_string(),
        token_url: "https://example.com/oauth/token".to_string(),
    }
}

fn some(text: &str) -> Option<String> {
    Some(text.to_string())
}

fn at(secs: i64) -> UtcInstant {
    UtcInstant { secs, nanos: 0 }
}

#[test]
fn reset_time_is_parsed_and_compared_with_now() {
    // 2026-06-27T12:00:00Z
    let noon = 1_782_561_600;
    assert_eq!(parse_resets_at_secs(Some("2026-06-27T12:00:00Z"), &at(noon - 90)), Some(90));
    assert_eq!(parse_resets_at_secs(Some("2026-06-27T14:00:00+02:00"), &at(noon - 90)), Some(90));
    assert_eq!(parse_resets_at_secs(Some("2026-06-27T12:00:00.750Z"), &at(noon - 1)), Some(1));
    assert_eq!(parse_resets_at_secs(Some("2026-06-27T12:00:00Z"), &at(noon)), None);
    assert_eq!(parse_resets_at_secs(Some("2026-06-27T12:00:00.750Z"), &at(noon)), None);
    assert_eq!(parse_resets_at_secs(Some("2026-06-27T12:00:00Z"), &at(noon + 5)), None);
    assert_eq!(parse_resets_at_secs(Some("tomorrow"), &at(noon)), None);
    assert_eq!(parse_resets_at_secs(None, &at(noon)), None);
}

#[test]
fn seconds_are_rounded_towards_zero() {
    let now = UtcInstant { secs: 100, nanos: 600_000_000 };
    assert_eq!(seconds_until(&Some(at(103)), &now), Some(2));
    assert_eq!(seconds_until(&Some(at(101)), &now), None);
    assert_eq!(seconds_until(&Some(at(90)), &now), None);
    assert_eq!(seconds_until(&None, &now), None);
}

#[test]
fn leap_seconds_count_within_a_day() {
    // 2016-12-31T23:59:60Z, a leap second
    let before = 1_483_228_799; // 23:59:59
    assert_eq!(parse_resets_at_secs(Some("2016-12-31T23:59:60Z"), &at(before)), Some(1));
    let leap = UtcInstant { secs: 59, nanos: 1_000_000_000 };
    assert_eq!(seconds_until(&Some(at(60)), &leap), Some(1));
    assert_eq!(seconds_until(&Some(leap), &at(0)), Some(60));
    assert_eq!(seconds_until(&Some(leap), &at(60)), None);
}

#[test]
fn valid_moments_are_those_that_chrono_holds() {
    let max = chrono::DateTime::<chrono::Utc>::MAX_UTC.timestamp();
    let min = chrono::DateTime::<chrono::Utc>::MIN_UTC.timestamp();
    assert!(at(max).is_valid() && !at(max + 1).is_valid());
    assert!(at(min).is_valid() && !at(min - 1).is_valid());
    for nanos in [0, 999_999_999, 1_000_000_000, 1_999_999_999, 2_000_000_000] {
        for secs in [-61, -60, -1, 0, 1, 58, 59, 60, max, min] {
            assert_eq!(
                UtcInstant { secs, nanos }.is_valid(),
                chrono::DateTime::from_timestamp(secs, nanos).is_some()
            );
        }
    }
}

#[test]
fn differences_agree_with_chrono() {
    let moments = [
        (0, 0),
        (0, 999_999_999),
        (59, 1_500_000_000),
        (86_399, 1_000_000_000),
        (86_400, 1),
        (172_859, 1_999_999_999),
        (-1, 1_200_000_000),
        (-1, 5),
        (1_000_000, 7),
    ];
    for (a_secs, a_nanos) in moments {
        for (b_secs, b_nanos) in moments {
            let a = chrono::DateTime::from_timestamp(a_secs, a_nanos).unwrap();
            let b = chrono::DateTime::from_timestamp(b_secs, b_nanos).unwrap();
            let seconds = (a - b).num_seconds();
            let expected = if seconds > 0 { Some(seconds) } else { None };
            let reset = UtcInstant { secs: a_secs, nanos: a_nanos };
            let now = UtcInstant { secs: b_secs, nanos: b_nanos };
            assert_eq!(seconds_until(&Some(reset), &now), expected);
        }
    }
}

#[test]
fn places_are_searched_in_order_until_something_is_found() {
    assert_eq!(first_probe(), CredentialProbe::CredentialsFile);
    assert_eq!(
        after_probe(CredentialProbe::CredentialsFile, false),
        ProbeStep::Try(CredentialProbe::Keychain)
    );
    assert_eq!(
        after_probe(CredentialProbe::Keychain, false),
        ProbeStep::Try(CredentialProbe::Projects)
    );
    assert_eq!(
        after_probe(CredentialProbe::Projects, false),
        ProbeStep::Try(CredentialProbe::Transcripts)
    );
    assert_eq!(after_probe(CredentialProbe::Transcripts, false), ProbeStep::NotFound);
    assert_eq!(after_probe(CredentialProbe::Keychain, true), ProbeStep::Found);
}

#[test]
fn places_below_the_home_directory() {
    let path = |probe| probe_path(&profile(), probe);
    assert_eq!(
        path(CredentialProbe::CredentialsFile),
        Some((".acme".to_string(), ".credentials.json".to_string()))
    );
    assert_eq!(path(CredentialProbe::Keychain), None);
    assert_eq!(
        path(CredentialProbe::Projects),
        Some((".acme".to_string(), "projects".to_string()))
    );
    assert_eq!(
        path(CredentialProbe::Transcripts),
        Some((".acme".to_string(), "transcripts".to_string()))
    );
    assert_eq!(read_keychain(&profile()), "Acme-credentials");
}

#[test]
fn the_file_is_used_only_if_it_could_be_understood() {
    let parsed = FileOutcome::Parsed(Credentials { oauth: None });
    assert_eq!(
        read_credentials(parsed),
        ReadStep::Done(Credentials { oauth: None }, CredentialSource::File)
    );
    assert_eq!(read_credentials(FileOutcome::Missing), ReadStep::AskKeychain);
    assert_eq!(read_credentials(FileOutcome::Unreadable), ReadStep::AskKeychain);
    assert_eq!(read_credentials(FileOutcome::Malformed), ReadStep::AskKeychain);
}

#[test]
fn the_keychain_has_the_last_word() {
    let parsed: KeychainOutcome<&str> = KeychainOutcome::Parsed(Credentials { oauth: None });
    assert_eq!(
        read_keychain_credentials(parsed),
        Ok((Credentials { oauth: None }, CredentialSource::Keychain))
    );
    assert_eq!(read_keychain_credentials(KeychainOutcome::Failed("locked")), Err("locked"));
    assert_eq!(read_keychain_credentials(KeychainOutcome::Malformed("bad")), Err("bad"));
}

#[test]
fn plan_shows_the_subscription_and_the_end_of_the_tier() {
    assert_eq!(plan_label(&some("Max"), &some("default_max_5x")), some("Max 5x"));
    assert_eq!(plan_label(&some("Max"), &some("plain")), some("Max plain"));
    assert_eq!(plan_label(&some("Max"), &some("trailing_")), some("Max "));
    assert_eq!(plan_label(&some("Pro"), &None), some("Pro"));
    assert_eq!(plan_label(&None, &some("default_max_5x")), None);
}

#[test]
fn last_part_agrees_with_rsplit() {
    for text in ["", "_", "a", "a_b", "a_b_", "_a", "__", "\u{e9}_\u{fc}x", "\u{e9}"] {
        assert_eq!(last_part(text, '_'), text.rsplit('_').next().unwrap());
    }
}

#[test]
fn text_search_agrees_with_contains() {
    let texts = ["", "a", "ab", "aab", "abab", "NEEDS_AUTH", "xNEEDS_AUTHx", "NEEDS_AUT", "\u{e9}a"];
    for text in texts {
        for pattern in texts {
            assert_eq!(text_contains(text, pattern), text.contains(pattern));
        }
    }
}

#[test]
fn saved_credentials_read_back() {
    let content = save_credentials("at\"1", "rt\n2", &some("max"), &some("tier_5x"));
    let value: serde_json::Value = serde_json::from_str(&content).unwrap();
    let oauth = &value["claudeAiOauth"];
    assert_eq!(oauth["accessToken"], "at\"1");
    assert_eq!(oauth["refreshToken"], "rt\n2");
    assert_eq!(oauth["subscriptionType"], "max");
    assert_eq!(oauth["rateLimitTier"], "tier_5x");
    assert_eq!(oauth.as_object().unwrap().len(), 4);
    assert_eq!(value.as_object().unwrap().len(), 1);

    let content = save_credentials("a", "r", &None, &None);
    assert_eq!(
        content,
        "{\n  \"claudeAiOauth\": {\n    \"accessToken\": \"a\",\n    \"refreshToken\": \"r\"\n  }\n}"
    );
}

#[test]
fn saved_logins_are_read_back_text_for_text() {
    let odd = "\"\\\n\u{0}\u{1f600}\u{e9}accessToken";
    for (subscription_type, rate_limit_tier) in
        [(None, None), (some(odd), None), (None, some("")), (some("max"), some(odd))]
    {
        let document = save_credentials(odd, "", &subscription_type, &rate_limit_tier);
        let login = login_texts(&document);
        assert_eq!(
            login,
            Oauth {
                access_token: some(odd),
                refresh_token: some(""),
                subscription_type,
                rate_limit_tier,
            }
        );
        // The file comes first, whatever the keychain would say.
        let file = FileOutcome::Parsed(Credentials { oauth: Some(login) });
        let ReadStep::Done(credentials, source) = read_credentials(file) else {
            panic!("the file was not used");
        };
        assert_eq!(source, CredentialSource::File);
        assert_eq!(credentials.oauth.unwrap().access_token, some(odd));
    }
}

#[test]
fn what_is_no_text_is_left_out_of_a_login() {
    let nothing = || Oauth {
        access_token: None,
        refresh_token: None,
        subscription_type: None,
        rate_limit_tier: None,
    };
    for document in ["", "{}", "[1]", "not json", "{\"claudeAiOauth\": null}"] {
        assert_eq!(login_texts(document), nothing());
    }
    let document = "{\"claudeAiOauth\": {\"accessToken\": 7, \"refreshToken\": \"r\"}, \"x\": 1}";
    assert_eq!(login_texts(document), Oauth { refresh_token: some("r"), ..nothing() });
}

#[test]
fn credential_fields_in_order() {
    let pair = |name: &str, text: &str| (name.to_string(), text.to_string());
    assert_eq!(
        credential_fields("a", "r", &None, &some("t")),
        vec![pair("accessToken", "a"), pair("refreshToken", "r"), pair("rateLimitTier", "t")]
    );
}

#[test]
fn requests_carry_their_tokens() {
    let request = usage_request("tok");
    assert_eq!(request.url, "https://api.anthropic.com/api/oauth/usage");
    assert_eq!(request.headers[0], ("Authorization".to_string(), "Bearer tok".to_string()));
    assert_eq!(
        request.headers[3],
        ("anthropic-beta".to_string(), "oauth-2025-04-20".to_string())
    );
    assert_eq!(request.headers.len(), 4);

    let request = refresh_request(&profile(), "old");
    assert_eq!(request.url, "https://example.com/oauth/token");
    assert_eq!(request.headers.len(), 1);
    assert_eq!(request.body[0], ("grant_type".to_string(), "refresh_token".to_string()));
    assert_eq!(request.body[1], ("refresh_token".to_string(), "old".to_string()));
    assert_eq!(
        request.body[2],
        ("client_id".to_string(), "9d1c250a-e61b-44d9-88ed-5944d1962f5e".to_string())
    );
    assert_eq!(request.body.len(), 4);
}

#[test]
fn replies_are_read_by_their_status() {
    let usage = |status| usage_status(&profile(), status);
    assert_eq!(usage(200), ReplyStatus::Success);
    assert_eq!(usage(299), ReplyStatus::Success);
    let failed = |reason: &str| ReplyStatus::Failed(reason.to_string());
    assert_eq!(usage(401), failed("NEEDS_AUTH"));
    assert_eq!(usage(403), failed("NEEDS_AUTH"));
    assert_eq!(usage(429), failed("Acme usage request failed (HTTP 429 Too Many Requests)"));
    assert_eq!(usage(199), failed("Acme usage request failed (HTTP 199 <unknown status code>)"));
    assert_eq!(usage(300), failed("Acme usage request failed (HTTP 300 Multiple Choices)"));
    assert_eq!(usage(999), failed("Acme usage request failed (HTTP 999 <unknown status code>)"));
    let refresh = |status| refresh_status(&profile(), status);
    assert_eq!(refresh(201), ReplyStatus::Success);
    assert_eq!(refresh(100), failed("Acme token refresh failed (HTTP 100 Continue)"));
    assert_eq!(refresh(401), failed("Acme token refresh failed (HTTP 401 Unauthorized)"));
    assert!(asks_for_refresh("NEEDS_AUTH"));
    assert!(asks_for_refresh("caused by: NEEDS_AUTH (1)"));
    assert!(!asks_for_refresh("429 Too Many Requests"));
}

fn oauth(access: Option<&str>, refresh: Option<&str>) -> Oauth {
    Oauth {
        access_token: access.map(str::to_string),
        refresh_token: refresh.map(str::to_string),
        subscription_type: some("max"),
        rate_limit_tier: some("tier_5x"),
    }
}

fn waiting_for_usage(refresh: Option<&str>) -> FetchState {
    FetchState::Usage {
        oauth: oauth(Some("at"), refresh),
        plan: some("Max 5x"),
    }
}

fn failed(reason: &str) -> FetchEvent {
    FetchEvent::UsageFailed {
        reason: reason.to_string(),
    }
}

#[test]
fn the_plan_is_that_of_the_login() {
    let read = |oauth| credentials_read(Credentials { oauth }, "Max".to_string());
    assert_eq!(
        read(Some(oauth(Some("at"), None))),
        FetchEvent::CredentialsRead {
            oauth: Some(oauth(Some("at"), None)),
            plan: some("Max 5x"),
        }
    );
    let unnamed = || Oauth {
        subscription_type: None,
        ..oauth(Some("at"), None)
    };
    assert_eq!(
        read(Some(unnamed())),
        FetchEvent::CredentialsRead { oauth: Some(unnamed()), plan: None }
    );
    assert_eq!(read(None), FetchEvent::CredentialsRead { oauth: None, plan: None });

    // It is shown in the end, also after the token was renewed.
    let (state, _) = step(
        FetchState::Credentials,
        read(Some(oauth(Some("at"), Some("rt")))),
        false,
    );
    let (state, _) = step(state, failed("NEEDS_AUTH"), false);
    let renewed = FetchEvent::Refreshed {
        access_token: some("at2"),
        refresh_token: None,
    };
    let (state, _) = step(state, renewed, false);
    assert_eq!(
        step(state, FetchEvent::UsageFetched, false).1,
        FetchAction::ShowReport { plan: some("Max 5x") }
    );
}

#[test]
fn a_course_without_credentials() {
    let run = |local| step(FetchState::Credentials, FetchEvent::CredentialsFailed, local);
    assert_eq!(run(true), (FetchState::Done, FetchAction::ShowLocal { plan: None }));
    assert_eq!(run(false), (FetchState::Done, FetchAction::FailWithCause));

    let run = |local| {
        let read = FetchEvent::CredentialsRead { oauth: None, plan: None };
        step(FetchState::Credentials, read, local)
    };
    assert_eq!(run(true).1, FetchAction::ShowLocal { plan: None });
    assert_eq!(run(false).1, FetchAction::Fail(FetchError::NoOauth));

    let read = FetchEvent::CredentialsRead {
        oauth: Some(oauth(None, Some("rt"))),
        plan: some("Max 5x"),
    };
    assert_eq!(
        step(FetchState::Credentials, read, true).1,
        FetchAction::Fail(FetchError::NoAccessToken)
    );
}

#[test]
fn a_course_that_succeeds_at_once() {
    let read = FetchEvent::CredentialsRead {
        oauth: Some(oauth(Some("at"), Some("rt"))),
        plan: some("Max 5x"),
    };
    let (state, action) = step(FetchState::Credentials, read, false);
    assert_eq!(state, waiting_for_usage(Some("rt")));
    assert_eq!(
        action,
        FetchAction::FetchUsage { save: None, access_token: "at".to_string() }
    );
    assert_eq!(
        step(state, FetchEvent::UsageFetched, false),
        (FetchState::Done, FetchAction::ShowReport { plan: some("Max 5x") })
    );
}

#[test]
fn a_course_with_a_renewed_token() {
    let (state, action) = step(waiting_for_usage(Some("rt")), failed("NEEDS_AUTH"), true);
    assert_eq!(action, FetchAction::RefreshToken { refresh_token: "rt".to_string() });
    let renewed = FetchEvent::Refreshed { access_token: some("at2"), refresh_token: some("rt2") };
    let (state, action) = step(state, renewed, true);
    assert_eq!(
        action,
        FetchAction::FetchUsage {
            save: Some(RenewedLogin {
                access_token: "at2".to_string(),
                refresh_token: "rt2".to_string(),
                subscription_type: some("max"),
                rate_limit_tier: some("tier_5x"),
            }),
            access_token: "at2".to_string(),
        }
    );
    assert_eq!(state, FetchState::Retry { plan: some("Max 5x") });
    assert_eq!(
        step(state, failed("NEEDS_AUTH"), true),
        (FetchState::Done, FetchAction::FailWithCause)
    );
}

#[test]
fn a_renewal_that_goes_wrong() {
    let refreshing = || FetchState::Refresh {
        oauth: oauth(Some("at"), Some("rt")),
        plan: None,
    };
    assert_eq!(
        step(waiting_for_usage(None), failed("NEEDS_AUTH"), true).1,
        FetchAction::Fail(FetchError::NoRefreshToken)
    );
    assert_eq!(
        step(refreshing(), FetchEvent::RefreshFailed, true).1,
        FetchAction::FailWithCause
    );
    let nothing = FetchEvent::Refreshed { access_token: None, refresh_token: some("rt2") };
    assert_eq!(
        step(refreshing(), nothing, true).1,
        FetchAction::Fail(FetchError::NoTokenFromRefresh)
    );
    let kept = FetchEvent::Refreshed { access_token: some("at2"), refresh_token: None };
    assert_eq!(
        step(refreshing(), kept, true),
        (
            FetchState::Retry { plan: None },
            FetchAction::FetchUsage { save: None, access_token: "at2".to_string() }
        )
    );
}

#[test]
fn other_failures_fall_back_to_local_metrics() {
    let run = |local| step(waiting_for_usage(Some("rt")), failed("timed out"), local).1;
    assert_eq!(run(true), FetchAction::ShowLocal { plan: some("Max 5x") });
    assert_eq!(run(false), FetchAction::FailWithCause);
}

#[test]
fn errors_in_words() {
    let text = |error: FetchError| error.message(&profile());
    assert_eq!(
        text(FetchError::NoOauth),
        "No Acme OAuth credentials. Run 'acme' to log in."
    );
    assert_eq!(text(FetchError::NoAccessToken), "No Acme access token.");
    assert_eq!(text(FetchError::NoRefreshToken), "No refresh token.");
    assert_eq!(text(FetchError::NoTokenFromRefresh), "Refresh returned no token.");
}
