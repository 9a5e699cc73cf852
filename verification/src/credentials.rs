//! Stored credentials: where they are looked for, which are used, and how new ones
//! are written down.

use vstd::prelude::*;

use crate::profile::ServiceProfile;
use crate::text::{after_last, join3, last_part, law_after_last_is_the_last_part, text_view};

verus! {

/// The keychain entry to read the credentials from.
pub fn read_keychain(profile: &ServiceProfile) -> (service: String)
    ensures
        service@ == profile.keychain_service@,
{
    profile.keychain_service.clone()
}

/// A place where credentials, or traces of the client, may be found.
#[derive(Debug, Clone, Copy, PartialEq, Eq, Structural)]
pub enum CredentialProbe {
    CredentialsFile,
    Keychain,
    Projects,
    Transcripts,
}

/// What to do after a place was looked at.
#[derive(Debug, Clone, Copy, PartialEq, Eq, Structural)]
pub enum ProbeStep {
    Found,
    Try(CredentialProbe),
    NotFound,
}

/// The place that is looked at after another one, if any is.
pub open spec fn place_after(probe: CredentialProbe) -> Option<CredentialProbe> {
    match probe {
        CredentialProbe::CredentialsFile => Some(CredentialProbe::Keychain),
        CredentialProbe::Keychain => Some(CredentialProbe::Projects),
        CredentialProbe::Projects => Some(CredentialProbe::Transcripts),
        CredentialProbe::Transcripts => None,
    }
}

/// The first place to look at.
pub fn first_probe() -> (probe: CredentialProbe)
    ensures
        probe == CredentialProbe::CredentialsFile,
{
    CredentialProbe::CredentialsFile
}

/// Goes on to the next place until something was found.
pub open spec fn probe_step(probe: CredentialProbe, hit: bool) -> ProbeStep {
    if hit {
        ProbeStep::Found
    } else {
        match place_after(probe) {
            Some(next) => ProbeStep::Try(next),
            None => ProbeStep::NotFound,
        }
    }
}

/// What to do after a place was looked at, where `hit` says whether something was
/// found there.
pub fn after_probe(probe: CredentialProbe, hit: bool) -> (step: ProbeStep)
    ensures
        step == probe_step(probe, hit),
{
    if hit {
        return ProbeStep::Found;
    }
    match probe {
        CredentialProbe::CredentialsFile => ProbeStep::Try(CredentialProbe::Keychain),
        CredentialProbe::Keychain => ProbeStep::Try(CredentialProbe::Projects),
        CredentialProbe::Projects => ProbeStep::Try(CredentialProbe::Transcripts),
        CredentialProbe::Transcripts => ProbeStep::NotFound,
    }
}

/// How many places are looked at from here on.
pub open spec fn places_left(probe: CredentialProbe) -> nat {
    match probe {
        CredentialProbe::CredentialsFile => 4,
        CredentialProbe::Keychain => 3,
        CredentialProbe::Projects => 2,
        CredentialProbe::Transcripts => 1,
    }
}

/// Whether looking from `probe` on finds something, where `hits` says what each
/// place holds.
pub open spec fn search_from(probe: CredentialProbe, hits: spec_fn(CredentialProbe) -> bool) -> bool
    decreases places_left(probe),
{
    match probe_step(probe, hits(probe)) {
        ProbeStep::Found => true,
        ProbeStep::Try(next) => search_from(next, hits),
        ProbeStep::NotFound => false,
    }
}

/// The search finds something exactly if one of the four places holds something.
pub proof fn law_search_finds_any_place(hits: spec_fn(CredentialProbe) -> bool)
    ensures
        search_from(CredentialProbe::CredentialsFile, hits) <==> {
            ||| hits(CredentialProbe::CredentialsFile)
            ||| hits(CredentialProbe::Keychain)
            ||| hits(CredentialProbe::Projects)
            ||| hits(CredentialProbe::Transcripts)
        },
{
    reveal_with_fuel(search_from, 5);
}

/// The name of a place below the client's directory; the keychain has none.
pub open spec fn place_name(probe: CredentialProbe) -> Option<Seq<char>> {
    match probe {
        CredentialProbe::CredentialsFile => Some(".credentials.json"@),
        CredentialProbe::Keychain => None,
        CredentialProbe::Projects => Some("projects"@),
        CredentialProbe::Transcripts => Some("transcripts"@),
    }
}

/// The two parts of a place's path below the home directory: the client's directory
/// and the name in it.
pub fn probe_path(profile: &ServiceProfile, probe: CredentialProbe) -> (path: Option<
    (String, String),
>)
    ensures
        match path {
            Some(path) => path.0@ == profile.config_dir@ && place_name(probe) == Some(path.1@),
            None => place_name(probe) is None,
        },
{
    let name = match probe {
        CredentialProbe::CredentialsFile => ".credentials.json",
        CredentialProbe::Keychain => {
            return None;
        },
        CredentialProbe::Projects => "projects",
        CredentialProbe::Transcripts => "transcripts",
    };
    Some((profile.config_dir.clone(), name.to_owned()))
}

/// The tokens and the plan of a logged-in user.
#[derive(Debug, PartialEq, Eq)]
pub struct Oauth {
    pub access_token: Option<String>,
    pub refresh_token: Option<String>,
    pub subscription_type: Option<String>,
    pub rate_limit_tier: Option<String>,
}

/// Stored credentials.
#[derive(Debug, PartialEq, Eq)]
pub struct Credentials {
    pub oauth: Option<Oauth>,
}

/// Where credentials came from.
#[derive(Debug, Clone, Copy, PartialEq, Eq, Structural)]
pub enum CredentialSource {
    File,
    Keychain,
}

/// What became of the attempt to read the credentials file.
#[derive(Debug, PartialEq, Eq)]
pub enum FileOutcome {
    Missing,
    Unreadable,
    Malformed,
    Parsed(Credentials),
}

/// What to do after the credentials file was tried.
#[derive(Debug, PartialEq, Eq)]
pub enum ReadStep {
    Done(Credentials, CredentialSource),
    AskKeychain,
}

/// The credentials file is used if it could be read and understood; otherwise the
/// keychain is asked.
pub open spec fn file_step(file: FileOutcome) -> ReadStep {
    match file {
        FileOutcome::Parsed(credentials) => ReadStep::Done(credentials, CredentialSource::File),
        _ => ReadStep::AskKeychain,
    }
}

/// Decides whether the credentials file is used.
pub fn read_credentials(file: FileOutcome) -> (step: ReadStep)
    ensures
        step == file_step(file),
{
    match file {
        FileOutcome::Parsed(credentials) => ReadStep::Done(credentials, CredentialSource::File),
        _ => ReadStep::AskKeychain,
    }
}

/// What became of the attempt to read the keychain; a failure comes with its error.
#[derive(Debug, PartialEq, Eq)]
pub enum KeychainOutcome<E> {
    Failed(E),
    Malformed(E),
    Parsed(Credentials),
}

/// The keychain's answer is final: its credentials, or the error that came with it.
pub open spec fn keychain_result<E>(keychain: KeychainOutcome<E>) -> Result<
    (Credentials, CredentialSource),
    E,
> {
    match keychain {
        KeychainOutcome::Failed(error) => Err(error),
        KeychainOutcome::Malformed(error) => Err(error),
        KeychainOutcome::Parsed(credentials) => Ok((credentials, CredentialSource::Keychain)),
    }
}

/// Takes the keychain's answer.
pub fn read_keychain_credentials<E>(keychain: KeychainOutcome<E>) -> (result: Result<
    (Credentials, CredentialSource),
    E,
>)
    ensures
        result == keychain_result(keychain),
{
    match keychain {
        KeychainOutcome::Failed(error) => Err(error),
        KeychainOutcome::Malformed(error) => Err(error),
        KeychainOutcome::Parsed(credentials) => Ok((credentials, CredentialSource::Keychain)),
    }
}

/// What reading the credentials comes to: the file is tried first, and the keychain
/// where the file does not settle it.
pub open spec fn credentials_found<E>(file: FileOutcome, keychain: KeychainOutcome<E>) -> Result<
    (Credentials, CredentialSource),
    E,
> {
    match file_step(file) {
        ReadStep::Done(credentials, source) => Ok((credentials, source)),
        ReadStep::AskKeychain => keychain_result(keychain),
    }
}

/// A file that could be understood is used whatever the keychain holds, even if it
/// holds no login; a bad file alone is never an error.
pub proof fn law_file_comes_first<E>(file: FileOutcome, keychain: KeychainOutcome<E>)
    ensures
        file matches FileOutcome::Parsed(credentials) ==> credentials_found(file, keychain) == Ok::<
            (Credentials, CredentialSource),
            E,
        >((credentials, CredentialSource::File)),
        !(file is Parsed) ==> credentials_found(file, keychain) == keychain_result(keychain),
        credentials_found(file, keychain) is Err <==> !(file is Parsed) && !(keychain is Parsed),
{
}

/// The plan as it is shown: the capitalized subscription type, followed by the last
/// part of the rate limit tier if there is one.
pub open spec fn plan_text(
    subscription: Option<Seq<char>>,
    rate_limit_tier: Option<Seq<char>>,
) -> Option<Seq<char>> {
    match (subscription, rate_limit_tier) {
        (None, _) => None,
        (Some(subscription), None) => Some(subscription),
        (Some(subscription), Some(tier)) => Some(subscription + " "@ + after_last(tier, '_')),
    }
}

/// The plan as it is shown, from the capitalized subscription type.
pub fn plan_label(subscription: &Option<String>, rate_limit_tier: &Option<String>) -> (plan: Option<
    String,
>)
    ensures
        text_view(plan) == plan_text(text_view(*subscription), text_view(*rate_limit_tier)),
{
    match subscription {
        Some(subscription) => match rate_limit_tier {
            Some(tier) => Some(
                join3(subscription.as_str(), " ", last_part(tier.as_str(), '_').as_str()),
            ),
            None => Some(subscription.clone()),
        },
        None => None,
    }
}

/// Named texts as they are written down.
pub open spec fn field_views(fields: Seq<(String, String)>) -> Seq<(Seq<char>, Seq<char>)> {
    Seq::new(fields.len(), |i: int| (fields[i].0@, fields[i].1@))
}

/// A named text, where there is one.
pub open spec fn optional_field(name: Seq<char>, text: Option<Seq<char>>) -> Seq<
    (Seq<char>, Seq<char>),
> {
    match text {
        Some(text) => seq![(name, text)],
        None => Seq::empty(),
    }
}

/// What is written down of a login: both tokens, and what is known of the plan.
pub open spec fn credential_field_views(
    access_token: Seq<char>,
    refresh_token: Seq<char>,
    subscription_type: Option<Seq<char>>,
    rate_limit_tier: Option<Seq<char>>,
) -> Seq<(Seq<char>, Seq<char>)> {
    seq![("accessToken"@, access_token), ("refreshToken"@, refresh_token)] + optional_field(
        "subscriptionType"@,
        subscription_type,
    ) + optional_field("rateLimitTier"@, rate_limit_tier)
}

/// Lists what is written down of a login.
pub fn credential_fields(
    access_token: &str,
    refresh_token: &str,
    subscription_type: &Option<String>,
    rate_limit_tier: &Option<String>,
) -> (fields: Vec<(String, String)>)
    ensures
        field_views(fields@) == credential_field_views(
            access_token@,
            refresh_token@,
            text_view(*subscription_type),
            text_view(*rate_limit_tier),
        ),
{
    let mut fields: Vec<(String, String)> = Vec::new();
    fields.push(("accessToken".to_owned(), access_token.to_owned()));
    fields.push(("refreshToken".to_owned(), refresh_token.to_owned()));
    let ghost tokens = fields@;
    assert(field_views(tokens) =~= seq![
        ("accessToken"@, access_token@),
        ("refreshToken"@, refresh_token@),
    ]);
    if let Some(subscription_type) = subscription_type {
        fields.push(("subscriptionType".to_owned(), subscription_type.clone()));
    }
    assert(field_views(fields@) =~= field_views(tokens) + optional_field(
        "subscriptionType"@,
        text_view(*subscription_type),
    ));
    let ghost with_type = fields@;
    if let Some(rate_limit_tier) = rate_limit_tier {
        fields.push(("rateLimitTier".to_owned(), rate_limit_tier.clone()));
    }
    assert(field_views(fields@) =~= field_views(with_type) + optional_field(
        "rateLimitTier"@,
        text_view(*rate_limit_tier),
    ));
    fields
}

/// The error type of `serde_json`.
#[verifier::external_type_specification]
#[verifier::external_body]
pub struct ExJsonError(serde_json::Error);

/// The text of a JSON object whose only member, `key`, is an object of the named
/// texts.
pub uninterp spec fn pretty_object(key: Seq<char>, fields: Seq<(Seq<char>, Seq<char>)>) -> Seq<char>;

/// The text that a JSON document holds under `name`, in the object that it holds
/// under `key`; nothing where there is no such text.
pub uninterp spec fn json_text_at(document: Seq<char>, key: Seq<char>, name: Seq<char>) -> Option<
    Seq<char>,
>;

/// The text with the given name; the last one if there are several.
pub open spec fn field_text(fields: Seq<(Seq<char>, Seq<char>)>, name: Seq<char>) -> Option<Seq<char>>
    decreases fields.len(),
{
    if fields.len() == 0 {
        None
    } else if fields.last().0 == name {
        Some(fields.last().1)
    } else {
        field_text(fields.drop_last(), name)
    }
}

/// Calls `serde_json::to_string_pretty` on an object whose only member, `key`, is an
/// object of the named texts. The contract claims that this succeeds, since an object
/// of texts always can be written, and that reading the document gives back each text
/// under its name and nothing under other names. It names the document, a function of
/// the key and the fields alone; its layout is not stated.
#[verifier::external_body]
fn write_pretty_object(key: &str, fields: Vec<(String, String)>) -> (document: Result<
    String,
    serde_json::Error,
>)
    ensures
        document matches Ok(document) && document@ == pretty_object(key@, field_views(fields@)),
        document matches Ok(document) ==> forall|name: Seq<char>| #[trigger]
            json_text_at(document@, key@, name) == field_text(field_views(fields@), name),
{
    let members: serde_json::Value = fields.into_iter().collect();
    let object: serde_json::Value = [(key, members)].into_iter().collect();
    serde_json::to_string_pretty(&object)
}

/// Calls `serde_json::from_str` and looks up one text in the result with
/// `serde_json::Value::get` and `serde_json::Value::as_str`. The contract gives the
/// result a name, a function of the document and the two names alone.
#[verifier::external_body]
fn read_json_text(document: &str, key: &str, name: &str) -> (text: Option<String>)
    ensures
        text_view(text) == json_text_at(document@, key@, name@),
{
    let object: serde_json::Value = serde_json::from_str(document).ok()?;
    object.get(key)?.get(name)?.as_str().map(str::to_owned)
}

/// The texts of a login.
#[verifier::ext_equal]
pub struct OauthView {
    pub access_token: Option<Seq<char>>,
    pub refresh_token: Option<Seq<char>>,
    pub subscription_type: Option<Seq<char>>,
    pub rate_limit_tier: Option<Seq<char>>,
}

impl View for Oauth {
    type V = OauthView;

    open spec fn view(&self) -> OauthView {
        OauthView {
            access_token: text_view(self.access_token),
            refresh_token: text_view(self.refresh_token),
            subscription_type: text_view(self.subscription_type),
            rate_limit_tier: text_view(self.rate_limit_tier),
        }
    }
}

/// The texts of the login in a credentials document.
pub open spec fn login_in(document: Seq<char>) -> OauthView {
    let at = |name: Seq<char>| json_text_at(document, "claudeAiOauth"@, name);
    OauthView {
        access_token: at("accessToken"@),
        refresh_token: at("refreshToken"@),
        subscription_type: at("subscriptionType"@),
        rate_limit_tier: at("rateLimitTier"@),
    }
}

/// Reads the texts of the login in a credentials document; what is missing, or is
/// not a text, is left out.
pub fn login_texts(document: &str) -> (login: Oauth)
    ensures
        login@ == login_in(document@),
{
    Oauth {
        access_token: read_json_text(document, "claudeAiOauth", "accessToken"),
        refresh_token: read_json_text(document, "claudeAiOauth", "refreshToken"),
        subscription_type: read_json_text(document, "claudeAiOauth", "subscriptionType"),
        rate_limit_tier: read_json_text(document, "claudeAiOauth", "rateLimitTier"),
    }
}

/// The content of the credentials file after a login was renewed. Reading it gives
/// back the same login.
pub fn save_credentials(
    access_token: &str,
    refresh_token: &str,
    subscription_type: &Option<String>,
    rate_limit_tier: &Option<String>,
) -> (document: String)
    ensures
        document@ == pretty_object(
            "claudeAiOauth"@,
            credential_field_views(
                access_token@,
                refresh_token@,
                text_view(*subscription_type),
                text_view(*rate_limit_tier),
            ),
        ),
        login_in(document@) == (OauthView {
            access_token: Some(access_token@),
            refresh_token: Some(refresh_token@),
            subscription_type: text_view(*subscription_type),
            rate_limit_tier: text_view(*rate_limit_tier),
        }),
{
    let fields = credential_fields(access_token, refresh_token, subscription_type, rate_limit_tier);
    proof {
        lemma_fields_are_found(
            access_token@,
            refresh_token@,
            text_view(*subscription_type),
            text_view(*rate_limit_tier),
        );
    }
    write_pretty_object("claudeAiOauth", fields).unwrap()
}

/// Each name finds its own text among what is written down.
proof fn lemma_fields_are_found(
    access_token: Seq<char>,
    refresh_token: Seq<char>,
    subscription_type: Option<Seq<char>>,
    rate_limit_tier: Option<Seq<char>>,
)
    ensures
        ({
            let fields = credential_field_views(
                access_token,
                refresh_token,
                subscription_type,
                rate_limit_tier,
            );
            &&& field_text(fields, "accessToken"@) == Some(access_token)
            &&& field_text(fields, "refreshToken"@) == Some(refresh_token)
            &&& field_text(fields, "subscriptionType"@) == subscription_type
            &&& field_text(fields, "rateLimitTier"@) == rate_limit_tier
        }),
{
    reveal_strlit("accessToken");
    reveal_strlit("refreshToken");
    reveal_strlit("subscriptionType");
    reveal_strlit("rateLimitTier");
    assert("accessToken"@.len() == 11);
    assert("refreshToken"@.len() == 12);
    assert("subscriptionType"@.len() == 16);
    assert("rateLimitTier"@.len() == 13);
    reveal_with_fuel(field_text, 5);
    let none = Seq::<(Seq<char>, Seq<char>)>::empty();
    let access = none.push(("accessToken"@, access_token));
    let tokens = access.push(("refreshToken"@, refresh_token));
    assert(access.drop_last() =~= none);
    assert(tokens.drop_last() =~= access);
    assert(tokens =~= seq![("accessToken"@, access_token), ("refreshToken"@, refresh_token)]);
    let typed = match subscription_type {
        Some(text) => tokens.push(("subscriptionType"@, text)),
        None => tokens,
    };
    assert(typed =~= tokens + optional_field("subscriptionType"@, subscription_type));
    if subscription_type is Some {
        assert(typed.drop_last() =~= tokens);
    }
    let fields = match rate_limit_tier {
        Some(text) => typed.push(("rateLimitTier"@, text)),
        None => typed,
    };
    assert(fields =~= typed + optional_field("rateLimitTier"@, rate_limit_tier));
    if rate_limit_tier is Some {
        assert(fields.drop_last() =~= typed);
    }
}

/// The credentials hold the login of a document, text for text.
pub open spec fn holds_login_of(credentials: Credentials, document: Seq<char>) -> bool {
    credentials.oauth matches Some(oauth) && oauth@ == login_in(document)
}

/// A saved login is read back: once a document that holds `login` was understood as
/// credentials with the login of that document, reading gives that login, from the
/// file, whatever the keychain holds.
pub proof fn law_saved_login_is_read_back<E>(
    document: Seq<char>,
    login: OauthView,
    credentials: Credentials,
    keychain: KeychainOutcome<E>,
)
    requires
        login_in(document) == login,
        holds_login_of(credentials, document),
    ensures
        credentials_found(FileOutcome::Parsed(credentials), keychain) matches Ok((found, source))
            && source == CredentialSource::File && (found.oauth matches Some(oauth) && oauth@
            == login),
{
}

/// No name is written down twice.
pub proof fn law_field_names_are_distinct(
    access_token: Seq<char>,
    refresh_token: Seq<char>,
    subscription_type: Option<Seq<char>>,
    rate_limit_tier: Option<Seq<char>>,
    i: int,
    j: int,
)
    requires
        0 <= i < j < credential_field_views(
            access_token,
            refresh_token,
            subscription_type,
            rate_limit_tier,
        ).len(),
    ensures
        ({
            let fields = credential_field_views(
                access_token,
                refresh_token,
                subscription_type,
                rate_limit_tier,
            );
            fields[i].0 != fields[j].0
        }),
{
    reveal_strlit("accessToken");
    reveal_strlit("refreshToken");
    reveal_strlit("subscriptionType");
    reveal_strlit("rateLimitTier");
    assert("accessToken"@.len() == 11);
    assert("refreshToken"@.len() == 12);
    assert("subscriptionType"@.len() == 16);
    assert("rateLimitTier"@.len() == 13);
}

/// What is written down of a login, name by name.
pub proof fn law_saved_fields(
    access_token: Seq<char>,
    refresh_token: Seq<char>,
    subscription_type: Option<Seq<char>>,
    rate_limit_tier: Option<Seq<char>>,
)
    ensures
        ({
            let fields = credential_field_views(
                access_token,
                refresh_token,
                subscription_type,
                rate_limit_tier,
            );
            let typed = if subscription_type is Some {
                1int
            } else {
                0
            };
            &&& fields.len() == 2 + typed + if rate_limit_tier is Some {
                1int
            } else {
                0
            }
            &&& fields[0] == ("accessToken"@, access_token)
            &&& fields[1] == ("refreshToken"@, refresh_token)
            &&& subscription_type matches Some(text) ==> fields[2] == ("subscriptionType"@, text)
            &&& rate_limit_tier matches Some(text) ==> fields[2 + typed] == ("rateLimitTier"@, text)
        }),
{
}

/// Where the texts of a login stand in a document.
pub proof fn law_login_texts_by_name(document: Seq<char>)
    ensures
        ({
            let login = login_in(document);
            let key = "claudeAiOauth"@;
            &&& login.access_token == json_text_at(document, key, "accessToken"@)
            &&& login.refresh_token == json_text_at(document, key, "refreshToken"@)
            &&& login.subscription_type == json_text_at(document, key, "subscriptionType"@)
            &&& login.rate_limit_tier == json_text_at(document, key, "rateLimitTier"@)
        }),
{
}

/// A file that could be understood settles the matter with what it holds; any other
/// leads to the keychain, whose credentials or error are final.
pub proof fn law_credentials_by_outcome<E>(file: FileOutcome, keychain: KeychainOutcome<E>)
    ensures
        match file {
            FileOutcome::Parsed(credentials) => file_step(file) == ReadStep::Done(
                credentials,
                CredentialSource::File,
            ),
            FileOutcome::Missing => file_step(file) is AskKeychain,
            FileOutcome::Unreadable => file_step(file) is AskKeychain,
            FileOutcome::Malformed => file_step(file) is AskKeychain,
        },
        match keychain {
            KeychainOutcome::Parsed(credentials) => keychain_result(keychain) == Ok::<
                (Credentials, CredentialSource),
                E,
            >((credentials, CredentialSource::Keychain)),
            KeychainOutcome::Failed(error) => keychain_result(keychain) == Err::<
                (Credentials, CredentialSource),
                E,
            >(error),
            KeychainOutcome::Malformed(error) => keychain_result(keychain) == Err::<
                (Credentials, CredentialSource),
                E,
            >(error),
        },
{
}

/// Anything found ends the search. Otherwise it goes from the credentials file to the
/// keychain, the projects and the transcripts, and ends there.
pub proof fn law_search_order(probe: CredentialProbe)
    ensures
        probe_step(probe, true) is Found,
        probe_step(CredentialProbe::CredentialsFile, false) == ProbeStep::Try(
            CredentialProbe::Keychain,
        ),
        probe_step(CredentialProbe::Keychain, false) == ProbeStep::Try(CredentialProbe::Projects),
        probe_step(CredentialProbe::Projects, false) == ProbeStep::Try(
            CredentialProbe::Transcripts,
        ),
        probe_step(CredentialProbe::Transcripts, false) is NotFound,
        place_name(CredentialProbe::CredentialsFile) == Some(".credentials.json"@),
        place_name(CredentialProbe::Keychain) is None,
        place_name(CredentialProbe::Projects) == Some("projects"@),
        place_name(CredentialProbe::Transcripts) == Some("transcripts"@),
{
}

/// The plan is the subscription alone where no tier is known; otherwise it is followed
/// by a space and what stands behind the last underscore of the tier, or the whole
/// tier if it has none. Without a subscription there is no plan.
pub proof fn law_plan_in_words(
    subscription: Seq<char>,
    tier: Option<Seq<char>>,
    before: Seq<char>,
    part: Seq<char>,
)
    requires
        !part.contains('_'),
    ensures
        plan_text(None, tier) is None,
        plan_text(Some(subscription), None) == Some(subscription),
        plan_text(Some(subscription), Some(part)) == Some(subscription + " "@ + part),
        plan_text(Some(subscription), Some(before + seq!['_'] + part)) == Some(
            subscription + " "@ + part,
        ),
{
    let tier = before + seq!['_'] + part;
    let start = (before.len() + 1) as int;
    assert(part.skip(0) =~= part);
    assert(tier.skip(start) =~= part);
    lemma_part_is_last(part, 0);
    lemma_part_is_last(tier, start);
}

/// A text without underscores behind the start, or behind an underscore, is the last
/// part.
proof fn lemma_part_is_last(text: Seq<char>, start: int)
    requires
        0 <= start <= text.len(),
        !text.skip(start).contains('_'),
        start == 0 || text[start - 1] == '_',
    ensures
        after_last(text, '_') == text.skip(start),
{
    let part = after_last(text, '_');
    let at = text.len() - part.len();
    law_after_last_is_the_last_part(text, '_');
    if at > start {
        assert(text.skip(start)[at - 1 - start] == '_');
    }
    if at < start {
        assert(part[start - 1 - at] == '_');
    }
}

/// Named texts are viewed one by one, name and text in their places.
pub proof fn law_field_views(fields: Seq<(String, String)>)
    ensures
        field_views(fields).len() == fields.len(),
        forall|i: int|
            0 <= i < fields.len() ==> (#[trigger] field_views(fields)[i]).0 == fields[i].0@
                && field_views(fields)[i].1 == fields[i].1@,
{
}

/// A login is viewed text by text.
pub proof fn law_login_view(login: Oauth)
    ensures
        login@.access_token == match login.access_token {
            Some(text) => Some(text@),
            None => None,
        },
        login@.refresh_token == match login.refresh_token {
            Some(text) => Some(text@),
            None => None,
        },
        login@.subscription_type == match login.subscription_type {
            Some(text) => Some(text@),
            None => None,
        },
        login@.rate_limit_tier == match login.rate_limit_tier {
            Some(text) => Some(text@),
            None => None,
        },
{
}

} // verus!
