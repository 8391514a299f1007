//! Authentication: where a GitHub token comes from, and the OAuth device flow by
//! which a new one is obtained.

use crate::github::{
    outcome_text, user_agent, user_agent_text, Exchange, Method, Request, RequestModel,
};
use crate::json::{
    count_in, entries, entry, json_count, json_member, member_of, members_are_read_in_their_places,
    object_of, outcome_nodes, parse_json, parsed_json, render_object, text_member, text_member_of,
    value_of, written_members_read_back, Entry, JsonNode,
};
use crate::submission::VERSION;
use crate::text::{
    blanks_around_do_not_matter, is_blank, is_trimmed, joined, option_text, result_text, same_text,
    trim, trimmed, trimming_settles, trimming_takes_off_blanks, white_space,
};
use vstd::prelude::*;
use vstd::string::*;

verus! {

/// Public OAuth App client id used for the device flow. This is **not** a secret
/// (device flow requires no client secret) and is safe to ship. Until the real OAuth
/// App is registered, another one has to be configured.
pub const DEFAULT_CLIENT_ID: &'static str = "REPLACE_WITH_OAUTH_APP_CLIENT_ID";

/// The characters of an optional text.
pub open spec fn str_option(o: Option<&str>) -> Option<Seq<char>> {
    match o {
        Some(s) => Some(s@),
        None => None,
    }
}

// ---------------------------------------------------------------------------
// Tokens at hand
// ---------------------------------------------------------------------------

/// The token that a text holds: what is left of it without the white space at its
/// ends, unless that is nothing.
pub open spec fn token_in(source: Option<Seq<char>>) -> Option<Seq<char>> {
    match source {
        Some(s) => if trimmed(s).len() > 0 {
            Some(trimmed(s))
        } else {
            None
        },
        None => None,
    }
}

/// The first of two that is there.
pub open spec fn first_of(a: Option<Seq<char>>, b: Option<Seq<char>>) -> Option<Seq<char>> {
    if a is Some {
        a
    } else {
        b
    }
}

/// The token to use without asking the user: the first one found in `GITHUB_TOKEN`,
/// then `GH_TOKEN`, then the cache.
pub open spec fn token_at_hand(
    github_token: Option<Seq<char>>,
    gh_token: Option<Seq<char>>,
    cached: Option<Seq<char>>,
) -> Option<Seq<char>> {
    first_of(token_in(github_token), first_of(token_in(gh_token), token_in(cached)))
}

/// The token that the text `source` holds, if there is such a text.
pub fn read_token(source: Option<&str>) -> (token: Option<String>)
    ensures
        option_text(token) == token_in(str_option(source)),
{
    match source {
        Some(s) => {
            let t = trim(s);
            if t.as_str().is_empty() {
                None
            } else {
                Some(t)
            }
        },
        None => None,
    }
}

/// The token in the cache file, whose contents are `contents` if it could be read.
pub fn read_cached_token(contents: Option<&str>) -> (token: Option<String>)
    ensures
        option_text(token) == token_in(str_option(contents)),
{
    read_token(contents)
}

/// Resolve a GitHub token without any user interaction: from the values of the
/// environment variables `GITHUB_TOKEN` and `GH_TOKEN`, then from the contents of
/// the cache file. Returns `None` when an interactive login would be required.
pub fn resolve_token_noninteractive(
    github_token: Option<&str>,
    gh_token: Option<&str>,
    cached: Option<&str>,
) -> (token: Option<String>)
    ensures
        option_text(token) == token_at_hand(
            str_option(github_token),
            str_option(gh_token),
            str_option(cached),
        ),
{
    let first = read_token(github_token);
    if first.is_some() {
        return first;
    }
    let second = read_token(gh_token);
    if second.is_some() {
        return second;
    }
    read_cached_token(cached)
}

/// Neither environment variable holds a token, so that it comes down to the cache.
pub open spec fn cache_decides(
    github_token: Option<Seq<char>>,
    gh_token: Option<Seq<char>>,
) -> bool {
    token_in(github_token) is None && token_in(gh_token) is None
}

/// Where the cache decides, the token is the one in it; where it does not, there is a token,
/// and it is the same whatever the cache holds.
pub proof fn the_cache_is_read_where_it_matters(
    github_token: Option<Seq<char>>,
    gh_token: Option<Seq<char>>,
    cached: Option<Seq<char>>,
    other: Option<Seq<char>>,
)
    ensures
        cache_decides(github_token, gh_token) ==> token_at_hand(github_token, gh_token, cached)
            == token_in(cached),
        !cache_decides(github_token, gh_token) ==> {
            &&& token_at_hand(github_token, gh_token, cached) is Some
            &&& token_at_hand(github_token, gh_token, cached) == token_at_hand(
                github_token,
                gh_token,
                other,
            )
        },
{
}

/// Whether the cache has to be looked at: only where neither environment variable holds
/// a token.
pub fn needs_cached_token(github_token: Option<&str>, gh_token: Option<&str>) -> (r: bool)
    ensures
        r == cache_decides(str_option(github_token), str_option(gh_token)),
        r == (token_in(str_option(github_token)) is None && token_in(str_option(gh_token)) is None),
{
    read_token(github_token).is_none() && read_token(gh_token).is_none()
}

/// A source holds a token exactly where there is anything in it but white space: the token
/// is what stands between the white space at its ends.
pub proof fn tokens_are_what_is_not_blank(source: Option<Seq<char>>)
    ensures
        token_in(source) is Some <==> (source matches Some(s) && !is_blank(s)),
        token_in(source) matches Some(token) ==> {
            &&& source is Some
            &&& token.len() > 0
            &&& token == trimmed(source->0)
        },
{
    if let Some(s) = source {
        let (front, back) = trimming_takes_off_blanks(s);
        let t = trimmed(s);
        if t.len() > 0 {
            assert(s[front.len() as int] == t[0]);
        } else {
            assert forall|i: int| 0 <= i < s.len() implies white_space(#[trigger] s[i]) by {
                if i < front.len() {
                    assert(s[i] == front[i]);
                } else {
                    assert(s[i] == back[i - front.len()]);
                }
            }
        }
    }
}

/// A token without white space at its ends is found as it is in any of the three sources,
/// with white space around it or not.
pub proof fn tokens_are_found_in_any_source(
    token: Seq<char>,
    front: Seq<char>,
    back: Seq<char>,
    gh_token: Option<Seq<char>>,
    cached: Option<Seq<char>>,
)
    requires
        token.len() > 0,
        is_trimmed(token),
        is_blank(front),
        is_blank(back),
    ensures
        token_at_hand(Some(front + token + back), gh_token, cached) == Some(token),
        token_at_hand(None, Some(front + token + back), cached) == Some(token),
        token_at_hand(None, None, Some(front + token + back)) == Some(token),
        token_at_hand(None, None, None) is None,
{
    blanks_around_do_not_matter(front, token, back);
    trimming_settles(token);
}

/// A token in the environment is used whatever the cache holds, `GITHUB_TOKEN` before
/// `GH_TOKEN`; the cache is used only where neither has one.
pub proof fn environment_goes_first(
    github_token: Option<Seq<char>>,
    gh_token: Option<Seq<char>>,
    cached: Option<Seq<char>>,
)
    ensures
        token_in(github_token) is Some ==> token_at_hand(github_token, gh_token, cached)
            == token_in(github_token),
        token_in(github_token) is None && token_in(gh_token) is Some ==> token_at_hand(
            github_token,
            gh_token,
            cached,
        ) == token_in(gh_token),
        token_in(github_token) is None && token_in(gh_token) is None ==> token_at_hand(
            github_token,
            gh_token,
            cached,
        ) == token_in(cached),
{
}

/// A token at hand is never empty, and has no white space at its ends.
pub proof fn tokens_are_clean(
    github_token: Option<Seq<char>>,
    gh_token: Option<Seq<char>>,
    cached: Option<Seq<char>>,
)
    ensures
        match token_at_hand(github_token, gh_token, cached) {
            Some(token) => token.len() > 0 && is_trimmed(token),
            None => true,
        },
{
    if let Some(s) = github_token {
        trimming_settles(s);
    }
    if let Some(s) = gh_token {
        trimming_settles(s);
    }
    if let Some(s) = cached {
        trimming_settles(s);
    }
}

/// The file that a token is cached in, below the user's configuration directory,
/// and what is written to it.
pub struct TokenFile {
    /// The directory, which is made if it is not there.
    pub directory: &'static str,
    /// The file in that directory.
    pub name: &'static str,
    /// What the file holds afterwards.
    pub contents: String,
    /// The permissions that the file gets where there are such.
    pub mode: u32,
}

/// The file that a token is cached in, with its strings as character sequences.
pub struct TokenFileModel {
    pub directory: Seq<char>,
    pub name: Seq<char>,
    pub contents: Seq<char>,
    pub mode: u32,
}

impl View for TokenFile {
    type V = TokenFileModel;

    open spec fn view(&self) -> TokenFileModel {
        TokenFileModel {
            directory: self.directory@,
            name: self.name@,
            contents: self.contents@,
            mode: self.mode,
        }
    }
}

/// The file that a token is cached in.
pub open spec fn token_file(token: Seq<char>) -> TokenFileModel {
    TokenFileModel {
        directory: "llmfit"@,
        name: "github_token"@,
        contents: token,
        mode: 0o600,
    }
}

/// What is to be written for a token, or why it cannot be.
pub open spec fn caching(has_config_dir: bool, token: Seq<char>) -> Result<
    TokenFileModel,
    Seq<char>,
> {
    if has_config_dir {
        Ok(token_file(token))
    } else {
        Err("no config directory"@)
    }
}

/// What is to be written, or why nothing can be, with strings as character sequences.
pub open spec fn token_file_outcome(r: Result<TokenFile, String>) -> Result<
    TokenFileModel,
    Seq<char>,
> {
    match r {
        Ok(file) => Ok(file@),
        Err(e) => Err(e@),
    }
}

/// Persist a token obtained via the device flow for future runs: what is to be
/// written, readable by the user alone. There is nowhere to write without a
/// configuration directory.
pub fn cache_token(has_config_dir: bool, token: &str) -> (r: Result<TokenFile, String>)
    ensures
        token_file_outcome(r) == caching(has_config_dir, token@),
        match r {
            Ok(file) => {
                &&& has_config_dir
                &&& file.directory@ == "llmfit"@
                &&& file.name@ == "github_token"@
                &&& file.contents@ == token@
                &&& file.mode == 0o600
            },
            Err(e) => !has_config_dir && e@ == "no config directory"@,
        },
{
    if !has_config_dir {
        return Err("no config directory".to_owned());
    }
    Ok(
        TokenFile {
            directory: "llmfit",
            name: "github_token",
            contents: token.to_owned(),
            mode: 0o600,
        },
    )
}

/// A cached token is what the next run finds, unless the environment has one: what
/// was written is read back as it was. (A token that is empty or has white space at
/// an end is not.)
pub proof fn cached_token_reads_back(token: Seq<char>)
    requires
        token.len() > 0,
        is_trimmed(token),
    ensures
        token_at_hand(None, None, Some(token)) == Some(token),
        token_at_hand(None, None, Some(token_file(token).contents)) == Some(token),
{
    trimming_settles(token);
}

/// A token is cached exactly where there is a directory for it, and always in the same file,
/// so that a later token replaces an earlier one; the file holds the token and nothing else,
/// and only its owner may read or write it.
pub proof fn caching_keeps_one_token_private(has_config_dir: bool, token: Seq<char>, other: Seq<char>)
    ensures
        caching(has_config_dir, token) is Ok <==> has_config_dir,
        caching(has_config_dir, token) matches Err(e) ==> e == "no config directory"@,
        caching(has_config_dir, token) matches Ok(file) ==> {
            &&& file.directory == "llmfit"@
            &&& file.name == "github_token"@
            &&& file.contents == token
            &&& file.mode == 6 * 8 * 8
            &&& caching(has_config_dir, other) matches Ok(later)
            &&& later.directory == file.directory
            &&& later.name == file.name
        },
{
}

// ---------------------------------------------------------------------------
// Whether to log in
// ---------------------------------------------------------------------------

/// The client id to log in with: the configured one, or else the default one; the
/// placeholder is none.
pub open spec fn login_client(configured: Option<Seq<char>>) -> Option<Seq<char>> {
    let id = match configured {
        Some(s) => s,
        None => DEFAULT_CLIENT_ID@,
    };
    if id == DEFAULT_CLIENT_ID@ {
        None
    } else {
        Some(id)
    }
}

/// A login is possible exactly with a client id that was configured and is not the
/// placeholder, and it is made with that one.
pub proof fn logins_need_a_configured_client(configured: Option<Seq<char>>)
    ensures
        login_client(configured) is Some <==> (configured matches Some(id) && id
            != "REPLACE_WITH_OAUTH_APP_CLIENT_ID"@),
        login_client(configured) matches Some(id) ==> configured == Some(id),
{
}

/// The OAuth App client id for the device flow, or `None` when only the
/// unregistered placeholder is available (interactive login not possible).
/// `configured` is the value of the environment variable `LLMFIT_GH_CLIENT_ID`.
pub fn oauth_client_id(configured: Option<&str>) -> (id: Option<String>)
    ensures
        option_text(id) == login_client(str_option(configured)),
{
    let id = match configured {
        Some(s) => s,
        None => DEFAULT_CLIENT_ID,
    };
    if same_text(id, DEFAULT_CLIENT_ID) {
        None
    } else {
        Some(id.to_owned())
    }
}

/// What to do next for a token.
pub enum TokenStep {
    /// Log in by the device flow, with this client id.
    Login(String),
    /// Cache this token, which a login has yielded.
    Cache(String),
    /// Warn the user of this, if it is anything, and return the outcome: the token, or
    /// the reason why there is none.
    Finish { warning: Option<String>, outcome: Result<String, String> },
}

/// A step towards a token, with its strings as character sequences.
pub enum TokenMove {
    Login(Seq<char>),
    Cache(Seq<char>),
    Finish { warning: Option<Seq<char>>, outcome: Result<Seq<char>, Seq<char>> },
}

impl View for TokenStep {
    type V = TokenMove;

    open spec fn view(&self) -> TokenMove {
        match self {
            TokenStep::Login(id) => TokenMove::Login(id@),
            TokenStep::Cache(token) => TokenMove::Cache(token@),
            TokenStep::Finish { warning, outcome } => TokenMove::Finish {
                warning: option_text(*warning),
                outcome: result_text(*outcome),
            },
        }
    }
}

/// How a token is to be had: the one at hand is used; without one, a login is needed,
/// and a client id for it.
pub open spec fn token_sought(
    at_hand: Option<Seq<char>>,
    client_id: Option<Seq<char>>,
) -> TokenMove {
    match at_hand {
        Some(token) => TokenMove::Finish { warning: None, outcome: Ok(token) },
        None => match client_id {
            Some(id) => TokenMove::Login(id),
            None => TokenMove::Finish {
                warning: None,
                outcome: Err(
                    "no GitHub token found. Set GITHUB_TOKEN (or GH_TOKEN), or set LLMFIT_GH_CLIENT_ID to a registered OAuth App client id to enable interactive login."@,
                ),
            },
        },
    }
}

/// What follows from a login: the token is cached before it is used.
pub open spec fn logged_in(login: Result<Seq<char>, Seq<char>>) -> TokenMove {
    match login {
        Ok(token) => TokenMove::Cache(token),
        Err(e) => TokenMove::Finish { warning: None, outcome: Err(e) },
    }
}

/// What follows from caching a token: it is used either way, and a failure is only
/// warned of.
pub open spec fn cached_or_warned(token: Seq<char>, caching: Result<(), Seq<char>>) -> TokenMove {
    TokenMove::Finish {
        warning: match caching {
            Ok(_) => None,
            Err(e) => Some("  Warning: could not cache token: "@ + e),
        },
        outcome: Ok(token),
    }
}

/// Resolve a GitHub token: one at hand, then the interactive device flow.
pub fn resolve_token(at_hand: Option<String>, client_id: Option<String>) -> (step: TokenStep)
    ensures
        step@ == token_sought(option_text(at_hand), option_text(client_id)),
{
    if let Some(token) = at_hand {
        return TokenStep::Finish { warning: None, outcome: Ok(token) };
    }
    match client_id {
        Some(id) => TokenStep::Login(id),
        None => TokenStep::Finish {
            warning: None,
            outcome: Err(
                "no GitHub token found. Set GITHUB_TOKEN (or GH_TOKEN), or set LLMFIT_GH_CLIENT_ID to a registered OAuth App client id to enable interactive login.".to_owned(),
            ),
        },
    }
}

/// What to do after a login that came to `login`.
pub fn token_after_login(login: Result<String, String>) -> (step: TokenStep)
    ensures
        step@ == logged_in(result_text(login)),
{
    match login {
        Ok(token) => TokenStep::Cache(token),
        Err(e) => TokenStep::Finish { warning: None, outcome: Err(e) },
    }
}

/// What to do after an attempt to cache `token` that came to `caching`.
pub fn token_after_caching(token: String, caching: Result<(), String>) -> (step: TokenStep)
    ensures
        step@ == cached_or_warned(token@, outcome_text(caching)),
{
    let warning = match caching {
        Ok(_) => None,
        Err(e) => Some(joined("  Warning: could not cache token: ", e.as_str())),
    };
    TokenStep::Finish { warning, outcome: Ok(token) }
}

/// Where a token is at hand, it is what comes out: there is no login, and nothing is
/// cached.
pub proof fn tokens_at_hand_need_no_login(token: Seq<char>, client_id: Option<Seq<char>>)
    ensures
        token_sought(Some(token), client_id) == (TokenMove::Finish {
            warning: None,
            outcome: Ok(token),
        }),
{
}

/// A login that fails fails the resolution, with the same error, and nothing is cached.
/// The token of one that succeeds is cached, and it is what comes out whether that
/// succeeds or not; the user is warned if and only if it does not.
pub proof fn logins_are_not_lost(
    client_id: Seq<char>,
    login: Result<Seq<char>, Seq<char>>,
    caching: Result<(), Seq<char>>,
)
    ensures
        token_sought(None, Some(client_id)) == TokenMove::Login(client_id),
        login matches Err(e) ==> logged_in(login) == (TokenMove::Finish {
            warning: None,
            outcome: Err(e),
        }),
        login matches Ok(token) ==> {
            &&& logged_in(login) == TokenMove::Cache(token)
            &&& cached_or_warned(token, caching) matches TokenMove::Finish { warning, outcome }
            &&& outcome == Ok::<Seq<char>, Seq<char>>(token)
            &&& warning is Some <==> caching is Err
            &&& caching matches Err(e) ==> warning == Some(
                "  Warning: could not cache token: "@ + e,
            )
        },
        token_sought(None, None) == (TokenMove::Finish {
            warning: None,
            outcome: Err(
                "no GitHub token found. Set GITHUB_TOKEN (or GH_TOKEN), or set LLMFIT_GH_CLIENT_ID to a registered OAuth App client id to enable interactive login."@,
            ),
        }),
{
}

// ---------------------------------------------------------------------------
// Device flow: the requests
// ---------------------------------------------------------------------------

/// A request to the login pages, which takes no token.
pub open spec fn login_request(
    url: Seq<char>,
    members: Seq<(Seq<char>, Seq<char>)>,
) -> RequestModel {
    RequestModel {
        method: Method::Post,
        url,
        headers: seq![("Accept"@, "application/json"@), ("User-Agent"@, user_agent())],
        body: Some(object_of(members)),
    }
}

fn send_login_request(url: &str, members: &Vec<Entry>) -> (r: Request)
    ensures
        r@ == login_request(url@, entries(members@)),
{
    let mut headers: Vec<Entry> = Vec::new();
    headers.push(entry("Accept", "application/json"));
    headers.push(entry("User-Agent", user_agent_text().as_str()));
    assert(entries(headers@) =~= seq![
        ("Accept"@, "application/json"@),
        ("User-Agent"@, user_agent()),
    ]);
    Request {
        method: Method::Post,
        url: url.to_owned(),
        headers,
        body: Some(render_object(members)),
    }
}

/// The request for a user code.
pub open spec fn code_request(client_id: Seq<char>) -> RequestModel {
    login_request(
        "https://github.com/login/device/code"@,
        seq![("client_id"@, client_id), ("scope"@, "public_repo"@)],
    )
}

/// The request that begins the device flow: for a user code for the given OAuth App
/// client id.
pub fn device_flow_start_request(client_id: &str) -> (r: Request)
    ensures
        r@ == code_request(client_id@),
{
    let mut members: Vec<Entry> = Vec::new();
    members.push(entry("client_id", client_id));
    members.push(entry("scope", "public_repo"));
    assert(entries(members@) =~= seq![("client_id"@, client_id@), ("scope"@, "public_repo"@)]);
    send_login_request("https://github.com/login/device/code", &members)
}

/// The request that asks for the access token.
pub open spec fn poll_request(client_id: Seq<char>, device_code: Seq<char>) -> RequestModel {
    login_request(
        "https://github.com/login/oauth/access_token"@,
        seq![
            ("client_id"@, client_id),
            ("device_code"@, device_code),
            ("grant_type"@, "urn:ietf:params:oauth:grant-type:device_code"@),
        ],
    )
}

/// The request that asks whether the user has authorized the device code yet.
pub fn device_flow_poll_request(client_id: &str, device_code: &str) -> (r: Request)
    ensures
        r@ == poll_request(client_id@, device_code@),
{
    let mut members: Vec<Entry> = Vec::new();
    members.push(entry("client_id", client_id));
    members.push(entry("device_code", device_code));
    members.push(entry("grant_type", "urn:ietf:params:oauth:grant-type:device_code"));
    assert(entries(members@) =~= seq![
        ("client_id"@, client_id@),
        ("device_code"@, device_code@),
        ("grant_type"@, "urn:ietf:params:oauth:grant-type:device_code"@),
    ]);
    send_login_request("https://github.com/login/oauth/access_token", &members)
}

/// The device flow is asked for with the client id, for access to public repositories; the
/// access token with the client id and the code that came of it. Neither request carries a
/// token.
pub proof fn logins_say_what_they_ask_for(client_id: Seq<char>, device_code: Seq<char>)
    ensures
        ({
            let r = code_request(client_id);
            &&& r.method is Post
            &&& r.url == "https://github.com/login/device/code"@
            &&& r.headers == seq![
                ("Accept"@, "application/json"@),
                ("User-Agent"@, "llmfit/"@ + VERSION@),
            ]
            &&& r.body is Some
            &&& text_member(r.body->0, "client_id"@) == Some(client_id)
            &&& text_member(r.body->0, "scope"@) == Some("public_repo"@)
        }),
        ({
            let r = poll_request(client_id, device_code);
            &&& r.method is Post
            &&& r.url == "https://github.com/login/oauth/access_token"@
            &&& r.headers == seq![
                ("Accept"@, "application/json"@),
                ("User-Agent"@, "llmfit/"@ + VERSION@),
            ]
            &&& r.body is Some
            &&& text_member(r.body->0, "client_id"@) == Some(client_id)
            &&& text_member(r.body->0, "device_code"@) == Some(device_code)
            &&& text_member(r.body->0, "grant_type"@) == Some(
                "urn:ietf:params:oauth:grant-type:device_code"@,
            )
        }),
{
    reveal_strlit("client_id");
    reveal_strlit("scope");
    reveal_strlit("device_code");
    reveal_strlit("grant_type");
    assert("client_id"@[0] != "scope"@[0]);
    assert("client_id"@[0] != "device_code"@[0]);
    assert("client_id"@[0] != "grant_type"@[0]);
    assert("device_code"@[0] != "grant_type"@[0]);
    let asked = seq![("client_id"@, client_id), ("scope"@, "public_repo"@)];
    written_members_read_back(asked, "client_id"@);
    written_members_read_back(asked, "scope"@);
    let polled = seq![
        ("client_id"@, client_id),
        ("device_code"@, device_code),
        ("grant_type"@, "urn:ietf:params:oauth:grant-type:device_code"@),
    ];
    written_members_read_back(polled, "client_id"@);
    written_members_read_back(polled, "device_code"@);
    written_members_read_back(polled, "grant_type"@);
    reveal_with_fuel(value_of, 4);
    assert(asked.last() == asked[1]);
    assert(asked.drop_last().last() == asked[0]);
    assert(polled.last() == polled[2]);
    assert(polled.drop_last().last() == polled[1]);
    assert(polled.drop_last().drop_last().last() == polled[0]);
}

// ---------------------------------------------------------------------------
// Device flow: the start
// ---------------------------------------------------------------------------

/// A started device-flow authorization: show `user_code` / `verification_uri` to
/// the user, then poll every `interval` seconds.
pub struct DeviceAuth {
    pub user_code: String,
    pub verification_uri: String,
    pub device_code: String,
    /// Minimum seconds to wait between polls.
    pub interval: u64,
}

/// A device-flow authorization, with its strings as character sequences.
pub struct DeviceAuthModel {
    pub user_code: Seq<char>,
    pub verification_uri: Seq<char>,
    pub device_code: Seq<char>,
    pub interval: u64,
}

impl View for DeviceAuth {
    type V = DeviceAuthModel;

    open spec fn view(&self) -> DeviceAuthModel {
        DeviceAuthModel {
            user_code: self.user_code@,
            verification_uri: self.verification_uri@,
            device_code: self.device_code@,
            interval: self.interval,
        }
    }
}

/// The device-flow authorization, or the message that says why there is none.
pub open spec fn auth_outcome(r: Result<DeviceAuth, String>) -> Result<DeviceAuthModel, Seq<char>> {
    match r {
        Ok(auth) => Ok(auth@),
        Err(e) => Err(e@),
    }
}

/// A text, or another one in its place.
pub open spec fn or_else(text: Option<Seq<char>>, other: Seq<char>) -> Seq<char> {
    match text {
        Some(s) => s,
        None => other,
    }
}

/// What the members of the reply to [`code_request`] say. The device code has to be
/// there; polls are at least a second apart, and five seconds unless the server says
/// otherwise.
pub open spec fn started(
    device_code: Option<Seq<char>>,
    user_code: Option<Seq<char>>,
    verification_uri: Option<Seq<char>>,
    interval: Option<u64>,
) -> Result<DeviceAuthModel, Seq<char>> {
    match device_code {
        Some(code) => Ok(
            DeviceAuthModel {
                user_code: or_else(user_code, Seq::empty()),
                verification_uri: or_else(verification_uri, "https://github.com/login/device"@),
                device_code: code,
                interval: match interval {
                    Some(seconds) => if seconds < 1 {
                        1
                    } else {
                        seconds
                    },
                    None => 5,
                },
            },
        ),
        None => Err("device flow: missing device_code"@),
    }
}

/// What the document in the reply to [`code_request`] says.
pub open spec fn started_by(nodes: Map<Seq<Seq<char>>, JsonNode>) -> Result<
    DeviceAuthModel,
    Seq<char>,
> {
    started(
        text_member(nodes, "device_code"@),
        text_member(nodes, "user_code"@),
        text_member(nodes, "verification_uri"@),
        count_in(member_of(nodes, "interval"@)),
    )
}

/// The document that a login page replied with, or the message that says why there
/// is none. The two prefixes tell a failed request from an unreadable reply.
pub open spec fn login_document(
    exchange: Exchange,
    unsent: Seq<char>,
    unread: Seq<char>,
) -> Result<Map<Seq<Seq<char>>, JsonNode>, Seq<char>> {
    match exchange {
        Exchange::Replied { status, body } => match parsed_json(body@) {
            Ok(nodes) => Ok(nodes),
            Err(e) => Err(unread + "json: "@ + e),
        },
        Exchange::Unread { status, error } => Err(unread + error@),
        Exchange::Failed { error } => Err(unsent + error@),
    }
}

fn login_reply(exchange: &Exchange, unsent: &str, unread: &str) -> (r: Result<
    serde_json::Value,
    String,
>)
    ensures
        outcome_nodes(r) == login_document(*exchange, unsent@, unread@),
{
    match exchange {
        Exchange::Replied { status, body } => match parse_json(body.as_slice()) {
            Ok(v) => Ok(v),
            Err(e) => {
                let mut message = joined(unread, "json: ");
                message.append(e.as_str());
                Err(message)
            },
        },
        Exchange::Unread { status, error } => Err(joined(unread, error.as_str())),
        Exchange::Failed { error } => Err(joined(unsent, error.as_str())),
    }
}

fn text_or(text: Option<String>, other: &str) -> (r: String)
    ensures
        r@ == or_else(option_text(text), other@),
{
    match text {
        Some(s) => s,
        None => other.to_owned(),
    }
}

/// The authorization that the members of a reply start.
pub fn device_auth(
    device_code: Option<String>,
    user_code: Option<String>,
    verification_uri: Option<String>,
    interval: Option<u64>,
) -> (r: Result<DeviceAuth, String>)
    ensures
        auth_outcome(r) == started(
            option_text(device_code),
            option_text(user_code),
            option_text(verification_uri),
            interval,
        ),
{
    let code = match device_code {
        Some(code) => code,
        None => {
            return Err("device flow: missing device_code".to_owned());
        },
    };
    let seconds: u64 = match interval {
        Some(seconds) => seconds,
        None => 5,
    };
    proof {
        reveal_strlit("");
        assert(""@ =~= Seq::<char>::empty());
    }
    Ok(
        DeviceAuth {
            user_code: text_or(user_code, ""),
            verification_uri: text_or(verification_uri, "https://github.com/login/device"),
            device_code: code,
            interval: if seconds < 1 {
                1
            } else {
                seconds
            },
        },
    )
}

/// What came of the request for a user code.
pub open spec fn login_begun(exchange: Exchange) -> Result<DeviceAuthModel, Seq<char>> {
    match login_document(
        exchange,
        "device code request failed: "@,
        "device code parse failed: "@,
    ) {
        Ok(nodes) => started_by(nodes),
        Err(e) => Err(e),
    }
}

/// Begin the GitHub OAuth device flow: what came of [`device_flow_start_request`].
pub fn device_flow_start(exchange: &Exchange) -> (r: Result<DeviceAuth, String>)
    ensures
        auth_outcome(r) == login_begun(*exchange),
        auth_outcome(r) == (match login_document(
            *exchange,
            "device code request failed: "@,
            "device code parse failed: "@,
        ) {
            Ok(nodes) => started_by(nodes),
            Err(e) => Err(e),
        }),
{
    match login_reply(exchange, "device code request failed: ", "device code parse failed: ") {
        Ok(v) => device_auth(
            text_member_of(&v, "device_code"),
            text_member_of(&v, "user_code"),
            text_member_of(&v, "verification_uri"),
            json_count(json_member(&v, "interval")),
        ),
        Err(e) => Err(e),
    }
}

/// Whatever the server asks for, polls are at least a second apart.
pub proof fn polls_are_paced(
    device_code: Option<Seq<char>>,
    user_code: Option<Seq<char>>,
    verification_uri: Option<Seq<char>>,
    interval: Option<u64>,
)
    ensures
        match started(device_code, user_code, verification_uri, interval) {
            Ok(auth) => auth.interval >= 1,
            Err(_) => device_code is None,
        },
{
}

/// The server sets the pace: an interval of at least a second is kept as it is, so that
/// polls are never closer together than the server asked for; without one it is five
/// seconds.
pub proof fn the_server_sets_the_pace(
    device_code: Seq<char>,
    user_code: Option<Seq<char>>,
    verification_uri: Option<Seq<char>>,
    interval: Option<u64>,
)
    ensures
        started(Some(device_code), user_code, verification_uri, interval) matches Ok(auth) && {
            &&& interval matches Some(n) ==> auth.interval >= n && auth.interval >= 1
            &&& interval matches Some(n) ==> n >= 1 ==> auth.interval == n
            &&& interval == Some(0u64) ==> auth.interval == 1
            &&& interval is None ==> auth.interval == 5
        },
{
}

/// The codes of an authorization are those of the server; where it left something out, the
/// user code is empty and the address is GitHub's page for devices. Without a device code
/// there is no authorization.
pub proof fn authorizations_are_those_of_the_server(
    device_code: Option<Seq<char>>,
    user_code: Option<Seq<char>>,
    verification_uri: Option<Seq<char>>,
    interval: Option<u64>,
)
    ensures
        ({
            let r = started(device_code, user_code, verification_uri, interval);
            &&& r is Ok <==> device_code is Some
            &&& r matches Err(e) ==> e == "device flow: missing device_code"@
            &&& r matches Ok(auth) ==> {
                &&& device_code == Some(auth.device_code)
                &&& user_code matches Some(code) ==> auth.user_code == code
                &&& user_code is None ==> auth.user_code.len() == 0
                &&& verification_uri matches Some(uri) ==> auth.verification_uri == uri
                &&& verification_uri is None ==> auth.verification_uri
                    == "https://github.com/login/device"@
            }
        }),
{
}

/// The members of the server's reply are read by their names: in the authorization each
/// stands in its own place.
pub proof fn authorizations_are_read_by_name(nodes: Map<Seq<Seq<char>>, JsonNode>)
    requires
        nodes.contains_key(seq!["device_code"@]),
        nodes[seq!["device_code"@]] is Text,
    ensures
        ({
            let code = seq!["device_code"@];
            let user = seq!["user_code"@];
            let uri = seq!["verification_uri"@];
            let pace = seq!["interval"@];
            &&& started_by(nodes) matches Ok(auth)
            &&& nodes[code] == JsonNode::Text(auth.device_code)
            &&& nodes.contains_key(user) && nodes[user] is Text ==> nodes[user] == JsonNode::Text(
                auth.user_code,
            )
            &&& nodes.contains_key(uri) && nodes[uri] is Text ==> nodes[uri] == JsonNode::Text(
                auth.verification_uri,
            )
            &&& nodes.contains_key(pace) ==> (nodes[pace] matches JsonNode::Count(n) ==> n >= 1
                ==> auth.interval == n)
        }),
{
    members_are_read_in_their_places(nodes, "device_code"@, "interval"@);
    members_are_read_in_their_places(nodes, "user_code"@, "interval"@);
    members_are_read_in_their_places(nodes, "verification_uri"@, "interval"@);
    members_are_read_in_their_places(nodes, "interval"@, "interval"@);
}

/// What a login page replies with is the document in its body, whatever the status is; what
/// went wrong is told behind a prefix, one for a request without a reply and one for a reply
/// that could not be read.
pub proof fn login_pages_are_read_whatever_their_status(
    exchange: Exchange,
    unsent: Seq<char>,
    unread: Seq<char>,
)
    ensures
        ({
            let r = login_document(exchange, unsent, unread);
            &&& exchange matches Exchange::Replied { body, .. } ==> {
                &&& parsed_json(body@) matches Ok(nodes) ==> r == Ok::<_, Seq<char>>(nodes)
                &&& parsed_json(body@) matches Err(e) ==> r == Err::<
                    Map<Seq<Seq<char>>, JsonNode>,
                    Seq<char>,
                >(unread + "json: "@ + e)
            }
            &&& exchange matches Exchange::Unread { error, .. } ==> r == Err::<
                Map<Seq<Seq<char>>, JsonNode>,
                Seq<char>,
            >(unread + error@)
            &&& exchange matches Exchange::Failed { error } ==> r == Err::<
                Map<Seq<Seq<char>>, JsonNode>,
                Seq<char>,
            >(unsent + error@)
        }),
{
}

// ---------------------------------------------------------------------------
// Device flow: the polls
// ---------------------------------------------------------------------------

/// Outcome of a single device-flow poll.
pub enum DevicePoll {
    /// Authorized; carries the access token.
    Token(String),
    /// User has not authorized yet: poll again after `interval`.
    Pending,
    /// Server asked to slow down: add 5 s to the interval and poll again.
    SlowDown,
    /// Terminal failure (expired, denied, or protocol error).
    Failed(String),
}

/// The outcome of a poll, with its strings as character sequences.
pub enum PollModel {
    Token(Seq<char>),
    Pending,
    SlowDown,
    Failed(Seq<char>),
}

impl View for DevicePoll {
    type V = PollModel;

    open spec fn view(&self) -> PollModel {
        match self {
            DevicePoll::Token(token) => PollModel::Token(token@),
            DevicePoll::Pending => PollModel::Pending,
            DevicePoll::SlowDown => PollModel::SlowDown,
            DevicePoll::Failed(e) => PollModel::Failed(e@),
        }
    }
}

/// The outcome of a poll, or the message that says why there is none.
pub open spec fn poll_outcome(r: Result<DevicePoll, String>) -> Result<PollModel, Seq<char>> {
    match r {
        Ok(poll) => Ok(poll@),
        Err(e) => Err(e@),
    }
}

/// What the members of the reply to [`poll_request`] say. An access token counts,
/// whatever else there is.
pub open spec fn polled(access_token: Option<Seq<char>>, error: Option<Seq<char>>) -> PollModel {
    match access_token {
        Some(token) => PollModel::Token(token),
        None => match error {
            Some(e) => if e == "authorization_pending"@ {
                PollModel::Pending
            } else if e == "slow_down"@ {
                PollModel::SlowDown
            } else if e == "expired_token"@ {
                PollModel::Failed("device code expired before authorization"@)
            } else if e == "access_denied"@ {
                PollModel::Failed("authorization was denied"@)
            } else {
                PollModel::Failed("authorization failed: "@ + e)
            },
            None => PollModel::Failed("unexpected response while polling for token"@),
        },
    }
}

/// An access token ends the wait, whatever else the reply says; without one the named errors
/// say how it stands, and only two of them, which are waited out, are no failures.
pub proof fn polls_go_by_token_and_error(
    access_token: Option<Seq<char>>,
    error: Option<Seq<char>>,
)
    ensures
        ({
            let r = polled(access_token, error);
            &&& r is Token <==> access_token is Some
            &&& access_token matches Some(token) ==> r == PollModel::Token(token)
            &&& r is Pending <==> access_token is None && error == Some("authorization_pending"@)
            &&& r is SlowDown <==> access_token is None && error == Some("slow_down"@)
            &&& access_token is None && error is None ==> r == PollModel::Failed(
                "unexpected response while polling for token"@,
            )
            &&& access_token is None && error == Some("expired_token"@) ==> r == PollModel::Failed(
                "device code expired before authorization"@,
            )
            &&& access_token is None && error == Some("access_denied"@) ==> r == PollModel::Failed(
                "authorization was denied"@,
            )
            &&& access_token is None && (error matches Some(e) && e != "expired_token"@ && e
                != "access_denied"@) && r is Failed ==> r == PollModel::Failed(
                "authorization failed: "@ + error->0,
            )
        }),
{
    reveal_strlit("authorization_pending");
    reveal_strlit("slow_down");
    reveal_strlit("expired_token");
    reveal_strlit("access_denied");
    assert("authorization_pending"@[0] != "slow_down"@[0]);
    assert("authorization_pending"@[0] != "expired_token"@[0]);
    assert("authorization_pending"@[1] != "access_denied"@[1]);
    assert("slow_down"@[0] != "expired_token"@[0]);
    assert("slow_down"@[0] != "access_denied"@[0]);
    assert("expired_token"@[0] != "access_denied"@[0]);
}

/// The outcome of a poll whose reply has these members.
pub fn poll_result(access_token: Option<String>, error: Option<String>) -> (poll: DevicePoll)
    ensures
        poll@ == polled(option_text(access_token), option_text(error)),
{
    if let Some(token) = access_token {
        return DevicePoll::Token(token);
    }
    match error {
        Some(e) => {
            let text = e.as_str();
            if same_text(text, "authorization_pending") {
                DevicePoll::Pending
            } else if same_text(text, "slow_down") {
                DevicePoll::SlowDown
            } else if same_text(text, "expired_token") {
                DevicePoll::Failed("device code expired before authorization".to_owned())
            } else if same_text(text, "access_denied") {
                DevicePoll::Failed("authorization was denied".to_owned())
            } else {
                DevicePoll::Failed(joined("authorization failed: ", text))
            }
        },
        None => DevicePoll::Failed("unexpected response while polling for token".to_owned()),
    }
}

/// What came of the request for the access token.
pub open spec fn poll_answered(exchange: Exchange) -> Result<PollModel, Seq<char>> {
    match login_document(exchange, "token poll failed: "@, "token poll parse failed: "@) {
        Ok(nodes) => Ok(polled(text_member(nodes, "access_token"@), text_member(nodes, "error"@))),
        Err(e) => Err(e),
    }
}

/// A device that the user has authorized gets the token that stands in the reply, whatever
/// the status of the reply is and whatever else stands in it; as long as the server says
/// that authorization is pending or that polls are too fast, that is what comes out.
pub proof fn tokens_are_those_of_the_server(
    exchange: Exchange,
    nodes: Map<Seq<Seq<char>>, JsonNode>,
)
    requires
        exchange matches Exchange::Replied { body, .. } && parsed_json(body@) == Ok::<
            Map<Seq<Seq<char>>, JsonNode>,
            Seq<char>,
        >(nodes),
    ensures
        ({
            let token = seq!["access_token"@];
            let error = seq!["error"@];
            let has_token = nodes.contains_key(token) && nodes[token] is Text;
            &&& poll_answered(exchange) matches Ok(poll)
            &&& has_token <==> poll is Token
            &&& poll matches PollModel::Token(t) ==> nodes[token] == JsonNode::Text(t)
            &&& !has_token && nodes.contains_key(error) && nodes[error] == JsonNode::Text(
                "authorization_pending"@,
            ) ==> poll is Pending
            &&& !has_token && nodes.contains_key(error) && nodes[error] == JsonNode::Text(
                "slow_down"@,
            ) ==> poll is SlowDown
        }),
{
    members_are_read_in_their_places(nodes, "access_token"@, "error"@);
    members_are_read_in_their_places(nodes, "error"@, "error"@);
    polls_go_by_token_and_error(text_member(nodes, "access_token"@), text_member(nodes, "error"@));
}

/// What goes wrong with a login is told by its stage: the request for a code and the poll
/// each have words for a request without a reply and for a reply that could not be read.
pub proof fn login_failures_tell_their_stage(error: String, status: u16)
    ensures
        login_begun(Exchange::Failed { error }) == Err::<DeviceAuthModel, Seq<char>>(
            "device code request failed: "@ + error@,
        ),
        login_begun(Exchange::Unread { status, error }) == Err::<DeviceAuthModel, Seq<char>>(
            "device code parse failed: "@ + error@,
        ),
        poll_answered(Exchange::Failed { error }) == Err::<PollModel, Seq<char>>(
            "token poll failed: "@ + error@,
        ),
        poll_answered(Exchange::Unread { status, error }) == Err::<PollModel, Seq<char>>(
            "token poll parse failed: "@ + error@,
        ),
{
}

/// Poll the device flow once: what came of [`device_flow_poll_request`]. The caller
/// owns the pacing.
pub fn device_flow_poll(exchange: &Exchange) -> (r: Result<DevicePoll, String>)
    ensures
        poll_outcome(r) == poll_answered(*exchange),
        poll_outcome(r) == (match login_document(
            *exchange,
            "token poll failed: "@,
            "token poll parse failed: "@,
        ) {
            Ok(nodes) => Ok(
                polled(text_member(nodes, "access_token"@), text_member(nodes, "error"@)),
            ),
            Err(e) => Err(e),
        }),
{
    match login_reply(exchange, "token poll failed: ", "token poll parse failed: ") {
        Ok(v) => Ok(poll_result(text_member_of(&v, "access_token"), text_member_of(&v, "error"))),
        Err(e) => Err(e),
    }
}

// ---------------------------------------------------------------------------
// Device flow: the loop
// ---------------------------------------------------------------------------

/// What to do next in the device flow.
pub enum DeviceStep {
    /// Wait so many seconds, then poll by this request; `interval` is the pace from
    /// there on.
    Poll { wait_secs: u64, interval: u64, request: Request },
    /// The flow is over, with an access token or the reason why there is none.
    Done(Result<String, String>),
}

/// A step of the device flow, with its strings as character sequences.
pub enum DeviceMove {
    Poll { wait_secs: int, interval: int, request: RequestModel },
    Done(Result<Seq<char>, Seq<char>>),
}

impl View for DeviceStep {
    type V = DeviceMove;

    open spec fn view(&self) -> DeviceMove {
        match self {
            DeviceStep::Poll { wait_secs, interval, request } => DeviceMove::Poll {
                wait_secs: *wait_secs as int,
                interval: *interval as int,
                request: request@,
            },
            DeviceStep::Done(r) => DeviceMove::Done(result_text(*r)),
        }
    }
}

/// The next poll comes a second after the interval is over, and asks about the code
/// that the flow was started with.
pub open spec fn paced(
    client_id: Seq<char>,
    device_code: Seq<char>,
    interval: int,
) -> DeviceMove {
    DeviceMove::Poll {
        wait_secs: interval + 1,
        interval,
        request: poll_request(client_id, device_code),
    }
}

/// What follows from a poll, when polls were `interval` seconds apart.
pub open spec fn after_poll(
    client_id: Seq<char>,
    device_code: Seq<char>,
    interval: int,
    poll: Result<PollModel, Seq<char>>,
) -> DeviceMove {
    match poll {
        Ok(PollModel::Token(token)) => DeviceMove::Done(Ok(token)),
        Ok(PollModel::Pending) => paced(client_id, device_code, interval),
        Ok(PollModel::SlowDown) => paced(client_id, device_code, interval + 5),
        Ok(PollModel::Failed(e)) => DeviceMove::Done(Err(e)),
        Err(e) => DeviceMove::Done(Err(e)),
    }
}

/// The first step of the device flow, once the code is shown to the user.
pub fn device_flow(client_id: &str, auth: &DeviceAuth) -> (step: DeviceStep)
    requires
        auth.interval < u64::MAX,
    ensures
        step@ == paced(client_id@, auth.device_code@, auth.interval as int),
{
    DeviceStep::Poll {
        wait_secs: auth.interval + 1,
        interval: auth.interval,
        request: device_flow_poll_request(client_id, auth.device_code.as_str()),
    }
}

/// The step of the device flow after a poll: it goes on until the user authorizes,
/// or the code expires. Only a flow that goes on needs room for a longer wait.
pub fn device_flow_next(
    client_id: &str,
    auth: &DeviceAuth,
    interval: u64,
    poll: Result<DevicePoll, String>,
) -> (step: DeviceStep)
    requires
        poll matches Ok(DevicePoll::Pending) ==> interval < u64::MAX,
        poll matches Ok(DevicePoll::SlowDown) ==> interval <= u64::MAX - 6,
    ensures
        step@ == after_poll(
            client_id@,
            auth.device_code@,
            interval as int,
            poll_outcome(poll),
        ),
{
    match poll {
        Ok(DevicePoll::Token(token)) => DeviceStep::Done(Ok(token)),
        Ok(DevicePoll::Pending) => DeviceStep::Poll {
            wait_secs: interval + 1,
            interval,
            request: device_flow_poll_request(client_id, auth.device_code.as_str()),
        },
        Ok(DevicePoll::SlowDown) => DeviceStep::Poll {
            wait_secs: interval + 6,
            interval: interval + 5,
            request: device_flow_poll_request(client_id, auth.device_code.as_str()),
        },
        Ok(DevicePoll::Failed(e)) => DeviceStep::Done(Err(e)),
        Err(e) => DeviceStep::Done(Err(e)),
    }
}

/// The step that the device flow has come to after a series of polls. Once it is over,
/// it stays so.
pub open spec fn device_flow_after(
    client_id: Seq<char>,
    auth: DeviceAuthModel,
    polls: Seq<Result<PollModel, Seq<char>>>,
) -> DeviceMove
    decreases polls.len(),
{
    if polls.len() == 0 {
        paced(client_id, auth.device_code, auth.interval as int)
    } else {
        match device_flow_after(client_id, auth, polls.drop_last()) {
            DeviceMove::Poll { interval, .. } => after_poll(
                client_id,
                auth.device_code,
                interval,
                polls.last(),
            ),
            DeviceMove::Done(outcome) => DeviceMove::Done(outcome),
        }
    }
}

/// The poll settles nothing, and another one follows.
pub open spec fn is_open(poll: Result<PollModel, Seq<char>>) -> bool {
    poll matches Ok(outcome) && (outcome is Pending || outcome is SlowDown)
}

/// How often the server has asked to slow down.
pub open spec fn slow_downs(polls: Seq<Result<PollModel, Seq<char>>>) -> int
    decreases polls.len(),
{
    if polls.len() == 0 {
        0
    } else {
        slow_downs(polls.drop_last()) + (if polls.last() == Ok::<PollModel, Seq<char>>(
            PollModel::SlowDown,
        ) {
            1int
        } else {
            0
        })
    }
}

/// As long as no poll settles anything, the flow goes on: every poll, the first one
/// too, asks about the code that the flow was started with, and comes after a wait of
/// the interval, a second, and five seconds for each time that the server has asked to
/// slow down. Once a poll has settled something, there are no more.
pub proof fn polls_keep_to_the_code_and_the_pace(
    client_id: Seq<char>,
    auth: DeviceAuthModel,
    polls: Seq<Result<PollModel, Seq<char>>>,
)
    ensures
        (forall|i: int| 0 <= i < polls.len() ==> is_open(#[trigger] polls[i]))
            ==> device_flow_after(client_id, auth, polls) is Poll,
        device_flow_after(client_id, auth, polls) matches DeviceMove::Poll {
            wait_secs,
            interval,
            request,
        } ==> {
            &&& wait_secs == auth.interval + 1 + 5 * slow_downs(polls)
            &&& interval == wait_secs - 1
            &&& request == poll_request(client_id, auth.device_code)
            &&& forall|i: int| 0 <= i < polls.len() ==> is_open(#[trigger] polls[i])
        },
        slow_downs(polls) >= 0,
    decreases polls.len(),
{
    if polls.len() > 0 {
        let before = polls.drop_last();
        polls_keep_to_the_code_and_the_pace(client_id, auth, before);
        assert(polls[polls.len() - 1] == polls.last());
        if forall|i: int| 0 <= i < polls.len() ==> is_open(#[trigger] polls[i]) {
            assert forall|i: int| 0 <= i < before.len() implies is_open(#[trigger] before[i]) by {
                assert(before[i] == polls[i]);
            }
        }
        if device_flow_after(client_id, auth, polls) is Poll {
            assert forall|i: int| 0 <= i < polls.len() implies is_open(#[trigger] polls[i]) by {
                if i < before.len() {
                    assert(before[i] == polls[i]);
                }
            }
        }
    }
}

/// What a poll that settles something comes to: the token, or what went wrong. (One
/// that settles nothing comes to an empty failure.)
pub open spec fn verdict(poll: Result<PollModel, Seq<char>>) -> Result<Seq<char>, Seq<char>> {
    match poll {
        Ok(PollModel::Token(token)) => Ok(token),
        Ok(PollModel::Failed(e)) => Err(e),
        Ok(_) => Err(Seq::empty()),
        Err(e) => Err(e),
    }
}

/// The first poll that settles anything ends the flow, with the token or the error that
/// it brought, whatever comes after it.
pub proof fn the_first_verdict_counts(
    client_id: Seq<char>,
    auth: DeviceAuthModel,
    polls: Seq<Result<PollModel, Seq<char>>>,
    i: int,
)
    requires
        0 <= i < polls.len(),
        !is_open(polls[i]),
        forall|j: int| 0 <= j < i ==> is_open(#[trigger] polls[j]),
    ensures
        device_flow_after(client_id, auth, polls) == DeviceMove::Done(verdict(polls[i])),
    decreases polls.len(),
{
    let before = polls.drop_last();
    assert forall|j: int| 0 <= j < i implies is_open(#[trigger] before[j]) by {
        assert(before[j] == polls[j]);
    }
    if i < before.len() {
        the_first_verdict_counts(client_id, auth, before, i);
    } else {
        polls_keep_to_the_code_and_the_pace(client_id, auth, before);
    }
}

/// What the user is told while the flow waits.
pub open spec fn instructions(auth: DeviceAuthModel) -> Seq<char> {
    "\n  To authorize llmfit to open a pull request on your behalf:\n\n    1. Open "@
        + auth.verification_uri + "\n    2. Enter code: "@ + auth.user_code
        + "\n\n  Waiting for authorization (Ctrl-C to cancel)...\n"@
}

/// The user is told the address and the user code, in this order and in full; the device
/// code and the pace are kept from the user.
pub proof fn instructions_tell_address_and_code(auth: DeviceAuthModel, other: DeviceAuthModel) -> (r: (
    int,
    int,
))
    ensures
        0 <= r.0,
        r.0 + auth.verification_uri.len() <= r.1,
        r.1 + auth.user_code.len() <= instructions(auth).len(),
        instructions(auth).subrange(r.0, r.0 + auth.verification_uri.len())
            == auth.verification_uri,
        instructions(auth).subrange(r.1, r.1 + auth.user_code.len()) == auth.user_code,
        auth.verification_uri == other.verification_uri && auth.user_code == other.user_code
            ==> instructions(auth) == instructions(other),
{
    let a = "\n  To authorize llmfit to open a pull request on your behalf:\n\n    1. Open "@;
    let b = "\n    2. Enter code: "@;
    let address = a.len() as int;
    let code = address + auth.verification_uri.len() + b.len();
    let text = instructions(auth);
    assert(text.subrange(address, address + auth.verification_uri.len())
        =~= auth.verification_uri);
    assert(text.subrange(code, code + auth.user_code.len()) =~= auth.user_code);
    (address, code)
}

/// What the user is told while the flow waits.
pub fn device_instructions(auth: &DeviceAuth) -> (text: String)
    ensures
        text@ == instructions(auth@),
        text@ == "\n  To authorize llmfit to open a pull request on your behalf:\n\n    1. Open "@
            + auth.verification_uri@ + "\n    2. Enter code: "@ + auth.user_code@
            + "\n\n  Waiting for authorization (Ctrl-C to cancel)...\n"@,
{
    let mut text = "\n  To authorize llmfit to open a pull request on your behalf:\n\n    1. Open ".to_owned();
    text.append(auth.verification_uri.as_str());
    text.append("\n    2. Enter code: ");
    text.append(auth.user_code.as_str());
    text.append("\n\n  Waiting for authorization (Ctrl-C to cancel)...\n");
    text
}

} // verus!
