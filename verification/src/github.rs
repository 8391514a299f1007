//! The GitHub REST API, as far as a submission uses it: the requests that are sent,
//! and what the replies to them mean.

use crate::encoding::{base64_encode, base64_is_injective, base64_text, fits_base64};
use crate::json::{
    document_in, entries, entry, flag_member, json_flag, json_member, member_of,
    members_are_read_in_their_places, null_document, object_of, parse_json, render_object,
    text_member, text_member_of, value_of, written_members_read_back, Entry, JsonNode,
};
use crate::submission::{BenchResult, BenchSummary, Figure, VERSION};
use crate::text::{
    decimal, decimal_text, decimals_read_back, joined, number_read, option_text, result_text,
    same_text,
};
use vstd::prelude::*;
use vstd::string::*;

verus! {

pub const UPSTREAM_OWNER: &'static str = "AlexsJones";

pub const UPSTREAM_REPO: &'static str = "llmfit";

pub const UPSTREAM_BRANCH: &'static str = "main";

pub const API: &'static str = "https://api.github.com";

// ---------------------------------------------------------------------------
// Requests
// ---------------------------------------------------------------------------

/// The method of a request.
#[derive(Clone, Copy, PartialEq, Eq, Structural, Debug)]
pub enum Method {
    Get,
    Post,
    Put,
}

/// A request that is ready to be sent. A body is JSON.
pub struct Request {
    pub method: Method,
    pub url: String,
    pub headers: Vec<Entry>,
    pub body: Option<Vec<u8>>,
}

/// A request as the server understands it: the body is the document that its bytes
/// hold.
pub struct RequestModel {
    pub method: Method,
    pub url: Seq<char>,
    pub headers: Seq<(Seq<char>, Seq<char>)>,
    pub body: Option<Map<Seq<Seq<char>>, JsonNode>>,
}

impl View for Request {
    type V = RequestModel;

    open spec fn view(&self) -> RequestModel {
        RequestModel {
            method: self.method,
            url: self.url@,
            headers: entries(self.headers@),
            body: match self.body {
                Some(bytes) => Some(document_in(bytes@)),
                None => None,
            },
        }
    }
}

/// How the tool introduces itself.
pub open spec fn user_agent() -> Seq<char> {
    "llmfit/"@ + VERSION@
}

/// How the tool introduces itself.
pub fn user_agent_text() -> (r: String)
    ensures
        r@ == user_agent(),
{
    joined("llmfit/", VERSION)
}

/// The headers of every request to the API.
pub open spec fn api_headers(token: Seq<char>) -> Seq<(Seq<char>, Seq<char>)> {
    seq![
        ("Authorization"@, "Bearer "@ + token),
        ("Accept"@, "application/vnd.github+json"@),
        ("User-Agent"@, user_agent()),
        ("X-GitHub-Api-Version"@, "2022-11-28"@),
    ]
}

/// A request that reads.
pub open spec fn get(url: Seq<char>, token: Seq<char>) -> RequestModel {
    RequestModel { method: Method::Get, url, headers: api_headers(token), body: None }
}

/// A request that sends an object with these members.
pub open spec fn send(
    method: Method,
    url: Seq<char>,
    token: Seq<char>,
    members: Seq<(Seq<char>, Seq<char>)>,
) -> RequestModel {
    RequestModel { method, url, headers: api_headers(token), body: Some(object_of(members)) }
}

/// The request that a method name asks for; an object without members is sent where
/// no other is given.
pub open spec fn api_request(
    method: Seq<char>,
    url: Seq<char>,
    token: Seq<char>,
    members: Option<Seq<(Seq<char>, Seq<char>)>>,
) -> Result<RequestModel, Seq<char>> {
    let sent = match members {
        Some(list) => list,
        None => Seq::empty(),
    };
    if method == "GET"@ {
        Ok(get(url, token))
    } else if method == "POST"@ {
        Ok(send(Method::Post, url, token, sent))
    } else if method == "PUT"@ {
        Ok(send(Method::Put, url, token, sent))
    } else {
        Err("unsupported method "@ + method)
    }
}

fn header_list(token: &str) -> (headers: Vec<Entry>)
    ensures
        entries(headers@) == api_headers(token@),
{
    let mut headers: Vec<Entry> = Vec::new();
    headers.push(entry("Authorization", joined("Bearer ", token).as_str()));
    headers.push(entry("Accept", "application/vnd.github+json"));
    headers.push(entry("User-Agent", user_agent_text().as_str()));
    headers.push(entry("X-GitHub-Api-Version", "2022-11-28"));
    assert(entries(headers@) =~= api_headers(token@));
    headers
}

fn get_request(url: String, token: &str) -> (r: Request)
    ensures
        r@ == get(url@, token@),
{
    Request { method: Method::Get, url, headers: header_list(token), body: None }
}

fn send_request(method: Method, url: String, token: &str, members: &Vec<Entry>) -> (r: Request)
    ensures
        r@ == send(method, url@, token@, entries(members@)),
{
    Request { method, url, headers: header_list(token), body: Some(render_object(members)) }
}

/// An authenticated request to the API.
pub fn api(method: &str, url: &str, token: &str, members: Option<Vec<Entry>>) -> (r: Result<
    Request,
    String,
>)
    ensures
        match r {
            Ok(request) => Ok::<RequestModel, Seq<char>>(request@),
            Err(e) => Err::<RequestModel, Seq<char>>(e@),
        } == api_request(
            method@,
            url@,
            token@,
            match members {
                Some(list) => Some(entries(list@)),
                None => None,
            },
        ),
{
    let sent: Vec<Entry> = match members {
        Some(list) => list,
        None => {
            let none: Vec<Entry> = Vec::new();
            assert(entries(none@) =~= Seq::empty());
            none
        },
    };
    if same_text(method, "GET") {
        Ok(get_request(url.to_owned(), token))
    } else if same_text(method, "POST") {
        Ok(send_request(Method::Post, url.to_owned(), token, &sent))
    } else if same_text(method, "PUT") {
        Ok(send_request(Method::Put, url.to_owned(), token, &sent))
    } else {
        Err(joined("unsupported method ", method))
    }
}

/// The name of a method.
pub open spec fn method_text(method: Method) -> Seq<char> {
    match method {
        Method::Get => "GET"@,
        Method::Post => "POST"@,
        Method::Put => "PUT"@,
    }
}

/// What is reported when a request could not be carried out.
pub open spec fn failure_text(method: Method, url: Seq<char>, error: Seq<char>) -> Seq<char> {
    method_text(method) + " "@ + url + " failed: "@ + error
}

/// What is reported when the request to `url` could not be carried out, for the
/// reason `error`.
pub fn api_failure(method: Method, url: &str, error: &str) -> (r: String)
    ensures
        r@ == failure_text(method, url@, error@),
{
    let name = match method {
        Method::Get => "GET",
        Method::Post => "POST",
        Method::Put => "PUT",
    };
    let mut r = name.to_owned();
    r.append(" ");
    r.append(url);
    r.append(" failed: ");
    r.append(error);
    r
}

// ---------------------------------------------------------------------------
// Replies
// ---------------------------------------------------------------------------

/// What is read of a reply of the API: its status, and what of these members its body
/// has.
pub struct Reply {
    pub status: u16,
    /// The member `message`, which explains an error.
    pub message: Option<String>,
    /// The member `login`.
    pub login: Option<String>,
    /// The member `sha` of the member `object`.
    pub sha: Option<String>,
    /// The member `html_url`.
    pub html_url: Option<String>,
    /// The member `fork`: whether a repository is a fork.
    pub fork: Option<bool>,
    /// The member `full_name` of the member `parent`: what a repository was forked from.
    pub parent: Option<String>,
    /// The member `full_name` of the member `source`: where its line of forks began.
    pub source: Option<String>,
}

/// A reply, with its strings as character sequences.
pub struct ReplyModel {
    pub status: u16,
    pub message: Option<Seq<char>>,
    pub login: Option<Seq<char>>,
    pub sha: Option<Seq<char>>,
    pub html_url: Option<Seq<char>>,
    pub fork: Option<bool>,
    pub parent: Option<Seq<char>>,
    pub source: Option<Seq<char>>,
}

impl View for Reply {
    type V = ReplyModel;

    open spec fn view(&self) -> ReplyModel {
        ReplyModel {
            status: self.status,
            message: option_text(self.message),
            login: option_text(self.login),
            sha: option_text(self.sha),
            html_url: option_text(self.html_url),
            fork: self.fork,
            parent: option_text(self.parent),
            source: option_text(self.source),
        }
    }
}

/// What is read of a reply with this status and this document as its body.
pub open spec fn reply_of(status: u16, nodes: Map<Seq<Seq<char>>, JsonNode>) -> ReplyModel {
    ReplyModel {
        status,
        message: text_member(nodes, "message"@),
        login: text_member(nodes, "login"@),
        sha: text_member(member_of(nodes, "object"@), "sha"@),
        html_url: text_member(nodes, "html_url"@),
        fork: flag_member(nodes, "fork"@),
        parent: text_member(member_of(nodes, "parent"@), "full_name"@),
        source: text_member(member_of(nodes, "source"@), "full_name"@),
    }
}

proof fn lemma_null_has_no_members(key: Seq<char>)
    ensures
        text_member(null_document(), key) is None,
        flag_member(null_document(), key) is None,
        member_of(null_document(), key) == null_document(),
{
    assert(seq![key].len() == 1);
}

/// A reply without anything to read in its body.
fn unread_reply(status: u16) -> (reply: Reply)
    ensures
        reply@ == reply_of(status, null_document()),
{
    proof {
        lemma_null_has_no_members("message"@);
        lemma_null_has_no_members("login"@);
        lemma_null_has_no_members("object"@);
        lemma_null_has_no_members("sha"@);
        lemma_null_has_no_members("html_url"@);
        lemma_null_has_no_members("fork"@);
        lemma_null_has_no_members("parent"@);
        lemma_null_has_no_members("source"@);
        lemma_null_has_no_members("full_name"@);
    }
    Reply {
        status,
        message: None,
        login: None,
        sha: None,
        html_url: None,
        fork: None,
        parent: None,
        source: None,
    }
}

/// What is read of a reply. A body that is not JSON reads as if it were `null`.
pub fn read_reply(status: u16, body: &[u8]) -> (reply: Reply)
    ensures
        reply@ == reply_of(status, document_in(body@)),
{
    match parse_json(body) {
        Ok(v) => Reply {
            status,
            message: text_member_of(&v, "message"),
            login: text_member_of(&v, "login"),
            sha: text_member_of(json_member(&v, "object"), "sha"),
            html_url: text_member_of(&v, "html_url"),
            fork: json_flag(json_member(&v, "fork")),
            parent: text_member_of(json_member(&v, "parent"), "full_name"),
            source: text_member_of(json_member(&v, "source"), "full_name"),
        },
        Err(_) => unread_reply(status),
    }
}

/// What came of sending a request.
pub enum Exchange {
    /// There was a reply, and this is its body.
    Replied { status: u16, body: Vec<u8> },
    /// There was a reply, but its body could not be read.
    Unread { status: u16, error: String },
    /// There was no reply.
    Failed { error: String },
}

/// What an exchange with the API comes to: a reply, or the message that says why
/// there is none. A body that could not be read is taken for `null`.
pub open spec fn received(method: Method, url: Seq<char>, exchange: Exchange) -> Result<
    ReplyModel,
    Seq<char>,
> {
    match exchange {
        Exchange::Replied { status, body } => Ok(reply_of(status, document_in(body@))),
        Exchange::Unread { status, error } => Ok(reply_of(status, null_document())),
        Exchange::Failed { error } => Err(failure_text(method, url, error@)),
    }
}

/// What the exchange with the API about a request comes to.
pub fn api_reply(method: Method, url: &str, exchange: &Exchange) -> (r: Result<Reply, String>)
    ensures
        match r {
            Ok(reply) => Ok::<ReplyModel, Seq<char>>(reply@),
            Err(e) => Err::<ReplyModel, Seq<char>>(e@),
        } == received(method, url@, *exchange),
{
    match exchange {
        Exchange::Replied { status, body } => Ok(read_reply(*status, body.as_slice())),
        Exchange::Unread { status, error } => Ok(unread_reply(*status)),
        Exchange::Failed { error } => Err(api_failure(method, url, error.as_str())),
    }
}

/// The request was carried out.
pub open spec fn is_success(status: u16) -> bool {
    200 <= status < 300
}

/// The message for a reply that reports an error.
pub open spec fn api_error_text(reply: ReplyModel) -> Seq<char> {
    "GitHub API returned "@ + decimal(reply.status as nat) + ": "@ + (match reply.message {
        Some(message) => message,
        None => "unknown error"@,
    })
}

/// Extract a human-readable error message from a GitHub error reply.
pub fn api_error(reply: &Reply) -> (r: String)
    ensures
        r@ == api_error_text(reply@),
{
    let mut r = "GitHub API returned ".to_owned();
    r.append(decimal_text(reply.status as u64).as_str());
    r.append(": ");
    match &reply.message {
        Some(message) => r.append(message.as_str()),
        None => r.append("unknown error"),
    }
    r
}

/// What a reply yields: the message of an error where the request was not carried
/// out, or else the text that was asked for, or `missing` where it is not there.
pub open spec fn yields(
    reply: ReplyModel,
    wanted: Option<Seq<char>>,
    missing: Seq<char>,
) -> Result<Seq<char>, Seq<char>> {
    if !is_success(reply.status) {
        Err(api_error_text(reply))
    } else {
        match wanted {
            Some(text) => Ok(text),
            None => Err(missing),
        }
    }
}

fn yielded(reply: &Reply, wanted: &Option<String>, missing: &str) -> (r: Result<String, String>)
    ensures
        result_text(r) == yields(reply@, option_text(*wanted), missing@),
{
    if !(200 <= reply.status && reply.status < 300) {
        return Err(api_error(reply));
    }
    match wanted {
        Some(text) => Ok(text.clone()),
        None => Err(missing.to_owned()),
    }
}

// ---------------------------------------------------------------------------
// The user
// ---------------------------------------------------------------------------

/// The request for the user that the token belongs to.
pub open spec fn user_lookup(token: Seq<char>) -> RequestModel {
    get(API@ + "/user"@, token)
}

/// The request for the user that the token belongs to.
pub fn whoami_request(token: &str) -> (r: Request)
    ensures
        r@ == user_lookup(token@),
{
    get_request(joined(API, "/user"), token)
}

/// What the reply to [`user_lookup`] says.
pub open spec fn user_in(reply: ReplyModel) -> Result<Seq<char>, Seq<char>> {
    if reply.status == 401 {
        Err("GitHub token is invalid or expired (401)"@)
    } else {
        yields(reply, reply.login, "could not determine GitHub username"@)
    }
}

/// The name of the user that the token belongs to.
pub fn whoami(reply: &Reply) -> (r: Result<String, String>)
    ensures
        result_text(r) == user_in(reply@),
{
    if reply.status == 401 {
        return Err("GitHub token is invalid or expired (401)".to_owned());
    }
    yielded(reply, &reply.login, "could not determine GitHub username")
}

// ---------------------------------------------------------------------------
// The fork
// ---------------------------------------------------------------------------

/// The address of the user's own copy of the repository.
pub open spec fn fork_url(login: Seq<char>) -> Seq<char> {
    API@ + "/repos/"@ + login + "/"@ + UPSTREAM_REPO@
}

/// The address of the repository.
pub open spec fn upstream_url() -> Seq<char> {
    API@ + "/repos/"@ + UPSTREAM_OWNER@ + "/"@ + UPSTREAM_REPO@
}

fn fork_address(login: &str) -> (url: String)
    ensures
        url@ == fork_url(login@),
{
    let mut url = joined(API, "/repos/");
    url.append(login);
    url.append("/");
    url.append(UPSTREAM_REPO);
    url
}

/// The request that asks whether the fork is there.
pub open spec fn fork_lookup(token: Seq<char>, login: Seq<char>) -> RequestModel {
    get(fork_url(login), token)
}

/// The request that asks whether the fork is there.
pub fn fork_lookup_request(token: &str, login: &str) -> (r: Request)
    ensures
        r@ == fork_lookup(token@, login@),
{
    get_request(fork_address(login), token)
}

/// The request that makes the fork.
pub open spec fn fork_creation(token: Seq<char>) -> RequestModel {
    send(Method::Post, upstream_url() + "/forks"@, token, Seq::empty())
}

/// The request that makes the fork.
pub fn fork_creation_request(token: &str) -> (r: Request)
    ensures
        r@ == fork_creation(token@),
{
    let none: Vec<Entry> = Vec::new();
    assert(entries(none@) =~= Seq::empty());
    send_request(Method::Post, joined(fork_address(UPSTREAM_OWNER).as_str(), "/forks"), token, &none)
}

/// How often a new fork is asked for before it is given up.
pub const FORK_TRIES: u8 = 15;

/// The seconds to wait before each such question.
pub const FORK_PAUSE_SECS: u64 = 2;

/// What was asked of the fork last.
#[derive(Clone, Copy, PartialEq, Eq, Structural, Debug)]
pub enum ForkQuestion {
    /// Whether it is there.
    Lookup,
    /// To be made.
    Creation,
    /// Whether it is ready by now; that may be asked so many times more.
    Ready { tries_left: u8 },
}

/// What to do about the fork next.
pub enum ForkStep<T> {
    /// Nothing: it is there.
    Done,
    /// Make it.
    Create,
    /// Wait, then ask whether it is ready; that may be asked so many times more.
    Wait { tries_left: u8 },
    /// Give up, for this reason.
    GiveUp(T),
}

impl View for ForkStep<String> {
    type V = ForkStep<Seq<char>>;

    open spec fn view(&self) -> ForkStep<Seq<char>> {
        match self {
            ForkStep::Done => ForkStep::Done,
            ForkStep::Create => ForkStep::Create,
            ForkStep::Wait { tries_left } => ForkStep::Wait { tries_left: *tries_left },
            ForkStep::GiveUp(e) => ForkStep::GiveUp(e@),
        }
    }
}

/// The name of the repository, with that of its owner.
pub open spec fn upstream_name() -> Seq<char> {
    UPSTREAM_OWNER@ + "/"@ + UPSTREAM_REPO@
}

/// The reply to [`fork_lookup`] says that the fork is there: the user has a repository
/// of that name, it is a fork, and it was forked from the repository itself or comes
/// from it by way of other forks.
pub open spec fn shows_fork(reply: ReplyModel) -> bool {
    &&& reply.status == 200
    &&& reply.fork == Some(true)
    &&& reply.parent == Some(upstream_name()) || reply.source == Some(upstream_name())
}

fn is_upstream_name(name: &Option<String>) -> (r: bool)
    ensures
        r == (option_text(*name) == Some(upstream_name())),
{
    match name {
        Some(text) => {
            let mut upstream = joined(UPSTREAM_OWNER, "/");
            upstream.append(UPSTREAM_REPO);
            same_text(text.as_str(), upstream.as_str())
        },
        None => false,
    }
}

fn fork_is_there(reply: &Reply) -> (r: bool)
    ensures
        r == shows_fork(reply@),
{
    let marked = match reply.fork {
        Some(mark) => mark,
        None => false,
    };
    reply.status == 200 && marked && (is_upstream_name(&reply.parent) || is_upstream_name(
        &reply.source,
    ))
}

/// What the reply to a question about the fork leads to. Forking is asynchronous:
/// a new fork is asked for until it responds. A repository that merely has the name
/// of the fork does not pass for it.
pub open spec fn fork_step(question: ForkQuestion, reply: ReplyModel) -> ForkStep<Seq<char>> {
    match question {
        ForkQuestion::Lookup => if shows_fork(reply) {
            ForkStep::Done
        } else {
            ForkStep::Create
        },
        ForkQuestion::Creation => if is_success(reply.status) {
            ForkStep::Wait { tries_left: (FORK_TRIES - 1) as u8 }
        } else {
            ForkStep::GiveUp(api_error_text(reply))
        },
        ForkQuestion::Ready { tries_left } => if shows_fork(reply) {
            ForkStep::Done
        } else if tries_left > 0 {
            ForkStep::Wait { tries_left: (tries_left - 1) as u8 }
        } else {
            ForkStep::GiveUp("fork was not ready after waiting; try --share again shortly"@)
        },
    }
}

/// Ensure the authenticated user has a fork of the upstream repo, creating one if
/// needed and waiting until it is queryable: what to do after the reply to a
/// question about it.
pub fn ensure_fork(question: ForkQuestion, reply: &Reply) -> (step: ForkStep<String>)
    ensures
        step@ == fork_step(question, reply@),
{
    match question {
        ForkQuestion::Lookup => if fork_is_there(reply) {
            ForkStep::Done
        } else {
            ForkStep::Create
        },
        ForkQuestion::Creation => if 200 <= reply.status && reply.status < 300 {
            ForkStep::Wait { tries_left: FORK_TRIES - 1 }
        } else {
            ForkStep::GiveUp(api_error(reply))
        },
        ForkQuestion::Ready { tries_left } => if fork_is_there(reply) {
            ForkStep::Done
        } else if tries_left > 0 {
            ForkStep::Wait { tries_left: tries_left - 1 }
        } else {
            ForkStep::GiveUp(
                "fork was not ready after waiting; try --share again shortly".to_owned(),
            )
        },
    }
}

/// The question about the fork is settled only by a reply that shows it: what was
/// looked up last answered with success, is a fork, and comes from the repository.
pub proof fn only_a_fork_will_do(question: ForkQuestion, reply: ReplyModel)
    ensures
        fork_step(question, reply) is Done <==> !(question is Creation) && shows_fork(reply),
{
}

// ---------------------------------------------------------------------------
// The branch
// ---------------------------------------------------------------------------

/// The request for the commit that the repository is at.
pub open spec fn head_lookup(token: Seq<char>) -> RequestModel {
    get(upstream_url() + "/git/ref/heads/"@ + UPSTREAM_BRANCH@, token)
}

/// The request for the commit that the repository is at.
pub fn upstream_head_request(token: &str) -> (r: Request)
    ensures
        r@ == head_lookup(token@),
{
    let mut url = joined(fork_address(UPSTREAM_OWNER).as_str(), "/git/ref/heads/");
    url.append(UPSTREAM_BRANCH);
    get_request(url, token)
}

/// What the reply to [`head_lookup`] says.
pub open spec fn head_in(reply: ReplyModel) -> Result<Seq<char>, Seq<char>> {
    yields(reply, reply.sha, "could not read upstream head sha"@)
}

/// The commit that the repository is at.
pub fn upstream_head_sha(reply: &Reply) -> (r: Result<String, String>)
    ensures
        result_text(r) == head_in(reply@),
{
    yielded(reply, &reply.sha, "could not read upstream head sha")
}

/// The request that makes a branch at a commit.
pub open spec fn branch_creation(
    token: Seq<char>,
    login: Seq<char>,
    branch: Seq<char>,
    sha: Seq<char>,
) -> RequestModel {
    send(
        Method::Post,
        fork_url(login) + "/git/refs"@,
        token,
        seq![("ref"@, "refs/heads/"@ + branch), ("sha"@, sha)],
    )
}

/// The request that makes the branch `branch` at the commit `sha`.
pub fn create_branch_request(token: &str, login: &str, branch: &str, sha: &str) -> (r: Request)
    ensures
        r@ == branch_creation(token@, login@, branch@, sha@),
{
    let mut members: Vec<Entry> = Vec::new();
    members.push(entry("ref", joined("refs/heads/", branch).as_str()));
    members.push(entry("sha", sha));
    assert(entries(members@) =~= seq![("ref"@, "refs/heads/"@ + branch@), ("sha"@, sha@)]);
    send_request(
        Method::Post,
        joined(fork_address(login).as_str(), "/git/refs"),
        token,
        &members,
    )
}

/// The outcome of a request that yields nothing but its success.
pub open spec fn outcome_text(r: Result<(), String>) -> Result<(), Seq<char>> {
    match r {
        Ok(_) => Ok(()),
        Err(e) => Err(e@),
    }
}

/// What the reply to [`branch_creation`] says. The status 422 typically means that
/// the branch is there already, which is as good.
pub open spec fn branch_outcome(reply: ReplyModel) -> Result<(), Seq<char>> {
    if reply.status == 201 || reply.status == 422 {
        Ok(())
    } else {
        Err(api_error_text(reply))
    }
}

/// Whether the branch is there.
pub fn create_branch(reply: &Reply) -> (r: Result<(), String>)
    ensures
        outcome_text(r) == branch_outcome(reply@),
{
    if reply.status == 201 || reply.status == 422 {
        return Ok(());
    }
    Err(api_error(reply))
}

// ---------------------------------------------------------------------------
// The file
// ---------------------------------------------------------------------------

/// The request that commits a file to a branch.
pub open spec fn file_commit(
    token: Seq<char>,
    login: Seq<char>,
    branch: Seq<char>,
    path: Seq<char>,
    content: Seq<char>,
    message: Seq<char>,
) -> RequestModel {
    send(
        Method::Put,
        fork_url(login) + "/contents/"@ + path,
        token,
        seq![
            ("message"@, message),
            ("content"@, base64_text(vstd::utf8::encode_utf8(content))),
            ("branch"@, branch),
        ],
    )
}

/// The request that commits the file `path` with the text `content` to the branch
/// `branch`.
pub fn put_file_request(
    token: &str,
    login: &str,
    branch: &str,
    path: &str,
    content: &str,
    message: &str,
) -> (r: Request)
    requires
        fits_base64(content@),
    ensures
        r@ == file_commit(token@, login@, branch@, path@, content@, message@),
{
    let mut url = joined(fork_address(login).as_str(), "/contents/");
    url.append(path);
    let mut members: Vec<Entry> = Vec::new();
    members.push(entry("message", message));
    members.push(entry("content", base64_encode(content).as_str()));
    members.push(entry("branch", branch));
    assert(entries(members@) =~= seq![
        ("message"@, message@),
        ("content"@, base64_text(vstd::utf8::encode_utf8(content@))),
        ("branch"@, branch@),
    ]);
    send_request(Method::Put, url, token, &members)
}

/// The request that commits a file says what it is to say: the message, the branch,
/// and the base64 text of the content.
pub proof fn commits_say_what_they_commit(
    token: Seq<char>,
    login: Seq<char>,
    branch: Seq<char>,
    path: Seq<char>,
    content: Seq<char>,
    message: Seq<char>,
)
    ensures
        ({
            let body = file_commit(token, login, branch, path, content, message).body->0;
            &&& text_member(body, "message"@) == Some(message)
            &&& text_member(body, "content"@) == Some(
                base64_text(vstd::utf8::encode_utf8(content)),
            )
            &&& text_member(body, "branch"@) == Some(branch)
        }),
{
    let members = seq![
        ("message"@, message),
        ("content"@, base64_text(vstd::utf8::encode_utf8(content))),
        ("branch"@, branch),
    ];
    reveal_strlit("message");
    reveal_strlit("content");
    reveal_strlit("branch");
    assert("message"@[0] != "content"@[0]);
    assert("message"@[0] != "branch"@[0]);
    assert("content"@[0] != "branch"@[0]);
    written_members_read_back(members, "message"@);
    written_members_read_back(members, "content"@);
    written_members_read_back(members, "branch"@);
    reveal_with_fuel(value_of, 4);
    let two = members.drop_last();
    assert(members.last() == members[2]);
    assert(two.last() == members[1]);
    assert(two.drop_last().last() == members[0]);
}

/// Nothing of a file is lost on the way: different contents make different requests.
pub proof fn contents_are_not_confused(content: Seq<char>, other: Seq<char>)
    requires
        base64_text(vstd::utf8::encode_utf8(content)) == base64_text(
            vstd::utf8::encode_utf8(other),
        ),
    ensures
        content == other,
{
    base64_is_injective(vstd::utf8::encode_utf8(content), vstd::utf8::encode_utf8(other));
    vstd::utf8::encode_utf8_decode_utf8(content);
    vstd::utf8::encode_utf8_decode_utf8(other);
}

/// What the reply to [`file_commit`] says.
pub open spec fn file_outcome(reply: ReplyModel) -> Result<(), Seq<char>> {
    if is_success(reply.status) {
        Ok(())
    } else {
        Err(api_error_text(reply))
    }
}

/// Whether the file was committed.
pub fn put_file(reply: &Reply) -> (r: Result<(), String>)
    ensures
        outcome_text(r) == file_outcome(reply@),
{
    if !(200 <= reply.status && reply.status < 300) {
        return Err(api_error(reply));
    }
    Ok(())
}

// ---------------------------------------------------------------------------
// The pull request
// ---------------------------------------------------------------------------

/// An optional figure in a table.
pub open spec fn shown_figure(figure: Option<Figure>) -> Seq<char> {
    match figure {
        Some(f) => f.shown@,
        None => "—"@,
    }
}

/// The row of a table for one result.
pub open spec fn table_row(result: BenchResult) -> Seq<char> {
    "| "@ + result.model@ + " | "@ + result.provider@ + " | "@ + result.summary.avg_tps.shown@
        + " | "@ + shown_figure(result.summary.avg_ttft_ms) + " |\n"@
}

/// The rows of a table, one for each result, in their order.
pub open spec fn table_rows(results: Seq<BenchResult>) -> Seq<char>
    decreases results.len(),
{
    if results.len() == 0 {
        Seq::empty()
    } else {
        table_rows(results.drop_last()) + table_row(results.last())
    }
}

/// The description of the pull request.
pub open spec fn pr_description(results: Seq<BenchResult>) -> Seq<char> {
    "Automated benchmark contribution from `llmfit bench --share`.\n\n| Model | Provider | Avg TPS | Avg TTFT (ms) |\n| --- | --- | --- | --- |\n"@
        + table_rows(results)
        + "\n_Submitted without the `gh` CLI via the GitHub device flow._\n"@
}

/// The description of the pull request: a table of the results.
pub fn pr_body(results: &Vec<BenchResult>) -> (body: String)
    ensures
        body@ == pr_description(results@),
{
    let mut body = "Automated benchmark contribution from `llmfit bench --share`.\n\n| Model | Provider | Avg TPS | Avg TTFT (ms) |\n| --- | --- | --- | --- |\n".to_owned();
    let ghost head = body@;
    let mut i: usize = 0;
    while i < results.len()
        invariant
            i <= results@.len(),
            body@ == head + table_rows(results@.take(i as int)),
        decreases results@.len() - i,
    {
        assert(results@.take(i + 1).drop_last() == results@.take(i as int));
        let ghost before = body@;
        let result = &results[i];
        body.append("| ");
        body.append(result.model.as_str());
        body.append(" | ");
        body.append(result.provider.as_str());
        body.append(" | ");
        body.append(result.summary.avg_tps.shown.as_str());
        body.append(" | ");
        match &result.summary.avg_ttft_ms {
            Some(figure) => body.append(figure.shown.as_str()),
            None => body.append("—"),
        }
        body.append(" |\n");
        assert(body@ =~= before + table_row(results@[i as int]));
        i += 1;
    }
    assert(results@.take(results@.len() as int) == results@);
    body.append("\n_Submitted without the `gh` CLI via the GitHub device flow._\n");
    body
}

/// What the table says of the time to the first token: the figure as it is shown, or a dash
/// where it was not measured.
pub open spec fn ttft_cell(summary: BenchSummary) -> Seq<char> {
    match summary.avg_ttft_ms {
        Some(figure) => figure.shown@,
        None => "—"@,
    }
}

/// The table depends on the model, the provider, the average throughput and the average
/// time to the first token alone: results that agree in these four texts have the same
/// description, whatever their other figures are.
pub proof fn tables_show_averages_alone(results: Seq<BenchResult>, others: Seq<BenchResult>)
    requires
        results.len() == others.len(),
        forall|i: int| #![trigger results[i]] #![trigger others[i]]
            0 <= i < results.len() ==> {
                &&& results[i].model@ == others[i].model@
                &&& results[i].provider@ == others[i].provider@
                &&& results[i].summary.avg_tps.shown@ == others[i].summary.avg_tps.shown@
                &&& ttft_cell(results[i].summary) == ttft_cell(others[i].summary)
            },
    ensures
        pr_description(results) == pr_description(others),
{
    lemma_rows_agree(results, others);
}

proof fn lemma_rows_agree(results: Seq<BenchResult>, others: Seq<BenchResult>)
    requires
        results.len() == others.len(),
        forall|i: int| #![trigger results[i]] #![trigger others[i]]
            0 <= i < results.len() ==> {
                &&& results[i].model@ == others[i].model@
                &&& results[i].provider@ == others[i].provider@
                &&& results[i].summary.avg_tps.shown@ == others[i].summary.avg_tps.shown@
                &&& ttft_cell(results[i].summary) == ttft_cell(others[i].summary)
            },
    ensures
        table_rows(results) == table_rows(others),
    decreases results.len(),
{
    if results.len() > 0 {
        let last = results.len() - 1;
        assert(results[last].model@ == others[last].model@);
        lemma_rows_agree(results.drop_last(), others.drop_last());
    }
}

proof fn lemma_rows_contain(results: Seq<BenchResult>, i: int) -> (rest: Seq<char>)
    requires
        0 <= i < results.len(),
    ensures
        table_rows(results) == table_rows(results.take(i)) + table_row(results[i]) + rest,
    decreases results.len(),
{
    if i == results.len() - 1 {
        assert(results.take(i) =~= results.drop_last());
        let rest = Seq::<char>::empty();
        assert(table_rows(results) =~= table_rows(results.take(i)) + table_row(results[i]) + rest);
        rest
    } else {
        let before = results.drop_last();
        let less = lemma_rows_contain(before, i);
        assert(before.take(i) =~= results.take(i));
        let rest = less + table_row(results.last());
        assert(table_rows(results) =~= table_rows(results.take(i)) + table_row(results[i]) + rest);
        rest
    }
}

/// A description without results is the introduction, the heads of the columns and the
/// closing line; each further result adds one row at the end of the table, with its model,
/// its provider, its average throughput and its average time to the first token, in the
/// order of the heads.
pub proof fn tables_grow_by_a_row(results: Seq<BenchResult>, bench: BenchResult)
    ensures
        pr_description(Seq::empty()) == "Automated benchmark contribution from `llmfit bench --share`.\n\n| Model | Provider | Avg TPS | Avg TTFT (ms) |\n| --- | --- | --- | --- |\n"@
            + "\n_Submitted without the `gh` CLI via the GitHub device flow._\n"@,
        ({
            let closing = "\n_Submitted without the `gh` CLI via the GitHub device flow._\n"@;
            let before = pr_description(results);
            let row = "| "@ + bench.model@ + " | "@ + bench.provider@ + " | "@
                + bench.summary.avg_tps.shown@ + " | "@ + ttft_cell(bench.summary) + " |\n"@;
            &&& before.len() >= closing.len()
            &&& pr_description(results.push(bench)) == before.take(before.len() - closing.len())
                + row + closing
        }),
{
    let head = "Automated benchmark contribution from `llmfit bench --share`.\n\n| Model | Provider | Avg TPS | Avg TTFT (ms) |\n| --- | --- | --- | --- |\n"@;
    let closing = "\n_Submitted without the `gh` CLI via the GitHub device flow._\n"@;
    assert(table_rows(Seq::<BenchResult>::empty()) =~= Seq::<char>::empty());
    assert(head + Seq::<char>::empty() =~= head);
    assert(results.push(bench).drop_last() =~= results);
    let before = pr_description(results);
    assert(before.take(before.len() - closing.len()) =~= head + table_rows(results));
    assert(pr_description(results.push(bench)) =~= before.take(before.len() - closing.len())
        + table_row(bench) + closing);
}

/// The cells of the table read back: behind what the results before it take up, the row of a
/// result has, between its separators, the model, the provider, the average throughput and
/// the average time to the first token.
pub proof fn cells_read_back(results: Seq<BenchResult>, i: int)
    requires
        0 <= i < results.len(),
    ensures
        ({
            let text = pr_description(results);
            let bench = results[i];
            let closing = "\n_Submitted without the `gh` CLI via the GitHub device flow._\n"@;
            let model = pr_description(results.take(i)).len() - closing.len() + 2;
            let provider = model + bench.model@.len() + 3;
            let tps = provider + bench.provider@.len() + 3;
            let ttft = tps + bench.summary.avg_tps.shown@.len() + 3;
            let end = ttft + ttft_cell(bench.summary).len();
            &&& text.subrange(model - 2, model) == "| "@
            &&& text.subrange(model, provider - 3) == bench.model@
            &&& text.subrange(provider - 3, provider) == " | "@
            &&& text.subrange(provider, tps - 3) == bench.provider@
            &&& text.subrange(tps - 3, tps) == " | "@
            &&& text.subrange(tps, ttft - 3) == bench.summary.avg_tps.shown@
            &&& text.subrange(ttft - 3, ttft) == " | "@
            &&& text.subrange(ttft, end) == ttft_cell(bench.summary)
            &&& text.subrange(end, end + 3) == " |\n"@
        }),
{
    reveal_strlit("| ");
    reveal_strlit(" | ");
    reveal_strlit(" |\n");
    let rest = lemma_rows_contain(results, i);
    let head = "Automated benchmark contribution from `llmfit bench --share`.\n\n| Model | Provider | Avg TPS | Avg TTFT (ms) |\n| --- | --- | --- | --- |\n"@;
    let closing = "\n_Submitted without the `gh` CLI via the GitHub device flow._\n"@;
    let front = head + table_rows(results.take(i));
    let bench = results[i];
    let text = pr_description(results);
    let tps = bench.summary.avg_tps.shown@;
    let ttft = ttft_cell(bench.summary);
    let i9 = " |\n"@ + (rest + closing);
    let i8 = ttft + i9;
    let i7 = " | "@ + i8;
    let i6 = tps + i7;
    let i5 = " | "@ + i6;
    let i4 = bench.provider@ + i5;
    let i3 = " | "@ + i4;
    let i2 = bench.model@ + i3;
    let i1 = "| "@ + i2;
    assert(text == front + i1) by {
        let row = table_row(bench);
        lemma_regroup(front, row, rest + closing);
        assert(text =~= front + row + (rest + closing)) by {
            let rows = table_rows(results.take(i));
            lemma_regroup(rows, row, rest);
            lemma_regroup(head, rows, row + rest);
            lemma_regroup(front, row + rest, closing);
            lemma_regroup(row, rest, closing);
        }
        lemma_row_regroups(bench, rest + closing);
    }
    lemma_next_piece(text, front, "| "@, i2);
    let a = front + "| "@;
    lemma_next_piece(text, a, bench.model@, i3);
    let b = a + bench.model@;
    lemma_next_piece(text, b, " | "@, i4);
    let c = b + " | "@;
    lemma_next_piece(text, c, bench.provider@, i5);
    let d = c + bench.provider@;
    lemma_next_piece(text, d, " | "@, i6);
    let e = d + " | "@;
    lemma_next_piece(text, e, tps, i7);
    let f = e + tps;
    lemma_next_piece(text, f, " | "@, i8);
    let g = f + " | "@;
    lemma_next_piece(text, g, ttft, i9);
    let h = g + ttft;
    lemma_next_piece(text, h, " |\n"@, rest + closing);
}

proof fn lemma_regroup(a: Seq<char>, b: Seq<char>, c: Seq<char>)
    ensures
        a + b + c == a + (b + c),
{
    assert(a + b + c =~= a + (b + c));
}

proof fn lemma_row_regroups(bench: BenchResult, rest: Seq<char>)
    ensures
        table_row(bench) + rest == "| "@ + (bench.model@ + (" | "@ + (bench.provider@ + (" | "@ + (
        bench.summary.avg_tps.shown@ + (" | "@ + (ttft_cell(bench.summary) + (" |\n"@
            + rest)))))))),
{
    let a = "| "@;
    let b = a + bench.model@;
    let c = b + " | "@;
    let d = c + bench.provider@;
    let e = d + " | "@;
    let f = e + bench.summary.avg_tps.shown@;
    let g = f + " | "@;
    let h = g + ttft_cell(bench.summary);
    let r8 = " |\n"@ + rest;
    let r7 = ttft_cell(bench.summary) + r8;
    let r6 = " | "@ + r7;
    let r5 = bench.summary.avg_tps.shown@ + r6;
    let r4 = " | "@ + r5;
    let r3 = bench.provider@ + r4;
    let r2 = " | "@ + r3;
    lemma_regroup(h, " |\n"@, rest);
    lemma_regroup(g, ttft_cell(bench.summary), r8);
    lemma_regroup(f, " | "@, r7);
    lemma_regroup(e, bench.summary.avg_tps.shown@, r6);
    lemma_regroup(d, " | "@, r5);
    lemma_regroup(c, bench.provider@, r4);
    lemma_regroup(b, " | "@, r3);
    lemma_regroup(a, bench.model@, r2);
}

proof fn lemma_next_piece(text: Seq<char>, front: Seq<char>, piece: Seq<char>, back: Seq<char>)
    requires
        text == front + (piece + back),
    ensures
        text == front + piece + back,
        text.subrange(front.len() as int, front.len() as int + piece.len() as int) == piece,
{
    lemma_regroup(front, piece, back);
    assert(text.subrange(front.len() as int, front.len() as int + piece.len() as int) =~= piece);
}

/// The request that opens the pull request.
pub open spec fn pull_request(
    token: Seq<char>,
    login: Seq<char>,
    branch: Seq<char>,
    results: Seq<BenchResult>,
    slug: Seq<char>,
) -> RequestModel {
    send(
        Method::Post,
        upstream_url() + "/pulls"@,
        token,
        seq![
            ("title"@, "bench: community results for "@ + slug),
            ("head"@, login + ":"@ + branch),
            ("base"@, UPSTREAM_BRANCH@),
            ("body"@, pr_description(results)),
        ],
    )
}

/// The request that opens the pull request for the branch `branch`.
pub fn open_pr_request(
    token: &str,
    login: &str,
    branch: &str,
    results: &Vec<BenchResult>,
    slug: &str,
) -> (r: Request)
    ensures
        r@ == pull_request(token@, login@, branch@, results@, slug@),
{
    let mut head = joined(login, ":");
    head.append(branch);
    let mut members: Vec<Entry> = Vec::new();
    members.push(entry("title", joined("bench: community results for ", slug).as_str()));
    members.push(entry("head", head.as_str()));
    members.push(entry("base", UPSTREAM_BRANCH));
    members.push(entry("body", pr_body(results).as_str()));
    assert(entries(members@) =~= seq![
        ("title"@, "bench: community results for "@ + slug@),
        ("head"@, login@ + ":"@ + branch@),
        ("base"@, UPSTREAM_BRANCH@),
        ("body"@, pr_description(results@)),
    ]);
    send_request(
        Method::Post,
        joined(fork_address(UPSTREAM_OWNER).as_str(), "/pulls"),
        token,
        &members,
    )
}

/// What the reply to [`pull_request`] says.
pub open spec fn pull_request_in(reply: ReplyModel) -> Result<Seq<char>, Seq<char>> {
    yields(reply, reply.html_url, "pull request created but no URL returned"@)
}

/// The address of the pull request that was opened.
pub fn open_pr(reply: &Reply) -> (r: Result<String, String>)
    ensures
        result_text(r) == pull_request_in(reply@),
{
    yielded(reply, &reply.html_url, "pull request created but no URL returned")
}

// ---------------------------------------------------------------------------
// What requests and replies keep to
// ---------------------------------------------------------------------------

/// The address of every request of a submission: the user, the repository of that name with
/// the user, and the repository itself, at `main`, are looked up; the fork and the pull
/// request are made at the repository itself, the branch and the file at the fork.
pub proof fn requests_are_addressed(
    token: Seq<char>,
    login: Seq<char>,
    branch: Seq<char>,
    sha: Seq<char>,
    path: Seq<char>,
    content: Seq<char>,
    message: Seq<char>,
    results: Seq<BenchResult>,
    slug: Seq<char>,
)
    ensures
        user_lookup(token).url == "https://api.github.com/user"@,
        fork_lookup(token, login).url == "https://api.github.com/repos/"@ + login + "/llmfit"@,
        fork_creation(token).url == "https://api.github.com/repos/AlexsJones/llmfit/forks"@,
        head_lookup(token).url
            == "https://api.github.com/repos/AlexsJones/llmfit/git/ref/heads/main"@,
        branch_creation(token, login, branch, sha).url == "https://api.github.com/repos/"@ + login
            + "/llmfit/git/refs"@,
        file_commit(token, login, branch, path, content, message).url
            == "https://api.github.com/repos/"@ + login + "/llmfit/contents/"@ + path,
        pull_request(token, login, branch, results, slug).url
            == "https://api.github.com/repos/AlexsJones/llmfit/pulls"@,
{
    reveal_strlit("https://api.github.com");
    reveal_strlit("https://api.github.com/user");
    reveal_strlit("https://api.github.com/repos/");
    reveal_strlit("https://api.github.com/repos/AlexsJones/llmfit/forks");
    reveal_strlit("https://api.github.com/repos/AlexsJones/llmfit/git/ref/heads/main");
    reveal_strlit("https://api.github.com/repos/AlexsJones/llmfit/pulls");
    reveal_strlit("/user");
    reveal_strlit("/repos/");
    reveal_strlit("/");
    reveal_strlit("/llmfit");
    reveal_strlit("llmfit");
    reveal_strlit("AlexsJones");
    reveal_strlit("main");
    reveal_strlit("/forks");
    reveal_strlit("/git/ref/heads/");
    reveal_strlit("/git/refs");
    reveal_strlit("/llmfit/git/refs");
    reveal_strlit("/contents/");
    reveal_strlit("/llmfit/contents/");
    reveal_strlit("/pulls");
    assert(API@ + "/user"@ =~= "https://api.github.com/user"@);
    assert(API@ + "/repos/"@ =~= "https://api.github.com/repos/"@);
    let repos = "https://api.github.com/repos/"@;
    assert("/"@ + UPSTREAM_REPO@ =~= "/llmfit"@);
    lemma_regroup(repos + login, "/"@, UPSTREAM_REPO@);
    assert(fork_url(login) == repos + login + "/llmfit"@);
    assert("/llmfit"@ + "/git/refs"@ =~= "/llmfit/git/refs"@);
    lemma_regroup(repos + login, "/llmfit"@, "/git/refs"@);
    assert("/llmfit"@ + "/contents/"@ =~= "/llmfit/contents/"@);
    lemma_regroup(repos + login, "/llmfit"@, "/contents/"@);
    assert(upstream_url() + "/forks"@
        =~= "https://api.github.com/repos/AlexsJones/llmfit/forks"@);
    assert(upstream_url() + "/git/ref/heads/"@ + UPSTREAM_BRANCH@
        =~= "https://api.github.com/repos/AlexsJones/llmfit/git/ref/heads/main"@);
    assert(upstream_url() + "/pulls"@
        =~= "https://api.github.com/repos/AlexsJones/llmfit/pulls"@);
}

/// The request carries the token, and says which tool it comes from and which version of the
/// API it speaks.
pub open spec fn is_authenticated(request: RequestModel, token: Seq<char>) -> bool {
    request.headers == seq![
        ("Authorization"@, "Bearer "@ + token),
        ("Accept"@, "application/vnd.github+json"@),
        ("User-Agent"@, "llmfit/"@ + VERSION@),
        ("X-GitHub-Api-Version"@, "2022-11-28"@),
    ]
}

/// Every request of a submission is authenticated. Those that look something up only read
/// and send nothing along; the others send an object.
pub proof fn requests_are_authenticated(
    token: Seq<char>,
    login: Seq<char>,
    branch: Seq<char>,
    sha: Seq<char>,
    path: Seq<char>,
    content: Seq<char>,
    message: Seq<char>,
    results: Seq<BenchResult>,
    slug: Seq<char>,
)
    ensures
        is_authenticated(user_lookup(token), token),
        is_authenticated(fork_lookup(token, login), token),
        is_authenticated(fork_creation(token), token),
        is_authenticated(head_lookup(token), token),
        is_authenticated(branch_creation(token, login, branch, sha), token),
        is_authenticated(file_commit(token, login, branch, path, content, message), token),
        is_authenticated(pull_request(token, login, branch, results, slug), token),
        user_lookup(token).method is Get && user_lookup(token).body is None,
        fork_lookup(token, login).method is Get && fork_lookup(token, login).body is None,
        head_lookup(token).method is Get && head_lookup(token).body is None,
        fork_creation(token).method is Post && fork_creation(token).body is Some,
        branch_creation(token, login, branch, sha).method is Post,
        branch_creation(token, login, branch, sha).body is Some,
        file_commit(token, login, branch, path, content, message).method is Put,
        file_commit(token, login, branch, path, content, message).body is Some,
        pull_request(token, login, branch, results, slug).method is Post,
        pull_request(token, login, branch, results, slug).body is Some,
{
}

/// A request by the name of its method goes to the given address, with the given token, and
/// sends the given members, or none, unless it only reads; other methods are refused.
pub proof fn methods_go_by_their_names(
    method: Seq<char>,
    url: Seq<char>,
    token: Seq<char>,
    members: Option<Seq<(Seq<char>, Seq<char>)>>,
    key: Seq<char>,
)
    ensures
        ({
            let r = api_request(method, url, token, members);
            &&& r is Ok <==> method == "GET"@ || method == "POST"@ || method == "PUT"@
            &&& r matches Err(e) ==> e == "unsupported method "@ + method
            &&& r matches Ok(request) ==> {
                &&& request.url == url
                &&& is_authenticated(request, token)
                &&& method == "GET"@ <==> request.method is Get
                &&& method == "POST"@ <==> request.method is Post
                &&& method == "PUT"@ <==> request.method is Put
                &&& request.method is Get <==> request.body is None
                &&& request.body matches Some(body) ==> text_member(body, key) == (match members {
                    Some(list) => value_of(list, key),
                    None => None,
                })
            }
        }),
{
    reveal_strlit("GET");
    reveal_strlit("POST");
    reveal_strlit("PUT");
    assert("GET"@[0] != "POST"@[0]);
    assert("PUT"@.len() != "POST"@.len());
    assert("GET"@[0] != "PUT"@[0]);
    match members {
        Some(list) => written_members_read_back(list, key),
        None => written_members_read_back(Seq::empty(), key),
    }
}

/// A branch is asked for by its full name, at the commit that is given.
pub proof fn branches_are_made_at_the_commit(
    token: Seq<char>,
    login: Seq<char>,
    branch: Seq<char>,
    sha: Seq<char>,
)
    ensures
        ({
            let body = branch_creation(token, login, branch, sha).body->0;
            &&& text_member(body, "ref"@) == Some("refs/heads/"@ + branch)
            &&& text_member(body, "sha"@) == Some(sha)
        }),
{
    let members = seq![("ref"@, "refs/heads/"@ + branch), ("sha"@, sha)];
    reveal_strlit("ref");
    reveal_strlit("sha");
    assert("ref"@[0] != "sha"@[0]);
    written_members_read_back(members, "ref"@);
    written_members_read_back(members, "sha"@);
    reveal_with_fuel(value_of, 3);
    assert(members.last() == members[1]);
    assert(members.drop_last().last() == members[0]);
}

/// The pull request is for the branch of the user, into `main`; its title names the
/// hardware, and its text is the table of the results.
pub proof fn pull_requests_say_what_they_bring(
    token: Seq<char>,
    login: Seq<char>,
    branch: Seq<char>,
    results: Seq<BenchResult>,
    slug: Seq<char>,
)
    ensures
        ({
            let body = pull_request(token, login, branch, results, slug).body->0;
            &&& text_member(body, "title"@) == Some("bench: community results for "@ + slug)
            &&& text_member(body, "head"@) == Some(login + ":"@ + branch)
            &&& text_member(body, "base"@) == Some("main"@)
            &&& text_member(body, "body"@) == Some(pr_description(results))
        }),
{
    let members = seq![
        ("title"@, "bench: community results for "@ + slug),
        ("head"@, login + ":"@ + branch),
        ("base"@, UPSTREAM_BRANCH@),
        ("body"@, pr_description(results)),
    ];
    reveal_strlit("title");
    reveal_strlit("head");
    reveal_strlit("base");
    reveal_strlit("body");
    assert("title"@[0] != "head"@[0]);
    assert("title"@[0] != "base"@[0]);
    assert("title"@[0] != "body"@[0]);
    assert("head"@[0] != "base"@[0]);
    assert("head"@[0] != "body"@[0]);
    assert("base"@[1] != "body"@[1]);
    written_members_read_back(members, "title"@);
    written_members_read_back(members, "head"@);
    written_members_read_back(members, "base"@);
    written_members_read_back(members, "body"@);
    reveal_with_fuel(value_of, 5);
    let three = members.drop_last();
    let two = three.drop_last();
    assert(members.last() == members[3]);
    assert(three.last() == members[2]);
    assert(two.last() == members[1]);
    assert(two.drop_last().last() == members[0]);
}

/// The text that stands at a place of a document, if one does.
pub open spec fn text_at(
    nodes: Map<Seq<Seq<char>>, JsonNode>,
    place: Seq<Seq<char>>,
) -> Option<Seq<char>> {
    if nodes.contains_key(place) {
        match nodes[place] {
            JsonNode::Text(text) => Some(text),
            _ => None,
        }
    } else {
        None
    }
}

/// The text that stands below a member of a document, if there are both.
pub open spec fn text_below(
    nodes: Map<Seq<Seq<char>>, JsonNode>,
    outer: Seq<char>,
    inner: Seq<char>,
) -> Option<Seq<char>> {
    if nodes.contains_key(seq![outer]) {
        text_at(nodes, seq![outer, inner])
    } else {
        None
    }
}

/// What is read of a reply stands where the API puts it.
pub proof fn replies_are_read_in_their_places(
    status: u16,
    nodes: Map<Seq<Seq<char>>, JsonNode>,
)
    ensures
        ({
            let reply = reply_of(status, nodes);
            &&& reply.status == status
            &&& reply.message == text_at(nodes, seq!["message"@])
            &&& reply.login == text_at(nodes, seq!["login"@])
            &&& reply.html_url == text_at(nodes, seq!["html_url"@])
            &&& reply.sha == text_below(nodes, "object"@, "sha"@)
            &&& reply.parent == text_below(nodes, "parent"@, "full_name"@)
            &&& reply.source == text_below(nodes, "source"@, "full_name"@)
            &&& reply.fork == Some(true) <==> nodes.contains_key(seq!["fork"@])
                && nodes[seq!["fork"@]] == JsonNode::Flag(true)
        }),
{
    members_are_read_in_their_places(nodes, "message"@, "sha"@);
    members_are_read_in_their_places(nodes, "login"@, "sha"@);
    members_are_read_in_their_places(nodes, "html_url"@, "sha"@);
    members_are_read_in_their_places(nodes, "fork"@, "sha"@);
    members_are_read_in_their_places(nodes, "object"@, "sha"@);
    members_are_read_in_their_places(nodes, "parent"@, "full_name"@);
    members_are_read_in_their_places(nodes, "source"@, "full_name"@);
}

/// A reply counts with its status, whatever it is, and whether its body could be read or
/// not; only where there was none is there an error, which says which request failed, and
/// why.
pub proof fn only_a_missing_reply_is_an_error(method: Method, url: Seq<char>, exchange: Exchange)
    ensures
        ({
            let r = received(method, url, exchange);
            &&& r is Err <==> exchange is Failed
            &&& exchange matches Exchange::Replied { status, body } ==> r == Ok::<
                ReplyModel,
                Seq<char>,
            >(reply_of(status, document_in(body@)))
            &&& exchange matches Exchange::Unread { status, .. } ==> (r matches Ok(reply)
                && reply.status == status && reply.message is None && reply.login is None
                && reply.sha is None && reply.html_url is None && reply.fork is None)
            &&& exchange matches Exchange::Failed { error } ==> r == Err::<ReplyModel, Seq<char>>(
                (match method {
                    Method::Get => "GET"@,
                    Method::Post => "POST"@,
                    Method::Put => "PUT"@,
                }) + " "@ + url + " failed: "@ + error@,
            )
        }),
{
    lemma_null_has_no_members("message"@);
    lemma_null_has_no_members("login"@);
    lemma_null_has_no_members("object"@);
    lemma_null_has_no_members("sha"@);
    lemma_null_has_no_members("html_url"@);
    lemma_null_has_no_members("fork"@);
}

/// An error of the API is told with its status, in decimal, and with the message that came
/// along, or the words "unknown error".
pub proof fn errors_tell_status_and_message(reply: ReplyModel) -> (status: Seq<char>)
    ensures
        api_error_text(reply) == "GitHub API returned "@ + status + ": "@ + (match reply.message {
            Some(message) => message,
            None => "unknown error"@,
        }),
        number_read(status, 10) == reply.status,
        status.len() > 0 && (status[0] == '0' ==> reply.status == 0),
{
    decimals_read_back(reply.status as nat);
    decimal(reply.status as nat)
}

/// The user, the commit and the address of the pull request are what the reply names, and
/// only a reply with a status from 200 to 299 names any; otherwise the error of the API is
/// what comes out, except that the status 401 tells of a bad token.
pub proof fn replies_count_on_success_alone(reply: ReplyModel)
    ensures
        user_in(reply) is Ok <==> 200 <= reply.status <= 299 && reply.login is Some,
        head_in(reply) is Ok <==> 200 <= reply.status <= 299 && reply.sha is Some,
        pull_request_in(reply) is Ok <==> 200 <= reply.status <= 299 && reply.html_url is Some,
        user_in(reply) matches Ok(login) ==> reply.login == Some(login),
        head_in(reply) matches Ok(sha) ==> reply.sha == Some(sha),
        pull_request_in(reply) matches Ok(url) ==> reply.html_url == Some(url),
        user_in(reply) matches Err(e) ==> e == (if reply.status == 401 {
            "GitHub token is invalid or expired (401)"@
        } else if 200 <= reply.status <= 299 {
            "could not determine GitHub username"@
        } else {
            api_error_text(reply)
        }),
        head_in(reply) matches Err(e) ==> e == (if 200 <= reply.status <= 299 {
            "could not read upstream head sha"@
        } else {
            api_error_text(reply)
        }),
        pull_request_in(reply) matches Err(e) ==> e == (if 200 <= reply.status <= 299 {
            "pull request created but no URL returned"@
        } else {
            api_error_text(reply)
        }),
{
}

/// A branch is there after a status of 201, or of 422, and after no other; a file is
/// committed after any status from 200 to 299, and after no other. What comes out otherwise
/// is the error of the API.
pub proof fn branches_and_files_go_by_their_status(reply: ReplyModel)
    ensures
        branch_outcome(reply) is Ok <==> reply.status == 201 || reply.status == 422,
        file_outcome(reply) is Ok <==> 200 <= reply.status <= 299,
        branch_outcome(reply) matches Err(e) ==> e == api_error_text(reply),
        file_outcome(reply) matches Err(e) ==> e == api_error_text(reply),
{
}

/// The fork is taken as it is where the lookup answers with the status 200 and shows a fork
/// that comes from the repository, and it is made where not. Once it is being made, it is
/// looked up fifteen times at most; what the API refuses ends the matter at once.
pub proof fn forks_are_found_or_made(question: ForkQuestion, reply: ReplyModel)
    ensures
        ({
            let upstream = Some("AlexsJones/llmfit"@);
            let there = reply.status == 200 && reply.fork == Some(true) && (reply.parent == upstream
                || reply.source == upstream);
            let step = fork_step(question, reply);
            &&& question is Lookup ==> step == (if there {
                ForkStep::<Seq<char>>::Done
            } else {
                ForkStep::Create
            })
            &&& question is Creation ==> step == (if 200 <= reply.status <= 299 {
                ForkStep::Wait { tries_left: 14 }
            } else {
                ForkStep::GiveUp(api_error_text(reply))
            })
            &&& question matches ForkQuestion::Ready { tries_left } ==> step == (if there {
                ForkStep::<Seq<char>>::Done
            } else if tries_left == 0 {
                ForkStep::GiveUp("fork was not ready after waiting; try --share again shortly"@)
            } else {
                ForkStep::Wait { tries_left: (tries_left - 1) as u8 }
            })
        }),
{
    reveal_strlit("AlexsJones");
    reveal_strlit("/");
    reveal_strlit("llmfit");
    reveal_strlit("AlexsJones/llmfit");
    assert(upstream_name() =~= "AlexsJones/llmfit"@);
}

} // verus!
