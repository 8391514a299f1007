//! The flow that talks to GitHub: from a token and a payload to a pull request. It is
//! a state machine, which is told what came of its last request and says what the
//! next one is.

use crate::clock::{is_clock_time, now_unix};
use crate::encoding::{base64_text, fits_base64};
use crate::github::{
    api_error_text, api_headers, api_reply, branch_creation, branch_outcome, commits_say_what_they_commit,
    create_branch, create_branch_request, ensure_fork, file_commit, file_outcome, fork_creation,
    fork_creation_request, fork_lookup, fork_lookup_request, fork_step, fork_url, head_in,
    head_lookup, is_success, open_pr, open_pr_request, pull_request, pull_request_in, put_file,
    put_file_request, received, shows_fork, upstream_head_request, upstream_head_sha, user_in,
    user_lookup, whoami, whoami_request, Exchange, ForkQuestion, ForkStep, Method, Reply,
    ReplyModel, Request, RequestModel, FORK_PAUSE_SECS, FORK_TRIES,
};
use crate::hardware::{
    hardware_label, hardware_slug, is_filename_safe, machine_slug, slug_of, SystemSpecs,
};
use crate::json::text_member;
use crate::submission::{
    branch_name, branch_of, hash_text, path_of, short_hash_at, submission_path, BenchResult,
};
use crate::text::{
    ascii_lowercase, has_no_capitals, is_ascii_text, joined, lowercase, result_text,
};
use vstd::prelude::*;
use vstd::string::*;

verus! {

/// How far a submission has come: what the request that was sent last is about.
pub enum Stage<T> {
    /// The user that the token belongs to.
    Whoami,
    /// The fork of the user.
    Fork { login: T, question: ForkQuestion },
    /// The commit that the repository is at.
    HeadLookup { login: T },
    /// Making the branch.
    BranchCreation { login: T, branch: T, hash: T },
    /// Committing the file.
    FileCommit { login: T, branch: T },
    /// Opening the pull request.
    PullRequest,
    /// Nothing; the submission is over.
    Over,
}

impl View for Stage<String> {
    type V = Stage<Seq<char>>;

    open spec fn view(&self) -> Stage<Seq<char>> {
        match self {
            Stage::Whoami => Stage::Whoami,
            Stage::Fork { login, question } => Stage::Fork { login: login@, question: *question },
            Stage::HeadLookup { login } => Stage::HeadLookup { login: login@ },
            Stage::BranchCreation { login, branch, hash } => Stage::BranchCreation {
                login: login@,
                branch: branch@,
                hash: hash@,
            },
            Stage::FileCommit { login, branch } => Stage::FileCommit {
                login: login@,
                branch: branch@,
            },
            Stage::PullRequest => Stage::PullRequest,
            Stage::Over => Stage::Over,
        }
    }
}

/// A submission under way.
pub struct SubmitFlow {
    pub token: String,
    pub results: Vec<BenchResult>,
    pub slug: String,
    /// The text of the file.
    pub payload: String,
    pub stage: Stage<String>,
    /// The method of the request that was sent last.
    pub method: Method,
    /// The address of the request that was sent last.
    pub url: String,
}

/// A submission, with its strings as character sequences.
pub struct SubmitModel {
    pub token: Seq<char>,
    pub results: Seq<BenchResult>,
    pub slug: Seq<char>,
    pub payload: Seq<char>,
    pub stage: Stage<Seq<char>>,
    pub method: Method,
    pub url: Seq<char>,
}

impl View for SubmitFlow {
    type V = SubmitModel;

    open spec fn view(&self) -> SubmitModel {
        SubmitModel {
            token: self.token@,
            results: self.results@,
            slug: self.slug@,
            payload: self.payload@,
            stage: self.stage@,
            method: self.method,
            url: self.url@,
        }
    }
}

/// What to do next for a submission.
pub enum SubmitAction {
    /// Wait so many seconds, then send the request.
    Send { after_secs: u64, request: Request },
    /// The submission is over, with the address of the pull request or the reason
    /// why there is none.
    Finish(Result<String, String>),
}

/// An action, with its strings as character sequences.
pub enum SubmitMove {
    Send { after_secs: int, request: RequestModel },
    Finish(Result<Seq<char>, Seq<char>>),
}

impl View for SubmitAction {
    type V = SubmitMove;

    open spec fn view(&self) -> SubmitMove {
        match self {
            SubmitAction::Send { after_secs, request } => SubmitMove::Send {
                after_secs: *after_secs as int,
                request: request@,
            },
            SubmitAction::Finish(r) => SubmitMove::Finish(result_text(*r)),
        }
    }
}

/// The message of the commit.
pub open spec fn commit_message(results: Seq<BenchResult>, slug: Seq<char>) -> Seq<char> {
    "data: community benchmark ("@ + (if results.len() > 0 {
        results[0].model@
    } else {
        "model"@
    }) + " on "@ + slug + ")"@
}

/// The message of the commit names the model of the first result and the hardware.
pub proof fn commits_name_model_and_hardware(results: Seq<BenchResult>, slug: Seq<char>)
    requires
        results.len() > 0,
    ensures
        commit_message(results, slug) == "data: community benchmark ("@ + results[0].model@
            + " on "@ + slug + ")"@,
{
}

fn commit_text(results: &Vec<BenchResult>, slug: &str) -> (r: String)
    ensures
        r@ == commit_message(results@, slug@),
{
    let mut r = "data: community benchmark (".to_owned();
    if results.len() > 0 {
        r.append(results[0].model.as_str());
    } else {
        r.append("model");
    }
    r.append(" on ");
    r.append(slug);
    r.append(")");
    r
}

/// A submission that goes on with a request.
pub open spec fn going_on(
    flow: SubmitModel,
    stage: Stage<Seq<char>>,
    after_secs: int,
    request: RequestModel,
) -> (SubmitModel, SubmitMove) {
    (
        SubmitModel { stage, method: request.method, url: request.url, ..flow },
        SubmitMove::Send { after_secs, request },
    )
}

/// A submission that is over.
pub open spec fn ended(flow: SubmitModel, outcome: Result<Seq<char>, Seq<char>>) -> (
    SubmitModel,
    SubmitMove,
) {
    (SubmitModel { stage: Stage::Over, ..flow }, SubmitMove::Finish(outcome))
}

/// What follows from a reply. The branch carries the hash of the payload at the time
/// `hashed_at`, and the path the time `filed_at`.
pub open spec fn after_reply(
    flow: SubmitModel,
    reply: ReplyModel,
    hashed_at: u64,
    filed_at: u64,
) -> (SubmitModel, SubmitMove) {
    match flow.stage {
        Stage::Whoami => match user_in(reply) {
            Ok(login) => going_on(
                flow,
                Stage::Fork { login, question: ForkQuestion::Lookup },
                0,
                fork_lookup(flow.token, login),
            ),
            Err(e) => ended(flow, Err(e)),
        },
        Stage::Fork { login, question } => match fork_step(question, reply) {
            ForkStep::Done => going_on(
                flow,
                Stage::HeadLookup { login },
                0,
                head_lookup(flow.token),
            ),
            ForkStep::Create => going_on(
                flow,
                Stage::Fork { login, question: ForkQuestion::Creation },
                0,
                fork_creation(flow.token),
            ),
            ForkStep::Wait { tries_left } => going_on(
                flow,
                Stage::Fork { login, question: ForkQuestion::Ready { tries_left } },
                FORK_PAUSE_SECS as int,
                fork_lookup(flow.token, login),
            ),
            ForkStep::GiveUp(e) => ended(flow, Err(e)),
        },
        Stage::HeadLookup { login } => match head_in(reply) {
            Ok(sha) => {
                let hash = hash_text(flow.payload, hashed_at);
                let branch = branch_of(flow.slug, hash);
                going_on(
                    flow,
                    Stage::BranchCreation { login, branch, hash },
                    0,
                    branch_creation(flow.token, login, branch, sha),
                )
            },
            Err(e) => ended(flow, Err(e)),
        },
        Stage::BranchCreation { login, branch, hash } => match branch_outcome(reply) {
            Ok(_) => going_on(
                flow,
                Stage::FileCommit { login, branch },
                0,
                file_commit(
                    flow.token,
                    login,
                    branch,
                    path_of(flow.slug, filed_at, hash),
                    flow.payload,
                    commit_message(flow.results, flow.slug),
                ),
            ),
            Err(e) => ended(flow, Err(e)),
        },
        Stage::FileCommit { login, branch } => match file_outcome(reply) {
            Ok(_) => going_on(
                flow,
                Stage::PullRequest,
                0,
                pull_request(flow.token, login, branch, flow.results, flow.slug),
            ),
            Err(e) => ended(flow, Err(e)),
        },
        Stage::PullRequest => ended(flow, pull_request_in(reply)),
        Stage::Over => ended(flow, Err(Seq::empty())),
    }
}

/// What follows from what came of the last request. A request that could not be
/// carried out ends the submission.
pub open spec fn submit_step(
    flow: SubmitModel,
    exchange: Exchange,
    hashed_at: u64,
    filed_at: u64,
) -> (SubmitModel, SubmitMove) {
    match received(flow.method, flow.url, exchange) {
        Ok(reply) => after_reply(flow, reply, hashed_at, filed_at),
        Err(e) => ended(flow, Err(e)),
    }
}

/// The submission that begins with a request for the user.
pub open spec fn submission_start(
    token: Seq<char>,
    results: Seq<BenchResult>,
    slug: Seq<char>,
    payload: Seq<char>,
) -> SubmitModel {
    SubmitModel {
        token,
        results,
        slug,
        payload,
        stage: Stage::Whoami,
        method: user_lookup(token).method,
        url: user_lookup(token).url,
    }
}

/// How a submission begins, if it does: there have to be results, and the payload has to have
/// been rendered.
pub open spec fn begun(
    results: Seq<BenchResult>,
    slug: Seq<char>,
    token: Seq<char>,
    payload: Result<Seq<char>, Seq<char>>,
) -> Result<SubmitModel, Seq<char>> {
    if results.len() == 0 {
        Err("no benchmark results to share"@)
    } else {
        match payload {
            Ok(text) => Ok(submission_start(token, results, slug, text)),
            Err(reason) => Err("serialize failed: "@ + reason),
        }
    }
}

/// The submission that came of an attempt to begin one.
pub open spec fn flow_outcome(r: Result<(SubmitFlow, Request), String>) -> Result<
    SubmitModel,
    Seq<char>,
> {
    match r {
        Ok((flow, _)) => Ok(flow@),
        Err(e) => Err(e@),
    }
}

/// A submission begins exactly where there are results and a payload, and it is about those
/// and no others: the token, the results, the slug and the payload are the ones given, and
/// it begins with the question who the user is.
pub proof fn submissions_are_about_what_was_given(
    results: Seq<BenchResult>,
    slug: Seq<char>,
    token: Seq<char>,
    payload: Result<Seq<char>, Seq<char>>,
)
    ensures
        ({
            let r = begun(results, slug, token, payload);
            &&& r is Ok <==> results.len() > 0 && payload is Ok
            &&& results.len() == 0 ==> r == Err::<SubmitModel, Seq<char>>(
                "no benchmark results to share"@,
            )
            &&& results.len() > 0 ==> (payload matches Err(e) ==> r == Err::<
                SubmitModel,
                Seq<char>,
            >("serialize failed: "@ + e))
            &&& r matches Ok(flow) ==> {
                &&& flow.token == token
                &&& flow.results == results
                &&& flow.slug == slug
                &&& payload == Ok::<Seq<char>, Seq<char>>(flow.payload)
                &&& flow.stage is Whoami
                &&& flow.method is Get
                &&& flow.url == user_lookup(token).url
            }
        }),
{
}

/// Non-interactive core of the share flow: fork the repo, commit the result file to
/// a new branch, and open a pull request using an already-resolved token. Returns
/// the submission and its first request; [`SubmitFlow::next`] has the others.
/// `payload` is the rendered submission, or the reason why it could not be rendered.
pub fn submit_results(
    results: Vec<BenchResult>,
    specs: &SystemSpecs,
    token: &str,
    payload: Result<String, String>,
) -> (r: Result<(SubmitFlow, Request), String>)
    ensures
        flow_outcome(r) == begun(results@, machine_slug(*specs), token@, result_text(payload)),
        match r {
            Ok((flow, request)) => {
                &&& results@.len() > 0
                &&& payload matches Ok(text)
                &&& flow@ == submission_start(
                    token@,
                    results@,
                    slug_of(lowercase(hardware_label(specs.gpu_name, specs.cpu_name@))),
                    text@,
                )
                &&& is_filename_safe(flow.slug@)
                &&& has_no_capitals(flow.slug@)
                &&& ({
                    let label = hardware_label(specs.gpu_name, specs.cpu_name@);
                    is_ascii_text(label) ==> flow.slug@ == slug_of(ascii_lowercase(label))
                })
                &&& request@ == user_lookup(token@)
            },
            Err(e) => if results@.len() == 0 {
                e@ == "no benchmark results to share"@
            } else {
                payload matches Err(reason) && e@ == "serialize failed: "@ + reason@
            },
        },
{
    if results.len() == 0 {
        return Err("no benchmark results to share".to_owned());
    }
    let text = match payload {
        Ok(text) => text,
        Err(reason) => {
            return Err(joined("serialize failed: ", reason.as_str()));
        },
    };
    let request = whoami_request(token);
    let flow = SubmitFlow {
        token: token.to_owned(),
        results,
        slug: hardware_slug(specs),
        payload: text,
        stage: Stage::Whoami,
        method: request.method,
        url: request.url.clone(),
    };
    Ok((flow, request))
}

impl SubmitFlow {
    /// What to do next, given what came of the last request and two readings of the
    /// clock.
    pub fn next_at(&mut self, exchange: &Exchange, hashed_at: u64, filed_at: u64) -> (action:
        SubmitAction)
        requires
            !(old(self).stage is Over),
            fits_base64(old(self).payload@),
        ensures
            (final(self)@, action@) == submit_step(old(self)@, *exchange, hashed_at, filed_at),
    {
        let reply = match api_reply(self.method, self.url.as_str(), exchange) {
            Ok(reply) => reply,
            Err(e) => {
                self.stage = Stage::Over;
                return SubmitAction::Finish(Err(e));
            },
        };
        let (stage, action) = self.after(&reply, hashed_at, filed_at);
        self.stage = stage;
        if let SubmitAction::Send { after_secs: _, request } = &action {
            self.method = request.method;
            self.url = request.url.clone();
        }
        action
    }

    fn after(&self, reply: &Reply, hashed_at: u64, filed_at: u64) -> (r: (
        Stage<String>,
        SubmitAction,
    ))
        requires
            !(self.stage is Over),
            fits_base64(self.payload@),
        ensures
            r.0@ == after_reply(self@, reply@, hashed_at, filed_at).0.stage,
            r.1@ == after_reply(self@, reply@, hashed_at, filed_at).1,
    {
        let token = self.token.as_str();
        match &self.stage {
            Stage::Whoami => match whoami(reply) {
                Ok(login) => {
                    let request = fork_lookup_request(token, login.as_str());
                    (
                        Stage::Fork { login, question: ForkQuestion::Lookup },
                        SubmitAction::Send { after_secs: 0, request },
                    )
                },
                Err(e) => (Stage::Over, SubmitAction::Finish(Err(e))),
            },
            Stage::Fork { login, question } => match ensure_fork(*question, reply) {
                ForkStep::Done => (
                    Stage::HeadLookup { login: login.clone() },
                    SubmitAction::Send { after_secs: 0, request: upstream_head_request(token) },
                ),
                ForkStep::Create => (
                    Stage::Fork { login: login.clone(), question: ForkQuestion::Creation },
                    SubmitAction::Send { after_secs: 0, request: fork_creation_request(token) },
                ),
                ForkStep::Wait { tries_left } => (
                    Stage::Fork {
                        login: login.clone(),
                        question: ForkQuestion::Ready { tries_left },
                    },
                    SubmitAction::Send {
                        after_secs: FORK_PAUSE_SECS,
                        request: fork_lookup_request(token, login.as_str()),
                    },
                ),
                ForkStep::GiveUp(e) => (Stage::Over, SubmitAction::Finish(Err(e))),
            },
            Stage::HeadLookup { login } => match upstream_head_sha(reply) {
                Ok(sha) => {
                    let hash = short_hash_at(self.payload.as_str(), hashed_at);
                    let branch = branch_name(self.slug.as_str(), hash.as_str());
                    let request = create_branch_request(
                        token,
                        login.as_str(),
                        branch.as_str(),
                        sha.as_str(),
                    );
                    (
                        Stage::BranchCreation { login: login.clone(), branch, hash },
                        SubmitAction::Send { after_secs: 0, request },
                    )
                },
                Err(e) => (Stage::Over, SubmitAction::Finish(Err(e))),
            },
            Stage::BranchCreation { login, branch, hash } => match create_branch(reply) {
                Ok(_) => {
                    let path = submission_path(self.slug.as_str(), filed_at, hash.as_str());
                    let message = commit_text(&self.results, self.slug.as_str());
                    let request = put_file_request(
                        token,
                        login.as_str(),
                        branch.as_str(),
                        path.as_str(),
                        self.payload.as_str(),
                        message.as_str(),
                    );
                    (
                        Stage::FileCommit { login: login.clone(), branch: branch.clone() },
                        SubmitAction::Send { after_secs: 0, request },
                    )
                },
                Err(e) => (Stage::Over, SubmitAction::Finish(Err(e))),
            },
            Stage::FileCommit { login, branch } => match put_file(reply) {
                Ok(_) => {
                    let request = open_pr_request(
                        token,
                        login.as_str(),
                        branch.as_str(),
                        &self.results,
                        self.slug.as_str(),
                    );
                    (Stage::PullRequest, SubmitAction::Send { after_secs: 0, request })
                },
                Err(e) => (Stage::Over, SubmitAction::Finish(Err(e))),
            },
            Stage::PullRequest => (Stage::Over, SubmitAction::Finish(open_pr(reply))),
            Stage::Over => (Stage::Over, SubmitAction::Finish(Err(String::new()))),
        }
    }

    /// What to do next, given what came of the last request, at the time that the
    /// clock shows.
    pub fn next(&mut self, exchange: &Exchange) -> (action: SubmitAction)
        requires
            !(old(self).stage is Over),
            fits_base64(old(self).payload@),
        ensures
            exists|hashed_at: u64, filed_at: u64|
                is_clock_time(hashed_at) && is_clock_time(filed_at) && (final(self)@, action@) == #[trigger] submit_step(
                    old(self)@,
                    *exchange,
                    hashed_at,
                    filed_at,
                ),
    {
        let hashed_at = now_unix();
        let filed_at = now_unix();
        self.next_at(exchange, hashed_at, filed_at)
    }
}

// ---------------------------------------------------------------------------
// What every submission keeps to
// ---------------------------------------------------------------------------

/// An upper bound on the replies that a submission still takes in.
pub open spec fn replies_left(stage: Stage<Seq<char>>) -> int {
    match stage {
        Stage::Whoami => 22,
        Stage::Fork { question: ForkQuestion::Lookup, .. } => 21,
        Stage::Fork { question: ForkQuestion::Creation, .. } => 20,
        Stage::Fork { question: ForkQuestion::Ready { tries_left }, .. } => 5 + tries_left,
        Stage::HeadLookup { .. } => 4,
        Stage::BranchCreation { .. } => 3,
        Stage::FileCommit { .. } => 2,
        Stage::PullRequest => 1,
        Stage::Over => 0,
    }
}

/// What came of a request, and the two readings of the clock that go with it.
pub struct Turn {
    pub exchange: Exchange,
    pub hashed_at: u64,
    pub filed_at: u64,
}

/// The submission after a series of turns.
pub open spec fn submission_after(flow: SubmitModel, turns: Seq<Turn>) -> SubmitModel
    decreases turns.len(),
{
    if turns.len() == 0 {
        flow
    } else {
        let turn = turns.last();
        submit_step(
            submission_after(flow, turns.drop_last()),
            turn.exchange,
            turn.hashed_at,
            turn.filed_at,
        ).0
    }
}

/// Every submission ends: after twenty-two replies at the latest, whatever they
/// are, there is nothing left to do.
pub proof fn submissions_end(
    token: Seq<char>,
    results: Seq<BenchResult>,
    slug: Seq<char>,
    payload: Seq<char>,
    turns: Seq<Turn>,
)
    ensures
        ({
            let flow = submission_after(submission_start(token, results, slug, payload), turns);
            &&& turns.len() >= 22 ==> flow.stage is Over
            &&& flow.stage is Over || replies_left(flow.stage) <= 22 - turns.len()
            &&& flow.stage matches Stage::Fork {
                question: ForkQuestion::Ready { tries_left },
                ..
            } ==> tries_left < FORK_TRIES
        }),
    decreases turns.len(),
{
    if turns.len() > 0 {
        submissions_end(token, results, slug, payload, turns.drop_last());
    }
}

/// A submission keeps what it is about: no reply changes the token, the results, the
/// slug or the payload.
pub proof fn submissions_keep_their_subject(flow: SubmitModel, turns: Seq<Turn>)
    ensures
        submission_after(flow, turns).token == flow.token,
        submission_after(flow, turns).results == flow.results,
        submission_after(flow, turns).slug == flow.slug,
        submission_after(flow, turns).payload == flow.payload,
    decreases turns.len(),
{
    if turns.len() > 0 {
        submissions_keep_their_subject(flow, turns.drop_last());
    }
}

/// The request puts the text into a file: what it sends as the content is the base64
/// text of it.
pub open spec fn puts(request: RequestModel, text: Seq<char>) -> bool {
    &&& request.body is Some
    &&& text_member(request.body->0, "content"@) == Some(
        base64_text(vstd::utf8::encode_utf8(text)),
    )
}

/// Whatever a submission puts into a file is its payload, and it does so in answer to
/// the reply about the branch and at no other time.
pub proof fn files_hold_the_payload(flow: SubmitModel, turns: Seq<Turn>, turn: Turn)
    ensures
        ({
            let before = submission_after(flow, turns);
            submit_step(before, turn.exchange, turn.hashed_at, turn.filed_at).1
                matches SubmitMove::Send { request, .. } ==> request.method is Put ==> {
                &&& before.stage is BranchCreation
                &&& puts(request, flow.payload)
            }
        }),
{
    submissions_keep_their_subject(flow, turns);
    let before = submission_after(flow, turns);
    if let Stage::BranchCreation { login, branch, hash } = before.stage {
        commits_say_what_they_commit(
            flow.token,
            login,
            branch,
            path_of(flow.slug, turn.filed_at, hash),
            flow.payload,
            commit_message(flow.results, flow.slug),
        );
    }
}

/// What the submission does in answer to the given turn.
pub open spec fn answer_at(flow: SubmitModel, turns: Seq<Turn>, i: int) -> SubmitMove {
    submit_step(
        submission_after(flow, turns.take(i)),
        turns[i].exchange,
        turns[i].hashed_at,
        turns[i].filed_at,
    ).1
}

/// At the given turn, the submission answers with a request that puts something into a
/// file.
pub open spec fn puts_at(flow: SubmitModel, turns: Seq<Turn>, i: int) -> bool {
    &&& 0 <= i < turns.len()
    &&& answer_at(flow, turns, i) matches SubmitMove::Send { request, .. }
    &&& request.method is Put
}

/// The file of the submission has been put, or will never be.
pub open spec fn is_past_the_file(stage: Stage<Seq<char>>) -> bool {
    stage is FileCommit || stage is PullRequest || stage is Over
}

proof fn lemma_the_file_stays_past(flow: SubmitModel, turns: Seq<Turn>, i: int, j: int)
    requires
        puts_at(flow, turns, i),
        i < j <= turns.len(),
    ensures
        is_past_the_file(submission_after(flow, turns.take(j)).stage),
    decreases j,
{
    let now = turns.take(j);
    assert(now.drop_last() == turns.take(j - 1));
    assert(now.last() == turns[j - 1]);
    if i < j - 1 {
        lemma_the_file_stays_past(flow, turns, i, j - 1);
    }
}

/// A submission puts one file and no other: two turns at which it puts something into a
/// file are the same turn.
pub proof fn one_file_is_put_at_most(flow: SubmitModel, turns: Seq<Turn>, i: int, j: int)
    requires
        puts_at(flow, turns, i),
        puts_at(flow, turns, j),
    ensures
        i == j,
{
    if i < j {
        lemma_the_file_stays_past(flow, turns, i, j);
    } else if j < i {
        lemma_the_file_stays_past(flow, turns, j, i);
    }
}

proof fn lemma_a_file_was_put(
    token: Seq<char>,
    results: Seq<BenchResult>,
    slug: Seq<char>,
    payload: Seq<char>,
    turns: Seq<Turn>,
)
    requires
        ({
            let stage = submission_after(
                submission_start(token, results, slug, payload),
                turns,
            ).stage;
            stage is FileCommit || stage is PullRequest
        }),
    ensures
        exists|i: int| #[trigger]
            puts_at(submission_start(token, results, slug, payload), turns, i),
    decreases turns.len(),
{
    let start = submission_start(token, results, slug, payload);
    let last = turns.len() - 1;
    let before = turns.drop_last();
    assert(turns.take(last) == before);
    if submission_after(start, turns).stage is FileCommit {
        assert(puts_at(start, turns, last));
    } else {
        lemma_a_file_was_put(token, results, slug, payload, before);
        let i = choose|i: int| #[trigger] puts_at(start, before, i);
        assert(turns.take(i) == before.take(i));
        assert(puts_at(start, turns, i));
    }
}

/// A pull request adds one file: a submission that succeeds has put the payload into a
/// file at one of its turns, and at no other.
pub proof fn pull_requests_add_one_file(
    token: Seq<char>,
    results: Seq<BenchResult>,
    slug: Seq<char>,
    payload: Seq<char>,
    turns: Seq<Turn>,
    turn: Turn,
)
    requires
        submit_step(
            submission_after(submission_start(token, results, slug, payload), turns),
            turn.exchange,
            turn.hashed_at,
            turn.filed_at,
        ).1 matches SubmitMove::Finish(Ok(_)),
    ensures
        ({
            let start = submission_start(token, results, slug, payload);
            exists|i: int|
                {
                    &&& #[trigger] puts_at(start, turns, i)
                    &&& puts(answer_at(start, turns, i)->request, payload)
                    &&& forall|j: int| #[trigger] puts_at(start, turns, j) ==> j == i
                }
        }),
{
    let start = submission_start(token, results, slug, payload);
    lemma_a_file_was_put(token, results, slug, payload, turns);
    let i = choose|i: int| #[trigger] puts_at(start, turns, i);
    assert forall|j: int| #[trigger] puts_at(start, turns, j) implies j == i by {
        one_file_is_put_at_most(start, turns, i, j);
    }
    files_hold_the_payload(start, turns.take(i), turns[i]);
}

/// The user whose fork a submission works on, once it is known.
pub open spec fn login_at(stage: Stage<Seq<char>>) -> Option<Seq<char>> {
    match stage {
        Stage::Fork { login, .. } => Some(login),
        Stage::HeadLookup { login } => Some(login),
        Stage::BranchCreation { login, .. } => Some(login),
        Stage::FileCommit { login, .. } => Some(login),
        _ => None,
    }
}

/// The text begins with `head`.
pub open spec fn begins_with(text: Seq<char>, head: Seq<char>) -> bool {
    head.len() <= text.len() && text.take(head.len() as int) == head
}

/// Every request carries the token. What it writes, it writes to the fork of the
/// user: of the repository itself only a fork and a pull request are asked for.
pub proof fn requests_stay_in_bounds(
    flow: SubmitModel,
    reply: ReplyModel,
    hashed_at: u64,
    filed_at: u64,
)
    ensures
        after_reply(flow, reply, hashed_at, filed_at).1 matches SubmitMove::Send {
            request,
            ..
        } ==> {
            &&& request.headers == api_headers(flow.token)
            &&& {
                ||| request.method == Method::Get
                ||| request == fork_creation(flow.token)
                ||| request.url == pull_request(
                    flow.token,
                    Seq::empty(),
                    Seq::empty(),
                    flow.results,
                    flow.slug,
                ).url
                ||| login_at(flow.stage) matches Some(login) && begins_with(
                    request.url,
                    fork_url(login),
                )
            }
        },
{
    if let Some(login) = login_at(flow.stage) {
        let base = fork_url(login);
        match flow.stage {
            Stage::HeadLookup { .. } => {
                assert((base + "/git/refs"@).take(base.len() as int) == base);
            },
            Stage::BranchCreation { hash, .. } => {
                let path = path_of(flow.slug, filed_at, hash);
                assert((base + "/contents/"@ + path).take(base.len() as int) == base);
            },
            _ => {},
        }
    }
}

/// A submission succeeds only by a pull request: it ends well only when the request
/// for one was carried out, and what it yields is the address in that reply.
pub proof fn success_is_a_pull_request(
    flow: SubmitModel,
    reply: ReplyModel,
    hashed_at: u64,
    filed_at: u64,
)
    requires
        after_reply(flow, reply, hashed_at, filed_at).1 matches SubmitMove::Finish(Ok(_)),
    ensures
        flow.stage is PullRequest,
        is_success(reply.status),
        after_reply(flow, reply, hashed_at, filed_at).1 matches SubmitMove::Finish(Ok(url))
            && reply.html_url == Some(url),
{
}

/// Where every reply is favourable, the submission goes through: the file is
/// committed to the branch that was made, the pull request is opened for that very
/// branch, and its address is what comes out.
pub proof fn favourable_replies_go_through(
    flow: SubmitModel,
    user: ReplyModel,
    fork: ReplyModel,
    head: ReplyModel,
    branch: ReplyModel,
    file: ReplyModel,
    pull: ReplyModel,
    hashed_at: u64,
    filed_at: u64,
)
    requires
        flow.stage is Whoami,
        is_success(user.status) && user.login is Some,
        shows_fork(fork),
        is_success(head.status) && head.sha is Some,
        branch.status == 201 || branch.status == 422,
        is_success(file.status),
        is_success(pull.status) && pull.html_url is Some,
    ensures
        ({
            let login = user.login->0;
            let hash = hash_text(flow.payload, hashed_at);
            let name = branch_of(flow.slug, hash);
            let path = path_of(flow.slug, filed_at, hash);
            let message = commit_message(flow.results, flow.slug);
            let token = flow.token;
            let (first, ask_fork) = after_reply(flow, user, hashed_at, filed_at);
            let (second, ask_head) = after_reply(first, fork, hashed_at, filed_at);
            let (third, make_branch) = after_reply(second, head, hashed_at, filed_at);
            let (fourth, put) = after_reply(third, branch, hashed_at, filed_at);
            let (fifth, open) = after_reply(fourth, file, hashed_at, filed_at);
            let (last, end) = after_reply(fifth, pull, hashed_at, filed_at);
            &&& ask_fork == (SubmitMove::Send {
                after_secs: 0,
                request: fork_lookup(token, login),
            })
            &&& ask_head == (SubmitMove::Send { after_secs: 0, request: head_lookup(token) })
            &&& make_branch == (SubmitMove::Send {
                after_secs: 0,
                request: branch_creation(token, login, name, head.sha->0),
            })
            &&& put == (SubmitMove::Send {
                after_secs: 0,
                request: file_commit(token, login, name, path, flow.payload, message),
            })
            &&& open == (SubmitMove::Send {
                after_secs: 0,
                request: pull_request(token, login, name, flow.results, flow.slug),
            })
            &&& end == SubmitMove::Finish(Ok(pull.html_url->0))
            &&& last.stage is Over
        }),
{
}

/// The submission after a series of replies, with the same readings of the clock,
/// and the last action.
pub open spec fn after_replies(
    flow: SubmitModel,
    action: SubmitMove,
    replies: Seq<ReplyModel>,
    hashed_at: u64,
    filed_at: u64,
) -> (SubmitModel, SubmitMove)
    decreases replies.len(),
{
    if replies.len() == 0 {
        (flow, action)
    } else {
        after_reply(
            after_replies(flow, action, replies.drop_last(), hashed_at, filed_at).0,
            replies.last(),
            hashed_at,
            filed_at,
        )
    }
}

/// At the given turn, the request that was sent last asked for the repository of that
/// user, and the reply shows that it is the fork.
pub open spec fn finds_fork(start: SubmitModel, turns: Seq<Turn>, login: Seq<char>, i: int) -> bool {
    let flow = submission_after(start, turns.take(i));
    &&& 0 <= i < turns.len()
    &&& flow.method == Method::Get
    &&& flow.url == fork_url(login)
    &&& received(flow.method, flow.url, turns[i].exchange) matches Ok(reply) && shows_fork(reply)
}

/// Every submission rests on a fork: it gets as far as the commit, the branch and the
/// file only where the repository of that user was looked up, and the reply showed
/// that it is a fork that comes from the repository itself.
pub proof fn submissions_rest_on_a_fork(
    token: Seq<char>,
    results: Seq<BenchResult>,
    slug: Seq<char>,
    payload: Seq<char>,
    turns: Seq<Turn>,
)
    ensures
        ({
            let start = submission_start(token, results, slug, payload);
            let flow = submission_after(start, turns);
            match flow.stage {
                Stage::Fork { login, question } => question is Creation || {
                    &&& flow.method == Method::Get
                    &&& flow.url == fork_url(login)
                },
                stage => login_at(stage) matches Some(login) ==> exists|i: int| #[trigger]
                    finds_fork(start, turns, login, i),
            }
        }),
    decreases turns.len(),
{
    if turns.len() > 0 {
        let start = submission_start(token, results, slug, payload);
        let before = turns.drop_last();
        let last = turns.len() - 1;
        submissions_rest_on_a_fork(token, results, slug, payload, before);
        assert(turns.take(last) == before);
        let stage = submission_after(start, turns).stage;
        if let Some(login) = login_at(stage) {
            match stage {
                Stage::Fork { .. } => {},
                Stage::HeadLookup { .. } => {
                    assert(finds_fork(start, turns, login, last));
                },
                _ => {
                    let i = choose|i: int| #[trigger] finds_fork(start, before, login, i);
                    assert(turns.take(i) == before.take(i));
                    assert(finds_fork(start, turns, login, i));
                },
            }
        }
    }
}

/// What the API refuses ends the submission, with what it said as the error: at every stage
/// but the lookup of the fork, which may find none, a status that does not mean success.
/// (A branch may be there already, which the status 422 tells.)
pub proof fn refusals_end_the_submission(
    flow: SubmitModel,
    reply: ReplyModel,
    hashed_at: u64,
    filed_at: u64,
)
    requires
        reply.status < 200 || reply.status > 299,
        match flow.stage {
            Stage::Whoami => reply.status != 401,
            Stage::Fork { question, .. } => question is Creation,
            Stage::BranchCreation { .. } => reply.status != 422,
            Stage::Over => false,
            _ => true,
        },
    ensures
        after_reply(flow, reply, hashed_at, filed_at).0.stage is Over,
        after_reply(flow, reply, hashed_at, filed_at).1 == SubmitMove::Finish(
            Err(api_error_text(reply)),
        ),
{
}

/// A token that is not accepted ends the submission at once, with words of its own.
pub proof fn bad_tokens_end_the_submission(
    flow: SubmitModel,
    reply: ReplyModel,
    hashed_at: u64,
    filed_at: u64,
)
    requires
        flow.stage is Whoami,
        reply.status == 401,
    ensures
        after_reply(flow, reply, hashed_at, filed_at).0.stage is Over,
        after_reply(flow, reply, hashed_at, filed_at).1 == SubmitMove::Finish(
            Err("GitHub token is invalid or expired (401)"@),
        ),
{
}

/// A reply that lacks what was asked for ends the submission, with words that say what is
/// missing.
pub proof fn empty_replies_end_the_submission(
    flow: SubmitModel,
    reply: ReplyModel,
    hashed_at: u64,
    filed_at: u64,
)
    requires
        200 <= reply.status <= 299,
        match flow.stage {
            Stage::Whoami => reply.login is None,
            Stage::HeadLookup { .. } => reply.sha is None,
            Stage::PullRequest => reply.html_url is None,
            _ => false,
        },
    ensures
        after_reply(flow, reply, hashed_at, filed_at).0.stage is Over,
        after_reply(flow, reply, hashed_at, filed_at).1 == SubmitMove::Finish(
            Err(
                match flow.stage {
                    Stage::Whoami => "could not determine GitHub username"@,
                    Stage::HeadLookup { .. } => "could not read upstream head sha"@,
                    _ => "pull request created but no URL returned"@,
                },
            ),
        ),
{
}

/// A request without a reply ends the submission, whatever it was about, and the error says
/// which request it was and what went wrong.
pub proof fn failed_requests_end_the_submission(
    flow: SubmitModel,
    error: String,
    hashed_at: u64,
    filed_at: u64,
)
    ensures
        ({
            let (last, end) = submit_step(flow, Exchange::Failed { error }, hashed_at, filed_at);
            &&& last.stage is Over
            &&& end == SubmitMove::Finish(
                Err(
                    (match flow.method {
                        Method::Get => "GET"@,
                        Method::Post => "POST"@,
                        Method::Put => "PUT"@,
                    }) + " "@ + flow.url + " failed: "@ + error@,
                ),
            )
        }),
{
}

/// What is sent next is what an error would name: a submission that goes on remembers the
/// method and the address of the request that it sends.
pub proof fn submissions_remember_the_last_request(
    flow: SubmitModel,
    exchange: Exchange,
    hashed_at: u64,
    filed_at: u64,
)
    ensures
        ({
            let (next, action) = submit_step(flow, exchange, hashed_at, filed_at);
            &&& action matches SubmitMove::Send { request, .. } ==> {
                &&& next.method == request.method
                &&& next.url == request.url
                &&& !(next.stage is Over)
            }
            &&& action is Finish ==> next.stage is Over
        }),
{
}

/// A fork that is not there is asked for at once.
pub proof fn missing_forks_are_asked_for(
    flow: SubmitModel,
    login: Seq<char>,
    reply: ReplyModel,
    hashed_at: u64,
    filed_at: u64,
)
    requires
        flow.stage == (Stage::Fork { login, question: ForkQuestion::Lookup }),
        reply.status != 200,
    ensures
        after_reply(flow, reply, hashed_at, filed_at).0.stage == (Stage::Fork {
            login,
            question: ForkQuestion::Creation,
        }),
        after_reply(flow, reply, hashed_at, filed_at).1 == (SubmitMove::Send {
            after_secs: 0,
            request: fork_creation(flow.token),
        }),
{
}

/// A fork that has to be made is asked for fifteen times, two seconds apart; if it
/// is not there by then, the submission is given up.
pub proof fn forks_are_waited_for(
    flow: SubmitModel,
    login: Seq<char>,
    made: ReplyModel,
    replies: Seq<ReplyModel>,
    hashed_at: u64,
    filed_at: u64,
)
    requires
        flow.stage == (Stage::Fork { login, question: ForkQuestion::Creation }),
        is_success(made.status),
        replies.len() <= 15,
        forall|i: int| 0 <= i < replies.len() ==> !shows_fork(#[trigger] replies[i]),
    ensures
        ({
            let (begun, asked) = after_reply(flow, made, hashed_at, filed_at);
            let (waiting, action) = after_replies(begun, asked, replies, hashed_at, filed_at);
            if replies.len() < 15 {
                &&& waiting.stage == (Stage::Fork {
                    login,
                    question: ForkQuestion::Ready { tries_left: (14 - replies.len()) as u8 },
                })
                &&& waiting.token == flow.token
                &&& action == (SubmitMove::Send {
                    after_secs: 2,
                    request: fork_lookup(flow.token, login),
                })
            } else {
                &&& waiting.stage is Over
                &&& action == SubmitMove::Finish(
                    Err("fork was not ready after waiting; try --share again shortly"@),
                )
            }
        }),
    decreases replies.len(),
{
    if replies.len() > 0 {
        let rest = replies.drop_last();
        assert forall|i: int| 0 <= i < rest.len() implies !shows_fork(#[trigger] rest[i]) by {
            assert(rest[i] == replies[i]);
        }
        forks_are_waited_for(flow, login, made, rest, hashed_at, filed_at);
        assert(!shows_fork(replies[replies.len() - 1]));
    }
}

/// The branch that a submission works on, once it is known.
pub open spec fn branch_at(stage: Stage<Seq<char>>) -> Option<Seq<char>> {
    match stage {
        Stage::BranchCreation { branch, .. } => Some(branch),
        Stage::FileCommit { branch, .. } => Some(branch),
        _ => None,
    }
}

/// The branch is named by the hardware and by the hash of the payload, at the time
/// of one of the turns.
pub open spec fn is_named_in(branch: Seq<char>, flow: SubmitModel, turns: Seq<Turn>) -> bool {
    exists|i: int|
        0 <= i < turns.len() && branch == branch_of(
            flow.slug,
            hash_text(flow.payload, (#[trigger] turns[i]).hashed_at),
        )
}

/// Every submission works on a branch that is named by its hardware and by the hash
/// of its payload.
pub proof fn branches_are_named_by_hardware_and_hash(
    token: Seq<char>,
    results: Seq<BenchResult>,
    slug: Seq<char>,
    payload: Seq<char>,
    turns: Seq<Turn>,
)
    ensures
        ({
            let start = submission_start(token, results, slug, payload);
            branch_at(submission_after(start, turns).stage) matches Some(branch) ==> is_named_in(
                branch,
                start,
                turns,
            )
        }),
    decreases turns.len(),
{
    if turns.len() > 0 {
        let start = submission_start(token, results, slug, payload);
        let before = turns.drop_last();
        branches_are_named_by_hardware_and_hash(token, results, slug, payload, before);
        submissions_keep_their_subject(start, before);
        assert(turns[turns.len() - 1] == turns.last());
        if let Some(branch) = branch_at(submission_after(start, before).stage) {
            let i = choose|i: int|
                0 <= i < before.len() && branch == branch_of(
                    slug,
                    hash_text(payload, (#[trigger] before[i]).hashed_at),
                );
            assert(turns[i] == before[i]);
        }
    }
}

} // verus!
