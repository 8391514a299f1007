use llmfit_share::github::{Exchange, Method, Request};
use llmfit_share::hardware::{Binary64, Memory, SystemSpecs};
use llmfit_share::share::{
    confirm, consents, share_prompt, share_results, ShareAction, ShareEvent, ShareOptions, ShareStage,
};
use llmfit_share::submission::{short_hash_at, BenchResult, BenchSummary, Figure};
use llmfit_share::submit::{submit_results, Stage, SubmitAction, SubmitFlow};
use serde_json::Value;

fn bits(v: f64) -> Binary64 {
    Binary64 { bits: v.to_bits() }
}

fn figure(v: f64) -> Figure {
    Figure { published: bits(v), shown: format!("{v:.1}") }
}

fn results() -> Vec<BenchResult> {
    vec![BenchResult {
        model: "llama3.1:8b".to_string(),
        provider: "ollama".to_string(),
        summary: BenchSummary {
            num_runs: 3,
            avg_ttft_ms: None,
            avg_tps: figure(128.4),
            min_tps: figure(121.0),
            max_tps: figure(133.7),
            avg_total_ms: figure(812.5),
            avg_output_tokens: figure(104.0),
        },
    }]
}

fn specs() -> SystemSpecs {
    let gb = Memory { exact: bits(24.0), published: bits(24.0) };
    SystemSpecs {
        total_ram_gb: gb,
        total_cpu_cores: 8,
        cpu_name: "Test CPU".to_string(),
        has_gpu: true,
        total_gpu_vram_gb: Some(gb),
        gpu_name: Some("RTX 4090".to_string()),
        gpu_count: 1,
        unified_memory: false,
    }
}

fn started() -> (SubmitFlow, Request) {
    submit_results(results(), &specs(), "tok", Ok("{\"a\": 1}".to_string())).ok().unwrap()
}

fn replied(status: u16, body: &str) -> Exchange {
    Exchange::Replied { status, body: body.as_bytes().to_vec() }
}

const FORK: &str = "{\"fork\":true,\"parent\":{\"full_name\":\"AlexsJones/llmfit\"}}";

fn sent(action: SubmitAction) -> (u64, Request) {
    match action {
        SubmitAction::Send { after_secs, request } => (after_secs, request),
        SubmitAction::Finish(r) => panic!("finished: {r:?}"),
    }
}

fn finished(action: SubmitAction) -> Result<String, String> {
    match action {
        SubmitAction::Send { request, .. } => panic!("sent: {}", request.url),
        SubmitAction::Finish(r) => r,
    }
}

fn body(r: &Request) -> Value {
    serde_json::from_slice(r.body.as_ref().unwrap()).unwrap()
}

#[test]
fn submission_needs_results_and_payload() {
    assert_eq!(
        submit_results(vec![], &specs(), "tok", Ok("{}".to_string())).err().unwrap(),
        "no benchmark results to share"
    );
    assert_eq!(
        submit_results(vec![], &specs(), "tok", Err("x".to_string())).err().unwrap(),
        "no benchmark results to share"
    );
    assert_eq!(
        submit_results(results(), &specs(), "tok", Err("bad key".to_string())).err().unwrap(),
        "serialize failed: bad key"
    );
}

#[test]
fn favourable_submission_goes_through() {
    let (mut flow, first) = started();
    assert_eq!((first.method, first.url.as_str()), (Method::Get, "https://api.github.com/user"));
    assert_eq!(flow.slug, "rtx-4090");

    let (pause, r) = sent(flow.next_at(&replied(200, "{\"login\":\"octocat\"}"), 10, 20));
    assert_eq!((pause, r.url.as_str()), (0, "https://api.github.com/repos/octocat/llmfit"));
    let (pause, r) = sent(flow.next_at(&replied(200, FORK), 10, 20));
    assert_eq!(
        (pause, r.url.as_str()),
        (0, "https://api.github.com/repos/AlexsJones/llmfit/git/ref/heads/main")
    );

    let hash = short_hash_at("{\"a\": 1}", 10);
    let branch = format!("bench/rtx-4090-{hash}");
    let (pause, r) = sent(flow.next_at(&replied(200, "{\"object\":{\"sha\":\"abc\"}}"), 10, 20));
    assert_eq!((pause, r.url.as_str()), (0, "https://api.github.com/repos/octocat/llmfit/git/refs"));
    assert_eq!(body(&r)["ref"], format!("refs/heads/{branch}"));
    assert_eq!(body(&r)["sha"], "abc");

    let (pause, r) = sent(flow.next_at(&replied(201, "{}"), 11, 20));
    assert_eq!(pause, 0);
    assert_eq!(r.method, Method::Put);
    assert_eq!(
        r.url,
        format!(
            "https://api.github.com/repos/octocat/llmfit/contents/llmfit-core/data/community/rtx-4090/20-{hash}.json"
        )
    );
    assert_eq!(body(&r)["branch"], branch);
    assert_eq!(body(&r)["content"], "eyJhIjogMX0=");
    assert_eq!(body(&r)["message"], "data: community benchmark (llama3.1:8b on rtx-4090)");

    let (pause, r) = sent(flow.next_at(&replied(201, "{}"), 12, 21));
    assert_eq!((pause, r.url.as_str()), (0, "https://api.github.com/repos/AlexsJones/llmfit/pulls"));
    assert_eq!(body(&r)["head"], format!("octocat:{branch}"));
    assert_eq!(body(&r)["title"], "bench: community results for rtx-4090");

    let end = finished(flow.next_at(&replied(201, "{\"html_url\":\"https://pr\"}"), 13, 22));
    assert_eq!(end, Ok("https://pr".to_string()));
    assert!(matches!(flow.stage, Stage::Over));
    assert_eq!(flow.token, "tok");
    assert_eq!(flow.slug, "rtx-4090");
    assert_eq!(flow.payload, "{\"a\": 1}");
    assert_eq!(flow.results.len(), 1);
}

#[test]
fn pull_request_adds_one_file() {
    let replies = [
        replied(200, "{\"login\":\"octocat\"}"),
        replied(404, "{}"),
        replied(202, "{}"),
        replied(404, "{}"),
        replied(200, FORK),
        replied(200, "{\"object\":{\"sha\":\"abc\"}}"),
        replied(422, "{}"),
        replied(201, "{}"),
        replied(201, "{\"html_url\":\"https://pr\"}"),
    ];
    let (mut flow, _) = started();
    let mut contents = vec![];
    let mut end = None;
    for reply in &replies {
        match flow.next(reply) {
            SubmitAction::Send { request, .. } if request.method == Method::Put => {
                contents.push(body(&request)["content"].clone());
            }
            SubmitAction::Send { .. } => {}
            SubmitAction::Finish(r) => end = Some(r),
        }
    }
    assert_eq!(contents, ["eyJhIjogMX0="]);
    assert_eq!(end, Some(Ok("https://pr".to_string())));
}

#[test]
fn missing_fork_is_made_and_waited_for() {
    let (mut flow, _) = started();
    sent(flow.next(&replied(200, "{\"login\":\"octocat\"}")));
    let (pause, r) = sent(flow.next(&replied(404, "{}")));
    assert_eq!(
        (pause, r.method, r.url.as_str()),
        (0, Method::Post, "https://api.github.com/repos/AlexsJones/llmfit/forks")
    );
    let (pause, r) = sent(flow.next(&replied(202, "{}")));
    assert_eq!((pause, r.url.as_str()), (2, "https://api.github.com/repos/octocat/llmfit"));
    let (pause, _) = sent(flow.next(&replied(404, "{}")));
    assert_eq!(pause, 2);
    let (pause, r) = sent(flow.next(&replied(200, FORK)));
    assert_eq!(
        (pause, r.url.as_str()),
        (0, "https://api.github.com/repos/AlexsJones/llmfit/git/ref/heads/main")
    );
}

#[test]
fn another_repository_of_that_name_is_no_fork() {
    let other = "{\"fork\":false,\"full_name\":\"octocat/llmfit\"}";
    let (mut flow, _) = started();
    sent(flow.next(&replied(200, "{\"login\":\"octocat\"}")));
    let (_, r) = sent(flow.next(&replied(200, other)));
    assert_eq!(
        (r.method, r.url.as_str()),
        (Method::Post, "https://api.github.com/repos/AlexsJones/llmfit/forks")
    );
    sent(flow.next(&replied(202, "{}")));
    for _ in 0..14 {
        sent(flow.next(&replied(200, other)));
    }
    assert_eq!(
        finished(flow.next(&replied(200, other))),
        Err("fork was not ready after waiting; try --share again shortly".to_string())
    );
}

#[test]
fn submission_ends_within_twenty_two_replies() {
    let (mut flow, _) = started();
    sent(flow.next(&replied(200, "{\"login\":\"octocat\"}")));
    sent(flow.next(&replied(404, "{}")));
    let mut asked = 0;
    let mut reply = replied(202, "{}");
    let end = loop {
        match flow.next(&reply) {
            SubmitAction::Send { after_secs, .. } => {
                assert_eq!(after_secs, 2);
                asked += 1;
                reply = replied(404, "{}");
            }
            SubmitAction::Finish(r) => break r,
        }
    };
    assert_eq!(asked, 15);
    assert_eq!(end, Err("fork was not ready after waiting; try --share again shortly".to_string()));
}

#[test]
fn each_reply_may_end_the_submission() {
    let good = [
        replied(200, "{\"login\":\"octocat\"}"),
        replied(200, FORK),
        replied(200, "{\"object\":{\"sha\":\"abc\"}}"),
        replied(201, "{}"),
        replied(201, "{}"),
    ];
    let bad = [
        (0, replied(401, "{}"), "GitHub token is invalid or expired (401)"),
        (0, replied(200, "{}"), "could not determine GitHub username"),
        (2, replied(200, "{}"), "could not read upstream head sha"),
        (3, replied(403, "{\"message\":\"m\"}"), "GitHub API returned 403: m"),
        (4, replied(409, "{\"message\":\"m\"}"), "GitHub API returned 409: m"),
        (5, replied(201, "{}"), "pull request created but no URL returned"),
        (5, replied(422, "oops"), "GitHub API returned 422: unknown error"),
    ];
    for (at, reply, message) in bad {
        let (mut flow, _) = started();
        for step in good.iter().take(at) {
            sent(flow.next(step));
        }
        assert_eq!(finished(flow.next(&reply)), Err(message.to_string()));
        assert!(matches!(flow.stage, Stage::Over));
    }
}

#[test]
fn failed_request_ends_the_submission() {
    let (mut flow, _) = started();
    let failed = Exchange::Failed { error: "timeout".to_string() };
    assert_eq!(
        finished(flow.next(&failed)),
        Err("GET https://api.github.com/user failed: timeout".to_string())
    );
    let (mut flow, _) = started();
    sent(flow.next(&replied(200, "{\"login\":\"octocat\"}")));
    sent(flow.next(&replied(404, "")));
    assert_eq!(
        finished(flow.next(&failed)),
        Err("POST https://api.github.com/repos/AlexsJones/llmfit/forks failed: timeout".to_string())
    );
}

#[test]
fn unread_body_counts_as_null() {
    let (mut flow, _) = started();
    let unread = Exchange::Unread { status: 200, error: "reset".to_string() };
    assert_eq!(
        finished(flow.next(&unread)),
        Err("could not determine GitHub username".to_string())
    );
}

fn options(dry_run: bool, assume_yes: bool) -> ShareOptions {
    ShareOptions { dry_run, assume_yes }
}

fn outcome(action: ShareAction) -> (&'static str, Result<Option<String>, String>) {
    match action {
        ShareAction::Finish { notice, outcome } => (notice, outcome),
        _ => panic!("went on"),
    }
}

#[test]
fn only_yes_is_consent() {
    for line in ["y\n", "Y\n", "yes", " YES \r\n", "yEs"] {
        assert!(confirm(line), "{line:?}");
    }
    for line in ["", "\n", "n", "no\n", "yeah", "y e s", "yy", "ye"] {
        assert!(!confirm(line), "{line:?}");
    }
    assert!(consents("y") && consents("yes") && !consents("Y") && !consents("y "));
}

#[test]
fn prompt_counts_the_results() {
    assert_eq!(
        share_prompt(12),
        "\n  Contribute 12 result(s) as a PR to AlexsJones/llmfit? [y/N] "
    );
}

#[test]
fn nothing_to_share_is_an_error() {
    let (flow, action) = share_results(&vec![], &options(false, true));
    assert_eq!(outcome(action), ("", Err("no benchmark results to share".to_string())));
    assert_eq!(flow.stage, ShareStage::Over);
}

#[test]
fn dry_run_submits_nothing() {
    for assume_yes in [false, true] {
        let (mut flow, action) = share_results(&results(), &options(true, assume_yes));
        assert!(matches!(action, ShareAction::Show));
        let (notice, end) = outcome(flow.next(ShareEvent::Shown(Ok("{}".to_string()))));
        assert_eq!(notice, "\n  --dry-run: nothing was submitted.");
        assert_eq!(end, Ok(None));
    }
}

#[test]
fn consent_leads_to_a_pull_request() {
    let (mut flow, action) = share_results(&results(), &options(false, false));
    assert!(matches!(action, ShareAction::Show));
    match flow.next(ShareEvent::Shown(Ok("{}".to_string()))) {
        ShareAction::Ask(prompt) => assert_eq!(prompt, share_prompt(1)),
        _ => panic!("did not ask"),
    }
    assert!(matches!(flow.next(ShareEvent::Answered(Ok("Yes\n".to_string()))), ShareAction::Resolve));
    match flow.next(ShareEvent::Resolved(Ok("tok".to_string()))) {
        ShareAction::Submit { token, payload } => {
            assert_eq!((token.as_str(), payload.as_str()), ("tok", "{}"))
        }
        _ => panic!("did not submit"),
    }
    let end = outcome(flow.next(ShareEvent::Submitted(Ok("https://pr".to_string()))));
    assert_eq!(end, ("", Ok(Some("https://pr".to_string()))));
    assert_eq!(flow.stage, ShareStage::Over);
}

#[test]
fn what_was_shown_is_what_is_committed() {
    let shown = "{\n  \"submittedAtUnix\": 1752127200\n}";
    let (mut sharing, _) = share_results(&results(), &options(false, true));
    sharing.next(ShareEvent::Shown(Ok(shown.to_string())));
    let (token, payload) = match sharing.next(ShareEvent::Resolved(Ok("tok".to_string()))) {
        ShareAction::Submit { token, payload } => (token, payload),
        _ => panic!("did not submit"),
    };
    assert_eq!(payload, shown);
    let (mut flow, _) = submit_results(results(), &specs(), &token, Ok(payload)).ok().unwrap();
    sent(flow.next(&replied(200, "{\"login\":\"octocat\"}")));
    sent(flow.next(&replied(200, FORK)));
    sent(flow.next(&replied(200, "{\"object\":{\"sha\":\"abc\"}}")));
    let (_, r) = sent(flow.next(&replied(201, "{}")));
    assert_eq!(r.method, Method::Put);
    assert_eq!(body(&r)["content"], "ewogICJzdWJtaXR0ZWRBdFVuaXgiOiAxNzUyMTI3MjAwCn0=");
}

#[test]
fn refusal_cancels() {
    let (mut flow, _) = share_results(&results(), &options(false, false));
    flow.next(ShareEvent::Shown(Ok("{}".to_string())));
    let end = outcome(flow.next(ShareEvent::Answered(Ok("n\n".to_string()))));
    assert_eq!(end, ("  Cancelled.", Ok(None)));
}

#[test]
fn going_ahead_is_not_asked_about() {
    let (mut flow, _) = share_results(&results(), &options(false, true));
    assert!(matches!(flow.next(ShareEvent::Shown(Ok("{}".to_string()))), ShareAction::Resolve));
}

#[test]
fn sharing_fails_with_the_reason() {
    let (mut flow, _) = share_results(&results(), &options(false, false));
    let end = outcome(flow.next(ShareEvent::Shown(Err("x".to_string()))));
    assert_eq!(end, ("", Err("serialize failed: x".to_string())));

    let (mut flow, _) = share_results(&results(), &options(false, false));
    flow.next(ShareEvent::Shown(Ok("{}".to_string())));
    let end = outcome(flow.next(ShareEvent::Answered(Err("eof".to_string()))));
    assert_eq!(end, ("", Err("failed to read input: eof".to_string())));

    let (mut flow, _) = share_results(&results(), &options(false, true));
    flow.next(ShareEvent::Shown(Ok("{}".to_string())));
    let end = outcome(flow.next(ShareEvent::Resolved(Err("no token".to_string()))));
    assert_eq!(end, ("", Err("no token".to_string())));

    let (mut flow, _) = share_results(&results(), &options(false, true));
    flow.next(ShareEvent::Shown(Ok("{}".to_string())));
    flow.next(ShareEvent::Resolved(Ok("tok".to_string())));
    let end = outcome(flow.next(ShareEvent::Submitted(Err("boom".to_string()))));
    assert_eq!(end, ("", Err("boom".to_string())));
}
