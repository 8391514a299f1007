use base64::Engine;
use llmfit_share::encoding::has_base64;
use llmfit_share::github::{
    api, api_error, api_failure, api_reply, create_branch, create_branch_request, ensure_fork,
    fork_creation_request, fork_lookup_request, open_pr, open_pr_request, pr_body, put_file,
    put_file_request, read_reply, upstream_head_request, upstream_head_sha, user_agent_text, whoami,
    whoami_request, Exchange, ForkQuestion, ForkStep, Method, Reply, Request,
};
use llmfit_share::hardware::Binary64;
use llmfit_share::json::{entry, render_object};
use llmfit_share::submission::{BenchResult, BenchSummary, Figure};
use serde_json::Value;

fn figure(v: f64) -> Figure {
    Figure { published: Binary64 { bits: v.to_bits() }, shown: format!("{v:.1}") }
}

fn result(model: &str, provider: &str, tps: f64, ttft: Option<f64>) -> BenchResult {
    BenchResult {
        model: model.to_string(),
        provider: provider.to_string(),
        summary: BenchSummary {
            num_runs: 1,
            avg_ttft_ms: ttft.map(figure),
            avg_tps: figure(tps),
            min_tps: figure(tps),
            max_tps: figure(tps),
            avg_total_ms: figure(1.0),
            avg_output_tokens: figure(1.0),
        },
    }
}

fn reply(status: u16, body: &str) -> Reply {
    read_reply(status, body.as_bytes())
}

fn header<'a>(r: &'a Request, name: &str) -> Option<&'a str> {
    r.headers.iter().find(|h| h.name == name).map(|h| h.value.as_str())
}

fn body(r: &Request) -> Value {
    serde_json::from_slice(r.body.as_ref().unwrap()).unwrap()
}

fn assert_authenticated(r: &Request, token: &str) {
    assert_eq!(r.headers.len(), 4);
    assert_eq!(header(r, "Authorization"), Some(format!("Bearer {token}").as_str()));
    assert_eq!(header(r, "Accept"), Some("application/vnd.github+json"));
    assert_eq!(header(r, "User-Agent"), Some("llmfit/1.0.0"));
    assert_eq!(header(r, "X-GitHub-Api-Version"), Some("2022-11-28"));
}

#[test]
fn requests_by_method_name() {
    let r = api("GET", "https://x/y", "t", Some(vec![entry("a", "b")])).ok().unwrap();
    assert_eq!(r.method, Method::Get);
    assert_eq!(r.url, "https://x/y");
    assert!(r.body.is_none());
    assert_authenticated(&r, "t");

    let r = api("POST", "u", "t", None).ok().unwrap();
    assert_eq!(r.method, Method::Post);
    assert_eq!(body(&r), Value::Object(serde_json::Map::new()));

    let r = api("PUT", "u", "t", Some(vec![entry("a", "\"b\"\n")])).ok().unwrap();
    assert_eq!(r.method, Method::Put);
    assert_eq!(body(&r)["a"], "\"b\"\n");
}

#[test]
fn other_methods_are_not_supported() {
    assert_eq!(api("PATCH", "u", "t", None).err().unwrap(), "unsupported method PATCH");
    assert_eq!(api("get", "u", "t", None).err().unwrap(), "unsupported method get");
}

#[test]
fn objects_read_back_as_they_were_written() {
    let list = vec![
        entry("a", "1"),
        entry("b", "\u{e4}\u{1f600}\u{0}\\"),
        entry("", "empty name"),
        entry("a", "2"),
    ];
    let v: Value = serde_json::from_slice(&render_object(&list)).unwrap();
    assert_eq!(v["a"], "2");
    assert_eq!(v["b"], "\u{e4}\u{1f600}\u{0}\\");
    assert_eq!(v[""], "empty name");
    assert_eq!(v.as_object().unwrap().len(), 3);
    assert!(render_object(&vec![]) == b"{}");
}

#[test]
fn failures_name_the_request() {
    assert_eq!(api_failure(Method::Get, "u", "timeout"), "GET u failed: timeout");
    assert_eq!(api_failure(Method::Post, "u", "x"), "POST u failed: x");
    assert_eq!(api_failure(Method::Put, "u", ""), "PUT u failed: ");
}

#[test]
fn replies_are_read_member_by_member() {
    let r = reply(
        200,
        "{\"message\":\"m\",\"login\":\"l\",\"object\":{\"sha\":\"s\"},\"html_url\":\"h\"}",
    );
    assert_eq!(r.status, 200);
    assert_eq!(r.message.as_deref(), Some("m"));
    assert_eq!(r.login.as_deref(), Some("l"));
    assert_eq!(r.sha.as_deref(), Some("s"));
    assert_eq!(r.html_url.as_deref(), Some("h"));

    let r = reply(200, "{\"message\":5,\"login\":null,\"object\":\"x\",\"html_url\":[\"h\"],\"sha\":\"s\"}");
    assert!(r.message.is_none() && r.login.is_none() && r.sha.is_none() && r.html_url.is_none());
}

#[test]
fn unreadable_bodies_read_as_null() {
    for text in ["", "<html>", "{\"login\":\"l\"", "null", "[]", "3"] {
        let r = reply(502, text);
        assert_eq!(r.status, 502);
        assert!(r.message.is_none() && r.login.is_none() && r.sha.is_none() && r.html_url.is_none());
        assert_eq!(api_error(&r), "GitHub API returned 502: unknown error");
    }
}

#[test]
fn exchanges_become_replies() {
    let done = Exchange::Replied { status: 201, body: b"{\"html_url\":\"h\"}".to_vec() };
    let r = api_reply(Method::Post, "u", &done).ok().unwrap();
    assert_eq!((r.status, r.html_url.as_deref()), (201, Some("h")));

    let cut = Exchange::Unread { status: 200, error: "reset".to_string() };
    let r = api_reply(Method::Get, "u", &cut).ok().unwrap();
    assert_eq!((r.status, r.login), (200, None));

    let none = Exchange::Failed { error: "no route".to_string() };
    assert_eq!(api_reply(Method::Get, "u", &none).err().unwrap(), "GET u failed: no route");
}

#[test]
fn errors_carry_status_and_message() {
    assert_eq!(api_error(&reply(404, "{\"message\":\"Not Found\"}")), "GitHub API returned 404: Not Found");
    assert_eq!(api_error(&reply(0, "{}")), "GitHub API returned 0: unknown error");
    assert_eq!(api_error(&reply(65535, "{}")), "GitHub API returned 65535: unknown error");
}

#[test]
fn whoami_asks_for_the_user() {
    let r = whoami_request("tok");
    assert_eq!(r.method, Method::Get);
    assert_eq!(r.url, "https://api.github.com/user");
    assert!(r.body.is_none());
    assert_authenticated(&r, "tok");
}

#[test]
fn whoami_reads_the_login() {
    assert_eq!(whoami(&reply(200, "{\"login\":\"octocat\"}")), Ok("octocat".to_string()));
    assert_eq!(whoami(&reply(299, "{\"login\":\"octocat\"}")), Ok("octocat".to_string()));
    assert_eq!(
        whoami(&reply(401, "{\"login\":\"octocat\",\"message\":\"Bad credentials\"}")),
        Err("GitHub token is invalid or expired (401)".to_string())
    );
    assert_eq!(
        whoami(&reply(403, "{\"message\":\"rate limit\"}")),
        Err("GitHub API returned 403: rate limit".to_string())
    );
    assert_eq!(whoami(&reply(300, "{\"login\":\"x\"}")), Err("GitHub API returned 300: unknown error".to_string()));
    assert_eq!(whoami(&reply(199, "{\"login\":\"x\"}")), Err("GitHub API returned 199: unknown error".to_string()));
    assert_eq!(whoami(&reply(200, "{}")), Err("could not determine GitHub username".to_string()));
}

#[test]
fn fork_requests() {
    let r = fork_lookup_request("t", "octocat");
    assert_eq!((r.method, r.url.as_str()), (Method::Get, "https://api.github.com/repos/octocat/llmfit"));
    assert_authenticated(&r, "t");
    let r = fork_creation_request("t");
    assert_eq!(
        (r.method, r.url.as_str()),
        (Method::Post, "https://api.github.com/repos/AlexsJones/llmfit/forks")
    );
    assert_eq!(body(&r), Value::Object(serde_json::Map::new()));
    assert_authenticated(&r, "t");
}

const FORK: &str = "{\"fork\":true,\"parent\":{\"full_name\":\"AlexsJones/llmfit\"}}";

#[test]
fn ensure_fork_takes_what_is_there() {
    assert!(matches!(ensure_fork(ForkQuestion::Lookup, &reply(200, FORK)), ForkStep::Done));
    assert!(matches!(ensure_fork(ForkQuestion::Lookup, &reply(404, "{}")), ForkStep::Create));
    assert!(matches!(ensure_fork(ForkQuestion::Lookup, &reply(201, FORK)), ForkStep::Create));
    assert!(matches!(
        ensure_fork(ForkQuestion::Ready { tries_left: 0 }, &reply(200, FORK)),
        ForkStep::Done
    ));
}

#[test]
fn ensure_fork_takes_a_fork_of_a_fork() {
    let body = "{\"fork\":true,\"parent\":{\"full_name\":\"octocat/llmfit\"},\
                \"source\":{\"full_name\":\"AlexsJones/llmfit\"}}";
    assert!(matches!(ensure_fork(ForkQuestion::Lookup, &reply(200, body)), ForkStep::Done));
    for body in [
        "{\"fork\":false,\"source\":{\"full_name\":\"AlexsJones/llmfit\"}}",
        "{\"fork\":true,\"source\":{\"full_name\":\"octocat/llmfit\"}}",
    ] {
        let there = reply(200, body);
        assert!(matches!(ensure_fork(ForkQuestion::Lookup, &there), ForkStep::Create), "{body}");
    }
}

#[test]
fn ensure_fork_takes_only_a_fork() {
    for body in [
        "{}",
        "",
        "{\"fork\":false}",
        "{\"fork\":true}",
        "{\"fork\":\"true\",\"parent\":{\"full_name\":\"AlexsJones/llmfit\"}}",
        "{\"fork\":false,\"parent\":{\"full_name\":\"AlexsJones/llmfit\"}}",
        "{\"fork\":true,\"parent\":{\"full_name\":\"octocat/llmfit\"}}",
        "{\"fork\":true,\"parent\":\"AlexsJones/llmfit\"}",
        "{\"fork\":true,\"full_name\":\"AlexsJones/llmfit\"}",
    ] {
        let there = reply(200, body);
        assert!(matches!(ensure_fork(ForkQuestion::Lookup, &there), ForkStep::Create), "{body}");
        assert!(matches!(
            ensure_fork(ForkQuestion::Ready { tries_left: 3 }, &there),
            ForkStep::Wait { tries_left: 2 }
        ));
        assert!(matches!(
            ensure_fork(ForkQuestion::Ready { tries_left: 0 }, &there),
            ForkStep::GiveUp(_)
        ));
    }
}

#[test]
fn ensure_fork_gives_up() {
    match ensure_fork(ForkQuestion::Creation, &reply(403, "{\"message\":\"no\"}")) {
        ForkStep::GiveUp(e) => assert_eq!(e, "GitHub API returned 403: no"),
        _ => panic!("went on"),
    }
    let mut question = ForkQuestion::Creation;
    let mut status = 202;
    let mut asked = 0;
    loop {
        match ensure_fork(question, &reply(status, "{}")) {
            ForkStep::Wait { tries_left } => {
                asked += 1;
                question = ForkQuestion::Ready { tries_left };
                status = 404;
            }
            ForkStep::GiveUp(e) => {
                assert_eq!(e, "fork was not ready after waiting; try --share again shortly");
                break;
            }
            _ => panic!("ended otherwise"),
        }
    }
    assert_eq!(asked, 15);
}

#[test]
fn head_is_looked_up_upstream() {
    let r = upstream_head_request("t");
    assert_eq!(
        (r.method, r.url.as_str()),
        (Method::Get, "https://api.github.com/repos/AlexsJones/llmfit/git/ref/heads/main")
    );
    assert_authenticated(&r, "t");
    assert_eq!(
        upstream_head_sha(&reply(200, "{\"object\":{\"sha\":\"abc\"}}")),
        Ok("abc".to_string())
    );
    assert_eq!(
        upstream_head_sha(&reply(200, "{\"sha\":\"abc\"}")),
        Err("could not read upstream head sha".to_string())
    );
    assert_eq!(
        upstream_head_sha(&reply(500, "{\"object\":{\"sha\":\"abc\"}}")),
        Err("GitHub API returned 500: unknown error".to_string())
    );
}

#[test]
fn branch_is_made_on_the_fork() {
    let r = create_branch_request("t", "octocat", "bench/x-1", "abc");
    assert_eq!(
        (r.method, r.url.as_str()),
        (Method::Post, "https://api.github.com/repos/octocat/llmfit/git/refs")
    );
    assert_authenticated(&r, "t");
    let b = body(&r);
    assert_eq!(b["ref"], "refs/heads/bench/x-1");
    assert_eq!(b["sha"], "abc");
    assert_eq!(b.as_object().unwrap().len(), 2);
}

#[test]
fn branch_may_be_there_already() {
    assert_eq!(create_branch(&reply(201, "{}")), Ok(()));
    assert_eq!(create_branch(&reply(422, "{\"message\":\"Reference already exists\"}")), Ok(()));
    assert_eq!(
        create_branch(&reply(200, "{\"message\":\"m\"}")),
        Err("GitHub API returned 200: m".to_string())
    );
    assert_eq!(create_branch(&reply(404, "")), Err("GitHub API returned 404: unknown error".to_string()));
}

#[test]
fn file_is_sent_in_base64() {
    for content in ["", "a", "ab", "abc", "abcd", "{\n  \"x\": \"\u{e4}\u{1f600}\"\n}", "??>>~~"] {
        assert!(has_base64(content));
        let r = put_file_request("t", "octocat", "bench/x", "dir/f.json", content, "msg");
        assert_eq!(
            (r.method, r.url.as_str()),
            (Method::Put, "https://api.github.com/repos/octocat/llmfit/contents/dir/f.json")
        );
        assert_authenticated(&r, "t");
        let b = body(&r);
        assert_eq!(b["message"], "msg");
        assert_eq!(b["branch"], "bench/x");
        assert_eq!(b.as_object().unwrap().len(), 3);
        let decoded = base64::engine::general_purpose::STANDARD
            .decode(b["content"].as_str().unwrap())
            .unwrap();
        assert_eq!(decoded, content.as_bytes());
    }
    let r = put_file_request("t", "l", "b", "p", "any carnal pleas", "m");
    assert_eq!(body(&r)["content"], "YW55IGNhcm5hbCBwbGVhcw==");
    let r = put_file_request("t", "l", "b", "p", "any carnal pleasu", "m");
    assert_eq!(body(&r)["content"], "YW55IGNhcm5hbCBwbGVhc3U=");
    let r = put_file_request("t", "l", "b", "p", "~~~???", "m");
    assert_eq!(body(&r)["content"], "fn5+Pz8/");
}

#[test]
fn contents_stay_apart() {
    let mut seen: Vec<String> = Vec::new();
    for content in ["", "a", "aa", "aaa", "aaaa", "b", "a\0", "a\0\0"] {
        let r = put_file_request("t", "l", "b", "p", content, "m");
        let text = body(&r)["content"].as_str().unwrap().to_string();
        assert_eq!(text.len(), (content.len() + 2) / 3 * 4);
        assert!(!seen.contains(&text));
        seen.push(text);
    }
}

#[test]
fn file_needs_success() {
    assert_eq!(put_file(&reply(201, "{}")), Ok(()));
    assert_eq!(put_file(&reply(200, "")), Ok(()));
    assert_eq!(
        put_file(&reply(409, "{\"message\":\"conflict\"}")),
        Err("GitHub API returned 409: conflict".to_string())
    );
}

#[test]
fn description_is_a_table_of_results() {
    let results = vec![
        result("llama3.1:8b", "ollama", 128.44, Some(41.26)),
        result("qwen2.5-7b-q4_k_m", "llamacpp", 42.5, None),
    ];
    assert_eq!(
        pr_body(&results),
        "Automated benchmark contribution from `llmfit bench --share`.\n\n\
         | Model | Provider | Avg TPS | Avg TTFT (ms) |\n\
         | --- | --- | --- | --- |\n\
         | llama3.1:8b | ollama | 128.4 | 41.3 |\n\
         | qwen2.5-7b-q4_k_m | llamacpp | 42.5 | \u{2014} |\n\
         \n_Submitted without the `gh` CLI via the GitHub device flow._\n"
    );
}

#[test]
fn pull_request_is_opened_upstream() {
    let results = vec![result("m", "p", 1.0, None)];
    let r = open_pr_request("t", "octocat", "bench/slug-1", &results, "slug");
    assert_eq!(
        (r.method, r.url.as_str()),
        (Method::Post, "https://api.github.com/repos/AlexsJones/llmfit/pulls")
    );
    assert_authenticated(&r, "t");
    let b = body(&r);
    assert_eq!(b["title"], "bench: community results for slug");
    assert_eq!(b["head"], "octocat:bench/slug-1");
    assert_eq!(b["base"], "main");
    assert_eq!(b["body"], pr_body(&results));
    assert_eq!(b.as_object().unwrap().len(), 4);
}

#[test]
fn pull_request_yields_its_address() {
    assert_eq!(open_pr(&reply(201, "{\"html_url\":\"https://pr\"}")), Ok("https://pr".to_string()));
    assert_eq!(
        open_pr(&reply(201, "{}")),
        Err("pull request created but no URL returned".to_string())
    );
    assert_eq!(
        open_pr(&reply(422, "{\"message\":\"Validation Failed\"}")),
        Err("GitHub API returned 422: Validation Failed".to_string())
    );
}

#[test]
fn user_agent_names_the_version() {
    assert_eq!(user_agent_text(), "llmfit/1.0.0");
}
