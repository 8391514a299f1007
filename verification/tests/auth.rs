use llmfit_share::auth::{
    cache_token, device_auth, device_flow, device_flow_next, device_flow_poll,
    device_flow_poll_request, device_flow_start, device_flow_start_request, device_instructions,
    needs_cached_token, oauth_client_id, poll_result, read_cached_token, resolve_token,
    resolve_token_noninteractive, token_after_caching, token_after_login, DeviceAuth, DevicePoll,
    DeviceStep, TokenStep, DEFAULT_CLIENT_ID,
};
use llmfit_share::clock::{now_unix, unix_seconds};
use llmfit_share::github::{Exchange, Method, Request};
use llmfit_share::text::{decimal_text, hexadecimal_text, trim};
use serde_json::Value;

fn replied(body: &str) -> Exchange {
    Exchange::Replied { status: 200, body: body.as_bytes().to_vec() }
}

fn body(r: &Request) -> Value {
    serde_json::from_slice(r.body.as_ref().unwrap()).unwrap()
}

#[test]
fn trimming_takes_all_white_space() {
    for s in ["", " ", "a", "  a b \n", "\u{3000}\u{a0}x\u{2003}\t\r\n", "\u{200b}y\u{200b}", "\u{85}"] {
        assert_eq!(trim(s), s.trim());
        assert_eq!(trim(&trim(s)), trim(s));
    }
}

#[test]
fn white_space_is_what_unicode_says() {
    let mut found = vec![];
    for c in '\0'..=char::MAX {
        let mut text = String::new();
        text.push(c);
        if trim(&text).is_empty() {
            found.push(c);
        }
    }
    let mut expected = vec![];
    expected.extend('\u{9}'..='\u{d}');
    expected.extend(['\u{20}', '\u{85}', '\u{a0}', '\u{1680}']);
    expected.extend('\u{2000}'..='\u{200a}');
    expected.extend(['\u{2028}', '\u{2029}', '\u{202f}', '\u{205f}', '\u{3000}']);
    assert_eq!(found, expected);
}

#[test]
fn numbers_are_rendered() {
    for n in [0, 7, 10, 99, 100, 1752127200, u64::MAX] {
        assert_eq!(decimal_text(n), format!("{n}"));
    }
    for n in [0, 15, 16, 0xdead_beef, u32::MAX] {
        assert_eq!(hexadecimal_text(n), format!("{n:08x}"));
    }
}

#[test]
fn clock_goes_forward() {
    assert_eq!(unix_seconds(Some(5)), 5);
    assert_eq!(unix_seconds(None), 0);
    let a = now_unix();
    assert!(a > 1_700_000_000);
    assert!(now_unix() >= a);
}

#[test]
fn environment_goes_before_the_cache() {
    let r = |a, b, c| resolve_token_noninteractive(a, b, c);
    assert_eq!(r(Some("one"), Some("two"), Some("three")), Some("one".to_string()));
    assert_eq!(r(None, Some("two"), Some("three")), Some("two".to_string()));
    assert_eq!(r(None, None, Some("three")), Some("three".to_string()));
    assert_eq!(r(None, None, None), None);
    assert_eq!(r(Some("  \n"), Some(""), Some(" three\n")), Some("three".to_string()));
    assert_eq!(r(Some(" one\t"), None, None), Some("one".to_string()));
    assert_eq!(r(Some(""), Some(" "), Some("\n")), None);
}

#[test]
fn cache_is_needed_without_a_token_in_the_environment() {
    assert!(needs_cached_token(None, None));
    assert!(needs_cached_token(Some(""), Some(" \n")));
    assert!(!needs_cached_token(Some("one"), None));
    assert!(!needs_cached_token(Some(" "), Some("two")));
}

#[test]
fn cached_token_is_read_back() {
    let file = cache_token(true, "gho_abc").ok().unwrap();
    assert_eq!(file.directory, "llmfit");
    assert_eq!(file.name, "github_token");
    assert_eq!(file.contents, "gho_abc");
    assert_eq!(file.mode, 0o600);
    assert_eq!(read_cached_token(Some(&file.contents)), Some("gho_abc".to_string()));
    assert_eq!(
        resolve_token_noninteractive(None, None, Some(&file.contents)),
        Some("gho_abc".to_string())
    );
    assert_eq!(read_cached_token(None), None);
    assert_eq!(read_cached_token(Some(" \n")), None);
}

#[test]
fn cache_needs_a_config_directory() {
    assert_eq!(cache_token(false, "t").err().unwrap(), "no config directory");
}

#[test]
fn placeholder_is_no_client_id() {
    assert_eq!(oauth_client_id(None), None);
    assert_eq!(oauth_client_id(Some(DEFAULT_CLIENT_ID)), None);
    assert_eq!(oauth_client_id(Some("Iv1.abc")), Some("Iv1.abc".to_string()));
    assert_eq!(oauth_client_id(Some("")), Some("".to_string()));
}

fn settled(step: TokenStep) -> (Option<String>, Result<String, String>) {
    match step {
        TokenStep::Finish { warning, outcome } => (warning, outcome),
        _ => panic!("went on"),
    }
}

#[test]
fn token_is_used_or_login_is_tried() {
    let id = Some("id".to_string());
    for client_id in [id.clone(), None] {
        let end = settled(resolve_token(Some("t".to_string()), client_id));
        assert_eq!(end, (None, Ok("t".to_string())));
    }
    assert!(matches!(resolve_token(None, id), TokenStep::Login(i) if i == "id"));
    assert_eq!(
        settled(resolve_token(None, None)),
        (
            None,
            Err("no GitHub token found. Set GITHUB_TOKEN (or GH_TOKEN), or set \
                 LLMFIT_GH_CLIENT_ID to a registered OAuth App client id to enable \
                 interactive login."
                .to_string())
        )
    );
}

#[test]
fn login_is_cached_and_used() {
    assert!(matches!(token_after_login(Ok("t".to_string())), TokenStep::Cache(t) if t == "t"));
    assert_eq!(
        settled(token_after_login(Err("denied".to_string()))),
        (None, Err("denied".to_string()))
    );
    assert_eq!(
        settled(token_after_caching("t".to_string(), Ok(()))),
        (None, Ok("t".to_string()))
    );
    assert_eq!(
        settled(token_after_caching("t".to_string(), Err("disk full".to_string()))),
        (
            Some("  Warning: could not cache token: disk full".to_string()),
            Ok("t".to_string())
        )
    );
}

#[test]
fn device_flow_requests() {
    let r = device_flow_start_request("id");
    assert_eq!((r.method, r.url.as_str()), (Method::Post, "https://github.com/login/device/code"));
    assert_eq!(r.headers.len(), 2);
    assert_eq!((r.headers[0].name.as_str(), r.headers[0].value.as_str()), ("Accept", "application/json"));
    assert_eq!((r.headers[1].name.as_str(), r.headers[1].value.as_str()), ("User-Agent", "llmfit/1.0.0"));
    assert_eq!(body(&r)["client_id"], "id");
    assert_eq!(body(&r)["scope"], "public_repo");
    assert_eq!(body(&r).as_object().unwrap().len(), 2);

    let r = device_flow_poll_request("id", "dc");
    assert_eq!(
        (r.method, r.url.as_str()),
        (Method::Post, "https://github.com/login/oauth/access_token")
    );
    assert_eq!(r.headers.len(), 2);
    assert_eq!(body(&r)["client_id"], "id");
    assert_eq!(body(&r)["device_code"], "dc");
    assert_eq!(body(&r)["grant_type"], "urn:ietf:params:oauth:grant-type:device_code");
    assert_eq!(body(&r).as_object().unwrap().len(), 3);
}

#[test]
fn device_flow_starts() {
    let a = device_flow_start(&replied(
        "{\"device_code\":\"dc\",\"user_code\":\"AB-12\",\"verification_uri\":\"https://v\",\"interval\":7}",
    ))
    .ok()
    .unwrap();
    assert_eq!(a.device_code, "dc");
    assert_eq!(a.user_code, "AB-12");
    assert_eq!(a.verification_uri, "https://v");
    assert_eq!(a.interval, 7);
}

#[test]
fn device_flow_start_has_defaults() {
    let a = device_flow_start(&replied("{\"device_code\":\"dc\"}")).ok().unwrap();
    assert_eq!(a.user_code, "");
    assert_eq!(a.verification_uri, "https://github.com/login/device");
    assert_eq!(a.interval, 5);
    for (text, interval) in [("0", 1), ("1", 1), ("-3", 5), ("2.5", 5), ("\"9\"", 5), ("900", 900)] {
        let body = format!("{{\"device_code\":\"dc\",\"interval\":{text}}}");
        assert_eq!(device_flow_start(&replied(&body)).ok().unwrap().interval, interval, "{text}");
    }
}

#[test]
fn device_flow_start_fails() {
    assert_eq!(
        device_flow_start(&replied("{\"error\":\"x\"}")).err().unwrap(),
        "device flow: missing device_code"
    );
    assert_eq!(
        device_auth(None, Some("u".to_string()), None, None).err().unwrap(),
        "device flow: missing device_code"
    );
    let e = device_flow_start(&replied("<html>")).err().unwrap();
    let cause = serde_json::from_str::<Value>("<html>").unwrap_err();
    assert_eq!(e, format!("device code parse failed: json: {cause}"));
    let unread = Exchange::Unread { status: 200, error: "io: reset".to_string() };
    assert_eq!(device_flow_start(&unread).err().unwrap(), "device code parse failed: io: reset");
    let failed = Exchange::Failed { error: "dns".to_string() };
    assert_eq!(device_flow_start(&failed).err().unwrap(), "device code request failed: dns");
}

#[test]
fn device_flow_polls() {
    let poll = |text: &str| device_flow_poll(&replied(text)).ok().unwrap();
    assert!(matches!(poll("{\"access_token\":\"gho\"}"), DevicePoll::Token(t) if t == "gho"));
    assert!(matches!(
        poll("{\"access_token\":\"gho\",\"error\":\"slow_down\"}"),
        DevicePoll::Token(t) if t == "gho"
    ));
    assert!(matches!(poll("{\"error\":\"authorization_pending\"}"), DevicePoll::Pending));
    assert!(matches!(poll("{\"error\":\"slow_down\"}"), DevicePoll::SlowDown));
    assert!(matches!(poll("{\"error\":\"expired_token\"}"),
        DevicePoll::Failed(e) if e == "device code expired before authorization"));
    assert!(matches!(poll("{\"error\":\"access_denied\"}"),
        DevicePoll::Failed(e) if e == "authorization was denied"));
    assert!(matches!(poll("{\"error\":\"bad_code\"}"),
        DevicePoll::Failed(e) if e == "authorization failed: bad_code"));
    assert!(matches!(poll("{}"),
        DevicePoll::Failed(e) if e == "unexpected response while polling for token"));
    assert!(matches!(poll_result(None, None),
        DevicePoll::Failed(e) if e == "unexpected response while polling for token"));
}

#[test]
fn device_flow_poll_fails() {
    let e = device_flow_poll(&replied("")).err().unwrap();
    let cause = serde_json::from_str::<Value>("").unwrap_err();
    assert_eq!(e, format!("token poll parse failed: json: {cause}"));
    let unread = Exchange::Unread { status: 200, error: "x".to_string() };
    assert_eq!(device_flow_poll(&unread).err().unwrap(), "token poll parse failed: x");
    let failed = Exchange::Failed { error: "x".to_string() };
    assert_eq!(device_flow_poll(&failed).err().unwrap(), "token poll failed: x");
}

fn auth(interval: u64) -> DeviceAuth {
    DeviceAuth {
        user_code: "AB-12".to_string(),
        verification_uri: "https://v".to_string(),
        device_code: "dc".to_string(),
        interval,
    }
}

fn poll_of(step: DeviceStep) -> (u64, u64) {
    match step {
        DeviceStep::Poll { wait_secs, interval, request } => {
            assert_eq!(request.url, "https://github.com/login/oauth/access_token");
            assert_eq!(body(&request)["client_id"], "id");
            assert_eq!(body(&request)["device_code"], "dc");
            (wait_secs, interval)
        }
        DeviceStep::Done(_) => panic!("ended"),
    }
}

fn outcome_of(step: DeviceStep) -> Result<String, String> {
    match step {
        DeviceStep::Poll { .. } => panic!("went on"),
        DeviceStep::Done(r) => r,
    }
}

#[test]
fn device_flow_is_paced() {
    let a = auth(5);
    assert_eq!(poll_of(device_flow("id", &a)), (6, 5));
    assert_eq!(poll_of(device_flow_next("id", &a, 5, Ok(DevicePoll::Pending))), (6, 5));
    assert_eq!(poll_of(device_flow_next("id", &a, 5, Ok(DevicePoll::SlowDown))), (11, 10));
}

#[test]
fn slow_downs_add_up() {
    let a = auth(5);
    let (mut wait, mut pace) = poll_of(device_flow("id", &a));
    assert_eq!(wait, 6);
    for poll in [DevicePoll::SlowDown, DevicePoll::Pending, DevicePoll::SlowDown] {
        (wait, pace) = poll_of(device_flow_next("id", &a, pace, Ok(poll)));
    }
    assert_eq!((wait, pace), (16, 15));
}

#[test]
fn device_flow_ends() {
    let a = auth(5);
    for pace in [5, u64::MAX] {
        let token = Ok(DevicePoll::Token("t".to_string()));
        assert_eq!(outcome_of(device_flow_next("id", &a, pace, token)), Ok("t".to_string()));
        let failed = Ok(DevicePoll::Failed("e".to_string()));
        assert_eq!(outcome_of(device_flow_next("id", &a, pace, failed)), Err("e".to_string()));
        let error = Err("e".to_string());
        assert_eq!(outcome_of(device_flow_next("id", &a, pace, error)), Err("e".to_string()));
    }
}

#[test]
fn long_paces_are_kept_up() {
    let a = auth(5);
    let most = u64::MAX;
    assert_eq!(
        poll_of(device_flow_next("id", &a, most - 1, Ok(DevicePoll::Pending))),
        (most, most - 1)
    );
    assert_eq!(
        poll_of(device_flow_next("id", &a, most - 6, Ok(DevicePoll::SlowDown))),
        (most, most - 1)
    );
}

#[test]
fn instructions_show_address_and_code() {
    assert_eq!(
        device_instructions(&auth(5)),
        "\n  To authorize llmfit to open a pull request on your behalf:\n\n    \
         1. Open https://v\n    2. Enter code: AB-12\n\n  \
         Waiting for authorization (Ctrl-C to cancel)...\n"
    );
}
