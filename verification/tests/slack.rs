use hmac::{Hmac, Mac};
use openorchestrator::config::{AgentConfig, AppConfig, SlackMode};
use openorchestrator::json::Json;
use openorchestrator::orchestrator::{AgentReply, TurnError};
use openorchestrator::paths::FilePath;
use openorchestrator::slack::{
    answer_body_read, answer_payload, bot_user_id_token, clean_slack_mention, incoming_message, listens_on_socket,
    process_slack_event, read_slack_event, read_slack_signature, refuse_slack_request, render_answer, should_ignore_channel_message,
    slack_events, slack_events_at, slack_runtime, validate_slack_runtime, verify_slack_signature,
    verify_slack_signature_at, SlackAnswer, SlackHeaders, SlackRuntime, SlackSetupError,
};
use openorchestrator::slack_api::{
    after_send, answer_slack_message, begin_upload, check_download, check_upload, complete_upload,
    finish_upload, message_to_post, read_bot_user_id, read_connection, read_send,
    read_sent_message, start_upload, upload_form, HttpStatus, UploadStep,
};
use openorchestrator::slack_files::{
    candidate_output_upload_paths, check_output_file, collect_agent_workspaces,
    collect_agent_workspaces_in, extract_slack_attachments, extract_slack_output_paths,
    pick_output_file, plan_output_uploads, resolve_slack_target_channel, sanitize_file_name,
    sanitize_path_component, start_attachment_job, OutputCandidate, SeenFrom,
    MAX_SLACK_ATTACHMENT_BYTES,
};
use openorchestrator::socket::{read_envelope, read_frame, SocketFrame};
use sha2::Sha256;

fn default_test_slack(enabled: bool) -> SlackRuntime {
    SlackRuntime {
        enabled,
        mode: SlackMode::EventsApi,
        bot_token: None,
        app_token: None,
        signing_secret: None,
        bot_user_id: None,
        default_channel: None,
    }
}

fn working_slack() -> SlackRuntime {
    SlackRuntime {
        bot_token: Some("xoxb-test".to_string()),
        signing_secret: Some("topsecret".to_string()),
        bot_user_id: Some("U1".to_string()),
        ..default_test_slack(true)
    }
}

fn text(value: &str) -> Json {
    Json::Text(value.to_string())
}

fn object(entries: Vec<(&str, Json)>) -> Json {
    Json::Object(entries.into_iter().map(|(key, value)| (key.to_string(), value)).collect())
}

fn shown(value: &Json) -> String {
    format!("{:?}", value)
}

fn status(code: u16, text: &str) -> HttpStatus {
    HttpStatus { code, text: text.to_string() }
}

fn ok() -> HttpStatus {
    status(200, "200 OK")
}

fn build_signed_slack_headers(secret: &str, timestamp: &str, body: &[u8]) -> SlackHeaders {
    let payload = format!("v0:{}:{}", timestamp, String::from_utf8_lossy(body));
    let mut mac = Hmac::<Sha256>::new_from_slice(secret.as_bytes()).expect("failed initializing hmac");
    mac.update(payload.as_bytes());
    let digest = mac.finalize().into_bytes();
    SlackHeaders {
        signature: Some(format!("v0={}", hex::encode(digest))),
        timestamp: Some(timestamp.to_string()),
    }
}

#[test]
fn slack_mode_validation_enforces_mode_specific_tokens() {
    let mut socket_runtime = default_test_slack(true);
    socket_runtime.mode = SlackMode::Socket;
    socket_runtime.bot_token = Some("xoxb-test".to_string());
    socket_runtime.app_token = None;
    socket_runtime.signing_secret = None;
    assert!(validate_slack_runtime(&socket_runtime).is_err());

    socket_runtime.app_token = Some("xapp-test".to_string());
    assert!(validate_slack_runtime(&socket_runtime).is_ok());

    let mut events_runtime = default_test_slack(true);
    events_runtime.mode = SlackMode::EventsApi;
    events_runtime.bot_token = Some("xoxb-test".to_string());
    events_runtime.signing_secret = None;
    assert!(validate_slack_runtime(&events_runtime).is_err());
}

#[test]
fn setup_errors_are_told_apart() {
    assert!(validate_slack_runtime(&default_test_slack(false)).is_ok());
    let mut slack = default_test_slack(true);
    let error = validate_slack_runtime(&slack).expect_err("no token");
    assert_eq!(error, SlackSetupError::NoBotToken);
    assert_eq!(error.message(), "slack.enabled requires slack.bot_token for outbound replies");
    slack.bot_token = Some("t".to_string());
    slack.signing_secret = Some("  ".to_string());
    let error = validate_slack_runtime(&slack).expect_err("no secret");
    assert_eq!(
        error.message(),
        "slack.enabled with events_api mode requires slack.signing_secret"
    );
    slack.mode = SlackMode::Socket;
    let error = validate_slack_runtime(&slack).expect_err("no app token");
    assert_eq!(error.message(), "slack.enabled with socket mode requires slack.app_token");
    assert!(listens_on_socket(&slack));
    assert_eq!(bot_user_id_token(&slack), Some("t"));
    slack.bot_user_id = Some("U".to_string());
    assert_eq!(bot_user_id_token(&slack), None);
    assert!(!listens_on_socket(&working_slack()));
    let mut cfg = AppConfig::default_in(None);
    cfg.slack.enabled = true;
    cfg.slack.app_token = Some("x".to_string());
    let runtime = slack_runtime(&cfg.slack);
    assert!(runtime.enabled);
    assert_eq!(runtime.app_token.as_deref(), Some("x"));
}

#[test]
fn verify_slack_signature_accepts_valid_request() {
    let secret = "topsecret";
    let body = br#"{"type":"event_callback"}"#;
    let timestamp = chrono::Utc::now().timestamp().to_string();
    let headers = build_signed_slack_headers(secret, &timestamp, body);

    assert!(verify_slack_signature(secret, &headers, body));
}

#[test]
fn verify_slack_signature_rejects_invalid_cases() {
    let secret = "topsecret";
    let body = br#"{"type":"event_callback"}"#;
    let timestamp = chrono::Utc::now().timestamp().to_string();
    let valid_headers = build_signed_slack_headers(secret, &timestamp, body);

    assert!(!verify_slack_signature(secret, &valid_headers, br#"{"type":"url_verification"}"#));

    let stale_timestamp = (chrono::Utc::now().timestamp() - 301).to_string();
    let stale_headers = build_signed_slack_headers(secret, &stale_timestamp, body);
    assert!(!verify_slack_signature(secret, &stale_headers, body));

    let malformed_headers = SlackHeaders {
        signature: Some("v0=1234".to_string()),
        timestamp: Some("not-a-number".to_string()),
    };
    assert!(!verify_slack_signature(secret, &malformed_headers, body));
}

#[test]
fn signatures_are_bound_to_their_time() {
    let body = b"x";
    let headers = build_signed_slack_headers("s", "1000", body);
    assert!(verify_slack_signature_at("s", &headers, body, 1300));
    assert!(!verify_slack_signature_at("s", &headers, body, 1301));
    assert!(verify_slack_signature_at("s", &headers, body, 700));
    assert!(!verify_slack_signature_at("s", &headers, body, 699));
    assert!(!verify_slack_signature_at("other", &headers, body, 1000));
    for extreme in ["-9223372036854775808", "9223372036854775807"] {
        let headers = build_signed_slack_headers("s", extreme, body);
        assert!(!verify_slack_signature_at("s", &headers, body, 1000));
    }
}

#[test]
fn signatures_are_read() {
    let headers = SlackHeaders {
        signature: Some("v0=0aFf".to_string()),
        timestamp: Some("1000".to_string()),
    };
    let read = read_slack_signature(&headers, "body", 1000).expect("a signature");
    assert_eq!(read.digest, vec![0x0a, 0xff]);
    assert_eq!(read.payload, "v0:1000:body");
    let without = |signature: Option<&str>, timestamp: Option<&str>| {
        let headers = SlackHeaders {
            signature: signature.map(str::to_string),
            timestamp: timestamp.map(str::to_string),
        };
        read_slack_signature(&headers, "body", 1000).is_none()
    };
    assert!(without(None, Some("1000")));
    assert!(without(Some("v0=00"), None));
    assert!(without(Some(""), Some("")));
    assert!(without(Some("v1=00"), Some("1000")));
    assert!(without(Some("v0=0"), Some("1000")));
    assert!(without(Some("v0=0g"), Some("1000")));
    assert!(without(Some("v0=00"), Some("99999999999999999999")));
}

#[test]
fn bodies_that_are_no_text_can_be_signed() {
    let body: [u8; 3] = [0xff, 0x61, 0xfe];
    let headers = build_signed_slack_headers("s", "1000", &body);
    assert!(verify_slack_signature_at("s", &headers, &body, 1000));
}

#[test]
fn requests_are_answered() {
    let now = 1000;
    let send = |slack: &SlackRuntime, body: &[u8]| {
        let headers = build_signed_slack_headers("topsecret", "1000", body);
        slack_events_at(slack, &headers, body, now)
    };
    let refused = |answer: SlackAnswer| match answer {
        SlackAnswer::Refused(refusal) => (refusal.status, refusal.error),
        other => panic!("{:?}", other),
    };
    assert_eq!(
        refused(send(&default_test_slack(false), b"{}")),
        (404, "slack integration disabled".to_string())
    );
    let mut socket = working_slack();
    socket.mode = SlackMode::Socket;
    assert_eq!(
        refused(send(&socket, b"{}")),
        (404, "slack socket mode enabled; webhook endpoint disabled".to_string())
    );
    assert_eq!(
        refused(send(&default_test_slack(true), b"{}")),
        (500, "slack signing secret is not configured".to_string())
    );
    let unsigned = SlackHeaders { signature: None, timestamp: None };
    assert_eq!(
        refused(slack_events_at(&working_slack(), &unsigned, b"{}", now)),
        (401, "invalid slack signature".to_string())
    );
    assert_eq!(
        refused(slack_events(&working_slack(), &unsigned, b"{}")),
        (401, "invalid slack signature".to_string())
    );
    let (code, error) = refused(send(&working_slack(), b"{"));
    assert_eq!(code, 400);
    assert!(error.starts_with("invalid json: EOF while parsing"));

    let challenge = send(&working_slack(), br#"{"type":"url_verification","challenge":"abc"}"#);
    assert!(matches!(&challenge, SlackAnswer::Challenge(c) if c == "abc"));
    let (code, body) = render_answer(&challenge);
    assert_eq!(code, 200);
    assert_eq!(shown(&body), shown(&object(vec![("challenge", text("abc"))])));
    let taken = send(&working_slack(), br#"{"type":"event_callback","event":{}}"#);
    assert!(matches!(&taken, SlackAnswer::Taken(Some(_))));
    let other = send(&working_slack(), br#"{"type":"x"}"#);
    assert!(matches!(&other, SlackAnswer::Taken(None)));
    let (code, body) = render_answer(&other);
    assert_eq!((code, shown(&body)), (200, shown(&object(vec![("ok", Json::Bool(true))]))));
    let (code, body) = render_answer(&send(&default_test_slack(false), b""));
    assert_eq!(code, 404);
    assert_eq!(shown(&body), shown(&object(vec![("error", text("slack integration disabled"))])));
    assert!(matches!(answer_payload(Json::Null), SlackAnswer::Taken(None)));
    assert!(refuse_slack_request(&working_slack(), true).is_none());
    assert_eq!(refuse_slack_request(&working_slack(), false).map(|r| r.status), Some(401));
    let (code, error) = refused(answer_body_read(Err("bad".to_string())));
    assert_eq!((code, error.as_str()), (400, "invalid json: bad"));
}

fn event(kind: &str, channel: &str, said: &str) -> Vec<(&'static str, Json)> {
    vec![
        ("type", text(kind)),
        ("channel", text(channel)),
        ("user", text("U9")),
        ("text", text(said)),
        ("ts", text("17.5")),
    ]
}

#[test]
fn events_become_messages() {
    let slack = working_slack();
    let read = |entries| read_slack_event(&slack, &object(entries));
    let m = read(event("app_mention", "C1", "<@U1>  hello <@U1>")).expect("a message");
    assert_eq!(m.channel, "C1");
    assert_eq!(m.user.as_deref(), Some("U9"));
    assert_eq!(m.thread_ts.as_deref(), Some("17.5"));
    assert_eq!(m.session, "slack:C1:17.5");
    assert_eq!(m.text, "hello");

    let mut threaded = event("message", "D1", "hi");
    threaded.push(("thread_ts", text("3.3")));
    assert_eq!(read(threaded).expect("a message").session, "slack:D1:3.3");

    let mut bare = event("message", "D1", "hi");
    bare.pop();
    assert_eq!(read(bare).expect("a message").session, "slack:D1:root");

    assert!(read(event("reaction_added", "C1", "x")).is_none());
    assert!(read(event("message", "C1", "no mention")).is_none());
    assert!(read(event("message", "C1", "yes <@U1>")).is_some());
    assert!(read(event("message", "", "x")).is_none());
    assert!(read(event("message", "D1", "  ")).is_none());
    let mut bot = event("message", "D1", "x");
    bot.push(("bot_id", Json::Null));
    assert!(read(bot).is_none());
    let mut edited = event("message", "D1", "x");
    edited.push(("subtype", text("message_changed")));
    assert!(read(edited).is_none());
    let mut broadcast = event("message", "D1", "x");
    broadcast.push(("subtype", text("thread_broadcast")));
    assert!(read(broadcast).is_some());
    assert!(read_slack_event(&slack, &Json::Null).is_none());
    let payload = object(vec![("event", object(event("app_mention", "C1", "<@U1> x")))]);
    let (m, inner) = process_slack_event(&slack, payload).expect("a message");
    assert_eq!(m.text, "x");
    assert_eq!(inner.text_at("channel"), Some("C1"));
    assert!(process_slack_event(&slack, Json::Null).is_none());
}

#[test]
fn mentions_matter_in_channels() {
    let slack = working_slack();
    assert!(should_ignore_channel_message(&slack, "G1", "message", "hi"));
    assert!(!should_ignore_channel_message(&slack, "G1", "app_mention", "hi"));
    assert!(!should_ignore_channel_message(&slack, "D1", "message", "hi"));
    assert!(!should_ignore_channel_message(&default_test_slack(true), "C1", "message", "hi"));
    assert_eq!(clean_slack_mention(&slack, " <@U1> a <@U1>b "), "a b");
    assert_eq!(clean_slack_mention(&default_test_slack(true), " <@U1> a "), " <@U1> a ");
}

#[test]
fn files_are_told_of_with_the_text() {
    let slack = working_slack();
    let m = read_slack_event(&slack, &object(event("app_mention", "C1", "<@U1> look")))
        .expect("a message");
    let incoming = incoming_message(&m, Some("files here")).expect("a text");
    assert_eq!(incoming.text, "look\n\nfiles here");
    assert_eq!(incoming.source, "slack");
    assert_eq!(incoming.session.as_deref(), Some("slack:C1:17.5"));
    assert!(incoming.agent_id.is_none());
    assert_eq!(incoming_message(&m, None).expect("a text").text, "look");
    let only_mention = read_slack_event(&slack, &object(event("app_mention", "C1", "<@U1>")))
        .expect("a message");
    assert!(incoming_message(&only_mention, None).is_none());
    assert_eq!(incoming_message(&only_mention, Some("f")).expect("a text").text, "f");
}

#[test]
fn extract_slack_attachments_parses_and_deduplicates_files() {
    let event = object(vec![(
        "files",
        Json::List(vec![
            object(vec![
                ("id", text("F01")),
                ("name", text("posting-hours.csv")),
                ("url_private_download", text("https://files.example/F01")),
                ("size", Json::Unsigned(42)),
            ]),
            object(vec![
                ("id", text("F01")),
                ("name", text("posting-hours-duplicate.csv")),
                ("url_private_download", text("https://files.example/F01-duplicate")),
                ("size", Json::Unsigned(42)),
            ]),
            object(vec![
                ("id", text("F02")),
                ("url_private", text("https://files.example/F02")),
            ]),
            object(vec![("id", text("F03")), ("name", text("missing-url"))]),
        ]),
    )]);

    let attachments = extract_slack_attachments(&event);
    assert_eq!(attachments.len(), 2);
    assert_eq!(attachments[0].name, "posting-hours.csv");
    assert_eq!(attachments[0].download_url, "https://files.example/F01");
    assert_eq!(attachments[0].size_bytes, Some(42));
    assert_eq!(attachments[1].name, "attachment.bin");
    assert_eq!(attachments[1].download_url, "https://files.example/F02");
    assert!(extract_slack_attachments(&Json::Null).is_empty());
}

#[test]
fn sanitize_path_component_and_file_name_are_safe() {
    assert_eq!(sanitize_path_component("../unsafe file", "fallback"), "unsafe-file");
    assert_eq!(sanitize_path_component("!!!", "fallback"), "fallback");
    assert_eq!(sanitize_file_name(".."), "attachment.bin");
}

#[test]
fn path_components_name_no_directory_above() {
    for value in ["/../", "-..-", "-.-", "/./", "..", "./", "-"] {
        assert_eq!(sanitize_path_component(value, "fallback"), "fallback", "{}", value);
        assert_eq!(sanitize_file_name(value), "attachment.bin", "{}", value);
    }
    assert_eq!(sanitize_path_component("-...-", "fallback"), "...");
    assert_eq!(sanitize_path_component("-.a-", "fallback"), ".a");
}

#[test]
fn file_names_are_kept_short() {
    assert_eq!(sanitize_file_name(&"x".repeat(200)), "x".repeat(96));
    assert_eq!(sanitize_file_name("Übersicht 1.xlsx"), "bersicht-1.xlsx");
    assert_eq!(sanitize_path_component("slack:C1:17.5", "f"), "slack-C1-17.5");
}

fn file(id: &str, size: Option<u64>) -> Json {
    let mut entries = vec![
        ("id", text(id)),
        ("name", text(&format!("{} file.txt", id))),
        ("url_private", text(&format!("https://files.example/{}", id))),
    ];
    if let Some(size) = size {
        entries.push(("size", Json::Unsigned(size)));
    }
    object(entries)
}

#[test]
fn attachments_are_saved_one_by_one() {
    let files = vec![
        file("A", Some(MAX_SLACK_ATTACHMENT_BYTES + 1)),
        file("B", None),
        file("C", Some(3)),
        file("D", Some(3)),
        file("E", Some(3)),
        file("F", Some(3)),
    ];
    let event = object(vec![("files", Json::List(files))]);
    let mut job = start_attachment_job(&working_slack(), &event, "slack:C1:17.5").expect("a job");
    assert_eq!(job.next().as_deref(), Some("https://files.example/B"));
    job.download_failed("no route");
    assert_eq!(job.next().as_deref(), Some("https://files.example/C"));
    assert!(job.downloaded(MAX_SLACK_ATTACHMENT_BYTES + 1).is_none());
    assert_eq!(job.next().as_deref(), Some("https://files.example/D"));
    assert_eq!(
        job.downloaded(3).as_deref(),
        Some(".openorchestrator/inbox/slack-C1-17.5/04-D-file.txt")
    );
    job.written(true);
    assert_eq!(job.next().as_deref(), Some("https://files.example/E"));
    assert!(job.downloaded(3).is_some());
    job.written(false);
    assert_eq!(job.next(), None);
    assert_eq!(
        job.finish().expect("a saved file"),
        "Attached files saved to agent workspaces:\n- A file.txt (skipped: file is larger than 20971520 bytes)\n- B file.txt (download failed: no route)\n- C file.txt (skipped: downloaded payload exceeded 20971520 bytes)\n- D file.txt -> .openorchestrator/inbox/slack-C1-17.5/04-D-file.txt\n- E file.txt (save failed for all workspaces)\nUse the saved local paths when running scripts."
    );
}

#[test]
fn attachments_need_a_token_and_a_file() {
    let event = object(vec![("files", Json::List(vec![file("A", None)]))]);
    assert!(start_attachment_job(&default_test_slack(true), &event, "s").is_none());
    assert!(start_attachment_job(&working_slack(), &Json::Null, "s").is_none());
    let mut job = start_attachment_job(&working_slack(), &event, "s").expect("a job");
    assert!(job.next().is_some());
    job.download_failed("x");
    assert!(job.next().is_none());
    assert!(job.finish().is_none());
}

#[test]
fn workspaces_are_collected_once() {
    let mut cfg = AppConfig::default_in(Some("/home/u"));
    cfg.brain.workspace = "~/work".to_string();
    for workspace in [Some("/srv/a"), Some("~/.openclaw/workspace"), Some("/srv/a"), None] {
        cfg.agents.push(AgentConfig {
            id: "x".to_string(),
            name: "x".to_string(),
            soul: String::new(),
            workspace: workspace.map(str::to_string),
        });
    }
    let work = FilePath::UnderHome("work".to_string());
    let plain = |text: &str| FilePath::Plain(text.to_string());
    assert_eq!(
        collect_agent_workspaces_in(&cfg, Some("/home/u")),
        vec![work.clone(), plain("/srv/a")]
    );
    assert_eq!(
        collect_agent_workspaces_in(&cfg, None),
        vec![plain("~/work"), plain("/srv/a")]
    );
    cfg.agents.clear();
    assert_eq!(collect_agent_workspaces_in(&cfg, Some("/home/u")), vec![work]);
    cfg.brain.workspace = "/abs".to_string();
    assert_eq!(collect_agent_workspaces(&cfg), vec![plain("/abs")]);
}

#[test]
fn extract_slack_output_paths_uses_outbox_only_and_deduplicates() {
    let reply = r#"delegate:openclawd_1
`posting-hours` run completed on the attached file.

- `output`: `/Users/keszeyd/work/.openorchestrator/outbox/report_1.xlsx`
- `log`: `/Users/keszeyd/work/.openorchestrator/logs/report_1.log`
- duplicate: `/Users/keszeyd/work/.openorchestrator/outbox/report_1.xlsx`
"#;

    let paths = extract_slack_output_paths(reply);
    assert_eq!(paths.len(), 1);
    assert_eq!(paths[0], "/Users/keszeyd/work/.openorchestrator/outbox/report_1.xlsx");
}

#[test]
fn extract_slack_output_paths_trims_wrapping_punctuation() {
    let reply = "output=/Users/keszeyd/work/.openorchestrator/outbox/report_2.xlsx,";
    let paths = extract_slack_output_paths(reply);
    assert_eq!(paths.len(), 1);
    assert_eq!(paths[0], "/Users/keszeyd/work/.openorchestrator/outbox/report_2.xlsx");
}

#[test]
fn extract_slack_output_paths_supports_relative_outbox_paths() {
    let reply = "artifact=`.openorchestrator/outbox/report_3.xlsx`";
    let paths = extract_slack_output_paths(reply);
    assert_eq!(paths.len(), 1);
    assert_eq!(paths[0], ".openorchestrator/outbox/report_3.xlsx");
}

#[test]
fn addresses_are_no_output_paths() {
    assert!(extract_slack_output_paths("https://x/.openorchestrator/outbox/a").is_empty());
    assert!(extract_slack_output_paths("/a/b .openorchestrator/inbox/x").is_empty());
}

#[test]
fn candidate_output_upload_paths_includes_workspace_joins_for_relative_paths() {
    let relative = ".openorchestrator/outbox/report_4.xlsx";
    let workspaces = vec!["/tmp/workspace-a".to_string(), "/tmp/workspace-b".to_string()];
    let candidates = candidate_output_upload_paths(relative, Some("/srv/here"), &workspaces);

    assert!(candidates.contains(&OutputCandidate {
        seen_from: SeenFrom::Workspace(0),
        shown: "/tmp/workspace-a/.openorchestrator/outbox/report_4.xlsx".to_string(),
    }));
    assert!(candidates.contains(&OutputCandidate {
        seen_from: SeenFrom::Workspace(1),
        shown: "/tmp/workspace-b/.openorchestrator/outbox/report_4.xlsx".to_string(),
    }));
}

#[test]
fn candidates_come_in_order() {
    let roots = vec!["/a".to_string(), "/b".to_string(), "/a".to_string()];
    let candidate =
        |seen_from, shown: &str| OutputCandidate { seen_from, shown: shown.to_string() };
    assert_eq!(
        candidate_output_upload_paths("x", Some("/b"), &roots),
        vec![candidate(SeenFrom::CurrentDir, "/b/x"), candidate(SeenFrom::Workspace(0), "/a/x")]
    );
    assert_eq!(
        candidate_output_upload_paths("x", None, &roots),
        vec![
            candidate(SeenFrom::Workspace(0), "/a/x"),
            candidate(SeenFrom::Workspace(1), "/b/x")
        ]
    );
    assert_eq!(
        candidate_output_upload_paths("/x", Some("/b"), &roots),
        vec![candidate(SeenFrom::Root, "/x")]
    );
    assert_eq!(pick_output_file(&vec![false, true, true]), Some(1));
    assert_eq!(pick_output_file(&vec![true, true]), Some(0));
    assert_eq!(pick_output_file(&vec![false, false]), None);
    assert_eq!(pick_output_file(&vec![]), None);
}

#[test]
fn channels_are_resolved() {
    assert_eq!(resolve_slack_target_channel(" C1 ", Some("C2")), "C1");
    assert_eq!(resolve_slack_target_channel("  ", Some(" C2 ")), "C2");
    assert_eq!(resolve_slack_target_channel("", None), "");
}

#[test]
fn uploads_are_planned() {
    let reply = "/w/.openorchestrator/outbox/1 /w/.openorchestrator/outbox/2 /w/.openorchestrator/outbox/3 /w/.openorchestrator/outbox/4";
    let (channel, paths) = plan_output_uploads("C1", None, reply).expect("a plan");
    assert_eq!(channel, "C1");
    assert_eq!(paths.len(), 3);
    assert!(plan_output_uploads("", None, reply).is_none());
    assert!(plan_output_uploads("C1", None, "nothing").is_none());
    assert_eq!(check_output_file("/w/a", true, 3, Some("a")).expect("a name"), "a");
    let message = |is_file, len, name: Option<&str>| {
        check_output_file("/w/a", is_file, len, name).expect_err("a refusal").message()
    };
    assert_eq!(message(false, 3, Some("a")), "output path is not a file: /w/a");
    assert_eq!(
        message(true, 20_971_521, Some("a")),
        "output file /w/a exceeds max upload size 20971520 bytes"
    );
    assert_eq!(message(true, 3, None), "output file has invalid utf-8 name");
}

#[test]
fn messages_are_posted() {
    let payload = message_to_post("C1", "hi", Some(" 1.2 "), None).expect("a payload");
    assert_eq!(
        shown(&payload),
        shown(&object(vec![
            ("channel", text("C1")),
            ("text", text("hi")),
            ("thread_ts", text(" 1.2 ")),
        ]))
    );
    let payload = message_to_post("", "hi", Some("  "), Some("C2")).expect("a payload");
    assert_eq!(shown(&payload), shown(&object(vec![("channel", text("C2")), ("text", text("hi"))])));
    assert!(message_to_post("", "hi", None, None).is_none());
    assert!(read_sent_message(&ok(), br#"{"ok":true}"#).expect("an answer"));
    assert!(!read_sent_message(&ok(), br#"{"ok":false}"#).expect("an answer"));
    assert!(!read_sent_message(&status(500, "500"), br#"{"ok":true}"#).expect("an answer"));
    assert_eq!(
        read_sent_message(&ok(), b"<html>").expect_err("no answer").message(),
        "failed parsing Slack chat.postMessage response"
    );
}

#[test]
fn replies_and_failures_are_answered() {
    let slack = working_slack();
    let m = read_slack_event(&slack, &object(event("app_mention", "C1", "<@U1> x")))
        .expect("a message");
    let reply = AgentReply {
        run_id: "r".to_string(),
        agent_id: "main".to_string(),
        session: m.session.clone(),
        reply: "see /w/.openorchestrator/outbox/1".to_string(),
    };
    let post = answer_slack_message(&slack, &m, &Ok(reply)).expect("a post");
    assert_eq!(post.token, "xoxb-test");
    assert!(post.payload.is_some());
    assert_eq!(
        post.uploads,
        Some(("C1".to_string(), vec!["/w/.openorchestrator/outbox/1".to_string()]))
    );
    let post = answer_slack_message(&slack, &m, &Err(TurnError::MemUsage)).expect("a post");
    assert_eq!(
        shown(&post.payload.expect("a payload")),
        shown(&object(vec![
            ("channel", text("C1")),
            ("text", text("[openorchestrator error] usage: /mem <query>")),
            ("thread_ts", text("17.5")),
        ]))
    );
    assert!(post.uploads.is_none());
    assert!(answer_slack_message(&default_test_slack(true), &m, &Err(TurnError::MemUsage)).is_none());
}

#[test]
fn failed_sends_matter_for_replies_only() {
    let reply = || {
        Ok(AgentReply {
            run_id: "r".to_string(),
            agent_id: "main".to_string(),
            session: "s".to_string(),
            reply: "t".to_string(),
        })
    };
    let failure = || Err(TurnError::NoAgents);
    let error = after_send(&reply(), read_send(&None)).expect_err("not sent");
    assert_eq!(error.message(), "failed calling Slack chat.postMessage");
    assert!(after_send(&failure(), read_send(&None)).is_ok());
    let broken = Some((ok(), b"<html>".to_vec()));
    let error = after_send(&reply(), read_send(&broken)).expect_err("not read");
    assert_eq!(error.message(), "failed parsing Slack chat.postMessage response");
    assert!(after_send(&failure(), read_send(&broken)).is_ok());
    let refused = Some((ok(), br#"{"ok":false}"#.to_vec()));
    assert!(!read_send(&refused).expect("an answer"));
    assert!(after_send(&reply(), read_send(&refused)).is_ok());
    assert!(read_send(&Some((ok(), br#"{"ok":true}"#.to_vec()))).expect("an answer"));
}

#[test]
fn answers_of_slack_are_read() {
    assert_eq!(
        read_bot_user_id(&ok(), br#"{"ok":true,"user_id":"U1"}"#).expect("an id"),
        "U1"
    );
    let message = |status: &HttpStatus, body: &[u8]| {
        read_bot_user_id(status, body).expect_err("no id").message()
    };
    assert_eq!(message(&ok(), b"no"), "failed parsing Slack auth.test response");
    assert_eq!(
        message(&status(503, "503 Service Unavailable"), br#"{ "b": 1, "a": [true, null] }"#),
        "Slack auth.test HTTP 503 Service Unavailable: {\"a\":[true,null],\"b\":1}"
    );
    assert_eq!(message(&ok(), br#"{"ok":false}"#), "Slack auth.test failed: {\"ok\":false}");
    assert_eq!(message(&ok(), br#"{"ok":true}"#), "Slack auth.test missing user_id");

    assert_eq!(
        read_connection(&ok(), br#"{"ok":true,"url":"wss://x"}"#).expect("a url"),
        "wss://x"
    );
    let message = |status: &HttpStatus, body: &[u8]| {
        read_connection(status, body).expect_err("no url").message()
    };
    assert_eq!(message(&ok(), b""), "failed parsing Slack apps.connections.open response");
    assert_eq!(
        message(&ok(), br#"{"ok":false}"#),
        "Slack apps.connections.open failed (status=200 OK): {\"ok\":false}"
    );
    assert_eq!(
        message(&status(404, "404 Not Found"), br#"{"ok":true,"url":"x"}"#),
        "Slack apps.connections.open failed (status=404 Not Found): {\"ok\":true,\"url\":\"x\"}"
    );
    assert_eq!(
        message(&ok(), br#"{"ok":true}"#),
        "Slack apps.connections.open missing websocket url"
    );
}

#[test]
fn files_are_uploaded_in_three_calls() {
    assert_eq!(
        upload_form("a.txt", 12),
        vec![
            ("filename".to_string(), "a.txt".to_string()),
            ("length".to_string(), "12".to_string()),
        ]
    );
    let target = begin_upload(&ok(), br#"{"ok":true,"upload_url":"https://u","file_id":"F"}"#)
        .expect("a target");
    assert_eq!((target.upload_url.as_str(), target.file_id.as_str()), ("https://u", "F"));
    assert_eq!(
        begin_upload(&ok(), br#"{"ok":true,"file_id":"F"}"#).expect_err("no url").message(),
        "Slack files.getUploadURLExternal missing upload_url"
    );
    assert_eq!(
        begin_upload(&ok(), br#"{"ok":true,"upload_url":"u"}"#).expect_err("no id").message(),
        "Slack files.getUploadURLExternal missing file_id"
    );
    assert!(check_upload(&ok()).is_ok());
    assert_eq!(
        check_upload(&status(500, "500 X")).expect_err("not taken").message(),
        "Slack upload_url returned status 500 X"
    );
    assert!(check_download(&status(299, "299")).is_ok());
    assert_eq!(
        check_download(&status(300, "300 Y")).expect_err("not given").message(),
        "Slack file download failed with status 300 Y"
    );
    assert_eq!(
        shown(&complete_upload("F", "a.txt", "C1", Some("1.2"))),
        shown(&object(vec![
            (
                "files",
                Json::List(vec![object(vec![("id", text("F")), ("title", text("a.txt"))])]),
            ),
            ("channel_id", text("C1")),
            ("thread_ts", text("1.2")),
        ]))
    );
    assert!(finish_upload(&ok(), br#"{"ok":true}"#).is_ok());
    assert_eq!(
        finish_upload(&ok(), br#"{"ok":false}"#).expect_err("not shown").message(),
        "Slack files.completeUploadExternal failed: {\"ok\":false}"
    );
}

#[test]
fn uploads_go_in_order() {
    let asked = || start_upload("a.txt", "C1", Some("1.2"));
    let target: &[u8] = br#"{"ok":true,"upload_url":"https://u","file_id":"F"}"#;
    let (upload, url) = match asked().advance(&ok(), target) {
        UploadStep::SendBytes(upload, url) => (upload, url),
        other => panic!("{:?}", other),
    };
    assert_eq!(url, "https://u");
    let (upload, payload) = match upload.advance(&status(201, "201"), b"ignored") {
        UploadStep::Complete(upload, payload) => (upload, payload),
        other => panic!("{:?}", other),
    };
    assert_eq!(shown(&payload), shown(&complete_upload("F", "a.txt", "C1", Some("1.2"))));
    assert!(matches!(upload.advance(&ok(), br#"{"ok":true}"#), UploadStep::Done));
    assert!(matches!(asked().advance(&status(500, "500"), target), UploadStep::Fail(_)));
    let sent = match asked().advance(&ok(), target) {
        UploadStep::SendBytes(upload, _) => upload,
        other => panic!("{:?}", other),
    };
    match sent.advance(&status(403, "403 Forbidden"), b"") {
        UploadStep::Fail(e) => {
            assert_eq!(e.message(), "Slack upload_url returned status 403 Forbidden")
        }
        other => panic!("{:?}", other),
    }
}

#[test]
fn frames_are_read() {
    let frame = |s: &str| read_frame(&SocketFrame::Text(s.to_string()));
    let action = frame(r#"{"envelope_id":"e1","type":"events_api","payload":{"event":1}}"#);
    assert_eq!(
        shown(&action.ack.expect("an acknowledgement")),
        shown(&object(vec![("envelope_id", text("e1"))]))
    );
    assert_eq!(
        shown(&action.event.expect("an event")),
        shown(&object(vec![("event", Json::Unsigned(1))]))
    );
    assert!(!action.stop && !action.pong);
    let action = frame(r#"{"type":"disconnect"}"#);
    assert!(action.stop && action.ack.is_none() && action.event.is_none());
    let action = frame(r#"{"type":"events_api"}"#);
    assert!(matches!(action.event, Some(Json::Null)));
    let action = frame("not json");
    assert!(action.unreadable && !action.stop && action.ack.is_none() && action.event.is_none());
    assert!(read_frame(&SocketFrame::Ping).pong);
    assert!(read_frame(&SocketFrame::Close).stop);
    let action = read_frame(&SocketFrame::Other);
    assert!(!action.stop && !action.pong);
    assert!(read_envelope(Json::Null).ack.is_none());
}
