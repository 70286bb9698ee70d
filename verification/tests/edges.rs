use openorchestrator::chat::{
    chat_response, health, normalize_optional_chat_field, normalize_source, read_chat_request,
    refusal_body, ChatRequest, ChatResponse,
};
use openorchestrator::codex::{
    bypass_codex_sandbox, check_run, codex_sandbox_mode, describe_failed_run, read_response,
    speaks_of_login, CodexArgument, CodexRunner, CodexSettings,
};
use openorchestrator::config::{AgentConfig, AppConfig, SlackMode};
use openorchestrator::gateway::{api_url, base_url, run_gateway};
use openorchestrator::onboarding::{
    find_main_agent, run_onboarding, set_main_soul, Answers, SlackAnswers,
};
use openorchestrator::orchestrator::{AgentReply, TurnError};
use openorchestrator::prompt::{build_prompt, format_status, truncate_for_prompt};
use openorchestrator::slack::SlackSetupError;
use openorchestrator::state::{ConversationItem, TaskItem, TaskStatus, Timestamp};
use openorchestrator::tui::{
    banner, run_tui, show_gateway_error, show_reply, whoami, TuiAction,
};

const NOW: Timestamp = Timestamp { secs: 1, nanos: 0 };

fn request(text: &str) -> ChatRequest {
    ChatRequest { text: text.to_string(), source: None, user: None, session: None, agent_id: None }
}

#[test]
fn health_endpoint_returns_status() {
    let payload = health(7, false);
    assert_eq!(payload.status, "ok");
    assert!(!payload.slack_enabled);
    assert_eq!(payload.uptime_seconds, 7);
}

#[test]
fn chat_requests_are_checked() {
    let refusal = |req: ChatRequest| {
        let refusal = read_chat_request(req).expect_err("a refusal");
        (refusal.status, refusal.error)
    };
    assert_eq!(refusal(request("  ")), (400, "text must not be empty".to_string()));
    assert_eq!(
        refusal(request(&"x".repeat(16_001))),
        (413, "text must be <= 16000 chars".to_string())
    );
    assert!(read_chat_request(request(&"ü".repeat(16_000))).is_ok());
    let long = Some("x".repeat(129));
    let mut req = request("x");
    req.source = long.clone();
    assert_eq!(refusal(req), (400, "source must be <= 128 chars".to_string()));
    let mut req = request("x");
    req.user = long.clone();
    assert_eq!(refusal(req), (400, "user must be <= 128 chars".to_string()));
    let mut req = request("x");
    req.session = long.clone();
    assert_eq!(refusal(req), (400, "session must be <= 128 chars".to_string()));
    let mut req = request("x");
    req.agent_id = long;
    assert_eq!(refusal(req), (400, "agent_id must be <= 128 chars".to_string()));
}

#[test]
fn chat_requests_are_cleaned() {
    let mut req = request(" hi ");
    req.user = Some(" u ".to_string());
    req.session = Some("  ".to_string());
    let m = read_chat_request(req).expect("a message");
    assert_eq!(m.text, "hi");
    assert_eq!(m.source, "api");
    assert_eq!(m.user.as_deref(), Some("u"));
    assert!(m.session.is_none() && m.agent_id.is_none());
    assert_eq!(normalize_source(Some(" tui ".to_string())).expect("a source"), "tui");
    assert_eq!(normalize_source(Some(" ".to_string())).expect("a source"), "api");
    let exact = Some("x".repeat(128));
    assert_eq!(normalize_optional_chat_field(exact.clone(), "f").expect("a field"), exact);
}

#[test]
fn chat_failures_are_not_told() {
    let refusal = chat_response(Err(TurnError::NoAgents)).expect_err("a refusal");
    assert_eq!((refusal.status, refusal.error.as_str()), (500, "internal server error"));
    assert_eq!(
        format!("{:?}", refusal_body(&refusal)),
        "Object([(\"error\", Text(\"internal server error\"))])"
    );
    let reply = AgentReply {
        run_id: "r".to_string(),
        agent_id: "a".to_string(),
        session: "s".to_string(),
        reply: "t".to_string(),
    };
    let response = chat_response(Ok(reply)).expect("a response");
    assert_eq!(
        (response.run_id, response.agent_id, response.session, response.reply),
        ("r".to_string(), "a".to_string(), "s".to_string(), "t".to_string())
    );
}

#[test]
fn codex_is_called_with_its_arguments() {
    let runner = CodexRunner::default();
    assert_eq!(runner.timeout_secs, 600);
    let word = |text: &str| CodexArgument::Text(text.to_string());
    let settings = CodexSettings { sandbox: None, bypass_sandbox: None };
    let call = runner
        .run_prompt_as("/w", true, "do it", Some(" gpt-5 "), &settings, "id")
        .expect("a call");
    assert_eq!(call.output_file, "openorchestrator-codex-id.txt");
    assert_eq!(
        call.arguments,
        vec![
            word("exec"),
            word("--skip-git-repo-check"),
            word("--sandbox"),
            word("workspace-write"),
            word("--output-last-message"),
            CodexArgument::OutputFile,
            word("--cd"),
            CodexArgument::Workspace,
            word("do it"),
            word("--model"),
            word("gpt-5"),
        ]
    );
    let settings = CodexSettings { sandbox: Some(" read-only "), bypass_sandbox: Some("0") };
    let call = runner
        .run_prompt_as("/w", true, "do it", Some("  "), &settings, "id")
        .expect("a call");
    assert_eq!(call.arguments[3], word("read-only"));
    assert_eq!(call.arguments.len(), 9);
    let settings = CodexSettings { sandbox: None, bypass_sandbox: Some(" Yes ") };
    let call = runner.run_prompt_as("/w", true, "p", None, &settings, "id").expect("a call");
    assert_eq!(call.arguments[2], word("--dangerously-bypass-approvals-and-sandbox"));
    let error = runner
        .run_prompt_as("/gone", false, "p", None, &settings, "id")
        .expect_err("no workspace");
    assert_eq!(error.message(), "workspace does not exist: /gone");
}

#[test]
fn codex_answers_go_to_files_of_their_own() {
    let runner = CodexRunner::default();
    let settings = CodexSettings { sandbox: None, bypass_sandbox: None };
    let first = runner.run_prompt("/w", true, "p", None, &settings).expect("a call");
    let second = runner.run_prompt("/w", true, "p", None, &settings).expect("a call");
    assert_ne!(first.output_file, second.output_file);
    assert_eq!(first.output_file.len(), "openorchestrator-codex-.txt".len() + 36);
}

#[test]
fn codex_switches_are_read() {
    for on in ["1", "true", " YES ", "On"] {
        assert!(bypass_codex_sandbox(Some(on)), "{}", on);
    }
    for off in ["", "0", "false", "y"] {
        assert!(!bypass_codex_sandbox(Some(off)), "{}", off);
    }
    assert!(!bypass_codex_sandbox(None));
    assert_eq!(codex_sandbox_mode(None), "workspace-write");
    assert_eq!(codex_sandbox_mode(Some(" ")), "workspace-write");
    assert_eq!(codex_sandbox_mode(Some("x")), "x");
}

#[test]
fn codex_output_is_read() {
    let runner = CodexRunner::default();
    assert!(runner.check_login_status(true, b"You are LOGGED IN using ChatGPT\n"));
    assert!(!runner.check_login_status(false, b"logged in"));
    assert!(!runner.check_login_status(true, b"no\xff"));
    assert!(speaks_of_login("x logged in x"));
    assert!(check_run(true, "exit status: 0", b"", b"").is_ok());
    assert_eq!(
        check_run(false, "exit status: 1", b" bad\xff\n", b" out ").expect_err("failed").message(),
        "codex exec failed (status=exit status: 1): bad\u{fffd} out"
    );
    assert_eq!(describe_failed_run("s", " e ", " o "), "codex exec failed (status=s): e o");
    assert_eq!(read_response(" an answer\n").expect("an answer"), "an answer");
    assert_eq!(
        read_response(" \n").expect_err("nothing").message(),
        "codex returned an empty response"
    );
}

#[test]
fn long_texts_are_cut() {
    assert_eq!(truncate_for_prompt("hello", 5), "hello");
    assert_eq!(truncate_for_prompt("hello", 4), "hell\n...[truncated 1 chars]");
    assert_eq!(truncate_for_prompt("hello", 0), "");
    assert_eq!(truncate_for_prompt(&"ü".repeat(112), 100).chars().count(), 100 + 22 + 2);
    assert_eq!(format_status(&TaskStatus::Open), "open");
    assert_eq!(format_status(&TaskStatus::Done), "done");
}

#[test]
fn prompts_are_exact() {
    let agent = AgentConfig {
        id: "bob".to_string(),
        name: "Bob".to_string(),
        soul: "Be kind.".to_string(),
        workspace: None,
    };
    let empty = build_prompt(&agent, "hi", &Vec::new(), &Vec::new(), &Vec::new());
    let rules = "Operating rules:\n- Be concise and operational.\n- Prefer concrete next actions.\n- If user asks for automation, include a clear checklist.\n- When stopping processes, avoid broad kill patterns; identify exact target PIDs and exclude your current shell process.\n";
    assert_eq!(
        empty,
        format!("You are OpenOrchestrator agent 'bob'.\nSoul:\nBe kind.\n\n{}\nLong-tail memory matches:\n(none)\n\nOpen tasks:\n(none)\n\nRecent session history:\n(none)\n\nUser message:\nhi", rules)
    );
    let history = vec![ConversationItem {
        id: 1,
        ts: NOW,
        session: "s".to_string(),
        agent_id: "bob".to_string(),
        role: "user".to_string(),
        text: "x".repeat(1001),
        source: "api".to_string(),
        user: None,
    }];
    let task = |id: u64| TaskItem {
        id,
        ts: NOW,
        updated_at: NOW,
        owner_agent: "bob".to_string(),
        title: "count".to_string(),
        status: TaskStatus::Open,
    };
    let tasks: Vec<TaskItem> = (1..=21).map(task).collect();
    let hits = vec!["memory#1 [a] b".to_string(), "y".repeat(701)];
    let full = build_prompt(&agent, &"z".repeat(4001), &history, &hits, &tasks);
    assert!(full.contains(&format!("user: {}\n...[truncated 1 chars]", "x".repeat(1000))));
    assert!(full.contains(&format!("memory#1 [a] b\n{}\n...[truncated 1 chars]", "y".repeat(700))));
    assert!(full.contains("task#1 [bob] count (open)\ntask#2 [bob] count (open)\n"));
    assert!(full.contains("task#20 [bob]") && !full.contains("task#21 [bob]"));
    assert!(full.ends_with(&format!("{}\n...[truncated 1 chars]", "z".repeat(4000))));
}

#[test]
fn gateways_are_found() {
    let mut cfg = AppConfig::default_in(None);
    let plan = run_gateway(&cfg, None, None).expect("a plan");
    assert_eq!((plan.host.as_str(), plan.port), ("127.0.0.1", 3769));
    let plan = run_gateway(&cfg, Some("0.0.0.0"), Some(80)).expect("a plan");
    assert_eq!((plan.host.as_str(), plan.port), ("0.0.0.0", 80));
    assert!(!plan.slack.enabled);
    assert_eq!(base_url(&cfg, None), "http://127.0.0.1:3769");
    assert_eq!(base_url(&cfg, Some("http://x//")), "http://x//");
    assert_eq!(api_url("http://x//"), "http://x/api/chat");
    cfg.slack.enabled = true;
    assert!(matches!(run_gateway(&cfg, None, None), Err(SlackSetupError::NoBotToken)));
}

#[test]
fn lines_of_the_terminal_are_read() {
    let cfg = AppConfig::default_in(None);
    let plan = run_tui(&cfg, None, None, None);
    assert_eq!(plan.api_url, "http://127.0.0.1:3769/api/chat");
    let mut context = plan.context;
    assert_eq!(
        banner("u", &context),
        "OpenOrchestrator TUI\nGateway: u\nSession: tui:main\nAgent: main\nLocal controls: /session <id>, /agent <id>, /who, /exit. Everything else is sent."
    );
    assert!(matches!(context.read_line(" \n", "me"), TuiAction::Ignore));
    assert!(matches!(context.read_line("/EXIT\n", "me"), TuiAction::Exit));
    let show = |action: TuiAction| match action {
        TuiAction::Show(text) => text,
        other => panic!("{:?}", other),
    };
    match context.read_line(" /Help\n", "me") {
        TuiAction::Send(request) => {
            assert_eq!(request.text, "/Help");
            assert_eq!(request.session.as_deref(), Some("tui:main"));
            assert_eq!(request.agent_id.as_deref(), Some("main"));
        }
        other => panic!("{:?}", other),
    }
    for sent in ["/sessions", "/session", "/agents", "/agent", "/whoever", "exit"] {
        assert!(matches!(context.read_line(sent, "me"), TuiAction::Send(_)), "{}", sent);
    }
    assert_eq!(show(context.read_line("/session  s2 ", "me")), "session -> s2");
    assert_eq!(show(context.read_line("/agent bob", "me")), "agent -> bob");
    assert_eq!(show(context.read_line("/Who", "me")), "session=s2 agent=bob");
    match context.read_line(" /tasks ", "me") {
        TuiAction::Send(request) => {
            assert_eq!(request.text, "/tasks");
            assert_eq!(request.source.as_deref(), Some("tui"));
            assert_eq!(request.user.as_deref(), Some("me"));
            assert_eq!(request.session.as_deref(), Some("s2"));
            assert_eq!(request.agent_id.as_deref(), Some("bob"));
        }
        other => panic!("{:?}", other),
    }
    assert_eq!(context.session, "s2");
    let plan = run_tui(&cfg, Some("http://g/"), Some("s"), Some("a"));
    assert_eq!((plan.base_url.as_str(), plan.context.agent.as_str()), ("http://g/", "a"));
}

#[test]
fn replies_are_shown() {
    let reply = ChatResponse {
        run_id: "0123456789".to_string(),
        agent_id: "main".to_string(),
        session: "s".to_string(),
        reply: "hello".to_string(),
    };
    assert_eq!(show_reply(&reply), "main [s|run:01234567]> hello");
    assert_eq!(show_gateway_error(Some("bad")), "gateway error: bad");
    assert_eq!(show_gateway_error(None), "gateway error: <no body>");
    assert_eq!(whoami(Some("a"), Some("b")), "a");
    assert_eq!(whoami(None, Some("b")), "b");
    assert_eq!(whoami(None, None), "tui-user");
}

fn answers(slack: Option<SlackAnswers>) -> Answers {
    Answers {
        workspace: "/w".to_string(),
        model: " gpt ".to_string(),
        host: "h".to_string(),
        port: 9,
        slack,
    }
}

#[test]
fn answers_are_put_in() {
    let mut cfg = AppConfig::default_in(None);
    cfg.slack.bot_token = Some("old".to_string());
    cfg.slack.bot_user_id = Some("U".to_string());
    cfg.slack.mode = SlackMode::Socket;
    let slack = SlackAnswers {
        bot_token: " ".to_string(),
        signing_secret: " s ".to_string(),
        app_token: String::new(),
        default_channel: "C".to_string(),
    };
    run_onboarding(&mut cfg, answers(Some(slack)));
    assert_eq!(cfg.brain.workspace, "/w");
    assert_eq!(cfg.brain.model.as_deref(), Some("gpt"));
    assert_eq!((cfg.gateway.host.as_str(), cfg.gateway.port), ("h", 9));
    assert!(cfg.slack.enabled);
    assert_eq!(cfg.slack.bot_token.as_deref(), Some("old"));
    assert_eq!(cfg.slack.signing_secret.as_deref(), Some(" s "));
    assert!(cfg.slack.app_token.is_none());
    assert_eq!(cfg.slack.default_channel.as_deref(), Some("C"));
    assert_eq!(cfg.slack.bot_user_id.as_deref(), Some("U"));

    run_onboarding(&mut cfg, answers(None));
    assert!(!cfg.slack.enabled);
    assert!(cfg.slack.bot_token.is_none() && cfg.slack.bot_user_id.is_none());
    assert!(cfg.slack.signing_secret.is_none() && cfg.slack.default_channel.is_none());
    assert_eq!(cfg.slack.mode, SlackMode::Socket);
    assert_eq!(cfg.agents.len(), 1);
}

#[test]
fn the_main_agent_gets_its_soul() {
    let mut cfg = AppConfig::default_in(None);
    cfg.agents[0].name = "x".to_string();
    assert_eq!(find_main_agent(&cfg.agents), Some(0));
    set_main_soul(&mut cfg, "Be bold.");
    assert_eq!(cfg.agents[0].soul, "Be bold.");
    assert_eq!(cfg.agents[0].name, "Main Brain");
    cfg.agents[0].id = "Main".to_string();
    assert_eq!(find_main_agent(&cfg.agents), None);
    set_main_soul(&mut cfg, "unused");
    assert_eq!(cfg.agents[0].soul, "Be bold.");
}
