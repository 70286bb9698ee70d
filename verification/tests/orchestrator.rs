use openorchestrator::agents::{
    build_workspace_agent_soul, extract_workspace_path, is_explicit_inline_spawn_target,
    is_valid_agent_id, normalize_agent_id, parse_inline_delegate_request,
    parse_inline_spawn_request,
};
use openorchestrator::chat::{chat_response, read_chat_request, ChatRequest};
use openorchestrator::codex::CodexRunner;
use openorchestrator::config::{AgentConfig, AppConfig};
use openorchestrator::orchestrator::{
    AgentReply, CodexRun, IncomingMessage, Orchestrator, Step, TurnError,
};
use openorchestrator::paths::{join_path, resolve_path, FilePath};
use openorchestrator::state::{StateStore, TaskStatus, Timestamp};

const NOW: Timestamp = Timestamp { secs: 1_700_000_000, nanos: 5 };

fn orchestrator_with(cfg: AppConfig) -> Orchestrator {
    Orchestrator::new(
        "/tmp/openorchestrator.json".to_string(),
        cfg,
        StateStore::load(None, 200, 200),
        CodexRunner::default(),
    )
}

fn orchestrator() -> Orchestrator {
    orchestrator_with(AppConfig::default_in(Some("/home/u")))
}

fn message(text: &str) -> IncomingMessage {
    IncomingMessage {
        source: "local-test".to_string(),
        user: Some("tester".to_string()),
        session: Some("session-1".to_string()),
        agent_id: None,
        text: text.to_string(),
    }
}

/// Performs the steps of a message; an agent that is asked answers `answer`.
fn drive(
    o: &mut Orchestrator,
    first: Step,
    answer: Result<&str, &str>,
    asked: &mut Vec<CodexRun>,
) -> Result<AgentReply, TurnError> {
    let mut step = first;
    loop {
        step = match step {
            Step::SaveState(turn) | Step::SaveConfig(turn) => {
                o.resume_at(turn, Ok(String::new()), NOW, Some("/home/u"))
            }
            Step::RunCodex(turn, run) => {
                asked.push(run);
                let outcome = answer.map(str::to_string).map_err(str::to_string);
                o.resume_at(turn, outcome, NOW, Some("/home/u"))
            }
            Step::Done(reply) => return Ok(reply),
            Step::Fail(error) => return Err(error),
        };
    }
}

fn say(o: &mut Orchestrator, text: &str) -> Result<AgentReply, TurnError> {
    let first = o.begin_at(message(text), "run-1".to_string(), NOW, Some("/home/u"));
    drive(o, first, Ok("an answer"), &mut Vec::new())
}

fn reply_to(o: &mut Orchestrator, text: &str) -> String {
    say(o, text).expect("a reply").reply
}

fn refusal_of(o: &mut Orchestrator, text: &str) -> String {
    say(o, text).expect_err("a refusal").message()
}

#[test]
fn parse_inline_delegate_request_accepts_agent_run_format() {
    let parsed = parse_inline_delegate_request("OpenClawd_1 run posting-hours with attached file")
        .expect("expected inline delegate request");
    assert_eq!(parsed.agent_id, "openclawd_1");
    assert_eq!(parsed.task, "posting-hours with attached file");
}

#[test]
fn parse_inline_delegate_request_handles_agent_punctuation() {
    let parsed = parse_inline_delegate_request("openclawd_1: RUN posting-hours")
        .expect("expected inline delegate request");
    assert_eq!(parsed.agent_id, "openclawd_1");
    assert_eq!(parsed.task, "posting-hours");
}

#[test]
fn parse_inline_delegate_request_rejects_non_delegate_messages() {
    assert!(parse_inline_delegate_request("openclawd_1 run").is_none());
    assert!(parse_inline_delegate_request("openclawd_1 build posting-hours").is_none());
}

#[test]
fn parse_inline_spawn_request_accepts_spawn_with_workspace() {
    let parsed = parse_inline_spawn_request(
        "@OpenClawd_1 I would like you to spawn up a new agent, which analyzes the scripts in /Users/keszeyd/.openclaw/workspace/automation/secrella",
    )
    .expect("expected inline spawn request");
    assert_eq!(parsed.agent_id, "openclawd_1");
    assert_eq!(parsed.workspace, "/Users/keszeyd/.openclaw/workspace/automation/secrella");
}

#[test]
fn parse_inline_spawn_request_rejects_missing_workspace() {
    assert!(
        parse_inline_spawn_request("openclawd_1 please spawn a new agent for automation").is_none()
    );
}

#[test]
fn parse_inline_spawn_request_rejects_generic_polite_prompt() {
    assert!(parse_inline_spawn_request(
        "please spawn a new agent that analyzes scripts in /Users/keszeyd/work/automation/secrella"
    )
    .is_none());
}

#[test]
fn extract_workspace_path_strips_punctuation() {
    let path = extract_workspace_path(
        "analyzes scripts in (/Users/keszeyd/.openclaw/workspace/automation/secrella).",
    )
    .expect("workspace path should be extracted");
    assert_eq!(path, "/Users/keszeyd/.openclaw/workspace/automation/secrella");
}

#[test]
fn normalize_agent_id_accepts_uppercase_input() {
    assert_eq!(normalize_agent_id("@OpenClawd_1,"), "openclawd_1");
}

#[test]
fn handle_message_inline_spawn_creates_agent_workspace_binding() {
    let cfg = AppConfig::default();
    let home = dirs::home_dir().map(|home| home.to_string_lossy().into_owned());
    let root = resolve_path(&cfg.brain.workspace).shown_in(home.as_deref());
    let expected_workspace = join_path(&join_path(&root, "automation"), "secrella");
    let mut orchestrator = orchestrator_with(cfg);
    let text = "@OpenClawd_1 I would like you to spawn up a new agent, which analyzes the scripts in /Users/keszeyd/.openclaw/workspace/automation/secrella";
    let mut step = orchestrator.handle_message(message(text));
    let mut saved_config = false;
    let reply = loop {
        step = match step {
            Step::SaveState(turn) => orchestrator.resume(turn, Ok(String::new())),
            Step::SaveConfig(turn) => {
                saved_config = true;
                orchestrator.resume(turn, Ok(String::new()))
            }
            Step::RunCodex(..) => panic!("no agent is to be asked"),
            Step::Done(reply) => break reply,
            Step::Fail(error) => panic!("{}", error.message()),
        };
    };
    assert!(saved_config);
    assert!(reply.reply.contains("agent 'openclawd_1' is ready"));
    assert!(reply.reply.contains("next: openclawd_1 run <task>"));
    let spawned = orchestrator
        .config_handle()
        .agents
        .iter()
        .find(|agent| agent.id == "openclawd_1")
        .expect("expected openclawd_1 agent in config");
    assert_eq!(spawned.workspace.as_deref(), Some(expected_workspace.as_str()));
    assert!(spawned.soul.contains(&expected_workspace));
}

#[test]
fn api_chat_routes_commands_without_codex_execution() {
    let request = ChatRequest {
        text: "/help".to_string(),
        source: Some("api".to_string()),
        user: Some("tester".to_string()),
        session: Some("session-1".to_string()),
        agent_id: Some("main".to_string()),
    };
    let incoming = read_chat_request(request).expect("a good request");
    let mut o = orchestrator();
    let first = o.handle_message(incoming);
    let mut asked = Vec::new();
    let outcome = drive(&mut o, first, Err("unused"), &mut asked);
    assert!(asked.is_empty());
    let payload = chat_response(outcome).expect("a response");
    assert_eq!(payload.agent_id, "main");
    assert_eq!(payload.session, "session-1");
    assert!(payload.reply.contains("OpenOrchestrator commands:"));
    assert!(payload.reply.contains("/help"));
    assert_eq!(payload.run_id.len(), 36);
}

#[test]
fn agent_ids_are_checked_and_cleaned() {
    assert_eq!(normalize_agent_id("  `@@Main:;` "), "main");
    assert_eq!(normalize_agent_id("@Main:;,"), "main");
    assert!(is_valid_agent_id("a-b_9"));
    assert!(is_valid_agent_id(""));
    assert!(!is_valid_agent_id("a b"));
    assert!(!is_valid_agent_id("A"));
    for id in ["main", "a-b_9", "0"] {
        assert_eq!(normalize_agent_id(id), id);
    }
}

#[test]
fn explicit_targets() {
    assert!(is_explicit_inline_spawn_target("@bob"));
    assert!(is_explicit_inline_spawn_target("bob_1"));
    assert!(is_explicit_inline_spawn_target("bob-x"));
    assert!(!is_explicit_inline_spawn_target("bob"));
    assert!(!is_explicit_inline_spawn_target("  "));
}

#[test]
fn workspace_paths_are_told_from_words() {
    assert_eq!(extract_workspace_path("in '~/x'"), Some("~/x".to_string()));
    assert_eq!(extract_workspace_path("in ~/x,"), Some("~/x".to_string()));
    assert_eq!(extract_workspace_path("in '~/x',"), Some("~/x'".to_string()));
    assert_eq!(extract_workspace_path("in ./x and ../y"), Some("./x".to_string()));
    assert_eq!(extract_workspace_path("in ../y]"), Some("../y".to_string()));
    assert_eq!(extract_workspace_path("a / b"), None);
    assert_eq!(extract_workspace_path("and/or x/y"), None);
}

#[test]
fn help_is_exact() {
    assert_eq!(
        reply_to(&mut orchestrator(), " /HELP "),
        "OpenOrchestrator commands:\n/help\n/agents\n/spawn <agent_id> | <soul prompt> | <workspace_path?>\n/tasks\n/task add <title>\n/task done <task_id>\n/remember <note>\n/mem <query>\n/delegate <agent_id> <task>\n\nNatural delegation:\n<agent_id> run <task>"
    );
}

#[test]
fn agents_are_listed() {
    let mut o = orchestrator();
    assert_eq!(reply_to(&mut o, "/agents"), "Agents:\n- main: Main Brain");
    reply_to(&mut o, "/spawn Bob | Be kind.");
    assert_eq!(reply_to(&mut o, "/Agents"), "Agents:\n- main: Main Brain\n- bob: bob");
}

#[test]
fn tasks_come_and_go() {
    let mut o = orchestrator();
    assert_eq!(reply_to(&mut o, "/tasks"), "no tasks");
    assert_eq!(reply_to(&mut o, "/task add  write it "), "task#4 added for main: write it");
    assert_eq!(reply_to(&mut o, "/tasks"), "[open] task#4 write it (main)");
    assert_eq!(reply_to(&mut o, "/task done +4"), "task#4 marked done");
    assert_eq!(reply_to(&mut o, "/tasks"), "[done] task#4 write it (main)");
    assert_eq!(reply_to(&mut o, "/task done 99"), "task#99 not found");
    assert_eq!(refusal_of(&mut o, "/task done x"), "usage: /task done <task_id>");
    assert_eq!(
        refusal_of(&mut o, "/task done 18446744073709551616"),
        "usage: /task done <task_id>"
    );
    assert_eq!(o.state().list_tasks()[0].status, TaskStatus::Done);
}

#[test]
fn notes_are_remembered_and_found() {
    let mut o = orchestrator();
    assert_eq!(reply_to(&mut o, "/mem apple"), "memory hits:\nconversation#1 [session-1:main:user] /mem apple");
    assert_eq!(reply_to(&mut o, "/remember Buy pears"), "saved memory#4");
    let found = reply_to(&mut o, "/mem PEARS");
    assert!(found.starts_with("memory hits:\nmemory#4 [main:session-1] Buy pears\n"));
    let mut empty = orchestrator_with(AppConfig::default_in(None));
    empty.state = StateStore::load(None, 0, 200);
    assert_eq!(reply_to(&mut empty, "/mem apple"), "no memory hits");
}

#[test]
fn unknown_commands_are_told_so() {
    let mut o = orchestrator();
    for text in ["/nope", "/task", "/task add ", "/remember", "/mem  ", "/spawn", "/delegate"] {
        assert_eq!(reply_to(&mut o, text), "unknown command. use /help", "{}", text);
    }
}

#[test]
fn agents_are_spawned_and_changed() {
    let mut o = orchestrator();
    assert_eq!(
        reply_to(&mut o, "/spawn bob | Be kind."),
        "agent 'bob' is ready (workspace: inherits brain.workspace)"
    );
    assert_eq!(
        reply_to(&mut o, "/spawn @BOB | Be brief. | ~/.openclaw/workspace/b"),
        "agent 'bob' is ready (workspace: /home/u/work/b)"
    );
    assert_eq!(
        reply_to(&mut o, "/spawn bob | Be calm. | "),
        "agent 'bob' is ready (workspace: /home/u/work/b)"
    );
    let agents = &o.config_handle().agents;
    assert_eq!(agents.len(), 2);
    assert_eq!(agents[1].id, "bob");
    assert_eq!(agents[1].soul, "Be calm.");
    assert_eq!(agents[0].id, "main");
}

#[test]
fn bad_spawns_are_refused_and_change_nothing() {
    let mut o = orchestrator();
    let usage = "usage: /spawn <agent_id> | <soul prompt> | <workspace_path?>";
    assert_eq!(refusal_of(&mut o, "/spawn bob"), usage);
    assert_eq!(refusal_of(&mut o, "/spawn bob | "), usage);
    assert_eq!(refusal_of(&mut o, "/spawn | soul"), usage);
    assert_eq!(refusal_of(&mut o, "/spawn a | b | c | d"), usage);
    assert_eq!(refusal_of(&mut o, "@ spawn a new agent in /srv/x"), usage);
    assert_eq!(
        refusal_of(&mut o, "/spawn b b | soul"),
        "agent_id must be lowercase letters, numbers, '-' or '_'"
    );
    assert_eq!(o.config_handle().agents.len(), 1);
    assert_eq!(o.state().state.conversations.len(), 6);
}

#[test]
fn delegation_asks_the_agent() {
    let mut o = orchestrator();
    reply_to(&mut o, "/spawn bob | Be kind. | /srv/b");
    let mut asked = Vec::new();
    let first = o.begin_at(message("/delegate bob count it"), "r".to_string(), NOW, None);
    let reply = drive(&mut o, first, Ok("42"), &mut asked).expect("a reply");
    assert_eq!(reply.reply, "delegate:bob\n42");
    assert_eq!(reply.agent_id, "main");
    assert_eq!(asked[0].agent_id, "bob");
    assert_eq!(asked[0].workspace, FilePath::Plain("/srv/b".to_string()));
    assert!(asked[0].delegated);
    assert!(asked[0].prompt.ends_with("User message:\ncount it"));
    assert!(asked[0].prompt.starts_with("You are OpenOrchestrator agent 'bob'.\nSoul:\nBe kind.\n\n"));

    let first = o.begin_at(message("bob RUN count it"), "r".to_string(), NOW, None);
    let reply = drive(&mut o, first, Err("no luck: really"), &mut asked).expect("a reply");
    assert_eq!(
        reply.reply,
        "delegate:bob\n[openorchestrator error] codex run failed for agent 'bob': no luck: really"
    );
    assert_eq!(asked.len(), 2);
}

#[test]
fn bad_delegations_are_refused() {
    let mut o = orchestrator();
    assert_eq!(refusal_of(&mut o, "/delegate bob"), "usage: /delegate <agent_id> <task>");
    assert_eq!(refusal_of(&mut o, "/delegate @ x"), "usage: /delegate <agent_id> <task>");
    assert_eq!(refusal_of(&mut o, "/delegate bob x"), "agent 'bob' not found. use /agents");
}

#[test]
fn spawned_agents_can_be_asked_to_run() {
    let mut o = orchestrator();
    let ready = reply_to(&mut o, "helper-1 spawn a sub-agent for ./scripts");
    assert_eq!(ready, "agent 'helper-1' is ready (workspace: ./scripts)\nnext: helper-1 run <task>");
    assert_eq!(reply_to(&mut o, "helper-1 run tests"), "delegate:helper-1\nan answer");
    assert_eq!(o.config_handle().agents[1].soul, build_workspace_agent_soul("./scripts"));
    assert_eq!(
        build_workspace_agent_soul("/w"),
        "You are a specialized automation sub-agent. Your workspace is /w. Analyze scripts in this workspace, execute delegated runs, and return concise results with concrete next actions."
    );
}

#[test]
fn plain_messages_ask_the_first_agent() {
    let mut o = orchestrator();
    let mut asked = Vec::new();
    let first = o.begin_at(message("nobody run this"), "r".to_string(), NOW, None);
    let reply = drive(&mut o, first, Ok("done"), &mut asked).expect("a reply");
    assert_eq!(reply.reply, "done");
    assert_eq!(asked[0].agent_id, "main");
    assert!(!asked[0].delegated);
    assert_eq!(asked[0].workspace, FilePath::Plain("/home/u/work".to_string()));
    let turns = &o.state().state.conversations;
    assert_eq!(turns.len(), 2);
    assert_eq!(turns[0].role, "user");
    assert_eq!(turns[0].text, "nobody run this");
    assert_eq!(turns[0].user.as_deref(), Some("tester"));
    assert_eq!(turns[1].role, "assistant");
    assert_eq!(turns[1].text, "done");
    assert!(turns[1].user.is_none());
    assert_eq!((turns[0].id, turns[1].id), (1, 2));
    assert_eq!(turns[1].session, "session-1");
    assert_eq!(turns[1].source, "local-test");
    assert_eq!(turns[1].ts, NOW);
}

#[test]
fn failed_agents_are_told_of() {
    let mut o = orchestrator();
    let first = o.begin_at(message("hello"), "r".to_string(), NOW, None);
    let reply = drive(&mut o, first, Err("timed out"), &mut Vec::new()).expect("a reply");
    assert_eq!(
        reply.reply,
        "[openorchestrator error] codex run failed for agent 'main': timed out"
    );
}

#[test]
fn sessions_come_from_the_message() {
    let mut o = orchestrator();
    let mut input = message("/help");
    input.session = Some("  ".to_string());
    input.user = Some(" u ".to_string());
    let first = o.begin_at(input, "r".to_string(), NOW, None);
    let reply = drive(&mut o, first, Ok(""), &mut Vec::new()).expect("a reply");
    assert_eq!(reply.session, "local-test:u");
    let mut input = message("/help");
    input.session = None;
    input.user = None;
    let first = o.begin_at(input, "r".to_string(), NOW, None);
    let reply = drive(&mut o, first, Ok(""), &mut Vec::new()).expect("a reply");
    assert_eq!(reply.session, "local-test:anonymous");
    assert_eq!(reply.run_id, "r");
}

#[test]
fn unknown_agents_are_refused_before_anything_is_noted() {
    let mut o = orchestrator();
    let mut input = message("hi");
    input.agent_id = Some("@Ghost".to_string());
    let step = o.begin_at(input, "r".to_string(), NOW, None);
    assert!(matches!(&step, Step::Fail(TurnError::UnknownAgent(id)) if id == "ghost"));
    assert!(o.state().state.conversations.is_empty());

    let mut input = message("hi");
    input.agent_id = Some(" ".to_string());
    assert!(matches!(o.begin_at(input, "r".to_string(), NOW, None), Step::SaveState(_)));

    let mut cfg = AppConfig::default_in(None);
    cfg.agents.clear();
    let mut empty = orchestrator_with(cfg);
    assert_eq!(refusal_of(&mut empty, "hi"), "at least one agent must be configured");
}

#[test]
fn failed_saves_end_a_message() {
    let mut o = orchestrator();
    let step = o.begin_at(message("/task add x"), "r".to_string(), NOW, None);
    let turn = match step {
        Step::SaveState(turn) => turn,
        other => panic!("{:?}", other),
    };
    let turn = match o.resume_at(turn, Ok(String::new()), NOW, None) {
        Step::SaveState(turn) => turn,
        other => panic!("{:?}", other),
    };
    match o.resume_at(turn, Err("disk full".to_string()), NOW, None) {
        Step::Fail(error) => assert_eq!(error.message(), "disk full"),
        other => panic!("{:?}", other),
    }
    assert_eq!(o.state().state.tasks.len(), 1);
    assert_eq!(o.state().state.conversations.len(), 1);
}

#[test]
fn agents_of_the_same_name_stay_one() {
    let mut cfg = AppConfig::default_in(None);
    cfg.agents.push(AgentConfig {
        id: "BOB".to_string(),
        name: "Bob".to_string(),
        soul: "old".to_string(),
        workspace: Some("/srv/b".to_string()),
    });
    let mut o = orchestrator_with(cfg);
    assert_eq!(
        reply_to(&mut o, "/spawn bob | new"),
        "agent 'bob' is ready (workspace: /srv/b)"
    );
    let agents = &o.config_handle().agents;
    assert_eq!(agents.len(), 2);
    assert_eq!(agents[1].id, "BOB");
    assert_eq!(agents[1].name, "bob");
    assert_eq!(agents[1].soul, "new");
}

#[test]
fn run_ids_are_fresh() {
    let mut o = orchestrator();
    let mut ids = Vec::new();
    for _ in 0..2 {
        let first = o.handle_message(message("/help"));
        let reply = drive(&mut o, first, Ok(""), &mut Vec::new()).expect("a reply");
        assert_eq!(reply.run_id.len(), 36);
        assert_eq!(reply.run_id.matches('-').count(), 4);
        ids.push(reply.run_id);
    }
    assert_ne!(ids[0], ids[1]);
}

#[test]
fn usage_is_told() {
    assert_eq!(TurnError::TaskAddUsage.message(), "usage: /task add <title>");
    assert_eq!(TurnError::RememberUsage.message(), "usage: /remember <note>");
    assert_eq!(TurnError::MemUsage.message(), "usage: /mem <query>");
}

#[test]
fn numbers_run_out() {
    let mut o = orchestrator();
    o.state.state.next_id = u64::MAX;
    assert!(!o.can_begin(&message("hi")));
    let mut input = message("hi");
    input.agent_id = Some("ghost".to_string());
    assert!(o.can_begin(&input));

    o.state.state.next_id = u64::MAX - 1;
    assert!(o.can_begin(&message("/spawn x")));
    let turn = match o.begin_at(message("/spawn x"), "r".to_string(), NOW, None) {
        Step::SaveState(turn) => turn,
        other => panic!("{:?}", other),
    };
    assert!(o.can_resume(&turn, &Ok(String::new())));
    assert!(matches!(
        o.resume_at(turn, Ok(String::new()), NOW, None),
        Step::Fail(TurnError::SpawnUsage)
    ));

    o.state.state.next_id = u64::MAX - 1;
    let turn = match o.begin_at(message("/help"), "r".to_string(), NOW, None) {
        Step::SaveState(turn) => turn,
        other => panic!("{:?}", other),
    };
    assert!(!o.can_resume(&turn, &Ok(String::new())));
    assert!(o.can_resume(&turn, &Err("disk full".to_string())));
}

#[test]
fn messages_and_replies_can_be_copied() {
    let mut input = message("hello");
    input.agent_id = Some("main".to_string());
    let copy = input.clone();
    assert_eq!(copy.source, "local-test");
    assert_eq!(copy.user.as_deref(), Some("tester"));
    assert_eq!(copy.session.as_deref(), Some("session-1"));
    assert_eq!(copy.agent_id.as_deref(), Some("main"));
    assert_eq!(copy.text, "hello");
    let reply = AgentReply {
        run_id: "r".to_string(),
        agent_id: "a".to_string(),
        session: "s".to_string(),
        reply: "t".to_string(),
    };
    let copy = reply.clone();
    assert_eq!(
        (copy.run_id, copy.agent_id, copy.session, copy.reply),
        (reply.run_id, reply.agent_id, reply.session, reply.reply)
    );
}

#[test]
fn agents_can_work_under_the_home_directory() {
    let mut o = orchestrator();
    reply_to(&mut o, "/spawn bob | Be kind. | ~/b");
    let mut asked = Vec::new();
    let first = o.begin_at(message("/delegate bob x"), "r".to_string(), NOW, Some("/home/u"));
    drive(&mut o, first, Ok("42"), &mut asked).expect("a reply");
    assert_eq!(asked[0].workspace, FilePath::UnderHome("b".to_string()));
}
