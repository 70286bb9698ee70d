use openorchestrator::config::{
    is_legacy_openclaw_workspace, legacy_openclaw_workspace_suffix,
    migrate_legacy_openclaw_workspace_bindings, migrate_workspace_bindings_in,
    normalize_workspace_binding, normalize_workspace_binding_in, parse_config_value,
    set_config_path_value, value_or_text, AgentConfig, AppConfig, SlackMode, DEFAULT_GATEWAY_PORT,
};
use openorchestrator::json::Json;
use openorchestrator::paths::{
    default_config_dir, default_config_dir_in, default_config_path, default_config_path_in,
    join_path, resolve_path, resolve_path_in, resolve_text_in, FilePath,
};
use std::path::Path;

fn plain(text: &str) -> FilePath {
    FilePath::Plain(text.to_string())
}

fn under_home(rest: &str) -> FilePath {
    FilePath::UnderHome(rest.to_string())
}

fn agent(id: &str, soul: &str, workspace: Option<&str>) -> AgentConfig {
    AgentConfig {
        id: id.to_string(),
        name: id.to_string(),
        soul: soul.to_string(),
        workspace: workspace.map(str::to_string),
    }
}

fn object(entries: Vec<(&str, Json)>) -> Json {
    Json::Object(entries.into_iter().map(|(key, value)| (key.to_string(), value)).collect())
}

fn text(value: &str) -> Json {
    Json::Text(value.to_string())
}

fn shown(value: &Json) -> String {
    format!("{:?}", value)
}

#[test]
fn normalize_workspace_binding_rewrites_legacy_openclaw_workspace() {
    let normalized = normalize_workspace_binding(
        "/Users/keszeyd/.openclaw/workspace/automation/secrella",
        "/Users/keszeyd/work",
    );
    assert_eq!(normalized, "/Users/keszeyd/work/automation/secrella");
}

#[test]
fn migrate_legacy_openclaw_workspace_bindings_updates_agent_workspace_and_soul() {
    let mut cfg = AppConfig::default();
    cfg.brain.workspace = "/Users/keszeyd/work".to_string();
    cfg.agents.push(AgentConfig {
        id: "secrella_1".to_string(),
        name: "secrella_1".to_string(),
        soul: "Workspace: /Users/keszeyd/.openclaw/workspace/automation/secrella".to_string(),
        workspace: Some("/Users/keszeyd/.openclaw/workspace/automation/secrella".to_string()),
    });

    let changed = migrate_legacy_openclaw_workspace_bindings(&mut cfg);
    assert!(changed);

    let migrated = cfg
        .agents
        .iter()
        .find(|agent| agent.id == "secrella_1")
        .expect("expected migrated agent");
    assert_eq!(migrated.workspace.as_deref(), Some("/Users/keszeyd/work/automation/secrella"));
    assert!(migrated.soul.contains("/Users/keszeyd/work/automation/secrella"));
}

#[test]
fn migration_leaves_other_configs_and_reports_it() {
    let mut cfg = AppConfig::default_in(Some("/home/u"));
    cfg.agents.push(agent("a", "works in /srv/a", Some("/srv/a")));
    assert!(!migrate_workspace_bindings_in(&mut cfg, Some("/home/u")));
    assert_eq!(cfg.agents[1].workspace.as_deref(), Some("/srv/a"));
    assert_eq!(cfg.agents[1].soul, "works in /srv/a");
}

#[test]
fn migration_settles_and_keeps_agents() {
    let mut cfg = AppConfig::default_in(Some("/home/u"));
    cfg.brain.workspace = "~/work".to_string();
    cfg.agents.push(agent("a", "in ~/.openclaw/workspace/x", Some("~/.openclaw/workspace/x")));
    assert!(migrate_workspace_bindings_in(&mut cfg, Some("/home/u")));
    assert_eq!(cfg.agents[1].workspace.as_deref(), Some("/home/u/work/x"));
    assert_eq!(cfg.agents[1].soul, "in /home/u/work/x");
    assert_eq!(cfg.agents[1].id, "a");
    assert!(!migrate_workspace_bindings_in(&mut cfg, Some("/home/u")));
    assert_eq!(cfg.agents.len(), 2);
}

#[test]
fn migration_is_final_under_another_home() {
    let mut cfg = AppConfig::default_in(Some("/home/u"));
    cfg.brain.workspace = "/srv/brain".to_string();
    for workspace in ["~/.openclaw/workspace", ".openclaw/workspace/a", "/x/.openclaw/workspace//y"]
    {
        cfg.agents.push(agent("a", workspace, Some(workspace)));
    }
    assert!(migrate_workspace_bindings_in(&mut cfg, Some("/home/u")));
    let moved: Vec<Option<&str>> = cfg.agents.iter().map(|a| a.workspace.as_deref()).collect();
    assert_eq!(moved, vec![None, Some("/srv/brain"), Some("/srv/brain/a"), Some("/y")]);
    assert!(!migrate_workspace_bindings_in(&mut cfg, Some("/home/other")));
}

#[test]
fn migration_may_move_twice_where_the_brain_is_in_the_old_place() {
    let mut cfg = AppConfig::default_in(Some("/home/u"));
    cfg.brain.workspace = "/u/.openclaw/workspace/x".to_string();
    cfg.agents.push(agent("a", "", Some("/v/.openclaw/workspace/a")));
    assert!(migrate_workspace_bindings_in(&mut cfg, None));
    assert_eq!(cfg.agents[1].workspace.as_deref(), Some("/u/.openclaw/workspace/x/a"));
    assert!(migrate_workspace_bindings_in(&mut cfg, None));
    assert_eq!(cfg.agents[1].workspace.as_deref(), Some("/u/.openclaw/workspace/x/x/a"));
}

#[test]
fn legacy_suffixes() {
    assert_eq!(legacy_openclaw_workspace_suffix("~/.openclaw/workspace/a/b"), Some("a/b"));
    assert_eq!(legacy_openclaw_workspace_suffix("~/.openclaw/workspace"), Some(""));
    assert_eq!(legacy_openclaw_workspace_suffix(" .openclaw/workspace/a "), Some("a"));
    assert_eq!(legacy_openclaw_workspace_suffix(".openclaw/workspace"), Some(""));
    assert_eq!(legacy_openclaw_workspace_suffix("/x/.openclaw/workspace/y/z"), Some("y/z"));
    assert_eq!(legacy_openclaw_workspace_suffix("/x/.openclaw/workspace"), None);
    assert_eq!(legacy_openclaw_workspace_suffix("   "), None);
    assert_eq!(legacy_openclaw_workspace_suffix("/srv/work"), None);
    assert!(is_legacy_openclaw_workspace("~/.openclaw/workspace/"));
    assert!(!is_legacy_openclaw_workspace("~/.openclaw"));
}

#[test]
fn bindings_move_under_the_brain() {
    let home = Some("/home/u");
    assert_eq!(
        normalize_workspace_binding_in("~/.openclaw/workspace", "~/work", home),
        "/home/u/work"
    );
    assert_eq!(
        normalize_workspace_binding_in("~/.openclaw/workspace/a", "~/work", home),
        "/home/u/work/a"
    );
    assert_eq!(
        normalize_workspace_binding_in("~/.openclaw/workspace/a", "~/work", None),
        "~/work/a"
    );
    assert_eq!(normalize_workspace_binding_in("  /srv/a ", "~/work", home), "  /srv/a ");
}

#[test]
fn joined_paths_agree_with_std() {
    for base in ["", "/", "a", "a/", "/a/b", "/a/b/", "."] {
        for rest in ["", "x", "x/y", "/abs", ".hidden", "../up"] {
            let expected = Path::new(base).join(rest).to_string_lossy().to_string();
            assert_eq!(join_path(base, rest), expected, "{} + {}", base, rest);
        }
    }
}

#[test]
fn home_is_resolved() {
    assert_eq!(resolve_path_in("~/x", true), under_home("x"));
    assert_eq!(resolve_path_in("~/x", false), plain("~/x"));
    assert_eq!(resolve_path_in("~x", true), plain("~x"));
    assert_eq!(resolve_text_in("~/x", Some("/home/u")), "/home/u/x");
    assert_eq!(resolve_text_in("~/x", None), "~/x");
    assert_eq!(resolve_text_in("~x", Some("/home/u")), "~x");
    assert_eq!(under_home("x").shown_in(None), "~/x");
    let known = dirs::home_dir().is_some();
    assert_eq!(resolve_path("~/x"), if known { under_home("x") } else { plain("~/x") });
    assert_eq!(resolve_path("/abs"), plain("/abs"));
}

#[test]
fn home_directories_are_joined_with_paths() {
    let home = dirs::home_dir();
    let shown = home.as_ref().map(|home| home.to_string_lossy().into_owned());
    let path = resolve_path("~/x/y");
    let joined = match (&path, &home) {
        (FilePath::UnderHome(rest), Some(home)) => home.join(rest),
        (FilePath::Plain(text), _) => Path::new(text).to_path_buf(),
        (FilePath::UnderHome(_), None) => panic!("there is no home directory"),
    };
    assert_eq!(path.shown_in(shown.as_deref()), joined.to_string_lossy());
}

#[test]
fn config_files_have_their_place() {
    let home = Some("/home/u");
    assert_eq!(default_config_dir_in(true), under_home(".openorchestrator"));
    assert_eq!(default_config_dir_in(true).shown_in(home), "/home/u/.openorchestrator");
    assert_eq!(default_config_dir_in(false), plain(".openorchestrator"));
    assert_eq!(
        default_config_path_in(None, true).shown_in(home),
        "/home/u/.openorchestrator/openorchestrator.json"
    );
    assert_eq!(
        default_config_path_in(None, false),
        plain(".openorchestrator/openorchestrator.json")
    );
    assert_eq!(default_config_path_in(Some("/etc/oo.json"), true), plain("/etc/oo.json"));
    assert_eq!(default_config_path(Some("/etc/oo.json")), plain("/etc/oo.json"));
    let known = dirs::home_dir().is_some();
    assert_eq!(default_config_dir(), default_config_dir_in(known));
    assert_eq!(default_config_path(None), default_config_path_in(None, known));
}

#[test]
fn defaults_are_local() {
    let cfg = AppConfig::default_in(Some("/home/u"));
    assert_eq!(cfg.version, 1);
    assert_eq!(cfg.brain.provider, "codex-cli");
    assert_eq!(cfg.brain.workspace, "/home/u/work");
    assert!(cfg.brain.model.is_none());
    assert_eq!(cfg.gateway.host, "127.0.0.1");
    assert_eq!(cfg.gateway.port, DEFAULT_GATEWAY_PORT);
    assert_eq!(cfg.gateway.port, 3769);
    assert!(!cfg.slack.enabled);
    assert_eq!(cfg.slack.mode, SlackMode::EventsApi);
    assert_eq!(cfg.agents.len(), 1);
    assert_eq!(cfg.agents[0].id, "main");
    assert_eq!(cfg.agents[0].name, "Main Brain");
    assert_eq!(cfg.memory.state_path, "/home/u/.openorchestrator/state.json");
    assert_eq!(cfg.memory.max_conversation_items, 10_000);
    assert_eq!(cfg.memory.max_memory_items, 5_000);
    assert_eq!(AppConfig::default_in(None).brain.workspace, "./work");
    assert_eq!(AppConfig::default_in(None).memory.state_path, ".openorchestrator/state.json");
    assert_eq!(SlackMode::default(), SlackMode::EventsApi);
}

#[test]
fn values_are_typed() {
    assert!(matches!(parse_config_value("4001"), Json::Unsigned(4001)));
    assert!(matches!(parse_config_value("-7"), Json::Signed(-7)));
    assert!(matches!(parse_config_value("true"), Json::Bool(true)));
    assert!(matches!(parse_config_value("null"), Json::Null));
    assert_eq!(shown(&parse_config_value("1.5")), shown(&Json::Float("1.5".to_string())));
    assert_eq!(shown(&parse_config_value("\"gpt-5\"")), shown(&text("gpt-5")));
    assert_eq!(shown(&parse_config_value("gpt-5")), shown(&text("gpt-5")));
    assert_eq!(
        shown(&parse_config_value("[1, \"a\"]")),
        shown(&Json::List(vec![Json::Unsigned(1), text("a")]))
    );
    assert_eq!(
        shown(&parse_config_value("{\"b\": {\"c\": 1}}")),
        shown(&object(vec![("b", object(vec![("c", Json::Unsigned(1))]))]))
    );
}

#[test]
fn texts_stand_for_what_is_no_json() {
    assert_eq!(shown(&value_or_text(None, "a b")), shown(&text("a b")));
    assert!(matches!(value_or_text(Some(Json::Bool(true)), "a b"), Json::Bool(true)));
}

#[test]
fn set_values_are_found_again() {
    let root = object(vec![
        ("gateway", object(vec![("host", text("h")), ("port", Json::Unsigned(1))])),
        ("version", Json::Unsigned(1)),
    ]);
    let after = set_config_path_value(root, "gateway.port", "4001").expect("a path");
    assert_eq!(
        shown(&after),
        shown(&object(vec![
            ("gateway", object(vec![("host", text("h")), ("port", Json::Unsigned(4001))])),
            ("version", Json::Unsigned(1)),
        ]))
    );
}

#[test]
fn set_values_make_their_way() {
    let root = object(vec![("version", Json::Unsigned(1))]);
    let after = set_config_path_value(root, "version..new.", "x").expect("a path");
    assert_eq!(shown(&after), shown(&object(vec![("version", object(vec![("new", text("x"))]))])));
}

#[test]
fn empty_paths_are_refused() {
    let error = set_config_path_value(Json::Null, "..", "x").expect_err("no key");
    assert_eq!(error.message(), "path must not be empty");
    assert!(set_config_path_value(Json::Null, "", "x").is_err());
}
