//! The configuration: its shape, its defaults, the workspaces of the agents,
//! and setting a value by its path.
use crate::json::{set_at, set_json, Json, JsonView};
use crate::outside::{home_dir, json_of_text, json_of_value, value_of_text};
use crate::paths::{
    config_dir, default_config_dir_in, join_path, joined_path, resolve_text_in, resolved_text,
};
use crate::text::{
    after_prefix, as_opt_str, contains_text, copy_opt, copy_text, find, find_text, has_prefix,
    lemma_find_text, lemma_trim_end, lemma_trim_start_skips, matches_at, opt_str, opt_text,
    replace, replaced, same_text, split, split_on, strip_prefix, text_from, texts, trim,
    trim_start_of, trimmed, CharSet,
};
use vstd::prelude::*;

verus! {

pub const DEFAULT_GATEWAY_PORT: u16 = 3769;

/// How Slack events reach the gateway.
#[derive(Clone, Copy, Debug, PartialEq, Eq, Structural)]
pub enum SlackMode {
    EventsApi,
    Socket,
}

impl Default for SlackMode {
    fn default() -> (r: Self)
        ensures
            r == SlackMode::EventsApi,
    {
        SlackMode::EventsApi
    }
}

#[derive(Debug)]
pub struct AppConfig {
    pub version: u32,
    pub brain: BrainConfig,
    pub gateway: GatewayConfig,
    pub slack: SlackConfig,
    pub agents: Vec<AgentConfig>,
    pub memory: MemoryConfig,
}

#[derive(Debug)]
pub struct BrainConfig {
    pub provider: String,
    pub workspace: String,
    pub model: Option<String>,
}

#[derive(Debug)]
pub struct GatewayConfig {
    pub host: String,
    pub port: u16,
}

#[derive(Debug)]
pub struct SlackConfig {
    pub enabled: bool,
    pub mode: SlackMode,
    pub bot_token: Option<String>,
    pub signing_secret: Option<String>,
    pub app_token: Option<String>,
    pub default_channel: Option<String>,
    pub bot_user_id: Option<String>,
}

#[derive(Debug)]
pub struct AgentConfig {
    pub id: String,
    pub name: String,
    pub soul: String,
    pub workspace: Option<String>,
}

#[derive(Debug)]
pub struct MemoryConfig {
    pub state_path: String,
    pub max_conversation_items: usize,
    pub max_memory_items: usize,
}

// Views.
#[verifier::ext_equal]
pub struct ConfigView {
    pub version: u32,
    pub brain: BrainView,
    pub gateway: GatewayView,
    pub slack: SlackView,
    pub agents: Seq<AgentView>,
    pub memory: MemoryConfigView,
}

#[verifier::ext_equal]
pub struct BrainView {
    pub provider: Seq<char>,
    pub workspace: Seq<char>,
    pub model: Option<Seq<char>>,
}

#[verifier::ext_equal]
pub struct GatewayView {
    pub host: Seq<char>,
    pub port: u16,
}

#[verifier::ext_equal]
pub struct SlackView {
    pub enabled: bool,
    pub mode: SlackMode,
    pub bot_token: Option<Seq<char>>,
    pub signing_secret: Option<Seq<char>>,
    pub app_token: Option<Seq<char>>,
    pub default_channel: Option<Seq<char>>,
    pub bot_user_id: Option<Seq<char>>,
}

#[verifier::ext_equal]
pub struct AgentView {
    pub id: Seq<char>,
    pub name: Seq<char>,
    pub soul: Seq<char>,
    pub workspace: Option<Seq<char>>,
}

#[verifier::ext_equal]
pub struct MemoryConfigView {
    pub state_path: Seq<char>,
    pub max_conversation_items: usize,
    pub max_memory_items: usize,
}

impl View for AgentConfig {
    type V = AgentView;

    open spec fn view(&self) -> AgentView {
        AgentView {
            id: self.id@,
            name: self.name@,
            soul: self.soul@,
            workspace: opt_text(self.workspace),
        }
    }
}

impl View for BrainConfig {
    type V = BrainView;

    open spec fn view(&self) -> BrainView {
        BrainView {
            provider: self.provider@,
            workspace: self.workspace@,
            model: opt_text(self.model),
        }
    }
}

impl View for GatewayConfig {
    type V = GatewayView;

    open spec fn view(&self) -> GatewayView {
        GatewayView { host: self.host@, port: self.port }
    }
}

impl View for SlackConfig {
    type V = SlackView;

    open spec fn view(&self) -> SlackView {
        SlackView {
            enabled: self.enabled,
            mode: self.mode,
            bot_token: opt_text(self.bot_token),
            signing_secret: opt_text(self.signing_secret),
            app_token: opt_text(self.app_token),
            default_channel: opt_text(self.default_channel),
            bot_user_id: opt_text(self.bot_user_id),
        }
    }
}

impl View for MemoryConfig {
    type V = MemoryConfigView;

    open spec fn view(&self) -> MemoryConfigView {
        MemoryConfigView {
            state_path: self.state_path@,
            max_conversation_items: self.max_conversation_items,
            max_memory_items: self.max_memory_items,
        }
    }
}

/// The views of a list of agents.
pub open spec fn agent_views(v: Seq<AgentConfig>) -> Seq<AgentView> {
    Seq::new(v.len(), |i: int| v[i]@)
}

impl View for AppConfig {
    type V = ConfigView;

    open spec fn view(&self) -> ConfigView {
        ConfigView {
            version: self.version,
            brain: self.brain@,
            gateway: self.gateway@,
            slack: self.slack@,
            agents: agent_views(self.agents@),
            memory: self.memory@,
        }
    }
}

// Copies.
impl Clone for AgentConfig {
    fn clone(&self) -> (r: Self)
        ensures
            r == *self,
    {
        AgentConfig {
            id: self.id.clone(),
            name: self.name.clone(),
            soul: self.soul.clone(),
            workspace: copy_opt(&self.workspace),
        }
    }
}

impl Clone for BrainConfig {
    fn clone(&self) -> (r: Self)
        ensures
            r == *self,
    {
        BrainConfig {
            provider: self.provider.clone(),
            workspace: self.workspace.clone(),
            model: copy_opt(&self.model),
        }
    }
}

impl Clone for GatewayConfig {
    fn clone(&self) -> (r: Self)
        ensures
            r == *self,
    {
        GatewayConfig { host: self.host.clone(), port: self.port }
    }
}

impl Clone for SlackConfig {
    fn clone(&self) -> (r: Self)
        ensures
            r == *self,
    {
        SlackConfig {
            enabled: self.enabled,
            mode: self.mode,
            bot_token: copy_opt(&self.bot_token),
            signing_secret: copy_opt(&self.signing_secret),
            app_token: copy_opt(&self.app_token),
            default_channel: copy_opt(&self.default_channel),
            bot_user_id: copy_opt(&self.bot_user_id),
        }
    }
}

impl Clone for MemoryConfig {
    fn clone(&self) -> (r: Self)
        ensures
            r == *self,
    {
        MemoryConfig {
            state_path: self.state_path.clone(),
            max_conversation_items: self.max_conversation_items,
            max_memory_items: self.max_memory_items,
        }
    }
}

impl Clone for AppConfig {
    fn clone(&self) -> (r: Self)
        ensures
            r@ == self@,
    {
        let agents = self.agents.clone();
        assert(agent_views(agents@) =~= agent_views(self.agents@));
        AppConfig {
            version: self.version,
            brain: self.brain.clone(),
            gateway: self.gateway.clone(),
            slack: self.slack.clone(),
            agents,
            memory: self.memory.clone(),
        }
    }
}

// Defaults.
/// The configuration to start from, under the home directory `home`.
pub open spec fn default_config(home: Option<Seq<char>>) -> ConfigView {
    ConfigView {
        version: 1,
        brain: BrainView {
            provider: "codex-cli"@,
            workspace: joined_path(
                match home {
                    Some(h) => h,
                    None => "."@,
                },
                "work"@,
            ),
            model: None,
        },
        gateway: GatewayView { host: "127.0.0.1"@, port: 3769 },
        slack: SlackView {
            enabled: false,
            mode: SlackMode::EventsApi,
            bot_token: None,
            signing_secret: None,
            app_token: None,
            default_channel: None,
            bot_user_id: None,
        },
        agents: seq![
            AgentView {
                id: "main"@,
                name: "Main Brain"@,
                soul:
                    "You are the primary OpenOrchestrator brain. Be concise, pragmatic, and action-oriented."@,
                workspace: None,
            },
        ],
        memory: MemoryConfigView {
            state_path: joined_path(config_dir(home is Some).shown(home), "state.json"@),
            max_conversation_items: 10_000,
            max_memory_items: 5_000,
        },
    }
}

impl AppConfig {
    /// The configuration to start from, under the home directory `home`.
    pub fn default_in(home: Option<&str>) -> (r: AppConfig)
        ensures
            r@ == default_config(opt_str(home)),
    {
        let base: &str = match home {
            Some(h) => h,
            None => ".",
        };
        let mut agents: Vec<AgentConfig> = Vec::new();
        agents.push(
            AgentConfig {
                id: copy_text("main"),
                name: copy_text("Main Brain"),
                soul: copy_text(
                    "You are the primary OpenOrchestrator brain. Be concise, pragmatic, and action-oriented.",
                ),
                workspace: None,
            },
        );
        assert(agent_views(agents@) =~= default_config(opt_str(home)).agents);
        AppConfig {
            version: 1,
            brain: BrainConfig {
                provider: copy_text("codex-cli"),
                workspace: join_path(base, "work"),
                model: None,
            },
            gateway: GatewayConfig { host: copy_text("127.0.0.1"), port: DEFAULT_GATEWAY_PORT },
            slack: SlackConfig {
                enabled: false,
                mode: SlackMode::EventsApi,
                bot_token: None,
                signing_secret: None,
                app_token: None,
                default_channel: None,
                bot_user_id: None,
            },
            agents,
            memory: MemoryConfig {
                state_path: join_path(
                    default_config_dir_in(home.is_some()).shown_in(home).as_str(),
                    "state.json",
                ),
                max_conversation_items: 10_000,
                max_memory_items: 5_000,
            },
        }
    }
}

impl Default for AppConfig {
    /// The configuration to start from, under the user's home directory.
    fn default() -> (r: Self)
        ensures
            exists|home: Option<Seq<char>>| r@ == #[trigger] default_config(home),
    {
        let home = home_dir();
        AppConfig::default_in(as_opt_str(&home))
    }
}

// Workspaces.
/// What follows the old workspace directory in a workspace that lies in it.
pub open spec fn legacy_suffix(workspace: Seq<char>) -> Option<Seq<char>> {
    let t = trimmed(workspace);
    if t.len() == 0 {
        None
    } else if after_prefix(t, "~/.openclaw/workspace/"@) is Some {
        after_prefix(t, "~/.openclaw/workspace/"@)
    } else if t == "~/.openclaw/workspace"@ {
        Some(seq![])
    } else if after_prefix(t, ".openclaw/workspace/"@) is Some {
        after_prefix(t, ".openclaw/workspace/"@)
    } else if t == ".openclaw/workspace"@ {
        Some(seq![])
    } else {
        match find_text(t, "/.openclaw/workspace/"@) {
            Some(i) => Some(t.skip(i + "/.openclaw/workspace/"@.len())),
            None => None,
        }
    }
}

/// What follows the old workspace directory in a workspace that lies in it.
pub fn legacy_openclaw_workspace_suffix(workspace: &str) -> (r: Option<&str>)
    ensures
        opt_str(r) == legacy_suffix(workspace@),
{
    let t = trim(workspace);
    if t.is_empty() {
        return None;
    }
    if let Some(rest) = strip_prefix(t, "~/.openclaw/workspace/") {
        return Some(rest);
    }
    if same_text(t, "~/.openclaw/workspace") {
        let n: usize = t.unicode_len();
        assert(t@.skip(n as int) =~= seq![]);
        return Some(text_from(t, n));
    }
    if let Some(rest) = strip_prefix(t, ".openclaw/workspace/") {
        return Some(rest);
    }
    if same_text(t, ".openclaw/workspace") {
        let n: usize = t.unicode_len();
        assert(t@.skip(n as int) =~= seq![]);
        return Some(text_from(t, n));
    }
    let marker: &str = "/.openclaw/workspace/";
    match find(t, marker) {
        Some(i) => {
            let n: usize = t.unicode_len();
            let m: usize = marker.unicode_len();
            assert(i + m <= n);
            Some(text_from(t, i + m))
        },
        None => None,
    }
}

/// Whether a workspace lies in the old workspace directory.
pub fn is_legacy_openclaw_workspace(workspace: &str) -> (r: bool)
    ensures
        r == (legacy_suffix(workspace@) is Some),
{
    legacy_openclaw_workspace_suffix(workspace).is_some()
}

/// The workspace to use for one that was asked for: what lies in the old
/// workspace directory moves to the brain's, anything else stays.
pub open spec fn normalized_binding(
    workspace: Seq<char>,
    brain_workspace: Seq<char>,
    home: Option<Seq<char>>,
) -> Seq<char> {
    match legacy_suffix(workspace) {
        Some(suffix) => if suffix.len() == 0 {
            resolved_text(brain_workspace, home)
        } else {
            joined_path(resolved_text(brain_workspace, home), suffix)
        },
        None => workspace,
    }
}

/// The workspace to use for one that was asked for, under the home directory
/// `home`.
pub fn normalize_workspace_binding_in(
    workspace: &str,
    brain_workspace: &str,
    home: Option<&str>,
) -> (r: String)
    ensures
        r@ == normalized_binding(workspace@, brain_workspace@, opt_str(home)),
{
    match legacy_openclaw_workspace_suffix(workspace) {
        Some(suffix) => {
            let root = resolve_text_in(brain_workspace, home);
            if suffix.is_empty() {
                root
            } else {
                join_path(root.as_str(), suffix)
            }
        },
        None => copy_text(workspace),
    }
}

/// The workspace to use for one that was asked for.
pub fn normalize_workspace_binding(workspace: &str, brain_workspace: &str) -> (r: String)
    ensures
        exists|home: Option<Seq<char>>|
            r@ == #[trigger] normalized_binding(workspace@, brain_workspace@, home),
        legacy_suffix(workspace@) is None ==> r@ == workspace@,
{
    let home = home_dir();
    normalize_workspace_binding_in(workspace, brain_workspace, as_opt_str(&home))
}

/// Whether an agent's workspace lies in the old workspace directory and would
/// move.
pub open spec fn needs_migration(
    agent: AgentView,
    brain_workspace: Seq<char>,
    home: Option<Seq<char>>,
) -> bool {
    match agent.workspace {
        Some(w) => legacy_suffix(w) is Some && normalized_binding(w, brain_workspace, home) != w,
        None => false,
    }
}

/// An agent with its workspace moved out of the old workspace directory, and
/// its soul speaking of the new place.
pub open spec fn migrated_agent(
    agent: AgentView,
    brain_workspace: Seq<char>,
    home: Option<Seq<char>>,
) -> AgentView {
    if needs_migration(agent, brain_workspace, home) {
        let w = agent.workspace->0;
        let n = normalized_binding(w, brain_workspace, home);
        AgentView { soul: replaced(agent.soul, w, n), workspace: Some(n), ..agent }
    } else {
        agent
    }
}

/// A configuration with the workspaces of all its agents moved.
pub open spec fn migrated(cfg: ConfigView, home: Option<Seq<char>>) -> ConfigView {
    ConfigView {
        agents: Seq::new(
            cfg.agents.len(),
            |i: int| migrated_agent(cfg.agents[i], cfg.brain.workspace, home),
        ),
        ..cfg
    }
}

proof fn lemma_legacy_not_empty(w: Seq<char>)
    requires
        legacy_suffix(w) is Some,
    ensures
        w.len() > 0,
{
    if w.len() == 0 {
        assert(trimmed(w) == w);
    }
}

fn migrate_agent(agent: AgentConfig, brain_workspace: &str, home: Option<&str>) -> (r: (
    AgentConfig,
    bool,
))
    ensures
        r.0@ == migrated_agent(agent@, brain_workspace@, opt_str(home)),
        r.1 == needs_migration(agent@, brain_workspace@, opt_str(home)),
        !r.1 ==> r.0 == agent,
{
    match &agent.workspace {
        Some(original) => {
            if !is_legacy_openclaw_workspace(original.as_str()) {
                return (agent, false);
            }
            let moved = normalize_workspace_binding_in(original.as_str(), brain_workspace, home);
            if same_text(moved.as_str(), original.as_str()) {
                return (agent, false);
            }
            proof {
                lemma_legacy_not_empty(original@);
            }
            let soul = replace(agent.soul.as_str(), original.as_str(), moved.as_str());
            (
                AgentConfig {
                    id: agent.id.clone(),
                    name: agent.name.clone(),
                    soul,
                    workspace: Some(moved),
                },
                true,
            )
        },
        None => (agent, false),
    }
}

/// Moves the workspaces of the agents out of the old workspace directory, under
/// the home directory `home`, and says whether any moved.
pub fn migrate_workspace_bindings_in(cfg: &mut AppConfig, home: Option<&str>) -> (changed: bool)
    ensures
        final(cfg)@ == migrated(old(cfg)@, opt_str(home)),
        changed == (final(cfg)@ != old(cfg)@),
        changed == exists|i: int|
            0 <= i < old(cfg)@.agents.len() && needs_migration(
                #[trigger] old(cfg)@.agents[i],
                old(cfg)@.brain.workspace,
                opt_str(home),
            ),
{
    let ghost before = cfg@;
    let ghost place = opt_str(home);
    let brain_workspace = copy_text(cfg.brain.workspace.as_str());
    let mut changed: bool = false;
    let mut i: usize = 0;
    assert(cfg@.agents =~= before.agents);
    while i < cfg.agents.len()
        invariant
            i <= cfg.agents@.len(),
            place == opt_str(home),
            brain_workspace@ == before.brain.workspace,
            cfg@ == (ConfigView { agents: cfg@.agents, ..before }),
            cfg@.agents.len() == before.agents.len(),
            forall|j: int|
                0 <= j < i ==> #[trigger] cfg@.agents[j] == migrated_agent(
                    before.agents[j],
                    before.brain.workspace,
                    place,
                ),
            forall|j: int|
                i <= j < cfg@.agents.len() ==> #[trigger] cfg@.agents[j] == before.agents[j],
            changed == exists|j: int|
                0 <= j < i && needs_migration(
                    #[trigger] before.agents[j],
                    before.brain.workspace,
                    place,
                ),
        decreases cfg.agents@.len() - i,
    {
        let ghost mid = cfg@;
        let agent = cfg.agents[i].clone();
        assert(agent@ == mid.agents[i as int]);
        let (moved, did) = migrate_agent(agent, brain_workspace.as_str(), home);
        cfg.agents.set(i, moved);
        assert(cfg@.agents =~= mid.agents.update(i as int, moved@));
        changed = changed || did;
        i += 1;
    }
    proof {
        assert(cfg@ =~= migrated(before, place));
        if changed {
            let j = choose|j: int|
                0 <= j < before.agents.len() && needs_migration(
                    #[trigger] before.agents[j],
                    before.brain.workspace,
                    place,
                );
            assert(cfg@.agents[j].workspace != before.agents[j].workspace);
        } else {
            assert(cfg@.agents =~= before.agents);
        }
    }
    changed
}

/// Moves the workspaces of the agents out of the old workspace directory, and
/// says whether any moved.
pub fn migrate_legacy_openclaw_workspace_bindings(cfg: &mut AppConfig) -> (changed: bool)
    ensures
        exists|home: Option<Seq<char>>| final(cfg)@ == #[trigger] migrated(old(cfg)@, home),
        changed == (final(cfg)@ != old(cfg)@),
{
    let home = home_dir();
    migrate_workspace_bindings_in(cfg, as_opt_str(&home))
}

// Setting a value.
/// The texts that are not empty.
pub open spec fn not_empty(parts: Seq<Seq<char>>) -> Seq<Seq<char>>
    decreases parts.len(),
{
    if parts.len() == 0 {
        seq![]
    } else if parts.last().len() == 0 {
        not_empty(parts.drop_last())
    } else {
        not_empty(parts.drop_last()).push(parts.last())
    }
}

/// The keys of a dotted path.
pub open spec fn path_keys(dotted: Seq<char>) -> Seq<Seq<char>> {
    not_empty(split_on(dotted, CharSet::OneOf(".")))
}

fn keys_of_path(dotted: &str) -> (r: Vec<String>)
    ensures
        texts(r@) == path_keys(dotted@),
{
    let parts = split(dotted, &CharSet::OneOf("."));
    let ghost all = texts(parts@);
    let mut out: Vec<String> = Vec::new();
    let mut i: usize = 0;
    assert(texts(out@) =~= not_empty(all.take(0)));
    while i < parts.len()
        invariant
            i <= parts@.len(),
            all == texts(parts@),
            texts(out@) == not_empty(all.take(i as int)),
        decreases parts@.len() - i,
    {
        let ghost before = out@;
        assert(all.take(i + 1).drop_last() == all.take(i as int));
        if !parts[i].as_str().is_empty() {
            out.push(parts[i].clone());
            assert(texts(out@) =~= texts(before).push(parts@[i as int]@));
        }
        i += 1;
    }
    assert(all.take(all.len() as int) == all);
    out
}

/// A path without a key.
#[derive(Clone, Copy, Debug, PartialEq, Eq, Structural)]
pub struct EmptyPath;

impl EmptyPath {
    /// What is said of the path.
    pub fn message(&self) -> (r: String)
        ensures
            r@ == "path must not be empty"@,
    {
        copy_text("path must not be empty")
    }
}

/// What a value means on the command line: a JSON value, or else the text as
/// it stands.
pub open spec fn typed_value(value: Seq<char>) -> JsonView {
    match json_of_text(value) {
        Some(v) => v,
        None => JsonView::Text(value),
    }
}

/// The JSON value that a value was read as, or else its text.
pub fn value_or_text(read: Option<Json>, value: &str) -> (r: Json)
    ensures
        r@ == (match read {
            Some(v) => v@,
            None => JsonView::Text(value@),
        }),
{
    match read {
        Some(v) => v,
        None => Json::Text(copy_text(value)),
    }
}

/// What a value means on the command line.
pub fn parse_config_value(value: &str) -> (r: Json)
    ensures
        r@ == typed_value(value@),
{
    let read: Option<Json> = match value_of_text(value) {
        Ok(v) => Some(json_of_value(&v)),
        Err(_) => None,
    };
    value_or_text(read, value)
}

/// Puts `value` at a dotted path of a configuration that is written as JSON.
pub fn set_config_value(root: Json, dotted_path: &str, value: Json) -> (r: Result<Json, EmptyPath>)
    ensures
        r is Err <==> path_keys(dotted_path@).len() == 0,
        r matches Ok(v) ==> v@ == set_at(root@, path_keys(dotted_path@), value@),
{
    let keys = keys_of_path(dotted_path);
    assert(texts(keys@).len() == keys@.len());
    if keys.len() == 0 {
        return Err(EmptyPath);
    }
    assert(texts(keys@).skip(0) == texts(keys@));
    Ok(set_json(root, &keys, 0, value))
}

/// Puts what `value` means at a dotted path of a configuration that is written
/// as JSON.
pub fn set_config_path_value(root: Json, dotted_path: &str, value: &str) -> (r: Result<
    Json,
    EmptyPath,
>)
    ensures
        r is Err <==> path_keys(dotted_path@).len() == 0,
        r matches Ok(v) ==> v@ == set_at(root@, path_keys(dotted_path@), typed_value(value@)),
{
    set_config_value(root, dotted_path, parse_config_value(value))
}

// Laws.
/// The configuration to start from is reached from this machine alone, has no
/// Slack, and has one agent.
pub proof fn law_defaults_are_local(home: Option<Seq<char>>)
    ensures
        default_config(home).gateway.host == "127.0.0.1"@,
        default_config(home).gateway.port == DEFAULT_GATEWAY_PORT,
        !default_config(home).slack.enabled,
        default_config(home).agents.len() == 1,
        default_config(home).agents[0].id == "main"@,
{
}

/// A workspace outside the old workspace directory stays as it is, wherever the
/// brain works.
pub proof fn law_other_workspaces_stay(
    workspace: Seq<char>,
    brain_workspace: Seq<char>,
    home: Option<Seq<char>>,
)
    requires
        legacy_suffix(workspace) is None,
    ensures
        normalized_binding(workspace, brain_workspace, home) == workspace,
{
}

/// A configuration whose agents work outside the old workspace directory is
/// not changed by a migration.
pub proof fn law_migration_leaves_other_configs(cfg: ConfigView, home: Option<Seq<char>>)
    requires
        forall|i: int|
            0 <= i < cfg.agents.len() ==> match (#[trigger] cfg.agents[i]).workspace {
                Some(w) => legacy_suffix(w) is None,
                None => true,
            },
    ensures
        migrated(cfg, home) == cfg,
{
    assert(migrated(cfg, home).agents =~= cfg.agents);
}

/// A second migration changes nothing, unless a workspace that has moved lies
/// in the old workspace directory again and would move once more.
pub proof fn law_migration_settles(cfg: ConfigView, home: Option<Seq<char>>)
    ensures
        migrated(migrated(cfg, home), home) == migrated(cfg, home) <==> forall|i: int|
            0 <= i < cfg.agents.len() ==> !needs_migration(
                #[trigger] migrated(cfg, home).agents[i],
                cfg.brain.workspace,
                home,
            ),
{
    let once = migrated(cfg, home);
    let twice = migrated(once, home);
    if forall|i: int|
        0 <= i < cfg.agents.len() ==> !needs_migration(
            #[trigger] once.agents[i],
            cfg.brain.workspace,
            home,
        ) {
        assert(twice.agents =~= once.agents);
    } else {
        let i = choose|i: int|
            0 <= i < cfg.agents.len() && needs_migration(
                #[trigger] once.agents[i],
                cfg.brain.workspace,
                home,
            );
        assert(twice.agents[i].workspace != once.agents[i].workspace);
    }
}

/// Whether a text occurs at most once in another.
pub open spec fn at_most_once(s: Seq<char>, t: Seq<char>) -> bool {
    forall|i: int, j: int|
        #[trigger] matches_at(s, t, i) && #[trigger] matches_at(s, t, j) ==> i == j
}

proof fn lemma_occurrence_in_trimmed(w: Seq<char>, t: Seq<char>) -> (shift: int)
    ensures
        shift >= 0,
        forall|i: int| #[trigger] matches_at(trimmed(w), t, i) ==> matches_at(w, t, shift + i),
{
    let start = trim_start_of(w, CharSet::Space);
    lemma_trim_start_skips(w, CharSet::Space);
    lemma_trim_end(start, CharSet::Space);
    let shift = w.len() - start.len();
    assert forall|i: int| #[trigger] matches_at(trimmed(w), t, i) implies matches_at(
        w,
        t,
        shift + i,
    ) by {
        assert(w.subrange(shift + i, shift + i + t.len()) =~= trimmed(w).subrange(i, i + t.len()));
    }
    shift
}

/// What follows the old workspace directory follows an occurrence of its name.
proof fn lemma_legacy_suffix_place(w: Seq<char>) -> (p: int)
    requires
        legacy_suffix(w) is Some,
        legacy_suffix(w)->0.len() > 0,
    ensures
        p >= 0,
        matches_at(trimmed(w), ".openclaw/workspace/"@, p),
        legacy_suffix(w)->0 == trimmed(w).skip(p + ".openclaw/workspace/"@.len()),
{
    reveal_strlit("~/.openclaw/workspace/");
    reveal_strlit(".openclaw/workspace/");
    reveal_strlit("/.openclaw/workspace/");
    let t = trimmed(w);
    let name = ".openclaw/workspace/"@;
    let home_name = "~/.openclaw/workspace/"@;
    let marker = "/.openclaw/workspace/"@;
    if after_prefix(t, home_name) is Some {
        assert(t.subrange(2, 2int + name.len()) =~= t.take(home_name.len() as int).skip(2));
        assert(home_name.skip(2) =~= name);
        2
    } else if after_prefix(t, name) is Some {
        assert(t.subrange(0, name.len() as int) =~= t.take(name.len() as int));
        0
    } else {
        lemma_find_text(t, marker);
        let i = find_text(t, marker)->0;
        assert(t.subrange(i + 1, i + 1 + name.len()) =~= t.subrange(i, i + marker.len()).skip(1));
        assert(marker.skip(1) =~= name);
        i + 1
    }
}

/// What follows the old workspace directory does not hold its name again, where
/// the workspace holds it at most once.
proof fn lemma_suffix_is_free(w: Seq<char>)
    requires
        legacy_suffix(w) is Some,
        at_most_once(w, ".openclaw/workspace/"@),
    ensures
        !contains_text(legacy_suffix(w)->0, ".openclaw/workspace/"@),
{
    reveal_strlit(".openclaw/workspace/");
    let name = ".openclaw/workspace/"@;
    let suffix = legacy_suffix(w)->0;
    if contains_text(suffix, name) {
        let k = choose|k: int| matches_at(suffix, name, k);
        let t = trimmed(w);
        let p = lemma_legacy_suffix_place(w);
        let shift = lemma_occurrence_in_trimmed(w, name);
        let again = p + name.len() + k;
        assert(t.subrange(again, again + name.len()) =~= suffix.subrange(k, k + name.len()));
        assert(matches_at(t, name, again));
        assert(matches_at(w, name, shift + p));
        assert(matches_at(w, name, shift + again));
    }
}

/// A path that starts with `/` lies outside the old workspace directory where it
/// does not hold that directory's name behind a `/`.
proof fn lemma_absolute_is_not_legacy(n: Seq<char>)
    requires
        n.len() > 0,
        n[0] == '/',
        !contains_text(n, "/.openclaw/workspace/"@),
    ensures
        legacy_suffix(n) is None,
{
    reveal_strlit("~/.openclaw/workspace/");
    reveal_strlit("~/.openclaw/workspace");
    reveal_strlit(".openclaw/workspace/");
    reveal_strlit(".openclaw/workspace");
    let t = trimmed(n);
    let marker = "/.openclaw/workspace/"@;
    assert(trim_start_of(n, CharSet::Space) == n);
    lemma_trim_end(n, CharSet::Space);
    assert(t[0] == '/');
    if has_prefix(t, "~/.openclaw/workspace/"@) {
        assert(t.take("~/.openclaw/workspace/"@.len() as int)[0] == '~');
    }
    if has_prefix(t, ".openclaw/workspace/"@) {
        assert(t.take(".openclaw/workspace/"@.len() as int)[0] == '.');
    }
    assert("~/.openclaw/workspace"@[0] == '~');
    assert(".openclaw/workspace"@[0] == '.');
    lemma_find_text(t, marker);
    if contains_text(t, marker) {
        let i = choose|i: int| matches_at(t, marker, i);
        let shift = lemma_occurrence_in_trimmed(n, marker);
        assert(matches_at(n, marker, shift + i));
    }
}

/// The workspace that an agent is moved to lies outside the old workspace
/// directory, where the brain works at an absolute path that does not name the old
/// place and the agent's workspace names it at most once.
proof fn lemma_moved_is_not_legacy(w: Seq<char>, brain: Seq<char>, home: Option<Seq<char>>)
    requires
        legacy_suffix(w) is Some,
        has_prefix(brain, "/"@),
        !contains_text(brain, ".openclaw"@),
        at_most_once(w, ".openclaw/workspace/"@),
    ensures
        legacy_suffix(normalized_binding(w, brain, home)) is None,
{
    reveal_strlit("/");
    reveal_strlit("~/");
    reveal_strlit(".openclaw");
    reveal_strlit(".openclaw/workspace/");
    reveal_strlit("/.openclaw/workspace/");
    let name = ".openclaw/workspace/"@;
    let marker = "/.openclaw/workspace/"@;
    let short = ".openclaw"@;
    let suffix = legacy_suffix(w)->0;
    let n = normalized_binding(w, brain, home);
    assert(brain.take(1)[0] == '/');
    if has_prefix(brain, "~/"@) {
        assert(brain.take(2)[0] == '~');
    }
    assert(resolved_text(brain, home) == brain);
    lemma_suffix_is_free(w);
    if contains_text(n, marker) {
        let i = choose|i: int| matches_at(n, marker, i);
        let m = n.subrange(i, i + marker.len());
        assert forall|j: int| 0 <= j < marker.len() implies n[i + j] == marker[j] by {
            assert(m[j] == n[i + j]);
        }
        assert(n.subrange(i + 1, i + 1 + name.len()) =~= name) by {
            assert(marker.skip(1) =~= name);
        }
        assert(n.subrange(i + 1, i + 1 + short.len()) =~= short) by {
            assert(name.take(9) =~= short);
        }
        if suffix.len() == 0 {
            assert(matches_at(brain, short, i + 1));
        } else if has_prefix(suffix, "/"@) {
            assert(matches_at(suffix, name, i + 1));
        } else {
            let full = if brain.last() == '/' {
                brain
            } else {
                brain + "/"@
            };
            assert(n =~= full + suffix);
            let b = full.len() - 1;
            assert(n[b] == '/');
            if i + 1 <= b < i + 1 + short.len() {
                assert(n[b] == n.subrange(i + 1, i + 1 + short.len())[b - i - 1]);
                assert(short[b - i - 1] == '/');
            }
            if i + 1 + short.len() <= b {
                assert(brain.subrange(i + 1, i + 1 + short.len()) =~= n.subrange(
                    i + 1,
                    i + 1 + short.len(),
                ));
                assert(matches_at(brain, short, i + 1));
            } else {
                let k = i + 1 - full.len();
                assert(suffix.subrange(k, k + name.len()) =~= n.subrange(
                    i + 1,
                    i + 1 + name.len(),
                ));
                assert(matches_at(suffix, name, k));
            }
        }
    }
    assert(n[0] == '/') by {
        if suffix.len() > 0 && has_prefix(suffix, "/"@) {
            assert(suffix.take(1)[0] == '/');
        }
    }
    lemma_absolute_is_not_legacy(n);
}

/// Where the brain works at an absolute path that does not name the old place, and
/// each agent's workspace names the old workspace directory at most once, a second
/// migration changes nothing, wherever the home directory is then.
pub proof fn law_migration_is_final(
    cfg: ConfigView,
    home: Option<Seq<char>>,
    later: Option<Seq<char>>,
)
    requires
        has_prefix(cfg.brain.workspace, "/"@),
        !contains_text(cfg.brain.workspace, ".openclaw"@),
        forall|i: int|
            0 <= i < cfg.agents.len() ==> match (#[trigger] cfg.agents[i]).workspace {
                Some(w) => at_most_once(w, ".openclaw/workspace/"@),
                None => true,
            },
    ensures
        migrated(migrated(cfg, home), later) == migrated(cfg, home),
{
    let once = migrated(cfg, home);
    let brain = cfg.brain.workspace;
    assert forall|i: int| 0 <= i < cfg.agents.len() implies !needs_migration(
        #[trigger] once.agents[i],
        brain,
        later,
    ) by {
        let agent = cfg.agents[i];
        if let Some(w) = agent.workspace {
            if legacy_suffix(w) is Some {
                lemma_moved_is_not_legacy(w, brain, home);
                lemma_moved_is_not_legacy(w, brain, later);
                lemma_absolute_stays(brain, home, later);
            }
        }
    }
    assert(migrated(once, later).agents =~= once.agents);
}

proof fn lemma_absolute_stays(brain: Seq<char>, home: Option<Seq<char>>, later: Option<Seq<char>>)
    requires
        has_prefix(brain, "/"@),
    ensures
        resolved_text(brain, home) == resolved_text(brain, later),
{
    reveal_strlit("/");
    reveal_strlit("~/");
    assert(brain.take(1)[0] == '/');
    if has_prefix(brain, "~/"@) {
        assert(brain.take(2)[0] == '~');
    }
}

/// A migration keeps every agent, in its place, with its id and its name.
pub proof fn law_migration_keeps_agents(cfg: ConfigView, home: Option<Seq<char>>, i: int)
    requires
        0 <= i < cfg.agents.len(),
    ensures
        migrated(cfg, home).agents.len() == cfg.agents.len(),
        migrated(cfg, home).agents[i].id == cfg.agents[i].id,
        migrated(cfg, home).agents[i].name == cfg.agents[i].name,
        migrated(cfg, home).agents[i].workspace is Some <==> cfg.agents[i].workspace is Some,
{
}

} // verus!
