//! Setting up: what the answers to the questions make of a configuration.
use crate::config::{
    agent_views, AgentConfig, AgentView, AppConfig, BrainView, ConfigView, GatewayView,
    SlackView,
};
use crate::text::{copy_text, opt_text, present, same_text, trim, trim_present, trimmed};
use vstd::prelude::*;

verus! {

/// What is answered where Slack is wanted.
#[derive(Debug)]
pub struct SlackAnswers {
    pub bot_token: String,
    pub signing_secret: String,
    pub app_token: String,
    pub default_channel: String,
}

#[verifier::ext_equal]
pub struct SlackAnswersView {
    pub bot_token: Seq<char>,
    pub signing_secret: Seq<char>,
    pub app_token: Seq<char>,
    pub default_channel: Seq<char>,
}

impl View for SlackAnswers {
    type V = SlackAnswersView;

    open spec fn view(&self) -> SlackAnswersView {
        SlackAnswersView {
            bot_token: self.bot_token@,
            signing_secret: self.signing_secret@,
            app_token: self.app_token@,
            default_channel: self.default_channel@,
        }
    }
}

/// What is answered to the questions.
#[derive(Debug)]
pub struct Answers {
    pub workspace: String,
    pub model: String,
    pub host: String,
    pub port: u16,
    pub slack: Option<SlackAnswers>,
}

pub struct AnswersView {
    pub workspace: Seq<char>,
    pub model: Seq<char>,
    pub host: Seq<char>,
    pub port: u16,
    pub slack: Option<SlackAnswersView>,
}

impl View for Answers {
    type V = AnswersView;

    open spec fn view(&self) -> AnswersView {
        AnswersView {
            workspace: self.workspace@,
            model: self.model@,
            host: self.host@,
            port: self.port,
            slack: match self.slack {
                Some(s) => Some(s@),
                None => None,
            },
        }
    }
}

/// A text, where it is more than white space.
pub open spec fn filled(value: Seq<char>) -> Option<Seq<char>> {
    if trimmed(value).len() == 0 {
        None
    } else {
        Some(value)
    }
}

fn keep_filled(value: String) -> (r: Option<String>)
    ensures
        opt_text(r) == filled(value@),
{
    if trim(value.as_str()).is_empty() {
        None
    } else {
        Some(value)
    }
}

/// What is known of Slack after the answers. A token that is left out keeps the
/// one that was there; where Slack is not wanted, all of it is forgotten.
pub open spec fn slack_answered(slack: SlackView, answers: Option<SlackAnswersView>) -> SlackView {
    match answers {
        Some(a) => SlackView {
            enabled: true,
            bot_token: if filled(a.bot_token) is Some {
                Some(a.bot_token)
            } else {
                match slack.bot_token {
                    Some(old) => filled(old),
                    None => None,
                }
            },
            signing_secret: filled(a.signing_secret),
            app_token: filled(a.app_token),
            default_channel: filled(a.default_channel),
            ..slack
        },
        None => SlackView {
            enabled: false,
            bot_token: None,
            signing_secret: None,
            app_token: None,
            default_channel: None,
            bot_user_id: None,
            ..slack
        },
    }
}

/// A configuration after the answers.
pub open spec fn answered(cfg: ConfigView, answers: AnswersView) -> ConfigView {
    ConfigView {
        brain: BrainView {
            workspace: answers.workspace,
            model: present(Some(answers.model)),
            ..cfg.brain
        },
        gateway: GatewayView { host: answers.host, port: answers.port },
        slack: slack_answered(cfg.slack, answers.slack),
        ..cfg
    }
}

/// Puts the answers into a configuration.
pub fn run_onboarding(cfg: &mut AppConfig, answers: Answers)
    ensures
        final(cfg)@ == answered(old(cfg)@, answers@),
{
    cfg.brain.workspace = answers.workspace;
    cfg.brain.model = match trim_present(Some(answers.model.as_str())) {
        Some(m) => Some(copy_text(m)),
        None => None,
    };
    cfg.gateway.host = answers.host;
    cfg.gateway.port = answers.port;
    match answers.slack {
        Some(a) => {
            cfg.slack.enabled = true;
            let token = keep_filled(a.bot_token);
            if token.is_some() {
                cfg.slack.bot_token = token;
            } else {
                cfg.slack.bot_token = match &cfg.slack.bot_token {
                    Some(old) => keep_filled(old.clone()),
                    None => None,
                };
            }
            cfg.slack.signing_secret = keep_filled(a.signing_secret);
            cfg.slack.app_token = keep_filled(a.app_token);
            cfg.slack.default_channel = keep_filled(a.default_channel);
        },
        None => {
            cfg.slack.enabled = false;
            cfg.slack.bot_token = None;
            cfg.slack.signing_secret = None;
            cfg.slack.app_token = None;
            cfg.slack.default_channel = None;
            cfg.slack.bot_user_id = None;
        },
    }
}

/// The index of the first agent named `main`; the number of agents where there is
/// none.
pub open spec fn main_index(agents: Seq<AgentView>) -> int
    decreases agents.len(),
{
    if agents.len() == 0 || agents[0].id == "main"@ {
        0
    } else {
        1 + main_index(agents.skip(1))
    }
}

/// The index of the main agent, where there is one: its soul is asked for.
pub fn find_main_agent(agents: &Vec<AgentConfig>) -> (r: Option<usize>)
    ensures
        match r {
            Some(i) => i < agents@.len() && i == main_index(agent_views(agents@)),
            None => main_index(agent_views(agents@)) == agents@.len(),
        },
{
    let ghost all = agent_views(agents@);
    let mut i: usize = 0;
    assert(all.skip(0) == all);
    while i < agents.len()
        invariant
            i <= agents@.len(),
            all == agent_views(agents@),
            main_index(all) == i + main_index(all.skip(i as int)),
        decreases agents@.len() - i,
    {
        assert(all.skip(i as int)[0] == agents@[i as int]@);
        assert(all.skip(i as int).skip(1) == all.skip(i + 1));
        if same_text(agents[i].id.as_str(), "main") {
            return Some(i);
        }
        i += 1;
    }
    None
}

/// A configuration with a soul for the main agent, where there is one.
pub open spec fn with_main_soul(cfg: ConfigView, soul: Seq<char>) -> ConfigView {
    let i = main_index(cfg.agents);
    if i < cfg.agents.len() {
        ConfigView {
            agents: cfg.agents.update(
                i,
                AgentView { name: "Main Brain"@, soul, ..cfg.agents[i] },
            ),
            ..cfg
        }
    } else {
        cfg
    }
}

/// Gives the main agent a soul, where there is one.
pub fn set_main_soul(cfg: &mut AppConfig, soul: &str)
    ensures
        final(cfg)@ == with_main_soul(old(cfg)@, soul@),
{
    let ghost before = cfg@;
    if let Some(i) = find_main_agent(&cfg.agents) {
        let mut agent = cfg.agents[i].clone();
        assert(agent@ == before.agents[i as int]);
        agent.name = copy_text("Main Brain");
        agent.soul = copy_text(soul);
        let ghost changed = agent@;
        cfg.agents.set(i, agent);
        assert(cfg@.agents =~= before.agents.update(i as int, changed));
    }
}

// Laws.
/// Answers leave everything that was not asked for as it is.
pub proof fn law_answers_keep_the_rest(cfg: ConfigView, answers: AnswersView)
    ensures
        ({
            let after = answered(cfg, answers);
            &&& after.version == cfg.version
            &&& after.agents == cfg.agents
            &&& after.memory == cfg.memory
            &&& after.brain.provider == cfg.brain.provider
            &&& after.slack.mode == cfg.slack.mode
        }),
{
}

/// Where Slack is not wanted, nothing of it is kept that could be used to reach
/// it.
pub proof fn law_no_slack_keeps_no_tokens(cfg: ConfigView, answers: AnswersView)
    requires
        answers.slack is None,
    ensures
        ({
            let slack = answered(cfg, answers).slack;
            !slack.enabled && slack.bot_token is None && slack.signing_secret is None
                && slack.app_token is None && slack.default_channel is None && slack.bot_user_id
                is None
        }),
{
}

} // verus!
