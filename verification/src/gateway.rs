//! What the gateway runs with, and where its chat endpoint is found.
use crate::config::{AppConfig, ConfigView};
use crate::number::{decimal, decimal_text};
use crate::slack::{
    setup_error, slack_runtime, validate_slack_runtime, SlackRuntime, SlackSetupError,
};
use crate::text::{copy_text, opt_str, trim_end_matches, trim_end_of, CharSet};
use vstd::prelude::*;

verus! {

/// Where the gateway listens: as the configuration says, unless it is told
/// otherwise.
pub open spec fn gateway_address(cfg: ConfigView, host: Option<Seq<char>>, port: Option<u16>) -> (
    Seq<char>,
    u16,
) {
    (
        match host {
            Some(h) => h,
            None => cfg.gateway.host,
        },
        match port {
            Some(p) => p,
            None => cfg.gateway.port,
        },
    )
}

/// What the gateway runs with: where it listens, and what it knows of Slack.
#[derive(Debug)]
pub struct GatewayPlan {
    pub host: String,
    pub port: u16,
    pub slack: SlackRuntime,
}

/// What the gateway runs with, unless Slack is wanted and cannot work.
pub fn run_gateway(cfg: &AppConfig, host_override: Option<&str>, port_override: Option<u16>) -> (r:
    Result<GatewayPlan, SlackSetupError>)
    ensures
        match r {
            Ok(plan) => setup_error(cfg@.slack) is None && plan.slack@ == cfg@.slack && (
                plan.host@,
                plan.port,
            ) == gateway_address(cfg@, opt_str(host_override), port_override),
            Err(e) => setup_error(cfg@.slack) == Some(e),
        },
{
    let slack = slack_runtime(&cfg.slack);
    if let Err(e) = validate_slack_runtime(&slack) {
        return Err(e);
    }
    let host = match host_override {
        Some(h) => copy_text(h),
        None => cfg.gateway.host.clone(),
    };
    let port: u16 = match port_override {
        Some(p) => p,
        None => cfg.gateway.port,
    };
    Ok(GatewayPlan { host, port, slack })
}

/// Where the gateway is found: as the configuration says, unless it is told
/// otherwise.
pub open spec fn gateway_url(cfg: ConfigView, url: Option<Seq<char>>) -> Seq<char> {
    match url {
        Some(u) => u,
        None => "http://"@ + cfg.gateway.host + ":"@ + decimal(cfg.gateway.port as nat),
    }
}

/// Where the gateway is found.
pub fn base_url(cfg: &AppConfig, url: Option<&str>) -> (r: String)
    ensures
        r@ == gateway_url(cfg@, opt_str(url)),
{
    match url {
        Some(u) => copy_text(u),
        None => {
            let mut out = copy_text("http://");
            out.append(cfg.gateway.host.as_str());
            out.append(":");
            out.append(decimal_text(cfg.gateway.port as u64).as_str());
            out
        },
    }
}

/// Where the chat endpoint of a gateway is found.
pub open spec fn chat_url(base: Seq<char>) -> Seq<char> {
    trim_end_of(base, CharSet::OneOf("/")) + "/api/chat"@
}

/// Where the chat endpoint of a gateway is found.
pub fn api_url(base: &str) -> (r: String)
    ensures
        r@ == chat_url(base@),
{
    let mut out = copy_text(trim_end_matches(base, &CharSet::OneOf("/")));
    out.append("/api/chat");
    out
}

} // verus!
