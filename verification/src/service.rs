//! The single entry point for plan generation: which source a plan comes
//! from, and what every plan goes through before it is handed out.
use vstd::prelude::*;
use crate::config::{AppConfig, RunMode};
use crate::planner::{
    normalize_plan, normalized_plan, offline_plan, offline_plan_view, RobotPlan,
};
use crate::text::{lowercase, trimmed};

verus! {

/// Whether a configuration with `mode` asks the online model: always in
/// online mode, never in offline mode, and in auto mode exactly when an API
/// key is configured.
pub open spec fn uses_online(mode: RunMode, has_api_key: bool) -> bool {
    match mode {
        RunMode::Offline => false,
        RunMode::Online => true,
        RunMode::Auto => has_api_key,
    }
}

/// Whether plans for `config` are asked of the online model first.
pub fn should_use_online(config: &AppConfig) -> (b: bool)
    ensures
        b == uses_online(config.mode, config.api_key is Some),
{
    match config.mode {
        RunMode::Offline => false,
        RunMode::Online => true,
        RunMode::Auto => config.can_use_online_model(),
    }
}

/// `config` with its mode replaced by `mode` when one is given.
pub fn config_with_mode(config: &AppConfig, mode: Option<RunMode>) -> (c: AppConfig)
    ensures
        c.mode == match mode {
            Some(m) => m,
            None => config.mode,
        },
        c.api_base_url@ == config.api_base_url@,
        c.api_key is Some == config.api_key is Some,
        c.api_key is Some ==> c.api_key->0@ == config.api_key->0@,
        c.model@ == config.model@,
        c.robot_name@ == config.robot_name@,
        c.max_linear_speed == config.max_linear_speed,
        c.max_angular_speed == config.max_angular_speed,
{
    let mut c = config.duplicate();
    if let Some(m) = mode {
        c.mode = m;
    }
    c
}

/// The plan handed out for `prompt`, given what the online model returned:
/// `online` is the online plan when one was asked for and came back, and
/// `None` when none was asked for or the request failed. An online plan
/// with actions is normalised; otherwise (no online plan, or one without
/// actions) the offline plan for the prompt is normalised instead.
pub fn resolve_plan(prompt: &str, config: &AppConfig, online: Option<RobotPlan>) -> (r: RobotPlan)
    ensures
        r@ == normalized_plan(
            match online {
                Some(p) if p@.actions.len() > 0 => p@,
                _ => offline_plan_view(
                    trimmed(prompt@),
                    lowercase(trimmed(prompt@)),
                    config.max_linear_speed as int,
                    config.max_angular_speed as int,
                ),
            },
            config.max_linear_speed as int,
            config.max_angular_speed as int,
        ),
{
    let plan = match online {
        Some(p) => {
            if p.actions.len() > 0 {
                p
            } else {
                offline_plan(prompt, config)
            }
        },
        None => offline_plan(prompt, config),
    };
    proof {
        crate::planner::lemma_offline_plan_has_actions(
            trimmed(prompt@),
            lowercase(trimmed(prompt@)),
            config.max_linear_speed as int,
            config.max_angular_speed as int,
        );
    }
    match normalize_plan(plan, config) {
        Ok(p) => p,
        Err(_) => {
            proof {
                assert(false);
            }
            RobotPlan { summary: String::new(), actions: Vec::new(), safety_notes: Vec::new() }
        },
    }
}

/// Trimming a prompt before planning changes nothing: the gateway and the
/// command line hand over trimmed prompts, and the offline plan of a
/// trimmed prompt is the offline plan of the prompt itself.
pub proof fn lemma_offline_plan_ignores_trimming(prompt: Seq<char>, max_linear: int, max_angular: int)
    ensures
        offline_plan_view(
            trimmed(trimmed(prompt)),
            lowercase(trimmed(trimmed(prompt))),
            max_linear,
            max_angular,
        ) == offline_plan_view(trimmed(prompt), lowercase(trimmed(prompt)), max_linear, max_angular),
{
    crate::text::lemma_trim_idempotent(prompt);
}

/// The online model is asked only when the mode allows it: never in offline
/// mode, whatever key is configured; always in online mode; in auto mode
/// exactly when a key is configured.
pub proof fn lemma_online_only_when_allowed(has_api_key: bool)
    ensures
        !uses_online(RunMode::Offline, has_api_key),
        uses_online(RunMode::Online, has_api_key),
        uses_online(RunMode::Auto, has_api_key) == has_api_key,
{
}

} // verus!
