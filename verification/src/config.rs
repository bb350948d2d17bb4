//! Run modes and the controller's configuration.
use vstd::prelude::*;
use crate::text::{all_white_space, is_blank, lowercase, str_equal, to_lowercase};

verus! {

/// Whether plans come from the online model, from the offline keyword rules,
/// or from whichever is available.
#[derive(Debug, Clone, Copy, PartialEq, Eq)]
pub enum RunMode {
    Auto,
    Online,
    Offline,
}

/// The controller's configuration.
///
/// Speed limits are fixed-point numbers in thousandths: `max_linear_speed`
/// in mm/s (thousandths of m/s) and `max_angular_speed` in mrad/s.
#[derive(Debug, Clone)]
pub struct AppConfig {
    pub mode: RunMode,
    pub api_base_url: String,
    pub api_key: Option<String>,
    pub model: String,
    pub robot_name: String,
    pub max_linear_speed: i32,
    pub max_angular_speed: i32,
}

impl AppConfig {
    /// An online model can be used once an API key is configured.
    pub fn can_use_online_model(&self) -> (b: bool)
        ensures
            b == self.api_key is Some,
    {
        self.api_key.is_some()
    }

    /// A copy of this configuration with every field equal.
    pub fn duplicate(&self) -> (c: AppConfig)
        ensures
            c.mode == self.mode,
            c.api_base_url@ == self.api_base_url@,
            c.api_key is Some == self.api_key is Some,
            c.api_key is Some ==> c.api_key->0@ == self.api_key->0@,
            c.model@ == self.model@,
            c.robot_name@ == self.robot_name@,
            c.max_linear_speed == self.max_linear_speed,
            c.max_angular_speed == self.max_angular_speed,
    {
        let api_key = match &self.api_key {
            Some(k) => Some(k.clone()),
            None => None,
        };
        AppConfig {
            mode: self.mode,
            api_base_url: self.api_base_url.clone(),
            api_key,
            model: self.model.clone(),
            robot_name: self.robot_name.clone(),
            max_linear_speed: self.max_linear_speed,
            max_angular_speed: self.max_angular_speed,
        }
    }
}

/// The run mode that an already lower-cased mode setting names: `online`,
/// `offline`, and `Auto` for anything else.
pub open spec fn mode_of_lowered(lower: Seq<char>) -> RunMode {
    if lower == "online"@ {
        RunMode::Online
    } else if lower == "offline"@ {
        RunMode::Offline
    } else {
        RunMode::Auto
    }
}

/// The run mode that a mode setting names: `online` and `offline` in any
/// letter case, and `Auto` for anything else.
pub open spec fn mode_named(value: Seq<char>) -> RunMode {
    mode_of_lowered(lowercase(value))
}

/// The run mode that a lower-cased mode setting names.
pub fn mode_from_lowered(lower: &str) -> (m: RunMode)
    ensures
        m == mode_of_lowered(lower@),
{
    if str_equal(lower, "online") {
        RunMode::Online
    } else if str_equal(lower, "offline") {
        RunMode::Offline
    } else {
        RunMode::Auto
    }
}

/// Reads a mode setting (the `ROBOT_DOG_MODE` value); an absent setting
/// means `Auto`.
pub fn run_mode_from_setting(value: Option<&str>) -> (m: RunMode)
    ensures
        m == match value {
            Some(v) => mode_named(v@),
            None => RunMode::Auto,
        },
{
    match value {
        None => RunMode::Auto,
        Some(v) => {
            let lower = to_lowercase(v);
            mode_from_lowered(lower.as_str())
        },
    }
}

/// Keeps an API key setting only when it holds something besides whitespace.
pub fn api_key_from_setting(value: Option<String>) -> (k: Option<String>)
    ensures
        match value {
            Some(v) => if all_white_space(v@) {
                k is None
            } else {
                k == Some(v)
            },
            None => k is None,
        },
{
    match value {
        Some(v) => {
            if is_blank(v.as_str()) {
                None
            } else {
                Some(v)
            }
        },
        None => None,
    }
}

/// The mode given on the command line wins over the configured one.
pub fn choose_mode(mode_override: Option<RunMode>, configured: RunMode) -> (m: RunMode)
    ensures
        m == match mode_override {
            Some(o) => o,
            None => configured,
        },
{
    match mode_override {
        Some(o) => o,
        None => configured,
    }
}

/// The configured mode: the command line's, else the mode setting's, else
/// `Auto`.
pub open spec fn configured_mode(mode_override: Option<RunMode>, setting: Option<Seq<char>>) -> RunMode {
    match mode_override {
        Some(o) => o,
        None => match setting {
            Some(v) => mode_named(v),
            None => RunMode::Auto,
        },
    }
}

/// `value`, or the text `default` when there is none.
fn or_default(value: Option<String>, default: &str) -> (s: String)
    ensures
        s@ == match value {
            Some(v) => v@,
            None => default@,
        },
{
    match value {
        Some(v) => v,
        None => String::from_str(default),
    }
}

/// The configuration from its settings, each absent one taking its default:
/// the mode given on the command line, else the mode setting, else `Auto`;
/// base URL `https://api.openai.com`; an API key only when not blank; model
/// `gpt-4o-mini`; robot `mini_pupper_2`; speed limits 0.25 m/s and
/// 1.2 rad/s (250 and 1200 thousandths).
pub fn config_from_settings(
    mode_override: Option<RunMode>,
    mode_setting: Option<&str>,
    api_base_url: Option<String>,
    api_key: Option<String>,
    model: Option<String>,
    robot_name: Option<String>,
    max_linear_speed: Option<i32>,
    max_angular_speed: Option<i32>,
) -> (c: AppConfig)
    ensures
        c.mode == configured_mode(
            mode_override,
            match mode_setting {
                Some(v) => Some(v@),
                None => None,
            },
        ),
        c.api_base_url@ == match api_base_url {
            Some(u) => u@,
            None => "https://api.openai.com"@,
        },
        match api_key {
            Some(k) => if all_white_space(k@) {
                c.api_key is None
            } else {
                c.api_key == Some(k)
            },
            None => c.api_key is None,
        },
        c.model@ == match model {
            Some(m) => m@,
            None => "gpt-4o-mini"@,
        },
        c.robot_name@ == match robot_name {
            Some(r) => r@,
            None => "mini_pupper_2"@,
        },
        c.max_linear_speed == match max_linear_speed {
            Some(l) => l,
            None => 250,
        },
        c.max_angular_speed == match max_angular_speed {
            Some(a) => a,
            None => 1200,
        },
{
    let configured = run_mode_from_setting(mode_setting);
    AppConfig {
        mode: choose_mode(mode_override, configured),
        api_base_url: or_default(api_base_url, "https://api.openai.com"),
        api_key: api_key_from_setting(api_key),
        model: or_default(model, "gpt-4o-mini"),
        robot_name: or_default(robot_name, "mini_pupper_2"),
        max_linear_speed: match max_linear_speed {
            Some(l) => l,
            None => 250,
        },
        max_angular_speed: match max_angular_speed {
            Some(a) => a,
            None => 1200,
        },
    }
}

} // verus!
