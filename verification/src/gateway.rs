//! The decisions of the edge gateway's HTTP interface: request modes and
//! formats, the health report, prompt acceptance and the plan reply.
use vstd::prelude::*;
use crate::config::{mode_of_lowered, AppConfig, RunMode};
use crate::driver::render_output;
use crate::planner::{plan_script, plan_text, RobotPlan};
use crate::text::{trim, trimmed};

verus! {

/// What the gateway serves with: the configuration.
#[derive(Clone)]
pub struct GatewayState {
    pub config: AppConfig,
}

/// The plan source a request asks for.
#[derive(Debug, Clone, Copy, PartialEq, Eq)]
pub enum RequestMode {
    Auto,
    Online,
    Offline,
}

/// The rendering a request asks for.
#[derive(Debug, Clone, Copy, PartialEq, Eq)]
pub enum ResponseFormat {
    Text,
    Json,
    Ros2Script,
}

/// The run mode that a request mode stands for.
pub open spec fn run_mode_of(mode: RequestMode) -> RunMode {
    match mode {
        RequestMode::Auto => RunMode::Auto,
        RequestMode::Online => RunMode::Online,
        RequestMode::Offline => RunMode::Offline,
    }
}

/// The wire name of a run mode.
pub open spec fn mode_name(mode: RunMode) -> Seq<char> {
    match mode {
        RunMode::Auto => "auto"@,
        RunMode::Online => "online"@,
        RunMode::Offline => "offline"@,
    }
}

/// The wire name of a response format.
pub open spec fn format_name(format: ResponseFormat) -> Seq<char> {
    match format {
        ResponseFormat::Text => "text"@,
        ResponseFormat::Json => "json"@,
        ResponseFormat::Ros2Script => "ros2_script"@,
    }
}

/// The run mode that a request mode stands for.
pub fn map_request_mode_to_run_mode(mode: RequestMode) -> (m: RunMode)
    ensures
        m == run_mode_of(mode),
{
    match mode {
        RequestMode::Auto => RunMode::Auto,
        RequestMode::Online => RunMode::Online,
        RequestMode::Offline => RunMode::Offline,
    }
}

/// The wire name of a run mode.
pub fn mode_to_string(mode: RunMode) -> (s: String)
    ensures
        s@ == mode_name(mode),
{
    match mode {
        RunMode::Auto => String::from_str("auto"),
        RunMode::Online => String::from_str("online"),
        RunMode::Offline => String::from_str("offline"),
    }
}

/// The wire name of a response format.
pub fn format_to_string(format: ResponseFormat) -> (s: String)
    ensures
        s@ == format_name(format),
{
    match format {
        ResponseFormat::Text => String::from_str("text"),
        ResponseFormat::Json => String::from_str("json"),
        ResponseFormat::Ros2Script => String::from_str("ros2_script"),
    }
}

/// What the health endpoint reports.
pub struct HealthReport {
    pub status: String,
    pub gateway: String,
    pub robot_name: String,
    pub mode: String,
}

/// The health report: status `ok`, the gateway's name, the robot's name and
/// the configured mode.
pub fn health_report(config: &AppConfig) -> (h: HealthReport)
    ensures
        h.status@ == "ok"@,
        h.gateway@ == "robot-dog-edge-gateway"@,
        h.robot_name@ == config.robot_name@,
        h.mode@ == mode_name(config.mode),
{
    HealthReport {
        status: String::from_str("ok"),
        gateway: String::from_str("robot-dog-edge-gateway"),
        robot_name: config.robot_name.clone(),
        mode: mode_to_string(config.mode),
    }
}

/// Why the gateway refused a request.
#[derive(Debug, Clone, Copy, PartialEq, Eq)]
pub enum GatewayError {
    /// The prompt holds nothing but whitespace.
    EmptyPrompt,
}

impl GatewayError {
    /// The message sent back with the refusal.
    pub fn message(&self) -> (m: String)
        ensures
            m@ == "prompt 不能为空"@,
    {
        String::from_str("prompt 不能为空")
    }
}

/// The trimmed prompt of a plan request, refused when it is blank.
pub fn accept_prompt(prompt: &str) -> (r: Result<String, GatewayError>)
    ensures
        match r {
            Ok(p) => trimmed(prompt@).len() > 0 && p@ == trimmed(prompt@),
            Err(e) => trimmed(prompt@).len() == 0 && e == GatewayError::EmptyPrompt,
        },
{
    let t = trim(prompt);
    if t.is_empty() {
        Err(GatewayError::EmptyPrompt)
    } else {
        Ok(t.to_owned())
    }
}

/// The format of a reply: the requested one, JSON by default.
pub fn response_format(format: Option<ResponseFormat>) -> (f: ResponseFormat)
    ensures
        f == match format {
            Some(x) => x,
            None => ResponseFormat::Json,
        },
{
    match format {
        Some(x) => x,
        None => ResponseFormat::Json,
    }
}

/// The parts of a plan reply besides the plan itself.
pub struct PlanReply {
    pub mode: String,
    pub format: String,
    pub rendered: String,
    pub ros2_script: String,
}

/// The reply to a plan request: the mode in effect (the requested one, else
/// the configured one), the format's name, the plan rendered in that format
/// (`json_text`, the plan's JSON rendering, for the JSON format), and the
/// ROS2 script in every case.
pub fn plan_reply(
    configured: RunMode,
    requested: Option<RunMode>,
    format: ResponseFormat,
    plan: &RobotPlan,
    json_text: String,
) -> (r: PlanReply)
    ensures
        r.mode@ == mode_name(
            match requested {
                Some(m) => m,
                None => configured,
            },
        ),
        r.format@ == format_name(format),
        r.rendered@ == match format {
            ResponseFormat::Text => plan_text(plan@),
            ResponseFormat::Json => json_text@,
            ResponseFormat::Ros2Script => plan_script(plan@),
        },
        r.ros2_script@ == plan_script(plan@),
{
    let mode = match requested {
        Some(m) => m,
        None => configured,
    };
    let ros2_script = render_output(plan, true);
    let rendered = match format {
        ResponseFormat::Text => render_output(plan, false),
        ResponseFormat::Json => json_text,
        ResponseFormat::Ros2Script => ros2_script.clone(),
    };
    PlanReply {
        mode: mode_to_string(mode),
        format: format_to_string(format),
        rendered,
        ros2_script,
    }
}

/// Each run mode has its own wire name, so a name tells its mode.
pub proof fn lemma_mode_names_distinct(a: RunMode, b: RunMode)
    ensures
        mode_name(a) == mode_name(b) ==> a == b,
{
    reveal_strlit("auto");
    reveal_strlit("online");
    reveal_strlit("offline");
    if a != b {
        assert(mode_name(a).len() != mode_name(b).len() || mode_name(a)[0] != mode_name(b)[0]);
    }
}

/// Each response format has its own wire name.
pub proof fn lemma_format_names_distinct(a: ResponseFormat, b: ResponseFormat)
    ensures
        format_name(a) == format_name(b) ==> a == b,
{
    reveal_strlit("text");
    reveal_strlit("json");
    reveal_strlit("ros2_script");
    if a != b {
        assert(format_name(a).len() != format_name(b).len() || format_name(a)[0] != format_name(
            b,
        )[0]);
    }
}

/// Every run mode can be requested, each by exactly one request mode.
pub proof fn lemma_request_modes_cover_run_modes(m: RunMode)
    ensures
        exists|r: RequestMode| run_mode_of(r) == m,
        forall|r1: RequestMode, r2: RequestMode|
            run_mode_of(r1) == run_mode_of(r2) ==> r1 == r2,
{
    match m {
        RunMode::Auto => assert(run_mode_of(RequestMode::Auto) == m),
        RunMode::Online => assert(run_mode_of(RequestMode::Online) == m),
        RunMode::Offline => assert(run_mode_of(RequestMode::Offline) == m),
    }
}

/// A mode's wire name, read back as a mode setting, names that mode again.
pub proof fn lemma_mode_name_round_trip(m: RunMode)
    ensures
        mode_of_lowered(mode_name(m)) == m,
{
    reveal_strlit("auto");
    reveal_strlit("online");
    reveal_strlit("offline");
    assert("auto"@.len() != "online"@.len());
    assert("auto"@.len() != "offline"@.len());
    assert("online"@.len() != "offline"@.len());
}

} // verus!
