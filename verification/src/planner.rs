//! Robot action plans: the offline keyword planner, the safety normalisation
//! that every plan passes before it is used, and the text and ROS2 renderings.
use vstd::prelude::*;
use crate::config::AppConfig;
use crate::text::{
    all_white_space, chars_of, contains_str, decimal_digits, digits_value, first_digit_run,
    fixed_text, float_rounded_count, float_rounded_count_exec, has_any_substring, has_substring, is_blank, is_digit, is_digit_char,
    is_white_space_char, leading_digits, lowercase, push_decimal, push_fixed, to_lowercase, trim,
    trimmed,
};

verus! {

/// Shortest duration, in milliseconds, that a normalised motion may last.
pub const MIN_DURATION_MS: u32 = 100;

/// Largest turn, in thousandths of a degree, that a normalised plan keeps.
pub const MAX_TURN_MILLIDEGREES: i64 = 180000;

/// One step of a plan.
///
/// Motion values are fixed-point numbers in thousandths: `linear_x` and
/// `linear_y` in mm/s, `angular_z` in mrad/s, `degrees` in thousandths of
/// a degree.
#[derive(Debug, Clone, PartialEq)]
pub enum RobotAction {
    Stand,
    Sit,
    LieDown,
    Stop,
    Wave,
    Dance,
    CameraScan,
    Speak { text: String },
    Move { linear_x: i64, linear_y: i64, angular_z: i64, duration_ms: u32 },
    Turn { degrees: i64, duration_ms: u32 },
}

/// The mathematical value of a `RobotAction`.
pub enum ActionView {
    Stand,
    Sit,
    LieDown,
    Stop,
    Wave,
    Dance,
    CameraScan,
    Speak { text: Seq<char> },
    Move { linear_x: int, linear_y: int, angular_z: int, duration_ms: nat },
    Turn { degrees: int, duration_ms: nat },
}

impl View for RobotAction {
    type V = ActionView;

    open spec fn view(&self) -> ActionView {
        match self {
            RobotAction::Stand => ActionView::Stand,
            RobotAction::Sit => ActionView::Sit,
            RobotAction::LieDown => ActionView::LieDown,
            RobotAction::Stop => ActionView::Stop,
            RobotAction::Wave => ActionView::Wave,
            RobotAction::Dance => ActionView::Dance,
            RobotAction::CameraScan => ActionView::CameraScan,
            RobotAction::Speak { text } => ActionView::Speak { text: text@ },
            RobotAction::Move { linear_x, linear_y, angular_z, duration_ms } => ActionView::Move {
                linear_x: *linear_x as int,
                linear_y: *linear_y as int,
                angular_z: *angular_z as int,
                duration_ms: *duration_ms as nat,
            },
            RobotAction::Turn { degrees, duration_ms } => ActionView::Turn {
                degrees: *degrees as int,
                duration_ms: *duration_ms as nat,
            },
        }
    }
}

/// A plan: a one-line summary, the actions in order, and safety notes.
#[derive(Debug, Clone, PartialEq)]
pub struct RobotPlan {
    pub summary: String,
    pub actions: Vec<RobotAction>,
    pub safety_notes: Vec<String>,
}

/// The mathematical value of a `RobotPlan`.
pub struct PlanView {
    pub summary: Seq<char>,
    pub actions: Seq<ActionView>,
    pub safety_notes: Seq<Seq<char>>,
}

/// The views of a list of actions.
pub open spec fn action_views(actions: Seq<RobotAction>) -> Seq<ActionView> {
    actions.map_values(|a: RobotAction| a@)
}

/// The views of a list of strings.
pub open spec fn string_views(strings: Seq<String>) -> Seq<Seq<char>> {
    strings.map_values(|s: String| s@)
}

impl View for RobotPlan {
    type V = PlanView;

    open spec fn view(&self) -> PlanView {
        PlanView {
            summary: self.summary@,
            actions: action_views(self.actions@),
            safety_notes: string_views(self.safety_notes@),
        }
    }
}

/// Why a plan was refused.
#[derive(Debug, Clone, Copy, PartialEq, Eq)]
pub enum PlanError {
    /// The plan holds no action.
    EmptyPlan,
}

impl PlanError {
    /// The message shown to the user.
    pub fn message(&self) -> (m: String)
        ensures
            m@ == "动作计划为空"@,
    {
        String::from_str("动作计划为空")
    }
}

fn push_action(actions: &mut Vec<RobotAction>, a: RobotAction)
    ensures
        action_views(final(actions)@) == action_views(old(actions)@).push(a@),
{
    let ghost before = actions@;
    actions.push(a);
    assert(action_views(actions@) =~= action_views(before).push(a@));
}

fn push_string(strings: &mut Vec<String>, s: String)
    ensures
        string_views(final(strings)@) == string_views(old(strings)@).push(s@),
{
    let ghost before = strings@;
    strings.push(s);
    assert(string_views(strings@) =~= string_views(before).push(s@));
}

// ---------------------------------------------------------------------------
// Normalisation
// ---------------------------------------------------------------------------

/// `value` raised to `min` if below it, then lowered to `max` if above it.
pub open spec fn clamp_int(value: int, min: int, max: int) -> int {
    let raised = if value < min {
        min
    } else {
        value
    };
    if raised > max {
        max
    } else {
        raised
    }
}

/// A duration raised to the shortest allowed one.
pub open spec fn normalized_duration(d: nat) -> nat {
    if d < MIN_DURATION_MS {
        MIN_DURATION_MS as nat
    } else {
        d
    }
}

/// An action after normalisation under the speed limits `max_linear` and
/// `max_angular`: speeds clamped to the limits, turns to half a circle
/// either way, durations raised to the shortest allowed one.
pub open spec fn normalized_action(a: ActionView, max_linear: int, max_angular: int) -> ActionView {
    match a {
        ActionView::Move { linear_x, linear_y, angular_z, duration_ms } => ActionView::Move {
            linear_x: clamp_int(linear_x, -max_linear, max_linear),
            linear_y: clamp_int(linear_y, -max_linear, max_linear),
            angular_z: clamp_int(angular_z, -max_angular, max_angular),
            duration_ms: normalized_duration(duration_ms),
        },
        ActionView::Turn { degrees, duration_ms } => ActionView::Turn {
            degrees: clamp_int(degrees, -MAX_TURN_MILLIDEGREES, MAX_TURN_MILLIDEGREES as int),
            duration_ms: normalized_duration(duration_ms),
        },
        other => other,
    }
}

/// A non-empty plan after normalisation: every action normalised, a blank
/// summary replaced by a default one, and a default note when there is none.
pub open spec fn normalized_plan(p: PlanView, max_linear: int, max_angular: int) -> PlanView {
    PlanView {
        summary: if all_white_space(p.summary) {
            "动作计划"@
        } else {
            p.summary
        },
        actions: p.actions.map_values(|a: ActionView| normalized_action(a, max_linear, max_angular)),
        safety_notes: if p.safety_notes.len() == 0 {
            seq!["无额外安全提示"@]
        } else {
            p.safety_notes
        },
    }
}

/// `value` raised to `min` if below it, then lowered to `max` if above it.
pub fn clamp(value: i64, min: i64, max: i64) -> (r: i64)
    ensures
        r == clamp_int(value as int, min as int, max as int),
{
    let raised = if value < min {
        min
    } else {
        value
    };
    if raised > max {
        max
    } else {
        raised
    }
}

fn normalize_duration(d: u32) -> (r: u32)
    ensures
        r as nat == normalized_duration(d as nat),
{
    if d < MIN_DURATION_MS {
        MIN_DURATION_MS
    } else {
        d
    }
}

/// One action after normalisation under the configured speed limits.
pub fn normalize_action(action: &RobotAction, config: &AppConfig) -> (r: RobotAction)
    ensures
        r@ == normalized_action(
            action@,
            config.max_linear_speed as int,
            config.max_angular_speed as int,
        ),
{
    let lin = config.max_linear_speed as i64;
    let ang = config.max_angular_speed as i64;
    match action {
        RobotAction::Move { linear_x, linear_y, angular_z, duration_ms } => RobotAction::Move {
            linear_x: clamp(*linear_x, -lin, lin),
            linear_y: clamp(*linear_y, -lin, lin),
            angular_z: clamp(*angular_z, -ang, ang),
            duration_ms: normalize_duration(*duration_ms),
        },
        RobotAction::Turn { degrees, duration_ms } => RobotAction::Turn {
            degrees: clamp(*degrees, -MAX_TURN_MILLIDEGREES, MAX_TURN_MILLIDEGREES),
            duration_ms: normalize_duration(*duration_ms),
        },
        RobotAction::Stand => RobotAction::Stand,
        RobotAction::Sit => RobotAction::Sit,
        RobotAction::LieDown => RobotAction::LieDown,
        RobotAction::Stop => RobotAction::Stop,
        RobotAction::Wave => RobotAction::Wave,
        RobotAction::Dance => RobotAction::Dance,
        RobotAction::CameraScan => RobotAction::CameraScan,
        RobotAction::Speak { text } => RobotAction::Speak { text: text.clone() },
    }
}

/// Makes a plan safe to run: refuses a plan without actions; otherwise
/// clamps every speed to the configured limits and every turn to half a
/// circle, raises durations to at least `MIN_DURATION_MS`, fills in a blank
/// summary and adds a note when there is none.
pub fn normalize_plan(plan: RobotPlan, config: &AppConfig) -> (r: Result<RobotPlan, PlanError>)
    ensures
        match r {
            Ok(p) => plan@.actions.len() > 0 && p@ == normalized_plan(
                plan@,
                config.max_linear_speed as int,
                config.max_angular_speed as int,
            ),
            Err(e) => plan@.actions.len() == 0 && e == PlanError::EmptyPlan,
        },
{
    if plan.actions.len() == 0 {
        return Err(PlanError::EmptyPlan);
    }
    let ghost lin = config.max_linear_speed as int;
    let ghost ang = config.max_angular_speed as int;
    let ghost src = plan@.actions;
    let mut normalized: Vec<RobotAction> = Vec::new();
    let mut i: usize = 0;
    while i < plan.actions.len()
        invariant
            i <= plan.actions.len(),
            src == action_views(plan.actions@),
            lin == config.max_linear_speed as int,
            ang == config.max_angular_speed as int,
            action_views(normalized@) == src.take(i as int).map_values(
                |a: ActionView| normalized_action(a, lin, ang),
            ),
        decreases plan.actions.len() - i,
    {
        let a = normalize_action(&plan.actions[i], config);
        let ghost before = action_views(normalized@);
        push_action(&mut normalized, a);
        assert(src.take(i + 1).map_values(|a: ActionView| normalized_action(a, lin, ang))
            =~= before.push(normalized_action(src[i as int], lin, ang)));
        i = i + 1;
    }
    assert(src.take(i as int) =~= src);
    let summary = if is_blank(plan.summary.as_str()) {
        String::from_str("动作计划")
    } else {
        plan.summary
    };
    let mut safety_notes = plan.safety_notes;
    if safety_notes.len() == 0 {
        push_string(&mut safety_notes, String::from_str("无额外安全提示"));
        assert(string_views(safety_notes@) =~= seq!["无额外安全提示"@]);
    }
    let result = RobotPlan { summary, actions: normalized, safety_notes };
    assert(result@.actions =~= src.map_values(|a: ActionView| normalized_action(a, lin, ang)));
    Ok(result)
}

// ---------------------------------------------------------------------------
// Offline keyword planner
// ---------------------------------------------------------------------------

/// The views of a list of string slices.
pub open spec fn str_views(pats: Seq<&str>) -> Seq<Seq<char>> {
    pats.map_values(|p: &str| p@)
}

/// Whether any of `patterns` occurs in `text`.
pub fn contains_any(text: &str, patterns: &[&str]) -> (b: bool)
    ensures
        b == has_any_substring(text@, str_views(patterns@)),
{
    let ghost pats = str_views(patterns@);
    let mut k: usize = 0;
    while k < patterns.len()
        invariant
            k <= patterns.len(),
            pats == str_views(patterns@),
            forall|j: int| 0 <= j < k ==> !has_substring(text@, #[trigger] pats[j]),
        decreases patterns.len() - k,
    {
        if contains_str(text, patterns[k]) {
            assert(has_substring(text@, pats[k as int]));
            return true;
        }
        k = k + 1;
    }
    false
}

/// Words that ask the robot to stand up.
pub open spec fn stand_words() -> Seq<Seq<char>> {
    seq!["站"@, "stand"@, "起立"@]
}

/// Words that ask the robot to sit.
pub open spec fn sit_words() -> Seq<Seq<char>> {
    seq!["坐"@, "sit"@]
}

/// Words that ask the robot to lie down.
pub open spec fn lie_down_words() -> Seq<Seq<char>> {
    seq!["趴"@, "lie"@, "down"@]
}

/// Words that ask the robot to stop.
pub open spec fn stop_words() -> Seq<Seq<char>> {
    seq!["停"@, "stop"@]
}

/// Words that ask the robot to wave.
pub open spec fn wave_words() -> Seq<Seq<char>> {
    seq!["挥手"@, "wave"@]
}

/// Words that ask the robot to dance.
pub open spec fn dance_words() -> Seq<Seq<char>> {
    seq!["跳舞"@, "dance"@]
}

/// Words that ask for a camera scan.
pub open spec fn camera_words() -> Seq<Seq<char>> {
    seq!["看"@, "扫"@, "camera"@, "拍照"@, "巡检"@]
}

/// Words that ask the robot to speak.
pub open spec fn speak_words() -> Seq<Seq<char>> {
    seq!["说"@, "讲"@, "speak"@, "voice"@]
}

/// Words that ask for motion at all.
pub open spec fn motion_words() -> Seq<Seq<char>> {
    seq!["前进"@, "后退"@, "左转"@, "右转"@, "move"@, "turn"@, "走"@]
}

/// `s` with `a` appended when `cond` holds.
pub open spec fn push_if(s: Seq<ActionView>, cond: bool, a: ActionView) -> Seq<ActionView> {
    if cond {
        s.push(a)
    } else {
        s
    }
}

/// The actions that keywords of the lower-cased prompt ask for, in the fixed
/// order stand, sit, lie down, stop, wave, dance, camera scan, speak; a
/// spoken action repeats the prompt `text`.
pub open spec fn keyword_actions(text: Seq<char>, lower: Seq<char>) -> Seq<ActionView> {
    let s0 = Seq::<ActionView>::empty();
    let s1 = push_if(s0, has_any_substring(lower, stand_words()), ActionView::Stand);
    let s2 = push_if(s1, has_any_substring(lower, sit_words()), ActionView::Sit);
    let s3 = push_if(s2, has_any_substring(lower, lie_down_words()), ActionView::LieDown);
    let s4 = push_if(s3, has_any_substring(lower, stop_words()), ActionView::Stop);
    let s5 = push_if(s4, has_any_substring(lower, wave_words()), ActionView::Wave);
    let s6 = push_if(s5, has_any_substring(lower, dance_words()), ActionView::Dance);
    let s7 = push_if(s6, has_any_substring(lower, camera_words()), ActionView::CameraScan);
    push_if(s7, has_any_substring(lower, speak_words()), ActionView::Speak { text })
}

/// The duration that a prompt names: the first run of digits, read as
/// milliseconds, or as seconds when the prompt mentions seconds (`秒` or
/// `sec`; the value is then multiplied by 1000, saturating at `u32::MAX`).
/// `None` when there is no digit or the number does not fit in a `u32`.
pub open spec fn duration_named(text: Seq<char>) -> Option<nat> {
    let ds = first_digit_run(text);
    let v = digits_value(ds);
    if ds.len() == 0 || v > u32::MAX {
        None
    } else if has_substring(text, "秒"@) || has_substring(text, "sec"@) {
        Some(
            if v * 1000 > u32::MAX {
                u32::MAX as nat
            } else {
                v * 1000
            },
        )
    } else {
        Some(v)
    }
}

/// The smaller of two integers.
pub open spec fn min_int(a: int, b: int) -> int {
    if a < b {
        a
    } else {
        b
    }
}

/// The motion that the lower-cased prompt asks for, as
/// `(linear_x, linear_y, angular_z, duration_ms)` in thousandths and
/// milliseconds: `None` without a motion word; forward or back at the linear
/// limit capped to 150 (back wins over forward), left or right at the
/// angular limit capped to 600 (right wins over left), and the named
/// duration, 1500 ms by default.
pub open spec fn motion_named(lower: Seq<char>, max_linear: int, max_angular: int) -> Option<
    (int, int, int, nat),
> {
    if !has_any_substring(lower, motion_words()) {
        None
    } else {
        let lin = min_int(max_linear, 150);
        let ang = min_int(max_angular, 600);
        let x = if has_substring(lower, "后退"@) || has_substring(lower, "back"@) {
            -lin
        } else if has_substring(lower, "前进"@) || has_substring(lower, "forward"@) {
            lin
        } else {
            0
        };
        let z = if has_substring(lower, "右转"@) || has_substring(lower, "right"@) {
            -ang
        } else if has_substring(lower, "左转"@) || has_substring(lower, "left"@) {
            ang
        } else {
            0
        };
        let d = match duration_named(lower) {
            Some(ms) => ms,
            None => 1500,
        };
        Some((x, 0, z, d))
    }
}

/// The actions of an offline plan: the keyword actions, then the motion if
/// one is asked for; a prompt that asks for nothing is spoken back.
pub open spec fn offline_actions(
    text: Seq<char>,
    lower: Seq<char>,
    max_linear: int,
    max_angular: int,
) -> Seq<ActionView> {
    let k = keyword_actions(text, lower);
    let m = match motion_named(lower, max_linear, max_angular) {
        Some((x, y, z, d)) => k.push(
            ActionView::Move { linear_x: x, linear_y: y, angular_z: z, duration_ms: d },
        ),
        None => k,
    };
    if m.len() == 0 {
        seq![ActionView::Speak { text }]
    } else {
        m
    }
}

/// The first safety note of an offline plan.
pub open spec fn offline_note() -> Seq<char> {
    "离线模式只做关键词解析，适合先验证流程，不等于真实运动控制。"@
}

/// The note that states the configured speed limits with two decimals.
pub open spec fn speed_limit_note(max_linear: int, max_angular: int) -> Seq<char> {
    "建议最大线速度 "@ + fixed_text(max_linear, 2) + " m/s、最大角速度 "@ + fixed_text(max_angular, 2)
        + " rad/s。"@
}

/// The plan that the offline rules give for the trimmed prompt `text` and
/// its lower-case form `lower`.
pub open spec fn offline_plan_view(
    text: Seq<char>,
    lower: Seq<char>,
    max_linear: int,
    max_angular: int,
) -> PlanView {
    PlanView {
        summary: "离线解析完成："@ + text,
        actions: offline_actions(text, lower, max_linear, max_angular),
        safety_notes: seq![offline_note(), speed_limit_note(max_linear, max_angular)],
    }
}

/// The first run of digits in `text`, or nothing.
fn first_digits(text: &str) -> (ds: Vec<char>)
    ensures
        ds@ == first_digit_run(text@),
{
    let v = chars_of(text);
    let mut i: usize = 0;
    assert(v@.skip(0) =~= v@);
    while i < v.len() && !is_digit(v[i])
        invariant
            i <= v.len(),
            first_digit_run(v@.skip(i as int)) == first_digit_run(v@),
        decreases v.len() - i,
    {
        assert(v@.skip(i as int).drop_first() =~= v@.skip(i + 1));
        i = i + 1;
    }
    let mut ds: Vec<char> = Vec::new();
    let start = i;
    proof {
        if i < v.len() {
            assert(v@.skip(i as int)[0] == v@[i as int]);
        } else {
            assert(v@.skip(i as int).len() == 0);
        }
    }
    while i < v.len() && is_digit(v[i])
        invariant
            start <= i <= v.len(),
            ds@ == v@.subrange(start as int, i as int),
            first_digit_run(v@) == if start == v.len() {
                Seq::<char>::empty()
            } else {
                ds@ + leading_digits(v@.skip(i as int))
            },
        decreases v.len() - i,
    {
        let ghost rest = v@.skip(i as int);
        assert(rest[0] == v@[i as int]);
        assert(rest.drop_first() =~= v@.skip(i + 1));
        ds.push(v[i]);
        assert(ds@ =~= v@.subrange(start as int, i + 1));
        i = i + 1;
    }
    proof {
        if start < v.len() {
            let rest = v@.skip(i as int);
            if i < v.len() {
                assert(rest[0] == v@[i as int]);
            }
            assert(leading_digits(rest) =~= Seq::<char>::empty());
            assert(ds@ + Seq::<char>::empty() =~= ds@);
        }
    }
    ds
}

/// The value of a digit run when it fits in a `u32`.
fn digits_to_u32(ds: &Vec<char>) -> (r: Option<u32>)
    requires
        forall|i: int| 0 <= i < ds@.len() ==> is_digit_char(#[trigger] ds@[i]),
    ensures
        match r {
            Some(v) => ds@.len() > 0 && digits_value(ds@) <= u32::MAX && v == digits_value(ds@),
            None => ds@.len() == 0 || digits_value(ds@) > u32::MAX,
        },
{
    if ds.len() == 0 {
        return None;
    }
    let cap: u64 = 0x1_0000_0000;
    let mut acc: u64 = 0;
    let mut i: usize = 0;
    while i < ds.len()
        invariant
            i <= ds.len(),
            forall|j: int| 0 <= j < ds@.len() ==> is_digit_char(#[trigger] ds@[j]),
            cap == 0x1_0000_0000,
            acc == if digits_value(ds@.take(i as int)) < cap {
                digits_value(ds@.take(i as int))
            } else {
                cap as nat
            },
        decreases ds.len() - i,
    {
        let c = ds[i];
        assert(is_digit_char(ds@[i as int]));
        let d = (c as u32 - '0' as u32) as u64;
        assert(ds@.take(i + 1).drop_last() =~= ds@.take(i as int));
        let next = acc * 10 + d;
        acc = if next < cap {
            next
        } else {
            cap
        };
        i = i + 1;
    }
    assert(ds@.take(ds@.len() as int) =~= ds@);
    if acc < cap {
        Some(acc as u32)
    } else {
        None
    }
}

/// The duration that a prompt names, in milliseconds (see `duration_named`).
pub fn parse_duration_ms(text: &str) -> (r: Option<u32>)
    ensures
        match r {
            Some(v) => duration_named(text@) == Some(v as nat),
            None => duration_named(text@) is None,
        },
{
    let ds = first_digits(text);
    proof {
        lemma_first_digit_run_digits(text@);
    }
    match digits_to_u32(&ds) {
        None => None,
        Some(value) => {
            if contains_str(text, "秒") || contains_str(text, "sec") {
                match value.checked_mul(1000) {
                    Some(ms) => Some(ms),
                    None => Some(u32::MAX),
                }
            } else {
                Some(value)
            }
        },
    }
}

proof fn lemma_leading_digits_digits(s: Seq<char>)
    ensures
        forall|i: int|
            0 <= i < leading_digits(s).len() ==> is_digit_char(#[trigger] leading_digits(s)[i]),
    decreases s.len(),
{
    if s.len() > 0 && is_digit_char(s[0]) {
        lemma_leading_digits_digits(s.drop_first());
        let t = leading_digits(s.drop_first());
        assert forall|i: int| 0 <= i < leading_digits(s).len() implies is_digit_char(
            #[trigger] leading_digits(s)[i],
        ) by {
            if i > 0 {
                assert(leading_digits(s)[i] == t[i - 1]);
            }
        }
    }
}

proof fn lemma_first_digit_run_digits(s: Seq<char>)
    ensures
        forall|i: int|
            0 <= i < first_digit_run(s).len() ==> is_digit_char(#[trigger] first_digit_run(s)[i]),
    decreases s.len(),
{
    if s.len() > 0 {
        if is_digit_char(s[0]) {
            lemma_leading_digits_digits(s);
        } else {
            lemma_first_digit_run_digits(s.drop_first());
            assert(first_digit_run(s) == first_digit_run(s.drop_first()));
        }
    }
}

/// The motion that the lower-cased prompt asks for under the configured
/// limits (see `motion_named`).
pub fn extract_motion(lower_prompt: &str, config: &AppConfig) -> (r: Option<(i64, i64, i64, u32)>)
    ensures
        match r {
            Some((x, y, z, d)) => motion_named(
                lower_prompt@,
                config.max_linear_speed as int,
                config.max_angular_speed as int,
            ) == Some((x as int, y as int, z as int, d as nat)),
            None => motion_named(
                lower_prompt@,
                config.max_linear_speed as int,
                config.max_angular_speed as int,
            ) is None,
        },
{
    let gate = ["前进", "后退", "左转", "右转", "move", "turn", "走"];
    assert(str_views(gate@) =~= motion_words());
    if !contains_any(lower_prompt, &gate) {
        return None;
    }
    let lin: i64 = if config.max_linear_speed < 150 {
        config.max_linear_speed as i64
    } else {
        150
    };
    let ang: i64 = if config.max_angular_speed < 600 {
        config.max_angular_speed as i64
    } else {
        600
    };
    let mut linear_x: i64 = 0;
    let linear_y: i64 = 0;
    let mut angular_z: i64 = 0;
    let mut duration_ms: u32 = 1500;
    if contains_str(lower_prompt, "前进") || contains_str(lower_prompt, "forward") {
        linear_x = lin;
    }
    if contains_str(lower_prompt, "后退") || contains_str(lower_prompt, "back") {
        linear_x = -lin;
    }
    if contains_str(lower_prompt, "左转") || contains_str(lower_prompt, "left") {
        angular_z = ang;
    }
    if contains_str(lower_prompt, "右转") || contains_str(lower_prompt, "right") {
        angular_z = -ang;
    }
    if let Some(ms) = parse_duration_ms(lower_prompt) {
        duration_ms = ms;
    }
    Some((linear_x, linear_y, angular_z, duration_ms))
}

fn push_when(actions: &mut Vec<RobotAction>, cond: bool, a: RobotAction)
    ensures
        action_views(final(actions)@) == push_if(action_views(old(actions)@), cond, a@),
{
    if cond {
        push_action(actions, a);
    }
}

/// The note that states the configured speed limits.
fn speed_limit_note_text(config: &AppConfig) -> (note: String)
    ensures
        note@ == speed_limit_note(
            config.max_linear_speed as int,
            config.max_angular_speed as int,
        ),
{
    let mut note = String::from_str("建议最大线速度 ");
    push_fixed(&mut note, config.max_linear_speed as i64, 2);
    note.append(" m/s、最大角速度 ");
    push_fixed(&mut note, config.max_angular_speed as i64, 2);
    note.append(" rad/s。");
    note
}

/// The offline plan for a prompt already trimmed (`text`) and lower-cased
/// (`lower`): see `offline_plan_view`.
pub fn offline_plan_for(text: &str, lower: &str, config: &AppConfig) -> (plan: RobotPlan)
    ensures
        plan@ == offline_plan_view(
            text@,
            lower@,
            config.max_linear_speed as int,
            config.max_angular_speed as int,
        ),
{
    let stand = ["站", "stand", "起立"];
    let sit = ["坐", "sit"];
    let lie_down = ["趴", "lie", "down"];
    let stop = ["停", "stop"];
    let wave = ["挥手", "wave"];
    let dance = ["跳舞", "dance"];
    let camera = ["看", "扫", "camera", "拍照", "巡检"];
    let speak = ["说", "讲", "speak", "voice"];
    assert(str_views(stand@) =~= stand_words());
    assert(str_views(sit@) =~= sit_words());
    assert(str_views(lie_down@) =~= lie_down_words());
    assert(str_views(stop@) =~= stop_words());
    assert(str_views(wave@) =~= wave_words());
    assert(str_views(dance@) =~= dance_words());
    assert(str_views(camera@) =~= camera_words());
    assert(str_views(speak@) =~= speak_words());
    let mut actions: Vec<RobotAction> = Vec::new();
    assert(action_views(actions@) =~= Seq::<ActionView>::empty());
    push_when(&mut actions, contains_any(lower, &stand), RobotAction::Stand);
    push_when(&mut actions, contains_any(lower, &sit), RobotAction::Sit);
    push_when(&mut actions, contains_any(lower, &lie_down), RobotAction::LieDown);
    push_when(&mut actions, contains_any(lower, &stop), RobotAction::Stop);
    push_when(&mut actions, contains_any(lower, &wave), RobotAction::Wave);
    push_when(&mut actions, contains_any(lower, &dance), RobotAction::Dance);
    push_when(&mut actions, contains_any(lower, &camera), RobotAction::CameraScan);
    push_when(
        &mut actions,
        contains_any(lower, &speak),
        RobotAction::Speak { text: text.to_owned() },
    );
    assert(action_views(actions@) == keyword_actions(text@, lower@));
    if let Some((linear_x, linear_y, angular_z, duration_ms)) = extract_motion(lower, config) {
        push_action(&mut actions, RobotAction::Move { linear_x, linear_y, angular_z, duration_ms });
    }
    if actions.len() == 0 {
        push_action(&mut actions, RobotAction::Speak { text: text.to_owned() });
        assert(action_views(actions@) =~= seq![ActionView::Speak { text: text@ }]);
    }
    let mut safety_notes: Vec<String> = Vec::new();
    push_string(&mut safety_notes, String::from_str("离线模式只做关键词解析，适合先验证流程，不等于真实运动控制。"));
    push_string(&mut safety_notes, speed_limit_note_text(config));
    let mut summary = String::from_str("离线解析完成：");
    summary.append(text);
    let plan = RobotPlan { summary, actions, safety_notes };
    assert(plan@.safety_notes =~= seq![
        offline_note(),
        speed_limit_note(config.max_linear_speed as int, config.max_angular_speed as int),
    ]);
    plan
}

/// The plan that the offline keyword rules give for `prompt`: the prompt is
/// trimmed, and its lower-case form is searched for keywords (see
/// `offline_plan_view`).
pub fn offline_plan(prompt: &str, config: &AppConfig) -> (plan: RobotPlan)
    ensures
        plan@ == offline_plan_view(
            trimmed(prompt@),
            lowercase(trimmed(prompt@)),
            config.max_linear_speed as int,
            config.max_angular_speed as int,
        ),
{
    let text = trim(prompt);
    let lower = to_lowercase(text);
    offline_plan_for(text, lower.as_str(), config)
}

// ---------------------------------------------------------------------------
// Rendering
// ---------------------------------------------------------------------------

/// The one-line Chinese description of an action: speeds with three
/// decimals, turns with one, durations in milliseconds.
pub open spec fn action_text(a: ActionView) -> Seq<char> {
    match a {
        ActionView::Stand => "站立"@,
        ActionView::Sit => "坐下"@,
        ActionView::LieDown => "趴下"@,
        ActionView::Stop => "停止"@,
        ActionView::Wave => "挥手"@,
        ActionView::Dance => "跳舞"@,
        ActionView::CameraScan => "摄像头巡检"@,
        ActionView::Speak { text } => "播报："@ + text,
        ActionView::Move { linear_x, linear_y, angular_z, duration_ms } => "移动：linear_x="@
            + fixed_text(linear_x, 3) + ", linear_y="@ + fixed_text(linear_y, 3) + ", angular_z="@
            + fixed_text(angular_z, 3) + ", duration_ms="@ + decimal_digits(duration_ms),
        ActionView::Turn { degrees, duration_ms } => "转向：degrees="@ + fixed_text(degrees, 1)
            + ", duration_ms="@ + decimal_digits(duration_ms),
    }
}

/// The numbered action lines of the text rendering, counting from 1.
pub open spec fn numbered_action_lines(actions: Seq<ActionView>) -> Seq<char>
    decreases actions.len(),
{
    if actions.len() == 0 {
        Seq::empty()
    } else {
        numbered_action_lines(actions.drop_last()) + "  "@ + decimal_digits(actions.len()) + ". "@
            + action_text(actions.last()) + "\n"@
    }
}

/// The bulleted note lines of the text rendering.
pub open spec fn note_lines(notes: Seq<Seq<char>>) -> Seq<char>
    decreases notes.len(),
{
    if notes.len() == 0 {
        Seq::empty()
    } else {
        note_lines(notes.drop_last()) + "  - "@ + notes.last() + "\n"@
    }
}

/// The human-readable rendering of a plan.
pub open spec fn plan_text(p: PlanView) -> Seq<char> {
    "计划："@ + p.summary + "\n"@ + "动作：\n"@ + numbered_action_lines(p.actions) + if p.safety_notes.len()
        > 0 {
        "安全提示：\n"@ + note_lines(p.safety_notes)
    } else {
        Seq::empty()
    }
}

/// The opening lines of a ROS2 script.
pub open spec fn script_header() -> Seq<char> {
    "#!/usr/bin/env bash\n"@ + "set -euo pipefail\n\n"@
        + "# 这个脚本是计划草稿。具体姿态控制话题需要按你的机器狗型号再适配。\n"@
        + "# 其中 Move 会映射到 /cmd_vel 示例。\n\n"@
}

/// The script lines for one action: a motion publishes a `/cmd_vel` twist
/// and sleeps for its duration (in seconds, the duration first taken as
/// a single-precision float), a turn and every other action become
/// comments.
pub open spec fn script_action_lines(a: ActionView) -> Seq<char> {
    match a {
        ActionView::Move { linear_x, linear_y, angular_z, duration_ms } =>
            "ros2 topic pub --once /cmd_vel geometry_msgs/msg/Twist '{linear: {x: "@
            + fixed_text(linear_x, 3) + ", y: "@ + fixed_text(linear_y, 3)
            + ", z: 0.0}, angular: {x: 0.0, y: 0.0, z: "@ + fixed_text(angular_z, 3) + "}}'\n"@
            + "sleep "@ + fixed_text(float_rounded_count(duration_ms) as int, 3) + "\n"@,
        ActionView::Turn { degrees, duration_ms } => "# 转向 "@ + fixed_text(degrees, 1)
            + " 度，持续 "@ + decimal_digits(duration_ms) + " ms。这里需要接到具体姿态节点。\n"@,
        other => "# "@ + action_text(other) + "\n"@,
    }
}

/// The script lines of all actions, in order.
pub open spec fn script_lines(actions: Seq<ActionView>) -> Seq<char>
    decreases actions.len(),
{
    if actions.len() == 0 {
        Seq::empty()
    } else {
        script_lines(actions.drop_last()) + script_action_lines(actions.last())
    }
}

/// The ROS2 shell-script rendering of a plan.
pub open spec fn plan_script(p: PlanView) -> Seq<char> {
    script_header() + script_lines(p.actions)
}

fn push_action_text(out: &mut String, action: &RobotAction)
    ensures
        final(out)@ == old(out)@ + action_text(action@),
{
    let ghost start = out@;
    match action {
        RobotAction::Stand => out.append("站立"),
        RobotAction::Sit => out.append("坐下"),
        RobotAction::LieDown => out.append("趴下"),
        RobotAction::Stop => out.append("停止"),
        RobotAction::Wave => out.append("挥手"),
        RobotAction::Dance => out.append("跳舞"),
        RobotAction::CameraScan => out.append("摄像头巡检"),
        RobotAction::Speak { text } => {
            out.append("播报：");
            out.append(text.as_str());
        },
        RobotAction::Move { linear_x, linear_y, angular_z, duration_ms } => {
            out.append("移动：linear_x=");
            push_fixed(out, *linear_x, 3);
            out.append(", linear_y=");
            push_fixed(out, *linear_y, 3);
            out.append(", angular_z=");
            push_fixed(out, *angular_z, 3);
            out.append(", duration_ms=");
            push_decimal(out, *duration_ms as u128);
        },
        RobotAction::Turn { degrees, duration_ms } => {
            out.append("转向：degrees=");
            push_fixed(out, *degrees, 1);
            out.append(", duration_ms=");
            push_decimal(out, *duration_ms as u128);
        },
    }
    assert(out@ =~= start + action_text(action@));
}

/// The one-line description of an action.
pub fn render_action(action: &RobotAction) -> (s: String)
    ensures
        s@ == action_text(action@),
{
    let mut s = String::new();
    push_action_text(&mut s, action);
    assert(s@ =~= action_text(action@));
    s
}

/// The human-readable rendering of a plan: summary, numbered actions and,
/// when there are any, the safety notes.
pub fn render_text(plan: &RobotPlan) -> (out: String)
    ensures
        out@ == plan_text(plan@),
{
    let mut out = String::from_str("计划：");
    out.append(plan.summary.as_str());
    out.append("\n");
    out.append("动作：\n");
    let ghost head = out@;
    let ghost acts = plan@.actions;
    let mut i: usize = 0;
    assert(acts.take(0) =~= Seq::<ActionView>::empty());
    while i < plan.actions.len()
        invariant
            i <= plan.actions.len(),
            acts == action_views(plan.actions@),
            out@ == head + numbered_action_lines(acts.take(i as int)),
        decreases plan.actions.len() - i,
    {
        out.append("  ");
        push_decimal(&mut out, i as u128 + 1);
        out.append(". ");
        push_action_text(&mut out, &plan.actions[i]);
        out.append("\n");
        assert(acts.take(i + 1).drop_last() =~= acts.take(i as int));
        assert(out@ =~= head + numbered_action_lines(acts.take(i + 1)));
        i = i + 1;
    }
    assert(acts.take(i as int) =~= acts);
    let ghost body = out@;
    if plan.safety_notes.len() > 0 {
        out.append("安全提示：\n");
        let ghost head2 = out@;
        let ghost notes = plan@.safety_notes;
        let mut j: usize = 0;
        assert(notes.take(0) =~= Seq::<Seq<char>>::empty());
        while j < plan.safety_notes.len()
            invariant
                j <= plan.safety_notes.len(),
                notes == string_views(plan.safety_notes@),
                out@ == head2 + note_lines(notes.take(j as int)),
            decreases plan.safety_notes.len() - j,
        {
            out.append("  - ");
            out.append(plan.safety_notes[j].as_str());
            out.append("\n");
            assert(notes.take(j + 1).drop_last() =~= notes.take(j as int));
            assert(out@ =~= head2 + note_lines(notes.take(j + 1)));
            j = j + 1;
        }
        assert(notes.take(j as int) =~= notes);
        assert(out@ =~= plan_text(plan@));
    } else {
        assert(out@ =~= plan_text(plan@));
    }
    out
}

fn push_ready_count(d: u32) -> (r: i64)
    ensures
        r as int == float_rounded_count(d as nat),
{
    float_rounded_count_exec(d) as i64
}

fn push_script_action(out: &mut String, action: &RobotAction)
    ensures
        final(out)@ == old(out)@ + script_action_lines(action@),
{
    let ghost start = out@;
    match action {
        RobotAction::Move { linear_x, linear_y, angular_z, duration_ms } => {
            out.append("ros2 topic pub --once /cmd_vel geometry_msgs/msg/Twist '{linear: {x: ");
            push_fixed(out, *linear_x, 3);
            out.append(", y: ");
            push_fixed(out, *linear_y, 3);
            out.append(", z: 0.0}, angular: {x: 0.0, y: 0.0, z: ");
            push_fixed(out, *angular_z, 3);
            out.append("}}'\n");
            out.append("sleep ");
            push_fixed(out, push_ready_count(*duration_ms), 3);
            out.append("\n");
        },
        RobotAction::Turn { degrees, duration_ms } => {
            out.append("# 转向 ");
            push_fixed(out, *degrees, 1);
            out.append(" 度，持续 ");
            push_decimal(out, *duration_ms as u128);
            out.append(" ms。这里需要接到具体姿态节点。\n");
        },
        _ => {
            out.append("# ");
            push_action_text(out, action);
            out.append("\n");
        },
    }
    assert(out@ =~= start + script_action_lines(action@));
}

/// The ROS2 shell-script draft of a plan: motions publish to `/cmd_vel`,
/// everything else is left as comments.
pub fn render_ros2_script(plan: &RobotPlan) -> (out: String)
    ensures
        out@ == plan_script(plan@),
{
    let mut out = String::from_str("#!/usr/bin/env bash\n");
    out.append("set -euo pipefail\n\n");
    out.append("# 这个脚本是计划草稿。具体姿态控制话题需要按你的机器狗型号再适配。\n");
    out.append("# 其中 Move 会映射到 /cmd_vel 示例。\n\n");
    let ghost head = out@;
    let ghost acts = plan@.actions;
    let mut i: usize = 0;
    assert(acts.take(0) =~= Seq::<ActionView>::empty());
    while i < plan.actions.len()
        invariant
            i <= plan.actions.len(),
            acts == action_views(plan.actions@),
            out@ == head + script_lines(acts.take(i as int)),
        decreases plan.actions.len() - i,
    {
        push_script_action(&mut out, &plan.actions[i]);
        assert(acts.take(i + 1).drop_last() =~= acts.take(i as int));
        assert(out@ =~= head + script_lines(acts.take(i + 1)));
        i = i + 1;
    }
    assert(acts.take(i as int) =~= acts);
    assert(out@ =~= plan_script(plan@));
    out
}

// ---------------------------------------------------------------------------
// Laws
// ---------------------------------------------------------------------------

/// The offline planner never gives an empty plan: a prompt that asks for
/// nothing it knows is spoken back.
pub proof fn lemma_offline_plan_has_actions(
    text: Seq<char>,
    lower: Seq<char>,
    max_linear: int,
    max_angular: int,
)
    ensures
        offline_plan_view(text, lower, max_linear, max_angular).actions.len() > 0,
{
}

/// Clamping twice changes nothing: `clamp_int` is idempotent for any bounds.
pub proof fn lemma_clamp_idempotent(value: int, min: int, max: int)
    ensures
        clamp_int(clamp_int(value, min, max), min, max) == clamp_int(value, min, max),
{
}

/// Normalising a plan twice gives the same plan as normalising it once:
/// a normalised plan is left unchanged by the next normalisation.
pub proof fn lemma_normalize_idempotent(p: PlanView, max_linear: int, max_angular: int)
    ensures
        normalized_plan(normalized_plan(p, max_linear, max_angular), max_linear, max_angular)
            == normalized_plan(p, max_linear, max_angular),
{
    let once = normalized_plan(p, max_linear, max_angular);
    let twice = normalized_plan(once, max_linear, max_angular);
    reveal_strlit("动作计划");
    assert(!is_white_space_char("动作计划"@[0]));
    assert(!all_white_space("动作计划"@));
    assert(twice.actions =~= once.actions);
    assert(twice.summary == once.summary);
    assert(twice.safety_notes == once.safety_notes);
}

/// Normalisation keeps the actions' number and order, changes only motions
/// and turns, and keeps each action's kind.
pub proof fn lemma_normalize_keeps_actions(p: PlanView, max_linear: int, max_angular: int)
    ensures
        ({
            let n = normalized_plan(p, max_linear, max_angular);
            &&& n.actions.len() == p.actions.len()
            &&& forall|i: int|
                0 <= i < p.actions.len() ==> {
                    let a = #[trigger] p.actions[i];
                    let b = n.actions[i];
                    &&& (a is Move <==> b is Move)
                    &&& (a is Turn <==> b is Turn)
                    &&& (!(a is Move) && !(a is Turn) ==> b == a)
                }
        }),
{
}

/// Every action of a normalised plan is within the safety limits: motion
/// and turn durations are at least `MIN_DURATION_MS`, turns stay within half
/// a circle either way, and speeds never exceed the configured limits (nor
/// go below their negation, when the limits are not negative).
pub proof fn lemma_normalized_within_limits(p: PlanView, max_linear: int, max_angular: int)
    ensures
        ({
            let n = normalized_plan(p, max_linear, max_angular);
            forall|i: int|
                0 <= i < n.actions.len() ==> match #[trigger] n.actions[i] {
                    ActionView::Move { linear_x, linear_y, angular_z, duration_ms } => {
                        &&& duration_ms >= MIN_DURATION_MS
                        &&& linear_x <= max_linear && linear_y <= max_linear
                        &&& angular_z <= max_angular
                        &&& max_linear >= 0 ==> -max_linear <= linear_x && -max_linear <= linear_y
                        &&& max_angular >= 0 ==> -max_angular <= angular_z
                    },
                    ActionView::Turn { degrees, duration_ms } => {
                        &&& duration_ms >= MIN_DURATION_MS
                        &&& -MAX_TURN_MILLIDEGREES <= degrees <= MAX_TURN_MILLIDEGREES
                    },
                    _ => true,
                }
        }),
{
    let n = normalized_plan(p, max_linear, max_angular);
    assert forall|i: int| 0 <= i < n.actions.len() implies match #[trigger] n.actions[i] {
        ActionView::Move { linear_x, linear_y, angular_z, duration_ms } => {
            &&& duration_ms >= MIN_DURATION_MS
            &&& linear_x <= max_linear && linear_y <= max_linear
            &&& angular_z <= max_angular
            &&& max_linear >= 0 ==> -max_linear <= linear_x && -max_linear <= linear_y
            &&& max_angular >= 0 ==> -max_angular <= angular_z
        },
        ActionView::Turn { degrees, duration_ms } => {
            &&& duration_ms >= MIN_DURATION_MS
            &&& -MAX_TURN_MILLIDEGREES <= degrees <= MAX_TURN_MILLIDEGREES
        },
        _ => true,
    } by {
        assert(n.actions[i] == normalized_action(p.actions[i], max_linear, max_angular));
    }
}

/// A normalised plan always has a summary that is not blank and at least
/// one safety note.
pub proof fn lemma_normalized_has_summary_and_notes(p: PlanView, max_linear: int, max_angular: int)
    ensures
        !all_white_space(normalized_plan(p, max_linear, max_angular).summary),
        normalized_plan(p, max_linear, max_angular).safety_notes.len() > 0,
{
    reveal_strlit("动作计划");
    assert(!is_white_space_char("动作计划"@[0]));
}

/// The offline planner only asks for gentle motions: never sideways, at
/// most 0.15 m/s forward or back and 0.6 rad/s of turning, and never beyond
/// the configured limits when those are not negative.
pub proof fn lemma_offline_motion_gentle(lower: Seq<char>, max_linear: int, max_angular: int)
    ensures
        motion_named(lower, max_linear, max_angular) matches Some((x, y, z, d)) ==> {
            &&& y == 0
            &&& max_linear >= 0 ==> -max_linear <= x <= max_linear && -150 <= x <= 150
            &&& max_angular >= 0 ==> -max_angular <= z <= max_angular && -600 <= z <= 600
        },
{
}

proof fn lemma_push_if_contains(s: Seq<ActionView>, c: bool, a: ActionView, x: ActionView)
    ensures
        push_if(s, c, a).contains(x) <==> (s.contains(x) || (c && a == x)),
{
    if c {
        let t = s.push(a);
        if s.contains(x) {
            let i = choose|i: int| 0 <= i < s.len() && s[i] == x;
            assert(t[i] == x);
        }
        if a == x {
            assert(t[s.len() as int] == x);
        }
        if t.contains(x) {
            let i = choose|i: int| 0 <= i < t.len() && t[i] == x;
            if i < s.len() {
                assert(s[i] == x);
            }
        }
    }
}

proof fn lemma_any_of2(s: Seq<char>, a: Seq<char>, b: Seq<char>)
    ensures
        has_any_substring(s, seq![a, b]) <==> (has_substring(s, a) || has_substring(s, b)),
{
    let pats = seq![a, b];
    if has_substring(s, a) {
        assert(has_substring(s, pats[0]));
    }
    if has_substring(s, b) {
        assert(has_substring(s, pats[1]));
    }
}

proof fn lemma_any_of3(s: Seq<char>, a: Seq<char>, b: Seq<char>, c: Seq<char>)
    ensures
        has_any_substring(s, seq![a, b, c]) <==> (has_substring(s, a) || has_substring(s, b)
            || has_substring(s, c)),
{
    let pats = seq![a, b, c];
    if has_substring(s, a) {
        assert(has_substring(s, pats[0]));
    }
    if has_substring(s, b) {
        assert(has_substring(s, pats[1]));
    }
    if has_substring(s, c) {
        assert(has_substring(s, pats[2]));
    }
}

proof fn lemma_any_of4(s: Seq<char>, a: Seq<char>, b: Seq<char>, c: Seq<char>, d: Seq<char>)
    ensures
        has_any_substring(s, seq![a, b, c, d]) <==> (has_substring(s, a) || has_substring(s, b)
            || has_substring(s, c) || has_substring(s, d)),
{
    let pats = seq![a, b, c, d];
    if has_substring(s, a) {
        assert(has_substring(s, pats[0]));
    }
    if has_substring(s, b) {
        assert(has_substring(s, pats[1]));
    }
    if has_substring(s, c) {
        assert(has_substring(s, pats[2]));
    }
    if has_substring(s, d) {
        assert(has_substring(s, pats[3]));
    }
}

proof fn lemma_any_of5(
    s: Seq<char>,
    a: Seq<char>,
    b: Seq<char>,
    c: Seq<char>,
    d: Seq<char>,
    e: Seq<char>,
)
    ensures
        has_any_substring(s, seq![a, b, c, d, e]) <==> (has_substring(s, a) || has_substring(s, b)
            || has_substring(s, c) || has_substring(s, d) || has_substring(s, e)),
{
    let pats = seq![a, b, c, d, e];
    if has_substring(s, a) {
        assert(has_substring(s, pats[0]));
    }
    if has_substring(s, b) {
        assert(has_substring(s, pats[1]));
    }
    if has_substring(s, c) {
        assert(has_substring(s, pats[2]));
    }
    if has_substring(s, d) {
        assert(has_substring(s, pats[3]));
    }
    if has_substring(s, e) {
        assert(has_substring(s, pats[4]));
    }
}

proof fn lemma_keyword_actions_contain(text: Seq<char>, lower: Seq<char>, x: ActionView)
    ensures
        keyword_actions(text, lower).contains(x) <==> {
            ||| x == ActionView::Stand && has_any_substring(lower, stand_words())
            ||| x == ActionView::Sit && has_any_substring(lower, sit_words())
            ||| x == ActionView::LieDown && has_any_substring(lower, lie_down_words())
            ||| x == ActionView::Stop && has_any_substring(lower, stop_words())
            ||| x == ActionView::Wave && has_any_substring(lower, wave_words())
            ||| x == ActionView::Dance && has_any_substring(lower, dance_words())
            ||| x == ActionView::CameraScan && has_any_substring(lower, camera_words())
            ||| x == (ActionView::Speak { text }) && has_any_substring(lower, speak_words())
        },
{
    let step0 = Seq::<ActionView>::empty();
    let step1 = push_if(step0, has_any_substring(lower, stand_words()), ActionView::Stand);
    let step2 = push_if(step1, has_any_substring(lower, sit_words()), ActionView::Sit);
    let step3 = push_if(step2, has_any_substring(lower, lie_down_words()), ActionView::LieDown);
    let step4 = push_if(step3, has_any_substring(lower, stop_words()), ActionView::Stop);
    let step5 = push_if(step4, has_any_substring(lower, wave_words()), ActionView::Wave);
    let step6 = push_if(step5, has_any_substring(lower, dance_words()), ActionView::Dance);
    let step7 = push_if(step6, has_any_substring(lower, camera_words()), ActionView::CameraScan);
    assert(!step0.contains(x));
    lemma_push_if_contains(step0, has_any_substring(lower, stand_words()), ActionView::Stand, x);
    lemma_push_if_contains(step1, has_any_substring(lower, sit_words()), ActionView::Sit, x);
    lemma_push_if_contains(step2, has_any_substring(lower, lie_down_words()), ActionView::LieDown, x);
    lemma_push_if_contains(step3, has_any_substring(lower, stop_words()), ActionView::Stop, x);
    lemma_push_if_contains(step4, has_any_substring(lower, wave_words()), ActionView::Wave, x);
    lemma_push_if_contains(step5, has_any_substring(lower, dance_words()), ActionView::Dance, x);
    lemma_push_if_contains(step6, has_any_substring(lower, camera_words()), ActionView::CameraScan, x);
    lemma_push_if_contains(
        step7,
        has_any_substring(lower, speak_words()),
        ActionView::Speak { text },
        x,
    );
}

/// Each kind of posture or gesture is in the offline plan exactly when the
/// lower-cased prompt holds one of its words: standing for 站, stand or 起立;
/// sitting for 坐 or sit; lying down for 趴, lie or down; stopping for 停 or
/// stop; waving for 挥手 or wave; dancing for 跳舞 or dance; a camera scan
/// for 看, 扫, camera, 拍照 or 巡检. No other word brings in any of them.
pub proof fn lemma_offline_plan_keywords(
    text: Seq<char>,
    lower: Seq<char>,
    max_linear: int,
    max_angular: int,
)
    ensures
        ({
            let acts = offline_plan_view(text, lower, max_linear, max_angular).actions;
            &&& acts.contains(ActionView::Stand) <==> (has_substring(lower, "站"@) || has_substring(
                lower,
                "stand"@,
            ) || has_substring(lower, "起立"@))
            &&& acts.contains(ActionView::Sit) <==> (has_substring(lower, "坐"@) || has_substring(
                lower,
                "sit"@,
            ))
            &&& acts.contains(ActionView::LieDown) <==> (has_substring(lower, "趴"@)
                || has_substring(lower, "lie"@) || has_substring(lower, "down"@))
            &&& acts.contains(ActionView::Stop) <==> (has_substring(lower, "停"@) || has_substring(
                lower,
                "stop"@,
            ))
            &&& acts.contains(ActionView::Wave) <==> (has_substring(lower, "挥手"@)
                || has_substring(lower, "wave"@))
            &&& acts.contains(ActionView::Dance) <==> (has_substring(lower, "跳舞"@)
                || has_substring(lower, "dance"@))
            &&& acts.contains(ActionView::CameraScan) <==> (has_substring(lower, "看"@)
                || has_substring(lower, "扫"@) || has_substring(lower, "camera"@) || has_substring(
                lower,
                "拍照"@,
            ) || has_substring(lower, "巡检"@))
        }),
{
    lemma_any_of3(lower, "站"@, "stand"@, "起立"@);
    lemma_any_of2(lower, "坐"@, "sit"@);
    lemma_any_of3(lower, "趴"@, "lie"@, "down"@);
    lemma_any_of2(lower, "停"@, "stop"@);
    lemma_any_of2(lower, "挥手"@, "wave"@);
    lemma_any_of2(lower, "跳舞"@, "dance"@);
    lemma_any_of5(lower, "看"@, "扫"@, "camera"@, "拍照"@, "巡检"@);
    let k = keyword_actions(text, lower);
    let mv = match motion_named(lower, max_linear, max_angular) {
        Some((x, y, z, d)) => k.push(
            ActionView::Move { linear_x: x, linear_y: y, angular_z: z, duration_ms: d },
        ),
        None => k,
    };
    let kinds = seq![
        ActionView::Stand,
        ActionView::Sit,
        ActionView::LieDown,
        ActionView::Stop,
        ActionView::Wave,
        ActionView::Dance,
        ActionView::CameraScan,
    ];
    assert forall|j: int| 0 <= j < kinds.len() implies (mv.contains(#[trigger] kinds[j])
        <==> k.contains(kinds[j])) by {
        lemma_keyword_actions_contain(text, lower, kinds[j]);
        if let Some((x, y, z, d)) = motion_named(lower, max_linear, max_angular) {
            lemma_push_if_contains(
                k,
                true,
                ActionView::Move { linear_x: x, linear_y: y, angular_z: z, duration_ms: d },
                kinds[j],
            );
        }
    }
    assert forall|j: int| 0 <= j < kinds.len() implies (k.contains(#[trigger] kinds[j])
        <==> offline_plan_view(text, lower, max_linear, max_angular).actions.contains(kinds[j])) by {
        lemma_keyword_actions_contain(text, lower, kinds[j]);
        if mv.len() == 0 {
            let only = seq![ActionView::Speak { text }];
            if only.contains(kinds[j]) {
                let i = choose|i: int| 0 <= i < only.len() && only[i] == kinds[j];
                assert(only[i] == ActionView::Speak { text });
            }
            if k.contains(kinds[j]) {
                let i = choose|i: int| 0 <= i < k.len() && k[i] == kinds[j];
                assert(mv.len() >= k.len());
            }
        }
    }
    assert(kinds[0] == ActionView::Stand);
    assert(kinds[1] == ActionView::Sit);
    assert(kinds[2] == ActionView::LieDown);
    assert(kinds[3] == ActionView::Stop);
    assert(kinds[4] == ActionView::Wave);
    assert(kinds[5] == ActionView::Dance);
    assert(kinds[6] == ActionView::CameraScan);
    lemma_keyword_actions_contain(text, lower, ActionView::Stand);
    lemma_keyword_actions_contain(text, lower, ActionView::Sit);
    lemma_keyword_actions_contain(text, lower, ActionView::LieDown);
    lemma_keyword_actions_contain(text, lower, ActionView::Stop);
    lemma_keyword_actions_contain(text, lower, ActionView::Wave);
    lemma_keyword_actions_contain(text, lower, ActionView::Dance);
    lemma_keyword_actions_contain(text, lower, ActionView::CameraScan);
}

proof fn lemma_no_digit_no_run(s: Seq<char>)
    requires
        forall|i: int| 0 <= i < s.len() ==> !is_digit_char(#[trigger] s[i]),
    ensures
        first_digit_run(s).len() == 0,
    decreases s.len(),
{
    if s.len() > 0 {
        let t = s.drop_first();
        assert forall|i: int| 0 <= i < t.len() implies !is_digit_char(#[trigger] t[i]) by {
            assert(t[i] == s[i + 1]);
        }
        lemma_no_digit_no_run(t);
    }
}

/// The offline motion, in terms of the prompt's words: there is one exactly
/// when the lower-cased prompt holds 前进, 后退, 左转, 右转, move, turn or 走.
/// It never moves sideways. Turning right (右转 or right) gives the negative
/// angular speed `-min(max_angular, 600)`, whatever else is said; turning
/// left (左转 or left) without a right turn gives the positive one; neither
/// gives none. Backing up (后退 or back) gives the negative linear speed
/// `-min(max_linear, 150)`, whatever else is said; going forward (前进 or
/// forward) without backing up gives the positive one; neither gives none.
/// A prompt without any digit lasts the default 1500 ms.
pub proof fn lemma_offline_motion_directions(lower: Seq<char>, max_linear: int, max_angular: int)
    ensures
        ({
            let moving = has_substring(lower, "前进"@) || has_substring(lower, "后退"@)
                || has_substring(lower, "左转"@) || has_substring(lower, "右转"@) || has_substring(
                lower,
                "move"@,
            ) || has_substring(lower, "turn"@) || has_substring(lower, "走"@);
            let lin = if max_linear < 150 {
                max_linear
            } else {
                150
            };
            let ang = if max_angular < 600 {
                max_angular
            } else {
                600
            };
            let back = has_substring(lower, "后退"@) || has_substring(lower, "back"@);
            let forward = has_substring(lower, "前进"@) || has_substring(lower, "forward"@);
            let right = has_substring(lower, "右转"@) || has_substring(lower, "right"@);
            let left = has_substring(lower, "左转"@) || has_substring(lower, "left"@);
            &&& (motion_named(lower, max_linear, max_angular) is Some <==> moving)
            &&& motion_named(lower, max_linear, max_angular) matches Some((x, y, z, d)) ==> {
                &&& y == 0
                &&& back ==> x == -lin
                &&& !back && forward ==> x == lin
                &&& !back && !forward ==> x == 0
                &&& right ==> z == -ang
                &&& !right && left ==> z == ang
                &&& !right && !left ==> z == 0
                &&& (forall|i: int| 0 <= i < lower.len() ==> !is_digit_char(#[trigger] lower[i]))
                    ==> d == 1500
            }
        }),
{
    let pats = motion_words();
    let moving = has_substring(lower, "前进"@) || has_substring(lower, "后退"@) || has_substring(
        lower,
        "左转"@,
    ) || has_substring(lower, "右转"@) || has_substring(lower, "move"@) || has_substring(
        lower,
        "turn"@,
    ) || has_substring(lower, "走"@);
    if has_any_substring(lower, pats) {
        let k = choose|k: int| 0 <= k < pats.len() && has_substring(lower, #[trigger] pats[k]);
        assert(k == 0 || k == 1 || k == 2 || k == 3 || k == 4 || k == 5 || k == 6);
    }
    if has_substring(lower, "前进"@) {
        assert(has_substring(lower, pats[0]));
    }
    if has_substring(lower, "后退"@) {
        assert(has_substring(lower, pats[1]));
    }
    if has_substring(lower, "左转"@) {
        assert(has_substring(lower, pats[2]));
    }
    if has_substring(lower, "右转"@) {
        assert(has_substring(lower, pats[3]));
    }
    if has_substring(lower, "move"@) {
        assert(has_substring(lower, pats[4]));
    }
    if has_substring(lower, "turn"@) {
        assert(has_substring(lower, pats[5]));
    }
    if has_substring(lower, "走"@) {
        assert(has_substring(lower, pats[6]));
    }
    assert(has_any_substring(lower, pats) == moving);
    if forall|i: int| 0 <= i < lower.len() ==> !is_digit_char(#[trigger] lower[i]) {
        lemma_no_digit_no_run(lower);
    }
}

/// Normalisation acts on each action by the limits alone. A turn keeps its
/// angle and sign when it is within half a circle either way and is cut to
/// half a circle (180 degrees, same sign) when beyond it. A motion keeps each
/// speed that lies within its limit and its negation, and a speed beyond the
/// limit becomes the limit (the negated limit below it, for limits that are
/// not negative). Durations of at least `MIN_DURATION_MS` are kept, shorter
/// ones raised to it. Every other action is kept as it is.
pub proof fn lemma_normalize_each_action(p: PlanView, max_linear: int, max_angular: int)
    ensures
        ({
            let n = normalized_plan(p, max_linear, max_angular);
            forall|i: int|
                0 <= i < p.actions.len() ==> match #[trigger] p.actions[i] {
                    ActionView::Turn { degrees, duration_ms } => {
                        &&& n.actions[i] is Turn
                        &&& -180000 <= degrees <= 180000 ==> n.actions[i]->Turn_degrees == degrees
                        &&& degrees > 180000 ==> n.actions[i]->Turn_degrees == 180000
                        &&& degrees < -180000 ==> n.actions[i]->Turn_degrees == -180000
                        &&& duration_ms >= 100 ==> n.actions[i]->Turn_duration_ms == duration_ms
                        &&& duration_ms < 100 ==> n.actions[i]->Turn_duration_ms == 100
                    },
                    ActionView::Move { linear_x, linear_y, angular_z, duration_ms } => {
                        &&& n.actions[i] is Move
                        &&& -max_linear <= linear_x <= max_linear ==> n.actions[i]->linear_x
                            == linear_x
                        &&& linear_x > max_linear ==> n.actions[i]->linear_x == max_linear
                        &&& linear_x < -max_linear && max_linear >= 0 ==> n.actions[i]->linear_x
                            == -max_linear
                        &&& -max_linear <= linear_y <= max_linear ==> n.actions[i]->linear_y
                            == linear_y
                        &&& linear_y > max_linear ==> n.actions[i]->linear_y == max_linear
                        &&& linear_y < -max_linear && max_linear >= 0 ==> n.actions[i]->linear_y
                            == -max_linear
                        &&& -max_angular <= angular_z <= max_angular ==> n.actions[i]->angular_z
                            == angular_z
                        &&& angular_z > max_angular ==> n.actions[i]->angular_z == max_angular
                        &&& angular_z < -max_angular && max_angular >= 0
                            ==> n.actions[i]->angular_z == -max_angular
                        &&& duration_ms >= 100 ==> n.actions[i]->Move_duration_ms == duration_ms
                        &&& duration_ms < 100 ==> n.actions[i]->Move_duration_ms == 100
                    },
                    other => n.actions[i] == other,
                }
        }),
{
    let n = normalized_plan(p, max_linear, max_angular);
    assert forall|i: int| 0 <= i < p.actions.len() implies #[trigger] n.actions[i]
        == normalized_action(p.actions[i], max_linear, max_angular) by {}
}

proof fn lemma_decimal_digits_first(n: nat)
    ensures
        decimal_digits(n).len() > 0,
        is_digit_char(decimal_digits(n)[0]),
    decreases n,
{
    if n >= 10 {
        lemma_decimal_digits_first(n / 10);
        assert(decimal_digits(n)[0] == decimal_digits(n / 10)[0]);
    } else {
        assert(decimal_digits(n)[0] == crate::text::digit_of(n));
    }
}

/// A number is written with a leading minus sign exactly when it is
/// negative; otherwise it starts with a digit.
pub proof fn lemma_fixed_text_sign(m: int, decimals: nat)
    ensures
        fixed_text(m, decimals).len() > 0,
        fixed_text(m, decimals)[0] == '-' <==> m < 0,
        m >= 0 ==> is_digit_char(fixed_text(m, decimals)[0]),
{
    let a: nat = if m < 0 {
        (-m) as nat
    } else {
        m as nat
    };
    let rounded = crate::text::float_scaled(a, decimals);
    let scale = crate::text::pow10(decimals);
    lemma_decimal_digits_first(rounded / scale);
    let digits = decimal_digits(rounded / scale);
    if m < 0 {
        assert(fixed_text(m, decimals)[0] == '-');
    } else {
        assert(fixed_text(m, decimals)[0] == digits[0]);
    }
}

proof fn lemma_substring_in_concat(a: Seq<char>, b: Seq<char>, t: Seq<char>)
    ensures
        has_substring(a, t) ==> has_substring(a + b, t),
        has_substring(b, t) ==> has_substring(a + b, t),
{
    if has_substring(a, t) {
        let i = choose|i: int| crate::text::occurs_at(a, t, i);
        assert((a + b).subrange(i, i + t.len()) =~= a.subrange(i, i + t.len()));
        assert(crate::text::occurs_at(a + b, t, i));
    }
    if has_substring(b, t) {
        let i = choose|i: int| crate::text::occurs_at(b, t, i);
        assert((a + b).subrange(a.len() + i, a.len() + i + t.len()) =~= b.subrange(
            i,
            i + t.len(),
        ));
        assert(crate::text::occurs_at(a + b, t, a.len() + i));
    }
}

proof fn lemma_prefix_is_substring(a: Seq<char>, b: Seq<char>)
    ensures
        has_substring(a + b, a),
{
    assert((a + b).subrange(0, a.len() as int) =~= a);
    assert(crate::text::occurs_at(a + b, a, 0));
}

/// The `/cmd_vel` command that a motion publishes, with its three speeds
/// written as numbers with three decimals.
pub open spec fn twist_command(linear_x: int, linear_y: int, angular_z: int) -> Seq<char> {
    "ros2 topic pub --once /cmd_vel geometry_msgs/msg/Twist '{linear: {x: "@ + fixed_text(linear_x, 3)
        + ", y: "@ + fixed_text(linear_y, 3) + ", z: 0.0}, angular: {x: 0.0, y: 0.0, z: "@
        + fixed_text(angular_z, 3) + "}}'\n"@
}

proof fn lemma_script_lines_contain(acts: Seq<ActionView>, i: int)
    requires
        0 <= i < acts.len(),
    ensures
        has_substring(script_lines(acts), script_action_lines(acts[i])),
    decreases acts.len(),
{
    let init = acts.drop_last();
    if i == acts.len() - 1 {
        lemma_prefix_is_substring(script_action_lines(acts.last()), Seq::empty());
        assert(script_action_lines(acts.last()) + Seq::<char>::empty() =~= script_action_lines(
            acts.last(),
        ));
        lemma_substring_in_concat(
            script_lines(init),
            script_action_lines(acts.last()),
            script_action_lines(acts[i]),
        );
    } else {
        lemma_script_lines_contain(init, i);
        assert(init[i] == acts[i]);
        lemma_substring_in_concat(
            script_lines(init),
            script_action_lines(acts.last()),
            script_action_lines(acts[i]),
        );
    }
}

/// Every motion of a plan shows up in its ROS2 script as a `/cmd_vel`
/// command that publishes that motion's own speeds, each with its sign.
pub proof fn lemma_script_publishes_motions(p: PlanView, i: int)
    requires
        0 <= i < p.actions.len(),
    ensures
        p.actions[i] matches ActionView::Move { linear_x, linear_y, angular_z, .. }
            ==> has_substring(plan_script(p), twist_command(linear_x, linear_y, angular_z)),
{
    if let ActionView::Move { linear_x, linear_y, angular_z, duration_ms } = p.actions[i] {
        let cmd = twist_command(linear_x, linear_y, angular_z);
        let rest = "sleep "@ + fixed_text(float_rounded_count(duration_ms) as int, 3) + "\n"@;
        assert(script_action_lines(p.actions[i]) =~= cmd + rest);
        lemma_prefix_is_substring(cmd, rest);
        lemma_script_lines_contain(p.actions, i);
        let line = script_action_lines(p.actions[i]);
        let all = script_lines(p.actions);
        // the command sits inside the line, which sits inside the script
        let j = choose|j: int| crate::text::occurs_at(all, line, j);
        assert(all.subrange(j, j + cmd.len()) =~= cmd) by {
            assert(all.subrange(j, j + line.len()) == line);
            assert forall|k: int| 0 <= k < cmd.len() implies all.subrange(j, j + cmd.len())[k]
                == cmd[k] by {
                assert(all[j + k] == all.subrange(j, j + line.len())[k]);
                assert(line[k] == cmd[k]);
            }
        }
        assert(crate::text::occurs_at(all, cmd, j));
        lemma_substring_in_concat(script_header(), all, cmd);
    }
}

/// The offline plan sums up the prompt as typed (`离线解析完成：` and the
/// trimmed prompt), states the configured limits with two decimals in its
/// second note, and every spoken action repeats the prompt as typed, not
/// its lower-case form. A speak word (说, 讲, speak, voice) always brings a
/// spoken action; without one, a spoken action only comes as the whole
/// plan, when nothing else is asked for.
pub proof fn lemma_offline_plan_speech_and_summary(
    text: Seq<char>,
    lower: Seq<char>,
    max_linear: int,
    max_angular: int,
)
    ensures
        ({
            let p = offline_plan_view(text, lower, max_linear, max_angular);
            let speak = has_substring(lower, "说"@) || has_substring(lower, "讲"@)
                || has_substring(lower, "speak"@) || has_substring(lower, "voice"@);
            &&& p.summary == "离线解析完成："@ + text
            &&& p.safety_notes.len() == 2
            &&& p.safety_notes[1] == "建议最大线速度 "@ + fixed_text(max_linear, 2)
                + " m/s、最大角速度 "@ + fixed_text(max_angular, 2) + " rad/s。"@
            &&& forall|i: int|
                0 <= i < p.actions.len() && (#[trigger] p.actions[i]) is Speak
                    ==> p.actions[i]->Speak_text == text
            &&& speak ==> p.actions.contains(ActionView::Speak { text })
            &&& p.actions.contains(ActionView::Speak { text }) && !speak ==> p.actions
                == seq![ActionView::Speak { text }]
        }),
{
    lemma_any_of4(lower, "说"@, "讲"@, "speak"@, "voice"@);
    let p = offline_plan_view(text, lower, max_linear, max_angular);
    let k = keyword_actions(text, lower);
    let mv = match motion_named(lower, max_linear, max_angular) {
        Some((x, y, z, d)) => k.push(
            ActionView::Move { linear_x: x, linear_y: y, angular_z: z, duration_ms: d },
        ),
        None => k,
    };
    let sp = ActionView::Speak { text };
    lemma_keyword_actions_contain(text, lower, sp);
    assert forall|i: int| 0 <= i < p.actions.len() && (#[trigger] p.actions[i]) is Speak implies p.actions[i]->Speak_text
        == text by {
        if mv.len() > 0 {
            if i < k.len() {
                assert(k.contains(k[i]));
                lemma_keyword_actions_contain(text, lower, k[i]);
            }
        }
    }
    if mv.len() > 0 {
        if let Some((x, y, z, d)) = motion_named(lower, max_linear, max_angular) {
            lemma_push_if_contains(
                k,
                true,
                ActionView::Move { linear_x: x, linear_y: y, angular_z: z, duration_ms: d },
                sp,
            );
        }
    }
}

/// Normalisation keeps a summary that is not blank and notes that are not
/// empty; it only fills in what is missing.
pub proof fn lemma_normalize_keeps_summary_and_notes(p: PlanView, max_linear: int, max_angular: int)
    ensures
        !all_white_space(p.summary) ==> normalized_plan(p, max_linear, max_angular).summary
            == p.summary,
        all_white_space(p.summary) ==> normalized_plan(p, max_linear, max_angular).summary
            == "动作计划"@,
        p.safety_notes.len() > 0 ==> normalized_plan(p, max_linear, max_angular).safety_notes
            == p.safety_notes,
        p.safety_notes.len() == 0 ==> normalized_plan(p, max_linear, max_angular).safety_notes
            == seq!["无额外安全提示"@],
{
}

/// Clamping keeps a value inside the bounds unchanged, lifts one below the
/// lower bound to it and lowers one above the upper bound to it; for bounds
/// in order the result always lies between them.
pub proof fn lemma_clamp_bounds(value: int, min: int, max: int)
    ensures
        min <= value <= max ==> clamp_int(value, min, max) == value,
        value > max ==> clamp_int(value, min, max) == max,
        value < min && min <= max ==> clamp_int(value, min, max) == min,
        min <= max ==> min <= clamp_int(value, min, max) <= max,
{
}

/// The duration a prompt names comes from its first run of digits: none
/// without digits or when the number is beyond `u32::MAX`; the number
/// itself as milliseconds when seconds are not mentioned; a thousand times
/// it when they are (秒 or sec), and `u32::MAX` when that product does not
/// fit. The run is made of digits only.
pub proof fn lemma_duration_from_first_number(text: Seq<char>)
    ensures
        ({
            let ds = first_digit_run(text);
            let v = digits_value(ds);
            let seconds = has_substring(text, "秒"@) || has_substring(text, "sec"@);
            &&& forall|i: int| 0 <= i < ds.len() ==> is_digit_char(#[trigger] ds[i])
            &&& ds.len() == 0 ==> duration_named(text) is None
            &&& v > u32::MAX ==> duration_named(text) is None
            &&& ds.len() > 0 && v <= u32::MAX && !seconds ==> duration_named(text) == Some(v)
            &&& ds.len() > 0 && v <= 4294967 && seconds ==> duration_named(text) == Some(v * 1000)
            &&& ds.len() > 0 && 4294967 < v <= u32::MAX && seconds ==> duration_named(text)
                == Some(u32::MAX as nat)
        }),
{
    lemma_first_digit_run_digits(text);
}

/// The numbered line of the action at position `i` (counting from 1).
pub open spec fn numbered_line(i: int, a: ActionView) -> Seq<char> {
    "  "@ + decimal_digits((i + 1) as nat) + ". "@ + action_text(a) + "\n"@
}

proof fn lemma_numbered_lines_contain(acts: Seq<ActionView>, i: int)
    requires
        0 <= i < acts.len(),
    ensures
        has_substring(numbered_action_lines(acts), numbered_line(i, acts[i])),
    decreases acts.len(),
{
    let init = acts.drop_last();
    let last_line = "  "@ + decimal_digits(acts.len()) + ". "@ + action_text(acts.last()) + "\n"@;
    assert(numbered_action_lines(acts) == numbered_action_lines(init) + last_line);
    if i == acts.len() - 1 {
        assert(last_line =~= numbered_line(i, acts[i]));
        lemma_prefix_is_substring(last_line, Seq::empty());
        assert(last_line + Seq::<char>::empty() =~= last_line);
        lemma_substring_in_concat(numbered_action_lines(init), last_line, last_line);
    } else {
        lemma_numbered_lines_contain(init, i);
        assert(init[i] == acts[i]);
        lemma_substring_in_concat(
            numbered_action_lines(init),
            last_line,
            numbered_line(i, acts[i]),
        );
    }
}

/// The text rendering lists every action on its own line, numbered from 1
/// in plan order, and starts with the summary.
pub proof fn lemma_text_lists_actions(p: PlanView, i: int)
    requires
        0 <= i < p.actions.len(),
    ensures
        has_substring(plan_text(p), numbered_line(i, p.actions[i])),
        has_substring(plan_text(p), "计划："@ + p.summary + "\n"@),
{
    let head = "计划："@ + p.summary + "\n"@ + "动作：\n"@;
    let lines = numbered_action_lines(p.actions);
    let tail: Seq<char> = if p.safety_notes.len() > 0 {
        "安全提示：\n"@ + note_lines(p.safety_notes)
    } else {
        Seq::empty()
    };
    assert(plan_text(p) =~= head + lines + tail);
    lemma_numbered_lines_contain(p.actions, i);
    lemma_substring_in_concat(head, lines, numbered_line(i, p.actions[i]));
    lemma_substring_in_concat(head + lines, tail, numbered_line(i, p.actions[i]));
    let summary_line = "计划："@ + p.summary + "\n"@;
    assert(head =~= summary_line + "动作：\n"@);
    lemma_prefix_is_substring(summary_line, "动作：\n"@);
    lemma_substring_in_concat(head, lines, summary_line);
    lemma_substring_in_concat(head + lines, tail, summary_line);
}

/// A motion's description starts with its forward speed written with its
/// sign, and a turn's with its angle written with its sign.
pub proof fn lemma_action_text_signs(a: ActionView)
    ensures
        a matches ActionView::Move { linear_x, .. } ==> has_substring(
            action_text(a),
            "移动：linear_x="@ + fixed_text(linear_x, 3) + ", linear_y="@,
        ),
        a matches ActionView::Turn { degrees, .. } ==> has_substring(
            action_text(a),
            "转向：degrees="@ + fixed_text(degrees, 1) + ", duration_ms="@,
        ),
{
    match a {
        ActionView::Move { linear_x, linear_y, angular_z, duration_ms } => {
            let head = "移动：linear_x="@ + fixed_text(linear_x, 3) + ", linear_y="@;
            let rest = fixed_text(linear_y, 3) + ", angular_z="@ + fixed_text(angular_z, 3)
                + ", duration_ms="@ + decimal_digits(duration_ms);
            assert(action_text(a) =~= head + rest);
            lemma_prefix_is_substring(head, rest);
        },
        ActionView::Turn { degrees, duration_ms } => {
            let head = "转向：degrees="@ + fixed_text(degrees, 1) + ", duration_ms="@;
            assert(action_text(a) =~= head + decimal_digits(duration_ms));
            lemma_prefix_is_substring(head, decimal_digits(duration_ms));
        },
        _ => {},
    }
}

} // verus!
