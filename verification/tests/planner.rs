use robot_dog_rust::config::{AppConfig, RunMode};
use robot_dog_rust::driver::render_output;
use robot_dog_rust::planner::{
    clamp, contains_any, extract_motion, normalize_action, normalize_plan, offline_plan,
    parse_duration_ms, render_action, render_ros2_script, render_text, PlanError, RobotAction,
    RobotPlan,
};
use robot_dog_rust::service::{config_with_mode, resolve_plan, should_use_online};

fn milli(x: f32) -> i64 {
    (x * 1000.0).round() as i64
}

fn test_config() -> AppConfig {
    AppConfig {
        mode: RunMode::Offline,
        api_base_url: "https://api.openai.com".to_string(),
        api_key: None,
        model: "test".to_string(),
        robot_name: "mini_pupper_2".to_string(),
        max_linear_speed: milli(0.25) as i32,
        max_angular_speed: milli(1.2) as i32,
    }
}

#[test]
fn offline_plan_detects_basic_actions() {
    let plan = offline_plan("让机器人站起来然后向前走2秒再停下", &test_config());
    assert!(plan.actions.iter().any(|a| matches!(a, RobotAction::Stand)));
    assert!(plan
        .actions
        .iter()
        .any(|a| matches!(a, RobotAction::Move { .. })));
    assert!(plan.actions.iter().any(|a| matches!(a, RobotAction::Stop)));
}

#[test]
fn normalize_plan_clamps_speed() {
    let plan = RobotPlan {
        summary: "".to_string(),
        actions: vec![RobotAction::Move {
            linear_x: milli(9.0),
            linear_y: milli(-9.0),
            angular_z: milli(9.0),
            duration_ms: 10,
        }],
        safety_notes: vec![],
    };
    let normalized = normalize_plan(plan, &test_config()).unwrap();
    match &normalized.actions[0] {
        RobotAction::Move {
            linear_x,
            linear_y,
            angular_z,
            duration_ms,
        } => {
            assert_eq!(*linear_x, milli(0.25));
            assert_eq!(*linear_y, milli(-0.25));
            assert_eq!(*angular_z, milli(1.2));
            assert_eq!(*duration_ms, 100);
        }
        other => panic!("unexpected action: {other:?}"),
    }
    assert!(!normalized.summary.is_empty());
    assert!(!normalized.safety_notes.is_empty());
}

#[test]
fn offline_plan_exact_for_stand_walk_stop() {
    let plan = offline_plan("  让机器人站起来然后向前走2秒再停下 ", &test_config());
    assert_eq!(plan.summary, "离线解析完成：让机器人站起来然后向前走2秒再停下");
    assert_eq!(
        plan.actions,
        vec![
            RobotAction::Stand,
            RobotAction::Stop,
            RobotAction::Move { linear_x: 0, linear_y: 0, angular_z: 0, duration_ms: 2000 },
        ]
    );
    assert_eq!(
        plan.safety_notes,
        vec![
            "离线模式只做关键词解析，适合先验证流程，不等于真实运动控制。".to_string(),
            "建议最大线速度 0.25 m/s、最大角速度 1.20 rad/s。".to_string(),
        ]
    );
}

#[test]
fn offline_plan_reads_upper_case_keywords() {
    let plan = offline_plan("STAND and DANCE", &test_config());
    assert_eq!(plan.actions, vec![RobotAction::Stand, RobotAction::Dance]);
    assert_eq!(plan.summary, "离线解析完成：STAND and DANCE");
}

#[test]
fn offline_plan_speaks_back_unknown_prompt() {
    let plan = offline_plan("  hello there  ", &test_config());
    assert_eq!(plan.actions, vec![RobotAction::Speak { text: "hello there".to_string() }]);
}

#[test]
fn offline_plan_speak_keeps_prompt_case() {
    let plan = offline_plan("Speak Hi", &test_config());
    assert_eq!(plan.actions, vec![RobotAction::Speak { text: "Speak Hi".to_string() }]);
}

#[test]
fn offline_plan_orders_actions_by_rule_not_by_prompt() {
    let plan = offline_plan("wave then sit then camera", &test_config());
    assert_eq!(
        plan.actions,
        vec![RobotAction::Sit, RobotAction::Wave, RobotAction::CameraScan]
    );
}

#[test]
fn offline_plan_turns_and_backs_up() {
    let plan = offline_plan("move back and turn right", &test_config());
    assert_eq!(
        plan.actions,
        vec![RobotAction::Move { linear_x: -150, linear_y: 0, angular_z: -600, duration_ms: 1500 }]
    );
}

#[test]
fn extract_motion_needs_a_motion_word() {
    assert_eq!(extract_motion("forward please", &test_config()), None);
    assert_eq!(
        extract_motion("move forward left 3 sec", &test_config()),
        Some((150, 0, 600, 3000))
    );
}

#[test]
fn extract_motion_caps_at_small_limits() {
    let mut config = test_config();
    config.max_linear_speed = 100;
    config.max_angular_speed = 200;
    assert_eq!(extract_motion("前进 左转", &config), Some((100, 0, 200, 1500)));
    assert_eq!(extract_motion("后退 前进", &config), Some((-100, 0, 0, 1500)));
}

#[test]
fn parse_duration_reads_first_number() {
    assert_eq!(parse_duration_ms("walk 250 then 3"), Some(250));
    assert_eq!(parse_duration_ms("走2秒"), Some(2000));
    assert_eq!(parse_duration_ms("wait 7 sec"), Some(7000));
    assert_eq!(parse_duration_ms("no digits"), None);
    assert_eq!(parse_duration_ms("4294967295"), Some(4294967295));
    assert_eq!(parse_duration_ms("4294967296"), None);
    assert_eq!(parse_duration_ms("5000000 sec"), Some(u32::MAX));
    assert_eq!(parse_duration_ms("007"), Some(7));
}

#[test]
fn contains_any_finds_any_pattern() {
    assert!(contains_any("please stand up", &["sit", "stand"]));
    assert!(!contains_any("please stand up", &["sit", "down"]));
    assert!(contains_any("abc", &[""]));
    assert!(!contains_any("abc", &[]));
}

#[test]
fn clamp_raises_then_lowers() {
    assert_eq!(clamp(5, 0, 10), 5);
    assert_eq!(clamp(-5, 0, 10), 0);
    assert_eq!(clamp(50, 0, 10), 10);
    assert_eq!(clamp(5, 10, 0), 0);
}

#[test]
fn normalize_refuses_empty_plan() {
    let plan = RobotPlan { summary: "x".to_string(), actions: vec![], safety_notes: vec![] };
    assert_eq!(normalize_plan(plan, &test_config()), Err(PlanError::EmptyPlan));
    assert_eq!(PlanError::EmptyPlan.message(), "动作计划为空");
}

#[test]
fn normalize_clamps_turns_and_keeps_others() {
    let plan = RobotPlan {
        summary: " \t".to_string(),
        actions: vec![
            RobotAction::Turn { degrees: milli(400.0), duration_ms: 50 },
            RobotAction::Speak { text: "hi".to_string() },
            RobotAction::Move { linear_x: 100, linear_y: -300, angular_z: -2000, duration_ms: 500 },
        ],
        safety_notes: vec!["keep away".to_string()],
    };
    let normalized = normalize_plan(plan, &test_config()).unwrap();
    assert_eq!(normalized.summary, "动作计划");
    assert_eq!(normalized.safety_notes, vec!["keep away".to_string()]);
    assert_eq!(
        normalized.actions,
        vec![
            RobotAction::Turn { degrees: 180000, duration_ms: 100 },
            RobotAction::Speak { text: "hi".to_string() },
            RobotAction::Move { linear_x: 100, linear_y: -250, angular_z: -1200, duration_ms: 500 },
        ]
    );
    assert_eq!(normalized.summary, "动作计划");
    let again = normalize_plan(normalized.clone(), &test_config()).unwrap();
    assert_eq!(again, normalized);
}

#[test]
fn normalize_action_turn_negative() {
    let a = normalize_action(&RobotAction::Turn { degrees: -200000, duration_ms: 1000 }, &test_config());
    assert_eq!(a, RobotAction::Turn { degrees: -180000, duration_ms: 1000 });
}

#[test]
fn render_action_formats_each_kind() {
    assert_eq!(render_action(&RobotAction::Stand), "站立");
    assert_eq!(render_action(&RobotAction::CameraScan), "摄像头巡检");
    assert_eq!(render_action(&RobotAction::Speak { text: "你好".to_string() }), "播报：你好");
    assert_eq!(
        render_action(&RobotAction::Move { linear_x: 150, linear_y: -5, angular_z: 0, duration_ms: 1500 }),
        "移动：linear_x=0.150, linear_y=-0.005, angular_z=0.000, duration_ms=1500"
    );
    assert_eq!(
        render_action(&RobotAction::Turn { degrees: 30250, duration_ms: 1200 }),
        "转向：degrees=30.2, duration_ms=1200"
    );
    assert_eq!(
        render_action(&RobotAction::Turn { degrees: -30350, duration_ms: 1 }),
        "转向：degrees=-30.4, duration_ms=1"
    );
}

fn sample_plan() -> RobotPlan {
    RobotPlan {
        summary: "测试".to_string(),
        actions: vec![
            RobotAction::Stand,
            RobotAction::Move { linear_x: 100, linear_y: 0, angular_z: -600, duration_ms: 1500 },
            RobotAction::Turn { degrees: 90000, duration_ms: 800 },
        ],
        safety_notes: vec!["注意".to_string()],
    }
}

#[test]
fn render_text_lists_actions_and_notes() {
    let text = render_text(&sample_plan());
    assert_eq!(
        text,
        "计划：测试\n动作：\n  1. 站立\n  2. 移动：linear_x=0.100, linear_y=0.000, angular_z=-0.600, duration_ms=1500\n  3. 转向：degrees=90.0, duration_ms=800\n安全提示：\n  - 注意\n"
    );
    let mut plan = sample_plan();
    plan.safety_notes.clear();
    assert!(!render_text(&plan).contains("安全提示"));
}

#[test]
fn render_ros2_script_publishes_motion() {
    let script = render_ros2_script(&sample_plan());
    let expected = "#!/usr/bin/env bash\nset -euo pipefail\n\n# 这个脚本是计划草稿。具体姿态控制话题需要按你的机器狗型号再适配。\n# 其中 Move 会映射到 /cmd_vel 示例。\n\n# 站立\nros2 topic pub --once /cmd_vel geometry_msgs/msg/Twist '{linear: {x: 0.100, y: 0.000, z: 0.0}, angular: {x: 0.0, y: 0.0, z: -0.600}}'\nsleep 1.500\n# 转向 90.0 度，持续 800 ms。这里需要接到具体姿态节点。\n";
    assert_eq!(script, expected);
}

#[test]
fn render_output_picks_rendering() {
    let plan = sample_plan();
    assert_eq!(render_output(&plan, true), render_ros2_script(&plan));
    assert_eq!(render_output(&plan, false), render_text(&plan));
}

#[test]
fn should_use_online_follows_mode_and_key() {
    let mut config = test_config();
    assert!(!should_use_online(&config));
    config.mode = RunMode::Online;
    assert!(should_use_online(&config));
    config.mode = RunMode::Auto;
    assert!(!should_use_online(&config));
    config.api_key = Some("k".to_string());
    assert!(should_use_online(&config));
}

#[test]
fn config_with_mode_overrides_only_mode() {
    let config = test_config();
    let c = config_with_mode(&config, Some(RunMode::Online));
    assert_eq!(c.mode, RunMode::Online);
    assert_eq!(c.robot_name, config.robot_name);
    assert_eq!(config_with_mode(&config, None).mode, RunMode::Offline);
}

#[test]
fn resolve_plan_falls_back_offline() {
    let config = test_config();
    let plan = resolve_plan("坐下", &config, None);
    assert_eq!(plan.actions, vec![RobotAction::Sit]);
    let online = RobotPlan { summary: "".to_string(), actions: vec![], safety_notes: vec![] };
    let plan = resolve_plan("坐下", &config, Some(online));
    assert_eq!(plan.actions, vec![RobotAction::Sit]);
    assert_eq!(plan.summary, "离线解析完成：坐下");
    let online = RobotPlan {
        summary: "online".to_string(),
        actions: vec![RobotAction::Wave],
        safety_notes: vec![],
    };
    let plan = resolve_plan("坐下", &config, Some(online));
    assert_eq!(plan.actions, vec![RobotAction::Wave]);
    assert_eq!(plan.safety_notes, vec!["无额外安全提示".to_string()]);
}

#[test]
fn sleep_line_matches_float_division() {
    let mut durations: Vec<u32> = vec![0, 1, 99, 1500, 16_777_215, 16_777_216, 16_777_217, 16_777_219, 33_554_435, u32::MAX, u32::MAX - 1];
    for k in 0..20_000u32 {
        durations.push(k.wrapping_mul(214_731) ^ 0x5a5a_5a5a);
        durations.push(16_777_000 + k * 3);
    }
    for d in durations {
        let plan = RobotPlan {
            summary: "s".to_string(),
            actions: vec![RobotAction::Move { linear_x: 0, linear_y: 0, angular_z: 0, duration_ms: d }],
            safety_notes: vec![],
        };
        let script = render_ros2_script(&plan);
        let expected = format!("sleep {:.3}\n", d as f32 / 1000.0);
        assert!(script.ends_with(&expected), "d = {d}: {script}");
    }
}
