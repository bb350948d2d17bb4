use robot_dog_rust::config::RunMode;
use robot_dog_rust::gateway::{
    accept_prompt, format_to_string, health_report, map_request_mode_to_run_mode,
    mode_to_string, plan_reply, response_format, GatewayError, RequestMode, ResponseFormat,
};
use robot_dog_rust::config::AppConfig;
use robot_dog_rust::planner::{render_ros2_script, render_text, RobotAction, RobotPlan};
use robot_dog_rust::service::{config_with_mode, resolve_plan, should_use_online};

#[test]
fn request_mode_to_run_mode_maps_correctly() {
    assert!(matches!(
        map_request_mode_to_run_mode(RequestMode::Online),
        RunMode::Online
    ));
    assert!(matches!(
        map_request_mode_to_run_mode(RequestMode::Offline),
        RunMode::Offline
    ));
}

#[test]
fn format_name_is_stable() {
    assert_eq!(format_to_string(ResponseFormat::Ros2Script), "ros2_script");
}

#[test]
fn mode_and_format_names() {
    assert_eq!(map_request_mode_to_run_mode(RequestMode::Auto), RunMode::Auto);
    assert_eq!(mode_to_string(RunMode::Auto), "auto");
    assert_eq!(mode_to_string(RunMode::Online), "online");
    assert_eq!(mode_to_string(RunMode::Offline), "offline");
    assert_eq!(format_to_string(ResponseFormat::Text), "text");
    assert_eq!(format_to_string(ResponseFormat::Json), "json");
}

fn test_config() -> AppConfig {
    AppConfig {
        mode: RunMode::Offline,
        api_base_url: "https://api.openai.com".to_string(),
        api_key: None,
        model: "test".to_string(),
        robot_name: "mini_pupper_2".to_string(),
        max_linear_speed: 250,
        max_angular_speed: 1200,
    }
}

#[test]
fn health_report_names_gateway() {
    let h = health_report(&test_config());
    assert_eq!(h.status, "ok");
    assert_eq!(h.gateway, "robot-dog-edge-gateway");
    assert_eq!(h.robot_name, "mini_pupper_2");
    assert_eq!(h.mode, "offline");
}

#[test]
fn blank_prompt_is_refused() {
    assert_eq!(accept_prompt("   "), Err(GatewayError::EmptyPrompt));
    assert_eq!(GatewayError::EmptyPrompt.message(), "prompt 不能为空");
    assert_eq!(accept_prompt(" 站起来 "), Ok("站起来".to_string()));
}

#[test]
fn reply_format_defaults_to_json() {
    assert_eq!(response_format(None), ResponseFormat::Json);
    assert_eq!(response_format(Some(ResponseFormat::Text)), ResponseFormat::Text);
}

#[test]
fn plan_reply_carries_script_and_rendering() {
    let plan = RobotPlan {
        summary: "s".to_string(),
        actions: vec![RobotAction::Move { linear_x: 150, linear_y: 0, angular_z: 0, duration_ms: 1000 }],
        safety_notes: vec![],
    };
    let reply = plan_reply(RunMode::Offline, None, ResponseFormat::Json, &plan, "{}".to_string());
    assert_eq!(reply.mode, "offline");
    assert_eq!(reply.format, "json");
    assert_eq!(reply.rendered, "{}");
    assert!(reply.ros2_script.contains("/cmd_vel"));
    let reply = plan_reply(RunMode::Offline, Some(RunMode::Auto), ResponseFormat::Text, &plan, String::new());
    assert_eq!(reply.mode, "auto");
    assert_eq!(reply.rendered, render_text(&plan));
    let reply = plan_reply(RunMode::Auto, None, ResponseFormat::Ros2Script, &plan, String::new());
    assert_eq!(reply.rendered, render_ros2_script(&plan));
    assert_eq!(reply.format, "ros2_script");
}

#[test]
fn offline_plan_reply_carries_ros2_script() {
    let config = test_config();
    let prompt = accept_prompt("站起来然后向前走1秒").unwrap();
    let mode = Some(map_request_mode_to_run_mode(RequestMode::Offline));
    let effective = config_with_mode(&config, mode);
    assert!(!should_use_online(&effective));
    let plan = resolve_plan(&prompt, &effective, None);
    let format = response_format(Some(ResponseFormat::Ros2Script));
    let reply = plan_reply(config.mode, mode, format, &plan, String::new());
    assert_eq!(reply.mode, "offline");
    assert_eq!(reply.format, "ros2_script");
    assert!(reply.ros2_script.contains("/cmd_vel"));
    assert_eq!(reply.rendered, reply.ros2_script);
}
