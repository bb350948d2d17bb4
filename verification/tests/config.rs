use robot_dog_rust::cli::{check_serve_options, prompt_from_argument, prompt_from_input, CliError};
use robot_dog_rust::config::{
    api_key_from_setting, choose_mode, config_from_settings, mode_from_lowered, run_mode_from_setting, AppConfig,
    RunMode,
};

#[test]
fn mode_setting_ignores_letter_case() {
    assert_eq!(run_mode_from_setting(Some("ONLINE")), RunMode::Online);
    assert_eq!(run_mode_from_setting(Some("Offline")), RunMode::Offline);
    assert_eq!(run_mode_from_setting(Some("auto")), RunMode::Auto);
    assert_eq!(run_mode_from_setting(Some(" online")), RunMode::Auto);
    assert_eq!(run_mode_from_setting(None), RunMode::Auto);
}

#[test]
fn lowered_mode_names() {
    assert_eq!(mode_from_lowered("online"), RunMode::Online);
    assert_eq!(mode_from_lowered("offline"), RunMode::Offline);
    assert_eq!(mode_from_lowered("Online"), RunMode::Auto);
    assert_eq!(mode_from_lowered(""), RunMode::Auto);
}

#[test]
fn blank_api_key_is_dropped() {
    assert_eq!(api_key_from_setting(Some("  ".to_string())), None);
    assert_eq!(api_key_from_setting(Some("k".to_string())), Some("k".to_string()));
    assert_eq!(api_key_from_setting(None), None);
}

#[test]
fn command_line_mode_wins() {
    assert_eq!(choose_mode(Some(RunMode::Offline), RunMode::Online), RunMode::Offline);
    assert_eq!(choose_mode(None, RunMode::Online), RunMode::Online);
}

#[test]
fn can_use_online_model_needs_key() {
    let mut config = AppConfig {
        mode: RunMode::Auto,
        api_base_url: String::new(),
        api_key: None,
        model: String::new(),
        robot_name: String::new(),
        max_linear_speed: 0,
        max_angular_speed: 0,
    };
    assert!(!config.can_use_online_model());
    config.api_key = Some("k".to_string());
    assert!(config.can_use_online_model());
}

#[test]
fn command_line_prompt_rules() {
    assert_eq!(check_serve_options(true, true), Err(CliError::ServeWithPrompt));
    assert_eq!(check_serve_options(true, false), Ok(()));
    assert_eq!(prompt_from_argument("  "), Err(CliError::EmptyPromptArgument));
    assert_eq!(prompt_from_argument(" 坐下 "), Ok("坐下".to_string()));
    assert_eq!(prompt_from_input("\n"), Err(CliError::EmptyInput));
    assert_eq!(prompt_from_input("stand\n"), Ok("stand".to_string()));
    assert_eq!(CliError::ServeWithPrompt.message(), "--serve 运行时不要同时传 --prompt");
    assert_eq!(CliError::EmptyInput.message(), "没有读取到有效指令");
    assert_eq!(CliError::EmptyPromptArgument.message(), "--prompt 不能为空");
    assert_eq!(CliError::NoPromptSource.message(), "请使用 --prompt 参数，或通过标准输入提供任务");
}

#[test]
fn settings_take_their_defaults() {
    let c = config_from_settings(None, None, None, Some(" ".to_string()), None, None, None, None);
    assert_eq!(c.mode, RunMode::Auto);
    assert_eq!(c.api_base_url, "https://api.openai.com");
    assert_eq!(c.api_key, None);
    assert_eq!(c.model, "gpt-4o-mini");
    assert_eq!(c.robot_name, "mini_pupper_2");
    assert_eq!(c.max_linear_speed, 250);
    assert_eq!(c.max_angular_speed, 1200);
    let c = config_from_settings(
        None,
        Some("OFFLINE"),
        Some("http://h".to_string()),
        Some("k".to_string()),
        Some("m".to_string()),
        Some("r".to_string()),
        Some(100),
        Some(200),
    );
    assert_eq!(c.mode, RunMode::Offline);
    assert_eq!(c.api_base_url, "http://h");
    assert_eq!(c.api_key, Some("k".to_string()));
    assert_eq!(c.model, "m");
    assert_eq!(c.robot_name, "r");
    assert_eq!((c.max_linear_speed, c.max_angular_speed), (100, 200));
    let c = config_from_settings(Some(RunMode::Online), Some("offline"), None, None, None, None, None, None);
    assert_eq!(c.mode, RunMode::Online);
}
