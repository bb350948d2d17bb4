use robot_dog_rust::config::{AppConfig, RunMode};
use robot_dog_rust::llm::{
    authorization_value, build_system_prompt, chat_completions_url, extract_json_payload,
    first_choice_content, LlmError,
};

#[test]
fn extracts_json_from_code_fence() {
    let raw = "```json\n{\"summary\":\"ok\",\"actions\":[],\"safety_notes\":[]}\n```";
    let json = extract_json_payload(raw).unwrap();
    assert_eq!(
        json,
        "{\"summary\":\"ok\",\"actions\":[],\"safety_notes\":[]}"
    );
}

#[test]
fn extract_json_payload_errors() {
    assert_eq!(extract_json_payload("  {\"a\":1}  "), Ok("{\"a\":1}"));
    assert_eq!(extract_json_payload("no json"), Err(LlmError::NoJsonStart));
    assert_eq!(extract_json_payload("x { y"), Err(LlmError::NoJsonEnd));
    assert_eq!(extract_json_payload("} then {"), Err(LlmError::InvalidJsonRange));
    assert_eq!(extract_json_payload("a {x} b {y} c"), Ok("{x} b {y}"));
    assert_eq!(LlmError::NoJsonStart.message(), "响应里找不到 JSON 起始符号");
    assert_eq!(LlmError::NoJsonEnd.message(), "响应里找不到 JSON 结束符号");
    assert_eq!(LlmError::InvalidJsonRange.message(), "响应中的 JSON 区域不合法");
}

#[test]
fn extracting_twice_changes_nothing() {
    let once = extract_json_payload("text {\"a\": {\"b\": 2}} more").unwrap();
    assert_eq!(extract_json_payload(once), Ok(once));
}

fn test_config() -> AppConfig {
    AppConfig {
        mode: RunMode::Online,
        api_base_url: "https://api.openai.com/".to_string(),
        api_key: Some("sk-test".to_string()),
        model: "test".to_string(),
        robot_name: "mini_pupper_2".to_string(),
        max_linear_speed: 250,
        max_angular_speed: 1200,
    }
}

#[test]
fn chat_url_drops_trailing_slashes() {
    assert_eq!(chat_completions_url("https://api.openai.com//"), "https://api.openai.com/v1/chat/completions");
    assert_eq!(chat_completions_url("http://h:1"), "http://h:1/v1/chat/completions");
}

#[test]
fn authorization_needs_a_valid_key() {
    let mut config = test_config();
    assert_eq!(authorization_value(&config), Ok("Bearer sk-test".to_string()));
    config.api_key = Some("bad\nkey".to_string());
    assert_eq!(authorization_value(&config), Err(LlmError::InvalidApiKey));
    assert_eq!(LlmError::InvalidApiKey.message(), "API key 含有非法字符");
    config.api_key = Some("密钥\tx".to_string());
    assert_eq!(authorization_value(&config), Ok("Bearer 密钥\tx".to_string()));
    config.api_key = None;
    assert_eq!(authorization_value(&config), Err(LlmError::MissingApiKey));
    assert_eq!(LlmError::MissingApiKey.message(), "在线模式需要配置 ROBOT_DOG_OPENAI_API_KEY");
}

#[test]
fn system_prompt_states_name_and_limits() {
    let p = build_system_prompt(&test_config());
    assert!(p.starts_with("\n你是一个四足机器狗控制计划生成器。"));
    assert!(p.contains("- 机器人名称是 `mini_pupper_2`。\n"));
    assert!(p.contains("- 线速度绝对值不要超过 0.25。\n"));
    assert!(p.contains("- 角速度绝对值不要超过 1.20。\n"));
    assert!(p.contains("{\"type\":\"turn\",\"degrees\":30,\"duration_ms\":1200}"));
    assert!(p.ends_with("转换成安全近似动作。\n"));
}

#[test]
fn first_choice_content_takes_the_first() {
    assert_eq!(
        first_choice_content(&vec![Some("a".to_string()), Some("b".to_string())]),
        Ok("a".to_string())
    );
    assert_eq!(first_choice_content(&vec![None, Some("b".to_string())]), Err(LlmError::EmptyReply));
    assert_eq!(first_choice_content(&vec![]), Err(LlmError::EmptyReply));
    assert_eq!(LlmError::EmptyReply.message(), "大模型没有返回内容");
}
