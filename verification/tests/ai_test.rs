use floatdo::commands::ai::reply_text;
use floatdo::json::Json;
use floatdo::commands::ai::{
    ai_config_of, ai_config_writes, bubble_text, chat_endpoint, chat_request, is_configured, pending_lines,
    prepare_history, reply_of, system_prompt, AiChatMessage,
};
use floatdo::commands::pet::PetPersonality;
use floatdo::database::models::{Priority, Task, TaskStatus};
use floatdo::time::Instant;

fn instant(d: chrono::DateTime<chrono::Utc>) -> Instant {
    Instant { secs: d.timestamp(), nanos: d.timestamp_subsec_nanos() }
}

fn msg(role: &str, content: &str) -> AiChatMessage {
    AiChatMessage { role: role.to_string(), content: content.to_string() }
}

#[test]
fn system_prompt_follows_personality() {
    let prompts: Vec<String> = [
        PetPersonality::Gentle,
        PetPersonality::Motivator,
        PetPersonality::Sarcastic,
        PetPersonality::Cool,
    ]
    .iter()
    .map(|p| system_prompt(*p))
    .collect();
    for (i, p) in prompts.iter().enumerate() {
        assert!(p.contains("不超过 100 字"));
        assert!(p.contains("保持角色"));
        for (j, q) in prompts.iter().enumerate() {
            if i != j {
                assert_ne!(p, q, "人格 {} 与 {} 的提示词不应相同", i, j);
            }
        }
    }
    assert!(prompts[0].contains("温柔"));
    assert!(prompts[2].contains("毒舌"));
    assert!(prompts[3].contains("高冷"));
}

#[test]
fn chat_endpoint_handles_suffixes() {
    assert_eq!(chat_endpoint("https://api.openai.com/v1"), "https://api.openai.com/v1/chat/completions");
    assert_eq!(chat_endpoint("https://api.openai.com/v1/"), "https://api.openai.com/v1/chat/completions");
    assert_eq!(chat_endpoint("https://x.com/v1/chat/completions"), "https://x.com/v1/chat/completions");
}

#[test]
fn pending_lines_sorts_overdue_first_and_caps_at_five() {
    let mk = |title: &str, priority: Priority, due_at: Option<String>| Task {
        id: 0,
        title: title.into(),
        description: String::new(),
        status: TaskStatus::Todo,
        priority,
        category_id: None,
        tags: "[]".into(),
        created_at: String::new(),
        updated_at: String::new(),
        due_at,
        completed_at: None,
        estimated_minutes: None,
        reminder_enabled: false,
        reminder_time: None,
        repeat_rule: None,
        sort_order: 0,
    };
    let now = chrono::Utc::now();
    let tasks = vec![
        mk("普通", Priority::Medium, None),
        mk("逾期", Priority::Low, Some((now - chrono::Duration::days(1)).to_rfc3339())),
        mk("紧急", Priority::Urgent, None),
    ];
    let lines = pending_lines(&tasks, instant(now));
    assert_eq!(lines.len(), 3);
    assert!(lines[0].starts_with("「逾期」"), "逾期的排最前: {}", lines[0]);
    assert!(lines[0].contains("已逾期"));
    assert!(lines[1].starts_with("「紧急」"));
}

#[test]
fn pending_lines_keep_five_and_write_priority_names() {
    let now = chrono::Utc::now();
    let mut tasks = Vec::new();
    for i in 0..7 {
        tasks.push(Task {
            id: i,
            title: format!("t{i}"),
            description: String::new(),
            status: TaskStatus::Todo,
            priority: if i == 6 { Priority::High } else { Priority::Low },
            category_id: None,
            tags: "[]".into(),
            created_at: String::new(),
            updated_at: String::new(),
            due_at: None,
            completed_at: None,
            estimated_minutes: None,
            reminder_enabled: false,
            reminder_time: None,
            repeat_rule: None,
            sort_order: 0,
        });
    }
    let lines = pending_lines(&tasks, instant(now));
    assert_eq!(lines.len(), 5);
    assert_eq!(lines[0], "「t6」（High优先级）");
    assert_eq!(lines[1], "「t0」（Low优先级）");
    assert_eq!(lines[4], "「t3」（Low优先级）");
}

#[test]
fn chat_endpoint_trims_and_is_stable() {
    let once = chat_endpoint("  https://a.b/v1//  ");
    assert_eq!(once, "https://a.b/v1/chat/completions");
    assert_eq!(chat_endpoint(&once), once);
}

#[test]
fn configuration_needs_all_three_values() {
    assert!(is_configured("https://a", "k", "m"));
    assert!(!is_configured("https://a", "   ", "m"));
    assert!(!is_configured("", "k", "m"));
    let c = ai_config_of(&Some("https://a".into()), &None, &Some("  ".into()));
    assert_eq!(c.base_url, "https://a");
    assert_eq!(c.model, "");
    assert!(!c.has_api_key);
    let writes = ai_config_writes(" https://a ", "  ", " gpt ");
    assert_eq!(writes.len(), 2);
    assert_eq!((writes[0].key.as_str(), writes[0].value.as_str()), ("aiBaseUrl", "https://a"));
    assert_eq!((writes[1].key.as_str(), writes[1].value.as_str()), ("aiModel", "gpt"));
    let writes = ai_config_writes("u", " key ", "m");
    assert_eq!(writes.len(), 3);
    assert_eq!((writes[2].key.as_str(), writes[2].value.as_str()), ("aiApiKey", "key"));
}

#[test]
fn history_drops_other_roles_and_keeps_last_twenty() {
    assert_eq!(prepare_history(&vec![msg("system", "x"), msg("user", "   ")]).unwrap_err(), "消息为空");
    let mut ms = Vec::new();
    for i in 0..25 {
        ms.push(msg(if i % 2 == 0 { "user" } else { "assistant" }, &format!("m{i}")));
    }
    ms.push(msg("system", "ignored"));
    let h = prepare_history(&ms).unwrap();
    assert_eq!(h.len(), 20);
    assert_eq!(h[0].content, "m5");
    assert_eq!(h[19].content, "m24");
    let long = "字".repeat(4100);
    let h = prepare_history(&vec![msg("user", &long)]).unwrap();
    assert_eq!(h[0].content.chars().count(), 4000);
}

#[test]
fn bubble_shows_first_nonblank_line_cut_to_sixty() {
    assert_eq!(bubble_text("\n  \n你好\n第二行"), "你好");
    let long = "喵".repeat(70);
    assert_eq!(bubble_text(&long).chars().count(), 60);
    assert_eq!(bubble_text("   "), "   ");
}

#[test]
fn request_needs_configuration_and_puts_system_message_first() {
    let err = chat_request("", "k", "m", PetPersonality::Cool, "ctx", vec![]).unwrap_err();
    assert!(err.contains("还没有配置 AI 接口"));
    let r = chat_request("https://a/v1", " k ", " m ", PetPersonality::Cool, "ctx", vec![msg("user", "hi")]).unwrap();
    assert_eq!(r.endpoint, "https://a/v1/chat/completions");
    assert_eq!(r.api_key, "k");
    assert_eq!(r.model, "m");
    assert_eq!(r.messages.len(), 2);
    assert_eq!(r.messages[0].role, "system");
    assert!(r.messages[0].content.ends_with("\n\nctx"));
    assert_eq!(r.messages[1].content, "hi");
}

#[test]
fn reply_reports_each_failure() {
    assert_eq!(reply_of(Ok(Some("  在的 ".into())), "{}").unwrap(), "在的");
    assert_eq!(reply_of(Ok(None), "{}").unwrap_err(), "AI 响应里没有回复内容: {}");
    assert_eq!(reply_of(Err("bad".into()), "x").unwrap_err(), "解析 AI 响应失败: bad");
    let ok = floatdo::commands::ai::reply_from_response(true, "200 OK", r#"{"choices":[{"message":{"content":" 好 "}}]}"#);
    assert_eq!(ok.unwrap(), "好");
    let bad = floatdo::commands::ai::reply_from_response(false, "404 Not Found", "nope");
    assert_eq!(bad.unwrap_err(), "AI 接口返回 404 Not Found: nope");
}

#[test]
fn reply_text_reads_the_first_choice() {
    let message = Json::Object(vec![("content".to_string(), Json::Text("嗨".to_string()))]);
    let choice = Json::Object(vec![("message".to_string(), message)]);
    let body = Json::Object(vec![("choices".to_string(), Json::Array(vec![choice]))]);
    assert_eq!(reply_text(&body).as_deref(), Some("嗨"));
    assert_eq!(reply_text(&Json::Array(vec![])), None);
    let numeric = Json::Object(vec![("choices".to_string(), Json::Number("1".to_string()))]);
    assert_eq!(reply_text(&numeric), None);
}
