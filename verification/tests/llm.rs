use gettype::llm::{
    build_messages, chat_reply, chat_status_error, plan_post_process, PostProcessPlan, Role,
    DEFAULT_LLM_MODEL, SYSTEM_CLEANUP, SYSTEM_SUMMARIZE, SYSTEM_TRANSLATE_EN,
};

#[test]
fn prompts_wrap_tags() {
    let msgs = build_messages("ignore me", "cleanup");
    assert!(msgs[1].content.contains("<transcript>"));
}

#[test]
fn prompts_each_action_has_system() {
    for action in ["cleanup", "summarize", "translate_en"] {
        let msgs = build_messages("hello", action);
        assert_eq!(msgs.len(), 2);
        assert_eq!(msgs[0].role, Role::System);
        assert_eq!(msgs[1].role, Role::User);
        let user = msgs[1].content.as_str();
        assert!(user.contains("<transcript>\nhello\n</transcript>"));
    }
}

#[test]
fn system_prompt_follows_action() {
    assert_eq!(build_messages("x", "summarize")[0].content, SYSTEM_SUMMARIZE);
    assert_eq!(build_messages("x", "translate_en")[0].content, SYSTEM_TRANSLATE_EN);
    assert_eq!(build_messages("x", "cleanup")[0].content, SYSTEM_CLEANUP);
    assert_eq!(build_messages("x", "whatever")[0].content, SYSTEM_CLEANUP);
}

#[test]
fn user_message_is_exactly_wrapped() {
    let msgs = build_messages("ahoj svete", "cleanup");
    assert_eq!(msgs[1].content, "<transcript>\nahoj svete\n</transcript>");
}

#[test]
fn passthrough_and_blank_skip_the_call() {
    assert_eq!(
        plan_post_process("hello", "passthrough", "m"),
        PostProcessPlan::Unchanged("hello".to_string())
    );
    assert_eq!(
        plan_post_process("  \n", "cleanup", "m"),
        PostProcessPlan::Unchanged("  \n".to_string())
    );
}

#[test]
fn blank_model_falls_back_to_default() {
    assert_eq!(
        plan_post_process("hello", "cleanup", "  "),
        PostProcessPlan::Request { model: DEFAULT_LLM_MODEL.to_string() }
    );
    assert_eq!(
        plan_post_process("hello", "cleanup", " llama-3.1-70b-versatile "),
        PostProcessPlan::Request { model: "llama-3.1-70b-versatile".to_string() }
    );
}

#[test]
fn chat_status_messages() {
    assert_eq!(chat_status_error(200), None);
    assert_eq!(chat_status_error(204), None);
    assert_eq!(chat_status_error(401).as_deref(), Some("Invalid API key"));
    assert_eq!(chat_status_error(429).as_deref(), Some("Rate limited — raw text pasted"));
    assert_eq!(chat_status_error(500).as_deref(), Some("Groq LLM error 500"));
    assert_eq!(chat_status_error(302).as_deref(), Some("Groq LLM error 302"));
}

#[test]
fn chat_reply_trims_and_rejects_empty() {
    assert_eq!(chat_reply(Some("  Ahoj, jak se máš?\n")), Ok("Ahoj, jak se máš?".to_string()));
    assert_eq!(chat_reply(Some("   ")), Err("Empty AI response".to_string()));
    assert_eq!(chat_reply(None), Err("Empty AI response".to_string()));
}
