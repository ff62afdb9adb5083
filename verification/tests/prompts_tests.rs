use whatszara::orchestrator::WhatszaraOrchestrator;
use whatszara::policy::ContactMode;
use whatszara::prompts::{build_history, message, ChatRecord, ConversationPlan};

const JID: &str = "555@s.whatsapp.net";

#[test]
fn history_ends_with_the_new_message() {
    let earlier = vec![
        ChatRecord { is_from_me: false, content: "hi".to_string() },
        ChatRecord { is_from_me: true, content: "hello".to_string() },
    ];
    let h = build_history(&earlier, "what's up");
    let pairs: Vec<(&str, &str)> = h.iter().map(|m| (m.role.as_str(), m.content.as_str())).collect();
    assert_eq!(pairs, vec![("user", "hi"), ("assistant", "hello"), ("user", "what's up")]);
    assert_eq!(build_history(&vec![], "x").len(), 1);
    let m = message("system", "s");
    assert_eq!((m.role.as_str(), m.content.as_str()), ("system", "s"));
}

#[test]
fn chat_styles() {
    let mut o = WhatszaraOrchestrator::new("Linux");
    assert_eq!(
        o.chat_style_instruction(),
        "Write in a natural, human-like conversational tone. Vary sentence length, use contractions, and sound like a real person chatting on WhatsApp."
    );
    o.policy.set_chat_style("Robot");
    assert_eq!(
        o.chat_style_instruction(),
        "Write in a robotic, overly literal tone. Be excessively formal and stilted, like a malfunctioning robot."
    );
    o.policy.set_chat_style("Calm");
    assert_eq!(o.chat_style_instruction(), "Write in a calm, measured, and soothing tone. Be patient, gentle, and reassuring.");
    o.policy.set_chat_style("pirate");
    assert_eq!(o.chat_style_instruction(), "Write in the following style: pirate");
    o.policy.set_chat_style("");
    assert_eq!(o.chat_style_instruction(), "Write in a natural, human-like conversational tone.");
}

#[test]
fn ban_warning_text() {
    assert_eq!(
        WhatszaraOrchestrator::whatsapp_ban_warning(),
        "\n\n⚠️ WARNING: Do NOT use your primary WhatsApp account with this app. WhatsApp bans accounts that connect through unofficial clients like this bridge. Use a secondary or temporary phone number. You have been warned.\n"
    );
}

#[test]
fn chat_prompt_names_the_contact_and_style() {
    let o = WhatszaraOrchestrator::new("Linux");
    let p = o.chat_system_prompt(JID);
    let expected = format!(
        "You are Whatszara, a WhatsApp-connected AI assistant. You can only chat and answer questions. You cannot execute any desktop actions. Respond helpfully and concisely.\n\nCurrent contact JID: {}\n\nChat Style: {}\n{}",
        JID,
        o.chat_style_instruction(),
        WhatszaraOrchestrator::whatsapp_ban_warning()
    );
    assert_eq!(p, expected);
}

#[test]
fn assistant_prompt_names_platform_and_contact() {
    let o = WhatszaraOrchestrator::new("macOS");
    let p = o.assistant_system_prompt(JID);
    assert!(p.starts_with(&format!(
        "                    You are Whatszara, a desktop assistant running on macOS. You are currently chatting with JID: {}. ",
        JID
    )));
    assert!(p.contains("On macOS use `open` to launch apps, `osascript` for AppleScript. "));
    assert!(p.contains(&format!("send to the current contact: {}. ", JID)));
    assert!(p.contains("SINGLE ACTION:\n{\"chat\": \"Opening Firefox...\", \"tool\": \"open_app\", \"params\": {\"name\": \"Firefox\"}}\n\n"));
    assert!(p.ends_with("5. If multiple steps needed, use the \"actions\" array with thinking/delay_ms."));
    assert!(p.contains(&format!("{} {} \n\n", o.chat_style_instruction(), WhatszaraOrchestrator::whatsapp_ban_warning())));
}

#[test]
fn conversation_follows_the_contact_mode() {
    let mut o = WhatszaraOrchestrator::new("Linux");
    match o.plan_conversation("long text", JID) {
        ConversationPlan::Summarize { history, system } => {
            assert_eq!(history.len(), 1);
            assert_eq!((history[0].role.as_str(), history[0].content.as_str()), ("user", "long text"));
            assert_eq!(
                system,
                "Summarize the following WhatsApp message concisely in 2-3 sentences. Do not execute any actions. Only return a summary of the message."
            );
        }
        _ => panic!("expected a summary"),
    }
    o.policy.set_contact_mode(JID, ContactMode::Blocked);
    assert!(matches!(o.plan_conversation("x", JID), ConversationPlan::Refused));
    o.policy.set_contact_mode(JID, ContactMode::Chat);
    match o.plan_conversation("x", JID) {
        ConversationPlan::Chat { system } => assert_eq!(system, o.chat_system_prompt(JID)),
        _ => panic!("expected chat"),
    }
    o.policy.set_contact_mode(JID, ContactMode::Assistant);
    match o.plan_conversation("x", JID) {
        ConversationPlan::Assistant { system } => assert_eq!(system, o.assistant_system_prompt(JID)),
        _ => panic!("expected assistant"),
    }
}
