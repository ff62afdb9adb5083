use whatszara::orchestrator::{ActionResult, ApprovalOutcome, PendingAction, StepPlan, WhatszaraOrchestrator};
use whatszara::params::ParamMap;
use whatszara::policy::{ContactMode, RiskLevel};
use whatszara::reply::parse_ai_response;
use whatszara::reply::ActionStep;

const JID: &str = "555@s.whatsapp.net";
const OTHER: &str = "777@s.whatsapp.net";

fn params(pairs: &[(&str, &str)]) -> ParamMap {
    let mut p = ParamMap::new();
    for (k, v) in pairs {
        p.insert(k.to_string(), v.to_string());
    }
    p
}

fn step(tool: &str, pairs: &[(&str, &str)], thinking: Option<&str>, delay_ms: Option<u64>) -> ActionStep {
    ActionStep { tool: tool.to_string(), params: params(pairs), thinking: thinking.map(|t| t.to_string()), delay_ms }
}

fn pending(id: &str, action: &str, pairs: &[(&str, &str)], risk: &str, reason: &str, thinking: Option<&str>) -> PendingAction {
    PendingAction {
        id: id.to_string(),
        action: action.to_string(),
        params: params(pairs),
        risk_level: risk.to_string(),
        requires: vec!["confirmation".to_string()],
        contact_jid: JID.to_string(),
        reason: reason.to_string(),
        thinking: thinking.map(|t| t.to_string()),
        delay_ms: None,
    }
}

fn assistant_orchestrator() -> WhatszaraOrchestrator {
    let mut o = WhatszaraOrchestrator::new("Linux");
    o.policy.set_contact_mode(JID, ContactMode::Assistant);
    o.policy.add_to_allowlist(JID);
    o
}

fn with_three_pending() -> WhatszaraOrchestrator {
    let mut o = assistant_orchestrator();
    let steps = vec![
        step("execute_shell", &[("command", "ls")], Some("look around"), Some(10)),
        step("get_volume", &[], None, None),
        step("open_app", &[("name", "Firefox")], None, None),
        step("mystery_tool", &[], None, None),
    ];
    let plans = o.plan_action_steps(&steps, JID);
    assert_eq!(plans.len(), 4);
    o
}

#[test]
fn new_orchestrator_starts_idle() {
    let mut o = WhatszaraOrchestrator::new("Linux");
    assert_eq!(o.platform(), "Linux");
    assert!(o.pending_actions().is_empty());
    assert_eq!(o.action_counter, 0);
    assert!(!o.auto_read_enabled);
    assert_eq!(o.last_rowid, 0);
    assert_eq!(o.poll_interval_ms, 0);
    assert!(o.providers.providers.is_empty());
    o.start_auto_read();
    assert!(o.auto_read_enabled);
    o.stop_auto_read();
    assert!(!o.auto_read_enabled);
}

#[test]
fn steps_are_planned_by_the_policy() {
    let mut o = assistant_orchestrator();
    o.policy.tool_permissions.media_control_enabled = false;
    let steps = vec![
        step("execute_shell", &[("command", "ls")], Some("look around"), Some(10)),
        step("get_volume", &[], None, None),
        step("open_app", &[("name", "Firefox")], None, None),
        step("search_contacts", &[("query", "")], None, None),
    ];
    let plans = o.plan_action_steps(&steps, JID);
    assert_eq!(plans.len(), 4);
    match &plans[0] {
        StepPlan::Pending(p) => {
            assert_eq!(p.id, "pa_1");
            assert_eq!(p.action, "execute_shell");
            assert_eq!(p.risk_level, "high");
            assert_eq!(p.requires, vec!["image_captcha".to_string(), "recaptcha".to_string(), "confirmation".to_string()]);
            assert_eq!(p.reason, "Requires verification");
            assert_eq!(p.contact_jid, JID);
            assert_eq!(p.thinking.as_deref(), Some("look around"));
            assert_eq!(p.delay_ms, Some(10));
            assert_eq!(p.params.get("command").map(|s| s.as_str()), Some("ls"));
        }
        other => panic!("unexpected plan {:?}", other),
    }
    match &plans[1] {
        StepPlan::Blocked { action, reason } => {
            assert_eq!(action, "get_volume");
            assert_eq!(reason, "MediaControl tools are disabled by policy");
        }
        other => panic!("unexpected plan {:?}", other),
    }
    match &plans[2] {
        StepPlan::Pending(p) => {
            assert_eq!(p.id, "pa_2");
            assert_eq!(p.risk_level, "medium");
            assert_eq!(p.requires, vec!["confirmation".to_string()]);
        }
        other => panic!("unexpected plan {:?}", other),
    }
    match &plans[3] {
        StepPlan::Execute { index, risk_level } => {
            assert_eq!(*index, 3);
            assert_eq!(risk_level, "low");
        }
        other => panic!("unexpected plan {:?}", other),
    }
    assert_eq!(o.action_counter, 2);
    let ids: Vec<&str> = o.pending_actions().iter().map(|p| p.id.as_str()).collect();
    assert_eq!(ids, vec!["pa_1", "pa_2"]);
}

#[test]
fn pending_ids_stay_fresh_across_plans() {
    let mut o = with_three_pending();
    o.remove_pending_action("pa_3");
    let plans = o.plan_action_steps(&vec![step("run_command", &[], None, None)], JID);
    match &plans[0] {
        StepPlan::Pending(p) => assert_eq!(p.id, "pa_4"),
        other => panic!("unexpected plan {:?}", other),
    }
    let ids: Vec<&str> = o.pending_actions().iter().map(|p| p.id.as_str()).collect();
    assert_eq!(ids, vec!["pa_1", "pa_2", "pa_4"]);
}

#[test]
fn steps_from_untrusted_modes_are_blocked() {
    let mut o = WhatszaraOrchestrator::new("Linux");
    let plans = o.plan_action_steps(&vec![step("get_volume", &[], None, None)], JID);
    match &plans[0] {
        StepPlan::Blocked { reason, .. } => assert_eq!(reason, "Messages from this contact are summarized, not executed"),
        other => panic!("unexpected plan {:?}", other),
    }
    assert!(o.pending_actions().is_empty());
    o.policy.set_contact_mode(JID, ContactMode::Assistant);
    let plans = o.plan_action_steps(&vec![step("get_volume", &[], None, None)], JID);
    match &plans[0] {
        StepPlan::Blocked { reason, .. } => assert_eq!(reason, "Contact not in allowlist"),
        other => panic!("unexpected plan {:?}", other),
    }
}

#[test]
fn removing_and_rejecting_pending_actions() {
    let mut o = with_three_pending();
    assert_eq!(o.pending_actions().len(), 3);
    let removed = o.remove_pending_action("pa_2").unwrap();
    assert_eq!(removed.action, "open_app");
    assert!(o.remove_pending_action("pa_2").is_none());
    assert!(o.reject_pending_action("pa_1"));
    assert!(!o.reject_pending_action("pa_1"));
    assert_eq!(o.pending_actions().len(), 1);
    assert_eq!(o.pending_actions()[0].id, "pa_3");
}

#[test]
fn reject_all_for_one_contact_keeps_the_others() {
    let mut o = with_three_pending();
    o.policy.set_contact_mode(OTHER, ContactMode::Assistant);
    o.policy.add_to_allowlist(OTHER);
    o.plan_action_steps(&vec![step("open_app", &[], None, None)], OTHER);
    assert_eq!(o.pending_ids_for_contact(JID), vec!["pa_1".to_string(), "pa_2".to_string(), "pa_3".to_string()]);
    assert_eq!(o.reject_all_pending_for_contact(JID), 3);
    assert_eq!(o.pending_actions().len(), 1);
    assert_eq!(o.pending_actions()[0].contact_jid, OTHER);
    assert_eq!(o.reject_all_pending_for_contact(JID), 0);
}

#[test]
fn replies_approve_or_deny() {
    let o = with_three_pending();
    let (id, approve, p) = o.check_pending_action_reply("  ALLOW ", JID).unwrap();
    assert_eq!((id.as_str(), approve, p.id.as_str()), ("pa_1", true, "pa_1"));
    let (id, approve, p) = o.check_pending_action_reply("deny pa_2", JID).unwrap();
    assert_eq!((id.as_str(), approve, p.action.as_str()), ("pa_2", false, "open_app"));
    let (id, approve, p) = o.check_pending_action_reply("Allow ALL", JID).unwrap();
    assert_eq!((id.as_str(), approve, p.id.as_str()), ("__all__", true, "pa_1"));
    let (id, approve, _) = o.check_pending_action_reply("approve 3", JID).unwrap();
    assert_eq!((id.as_str(), approve), ("pa_3", true));
    let (id, approve, _) = o.check_pending_action_reply("yes", JID).unwrap();
    assert_eq!((id.as_str(), approve), ("pa_1", true));
    let (id, approve, _) = o.check_pending_action_reply("reject", JID).unwrap();
    assert_eq!((id.as_str(), approve), ("pa_1", false));
}

#[test]
fn other_replies_are_not_decisions() {
    let o = with_three_pending();
    assert!(o.check_pending_action_reply("no thanks", JID).is_none());
    assert!(o.check_pending_action_reply("hello", JID).is_none());
    assert!(o.check_pending_action_reply("allowance", JID).is_none());
    assert!(o.check_pending_action_reply("yes", OTHER).is_none());
}

#[test]
fn queries_list_the_pending_actions() {
    let o = with_three_pending();
    let text = o.check_pending_action_query("Show pending", JID).unwrap();
    assert!(text.starts_with("📋 *Pending Actions*\n\n1. *execute_shell*\n   🔴 Risk: High\n   `{\"command\":\"ls\"}`\n   ID: `pa_1`\n\n"));
    assert!(text.contains("2. *open_app*\n   🟡 Risk: Mid\n   `{\"name\":\"Firefox\"}`\n   ID: `pa_2`\n\n"));
    assert!(text.contains("3. *mystery_tool*\n   🔴 Risk: High\n   `{}`\n   ID: `pa_3`\n\n"));
    assert!(text.ends_with("Reply *ALLOW ALL* to execute all, *ALLOW <id>* for one, or *DENY ALL* to reject all."));
    assert_eq!(o.check_pending_action_query("what's pending?", JID), Some(text.clone()));
    assert!(o.check_pending_action_query("hello there", JID).is_none());
    assert!(o.check_pending_action_query("Show my contacts", JID).is_none());
    assert!(o.check_pending_action_query("list my chats", JID).is_none());
    assert!(o.check_pending_action_query("please list actions", JID).is_some());
    assert_eq!(
        o.check_pending_action_query("list", OTHER),
        Some("No pending actions. Send a command and if the AI requests a high-risk action, it will appear here for approval.".to_string())
    );
}

#[test]
fn approval_request_text() {
    let p = pending("pa_1", "execute_shell", &[("command", "ls -la")], "high", "Requires verification", Some("check files"));
    assert_eq!(
        WhatszaraOrchestrator::format_approval_request(&p),
        "⚠️ *Action Requires Approval*\n\nAction: `execute_shell`\nRisk: 🔴 *High*\nCommand: `ls -la`\n_Thinking:_ check files\nReason: Requires verification\n\n\nReply *ALLOW* to execute or *DENY* to reject."
    );
    let q = pending("pa_2", "open_app", &[("name", "Firefox")], "medium", "AI-triggered action from Assistant mode", None);
    assert_eq!(
        WhatszaraOrchestrator::format_approval_request(&q),
        "⚠️ *Action Requires Approval*\n\nAction: `open_app`\nRisk: 🟡 *Mid*\nApp: `Firefox`\n\n\nReply *ALLOW* to execute or *DENY* to reject."
    );
    let r = pending("pa_3", "get_volume", &[], "low", "", None);
    assert_eq!(
        WhatszaraOrchestrator::format_approval_request(&r),
        "⚠️ *Action Requires Approval*\n\nAction: `get_volume`\nRisk: 🟢 *Low*\n\n\nReply *ALLOW* to execute or *DENY* to reject."
    );
}

#[test]
fn batch_request_text() {
    assert_eq!(WhatszaraOrchestrator::format_batch_approval_request(&[]), "No pending actions.");
    let p = pending("pa_1", "execute_shell", &[("command", "ls")], "high", "x", Some("check"));
    let q = pending("pa_2", "open_app", &[("name", "Firefox")], "mid", "x", None);
    assert_eq!(
        WhatszaraOrchestrator::format_batch_approval_request(&[p.clone()]),
        WhatszaraOrchestrator::format_approval_request(&p)
    );
    assert_eq!(
        WhatszaraOrchestrator::format_batch_approval_request(&[p, q]),
        "⚠️ *Multiple Actions Require Approval*\n\n1. 🔴 execute_shell High `ls`\n   _check_\n2. 🟡 open_app Mid `Firefox`\n\nReply *ALLOW ALL* to execute all, *ALLOW <id>* for one, or *DENY ALL* to reject all."
    );
}

#[test]
fn confirmation_and_rejection_text() {
    let p = pending("pa_1", "open_app", &[("name", "Firefox")], "medium", "x", None);
    let mut res = ActionResult::fail("open_app", "");
    assert_eq!(
        WhatszaraOrchestrator::format_approval_confirmation(&p, &res),
        "✅ *Action Approved*\n\nAction: `open_app`\nRisk: 🟡 Mid\n\nApplication launched"
    );
    res.output = "  launched ok \n".to_string();
    assert_eq!(
        WhatszaraOrchestrator::format_approval_confirmation(&p, &res),
        "✅ *Action Approved*\n\nAction: `open_app`\nRisk: 🟡 Mid\n\n```\nlaunched ok\n```"
    );
    let long = ActionResult::fail("open_app", &"e".repeat(300));
    let text = WhatszaraOrchestrator::format_approval_confirmation(&p, &long);
    assert!(text.ends_with(&format!("Error: {}", "e".repeat(200))));
    let other = pending("pa_9", "frobnicate", &[], "weird", "x", None);
    assert_eq!(
        WhatszaraOrchestrator::format_approval_confirmation(&other, &ActionResult::fail("frobnicate", " ")),
        "✅ *Action Approved*\n\nAction: `frobnicate`\nRisk: 🔴 High\n\nError: "
    );
    assert_eq!(
        WhatszaraOrchestrator::format_rejection_confirmation(&p),
        "❌ *Action Denied*\n\nAction: `open_app`\nRisk: 🟡 Mid\n\nThe action was not executed."
    );
}

#[test]
fn long_output_is_cut_to_five_hundred_chars() {
    let p = pending("pa_1", "execute_shell", &[], "high", "x", None);
    let mut res = ActionResult::fail("execute_shell", "");
    res.output = "é".repeat(600);
    let text = WhatszaraOrchestrator::format_approval_confirmation(&p, &res);
    assert!(text.ends_with(&format!("```\n{}\n```", "é".repeat(500))));
}

#[test]
fn approving_decides_again() {
    let mut o = with_three_pending();
    match o.approve_pending_action("pa_2") {
        ApprovalOutcome::Run { pending, risk_level } => {
            assert_eq!(pending.id, "pa_2");
            assert_eq!(risk_level, "medium");
        }
        other => panic!("unexpected outcome {:?}", other),
    }
    assert!(matches!(o.approve_pending_action("pa_2"), ApprovalOutcome::NotFound));
    o.policy.set_contact_mode(JID, ContactMode::Blocked);
    match o.approve_pending_action("pa_3") {
        ApprovalOutcome::Refused { action, reason } => {
            assert_eq!(action, "mystery_tool");
            assert_eq!(reason, "This contact is blocked");
        }
        other => panic!("unexpected outcome {:?}", other),
    }
    assert_eq!(o.pending_actions().len(), 1);
}

#[test]
fn high_risk_waits_for_a_verified_captcha() {
    let mut o = with_three_pending();
    match o.approve_pending_action("pa_1") {
        ApprovalOutcome::CaptchaRequired { pending } => assert_eq!(pending.id, "pa_1"),
        other => panic!("unexpected outcome {:?}", other),
    }
    assert_eq!(o.pending_actions().len(), 3);
    // a captcha for another action or contact does not count
    let other = o.policy.create_captcha(JID, "pa_3", RiskLevel::High);
    assert!(o.policy.verify_captcha(&other.id, &other.text));
    let stranger = o.policy.create_captcha(OTHER, "pa_1", RiskLevel::High);
    assert!(o.policy.verify_captcha(&stranger.id, &stranger.text));
    assert!(matches!(o.approve_pending_action("pa_1"), ApprovalOutcome::CaptchaRequired { .. }));
    // a wrong answer does not count either
    let c = o.policy.create_captcha(JID, "pa_1", RiskLevel::High);
    assert!(!o.policy.verify_captcha(&c.id, "nope"));
    assert!(matches!(o.approve_pending_action("pa_1"), ApprovalOutcome::CaptchaRequired { .. }));
    assert!(o.policy.verify_captcha(&c.id, &c.text.to_lowercase()));
    match o.approve_pending_action("pa_1") {
        ApprovalOutcome::Run { pending, risk_level } => {
            assert_eq!(pending.action, "execute_shell");
            assert_eq!(risk_level, "high");
        }
        other => panic!("unexpected outcome {:?}", other),
    }
    assert_eq!(o.pending_actions().len(), 2);
}

#[test]
fn new_orchestrator_policy_defaults() {
    let o = WhatszaraOrchestrator::new("Linux");
    let t = &o.policy.tool_permissions;
    assert!(t.shell_enabled && t.file_access_enabled && t.media_control_enabled && t.app_launching_enabled && t.whatsapp_enabled);
    assert!(o.policy.captcha_challenges.is_empty());
    assert_eq!(o.policy.captcha_counter, 0);
    assert_eq!(o.policy.allowlist, vec!["self".to_string()]);
    assert!(o.policy.contact_modes.is_empty());
    assert_eq!(o.policy.chat_style, "Human");
}

#[test]
fn opening_an_app_waits_for_confirmation() {
    let mut o = assistant_orchestrator();
    let (_, steps) = parse_ai_response("{\"chat\":\"Opening\",\"tool\":\"open_app\",\"params\":{\"name\":\"Firefox\"}}");
    let plans = o.plan_action_steps(&steps, JID);
    match &plans[0] {
        StepPlan::Pending(p) => {
            assert_eq!(p.id, "pa_1");
            assert_eq!(p.requires, vec!["confirmation".to_string()]);
        }
        other => panic!("unexpected plan {:?}", other),
    }
    assert_eq!(o.pending_actions().len(), 1);
    assert_eq!(o.pending_actions()[0].action, "open_app");
}

#[test]
fn other_modes_queue_nothing() {
    let mut o = WhatszaraOrchestrator::new("Linux");
    o.policy.set_contact_mode(JID, ContactMode::Chat);
    o.policy.add_to_allowlist(JID);
    let plans = o.plan_action_steps(&vec![step("execute_shell", &[], None, None), step("get_volume", &[], None, None)], JID);
    assert!(plans.iter().all(|p| matches!(p, StepPlan::Blocked { .. })));
    assert!(o.pending_actions().is_empty());
    assert_eq!(o.action_counter, 0);
}

#[test]
fn direct_requests_get_a_decision() {
    let o = assistant_orchestrator();
    let d = o.handle_action("get_volume", ParamMap::new(), JID);
    assert!(d.allowed);
    assert_eq!(d.reason, "Auto-approved");
    assert_eq!(d.risk_level, "low");
    assert!(d.requires_verification.is_empty());
    let d = o.handle_action("get_volume", ParamMap::new(), OTHER);
    assert!(!d.allowed);
    assert_eq!(d.risk_level, "summarize");
}

#[test]
fn reverse_steps() {
    let r = WhatszaraOrchestrator::build_reverse("set_volume").unwrap();
    assert_eq!(r.action, "set_volume");
    assert_eq!(r.params.get("level").map(|s| s.as_str()), Some("50"));
    assert_eq!(r.params.len(), 1);
    let r = WhatszaraOrchestrator::build_reverse("play_music").unwrap();
    assert_eq!(r.action, "pause_music");
    assert_eq!(r.params.len(), 0);
    assert!(WhatszaraOrchestrator::build_reverse("open_app").is_none());
}

#[test]
fn default_provider_settings() {
    let mut o = WhatszaraOrchestrator::new("Linux");
    o.register_default_providers(None, None, None, None, None, None);
    let p = &o.providers.providers[0];
    assert_eq!(p.api_key, "");
    assert_eq!(p.model, "openai/gpt-4o");
    assert_eq!(p.endpoint, "https://api.meshapi.ai/v1");
    assert_eq!(p.openai_key, "");
    o.register_default_providers(
        None,
        Some("k2".to_string()),
        Some("http://localhost:9".to_string()),
        Some("o".to_string()),
        Some("a".to_string()),
        Some("g".to_string()),
    );
    let p = &o.providers.providers[1];
    assert_eq!(p.api_key, "k2");
    assert_eq!(p.endpoint, "http://localhost:9");
    assert_eq!((p.openai_key.as_str(), p.anthropic_key.as_str(), p.groq_key.as_str()), ("o", "a", "g"));
    o.register_default_providers(Some("k1".to_string()), Some("k2".to_string()), None, None, None, None);
    assert_eq!(o.providers.providers[2].api_key, "k1");
    assert_eq!(o.providers.active, 0);
}

#[test]
fn replies_and_queries_ignore_letter_case() {
    let o = with_three_pending();
    let (id, approve, _) = o.check_pending_action_reply("APPROVE PA_2", JID).unwrap();
    assert_eq!((id.as_str(), approve), ("pa_2", true));
    assert!(o.check_pending_action_query("  SHOW PENDING  ", JID).is_some());
    assert!(o.check_pending_action_query("WHAT IS PENDING", JID).is_some());
}

#[test]
fn pending_list_quotes_parameter_text() {
    let p = pending("pa_7", "execute_shell", &[("command", "echo \"hi\"\n")], "high", "x", None);
    let text = WhatszaraOrchestrator::format_pending_actions_list(&[p]);
    assert!(text.contains("   `{\"command\":\"echo \\\"hi\\\"\\n\"}`\n   ID: `pa_7`\n\n"));
}

#[test]
fn approving_all_of_a_contact_goes_in_order() {
    let mut o = with_three_pending();
    o.policy.set_contact_mode(OTHER, ContactMode::Assistant);
    o.policy.add_to_allowlist(OTHER);
    o.plan_action_steps(&vec![step("open_app", &[], None, None)], OTHER);
    let outcomes = o.approve_all_pending_for_contact(JID);
    assert_eq!(outcomes.len(), 3);
    assert!(matches!(&outcomes[0], ApprovalOutcome::CaptchaRequired { pending } if pending.id == "pa_1"));
    assert!(matches!(&outcomes[1], ApprovalOutcome::Run { pending, .. } if pending.id == "pa_2"));
    assert!(matches!(&outcomes[2], ApprovalOutcome::CaptchaRequired { pending } if pending.id == "pa_3"));
    let ids: Vec<&str> = o.pending_actions().iter().map(|p| p.id.as_str()).collect();
    assert_eq!(ids, vec!["pa_1", "pa_3", "pa_4"]);
}

#[test]
fn plans_are_summed_up() {
    let mut o = assistant_orchestrator();
    o.policy.tool_permissions.media_control_enabled = false;
    let steps = vec![
        step("search_contacts", &[], None, None),
        step("open_app", &[], None, None),
        step("get_volume", &[], None, None),
        step("execute_shell", &[], None, None),
    ];
    let plans = o.plan_action_steps(&steps, JID);
    let s = WhatszaraOrchestrator::summarize_plans(&plans);
    let ids: Vec<&str> = s.pending.iter().map(|p| p.id.as_str()).collect();
    assert_eq!(ids, vec!["pa_1", "pa_2"]);
    assert!(s.auto_executed);
    assert!(s.anything_blocked);
    let only_pending = o.plan_action_steps(&vec![step("open_app", &[], None, None)], JID);
    let s = WhatszaraOrchestrator::summarize_plans(&only_pending);
    assert!(!s.auto_executed && !s.anything_blocked);
    assert_eq!(s.pending[0].id, "pa_3");
    let s = WhatszaraOrchestrator::summarize_plans(&Vec::new());
    assert!(s.pending.is_empty() && !s.auto_executed && !s.anything_blocked);
}
