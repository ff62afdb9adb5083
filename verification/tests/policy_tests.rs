use whatszara::params::ParamMap;
use whatszara::policy::{
    captcha_text, ContactMode, PolicyEngine, RiskLevel, ToolCategory, ToolPermissions, CAPTCHA_LENGTH,
    CAPTCHA_MAX_ATTEMPTS,
};

const ALPHABET: &str = "ABCDEFGHJKLMNPQRSTUVWXYZ23456789";

fn assistant_engine(jid: &str) -> PolicyEngine {
    let mut e = PolicyEngine::new();
    e.set_contact_mode(jid, ContactMode::Assistant);
    e.add_to_allowlist(jid);
    e
}

#[test]
fn actions_fall_into_categories() {
    assert_eq!(ToolCategory::from_action("execute_shell"), ToolCategory::Shell);
    assert_eq!(ToolCategory::from_action("run_command"), ToolCategory::Shell);
    assert_eq!(ToolCategory::from_action("list_images"), ToolCategory::FileAccess);
    assert_eq!(ToolCategory::from_action("send_file"), ToolCategory::FileAccess);
    assert_eq!(ToolCategory::from_action("set_volume"), ToolCategory::MediaControl);
    assert_eq!(ToolCategory::from_action("open_app"), ToolCategory::AppLaunching);
    assert_eq!(ToolCategory::from_action("search_contacts"), ToolCategory::WhatsApp);
    assert_eq!(ToolCategory::from_action("something_else"), ToolCategory::Shell);
}

#[test]
fn permissions_start_enabled() {
    let mut p = ToolPermissions::default();
    assert!(p.is_category_enabled(ToolCategory::Shell));
    assert!(p.is_category_enabled(ToolCategory::WhatsApp));
    p.media_control_enabled = false;
    assert!(!p.is_category_enabled(ToolCategory::MediaControl));
    assert!(p.is_category_enabled(ToolCategory::FileAccess));
}

#[test]
fn risk_levels_ask_for_checks() {
    assert!(RiskLevel::High.requires_captcha());
    assert!(RiskLevel::High.requires_image_captcha());
    assert!(RiskLevel::High.requires_confirmation());
    assert!(!RiskLevel::Medium.requires_captcha());
    assert!(RiskLevel::Medium.requires_confirmation());
    assert!(!RiskLevel::Low.requires_confirmation());
    assert!(!RiskLevel::Low.requires_image_captcha());
}

#[test]
fn new_engine_defaults() {
    let e = PolicyEngine::new();
    assert!(e.is_allowed("self"));
    assert!(!e.is_allowed("someone"));
    assert_eq!(e.chat_style, "Human");
    assert_eq!(e.poll_interval_ms, 0);
    assert_eq!(e.get_contact_mode("anyone@s.whatsapp.net"), ContactMode::Summarize);
    assert_eq!(ContactMode::default(), ContactMode::Summarize);
    assert!(e.captcha_challenges.is_empty());
    let d = PolicyEngine::default();
    assert_eq!(d.allowlist, vec!["self".to_string()]);
}

#[test]
fn contact_modes_are_remembered() {
    let mut e = PolicyEngine::new();
    e.set_contact_mode("a", ContactMode::Chat);
    e.set_contact_mode("b", ContactMode::Blocked);
    e.set_contact_mode("a", ContactMode::Assistant);
    assert_eq!(e.get_contact_mode("a"), ContactMode::Assistant);
    assert_eq!(e.get_contact_mode("b"), ContactMode::Blocked);
    assert_eq!(e.get_contact_mode("c"), ContactMode::Summarize);
    assert_eq!(e.contact_modes.len(), 2);
}

#[test]
fn allowlist_add_and_remove() {
    let mut e = PolicyEngine::new();
    e.add_to_allowlist("x");
    e.add_to_allowlist("x");
    assert_eq!(e.allowlist, vec!["self".to_string(), "x".to_string()]);
    assert!(e.is_allowed("x"));
    e.remove_from_allowlist("x");
    assert!(!e.is_allowed("x"));
    assert!(e.is_allowed("self"));
    e.remove_from_allowlist("never-there");
    assert_eq!(e.allowlist, vec!["self".to_string()]);
}

#[test]
fn chat_style_is_set() {
    let mut e = PolicyEngine::new();
    e.set_chat_style("Pirate");
    assert_eq!(e.chat_style, "Pirate");
}

#[test]
fn untrusted_modes_are_refused() {
    let mut e = PolicyEngine::new();
    e.add_to_allowlist("b");
    e.set_contact_mode("b", ContactMode::Blocked);
    let (_, d) = e.propose("get_volume", ParamMap::new(), "b", "r");
    assert!(!d.allowed);
    assert_eq!(d.reason, "This contact is blocked");
    assert_eq!(d.risk_level, "blocked");
    assert!(d.requires_verification.is_empty());

    e.set_contact_mode("b", ContactMode::Chat);
    let (_, d) = e.propose("get_volume", ParamMap::new(), "b", "r");
    assert_eq!(d.reason, "Contact is in chat-only mode");
    assert_eq!(d.risk_level, "chat");

    let (_, d) = e.propose("get_volume", ParamMap::new(), "unknown", "r");
    assert_eq!(d.reason, "Messages from this contact are summarized, not executed");
    assert_eq!(d.risk_level, "summarize");
}

#[test]
fn assistant_outside_allowlist_is_refused() {
    let mut e = PolicyEngine::new();
    e.set_contact_mode("a", ContactMode::Assistant);
    let (_, d) = e.propose("get_volume", ParamMap::new(), "a", "r");
    assert!(!d.allowed);
    assert_eq!(d.reason, "Contact not in allowlist");
    assert_eq!(d.risk_level, "blocked");
}

#[test]
fn disabled_tools_are_refused() {
    let mut e = assistant_engine("a");
    e.tool_permissions.shell_enabled = false;
    let (p, d) = e.propose("execute_shell", ParamMap::new(), "a", "r");
    assert_eq!(p.tool_category, ToolCategory::Shell);
    assert!(!d.allowed);
    assert_eq!(d.reason, "Shell tools are disabled by policy");
    assert_eq!(d.risk_level, "policy_blocked");
}

#[test]
fn risk_decides_what_is_verified() {
    let e = assistant_engine("a");
    let (p, d) = e.propose("get_volume", ParamMap::new(), "a", "because");
    assert_eq!(p.risk_level, RiskLevel::Low);
    assert_eq!(p.reason, "because");
    assert_eq!(p.action, "get_volume");
    assert!(d.allowed);
    assert_eq!(d.reason, "Auto-approved");
    assert_eq!(d.risk_level, "low");
    assert!(d.requires_verification.is_empty());

    let (p, d) = e.propose("open_app", ParamMap::new(), "a", "r");
    assert_eq!(p.risk_level, RiskLevel::Medium);
    assert!(!d.allowed);
    assert_eq!(d.reason, "Requires verification");
    assert_eq!(d.risk_level, "medium");
    assert_eq!(d.requires_verification, vec!["confirmation".to_string()]);

    let (p, d) = e.propose("delete_file", ParamMap::new(), "a", "r");
    assert_eq!(p.risk_level, RiskLevel::High);
    assert_eq!(d.risk_level, "high");
    assert_eq!(
        d.requires_verification,
        vec!["image_captcha".to_string(), "recaptcha".to_string(), "confirmation".to_string()]
    );

    let (p, _) = e.propose("mystery", ParamMap::new(), "a", "r");
    assert_eq!(p.risk_level, RiskLevel::High);
    assert_eq!(p.tool_category, ToolCategory::Shell);
}

#[test]
fn proposals_keep_their_parameters() {
    let e = assistant_engine("a");
    let mut params = ParamMap::new();
    params.insert("command".to_string(), "ls".to_string());
    let (p, _) = e.propose("execute_shell", params, "a", "r");
    assert_eq!(p.params.get("command").map(|s| s.as_str()), Some("ls"));
    let d = e.evaluate_proposal(&p, "a");
    assert_eq!(d.risk_level, "high");
}

#[test]
fn captcha_text_spells_the_draws() {
    assert_eq!(captcha_text(&vec![0, 1, 31, 8, 23, 24]), "AB9JZ2");
    assert_eq!(captcha_text(&vec![]), "");
}

#[test]
fn captchas_are_numbered_and_kept() {
    let mut e = PolicyEngine::new();
    let c0 = e.create_captcha("jid", "pa_1", RiskLevel::High);
    let c1 = e.create_captcha("jid", "pa_2", RiskLevel::High);
    assert_eq!(c0.id, "captcha_0");
    assert_eq!(c1.id, "captcha_1");
    assert_eq!(e.captcha_counter, 2);
    assert_eq!(c0.text.chars().count(), CAPTCHA_LENGTH);
    assert!(c0.text.chars().all(|ch| ALPHABET.contains(ch)));
    assert_eq!(c0.contact_jid, "jid");
    assert_eq!(c0.action_id, "pa_1");
    assert_eq!(c0.attempts, 0);
    assert_eq!(c0.max_attempts, CAPTCHA_MAX_ATTEMPTS);
    assert!(!c0.verified);
    assert_eq!(e.captcha_challenges.len(), 2);
    assert_eq!(e.captcha_challenges[1].id, "captcha_1");
}

#[test]
fn right_answer_verifies_ignoring_case_and_space() {
    let mut e = PolicyEngine::new();
    let c = e.create_captcha("jid", "pa_1", RiskLevel::High);
    let answer = format!("  {} ", c.text.to_lowercase());
    assert!(e.verify_captcha(&c.id, &answer));
    assert!(e.captcha_challenges[0].verified);
    assert_eq!(e.captcha_challenges[0].attempts, 1);
}

#[test]
fn three_wrong_answers_drop_the_captcha() {
    let mut e = PolicyEngine::new();
    let c = e.create_captcha("jid", "pa_1", RiskLevel::High);
    let other = e.create_captcha("jid", "pa_2", RiskLevel::High);
    assert!(!e.verify_captcha(&c.id, "wrong!"));
    assert!(!e.verify_captcha(&c.id, "wrong!"));
    assert_eq!(e.captcha_challenges[0].attempts, 2);
    assert!(!e.verify_captcha(&c.id, "wrong!"));
    assert_eq!(e.captcha_challenges.len(), 1);
    assert_eq!(e.captcha_challenges[0].id, other.id);
    assert!(!e.verify_captcha(&c.id, &c.text));
}

#[test]
fn unknown_captcha_changes_nothing() {
    let mut e = PolicyEngine::new();
    let c = e.create_captcha("jid", "pa_1", RiskLevel::High);
    assert!(!e.verify_captcha("captcha_99", &c.text));
    assert_eq!(e.captcha_challenges[0].attempts, 0);
    assert!(!e.record_captcha_attempt("nope", true));
}

#[test]
fn recorded_attempts_follow_correctness() {
    let mut e = PolicyEngine::new();
    let c = e.create_captcha("jid", "pa_1", RiskLevel::Low);
    assert!(e.record_captcha_attempt(&c.id, true));
    assert!(e.captcha_challenges[0].verified);
    assert!(!e.record_captcha_attempt(&c.id, false));
    assert!(e.captcha_challenges[0].verified);
    assert!(!e.record_captcha_attempt(&c.id, false));
    assert!(e.captcha_challenges.is_empty());
}

#[test]
fn new_captcha_ids_differ_from_waiting_ones() {
    let mut e = assistant_engine("j");
    let a = e.create_captcha("j", "pa_1", RiskLevel::High);
    let b = e.create_captcha("j", "pa_2", RiskLevel::Low);
    let c = e.create_captcha("k", "pa_1", RiskLevel::Medium);
    assert_eq!((a.id.as_str(), b.id.as_str(), c.id.as_str()), ("captcha_0", "captcha_1", "captcha_2"));
    assert_eq!(e.captcha_challenges.len(), 3);
    assert_eq!((c.contact_jid.as_str(), c.action_id.as_str(), c.attempts, c.max_attempts, c.verified), ("k", "pa_1", 0, 3, false));
    assert!(!e.captcha_verified_for("pa_1", "j"));
    assert!(e.verify_captcha(&a.id, &a.text));
    assert!(e.captcha_verified_for("pa_1", "j"));
    assert!(!e.captcha_verified_for("pa_1", "k"));
}
