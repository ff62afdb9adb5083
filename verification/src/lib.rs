//! Decision logic of a WhatsApp-driven desktop assistant: the policy that
//! decides which requested actions run, the captcha challenges that guard
//! the risky ones, the registry of language-model providers, and the
//! orchestrator that parses model replies and keeps the actions waiting for
//! approval.
pub mod text;
pub mod assoc;
pub mod params;
pub mod json;
pub mod policy;
pub mod llm;
pub mod reply;
pub mod orchestrator;
pub mod prompts;
pub mod captcha;
pub mod desktop;
pub mod encoding;
