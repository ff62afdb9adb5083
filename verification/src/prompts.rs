use vstd::prelude::*;
use vstd::string::*;
use crate::llm::LLMMessage;
use crate::orchestrator::WhatszaraOrchestrator;
use crate::policy::ContactMode;
use crate::text::{owned, str_eq};

verus! {

/// The instruction that tells the model how to write in chat style `style`:
/// one of nine named styles, or the style's own words.
pub open spec fn style_instruction(style: Seq<char>) -> Seq<char> {
    if style == "Human"@ {
        "Write in a natural, human-like conversational tone. Vary sentence length, use contractions, and sound like a real person chatting on WhatsApp."@
    } else if style == "Fun"@ {
        "Write in a fun, playful, and energetic tone. Use casual language, occasional humor, and keep things light."@
    } else if style == "Warm"@ {
        "Write in a warm, friendly, and caring tone. Be empathetic and supportive, like a close friend."@
    } else if style == "Teacher"@ {
        "Write in an instructive, educational tone. Explain things clearly and provide helpful guidance, like a teacher."@
    } else if style == "Principal"@ {
        "Write in a firm, authoritative tone. Be direct and no-nonsense, like a school principal addressing a student."@
    } else if style == "Angry"@ {
        "Write in a frustrated, annoyed tone. Express irritation and impatience with short, clipped sentences."@
    } else if style == "Calm"@ {
        "Write in a calm, measured, and soothing tone. Be patient, gentle, and reassuring."@
    } else if style == "AI"@ {
        "Write in a neutral, efficient, direct tone. Be precise and factual like a typical AI assistant. Minimize personality."@
    } else if style == "Robot"@ {
        "Write in a robotic, overly literal tone. Be excessively formal and stilted, like a malfunctioning robot."@
    } else if style.len() == 0 {
        "Write in a natural, human-like conversational tone."@
    } else {
        "Write in the following style: "@ + style
    }
}

/// The warning about the risk of connecting a WhatsApp account this way.
pub open spec fn ban_warning() -> Seq<char> {
    "\n\n⚠️ WARNING: Do NOT use your primary WhatsApp account with this app. WhatsApp bans accounts that connect through unofficial clients like this bridge. Use a secondary or temporary phone number. You have been warned.\n"@
}

/// The instruction for summarizing a message from a contact in summary mode.
pub open spec fn summary_prompt() -> Seq<char> {
    "Summarize the following WhatsApp message concisely in 2-3 sentences. Do not execute any actions. Only return a summary of the message."@
}

/// The instruction for chatting with contact `jid` in chat style `style`.
pub open spec fn chat_prompt(jid: Seq<char>, style: Seq<char>) -> Seq<char> {
    "You are Whatszara, a WhatsApp-connected AI assistant. You can only chat and answer questions. You cannot execute any desktop actions. Respond helpfully and concisely.\n\nCurrent contact JID: "@ + jid + "\n\nChat Style: "@ + style + "\n"@ + ban_warning()
}

/// The instruction for acting as the desktop assistant of contact `jid` on
/// `platform`, in chat style `style`: the tools, the reply format, the rules.
pub open spec fn assistant_prompt(platform: Seq<char>, jid: Seq<char>, style: Seq<char>) -> Seq<char> {
    let warning = ban_warning();
    "                    You are Whatszara, a desktop assistant running on "@ + platform + ". You are currently chatting with JID: "@ + jid + ". This is the person who sent you the latest message. You are powered by Mesh API (https://developers.meshapi.ai) - an AI router that provides access to 300+ models.\n\nAvailable tools:\n- search_contacts: params {query} - Search contacts by name or phone\n- list_chats: params {limit} - List recent conversations\n- send_message: params {recipient, message} - Send WhatsApp message\n- execute_shell: params {command}\n- open_app: params {name}\n- get_volume, set_volume: params {level}\n- play_music: params {query}, pause_music, next_track, prev_track\n- list_images: params {path}, get_desktop_paths\n- send_file: params {recipient, path, message}\n\nOn "@ + platform + " use `open` to launch apps, `osascript` for AppleScript. Shell commands run via `sh -c`. Never use code blocks or markdown. \n\nCONTACT MANAGEMENT (you are THE assistant - use these freely):\n- When user says \"list my contacts\" or \"show contacts\", use search_contacts with empty query or list_chats\n- When user says \"find <name>\", use search_contacts with that name\n- When user says \"send message to <name> saying <text>\", FIRST search_contacts to find their JID, then use send_message\n- You can also send messages to phone numbers directly\n\nIMPORTANT for send_message:\n- If user says \"send\" or \"send a message\" without specifying a recipient, send to the current contact: "@ + jid + ". - If user specifies a different name like \"send to John\", FIRST use search_contacts to find their JID, then send.\n\n"@ + style + " "@ + warning + " \n\nYOUR OUTPUT MUST BE VALID JSON. This is the most important rule. Permissions are handled automatically — you don't need to ask. Just tell the user what you're doing and include the action JSON.\n\nResponse formats:\n\nSINGLE ACTION:\n{\"chat\": \"Opening Firefox...\", \"tool\": \"open_app\", \"params\": {\"name\": \"Firefox\"}}\n\nMULTIPLE ACTIONS:\n{\"chat\": \"Let me check your desktop\", \"actions\": [{\"tool\": \"execute_shell\", \"params\": {\"command\": \"ls -la ~/Desktop\"}, \"thinking\": \"Checking desktop contents...\"},{\"tool\": \"execute_shell\", \"params\": {\"command\": \"df -h\"}, \"thinking\": \"Now checking disk space...\", \"delay_ms\": 2000}]}\n\nCHAT ONLY:\n{\"chat\": \"Hello! How can I help?\"}\n\nCONTACT MANAGEMENT EXAMPLES:\n{\"chat\": \"Here are your contacts\", \"tool\": \"search_contacts\", \"params\": {\"query\": \"\"}}\n{\"chat\": \"Finding John...\", \"tool\": \"search_contacts\", \"params\": {\"query\": \"John\"}}\n{\"chat\": \"Sending message to John...\", \"tool\": \"send_message\", \"params\": {\"recipient\": \"1234567890@s.whatsapp.net\", \"message\": \"Hello from Whatszara!\"}}\n\nCRITICAL RULES:\n1. When the user asks you to do something, YOU MUST INCLUDE THE JSON TOOL CALL. Never just say \"okay\" or ask without the JSON. If you don't output JSON, nothing happens.\n2. Permissions are handled by the system automatically — just output the action JSON.\n3. NEVER respond with text-only when an action is needed. Always include the JSON.\n4. Low-risk actions run immediately. Others wait for approval — but you MUST propose them with JSON.\n5. If multiple steps needed, use the \"actions\" array with thinking/delay_ms."@
}

/// One earlier message of a conversation: whether the assistant sent it, and its text.
pub struct ChatRecord {
    pub is_from_me: bool,
    pub content: String,
}

/// The role of a message in a conversation with a model.
pub open spec fn role_of(is_from_me: bool) -> Seq<char> {
    if is_from_me { "assistant"@ } else { "user"@ }
}

/// A conversation as `(role, content)` pairs.
pub open spec fn messages_view(v: Seq<LLMMessage>) -> Seq<(Seq<char>, Seq<char>)> {
    v.map_values(|m: LLMMessage| (m.role@, m.content@))
}

/// The conversation sent to a model: the earlier messages, each with its
/// role, and then the new message from the user.
pub open spec fn history_of(earlier: Seq<ChatRecord>, message: Seq<char>) -> Seq<(Seq<char>, Seq<char>)> {
    earlier.map_values(|r: ChatRecord| (role_of(r.is_from_me), r.content@)).push(("user"@, message))
}

/// What the assistant does with a message, by the contact's mode.
pub enum ConversationPlan {
    /// The contact is blocked: no model is asked.
    Refused,
    /// The model summarizes the message alone, with this instruction.
    Summarize { history: Vec<LLMMessage>, system: String },
    /// The model chats, with this instruction.
    Chat { system: String },
    /// The model acts as the desktop assistant, with this instruction.
    Assistant { system: String },
}

/// The mathematical form of a [`ConversationPlan`].
pub enum ConversationPlanView {
    Refused,
    Summarize { history: Seq<(Seq<char>, Seq<char>)>, system: Seq<char> },
    Chat { system: Seq<char> },
    Assistant { system: Seq<char> },
}

impl View for ConversationPlan {
    type V = ConversationPlanView;

    open spec fn view(&self) -> ConversationPlanView {
        match self {
            ConversationPlan::Refused => ConversationPlanView::Refused,
            ConversationPlan::Summarize { history, system } => ConversationPlanView::Summarize {
                history: messages_view(history@),
                system: system@,
            },
            ConversationPlan::Chat { system } => ConversationPlanView::Chat { system: system@ },
            ConversationPlan::Assistant { system } => ConversationPlanView::Assistant { system: system@ },
        }
    }
}

/// A message to a model.
pub fn message(role: &str, content: &str) -> (r: LLMMessage)
    ensures
        r.role@ == role@,
        r.content@ == content@,
{
    LLMMessage { role: owned(role), content: owned(content) }
}

/// The conversation sent to a model: the earlier messages, each with its
/// role, and then the new message from the user.
pub fn build_history(earlier: &Vec<ChatRecord>, message_text: &str) -> (r: Vec<LLMMessage>)
    ensures
        messages_view(r@) == history_of(earlier@, message_text@),
{
    let ghost ev = earlier@.map_values(|r: ChatRecord| (role_of(r.is_from_me), r.content@));
    let mut history: Vec<LLMMessage> = Vec::new();
    let mut i: usize = 0;
    while i < earlier.len()
        invariant
            i <= earlier.len(),
            ev == earlier@.map_values(|r: ChatRecord| (role_of(r.is_from_me), r.content@)),
            messages_view(history@) == ev.take(i as int),
        decreases earlier.len() - i,
    {
        let role = if earlier[i].is_from_me { "assistant" } else { "user" };
        let ghost before = history@;
        history.push(message(role, earlier[i].content.as_str()));
        assert(messages_view(history@) =~= messages_view(before).push(ev[i as int]));
        assert(ev.take(i + 1) =~= ev.take(i as int).push(ev[i as int]));
        i += 1;
    }
    let ghost before = history@;
    history.push(message("user", message_text));
    assert(messages_view(history@) =~= messages_view(before).push(("user"@, message_text@)));
    assert(ev.take(i as int) =~= ev);
    history
}

impl WhatszaraOrchestrator {
    /// The instruction for the chat style that the policy sets.
    pub fn chat_style_instruction(&self) -> (r: String)
        ensures
            r@ == style_instruction(self.policy.chat_style@),
    {
        let style = self.policy.chat_style.as_str();
        let base = if str_eq(style, "Human") {
            "Write in a natural, human-like conversational tone. Vary sentence length, use contractions, and sound like a real person chatting on WhatsApp."
        } else if str_eq(style, "Fun") {
            "Write in a fun, playful, and energetic tone. Use casual language, occasional humor, and keep things light."
        } else if str_eq(style, "Warm") {
            "Write in a warm, friendly, and caring tone. Be empathetic and supportive, like a close friend."
        } else if str_eq(style, "Teacher") {
            "Write in an instructive, educational tone. Explain things clearly and provide helpful guidance, like a teacher."
        } else if str_eq(style, "Principal") {
            "Write in a firm, authoritative tone. Be direct and no-nonsense, like a school principal addressing a student."
        } else if str_eq(style, "Angry") {
            "Write in a frustrated, annoyed tone. Express irritation and impatience with short, clipped sentences."
        } else if str_eq(style, "Calm") {
            "Write in a calm, measured, and soothing tone. Be patient, gentle, and reassuring."
        } else if str_eq(style, "AI") {
            "Write in a neutral, efficient, direct tone. Be precise and factual like a typical AI assistant. Minimize personality."
        } else if str_eq(style, "Robot") {
            "Write in a robotic, overly literal tone. Be excessively formal and stilted, like a malfunctioning robot."
        } else if style.is_empty() {
            "Write in a natural, human-like conversational tone."
        } else {
            let mut custom = owned("Write in the following style: ");
            custom.append(style);
            return custom;
        };
        owned(base)
    }

    /// The warning about the risk of connecting a WhatsApp account this way.
    pub fn whatsapp_ban_warning() -> (r: &'static str)
        ensures
            r@ == ban_warning(),
    {
        "\n\n⚠️ WARNING: Do NOT use your primary WhatsApp account with this app. WhatsApp bans accounts that connect through unofficial clients like this bridge. Use a secondary or temporary phone number. You have been warned.\n"
    }

    /// The instruction for chatting with `contact_jid`.
    pub fn chat_system_prompt(&self, contact_jid: &str) -> (r: String)
        ensures
            r@ == chat_prompt(contact_jid@, style_instruction(self.policy.chat_style@)),
    {
        let style = self.chat_style_instruction();
        let mut s = owned("You are Whatszara, a WhatsApp-connected AI assistant. You can only chat and answer questions. You cannot execute any desktop actions. Respond helpfully and concisely.\n\nCurrent contact JID: ");
        s.append(contact_jid);
        s.append("\n\nChat Style: ");
        s.append(style.as_str());
        s.append("\n");
        s.append(Self::whatsapp_ban_warning());
        s
    }

    /// The instruction for acting as the desktop assistant of `contact_jid`.
    pub fn assistant_system_prompt(&self, contact_jid: &str) -> (r: String)
        ensures
            r@ == assistant_prompt(self.platform@, contact_jid@, style_instruction(self.policy.chat_style@)),
    {
        let style = self.chat_style_instruction();
        let mut s = String::new();
        s.append("                    You are Whatszara, a desktop assistant running on ");
        s.append(self.platform.as_str());
        s.append(". You are currently chatting with JID: ");
        s.append(contact_jid);
        s.append(". This is the person who sent you the latest message. You are powered by Mesh API (https://developers.meshapi.ai) - an AI router that provides access to 300+ models.\n\nAvailable tools:\n- search_contacts: params {query} - Search contacts by name or phone\n- list_chats: params {limit} - List recent conversations\n- send_message: params {recipient, message} - Send WhatsApp message\n- execute_shell: params {command}\n- open_app: params {name}\n- get_volume, set_volume: params {level}\n- play_music: params {query}, pause_music, next_track, prev_track\n- list_images: params {path}, get_desktop_paths\n- send_file: params {recipient, path, message}\n\nOn ");
        s.append(self.platform.as_str());
        s.append(" use `open` to launch apps, `osascript` for AppleScript. Shell commands run via `sh -c`. Never use code blocks or markdown. \n\nCONTACT MANAGEMENT (you are THE assistant - use these freely):\n- When user says \"list my contacts\" or \"show contacts\", use search_contacts with empty query or list_chats\n- When user says \"find <name>\", use search_contacts with that name\n- When user says \"send message to <name> saying <text>\", FIRST search_contacts to find their JID, then use send_message\n- You can also send messages to phone numbers directly\n\nIMPORTANT for send_message:\n- If user says \"send\" or \"send a message\" without specifying a recipient, send to the current contact: ");
        s.append(contact_jid);
        s.append(". - If user specifies a different name like \"send to John\", FIRST use search_contacts to find their JID, then send.\n\n");
        s.append(style.as_str());
        s.append(" ");
        s.append(Self::whatsapp_ban_warning());
        s.append(" \n\nYOUR OUTPUT MUST BE VALID JSON. This is the most important rule. Permissions are handled automatically — you don't need to ask. Just tell the user what you're doing and include the action JSON.\n\nResponse formats:\n\nSINGLE ACTION:\n{\"chat\": \"Opening Firefox...\", \"tool\": \"open_app\", \"params\": {\"name\": \"Firefox\"}}\n\nMULTIPLE ACTIONS:\n{\"chat\": \"Let me check your desktop\", \"actions\": [{\"tool\": \"execute_shell\", \"params\": {\"command\": \"ls -la ~/Desktop\"}, \"thinking\": \"Checking desktop contents...\"},{\"tool\": \"execute_shell\", \"params\": {\"command\": \"df -h\"}, \"thinking\": \"Now checking disk space...\", \"delay_ms\": 2000}]}\n\nCHAT ONLY:\n{\"chat\": \"Hello! How can I help?\"}\n\nCONTACT MANAGEMENT EXAMPLES:\n{\"chat\": \"Here are your contacts\", \"tool\": \"search_contacts\", \"params\": {\"query\": \"\"}}\n{\"chat\": \"Finding John...\", \"tool\": \"search_contacts\", \"params\": {\"query\": \"John\"}}\n{\"chat\": \"Sending message to John...\", \"tool\": \"send_message\", \"params\": {\"recipient\": \"1234567890@s.whatsapp.net\", \"message\": \"Hello from Whatszara!\"}}\n\nCRITICAL RULES:\n1. When the user asks you to do something, YOU MUST INCLUDE THE JSON TOOL CALL. Never just say \"okay\" or ask without the JSON. If you don't output JSON, nothing happens.\n2. Permissions are handled by the system automatically — just output the action JSON.\n3. NEVER respond with text-only when an action is needed. Always include the JSON.\n4. Low-risk actions run immediately. Others wait for approval — but you MUST propose them with JSON.\n5. If multiple steps needed, use the \"actions\" array with thinking/delay_ms.");
        s
    }

    /// What to do with `message` from `contact_jid`: refuse a blocked
    /// contact, summarize for a contact in summary mode, chat in chat mode,
    /// and act as the desktop assistant in assistant mode.
    pub fn plan_conversation(&self, message_text: &str, contact_jid: &str) -> (r: ConversationPlan)
        ensures
            r@ == match self.policy.mode_of(contact_jid@) {
                ContactMode::Blocked => ConversationPlanView::Refused,
                ContactMode::Summarize => ConversationPlanView::Summarize {
                    history: seq![("user"@, message_text@)],
                    system: summary_prompt(),
                },
                ContactMode::Chat => ConversationPlanView::Chat {
                    system: chat_prompt(contact_jid@, style_instruction(self.policy.chat_style@)),
                },
                ContactMode::Assistant => ConversationPlanView::Assistant {
                    system: assistant_prompt(self.platform@, contact_jid@, style_instruction(self.policy.chat_style@)),
                },
            },
    {
        match self.policy.get_contact_mode(contact_jid) {
            ContactMode::Blocked => ConversationPlan::Refused,
            ContactMode::Summarize => {
                let mut history: Vec<LLMMessage> = Vec::new();
                history.push(message("user", message_text));
                assert(messages_view(history@) =~= seq![("user"@, message_text@)]);
                ConversationPlan::Summarize { history, system: owned("Summarize the following WhatsApp message concisely in 2-3 sentences. Do not execute any actions. Only return a summary of the message.") }
            },
            ContactMode::Chat => ConversationPlan::Chat { system: self.chat_system_prompt(contact_jid) },
            ContactMode::Assistant => ConversationPlan::Assistant { system: self.assistant_system_prompt(contact_jid) },
        }
    }
}

} // verus!
