use vstd::prelude::*;
use vstd::string::*;
use crate::assoc::{contains_string, find_key, index_of, index_of_from, keys_distinct, keys_of, lemma_index_of_from};
use crate::params::ParamMap;
use crate::captcha::random_below;
use crate::text::{chars_of, chars_eq, decimal, lemma_decimal_injective, owned, push_decimal, str_eq, to_lowercase, trim, lowercase, trim_seq};

verus! {

// ---------------------------------------------------------------- tools

/// The families of tools that an action belongs to; each can be switched off.
#[derive(Clone, Copy, PartialEq, Eq, Debug, Hash, Structural)]
pub enum ToolCategory {
    Shell,
    FileAccess,
    MediaControl,
    AppLaunching,
    WhatsApp,
}

/// The category of a named action; names that are not known count as shell commands.
pub open spec fn category_of(action: Seq<char>) -> ToolCategory {
    if action == "execute_shell"@ || action == "run_command"@ {
        ToolCategory::Shell
    } else if action == "list_files"@ || action == "list_images"@ || action == "send_file"@
        || action == "get_desktop_paths"@ {
        ToolCategory::FileAccess
    } else if action == "get_volume"@ || action == "set_volume"@ || action == "play_media"@
        || action == "pause_media"@ || action == "next_track"@ || action == "prev_track"@ {
        ToolCategory::MediaControl
    } else if action == "open_app"@ {
        ToolCategory::AppLaunching
    } else if action == "send_message"@ || action == "search_contacts"@ || action == "list_chats"@ {
        ToolCategory::WhatsApp
    } else {
        ToolCategory::Shell
    }
}

impl ToolCategory {
    /// The category that the action with this name belongs to.
    pub fn from_action(action: &str) -> (r: ToolCategory)
        ensures
            r == category_of(action@),
    {
        if str_eq(action, "execute_shell") || str_eq(action, "run_command") {
            ToolCategory::Shell
        } else if str_eq(action, "list_files") || str_eq(action, "list_images") || str_eq(action, "send_file")
            || str_eq(action, "get_desktop_paths") {
            ToolCategory::FileAccess
        } else if str_eq(action, "get_volume") || str_eq(action, "set_volume") || str_eq(action, "play_media")
            || str_eq(action, "pause_media") || str_eq(action, "next_track") || str_eq(action, "prev_track") {
            ToolCategory::MediaControl
        } else if str_eq(action, "open_app") {
            ToolCategory::AppLaunching
        } else if str_eq(action, "send_message") || str_eq(action, "search_contacts") || str_eq(action, "list_chats") {
            ToolCategory::WhatsApp
        } else {
            ToolCategory::Shell
        }
    }
}

/// The name of a category as it appears in messages.
pub open spec fn category_name(c: ToolCategory) -> Seq<char> {
    match c {
        ToolCategory::Shell => "Shell"@,
        ToolCategory::FileAccess => "FileAccess"@,
        ToolCategory::MediaControl => "MediaControl"@,
        ToolCategory::AppLaunching => "AppLaunching"@,
        ToolCategory::WhatsApp => "WhatsApp"@,
    }
}

fn category_label(c: ToolCategory) -> (r: &'static str)
    ensures
        r@ == category_name(c),
{
    match c {
        ToolCategory::Shell => "Shell",
        ToolCategory::FileAccess => "FileAccess",
        ToolCategory::MediaControl => "MediaControl",
        ToolCategory::AppLaunching => "AppLaunching",
        ToolCategory::WhatsApp => "WhatsApp",
    }
}

/// Which categories of tools may run at all.
#[derive(Clone, Copy, Debug)]
pub struct ToolPermissions {
    pub shell_enabled: bool,
    pub file_access_enabled: bool,
    pub media_control_enabled: bool,
    pub app_launching_enabled: bool,
    pub whatsapp_enabled: bool,
}

impl ToolPermissions {
    /// Whether tools of category `cat` may run.
    pub open spec fn enabled(&self, cat: ToolCategory) -> bool {
        match cat {
            ToolCategory::Shell => self.shell_enabled,
            ToolCategory::FileAccess => self.file_access_enabled,
            ToolCategory::MediaControl => self.media_control_enabled,
            ToolCategory::AppLaunching => self.app_launching_enabled,
            ToolCategory::WhatsApp => self.whatsapp_enabled,
        }
    }

    /// Whether tools of category `cat` may run.
    pub fn is_category_enabled(&self, cat: ToolCategory) -> (r: bool)
        ensures
            r == self.enabled(cat),
    {
        match cat {
            ToolCategory::Shell => self.shell_enabled,
            ToolCategory::FileAccess => self.file_access_enabled,
            ToolCategory::MediaControl => self.media_control_enabled,
            ToolCategory::AppLaunching => self.app_launching_enabled,
            ToolCategory::WhatsApp => self.whatsapp_enabled,
        }
    }
}

impl Default for ToolPermissions {
    /// Every category enabled.
    fn default() -> (r: Self)
        ensures
            r.shell_enabled && r.file_access_enabled && r.media_control_enabled
                && r.app_launching_enabled && r.whatsapp_enabled,
    {
        ToolPermissions {
            shell_enabled: true,
            file_access_enabled: true,
            media_control_enabled: true,
            app_launching_enabled: true,
            whatsapp_enabled: true,
        }
    }
}

// ---------------------------------------------------------------- contacts and risk

/// How the assistant treats messages from a contact.
#[derive(Clone, Copy, PartialEq, Eq, Debug, Structural)]
pub enum ContactMode {
    Assistant,
    Chat,
    Summarize,
    Blocked,
}

impl Default for ContactMode {
    /// Contacts that nobody configured are summarized.
    fn default() -> (r: Self)
        ensures
            r == ContactMode::Summarize,
    {
        ContactMode::Summarize
    }
}

/// How dangerous an action is.
#[derive(Clone, Copy, PartialEq, Eq, Debug, Structural)]
pub enum RiskLevel {
    Low,
    Medium,
    High,
}

/// The risk of a named action; names that are not known are high risk.
pub open spec fn risk_of(action: Seq<char>) -> RiskLevel {
    if action == "get_volume"@ || action == "list_files"@ || action == "list_images"@
        || action == "get_desktop_paths"@ || action == "list_chats"@ || action == "search_contacts"@ {
        RiskLevel::Low
    } else if action == "open_app"@ || action == "play_media"@ || action == "pause_media"@
        || action == "next_track"@ || action == "prev_track"@ || action == "set_volume"@
        || action == "send_message"@ || action == "send_file"@ {
        RiskLevel::Medium
    } else {
        RiskLevel::High
    }
}

fn action_risk(action: &str) -> (r: RiskLevel)
    ensures
        r == risk_of(action@),
{
    if str_eq(action, "get_volume") || str_eq(action, "list_files") || str_eq(action, "list_images")
        || str_eq(action, "get_desktop_paths") || str_eq(action, "list_chats") || str_eq(action, "search_contacts") {
        RiskLevel::Low
    } else if str_eq(action, "open_app") || str_eq(action, "play_media") || str_eq(action, "pause_media")
        || str_eq(action, "next_track") || str_eq(action, "prev_track") || str_eq(action, "set_volume")
        || str_eq(action, "send_message") || str_eq(action, "send_file") {
        RiskLevel::Medium
    } else {
        RiskLevel::High
    }
}

/// The lower-case name of a risk level, as decisions report it.
pub open spec fn risk_name(r: RiskLevel) -> Seq<char> {
    match r {
        RiskLevel::Low => "low"@,
        RiskLevel::Medium => "medium"@,
        RiskLevel::High => "high"@,
    }
}

fn risk_label(r: RiskLevel) -> (s: &'static str)
    ensures
        s@ == risk_name(r),
{
    match r {
        RiskLevel::Low => "low",
        RiskLevel::Medium => "medium",
        RiskLevel::High => "high",
    }
}

impl RiskLevel {
    /// High risk asks for a captcha.
    pub fn requires_captcha(&self) -> (r: bool)
        ensures
            r == (*self == RiskLevel::High),
    {
        matches!(self, RiskLevel::High)
    }

    /// High risk asks for a captcha image.
    pub fn requires_image_captcha(&self) -> (r: bool)
        ensures
            r == (*self == RiskLevel::High),
    {
        matches!(self, RiskLevel::High)
    }

    /// Medium and high risk ask the user to confirm.
    pub fn requires_confirmation(&self) -> (r: bool)
        ensures
            r == (*self == RiskLevel::Medium || *self == RiskLevel::High),
    {
        matches!(self, RiskLevel::Medium | RiskLevel::High)
    }
}

// ---------------------------------------------------------------- captcha

/// A captcha that a contact must answer before a risky action runs.
#[derive(Debug)]
pub struct CaptchaChallenge {
    pub id: String,
    pub text: String,
    pub contact_jid: String,
    pub action_id: String,
    pub attempts: u32,
    pub max_attempts: u32,
    pub verified: bool,
}

/// The mathematical form of a [`CaptchaChallenge`].
pub struct CaptchaChallengeView {
    pub id: Seq<char>,
    pub text: Seq<char>,
    pub contact_jid: Seq<char>,
    pub action_id: Seq<char>,
    pub attempts: u32,
    pub max_attempts: u32,
    pub verified: bool,
}

impl View for CaptchaChallenge {
    type V = CaptchaChallengeView;

    open spec fn view(&self) -> CaptchaChallengeView {
        CaptchaChallengeView {
            id: self.id@,
            text: self.text@,
            contact_jid: self.contact_jid@,
            action_id: self.action_id@,
            attempts: self.attempts,
            max_attempts: self.max_attempts,
            verified: self.verified,
        }
    }
}

impl Clone for CaptchaChallenge {
    fn clone(&self) -> (r: Self)
        ensures
            r@ == self@,
    {
        CaptchaChallenge {
            id: self.id.clone(),
            text: self.text.clone(),
            contact_jid: self.contact_jid.clone(),
            action_id: self.action_id.clone(),
            attempts: self.attempts,
            max_attempts: self.max_attempts,
            verified: self.verified,
        }
    }
}

/// The characters a captcha is drawn from: no `I`, `O`, `0` or `1`, which read alike.
pub open spec fn captcha_alphabet() -> Seq<char> {
    "ABCDEFGHJKLMNPQRSTUVWXYZ23456789"@
}

/// The number of characters in a captcha.
pub const CAPTCHA_LENGTH: usize = 6;

/// How many answers a captcha accepts before it is dropped.
pub const CAPTCHA_MAX_ATTEMPTS: u32 = 3;

/// The identifier of the captcha made with counter value `n`: `captcha_<n>`.
pub open spec fn captcha_id(n: u64) -> Seq<char> {
    "captcha_"@ + decimal(n as nat)
}

/// The captcha text spelled by `draws`, each an index into the alphabet.
pub fn captcha_text(draws: &Vec<usize>) -> (r: String)
    requires
        forall|i: int| 0 <= i < draws.len() ==> draws@[i] < captcha_alphabet().len(),
    ensures
        r@.len() == draws.len(),
        forall|i: int| 0 <= i < draws.len() ==> r@[i] == captcha_alphabet()[draws@[i] as int],
{
    let alphabet = chars_of("ABCDEFGHJKLMNPQRSTUVWXYZ23456789");
    let mut r = String::new();
    let mut i: usize = 0;
    while i < draws.len()
        invariant
            alphabet@ == captcha_alphabet(),
            forall|j: int| 0 <= j < draws.len() ==> draws@[j] < captcha_alphabet().len(),
            i <= draws.len(),
            r@.len() == i,
            forall|j: int| 0 <= j < i ==> r@[j] == captcha_alphabet()[draws@[j] as int],
        decreases draws.len() - i,
    {
        crate::text::push_char(&mut r, alphabet[draws[i]]);
        i += 1;
    }
    r
}

impl RiskLevel {
    /// A fresh challenge for `contact_jid` and `action_id`, numbered `counter`:
    /// six characters drawn at random from the captcha alphabet, three attempts.
    /// The text is chance; everything else follows from the arguments.
    pub fn generate_captcha(&self, contact_jid: &str, action_id: &str, counter: u64) -> (r: CaptchaChallenge)
        ensures
            r.id@ == captcha_id(counter),
            r.text@.len() == CAPTCHA_LENGTH,
            forall|i: int| 0 <= i < r.text@.len() ==> captcha_alphabet().contains(#[trigger] r.text@[i]),
            r.contact_jid@ == contact_jid@,
            r.action_id@ == action_id@,
            r.attempts == 0,
            r.max_attempts == CAPTCHA_MAX_ATTEMPTS,
            !r.verified,
    {
        let alphabet = chars_of("ABCDEFGHJKLMNPQRSTUVWXYZ23456789");
        proof { reveal_strlit("ABCDEFGHJKLMNPQRSTUVWXYZ23456789"); }
        assert(alphabet.len() == 32);
        let mut draws: Vec<usize> = Vec::new();
        let mut k: usize = 0;
        while k < CAPTCHA_LENGTH
            invariant
                alphabet@ == captcha_alphabet(),
                alphabet.len() == 32,
                k <= CAPTCHA_LENGTH,
                draws.len() == k,
                forall|j: int| 0 <= j < k ==> draws@[j] < captcha_alphabet().len(),
            decreases CAPTCHA_LENGTH - k,
        {
            draws.push(random_below(alphabet.len()));
            k += 1;
        }
        let text = captcha_text(&draws);
        assert forall|i: int| 0 <= i < text@.len() implies captcha_alphabet().contains(#[trigger] text@[i]) by {
            assert(text@[i] == captcha_alphabet()[draws@[i] as int]);
        }
        let mut id = owned("captcha_");
        push_decimal(&mut id, counter);
        CaptchaChallenge {
            id,
            text,
            contact_jid: owned(contact_jid),
            action_id: owned(action_id),
            attempts: 0,
            max_attempts: CAPTCHA_MAX_ATTEMPTS,
            verified: false,
        }
    }
}

// ---------------------------------------------------------------- decisions

/// An action that was asked for, with what the policy knows of it.
pub struct ActionProposal {
    pub action: String,
    pub params: ParamMap,
    pub tool_category: ToolCategory,
    pub risk_level: RiskLevel,
    pub reason: String,
}

/// What the policy decided about a proposal.
#[derive(Debug)]
pub struct PolicyDecision {
    pub allowed: bool,
    pub reason: String,
    pub requires_verification: Vec<String>,
    pub risk_level: String,
}

/// The mathematical form of a [`PolicyDecision`].
pub struct PolicyDecisionView {
    pub allowed: bool,
    pub reason: Seq<char>,
    pub requires_verification: Seq<Seq<char>>,
    pub risk_level: Seq<char>,
}

impl View for PolicyDecision {
    type V = PolicyDecisionView;

    open spec fn view(&self) -> PolicyDecisionView {
        PolicyDecisionView {
            allowed: self.allowed,
            reason: self.reason@,
            requires_verification: self.requires_verification@.map_values(|s: String| s@),
            risk_level: self.risk_level@,
        }
    }
}

/// A refusal with the given reason and risk label.
pub open spec fn refusal(reason: Seq<char>, risk_level: Seq<char>) -> PolicyDecisionView {
    PolicyDecisionView { allowed: false, reason, requires_verification: seq![], risk_level }
}

/// The checks that an action of risk `r` must pass before it runs.
pub open spec fn required_checks(r: RiskLevel) -> Seq<Seq<char>> {
    match r {
        RiskLevel::Low => seq![],
        RiskLevel::Medium => seq!["confirmation"@],
        RiskLevel::High => seq!["image_captcha"@, "recaptcha"@, "confirmation"@],
    }
}

/// The decision for an action of category `cat` and risk `risk` requested by a
/// contact in `mode`, who is or is not on the allowlist, while tools of that
/// category are or are not enabled.
pub open spec fn decide(mode: ContactMode, on_allowlist: bool, enabled: bool, cat: ToolCategory, risk: RiskLevel) -> PolicyDecisionView {
    match mode {
        ContactMode::Blocked => refusal("This contact is blocked"@, "blocked"@),
        ContactMode::Chat => refusal("Contact is in chat-only mode"@, "chat"@),
        ContactMode::Summarize => refusal("Messages from this contact are summarized, not executed"@, "summarize"@),
        ContactMode::Assistant => if !on_allowlist {
            refusal("Contact not in allowlist"@, "blocked"@)
        } else if !enabled {
            refusal(category_name(cat) + " tools are disabled by policy"@, "policy_blocked"@)
        } else {
            let req = required_checks(risk);
            PolicyDecisionView {
                allowed: req.len() == 0,
                reason: if req.len() == 0 { "Auto-approved"@ } else { "Requires verification"@ },
                requires_verification: req,
                risk_level: risk_name(risk),
            }
        },
    }
}

fn refuse(reason: String, risk_level: &str) -> (r: PolicyDecision)
    ensures
        r@ == refusal(reason@, risk_level@),
{
    let r = PolicyDecision {
        allowed: false,
        reason,
        requires_verification: Vec::new(),
        risk_level: owned(risk_level),
    };
    assert(r@.requires_verification =~= Seq::<Seq<char>>::empty());
    r
}

// ---------------------------------------------------------------- the engine

/// The chat styles that have an instruction of their own, in the order they are offered.
pub fn predefined_styles() -> (r: Vec<&'static str>)
    ensures
        r@.map_values(|s: &str| s@) == seq!["Human"@, "Fun"@, "Warm"@, "Teacher"@, "Principal"@, "Angry"@, "Calm"@, "AI"@, "Robot"@],
{
    let r = vec!["Human", "Fun", "Warm", "Teacher", "Principal", "Angry", "Calm", "AI", "Robot"];
    assert(r@.map_values(|s: &str| s@) =~= seq!["Human"@, "Fun"@, "Warm"@, "Teacher"@, "Principal"@, "Angry"@, "Calm"@, "AI"@, "Robot"@]);
    r
}

/// The policy: which tools run, which contacts may ask for actions and how
/// each contact is treated, and the captchas waiting for an answer.
pub struct PolicyEngine {
    pub tool_permissions: ToolPermissions,
    /// The contacts that may have actions run; each at most once.
    pub allowlist: Vec<String>,
    /// The mode of each configured contact; each contact at most once.
    pub contact_modes: Vec<(String, ContactMode)>,
    pub chat_style: String,
    pub poll_interval_ms: u64,
    pub captcha_challenges: Vec<CaptchaChallenge>,
    /// The number given to the next captcha.
    pub captcha_counter: u64,
}

/// The names on a list of strings.
pub open spec fn names_of(v: Seq<String>) -> Seq<Seq<char>> {
    v.map_values(|s: String| s@)
}

/// The challenges as mathematical values.
pub open spec fn challenges_of(v: Seq<CaptchaChallenge>) -> Seq<CaptchaChallengeView> {
    v.map_values(|c: CaptchaChallenge| c@)
}

/// The identifiers of a list of challenges.
pub open spec fn challenge_ids(cs: Seq<CaptchaChallengeView>) -> Seq<Seq<char>> {
    cs.map_values(|c: CaptchaChallengeView| c.id)
}

/// `names` without its first occurrence of `n`.
pub open spec fn remove_name(names: Seq<Seq<char>>, n: Seq<char>) -> Seq<Seq<char>> {
    match index_of(names, n) {
        Some(i) => names.remove(i),
        None => names,
    }
}

/// The challenges of `cs` whose identifier is not `id`, in order.
pub open spec fn without_id(cs: Seq<CaptchaChallengeView>, id: Seq<char>) -> Seq<CaptchaChallengeView>
    decreases cs.len(),
{
    if cs.len() == 0 {
        seq![]
    } else if cs.last().id == id {
        without_id(cs.drop_last(), id)
    } else {
        without_id(cs.drop_last(), id).push(cs.last())
    }
}

/// `c` after one more answer; marked verified when that answer was right.
pub open spec fn after_attempt(c: CaptchaChallengeView, correct: bool) -> CaptchaChallengeView {
    CaptchaChallengeView { attempts: (c.attempts + 1) as u32, verified: c.verified || correct, ..c }
}

/// The challenges after an answer to challenge `id` that was `correct` or not:
/// the first challenge with that id counts the attempt and, when right, is
/// verified; when wrong and its attempts are used up, every challenge with
/// that id is dropped.
pub open spec fn challenges_after_answer(cs: Seq<CaptchaChallengeView>, id: Seq<char>, correct: bool) -> Seq<CaptchaChallengeView> {
    match index_of(challenge_ids(cs), id) {
        None => cs,
        Some(i) => {
            let c = after_attempt(cs[i], correct);
            if !correct && c.attempts >= c.max_attempts {
                without_id(cs.update(i, c), id)
            } else {
                cs.update(i, c)
            }
        },
    }
}

/// Whether `answer` answers a challenge with text `text`: equal once the
/// answer is trimmed and both are put in lower case.
pub open spec fn answer_matches(text: Seq<char>, answer: Seq<char>) -> bool {
    lowercase(text) == lowercase(trim_seq(answer))
}

/// No challenge of `cs` has the identifier of a counter value at or past `counter`.
pub open spec fn captcha_ids_fresh(cs: Seq<CaptchaChallengeView>, counter: u64) -> bool {
    forall|i: int, k: u64| #![trigger cs[i], captcha_id(k)] 0 <= i < cs.len() && counter <= k ==> cs[i].id != captcha_id(k)
}

/// Different counter values give different captcha identifiers.
pub proof fn lemma_captcha_id_injective(a: u64, b: u64)
    requires
        captcha_id(a) == captcha_id(b),
    ensures
        a == b,
{
    let p = "captcha_"@;
    assert(captcha_id(a).subrange(p.len() as int, captcha_id(a).len() as int) =~= decimal(a as nat));
    assert(captcha_id(b).subrange(p.len() as int, captcha_id(b).len() as int) =~= decimal(b as nat));
    lemma_decimal_injective(a as nat, b as nat);
}

proof fn lemma_without_id_fresh(cs: Seq<CaptchaChallengeView>, id: Seq<char>, counter: u64)
    requires
        captcha_ids_fresh(cs, counter),
    ensures
        captcha_ids_fresh(without_id(cs, id), counter),
    decreases cs.len(),
{
    if cs.len() > 0 {
        let d = cs.drop_last();
        assert forall|i: int, k: u64| #![trigger d[i], captcha_id(k)] 0 <= i < d.len() && counter <= k implies d[i].id != captcha_id(k) by {
            assert(d[i] == cs[i]);
        }
        lemma_without_id_fresh(d, id, counter);
        if cs.last().id != id {
            let w = without_id(d, id).push(cs.last());
            assert forall|i: int, k: u64| #![trigger w[i], captcha_id(k)] 0 <= i < w.len() && counter <= k implies w[i].id != captcha_id(k) by {
                if i == w.len() - 1 {
                    assert(w[i] == cs[cs.len() - 1]);
                } else {
                    assert(w[i] == without_id(d, id)[i]);
                }
            }
        }
    }
}

proof fn lemma_fresh_after_answer(cs: Seq<CaptchaChallengeView>, id: Seq<char>, correct: bool, counter: u64)
    requires
        captcha_ids_fresh(cs, counter),
    ensures
        captcha_ids_fresh(challenges_after_answer(cs, id, correct), counter),
{
    if let Some(i) = index_of(challenge_ids(cs), id) {
        if 0 <= i < cs.len() {
            let u = cs.update(i, after_attempt(cs[i], correct));
            assert forall|j: int, k: u64| #![trigger u[j], captcha_id(k)] 0 <= j < u.len() && counter <= k implies u[j].id != captcha_id(k) by {
                assert(u[j].id == cs[j].id);
            }
            lemma_without_id_fresh(u, id, counter);
        } else {
            lemma_index_of_from(challenge_ids(cs), id, 0);
        }
    }
}

/// Whether challenge `c` is a verified captcha of contact `jid` for action `action_id`.
pub open spec fn captcha_for(c: CaptchaChallengeView, action_id: Seq<char>, jid: Seq<char>) -> bool {
    c.action_id == action_id && c.contact_jid == jid && c.verified
}

/// Whether some challenge of `cs` is a verified captcha of contact `jid` for action `action_id`.
pub open spec fn has_verified_captcha(cs: Seq<CaptchaChallengeView>, action_id: Seq<char>, jid: Seq<char>) -> bool {
    exists|j: int| 0 <= j < cs.len() && #[trigger] captcha_for(cs[j], action_id, jid)
}

impl PolicyEngine {
    /// The contacts on the allowlist.
    pub open spec fn allowed_names(&self) -> Seq<Seq<char>> {
        names_of(self.allowlist@)
    }

    /// The contacts whose mode was set.
    pub open spec fn mode_keys(&self) -> Seq<Seq<char>> {
        keys_of(self.contact_modes@)
    }

    /// The mode that was set for `jid`, if any.
    pub open spec fn mode_set_for(&self, jid: Seq<char>) -> Option<ContactMode> {
        match index_of(self.mode_keys(), jid) {
            Some(i) => Some(self.contact_modes@[i].1),
            None => None,
        }
    }

    /// The mode of `jid`: the one set for it, else `Summarize`.
    pub open spec fn mode_of(&self, jid: Seq<char>) -> ContactMode {
        match self.mode_set_for(jid) {
            Some(m) => m,
            None => ContactMode::Summarize,
        }
    }

    /// The captchas waiting for an answer.
    pub open spec fn challenges(&self) -> Seq<CaptchaChallengeView> {
        challenges_of(self.captcha_challenges@)
    }

    /// Nothing occurs twice on the allowlist nor among the contacts with a
    /// mode, and no waiting captcha has an identifier that the counter has
    /// yet to give out.
    pub open spec fn wf(&self) -> bool {
        &&& self.allowed_names().no_duplicates()
        &&& keys_distinct(self.mode_keys())
        &&& captcha_ids_fresh(self.challenges(), self.captcha_counter)
    }

    /// The engine with everything else of `self` and `other` equal but the allowlist.
    pub open spec fn same_but_allowlist(&self, other: &PolicyEngine) -> bool {
        &&& self.tool_permissions == other.tool_permissions
        &&& self.contact_modes@ == other.contact_modes@
        &&& self.chat_style@ == other.chat_style@
        &&& self.poll_interval_ms == other.poll_interval_ms
        &&& self.challenges() == other.challenges()
        &&& self.captcha_counter == other.captcha_counter
    }

    /// A new engine: every tool enabled, only `self` on the allowlist, no
    /// contact modes, the `Human` chat style, no captchas.
    pub fn new() -> (r: PolicyEngine)
        ensures
            r.wf(),
            r.allowed_names() == seq!["self"@],
            r.contact_modes@.len() == 0,
            r.chat_style@ == "Human"@,
            r.poll_interval_ms == 0,
            r.challenges().len() == 0,
            r.captcha_counter == 0,
            r.tool_permissions.shell_enabled && r.tool_permissions.file_access_enabled
                && r.tool_permissions.media_control_enabled && r.tool_permissions.app_launching_enabled
                && r.tool_permissions.whatsapp_enabled,
    {
        let mut allowlist: Vec<String> = Vec::new();
        allowlist.push(owned("self"));
        let r = PolicyEngine {
            tool_permissions: ToolPermissions::default(),
            allowlist,
            contact_modes: Vec::new(),
            chat_style: owned("Human"),
            poll_interval_ms: 0,
            captcha_challenges: Vec::new(),
            captcha_counter: 0,
        };
        assert(r.allowed_names() =~= seq!["self"@]);
        assert(r.challenges() =~= Seq::<CaptchaChallengeView>::empty());
        r
    }

    /// Sets the chat style.
    pub fn set_chat_style(&mut self, style: &str)
        ensures
            final(self).chat_style@ == style@,
            final(self).tool_permissions == old(self).tool_permissions,
            final(self).allowlist@ == old(self).allowlist@,
            final(self).contact_modes@ == old(self).contact_modes@,
            final(self).poll_interval_ms == old(self).poll_interval_ms,
            final(self).captcha_challenges@ == old(self).captcha_challenges@,
            final(self).captcha_counter == old(self).captcha_counter,
    {
        self.chat_style = owned(style);
    }

    /// The mode of `jid`: the one set for it, else `Summarize`.
    pub fn get_contact_mode(&self, jid: &str) -> (r: ContactMode)
        ensures
            r == self.mode_of(jid@),
    {
        proof { lemma_index_of_from(self.mode_keys(), jid@, 0); }
        match find_key(&self.contact_modes, jid) {
            Some(i) => self.contact_modes[i].1,
            None => ContactMode::Summarize,
        }
    }

    /// Sets the mode of `jid`, replacing the one it had.
    pub fn set_contact_mode(&mut self, jid: &str, mode: ContactMode)
        requires
            old(self).wf(),
        ensures
            final(self).wf(),
            forall|k: Seq<char>| #[trigger] final(self).mode_set_for(k) == if k == jid@ {
                Some(mode)
            } else {
                old(self).mode_set_for(k)
            },
            final(self).tool_permissions == old(self).tool_permissions,
            final(self).allowlist@ == old(self).allowlist@,
            final(self).chat_style@ == old(self).chat_style@,
            final(self).poll_interval_ms == old(self).poll_interval_ms,
            final(self).captcha_challenges@ == old(self).captcha_challenges@,
            final(self).captcha_counter == old(self).captcha_counter,
    {
        let ghost old_keys = self.mode_keys();
        let ghost old_modes = self.contact_modes@;
        proof { lemma_index_of_from(old_keys, jid@, 0); }
        let idx = find_key(&self.contact_modes, jid);
        match idx {
            Some(i) => {
                self.contact_modes.set(i, (owned(jid), mode));
                assert(self.mode_keys() =~= old_keys);
            },
            None => {
                self.contact_modes.push((owned(jid), mode));
                assert(self.mode_keys() =~= old_keys.push(jid@));
            },
        }
        assert forall|k: Seq<char>| #[trigger] self.mode_set_for(k) == if k == jid@ {
            Some(mode)
        } else {
            old_mode_set_for(old_keys, old_modes, k)
        } by {
            lemma_index_of_from(old_keys, k, 0);
            lemma_index_of_from(self.mode_keys(), k, 0);
            let nk = self.mode_keys();
            assert(nk.len() == self.contact_modes@.len());
            assert(old_keys.len() == old_modes.len());
            assert(forall|m: int| 0 <= m < nk.len() ==> nk[m] == #[trigger] self.contact_modes@[m].0@);
            assert(forall|m: int| 0 <= m < old_keys.len() ==> old_keys[m] == #[trigger] old_modes[m].0@);
            match idx {
                Some(i) => {
                    assert(old_keys[i as int] == jid@);
                    assert(self.contact_modes@ == old_modes.update(i as int, self.contact_modes@[i as int]));
                    assert(self.contact_modes@[i as int].1 == mode);
                    assert(nk =~= old_keys);
                    if k == jid@ {
                        assert(index_of(nk, k) == Some(i as int));
                    } else if let Some(j) = index_of(old_keys, k) {
                        assert(j != i);
                        assert(self.contact_modes@[j] == old_modes[j]);
                    }
                },
                None => {
                    assert(self.contact_modes@ == old_modes.push(self.contact_modes@[old_modes.len() as int]));
                    assert(self.contact_modes@[old_modes.len() as int].1 == mode);
                    assert(nk =~= old_keys.push(jid@));
                    assert(nk[old_modes.len() as int] == jid@);
                    assert(forall|m: int| 0 <= m < old_keys.len() ==> nk[m] == old_keys[m]);
                    if k == jid@ {
                        assert(forall|m: int| 0 <= m < old_keys.len() ==> old_keys[m] != jid@);
                        assert(index_of(nk, k) == Some(old_modes.len() as int));
                    } else if let Some(j) = index_of(old_keys, k) {
                        assert(self.contact_modes@[j] == old_modes[j]);
                        assert(index_of(nk, k) == Some(j));
                    } else {
                        assert(index_of(nk, k) is None);
                    }
                },
            }
        }
        assert(keys_distinct(self.mode_keys())) by {
            assert forall|a: int, b: int| 0 <= a < b < self.mode_keys().len()
                implies self.mode_keys()[a] != self.mode_keys()[b] by {
                if b == old_keys.len() {
                    assert(old_keys[a] != jid@);
                } else {
                    assert(old_keys[a] != old_keys[b]);
                }
            }
        }
    }

    /// Puts `jid` on the allowlist (once).
    pub fn add_to_allowlist(&mut self, jid: &str)
        requires
            old(self).wf(),
        ensures
            final(self).wf(),
            final(self).allowed_names() == if old(self).allowed_names().contains(jid@) {
                old(self).allowed_names()
            } else {
                old(self).allowed_names().push(jid@)
            },
            final(self).same_but_allowlist(&*old(self)),
    {
        if !contains_string(&self.allowlist, jid) {
            self.allowlist.push(owned(jid));
            assert(self.allowed_names() =~= old(self).allowed_names().push(jid@));
        }
    }

    /// Takes `jid` off the allowlist.
    pub fn remove_from_allowlist(&mut self, jid: &str)
        requires
            old(self).wf(),
        ensures
            final(self).wf(),
            final(self).allowed_names() == remove_name(old(self).allowed_names(), jid@),
            final(self).same_but_allowlist(&*old(self)),
    {
        let ghost names = self.allowed_names();
        proof { lemma_index_of_from(names, jid@, 0); }
        let mut i: usize = 0;
        while i < self.allowlist.len()
            invariant
                i <= self.allowlist.len(),
                self.allowlist@ == old(self).allowlist@,
                self.same_but_allowlist(&*old(self)),
                old(self).wf(),
                names == self.allowed_names(),
                index_of(names, jid@) == index_of_from(names, jid@, i as int),
            decreases self.allowlist.len() - i,
        {
            if str_eq(self.allowlist[i].as_str(), jid) {
                self.allowlist.remove(i);
                assert(self.allowed_names() =~= names.remove(i as int));
                assert(self.allowed_names().no_duplicates()) by {
                    let r = names.remove(i as int);
                    assert forall|a: int, b: int| 0 <= a < r.len() && 0 <= b < r.len() && a != b
                        implies r[a] != r[b] by {
                        let a2 = if a < i { a } else { a + 1 };
                        let b2 = if b < i { b } else { b + 1 };
                        assert(r[a] == names[a2] && r[b] == names[b2]);
                    }
                }
                return;
            }
            i += 1;
        }
    }

    /// Whether `jid` is on the allowlist.
    pub fn is_allowed(&self, jid: &str) -> (r: bool)
        ensures
            r == self.allowed_names().contains(jid@),
    {
        contains_string(&self.allowlist, jid)
    }
}

impl PolicyEngine {
    /// The index of the first captcha with identifier `id`.
    fn find_challenge(&self, id: &str) -> (r: Option<usize>)
        ensures
            r matches Some(i) ==> index_of(challenge_ids(self.challenges()), id@) == Some(i as int),
            r is None ==> index_of(challenge_ids(self.challenges()), id@) is None,
    {
        let ghost ids = challenge_ids(self.challenges());
        let mut i: usize = 0;
        while i < self.captcha_challenges.len()
            invariant
                i <= self.captcha_challenges.len(),
                ids == challenge_ids(self.challenges()),
                index_of(ids, id@) == index_of_from(ids, id@, i as int),
            decreases self.captcha_challenges.len() - i,
        {
            if str_eq(self.captcha_challenges[i].id.as_str(), id) {
                return Some(i);
            }
            i += 1;
        }
        None
    }

    /// Drops every captcha whose identifier is `id`, keeping the others in order.
    fn drop_challenges(&mut self, id: &str)
        ensures
            final(self).challenges() == without_id(old(self).challenges(), id@),
            final(self).tool_permissions == old(self).tool_permissions,
            final(self).allowlist@ == old(self).allowlist@,
            final(self).contact_modes@ == old(self).contact_modes@,
            final(self).chat_style@ == old(self).chat_style@,
            final(self).poll_interval_ms == old(self).poll_interval_ms,
            final(self).captcha_counter == old(self).captcha_counter,
    {
        let ghost cs = self.challenges();
        let mut kept: Vec<CaptchaChallenge> = Vec::new();
        let mut i: usize = 0;
        while i < self.captcha_challenges.len()
            invariant
                i <= self.captcha_challenges.len(),
                cs == self.challenges(),
                self.captcha_challenges@ == old(self).captcha_challenges@,
                challenges_of(kept@) == without_id(cs.take(i as int), id@),
            decreases self.captcha_challenges.len() - i,
        {
            assert(cs.take(i + 1).drop_last() =~= cs.take(i as int));
            assert(cs.take(i + 1).last() == cs[i as int]);
            if !str_eq(self.captcha_challenges[i].id.as_str(), id) {
                let c = self.captcha_challenges[i].clone();
                let ghost before = kept@;
                kept.push(c);
                assert(challenges_of(kept@) =~= challenges_of(before).push(cs[i as int]));
            }
            i += 1;
        }
        assert(cs.take(i as int) =~= cs);
        self.captcha_challenges = kept;
    }

    /// Records one answer to captcha `captcha_id`, right or wrong: the first
    /// captcha with that identifier counts the attempt and is verified when
    /// the answer was right; a wrong answer that uses up its attempts drops
    /// every captcha with that identifier. True only for a right answer to a
    /// captcha that exists.
    pub fn record_captcha_attempt(&mut self, captcha_id: &str, correct: bool) -> (r: bool)
        requires
            index_of(challenge_ids(old(self).challenges()), captcha_id@) matches Some(i)
                ==> old(self).challenges()[i].attempts < u32::MAX,
        ensures
            r == (index_of(challenge_ids(old(self).challenges()), captcha_id@) is Some && correct),
            final(self).challenges() == challenges_after_answer(old(self).challenges(), captcha_id@, correct),
            old(self).wf() ==> final(self).wf(),
            final(self).tool_permissions == old(self).tool_permissions,
            final(self).allowlist@ == old(self).allowlist@,
            final(self).contact_modes@ == old(self).contact_modes@,
            final(self).chat_style@ == old(self).chat_style@,
            final(self).poll_interval_ms == old(self).poll_interval_ms,
            final(self).captcha_counter == old(self).captcha_counter,
    {
        let ghost cs = self.challenges();
        proof {
            lemma_index_of_from(challenge_ids(cs), captcha_id@, 0);
            if old(self).wf() {
                lemma_fresh_after_answer(cs, captcha_id@, correct, self.captcha_counter);
            }
        }
        match self.find_challenge(captcha_id) {
            None => false,
            Some(i) => {
                let mut c = self.captcha_challenges[i].clone();
                c.attempts = c.attempts + 1;
                if correct {
                    c.verified = true;
                    self.captcha_challenges.set(i, c);
                    assert(self.challenges() =~= cs.update(i as int, after_attempt(cs[i as int], correct)));
                    return true;
                }
                let exhausted = c.attempts >= c.max_attempts;
                self.captcha_challenges.set(i, c);
                assert(self.challenges() =~= cs.update(i as int, after_attempt(cs[i as int], correct)));
                if exhausted {
                    self.drop_challenges(captcha_id);
                }
                false
            },
        }
    }

    /// Checks `answer` against captcha `captcha_id`: right when, trimmed and in
    /// lower case, it equals the captcha's text in lower case. The attempt is
    /// recorded as `record_captcha_attempt` says.
    pub fn verify_captcha(&mut self, captcha_id: &str, answer: &str) -> (r: bool)
        requires
            index_of(challenge_ids(old(self).challenges()), captcha_id@) matches Some(i)
                ==> old(self).challenges()[i].attempts < u32::MAX,
        ensures
            ({
                let correct = match index_of(challenge_ids(old(self).challenges()), captcha_id@) {
                    Some(i) => answer_matches(old(self).challenges()[i].text, answer@),
                    None => false,
                };
                &&& r == correct
                &&& final(self).challenges() == challenges_after_answer(old(self).challenges(), captcha_id@, correct)
            }),
            old(self).wf() ==> final(self).wf(),
            final(self).tool_permissions == old(self).tool_permissions,
            final(self).allowlist@ == old(self).allowlist@,
            final(self).contact_modes@ == old(self).contact_modes@,
            final(self).chat_style@ == old(self).chat_style@,
            final(self).poll_interval_ms == old(self).poll_interval_ms,
            final(self).captcha_counter == old(self).captcha_counter,
    {
        proof { lemma_index_of_from(challenge_ids(self.challenges()), captcha_id@, 0); }
        let correct = match self.find_challenge(captcha_id) {
            Some(i) => {
                let expected = to_lowercase(self.captcha_challenges[i].text.as_str());
                let trimmed = trim(answer);
                let given = to_lowercase(trimmed.as_str());
                str_eq(expected.as_str(), given.as_str())
            },
            None => false,
        };
        self.record_captcha_attempt(captcha_id, correct)
    }

    /// Whether contact `contact_jid` has answered a captcha for action `action_id` rightly.
    pub fn captcha_verified_for(&self, action_id: &str, contact_jid: &str) -> (r: bool)
        ensures
            r == has_verified_captcha(self.challenges(), action_id@, contact_jid@),
    {
        let ghost cs = self.challenges();
        let mut i: usize = 0;
        while i < self.captcha_challenges.len()
            invariant
                i <= self.captcha_challenges.len(),
                cs == self.challenges(),
                forall|j: int| 0 <= j < i ==> !#[trigger] captcha_for(cs[j], action_id@, contact_jid@),
            decreases self.captcha_challenges.len() - i,
        {
            let c = &self.captcha_challenges[i];
            assert(cs[i as int] == c@);
            if c.verified && str_eq(c.action_id.as_str(), action_id) && str_eq(c.contact_jid.as_str(), contact_jid) {
                assert(captcha_for(cs[i as int], action_id@, contact_jid@));
                return true;
            }
            i += 1;
        }
        false
    }

    /// Makes a captcha for `contact_jid` and `action_id`, numbered with the
    /// engine's counter, and keeps it waiting for an answer.
    pub fn create_captcha(&mut self, contact_jid: &str, action_id: &str, risk: RiskLevel) -> (r: CaptchaChallenge)
        ensures
            r.id@ == captcha_id(old(self).captcha_counter),
            r.text@.len() == CAPTCHA_LENGTH,
            forall|i: int| 0 <= i < r.text@.len() ==> captcha_alphabet().contains(#[trigger] r.text@[i]),
            r.contact_jid@ == contact_jid@,
            r.action_id@ == action_id@,
            r.attempts == 0,
            r.max_attempts == CAPTCHA_MAX_ATTEMPTS,
            !r.verified,
            old(self).wf() ==> forall|i: int| 0 <= i < old(self).challenges().len() ==> old(self).challenges()[i].id != r.id@,
            old(self).wf() && old(self).captcha_counter < u64::MAX ==> final(self).wf(),
            final(self).challenges() == old(self).challenges().push(r@),
            final(self).captcha_counter == (if old(self).captcha_counter == u64::MAX {
                0
            } else {
                (old(self).captcha_counter + 1) as u64
            }),
            final(self).tool_permissions == old(self).tool_permissions,
            final(self).allowlist@ == old(self).allowlist@,
            final(self).contact_modes@ == old(self).contact_modes@,
            final(self).chat_style@ == old(self).chat_style@,
            final(self).poll_interval_ms == old(self).poll_interval_ms,
    {
        let challenge = risk.generate_captcha(contact_jid, action_id, self.captcha_counter);
        let ghost c0 = self.captcha_counter;
        proof {
            assert forall|k: u64| c0 < k implies #[trigger] captcha_id(k) != captcha_id(c0) by {
                if captcha_id(k) == captcha_id(c0) {
                    lemma_captcha_id_injective(k, c0);
                }
            }
        }
        self.captcha_counter = self.captcha_counter.wrapping_add(1);
        let kept = challenge.clone();
        let ghost before = self.challenges();
        self.captcha_challenges.push(kept);
        assert(self.challenges() =~= before.push(challenge@));
        challenge
    }
}

impl PolicyEngine {
    /// The decision for an action of category `cat` and risk `risk` asked for by `jid`.
    pub open spec fn decision_for(&self, jid: Seq<char>, cat: ToolCategory, risk: RiskLevel) -> PolicyDecisionView {
        decide(self.mode_of(jid), self.allowed_names().contains(jid), self.tool_permissions.enabled(cat), cat, risk)
    }

    /// Decides whether `proposal`, asked for by `contact_jid`, may run now,
    /// must be verified first, or is refused.
    pub fn evaluate_proposal(&self, proposal: &ActionProposal, contact_jid: &str) -> (r: PolicyDecision)
        ensures
            r@ == self.decision_for(contact_jid@, proposal.tool_category, proposal.risk_level),
    {
        let mode = self.get_contact_mode(contact_jid);
        match mode {
            ContactMode::Blocked => {
                return refuse(owned("This contact is blocked"), "blocked");
            },
            ContactMode::Chat => {
                return refuse(owned("Contact is in chat-only mode"), "chat");
            },
            ContactMode::Summarize => {
                return refuse(owned("Messages from this contact are summarized, not executed"), "summarize");
            },
            ContactMode::Assistant => {},
        }
        if !self.is_allowed(contact_jid) {
            return refuse(owned("Contact not in allowlist"), "blocked");
        }
        let cat = proposal.tool_category;
        if !self.tool_permissions.is_category_enabled(cat) {
            let mut reason = owned(category_label(cat));
            reason.append(" tools are disabled by policy");
            return refuse(reason, "policy_blocked");
        }
        let risk = proposal.risk_level;
        let mut checks: Vec<String> = Vec::new();
        if risk.requires_captcha() {
            checks.push(owned("image_captcha"));
        }
        if risk.requires_image_captcha() {
            checks.push(owned("recaptcha"));
        }
        if risk.requires_confirmation() {
            checks.push(owned("confirmation"));
        }
        let allowed = checks.len() == 0;
        let reason = if allowed { owned("Auto-approved") } else { owned("Requires verification") };
        let r = PolicyDecision {
            allowed,
            reason,
            requires_verification: checks,
            risk_level: owned(risk_label(risk)),
        };
        assert(r@.requires_verification =~= required_checks(risk));
        r
    }

    /// The proposal for `action` with `params`, asked for by `contact_jid` for
    /// `reason`, and the decision on it.
    pub fn propose(&self, action: &str, params: ParamMap, contact_jid: &str, reason: &str) -> (r: (ActionProposal, PolicyDecision))
        ensures
            r.0.action@ == action@,
            r.0.params@ == params@,
            r.0.tool_category == category_of(action@),
            r.0.risk_level == risk_of(action@),
            r.0.reason@ == reason@,
            r.1@ == self.decision_for(contact_jid@, category_of(action@), risk_of(action@)),
    {
        let cat = ToolCategory::from_action(action);
        let risk = action_risk(action);
        let proposal = ActionProposal {
            action: owned(action),
            params,
            tool_category: cat,
            risk_level: risk,
            reason: owned(reason),
        };
        let decision = self.evaluate_proposal(&proposal, contact_jid);
        (proposal, decision)
    }
}

impl Default for PolicyEngine {
    /// The same engine as `PolicyEngine::new`.
    fn default() -> (r: Self)
        ensures
            r.wf(),
            r.allowed_names() == seq!["self"@],
            r.contact_modes@.len() == 0,
            r.chat_style@ == "Human"@,
            r.poll_interval_ms == 0,
            r.challenges().len() == 0,
            r.captcha_counter == 0,
    {
        PolicyEngine::new()
    }
}

/// The mode set for `k` in a list with keys `keys` and entries `modes`.
pub open spec fn old_mode_set_for(keys: Seq<Seq<char>>, modes: Seq<(String, ContactMode)>, k: Seq<char>) -> Option<ContactMode> {
    match index_of(keys, k) {
        Some(i) => Some(modes[i].1),
        None => None,
    }
}

// ---------------------------------------------------------------- laws

/// An action runs without any verification exactly when an allowlisted
/// contact in assistant mode asks for a low-risk action whose tools are enabled.
pub proof fn law_auto_approval(mode: ContactMode, on_allowlist: bool, enabled: bool, cat: ToolCategory, risk: RiskLevel)
    ensures
        decide(mode, on_allowlist, enabled, cat, risk).allowed <==> (mode == ContactMode::Assistant
            && on_allowlist && enabled && risk == RiskLevel::Low),
{
}

/// A decision asks for verification exactly when an allowlisted contact in
/// assistant mode asks for an enabled action of medium or high risk; an allowed
/// action asks for none.
pub proof fn law_verification_only_for_trusted(mode: ContactMode, on_allowlist: bool, enabled: bool, cat: ToolCategory, risk: RiskLevel)
    ensures
        decide(mode, on_allowlist, enabled, cat, risk).requires_verification.len() > 0 <==> (mode
            == ContactMode::Assistant && on_allowlist && enabled && risk != RiskLevel::Low),
        decide(mode, on_allowlist, enabled, cat, risk).allowed ==> decide(mode, on_allowlist, enabled, cat, risk).requires_verification.len() == 0,
{
}

/// Whenever a high-risk action is not refused outright, it needs an image
/// captcha and a confirmation.
pub proof fn law_high_risk_needs_captcha(mode: ContactMode, on_allowlist: bool, enabled: bool, cat: ToolCategory)
    ensures
        ({
            let d = decide(mode, on_allowlist, enabled, cat, RiskLevel::High);
            d.requires_verification.len() > 0 ==> d.requires_verification.contains("image_captcha"@)
                && d.requires_verification.contains("confirmation"@) && !d.allowed
        }),
{
    let d = decide(mode, on_allowlist, enabled, cat, RiskLevel::High);
    if d.requires_verification.len() > 0 {
        assert(d.requires_verification[0] == "image_captcha"@);
        assert(d.requires_verification[2] == "confirmation"@);
    }
}

/// Blocked, chat-only and summarized contacts never get an action run or queued.
pub proof fn law_untrusted_modes_refused(mode: ContactMode, on_allowlist: bool, enabled: bool, cat: ToolCategory, risk: RiskLevel)
    requires
        mode != ContactMode::Assistant,
    ensures
        !decide(mode, on_allowlist, enabled, cat, risk).allowed,
        decide(mode, on_allowlist, enabled, cat, risk).requires_verification.len() == 0,
{
}

/// After a contact is put on the allowlist it is on it; after it is taken
/// off it is not, and no other contact changes.
pub proof fn law_allowlist_membership(names: Seq<Seq<char>>, jid: Seq<char>, other: Seq<char>)
    requires
        names.no_duplicates(),
        other != jid,
    ensures
        (if names.contains(jid) { names } else { names.push(jid) }).contains(jid),
        !remove_name(names, jid).contains(jid),
        remove_name(names, jid).contains(other) == names.contains(other),
        remove_name(names, jid).no_duplicates(),
{
    lemma_index_of_from(names, jid, 0);
    assert(names.push(jid)[names.len() as int] == jid);
    if let Some(i) = index_of(names, jid) {
        let r = names.remove(i);
        assert forall|a: int| 0 <= a < r.len() implies r[a] != jid by {
            let a2 = if a < i { a } else { a + 1 };
            assert(r[a] == names[a2]);
        }
        if names.contains(other) {
            let k = choose|k: int| 0 <= k < names.len() && names[k] == other;
            if k < i {
                assert(r[k] == other);
            } else {
                assert(r[k - 1] == other);
            }
        }
        if r.contains(other) {
            let k = choose|k: int| 0 <= k < r.len() && r[k] == other;
            let k2 = if k < i { k } else { k + 1 };
            assert(names[k2] == other);
        }
        assert forall|a: int, b: int| 0 <= a < r.len() && 0 <= b < r.len() && a != b implies r[a] != r[b] by {
            let a2 = if a < i { a } else { a + 1 };
            let b2 = if b < i { b } else { b + 1 };
            assert(r[a] == names[a2] && r[b] == names[b2]);
        }
    }
}

pub proof fn lemma_without_id(cs: Seq<CaptchaChallengeView>, id: Seq<char>)
    ensures
        forall|k: int| 0 <= k < without_id(cs, id).len() ==> without_id(cs, id)[k].id != id,
        forall|c: CaptchaChallengeView| cs.contains(c) && c.id != id ==> without_id(cs, id).contains(c),
        without_id(cs, id).len() <= cs.len(),
    decreases cs.len(),
{
    if cs.len() > 0 {
        lemma_without_id(cs.drop_last(), id);
        let r = without_id(cs.drop_last(), id);
        assert forall|c: CaptchaChallengeView| cs.contains(c) && c.id != id implies without_id(cs, id).contains(c) by {
            let k = choose|k: int| 0 <= k < cs.len() && cs[k] == c;
            if k < cs.len() - 1 {
                assert(cs.drop_last()[k] == c);
                assert(cs.drop_last().contains(c));
                assert(r.contains(c));
                if cs.last().id != id {
                    let m = choose|m: int| 0 <= m < r.len() && r[m] == c;
                    assert(r.push(cs.last())[m] == c);
                }
            } else {
                assert(r.push(cs.last())[r.len() as int] == c);
            }
        }
    }
}

/// A right answer to a waiting captcha verifies it and keeps it.
pub proof fn law_right_answer_verifies(cs: Seq<CaptchaChallengeView>, id: Seq<char>)
    requires
        index_of(challenge_ids(cs), id) matches Some(i) && cs[i].attempts < u32::MAX,
    ensures
        ({
            let i = index_of(challenge_ids(cs), id)->0;
            let after = challenges_after_answer(cs, id, true);
            &&& after.len() == cs.len()
            &&& after[i].verified
            &&& after[i].id == id
            &&& after[i].attempts == cs[i].attempts + 1
        }),
{
    lemma_index_of_from(challenge_ids(cs), id, 0);
}

/// A wrong answer that uses up the last attempt of a captcha drops it: no
/// captcha with that identifier waits any more, while every captcha with
/// another identifier still does.
pub proof fn law_last_wrong_answer_drops(cs: Seq<CaptchaChallengeView>, id: Seq<char>)
    requires
        index_of(challenge_ids(cs), id) matches Some(i) && cs[i].attempts + 1 >= cs[i].max_attempts
            && cs[i].attempts < u32::MAX,
    ensures
        !challenge_ids(challenges_after_answer(cs, id, false)).contains(id),
        forall|c: CaptchaChallengeView| cs.contains(c) && c.id != id ==> challenges_after_answer(cs, id, false).contains(c),
{
    lemma_index_of_from(challenge_ids(cs), id, 0);
    let i = index_of(challenge_ids(cs), id)->0;
    let u = cs.update(i, after_attempt(cs[i], false));
    lemma_without_id(u, id);
    let after = challenges_after_answer(cs, id, false);
    assert(after == without_id(u, id));
    if challenge_ids(after).contains(id) {
        let k = choose|k: int| 0 <= k < challenge_ids(after).len() && challenge_ids(after)[k] == id;
        assert(after[k].id == id);
    }
    assert forall|c: CaptchaChallengeView| cs.contains(c) && c.id != id implies after.contains(c) by {
        let k = choose|k: int| 0 <= k < cs.len() && cs[k] == c;
        assert(challenge_ids(cs)[i] == id);
        assert(k != i);
        assert(u[k] == c);
        assert(u.contains(c));
    }
}

/// An answer to a captcha that is not waiting changes nothing.
pub proof fn law_unknown_captcha_unchanged(cs: Seq<CaptchaChallengeView>, id: Seq<char>, correct: bool)
    requires
        index_of(challenge_ids(cs), id) is None,
    ensures
        challenges_after_answer(cs, id, correct) == cs,
{
}

} // verus!

verus! {

/// The actions whose risk is low: reading the volume, listing files, images,
/// desktop paths and chats, and searching contacts.
pub open spec fn is_low_risk_action(a: Seq<char>) -> bool {
    a == "get_volume"@ || a == "list_files"@ || a == "list_images"@ || a == "get_desktop_paths"@
        || a == "list_chats"@ || a == "search_contacts"@
}

/// The actions whose risk is medium: sending a message or a file, opening an
/// app, and changing the volume or the playback.
pub open spec fn is_medium_risk_action(a: Seq<char>) -> bool {
    a == "send_message"@ || a == "send_file"@ || a == "open_app"@ || a == "set_volume"@ || a == "play_media"@
        || a == "pause_media"@ || a == "next_track"@ || a == "prev_track"@
}

/// The risk table: exactly the reading actions are low risk; exactly the
/// sending, launching and media-changing actions are medium risk; every
/// other action, known or not (running commands, deleting files,
/// installing software), is high risk. For a contact in assistant mode on
/// the allowlist with the action's tools enabled, a low-risk action is
/// approved at once, a medium-risk one waits for a confirmation and nothing
/// else, and a high-risk one waits for an image captcha, a reCAPTCHA and a
/// confirmation.
pub proof fn law_risk_table(policy: PolicyEngine, jid: Seq<char>, a: Seq<char>)
    ensures
        (risk_of(a) == RiskLevel::Low) <==> is_low_risk_action(a),
        (risk_of(a) == RiskLevel::Medium) <==> is_medium_risk_action(a),
        (risk_of(a) == RiskLevel::High) <==> !is_low_risk_action(a) && !is_medium_risk_action(a),
        risk_of("execute_shell"@) == RiskLevel::High && risk_of("run_command"@) == RiskLevel::High
            && risk_of("delete_file"@) == RiskLevel::High && risk_of("install_software"@) == RiskLevel::High,
        ({
            let d = policy.decision_for(jid, category_of(a), risk_of(a));
            policy.mode_of(jid) == ContactMode::Assistant && policy.allowed_names().contains(jid)
                && policy.tool_permissions.enabled(category_of(a)) ==> {
                &&& is_low_risk_action(a) ==> d == PolicyDecisionView {
                    allowed: true,
                    reason: "Auto-approved"@,
                    requires_verification: seq![],
                    risk_level: "low"@,
                }
                &&& is_medium_risk_action(a) ==> d == PolicyDecisionView {
                    allowed: false,
                    reason: "Requires verification"@,
                    requires_verification: seq!["confirmation"@],
                    risk_level: "medium"@,
                }
                &&& !is_low_risk_action(a) && !is_medium_risk_action(a) ==> d == PolicyDecisionView {
                    allowed: false,
                    reason: "Requires verification"@,
                    requires_verification: seq!["image_captcha"@, "recaptcha"@, "confirmation"@],
                    risk_level: "high"@,
                }
            }
        }),
{
    reveal_strlit("execute_shell");
    reveal_strlit("run_command");
    reveal_strlit("delete_file");
    reveal_strlit("install_software");
    reveal_strlit("get_volume");
    reveal_strlit("list_files");
    reveal_strlit("list_images");
    reveal_strlit("get_desktop_paths");
    reveal_strlit("list_chats");
    reveal_strlit("search_contacts");
    reveal_strlit("send_message");
    reveal_strlit("send_file");
    reveal_strlit("open_app");
    reveal_strlit("set_volume");
    reveal_strlit("play_media");
    reveal_strlit("pause_media");
    reveal_strlit("next_track");
    reveal_strlit("prev_track");
    assert("get_volume"@ != "send_message"@) by { assert("get_volume"@.len() != "send_message"@.len()); }
    assert("get_volume"@ != "send_file"@) by { assert("get_volume"@.len() != "send_file"@.len()); }
    assert("get_volume"@ != "open_app"@) by { assert("get_volume"@.len() != "open_app"@.len()); }
    assert("get_volume"@ != "set_volume"@) by { assert("get_volume"@[0] != "set_volume"@[0]); }
    assert("get_volume"@ != "play_media"@) by { assert("get_volume"@[0] != "play_media"@[0]); }
    assert("get_volume"@ != "pause_media"@) by { assert("get_volume"@.len() != "pause_media"@.len()); }
    assert("get_volume"@ != "next_track"@) by { assert("get_volume"@[0] != "next_track"@[0]); }
    assert("get_volume"@ != "prev_track"@) by { assert("get_volume"@[0] != "prev_track"@[0]); }
    assert("list_files"@ != "send_message"@) by { assert("list_files"@.len() != "send_message"@.len()); }
    assert("list_files"@ != "send_file"@) by { assert("list_files"@.len() != "send_file"@.len()); }
    assert("list_files"@ != "open_app"@) by { assert("list_files"@.len() != "open_app"@.len()); }
    assert("list_files"@ != "set_volume"@) by { assert("list_files"@[0] != "set_volume"@[0]); }
    assert("list_files"@ != "play_media"@) by { assert("list_files"@[0] != "play_media"@[0]); }
    assert("list_files"@ != "pause_media"@) by { assert("list_files"@.len() != "pause_media"@.len()); }
    assert("list_files"@ != "next_track"@) by { assert("list_files"@[0] != "next_track"@[0]); }
    assert("list_files"@ != "prev_track"@) by { assert("list_files"@[0] != "prev_track"@[0]); }
    assert("list_images"@ != "send_message"@) by { assert("list_images"@.len() != "send_message"@.len()); }
    assert("list_images"@ != "send_file"@) by { assert("list_images"@.len() != "send_file"@.len()); }
    assert("list_images"@ != "open_app"@) by { assert("list_images"@.len() != "open_app"@.len()); }
    assert("list_images"@ != "set_volume"@) by { assert("list_images"@.len() != "set_volume"@.len()); }
    assert("list_images"@ != "play_media"@) by { assert("list_images"@.len() != "play_media"@.len()); }
    assert("list_images"@ != "pause_media"@) by { assert("list_images"@[0] != "pause_media"@[0]); }
    assert("list_images"@ != "next_track"@) by { assert("list_images"@.len() != "next_track"@.len()); }
    assert("list_images"@ != "prev_track"@) by { assert("list_images"@.len() != "prev_track"@.len()); }
    assert("get_desktop_paths"@ != "send_message"@) by { assert("get_desktop_paths"@.len() != "send_message"@.len()); }
    assert("get_desktop_paths"@ != "send_file"@) by { assert("get_desktop_paths"@.len() != "send_file"@.len()); }
    assert("get_desktop_paths"@ != "open_app"@) by { assert("get_desktop_paths"@.len() != "open_app"@.len()); }
    assert("get_desktop_paths"@ != "set_volume"@) by { assert("get_desktop_paths"@.len() != "set_volume"@.len()); }
    assert("get_desktop_paths"@ != "play_media"@) by { assert("get_desktop_paths"@.len() != "play_media"@.len()); }
    assert("get_desktop_paths"@ != "pause_media"@) by { assert("get_desktop_paths"@.len() != "pause_media"@.len()); }
    assert("get_desktop_paths"@ != "next_track"@) by { assert("get_desktop_paths"@.len() != "next_track"@.len()); }
    assert("get_desktop_paths"@ != "prev_track"@) by { assert("get_desktop_paths"@.len() != "prev_track"@.len()); }
    assert("list_chats"@ != "send_message"@) by { assert("list_chats"@.len() != "send_message"@.len()); }
    assert("list_chats"@ != "send_file"@) by { assert("list_chats"@.len() != "send_file"@.len()); }
    assert("list_chats"@ != "open_app"@) by { assert("list_chats"@.len() != "open_app"@.len()); }
    assert("list_chats"@ != "set_volume"@) by { assert("list_chats"@[0] != "set_volume"@[0]); }
    assert("list_chats"@ != "play_media"@) by { assert("list_chats"@[0] != "play_media"@[0]); }
    assert("list_chats"@ != "pause_media"@) by { assert("list_chats"@.len() != "pause_media"@.len()); }
    assert("list_chats"@ != "next_track"@) by { assert("list_chats"@[0] != "next_track"@[0]); }
    assert("list_chats"@ != "prev_track"@) by { assert("list_chats"@[0] != "prev_track"@[0]); }
    assert("search_contacts"@ != "send_message"@) by { assert("search_contacts"@.len() != "send_message"@.len()); }
    assert("search_contacts"@ != "send_file"@) by { assert("search_contacts"@.len() != "send_file"@.len()); }
    assert("search_contacts"@ != "open_app"@) by { assert("search_contacts"@.len() != "open_app"@.len()); }
    assert("search_contacts"@ != "set_volume"@) by { assert("search_contacts"@.len() != "set_volume"@.len()); }
    assert("search_contacts"@ != "play_media"@) by { assert("search_contacts"@.len() != "play_media"@.len()); }
    assert("search_contacts"@ != "pause_media"@) by { assert("search_contacts"@.len() != "pause_media"@.len()); }
    assert("search_contacts"@ != "next_track"@) by { assert("search_contacts"@.len() != "next_track"@.len()); }
    assert("search_contacts"@ != "prev_track"@) by { assert("search_contacts"@.len() != "prev_track"@.len()); }
    assert("get_volume"@ != "execute_shell"@) by { assert("get_volume"@.len() != "execute_shell"@.len()); }
    assert("get_volume"@ != "run_command"@) by { assert("get_volume"@.len() != "run_command"@.len()); }
    assert("get_volume"@ != "delete_file"@) by { assert("get_volume"@.len() != "delete_file"@.len()); }
    assert("get_volume"@ != "install_software"@) by { assert("get_volume"@.len() != "install_software"@.len()); }
    assert("list_files"@ != "execute_shell"@) by { assert("list_files"@.len() != "execute_shell"@.len()); }
    assert("list_files"@ != "run_command"@) by { assert("list_files"@.len() != "run_command"@.len()); }
    assert("list_files"@ != "delete_file"@) by { assert("list_files"@.len() != "delete_file"@.len()); }
    assert("list_files"@ != "install_software"@) by { assert("list_files"@.len() != "install_software"@.len()); }
    assert("list_images"@ != "execute_shell"@) by { assert("list_images"@.len() != "execute_shell"@.len()); }
    assert("list_images"@ != "run_command"@) by { assert("list_images"@[0] != "run_command"@[0]); }
    assert("list_images"@ != "delete_file"@) by { assert("list_images"@[0] != "delete_file"@[0]); }
    assert("list_images"@ != "install_software"@) by { assert("list_images"@.len() != "install_software"@.len()); }
    assert("get_desktop_paths"@ != "execute_shell"@) by { assert("get_desktop_paths"@.len() != "execute_shell"@.len()); }
    assert("get_desktop_paths"@ != "run_command"@) by { assert("get_desktop_paths"@.len() != "run_command"@.len()); }
    assert("get_desktop_paths"@ != "delete_file"@) by { assert("get_desktop_paths"@.len() != "delete_file"@.len()); }
    assert("get_desktop_paths"@ != "install_software"@) by { assert("get_desktop_paths"@.len() != "install_software"@.len()); }
    assert("list_chats"@ != "execute_shell"@) by { assert("list_chats"@.len() != "execute_shell"@.len()); }
    assert("list_chats"@ != "run_command"@) by { assert("list_chats"@.len() != "run_command"@.len()); }
    assert("list_chats"@ != "delete_file"@) by { assert("list_chats"@.len() != "delete_file"@.len()); }
    assert("list_chats"@ != "install_software"@) by { assert("list_chats"@.len() != "install_software"@.len()); }
    assert("search_contacts"@ != "execute_shell"@) by { assert("search_contacts"@.len() != "execute_shell"@.len()); }
    assert("search_contacts"@ != "run_command"@) by { assert("search_contacts"@.len() != "run_command"@.len()); }
    assert("search_contacts"@ != "delete_file"@) by { assert("search_contacts"@.len() != "delete_file"@.len()); }
    assert("search_contacts"@ != "install_software"@) by { assert("search_contacts"@.len() != "install_software"@.len()); }
    assert("send_message"@ != "execute_shell"@) by { assert("send_message"@.len() != "execute_shell"@.len()); }
    assert("send_message"@ != "run_command"@) by { assert("send_message"@.len() != "run_command"@.len()); }
    assert("send_message"@ != "delete_file"@) by { assert("send_message"@.len() != "delete_file"@.len()); }
    assert("send_message"@ != "install_software"@) by { assert("send_message"@.len() != "install_software"@.len()); }
    assert("send_file"@ != "execute_shell"@) by { assert("send_file"@.len() != "execute_shell"@.len()); }
    assert("send_file"@ != "run_command"@) by { assert("send_file"@.len() != "run_command"@.len()); }
    assert("send_file"@ != "delete_file"@) by { assert("send_file"@.len() != "delete_file"@.len()); }
    assert("send_file"@ != "install_software"@) by { assert("send_file"@.len() != "install_software"@.len()); }
    assert("open_app"@ != "execute_shell"@) by { assert("open_app"@.len() != "execute_shell"@.len()); }
    assert("open_app"@ != "run_command"@) by { assert("open_app"@.len() != "run_command"@.len()); }
    assert("open_app"@ != "delete_file"@) by { assert("open_app"@.len() != "delete_file"@.len()); }
    assert("open_app"@ != "install_software"@) by { assert("open_app"@.len() != "install_software"@.len()); }
    assert("set_volume"@ != "execute_shell"@) by { assert("set_volume"@.len() != "execute_shell"@.len()); }
    assert("set_volume"@ != "run_command"@) by { assert("set_volume"@.len() != "run_command"@.len()); }
    assert("set_volume"@ != "delete_file"@) by { assert("set_volume"@.len() != "delete_file"@.len()); }
    assert("set_volume"@ != "install_software"@) by { assert("set_volume"@.len() != "install_software"@.len()); }
    assert("play_media"@ != "execute_shell"@) by { assert("play_media"@.len() != "execute_shell"@.len()); }
    assert("play_media"@ != "run_command"@) by { assert("play_media"@.len() != "run_command"@.len()); }
    assert("play_media"@ != "delete_file"@) by { assert("play_media"@.len() != "delete_file"@.len()); }
    assert("play_media"@ != "install_software"@) by { assert("play_media"@.len() != "install_software"@.len()); }
    assert("pause_media"@ != "execute_shell"@) by { assert("pause_media"@.len() != "execute_shell"@.len()); }
    assert("pause_media"@ != "run_command"@) by { assert("pause_media"@[0] != "run_command"@[0]); }
    assert("pause_media"@ != "delete_file"@) by { assert("pause_media"@[0] != "delete_file"@[0]); }
    assert("pause_media"@ != "install_software"@) by { assert("pause_media"@.len() != "install_software"@.len()); }
    assert("next_track"@ != "execute_shell"@) by { assert("next_track"@.len() != "execute_shell"@.len()); }
    assert("next_track"@ != "run_command"@) by { assert("next_track"@.len() != "run_command"@.len()); }
    assert("next_track"@ != "delete_file"@) by { assert("next_track"@.len() != "delete_file"@.len()); }
    assert("next_track"@ != "install_software"@) by { assert("next_track"@.len() != "install_software"@.len()); }
    assert("prev_track"@ != "execute_shell"@) by { assert("prev_track"@.len() != "execute_shell"@.len()); }
    assert("prev_track"@ != "run_command"@) by { assert("prev_track"@.len() != "run_command"@.len()); }
    assert("prev_track"@ != "delete_file"@) by { assert("prev_track"@.len() != "delete_file"@.len()); }
    assert("prev_track"@ != "install_software"@) by { assert("prev_track"@.len() != "install_software"@.len()); }
}

} // verus!
