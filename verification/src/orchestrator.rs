use vstd::prelude::*;
use vstd::string::*;
use crate::llm::{LLMMessage, MeshApiProvider, ProviderRegistry};
use crate::params::ParamMap;
use crate::policy::{category_of, has_verified_captcha, required_checks, risk_of, PolicyDecision, PolicyDecisionView, PolicyEngine, RiskLevel, ContactMode};
use crate::assoc::contains_string;
use crate::reply::{steps_view, ActionStep, ActionStepView};
use crate::reply::opt_view;
use crate::text::{lemma_decimal_injective, lemma_single_word, contains_seq, contains_str, decimal, lowercase, owned, push_decimal, split_whitespace, starts_with_seq, starts_with_str, str_eq, take_chars, to_lowercase, trim, trim_seq, words};
use crate::params::lookup;
use crate::json::{json_quote, json_string_literal};

verus! {

/// An action that waits for its contact's approval.
#[derive(Debug)]
pub struct PendingAction {
    pub id: String,
    pub action: String,
    pub params: ParamMap,
    pub risk_level: String,
    pub requires: Vec<String>,
    pub contact_jid: String,
    pub reason: String,
    pub thinking: Option<String>,
    pub delay_ms: Option<u64>,
}

/// The mathematical form of a [`PendingAction`].
pub struct PendingActionView {
    pub id: Seq<char>,
    pub action: Seq<char>,
    pub params: Seq<(Seq<char>, Seq<char>)>,
    pub risk_level: Seq<char>,
    pub requires: Seq<Seq<char>>,
    pub contact_jid: Seq<char>,
    pub reason: Seq<char>,
    pub thinking: Option<Seq<char>>,
    pub delay_ms: Option<u64>,
}

impl View for PendingAction {
    type V = PendingActionView;

    open spec fn view(&self) -> PendingActionView {
        PendingActionView {
            id: self.id@,
            action: self.action@,
            params: self.params@,
            risk_level: self.risk_level@,
            requires: self.requires@.map_values(|s: String| s@),
            contact_jid: self.contact_jid@,
            reason: self.reason@,
            thinking: opt_view(self.thinking),
            delay_ms: self.delay_ms,
        }
    }
}

/// A copy of a list of strings.
pub fn copy_strings(v: &Vec<String>) -> (r: Vec<String>)
    ensures
        r@.map_values(|s: String| s@) == v@.map_values(|s: String| s@),
{
    let mut out: Vec<String> = Vec::new();
    let mut i: usize = 0;
    while i < v.len()
        invariant
            i <= v.len(),
            out@.map_values(|s: String| s@) == v@.map_values(|s: String| s@).take(i as int),
        decreases v.len() - i,
    {
        let ghost before = out@;
        out.push(v[i].clone());
        assert(out@.map_values(|s: String| s@) =~= before.map_values(|s: String| s@).push(v@[i as int]@));
        assert(v@.map_values(|s: String| s@).take(i + 1) =~= v@.map_values(|s: String| s@).take(i as int).push(v@[i as int]@));
        i += 1;
    }
    assert(v@.map_values(|s: String| s@).take(i as int) =~= v@.map_values(|s: String| s@));
    out
}

/// A copy of an optional string.
pub fn copy_opt(s: &Option<String>) -> (r: Option<String>)
    ensures
        opt_view(r) == opt_view(*s),
{
    match s {
        Some(x) => Some(x.clone()),
        None => None,
    }
}

impl Clone for PendingAction {
    fn clone(&self) -> (r: Self)
        ensures
            r@ == self@,
    {
        PendingAction {
            id: self.id.clone(),
            action: self.action.clone(),
            params: self.params.duplicate(),
            risk_level: self.risk_level.clone(),
            requires: copy_strings(&self.requires),
            contact_jid: self.contact_jid.clone(),
            reason: self.reason.clone(),
            thinking: copy_opt(&self.thinking),
            delay_ms: self.delay_ms,
        }
    }
}

/// What running an action gave.
#[derive(Debug)]
pub struct ActionResult {
    pub success: bool,
    pub output: String,
    pub error: String,
    pub action: String,
    pub params: ParamMap,
}

impl ActionResult {
    /// A failed run of `action` with message `error`.
    pub fn fail(action: &str, error: &str) -> (r: ActionResult)
        ensures
            !r.success,
            r.output@.len() == 0,
            r.error@ == error@,
            r.action@ == action@,
            r.params@.len() == 0,
    {
        ActionResult {
            success: false,
            output: String::new(),
            error: owned(error),
            action: owned(action),
            params: ParamMap::new(),
        }
    }
}

/// The pending actions as mathematical values.
pub open spec fn pending_view(v: Seq<PendingAction>) -> Seq<PendingActionView> {
    v.map_values(|p: PendingAction| p@)
}

/// The first index at or after `i` of a pending action with identifier `id`.
pub open spec fn pending_index_from(ps: Seq<PendingActionView>, id: Seq<char>, i: int) -> Option<int>
    decreases ps.len() - i,
{
    if i < 0 || i >= ps.len() {
        None
    } else if ps[i].id == id {
        Some(i)
    } else {
        pending_index_from(ps, id, i + 1)
    }
}

/// The first index of a pending action with identifier `id`.
pub open spec fn pending_index(ps: Seq<PendingActionView>, id: Seq<char>) -> Option<int> {
    pending_index_from(ps, id, 0)
}

pub proof fn lemma_pending_index_from(ps: Seq<PendingActionView>, id: Seq<char>, i: int)
    requires
        0 <= i,
    ensures
        pending_index_from(ps, id, i) matches Some(j) ==> i <= j < ps.len() && ps[j].id == id
            && forall|m: int| i <= m < j ==> ps[m].id != id,
        pending_index_from(ps, id, i) is None ==> forall|m: int| i <= m < ps.len() ==> ps[m].id != id,
    decreases ps.len() - i,
{
    if i < ps.len() && ps[i].id != id {
        lemma_pending_index_from(ps, id, i + 1);
    }
}

/// `ps` without its first pending action with identifier `id`.
pub open spec fn remove_pending_id(ps: Seq<PendingActionView>, id: Seq<char>) -> Seq<PendingActionView> {
    match pending_index(ps, id) {
        Some(i) => ps.remove(i),
        None => ps,
    }
}

/// `ps` after removing, in turn, the first pending action with each identifier of `ids`.
pub open spec fn remove_pending_ids(ps: Seq<PendingActionView>, ids: Seq<Seq<char>>) -> Seq<PendingActionView>
    decreases ids.len(),
{
    if ids.len() == 0 {
        ps
    } else {
        remove_pending_ids(remove_pending_id(ps, ids[0]), ids.drop_first())
    }
}

/// The pending actions of contact `jid`, in order.
pub open spec fn pending_of(ps: Seq<PendingActionView>, jid: Seq<char>) -> Seq<PendingActionView>
    decreases ps.len(),
{
    if ps.len() == 0 {
        seq![]
    } else if ps.last().contact_jid == jid {
        pending_of(ps.drop_last(), jid).push(ps.last())
    } else {
        pending_of(ps.drop_last(), jid)
    }
}

/// The identifiers of a list of pending actions.
pub open spec fn pending_ids(ps: Seq<PendingActionView>) -> Seq<Seq<char>> {
    ps.map_values(|p: PendingActionView| p.id)
}

/// The assistant: its language-model providers, its policy, and the actions
/// that wait for approval.
pub struct WhatszaraOrchestrator {
    pub providers: ProviderRegistry<MeshApiProvider>,
    pub policy: PolicyEngine,
    /// The actions waiting for approval, oldest first.
    pub pending_actions: Vec<PendingAction>,
    /// The number of pending actions made so far; the last one is `pa_<counter>`.
    pub action_counter: u64,
    pub auto_read_enabled: bool,
    pub last_rowid: i64,
    pub poll_interval_ms: u64,
    /// The name of the operating system the assistant runs on.
    pub platform: String,
}

impl WhatszaraOrchestrator {
    /// The actions waiting for approval, oldest first.
    pub open spec fn pending(&self) -> Seq<PendingActionView> {
        pending_view(self.pending_actions@)
    }

    /// The number of pending actions made so far.
    pub open spec fn counter(&self) -> u64 {
        self.action_counter
    }

    /// The name of the operating system the assistant runs on.
    pub open spec fn platform_name(&self) -> Seq<char> {
        self.platform@
    }

    /// The registry and the policy are well formed, no two pending actions
    /// share an identifier, and none has an identifier that the counter has
    /// yet to give out.
    pub open spec fn wf(&self) -> bool {
        &&& self.providers.wf()
        &&& self.policy.wf()
        &&& ids_fresh(self.pending(), self.action_counter as nat)
    }

    /// A new assistant running on `platform`: no providers, a new policy,
    /// nothing pending, automatic reading off.
    pub fn new(platform: &str) -> (r: WhatszaraOrchestrator)
        ensures
            r.wf(),
            r.providers.providers@.len() == 0,
            r.policy.allowed_names() == seq!["self"@],
            r.policy.contact_modes@.len() == 0,
            r.policy.chat_style@ == "Human"@,
            r.policy.poll_interval_ms == 0,
            r.policy.challenges().len() == 0,
            r.policy.captcha_counter == 0,
            r.policy.tool_permissions.shell_enabled && r.policy.tool_permissions.file_access_enabled
                && r.policy.tool_permissions.media_control_enabled && r.policy.tool_permissions.app_launching_enabled
                && r.policy.tool_permissions.whatsapp_enabled,
            r.providers.active == 0,
            r.pending().len() == 0,
            r.counter() == 0,
            !r.auto_read_enabled,
            r.last_rowid == 0,
            r.poll_interval_ms == 0,
            r.platform_name() == platform@,
    {
        let r = WhatszaraOrchestrator {
            providers: ProviderRegistry::new(),
            policy: PolicyEngine::new(),
            pending_actions: Vec::new(),
            action_counter: 0,
            auto_read_enabled: false,
            last_rowid: 0,
            poll_interval_ms: 0,
            platform: owned(platform),
        };
        assert(r.pending() =~= Seq::<PendingActionView>::empty());
        r
    }

    /// The actions waiting for approval, oldest first.
    pub fn pending_actions(&self) -> (r: &[PendingAction])
        ensures
            pending_view(r@) == self.pending(),
    {
        self.pending_actions.as_slice()
    }

    /// The name of the operating system the assistant runs on.
    pub fn platform(&self) -> (r: &str)
        ensures
            r@ == self.platform_name(),
    {
        self.platform.as_str()
    }

    /// Turns automatic reading of new messages on.
    pub fn start_auto_read(&mut self)
        ensures
            final(self).auto_read_enabled,
            final(self).pending() == old(self).pending(),
            final(self).counter() == old(self).counter(),
            final(self).policy == old(self).policy,
            final(self).providers == old(self).providers,
    {
        self.auto_read_enabled = true;
    }

    /// Turns automatic reading of new messages off.
    pub fn stop_auto_read(&mut self)
        ensures
            !final(self).auto_read_enabled,
            final(self).pending() == old(self).pending(),
            final(self).counter() == old(self).counter(),
            final(self).policy == old(self).policy,
            final(self).providers == old(self).providers,
    {
        self.auto_read_enabled = false;
    }

    fn find_pending(&self, id: &str) -> (r: Option<usize>)
        ensures
            r matches Some(i) ==> pending_index(self.pending(), id@) == Some(i as int),
            r is None ==> pending_index(self.pending(), id@) is None,
    {
        let mut i: usize = 0;
        while i < self.pending_actions.len()
            invariant
                i <= self.pending_actions.len(),
                pending_index(self.pending(), id@) == pending_index_from(self.pending(), id@, i as int),
            decreases self.pending_actions.len() - i,
        {
            if str_eq(self.pending_actions[i].id.as_str(), id) {
                return Some(i);
            }
            i += 1;
        }
        None
    }

    /// Takes the first pending action with identifier `id` out of the queue.
    pub fn remove_pending_action(&mut self, id: &str) -> (r: Option<PendingAction>)
        ensures
            final(self).pending() == remove_pending_id(old(self).pending(), id@),
            match pending_index(old(self).pending(), id@) {
                Some(i) => r matches Some(p) && p@ == old(self).pending()[i],
                None => r is None,
            },
            final(self).counter() == old(self).counter(),
            final(self).platform_name() == old(self).platform_name(),
            final(self).policy == old(self).policy,
            final(self).providers == old(self).providers,
            final(self).auto_read_enabled == old(self).auto_read_enabled,
            old(self).wf() ==> final(self).wf(),
    {
        proof {
            lemma_pending_index_from(self.pending(), id@, 0);
            if old(self).wf() {
                law_remove_keeps_ids_fresh(self.pending(), id@, self.action_counter as nat);
            }
        }
        match self.find_pending(id) {
            Some(i) => {
                let ghost before = self.pending_actions@;
                let p = self.pending_actions.remove(i);
                assert(self.pending() =~= pending_view(before).remove(i as int));
                Some(p)
            },
            None => None,
        }
    }

    /// Rejects the first pending action with identifier `id`; false when there is none.
    pub fn reject_pending_action(&mut self, id: &str) -> (r: bool)
        ensures
            final(self).pending() == remove_pending_id(old(self).pending(), id@),
            r == pending_index(old(self).pending(), id@) is Some,
            old(self).wf() ==> final(self).wf(),
            final(self).counter() == old(self).counter(),
            final(self).platform_name() == old(self).platform_name(),
            final(self).policy == old(self).policy,
            final(self).providers == old(self).providers,
            final(self).auto_read_enabled == old(self).auto_read_enabled,
    {
        self.remove_pending_action(id).is_some()
    }

    /// The identifiers of the pending actions of contact `jid`, in order.
    pub fn pending_ids_for_contact(&self, jid: &str) -> (r: Vec<String>)
        ensures
            r@.map_values(|s: String| s@) == pending_ids(pending_of(self.pending(), jid@)),
    {
        let mut out: Vec<String> = Vec::new();
        let mut i: usize = 0;
        while i < self.pending_actions.len()
            invariant
                i <= self.pending_actions.len(),
                out@.map_values(|s: String| s@) == pending_ids(pending_of(self.pending().take(i as int), jid@)),
            decreases self.pending_actions.len() - i,
        {
            let ghost ps = self.pending();
            assert(ps.take(i + 1).drop_last() =~= ps.take(i as int));
            assert(ps.take(i + 1).last() == ps[i as int]);
            if str_eq(self.pending_actions[i].contact_jid.as_str(), jid) {
                let ghost before = out@;
                out.push(self.pending_actions[i].id.clone());
                assert(out@.map_values(|s: String| s@) =~= before.map_values(|s: String| s@).push(ps[i as int].id));
                assert(pending_ids(pending_of(ps.take(i + 1), jid@)) =~= pending_ids(pending_of(ps.take(i as int), jid@)).push(ps[i as int].id));
            }
            i += 1;
        }
        assert(self.pending().take(i as int) =~= self.pending());
        out
    }

    /// Rejects every pending action of contact `jid`, one identifier at a
    /// time, and says how many identifiers there were.
    pub fn reject_all_pending_for_contact(&mut self, contact_jid: &str) -> (r: usize)
        ensures
            r == pending_of(old(self).pending(), contact_jid@).len(),
            final(self).pending() == remove_pending_ids(old(self).pending(), pending_ids(pending_of(old(self).pending(), contact_jid@))),
            old(self).wf() ==> final(self).wf(),
            final(self).counter() == old(self).counter(),
            final(self).platform_name() == old(self).platform_name(),
            final(self).policy == old(self).policy,
            final(self).providers == old(self).providers,
            final(self).auto_read_enabled == old(self).auto_read_enabled,
    {
        let ids = self.pending_ids_for_contact(contact_jid);
        let ghost idv = ids@.map_values(|s: String| s@);
        let ghost start = self.pending();
        let count = ids.len();
        assert(idv.skip(0) =~= idv);
        let mut i: usize = 0;
        while i < ids.len()
            invariant
                i <= ids.len(),
                idv == ids@.map_values(|s: String| s@),
                remove_pending_ids(start, idv) == remove_pending_ids(self.pending(), idv.skip(i as int)),
                self.counter() == old(self).counter(),
                self.platform_name() == old(self).platform_name(),
                self.policy == old(self).policy,
                self.providers == old(self).providers,
                self.auto_read_enabled == old(self).auto_read_enabled,
                old(self).wf() ==> self.wf(),
            decreases ids.len() - i,
        {
            assert(idv.skip(i as int)[0] == ids@[i as int]@);
            assert(idv.skip(i as int).drop_first() =~= idv.skip(i + 1));
            self.reject_pending_action(ids[i].as_str());
            i += 1;
        }
        assert(idv.skip(0) =~= idv);
        assert(idv.skip(i as int) =~= Seq::<Seq<char>>::empty());
        count
    }
}

// ---------------------------------------------------------------- messages to the contact

/// The marker shown for a risk label.
pub open spec fn risk_icon_of(risk: Seq<char>) -> Seq<char> {
    if risk == "low"@ {
        "🟢"@
    } else if risk == "medium"@ || risk == "mid"@ {
        "🟡"@
    } else {
        "🔴"@
    }
}

/// The word shown for a risk label.
pub open spec fn risk_word_of(risk: Seq<char>) -> Seq<char> {
    if risk == "low"@ {
        "Low"@
    } else if risk == "medium"@ || risk == "mid"@ {
        "Mid"@
    } else {
        "High"@
    }
}

/// `s` cut to its first `n` characters.
pub open spec fn take_at_most(s: Seq<char>, n: nat) -> Seq<char> {
    if s.len() <= n { s } else { s.take(n as int) }
}

/// `before`, the parameter `key` and `after`, when the parameter is there.
pub open spec fn param_line(params: Seq<(Seq<char>, Seq<char>)>, key: Seq<char>, before: Seq<char>, after: Seq<char>) -> Seq<char> {
    match lookup(params, key) {
        Some(v) => before + v + after,
        None => seq![],
    }
}

/// `before`, the text and `after`, when there is a text.
pub open spec fn opt_line(t: Option<Seq<char>>, before: Seq<char>, after: Seq<char>) -> Seq<char> {
    match t {
        Some(x) => before + x + after,
        None => seq![],
    }
}

/// The reason under which the assistant proposes the actions a model asks for.
pub open spec fn model_reason() -> Seq<char> {
    "AI-triggered action from Assistant mode"@
}

/// The message asking a contact to approve one pending action.
pub open spec fn approval_request_text(p: PendingActionView) -> Seq<char> {
    let command = param_line(p.params, "command"@, "Command: `"@, "`\n"@);
    let name = param_line(p.params, "name"@, "App: `"@, "`\n"@);
    let details = if command.len() > 0 { command } else { name };
    let thinking = opt_line(p.thinking, "_Thinking:_ "@, "\n"@);
    let reason = if p.reason.len() > 0 && p.reason != model_reason() {
        "Reason: "@ + p.reason + "\n"@
    } else {
        seq![]
    };
    "⚠️ *Action Requires Approval*\n\nAction: `"@ + p.action + "`\nRisk: "@ + risk_icon_of(p.risk_level) + " *"@
        + risk_word_of(p.risk_level) + "*\n"@ + details + thinking + reason
        + "\n\nReply *ALLOW* to execute or *DENY* to reject."@
}

/// The parameter shown for an action in a list: its command, else its app name.
pub open spec fn batch_param(params: Seq<(Seq<char>, Seq<char>)>) -> Seq<char> {
    match lookup(params, "command"@) {
        Some(c) => " `"@ + c + "`"@,
        None => param_line(params, "name"@, " `"@, "`"@),
    }
}

/// Line `n` of the list of actions to approve.
pub open spec fn batch_line(n: nat, p: PendingActionView) -> Seq<char> {
    decimal(n) + ". "@ + risk_icon_of(p.risk_level) + " "@ + p.action + " "@ + risk_word_of(p.risk_level)
        + batch_param(p.params) + opt_line(p.thinking, "\n   _"@, "_"@) + "\n"@
}

/// The lines of the list of actions to approve, numbered from 1.
pub open spec fn batch_lines(ps: Seq<PendingActionView>) -> Seq<char>
    decreases ps.len(),
{
    if ps.len() == 0 {
        seq![]
    } else {
        batch_lines(ps.drop_last()) + batch_line(ps.len(), ps.last())
    }
}

/// The closing line of a list of actions to approve.
pub open spec fn approve_all_hint() -> Seq<char> {
    "Reply *ALLOW ALL* to execute all, *ALLOW <id>* for one, or *DENY ALL* to reject all."@
}

/// The message asking a contact to approve several pending actions.
pub open spec fn batch_request_text(ps: Seq<PendingActionView>) -> Seq<char> {
    if ps.len() == 0 {
        "No pending actions."@
    } else if ps.len() == 1 {
        approval_request_text(ps[0])
    } else {
        "⚠️ *Multiple Actions Require Approval*\n\n"@ + batch_lines(ps) + "\n"@ + approve_all_hint()
    }
}

/// What is said of an approved action that ran without output or error.
pub open spec fn done_text(action: Seq<char>) -> Seq<char> {
    if action == "execute_shell"@ {
        "Command completed (no output)"@
    } else if action == "open_app"@ {
        "Application launched"@
    } else if action == "set_volume"@ {
        "Volume changed"@
    } else if action == "play_music"@ {
        "Music playback started"@
    } else if action == "pause_music"@ {
        "Music paused"@
    } else if action == "next_track"@ {
        "Skipped to next track"@
    } else if action == "prev_track"@ {
        "Went to previous track"@
    } else if action == "send_message"@ {
        "Message sent"@
    } else if action == "send_file"@ {
        "File sent"@
    } else {
        "Done"@
    }
}

/// The message telling a contact that an approved action ran, with what it
/// gave: at most 500 characters of its trimmed output, else at most 200 of
/// its trimmed error, else a word on what was done.
pub open spec fn confirmation_text(p: PendingActionView, output: Seq<char>, error: Seq<char>) -> Seq<char> {
    let summary = if output.len() > 0 {
        "```\n"@ + take_at_most(trim_seq(output), 500) + "\n```"@
    } else if error.len() > 0 {
        "Error: "@ + take_at_most(trim_seq(error), 200)
    } else {
        done_text(p.action)
    };
    "✅ *Action Approved*\n\nAction: `"@ + p.action + "`\nRisk: "@ + risk_icon_of(p.risk_level) + " "@
        + risk_word_of(p.risk_level) + "\n\n"@ + summary
}

/// The message telling a contact that an action was denied.
pub open spec fn rejection_text(p: PendingActionView) -> Seq<char> {
    "❌ *Action Denied*\n\nAction: `"@ + p.action + "`\nRisk: "@ + risk_icon_of(p.risk_level) + " "@
        + risk_word_of(p.risk_level) + "\n\nThe action was not executed."@
}

/// The JSON members `"name":"value"` of `params`, separated by commas.
pub open spec fn json_members(params: Seq<(Seq<char>, Seq<char>)>) -> Seq<char>
    decreases params.len(),
{
    if params.len() == 0 {
        seq![]
    } else {
        let last = json_string_literal(params.last().0) + ":"@ + json_string_literal(params.last().1);
        if params.len() == 1 {
            last
        } else {
            json_members(params.drop_last()) + ","@ + last
        }
    }
}

/// The parameters as a JSON object.
pub open spec fn params_json(params: Seq<(Seq<char>, Seq<char>)>) -> Seq<char> {
    "{"@ + json_members(params) + "}"@
}

/// Entry `n` of the list of pending actions.
pub open spec fn pending_line(n: nat, p: PendingActionView) -> Seq<char> {
    decimal(n) + ". *"@ + p.action + "*\n   "@ + risk_icon_of(p.risk_level) + " Risk: "@ + risk_word_of(p.risk_level)
        + "\n   `"@ + params_json(p.params) + "`\n   ID: `"@ + p.id + "`\n\n"@
}

/// The entries of the list of pending actions, numbered from 1.
pub open spec fn pending_lines(ps: Seq<PendingActionView>) -> Seq<char>
    decreases ps.len(),
{
    if ps.len() == 0 {
        seq![]
    } else {
        pending_lines(ps.drop_last()) + pending_line(ps.len(), ps.last())
    }
}

/// The list of pending actions shown to a contact who asks for it.
pub open spec fn pending_list_text(ps: Seq<PendingActionView>) -> Seq<char> {
    "📋 *Pending Actions*\n\n"@ + pending_lines(ps) + approve_all_hint()
}

fn risk_icon(risk: &str) -> (r: &'static str)
    ensures
        r@ == risk_icon_of(risk@),
{
    if str_eq(risk, "low") {
        "🟢"
    } else if str_eq(risk, "medium") || str_eq(risk, "mid") {
        "🟡"
    } else {
        "🔴"
    }
}

fn risk_label(risk: &str) -> (r: &'static str)
    ensures
        r@ == risk_word_of(risk@),
{
    if str_eq(risk, "low") {
        "Low"
    } else if str_eq(risk, "medium") || str_eq(risk, "mid") {
        "Mid"
    } else {
        "High"
    }
}

fn param_line_exec(params: &ParamMap, key: &str, before: &str, after: &str) -> (r: String)
    ensures
        r@ == param_line(params@, key@, before@, after@),
{
    match params.get(key) {
        Some(v) => {
            let mut s = owned(before);
            s.append(v.as_str());
            s.append(after);
            s
        },
        None => String::new(),
    }
}

fn opt_line_exec(t: &Option<String>, before: &str, after: &str) -> (r: String)
    ensures
        r@ == opt_line(opt_view(*t), before@, after@),
{
    match t {
        Some(x) => {
            let mut s = owned(before);
            s.append(x.as_str());
            s.append(after);
            s
        },
        None => String::new(),
    }
}

fn done_message(action: &str) -> (r: &'static str)
    ensures
        r@ == done_text(action@),
{
    if str_eq(action, "execute_shell") {
        "Command completed (no output)"
    } else if str_eq(action, "open_app") {
        "Application launched"
    } else if str_eq(action, "set_volume") {
        "Volume changed"
    } else if str_eq(action, "play_music") {
        "Music playback started"
    } else if str_eq(action, "pause_music") {
        "Music paused"
    } else if str_eq(action, "next_track") {
        "Skipped to next track"
    } else if str_eq(action, "prev_track") {
        "Went to previous track"
    } else if str_eq(action, "send_message") {
        "Message sent"
    } else if str_eq(action, "send_file") {
        "File sent"
    } else {
        "Done"
    }
}

fn params_json_exec(params: &ParamMap) -> (r: String)
    ensures
        r@ == params_json(params@),
{
    let entries = params.entries();
    let ghost pv = crate::params::pair_views(entries@);
    let mut s = owned("{");
    let mut i: usize = 0;
    while i < entries.len()
        invariant
            i <= entries.len(),
            pv == crate::params::pair_views(entries@),
            pv == params@,
            s@ == "{"@ + json_members(pv.take(i as int)),
        decreases entries.len() - i,
    {
        assert(pv.take(i + 1).drop_last() =~= pv.take(i as int));
        assert(pv.take(i + 1).last() == pv[i as int]);
        if i > 0 {
            s.append(",");
        }
        let k = json_quote(entries[i].0.as_str());
        let v = json_quote(entries[i].1.as_str());
        s.append(k.as_str());
        s.append(":");
        s.append(v.as_str());
        i += 1;
    }
    assert(pv.take(i as int) =~= pv);
    s.append("}");
    s
}

fn batch_line_exec(n: u64, pa: &PendingAction) -> (r: String)
    ensures
        r@ == batch_line(n as nat, pa@),
{
    let params_str = match pa.params.get("command") {
        Some(c) => {
            let mut t = owned(" `");
            t.append(c.as_str());
            t.append("`");
            t
        },
        None => param_line_exec(&pa.params, "name", " `", "`"),
    };
    let thinking = opt_line_exec(&pa.thinking, "\n   _", "_");
    let mut msg = String::new();
    push_decimal(&mut msg, n);
    msg.append(". ");
    msg.append(risk_icon(pa.risk_level.as_str()));
    msg.append(" ");
    msg.append(pa.action.as_str());
    msg.append(" ");
    msg.append(risk_label(pa.risk_level.as_str()));
    msg.append(params_str.as_str());
    msg.append(thinking.as_str());
    msg.append("\n");
    msg
}

fn pending_line_exec(n: u64, pa: &PendingAction) -> (r: String)
    ensures
        r@ == pending_line(n as nat, pa@),
{
    let params_str = params_json_exec(&pa.params);
    let mut msg = String::new();
    push_decimal(&mut msg, n);
    msg.append(". *");
    msg.append(pa.action.as_str());
    msg.append("*\n   ");
    msg.append(risk_icon(pa.risk_level.as_str()));
    msg.append(" Risk: ");
    msg.append(risk_label(pa.risk_level.as_str()));
    msg.append("\n   `");
    msg.append(params_str.as_str());
    msg.append("`\n   ID: `");
    msg.append(pa.id.as_str());
    msg.append("`\n\n");
    msg
}

impl WhatszaraOrchestrator {
    /// The message asking a contact to approve one pending action.
    pub fn format_approval_request(pending: &PendingAction) -> (r: String)
        ensures
            r@ == approval_request_text(pending@),
    {
        let command = param_line_exec(&pending.params, "command", "Command: `", "`\n");
        let name = param_line_exec(&pending.params, "name", "App: `", "`\n");
        let details = if !command.as_str().is_empty() { command } else { name };
        let thinking = opt_line_exec(&pending.thinking, "_Thinking:_ ", "\n");
        let reason = if !pending.reason.as_str().is_empty() && !str_eq(pending.reason.as_str(), "AI-triggered action from Assistant mode") {
            let mut r = owned("Reason: ");
            r.append(pending.reason.as_str());
            r.append("\n");
            r
        } else {
            String::new()
        };
        let mut s = owned("⚠️ *Action Requires Approval*\n\nAction: `");
        s.append(pending.action.as_str());
        s.append("`\nRisk: ");
        s.append(risk_icon(pending.risk_level.as_str()));
        s.append(" *");
        s.append(risk_label(pending.risk_level.as_str()));
        s.append("*\n");
        s.append(details.as_str());
        s.append(thinking.as_str());
        s.append(reason.as_str());
        s.append("\n\nReply *ALLOW* to execute or *DENY* to reject.");
        s
    }

    /// The message asking a contact to approve the pending actions of a list.
    pub fn format_batch_approval_request(pending_list: &[PendingAction]) -> (r: String)
        ensures
            r@ == batch_request_text(pending_view(pending_list@)),
    {
        let ghost pv = pending_view(pending_list@);
        if pending_list.len() == 0 {
            return owned("No pending actions.");
        }
        if pending_list.len() == 1 {
            return Self::format_approval_request(&pending_list[0]);
        }
        let mut msg = owned("⚠️ *Multiple Actions Require Approval*\n\n");
        let mut i: usize = 0;
        while i < pending_list.len()
            invariant
                i <= pending_list.len(),
                pv == pending_view(pending_list@),
                msg@ == "⚠️ *Multiple Actions Require Approval*\n\n"@ + batch_lines(pv.take(i as int)),
            decreases pending_list.len() - i,
        {
            assert(pv.take(i + 1).drop_last() =~= pv.take(i as int));
            assert(pv.take(i + 1).last() == pv[i as int]);
            let line = batch_line_exec((i + 1) as u64, &pending_list[i]);
            msg.append(line.as_str());
            i += 1;
        }
        assert(pv.take(i as int) =~= pv);
        msg.append("\n");
        msg.append("Reply *ALLOW ALL* to execute all, *ALLOW <id>* for one, or *DENY ALL* to reject all.");
        msg
    }

    /// The message telling a contact that an approved action ran, and what it gave.
    pub fn format_approval_confirmation(pending: &PendingAction, action_result: &ActionResult) -> (r: String)
        ensures
            r@ == confirmation_text(pending@, action_result.output@, action_result.error@),
    {
        let summary = if !action_result.output.as_str().is_empty() {
            let out = trim(action_result.output.as_str());
            let cut = take_chars(out.as_str(), 500);
            let mut t = owned("```\n");
            t.append(cut.as_str());
            t.append("\n```");
            t
        } else if !action_result.error.as_str().is_empty() {
            let err = trim(action_result.error.as_str());
            let cut = take_chars(err.as_str(), 200);
            let mut t = owned("Error: ");
            t.append(cut.as_str());
            t
        } else {
            owned(done_message(pending.action.as_str()))
        };
        let mut s = owned("✅ *Action Approved*\n\nAction: `");
        s.append(pending.action.as_str());
        s.append("`\nRisk: ");
        s.append(risk_icon(pending.risk_level.as_str()));
        s.append(" ");
        s.append(risk_label(pending.risk_level.as_str()));
        s.append("\n\n");
        s.append(summary.as_str());
        s
    }

    /// The message telling a contact that an action was denied.
    pub fn format_rejection_confirmation(pending: &PendingAction) -> (r: String)
        ensures
            r@ == rejection_text(pending@),
    {
        let mut s = owned("❌ *Action Denied*\n\nAction: `");
        s.append(pending.action.as_str());
        s.append("`\nRisk: ");
        s.append(risk_icon(pending.risk_level.as_str()));
        s.append(" ");
        s.append(risk_label(pending.risk_level.as_str()));
        s.append("\n\nThe action was not executed.");
        s
    }

    /// The list of pending actions shown to a contact who asks for it.
    pub fn format_pending_actions_list(pending: &[PendingAction]) -> (r: String)
        ensures
            r@ == pending_list_text(pending_view(pending@)),
    {
        let ghost pv = pending_view(pending@);
        let mut msg = owned("📋 *Pending Actions*\n\n");
        let mut i: usize = 0;
        while i < pending.len()
            invariant
                i <= pending.len(),
                pv == pending_view(pending@),
                msg@ == "📋 *Pending Actions*\n\n"@ + pending_lines(pv.take(i as int)),
            decreases pending.len() - i,
        {
            assert(pv.take(i + 1).drop_last() =~= pv.take(i as int));
            assert(pv.take(i + 1).last() == pv[i as int]);
            let line = pending_line_exec((i + 1) as u64, &pending[i]);
            msg.append(line.as_str());
            i += 1;
        }
        assert(pv.take(i as int) =~= pv);
        msg.append("Reply *ALLOW ALL* to execute all, *ALLOW <id>* for one, or *DENY ALL* to reject all.");
        msg
    }
}

// ---------------------------------------------------------------- replies about pending actions

/// Whether a reply, in lower case, approves (`Some(true)`) or denies
/// (`Some(false)`) pending actions, or is neither.
pub open spec fn approval_of(l: Seq<char>) -> Option<bool> {
    if l == "allow"@ || l == "approve"@ || l == "yes"@ || starts_with_seq(l, "allow "@) || starts_with_seq(l, "approve "@) {
        Some(true)
    } else if l == "deny"@ || l == "reject"@ || l == "no"@ || starts_with_seq(l, "deny "@) || starts_with_seq(l, "reject "@)
        || starts_with_seq(l, "no "@) {
        Some(false)
    } else {
        None
    }
}

/// The identifier a reply names: its second word, or nothing.
pub open spec fn reply_id(l: Seq<char>) -> Seq<char> {
    if words(l).len() >= 2 { words(l)[1] } else { seq![] }
}

/// The first index at or after `i` of a pending action whose identifier contains `part`.
pub open spec fn first_containing_from(ps: Seq<PendingActionView>, part: Seq<char>, i: int) -> Option<int>
    decreases ps.len() - i,
{
    if i < 0 || i >= ps.len() {
        None
    } else if contains_seq(ps[i].id, part) {
        Some(i)
    } else {
        first_containing_from(ps, part, i + 1)
    }
}

pub proof fn lemma_first_containing_from(ps: Seq<PendingActionView>, part: Seq<char>, i: int)
    requires
        0 <= i,
    ensures
        first_containing_from(ps, part, i) matches Some(j) ==> i <= j < ps.len(),
    decreases ps.len() - i,
{
    if i < ps.len() && !contains_seq(ps[i].id, part) {
        lemma_first_containing_from(ps, part, i + 1);
    }
}

/// What a reply `l`, in lower case, from contact `jid` says about the
/// pending actions `ps`: nothing when the contact has none or the reply
/// neither approves nor denies; else the identifier meant (`__all__` for
/// all), whether it is approved, and the action meant (the contact's first
/// for `all` or no identifier, else the first whose identifier contains the
/// one named).
pub open spec fn reply_decision(ps: Seq<PendingActionView>, l: Seq<char>, jid: Seq<char>) -> Option<(Seq<char>, bool, PendingActionView)> {
    let mine = pending_of(ps, jid);
    if mine.len() == 0 {
        None
    } else {
        match approval_of(l) {
            None => None,
            Some(b) => {
                let id = reply_id(l);
                if id == "all"@ {
                    Some(("__all__"@, b, mine[0]))
                } else if id.len() > 0 {
                    match first_containing_from(mine, id, 0) {
                        Some(i) => Some((mine[i].id, b, mine[i])),
                        None => None,
                    }
                } else {
                    Some((mine[0].id, b, mine[0]))
                }
            },
        }
    }
}

/// The view of an answer to a reply.
pub open spec fn decision_view(r: Option<(String, bool, PendingAction)>) -> Option<(Seq<char>, bool, PendingActionView)> {
    match r {
        Some(t) => Some((t.0@, t.1, t.2@)),
        None => None,
    }
}

/// Whether a message, in lower case, asks to see the pending actions: one
/// of the set phrases, or a message naming them ("show pending", "list
/// actions" and the like). Other requests that start with "show" or "list",
/// such as "show my contacts", are for the model.
pub open spec fn is_pending_query(l: Seq<char>) -> bool {
    l == "show"@ || l == "list"@ || l == "json"@ || l == "commands"@ || l == "pending"@ || l == "show pending"@
        || l == "show json"@ || l == "show commands"@ || l == "show actions"@ || l == "list pending"@
        || l == "list commands"@ || l == "list actions"@ || l == "pending actions"@ || l == "pending commands"@
        || l == "what's pending"@ || l == "what is pending"@ || l == "what pending"@
        || contains_seq(l, "show pending"@) || contains_seq(l, "show json"@) || contains_seq(l, "show command"@)
        || contains_seq(l, "show action"@) || contains_seq(l, "list pending"@) || contains_seq(l, "list command"@)
        || contains_seq(l, "list action"@) || contains_seq(l, "pending action"@) || contains_seq(l, "pending command"@)
        || contains_seq(l, "what pending"@) || contains_seq(l, "what's pending"@) || contains_seq(l, "what is pending"@)
}

/// The answer to a contact who asks for nothing pending.
pub open spec fn nothing_pending_text() -> Seq<char> {
    "No pending actions. Send a command and if the AI requests a high-risk action, it will appear here for approval."@
}

/// The answer to a message `l`, in lower case, from contact `jid`: none
/// unless it asks to see the pending actions; then the list of the contact's
/// pending actions, or word that there are none.
pub open spec fn query_reply(ps: Seq<PendingActionView>, l: Seq<char>, jid: Seq<char>) -> Option<Seq<char>> {
    if !is_pending_query(l) {
        None
    } else if pending_of(ps, jid).len() == 0 {
        Some(nothing_pending_text())
    } else {
        Some(pending_list_text(pending_of(ps, jid)))
    }
}

fn approval_exec(l: &str) -> (r: Option<bool>)
    ensures
        r == approval_of(l@),
{
    if str_eq(l, "allow") || str_eq(l, "approve") || str_eq(l, "yes") || starts_with_str(l, "allow ")
        || starts_with_str(l, "approve ") {
        Some(true)
    } else if str_eq(l, "deny") || str_eq(l, "reject") || str_eq(l, "no") || starts_with_str(l, "deny ")
        || starts_with_str(l, "reject ") || starts_with_str(l, "no ") {
        Some(false)
    } else {
        None
    }
}

fn is_pending_query_exec(l: &str) -> (r: bool)
    ensures
        r == is_pending_query(l@),
{
    str_eq(l, "show") || str_eq(l, "list") || str_eq(l, "json") || str_eq(l, "commands") || str_eq(l, "pending")
        || str_eq(l, "show pending") || str_eq(l, "show json") || str_eq(l, "show commands") || str_eq(l, "show actions")
        || str_eq(l, "list pending") || str_eq(l, "list commands") || str_eq(l, "list actions")
        || str_eq(l, "pending actions") || str_eq(l, "pending commands") || str_eq(l, "what's pending")
        || str_eq(l, "what is pending") || str_eq(l, "what pending")
        || contains_str(l, "show pending") || contains_str(l, "show json")
        || contains_str(l, "show command") || contains_str(l, "show action") || contains_str(l, "list pending")
        || contains_str(l, "list command") || contains_str(l, "list action") || contains_str(l, "pending action")
        || contains_str(l, "pending command") || contains_str(l, "what pending") || contains_str(l, "what's pending")
        || contains_str(l, "what is pending")
}

impl WhatszaraOrchestrator {
    /// Copies of the pending actions of contact `jid`, oldest first.
    pub fn pending_for_contact(&self, jid: &str) -> (r: Vec<PendingAction>)
        ensures
            pending_view(r@) == pending_of(self.pending(), jid@),
    {
        let mut out: Vec<PendingAction> = Vec::new();
        let mut i: usize = 0;
        while i < self.pending_actions.len()
            invariant
                i <= self.pending_actions.len(),
                pending_view(out@) == pending_of(self.pending().take(i as int), jid@),
            decreases self.pending_actions.len() - i,
        {
            let ghost ps = self.pending();
            assert(ps.take(i + 1).drop_last() =~= ps.take(i as int));
            assert(ps.take(i + 1).last() == ps[i as int]);
            if str_eq(self.pending_actions[i].contact_jid.as_str(), jid) {
                let ghost before = out@;
                out.push(self.pending_actions[i].clone());
                assert(pending_view(out@) =~= pending_view(before).push(ps[i as int]));
            }
            i += 1;
        }
        assert(self.pending().take(i as int) =~= self.pending());
        out
    }

    /// What a reply `lower`, already trimmed and in lower case, from
    /// `contact_jid` says about that contact's pending actions.
    pub fn classify_pending_reply(&self, lower: &str, contact_jid: &str) -> (r: Option<(String, bool, PendingAction)>)
        ensures
            decision_view(r) == reply_decision(self.pending(), lower@, contact_jid@),
    {
        let mine = self.pending_for_contact(contact_jid);
        let ghost mv = pending_view(mine@);
        if mine.len() == 0 {
            return None;
        }
        let is_approval = match approval_exec(lower) {
            Some(b) => b,
            None => {
                return None;
            },
        };
        let words_v = split_whitespace(lower);
        let id_from_msg = if words_v.len() >= 2 { words_v[1].clone() } else { String::new() };
        assert(id_from_msg@ == reply_id(lower@));
        if str_eq(id_from_msg.as_str(), "all") {
            let first = mine[0].clone();
            return Some((owned("__all__"), is_approval, first));
        }
        if !id_from_msg.as_str().is_empty() {
            assert(id_from_msg@ != "all"@);
            let mut i: usize = 0;
            while i < mine.len()
                invariant
                    i <= mine.len(),
                    mv == pending_view(mine@),
                    mv == pending_of(self.pending(), contact_jid@),
                    mv.len() > 0,
                    id_from_msg@ == reply_id(lower@),
                    reply_id(lower@) != "all"@,
                    reply_id(lower@).len() > 0,
                    approval_of(lower@) == Some(is_approval),
                    first_containing_from(mv, id_from_msg@, 0) == first_containing_from(mv, id_from_msg@, i as int),
                decreases mine.len() - i,
            {
                if contains_str(mine[i].id.as_str(), id_from_msg.as_str()) {
                    let p = mine[i].clone();
                    return Some((mine[i].id.clone(), is_approval, p));
                }
                i += 1;
            }
            return None;
        }
        let first = mine[0].clone();
        Some((mine[0].id.clone(), is_approval, first))
    }

    /// What a message from `contact_jid` says about that contact's pending
    /// actions, read trimmed and in lower case.
    pub fn check_pending_action_reply(&self, message: &str, contact_jid: &str) -> (r: Option<(String, bool, PendingAction)>)
        ensures
            decision_view(r) == reply_decision(self.pending(), lowercase(trim_seq(message@)), contact_jid@),
    {
        let trimmed = trim(message);
        let lower = to_lowercase(trimmed.as_str());
        self.classify_pending_reply(lower.as_str(), contact_jid)
    }

    /// The answer to a message `lower`, already trimmed and in lower case,
    /// from `contact_jid` that may ask to see the pending actions.
    pub fn pending_query_reply(&self, lower: &str, contact_jid: &str) -> (r: Option<String>)
        ensures
            opt_view(r) == query_reply(self.pending(), lower@, contact_jid@),
    {
        if !is_pending_query_exec(lower) {
            return None;
        }
        let mine = self.pending_for_contact(contact_jid);
        if mine.len() == 0 {
            return Some(owned(
                "No pending actions. Send a command and if the AI requests a high-risk action, it will appear here for approval.",
            ));
        }
        Some(Self::format_pending_actions_list(mine.as_slice()))
    }

    /// The answer to a message from `contact_jid` that may ask to see the
    /// pending actions, read trimmed and in lower case.
    pub fn check_pending_action_query(&self, message: &str, contact_jid: &str) -> (r: Option<String>)
        ensures
            opt_view(r) == query_reply(self.pending(), lowercase(trim_seq(message@)), contact_jid@),
    {
        let trimmed = trim(message);
        let lower = to_lowercase(trimmed.as_str());
        self.pending_query_reply(lower.as_str(), contact_jid)
    }
}

// ---------------------------------------------------------------- planning the steps of a reply

/// What becomes of one step that a model asked for.
#[derive(Debug)]
pub enum StepPlan {
    /// Step `index` runs now; its decision reported this risk.
    Execute { index: usize, risk_level: String },
    /// The step waits for approval as this pending action.
    Pending(PendingAction),
    /// The step is refused, for this reason.
    Blocked { action: String, reason: String },
}

/// The mathematical form of a [`StepPlan`].
pub enum StepPlanView {
    Execute { index: int, risk_level: Seq<char> },
    Pending(PendingActionView),
    Blocked { action: Seq<char>, reason: Seq<char> },
}

impl View for StepPlan {
    type V = StepPlanView;

    open spec fn view(&self) -> StepPlanView {
        match self {
            StepPlan::Execute { index, risk_level } => StepPlanView::Execute { index: *index as int, risk_level: risk_level@ },
            StepPlan::Pending(p) => StepPlanView::Pending(p@),
            StepPlan::Blocked { action, reason } => StepPlanView::Blocked { action: action@, reason: reason@ },
        }
    }
}

/// The plans as mathematical values.
pub open spec fn plans_view(v: Seq<StepPlan>) -> Seq<StepPlanView> {
    v.map_values(|p: StepPlan| p@)
}

/// The identifier of the `n`-th pending action: `pa_<n>`.
pub open spec fn pending_id(n: nat) -> Seq<char> {
    "pa_"@ + decimal(n)
}

/// What becomes of step `st`, number `index`, asked for by `jid` when
/// `counter` pending actions were made before: it runs when the policy allows
/// it, waits as pending action `pa_<counter + 1>` when it needs verification,
/// and is refused otherwise.
pub open spec fn plan_step(policy: PolicyEngine, st: ActionStepView, index: int, jid: Seq<char>, counter: nat) -> StepPlanView {
    let d = policy.decision_for(jid, category_of(st.tool), risk_of(st.tool));
    if d.allowed {
        StepPlanView::Execute { index, risk_level: d.risk_level }
    } else if d.requires_verification.len() > 0 {
        StepPlanView::Pending(PendingActionView {
            id: pending_id(counter + 1),
            action: st.tool,
            params: st.params,
            risk_level: d.risk_level,
            requires: d.requires_verification,
            contact_jid: jid,
            reason: d.reason,
            thinking: st.thinking,
            delay_ms: st.delay_ms,
        })
    } else {
        StepPlanView::Blocked { action: st.tool, reason: d.reason }
    }
}

/// What becomes of steps `i..` of `steps`, numbering the pending actions on from `counter`.
pub open spec fn plan_from(policy: PolicyEngine, steps: Seq<ActionStepView>, i: int, jid: Seq<char>, counter: nat) -> Seq<StepPlanView>
    decreases steps.len() - i,
{
    if i < 0 || i >= steps.len() {
        seq![]
    } else {
        let p = plan_step(policy, steps[i], i, jid, counter);
        seq![p] + plan_from(policy, steps, i + 1, jid, if p is Pending { counter + 1 } else { counter })
    }
}

/// The pending actions among some plans, in order.
pub open spec fn pendings_of_plans(ps: Seq<StepPlanView>) -> Seq<PendingActionView>
    decreases ps.len(),
{
    if ps.len() == 0 {
        seq![]
    } else {
        match ps.last() {
            StepPlanView::Pending(p) => pendings_of_plans(ps.drop_last()).push(p),
            _ => pendings_of_plans(ps.drop_last()),
        }
    }
}

impl WhatszaraOrchestrator {
    /// Decides what becomes of each step a model asked for on behalf of
    /// `contact_jid`: each is proposed to the policy; the allowed ones are to
    /// run now, those that need verification join the pending actions under
    /// fresh identifiers, and the rest are refused.
    pub fn plan_action_steps(&mut self, steps: &Vec<ActionStep>, contact_jid: &str) -> (r: Vec<StepPlan>)
        requires
            old(self).action_counter + steps.len() <= u64::MAX,
        ensures
            plans_view(r@) == plan_from(old(self).policy, steps_view(steps@), 0, contact_jid@, old(self).action_counter as nat),
            final(self).pending() == old(self).pending() + pendings_of_plans(plans_view(r@)),
            final(self).action_counter == old(self).action_counter + pendings_of_plans(plans_view(r@)).len(),
            final(self).policy == old(self).policy,
            final(self).providers == old(self).providers,
            final(self).platform@ == old(self).platform@,
            final(self).auto_read_enabled == old(self).auto_read_enabled,
            old(self).wf() ==> final(self).wf(),
    {
        let ghost sv = steps_view(steps@);
        proof {
            if old(self).wf() {
                law_plan_keeps_ids_fresh(self.policy, sv, contact_jid@, self.action_counter as nat, self.pending());
            }
        }
        let ghost c0 = self.action_counter as nat;
        let mut out: Vec<StepPlan> = Vec::new();
        let mut i: usize = 0;
        while i < steps.len()
            invariant
                i <= steps.len(),
                sv == steps_view(steps@),
                self.policy == old(self).policy,
                self.providers == old(self).providers,
                self.platform == old(self).platform,
                self.auto_read_enabled == old(self).auto_read_enabled,
                c0 == old(self).action_counter,
                old(self).action_counter + steps.len() <= u64::MAX,
                self.action_counter <= c0 + i,
                plans_view(out@) + plan_from(self.policy, sv, i as int, contact_jid@, self.action_counter as nat)
                    == plan_from(self.policy, sv, 0, contact_jid@, c0),
                self.pending() == old(self).pending() + pendings_of_plans(plans_view(out@)),
                self.action_counter == c0 + pendings_of_plans(plans_view(out@)).len(),
            decreases steps.len() - i,
        {
            let step = &steps[i];
            let (_proposal, decision) = self.policy.propose(
                step.tool.as_str(),
                step.params.duplicate(),
                contact_jid,
                "AI-triggered action from Assistant mode",
            );
            let ghost before_out = plans_view(out@);
            let ghost before_pending = self.pending();
            let ghost cnt = self.action_counter as nat;
            if decision.allowed {
                out.push(StepPlan::Execute { index: i, risk_level: decision.risk_level });
            } else if decision.requires_verification.len() > 0 {
                self.action_counter = self.action_counter + 1;
                let mut id = owned("pa_");
                push_decimal(&mut id, self.action_counter);
                let pending = PendingAction {
                    id,
                    action: step.tool.clone(),
                    params: step.params.duplicate(),
                    risk_level: decision.risk_level,
                    requires: decision.requires_verification,
                    contact_jid: owned(contact_jid),
                    reason: decision.reason,
                    thinking: copy_opt(&step.thinking),
                    delay_ms: step.delay_ms,
                };
                let ghost pv = pending@;
                self.pending_actions.push(pending.clone());
                assert(self.pending() =~= before_pending.push(pv));
                out.push(StepPlan::Pending(pending));
            } else {
                out.push(StepPlan::Blocked { action: step.tool.clone(), reason: decision.reason });
            }
            proof {
                let p = plan_step(self.policy, sv[i as int], i as int, contact_jid@, cnt);
                assert(plans_view(out@) =~= before_out.push(p));
                assert(plans_view(out@).drop_last() =~= before_out);
                assert(plan_from(self.policy, sv, i as int, contact_jid@, cnt)
                    == seq![p] + plan_from(self.policy, sv, i + 1, contact_jid@, self.action_counter as nat));
                assert(before_out + plan_from(self.policy, sv, i as int, contact_jid@, cnt)
                    =~= plans_view(out@) + plan_from(self.policy, sv, i + 1, contact_jid@, self.action_counter as nat));
                assert(pendings_of_plans(plans_view(out@)) == match p {
                    StepPlanView::Pending(q) => pendings_of_plans(before_out).push(q),
                    _ => pendings_of_plans(before_out),
                });
                assert(self.pending() =~= old(self).pending() + pendings_of_plans(plans_view(out@)));
            }
            i += 1;
        }
        proof {
            assert(plans_view(out@) + plan_from(self.policy, sv, i as int, contact_jid@, self.action_counter as nat)
                =~= plans_view(out@));
        }
        out
    }
}

// ---------------------------------------------------------------- approval and direct requests

/// What becomes of an approval.
#[derive(Debug)]
pub enum ApprovalOutcome {
    /// No pending action has that identifier.
    NotFound,
    /// The policy now refuses the action outright, for this reason.
    Refused { action: String, reason: String },
    /// The action needs a captcha that its contact has not yet answered
    /// rightly; it stays in the queue.
    CaptchaRequired { pending: PendingAction },
    /// The action runs; its decision reported this risk.
    Run { pending: PendingAction, risk_level: String },
}

/// The mathematical form of an [`ApprovalOutcome`].
pub enum ApprovalOutcomeView {
    NotFound,
    Refused { action: Seq<char>, reason: Seq<char> },
    CaptchaRequired { pending: PendingActionView },
    Run { pending: PendingActionView, risk_level: Seq<char> },
}

impl View for ApprovalOutcome {
    type V = ApprovalOutcomeView;

    open spec fn view(&self) -> ApprovalOutcomeView {
        match self {
            ApprovalOutcome::NotFound => ApprovalOutcomeView::NotFound,
            ApprovalOutcome::Refused { action, reason } => ApprovalOutcomeView::Refused { action: action@, reason: reason@ },
            ApprovalOutcome::CaptchaRequired { pending } => ApprovalOutcomeView::CaptchaRequired { pending: pending@ },
            ApprovalOutcome::Run { pending, risk_level } => ApprovalOutcomeView::Run { pending: pending@, risk_level: risk_level@ },
        }
    }
}

/// What becomes of approving pending action `p` under `policy`: the policy
/// decides again; an action it refuses outright (not allowed and nothing to
/// verify) does not run; an action that needs an image captcha runs only
/// once its contact has answered a captcha for it rightly, and otherwise
/// waits; any other runs.
pub open spec fn approval_of_pending(policy: PolicyEngine, p: PendingActionView) -> ApprovalOutcomeView {
    let d = policy.decision_for(p.contact_jid, category_of(p.action), risk_of(p.action));
    if !d.allowed && d.requires_verification.len() == 0 {
        ApprovalOutcomeView::Refused { action: p.action, reason: d.reason }
    } else if d.requires_verification.contains("image_captcha"@) && !has_verified_captcha(policy.challenges(), p.id, p.contact_jid) {
        ApprovalOutcomeView::CaptchaRequired { pending: p }
    } else {
        ApprovalOutcomeView::Run { pending: p, risk_level: d.risk_level }
    }
}

/// A step that undoes an action.
#[derive(Debug)]
pub struct ReverseAction {
    pub action: String,
    pub params: ParamMap,
}

/// What approving `id` does under `policy` to the queue `ps`: the outcome,
/// and the queue after it.
pub open spec fn approve_step(policy: PolicyEngine, ps: Seq<PendingActionView>, id: Seq<char>) -> (ApprovalOutcomeView, Seq<PendingActionView>) {
    match pending_index(ps, id) {
        Some(i) => {
            let o = approval_of_pending(policy, ps[i]);
            (o, if o is CaptchaRequired { ps } else { remove_pending_id(ps, id) })
        },
        None => (ApprovalOutcomeView::NotFound, ps),
    }
}

/// Approving each of `ids` in turn, starting from the queue `ps`: the
/// outcomes in order, and the queue at the end.
pub open spec fn approvals(policy: PolicyEngine, ps: Seq<PendingActionView>, ids: Seq<Seq<char>>) -> (Seq<ApprovalOutcomeView>, Seq<PendingActionView>)
    decreases ids.len(),
{
    if ids.len() == 0 {
        (seq![], ps)
    } else {
        let (o, next) = approve_step(policy, ps, ids[0]);
        let rest = approvals(policy, next, ids.drop_first());
        (seq![o] + rest.0, rest.1)
    }
}

/// The outcomes as mathematical values.
pub open spec fn outcomes_view(v: Seq<ApprovalOutcome>) -> Seq<ApprovalOutcomeView> {
    v.map_values(|o: ApprovalOutcome| o@)
}

/// What the steps of a reply came to, for the report on it.
pub struct PlanSummary {
    /// The actions that now wait for approval, in order.
    pub pending: Vec<PendingAction>,
    /// Some step ran or was refused.
    pub auto_executed: bool,
    /// Some step was refused.
    pub anything_blocked: bool,
}

impl WhatszaraOrchestrator {
    /// Approves the first pending action with identifier `id`: the policy
    /// decides again whether it may run. An action that runs or is refused
    /// leaves the queue; one that still waits for its captcha stays.
    pub fn approve_pending_action(&mut self, id: &str) -> (r: ApprovalOutcome)
        ensures
            final(self).pending() == (if r@ is CaptchaRequired {
                old(self).pending()
            } else {
                remove_pending_id(old(self).pending(), id@)
            }),
            r@ == match pending_index(old(self).pending(), id@) {
                Some(i) => approval_of_pending(old(self).policy, old(self).pending()[i]),
                None => ApprovalOutcomeView::NotFound,
            },
            final(self).action_counter == old(self).action_counter,
            final(self).policy == old(self).policy,
            final(self).providers == old(self).providers,
            final(self).platform@ == old(self).platform@,
            old(self).wf() ==> final(self).wf(),
    {
        proof {
            lemma_pending_index_from(self.pending(), id@, 0);
            if old(self).wf() {
                law_remove_keeps_ids_fresh(self.pending(), id@, self.action_counter as nat);
            }
        }
        let i = match self.find_pending(id) {
            Some(i) => i,
            None => {
                return ApprovalOutcome::NotFound;
            },
        };
        let ghost ps = self.pending();
        assert(ps[i as int] == self.pending_actions@[i as int]@);
        let (_proposal, decision) = self.policy.propose(
            self.pending_actions[i].action.as_str(),
            self.pending_actions[i].params.duplicate(),
            self.pending_actions[i].contact_jid.as_str(),
            self.pending_actions[i].reason.as_str(),
        );
        if !decision.allowed && decision.requires_verification.len() == 0 {
            let pending = self.pending_actions.remove(i);
            assert(self.pending() =~= ps.remove(i as int));
            return ApprovalOutcome::Refused { action: pending.action, reason: decision.reason };
        }
        let needs_captcha = contains_string(&decision.requires_verification, "image_captcha");
        if needs_captcha && !self.policy.captcha_verified_for(
            self.pending_actions[i].id.as_str(),
            self.pending_actions[i].contact_jid.as_str(),
        ) {
            return ApprovalOutcome::CaptchaRequired { pending: self.pending_actions[i].clone() };
        }
        let pending = self.pending_actions.remove(i);
        assert(self.pending() =~= ps.remove(i as int));
        ApprovalOutcome::Run { pending, risk_level: decision.risk_level }
    }

    /// Approves, in order, every pending action of contact `contact_jid`,
    /// each as `approve_pending_action` does, and gives the outcomes in order.
    pub fn approve_all_pending_for_contact(&mut self, contact_jid: &str) -> (r: Vec<ApprovalOutcome>)
        ensures
            ({
                let all = approvals(old(self).policy, old(self).pending(), pending_ids(pending_of(old(self).pending(), contact_jid@)));
                &&& outcomes_view(r@) == all.0
                &&& final(self).pending() == all.1
            }),
            final(self).action_counter == old(self).action_counter,
            final(self).policy == old(self).policy,
            final(self).providers == old(self).providers,
            final(self).platform@ == old(self).platform@,
            old(self).wf() ==> final(self).wf(),
    {
        let ids = self.pending_ids_for_contact(contact_jid);
        let ghost idv = ids@.map_values(|s: String| s@);
        let ghost policy = self.policy;
        let ghost full = approvals(policy, self.pending(), idv);
        assert(idv.skip(0) =~= idv);
        let mut out: Vec<ApprovalOutcome> = Vec::new();
        let mut i: usize = 0;
        while i < ids.len()
            invariant
                i <= ids.len(),
                idv == ids@.map_values(|s: String| s@),
                self.policy == policy,
                policy == old(self).policy,
                self.action_counter == old(self).action_counter,
                self.providers == old(self).providers,
                self.platform@ == old(self).platform@,
                old(self).wf() ==> self.wf(),
                outcomes_view(out@) + approvals(policy, self.pending(), idv.skip(i as int)).0 == full.0,
                approvals(policy, self.pending(), idv.skip(i as int)).1 == full.1,
            decreases ids.len() - i,
        {
            let ghost rest = idv.skip(i as int);
            assert(rest[0] == ids@[i as int]@);
            assert(rest.drop_first() =~= idv.skip(i + 1));
            let ghost before = out@;
            let o = self.approve_pending_action(ids[i].as_str());
            out.push(o);
            assert(outcomes_view(out@) =~= outcomes_view(before).push(o@));
            assert(outcomes_view(before).push(o@) + approvals(policy, self.pending(), idv.skip(i + 1)).0
                =~= outcomes_view(before) + (seq![o@] + approvals(policy, self.pending(), idv.skip(i + 1)).0));
            i += 1;
        }
        assert(idv.skip(i as int) =~= Seq::<Seq<char>>::empty());
        assert(outcomes_view(out@) + Seq::<ApprovalOutcomeView>::empty() =~= outcomes_view(out@));
        out
    }

    /// Sums up the plans of a reply's steps: the actions that now wait, in
    /// order; whether any step ran or was refused (anything to report); and
    /// whether any was refused.
    pub fn summarize_plans(plans: &Vec<StepPlan>) -> (r: PlanSummary)
        ensures
            pending_view(r.pending@) == pendings_of_plans(plans_view(plans@)),
            r.auto_executed == exists|k: int| 0 <= k < plans@.len() && !(#[trigger] plans_view(plans@)[k] is Pending),
            r.anything_blocked == exists|k: int| 0 <= k < plans@.len() && #[trigger] plans_view(plans@)[k] is Blocked,
    {
        let ghost pv = plans_view(plans@);
        let mut pending: Vec<PendingAction> = Vec::new();
        let mut auto_executed = false;
        let mut anything_blocked = false;
        let mut i: usize = 0;
        while i < plans.len()
            invariant
                i <= plans.len(),
                pv == plans_view(plans@),
                pending_view(pending@) == pendings_of_plans(pv.take(i as int)),
                auto_executed == exists|k: int| 0 <= k < i && !(#[trigger] pv[k] is Pending),
                anything_blocked == exists|k: int| 0 <= k < i && #[trigger] pv[k] is Blocked,
            decreases plans.len() - i,
        {
            assert(pv.take(i + 1).drop_last() =~= pv.take(i as int));
            assert(pv.take(i + 1).last() == pv[i as int]);
            assert(pv[i as int] == plans@[i as int]@);
            match &plans[i] {
                StepPlan::Pending(p) => {
                    let ghost before = pending@;
                    pending.push(p.clone());
                    assert(pending_view(pending@) =~= pending_view(before).push(p@));
                },
                StepPlan::Blocked { .. } => {
                    auto_executed = true;
                    anything_blocked = true;
                },
                StepPlan::Execute { .. } => {
                    auto_executed = true;
                },
            }
            i += 1;
        }
        assert(pv.take(i as int) =~= pv);
        PlanSummary { pending, auto_executed, anything_blocked }
    }

    /// The policy's decision on `action` with `params`, asked for directly by `contact`.
    pub fn handle_action(&self, action: &str, params: ParamMap, contact: &str) -> (r: PolicyDecision)
        ensures
            r@ == self.policy.decision_for(contact@, category_of(action@), risk_of(action@)),
    {
        let mut reason = owned("Action requested by ");
        reason.append(contact);
        let (_proposal, decision) = self.policy.propose(action, params, contact, reason.as_str());
        decision
    }

    /// The step that undoes `action`: a volume change is undone by setting the
    /// volume back to 50, music that started by pausing it; nothing else.
    pub fn build_reverse(action: &str) -> (r: Option<ReverseAction>)
        ensures
            action@ == "set_volume"@ ==> (r matches Some(rev) && rev.action@ == "set_volume"@
                && rev.params@ == seq![("level"@, "50"@)]),
            action@ != "set_volume"@ && action@ == "play_music"@ ==> (r matches Some(rev)
                && rev.action@ == "pause_music"@ && rev.params@.len() == 0),
            action@ != "set_volume"@ && action@ != "play_music"@ ==> r is None,
    {
        if str_eq(action, "set_volume") {
            let mut params = ParamMap::new();
            params.insert(owned("level"), owned("50"));
            proof { crate::assoc::lemma_index_of_from(Seq::<Seq<char>>::empty(), "level"@, 0); }
            assert(crate::params::pair_keys(Seq::<(Seq<char>, Seq<char>)>::empty()) =~= Seq::<Seq<char>>::empty());
            assert(params@ =~= seq![("level"@, "50"@)]);
            Some(ReverseAction { action: owned("set_volume"), params })
        } else if str_eq(action, "play_music") {
            Some(ReverseAction { action: owned("pause_music"), params: ParamMap::new() })
        } else {
            None
        }
    }

    /// Registers the Mesh API provider with the given settings: the key is
    /// the first of the two given, else empty; the endpoint is the one given,
    /// else the public Mesh API; the upstream keys are the ones given, else
    /// empty; the model is `openai/gpt-4o`.
    pub fn register_default_providers(
        &mut self,
        mesh_api_key: Option<String>,
        meshai_api_key: Option<String>,
        endpoint: Option<String>,
        openai_key: Option<String>,
        anthropic_key: Option<String>,
        groq_key: Option<String>,
    )
        ensures
            old(self).providers.wf() ==> final(self).providers.wf(),
            final(self).providers.active == old(self).providers.active,
            final(self).providers.providers@.len() == old(self).providers.providers@.len() + 1,
            forall|j: int| 0 <= j < old(self).providers.providers@.len()
                ==> final(self).providers.providers@[j] == old(self).providers.providers@[j],
            ({
                let p = final(self).providers.providers@.last();
                &&& p.api_key@ == match mesh_api_key {
                    Some(k) => k@,
                    None => match meshai_api_key {
                        Some(k) => k@,
                        None => seq![],
                    },
                }
                &&& p.model@ == "openai/gpt-4o"@
                &&& p.endpoint@ == match endpoint {
                    Some(e) => e@,
                    None => "https://api.meshapi.ai/v1"@,
                }
                &&& p.openai_key@ == opt_view(openai_key).unwrap_or(seq![])
                &&& p.anthropic_key@ == opt_view(anthropic_key).unwrap_or(seq![])
                &&& p.groq_key@ == opt_view(groq_key).unwrap_or(seq![])
            }),
            final(self).policy == old(self).policy,
            final(self).pending() == old(self).pending(),
            final(self).action_counter == old(self).action_counter,
    {
        let api_key = match mesh_api_key {
            Some(k) => k,
            None => match meshai_api_key {
                Some(k) => k,
                None => String::new(),
            },
        };
        let endpoint = match endpoint {
            Some(e) => e,
            None => owned("https://api.meshapi.ai/v1"),
        };
        let openai_key = match openai_key {
            Some(k) => k,
            None => String::new(),
        };
        let anthropic_key = match anthropic_key {
            Some(k) => k,
            None => String::new(),
        };
        let groq_key = match groq_key {
            Some(k) => k,
            None => String::new(),
        };
        self.providers.register(MeshApiProvider {
            api_key,
            model: owned("openai/gpt-4o"),
            endpoint,
            openai_key,
            anthropic_key,
            groq_key,
        });
    }
}

// ---------------------------------------------------------------- laws

/// No two pending actions share an identifier, and none uses a number past `counter`.
pub open spec fn ids_fresh(ps: Seq<PendingActionView>, counter: nat) -> bool {
    &&& forall|i: int, j: int| 0 <= i < j < ps.len() ==> ps[i].id != ps[j].id
    &&& forall|i: int, k: nat| 0 <= i < ps.len() && k > counter ==> ps[i].id != pending_id(k)
}

/// Different numbers give different pending identifiers.
pub proof fn lemma_pending_id_injective(a: nat, b: nat)
    requires
        pending_id(a) == pending_id(b),
    ensures
        a == b,
{
    let p = "pa_"@;
    assert(pending_id(a).subrange(p.len() as int, pending_id(a).len() as int) =~= decimal(a));
    assert(pending_id(b).subrange(p.len() as int, pending_id(b).len() as int) =~= decimal(b));
    lemma_decimal_injective(a, b);
}

proof fn lemma_pendings_of_prepend(p: StepPlanView, rest: Seq<StepPlanView>)
    ensures
        pendings_of_plans(seq![p] + rest) == (match p {
            StepPlanView::Pending(q) => seq![q],
            _ => Seq::<PendingActionView>::empty(),
        }) + pendings_of_plans(rest),
    decreases rest.len(),
{
    let head = match p {
        StepPlanView::Pending(q) => seq![q],
        _ => Seq::<PendingActionView>::empty(),
    };
    let all = seq![p] + rest;
    if rest.len() == 0 {
        assert(all =~= seq![p]);
        assert(all.drop_last() =~= Seq::<StepPlanView>::empty());
        assert(all.last() == p);
        assert(pendings_of_plans(Seq::<StepPlanView>::empty()) == Seq::<PendingActionView>::empty());
        assert(head + Seq::<PendingActionView>::empty() =~= head);
        match p {
            StepPlanView::Pending(q) => {
                assert(Seq::<PendingActionView>::empty().push(q) =~= seq![q]);
            },
            _ => {},
        }
    } else {
        lemma_pendings_of_prepend(p, rest.drop_last());
        assert(all.drop_last() =~= seq![p] + rest.drop_last());
        assert(all.last() == rest.last());
        let prev = pendings_of_plans(rest.drop_last());
        match rest.last() {
            StepPlanView::Pending(r) => {
                assert((head + prev).push(r) =~= head + prev.push(r));
            },
            _ => {},
        }
    }
}

proof fn lemma_plan_keeps_ids_fresh(policy: PolicyEngine, steps: Seq<ActionStepView>, i: int, jid: Seq<char>, c: nat, ps: Seq<PendingActionView>)
    requires
        0 <= i,
        ids_fresh(ps, c),
    ensures
        ids_fresh(ps + pendings_of_plans(plan_from(policy, steps, i, jid, c)), c + pendings_of_plans(plan_from(policy, steps, i, jid, c)).len()),
    decreases steps.len() - i,
{
    if i >= steps.len() {
        assert(plan_from(policy, steps, i, jid, c) =~= Seq::<StepPlanView>::empty());
        assert(ps + Seq::<PendingActionView>::empty() =~= ps);
    } else {
        let p = plan_step(policy, steps[i], i, jid, c);
        let rest = plan_from(policy, steps, i + 1, jid, if p is Pending { c + 1 } else { c });
        lemma_pendings_of_prepend(p, rest);
        match p {
            StepPlanView::Pending(q) => {
                let ps2 = ps.push(q);
                assert forall|a: int, b: int| 0 <= a < b < ps2.len() implies ps2[a].id != ps2[b].id by {
                    if b == ps.len() {
                        assert(ps[a].id != pending_id(c + 1));
                    }
                }
                assert forall|a: int, k: nat| 0 <= a < ps2.len() && k > c + 1 implies ps2[a].id != pending_id(k) by {
                    if a == ps.len() {
                        if pending_id(c + 1) == pending_id(k) {
                            lemma_pending_id_injective(c + 1, k);
                        }
                    }
                }
                lemma_plan_keeps_ids_fresh(policy, steps, i + 1, jid, c + 1, ps2);
                assert(ps + (seq![q] + pendings_of_plans(rest)) =~= ps2 + pendings_of_plans(rest));
            },
            _ => {
                lemma_plan_keeps_ids_fresh(policy, steps, i + 1, jid, c, ps);
                assert(Seq::<PendingActionView>::empty() + pendings_of_plans(rest) =~= pendings_of_plans(rest));
            },
        }
    }
}

/// Planning the steps of a reply gives every new pending action an
/// identifier that no pending action has, and keeps the counter ahead of
/// every identifier.
pub proof fn law_plan_keeps_ids_fresh(policy: PolicyEngine, steps: Seq<ActionStepView>, jid: Seq<char>, counter: nat, ps: Seq<PendingActionView>)
    requires
        ids_fresh(ps, counter),
    ensures
        ({
            let added = pendings_of_plans(plan_from(policy, steps, 0, jid, counter));
            ids_fresh(ps + added, counter + added.len())
        }),
{
    lemma_plan_keeps_ids_fresh(policy, steps, 0, jid, counter, ps);
}

/// Taking a pending action out of the queue keeps the identifiers fresh.
pub proof fn law_remove_keeps_ids_fresh(ps: Seq<PendingActionView>, id: Seq<char>, counter: nat)
    requires
        ids_fresh(ps, counter),
    ensures
        ids_fresh(remove_pending_id(ps, id), counter),
{
    lemma_pending_index_from(ps, id, 0);
    if let Some(i) = pending_index(ps, id) {
        let r = ps.remove(i);
        assert forall|a: int, b: int| 0 <= a < b < r.len() implies r[a].id != r[b].id by {
            let a2 = if a < i { a } else { a + 1 };
            let b2 = if b < i { b } else { b + 1 };
            assert(r[a] == ps[a2] && r[b] == ps[b2]);
        }
        assert forall|a: int, k: nat| 0 <= a < r.len() && k > counter implies r[a].id != pending_id(k) by {
            let a2 = if a < i { a } else { a + 1 };
            assert(r[a] == ps[a2]);
        }
    }
}

/// Once a pending action is approved or rejected, no pending action with its
/// identifier is left, and every other pending action stays, in order.
pub proof fn law_removed_action_is_gone(ps: Seq<PendingActionView>, id: Seq<char>)
    requires
        forall|i: int, j: int| 0 <= i < j < ps.len() ==> ps[i].id != ps[j].id,
    ensures
        forall|k: int| 0 <= k < remove_pending_id(ps, id).len() ==> #[trigger] remove_pending_id(ps, id)[k].id != id,
        remove_pending_id(ps, id) == ps.filter(|p: PendingActionView| p.id != id),
{
    lemma_pending_index_from(ps, id, 0);
    let f = |p: PendingActionView| p.id != id;
    match pending_index(ps, id) {
        Some(i) => {
            let r = ps.remove(i);
            assert forall|k: int| 0 <= k < r.len() implies #[trigger] r[k].id != id by {
                let k2 = if k < i { k } else { k + 1 };
                assert(r[k] == ps[k2]);
                assert(k2 != i);
                if k2 < i {
                    assert(ps[k2].id != ps[i].id);
                } else {
                    assert(ps[i].id != ps[k2].id);
                }
            }
            lemma_filter_without(ps, id, i);
        },
        None => {
            lemma_filter_none(ps, id);
        },
    }
}

proof fn lemma_filter_none(ps: Seq<PendingActionView>, id: Seq<char>)
    requires
        forall|m: int| 0 <= m < ps.len() ==> ps[m].id != id,
    ensures
        ps.filter(|p: PendingActionView| p.id != id) == ps,
    decreases ps.len(),
{
    reveal(Seq::filter);
    if ps.len() > 0 {
        lemma_filter_none(ps.drop_last(), id);
        assert(ps.drop_last().push(ps.last()) =~= ps);
    } else {
        assert(ps.filter(|p: PendingActionView| p.id != id) =~= ps);
    }
}

proof fn lemma_filter_without(ps: Seq<PendingActionView>, id: Seq<char>, i: int)
    requires
        0 <= i < ps.len(),
        ps[i].id == id,
        forall|m: int| 0 <= m < ps.len() && m != i ==> ps[m].id != id,
    ensures
        ps.filter(|p: PendingActionView| p.id != id) == ps.remove(i),
    decreases ps.len(),
{
    reveal(Seq::filter);
    if i == ps.len() - 1 {
        assert(ps.remove(i) =~= ps.drop_last());
        lemma_filter_none(ps.drop_last(), id);
    } else {
        lemma_filter_without(ps.drop_last(), id, i);
        assert(ps.remove(i) =~= ps.drop_last().remove(i).push(ps.last()));
    }
}

proof fn lemma_plan_step_pending(policy: PolicyEngine, steps: Seq<ActionStepView>, i: int, jid: Seq<char>, c: nat)
    requires
        0 <= i,
    ensures
        forall|k: int| 0 <= k < pendings_of_plans(plan_from(policy, steps, i, jid, c)).len() ==> {
            let q = #[trigger] pendings_of_plans(plan_from(policy, steps, i, jid, c))[k];
            &&& q.contact_jid == jid
            &&& q.requires.len() > 0
            &&& policy.decision_for(jid, category_of(q.action), risk_of(q.action)).requires_verification == q.requires
            &&& !policy.decision_for(jid, category_of(q.action), risk_of(q.action)).allowed
        },
    decreases steps.len() - i,
{
    if i < steps.len() {
        let p = plan_step(policy, steps[i], i, jid, c);
        let c2 = if p is Pending { c + 1 } else { c };
        let rest = plan_from(policy, steps, i + 1, jid, c2);
        lemma_plan_step_pending(policy, steps, i + 1, jid, c2);
        lemma_pendings_of_prepend(p, rest);
    }
}

/// Every action that planning puts in the queue belongs to the contact who
/// asked, is one the policy would not run unverified, and carries the
/// checks the policy asks for.
pub proof fn law_planned_pending_needs_verification(policy: PolicyEngine, steps: Seq<ActionStepView>, jid: Seq<char>, counter: nat)
    ensures
        forall|k: int| 0 <= k < pendings_of_plans(plan_from(policy, steps, 0, jid, counter)).len() ==> {
            let q = #[trigger] pendings_of_plans(plan_from(policy, steps, 0, jid, counter))[k];
            &&& q.contact_jid == jid
            &&& q.requires.len() > 0
            &&& policy.decision_for(jid, category_of(q.action), risk_of(q.action)).requires_verification == q.requires
            &&& !policy.decision_for(jid, category_of(q.action), risk_of(q.action)).allowed
        },
{
    lemma_plan_step_pending(policy, steps, 0, jid, counter);
}

/// No two pending actions share an identifier.
pub open spec fn ids_distinct(ps: Seq<PendingActionView>) -> bool {
    forall|i: int, j: int| 0 <= i < j < ps.len() ==> ps[i].id != ps[j].id
}

proof fn lemma_remove_id_members(ps: Seq<PendingActionView>, a: Seq<char>)
    requires
        ids_distinct(ps),
    ensures
        ids_distinct(remove_pending_id(ps, a)),
        forall|x: PendingActionView| #[trigger] remove_pending_id(ps, a).contains(x) <==> (ps.contains(x) && x.id != a),
{
    lemma_pending_index_from(ps, a, 0);
    match pending_index(ps, a) {
        Some(i) => {
            let r = ps.remove(i);
            assert forall|p: int, q: int| 0 <= p < q < r.len() implies r[p].id != r[q].id by {
                let p2 = if p < i { p } else { p + 1 };
                let q2 = if q < i { q } else { q + 1 };
                assert(r[p] == ps[p2] && r[q] == ps[q2]);
            }
            assert forall|x: PendingActionView| #[trigger] r.contains(x) <==> (ps.contains(x) && x.id != a) by {
                if r.contains(x) {
                    let k = choose|k: int| 0 <= k < r.len() && r[k] == x;
                    let k2 = if k < i { k } else { k + 1 };
                    assert(ps[k2] == x);
                    assert(k2 != i);
                    if x.id == a {
                        if k2 < i {
                            assert(ps[k2].id != a);
                        } else {
                            assert(ps[i].id != ps[k2].id);
                        }
                    }
                }
                if ps.contains(x) && x.id != a {
                    let k = choose|k: int| 0 <= k < ps.len() && ps[k] == x;
                    assert(k != i);
                    if k < i {
                        assert(r[k] == x);
                    } else {
                        assert(r[k - 1] == x);
                    }
                }
            }
        },
        None => {
            assert forall|x: PendingActionView| #[trigger] ps.contains(x) implies x.id != a by {
                let k = choose|k: int| 0 <= k < ps.len() && ps[k] == x;
            }
        },
    }
}

proof fn lemma_remove_ids_members(ps: Seq<PendingActionView>, ids: Seq<Seq<char>>)
    requires
        ids_distinct(ps),
    ensures
        forall|x: PendingActionView| #[trigger] remove_pending_ids(ps, ids).contains(x) <==> (ps.contains(x) && !ids.contains(x.id)),
    decreases ids.len(),
{
    if ids.len() > 0 {
        let a = ids[0];
        let ps2 = remove_pending_id(ps, a);
        lemma_remove_id_members(ps, a);
        lemma_remove_ids_members(ps2, ids.drop_first());
        assert forall|x: PendingActionView| #[trigger] remove_pending_ids(ps, ids).contains(x) <==> (ps.contains(x) && !ids.contains(x.id)) by {
            assert(remove_pending_ids(ps, ids) == remove_pending_ids(ps2, ids.drop_first()));
            assert(ps2.contains(x) <==> (ps.contains(x) && x.id != a));
            if ids.contains(x.id) {
                let k = choose|k: int| 0 <= k < ids.len() && ids[k] == x.id;
                if k > 0 {
                    assert(ids.drop_first()[k - 1] == x.id);
                }
            }
            if ids.drop_first().contains(x.id) {
                let k = choose|k: int| 0 <= k < ids.drop_first().len() && ids.drop_first()[k] == x.id;
                assert(ids[k + 1] == x.id);
            }
        }
    } else {
        assert forall|x: PendingActionView| !(#[trigger] ids.contains(x.id)) by {}
    }
}

proof fn lemma_pending_of_members(ps: Seq<PendingActionView>, jid: Seq<char>)
    ensures
        forall|x: PendingActionView| #[trigger] pending_of(ps, jid).contains(x) <==> (ps.contains(x) && x.contact_jid == jid),
    decreases ps.len(),
{
    if ps.len() > 0 {
        lemma_pending_of_members(ps.drop_last(), jid);
        assert forall|x: PendingActionView| #[trigger] pending_of(ps, jid).contains(x) <==> (ps.contains(x) && x.contact_jid == jid) by {
            let prev = pending_of(ps.drop_last(), jid);
            if ps.contains(x) {
                let k = choose|k: int| 0 <= k < ps.len() && ps[k] == x;
                if k < ps.len() - 1 {
                    assert(ps.drop_last()[k] == x);
                    assert(ps.drop_last().contains(x));
                }
            }
            if ps.drop_last().contains(x) {
                let k = choose|k: int| 0 <= k < ps.drop_last().len() && ps.drop_last()[k] == x;
                assert(ps[k] == x);
            }
            if ps.last().contact_jid == jid {
                assert(pending_of(ps, jid) == prev.push(ps.last()));
                if prev.push(ps.last()).contains(x) {
                    let k = choose|k: int| 0 <= k < prev.push(ps.last()).len() && prev.push(ps.last())[k] == x;
                    if k < prev.len() {
                        assert(prev[k] == x);
                    }
                }
                if x == ps.last() {
                    assert(prev.push(ps.last())[prev.len() as int] == x);
                }
                if prev.contains(x) {
                    let k = choose|k: int| 0 <= k < prev.len() && prev[k] == x;
                    assert(prev.push(ps.last())[k] == x);
                }
            }
        }
    }
}

/// Rejecting all the pending actions of a contact, when no two pending
/// actions share an identifier, leaves none of that contact's actions and
/// every action of every other contact.
pub proof fn law_reject_all_for_contact(ps: Seq<PendingActionView>, jid: Seq<char>)
    requires
        ids_distinct(ps),
    ensures
        forall|x: PendingActionView| #[trigger] remove_pending_ids(ps, pending_ids(pending_of(ps, jid))).contains(x)
            <==> (ps.contains(x) && x.contact_jid != jid),
{
    let mine = pending_of(ps, jid);
    let ids = pending_ids(mine);
    lemma_pending_of_members(ps, jid);
    lemma_remove_ids_members(ps, ids);
    assert forall|x: PendingActionView| #[trigger] ps.contains(x) implies (ids.contains(x.id) <==> x.contact_jid == jid) by {
        if x.contact_jid == jid {
            assert(mine.contains(x));
            let k = choose|k: int| 0 <= k < mine.len() && mine[k] == x;
            assert(ids[k] == x.id);
        }
        if ids.contains(x.id) {
            let k = choose|k: int| 0 <= k < ids.len() && ids[k] == x.id;
            let y = mine[k];
            assert(mine.contains(y));
            assert(ps.contains(y) && y.contact_jid == jid);
            let a = choose|a: int| 0 <= a < ps.len() && ps[a] == x;
            let b = choose|b: int| 0 <= b < ps.len() && ps[b] == y;
            if a != b {
                if a < b {
                    assert(ps[a].id != ps[b].id);
                } else {
                    assert(ps[b].id != ps[a].id);
                }
            }
        }
    }
}

proof fn lemma_plan_ids_above(policy: PolicyEngine, steps: Seq<ActionStepView>, i: int, jid: Seq<char>, c: nat)
    requires
        0 <= i,
    ensures
        forall|k: int, m: nat| 0 <= k < pendings_of_plans(plan_from(policy, steps, i, jid, c)).len() && m <= c
            ==> #[trigger] pendings_of_plans(plan_from(policy, steps, i, jid, c))[k].id != #[trigger] pending_id(m),
    decreases steps.len() - i,
{
    if 0 <= i < steps.len() {
        let p = plan_step(policy, steps[i], i, jid, c);
        let c2 = if p is Pending { c + 1 } else { c };
        let rest = plan_from(policy, steps, i + 1, jid, c2);
        lemma_plan_ids_above(policy, steps, i + 1, jid, c2);
        lemma_pendings_of_prepend(p, rest);
        let all = pendings_of_plans(plan_from(policy, steps, i, jid, c));
        assert(plan_from(policy, steps, i, jid, c) == seq![p] + rest);
        assert forall|k: int, m: nat| 0 <= k < all.len() && m <= c implies #[trigger] all[k].id != #[trigger] pending_id(m) by {
            match p {
                StepPlanView::Pending(q) => {
                    if k == 0 {
                        assert(all[0] == q);
                        if q.id == pending_id(m) {
                            lemma_pending_id_injective(c + 1, m);
                        }
                    } else {
                        assert(all[k] == pendings_of_plans(rest)[k - 1]);
                    }
                },
                _ => {
                    assert(all[k] == pendings_of_plans(rest)[k]);
                },
            }
        }
    }
}

/// Every action that planning puts in the queue gets an identifier that the
/// orchestrator never gave out before: `pa_1` to `pa_<counter>` are taken
/// by earlier actions, and the new ones come after.
pub proof fn law_planned_ids_are_new(policy: PolicyEngine, steps: Seq<ActionStepView>, jid: Seq<char>, counter: nat)
    ensures
        forall|k: int, m: nat| 0 <= k < pendings_of_plans(plan_from(policy, steps, 0, jid, counter)).len() && m <= counter
            ==> #[trigger] pendings_of_plans(plan_from(policy, steps, 0, jid, counter))[k].id != #[trigger] pending_id(m),
{
    lemma_plan_ids_above(policy, steps, 0, jid, counter);
}

proof fn lemma_untrusted_plans_blocked(policy: PolicyEngine, steps: Seq<ActionStepView>, i: int, jid: Seq<char>, c: nat)
    requires
        0 <= i,
        policy.mode_of(jid) != ContactMode::Assistant,
    ensures
        forall|k: int| 0 <= k < plan_from(policy, steps, i, jid, c).len() ==> #[trigger] plan_from(policy, steps, i, jid, c)[k] is Blocked,
        pendings_of_plans(plan_from(policy, steps, i, jid, c)).len() == 0,
    decreases steps.len() - i,
{
    if 0 <= i < steps.len() {
        let p = plan_step(policy, steps[i], i, jid, c);
        assert(p is Blocked);
        let rest = plan_from(policy, steps, i + 1, jid, c);
        lemma_untrusted_plans_blocked(policy, steps, i + 1, jid, c);
        lemma_pendings_of_prepend(p, rest);
        let all = plan_from(policy, steps, i, jid, c);
        assert(all == seq![p] + rest);
        assert forall|k: int| 0 <= k < all.len() implies #[trigger] all[k] is Blocked by {
            if k > 0 {
                assert(all[k] == rest[k - 1]);
            }
        }
        assert(Seq::<PendingActionView>::empty() + pendings_of_plans(rest) =~= pendings_of_plans(rest));
    }
}

/// A contact that is not in assistant mode gets every step of a reply
/// refused: nothing runs and nothing joins the queue.
pub proof fn law_other_modes_plan_nothing(policy: PolicyEngine, steps: Seq<ActionStepView>, jid: Seq<char>, counter: nat)
    requires
        policy.mode_of(jid) != ContactMode::Assistant,
    ensures
        forall|k: int| 0 <= k < plan_from(policy, steps, 0, jid, counter).len() ==> #[trigger] plan_from(policy, steps, 0, jid, counter)[k] is Blocked,
        pendings_of_plans(plan_from(policy, steps, 0, jid, counter)).len() == 0,
{
    lemma_untrusted_plans_blocked(policy, steps, 0, jid, counter);
}

/// What a message from `jid` leaves in the queue of a well-formed
/// orchestrator `o` once the steps of the model's reply are planned (the
/// queue `plan_action_steps` leaves is the old one followed by `added`): the
/// actions that were pending stay, in order, at the front; each added action
/// is `jid`'s, asks for at least one check, and has an identifier that `o`
/// never gave out and that no other pending action has; and a contact that is
/// not in assistant mode adds nothing and has nothing run.
pub proof fn law_message_appends_fresh_pending(o: WhatszaraOrchestrator, steps: Seq<ActionStepView>, jid: Seq<char>)
    requires
        o.wf(),
    ensures
        ({
            let plans = plan_from(o.policy, steps, 0, jid, o.action_counter as nat);
            let added = pendings_of_plans(plans);
            let after = o.pending() + added;
            &&& after.take(o.pending().len() as int) == o.pending()
            &&& forall|k: int| 0 <= k < added.len() ==> (#[trigger] added[k]).contact_jid == jid && added[k].requires.len() > 0
            &&& forall|k: int, m: nat| 0 <= k < added.len() && m <= o.action_counter
                ==> #[trigger] added[k].id != #[trigger] pending_id(m)
            &&& forall|j: int, k: int| 0 <= j < o.pending().len() && 0 <= k < added.len()
                ==> #[trigger] o.pending()[j].id != #[trigger] added[k].id
            &&& ids_fresh(after, (o.action_counter + added.len()) as nat)
            &&& o.policy.mode_of(jid) != ContactMode::Assistant ==> added.len() == 0
                && forall|k: int| 0 <= k < plans.len() ==> #[trigger] plans[k] is Blocked
        }),
{
    let c = o.action_counter as nat;
    let plans = plan_from(o.policy, steps, 0, jid, c);
    let added = pendings_of_plans(plans);
    let ps = o.pending();
    let after = ps + added;
    assert(after.take(ps.len() as int) =~= ps);
    law_planned_pending_needs_verification(o.policy, steps, jid, c);
    assert forall|k: int| 0 <= k < added.len() implies (#[trigger] added[k]).contact_jid == jid && added[k].requires.len() > 0 by {
        let q = added[k];
        assert(q == pendings_of_plans(plan_from(o.policy, steps, 0, jid, c))[k]);
    }
    law_planned_ids_are_new(o.policy, steps, jid, c);
    law_plan_keeps_ids_fresh(o.policy, steps, jid, c, ps);
    assert forall|j: int, k: int| 0 <= j < ps.len() && 0 <= k < added.len() implies #[trigger] ps[j].id != #[trigger] added[k].id by {
        assert(after[j] == ps[j]);
        assert(after[ps.len() + k] == added[k]);
    }
    if o.policy.mode_of(jid) != ContactMode::Assistant {
        law_other_modes_plan_nothing(o.policy, steps, jid, c);
    }
}

proof fn lemma_bare_word(l: Seq<char>)
    requires
        forall|j: int| 0 <= j < l.len() ==> 'a' <= #[trigger] l[j] <= 'z',
    ensures
        reply_id(l).len() == 0,
{
    lemma_single_word(l);
}

/// A bare "allow", "approve" or "yes" from a contact with pending actions
/// approves the first of them, and a bare "deny", "reject" or "no" denies
/// it; a contact with nothing pending gets no decision from any reply.
pub proof fn law_bare_replies_decide_first(ps: Seq<PendingActionView>, l: Seq<char>, jid: Seq<char>)
    ensures
        pending_of(ps, jid).len() == 0 ==> reply_decision(ps, l, jid) is None,
        pending_of(ps, jid).len() > 0 && (l == "allow"@ || l == "approve"@ || l == "yes"@)
            ==> reply_decision(ps, l, jid) == Some((pending_of(ps, jid)[0].id, true, pending_of(ps, jid)[0])),
        pending_of(ps, jid).len() > 0 && (l == "deny"@ || l == "reject"@ || l == "no"@)
            ==> reply_decision(ps, l, jid) == Some((pending_of(ps, jid)[0].id, false, pending_of(ps, jid)[0])),
{
    reveal_strlit("allow");
    reveal_strlit("approve");
    reveal_strlit("yes");
    reveal_strlit("deny");
    reveal_strlit("reject");
    reveal_strlit("no");
    reveal_strlit("all");
    reveal_strlit("allow ");
    reveal_strlit("approve ");
    if l == "allow"@ || l == "approve"@ || l == "yes"@ || l == "deny"@ || l == "reject"@ || l == "no"@ {
        lemma_bare_word(l);
        assert(reply_id(l) != "all"@);
    }
    if l == "deny"@ || l == "reject"@ || l == "no"@ {
        assert(l != "allow"@ && l != "approve"@ && l != "yes"@) by {
            assert(l[0] != 'a' && l[0] != 'y');
        }
        assert(!starts_with_seq(l, "allow "@)) by {
            if l.len() >= 6 {
                assert(l[0] != "allow "@[0]);
            }
        }
        assert(!starts_with_seq(l, "approve "@));
    }
}

/// Each of the set phrases asks for the pending actions, and so does any
/// message that names them ("show pending", "list actions", "what's
/// pending" and the like): the contact gets the list of its pending
/// actions, or word that there are none.
pub proof fn law_set_phrases_list_pending(ps: Seq<PendingActionView>, l: Seq<char>, jid: Seq<char>)
    requires
        l == "show"@ || l == "list"@ || l == "json"@ || l == "commands"@ || l == "pending"@
            || l == "show pending"@ || l == "show json"@ || l == "show commands"@ || l == "show actions"@
            || l == "list pending"@ || l == "list commands"@ || l == "list actions"@ || l == "pending actions"@
            || l == "pending commands"@ || l == "what's pending"@ || l == "what is pending"@ || l == "what pending"@
            || contains_seq(l, "show pending"@) || contains_seq(l, "show json"@) || contains_seq(l, "show command"@)
            || contains_seq(l, "show action"@) || contains_seq(l, "list pending"@) || contains_seq(l, "list command"@)
            || contains_seq(l, "list action"@) || contains_seq(l, "pending action"@) || contains_seq(l, "pending command"@)
            || contains_seq(l, "what pending"@) || contains_seq(l, "what's pending"@) || contains_seq(l, "what is pending"@),
    ensures
        pending_of(ps, jid).len() == 0 ==> query_reply(ps, l, jid)
            == Some("No pending actions. Send a command and if the AI requests a high-risk action, it will appear here for approval."@),
        pending_of(ps, jid).len() > 0 ==> query_reply(ps, l, jid) == Some(pending_list_text(pending_of(ps, jid))),
{
}

/// A high-risk action is never run on approval unless its contact has
/// answered a captcha for that very action rightly.
pub proof fn law_high_risk_runs_only_after_captcha(policy: PolicyEngine, p: PendingActionView)
    requires
        risk_of(p.action) == RiskLevel::High,
    ensures
        approval_of_pending(policy, p) is Run ==> has_verified_captcha(policy.challenges(), p.id, p.contact_jid),
{
    let d = policy.decision_for(p.contact_jid, category_of(p.action), risk_of(p.action));
    assert(required_checks(RiskLevel::High)[0] == "image_captcha"@);
    if d.requires_verification.len() > 0 {
        assert(d.requires_verification == required_checks(RiskLevel::High));
        assert(d.requires_verification.contains("image_captcha"@));
    }
}

/// A list with one action to approve reads as the request for that action.
pub proof fn law_single_batch_request(p: PendingActionView)
    ensures
        batch_request_text(seq![p]) == approval_request_text(p),
{
}

} // verus!
