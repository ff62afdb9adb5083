use vstd::prelude::*;
use vstd::string::*;
use crate::text::{owned, str_eq};
use crate::json::{json_parse, parse_json, JsonNode, JsonNodeView};
use crate::reply::{member, member_text, opt_view, parse_str, str_member, str_member_exec, str_value};

verus! {

/// One message of a conversation with a language model.
#[derive(Debug)]
pub struct LLMMessage {
    pub role: String,
    pub content: String,
}

/// A model's reply.
#[derive(Debug)]
pub struct LLMResponse {
    pub content: String,
    pub model: String,
    pub provider: String,
}

impl Clone for LLMMessage {
    fn clone(&self) -> (r: Self)
        ensures
            r.role@ == self.role@,
            r.content@ == self.content@,
    {
        LLMMessage { role: self.role.clone(), content: self.content.clone() }
    }
}

/// A source of language-model replies, as the registry sees it: a name, a
/// current model that can be changed, and settings that leave both alone.
/// Talking to the model happens outside this library.
pub trait LLMProvider {
    /// The provider's name.
    spec fn provider_name(&self) -> Seq<char>;

    /// The model currently in use.
    spec fn model_in_use(&self) -> Seq<char>;

    /// The provider's name.
    fn name(&self) -> (r: &str)
        ensures
            r@ == self.provider_name(),
    ;

    /// The model to use when none was chosen.
    fn default_model(&self) -> &str;

    /// Chooses the model to use.
    fn set_model(&mut self, model: &str)
        ensures
            final(self).model_in_use() == model@,
            final(self).provider_name() == old(self).provider_name(),
    ;

    /// The model currently in use.
    fn current_model(&self) -> (r: &str)
        ensures
            r@ == self.model_in_use(),
    ;

    /// Changes the address the provider talks to; by default nothing happens.
    fn set_endpoint(&mut self, endpoint: &str)
        ensures
            final(self).model_in_use() == old(self).model_in_use(),
            final(self).provider_name() == old(self).provider_name(),
    {
    }

    /// Changes the key the provider authenticates with; by default nothing happens.
    fn set_api_key(&mut self, key: &str)
        ensures
            final(self).model_in_use() == old(self).model_in_use(),
            final(self).provider_name() == old(self).provider_name(),
    {
    }
}

/// The Mesh API router: one OpenAI-compatible endpoint in front of many
/// models, with optional keys for the upstream providers.
#[derive(Debug)]
pub struct MeshApiProvider {
    pub api_key: String,
    pub model: String,
    pub endpoint: String,
    pub openai_key: String,
    pub anthropic_key: String,
    pub groq_key: String,
}

/// The model that the Mesh API provider uses when none was chosen.
pub open spec fn mesh_default_model() -> Seq<char> {
    "openai/gpt-4o"@
}

impl LLMProvider for MeshApiProvider {
    open spec fn provider_name(&self) -> Seq<char> {
        "mesh-api"@
    }

    open spec fn model_in_use(&self) -> Seq<char> {
        self.model@
    }

    fn name(&self) -> (r: &str) {
        "mesh-api"
    }

    fn default_model(&self) -> (r: &str)
        ensures
            r@ == if self.model@.len() == 0 { mesh_default_model() } else { self.model@ },
    {
        if self.model.as_str().is_empty() {
            "openai/gpt-4o"
        } else {
            self.model.as_str()
        }
    }

    fn set_model(&mut self, model: &str)
        ensures
            final(self).api_key == old(self).api_key,
            final(self).endpoint == old(self).endpoint,
            final(self).openai_key == old(self).openai_key,
            final(self).anthropic_key == old(self).anthropic_key,
            final(self).groq_key == old(self).groq_key,
    {
        self.model = owned(model);
    }

    fn current_model(&self) -> (r: &str) {
        self.model.as_str()
    }

    fn set_endpoint(&mut self, endpoint: &str)
        ensures
            final(self).endpoint@ == endpoint@,
            final(self).api_key == old(self).api_key,
            final(self).model == old(self).model,
            final(self).openai_key == old(self).openai_key,
            final(self).anthropic_key == old(self).anthropic_key,
            final(self).groq_key == old(self).groq_key,
    {
        self.endpoint = owned(endpoint);
    }

    fn set_api_key(&mut self, key: &str)
        ensures
            final(self).api_key@ == key@,
            final(self).endpoint == old(self).endpoint,
            final(self).model == old(self).model,
            final(self).openai_key == old(self).openai_key,
            final(self).anthropic_key == old(self).anthropic_key,
            final(self).groq_key == old(self).groq_key,
    {
        self.api_key = owned(key);
    }
}

/// The error for a provider name that no registered provider has.
pub open spec fn not_found_error(name: Seq<char>) -> Seq<char> {
    "Provider '"@ + name + "' not found"@
}

fn not_found(name: &str) -> (r: String)
    ensures
        r@ == not_found_error(name@),
{
    let mut r = owned("Provider '");
    r.append(name);
    r.append("' not found");
    r
}

/// The first index at or after `i` of a provider named `name`.
pub open spec fn provider_index_from<P: LLMProvider>(ps: Seq<P>, name: Seq<char>, i: int) -> Option<int>
    decreases ps.len() - i,
{
    if i < 0 || i >= ps.len() {
        None
    } else if ps[i].provider_name() == name {
        Some(i)
    } else {
        provider_index_from(ps, name, i + 1)
    }
}

/// The first index of a provider named `name`.
pub open spec fn provider_index<P: LLMProvider>(ps: Seq<P>, name: Seq<char>) -> Option<int> {
    provider_index_from(ps, name, 0)
}

pub proof fn lemma_provider_index_from<P: LLMProvider>(ps: Seq<P>, name: Seq<char>, i: int)
    requires
        0 <= i,
    ensures
        provider_index_from(ps, name, i) matches Some(j) ==> i <= j < ps.len() && ps[j].provider_name() == name,
        provider_index_from(ps, name, i) is None ==> forall|m: int| i <= m < ps.len() ==> ps[m].provider_name() != name,
    decreases ps.len() - i,
{
    if i < ps.len() && ps[i].provider_name() != name {
        lemma_provider_index_from(ps, name, i + 1);
    }
}

/// The providers that replies can come from, and the one in use.
pub struct ProviderRegistry<P: LLMProvider> {
    pub providers: Vec<P>,
    pub active: usize,
}

impl<P: LLMProvider> ProviderRegistry<P> {
    /// The active index names a provider, unless there is none.
    pub open spec fn wf(&self) -> bool {
        self.active < self.providers.len() || (self.providers.len() == 0 && self.active == 0)
    }

    /// The providers' names, in order.
    pub open spec fn names(&self) -> Seq<Seq<char>> {
        self.providers@.map_values(|p: P| p.provider_name())
    }

    /// An empty registry.
    pub fn new() -> (r: Self)
        ensures
            r.wf(),
            r.providers@.len() == 0,
            r.active == 0,
    {
        ProviderRegistry { providers: Vec::new(), active: 0 }
    }

    /// Adds a provider at the end; the active one stays the same.
    pub fn register(&mut self, provider: P)
        ensures
            old(self).wf() ==> final(self).wf(),
            final(self).providers@ == old(self).providers@.push(provider),
            final(self).active == old(self).active,
    {
        self.providers.push(provider);
    }

    /// The provider in use.
    pub fn active_provider(&self) -> (r: &P)
        requires
            self.wf(),
            self.providers.len() > 0,
        ensures
            *r == self.providers@[self.active as int],
    {
        &self.providers[self.active]
    }

    fn find_provider(&self, name: &str) -> (r: Option<usize>)
        ensures
            r matches Some(i) ==> provider_index(self.providers@, name@) == Some(i as int),
            r is None ==> provider_index(self.providers@, name@) is None,
    {
        let mut i: usize = 0;
        while i < self.providers.len()
            invariant
                i <= self.providers.len(),
                provider_index(self.providers@, name@) == provider_index_from(self.providers@, name@, i as int),
            decreases self.providers.len() - i,
        {
            if str_eq(self.providers[i].name(), name) {
                return Some(i);
            }
            i += 1;
        }
        None
    }

    /// Makes the first provider named `name` the one in use; an error names
    /// the provider when there is none of that name.
    pub fn set_active(&mut self, name: &str) -> (r: Result<(), String>)
        ensures
            old(self).wf() || r is Ok ==> final(self).wf(),
            final(self).providers@ == old(self).providers@,
            match provider_index(old(self).providers@, name@) {
                Some(i) => r is Ok && final(self).active == i,
                None => r matches Err(e) && e@ == not_found_error(name@) && final(self).active == old(self).active,
            },
    {
        proof { lemma_provider_index_from(self.providers@, name@, 0); }
        match self.find_provider(name) {
            Some(i) => {
                self.active = i;
                Ok(())
            },
            None => Err(not_found(name)),
        }
    }

    /// The providers' names, in order.
    pub fn list_names(&self) -> (r: Vec<String>)
        ensures
            r@.map_values(|s: String| s@) == self.names(),
    {
        let mut out: Vec<String> = Vec::new();
        let mut i: usize = 0;
        while i < self.providers.len()
            invariant
                i <= self.providers.len(),
                out@.map_values(|s: String| s@) == self.names().take(i as int),
            decreases self.providers.len() - i,
        {
            let n = owned(self.providers[i].name());
            let ghost before = out@;
            out.push(n);
            assert(out@.map_values(|s: String| s@) =~= before.map_values(|s: String| s@).push(self.names()[i as int]));
            assert(self.names().take(i + 1) =~= self.names().take(i as int).push(self.names()[i as int]));
            i += 1;
        }
        assert(self.names().take(i as int) =~= self.names());
        out
    }

    /// Chooses `model` for the first provider named `provider`; an error names
    /// the provider when there is none of that name.
    pub fn set_model(&mut self, provider: &str, model: &str) -> (r: Result<(), String>)
        ensures
            old(self).wf() ==> final(self).wf(),
            final(self).active == old(self).active,
            final(self).providers@.len() == old(self).providers@.len(),
            match provider_index(old(self).providers@, provider@) {
                Some(i) => {
                    &&& r is Ok
                    &&& final(self).providers@[i].model_in_use() == model@
                    &&& final(self).providers@[i].provider_name() == provider@
                    &&& forall|j: int| 0 <= j < old(self).providers@.len() && j != i
                        ==> final(self).providers@[j] == old(self).providers@[j]
                },
                None => r matches Err(e) && e@ == not_found_error(provider@)
                    && final(self).providers@ == old(self).providers@,
            },
    {
        proof { lemma_provider_index_from(self.providers@, provider@, 0); }
        match self.find_provider(provider) {
            Some(i) => {
                let mut p = self.providers.remove(i);
                p.set_model(model);
                self.providers.insert(i, p);
                Ok(())
            },
            None => Err(not_found(provider)),
        }
    }

    /// The provider a chat goes to: the one in use, or an error when no
    /// provider is registered.
    pub fn chat_provider(&self) -> (r: Result<&P, String>)
        requires
            self.providers.len() == 0 || self.active < self.providers.len(),
        ensures
            self.providers.len() == 0 ==> (r matches Err(e) && e@ == "No LLM providers configured"@),
            self.providers.len() > 0 ==> (r matches Ok(p) && *p == self.providers@[self.active as int]),
    {
        if self.providers.len() == 0 {
            return Err(owned("No LLM providers configured"));
        }
        Ok(self.active_provider())
    }
}

/// The model a provider is reported with: its current model, or when it has
/// none, the first model it lists, or else the empty current model.
pub open spec fn effective_model_of(current: Seq<char>, models: Seq<Seq<char>>) -> Seq<char> {
    if current.len() == 0 && models.len() > 0 {
        models[0]
    } else {
        current
    }
}

/// The model a provider is reported with in a listing.
pub fn effective_model(current: &str, models: &Vec<String>) -> (r: String)
    ensures
        r@ == effective_model_of(current@, models@.map_values(|s: String| s@)),
{
    if current.is_empty() && models.len() > 0 {
        models[0].clone()
    } else {
        owned(current)
    }
}

// ---------------------------------------------------------------- talking to the Mesh API

/// A conversation as `(role, content)` pairs.
pub open spec fn conversation(v: Seq<LLMMessage>) -> Seq<(Seq<char>, Seq<char>)> {
    v.map_values(|m: LLMMessage| (m.role@, m.content@))
}

/// The JSON text of member `key` of the value that `t` holds.
pub open spec fn json_at(t: Option<Seq<char>>, key: Seq<char>) -> Option<Seq<char>> {
    match t {
        Some(t) => match json_parse(t) {
            Some(n) => member(n, key),
            None => None,
        },
        None => None,
    }
}

/// The JSON text of the first element of the array that `t` holds.
pub open spec fn json_first(t: Option<Seq<char>>) -> Option<Seq<char>> {
    match t {
        Some(t) => match json_parse(t) {
            Some(JsonNodeView::Array(items)) => if items.len() > 0 { Some(items[0]) } else { None },
            _ => None,
        },
        None => None,
    }
}

/// The text of a chat completion: `choices[0].message.content` when it is a
/// string, else empty.
pub open spec fn completion_text(data: JsonNodeView) -> Seq<char> {
    match json_at(json_at(json_first(member(data, "choices"@)), "message"@), "content"@) {
        Some(t) => match str_value(t) {
            Some(c) => c,
            None => seq![],
        },
        None => seq![],
    }
}

/// The identifiers of the models listed in the elements `items`, leaving
/// out elements without a string `id`.
pub open spec fn model_ids(items: Seq<Seq<char>>) -> Seq<Seq<char>>
    decreases items.len(),
{
    if items.len() == 0 {
        seq![]
    } else {
        let prev = model_ids(items.drop_last());
        match json_parse(items.last()) {
            Some(n) => match str_member(n, "id"@) {
                Some(id) => prev.push(id),
                None => prev,
            },
            None => prev,
        }
    }
}

/// The models that a model listing names: the `id` of each element of its `data` array.
pub open spec fn listed_models(data: JsonNodeView) -> Seq<Seq<char>> {
    match member(data, "data"@) {
        Some(t) => match json_parse(t) {
            Some(JsonNodeView::Array(items)) => model_ids(items),
            _ => seq![],
        },
        None => seq![],
    }
}

fn member_of_text(t: &Option<String>, key: &str) -> (r: Option<String>)
    ensures
        opt_view(r) == json_at(opt_view(*t), key@),
{
    match t {
        Some(text) => match parse_json(text.as_str()) {
            Some(n) => member_text(&n, key),
            None => None,
        },
        None => None,
    }
}

fn first_of_text(t: &Option<String>) -> (r: Option<String>)
    ensures
        opt_view(r) == json_first(opt_view(*t)),
{
    match t {
        Some(text) => match parse_json(text.as_str()) {
            Some(JsonNode::Array(items)) => if items.len() > 0 { Some(items[0].clone()) } else { None },
            _ => None,
        },
        None => None,
    }
}

impl MeshApiProvider {
    /// The messages sent for a chat: the system prompt first, when there is
    /// one, then the conversation.
    pub fn chat_messages(messages: &Vec<LLMMessage>, system_prompt: Option<&str>) -> (r: Vec<LLMMessage>)
        ensures
            conversation(r@) == match system_prompt {
                Some(sp) => seq![("system"@, sp@)] + conversation(messages@),
                None => conversation(messages@),
            },
    {
        let mut out: Vec<LLMMessage> = Vec::new();
        if let Some(sp) = system_prompt {
            out.push(LLMMessage { role: owned("system"), content: owned(sp) });
        }
        let ghost start = conversation(out@);
        let mut i: usize = 0;
        while i < messages.len()
            invariant
                i <= messages.len(),
                conversation(out@) == start + conversation(messages@).take(i as int),
            decreases messages.len() - i,
        {
            let ghost before = out@;
            out.push(messages[i].clone());
            assert(conversation(out@) =~= conversation(before).push(conversation(messages@)[i as int]));
            assert(conversation(messages@).take(i + 1) =~= conversation(messages@).take(i as int).push(conversation(messages@)[i as int]));
            i += 1;
        }
        assert(conversation(messages@).take(i as int) =~= conversation(messages@));
        proof {
            if let Some(sp) = system_prompt {
                assert(start =~= seq![("system"@, sp@)]);
            } else {
                assert(start =~= Seq::<(Seq<char>, Seq<char>)>::empty());
            }
        }
        out
    }

    /// The headers of a request: the bearer key, then each upstream key that is set.
    pub fn request_headers(&self) -> (r: Vec<(String, String)>)
        ensures
            crate::params::pair_views(r@) == seq![("Authorization"@, "Bearer "@ + self.api_key@)]
                + (if self.openai_key@.len() > 0 { seq![("x-mesh-openai-key"@, self.openai_key@)] } else { seq![] })
                + (if self.anthropic_key@.len() > 0 { seq![("x-mesh-anthropic-key"@, self.anthropic_key@)] } else { seq![] })
                + (if self.groq_key@.len() > 0 { seq![("x-mesh-groq-key"@, self.groq_key@)] } else { seq![] }),
    {
        let mut out: Vec<(String, String)> = Vec::new();
        let mut auth = owned("Bearer ");
        auth.append(self.api_key.as_str());
        out.push((owned("Authorization"), auth));
        let ghost a = crate::params::pair_views(out@);
        if !self.openai_key.as_str().is_empty() {
            out.push((owned("x-mesh-openai-key"), self.openai_key.clone()));
        }
        let ghost b = crate::params::pair_views(out@);
        if !self.anthropic_key.as_str().is_empty() {
            out.push((owned("x-mesh-anthropic-key"), self.anthropic_key.clone()));
        }
        let ghost c = crate::params::pair_views(out@);
        if !self.groq_key.as_str().is_empty() {
            out.push((owned("x-mesh-groq-key"), self.groq_key.clone()));
        }
        assert(crate::params::pair_views(out@) =~= seq![("Authorization"@, "Bearer "@ + self.api_key@)]
                + (if self.openai_key@.len() > 0 { seq![("x-mesh-openai-key"@, self.openai_key@)] } else { seq![] })
                + (if self.anthropic_key@.len() > 0 { seq![("x-mesh-anthropic-key"@, self.anthropic_key@)] } else { seq![] })
                + (if self.groq_key@.len() > 0 { seq![("x-mesh-groq-key"@, self.groq_key@)] } else { seq![] }));
        out
    }

    /// The address of chat completions.
    pub fn chat_url(&self) -> (r: String)
        ensures
            r@ == self.endpoint@ + "/chat/completions"@,
    {
        let mut s = self.endpoint.clone();
        s.append("/chat/completions");
        s
    }

    /// The address of the model listing.
    pub fn models_url(&self) -> (r: String)
        ensures
            r@ == self.endpoint@ + "/models"@,
    {
        let mut s = self.endpoint.clone();
        s.append("/models");
        s
    }

    /// The reply read from a chat completion: its text, the model it names
    /// (else the provider's model), and this provider's name.
    pub fn read_chat_reply(&self, data: &JsonNode) -> (r: LLMResponse)
        ensures
            r.content@ == completion_text(data@),
            r.model@ == match str_member(data@, "model"@) {
                Some(m) => m,
                None => self.model@,
            },
            r.provider@ == "mesh-api"@,
    {
        let choices = member_text(data, "choices");
        let first = first_of_text(&choices);
        let message = member_of_text(&first, "message");
        let content_text = member_of_text(&message, "content");
        let content = match content_text {
            Some(t) => match parse_str(t.as_str()) {
                Some(c) => c,
                None => String::new(),
            },
            None => String::new(),
        };
        let model = match str_member_exec(data, "model") {
            Some(m) => m,
            None => self.model.clone(),
        };
        LLMResponse { content, model, provider: owned("mesh-api") }
    }

    /// The reply read from the body of a chat completion response; `None`
    /// when the body is not JSON.
    pub fn parse_chat_reply(&self, body: &str) -> (r: Option<LLMResponse>)
        ensures
            json_parse(body@) is None ==> r is None,
            json_parse(body@) matches Some(d) ==> (r matches Some(x) && x.content@ == completion_text(d)
                && x.model@ == match str_member(d, "model"@) {
                    Some(m) => m,
                    None => self.model@,
                }
                && x.provider@ == "mesh-api"@),
    {
        match parse_json(body) {
            Some(data) => Some(self.read_chat_reply(&data)),
            None => None,
        }
    }

    /// The models named by the body of a model listing response; `None`
    /// when the body is not JSON.
    pub fn parse_model_list(body: &str) -> (r: Option<Vec<String>>)
        ensures
            json_parse(body@) is None ==> r is None,
            json_parse(body@) matches Some(d) ==> (r matches Some(v) && v@.map_values(|s: String| s@) == listed_models(d)),
    {
        match parse_json(body) {
            Some(data) => Some(MeshApiProvider::read_model_list(&data)),
            None => None,
        }
    }

    /// The models that a model listing names.
    pub fn read_model_list(data: &JsonNode) -> (r: Vec<String>)
        ensures
            r@.map_values(|s: String| s@) == listed_models(data@),
    {
        let mut out: Vec<String> = Vec::new();
        if let Some(t) = member_text(data, "data") {
            if let Some(JsonNode::Array(items)) = parse_json(t.as_str()) {
                let ghost iv = items@.map_values(|e: String| e@);
                let mut i: usize = 0;
                while i < items.len()
                    invariant
                        i <= items.len(),
                        iv == items@.map_values(|e: String| e@),
                        out@.map_values(|s: String| s@) == model_ids(iv.take(i as int)),
                    decreases items.len() - i,
                {
                    assert(iv.take(i + 1).drop_last() =~= iv.take(i as int));
                    assert(iv.take(i + 1).last() == items@[i as int]@);
                    if let Some(n) = parse_json(items[i].as_str()) {
                        if let Some(id) = str_member_exec(&n, "id") {
                            let ghost before = out@;
                            out.push(id);
                            assert(out@.map_values(|s: String| s@) =~= before.map_values(|s: String| s@).push(id@));
                        }
                    }
                    i += 1;
                }
                assert(iv.take(i as int) =~= iv);
                return out;
            }
        }
        assert(out@.map_values(|s: String| s@) =~= Seq::<Seq<char>>::empty());
        out
    }
}

} // verus!
