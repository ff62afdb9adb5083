use whatszara::llm::{effective_model, LLMMessage, LLMProvider, MeshApiProvider, ProviderRegistry};

fn mesh(model: &str) -> MeshApiProvider {
    MeshApiProvider {
        api_key: "rsk_test".to_string(),
        model: model.to_string(),
        endpoint: "https://api.meshapi.ai/v1".to_string(),
        openai_key: String::new(),
        anthropic_key: String::new(),
        groq_key: String::new(),
    }
}

fn msg(role: &str, content: &str) -> LLMMessage {
    LLMMessage { role: role.to_string(), content: content.to_string() }
}

#[test]
fn empty_registry_has_no_chat_provider() {
    let r: ProviderRegistry<MeshApiProvider> = ProviderRegistry::new();
    assert_eq!(r.active, 0);
    assert!(r.list_names().is_empty());
    assert_eq!(r.chat_provider().err(), Some("No LLM providers configured".to_string()));
}

#[test]
fn registry_finds_providers_by_name() {
    let mut r = ProviderRegistry::new();
    r.register(mesh("a"));
    r.register(mesh("b"));
    assert_eq!(r.list_names(), vec!["mesh-api".to_string(), "mesh-api".to_string()]);
    assert_eq!(r.set_active("mesh-api"), Ok(()));
    assert_eq!(r.active, 0);
    assert_eq!(r.set_active("openai"), Err("Provider 'openai' not found".to_string()));
    assert_eq!(r.active, 0);
    assert_eq!(r.active_provider().current_model(), "a");
    assert_eq!(r.chat_provider().map(|p| p.model.clone()), Ok("a".to_string()));
}

#[test]
fn registry_sets_the_model_of_the_first_match() {
    let mut r = ProviderRegistry::new();
    r.register(mesh("a"));
    r.register(mesh("b"));
    assert_eq!(r.set_model("mesh-api", "vendor/big-model"), Ok(()));
    assert_eq!(r.providers[0].model, "vendor/big-model");
    assert_eq!(r.providers[1].model, "b");
    assert_eq!(r.set_model("groq", "x"), Err("Provider 'groq' not found".to_string()));
}

#[test]
fn provider_settings() {
    let mut p = mesh("");
    assert_eq!(p.name(), "mesh-api");
    assert_eq!(p.default_model(), "openai/gpt-4o");
    p.set_model("meta/llama");
    assert_eq!(p.default_model(), "meta/llama");
    assert_eq!(p.current_model(), "meta/llama");
    p.set_endpoint("http://localhost:8080/v1");
    p.set_api_key("rsk_new");
    assert_eq!(p.endpoint, "http://localhost:8080/v1");
    assert_eq!(p.api_key, "rsk_new");
    assert_eq!(p.chat_url(), "http://localhost:8080/v1/chat/completions");
    assert_eq!(p.models_url(), "http://localhost:8080/v1/models");
}

#[test]
fn effective_model_prefers_the_current_one() {
    let models = vec!["m1".to_string(), "m2".to_string()];
    assert_eq!(effective_model("cur", &models), "cur");
    assert_eq!(effective_model("", &models), "m1");
    assert_eq!(effective_model("", &Vec::new()), "");
}

#[test]
fn system_prompt_comes_first() {
    let history = vec![msg("user", "hi"), msg("assistant", "hello")];
    let out = MeshApiProvider::chat_messages(&history, Some("be brief"));
    let pairs: Vec<(&str, &str)> = out.iter().map(|m| (m.role.as_str(), m.content.as_str())).collect();
    assert_eq!(pairs, vec![("system", "be brief"), ("user", "hi"), ("assistant", "hello")]);
    let out = MeshApiProvider::chat_messages(&history, None);
    assert_eq!(out.len(), 2);
    assert_eq!(out[0].content, "hi");
}

#[test]
fn headers_carry_the_configured_keys() {
    let mut p = mesh("m");
    assert_eq!(p.request_headers(), vec![("Authorization".to_string(), "Bearer rsk_test".to_string())]);
    p.openai_key = "ok".to_string();
    p.groq_key = "gk".to_string();
    assert_eq!(
        p.request_headers(),
        vec![
            ("Authorization".to_string(), "Bearer rsk_test".to_string()),
            ("x-mesh-openai-key".to_string(), "ok".to_string()),
            ("x-mesh-groq-key".to_string(), "gk".to_string()),
        ]
    );
    p.anthropic_key = "ak".to_string();
    assert_eq!(p.request_headers()[2], ("x-mesh-anthropic-key".to_string(), "ak".to_string()));
}

#[test]
fn chat_reply_is_read_from_the_first_choice() {
    let p = mesh("fallback");
    let r = p
        .parse_chat_reply("{\"model\":\"used\",\"choices\":[{\"message\":{\"content\":\"Hey!\"}},{\"message\":{\"content\":\"no\"}}]}")
        .unwrap();
    assert_eq!((r.content.as_str(), r.model.as_str(), r.provider.as_str()), ("Hey!", "used", "mesh-api"));
    let r = p.parse_chat_reply("{\"choices\":[]}").unwrap();
    assert_eq!((r.content.as_str(), r.model.as_str()), ("", "fallback"));
    assert_eq!(p.parse_chat_reply("[1,2]").unwrap().content, "");
    assert!(p.parse_chat_reply("<html>bad gateway</html>").is_none());
}

#[test]
fn model_list_keeps_string_ids() {
    let body = "{\"data\":[{\"id\":\"a\"},{\"id\":3},{\"name\":\"x\"},{\"id\":\"b\"}]}";
    assert_eq!(MeshApiProvider::parse_model_list(body), Some(vec!["a".to_string(), "b".to_string()]));
    assert_eq!(MeshApiProvider::parse_model_list("{\"data\":{}}"), Some(Vec::new()));
    assert_eq!(MeshApiProvider::parse_model_list("nope"), None);
}
