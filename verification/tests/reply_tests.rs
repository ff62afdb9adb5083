use whatszara::json::JsonNode;
use whatszara::reply::{extract_params, find_json_objects, parse_ai_response, strip_code_fences, try_parse_actions, try_parse_value};

#[test]
fn fences_are_stripped_from_json_blocks() {
    assert_eq!(strip_code_fences("```json\n{\"a\":1}\n```"), "{\"a\":1}");
    assert_eq!(strip_code_fences("before ```json\r\n  {\"b\":2}  ``` after"), "{\"b\":2}");
    assert_eq!(strip_code_fences("```\nhello\n```"), "hello");
}

#[test]
fn fences_are_kept_when_unclosed_or_absent() {
    assert_eq!(strip_code_fences("no fences here"), "no fences here");
    assert_eq!(strip_code_fences("```json\nunclosed"), "```json\nunclosed");
    assert_eq!(strip_code_fences("```json {\"a\":1}```"), "```json {\"a\":1}```");
}

#[test]
fn objects_are_found_with_nesting_and_strings() {
    let found = find_json_objects("x {\"a\":{\"b\":1}} y {\"c\":\"}\"}");
    assert_eq!(found, vec!["{\"a\":{\"b\":1}}".to_string(), "{\"c\":\"}\"}".to_string()]);
}

#[test]
fn escaped_quotes_do_not_end_a_string() {
    let found = find_json_objects("{\"a\":\"say \\\"}\\\" now\"} tail");
    assert_eq!(found, vec!["{\"a\":\"say \\\"}\\\" now\"}".to_string()]);
}

#[test]
fn unterminated_object_swallows_the_rest() {
    assert_eq!(find_json_objects("{ unterminated"), Vec::<String>::new());
    assert_eq!(find_json_objects("{ {\"a\":1}"), Vec::<String>::new());
    assert_eq!(find_json_objects("}{}"), vec!["{}".to_string()]);
    assert_eq!(find_json_objects(""), Vec::<String>::new());
}

#[test]
fn plain_text_reply_is_chat_only() {
    let (chat, steps) = parse_ai_response("  Hello there!  ");
    assert_eq!(chat, "Hello there!");
    assert!(steps.is_empty());
}

#[test]
fn chat_and_actions_are_read_from_json() {
    let reply = "{\"chat\":\"Hi\",\"actions\":[{\"tool\":\"open_app\",\"params\":{\"name\":\"Spotify\",\"n\":3,\"b\":true,\"x\":null,\"f\":1.5}}]}";
    let (chat, steps) = parse_ai_response(reply);
    assert_eq!(chat, "Hi");
    assert_eq!(steps.len(), 1);
    assert_eq!(steps[0].tool, "open_app");
    assert_eq!(steps[0].params.get("name").map(|s| s.as_str()), Some("Spotify"));
    assert_eq!(steps[0].params.get("n").map(|s| s.as_str()), Some("3"));
    assert_eq!(steps[0].params.get("b").map(|s| s.as_str()), Some("true"));
    assert_eq!(steps[0].params.get("x").map(|s| s.as_str()), Some("null"));
    assert_eq!(steps[0].params.get("f").map(|s| s.as_str()), Some("1.5"));
    assert_eq!(steps[0].params.len(), 5);
    assert_eq!(steps[0].thinking, None);
    assert_eq!(steps[0].delay_ms, None);
}

#[test]
fn single_tool_object_becomes_one_step() {
    let reply = "{\"tool\":\"send_message\",\"params\":{\"to\":\"bob\"},\"thinking\":\"greet\",\"delay_ms\":500}";
    let (chat, steps) = parse_ai_response(reply);
    assert_eq!(chat, "");
    assert_eq!(steps.len(), 1);
    assert_eq!(steps[0].tool, "send_message");
    assert_eq!(steps[0].params.get("to").map(|s| s.as_str()), Some("bob"));
    assert_eq!(steps[0].thinking.as_deref(), Some("greet"));
    assert_eq!(steps[0].delay_ms, Some(500));
}

#[test]
fn chat_only_json_gives_its_chat() {
    let (chat, steps) = parse_ai_response("{\"chat\":\"just chat\"}");
    assert_eq!(chat, "just chat");
    assert!(steps.is_empty());
}

#[test]
fn json_without_chat_or_actions_is_kept_as_text() {
    let (chat, steps) = parse_ai_response("{\"other\":1}");
    assert_eq!(chat, "{\"other\":1}");
    assert!(steps.is_empty());
    let (chat, steps) = parse_ai_response("\"hi\"");
    assert_eq!(chat, "\"hi\"");
    assert!(steps.is_empty());
}

#[test]
fn embedded_object_is_found_in_prose() {
    let (chat, steps) = parse_ai_response("Sure! {\"chat\":\"ok\",\"tool\":\"x\"} trailing words");
    assert_eq!(chat, "ok");
    assert_eq!(steps.len(), 1);
    assert_eq!(steps[0].tool, "x");
    assert_eq!(steps[0].params.len(), 0);
}

#[test]
fn fenced_json_reply_is_read() {
    let (chat, steps) = parse_ai_response("```json\n{\"chat\":\"fenced\"}\n```");
    assert_eq!(chat, "fenced");
    assert!(steps.is_empty());
}

#[test]
fn blank_reply_is_empty() {
    let (chat, steps) = parse_ai_response("   ");
    assert_eq!(chat, "");
    assert!(steps.is_empty());
}

#[test]
fn invalid_action_items_are_skipped() {
    let (_, steps) = parse_ai_response("{\"actions\":[1,{\"tool\":\"\"},{\"tool\":\"a\",\"delay_ms\":1.5,\"thinking\":7}]}");
    assert_eq!(steps.len(), 1);
    assert_eq!(steps[0].tool, "a");
    assert_eq!(steps[0].delay_ms, None);
    assert_eq!(steps[0].thinking, None);
}

#[test]
fn empty_actions_fall_back_to_top_level_tool() {
    let (_, steps) = parse_ai_response("{\"actions\":[],\"tool\":\"b\",\"params\":[1]}");
    assert_eq!(steps.len(), 1);
    assert_eq!(steps[0].tool, "b");
    assert_eq!(steps[0].params.len(), 0);
}

fn object(members: &[(&str, &str)]) -> JsonNode {
    JsonNode::Object(members.iter().map(|(k, v)| (k.to_string(), v.to_string())).collect())
}

#[test]
fn nested_param_values_keep_their_json_text() {
    let val = object(&[("o", "{\"k\":1}"), ("l", "[1,2]"), ("m", "-2"), ("s", "\"x\\ny\"")]);
    let params = extract_params(&val);
    assert_eq!(params.get("o").map(|s| s.as_str()), Some("{\"k\":1}"));
    assert_eq!(params.get("l").map(|s| s.as_str()), Some("[1,2]"));
    assert_eq!(params.get("m").map(|s| s.as_str()), Some("-2"));
    assert_eq!(params.get("s").map(|s| s.as_str()), Some("x\ny"));
    let not_object = JsonNode::Array(vec!["1".to_string()]);
    assert_eq!(extract_params(&not_object).len(), 0);
}

#[test]
fn chat_value_must_be_a_non_empty_string() {
    assert_eq!(try_parse_value(&object(&[("chat", "\"\"")])), None);
    assert_eq!(try_parse_value(&object(&[("chat", "5")])), None);
    assert_eq!(try_parse_value(&JsonNode::Array(vec!["\"chat\"".to_string()])), None);
    assert_eq!(try_parse_value(&object(&[("chat", "\"yo\"")])), Some("yo".to_string()));
    assert!(try_parse_actions(&JsonNode::Number(Some(7))).is_empty());
    assert!(try_parse_actions(&JsonNode::Null).is_empty());
}

#[test]
fn a_top_level_array_is_searched_for_objects() {
    let (chat, steps) = parse_ai_response("[{\"tool\":\"a\"}]");
    assert_eq!(chat, "");
    assert_eq!(steps.len(), 1);
    assert_eq!(steps[0].tool, "a");
    let (chat, steps) = parse_ai_response("not json");
    assert_eq!(chat, "not json");
    assert!(steps.is_empty());
}
