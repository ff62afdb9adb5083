use vstd::prelude::*;
use vstd::string::*;
use crate::json::{json_parse, parse_json, JsonNode, JsonNodeView};
use crate::params::{insert_all, insert_pair, lookup, pair_keys, pair_views, ParamMap};
use crate::assoc::{find_key, index_of, keys_of, lemma_index_of_from};
use crate::text::{chars_of, find_chars, find_from, lemma_find_from_found, matches_at, string_from_chars, trim, trim_seq, owned};

verus! {

// ---------------------------------------------------------------- code fences

/// The text between the first `prefix` of `s` and the next three backticks
/// after it, trimmed; `None` when either is missing.
pub open spec fn fence_body(s: Seq<char>, prefix: Seq<char>) -> Option<Seq<char>> {
    match find_from(s, prefix, 0) {
        Some(a) => match find_from(s, "```"@, a + prefix.len()) {
            Some(b) => Some(trim_seq(s.subrange(a + prefix.len(), b))),
            None => None,
        },
        None => None,
    }
}

/// `s` with a fenced code block replaced by its trimmed contents: the fence
/// openings ```` ```json ```` and ```` ``` ```` followed by a line break are
/// tried in that order, and `s` is kept when none of them is closed.
pub open spec fn strip_fences_seq(s: Seq<char>) -> Seq<char> {
    match fence_body(s, "```json\n"@) {
        Some(b) => b,
        None => match fence_body(s, "```json\r\n"@) {
            Some(b) => b,
            None => match fence_body(s, "```\n"@) {
                Some(b) => b,
                None => match fence_body(s, "```\r\n"@) {
                    Some(b) => b,
                    None => s,
                },
            },
        },
    }
}

fn fence_body_exec(v: &Vec<char>, prefix: &str) -> (r: Option<String>)
    ensures
        r matches Some(b) ==> fence_body(v@, prefix@) == Some(b@),
        r is None ==> fence_body(v@, prefix@) is None,
{
    let p = chars_of(prefix);
    let fence = chars_of("```");
    let vl = v.len();
    match find_chars(v, &p, 0) {
        Some(a) => {
            proof { lemma_find_from_found(v@, p@, 0); }
            assert(matches_at(v@, p@, a as int));
            assert(a + p@.len() <= v@.len());
            let body_start = a + p.len();
            match find_chars(v, &fence, body_start) {
                Some(b) => {
                    proof { lemma_find_from_found(v@, fence@, body_start as int); }
                    let inner = string_from_chars(v, body_start, b);
                    Some(trim(inner.as_str()))
                },
                None => None,
            }
        },
        None => None,
    }
}

/// Takes the contents out of a fenced code block in a model's reply.
pub fn strip_code_fences(text: &str) -> (r: String)
    ensures
        r@ == strip_fences_seq(text@),
{
    let v = chars_of(text);
    if let Some(b) = fence_body_exec(&v, "```json\n") {
        return b;
    }
    if let Some(b) = fence_body_exec(&v, "```json\r\n") {
        return b;
    }
    if let Some(b) = fence_body_exec(&v, "```\n") {
        return b;
    }
    if let Some(b) = fence_body_exec(&v, "```\r\n") {
        return b;
    }
    owned(text)
}

// ---------------------------------------------------------------- embedded objects

/// How a scan for the end of a JSON object ended.
pub enum ScanEnd {
    /// The object closes at this index.
    Closed(usize),
    /// A closing brace with nothing open was met at this index.
    Broken(usize),
    /// The text ended first.
    Open,
}

/// The mathematical form of a [`ScanEnd`].
pub enum ScanEndView {
    Closed(int),
    Broken(int),
    Open,
}

impl View for ScanEnd {
    type V = ScanEndView;

    open spec fn view(&self) -> ScanEndView {
        match self {
            ScanEnd::Closed(e) => ScanEndView::Closed(*e as int),
            ScanEnd::Broken(e) => ScanEndView::Broken(*e as int),
            ScanEnd::Open => ScanEndView::Open,
        }
    }
}

/// Scans `s` from index `i`, with `depth` braces open, inside a string or
/// not, right after a backslash in a string or not, for the brace that closes
/// the outermost object. Braces inside strings do not count, and a quote
/// after a backslash does not end a string.
pub open spec fn scan(s: Seq<char>, i: int, depth: int, in_string: bool, escaped: bool) -> ScanEndView
    decreases s.len() - i,
{
    if i < 0 || i >= s.len() {
        ScanEndView::Open
    } else if escaped {
        scan(s, i + 1, depth, in_string, false)
    } else if s[i] == '\\' && in_string {
        scan(s, i + 1, depth, in_string, true)
    } else if s[i] == '"' {
        scan(s, i + 1, depth, !in_string, false)
    } else if !in_string && s[i] == '{' {
        scan(s, i + 1, depth + 1, in_string, false)
    } else if !in_string && s[i] == '}' {
        if depth - 1 == 0 {
            ScanEndView::Closed(i)
        } else if depth - 1 < 0 {
            ScanEndView::Broken(i)
        } else {
            scan(s, i + 1, depth - 1, in_string, false)
        }
    } else {
        scan(s, i + 1, depth, in_string, false)
    }
}

pub proof fn lemma_scan_bounds(s: Seq<char>, i: int, depth: int, in_string: bool, escaped: bool)
    requires
        0 <= i,
    ensures
        scan(s, i, depth, in_string, escaped) matches ScanEndView::Closed(e) ==> i <= e < s.len() && s[e] == '}',
        scan(s, i, depth, in_string, escaped) matches ScanEndView::Broken(e) ==> i <= e < s.len(),
    decreases s.len() - i,
{
    if i < s.len() {
        if escaped {
            lemma_scan_bounds(s, i + 1, depth, in_string, false);
        } else if s[i] == '\\' && in_string {
            lemma_scan_bounds(s, i + 1, depth, in_string, true);
        } else if s[i] == '"' {
            lemma_scan_bounds(s, i + 1, depth, !in_string, false);
        } else if !in_string && s[i] == '{' {
            lemma_scan_bounds(s, i + 1, depth + 1, in_string, false);
        } else if !in_string && s[i] == '}' {
            if depth - 1 > 0 {
                lemma_scan_bounds(s, i + 1, depth - 1, in_string, false);
            }
        } else {
            lemma_scan_bounds(s, i + 1, depth, in_string, false);
        }
    }
}

/// The balanced `{ ... }` objects found in `s[i..]`, left to right: each
/// opening brace outside an object found so far starts a scan; a closed
/// object is taken and the search goes on after it, and a text that ends
/// inside an object ends the search.
pub open spec fn objects_from(s: Seq<char>, i: int) -> Seq<Seq<char>>
    decreases s.len() - i,
{
    if i < 0 || i >= s.len() {
        seq![]
    } else if s[i] == '{' {
        proof { lemma_scan_bounds(s, i, 0, false, false); }
        match scan(s, i, 0, false, false) {
            ScanEndView::Closed(e) => seq![s.subrange(i, e + 1)] + objects_from(s, e + 1),
            ScanEndView::Broken(e) => objects_from(s, e + 1),
            ScanEndView::Open => seq![],
        }
    } else {
        objects_from(s, i + 1)
    }
}

/// The balanced `{ ... }` objects embedded in `s`.
pub open spec fn json_objects(s: Seq<char>) -> Seq<Seq<char>> {
    objects_from(s, 0)
}

/// `o` stands in `s` from index `a` on.
pub open spec fn occurs_at(s: Seq<char>, o: Seq<char>, a: int) -> bool {
    0 <= a && a + o.len() <= s.len() && s.subrange(a, a + o.len()) == o
}

/// Each object found in `s[i..]` is a piece of `s` at or after `i` that
/// opens with `{` and closes with `}`.
pub proof fn law_objects_are_braced(s: Seq<char>, i: int)
    requires
        0 <= i,
    ensures
        forall|k: int| 0 <= k < objects_from(s, i).len() ==> {
            let o = #[trigger] objects_from(s, i)[k];
            &&& o.len() >= 2
            &&& o[0] == '{'
            &&& o[o.len() - 1] == '}'
            &&& exists|a: int| i <= a && #[trigger] occurs_at(s, o, a)
        },
    decreases s.len() - i,
{
    if 0 <= i < s.len() {
        if s[i] == '{' {
            lemma_scan_bounds(s, i, 0, false, false);
            match scan(s, i, 0, false, false) {
                ScanEndView::Closed(e) => {
                    law_objects_are_braced(s, e + 1);
                    let rest = objects_from(s, e + 1);
                    let all = objects_from(s, i);
                    let o0 = s.subrange(i, e + 1);
                    assert(all == seq![o0] + rest);
                    assert forall|k: int| 0 <= k < all.len() implies {
                        let o = #[trigger] all[k];
                        &&& o.len() >= 2
                        &&& o[0] == '{'
                        &&& o[o.len() - 1] == '}'
                        &&& exists|a: int| i <= a && #[trigger] occurs_at(s, o, a)
                    } by {
                        if k == 0 {
                            assert(all[0] == o0);
                            assert(e != i);
                            assert(occurs_at(s, o0, i));
                        } else {
                            assert(all[k] == rest[k - 1]);
                            let o = rest[k - 1];
                            let a = choose|a: int| e + 1 <= a && #[trigger] occurs_at(s, o, a);
                            assert(i <= a);
                        }
                    }
                },
                ScanEndView::Broken(e) => {
                    law_objects_are_braced(s, e + 1);
                    let rest = objects_from(s, e + 1);
                    assert forall|k: int| 0 <= k < rest.len() implies {
                        let o = #[trigger] rest[k];
                        exists|a: int| i <= a && #[trigger] occurs_at(s, o, a)
                    } by {
                        let o = rest[k];
                        let a = choose|a: int| e + 1 <= a && #[trigger] occurs_at(s, o, a);
                        assert(i <= a);
                    }
                },
                ScanEndView::Open => {},
            }
        } else {
            law_objects_are_braced(s, i + 1);
            let rest = objects_from(s, i + 1);
            assert forall|k: int| 0 <= k < rest.len() implies {
                let o = #[trigger] rest[k];
                exists|a: int| i <= a && #[trigger] occurs_at(s, o, a)
            } by {
                let o = rest[k];
                let a = choose|a: int| i + 1 <= a && #[trigger] occurs_at(s, o, a);
                assert(i <= a);
            }
        }
    }
}

/// Scans `v` from the opening brace at `start` for the brace that closes it.
pub fn scan_object(v: &Vec<char>, start: usize) -> (r: ScanEnd)
    requires
        start < v.len(),
    ensures
        r@ == scan(v@, start as int, 0, false, false),
{
    let n = v.len();
    let mut depth: usize = 0;
    let mut in_string = false;
    let mut escaped = false;
    let mut i = start;
    while i < n
        invariant
            n == v.len(),
            start <= i <= n,
            depth <= i - start,
            scan(v@, start as int, 0, false, false) == scan(v@, i as int, depth as int, in_string, escaped),
        decreases n - i,
    {
        let c = v[i];
        if escaped {
            escaped = false;
        } else if c == '\\' && in_string {
            escaped = true;
        } else if c == '"' {
            in_string = !in_string;
        } else if !in_string && c == '{' {
            depth = depth + 1;
        } else if !in_string && c == '}' {
            if depth == 1 {
                return ScanEnd::Closed(i);
            } else if depth == 0 {
                return ScanEnd::Broken(i);
            } else {
                depth = depth - 1;
            }
        }
        i += 1;
    }
    ScanEnd::Open
}

/// The balanced `{ ... }` objects embedded in a text, left to right.
pub fn find_json_objects(text: &str) -> (r: Vec<String>)
    ensures
        r@.map_values(|s: String| s@) == json_objects(text@),
{
    let v = chars_of(text);
    let n = v.len();
    let mut results: Vec<String> = Vec::new();
    let mut i: usize = 0;
    while i < n
        invariant
            n == v.len(),
            v@ == text@,
            i <= n,
            results@.map_values(|s: String| s@) + objects_from(v@, i as int) == json_objects(v@),
        decreases n - i,
    {
        if v[i] == '{' {
            proof { lemma_scan_bounds(v@, i as int, 0, false, false); }
            match scan_object(&v, i) {
                ScanEnd::Closed(e) => {
                    let found = string_from_chars(&v, i, e + 1);
                    let ghost before = results@.map_values(|s: String| s@);
                    results.push(found);
                    assert(results@.map_values(|s: String| s@) =~= before.push(found@));
                    assert(before + objects_from(v@, i as int) =~= results@.map_values(|s: String| s@) + objects_from(v@, e + 1));
                    i = e + 1;
                },
                ScanEnd::Broken(e) => {
                    i = e + 1;
                },
                ScanEnd::Open => {
                    assert(objects_from(v@, i as int) == Seq::<Seq<char>>::empty());
                    assert(results@.map_values(|s: String| s@) + objects_from(v@, i as int) =~= results@.map_values(|s: String| s@));
                    assert(results@.map_values(|s: String| s@) == json_objects(v@));
                    assert(v@ == text@);
                    return results;
                },
            }
        } else {
            i += 1;
        }
    }
    assert(results@.map_values(|s: String| s@) + objects_from(v@, i as int) =~= results@.map_values(|s: String| s@));
    results
}

// ---------------------------------------------------------------- action steps

/// One action that a model's reply asks for.
#[derive(Debug)]
pub struct ActionStep {
    pub tool: String,
    pub params: ParamMap,
    pub thinking: Option<String>,
    pub delay_ms: Option<u64>,
}

/// The mathematical form of an [`ActionStep`].
pub struct ActionStepView {
    pub tool: Seq<char>,
    pub params: Seq<(Seq<char>, Seq<char>)>,
    pub thinking: Option<Seq<char>>,
    pub delay_ms: Option<u64>,
}

/// The view of an optional string.
pub open spec fn opt_view(s: Option<String>) -> Option<Seq<char>> {
    match s {
        Some(x) => Some(x@),
        None => None,
    }
}

impl View for ActionStep {
    type V = ActionStepView;

    open spec fn view(&self) -> ActionStepView {
        ActionStepView {
            tool: self.tool@,
            params: self.params@,
            thinking: opt_view(self.thinking),
            delay_ms: self.delay_ms,
        }
    }
}

/// The steps as mathematical values.
pub open spec fn steps_view(v: Seq<ActionStep>) -> Seq<ActionStepView> {
    v.map_values(|s: ActionStep| s@)
}

/// The JSON text of member `key` of an object.
pub open spec fn member(v: JsonNodeView, key: Seq<char>) -> Option<Seq<char>> {
    match v {
        JsonNodeView::Object(es) => lookup(es, key),
        _ => None,
    }
}

/// The string that a JSON text holds, if it holds a string.
pub open spec fn str_value(t: Seq<char>) -> Option<Seq<char>> {
    match json_parse(t) {
        Some(JsonNodeView::Str(s)) => Some(s),
        _ => None,
    }
}

/// The string held by member `key` of an object.
pub open spec fn str_member(v: JsonNodeView, key: Seq<char>) -> Option<Seq<char>> {
    match member(v, key) {
        Some(t) => str_value(t),
        None => None,
    }
}

/// The `u64` held by member `key` of an object.
pub open spec fn u64_member(v: JsonNodeView, key: Seq<char>) -> Option<u64> {
    match member(v, key) {
        Some(t) => match json_parse(t) {
            Some(JsonNodeView::Number(n)) => n,
            _ => None,
        },
        None => None,
    }
}

/// A parameter value as text: a string as it is, anything else as its JSON.
pub open spec fn param_text(t: Seq<char>) -> Seq<char> {
    match str_value(t) {
        Some(s) => s,
        None => t,
    }
}

/// The parameters that a JSON value gives: each member of an object, with
/// its value as text; nothing for any other value.
pub open spec fn params_of_node(v: JsonNodeView) -> Seq<(Seq<char>, Seq<char>)> {
    match v {
        JsonNodeView::Object(es) => insert_all(
            es.map_values(|p: (Seq<char>, Seq<char>)| (p.0, param_text(p.1))),
        ),
        _ => seq![],
    }
}

/// The parameters held by member `key` of an object; none when it is missing.
pub open spec fn params_member(v: JsonNodeView, key: Seq<char>) -> Seq<(Seq<char>, Seq<char>)> {
    match member(v, key) {
        Some(t) => match json_parse(t) {
            Some(n) => params_of_node(n),
            None => seq![],
        },
        None => seq![],
    }
}

/// The step that an object describes: it needs a non-empty `tool` string;
/// `params`, `thinking` and `delay_ms` are taken when present.
pub open spec fn step_of(v: JsonNodeView) -> Option<ActionStepView> {
    let tool = match str_member(v, "tool"@) {
        Some(t) => t,
        None => seq![],
    };
    if tool.len() == 0 {
        None
    } else {
        Some(ActionStepView {
            tool,
            params: params_member(v, "params"@),
            thinking: str_member(v, "thinking"@),
            delay_ms: u64_member(v, "delay_ms"@),
        })
    }
}

/// The steps described by the elements of an `actions` array, in order,
/// leaving out elements that describe none.
pub open spec fn steps_of_items(items: Seq<Seq<char>>) -> Seq<ActionStepView>
    decreases items.len(),
{
    if items.len() == 0 {
        seq![]
    } else {
        let prev = steps_of_items(items.drop_last());
        match json_parse(items.last()) {
            Some(n) => match step_of(n) {
                Some(st) => prev.push(st),
                None => prev,
            },
            None => prev,
        }
    }
}

/// The steps a reply object asks for: those of its `actions` array when it
/// yields any, else the single step the object itself describes, else none.
pub open spec fn actions_of(v: JsonNodeView) -> Seq<ActionStepView> {
    let from_array = match member(v, "actions"@) {
        Some(t) => match json_parse(t) {
            Some(JsonNodeView::Array(items)) => steps_of_items(items),
            _ => seq![],
        },
        None => seq![],
    };
    if from_array.len() > 0 {
        from_array
    } else {
        match step_of(v) {
            Some(st) => seq![st],
            None => seq![],
        }
    }
}

/// An element of an `actions` array that describes a step: an object with
/// a non-empty `tool` string.
pub open spec fn describes_step(item: Seq<char>) -> bool {
    json_parse(item) matches Some(n) && str_member(n, "tool"@) matches Some(tool) && tool.len() > 0
}

/// The step that a describing element stands for, read member by member.
pub open spec fn listed_step(item: Seq<char>) -> ActionStepView {
    let n = json_parse(item).unwrap();
    ActionStepView {
        tool: str_member(n, "tool"@).unwrap(),
        params: params_member(n, "params"@),
        thinking: str_member(n, "thinking"@),
        delay_ms: u64_member(n, "delay_ms"@),
    }
}

proof fn lemma_steps_of_describing_items(items: Seq<Seq<char>>)
    requires
        forall|k: int| 0 <= k < items.len() ==> describes_step(#[trigger] items[k]),
    ensures
        steps_of_items(items).len() == items.len(),
        forall|k: int| 0 <= k < items.len() ==> #[trigger] steps_of_items(items)[k] == listed_step(items[k]),
    decreases items.len(),
{
    if items.len() > 0 {
        let d = items.drop_last();
        assert forall|k: int| 0 <= k < d.len() implies describes_step(#[trigger] d[k]) by {
            assert(d[k] == items[k]);
        }
        lemma_steps_of_describing_items(d);
        assert(describes_step(items[items.len() - 1]));
        assert forall|k: int| 0 <= k < items.len() implies #[trigger] steps_of_items(items)[k] == listed_step(items[k]) by {
            if k < items.len() - 1 {
                assert(steps_of_items(d)[k] == listed_step(d[k]));
                assert(d[k] == items[k]);
            }
        }
    }
}

/// When a reply object's `actions` array holds only elements that describe
/// steps, the reply asks for exactly those steps: as many as the array has
/// elements, in its order, each with the tool, parameters, thinking and
/// delay of its element.
pub proof fn law_every_listed_action_is_a_step(v: JsonNodeView, t: Seq<char>, items: Seq<Seq<char>>)
    requires
        member(v, "actions"@) == Some(t),
        json_parse(t) == Some(JsonNodeView::Array(items)),
        items.len() > 0,
        forall|k: int| 0 <= k < items.len() ==> describes_step(#[trigger] items[k]),
    ensures
        actions_of(v).len() == items.len(),
        forall|k: int| 0 <= k < items.len() ==> #[trigger] actions_of(v)[k] == listed_step(items[k]),
{
    lemma_steps_of_describing_items(items);
}

/// The chat text of a reply object: its `chat` string when that is not empty.
pub open spec fn chat_of(v: JsonNodeView) -> Option<Seq<char>> {
    match str_member(v, "chat"@) {
        Some(c) => if c.len() > 0 { Some(c) } else { None },
        None => None,
    }
}

/// The JSON text of member `key` of `node`, when `node` is an object that has it.
pub fn member_text(node: &JsonNode, key: &str) -> (r: Option<String>)
    ensures
        opt_view(r) == member(node@, key@),
{
    match node {
        JsonNode::Object(es) => {
            let ghost pv = pair_views(es@);
            proof {
                assert(keys_of(es@) =~= pair_keys(pv));
                lemma_index_of_from(keys_of(es@), key@, 0);
            }
            match find_key(es, key) {
                Some(i) => Some(es[i].1.clone()),
                None => None,
            }
        },
        _ => None,
    }
}

/// The string that a JSON text holds.
pub fn parse_str(t: &str) -> (r: Option<String>)
    ensures
        opt_view(r) == str_value(t@),
{
    match parse_json(t) {
        Some(JsonNode::Str(s)) => Some(s),
        _ => None,
    }
}

pub fn str_member_exec(node: &JsonNode, key: &str) -> (r: Option<String>)
    ensures
        opt_view(r) == str_member(node@, key@),
{
    match member_text(node, key) {
        Some(t) => parse_str(t.as_str()),
        None => None,
    }
}

fn u64_member_exec(node: &JsonNode, key: &str) -> (r: Option<u64>)
    ensures
        r == u64_member(node@, key@),
{
    match member_text(node, key) {
        Some(t) => match parse_json(t.as_str()) {
            Some(JsonNode::Number(n)) => n,
            _ => None,
        },
        None => None,
    }
}

/// The parameters a JSON value gives: each member of an object with its
/// value as text (a string as it is, anything else as its JSON); an empty
/// map for any other value.
pub fn extract_params(node: &JsonNode) -> (r: ParamMap)
    ensures
        r@ == params_of_node(node@),
{
    let mut map = ParamMap::new();
    match node {
        JsonNode::Object(es) => {
            let ghost mapped = pair_views(es@).map_values(|p: (Seq<char>, Seq<char>)| (p.0, param_text(p.1)));
            let mut i: usize = 0;
            while i < es.len()
                invariant
                    i <= es.len(),
                    mapped == pair_views(es@).map_values(|p: (Seq<char>, Seq<char>)| (p.0, param_text(p.1))),
                    map@ == insert_all(mapped.take(i as int)),
                decreases es.len() - i,
            {
                let value = match parse_str(es[i].1.as_str()) {
                    Some(s) => s,
                    None => es[i].1.clone(),
                };
                map.insert(es[i].0.clone(), value);
                assert(mapped.take(i + 1).drop_last() =~= mapped.take(i as int));
                assert(mapped.take(i + 1).last() == mapped[i as int]);
                i += 1;
            }
            assert(mapped.take(i as int) =~= mapped);
        },
        _ => {
            assert(insert_all(Seq::<(Seq<char>, Seq<char>)>::empty()) == Seq::<(Seq<char>, Seq<char>)>::empty());
        },
    }
    map
}

fn params_member_exec(node: &JsonNode, key: &str) -> (r: ParamMap)
    ensures
        r@ == params_member(node@, key@),
{
    match member_text(node, key) {
        Some(t) => match parse_json(t.as_str()) {
            Some(n) => extract_params(&n),
            None => ParamMap::new(),
        },
        None => ParamMap::new(),
    }
}

/// The step that a JSON value describes, if it describes one.
pub fn step_from(node: &JsonNode) -> (r: Option<ActionStep>)
    ensures
        match r {
            Some(st) => step_of(node@) == Some(st@),
            None => step_of(node@) is None,
        },
{
    let tool = match str_member_exec(node, "tool") {
        Some(t) => t,
        None => String::new(),
    };
    if tool.as_str().is_empty() {
        return None;
    }
    let params = params_member_exec(node, "params");
    let thinking = str_member_exec(node, "thinking");
    let delay_ms = u64_member_exec(node, "delay_ms");
    Some(ActionStep { tool, params, thinking, delay_ms })
}

/// The steps that a parsed reply asks for.
pub fn try_parse_actions(val: &JsonNode) -> (r: Vec<ActionStep>)
    ensures
        steps_view(r@) == actions_of(val@),
{
    let mut steps: Vec<ActionStep> = Vec::new();
    if let Some(t) = member_text(val, "actions") {
        if let Some(JsonNode::Array(items)) = parse_json(t.as_str()) {
            let ghost iv = items@.map_values(|e: String| e@);
            let mut i: usize = 0;
            while i < items.len()
                invariant
                    i <= items.len(),
                    iv == items@.map_values(|e: String| e@),
                    steps_view(steps@) == steps_of_items(iv.take(i as int)),
                decreases items.len() - i,
            {
                assert(iv.take(i + 1).drop_last() =~= iv.take(i as int));
                assert(iv.take(i + 1).last() == items@[i as int]@);
                if let Some(n) = parse_json(items[i].as_str()) {
                    if let Some(st) = step_from(&n) {
                        let ghost before = steps@;
                        steps.push(st);
                        assert(steps_view(steps@) =~= steps_view(before).push(st@));
                    }
                }
                i += 1;
            }
            assert(iv.take(i as int) =~= iv);
            if steps.len() > 0 {
                return steps;
            }
        }
    }
    let mut single: Vec<ActionStep> = Vec::new();
    if let Some(st) = step_from(val) {
        single.push(st);
        assert(steps_view(single@) =~= seq![st@]);
    } else {
        assert(steps_view(single@) =~= Seq::<ActionStepView>::empty());
    }
    single
}

/// The chat text of a parsed reply: its `chat` string when that is not empty.
pub fn try_parse_value(val: &JsonNode) -> (r: Option<String>)
    ensures
        opt_view(r) == chat_of(val@),
{
    let chat = match str_member_exec(val, "chat") {
        Some(c) => c,
        None => String::new(),
    };
    if chat.as_str().is_empty() {
        None
    } else {
        Some(chat)
    }
}

// ---------------------------------------------------------------- whole replies

/// The reading of a reply from the embedded objects `cands`: the first that
/// parses and yields steps or chat text gives both; failing that, the whole
/// text `text` is chat and there are no steps.
pub open spec fn reply_from_objects(cands: Seq<Seq<char>>, text: Seq<char>) -> (Seq<char>, Seq<ActionStepView>)
    decreases cands.len(),
{
    if cands.len() == 0 {
        (text, seq![])
    } else {
        match json_parse(cands[0]) {
            Some(v) => {
                let a = actions_of(v);
                let c = match chat_of(v) {
                    Some(c) => c,
                    None => seq![],
                };
                if a.len() > 0 || c.len() > 0 {
                    (c, a)
                } else {
                    reply_from_objects(cands.drop_first(), text)
                }
            },
            None => reply_from_objects(cands.drop_first(), text),
        }
    }
}

/// How a model's reply is read: trimmed and taken out of a code fence, the
/// text is parsed as one JSON value. Its steps, with its chat text (or, with
/// no chat and no steps, the whole text), are the answer when there are
/// steps or the chat text is empty. Otherwise the objects embedded in the
/// text are tried in turn.
pub open spec fn read_reply(content: Seq<char>) -> (Seq<char>, Seq<ActionStepView>) {
    let text = strip_fences_seq(trim_seq(content));
    match json_parse(text) {
        Some(v) => {
            let a = actions_of(v);
            let c = match chat_of(v) {
                Some(c) => c,
                None => if a.len() == 0 { text } else { seq![] },
            };
            if a.len() > 0 || c.len() == 0 {
                (c, a)
            } else {
                reply_from_objects(json_objects(text), text)
            }
        },
        None => reply_from_objects(json_objects(text), text),
    }
}

/// Splits a model's reply into the text to show and the steps to run.
pub fn parse_ai_response(content: &str) -> (r: (String, Vec<ActionStep>))
    ensures
        (r.0@, steps_view(r.1@)) == read_reply(content@),
{
    let trimmed = trim(content);
    let text = strip_code_fences(trimmed.as_str());
    if let Some(val) = parse_json(text.as_str()) {
        let actions = try_parse_actions(&val);
        let chat = match try_parse_value(&val) {
            Some(c) => c,
            None => if actions.len() == 0 { text.clone() } else { String::new() },
        };
        if actions.len() > 0 || chat.as_str().is_empty() {
            return (chat, actions);
        }
    }
    let cands = find_json_objects(text.as_str());
    let ghost cv = cands@.map_values(|s: String| s@);
    assert(cv.skip(0) =~= cv);
    assert(read_reply(content@) == reply_from_objects(cv, text@));
    let mut i: usize = 0;
    while i < cands.len()
        invariant
            i <= cands.len(),
            cv == cands@.map_values(|s: String| s@),
            cv == json_objects(text@),
            read_reply(content@) == reply_from_objects(cv.skip(i as int), text@),
        decreases cands.len() - i,
    {
        assert(cv.skip(i as int)[0] == cands@[i as int]@);
        assert(cv.skip(i as int).drop_first() =~= cv.skip(i + 1));
        if let Some(val) = parse_json(cands[i].as_str()) {
            let actions = try_parse_actions(&val);
            let chat = match try_parse_value(&val) {
                Some(c) => c,
                None => String::new(),
            };
            if actions.len() > 0 || !chat.as_str().is_empty() {
                return (chat, actions);
            }
        }
        i += 1;
    }
    let none: Vec<ActionStep> = Vec::new();
    assert(steps_view(none@) =~= Seq::<ActionStepView>::empty());
    (text, none)
}

} // verus!
