use vstd::prelude::*;
use vstd::string::*;
use crate::orchestrator::ActionResult;
use crate::params::{lookup, ParamMap};
use crate::text::{chars_of, decimal, digit_char, owned, str_eq};

verus! {

// ---------------------------------------------------------------- unsigned numbers in text

/// A decimal digit.
pub open spec fn is_digit(c: char) -> bool {
    '0' <= c && c <= '9'
}

/// The value of a run of decimal digits.
pub open spec fn digits_value(s: Seq<char>) -> nat
    decreases s.len(),
{
    if s.len() == 0 {
        0
    } else {
        digits_value(s.drop_last()) * 10 + (s.last() as int - '0' as int) as nat
    }
}

/// The digits of an unsigned number's text: one leading `+` is allowed.
pub open spec fn unsigned_body(s: Seq<char>) -> Seq<char> {
    if s.len() > 0 && s[0] == '+' {
        s.drop_first()
    } else {
        s
    }
}

/// The number that `s` reads as, in the way Rust reads an unsigned integer
/// type whose largest value is `max`: an optional `+`, then one or more
/// decimal digits, with a value no greater than `max`.
pub open spec fn unsigned_value(s: Seq<char>, max: nat) -> Option<nat> {
    let b = unsigned_body(s);
    if b.len() > 0 && (forall|i: int| 0 <= i < b.len() ==> is_digit(#[trigger] b[i])) && digits_value(b) <= max {
        Some(digits_value(b))
    } else {
        None
    }
}

/// A longer run of digits is worth at least as much as its prefix.
proof fn lemma_digits_prefix(s: Seq<char>, k: int)
    requires
        0 <= k <= s.len(),
        forall|i: int| 0 <= i < s.len() ==> is_digit(#[trigger] s[i]),
    ensures
        digits_value(s.take(k)) <= digits_value(s),
    decreases s.len() - k,
{
    if k < s.len() {
        lemma_digits_prefix(s, k + 1);
        assert(s.take(k + 1).drop_last() =~= s.take(k));
        assert(s.take(k + 1).last() == s[k]);
        assert(is_digit(s[k]));
        assert(digits_value(s.take(k + 1)) == digits_value(s.take(k)) * 10 + (s[k] as int - '0' as int) as nat);
    } else {
        assert(s.take(k) =~= s);
    }
}

proof fn lemma_digit_char_value(d: int)
    requires
        0 <= d < 10,
    ensures
        is_digit(digit_char(d)),
        digit_char(d) as int - '0' as int == d,
{
}

proof fn lemma_decimal_digits(n: nat)
    ensures
        decimal(n).len() > 0,
        forall|i: int| 0 <= i < decimal(n).len() ==> is_digit(#[trigger] decimal(n)[i]),
        digits_value(decimal(n)) == n,
    decreases n,
{
    if n < 10 {
        lemma_digit_char_value(n as int);
        assert(decimal(n).drop_last() =~= Seq::<char>::empty());
        assert(digits_value(decimal(n)) == digits_value(Seq::<char>::empty()) * 10 + (decimal(n).last() as int - '0' as int) as nat);
    } else {
        lemma_decimal_digits(n / 10);
        lemma_digit_char_value((n % 10) as int);
        let s = decimal(n);
        assert(s.drop_last() =~= decimal(n / 10));
        assert(s.last() == digit_char((n % 10) as int));
        assert(digits_value(s) == digits_value(decimal(n / 10)) * 10 + (s.last() as int - '0' as int) as nat);
        assert((n / 10) * 10 + n % 10 == n);
        assert forall|i: int| 0 <= i < s.len() implies is_digit(#[trigger] s[i]) by {
            if i < s.len() - 1 {
                assert(s[i] == decimal(n / 10)[i]);
            }
        }
    }
}

/// The decimal notation of a number reads back as that number, whenever it
/// is no greater than the largest value allowed.
pub proof fn law_decimal_reads_back(n: nat, max: nat)
    requires
        n <= max,
    ensures
        unsigned_value(decimal(n), max) == Some(n),
{
    lemma_decimal_digits(n);
    let s = decimal(n);
    assert(s[0] != '+') by {
        assert(is_digit(s[0]));
    }
    assert(unsigned_body(s) == s);
}

/// Reads an unsigned number no greater than `max` from `s`.
pub fn parse_unsigned(s: &str, max: u64) -> (r: Option<u64>)
    ensures
        r matches Some(v) ==> unsigned_value(s@, max as nat) == Some(v as nat),
        r is None ==> unsigned_value(s@, max as nat) is None,
{
    let v = chars_of(s);
    let start: usize = if v.len() > 0 && v[0] == '+' { 1 } else { 0 };
    let ghost b = unsigned_body(s@);
    assert(b =~= v@.skip(start as int));
    if start == v.len() {
        return None;
    }
    let mut value: u64 = 0;
    let mut i: usize = start;
    while i < v.len()
        invariant
            start <= i <= v.len(),
            v@ == s@,
            b == v@.skip(start as int),
            b == unsigned_body(s@),
            value as nat == digits_value(b.take(i - start)),
            value <= max,
            forall|j: int| 0 <= j < i - start ==> is_digit(#[trigger] b[j]),
        decreases v.len() - i,
    {
        let c = v[i];
        let ghost k: int = i - start;
        assert(b[k] == c);
        assert(b.take(k + 1).drop_last() =~= b.take(k));
        assert(b.take(k + 1).last() == c);
        if !('0' <= c && c <= '9') {
            assert(!is_digit(b[k]));
            return None;
        }
        let d: u64 = (c as u32 - 48u32) as u64;
        assert(d as int == c as int - '0' as int);
        let next: u128 = (value as u128) * 10 + (d as u128);
        assert(next as int == digits_value(b.take(k + 1)));
        if next > max as u128 {
            proof {
                if forall|j: int| 0 <= j < b.len() ==> is_digit(#[trigger] b[j]) {
                    lemma_digits_prefix(b, i - start + 1);
                }
            }
            return None;
        }
        value = next as u64;
        i += 1;
    }
    assert(b.take(b.len() as int) =~= b);
    Some(value)
}

// ---------------------------------------------------------------- what an action asks the desktop to do

/// The work on the desktop that an action stands for, with its parameters
/// read; or, for an action that cannot be done, the failed result.
#[derive(Debug)]
pub enum DesktopCommand {
    Shell { command: String },
    OpenApp { name: String },
    GetVolume,
    SetVolume { level: u8 },
    PlayMusic { query: Option<String> },
    PauseMusic,
    NextTrack,
    PrevTrack,
    ListImages { path: Option<String> },
    DesktopPaths,
    ListChats { limit: usize },
    ListContacts,
    SearchContacts { query: String },
    Send { recipient: String, message: String, media_path: String },
    Refused(ActionResult),
}

/// The mathematical form of a [`DesktopCommand`].
pub enum DesktopCommandView {
    Shell { command: Seq<char> },
    OpenApp { name: Seq<char> },
    GetVolume,
    SetVolume { level: u8 },
    PlayMusic { query: Option<Seq<char>> },
    PauseMusic,
    NextTrack,
    PrevTrack,
    ListImages { path: Option<Seq<char>> },
    DesktopPaths,
    ListChats { limit: usize },
    ListContacts,
    SearchContacts { query: Seq<char> },
    Send { recipient: Seq<char>, message: Seq<char>, media_path: Seq<char> },
    Refused { success: bool, output: Seq<char>, error: Seq<char>, action: Seq<char>, params: Seq<(Seq<char>, Seq<char>)> },
}

/// The view of an optional string.
pub open spec fn opt_chars(s: Option<String>) -> Option<Seq<char>> {
    match s {
        Some(x) => Some(x@),
        None => None,
    }
}

impl View for DesktopCommand {
    type V = DesktopCommandView;

    open spec fn view(&self) -> DesktopCommandView {
        match self {
            DesktopCommand::Shell { command } => DesktopCommandView::Shell { command: command@ },
            DesktopCommand::OpenApp { name } => DesktopCommandView::OpenApp { name: name@ },
            DesktopCommand::GetVolume => DesktopCommandView::GetVolume,
            DesktopCommand::SetVolume { level } => DesktopCommandView::SetVolume { level: *level },
            DesktopCommand::PlayMusic { query } => DesktopCommandView::PlayMusic { query: opt_chars(*query) },
            DesktopCommand::PauseMusic => DesktopCommandView::PauseMusic,
            DesktopCommand::NextTrack => DesktopCommandView::NextTrack,
            DesktopCommand::PrevTrack => DesktopCommandView::PrevTrack,
            DesktopCommand::ListImages { path } => DesktopCommandView::ListImages { path: opt_chars(*path) },
            DesktopCommand::DesktopPaths => DesktopCommandView::DesktopPaths,
            DesktopCommand::ListChats { limit } => DesktopCommandView::ListChats { limit: *limit },
            DesktopCommand::ListContacts => DesktopCommandView::ListContacts,
            DesktopCommand::SearchContacts { query } => DesktopCommandView::SearchContacts { query: query@ },
            DesktopCommand::Send { recipient, message, media_path } => DesktopCommandView::Send {
                recipient: recipient@,
                message: message@,
                media_path: media_path@,
            },
            DesktopCommand::Refused(r) => DesktopCommandView::Refused {
                success: r.success,
                output: r.output@,
                error: r.error@,
                action: r.action@,
                params: r.params@,
            },
        }
    }
}

/// A parameter's value, or the empty text when it is missing.
pub open spec fn or_empty(v: Option<Seq<char>>) -> Seq<char> {
    match v {
        Some(x) => x,
        None => seq![],
    }
}

/// A parameter read as a number no greater than `max`, or `default` when it
/// is missing or does not read as one.
pub open spec fn number_or(v: Option<Seq<char>>, max: nat, default: nat) -> nat {
    match v {
        Some(t) => match unsigned_value(t, max) {
            Some(n) => n,
            None => default,
        },
        None => default,
    }
}

/// The failed result of `action` with `error`.
pub open spec fn refusal_of(action: Seq<char>, error: Seq<char>, params: Seq<(Seq<char>, Seq<char>)>) -> DesktopCommandView {
    DesktopCommandView::Refused { success: false, output: seq![], error, action, params }
}

/// What sending asks for: a recipient, and a message or a file (named by
/// `path`, else by `file_path`).
pub open spec fn send_of(action: Seq<char>, p: Seq<(Seq<char>, Seq<char>)>) -> DesktopCommandView {
    let recipient = or_empty(lookup(p, "recipient"@));
    let message = or_empty(lookup(p, "message"@));
    let media_path = match lookup(p, "path"@) {
        Some(x) => x,
        None => or_empty(lookup(p, "file_path"@)),
    };
    if recipient.len() == 0 {
        refusal_of(action, "recipient is required"@, seq![])
    } else if message.len() == 0 && media_path.len() == 0 {
        refusal_of(action, "message or file path is required"@, seq![])
    } else {
        DesktopCommandView::Send { recipient, message, media_path }
    }
}

/// The desktop work that `action` with parameters `p` stands for.
pub open spec fn route_of(action: Seq<char>, p: Seq<(Seq<char>, Seq<char>)>) -> DesktopCommandView {
    if action == "execute_shell"@ {
        DesktopCommandView::Shell { command: or_empty(lookup(p, "command"@)) }
    } else if action == "open_app"@ {
        DesktopCommandView::OpenApp { name: or_empty(lookup(p, "name"@)) }
    } else if action == "get_volume"@ {
        DesktopCommandView::GetVolume
    } else if action == "set_volume"@ {
        DesktopCommandView::SetVolume { level: number_or(lookup(p, "level"@), 255, 50) as u8 }
    } else if action == "play_music"@ {
        DesktopCommandView::PlayMusic { query: lookup(p, "query"@) }
    } else if action == "pause_music"@ {
        DesktopCommandView::PauseMusic
    } else if action == "next_track"@ {
        DesktopCommandView::NextTrack
    } else if action == "prev_track"@ {
        DesktopCommandView::PrevTrack
    } else if action == "list_images"@ {
        DesktopCommandView::ListImages { path: lookup(p, "path"@) }
    } else if action == "get_desktop_paths"@ {
        DesktopCommandView::DesktopPaths
    } else if action == "list_chats"@ {
        DesktopCommandView::ListChats { limit: number_or(lookup(p, "limit"@), usize::MAX as nat, 50) as usize }
    } else if action == "search_contacts"@ {
        let q = or_empty(lookup(p, "query"@));
        if q.len() == 0 {
            DesktopCommandView::ListContacts
        } else {
            DesktopCommandView::SearchContacts { query: q }
        }
    } else if action == "send_message"@ || action == "send_file"@ {
        send_of(action, p)
    } else {
        refusal_of(action, "Unknown action: "@ + action, p)
    }
}

/// Each action reads its parameters under the names the model is told to
/// use: `open_app` launches the app named by `name`, `execute_shell` runs
/// `command`, `play_music` plays `query`, `list_images` lists `path`,
/// `search_contacts` searches for a non-empty `query` (and lists every
/// contact for an empty or missing one), `set_volume` sets a `level` that
/// reads as a number up to 255, `list_chats` lists up to `limit` chats, and
/// a send with a `recipient` and a `message` (and no file) sends that
/// message to that recipient.
pub proof fn law_actions_read_their_parameters(p: Seq<(Seq<char>, Seq<char>)>, v: Seq<char>, w: Seq<char>)
    ensures
        (lookup(p, "name"@) == Some(v) ==> route_of("open_app"@, p) == DesktopCommandView::OpenApp { name: v }),
        (lookup(p, "command"@) == Some(v) ==> route_of("execute_shell"@, p) == DesktopCommandView::Shell { command: v }),
        (lookup(p, "query"@) == Some(v) ==> route_of("play_music"@, p) == DesktopCommandView::PlayMusic { query: Some(v) }),
        (lookup(p, "path"@) == Some(v) ==> route_of("list_images"@, p) == DesktopCommandView::ListImages { path: Some(v) }),
        (lookup(p, "query"@) == Some(v) && v.len() > 0 ==> route_of("search_contacts"@, p) == DesktopCommandView::SearchContacts { query: v }),
        ((lookup(p, "query"@) is None || lookup(p, "query"@) == Some(Seq::<char>::empty())) ==> route_of("search_contacts"@, p) == DesktopCommandView::ListContacts),
        (lookup(p, "level"@) == Some(v) && unsigned_value(v, 255) is Some ==> route_of("set_volume"@, p) == DesktopCommandView::SetVolume { level: unsigned_value(v, 255).unwrap() as u8 }),
        (lookup(p, "limit"@) == Some(v) && unsigned_value(v, usize::MAX as nat) is Some ==> route_of("list_chats"@, p) == DesktopCommandView::ListChats { limit: unsigned_value(v, usize::MAX as nat).unwrap() as usize }),
        (lookup(p, "recipient"@) == Some(v) && v.len() > 0 && lookup(p, "message"@) == Some(w) && w.len() > 0 && lookup(p, "path"@) is None && lookup(p, "file_path"@) is None ==> route_of("send_message"@, p) == DesktopCommandView::Send { recipient: v, message: w, media_path: seq![] }),
{
    reveal_strlit("open_app");
    reveal_strlit("execute_shell");
    reveal_strlit("play_music");
    reveal_strlit("list_images");
    reveal_strlit("search_contacts");
    reveal_strlit("set_volume");
    reveal_strlit("list_chats");
    reveal_strlit("send_message");
    reveal_strlit("get_volume");
    reveal_strlit("pause_music");
    reveal_strlit("next_track");
    reveal_strlit("prev_track");
    reveal_strlit("get_desktop_paths");
    reveal_strlit("send_file");
    assert("open_app"@ != "execute_shell"@) by { assert("open_app"@.len() != "execute_shell"@.len()); }
    assert("play_music"@ != "execute_shell"@) by { assert("play_music"@.len() != "execute_shell"@.len()); }
    assert("play_music"@ != "open_app"@) by { assert("play_music"@.len() != "open_app"@.len()); }
    assert("play_music"@ != "get_volume"@) by { assert("play_music"@[0] != "get_volume"@[0]); }
    assert("play_music"@ != "set_volume"@) by { assert("play_music"@[0] != "set_volume"@[0]); }
    assert("list_images"@ != "execute_shell"@) by { assert("list_images"@.len() != "execute_shell"@.len()); }
    assert("list_images"@ != "open_app"@) by { assert("list_images"@.len() != "open_app"@.len()); }
    assert("list_images"@ != "get_volume"@) by { assert("list_images"@.len() != "get_volume"@.len()); }
    assert("list_images"@ != "set_volume"@) by { assert("list_images"@.len() != "set_volume"@.len()); }
    assert("list_images"@ != "play_music"@) by { assert("list_images"@.len() != "play_music"@.len()); }
    assert("list_images"@ != "pause_music"@) by { assert("list_images"@[0] != "pause_music"@[0]); }
    assert("list_images"@ != "next_track"@) by { assert("list_images"@.len() != "next_track"@.len()); }
    assert("list_images"@ != "prev_track"@) by { assert("list_images"@.len() != "prev_track"@.len()); }
    assert("search_contacts"@ != "execute_shell"@) by { assert("search_contacts"@.len() != "execute_shell"@.len()); }
    assert("search_contacts"@ != "open_app"@) by { assert("search_contacts"@.len() != "open_app"@.len()); }
    assert("search_contacts"@ != "get_volume"@) by { assert("search_contacts"@.len() != "get_volume"@.len()); }
    assert("search_contacts"@ != "set_volume"@) by { assert("search_contacts"@.len() != "set_volume"@.len()); }
    assert("search_contacts"@ != "play_music"@) by { assert("search_contacts"@.len() != "play_music"@.len()); }
    assert("search_contacts"@ != "pause_music"@) by { assert("search_contacts"@.len() != "pause_music"@.len()); }
    assert("search_contacts"@ != "next_track"@) by { assert("search_contacts"@.len() != "next_track"@.len()); }
    assert("search_contacts"@ != "prev_track"@) by { assert("search_contacts"@.len() != "prev_track"@.len()); }
    assert("search_contacts"@ != "list_images"@) by { assert("search_contacts"@.len() != "list_images"@.len()); }
    assert("search_contacts"@ != "get_desktop_paths"@) by { assert("search_contacts"@.len() != "get_desktop_paths"@.len()); }
    assert("search_contacts"@ != "list_chats"@) by { assert("search_contacts"@.len() != "list_chats"@.len()); }
    assert("set_volume"@ != "execute_shell"@) by { assert("set_volume"@.len() != "execute_shell"@.len()); }
    assert("set_volume"@ != "open_app"@) by { assert("set_volume"@.len() != "open_app"@.len()); }
    assert("set_volume"@ != "get_volume"@) by { assert("set_volume"@[0] != "get_volume"@[0]); }
    assert("list_chats"@ != "execute_shell"@) by { assert("list_chats"@.len() != "execute_shell"@.len()); }
    assert("list_chats"@ != "open_app"@) by { assert("list_chats"@.len() != "open_app"@.len()); }
    assert("list_chats"@ != "get_volume"@) by { assert("list_chats"@[0] != "get_volume"@[0]); }
    assert("list_chats"@ != "set_volume"@) by { assert("list_chats"@[0] != "set_volume"@[0]); }
    assert("list_chats"@ != "play_music"@) by { assert("list_chats"@[0] != "play_music"@[0]); }
    assert("list_chats"@ != "pause_music"@) by { assert("list_chats"@.len() != "pause_music"@.len()); }
    assert("list_chats"@ != "next_track"@) by { assert("list_chats"@[0] != "next_track"@[0]); }
    assert("list_chats"@ != "prev_track"@) by { assert("list_chats"@[0] != "prev_track"@[0]); }
    assert("list_chats"@ != "list_images"@) by { assert("list_chats"@.len() != "list_images"@.len()); }
    assert("list_chats"@ != "get_desktop_paths"@) by { assert("list_chats"@.len() != "get_desktop_paths"@.len()); }
    assert("send_message"@ != "execute_shell"@) by { assert("send_message"@.len() != "execute_shell"@.len()); }
    assert("send_message"@ != "open_app"@) by { assert("send_message"@.len() != "open_app"@.len()); }
    assert("send_message"@ != "get_volume"@) by { assert("send_message"@.len() != "get_volume"@.len()); }
    assert("send_message"@ != "set_volume"@) by { assert("send_message"@.len() != "set_volume"@.len()); }
    assert("send_message"@ != "play_music"@) by { assert("send_message"@.len() != "play_music"@.len()); }
    assert("send_message"@ != "pause_music"@) by { assert("send_message"@.len() != "pause_music"@.len()); }
    assert("send_message"@ != "next_track"@) by { assert("send_message"@.len() != "next_track"@.len()); }
    assert("send_message"@ != "prev_track"@) by { assert("send_message"@.len() != "prev_track"@.len()); }
    assert("send_message"@ != "list_images"@) by { assert("send_message"@.len() != "list_images"@.len()); }
    assert("send_message"@ != "get_desktop_paths"@) by { assert("send_message"@.len() != "get_desktop_paths"@.len()); }
    assert("send_message"@ != "list_chats"@) by { assert("send_message"@.len() != "list_chats"@.len()); }
    assert("send_message"@ != "search_contacts"@) by { assert("send_message"@.len() != "search_contacts"@.len()); }
}

fn value_or_empty(p: &ParamMap, key: &str) -> (r: String)
    ensures
        r@ == or_empty(lookup(p@, key@)),
{
    match p.get(key) {
        Some(v) => v.clone(),
        None => String::new(),
    }
}

fn value_opt(p: &ParamMap, key: &str) -> (r: Option<String>)
    ensures
        opt_chars(r) == lookup(p@, key@),
{
    match p.get(key) {
        Some(v) => Some(v.clone()),
        None => None,
    }
}

fn number_param(p: &ParamMap, key: &str, max: u64, default: u64) -> (r: u64)
    requires
        default <= max,
    ensures
        r as nat == number_or(lookup(p@, key@), max as nat, default as nat),
        r <= max,
{
    match p.get(key) {
        Some(v) => match parse_unsigned(v.as_str(), max) {
            Some(n) => n,
            None => default,
        },
        None => default,
    }
}

fn send_command(action: &str, p: &ParamMap) -> (r: DesktopCommand)
    ensures
        r@ == send_of(action@, p@),
{
    let recipient = value_or_empty(p, "recipient");
    let message = value_or_empty(p, "message");
    let media_path = match p.get("path") {
        Some(x) => x.clone(),
        None => value_or_empty(p, "file_path"),
    };
    if recipient.as_str().is_empty() {
        let res = ActionResult::fail(action, "recipient is required");
        assert(res.params@ =~= Seq::<(Seq<char>, Seq<char>)>::empty());
        assert(res.output@ =~= Seq::<char>::empty());
        DesktopCommand::Refused(res)
    } else if message.as_str().is_empty() && media_path.as_str().is_empty() {
        let res = ActionResult::fail(action, "message or file path is required");
        assert(res.params@ =~= Seq::<(Seq<char>, Seq<char>)>::empty());
        assert(res.output@ =~= Seq::<char>::empty());
        DesktopCommand::Refused(res)
    } else {
        DesktopCommand::Send { recipient, message, media_path }
    }
}

/// Reads what `action` with `params` asks the desktop to do: the command
/// and its parameters (a missing text is empty, a volume level or a chat
/// limit that is missing or unreadable is 50), a send without a recipient or
/// without anything to send is refused, and an unknown action is refused.
pub fn route_action(action: &str, params: &ParamMap) -> (r: DesktopCommand)
    ensures
        r@ == route_of(action@, params@),
{
    if str_eq(action, "execute_shell") {
        DesktopCommand::Shell { command: value_or_empty(params, "command") }
    } else if str_eq(action, "open_app") {
        DesktopCommand::OpenApp { name: value_or_empty(params, "name") }
    } else if str_eq(action, "get_volume") {
        DesktopCommand::GetVolume
    } else if str_eq(action, "set_volume") {
        let level = number_param(params, "level", 255, 50);
        DesktopCommand::SetVolume { level: level as u8 }
    } else if str_eq(action, "play_music") {
        DesktopCommand::PlayMusic { query: value_opt(params, "query") }
    } else if str_eq(action, "pause_music") {
        DesktopCommand::PauseMusic
    } else if str_eq(action, "next_track") {
        DesktopCommand::NextTrack
    } else if str_eq(action, "prev_track") {
        DesktopCommand::PrevTrack
    } else if str_eq(action, "list_images") {
        DesktopCommand::ListImages { path: value_opt(params, "path") }
    } else if str_eq(action, "get_desktop_paths") {
        DesktopCommand::DesktopPaths
    } else if str_eq(action, "list_chats") {
        let limit = number_param(params, "limit", usize::MAX as u64, 50);
        DesktopCommand::ListChats { limit: limit as usize }
    } else if str_eq(action, "search_contacts") {
        let q = value_or_empty(params, "query");
        if q.as_str().is_empty() {
            DesktopCommand::ListContacts
        } else {
            DesktopCommand::SearchContacts { query: q }
        }
    } else if str_eq(action, "send_message") || str_eq(action, "send_file") {
        send_command(action, params)
    } else {
        let mut error = owned("Unknown action: ");
        error.append(action);
        DesktopCommand::Refused(ActionResult {
            success: false,
            output: String::new(),
            error,
            action: owned(action),
            params: params.duplicate(),
        })
    }
}

// ---------------------------------------------------------------- sending through the bridge

/// What holds of `r` as the home-directory expansion of `path`, whatever the
/// home directory is: a path that does not start with `~`, or that starts
/// with `~` followed by anything but a path separator, is left as it is; a
/// path that starts with `~` keeps everything after the `~` at its end.
pub open spec fn home_expansion_of(path: Seq<char>, r: Seq<char>) -> bool {
    &&& !(path.len() > 0 && path[0] == '~') ==> r == path
    &&& path.len() > 1 && path[0] == '~' && path[1] != '/' && path[1] != '\\' ==> r == path
    &&& path.len() > 0 && path[0] == '~' ==> r.len() >= path.len() - 1
        && r.subrange(r.len() - (path.len() - 1), r.len() as int) == path.skip(1)
}

/// `shellexpand::tilde`: a leading `~` (alone or before a path separator)
/// becomes the home directory when there is one. The home directory comes
/// from the environment, so only what holds of every outcome is stated.
#[verifier::external_body]
pub(crate) fn expand_home(path: &str) -> (r: String)
    ensures
        home_expansion_of(path@, r@),
{
    shellexpand::tilde(path).to_string()
}

/// The fields of a send request to the bridge: the recipient, the message,
/// and the media path with its `~` expanded, or none when no file is sent.
pub fn bridge_payload(recipient: &str, message: &str, media_path: &str) -> (r: (String, String, Option<String>))
    ensures
        r.0@ == recipient@,
        r.1@ == message@,
        (r.2 is None) <==> media_path@.len() == 0,
        r.2 matches Some(p) ==> home_expansion_of(media_path@, p@),
{
    let media = if media_path.is_empty() {
        None
    } else {
        Some(expand_home(media_path))
    };
    (owned(recipient), owned(message), media)
}

/// The result of a send the bridge answered: sent when it accepted the
/// request, else refused with the status it gave.
pub fn bridge_outcome(action: &str, recipient: &str, accepted: bool, status: &str) -> (r: ActionResult)
    ensures
        r.success == accepted,
        r.action@ == action@,
        r.params@.len() == 0,
        accepted ==> r.output@ == "Sent to "@ + recipient@ && r.error@.len() == 0,
        !accepted ==> r.output@.len() == 0 && r.error@ == "Bridge rejected: "@ + status@,
{
    if accepted {
        let mut output = owned("Sent to ");
        output.append(recipient);
        ActionResult { success: true, output, error: String::new(), action: owned(action), params: ParamMap::new() }
    } else {
        let mut error = owned("Bridge rejected: ");
        error.append(status);
        ActionResult::fail(action, error.as_str())
    }
}

} // verus!
