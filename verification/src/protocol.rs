//! The wire protocol as the client sees it: outgoing commands, inbound
//! events, the frame codec over the JSON module, and the parser that turns
//! raw user input into a command, a chat line, or a validation error.
use chrono::offset::TimeZone;
use chrono::Offset;
use vstd::prelude::*;

use crate::text::{
    ascii_lower, ascii_lower_char, chars_to_string, is_space, is_space_char, push_str_chars,
    str_to_chars,
};

verus! {

/// One connected user, as the server reports it.
#[derive(Debug, Clone, PartialEq)]
pub struct UserInfo {
    pub id: String,
    pub name: String,
    pub ip: String,
}

pub struct UserInfoV {
    pub id: Seq<char>,
    pub name: Seq<char>,
    pub ip: Seq<char>,
}

impl View for UserInfo {
    type V = UserInfoV;

    open spec fn view(&self) -> UserInfoV {
        UserInfoV { id: self.id@, name: self.name@, ip: self.ip@ }
    }
}

/// A command the client can send to the server.
#[derive(Debug, Clone, PartialEq)]
pub enum Outgoing {
    Chat { text: String },
    SetName { name: String },
    Status,
    ListUsers,
    Ping { token: Option<String> },
    Ai { prompt: String },
}

pub enum OutgoingV {
    Chat { text: Seq<char> },
    SetName { name: Seq<char> },
    Status,
    ListUsers,
    Ping { token: Option<Seq<char>> },
    Ai { prompt: Seq<char> },
}

pub open spec fn opt_str_view(o: Option<String>) -> Option<Seq<char>> {
    match o {
        Option::None => Option::None,
        Option::Some(s) => Option::Some(s@),
    }
}

impl View for Outgoing {
    type V = OutgoingV;

    open spec fn view(&self) -> OutgoingV {
        match self {
            Outgoing::Chat { text } => OutgoingV::Chat { text: text@ },
            Outgoing::SetName { name } => OutgoingV::SetName { name: name@ },
            Outgoing::Status => OutgoingV::Status,
            Outgoing::ListUsers => OutgoingV::ListUsers,
            Outgoing::Ping { token } => OutgoingV::Ping { token: opt_str_view(*token) },
            Outgoing::Ai { prompt } => OutgoingV::Ai { prompt: prompt@ },
        }
    }
}

/// An event the server can send. Numeric rate and size gauges keep the
/// number's wire spelling, so that nothing is rounded on the way through.
#[derive(Debug, Clone, PartialEq)]
pub enum Incoming {
    Chat { from: String, text: String, at: Option<u64> },
    System { text: String, at: Option<u64> },
    AckName { name: String, at: Option<u64> },
    Status {
        version: String,
        rust_version: Option<String>,
        os: Option<String>,
        cpu_cores: Option<u64>,
        uptime_seconds: u64,
        user_count: u64,
        peak_users: Option<u64>,
        connections_total: Option<u64>,
        messages_sent: u64,
        messages_per_second: String,
        memory_mb: String,
        ai_enabled: Option<bool>,
        ai_model: Option<String>,
        at: Option<u64>,
    },
    ListUsers { users: Vec<UserInfo>, at: Option<u64> },
    Error { message: String, at: Option<u64> },
    Pong { token: Option<String>, at: Option<u64> },
    Ai {
        from: String,
        prompt: String,
        response: String,
        response_ms: u64,
        tokens: Option<u32>,
        cost: Option<String>,
        at: Option<u64>,
    },
}

pub enum IncomingV {
    Chat { from: Seq<char>, text: Seq<char>, at: Option<u64> },
    System { text: Seq<char>, at: Option<u64> },
    AckName { name: Seq<char>, at: Option<u64> },
    Status {
        version: Seq<char>,
        rust_version: Option<Seq<char>>,
        os: Option<Seq<char>>,
        cpu_cores: Option<u64>,
        uptime_seconds: u64,
        user_count: u64,
        peak_users: Option<u64>,
        connections_total: Option<u64>,
        messages_sent: u64,
        messages_per_second: Seq<char>,
        memory_mb: Seq<char>,
        ai_enabled: Option<bool>,
        ai_model: Option<Seq<char>>,
        at: Option<u64>,
    },
    ListUsers { users: Seq<UserInfoV>, at: Option<u64> },
    Error { message: Seq<char>, at: Option<u64> },
    Pong { token: Option<Seq<char>>, at: Option<u64> },
    Ai {
        from: Seq<char>,
        prompt: Seq<char>,
        response: Seq<char>,
        response_ms: u64,
        tokens: Option<u32>,
        cost: Option<Seq<char>>,
        at: Option<u64>,
    },
}

pub open spec fn users_view(us: Seq<UserInfo>) -> Seq<UserInfoV> {
    Seq::new(us.len(), |k: int| us[k]@)
}

impl View for Incoming {
    type V = IncomingV;

    open spec fn view(&self) -> IncomingV {
        match self {
            Incoming::Chat { from, text, at } => IncomingV::Chat {
                from: from@,
                text: text@,
                at: *at,
            },
            Incoming::System { text, at } => IncomingV::System { text: text@, at: *at },
            Incoming::AckName { name, at } => IncomingV::AckName { name: name@, at: *at },
            Incoming::Status {
                version,
                rust_version,
                os,
                cpu_cores,
                uptime_seconds,
                user_count,
                peak_users,
                connections_total,
                messages_sent,
                messages_per_second,
                memory_mb,
                ai_enabled,
                ai_model,
                at,
            } => IncomingV::Status {
                version: version@,
                rust_version: opt_str_view(*rust_version),
                os: opt_str_view(*os),
                cpu_cores: *cpu_cores,
                uptime_seconds: *uptime_seconds,
                user_count: *user_count,
                peak_users: *peak_users,
                connections_total: *connections_total,
                messages_sent: *messages_sent,
                messages_per_second: messages_per_second@,
                memory_mb: memory_mb@,
                ai_enabled: *ai_enabled,
                ai_model: opt_str_view(*ai_model),
                at: *at,
            },
            Incoming::ListUsers { users, at } => IncomingV::ListUsers {
                users: users_view(users@),
                at: *at,
            },
            Incoming::Error { message, at } => IncomingV::Error { message: message@, at: *at },
            Incoming::Pong { token, at } => IncomingV::Pong {
                token: opt_str_view(*token),
                at: *at,
            },
            Incoming::Ai { from, prompt, response, response_ms, tokens, cost, at } => IncomingV::Ai {
                from: from@,
                prompt: prompt@,
                response: response@,
                response_ms: *response_ms,
                tokens: *tokens,
                cost: opt_str_view(*cost),
                at: *at,
            },
        }
    }
}

/// What the user's raw input line means.
#[derive(Debug, Clone, PartialEq)]
pub enum ParsedInput {
    Empty,
    Error(String),
    Chat(String),
    SetName(String),
    Status,
    ListUsers,
    Ping(Option<String>),
    Ai(String),
}

pub enum ParsedInputV {
    Empty,
    Error(Seq<char>),
    Chat(Seq<char>),
    SetName(Seq<char>),
    Status,
    ListUsers,
    Ping(Option<Seq<char>>),
    Ai(Seq<char>),
}

impl View for ParsedInput {
    type V = ParsedInputV;

    open spec fn view(&self) -> ParsedInputV {
        match self {
            ParsedInput::Empty => ParsedInputV::Empty,
            ParsedInput::Error(m) => ParsedInputV::Error(m@),
            ParsedInput::Chat(t) => ParsedInputV::Chat(t@),
            ParsedInput::SetName(n) => ParsedInputV::SetName(n@),
            ParsedInput::Status => ParsedInputV::Status,
            ParsedInput::ListUsers => ParsedInputV::ListUsers,
            ParsedInput::Ping(t) => ParsedInputV::Ping(opt_str_view(*t)),
            ParsedInput::Ai(p) => ParsedInputV::Ai(p@),
        }
    }
}

// ---------------------------------------------------------------------------
// Input parsing
// ---------------------------------------------------------------------------
/// Longest chat message, in Unicode scalar values.
pub const MAX_CHAT_LEN: usize = 500;

/// Longest prompt a `/ai` command accepts.
pub const MAX_AI_LEN: usize = 1000;

pub open spec fn trim_start_spec(s: Seq<char>) -> Seq<char>
    decreases s.len(),
{
    if s.len() > 0 && is_space_char(s[0]) {
        trim_start_spec(s.drop_first())
    } else {
        s
    }
}

pub open spec fn trim_end_spec(s: Seq<char>) -> Seq<char>
    decreases s.len(),
{
    if s.len() > 0 && is_space_char(s.last()) {
        trim_end_spec(s.drop_last())
    } else {
        s
    }
}

/// The input with leading and trailing whitespace removed.
pub open spec fn trim_spec(s: Seq<char>) -> Seq<char> {
    trim_end_spec(trim_start_spec(s))
}

/// First index at or after `i` holding a plain space, or the length.
pub open spec fn find_space(s: Seq<char>, i: int) -> int
    decreases s.len() - i,
{
    if 0 <= i && i < s.len() {
        if s[i] == ' ' {
            i
        } else {
            find_space(s, i + 1)
        }
    } else {
        s.len() as int
    }
}

pub open spec fn ascii_lower_seq(s: Seq<char>) -> Seq<char> {
    Seq::new(s.len(), |k: int| ascii_lower_char(s[k]))
}

/// Characters a display name may hold.
pub open spec fn is_name_char(c: char) -> bool {
    (48 <= c as u32 && c as u32 <= 57) || (65 <= c as u32 && c as u32 <= 90) || (97 <= c as u32
        && c as u32 <= 122) || c == ' ' || c == '-' || c == '_'
}

pub open spec fn all_name_chars(s: Seq<char>) -> bool {
    forall|k: int| 0 <= k < s.len() ==> is_name_char(#[trigger] s[k])
}

/// What `parse_user_input` answers, stated over the characters of the input:
/// blank input is empty; non-command text is chat, length-checked; a leading
/// slash starts a case-insensitive command word, split from its single
/// argument at the first space, with the exact validation rules and messages
/// of each command.
pub open spec fn parse_input_spec(raw: Seq<char>) -> ParsedInputV {
    let t = trim_spec(raw);
    if t.len() == 0 {
        ParsedInputV::Empty
    } else if t[0] != '/' {
        if t.len() > MAX_CHAT_LEN {
            ParsedInputV::Error("Message is too long (max 500 characters)."@)
        } else {
            ParsedInputV::Chat(t)
        }
    } else {
        let sp = find_space(t, 0);
        let cmd = ascii_lower_seq(t.subrange(0, sp));
        let arg = if sp < t.len() {
            trim_spec(t.subrange(sp + 1, t.len() as int))
        } else {
            Seq::empty()
        };
        if cmd == "/name"@ {
            if arg.len() == 0 {
                ParsedInputV::Error("Usage: /name <new_name>"@)
            } else if !(2 <= arg.len() && arg.len() <= 32) {
                ParsedInputV::Error("Naam moet tussen 2 en 32 tekens zijn."@)
            } else if !all_name_chars(arg) {
                ParsedInputV::Error("Naam mag alleen letters, cijfers, spaties, - en _ bevatten."@)
            } else {
                ParsedInputV::SetName(arg)
            }
        } else if cmd == "/status"@ {
            ParsedInputV::Status
        } else if cmd == "/users"@ {
            ParsedInputV::ListUsers
        } else if cmd == "/ping"@ {
            if arg.len() == 0 {
                ParsedInputV::Ping(Option::None)
            } else {
                ParsedInputV::Ping(Option::Some(arg))
            }
        } else if cmd == "/ai"@ {
            if arg.len() == 0 {
                ParsedInputV::Error("Usage: /ai <question>"@)
            } else if arg.len() > MAX_AI_LEN {
                ParsedInputV::Error("Vraag is te lang (max 1000 tekens)."@)
            } else {
                ParsedInputV::Ai(arg)
            }
        } else {
            ParsedInputV::Error("Unknown command: "@ + cmd)
        }
    }
}

/// Trims `s` in place of the recursive definition: the trimmed text is the
/// subrange `[a, b)` the two loops settle on.
pub fn trim_chars(s: &Vec<char>) -> (r: Vec<char>)
    ensures
        r@ == trim_spec(s@),
{
    let n = s.len();
    let mut a: usize = 0;
    proof {
        assert(s@.subrange(0, n as int) =~= s@);
    }
    while a < n && is_space(s[a])
        invariant
            a <= n,
            n == s@.len(),
            trim_start_spec(s@) == trim_start_spec(s@.subrange(a as int, n as int)),
        decreases n - a,
    {
        proof {
            assert(s@.subrange(a as int, n as int).drop_first() =~= s@.subrange(
                a + 1 as int,
                n as int,
            ));
        }
        a = a + 1;
    }
    proof {
        if a == n {
            assert(s@.subrange(a as int, n as int).len() == 0);
        }
        assert(trim_start_spec(s@) == s@.subrange(a as int, n as int));
    }
    let mut b: usize = n;
    while b > a && is_space(s[b - 1])
        invariant
            a <= b <= n,
            n == s@.len(),
            trim_start_spec(s@) == s@.subrange(a as int, n as int),
            trim_end_spec(s@.subrange(a as int, n as int)) == trim_end_spec(
                s@.subrange(a as int, b as int),
            ),
        decreases b,
    {
        proof {
            assert(s@.subrange(a as int, b as int).last() == s@[b - 1]);
            assert(s@.subrange(a as int, b as int).drop_last() =~= s@.subrange(
                a as int,
                b - 1 as int,
            ));
        }
        b = b - 1;
    }
    proof {
        if b == a {
            assert(s@.subrange(a as int, b as int).len() == 0);
        }
        assert(trim_end_spec(s@.subrange(a as int, b as int)) == s@.subrange(a as int, b as int));
    }
    crate::json::vec_slice(s, a, b)
}

fn find_space_exec(s: &Vec<char>, i: usize) -> (r: usize)
    requires
        i <= s.len(),
    ensures
        i <= r <= s.len(),
        r as int == find_space(s@, i as int),
{
    let mut k = i;
    while k < s.len() && s[k] != ' '
        invariant
            i <= k <= s.len(),
            find_space(s@, i as int) == find_space(s@, k as int),
        decreases s.len() - k,
    {
        k = k + 1;
    }
    k
}

/// Whether two character vectors hold the same characters.
pub fn chars_eq(a: &Vec<char>, b: &Vec<char>) -> (r: bool)
    ensures
        r == (a@ == b@),
{
    if a.len() != b.len() {
        return false;
    }
    let n = a.len();
    let mut k: usize = 0;
    while k < n
        invariant
            k <= n,
            n == a@.len() == b@.len(),
            forall|m: int| 0 <= m < k ==> a@[m] == b@[m],
        decreases n - k,
    {
        if a[k] != b[k] {
            return false;
        }
        k = k + 1;
    }
    proof {
        assert(a@ =~= b@);
    }
    true
}

/// Whether `v` holds exactly the characters of `s`.
fn chars_eq_lit(v: &Vec<char>, s: &str) -> (r: bool)
    ensures
        r == (v@ == s@),
{
    let lit = str_to_chars(s);
    chars_eq(v, &lit)
}

fn lower_chars(v: &Vec<char>) -> (r: Vec<char>)
    ensures
        r@ == ascii_lower_seq(v@),
{
    let n = v.len();
    let mut out: Vec<char> = Vec::new();
    let mut k: usize = 0;
    while k < n
        invariant
            k <= n,
            n == v@.len(),
            out@.len() == k,
            forall|m: int| 0 <= m < k ==> out@[m] == ascii_lower_char(v@[m]),
        decreases n - k,
    {
        out.push(ascii_lower(v[k]));
        k = k + 1;
    }
    proof {
        assert(out@ =~= ascii_lower_seq(v@));
    }
    out
}

fn is_name_char_exec(c: char) -> (r: bool)
    ensures
        r == is_name_char(c),
{
    let n = c as u32;
    (48 <= n && n <= 57) || (65 <= n && n <= 90) || (97 <= n && n <= 122) || c == ' ' || c == '-'
        || c == '_'
}

fn all_name_chars_exec(v: &Vec<char>) -> (r: bool)
    ensures
        r == all_name_chars(v@),
{
    let n = v.len();
    let mut k: usize = 0;
    while k < n
        invariant
            k <= n,
            n == v@.len(),
            forall|m: int| 0 <= m < k ==> is_name_char(#[trigger] v@[m]),
        decreases n - k,
    {
        if !is_name_char_exec(v[k]) {
            return false;
        }
        k = k + 1;
    }
    true
}

fn err_input(msg: &str) -> (r: ParsedInput)
    ensures
        r@ == ParsedInputV::Error(msg@),
{
    let v = str_to_chars(msg);
    ParsedInput::Error(chars_to_string(&v))
}

/// Reads one line of user input: blank input, a chat line with its length
/// limit, or one of the slash commands with its exact validation rules.
pub fn parse_user_input(input: &str) -> (r: ParsedInput)
    ensures
        r@ == parse_input_spec(input@),
{
    let chars = str_to_chars(input);
    let t = trim_chars(&chars);
    if t.len() == 0 {
        return ParsedInput::Empty;
    }
    if t[0] != '/' {
        if t.len() > MAX_CHAT_LEN {
            return err_input("Message is too long (max 500 characters).");
        }
        return ParsedInput::Chat(chars_to_string(&t));
    }
    let sp = find_space_exec(&t, 0);
    let cmd = lower_chars(&crate::json::vec_slice(&t, 0, sp));
    let arg = if sp < t.len() {
        trim_chars(&crate::json::vec_slice(&t, sp + 1, t.len()))
    } else {
        Vec::new()
    };
    proof {
        if !(sp < t@.len()) {
            assert(arg@ =~= Seq::<char>::empty());
        }
    }
    if chars_eq_lit(&cmd, "/name") {
        if arg.len() == 0 {
            err_input("Usage: /name <new_name>")
        } else if !(2 <= arg.len() && arg.len() <= 32) {
            err_input("Naam moet tussen 2 en 32 tekens zijn.")
        } else if !all_name_chars_exec(&arg) {
            err_input("Naam mag alleen letters, cijfers, spaties, - en _ bevatten.")
        } else {
            ParsedInput::SetName(chars_to_string(&arg))
        }
    } else if chars_eq_lit(&cmd, "/status") {
        ParsedInput::Status
    } else if chars_eq_lit(&cmd, "/users") {
        ParsedInput::ListUsers
    } else if chars_eq_lit(&cmd, "/ping") {
        if arg.len() == 0 {
            ParsedInput::Ping(None)
        } else {
            ParsedInput::Ping(Some(chars_to_string(&arg)))
        }
    } else if chars_eq_lit(&cmd, "/ai") {
        if arg.len() == 0 {
            err_input("Usage: /ai <question>")
        } else if arg.len() > MAX_AI_LEN {
            err_input("Vraag is te lang (max 1000 tekens).")
        } else {
            ParsedInput::Ai(chars_to_string(&arg))
        }
    } else {
        let mut msg = str_to_chars("Unknown command: ");
        crate::text::push_chars(&mut msg, &cmd);
        ParsedInput::Error(chars_to_string(&msg))
    }
}

/// Whether a name is a server-assigned guest name: after trimming and ASCII
/// lower-casing it starts with `guest-`.
pub open spec fn is_guest_name_spec(s: Seq<char>) -> bool {
    let t = ascii_lower_seq(trim_spec(s));
    t.len() >= 6 && t.subrange(0, 6) == "guest-"@
}

pub fn is_guest_name(name: &str) -> (r: bool)
    ensures
        r == is_guest_name_spec(name@),
{
    let chars = str_to_chars(name);
    let t = lower_chars(&trim_chars(&chars));
    if t.len() < 6 {
        return false;
    }
    let head = crate::json::vec_slice(&t, 0, 6);
    chars_eq_lit(&head, "guest-")
}


// ---------------------------------------------------------------------------
// Frame decoding
// ---------------------------------------------------------------------------
use crate::json::{
    json_from_chars, membs_view, num_as_u64, obj_get, parse_json, JsonV, JsonValue,
};

/// What decoding one wire frame yields: a typed event, or one of the three
/// non-fatal degradations the forward-compatibility contract demands.
#[derive(Debug, Clone, PartialEq)]
pub enum DecodeResult {
    Event(Incoming),
    UnrecognizedVariant(String),
    MissingDiscriminant,
    MalformedPayload,
}

pub enum DecodeResultV {
    Event(IncomingV),
    UnrecognizedVariant(Seq<char>),
    MissingDiscriminant,
    MalformedPayload,
}

impl View for DecodeResult {
    type V = DecodeResultV;

    open spec fn view(&self) -> DecodeResultV {
        match self {
            DecodeResult::Event(e) => DecodeResultV::Event(e@),
            DecodeResult::UnrecognizedVariant(tg) => DecodeResultV::UnrecognizedVariant(tg@),
            DecodeResult::MissingDiscriminant => DecodeResultV::MissingDiscriminant,
            DecodeResult::MalformedPayload => DecodeResultV::MalformedPayload,
        }
    }
}

/// A mandatory string field.
pub open spec fn req_str(ms: Seq<(Seq<char>, JsonV)>, key: Seq<char>) -> Option<Seq<char>> {
    match obj_get(ms, key) {
        Option::Some(JsonV::Str(t)) => Option::Some(t),
        _ => Option::None,
    }
}

/// A mandatory unsigned integer field.
pub open spec fn req_u64(ms: Seq<(Seq<char>, JsonV)>, key: Seq<char>) -> Option<u64> {
    match obj_get(ms, key) {
        Option::Some(JsonV::Num(lex)) => num_as_u64(lex),
        _ => Option::None,
    }
}

/// A mandatory numeric field, kept as its wire spelling.
pub open spec fn req_num_lex(ms: Seq<(Seq<char>, JsonV)>, key: Seq<char>) -> Option<Seq<char>> {
    match obj_get(ms, key) {
        Option::Some(JsonV::Num(lex)) => Option::Some(lex),
        _ => Option::None,
    }
}

/// An optional string field: absent or null reads as `None`; any other
/// non-string value is a type error (outer `None`).
pub open spec fn opt_str(ms: Seq<(Seq<char>, JsonV)>, key: Seq<char>) -> Option<
    Option<Seq<char>>,
> {
    match obj_get(ms, key) {
        Option::None => Option::Some(Option::None),
        Option::Some(JsonV::Null) => Option::Some(Option::None),
        Option::Some(JsonV::Str(t)) => Option::Some(Option::Some(t)),
        _ => Option::None,
    }
}

pub open spec fn opt_u64(ms: Seq<(Seq<char>, JsonV)>, key: Seq<char>) -> Option<Option<u64>> {
    match obj_get(ms, key) {
        Option::None => Option::Some(Option::None),
        Option::Some(JsonV::Null) => Option::Some(Option::None),
        Option::Some(JsonV::Num(lex)) => match num_as_u64(lex) {
            Option::Some(n) => Option::Some(Option::Some(n)),
            Option::None => Option::None,
        },
        _ => Option::None,
    }
}

pub open spec fn opt_u32(ms: Seq<(Seq<char>, JsonV)>, key: Seq<char>) -> Option<Option<u32>> {
    match opt_u64(ms, key) {
        Option::Some(Option::Some(n)) => if n <= 0xFFFFFFFF {
            Option::Some(Option::Some(n as u32))
        } else {
            Option::None
        },
        Option::Some(Option::None) => Option::Some(Option::None),
        Option::None => Option::None,
    }
}

pub open spec fn opt_bool(ms: Seq<(Seq<char>, JsonV)>, key: Seq<char>) -> Option<Option<bool>> {
    match obj_get(ms, key) {
        Option::None => Option::Some(Option::None),
        Option::Some(JsonV::Null) => Option::Some(Option::None),
        Option::Some(JsonV::Bool(b)) => Option::Some(Option::Some(b)),
        _ => Option::None,
    }
}

pub open spec fn opt_num_lex(ms: Seq<(Seq<char>, JsonV)>, key: Seq<char>) -> Option<
    Option<Seq<char>>,
> {
    match obj_get(ms, key) {
        Option::None => Option::Some(Option::None),
        Option::Some(JsonV::Null) => Option::Some(Option::None),
        Option::Some(JsonV::Num(lex)) => Option::Some(Option::Some(lex)),
        _ => Option::None,
    }
}

/// One entry of a user list: an object with the three identity strings.
pub open spec fn user_of(v: JsonV) -> Option<UserInfoV> {
    match v {
        JsonV::Obj(ms) => match (req_str(ms, "id"@), req_str(ms, "name"@), req_str(ms, "ip"@)) {
            (Option::Some(id), Option::Some(name), Option::Some(ip)) => Option::Some(
                UserInfoV { id: id, name: name, ip: ip },
            ),
            _ => Option::None,
        },
        _ => Option::None,
    }
}

pub open spec fn users_of(es: Seq<JsonV>) -> Option<Seq<UserInfoV>>
    decreases es.len(),
{
    if es.len() == 0 {
        Option::Some(Seq::empty())
    } else {
        match (user_of(es[0]), users_of(es.drop_first())) {
            (Option::Some(u), Option::Some(rest)) => Option::Some(seq![u] + rest),
            _ => Option::None,
        }
    }
}

/// The event a frame with a known discriminant carries, when every field
/// fits its place; a frame whose fields do not fit degrades to
/// `UnrecognizedVariant`, exactly as an unknown discriminant does.
pub open spec fn interp_tagged(ms: Seq<(Seq<char>, JsonV)>, tg: Seq<char>) -> DecodeResultV {
    if tg == "chat"@ {
        match (req_str(ms, "from"@), req_str(ms, "text"@), opt_u64(ms, "at"@)) {
            (Option::Some(from), Option::Some(text), Option::Some(at)) => DecodeResultV::Event(
                IncomingV::Chat { from: from, text: text, at: at },
            ),
            _ => DecodeResultV::UnrecognizedVariant(tg),
        }
    } else if tg == "system"@ {
        match (req_str(ms, "text"@), opt_u64(ms, "at"@)) {
            (Option::Some(text), Option::Some(at)) => DecodeResultV::Event(
                IncomingV::System { text: text, at: at },
            ),
            _ => DecodeResultV::UnrecognizedVariant(tg),
        }
    } else if tg == "ackName"@ {
        match (req_str(ms, "name"@), opt_u64(ms, "at"@)) {
            (Option::Some(name), Option::Some(at)) => DecodeResultV::Event(
                IncomingV::AckName { name: name, at: at },
            ),
            _ => DecodeResultV::UnrecognizedVariant(tg),
        }
    } else if tg == "status"@ {
        match (req_str(ms, "version"@), opt_str(ms, "rustVersion"@), opt_str(ms, "os"@), opt_u64(
            ms,
            "cpuCores"@,
        ), req_u64(ms, "uptimeSeconds"@), req_u64(ms, "userCount"@), opt_u64(ms, "peakUsers"@),
            opt_u64(ms, "connectionsTotal"@), req_u64(ms, "messagesSent"@), req_num_lex(
            ms,
            "messagesPerSecond"@,
        ), req_num_lex(ms, "memoryMb"@), opt_bool(ms, "aiEnabled"@), opt_str(ms, "aiModel"@),
            opt_u64(ms, "at"@)) {
            (
                Option::Some(version),
                Option::Some(rust_version),
                Option::Some(os),
                Option::Some(cpu_cores),
                Option::Some(uptime_seconds),
                Option::Some(user_count),
                Option::Some(peak_users),
                Option::Some(connections_total),
                Option::Some(messages_sent),
                Option::Some(messages_per_second),
                Option::Some(memory_mb),
                Option::Some(ai_enabled),
                Option::Some(ai_model),
                Option::Some(at),
            ) => DecodeResultV::Event(
                IncomingV::Status {
                    version: version,
                    rust_version: rust_version,
                    os: os,
                    cpu_cores: cpu_cores,
                    uptime_seconds: uptime_seconds,
                    user_count: user_count,
                    peak_users: peak_users,
                    connections_total: connections_total,
                    messages_sent: messages_sent,
                    messages_per_second: messages_per_second,
                    memory_mb: memory_mb,
                    ai_enabled: ai_enabled,
                    ai_model: ai_model,
                    at: at,
                },
            ),
            _ => DecodeResultV::UnrecognizedVariant(tg),
        }
    } else if tg == "listUsers"@ {
        match (obj_get(ms, "users"@), opt_u64(ms, "at"@)) {
            (Option::Some(JsonV::Arr(es)), Option::Some(at)) => match users_of(es) {
                Option::Some(users) => DecodeResultV::Event(
                    IncomingV::ListUsers { users: users, at: at },
                ),
                Option::None => DecodeResultV::UnrecognizedVariant(tg),
            },
            _ => DecodeResultV::UnrecognizedVariant(tg),
        }
    } else if tg == "error"@ {
        match (req_str(ms, "message"@), opt_u64(ms, "at"@)) {
            (Option::Some(message), Option::Some(at)) => DecodeResultV::Event(
                IncomingV::Error { message: message, at: at },
            ),
            _ => DecodeResultV::UnrecognizedVariant(tg),
        }
    } else if tg == "pong"@ {
        match (opt_str(ms, "token"@), opt_u64(ms, "at"@)) {
            (Option::Some(token), Option::Some(at)) => DecodeResultV::Event(
                IncomingV::Pong { token: token, at: at },
            ),
            _ => DecodeResultV::UnrecognizedVariant(tg),
        }
    } else if tg == "ai"@ {
        match (req_str(ms, "from"@), req_str(ms, "prompt"@), req_str(ms, "response"@), req_u64(
            ms,
            "responseMs"@,
        ), opt_u32(ms, "tokens"@), opt_num_lex(ms, "cost"@), opt_u64(ms, "at"@)) {
            (
                Option::Some(from),
                Option::Some(prompt),
                Option::Some(response),
                Option::Some(response_ms),
                Option::Some(tokens),
                Option::Some(cost),
                Option::Some(at),
            ) => DecodeResultV::Event(
                IncomingV::Ai {
                    from: from,
                    prompt: prompt,
                    response: response,
                    response_ms: response_ms,
                    tokens: tokens,
                    cost: cost,
                    at: at,
                },
            ),
            _ => DecodeResultV::UnrecognizedVariant(tg),
        }
    } else {
        DecodeResultV::UnrecognizedVariant(tg)
    }
}

/// A frame that is a JSON object with a string `type` field is interpreted
/// by its discriminant; any other object lacks a discriminant.
pub open spec fn interp_obj(ms: Seq<(Seq<char>, JsonV)>) -> DecodeResultV {
    match obj_get(ms, "type"@) {
        Option::Some(JsonV::Str(tg)) => interp_tagged(ms, tg),
        _ => DecodeResultV::MissingDiscriminant,
    }
}

/// What decoding a whole frame text yields: text that is not well-formed
/// JSON is a malformed payload; well-formed JSON that is not an object with
/// a string discriminant misses its discriminant; the rest goes by the
/// discriminant.
pub open spec fn decode_spec(s: Seq<char>) -> DecodeResultV {
    match parse_json(s) {
        Option::None => DecodeResultV::MalformedPayload,
        Option::Some(JsonV::Obj(ms)) => interp_obj(ms),
        Option::Some(_) => DecodeResultV::MissingDiscriminant,
    }
}

fn obj_get_exec<'a>(ms: &'a Vec<(Vec<char>, JsonValue)>, key: &Vec<char>) -> (r: Option<
    &'a JsonValue,
>)
    ensures
        (match r {
            Option::None => obj_get(membs_view(ms@), key@) is None,
            Option::Some(v) => obj_get(membs_view(ms@), key@) == Option::Some(v@),
        }),
{
    let ghost mvs = membs_view(ms@);
    let n = ms.len();
    let mut k: usize = 0;
    proof {
        assert(mvs.subrange(0, n as int) =~= mvs);
    }
    while k < n
        invariant
            k <= n,
            n == ms@.len(),
            mvs == membs_view(ms@),
            mvs.len() == n,
            obj_get(mvs, key@) == obj_get(mvs.subrange(k as int, n as int), key@),
        decreases n - k,
    {
        proof {
            assert(mvs.subrange(k as int, n as int)[0] == mvs[k as int]);
            assert(mvs.subrange(k as int, n as int).drop_first() =~= mvs.subrange(
                k + 1 as int,
                n as int,
            ));
        }
        let m = &ms[k];
        if chars_eq(&m.0, key) {
            return Some(&m.1);
        }
        k = k + 1;
    }
    proof {
        assert(mvs.subrange(n as int, n as int).len() == 0);
    }
    None
}

fn get_field<'a>(ms: &'a Vec<(Vec<char>, JsonValue)>, key: &str) -> (r: Option<&'a JsonValue>)
    ensures
        (match r {
            Option::None => obj_get(membs_view(ms@), key@) is None,
            Option::Some(v) => obj_get(membs_view(ms@), key@) == Option::Some(v@),
        }),
{
    let kv = str_to_chars(key);
    obj_get_exec(ms, &kv)
}

fn get_str_chars(ms: &Vec<(Vec<char>, JsonValue)>, key: &str) -> (r: Option<Vec<char>>)
    ensures
        (match r {
            Option::None => req_str(membs_view(ms@), key@) is None,
            Option::Some(t) => req_str(membs_view(ms@), key@) == Option::Some(t@),
        }),
{
    match get_field(ms, key) {
        Option::Some(JsonValue::Str(t)) => Some(t.clone()),
        _ => None,
    }
}

pub fn get_str_field(ms: &Vec<(Vec<char>, JsonValue)>, key: &str) -> (r: Option<String>)
    ensures
        (match r {
            Option::None => req_str(membs_view(ms@), key@) is None,
            Option::Some(t) => req_str(membs_view(ms@), key@) == Option::Some(t@),
        }),
{
    match get_str_chars(ms, key) {
        Option::Some(t) => Some(chars_to_string(&t)),
        Option::None => None,
    }
}

fn get_u64(ms: &Vec<(Vec<char>, JsonValue)>, key: &str) -> (r: Option<u64>)
    ensures
        r == req_u64(membs_view(ms@), key@),
{
    match get_field(ms, key) {
        Option::Some(JsonValue::Num(lex)) => crate::json::lex_to_u64(lex),
        _ => None,
    }
}

fn get_num_lex(ms: &Vec<(Vec<char>, JsonValue)>, key: &str) -> (r: Option<String>)
    ensures
        (match r {
            Option::None => req_num_lex(membs_view(ms@), key@) is None,
            Option::Some(t) => req_num_lex(membs_view(ms@), key@) == Option::Some(t@),
        }),
{
    match get_field(ms, key) {
        Option::Some(JsonValue::Num(lex)) => Some(chars_to_string(lex)),
        _ => None,
    }
}

fn get_opt_str(ms: &Vec<(Vec<char>, JsonValue)>, key: &str) -> (r: Option<Option<String>>)
    ensures
        (match r {
            Option::None => opt_str(membs_view(ms@), key@) is None,
            Option::Some(o) => opt_str(membs_view(ms@), key@) == Option::Some(opt_str_view(o)),
        }),
{
    match get_field(ms, key) {
        Option::None => Some(None),
        Option::Some(JsonValue::Null) => Some(None),
        Option::Some(JsonValue::Str(t)) => Some(Some(chars_to_string(t))),
        _ => None,
    }
}

fn get_opt_u64(ms: &Vec<(Vec<char>, JsonValue)>, key: &str) -> (r: Option<Option<u64>>)
    ensures
        r == opt_u64(membs_view(ms@), key@),
{
    match get_field(ms, key) {
        Option::None => Some(None),
        Option::Some(JsonValue::Null) => Some(None),
        Option::Some(JsonValue::Num(lex)) => match crate::json::lex_to_u64(lex) {
            Option::Some(n) => Some(Some(n)),
            Option::None => None,
        },
        _ => None,
    }
}

fn get_opt_u32(ms: &Vec<(Vec<char>, JsonValue)>, key: &str) -> (r: Option<Option<u32>>)
    ensures
        r == opt_u32(membs_view(ms@), key@),
{
    match get_opt_u64(ms, key) {
        Option::Some(Option::Some(n)) => if n <= 0xFFFFFFFF {
            Some(Some(n as u32))
        } else {
            None
        },
        Option::Some(Option::None) => Some(None),
        Option::None => None,
    }
}

fn get_opt_bool(ms: &Vec<(Vec<char>, JsonValue)>, key: &str) -> (r: Option<Option<bool>>)
    ensures
        r == opt_bool(membs_view(ms@), key@),
{
    match get_field(ms, key) {
        Option::None => Some(None),
        Option::Some(JsonValue::Null) => Some(None),
        Option::Some(JsonValue::Bool(b)) => Some(Some(*b)),
        _ => None,
    }
}

fn get_opt_num_lex(ms: &Vec<(Vec<char>, JsonValue)>, key: &str) -> (r: Option<Option<String>>)
    ensures
        (match r {
            Option::None => opt_num_lex(membs_view(ms@), key@) is None,
            Option::Some(o) => opt_num_lex(membs_view(ms@), key@) == Option::Some(opt_str_view(o)),
        }),
{
    match get_field(ms, key) {
        Option::None => Some(None),
        Option::Some(JsonValue::Null) => Some(None),
        Option::Some(JsonValue::Num(lex)) => Some(Some(chars_to_string(lex))),
        _ => None,
    }
}

fn user_of_exec(v: &JsonValue) -> (r: Option<UserInfo>)
    ensures
        (match r {
            Option::None => user_of(v@) is None,
            Option::Some(u) => user_of(v@) == Option::Some(u@),
        }),
{
    match v {
        JsonValue::Obj(ms) => {
            let id = get_str_field(ms, "id");
            let name = get_str_field(ms, "name");
            let ip = get_str_field(ms, "ip");
            match (id, name, ip) {
                (Option::Some(id), Option::Some(name), Option::Some(ip)) => Some(
                    UserInfo { id, name, ip },
                ),
                _ => None,
            }
        },
        _ => None,
    }
}

fn users_of_exec(es: &Vec<JsonValue>, k: usize) -> (r: Option<Vec<UserInfo>>)
    requires
        k <= es.len(),
    ensures
        (match r {
            Option::None => users_of(crate::json::elems_view(es@).subrange(k as int, es@.len() as int))
                is None,
            Option::Some(us) => users_of(
                crate::json::elems_view(es@).subrange(k as int, es@.len() as int),
            ) == Option::Some(users_view(us@)),
        }),
    decreases es.len() - k,
{
    let ghost evs = crate::json::elems_view(es@);
    if k == es.len() {
        let us: Vec<UserInfo> = Vec::new();
        proof {
            assert(evs.subrange(k as int, evs.len() as int) =~= Seq::<JsonV>::empty());
            assert(users_view(us@) =~= Seq::<UserInfoV>::empty());
        }
        return Some(us);
    }
    proof {
        assert(evs.subrange(k as int, evs.len() as int)[0] == evs[k as int]);
        assert(evs.subrange(k as int, evs.len() as int).drop_first() =~= evs.subrange(
            k + 1 as int,
            evs.len() as int,
        ));
    }
    match user_of_exec(&es[k]) {
        Option::None => None,
        Option::Some(u) => {
            match users_of_exec(es, k + 1) {
                Option::None => None,
                Option::Some(rest) => {
                    let ghost rest_snap = rest@;
                    let mut us = rest;
                    us.insert(0, u);
                    proof {
                        assert(users_view(us@) =~= seq![u@] + users_view(rest_snap));
                    }
                    Some(us)
                },
            }
        },
    }
}

/// Interprets one frame object by its discriminant.
#[verifier::rlimit(30)]
fn interp_obj_exec(ms: &Vec<(Vec<char>, JsonValue)>) -> (r: DecodeResult)
    ensures
        r@ == interp_obj(membs_view(ms@)),
{
    let tag = match get_str_chars(ms, "type") {
        Option::Some(t) => t,
        Option::None => {
            return DecodeResult::MissingDiscriminant;
        },
    };
    if chars_eq_lit(&tag, "chat") {
        match (get_str_field(ms, "from"), get_str_field(ms, "text"), get_opt_u64(ms, "at")) {
            (Option::Some(from), Option::Some(text), Option::Some(at)) => DecodeResult::Event(
                Incoming::Chat { from, text, at },
            ),
            _ => DecodeResult::UnrecognizedVariant(chars_to_string(&tag)),
        }
    } else if chars_eq_lit(&tag, "system") {
        match (get_str_field(ms, "text"), get_opt_u64(ms, "at")) {
            (Option::Some(text), Option::Some(at)) => DecodeResult::Event(
                Incoming::System { text, at },
            ),
            _ => DecodeResult::UnrecognizedVariant(chars_to_string(&tag)),
        }
    } else if chars_eq_lit(&tag, "ackName") {
        match (get_str_field(ms, "name"), get_opt_u64(ms, "at")) {
            (Option::Some(name), Option::Some(at)) => DecodeResult::Event(
                Incoming::AckName { name, at },
            ),
            _ => DecodeResult::UnrecognizedVariant(chars_to_string(&tag)),
        }
    } else if chars_eq_lit(&tag, "status") {
        match (get_str_field(ms, "version"), get_opt_str(ms, "rustVersion"), get_opt_str(ms, "os"),
            get_opt_u64(ms, "cpuCores"), get_u64(ms, "uptimeSeconds"), get_u64(ms, "userCount"),
            get_opt_u64(ms, "peakUsers"), get_opt_u64(ms, "connectionsTotal"), get_u64(
            ms,
            "messagesSent",
        ), get_num_lex(ms, "messagesPerSecond"), get_num_lex(ms, "memoryMb"), get_opt_bool(
            ms,
            "aiEnabled",
        ), get_opt_str(ms, "aiModel"), get_opt_u64(ms, "at")) {
            (
                Option::Some(version),
                Option::Some(rust_version),
                Option::Some(os),
                Option::Some(cpu_cores),
                Option::Some(uptime_seconds),
                Option::Some(user_count),
                Option::Some(peak_users),
                Option::Some(connections_total),
                Option::Some(messages_sent),
                Option::Some(messages_per_second),
                Option::Some(memory_mb),
                Option::Some(ai_enabled),
                Option::Some(ai_model),
                Option::Some(at),
            ) => DecodeResult::Event(
                Incoming::Status {
                    version,
                    rust_version,
                    os,
                    cpu_cores,
                    uptime_seconds,
                    user_count,
                    peak_users,
                    connections_total,
                    messages_sent,
                    messages_per_second,
                    memory_mb,
                    ai_enabled,
                    ai_model,
                    at,
                },
            ),
            _ => DecodeResult::UnrecognizedVariant(chars_to_string(&tag)),
        }
    } else if chars_eq_lit(&tag, "listUsers") {
        match (get_field(ms, "users"), get_opt_u64(ms, "at")) {
            (Option::Some(JsonValue::Arr(es)), Option::Some(at)) => {
                proof {
                    assert(crate::json::elems_view(es@).subrange(
                        0,
                        crate::json::elems_view(es@).len() as int,
                    ) =~= crate::json::elems_view(es@));
                }
                match users_of_exec(es, 0) {
                    Option::Some(users) => DecodeResult::Event(Incoming::ListUsers { users, at }),
                    Option::None => DecodeResult::UnrecognizedVariant(chars_to_string(&tag)),
                }
            },
            _ => DecodeResult::UnrecognizedVariant(chars_to_string(&tag)),
        }
    } else if chars_eq_lit(&tag, "error") {
        match (get_str_field(ms, "message"), get_opt_u64(ms, "at")) {
            (Option::Some(message), Option::Some(at)) => DecodeResult::Event(
                Incoming::Error { message, at },
            ),
            _ => DecodeResult::UnrecognizedVariant(chars_to_string(&tag)),
        }
    } else if chars_eq_lit(&tag, "pong") {
        match (get_opt_str(ms, "token"), get_opt_u64(ms, "at")) {
            (Option::Some(token), Option::Some(at)) => DecodeResult::Event(
                Incoming::Pong { token, at },
            ),
            _ => DecodeResult::UnrecognizedVariant(chars_to_string(&tag)),
        }
    } else if chars_eq_lit(&tag, "ai") {
        match (get_str_field(ms, "from"), get_str_field(ms, "prompt"), get_str_field(ms, "response"), get_u64(
            ms,
            "responseMs",
        ), get_opt_u32(ms, "tokens"), get_opt_num_lex(ms, "cost"), get_opt_u64(ms, "at")) {
            (
                Option::Some(from),
                Option::Some(prompt),
                Option::Some(response),
                Option::Some(response_ms),
                Option::Some(tokens),
                Option::Some(cost),
                Option::Some(at),
            ) => DecodeResult::Event(
                Incoming::Ai { from, prompt, response, response_ms, tokens, cost, at },
            ),
            _ => DecodeResult::UnrecognizedVariant(chars_to_string(&tag)),
        }
    } else {
        DecodeResult::UnrecognizedVariant(chars_to_string(&tag))
    }
}

/// Decodes one frame of wire text. Never panics, whatever the server sent:
/// text that is not a recognizable event degrades to one of the non-fatal
/// outcomes.
pub fn decode_frame(text: &str) -> (r: DecodeResult)
    ensures
        r@ == decode_spec(text@),
{
    let chars = str_to_chars(text);
    match json_from_chars(&chars) {
        Option::None => DecodeResult::MalformedPayload,
        Option::Some(JsonValue::Obj(ms)) => interp_obj_exec(&ms),
        Option::Some(_) => DecodeResult::MissingDiscriminant,
    }
}

/// What the inbound loop does with one decoded frame: a typed message, or a
/// warning line that names what was wrong.
#[derive(Debug, Clone, PartialEq)]
pub enum IncomingParse {
    Message(Incoming),
    Warning(String),
}

pub enum IncomingParseV {
    Message(IncomingV),
    Warning(Seq<char>),
}

impl View for IncomingParse {
    type V = IncomingParseV;

    open spec fn view(&self) -> IncomingParseV {
        match self {
            IncomingParse::Message(e) => IncomingParseV::Message(e@),
            IncomingParse::Warning(w) => IncomingParseV::Warning(w@),
        }
    }
}

pub open spec fn incoming_parse_spec(s: Seq<char>) -> IncomingParseV {
    match decode_spec(s) {
        DecodeResultV::Event(e) => IncomingParseV::Message(e),
        DecodeResultV::UnrecognizedVariant(tg) => IncomingParseV::Warning(
            "Unknown server message type: "@ + tg,
        ),
        DecodeResultV::MissingDiscriminant => IncomingParseV::Warning(
            "Server sent JSON without a valid 'type' field."@,
        ),
        DecodeResultV::MalformedPayload => IncomingParseV::Warning("Server sent invalid JSON."@),
    }
}

/// Decodes one frame and phrases every non-fatal outcome as a warning line.
pub fn parse_incoming_text(text: &str) -> (r: IncomingParse)
    ensures
        r@ == incoming_parse_spec(text@),
{
    match decode_frame(text) {
        DecodeResult::Event(e) => IncomingParse::Message(e),
        DecodeResult::UnrecognizedVariant(tg) => {
            let mut msg = str_to_chars("Unknown server message type: ");
            let tgc = str_to_chars(tg.as_str());
            crate::text::push_chars(&mut msg, &tgc);
            IncomingParse::Warning(chars_to_string(&msg))
        },
        DecodeResult::MissingDiscriminant => {
            let msg = str_to_chars("Server sent JSON without a valid 'type' field.");
            IncomingParse::Warning(chars_to_string(&msg))
        },
        DecodeResult::MalformedPayload => {
            let msg = str_to_chars("Server sent invalid JSON.");
            IncomingParse::Warning(chars_to_string(&msg))
        },
    }
}


// ---------------------------------------------------------------------------
// Frame encoding
// ---------------------------------------------------------------------------
use crate::json::{json_view, ser_json, write_json};

/// The wire frame a command is spelled as: an object whose first member is
/// the discriminant, then the variant's own fields.
pub open spec fn out_json(c: OutgoingV) -> JsonV {
    match c {
        OutgoingV::Chat { text } => JsonV::Obj(
            seq![("type"@, JsonV::Str("chat"@)), ("text"@, JsonV::Str(text))],
        ),
        OutgoingV::SetName { name } => JsonV::Obj(
            seq![("type"@, JsonV::Str("setName"@)), ("name"@, JsonV::Str(name))],
        ),
        OutgoingV::Status => JsonV::Obj(seq![("type"@, JsonV::Str("status"@))]),
        OutgoingV::ListUsers => JsonV::Obj(seq![("type"@, JsonV::Str("listUsers"@))]),
        OutgoingV::Ping { token } => JsonV::Obj(
            seq![
                ("type"@, JsonV::Str("ping"@)),
                (
                    "token"@,
                    match token {
                        Option::None => JsonV::Null,
                        Option::Some(t) => JsonV::Str(t),
                    },
                ),
            ],
        ),
        OutgoingV::Ai { prompt } => JsonV::Obj(
            seq![("type"@, JsonV::Str("ai"@)), ("prompt"@, JsonV::Str(prompt))],
        ),
    }
}

/// The exact text a command is sent as.
pub open spec fn encode_spec(c: OutgoingV) -> Seq<char> {
    ser_json(out_json(c))
}

fn jstr(s: &str) -> (r: JsonValue)
    ensures
        json_view(r) == JsonV::Str(s@),
{
    JsonValue::Str(str_to_chars(s))
}

/// The frame value for a command, built member by member.
fn out_json_exec(c: &Outgoing) -> (r: JsonValue)
    ensures
        json_view(r) == out_json(c@),
{
    let mut ms: Vec<(Vec<char>, JsonValue)> = Vec::new();
    match c {
        Outgoing::Chat { text } => {
            ms.push((str_to_chars("type"), jstr("chat")));
            ms.push((str_to_chars("text"), jstr(text.as_str())));
        },
        Outgoing::SetName { name } => {
            ms.push((str_to_chars("type"), jstr("setName")));
            ms.push((str_to_chars("name"), jstr(name.as_str())));
        },
        Outgoing::Status => {
            ms.push((str_to_chars("type"), jstr("status")));
        },
        Outgoing::ListUsers => {
            ms.push((str_to_chars("type"), jstr("listUsers")));
        },
        Outgoing::Ping { token } => {
            ms.push((str_to_chars("type"), jstr("ping")));
            match token {
                Option::Some(tk) => {
                    ms.push((str_to_chars("token"), jstr(tk.as_str())));
                },
                Option::None => {
                    ms.push((str_to_chars("token"), JsonValue::Null));
                },
            }
        },
        Outgoing::Ai { prompt } => {
            ms.push((str_to_chars("type"), jstr("ai")));
            ms.push((str_to_chars("prompt"), jstr(prompt.as_str())));
        },
    }
    let r = JsonValue::Obj(ms);
    proof {
        if let JsonV::Obj(want) = out_json(c@) {
            assert(membs_view(r->Obj_0@) =~= want);
        }
    }
    r
}

/// Serializes one command to its wire frame. Every command encodes; there
/// is no failure path.
pub fn encode_outgoing(c: &Outgoing) -> (r: String)
    ensures
        r@ == encode_spec(c@),
{
    let jv = out_json_exec(c);
    let mut out: Vec<char> = Vec::new();
    write_json(&mut out, &jv);
    proof {
        assert(Seq::<char>::empty() + ser_json(json_view(jv)) =~= ser_json(json_view(jv)));
    }
    chars_to_string(&out)
}

// ---------------------------------------------------------------------------
// Display formatting
// ---------------------------------------------------------------------------
use crate::text::{dec_seq, push_two_digits, push_u64_dec, two_digits};

/// How long the server has been up, in the unit that fits.
pub open spec fn uptime_spec(seconds: u64) -> Seq<char> {
    if seconds < 60 {
        dec_seq(seconds as nat) + " sec"@
    } else if seconds < 3600 {
        dec_seq((seconds / 60) as nat) + " min"@
    } else if seconds < 86400 {
        dec_seq((seconds / 3600) as nat) + " uur"@
    } else {
        dec_seq((seconds / 86400) as nat) + " dagen"@
    }
}

/// Renders an uptime in seconds as a short human-readable amount.
pub fn format_uptime(seconds: u64) -> (r: String)
    ensures
        r@ == uptime_spec(seconds),
{
    let mut out: Vec<char> = Vec::new();
    if seconds < 60 {
        push_u64_dec(&mut out, seconds);
        push_str_chars(&mut out, " sec");
    } else if seconds < 3600 {
        push_u64_dec(&mut out, seconds / 60);
        push_str_chars(&mut out, " min");
    } else if seconds < 86400 {
        push_u64_dec(&mut out, seconds / 3600);
        push_str_chars(&mut out, " uur");
    } else {
        push_u64_dec(&mut out, seconds / 86400);
        push_str_chars(&mut out, " dagen");
    }
    proof {
        assert(out@ =~= uptime_spec(seconds));
    }
    chars_to_string(&out)
}

/// The UTC offset, in seconds, that the Europe/Amsterdam time zone table
/// fixes for the given timestamp; nothing for timestamps the calendar
/// cannot represent.
pub uninterp spec fn ams_offset_of(unix_sec: i64) -> Option<i32>;

/// Relies on chrono's `TimeZone::timestamp_opt` over chrono-tz's compiled
/// Europe/Amsterdam table, and on `Offset::fix` / `FixedOffset::local_minus_utc`:
/// a representable timestamp yields the zone's UTC offset in whole seconds,
/// strictly within one day; an out-of-range timestamp yields nothing. The
/// table is compiled in, so the offset depends on the timestamp alone.
#[verifier::external_body]
fn amsterdam_utc_offset(unix_sec: i64) -> (r: Option<i32>)
    ensures
        r == ams_offset_of(unix_sec),
        r matches Some(o) ==> -86400 < o < 86400,
{
    match chrono_tz::Europe::Amsterdam.timestamp_opt(unix_sec, 0).single() {
        Some(dt) => Some(dt.offset().fix().local_minus_utc()),
        None => None,
    }
}

/// The wall-clock time `HH:MM:SS` that the timestamp reads in Amsterdam, or
/// a placeholder when the calendar cannot place it.
pub open spec fn nl_time_spec(unix_ms: u64) -> Seq<char> {
    match ams_offset_of((unix_ms / 1000) as i64) {
        Option::None => "??:??:??"@,
        Option::Some(off) => {
            let sod = (((unix_ms / 1000) + off + 86400) % 86400) as nat;
            two_digits(sod / 3600) + seq![':'] + two_digits((sod % 3600) / 60) + seq![':']
                + two_digits(sod % 60)
        },
    }
}

/// Renders a Unix-epoch-milliseconds timestamp as Amsterdam wall-clock time.
pub fn format_unix_ms_nl_time(unix_ms: u64) -> (r: String)
    ensures
        r@ == nl_time_spec(unix_ms),
{
    let secs_u = unix_ms / 1000;
    assert(secs_u <= 0xFFFFFFFFFFFFFFFFu64 / 1000) by {};
    let secs = secs_u as i64;
    match amsterdam_utc_offset(secs) {
        Option::None => {
            let v = str_to_chars("??:??:??");
            chars_to_string(&v)
        },
        Option::Some(off) => {
            let shifted = secs + (off as i64) + 86400;
            let sod = (shifted as u64) % 86400;
            let mut out: Vec<char> = Vec::new();
            push_two_digits(&mut out, sod / 3600);
            out.push(':');
            push_two_digits(&mut out, (sod % 3600) / 60);
            out.push(':');
            push_two_digits(&mut out, sod % 60);
            proof {
                assert(out@ =~= nl_time_spec(unix_ms));
            }
            chars_to_string(&out)
        },
    }
}

/// The bracketed time prefix a timestamped line carries; nothing when the
/// event carried no timestamp.
pub open spec fn at_prefix_spec(at: Option<u64>) -> Seq<char> {
    match at {
        Option::None => Seq::empty(),
        Option::Some(ms) => seq!['['] + nl_time_spec(ms) + seq![']', ' '],
    }
}

/// Renders the `[HH:MM:SS] ` prefix for a timestamped line.
pub fn format_at_prefix(at: Option<u64>) -> (r: String)
    ensures
        r@ == at_prefix_spec(at),
{
    match at {
        Option::None => {
            let v: Vec<char> = Vec::new();
            chars_to_string(&v)
        },
        Option::Some(ms) => {
            let mut out: Vec<char> = Vec::new();
            out.push('[');
            let body = format_unix_ms_nl_time(ms);
            push_str_chars(&mut out, body.as_str());
            out.push(']');
            out.push(' ');
            proof {
                assert(out@ =~= at_prefix_spec(at));
            }
            chars_to_string(&out)
        },
    }
}


// ---------------------------------------------------------------------------
// Codec symmetry
// ---------------------------------------------------------------------------
use crate::json::{
    is_num_lexeme, lemma_dec_seq_wf, lemma_need_membs_le, lemma_num_as_u64_dec, lemma_obj_get_at,
    lemma_parse_ser_json, lemma_wf_elems_all, lemma_wf_membs_all, need_val, wf_json,
};

/// Law: every command's encoding parses back to its exact frame: the wire
/// spelling loses nothing, whatever the command.
pub proof fn lemma_encode_parses_back(c: OutgoingV)
    ensures
        crate::json::parse_json(encode_spec(c)) == Some(out_json(c)),
{
    let v = out_json(c);
    match v {
        JsonV::Obj(ms) => {
            assert forall|k: int| 0 <= k < ms.len() implies wf_json((#[trigger] ms[k]).1)
                && need_val(ms[k].1) + 1 <= 2 by {
                match c {
                    OutgoingV::Chat { text } => {
                        assert(ms[k] == (if k == 0 {
                            ("type"@, JsonV::Str("chat"@))
                        } else {
                            ("text"@, JsonV::Str(text))
                        }));
                    },
                    OutgoingV::SetName { name } => {
                        assert(ms[k] == (if k == 0 {
                            ("type"@, JsonV::Str("setName"@))
                        } else {
                            ("name"@, JsonV::Str(name))
                        }));
                    },
                    OutgoingV::Status => {
                        assert(ms[k] == ("type"@, JsonV::Str("status"@)));
                    },
                    OutgoingV::ListUsers => {
                        assert(ms[k] == ("type"@, JsonV::Str("listUsers"@)));
                    },
                    OutgoingV::Ping { token } => {
                        assert(ms[k] == (if k == 0 {
                            ("type"@, JsonV::Str("ping"@))
                        } else {
                            (
                                "token"@,
                                match token {
                                    Option::None => JsonV::Null,
                                    Option::Some(tk) => JsonV::Str(tk),
                                },
                            )
                        }));
                    },
                    OutgoingV::Ai { prompt } => {
                        assert(ms[k] == (if k == 0 {
                            ("type"@, JsonV::Str("ai"@))
                        } else {
                            ("prompt"@, JsonV::Str(prompt))
                        }));
                    },
                }
            }
            lemma_wf_membs_all(ms);
            lemma_need_membs_le(ms, 2);
        },
        _ => {},
    }
    lemma_parse_ser_json(v);
}

/// An optional text field as a server spells it: the string, or null.
pub open spec fn opt_str_json(o: Option<Seq<char>>) -> JsonV {
    match o {
        Option::Some(tx) => JsonV::Str(tx),
        Option::None => JsonV::Null,
    }
}

/// An optional count field as a server spells it: the decimal, or null.
pub open spec fn opt_u64_json(o: Option<u64>) -> JsonV {
    match o {
        Option::Some(n) => JsonV::Num(dec_seq(n as nat)),
        Option::None => JsonV::Null,
    }
}

pub open spec fn opt_u32_json(o: Option<u32>) -> JsonV {
    match o {
        Option::Some(n) => JsonV::Num(dec_seq(n as nat)),
        Option::None => JsonV::Null,
    }
}

pub open spec fn opt_bool_json(o: Option<bool>) -> JsonV {
    match o {
        Option::Some(b) => JsonV::Bool(b),
        Option::None => JsonV::Null,
    }
}

/// An optional numeric gauge as a server spells it: its lexeme, or null.
pub open spec fn opt_lex_json(o: Option<Seq<char>>) -> JsonV {
    match o {
        Option::Some(lex) => JsonV::Num(lex),
        Option::None => JsonV::Null,
    }
}

/// One user as a server spells it.
pub open spec fn user_json(u: UserInfoV) -> JsonV {
    JsonV::Obj(
        seq![
            ("id"@, JsonV::Str(u.id)),
            ("name"@, JsonV::Str(u.name)),
            ("ip"@, JsonV::Str(u.ip)),
        ],
    )
}

/// The frame a server that uses the matching field names spells for an
/// event: the discriminant first, then the variant's fields, with absent
/// optional fields spelled as null.
pub open spec fn in_json(e: IncomingV) -> JsonV {
    match e {
        IncomingV::Chat { from, text, at } => JsonV::Obj(
            seq![
                ("type"@, JsonV::Str("chat"@)),
                ("from"@, JsonV::Str(from)),
                ("text"@, JsonV::Str(text)),
                ("at"@, opt_u64_json(at)),
            ],
        ),
        IncomingV::System { text, at } => JsonV::Obj(
            seq![
                ("type"@, JsonV::Str("system"@)),
                ("text"@, JsonV::Str(text)),
                ("at"@, opt_u64_json(at)),
            ],
        ),
        IncomingV::AckName { name, at } => JsonV::Obj(
            seq![
                ("type"@, JsonV::Str("ackName"@)),
                ("name"@, JsonV::Str(name)),
                ("at"@, opt_u64_json(at)),
            ],
        ),
        IncomingV::Status {
            version,
            rust_version,
            os,
            cpu_cores,
            uptime_seconds,
            user_count,
            peak_users,
            connections_total,
            messages_sent,
            messages_per_second,
            memory_mb,
            ai_enabled,
            ai_model,
            at,
        } => JsonV::Obj(
            seq![
                ("type"@, JsonV::Str("status"@)),
                ("version"@, JsonV::Str(version)),
                ("rustVersion"@, opt_str_json(rust_version)),
                ("os"@, opt_str_json(os)),
                ("cpuCores"@, opt_u64_json(cpu_cores)),
                ("uptimeSeconds"@, JsonV::Num(dec_seq(uptime_seconds as nat))),
                ("userCount"@, JsonV::Num(dec_seq(user_count as nat))),
                ("peakUsers"@, opt_u64_json(peak_users)),
                ("connectionsTotal"@, opt_u64_json(connections_total)),
                ("messagesSent"@, JsonV::Num(dec_seq(messages_sent as nat))),
                ("messagesPerSecond"@, JsonV::Num(messages_per_second)),
                ("memoryMb"@, JsonV::Num(memory_mb)),
                ("aiEnabled"@, opt_bool_json(ai_enabled)),
                ("aiModel"@, opt_str_json(ai_model)),
                ("at"@, opt_u64_json(at)),
            ],
        ),
        IncomingV::ListUsers { users, at } => JsonV::Obj(
            seq![
                ("type"@, JsonV::Str("listUsers"@)),
                (
                    "users"@,
                    JsonV::Arr(
                        Seq::new(
                            users.len(),
                            |k: int|
                                if 0 <= k < users.len() {
                                    user_json(users[k])
                                } else {
                                    JsonV::Null
                                },
                        ),
                    ),
                ),
                ("at"@, opt_u64_json(at)),
            ],
        ),
        IncomingV::Error { message, at } => JsonV::Obj(
            seq![
                ("type"@, JsonV::Str("error"@)),
                ("message"@, JsonV::Str(message)),
                ("at"@, opt_u64_json(at)),
            ],
        ),
        IncomingV::Pong { token, at } => JsonV::Obj(
            seq![
                ("type"@, JsonV::Str("pong"@)),
                ("token"@, opt_str_json(token)),
                ("at"@, opt_u64_json(at)),
            ],
        ),
        IncomingV::Ai { from, prompt, response, response_ms, tokens, cost, at } => JsonV::Obj(
            seq![
                ("type"@, JsonV::Str("ai"@)),
                ("from"@, JsonV::Str(from)),
                ("prompt"@, JsonV::Str(prompt)),
                ("response"@, JsonV::Str(response)),
                ("responseMs"@, JsonV::Num(dec_seq(response_ms as nat))),
                ("tokens"@, opt_u32_json(tokens)),
                ("cost"@, opt_lex_json(cost)),
                ("at"@, opt_u64_json(at)),
            ],
        ),
    }
}

/// Events whose fixture frame the decoder is proven to read back: the
/// numeric gauges that ride as raw lexemes must be unsigned decimals, with
/// at most one fraction part.
pub open spec fn wf_incoming(e: IncomingV) -> bool {
    match e {
        IncomingV::Status { messages_per_second, memory_mb, .. } => is_num_lexeme(
            messages_per_second,
        ) && is_num_lexeme(memory_mb),
        IncomingV::Ai { cost, .. } => match cost {
            Option::Some(lex) => is_num_lexeme(lex),
            Option::None => true,
        },
        _ => true,
    }
}


/// A spelled user is well-formed, shallow, and reads back as itself.
proof fn lemma_user_fixture(u: UserInfoV)
    ensures
        wf_json(user_json(u)),
        need_val(user_json(u)) <= 3,
        user_of(user_json(u)) == Option::Some(u),
{
    reveal_strlit("id");
    reveal_strlit("name");
    reveal_strlit("ip");
    assert("id"@.len() == 2 && "name"@.len() == 4 && "ip"@.len() == 2);
    assert("id"@ != "ip"@) by {
        assert("id"@[1] == 'd');
        assert("ip"@[1] == 'p');
    }
    let ms = seq![("id"@, JsonV::Str(u.id)), ("name"@, JsonV::Str(u.name)), ("ip"@, JsonV::Str(u.ip))];
    assert forall|k: int| 0 <= k < ms.len() implies wf_json((#[trigger] ms[k]).1) && need_val(
        ms[k].1,
    ) + 1 <= 2 by {
        assert(ms[k].1 is Str);
    }
    lemma_wf_membs_all(ms);
    lemma_need_membs_le(ms, 2);
    lemma_obj_get_at(ms, 0);
    lemma_obj_get_at(ms, 1);
    lemma_obj_get_at(ms, 2);
}

/// A spelled user list is well-formed, shallow, and reads back as itself.
proof fn lemma_users_fixture(us: Seq<UserInfoV>)
    ensures
        crate::json::wf_elems(users_arr(us)),
        crate::json::need_elems(users_arr(us)) <= 4,
        users_of(users_arr(us)) == Option::Some(us),
    decreases us.len(),
{
    let arr = users_arr(us);
    assert forall|k: int| 0 <= k < arr.len() implies wf_json(#[trigger] arr[k]) && need_val(
        arr[k],
    ) + 1 <= 4 by {
        lemma_user_fixture(us[k]);
    }
    lemma_wf_elems_all(arr);
    crate::json::lemma_need_elems_le(arr, 4);
    if us.len() == 0 {
        assert(arr.len() == 0);
    } else {
        lemma_user_fixture(us[0]);
        lemma_users_fixture(us.drop_first());
        assert(arr.drop_first() =~= users_arr(us.drop_first()));
        assert(seq![us[0]] + us.drop_first() =~= us);
    }
}

/// The element list of a spelled user array.
pub open spec fn users_arr(us: Seq<UserInfoV>) -> Seq<JsonV> {
    Seq::new(
        us.len(),
        |k: int|
            if 0 <= k < us.len() {
                user_json(us[k])
            } else {
                JsonV::Null
            },
    )
}

proof fn lemma_opt_u64_wf(o: Option<u64>)
    ensures
        wf_json(opt_u64_json(o)),
        need_val(opt_u64_json(o)) == 1,
{
    match o {
        Option::Some(n) => lemma_dec_seq_wf(n as nat),
        Option::None => {},
    }
}

proof fn lemma_opt_u32_wf(o: Option<u32>)
    ensures
        wf_json(opt_u32_json(o)),
        need_val(opt_u32_json(o)) == 1,
{
    match o {
        Option::Some(n) => lemma_dec_seq_wf(n as nat),
        Option::None => {},
    }
}

/// Every fixture frame is a well-formed value within the parser's depth
/// budget.
#[verifier::rlimit(100)]
proof fn lemma_fixture_wf(e: IncomingV)
    requires
        wf_incoming(e),
    ensures
        wf_json(in_json(e)),
        need_val(in_json(e)) <= 7,
{
    let v = in_json(e);
    match v {
        JsonV::Obj(ms) => {
            assert forall|k: int| 0 <= k < ms.len() implies wf_json((#[trigger] ms[k]).1)
                && need_val(ms[k].1) + 1 <= 6 by {
                match e {
                    IncomingV::Chat { from, text, at } => {
                        if k == 3 {
                            lemma_opt_u64_wf(at);
                        }
                    },
                    IncomingV::System { text, at } => {
                        if k == 2 {
                            lemma_opt_u64_wf(at);
                        }
                    },
                    IncomingV::AckName { name, at } => {
                        if k == 2 {
                            lemma_opt_u64_wf(at);
                        }
                    },
                    IncomingV::Status {
                        rust_version,
                        os,
                        cpu_cores,
                        uptime_seconds,
                        user_count,
                        peak_users,
                        connections_total,
                        messages_sent,
                        ai_enabled,
                        ai_model,
                        at,
                        ..
                    } => {
                        if k == 4 {
                            lemma_opt_u64_wf(cpu_cores);
                        } else if k == 5 {
                            lemma_dec_seq_wf(uptime_seconds as nat);
                        } else if k == 6 {
                            lemma_dec_seq_wf(user_count as nat);
                        } else if k == 7 {
                            lemma_opt_u64_wf(peak_users);
                        } else if k == 8 {
                            lemma_opt_u64_wf(connections_total);
                        } else if k == 9 {
                            lemma_dec_seq_wf(messages_sent as nat);
                        } else if k == 14 {
                            lemma_opt_u64_wf(at);
                        }
                    },
                    IncomingV::ListUsers { users, at } => {
                        if k == 1 {
                            lemma_users_fixture(users);
                        } else if k == 2 {
                            lemma_opt_u64_wf(at);
                        }
                    },
                    IncomingV::Error { message, at } => {
                        if k == 2 {
                            lemma_opt_u64_wf(at);
                        }
                    },
                    IncomingV::Pong { token, at } => {
                        if k == 2 {
                            lemma_opt_u64_wf(at);
                        }
                    },
                    IncomingV::Ai { response_ms, tokens, at, .. } => {
                        if k == 4 {
                            lemma_dec_seq_wf(response_ms as nat);
                        } else if k == 5 {
                            lemma_opt_u32_wf(tokens);
                        } else if k == 7 {
                            lemma_opt_u64_wf(at);
                        }
                    },
                }
            }
            lemma_wf_membs_all(ms);
            lemma_need_membs_le(ms, 6);
        },
        _ => {},
    }
}


/// The frame keys and discriminants are pairwise distinct texts.
#[verifier::rlimit(100)]
proof fn reveal_frame_keys()
    ensures
        "type"@ != "chat"@,
        "type"@ != "system"@,
        "type"@ != "ackName"@,
        "type"@ != "status"@,
        "type"@ != "listUsers"@,
        "type"@ != "error"@,
        "type"@ != "pong"@,
        "type"@ != "ai"@,
        "type"@ != "from"@,
        "type"@ != "text"@,
        "type"@ != "name"@,
        "type"@ != "at"@,
        "type"@ != "token"@,
        "type"@ != "message"@,
        "type"@ != "users"@,
        "type"@ != "version"@,
        "type"@ != "rustVersion"@,
        "type"@ != "os"@,
        "type"@ != "cpuCores"@,
        "type"@ != "uptimeSeconds"@,
        "type"@ != "userCount"@,
        "type"@ != "peakUsers"@,
        "type"@ != "connectionsTotal"@,
        "type"@ != "messagesSent"@,
        "type"@ != "messagesPerSecond"@,
        "type"@ != "memoryMb"@,
        "type"@ != "aiEnabled"@,
        "type"@ != "aiModel"@,
        "type"@ != "prompt"@,
        "type"@ != "response"@,
        "type"@ != "responseMs"@,
        "type"@ != "tokens"@,
        "type"@ != "cost"@,
        "chat"@ != "system"@,
        "chat"@ != "ackName"@,
        "chat"@ != "status"@,
        "chat"@ != "listUsers"@,
        "chat"@ != "error"@,
        "chat"@ != "pong"@,
        "chat"@ != "ai"@,
        "chat"@ != "from"@,
        "chat"@ != "text"@,
        "chat"@ != "name"@,
        "chat"@ != "at"@,
        "chat"@ != "token"@,
        "chat"@ != "message"@,
        "chat"@ != "users"@,
        "chat"@ != "version"@,
        "chat"@ != "rustVersion"@,
        "chat"@ != "os"@,
        "chat"@ != "cpuCores"@,
        "chat"@ != "uptimeSeconds"@,
        "chat"@ != "userCount"@,
        "chat"@ != "peakUsers"@,
        "chat"@ != "connectionsTotal"@,
        "chat"@ != "messagesSent"@,
        "chat"@ != "messagesPerSecond"@,
        "chat"@ != "memoryMb"@,
        "chat"@ != "aiEnabled"@,
        "chat"@ != "aiModel"@,
        "chat"@ != "prompt"@,
        "chat"@ != "response"@,
        "chat"@ != "responseMs"@,
        "chat"@ != "tokens"@,
        "chat"@ != "cost"@,
        "system"@ != "ackName"@,
        "system"@ != "status"@,
        "system"@ != "listUsers"@,
        "system"@ != "error"@,
        "system"@ != "pong"@,
        "system"@ != "ai"@,
        "system"@ != "from"@,
        "system"@ != "text"@,
        "system"@ != "name"@,
        "system"@ != "at"@,
        "system"@ != "token"@,
        "system"@ != "message"@,
        "system"@ != "users"@,
        "system"@ != "version"@,
        "system"@ != "rustVersion"@,
        "system"@ != "os"@,
        "system"@ != "cpuCores"@,
        "system"@ != "uptimeSeconds"@,
        "system"@ != "userCount"@,
        "system"@ != "peakUsers"@,
        "system"@ != "connectionsTotal"@,
        "system"@ != "messagesSent"@,
        "system"@ != "messagesPerSecond"@,
        "system"@ != "memoryMb"@,
        "system"@ != "aiEnabled"@,
        "system"@ != "aiModel"@,
        "system"@ != "prompt"@,
        "system"@ != "response"@,
        "system"@ != "responseMs"@,
        "system"@ != "tokens"@,
        "system"@ != "cost"@,
        "ackName"@ != "status"@,
        "ackName"@ != "listUsers"@,
        "ackName"@ != "error"@,
        "ackName"@ != "pong"@,
        "ackName"@ != "ai"@,
        "ackName"@ != "from"@,
        "ackName"@ != "text"@,
        "ackName"@ != "name"@,
        "ackName"@ != "at"@,
        "ackName"@ != "token"@,
        "ackName"@ != "message"@,
        "ackName"@ != "users"@,
        "ackName"@ != "version"@,
        "ackName"@ != "rustVersion"@,
        "ackName"@ != "os"@,
        "ackName"@ != "cpuCores"@,
        "ackName"@ != "uptimeSeconds"@,
        "ackName"@ != "userCount"@,
        "ackName"@ != "peakUsers"@,
        "ackName"@ != "connectionsTotal"@,
        "ackName"@ != "messagesSent"@,
        "ackName"@ != "messagesPerSecond"@,
        "ackName"@ != "memoryMb"@,
        "ackName"@ != "aiEnabled"@,
        "ackName"@ != "aiModel"@,
        "ackName"@ != "prompt"@,
        "ackName"@ != "response"@,
        "ackName"@ != "responseMs"@,
        "ackName"@ != "tokens"@,
        "ackName"@ != "cost"@,
        "status"@ != "listUsers"@,
        "status"@ != "error"@,
        "status"@ != "pong"@,
        "status"@ != "ai"@,
        "status"@ != "from"@,
        "status"@ != "text"@,
        "status"@ != "name"@,
        "status"@ != "at"@,
        "status"@ != "token"@,
        "status"@ != "message"@,
        "status"@ != "users"@,
        "status"@ != "version"@,
        "status"@ != "rustVersion"@,
        "status"@ != "os"@,
        "status"@ != "cpuCores"@,
        "status"@ != "uptimeSeconds"@,
        "status"@ != "userCount"@,
        "status"@ != "peakUsers"@,
        "status"@ != "connectionsTotal"@,
        "status"@ != "messagesSent"@,
        "status"@ != "messagesPerSecond"@,
        "status"@ != "memoryMb"@,
        "status"@ != "aiEnabled"@,
        "status"@ != "aiModel"@,
        "status"@ != "prompt"@,
        "status"@ != "response"@,
        "status"@ != "responseMs"@,
        "status"@ != "tokens"@,
        "status"@ != "cost"@,
        "listUsers"@ != "error"@,
        "listUsers"@ != "pong"@,
        "listUsers"@ != "ai"@,
        "listUsers"@ != "from"@,
        "listUsers"@ != "text"@,
        "listUsers"@ != "name"@,
        "listUsers"@ != "at"@,
        "listUsers"@ != "token"@,
        "listUsers"@ != "message"@,
        "listUsers"@ != "users"@,
        "listUsers"@ != "version"@,
        "listUsers"@ != "rustVersion"@,
        "listUsers"@ != "os"@,
        "listUsers"@ != "cpuCores"@,
        "listUsers"@ != "uptimeSeconds"@,
        "listUsers"@ != "userCount"@,
        "listUsers"@ != "peakUsers"@,
        "listUsers"@ != "connectionsTotal"@,
        "listUsers"@ != "messagesSent"@,
        "listUsers"@ != "messagesPerSecond"@,
        "listUsers"@ != "memoryMb"@,
        "listUsers"@ != "aiEnabled"@,
        "listUsers"@ != "aiModel"@,
        "listUsers"@ != "prompt"@,
        "listUsers"@ != "response"@,
        "listUsers"@ != "responseMs"@,
        "listUsers"@ != "tokens"@,
        "listUsers"@ != "cost"@,
        "error"@ != "pong"@,
        "error"@ != "ai"@,
        "error"@ != "from"@,
        "error"@ != "text"@,
        "error"@ != "name"@,
        "error"@ != "at"@,
        "error"@ != "token"@,
        "error"@ != "message"@,
        "error"@ != "users"@,
        "error"@ != "version"@,
        "error"@ != "rustVersion"@,
        "error"@ != "os"@,
        "error"@ != "cpuCores"@,
        "error"@ != "uptimeSeconds"@,
        "error"@ != "userCount"@,
        "error"@ != "peakUsers"@,
        "error"@ != "connectionsTotal"@,
        "error"@ != "messagesSent"@,
        "error"@ != "messagesPerSecond"@,
        "error"@ != "memoryMb"@,
        "error"@ != "aiEnabled"@,
        "error"@ != "aiModel"@,
        "error"@ != "prompt"@,
        "error"@ != "response"@,
        "error"@ != "responseMs"@,
        "error"@ != "tokens"@,
        "error"@ != "cost"@,
        "pong"@ != "ai"@,
        "pong"@ != "from"@,
        "pong"@ != "text"@,
        "pong"@ != "name"@,
        "pong"@ != "at"@,
        "pong"@ != "token"@,
        "pong"@ != "message"@,
        "pong"@ != "users"@,
        "pong"@ != "version"@,
        "pong"@ != "rustVersion"@,
        "pong"@ != "os"@,
        "pong"@ != "cpuCores"@,
        "pong"@ != "uptimeSeconds"@,
        "pong"@ != "userCount"@,
        "pong"@ != "peakUsers"@,
        "pong"@ != "connectionsTotal"@,
        "pong"@ != "messagesSent"@,
        "pong"@ != "messagesPerSecond"@,
        "pong"@ != "memoryMb"@,
        "pong"@ != "aiEnabled"@,
        "pong"@ != "aiModel"@,
        "pong"@ != "prompt"@,
        "pong"@ != "response"@,
        "pong"@ != "responseMs"@,
        "pong"@ != "tokens"@,
        "pong"@ != "cost"@,
        "ai"@ != "from"@,
        "ai"@ != "text"@,
        "ai"@ != "name"@,
        "ai"@ != "at"@,
        "ai"@ != "token"@,
        "ai"@ != "message"@,
        "ai"@ != "users"@,
        "ai"@ != "version"@,
        "ai"@ != "rustVersion"@,
        "ai"@ != "os"@,
        "ai"@ != "cpuCores"@,
        "ai"@ != "uptimeSeconds"@,
        "ai"@ != "userCount"@,
        "ai"@ != "peakUsers"@,
        "ai"@ != "connectionsTotal"@,
        "ai"@ != "messagesSent"@,
        "ai"@ != "messagesPerSecond"@,
        "ai"@ != "memoryMb"@,
        "ai"@ != "aiEnabled"@,
        "ai"@ != "aiModel"@,
        "ai"@ != "prompt"@,
        "ai"@ != "response"@,
        "ai"@ != "responseMs"@,
        "ai"@ != "tokens"@,
        "ai"@ != "cost"@,
        "from"@ != "text"@,
        "from"@ != "name"@,
        "from"@ != "at"@,
        "from"@ != "token"@,
        "from"@ != "message"@,
        "from"@ != "users"@,
        "from"@ != "version"@,
        "from"@ != "rustVersion"@,
        "from"@ != "os"@,
        "from"@ != "cpuCores"@,
        "from"@ != "uptimeSeconds"@,
        "from"@ != "userCount"@,
        "from"@ != "peakUsers"@,
        "from"@ != "connectionsTotal"@,
        "from"@ != "messagesSent"@,
        "from"@ != "messagesPerSecond"@,
        "from"@ != "memoryMb"@,
        "from"@ != "aiEnabled"@,
        "from"@ != "aiModel"@,
        "from"@ != "prompt"@,
        "from"@ != "response"@,
        "from"@ != "responseMs"@,
        "from"@ != "tokens"@,
        "from"@ != "cost"@,
        "text"@ != "name"@,
        "text"@ != "at"@,
        "text"@ != "token"@,
        "text"@ != "message"@,
        "text"@ != "users"@,
        "text"@ != "version"@,
        "text"@ != "rustVersion"@,
        "text"@ != "os"@,
        "text"@ != "cpuCores"@,
        "text"@ != "uptimeSeconds"@,
        "text"@ != "userCount"@,
        "text"@ != "peakUsers"@,
        "text"@ != "connectionsTotal"@,
        "text"@ != "messagesSent"@,
        "text"@ != "messagesPerSecond"@,
        "text"@ != "memoryMb"@,
        "text"@ != "aiEnabled"@,
        "text"@ != "aiModel"@,
        "text"@ != "prompt"@,
        "text"@ != "response"@,
        "text"@ != "responseMs"@,
        "text"@ != "tokens"@,
        "text"@ != "cost"@,
        "name"@ != "at"@,
        "name"@ != "token"@,
        "name"@ != "message"@,
        "name"@ != "users"@,
        "name"@ != "version"@,
        "name"@ != "rustVersion"@,
        "name"@ != "os"@,
        "name"@ != "cpuCores"@,
        "name"@ != "uptimeSeconds"@,
        "name"@ != "userCount"@,
        "name"@ != "peakUsers"@,
        "name"@ != "connectionsTotal"@,
        "name"@ != "messagesSent"@,
        "name"@ != "messagesPerSecond"@,
        "name"@ != "memoryMb"@,
        "name"@ != "aiEnabled"@,
        "name"@ != "aiModel"@,
        "name"@ != "prompt"@,
        "name"@ != "response"@,
        "name"@ != "responseMs"@,
        "name"@ != "tokens"@,
        "name"@ != "cost"@,
        "at"@ != "token"@,
        "at"@ != "message"@,
        "at"@ != "users"@,
        "at"@ != "version"@,
        "at"@ != "rustVersion"@,
        "at"@ != "os"@,
        "at"@ != "cpuCores"@,
        "at"@ != "uptimeSeconds"@,
        "at"@ != "userCount"@,
        "at"@ != "peakUsers"@,
        "at"@ != "connectionsTotal"@,
        "at"@ != "messagesSent"@,
        "at"@ != "messagesPerSecond"@,
        "at"@ != "memoryMb"@,
        "at"@ != "aiEnabled"@,
        "at"@ != "aiModel"@,
        "at"@ != "prompt"@,
        "at"@ != "response"@,
        "at"@ != "responseMs"@,
        "at"@ != "tokens"@,
        "at"@ != "cost"@,
        "token"@ != "message"@,
        "token"@ != "users"@,
        "token"@ != "version"@,
        "token"@ != "rustVersion"@,
        "token"@ != "os"@,
        "token"@ != "cpuCores"@,
        "token"@ != "uptimeSeconds"@,
        "token"@ != "userCount"@,
        "token"@ != "peakUsers"@,
        "token"@ != "connectionsTotal"@,
        "token"@ != "messagesSent"@,
        "token"@ != "messagesPerSecond"@,
        "token"@ != "memoryMb"@,
        "token"@ != "aiEnabled"@,
        "token"@ != "aiModel"@,
        "token"@ != "prompt"@,
        "token"@ != "response"@,
        "token"@ != "responseMs"@,
        "token"@ != "tokens"@,
        "token"@ != "cost"@,
        "message"@ != "users"@,
        "message"@ != "version"@,
        "message"@ != "rustVersion"@,
        "message"@ != "os"@,
        "message"@ != "cpuCores"@,
        "message"@ != "uptimeSeconds"@,
        "message"@ != "userCount"@,
        "message"@ != "peakUsers"@,
        "message"@ != "connectionsTotal"@,
        "message"@ != "messagesSent"@,
        "message"@ != "messagesPerSecond"@,
        "message"@ != "memoryMb"@,
        "message"@ != "aiEnabled"@,
        "message"@ != "aiModel"@,
        "message"@ != "prompt"@,
        "message"@ != "response"@,
        "message"@ != "responseMs"@,
        "message"@ != "tokens"@,
        "message"@ != "cost"@,
        "users"@ != "version"@,
        "users"@ != "rustVersion"@,
        "users"@ != "os"@,
        "users"@ != "cpuCores"@,
        "users"@ != "uptimeSeconds"@,
        "users"@ != "userCount"@,
        "users"@ != "peakUsers"@,
        "users"@ != "connectionsTotal"@,
        "users"@ != "messagesSent"@,
        "users"@ != "messagesPerSecond"@,
        "users"@ != "memoryMb"@,
        "users"@ != "aiEnabled"@,
        "users"@ != "aiModel"@,
        "users"@ != "prompt"@,
        "users"@ != "response"@,
        "users"@ != "responseMs"@,
        "users"@ != "tokens"@,
        "users"@ != "cost"@,
        "version"@ != "rustVersion"@,
        "version"@ != "os"@,
        "version"@ != "cpuCores"@,
        "version"@ != "uptimeSeconds"@,
        "version"@ != "userCount"@,
        "version"@ != "peakUsers"@,
        "version"@ != "connectionsTotal"@,
        "version"@ != "messagesSent"@,
        "version"@ != "messagesPerSecond"@,
        "version"@ != "memoryMb"@,
        "version"@ != "aiEnabled"@,
        "version"@ != "aiModel"@,
        "version"@ != "prompt"@,
        "version"@ != "response"@,
        "version"@ != "responseMs"@,
        "version"@ != "tokens"@,
        "version"@ != "cost"@,
        "rustVersion"@ != "os"@,
        "rustVersion"@ != "cpuCores"@,
        "rustVersion"@ != "uptimeSeconds"@,
        "rustVersion"@ != "userCount"@,
        "rustVersion"@ != "peakUsers"@,
        "rustVersion"@ != "connectionsTotal"@,
        "rustVersion"@ != "messagesSent"@,
        "rustVersion"@ != "messagesPerSecond"@,
        "rustVersion"@ != "memoryMb"@,
        "rustVersion"@ != "aiEnabled"@,
        "rustVersion"@ != "aiModel"@,
        "rustVersion"@ != "prompt"@,
        "rustVersion"@ != "response"@,
        "rustVersion"@ != "responseMs"@,
        "rustVersion"@ != "tokens"@,
        "rustVersion"@ != "cost"@,
        "os"@ != "cpuCores"@,
        "os"@ != "uptimeSeconds"@,
        "os"@ != "userCount"@,
        "os"@ != "peakUsers"@,
        "os"@ != "connectionsTotal"@,
        "os"@ != "messagesSent"@,
        "os"@ != "messagesPerSecond"@,
        "os"@ != "memoryMb"@,
        "os"@ != "aiEnabled"@,
        "os"@ != "aiModel"@,
        "os"@ != "prompt"@,
        "os"@ != "response"@,
        "os"@ != "responseMs"@,
        "os"@ != "tokens"@,
        "os"@ != "cost"@,
        "cpuCores"@ != "uptimeSeconds"@,
        "cpuCores"@ != "userCount"@,
        "cpuCores"@ != "peakUsers"@,
        "cpuCores"@ != "connectionsTotal"@,
        "cpuCores"@ != "messagesSent"@,
        "cpuCores"@ != "messagesPerSecond"@,
        "cpuCores"@ != "memoryMb"@,
        "cpuCores"@ != "aiEnabled"@,
        "cpuCores"@ != "aiModel"@,
        "cpuCores"@ != "prompt"@,
        "cpuCores"@ != "response"@,
        "cpuCores"@ != "responseMs"@,
        "cpuCores"@ != "tokens"@,
        "cpuCores"@ != "cost"@,
        "uptimeSeconds"@ != "userCount"@,
        "uptimeSeconds"@ != "peakUsers"@,
        "uptimeSeconds"@ != "connectionsTotal"@,
        "uptimeSeconds"@ != "messagesSent"@,
        "uptimeSeconds"@ != "messagesPerSecond"@,
        "uptimeSeconds"@ != "memoryMb"@,
        "uptimeSeconds"@ != "aiEnabled"@,
        "uptimeSeconds"@ != "aiModel"@,
        "uptimeSeconds"@ != "prompt"@,
        "uptimeSeconds"@ != "response"@,
        "uptimeSeconds"@ != "responseMs"@,
        "uptimeSeconds"@ != "tokens"@,
        "uptimeSeconds"@ != "cost"@,
        "userCount"@ != "peakUsers"@,
        "userCount"@ != "connectionsTotal"@,
        "userCount"@ != "messagesSent"@,
        "userCount"@ != "messagesPerSecond"@,
        "userCount"@ != "memoryMb"@,
        "userCount"@ != "aiEnabled"@,
        "userCount"@ != "aiModel"@,
        "userCount"@ != "prompt"@,
        "userCount"@ != "response"@,
        "userCount"@ != "responseMs"@,
        "userCount"@ != "tokens"@,
        "userCount"@ != "cost"@,
        "peakUsers"@ != "connectionsTotal"@,
        "peakUsers"@ != "messagesSent"@,
        "peakUsers"@ != "messagesPerSecond"@,
        "peakUsers"@ != "memoryMb"@,
        "peakUsers"@ != "aiEnabled"@,
        "peakUsers"@ != "aiModel"@,
        "peakUsers"@ != "prompt"@,
        "peakUsers"@ != "response"@,
        "peakUsers"@ != "responseMs"@,
        "peakUsers"@ != "tokens"@,
        "peakUsers"@ != "cost"@,
        "connectionsTotal"@ != "messagesSent"@,
        "connectionsTotal"@ != "messagesPerSecond"@,
        "connectionsTotal"@ != "memoryMb"@,
        "connectionsTotal"@ != "aiEnabled"@,
        "connectionsTotal"@ != "aiModel"@,
        "connectionsTotal"@ != "prompt"@,
        "connectionsTotal"@ != "response"@,
        "connectionsTotal"@ != "responseMs"@,
        "connectionsTotal"@ != "tokens"@,
        "connectionsTotal"@ != "cost"@,
        "messagesSent"@ != "messagesPerSecond"@,
        "messagesSent"@ != "memoryMb"@,
        "messagesSent"@ != "aiEnabled"@,
        "messagesSent"@ != "aiModel"@,
        "messagesSent"@ != "prompt"@,
        "messagesSent"@ != "response"@,
        "messagesSent"@ != "responseMs"@,
        "messagesSent"@ != "tokens"@,
        "messagesSent"@ != "cost"@,
        "messagesPerSecond"@ != "memoryMb"@,
        "messagesPerSecond"@ != "aiEnabled"@,
        "messagesPerSecond"@ != "aiModel"@,
        "messagesPerSecond"@ != "prompt"@,
        "messagesPerSecond"@ != "response"@,
        "messagesPerSecond"@ != "responseMs"@,
        "messagesPerSecond"@ != "tokens"@,
        "messagesPerSecond"@ != "cost"@,
        "memoryMb"@ != "aiEnabled"@,
        "memoryMb"@ != "aiModel"@,
        "memoryMb"@ != "prompt"@,
        "memoryMb"@ != "response"@,
        "memoryMb"@ != "responseMs"@,
        "memoryMb"@ != "tokens"@,
        "memoryMb"@ != "cost"@,
        "aiEnabled"@ != "aiModel"@,
        "aiEnabled"@ != "prompt"@,
        "aiEnabled"@ != "response"@,
        "aiEnabled"@ != "responseMs"@,
        "aiEnabled"@ != "tokens"@,
        "aiEnabled"@ != "cost"@,
        "aiModel"@ != "prompt"@,
        "aiModel"@ != "response"@,
        "aiModel"@ != "responseMs"@,
        "aiModel"@ != "tokens"@,
        "aiModel"@ != "cost"@,
        "prompt"@ != "response"@,
        "prompt"@ != "responseMs"@,
        "prompt"@ != "tokens"@,
        "prompt"@ != "cost"@,
        "response"@ != "responseMs"@,
        "response"@ != "tokens"@,
        "response"@ != "cost"@,
        "responseMs"@ != "tokens"@,
        "responseMs"@ != "cost"@,
        "tokens"@ != "cost"@,
{
    reveal_strlit("type");
    reveal_strlit("chat");
    reveal_strlit("system");
    reveal_strlit("ackName");
    reveal_strlit("status");
    reveal_strlit("listUsers");
    reveal_strlit("error");
    reveal_strlit("pong");
    reveal_strlit("ai");
    reveal_strlit("from");
    reveal_strlit("text");
    reveal_strlit("name");
    reveal_strlit("at");
    reveal_strlit("token");
    reveal_strlit("message");
    reveal_strlit("users");
    reveal_strlit("version");
    reveal_strlit("rustVersion");
    reveal_strlit("os");
    reveal_strlit("cpuCores");
    reveal_strlit("uptimeSeconds");
    reveal_strlit("userCount");
    reveal_strlit("peakUsers");
    reveal_strlit("connectionsTotal");
    reveal_strlit("messagesSent");
    reveal_strlit("messagesPerSecond");
    reveal_strlit("memoryMb");
    reveal_strlit("aiEnabled");
    reveal_strlit("aiModel");
    reveal_strlit("prompt");
    reveal_strlit("response");
    reveal_strlit("responseMs");
    reveal_strlit("tokens");
    reveal_strlit("cost");
    assert("type"@.len() == 4);
    assert("chat"@.len() == 4);
    assert("system"@.len() == 6);
    assert("ackName"@.len() == 7);
    assert("status"@.len() == 6);
    assert("listUsers"@.len() == 9);
    assert("error"@.len() == 5);
    assert("pong"@.len() == 4);
    assert("ai"@.len() == 2);
    assert("from"@.len() == 4);
    assert("text"@.len() == 4);
    assert("name"@.len() == 4);
    assert("at"@.len() == 2);
    assert("token"@.len() == 5);
    assert("message"@.len() == 7);
    assert("users"@.len() == 5);
    assert("version"@.len() == 7);
    assert("rustVersion"@.len() == 11);
    assert("os"@.len() == 2);
    assert("cpuCores"@.len() == 8);
    assert("uptimeSeconds"@.len() == 13);
    assert("userCount"@.len() == 9);
    assert("peakUsers"@.len() == 9);
    assert("connectionsTotal"@.len() == 16);
    assert("messagesSent"@.len() == 12);
    assert("messagesPerSecond"@.len() == 17);
    assert("memoryMb"@.len() == 8);
    assert("aiEnabled"@.len() == 9);
    assert("aiModel"@.len() == 7);
    assert("prompt"@.len() == 6);
    assert("response"@.len() == 8);
    assert("responseMs"@.len() == 10);
    assert("tokens"@.len() == 6);
    assert("cost"@.len() == 4);
    assert("type"@ != "chat"@) by {
        assert("type"@[0] == 't');
        assert("chat"@[0] == 'c');
    }
    assert("type"@ != "pong"@) by {
        assert("type"@[0] == 't');
        assert("pong"@[0] == 'p');
    }
    assert("type"@ != "from"@) by {
        assert("type"@[0] == 't');
        assert("from"@[0] == 'f');
    }
    assert("type"@ != "text"@) by {
        assert("type"@[1] == 'y');
        assert("text"@[1] == 'e');
    }
    assert("type"@ != "name"@) by {
        assert("type"@[0] == 't');
        assert("name"@[0] == 'n');
    }
    assert("type"@ != "cost"@) by {
        assert("type"@[0] == 't');
        assert("cost"@[0] == 'c');
    }
    assert("chat"@ != "pong"@) by {
        assert("chat"@[0] == 'c');
        assert("pong"@[0] == 'p');
    }
    assert("chat"@ != "from"@) by {
        assert("chat"@[0] == 'c');
        assert("from"@[0] == 'f');
    }
    assert("chat"@ != "text"@) by {
        assert("chat"@[0] == 'c');
        assert("text"@[0] == 't');
    }
    assert("chat"@ != "name"@) by {
        assert("chat"@[0] == 'c');
        assert("name"@[0] == 'n');
    }
    assert("chat"@ != "cost"@) by {
        assert("chat"@[1] == 'h');
        assert("cost"@[1] == 'o');
    }
    assert("system"@ != "status"@) by {
        assert("system"@[1] == 'y');
        assert("status"@[1] == 't');
    }
    assert("system"@ != "prompt"@) by {
        assert("system"@[0] == 's');
        assert("prompt"@[0] == 'p');
    }
    assert("system"@ != "tokens"@) by {
        assert("system"@[0] == 's');
        assert("tokens"@[0] == 't');
    }
    assert("ackName"@ != "message"@) by {
        assert("ackName"@[0] == 'a');
        assert("message"@[0] == 'm');
    }
    assert("ackName"@ != "version"@) by {
        assert("ackName"@[0] == 'a');
        assert("version"@[0] == 'v');
    }
    assert("ackName"@ != "aiModel"@) by {
        assert("ackName"@[1] == 'c');
        assert("aiModel"@[1] == 'i');
    }
    assert("status"@ != "prompt"@) by {
        assert("status"@[0] == 's');
        assert("prompt"@[0] == 'p');
    }
    assert("status"@ != "tokens"@) by {
        assert("status"@[0] == 's');
        assert("tokens"@[0] == 't');
    }
    assert("listUsers"@ != "userCount"@) by {
        assert("listUsers"@[0] == 'l');
        assert("userCount"@[0] == 'u');
    }
    assert("listUsers"@ != "peakUsers"@) by {
        assert("listUsers"@[0] == 'l');
        assert("peakUsers"@[0] == 'p');
    }
    assert("listUsers"@ != "aiEnabled"@) by {
        assert("listUsers"@[0] == 'l');
        assert("aiEnabled"@[0] == 'a');
    }
    assert("error"@ != "token"@) by {
        assert("error"@[0] == 'e');
        assert("token"@[0] == 't');
    }
    assert("error"@ != "users"@) by {
        assert("error"@[0] == 'e');
        assert("users"@[0] == 'u');
    }
    assert("pong"@ != "from"@) by {
        assert("pong"@[0] == 'p');
        assert("from"@[0] == 'f');
    }
    assert("pong"@ != "text"@) by {
        assert("pong"@[0] == 'p');
        assert("text"@[0] == 't');
    }
    assert("pong"@ != "name"@) by {
        assert("pong"@[0] == 'p');
        assert("name"@[0] == 'n');
    }
    assert("pong"@ != "cost"@) by {
        assert("pong"@[0] == 'p');
        assert("cost"@[0] == 'c');
    }
    assert("ai"@ != "at"@) by {
        assert("ai"@[1] == 'i');
        assert("at"@[1] == 't');
    }
    assert("ai"@ != "os"@) by {
        assert("ai"@[0] == 'a');
        assert("os"@[0] == 'o');
    }
    assert("from"@ != "text"@) by {
        assert("from"@[0] == 'f');
        assert("text"@[0] == 't');
    }
    assert("from"@ != "name"@) by {
        assert("from"@[0] == 'f');
        assert("name"@[0] == 'n');
    }
    assert("from"@ != "cost"@) by {
        assert("from"@[0] == 'f');
        assert("cost"@[0] == 'c');
    }
    assert("text"@ != "name"@) by {
        assert("text"@[0] == 't');
        assert("name"@[0] == 'n');
    }
    assert("text"@ != "cost"@) by {
        assert("text"@[0] == 't');
        assert("cost"@[0] == 'c');
    }
    assert("name"@ != "cost"@) by {
        assert("name"@[0] == 'n');
        assert("cost"@[0] == 'c');
    }
    assert("at"@ != "os"@) by {
        assert("at"@[0] == 'a');
        assert("os"@[0] == 'o');
    }
    assert("token"@ != "users"@) by {
        assert("token"@[0] == 't');
        assert("users"@[0] == 'u');
    }
    assert("message"@ != "version"@) by {
        assert("message"@[0] == 'm');
        assert("version"@[0] == 'v');
    }
    assert("message"@ != "aiModel"@) by {
        assert("message"@[0] == 'm');
        assert("aiModel"@[0] == 'a');
    }
    assert("version"@ != "aiModel"@) by {
        assert("version"@[0] == 'v');
        assert("aiModel"@[0] == 'a');
    }
    assert("cpuCores"@ != "memoryMb"@) by {
        assert("cpuCores"@[0] == 'c');
        assert("memoryMb"@[0] == 'm');
    }
    assert("cpuCores"@ != "response"@) by {
        assert("cpuCores"@[0] == 'c');
        assert("response"@[0] == 'r');
    }
    assert("userCount"@ != "peakUsers"@) by {
        assert("userCount"@[0] == 'u');
        assert("peakUsers"@[0] == 'p');
    }
    assert("userCount"@ != "aiEnabled"@) by {
        assert("userCount"@[0] == 'u');
        assert("aiEnabled"@[0] == 'a');
    }
    assert("peakUsers"@ != "aiEnabled"@) by {
        assert("peakUsers"@[0] == 'p');
        assert("aiEnabled"@[0] == 'a');
    }
    assert("memoryMb"@ != "response"@) by {
        assert("memoryMb"@[0] == 'm');
        assert("response"@[0] == 'r');
    }
    assert("prompt"@ != "tokens"@) by {
        assert("prompt"@[0] == 'p');
        assert("tokens"@[0] == 't');
    }
}

#[verifier::rlimit(100)]
proof fn lemma_fixture_interp_chat(e: IncomingV)
    requires
        e is Chat,
    ensures
        (match in_json(e) {
            JsonV::Obj(ms) => interp_obj(ms) == DecodeResultV::Event(e),
            _ => false,
        }),
{
    reveal_frame_keys();
    if let IncomingV::Chat { from, text, at } = e {
        if let JsonV::Obj(ms) = in_json(e) {
            lemma_obj_get_at(ms, 0);
            lemma_obj_get_at(ms, 1);
            lemma_obj_get_at(ms, 2);
            lemma_obj_get_at(ms, 3);
            match at {
                Option::Some(n) => lemma_num_as_u64_dec(n),
                Option::None => {},
            }
        }
    }
}

#[verifier::rlimit(100)]
proof fn lemma_fixture_interp_system(e: IncomingV)
    requires
        e is System,
    ensures
        (match in_json(e) {
            JsonV::Obj(ms) => interp_obj(ms) == DecodeResultV::Event(e),
            _ => false,
        }),
{
    reveal_frame_keys();
    if let IncomingV::System { text, at } = e {
        if let JsonV::Obj(ms) = in_json(e) {
            lemma_obj_get_at(ms, 0);
            lemma_obj_get_at(ms, 1);
            lemma_obj_get_at(ms, 2);
            match at {
                Option::Some(n) => lemma_num_as_u64_dec(n),
                Option::None => {},
            }
        }
    }
}

#[verifier::rlimit(100)]
proof fn lemma_fixture_interp_ack(e: IncomingV)
    requires
        e is AckName,
    ensures
        (match in_json(e) {
            JsonV::Obj(ms) => interp_obj(ms) == DecodeResultV::Event(e),
            _ => false,
        }),
{
    reveal_frame_keys();
    if let IncomingV::AckName { name, at } = e {
        if let JsonV::Obj(ms) = in_json(e) {
            lemma_obj_get_at(ms, 0);
            lemma_obj_get_at(ms, 1);
            lemma_obj_get_at(ms, 2);
            match at {
                Option::Some(n) => lemma_num_as_u64_dec(n),
                Option::None => {},
            }
        }
    }
}

#[verifier::rlimit(100)]
proof fn lemma_fixture_interp_status(e: IncomingV)
    requires
        e is Status,
    ensures
        (match in_json(e) {
            JsonV::Obj(ms) => interp_obj(ms) == DecodeResultV::Event(e),
            _ => false,
        }),
{
    reveal_frame_keys();
    if let IncomingV::Status {
        cpu_cores,
        uptime_seconds,
        user_count,
        peak_users,
        connections_total,
        messages_sent,
        at,
        ..
    } = e {
        if let JsonV::Obj(ms) = in_json(e) {
            lemma_obj_get_at(ms, 0);
            lemma_obj_get_at(ms, 1);
            lemma_obj_get_at(ms, 2);
            lemma_obj_get_at(ms, 3);
            lemma_obj_get_at(ms, 4);
            lemma_obj_get_at(ms, 5);
            lemma_obj_get_at(ms, 6);
            lemma_obj_get_at(ms, 7);
            lemma_obj_get_at(ms, 8);
            lemma_obj_get_at(ms, 9);
            lemma_obj_get_at(ms, 10);
            lemma_obj_get_at(ms, 11);
            lemma_obj_get_at(ms, 12);
            lemma_obj_get_at(ms, 13);
            lemma_obj_get_at(ms, 14);
            match cpu_cores {
                Option::Some(n) => lemma_num_as_u64_dec(n),
                Option::None => {},
            }
            lemma_num_as_u64_dec(uptime_seconds);
            lemma_num_as_u64_dec(user_count);
            match peak_users {
                Option::Some(n) => lemma_num_as_u64_dec(n),
                Option::None => {},
            }
            match connections_total {
                Option::Some(n) => lemma_num_as_u64_dec(n),
                Option::None => {},
            }
            lemma_num_as_u64_dec(messages_sent);
            match at {
                Option::Some(n) => lemma_num_as_u64_dec(n),
                Option::None => {},
            }
        }
    }
}

#[verifier::rlimit(100)]
proof fn lemma_fixture_interp_list_users(e: IncomingV)
    requires
        e is ListUsers,
    ensures
        (match in_json(e) {
            JsonV::Obj(ms) => interp_obj(ms) == DecodeResultV::Event(e),
            _ => false,
        }),
{
    reveal_frame_keys();
    if let IncomingV::ListUsers { users, at } = e {
        if let JsonV::Obj(ms) = in_json(e) {
            lemma_obj_get_at(ms, 0);
            lemma_obj_get_at(ms, 1);
            lemma_obj_get_at(ms, 2);
            lemma_users_fixture(users);
            match at {
                Option::Some(n) => lemma_num_as_u64_dec(n),
                Option::None => {},
            }
        }
    }
}

#[verifier::rlimit(100)]
proof fn lemma_fixture_interp_error(e: IncomingV)
    requires
        e is Error,
    ensures
        (match in_json(e) {
            JsonV::Obj(ms) => interp_obj(ms) == DecodeResultV::Event(e),
            _ => false,
        }),
{
    reveal_frame_keys();
    if let IncomingV::Error { message, at } = e {
        if let JsonV::Obj(ms) = in_json(e) {
            lemma_obj_get_at(ms, 0);
            lemma_obj_get_at(ms, 1);
            lemma_obj_get_at(ms, 2);
            match at {
                Option::Some(n) => lemma_num_as_u64_dec(n),
                Option::None => {},
            }
        }
    }
}

#[verifier::rlimit(100)]
proof fn lemma_fixture_interp_pong(e: IncomingV)
    requires
        e is Pong,
    ensures
        (match in_json(e) {
            JsonV::Obj(ms) => interp_obj(ms) == DecodeResultV::Event(e),
            _ => false,
        }),
{
    reveal_frame_keys();
    if let IncomingV::Pong { token, at } = e {
        if let JsonV::Obj(ms) = in_json(e) {
            lemma_obj_get_at(ms, 0);
            lemma_obj_get_at(ms, 1);
            lemma_obj_get_at(ms, 2);
            match at {
                Option::Some(n) => lemma_num_as_u64_dec(n),
                Option::None => {},
            }
        }
    }
}

#[verifier::rlimit(100)]
proof fn lemma_fixture_interp_ai(e: IncomingV)
    requires
        e is Ai,
    ensures
        (match in_json(e) {
            JsonV::Obj(ms) => interp_obj(ms) == DecodeResultV::Event(e),
            _ => false,
        }),
{
    reveal_frame_keys();
    if let IncomingV::Ai { response_ms, tokens, at, .. } = e {
        if let JsonV::Obj(ms) = in_json(e) {
            lemma_obj_get_at(ms, 0);
            lemma_obj_get_at(ms, 1);
            lemma_obj_get_at(ms, 2);
            lemma_obj_get_at(ms, 3);
            lemma_obj_get_at(ms, 4);
            lemma_obj_get_at(ms, 5);
            lemma_obj_get_at(ms, 6);
            lemma_obj_get_at(ms, 7);
            lemma_num_as_u64_dec(response_ms);
            match tokens {
                Option::Some(n) => lemma_num_as_u64_dec(n as u64),
                Option::None => {},
            }
            match at {
                Option::Some(n) => lemma_num_as_u64_dec(n),
                Option::None => {},
            }
        }
    }
}

/// Law: the codec round-trips across the wire. For every event, decoding
/// the fixture frame that a server with the matching field names spells for
/// it yields exactly that event.
pub proof fn lemma_decode_fixture(e: IncomingV)
    requires
        wf_incoming(e),
    ensures
        decode_spec(ser_json(in_json(e))) == DecodeResultV::Event(e),
{
    lemma_fixture_wf(e);
    lemma_parse_ser_json(in_json(e));
    match e {
        IncomingV::Chat { .. } => lemma_fixture_interp_chat(e),
        IncomingV::System { .. } => lemma_fixture_interp_system(e),
        IncomingV::AckName { .. } => lemma_fixture_interp_ack(e),
        IncomingV::Status { .. } => lemma_fixture_interp_status(e),
        IncomingV::ListUsers { .. } => lemma_fixture_interp_list_users(e),
        IncomingV::Error { .. } => lemma_fixture_interp_error(e),
        IncomingV::Pong { .. } => lemma_fixture_interp_pong(e),
        IncomingV::Ai { .. } => lemma_fixture_interp_ai(e),
    }
}

} // verus!
