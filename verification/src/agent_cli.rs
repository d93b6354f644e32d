//! The coding-agent command-line tool (its program name is given by the
//! caller): how its installation is reported and how a
//! chat is turned into the turns written to it.
use vstd::prelude::*;
use crate::text::{contains, contains_str, hex_digit_char, i64_to_decimal, signed_decimal, str_eq, trim_str, trim_ws};

verus! {

/// One message of a chat.
#[derive(Debug, Clone)]
pub struct ChatMessage {
    pub role: String,
    pub content: String,
}

/// One message of a chat as a request carries it.
#[derive(Debug, Clone)]
pub struct ChatMessageBody {
    pub role: String,
    pub content: String,
}

/// The body of a request that starts the tool.
#[derive(Debug)]
pub struct SpawnBody {
    pub stream_id: String,
    pub model: String,
    pub messages: Vec<ChatMessageBody>,
}

/// The body of a request that stops a running tool.
#[derive(Debug)]
pub struct KillBody {
    pub stream_id: String,
}

/// What detection found out about the tool.
#[derive(Debug)]
pub struct DetectResult {
    pub installed: bool,
    pub version: Option<String>,
    pub path: Option<String>,
    pub error: Option<String>,
}

/// How running the program with `--version` ended.
#[derive(Debug)]
pub enum VersionOutcome {
    /// It exited successfully with this output.
    Succeeded { stdout: String },
    /// It exited with a failure status (as the status displays) and this
    /// error output.
    Failed { stderr: String, status: String },
    /// It could not be started.
    SpawnFailed { error: String },
    /// It did not finish within three seconds.
    TimedOut,
}

/// The result when `program` is not on the `PATH`.
pub fn detect_not_found(program: &str) -> (r: DetectResult)
    ensures
        !r.installed,
        r.version is None,
        r.path is None,
        r.error matches Some(e) && e@ == "`"@ + program@ + "` not found on PATH"@,
{
    let mut m = String::from_str("`");
    m.append(program);
    m.append("` not found on PATH");
    DetectResult { installed: false, version: None, path: None, error: Some(m) }
}

/// The error reported for a failed version check of `program` at `path`,
/// from its trimmed error output and its exit status.
pub open spec fn failure_message(program: Seq<char>, stderr: Seq<char>, status: Seq<char>, path: Seq<char>) -> Seq<char> {
    if contains(stderr, "quarantine"@) || contains(stderr, "damaged"@) {
        "Binary quarantined \u{2014} try: xattr -d com.apple.quarantine "@ + path
    } else if stderr.len() == 0 {
        "`"@ + program + " --version` exited with "@ + status
    } else {
        stderr
    }
}

/// The result of detection for `program` found at `path`, given how its
/// version check ended: installed with the trimmed version on success, and
/// otherwise not installed with the reason.
pub fn detect_result(program: &str, path: String, outcome: VersionOutcome) -> (r: DetectResult)
    ensures
        r.path == Some(path),
        match outcome {
            VersionOutcome::Succeeded { stdout } => r.installed && (r.version matches Some(v) && v@
                == trim_ws(stdout@)) && r.error is None,
            VersionOutcome::Failed { stderr, status } => !r.installed && r.version is None && (
            r.error matches Some(e) && e@ == failure_message(program@, trim_ws(stderr@), status@, path@)),
            VersionOutcome::SpawnFailed { error } => !r.installed && r.version is None && (
            r.error matches Some(e) && e@ == "Failed to spawn `"@ + program@ + "`: "@ + error@),
            VersionOutcome::TimedOut => !r.installed && r.version is None && (r.error matches Some(e) && e@
                == "`"@ + program@ + " --version` timed out after 3s"@),
        },
{
    match outcome {
        VersionOutcome::Succeeded { stdout } => DetectResult {
            installed: true,
            version: Some(trim_str(stdout.as_str())),
            path: Some(path),
            error: None,
        },
        VersionOutcome::Failed { stderr, status } => {
            let err = trim_str(stderr.as_str());
            let msg = if contains_str(err.as_str(), "quarantine") || contains_str(err.as_str(), "damaged") {
                let mut m = String::from_str("Binary quarantined \u{2014} try: xattr -d com.apple.quarantine ");
                m.append(path.as_str());
                m
            } else if err.as_str().unicode_len() == 0 {
                let mut m = String::from_str("`");
                m.append(program);
                m.append(" --version` exited with ");
                m.append(status.as_str());
                m
            } else {
                err
            };
            DetectResult { installed: false, version: None, path: Some(path), error: Some(msg) }
        },
        VersionOutcome::SpawnFailed { error } => {
            let mut m = String::from_str("Failed to spawn `");
            m.append(program);
            m.append("`: ");
            m.append(error.as_str());
            DetectResult { installed: false, version: None, path: Some(path), error: Some(m) }
        },
        VersionOutcome::TimedOut => {
            let mut m = String::from_str("`");
            m.append(program);
            m.append(" --version` timed out after 3s");
            DetectResult { installed: false, version: None, path: Some(path), error: Some(m) }
        },
    }
}

/// The arguments the tool is started with for `model`.
pub fn cli_args(model: &str) -> (r: Vec<String>)
    ensures
        r@.len() == 8,
        r@[0]@ == "-p"@,
        r@[1]@ == "--output-format"@,
        r@[2]@ == "stream-json"@,
        r@[3]@ == "--input-format"@,
        r@[4]@ == "stream-json"@,
        r@[5]@ == "--verbose"@,
        r@[6]@ == "--model"@,
        r@[7]@ == model@,
{
    let mut a: Vec<String> = Vec::new();
    a.push(String::from_str("-p"));
    a.push(String::from_str("--output-format"));
    a.push(String::from_str("stream-json"));
    a.push(String::from_str("--input-format"));
    a.push(String::from_str("stream-json"));
    a.push(String::from_str("--verbose"));
    a.push(String::from_str("--model"));
    a.push(String::from_str(model));
    a
}

// ---------------------------------------------------------------------------
// Turns
// ---------------------------------------------------------------------------

/// A message as its (role, content) characters.
pub open spec fn message_view(m: ChatMessage) -> (Seq<char>, Seq<char>) {
    (m.role@, m.content@)
}

/// The contents of the `system` messages, in order.
pub open spec fn system_contents(msgs: Seq<(Seq<char>, Seq<char>)>) -> Seq<Seq<char>>
    decreases msgs.len(),
{
    if msgs.len() == 0 {
        seq![]
    } else if msgs.last().0 == "system"@ {
        system_contents(msgs.drop_last()).push(msgs.last().1)
    } else {
        system_contents(msgs.drop_last())
    }
}

/// The parts joined with `sep` between consecutive parts.
pub open spec fn join_with(parts: Seq<Seq<char>>, sep: Seq<char>) -> Seq<char>
    decreases parts.len(),
{
    if parts.len() == 0 {
        seq![]
    } else if parts.len() == 1 {
        parts[0]
    } else {
        join_with(parts.drop_last(), sep) + sep + parts.last()
    }
}

/// The `user` and `assistant` messages, in order.
pub open spec fn conversation(msgs: Seq<(Seq<char>, Seq<char>)>) -> Seq<(Seq<char>, Seq<char>)>
    decreases msgs.len(),
{
    if msgs.len() == 0 {
        seq![]
    } else if msgs.last().0 == "user"@ || msgs.last().0 == "assistant"@ {
        conversation(msgs.drop_last()).push(msgs.last())
    } else {
        conversation(msgs.drop_last())
    }
}

/// The system messages, joined by blank lines.
pub open spec fn system_preamble(msgs: Seq<(Seq<char>, Seq<char>)>) -> Seq<char> {
    join_with(system_contents(msgs), "\n\n"@)
}

/// `i` is the index of the first `user` turn.
pub open spec fn is_first_user(conv: Seq<(Seq<char>, Seq<char>)>, i: int) -> bool {
    0 <= i < conv.len() && conv[i].0 == "user"@ && forall|j: int| 0 <= j < i ==> conv[j].0 != "user"@
}

/// The turns written to the tool: the conversation, where the first `user`
/// turn is preceded by the system preamble and a blank line when there is a
/// preamble.
pub open spec fn spec_turns(msgs: Seq<(Seq<char>, Seq<char>)>) -> Seq<(Seq<char>, Seq<char>)> {
    let conv = conversation(msgs);
    let pre = system_preamble(msgs);
    Seq::new(
        conv.len(),
        |i: int|
            if pre.len() > 0 && is_first_user(conv, i) {
                (conv[i].0, pre + "\n\n"@ + conv[i].1)
            } else {
                conv[i]
            },
    )
}

/// The messages as their characters.
pub open spec fn messages_view(msgs: Seq<ChatMessage>) -> Seq<(Seq<char>, Seq<char>)> {
    msgs.map_values(|m: ChatMessage| message_view(m))
}

/// The turns to write to the tool for a chat, refused when the chat has no
/// `user` or `assistant` message.
pub fn build_turns(program: &str, messages: &Vec<ChatMessage>) -> (r: Result<Vec<(String, String)>, String>)
    ensures
        conversation(messages_view(messages@)).len() == 0 ==> (r matches Err(e) && e@
            == "No user/assistant messages to send to "@ + program@ + " CLI"@),
        conversation(messages_view(messages@)).len() > 0 ==> (r matches Ok(t) && t.deep_view()
            == spec_turns(messages_view(messages@))),
{
    let ghost mv = messages_view(messages@);
    // The system preamble.
    let mut pre = String::new();
    let mut parts: usize = 0;
    let mut i: usize = 0;
    while i < messages.len()
        invariant
            i <= messages@.len(),
            mv == messages_view(messages@),
            parts <= i,
            parts == system_contents(mv.take(i as int)).len(),
            pre@ == join_with(system_contents(mv.take(i as int)), "\n\n"@),
        decreases messages.len() - i,
    {
        assert(mv.take(i + 1).drop_last() =~= mv.take(i as int));
        assert(mv.take(i + 1).last() == message_view(messages@[i as int]));
        if str_eq(messages[i].role.as_str(), "system") {
            let ghost prev = system_contents(mv.take(i as int));
            assert(system_contents(mv.take(i + 1)) == prev.push(messages@[i as int].content@));
            if parts > 0 {
                pre.append("\n\n");
                pre.append(messages[i].content.as_str());
                assert(prev.push(messages@[i as int].content@).drop_last() =~= prev);
            } else {
                assert(prev.len() == 0);
                assert(pre@ =~= Seq::<char>::empty());
                pre.append(messages[i].content.as_str());
                assert(pre@ =~= messages@[i as int].content@);
            }
            parts = parts + 1;
        } else {
            assert(system_contents(mv.take(i + 1)) == system_contents(mv.take(i as int)));
        }
        i = i + 1;
    }
    assert(mv.take(messages@.len() as int) =~= mv);
    // The conversation, with the preamble folded into the first user turn.
    let has_pre = pre.as_str().unicode_len() > 0;
    let mut turns: Vec<(String, String)> = Vec::new();
    let mut first_user_seen = false;
    let mut k: usize = 0;
    while k < messages.len()
        invariant
            k <= messages@.len(),
            mv == messages_view(messages@),
            pre@ == system_preamble(mv),
            has_pre == (pre@.len() > 0),
            turns.deep_view().len() == conversation(mv.take(k as int)).len(),
            first_user_seen == (exists|j: int|
                0 <= j < conversation(mv.take(k as int)).len() && conversation(mv.take(k as int))[j].0
                    == "user"@),
            forall|j: int|
                0 <= j < turns.deep_view().len() ==> turns.deep_view()[j] == (if has_pre && is_first_user(
                    conversation(mv.take(k as int)),
                    j,
                ) {
                    (conversation(mv.take(k as int))[j].0, pre@ + "\n\n"@ + conversation(mv.take(k as int))[j].1)
                } else {
                    conversation(mv.take(k as int))[j]
                }),
        decreases messages.len() - k,
    {
        let ghost prev = conversation(mv.take(k as int));
        assert(mv.take(k + 1).drop_last() =~= mv.take(k as int));
        assert(mv.take(k + 1).last() == message_view(messages@[k as int]));
        let role = messages[k].role.as_str();
        let is_user = str_eq(role, "user");
        if is_user || str_eq(role, "assistant") {
            let ghost cur = conversation(mv.take(k + 1));
            assert(cur == prev.push(message_view(messages@[k as int])));
            let content = if is_user && !first_user_seen && has_pre {
                let mut c = pre.clone();
                c.append("\n\n");
                c.append(messages[k].content.as_str());
                c
            } else {
                messages[k].content.clone()
            };
            let ghost before = turns.deep_view();
            turns.push((messages[k].role.clone(), content));
            proof {
                assert(turns.deep_view() =~= before.push((messages@[k as int].role@, content@)));
                assert forall|j: int| 0 <= j < prev.len() implies is_first_user(cur, j) == is_first_user(prev, j) by {
                    assert(cur[j] == prev[j]);
                    if is_first_user(prev, j) {
                        assert forall|q: int| 0 <= q < j implies cur[q].0 != "user"@ by {
                            assert(cur[q] == prev[q]);
                        }
                    }
                    if is_first_user(cur, j) {
                        assert forall|q: int| 0 <= q < j implies prev[q].0 != "user"@ by {
                            assert(cur[q] == prev[q]);
                        }
                    }
                }
                let last = prev.len() as int;
                if is_first_user(cur, last) {
                    assert forall|j: int| 0 <= j < prev.len() implies prev[j].0 != "user"@ by {
                        assert(cur[j] == prev[j]);
                    }
                }
                if is_user && !first_user_seen {
                    assert(is_first_user(cur, last));
                } else if is_user {
                    let w = choose|j: int| 0 <= j < prev.len() && prev[j].0 == "user"@;
                    assert(cur[w] == prev[w]);
                    assert(!is_first_user(cur, last));
                }
                assert forall|j: int| 0 <= j < turns.deep_view().len() implies turns.deep_view()[j] == (if has_pre
                    && is_first_user(cur, j) {
                    (cur[j].0, pre@ + "\n\n"@ + cur[j].1)
                } else {
                    cur[j]
                }) by {
                    if j < prev.len() {
                        assert(cur[j] == prev[j]);
                        assert(turns.deep_view()[j] == before[j]);
                    }
                }
                if is_user {
                    assert(cur[last].0 == "user"@);
                }
                assert((first_user_seen || is_user) == (exists|j: int| 0 <= j < cur.len() && cur[j].0 == "user"@)) by {
                    if exists|j: int| 0 <= j < cur.len() && cur[j].0 == "user"@ {
                        let w = choose|j: int| 0 <= j < cur.len() && cur[j].0 == "user"@;
                        if w < prev.len() {
                            assert(cur[w] == prev[w]);
                        }
                    }
                    if first_user_seen {
                        let w = choose|j: int| 0 <= j < prev.len() && prev[j].0 == "user"@;
                        assert(cur[w] == prev[w]);
                    }
                }
            }
            if is_user {
                first_user_seen = true;
            }
        } else {
            assert(conversation(mv.take(k + 1)) == prev);
        }
        k = k + 1;
    }
    assert(mv.take(messages@.len() as int) =~= mv);
    if turns.len() == 0 {
        let mut m = String::from_str("No user/assistant messages to send to ");
        m.append(program);
        m.append(" CLI");
        return Err(m);
    }
    assert(turns.deep_view() =~= spec_turns(mv));
    Ok(turns)
}

// ---------------------------------------------------------------------------
// The lines exchanged with the tool
// ---------------------------------------------------------------------------

/// How JSON writes one character inside a string: `"` and `\\` and the
/// control characters with a short escape get a backslash escape, the other
/// control characters `\u00XX` with lower-case hexadecimal digits, and every
/// other character stands for itself.
pub open spec fn json_escape_char(c: char) -> Seq<char> {
    let n = c as int;
    if c == '"' {
        seq!['\\', '"']
    } else if c == '\\' {
        seq!['\\', '\\']
    } else if n == 8 {
        seq!['\\', 'b']
    } else if n == 12 {
        seq!['\\', 'f']
    } else if n == 10 {
        seq!['\\', 'n']
    } else if n == 13 {
        seq!['\\', 'r']
    } else if n == 9 {
        seq!['\\', 't']
    } else if n < 0x20 {
        seq!['\\', 'u', '0', '0', hex_digit_char((n / 16) as nat), hex_digit_char((n % 16) as nat)]
    } else {
        seq![c]
    }
}

/// The characters of `s`, each written as JSON writes it inside a string.
pub open spec fn json_escaped(s: Seq<char>) -> Seq<char>
    decreases s.len(),
{
    if s.len() == 0 {
        seq![]
    } else {
        json_escaped(s.drop_last()) + json_escape_char(s.last())
    }
}

/// The JSON string literal that spells `s`: its escaped characters between
/// double quotes.
pub open spec fn json_quoted(s: Seq<char>) -> Seq<char> {
    seq!['"'] + json_escaped(s) + seq!['"']
}

/// The JSON string literal that spells `s`.
///
/// Wraps `serde_json::to_string` on a `&str`, which writes the string
/// between quotes, escaping `"`, `\\`, backspace, form feed, line feed,
/// carriage return and tab with a backslash and the other characters below
/// U+0020 as `\u00XX` in lower-case hexadecimal; serialising a string does
/// not fail.
#[verifier::external_body]
fn json_quote(s: &str) -> (r: String)
    ensures
        r@ == json_quoted(s@),
{
    serde_json::to_string(s).unwrap_or_default()
}

/// The input line that hands one turn to the tool: a `role` event whose
/// message holds `content` as its only text part, with the keys of each
/// object in sorted order as `serde_json` writes them.
pub open spec fn spec_turn_line(role: Seq<char>, content: Seq<char>) -> Seq<char> {
    "{\"message\":{\"content\":[{\"text\":"@ + json_quoted(content) + ",\"type\":\"text\"}],\"role\":"@
        + json_quoted(role) + "},\"type\":"@ + json_quoted(role) + "}\n"@
}

/// The input line that hands one turn to the tool.
pub fn turn_line(role: &str, content: &str) -> (r: String)
    ensures
        r@ == spec_turn_line(role@, content@),
{
    let q_role = json_quote(role);
    let q_content = json_quote(content);
    let mut line = String::from_str("{\"message\":{\"content\":[{\"text\":");
    line.append(q_content.as_str());
    line.append(",\"type\":\"text\"}],\"role\":");
    line.append(q_role.as_str());
    line.append("},\"type\":");
    line.append(q_role.as_str());
    line.append("}\n");
    line
}

/// The last line of a run's output: `__done__:` and an object with the
/// tool's exit code (`null` when it has none) and its error output, keys in
/// sorted order.
pub open spec fn spec_done_line(code: Option<i32>, stderr: Seq<char>) -> Seq<char> {
    "__done__:{\"code\":"@ + (match code {
        Some(c) => signed_decimal(c as int),
        None => "null"@,
    }) + ",\"stderr\":"@ + json_quoted(stderr) + ",\"type\":\"done\"}"@
}

/// The last line of a run's output.
pub fn done_line(code: Option<i32>, stderr: &str) -> (r: String)
    ensures
        r@ == spec_done_line(code, stderr@),
{
    let mut line = String::from_str("__done__:{\"code\":");
    match code {
        Some(c) => {
            let d = i64_to_decimal(c as i64);
            line.append(d.as_str());
        },
        None => line.append("null"),
    }
    line.append(",\"stderr\":");
    let q = json_quote(stderr);
    line.append(q.as_str());
    line.append(",\"type\":\"done\"}");
    line
}

/// The chat messages of a request, as the tool's messages.
pub fn messages_from_bodies(bodies: Vec<ChatMessageBody>) -> (r: Vec<ChatMessage>)
    ensures
        r@.len() == bodies@.len(),
        forall|i: int| 0 <= i < bodies@.len() ==> r@[i].role == bodies@[i].role && r@[i].content == bodies@[i].content,
{
    let mut out: Vec<ChatMessage> = Vec::new();
    let mut i: usize = 0;
    while i < bodies.len()
        invariant
            i <= bodies@.len(),
            out@.len() == i,
            forall|k: int| 0 <= k < i ==> out@[k].role == bodies@[k].role && out@[k].content == bodies@[k].content,
        decreases bodies.len() - i,
    {
        out.push(ChatMessage { role: bodies[i].role.clone(), content: bodies[i].content.clone() });
        i = i + 1;
    }
    out
}

} // verus!
