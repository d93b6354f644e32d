use wiki_server::agent_cli::{
    build_turns, cli_args, detect_not_found, detect_result, done_line, messages_from_bodies, turn_line, ChatMessage,
    ChatMessageBody, VersionOutcome,
};

const PROGRAM: &str = "agent";

fn m(role: &str, content: &str) -> ChatMessage {
    ChatMessage { role: role.to_string(), content: content.to_string() }
}

fn pairs(v: &[(&str, &str)]) -> Vec<(String, String)> {
    v.iter().map(|(a, b)| (a.to_string(), b.to_string())).collect()
}

#[test]
fn detection_results() {
    let nf = detect_not_found(PROGRAM);
    assert!(!nf.installed);
    assert_eq!(nf.error.as_deref(), Some("`agent` not found on PATH"));
    let ok = detect_result(PROGRAM, "/usr/bin/agent".to_string(), VersionOutcome::Succeeded { stdout: " 1.2.3 (Code)\n".to_string() });
    assert!(ok.installed);
    assert_eq!(ok.version.as_deref(), Some("1.2.3 (Code)"));
    assert_eq!(ok.path.as_deref(), Some("/usr/bin/agent"));
    assert!(ok.error.is_none());
    let q = detect_result(PROGRAM, "/c".to_string(), VersionOutcome::Failed { stderr: "file is damaged\n".to_string(), status: "exit status: 1".to_string() });
    assert_eq!(q.error.as_deref(), Some("Binary quarantined \u{2014} try: xattr -d com.apple.quarantine /c"));
    let e = detect_result(PROGRAM, "/c".to_string(), VersionOutcome::Failed { stderr: "  ".to_string(), status: "exit status: 2".to_string() });
    assert_eq!(e.error.as_deref(), Some("`agent --version` exited with exit status: 2"));
    let o = detect_result(PROGRAM, "/c".to_string(), VersionOutcome::Failed { stderr: " boom ".to_string(), status: "x".to_string() });
    assert_eq!(o.error.as_deref(), Some("boom"));
    let s = detect_result(PROGRAM, "/c".to_string(), VersionOutcome::SpawnFailed { error: "denied".to_string() });
    assert_eq!(s.error.as_deref(), Some("Failed to spawn `agent`: denied"));
    let t = detect_result(PROGRAM, "/c".to_string(), VersionOutcome::TimedOut);
    assert_eq!(t.error.as_deref(), Some("`agent --version` timed out after 3s"));
    assert!(!t.installed);
}

#[test]
fn command_line() {
    assert_eq!(
        cli_args("sonnet"),
        vec!["-p", "--output-format", "stream-json", "--input-format", "stream-json", "--verbose", "--model", "sonnet"]
    );
}

#[test]
fn system_messages_fold_into_first_user_turn() {
    let msgs = vec![
        m("system", "Be brief."),
        m("assistant", "Hello"),
        m("user", "Q1"),
        m("system", "Cite sources."),
        m("user", "Q2"),
        m("tool", "ignored"),
    ];
    assert_eq!(
        build_turns(PROGRAM, &msgs),
        Ok(pairs(&[("assistant", "Hello"), ("user", "Be brief.\n\nCite sources.\n\nQ1"), ("user", "Q2")]))
    );
}

#[test]
fn without_system_messages_turns_are_unchanged() {
    let msgs = vec![m("user", "a"), m("assistant", "b"), m("user", "c")];
    assert_eq!(build_turns(PROGRAM, &msgs), Ok(pairs(&[("user", "a"), ("assistant", "b"), ("user", "c")])));
    let only_assistant = vec![m("system", "s"), m("assistant", "x")];
    assert_eq!(build_turns(PROGRAM, &only_assistant), Ok(pairs(&[("assistant", "x")])));
}

#[test]
fn chat_without_conversation_is_refused() {
    assert_eq!(build_turns(PROGRAM, &vec![]), Err("No user/assistant messages to send to agent CLI".to_string()));
    assert_eq!(
        build_turns(PROGRAM, &vec![m("system", "s")]),
        Err("No user/assistant messages to send to agent CLI".to_string())
    );
}

#[test]
fn bodies_become_messages() {
    let out = messages_from_bodies(vec![ChatMessageBody { role: "user".to_string(), content: "hi".to_string() }]);
    assert_eq!(out.len(), 1);
    assert_eq!(out[0].role, "user");
    assert_eq!(out[0].content, "hi");
}

fn obj(pairs: Vec<(&str, serde_json::Value)>) -> serde_json::Value {
    let mut m = serde_json::Map::new();
    for (k, v) in pairs {
        m.insert(k.to_string(), v);
    }
    serde_json::Value::Object(m)
}

fn s(x: &str) -> serde_json::Value {
    serde_json::Value::String(x.to_string())
}

#[test]
fn turn_lines_are_json_events() {
    let line = turn_line("user", "say \"hi\"\nnow");
    assert_eq!(
        line,
        "{\"message\":{\"content\":[{\"text\":\"say \\\"hi\\\"\\nnow\",\"type\":\"text\"}],\"role\":\"user\"},\"type\":\"user\"}\n"
    );
    let mut content = String::new();
    for c in (0u32..0x80).chain([0xe9, 0x2028, 0x1f600]).filter_map(char::from_u32) {
        content.push(c);
    }
    for role in ["user", "assistant"] {
        let event = obj(vec![
            ("type", s(role)),
            (
                "message",
                obj(vec![
                    ("role", s(role)),
                    ("content", serde_json::Value::Array(vec![obj(vec![("type", s("text")), ("text", s(&content))])])),
                ]),
            ),
        ]);
        assert_eq!(turn_line(role, &content), format!("{}\n", event));
    }
}

#[test]
fn done_lines_carry_code_and_errors() {
    assert_eq!(done_line(Some(0), ""), "__done__:{\"code\":0,\"stderr\":\"\",\"type\":\"done\"}");
    assert_eq!(done_line(Some(-9), "x"), "__done__:{\"code\":-9,\"stderr\":\"x\",\"type\":\"done\"}");
    for (code, err) in [(None, "oops\n\"q\"\u{1}"), (Some(2), "tab\there")] {
        let msg = obj(vec![
            ("type", s("done")),
            ("code", code.map_or(serde_json::Value::Null, |c: i32| serde_json::Value::from(c))),
            ("stderr", s(err)),
        ]);
        assert_eq!(done_line(code, err), format!("__done__:{}", serde_json::to_string(&msg).unwrap()));
    }
}
