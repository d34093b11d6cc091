use goose_acp::framing::{BrokenPipe, LineFramer, LineReader, SendOutcome};
use goose_acp::message::{
    build_action_required_message, messages_to_prompt, object_arguments, tool_call_content_to_text,
    tool_response_body, Message, MessageContent, Role,
};
use goose_acp::permission::{
    map_permission_response, permission_decision_from_confirmation, permission_decision_from_mode,
    GooseMode, Permission, PermissionConfirmation, PermissionDecision, PermissionMapping,
    PrincipalType, ToolCallStatus,
};
use goose_acp::provider::{collect_reply, ensure_session, post_message_status, ProviderError};
use goose_acp::registry::Registry;
use goose_acp::rejected::{tool_call_is_error, RejectedSet};
use goose_acp::release::{find_asset, platform_asset_names, verify_digest, Arch, Os, ReleaseError};
use goose_acp::schema::{
    ContentBlock, PermissionOption, PermissionOptionKind, PermissionOutcome, PermissionRequest,
    SessionUpdate, StopReason, ToolCallContent,
};
use goose_acp::session::{plan_session_mode, ModeStep, SessionError, SessionModeState};
use goose_acp::stream::{route_session_update, AcpUpdate, PromptStream, StreamStep};
use goose_acp::text::{join_strings, str_eq};

fn text(s: &str) -> ToolCallContent {
    ToolCallContent::Content(ContentBlock::Text(s.to_string()))
}

fn options() -> Vec<PermissionOption> {
    vec![
        PermissionOption { option_id: "a1".to_string(), kind: PermissionOptionKind::AllowOnce },
        PermissionOption { option_id: "aa".to_string(), kind: PermissionOptionKind::AllowAlways },
        PermissionOption { option_id: "r1".to_string(), kind: PermissionOptionKind::RejectOnce },
    ]
}

fn request(id: &str, opts: Vec<PermissionOption>) -> PermissionRequest {
    PermissionRequest {
        tool_call_id: id.to_string(),
        title: None,
        raw_input: None,
        content: None,
        options: opts,
    }
}

fn selected(o: &PermissionOutcome) -> Option<String> {
    match o {
        PermissionOutcome::Selected(s) => Some(s.clone()),
        PermissionOutcome::Cancelled => None,
    }
}

#[test]
fn mode_decisions() {
    assert_eq!(permission_decision_from_mode(GooseMode::Auto), Some(PermissionDecision::AllowOnce));
    assert_eq!(permission_decision_from_mode(GooseMode::Chat), Some(PermissionDecision::RejectOnce));
    assert_eq!(permission_decision_from_mode(GooseMode::Approve), None);
    assert_eq!(permission_decision_from_mode(GooseMode::SmartApprove), None);
}

#[test]
fn confirmation_decisions() {
    let cases = [
        (Permission::AlwaysAllow, PermissionDecision::AllowAlways),
        (Permission::AllowOnce, PermissionDecision::AllowOnce),
        (Permission::DenyOnce, PermissionDecision::RejectOnce),
        (Permission::AlwaysDeny, PermissionDecision::RejectAlways),
        (Permission::Cancel, PermissionDecision::Cancel),
    ];
    for (p, d) in cases {
        let c = PermissionConfirmation { principal_type: PrincipalType::Tool, permission: p };
        assert_eq!(permission_decision_from_confirmation(&c), d);
    }
}

#[test]
fn rejecting_decisions_are_recorded() {
    assert!(PermissionDecision::RejectAlways.should_record_rejection());
    assert!(PermissionDecision::RejectOnce.should_record_rejection());
    assert!(PermissionDecision::Cancel.should_record_rejection());
    assert!(!PermissionDecision::AllowAlways.should_record_rejection());
    assert!(!PermissionDecision::AllowOnce.should_record_rejection());
}

#[test]
fn permission_response_picks_options() {
    let m = PermissionMapping::default();
    let r = request("t", options());
    assert_eq!(selected(&map_permission_response(&m, &r, PermissionDecision::AllowAlways)), Some("aa".to_string()));
    assert_eq!(selected(&map_permission_response(&m, &r, PermissionDecision::AllowOnce)), Some("a1".to_string()));
    assert_eq!(selected(&map_permission_response(&m, &r, PermissionDecision::RejectOnce)), Some("r1".to_string()));
    // no reject-always option: falls back to reject-once
    assert_eq!(selected(&map_permission_response(&m, &r, PermissionDecision::RejectAlways)), Some("r1".to_string()));
    assert_eq!(selected(&map_permission_response(&m, &r, PermissionDecision::Cancel)), None);
}

#[test]
fn permission_response_uses_configured_ids() {
    let m = PermissionMapping {
        allow_option_id: Some("yes".to_string()),
        reject_option_id: Some("no".to_string()),
        rejected_tool_status: ToolCallStatus::Failed,
    };
    let r = request("t", Vec::new());
    assert_eq!(selected(&map_permission_response(&m, &r, PermissionDecision::AllowAlways)), Some("yes".to_string()));
    assert_eq!(selected(&map_permission_response(&m, &r, PermissionDecision::RejectOnce)), Some("no".to_string()));
    let none = PermissionMapping::default();
    assert_eq!(selected(&map_permission_response(&none, &r, PermissionDecision::AllowOnce)), None);
}

#[test]
fn rejected_set_consumed_once() {
    let mut s = RejectedSet::new();
    s.record("t1".to_string());
    s.record("t1".to_string());
    assert!(s.contains("t1"));
    assert!(s.take("t1"));
    assert!(!s.take("t1"));
    assert!(!s.contains("t1"));
}

#[test]
fn tool_errors_follow_mapping() {
    let failed = PermissionMapping::default();
    let completed = PermissionMapping {
        allow_option_id: None,
        reject_option_id: None,
        rejected_tool_status: ToolCallStatus::Completed,
    };
    let mut s = RejectedSet::new();
    assert!(tool_call_is_error(&mut s, &failed, "x", ToolCallStatus::Failed));
    assert!(!tool_call_is_error(&mut s, &failed, "x", ToolCallStatus::Completed));
    s.record("x".to_string());
    assert!(!tool_call_is_error(&mut s, &failed, "x", ToolCallStatus::Completed));
    s.record("x".to_string());
    assert!(tool_call_is_error(&mut s, &completed, "x", ToolCallStatus::Completed));
    // the mark was consumed
    assert!(!tool_call_is_error(&mut s, &completed, "x", ToolCallStatus::Completed));
    s.record("y".to_string());
    assert!(!tool_call_is_error(&mut s, &completed, "y", ToolCallStatus::InProgress));
    assert!(!s.contains("y"));
}

#[test]
fn framer_splits_and_buffers() {
    let mut f = LineFramer::new();
    let out = f.write(b"{\"a\":1}\n{\"b\"");
    assert_eq!(out, vec!["{\"a\":1}".to_string()]);
    let out = f.write(b":2}\n\n{\"c\":3}\n");
    assert_eq!(out, vec!["{\"b\":2}".to_string(), "{\"c\":3}".to_string()]);
    let out = f.write(b"tail");
    assert!(out.is_empty());
}

#[test]
fn framer_same_lines_however_cut() {
    let data = b"one\ntwo\n\nthree\nfour";
    let mut whole = LineFramer::new();
    let expected = whole.write(data);
    let mut bytewise = LineFramer::new();
    let mut got = Vec::new();
    for b in data.iter() {
        got.extend(bytewise.write(&[*b]));
    }
    assert_eq!(got, expected);
    assert_eq!(expected, vec!["one".to_string(), "two".to_string(), "three".to_string()]);
}

#[test]
fn framer_lossy_text() {
    let mut f = LineFramer::new();
    let out = f.write(&[0x61, 0xff, 0x62, b'\n']);
    assert_eq!(out, vec!["a\u{fffd}b".to_string()]);
}

#[test]
fn framer_drops_on_full_and_breaks_on_closed() {
    let mut f = LineFramer::new();
    assert_eq!(f.note_send(SendOutcome::Sent), Ok(()));
    assert_eq!(f.note_send(SendOutcome::Full), Ok(()));
    assert_eq!(f.note_send(SendOutcome::Full), Ok(()));
    assert_eq!(f.dropped(), 2);
    assert_eq!(f.note_send(SendOutcome::Closed), Err(BrokenPipe));
}

#[test]
fn reader_appends_newline_and_keeps_rest() {
    let mut r = LineReader::new();
    let first = r.deliver("hello", 3);
    assert_eq!(first, b"hel".to_vec());
    assert!(r.has_residual());
    let second = r.read_residual(10);
    assert_eq!(second, b"lo\n".to_vec());
    assert!(!r.has_residual());
    let whole = r.deliver("{}", 64);
    assert_eq!(whole, b"{}\n".to_vec());
}

#[test]
fn reader_and_framer_round_trip() {
    let msgs = ["{\"id\":1}", "{\"id\":2}", "{\"id\":3}"];
    let mut reader = LineReader::new();
    let mut framer = LineFramer::new();
    let mut out = Vec::new();
    for m in msgs {
        let mut bytes = reader.deliver(m, 4);
        out.extend(framer.write(&bytes));
        while reader.has_residual() {
            bytes = reader.read_residual(4);
            out.extend(framer.write(&bytes));
        }
    }
    assert_eq!(out, msgs.iter().map(|s| s.to_string()).collect::<Vec<_>>());
}

#[test]
fn prompt_from_last_user_message() {
    let user = |t: &str, visible: bool| Message {
        role: Role::User,
        agent_visible: visible,
        user_visible: true,
        content: vec![MessageContent::Text(t.to_string())],
    };
    let messages = vec![
        user("first", true),
        Message {
            role: Role::Assistant,
            agent_visible: true,
            user_visible: true,
            content: vec![MessageContent::Text("reply".to_string())],
        },
        user("second", true),
        user("hidden", false),
    ];
    let blocks = messages_to_prompt(&messages);
    assert_eq!(blocks.len(), 1);
    assert!(matches!(&blocks[0], ContentBlock::Text(t) if t == "second"));
    assert!(messages_to_prompt(&Vec::new()).is_empty());
}

#[test]
fn tool_content_text_joined() {
    let content = vec![text("a"), ToolCallContent::Other, text("b")];
    assert_eq!(tool_call_content_to_text(&content), "a\nb");
    assert_eq!(tool_response_body(&content), vec!["a\nb".to_string()]);
    let empty = vec![text("")];
    assert_eq!(tool_response_body(&empty), vec!["".to_string()]);
    assert!(tool_response_body(&Vec::new()).is_empty());
}

#[test]
fn arguments_only_for_objects() {
    let obj: serde_json::Value = serde_json::from_str("{\"k\":1}").unwrap();
    let arr: serde_json::Value = serde_json::from_str("[1]").unwrap();
    assert_eq!(object_arguments(&Some(obj.clone())), Some(obj));
    assert_eq!(object_arguments(&Some(arr)), None);
    assert_eq!(object_arguments(&None), None);
}

#[test]
fn action_required_message_fields() {
    let mut r = request("call_9", Vec::new());
    r.content = Some(vec![ToolCallContent::Other, text("May I?"), text("later")]);
    let m = build_action_required_message(&r);
    assert!(!m.agent_visible && m.user_visible);
    match &m.content[0] {
        MessageContent::ActionRequired { id, tool_name, arguments, prompt } => {
            assert_eq!(id, "call_9");
            assert_eq!(tool_name, "Tool");
            assert!(arguments.is_none());
            assert_eq!(prompt.as_deref(), Some("May I?"));
        }
        other => panic!("unexpected {other:?}"),
    }
}

#[test]
fn session_updates_routed() {
    let r = route_session_update(SessionUpdate::AgentMessageChunk(ContentBlock::Text("hi".to_string())));
    assert!(matches!(r, Some(AcpUpdate::Text(t)) if t == "hi"));
    let r = route_session_update(SessionUpdate::AgentThoughtChunk(ContentBlock::Text("hm".to_string())));
    assert!(matches!(r, Some(AcpUpdate::Thought(t)) if t == "hm"));
    assert!(route_session_update(SessionUpdate::AgentMessageChunk(ContentBlock::Other)).is_none());
    let r = route_session_update(SessionUpdate::ToolCallUpdate {
        id: "c".to_string(),
        status: Some(ToolCallStatus::Completed),
        content: None,
    });
    assert!(matches!(r, Some(AcpUpdate::ToolCallComplete { id, status: ToolCallStatus::Completed, content }) if id == "c" && content.is_empty()));
    let r = route_session_update(SessionUpdate::ToolCallUpdate {
        id: "c".to_string(),
        status: Some(ToolCallStatus::InProgress),
        content: None,
    });
    assert!(r.is_none());
    assert!(route_session_update(SessionUpdate::Other).is_none());
}

#[test]
fn engine_surfaces_each_completion_once_and_stops() {
    let mut rejected = RejectedSet::new();
    let mut e = PromptStream::new(GooseMode::Auto, PermissionMapping::default());
    let start = AcpUpdate::ToolCallStart { id: "c1".to_string(), title: "t".to_string(), raw_input: None };
    assert!(matches!(e.handle(&mut rejected, start), StreamStep::Emit(_)));
    let done = || AcpUpdate::ToolCallComplete { id: "c1".to_string(), status: ToolCallStatus::Completed, content: vec![text("ok")] };
    match e.handle(&mut rejected, done()) {
        StreamStep::Emit(m) => match &m.content[0] {
            MessageContent::ToolResponse { id, is_error, content } => {
                assert_eq!(id, "c1");
                assert!(!is_error);
                assert_eq!(content, &vec!["ok".to_string()]);
            }
            other => panic!("unexpected {other:?}"),
        },
        other => panic!("unexpected {other:?}"),
    }
    assert!(matches!(e.handle(&mut rejected, done()), StreamStep::Skip));
    assert!(matches!(e.handle(&mut rejected, AcpUpdate::Error("boom".to_string())), StreamStep::Fail(m) if m == "boom"));
    assert!(e.is_finished());
    assert!(matches!(e.handle(&mut rejected, AcpUpdate::Text("late".to_string())), StreamStep::Skip));
}

#[test]
fn engine_chat_mode_rejects_and_marks() {
    let mut rejected = RejectedSet::new();
    let mut e = PromptStream::new(GooseMode::Chat, PermissionMapping::default());
    match e.handle(&mut rejected, AcpUpdate::PermissionRequest(request("c2", options()))) {
        StreamStep::Reply { outcome, .. } => assert_eq!(selected(&outcome), Some("r1".to_string())),
        other => panic!("unexpected {other:?}"),
    }
    assert!(rejected.contains("c2"));
    assert!(matches!(e.handle(&mut rejected, AcpUpdate::Complete(StopReason::EndTurn)), StreamStep::End));
}

#[test]
fn engine_dropped_question_cancels() {
    let mut rejected = RejectedSet::new();
    let e = PromptStream::new(GooseMode::Approve, PermissionMapping::default());
    let r = request("c3", options());
    let outcome = e.resolve(&mut rejected, &r, None);
    assert_eq!(selected(&outcome), None);
    assert!(rejected.contains("c3"));
}

#[test]
fn mode_planning() {
    let modes = Some(SessionModeState {
        current_mode_id: "ask".to_string(),
        available_modes: vec!["ask".to_string(), "code".to_string()],
    });
    assert!(matches!(plan_session_mode(&None, &modes), Ok(ModeStep::Ready)));
    assert!(matches!(plan_session_mode(&Some("ask".to_string()), &modes), Ok(ModeStep::Ready)));
    assert!(matches!(plan_session_mode(&Some("code".to_string()), &modes), Ok(ModeStep::SetMode(m)) if m == "code"));
    assert!(matches!(plan_session_mode(&Some("code".to_string()), &None), Err(SessionError::ModesNotAdvertised)));
    let err = plan_session_mode(&Some("plan".to_string()), &modes).unwrap_err();
    assert_eq!(err.message(), "Requested mode 'plan' not offered by agent. Available modes: ask, code");
}

#[test]
fn session_error_messages() {
    assert_eq!(SessionError::NewSessionFailed("x".to_string()).message(), "ACP session/new failed: x");
    assert_eq!(SessionError::ModesNotAdvertised.message(), "ACP agent did not advertise SessionModeState");
    assert_eq!(SessionError::SetModeRejected("y".to_string()).message(), "ACP agent rejected session/set_mode: y");
}

#[test]
fn known_sessions_only() {
    let mut sessions: Registry<u32> = Registry::new();
    assert!(sessions.insert_new("s1".to_string(), 1).is_ok());
    assert_eq!(sessions.insert_new("s1".to_string(), 2), Err(2));
    assert_eq!(ensure_session(&sessions, Some("s1")).unwrap(), "s1");
    let missing = ensure_session(&sessions, Some("s2")).unwrap_err();
    assert_eq!(missing.message(), "ACP session 's2' not found; resume is not supported");
    let none = ensure_session(&sessions, None).unwrap_err();
    assert!(matches!(none, ProviderError::RequestFailed(m) if m == "ACP session_id is required"));
}

#[test]
fn closing_stream_removes_session() {
    let mut sessions: Registry<&str> = Registry::new();
    sessions.insert_new("a".to_string(), "first").unwrap();
    sessions.insert_new("b".to_string(), "second").unwrap();
    assert_eq!(sessions.remove("a"), Some("first"));
    assert!(!sessions.contains("a"));
    assert_eq!(sessions.get("b"), Some(&"second"));
    assert_eq!(sessions.remove("a"), None);
}

#[test]
fn reply_collected() {
    let msg = |t: &str| Message {
        role: Role::Assistant,
        agent_visible: true,
        user_visible: true,
        content: vec![MessageContent::Text(t.to_string())],
    };
    let r = collect_reply(vec![msg("a"), msg("b")]).unwrap();
    assert_eq!(r.content.len(), 2);
    assert!(matches!(&r.content[1], MessageContent::Text(t) if t == "b"));
    let e = collect_reply(Vec::new()).unwrap_err();
    assert_eq!(e.message(), "No response received from ACP agent");
}

#[test]
fn post_statuses() {
    assert_eq!(post_message_status(false, true), 404);
    assert_eq!(post_message_status(true, true), 202);
    assert_eq!(post_message_status(true, false), 500);
}

#[test]
fn asset_names_per_platform() {
    let (a, b) = platform_asset_names("agent", "vv1.2.3", Some(Arch::X86_64), Some(Os::Linux)).unwrap();
    assert_eq!(a, "agent-1.2.3-x86_64-unknown-linux-gnu.tar.gz");
    assert_eq!(b, "agent");
    let (a, b) = platform_asset_names("agent", "2.0", Some(Arch::Aarch64), Some(Os::Windows)).unwrap();
    assert_eq!(a, "agent-2.0-aarch64-pc-windows-msvc.zip");
    assert_eq!(b, "agent.exe");
    let (a, _) = platform_asset_names("agent", "v1", Some(Arch::Aarch64), Some(Os::MacOs)).unwrap();
    assert_eq!(a, "agent-1-aarch64-apple-darwin.tar.gz");
    assert!(matches!(platform_asset_names("a", "v1", None, None), Err(ReleaseError::UnsupportedArch)));
    assert!(matches!(platform_asset_names("a", "v1", Some(Arch::X86_64), None), Err(ReleaseError::UnsupportedOs)));
    assert_eq!(ReleaseError::UnsupportedOs.message(), "unsupported OS");
}

#[test]
fn asset_lookup() {
    let names = vec!["x.zip".to_string(), "y.tar.gz".to_string(), "y.tar.gz".to_string()];
    assert_eq!(find_asset(&names, "y.tar.gz").unwrap(), 1);
    let e = find_asset(&names, "z").unwrap_err();
    assert_eq!(e.message(), "asset z not found");
}

#[test]
fn digest_checked() {
    let abc = "ba7816bf8f01cfea414140de5dae2223b00361a396177a9cb410ff61f20015ad";
    assert!(verify_digest(None, b"abc").is_ok());
    assert!(verify_digest(Some(abc), b"abc").is_ok());
    let published = format!("  sha256:{}\n", abc.to_uppercase());
    assert!(verify_digest(Some(&published), b"abc").is_ok());
    match verify_digest(Some("sha256:00"), b"abc") {
        Err(ReleaseError::DigestMismatch { expected, actual }) => {
            assert_eq!(expected, "00");
            assert_eq!(actual, abc);
        }
        other => panic!("unexpected {other:?}"),
    }
    let e = ReleaseError::DigestMismatch { expected: "00".to_string(), actual: "11".to_string() };
    assert_eq!(e.message(), "SHA256 mismatch: expected 00, got 11");
}

#[test]
fn text_helpers() {
    assert!(str_eq("héllo", "héllo"));
    assert!(!str_eq("a", "ab"));
    assert_eq!(join_strings(&vec!["a".to_string(), "b".to_string(), "c".to_string()], ", "), "a, b, c");
    assert_eq!(join_strings(&Vec::new(), ", "), "");
}

#[test]
fn tool_request_arguments_object_or_empty() {
    let obj: serde_json::Value = serde_json::from_str("{\"q\":\"x\"}").unwrap();
    let num: serde_json::Value = serde_json::from_str("7").unwrap();
    let mut rejected = RejectedSet::new();
    let mut e = PromptStream::new(GooseMode::Auto, PermissionMapping::default());
    let start = AcpUpdate::ToolCallStart { id: "c1".to_string(), title: "t".to_string(), raw_input: Some(obj.clone()) };
    match e.handle(&mut rejected, start) {
        StreamStep::Emit(m) => match &m.content[0] {
            MessageContent::ToolRequest { arguments, .. } => assert_eq!(arguments, &Some(obj.clone())),
            other => panic!("unexpected {other:?}"),
        },
        other => panic!("unexpected {other:?}"),
    }
    let start = AcpUpdate::ToolCallStart { id: "c2".to_string(), title: "t".to_string(), raw_input: Some(num) };
    match e.handle(&mut rejected, start) {
        StreamStep::Emit(m) => match &m.content[0] {
            MessageContent::ToolRequest { arguments, .. } => assert!(arguments.is_none()),
            other => panic!("unexpected {other:?}"),
        },
        other => panic!("unexpected {other:?}"),
    }
}

#[test]
fn action_required_carries_object_input() {
    let obj: serde_json::Value = serde_json::from_str("{\"path\":\"/tmp\"}").unwrap();
    let mut r = request("call_3", Vec::new());
    r.title = Some("lookup__get_code".to_string());
    r.raw_input = Some(obj.clone());
    let m = build_action_required_message(&r);
    match &m.content[0] {
        MessageContent::ActionRequired { tool_name, arguments, prompt, .. } => {
            assert_eq!(tool_name, "lookup__get_code");
            assert_eq!(arguments, &Some(obj));
            assert!(prompt.is_none());
        }
        other => panic!("unexpected {other:?}"),
    }
}
