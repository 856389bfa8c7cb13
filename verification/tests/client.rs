use bony::build::bridge::{
    session_event, SessionUpdate, ToolContent,
    after_session, extract_modes, is_interactive, needs_sign_in, pick_allow, resolve_grok_bin,
    select_auth_method, skip_browser_sign_in, wait_action, ModeInfo, OptionKind, SessionEnd,
    WaitAction, session_step, PromptBlock, SessionAction,
};
use bony::build::events::AttachmentPayload;
use bony::build::charts::truncate_label;
use bony::build::config::{any_usable_credentials, keys_to_hydrate};
use bony::text::{char_lowercase, lowercase};
use bony::build::display::{is_task_listed, short_status, truncate_chars, TaskListFilter};
use bony::build::events::{AgentEvent, UiCommand};
use bony::build::git_workspace::{branch_exists_error, worktree_names};
use bony::build::model::{AppModel, TimelineItem};
use bony::build::task::{clamp_seconds, AgentMode, PermissionMode, TaskStatus};
use bony::build::unity::{answered_like_cli, version_line_of};
use bony::build::usage::{
    usage_chip_totals, TurnRecord,
    count_source, usage_count_keys, CountSource, UsageCount,
    keep_recent, remember_project, truncate_title, turn_log_lines, usage_bill, TokenUsage,
};

fn strings(v: &[&str]) -> Vec<String> {
    v.iter().map(|s| s.to_string()).collect()
}

#[test]
fn remember_project_moves_canonical_path_to_front() {
    let mut projects = strings(&["/a", "/b", "/c"]);
    let canonicals = vec![Some("/a".to_string()), Some("/real/b".to_string()), None];
    remember_project(&mut projects, &canonicals, "/x/b", Some("/real/b".to_string()));
    assert_eq!(projects, strings(&["/real/b", "/a", "/c"]));

    let mut projects = strings(&["/a", "/new"]);
    let canonicals = vec![None, None];
    remember_project(&mut projects, &canonicals, "/new", None);
    assert_eq!(projects, strings(&["/new", "/a"]));
}

#[test]
fn remember_project_keeps_twelve() {
    let mut projects: Vec<String> = (0..12).map(|i| format!("/p{i}")).collect();
    let canonicals: Vec<Option<String>> = projects.iter().map(|p| Some(p.clone())).collect();
    remember_project(&mut projects, &canonicals, "/q", Some("/q".to_string()));
    assert_eq!(projects.len(), 12);
    assert_eq!(projects[0], "/q");
    assert_eq!(projects[11], "/p10");
}

#[test]
fn titles_and_labels_are_cut_with_an_ellipsis() {
    assert_eq!(truncate_title("  hello world", 5), "hel…");
    assert_eq!(truncate_title("first line\nsecond", 40), "first line");
    assert_eq!(truncate_title("短标题", 10), "短标题");
    assert_eq!(truncate_label("abcdef", 3), "abc…");
    assert_eq!(truncate_label("abc", 3), "abc");
    assert_eq!(truncate_chars("日本語テキスト", 2), "日本…");
    assert_eq!(truncate_chars("", 0), "");
}

#[test]
fn turn_log_keeps_the_newest_parsed_lines() {
    let lines = turn_log_lines("a\n\n  b  \r\nc");
    assert_eq!(lines, strings(&["a", "b", "c"]));
    let parsed = vec![Some(1), None, Some(2), Some(3), None];
    assert_eq!(keep_recent(parsed.clone(), 2), vec![2, 3]);
    assert_eq!(keep_recent(parsed.clone(), 10), vec![1, 2, 3]);
    assert_eq!(keep_recent(parsed, 0), vec![3]);
    assert_eq!(keep_recent(Vec::<Option<u8>>::new(), 0), Vec::<u8>::new());
}

#[test]
fn usage_bill_fills_in_a_missing_total() {
    let u = usage_bill(0, 10, 5, 1, 2);
    assert_eq!(u.total_tokens, 15);
    assert_eq!(u.thought_tokens, 1);
    assert_eq!(u.cached_read_tokens, 2);
    assert_eq!(usage_bill(7, 10, 5, 0, 0).total_tokens, 7);
    assert_eq!(usage_bill(0, u64::MAX, 5, 0, 0).total_tokens, u64::MAX);
    assert_eq!(usage_bill(0, 0, 0, 0, 0).total_tokens, 0);
    let mut acc = TokenUsage::default();
    acc.add_turn(&u);
    acc.add_turn(&u);
    assert_eq!(acc.total_tokens, 30);
}

#[test]
fn task_enums_round_trip_through_their_text() {
    for s in [
        TaskStatus::Draft,
        TaskStatus::Running,
        TaskStatus::WaitingApproval,
        TaskStatus::Completed,
        TaskStatus::Failed,
        TaskStatus::Archived,
    ] {
        assert_eq!(TaskStatus::parse(s.as_str()), s);
    }
    assert_eq!(TaskStatus::parse("bogus"), TaskStatus::Draft);
    assert_eq!(TaskStatus::WaitingApproval.as_str(), "waiting_approval");
    assert_eq!(TaskStatus::Archived.label(), "已归档");
    for m in [
        PermissionMode::ReadOnly,
        PermissionMode::Ask,
        PermissionMode::AllowEdits,
        PermissionMode::FullControl,
    ] {
        assert_eq!(PermissionMode::parse(m.as_str()), m);
    }
    assert_eq!(PermissionMode::parse(""), PermissionMode::Ask);
    assert_eq!(AgentMode::parse("plan"), AgentMode::Plan);
    assert_eq!(AgentMode::parse("PLAN"), AgentMode::Execute);
}

#[test]
fn task_filters_and_short_status() {
    assert!(TaskListFilter::Active.matches(TaskStatus::Draft));
    assert!(TaskListFilter::Active.matches(TaskStatus::Running));
    assert!(!TaskListFilter::Active.matches(TaskStatus::Completed));
    assert!(TaskListFilter::All.matches(TaskStatus::Archived));
    assert!(!TaskListFilter::Failed.matches(TaskStatus::Archived));
    assert_eq!(TaskListFilter::WaitingApproval.label(), "待审批");
    assert_eq!(short_status("Completed"), "完成");
    assert_eq!(short_status("tool started"), "运行中");
    assert_eq!(short_status("Error: x"), "失败");
    assert_eq!(short_status("pending"), "pending");
}

#[test]
fn worktree_names_use_slug_and_short_id() {
    let (branch, short) =
        worktree_names("67e55044-10b1-426f-9247-bb680e5fe0c8", "Fix Login Bug");
    assert_eq!(short, "67e55044");
    assert!(branch.starts_with("codex/"));
    assert!(branch.ends_with("-67e55044"));
    let (_, short) = worktree_names("abc", "x");
    assert_eq!(short, "abc");
    assert_eq!(branch_exists_error("codex/a-1"), "任务分支已存在：codex/a-1");
}

#[test]
fn credentials_rules() {
    let keys = strings(&["__inline_api_key__", "XAI_KEY", "OTHER"]);
    assert_eq!(keys_to_hydrate(&keys, &[false, false, true]), strings(&["XAI_KEY"]));
    assert!(any_usable_credentials(&keys, &[false, false, false]));
    let keys = strings(&["A", "B"]);
    assert!(!any_usable_credentials(&keys, &[false, false]));
    assert!(any_usable_credentials(&keys, &[false, true]));
}

#[test]
fn cli_detection_decisions() {
    assert!(answered_like_cli(true, ""));
    assert!(answered_like_cli(false, "Usage: thing"));
    assert!(answered_like_cli(false, "This is UNITY"));
    assert!(!answered_like_cli(false, "command not found"));
    assert_eq!(version_line_of("\n  unity 1.2\nmore", "", "unity CLI"), "unity 1.2");
    assert_eq!(version_line_of("  ", "err line", "unity CLI"), "err line");
    assert_eq!(version_line_of("", "", "unity (PATH)"), "unity (PATH)");
}

#[test]
fn bridge_choices() {
    assert_eq!(resolve_grok_bin(Some("/x/grok"), Some("/y".to_string())), "/x/grok");
    assert_eq!(resolve_grok_bin(None, Some("/y".to_string())), "/y");
    assert_eq!(resolve_grok_bin(None, None), "grok");
    assert_eq!(
        pick_allow(&[OptionKind::RejectOnce, OptionKind::AllowAlways, OptionKind::AllowOnce]),
        Some(2)
    );
    assert_eq!(pick_allow(&[OptionKind::RejectOnce, OptionKind::AllowAlways]), Some(1));
    assert_eq!(pick_allow(&[OptionKind::RejectAlways]), None);
    assert!(is_interactive("grok.com"));
    assert!(is_interactive("corp-oidc"));
    assert!(!is_interactive("xai.api_key"));
    let ids = strings(&["grok.com", "xai.api_key"]);
    assert!(!needs_sign_in(false, false, &ids));
    assert!(needs_sign_in(false, false, &strings(&["grok.com"])));
    assert_eq!(select_auth_method(&ids, Some("grok.com"), false), Some(0));
    assert_eq!(select_auth_method(&ids, Some("grok.com"), true), Some(1));
    assert_eq!(select_auth_method(&strings(&["grok.com"]), None, true), None);
    assert_eq!(select_auth_method(&strings(&["a", "b"]), None, false), Some(0));
    assert_eq!(select_auth_method(&[], None, false), None);
    assert!(skip_browser_sign_in("grok.com", true, false));
    assert!(!skip_browser_sign_in("grok.com", true, true));
    assert_eq!(wait_action(&UiCommand::Shutdown, "r"), WaitAction::Shutdown);
    assert_eq!(
        wait_action(&UiCommand::Prompt { text: "hi".into(), attachments: vec![] }, "sign in"),
        WaitAction::Remind("sign in".to_string())
    );
    assert_eq!(wait_action(&UiCommand::Cancel, "r"), WaitAction::Ignore);
    assert!(matches!(after_session(SessionEnd::Shutdown), (None, false)));
    assert!(matches!(after_session(SessionEnd::Reconnect), (Some(AgentEvent::Disconnected), true)));
    match after_session(SessionEnd::Fatal("boom".into())) {
        (Some(AgentEvent::Error(m)), true) => assert_eq!(m, "boom"),
        _ => panic!("expected an error event"),
    }
}

#[test]
fn modes_from_the_agent_state() {
    let (cur, modes) = extract_modes(None);
    assert_eq!(cur, "");
    assert!(modes.is_empty());
    let (cur, modes) = extract_modes(Some((
        "plan".to_string(),
        vec![
            ModeInfo { id: "plan".into(), name: "Plan".into(), description: None },
            ModeInfo { id: "exec".into(), name: "Execute".into(), description: Some("run".into()) },
        ],
    )));
    assert_eq!(cur, "plan");
    assert_eq!(modes.len(), 2);
    assert_eq!(modes[0].description, "");
    assert_eq!(modes[1].description, "run");
}

#[test]
fn app_model_streams_deltas_and_tools() {
    let mut m = AppModel::new();
    assert!(m.is_empty_chat());
    m.push_user("hello".to_string());
    assert!(m.busy);
    assert!(!m.is_empty_chat());
    m.apply(AgentEvent::AssistantDelta("Hel".into()));
    m.apply(AgentEvent::AssistantDelta("lo".into()));
    assert_eq!(m.timeline.len(), 2);
    match &m.timeline[1] {
        TimelineItem::Message(msg) => assert_eq!(msg.text, "Hello"),
        _ => panic!("expected a message"),
    }
    m.apply(AgentEvent::ToolStart { id: "t1".into(), title: "Read".into() });
    m.apply(AgentEvent::ToolUpdate { id: "t1".into(), status: "Completed".into(), detail: "a".into() });
    m.apply(AgentEvent::ToolUpdate { id: "t1".into(), status: "".into(), detail: "b".into() });
    match &m.timeline[2] {
        TimelineItem::Tool(card) => {
            assert_eq!(card.status, "Completed");
            assert_eq!(card.detail, "a\nb");
            assert_eq!(card.title, "Read");
        }
        _ => panic!("expected a tool card"),
    }
    m.apply(AgentEvent::TurnDone { stop_reason: "end".into(), usage: TokenUsage::default() });
    assert!(!m.busy);
    assert_eq!(m.status, "Ready");
    m.apply(AgentEvent::Error("bad".into()));
    assert_eq!(m.status, "Error");
    assert_eq!(m.timeline.len(), 4);
}

#[test]
fn session_updates_become_ui_events() {
    match session_event(SessionUpdate::MessageChunk(Some("hi".into()))) {
        Some(AgentEvent::AssistantDelta(t)) => assert_eq!(t, "hi"),
        _ => panic!("expected a delta"),
    }
    assert!(session_event(SessionUpdate::MessageChunk(Some(String::new()))).is_none());
    assert!(session_event(SessionUpdate::MessageChunk(None)).is_none());
    match session_event(SessionUpdate::ToolCallUpdate {
        id: "t".into(),
        status: Some("Completed".into()),
        title: Some("Edit".into()),
        content: Some(vec![
            ToolContent::Text("done".into()),
            ToolContent::Other,
            ToolContent::Diff("src/a.rs".into()),
        ]),
    }) {
        Some(AgentEvent::ToolUpdate { id, status, detail }) => {
            assert_eq!(id, "t");
            assert_eq!(status, "Completed");
            assert_eq!(detail, "Edit\ndone\nsrc/a.rs");
        }
        _ => panic!("expected a tool update"),
    }
    match session_event(SessionUpdate::ToolCallUpdate {
        id: "t".into(),
        status: None,
        title: None,
        content: Some(vec![ToolContent::Other]),
    }) {
        Some(AgentEvent::ToolUpdate { status, detail, .. }) => {
            assert_eq!(status, "");
            assert_eq!(detail, "");
        }
        _ => panic!("expected a tool update"),
    }
    assert!(matches!(
        session_event(SessionUpdate::Usage { used: 5, size: 10 }),
        Some(AgentEvent::ContextUsage { used: 5, size: 10 })
    ));
    assert!(bony::desktop::bridge::session_event(SessionUpdate::Usage { used: 5, size: 10 }).is_none());
    assert!(session_event(SessionUpdate::Other).is_none());
}

#[test]
fn font_files_are_told_by_their_magic() {
    assert!(bony::desktop::fonts::usable_font(b"ttcf\0\0"));
    assert!(bony::desktop::fonts::usable_font(&[0, 1, 0, 0, 9]));
    assert!(!bony::desktop::fonts::usable_font(b"ttcf"));
    assert!(!bony::desktop::fonts::usable_font(b"GIF89a"));
    assert!(bony::desktop::fonts::font_face_ok(b"OTTO"));
    assert_eq!(bony::desktop::fonts::font_candidates()[0].0, "msyh");
}

#[test]
fn usage_counter_prefers_nested_then_first_key() {
    assert_eq!(usage_count_keys(UsageCount::Thought), vec!["reasoningTokens", "thoughtTokens", "reasoning_tokens"]);
    assert_eq!(usage_count_keys(UsageCount::Total), vec!["totalTokens", "total_tokens"]);
    let nested = [false, true];
    assert_eq!(count_source(Some(&nested), &[true, true]), CountSource::Nested(1));
    assert_eq!(count_source(Some(&[false, false]), &[false, true]), CountSource::Top(1));
    assert_eq!(count_source(None, &[true, true]), CountSource::Top(0));
    assert_eq!(count_source(None, &[false, false]), CountSource::Absent);
}

#[test]
fn connected_session_steps() {
    let blank = UiCommand::Prompt { text: "  \n ".to_string(), attachments: vec![] };
    assert!(matches!(session_step(&blank), SessionAction::Continue));
    assert!(matches!(session_step(&UiCommand::Shutdown), SessionAction::End(SessionEnd::Shutdown)));
    assert!(matches!(session_step(&UiCommand::ForceStop), SessionAction::End(SessionEnd::Reconnect)));
    assert!(matches!(session_step(&UiCommand::Login), SessionAction::Login));
    assert!(matches!(session_step(&UiCommand::Cancel), SessionAction::Cancel));
    match session_step(&UiCommand::SetModel { model_id: "grok-4".to_string() }) {
        SessionAction::SetModel(m) => assert_eq!(m, "grok-4"),
        other => panic!("{other:?}"),
    }
    match session_step(&UiCommand::PermissionResponse { option_id: Some("allow".to_string()) }) {
        SessionAction::AnswerPermission(o) => assert_eq!(o.as_deref(), Some("allow")),
        other => panic!("{other:?}"),
    }
    let prompt = UiCommand::Prompt {
        text: " look ".to_string(),
        attachments: vec![
            AttachmentPayload { name: "a.png".to_string(), mime_type: "image/png".to_string(), data: b"hi".to_vec() },
            AttachmentPayload { name: "n.txt".to_string(), mime_type: "text/plain".to_string(), data: b"x".to_vec() },
        ],
    };
    match session_step(&prompt) {
        SessionAction::Send(v) => {
            assert_eq!(v.len(), 3);
            assert!(matches!(&v[0], PromptBlock::Text(t) if t == "look"));
            assert!(matches!(&v[1], PromptBlock::Image { mime_type, data } if mime_type == "image/png" && data == "aGk="));
            assert!(matches!(&v[2], PromptBlock::Text(t) if t == "\n<attachment name=\"n.txt\">\nx\n</attachment>"));
        }
        other => panic!("{other:?}"),
    }
}

#[test]
fn clock_readings_clamp_to_i64() {
    assert_eq!(clamp_seconds(0), 0);
    assert_eq!(clamp_seconds(1_700_000_000), 1_700_000_000);
    assert_eq!(clamp_seconds(u64::MAX), i64::MAX);
}

#[test]
fn task_list_filter_and_search() {
    assert!(is_task_listed(TaskListFilter::All, TaskStatus::Draft, "Fix Login Bug", "  login "));
    assert!(!is_task_listed(TaskListFilter::All, TaskStatus::Draft, "Fix Login Bug", "logout"));
    assert!(is_task_listed(TaskListFilter::Active, TaskStatus::Running, "任务", ""));
    assert!(!is_task_listed(TaskListFilter::Completed, TaskStatus::Running, "任务", ""));
}

#[test]
fn usage_chips_take_the_larger_count() {
    let turn = |total: u64, input: u64, output: u64| {
        let mut t = TurnRecord {
            id: String::new(),
            session_id: String::new(),
            model_id: String::new(),
            model_name: String::new(),
            started_at: String::new(),
            finished_at: String::new(),
            stop_reason: String::new(),
            user_text: String::new(),
            assistant_text: String::new(),
            tool_titles: vec![],
            usage_cumulative: usage_bill(0, 0, 0, 0, 0),
            usage_delta: usage_bill(total, input, output, 0, 0),
        };
        t.usage_delta.total_tokens = total;
        t
    };
    let turns = vec![turn(100, 60, 40), turn(50, 30, 20)];
    let session = usage_bill(120, 100, 0, 0, 0);
    assert_eq!(usage_chip_totals(&turns, &session), (150, 100, 60));
    assert_eq!(usage_chip_totals(&[], &session), (120, 100, 0));
}

#[test]
fn lowercase_of_ascii_and_beyond() {
    assert_eq!(lowercase(&['A', 'b', 'Z', '1']), vec!['a', 'b', 'z', '1']);
    assert_eq!(char_lowercase('Q'), vec!['q']);
    assert_eq!(lowercase(&['É']), vec!['é']);
}

#[test]
fn image_bytes_go_out_in_base64() {
    let image = |data: &[u8]| UiCommand::Prompt {
        text: String::new(),
        attachments: vec![AttachmentPayload { name: "i".to_string(), mime_type: "image/png".to_string(), data: data.to_vec() }],
    };
    for (bytes, text) in [(&b"Man"[..], "TWFu"), (b"Ma", "TWE="), (b"M", "TQ=="), (b"\xff\xfe\xfd\x00", "//79AA==")] {
        match session_step(&image(bytes)) {
            SessionAction::Send(v) => assert!(matches!(&v[0], PromptBlock::Image { data, .. } if data == text)),
            other => panic!("{other:?}"),
        }
    }
}
