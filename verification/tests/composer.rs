use bony::build::composer::{
    attachment_mime, bubble_text, can_send_prompt, task_title_after,
    decide_unity_plan, follow_event, route_unity_chat, PlanDecision, UnityChatRoute,
};
use bony::build::events::AgentEvent;
use bony::build::task::{PermissionMode, TaskState, TaskStatus};
use bony::build::unity::UnityAction;

#[test]
fn unity_messages_are_routed() {
    assert!(matches!(
        route_unity_chat("", false, false, PermissionMode::Ask, true, true),
        UnityChatRoute::NotForUnity
    ));
    assert!(matches!(
        route_unity_chat("生成五个立方体", true, false, PermissionMode::Ask, true, true),
        UnityChatRoute::NotForUnity
    ));
    assert!(matches!(
        route_unity_chat("unity?", false, false, PermissionMode::Ask, false, true),
        UnityChatRoute::Help
    ));
    assert!(matches!(
        route_unity_chat("生成五个立方体", false, true, PermissionMode::Ask, false, true),
        UnityChatRoute::Busy
    ));
    assert!(matches!(
        route_unity_chat("生成五个立方体", false, false, PermissionMode::ReadOnly, false, true),
        UnityChatRoute::ReadOnly
    ));
    match route_unity_chat("生成五个立方体", false, false, PermissionMode::Ask, false, true) {
        UnityChatRoute::AwaitApproval { summary, csharp } => {
            assert_eq!(summary, "创建 5 个立方体");
            assert!(csharp.contains("PrimitiveType.Cube"));
        }
        _ => panic!("expected an approval request"),
    }
    assert!(matches!(
        route_unity_chat("生成五个立方体", false, false, PermissionMode::FullControl, false, true),
        UnityChatRoute::RunEval { .. }
    ));
    match route_unity_chat("/unity probe", false, false, PermissionMode::Ask, false, true) {
        UnityChatRoute::Command(c) => assert_eq!(c.action, UnityAction::ProbeEditor),
        _ => panic!("expected a chat command"),
    }
    assert!(matches!(
        route_unity_chat("hello", false, false, PermissionMode::Ask, false, true),
        UnityChatRoute::NotForUnity
    ));
    assert!(matches!(
        route_unity_chat("hello", false, false, PermissionMode::Ask, true, false),
        UnityChatRoute::NeedsAgent
    ));
    match route_unity_chat("hello", false, false, PermissionMode::Ask, true, true) {
        UnityChatRoute::Planner { prompt } => {
            assert!(prompt.starts_with("You are a Unity Editor action compiler."));
            assert!(prompt.ends_with("User request: hello"));
        }
        _ => panic!("expected a planner prompt"),
    }
}

#[test]
fn unity_plans_follow_the_permission_mode() {
    let raw = r#"{"summary":"创建灯光","csharp":"var go = new GameObject(\"Light\"); UnityEditor.Undo.RegisterCreatedObjectUndo(go, \"Create Light\"); go.AddComponent<Light>(); return go.name;"}"#;
    match decide_unity_plan(plan(raw), PermissionMode::ReadOnly) {
        PlanDecision::Shown { message } => {
            assert_eq!(message, "Unity 计划已生成：创建灯光\n\n当前任务是只读模式，没有执行修改。")
        }
        _ => panic!("expected the plan to be shown only"),
    }
    match decide_unity_plan(plan(raw), PermissionMode::Ask) {
        PlanDecision::AwaitApproval { message, summary, risks, .. } => {
            assert_eq!(message, "Unity 计划等待批准：创建灯光");
            assert_eq!(summary, "创建灯光");
            assert!(risks.is_empty());
        }
        _ => panic!("expected an approval request"),
    }
    match decide_unity_plan(plan(raw), PermissionMode::AllowEdits) {
        PlanDecision::Execute { message, csharp, .. } => {
            assert_eq!(message, "Unity 计划已批准：创建灯光\n\n正在执行…");
            assert!(csharp.contains("AddComponent<Light>"));
        }
        _ => panic!("expected the plan to run"),
    }
    match decide_unity_plan(Err("expected value at line 1 column 1".to_string()), PermissionMode::AllowEdits) {
        PlanDecision::Rejected { message } => {
            assert!(message.starts_with("无法生成可执行的 Unity 计划："));
            assert!(message.ends_with("\n\n没有执行任何编辑器操作。"));
        }
        _ => panic!("expected a rejection"),
    }
}

#[test]
fn task_status_follows_agent_events() {
    let mut task = TaskState::draft("/p".to_string(), "m0".to_string());
    task.status = TaskStatus::Running;
    assert!(follow_event(&mut task, &AgentEvent::PermissionRequest {
        tool_call_id: "t".into(),
        title: "x".into(),
        options: vec![],
    }, 10));
    assert_eq!(task.status, TaskStatus::WaitingApproval);
    assert_eq!(task.updated_at, 10);
    assert!(follow_event(&mut task, &AgentEvent::Connected {
        session_id: "s1".into(),
        cwd: "/p".into(),
        current_model_id: "m1".into(),
        current_model_name: "M1".into(),
        models: vec![],
        current_mode_id: String::new(),
        modes: vec![],
        restored: false,
    }, 11));
    assert_eq!(task.status, TaskStatus::Draft);
    assert_eq!(task.session_id.as_deref(), Some("s1"));
    assert_eq!(task.model_id, "m1");
    assert!(follow_event(&mut task, &AgentEvent::Error("x".into()), 12));
    assert_eq!(task.status, TaskStatus::Failed);
    assert!(!follow_event(&mut task, &AgentEvent::Status("x".into()), 13));
    assert_eq!(task.updated_at, 12);
}

#[test]
fn composer_rules() {
    assert!(can_send_prompt("hi", 0, false, false, true));
    assert!(can_send_prompt("", 1, false, false, true));
    assert!(!can_send_prompt("", 0, false, false, true));
    assert!(!can_send_prompt("hi", 0, true, false, true));
    assert!(!can_send_prompt("hi", 0, false, true, true));
    assert!(!can_send_prompt("hi", 0, false, false, false));
    assert_eq!(task_title_after("新任务", "修复登录"), "修复登录");
    let long: String = "x".repeat(50);
    assert_eq!(task_title_after("新任务", &long), "x".repeat(42));
    assert_eq!(task_title_after("已命名", "修复登录"), "已命名");
    assert_eq!(task_title_after("新任务", ""), "新任务");
    assert_eq!(bubble_text("", 3), "已附加 3 个文件");
    assert_eq!(bubble_text("hi", 3), "hi");
    assert_eq!(attachment_mime("PNG"), Some("image/png"));
    assert_eq!(attachment_mime("jpeg"), Some("image/jpeg"));
    assert_eq!(attachment_mime("rs"), Some("text/plain"));
    assert_eq!(attachment_mime("exe"), None);
    assert_eq!(attachment_mime(""), None);
}

fn plan(raw: &str) -> Result<(String, String), String> {
    let v: serde_json::Value = serde_json::from_str(raw).map_err(|e| e.to_string())?;
    Ok((v["summary"].as_str().unwrap().to_string(), v["csharp"].as_str().unwrap().to_string()))
}
