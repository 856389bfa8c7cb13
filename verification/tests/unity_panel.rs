use bony::build::unity::{
    eval_output_succeeded, summarize_editors_json, summarize_eval_output, CliStatus,
    EditorLinkStatus, LoopPhase, PipelineStatus, SetupStep, StepState, UnityAction,
};
use bony::build::unity_state::{
    demo_eval_result, CommandDone, ProjectFacts, SceneSnapshot, UnityEffect, UnityState,
    DEMO_EDITORS_JSON,
};

fn fresh() -> UnityState {
    UnityState::new(None, None, "/work/game".to_string())
}

fn facts(unity_project: bool) -> ProjectFacts {
    ProjectFacts { unity_project, pipeline_declared: false, pipeline_loaded: false }
}

fn done(action: UnityAction, ok: bool, stdout: &str, stderr: &str) -> CommandDone {
    CommandDone {
        action,
        title: "t".to_string(),
        command: "unity x".to_string(),
        phase: LoopPhase::Observe,
        ok,
        stdout: stdout.to_string(),
        stderr: stderr.to_string(),
        elapsed_ms: 7,
    }
}

#[test]
fn summarize_demo_editors() {
    let s = summarize_editors_json(DEMO_EDITORS_JSON);
    assert!(s.contains("6000.2.10f1"));
    assert!(s.contains("2"));
}

#[test]
fn full_loop_queues_three_steps() {
    let mut state = fresh();
    state.status = CliStatus::Missing;
    state.demo_mode = true;
    state.run_action(UnityAction::RunFullLoop, 0);
    assert_eq!(state.guide_queue.len(), 3);
    assert!(state.guide_label.is_some());
}

#[test]
fn eval_requires_structured_success() {
    assert!(eval_output_succeeded(
        r#"{"success":true,"data":{"success":true,"result":"Created 30 Cube"}}"#
    ));
    assert!(!eval_output_succeeded(
        r#"{"success":true,"data":{"success":false,"result":"compile error"}}"#
    ));
    assert!(!eval_output_succeeded("Command Success Result Parameters"));
}

#[test]
fn editors_summary_lists_versions_and_counts() {
    assert_eq!(summarize_editors_json(DEMO_EDITORS_JSON), "2 个：6000.2.10f1, 6000.0.28f1");
    assert_eq!(summarize_editors_json("[]"), "0 个已安装编辑器");
    assert_eq!(summarize_editors_json(r#"[{"a":1},{"b":2}]"#), "2 个编辑器");
    assert_eq!(
        summarize_editors_json(r#"[{"Version":"1"},{"version":2},{"version":"3"}]"#),
        "3 个：1, 3"
    );
    assert_eq!(
        summarize_editors_json(
            r#"[{"version":"a"},{"version":"b"},{"version":"c"},{"version":"d"},{"version":"e"}]"#
        ),
        "5 个：a, b, c, d"
    );
    assert_eq!(summarize_editors_json("  not json\nmore"), "not json");
}

#[test]
fn eval_summary_prefers_result_then_errors_then_last_line() {
    assert_eq!(
        summarize_eval_output(r#"{"success":true,"data":{"success":true,"result":"Created 30 Cube"}}"#),
        "\"Created 30 Cube\""
    );
    assert_eq!(summarize_eval_output(r#"{"result":42}"#), "42");
    assert_eq!(
        summarize_eval_output(r#"{"success":false,"errors":[{"message":"boom"}]}"#),
        "boom"
    );
    assert_eq!(summarize_eval_output(r#"{"success":false}"#), "Unity Eval 失败");
    assert_eq!(
        summarize_eval_output("true\nCommand Success Result Parameters\n\n"),
        "true"
    );
    assert_eq!(summarize_eval_output("   \n"), "Unity Eval 未返回结果");
}

#[test]
fn scene_status_line_writes_one_decimal() {
    let mut scene = SceneSnapshot::default();
    assert_eq!(scene.status_line(), "Player.y=1.0 · GroundCollider=ON · Play=OFF");
    scene.player_y_tenths = -24;
    scene.ground_collider_enabled = false;
    scene.is_playing = true;
    assert_eq!(scene.status_line(), "Player.y=-2.4 · GroundCollider=OFF · Play=ON");
}

#[test]
fn new_panel_binds_saved_root_and_locks() {
    let s = UnityState::new(
        Some("/p/Assets/X".to_string()),
        Some("/p".to_string()),
        "/cwd".to_string(),
    );
    assert_eq!(s.project_path, "/p");
    assert!(s.project_locked);
    assert_eq!(s.setup_step, SetupStep::InstallCli);
    assert_eq!(s.eval_input, "return UnityEditor.EditorApplication.isPlaying;");
    let t = fresh();
    assert_eq!(t.project_path, "/work/game");
    assert!(!t.project_locked);
}

#[test]
fn detection_runs_once_and_decides_demo_mode() {
    let mut s = fresh();
    assert!(s.ensure_detecting());
    assert_eq!(s.status, CliStatus::Checking);
    assert!(!s.ensure_detecting());
    s.apply_detected(None, String::new(), None, true);
    assert_eq!(s.status, CliStatus::Missing);
    assert!(s.demo_mode);
    assert_eq!(s.take_toast().as_deref(), Some("未安装 CLI，已切换演示模式"));
    assert_eq!(s.take_toast(), None);
    s.apply_detected(Some("/bin/unity".to_string()), "1.0".to_string(), None, false);
    assert_eq!(s.status, CliStatus::Ready);
    assert!(!s.demo_mode);
    assert_eq!(s.setup_step, SetupStep::PickProject);
    s.sync_setup_step(true);
    assert_eq!(s.setup_step, SetupStep::InstallPipeline);
    assert_eq!(s.step_state(SetupStep::InstallCli), StepState::Done);
    assert_eq!(s.step_state(SetupStep::InstallPipeline), StepState::Current);
    assert_eq!(s.step_state(SetupStep::RunLoop), StepState::Locked);
}

#[test]
fn real_cli_runs_build_a_command_line() {
    let mut s = fresh();
    s.apply_detected(Some("/bin/unity".to_string()), "1.0".to_string(), None, true);
    match s.run_action(UnityAction::ListPipeline, 5) {
        UnityEffect::Run(run) => {
            assert_eq!(run.cli, "/bin/unity");
            assert_eq!(run.args, vec!["pipeline".to_string(), "list".to_string()]);
            assert_eq!(run.command, "/bin/unity pipeline list");
            assert!(!run.long_timeout);
        }
        _ => panic!("expected a CLI run"),
    }
    assert!(s.busy);
    assert_eq!(s.pipeline_status, PipelineStatus::Checking);
    assert!(matches!(s.run_action(UnityAction::ListEditors, 6), UnityEffect::Nothing));
}

#[test]
fn demo_replies_and_command_done_update_the_panel() {
    let mut s = fresh();
    s.status = CliStatus::Missing;
    s.demo_mode = true;
    let reply = match s.run_action(UnityAction::ProbeEditor, 0) {
        UnityEffect::Demo(d) => d,
        _ => panic!("expected a demo reply"),
    };
    assert_eq!(reply.stdout, "demo: editor connected · 4 commands\nConnected to Editor\ngreet\neval\nplay\nstop\n");
    assert_eq!(reply.elapsed_ms, 12);
    assert!(s.busy);
    s.apply_command_done(reply, 1000, 10, facts(true));
    assert!(!s.busy);
    assert_eq!(s.editor_link, EditorLinkStatus::Connected);
    assert_eq!(s.pipeline_status, PipelineStatus::Unknown);
    assert_eq!(s.history.len(), 1);
    assert_eq!(s.history[0].id, 1);
    assert_eq!(s.history[0].at_unix, 1000);
    assert_eq!(s.next_id, 2);
    assert_eq!(s.loop_phase, LoopPhase::Act);
    assert_eq!(s.latest_record_id(), 1);
    assert_eq!(
        s.latest_chat_result_since(0),
        "Unity 操作已完成：探测编辑器连接。demo: editor connected · 4 commands（12 ms）"
    );
    assert_eq!(
        s.latest_chat_result_since(1),
        "Unity 状态已刷新：CLI 未安装，Pipeline 未知，编辑器已连接。"
    );
}

#[test]
fn failures_are_recorded_with_their_message() {
    let mut s = fresh();
    s.apply_command_done(done(UnityAction::InstallPipeline, false, "out", "  pipeline broke\nmore"), 1, 0, facts(true));
    assert_eq!(s.pipeline_status, PipelineStatus::Error);
    assert_eq!(s.pipeline_summary, "pipeline broke");
    assert_eq!(s.toast.as_deref(), Some("Pipeline 安装失败：pipeline broke"));
    assert_eq!(s.history[0].summary, "pipeline broke");
    s.apply_command_done(done(UnityAction::ProbeEditor, false, "No Pipeline here", ""), 2, 0, facts(true));
    assert_eq!(s.editor_link, EditorLinkStatus::Disconnected);
    assert_eq!(s.commands_summary, "No Pipeline here");
    assert_eq!(s.toast.as_deref(), Some("编辑器未响应：请先安装 Pipeline 并打开项目"));
    assert_eq!(s.history.len(), 2);
    assert_eq!(s.history[0].id, 2);
}

#[test]
fn history_keeps_forty_newest_entries() {
    let mut s = fresh();
    for i in 0..45u64 {
        s.apply_command_done(done(UnityAction::ListEditors, true, "[]", ""), i, 0, facts(false));
    }
    assert_eq!(s.history.len(), 40);
    assert_eq!(s.history[0].id, 45);
    assert_eq!(s.history[39].id, 6);
    s.clear_history();
    assert!(s.history.is_empty());
    assert_eq!(s.latest_record_id(), 0);
}

#[test]
fn pending_import_when_declared_but_not_loaded() {
    let mut s = fresh();
    let f = ProjectFacts { unity_project: true, pipeline_declared: true, pipeline_loaded: false };
    s.apply_command_done(done(UnityAction::InstallPipeline, true, "", ""), 1, 0, f);
    assert_eq!(s.pipeline_status, PipelineStatus::PendingImport);
    assert_eq!(s.pipeline_summary, "已写入 manifest；请完全关闭并重新打开 Unity 工程");
    assert_eq!(s.toast.as_deref(), Some("Pipeline 已安装，请等编辑器重编译后再探测"));
}

#[test]
fn guided_loop_runs_three_demo_steps() {
    let mut s = fresh();
    s.status = CliStatus::Missing;
    assert!(matches!(s.run_action(UnityAction::RunFullLoop, 100), UnityEffect::Nothing));
    assert!(s.demo_mode);
    assert!(s.is_guiding());
    assert!(s.needs_repaint());
    assert!(s.tick_guide(99).is_none());
    let mut now = 100u64;
    let mut labels = Vec::new();
    for _ in 0..3 {
        let effect = s.tick_guide(now).expect("a step is due");
        labels.push(s.guide_label.clone().unwrap());
        let reply = match effect {
            UnityEffect::Demo(d) => d,
            _ => panic!("expected a demo reply"),
        };
        s.apply_command_done(reply, 1, now, facts(true));
        now += 650;
    }
    assert_eq!(
        labels,
        vec![
            "闭环 1/3 · 观察碰撞体".to_string(),
            "闭环 2/2 · 修复碰撞体".to_string(),
            "闭环 3/1 · 进入 Play".to_string(),
        ]
    );
    assert_eq!(s.guide_label, None);
    assert_eq!(s.toast.as_deref(), Some("完整闭环完成 ✓"));
    assert!(s.scene.ground_collider_enabled);
    assert!(s.scene.is_playing);
    assert_eq!(s.scene.player_y_tenths, 10);
    assert_eq!(s.loop_phase, LoopPhase::Verify);
    assert_eq!(s.history.len(), 3);
    s.reset_scene();
    assert_eq!(s.scene.note, "尚未观察场景");
    assert_eq!(s.loop_phase, LoopPhase::Observe);
}

#[test]
fn demo_eval_echoes_the_scene_and_quotes_the_expression() {
    let scene = SceneSnapshot::default();
    assert_eq!(demo_eval_result("return isPlaying;", &scene), "false");
    assert_eq!(demo_eval_result("GetComponent<Collider>()", &scene), "true");
    assert_eq!(demo_eval_result("Application.version", &scene), "\"6000.2.10f1\"");
    assert_eq!(demo_eval_result("1+1", &scene), "null");
    let mut s = fresh();
    s.demo_mode = true;
    s.eval_input = "say \"hi\"".to_string();
    match s.run_action(UnityAction::Eval, 0) {
        UnityEffect::Demo(d) => {
            assert_eq!(d.command, "unity command eval \"say \\\"hi\\\"\"");
            assert_eq!(d.phase, LoopPhase::Act);
        }
        _ => panic!("expected a demo reply"),
    }
}

#[test]
fn project_binding_and_agent_folder() {
    let mut s = fresh();
    s.pipeline_status = PipelineStatus::Installed;
    assert!(s.set_project_path("/p/Assets".to_string(), Some("/p".to_string()), true));
    assert_eq!(s.project_path, "/p");
    assert!(s.project_locked);
    assert_eq!(s.pipeline_status, PipelineStatus::Unknown);
    assert_eq!(s.toast.as_deref(), Some("已自动定位工程根：/p（原路径在子目录内）"));
    assert!(!s.set_project_path("/p/".to_string(), None, true));
    assert_eq!(s.consider_agent_cwd("/elsewhere".to_string(), true, None, false), None);
    assert_eq!(s.project_path, "/p");
    let mut t = fresh();
    assert_eq!(
        t.consider_agent_cwd("/other/Assets".to_string(), false, Some("/other".to_string()), false),
        Some("/other".to_string())
    );
    assert_eq!(t.consider_agent_cwd("/tmp/x".to_string(), false, None, false), None);
    assert_eq!(t.project_path, "/tmp/x");
    assert!(!t.project_locked);
}

#[test]
fn wizard_checklist_and_briefings() {
    let mut s = fresh();
    let list = s.checklist(false);
    assert_eq!(list.len(), 4);
    assert_eq!(list[0], ("Unity CLI", false, "检测中".to_string()));
    assert_eq!(list[1].2, "/work/game（非 Unity 工程根，请在引导里重新选择）");
    assert_eq!(list[2].2, "未知 · 尚未检查");
    assert_eq!(list[3].2, "未知 · 尚未探测");
    s.advance_after_cli_install_copied();
    assert_eq!(s.focused_setup_step(), SetupStep::DetectCli);
    assert!(matches!(s.run_setup_primary(true, 0), UnityEffect::Detect));
    assert!(s.busy);
    let b = s.chat_briefing(false);
    assert!(b.starts_with("【只读分析"));
    assert!(b.contains("- 绑定工程: /work/game（非 Unity 工程根；聊天任务目录无效）\n"));
    assert!(b.contains("- 场景: Player.y=1.0 · GroundCollider=ON · Play=OFF\n"));
    assert!(b.contains("- 最近面板操作: 尚无操作记录\n"));
    let c = s.compact_chat_briefing();
    assert!(c.contains("状态：CLI=检测中；项目=/work/game；Pipeline=未知（尚未检查）；编辑器=未知；阶段=观察；场景=Player.y=1.0 · GroundCollider=ON · Play=OFF；最近操作=无。"));
    assert!(!s.pipeline_ready_for_commands());
}

#[test]
fn install_hint_follows_the_platform() {
    assert_eq!(UnityState::install_hint(true), UnityState::install_hint_windows());
    assert_eq!(UnityState::install_hint(false), UnityState::install_hint_unix());
    assert!(UnityState::install_hint(true).contains("install.ps1"));
    assert!(UnityState::install_hint(false).starts_with("curl -fsSL"));
}

#[test]
fn chat_result_is_due_after_the_panel_settles() {
    let mut s = fresh();
    assert_eq!(s.chat_result_due(None, true), None);
    assert_eq!(s.chat_result_due(Some(0), false), None);
    assert_eq!(s.chat_result_due(Some(0), true), Some(s.latest_chat_result_since(0)));
    s.busy = true;
    assert_eq!(s.chat_result_due(Some(0), true), None);
}

#[test]
fn binding_a_plainly_different_path_binds_it() {
    let mut s = fresh();
    assert!(s.set_project_path("/work/other".to_string(), None, true));
    assert_eq!(s.project_path, "/work/other");
    assert!(!s.set_project_path("/work/other".to_string(), None, true));
}
