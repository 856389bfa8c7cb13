use bony::build::unity::{
    compile_unity_scene_command, format_relative_at, infer_editor_link, infer_pipeline_status,
    normalize_unity_chat, accept_generated_plan, accept_generated_plan_unrestricted, plan_json_of,
    parse_unity_chat_command, path_for_unity_cli, pipeline_server_reachable,
    summarize_pipeline_list, truncate_one_line, unity_chat_commands, unity_chat_help_text,
    wants_unity_help, windows_path_for_unity_cli, EditorLinkStatus, LoopPhase, PipelineStatus,
    SetupStep, UnityAction, find_unity_project_root, names_pipeline_package, pipeline_loaded,
    ProjectProbe, cli_path_for, find_unity_project_root_for,
};

#[test]
fn unity_cli_path_drops_windows_extended_prefix() {
    let path = r"\\?\C:\Users\测试\UnityProject";
    assert_eq!(path_for_unity_cli(path), path.to_string());
    assert_eq!(windows_path_for_unity_cli(path), r"C:\Users\测试\UnityProject");
}

#[test]
fn pipeline_summary_distinguishes_package_from_live_server() {
    let raw = "Project Path PID Running Pipeline Version Update Available Server Port Server Reachable Safe Mode\n教程 C:\\Unity\\教程 123 true true 0.3.1-exp.1 false 0 false false";
    let summary = summarize_pipeline_list(raw);
    assert!(summary.contains("0.3.1-exp.1"));
    assert!(summary.contains("尚未启动"));
}

#[test]
fn detects_reachable_pipeline_with_wrapped_header_and_missing_pid() {
    let raw = "Project Path PID Running Pipeline Version Update Available Server Port Server\nReachable Safe Mode\nTutorial C:\\Unity\\Tutorial true true 0.3.1-exp.1 false 7800 true";
    assert_eq!(pipeline_server_reachable(raw), Some(true));
    let summary = summarize_pipeline_list(raw);
    assert!(summary.contains("0.3.1-exp.1"));
}

#[test]
fn detects_unreachable_pipeline_using_port_anchor() {
    let raw = "Project Path PID Running Pipeline Version Update Available Server Port Server Reachable Safe Mode\nTutorial C:\\Unity\\Tutorial 123 true true 0.3.1-exp.1 false 7800 false false";
    assert_eq!(pipeline_server_reachable(raw), Some(false));
}

#[test]
fn routes_scene_sphere_request_to_unity_eval() {
    let cmd = parse_unity_chat_command("帮我在场景画一个球体").unwrap();
    assert_eq!(cmd.action, UnityAction::Eval);
    assert!(cmd.eval.unwrap().contains("CreatePrimitive"));
    assert_eq!(cmd.slash, "/unity sphere");
}

#[test]
fn compiles_parameterized_scene_creation() {
    let (label, eval) = compile_unity_scene_command("帮我创建3个球体并排放置").unwrap();
    assert_eq!(label, "创建 3 个球体");
    assert!(eval.contains("i < 3"));
    assert!(eval.contains("PrimitiveType.Sphere"));

    let (_, cube_eval) = compile_unity_scene_command("生成五个立方体").unwrap();
    assert!(cube_eval.contains("i < 5"));
    assert!(cube_eval.contains("PrimitiveType.Cube"));
}

#[test]
fn compiles_follow_up_color_edit_for_selection() {
    let (label, eval) = compile_unity_scene_command("帮我补上绿色").unwrap();
    assert_eq!(label, "把选中对象设为绿色");
    assert!(eval.contains("UnityEditor.Selection.gameObjects"));
    assert!(eval.contains("Color.green"));
    assert!(eval.contains("GetComponentsInChildren<Renderer>"));
}

#[test]
fn compiles_common_selection_edits() {
    assert!(compile_unity_scene_command("把它们向上移动").unwrap().1.contains("Vector3.up"));
    assert!(compile_unity_scene_command("把这些放大").unwrap().1.contains("2f"));
    assert!(compile_unity_scene_command("给它们添加刚体").unwrap().1.contains("Rigidbody"));
    assert!(compile_unity_scene_command("复制选中对象").unwrap().1.contains("Instantiate"));
    assert!(compile_unity_scene_command("删除选中对象").unwrap().1.contains("DestroyObjectImmediate"));
}

#[test]
fn accepts_safe_generated_unity_plan() {
    let raw = r#"{"summary":"创建灯光","csharp":"var go = new GameObject(\"Light\"); UnityEditor.Undo.RegisterCreatedObjectUndo(go, \"Create Light\"); go.AddComponent<Light>(); return go.name;"}"#;
    let (summary, csharp) = accept_generated_plan(parsed(raw)).unwrap();
    assert_eq!(summary, "创建灯光");
    assert!(csharp.contains("AddComponent<Light>"));
}

#[test]
fn rejects_generated_plan_with_external_io() {
    let raw = r#"{"summary":"write","csharp":"System.IO.File.WriteAllText(\"x\", \"y\"); return true;"}"#;
    assert!(accept_generated_plan(parsed(raw)).is_err());
}

#[test]
fn eval_uses_named_code_argument_and_json_output() {
    let (_, args, _) = UnityAction::Eval.to_cli_args("return 42;", r"C:\Unity\Project");
    assert_eq!(&args[0..2], &["--format", "json"]);
    assert!(args.windows(2).any(|pair| pair == ["--code", "return 42;"]));
    assert!(args.iter().any(|arg| arg == "--"));
}

#[test]
fn plan_inside_code_fence_lists_all_forbidden_apis() {
    let raw = "```json\n{\"summary\":\"s\",\"csharp\":\"System.Net.WebRequest.Create(\\\"x\\\"); File.Exists(\\\"y\\\");\"}\n```";
    let (summary, _, risks) = accept_generated_plan_unrestricted(parsed(raw)).unwrap();
    assert_eq!(summary, "s");
    assert_eq!(risks, vec!["system.net".to_string(), "file.".to_string(), "webrequest".to_string()]);
    let err = accept_generated_plan(parsed(raw)).unwrap_err();
    assert_eq!(err, "Unity 计划包含禁止的越界 API：system.net");
}

#[test]
fn plan_errors_name_what_is_missing() {
    assert!(accept_generated_plan(parsed("not json")).unwrap_err().starts_with("Unity 计划格式无效："));
    assert_eq!(
        accept_generated_plan(Err("missing field `csharp` at line 1 column 15".to_string())).unwrap_err(),
        "Unity 计划格式无效：missing field `csharp` at line 1 column 15"
    );
    assert_eq!(
        accept_generated_plan(parsed(r#"{"summary":"  ","csharp":"x"}"#)).unwrap_err(),
        "Unity 计划缺少 summary 或 csharp"
    );
    let long = format!(r#"{{"summary":"s","csharp":"{}"}}"#, "a".repeat(24001));
    assert_eq!(accept_generated_plan(parsed(&long)).unwrap_err(), "Unity 计划过长，已拒绝执行");
    assert_eq!(plan_json_of("```json\n{\"a\":1}\n```"), "{\"a\":1}");
}

#[test]
fn scene_count_is_clamped_and_defaults_to_one() {
    assert_eq!(compile_unity_scene_command("创建99个方块").unwrap().0, "创建 50 个立方体");
    assert_eq!(compile_unity_scene_command("创建0个方块").unwrap().0, "创建 1 个立方体");
    assert_eq!(compile_unity_scene_command("生成 cylinder").unwrap().0, "创建 1 个圆柱体");
    assert_eq!(compile_unity_scene_command("放两个胶囊体").unwrap().0, "创建 2 个胶囊体");
    assert!(compile_unity_scene_command("创建一个东西").is_none());
    assert!(compile_unity_scene_command("球体").is_none());
    let (label, eval) = compile_unity_scene_command("把这些缩小").unwrap();
    assert_eq!(label, "缩小选中对象");
    assert!(eval.contains("localScale *= 0.5f;"));
}

#[test]
fn chat_normalisation_and_help() {
    assert_eq!(normalize_unity_chat("  /Unity  Sphere "), "/unitysphere");
    assert_eq!(parse_unity_chat_command("/unity probe").unwrap().action, UnityAction::ProbeEditor);
    assert_eq!(parse_unity_chat_command("请 查询碰撞体").unwrap().slash, "/unity collider");
    assert!(parse_unity_chat_command("   ").is_none());
    assert!(parse_unity_chat_command("hello").is_none());
    assert!(wants_unity_help(" /Unity Help "));
    assert!(wants_unity_help("unity?"));
    assert!(!wants_unity_help("unity"));
    let help = unity_chat_help_text();
    assert!(help.starts_with("### 对话控制 Unity"));
    assert!(help.contains("- **创建球体** · `/unity sphere`"));
    assert_eq!(help.lines().count(), 10 + unity_chat_commands().len());
}

#[test]
fn labels_steps_and_phases() {
    assert_eq!(LoopPhase::Verify.next(), LoopPhase::Observe);
    assert_eq!(LoopPhase::Observe.next().next().next(), LoopPhase::Observe);
    assert_eq!(SetupStep::ProbeEditor.index(), 4);
    assert_eq!(SetupStep::all().len(), 6);
    assert_eq!(PipelineStatus::PendingImport.label(), "等待编辑器加载");
}

#[test]
fn infers_statuses_from_cli_output() {
    assert_eq!(infer_pipeline_status("Pipeline: NOT INSTALLED", true), PipelineStatus::NotInstalled);
    assert_eq!(infer_pipeline_status("  \n", true), PipelineStatus::NotInstalled);
    assert_eq!(infer_pipeline_status("anything", true), PipelineStatus::Installed);
    assert_eq!(infer_pipeline_status("installed", false), PipelineStatus::Error);
    assert_eq!(infer_editor_link("Could not connect", true), EditorLinkStatus::Disconnected);
    assert_eq!(infer_editor_link("{\"ok\":1}", true), EditorLinkStatus::Connected);
}

#[test]
fn summaries_and_relative_time() {
    assert_eq!(summarize_pipeline_list(""), "无 Pipeline 项目");
    assert_eq!(summarize_pipeline_list("x Installed"), "Pipeline: Installed");
    assert_eq!(truncate_one_line("\n  abcdef  \nzz", 4), "abc…");
    assert_eq!(truncate_one_line("abc", 3), "abc");
    assert_eq!(format_relative_at(100, 98), "刚刚");
    assert_eq!(format_relative_at(100, 30), "70 秒前".replace("70 秒前", "1 分钟前"));
    assert_eq!(format_relative_at(10_000, 0), "2 小时前");
    assert_eq!(format_relative_at(0, 50), "刚刚");
    assert_eq!(format_relative_at(200_000, 0), "2 天前");
}

fn probe(path: &str, assets: bool, settings: bool, manifest: bool) -> ProjectProbe {
    ProjectProbe {
        path: path.to_string(),
        assets_dir: assets,
        project_settings_dir: settings,
        packages_manifest: manifest,
    }
}

#[test]
fn project_root_found_from_an_assets_subfolder() {
    // `/p/Assets/Skyboxes` inside a project `/p` with `Assets/` and `ProjectSettings/`.
    let ancestors = vec![
        probe("/p/Assets/Skyboxes", false, false, false),
        probe("/p/Assets", false, false, false),
        probe("/p", true, true, false),
        probe("/", false, false, false),
    ];
    assert_eq!(find_unity_project_root(&ancestors), Some("/p".to_string()));
    let manifest_only = vec![probe("/q", true, false, true)];
    assert_eq!(find_unity_project_root(&manifest_only), Some("/q".to_string()));
    let no_project = vec![probe("/r", true, false, false), probe("/", false, true, true)];
    assert_eq!(find_unity_project_root(&no_project), None);
    let deep: Vec<ProjectProbe> = (0..13)
        .map(|i| probe(&format!("/d{i}"), i == 12, i == 12, false))
        .collect();
    assert_eq!(find_unity_project_root(&deep), None);
}

#[test]
fn manifest_only_pipeline_is_declared_but_not_loaded() {
    let manifest = r#"{"dependencies":{"com.unity.pipeline":"0.3.1-exp.1"}}"#;
    assert!(names_pipeline_package(manifest));
    assert!(!names_pipeline_package(r#"{"dependencies":{"com.unity.ugui":"1.0.0"}}"#));
    // No lock file and no package cache yet: the editor has not loaded it.
    assert!(!pipeline_loaded(None, &[]));
    let cached = vec!["com.unity.ugui@1.0.0".to_string(), "com.unity.pipeline@0.3.1".to_string()];
    assert!(!pipeline_loaded(None, &cached));
    assert!(!pipeline_loaded(Some(manifest), &cached[..1]));
    assert!(pipeline_loaded(Some(manifest), &cached));
}

#[test]
fn windows_spelling_of_cli_and_root_paths() {
    let path = r"\\?\C:\Users\测试\UnityProject";
    assert_eq!(cli_path_for(path, true), r"C:\Users\测试\UnityProject");
    assert_eq!(cli_path_for(path, false), path);
    assert_eq!(cli_path_for(r"\\?\UNC\srv\share\p", true), r"\\srv\share\p");
    let ancestors = vec![probe(r"\\?\C:\p\Assets", false, false, false), probe(r"\\?\C:\p", true, true, false)];
    assert_eq!(find_unity_project_root_for(&ancestors, true), Some(r"C:\p".to_string()));
    assert_eq!(find_unity_project_root_for(&ancestors, false), Some(r"\\?\C:\p".to_string()));
}

/// The plan's two fields read from the reply's plan JSON, as the client's
/// typed parse gives them (here through `serde_json::Value`).
fn parsed(raw: &str) -> Result<(String, String), String> {
    let v: serde_json::Value = serde_json::from_str(&plan_json_of(raw)).map_err(|e| e.to_string())?;
    let field = |k: &str| match v.get(k) {
        Some(serde_json::Value::String(s)) => Ok(s.clone()),
        Some(_) => Err(format!("invalid type for field `{k}`")),
        None => Err(format!("missing field `{k}`")),
    };
    Ok((field("summary")?, field("csharp")?))
}

#[test]
fn normalized_chat_has_no_whitespace() {
    let n = normalize_unity_chat("  进入 Play\tMode \n");
    assert_eq!(n, "进入playmode");
    assert!(!n.chars().any(char::is_whitespace));
}

#[test]
fn cli_arguments_spell_the_project_for_the_platform() {
    let (_, args, _) = UnityAction::ProbeEditor.to_cli_args_for("", r"\\?\C:\p", true);
    assert_eq!(args, vec!["command".to_string(), r"--project-path=C:\p".to_string()]);
    let (_, args, _) = UnityAction::ProbeEditor.to_cli_args_for("", r"\\?\C:\p", false);
    assert_eq!(args[1], r"--project-path=\\?\C:\p");
}
