use bony::monitor::api::{changes_limit, count_keys, keep_tagged, overview_counts};
use bony::monitor::architecture;
use bony::monitor::git::{find_repo_root, RepoProbe};
use bony::monitor::workflow;
use bony::monitor::catalog::{rule_covers_path, CatalogCache, CatalogSnapshot, DiscoveredFile};
use bony::monitor::features::{
    analyze_features_full, auto_feature_for_path, features_overview, match_dimensions,
    match_features, FeatureHit, FeatureRule,
};
use bony::monitor::git::{change_detail, parse_git_log, parse_numstat, working_changes, ChangeEntry};
use bony::monitor::impact::{analyze, strip_prefix_ci, ChangeImpact};
use bony::monitor::matrix::{build, cell};

fn entry(subject: &str, body: &str) -> ChangeEntry {
    ChangeEntry {
        sha: "a".repeat(40),
        short_sha: "aaaaaaa".into(),
        subject: subject.into(),
        body: body.into(),
        author: String::new(),
        email: String::new(),
        date: String::new(),
        additions: 1,
        deletions: 0,
        files: vec![],
        impact: ChangeImpact {
            areas: vec![],
            dimensions: vec![],
            improvements: vec![],
            tags: vec![],
            risks: vec!["risk".into()],
            checklist: vec!["test".into()],
            features: vec![],
        },
    }
}

fn rule(id: &str, paths: &[&str], keywords: &[&str]) -> FeatureRule {
    FeatureRule {
        id: id.into(),
        name: format!("{id} name"),
        category: "桌面体验".into(),
        description: String::new(),
        user_facing: true,
        paths: paths.iter().map(|p| p.to_string()).collect(),
        names: vec!["Usage".into()],
        keywords: keywords.iter().map(|p| p.to_string()).collect(),
        severity: "high".into(),
        user_impact: "impact".into(),
    }
}

#[test]
fn parses_single_commit_chunk() {
    let sample = "\x1e\
aaaaaaaaaaaaaaaaaaaaaaaaaaaaaaaaaaaaaaaa\x1fbbbbbbb\x1fAdd feature\x1fImpact: better UI\nRisk: none\x1fAda\x1fada@ex.com\x1f2026-07-17T00:00:00+08:00\n\
10\t2\tcrates/codegen/bony-build/src/app.rs\n";
    let catalog = CatalogSnapshot::empty();
    let entries = parse_git_log(sample, &catalog).unwrap();
    assert_eq!(entries.len(), 1);
    assert_eq!(entries[0].subject, "Add feature");
    assert_eq!(entries[0].additions, 10);
    assert!(entries[0].impact.tags.iter().any(|t| t == "desktop"));
}

#[test]
fn parses_binary_and_text_numstat() {
    let files = parse_numstat("12\t3\tsrc/app.rs\n-\t-\timage.png\n");
    assert_eq!(files.len(), 2);
    assert_eq!(files[0].additions, 12);
    assert_eq!(files[1].additions, 0);
}

#[test]
fn strip_prefix_is_safe_for_utf8_input() {
    assert_eq!(strip_prefix_ci("当前未暂存修改", "Impact:"), None);
    assert_eq!(strip_prefix_ci("影响: 会话恢复", "影响:"), Some(" 会话恢复"));
}

#[test]
fn direction_and_validation_are_evidence_based() {
    let hit = FeatureHit {
        id: "tasks".into(),
        name: "Tasks".into(),
        category: "Desktop".into(),
        severity: "high".into(),
        why: "触及 2 个相关文件".into(),
        user_impact: "resume works".into(),
    };
    let value = cell(&entry("Fix task resume", "Validate: cargo test"), &hit);
    assert_eq!(value.direction, "improve");
    assert_eq!(value.validation, "declared");
    assert_eq!(value.confidence, "medium");
}

#[test]
fn strip_prefix_ignores_ascii_case() {
    assert_eq!(strip_prefix_ci("IMPACT: x", "Impact:"), Some(" x"));
    assert_eq!(strip_prefix_ci("Imp", "Impact:"), None);
}

#[test]
fn numstat_keeps_tabs_in_paths_and_skips_short_lines() {
    let files = parse_numstat("1\t2\ta\tb\nbad line\n+3\tx\tc\n");
    assert_eq!(files.len(), 2);
    assert_eq!(files[0].path, "a\tb");
    assert_eq!(files[1].additions, 3);
    assert_eq!(files[1].deletions, 0);
}

#[test]
fn log_skips_short_records_and_sums_files() {
    let sample = "\x1eonly\x1ftwo\x1e s\x1fh\x1fsub\x1fbody\r\nmore\x1fme\x1fm@x\x1f2026\n1\t1\ta.rs\n\n2\t3\tb.rs\nskip\n";
    let entries = parse_git_log(sample, &CatalogSnapshot::empty()).unwrap();
    assert_eq!(entries.len(), 1);
    assert_eq!(entries[0].sha, "s");
    assert_eq!(entries[0].body, "body\nmore");
    assert_eq!(entries[0].date, "2026");
    assert_eq!(entries[0].files.len(), 2);
    assert_eq!(entries[0].additions, 3);
    assert_eq!(entries[0].deletions, 4);
}

#[test]
fn impact_of_other_files_and_notes() {
    let catalog = CatalogSnapshot::empty();
    let files = vec!["notes/todo.txt".to_string(), "src/auth.rs".to_string()];
    let imp = analyze(&catalog, "Change", "Improvement: faster\nRisk: login\nrisk: again", &files);
    assert_eq!(imp.areas.len(), 1);
    assert_eq!(imp.areas[0].id, "other");
    assert_eq!(imp.areas[0].summary, "触及 2 个文件");
    assert_eq!(imp.tags[0], "other");
    assert!(imp.improvements.contains(&"faster".to_string()));
    assert!(imp.risks.contains(&"login".to_string()));
    assert!(imp.risks.contains(&"可能影响认证或密钥路径，部署前请回归登录流程".to_string()));
    let mut sorted = imp.risks.clone();
    sorted.sort();
    sorted.dedup();
    assert_eq!(sorted, imp.risks);
}

#[test]
fn impact_of_workspace_files() {
    let catalog = CatalogSnapshot::empty();
    let files = vec!["Cargo.toml".to_string(), "Cargo.lock".to_string()];
    let imp = analyze(&catalog, "deps", "", &files);
    assert_eq!(imp.areas[0].id, "workspace");
    assert_eq!(imp.areas[0].summary, "调整依赖、工作区成员或开发脚本（2 个文件）");
    assert!(imp.risks.contains(&"依赖变更可能影响构建复现性，建议本地 cargo check".to_string()));
}

#[test]
fn rules_cover_paths_and_names() {
    let r = rule("usage-analytics", &["crates/x/"], &[]);
    assert!(rule_covers_path(&r, "crates/x/y.rs"));
    assert!(rule_covers_path(&r, "src/USAGE.rs"));
    assert!(!rule_covers_path(&r, "src/other.rs"));
}

#[test]
fn features_from_paths_keywords_and_auto_discovery() {
    let mut catalog = CatalogSnapshot::empty();
    catalog.rules.push(rule("chat", &["crates/codegen/bony-build/src/chat"], &["Chat", "talk", "msg", "reply"]));
    let files = vec![
        "crates/codegen/bony-build/src/chat.rs".to_string(),
        "crates/codegen/bony-build/src/new_mod.rs".to_string(),
        "crates/codegen/xai-foo/src/lib.rs".to_string(),
    ];
    let hits = match_features(&catalog, "chat: talk and reply", "msg", &files);
    assert_eq!(hits.len(), 3);
    assert_eq!(hits[0].id, "chat");
    assert_eq!(hits[0].why, "触及 1 个相关文件；提交说明命中关键词: Chat, talk, msg");
    assert_eq!(hits[1].id, "auto-bony-build-new_mod");
    assert_eq!(hits[1].name, "桌面·new_mod");
    assert_eq!(hits[2].id, "auto-xai-foo-lib");
    let dims = match_dimensions("chat", "", &files, &hits);
    assert_eq!(dims[0].id, "ux");
    assert_eq!(dims[0].label, "用户体验");
    let (f, d, checklist) = analyze_features_full(&catalog, "chat: talk and reply", "msg", &files);
    assert_eq!(f.len(), 3);
    assert_eq!(d.len(), dims.len());
    assert!(checklist.contains(&"冒烟：启动桌面 → 发送一条消息 → 确认流式回复".to_string()));
    let mut sorted = checklist.clone();
    sorted.sort();
    sorted.dedup();
    assert_eq!(sorted, checklist);
}

#[test]
fn auto_feature_needs_a_known_place() {
    assert!(auto_feature_for_path("other/x.rs").is_none());
    let h = auto_feature_for_path("scripts\\run.ps1").unwrap();
    assert_eq!(h.id, "auto-scripts-run");
    assert_eq!(h.why, "未覆盖路径：scripts/run.ps1");
    assert!(auto_feature_for_path("crates/codegen/bony-monitor/README").is_none());
}

#[test]
fn no_features_gives_low_capability_note() {
    let files = vec!["a.txt".to_string()];
    let dims = match_dimensions("x", "", &files, &[].to_vec());
    assert_eq!(dims.len(), 1);
    assert_eq!(dims[0].id, "capability");
    assert_eq!(dims[0].level, "低");
}

#[test]
fn overview_counts_feature_activity() {
    let mut catalog = CatalogSnapshot::empty();
    catalog.rules.push(rule("chat", &["chat/"], &[]));
    let mut a = entry("one", "");
    a.short_sha = "a1".into();
    a.additions = 5;
    a.impact.features = vec![FeatureHit {
        id: "chat".into(),
        name: "chat name".into(),
        category: "c".into(),
        severity: "low".into(),
        why: "w".into(),
        user_impact: "u".into(),
    }];
    let mut b = a.clone();
    b.short_sha = "b2".into();
    b.impact.features.push(FeatureHit {
        id: "auto-x".into(),
        name: "auto x".into(),
        category: "自动发现".into(),
        severity: "medium".into(),
        why: "w".into(),
        user_impact: "new".into(),
    });
    let ov = features_overview(&catalog, &[a, b]);
    assert_eq!(ov.catalog.len(), 2);
    assert_eq!(ov.catalog[1].id, "auto-x");
    assert_eq!(ov.catalog[1].description, "new");
    assert_eq!(ov.activity[0].feature.id, "chat");
    assert_eq!(ov.activity[0].commit_count, 2);
    assert_eq!(ov.activity[0].additions, 10);
    assert_eq!(ov.activity[0].last_sha, "a1");
    assert_eq!(ov.activity[0].heat, "warm");
    assert_eq!(ov.activity[1].commit_count, 1);
    assert_eq!(ov.dimensions.len(), 8);
}

#[test]
fn matrix_of_changes() {
    let catalog = CatalogSnapshot::empty();
    let mut a = entry("Refactor things", "");
    a.short_sha = "staged".into();
    a.impact.features = vec![FeatureHit {
        id: "z".into(),
        name: "Z".into(),
        category: "b".into(),
        severity: "critical".into(),
        why: "w".into(),
        user_impact: "u".into(),
    }];
    let mut b = entry("Something", "");
    b.impact.features = vec![FeatureHit {
        id: "a".into(),
        name: "A".into(),
        category: "a".into(),
        severity: "medium".into(),
        why: "w".into(),
        user_impact: "u".into(),
    }];
    let m = build(vec![a, b], &catalog);
    assert_eq!(m.changes.len(), 2);
    assert_eq!(m.changes[0].label, "已暂存");
    assert_eq!(m.changes[0].source, "staged");
    assert_eq!(m.changes[1].source, "commit");
    assert_eq!(m.cells.len(), 2);
    assert_eq!(m.cells[0].direction, "neutral");
    assert_eq!(m.cells[0].magnitude, "high");
    assert_eq!(m.cells[1].direction, "unknown");
    assert_eq!(m.unverified_high, 1);
    assert_eq!(m.unknown_direction, 1);
    assert_eq!(m.capabilities.len(), 2);
    assert_eq!(m.capabilities[0].id, "a");
}

#[test]
fn working_layers_and_change_lookup() {
    let catalog = CatalogSnapshot::empty();
    let list = working_changes("1\t1\ta.rs\n", "", b"new.txt\0a.rs\0", &catalog);
    assert_eq!(list.len(), 2);
    assert_eq!(list[0].short_sha, "staged");
    assert_eq!(list[0].subject, "当前已暂存修改");
    assert_eq!(list[1].short_sha, "unstaged");
    assert_eq!(list[1].files.len(), 2);
    assert!(working_changes("", "", b"", &catalog).is_empty());
    let found = change_detail(vec![entry("x", "")], "aaa").unwrap();
    assert_eq!(found.short_sha, "aaaaaaa");
    assert_eq!(change_detail(vec![entry("x", "")], "bbb").unwrap_err(), "commit not found: bbb");
}

#[test]
fn catalog_cache_reloads_on_new_stamps() {
    let mut cache = CatalogCache::new("repo".into(), "dir".into(), "dir/features.toml".into());
    assert!(cache.needs_refresh(None, None));
    let mut snap = CatalogSnapshot::empty();
    snap.rules.push(rule("r", &[], &[]));
    snap.discovered.push(DiscoveredFile {
        path: "p".into(),
        crate_name: "bony-build".into(),
        stem: "s".into(),
    });
    cache.ensure_fresh(Some(1), Some(2), Ok(snap));
    assert_eq!(cache.snapshot().rules.len(), 1);
    assert!(!cache.needs_refresh(Some(1), Some(2)));
    assert!(cache.needs_refresh(Some(3), Some(2)));
    cache.ensure_fresh(Some(3), Some(2), Err("broken".into()));
    assert_eq!(cache.snapshot().rules.len(), 1);
    assert!(cache.needs_refresh(Some(3), Some(2)));
}

#[test]
fn repo_root_is_the_first_folder_with_git() {
    let probes = vec![
        RepoProbe { path: "/r/a/b".into(), has_git: false },
        RepoProbe { path: "/r/a".into(), has_git: true },
        RepoProbe { path: "/r".into(), has_git: true },
    ];
    assert_eq!(find_repo_root("a/b", &probes), Ok("/r/a".to_string()));
    let none = vec![RepoProbe { path: "/x".into(), has_git: false }];
    assert_eq!(
        find_repo_root("x", &none),
        Err("not inside a git repository (started at x)".to_string())
    );
}

#[test]
fn workflow_and_architecture_pages() {
    let w = workflow::overview();
    assert_eq!(w.question, "项目是怎么工作的？");
    assert_eq!(w.pipeline[0], "输入任务");
    let snapshot = bony::monitor::catalog::load_snapshot(
        vec![],
        vec![
            DiscoveredFile {
                path: "crates/codegen/bony-build/src/app.rs".into(),
                crate_name: "bony-build".into(),
                stem: "app".into(),
            },
            DiscoveredFile {
                path: "crates/codegen/bony-monitor/src/git.rs".into(),
                crate_name: "bony-monitor".into(),
                stem: "git".into(),
            },
        ],
        0,
    );
    let a = architecture::overview(&snapshot);
    assert_eq!(a.title, "Bony Build 架构");
    assert_eq!(a.layers[0].id, "host");
    assert!(a.layers[0].crates.contains(&"· app".to_string()));
    assert!(!a.layers[0].crates.contains(&"· git".to_string()));
    assert!(a.layers[0].summary.ends_with(&format!(
        "当前扫描到 {} 个桌面模块",
        snapshot.desktop_module_count
    )));
}

fn hit(id: &str) -> FeatureHit {
    FeatureHit {
        id: id.into(),
        name: String::new(),
        category: String::new(),
        severity: String::new(),
        why: String::new(),
        user_impact: String::new(),
    }
}

#[test]
fn keys_are_counted_in_key_order() {
    let keys: Vec<String> = ["b", "a", "b", "c", "a", "b"].iter().map(|s| s.to_string()).collect();
    assert_eq!(
        count_keys(&keys),
        vec![("a".to_string(), 2), ("b".to_string(), 3), ("c".to_string(), 1)]
    );
    assert!(count_keys(&vec![]).is_empty());
}

#[test]
fn overview_totals_and_counts() {
    let mut a = entry("one", "");
    a.additions = 5;
    a.deletions = 2;
    a.impact.tags = vec!["desktop".into(), "docs".into()];
    a.impact.features = vec![hit("chat"), hit("models")];
    let mut b = entry("two", "");
    b.additions = 1;
    b.deletions = 7;
    b.impact.tags = vec!["desktop".into()];
    b.impact.features = vec![hit("chat")];
    let o = overview_counts(&[a.clone(), b.clone()]);
    assert_eq!(o.commit_count, 2);
    assert_eq!(o.additions, 6);
    assert_eq!(o.deletions, 9);
    assert_eq!(o.area_counts, vec![("desktop".to_string(), 2), ("docs".to_string(), 1)]);
    assert_eq!(o.feature_counts, vec![("chat".to_string(), 2), ("models".to_string(), 1)]);
    assert_eq!(o.features_touched, 2);
    let only_docs = keep_tagged(vec![a.clone(), b.clone()], Some("docs"));
    assert_eq!(only_docs.len(), 1);
    assert_eq!(only_docs[0].subject, "one");
    assert_eq!(keep_tagged(vec![a, b], None).len(), 2);
}

#[test]
fn change_list_limit_is_clamped() {
    assert_eq!(changes_limit(None, 80), 80);
    assert_eq!(changes_limit(Some(0), 80), 1);
    assert_eq!(changes_limit(Some(1000), 80), 300);
    assert_eq!(changes_limit(Some(25), 80), 25);
}

#[test]
fn other_area_only_when_no_rule_matches() {
    let catalog = CatalogSnapshot::empty();
    let mixed = vec!["notes/todo.txt".to_string(), "crates/codegen/bony-monitor/src/x.rs".to_string()];
    let imp = analyze(&catalog, "Change", "", &mixed);
    assert_eq!(imp.areas.len(), 1);
    assert_eq!(imp.areas[0].id, "monitor");
    assert!(imp.areas.iter().all(|a| a.id != "other"));
    let none: Vec<String> = Vec::new();
    let empty = analyze(&catalog, "Change", "", &none);
    assert!(empty.areas.is_empty());
}
