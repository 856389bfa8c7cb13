//! The illustrated workflow page: a question, its answer, and a storyboard
//! of scenes with their steps.

use vstd::prelude::*;
use crate::text::sviews;

verus! {

/// One step of a scene.
#[derive(Debug, Clone)]
pub struct WorkflowStep {
    pub n: u32,
    pub title: String,
    pub actor: String,
    pub action: String,
    pub artifact: String,
    pub crates: Vec<String>,
    /// Short label for the visual pipeline chip.
    pub chip: String,
}

pub struct StepView {
    pub n: u32,
    pub title: Seq<char>,
    pub actor: Seq<char>,
    pub action: Seq<char>,
    pub artifact: Seq<char>,
    pub crates: Seq<Seq<char>>,
    pub chip: Seq<char>,
}

impl View for WorkflowStep {
    type V = StepView;

    open spec fn view(&self) -> StepView {
        StepView {
            n: self.n,
            title: self.title@,
            actor: self.actor@,
            action: self.action@,
            artifact: self.artifact@,
            crates: sviews(self.crates@),
            chip: self.chip@,
        }
    }
}

pub open spec fn step_views(v: Seq<WorkflowStep>) -> Seq<StepView> {
    v.map_values(|s: WorkflowStep| s@)
}

/// One scene: its illustration (served under `/repo-docs`) and its steps.
#[derive(Debug, Clone)]
pub struct WorkflowScene {
    pub id: String,
    pub title: String,
    pub summary: String,
    pub image: Option<String>,
    pub image_caption: Option<String>,
    /// `left` or `right`: where the image stands beside the text.
    pub image_side: String,
    pub steps: Vec<WorkflowStep>,
}

pub struct SceneView {
    pub id: Seq<char>,
    pub title: Seq<char>,
    pub summary: Seq<char>,
    pub image: Option<Seq<char>>,
    pub image_caption: Option<Seq<char>>,
    pub image_side: Seq<char>,
    pub steps: Seq<StepView>,
}

pub open spec fn opt_str(o: Option<String>) -> Option<Seq<char>> {
    match o {
        Some(s) => Some(s@),
        None => None,
    }
}

impl View for WorkflowScene {
    type V = SceneView;

    open spec fn view(&self) -> SceneView {
        SceneView {
            id: self.id@,
            title: self.title@,
            summary: self.summary@,
            image: opt_str(self.image),
            image_caption: opt_str(self.image_caption),
            image_side: self.image_side@,
            steps: step_views(self.steps@),
        }
    }
}

pub open spec fn scene_views(v: Seq<WorkflowScene>) -> Seq<SceneView> {
    v.map_values(|s: WorkflowScene| s@)
}

/// One picture of the gallery.
#[derive(Debug, Clone)]
pub struct WorkflowGalleryItem {
    pub title: String,
    pub path: String,
    pub caption: String,
}

pub struct GalleryView {
    pub title: Seq<char>,
    pub path: Seq<char>,
    pub caption: Seq<char>,
}

impl View for WorkflowGalleryItem {
    type V = GalleryView;

    open spec fn view(&self) -> GalleryView {
        GalleryView { title: self.title@, path: self.path@, caption: self.caption@ }
    }
}

pub open spec fn gallery_views(v: Seq<WorkflowGalleryItem>) -> Seq<GalleryView> {
    v.map_values(|g: WorkflowGalleryItem| g@)
}

/// The workflow page.
#[derive(Debug, Clone)]
pub struct WorkflowOverview {
    pub question: String,
    pub answer: String,
    pub blurb: String,
    /// Top visual pipeline.
    pub pipeline: Vec<String>,
    pub scenes: Vec<WorkflowScene>,
    pub gallery: Vec<WorkflowGalleryItem>,
}

pub struct OverviewPageView {
    pub question: Seq<char>,
    pub answer: Seq<char>,
    pub blurb: Seq<char>,
    pub pipeline: Seq<Seq<char>>,
    pub scenes: Seq<SceneView>,
    pub gallery: Seq<GalleryView>,
}

impl View for WorkflowOverview {
    type V = OverviewPageView;

    open spec fn view(&self) -> OverviewPageView {
        OverviewPageView {
            question: self.question@,
            answer: self.answer@,
            blurb: self.blurb@,
            pipeline: sviews(self.pipeline@),
            scenes: scene_views(self.scenes@),
            gallery: gallery_views(self.gallery@),
        }
    }
}

pub open spec fn wstep(
    n: u32,
    chip: Seq<char>,
    title: Seq<char>,
    actor: Seq<char>,
    action: Seq<char>,
    artifact: Seq<char>,
    crates: Seq<Seq<char>>,
) -> StepView {
    StepView { n, title, actor, action, artifact, crates, chip }
}

fn step(
    n: u32,
    chip: &str,
    title: &str,
    actor: &str,
    action: &str,
    artifact: &str,
    crates: &[&str],
) -> (r: WorkflowStep)
    ensures
        r@ == wstep(n, chip@, title@, actor@, action@, artifact@, crates@.map_values(|s: &str| s@)),
{
    let mut cs: Vec<String> = Vec::new();
    let mut i: usize = 0;
    while i < crates.len()
        invariant
            i <= crates.len(),
            sviews(cs@) == crates@.map_values(|s: &str| s@).take(i as int),
        decreases crates.len() - i,
    {
        crate::text::push_owned(&mut cs, crates[i]);
        assert(sviews(cs@) =~= crates@.map_values(|s: &str| s@).take(i + 1));
        i = i + 1;
    }
    assert(crates@.map_values(|s: &str| s@).take(crates.len() as int) =~= crates@.map_values(
        |s: &str| s@,
    ));
    WorkflowStep {
        n,
        chip: chip.to_owned(),
        title: title.to_owned(),
        actor: actor.to_owned(),
        action: action.to_owned(),
        artifact: artifact.to_owned(),
        crates: cs,
    }
}

/// The workflow page as the dashboard shows it.
pub open spec fn workflow_page() -> OverviewPageView {
    OverviewPageView {
        question: "项目是怎么工作的？"@,
        answer: "用户在桌面壳里下一句任务，经 ACP 交给 grok agent；SessionActor 循环「采样 → 工具 → 再采样」，结束后用量落盘，监控看板解释改动影响。"@,
        blurb: "图文分镜：左/右配图 + 逐步调用链，可对照真实界面与架构图阅读。"@,
        pipeline: seq![
            "输入任务"@,
            "ACP 桥接"@,
            "Session"@,
            "采样模型"@,
            "执行工具"@,
            "落盘记账"@,
        ],
        scenes: seq![
            SceneView {
                id: "ask"@,
                title: "分镜一 · 一次提问从进到出"@,
                summary: "以 Bony Build 桌面端 + config.toml 默认模型（如 qwen-max）为例。"@,
                image: Some("/repo-docs/bony-build-desktop.png"@),
                image_caption: Some("桌面端：对话、侧栏任务、模型选择与用量入口"@),
                image_side: "right"@,
                steps: seq![
                    wstep(
                        1,
                        "输入任务"@,
                        "用户输入任务"@,
                        "Bony Build UI"@,
                        "在悬浮输入框按 Enter；可用 config.toml 的 env_key（如 DASHSCOPE_API_KEY）完成 BYOK。"@,
                        "UiCommand::Prompt(text)"@,
                        seq!["bony-build"@],
                    ),
                    wstep(
                        2,
                        "ACP"@,
                        "桌面桥接发出 ACP prompt"@,
                        "agent_bridge"@,
                        "子进程已跑 grok agent stdio；bridge 把文本打成 ACP PromptRequest。"@,
                        "ACP JSON-RPC → grok stdin"@,
                        seq!["bony-build"@, "xai-acp-lib"@],
                    ),
                    wstep(
                        3,
                        "Session"@,
                        "Session 接住 turn"@,
                        "SessionActor / MvpAgent"@,
                        "创建或复用 session，装好系统提示、工具集与当前模型；开始 agentic loop。"@,
                        "session_id + ChatState"@,
                        seq!["xai-grok-shell"@, "xai-chat-state"@],
                    ),
                    wstep(
                        4,
                        "采样"@,
                        "采样模型"@,
                        "Sampler"@,
                        "按模型 backend 发 HTTP/SSE；流式文本块经 ACP 推回桌面。"@,
                        "AssistantDelta + tool_calls"@,
                        seq!["xai-grok-sampler"@, "xai-grok-sampling-types"@],
                    ),
                    wstep(
                        5,
                        "工具"@,
                        "执行工具（如有）"@,
                        "ToolBridge"@,
                        "改文件/跑命令在 Workspace 权限与沙箱内落地；结果回灌后再采样。"@,
                        "tool result → next messages"@,
                        seq!["xai-grok-tools"@, "xai-tool-runtime"@, "xai-grok-workspace"@],
                    ),
                    wstep(
                        6,
                        "落盘"@,
                        "轮次结束并记账"@,
                        "desktop + storage"@,
                        "stop_reason / token usage 回 UI；追加 turns.jsonl，用量面板画趋势。"@,
                        "~/.bony-build/turns.jsonl"@,
                        seq!["bony-build"@],
                    ),
                ],
            },
            SceneView {
                id: "turn"@,
                title: "分镜二 · Agent turn 怎么转"@,
                summary: "采样与工具在 Session 内交替，直到模型不再发起 tool call。"@,
                image: Some("/repo-docs/architecture-turn-flow.png"@),
                image_caption: Some("Turn 流程：采样 → 工具 → 再采样"@),
                image_side: "left"@,
                steps: seq![
                    wstep(
                        1,
                        "装配"@,
                        "Agent 已装配好"@,
                        "xai-grok-agent"@,
                        "AgentBuilder 造出带提示词与工具的 Agent；不负责跑 loop。"@,
                        "Agent + ToolBridge"@,
                        seq!["xai-grok-agent"@],
                    ),
                    wstep(
                        2,
                        "循环"@,
                        "SessionActor 跑 loop"@,
                        "xai-grok-shell"@,
                        "真正的 agentic turn：采样 → 工具 → 再采样，旁路含 memory / compaction。"@,
                        "turn events via ACP"@,
                        seq!["xai-grok-shell"@],
                    ),
                ],
            },
            SceneView {
                id: "layers"@,
                title: "分镜三 · 分层放在哪"@,
                summary: "从上到下：Host 客户端 → Session → Agent / 采样 / 工具 → Workspace。"@,
                image: Some("/repo-docs/architecture-layers.png"@),
                image_caption: Some("分层架构总览（与 ARCHITECTURE.md 同源）"@),
                image_side: "right"@,
                steps: seq![
                    wstep(
                        1,
                        "Host"@,
                        "Host / 客户端"@,
                        "bony-build / TUI"@,
                        "只负责界面与 ACP；不内嵌完整 agent 运行时。"@,
                        "desktop or pager UI"@,
                        seq!["bony-build"@, "xai-grok-pager"@],
                    ),
                    wstep(
                        2,
                        "Runtime"@,
                        "Session + 三件套"@,
                        "shell / sampler / tools"@,
                        "Session 托管 loop；采样打模型；工具改工作区。"@,
                        "stdio agent process"@,
                        seq!["xai-grok-shell"@, "xai-grok-sampler"@, "xai-grok-tools"@],
                    ),
                    wstep(
                        3,
                        "WS"@,
                        "Workspace 落地"@,
                        "workspace / sandbox"@,
                        "权限、沙箱、文件系统、checkpoint 约束工具副作用。"@,
                        "FS + VCS + permissions"@,
                        seq!["xai-grok-workspace"@, "xai-grok-sandbox"@],
                    ),
                ],
            },
            SceneView {
                id: "switch"@,
                title: "分镜四 · 换项目 / 换模型"@,
                summary: "cwd 与默认模型变更会重建 bridge，而不是热改全局单例。"@,
                image: Some("/repo-docs/bony-build-desktop.png"@),
                image_caption: Some("侧栏项目与底部模型选择器"@),
                image_side: "left"@,
                steps: seq![
                    wstep(
                        1,
                        "换目录"@,
                        "切换工作目录"@,
                        "Bony Build"@,
                        "Shutdown 旧 agent → 新 cwd 再 spawn grok agent stdio → session/new。"@,
                        "new session_id"@,
                        seq!["bony-build"@],
                    ),
                    wstep(
                        2,
                        "换模型"@,
                        "切换默认模型"@,
                        "model picker"@,
                        "ACP session/set_model，并写回 ~/.grok/config.toml 的 [models] default。"@,
                        "config.toml default"@,
                        seq!["bony-build"@, "xai-grok-shell"@],
                    ),
                ],
            },
            SceneView {
                id: "monitor"@,
                title: "分镜五 · 监控看板接到哪里"@,
                summary: "bony-monitor 不跑 agent；读 git + features.toml，解释改动影响。"@,
                image: None,
                image_caption: None,
                image_side: "right"@,
                steps: seq![
                    wstep(
                        1,
                        "扫描"@,
                        "读 git + 功能目录"@,
                        "bony-monitor"@,
                        "扫描近期 commit，用 features.toml 匹配路径与关键词。"@,
                        "/api/changes · /api/features"@,
                        seq!["bony-monitor"@],
                    ),
                    wstep(
                        2,
                        "影响"@,
                        "生成影响摘要"@,
                        "impact engine"@,
                        "标出产品功能、风险维度与建议回归清单。"@,
                        "timeline + drawer"@,
                        seq!["bony-monitor"@],
                    ),
                ],
            },
        ],
        gallery: seq![
            GalleryView {
                title: "桌面端界面"@,
                path: "/repo-docs/bony-build-desktop.png"@,
                caption: "用户从这里发起提问与切换模型"@,
            },
            GalleryView {
                title: "Turn 流程"@,
                path: "/repo-docs/architecture-turn-flow.png"@,
                caption: "一次 turn 内采样与工具如何交替"@,
            },
            GalleryView {
                title: "分层架构"@,
                path: "/repo-docs/architecture-layers.png"@,
                caption: "Host → Session → Agent/采样/工具 → Workspace"@,
            },
        ],
    }

}

/// The workflow page (`workflow_page`).
pub fn overview() -> (r: WorkflowOverview)
    ensures
        r@ == workflow_page(),
{
    let r = WorkflowOverview {
        question: "项目是怎么工作的？".to_owned(),
        answer: "用户在桌面壳里下一句任务，经 ACP 交给 grok agent；SessionActor 循环「采样 → 工具 → 再采样」，结束后用量落盘，监控看板解释改动影响。".to_owned(),
        blurb: "图文分镜：左/右配图 + 逐步调用链，可对照真实界面与架构图阅读。".to_owned(),
        pipeline: vec![
            "输入任务".to_owned(),
            "ACP 桥接".to_owned(),
            "Session".to_owned(),
            "采样模型".to_owned(),
            "执行工具".to_owned(),
            "落盘记账".to_owned(),
        ],
        scenes: vec![
            WorkflowScene {
                id: "ask".to_owned(),
                title: "分镜一 · 一次提问从进到出".to_owned(),
                summary: "以 Bony Build 桌面端 + config.toml 默认模型（如 qwen-max）为例。".to_owned(),
                image: Some("/repo-docs/bony-build-desktop.png".to_owned()),
                image_caption: Some("桌面端：对话、侧栏任务、模型选择与用量入口".to_owned()),
                image_side: "right".to_owned(),
                steps: vec![
                    step(
                        1,
                        "输入任务",
                        "用户输入任务",
                        "Bony Build UI",
                        "在悬浮输入框按 Enter；可用 config.toml 的 env_key（如 DASHSCOPE_API_KEY）完成 BYOK。",
                        "UiCommand::Prompt(text)",
                        &["bony-build"],
                    ),
                    step(
                        2,
                        "ACP",
                        "桌面桥接发出 ACP prompt",
                        "agent_bridge",
                        "子进程已跑 grok agent stdio；bridge 把文本打成 ACP PromptRequest。",
                        "ACP JSON-RPC → grok stdin",
                        &["bony-build", "xai-acp-lib"],
                    ),
                    step(
                        3,
                        "Session",
                        "Session 接住 turn",
                        "SessionActor / MvpAgent",
                        "创建或复用 session，装好系统提示、工具集与当前模型；开始 agentic loop。",
                        "session_id + ChatState",
                        &["xai-grok-shell", "xai-chat-state"],
                    ),
                    step(
                        4,
                        "采样",
                        "采样模型",
                        "Sampler",
                        "按模型 backend 发 HTTP/SSE；流式文本块经 ACP 推回桌面。",
                        "AssistantDelta + tool_calls",
                        &["xai-grok-sampler", "xai-grok-sampling-types"],
                    ),
                    step(
                        5,
                        "工具",
                        "执行工具（如有）",
                        "ToolBridge",
                        "改文件/跑命令在 Workspace 权限与沙箱内落地；结果回灌后再采样。",
                        "tool result → next messages",
                        &["xai-grok-tools", "xai-tool-runtime", "xai-grok-workspace"],
                    ),
                    step(
                        6,
                        "落盘",
                        "轮次结束并记账",
                        "desktop + storage",
                        "stop_reason / token usage 回 UI；追加 turns.jsonl，用量面板画趋势。",
                        "~/.bony-build/turns.jsonl",
                        &["bony-build"],
                    ),
                ],
            },
            WorkflowScene {
                id: "turn".to_owned(),
                title: "分镜二 · Agent turn 怎么转".to_owned(),
                summary: "采样与工具在 Session 内交替，直到模型不再发起 tool call。".to_owned(),
                image: Some("/repo-docs/architecture-turn-flow.png".to_owned()),
                image_caption: Some("Turn 流程：采样 → 工具 → 再采样".to_owned()),
                image_side: "left".to_owned(),
                steps: vec![
                    step(
                        1,
                        "装配",
                        "Agent 已装配好",
                        "xai-grok-agent",
                        "AgentBuilder 造出带提示词与工具的 Agent；不负责跑 loop。",
                        "Agent + ToolBridge",
                        &["xai-grok-agent"],
                    ),
                    step(
                        2,
                        "循环",
                        "SessionActor 跑 loop",
                        "xai-grok-shell",
                        "真正的 agentic turn：采样 → 工具 → 再采样，旁路含 memory / compaction。",
                        "turn events via ACP",
                        &["xai-grok-shell"],
                    ),
                ],
            },
            WorkflowScene {
                id: "layers".to_owned(),
                title: "分镜三 · 分层放在哪".to_owned(),
                summary: "从上到下：Host 客户端 → Session → Agent / 采样 / 工具 → Workspace。".to_owned(),
                image: Some("/repo-docs/architecture-layers.png".to_owned()),
                image_caption: Some("分层架构总览（与 ARCHITECTURE.md 同源）".to_owned()),
                image_side: "right".to_owned(),
                steps: vec![
                    step(
                        1,
                        "Host",
                        "Host / 客户端",
                        "bony-build / TUI",
                        "只负责界面与 ACP；不内嵌完整 agent 运行时。",
                        "desktop or pager UI",
                        &["bony-build", "xai-grok-pager"],
                    ),
                    step(
                        2,
                        "Runtime",
                        "Session + 三件套",
                        "shell / sampler / tools",
                        "Session 托管 loop；采样打模型；工具改工作区。",
                        "stdio agent process",
                        &["xai-grok-shell", "xai-grok-sampler", "xai-grok-tools"],
                    ),
                    step(
                        3,
                        "WS",
                        "Workspace 落地",
                        "workspace / sandbox",
                        "权限、沙箱、文件系统、checkpoint 约束工具副作用。",
                        "FS + VCS + permissions",
                        &["xai-grok-workspace", "xai-grok-sandbox"],
                    ),
                ],
            },
            WorkflowScene {
                id: "switch".to_owned(),
                title: "分镜四 · 换项目 / 换模型".to_owned(),
                summary: "cwd 与默认模型变更会重建 bridge，而不是热改全局单例。".to_owned(),
                image: Some("/repo-docs/bony-build-desktop.png".to_owned()),
                image_caption: Some("侧栏项目与底部模型选择器".to_owned()),
                image_side: "left".to_owned(),
                steps: vec![
                    step(
                        1,
                        "换目录",
                        "切换工作目录",
                        "Bony Build",
                        "Shutdown 旧 agent → 新 cwd 再 spawn grok agent stdio → session/new。",
                        "new session_id",
                        &["bony-build"],
                    ),
                    step(
                        2,
                        "换模型",
                        "切换默认模型",
                        "model picker",
                        "ACP session/set_model，并写回 ~/.grok/config.toml 的 [models] default。",
                        "config.toml default",
                        &["bony-build", "xai-grok-shell"],
                    ),
                ],
            },
            WorkflowScene {
                id: "monitor".to_owned(),
                title: "分镜五 · 监控看板接到哪里".to_owned(),
                summary: "bony-monitor 不跑 agent；读 git + features.toml，解释改动影响。".to_owned(),
                image: None,
                image_caption: None,
                image_side: "right".to_owned(),
                steps: vec![
                    step(
                        1,
                        "扫描",
                        "读 git + 功能目录",
                        "bony-monitor",
                        "扫描近期 commit，用 features.toml 匹配路径与关键词。",
                        "/api/changes · /api/features",
                        &["bony-monitor"],
                    ),
                    step(
                        2,
                        "影响",
                        "生成影响摘要",
                        "impact engine",
                        "标出产品功能、风险维度与建议回归清单。",
                        "timeline + drawer",
                        &["bony-monitor"],
                    ),
                ],
            },
        ],
        gallery: vec![
            WorkflowGalleryItem {
                title: "桌面端界面".to_owned(),
                path: "/repo-docs/bony-build-desktop.png".to_owned(),
                caption: "用户从这里发起提问与切换模型".to_owned(),
            },
            WorkflowGalleryItem {
                title: "Turn 流程".to_owned(),
                path: "/repo-docs/architecture-turn-flow.png".to_owned(),
                caption: "一次 turn 内采样与工具如何交替".to_owned(),
            },
            WorkflowGalleryItem {
                title: "分层架构".to_owned(),
                path: "/repo-docs/architecture-layers.png".to_owned(),
                caption: "Host → Session → Agent/采样/工具 → Workspace".to_owned(),
            },
        ],
    };
    proof {
        let p = workflow_page();
        assert(sviews(r.pipeline@) =~= p.pipeline);
        assert(r.scenes@[0].steps@[0]@.crates =~= p.scenes[0].steps[0].crates);
        assert(r.scenes@[0].steps@[1]@.crates =~= p.scenes[0].steps[1].crates);
        assert(r.scenes@[0].steps@[2]@.crates =~= p.scenes[0].steps[2].crates);
        assert(r.scenes@[0].steps@[3]@.crates =~= p.scenes[0].steps[3].crates);
        assert(r.scenes@[0].steps@[4]@.crates =~= p.scenes[0].steps[4].crates);
        assert(r.scenes@[0].steps@[5]@.crates =~= p.scenes[0].steps[5].crates);
        assert(r.scenes@[1].steps@[0]@.crates =~= p.scenes[1].steps[0].crates);
        assert(r.scenes@[1].steps@[1]@.crates =~= p.scenes[1].steps[1].crates);
        assert(r.scenes@[2].steps@[0]@.crates =~= p.scenes[2].steps[0].crates);
        assert(r.scenes@[2].steps@[1]@.crates =~= p.scenes[2].steps[1].crates);
        assert(r.scenes@[2].steps@[2]@.crates =~= p.scenes[2].steps[2].crates);
        assert(r.scenes@[3].steps@[0]@.crates =~= p.scenes[3].steps[0].crates);
        assert(r.scenes@[3].steps@[1]@.crates =~= p.scenes[3].steps[1].crates);
        assert(r.scenes@[4].steps@[0]@.crates =~= p.scenes[4].steps[0].crates);
        assert(r.scenes@[4].steps@[1]@.crates =~= p.scenes[4].steps[1].crates);
        assert(step_views(r.scenes@[0].steps@) =~= p.scenes[0].steps);
        assert(step_views(r.scenes@[1].steps@) =~= p.scenes[1].steps);
        assert(step_views(r.scenes@[2].steps@) =~= p.scenes[2].steps);
        assert(step_views(r.scenes@[3].steps@) =~= p.scenes[3].steps);
        assert(step_views(r.scenes@[4].steps@) =~= p.scenes[4].steps);
        assert(scene_views(r.scenes@) =~= p.scenes);
        assert(gallery_views(r.gallery@) =~= p.gallery);
    }
    r
}

} // verus!
