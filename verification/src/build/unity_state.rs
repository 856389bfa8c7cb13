//! The Unity panel as a state machine: what the panel shows, and how each
//! user action, CLI reply and clock tick changes it.
//!
//! The caller owns everything outside: it runs the CLI, keeps the reply
//! channel, reads the clock and looks at the file system. It hands those
//! observations in as plain values (`ProjectFacts`, `CommandDone`, times in
//! milliseconds) and performs the `UnityEffect` that a method returns.

use vstd::prelude::*;
use crate::build::unity::{
    editor_link_of, editors_summary, eval_summary, infer_editor_link, infer_pipeline_status,
    merge_streams, merged, one_line, pipeline_server_reachable, pipeline_status_of,
    pipeline_summary, server_reachable, summarize_editors_json, summarize_eval_output,
    summarize_pipeline_list, truncate_one_line,
    cli_call, cli_path_for, cli_spelling, command_line, format_command, on_windows, CliStatus, EditorLinkStatus, LoopPhase, OpRecord,
    PipelineStatus, SetupStep, StepState, UnityAction, EVAL_PLAYING,
};
use crate::text::{
    trim, trimmed,
    chars_of, contains_str, debug_quoted, dec, decimal, has_sub, lowercase, push_chars, push_str,
    str_debug, string_of, sviews, unicode_lowercase, has_char,
};

verus! {

/// What the panel knows of the scene, as the guided loop changes it.
pub struct SceneSnapshot {
    /// The player's height, in tenths of a unit.
    pub player_y_tenths: i32,
    pub ground_collider_enabled: bool,
    pub is_playing: bool,
    pub last_eval_result: String,
    pub note: String,
}

pub struct SceneView {
    pub player_y_tenths: int,
    pub ground_collider_enabled: bool,
    pub is_playing: bool,
    pub last_eval_result: Seq<char>,
    pub note: Seq<char>,
}

impl View for SceneSnapshot {
    type V = SceneView;

    open spec fn view(&self) -> SceneView {
        SceneView {
            player_y_tenths: self.player_y_tenths as int,
            ground_collider_enabled: self.ground_collider_enabled,
            is_playing: self.is_playing,
            last_eval_result: self.last_eval_result@,
            note: self.note@,
        }
    }
}

/// The scene before anything was observed.
pub open spec fn initial_scene() -> SceneView {
    SceneView {
        player_y_tenths: 10,
        ground_collider_enabled: true,
        is_playing: false,
        last_eval_result: "—"@,
        note: "尚未观察场景"@,
    }
}

impl Default for SceneSnapshot {
    fn default() -> (r: Self)
        ensures
            r@ == initial_scene(),
    {
        SceneSnapshot {
            player_y_tenths: 10,
            ground_collider_enabled: true,
            is_playing: false,
            last_eval_result: "—".to_owned(),
            note: "尚未观察场景".to_owned(),
        }
    }
}

/// A height in tenths written with one decimal place, as `{:.1}` writes it.
pub open spec fn tenths_text(t: int) -> Seq<char> {
    let a: nat = if t < 0 {
        (-t) as nat
    } else {
        t as nat
    };
    (if t < 0 {
        "-"@
    } else {
        Seq::empty()
    }) + dec(a / 10) + "."@ + dec(a % 10)
}

pub open spec fn on_off(b: bool) -> Seq<char> {
    if b {
        "ON"@
    } else {
        "OFF"@
    }
}

/// The one-line rendering of a scene.
pub open spec fn scene_line(s: SceneView) -> Seq<char> {
    "Player.y="@ + tenths_text(s.player_y_tenths) + " · GroundCollider="@ + on_off(
        s.ground_collider_enabled,
    ) + " · Play="@ + on_off(s.is_playing)
}

impl SceneSnapshot {
    pub fn status_line(&self) -> (r: String)
        ensures
            r@ == scene_line(self@),
    {
        let t = self.player_y_tenths;
        let a: u64 = if t < 0 {
            (-(t as i64)) as u64
        } else {
            t as u64
        };
        let mut out = chars_of("Player.y=");
        if t < 0 {
            push_str(&mut out, "-");
        }
        let whole = decimal(a / 10);
        push_chars(&mut out, &whole);
        push_str(&mut out, ".");
        let frac = decimal(a % 10);
        push_chars(&mut out, &frac);
        push_str(&mut out, " · GroundCollider=");
        push_str(
            &mut out,
            if self.ground_collider_enabled {
                "ON"
            } else {
                "OFF"
            },
        );
        push_str(&mut out, " · Play=");
        push_str(
            &mut out,
            if self.is_playing {
                "ON"
            } else {
                "OFF"
            },
        );
        string_of(&out)
    }
}

pub struct OpRecordView {
    pub id: u64,
    pub title: Seq<char>,
    pub command: Seq<char>,
    pub phase: LoopPhase,
    pub ok: bool,
    pub summary: Seq<char>,
    pub detail: Seq<char>,
    pub at_unix: u64,
    pub elapsed_ms: u64,
}

impl View for OpRecord {
    type V = OpRecordView;

    open spec fn view(&self) -> OpRecordView {
        OpRecordView {
            id: self.id,
            title: self.title@,
            command: self.command@,
            phase: self.phase,
            ok: self.ok,
            summary: self.summary@,
            detail: self.detail@,
            at_unix: self.at_unix,
            elapsed_ms: self.elapsed_ms,
        }
    }
}

pub open spec fn record_views(h: Seq<OpRecord>) -> Seq<OpRecordView> {
    h.map_values(|r: OpRecord| r@)
}

/// What the file system shows of the bound project right now.
#[derive(Clone, Copy)]
pub struct ProjectFacts {
    /// The path is a Unity project root (`is_unity_project_root`).
    pub unity_project: bool,
    /// The package list under `Packages` names `com.unity.pipeline`.
    pub pipeline_declared: bool,
    /// The package lock names it and the package cache holds it.
    pub pipeline_loaded: bool,
}

/// The state of the Unity panel.
pub struct UnityState {
    pub status: CliStatus,
    pub cli_path: Option<String>,
    pub version_line: String,
    pub last_error: Option<String>,
    pub project_path: String,
    pub editors_json: String,
    pub editors_summary: String,
    pub pipeline_status: PipelineStatus,
    pub pipeline_summary: String,
    pub pipeline_detail: String,
    pub editor_link: EditorLinkStatus,
    pub commands_summary: String,
    pub eval_input: String,
    pub busy: bool,
    pub loop_phase: LoopPhase,
    pub demo_mode: bool,
    pub scene: SceneSnapshot,
    pub guide_label: Option<String>,
    pub toast: Option<String>,
    /// Newest first, at most `HISTORY_LIMIT` entries.
    pub history: Vec<OpRecord>,
    pub next_id: u64,
    /// Active onboarding step highlighted in the wizard.
    pub setup_step: SetupStep,
    /// A step the user opened by hand.
    pub setup_focus: Option<SetupStep>,
    /// When set, the agent's folder does not replace the chosen project.
    pub project_locked: bool,
    /// Steps of the guided loop still to run.
    pub guide_queue: Vec<UnityAction>,
    /// When the next guided step is due, in milliseconds of the caller's
    /// monotonic clock.
    pub guide_next_at: Option<u64>,
    /// The program runs on Windows, where project paths are shown and given
    /// to the CLI without the extended-length prefix (`cli_spelling`).
    pub windows: bool,
}

pub struct UnityView {
    pub status: CliStatus,
    pub cli_path: Option<Seq<char>>,
    pub version_line: Seq<char>,
    pub last_error: Option<Seq<char>>,
    pub project_path: Seq<char>,
    pub editors_json: Seq<char>,
    pub editors_summary: Seq<char>,
    pub pipeline_status: PipelineStatus,
    pub pipeline_summary: Seq<char>,
    pub pipeline_detail: Seq<char>,
    pub editor_link: EditorLinkStatus,
    pub commands_summary: Seq<char>,
    pub eval_input: Seq<char>,
    pub busy: bool,
    pub loop_phase: LoopPhase,
    pub demo_mode: bool,
    pub scene: SceneView,
    pub guide_label: Option<Seq<char>>,
    pub toast: Option<Seq<char>>,
    pub history: Seq<OpRecordView>,
    pub next_id: u64,
    pub setup_step: SetupStep,
    pub setup_focus: Option<SetupStep>,
    pub project_locked: bool,
    pub guide_queue: Seq<UnityAction>,
    pub guide_next_at: Option<u64>,
    pub windows: bool,
}

pub open spec fn sv(o: Option<String>) -> Option<Seq<char>> {
    match o {
        Some(s) => Some(s@),
        None => None,
    }
}

impl View for UnityState {
    type V = UnityView;

    open spec fn view(&self) -> UnityView {
        UnityView {
            status: self.status,
            cli_path: sv(self.cli_path),
            version_line: self.version_line@,
            last_error: sv(self.last_error),
            project_path: self.project_path@,
            editors_json: self.editors_json@,
            editors_summary: self.editors_summary@,
            pipeline_status: self.pipeline_status,
            pipeline_summary: self.pipeline_summary@,
            pipeline_detail: self.pipeline_detail@,
            editor_link: self.editor_link,
            commands_summary: self.commands_summary@,
            eval_input: self.eval_input@,
            busy: self.busy,
            loop_phase: self.loop_phase,
            demo_mode: self.demo_mode,
            scene: self.scene@,
            guide_label: sv(self.guide_label),
            toast: sv(self.toast),
            history: record_views(self.history@),
            next_id: self.next_id,
            setup_step: self.setup_step,
            setup_focus: self.setup_focus,
            project_locked: self.project_locked,
            guide_queue: self.guide_queue@,
            guide_next_at: self.guide_next_at,
            windows: self.windows,
        }
    }
}

pub const HISTORY_LIMIT: usize = 40;

/// Milliseconds between two steps of the guided loop.
pub const GUIDE_STEP_GAP_MS: u64 = 650;

/// The onboarding step that the state calls for.
pub open spec fn setup_step_for(v: UnityView, project_ok: bool) -> SetupStep {
    if v.status != CliStatus::Ready {
        SetupStep::InstallCli
    } else if !project_ok {
        SetupStep::PickProject
    } else if v.pipeline_status != PipelineStatus::Installed && v.editor_link
        != EditorLinkStatus::Connected {
        SetupStep::InstallPipeline
    } else if v.editor_link != EditorLinkStatus::Connected {
        SetupStep::ProbeEditor
    } else {
        SetupStep::RunLoop
    }
}

pub open spec fn synced(v: UnityView, project_ok: bool) -> UnityView {
    UnityView { setup_step: setup_step_for(v, project_ok), ..v }
}

/// The project path a fresh panel binds: the saved one (or the Unity root
/// found above it), else the current folder.
pub open spec fn initial_project(
    saved: Option<Seq<char>>,
    saved_root: Option<Seq<char>>,
    cwd: Seq<char>,
) -> Seq<char> {
    match saved {
        Some(p) => match saved_root {
            Some(r) => r,
            None => p,
        },
        None => cwd,
    }
}

/// A fresh panel.
pub open spec fn initial_state(
    saved: Option<Seq<char>>,
    saved_root: Option<Seq<char>>,
    cwd: Seq<char>,
    windows: bool,
) -> UnityView {
    UnityView {
        status: CliStatus::Unknown,
        cli_path: None,
        version_line: Seq::empty(),
        last_error: None,
        project_path: initial_project(saved, saved_root, cwd),
        editors_json: Seq::empty(),
        editors_summary: "尚未拉取"@,
        pipeline_status: PipelineStatus::Unknown,
        pipeline_summary: "尚未检查"@,
        pipeline_detail: Seq::empty(),
        editor_link: EditorLinkStatus::Unknown,
        commands_summary: "尚未探测"@,
        eval_input: EVAL_PLAYING@,
        busy: false,
        loop_phase: LoopPhase::Observe,
        demo_mode: false,
        scene: initial_scene(),
        guide_label: None,
        toast: None,
        history: Seq::empty(),
        next_id: 1,
        setup_step: SetupStep::InstallCli,
        setup_focus: None,
        project_locked: saved is Some,
        guide_queue: Seq::empty(),
        guide_next_at: None,
        windows,
    }
}

/// The state after `ensure_detecting`, and whether detection starts.
pub open spec fn detecting(v: UnityView) -> (UnityView, bool) {
    if v.status != CliStatus::Unknown || v.busy {
        (v, false)
    } else {
        (UnityView { status: CliStatus::Checking, busy: true, ..v }, true)
    }
}

/// The state after the CLI search reported `path`, `version` and `error`.
pub open spec fn detected(
    v: UnityView,
    path: Option<Seq<char>>,
    version: Seq<char>,
    error: Option<Seq<char>>,
    project_ok: bool,
) -> UnityView {
    let (status, demo, toast) = if path is Some {
        (CliStatus::Ready, false, "已检测到 Unity CLI"@)
    } else if error is Some {
        (CliStatus::Error, true, "CLI 异常，已切换演示模式"@)
    } else {
        (CliStatus::Missing, true, "未安装 CLI，已切换演示模式"@)
    };
    synced(
        UnityView {
            busy: false,
            cli_path: path,
            version_line: version,
            last_error: error,
            status,
            demo_mode: demo,
            toast: Some(toast),
            ..v
        },
        project_ok,
    )
}

/// How a wizard step relates to the current one.
pub open spec fn step_state_of(current: SetupStep, step: SetupStep) -> StepState {
    if step.spec_index() < current.spec_index() {
        StepState::Done
    } else if step.spec_index() == current.spec_index() {
        StepState::Current
    } else {
        StepState::Locked
    }
}

impl UnityState {
    /// A fresh panel bound to the saved project (`saved`, with `saved_root`
    /// the Unity root found at or above it), or to `cwd` when none was saved.
    pub fn new(saved: Option<String>, saved_root: Option<String>, cwd: String) -> (r: Self)
        ensures
            r@ == initial_state(sv(saved), sv(saved_root), cwd@, r.windows),
    {
        let project_locked = saved.is_some();
        let project_path = match saved {
            Some(p) => match saved_root {
                Some(root) => root,
                None => p,
            },
            None => cwd,
        };
        let history: Vec<OpRecord> = Vec::new();
        assert(record_views(history@) =~= Seq::<OpRecordView>::empty());
        let guide_queue: Vec<UnityAction> = Vec::new();
        assert(guide_queue@ =~= Seq::<UnityAction>::empty());
        let version_line = String::new();
        let editors_json = String::new();
        let pipeline_detail = String::new();
        assert(version_line@ =~= Seq::<char>::empty());
        assert(editors_json@ =~= Seq::<char>::empty());
        assert(pipeline_detail@ =~= Seq::<char>::empty());
        UnityState {
            status: CliStatus::Unknown,
            cli_path: None,
            version_line,
            last_error: None,
            project_path,
            editors_json,
            editors_summary: "尚未拉取".to_owned(),
            pipeline_status: PipelineStatus::Unknown,
            pipeline_summary: "尚未检查".to_owned(),
            pipeline_detail,
            editor_link: EditorLinkStatus::Unknown,
            commands_summary: "尚未探测".to_owned(),
            eval_input: EVAL_PLAYING.to_owned(),
            busy: false,
            loop_phase: LoopPhase::Observe,
            demo_mode: false,
            scene: SceneSnapshot::default(),
            guide_label: None,
            toast: None,
            history,
            next_id: 1,
            setup_step: SetupStep::InstallCli,
            setup_focus: None,
            project_locked,
            guide_queue,
            guide_next_at: None,
            windows: on_windows(),
        }
    }

    /// Starts looking for the CLI unless a search already ran or the panel
    /// is busy; true when the caller is to start the search.
    pub fn ensure_detecting(&mut self) -> (start: bool)
        ensures
            (final(self)@, start) == detecting(old(self)@),
    {
        if self.status != CliStatus::Unknown || self.busy {
            return false;
        }
        self.status = CliStatus::Checking;
        self.busy = true;
        true
    }

    /// Recomputes the recommended onboarding step; `project_ok` tells
    /// whether the bound path is a Unity project root.
    pub fn sync_setup_step(&mut self, project_ok: bool)
        ensures
            final(self)@ == synced(old(self)@, project_ok),
    {
        let next = if self.status != CliStatus::Ready {
            SetupStep::InstallCli
        } else if !project_ok {
            SetupStep::PickProject
        } else if self.pipeline_status != PipelineStatus::Installed && self.editor_link
            != EditorLinkStatus::Connected {
            SetupStep::InstallPipeline
        } else if self.editor_link != EditorLinkStatus::Connected {
            SetupStep::ProbeEditor
        } else {
            SetupStep::RunLoop
        };
        self.setup_step = next;
    }

    /// Takes in what the CLI search found.
    pub fn apply_detected(
        &mut self,
        path: Option<String>,
        version: String,
        error: Option<String>,
        project_ok: bool,
    )
        ensures
            final(self)@ == detected(old(self)@, sv(path), version@, sv(error), project_ok),
    {
        self.busy = false;
        let found = path.is_some();
        let failed = error.is_some();
        self.cli_path = path;
        self.version_line = version;
        self.last_error = error;
        if found {
            self.status = CliStatus::Ready;
            self.demo_mode = false;
            self.toast = Some("已检测到 Unity CLI".to_owned());
        } else if failed {
            self.status = CliStatus::Error;
            self.demo_mode = true;
            self.toast = Some("CLI 异常，已切换演示模式".to_owned());
        } else {
            self.status = CliStatus::Missing;
            self.demo_mode = true;
            self.toast = Some("未安装 CLI，已切换演示模式".to_owned());
        }
        self.sync_setup_step(project_ok);
    }

    /// The step shown open: the one the user picked, else the current one.
    pub fn focused_setup_step(&self) -> (r: SetupStep)
        ensures
            r == (match self.setup_focus {
                Some(s) => s,
                None => self.setup_step,
            }),
    {
        match self.setup_focus {
            Some(s) => s,
            None => self.setup_step,
        }
    }

    pub fn step_state(&self, step: SetupStep) -> (r: StepState)
        ensures
            r == step_state_of(self.setup_step, step),
    {
        let cur = self.setup_step.index();
        let idx = step.index();
        if idx < cur {
            StepState::Done
        } else if idx == cur {
            StepState::Current
        } else {
            StepState::Locked
        }
    }

    pub fn advance_after_cli_install_copied(&mut self)
        ensures
            final(self)@ == (UnityView {
                toast: Some("安装命令已复制。在 PowerShell 执行后点「我已安装，重新检测」"@),
                setup_focus: Some(SetupStep::DetectCli),
                ..old(self)@
            }),
    {
        self.toast = Some("安装命令已复制。在 PowerShell 执行后点「我已安装，重新检测」".to_owned());
        self.setup_focus = Some(SetupStep::DetectCli);
    }

    pub fn pipeline_ready_for_commands(&self) -> (r: bool)
        ensures
            r == (self.editor_link == EditorLinkStatus::Connected),
    {
        self.editor_link == EditorLinkStatus::Connected
    }

    /// The toast to show, once.
    pub fn take_toast(&mut self) -> (r: Option<String>)
        ensures
            sv(r) == old(self)@.toast,
            final(self)@ == (UnityView { toast: None, ..old(self)@ }),
    {
        self.toast.take()
    }

    pub fn needs_repaint(&self) -> (r: bool)
        ensures
            r == (self.busy || self.guide_queue@.len() > 0 || self.guide_next_at is Some),
    {
        self.busy || self.guide_queue.len() > 0 || self.guide_next_at.is_some()
    }

    pub fn is_guiding(&self) -> (r: bool)
        ensures
            r == (self.guide_queue@.len() > 0 || self.guide_label is Some),
    {
        self.guide_queue.len() > 0 || self.guide_label.is_some()
    }

    /// The id of the newest history entry; 0 when there is none.
    pub fn latest_record_id(&self) -> (r: u64)
        ensures
            r == (if self.history@.len() > 0 {
                self.history@[0].id
            } else {
                0
            }),
    {
        if self.history.len() > 0 {
            self.history[0].id
        } else {
            0
        }
    }

    pub fn clear_history(&mut self)
        ensures
            final(self)@ == (UnityView {
                history: Seq::empty(),
                toast: Some("已清空操作时间线"@),
                ..old(self)@
            }),
    {
        self.history.clear();
        self.toast = Some("已清空操作时间线".to_owned());
        assert(record_views(self.history@) =~= Seq::<OpRecordView>::empty());
    }

    pub fn reset_scene(&mut self)
        ensures
            final(self)@ == (UnityView {
                scene: initial_scene(),
                loop_phase: LoopPhase::Observe,
                guide_queue: Seq::empty(),
                guide_label: None,
                toast: Some("场景快照已重置"@),
                ..old(self)@
            }),
    {
        self.scene = SceneSnapshot::default();
        self.loop_phase = LoopPhase::Observe;
        self.guide_queue.clear();
        self.guide_label = None;
        self.toast = Some("场景快照已重置".to_owned());
    }

    pub fn install_hint_windows() -> (r: &'static str)
        ensures
            r@ == "$env:UNITY_CLI_CHANNEL='beta'; irm https://public-cdn.cloud.unity3d.com/hub/prod/cli/install.ps1 | iex"@,
    {
        "$env:UNITY_CLI_CHANNEL='beta'; irm https://public-cdn.cloud.unity3d.com/hub/prod/cli/install.ps1 | iex"
    }

    /// The install command to show: the PowerShell one on Windows, the shell
    /// one elsewhere (`on_windows` is the build target's `cfg!(windows)`).
    pub fn install_hint(on_windows: bool) -> (r: &'static str)
        ensures
            r@ == (if on_windows {
                "$env:UNITY_CLI_CHANNEL='beta'; irm https://public-cdn.cloud.unity3d.com/hub/prod/cli/install.ps1 | iex"@
            } else {
                "curl -fsSL https://public-cdn.cloud.unity3d.com/hub/prod/cli/install.sh | UNITY_CLI_CHANNEL=beta bash"@
            }),
    {
        if on_windows {
            Self::install_hint_windows()
        } else {
            Self::install_hint_unix()
        }
    }

    pub fn install_hint_unix() -> (r: &'static str)
        ensures
            r@ == "curl -fsSL https://public-cdn.cloud.unity3d.com/hub/prod/cli/install.sh | UNITY_CLI_CHANNEL=beta bash"@,
    {
        "curl -fsSL https://public-cdn.cloud.unity3d.com/hub/prod/cli/install.sh | UNITY_CLI_CHANNEL=beta bash"
    }
}

/// A finished CLI call (or its demo stand-in), as the caller hands it back.
pub struct CommandDone {
    pub action: UnityAction,
    pub title: String,
    pub command: String,
    pub phase: LoopPhase,
    pub ok: bool,
    pub stdout: String,
    pub stderr: String,
    pub elapsed_ms: u64,
}

pub struct DoneView {
    pub action: UnityAction,
    pub title: Seq<char>,
    pub command: Seq<char>,
    pub phase: LoopPhase,
    pub ok: bool,
    pub stdout: Seq<char>,
    pub stderr: Seq<char>,
    pub elapsed_ms: u64,
}

impl View for CommandDone {
    type V = DoneView;

    open spec fn view(&self) -> DoneView {
        DoneView {
            action: self.action,
            title: self.title@,
            command: self.command@,
            phase: self.phase,
            ok: self.ok,
            stdout: self.stdout@,
            stderr: self.stderr@,
            elapsed_ms: self.elapsed_ms,
        }
    }
}

/// A CLI call for the caller to run in the project folder; a long timeout
/// for a Pipeline install, the short one otherwise.
pub struct CliRun {
    pub action: UnityAction,
    pub cli: String,
    pub args: Vec<String>,
    pub project: String,
    pub title: String,
    pub phase: LoopPhase,
    pub command: String,
    pub long_timeout: bool,
}

pub struct RunView {
    pub action: UnityAction,
    pub cli: Seq<char>,
    pub args: Seq<Seq<char>>,
    pub project: Seq<char>,
    pub title: Seq<char>,
    pub phase: LoopPhase,
    pub command: Seq<char>,
    pub long_timeout: bool,
}

impl View for CliRun {
    type V = RunView;

    open spec fn view(&self) -> RunView {
        RunView {
            action: self.action,
            cli: self.cli@,
            args: sviews(self.args@),
            project: self.project@,
            title: self.title@,
            phase: self.phase,
            command: self.command@,
            long_timeout: self.long_timeout,
        }
    }
}

/// What the caller is to do after a method of `UnityState`.
pub enum UnityEffect {
    Nothing,
    /// Drop any pending reply and start looking for the CLI.
    Detect,
    /// Hand this reply back after a short pause (demo mode).
    Demo(CommandDone),
    /// Run the CLI and hand back what it did.
    Run(CliRun),
}

pub enum EffectView {
    Nothing,
    Detect,
    Demo(DoneView),
    Run(RunView),
}

impl View for UnityEffect {
    type V = EffectView;

    open spec fn view(&self) -> EffectView {
        match self {
            UnityEffect::Nothing => EffectView::Nothing,
            UnityEffect::Detect => EffectView::Detect,
            UnityEffect::Demo(d) => EffectView::Demo(d@),
            UnityEffect::Run(r) => EffectView::Run(r@),
        }
    }
}

pub const DEMO_EDITORS_JSON: &'static str = "[\n  {\"version\":\"6000.2.10f1\",\"modules\":[\"android\",\"ios\",\"webgl\"]},\n  {\"version\":\"6000.0.28f1\",\"modules\":[\"android\"]}\n]";

/// What the demo editor answers to an Eval of `expr`.
pub open spec fn demo_eval_value(expr: Seq<char>, scene: SceneView) -> Seq<char> {
    let lower = unicode_lowercase(expr);
    if has_sub(lower, "isplaying"@) {
        if scene.is_playing {
            "true"@
        } else {
            "false"@
        }
    } else if has_sub(lower, "collider"@) || has_sub(lower, "enabled"@) {
        if scene.ground_collider_enabled {
            "true"@
        } else {
            "false"@
        }
    } else if has_sub(lower, "version"@) {
        "\"6000.2.10f1\""@
    } else if has_sub(lower, "datapath"@) {
        "\"C:/Projects/DemoGame/Assets\""@
    } else {
        "null"@
    }
}

pub fn demo_eval_result(expr: &str, scene: &SceneSnapshot) -> (r: String)
    ensures
        r@ == demo_eval_value(expr@, scene@),
{
    let cs = chars_of(expr);
    let lower = lowercase(&cs);
    if contains_str(&lower, "isplaying") {
        if scene.is_playing {
            "true".to_owned()
        } else {
            "false".to_owned()
        }
    } else if contains_str(&lower, "collider") || contains_str(&lower, "enabled") {
        if scene.ground_collider_enabled {
            "true".to_owned()
        } else {
            "false".to_owned()
        }
    } else if contains_str(&lower, "version") {
        "\"6000.2.10f1\"".to_owned()
    } else if contains_str(&lower, "datapath") {
        "\"C:/Projects/DemoGame/Assets\"".to_owned()
    } else {
        "null".to_owned()
    }
}

/// The demo stand-in for an action: `(title, phase, summary, detail,
/// command)`.
pub open spec fn demo_text(a: UnityAction, v: UnityView) -> (
    Seq<char>,
    LoopPhase,
    Seq<char>,
    Seq<char>,
    Seq<char>,
) {
    match a {
        UnityAction::ListEditors => (
            "列出已安装编辑器"@,
            LoopPhase::Observe,
            "demo: 2 editors (6000.2.10f1, 6000.0.28f1)"@,
            DEMO_EDITORS_JSON@,
            "unity editors --format json"@,
        ),
        UnityAction::ListPipeline => (
            "刷新 Pipeline 列表"@,
            LoopPhase::Observe,
            "demo: Pipeline: Installed"@,
            "Project: "@ + v.project_path + "\nPipeline: Installed (com.unity.pipeline)\n"@,
            "unity pipeline list"@,
        ),
        UnityAction::InstallPipeline => (
            "安装 com.unity.pipeline"@,
            LoopPhase::Observe,
            "demo: Pipeline: Installed"@,
            "Installing com.unity.pipeline into "@ + v.project_path
                + "\nPipeline: Installed\nWait for Editor recompile, then run unity command.\n"@,
            "unity pipeline install"@,
        ),
        UnityAction::ListCommands => (
            "发现已注册命令"@,
            LoopPhase::Observe,
            "demo: greet, eval, play, stop"@,
            "greet — Log a greeting\neval — Evaluate C# in the Editor\nplay — Enter Play Mode\nstop — Exit Play Mode\n"@,
            "unity command"@,
        ),
        UnityAction::ProbeEditor => (
            "探测编辑器连接"@,
            LoopPhase::Observe,
            "demo: editor connected · 4 commands"@,
            "Connected to Editor\ngreet\neval\nplay\nstop\n"@,
            "unity command"@,
        ),
        UnityAction::Eval => {
            let fake = demo_eval_value(v.eval_input, v.scene);
            (
                "Eval C# 表达式"@,
                LoopPhase::Act,
                "demo ← "@ + fake,
                "{\n  \"ok\": true,\n  \"result\": "@ + fake + ",\n  \"expr\": "@ + str_debug(
                    v.eval_input,
                ) + "\n}\n"@,
                "unity command eval "@ + str_debug(v.eval_input),
            )
        },
        UnityAction::ObserveCollider => (
            "观察：碰撞体已禁用"@,
            LoopPhase::Observe,
            "demo: GroundCollider.enabled == false"@,
            "Bug report: player sometimes falls through the floor.\nInspect: GameObject.Find(\"Ground\").GetComponent<Collider>().enabled → false\n"@,
            "unity command eval \"return GameObject.Find(\\\"Ground\\\").GetComponent<Collider>().enabled;\""@,
        ),
        UnityAction::FixCollider => (
            "行动：重新启用碰撞体"@,
            LoopPhase::Act,
            "demo: collider.enabled = true"@,
            "Action: GroundCollider.enabled = true\nNo domain reload · eval returned true\n"@,
            "unity command eval \"var c = GameObject.Find(\\\"Ground\\\").GetComponent<Collider>(); c.enabled = true; return c.enabled;\""@,
        ),
        UnityAction::EnterPlayMode => (
            "验证：进入 Play Mode"@,
            LoopPhase::Verify,
            "demo: isPlaying = true · player stable"@,
            "Enter Play Mode\nisPlaying → true\nPlayer remains on floor\n"@,
            "unity command eval \"UnityEditor.EditorApplication.isPlaying = true; return UnityEditor.EditorApplication.isPlaying;\""@,
        ),
        UnityAction::ExitPlayMode => (
            "退出 Play Mode"@,
            LoopPhase::Verify,
            "demo: isPlaying = false"@,
            "{\n  \"isPlaying\": false\n}\n"@,
            "unity command eval \"UnityEditor.EditorApplication.isPlaying = false; return UnityEditor.EditorApplication.isPlaying;\""@,
        ),
        UnityAction::RefreshDetect | UnityAction::RunFullLoop => (
            Seq::empty(),
            LoopPhase::Observe,
            Seq::empty(),
            Seq::empty(),
            Seq::empty(),
        ),
    }
}

/// The panel after starting the demo stand-in for `a`, and the reply to
/// hand back.
pub open spec fn demo_run(v: UnityView, a: UnityAction) -> (UnityView, EffectView) {
    if a is RefreshDetect || a is RunFullLoop {
        (v, EffectView::Nothing)
    } else {
        let t = demo_text(a, v);
        let stdout = if a is ListEditors {
            DEMO_EDITORS_JSON@
        } else {
            t.2 + "\n"@ + t.3
        };
        (
            UnityView { demo_mode: true, busy: true, ..v },
            EffectView::Demo(
                DoneView {
                    action: a,
                    title: t.0,
                    command: t.4,
                    phase: t.1,
                    ok: true,
                    stdout,
                    stderr: Seq::empty(),
                    elapsed_ms: 12,
                },
            ),
        )
    }
}

/// The status fields that an action marks as in progress.
pub open spec fn marked(v: UnityView, a: UnityAction) -> UnityView {
    let v1 = if a is InstallPipeline {
        UnityView {
            pipeline_status: PipelineStatus::Installing,
            pipeline_summary: "正在执行 unity pipeline install…"@,
            ..v
        }
    } else {
        v
    };
    let v2 = if a is ListPipeline {
        UnityView { pipeline_status: PipelineStatus::Checking, ..v1 }
    } else {
        v1
    };
    if a is ListCommands || a is ProbeEditor {
        UnityView { editor_link: EditorLinkStatus::Checking, ..v2 }
    } else {
        v2
    }
}

/// The scene the guided loop starts from.
pub open spec fn loop_start_scene() -> SceneView {
    SceneView {
        player_y_tenths: 10,
        ground_collider_enabled: true,
        is_playing: false,
        last_eval_result: "—"@,
        note: "准备复现：玩家有时从地板掉落"@,
    }
}

/// The panel after asking for the guided observe → act → verify loop at
/// time `now_ms`.
pub open spec fn full_loop_started(v: UnityView, now_ms: u64) -> UnityView {
    if v.busy || v.guide_queue.len() > 0 {
        v
    } else {
        UnityView {
            demo_mode: v.status != CliStatus::Ready,
            scene: loop_start_scene(),
            loop_phase: LoopPhase::Observe,
            guide_queue: seq![
                UnityAction::ObserveCollider,
                UnityAction::FixCollider,
                UnityAction::EnterPlayMode,
            ],
            guide_label: Some("闭环 0/3 · 准备中"@),
            guide_next_at: Some(now_ms),
            toast: Some("开始完整闭环演示"@),
            ..v
        }
    }
}

/// The panel after the user (or the guided loop) asks for `a` at time
/// `now_ms`, and what the caller is to do.
pub open spec fn action_run(v: UnityView, a: UnityAction, now_ms: u64) -> (UnityView, EffectView) {
    if v.busy && !(a is RunFullLoop) {
        (v, EffectView::Nothing)
    } else if a is RunFullLoop {
        (full_loop_started(v, now_ms), EffectView::Nothing)
    } else if a is RefreshDetect {
        (UnityView { status: CliStatus::Checking, busy: true, ..v }, EffectView::Detect)
    } else {
        let m = marked(v, a);
        if m.demo_mode || m.status != CliStatus::Ready {
            demo_run(m, a)
        } else {
            match m.cli_path {
                None => demo_run(m, a),
                Some(cli) => {
                    let c = cli_call(a, m.eval_input, cli_spelling(m.project_path, m.windows));
                    (
                        UnityView { busy: true, ..m },
                        EffectView::Run(
                            RunView {
                                action: a,
                                cli,
                                args: c.1,
                                project: m.project_path,
                                title: c.0,
                                phase: c.2,
                                command: command_line(cli, c.1),
                                long_timeout: a is InstallPipeline,
                            },
                        ),
                    )
                },
            }
        }
    }
}

impl UnityState {
    fn start_full_loop(&mut self, now_ms: u64)
        ensures
            final(self)@ == full_loop_started(old(self)@, now_ms),
    {
        if self.busy || self.guide_queue.len() > 0 {
            return;
        }
        self.demo_mode = self.status != CliStatus::Ready;
        self.scene = SceneSnapshot {
            player_y_tenths: 10,
            ground_collider_enabled: true,
            is_playing: false,
            last_eval_result: "—".to_owned(),
            note: "准备复现：玩家有时从地板掉落".to_owned(),
        };
        self.loop_phase = LoopPhase::Observe;
        self.guide_queue = vec![
            UnityAction::ObserveCollider,
            UnityAction::FixCollider,
            UnityAction::EnterPlayMode,
        ];
        self.guide_label = Some("闭环 0/3 · 准备中".to_owned());
        self.guide_next_at = Some(now_ms);
        self.toast = Some("开始完整闭环演示".to_owned());
        assert(self.guide_queue@ =~= seq![
            UnityAction::ObserveCollider,
            UnityAction::FixCollider,
            UnityAction::EnterPlayMode,
        ]);
    }

    fn run_demo(&mut self, action: UnityAction) -> (e: UnityEffect)
        ensures
            (final(self)@, e@) == demo_run(old(self)@, action),
    {
        let ghost v = self@;
        let ghost t = demo_text(action, v);
        let (title, phase, summary, detail, command): (String, LoopPhase, String, String, String) =
            match action {
            UnityAction::ListEditors => (
                "列出已安装编辑器".to_owned(),
                LoopPhase::Observe,
                "demo: 2 editors (6000.2.10f1, 6000.0.28f1)".to_owned(),
                DEMO_EDITORS_JSON.to_owned(),
                "unity editors --format json".to_owned(),
            ),
            UnityAction::ListPipeline => {
                let mut d = chars_of("Project: ");
                push_str(&mut d, self.project_path.as_str());
                push_str(&mut d, "\nPipeline: Installed (com.unity.pipeline)\n");
                (
                    "刷新 Pipeline 列表".to_owned(),
                    LoopPhase::Observe,
                    "demo: Pipeline: Installed".to_owned(),
                    string_of(&d),
                    "unity pipeline list".to_owned(),
                )
            },
            UnityAction::InstallPipeline => {
                let mut d = chars_of("Installing com.unity.pipeline into ");
                push_str(&mut d, self.project_path.as_str());
                push_str(
                    &mut d,
                    "\nPipeline: Installed\nWait for Editor recompile, then run unity command.\n",
                );
                (
                    "安装 com.unity.pipeline".to_owned(),
                    LoopPhase::Observe,
                    "demo: Pipeline: Installed".to_owned(),
                    string_of(&d),
                    "unity pipeline install".to_owned(),
                )
            },
            UnityAction::ListCommands => (
                "发现已注册命令".to_owned(),
                LoopPhase::Observe,
                "demo: greet, eval, play, stop".to_owned(),
                "greet — Log a greeting\neval — Evaluate C# in the Editor\nplay — Enter Play Mode\nstop — Exit Play Mode\n".to_owned(),
                "unity command".to_owned(),
            ),
            UnityAction::ProbeEditor => (
                "探测编辑器连接".to_owned(),
                LoopPhase::Observe,
                "demo: editor connected · 4 commands".to_owned(),
                "Connected to Editor\ngreet\neval\nplay\nstop\n".to_owned(),
                "unity command".to_owned(),
            ),
            UnityAction::Eval => {
                let fake = demo_eval_result(self.eval_input.as_str(), &self.scene);
                let quoted = debug_quoted(self.eval_input.as_str());
                let mut s = chars_of("demo ← ");
                push_str(&mut s, fake.as_str());
                let mut d = chars_of("{\n  \"ok\": true,\n  \"result\": ");
                push_str(&mut d, fake.as_str());
                push_str(&mut d, ",\n  \"expr\": ");
                push_str(&mut d, quoted.as_str());
                push_str(&mut d, "\n}\n");
                let mut c = chars_of("unity command eval ");
                push_str(&mut c, quoted.as_str());
                (
                    "Eval C# 表达式".to_owned(),
                    LoopPhase::Act,
                    string_of(&s),
                    string_of(&d),
                    string_of(&c),
                )
            },
            UnityAction::ObserveCollider => (
                "观察：碰撞体已禁用".to_owned(),
                LoopPhase::Observe,
                "demo: GroundCollider.enabled == false".to_owned(),
                "Bug report: player sometimes falls through the floor.\nInspect: GameObject.Find(\"Ground\").GetComponent<Collider>().enabled → false\n".to_owned(),
                "unity command eval \"return GameObject.Find(\\\"Ground\\\").GetComponent<Collider>().enabled;\"".to_owned(),
            ),
            UnityAction::FixCollider => (
                "行动：重新启用碰撞体".to_owned(),
                LoopPhase::Act,
                "demo: collider.enabled = true".to_owned(),
                "Action: GroundCollider.enabled = true\nNo domain reload · eval returned true\n".to_owned(),
                "unity command eval \"var c = GameObject.Find(\\\"Ground\\\").GetComponent<Collider>(); c.enabled = true; return c.enabled;\"".to_owned(),
            ),
            UnityAction::EnterPlayMode => (
                "验证：进入 Play Mode".to_owned(),
                LoopPhase::Verify,
                "demo: isPlaying = true · player stable".to_owned(),
                "Enter Play Mode\nisPlaying → true\nPlayer remains on floor\n".to_owned(),
                "unity command eval \"UnityEditor.EditorApplication.isPlaying = true; return UnityEditor.EditorApplication.isPlaying;\"".to_owned(),
            ),
            UnityAction::ExitPlayMode => (
                "退出 Play Mode".to_owned(),
                LoopPhase::Verify,
                "demo: isPlaying = false".to_owned(),
                "{\n  \"isPlaying\": false\n}\n".to_owned(),
                "unity command eval \"UnityEditor.EditorApplication.isPlaying = false; return UnityEditor.EditorApplication.isPlaying;\"".to_owned(),
            ),
            UnityAction::RefreshDetect | UnityAction::RunFullLoop => {
                return UnityEffect::Nothing;
            },
        };
        assert(title@ == t.0 && phase == t.1 && summary@ == t.2 && detail@ == t.3 && command@
            == t.4);
        self.demo_mode = true;
        self.busy = true;
        let stdout = if action == UnityAction::ListEditors {
            DEMO_EDITORS_JSON.to_owned()
        } else {
            let mut o = chars_of(summary.as_str());
            push_str(&mut o, "\n");
            push_str(&mut o, detail.as_str());
            string_of(&o)
        };
        let stderr = String::new();
        assert(stderr@ =~= Seq::<char>::empty());
        UnityEffect::Demo(
            CommandDone { action, title, command, phase, ok: true, stdout, stderr, elapsed_ms: 12 },
        )
    }

    /// Asks for `action` at time `now_ms` (milliseconds of the caller's
    /// monotonic clock); a busy panel takes no action but the guided loop.
    pub fn run_action(&mut self, action: UnityAction, now_ms: u64) -> (e: UnityEffect)
        ensures
            (final(self)@, e@) == action_run(old(self)@, action, now_ms),
    {
        if self.busy && action != UnityAction::RunFullLoop {
            return UnityEffect::Nothing;
        }
        if action == UnityAction::RunFullLoop {
            self.start_full_loop(now_ms);
            return UnityEffect::Nothing;
        }
        if action == UnityAction::RefreshDetect {
            self.status = CliStatus::Unknown;
            self.busy = false;
            let start = self.ensure_detecting();
            assert(start);
            return UnityEffect::Detect;
        }
        if action == UnityAction::InstallPipeline {
            self.pipeline_status = PipelineStatus::Installing;
            self.pipeline_summary = "正在执行 unity pipeline install…".to_owned();
        }
        if action == UnityAction::ListPipeline {
            self.pipeline_status = PipelineStatus::Checking;
        }
        if action == UnityAction::ListCommands || action == UnityAction::ProbeEditor {
            self.editor_link = EditorLinkStatus::Checking;
        }
        if self.demo_mode || self.status != CliStatus::Ready {
            return self.run_demo(action);
        }
        let cli = match &self.cli_path {
            None => {
                return self.run_demo(action);
            },
            Some(c) => c.clone(),
        };
        let project = self.project_path.clone();
        let (title, args, phase) = action.to_cli_args_for(
            self.eval_input.as_str(),
            project.as_str(),
            self.windows,
        );
        let command = format_command(cli.as_str(), &args);
        self.busy = true;
        UnityEffect::Run(
            CliRun {
                action,
                cli,
                args,
                project,
                title,
                phase,
                command,
                long_timeout: action == UnityAction::InstallPipeline,
            },
        )
    }
}

pub open spec fn cli_label(s: CliStatus) -> Seq<char> {
    match s {
        CliStatus::Unknown | CliStatus::Checking => "检测中"@,
        CliStatus::Missing => "未安装"@,
        CliStatus::Ready => "已就绪"@,
        CliStatus::Error => "异常"@,
    }
}

pub open spec fn phase_label(p: LoopPhase) -> Seq<char> {
    match p {
        LoopPhase::Observe => "观察"@,
        LoopPhase::Act => "行动"@,
        LoopPhase::Verify => "验证"@,
    }
}

pub open spec fn pipeline_label(s: PipelineStatus) -> Seq<char> {
    match s {
        PipelineStatus::Unknown => "未知"@,
        PipelineStatus::Checking => "检查中"@,
        PipelineStatus::NotInstalled => "未安装"@,
        PipelineStatus::Installing => "安装中"@,
        PipelineStatus::PendingImport => "等待编辑器加载"@,
        PipelineStatus::Installed => "已安装"@,
        PipelineStatus::Error => "异常"@,
    }
}

pub open spec fn link_label(s: EditorLinkStatus) -> Seq<char> {
    match s {
        EditorLinkStatus::Unknown => "未知"@,
        EditorLinkStatus::Checking => "探测中"@,
        EditorLinkStatus::Disconnected => "未连接"@,
        EditorLinkStatus::Connected => "已连接"@,
    }
}

pub open spec fn action_label(a: UnityAction) -> Seq<char> {
    match a {
        UnityAction::RefreshDetect => "重新检测"@,
        UnityAction::ListEditors => "列出编辑器"@,
        UnityAction::ListPipeline => "刷新 Pipeline"@,
        UnityAction::InstallPipeline => "安装 Pipeline"@,
        UnityAction::ListCommands => "发现命令"@,
        UnityAction::ProbeEditor => "探测编辑器"@,
        UnityAction::Eval => "运行 Eval"@,
        UnityAction::ObserveCollider => "观察碰撞体"@,
        UnityAction::FixCollider => "修复碰撞体"@,
        UnityAction::EnterPlayMode => "进入 Play"@,
        UnityAction::ExitPlayMode => "退出 Play"@,
        UnityAction::RunFullLoop => "跑完整闭环"@,
    }
}

/// The history entry's summary of a finished call.
pub open spec fn record_summary(d: DoneView) -> Seq<char> {
    if d.ok {
        match d.action {
            UnityAction::ListEditors => editors_summary(d.stdout),
            UnityAction::Eval => eval_summary(d.stdout),
            _ => one_line(d.stdout, 120),
        }
    } else {
        one_line(
            if d.stderr.len() == 0 {
                d.stdout
            } else {
                d.stderr
            },
            120,
        )
    }
}

/// The history entry for a finished call, taken at Unix time `now`.
pub open spec fn record_of(v: UnityView, d: DoneView, now: u64) -> OpRecordView {
    OpRecordView {
        id: v.next_id,
        title: d.title,
        command: d.command,
        phase: d.phase,
        ok: d.ok,
        summary: record_summary(d),
        detail: merged(d.stdout, d.stderr),
        at_unix: now,
        elapsed_ms: d.elapsed_ms,
    }
}

/// The history with `r` in front, cut to `HISTORY_LIMIT` entries.
pub open spec fn with_record(h: Seq<OpRecordView>, r: OpRecordView) -> Seq<OpRecordView> {
    let h2 = seq![r] + h;
    if h2.len() > HISTORY_LIMIT {
        h2.take(HISTORY_LIMIT as int)
    } else {
        h2
    }
}

/// What a successful `pipeline list` (printing `t`, trimmed) changes.
pub open spec fn pipeline_list_effects(v: UnityView, t: Seq<char>, f: ProjectFacts) -> UnityView {
    let v1 = UnityView {
        pipeline_detail: t,
        pipeline_summary: pipeline_summary(t),
        pipeline_status: pipeline_status_of(t, true),
        ..v
    };
    let v2 = match server_reachable(t) {
        Some(r) => UnityView {
            editor_link: if r {
                EditorLinkStatus::Connected
            } else {
                EditorLinkStatus::Disconnected
            },
            commands_summary: if r {
                "Pipeline 服务可达，可以执行 command / eval"@
            } else {
                "Pipeline 包已登记，但编辑器服务不可达"@
            },
            ..v1
        },
        None => v1,
    };
    if f.pipeline_declared && !f.pipeline_loaded {
        UnityView {
            pipeline_status: PipelineStatus::PendingImport,
            pipeline_summary: "已写入 manifest，但当前 Editor 尚未解析；请完全关闭并重新打开工程"@,
            ..v2
        }
    } else {
        v2
    }
}

/// What a successful `pipeline install` (printing `t`, trimmed) changes.
pub open spec fn pipeline_install_effects(v: UnityView, t: Seq<char>, f: ProjectFacts) -> UnityView {
    let st = if t.len() == 0 {
        PipelineStatus::Installed
    } else {
        pipeline_status_of(t, true)
    };
    let v1 = UnityView {
        pipeline_detail: t,
        pipeline_summary: one_line(t, 160),
        pipeline_status: st,
        ..v
    };
    let v2 = if st == PipelineStatus::Installed {
        UnityView { toast: Some("Pipeline 已安装，请等编辑器重编译后再探测"@), ..v1 }
    } else {
        v1
    };
    if f.pipeline_declared && !f.pipeline_loaded {
        UnityView {
            pipeline_status: PipelineStatus::PendingImport,
            pipeline_summary: "已写入 manifest；请完全关闭并重新打开 Unity 工程"@,
            ..v2
        }
    } else {
        v2
    }
}

/// What a successful `command` probe (printing `t`, trimmed) changes.
pub open spec fn command_effects(v: UnityView, t: Seq<char>) -> UnityView {
    let link = editor_link_of(t, true);
    let v1 = UnityView { commands_summary: one_line(t, 160), editor_link: link, ..v };
    if !v1.demo_mode && link == EditorLinkStatus::Connected && v1.pipeline_status
        != PipelineStatus::Installed {
        UnityView {
            pipeline_status: PipelineStatus::Installed,
            pipeline_summary: "编辑器已响应 command（视为已安装）"@,
            ..v1
        }
    } else {
        v1
    }
}

/// What a successful step of the guided loop changes on the scene.
pub open spec fn scene_effects(v: UnityView, a: UnityAction) -> UnityView {
    match a {
        UnityAction::ObserveCollider => UnityView {
            scene: SceneView {
                player_y_tenths: -24,
                ground_collider_enabled: false,
                is_playing: true,
                last_eval_result: "false"@,
                note: "观察：GroundCollider 被禁用，玩家掉出地板"@,
            },
            loop_phase: LoopPhase::Act,
            ..v
        },
        UnityAction::FixCollider => UnityView {
            scene: SceneView {
                ground_collider_enabled: true,
                last_eval_result: "true"@,
                note: "行动：已重新启用 GroundCollider"@,
                ..v.scene
            },
            loop_phase: LoopPhase::Verify,
            ..v
        },
        UnityAction::EnterPlayMode => UnityView {
            scene: SceneView {
                is_playing: true,
                player_y_tenths: if v.scene.ground_collider_enabled {
                    10
                } else {
                    -24
                },
                note: if v.scene.ground_collider_enabled {
                    "验证：Play Mode 中玩家站在地板上"@
                } else {
                    "验证：碰撞体仍关闭，玩家掉落"@
                },
                last_eval_result: "true"@,
                ..v.scene
            },
            ..v
        },
        UnityAction::ExitPlayMode => UnityView {
            scene: SceneView {
                is_playing: false,
                note: "已退出 Play Mode"@,
                last_eval_result: "false"@,
                ..v.scene
            },
            ..v
        },
        _ => v,
    }
}

/// What a successful Eval (printing `t`, trimmed, in phase `phase`)
/// changes.
pub open spec fn eval_effects(v: UnityView, t: Seq<char>, phase: LoopPhase) -> UnityView {
    let v1 = UnityView {
        scene: SceneView {
            last_eval_result: one_line(t, 80),
            note: "Eval 完成（"@ + phase_label(phase) + "）"@,
            ..v.scene
        },
        ..v
    };
    if t.len() > 0 && !has_sub(unicode_lowercase(t), "error"@) {
        UnityView { editor_link: EditorLinkStatus::Connected, ..v1 }
    } else {
        v1
    }
}

/// What a successful call of `a` (in phase `phase`, printing `stdout`)
/// changes on the panel.
pub open spec fn after_effects(
    v: UnityView,
    a: UnityAction,
    phase: LoopPhase,
    stdout: Seq<char>,
    f: ProjectFacts,
) -> UnityView {
    let t = trim(stdout);
    match a {
        UnityAction::ListEditors => UnityView {
            editors_json: t,
            editors_summary: editors_summary(t),
            ..v
        },
        UnityAction::ListPipeline => pipeline_list_effects(v, t, f),
        UnityAction::InstallPipeline => pipeline_install_effects(v, t, f),
        UnityAction::ListCommands | UnityAction::ProbeEditor => command_effects(v, t),
        UnityAction::Eval => eval_effects(v, t, phase),
        UnityAction::RefreshDetect | UnityAction::RunFullLoop => v,
        _ => scene_effects(v, a),
    }
}

/// What a failed call of `a` changes on the panel.
pub open spec fn after_failure(
    v: UnityView,
    a: UnityAction,
    stderr: Seq<char>,
    stdout: Seq<char>,
) -> UnityView {
    let msg = one_line(
        if trim(stderr).len() == 0 {
            stdout
        } else {
            stderr
        },
        160,
    );
    match a {
        UnityAction::InstallPipeline => UnityView {
            pipeline_status: PipelineStatus::Error,
            pipeline_summary: msg,
            pipeline_detail: merged(stdout, stderr),
            toast: Some("Pipeline 安装失败："@ + msg),
            ..v
        },
        UnityAction::ListPipeline => UnityView {
            pipeline_status: PipelineStatus::Error,
            pipeline_summary: msg,
            ..v
        },
        UnityAction::ListCommands | UnityAction::ProbeEditor | UnityAction::Eval => {
            let v1 = UnityView {
                editor_link: EditorLinkStatus::Disconnected,
                commands_summary: msg,
                ..v
            };
            if has_sub(unicode_lowercase(msg), "pipeline"@) {
                UnityView { toast: Some("编辑器未响应：请先安装 Pipeline 并打开项目"@), ..v1 }
            } else {
                v1
            }
        },
        _ => v,
    }
}

/// The actions whose effects already move the loop's phase.
pub open spec fn moves_phase_itself(a: UnityAction) -> bool {
    a is ObserveCollider || a is FixCollider || a is EnterPlayMode
}

/// The panel once a finished call `d` is in its history (at Unix time
/// `now`) and it is no longer busy.
pub open spec fn recorded(v: UnityView, d: DoneView, now: u64) -> UnityView {
    UnityView {
        busy: false,
        history: with_record(v.history, record_of(v, d, now)),
        next_id: (v.next_id + 1) as u64,
        ..v
    }
}

/// What the call's success or failure changes.
pub open spec fn outcome(v: UnityView, d: DoneView, f: ProjectFacts) -> UnityView {
    if d.ok {
        let e = after_effects(v, d.action, d.phase, d.stdout, f);
        if moves_phase_itself(d.action) {
            e
        } else {
            UnityView { loop_phase: d.phase.spec_next(), ..e }
        }
    } else {
        after_failure(v, d.action, d.stderr, d.stdout)
    }
}

/// The guided loop after a call came back at monotonic time `now_ms`: the
/// next step is due a short gap later, or the loop is over.
pub open spec fn guide_after(v: UnityView, now_ms: u64) -> UnityView {
    if v.guide_queue.len() == 0 {
        UnityView {
            toast: if v.guide_label is Some {
                Some("完整闭环完成 ✓"@)
            } else {
                v.toast
            },
            guide_label: None,
            ..v
        }
    } else {
        UnityView { guide_next_at: Some((now_ms + GUIDE_STEP_GAP_MS) as u64), ..v }
    }
}

/// The panel after a finished call `d` comes back, at Unix time `now` and
/// monotonic time `now_ms`, with `f` what the file system shows of the
/// project.
pub open spec fn command_done(
    v: UnityView,
    d: DoneView,
    now: u64,
    now_ms: u64,
    f: ProjectFacts,
) -> UnityView {
    guide_after(synced(outcome(recorded(v, d, now), d, f), f.unity_project), now_ms)
}

impl UnityState {
    fn push_record(&mut self, record: OpRecord)
        ensures
            final(self)@ == (UnityView {
                history: with_record(old(self)@.history, record@),
                ..old(self)@
            }),
    {
        let ghost h = record_views(self.history@);
        let ghost r = record@;
        self.history.insert(0, record);
        assert(record_views(self.history@) =~= seq![r] + h);
        if self.history.len() > HISTORY_LIMIT {
            self.history.truncate(HISTORY_LIMIT);
            assert(record_views(self.history@) =~= (seq![r] + h).take(HISTORY_LIMIT as int));
        }
    }

    fn list_pipeline_effects(&mut self, t: String, facts: ProjectFacts)
        ensures
            final(self)@ == pipeline_list_effects(old(self)@, t@, facts),
    {
        self.pipeline_summary = summarize_pipeline_list(t.as_str());
        self.pipeline_status = infer_pipeline_status(t.as_str(), true);
        if let Some(reachable) = pipeline_server_reachable(t.as_str()) {
            if reachable {
                self.editor_link = EditorLinkStatus::Connected;
                self.commands_summary = "Pipeline 服务可达，可以执行 command / eval".to_owned();
            } else {
                self.editor_link = EditorLinkStatus::Disconnected;
                self.commands_summary = "Pipeline 包已登记，但编辑器服务不可达".to_owned();
            }
        }
        self.pipeline_detail = t;
        if facts.pipeline_declared && !facts.pipeline_loaded {
            self.pipeline_status = PipelineStatus::PendingImport;
            self.pipeline_summary =
                "已写入 manifest，但当前 Editor 尚未解析；请完全关闭并重新打开工程".to_owned();
        }
    }

    fn install_pipeline_effects(&mut self, t: String, empty: bool, facts: ProjectFacts)
        requires
            empty == (t@.len() == 0),
        ensures
            final(self)@ == pipeline_install_effects(old(self)@, t@, facts),
    {
        self.pipeline_summary = truncate_one_line(t.as_str(), 160);
        self.pipeline_status = if empty {
            PipelineStatus::Installed
        } else {
            infer_pipeline_status(t.as_str(), true)
        };
        self.pipeline_detail = t;
        if self.pipeline_status == PipelineStatus::Installed {
            self.toast = Some("Pipeline 已安装，请等编辑器重编译后再探测".to_owned());
        }
        if facts.pipeline_declared && !facts.pipeline_loaded {
            self.pipeline_status = PipelineStatus::PendingImport;
            self.pipeline_summary = "已写入 manifest；请完全关闭并重新打开 Unity 工程".to_owned();
        }
    }

    fn command_probe_effects(&mut self, t: &str)
        ensures
            final(self)@ == command_effects(old(self)@, t@),
    {
        self.commands_summary = truncate_one_line(t, 160);
        self.editor_link = infer_editor_link(t, true);
        if !self.demo_mode && self.editor_link == EditorLinkStatus::Connected
            && self.pipeline_status != PipelineStatus::Installed {
            self.pipeline_status = PipelineStatus::Installed;
            self.pipeline_summary = "编辑器已响应 command（视为已安装）".to_owned();
        }
    }

    fn scene_step_effects(&mut self, action: UnityAction)
        ensures
            final(self)@ == scene_effects(old(self)@, action),
    {
        match action {
            UnityAction::ObserveCollider => {
                self.scene = SceneSnapshot {
                    player_y_tenths: -24,
                    ground_collider_enabled: false,
                    is_playing: true,
                    last_eval_result: "false".to_owned(),
                    note: "观察：GroundCollider 被禁用，玩家掉出地板".to_owned(),
                };
                self.loop_phase = LoopPhase::Act;
            },
            UnityAction::FixCollider => {
                self.scene.ground_collider_enabled = true;
                self.scene.last_eval_result = "true".to_owned();
                self.scene.note = "行动：已重新启用 GroundCollider".to_owned();
                self.loop_phase = LoopPhase::Verify;
            },
            UnityAction::EnterPlayMode => {
                self.scene.is_playing = true;
                if self.scene.ground_collider_enabled {
                    self.scene.player_y_tenths = 10;
                    self.scene.note = "验证：Play Mode 中玩家站在地板上".to_owned();
                } else {
                    self.scene.player_y_tenths = -24;
                    self.scene.note = "验证：碰撞体仍关闭，玩家掉落".to_owned();
                }
                self.scene.last_eval_result = "true".to_owned();
            },
            UnityAction::ExitPlayMode => {
                self.scene.is_playing = false;
                self.scene.note = "已退出 Play Mode".to_owned();
                self.scene.last_eval_result = "false".to_owned();
            },
            _ => {},
        }
    }

    fn eval_step_effects(&mut self, tc: &Vec<char>, phase: LoopPhase)
        ensures
            final(self)@ == eval_effects(old(self)@, tc@, phase),
    {
        let t = string_of(tc);
        self.scene.last_eval_result = truncate_one_line(t.as_str(), 80);
        let mut note = chars_of("Eval 完成（");
        push_str(&mut note, phase.label());
        push_str(&mut note, "）");
        self.scene.note = string_of(&note);
        let lower = lowercase(tc);
        if tc.len() > 0 && !contains_str(&lower, "error") {
            self.editor_link = EditorLinkStatus::Connected;
        }
    }

    fn apply_action_effects(
        &mut self,
        action: UnityAction,
        phase: LoopPhase,
        stdout: &str,
        facts: ProjectFacts,
    )
        ensures
            final(self)@ == after_effects(old(self)@, action, phase, stdout@, facts),
    {
        let tc = trimmed(&chars_of(stdout));
        let t = string_of(&tc);
        match action {
            UnityAction::ListEditors => {
                self.editors_summary = summarize_editors_json(t.as_str());
                self.editors_json = t;
            },
            UnityAction::ListPipeline => self.list_pipeline_effects(t, facts),
            UnityAction::InstallPipeline => {
                let empty = tc.len() == 0;
                self.install_pipeline_effects(t, empty, facts)
            },
            UnityAction::ListCommands | UnityAction::ProbeEditor => {
                self.command_probe_effects(t.as_str())
            },
            UnityAction::Eval => self.eval_step_effects(&tc, phase),
            UnityAction::RefreshDetect | UnityAction::RunFullLoop => {},
            _ => self.scene_step_effects(action),
        }
    }

    fn apply_action_failure(&mut self, action: UnityAction, stderr: &str, stdout: &str)
        ensures
            final(self)@ == after_failure(old(self)@, action, stderr@, stdout@),
    {
        let quiet = trimmed(&chars_of(stderr)).len() == 0;
        let msg = truncate_one_line(
            if quiet {
                stdout
            } else {
                stderr
            },
            160,
        );
        match action {
            UnityAction::InstallPipeline => {
                self.pipeline_status = PipelineStatus::Error;
                self.pipeline_detail = merge_streams(stdout, stderr);
                let mut t = chars_of("Pipeline 安装失败：");
                push_str(&mut t, msg.as_str());
                self.toast = Some(string_of(&t));
                self.pipeline_summary = msg;
            },
            UnityAction::ListPipeline => {
                self.pipeline_status = PipelineStatus::Error;
                self.pipeline_summary = msg;
            },
            UnityAction::ListCommands | UnityAction::ProbeEditor | UnityAction::Eval => {
                self.editor_link = EditorLinkStatus::Disconnected;
                let lower = lowercase(&chars_of(msg.as_str()));
                if contains_str(&lower, "pipeline") {
                    self.toast = Some("编辑器未响应：请先安装 Pipeline 并打开项目".to_owned());
                }
                self.commands_summary = msg;
            },
            _ => {},
        }
    }

    fn record_done(&mut self, done: &CommandDone, now: u64)
        requires
            old(self).next_id < u64::MAX,
        ensures
            final(self)@ == recorded(old(self)@, done@, now),
    {
        let ghost v = self@;
        let ghost d = done@;
        self.busy = false;
        let detail = merge_streams(done.stdout.as_str(), done.stderr.as_str());
        let summary = if done.ok {
            match done.action {
                UnityAction::ListEditors => summarize_editors_json(done.stdout.as_str()),
                UnityAction::Eval => summarize_eval_output(done.stdout.as_str()),
                _ => truncate_one_line(done.stdout.as_str(), 120),
            }
        } else {
            truncate_one_line(
                if done.stderr.as_str().is_empty() {
                    done.stdout.as_str()
                } else {
                    done.stderr.as_str()
                },
                120,
            )
        };
        let record = OpRecord {
            id: self.next_id,
            title: done.title.clone(),
            command: done.command.clone(),
            phase: done.phase,
            ok: done.ok,
            summary,
            detail,
            at_unix: now,
            elapsed_ms: done.elapsed_ms,
        };
        assert(record@ == record_of(v, d, now));
        self.push_record(record);
        self.next_id = self.next_id + 1;
    }

    fn apply_outcome(&mut self, done: &CommandDone, facts: ProjectFacts)
        ensures
            final(self)@ == outcome(old(self)@, done@, facts),
    {
        if done.ok {
            self.apply_action_effects(done.action, done.phase, done.stdout.as_str(), facts);
            if !(done.action == UnityAction::ObserveCollider || done.action
                == UnityAction::FixCollider || done.action == UnityAction::EnterPlayMode) {
                self.loop_phase = done.phase.next();
            }
        } else {
            self.apply_action_failure(done.action, done.stderr.as_str(), done.stdout.as_str());
        }
    }

    fn schedule_guide(&mut self, now_ms: u64)
        requires
            now_ms <= u64::MAX - GUIDE_STEP_GAP_MS,
        ensures
            final(self)@ == guide_after(old(self)@, now_ms),
    {
        if self.guide_queue.len() == 0 {
            if self.guide_label.is_some() {
                self.toast = Some("完整闭环完成 ✓".to_owned());
            }
            self.guide_label = None;
        } else {
            self.guide_next_at = Some(now_ms + GUIDE_STEP_GAP_MS);
        }
    }

    /// Takes in a finished call, at Unix time `now` and monotonic time
    /// `now_ms`; `facts` is what the file system shows of the project now.
    pub fn apply_command_done(
        &mut self,
        done: CommandDone,
        now: u64,
        now_ms: u64,
        facts: ProjectFacts,
    )
        requires
            old(self).next_id < u64::MAX,
            now_ms <= u64::MAX - GUIDE_STEP_GAP_MS,
        ensures
            final(self)@ == command_done(old(self)@, done@, now, now_ms, facts),
    {
        self.record_done(&done, now);
        self.apply_outcome(&done, facts);
        self.sync_setup_step(facts.unity_project);
        self.schedule_guide(now_ms);
    }
}

/// A path text with no `\\`, `:` or `.`, no doubled `/` and no trailing
/// `/`: on every platform its components are the names between its slashes
/// (after a root for a leading `/`), so two different such texts are two
/// different paths.
pub open spec fn plain_path(p: Seq<char>) -> bool {
    &&& !has_char(p, '\\')
    &&& !has_char(p, ':')
    &&& !has_char(p, '.')
    &&& !has_sub(p, "//"@)
    &&& !(p.len() > 0 && p.last() == '/')
}

/// `<Path as PartialEq>::eq` on two paths, which compares them component by
/// component under the platform's path rules (on Windows `a\\b` equals
/// `a/b`, elsewhere not). Equal texts are equal paths, and two different
/// `plain_path` texts, whose components are their slash-separated names on
/// every platform, are different paths; nothing more is stated of it.
#[verifier::external_body]
fn paths_equal(a: &str, b: &str) -> (r: bool)
    ensures
        a@ == b@ ==> r,
        plain_path(a@) && plain_path(b@) && a@ != b@ ==> !r,
{
    std::path::Path::new(a) == std::path::Path::new(b)
}

pub open spec fn opt_effect(e: Option<UnityEffect>) -> Option<EffectView> {
    match e {
        Some(x) => Some(x@),
        None => None,
    }
}

/// The label of the guided loop while it runs step `next`, with `left`
/// steps after it.
pub open spec fn guide_label_of(next: UnityAction, left: nat) -> Seq<char> {
    let idx: nat = if left >= 3 {
        0
    } else {
        (3 - left) as nat
    };
    "闭环 "@ + dec(idx) + "/"@ + dec(left + 1) + " · "@ + action_label(next)
}

/// The panel at monotonic time `now_ms` once the guided loop had its turn,
/// and what the caller is to do (`None` when nothing happened).
pub open spec fn guide_tick(v: UnityView, now_ms: u64) -> (UnityView, Option<EffectView>) {
    if v.busy || v.guide_queue.len() == 0 {
        (v, None)
    } else if v.guide_next_at matches Some(at) && now_ms < at {
        (v, None)
    } else {
        let next = v.guide_queue[0];
        let rest = v.guide_queue.drop_first();
        let v1 = UnityView {
            guide_queue: rest,
            guide_label: Some(guide_label_of(next, rest.len())),
            guide_next_at: None,
            ..v
        };
        let (v2, e) = action_run(v1, next, now_ms);
        (v2, Some(e))
    }
}

/// Two different `plain_path` texts: different paths on every platform.
pub open spec fn plainly_different(a: Seq<char>, b: Seq<char>) -> bool {
    plain_path(a) && plain_path(b) && a != b
}

/// The path that binding `path` binds: the Unity root found at or above it,
/// else the path itself.
pub open spec fn resolved_path(path: Seq<char>, root: Option<Seq<char>>) -> Seq<char> {
    match root {
        Some(r) => r,
        None => path,
    }
}

/// The panel after the user binds `path`, where `root` is the Unity root
/// found at or above it and `root_ok` whether the path bound in the end is
/// a Unity project root; and whether that choice is to be saved.
/// `same_as_bound` tells whether the resolved path is the bound one and
/// `same_as_given` whether it is `path`, as the platform compares paths.
pub open spec fn project_set(
    v: UnityView,
    path: Seq<char>,
    root: Option<Seq<char>>,
    root_ok: bool,
    same_as_bound: bool,
    same_as_given: bool,
) -> (UnityView, bool) {
    let resolved = resolved_path(path, root);
    if same_as_bound {
        (v, false)
    } else {
        let v1 = if !same_as_given {
            UnityView { toast: Some("已自动定位工程根："@ + resolved + "（原路径在子目录内）"@), ..v }
        } else {
            v
        };
        let v2 = UnityView { project_path: resolved, project_locked: root_ok, ..v1 };
        let v3 = if v2.pipeline_status == PipelineStatus::Installed {
            UnityView {
                pipeline_status: PipelineStatus::Unknown,
                pipeline_summary: "项目已切换，请刷新 Pipeline"@,
                ..v2
            }
        } else {
            v2
        };
        (synced(UnityView { editor_link: EditorLinkStatus::Unknown, ..v3 }, root_ok), root_ok)
    }
}

/// The panel after the agent's folder became `cwd`: `project_ok` tells
/// whether the bound project is a Unity root, `root` is the Unity root found
/// at or above `cwd`, `cwd_ok` whether `cwd` itself is one. The second part
/// is a root the caller is to bind with `set_project_path`.
pub open spec fn cwd_considered(
    v: UnityView,
    cwd: Seq<char>,
    project_ok: bool,
    root: Option<Seq<char>>,
    cwd_ok: bool,
) -> (UnityView, Option<Seq<char>>) {
    if v.project_locked && project_ok {
        (v, None)
    } else if root is Some {
        (v, root)
    } else if !project_ok {
        (synced(UnityView { project_path: cwd, project_locked: false, ..v }, cwd_ok), None)
    } else {
        (v, None)
    }
}

/// The panel after the wizard's main button, at monotonic time `now_ms`.
pub open spec fn setup_primary(v: UnityView, project_ok: bool, now_ms: u64) -> (UnityView, EffectView) {
    let step = match v.setup_focus {
        Some(s) => s,
        None => v.setup_step,
    };
    match step {
        SetupStep::InstallCli | SetupStep::DetectCli => action_run(
            v,
            UnityAction::RefreshDetect,
            now_ms,
        ),
        SetupStep::PickProject => if project_ok {
            (
                synced(UnityView { toast: Some("Unity 工程已确认，进入下一步"@), ..v }, true),
                EffectView::Nothing,
            )
        } else {
            (
                UnityView {
                    toast: Some(
                        "请点「选择 Unity 工程根目录」选含 Assets 的文件夹（不要用 task worktree）"@,
                    ),
                    ..v
                },
                EffectView::Nothing,
            )
        },
        SetupStep::InstallPipeline => action_run(v, UnityAction::InstallPipeline, now_ms),
        SetupStep::ProbeEditor => action_run(v, UnityAction::ProbeEditor, now_ms),
        SetupStep::RunLoop => action_run(v, UnityAction::RunFullLoop, now_ms),
    }
}

/// The reply to the chat after a panel action: the newest history entry
/// unless it is the one with id `previous`, else the panel's status.
pub open spec fn chat_result(v: UnityView, previous: u64) -> Seq<char> {
    if v.history.len() > 0 && v.history[0].id != previous {
        let r = v.history[0];
        if r.ok {
            "Unity 操作已完成："@ + r.title + "。"@ + r.summary + "（"@ + dec(r.elapsed_ms as nat)
                + " ms）"@
        } else {
            "Unity 操作失败："@ + r.title + "。"@ + r.summary
        }
    } else {
        "Unity 状态已刷新：CLI "@ + cli_label(v.status) + "，Pipeline "@ + pipeline_label(
            v.pipeline_status,
        ) + "，编辑器"@ + link_label(v.editor_link) + "。"@
    }
}

pub open spec fn latest_line(v: UnityView) -> Seq<char> {
    if v.history.len() > 0 {
        phase_label(v.history[0].phase) + " · "@ + v.history[0].title + " · "@
            + v.history[0].summary
    } else {
        "尚无操作记录"@
    }
}

/// The panel's state for the coding agent, with the rule that it runs no
/// Unity command itself.
pub open spec fn briefing(v: UnityView, project_ok: bool) -> Seq<char> {
    "【只读分析，禁止执行任何 unity / pipeline / command eval 终端命令】\n\n当前 Unity 面板状态（"@ + (
    if v.demo_mode {
        "演示"@
    } else {
        "实机"@
    }) + "）：\n- CLI: "@ + cli_label(v.status) + "\n- 绑定工程: "@ + cli_spelling(
        v.project_path,
        v.windows,
    ) + (
    if project_ok {
        Seq::empty()
    } else {
        "（非 Unity 工程根；聊天任务目录无效）"@
    }) + "\n- Pipeline: "@ + pipeline_label(v.pipeline_status) + " · "@ + v.pipeline_summary
        + "\n- 编辑器连接: "@ + link_label(v.editor_link) + "\n- 阶段: "@ + phase_label(
        v.loop_phase,
    ) + "\n- 场景: "@ + scene_line(v.scene) + "\n- 备注: "@ + v.scene.note + "\n- 最近面板操作: "@
        + latest_line(v)
        + "\n\n请只向用户解释现状与下一步；所有安装/探测/闭环必须让用户在侧栏「Unity CLI」引导页点按钮完成，不要使用 run_terminal_cmd、bash、Shell 调用 unity。"@
}

pub open spec fn latest_short(v: UnityView) -> Seq<char> {
    if v.history.len() > 0 {
        v.history[0].title + " / "@ + v.history[0].summary
    } else {
        "无"@
    }
}

/// The short state line for the "analyze in chat" action.
pub open spec fn compact_briefing(v: UnityView) -> Seq<char> {
    "你正在分析 Bony Build 的 Unity 面板快照。只读分析，禁止调用终端、unity、pipeline、command 或 eval。\n状态：CLI="@
        + cli_label(v.status) + "；项目="@ + v.project_path + "；Pipeline="@ + pipeline_label(
        v.pipeline_status,
    ) + "（"@ + v.pipeline_summary + "）；编辑器="@ + link_label(v.editor_link) + "；阶段="@
        + phase_label(v.loop_phase) + "；场景="@ + scene_line(v.scene) + "；最近操作="@
        + latest_short(v)
        + "。\n回答规则：不要逐项复述快照；先用一句话给出结论，再给最多 3 条可操作建议；若状态正常，明确说“连接正常”，不要建议重启、重装或登录；总计不超过 120 个汉字。"@
}

impl UnityState {
    /// Lets the guided loop take its next step when it is due at monotonic
    /// time `now_ms`; `None` when nothing happened.
    pub fn tick_guide(&mut self, now_ms: u64) -> (r: Option<UnityEffect>)
        ensures
            (final(self)@, opt_effect(r)) == guide_tick(old(self)@, now_ms),
    {
        if self.busy || self.guide_queue.len() == 0 {
            return None;
        }
        if let Some(at) = self.guide_next_at {
            if now_ms < at {
                return None;
            }
        }
        let ghost q = self.guide_queue@;
        let next = self.guide_queue.remove(0);
        assert(self.guide_queue@ =~= q.drop_first());
        let left = self.guide_queue.len();
        let idx: usize = if left >= 3 {
            0
        } else {
            3 - left
        };
        let mut label = chars_of("闭环 ");
        let a = decimal(idx as u64);
        push_chars(&mut label, &a);
        push_str(&mut label, "/");
        let b = decimal(left as u64 + 1);
        push_chars(&mut label, &b);
        push_str(&mut label, " · ");
        push_str(&mut label, next.label());
        self.guide_label = Some(string_of(&label));
        self.guide_next_at = None;
        Some(self.run_action(next, now_ms))
    }

    /// Binds `path`; `root` is the Unity root found at or above it and
    /// `root_ok` whether the path bound in the end is a Unity project root.
    /// True when the choice is to be saved.
    /// The paths are compared as `std::path::Path` does on this platform;
    /// equal texts always count as the same path.
    pub fn set_project_path(&mut self, path: String, root: Option<String>, root_ok: bool) -> (save: bool)
        ensures
            exists|same_as_bound: bool, same_as_given: bool|
                #![trigger project_set(old(self)@, path@, sv(root), root_ok, same_as_bound, same_as_given)]
                (old(self)@.project_path == resolved_path(path@, sv(root)) ==> same_as_bound)
                    && (plainly_different(old(self)@.project_path, resolved_path(path@, sv(root)))
                    ==> !same_as_bound) && (resolved_path(path@, sv(root)) == path@
                    ==> same_as_given) && (plainly_different(resolved_path(path@, sv(root)), path@)
                    ==> !same_as_given)
                    && (final(self)@, save) == project_set(
                    old(self)@,
                    path@,
                    sv(root),
                    root_ok,
                    same_as_bound,
                    same_as_given,
                ),
    {
        let resolved = match &root {
            Some(r) => r.clone(),
            None => path.clone(),
        };
        let same_as_bound = paths_equal(self.project_path.as_str(), resolved.as_str());
        let same_as_given = paths_equal(resolved.as_str(), path.as_str());
        let ghost before = self@;
        let save = self.bind_project(path, root, root_ok, same_as_bound, same_as_given);
        assert((self@, save) == project_set(before, path@, sv(root), root_ok, same_as_bound, same_as_given));
        save
    }

    /// Binds `path` (see `project_set`), with `same_as_bound` and
    /// `same_as_given` the platform's comparison of the resolved path with the
    /// bound one and with `path`. True when the choice is to be saved.
    pub fn bind_project(
        &mut self,
        path: String,
        root: Option<String>,
        root_ok: bool,
        same_as_bound: bool,
        same_as_given: bool,
    ) -> (save: bool)
        ensures
            (final(self)@, save) == project_set(
                old(self)@,
                path@,
                sv(root),
                root_ok,
                same_as_bound,
                same_as_given,
            ),
    {
        let resolved = match root {
            Some(r) => r,
            None => path.clone(),
        };
        if same_as_bound {
            return false;
        }
        if !same_as_given {
            let mut t = chars_of("已自动定位工程根：");
            push_str(&mut t, resolved.as_str());
            push_str(&mut t, "（原路径在子目录内）");
            self.toast = Some(string_of(&t));
        }
        self.project_path = resolved;
        self.project_locked = root_ok;
        if self.pipeline_status == PipelineStatus::Installed {
            self.pipeline_status = PipelineStatus::Unknown;
            self.pipeline_summary = "项目已切换，请刷新 Pipeline".to_owned();
        }
        self.editor_link = EditorLinkStatus::Unknown;
        self.sync_setup_step(root_ok);
        root_ok
    }

    /// Takes in the agent's folder `cwd` (see `cwd_considered`); returns a
    /// Unity root for the caller to bind with `set_project_path`.
    pub fn consider_agent_cwd(
        &mut self,
        cwd: String,
        project_ok: bool,
        root: Option<String>,
        cwd_ok: bool,
    ) -> (adopt: Option<String>)
        ensures
            (final(self)@, sv(adopt)) == cwd_considered(old(self)@, cwd@, project_ok, sv(root), cwd_ok),
    {
        if self.project_locked && project_ok {
            return None;
        }
        if root.is_some() {
            return root;
        }
        if !project_ok {
            self.project_path = cwd;
            self.project_locked = false;
            self.sync_setup_step(cwd_ok);
        }
        None
    }

    /// The wizard's main button for the step shown open, at monotonic time
    /// `now_ms`; `project_ok` tells whether the bound path is a Unity root.
    pub fn run_setup_primary(&mut self, project_ok: bool, now_ms: u64) -> (e: UnityEffect)
        ensures
            (final(self)@, e@) == setup_primary(old(self)@, project_ok, now_ms),
    {
        match self.focused_setup_step() {
            SetupStep::InstallCli | SetupStep::DetectCli => {
                self.run_action(UnityAction::RefreshDetect, now_ms)
            },
            SetupStep::PickProject => {
                if project_ok {
                    self.toast = Some("Unity 工程已确认，进入下一步".to_owned());
                    self.sync_setup_step(true);
                } else {
                    self.toast = Some(
                        "请点「选择 Unity 工程根目录」选含 Assets 的文件夹（不要用 task worktree）".to_owned(),
                    );
                }
                UnityEffect::Nothing
            },
            SetupStep::InstallPipeline => self.run_action(UnityAction::InstallPipeline, now_ms),
            SetupStep::ProbeEditor => self.run_action(UnityAction::ProbeEditor, now_ms),
            SetupStep::RunLoop => self.run_action(UnityAction::RunFullLoop, now_ms),
        }
    }

    /// The wizard's checklist: `(item, done, detail)`.
    pub fn checklist(&self, project_ok: bool) -> (r: Vec<(&'static str, bool, String)>)
        ensures
            r@.len() == 4,
            r@[0].0@ == "Unity CLI"@ && r@[0].1 == (self.status == CliStatus::Ready) && r@[0].2@
                == (if self.status == CliStatus::Ready {
                "已就绪"@
            } else {
                cli_label(self.status)
            }),
            r@[1].0@ == "项目路径"@ && r@[1].1 == project_ok && r@[1].2@ == (if project_ok {
                self.project_path@
            } else {
                self.project_path@ + "（非 Unity 工程根，请在引导里重新选择）"@
            }),
            r@[2].0@ == "Pipeline 包"@ && r@[2].1 == (self.pipeline_status
                == PipelineStatus::Installed) && r@[2].2@ == pipeline_label(self.pipeline_status)
                + " · "@ + self.pipeline_summary@,
            r@[3].0@ == "编辑器响应"@ && r@[3].1 == (self.editor_link
                == EditorLinkStatus::Connected) && r@[3].2@ == link_label(self.editor_link) + " · "@
                + self.commands_summary@,
    {
        let ready = self.status == CliStatus::Ready;
        let cli_detail = if ready {
            "已就绪".to_owned()
        } else {
            self.status.label().to_owned()
        };
        let mut p = chars_of(self.project_path.as_str());
        if !project_ok {
            push_str(&mut p, "（非 Unity 工程根，请在引导里重新选择）");
        }
        let mut pl = chars_of(self.pipeline_status.label());
        push_str(&mut pl, " · ");
        push_str(&mut pl, self.pipeline_summary.as_str());
        let mut ed = chars_of(self.editor_link.label());
        push_str(&mut ed, " · ");
        push_str(&mut ed, self.commands_summary.as_str());
        let mut v: Vec<(&'static str, bool, String)> = Vec::new();
        v.push(("Unity CLI", ready, cli_detail));
        v.push(("项目路径", project_ok, string_of(&p)));
        v.push(("Pipeline 包", self.pipeline_status == PipelineStatus::Installed, string_of(&pl)));
        v.push(("编辑器响应", self.editor_link == EditorLinkStatus::Connected, string_of(&ed)));
        v
    }

    /// The chat reply that is due now: a Unity request from the chat is
    /// pending (`pending` holds the newest record id when it was sent), the
    /// panel just changed, it is not busy and no guided loop runs; the reply
    /// is `chat_result` since that id. The caller clears the pending request
    /// when one is given.
    pub fn chat_result_due(&self, pending: Option<u64>, changed: bool) -> (r: Option<String>)
        ensures
            match pending {
                Some(p) => if changed && !self.busy && !(self.guide_queue@.len() > 0
                    || self.guide_label is Some) {
                    r matches Some(t) && t@ == chat_result(self@, p)
                } else {
                    r is None
                },
                None => r is None,
            },
    {
        match pending {
            Some(p) => {
                if changed && !self.busy && !self.is_guiding() {
                    Some(self.latest_chat_result_since(p))
                } else {
                    None
                }
            },
            None => None,
        }
    }

    /// The chat reply after a panel action (see `chat_result`).
    pub fn latest_chat_result_since(&self, previous_id: u64) -> (r: String)
        ensures
            r@ == chat_result(self@, previous_id),
    {
        let mut out: Vec<char>;
        if self.history.len() > 0 && self.history[0].id != previous_id {
            let r = &self.history[0];
            assert(record_views(self.history@)[0] == r@);
            if r.ok {
                out = chars_of("Unity 操作已完成：");
                push_str(&mut out, r.title.as_str());
                push_str(&mut out, "。");
                push_str(&mut out, r.summary.as_str());
                push_str(&mut out, "（");
                let d = decimal(r.elapsed_ms);
                push_chars(&mut out, &d);
                push_str(&mut out, " ms）");
            } else {
                out = chars_of("Unity 操作失败：");
                push_str(&mut out, r.title.as_str());
                push_str(&mut out, "。");
                push_str(&mut out, r.summary.as_str());
            }
        } else {
            out = chars_of("Unity 状态已刷新：CLI ");
            push_str(&mut out, self.status.label());
            push_str(&mut out, "，Pipeline ");
            push_str(&mut out, self.pipeline_status.label());
            push_str(&mut out, "，编辑器");
            push_str(&mut out, self.editor_link.label());
            push_str(&mut out, "。");
        }
        string_of(&out)
    }

    fn latest_text(&self) -> (r: Vec<char>)
        ensures
            r@ == latest_line(self@),
    {
        if self.history.len() > 0 {
            let r = &self.history[0];
            assert(record_views(self.history@)[0] == r@);
            let mut out = chars_of(r.phase.label());
            push_str(&mut out, " · ");
            push_str(&mut out, r.title.as_str());
            push_str(&mut out, " · ");
            push_str(&mut out, r.summary.as_str());
            out
        } else {
            chars_of("尚无操作记录")
        }
    }

    /// The panel's state for the coding agent; `project_ok` tells whether
    /// the bound path is a Unity project root.
    #[verifier::spinoff_prover]
    #[verifier::rlimit(40)]
    pub fn chat_briefing(&self, project_ok: bool) -> (r: String)
        ensures
            r@ == briefing(self@, project_ok),
    {
        let latest = self.latest_text();
        let scene = self.scene.status_line();
        let mut out = chars_of("【只读分析，禁止执行任何 unity / pipeline / command eval 终端命令】\n\n当前 Unity 面板状态（");
        push_str(
            &mut out,
            if self.demo_mode {
                "演示"
            } else {
                "实机"
            },
        );
        push_str(&mut out, "）：\n- CLI: ");
        push_str(&mut out, self.status.label());
        push_str(&mut out, "\n- 绑定工程: ");
        let shown = cli_path_for(self.project_path.as_str(), self.windows);
        push_str(&mut out, shown.as_str());
        if !project_ok {
            push_str(&mut out, "（非 Unity 工程根；聊天任务目录无效）");
        }
        push_str(&mut out, "\n- Pipeline: ");
        push_str(&mut out, self.pipeline_status.label());
        push_str(&mut out, " · ");
        push_str(&mut out, self.pipeline_summary.as_str());
        push_str(&mut out, "\n- 编辑器连接: ");
        push_str(&mut out, self.editor_link.label());
        push_str(&mut out, "\n- 阶段: ");
        push_str(&mut out, self.loop_phase.label());
        push_str(&mut out, "\n- 场景: ");
        push_str(&mut out, scene.as_str());
        push_str(&mut out, "\n- 备注: ");
        push_str(&mut out, self.scene.note.as_str());
        push_str(&mut out, "\n- 最近面板操作: ");
        push_chars(&mut out, &latest);
        push_str(
            &mut out,
            "\n\n请只向用户解释现状与下一步；所有安装/探测/闭环必须让用户在侧栏「Unity CLI」引导页点按钮完成，不要使用 run_terminal_cmd、bash、Shell 调用 unity。",
        );
        string_of(&out)
    }

    /// The short state line for the "analyze in chat" action.
    pub fn compact_chat_briefing(&self) -> (r: String)
        ensures
            r@ == compact_briefing(self@),
    {
        let latest: Vec<char> = if self.history.len() > 0 {
            let r = &self.history[0];
            assert(record_views(self.history@)[0] == r@);
            let mut l = chars_of(r.title.as_str());
            push_str(&mut l, " / ");
            push_str(&mut l, r.summary.as_str());
            l
        } else {
            chars_of("无")
        };
        let scene = self.scene.status_line();
        let mut out = chars_of("你正在分析 Bony Build 的 Unity 面板快照。只读分析，禁止调用终端、unity、pipeline、command 或 eval。\n状态：CLI=");
        push_str(&mut out, self.status.label());
        push_str(&mut out, "；项目=");
        push_str(&mut out, self.project_path.as_str());
        push_str(&mut out, "；Pipeline=");
        push_str(&mut out, self.pipeline_status.label());
        push_str(&mut out, "（");
        push_str(&mut out, self.pipeline_summary.as_str());
        push_str(&mut out, "）；编辑器=");
        push_str(&mut out, self.editor_link.label());
        push_str(&mut out, "；阶段=");
        push_str(&mut out, self.loop_phase.label());
        push_str(&mut out, "；场景=");
        push_str(&mut out, scene.as_str());
        push_str(&mut out, "；最近操作=");
        push_chars(&mut out, &latest);
        push_str(
            &mut out,
            "。\n回答规则：不要逐项复述快照；先用一句话给出结论，再给最多 3 条可操作建议；若状态正常，明确说“连接正常”，不要建议重启、重装或登录；总计不超过 120 个汉字。",
        );
        string_of(&out)
    }
}

/// The history holds at most `HISTORY_LIMIT` entries, newest first, each
/// with an id below the next one to be given.
pub open spec fn history_ok(v: UnityView) -> bool {
    &&& v.history.len() <= HISTORY_LIMIT
    &&& forall|i: int, j: int|
        0 <= i < j < v.history.len() ==> #[trigger] v.history[j].id < #[trigger] v.history[i].id
    &&& forall|i: int| 0 <= i < v.history.len() ==> #[trigger] v.history[i].id < v.next_id
}

/// A finished call goes to the front of the history under the next id, and
/// the history stays bounded and ordered.
pub proof fn lemma_command_done_history(
    v: UnityView,
    d: DoneView,
    now: u64,
    now_ms: u64,
    f: ProjectFacts,
)
    requires
        history_ok(v),
        v.next_id < u64::MAX,
    ensures
        history_ok(command_done(v, d, now, now_ms, f)),
        command_done(v, d, now, now_ms, f).history[0] == record_of(v, d, now),
        command_done(v, d, now, now_ms, f).next_id == v.next_id + 1,
        !command_done(v, d, now, now_ms, f).busy,
{
    let w = command_done(v, d, now, now_ms, f);
    let h2 = seq![record_of(v, d, now)] + v.history;
    assert(w.history == with_record(v.history, record_of(v, d, now)));
    assert forall|i: int, j: int| 0 <= i < j < w.history.len() implies #[trigger] w.history[j].id
        < #[trigger] w.history[i].id by {
        assert(w.history[i] == h2[i] && w.history[j] == h2[j]);
        if i > 0 {
            assert(h2[i] == v.history[i - 1] && h2[j] == v.history[j - 1]);
        } else {
            assert(h2[j] == v.history[j - 1]);
        }
    }
    assert forall|i: int| 0 <= i < w.history.len() implies #[trigger] w.history[i].id
        < w.next_id by {
        assert(w.history[i] == h2[i]);
        if i > 0 {
            assert(h2[i] == v.history[i - 1]);
        }
    }
}

/// Only a finished call changes the history: asking for an action, the
/// guided loop's turn, binding a project and the wizard leave it as it was.
pub proof fn lemma_actions_keep_history(v: UnityView, a: UnityAction, now_ms: u64)
    ensures
        action_run(v, a, now_ms).0.history == v.history,
        action_run(v, a, now_ms).0.next_id == v.next_id,
        guide_tick(v, now_ms).0.history == v.history,
        guide_tick(v, now_ms).0.next_id == v.next_id,
{
    if !(v.busy || v.guide_queue.len() == 0) && !(v.guide_next_at matches Some(at) && now_ms
        < at) {
        let next = v.guide_queue[0];
        let rest = v.guide_queue.drop_first();
        let v1 = UnityView {
            guide_queue: rest,
            guide_label: Some(guide_label_of(next, rest.len())),
            guide_next_at: None,
            ..v
        };
        assert(guide_tick(v, now_ms).0 == action_run(v1, next, now_ms).0);
    }
}

/// A busy panel takes no action but the guided loop; an action that starts
/// a call leaves the panel busy until the call comes back.
pub proof fn lemma_busy_gate(v: UnityView, a: UnityAction, now_ms: u64)
    ensures
        v.busy && !(a is RunFullLoop) ==> action_run(v, a, now_ms) == (v, EffectView::Nothing),
        (action_run(v, a, now_ms).1 is Run || action_run(v, a, now_ms).1 is Demo) ==> action_run(
            v,
            a,
            now_ms,
        ).0.busy,
        action_run(v, a, now_ms).1 is Detect ==> action_run(v, a, now_ms).0.busy
            && action_run(v, a, now_ms).0.status == CliStatus::Checking,
{
}

/// From an idle panel with no loop under way, the guided loop queues its
/// observe, act and verify steps in that order and restarts the scene.
pub proof fn lemma_full_loop_queue(v: UnityView, now_ms: u64)
    requires
        !v.busy,
        v.guide_queue.len() == 0,
    ensures
        action_run(v, UnityAction::RunFullLoop, now_ms).0.guide_queue == seq![
            UnityAction::ObserveCollider,
            UnityAction::FixCollider,
            UnityAction::EnterPlayMode,
        ],
        action_run(v, UnityAction::RunFullLoop, now_ms).0.scene == loop_start_scene(),
        action_run(v, UnityAction::RunFullLoop, now_ms).0.guide_label is Some,
        action_run(v, UnityAction::RunFullLoop, now_ms).1 is Nothing,
{
}

} // verus!
