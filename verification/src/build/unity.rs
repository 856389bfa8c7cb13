//! Unity CLI control from the chat: status labels, the chat command table,
//! natural-language scene commands, CLI argument lists and the parsing of
//! the CLI's textual output.

use vstd::prelude::*;
use vstd::slice::slice_subrange;
use vstd::slice::slice_to_vec;
use vstd::utf8::encode_utf8;
use crate::clock::now_unix;
use crate::json::{
    json_array_len, json_array_length, json_at, json_bool_at, json_dump_at, json_pointer_bool,
    json_pointer_dump,
    json_pointer_text, opt_string_view,
};
use crate::text::{
    find_char, find_char_from, rfind, rfind_chars,
    ascii_lower_seq, ascii_lowercase, is_digit, is_ascii_digit, lines, lines_of, words, words_of,
    contains_char, has_char, push_owned, push_string, starts_with, starts_with_str, sviews,
    eq_str, join, join_with, views,
    dec, decimal, digit_run, first_digit_run, parse_uint, parse_unsigned, push_chars, push_str,
    chars_eq, chars_of, contains_str, has_sub, lowercase, string_of, strip_ws, trim, trimmed,
    unicode_lowercase, without_whitespace, is_ws, lemma_strip_ws_clean,
};

verus! {

#[derive(Debug, Clone, Copy, PartialEq, Eq, Structural)]
pub enum CliStatus {
    Unknown,
    Checking,
    Missing,
    Ready,
    Error,
}

impl CliStatus {
    pub fn label(self) -> (r: &'static str)
        ensures
            r@ == (match self {
                CliStatus::Unknown | CliStatus::Checking => "检测中"@,
                CliStatus::Missing => "未安装"@,
                CliStatus::Ready => "已就绪"@,
                CliStatus::Error => "异常"@,
            }),
    {
        match self {
            CliStatus::Unknown | CliStatus::Checking => "检测中",
            CliStatus::Missing => "未安装",
            CliStatus::Ready => "已就绪",
            CliStatus::Error => "异常",
        }
    }
}

#[derive(Debug, Clone, Copy, PartialEq, Eq, Structural)]
pub enum LoopPhase {
    Observe,
    Act,
    Verify,
}

impl LoopPhase {
    pub fn label(self) -> (r: &'static str)
        ensures
            r@ == (match self {
                LoopPhase::Observe => "观察"@,
                LoopPhase::Act => "行动"@,
                LoopPhase::Verify => "验证"@,
            }),
    {
        match self {
            LoopPhase::Observe => "观察",
            LoopPhase::Act => "行动",
            LoopPhase::Verify => "验证",
        }
    }

    pub fn blurb(self) -> (r: &'static str)
        ensures
            r@ == (match self {
                LoopPhase::Observe => "读取现场状态：场景、碰撞体、Play Mode"@,
                LoopPhase::Act => "通过 command / eval 热修复，无需域重载"@,
                LoopPhase::Verify => "重进 Play Mode，确认结果并回报 agent"@,
            }),
    {
        match self {
            LoopPhase::Observe => "读取现场状态：场景、碰撞体、Play Mode",
            LoopPhase::Act => "通过 command / eval 热修复，无需域重载",
            LoopPhase::Verify => "重进 Play Mode，确认结果并回报 agent",
        }
    }

    pub open spec fn spec_next(self) -> LoopPhase {
        match self {
            LoopPhase::Observe => LoopPhase::Act,
            LoopPhase::Act => LoopPhase::Verify,
            LoopPhase::Verify => LoopPhase::Observe,
        }
    }

    /// The phase that follows in the observe → act → verify cycle.
    pub fn next(self) -> (r: LoopPhase)
        ensures
            r == self.spec_next(),
    {
        match self {
            LoopPhase::Observe => LoopPhase::Act,
            LoopPhase::Act => LoopPhase::Verify,
            LoopPhase::Verify => LoopPhase::Observe,
        }
    }
}

/// Three steps of the loop lead back to the phase one started from, and no
/// fewer do.
pub proof fn lemma_loop_phase_cycle(p: LoopPhase)
    ensures
        p.spec_next().spec_next().spec_next() == p,
        p.spec_next() != p,
        p.spec_next().spec_next() != p,
{
}

#[derive(Debug, Clone, Copy, PartialEq, Eq, Structural)]
pub enum PipelineStatus {
    Unknown,
    Checking,
    NotInstalled,
    Installing,
    PendingImport,
    Installed,
    Error,
}

impl PipelineStatus {
    pub fn label(self) -> (r: &'static str)
        ensures
            r@ == (match self {
                PipelineStatus::Unknown => "未知"@,
                PipelineStatus::Checking => "检查中"@,
                PipelineStatus::NotInstalled => "未安装"@,
                PipelineStatus::Installing => "安装中"@,
                PipelineStatus::PendingImport => "等待编辑器加载"@,
                PipelineStatus::Installed => "已安装"@,
                PipelineStatus::Error => "异常"@,
            }),
    {
        match self {
            PipelineStatus::Unknown => "未知",
            PipelineStatus::Checking => "检查中",
            PipelineStatus::NotInstalled => "未安装",
            PipelineStatus::Installing => "安装中",
            PipelineStatus::PendingImport => "等待编辑器加载",
            PipelineStatus::Installed => "已安装",
            PipelineStatus::Error => "异常",
        }
    }
}

#[derive(Debug, Clone, Copy, PartialEq, Eq, Structural)]
pub enum EditorLinkStatus {
    Unknown,
    Checking,
    Disconnected,
    Connected,
}

impl EditorLinkStatus {
    pub fn label(self) -> (r: &'static str)
        ensures
            r@ == (match self {
                EditorLinkStatus::Unknown => "未知"@,
                EditorLinkStatus::Checking => "探测中"@,
                EditorLinkStatus::Disconnected => "未连接"@,
                EditorLinkStatus::Connected => "已连接"@,
            }),
    {
        match self {
            EditorLinkStatus::Unknown => "未知",
            EditorLinkStatus::Checking => "探测中",
            EditorLinkStatus::Disconnected => "未连接",
            EditorLinkStatus::Connected => "已连接",
        }
    }
}

#[derive(Debug, Clone, Copy, PartialEq, Eq, Structural)]
pub enum UnityAction {
    RefreshDetect,
    ListEditors,
    ListPipeline,
    InstallPipeline,
    ListCommands,
    ProbeEditor,
    Eval,
    ObserveCollider,
    FixCollider,
    EnterPlayMode,
    ExitPlayMode,
    RunFullLoop,
}

impl UnityAction {
    pub fn label(self) -> (r: &'static str)
        ensures
            r@ == (match self {
                UnityAction::RefreshDetect => "重新检测"@,
                UnityAction::ListEditors => "列出编辑器"@,
                UnityAction::ListPipeline => "刷新 Pipeline"@,
                UnityAction::InstallPipeline => "安装 Pipeline"@,
                UnityAction::ListCommands => "发现命令"@,
                UnityAction::ProbeEditor => "探测编辑器"@,
                UnityAction::Eval => "运行 Eval"@,
                UnityAction::ObserveCollider => "观察碰撞体"@,
                UnityAction::FixCollider => "修复碰撞体"@,
                UnityAction::EnterPlayMode => "进入 Play"@,
                UnityAction::ExitPlayMode => "退出 Play"@,
                UnityAction::RunFullLoop => "跑完整闭环"@,
            }),
    {
        match self {
            UnityAction::RefreshDetect => "重新检测",
            UnityAction::ListEditors => "列出编辑器",
            UnityAction::ListPipeline => "刷新 Pipeline",
            UnityAction::InstallPipeline => "安装 Pipeline",
            UnityAction::ListCommands => "发现命令",
            UnityAction::ProbeEditor => "探测编辑器",
            UnityAction::Eval => "运行 Eval",
            UnityAction::ObserveCollider => "观察碰撞体",
            UnityAction::FixCollider => "修复碰撞体",
            UnityAction::EnterPlayMode => "进入 Play",
            UnityAction::ExitPlayMode => "退出 Play",
            UnityAction::RunFullLoop => "跑完整闭环",
        }
    }
}

/// One entry of the operation history.
#[derive(Debug, Clone)]
pub struct OpRecord {
    pub id: u64,
    pub title: String,
    pub command: String,
    pub phase: LoopPhase,
    pub ok: bool,
    pub summary: String,
    pub detail: String,
    pub at_unix: u64,
    pub elapsed_ms: u64,
}

pub const EVAL_PLAYING: &'static str = "return UnityEditor.EditorApplication.isPlaying;";

pub const EVAL_VERSION: &'static str = "return Application.version;";

pub const EVAL_DATA_PATH: &'static str = "return Application.dataPath;";

pub const EVAL_COLLIDER: &'static str = "var go = GameObject.Find(\"Ground\"); var c = go != null ? go.GetComponent<Collider>() : null; return c != null && c.enabled;";

pub const CREATE_SPHERE_EVAL: &'static str = "var go = GameObject.Find(\"BonySphere\"); if (go == null) { go = GameObject.CreatePrimitive(PrimitiveType.Sphere); go.name = \"BonySphere\"; } go.transform.position = Vector3.zero; UnityEditor.Selection.activeGameObject = go; UnityEditor.SceneManagement.EditorSceneManager.MarkSceneDirty(go.scene); return go.name;";

/// The Eval presets offered in the panel: `(label, C# expression)`.
pub fn eval_presets() -> (r: Vec<(&'static str, &'static str)>)
    ensures
        r@.len() == 4,
        r@[0].0@ == "Play?"@ && r@[0].1@ == EVAL_PLAYING@,
        r@[1].0@ == "Version"@ && r@[1].1@ == EVAL_VERSION@,
        r@[2].0@ == "DataPath"@ && r@[2].1@ == EVAL_DATA_PATH@,
        r@[3].0@ == "Collider"@ && r@[3].1@ == EVAL_COLLIDER@,
{
    let mut v = Vec::new();
    v.push(("Play?", EVAL_PLAYING));
    v.push(("Version", EVAL_VERSION));
    v.push(("DataPath", EVAL_DATA_PATH));
    v.push(("Collider", EVAL_COLLIDER));
    v
}

/// A chat phrase or slash command that drives the local Unity CLI without
/// going through the coding agent.
#[derive(Debug, Clone)]
pub struct UnityChatCmd {
    pub chip: &'static str,
    pub slash: &'static str,
    pub action: UnityAction,
    pub eval: Option<&'static str>,
    /// Compact phrases (no spaces), matched by containment after
    /// normalisation.
    pub phrases: Vec<&'static str>,
}

/// What a chat command holds, as character sequences.
pub struct ChatCmdSpec {
    pub chip: Seq<char>,
    pub slash: Seq<char>,
    pub action: UnityAction,
    pub eval: Option<Seq<char>>,
    pub phrases: Seq<Seq<char>>,
}

pub open spec fn opt_view(o: Option<&'static str>) -> Option<Seq<char>> {
    match o {
        Some(s) => Some(s@),
        None => None,
    }
}

impl View for UnityChatCmd {
    type V = ChatCmdSpec;

    open spec fn view(&self) -> ChatCmdSpec {
        ChatCmdSpec {
            chip: self.chip@,
            slash: self.slash@,
            action: self.action,
            eval: opt_view(self.eval),
            phrases: self.phrases@.map_values(|p: &'static str| p@),
        }
    }
}

pub open spec fn spec_cmd(
    chip: &'static str,
    slash: &'static str,
    action: UnityAction,
    eval: Option<&'static str>,
    phrases: Seq<&'static str>,
) -> ChatCmdSpec {
    ChatCmdSpec {
        chip: chip@,
        slash: slash@,
        action,
        eval: opt_view(eval),
        phrases: phrases.map_values(|p: &'static str| p@),
    }
}

/// The chat commands, chips first: the table that chat input is matched
/// against, in order.
pub open spec fn chat_table() -> Seq<ChatCmdSpec> {
    seq![
        spec_cmd("创建球体", "/unity sphere", UnityAction::Eval, Some(CREATE_SPHERE_EVAL),
            seq!["创建球体", "新建球体", "生成球体", "画一个球体", "画个球体", "场景画一个球体", "场景里放一个球体", "unitysphere"]),
        spec_cmd("探测编辑器", "/unity probe", UnityAction::ProbeEditor, None,
            seq!["探测编辑器", "检查编辑器", "连接编辑器", "unityprobe"]),
        spec_cmd("进入 Play", "/unity play", UnityAction::EnterPlayMode, None,
            seq!["进入play", "开始播放", "开始play", "unityplay"]),
        spec_cmd("退出 Play", "/unity stop", UnityAction::ExitPlayMode, None,
            seq!["退出play", "停止播放", "停止play", "unitystop"]),
        spec_cmd("跑闭环", "/unity loop", UnityAction::RunFullLoop, None,
            seq!["运行完整闭环", "跑完整闭环", "完整闭环", "unityloop"]),
        spec_cmd("查版本", "/unity version", UnityAction::Eval, Some(EVAL_VERSION),
            seq!["查询unity版本", "查unity版本", "unity版本", "unityversion"]),
        spec_cmd("安装 Pipeline", "/unity install", UnityAction::InstallPipeline, None,
            seq!["安装pipeline", "装pipeline", "unityinstall", "unitypipelineinstall"]),
        spec_cmd("检测 CLI", "/unity detect", UnityAction::RefreshDetect, None,
            seq!["检测unity", "重新检测unity", "检测cli", "unitydetect"]),
        spec_cmd("刷新 Pipeline", "/unity pipeline", UnityAction::ListPipeline, None,
            seq!["刷新pipeline", "检查pipeline", "unitypipeline"]),
        spec_cmd("发现命令", "/unity commands", UnityAction::ListCommands, None,
            seq!["发现命令", "列出unity命令", "unitycommands"]),
        spec_cmd("查项目路径", "/unity path", UnityAction::Eval, Some(EVAL_DATA_PATH),
            seq!["查询项目路径", "查项目路径", "unitypath"]),
        spec_cmd("查碰撞体", "/unity collider", UnityAction::Eval, Some(EVAL_COLLIDER),
            seq!["查询碰撞体", "查碰撞体", "unitycollider"]),
        spec_cmd("查播放状态", "/unity playing", UnityAction::Eval, Some(EVAL_PLAYING),
            seq!["查询播放状态", "查播放状态", "是否在play", "unityplaying"]),
    ]
}

/// Number of commands shown as chips in the composer; the rest of the table
/// is matched but not shown.
pub const CHIP_COUNT: usize = 7;

fn make_cmd(
    chip: &'static str,
    slash: &'static str,
    action: UnityAction,
    eval: Option<&'static str>,
    phrases: Vec<&'static str>,
) -> (c: UnityChatCmd)
    ensures
        c@ == spec_cmd(chip, slash, action, eval, phrases@),
{
    UnityChatCmd { chip, slash, action, eval, phrases }
}

/// All chat commands: the chips (`CHIP_COUNT` of them) followed by the
/// commands that are matched but not shown.
pub fn unity_chat_commands() -> (r: Vec<UnityChatCmd>)
    ensures
        r@.len() == chat_table().len(),
        forall|i: int| 0 <= i < r@.len() ==> #[trigger] r@[i]@ == chat_table()[i],
{
    let mut v: Vec<UnityChatCmd> = Vec::new();
    v.push(make_cmd("创建球体", "/unity sphere", UnityAction::Eval, Some(CREATE_SPHERE_EVAL),
            vec!["创建球体", "新建球体", "生成球体", "画一个球体", "画个球体", "场景画一个球体", "场景里放一个球体", "unitysphere"]));
    v.push(make_cmd("探测编辑器", "/unity probe", UnityAction::ProbeEditor, None,
            vec!["探测编辑器", "检查编辑器", "连接编辑器", "unityprobe"]));
    v.push(make_cmd("进入 Play", "/unity play", UnityAction::EnterPlayMode, None,
            vec!["进入play", "开始播放", "开始play", "unityplay"]));
    v.push(make_cmd("退出 Play", "/unity stop", UnityAction::ExitPlayMode, None,
            vec!["退出play", "停止播放", "停止play", "unitystop"]));
    v.push(make_cmd("跑闭环", "/unity loop", UnityAction::RunFullLoop, None,
            vec!["运行完整闭环", "跑完整闭环", "完整闭环", "unityloop"]));
    v.push(make_cmd("查版本", "/unity version", UnityAction::Eval, Some(EVAL_VERSION),
            vec!["查询unity版本", "查unity版本", "unity版本", "unityversion"]));
    v.push(make_cmd("安装 Pipeline", "/unity install", UnityAction::InstallPipeline, None,
            vec!["安装pipeline", "装pipeline", "unityinstall", "unitypipelineinstall"]));
    v.push(make_cmd("检测 CLI", "/unity detect", UnityAction::RefreshDetect, None,
            vec!["检测unity", "重新检测unity", "检测cli", "unitydetect"]));
    v.push(make_cmd("刷新 Pipeline", "/unity pipeline", UnityAction::ListPipeline, None,
            vec!["刷新pipeline", "检查pipeline", "unitypipeline"]));
    v.push(make_cmd("发现命令", "/unity commands", UnityAction::ListCommands, None,
            vec!["发现命令", "列出unity命令", "unitycommands"]));
    v.push(make_cmd("查项目路径", "/unity path", UnityAction::Eval, Some(EVAL_DATA_PATH),
            vec!["查询项目路径", "查项目路径", "unitypath"]));
    v.push(make_cmd("查碰撞体", "/unity collider", UnityAction::Eval, Some(EVAL_COLLIDER),
            vec!["查询碰撞体", "查碰撞体", "unitycollider"]));
    v.push(make_cmd("查播放状态", "/unity playing", UnityAction::Eval, Some(EVAL_PLAYING),
            vec!["查询播放状态", "查播放状态", "是否在play", "unityplaying"]));
    assert forall|i: int| 0 <= i < v@.len() implies #[trigger] v@[i]@ == chat_table()[i] by {
        let t = chat_table();
        assert(t[i] == v@[i]@);
    }
    v
}

/// Chat text in the form commands are matched in: trimmed, lowercased, and
/// with all whitespace removed.
pub open spec fn normalized(t: Seq<char>) -> Seq<char> {
    strip_ws(unicode_lowercase(trim(t)))
}

/// A normalised chat text holds no whitespace.
pub proof fn lemma_normalized_has_no_whitespace(t: Seq<char>)
    ensures
        forall|i: int| 0 <= i < normalized(t).len() ==> !is_ws(#[trigger] normalized(t)[i]),
{
    lemma_strip_ws_clean(unicode_lowercase(trim(t)));
}

pub fn normalize_chars(text: &[char]) -> (r: Vec<char>)
    ensures
        r@ == normalized(text@),
{
    let t = trimmed(text);
    let l = lowercase(&t);
    without_whitespace(&l)
}

pub fn normalize_unity_chat(text: &str) -> (r: String)
    ensures
        r@ == normalized(text@),
{
    let cs = chars_of(text);
    let n = normalize_chars(&cs);
    string_of(&n)
}

/// Some phrase of the list occurs in `n`.
pub open spec fn phrase_hit(n: Seq<char>, phrases: Seq<Seq<char>>) -> bool {
    exists|j: int| 0 <= j < phrases.len() && has_sub(n, #[trigger] phrases[j])
}

/// Normalised chat text `n` selects command `c`.
pub open spec fn cmd_hit(n: Seq<char>, c: ChatCmdSpec) -> bool {
    n == normalized(c.slash) || phrase_hit(n, c.phrases)
}

/// Index of the first command of `t`, from `k` on, that `n` selects.
pub open spec fn first_hit_from(n: Seq<char>, t: Seq<ChatCmdSpec>, k: int) -> Option<int>
    decreases t.len() - k,
{
    if k < 0 || k >= t.len() {
        None
    } else if cmd_hit(n, t[k]) {
        Some(k)
    } else {
        first_hit_from(n, t, k + 1)
    }
}

/// The command that normalised chat text selects: the first in the table
/// whose normalised slash form equals it or one of whose phrases occurs in
/// it; none for empty text.
pub open spec fn chat_command_for(n: Seq<char>) -> Option<ChatCmdSpec> {
    if n.len() == 0 {
        None
    } else {
        match first_hit_from(n, chat_table(), 0) {
            Some(i) => Some(chat_table()[i]),
            None => None,
        }
    }
}

proof fn lemma_first_hit_skip(n: Seq<char>, t: Seq<ChatCmdSpec>, k: int)
    requires
        0 <= k < t.len(),
        !cmd_hit(n, t[k]),
    ensures
        first_hit_from(n, t, k) == first_hit_from(n, t, k + 1),
{
}

fn phrases_hit(n: &[char], phrases: &Vec<&'static str>) -> (r: bool)
    ensures
        r == phrase_hit(n@, phrases@.map_values(|p: &'static str| p@)),
{
    let ghost ps = phrases@.map_values(|p: &'static str| p@);
    let mut j: usize = 0;
    while j < phrases.len()
        invariant
            j <= phrases.len(),
            ps == phrases@.map_values(|p: &'static str| p@),
            forall|k: int| 0 <= k < j ==> !has_sub(n@, #[trigger] ps[k]),
        decreases phrases.len() - j,
    {
        if contains_str(n, phrases[j]) {
            assert(has_sub(n@, ps[j as int]));
            return true;
        }
        j = j + 1;
    }
    false
}

/// The chat command that normalised text `n` selects (`chat_command_for`).
pub fn chat_command_for_normalized(n: &[char]) -> (r: Option<UnityChatCmd>)
    ensures
        match r {
            Some(c) => chat_command_for(n@) == Some(c@),
            None => chat_command_for(n@) is None,
        },
{
    if n.len() == 0 {
        return None;
    }
    let mut cmds = unity_chat_commands();
    let ghost t = chat_table();
    let mut i: usize = 0;
    while i < cmds.len()
        invariant
            i <= cmds.len(),
            n@.len() > 0,
            t == chat_table(),
            cmds@.len() == t.len(),
            forall|k: int| 0 <= k < cmds@.len() ==> #[trigger] cmds@[k]@ == t[k],
            first_hit_from(n@, t, 0) == first_hit_from(n@, t, i as int),
        decreases cmds.len() - i,
    {
        let sk = chars_of(cmds[i].slash);
        let sn = normalize_chars(&sk);
        let hit = chars_eq(n, &sn) || phrases_hit(n, &cmds[i].phrases);
        assert(hit == cmd_hit(n@, t[i as int])) by {
            assert(cmds@[i as int]@ == t[i as int]);
        }
        if hit {
            let c = cmds.remove(i);
            return Some(c);
        }
        proof {
            lemma_first_hit_skip(n@, t, i as int);
        }
        i = i + 1;
    }
    None
}

/// The chat command that the text selects, if any.
pub fn parse_unity_chat_command(text: &str) -> (r: Option<UnityChatCmd>)
    ensures
        match r {
            Some(c) => chat_command_for(normalized(text@)) == Some(c@),
            None => chat_command_for(normalized(text@)) is None,
        },
{
    let cs = chars_of(text);
    let n = normalize_chars(&cs);
    chat_command_for_normalized(&n)
}

pub const DELETE_EVAL: &'static str = "var targets = UnityEditor.Selection.gameObjects; if (targets == null || targets.Length == 0) return \"No selected objects\"; int count = targets.Length; foreach (var target in targets) UnityEditor.Undo.DestroyObjectImmediate(target); return \"Deleted \" + count + \" objects\";";

pub const DUPLICATE_EVAL: &'static str = "var targets = UnityEditor.Selection.gameObjects; if (targets == null || targets.Length == 0) return \"No selected objects\"; var created = new System.Collections.Generic.List<GameObject>(); foreach (var target in targets) { var copy = UnityEngine.Object.Instantiate(target); copy.name = target.name + \" Copy\"; copy.transform.position += Vector3.right * 2f; UnityEditor.Undo.RegisterCreatedObjectUndo(copy, \"Duplicate object\"); created.Add(copy); UnityEditor.SceneManagement.EditorSceneManager.MarkSceneDirty(copy.scene); } UnityEditor.Selection.objects = created.ToArray(); return \"Duplicated \" + created.Count + \" objects\";";

pub const SCALE_EVAL_HEAD: &'static str = "var targets = UnityEditor.Selection.gameObjects; if (targets == null || targets.Length == 0) return \"No selected objects\"; foreach (var target in targets) { UnityEditor.Undo.RecordObject(target.transform, \"Scale object\"); target.transform.localScale *= ";

pub const SCALE_EVAL_TAIL: &'static str = "; UnityEditor.SceneManagement.EditorSceneManager.MarkSceneDirty(target.scene); } return \"Scaled \" + targets.Length + \" objects\";";

pub const MOVE_EVAL_HEAD: &'static str = "var targets = UnityEditor.Selection.gameObjects; if (targets == null || targets.Length == 0) return \"No selected objects\"; foreach (var target in targets) { UnityEditor.Undo.RecordObject(target.transform, \"Move object\"); target.transform.position += ";

pub const MOVE_EVAL_TAIL: &'static str = "; UnityEditor.SceneManagement.EditorSceneManager.MarkSceneDirty(target.scene); } return \"Moved \" + targets.Length + \" objects\";";

pub const RIGIDBODY_EVAL: &'static str = "var targets = UnityEditor.Selection.gameObjects; if (targets == null || targets.Length == 0) return \"No selected objects\"; int changed = 0; foreach (var target in targets) { foreach (var t in target.GetComponentsInChildren<Transform>(true)) { if (t.GetComponent<Rigidbody>() == null) { UnityEditor.Undo.AddComponent<Rigidbody>(t.gameObject); changed++; } } UnityEditor.SceneManagement.EditorSceneManager.MarkSceneDirty(target.scene); } return \"Added Rigidbody to \" + changed + \" objects\";";

pub const COLOR_EVAL_HEAD: &'static str = "var targets = UnityEditor.Selection.gameObjects; if (targets == null || targets.Length == 0) return \"No selected objects\"; int changed = 0; var shader = Shader.Find(\"Universal Render Pipeline/Lit\") ?? Shader.Find(\"Standard\"); foreach (var target in targets) { foreach (var renderer in target.GetComponentsInChildren<Renderer>(true)) { UnityEditor.Undo.RecordObject(renderer, \"Set color\"); var material = new Material(shader); material.name = \"Bony ";

pub const COLOR_EVAL_MID: &'static str = "\"; material.color = ";

pub const COLOR_EVAL_TAIL: &'static str = "; renderer.sharedMaterial = material; changed++; } UnityEditor.SceneManagement.EditorSceneManager.MarkSceneDirty(target.scene); } return \"Colored \" + changed + \" renderers\";";

pub const CREATE_EVAL_0: &'static str = "var root = new GameObject(\"Bony";

pub const CREATE_EVAL_1: &'static str = "Group\"); UnityEditor.Undo.RegisterCreatedObjectUndo(root, \"Create ";

pub const CREATE_EVAL_2: &'static str = "\"); int columns = Mathf.CeilToInt(Mathf.Sqrt(";

pub const CREATE_EVAL_3: &'static str = ")); for (int i = 0; i < ";

pub const CREATE_EVAL_4: &'static str = "; i++) { var go = GameObject.CreatePrimitive(PrimitiveType.";

pub const CREATE_EVAL_5: &'static str = "); go.name = \"Bony";

pub const CREATE_EVAL_6: &'static str = "_\" + (i + 1); go.transform.SetParent(root.transform); float x = (i % columns) * 2f - (columns - 1) * 1f; float z = (i / columns) * 2f; go.transform.position = new Vector3(x, 0f, z); } UnityEditor.Selection.activeGameObject = root; UnityEditor.SceneManagement.EditorSceneManager.MarkSceneDirty(root.scene); if (UnityEditor.SceneView.lastActiveSceneView != null) UnityEditor.SceneView.lastActiveSceneView.FrameSelected(); return \"Created ";

pub const CREATE_EVAL_7: &'static str = "\";";

/// The movement a selection edit asks for: `(label, Unity direction)`.
pub open spec fn scene_movement(n: Seq<char>) -> Option<(Seq<char>, Seq<char>)> {
    if has_sub(n, "向上"@) || has_sub(n, "往上"@) {
        Some(("向上移动选中对象"@, "Vector3.up"@))
    } else if has_sub(n, "向下"@) || has_sub(n, "往下"@) {
        Some(("向下移动选中对象"@, "Vector3.down"@))
    } else if has_sub(n, "向左"@) || has_sub(n, "往左"@) {
        Some(("向左移动选中对象"@, "Vector3.left"@))
    } else if has_sub(n, "向右"@) || has_sub(n, "往右"@) {
        Some(("向右移动选中对象"@, "Vector3.right"@))
    } else if has_sub(n, "向前"@) || has_sub(n, "往前"@) {
        Some(("向前移动选中对象"@, "Vector3.forward"@))
    } else if has_sub(n, "向后"@) || has_sub(n, "往后"@) {
        Some(("向后移动选中对象"@, "Vector3.back"@))
    } else {
        None
    }
}

fn movement_of(n: &[char]) -> (r: Option<(&'static str, &'static str)>)
    ensures
        match r {
            Some(p) => scene_movement(n@) == Some((p.0@, p.1@)),
            None => scene_movement(n@) is None,
        },
{
    if contains_str(n, "向上") || contains_str(n, "往上") {
        Some(("向上移动选中对象", "Vector3.up"))
    } else if contains_str(n, "向下") || contains_str(n, "往下") {
        Some(("向下移动选中对象", "Vector3.down"))
    } else if contains_str(n, "向左") || contains_str(n, "往左") {
        Some(("向左移动选中对象", "Vector3.left"))
    } else if contains_str(n, "向右") || contains_str(n, "往右") {
        Some(("向右移动选中对象", "Vector3.right"))
    } else if contains_str(n, "向前") || contains_str(n, "往前") {
        Some(("向前移动选中对象", "Vector3.forward"))
    } else if contains_str(n, "向后") || contains_str(n, "往后") {
        Some(("向后移动选中对象", "Vector3.back"))
    } else {
        None
    }
}

/// The colour a selection edit asks for: `(Chinese name, Unity colour)`.
pub open spec fn scene_color(n: Seq<char>) -> Option<(Seq<char>, Seq<char>)> {
    if has_sub(n, "绿色"@) || has_sub(n, "green"@) {
        Some(("绿色"@, "Color.green"@))
    } else if has_sub(n, "红色"@) || has_sub(n, "red"@) {
        Some(("红色"@, "Color.red"@))
    } else if has_sub(n, "蓝色"@) || has_sub(n, "blue"@) {
        Some(("蓝色"@, "Color.blue"@))
    } else if has_sub(n, "黄色"@) || has_sub(n, "yellow"@) {
        Some(("黄色"@, "Color.yellow"@))
    } else if has_sub(n, "白色"@) || has_sub(n, "white"@) {
        Some(("白色"@, "Color.white"@))
    } else if has_sub(n, "黑色"@) || has_sub(n, "black"@) {
        Some(("黑色"@, "Color.black"@))
    } else if has_sub(n, "灰色"@) || has_sub(n, "gray"@) {
        Some(("灰色"@, "Color.gray"@))
    } else if has_sub(n, "青色"@) || has_sub(n, "cyan"@) {
        Some(("青色"@, "Color.cyan"@))
    } else if has_sub(n, "紫色"@) || has_sub(n, "magenta"@) {
        Some(("紫色"@, "Color.magenta"@))
    } else {
        None
    }
}

fn color_of(n: &[char]) -> (r: Option<(&'static str, &'static str)>)
    ensures
        match r {
            Some(p) => scene_color(n@) == Some((p.0@, p.1@)),
            None => scene_color(n@) is None,
        },
{
    if contains_str(n, "绿色") || contains_str(n, "green") {
        Some(("绿色", "Color.green"))
    } else if contains_str(n, "红色") || contains_str(n, "red") {
        Some(("红色", "Color.red"))
    } else if contains_str(n, "蓝色") || contains_str(n, "blue") {
        Some(("蓝色", "Color.blue"))
    } else if contains_str(n, "黄色") || contains_str(n, "yellow") {
        Some(("黄色", "Color.yellow"))
    } else if contains_str(n, "白色") || contains_str(n, "white") {
        Some(("白色", "Color.white"))
    } else if contains_str(n, "黑色") || contains_str(n, "black") {
        Some(("黑色", "Color.black"))
    } else if contains_str(n, "灰色") || contains_str(n, "gray") {
        Some(("灰色", "Color.gray"))
    } else if contains_str(n, "青色") || contains_str(n, "cyan") {
        Some(("青色", "Color.cyan"))
    } else if contains_str(n, "紫色") || contains_str(n, "magenta") {
        Some(("紫色", "Color.magenta"))
    } else {
        None
    }
}

/// The primitive a creation request names: `(Chinese name, Unity type)`.
pub open spec fn scene_primitive(n: Seq<char>) -> Option<(Seq<char>, Seq<char>)> {
    if has_sub(n, "球体"@) || has_sub(n, "sphere"@) {
        Some(("球体"@, "Sphere"@))
    } else if has_sub(n, "立方体"@) || has_sub(n, "正方体"@) || has_sub(n, "方块"@) || has_sub(n, "cube"@) {
        Some(("立方体"@, "Cube"@))
    } else if has_sub(n, "胶囊"@) || has_sub(n, "capsule"@) {
        Some(("胶囊体"@, "Capsule"@))
    } else if has_sub(n, "圆柱"@) || has_sub(n, "cylinder"@) {
        Some(("圆柱体"@, "Cylinder"@))
    } else if has_sub(n, "平面"@) || has_sub(n, "plane"@) {
        Some(("平面"@, "Plane"@))
    } else {
        None
    }
}

fn primitive_of(n: &[char]) -> (r: Option<(&'static str, &'static str)>)
    ensures
        match r {
            Some(p) => scene_primitive(n@) == Some((p.0@, p.1@)),
            None => scene_primitive(n@) is None,
        },
{
    if contains_str(n, "球体") || contains_str(n, "sphere") {
        Some(("球体", "Sphere"))
    } else if contains_str(n, "立方体") || contains_str(n, "正方体") || contains_str(n, "方块") || contains_str(n, "cube") {
        Some(("立方体", "Cube"))
    } else if contains_str(n, "胶囊") || contains_str(n, "capsule") {
        Some(("胶囊体", "Capsule"))
    } else if contains_str(n, "圆柱") || contains_str(n, "cylinder") {
        Some(("圆柱体", "Cylinder"))
    } else if contains_str(n, "平面") || contains_str(n, "plane") {
        Some(("平面", "Plane"))
    } else {
        None
    }
}

/// The count a Chinese numeral in the request gives, the larger numerals
/// tried first.
pub open spec fn chinese_count(n: Seq<char>) -> Option<nat> {
    if has_sub(n, "十"@) {
        Some(10nat)
    } else if has_sub(n, "九"@) {
        Some(9nat)
    } else if has_sub(n, "八"@) {
        Some(8nat)
    } else if has_sub(n, "七"@) {
        Some(7nat)
    } else if has_sub(n, "六"@) {
        Some(6nat)
    } else if has_sub(n, "五"@) {
        Some(5nat)
    } else if has_sub(n, "四"@) {
        Some(4nat)
    } else if has_sub(n, "三"@) {
        Some(3nat)
    } else if has_sub(n, "二"@) {
        Some(2nat)
    } else if has_sub(n, "两"@) {
        Some(2nat)
    } else if has_sub(n, "一"@) {
        Some(1nat)
    } else {
        None
    }
}

fn chinese_count_of(n: &[char]) -> (r: Option<u64>)
    ensures
        match r {
            Some(v) => chinese_count(n@) == Some(v as nat),
            None => chinese_count(n@) is None,
        },
{
    if contains_str(n, "十") {
        Some(10)
    } else if contains_str(n, "九") {
        Some(9)
    } else if contains_str(n, "八") {
        Some(8)
    } else if contains_str(n, "七") {
        Some(7)
    } else if contains_str(n, "六") {
        Some(6)
    } else if contains_str(n, "五") {
        Some(5)
    } else if contains_str(n, "四") {
        Some(4)
    } else if contains_str(n, "三") {
        Some(3)
    } else if contains_str(n, "二") {
        Some(2)
    } else if contains_str(n, "两") {
        Some(2)
    } else if contains_str(n, "一") {
        Some(1)
    } else {
        None
    }
}

/// The count a creation request asks for: the first run of ASCII digits
/// read as a `usize`, else a Chinese numeral, else one; held to `1..=50`.
pub open spec fn scene_count(n: Seq<char>) -> nat {
    let c = match parse_unsigned(first_digit_run(n), usize::MAX as nat) {
        Some(v) => v,
        None => match chinese_count(n) {
            Some(v) => v,
            None => 1,
        },
    };
    if c < 1 {
        1
    } else if c > 50 {
        50
    } else {
        c
    }
}

pub open spec fn scale_eval(factor: Seq<char>) -> Seq<char> {
    SCALE_EVAL_HEAD@ + factor + SCALE_EVAL_TAIL@
}

pub open spec fn move_eval(direction: Seq<char>) -> Seq<char> {
    MOVE_EVAL_HEAD@ + direction + MOVE_EVAL_TAIL@
}

pub open spec fn color_eval(name: Seq<char>, color: Seq<char>) -> Seq<char> {
    COLOR_EVAL_HEAD@ + name + COLOR_EVAL_MID@ + color + COLOR_EVAL_TAIL@
}

/// The C# that creates `count` primitives of type `p` in a grid under one
/// group object.
pub open spec fn create_eval(p: Seq<char>, count: nat) -> Seq<char> {
    CREATE_EVAL_0@ + p + CREATE_EVAL_1@ + dec(count) + " "@ + p + CREATE_EVAL_2@ + dec(count)
        + CREATE_EVAL_3@ + dec(count) + CREATE_EVAL_4@ + p + CREATE_EVAL_5@ + p + CREATE_EVAL_6@
        + dec(count) + " "@ + p + CREATE_EVAL_7@
}

pub open spec fn has_creation_verb(n: Seq<char>) -> bool {
    has_sub(n, "创建"@) || has_sub(n, "新建"@) || has_sub(n, "生成"@) || has_sub(n, "放"@)
        || has_sub(n, "画"@)
}

/// The Unity operation that a normalised natural-language request compiles
/// to, as `(label, C# for Eval)`. Edits of the selection are recognised
/// first (delete, duplicate, scale, move, rigid body, colour), then the
/// creation of a counted number of primitives.
pub open spec fn scene_command(n: Seq<char>) -> Option<(Seq<char>, Seq<char>)> {
    if has_sub(n, "删除选中"@) || has_sub(n, "删除这些"@) || has_sub(n, "移除选中"@) {
        Some(("删除选中对象"@, DELETE_EVAL@))
    } else if has_sub(n, "复制选中"@) || has_sub(n, "复制这些"@) || has_sub(n, "再复制"@) {
        Some(("复制选中对象"@, DUPLICATE_EVAL@))
    } else if has_sub(n, "放大"@) || has_sub(n, "缩小"@) {
        if has_sub(n, "缩小"@) {
            Some(("缩小选中对象"@, scale_eval("0.5f"@)))
        } else {
            Some(("放大选中对象"@, scale_eval("2f"@)))
        }
    } else if scene_movement(n) is Some {
        let m = scene_movement(n)->0;
        Some((m.0, move_eval(m.1)))
    } else if has_sub(n, "刚体"@) || has_sub(n, "rigidbody"@) {
        Some(("给选中对象添加刚体"@, RIGIDBODY_EVAL@))
    } else if scene_color(n) is Some {
        let c = scene_color(n)->0;
        Some(("把选中对象设为"@ + c.0, color_eval(c.0, c.1)))
    } else if !has_creation_verb(n) {
        None
    } else if scene_primitive(n) is None {
        None
    } else {
        let p = scene_primitive(n)->0;
        let count = scene_count(n);
        Some(("创建 "@ + dec(count) + " 个"@ + p.0, create_eval(p.1, count)))
    }
}

fn pair_of(label: Vec<char>, eval: Vec<char>) -> (r: (String, String))
    ensures
        r.0@ == label@,
        r.1@ == eval@,
{
    (string_of(&label), string_of(&eval))
}

/// The Unity operation for normalised request text `n` (`scene_command`).
pub fn scene_command_for_normalized(n: &[char]) -> (r: Option<(String, String)>)
    ensures
        match r {
            Some(p) => scene_command(n@) == Some((p.0@, p.1@)),
            None => scene_command(n@) is None,
        },
{
    if contains_str(n, "删除选中") || contains_str(n, "删除这些") || contains_str(n, "移除选中") {
        return Some(pair_of(chars_of("删除选中对象"), chars_of(DELETE_EVAL)));
    }
    if contains_str(n, "复制选中") || contains_str(n, "复制这些") || contains_str(n, "再复制") {
        return Some(pair_of(chars_of("复制选中对象"), chars_of(DUPLICATE_EVAL)));
    }
    if contains_str(n, "放大") || contains_str(n, "缩小") {
        let shrink = contains_str(n, "缩小");
        let factor = if shrink {
            "0.5f"
        } else {
            "2f"
        };
        let label = if shrink {
            "缩小选中对象"
        } else {
            "放大选中对象"
        };
        let mut e = chars_of(SCALE_EVAL_HEAD);
        push_str(&mut e, factor);
        push_str(&mut e, SCALE_EVAL_TAIL);
        return Some(pair_of(chars_of(label), e));
    }
    if let Some((label, direction)) = movement_of(n) {
        let mut e = chars_of(MOVE_EVAL_HEAD);
        push_str(&mut e, direction);
        push_str(&mut e, MOVE_EVAL_TAIL);
        return Some(pair_of(chars_of(label), e));
    }
    if contains_str(n, "刚体") || contains_str(n, "rigidbody") {
        return Some(pair_of(chars_of("给选中对象添加刚体"), chars_of(RIGIDBODY_EVAL)));
    }
    if let Some((name, color)) = color_of(n) {
        let mut e = chars_of(COLOR_EVAL_HEAD);
        push_str(&mut e, name);
        push_str(&mut e, COLOR_EVAL_MID);
        push_str(&mut e, color);
        push_str(&mut e, COLOR_EVAL_TAIL);
        let mut label = chars_of("把选中对象设为");
        push_str(&mut label, name);
        return Some(pair_of(label, e));
    }
    if !(contains_str(n, "创建") || contains_str(n, "新建") || contains_str(n, "生成")
        || contains_str(n, "放") || contains_str(n, "画")) {
        return None;
    }
    let (cn_name, primitive) = match primitive_of(n) {
        Some(p) => p,
        None => {
            return None;
        },
    };
    let run = digit_run(n);
    let parsed = parse_uint(&run, usize::MAX as u64);
    let raw: u64 = match parsed {
        Some(v) => v,
        None => match chinese_count_of(n) {
            Some(v) => v,
            None => 1,
        },
    };
    let count: u64 = if raw < 1 {
        1
    } else if raw > 50 {
        50
    } else {
        raw
    };
    assert(count as nat == scene_count(n@));
    let cnt = decimal(count);
    let mut e = chars_of(CREATE_EVAL_0);
    push_str(&mut e, primitive);
    push_str(&mut e, CREATE_EVAL_1);
    push_chars(&mut e, &cnt);
    push_str(&mut e, " ");
    push_str(&mut e, primitive);
    push_str(&mut e, CREATE_EVAL_2);
    push_chars(&mut e, &cnt);
    push_str(&mut e, CREATE_EVAL_3);
    push_chars(&mut e, &cnt);
    push_str(&mut e, CREATE_EVAL_4);
    push_str(&mut e, primitive);
    push_str(&mut e, CREATE_EVAL_5);
    push_str(&mut e, primitive);
    push_str(&mut e, CREATE_EVAL_6);
    push_chars(&mut e, &cnt);
    push_str(&mut e, " ");
    push_str(&mut e, primitive);
    push_str(&mut e, CREATE_EVAL_7);
    let mut label = chars_of("创建 ");
    push_chars(&mut label, &cnt);
    push_str(&mut label, " 个");
    push_str(&mut label, cn_name);
    Some(pair_of(label, e))
}

/// A request to move the selection (with no delete, duplicate or scale word
/// before it) moves every selected object by the Unity vector that its
/// direction word names: up (向上/往上), down (向下/往下), left (向左/往左),
/// right (向右/往右), forward (向前/往前) or back (向后/往后), the first of
/// these that the text holds.
pub proof fn lemma_scene_move_direction(n: Seq<char>)
    requires
        !(has_sub(n, "删除选中"@) || has_sub(n, "删除这些"@) || has_sub(n, "移除选中"@)),
        !(has_sub(n, "复制选中"@) || has_sub(n, "复制这些"@) || has_sub(n, "再复制"@)),
        !(has_sub(n, "放大"@) || has_sub(n, "缩小"@)),
    ensures
        has_sub(n, "向上"@) || has_sub(n, "往上"@) ==> scene_command(n) == Some(
            ("向上移动选中对象"@, MOVE_EVAL_HEAD@ + "Vector3.up"@ + MOVE_EVAL_TAIL@),
        ),
        !(has_sub(n, "向上"@) || has_sub(n, "往上"@)) && (has_sub(n, "向下"@) || has_sub(
            n,
            "往下"@,
        )) ==> scene_command(n) == Some(
            ("向下移动选中对象"@, MOVE_EVAL_HEAD@ + "Vector3.down"@ + MOVE_EVAL_TAIL@),
        ),
        !(has_sub(n, "向上"@) || has_sub(n, "往上"@) || has_sub(n, "向下"@) || has_sub(n, "往下"@))
            && (has_sub(n, "向左"@) || has_sub(n, "往左"@)) ==> scene_command(n) == Some(
            ("向左移动选中对象"@, MOVE_EVAL_HEAD@ + "Vector3.left"@ + MOVE_EVAL_TAIL@),
        ),
        !(has_sub(n, "向上"@) || has_sub(n, "往上"@) || has_sub(n, "向下"@) || has_sub(n, "往下"@)
            || has_sub(n, "向左"@) || has_sub(n, "往左"@)) && (has_sub(n, "向右"@) || has_sub(
            n,
            "往右"@,
        )) ==> scene_command(n) == Some(
            ("向右移动选中对象"@, MOVE_EVAL_HEAD@ + "Vector3.right"@ + MOVE_EVAL_TAIL@),
        ),
        !(has_sub(n, "向上"@) || has_sub(n, "往上"@) || has_sub(n, "向下"@) || has_sub(n, "往下"@)
            || has_sub(n, "向左"@) || has_sub(n, "往左"@) || has_sub(n, "向右"@) || has_sub(
            n,
            "往右"@,
        )) && (has_sub(n, "向前"@) || has_sub(n, "往前"@)) ==> scene_command(n) == Some(
            ("向前移动选中对象"@, MOVE_EVAL_HEAD@ + "Vector3.forward"@ + MOVE_EVAL_TAIL@),
        ),
        !(has_sub(n, "向上"@) || has_sub(n, "往上"@) || has_sub(n, "向下"@) || has_sub(n, "往下"@)
            || has_sub(n, "向左"@) || has_sub(n, "往左"@) || has_sub(n, "向右"@) || has_sub(
            n,
            "往右"@,
        ) || has_sub(n, "向前"@) || has_sub(n, "往前"@)) && (has_sub(n, "向后"@) || has_sub(
            n,
            "往后"@,
        )) ==> scene_command(n) == Some(
            ("向后移动选中对象"@, MOVE_EVAL_HEAD@ + "Vector3.back"@ + MOVE_EVAL_TAIL@),
        ),
{
}

/// The C# of a move adds the direction to the position of each selected
/// object: it holds `target.transform.position += <direction>;`.
pub proof fn lemma_move_eval_moves(direction: Seq<char>)
    ensures
        has_sub(
            MOVE_EVAL_HEAD@ + direction + MOVE_EVAL_TAIL@,
            "target.transform.position += "@ + direction + seq![';'],
        ),
{
    reveal_strlit("var targets = UnityEditor.Selection.gameObjects; if (targets == null || targets.Length == 0) return \"No selected objects\"; foreach (var target in targets) { UnityEditor.Undo.RecordObject(target.transform, \"Move object\"); target.transform.position += ");
    reveal_strlit("; UnityEditor.SceneManagement.EditorSceneManager.MarkSceneDirty(target.scene); } return \"Moved \" + targets.Length + \" objects\";");
    reveal_strlit("target.transform.position += ");
    let h = MOVE_EVAL_HEAD@;
    let p = "target.transform.position += "@;
    let c = h + direction + MOVE_EVAL_TAIL@;
    let w = p + direction + seq![';'];
    let k = h.len() - p.len();
    assert(h.subrange(k, h.len() as int) =~= p);
    assert(MOVE_EVAL_TAIL@[0] == ';');
    assert(c.subrange(k, k + w.len()) =~= w) by {
        assert forall|i: int| 0 <= i < w.len() implies c.subrange(k, k + w.len())[i] == w[i] by {
            if i < p.len() {
                assert(c[k + i] == h[k + i]);
                assert(h[k + i] == h.subrange(k, h.len() as int)[i]);
            } else if i < p.len() + direction.len() {
                assert(c[k + i] == direction[i - p.len()]);
            } else {
                assert(c[k + i] == MOVE_EVAL_TAIL@[0]);
            }
        }
    }
    assert(crate::text::occurs_at(c, w, k));
}

/// Compiles a natural-language scene request into a bounded Unity Eval
/// operation `(label, C#)`, or `None` when the request is not one.
pub fn compile_unity_scene_command(text: &str) -> (r: Option<(String, String)>)
    ensures
        match r {
            Some(p) => scene_command(normalized(text@)) == Some((p.0@, p.1@)),
            None => scene_command(normalized(text@)) is None,
        },
{
    let cs = chars_of(text);
    let n = normalize_chars(&cs);
    scene_command_for_normalized(&n)
}

pub const HELP_TITLE: &'static str = "### 对话控制 Unity（本地 CLI，不经 Agent）";

pub const HELP_INTRO: &'static str = "在聊天输入框点 **Unity** 打开快捷指令，或直接发送：";

pub const HELP_NATURAL: &'static str = "自然语言场景操作支持数量和基础类型，例如：`创建3个球体`、`生成五个立方体`、`放两个胶囊体`。";

pub const HELP_SHORTCUTS: &'static str = "快捷命令：";

pub const HELP_FIRST_USE: &'static str = "首次使用请先在侧栏「Unity 控制」选好工程根并完成引导（CLI → Pipeline → 探测）。";

/// The help line listing one chat command.
pub open spec fn help_cmd_line(c: ChatCmdSpec) -> Seq<char> {
    "- **"@ + c.chip + "** · `"@ + c.slash + "`"@
}

/// The lines of the chat help: an introduction, one line per command of the
/// table, and a closing hint.
pub open spec fn help_lines() -> Seq<Seq<char>> {
    seq![HELP_TITLE@, ""@, HELP_INTRO@, ""@, HELP_NATURAL@, ""@, HELP_SHORTCUTS@, ""@]
        + chat_table().map_values(|c: ChatCmdSpec| help_cmd_line(c)) + seq![""@, HELP_FIRST_USE@]
}

/// The Markdown help for controlling Unity from the chat.
pub fn unity_chat_help_text() -> (r: String)
    ensures
        r@ == join(help_lines(), "\n"@),
{
    let mut lines: Vec<Vec<char>> = Vec::new();
    lines.push(chars_of(HELP_TITLE));
    lines.push(chars_of(""));
    lines.push(chars_of(HELP_INTRO));
    lines.push(chars_of(""));
    lines.push(chars_of(HELP_NATURAL));
    lines.push(chars_of(""));
    lines.push(chars_of(HELP_SHORTCUTS));
    lines.push(chars_of(""));
    let cmds = unity_chat_commands();
    let ghost head = views(lines@);
    let ghost t = chat_table();
    let mut i: usize = 0;
    while i < cmds.len()
        invariant
            i <= cmds.len(),
            t == chat_table(),
            cmds@.len() == t.len(),
            forall|k: int| 0 <= k < cmds@.len() ==> #[trigger] cmds@[k]@ == t[k],
            views(lines@) == head + t.take(i as int).map_values(
                |c: ChatCmdSpec| help_cmd_line(c),
            ),
        decreases cmds.len() - i,
    {
        let mut l = chars_of("- **");
        push_str(&mut l, cmds[i].chip);
        push_str(&mut l, "** · `");
        push_str(&mut l, cmds[i].slash);
        push_str(&mut l, "`");
        proof {
            assert(cmds@[i as int]@ == t[i as int]);
            assert(views(lines@.push(l)) =~= views(lines@).push(l@));
            assert(t.take(i + 1).map_values(|c: ChatCmdSpec| help_cmd_line(c)) =~= t.take(
                i as int,
            ).map_values(|c: ChatCmdSpec| help_cmd_line(c)).push(help_cmd_line(t[i as int])));
        }
        lines.push(l);
        i = i + 1;
    }
    assert(t.take(t.len() as int) =~= t);
    let ghost mid = views(lines@);
    lines.push(chars_of(""));
    lines.push(chars_of(HELP_FIRST_USE));
    assert(views(lines@) =~= mid + seq![""@, HELP_FIRST_USE@]);
    assert(head =~= seq![HELP_TITLE@, ""@, HELP_INTRO@, ""@, HELP_NATURAL@, ""@, HELP_SHORTCUTS@, ""@]);
    assert(views(lines@) =~= help_lines());
    let j = join_with(&lines, "\n");
    string_of(&j)
}

/// Normalised text that asks for the chat help.
pub open spec fn is_help_request(n: Seq<char>) -> bool {
    n == "/unity"@ || n == "/unityhelp"@ || n == "/unity帮助"@ || n == "unity帮助"@ || n
        == "unity指令"@ || n == "unity命令"@ || n == "帮助unity"@ || n == "unity?"@
}

/// Whether the chat text asks for the Unity help.
pub fn wants_unity_help(text: &str) -> (r: bool)
    ensures
        r == is_help_request(normalized(text@)),
{
    let cs = chars_of(text);
    let n = normalize_chars(&cs);
    eq_str(&n, "/unity") || eq_str(&n, "/unityhelp") || eq_str(&n, "/unity帮助") || eq_str(
        &n,
        "unity帮助",
    ) || eq_str(&n, "unity指令") || eq_str(&n, "unity命令") || eq_str(&n, "帮助unity") || eq_str(
        &n,
        "unity?",
    )
}

/// Steps of the Unity onboarding wizard, in order.
#[derive(Debug, Clone, Copy, PartialEq, Eq, Structural)]
pub enum SetupStep {
    InstallCli,
    DetectCli,
    PickProject,
    InstallPipeline,
    ProbeEditor,
    RunLoop,
}

impl SetupStep {
    /// Position of the step in the wizard.
    pub open spec fn spec_index(self) -> nat {
        match self {
            SetupStep::InstallCli => 0,
            SetupStep::DetectCli => 1,
            SetupStep::PickProject => 2,
            SetupStep::InstallPipeline => 3,
            SetupStep::ProbeEditor => 4,
            SetupStep::RunLoop => 5,
        }
    }

    /// All steps, in wizard order.
    pub fn all() -> (r: Vec<SetupStep>)
        ensures
            r@.len() == 6,
            forall|i: int| 0 <= i < 6 ==> (#[trigger] r@[i]).spec_index() == i,
    {
        vec![
            SetupStep::InstallCli,
            SetupStep::DetectCli,
            SetupStep::PickProject,
            SetupStep::InstallPipeline,
            SetupStep::ProbeEditor,
            SetupStep::RunLoop,
        ]
    }

    pub fn index(self) -> (r: usize)
        ensures
            r == self.spec_index(),
    {
        match self {
            SetupStep::InstallCli => 0,
            SetupStep::DetectCli => 1,
            SetupStep::PickProject => 2,
            SetupStep::InstallPipeline => 3,
            SetupStep::ProbeEditor => 4,
            SetupStep::RunLoop => 5,
        }
    }

    pub fn title(self) -> (r: &'static str)
        ensures
            r@ == (match self {
                SetupStep::InstallCli => "安装 Unity CLI"@,
                SetupStep::DetectCli => "检测 CLI"@,
                SetupStep::PickProject => "确认 Unity 工程根（不要用 agent worktree）"@,
                SetupStep::InstallPipeline => "安装 Pipeline"@,
                SetupStep::ProbeEditor => "探测编辑器"@,
                SetupStep::RunLoop => "跑闭环验证"@,
            }),
    {
        match self {
            SetupStep::InstallCli => "安装 Unity CLI",
            SetupStep::DetectCli => "检测 CLI",
            SetupStep::PickProject => "确认 Unity 工程根（不要用 agent worktree）",
            SetupStep::InstallPipeline => "安装 Pipeline",
            SetupStep::ProbeEditor => "探测编辑器",
            SetupStep::RunLoop => "跑闭环验证",
        }
    }

    pub fn blurb(self) -> (r: &'static str)
        ensures
            r@ == (match self {
                SetupStep::InstallCli => "本机需要独立的 unity 命令行（不是编辑器 Unity.exe）"@,
                SetupStep::DetectCli => "确认 PATH / UNITY_CLI 能找到 unity 二进制"@,
                SetupStep::PickProject => "必须是含 Assets + ProjectSettings 的工程根；聊天任务目录无效"@,
                SetupStep::InstallPipeline => "在项目中执行 unity pipeline install"@,
                SetupStep::ProbeEditor => "编辑器打开同一工程后，unity command 才能响应"@,
                SetupStep::RunLoop => "观察 → 行动 → 验证（演示或实机）"@,
            }),
    {
        match self {
            SetupStep::InstallCli => "本机需要独立的 unity 命令行（不是编辑器 Unity.exe）",
            SetupStep::DetectCli => "确认 PATH / UNITY_CLI 能找到 unity 二进制",
            SetupStep::PickProject => "必须是含 Assets + ProjectSettings 的工程根；聊天任务目录无效",
            SetupStep::InstallPipeline => "在项目中执行 unity pipeline install",
            SetupStep::ProbeEditor => "编辑器打开同一工程后，unity command 才能响应",
            SetupStep::RunLoop => "观察 → 行动 → 验证（演示或实机）",
        }
    }

    pub fn primary_label(self) -> (r: &'static str)
        ensures
            r@ == (match self {
                SetupStep::InstallCli => "复制安装命令"@,
                SetupStep::DetectCli => "重新检测"@,
                SetupStep::PickProject => "选择 Unity 工程…"@,
                SetupStep::InstallPipeline => "安装 Pipeline"@,
                SetupStep::ProbeEditor => "探测编辑器"@,
                SetupStep::RunLoop => "跑完整闭环"@,
            }),
    {
        match self {
            SetupStep::InstallCli => "复制安装命令",
            SetupStep::DetectCli => "重新检测",
            SetupStep::PickProject => "选择 Unity 工程…",
            SetupStep::InstallPipeline => "安装 Pipeline",
            SetupStep::ProbeEditor => "探测编辑器",
            SetupStep::RunLoop => "跑完整闭环",
        }
    }
}

/// How a wizard step is shown.
#[derive(Debug, Clone, Copy, PartialEq, Eq, Structural)]
pub enum StepState {
    Done,
    Current,
    Locked,
}

pub const OBSERVE_COLLIDER_CODE: &'static str = "var go = GameObject.Find(\"Ground\"); var c = go != null ? go.GetComponent<Collider>() : null; return c != null && c.enabled;";

pub const FIX_COLLIDER_CODE: &'static str = "var go = GameObject.Find(\"Ground\"); var c = go != null ? go.GetComponent<Collider>() : null; if (c != null) c.enabled = true; return c != null && c.enabled;";

pub const ENTER_PLAY_CODE: &'static str = "UnityEditor.EditorApplication.isPlaying = true; return UnityEditor.EditorApplication.isPlaying;";

pub const EXIT_PLAY_CODE: &'static str = "UnityEditor.EditorApplication.isPlaying = false; return UnityEditor.EditorApplication.isPlaying;";

/// Arguments that run C# `code` through the editor's `eval` command, with
/// JSON output.
pub open spec fn eval_args(project_arg: Seq<char>, code: Seq<char>) -> Seq<Seq<char>> {
    seq!["--format"@, "json"@, "command"@, project_arg, "eval"@, "--"@, "--code"@, code]
}

/// The Unity CLI call for an action: `(title, arguments, loop phase)`.
pub open spec fn cli_call(a: UnityAction, eval: Seq<char>, project: Seq<char>) -> (
    Seq<char>,
    Seq<Seq<char>>,
    LoopPhase,
) {
    let pp = "--project-path="@ + project;
    match a {
        UnityAction::RefreshDetect | UnityAction::RunFullLoop => (
            "重新检测 CLI"@,
            seq!["--help"@],
            LoopPhase::Observe,
        ),
        UnityAction::ListEditors => (
            "列出已安装编辑器"@,
            seq!["editors"@, "--format"@, "json"@],
            LoopPhase::Observe,
        ),
        UnityAction::ListPipeline => (
            "刷新 Pipeline 列表"@,
            seq!["pipeline"@, "list"@],
            LoopPhase::Observe,
        ),
        UnityAction::InstallPipeline => (
            "安装 com.unity.pipeline"@,
            seq!["pipeline"@, "install"@],
            LoopPhase::Observe,
        ),
        UnityAction::ListCommands => ("发现已注册命令"@, seq!["command"@, pp], LoopPhase::Observe),
        UnityAction::ProbeEditor => ("探测编辑器连接"@, seq!["command"@, pp], LoopPhase::Observe),
        UnityAction::Eval => ("Eval C# 表达式"@, eval_args(pp, eval), LoopPhase::Act),
        UnityAction::ObserveCollider => (
            "观察碰撞体"@,
            eval_args(pp, OBSERVE_COLLIDER_CODE@),
            LoopPhase::Observe,
        ),
        UnityAction::FixCollider => (
            "修复碰撞体"@,
            eval_args(pp, FIX_COLLIDER_CODE@),
            LoopPhase::Act,
        ),
        UnityAction::EnterPlayMode => (
            "进入 Play Mode"@,
            eval_args(pp, ENTER_PLAY_CODE@),
            LoopPhase::Verify,
        ),
        UnityAction::ExitPlayMode => (
            "退出 Play Mode"@,
            eval_args(pp, EXIT_PLAY_CODE@),
            LoopPhase::Verify,
        ),
    }
}

/// `std::path::MAIN_SEPARATOR`, the platform's path separator (`\\` on
/// Windows, `/` elsewhere). Nothing is stated of it: the same source gives
/// either, depending on the target it was built for.
#[verifier::external_body]
fn main_separator() -> char {
    std::path::MAIN_SEPARATOR
}

/// Whether the program was built for Windows: its path separator is `\\`.
pub(crate) fn on_windows() -> bool {
    main_separator() == '\\'
}

/// The spelling of a project path for the Unity CLI and for display: on
/// Windows without the extended-length prefix, elsewhere as it is.
pub open spec fn cli_spelling(p: Seq<char>, windows: bool) -> Seq<char> {
    if windows {
        windows_cli_path(p)
    } else {
        p
    }
}

/// `cli_spelling` of `path` for the platform `windows` tells.
pub fn cli_path_for(path: &str, windows: bool) -> (r: String)
    ensures
        r@ == cli_spelling(path@, windows),
{
    if windows {
        windows_path_for_unity_cli(path)
    } else {
        path.to_owned()
    }
}

/// The spelling of a project path that the Unity CLI is given on the
/// platform the program runs on: `windows_cli_path` on Windows, the path
/// unchanged elsewhere.
pub fn path_for_unity_cli(path: &str) -> (r: String)
    ensures
        r@ == path@ || r@ == windows_cli_path(path@),
{
    cli_path_for(path, on_windows())
}

/// A Windows path without the extended-length prefix (`\\?\` or
/// `\\?\UNC\`), which Unity Pipeline does not register editors under.
pub open spec fn windows_cli_path(p: Seq<char>) -> Seq<char> {
    if starts_with(p, "\\\\?\\UNC\\"@) {
        "\\\\"@ + p.skip(("\\\\?\\UNC\\"@).len() as int)
    } else if starts_with(p, "\\\\?\\"@) {
        p.skip(("\\\\?\\"@).len() as int)
    } else {
        p
    }
}

pub fn windows_path_for_unity_cli(path: &str) -> (r: String)
    ensures
        r@ == windows_cli_path(path@),
{
    let p = chars_of(path);
    if starts_with_str(&p, "\\\\?\\UNC\\") {
        let k = chars_of("\\\\?\\UNC\\").len();
        let mut out = chars_of("\\\\");
        push_chars(&mut out, slice_subrange(p.as_slice(), k, p.len()));
        assert(p@.subrange(k as int, p@.len() as int) =~= p@.skip(k as int));
        string_of(&out)
    } else if starts_with_str(&p, "\\\\?\\") {
        let k = chars_of("\\\\?\\").len();
        assert(p@.subrange(k as int, p@.len() as int) =~= p@.skip(k as int));
        string_of(slice_subrange(p.as_slice(), k, p.len()))
    } else {
        string_of(&p)
    }
}

fn push_eval_args(out: &mut Vec<String>, project_arg: &[char], code: &str)
    requires
        old(out)@.len() == 0,
    ensures
        sviews(final(out)@) == eval_args(project_arg@, code@),
{
    assert(sviews(out@) =~= Seq::<Seq<char>>::empty());
    push_owned(out, "--format");
    push_owned(out, "json");
    push_owned(out, "command");
    push_string(out, project_arg);
    push_owned(out, "eval");
    push_owned(out, "--");
    push_owned(out, "--code");
    push_owned(out, code);
    assert(sviews(out@) =~= eval_args(project_arg@, code@));
}

impl UnityAction {
    /// The CLI call for the action on the platform the program runs on:
    /// `to_cli_args_for` with the project path spelled as it is, or, on
    /// Windows, without the extended-length prefix.
    pub fn to_cli_args(self, eval_input: &str, project: &str) -> (r: (String, Vec<String>, LoopPhase))
        ensures
            (r.0@, sviews(r.1@), r.2) == cli_call(self, eval_input@, project@) || (
            r.0@,
            sviews(r.1@),
            r.2,
            ) == cli_call(self, eval_input@, windows_cli_path(project@)),
    {
        self.to_cli_args_for(eval_input, project, on_windows())
    }

    /// The CLI call for the action: `(title, arguments, loop phase)`, with
    /// `eval_input` as the C# of an Eval and `project` as the project path,
    /// spelled for the CLI on the platform `windows` tells (`cli_spelling`).
    pub fn to_cli_args_for(self, eval_input: &str, project: &str, windows: bool) -> (r: (
        String,
        Vec<String>,
        LoopPhase,
    ))
        ensures
            (r.0@, sviews(r.1@), r.2) == cli_call(self, eval_input@, cli_spelling(project@, windows)),
    {
        let spelled = cli_path_for(project, windows);
        let mut pp = chars_of("--project-path=");
        push_str(&mut pp, spelled.as_str());
        let mut args: Vec<String> = Vec::new();
        assert(sviews(args@) =~= Seq::<Seq<char>>::empty());
        let ghost spec = cli_call(self, eval_input@, cli_spelling(project@, windows));
        match self {
            UnityAction::RefreshDetect | UnityAction::RunFullLoop => {
                push_owned(&mut args, "--help");
                assert(sviews(args@) =~= spec.1);
                ("重新检测 CLI".to_owned(), args, LoopPhase::Observe)
            },
            UnityAction::ListEditors => {
                push_owned(&mut args, "editors");
                push_owned(&mut args, "--format");
                push_owned(&mut args, "json");
                assert(sviews(args@) =~= spec.1);
                ("列出已安装编辑器".to_owned(), args, LoopPhase::Observe)
            },
            UnityAction::ListPipeline => {
                push_owned(&mut args, "pipeline");
                push_owned(&mut args, "list");
                assert(sviews(args@) =~= spec.1);
                ("刷新 Pipeline 列表".to_owned(), args, LoopPhase::Observe)
            },
            UnityAction::InstallPipeline => {
                push_owned(&mut args, "pipeline");
                push_owned(&mut args, "install");
                assert(sviews(args@) =~= spec.1);
                ("安装 com.unity.pipeline".to_owned(), args, LoopPhase::Observe)
            },
            UnityAction::ListCommands | UnityAction::ProbeEditor => {
                let title = if self == UnityAction::ProbeEditor {
                    "探测编辑器连接"
                } else {
                    "发现已注册命令"
                };
                push_owned(&mut args, "command");
                push_string(&mut args, &pp);
                assert(sviews(args@) =~= spec.1);
                (title.to_owned(), args, LoopPhase::Observe)
            },
            UnityAction::Eval => {
                push_eval_args(&mut args, &pp, eval_input);
                ("Eval C# 表达式".to_owned(), args, LoopPhase::Act)
            },
            UnityAction::ObserveCollider => {
                push_eval_args(&mut args, &pp, OBSERVE_COLLIDER_CODE);
                ("观察碰撞体".to_owned(), args, LoopPhase::Observe)
            },
            UnityAction::FixCollider => {
                push_eval_args(&mut args, &pp, FIX_COLLIDER_CODE);
                ("修复碰撞体".to_owned(), args, LoopPhase::Act)
            },
            UnityAction::EnterPlayMode => {
                push_eval_args(&mut args, &pp, ENTER_PLAY_CODE);
                ("进入 Play Mode".to_owned(), args, LoopPhase::Verify)
            },
            UnityAction::ExitPlayMode => {
                push_eval_args(&mut args, &pp, EXIT_PLAY_CODE);
                ("退出 Play Mode".to_owned(), args, LoopPhase::Verify)
            },
        }
    }
}

/// A shell-like rendering of a command line: arguments holding a space are
/// put in double quotes.
pub open spec fn command_line(bin: Seq<char>, args: Seq<Seq<char>>) -> Seq<char> {
    join(
        seq![bin] + args.map_values(
            |a: Seq<char>|
                if has_char(a, ' ') {
                    "\""@ + a + "\""@
                } else {
                    a
                },
        ),
        " "@,
    )
}

pub fn format_command(bin: &str, args: &Vec<String>) -> (r: String)
    ensures
        r@ == command_line(bin@, sviews(args@)),
{
    let mut parts: Vec<Vec<char>> = Vec::new();
    parts.push(chars_of(bin));
    let ghost f = |a: Seq<char>|
        if has_char(a, ' ') {
            "\""@ + a + "\""@
        } else {
            a
        };
    let mut i: usize = 0;
    while i < args.len()
        invariant
            i <= args.len(),
            f == (|a: Seq<char>|
                if has_char(a, ' ') {
                    "\""@ + a + "\""@
                } else {
                    a
                }),
            views(parts@) == seq![bin@] + sviews(args@).take(i as int).map_values(f),
        decreases args.len() - i,
    {
        let a = chars_of(args[i].as_str());
        let piece = if contains_char(&a, ' ') {
            let mut q = chars_of("\"");
            push_chars(&mut q, &a);
            push_str(&mut q, "\"");
            q
        } else {
            a
        };
        proof {
            assert(views(parts@.push(piece)) =~= views(parts@).push(piece@));
            assert(sviews(args@).take(i + 1).map_values(f) =~= sviews(args@).take(
                i as int,
            ).map_values(f).push(f(sviews(args@)[i as int])));
        }
        parts.push(piece);
        i = i + 1;
    }
    assert(sviews(args@).take(args.len() as int) =~= sviews(args@));
    let j = join_with(&parts, " ");
    string_of(&j)
}

/// A field that reads as a version number: it starts with an ASCII digit
/// and holds a `'.'`.
pub open spec fn is_version_word(w: Seq<char>) -> bool {
    w.len() > 0 && is_digit(w[0]) && has_char(w, '.')
}

/// Index of the first version field of `ws` from `k` on.
pub open spec fn first_version_from(ws: Seq<Seq<char>>, k: int) -> Option<int>
    decreases ws.len() - k,
{
    if k < 0 || k >= ws.len() {
        None
    } else if is_version_word(ws[k]) {
        Some(k)
    } else {
        first_version_from(ws, k + 1)
    }
}

/// `"true"` or `"false"`, in any ASCII case.
pub open spec fn bool_word(w: Seq<char>) -> Option<bool> {
    if ascii_lower_seq(w) == "true"@ {
        Some(true)
    } else if ascii_lower_seq(w) == "false"@ {
        Some(false)
    } else {
        None
    }
}

/// The flag of the first pair of neighbouring fields, from `k` on, made of
/// a port number (`u16`) and a boolean.
pub open spec fn port_flag_from(ws: Seq<Seq<char>>, k: int) -> Option<bool>
    decreases ws.len() - k,
{
    if k < 0 || k + 1 >= ws.len() {
        None
    } else if parse_unsigned(ws[k], 65535) is Some && bool_word(ws[k + 1]) is Some {
        bool_word(ws[k + 1])
    } else {
        port_flag_from(ws, k + 1)
    }
}

/// Whether the Pipeline editor server is reachable, read from the CLI's
/// table by the port field that precedes the flag, after the version field.
/// This survives a missing PID and wrapped header lines.
pub open spec fn server_reachable(raw: Seq<char>) -> Option<bool> {
    match first_version_from(words(raw), 0) {
        Some(v) => port_flag_from(words(raw), v + 1),
        None => None,
    }
}

fn first_version_index(ws: &Vec<Vec<char>>) -> (r: Option<usize>)
    ensures
        match r {
            Some(i) => first_version_from(views(ws@), 0) == Some(i as int) && i < ws@.len(),
            None => first_version_from(views(ws@), 0) is None,
        },
{
    let mut i: usize = 0;
    while i < ws.len()
        invariant
            i <= ws.len(),
            first_version_from(views(ws@), 0) == first_version_from(views(ws@), i as int),
        decreases ws.len() - i,
    {
        let w = &ws[i];
        assert(views(ws@)[i as int] == w@);
        if w.len() > 0 && is_ascii_digit(w[0]) && contains_char(w, '.') {
            return Some(i);
        }
        i = i + 1;
    }
    None
}

fn bool_word_of(w: &[char]) -> (r: Option<bool>)
    ensures
        r == bool_word(w@),
{
    let l = ascii_lowercase(w);
    if eq_str(&l, "true") {
        Some(true)
    } else if eq_str(&l, "false") {
        Some(false)
    } else {
        None
    }
}

/// The reachability flag of the Pipeline server in `pipeline list` output
/// (`server_reachable`).
pub fn pipeline_server_reachable(raw: &str) -> (r: Option<bool>)
    ensures
        r == server_reachable(raw@),
{
    let cs = chars_of(raw);
    let ws = words_of(&cs);
    let v = match first_version_index(&ws) {
        Some(v) => v,
        None => {
            return None;
        },
    };
    let n = ws.len();
    let mut k: usize = v + 1;
    while k < n && k + 1 < n
        invariant
            n == ws@.len(),
            v < ws@.len(),
            v + 1 <= k,
            views(ws@) == words(cs@),
            cs@ == raw@,
            server_reachable(raw@) == port_flag_from(views(ws@), k as int),
        decreases ws.len() - k,
    {
        assert(views(ws@)[k as int] == ws@[k as int]@);
        assert(views(ws@)[k + 1] == ws@[k + 1]@);
        let port = parse_uint(&ws[k], 65535);
        let flag = bool_word_of(&ws[k + 1]);
        if port.is_some() && flag.is_some() {
            return flag;
        }
        k = k + 1;
    }
    None
}

/// Index of the first line of `ls`, from `k` on, that is not blank.
pub open spec fn first_nonblank_from(ls: Seq<Seq<char>>, k: int) -> Option<int>
    decreases ls.len() - k,
{
    if k < 0 || k >= ls.len() {
        None
    } else if trim(ls[k]).len() > 0 {
        Some(k)
    } else {
        first_nonblank_from(ls, k + 1)
    }
}

fn first_nonblank_index(ls: &Vec<Vec<char>>) -> (r: Option<usize>)
    ensures
        match r {
            Some(i) => first_nonblank_from(views(ls@), 0) == Some(i as int) && i < ls@.len(),
            None => first_nonblank_from(views(ls@), 0) is None,
        },
{
    let mut i: usize = 0;
    while i < ls.len()
        invariant
            i <= ls.len(),
            first_nonblank_from(views(ls@), 0) == first_nonblank_from(views(ls@), i as int),
        decreases ls.len() - i,
    {
        assert(views(ls@)[i as int] == ls@[i as int]@);
        let t = trimmed(&ls[i]);
        if t.len() > 0 {
            return Some(i);
        }
        i = i + 1;
    }
    None
}

/// The first non-blank line of `s`, trimmed, cut to at most `max`
/// characters with `'…'` marking a cut; `s` itself, trimmed, when no line
/// holds anything.
pub open spec fn one_line(s: Seq<char>, max: nat) -> Seq<char> {
    let line = match first_nonblank_from(lines(s), 0) {
        Some(i) => lines(s)[i],
        None => s,
    };
    let t = trim(line);
    if t.len() <= max {
        t
    } else {
        t.take(if max >= 1 { max - 1 } else { 0 }).push('…')
    }
}

pub fn truncate_one_line(s: &str, max: usize) -> (r: String)
    ensures
        r@ == one_line(s@, max as nat),
{
    let cs = chars_of(s);
    let ls = lines_of(&cs);
    let line: Vec<char> = match first_nonblank_index(&ls) {
        Some(i) => {
            assert(views(ls@)[i as int] == ls@[i as int]@);
            slice_to_vec(ls[i].as_slice())
        },
        None => cs,
    };
    let t = trimmed(&line);
    if t.len() <= max {
        string_of(&t)
    } else {
        let keep = if max >= 1 {
            max - 1
        } else {
            0
        };
        let mut out = slice_to_vec(slice_subrange(t.as_slice(), 0, keep));
        out.push('…');
        assert(out@ =~= t@.take(keep as int).push('…'));
        string_of(&out)
    }
}

/// The first non-blank line, trimmed.
pub open spec fn first_nonblank_line(s: Seq<char>) -> Option<Seq<char>> {
    match first_nonblank_from(lines(s), 0) {
        Some(i) => Some(trim(lines(s)[i])),
        None => None,
    }
}

pub fn first_nonempty_line(s: &str) -> (r: Option<String>)
    ensures
        match r {
            Some(l) => first_nonblank_line(s@) == Some(l@),
            None => first_nonblank_line(s@) is None,
        },
{
    let cs = chars_of(s);
    let ls = lines_of(&cs);
    match first_nonblank_index(&ls) {
        Some(i) => {
            assert(views(ls@)[i as int] == ls@[i as int]@);
            let t = trimmed(&ls[i]);
            Some(string_of(&t))
        },
        None => None,
    }
}

/// Whether a `--help` call answered like the Unity CLI: it succeeded, or
/// printed a usage text or the word "unity".
pub open spec fn cli_answered(ok: bool, stdout: Seq<char>) -> bool {
    ok || has_sub(stdout, "Usage"@) || has_sub(unicode_lowercase(stdout), "unity"@)
}

pub fn answered_like_cli(ok: bool, stdout: &str) -> (r: bool)
    ensures
        r == cli_answered(ok, stdout@),
{
    if ok {
        return true;
    }
    let cs = chars_of(stdout);
    if contains_str(&cs, "Usage") {
        return true;
    }
    let lower = lowercase(&cs);
    contains_str(&lower, "unity")
}

/// The version line shown for a found CLI: the first non-blank line of its
/// output, else of its error output, else `fallback`.
pub open spec fn cli_version(stdout: Seq<char>, stderr: Seq<char>, fallback: Seq<char>) -> Seq<char> {
    match first_nonblank_line(stdout) {
        Some(l) => l,
        None => match first_nonblank_line(stderr) {
            Some(l) => l,
            None => fallback,
        },
    }
}

pub fn version_line_of(stdout: &str, stderr: &str, fallback: &str) -> (r: String)
    ensures
        r@ == cli_version(stdout@, stderr@, fallback@),
{
    match first_nonempty_line(stdout) {
        Some(l) => l,
        None => match first_nonempty_line(stderr) {
            Some(l) => l,
            None => fallback.to_owned(),
        },
    }
}

/// One text from a command's two output streams.
pub open spec fn merged(stdout: Seq<char>, stderr: Seq<char>) -> Seq<char> {
    if stderr.len() == 0 {
        stdout
    } else if stdout.len() == 0 {
        stderr
    } else {
        stdout + "\n--- stderr ---\n"@ + stderr
    }
}

pub fn merge_streams(stdout: &str, stderr: &str) -> (r: String)
    ensures
        r@ == merged(stdout@, stderr@),
{
    if stderr.is_empty() {
        stdout.to_owned()
    } else if stdout.is_empty() {
        stderr.to_owned()
    } else {
        let mut out = chars_of(stdout);
        push_str(&mut out, "\n--- stderr ---\n");
        push_str(&mut out, stderr);
        string_of(&out)
    }
}

/// A one-line summary of `pipeline list` output.
pub open spec fn pipeline_summary(raw: Seq<char>) -> Seq<char> {
    let lower = unicode_lowercase(raw);
    if has_sub(lower, "server"@) && has_sub(lower, "reachable"@) {
        let version = match first_version_from(words(raw), 0) {
            Some(i) => words(raw)[i],
            None => "未知版本"@,
        };
        match server_reachable(raw) {
            Some(true) => "Pipeline "@ + version + " · 编辑器服务可达"@,
            Some(false) => "Pipeline "@ + version + " · 包已登记，编辑器服务尚未启动"@,
            None => "Pipeline "@ + version + " · 尚未识别编辑器服务状态"@,
        }
    } else if has_sub(lower, "installed"@) {
        "Pipeline: Installed"@
    } else if first_nonblank_from(lines(raw), 0) is None {
        "无 Pipeline 项目"@
    } else {
        one_line(raw, 160)
    }
}

pub fn summarize_pipeline_list(raw: &str) -> (r: String)
    ensures
        r@ == pipeline_summary(raw@),
{
    let cs = chars_of(raw);
    let lower = lowercase(&cs);
    if contains_str(&lower, "server") && contains_str(&lower, "reachable") {
        let ws = words_of(&cs);
        let version: Vec<char> = match first_version_index(&ws) {
            Some(i) => {
                assert(views(ws@)[i as int] == ws@[i as int]@);
                slice_to_vec(ws[i].as_slice())
            },
            None => chars_of("未知版本"),
        };
        let mut out = chars_of("Pipeline ");
        push_chars(&mut out, &version);
        match pipeline_server_reachable(raw) {
            Some(true) => push_str(&mut out, " · 编辑器服务可达"),
            Some(false) => push_str(&mut out, " · 包已登记，编辑器服务尚未启动"),
            None => push_str(&mut out, " · 尚未识别编辑器服务状态"),
        }
        return string_of(&out);
    }
    if contains_str(&lower, "installed") {
        return "Pipeline: Installed".to_owned();
    }
    let ls = lines_of(&cs);
    if first_nonblank_index(&ls).is_none() {
        return "无 Pipeline 项目".to_owned();
    }
    truncate_one_line(raw, 160)
}

/// The Pipeline status that `pipeline` command output shows.
pub open spec fn pipeline_status_of(raw: Seq<char>, ok: bool) -> PipelineStatus {
    let lower = unicode_lowercase(raw);
    if !ok {
        PipelineStatus::Error
    } else if has_sub(lower, "not installed"@) || has_sub(lower, "notinstalled"@) {
        PipelineStatus::NotInstalled
    } else if has_sub(lower, "installed"@) || has_sub(lower, "com.unity.pipeline"@) || has_sub(
        lower,
        "pipeline: installed"@,
    ) {
        PipelineStatus::Installed
    } else if trim(raw).len() == 0 {
        PipelineStatus::NotInstalled
    } else {
        PipelineStatus::Installed
    }
}

pub fn infer_pipeline_status(raw: &str, ok: bool) -> (r: PipelineStatus)
    ensures
        r == pipeline_status_of(raw@, ok),
{
    if !ok {
        return PipelineStatus::Error;
    }
    let cs = chars_of(raw);
    let lower = lowercase(&cs);
    if contains_str(&lower, "not installed") || contains_str(&lower, "notinstalled") {
        PipelineStatus::NotInstalled
    } else if contains_str(&lower, "installed") || contains_str(&lower, "com.unity.pipeline")
        || contains_str(&lower, "pipeline: installed") {
        PipelineStatus::Installed
    } else if trimmed(&cs).len() == 0 {
        PipelineStatus::NotInstalled
    } else {
        PipelineStatus::Installed
    }
}

/// The editor link that `command` output shows.
pub open spec fn editor_link_of(raw: Seq<char>, ok: bool) -> EditorLinkStatus {
    let lower = unicode_lowercase(raw);
    if !ok {
        EditorLinkStatus::Disconnected
    } else if has_sub(lower, "no editor"@) || has_sub(lower, "not connected"@) || has_sub(
        lower,
        "could not"@,
    ) || has_sub(lower, "failed"@) {
        EditorLinkStatus::Disconnected
    } else if trim(raw).len() == 0 {
        EditorLinkStatus::Disconnected
    } else {
        EditorLinkStatus::Connected
    }
}

pub fn infer_editor_link(raw: &str, ok: bool) -> (r: EditorLinkStatus)
    ensures
        r == editor_link_of(raw@, ok),
{
    if !ok {
        return EditorLinkStatus::Disconnected;
    }
    let cs = chars_of(raw);
    let lower = lowercase(&cs);
    if contains_str(&lower, "no editor") || contains_str(&lower, "not connected") || contains_str(
        &lower,
        "could not",
    ) || contains_str(&lower, "failed") {
        EditorLinkStatus::Disconnected
    } else if trimmed(&cs).len() == 0 {
        EditorLinkStatus::Disconnected
    } else {
        EditorLinkStatus::Connected
    }
}

/// The JSON Pointer to member `key` of item `i` of an array.
pub open spec fn item_pointer(i: nat, key: Seq<char>) -> Seq<char> {
    "/"@ + dec(i) + "/"@ + key
}

/// The version string of item `i` of an editor list: its `version` member,
/// or its `Version` member where it has no `version` at all.
pub open spec fn editor_version_at(raw: Seq<char>, i: nat) -> Option<Seq<char>> {
    match json_pointer_text(raw, item_pointer(i, "version"@)) {
        Some(Some(v)) => Some(v),
        Some(None) => None,
        None => match json_pointer_text(raw, item_pointer(i, "Version"@)) {
            Some(Some(v)) => Some(v),
            _ => None,
        },
    }
}

/// The version strings of the first `k` items, in order.
pub open spec fn editor_versions(raw: Seq<char>, k: nat) -> Seq<Seq<char>>
    decreases k,
{
    if k == 0 {
        Seq::empty()
    } else {
        let prev = editor_versions(raw, (k - 1) as nat);
        match editor_version_at(raw, (k - 1) as nat) {
            Some(v) => prev.push(v),
            None => prev,
        }
    }
}

/// A one-line summary of `unity editors --format json` output: the number
/// of editors and the first four versions.
pub open spec fn editors_summary(raw: Seq<char>) -> Seq<char> {
    match json_array_length(raw) {
        None => one_line(raw, 120),
        Some(n) => if n == 0 {
            "0 个已安装编辑器"@
        } else {
            let all = editor_versions(raw, n);
            let vs = if all.len() > 4 {
                all.take(4)
            } else {
                all
            };
            if vs.len() == 0 {
                dec(n) + " 个编辑器"@
            } else {
                dec(n) + " 个："@ + join(vs, ", "@)
            }
        },
    }
}

fn item_pointer_of(i: usize, key: &str) -> (r: String)
    ensures
        r@ == item_pointer(i as nat, key@),
{
    let mut p = chars_of("/");
    let d = decimal(i as u64);
    push_chars(&mut p, &d);
    push_str(&mut p, "/");
    push_str(&mut p, key);
    string_of(&p)
}

fn editor_version(raw: &str, i: usize) -> (r: Option<String>)
    ensures
        opt_string_view(r) == editor_version_at(raw@, i as nat),
{
    let p = item_pointer_of(i, "version");
    match json_at(raw, p.as_str()) {
        Some(Some(v)) => Some(v),
        Some(None) => None,
        None => {
            let q = item_pointer_of(i, "Version");
            match json_at(raw, q.as_str()) {
                Some(Some(v)) => Some(v),
                _ => None,
            }
        },
    }
}

pub fn summarize_editors_json(raw: &str) -> (r: String)
    ensures
        r@ == editors_summary(raw@),
{
    let n = match json_array_len(raw) {
        None => return truncate_one_line(raw, 120),
        Some(n) => n,
    };
    if n == 0 {
        return "0 个已安装编辑器".to_owned();
    }
    let mut vs: Vec<Vec<char>> = Vec::new();
    let mut i: usize = 0;
    while i < n
        invariant
            i <= n,
            views(vs@) == editor_versions(raw@, i as nat),
        decreases n - i,
    {
        match editor_version(raw, i) {
            Some(v) => {
                let cs = chars_of(v.as_str());
                assert(views(vs@.push(cs)) =~= views(vs@).push(cs@));
                vs.push(cs);
            },
            None => {},
        }
        i = i + 1;
    }
    let ghost all = views(vs@);
    if vs.len() > 4 {
        vs.truncate(4);
        assert(views(vs@) =~= all.take(4));
    }
    let count = decimal(n as u64);
    let mut out = count;
    if vs.len() == 0 {
        push_str(&mut out, " 个编辑器");
    } else {
        push_str(&mut out, " 个：");
        let j = join_with(&vs, ", ");
        push_chars(&mut out, &j);
    }
    string_of(&out)
}

/// The marker line that `command eval` prints before its parameters.
pub open spec fn is_result_line(l: Seq<char>) -> bool {
    trim(l).len() > 0 && !has_sub(ascii_lower_seq(trim(l)), "command success result parameters"@)
}

/// The index of the last line below `k` that `is_result_line`.
pub open spec fn last_result_line(ls: Seq<Seq<char>>, k: int) -> Option<int>
    decreases k,
{
    if k <= 0 {
        None
    } else if is_result_line(ls[k - 1]) {
        Some(k - 1)
    } else {
        last_result_line(ls, k - 1)
    }
}

/// A one-line summary of `command eval` output: the JSON result when there
/// is one, the first error when it reports failure, else its last line of
/// text.
pub open spec fn eval_summary(raw: Seq<char>) -> Seq<char> {
    let result = match json_pointer_dump(raw, "/data/result"@) {
        Some(d) => Some(d),
        None => json_pointer_dump(raw, "/result"@),
    };
    match result {
        Some(d) => one_line(d, 160),
        None => if json_pointer_bool(raw, "/success"@) == Some(false) {
            match json_pointer_text(raw, "/errors/0/message"@) {
                Some(Some(m)) => one_line(m, 160),
                _ => "Unity Eval 失败"@,
            }
        } else {
            match last_result_line(lines(raw), lines(raw).len() as int) {
                Some(i) => one_line(trim(lines(raw)[i]), 160),
                None => "Unity Eval 未返回结果"@,
            }
        },
    }
}

pub fn summarize_eval_output(raw: &str) -> (r: String)
    ensures
        r@ == eval_summary(raw@),
{
    let result = match json_dump_at(raw, "/data/result") {
        Some(d) => Some(d),
        None => json_dump_at(raw, "/result"),
    };
    if let Some(d) = result {
        return truncate_one_line(d.as_str(), 160);
    }
    if json_bool_at(raw, "/success") == Some(false) {
        return match json_at(raw, "/errors/0/message") {
            Some(Some(m)) => truncate_one_line(m.as_str(), 160),
            _ => "Unity Eval 失败".to_owned(),
        };
    }
    let cs = chars_of(raw);
    let ls = lines_of(&cs);
    let mut k: usize = ls.len();
    while k > 0
        invariant
            k <= ls@.len(),
            views(ls@) == lines(raw@),
            json_pointer_dump(raw@, "/data/result"@) is None,
            json_pointer_dump(raw@, "/result"@) is None,
            json_pointer_bool(raw@, "/success"@) != Some(false),
            last_result_line(views(ls@), ls@.len() as int) == last_result_line(
                views(ls@),
                k as int,
            ),
        decreases k,
    {
        assert(views(ls@)[k - 1] == ls@[k - 1]@);
        let t = trimmed(&ls[k - 1]);
        let lower = ascii_lowercase(&t);
        if t.len() > 0 && !contains_str(&lower, "command success result parameters") {
            let line = string_of(&t);
            return truncate_one_line(line.as_str(), 160);
        }
        k = k - 1;
    }
    "Unity Eval 未返回结果".to_owned()
}

/// Whether `command eval` output is JSON that reports success, at its top
/// level or under `data`, and nowhere reports failure.
pub open spec fn eval_succeeded(raw: Seq<char>) -> bool {
    let s = json_pointer_bool(raw, "/success"@);
    let d = json_pointer_bool(raw, "/data/success"@);
    s != Some(false) && d != Some(false) && (s == Some(true) || d == Some(true))
}

pub fn eval_output_succeeded(raw: &str) -> (r: bool)
    ensures
        r == eval_succeeded(raw@),
{
    let s = json_bool_at(raw, "/success");
    let d = json_bool_at(raw, "/data/success");
    s != Some(false) && d != Some(false) && (s == Some(true) || d == Some(true))
}

/// How long ago `at` was, seen at time `now` (both in Unix seconds).
pub open spec fn relative_time(now: u64, at: u64) -> Seq<char> {
    let secs: nat = if now >= at { (now - at) as nat } else { 0 };
    if secs < 5 {
        "刚刚"@
    } else if secs < 60 {
        dec(secs) + " 秒前"@
    } else if secs < 3600 {
        dec(secs / 60) + " 分钟前"@
    } else if secs < 86400 {
        dec(secs / 3600) + " 小时前"@
    } else {
        dec(secs / 86400) + " 天前"@
    }
}

pub fn format_relative_at(now: u64, at: u64) -> (r: String)
    ensures
        r@ == relative_time(now, at),
{
    let secs: u64 = if now >= at {
        now - at
    } else {
        0
    };
    let mut out: Vec<char>;
    if secs < 5 {
        out = chars_of("刚刚");
    } else if secs < 60 {
        out = decimal(secs);
        push_str(&mut out, " 秒前");
    } else if secs < 3600 {
        out = decimal(secs / 60);
        push_str(&mut out, " 分钟前");
    } else if secs < 86400 {
        out = decimal(secs / 3600);
        push_str(&mut out, " 小时前");
    } else {
        out = decimal(secs / 86400);
        push_str(&mut out, " 天前");
    }
    string_of(&out)
}

/// How long ago `at_unix` was, by the system clock.
pub fn format_relative(at_unix: u64) -> (r: String)
    ensures
        exists|now: u64| r@ == relative_time(now, at_unix),
{
    let now = now_unix();
    format_relative_at(now, at_unix)
}

pub const PLAN_INVALID: &'static str = "Unity 计划格式无效：";

pub const PLAN_INCOMPLETE: &'static str = "Unity 计划缺少 summary 或 csharp";

pub const PLAN_TOO_LONG: &'static str = "Unity 计划过长，已拒绝执行";

pub const PLAN_FORBIDDEN: &'static str = "Unity 计划包含禁止的越界 API：";

/// The longest C# plan, in UTF-8 bytes, that is accepted.
pub const PLAN_MAX_BYTES: usize = 24000;

/// APIs that could reach past the editor and the project: a plan whose C#,
/// in ASCII lowercase, holds one of them is refused.
pub open spec fn blocked_apis() -> Seq<Seq<char>> {
    seq![
        "system.io"@,
        "system.net"@,
        "system.diagnostics.process"@,
        "microsoft.win32"@,
        "dllimport"@,
        "marshal."@,
        "environment.exit"@,
        "file."@,
        "directory."@,
        "webrequest"@,
        "httpclient"@,
        "reflection"@,
        "assembly.load"@,
    ]
}

fn blocked_api_list() -> (r: Vec<&'static str>)
    ensures
        r@.map_values(|a: &'static str| a@) == blocked_apis(),
{
    let v = vec![
        "system.io",
        "system.net",
        "system.diagnostics.process",
        "microsoft.win32",
        "dllimport",
        "marshal.",
        "environment.exit",
        "file.",
        "directory.",
        "webrequest",
        "httpclient",
        "reflection",
        "assembly.load",
    ];
    assert(v@.map_values(|a: &'static str| a@) =~= blocked_apis());
    v
}

/// The APIs of `apis` that occur in `lower`, in list order.
pub open spec fn risks_of(lower: Seq<char>, apis: Seq<Seq<char>>) -> Seq<Seq<char>>
    decreases apis.len(),
{
    if apis.len() == 0 {
        Seq::empty()
    } else if has_sub(lower, apis.last()) {
        risks_of(lower, apis.drop_last()).push(apis.last())
    } else {
        risks_of(lower, apis.drop_last())
    }
}

/// The JSON inside a plan: the trimmed text, or the body of a Markdown code
/// fence (after its first line, before its last closing fence).
pub open spec fn fence_body(t: Seq<char>) -> Seq<char> {
    if starts_with(t, "```"@) {
        let body = match find_char_from(t, '\n', 0) {
            Some(i) => t.skip(i + 1),
            None => t,
        };
        match rfind(body, "```"@) {
            Some(j) => body.take(j),
            None => body,
        }
    } else {
        t
    }
}

pub open spec fn plan_json(raw: Seq<char>) -> Seq<char> {
    trim(fence_body(trim(raw)))
}

/// What a generated Unity plan compiles to, given the typed parse of its
/// JSON (`plan_json`) into `(summary, C#)` or the parser's error message:
/// `(summary, C#, forbidden APIs found)`, or the error message.
pub open spec fn plan_outcome(parsed: Result<(Seq<char>, Seq<char>), Seq<char>>) -> Result<
    (Seq<char>, Seq<char>, Seq<Seq<char>>),
    Seq<char>,
> {
    match parsed {
        Err(e) => Err(PLAN_INVALID@ + e),
        Ok((summary, csharp)) => if trim(summary).len() == 0 || trim(csharp).len() == 0 {
            Err(PLAN_INCOMPLETE@)
        } else if (encode_utf8(csharp).len() as usize) > PLAN_MAX_BYTES {
            Err(PLAN_TOO_LONG@)
        } else {
            Ok((trim(summary), trim(csharp), risks_of(ascii_lower_seq(csharp), blocked_apis())))
        },
    }
}

/// The plan accepted for execution: refused as soon as it holds a forbidden
/// API.
pub open spec fn plan_checked(parsed: Result<(Seq<char>, Seq<char>), Seq<char>>) -> Result<
    (Seq<char>, Seq<char>),
    Seq<char>,
> {
    match plan_outcome(parsed) {
        Err(e) => Err(e),
        Ok(p) => if p.2.len() > 0 {
            Err(PLAN_FORBIDDEN@ + p.2[0])
        } else {
            Ok((p.0, p.1))
        },
    }
}

pub open spec fn parsed_view(parsed: Result<(String, String), String>) -> Result<
    (Seq<char>, Seq<char>),
    Seq<char>,
> {
    match parsed {
        Ok((a, b)) => Ok((a@, b@)),
        Err(e) => Err(e@),
    }
}

/// The JSON text of an agent-generated Unity plan (`plan_json`): the reply
/// trimmed, or the body of its Markdown code fence. The caller parses it
/// into the plan's two string fields, `summary` and `csharp`.
pub fn plan_json_of(raw: &str) -> (r: String)
    ensures
        r@ == plan_json(raw@),
{
    string_of(&plan_json_text(raw))
}

fn plan_json_text(raw: &str) -> (r: Vec<char>)
    ensures
        r@ == plan_json(raw@),
{
    let cs = chars_of(raw);
    let t = trimmed(&cs);
    if !starts_with_str(&t, "```") {
        return trimmed(&t);
    }
    let body: Vec<char> = match find_char(&t, '\n') {
        Some(i) => {
            assert(t@.subrange(i + 1, t@.len() as int) =~= t@.skip(i + 1));
            slice_to_vec(slice_subrange(t.as_slice(), i + 1, t.len()))
        },
        None => t,
    };
    let fence = chars_of("```");
    let inner: Vec<char> = match rfind_chars(&body, &fence) {
        Some(j) => {
            assert(body@.subrange(0, j as int) =~= body@.take(j as int));
            slice_to_vec(slice_subrange(body.as_slice(), 0, j))
        },
        None => body,
    };
    trimmed(&inner)
}

fn plan_error(detail: &str) -> (r: String)
    ensures
        r@ == PLAN_INVALID@ + detail@,
{
    let mut out = chars_of(PLAN_INVALID);
    push_str(&mut out, detail);
    string_of(&out)
}

/// Checks an agent-generated Unity plan, given the parse of its JSON
/// (`plan_json_of`) into `(summary, csharp)` or the parser's error, and lists
/// the forbidden APIs its C# holds, without refusing it for them
/// (`plan_outcome`).
pub fn accept_generated_plan_unrestricted(parsed: Result<(String, String), String>) -> (r: Result<
    (String, String, Vec<String>),
    String,
>)
    ensures
        match r {
            Ok(p) => plan_outcome(parsed_view(parsed)) == Ok::<_, Seq<char>>(
                (p.0@, p.1@, sviews(p.2@)),
            ),
            Err(e) => plan_outcome(parsed_view(parsed)) == Err::<
                (Seq<char>, Seq<char>, Seq<Seq<char>>),
                _,
            >(e@),
        },
{
    let (summary, csharp) = match parsed {
        Err(e) => {
            return Err(plan_error(e.as_str()));
        },
        Ok(p) => p,
    };
    let sc = chars_of(summary.as_str());
    let cc = chars_of(csharp.as_str());
    let st = trimmed(&sc);
    let ct = trimmed(&cc);
    if st.len() == 0 || ct.len() == 0 {
        return Err(PLAN_INCOMPLETE.to_owned());
    }
    if csharp.as_str().len() > PLAN_MAX_BYTES {
        return Err(PLAN_TOO_LONG.to_owned());
    }
    let lower = ascii_lowercase(&cc);
    let apis = blocked_api_list();
    let ghost specs = blocked_apis();
    let mut risks: Vec<String> = Vec::new();
    let mut i: usize = 0;
    assert(sviews(risks@) =~= Seq::<Seq<char>>::empty());
    assert(specs.take(0) =~= Seq::<Seq<char>>::empty());
    while i < apis.len()
        invariant
            i <= apis.len(),
            specs == blocked_apis(),
            apis@.map_values(|a: &'static str| a@) == specs,
            sviews(risks@) == risks_of(lower@, specs.take(i as int)),
        decreases apis.len() - i,
    {
        assert(specs.take(i + 1).drop_last() =~= specs.take(i as int));
        assert(specs.take(i + 1).last() == apis@[i as int]@);
        if contains_str(&lower, apis[i]) {
            push_owned(&mut risks, apis[i]);
        }
        i = i + 1;
    }
    assert(specs.take(apis.len() as int) =~= specs);
    Ok((string_of(&st), string_of(&ct), risks))
}

/// Checks an agent-generated Unity plan, given the parse of its JSON, and
/// refuses it when its C# holds an API that can reach past the editor and
/// the project (`plan_checked`).
pub fn accept_generated_plan(parsed: Result<(String, String), String>) -> (r: Result<(String, String), String>)
    ensures
        match r {
            Ok(p) => plan_checked(parsed_view(parsed)) == Ok::<_, Seq<char>>((p.0@, p.1@)),
            Err(e) => plan_checked(parsed_view(parsed)) == Err::<(Seq<char>, Seq<char>), _>(e@),
        },
{
    match accept_generated_plan_unrestricted(parsed) {
        Err(e) => Err(e),
        Ok((summary, csharp, risks)) => {
            if risks.len() > 0 {
                assert(sviews(risks@)[0] == risks@[0]@);
                let mut out = chars_of(PLAN_FORBIDDEN);
                push_str(&mut out, risks[0].as_str());
                Err(string_of(&out))
            } else {
                Ok((summary, csharp))
            }
        },
    }
}

/// A package list of a Unity project (its manifest or its lock file) that
/// names the Pipeline package.
pub fn names_pipeline_package(text: &str) -> (r: bool)
    ensures
        r == has_sub(text@, "\"com.unity.pipeline\""@),
{
    contains_str(&chars_of(text), "\"com.unity.pipeline\"")
}

/// The editor has loaded the Pipeline package: the lock file names it and
/// the package cache holds a `com.unity.pipeline@…` folder. `lock_text` is
/// the lock file when it could be read; `cached` lists the cache's entries.
pub fn pipeline_loaded(lock_text: Option<&str>, cached: &[String]) -> (r: bool)
    ensures
        r == ((lock_text matches Some(t) && has_sub(t@, "\"com.unity.pipeline\""@)) && exists|k: int|
            0 <= k < cached.len() && starts_with(
                #[trigger] cached@[k]@,
                "com.unity.pipeline@"@,
            )),
{
    let locked = match lock_text {
        Some(t) => names_pipeline_package(t),
        None => false,
    };
    if !locked {
        return false;
    }
    let mut k: usize = 0;
    while k < cached.len()
        invariant
            k <= cached.len(),
            lock_text matches Some(t) && has_sub(t@, "\"com.unity.pipeline\""@),
            forall|j: int| 0 <= j < k ==> !starts_with(#[trigger] cached@[j]@, "com.unity.pipeline@"@),
        decreases cached.len() - k,
    {
        if starts_with_str(&chars_of(cached[k].as_str()), "com.unity.pipeline@") {
            return true;
        }
        k = k + 1;
    }
    false
}

/// What the file system shows of one folder: whether it has an `Assets`
/// folder, a `ProjectSettings` folder and a package list under `Packages`.
#[derive(Debug, Clone)]
pub struct ProjectProbe {
    pub path: String,
    pub assets_dir: bool,
    pub project_settings_dir: bool,
    pub packages_manifest: bool,
}

/// A Unity project root has `Assets/` and either `ProjectSettings/` or a
/// package manifest.
pub open spec fn unity_root(assets: bool, settings: bool, manifest: bool) -> bool {
    assets && (settings || manifest)
}

/// Whether the probed folder is a Unity project root (`unity_root`).
pub fn is_unity_project_root(probe: &ProjectProbe) -> (r: bool)
    ensures
        r == unity_root(probe.assets_dir, probe.project_settings_dir, probe.packages_manifest),
{
    probe.assets_dir && (probe.project_settings_dir || probe.packages_manifest)
}

/// The first Unity project root among the folder and its parents, looking
/// at twelve levels at most, spelled for display (`cli_spelling` on the
/// platform `windows` tells); `ancestors` lists the folder, then each parent
/// in turn.
pub fn find_unity_project_root_for(ancestors: &[ProjectProbe], windows: bool) -> (r: Option<String>)
    ensures
        match r {
            Some(p) => exists|i: int|
                0 <= i < ancestors.len() && i < 12 && p@ == cli_spelling(
                    (#[trigger] ancestors@[i]).path@,
                    windows,
                ) && unity_root(
                    ancestors@[i].assets_dir,
                    ancestors@[i].project_settings_dir,
                    ancestors@[i].packages_manifest,
                ) && forall|k: int|
                    0 <= k < i ==> !unity_root(
                        (#[trigger] ancestors@[k]).assets_dir,
                        ancestors@[k].project_settings_dir,
                        ancestors@[k].packages_manifest,
                    ),
            None => forall|k: int|
                0 <= k < ancestors.len() && k < 12 ==> !unity_root(
                    (#[trigger] ancestors@[k]).assets_dir,
                    ancestors@[k].project_settings_dir,
                    ancestors@[k].packages_manifest,
                ),
        },
{
    let mut i: usize = 0;
    while i < ancestors.len() && i < 12
        invariant
            i <= ancestors.len(),
            i <= 12,
            forall|k: int|
                0 <= k < i ==> !unity_root(
                    (#[trigger] ancestors@[k]).assets_dir,
                    ancestors@[k].project_settings_dir,
                    ancestors@[k].packages_manifest,
                ),
        decreases ancestors.len() - i,
    {
        if is_unity_project_root(&ancestors[i]) {
            let p = cli_path_for(ancestors[i].path.as_str(), windows);
            assert(p@ == cli_spelling(ancestors@[i as int].path@, windows));
            return Some(p);
        }
        i = i + 1;
    }
    None
}

/// `find_unity_project_root_for` on the platform the program runs on: the
/// root is spelled as given, or on Windows without the extended-length
/// prefix.
pub fn find_unity_project_root(ancestors: &[ProjectProbe]) -> (r: Option<String>)
    ensures
        match r {
            Some(p) => exists|i: int|
                0 <= i < ancestors.len() && i < 12 && (p@ == (#[trigger] ancestors@[i]).path@
                    || p@ == windows_cli_path(ancestors@[i].path@)) && unity_root(
                    ancestors@[i].assets_dir,
                    ancestors@[i].project_settings_dir,
                    ancestors@[i].packages_manifest,
                ) && forall|k: int|
                    0 <= k < i ==> !unity_root(
                        (#[trigger] ancestors@[k]).assets_dir,
                        ancestors@[k].project_settings_dir,
                        ancestors@[k].packages_manifest,
                    ),
            None => forall|k: int|
                0 <= k < ancestors.len() && k < 12 ==> !unity_root(
                    (#[trigger] ancestors@[k]).assets_dir,
                    ancestors@[k].project_settings_dir,
                    ancestors@[k].packages_manifest,
                ),
        },
{
    find_unity_project_root_for(ancestors, on_windows())
}

} // verus!
