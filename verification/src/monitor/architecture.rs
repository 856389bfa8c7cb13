//! The architecture page of the dashboard, refreshed with the scanned
//! modules of the desktop crate.

use vstd::prelude::*;
use crate::monitor::catalog::{CatalogSnapshot, DiscoveredView};
use crate::text::{chars_of, dec, decimal, eq_str, push_chars, push_owned, push_str, push_string, string_of, sviews};

verus! {

/// One layer of the architecture and the crates in it.
#[derive(Debug, Clone)]
pub struct ArchLayer {
    pub id: String,
    pub name: String,
    pub summary: String,
    pub crates: Vec<String>,
}

pub struct LayerView {
    pub id: Seq<char>,
    pub name: Seq<char>,
    pub summary: Seq<char>,
    pub crates: Seq<Seq<char>>,
}

impl View for ArchLayer {
    type V = LayerView;

    open spec fn view(&self) -> LayerView {
        LayerView { id: self.id@, name: self.name@, summary: self.summary@, crates: sviews(self.crates@) }
    }
}

pub open spec fn layer_views(v: Seq<ArchLayer>) -> Seq<LayerView> {
    v.map_values(|l: ArchLayer| l@)
}

/// A diagram served under `/repo-docs`.
#[derive(Debug, Clone)]
pub struct ArchDiagram {
    pub id: String,
    pub title: String,
    pub path: String,
}

pub struct DiagramView {
    pub id: Seq<char>,
    pub title: Seq<char>,
    pub path: Seq<char>,
}

impl View for ArchDiagram {
    type V = DiagramView;

    open spec fn view(&self) -> DiagramView {
        DiagramView { id: self.id@, title: self.title@, path: self.path@ }
    }
}

pub open spec fn diagram_views(v: Seq<ArchDiagram>) -> Seq<DiagramView> {
    v.map_values(|d: ArchDiagram| d@)
}

/// The architecture page.
#[derive(Debug, Clone)]
pub struct ArchitectureOverview {
    pub title: String,
    pub blurb: String,
    pub layers: Vec<ArchLayer>,
    pub diagrams: Vec<ArchDiagram>,
    pub flows: Vec<String>,
}

pub struct ArchView {
    pub title: Seq<char>,
    pub blurb: Seq<char>,
    pub layers: Seq<LayerView>,
    pub diagrams: Seq<DiagramView>,
    pub flows: Seq<Seq<char>>,
}

impl View for ArchitectureOverview {
    type V = ArchView;

    open spec fn view(&self) -> ArchView {
        ArchView {
            title: self.title@,
            blurb: self.blurb@,
            layers: layer_views(self.layers@),
            diagrams: diagram_views(self.diagrams@),
            flows: sviews(self.flows@),
        }
    }
}

/// The stems of the scanned modules of the desktop crate, in order.
pub open spec fn desktop_stems(d: Seq<DiscoveredView>) -> Seq<Seq<char>>
    decreases d.len(),
{
    if d.len() == 0 {
        Seq::empty()
    } else {
        desktop_stems(d.drop_last()) + if d.last().crate_name == "bony-build"@ {
            seq![d.last().stem]
        } else {
            Seq::empty()
        }
    }
}

/// The crates of the host layer: the clients, the desktop module count when
/// there are modules, and up to eight desktop modules.
pub open spec fn host_crates(count: nat, d: Seq<DiscoveredView>) -> Seq<Seq<char>> {
    let stems = desktop_stems(d);
    let shown = if stems.len() <= 8 {
        stems
    } else {
        stems.take(8)
    };
    seq!["bony-build"@, "bony-monitor"@, "xai-grok-pager*"@] + (if count > 0 {
        seq!["bony-build src ×"@ + dec(count)]
    } else {
        Seq::empty()
    }) + shown.map_values(|s: Seq<char>| "· "@ + s)
}

pub open spec fn layer(id: Seq<char>, name: Seq<char>, summary: Seq<char>, crates: Seq<Seq<char>>) -> LayerView {
    LayerView { id, name, summary, crates }
}

/// The architecture page for a desktop crate of `count` modules, of which
/// `d` were scanned.
pub open spec fn arch_page(count: nat, d: Seq<DiscoveredView>) -> ArchView {
    ArchView {
        title: "Bony Build 架构"@,
        blurb: "Codex 式桌面壳经 ACP 驱动 grok agent stdio；目录与模块扫描会随工作区热更新。"@,
        layers: seq![
            layer(
                "host"@,
                "1 · Host / 客户端"@,
                "Bony Build 桌面（顶栏/侧栏/项目/用量图）、TUI、或任意 ACP 客户端；当前扫描到 "@ + dec(count)
                    + " 个桌面模块"@,
                host_crates(count, d),
            ),
            layer(
                "session"@,
                "2 · Session"@,
                "SessionActor 跑 agentic turn：采样 → 工具 → 再采样"@,
                seq!["xai-grok-shell"@, "xai-chat-state"@],
            ),
            layer(
                "agent"@,
                "3a · Agent 定义"@,
                "AgentBuilder 装配提示词与工具集（不负责 loop）"@,
                seq!["xai-grok-agent"@],
            ),
            layer(
                "sampling"@,
                "3b · 采样"@,
                "多 backend HTTP/SSE：OpenAI 兼容 / Anthropic Messages 等"@,
                seq!["xai-grok-sampler"@, "xai-grok-sampling-types"@],
            ),
            layer(
                "tools"@,
                "3c · 工具"@,
                "终端、文件编辑、搜索等 tool call 落地"@,
                seq!["xai-grok-tools"@, "xai-tool-runtime"@, "xai-tool-protocol"@],
            ),
            layer(
                "workspace"@,
                "4 · Workspace"@,
                "权限、沙箱、文件系统、checkpoint"@,
                seq!["xai-grok-workspace"@, "xai-grok-sandbox"@],
            ),
        ],
        diagrams: seq![
            DiagramView {
                id: "layers"@,
                title: "分层架构"@,
                path: "/repo-docs/architecture-layers.png"@,
            },
            DiagramView {
                id: "turn"@,
                title: "Turn 流程"@,
                path: "/repo-docs/architecture-turn-flow.png"@,
            },
            DiagramView {
                id: "desktop"@,
                title: "桌面端界面"@,
                path: "/repo-docs/bony-build-desktop.png"@,
            },
        ],
        flows: seq![
            "用户在 Bony Build 输入任务 → ACP prompt → SessionActor"@,
            "Sampler 请求当前模型（如 qwen-max）→ 流式文本 / tool calls"@,
            "ToolBridge 执行工具 → 结果回灌 → 继续采样直到结束"@,
            "轮次结束写入 ~/.bony-build/turns.jsonl；使用统计面板展示折线/柱状趋势"@,
            "切换项目 → Shutdown 旧 bridge → 新 cwd 重连 agent"@,
            "bony-monitor 热重载 features.toml / 扫描模块，并按规则生成影响摘要"@,
        ],
    }
}

fn strings(v: &[&str]) -> (r: Vec<String>)
    ensures
        sviews(r@) == v@.map_values(|s: &str| s@),
{
    let mut out: Vec<String> = Vec::new();
    let mut i: usize = 0;
    while i < v.len()
        invariant
            i <= v.len(),
            sviews(out@) == v@.map_values(|s: &str| s@).take(i as int),
        decreases v.len() - i,
    {
        push_owned(&mut out, v[i]);
        assert(sviews(out@) =~= v@.map_values(|s: &str| s@).take(i + 1));
        i = i + 1;
    }
    assert(v@.map_values(|s: &str| s@).take(v.len() as int) =~= v@.map_values(|s: &str| s@));
    out
}

fn host_list(catalog: &CatalogSnapshot) -> (r: Vec<String>)
    ensures
        sviews(r@) == host_crates(catalog.desktop_module_count as nat, catalog@.discovered),
{
    let ghost d = catalog@.discovered;
    let mut out = strings(&["bony-build", "bony-monitor", "xai-grok-pager*"]);
    assert(["bony-build", "bony-monitor", "xai-grok-pager*"]@.map_values(|s: &str| s@) =~= seq![
        "bony-build"@,
        "bony-monitor"@,
        "xai-grok-pager*"@,
    ]);
    if catalog.desktop_module_count > 0 {
        let mut l = chars_of("bony-build src ×");
        let n = decimal(catalog.desktop_module_count as u64);
        push_chars(&mut l, &n);
        push_string(&mut out, &l);
    }
    let ghost base = sviews(out@);
    let mut shown: Vec<Vec<char>> = Vec::new();
    let mut taken: usize = 0;
    let mut i: usize = 0;
    assert(d.take(0) =~= Seq::<DiscoveredView>::empty());
    while i < catalog.discovered.len()
        invariant
            i <= catalog.discovered.len(),
            d == catalog@.discovered,
            taken <= 8,
            taken == (if desktop_stems(d.take(i as int)).len() <= 8 {
                desktop_stems(d.take(i as int)).len()
            } else {
                8
            }),
            sviews(out@) == base + (if desktop_stems(d.take(i as int)).len() <= 8 {
                desktop_stems(d.take(i as int))
            } else {
                desktop_stems(d.take(i as int)).take(8)
            }).map_values(|s: Seq<char>| "· "@ + s),
        decreases catalog.discovered.len() - i,
    {
        assert(d.take(i + 1).drop_last() =~= d.take(i as int));
        assert(d[i as int] == catalog.discovered@[i as int]@);
        let f = &catalog.discovered[i];
        let ghost st = desktop_stems(d.take(i as int));
        let ghost st1 = desktop_stems(d.take(i + 1));
        if eq_str(&chars_of(f.crate_name.as_str()), "bony-build") {
            assert(st1 =~= st.push(f.stem@));
            if taken < 8 {
                let mut l = chars_of("· ");
                push_str(&mut l, f.stem.as_str());
                push_string(&mut out, &l);
                taken = taken + 1;
                assert(st1.len() <= 8);
            } else {
                assert(st1.take(8) =~= (if st.len() <= 8 {
                    st
                } else {
                    st.take(8)
                }));
            }
        } else {
            assert(st1 =~= st);
        }
        proof {
            let want = (if st1.len() <= 8 {
                st1
            } else {
                st1.take(8)
            }).map_values(|s: Seq<char>| "· "@ + s);
            assert(sviews(out@) =~= base + want);
        }
        i = i + 1;
    }
    assert(d.take(catalog.discovered.len() as int) =~= d);
    out
}

fn arch_layer(id: &str, name: &str, summary: String, crates: Vec<String>) -> (r: ArchLayer)
    ensures
        r@ == layer(id@, name@, summary@, sviews(crates@)),
{
    ArchLayer { id: id.to_owned(), name: name.to_owned(), summary, crates }
}

/// The architecture page of the catalog (`arch_page`).
pub fn overview(catalog: &CatalogSnapshot) -> (r: ArchitectureOverview)
    ensures
        r@ == arch_page(catalog.desktop_module_count as nat, catalog@.discovered),
{
    let host = host_list(catalog);
    let mut summary = chars_of(
        "Bony Build 桌面（顶栏/侧栏/项目/用量图）、TUI、或任意 ACP 客户端；当前扫描到 ",
    );
    let n = decimal(catalog.desktop_module_count as u64);
    push_chars(&mut summary, &n);
    push_str(&mut summary, " 个桌面模块");
    let s1 = strings(&["xai-grok-shell", "xai-chat-state"]);
    let s2 = strings(&["xai-grok-agent"]);
    let s3 = strings(&["xai-grok-sampler", "xai-grok-sampling-types"]);
    let s4 = strings(&["xai-grok-tools", "xai-tool-runtime", "xai-tool-protocol"]);
    let s5 = strings(&["xai-grok-workspace", "xai-grok-sandbox"]);
    let layers = vec![
        arch_layer("host", "1 · Host / 客户端", string_of(&summary), host),
        arch_layer("session", "2 · Session", "SessionActor 跑 agentic turn：采样 → 工具 → 再采样".to_owned(), s1),
        arch_layer("agent", "3a · Agent 定义", "AgentBuilder 装配提示词与工具集（不负责 loop）".to_owned(), s2),
        arch_layer("sampling", "3b · 采样", "多 backend HTTP/SSE：OpenAI 兼容 / Anthropic Messages 等".to_owned(), s3),
        arch_layer("tools", "3c · 工具", "终端、文件编辑、搜索等 tool call 落地".to_owned(), s4),
        arch_layer("workspace", "4 · Workspace", "权限、沙箱、文件系统、checkpoint".to_owned(), s5),
    ];
    let diagrams = vec![
        ArchDiagram {
            id: "layers".to_owned(),
            title: "分层架构".to_owned(),
            path: "/repo-docs/architecture-layers.png".to_owned(),
        },
        ArchDiagram {
            id: "turn".to_owned(),
            title: "Turn 流程".to_owned(),
            path: "/repo-docs/architecture-turn-flow.png".to_owned(),
        },
        ArchDiagram {
            id: "desktop".to_owned(),
            title: "桌面端界面".to_owned(),
            path: "/repo-docs/bony-build-desktop.png".to_owned(),
        },
    ];
    let flows = strings(
        &[
            "用户在 Bony Build 输入任务 → ACP prompt → SessionActor",
            "Sampler 请求当前模型（如 qwen-max）→ 流式文本 / tool calls",
            "ToolBridge 执行工具 → 结果回灌 → 继续采样直到结束",
            "轮次结束写入 ~/.bony-build/turns.jsonl；使用统计面板展示折线/柱状趋势",
            "切换项目 → Shutdown 旧 bridge → 新 cwd 重连 agent",
            "bony-monitor 热重载 features.toml / 扫描模块，并按规则生成影响摘要",
        ],
    );
    let r = ArchitectureOverview {
        title: "Bony Build 架构".to_owned(),
        blurb: "Codex 式桌面壳经 ACP 驱动 grok agent stdio；目录与模块扫描会随工作区热更新。".to_owned(),
        layers,
        diagrams,
        flows,
    };
    proof {
        let p = arch_page(catalog.desktop_module_count as nat, catalog@.discovered);
        assert(r.layers@[1]@.crates =~= p.layers[1].crates);
        assert(r.layers@[2]@.crates =~= p.layers[2].crates);
        assert(r.layers@[3]@.crates =~= p.layers[3].crates);
        assert(r.layers@[4]@.crates =~= p.layers[4].crates);
        assert(r.layers@[5]@.crates =~= p.layers[5].crates);
        assert(layer_views(r.layers@) =~= p.layers);
        assert(diagram_views(r.diagrams@) =~= p.diagrams);
        assert(sviews(r.flows@) =~= p.flows);
    }
    r
}

} // verus!
