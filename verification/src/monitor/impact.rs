//! Maps the changed paths and the commit text of a change onto module
//! areas, product features, dimensions, improvements and risks.

use vstd::prelude::*;
use crate::monitor::catalog::CatalogSnapshot;
use crate::monitor::features::{
    DimensionHit, DimensionView, FeatureHit, FeatureRuleView, HitView, analyze_features_full, checklist_items,
    dim_views, dimension_hits, feature_hits, hit_views,
};
use crate::text::{
    ascii_lower_seq, ascii_lowercase, chars_eq, chars_of, contains_str, dec, decimal, ends_with,
    eq_str, has_sub, join, join_with, lines, lines_of, push_chars, push_owned, push_str,
    push_string, sort_dedup, sorted_unique_of, starts_with, starts_with_str, string_of, sviews,
    trim, trimmed, views,
};

verus! {

/// A module area that a change touches.
#[derive(Debug, Clone)]
pub struct ImpactArea {
    pub id: String,
    pub label: String,
    pub severity: String,
    pub summary: String,
}

pub struct AreaView {
    pub id: Seq<char>,
    pub label: Seq<char>,
    pub severity: Seq<char>,
    pub summary: Seq<char>,
}

impl View for ImpactArea {
    type V = AreaView;

    open spec fn view(&self) -> AreaView {
        AreaView { id: self.id@, label: self.label@, severity: self.severity@, summary: self.summary@ }
    }
}

pub open spec fn area_views(v: Seq<ImpactArea>) -> Seq<AreaView> {
    v.map_values(|a: ImpactArea| a@)
}

/// Everything the monitor says about one change.
#[derive(Debug, Clone)]
pub struct ChangeImpact {
    /// Coarse module areas (desktop / runtime / docs …).
    pub areas: Vec<ImpactArea>,
    /// Product features affected (chat, models, tools …).
    pub features: Vec<FeatureHit>,
    /// Cross-cutting dimensions (UX, security, reliability …).
    pub dimensions: Vec<DimensionHit>,
    /// Suggested verification checklist.
    pub checklist: Vec<String>,
    pub improvements: Vec<String>,
    pub risks: Vec<String>,
    pub tags: Vec<String>,
}

pub struct ImpactView {
    pub areas: Seq<AreaView>,
    pub features: Seq<HitView>,
    pub dimensions: Seq<DimensionView>,
    pub checklist: Seq<Seq<char>>,
    pub improvements: Seq<Seq<char>>,
    pub risks: Seq<Seq<char>>,
    pub tags: Seq<Seq<char>>,
}

impl View for ChangeImpact {
    type V = ImpactView;

    open spec fn view(&self) -> ImpactView {
        ImpactView {
            areas: area_views(self.areas@),
            features: hit_views(self.features@),
            dimensions: dim_views(self.dimensions@),
            checklist: sviews(self.checklist@),
            improvements: sviews(self.improvements@),
            risks: sviews(self.risks@),
            tags: sviews(self.tags@),
        }
    }
}

/// One module area: the path prefixes that belong to it.
pub struct AreaRule {
    pub id: &'static str,
    pub label: &'static str,
    pub prefixes: Vec<&'static str>,
    pub severity: &'static str,
    pub improvement: &'static str,
}

pub struct AreaRuleView {
    pub id: Seq<char>,
    pub label: Seq<char>,
    pub prefixes: Seq<Seq<char>>,
    pub severity: Seq<char>,
    pub improvement: Seq<char>,
}

pub open spec fn str_views(v: Seq<&'static str>) -> Seq<Seq<char>> {
    v.map_values(|s: &'static str| s@)
}

impl View for AreaRule {
    type V = AreaRuleView;

    open spec fn view(&self) -> AreaRuleView {
        AreaRuleView {
            id: self.id@,
            label: self.label@,
            prefixes: str_views(self.prefixes@),
            severity: self.severity@,
            improvement: self.improvement@,
        }
    }
}

pub open spec fn area_rule_views(v: Seq<AreaRule>) -> Seq<AreaRuleView> {
    v.map_values(|r: AreaRule| r@)
}

/// The module areas, in the order they are reported.
pub open spec fn area_rules() -> Seq<AreaRuleView> {
    seq![
        AreaRuleView {
            id: "desktop"@,
            label: "桌面客户端"@,
            prefixes: seq!["crates/codegen/bony-build/"@, "scripts/run-desktop.ps1"@],
            severity: "high"@,
            improvement: "改进桌面壳、对话、用量统计或项目工作区入口"@,
        },
        AreaRuleView {
            id: "monitor"@,
            label: "Web 监控"@,
            prefixes: seq!["crates/codegen/bony-monitor/"@, "scripts/run-monitor.ps1"@],
            severity: "medium"@,
            improvement: "增强架构与改动可观测性"@,
        },
        AreaRuleView {
            id: "agent-runtime"@,
            label: "Agent 运行时"@,
            prefixes: seq![
                "crates/codegen/xai-grok-shell/"@,
                "crates/codegen/xai-grok-agent/"@,
                "crates/codegen/xai-grok-tools/"@,
                "crates/codegen/xai-grok-sampler/"@,
                "crates/codegen/xai-acp-lib/"@,
            ],
            severity: "high"@,
            improvement: "影响会话循环、工具执行或 ACP 协议行为"@,
        },
        AreaRuleView {
            id: "tui"@,
            label: "终端 TUI"@,
            prefixes: seq![
                "crates/codegen/xai-grok-pager/"@,
                "crates/codegen/xai-grok-pager-bin/"@,
                "crates/codegen/xai-grok-pager-render/"@,
            ],
            severity: "medium"@,
            improvement: "影响终端界面或官方 grok CLI 体验"@,
        },
        AreaRuleView {
            id: "docs"@,
            label: "文档与架构"@,
            prefixes: seq![
                "ARCHITECTURE.md"@,
                "README.md"@,
                "docs/"@,
                "crates/codegen/xai-grok-pager/docs/"@,
            ],
            severity: "low"@,
            improvement: "完善产品说明、架构图或使用文档"@,
        },
        AreaRuleView {
            id: "workspace"@,
            label: "构建 / Workspace"@,
            prefixes: seq!["Cargo.toml"@, "Cargo.lock"@, "rust-toolchain.toml"@, "scripts/"@],
            severity: "medium"@,
            improvement: "调整依赖、工作区成员或开发脚本"@,
        },
        AreaRuleView {
            id: "config"@,
            label: "配置与认证"@,
            prefixes: seq![
                "crates/codegen/xai-grok-config/"@,
                "crates/codegen/xai-grok-auth/"@,
                "crates/codegen/xai-grok-secrets/"@,
            ],
            severity: "high"@,
            improvement: "影响模型配置、认证或密钥处理"@,
        },
    ]
}

fn area_rule_table() -> (r: Vec<AreaRule>)
    ensures
        area_rule_views(r@) == area_rules(),
{
    let r = vec![
        AreaRule {
            id: "desktop",
            label: "桌面客户端",
            prefixes: vec!["crates/codegen/bony-build/", "scripts/run-desktop.ps1"],
            severity: "high",
            improvement: "改进桌面壳、对话、用量统计或项目工作区入口",
        },
        AreaRule {
            id: "monitor",
            label: "Web 监控",
            prefixes: vec!["crates/codegen/bony-monitor/", "scripts/run-monitor.ps1"],
            severity: "medium",
            improvement: "增强架构与改动可观测性",
        },
        AreaRule {
            id: "agent-runtime",
            label: "Agent 运行时",
            prefixes: vec![
                "crates/codegen/xai-grok-shell/",
                "crates/codegen/xai-grok-agent/",
                "crates/codegen/xai-grok-tools/",
                "crates/codegen/xai-grok-sampler/",
                "crates/codegen/xai-acp-lib/",
            ],
            severity: "high",
            improvement: "影响会话循环、工具执行或 ACP 协议行为",
        },
        AreaRule {
            id: "tui",
            label: "终端 TUI",
            prefixes: vec![
                "crates/codegen/xai-grok-pager/",
                "crates/codegen/xai-grok-pager-bin/",
                "crates/codegen/xai-grok-pager-render/",
            ],
            severity: "medium",
            improvement: "影响终端界面或官方 grok CLI 体验",
        },
        AreaRule {
            id: "docs",
            label: "文档与架构",
            prefixes: vec![
                "ARCHITECTURE.md",
                "README.md",
                "docs/",
                "crates/codegen/xai-grok-pager/docs/",
            ],
            severity: "low",
            improvement: "完善产品说明、架构图或使用文档",
        },
        AreaRule {
            id: "workspace",
            label: "构建 / Workspace",
            prefixes: vec!["Cargo.toml", "Cargo.lock", "rust-toolchain.toml", "scripts/"],
            severity: "medium",
            improvement: "调整依赖、工作区成员或开发脚本",
        },
        AreaRule {
            id: "config",
            label: "配置与认证",
            prefixes: vec![
                "crates/codegen/xai-grok-config/",
                "crates/codegen/xai-grok-auth/",
                "crates/codegen/xai-grok-secrets/",
            ],
            severity: "high",
            improvement: "影响模型配置、认证或密钥处理",
        },
    ];
    proof {
        assert(str_views(r@[0].prefixes@) =~= area_rules()[0].prefixes);
        assert(str_views(r@[1].prefixes@) =~= area_rules()[1].prefixes);
        assert(str_views(r@[2].prefixes@) =~= area_rules()[2].prefixes);
        assert(str_views(r@[3].prefixes@) =~= area_rules()[3].prefixes);
        assert(str_views(r@[4].prefixes@) =~= area_rules()[4].prefixes);
        assert(str_views(r@[5].prefixes@) =~= area_rules()[5].prefixes);
        assert(str_views(r@[6].prefixes@) =~= area_rules()[6].prefixes);
        assert(area_rule_views(r@) =~= area_rules());
    }
    r
}

/// File `f` lies in area `r`: it starts with one of the area's prefixes
/// (or is one).
pub open spec fn in_area(r: AreaRuleView, f: Seq<char>) -> bool {
    exists|i: int| 0 <= i < r.prefixes.len() && starts_with(f, #[trigger] r.prefixes[i])
}

pub open spec fn area_count(r: AreaRuleView, files: Seq<Seq<char>>) -> nat
    decreases files.len(),
{
    if files.len() == 0 {
        0
    } else {
        area_count(r, files.drop_last()) + if in_area(r, files.last()) {
            1nat
        } else {
            0nat
        }
    }
}

/// The areas hit, with the number of their files.
pub open spec fn rule_areas(rules: Seq<AreaRuleView>, files: Seq<Seq<char>>) -> Seq<AreaView>
    decreases rules.len(),
{
    if rules.len() == 0 {
        Seq::empty()
    } else {
        let acc = rule_areas(rules.drop_last(), files);
        let r = rules.last();
        let n = area_count(r, files);
        if n > 0 {
            acc.push(
                AreaView {
                    id: r.id,
                    label: r.label,
                    severity: r.severity,
                    summary: r.improvement + "（"@ + dec(n) + " 个文件）"@,
                },
            )
        } else {
            acc
        }
    }
}

/// The areas of a change; a change with files in no known area is
/// "other".
pub open spec fn impact_areas(files: Seq<Seq<char>>) -> Seq<AreaView> {
    let a = rule_areas(area_rules(), files);
    if a.len() == 0 && files.len() > 0 {
        seq![
            AreaView {
                id: "other"@,
                label: "其他改动"@,
                severity: "low"@,
                summary: "触及 "@ + dec(files.len()) + " 个文件"@,
            },
        ]
    } else {
        a
    }
}

/// The ids of `fs` that `tags` lacks, added in order.
pub open spec fn add_ids(tags: Seq<Seq<char>>, fs: Seq<HitView>) -> Seq<Seq<char>>
    decreases fs.len(),
{
    if fs.len() == 0 {
        tags
    } else {
        let t = add_ids(tags, fs.drop_last());
        if t.contains(fs.last().id) {
            t
        } else {
            t.push(fs.last().id)
        }
    }
}

/// The tags of a change: its areas, then its features.
pub open spec fn impact_tags(files: Seq<Seq<char>>, fs: Seq<HitView>) -> Seq<Seq<char>> {
    add_ids(impact_areas(files).map_values(|a: AreaView| a.id), fs)
}

/// `s` without the prefix `p`, compared ignoring ASCII case.
pub open spec fn strip_ci(s: Seq<char>, p: Seq<char>) -> Option<Seq<char>> {
    if p.len() <= s.len() && ascii_lower_seq(s.take(p.len() as int)) == ascii_lower_seq(p) {
        Some(s.skip(p.len() as int))
    } else {
        None
    }
}

/// What follows `a` or else `b` at the start of a trimmed line, trimmed,
/// when that is not empty.
pub open spec fn note_of(l: Seq<char>, a: Seq<char>, b: Seq<char>) -> Option<Seq<char>> {
    let t = trim(l);
    let rest = match strip_ci(t, a) {
        Some(r) => Some(r),
        None => strip_ci(t, b),
    };
    match rest {
        Some(r) => if trim(r).len() > 0 {
            Some(trim(r))
        } else {
            None
        },
        None => None,
    }
}

/// The notes that the lines give under the labels `a` / `b`, in order.
pub open spec fn notes(ls: Seq<Seq<char>>, a: Seq<char>, b: Seq<char>) -> Seq<Seq<char>>
    decreases ls.len(),
{
    if ls.len() == 0 {
        Seq::empty()
    } else {
        let acc = notes(ls.drop_last(), a, b);
        match note_of(ls.last(), a, b) {
            Some(n) => acc.push(n),
            None => acc,
        }
    }
}

/// The lines of the body, then of the subject.
pub open spec fn text_lines(subject: Seq<char>, body: Seq<char>) -> Seq<Seq<char>> {
    lines(body) + lines(subject)
}

pub open spec fn opt_line(b: bool, l: Seq<char>) -> Seq<Seq<char>> {
    if b {
        seq![l]
    } else {
        Seq::empty()
    }
}

/// What the change improves, before sorting: its areas, the `Impact:` and
/// `Improvement:` notes of its text, and its features.
pub open spec fn raw_improvements(
    subject: Seq<char>,
    body: Seq<char>,
    files: Seq<Seq<char>>,
    fs: Seq<HitView>,
) -> Seq<Seq<char>> {
    let ls = text_lines(subject, body);
    rule_improvements(area_rules(), files) + notes(ls, "Impact:"@, "影响:"@)
        + notes(ls, "Improvement:"@, "改进:"@) + fs.map_values(
        |f: HitView| "【功能·"@ + f.name + "】"@ + f.user_impact,
    )
}

/// The improvements of the areas hit, in area order.
pub open spec fn rule_improvements(rules: Seq<AreaRuleView>, files: Seq<Seq<char>>) -> Seq<Seq<char>>
    decreases rules.len(),
{
    if rules.len() == 0 {
        Seq::empty()
    } else {
        rule_improvements(rules.drop_last(), files) + opt_line(
            area_count(rules.last(), files) > 0,
            rules.last().improvement,
        )
    }
}

pub open spec fn has_cargo_file(files: Seq<Seq<char>>) -> bool {
    exists|i: int|
        0 <= i < files.len() && (ends_with(#[trigger] files[i], "Cargo.lock"@) || files[i]
            == "Cargo.toml"@)
}

/// What the change risks, before sorting.
pub open spec fn raw_risks(
    subject: Seq<char>,
    body: Seq<char>,
    files: Seq<Seq<char>>,
    fs: Seq<HitView>,
    ds: Seq<DimensionView>,
) -> Seq<Seq<char>> {
    let joined = join(files, "\n"@);
    notes(text_lines(subject, body), "Risk:"@, "风险:"@) + opt_line(
        has_sub(joined, "auth"@) || has_sub(joined, "secret"@),
        "可能影响认证或密钥路径，部署前请回归登录流程"@,
    ) + opt_line(has_cargo_file(files), "依赖变更可能影响构建复现性，建议本地 cargo check"@)
        + feature_risks(fs) + dimension_risks(ds)
}

pub open spec fn feature_risks(fs: Seq<HitView>) -> Seq<Seq<char>>
    decreases fs.len(),
{
    if fs.len() == 0 {
        Seq::empty()
    } else {
        let f = fs.last();
        feature_risks(fs.drop_last()) + opt_line(
            f.severity == "critical"@ || f.severity == "high"@,
            "回归「"@ + f.name + "」—— "@ + f.why,
        )
    }
}

pub open spec fn dimension_risks(ds: Seq<DimensionView>) -> Seq<Seq<char>>
    decreases ds.len(),
{
    if ds.len() == 0 {
        Seq::empty()
    } else {
        let d = ds.last();
        dimension_risks(ds.drop_last()) + opt_line(
            d.level == "高"@,
            "【维度·"@ + d.label + "】"@ + d.note,
        )
    }
}

/// `s` without `prefix`, compared ignoring ASCII case (`strip_ci`).
pub fn strip_prefix_ci<'a>(s: &'a str, prefix: &str) -> (r: Option<&'a str>)
    ensures
        match r {
            Some(x) => strip_ci(s@, prefix@) == Some(x@),
            None => strip_ci(s@, prefix@) is None,
        },
{
    let n = s.unicode_len();
    let m = prefix.unicode_len();
    if m > n {
        return None;
    }
    let head = s.substring_char(0, m);
    let hl = ascii_lowercase(&chars_of(head));
    let pl = ascii_lowercase(&chars_of(prefix));
    assert(head@ =~= s@.take(m as int));
    if chars_eq(&hl, &pl) {
        let rest = s.substring_char(m, n);
        assert(rest@ =~= s@.skip(m as int));
        Some(rest)
    } else {
        None
    }
}

fn in_area_exec(r: &AreaRule, f: &[char]) -> (b: bool)
    ensures
        b == in_area(r@, f@),
{
    let mut i: usize = 0;
    while i < r.prefixes.len()
        invariant
            i <= r.prefixes.len(),
            forall|k: int| 0 <= k < i ==> !starts_with(f@, #[trigger] r@.prefixes[k]),
        decreases r.prefixes.len() - i,
    {
        assert(r@.prefixes[i as int] == r.prefixes@[i as int]@);
        if starts_with_str(f, r.prefixes[i]) {
            return true;
        }
        i = i + 1;
    }
    false
}

fn area_file_count(r: &AreaRule, fc: &Vec<Vec<char>>) -> (n: usize)
    ensures
        n == area_count(r@, views(fc@)),
{
    let ghost fs = views(fc@);
    let mut n: usize = 0;
    let mut i: usize = 0;
    assert(fs.take(0) =~= Seq::<Seq<char>>::empty());
    while i < fc.len()
        invariant
            i <= fc.len(),
            fs == views(fc@),
            n == area_count(r@, fs.take(i as int)),
            n <= i,
        decreases fc.len() - i,
    {
        assert(fs.take(i + 1).drop_last() =~= fs.take(i as int));
        assert(fs[i as int] == fc@[i as int]@);
        if in_area_exec(r, fc[i].as_slice()) {
            n = n + 1;
        }
        i = i + 1;
    }
    assert(fs.take(fc.len() as int) =~= fs);
    n
}

fn push_area(out: &mut Vec<ImpactArea>, a: ImpactArea)
    ensures
        area_views(final(out)@) == area_views(old(out)@).push(a@),
{
    let ghost before = area_views(out@);
    out.push(a);
    assert(area_views(out@) =~= before.push(a@));
}

fn line_note(l: &[char], a: &str, b: &str) -> (r: Option<Vec<char>>)
    ensures
        match r {
            Some(n) => note_of(l@, a@, b@) == Some(n@),
            None => note_of(l@, a@, b@) is None,
        },
{
    let t = string_of(&trimmed(l));
    let rest = match strip_prefix_ci(t.as_str(), a) {
        Some(x) => Some(x),
        None => strip_prefix_ci(t.as_str(), b),
    };
    match rest {
        Some(x) => {
            let n = trimmed(&chars_of(x));
            if n.len() > 0 {
                Some(n)
            } else {
                None
            }
        },
        None => None,
    }
}

fn notes_in(ls: &Vec<Vec<char>>, a: &str, b: &str, out: &mut Vec<String>)
    ensures
        sviews(final(out)@) == sviews(old(out)@) + notes(views(ls@), a@, b@),
{
    let ghost start = sviews(out@);
    let ghost v = views(ls@);
    let mut i: usize = 0;
    assert(v.take(0) =~= Seq::<Seq<char>>::empty());
    assert(sviews(out@) =~= start + notes(v.take(0), a@, b@));
    while i < ls.len()
        invariant
            i <= ls.len(),
            v == views(ls@),
            sviews(out@) == start + notes(v.take(i as int), a@, b@),
        decreases ls.len() - i,
    {
        assert(v.take(i + 1).drop_last() =~= v.take(i as int));
        assert(v[i as int] == ls@[i as int]@);
        match line_note(ls[i].as_slice(), a, b) {
            Some(n) => {
                push_string(out, &n);
                assert(sviews(out@) =~= start + notes(v.take(i + 1), a@, b@));
            },
            None => {},
        }
        i = i + 1;
    }
    assert(v.take(ls.len() as int) =~= v);
}

fn all_lines(subject: &str, body: &str) -> (r: Vec<Vec<char>>)
    ensures
        views(r@) == text_lines(subject@, body@),
{
    let mut out = lines_of(&chars_of(body));
    let sl = lines_of(&chars_of(subject));
    let ghost start = views(out@);
    let mut i: usize = 0;
    while i < sl.len()
        invariant
            i <= sl.len(),
            views(out@) == start + views(sl@).take(i as int),
        decreases sl.len() - i,
    {
        let mut c: Vec<char> = Vec::new();
        push_chars(&mut c, sl[i].as_slice());
        assert(c@ =~= sl@[i as int]@);
        let ghost before = views(out@);
        out.push(c);
        assert(views(out@) =~= before.push(c@));
        assert(views(out@) =~= start + views(sl@).take(i + 1));
        i = i + 1;
    }
    assert(views(sl@).take(sl.len() as int) =~= views(sl@));
    out
}

fn tags_contain(tags: &Vec<String>, id: &str) -> (r: bool)
    ensures
        r == sviews(tags@).contains(id@),
{
    let idc = chars_of(id);
    let mut i: usize = 0;
    while i < tags.len()
        invariant
            i <= tags.len(),
            idc@ == id@,
            forall|k: int| 0 <= k < i ==> #[trigger] sviews(tags@)[k] != id@,
        decreases tags.len() - i,
    {
        assert(sviews(tags@)[i as int] == tags@[i as int]@);
        if chars_eq(&chars_of(tags[i].as_str()), &idc) {
            return true;
        }
        i = i + 1;
    }
    false
}

fn file_chars_of(files: &[String]) -> (r: Vec<Vec<char>>)
    ensures
        views(r@) == sviews(files@),
{
    let mut out: Vec<Vec<char>> = Vec::new();
    let mut i: usize = 0;
    while i < files.len()
        invariant
            i <= files.len(),
            views(out@) == sviews(files@).take(i as int),
        decreases files.len() - i,
    {
        let c = chars_of(files[i].as_str());
        let ghost before = views(out@);
        out.push(c);
        assert(views(out@) =~= before.push(c@));
        assert(views(out@) =~= sviews(files@).take(i + 1));
        i = i + 1;
    }
    assert(sviews(files@).take(files.len() as int) =~= sviews(files@));
    out
}

fn has_cargo(fc: &Vec<Vec<char>>) -> (r: bool)
    ensures
        r == has_cargo_file(views(fc@)),
{
    let mut i: usize = 0;
    while i < fc.len()
        invariant
            i <= fc.len(),
            forall|k: int|
                0 <= k < i ==> !(ends_with(#[trigger] views(fc@)[k], "Cargo.lock"@) || views(fc@)[k]
                    == "Cargo.toml"@),
        decreases fc.len() - i,
    {
        assert(views(fc@)[i as int] == fc@[i as int]@);
        if crate::text::ends_with_str(fc[i].as_slice(), "Cargo.lock") || eq_str(
            fc[i].as_slice(),
            "Cargo.toml",
        ) {
            return true;
        }
        i = i + 1;
    }
    false
}

fn area_part(fc: &Vec<Vec<char>>) -> (r: (Vec<ImpactArea>, Vec<String>, Vec<String>))
    ensures
        area_views(r.0@) == impact_areas(views(fc@)),
        sviews(r.1@) == impact_areas(views(fc@)).map_values(|a: AreaView| a.id),
        sviews(r.2@) == rule_improvements(area_rules(), views(fc@)),
{
    let ghost fs = views(fc@);
    let rules = area_rule_table();
    let ghost rv = area_rule_views(rules@);
    let mut areas: Vec<ImpactArea> = Vec::new();
    let mut tags: Vec<String> = Vec::new();
    let mut impr: Vec<String> = Vec::new();
    let mut k: usize = 0;
    assert(rv.take(0) =~= Seq::<AreaRuleView>::empty());
    assert(area_views(areas@) =~= Seq::<AreaView>::empty());
    assert(sviews(tags@) =~= Seq::<Seq<char>>::empty());
    assert(sviews(impr@) =~= Seq::<Seq<char>>::empty());
    while k < rules.len()
        invariant
            k <= rules.len(),
            rv == area_rule_views(rules@),
            rv == area_rules(),
            fs == views(fc@),
            area_views(areas@) == rule_areas(rv.take(k as int), fs),
            sviews(tags@) == area_views(areas@).map_values(|a: AreaView| a.id),
            sviews(impr@) == rule_improvements(rv.take(k as int), fs),
        decreases rules.len() - k,
    {
        assert(rv.take(k + 1).drop_last() =~= rv.take(k as int));
        assert(rv[k as int] == rules@[k as int]@);
        let r = &rules[k];
        let n = area_file_count(r, fc);
        if n > 0 {
            let mut summary = chars_of(r.improvement);
            push_str(&mut summary, "（");
            let d = decimal(n as u64);
            push_chars(&mut summary, &d);
            push_str(&mut summary, " 个文件）");
            let area = ImpactArea {
                id: r.id.to_owned(),
                label: r.label.to_owned(),
                severity: r.severity.to_owned(),
                summary: string_of(&summary),
            };
            let ghost before = area_views(areas@);
            push_area(&mut areas, area);
            push_owned(&mut tags, r.id);
            assert(sviews(tags@) =~= area_views(areas@).map_values(|a: AreaView| a.id));
            push_owned(&mut impr, r.improvement);
        }
        assert(sviews(impr@) =~= rule_improvements(rv.take(k + 1), fs));
        k = k + 1;
    }
    assert(rv.take(rules.len() as int) =~= rv);
    if areas.len() == 0 && fc.len() > 0 {
        let mut summary = chars_of("触及 ");
        let d = decimal(fc.len() as u64);
        push_chars(&mut summary, &d);
        push_str(&mut summary, " 个文件");
        let area = ImpactArea {
            id: "other".to_owned(),
            label: "其他改动".to_owned(),
            severity: "low".to_owned(),
            summary: string_of(&summary),
        };
        push_area(&mut areas, area);
        push_owned(&mut tags, "other");
        assert(sviews(tags@) =~= area_views(areas@).map_values(|a: AreaView| a.id));
    }
    (areas, tags, impr)
}

/// `r` is what the monitor says of a change with this text and these
/// files under the rules: see `analyze`.
pub open spec fn is_impact(
    rules: Seq<FeatureRuleView>,
    subject: Seq<char>,
    body: Seq<char>,
    files: Seq<Seq<char>>,
    r: ImpactView,
) -> bool {
    &&& r.features == feature_hits(rules, subject, body, files)
    &&& r.dimensions == dimension_hits(subject, body, files, r.features)
    &&& sorted_unique_of(r.checklist, checklist_items(r.features))
    &&& r.areas == impact_areas(files)
    &&& r.tags == impact_tags(files, r.features)
    &&& sorted_unique_of(r.improvements, raw_improvements(subject, body, files, r.features))
    &&& sorted_unique_of(r.risks, raw_risks(subject, body, files, r.features, r.dimensions))
}

proof fn lemma_add_ids_holds(tags: Seq<Seq<char>>, fs: Seq<HitView>)
    ensures
        forall|k: int| 0 <= k < fs.len() ==> add_ids(tags, fs).contains(#[trigger] fs[k].id),
        forall|k: int| 0 <= k < tags.len() ==> add_ids(tags, fs).contains(#[trigger] tags[k]),
    decreases fs.len(),
{
    if fs.len() > 0 {
        let p = fs.drop_last();
        lemma_add_ids_holds(tags, p);
        let t = add_ids(tags, p);
        assert forall|k: int| 0 <= k < fs.len() implies add_ids(tags, fs).contains(
            #[trigger] fs[k].id,
        ) by {
            if k < fs.len() - 1 {
                assert(fs[k] == p[k]);
                assert(t.contains(p[k].id));
                if !t.contains(fs.last().id) {
                    let j = choose|j: int| 0 <= j < t.len() && t[j] == p[k].id;
                    assert(t.push(fs.last().id)[j] == p[k].id);
                }
            } else if !t.contains(fs.last().id) {
                assert(t.push(fs.last().id)[t.len() as int] == fs.last().id);
            }
        }
        assert forall|k: int| 0 <= k < tags.len() implies add_ids(tags, fs).contains(
            #[trigger] tags[k],
        ) by {
            assert(t.contains(tags[k]));
            if !t.contains(fs.last().id) {
                let j = choose|j: int| 0 <= j < t.len() && t[j] == tags[k];
                assert(t.push(fs.last().id)[j] == tags[k]);
            }
        }
    }
}

/// Each feature of high or critical severity yields its regression risk.
proof fn lemma_feature_risks_hold(fs: Seq<HitView>)
    ensures
        forall|k: int|
            0 <= k < fs.len() && (fs[k].severity == "critical"@ || fs[k].severity == "high"@)
                ==> feature_risks(fs).contains("回归「"@ + (#[trigger] fs[k]).name + "」—— "@ + fs[k].why),
    decreases fs.len(),
{
    if fs.len() > 0 {
        let p = fs.drop_last();
        lemma_feature_risks_hold(p);
        let f = fs.last();
        let tail = opt_line(
            f.severity == "critical"@ || f.severity == "high"@,
            "回归「"@ + f.name + "」—— "@ + f.why,
        );
        assert(feature_risks(fs) == feature_risks(p) + tail);
        assert forall|k: int|
            0 <= k < fs.len() && (fs[k].severity == "critical"@ || fs[k].severity == "high"@)
                implies feature_risks(fs).contains(
            "回归「"@ + (#[trigger] fs[k]).name + "」—— "@ + fs[k].why,
        ) by {
            let line = "回归「"@ + fs[k].name + "」—— "@ + fs[k].why;
            if k < p.len() {
                assert(fs[k] == p[k]);
                let j = choose|j: int| 0 <= j < feature_risks(p).len() && feature_risks(p)[j] == line;
                assert(feature_risks(fs)[j] == line);
            } else {
                assert(fs[k] == f);
                assert(feature_risks(fs)[feature_risks(p).len() as int] == line);
            }
        }
    }
}

/// Each dimension of level `高` yields its risk line.
proof fn lemma_dimension_risks_hold(ds: Seq<DimensionView>)
    ensures
        forall|k: int|
            0 <= k < ds.len() && ds[k].level == "高"@ ==> dimension_risks(ds).contains(
                "【维度·"@ + (#[trigger] ds[k]).label + "】"@ + ds[k].note,
            ),
    decreases ds.len(),
{
    if ds.len() > 0 {
        let p = ds.drop_last();
        lemma_dimension_risks_hold(p);
        let d = ds.last();
        assert(dimension_risks(ds) == dimension_risks(p) + opt_line(
            d.level == "高"@,
            "【维度·"@ + d.label + "】"@ + d.note,
        ));
        assert forall|k: int| 0 <= k < ds.len() && ds[k].level == "高"@ implies dimension_risks(
            ds,
        ).contains("【维度·"@ + (#[trigger] ds[k]).label + "】"@ + ds[k].note) by {
            let line = "【维度·"@ + ds[k].label + "】"@ + ds[k].note;
            if k < p.len() {
                assert(ds[k] == p[k]);
                let j = choose|j: int|
                    0 <= j < dimension_risks(p).len() && dimension_risks(p)[j] == line;
                assert(dimension_risks(ds)[j] == line);
            } else {
                assert(ds[k] == d);
                assert(dimension_risks(ds)[dimension_risks(p).len() as int] == line);
            }
        }
    }
}

/// Every dimension of a change whose level is `高` puts its risk among the
/// change's risks: `【维度·<label>】<note>`.
pub proof fn lemma_high_dimensions_are_risks(
    rules: Seq<FeatureRuleView>,
    subject: Seq<char>,
    body: Seq<char>,
    files: Seq<Seq<char>>,
    r: ImpactView,
)
    requires
        is_impact(rules, subject, body, files, r),
    ensures
        forall|k: int|
            0 <= k < r.dimensions.len() && r.dimensions[k].level == "高"@ ==> r.risks.contains(
                "【维度·"@ + (#[trigger] r.dimensions[k]).label + "】"@ + r.dimensions[k].note,
            ),
{
    lemma_dimension_risks_hold(r.dimensions);
    let raw = raw_risks(subject, body, files, r.features, r.dimensions);
    let dr = dimension_risks(r.dimensions);
    let pre = raw.take(raw.len() - dr.len());
    assert(raw =~= pre + dr);
    assert forall|k: int| 0 <= k < r.dimensions.len() && r.dimensions[k].level == "高"@ implies r.risks.contains(
        "【维度·"@ + (#[trigger] r.dimensions[k]).label + "】"@ + r.dimensions[k].note,
    ) by {
        let line = "【维度·"@ + r.dimensions[k].label + "】"@ + r.dimensions[k].note;
        let j = choose|j: int| 0 <= j < dr.len() && dr[j] == line;
        assert(raw[pre.len() + j] == line);
        assert(raw.contains(line));
    }
}

/// Every feature a change touches whose severity is `critical` or `high`
/// puts a regression risk for it among the change's risks:
/// `回归「<name>」—— <why>`.
pub proof fn lemma_severe_features_are_risks(
    rules: Seq<FeatureRuleView>,
    subject: Seq<char>,
    body: Seq<char>,
    files: Seq<Seq<char>>,
    r: ImpactView,
)
    requires
        is_impact(rules, subject, body, files, r),
    ensures
        forall|k: int|
            0 <= k < r.features.len() && (r.features[k].severity == "critical"@
                || r.features[k].severity == "high"@) ==> r.risks.contains(
                "回归「"@ + (#[trigger] r.features[k]).name + "」—— "@ + r.features[k].why,
            ),
{
    lemma_feature_risks_hold(r.features);
    let raw = raw_risks(subject, body, files, r.features, r.dimensions);
    let joined = join(files, "\n"@);
    let pre = notes(text_lines(subject, body), "Risk:"@, "风险:"@) + opt_line(
        has_sub(joined, "auth"@) || has_sub(joined, "secret"@),
        "可能影响认证或密钥路径，部署前请回归登录流程"@,
    ) + opt_line(has_cargo_file(files), "依赖变更可能影响构建复现性，建议本地 cargo check"@);
    let fr = feature_risks(r.features);
    assert(raw == pre + fr + dimension_risks(r.dimensions));
    assert forall|k: int|
        0 <= k < r.features.len() && (r.features[k].severity == "critical"@
            || r.features[k].severity == "high"@) implies r.risks.contains(
        "回归「"@ + (#[trigger] r.features[k]).name + "」—— "@ + r.features[k].why,
    ) by {
        let line = "回归「"@ + r.features[k].name + "」—— "@ + r.features[k].why;
        assert(fr.contains(line));
        let j = choose|j: int| 0 <= j < fr.len() && fr[j] == line;
        assert(raw[pre.len() + j] == line);
        assert(raw.contains(line));
    }
}

/// Some rule of `rules` has the id.
pub open spec fn has_rule_id(rules: Seq<AreaRuleView>, id: Seq<char>) -> bool {
    exists|j: int| 0 <= j < rules.len() && rules[j].id == id
}

/// Every area that the rules find is named after one of them.
proof fn lemma_rule_area_ids(rules: Seq<AreaRuleView>, files: Seq<Seq<char>>)
    ensures
        forall|k: int|
            0 <= k < rule_areas(rules, files).len() ==> has_rule_id(
                rules,
                #[trigger] rule_areas(rules, files)[k].id,
            ),
    decreases rules.len(),
{
    if rules.len() > 0 {
        let p = rules.drop_last();
        lemma_rule_area_ids(p, files);
        let acc = rule_areas(p, files);
        assert forall|k: int| 0 <= k < rule_areas(rules, files).len() implies has_rule_id(
            rules,
            #[trigger] rule_areas(rules, files)[k].id,
        ) by {
            if k < acc.len() {
                assert(has_rule_id(p, acc[k].id));
                let j = choose|j: int| 0 <= j < p.len() && p[j].id == acc[k].id;
                assert(rules[j] == p[j]);
            } else {
                assert(rules[rules.len() - 1] == rules.last());
            }
        }
    }
}

/// No area rule is named `other`.
proof fn lemma_no_rule_named_other()
    ensures
        !has_rule_id(area_rules(), "other"@),
{
    reveal_strlit("other");
    reveal_strlit("desktop");
    reveal_strlit("monitor");
    reveal_strlit("agent-runtime");
    reveal_strlit("tui");
    reveal_strlit("docs");
    reveal_strlit("workspace");
    reveal_strlit("config");
    let rs = area_rules();
    assert forall|j: int| 0 <= j < rs.len() implies rs[j].id.len() != 5 by {}
}

/// Every feature a change touches is among its tags, and so is every area
/// it touches; its areas include `other` exactly when no area rule matches
/// any of its (one or more) files, and then `other` is its one area.
pub proof fn lemma_impact_structure(
    rules: Seq<FeatureRuleView>,
    subject: Seq<char>,
    body: Seq<char>,
    files: Seq<Seq<char>>,
    r: ImpactView,
)
    requires
        is_impact(rules, subject, body, files, r),
    ensures
        forall|k: int| 0 <= k < r.features.len() ==> r.tags.contains(#[trigger] r.features[k].id),
        forall|k: int| 0 <= k < r.areas.len() ==> r.tags.contains(#[trigger] r.areas[k].id),
        rule_areas(area_rules(), files).len() == 0 && files.len() > 0 ==> r.areas.len() == 1
            && r.areas[0].id == "other"@,
        (exists|k: int| 0 <= k < r.areas.len() && #[trigger] r.areas[k].id == "other"@) <==> (
        rule_areas(area_rules(), files).len() == 0 && files.len() > 0),
{
    lemma_rule_area_ids(area_rules(), files);
    lemma_no_rule_named_other();
    if rule_areas(area_rules(), files).len() == 0 && files.len() > 0 {
        assert(r.areas[0].id == "other"@);
    } else {
        assert forall|k: int| 0 <= k < r.areas.len() implies #[trigger] r.areas[k].id != "other"@ by {
            assert(has_rule_id(area_rules(), rule_areas(area_rules(), files)[k].id));
        }
    }
    let ids = impact_areas(files).map_values(|a: AreaView| a.id);
    lemma_add_ids_holds(ids, r.features);
    assert forall|k: int| 0 <= k < r.areas.len() implies r.tags.contains(#[trigger] r.areas[k].id) by {
        assert(ids[k] == r.areas[k].id);
    }
}

/// What a change means (`ChangeImpact`): its areas and tags
/// (`impact_areas`, `impact_tags`), its features, dimensions and checklist
/// (as `analyze_features_full` finds them), and its improvements and risks
/// (`raw_improvements`, `raw_risks`), sorted with duplicates removed.
#[verifier::rlimit(60)]
#[verifier::spinoff_prover]
pub fn analyze(catalog: &CatalogSnapshot, subject: &str, body: &str, files: &[String]) -> (r:
    ChangeImpact)
    ensures
        is_impact(catalog@.rules, subject@, body@, sviews(files@), r@),
{
    let fc = file_chars_of(files);
    let ghost fs = sviews(files@);
    let (areas, mut tags, mut improvements) = area_part(&fc);
    let ls = all_lines(subject, body);
    notes_in(&ls, "Impact:", "影响:", &mut improvements);
    notes_in(&ls, "Improvement:", "改进:", &mut improvements);
    let mut risks: Vec<String> = Vec::new();
    assert(sviews(risks@) =~= Seq::<Seq<char>>::empty());
    notes_in(&ls, "Risk:", "风险:", &mut risks);
    let joined = join_with(&fc, "\n");
    if contains_str(&joined, "auth") || contains_str(&joined, "secret") {
        push_owned(&mut risks, "可能影响认证或密钥路径，部署前请回归登录流程");
    }
    assert(sviews(risks@) =~= notes(text_lines(subject@, body@), "Risk:"@, "风险:"@) + opt_line(
        has_sub(join(fs, "\n"@), "auth"@) || has_sub(join(fs, "\n"@), "secret"@),
        "可能影响认证或密钥路径，部署前请回归登录流程"@,
    ));
    let cargo = has_cargo(&fc);
    if cargo {
        push_owned(&mut risks, "依赖变更可能影响构建复现性，建议本地 cargo check");
    }
    let ghost risks_before = sviews(risks@);
    assert(risks_before =~= notes(text_lines(subject@, body@), "Risk:"@, "风险:"@) + opt_line(
        has_sub(join(fs, "\n"@), "auth"@) || has_sub(join(fs, "\n"@), "secret"@),
        "可能影响认证或密钥路径，部署前请回归登录流程"@,
    ) + opt_line(has_cargo_file(fs), "依赖变更可能影响构建复现性，建议本地 cargo check"@));
    let (feature_hits_v, dimensions, checklist) = analyze_features_full(catalog, subject, body, files);
    let ghost hv = hit_views(feature_hits_v@);
    let ghost tags0 = sviews(tags@);
    let ghost impr0 = sviews(improvements@);
    let mut i: usize = 0;
    assert(hv.take(0) =~= Seq::<HitView>::empty());
    assert(feature_risks(hv.take(0)) =~= Seq::<Seq<char>>::empty());
    assert(risks_before + feature_risks(hv.take(0)) =~= risks_before);
    assert(impr0 + hv.take(0).map_values(|f: HitView| "【功能·"@ + f.name + "】"@ + f.user_impact)
        =~= impr0);
    while i < feature_hits_v.len()
        invariant
            i <= feature_hits_v.len(),
            hv == hit_views(feature_hits_v@),
            sviews(tags@) == add_ids(tags0, hv.take(i as int)),
            sviews(improvements@) == impr0 + hv.take(i as int).map_values(
                |f: HitView| "【功能·"@ + f.name + "】"@ + f.user_impact,
            ),
            sviews(risks@) == risks_before + feature_risks(hv.take(i as int)),
        decreases feature_hits_v.len() - i,
    {
        let f = &feature_hits_v[i];
        assert(hv[i as int] == f@);
        assert(hv.take(i + 1).drop_last() =~= hv.take(i as int));
        if !tags_contain(&tags, f.id.as_str()) {
            push_owned(&mut tags, f.id.as_str());
        }
        let mut l = chars_of("【功能·");
        push_str(&mut l, f.name.as_str());
        push_str(&mut l, "】");
        push_str(&mut l, f.user_impact.as_str());
        push_string(&mut improvements, &l);
        assert(sviews(improvements@) =~= impr0 + hv.take(i + 1).map_values(
            |f: HitView| "【功能·"@ + f.name + "】"@ + f.user_impact,
        ));
        let sev = chars_of(f.severity.as_str());
        if eq_str(&sev, "critical") || eq_str(&sev, "high") {
            let mut rl = chars_of("回归「");
            push_str(&mut rl, f.name.as_str());
            push_str(&mut rl, "」—— ");
            push_str(&mut rl, f.why.as_str());
            push_string(&mut risks, &rl);
        }
        assert(sviews(risks@) =~= risks_before + feature_risks(hv.take(i + 1)));
        i = i + 1;
    }
    assert(hv.take(feature_hits_v.len() as int) =~= hv);
    let ghost dv = dim_views(dimensions@);
    let ghost risks_mid = sviews(risks@);
    let mut j: usize = 0;
    assert(dv.take(0) =~= Seq::<DimensionView>::empty());
    assert(risks_mid + dimension_risks(dv.take(0)) =~= risks_mid);
    while j < dimensions.len()
        invariant
            j <= dimensions.len(),
            dv == dim_views(dimensions@),
            sviews(risks@) == risks_mid + dimension_risks(dv.take(j as int)),
        decreases dimensions.len() - j,
    {
        let d = &dimensions[j];
        assert(dv[j as int] == d@);
        assert(dv.take(j + 1).drop_last() =~= dv.take(j as int));
        if eq_str(&chars_of(d.level.as_str()), "高") {
            let mut rl = chars_of("【维度·");
            push_str(&mut rl, d.label.as_str());
            push_str(&mut rl, "】");
            push_str(&mut rl, d.note.as_str());
            push_string(&mut risks, &rl);
        }
        assert(sviews(risks@) =~= risks_mid + dimension_risks(dv.take(j + 1)));
        j = j + 1;
    }
    assert(dv.take(dimensions.len() as int) =~= dv);
    assert(sviews(improvements@) =~= raw_improvements(subject@, body@, fs, hv));
    assert(sviews(risks@) =~= raw_risks(subject@, body@, fs, hv, dv));
    let improvements = sort_dedup(improvements);
    let risks = sort_dedup(risks);
    ChangeImpact {
        areas,
        features: feature_hits_v,
        dimensions,
        checklist,
        improvements,
        risks,
        tags,
    }
}

} // verus!
