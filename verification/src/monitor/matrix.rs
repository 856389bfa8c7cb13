//! The change × capability matrix of the working tree and recent commits.

use vstd::prelude::*;
use crate::monitor::catalog::CatalogSnapshot;
use crate::monitor::features::{
    FeatureDef, FeatureDefView, FeatureHit, FeatureRuleView, HitView, catalog_defs, def_of,
    def_of_hit, def_views, hit_views,
};
use crate::monitor::git::{ChangeEntry, EntryView, entry_views};
use crate::text::{
    chars_eq, chars_lt, chars_of, contains_str, copy_strings, eq_str, has_sub, lines, lines_of,
    lowercase, push_str, seq_lt, sort_dedup, sorted_unique_of, starts_with,
    starts_with_str, sviews, trim_start, trimmed_start, unicode_lowercase, views,
};

verus! {

/// A change as a row of the matrix.
#[derive(Debug, Clone)]
pub struct MatrixChange {
    pub id: String,
    pub label: String,
    pub source: String,
    pub subject: String,
    pub additions: u32,
    pub deletions: u32,
    pub file_count: usize,
}

pub struct MatrixChangeView {
    pub id: Seq<char>,
    pub label: Seq<char>,
    pub source: Seq<char>,
    pub subject: Seq<char>,
    pub additions: u32,
    pub deletions: u32,
    pub file_count: nat,
}

impl View for MatrixChange {
    type V = MatrixChangeView;

    open spec fn view(&self) -> MatrixChangeView {
        MatrixChangeView {
            id: self.id@,
            label: self.label@,
            source: self.source@,
            subject: self.subject@,
            additions: self.additions,
            deletions: self.deletions,
            file_count: self.file_count as nat,
        }
    }
}

pub open spec fn row_views(v: Seq<MatrixChange>) -> Seq<MatrixChangeView> {
    v.map_values(|m: MatrixChange| m@)
}

/// What one change does to one capability.
#[derive(Debug, Clone)]
pub struct ImpactCell {
    pub change_id: String,
    pub capability_id: String,
    pub direction: String,
    pub magnitude: String,
    pub confidence: String,
    pub validation: String,
    pub why: String,
    pub user_effect: String,
    pub risks: Vec<String>,
    pub checklist: Vec<String>,
}

pub struct CellView {
    pub change_id: Seq<char>,
    pub capability_id: Seq<char>,
    pub direction: Seq<char>,
    pub magnitude: Seq<char>,
    pub confidence: Seq<char>,
    pub validation: Seq<char>,
    pub why: Seq<char>,
    pub user_effect: Seq<char>,
    pub risks: Seq<Seq<char>>,
    pub checklist: Seq<Seq<char>>,
}

impl View for ImpactCell {
    type V = CellView;

    open spec fn view(&self) -> CellView {
        CellView {
            change_id: self.change_id@,
            capability_id: self.capability_id@,
            direction: self.direction@,
            magnitude: self.magnitude@,
            confidence: self.confidence@,
            validation: self.validation@,
            why: self.why@,
            user_effect: self.user_effect@,
            risks: sviews(self.risks@),
            checklist: sviews(self.checklist@),
        }
    }
}

pub open spec fn cell_views(v: Seq<ImpactCell>) -> Seq<CellView> {
    v.map_values(|c: ImpactCell| c@)
}

/// The matrix: its rows, the capabilities they touch, the cells, and two
/// counts of cells that need attention.
#[derive(Debug, Clone)]
pub struct ImpactMatrix {
    pub changes: Vec<MatrixChange>,
    pub capabilities: Vec<FeatureDef>,
    pub cells: Vec<ImpactCell>,
    pub unverified_high: usize,
    pub unknown_direction: usize,
}

/// Whether `t` contains one of the needles.
pub open spec fn has_any(t: Seq<char>, needles: Seq<Seq<char>>) -> bool {
    exists|i: int| 0 <= i < needles.len() && has_sub(t, #[trigger] needles[i])
}

/// Whether `text` contains one of `needles`.
pub fn contains_any(text: &[char], needles: &[&str]) -> (r: bool)
    ensures
        r == has_any(text@, needles@.map_values(|n: &str| n@)),
{
    let ghost ns = needles@.map_values(|n: &str| n@);
    let mut i: usize = 0;
    while i < needles.len()
        invariant
            i <= needles.len(),
            ns == needles@.map_values(|n: &str| n@),
            forall|k: int| 0 <= k < i ==> !has_sub(text@, #[trigger] ns[k]),
        decreases needles.len() - i,
    {
        assert(ns[i as int] == needles@[i as int]@);
        if contains_str(text, needles[i]) {
            return true;
        }
        i = i + 1;
    }
    false
}

pub open spec fn regress_words() -> Seq<Seq<char>> {
    seq!["regress"@, "break"@, "失败"@, "退化"@, "回滚"@]
}

pub open spec fn improve_words() -> Seq<Seq<char>> {
    seq!["fix"@, "improve"@, "support"@, "新增"@, "修复"@, "增强"@, "支持"@]
}

pub open spec fn neutral_words() -> Seq<Seq<char>> {
    seq!["refactor"@, "format"@, "rename"@, "重构"@, "格式"@, "重命名"@]
}

/// A line that declares how the change was validated.
pub open spec fn declares_validation(t: Seq<char>) -> bool {
    exists|i: int|
        0 <= i < lines(t).len() && (starts_with(trim_start(#[trigger] lines(t)[i]), "validate:"@)
            || starts_with(trim_start(lines(t)[i]), "验证:"@))
}

/// The cell of change `e` and feature `f`: the direction from the words of
/// the lowercased commit text, the magnitude from the severity, the
/// confidence from how the feature was found, and whether a line declares
/// a validation.
pub open spec fn cell_of(e: EntryView, f: HitView) -> CellView {
    let text = unicode_lowercase(e.subject + seq!['\n'] + e.body);
    CellView {
        change_id: e.short_sha,
        capability_id: f.id,
        direction: if has_any(text, regress_words()) {
            "regress"@
        } else if has_any(text, improve_words()) {
            "improve"@
        } else if has_any(text, neutral_words()) {
            "neutral"@
        } else {
            "unknown"@
        },
        magnitude: if f.severity == "critical"@ || f.severity == "high"@ {
            "high"@
        } else if f.severity == "medium"@ {
            "medium"@
        } else {
            "low"@
        },
        confidence: if starts_with(f.id, "auto-"@) {
            "low"@
        } else if has_sub(f.why, "相关文件"@) && has_sub(f.why, "关键词"@) {
            "high"@
        } else {
            "medium"@
        },
        validation: if declares_validation(text) {
            "declared"@
        } else {
            "unverified"@
        },
        why: f.why,
        user_effect: f.user_impact,
        risks: e.impact.risks,
        checklist: e.impact.checklist,
    }
}

fn any_validation_line(text: &[char]) -> (r: bool)
    ensures
        r == declares_validation(text@),
{
    let ls = lines_of(text);
    let ghost v = views(ls@);
    let mut i: usize = 0;
    while i < ls.len()
        invariant
            i <= ls.len(),
            v == views(ls@),
            v == lines(text@),
            forall|k: int|
                0 <= k < i ==> !(starts_with(trim_start(#[trigger] v[k]), "validate:"@) || starts_with(
                    trim_start(v[k]),
                    "验证:"@,
                )),
        decreases ls.len() - i,
    {
        assert(v[i as int] == ls@[i as int]@);
        let t = trimmed_start(ls[i].as_slice());
        if starts_with_str(&t, "validate:") || starts_with_str(&t, "验证:") {
            return true;
        }
        i = i + 1;
    }
    false
}

/// The cell of `entry` and `feature` (`cell_of`).
pub fn cell(entry: &ChangeEntry, feature: &FeatureHit) -> (r: ImpactCell)
    ensures
        r@ == cell_of(entry@, feature@),
{
    let mut t = chars_of(entry.subject.as_str());
    t.push('\n');
    push_str(&mut t, entry.body.as_str());
    assert(t@ =~= entry.subject@ + seq!['\n'] + entry.body@);
    let text = lowercase(&t);
    let regress = ["regress", "break", "失败", "退化", "回滚"];
    let improve = ["fix", "improve", "support", "新增", "修复", "增强", "支持"];
    let neutral = ["refactor", "format", "rename", "重构", "格式", "重命名"];
    assert(regress@.map_values(|n: &str| n@) =~= regress_words());
    assert(improve@.map_values(|n: &str| n@) =~= improve_words());
    assert(neutral@.map_values(|n: &str| n@) =~= neutral_words());
    let direction: &str = if contains_any(&text, &regress) {
        "regress"
    } else if contains_any(&text, &improve) {
        "improve"
    } else if contains_any(&text, &neutral) {
        "neutral"
    } else {
        "unknown"
    };
    let sev = chars_of(feature.severity.as_str());
    let magnitude: &str = if eq_str(&sev, "critical") || eq_str(&sev, "high") {
        "high"
    } else if eq_str(&sev, "medium") {
        "medium"
    } else {
        "low"
    };
    let why = chars_of(feature.why.as_str());
    let confidence: &str = if starts_with_str(&chars_of(feature.id.as_str()), "auto-") {
        "low"
    } else if contains_str(&why, "相关文件") && contains_str(&why, "关键词") {
        "high"
    } else {
        "medium"
    };
    let validation: &str = if any_validation_line(&text) {
        "declared"
    } else {
        "unverified"
    };
    ImpactCell {
        change_id: entry.short_sha.clone(),
        capability_id: feature.id.clone(),
        direction: direction.to_owned(),
        magnitude: magnitude.to_owned(),
        confidence: confidence.to_owned(),
        validation: validation.to_owned(),
        why: feature.why.clone(),
        user_effect: feature.user_impact.clone(),
        risks: copy_strings(&entry.impact.risks),
        checklist: copy_strings(&entry.impact.checklist),
    }
}

/// Where a change comes from: a working-tree layer or a commit.
pub open spec fn source_of(e: EntryView) -> Seq<char> {
    if e.short_sha == "unstaged"@ {
        "unstaged"@
    } else if e.short_sha == "staged"@ {
        "staged"@
    } else {
        "commit"@
    }
}

pub open spec fn label_of(e: EntryView) -> Seq<char> {
    if e.short_sha == "unstaged"@ {
        "未暂存"@
    } else if e.short_sha == "staged"@ {
        "已暂存"@
    } else {
        e.short_sha
    }
}

fn source(entry: &ChangeEntry) -> (r: &'static str)
    ensures
        r@ == source_of(entry@),
{
    let s = chars_of(entry.short_sha.as_str());
    if eq_str(&s, "unstaged") {
        "unstaged"
    } else if eq_str(&s, "staged") {
        "staged"
    } else {
        "commit"
    }
}

fn label(entry: &ChangeEntry) -> (r: String)
    ensures
        r@ == label_of(entry@),
{
    let s = chars_of(entry.short_sha.as_str());
    if eq_str(&s, "unstaged") {
        "未暂存".to_owned()
    } else if eq_str(&s, "staged") {
        "已暂存".to_owned()
    } else {
        entry.short_sha.clone()
    }
}

pub open spec fn row_of(e: EntryView) -> MatrixChangeView {
    MatrixChangeView {
        id: e.short_sha,
        label: label_of(e),
        source: source_of(e),
        subject: e.subject,
        additions: e.additions,
        deletions: e.deletions,
        file_count: e.files.len(),
    }
}

/// The cells of the changes: for each change, one per feature it touches.
pub open spec fn cells_of(es: Seq<EntryView>) -> Seq<CellView>
    decreases es.len(),
{
    if es.len() == 0 {
        Seq::empty()
    } else {
        let e = es.last();
        cells_of(es.drop_last()) + e.impact.features.map_values(|f: HitView| cell_of(e, f))
    }
}

/// The ids of the features the changes touch, change after change.
pub open spec fn touched_ids(es: Seq<EntryView>) -> Seq<Seq<char>>
    decreases es.len(),
{
    if es.len() == 0 {
        Seq::empty()
    } else {
        touched_ids(es.drop_last()) + es.last().impact.features.map_values(|f: HitView| f.id)
    }
}

/// All feature hits of the changes, change after change.
pub open spec fn all_hits(es: Seq<EntryView>) -> Seq<HitView>
    decreases es.len(),
{
    if es.len() == 0 {
        Seq::empty()
    } else {
        all_hits(es.drop_last()) + es.last().impact.features
    }
}

/// The last catalog entry with id `id`.
pub open spec fn last_def_with(ds: Seq<FeatureDefView>, id: Seq<char>) -> Option<FeatureDefView>
    decreases ds.len(),
{
    if ds.len() == 0 {
        None
    } else if ds.last().id == id {
        Some(ds.last())
    } else {
        last_def_with(ds.drop_last(), id)
    }
}

/// The first hit with id `id`.
pub open spec fn first_hit_with(hs: Seq<HitView>, id: Seq<char>) -> Option<HitView>
    decreases hs.len(),
{
    if hs.len() == 0 {
        None
    } else {
        match first_hit_with(hs.drop_last(), id) {
            Some(h) => Some(h),
            None => if hs.last().id == id {
                Some(hs.last())
            } else {
                None
            },
        }
    }
}

/// The capability of id `id`: its catalog entry (the last one of that id),
/// or else the entry made of the first hit of that id.
pub open spec fn capability_for(ds: Seq<FeatureDefView>, hs: Seq<HitView>, id: Seq<char>) -> Option<
    FeatureDefView,
> {
    match last_def_with(ds, id) {
        Some(d) => Some(d),
        None => match first_hit_with(hs, id) {
            Some(h) => Some(def_of_hit(h)),
            None => None,
        },
    }
}

/// `x` goes before `e`: user-facing first, then by category, then by name.
pub open spec fn ranks_before(x: FeatureDefView, e: FeatureDefView) -> bool {
    ||| x.user_facing && !e.user_facing
    ||| x.user_facing == e.user_facing && seq_lt(x.category, e.category)
    ||| x.user_facing == e.user_facing && x.category == e.category && seq_lt(x.name, e.name)
}

pub open spec fn insert_ranked(sorted: Seq<FeatureDefView>, x: FeatureDefView) -> Seq<FeatureDefView>
    decreases sorted.len(),
{
    if sorted.len() == 0 {
        seq![x]
    } else if ranks_before(x, sorted[0]) {
        seq![x] + sorted
    } else {
        seq![sorted[0]] + insert_ranked(sorted.drop_first(), x)
    }
}

/// The stable sort of the capabilities by `ranks_before`.
pub open spec fn ranked(s: Seq<FeatureDefView>) -> Seq<FeatureDefView>
    decreases s.len(),
{
    if s.len() == 0 {
        s
    } else {
        insert_ranked(ranked(s.drop_last()), s.last())
    }
}

proof fn lemma_insert_ranked_at(sorted: Seq<FeatureDefView>, x: FeatureDefView, j: int)
    requires
        0 <= j <= sorted.len(),
        forall|k: int| 0 <= k < j ==> !ranks_before(x, #[trigger] sorted[k]),
        j == sorted.len() || ranks_before(x, sorted[j]),
    ensures
        insert_ranked(sorted, x) == sorted.take(j) + seq![x] + sorted.skip(j),
    decreases j,
{
    if sorted.len() == 0 {
        assert(sorted.take(j) + seq![x] + sorted.skip(j) =~= seq![x]);
    } else if j == 0 {
        assert(sorted.take(j) + seq![x] + sorted.skip(j) =~= seq![x] + sorted);
    } else {
        let rest = sorted.drop_first();
        assert forall|k: int| 0 <= k < j - 1 implies !ranks_before(x, #[trigger] rest[k]) by {
            assert(rest[k] == sorted[k + 1]);
        }
        assert(j - 1 == rest.len() || rest[j - 1] == sorted[j]);
        lemma_insert_ranked_at(rest, x, j - 1);
        assert(sorted.take(j) + seq![x] + sorted.skip(j) =~= seq![sorted[0]] + (rest.take(j - 1)
            + seq![x] + rest.skip(j - 1)));
    }
}

pub open spec fn count_high_unverified(cs: Seq<CellView>) -> nat
    decreases cs.len(),
{
    if cs.len() == 0 {
        0
    } else {
        count_high_unverified(cs.drop_last()) + if cs.last().magnitude == "high"@
            && cs.last().validation == "unverified"@ {
            1nat
        } else {
            0nat
        }
    }
}

pub open spec fn count_unknown(cs: Seq<CellView>) -> nat
    decreases cs.len(),
{
    if cs.len() == 0 {
        0
    } else {
        count_unknown(cs.drop_last()) + if cs.last().direction == "unknown"@ {
            1nat
        } else {
            0nat
        }
    }
}

fn push_row(out: &mut Vec<MatrixChange>, m: MatrixChange)
    ensures
        row_views(final(out)@) == row_views(old(out)@).push(m@),
{
    let ghost before = row_views(out@);
    out.push(m);
    assert(row_views(out@) =~= before.push(m@));
}

fn push_cell(out: &mut Vec<ImpactCell>, c: ImpactCell)
    ensures
        cell_views(final(out)@) == cell_views(old(out)@).push(c@),
{
    let ghost before = cell_views(out@);
    out.push(c);
    assert(cell_views(out@) =~= before.push(c@));
}

fn rows_and_cells(entries: &Vec<ChangeEntry>) -> (r: (Vec<MatrixChange>, Vec<ImpactCell>, Vec<String>))
    ensures
        row_views(r.0@) == entry_views(entries@).map_values(|e: EntryView| row_of(e)),
        cell_views(r.1@) == cells_of(entry_views(entries@)),
        sviews(r.2@) == touched_ids(entry_views(entries@)),
{
    let ghost es = entry_views(entries@);
    let mut rows: Vec<MatrixChange> = Vec::new();
    let mut cells: Vec<ImpactCell> = Vec::new();
    let mut ids: Vec<String> = Vec::new();
    let mut i: usize = 0;
    assert(es.take(0) =~= Seq::<EntryView>::empty());
    assert(cell_views(cells@) =~= Seq::<CellView>::empty());
    assert(sviews(ids@) =~= Seq::<Seq<char>>::empty());
    while i < entries.len()
        invariant
            i <= entries.len(),
            es == entry_views(entries@),
            row_views(rows@) == es.take(i as int).map_values(|e: EntryView| row_of(e)),
            cell_views(cells@) == cells_of(es.take(i as int)),
            sviews(ids@) == touched_ids(es.take(i as int)),
        decreases entries.len() - i,
    {
        let e = &entries[i];
        assert(es[i as int] == e@);
        assert(es.take(i + 1).drop_last() =~= es.take(i as int));
        let m = MatrixChange {
            id: e.short_sha.clone(),
            label: label(e),
            source: source(e).to_owned(),
            subject: e.subject.clone(),
            additions: e.additions,
            deletions: e.deletions,
            file_count: e.files.len(),
        };
        push_row(&mut rows, m);
        assert(row_views(rows@) =~= es.take(i + 1).map_values(|e: EntryView| row_of(e)));
        let ghost c0 = cell_views(cells@);
        let ghost t0 = sviews(ids@);
        let ghost fs = hit_views(e.impact.features@);
        let mut j: usize = 0;
        assert(c0 + fs.take(0).map_values(|f: HitView| cell_of(e@, f)) =~= c0);
        assert(t0 + fs.take(0).map_values(|f: HitView| f.id) =~= t0);
        while j < e.impact.features.len()
            invariant
                j <= e.impact.features.len(),
                fs == hit_views(e.impact.features@),
                cell_views(cells@) == c0 + fs.take(j as int).map_values(|f: HitView| cell_of(e@, f)),
                sviews(ids@) == t0 + fs.take(j as int).map_values(|f: HitView| f.id),
            decreases e.impact.features.len() - j,
        {
            let f = &e.impact.features[j];
            assert(fs[j as int] == f@);
            let c = cell(e, f);
            push_cell(&mut cells, c);
            assert(cell_views(cells@) =~= c0 + fs.take(j + 1).map_values(|f: HitView| cell_of(e@, f)));
            crate::text::push_owned(&mut ids, f.id.as_str());
            assert(sviews(ids@) =~= t0 + fs.take(j + 1).map_values(|f: HitView| f.id));
            j = j + 1;
        }
        assert(fs.take(e.impact.features.len() as int) =~= fs);
        i = i + 1;
    }
    assert(es.take(entries.len() as int) =~= es);
    (rows, cells, ids)
}

fn copy_def_of(d: &FeatureDef) -> (r: FeatureDef)
    ensures
        r@ == d@,
{
    FeatureDef {
        id: d.id.clone(),
        name: d.name.clone(),
        category: d.category.clone(),
        description: d.description.clone(),
        user_facing: d.user_facing,
    }
}

fn find_last_def(ds: &Vec<FeatureDef>, id: &[char]) -> (r: Option<FeatureDef>)
    ensures
        match r {
            Some(d) => last_def_with(def_views(ds@), id@) == Some(d@),
            None => last_def_with(def_views(ds@), id@) is None,
        },
{
    let ghost dv = def_views(ds@);
    let mut k: usize = ds.len();
    assert(dv.take(k as int) =~= dv);
    while k > 0
        invariant
            k <= ds.len(),
            dv == def_views(ds@),
            last_def_with(dv, id@) == last_def_with(dv.take(k as int), id@),
        decreases k,
    {
        assert(dv.take(k as int).last() == ds@[k - 1]@);
        assert(dv.take(k as int).drop_last() =~= dv.take(k - 1));
        if chars_eq(&chars_of(ds[k - 1].id.as_str()), id) {
            return Some(copy_def_of(&ds[k - 1]));
        }
        k = k - 1;
    }
    None
}

fn copy_hit(h: &FeatureHit) -> (r: FeatureHit)
    ensures
        r@ == h@,
{
    FeatureHit {
        id: h.id.clone(),
        name: h.name.clone(),
        category: h.category.clone(),
        severity: h.severity.clone(),
        why: h.why.clone(),
        user_impact: h.user_impact.clone(),
    }
}

fn flat_hits(entries: &Vec<ChangeEntry>) -> (r: Vec<FeatureHit>)
    ensures
        hit_views(r@) == all_hits(entry_views(entries@)),
{
    let ghost es = entry_views(entries@);
    let mut out: Vec<FeatureHit> = Vec::new();
    let mut i: usize = 0;
    assert(es.take(0) =~= Seq::<EntryView>::empty());
    assert(hit_views(out@) =~= Seq::<HitView>::empty());
    while i < entries.len()
        invariant
            i <= entries.len(),
            es == entry_views(entries@),
            hit_views(out@) == all_hits(es.take(i as int)),
        decreases entries.len() - i,
    {
        let e = &entries[i];
        assert(es[i as int] == e@);
        assert(es.take(i + 1).drop_last() =~= es.take(i as int));
        let ghost h0 = hit_views(out@);
        let ghost fs = hit_views(e.impact.features@);
        let mut j: usize = 0;
        assert(h0 + fs.take(0) =~= h0);
        while j < e.impact.features.len()
            invariant
                j <= e.impact.features.len(),
                fs == hit_views(e.impact.features@),
                hit_views(out@) == h0 + fs.take(j as int),
            decreases e.impact.features.len() - j,
        {
            assert(fs[j as int] == e.impact.features@[j as int]@);
            let c = copy_hit(&e.impact.features[j]);
            let ghost before = hit_views(out@);
            out.push(c);
            assert(hit_views(out@) =~= before.push(c@));
            assert(hit_views(out@) =~= h0 + fs.take(j + 1));
            j = j + 1;
        }
        assert(fs.take(e.impact.features.len() as int) =~= fs);
        i = i + 1;
    }
    assert(es.take(entries.len() as int) =~= es);
    out
}

fn find_first_hit(hs: &Vec<FeatureHit>, id: &[char]) -> (r: Option<FeatureDef>)
    ensures
        match r {
            Some(d) => first_hit_with(hit_views(hs@), id@) matches Some(h) && d@ == def_of_hit(h),
            None => first_hit_with(hit_views(hs@), id@) is None,
        },
{
    let ghost hv = hit_views(hs@);
    let mut i: usize = 0;
    assert(hv.take(0) =~= Seq::<HitView>::empty());
    while i < hs.len()
        invariant
            i <= hs.len(),
            hv == hit_views(hs@),
            first_hit_with(hv.take(i as int), id@) is None,
        decreases hs.len() - i,
    {
        let f = &hs[i];
        assert(hv[i as int] == f@);
        assert(hv.take(i + 1).drop_last() =~= hv.take(i as int));
        if chars_eq(&chars_of(f.id.as_str()), id) {
            assert(first_hit_with(hv.take(i + 1), id@) == Some(f@));
            proof {
                assert(hv.take(hv.take(i + 1).len() as int) =~= hv.take(i + 1));
                lemma_first_hit_extend(hv.take(i + 1), hv, id@);
            }
            return Some(
                FeatureDef {
                    id: f.id.clone(),
                    name: f.name.clone(),
                    category: f.category.clone(),
                    description: f.user_impact.clone(),
                    user_facing: true,
                },
            );
        }
        i = i + 1;
    }
    assert(hv.take(hs.len() as int) =~= hv);
    None
}

proof fn lemma_first_hit_extend(p: Seq<HitView>, s: Seq<HitView>, id: Seq<char>)
    requires
        first_hit_with(p, id) is Some,
        p.len() <= s.len(),
        s.take(p.len() as int) == p,
    ensures
        first_hit_with(s, id) == first_hit_with(p, id),
    decreases s.len(),
{
    if s.len() > p.len() {
        assert(s.drop_last().take(p.len() as int) =~= p);
        lemma_first_hit_extend(p, s.drop_last(), id);
    } else {
        assert(s =~= p);
    }
}

/// The capability of id `id` (`capability_for`); an id with neither a
/// catalog entry nor a hit, which the matrix never has, stands for itself.
pub open spec fn capability_of(ds: Seq<FeatureDefView>, hs: Seq<HitView>, id: Seq<char>) -> FeatureDefView {
    match capability_for(ds, hs, id) {
        Some(d) => d,
        None => FeatureDefView {
            id,
            name: id,
            category: Seq::empty(),
            description: Seq::empty(),
            user_facing: true,
        },
    }
}

pub struct MatrixView {
    pub changes: Seq<MatrixChangeView>,
    pub capabilities: Seq<FeatureDefView>,
    pub cells: Seq<CellView>,
    pub unverified_high: nat,
    pub unknown_direction: nat,
}

impl View for ImpactMatrix {
    type V = MatrixView;

    open spec fn view(&self) -> MatrixView {
        MatrixView {
            changes: row_views(self.changes@),
            capabilities: def_views(self.capabilities@),
            cells: cell_views(self.cells@),
            unverified_high: self.unverified_high as nat,
            unknown_direction: self.unknown_direction as nat,
        }
    }
}

/// `m` is the matrix of the changes under the catalog: one row per
/// change, one cell per change and feature it touches, the touched
/// capabilities (ids sorted, each described by `capability_of`) ranked by
/// `ranks_before`, and the two counts of the cells.
pub open spec fn is_matrix(rules: Seq<FeatureRuleView>, es: Seq<EntryView>, m: MatrixView) -> bool {
    let ds = rules.map_values(|f: FeatureRuleView| def_of(f));
    &&& m.changes == es.map_values(|e: EntryView| row_of(e))
    &&& m.cells == cells_of(es)
    &&& exists|ids: Seq<Seq<char>>|
        sorted_unique_of(ids, touched_ids(es)) && m.capabilities == ranked(
            ids.map_values(|id: Seq<char>| capability_of(ds, all_hits(es), id)),
        )
    &&& m.unverified_high == count_high_unverified(m.cells)
    &&& m.unknown_direction == count_unknown(m.cells)
}

proof fn lemma_ranked_len(s: Seq<FeatureDefView>)
    ensures
        ranked(s).len() == s.len(),
    decreases s.len(),
{
    if s.len() > 0 {
        lemma_ranked_len(s.drop_last());
        lemma_insert_ranked_len(ranked(s.drop_last()), s.last());
    }
}

proof fn lemma_insert_ranked_len(sorted: Seq<FeatureDefView>, x: FeatureDefView)
    ensures
        insert_ranked(sorted, x).len() == sorted.len() + 1,
    decreases sorted.len(),
{
    if sorted.len() > 0 && !ranks_before(x, sorted[0]) {
        lemma_insert_ranked_len(sorted.drop_first(), x);
    }
}

proof fn lemma_counts_bounded(cs: Seq<CellView>)
    ensures
        count_high_unverified(cs) <= cs.len(),
        count_unknown(cs) <= cs.len(),
    decreases cs.len(),
{
    if cs.len() > 0 {
        lemma_counts_bounded(cs.drop_last());
    }
}

/// The matrix has one row per change, one capability per distinct feature
/// the changes touch, and counts no more flagged cells than it has cells.
pub proof fn lemma_matrix_structure(rules: Seq<FeatureRuleView>, es: Seq<EntryView>, m: MatrixView)
    requires
        is_matrix(rules, es, m),
    ensures
        m.changes.len() == es.len(),
        exists|ids: Seq<Seq<char>>|
            sorted_unique_of(ids, touched_ids(es)) && m.capabilities.len() == ids.len(),
        m.unverified_high <= m.cells.len(),
        m.unknown_direction <= m.cells.len(),
{
    let ds = rules.map_values(|f: FeatureRuleView| def_of(f));
    let ids = choose|ids: Seq<Seq<char>>|
        sorted_unique_of(ids, touched_ids(es)) && m.capabilities == ranked(
            ids.map_values(|id: Seq<char>| capability_of(ds, all_hits(es), id)),
        );
    lemma_ranked_len(ids.map_values(|id: Seq<char>| capability_of(ds, all_hits(es), id)));
    lemma_counts_bounded(m.cells);
}

fn sort_ranked(v: Vec<FeatureDef>) -> (r: Vec<FeatureDef>)
    ensures
        def_views(r@) == ranked(def_views(v@)),
{
    let ghost orig = def_views(v@);
    let mut rest = v;
    let n = rest.len();
    assert(orig.len() == n);
    let mut out: Vec<FeatureDef> = Vec::new();
    let mut k: usize = 0;
    assert(orig.take(0) =~= Seq::<FeatureDefView>::empty());
    assert(def_views(out@) =~= Seq::<FeatureDefView>::empty());
    while rest.len() > 0
        invariant
            k + rest@.len() == orig.len(),
            orig.len() <= usize::MAX,
            def_views(rest@) == orig.skip(k as int),
            def_views(out@) == ranked(orig.take(k as int)),
        decreases rest@.len(),
    {
        let ghost old_rest = rest@;
        assert(def_views(old_rest)[0] == old_rest[0]@);
        let x = rest.remove(0);
        assert(x@ == orig[k as int]);
        assert(rest@ == old_rest.remove(0));
        assert forall|q: int| 0 <= q < rest@.len() implies #[trigger] def_views(rest@)[q]
            == orig.skip(k + 1)[q] by {
            assert(rest@[q] == old_rest[q + 1]);
            assert(def_views(old_rest)[q + 1] == orig.skip(k as int)[q + 1]);
        }
        assert(def_views(rest@) =~= orig.skip(k + 1));
        let xc = chars_of(x.category.as_str());
        let xn = chars_of(x.name.as_str());
        let mut j: usize = 0;
        loop
            invariant
                j <= out@.len(),
                xc@ == x@.category,
                xn@ == x@.name,
                forall|q: int| 0 <= q < j ==> !ranks_before(x@, #[trigger] def_views(out@)[q]),
            ensures
                j <= out@.len(),
                forall|q: int| 0 <= q < j ==> !ranks_before(x@, #[trigger] def_views(out@)[q]),
                j == out@.len() || ranks_before(x@, def_views(out@)[j as int]),
            decreases out@.len() - j,
        {
            if j >= out.len() {
                break;
            }
            let e = &out[j];
            assert(def_views(out@)[j as int] == e@);
            let ec = chars_of(e.category.as_str());
            let before = (x.user_facing && !e.user_facing) || (x.user_facing == e.user_facing
                && chars_lt(&xc, &ec)) || (x.user_facing == e.user_facing && chars_eq(&xc, &ec)
                && chars_lt(&xn, &chars_of(e.name.as_str())));
            assert(before == ranks_before(x@, e@));
            if before {
                break;
            }
            j = j + 1;
        }
        proof {
            if j < out@.len() {
                assert(def_views(out@)[j as int] == out@[j as int]@);
            }
        }
        let ghost before = def_views(out@);
        proof {
            assert(orig.take(k + 1).drop_last() =~= orig.take(k as int));
            assert(orig.take(k + 1).last() == x@);
            lemma_insert_ranked_at(before, x@, j as int);
        }
        out.insert(j, x);
        assert(def_views(out@) =~= before.take(j as int) + seq![x@] + before.skip(j as int));
        k = k + 1;
    }
    assert(orig.take(k as int) =~= orig);
    out
}

fn count_cells(cells: &Vec<ImpactCell>) -> (r: (usize, usize))
    ensures
        r.0 == count_high_unverified(cell_views(cells@)),
        r.1 == count_unknown(cell_views(cells@)),
{
    let ghost cv = cell_views(cells@);
    let mut a: usize = 0;
    let mut b: usize = 0;
    let mut i: usize = 0;
    assert(cv.take(0) =~= Seq::<CellView>::empty());
    while i < cells.len()
        invariant
            i <= cells.len(),
            cv == cell_views(cells@),
            a == count_high_unverified(cv.take(i as int)),
            b == count_unknown(cv.take(i as int)),
            a <= i,
            b <= i,
        decreases cells.len() - i,
    {
        assert(cv.take(i + 1).drop_last() =~= cv.take(i as int));
        assert(cv[i as int] == cells@[i as int]@);
        let c = &cells[i];
        if eq_str(&chars_of(c.magnitude.as_str()), "high") && eq_str(
            &chars_of(c.validation.as_str()),
            "unverified",
        ) {
            a = a + 1;
        }
        if eq_str(&chars_of(c.direction.as_str()), "unknown") {
            b = b + 1;
        }
        i = i + 1;
    }
    assert(cv.take(cells.len() as int) =~= cv);
    (a, b)
}

/// The change × capability matrix of the changes (`is_matrix`): the
/// working-tree layers and the recent commits, in the order given.
pub fn build(entries: Vec<ChangeEntry>, catalog: &CatalogSnapshot) -> (r: ImpactMatrix)
    ensures
        is_matrix(catalog@.rules, entry_views(entries@), r@),
{
    let ghost es = entry_views(entries@);
    let (changes, cells, touched) = rows_and_cells(&entries);
    let ids = sort_dedup(touched);
    let defs = catalog_defs(catalog);
    let hits = flat_hits(&entries);
    let ghost ds = catalog@.rules.map_values(|f: FeatureRuleView| def_of(f));
    let ghost want = sviews(ids@).map_values(|id: Seq<char>| capability_of(ds, all_hits(es), id));
    let mut caps: Vec<FeatureDef> = Vec::new();
    let mut i: usize = 0;
    while i < ids.len()
        invariant
            i <= ids.len(),
            def_views(defs@) == ds,
            hit_views(hits@) == all_hits(es),
            want == sviews(ids@).map_values(|id: Seq<char>| capability_of(ds, all_hits(es), id)),
            def_views(caps@) == want.take(i as int),
        decreases ids.len() - i,
    {
        let id = chars_of(ids[i].as_str());
        assert(sviews(ids@)[i as int] == id@);
        let d: FeatureDef = match find_last_def(&defs, &id) {
            Some(d) => d,
            None => match find_first_hit(&hits, &id) {
                Some(d) => d,
                None => FeatureDef {
                    id: ids[i].clone(),
                    name: ids[i].clone(),
                    category: String::new(),
                    description: String::new(),
                    user_facing: true,
                },
            },
        };
        assert(d@ == want[i as int]);
        let ghost before = def_views(caps@);
        caps.push(d);
        assert(def_views(caps@) =~= before.push(d@));
        assert(def_views(caps@) =~= want.take(i + 1));
        i = i + 1;
    }
    assert(want.take(ids.len() as int) =~= want);
    let capabilities = sort_ranked(caps);
    let (unverified_high, unknown_direction) = count_cells(&cells);
    let r = ImpactMatrix { changes, capabilities, cells, unverified_high, unknown_direction };
    assert(sorted_unique_of(sviews(ids@), touched_ids(es)));
    r
}

} // verus!
