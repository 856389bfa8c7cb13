//! The product feature catalog: which user-facing capabilities a change
//! touches, along which cross-cutting dimensions, and what to check.

use vstd::prelude::*;
use vstd::slice::{slice_subrange, slice_to_vec};
use crate::monitor::catalog::{CatalogSnapshot, covered_by, covers, rule_covers_path};
use crate::monitor::git::{ChangeEntry, EntryView, entry_views};
use crate::text::{
    chars_lt, chars_of, contains, contains_str, copy_strings, seq_lt, dec, decimal, ends_with, eq_str, find_char,
    find_char_from, has_sub, join, join_with, lowercase, push_chars, push_str, rfind,
    rfind_chars, sort_dedup, sorted_unique_of, starts_with, starts_with_str, string_of, sviews,
    unicode_lowercase, views, lemma_seq_lt_total, lemma_seq_lt_transitive,
};

verus! {

/// A catalog entry as the dashboard lists it.
#[derive(Debug, Clone)]
pub struct FeatureDef {
    pub id: String,
    pub name: String,
    pub category: String,
    pub description: String,
    pub user_facing: bool,
}

pub struct FeatureDefView {
    pub id: Seq<char>,
    pub name: Seq<char>,
    pub category: Seq<char>,
    pub description: Seq<char>,
    pub user_facing: bool,
}

impl View for FeatureDef {
    type V = FeatureDefView;

    open spec fn view(&self) -> FeatureDefView {
        FeatureDefView {
            id: self.id@,
            name: self.name@,
            category: self.category@,
            description: self.description@,
            user_facing: self.user_facing,
        }
    }
}

pub open spec fn def_views(v: Seq<FeatureDef>) -> Seq<FeatureDefView> {
    v.map_values(|d: FeatureDef| d@)
}

/// A feature that a change touches, and why.
#[derive(Debug, Clone)]
pub struct FeatureHit {
    pub id: String,
    pub name: String,
    pub category: String,
    pub severity: String,
    pub why: String,
    pub user_impact: String,
}

pub struct HitView {
    pub id: Seq<char>,
    pub name: Seq<char>,
    pub category: Seq<char>,
    pub severity: Seq<char>,
    pub why: Seq<char>,
    pub user_impact: Seq<char>,
}

impl View for FeatureHit {
    type V = HitView;

    open spec fn view(&self) -> HitView {
        HitView {
            id: self.id@,
            name: self.name@,
            category: self.category@,
            severity: self.severity@,
            why: self.why@,
            user_impact: self.user_impact@,
        }
    }
}

pub open spec fn hit_views(v: Seq<FeatureHit>) -> Seq<HitView> {
    v.map_values(|h: FeatureHit| h@)
}

/// A cross-cutting dimension that a change reaches, with its level.
#[derive(Debug, Clone)]
pub struct DimensionHit {
    pub id: String,
    pub label: String,
    pub level: String,
    pub note: String,
}

pub struct DimensionView {
    pub id: Seq<char>,
    pub label: Seq<char>,
    pub level: Seq<char>,
    pub note: Seq<char>,
}

impl View for DimensionHit {
    type V = DimensionView;

    open spec fn view(&self) -> DimensionView {
        DimensionView { id: self.id@, label: self.label@, level: self.level@, note: self.note@ }
    }
}

pub open spec fn dim_views(v: Seq<DimensionHit>) -> Seq<DimensionView> {
    v.map_values(|d: DimensionHit| d@)
}

/// How much recent history touched one feature.
#[derive(Debug, Clone)]
pub struct FeatureActivity {
    pub feature: FeatureDef,
    pub commit_count: u64,
    pub additions: u64,
    pub deletions: u64,
    pub last_sha: String,
    pub last_subject: String,
    pub last_date: String,
    pub heat: String,
}

/// The features page: the catalog, activity per feature, and the dimension
/// labels.
#[derive(Debug, Clone)]
pub struct FeaturesOverview {
    pub catalog: Vec<FeatureDef>,
    pub activity: Vec<FeatureActivity>,
    pub dimensions: Vec<String>,
}

/// A curated feature rule from `features.toml`.
#[derive(Debug, Clone)]
pub struct FeatureRule {
    pub id: String,
    pub name: String,
    pub category: String,
    pub description: String,
    pub user_facing: bool,
    pub paths: Vec<String>,
    pub names: Vec<String>,
    pub keywords: Vec<String>,
    pub severity: String,
    pub user_impact: String,
}

pub struct FeatureRuleView {
    pub id: Seq<char>,
    pub name: Seq<char>,
    pub category: Seq<char>,
    pub description: Seq<char>,
    pub user_facing: bool,
    pub paths: Seq<Seq<char>>,
    pub names: Seq<Seq<char>>,
    pub keywords: Seq<Seq<char>>,
    pub severity: Seq<char>,
    pub user_impact: Seq<char>,
}

impl View for FeatureRule {
    type V = FeatureRuleView;

    open spec fn view(&self) -> FeatureRuleView {
        FeatureRuleView {
            id: self.id@,
            name: self.name@,
            category: self.category@,
            description: self.description@,
            user_facing: self.user_facing,
            paths: sviews(self.paths@),
            names: sviews(self.names@),
            keywords: sviews(self.keywords@),
            severity: self.severity@,
            user_impact: self.user_impact@,
        }
    }
}

pub open spec fn rule_views(v: Seq<FeatureRule>) -> Seq<FeatureRuleView> {
    v.map_values(|r: FeatureRule| r@)
}

/// A copy of the rule.
pub fn copy_rule(f: &FeatureRule) -> (r: FeatureRule)
    ensures
        r@ == f@,
{
    FeatureRule {
        id: f.id.clone(),
        name: f.name.clone(),
        category: f.category.clone(),
        description: f.description.clone(),
        user_facing: f.user_facing,
        paths: copy_strings(&f.paths),
        names: copy_strings(&f.names),
        keywords: copy_strings(&f.keywords),
        severity: f.severity.clone(),
        user_impact: f.user_impact.clone(),
    }
}

/// The catalog entry of a rule.
pub open spec fn def_of(f: FeatureRuleView) -> FeatureDefView {
    FeatureDefView {
        id: f.id,
        name: f.name,
        category: f.category,
        description: f.description,
        user_facing: f.user_facing,
    }
}

/// The catalog entries of the curated rules, in order.
pub fn catalog_defs(catalog: &CatalogSnapshot) -> (r: Vec<FeatureDef>)
    ensures
        def_views(r@) == catalog@.rules.map_values(|f: FeatureRuleView| def_of(f)),
{
    let ghost want = catalog@.rules.map_values(|f: FeatureRuleView| def_of(f));
    let mut out: Vec<FeatureDef> = Vec::new();
    let mut i: usize = 0;
    while i < catalog.rules.len()
        invariant
            i <= catalog.rules.len(),
            want == catalog@.rules.map_values(|f: FeatureRuleView| def_of(f)),
            def_views(out@) == want.take(i as int),
        decreases catalog.rules.len() - i,
    {
        let f = &catalog.rules[i];
        assert(catalog@.rules[i as int] == f@);
        let d = FeatureDef {
            id: f.id.clone(),
            name: f.name.clone(),
            category: f.category.clone(),
            description: f.description.clone(),
            user_facing: f.user_facing,
        };
        let ghost before = def_views(out@);
        out.push(d);
        assert(def_views(out@) =~= before.push(d@));
        assert(want.take(i + 1) =~= want.take(i as int).push(want[i as int]));
        i = i + 1;
    }
    assert(want.take(catalog.rules.len() as int) =~= want);
    out
}

/// The commit text as the keyword and dimension checks read it.
pub open spec fn commit_text(subject: Seq<char>, body: Seq<char>) -> Seq<char> {
    unicode_lowercase(subject + seq!['\n'] + body)
}

/// Number of `files` that rule `f` covers.
pub open spec fn count_covered(f: FeatureRuleView, files: Seq<Seq<char>>) -> nat
    decreases files.len(),
{
    if files.len() == 0 {
        0
    } else {
        count_covered(f, files.drop_last()) + if covers(f, files.last()) {
            1nat
        } else {
            0nat
        }
    }
}

/// The keywords that occur, lowercased, in `blob`.
pub open spec fn keyword_hits(ks: Seq<Seq<char>>, blob: Seq<char>) -> Seq<Seq<char>>
    decreases ks.len(),
{
    if ks.len() == 0 {
        Seq::empty()
    } else if has_sub(blob, unicode_lowercase(ks.last())) {
        keyword_hits(ks.drop_last(), blob).push(ks.last())
    } else {
        keyword_hits(ks.drop_last(), blob)
    }
}

/// At most the first three.
pub open spec fn first_three(s: Seq<Seq<char>>) -> Seq<Seq<char>> {
    if s.len() <= 3 {
        s
    } else {
        s.take(3)
    }
}

/// Why rule `f` matches the change: the covered files, then the keywords.
pub open spec fn reasons(f: FeatureRuleView, files: Seq<Seq<char>>, blob: Seq<char>) -> Seq<
    Seq<char>,
> {
    let n = count_covered(f, files);
    let k = keyword_hits(f.keywords, blob);
    (if n > 0 {
        seq!["触及 "@ + dec(n) + " 个相关文件"@]
    } else {
        Seq::empty()
    }) + (if k.len() > 0 {
        seq!["提交说明命中关键词: "@ + join(first_three(k), ", "@)]
    } else {
        Seq::empty()
    })
}

/// The hit of rule `f`, when it has a reason.
pub open spec fn curated_hit(f: FeatureRuleView, files: Seq<Seq<char>>, blob: Seq<char>) -> Option<
    HitView,
> {
    let r = reasons(f, files, blob);
    if r.len() == 0 {
        None
    } else {
        Some(
            HitView {
                id: f.id,
                name: f.name,
                category: f.category,
                severity: f.severity,
                why: join(r, "；"@),
                user_impact: f.user_impact,
            },
        )
    }
}

/// The hits of the curated rules, in rule order.
pub open spec fn curated_hits(rules: Seq<FeatureRuleView>, files: Seq<Seq<char>>, blob: Seq<char>) -> Seq<
    HitView,
>
    decreases rules.len(),
{
    if rules.len() == 0 {
        Seq::empty()
    } else {
        let acc = curated_hits(rules.drop_last(), files, blob);
        match curated_hit(rules.last(), files, blob) {
            Some(h) => acc.push(h),
            None => acc,
        }
    }
}

/// The path with `\` turned into `/`.
pub open spec fn slashed(s: Seq<char>) -> Seq<char> {
    s.map_values(|c: char| if c == '\\' { '/' } else { c })
}

/// The last `/`-separated piece.
pub open spec fn file_name(s: Seq<char>) -> Seq<char> {
    match rfind(s, seq!['/']) {
        Some(i) => s.skip(i + 1),
        None => s,
    }
}

/// The file name without `.rs`, or without its last extension when that
/// leaves something.
pub open spec fn stem_of(name: Seq<char>) -> Option<Seq<char>> {
    if ends_with(name, ".rs"@) {
        Some(name.take(name.len() - ".rs"@.len()))
    } else {
        match rfind(name, seq!['.']) {
            Some(j) => if j > 0 {
                Some(name.take(j))
            } else {
                None
            },
            None => None,
        }
    }
}

/// `s` with every leading copy of `p` removed.
pub open spec fn trim_prefixes(s: Seq<char>, p: Seq<char>) -> Seq<char>
    decreases s.len(),
{
    if p.len() > 0 && starts_with(s, p) {
        trim_prefixes(s.skip(p.len() as int), p)
    } else {
        s
    }
}

/// The text up to the first `/`.
pub open spec fn first_piece(s: Seq<char>) -> Seq<char> {
    match find_char_from(s, '/', 0) {
        Some(i) => s.take(i),
        None => s,
    }
}

/// The crate an uncovered path belongs to.
pub open spec fn auto_crate(norm: Seq<char>) -> Option<Seq<char>> {
    if has_sub(norm, "bony-build/"@) {
        Some("bony-build"@)
    } else if has_sub(norm, "bony-monitor/"@) {
        Some("bony-monitor"@)
    } else if starts_with(norm, "scripts/"@) {
        Some("scripts"@)
    } else if starts_with(norm, "crates/codegen/"@) {
        Some(first_piece(trim_prefixes(norm, "crates/codegen/"@)))
    } else {
        None
    }
}

pub open spec fn auto_label(krate: Seq<char>, stem: Seq<char>) -> Seq<char> {
    if krate == "bony-build"@ {
        "桌面·"@ + stem
    } else if krate == "bony-monitor"@ {
        "监控·"@ + stem
    } else if krate == "scripts"@ {
        "脚本·"@ + stem
    } else {
        krate + "·"@ + stem
    }
}

/// The feature that a module outside the curated catalog stands for.
pub open spec fn auto_feature(path: Seq<char>) -> Option<HitView> {
    let norm = slashed(path);
    match stem_of(file_name(norm)) {
        None => None,
        Some(stem) => match auto_crate(norm) {
            None => None,
            Some(k) => {
                let label = auto_label(k, stem);
                Some(
                    HitView {
                        id: "auto-"@ + k + "-"@ + stem,
                        name: label,
                        category: "自动发现"@,
                        severity: "medium"@,
                        why: "未覆盖路径："@ + norm,
                        user_impact: "新模块「"@ + label + "」尚未写入功能目录，请确认是否归入既有 feature"@,
                    },
                )
            },
        },
    }
}

pub open spec fn has_hit_id(hs: Seq<HitView>, id: Seq<char>) -> bool {
    exists|i: int| 0 <= i < hs.len() && (#[trigger] hs[i]).id == id
}

/// The auto-discovered hits of the uncovered files, one per id, in order.
pub open spec fn auto_hits(rules: Seq<FeatureRuleView>, files: Seq<Seq<char>>) -> Seq<HitView>
    decreases files.len(),
{
    if files.len() == 0 {
        Seq::empty()
    } else {
        let acc = auto_hits(rules, files.drop_last());
        let p = files.last();
        if covered_by(rules, p) {
            acc
        } else {
            match auto_feature(p) {
                Some(h) => if has_hit_id(acc, h.id) {
                    acc
                } else {
                    acc.push(h)
                },
                None => acc,
            }
        }
    }
}

/// The features a change touches: the curated hits, then the modules that
/// no rule covers.
pub open spec fn feature_hits(
    rules: Seq<FeatureRuleView>,
    subject: Seq<char>,
    body: Seq<char>,
    files: Seq<Seq<char>>,
) -> Seq<HitView> {
    curated_hits(rules, files, commit_text(subject, body)) + auto_hits(rules, files)
}

fn count_covered_files(f: &FeatureRule, files: &[String]) -> (r: usize)
    ensures
        r == count_covered(f@, sviews(files@)),
{
    let ghost fs = sviews(files@);
    let mut n: usize = 0;
    let mut i: usize = 0;
    assert(fs.take(0) =~= Seq::<Seq<char>>::empty());
    while i < files.len()
        invariant
            i <= files.len(),
            fs == sviews(files@),
            n == count_covered(f@, fs.take(i as int)),
            n <= i,
        decreases files.len() - i,
    {
        assert(fs.take(i + 1).drop_last() =~= fs.take(i as int));
        assert(fs[i as int] == files@[i as int]@);
        if rule_covers_path(f, files[i].as_str()) {
            n = n + 1;
        }
        i = i + 1;
    }
    assert(fs.take(files.len() as int) =~= fs);
    n
}

fn keywords_in(ks: &Vec<String>, blob: &Vec<char>) -> (r: Vec<Vec<char>>)
    ensures
        views(r@) == keyword_hits(sviews(ks@), blob@),
{
    let ghost k = sviews(ks@);
    let mut out: Vec<Vec<char>> = Vec::new();
    let mut i: usize = 0;
    assert(k.take(0) =~= Seq::<Seq<char>>::empty());
    assert(views(out@) =~= Seq::<Seq<char>>::empty());
    while i < ks.len()
        invariant
            i <= ks.len(),
            k == sviews(ks@),
            views(out@) == keyword_hits(k.take(i as int), blob@),
        decreases ks.len() - i,
    {
        assert(k.take(i + 1).drop_last() =~= k.take(i as int));
        assert(k[i as int] == ks@[i as int]@);
        let kc = chars_of(ks[i].as_str());
        let kl = lowercase(&kc);
        if contains(blob, &kl) {
            let ghost before = views(out@);
            out.push(kc);
            assert(views(out@) =~= before.push(k[i as int]));
        }
        i = i + 1;
    }
    assert(k.take(ks.len() as int) =~= k);
    out
}

fn first_three_of(v: &Vec<Vec<char>>) -> (r: Vec<Vec<char>>)
    ensures
        views(r@) == first_three(views(v@)),
{
    let mut out: Vec<Vec<char>> = Vec::new();
    let mut i: usize = 0;
    let n: usize = if v.len() < 3 {
        v.len()
    } else {
        3
    };
    while i < n
        invariant
            i <= n,
            n <= v.len(),
            n == (if v@.len() < 3 {
                v@.len()
            } else {
                3
            }),
            views(out@) == views(v@).take(i as int),
        decreases n - i,
    {
        let mut c: Vec<char> = Vec::new();
        push_chars(&mut c, v[i].as_slice());
        assert(c@ =~= v@[i as int]@);
        let ghost before = views(out@);
        out.push(c);
        assert(views(out@) =~= before.push(v@[i as int]@));
        assert(views(out@) =~= views(v@).take(i + 1));
        i = i + 1;
    }
    assert(v@.len() <= 3 ==> views(v@).take(n as int) =~= views(v@));
    out
}

fn rule_hit(f: &FeatureRule, files: &[String], blob: &Vec<char>) -> (r: Option<FeatureHit>)
    ensures
        match r {
            Some(h) => curated_hit(f@, sviews(files@), blob@) == Some(h@),
            None => curated_hit(f@, sviews(files@), blob@) is None,
        },
{
    let n = count_covered_files(f, files);
    let mut reasons_v: Vec<Vec<char>> = Vec::new();
    if n > 0 {
        let mut r: Vec<char> = Vec::new();
        push_str(&mut r, "触及 ");
        let d = decimal(n as u64);
        push_chars(&mut r, &d);
        push_str(&mut r, " 个相关文件");
        reasons_v.push(r);
    }
    let kw = keywords_in(&f.keywords, blob);
    if kw.len() > 0 {
        let mut r: Vec<char> = Vec::new();
        push_str(&mut r, "提交说明命中关键词: ");
        let three = first_three_of(&kw);
        let joined = join_with(&three, ", ");
        push_chars(&mut r, &joined);
        reasons_v.push(r);
    }
    proof {
        let want = reasons(f@, sviews(files@), blob@);
        assert(views(reasons_v@) =~= want);
    }
    if reasons_v.len() == 0 {
        return None;
    }
    let why = join_with(&reasons_v, "；");
    Some(
        FeatureHit {
            id: f.id.clone(),
            name: f.name.clone(),
            category: f.category.clone(),
            severity: f.severity.clone(),
            why: string_of(&why),
            user_impact: f.user_impact.clone(),
        },
    )
}

fn slash_path(s: &[char]) -> (r: Vec<char>)
    ensures
        r@ == slashed(s@),
{
    let mut out: Vec<char> = Vec::new();
    let mut i: usize = 0;
    while i < s.len()
        invariant
            i <= s.len(),
            out@ == slashed(s@).take(i as int),
        decreases s.len() - i,
    {
        let c = if s[i] == '\\' {
            '/'
        } else {
            s[i]
        };
        out.push(c);
        assert(out@ =~= slashed(s@).take(i + 1));
        i = i + 1;
    }
    assert(slashed(s@).take(s.len() as int) =~= slashed(s@));
    out
}

fn trim_prefixes_of(s: &[char], p: &str) -> (r: Vec<char>)
    ensures
        r@ == trim_prefixes(s@, p@),
{
    let pv = chars_of(p);
    let mut k: usize = 0;
    assert(s@.skip(0) =~= s@);
    while pv.len() > 0 && crate::text::matches_at(s, &pv, k)
        invariant
            k <= s.len(),
            pv@ == p@,
            trim_prefixes(s@, p@) == trim_prefixes(s@.skip(k as int), p@),
        decreases s.len() - k,
    {
        assert(starts_with(s@.skip(k as int), p@)) by {
            assert(s@.skip(k as int).subrange(0, p@.len() as int) =~= s@.subrange(
                k as int,
                k + p@.len(),
            ));
        }
        assert(s@.skip(k as int).skip(p@.len() as int) =~= s@.skip(k + p@.len()));
        k = k + pv.len();
    }
    proof {
        if pv@.len() > 0 && starts_with(s@.skip(k as int), p@) {
            assert(s@.skip(k as int).subrange(0, p@.len() as int) =~= s@.subrange(
                k as int,
                k + p@.len(),
            ));
        }
    }
    let r = slice_to_vec(slice_subrange(s, k, s.len()));
    assert(r@ =~= s@.skip(k as int));
    r
}

/// The subject and body joined by a newline.
fn commit_chars(subject: &str, body: &str) -> (r: Vec<char>)
    ensures
        r@ == subject@ + seq!['\n'] + body@,
{
    let mut t = chars_of(subject);
    t.push('\n');
    push_str(&mut t, body);
    assert(t@ =~= subject@ + seq!['\n'] + body@);
    t
}

fn one_char(c: char) -> (r: Vec<char>)
    ensures
        r@ == seq![c],
{
    let mut v: Vec<char> = Vec::new();
    v.push(c);
    assert(v@ =~= seq![c]);
    v
}

fn concat3(a: &[char], b: &str, c: &[char]) -> (r: Vec<char>)
    ensures
        r@ == a@ + b@ + c@,
{
    let mut v: Vec<char> = Vec::new();
    push_chars(&mut v, a);
    push_str(&mut v, b);
    push_chars(&mut v, c);
    assert(v@ =~= a@ + b@ + c@);
    v
}

/// The feature a path outside the curated catalog stands for
/// (`auto_feature`).
pub fn auto_feature_for_path(path: &str) -> (r: Option<FeatureHit>)
    ensures
        match r {
            Some(h) => auto_feature(path@) == Some(h@),
            None => auto_feature(path@) is None,
        },
{
    let pc = chars_of(path);
    let norm = slash_path(&pc);
    let slash = one_char('/');
    let name: Vec<char> = match rfind_chars(&norm, &slash) {
        Some(i) => {
            let v = slice_to_vec(slice_subrange(norm.as_slice(), i + 1, norm.len()));
            assert(v@ =~= norm@.skip(i + 1));
            v
        },
        None => {
            let v = slice_to_vec(norm.as_slice());
            v
        },
    };
    assert(name@ == file_name(norm@));
    let suf = chars_of(".rs");
    let stem: Vec<char> = if crate::text::ends_with_str(&name, ".rs") {
        let v = slice_to_vec(slice_subrange(name.as_slice(), 0, name.len() - suf.len()));
        assert(v@ =~= name@.take(name@.len() - ".rs"@.len()));
        v
    } else {
        let dot = one_char('.');
        match rfind_chars(&name, &dot) {
            Some(j) => {
                if j == 0 {
                    return None;
                }
                let v = slice_to_vec(slice_subrange(name.as_slice(), 0, j));
                assert(v@ =~= name@.take(j as int));
                v
            },
            None => {
                return None;
            },
        }
    };
    assert(stem_of(file_name(norm@)) == Some(stem@));
    let krate: Vec<char> = if contains_str(&norm, "bony-build/") {
        chars_of("bony-build")
    } else if contains_str(&norm, "bony-monitor/") {
        chars_of("bony-monitor")
    } else if starts_with_str(&norm, "scripts/") {
        chars_of("scripts")
    } else if starts_with_str(&norm, "crates/codegen/") {
        let rest = trim_prefixes_of(&norm, "crates/codegen/");
        match find_char(&rest, '/') {
            Some(i) => {
                let v = slice_to_vec(slice_subrange(rest.as_slice(), 0, i));
                assert(v@ =~= rest@.take(i as int));
                v
            },
            None => rest,
        }
    } else {
        return None;
    };
    assert(auto_crate(norm@) == Some(krate@));
    let label: Vec<char> = if eq_str(&krate, "bony-build") {
        let mut l = chars_of("桌面·");
        push_chars(&mut l, &stem);
        l
    } else if eq_str(&krate, "bony-monitor") {
        let mut l = chars_of("监控·");
        push_chars(&mut l, &stem);
        l
    } else if eq_str(&krate, "scripts") {
        let mut l = chars_of("脚本·");
        push_chars(&mut l, &stem);
        l
    } else {
        concat3(&krate, "·", &stem)
    };
    assert(label@ == auto_label(krate@, stem@));
    let mut id = chars_of("auto-");
    push_chars(&mut id, &krate);
    push_str(&mut id, "-");
    push_chars(&mut id, &stem);
    let mut why = chars_of("未覆盖路径：");
    push_chars(&mut why, &norm);
    let mut impact = chars_of("新模块「");
    push_chars(&mut impact, &label);
    push_str(&mut impact, "」尚未写入功能目录，请确认是否归入既有 feature");
    Some(
        FeatureHit {
            id: string_of(&id),
            name: string_of(&label),
            category: "自动发现".to_owned(),
            severity: "medium".to_owned(),
            why: string_of(&why),
            user_impact: string_of(&impact),
        },
    )
}

/// Whether a hit with id `id` is among `hs`.
pub fn hits_have_id(hs: &Vec<FeatureHit>, id: &str) -> (r: bool)
    ensures
        r == has_hit_id(hit_views(hs@), id@),
{
    let idc = chars_of(id);
    let mut i: usize = 0;
    while i < hs.len()
        invariant
            i <= hs.len(),
            idc@ == id@,
            forall|k: int| 0 <= k < i ==> (#[trigger] hit_views(hs@)[k]).id != id@,
        decreases hs.len() - i,
    {
        assert(hit_views(hs@)[i as int] == hs@[i as int]@);
        if crate::text::chars_eq(&chars_of(hs[i].id.as_str()), &idc) {
            return true;
        }
        i = i + 1;
    }
    false
}

/// The features a change touches (`feature_hits`): the curated rules that
/// cover one of its files or whose keywords its text names, then one
/// auto-discovered feature per module that no rule covers.
pub fn match_features(catalog: &CatalogSnapshot, subject: &str, body: &str, files: &[String]) -> (r:
    Vec<FeatureHit>)
    ensures
        hit_views(r@) == feature_hits(catalog@.rules, subject@, body@, sviews(files@)),
{
    let t = commit_chars(subject, body);
    let blob = lowercase(&t);
    assert(blob@ == commit_text(subject@, body@));
    let ghost rules = catalog@.rules;
    let ghost fs = sviews(files@);
    let mut hits: Vec<FeatureHit> = Vec::new();
    let mut i: usize = 0;
    assert(rules.take(0) =~= Seq::<FeatureRuleView>::empty());
    assert(hit_views(hits@) =~= Seq::<HitView>::empty());
    while i < catalog.rules.len()
        invariant
            i <= catalog.rules.len(),
            rules == catalog@.rules,
            fs == sviews(files@),
            blob@ == commit_text(subject@, body@),
            hit_views(hits@) == curated_hits(rules.take(i as int), fs, blob@),
        decreases catalog.rules.len() - i,
    {
        assert(rules.take(i + 1).drop_last() =~= rules.take(i as int));
        assert(rules[i as int] == catalog.rules@[i as int]@);
        let ghost before = hit_views(hits@);
        match rule_hit(&catalog.rules[i], files, &blob) {
            Some(h) => {
                hits.push(h);
                assert(hit_views(hits@) =~= before.push(h@));
            },
            None => {},
        }
        i = i + 1;
    }
    assert(rules.take(catalog.rules.len() as int) =~= rules);
    let ghost curated = hit_views(hits@);
    let mut auto: Vec<FeatureHit> = Vec::new();
    let mut j: usize = 0;
    assert(fs.take(0) =~= Seq::<Seq<char>>::empty());
    assert(hit_views(auto@) =~= Seq::<HitView>::empty());
    while j < files.len()
        invariant
            j <= files.len(),
            rules == catalog@.rules,
            fs == sviews(files@),
            hit_views(auto@) == auto_hits(rules, fs.take(j as int)),
        decreases files.len() - j,
    {
        assert(fs.take(j + 1).drop_last() =~= fs.take(j as int));
        assert(fs[j as int] == files@[j as int]@);
        if !catalog.path_covered_by_curated(files[j].as_str()) {
            match auto_feature_for_path(files[j].as_str()) {
                Some(h) => {
                    if !hits_have_id(&auto, h.id.as_str()) {
                        let ghost before = hit_views(auto@);
                        auto.push(h);
                        assert(hit_views(auto@) =~= before.push(h@));
                    }
                },
                None => {},
            }
        }
        j = j + 1;
    }
    assert(fs.take(files.len() as int) =~= fs);
    let ghost autos = hit_views(auto@);
    let mut k: usize = 0;
    while k < auto.len()
        invariant
            k <= auto.len(),
            hit_views(hits@) == curated + autos.take(k as int),
            autos == hit_views(auto@),
        decreases auto.len() - k,
    {
        let h = FeatureHit {
            id: auto[k].id.clone(),
            name: auto[k].name.clone(),
            category: auto[k].category.clone(),
            severity: auto[k].severity.clone(),
            why: auto[k].why.clone(),
            user_impact: auto[k].user_impact.clone(),
        };
        assert(h@ == autos[k as int]);
        let ghost before = hit_views(hits@);
        hits.push(h);
        assert(hit_views(hits@) =~= before.push(h@));
        assert(curated + autos.take(k + 1) =~= (curated + autos.take(k as int)).push(autos[k as int]));
        k = k + 1;
    }
    assert(autos.take(auto.len() as int) =~= autos);
    hits
}

/// The label of a dimension id.
pub open spec fn dim_label(id: Seq<char>) -> Seq<char> {
    if id == "ux"@ {
        "用户体验"@
    } else if id == "capability"@ {
        "功能能力"@
    } else if id == "security"@ {
        "安全合规"@
    } else if id == "reliability"@ {
        "稳定性"@
    } else if id == "compat"@ {
        "兼容性"@
    } else if id == "perf"@ {
        "性能"@
    } else if id == "dx"@ {
        "开发体验"@
    } else if id == "docs"@ {
        "文档完备"@
    } else {
        id
    }
}

pub open spec fn dv(id: Seq<char>, level: Seq<char>, note: Seq<char>) -> DimensionView {
    DimensionView { id, label: dim_label(id), level, note }
}

/// A dimension hit, labelled from the dimension table.
fn dim(id: &str, level: &str, note: &str) -> (r: DimensionHit)
    ensures
        r@ == dv(id@, level@, note@),
{
    let idc = chars_of(id);
    let label: &str = if eq_str(&idc, "ux") {
        "用户体验"
    } else if eq_str(&idc, "capability") {
        "功能能力"
    } else if eq_str(&idc, "security") {
        "安全合规"
    } else if eq_str(&idc, "reliability") {
        "稳定性"
    } else if eq_str(&idc, "compat") {
        "兼容性"
    } else if eq_str(&idc, "perf") {
        "性能"
    } else if eq_str(&idc, "dx") {
        "开发体验"
    } else if eq_str(&idc, "docs") {
        "文档完备"
    } else {
        id
    };
    DimensionHit {
        id: id.to_owned(),
        label: label.to_owned(),
        level: level.to_owned(),
        note: note.to_owned(),
    }
}

pub open spec fn has_category(hs: Seq<HitView>, c: Seq<char>) -> bool {
    exists|i: int| 0 <= i < hs.len() && (#[trigger] hs[i]).category == c
}

pub open spec fn has_id_prefix(hs: Seq<HitView>, p: Seq<char>) -> bool {
    exists|i: int| 0 <= i < hs.len() && starts_with((#[trigger] hs[i]).id, p)
}

fn hits_have_category(hs: &Vec<FeatureHit>, c: &str) -> (r: bool)
    ensures
        r == has_category(hit_views(hs@), c@),
{
    let cc = chars_of(c);
    let mut i: usize = 0;
    while i < hs.len()
        invariant
            i <= hs.len(),
            cc@ == c@,
            forall|k: int| 0 <= k < i ==> (#[trigger] hit_views(hs@)[k]).category != c@,
        decreases hs.len() - i,
    {
        assert(hit_views(hs@)[i as int] == hs@[i as int]@);
        if crate::text::chars_eq(&chars_of(hs[i].category.as_str()), &cc) {
            return true;
        }
        i = i + 1;
    }
    false
}

fn hits_have_id_prefix(hs: &Vec<FeatureHit>, p: &str) -> (r: bool)
    ensures
        r == has_id_prefix(hit_views(hs@), p@),
{
    let mut i: usize = 0;
    while i < hs.len()
        invariant
            i <= hs.len(),
            forall|k: int| 0 <= k < i ==> !starts_with((#[trigger] hit_views(hs@)[k]).id, p@),
        decreases hs.len() - i,
    {
        assert(hit_views(hs@)[i as int] == hs@[i as int]@);
        if starts_with_str(&chars_of(hs[i].id.as_str()), p) {
            return true;
        }
        i = i + 1;
    }
    false
}

pub open spec fn opt_dim(b: bool, d: DimensionView) -> Seq<DimensionView> {
    if b {
        seq![d]
    } else {
        Seq::empty()
    }
}

/// The dimension hits for the outcomes of the dimension checks, in their
/// order; when none holds and the change has files, a low capability note.
pub open spec fn dims_from(
    ui: bool,
    cap: bool,
    sec: bool,
    rel_high: bool,
    any_feature: bool,
    compat: bool,
    perf: bool,
    dx: bool,
    docs: bool,
    auto: bool,
    any_file: bool,
) -> Seq<DimensionView> {
    let out = opt_dim(ui, dv("ux"@, "高"@, "界面或交互路径被改动，需目视回归主流程"@)) + opt_dim(
        cap,
        dv("capability"@, "高"@, "核心 Agent/模型/工具或桌面工作流能力可能变化"@),
    ) + opt_dim(sec, dv("security"@, "高"@, "认证或权限相关，需重点验证密钥与审批"@)) + (if rel_high {
        seq![dv("reliability"@, "高"@, "会话主链路或项目切换会重启 bridge，关注重连与取消"@)]
    } else if any_feature {
        seq![dv("reliability"@, "中"@, "建议冒烟：启动 → 发一条消息 → 看工具是否正常"@)]
    } else {
        Seq::empty()
    }) + opt_dim(compat, dv("compat"@, "高"@, "不同供应商协议/鉴权可能不兼容，建议多模型抽测"@))
        + opt_dim(perf, dv("perf"@, "中"@, "提交提到性能/超时相关"@)) + opt_dim(
        dx,
        dv("dx"@, "中"@, "构建脚本或监控变更，影响开发与发布效率"@),
    ) + opt_dim(docs, dv("docs"@, "低"@, "文档更新，利于上手但不改运行时行为"@)) + opt_dim(
        auto,
        dv("dx"@, "中"@, "出现自动发现模块，建议补全 catalog/features.toml"@),
    );
    if out.len() == 0 && any_file {
        seq![dv("capability"@, "低"@, "未匹配到已知功能规则，请人工确认影响面"@)]
    } else {
        out
    }
}

/// The dimensions a change reaches (`dims_from` of the checks): the UI,
/// capability and security checks read the features (and, for security,
/// the lowercased file list), the performance check the commit text.
pub open spec fn dimension_hits(
    subject: Seq<char>,
    body: Seq<char>,
    files: Seq<Seq<char>>,
    fs: Seq<HitView>,
) -> Seq<DimensionView> {
    let joined = unicode_lowercase(join(files, "\n"@));
    let text = commit_text(subject, body);
    dims_from(
        has_category(fs, "桌面体验"@) || has_hit_id(fs, "tui"@) || has_category(fs, "自动发现"@),
        has_hit_id(fs, "tools"@) || has_hit_id(fs, "session-loop"@) || has_hit_id(
            fs,
            "multi-provider"@,
        ) || has_hit_id(fs, "model-picker"@) || has_hit_id(fs, "workspace-fs"@) || has_hit_id(
            fs,
            "projects"@,
        ) || has_hit_id(fs, "usage-analytics"@) || has_id_prefix(fs, "auto-"@),
        has_hit_id(fs, "auth-login"@) || has_hit_id(fs, "permissions"@) || has_sub(joined, "auth"@)
            || has_sub(joined, "secret"@),
        has_hit_id(fs, "session-loop"@) || has_hit_id(fs, "projects"@),
        fs.len() > 0,
        has_hit_id(fs, "multi-provider"@) || has_hit_id(fs, "model-picker"@),
        has_sub(text, "perf"@) || has_sub(text, "性能"@) || has_sub(text, "timeout"@),
        has_hit_id(fs, "build-ci"@) || has_hit_id(fs, "monitor"@),
        has_hit_id(fs, "docs-product"@),
        has_id_prefix(fs, "auto-"@),
        files.len() > 0,
    )
}

fn push_dim(out: &mut Vec<DimensionHit>, d: DimensionHit)
    ensures
        dim_views(final(out)@) == dim_views(old(out)@).push(d@),
{
    let ghost before = dim_views(out@);
    out.push(d);
    assert(dim_views(out@) =~= before.push(d@));
}

fn file_chars(files: &[String]) -> (r: Vec<Vec<char>>)
    ensures
        views(r@) == sviews(files@),
{
    let mut out: Vec<Vec<char>> = Vec::new();
    let mut i: usize = 0;
    while i < files.len()
        invariant
            i <= files.len(),
            views(out@) == sviews(files@).take(i as int),
        decreases files.len() - i,
    {
        let c = chars_of(files[i].as_str());
        let ghost before = views(out@);
        out.push(c);
        assert(views(out@) =~= before.push(c@));
        assert(views(out@) =~= sviews(files@).take(i + 1));
        i = i + 1;
    }
    assert(sviews(files@).take(files.len() as int) =~= sviews(files@));
    out
}

fn push_dim_if(out: &mut Vec<DimensionHit>, b: bool, id: &str, level: &str, note: &str)
    ensures
        dim_views(final(out)@) == dim_views(old(out)@) + opt_dim(b, dv(id@, level@, note@)),
{
    if b {
        push_dim(out, dim(id, level, note));
    }
    assert(dim_views(out@) =~= dim_views(old(out)@) + opt_dim(b, dv(id@, level@, note@)));
}

#[verifier::rlimit(40)]
#[verifier::spinoff_prover]
fn dims_of_flags(
    ui: bool,
    cap: bool,
    sec: bool,
    rel_high: bool,
    any_feature: bool,
    compat: bool,
    perf: bool,
    dx: bool,
    docs: bool,
    auto: bool,
    any_file: bool,
) -> (r: Vec<DimensionHit>)
    ensures
        dim_views(r@) == dims_from(
            ui,
            cap,
            sec,
            rel_high,
            any_feature,
            compat,
            perf,
            dx,
            docs,
            auto,
            any_file,
        ),
{
    let mut out: Vec<DimensionHit> = Vec::new();
    assert(dim_views(out@) =~= Seq::<DimensionView>::empty());
    push_dim_if(&mut out, ui, "ux", "高", "界面或交互路径被改动，需目视回归主流程");
    push_dim_if(&mut out, cap, "capability", "高", "核心 Agent/模型/工具或桌面工作流能力可能变化");
    push_dim_if(&mut out, sec, "security", "高", "认证或权限相关，需重点验证密钥与审批");
    push_dim_if(
        &mut out,
        rel_high,
        "reliability",
        "高",
        "会话主链路或项目切换会重启 bridge，关注重连与取消",
    );
    push_dim_if(
        &mut out,
        !rel_high && any_feature,
        "reliability",
        "中",
        "建议冒烟：启动 → 发一条消息 → 看工具是否正常",
    );
    push_dim_if(&mut out, compat, "compat", "高", "不同供应商协议/鉴权可能不兼容，建议多模型抽测");
    push_dim_if(&mut out, perf, "perf", "中", "提交提到性能/超时相关");
    push_dim_if(&mut out, dx, "dx", "中", "构建脚本或监控变更，影响开发与发布效率");
    push_dim_if(&mut out, docs, "docs", "低", "文档更新，利于上手但不改运行时行为");
    push_dim_if(&mut out, auto, "dx", "中", "出现自动发现模块，建议补全 catalog/features.toml");
    let ghost mid = dim_views(out@);
    assert(mid =~= opt_dim(ui, dv("ux"@, "高"@, "界面或交互路径被改动，需目视回归主流程"@)) + opt_dim(
        cap,
        dv("capability"@, "高"@, "核心 Agent/模型/工具或桌面工作流能力可能变化"@),
    ) + opt_dim(sec, dv("security"@, "高"@, "认证或权限相关，需重点验证密钥与审批"@)) + (if rel_high {
        seq![dv("reliability"@, "高"@, "会话主链路或项目切换会重启 bridge，关注重连与取消"@)]
    } else if any_feature {
        seq![dv("reliability"@, "中"@, "建议冒烟：启动 → 发一条消息 → 看工具是否正常"@)]
    } else {
        Seq::empty()
    }) + opt_dim(compat, dv("compat"@, "高"@, "不同供应商协议/鉴权可能不兼容，建议多模型抽测"@))
        + opt_dim(perf, dv("perf"@, "中"@, "提交提到性能/超时相关"@)) + opt_dim(
        dx,
        dv("dx"@, "中"@, "构建脚本或监控变更，影响开发与发布效率"@),
    ) + opt_dim(docs, dv("docs"@, "低"@, "文档更新，利于上手但不改运行时行为"@)) + opt_dim(
        auto,
        dv("dx"@, "中"@, "出现自动发现模块，建议补全 catalog/features.toml"@),
    ));
    if out.len() == 0 && any_file {
        push_dim(&mut out, dim("capability", "低", "未匹配到已知功能规则，请人工确认影响面"));
        assert(dim_views(out@) =~= seq![dv("capability"@, "低"@, "未匹配到已知功能规则，请人工确认影响面"@)]);
    }
    out
}

/// The dimensions a change reaches (`dimension_hits`).
pub fn match_dimensions(subject: &str, body: &str, files: &[String], features: &Vec<FeatureHit>) -> (r:
    Vec<DimensionHit>)
    ensures
        dim_views(r@) == dimension_hits(subject@, body@, sviews(files@), hit_views(features@)),
{
    let fc = file_chars(files);
    let joined = lowercase(&join_with(&fc, "\n"));
    let t = commit_chars(subject, body);
    let text = lowercase(&t);
    let ui = hits_have_category(features, "桌面体验") || hits_have_id(features, "tui")
        || hits_have_category(features, "自动发现");
    let cap = hits_have_id(features, "tools") || hits_have_id(features, "session-loop")
        || hits_have_id(features, "multi-provider") || hits_have_id(features, "model-picker")
        || hits_have_id(features, "workspace-fs") || hits_have_id(features, "projects")
        || hits_have_id(features, "usage-analytics") || hits_have_id_prefix(features, "auto-");
    let sec = hits_have_id(features, "auth-login") || hits_have_id(features, "permissions")
        || contains_str(&joined, "auth") || contains_str(&joined, "secret");
    let rel_high = hits_have_id(features, "session-loop") || hits_have_id(features, "projects");
    let compat = hits_have_id(features, "multi-provider") || hits_have_id(features, "model-picker");
    let perf = contains_str(&text, "perf") || contains_str(&text, "性能") || contains_str(
        &text,
        "timeout",
    );
    let dx = hits_have_id(features, "build-ci") || hits_have_id(features, "monitor");
    let docs = hits_have_id(features, "docs-product");
    let auto = hits_have_id_prefix(features, "auto-");
    dims_of_flags(
        ui,
        cap,
        sec,
        rel_high,
        features.len() > 0,
        compat,
        perf,
        dx,
        docs,
        auto,
        files.len() > 0,
    )
}

/// What to check for each feature a change touches, then the smoke tests
/// its features call for.
pub open spec fn checklist_items(fs: Seq<HitView>) -> Seq<Seq<char>> {
    fs.map_values(|f: HitView| "验证「"@ + f.name + "」："@ + f.user_impact) + (if has_hit_id(fs, "chat"@)
        || has_hit_id(fs, "session-loop"@) {
        seq!["冒烟：启动桌面 → 发送一条消息 → 确认流式回复"@]
    } else {
        Seq::empty()
    }) + (if has_hit_id(fs, "desktop-shell"@) {
        seq!["冒烟：顶栏菜单/前进后退/关闭按钮清晰；侧栏入口可点；左右栏可开关"@]
    } else {
        Seq::empty()
    }) + (if has_hit_id(fs, "projects"@) {
        seq!["冒烟：打开项目选文件夹 → Agent 重连到新 cwd → 侧栏项目高亮"@]
    } else {
        Seq::empty()
    }) + (if has_hit_id(fs, "usage-analytics"@) {
        seq!["冒烟：打开使用统计 → 统计图/模型/轮次三栏与 Y 轴标签可读"@]
    } else {
        Seq::empty()
    }) + (if has_hit_id(fs, "task-history"@) {
        seq!["冒烟：新建任务清空时间线；点击历史任务只读回看"@]
    } else {
        Seq::empty()
    }) + (if has_hit_id(fs, "model-picker"@) || has_hit_id(fs, "multi-provider"@) {
        seq!["冒烟：切换至少 2 个模型并各发一条短消息"@]
    } else {
        Seq::empty()
    }) + (if has_hit_id(fs, "auth-login"@) {
        seq!["冒烟：无凭证提示登录 / 有 Key 可直连"@]
    } else {
        Seq::empty()
    }) + (if has_hit_id(fs, "tools"@) || has_hit_id(fs, "permissions"@) {
        seq!["冒烟：触发一次读文件或列目录工具"@]
    } else {
        Seq::empty()
    }) + (if has_id_prefix(fs, "auto-"@) {
        seq!["目录：将自动发现模块并入 catalog/features.toml 对应功能，避免长期依赖 auto-*"@]
    } else {
        Seq::empty()
    })
}

fn push_line_if(out: &mut Vec<String>, b: bool, line: &str)
    ensures
        sviews(final(out)@) == sviews(old(out)@) + (if b {
            seq![line@]
        } else {
            Seq::empty()
        }),
{
    if b {
        crate::text::push_owned(out, line);
    }
    assert(sviews(out@) =~= sviews(old(out)@) + (if b {
        seq![line@]
    } else {
        Seq::empty()
    }));
}

#[verifier::rlimit(60)]
#[verifier::spinoff_prover]
fn checklist_lines(features: &Vec<FeatureHit>) -> (r: Vec<String>)
    ensures
        sviews(r@) == checklist_items(hit_views(features@)),
{
    let ghost fs = hit_views(features@);
    let ghost first = fs.map_values(|f: HitView| "验证「"@ + f.name + "」："@ + f.user_impact);
    let mut out: Vec<String> = Vec::new();
    let mut i: usize = 0;
    while i < features.len()
        invariant
            i <= features.len(),
            fs == hit_views(features@),
            first == fs.map_values(|f: HitView| "验证「"@ + f.name + "」："@ + f.user_impact),
            sviews(out@) == first.take(i as int),
        decreases features.len() - i,
    {
        assert(fs[i as int] == features@[i as int]@);
        let mut l = chars_of("验证「");
        push_str(&mut l, features[i].name.as_str());
        push_str(&mut l, "」：");
        push_str(&mut l, features[i].user_impact.as_str());
        assert(l@ =~= first[i as int]);
        crate::text::push_string(&mut out, &l);
        assert(sviews(out@) =~= first.take(i + 1));
        i = i + 1;
    }
    assert(first.take(features.len() as int) =~= first);
    let chat = hits_have_id(features, "chat") || hits_have_id(features, "session-loop");
    push_line_if(&mut out, chat, "冒烟：启动桌面 → 发送一条消息 → 确认流式回复");
    let shell = hits_have_id(features, "desktop-shell");
    push_line_if(&mut out, shell, "冒烟：顶栏菜单/前进后退/关闭按钮清晰；侧栏入口可点；左右栏可开关");
    let projects = hits_have_id(features, "projects");
    push_line_if(&mut out, projects, "冒烟：打开项目选文件夹 → Agent 重连到新 cwd → 侧栏项目高亮");
    let usage = hits_have_id(features, "usage-analytics");
    push_line_if(&mut out, usage, "冒烟：打开使用统计 → 统计图/模型/轮次三栏与 Y 轴标签可读");
    let history = hits_have_id(features, "task-history");
    push_line_if(&mut out, history, "冒烟：新建任务清空时间线；点击历史任务只读回看");
    let models = hits_have_id(features, "model-picker") || hits_have_id(features, "multi-provider");
    push_line_if(&mut out, models, "冒烟：切换至少 2 个模型并各发一条短消息");
    let auth = hits_have_id(features, "auth-login");
    push_line_if(&mut out, auth, "冒烟：无凭证提示登录 / 有 Key 可直连");
    let tools = hits_have_id(features, "tools") || hits_have_id(features, "permissions");
    push_line_if(&mut out, tools, "冒烟：触发一次读文件或列目录工具");
    let auto = hits_have_id_prefix(features, "auto-");
    push_line_if(
        &mut out,
        auto,
        "目录：将自动发现模块并入 catalog/features.toml 对应功能，避免长期依赖 auto-*",
    );
    assert(sviews(out@) =~= checklist_items(fs));
    out
}

/// The checklist line that names feature `f`.
pub open spec fn check_line(f: HitView) -> Seq<char> {
    "验证「"@ + f.name + "」："@ + f.user_impact
}

#[verifier::spinoff_prover]
#[verifier::rlimit(60)]
proof fn lemma_checklist_item(fs: Seq<HitView>, k: int)
    requires
        0 <= k < fs.len(),
    ensures
        checklist_items(fs).contains(check_line(fs[k])),
{
    let head = fs.map_values(|f: HitView| "验证「"@ + f.name + "」："@ + f.user_impact);
    let items = checklist_items(fs);
    assert(head[k] == check_line(fs[k]));
    assert(items.len() >= head.len());
    assert(items[k] == head[k]);
}

/// Every feature a change touches has its `验证「name」：impact` line
/// (`check_line`) in a checklist that lists `checklist_items` sorted and
/// without repeats.
pub proof fn lemma_checklist_names_each_feature(fs: Seq<HitView>, checklist: Seq<Seq<char>>)
    requires
        sorted_unique_of(checklist, checklist_items(fs)),
    ensures
        forall|k: int| 0 <= k < fs.len() ==> checklist.contains(check_line(#[trigger] fs[k])),
{
    assert forall|k: int| 0 <= k < fs.len() implies checklist.contains(check_line(#[trigger] fs[k])) by {
        lemma_checklist_item(fs, k);
    }
}

/// The features, dimensions and checklist of a change: the checklist is
/// `checklist_items` sorted with duplicates removed.
pub fn analyze_features_full(
    catalog: &CatalogSnapshot,
    subject: &str,
    body: &str,
    files: &[String],
) -> (r: (Vec<FeatureHit>, Vec<DimensionHit>, Vec<String>))
    ensures
        hit_views(r.0@) == feature_hits(catalog@.rules, subject@, body@, sviews(files@)),
        dim_views(r.1@) == dimension_hits(subject@, body@, sviews(files@), hit_views(r.0@)),
        sorted_unique_of(sviews(r.2@), checklist_items(hit_views(r.0@))),
{
    let features = match_features(catalog, subject, body, files);
    let dimensions = match_dimensions(subject, body, files, &features);
    let lines = checklist_lines(&features);
    let checklist = sort_dedup(lines);
    (features, dimensions, checklist)
}

pub struct ActivityView {
    pub feature: FeatureDefView,
    pub commit_count: u64,
    pub additions: u64,
    pub deletions: u64,
    pub last_sha: Seq<char>,
    pub last_subject: Seq<char>,
    pub last_date: Seq<char>,
    pub heat: Seq<char>,
}

impl View for FeatureActivity {
    type V = ActivityView;

    open spec fn view(&self) -> ActivityView {
        ActivityView {
            feature: self.feature@,
            commit_count: self.commit_count,
            additions: self.additions,
            deletions: self.deletions,
            last_sha: self.last_sha@,
            last_subject: self.last_subject@,
            last_date: self.last_date@,
            heat: self.heat@,
        }
    }
}

pub open spec fn activity_views(v: Seq<FeatureActivity>) -> Seq<ActivityView> {
    v.map_values(|a: FeatureActivity| a@)
}

pub struct OverviewView {
    pub catalog: Seq<FeatureDefView>,
    pub activity: Seq<ActivityView>,
    pub dimensions: Seq<Seq<char>>,
}

impl View for FeaturesOverview {
    type V = OverviewView;

    open spec fn view(&self) -> OverviewView {
        OverviewView {
            catalog: def_views(self.catalog@),
            activity: activity_views(self.activity@),
            dimensions: sviews(self.dimensions@),
        }
    }
}

/// The feature hits of the changes, change after change.
pub open spec fn change_hits(cs: Seq<EntryView>) -> Seq<HitView>
    decreases cs.len(),
{
    if cs.len() == 0 {
        Seq::empty()
    } else {
        change_hits(cs.drop_last()) + cs.last().impact.features
    }
}

pub open spec fn has_def_id(ds: Seq<FeatureDefView>, id: Seq<char>) -> bool {
    exists|i: int| 0 <= i < ds.len() && (#[trigger] ds[i]).id == id
}

/// The catalog entry a hit stands for when the catalog lacks it.
pub open spec fn def_of_hit(h: HitView) -> FeatureDefView {
    FeatureDefView {
        id: h.id,
        name: h.name,
        category: h.category,
        description: h.user_impact,
        user_facing: true,
    }
}

/// The entries of the hits whose ids are not yet listed, added in order.
pub open spec fn add_defs(ds: Seq<FeatureDefView>, hs: Seq<HitView>) -> Seq<FeatureDefView>
    decreases hs.len(),
{
    if hs.len() == 0 {
        ds
    } else {
        let d = add_defs(ds, hs.drop_last());
        if has_def_id(d, hs.last().id) {
            d
        } else {
            d.push(def_of_hit(hs.last()))
        }
    }
}

/// Change `c` touches feature `id`.
pub open spec fn touches(c: EntryView, id: Seq<char>) -> bool {
    has_hit_id(c.impact.features, id)
}

pub open spec fn touch_count(cs: Seq<EntryView>, id: Seq<char>) -> nat
    decreases cs.len(),
{
    if cs.len() == 0 {
        0
    } else {
        touch_count(cs.drop_last(), id) + if touches(cs.last(), id) {
            1nat
        } else {
            0nat
        }
    }
}

pub open spec fn touch_additions(cs: Seq<EntryView>, id: Seq<char>) -> nat
    decreases cs.len(),
{
    if cs.len() == 0 {
        0
    } else {
        touch_additions(cs.drop_last(), id) + if touches(cs.last(), id) {
            cs.last().additions as nat
        } else {
            0nat
        }
    }
}

pub open spec fn touch_deletions(cs: Seq<EntryView>, id: Seq<char>) -> nat
    decreases cs.len(),
{
    if cs.len() == 0 {
        0
    } else {
        touch_deletions(cs.drop_last(), id) + if touches(cs.last(), id) {
            cs.last().deletions as nat
        } else {
            0nat
        }
    }
}

/// Short id, subject and date of the latest change that touches `id`: the
/// first touching change in the list, unless its short id is empty, in
/// which case the next one's replace them.
pub open spec fn latest_touch(cs: Seq<EntryView>, id: Seq<char>) -> (Seq<char>, Seq<char>, Seq<char>)
    decreases cs.len(),
{
    if cs.len() == 0 {
        (Seq::empty(), Seq::empty(), Seq::empty())
    } else {
        let p = latest_touch(cs.drop_last(), id);
        let c = cs.last();
        if touches(c, id) && p.0.len() == 0 {
            (c.short_sha, c.subject, c.date)
        } else {
            p
        }
    }
}

pub open spec fn heat_of(n: nat) -> Seq<char> {
    if n >= 3 {
        "hot"@
    } else if n >= 1 {
        "warm"@
    } else {
        "idle"@
    }
}

pub open spec fn activity_of(f: FeatureDefView, cs: Seq<EntryView>) -> ActivityView {
    let l = latest_touch(cs, f.id);
    ActivityView {
        feature: f,
        commit_count: touch_count(cs, f.id) as u64,
        additions: touch_additions(cs, f.id) as u64,
        deletions: touch_deletions(cs, f.id) as u64,
        last_sha: l.0,
        last_subject: l.1,
        last_date: l.2,
        heat: heat_of(touch_count(cs, f.id)),
    }
}

/// `x` goes before `e`: more commits, or as many and a name that comes
/// first.
pub open spec fn busier(x: ActivityView, e: ActivityView) -> bool {
    x.commit_count > e.commit_count || (x.commit_count == e.commit_count && seq_lt(
        x.feature.name,
        e.feature.name,
    ))
}

/// `x` placed before the first entry it is busier than.
pub open spec fn insert_busier(sorted: Seq<ActivityView>, x: ActivityView) -> Seq<ActivityView>
    decreases sorted.len(),
{
    if sorted.len() == 0 {
        seq![x]
    } else if busier(x, sorted[0]) {
        seq![x] + sorted
    } else {
        seq![sorted[0]] + insert_busier(sorted.drop_first(), x)
    }
}

/// The stable sort of the activity, busiest first.
pub open spec fn by_activity(s: Seq<ActivityView>) -> Seq<ActivityView>
    decreases s.len(),
{
    if s.len() == 0 {
        s
    } else {
        insert_busier(by_activity(s.drop_last()), s.last())
    }
}

proof fn lemma_insert_busier_at(sorted: Seq<ActivityView>, x: ActivityView, j: int)
    requires
        0 <= j <= sorted.len(),
        forall|k: int| 0 <= k < j ==> !busier(x, #[trigger] sorted[k]),
        j == sorted.len() || busier(x, sorted[j]),
    ensures
        insert_busier(sorted, x) == sorted.take(j) + seq![x] + sorted.skip(j),
    decreases j,
{
    if sorted.len() == 0 {
        assert(sorted.take(j) + seq![x] + sorted.skip(j) =~= seq![x]);
    } else if j == 0 {
        assert(sorted.take(j) + seq![x] + sorted.skip(j) =~= seq![x] + sorted);
    } else {
        let rest = sorted.drop_first();
        assert forall|k: int| 0 <= k < j - 1 implies !busier(x, #[trigger] rest[k]) by {
            assert(rest[k] == sorted[k + 1]);
        }
        assert(j - 1 == rest.len() || rest[j - 1] == sorted[j]);
        lemma_insert_busier_at(rest, x, j - 1);
        assert(sorted.take(j) + seq![x] + sorted.skip(j) =~= seq![sorted[0]] + (rest.take(j - 1)
            + seq![x] + rest.skip(j - 1)));
    }
}

/// The dimension labels, in table order.
pub open spec fn dimension_labels() -> Seq<Seq<char>> {
    seq![
        "用户体验"@,
        "功能能力"@,
        "安全合规"@,
        "稳定性"@,
        "兼容性"@,
        "性能"@,
        "开发体验"@,
        "文档完备"@,
    ]
}

/// The features page of the catalog and the recent changes.
pub open spec fn overview_of(rules: Seq<FeatureRuleView>, cs: Seq<EntryView>) -> OverviewView {
    let defs = add_defs(rules.map_values(|f: FeatureRuleView| def_of(f)), change_hits(cs));
    OverviewView {
        catalog: defs,
        activity: by_activity(defs.map_values(|f: FeatureDefView| activity_of(f, cs))),
        dimensions: dimension_labels(),
    }
}

/// No entry goes before one listed ahead of it (`busier`).
pub open spec fn busiest_first(s: Seq<ActivityView>) -> bool {
    forall|i: int, j: int| 0 <= i < j < s.len() ==> !busier(#[trigger] s[j], #[trigger] s[i])
}

proof fn lemma_busier_order(a: ActivityView, b: ActivityView, c: ActivityView)
    ensures
        busier(a, b) ==> !busier(b, a),
        busier(a, b) && busier(b, c) ==> busier(a, c),
{
    lemma_seq_lt_total(a.feature.name, b.feature.name);
    if seq_lt(a.feature.name, b.feature.name) && seq_lt(b.feature.name, c.feature.name) {
        lemma_seq_lt_transitive(a.feature.name, b.feature.name, c.feature.name);
    }
}

proof fn lemma_insert_busier(sorted: Seq<ActivityView>, x: ActivityView)
    requires
        busiest_first(sorted),
    ensures
        busiest_first(insert_busier(sorted, x)),
        insert_busier(sorted, x).len() == sorted.len() + 1,
        forall|k: int|
            0 <= k < insert_busier(sorted, x).len() ==> (#[trigger] insert_busier(sorted, x)[k] == x
                || sorted.contains(insert_busier(sorted, x)[k])),
    decreases sorted.len(),
{
    let r = insert_busier(sorted, x);
    if sorted.len() == 0 {
    } else if busier(x, sorted[0]) {
        assert forall|i: int, j: int| 0 <= i < j < r.len() implies !busier(
            #[trigger] r[j],
            #[trigger] r[i],
        ) by {
            if i == 0 {
                lemma_busier_order(x, sorted[0], x);
                lemma_busier_order(r[j], x, sorted[0]);
                if j > 1 {
                    assert(r[j] == sorted[j - 1]);
                    assert(!busier(sorted[j - 1], sorted[0]));
                }
            } else {
                assert(r[j] == sorted[j - 1] && r[i] == sorted[i - 1]);
            }
        }
        assert forall|k: int| 0 <= k < r.len() implies (#[trigger] r[k] == x || sorted.contains(r[k])) by {
            if k > 0 {
                assert(r[k] == sorted[k - 1]);
            }
        }
    } else {
        let rest = sorted.drop_first();
        assert(busiest_first(rest)) by {
            assert forall|i: int, j: int| 0 <= i < j < rest.len() implies !busier(
                #[trigger] rest[j],
                #[trigger] rest[i],
            ) by {
                assert(rest[j] == sorted[j + 1] && rest[i] == sorted[i + 1]);
            }
        }
        lemma_insert_busier(rest, x);
        let t = insert_busier(rest, x);
        assert(r == seq![sorted[0]] + t);
        assert forall|i: int, j: int| 0 <= i < j < r.len() implies !busier(
            #[trigger] r[j],
            #[trigger] r[i],
        ) by {
            if i == 0 {
                assert(r[j] == t[j - 1]);
                if t[j - 1] != x {
                    assert(rest.contains(t[j - 1]));
                    let m = choose|m: int| 0 <= m < rest.len() && rest[m] == t[j - 1];
                    assert(sorted[m + 1] == rest[m]);
                }
            } else {
                assert(r[j] == t[j - 1] && r[i] == t[i - 1]);
            }
        }
        assert forall|k: int| 0 <= k < r.len() implies (#[trigger] r[k] == x || sorted.contains(r[k])) by {
            if k == 0 {
                assert(sorted[0] == r[0]);
            } else {
                assert(r[k] == t[k - 1]);
                if t[k - 1] != x {
                    let m = choose|m: int| 0 <= m < rest.len() && rest[m] == t[k - 1];
                    assert(sorted[m + 1] == rest[m]);
                }
            }
        }
    }
}

proof fn lemma_by_activity(s: Seq<ActivityView>)
    ensures
        busiest_first(by_activity(s)),
        by_activity(s).len() == s.len(),
    decreases s.len(),
{
    if s.len() > 0 {
        lemma_by_activity(s.drop_last());
        lemma_insert_busier(by_activity(s.drop_last()), s.last());
    }
}

/// The features page lists one activity entry for each feature of its
/// catalog, busiest first: more commits first, and among as many the name
/// that sorts first; a feature is hot with three commits or more, warm with
/// one or two, idle with none (the changes being a list that a `Vec` holds).
pub proof fn lemma_overview_structure(rules: Seq<FeatureRuleView>, cs: Seq<EntryView>)
    requires
        cs.len() <= usize::MAX,
    ensures
        overview_of(rules, cs).activity.len() == overview_of(rules, cs).catalog.len(),
        busiest_first(overview_of(rules, cs).activity),
        forall|k: int|
            0 <= k < overview_of(rules, cs).activity.len() ==> {
                let a = #[trigger] overview_of(rules, cs).activity[k];
                a.heat == heat_of(a.commit_count as nat)
            },
{
    let defs = add_defs(rules.map_values(|f: FeatureRuleView| def_of(f)), change_hits(cs));
    let acts = defs.map_values(|f: FeatureDefView| activity_of(f, cs));
    lemma_by_activity(acts);
    lemma_by_activity_members(acts);
    assert forall|k: int| 0 <= k < by_activity(acts).len() implies {
        let a = #[trigger] by_activity(acts)[k];
        a.heat == heat_of(a.commit_count as nat)
    } by {
        let a = by_activity(acts)[k];
        assert(acts.contains(a));
        let m = choose|m: int| 0 <= m < acts.len() && acts[m] == a;
        assert(acts[m] == activity_of(defs[m], cs));
        lemma_touch_bounds(cs, defs[m].id);
    }
}

proof fn lemma_by_activity_members(s: Seq<ActivityView>)
    ensures
        forall|k: int| 0 <= k < by_activity(s).len() ==> s.contains(#[trigger] by_activity(s)[k]),
    decreases s.len(),
{
    if s.len() > 0 {
        let p = s.drop_last();
        lemma_by_activity_members(p);
        lemma_by_activity(p);
        lemma_insert_busier(by_activity(p), s.last());
        assert forall|k: int| 0 <= k < by_activity(s).len() implies s.contains(
            #[trigger] by_activity(s)[k],
        ) by {
            let y = by_activity(s)[k];
            assert(insert_busier(by_activity(p), s.last())[k] == y);
            if y == s.last() {
                assert(s[s.len() - 1] == y);
            } else {
                assert(by_activity(p).contains(y));
                let j = choose|j: int| 0 <= j < by_activity(p).len() && by_activity(p)[j] == y;
                assert(p.contains(y));
                let m = choose|m: int| 0 <= m < p.len() && p[m] == y;
                assert(s[m] == y);
            }
        }
    }
}

pub open spec fn total_additions(cs: Seq<EntryView>) -> nat
    decreases cs.len(),
{
    if cs.len() == 0 {
        0
    } else {
        total_additions(cs.drop_last()) + cs.last().additions as nat
    }
}

pub open spec fn total_deletions(cs: Seq<EntryView>) -> nat
    decreases cs.len(),
{
    if cs.len() == 0 {
        0
    } else {
        total_deletions(cs.drop_last()) + cs.last().deletions as nat
    }
}

proof fn lemma_touch_bounds(cs: Seq<EntryView>, id: Seq<char>)
    ensures
        touch_count(cs, id) <= cs.len(),
        touch_additions(cs, id) <= total_additions(cs),
        touch_deletions(cs, id) <= total_deletions(cs),
    decreases cs.len(),
{
    if cs.len() > 0 {
        lemma_touch_bounds(cs.drop_last(), id);
    }
}

fn copy_def(d: &FeatureDef) -> (r: FeatureDef)
    ensures
        r@ == d@,
{
    FeatureDef {
        id: d.id.clone(),
        name: d.name.clone(),
        category: d.category.clone(),
        description: d.description.clone(),
        user_facing: d.user_facing,
    }
}

fn defs_have_id(ds: &Vec<FeatureDef>, id: &str) -> (r: bool)
    ensures
        r == has_def_id(def_views(ds@), id@),
{
    let idc = chars_of(id);
    let mut i: usize = 0;
    while i < ds.len()
        invariant
            i <= ds.len(),
            idc@ == id@,
            forall|k: int| 0 <= k < i ==> (#[trigger] def_views(ds@)[k]).id != id@,
        decreases ds.len() - i,
    {
        assert(def_views(ds@)[i as int] == ds@[i as int]@);
        if crate::text::chars_eq(&chars_of(ds[i].id.as_str()), &idc) {
            return true;
        }
        i = i + 1;
    }
    false
}

fn entry_touches(c: &ChangeEntry, id: &str) -> (r: bool)
    ensures
        r == touches(c@, id@),
{
    hits_have_id(&c.impact.features, id)
}

fn overview_defs(catalog: &CatalogSnapshot, changes: &[ChangeEntry]) -> (r: Vec<FeatureDef>)
    ensures
        def_views(r@) == add_defs(
            catalog@.rules.map_values(|f: FeatureRuleView| def_of(f)),
            change_hits(entry_views(changes@)),
        ),
{
    let mut defs = catalog_defs(catalog);
    let ghost d0 = def_views(defs@);
    let ghost cs = entry_views(changes@);
    let mut i: usize = 0;
    assert(cs.take(0) =~= Seq::<EntryView>::empty());
    assert(change_hits(cs.take(0)) =~= Seq::<HitView>::empty());
    while i < changes.len()
        invariant
            i <= changes.len(),
            cs == entry_views(changes@),
            def_views(defs@) == add_defs(d0, change_hits(cs.take(i as int))),
        decreases changes.len() - i,
    {
        assert(cs.take(i + 1).drop_last() =~= cs.take(i as int));
        assert(cs[i as int] == changes@[i as int]@);
        let c = &changes[i];
        let ghost hs = change_hits(cs.take(i as int));
        let ghost fs = hit_views(c.impact.features@);
        let mut j: usize = 0;
        assert(hs + fs.take(0) =~= hs);
        while j < c.impact.features.len()
            invariant
                j <= c.impact.features.len(),
                fs == hit_views(c.impact.features@),
                def_views(defs@) == add_defs(d0, hs + fs.take(j as int)),
            decreases c.impact.features.len() - j,
        {
            let h = &c.impact.features[j];
            assert(fs[j as int] == h@);
            assert((hs + fs.take(j + 1)).drop_last() =~= hs + fs.take(j as int));
            assert((hs + fs.take(j + 1)).last() == h@);
            if !defs_have_id(&defs, h.id.as_str()) {
                let d = FeatureDef {
                    id: h.id.clone(),
                    name: h.name.clone(),
                    category: h.category.clone(),
                    description: h.user_impact.clone(),
                    user_facing: true,
                };
                let ghost before = def_views(defs@);
                defs.push(d);
                assert(def_views(defs@) =~= before.push(d@));
            }
            j = j + 1;
        }
        assert(fs.take(c.impact.features.len() as int) =~= fs);
        assert(change_hits(cs.take(i + 1)) =~= hs + fs);
        i = i + 1;
    }
    assert(cs.take(changes.len() as int) =~= cs);
    defs
}

fn activity_for(f: &FeatureDef, changes: &[ChangeEntry]) -> (r: FeatureActivity)
    requires
        total_additions(entry_views(changes@)) <= u64::MAX,
        total_deletions(entry_views(changes@)) <= u64::MAX,
    ensures
        r@ == activity_of(f@, entry_views(changes@)),
{
    let ghost cs = entry_views(changes@);
    let mut count: u64 = 0;
    let mut additions: u64 = 0;
    let mut deletions: u64 = 0;
    let mut last_sha = String::new();
    let mut last_subject = String::new();
    let mut last_date = String::new();
    let mut i: usize = 0;
    assert(cs.take(0) =~= Seq::<EntryView>::empty());
    proof {
        lemma_touch_bounds(cs, f@.id);
    }
    while i < changes.len()
        invariant
            i <= changes.len(),
            cs == entry_views(changes@),
            total_additions(cs) <= u64::MAX,
            total_deletions(cs) <= u64::MAX,
            count == touch_count(cs.take(i as int), f@.id),
            additions == touch_additions(cs.take(i as int), f@.id),
            deletions == touch_deletions(cs.take(i as int), f@.id),
            (last_sha@, last_subject@, last_date@) == latest_touch(cs.take(i as int), f@.id),
        decreases changes.len() - i,
    {
        assert(cs.take(i + 1).drop_last() =~= cs.take(i as int));
        assert(cs[i as int] == changes@[i as int]@);
        proof {
            lemma_touch_bounds(cs.take(i + 1), f@.id);
            lemma_total_prefix(cs, i + 1);
        }
        let c = &changes[i];
        if entry_touches(c, f.id.as_str()) {
            count = count + 1;
            additions = additions + c.additions as u64;
            deletions = deletions + c.deletions as u64;
            if last_sha.as_str().is_empty() {
                last_sha = c.short_sha.clone();
                last_subject = c.subject.clone();
                last_date = c.date.clone();
            }
        }
        i = i + 1;
    }
    assert(cs.take(changes.len() as int) =~= cs);
    let heat: &str = if count >= 3 {
        "hot"
    } else if count >= 1 {
        "warm"
    } else {
        "idle"
    };
    FeatureActivity {
        feature: copy_def(f),
        commit_count: count,
        additions,
        deletions,
        last_sha,
        last_subject,
        last_date,
        heat: heat.to_owned(),
    }
}

proof fn lemma_total_prefix(cs: Seq<EntryView>, k: int)
    requires
        0 <= k <= cs.len(),
    ensures
        total_additions(cs.take(k)) <= total_additions(cs),
        total_deletions(cs.take(k)) <= total_deletions(cs),
    decreases cs.len(),
{
    if k < cs.len() {
        assert(cs.drop_last().take(k) =~= cs.take(k));
        lemma_total_prefix(cs.drop_last(), k);
    } else {
        assert(cs.take(k) =~= cs);
    }
}

fn sort_activity(v: Vec<FeatureActivity>) -> (r: Vec<FeatureActivity>)
    ensures
        activity_views(r@) == by_activity(activity_views(v@)),
{
    let ghost orig = activity_views(v@);
    let mut rest = v;
    let n = rest.len();
    assert(orig.len() == n);
    let mut out: Vec<FeatureActivity> = Vec::new();
    let mut k: usize = 0;
    assert(orig.take(0) =~= Seq::<ActivityView>::empty());
    assert(activity_views(out@) =~= Seq::<ActivityView>::empty());
    while rest.len() > 0
        invariant
            k + rest@.len() == orig.len(),
            orig.len() <= usize::MAX,
            activity_views(rest@) == orig.skip(k as int),
            activity_views(out@) == by_activity(orig.take(k as int)),
        decreases rest@.len(),
    {
        let ghost old_rest = rest@;
        assert(activity_views(old_rest)[0] == old_rest[0]@);
        let x = rest.remove(0);
        assert(x@ == orig[k as int]);
        assert(rest@ == old_rest.remove(0));
        assert forall|q: int| 0 <= q < rest@.len() implies #[trigger] activity_views(rest@)[q]
            == orig.skip(k + 1)[q] by {
            assert(rest@[q] == old_rest[q + 1]);
            assert(activity_views(old_rest)[q + 1] == orig.skip(k as int)[q + 1]);
        }
        assert(activity_views(rest@) =~= orig.skip(k + 1));
        let xn = chars_of(x.feature.name.as_str());
        let mut j: usize = 0;
        while j < out.len() && !(x.commit_count > out[j].commit_count || (x.commit_count
            == out[j].commit_count && chars_lt(&xn, &chars_of(out[j].feature.name.as_str()))))
            invariant
                j <= out@.len(),
                xn@ == x@.feature.name,
                forall|q: int| 0 <= q < j ==> !busier(x@, #[trigger] activity_views(out@)[q]),
            decreases out@.len() - j,
        {
            assert(activity_views(out@)[j as int] == out@[j as int]@);
            j = j + 1;
        }
        proof {
            if j < out@.len() {
                assert(activity_views(out@)[j as int] == out@[j as int]@);
            }
        }
        let ghost before = activity_views(out@);
        proof {
            assert(orig.take(k + 1).drop_last() =~= orig.take(k as int));
            assert(orig.take(k + 1).last() == x@);
            lemma_insert_busier_at(before, x@, j as int);
        }
        out.insert(j, x);
        assert(activity_views(out@) =~= before.take(j as int) + seq![x@] + before.skip(j as int));
        k = k + 1;
    }
    assert(orig.take(k as int) =~= orig);
    out
}

/// The features page (`overview_of`): the curated catalog plus the
/// features the changes found outside it, their activity busiest first,
/// and the dimension labels. The totals of the changes must fit in `u64`.
pub fn features_overview(catalog: &CatalogSnapshot, changes: &[ChangeEntry]) -> (r: FeaturesOverview)
    requires
        total_additions(entry_views(changes@)) <= u64::MAX,
        total_deletions(entry_views(changes@)) <= u64::MAX,
    ensures
        r@ == overview_of(catalog@.rules, entry_views(changes@)),
{
    let defs = overview_defs(catalog, changes);
    let ghost dv = def_views(defs@);
    let ghost want = dv.map_values(|f: FeatureDefView| activity_of(f, entry_views(changes@)));
    let mut activity: Vec<FeatureActivity> = Vec::new();
    let mut i: usize = 0;
    while i < defs.len()
        invariant
            i <= defs.len(),
            dv == def_views(defs@),
            want == dv.map_values(|f: FeatureDefView| activity_of(f, entry_views(changes@))),
            total_additions(entry_views(changes@)) <= u64::MAX,
            total_deletions(entry_views(changes@)) <= u64::MAX,
            activity_views(activity@) == want.take(i as int),
        decreases defs.len() - i,
    {
        assert(dv[i as int] == defs@[i as int]@);
        let a = activity_for(&defs[i], changes);
        let ghost before = activity_views(activity@);
        activity.push(a);
        assert(activity_views(activity@) =~= before.push(a@));
        assert(activity_views(activity@) =~= want.take(i + 1));
        i = i + 1;
    }
    assert(want.take(defs.len() as int) =~= want);
    let activity = sort_activity(activity);
    let dims = vec![
        "用户体验".to_owned(),
        "功能能力".to_owned(),
        "安全合规".to_owned(),
        "稳定性".to_owned(),
        "兼容性".to_owned(),
        "性能".to_owned(),
        "开发体验".to_owned(),
        "文档完备".to_owned(),
    ];
    assert(sviews(dims@) =~= dimension_labels());
    FeaturesOverview { catalog: defs, activity, dimensions: dims }
}

} // verus!
