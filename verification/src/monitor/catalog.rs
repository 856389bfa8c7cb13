//! The feature catalog as loaded from `features.toml` and the module scan,
//! and the cache that decides when to reload it.

use vstd::prelude::*;
use crate::clock::now_unix;
use crate::monitor::features::{FeatureRule, FeatureRuleView, copy_rule, rule_views};
use crate::text::{
    ascii_lower_seq, ascii_lowercase, chars_lt, chars_of, contains, eq_str, has_sub,
    seq_lt, starts_with, };

verus! {

/// A source file found by the module scan.
#[derive(Debug, Clone, Default)]
pub struct DiscoveredFile {
    pub path: String,
    pub crate_name: String,
    pub stem: String,
}

pub struct DiscoveredView {
    pub path: Seq<char>,
    pub crate_name: Seq<char>,
    pub stem: Seq<char>,
}

impl View for DiscoveredFile {
    type V = DiscoveredView;

    open spec fn view(&self) -> DiscoveredView {
        DiscoveredView { path: self.path@, crate_name: self.crate_name@, stem: self.stem@ }
    }
}

pub open spec fn discovered_views(v: Seq<DiscoveredFile>) -> Seq<DiscoveredView> {
    v.map_values(|d: DiscoveredFile| d@)
}

/// The curated rules and the scanned modules, as of `loaded_at` (seconds
/// since the Unix epoch).
#[derive(Debug, Clone)]
pub struct CatalogSnapshot {
    pub rules: Vec<FeatureRule>,
    pub discovered: Vec<DiscoveredFile>,
    pub desktop_module_count: usize,
    pub loaded_at: u64,
}

pub struct SnapshotView {
    pub rules: Seq<FeatureRuleView>,
    pub discovered: Seq<DiscoveredView>,
    pub desktop_module_count: nat,
    pub loaded_at: u64,
}

impl View for CatalogSnapshot {
    type V = SnapshotView;

    open spec fn view(&self) -> SnapshotView {
        SnapshotView {
            rules: rule_views(self.rules@),
            discovered: discovered_views(self.discovered@),
            desktop_module_count: self.desktop_module_count as nat,
            loaded_at: self.loaded_at,
        }
    }
}

/// Rule `f` covers `path`: the path starts with one of its path prefixes,
/// or holds one of its module names, ignoring ASCII case.
pub open spec fn covers(f: FeatureRuleView, path: Seq<char>) -> bool {
    ||| exists|i: int| 0 <= i < f.paths.len() && starts_with(path, #[trigger] f.paths[i])
    ||| exists|i: int|
        0 <= i < f.names.len() && has_sub(ascii_lower_seq(path), ascii_lower_seq(#[trigger] f.names[i]))
}

/// Some curated rule covers `path`.
pub open spec fn covered_by(rules: Seq<FeatureRuleView>, path: Seq<char>) -> bool {
    exists|i: int| 0 <= i < rules.len() && covers(#[trigger] rules[i], path)
}

/// Number of the modules that belong to the desktop crate.
pub open spec fn desktop_count(d: Seq<DiscoveredView>) -> nat
    decreases d.len(),
{
    if d.len() == 0 {
        0
    } else {
        desktop_count(d.drop_last()) + if d.last().crate_name == "bony-build"@ {
            1nat
        } else {
            0nat
        }
    }
}

impl CatalogSnapshot {
    /// A catalog with no rules and no modules, stamped now.
    pub fn empty() -> (r: Self)
        ensures
            r@.rules.len() == 0,
            r@.discovered.len() == 0,
            r.desktop_module_count == 0,
    {
        let r = CatalogSnapshot {
            rules: Vec::new(),
            discovered: Vec::new(),
            desktop_module_count: 0,
            loaded_at: now_unix(),
        };
        assert(r@.rules =~= Seq::<FeatureRuleView>::empty());
        assert(r@.discovered =~= Seq::<DiscoveredView>::empty());
        r
    }

    /// Whether a curated rule covers `path`.
    pub fn path_covered_by_curated(&self, path: &str) -> (r: bool)
        ensures
            r == covered_by(self@.rules, path@),
    {
        let mut i: usize = 0;
        while i < self.rules.len()
            invariant
                i <= self.rules.len(),
                forall|k: int| 0 <= k < i ==> !covers(#[trigger] self@.rules[k], path@),
            decreases self.rules.len() - i,
        {
            assert(self@.rules[i as int] == self.rules@[i as int]@);
            if rule_covers_path(&self.rules[i], path) {
                return true;
            }
            i = i + 1;
        }
        false
    }
}

/// Whether rule `f` covers `path` (`covers`).
pub fn rule_covers_path(f: &FeatureRule, path: &str) -> (r: bool)
    ensures
        r == covers(f@, path@),
{
    let pc = chars_of(path);
    let mut i: usize = 0;
    while i < f.paths.len()
        invariant
            i <= f.paths.len(),
            pc@ == path@,
            forall|k: int| 0 <= k < i ==> !starts_with(path@, #[trigger] f@.paths[k]),
        decreases f.paths.len() - i,
    {
        assert(f@.paths[i as int] == f.paths@[i as int]@);
        if crate::text::starts_with_str(&pc, f.paths[i].as_str()) {
            return true;
        }
        i = i + 1;
    }
    let pl = ascii_lowercase(&pc);
    let mut j: usize = 0;
    while j < f.names.len()
        invariant
            j <= f.names.len(),
            pl@ == ascii_lower_seq(path@),
            forall|k: int| 0 <= k < f@.paths.len() ==> !starts_with(path@, #[trigger] f@.paths[k]),
            forall|k: int|
                0 <= k < j ==> !has_sub(ascii_lower_seq(path@), ascii_lower_seq(#[trigger] f@.names[k])),
        decreases f.names.len() - j,
    {
        assert(f@.names[j as int] == f.names@[j as int]@);
        let nl = ascii_lowercase(&chars_of(f.names[j].as_str()));
        if contains(&pl, &nl) {
            return true;
        }
        j = j + 1;
    }
    false
}

fn copy_discovered(d: &DiscoveredFile) -> (r: DiscoveredFile)
    ensures
        r@ == d@,
{
    DiscoveredFile {
        path: d.path.clone(),
        crate_name: d.crate_name.clone(),
        stem: d.stem.clone(),
    }
}

/// A copy of the snapshot.
pub fn copy_snapshot(s: &CatalogSnapshot) -> (r: CatalogSnapshot)
    ensures
        r@ == s@,
{
    let mut rules: Vec<FeatureRule> = Vec::new();
    let mut i: usize = 0;
    while i < s.rules.len()
        invariant
            i <= s.rules.len(),
            rule_views(rules@) == rule_views(s.rules@).take(i as int),
        decreases s.rules.len() - i,
    {
        let c = copy_rule(&s.rules[i]);
        let ghost before = rule_views(rules@);
        rules.push(c);
        assert(rule_views(rules@) =~= before.push(c@));
        assert(rule_views(s.rules@).take(i + 1) =~= rule_views(s.rules@).take(i as int).push(
            s.rules@[i as int]@,
        ));
        i = i + 1;
    }
    let mut discovered: Vec<DiscoveredFile> = Vec::new();
    let mut j: usize = 0;
    while j < s.discovered.len()
        invariant
            j <= s.discovered.len(),
            discovered_views(discovered@) == discovered_views(s.discovered@).take(j as int),
        decreases s.discovered.len() - j,
    {
        let c = copy_discovered(&s.discovered[j]);
        let ghost before = discovered_views(discovered@);
        discovered.push(c);
        assert(discovered_views(discovered@) =~= before.push(c@));
        assert(discovered_views(s.discovered@).take(j + 1) =~= discovered_views(s.discovered@).take(
            j as int,
        ).push(s.discovered@[j as int]@));
        j = j + 1;
    }
    assert(rule_views(s.rules@).take(s.rules.len() as int) =~= rule_views(s.rules@));
    assert(discovered_views(s.discovered@).take(s.discovered.len() as int) =~= discovered_views(
        s.discovered@,
    ));
    CatalogSnapshot {
        rules,
        discovered,
        desktop_module_count: s.desktop_module_count,
        loaded_at: s.loaded_at,
    }
}

/// A snapshot of freshly loaded rules and scanned modules: the desktop
/// module count is that of the modules of the desktop crate.
pub fn load_snapshot(rules: Vec<FeatureRule>, discovered: Vec<DiscoveredFile>, loaded_at: u64) -> (r:
    CatalogSnapshot)
    ensures
        r@.rules == rule_views(rules@),
        r@.discovered == discovered_views(discovered@),
        r.desktop_module_count == desktop_count(discovered_views(discovered@)),
        r.loaded_at == loaded_at,
{
    let ghost d = discovered_views(discovered@);
    let mut count: usize = 0;
    let mut i: usize = 0;
    assert(d.take(0) =~= Seq::<DiscoveredView>::empty());
    while i < discovered.len()
        invariant
            i <= discovered.len(),
            d == discovered_views(discovered@),
            count == desktop_count(d.take(i as int)),
            count <= i,
        decreases discovered.len() - i,
    {
        assert(d.take(i + 1).drop_last() =~= d.take(i as int));
        assert(d[i as int] == discovered@[i as int]@);
        if eq_str(&chars_of(discovered[i].crate_name.as_str()), "bony-build") {
            count = count + 1;
        }
        i = i + 1;
    }
    assert(d.take(discovered.len() as int) =~= d);
    CatalogSnapshot { rules, discovered, desktop_module_count: count, loaded_at }
}

/// The modules ordered by path (a stable sort in the order of `str`).
pub open spec fn by_path(d: Seq<DiscoveredView>) -> Seq<DiscoveredView>
    decreases d.len(),
{
    if d.len() == 0 {
        d
    } else {
        insert_by_path(by_path(d.drop_last()), d.last())
    }
}

/// `x` placed after every module whose path does not come after its own.
pub open spec fn insert_by_path(sorted: Seq<DiscoveredView>, x: DiscoveredView) -> Seq<
    DiscoveredView,
>
    decreases sorted.len(),
{
    if sorted.len() == 0 {
        seq![x]
    } else if seq_lt(x.path, sorted[0].path) {
        seq![x] + sorted
    } else {
        seq![sorted[0]] + insert_by_path(sorted.drop_first(), x)
    }
}

proof fn lemma_insert_by_path_at(sorted: Seq<DiscoveredView>, x: DiscoveredView, j: int)
    requires
        0 <= j <= sorted.len(),
        forall|k: int| 0 <= k < j ==> !seq_lt(x.path, #[trigger] sorted[k].path),
        j == sorted.len() || seq_lt(x.path, sorted[j].path),
    ensures
        insert_by_path(sorted, x) == sorted.take(j) + seq![x] + sorted.skip(j),
    decreases j,
{
    if sorted.len() == 0 {
        assert(sorted.take(j) + seq![x] + sorted.skip(j) =~= seq![x]);
    } else if j == 0 {
        assert(sorted.take(j) + seq![x] + sorted.skip(j) =~= seq![x] + sorted);
    } else {
        let rest = sorted.drop_first();
        assert forall|k: int| 0 <= k < j - 1 implies !seq_lt(x.path, #[trigger] rest[k].path) by {
            assert(rest[k] == sorted[k + 1]);
        }
        assert(j - 1 == rest.len() || rest[j - 1] == sorted[j]);
        lemma_insert_by_path_at(rest, x, j - 1);
        assert(sorted.take(j) + seq![x] + sorted.skip(j) =~= seq![sorted[0]] + (rest.take(j - 1)
            + seq![x] + rest.skip(j - 1)));
    }
}

/// Orders the scanned modules by path (`by_path`).
pub fn sort_by_path(v: Vec<DiscoveredFile>) -> (r: Vec<DiscoveredFile>)
    ensures
        discovered_views(r@) == by_path(discovered_views(v@)),
{
    let ghost orig = discovered_views(v@);
    let mut out: Vec<DiscoveredFile> = Vec::new();
    let mut i: usize = 0;
    assert(orig.take(0) =~= Seq::<DiscoveredView>::empty());
    assert(discovered_views(out@) =~= Seq::<DiscoveredView>::empty());
    while i < v.len()
        invariant
            i <= v.len(),
            orig == discovered_views(v@),
            discovered_views(out@) == by_path(orig.take(i as int)),
        decreases v.len() - i,
    {
        let x = copy_discovered(&v[i]);
        assert(orig[i as int] == x@);
        let xp = chars_of(x.path.as_str());
        let mut j: usize = 0;
        while j < out.len() && !chars_lt(&xp, &chars_of(out[j].path.as_str()))
            invariant
                j <= out@.len(),
                xp@ == x@.path,
                forall|q: int| 0 <= q < j ==> !seq_lt(x@.path, #[trigger] discovered_views(out@)[q].path),
            decreases out@.len() - j,
        {
            assert(discovered_views(out@)[j as int] == out@[j as int]@);
            j = j + 1;
        }
        proof {
            if j < out@.len() {
                assert(discovered_views(out@)[j as int] == out@[j as int]@);
            }
        }
        let ghost before = discovered_views(out@);
        proof {
            assert(orig.take(i + 1).drop_last() =~= orig.take(i as int));
            assert(orig.take(i + 1).last() == x@);
            lemma_insert_by_path_at(before, x@, j as int);
        }
        out.insert(j, x);
        assert(discovered_views(out@) =~= before.take(j as int) + seq![x@] + before.skip(j as int));
        i = i + 1;
    }
    assert(orig.take(v.len() as int) =~= orig);
    out
}

/// The catalog with the modification stamps it was loaded at; the stamps
/// are those of `features.toml` and of the newest scanned file, as
/// nanoseconds since the Unix epoch.
pub struct CatalogCache {
    pub repo: String,
    pub catalog_dir: String,
    pub features_toml: String,
    pub snapshot: CatalogSnapshot,
    pub toml_mtime: Option<u64>,
    pub scan_mtime: Option<u64>,
}

impl CatalogCache {
    pub open spec fn current(&self) -> SnapshotView {
        self.snapshot@
    }

    pub open spec fn stamps(&self) -> (Option<u64>, Option<u64>) {
        (self.toml_mtime, self.scan_mtime)
    }

    /// A cache that holds an empty catalog and no stamps yet.
    pub fn new(repo: String, catalog_dir: String, features_toml: String) -> (r: Self)
        ensures
            r.repo@ == repo@,
            r.catalog_dir@ == catalog_dir@,
            r.features_toml@ == features_toml@,
            r.current().rules.len() == 0,
            r.current().discovered.len() == 0,
            r.stamps() == (None::<u64>, None::<u64>),
    {
        CatalogCache {
            repo,
            catalog_dir,
            features_toml,
            snapshot: CatalogSnapshot::empty(),
            toml_mtime: None,
            scan_mtime: None,
        }
    }

    /// Whether the catalog must be reloaded: a stamp changed, or no rule is
    /// loaded.
    pub fn needs_refresh(&self, toml_m: Option<u64>, scan_m: Option<u64>) -> (r: bool)
        ensures
            r == (self.stamps() != (toml_m, scan_m) || self.current().rules.len() == 0),
    {
        let same_toml = match (self.toml_mtime, toml_m) {
            (Some(a), Some(b)) => a == b,
            (None, None) => true,
            _ => false,
        };
        let same_scan = match (self.scan_mtime, scan_m) {
            (Some(a), Some(b)) => a == b,
            (None, None) => true,
            _ => false,
        };
        !same_toml || !same_scan || self.snapshot.rules.len() == 0
    }

    /// Takes a reload when one is needed (`needs_refresh`): a loaded
    /// catalog replaces the held one with the new stamps; a failed load
    /// leaves everything as it was.
    pub fn ensure_fresh(
        &mut self,
        toml_m: Option<u64>,
        scan_m: Option<u64>,
        loaded: Result<CatalogSnapshot, String>,
    )
        ensures
            final(self).repo@ == old(self).repo@,
            final(self).catalog_dir@ == old(self).catalog_dir@,
            final(self).features_toml@ == old(self).features_toml@,
            ({
                let needed = old(self).stamps() != (toml_m, scan_m) || old(self).current().rules.len()
                    == 0;
                match loaded {
                    Ok(s) if needed => final(self).current() == s@ && final(self).stamps() == (
                        toml_m,
                        scan_m,
                    ),
                    _ => final(self).current() == old(self).current() && final(self).stamps()
                        == old(self).stamps(),
                }
            }),
    {
        if !self.needs_refresh(toml_m, scan_m) {
            return;
        }
        match loaded {
            Ok(snap) => {
                self.snapshot = snap;
                self.toml_mtime = toml_m;
                self.scan_mtime = scan_m;
            },
            Err(_) => {},
        }
    }

    /// A copy of the held catalog.
    pub fn snapshot(&self) -> (r: CatalogSnapshot)
        ensures
            r@ == self.current(),
    {
        copy_snapshot(&self.snapshot)
    }
}

} // verus!
