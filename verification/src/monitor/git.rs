//! Reads repository history from the output of the `git` command line: the
//! log with its numstat, the working-tree diffs, and what each change means.

use vstd::prelude::*;
use vstd::slice::{slice_subrange, slice_to_vec};
use crate::build::git_workspace::{bviews, zero_fields, zfields};
use crate::monitor::catalog::CatalogSnapshot;
use crate::monitor::features::FeatureRuleView;
use crate::monitor::impact::{ChangeImpact, ImpactView, analyze, is_impact};
use crate::text::{
    chars_eq, chars_of, find_char, find_char_from, from_utf8_lossy, lines, lines_of,
    parse_uint, parse_unsigned, push_str, split, split_char, starts_with, starts_with_str,
    string_of, sviews, trim, trimmed, utf8_lossy, views,
};

verus! {

/// Lines added and removed in one file.
#[derive(Debug, Clone)]
pub struct FileStat {
    pub path: String,
    pub additions: u32,
    pub deletions: u32,
}

pub struct FileStatView {
    pub path: Seq<char>,
    pub additions: u32,
    pub deletions: u32,
}

impl View for FileStat {
    type V = FileStatView;

    open spec fn view(&self) -> FileStatView {
        FileStatView { path: self.path@, additions: self.additions, deletions: self.deletions }
    }
}

pub open spec fn stat_views(v: Seq<FileStat>) -> Seq<FileStatView> {
    v.map_values(|f: FileStat| f@)
}

/// One change: a commit, or the staged or unstaged working tree.
#[derive(Debug, Clone)]
pub struct ChangeEntry {
    pub sha: String,
    pub short_sha: String,
    pub subject: String,
    pub body: String,
    pub author: String,
    pub email: String,
    pub date: String,
    pub additions: u32,
    pub deletions: u32,
    pub files: Vec<FileStat>,
    pub impact: ChangeImpact,
}

pub struct EntryView {
    pub sha: Seq<char>,
    pub short_sha: Seq<char>,
    pub subject: Seq<char>,
    pub body: Seq<char>,
    pub author: Seq<char>,
    pub email: Seq<char>,
    pub date: Seq<char>,
    pub additions: u32,
    pub deletions: u32,
    pub files: Seq<FileStatView>,
    pub impact: ImpactView,
}

impl View for ChangeEntry {
    type V = EntryView;

    open spec fn view(&self) -> EntryView {
        EntryView {
            sha: self.sha@,
            short_sha: self.short_sha@,
            subject: self.subject@,
            body: self.body@,
            author: self.author@,
            email: self.email@,
            date: self.date@,
            additions: self.additions,
            deletions: self.deletions,
            files: stat_views(self.files@),
            impact: self.impact@,
        }
    }
}

pub open spec fn entry_views(v: Seq<ChangeEntry>) -> Seq<EntryView> {
    v.map_values(|e: ChangeEntry| e@)
}

/// A count as `parse::<u32>()` reads it, 0 when it does not parse (as for
/// the `-` of a binary file).
pub open spec fn count_or_zero(s: Seq<char>) -> u32 {
    match parse_unsigned(s, u32::MAX as nat) {
        Some(n) => n as u32,
        None => 0,
    }
}

/// One `--numstat` line: additions, deletions and the path (the rest of the
/// line), separated by tabs.
pub open spec fn numstat_entry(l: Seq<char>) -> Option<FileStatView> {
    match find_char_from(l, '\t', 0) {
        None => None,
        Some(i) => {
            let rest = l.skip(i + 1);
            match find_char_from(rest, '\t', 0) {
                None => None,
                Some(j) => Some(
                    FileStatView {
                        path: rest.skip(j + 1),
                        additions: count_or_zero(l.take(i)),
                        deletions: count_or_zero(rest.take(j)),
                    },
                ),
            }
        },
    }
}

/// The entries of the lines that hold three columns, in order.
pub open spec fn numstat_entries(ls: Seq<Seq<char>>) -> Seq<FileStatView>
    decreases ls.len(),
{
    if ls.len() == 0 {
        Seq::empty()
    } else {
        let acc = numstat_entries(ls.drop_last());
        match numstat_entry(ls.last()) {
            Some(f) => acc.push(f),
            None => acc,
        }
    }
}

/// What `git diff --numstat` output lists.
pub open spec fn numstat(text: Seq<char>) -> Seq<FileStatView> {
    numstat_entries(lines(text))
}

fn count_of(s: &[char]) -> (r: u32)
    ensures
        r == count_or_zero(s@),
{
    match parse_uint(s, 0xffff_ffff) {
        Some(v) => v as u32,
        None => 0,
    }
}

fn numstat_line(l: &[char]) -> (r: Option<FileStat>)
    ensures
        match r {
            Some(f) => numstat_entry(l@) == Some(f@),
            None => numstat_entry(l@) is None,
        },
{
    match find_char(l, '\t') {
        None => None,
        Some(i) => {
            let rest = slice_to_vec(slice_subrange(l, i + 1, l.len()));
            assert(rest@ =~= l@.skip(i + 1));
            match find_char(&rest, '\t') {
                None => None,
                Some(j) => {
                    let head = slice_to_vec(slice_subrange(l, 0, i));
                    assert(head@ =~= l@.take(i as int));
                    let mid = slice_to_vec(slice_subrange(rest.as_slice(), 0, j));
                    assert(mid@ =~= rest@.take(j as int));
                    let path = slice_to_vec(slice_subrange(rest.as_slice(), j + 1, rest.len()));
                    assert(path@ =~= rest@.skip(j + 1));
                    Some(
                        FileStat {
                            path: string_of(&path),
                            additions: count_of(&head),
                            deletions: count_of(&mid),
                        },
                    )
                },
            }
        },
    }
}

fn push_stat(out: &mut Vec<FileStat>, f: FileStat)
    ensures
        stat_views(final(out)@) == stat_views(old(out)@).push(f@),
{
    let ghost before = stat_views(out@);
    out.push(f);
    assert(stat_views(out@) =~= before.push(f@));
}

/// Reads `git diff --numstat` output (`numstat`): a line without three
/// tab-separated columns is skipped, a count that does not parse is 0.
pub fn parse_numstat(text: &str) -> (r: Vec<FileStat>)
    ensures
        stat_views(r@) == numstat(text@),
{
    let ls = lines_of(&chars_of(text));
    let ghost v = views(ls@);
    let mut out: Vec<FileStat> = Vec::new();
    let mut i: usize = 0;
    assert(v.take(0) =~= Seq::<Seq<char>>::empty());
    assert(stat_views(out@) =~= Seq::<FileStatView>::empty());
    while i < ls.len()
        invariant
            i <= ls.len(),
            v == views(ls@),
            stat_views(out@) == numstat_entries(v.take(i as int)),
        decreases ls.len() - i,
    {
        assert(v.take(i + 1).drop_last() =~= v.take(i as int));
        assert(v[i as int] == ls@[i as int]@);
        match numstat_line(ls[i].as_slice()) {
            Some(f) => push_stat(&mut out, f),
            None => {},
        }
        i = i + 1;
    }
    assert(v.take(ls.len() as int) =~= v);
    out
}

/// Total additions.
pub open spec fn additions_of(fs: Seq<FileStatView>) -> nat
    decreases fs.len(),
{
    if fs.len() == 0 {
        0
    } else {
        additions_of(fs.drop_last()) + fs.last().additions as nat
    }
}

/// Total deletions.
pub open spec fn deletions_of(fs: Seq<FileStatView>) -> nat
    decreases fs.len(),
{
    if fs.len() == 0 {
        0
    } else {
        deletions_of(fs.drop_last()) + fs.last().deletions as nat
    }
}

proof fn lemma_sums_prefix(fs: Seq<FileStatView>, k: int)
    requires
        0 <= k <= fs.len(),
    ensures
        additions_of(fs.take(k)) <= additions_of(fs),
        deletions_of(fs.take(k)) <= deletions_of(fs),
    decreases fs.len(),
{
    if k < fs.len() {
        assert(fs.drop_last().take(k) =~= fs.take(k));
        lemma_sums_prefix(fs.drop_last(), k);
    } else {
        assert(fs.take(k) =~= fs);
    }
}

/// The sums of the additions and deletions.
fn totals(fs: &Vec<FileStat>) -> (r: (u32, u32))
    requires
        additions_of(stat_views(fs@)) <= u32::MAX,
        deletions_of(stat_views(fs@)) <= u32::MAX,
    ensures
        r.0 == additions_of(stat_views(fs@)),
        r.1 == deletions_of(stat_views(fs@)),
{
    let ghost sv = stat_views(fs@);
    let mut a: u32 = 0;
    let mut d: u32 = 0;
    let mut i: usize = 0;
    assert(sv.take(0) =~= Seq::<FileStatView>::empty());
    while i < fs.len()
        invariant
            i <= fs.len(),
            sv == stat_views(fs@),
            additions_of(sv) <= u32::MAX,
            deletions_of(sv) <= u32::MAX,
            a == additions_of(sv.take(i as int)),
            d == deletions_of(sv.take(i as int)),
        decreases fs.len() - i,
    {
        assert(sv.take(i + 1).drop_last() =~= sv.take(i as int));
        assert(sv[i as int] == fs@[i as int]@);
        proof {
            lemma_sums_prefix(sv, i + 1);
        }
        a = a + fs[i].additions;
        d = d + fs[i].deletions;
        i = i + 1;
    }
    assert(sv.take(fs.len() as int) =~= sv);
    (a, d)
}

/// The text without carriage returns.
pub open spec fn without_cr(s: Seq<char>) -> Seq<char>
    decreases s.len(),
{
    if s.len() == 0 {
        s
    } else if s.last() == '\r' {
        without_cr(s.drop_last())
    } else {
        without_cr(s.drop_last()).push(s.last())
    }
}

fn remove_cr(s: &[char]) -> (r: Vec<char>)
    ensures
        r@ == without_cr(s@),
{
    let mut out: Vec<char> = Vec::new();
    let mut i: usize = 0;
    assert(s@.take(0) =~= Seq::<char>::empty());
    while i < s.len()
        invariant
            i <= s.len(),
            out@ == without_cr(s@.take(i as int)),
        decreases s.len() - i,
    {
        assert(s@.take(i + 1).drop_last() =~= s@.take(i as int));
        if s[i] != '\r' {
            out.push(s[i]);
        }
        i = i + 1;
    }
    assert(s@.take(s.len() as int) =~= s@);
    out
}

/// The files of the numstat lines of a log record: blank lines and lines
/// with fewer than three tab-separated columns are skipped; the path is the
/// third column.
pub open spec fn stat_files(ls: Seq<Seq<char>>) -> Seq<FileStatView>
    decreases ls.len(),
{
    if ls.len() == 0 {
        Seq::empty()
    } else {
        let acc = stat_files(ls.drop_last());
        let l = trim(ls.last());
        let cols = split(l, '\t');
        if l.len() == 0 || cols.len() < 3 {
            acc
        } else {
            acc.push(
                FileStatView {
                    path: cols[2],
                    additions: count_or_zero(cols[0]),
                    deletions: count_or_zero(cols[1]),
                },
            )
        }
    }
}

/// The fields of one log record, before its impact is analysed.
pub struct LogRecord {
    pub sha: Seq<char>,
    pub short_sha: Seq<char>,
    pub subject: Seq<char>,
    pub body: Seq<char>,
    pub author: Seq<char>,
    pub email: Seq<char>,
    pub date: Seq<char>,
    pub files: Seq<FileStatView>,
}

/// One record of `git log --pretty=format:%x1e%H%x1f%h%x1f%s%x1f%b%x1f%an%x1f%ae%x1f%ad
/// --numstat`: a blank record, or one with fewer than seven fields, is
/// none.
pub open spec fn record_of(chunk: Seq<char>) -> Option<LogRecord> {
    let t = trim(chunk);
    let p = split(t, '\x1f');
    if t.len() == 0 || p.len() < 7 {
        None
    } else {
        let ls = lines(p[6]);
        Some(
            LogRecord {
                sha: trim(p[0]),
                short_sha: p[1],
                subject: p[2],
                body: without_cr(p[3]),
                author: p[4],
                email: p[5],
                date: if ls.len() > 0 {
                    trim(ls[0])
                } else {
                    Seq::empty()
                },
                files: if ls.len() > 0 {
                    stat_files(ls.drop_first())
                } else {
                    Seq::empty()
                },
            },
        )
    }
}

/// The records of the log, in order.
pub open spec fn records_of(chunks: Seq<Seq<char>>) -> Seq<LogRecord>
    decreases chunks.len(),
{
    if chunks.len() == 0 {
        Seq::empty()
    } else {
        let acc = records_of(chunks.drop_last());
        match record_of(chunks.last()) {
            Some(r) => acc.push(r),
            None => acc,
        }
    }
}

pub open spec fn log_records(text: Seq<char>) -> Seq<LogRecord> {
    records_of(split(text, '\x1e'))
}

/// The totals of a record fit in `u32`, the width in which a change counts its
/// added and deleted lines.
pub open spec fn totals_fit(o: Option<LogRecord>) -> bool {
    match o {
        Some(r) => additions_of(r.files) <= u32::MAX && deletions_of(r.files) <= u32::MAX,
        None => true,
    }
}

pub open spec fn paths_of(fs: Seq<FileStatView>) -> Seq<Seq<char>> {
    fs.map_values(|f: FileStatView| f.path)
}

/// `e` is the change of record `r`, with its totals and its impact under
/// the rules.
pub open spec fn entry_of(rules: Seq<FeatureRuleView>, r: LogRecord, e: EntryView) -> bool {
    &&& e.sha == r.sha
    &&& e.short_sha == r.short_sha
    &&& e.subject == r.subject
    &&& e.body == r.body
    &&& e.author == r.author
    &&& e.email == r.email
    &&& e.date == r.date
    &&& e.files == r.files
    &&& e.additions == additions_of(r.files)
    &&& e.deletions == deletions_of(r.files)
    &&& is_impact(rules, r.subject, r.body, paths_of(r.files), e.impact)
}

fn stat_lines(ls: &Vec<Vec<char>>, from: usize) -> (r: Vec<FileStat>)
    requires
        from <= ls.len(),
    ensures
        stat_views(r@) == stat_files(views(ls@).skip(from as int)),
{
    let ghost v = views(ls@).skip(from as int);
    let mut out: Vec<FileStat> = Vec::new();
    let mut i: usize = from;
    assert(v.take(0) =~= Seq::<Seq<char>>::empty());
    assert(stat_views(out@) =~= Seq::<FileStatView>::empty());
    while i < ls.len()
        invariant
            from <= i <= ls.len(),
            v == views(ls@).skip(from as int),
            stat_views(out@) == stat_files(v.take(i - from)),
        decreases ls.len() - i,
    {
        assert(v.take(i + 1 - from).drop_last() =~= v.take(i - from));
        assert(v[i - from] == ls@[i as int]@);
        let l = trimmed(ls[i].as_slice());
        if l.len() > 0 {
            let cols = split_char(&l, '\t');
            if cols.len() >= 3 {
                assert(views(cols@)[0] == cols@[0]@);
                assert(views(cols@)[1] == cols@[1]@);
                assert(views(cols@)[2] == cols@[2]@);
                let f = FileStat {
                    path: string_of(&cols[2]),
                    additions: count_of(&cols[0]),
                    deletions: count_of(&cols[1]),
                };
                push_stat(&mut out, f);
            }
        }
        i = i + 1;
    }
    assert(v.take(ls.len() - from) =~= v);
    out
}

fn paths(fs: &Vec<FileStat>) -> (r: Vec<String>)
    ensures
        sviews(r@) == paths_of(stat_views(fs@)),
{
    let mut out: Vec<String> = Vec::new();
    let mut i: usize = 0;
    while i < fs.len()
        invariant
            i <= fs.len(),
            sviews(out@) == paths_of(stat_views(fs@)).take(i as int),
        decreases fs.len() - i,
    {
        crate::text::push_owned(&mut out, fs[i].path.as_str());
        assert(sviews(out@) =~= paths_of(stat_views(fs@)).take(i + 1));
        i = i + 1;
    }
    assert(paths_of(stat_views(fs@)).take(fs.len() as int) =~= paths_of(stat_views(fs@)));
    out
}

fn chunk_entry(chunk: &[char], catalog: &CatalogSnapshot) -> (r: Option<ChangeEntry>)
    requires
        totals_fit(record_of(chunk@)),
    ensures
        match r {
            Some(e) => record_of(chunk@) is Some && entry_of(
                catalog@.rules,
                record_of(chunk@)->0,
                e@,
            ),
            None => record_of(chunk@) is None,
        },
{
    let t = trimmed(chunk);
    if t.len() == 0 {
        return None;
    }
    let parts = split_char(&t, '\x1f');
    if parts.len() < 7 {
        return None;
    }
    let ghost p = views(parts@);
    assert(p[0] == parts@[0]@ && p[1] == parts@[1]@ && p[2] == parts@[2]@ && p[3] == parts@[3]@);
    assert(p[4] == parts@[4]@ && p[5] == parts@[5]@ && p[6] == parts@[6]@);
    let sha = trimmed(&parts[0]);
    let body = remove_cr(&parts[3]);
    let ls = lines_of(&parts[6]);
    let date: Vec<char> = if ls.len() > 0 {
        assert(views(ls@)[0] == ls@[0]@);
        trimmed(&ls[0])
    } else {
        Vec::new()
    };
    let files: Vec<FileStat> = if ls.len() > 0 {
        let f = stat_lines(&ls, 1);
        assert(views(ls@).skip(1) =~= views(ls@).drop_first());
        f
    } else {
        Vec::new()
    };
    proof {
        if ls@.len() == 0 {
            assert(stat_views(files@) =~= Seq::<FileStatView>::empty());
            assert(date@ =~= Seq::<char>::empty());
        }
    }
    let (additions, deletions) = totals(&files);
    let subject = string_of(&parts[2]);
    let body_s = string_of(&body);
    let ps = paths(&files);
    let impact = analyze(catalog, subject.as_str(), body_s.as_str(), ps.as_slice());
    Some(
        ChangeEntry {
            sha: string_of(&sha),
            short_sha: string_of(&parts[1]),
            subject,
            body: body_s,
            author: string_of(&parts[4]),
            email: string_of(&parts[5]),
            date: string_of(&date),
            additions,
            deletions,
            files,
            impact,
        },
    )
}

/// Whether the record in `chunk` (if any) has line counts that fit in
/// `u32`.
fn chunk_fits(chunk: &[char]) -> (r: bool)
    ensures
        r == totals_fit(record_of(chunk@)),
{
    let t = trimmed(chunk);
    if t.len() == 0 {
        return true;
    }
    let parts = split_char(&t, '\x1f');
    if parts.len() < 7 {
        return true;
    }
    assert(views(parts@)[6] == parts@[6]@);
    let ls = lines_of(&parts[6]);
    if ls.len() == 0 {
        let none: Vec<FileStat> = Vec::new();
        assert(stat_views(none@) =~= Seq::<FileStatView>::empty());
        return stats_fit(&none);
    }
    let files = stat_lines(&ls, 1);
    assert(views(ls@).skip(1) =~= views(ls@).drop_first());
    stats_fit(&files)
}

/// Whether every record of `git log` output has line counts that fit in
/// `u32`, as `parse_git_log` asks.
pub fn log_fits(text: &str) -> (r: bool)
    ensures
        r == forall|i: int|
            0 <= i < split(text@, '\x1e').len() ==> totals_fit(
                record_of(#[trigger] split(text@, '\x1e')[i]),
            ),
{
    let chunks = split_char(&chars_of(text), '\x1e');
    let ghost cs = views(chunks@);
    let mut i: usize = 0;
    while i < chunks.len()
        invariant
            i <= chunks.len(),
            cs == views(chunks@),
            cs == split(text@, '\x1e'),
            forall|k: int| 0 <= k < i ==> totals_fit(record_of(#[trigger] cs[k])),
        decreases chunks.len() - i,
    {
        assert(cs[i as int] == chunks@[i as int]@);
        if !chunk_fits(chunks[i].as_slice()) {
            return false;
        }
        i = i + 1;
    }
    true
}

/// Reads `git log` output in the record format above (`log_records`): one
/// change per record, in order, each with its totals and its impact. The
/// totals of each record must fit in `u32`.
pub fn parse_git_log(text: &str, catalog: &CatalogSnapshot) -> (r: Result<Vec<ChangeEntry>, String>)
    requires
        forall|i: int|
            0 <= i < split(text@, '\x1e').len() ==> totals_fit(
                record_of(#[trigger] split(text@, '\x1e')[i]),
            ),
    ensures
        r is Ok,
        r matches Ok(v) ==> v.len() == log_records(text@).len() && forall|i: int|
            0 <= i < v.len() ==> entry_of(catalog@.rules, log_records(text@)[i], #[trigger] v@[i]@),
{
    let chunks = split_char(&chars_of(text), '\x1e');
    let ghost cs = views(chunks@);
    let mut entries: Vec<ChangeEntry> = Vec::new();
    let mut i: usize = 0;
    assert(cs.take(0) =~= Seq::<Seq<char>>::empty());
    while i < chunks.len()
        invariant
            i <= chunks.len(),
            cs == views(chunks@),
            cs == split(text@, '\x1e'),
            forall|k: int| 0 <= k < cs.len() ==> totals_fit(record_of(#[trigger] cs[k])),
            entries.len() == records_of(cs.take(i as int)).len(),
            forall|k: int|
                0 <= k < entries.len() ==> entry_of(
                    catalog@.rules,
                    records_of(cs.take(i as int))[k],
                    #[trigger] entries@[k]@,
                ),
        decreases chunks.len() - i,
    {
        assert(cs.take(i + 1).drop_last() =~= cs.take(i as int));
        assert(cs[i as int] == chunks@[i as int]@);
        match chunk_entry(chunks[i].as_slice(), catalog) {
            Some(e) => {
                entries.push(e);
            },
            None => {},
        }
        i = i + 1;
    }
    assert(cs.take(chunks.len() as int) =~= cs);
    Ok(entries)
}

/// The path of each NUL-separated field, decoded as `from_utf8_lossy` does.
pub open spec fn lossy_paths(fields: Seq<Seq<u8>>) -> Seq<Seq<char>> {
    fields.map_values(|f: Seq<u8>| utf8_lossy(f))
}

pub open spec fn has_path(fs: Seq<FileStatView>, p: Seq<char>) -> bool {
    exists|i: int| 0 <= i < fs.len() && (#[trigger] fs[i]).path == p
}

/// The untracked paths that the list lacks, added in order with no counts.
pub open spec fn add_untracked(fs: Seq<FileStatView>, ps: Seq<Seq<char>>) -> Seq<FileStatView>
    decreases ps.len(),
{
    if ps.len() == 0 {
        fs
    } else {
        let acc = add_untracked(fs, ps.drop_last());
        if has_path(acc, ps.last()) {
            acc
        } else {
            acc.push(FileStatView { path: ps.last(), additions: 0, deletions: 0 })
        }
    }
}

/// The files of a working-tree layer: the numstat of its diff and, for the
/// unstaged layer, the untracked files (`git ls-files --others -z`).
pub open spec fn layer_files(staged: bool, diff: Seq<char>, untracked: Seq<u8>) -> Seq<FileStatView> {
    if staged {
        numstat(diff)
    } else {
        add_untracked(numstat(diff), lossy_paths(zfields(untracked)))
    }
}

fn has_path_exec(fs: &Vec<FileStat>, p: &[char]) -> (r: bool)
    ensures
        r == has_path(stat_views(fs@), p@),
{
    let mut i: usize = 0;
    while i < fs.len()
        invariant
            i <= fs.len(),
            forall|k: int| 0 <= k < i ==> (#[trigger] stat_views(fs@)[k]).path != p@,
        decreases fs.len() - i,
    {
        assert(stat_views(fs@)[i as int] == fs@[i as int]@);
        if chars_eq(&chars_of(fs[i].path.as_str()), p) {
            return true;
        }
        i = i + 1;
    }
    false
}

/// The files of a working-tree layer (`layer_files`).
pub fn layer_stats(staged: bool, diff: &str, untracked: &[u8]) -> (r: Vec<FileStat>)
    ensures
        stat_views(r@) == layer_files(staged, diff@, untracked@),
{
    let mut files = parse_numstat(diff);
    if !staged {
        let fields = zero_fields(untracked);
        let ghost ps = lossy_paths(bviews(fields@));
        let ghost start = stat_views(files@);
        let mut i: usize = 0;
        assert(ps.take(0) =~= Seq::<Seq<char>>::empty());
        while i < fields.len()
            invariant
                i <= fields.len(),
                ps == lossy_paths(bviews(fields@)),
                stat_views(files@) == add_untracked(start, ps.take(i as int)),
            decreases fields.len() - i,
        {
            assert(ps.take(i + 1).drop_last() =~= ps.take(i as int));
            assert(bviews(fields@)[i as int] == fields@[i as int]@);
            let path = from_utf8_lossy(fields[i].as_slice());
            let pc = chars_of(path.as_str());
            if !has_path_exec(&files, &pc) {
                push_stat(&mut files, FileStat { path, additions: 0, deletions: 0 });
            }
            i = i + 1;
        }
        assert(ps.take(fields.len() as int) =~= ps);
    }
    files
}

/// Whether the line counts of the files add up within `u32`.
pub fn stats_fit(fs: &Vec<FileStat>) -> (r: bool)
    ensures
        r == (additions_of(stat_views(fs@)) <= u32::MAX && deletions_of(stat_views(fs@))
            <= u32::MAX),
{
    let ghost sv = stat_views(fs@);
    let mut a: u64 = 0;
    let mut d: u64 = 0;
    let mut i: usize = 0;
    assert(sv.take(0) =~= Seq::<FileStatView>::empty());
    while i < fs.len()
        invariant
            i <= fs.len(),
            sv == stat_views(fs@),
            a == additions_of(sv.take(i as int)),
            d == deletions_of(sv.take(i as int)),
            a <= u32::MAX,
            d <= u32::MAX,
        decreases fs.len() - i,
    {
        assert(sv.take(i + 1).drop_last() =~= sv.take(i as int));
        assert(sv[i as int] == fs@[i as int]@);
        a = a + fs[i].additions as u64;
        d = d + fs[i].deletions as u64;
        if a > 0xffff_ffff || d > 0xffff_ffff {
            proof {
                lemma_sums_prefix(sv, i + 1);
            }
            return false;
        }
        i = i + 1;
    }
    assert(sv.take(fs.len() as int) =~= sv);
    true
}

/// Whether both working-tree layers have line counts that fit in `u32`,
/// as `working_changes` asks.
pub fn layers_fit(staged_diff: &str, unstaged_diff: &str, untracked: &[u8]) -> (r: bool)
    ensures
        r == (additions_of(layer_files(true, staged_diff@, untracked@)) <= u32::MAX
            && deletions_of(layer_files(true, staged_diff@, untracked@)) <= u32::MAX
            && additions_of(layer_files(false, unstaged_diff@, untracked@)) <= u32::MAX
            && deletions_of(layer_files(false, unstaged_diff@, untracked@)) <= u32::MAX),
{
    let a = layer_stats(true, staged_diff, untracked);
    let b = layer_stats(false, unstaged_diff, untracked);
    stats_fit(&a) && stats_fit(&b)
}

/// `e` is the change that shows the working tree's staged (or unstaged)
/// layer, given the layer's diff and the untracked file list: the layer's
/// files (`layer_files`, not empty), their totals, a fixed id, subject and
/// author, and its impact under `rules`.
pub open spec fn layer_entry(
    staged: bool,
    diff: Seq<char>,
    untracked: Seq<u8>,
    rules: Seq<FeatureRuleView>,
    e: EntryView,
) -> bool {
    let fs = layer_files(staged, diff, untracked);
    let short: Seq<char> = if staged {
        "staged"@
    } else {
        "unstaged"@
    };
    let subject: Seq<char> = if staged {
        "当前已暂存修改"@
    } else {
        "当前未暂存修改"@
    };
    &&& fs.len() > 0
    &&& e.sha == short
    &&& e.short_sha == short
    &&& e.subject == subject
    &&& e.body.len() == 0
    &&& e.author == "Working tree"@
    &&& e.email.len() == 0
    &&& e.date.len() == 0
    &&& e.files == fs
    &&& e.additions == additions_of(fs)
    &&& e.deletions == deletions_of(fs)
    &&& is_impact(rules, subject, Seq::empty(), paths_of(fs), e.impact)
}

/// One working-tree layer as a change (`layer_files`): none when it has no
/// file. The totals of the layer must fit in `u32`.
pub fn working_change(staged: bool, diff: &str, untracked: &[u8], catalog: &CatalogSnapshot) -> (r:
    Option<ChangeEntry>)
    requires
        additions_of(layer_files(staged, diff@, untracked@)) <= u32::MAX,
        deletions_of(layer_files(staged, diff@, untracked@)) <= u32::MAX,
    ensures
        ({
            let fs = layer_files(staged, diff@, untracked@);
            let short: Seq<char> = if staged {
                "staged"@
            } else {
                "unstaged"@
            };
            let subject: Seq<char> = if staged {
                "当前已暂存修改"@
            } else {
                "当前未暂存修改"@
            };
            match r {
                None => fs.len() == 0,
                Some(e) => fs.len() > 0 && e@.sha == short && e@.short_sha == short && e@.subject
                    == subject && e@.body.len() == 0 && e@.author == "Working tree"@
                    && e@.email.len() == 0 && e@.date.len() == 0 && e@.files == fs
                    && e@.additions == additions_of(fs) && e@.deletions == deletions_of(fs)
                    && is_impact(catalog@.rules, subject, Seq::empty(), paths_of(fs), e@.impact),
            }
        }),
{
    let files = layer_stats(staged, diff, untracked);
    if files.len() == 0 {
        return None;
    }
    let (additions, deletions) = totals(&files);
    let ps = paths(&files);
    let short: &str = if staged {
        "staged"
    } else {
        "unstaged"
    };
    let subject: &str = if staged {
        "当前已暂存修改"
    } else {
        "当前未暂存修改"
    };
    let impact = analyze(catalog, subject, "", ps.as_slice());
    proof {
        reveal_strlit("");
    }
    Some(
        ChangeEntry {
            sha: short.to_owned(),
            short_sha: short.to_owned(),
            subject: subject.to_owned(),
            body: String::new(),
            author: "Working tree".to_owned(),
            email: String::new(),
            date: String::new(),
            additions,
            deletions,
            files,
            impact,
        },
    )
}

/// The staged layer, then the unstaged one, each when it has files.
pub fn working_changes(
    staged_diff: &str,
    unstaged_diff: &str,
    untracked: &[u8],
    catalog: &CatalogSnapshot,
) -> (r: Vec<ChangeEntry>)
    requires
        additions_of(layer_files(true, staged_diff@, untracked@)) <= u32::MAX,
        deletions_of(layer_files(true, staged_diff@, untracked@)) <= u32::MAX,
        additions_of(layer_files(false, unstaged_diff@, untracked@)) <= u32::MAX,
        deletions_of(layer_files(false, unstaged_diff@, untracked@)) <= u32::MAX,
    ensures
        r.len() == (if layer_files(true, staged_diff@, untracked@).len() > 0 {
            1int
        } else {
            0int
        }) + (if layer_files(false, unstaged_diff@, untracked@).len() > 0 {
            1int
        } else {
            0int
        }),
        layer_files(true, staged_diff@, untracked@).len() > 0 ==> layer_entry(
            true,
            staged_diff@,
            untracked@,
            catalog@.rules,
            r@[0]@,
        ),
        layer_files(false, unstaged_diff@, untracked@).len() > 0 ==> layer_entry(
            false,
            unstaged_diff@,
            untracked@,
            catalog@.rules,
            r@[r.len() - 1]@,
        ),
{
    let mut out: Vec<ChangeEntry> = Vec::new();
    match working_change(true, staged_diff, untracked, catalog) {
        Some(e) => out.push(e),
        None => {},
    }
    match working_change(false, unstaged_diff, untracked, catalog) {
        Some(e) => out.push(e),
        None => {},
    }
    out
}

/// Change `e` is the one that `sha` names: its id starts with `sha`, or its
/// short id is `sha`.
pub open spec fn named_by(e: EntryView, sha: Seq<char>) -> bool {
    starts_with(e.sha, sha) || e.short_sha == sha
}

/// The first change that `sha` names (`named_by`); an error naming the id
/// when there is none.
pub fn change_detail(list: Vec<ChangeEntry>, sha: &str) -> (r: Result<ChangeEntry, String>)
    ensures
        match r {
            Ok(e) => exists|i: int|
                0 <= i < list.len() && e@ == (#[trigger] list@[i])@ && named_by(list@[i]@, sha@)
                    && forall|k: int| 0 <= k < i ==> !named_by(#[trigger] list@[k]@, sha@),
            Err(m) => m@ == "commit not found: "@ + sha@ && forall|k: int|
                0 <= k < list.len() ==> !named_by(#[trigger] list@[k]@, sha@),
        },
{
    match find_change(&list, sha) {
        Some(i) => {
            let ghost orig = list@;
            let mut l = list;
            let e = l.remove(i);
            assert(e == orig[i as int]);
            assert(e@ == orig[i as int]@);
            Ok(e)
        },
        None => {
            let mut m = chars_of("commit not found: ");
            push_str(&mut m, sha);
            Err(string_of(&m))
        },
    }
}

fn find_change(list: &Vec<ChangeEntry>, sha: &str) -> (r: Option<usize>)
    ensures
        match r {
            Some(i) => i < list.len() && named_by(list@[i as int]@, sha@) && forall|k: int|
                0 <= k < i ==> !named_by(#[trigger] list@[k]@, sha@),
            None => forall|k: int| 0 <= k < list.len() ==> !named_by(#[trigger] list@[k]@, sha@),
        },
{
    let sc = chars_of(sha);
    let mut i: usize = 0;
    while i < list.len()
        invariant
            i <= list.len(),
            sc@ == sha@,
            forall|k: int| 0 <= k < i ==> !named_by(#[trigger] list@[k]@, sha@),
        decreases list.len() - i,
    {
        let e = &list[i];
        let a = starts_with_str(&chars_of(e.sha.as_str()), sha);
        let b = chars_eq(&chars_of(e.short_sha.as_str()), &sc);
        assert(named_by(list@[i as int]@, sha@) == (a || b));
        if a || b {
            return Some(i);
        }
        i = i + 1;
    }
    None
}

/// What the file system shows of one folder: its path and whether it holds
/// a `.git` entry.
pub struct RepoProbe {
    pub path: String,
    pub has_git: bool,
}

/// The error for a start folder outside any repository.
pub open spec fn not_a_repo(start: Seq<char>) -> Seq<char> {
    "not inside a git repository (started at "@ + start + ")"@
}

/// The first folder with a `.git` entry among `start` (as `ancestors[0]`,
/// canonicalized) and its parents, in order up to the file-system root.
pub fn find_repo_root(start: &str, ancestors: &[RepoProbe]) -> (r: Result<String, String>)
    ensures
        match r {
            Ok(p) => exists|i: int|
                0 <= i < ancestors.len() && p@ == (#[trigger] ancestors@[i]).path@
                    && ancestors@[i].has_git && forall|k: int|
                    0 <= k < i ==> !(#[trigger] ancestors@[k]).has_git,
            Err(e) => e@ == not_a_repo(start@) && forall|k: int|
                0 <= k < ancestors.len() ==> !(#[trigger] ancestors@[k]).has_git,
        },
{
    let mut i: usize = 0;
    while i < ancestors.len()
        invariant
            i <= ancestors.len(),
            forall|k: int| 0 <= k < i ==> !(#[trigger] ancestors@[k]).has_git,
        decreases ancestors.len() - i,
    {
        if ancestors[i].has_git {
            let p = ancestors[i].path.clone();
            assert(p@ == ancestors@[i as int].path@);
            return Ok(p);
        }
        i = i + 1;
    }
    let mut e = chars_of("not inside a git repository (started at ");
    push_str(&mut e, start);
    push_str(&mut e, ")");
    Err(string_of(&e))
}

} // verus!
