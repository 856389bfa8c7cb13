//! Working-tree status of a Git checkout and the names of task branches.
//! Running `git` itself is left to the application; this module reads what
//! it prints.

use vstd::prelude::*;
use vstd::slice::slice_subrange;
use vstd::slice::slice_to_vec;
use vstd::utf8::{decode_utf8, encode_utf8, is_char_boundary, valid_utf8};
use crate::text::{
    chars_of, from_utf8_lossy, push_str, is_ascii_alnum, join, join_with, lower_each,
    lower_each_chars, nonempty_pieces, split, split_char, string_of, sviews, trim, trimmed, utf8_lossy,
    views, ends_with, has_char, has_sub, rfind,
};

verus! {

#[derive(Debug, Clone, Copy, PartialEq, Eq, Structural)]
pub enum ChangeKind {
    Added,
    Modified,
    Deleted,
    Renamed,
    Untracked,
    Conflicted,
}

/// One changed path of the working tree.
#[derive(Debug, Clone)]
pub struct FileChange {
    pub path: String,
    pub old_path: Option<String>,
    pub kind: ChangeKind,
    pub staged: bool,
}

/// An isolated checkout for a task.
#[derive(Debug, Clone)]
pub struct Worktree {
    pub path: String,
    pub branch: String,
}

/// Git operations of the desktop client; the application runs `git` and
/// hands its output to the parsers of this module.
pub struct GitWorkspaceService;

/// A file change as plain values.
pub struct FileChangeSpec {
    pub path: Seq<char>,
    pub old_path: Option<Seq<char>>,
    pub kind: ChangeKind,
    pub staged: bool,
}

pub open spec fn opt_view(o: Option<String>) -> Option<Seq<char>> {
    match o {
        Some(s) => Some(s@),
        None => None,
    }
}

impl View for FileChange {
    type V = FileChangeSpec;

    open spec fn view(&self) -> FileChangeSpec {
        FileChangeSpec {
            path: self.path@,
            old_path: opt_view(self.old_path),
            kind: self.kind,
            staged: self.staged,
        }
    }
}

/// State of a left-to-right split of bytes at every zero byte, keeping the
/// non-empty pieces.
pub open spec fn zfields_acc(b: Seq<u8>) -> (Seq<Seq<u8>>, Seq<u8>)
    decreases b.len(),
{
    if b.len() == 0 {
        (Seq::empty(), Seq::empty())
    } else {
        let p = zfields_acc(b.drop_last());
        if b.last() == 0 {
            if p.1.len() > 0 {
                (p.0.push(p.1), Seq::empty())
            } else {
                (p.0, Seq::empty())
            }
        } else {
            (p.0, p.1.push(b.last()))
        }
    }
}

/// The non-empty NUL-separated fields of `git status -z` output.
pub open spec fn zfields(b: Seq<u8>) -> Seq<Seq<u8>> {
    let p = zfields_acc(b);
    if p.1.len() > 0 {
        p.0.push(p.1)
    } else {
        p.0
    }
}

pub open spec fn bviews(v: Seq<Vec<u8>>) -> Seq<Seq<u8>> {
    v.map_values(|x: Vec<u8>| x@)
}

pub(crate) fn zero_fields(b: &[u8]) -> (r: Vec<Vec<u8>>)
    ensures
        bviews(r@) == zfields(b@),
{
    let mut out: Vec<Vec<u8>> = Vec::new();
    let mut cur: Vec<u8> = Vec::new();
    let mut i: usize = 0;
    assert(bviews(out@) =~= Seq::<Seq<u8>>::empty());
    assert(b@.take(0) =~= Seq::<u8>::empty());
    while i < b.len()
        invariant
            i <= b.len(),
            bviews(out@) == zfields_acc(b@.take(i as int)).0,
            cur@ == zfields_acc(b@.take(i as int)).1,
        decreases b.len() - i,
    {
        assert(b@.take(i + 1).drop_last() =~= b@.take(i as int));
        if b[i] == 0 {
            if cur.len() > 0 {
                assert(bviews(out@.push(cur)) =~= bviews(out@).push(cur@));
                out.push(cur);
                cur = Vec::new();
            }
        } else {
            cur.push(b[i]);
        }
        i = i + 1;
    }
    assert(b@.take(b.len() as int) =~= b@);
    if cur.len() > 0 {
        assert(bviews(out@.push(cur)) =~= bviews(out@).push(cur@));
        out.push(cur);
    }
    out
}

/// The kind of change that a two-letter status code names.
pub open spec fn change_kind(x: u8, y: u8) -> ChangeKind {
    if x == 0x3f && y == 0x3f {
        ChangeKind::Untracked
    } else if x == 0x55 || y == 0x55 || (x == 0x41 && y == 0x41) || (x == 0x44 && y == 0x44) {
        ChangeKind::Conflicted
    } else if x == 0x52 || y == 0x52 {
        ChangeKind::Renamed
    } else if x == 0x41 || y == 0x41 {
        ChangeKind::Added
    } else if x == 0x44 || y == 0x44 {
        ChangeKind::Deleted
    } else {
        ChangeKind::Modified
    }
}

/// A field as the reader sees it: its bytes read as UTF-8 (invalid
/// sequences replaced), written back as bytes.
pub open spec fn field_text(f: Seq<u8>) -> Seq<u8> {
    encode_utf8(utf8_lossy(f))
}

/// Where the entry after the one at `i` starts: a rename's entry takes the
/// field after it too, as its old path.
pub open spec fn next_field(fields: Seq<Seq<u8>>, i: int) -> int {
    let g = field_text(fields[i]);
    if change_kind(g[0], g[1]) == ChangeKind::Renamed && i + 1 < fields.len() {
        i + 2
    } else {
        i + 1
    }
}

/// The status code (the first two bytes) and the path (from the fourth
/// byte on) of a field long enough to hold both can be cut out of its text:
/// bytes 2 and 3 start characters.
pub open spec fn sliceable(g: Seq<u8>) -> bool {
    is_char_boundary(g, 2) && is_char_boundary(g, 3)
}

/// Every entry's field from `i` on, up to the first one too short to read,
/// is `sliceable`.
pub open spec fn porcelain_readable_from(fields: Seq<Seq<u8>>, i: int) -> bool
    decreases fields.len() - i,
{
    if i < 0 || i >= fields.len() {
        true
    } else if field_text(fields[i]).len() < 4 {
        true
    } else {
        sliceable(field_text(fields[i])) && porcelain_readable_from(fields, next_field(fields, i))
    }
}

/// `git status --porcelain=v1 -z` output whose entries can be read
/// (`porcelain_readable_from`).
pub open spec fn porcelain_readable(b: Seq<u8>) -> bool {
    porcelain_readable_from(zfields(b), 0)
}

/// The entries that the fields from `i` on describe, or `None` when one of
/// them is too short to hold a status code and a path.
pub open spec fn porcelain_from(fields: Seq<Seq<u8>>, i: int) -> Option<Seq<FileChangeSpec>>
    decreases fields.len() - i,
{
    if i < 0 || i >= fields.len() {
        Some(Seq::empty())
    } else if field_text(fields[i]).len() < 4 {
        None
    } else {
        let g = field_text(fields[i]);
        let kind = change_kind(g[0], g[1]);
        let renamed = kind == ChangeKind::Renamed && i + 1 < fields.len();
        let entry = FileChangeSpec {
            path: decode_utf8(g.skip(3)),
            old_path: if renamed {
                Some(utf8_lossy(fields[i + 1]))
            } else {
                None
            },
            kind,
            staged: g[0] != 0x20 && g[0] != 0x3f,
        };
        match porcelain_from(fields, next_field(fields, i)) {
            Some(rest) => Some(seq![entry] + rest),
            None => None,
        }
    }
}

/// Whether `git status -z` output can be read (`porcelain_readable`), as
/// `parse_porcelain_z` needs.
pub fn is_porcelain_readable(bytes: &[u8]) -> (r: bool)
    ensures
        r == porcelain_readable(bytes@),
{
    let fields = zero_fields(bytes);
    let ghost fs = bviews(fields@);
    let mut i: usize = 0;
    while i < fields.len()
        invariant
            fs == bviews(fields@),
            fs == zfields(bytes@),
            porcelain_readable(bytes@) == porcelain_readable_from(fs, i as int),
        decreases fields.len() - i,
    {
        assert(fs[i as int] == fields@[i as int]@);
        let s = from_utf8_lossy(fields[i].as_slice());
        let t = s.as_str();
        let g = t.as_bytes();
        if g.len() < 4 {
            return true;
        }
        if !(t.is_char_boundary(2) && t.is_char_boundary(3)) {
            return false;
        }
        let renamed = kind_of(g[0], g[1]) == ChangeKind::Renamed && i + 1 < fields.len();
        i = if renamed {
            i + 2
        } else {
            i + 1
        };
    }
    true
}

/// What `git status --porcelain=v1 -z` output describes.
pub open spec fn porcelain(b: Seq<u8>) -> Option<Seq<FileChangeSpec>> {
    porcelain_from(zfields(b), 0)
}

pub open spec fn change_views(v: Seq<FileChange>) -> Seq<FileChangeSpec> {
    v.map_values(|c: FileChange| c@)
}

fn kind_of(x: u8, y: u8) -> (r: ChangeKind)
    ensures
        r == change_kind(x, y),
{
    if x == 0x3f && y == 0x3f {
        ChangeKind::Untracked
    } else if x == 0x55 || y == 0x55 || (x == 0x41 && y == 0x41) || (x == 0x44 && y == 0x44) {
        ChangeKind::Conflicted
    } else if x == 0x52 || y == 0x52 {
        ChangeKind::Renamed
    } else if x == 0x41 || y == 0x41 {
        ChangeKind::Added
    } else if x == 0x44 || y == 0x44 {
        ChangeKind::Deleted
    } else {
        ChangeKind::Modified
    }
}

/// Entry `c` is read from field `i`: its path is the field's text from the
/// fourth byte on, it is staged exactly when the first byte of its status
/// code is neither a space nor `?`, and it is untracked exactly when that
/// code is `??`.
pub open spec fn entry_from_field(fields: Seq<Seq<u8>>, i: int, c: FileChangeSpec) -> bool {
    &&& 0 <= i < fields.len()
    &&& field_text(fields[i]).len() >= 4
    &&& c.path == decode_utf8(field_text(fields[i]).skip(3))
    &&& (c.staged <==> (field_text(fields[i])[0] != 0x20u8 && field_text(fields[i])[0] != 0x3fu8))
    &&& (c.kind == ChangeKind::Untracked <==> (field_text(fields[i])[0] == 0x3fu8 && field_text(
        fields[i],
    )[1] == 0x3fu8))
}

proof fn lemma_porcelain_from_staged(fields: Seq<Seq<u8>>, i: int)
    ensures
        porcelain_from(fields, i) matches Some(cs) ==> forall|k: int|
            0 <= k < cs.len() ==> (cs[k].kind == ChangeKind::Untracked ==> !cs[k].staged) && exists|
                f: int,
            | #[trigger] entry_from_field(fields, f, cs[k]),
    decreases fields.len() - i,
{
    if 0 <= i < fields.len() && field_text(fields[i]).len() >= 4 {
        let nx = next_field(fields, i);
        lemma_porcelain_from_staged(fields, nx);
        if let Some(cs) = porcelain_from(fields, i) {
            let rest = porcelain_from(fields, nx)->0;
            assert(cs == seq![cs[0]] + rest);
            assert forall|k: int| 0 <= k < cs.len() implies (cs[k].kind == ChangeKind::Untracked
                ==> !cs[k].staged) && exists|f: int| #[trigger] entry_from_field(fields, f, cs[k]) by {
                if k == 0 {
                    assert(entry_from_field(fields, i, cs[0]));
                } else {
                    assert(cs[k] == rest[k - 1]);
                }
            }
        }
    }
}

/// Every entry read from `git status --porcelain=v1 -z` output comes from
/// one of its fields (its path from the fourth byte on), and is staged
/// exactly when the first byte of the field's status code is neither a
/// space nor `?`; an untracked entry is never staged.
pub proof fn lemma_porcelain_staged(b: Seq<u8>)
    ensures
        porcelain(b) matches Some(cs) ==> forall|k: int|
            0 <= k < cs.len() ==> (cs[k].kind == ChangeKind::Untracked ==> !cs[k].staged) && exists|
                f: int,
            | #[trigger] entry_from_field(zfields(b), f, cs[k]),
{
    lemma_porcelain_from_staged(zfields(b), 0);
}

/// Reads `git status --porcelain=v1 -z` output (`porcelain`): an error when
/// a field is too short to hold a status code and a path.
pub fn parse_porcelain_z(bytes: &[u8]) -> (r: Result<Vec<FileChange>, String>)
    requires
        porcelain_readable(bytes@),
    ensures
        match r {
            Ok(v) => porcelain(bytes@) == Some(change_views(v@)),
            Err(e) => porcelain(bytes@) is None && e@ == "无效的 git status 输出"@,
        },
{
    let fields = zero_fields(bytes);
    let ghost fs = bviews(fields@);
    let mut result: Vec<FileChange> = Vec::new();
    let mut i: usize = 0;
    assert(change_views(result@) =~= Seq::<FileChangeSpec>::empty());
    assert(porcelain_from(fs, 0) == match porcelain_from(fs, 0) {
        Some(rest) => Some(change_views(result@) + rest),
        None => None::<Seq<FileChangeSpec>>,
    }) by {
        if let Some(rest) = porcelain_from(fs, 0) {
            assert(change_views(result@) + rest =~= rest);
        }
    }
    while i < fields.len()
        invariant
            i <= fields.len(),
            fs == bviews(fields@),
            fs == zfields(bytes@),
            porcelain_readable_from(fs, i as int),
            porcelain_from(fs, 0) == match porcelain_from(fs, i as int) {
                Some(rest) => Some(change_views(result@) + rest),
                None => None::<Seq<FileChangeSpec>>,
            },
        decreases fields.len() - i,
    {
        assert(fs[i as int] == fields@[i as int]@);
        let s = from_utf8_lossy(fields[i].as_slice());
        let t = s.as_str();
        let g = t.as_bytes();
        if g.len() < 4 {
            return Err("无效的 git status 输出".to_owned());
        }
        let kind = kind_of(g[0], g[1]);
        let (_, tail) = t.split_at(3);
        proof {
            vstd::utf8::encode_utf8_decode_utf8(tail@);
            assert(encode_utf8(tail@) =~= g@.skip(3));
        }
        let path = tail.to_owned();
        let renamed = kind == ChangeKind::Renamed && i + 1 < fields.len();
        let old_path = if renamed {
            assert(fs[i + 1] == fields@[i + 1]@);
            Some(from_utf8_lossy(fields[i + 1].as_slice()))
        } else {
            None
        };
        let staged = g[0] != 0x20 && g[0] != 0x3f;
        let entry = FileChange { path, old_path, kind, staged };
        let ghost next: int = if renamed { i + 2 } else { i + 1 };
        proof {
            if let Some(rest) = porcelain_from(fs, next) {
                assert(porcelain_from(fs, i as int) == Some(seq![entry@] + rest));
                assert(change_views(result@.push(entry)) + rest =~= change_views(result@) + (
                seq![entry@] + rest));
            } else {
                assert(porcelain_from(fs, i as int) is None);
            }
        }
        result.push(entry);
        i = if renamed {
            i + 2
        } else {
            i + 1
        };
    }
    assert(porcelain_from(fs, i as int) == Some(Seq::<FileChangeSpec>::empty()));
    assert(change_views(result@) + Seq::<FileChangeSpec>::empty() =~= change_views(result@));
    Ok(result)
}

/// A character kept in a branch slug: ASCII letters and digits stay, every
/// other character becomes `'-'`.
pub open spec fn slug_char(c: char) -> char {
    if is_ascii_alnum(c) {
        c
    } else {
        '-'
    }
}

/// The branch-name slug of a task title: lowercased, runs of other
/// characters collapsed to single dashes, at most five words; `"task"` when
/// nothing is left.
pub open spec fn slug_of(value: Seq<char>) -> Seq<char> {
    let mapped = lower_each(value).map_values(|c: char| slug_char(c));
    let words = nonempty_pieces(split(mapped, '-'));
    let kept = if words.len() > 5 {
        words.take(5)
    } else {
        words
    };
    let s = join(kept, "-"@);
    if s.len() == 0 {
        "task"@
    } else {
        s
    }
}

proof fn lemma_join_empty_iff(parts: Seq<Seq<char>>, sep: Seq<char>)
    requires
        forall|i: int| 0 <= i < parts.len() ==> #[trigger] parts[i].len() > 0,
    ensures
        join(parts, sep).len() == 0 <==> parts.len() == 0,
    decreases parts.len(),
{
    if parts.len() > 1 {
        lemma_join_empty_iff(parts.drop_last(), sep);
        assert(parts.last().len() > 0);
    } else if parts.len() == 1 {
        assert(parts[0].len() > 0);
    }
}

pub fn slug(value: &str) -> (r: String)
    ensures
        r@ == slug_of(value@),
{
    let cs = crate::text::chars_of(value);
    let lowered = lower_each_chars(&cs);
    let mut mapped: Vec<char> = Vec::new();
    let mut i: usize = 0;
    while i < lowered.len()
        invariant
            i <= lowered.len(),
            mapped@ =~= lowered@.take(i as int).map_values(|c: char| slug_char(c)),
        decreases lowered.len() - i,
    {
        let c = lowered[i];
        let k = if ('0' <= c && c <= '9') || ('a' <= c && c <= 'z') || ('A' <= c && c <= 'Z') {
            c
        } else {
            '-'
        };
        mapped.push(k);
        i = i + 1;
    }
    assert(lowered@.take(lowered.len() as int) =~= lowered@);
    let pieces = split_char(&mapped, '-');
    let ghost ps = views(pieces@);
    let mut words: Vec<Vec<char>> = Vec::new();
    let mut j: usize = 0;
    assert(views(words@) =~= Seq::<Seq<char>>::empty());
    assert(ps.take(0) =~= Seq::<Seq<char>>::empty());
    while j < pieces.len()
        invariant
            j <= pieces.len(),
            ps == views(pieces@),
            views(words@) == nonempty_pieces(ps.take(j as int)),
        decreases pieces.len() - j,
    {
        assert(ps.take(j + 1).drop_last() =~= ps.take(j as int));
        assert(ps[j as int] == pieces@[j as int]@);
        if pieces[j].len() > 0 {
            let w = slice_to_vec(pieces[j].as_slice());
            assert(views(words@.push(w)) =~= views(words@).push(w@));
            words.push(w);
        }
        j = j + 1;
    }
    assert(ps.take(pieces.len() as int) =~= ps);
    proof {
        lemma_nonempty_pieces(ps);
    }
    let ghost all = views(words@);
    if words.len() > 5 {
        words.truncate(5);
        assert(views(words@) =~= all.take(5));
    }
    proof {
        assert forall|k: int| 0 <= k < views(words@).len() implies #[trigger] views(words@)[k].len()
            > 0 by {
            assert(views(words@)[k] == all[k]);
        }
        lemma_join_empty_iff(views(words@), "-"@);
    }
    let s = join_with(&words, "-");
    if s.len() == 0 {
        "task".to_owned()
    } else {
        string_of(&s)
    }
}

proof fn lemma_nonempty_pieces(ps: Seq<Seq<char>>)
    ensures
        forall|k: int|
            0 <= k < nonempty_pieces(ps).len() ==> #[trigger] nonempty_pieces(ps)[k].len() > 0,
    decreases ps.len(),
{
    if ps.len() > 0 {
        lemma_nonempty_pieces(ps.drop_last());
        let prev = nonempty_pieces(ps.drop_last());
        assert forall|k: int| 0 <= k < nonempty_pieces(ps).len() implies #[trigger] nonempty_pieces(
            ps,
        )[k].len() > 0 by {
            if k < prev.len() {
                assert(nonempty_pieces(ps)[k] == prev[k]);
            }
        }
    }
}

/// The first (up to) eight bytes of a task id, which name its worktree
/// folder and end its branch name.
pub open spec fn short_id(task_id: Seq<char>) -> Seq<char> {
    let b = encode_utf8(task_id);
    decode_utf8(b.take(if b.len() < 8 {
        b.len() as int
    } else {
        8
    }))
}

/// The branch of a task's worktree: `codex/<slug of the title>-<short id>`.
pub open spec fn task_branch(task_id: Seq<char>, title: Seq<char>) -> Seq<char> {
    "codex/"@ + slug_of(title) + "-"@ + short_id(task_id)
}

/// The branch and folder name of a new task worktree. The id's first eight
/// bytes must end on a character boundary.
pub fn worktree_names(task_id: &str, title: &str) -> (r: (String, String))
    requires
        valid_utf8(
            encode_utf8(task_id@).take(
                if encode_utf8(task_id@).len() < 8 {
                    encode_utf8(task_id@).len() as int
                } else {
                    8
                },
            ),
        ),
    ensures
        r.0@ == task_branch(task_id@, title@),
        r.1@ == short_id(task_id@),
{
    let bytes = task_id.as_bytes();
    let n: usize = if bytes.len() < 8 {
        bytes.len()
    } else {
        8
    };
    let head = slice_subrange(bytes, 0, n);
    assert(head@ =~= encode_utf8(task_id@).take(n as int));
    let short = from_utf8_lossy(head);
    let mut b = chars_of("codex/");
    let sl = slug(title);
    push_str(&mut b, sl.as_str());
    push_str(&mut b, "-");
    push_str(&mut b, short.as_str());
    (string_of(&b), short)
}

/// The error for a task whose branch exists already.
pub fn branch_exists_error(branch: &str) -> (r: String)
    ensures
        r@ == "任务分支已存在："@ + branch@,
{
    let mut e = chars_of("任务分支已存在：");
    push_str(&mut e, branch);
    string_of(&e)
}

/// What one run of `git` gave back: whether it exited with success, and
/// its output and error output.
#[derive(Debug, Clone)]
pub struct GitOutput {
    pub success: bool,
    pub stdout: Vec<u8>,
    pub stderr: Vec<u8>,
}

/// A character that can start a plain path component: no separator and no
/// dot (a component of dots alone means the current or the parent folder).
pub open spec fn plain_component_start(c: char) -> bool {
    c != '/' && c != '\\' && c != '.'
}

/// An absolute path whose first component after the root is a plain name,
/// on every platform: `/name…`, or a drive letter, `:`, a separator and a
/// name (`C:/name…`). Such a path does not end in a root or a prefix.
pub open spec fn absolute_folder(s: Seq<char>) -> bool {
    ||| (s.len() >= 2 && s[0] == '/' && plain_component_start(s[1]))
    ||| (s.len() >= 4 && (('a' <= s[0] && s[0] <= 'z') || ('A' <= s[0] && s[0] <= 'Z'))
        && s[1] == ':' && (s[2] == '/' || s[2] == '\\') && plain_component_start(s[3]))
}

/// A `/`-rooted path with `/` as its only separator, no doubled or
/// trailing separator and no `.` component: its components are the pieces
/// between its slashes on every platform.
pub open spec fn plain_rooted(p: Seq<char>) -> bool {
    &&& p.len() >= 2
    &&& p[0] == '/'
    &&& !has_char(p, '\\')
    &&& p.last() != '/'
    &&& !has_sub(p, "//"@)
    &&& !has_sub(p, "/./"@)
    &&& !ends_with(p, "/."@)
}

/// The text of a `plain_rooted` path up to its last slash, or `/` when that
/// slash is the root.
pub open spec fn rooted_parent(p: Seq<char>) -> Seq<char> {
    match rfind(p, seq!['/']) {
        Some(i) => if i == 0 {
            seq!['/']
        } else {
            p.take(i)
        },
        None => p,
    }
}

/// `Path::parent`: the path without its final component. As its
/// documentation says, the result is shorter than the path; an empty path,
/// or one that ends in a root or a prefix, has none, and any other has one
/// (so an `absolute_folder` has one). The parent is the path's own text cut
/// after an earlier component (then `to_string_lossy`, which keeps text made
/// from a `&str` as it is), so a beginning of the path; for a
/// `plain_rooted` path it ends just before the last slash. Where it ends
/// for other paths, the platform's path rules decide, and that is left
/// unsaid.
#[verifier::external_body]
fn path_parent(p: &str) -> (r: Option<String>)
    ensures
        r matches Some(q) ==> q@.len() < p@.len() && q@ == p@.take(q@.len() as int),
        p@.len() == 0 ==> r is None,
        absolute_folder(p@) ==> r is Some,
        plain_rooted(p@) ==> r is Some,
        r matches Some(q) ==> (plain_rooted(p@) ==> q@ == rooted_parent(p@)),
{
    std::path::Path::new(p).parent().map(|q| q.to_string_lossy().into_owned())
}

impl GitWorkspaceService {
    /// The checkout's top folder, from `git rev-parse --show-toplevel`: its
    /// trimmed output on success, none otherwise.
    pub fn repo_root(out: &GitOutput) -> (r: Option<String>)
        ensures
            match r {
                Some(p) => out.success && p@ == trim(utf8_lossy(out.stdout@)),
                None => !out.success,
            },
    {
        if !out.success {
            return None;
        }
        let text = from_utf8_lossy(out.stdout.as_slice());
        Some(string_of(&trimmed(&chars_of(text.as_str()))))
    }

    /// The primary checkout, also from inside a linked worktree: the parent
    /// of the shared Git folder that `git rev-parse --path-format=absolute
    /// --git-common-dir` prints; none when the command failed. An absolute
    /// folder printed by a successful run always has one.
    pub fn primary_repo_root(out: &GitOutput) -> (r: Option<String>)
        ensures
            !out.success ==> r is None,
            out.success && absolute_folder(trim(utf8_lossy(out.stdout@))) ==> r is Some,
            r matches Some(p) ==> p@.len() < trim(utf8_lossy(out.stdout@)).len() && p@ == trim(
                utf8_lossy(out.stdout@),
            ).take(p@.len() as int),
            out.success && plain_rooted(trim(utf8_lossy(out.stdout@))) ==> (r matches Some(p) && p@
                == rooted_parent(trim(utf8_lossy(out.stdout@)))),
    {
        if !out.success {
            return None;
        }
        let text = from_utf8_lossy(out.stdout.as_slice());
        let dir = string_of(&trimmed(&chars_of(text.as_str())));
        path_parent(dir.as_str())
    }

    /// The working-tree changes that `git status --porcelain=v1 -z` lists
    /// (`porcelain` of its decoded output); its error output when it failed.
    pub fn changes(out: &GitOutput) -> (r: Result<Vec<FileChange>, String>)
        requires
            out.success ==> porcelain_readable(encode_utf8(utf8_lossy(out.stdout@))),
        ensures
            !out.success ==> (r matches Err(e) && e@ == utf8_lossy(out.stderr@)),
            out.success ==> match r {
                Ok(v) => porcelain(encode_utf8(utf8_lossy(out.stdout@))) == Some(change_views(v@)),
                Err(e) => porcelain(encode_utf8(utf8_lossy(out.stdout@))) is None
                    && e@ == "无效的 git status 输出"@,
            },
    {
        if !out.success {
            return Err(from_utf8_lossy(out.stderr.as_slice()));
        }
        let text = from_utf8_lossy(out.stdout.as_slice());
        parse_porcelain_z(text.as_str().as_bytes())
    }

    /// `changes`, where the decoded output can be read
    /// (`porcelain_readable`); none where an entry's status code or path
    /// cannot be cut out of its field.
    pub fn checked_changes(out: &GitOutput) -> (r: Option<Result<Vec<FileChange>, String>>)
        ensures
            r is None <==> (out.success && !porcelain_readable(
                encode_utf8(utf8_lossy(out.stdout@)),
            )),
            r matches Some(x) ==> (!out.success ==> (x matches Err(e) && e@ == utf8_lossy(
                out.stderr@,
            ))),
            r matches Some(x) ==> (out.success ==> match x {
                Ok(v) => porcelain(encode_utf8(utf8_lossy(out.stdout@))) == Some(
                    change_views(v@),
                ),
                Err(e) => porcelain(encode_utf8(utf8_lossy(out.stdout@))) is None && e@
                    == "无效的 git status 输出"@,
            }),
    {
        if out.success {
            let text = from_utf8_lossy(out.stdout.as_slice());
            if !is_porcelain_readable(text.as_str().as_bytes()) {
                return None;
            }
        }
        Some(Self::changes(out))
    }

    /// The arguments of the `git diff` run that shows the changes of the
    /// worktree (or, when `staged`, of the index), for one file or all.
    pub fn diff_args(file: Option<&str>, staged: bool) -> (r: Vec<String>)
        ensures
            sviews(r@) == seq!["diff"@, "--no-ext-diff"@, "--no-color"@] + (if staged {
                seq!["--cached"@]
            } else {
                Seq::empty()
            }) + match file {
                Some(f) => seq!["--"@, f@],
                None => Seq::empty(),
            },
    {
        let mut r: Vec<String> = Vec::new();
        r.push("diff".to_string());
        r.push("--no-ext-diff".to_string());
        r.push("--no-color".to_string());
        if staged {
            r.push("--cached".to_string());
        }
        if let Some(f) = file {
            r.push("--".to_string());
            r.push(f.to_string());
        }
        let ghost want = seq!["diff"@, "--no-ext-diff"@, "--no-color"@] + (if staged {
            seq!["--cached"@]
        } else {
            Seq::empty()
        }) + match file {
            Some(f) => seq!["--"@, f@],
            None => Seq::empty(),
        };
        assert(sviews(r@) =~= want);
        r
    }

    /// What a `git diff` run gives: its decoded output, or its decoded error
    /// output when it failed.
    pub fn diff(out: &GitOutput) -> (r: Result<String, String>)
        ensures
            match r {
                Ok(t) => out.success && t@ == utf8_lossy(out.stdout@),
                Err(e) => !out.success && e@ == utf8_lossy(out.stderr@),
            },
    {
        if out.success {
            Ok(from_utf8_lossy(out.stdout.as_slice()))
        } else {
            Err(from_utf8_lossy(out.stderr.as_slice()))
        }
    }

    /// The result of `git add -- <file>`: its error output when it failed.
    pub fn stage(out: &GitOutput) -> (r: Result<(), String>)
        ensures
            match r {
                Ok(_) => out.success,
                Err(e) => !out.success && e@ == utf8_lossy(out.stderr@),
            },
    {
        written(out)
    }

    /// The result of `git restore --staged -- <file>`: its error output when
    /// it failed.
    pub fn unstage(out: &GitOutput) -> (r: Result<(), String>)
        ensures
            match r {
                Ok(_) => out.success,
                Err(e) => !out.success && e@ == utf8_lossy(out.stderr@),
            },
    {
        written(out)
    }
}

fn written(out: &GitOutput) -> (r: Result<(), String>)
    ensures
        match r {
            Ok(_) => out.success,
            Err(e) => !out.success && e@ == utf8_lossy(out.stderr@),
        },
{
    if out.success {
        Ok(())
    } else {
        Err(from_utf8_lossy(out.stderr.as_slice()))
    }
}

} // verus!
