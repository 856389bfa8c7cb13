//! The model catalog of `~/.grok/config.toml` and the edit that sets its
//! default model.

use vstd::prelude::*;
use vstd::slice::{slice_subrange, slice_to_vec};
use crate::build::events::{ModelChoice, ModelChoiceView, model_views};
use crate::text::{
    chars_eq, chars_of, ends_with, eq_str, find_char, find_char_from, find_first, first_at, has_char,
    lemma_find_char_bounds, lines, lines_of, push_chars, trim_start, trimmed_start,
    push_str, push_string, starts_with, starts_with_str, string_of, sviews, trim, trimmed, views,
    is_ws, occurs_at, split_acc, strip_cr, trim_end,
};

verus! {

/// The models of the config file, its default, and the `env_key` names its
/// models refer to.
#[derive(Debug, Clone)]
pub struct ConfigModels {
    pub default_id: Option<String>,
    pub models: Vec<ModelChoice>,
    /// Distinct `env_key` names referenced by `[model.*]` entries.
    pub env_keys: Vec<String>,
}

pub struct ConfigView {
    pub default_id: Option<Seq<char>>,
    pub models: Seq<ModelChoiceView>,
    pub env_keys: Seq<Seq<char>>,
}

pub open spec fn opt_chars(o: Option<String>) -> Option<Seq<char>> {
    match o {
        Some(s) => Some(s@),
        None => None,
    }
}

impl View for ConfigModels {
    type V = ConfigView;

    open spec fn view(&self) -> ConfigView {
        ConfigView {
            default_id: opt_chars(self.default_id),
            models: model_views(self.models@),
            env_keys: sviews(self.env_keys@),
        }
    }
}

impl Default for ConfigModels {
    fn default() -> (r: Self)
        ensures
            r@.default_id is None,
            r@.models.len() == 0,
            r@.env_keys.len() == 0,
    {
        let r = ConfigModels { default_id: None, models: Vec::new(), env_keys: Vec::new() };
        assert(r@.models =~= Seq::<ModelChoiceView>::empty());
        assert(r@.env_keys =~= Seq::<Seq<char>>::empty());
        r
    }
}

/// `s` with every occurrence of `p` replaced by `w`, scanning from the left
/// (`str::replace`).
pub open spec fn replace_all(s: Seq<char>, p: Seq<char>, w: Seq<char>) -> Seq<char>
    decreases s.len(),
{
    if s.len() == 0 {
        s
    } else if p.len() > 0 && starts_with(s, p) {
        w + replace_all(s.skip(p.len() as int), p, w)
    } else {
        seq![s[0]] + replace_all(s.drop_first(), p, w)
    }
}

/// `str::replace` on a character sequence.
pub fn replace_chars(s: &[char], p: &str, w: &str) -> (r: Vec<char>)
    ensures
        r@ == replace_all(s@, p@, w@),
{
    let pv = chars_of(p);
    let mut out: Vec<char> = Vec::new();
    let mut i: usize = 0;
    assert(s@.skip(0) =~= s@);
    assert(out@ + replace_all(s@.skip(0), p@, w@) =~= replace_all(s@, p@, w@));
    while i < s.len()
        invariant
            i <= s.len(),
            pv@ == p@,
            out@ + replace_all(s@.skip(i as int), p@, w@) == replace_all(s@, p@, w@),
        decreases s.len() - i,
    {
        let ghost rest = s@.skip(i as int);
        if pv.len() > 0 && crate::text::matches_at(s, &pv, i) {
            assert(starts_with(rest, p@)) by {
                assert(rest.subrange(0, p@.len() as int) =~= s@.subrange(i as int, i + p@.len()));
            }
            assert(rest.skip(p@.len() as int) =~= s@.skip(i + p@.len()));
            let ghost before = out@;
            push_str(&mut out, w);
            assert(out@ + replace_all(s@.skip(i + p@.len()), p@, w@) =~= before + replace_all(
                rest,
                p@,
                w@,
            ));
            i = i + pv.len();
        } else {
            proof {
                if pv@.len() > 0 && starts_with(rest, p@) {
                    assert(rest.subrange(0, p@.len() as int) =~= s@.subrange(
                        i as int,
                        i + p@.len(),
                    ));
                }
            }
            assert(rest.drop_first() =~= s@.skip(i + 1));
            let ghost before = out@;
            out.push(s[i]);
            assert(out@ + replace_all(s@.skip(i + 1), p@, w@) =~= before + replace_all(rest, p@, w@));
            i = i + 1;
        }
    }
    assert(s@.skip(i as int).len() == 0);
    assert(out@ + replace_all(s@.skip(i as int), p@, w@) =~= out@);
    out
}

/// A quoted value stands between the same quote characters on each side.
pub open spec fn quoted(v: Seq<char>) -> bool {
    (starts_with(v, seq!['"']) && ends_with(v, seq!['"'])) || (starts_with(v, seq!['\''])
        && ends_with(v, seq!['\'']))
}

/// A value that is one quote character alone, which the slicing of a
/// quoted value cannot take.
pub open spec fn lone_quote(v: Seq<char>) -> bool {
    trim(v).len() == 1 && quoted(trim(v))
}

/// The value of a `key = value` line: a quoted value without its quotes
/// and with `\"` and `\\` unescaped; a bare value up to a `#` comment,
/// trimmed.
pub open spec fn toml_value(value: Seq<char>) -> Seq<char> {
    let v = trim(value);
    if quoted(v) {
        replace_all(
            replace_all(v.subrange(1, v.len() - 1), seq!['\\', '"'], seq!['"']),
            seq!['\\', '\\'],
            seq!['\\'],
        )
    } else {
        trim(
            match find_char_from(v, '#', 0) {
                Some(i) => v.take(i),
                None => v,
            },
        )
    }
}

proof fn lemma_ends(s: Seq<char>, c: char)
    ensures
        s.len() > 0 ==> (starts_with(s, seq![c]) <==> s[0] == c),
        s.len() > 0 ==> (ends_with(s, seq![c]) <==> s[s.len() - 1] == c),
{
    if s.len() > 0 {
        if s[0] == c {
            assert(s.subrange(0, 1) =~= seq![c]);
        }
        if starts_with(s, seq![c]) {
            assert(s.subrange(0, 1)[0] == s[0]);
        }
        if s[s.len() - 1] == c {
            assert(s.subrange(s.len() - 1, s.len() as int) =~= seq![c]);
        }
        if ends_with(s, seq![c]) {
            assert(s.subrange(s.len() - 1, s.len() as int)[0] == s[s.len() - 1]);
        }
    }
}

/// The value of a `key = value` line (`toml_value`).
pub fn trim_toml_string(value: &str) -> (r: String)
    requires
        !lone_quote(value@),
    ensures
        r@ == toml_value(value@),
{
    let v = trimmed(&chars_of(value));
    let dq = v.len() > 0 && v[0] == '"' && v[v.len() - 1] == '"';
    let sq = v.len() > 0 && v[0] == '\'' && v[v.len() - 1] == '\'';
    proof {
        lemma_ends(v@, '"');
        lemma_ends(v@, '\'');
    }
    if dq || sq {
        let inner = slice_to_vec(slice_subrange(v.as_slice(), 1, v.len() - 1));
        assert(inner@ =~= v@.subrange(1, v@.len() - 1));
        let a = replace_chars(&inner, "\\\"", "\"");
        let b = replace_chars(&a, "\\\\", "\\");
        proof {
            reveal_strlit("\\\"");
            reveal_strlit("\"");
            reveal_strlit("\\\\");
            reveal_strlit("\\");
            assert("\\\""@ =~= seq!['\\', '"']);
            assert("\""@ =~= seq!['"']);
            assert("\\\\"@ =~= seq!['\\', '\\']);
            assert("\\"@ =~= seq!['\\']);
        }
        string_of(&b)
    } else {
        let head: Vec<char> = match find_char(&v, '#') {
            Some(i) => {
                let h = slice_to_vec(slice_subrange(v.as_slice(), 0, i));
                assert(h@ =~= v@.take(i as int));
                h
            },
            None => v,
        };
        string_of(&trimmed(&head))
    }
}

/// The section that the lines are in.
#[derive(Debug, Clone, Copy, PartialEq, Eq, Structural)]
pub enum Section {
    /// `[model.<id>]`
    Model,
    /// `[models]`
    Models,
}

/// The state of a left-to-right read of the config: what was read so far,
/// the section, and the fields of the `[model.*]` entry being read.
pub struct CatState {
    pub out: ConfigView,
    pub section: Option<Section>,
    pub id: Option<Seq<char>>,
    pub name: Option<Seq<char>>,
    pub env: Option<Seq<char>>,
    pub base: Option<Seq<char>>,
}

pub open spec fn init_state() -> CatState {
    CatState {
        out: ConfigView { default_id: None, models: Seq::empty(), env_keys: Seq::empty() },
        section: None,
        id: None,
        name: None,
        env: None,
        base: None,
    }
}

/// The entry being read, added to the models: its name defaults to its id;
/// its description is its `base_url`, then `env:<key>`; its `env_key` is
/// recorded once. The entry's fields are cleared.
pub open spec fn flush(st: CatState) -> CatState {
    match st.id {
        Some(id) => {
            let name = match st.name {
                Some(n) => n,
                None => id,
            };
            let base = match st.base {
                Some(b) => b,
                None => Seq::empty(),
            };
            let description = match st.env {
                Some(e) => (if base.len() > 0 {
                    base + " · "@
                } else {
                    base
                }) + "env:"@ + e,
                None => base,
            };
            let keys = match st.env {
                Some(e) => if st.out.env_keys.contains(e) {
                    st.out.env_keys
                } else {
                    st.out.env_keys.push(e)
                },
                None => st.out.env_keys,
            };
            CatState {
                out: ConfigView {
                    default_id: st.out.default_id,
                    models: st.out.models.push(ModelChoiceView { id, name, description }),
                    env_keys: keys,
                },
                section: st.section,
                id: None,
                name: None,
                env: None,
                base: None,
            }
        },
        None => CatState { id: None, name: None, env: None, base: None, ..st },
    }
}

/// A `[header]` line.
pub open spec fn is_header(t: Seq<char>) -> bool {
    starts_with(t, seq!['[']) && ends_with(t, seq![']'])
}

/// The state after one line: blank lines and comments change nothing; a
/// header ends the entry being read and opens a section; a `key = value`
/// line sets the default (in `[models]`) or a field of the entry (in
/// `[model.*]`); an inline `api_key` counts as a credential.
pub open spec fn step(st: CatState, raw: Seq<char>) -> CatState {
    let line = trim(raw);
    if line.len() == 0 || starts_with(line, seq!['#']) {
        st
    } else if is_header(line) {
        let f = flush(st);
        let name = line.subrange(1, line.len() - 1);
        if starts_with(name, "model."@) {
            CatState {
                section: Some(Section::Model),
                id: Some(trim(name.skip("model."@.len() as int))),
                ..f
            }
        } else if name == "models"@ {
            CatState { section: Some(Section::Models), ..f }
        } else {
            CatState { section: None, ..f }
        }
    } else {
        match find_char_from(line, '=', 0) {
            None => st,
            Some(i) => {
                let key = trim(line.take(i));
                let value = toml_value(trim(line.skip(i + 1)));
                match st.section {
                    Some(Section::Models) => if key == "default"@ {
                        CatState {
                            out: ConfigView { default_id: Some(value), ..st.out },
                            ..st
                        }
                    } else {
                        st
                    },
                    Some(Section::Model) => if key == "name"@ {
                        CatState { name: Some(value), ..st }
                    } else if key == "env_key"@ {
                        CatState { env: Some(value), ..st }
                    } else if key == "base_url"@ {
                        CatState { base: Some(value), ..st }
                    } else if key == "api_key"@ && value.len() > 0 && st.env is None {
                        CatState { env: Some("__inline_api_key__"@), ..st }
                    } else {
                        st
                    },
                    None => st,
                }
            },
        }
    }
}

pub open spec fn run(st: CatState, ls: Seq<Seq<char>>) -> CatState
    decreases ls.len(),
{
    if ls.len() == 0 {
        st
    } else {
        step(run(st, ls.drop_last()), ls.last())
    }
}

/// The catalog that the config text describes: the state after all lines
/// and a final flush; with no `default`, the first model is the default.
pub open spec fn catalog_of(text: Seq<char>) -> ConfigView {
    let o = flush(run(init_state(), lines(text))).out;
    if o.default_id is None && o.models.len() > 0 {
        ConfigView { default_id: Some(o.models[0].id), ..o }
    } else {
        o
    }
}

/// No `key = value` line of the text has a lone quote for its value.
pub open spec fn values_readable(text: Seq<char>) -> bool {
    forall|k: int|
        0 <= k < lines(text).len() ==> {
            let t = trim(#[trigger] lines(text)[k]);
            (t.len() > 0 && !starts_with(t, seq!['#']) && !is_header(t)) ==> match find_char_from(
                t,
                '=',
                0,
            ) {
                Some(i) => !lone_quote(trim(t.skip(i + 1))),
                None => true,
            }
        }
}

pub open spec fn opt_seq(o: Option<Vec<char>>) -> Option<Seq<char>> {
    match o {
        Some(v) => Some(v@),
        None => None,
    }
}

struct ParseState {
    out: ConfigModels,
    section: Option<Section>,
    id: Option<Vec<char>>,
    name: Option<Vec<char>>,
    env: Option<Vec<char>>,
    base: Option<Vec<char>>,
}

impl View for ParseState {
    type V = CatState;

    closed spec fn view(&self) -> CatState {
        CatState {
            out: self.out@,
            section: self.section,
            id: opt_seq(self.id),
            name: opt_seq(self.name),
            env: opt_seq(self.env),
            base: opt_seq(self.base),
        }
    }
}

fn strings_contain(v: &Vec<String>, x: &[char]) -> (r: bool)
    ensures
        r == sviews(v@).contains(x@),
{
    let mut i: usize = 0;
    while i < v.len()
        invariant
            i <= v.len(),
            forall|k: int| 0 <= k < i ==> #[trigger] sviews(v@)[k] != x@,
        decreases v.len() - i,
    {
        assert(sviews(v@)[i as int] == v@[i as int]@);
        if chars_eq(&chars_of(v[i].as_str()), x) {
            return true;
        }
        i = i + 1;
    }
    false
}

fn copy_chars(v: &[char]) -> (r: Vec<char>)
    ensures
        r@ == v@,
{
    slice_to_vec(v)
}

fn flush_state(st: &mut ParseState)
    ensures
        final(st)@ == flush(old(st)@),
{
    let ghost old_v = st@;
    match &st.id {
        Some(id) => {
            let id_c = copy_chars(id.as_slice());
            let name: Vec<char> = match &st.name {
                Some(n) => copy_chars(n.as_slice()),
                None => copy_chars(id.as_slice()),
            };
            let mut description: Vec<char> = match &st.base {
                Some(b) => copy_chars(b.as_slice()),
                None => Vec::new(),
            };
            match &st.env {
                Some(e) => {
                    if !strings_contain(&st.out.env_keys, e.as_slice()) {
                        push_string(&mut st.out.env_keys, e.as_slice());
                    }
                    if description.len() > 0 {
                        push_str(&mut description, " · ");
                    }
                    push_str(&mut description, "env:");
                    push_chars(&mut description, e.as_slice());
                },
                None => {},
            }
            let m = ModelChoice {
                id: string_of(&id_c),
                name: string_of(&name),
                description: string_of(&description),
            };
            let ghost before = model_views(st.out.models@);
            st.out.models.push(m);
            assert(model_views(st.out.models@) =~= before.push(m@));
        },
        None => {},
    }
    st.id = None;
    st.name = None;
    st.env = None;
    st.base = None;
    proof {
        let f = flush(old_v);
        assert(st@.out.models == f.out.models);
        assert(st@.out.env_keys == f.out.env_keys);
    }
}

fn step_state(st: &mut ParseState, raw: &[char])
    requires
        ({
            let t = trim(raw@);
            (t.len() > 0 && !starts_with(t, seq!['#']) && !is_header(t)) ==> match find_char_from(
                t,
                '=',
                0,
            ) {
                Some(i) => !lone_quote(trim(t.skip(i + 1))),
                None => true,
            }
        }),
    ensures
        final(st)@ == step(old(st)@, raw@),
{
    let line = trimmed(raw);
    proof {
        lemma_ends(line@, '#');
        lemma_ends(line@, '[');
        lemma_ends(line@, ']');
    }
    if line.len() == 0 || line[0] == '#' {
        return;
    }
    if line[0] == '[' && line[line.len() - 1] == ']' {
        flush_state(st);
        let name = slice_to_vec(slice_subrange(line.as_slice(), 1, line.len() - 1));
        assert(name@ =~= line@.subrange(1, line@.len() - 1));
        if starts_with_str(&name, "model.") {
            let m = chars_of("model.");
            let rest = slice_to_vec(slice_subrange(name.as_slice(), m.len(), name.len()));
            assert(rest@ =~= name@.skip("model."@.len() as int));
            st.section = Some(Section::Model);
            st.id = Some(trimmed(&rest));
        } else if eq_str(&name, "models") {
            st.section = Some(Section::Models);
        } else {
            st.section = None;
        }
        return;
    }
    match find_char(&line, '=') {
        None => {},
        Some(i) => {
            let k = slice_to_vec(slice_subrange(line.as_slice(), 0, i));
            assert(k@ =~= line@.take(i as int));
            let key = trimmed(&k);
            let v = slice_to_vec(slice_subrange(line.as_slice(), i + 1, line.len()));
            assert(v@ =~= line@.skip(i + 1));
            let vt = trimmed(&v);
            let value_s = trim_toml_string(string_of(&vt).as_str());
            let value = chars_of(value_s.as_str());
            match st.section {
                Some(Section::Models) => {
                    if eq_str(&key, "default") {
                        st.out.default_id = Some(value_s);
                    }
                },
                Some(Section::Model) => {
                    if eq_str(&key, "name") {
                        st.name = Some(value);
                    } else if eq_str(&key, "env_key") {
                        st.env = Some(value);
                    } else if eq_str(&key, "base_url") {
                        st.base = Some(value);
                    } else if eq_str(&key, "api_key") && value.len() > 0 && st.env.is_none() {
                        st.env = Some(chars_of("__inline_api_key__"));
                    }
                },
                None => {},
            }
        },
    }
}

/// Reads the model catalog of the config text (`catalog_of`); no secret is
/// kept, only whether a model has an inline key. No `key = value` line may
/// hold a lone quote character for its value.
pub fn parse_models_catalog(text: &str) -> (r: ConfigModels)
    requires
        values_readable(text@),
    ensures
        r@ == catalog_of(text@),
{
    let ls = lines_of(&chars_of(text));
    let ghost lv = views(ls@);
    let mut st = ParseState {
        out: ConfigModels::default(),
        section: None,
        id: None,
        name: None,
        env: None,
        base: None,
    };
    assert(st@ == init_state()) by {
        assert(st@.out.models =~= Seq::<ModelChoiceView>::empty());
        assert(st@.out.env_keys =~= Seq::<Seq<char>>::empty());
    }
    let mut i: usize = 0;
    assert(lv.take(0) =~= Seq::<Seq<char>>::empty());
    while i < ls.len()
        invariant
            i <= ls.len(),
            lv == views(ls@),
            lv == lines(text@),
            values_readable(text@),
            st@ == run(init_state(), lv.take(i as int)),
        decreases ls.len() - i,
    {
        assert(lv.take(i + 1).drop_last() =~= lv.take(i as int));
        assert(lv[i as int] == ls@[i as int]@);
        step_state(&mut st, ls[i].as_slice());
        i = i + 1;
    }
    assert(lv.take(ls.len() as int) =~= lv);
    flush_state(&mut st);
    let mut out = st.out;
    if out.default_id.is_none() && out.models.len() > 0 {
        assert(model_views(out.models@)[0] == out.models@[0]@);
        out.default_id = Some(out.models[0].id.clone());
    }
    out
}

/// The line without the `\r` and `\n` characters that end it.
pub open spec fn trim_newlines(l: Seq<char>) -> Seq<char>
    decreases l.len(),
{
    if l.len() > 0 && (l.last() == '\r' || l.last() == '\n') {
        trim_newlines(l.drop_last())
    } else {
        l
    }
}

/// The end of the line that starts at `off`: past its `\n`, or the end of
/// the text.
pub open spec fn line_end(s: Seq<char>, off: int) -> int {
    match find_char_from(s, '\n', off) {
        Some(j) => j + 1,
        None => s.len() as int,
    }
}

/// The span of the first `default = …` line from `off` on: from its first
/// non-blank character to its end without the line break.
pub open spec fn default_line_from(s: Seq<char>, off: int) -> Option<(int, int)>
    decreases s.len() - off,
{
    if off < 0 || off >= s.len() {
        None
    } else {
        let e = line_end(s, off);
        let line = s.subrange(off, e);
        let t = trim_start(line);
        if starts_with(t, "default"@) && has_char(t, '=') && !starts_with(t, seq!['#']) {
            Some((off + (line.len() - t.len()), off + trim_newlines(line).len()))
        } else if e <= off || e > s.len() {
            None
        } else {
            default_line_from(s, e)
        }
    }
}

fn find_char_at(s: &[char], c: char, from: usize) -> (r: Option<usize>)
    ensures
        match r {
            Some(j) => find_char_from(s@, c, from as int) == Some(j as int) && j < s.len(),
            None => find_char_from(s@, c, from as int) is None,
        },
{
    let mut i = from;
    while i < s.len()
        invariant
            from <= i,
            find_char_from(s@, c, from as int) == find_char_from(s@, c, i as int),
        decreases s.len() - i,
    {
        if s[i] == c {
            return Some(i);
        }
        i = i + 1;
    }
    None
}

fn newline_trimmed_len(l: &[char]) -> (n: usize)
    ensures
        n == trim_newlines(l@).len(),
        n <= l.len(),
{
    let mut n = l.len();
    assert(l@.take(n as int) =~= l@);
    while n > 0 && (l[n - 1] == '\r' || l[n - 1] == '\n')
        invariant
            n <= l.len(),
            trim_newlines(l@) == trim_newlines(l@.take(n as int)),
        decreases n,
    {
        assert(l@.take(n as int).drop_last() =~= l@.take(n - 1));
        n = n - 1;
    }
    n
}

/// The span of the first `default = …` line of the section
/// (`default_line_from`), in characters.
fn find_default_line(section: &[char]) -> (r: Option<(usize, usize)>)
    ensures
        match r {
            Some(p) => default_line_from(section@, 0) == Some((p.0 as int, p.1 as int)) && p.0
                <= section.len() && p.1 <= section.len(),
            None => default_line_from(section@, 0) is None,
        },
{
    let mut off: usize = 0;
    while off < section.len()
        invariant
            off <= section.len(),
            default_line_from(section@, 0) == default_line_from(section@, off as int),
        decreases section.len() - off,
    {
        let e: usize = match find_char_at(section, '\n', off) {
            Some(j) => j + 1,
            None => section.len(),
        };
        proof {
            lemma_find_char_bounds(section@, '\n', off as int);
        }
        assert(e as int == line_end(section@, off as int));
        let line = slice_to_vec(slice_subrange(section, off, e));
        let t = trimmed_start(&line);
        if starts_with_str(&t, "default") && crate::text::contains_char(&t, '=') && !(t.len() > 0
            && t[0] == '#') {
            proof {
                lemma_ends(t@, '#');
                assert(trim_start(line@).len() <= line@.len()) by {
                    lemma_trim_start_len(line@);
                }
            }
            let n = newline_trimmed_len(&line);
            return Some((off + (line.len() - t.len()), off + n));
        }
        proof {
            lemma_ends(t@, '#');
        }
        off = e;
    }
    None
}

proof fn lemma_trim_start_len(s: Seq<char>)
    ensures
        trim_start(s).len() <= s.len(),
    decreases s.len(),
{
    if s.len() > 0 && crate::text::is_ws(s[0]) {
        lemma_trim_start_len(s.drop_first());
    }
}

/// The model id escaped for a TOML basic string.
pub open spec fn escaped_id(id: Seq<char>) -> Seq<char> {
    replace_all(replace_all(id, seq!['\\'], seq!['\\', '\\']), seq!['"'], seq!['\\', '"'])
}

/// The config text with `[models] default` set to `id`: an existing
/// `default` line of the `[models]` section is replaced; else the line is
/// put right after `[models]`; with no `[models]` section, one is appended.
#[verifier::opaque]
pub open spec fn with_default(text: Seq<char>, id: Seq<char>) -> Seq<char> {
    let nl = "default = \""@ + escaped_id(id) + seq!['"'];
    match first_at(text, "[models]"@) {
        Some(idx) => {
            let at = idx + "[models]"@.len();
            let end = match first_at(text.skip(at), "\n["@) {
                Some(i) => at + i,
                None => text.len() as int,
            };
            match default_line_from(text.subrange(idx, end), 0) {
                Some(p) => text.take(idx + p.0) + nl + text.skip(idx + p.1),
                None => text.take(at) + seq!['\n'] + nl + (if starts_with(text.skip(at), seq!['\n']) {
                    Seq::empty()
                } else {
                    seq!['\n']
                }) + text.skip(at),
            }
        },
        None => (if text.len() > 0 && !ends_with(text, seq!['\n']) {
            text.push('\n')
        } else {
            text
        }) + "\n[models]\n"@ + nl + seq!['\n'],
    }
}

fn piece(s: &[char], a: usize, b: usize) -> (r: Vec<char>)
    requires
        a <= b <= s.len(),
    ensures
        r@ == s@.subrange(a as int, b as int),
{
    slice_to_vec(slice_subrange(s, a, b))
}

fn default_line_for(model_id: &str) -> (r: Vec<char>)
    ensures
        r@ == "default = \""@ + escaped_id(model_id@) + seq!['"'],
{
    let id = chars_of(model_id);
    let e1 = replace_chars(&id, "\\", "\\\\");
    let esc = replace_chars(&e1, "\"", "\\\"");
    proof {
        reveal_strlit("\\\"");
        reveal_strlit("\"");
        reveal_strlit("\\\\");
        reveal_strlit("\\");
        assert("\\\""@ =~= seq!['\\', '"']);
        assert("\""@ =~= seq!['"']);
        assert("\\\\"@ =~= seq!['\\', '\\']);
        assert("\\"@ =~= seq!['\\']);
    }
    let mut nl = chars_of("default = \"");
    push_chars(&mut nl, &esc);
    nl.push('"');
    assert(nl@ =~= "default = \""@ + escaped_id(model_id@) + seq!['"']);
    nl
}

fn append_models_section(t: &Vec<char>, nl: &Vec<char>) -> (r: Vec<char>)
    ensures
        r@ == (if t@.len() > 0 && !ends_with(t@, seq!['\n']) {
            t@.push('\n')
        } else {
            t@
        }) + "\n[models]\n"@ + nl@ + seq!['\n'],
{
    let mut out = slice_to_vec(t.as_slice());
    proof {
        lemma_ends(t@, '\n');
    }
    if t.len() > 0 && t[t.len() - 1] != '\n' {
        out.push('\n');
    }
    let ghost base = out@;
    push_str(&mut out, "\n[models]\n");
    push_chars(&mut out, nl);
    out.push('\n');
    assert(out@ =~= base + "\n[models]\n"@ + nl@ + seq!['\n']);
    out
}

#[verifier::rlimit(80)]
#[verifier::spinoff_prover]
fn edit_models_section(t: &Vec<char>, idx: usize, nl: &Vec<char>) -> (r: Vec<char>)
    requires
        idx + "[models]"@.len() <= t@.len(),
    ensures
        ({
            let at = idx + "[models]"@.len();
            let end = match first_at(t@.skip(at), "\n["@) {
                Some(i) => at + i,
                None => t@.len() as int,
            };
            r@ == match default_line_from(t@.subrange(idx as int, end), 0) {
                Some(p) => t@.take(idx + p.0) + nl@ + t@.skip(idx + p.1),
                None => t@.take(at) + seq!['\n'] + nl@ + (if starts_with(t@.skip(at), seq!['\n']) {
                    Seq::empty()
                } else {
                    seq!['\n']
                }) + t@.skip(at),
            }
        }),
{
    let header = chars_of("[models]");
    let tl = t.len();
    assert(header@.len() == "[models]"@.len());
    assert(idx + header@.len() <= tl);
    let at = idx + header.len();
    let after = piece(t, at, t.len());
    assert(after@ =~= t@.skip(at as int));
    let brk = chars_of("\n[");
    let end: usize = match find_first(&after, &brk) {
        Some(i) => at + i,
        None => t.len(),
    };
    let section = piece(t, idx, end);
    match find_default_line(&section) {
        Some((a, b)) => {
            let mut out = piece(t, 0, idx + a);
            push_chars(&mut out, nl);
            let tail = piece(t, idx + b, t.len());
            push_chars(&mut out, &tail);
            assert(out@ =~= t@.take(idx + a) + nl@ + t@.skip(idx + b));
            out
        },
        None => {
            let mut out = piece(t, 0, at);
            out.push('\n');
            push_chars(&mut out, nl);
            let starts_nl = after.len() > 0 && after[0] == '\n';
            proof {
                lemma_ends(after@, '\n');
            }
            if !starts_nl {
                out.push('\n');
            }
            push_chars(&mut out, &after);
            assert(out@ =~= t@.take(at as int) + seq!['\n'] + nl@ + (if starts_with(
                t@.skip(at as int),
                seq!['\n'],
            ) {
                Seq::empty()
            } else {
                seq!['\n']
            }) + t@.skip(at as int));
            out
        },
    }
}

/// The config text with its default model set to `model_id`
/// (`with_default`); writing it back is the caller's.
pub fn with_default_model(text: &str, model_id: &str) -> (r: String)
    ensures
        r@ == with_default(text@, model_id@),
{
    reveal(with_default);
    let t = chars_of(text);
    let nl = default_line_for(model_id);
    let header = chars_of("[models]");
    let out = match find_first(&t, &header) {
        Some(idx) => edit_models_section(&t, idx, &nl),
        None => append_models_section(&t, &nl),
    };
    string_of(&out)
}

proof fn lemma_replace_absent(s: Seq<char>, p: Seq<char>, w: Seq<char>)
    requires
        p.len() > 0,
        !has_char(s, p[0]),
    ensures
        replace_all(s, p, w) == s,
    decreases s.len(),
{
    if s.len() > 0 {
        assert(s[0] != p[0]);
        assert(!starts_with(s, p)) by {
            if starts_with(s, p) {
                assert(s.subrange(0, p.len() as int)[0] == s[0]);
            }
        }
        assert forall|i: int| 0 <= i < s.drop_first().len() implies s.drop_first()[i] != p[0] by {
            assert(s.drop_first()[i] == s[i + 1]);
        }
        lemma_replace_absent(s.drop_first(), p, w);
        assert(seq![s[0]] + s.drop_first() =~= s);
    }
}

proof fn lemma_split_no_newline(p: Seq<char>)
    requires
        !has_char(p, '\n'),
    ensures
        split_acc(p, '\n') == (Seq::<Seq<char>>::empty(), p),
    decreases p.len(),
{
    if p.len() > 0 {
        assert(p.last() == p[p.len() - 1]);
        assert forall|i: int| 0 <= i < p.drop_last().len() implies p.drop_last()[i] != '\n' by {
            assert(p.drop_last()[i] == p[i]);
        }
        lemma_split_no_newline(p.drop_last());
        assert(p.drop_last().push(p.last()) =~= p);
    }
}

proof fn lemma_split_line(p: Seq<char>)
    requires
        !has_char(p, '\n'),
    ensures
        split_acc(p.push('\n'), '\n') == (seq![p], Seq::<char>::empty()),
{
    lemma_split_no_newline(p);
    assert(p.push('\n').drop_last() =~= p);
    assert(Seq::<Seq<char>>::empty().push(p) =~= seq![p]);
}

proof fn lemma_split_concat(x: Seq<char>, y: Seq<char>)
    requires
        split_acc(x, '\n').1.len() == 0,
    ensures
        split_acc(x + y, '\n').0 == split_acc(x, '\n').0 + split_acc(y, '\n').0,
        split_acc(x + y, '\n').1 == split_acc(y, '\n').1,
    decreases y.len(),
{
    if y.len() == 0 {
        assert(x + y =~= x);
        assert(split_acc(x, '\n').0 + split_acc(y, '\n').0 =~= split_acc(x, '\n').0);
        assert(split_acc(x, '\n').1 =~= split_acc(y, '\n').1);
    } else {
        lemma_split_concat(x, y.drop_last());
        assert((x + y).drop_last() =~= x + y.drop_last());
        assert((x + y).last() == y.last());
        let a = split_acc(x, '\n').0;
        let q = split_acc(y.drop_last(), '\n');
        assert((a + q.0).push(q.1) =~= a + q.0.push(q.1));
    }
}

proof fn lemma_run_concat(st: CatState, a: Seq<Seq<char>>, b: Seq<Seq<char>>)
    ensures
        run(st, a + b) == run(run(st, a), b),
    decreases b.len(),
{
    if b.len() == 0 {
        assert(a + b =~= a);
    } else {
        lemma_run_concat(st, a, b.drop_last());
        assert((a + b).drop_last() =~= a + b.drop_last());
        assert((a + b).last() == b.last());
    }
}

proof fn lemma_trim_keeps(s: Seq<char>)
    requires
        s.len() > 0,
        !is_ws(s[0]),
        !is_ws(s.last()),
    ensures
        trim(s) == s,
{
}

/// The `default = "…"` line that `with_default` writes for `id`.
pub open spec fn default_line(id: Seq<char>) -> Seq<char> {
    "default = \""@ + escaped_id(id) + seq!['"']
}

/// The text before an appended `[models]` section: the text with its last
/// line ended.
pub open spec fn ended_text(text: Seq<char>) -> Seq<char> {
    if text.len() > 0 && !ends_with(text, seq!['\n']) {
        text.push('\n')
    } else {
        text
    }
}

/// How `escaped_id` writes one character.
pub open spec fn escaped_char(c: char) -> Seq<char> {
    if c == '\\' {
        seq!['\\', '\\']
    } else if c == '"' {
        seq!['\\', '"']
    } else {
        seq![c]
    }
}

/// Replacing a one-character pattern works character by character.
#[verifier::spinoff_prover]
proof fn lemma_replace_char_concat(x: Seq<char>, y: Seq<char>, c: char, w: Seq<char>)
    ensures
        replace_all(x + y, seq![c], w) == replace_all(x, seq![c], w) + replace_all(y, seq![c], w),
    decreases x.len(),
{
    if x.len() == 0 {
        assert(x + y =~= y);
        assert(replace_all(x, seq![c], w) =~= Seq::<char>::empty());
    } else {
        let s = x + y;
        assert(s[0] == x[0]);
        assert(starts_with(s, seq![c]) == (x[0] == c)) by {
            assert(s.subrange(0, 1)[0] == s[0]);
            if x[0] == c {
                assert(s.subrange(0, 1) =~= seq![c]);
            }
        }
        assert(starts_with(x, seq![c]) == (x[0] == c)) by {
            assert(x.subrange(0, 1)[0] == x[0]);
            if x[0] == c {
                assert(x.subrange(0, 1) =~= seq![c]);
            }
        }
        assert(s.skip(1) =~= x.skip(1) + y);
        assert(s.drop_first() =~= x.drop_first() + y);
        assert(x.skip(1) =~= x.drop_first());
        lemma_replace_char_concat(x.drop_first(), y, c, w);
    }
}

/// `escaped_id` writes the first character, then the rest.
#[verifier::spinoff_prover]
proof fn lemma_escaped_cons(id: Seq<char>)
    requires
        id.len() > 0,
    ensures
        escaped_id(id) == escaped_char(id[0]) + escaped_id(id.drop_first()),
{
    let c = id[0];
    let b = seq!['\\'];
    let bb = seq!['\\', '\\'];
    let q = seq!['"'];
    let bq = seq!['\\', '"'];
    assert(id =~= seq![c] + id.drop_first());
    lemma_replace_char_concat(seq![c], id.drop_first(), '\\', bb);
    let t1 = replace_all(seq![c], b, bb);
    assert(seq![c].drop_first() =~= Seq::<char>::empty());
    assert(seq![c].skip(1) =~= Seq::<char>::empty());
    assert(starts_with(seq![c], b) == (c == '\\')) by {
        if c == '\\' {
            assert(seq![c].subrange(0, 1) =~= b);
        } else {
            assert(seq![c].subrange(0, 1)[0] == c);
        }
    }
    assert(replace_all(Seq::<char>::empty(), b, bb) =~= Seq::<char>::empty());
    assert(replace_all(Seq::<char>::empty(), q, bq) =~= Seq::<char>::empty());
    if c == '\\' {
        assert(t1 == bb + replace_all(seq![c].skip(1), b, bb));
    } else {
        assert(t1 == seq![c] + replace_all(seq![c].drop_first(), b, bb));
    }
    assert(t1 =~= if c == '\\' { bb } else { seq![c] });
    let r1 = replace_all(id.drop_first(), b, bb);
    lemma_replace_char_concat(t1, r1, '"', bq);
    if c == '\\' {
        lemma_replace_absent(bb, q, bq);
    } else {
        assert(starts_with(seq![c], q) == (c == '"')) by {
            if c == '"' {
                assert(seq![c].subrange(0, 1) =~= q);
            } else {
                assert(seq![c].subrange(0, 1)[0] == c);
            }
        }
        if c == '"' {
            assert(replace_all(seq![c], q, bq) == bq + replace_all(seq![c].skip(1), q, bq));
        } else {
            assert(replace_all(seq![c], q, bq) == seq![c] + replace_all(seq![c].drop_first(), q, bq));
        }
        assert(replace_all(seq![c], q, bq) =~= if c == '"' { bq } else { seq![c] });
    }
}

/// An escaped id does not start with a quote, and has a line break only
/// where the id has one.
#[verifier::spinoff_prover]
proof fn lemma_escaped_shape(id: Seq<char>)
    ensures
        escaped_id(id).len() > 0 ==> escaped_id(id)[0] != '"',
        !has_char(id, '\n') ==> !has_char(escaped_id(id), '\n'),
        escaped_id(id).len() >= id.len(),
    decreases id.len(),
{
    if id.len() == 0 {
        assert(replace_all(id, seq!['\\'], seq!['\\', '\\']) =~= id);
        assert(escaped_id(id) =~= Seq::<char>::empty());
    } else {
        lemma_escaped_cons(id);
        let r = id.drop_first();
        lemma_escaped_shape(r);
        let e = escaped_id(id);
        let tc = escaped_char(id[0]);
        assert(e[0] == tc[0]);
        if !has_char(id, '\n') {
            assert(!has_char(r, '\n')) by {
                assert forall|i: int| 0 <= i < r.len() implies r[i] != '\n' by {
                    assert(r[i] == id[i + 1]);
                }
            }
            assert(id[0] != '\n');
            assert forall|i: int| 0 <= i < e.len() implies e[i] != '\n' by {
                if i >= tc.len() {
                    assert(e[i] == escaped_id(r)[i - tc.len()]);
                }
            }
        }
    }
}

/// Unescaping what `escaped_id` wrote (first `\"`, then `\\`, as the
/// config reader does) gives the id back.
#[verifier::spinoff_prover]
proof fn lemma_unescape_escaped(id: Seq<char>)
    ensures
        replace_all(
            replace_all(escaped_id(id), seq!['\\', '"'], seq!['"']),
            seq!['\\', '\\'],
            seq!['\\'],
        ) == id,
    decreases id.len(),
{
    let bq = seq!['\\', '"'];
    let q = seq!['"'];
    let bb = seq!['\\', '\\'];
    let b = seq!['\\'];
    if id.len() == 0 {
        assert(replace_all(id, b, bb) =~= id);
        assert(escaped_id(id) =~= Seq::<char>::empty());
    } else {
        let c = id[0];
        let r = id.drop_first();
        lemma_escaped_cons(id);
        lemma_escaped_shape(r);
        lemma_unescape_escaped(r);
        let er = escaped_id(r);
        let e = escaped_id(id);
        let u1r = replace_all(er, bq, q);
        assert(!starts_with(er, q)) by {
            if starts_with(er, q) {
                assert(er.subrange(0, 1)[0] == er[0]);
            }
        }
        let u1: Seq<char> = if c == '"' { q } else { escaped_char(c) };
        assert(replace_all(e, bq, q) == u1 + u1r) by {
            if c == '\\' {
                assert(e =~= seq!['\\'] + (seq!['\\'] + er));
                assert(!starts_with(e, bq)) by {
                    if starts_with(e, bq) {
                        assert(e.subrange(0, 2)[1] == e[1]);
                    }
                }
                assert(e.drop_first() =~= seq!['\\'] + er);
                let e1 = e.drop_first();
                assert(!starts_with(e1, bq)) by {
                    if starts_with(e1, bq) {
                        assert(e1.subrange(0, 2)[1] == e1[1]);
                        assert(e1[1] == er[0]);
                    }
                }
                assert(e1.drop_first() =~= er);
                assert(replace_all(e1, bq, q) == seq![e1[0]] + replace_all(e1.drop_first(), bq, q));
                assert(replace_all(e, bq, q) =~= u1 + u1r);
            } else if c == '"' {
                assert(e =~= bq + er);
                assert(e.subrange(0, 2) =~= bq);
                assert(e.skip(2) =~= er);
            } else {
                assert(e =~= seq![c] + er);
                assert(!starts_with(e, bq)) by {
                    if starts_with(e, bq) {
                        assert(e.subrange(0, 2)[0] == e[0]);
                    }
                }
                assert(e.drop_first() =~= er);
            }
        }
        let u2r = replace_all(u1r, bb, b);
        assert(replace_all(u1 + u1r, bb, b) == seq![c] + u2r) by {
            let s = u1 + u1r;
            if c == '\\' {
                assert(s.subrange(0, 2) =~= bb);
                assert(s.skip(2) =~= u1r);
            } else {
                assert(s[0] != '\\');
                assert(!starts_with(s, bb)) by {
                    if starts_with(s, bb) {
                        assert(s.subrange(0, 2)[0] == s[0]);
                    }
                }
                assert(s.drop_first() =~= u1r);
                if c == '"' {
                    assert(s[0] == '"');
                } else {
                    assert(s[0] == c);
                }
            }
        }
        assert(seq![c] + r =~= id);
    }
}

proof fn lemma_plain_id(id: Seq<char>)
    requires
        !has_char(id, '\n'),
    ensures
        !has_char(escaped_id(id), '\n'),
        !has_char(default_line(id), '\n'),
        default_line(id).len() == escaped_id(id).len() + 12,
        default_line(id).take(8) =~= "default "@,
        default_line(id).skip(9) =~= seq![' '] + (seq!['"'] + escaped_id(id) + seq!['"']),
{
    reveal_strlit("default = \"");
    reveal_strlit("default ");
    lemma_escaped_shape(id);
    let e = escaped_id(id);
    let nl = default_line(id);
    assert forall|i: int| 0 <= i < nl.len() implies nl[i] != '\n' by {
        if 11 <= i < 11 + e.len() {
            assert(nl[i] == e[i - 11]);
        }
    }
}

proof fn lemma_new_section_lines(text: Seq<char>, id: Seq<char>)
    requires
        first_at(text, "[models]"@) is None,
        !has_char(id, '\n'),
    ensures
        lines(with_default(text, id)) == lines(ended_text(text)) + seq![
            Seq::<char>::empty(),
            "[models]"@,
            default_line(id),
        ],
{
    reveal(with_default);
    reveal_strlit("[models]");
    reveal_strlit("\n[models]\n");
    lemma_plain_id(id);
    let nl = default_line(id);
    let a = ended_text(text);
    assert(with_default(text, id) == a + "\n[models]\n"@ + nl + seq!['\n']);
    assert(split_acc(a, '\n').1.len() == 0) by {
        if a.len() > 0 {
            if text.len() > 0 && !ends_with(text, seq!['\n']) {
                assert(a.drop_last() =~= text);
            } else {
                assert(text.subrange(text.len() - 1, text.len() as int)[0] == text.last());
            }
        }
    }
    let m = "[models]"@;
    assert(!has_char(m, '\n'));
    let y1 = seq!['\n'];
    let y2 = m.push('\n');
    let y3 = nl.push('\n');
    assert(a + "\n[models]\n"@ + nl + seq!['\n'] =~= a + (y1 + (y2 + y3)));
    lemma_split_line(Seq::<char>::empty());
    assert(Seq::<char>::empty().push('\n') =~= y1);
    lemma_split_line(m);
    lemma_split_line(nl);
    lemma_split_concat(y2, y3);
    lemma_split_concat(y1, y2 + y3);
    lemma_split_concat(a, y1 + (y2 + y3));
    let t = a + (y1 + (y2 + y3));
    let tail = seq![Seq::<char>::empty(), m, nl];
    assert(split_acc(t, '\n').0 =~= split_acc(a, '\n').0 + tail);
    assert(split_acc(t, '\n').1.len() == 0);
    assert(strip_cr(Seq::<char>::empty()) == Seq::<char>::empty());
    assert(strip_cr(m) == m);
    assert(strip_cr(nl) == nl);
    assert(lines(t) =~= lines(a) + tail);
}

proof fn lemma_models_header_step(st: CatState)
    ensures
        step(st, "[models]"@).section == Some(Section::Models),
{
    reveal_strlit("[models]");
    reveal_strlit("models");
    reveal_strlit("model.");
    let m = "[models]"@;
    lemma_trim_keeps(m);
    assert(m.subrange(0, 1) =~= seq!['[']);
    assert(m.subrange(m.len() - 1, m.len() as int) =~= seq![']']);
    assert(is_header(m));
    assert(!starts_with(m, seq!['#'])) by {
        assert(m.subrange(0, 1)[0] == '[');
    }
    let name = m.subrange(1, m.len() - 1);
    assert(name =~= "models"@);
    assert(!starts_with(name, "model."@)) by {
        assert(name.subrange(0, 6)[5] != "model."@[5]);
    }
}

proof fn lemma_default_line_step(st: CatState, id: Seq<char>)
    requires
        st.section == Some(Section::Models),
        !has_char(id, '\n'),
    ensures
        step(st, default_line(id)).out.default_id == Some(id),
{
    reveal_strlit("default");
    reveal_strlit("default ");
    reveal_strlit("default = \"");
    lemma_plain_id(id);
    let nl = default_line(id);
    assert(nl[0] == 'd');
    assert(nl.last() == '"');
    lemma_trim_keeps(nl);
    assert(!starts_with(nl, seq!['#'])) by {
        assert(nl.subrange(0, 1)[0] == 'd');
    }
    assert(!is_header(nl)) by {
        assert(nl.subrange(0, 1)[0] == 'd');
    }
    reveal_with_fuel(find_char_from, 10);
    assert(find_char_from(nl, '=', 0) == Some(8int));
    let key_part = nl.take(8);
    assert(key_part.drop_last() =~= "default"@);
    assert(trim(key_part) == "default"@) by {
        lemma_trim_keeps("default"@);
        assert(trim_start(key_part) == key_part);
        assert(trim_end(key_part) == trim_end(key_part.drop_last()));
    }
    let q = seq!['"'] + escaped_id(id) + seq!['"'];
    assert(trim(nl.skip(9)) == q) by {
        assert((seq![' '] + q).drop_first() =~= q);
        lemma_trim_keeps(q);
        assert(trim_start(nl.skip(9)) == trim_start(q));
    }
    lemma_trim_keeps(q);
    assert(q.subrange(1, q.len() - 1) =~= escaped_id(id));
    assert(ends_with(q, seq!['"'])) by {
        assert(q.subrange(q.len() - 1, q.len() as int) =~= seq!['"']);
    }
    assert(starts_with(q, seq!['"'])) by {
        assert(q.subrange(0, 1) =~= seq!['"']);
    }
    lemma_unescape_escaped(id);
    assert(toml_value(q) == id);
}

/// Setting the default model of a config text that has no `[models]`
/// section yet appends one, and reading the catalog back gives that model
/// as the default (for an id without line breaks, which would break the
/// written line; quotes and backslashes are escaped and read back).
pub proof fn lemma_default_model_read_back_new_section(text: Seq<char>, id: Seq<char>)
    requires
        first_at(text, "[models]"@) is None,
        !has_char(id, '\n'),
    ensures
        catalog_of(with_default(text, id)).default_id == Some(id),
{
    lemma_new_section_lines(text, id);
    let tail = seq![Seq::<char>::empty(), "[models]"@, default_line(id)];
    let la = lines(ended_text(text));
    lemma_run_concat(init_state(), la, tail);
    let s0 = run(init_state(), la);
    assert(tail.drop_last().drop_last().drop_last() =~= Seq::<Seq<char>>::empty());
    assert(tail.drop_last().drop_last() =~= seq![Seq::<char>::empty()]);
    assert(tail.drop_last() =~= seq![Seq::<char>::empty(), "[models]"@]);
    assert(run(s0, Seq::<Seq<char>>::empty()) == s0);
    let s1 = step(s0, Seq::<char>::empty());
    assert(s1 == s0);
    assert(run(s0, tail.drop_last().drop_last()) == s1);
    lemma_models_header_step(s1);
    let s2 = step(s1, "[models]"@);
    assert(run(s0, tail.drop_last()) == s2);
    lemma_default_line_step(s2, id);
    assert(run(s0, tail) == step(s2, default_line(id)));
}

proof fn lemma_first_at_is(h: Seq<char>, n: Seq<char>, k: int)
    requires
        occurs_at(h, n, k),
        forall|j: int| 0 <= j < k ==> !occurs_at(h, n, j),
    ensures
        first_at(h, n) == Some(k),
{
    let c = choose|c: int| occurs_at(h, n, c) && forall|j: int| 0 <= j < c ==> !occurs_at(h, n, j);
    assert(occurs_at(h, n, c) && forall|j: int| 0 <= j < c ==> !occurs_at(h, n, j));
    if c < k {
        assert(!occurs_at(h, n, c));
    }
    if k < c {
        assert(!occurs_at(h, n, k));
    }
}

proof fn lemma_find_char_is(s: Seq<char>, c: char, k: int, j: int)
    requires
        0 <= k <= j < s.len(),
        s[j] == c,
        forall|i: int| k <= i < j ==> s[i] != c,
    ensures
        find_char_from(s, c, k) == Some(j),
    decreases j - k,
{
    if k < j {
        lemma_find_char_is(s, c, k + 1, j);
    }
}

proof fn lemma_header_after(text: Seq<char>, a: Seq<char>, rest: Seq<char>, m: Seq<char>)
    requires
        first_at(text, m) is None,
        a == text || a == text.push('\n'),
        rest.len() > 0,
        rest[0] == '\n',
        !has_char(m, '\n'),
        m.len() > 0,
        occurs_at(a + rest, m, a.len() + 1int),
    ensures
        first_at(a + rest, m) == Some(a.len() + 1int),
{
    let t = a + rest;
    let l = a.len() as int;
    let n = m.len() as int;
    assert(!exists|k: int| occurs_at(text, m, k));
    assert forall|j: int| 0 <= j < l + 1 implies !occurs_at(t, m, j) by {
        if occurs_at(t, m, j) {
            if j + n <= text.len() {
                assert(t.subrange(j, j + n) =~= text.subrange(j, j + n));
                assert(occurs_at(text, m, j));
            } else {
                let p = if j <= text.len() && l > text.len() {
                    text.len() as int
                } else {
                    l
                };
                assert(t[l] == rest[0]);
                assert(l > text.len() ==> t[text.len() as int] == '\n');
                assert(j <= p < j + n);
                assert(t.subrange(j, j + n)[p - j] == t[p]);
            }
        }
    }
    lemma_first_at_is(t, m, l + 1);
}

/// The `[models]` header that `with_default` appends to a text without one
/// is the first in the new text.
proof fn lemma_appended_header_first(text: Seq<char>, id: Seq<char>)
    requires
        first_at(text, "[models]"@) is None,
    ensures
        first_at(ended_text(text) + "\n[models]\n"@ + default_line(id) + seq!['\n'], "[models]"@)
            == Some(ended_text(text).len() + 1int),
{
    reveal_strlit("[models]");
    reveal_strlit("\n[models]\n");
    let m = "[models]"@;
    let a = ended_text(text);
    let rest = "\n[models]\n"@ + default_line(id) + seq!['\n'];
    assert(a + "\n[models]\n"@ + default_line(id) + seq!['\n'] =~= a + rest);
    assert((a + rest).subrange(a.len() + 1int, a.len() + 9int) =~= m);
    lemma_header_after(text, a, rest, m);
}

/// In the `[models]` section that `with_default` appends, the line it wrote
/// is the first `default` line, spanning the line's text without its break.
#[verifier::spinoff_prover]
#[verifier::rlimit(40)]
proof fn lemma_appended_default_line(id: Seq<char>)
    requires
        !has_char(id, '\n'),
    ensures
        default_line_from("[models]"@ + seq!['\n'] + default_line(id) + seq!['\n'], 0) == Some(
            (9int, 9int + default_line(id).len()),
        ),
{
    reveal_strlit("[models]");
    reveal_strlit("default");
    reveal_strlit("default ");
    reveal_strlit("default = \"");
    lemma_plain_id(id);
    let nl = default_line(id);
    assert(nl[0] == 'd' && nl[8] == '=' && nl.last() == '"');
    let s = "[models]"@ + seq!['\n'] + nl + seq!['\n'];
    lemma_find_char_is(s, '\n', 0, 8);
    assert(line_end(s, 0) == 9);
    let first = s.subrange(0, 9);
    assert(first[0] == '[');
    assert(trim_start(first) == first);
    assert(!starts_with(trim_start(first), "default"@)) by {
        assert(first.subrange(0, 7)[0] != "default"@[0]);
    }
    assert forall|i: int| 9 <= i < s.len() - 1 implies s[i] != '\n' by {
        assert(s[i] == nl[i - 9]);
    }
    lemma_find_char_is(s, '\n', 9, s.len() - 1);
    assert(line_end(s, 9) == s.len());
    let second = s.subrange(9, s.len() as int);
    assert(second =~= nl + seq!['\n']);
    assert(second[0] == 'd');
    assert(trim_start(second) == second);
    assert(starts_with(second, "default"@)) by {
        assert(second.subrange(0, 7) =~= nl.take(8).take(7));
        assert("default "@.take(7) =~= "default"@);
    }
    assert(second[8] == '=');
    assert(has_char(second, '='));
    assert(!starts_with(second, seq!['#'])) by {
        assert(second.subrange(0, 1)[0] == 'd');
    }
    assert(second.drop_last() =~= nl);
    assert(second.last() == '\n');
    assert(trim_newlines(nl) == nl);
    assert(trim_newlines(second) == trim_newlines(second.drop_last()));
    assert(trim_newlines(second) == nl);
    assert(default_line_from(s, 9) == Some((9int, 9int + nl.len())));
}

/// No section header follows the `[models]` section that `with_default`
/// appends.
proof fn lemma_appended_section_last(id: Seq<char>)
    requires
        !has_char(id, '\n'),
    ensures
        first_at(seq!['\n'] + default_line(id) + seq!['\n'], "\n["@) is None,
{
    reveal_strlit("\n[");
    reveal_strlit("default = \"");
    lemma_plain_id(id);
    let na = default_line(id);
    assert(na[0] == 'd');
    let u = seq!['\n'] + na + seq!['\n'];
    assert forall|i: int| #![trigger occurs_at(u, "\n["@, i)] !occurs_at(u, "\n["@, i) by {
        if occurs_at(u, "\n["@, i) {
            assert(u.subrange(i, i + 2)[0] == u[i]);
            assert(u.subrange(i, i + 2)[1] == u[i + 1]);
            if i == 0 {
                assert(u[1] == na[0]);
            } else if i < u.len() - 1 {
                assert(u[i] == na[i - 1]);
            }
        }
    }
}

proof fn lemma_with_default_replaces(t: Seq<char>, id: Seq<char>, idx: int, p0: int, p1: int)
    requires
        first_at(t, "[models]"@) == Some(idx),
        first_at(t.skip(idx + 8), "\n["@) is None,
        default_line_from(t.subrange(idx, t.len() as int), 0) == Some((p0, p1)),
    ensures
        with_default(t, id) == t.take(idx + p0) + default_line(id) + t.skip(idx + p1),
{
    reveal(with_default);
    reveal_strlit("[models]");
}

proof fn lemma_models_no_newline()
    ensures
        "[models]"@.len() == 8,
        !has_char("[models]"@, '\n'),
{
    reveal_strlit("[models]");
}

proof fn lemma_header_text()
    ensures
        "[models]"@.len() == 8,
        "\n[models]\n"@ == seq!['\n'] + "[models]"@ + seq!['\n'],
{
    reveal_strlit("[models]");
    reveal_strlit("\n[models]\n");
    assert("\n[models]\n"@ =~= seq!['\n'] + "[models]"@ + seq!['\n']);
}

#[verifier::spinoff_prover]
#[verifier::rlimit(60)]
proof fn lemma_rewrite_appended(a: Seq<char>, first: Seq<char>, second: Seq<char>)
    requires
        first_at(a + "\n[models]\n"@ + default_line(first) + seq!['\n'], "[models]"@) == Some(
            a.len() + 1int,
        ),
        !has_char(first, '\n'),
    ensures
        with_default(a + "\n[models]\n"@ + default_line(first) + seq!['\n'], second) == a
            + "\n[models]\n"@ + default_line(second) + seq!['\n'],
{
    lemma_header_text();
    let m = "[models]"@;
    let h = "\n[models]\n"@;
    let l = a.len() as int;
    let na = default_line(first);
    let t1 = a + h + na + seq!['\n'];
    let u = seq!['\n'] + na + seq!['\n'];
    let sect = m + seq!['\n'] + na + seq!['\n'];
    assert(t1.skip(l + 9) =~= u);
    assert(t1.subrange(l + 1, t1.len() as int) =~= sect);
    assert(t1.take(l + 10) =~= a + h);
    assert(t1.skip(l + 10 + na.len()) =~= seq!['\n']);
    lemma_appended_section_last(first);
    lemma_appended_default_line(first);
    lemma_with_default_replaces(t1, second, l + 1, 9, 9int + na.len());
}

/// Setting the default model of a config text once more, after a first
/// setting appended its `[models]` section, rewrites that section's line: the
/// text is as if only the second model had been set, and reading the catalog
/// back gives the second model (for ids without line breaks).
pub proof fn lemma_default_model_set_again(text: Seq<char>, first: Seq<char>, second: Seq<char>)
    requires
        first_at(text, "[models]"@) is None,
        !has_char(first, '\n'),
        !has_char(second, '\n'),
    ensures
        with_default(with_default(text, first), second) == with_default(text, second),
        catalog_of(with_default(with_default(text, first), second)).default_id == Some(second),
{
    reveal(with_default);
    let a = ended_text(text);
    assert(with_default(text, first) == a + "\n[models]\n"@ + default_line(first) + seq!['\n']);
    assert(with_default(text, second) == a + "\n[models]\n"@ + default_line(second) + seq!['\n']);
    lemma_appended_header_first(text, first);
    lemma_rewrite_appended(a, first, second);
    lemma_default_model_read_back_new_section(text, second);
}

proof fn lemma_trim_end_prefix(x: Seq<char>)
    ensures
        trim_end(x).len() <= x.len(),
        trim_end(x) == x.take(trim_end(x).len() as int),
    decreases x.len(),
{
    if x.len() > 0 && is_ws(x.last()) {
        lemma_trim_end_prefix(x.drop_last());
        assert(x.drop_last().take(trim_end(x.drop_last()).len() as int) =~= x.take(
            trim_end(x.drop_last()).len() as int,
        ));
    } else {
        assert(x.take(x.len() as int) =~= x);
    }
}

proof fn lemma_trim_start_head(x: Seq<char>)
    ensures
        trim_start(x).len() > 0 ==> !is_ws(trim_start(x)[0]),
    decreases x.len(),
{
    if x.len() > 0 && is_ws(x[0]) {
        lemma_trim_start_head(x.drop_first());
    }
}

/// A trimmed line that is not empty starts with a character that is not
/// whitespace.
proof fn lemma_trim_head(x: Seq<char>)
    ensures
        trim(x).len() > 0 ==> !is_ws(trim(x)[0]),
{
    lemma_trim_start_head(x);
    lemma_trim_end_prefix(trim_start(x));
    if trim(x).len() > 0 {
        assert(trim(x)[0] == trim_start(x).take(trim(x).len() as int)[0]);
    }
}

/// A line that after its indentation does not start with `default` leaves
/// the default model as it was; if it does not start with `[` either, the
/// section too.
#[verifier::spinoff_prover]
proof fn lemma_step_keeps(st: CatState, raw: Seq<char>)
    requires
        !starts_with(trim_start(raw), "default"@),
    ensures
        step(st, raw).out.default_id == st.out.default_id,
        !starts_with(trim_start(raw), seq!['[']) ==> step(st, raw).section == st.section,
{
    reveal_strlit("default");
    let ts = trim_start(raw);
    lemma_trim_end_prefix(ts);
    let line = trim(raw);
    assert(line == ts.take(line.len() as int));
    assert(!starts_with(line, "default"@)) by {
        if starts_with(line, "default"@) {
            assert(ts.subrange(0, 7) =~= line.subrange(0, 7));
        }
    }
    if !starts_with(ts, seq!['[']) {
        assert(!is_header(line)) by {
            if starts_with(line, seq!['[']) {
                assert(ts.subrange(0, 1) =~= line.subrange(0, 1));
            }
        }
    }
    if line.len() == 0 || starts_with(line, seq!['#']) {
    } else if is_header(line) {
    } else {
        match find_char_from(line, '=', 0) {
            None => {},
            Some(i) => {
                lemma_find_char_bounds(line, '=', 0);
                let part = line.take(i);
                let key = trim(part);
                if key == "default"@ {
                    lemma_trim_head(raw);
                    assert(i > 0) by {
                        if i == 0 {
                            assert(part.len() == 0);
                            assert(trim_start(part) =~= part);
                            assert(trim_end(trim_start(part)) =~= part);
                        }
                    }
                    assert(part[0] == line[0]);
                    assert(trim_start(part) == part);
                    lemma_trim_end_prefix(part);
                    assert(key == part.take(7));
                    assert(line.subrange(0, 7) =~= part.take(7));
                    assert(starts_with(line, "default"@));
                }
            },
        }
    }
}

/// Lines none of which, after its indentation, starts with `default` leave
/// the default model as it was; if none starts with `[` either, the section
/// too.
#[verifier::spinoff_prover]
proof fn lemma_run_keeps(st: CatState, ls: Seq<Seq<char>>)
    requires
        forall|k: int| 0 <= k < ls.len() ==> !starts_with(trim_start(#[trigger] ls[k]), "default"@),
    ensures
        run(st, ls).out.default_id == st.out.default_id,
        (forall|k: int| 0 <= k < ls.len() ==> !starts_with(trim_start(#[trigger] ls[k]), seq!['[']))
            ==> run(st, ls).section == st.section,
    decreases ls.len(),
{
    if ls.len() > 0 {
        let p = ls.drop_last();
        assert forall|k: int| 0 <= k < p.len() implies !starts_with(
            trim_start(#[trigger] p[k]),
            "default"@,
        ) by {
            assert(p[k] == ls[k]);
        }
        lemma_run_keeps(st, p);
        assert(ls.last() == ls[ls.len() - 1]);
        lemma_step_keeps(run(st, p), ls.last());
        if forall|k: int| 0 <= k < ls.len() ==> !starts_with(trim_start(#[trigger] ls[k]), seq!['[']) {
            assert forall|k: int| 0 <= k < p.len() implies !starts_with(
                trim_start(#[trigger] p[k]),
                seq!['['],
            ) by {
                assert(p[k] == ls[k]);
            }
        }
    }
}

#[verifier::spinoff_prover]
#[verifier::rlimit(40)]
proof fn lemma_header_first_at(a: Seq<char>, rest: Seq<char>)
    requires
        first_at(a, "[models]"@) is None,
        a.len() == 0 || a.last() == '\n',
        starts_with(rest, "[models]"@),
    ensures
        first_at(a + rest, "[models]"@) == Some(a.len() as int),
{
    lemma_models_no_newline();
    let m = "[models]"@;
    let t = a + rest;
    let l = a.len() as int;
    assert(t.subrange(l, l + 8) =~= rest.subrange(0, 8));
    assert(occurs_at(t, m, l));
    assert(!exists|k: int| occurs_at(a, m, k));
    assert forall|j: int| 0 <= j < l implies !occurs_at(t, m, j) by {
        if occurs_at(t, m, j) {
            if j + 8 <= l {
                assert(t.subrange(j, j + 8) =~= a.subrange(j, j + 8));
                assert(occurs_at(a, m, j));
            } else {
                assert(t[l - 1] == '\n');
                assert(t.subrange(j, j + 8)[l - 1 - j] == t[l - 1]);
                assert(m[l - 1 - j] == '\n');
            }
        }
    }
    lemma_first_at_is(t, m, l);
}

proof fn lemma_trim_start_split(x: Seq<char>)
    ensures
        trim_start(x).len() <= x.len(),
        trim_start(x) == x.skip(x.len() - trim_start(x).len()),
        forall|i: int| 0 <= i < x.len() - trim_start(x).len() ==> is_ws(#[trigger] x[i]),
    decreases x.len(),
{
    if x.len() > 0 && is_ws(x[0]) {
        lemma_trim_start_split(x.drop_first());
        assert(x.drop_first().skip(x.drop_first().len() - trim_start(x.drop_first()).len()) =~= x.skip(
            x.len() - trim_start(x).len(),
        ));
        assert forall|i: int| 0 <= i < x.len() - trim_start(x).len() implies is_ws(#[trigger] x[i]) by {
            if i > 0 {
                assert(x[i] == x.drop_first()[i - 1]);
            }
        }
    } else {
        assert(x.skip(0) =~= x);
    }
}

proof fn lemma_trim_start_append(x: Seq<char>, y: Seq<char>)
    requires
        trim_start(x).len() > 0,
    ensures
        trim_start(x + y) == trim_start(x) + y,
    decreases x.len(),
{
    if x.len() > 0 && is_ws(x[0]) {
        lemma_trim_start_append(x.drop_first(), y);
        assert((x + y).drop_first() =~= x.drop_first() + y);
    } else {
        assert(x.len() > 0);
        assert((x + y)[0] == x[0]);
    }
}

proof fn lemma_find_none(s: Seq<char>, c: char, k: int)
    requires
        0 <= k <= s.len(),
        forall|i: int| k <= i < s.len() ==> s[i] != c,
    ensures
        find_char_from(s, c, k) is None,
    decreases s.len() - k,
{
    if k < s.len() {
        lemma_find_none(s, c, k + 1);
    }
}

proof fn lemma_with_default_section(t: Seq<char>, id: Seq<char>, idx: int, end: int, p0: int, p1: int)
    requires
        first_at(t, "[models]"@) == Some(idx),
        end == (match first_at(t.skip(idx + 8), "\n["@) {
            Some(i) => idx + 8 + i,
            None => t.len() as int,
        }),
        default_line_from(t.subrange(idx, end), 0) == Some((p0, p1)),
    ensures
        with_default(t, id) == t.take(idx + p0) + default_line(id) + t.skip(idx + p1),
{
    reveal(with_default);
    reveal_strlit("[models]");
}

proof fn lemma_min_occurrence(h: Seq<char>, n: Seq<char>, k: int)
    requires
        occurs_at(h, n, k),
    ensures
        exists|c: int| occurs_at(h, n, c) && forall|j: int| 0 <= j < c ==> !occurs_at(h, n, j),
    decreases k,
{
    if exists|j: int| 0 <= j < k && occurs_at(h, n, j) {
        let j = choose|j: int| 0 <= j < k && occurs_at(h, n, j);
        lemma_min_occurrence(h, n, j);
    } else {
        assert(occurs_at(h, n, k) && forall|j: int| 0 <= j < k ==> !occurs_at(h, n, j));
    }
}

proof fn lemma_split_ended(a: Seq<char>)
    requires
        a.len() == 0 || a.last() == '\n',
    ensures
        split_acc(a, '\n').1.len() == 0,
{
}

/// Lines, each followed by a line break.
pub open spec fn rows(p: Seq<Seq<char>>) -> Seq<char>
    decreases p.len(),
{
    if p.len() == 0 {
        Seq::empty()
    } else {
        p[0] + seq!['\n'] + rows(p.drop_first())
    }
}

/// A line of the `[models]` section that, whatever its indentation, is
/// neither a `default` line nor a header.
pub open spec fn section_row(x: Seq<char>) -> bool {
    &&& !has_char(x, '\n')
    &&& !starts_with(trim_start(x), "default"@)
    &&& !starts_with(trim_start(x), seq!['['])
}

/// Whitespace before a text does not change it once trimmed at the start.
#[verifier::spinoff_prover]
proof fn lemma_ws_prefix_trim_start(w: Seq<char>, y: Seq<char>)
    requires
        forall|i: int| 0 <= i < w.len() ==> is_ws(#[trigger] w[i]),
    ensures
        trim_start(w + y) == trim_start(y),
    decreases w.len(),
{
    if w.len() > 0 {
        assert((w + y)[0] == w[0]);
        assert((w + y).drop_first() =~= w.drop_first() + y);
        assert forall|i: int| 0 <= i < w.drop_first().len() implies is_ws(#[trigger] w.drop_first()[i]) by {
            assert(w.drop_first()[i] == w[i + 1]);
        }
        lemma_ws_prefix_trim_start(w.drop_first(), y);
    } else {
        assert(w + y =~= y);
    }
}

/// Trimming the start of a prefix gives a prefix of the trimmed text.
#[verifier::spinoff_prover]
proof fn lemma_trim_start_take(x: Seq<char>, m: int)
    requires
        0 <= m <= x.len(),
    ensures
        trim_start(x.take(m)).len() <= trim_start(x).len(),
        trim_start(x.take(m)) == trim_start(x).take(trim_start(x.take(m)).len() as int),
    decreases x.len(),
{
    if m == 0 {
        assert(x.take(0) =~= Seq::<char>::empty());
        assert(trim_start(x).take(0) =~= Seq::<char>::empty());
    } else if is_ws(x[0]) {
        assert(x.take(m)[0] == x[0]);
        assert(x.take(m).drop_first() =~= x.drop_first().take(m - 1));
        lemma_trim_start_take(x.drop_first(), m - 1);
    } else {
        assert(x.take(m)[0] == x[0]);
        assert(trim_start(x) == x);
        assert(trim_start(x.take(m)) == x.take(m));
    }
}

/// A line that after indentation does not start with `s` does not either
/// once a `\r` that ends it is dropped.
#[verifier::spinoff_prover]
proof fn lemma_strip_cr_start(x: Seq<char>, s: Seq<char>)
    requires
        !starts_with(trim_start(x), s),
    ensures
        !starts_with(trim_start(strip_cr(x)), s),
{
    if x.len() > 0 && x.last() == '\r' {
        lemma_trim_start_take(x, x.len() - 1);
        assert(x.drop_last() =~= x.take(x.len() - 1));
        let u = trim_start(strip_cr(x));
        if starts_with(u, s) {
            assert(trim_start(x).subrange(0, s.len() as int) =~= u.subrange(0, s.len() as int));
        }
    }
}


/// A line of the section that is not empty does not start with `[`.
#[verifier::spinoff_prover]
proof fn lemma_row_head(x: Seq<char>)
    requires
        !starts_with(trim_start(x), seq!['[']),
    ensures
        x.len() > 0 ==> x[0] != '[',
{
    if x.len() > 0 && x[0] == '[' {
        assert(trim_start(x) == x);
        assert(x.subrange(0, 1) =~= seq!['[']);
    }
}

/// Splitting lines that each end with a line break gives them back.
#[verifier::spinoff_prover]
proof fn lemma_rows_split(p: Seq<Seq<char>>)
    requires
        forall|k: int| 0 <= k < p.len() ==> !has_char(#[trigger] p[k], '\n'),
    ensures
        split_acc(rows(p), '\n') == (p, Seq::<char>::empty()),
    decreases p.len(),
{
    if p.len() == 0 {
        assert(rows(p) =~= Seq::<char>::empty());
        assert(p =~= Seq::<Seq<char>>::empty());
    } else {
        let q = p.drop_first();
        assert forall|k: int| 0 <= k < q.len() implies !has_char(#[trigger] q[k], '\n') by {
            assert(q[k] == p[k + 1]);
        }
        lemma_rows_split(q);
        assert(!has_char(p[0], '\n'));
        lemma_split_line(p[0]);
        assert(p[0] + seq!['\n'] =~= p[0].push('\n'));
        lemma_split_concat(p[0].push('\n'), rows(q));
        assert(rows(p) == p[0].push('\n') + rows(q));
        assert(seq![p[0]] + q =~= p);
    }
}

/// In the section's lines followed by its `default` line, no line starts
/// with `[`.
#[verifier::spinoff_prover]
proof fn lemma_rows_starts(p: Seq<Seq<char>>, d: Seq<char>)
    requires
        forall|k: int| 0 <= k < p.len() ==> section_row(#[trigger] p[k]),
        d.len() > 0,
        d[0] != '[',
        !has_char(d, '\n'),
    ensures
        forall|i: int|
            0 <= i < (rows(p) + d).len() && (i == 0 || (rows(p) + d)[i - 1] == '\n') ==> #[trigger] (rows(
                p) + d)[i] != '[',
    decreases p.len(),
{
    let w = rows(p) + d;
    if p.len() == 0 {
        assert(w =~= d);
        assert forall|i: int| 0 <= i < w.len() && (i == 0 || w[i - 1] == '\n') implies #[trigger] w[i] != '[' by {
            if i > 0 {
                assert(d[i - 1] == w[i - 1]);
            }
        }
    } else {
        let p0 = p[0];
        let q = p.drop_first();
        assert forall|k: int| 0 <= k < q.len() implies section_row(#[trigger] q[k]) by {
            assert(q[k] == p[k + 1]);
        }
        assert(section_row(p0));
        lemma_rows_starts(q, d);
        let w2 = rows(q) + d;
        assert(w =~= p0 + seq!['\n'] + w2);
        lemma_row_head(p0);
        let n0 = p0.len() as int;
        assert forall|i: int| 0 <= i < w.len() && (i == 0 || w[i - 1] == '\n') implies #[trigger] w[i] != '[' by {
            if i < n0 {
                if i > 0 {
                    assert(w[i - 1] == p0[i - 1]);
                }
                assert(w[i] == p0[i]);
            } else if i == n0 {
                assert(w[i] == '\n');
            } else {
                let i2 = i - n0 - 1;
                assert(w[i] == w2[i2]);
                if i2 > 0 {
                    assert(w[i - 1] == w2[i2 - 1]);
                }
            }
        }
    }
}

/// The scan for a `default` line passes over the section's other lines.
#[verifier::spinoff_prover]
proof fn lemma_default_skip_rows(s: Seq<char>, off: int, p: Seq<Seq<char>>)
    requires
        0 <= off,
        off + rows(p).len() <= s.len(),
        s.subrange(off, off + rows(p).len()) == rows(p),
        forall|k: int| 0 <= k < p.len() ==> section_row(#[trigger] p[k]),
    ensures
        default_line_from(s, off) == default_line_from(s, off + rows(p).len()),
    decreases p.len(),
{
    if p.len() > 0 {
        let p0 = p[0];
        let q = p.drop_first();
        let r = rows(p);
        assert(r == p0 + seq!['\n'] + rows(q));
        let j: int = off + p0.len();
        assert(section_row(p0));
        assert forall|i: int| off <= i < j implies s[i] != '\n' by {
            assert(s.subrange(off, off + r.len())[i - off] == s[i]);
            assert(r[i - off] == p0[i - off]);
        }
        assert(s[j] == '\n') by {
            assert(s.subrange(off, off + r.len())[j - off] == s[j]);
            assert(r[p0.len() as int] == '\n');
        }
        lemma_find_char_is(s, '\n', off, j);
        let e = j + 1;
        assert(line_end(s, off) == e);
        let line = s.subrange(off, e);
        assert(line =~= p0 + seq!['\n']) by {
            assert forall|i: int| 0 <= i < e - off implies line[i] == (p0 + seq!['\n'])[i] by {
                assert(s.subrange(off, off + r.len())[i] == s[off + i]);
                assert(r[i] == (p0 + seq!['\n'])[i]);
            }
        }
        lemma_line_not_default(p0);
        assert(default_line_from(s, off) == default_line_from(s, e));
        assert(s.subrange(e, e + rows(q).len()) =~= rows(q)) by {
            assert forall|i: int| 0 <= i < rows(q).len() implies s.subrange(e, e + rows(q).len())[i]
                == rows(q)[i] by {
                assert(s.subrange(off, off + r.len())[e - off + i] == s[e + i]);
                assert(r[e - off + i] == rows(q)[i]);
            }
        }
        assert forall|k: int| 0 <= k < q.len() implies section_row(#[trigger] q[k]) by {
            assert(q[k] == p[k + 1]);
        }
        lemma_default_skip_rows(s, e, q);
    }
}

/// The scan for a `default` line, at a `default` line, finds it: from its
/// first non-blank character to its end.
#[verifier::spinoff_prover]
#[verifier::rlimit(60)]
proof fn lemma_default_line_at(s: Seq<char>, off: int, d: Seq<char>)
    requires
        0 <= off,
        off + d.len() <= s.len(),
        s.subrange(off, off + d.len()) == d,
        s.len() == off + d.len() || s[off + d.len()] == '\n',
        starts_with(trim_start(d), "default"@),
        has_char(trim_start(d), '='),
        !has_char(d, '\n'),
    ensures
        default_line_from(s, off) == Some(
            (off + d.len() - trim_start(d).len(), off + trim_newlines(d).len()),
        ),
{
    reveal_strlit("default");
    let n: int = off + d.len();
    let td = trim_start(d);
    assert(td.subrange(0, 7) =~= "default"@);
    assert(td.len() > 0);
    lemma_trim_start_split(d);
    assert forall|k: int| off <= k < n implies s[k] != '\n' by {
        assert(s.subrange(off, n)[k - off] == s[k]);
        assert(s[k] == d[k - off]);
    }
    let e: int = if s.len() == n {
        lemma_find_none(s, '\n', off);
        n
    } else {
        lemma_find_char_is(s, '\n', off, n);
        n + 1
    };
    assert(line_end(s, off) == e);
    let line = s.subrange(off, e);
    assert(line.take(d.len() as int) =~= d) by {
        assert forall|k: int| 0 <= k < d.len() implies line[k] == d[k] by {
            assert(s.subrange(off, n)[k] == s[off + k]);
        }
    }
    let t = trim_start(line);
    if e == n {
        assert(line =~= d);
    } else {
        assert(line =~= d + seq!['\n']);
        lemma_trim_start_append(d, seq!['\n']);
    }
    assert(t.take(td.len() as int) =~= td);
    assert(starts_with(t, "default"@)) by {
        assert(t.subrange(0, 7) =~= td.subrange(0, 7));
    }
    let qi = choose|qi: int| 0 <= qi < td.len() && td[qi] == '=';
    assert(t[qi] == '=');
    assert(has_char(t, '='));
    assert(!starts_with(t, seq!['#'])) by {
        assert(t.subrange(0, 1)[0] == td[0]);
        assert(td[0] == 'd') by {
            assert(td.subrange(0, 7)[0] == td[0]);
        }
    }
    assert(line.len() - t.len() == d.len() - td.len());
    if e != n {
        assert(line.drop_last() =~= d);
        assert(trim_newlines(line) == trim_newlines(d));
    }
}

/// The scan for a `default` line in a `[models]` section passes over the
/// header line and the section's other lines, and finds the `default` line
/// from its first non-blank character to its end.
#[verifier::spinoff_prover]
#[verifier::rlimit(60)]
proof fn lemma_default_line_first(s: Seq<char>, hc: Seq<char>, p: Seq<Seq<char>>, d: Seq<char>)
    requires
        s.len() >= 9int + hc.len() + rows(p).len() + d.len(),
        s.take(9int + hc.len() + rows(p).len() + d.len()) == "[models]"@ + hc + seq!['\n'] + rows(p)
            + d,
        !has_char(hc, '\n'),
        s.len() == 9int + hc.len() + rows(p).len() + d.len() || s[9int + hc.len() + rows(p).len() + d.len()] == '\n',
        forall|k: int| 0 <= k < p.len() ==> section_row(#[trigger] p[k]),
        starts_with(trim_start(d), "default"@),
        has_char(trim_start(d), '='),
        !has_char(d, '\n'),
    ensures
        default_line_from(s, 0) == Some(
            (
                9int + hc.len() + rows(p).len() + d.len() - trim_start(d).len(),
                9int + hc.len() + rows(p).len() + trim_newlines(d).len(),
            ),
        ),
{
    reveal_strlit("[models]");
    reveal_strlit("default");
    let r = rows(p);
    let g: int = 9int + hc.len();
    let n: int = g + r.len() + d.len();
    let h = "[models]"@ + hc + seq!['\n'] + r + d;
    assert(s[g - 1] == '\n') by {
        assert(s.take(n)[g - 1] == s[g - 1]);
        assert(h[g - 1] == '\n');
    }
    assert forall|k: int| 0 <= k < g - 1 implies s[k] != '\n' by {
        assert(s.take(n)[k] == s[k]);
        if k < 8 {
            assert(h[k] == "[models]"@[k]);
        } else {
            assert(h[k] == hc[k - 8]);
        }
    }
    lemma_find_char_is(s, '\n', 0, g - 1);
    assert(line_end(s, 0) == g);
    let first = s.subrange(0, g);
    assert(first[0] == '[') by {
        assert(s.take(n)[0] == s[0]);
        assert(h[0] == '[');
    }
    assert(trim_start(first) == first);
    assert(!starts_with(trim_start(first), "default"@)) by {
        assert(first.subrange(0, 7)[0] != "default"@[0]);
    }
    assert(default_line_from(s, 0) == default_line_from(s, g));
    assert(s.subrange(g, g + r.len()) =~= r) by {
        assert forall|i: int| 0 <= i < r.len() implies s.subrange(g, g + r.len())[i] == r[i] by {
            assert(s.take(n)[g + i] == s[g + i]);
            assert(h[g + i] == r[i]);
        }
    }
    lemma_default_skip_rows(s, g, p);
    let off: int = g + r.len();
    assert(s.subrange(off, off + d.len()) =~= d) by {
        assert forall|i: int| 0 <= i < d.len() implies s.subrange(off, off + d.len())[i] == d[i] by {
            assert(s.take(n)[off + i] == s[off + i]);
            assert(h[off + i] == d[i]);
        }
    }
    lemma_default_line_at(s, off, d);
}

/// The section after a `[models]` header line followed by lines none of
/// which starts with `[` ends no earlier than the end of those lines.
#[verifier::spinoff_prover]
#[verifier::rlimit(40)]
proof fn lemma_section_end(u: Seq<char>, hc: Seq<char>, w: Seq<char>, z: Seq<char>)
    requires
        u == hc + seq!['\n'] + w + z,
        !has_char(hc, '\n'),
        w.len() > 0,
        w.last() != '\n',
        forall|i: int| 0 <= i < w.len() && (i == 0 || w[i - 1] == '\n') ==> #[trigger] w[i] != '[',
        z.len() == 0 || z[0] == '\n',
    ensures
        match first_at(u, "\n["@) {
            Some(i) => i >= hc.len() + 1 + w.len() && (i == hc.len() + 1 + w.len() || z.len() > 0)
                && i + 2 <= u.len(),
            None => true,
        },
{
    reveal_strlit("\n[");
    let c = hc.len() as int;
    if let Some(i) = first_at(u, "\n["@) {
        let k0 = choose|k: int| occurs_at(u, "\n["@, k);
        lemma_min_occurrence(u, "\n["@, k0);
        assert(occurs_at(u, "\n["@, i));
        assert(u.subrange(i, i + 2)[0] == u[i]);
        assert(u.subrange(i, i + 2)[1] == u[i + 1]);
        if i < c {
            assert(u[i] == hc[i]);
        } else if i == c {
            assert(u[i + 1] == w[0]);
        } else if i < c + w.len() {
            assert(u[i] == w[i - c - 1]);
            assert(u[i + 1] == w[i - c]);
        } else if i == c + w.len() {
            assert(u[i] == w[w.len() - 1]);
        }
    }
}

#[verifier::spinoff_prover]
proof fn lemma_default_head(d: Seq<char>)
    requires
        starts_with(trim_start(d), "default"@),
    ensures
        d.len() >= 7,
        d[0] != '[',
{
    reveal_strlit("default");
    lemma_trim_start_split(d);
    let td = trim_start(d);
    assert(td.subrange(0, 7)[0] == td[0]);
    if d.len() == td.len() {
        assert(d.skip(0) =~= d);
        assert(d[0] == td[0]);
    } else {
        assert(is_ws(d[0]));
    }
}

/// In a text with a single `[models]` section whose `default` line `d`
/// follows the header and the lines `p`, the scan finds that line.
#[verifier::spinoff_prover]
#[verifier::rlimit(100)]
proof fn lemma_existing_section(
    a: Seq<char>,
    hc: Seq<char>,
    p: Seq<Seq<char>>,
    d: Seq<char>,
    z: Seq<char>,
)
    requires
        first_at(a, "[models]"@) is None,
        a.len() == 0 || a.last() == '\n',
        !has_char(hc, '\n'),
        forall|k: int| 0 <= k < p.len() ==> section_row(#[trigger] p[k]),
        starts_with(trim_start(d), "default"@),
        has_char(trim_start(d), '='),
        !has_char(d, '\n'),
        z.len() == 0 || z[0] == '\n',
    ensures
        first_at(a + ("[models]"@ + hc + seq!['\n'] + rows(p) + d + z), "[models]"@) == Some(
            a.len() as int,
        ),
        forall|end: int|
            end == (match first_at(
                (a + ("[models]"@ + hc + seq!['\n'] + rows(p) + d + z)).skip(a.len() + 8int),
                "\n["@,
            ) {
                Some(i) => a.len() + 8 + i,
                None => (a + ("[models]"@ + hc + seq!['\n'] + rows(p) + d + z)).len() as int,
            }) ==> default_line_from(
                (a + ("[models]"@ + hc + seq!['\n'] + rows(p) + d + z)).subrange(a.len() as int, end),
                0,
            ) == Some(
                (
                    9int + hc.len() + rows(p).len() + d.len() - trim_start(d).len(),
                    9int + hc.len() + rows(p).len() + trim_newlines(d).len(),
                ),
            ),
{
    lemma_header_text();
    lemma_default_head(d);
    let m = "[models]"@;
    let w = rows(p) + d;
    let rest = m + hc + seq!['\n'] + rows(p) + d + z;
    let t = a + rest;
    let l = a.len() as int;
    assert(rest.subrange(0, 8) =~= m);
    lemma_header_first_at(a, rest);
    let u = t.skip(l + 8);
    assert(u =~= hc + seq!['\n'] + w + z);
    lemma_rows_starts(p, d);
    assert(w.last() == d.last());
    assert(d.last() != '\n') by {
        assert(d[d.len() - 1] == d.last());
    }
    lemma_section_end(u, hc, w, z);
    let end0: int = match first_at(u, "\n["@) {
        Some(i) => l + 8 + i,
        None => t.len() as int,
    };
    assert(l + 9 + hc.len() + w.len() <= end0 <= l + 9 + hc.len() + w.len() + z.len());
    assert(end0 > l + 9 + hc.len() + w.len() ==> z.len() > 0);
    lemma_section_facts(a, hc, p, d, z, end0);
}

#[verifier::spinoff_prover]
#[verifier::rlimit(60)]
proof fn lemma_section_facts(
    a: Seq<char>,
    hc: Seq<char>,
    p: Seq<Seq<char>>,
    d: Seq<char>,
    z: Seq<char>,
    end: int,
)
    requires
        !has_char(hc, '\n'),
        forall|k: int| 0 <= k < p.len() ==> section_row(#[trigger] p[k]),
        starts_with(trim_start(d), "default"@),
        has_char(trim_start(d), '='),
        !has_char(d, '\n'),
        z.len() == 0 || z[0] == '\n',
        "[models]"@.len() == 8,
        a.len() + 9int + hc.len() + rows(p).len() + d.len() <= end <= a.len() + 9int + hc.len() + rows(p).len() + d.len()
            + z.len(),
        end > a.len() + 9int + hc.len() + rows(p).len() + d.len() ==> z.len() > 0,
    ensures
        default_line_from(
            (a + ("[models]"@ + hc + seq!['\n'] + rows(p) + d + z)).subrange(a.len() as int, end),
            0,
        ) == Some(
            (
                9int + hc.len() + rows(p).len() + d.len() - trim_start(d).len(),
                9int + hc.len() + rows(p).len() + trim_newlines(d).len(),
            ),
        ),
{
    let m = "[models]"@;
    let rest = m + hc + seq!['\n'] + rows(p) + d + z;
    let t = a + rest;
    let l = a.len() as int;
    let n: int = 9int + hc.len() + rows(p).len() + d.len();
    let sec = t.subrange(l, end);
    let head = m + hc + seq!['\n'] + rows(p) + d;
    assert(rest =~= head + z);
    assert forall|k: int| 0 <= k < end - l implies sec[k] == rest[k] by {
        assert(sec[k] == t[l + k]);
        assert(t[l + k] == rest[k]);
    }
    assert(sec.take(n) =~= head) by {
        assert forall|k: int| 0 <= k < n implies sec.take(n)[k] == head[k] by {
            assert(sec[k] == rest[k]);
            assert(rest[k] == head[k]);
        }
    }
    assert(sec.len() == n || sec[n] == '\n') by {
        if sec.len() > n {
            assert(z.len() > 0);
            assert(sec[n] == rest[n]);
            assert(rest[n] == z[0]);
        }
    }
    lemma_default_line_first(sec, hc, p, d);
}

/// Setting the default model of a config text whose `[models]` section
/// has a `default` line rewrites that line in place, from its first
/// non-blank character on.
#[verifier::spinoff_prover]
#[verifier::rlimit(100)]
proof fn lemma_rewrite_existing(
    a: Seq<char>,
    hc: Seq<char>,
    p: Seq<Seq<char>>,
    d: Seq<char>,
    z: Seq<char>,
    id: Seq<char>,
)
    requires
        first_at(a, "[models]"@) is None,
        a.len() == 0 || a.last() == '\n',
        !has_char(hc, '\n'),
        forall|k: int| 0 <= k < p.len() ==> section_row(#[trigger] p[k]),
        starts_with(trim_start(d), "default"@),
        has_char(trim_start(d), '='),
        !has_char(d, '\n'),
        z.len() == 0 || z[0] == '\n',
    ensures
        with_default(a + ("[models]"@ + hc + seq!['\n'] + rows(p) + d + z), id) == (a + ("[models]"@
            + hc + seq!['\n'] + rows(p) + d + z)).take(
            a.len() + 9int + hc.len() + rows(p).len() + d.len() - trim_start(d).len(),
        ) + default_line(id) + (a + ("[models]"@ + hc + seq!['\n'] + rows(p) + d + z)).skip(
            a.len() + 9int + hc.len() + rows(p).len() + trim_newlines(d).len(),
        ),
{
    let t = a + ("[models]"@ + hc + seq!['\n'] + rows(p) + d + z);
    let l = a.len() as int;
    let n: int = 9int + hc.len() + rows(p).len() + d.len();
    let end: int = match first_at(t.skip(l + 8), "\n["@) {
        Some(i) => l + 8 + i,
        None => t.len() as int,
    };
    let p0: int = n - trim_start(d).len();
    let p1: int = 9int + hc.len() + rows(p).len() + trim_newlines(d).len();
    assert(first_at(t, "[models]"@) == Some(l) && default_line_from(t.subrange(l, end), 0) == Some(
        (p0, p1),
    )) by {
        lemma_existing_section(a, hc, p, d, z);
    }
    lemma_with_default_section(t, id, l, end, p0, p1);
    assert(l + p0 == a.len() + 9int + hc.len() + rows(p).len() + d.len() - trim_start(d).len());
    assert(l + p1 == a.len() + 9int + hc.len() + rows(p).len() + trim_newlines(d).len());
}

/// The lines of a text in which a `[models]` header line, the lines `p`
/// and a line `w` follow a text `a` whose last line is ended, then `z`
/// (empty, or a line break and more lines).
#[verifier::spinoff_prover]
#[verifier::rlimit(60)]
proof fn lemma_existing_lines(
    a: Seq<char>,
    hc: Seq<char>,
    p: Seq<Seq<char>>,
    w: Seq<char>,
    z: Seq<char>,
)
    requires
        a.len() == 0 || a.last() == '\n',
        !has_char(hc, '\n'),
        forall|k: int| 0 <= k < p.len() ==> !has_char(#[trigger] p[k], '\n'),
        !has_char(w, '\n'),
        w.len() > 0,
        z.len() == 0 || z[0] == '\n',
    ensures
        lines(a + ("[models]"@ + hc + seq!['\n']) + rows(p) + w + z) == lines(a) + seq![
            strip_cr("[models]"@ + hc),
        ]
            + p.map_values(|l: Seq<char>| strip_cr(l)) + seq![
            if z.len() == 0 {
                w
            } else {
                strip_cr(w)
            },
        ] + (if z.len() == 0 {
            Seq::<Seq<char>>::empty()
        } else {
            lines(z.skip(1))
        }),
{
    lemma_models_no_newline();
    let m0 = "[models]"@;
    let m = m0 + hc;
    assert(!has_char(m, '\n')) by {
        assert forall|i: int| 0 <= i < m.len() implies m[i] != '\n' by {
            if i < 8 {
                assert(m[i] == m0[i]);
            } else {
                assert(m[i] == hc[i - 8]);
            }
        }
    }
    lemma_split_ended(a);
    lemma_split_line(m);
    assert(m.push('\n') =~= m + seq!['\n']);
    lemma_split_concat(a, m.push('\n'));
    let x0 = a + (m0 + hc + seq!['\n']);
    assert(x0 =~= a + m.push('\n'));
    let sa = split_acc(a, '\n').0;
    assert(split_acc(x0, '\n').0 == sa + seq![m]);
    lemma_rows_split(p);
    lemma_split_concat(x0, rows(p));
    let x = x0 + rows(p);
    assert(split_acc(x, '\n').0 == sa + seq![m] + p);
    assert(split_acc(x, '\n').1.len() == 0);
    let f = |l: Seq<char>| strip_cr(l);
    if z.len() == 0 {
        lemma_split_no_newline(w);
        lemma_split_concat(x, w);
        assert(x + w + z =~= x + w);
        assert((sa + seq![m] + p).map_values(f) =~= sa.map_values(f) + seq![strip_cr(m)] + p.map_values(f));
        assert(lines(x + w) =~= lines(a) + seq![strip_cr(m)] + p.map_values(f) + seq![w]);
    } else {
        let zr = z.skip(1);
        lemma_split_line(w);
        lemma_split_concat(w.push('\n'), zr);
        let y = w.push('\n') + zr;
        lemma_split_concat(x, y);
        assert(x + w + z =~= x + y);
        let sz = split_acc(zr, '\n');
        assert(split_acc(x + y, '\n').0 =~= sa + seq![m] + p + (seq![w] + sz.0));
        assert(split_acc(x + y, '\n').1 == sz.1);
        assert((sa + seq![m] + p + (seq![w] + sz.0)).map_values(f) =~= sa.map_values(f) + seq![strip_cr(m)]
            + p.map_values(f) + seq![strip_cr(w)] + sz.0.map_values(f));
        if sz.1.len() > 0 {
            assert(lines(x + y) =~= lines(a) + seq![strip_cr(m)] + p.map_values(f) + seq![strip_cr(w)] + lines(
                zr,
            ));
        } else {
            assert(lines(x + y) =~= lines(a) + seq![strip_cr(m)] + p.map_values(f) + seq![strip_cr(w)] + lines(
                zr,
            ));
        }
    }
}

/// Whitespace after a text does not change it once trimmed at the end.
#[verifier::spinoff_prover]
proof fn lemma_ws_suffix_trim_end(x: Seq<char>, y: Seq<char>)
    requires
        forall|i: int| 0 <= i < y.len() ==> is_ws(#[trigger] y[i]),
    ensures
        trim_end(x + y) == trim_end(x),
    decreases y.len(),
{
    if y.len() > 0 {
        assert((x + y).last() == y.last());
        assert(y.last() == y[y.len() - 1]);
        assert((x + y).drop_last() =~= x + y.drop_last());
        assert forall|i: int| 0 <= i < y.drop_last().len() implies is_ws(#[trigger] y.drop_last()[i]) by {
            assert(y.drop_last()[i] == y[i]);
        }
        lemma_ws_suffix_trim_end(x, y.drop_last());
    } else {
        assert(x + y =~= x);
    }
}

/// The line without its `\r` and `\n` ending is a prefix of it, and what
/// follows is that ending.
#[verifier::spinoff_prover]
proof fn lemma_trim_newlines_split(l: Seq<char>)
    ensures
        trim_newlines(l).len() <= l.len(),
        trim_newlines(l) == l.take(trim_newlines(l).len() as int),
        forall|i: int|
            trim_newlines(l).len() <= i < l.len() ==> #[trigger] l[i] == '\r' || l[i] == '\n',
    decreases l.len(),
{
    if l.len() > 0 && (l.last() == '\r' || l.last() == '\n') {
        lemma_trim_newlines_split(l.drop_last());
        assert(l.drop_last().take(trim_newlines(l).len() as int) =~= l.take(
            trim_newlines(l).len() as int,
        ));
        assert forall|i: int| trim_newlines(l).len() <= i < l.len() implies #[trigger] l[i] == '\r'
            || l[i] == '\n' by {
            if i < l.len() - 1 {
                assert(l[i] == l.drop_last()[i]);
            }
        }
    } else {
        assert(l.take(l.len() as int) =~= l);
    }
}

/// Reading back a config text in which the `[models]` header line, the
/// section's other lines `p` and an indented `default = "<id>"` line (with
/// `\r` characters `cr` after it) follow a text `a` whose last line is
/// ended, then `z`, gives `id` as the default.
#[verifier::spinoff_prover]
#[verifier::rlimit(100)]
proof fn lemma_read_back_lines(
    a: Seq<char>,
    hc: Seq<char>,
    p: Seq<Seq<char>>,
    ind: Seq<char>,
    cr: Seq<char>,
    z: Seq<char>,
    id: Seq<char>,
)
    requires
        a.len() == 0 || a.last() == '\n',
        forall|i: int| 0 <= i < hc.len() ==> is_ws(#[trigger] hc[i]),
        !has_char(hc, '\n'),
        forall|k: int| 0 <= k < p.len() ==> section_row(#[trigger] p[k]),
        forall|i: int| 0 <= i < ind.len() ==> is_ws(#[trigger] ind[i]),
        !has_char(ind, '\n'),
        forall|i: int| 0 <= i < cr.len() ==> #[trigger] cr[i] == '\r',
        z.len() == 0 || z[0] == '\n',
        z.len() > 0 ==> forall|k: int|
            0 <= k < lines(z.skip(1)).len() ==> !starts_with(
                trim_start(#[trigger] lines(z.skip(1))[k]),
                "default"@,
            ),
        !has_char(id, '\n'),
    ensures
        catalog_of(
            a + ("[models]"@ + hc + seq!['\n']) + rows(p) + (ind + default_line(id) + cr) + z,
        ).default_id == Some(id),
{
    lemma_models_no_newline();
    lemma_plain_id(id);
    let m = "[models]"@;
    let nl = default_line(id);
    let w = ind + nl + cr;
    let t2 = a + (m + hc + seq!['\n']) + rows(p) + w + z;
    assert(nl.last() == '"');
    assert(!has_char(w, '\n')) by {
        assert forall|i: int| 0 <= i < w.len() implies w[i] != '\n' by {
            if i < ind.len() {
                assert(w[i] == ind[i]);
            } else if i < ind.len() + nl.len() {
                assert(w[i] == nl[i - ind.len()]);
            } else {
                assert(w[i] == cr[i - ind.len() - nl.len()]);
            }
        }
    }
    let wl = if z.len() == 0 {
        w
    } else {
        strip_cr(w)
    };
    let crl = if z.len() > 0 && cr.len() > 0 {
        cr.drop_last()
    } else {
        cr
    };
    assert(wl =~= ind + (nl + crl)) by {
        if z.len() > 0 && cr.len() > 0 {
            assert(w.last() == cr.last());
            assert(cr.last() == cr[cr.len() - 1]);
        } else if z.len() > 0 {
            assert(w.last() == nl.last());
        }
    }
    assert forall|j: int| 0 <= j < p.len() implies !has_char(#[trigger] p[j], '\n') by {
        assert(section_row(p[j]));
    }
    lemma_existing_lines(a, hc, p, w, z);
    let rest = if z.len() == 0 {
        Seq::<Seq<char>>::empty()
    } else {
        lines(z.skip(1))
    };
    let la = lines(a);
    let ps = p.map_values(|l: Seq<char>| strip_cr(l));
    let hl = strip_cr(m + hc);
    let pre = la + seq![hl];
    let mid = pre + ps;
    let all = mid + seq![wl];
    assert(lines(t2) == all + rest);
    lemma_run_concat(init_state(), all, rest);
    assert(all.drop_last() =~= mid);
    assert(all.last() == wl);
    lemma_run_concat(init_state(), pre, ps);
    assert(pre.drop_last() =~= la);
    assert(pre.last() == hl);
    let s0 = run(init_state(), la);
    lemma_models_header_step(s0);
    let s1 = step(s0, m);
    assert(step(s0, hl) == s1) by {
        reveal_strlit("[models]");
        let hcl = if hc.len() > 0 && hc.last() == '\r' {
            hc.drop_last()
        } else {
            hc
        };
        assert(hl =~= m + hcl) by {
            if hc.len() > 0 {
                assert((m + hc).last() == hc.last());
            }
        }
        assert forall|i: int| 0 <= i < hcl.len() implies is_ws(#[trigger] hcl[i]) by {
            assert(hcl[i] == hc[i]);
        }
        assert((m + hcl)[0] == '[');
        assert(trim_start(m + hcl) == m + hcl);
        lemma_ws_suffix_trim_end(m, hcl);
        lemma_trim_keeps(m);
        assert(trim_start(m) == m);
        assert(trim(hl) == trim(m));
    }
    assert(run(init_state(), pre) == s1);
    assert forall|j: int| 0 <= j < ps.len() implies !starts_with(
        trim_start(#[trigger] ps[j]),
        "default"@,
    ) && !starts_with(trim_start(ps[j]), seq!['[']) by {
        assert(ps[j] == strip_cr(p[j]));
        assert(section_row(p[j]));
        lemma_strip_cr_start(p[j], "default"@);
        lemma_strip_cr_start(p[j], seq!['[']);
    }
    lemma_run_keeps(s1, ps);
    let s1b = run(s1, ps);
    assert(s1b.section == Some(Section::Models));
    lemma_ws_prefix_trim_start(ind, nl + crl);
    assert(nl[0] == 'd') by {
        reveal_strlit("default = \"");
    }
    assert((nl + crl)[0] == nl[0]);
    assert(trim_start(nl + crl) == nl + crl);
    assert forall|i: int| 0 <= i < crl.len() implies is_ws(#[trigger] crl[i]) by {
        assert(crl[i] == cr[i]);
    }
    lemma_ws_suffix_trim_end(nl, crl);
    lemma_trim_keeps(nl);
    assert(trim_start(nl) == nl);
    assert(trim(wl) == trim(nl));
    assert(step(s1b, wl) == step(s1b, nl));
    lemma_default_line_step(s1b, id);
    let s2 = step(s1b, wl);
    assert(run(init_state(), all) == s2);
    assert forall|j: int| 0 <= j < rest.len() implies !starts_with(
        trim_start(#[trigger] rest[j]),
        "default"@,
    ) by {
        assert(z.len() > 0);
    }
    lemma_run_keeps(s2, rest);
    assert(run(init_state(), lines(t2)).out.default_id == Some(id));
}

/// Setting the default model of a config text whose single `[models]`
/// section (its header line ended by blanks `hc`, such as the `\r` of a
/// `\r\n` line end, or by nothing) has a `default` line (after the header
/// line and the section's other lines `p`, with any indentation) rewrites
/// that line, and reading the catalog back gives the new model, as long as
/// no later line starts, after its indentation, with `default` and the id
/// has no line breaks.
#[verifier::spinoff_prover]
#[verifier::rlimit(100)]
pub proof fn lemma_default_model_read_back_existing(
    a: Seq<char>,
    hc: Seq<char>,
    p: Seq<Seq<char>>,
    d: Seq<char>,
    z: Seq<char>,
    id: Seq<char>,
)
    requires
        first_at(a, "[models]"@) is None,
        a.len() == 0 || a.last() == '\n',
        forall|i: int| 0 <= i < hc.len() ==> is_ws(#[trigger] hc[i]),
        !has_char(hc, '\n'),
        forall|k: int| 0 <= k < p.len() ==> section_row(#[trigger] p[k]),
        starts_with(trim_start(d), "default"@),
        has_char(trim_start(d), '='),
        !has_char(d, '\n'),
        z.len() == 0 || z[0] == '\n',
        z.len() > 0 ==> forall|k: int|
            0 <= k < lines(z.skip(1)).len() ==> !starts_with(
                trim_start(#[trigger] lines(z.skip(1))[k]),
                "default"@,
            ),
        !has_char(id, '\n'),
    ensures
        catalog_of(with_default(a + ("[models]"@ + hc + seq!['\n'] + rows(p) + d + z), id)).default_id
            == Some(id),
{
    lemma_models_no_newline();
    let m = "[models]"@;
    let r = rows(p);
    let t = a + (m + hc + seq!['\n'] + r + d + z);
    let l = a.len() as int;
    let k: int = d.len() - trim_start(d).len();
    lemma_trim_start_split(d);
    let ind = d.take(k);
    lemma_rewrite_existing(a, hc, p, d, z, id);
    lemma_trim_newlines_split(d);
    let dn = trim_newlines(d).len() as int;
    let cr = d.skip(dn);
    assert(t.take(l + 9int + hc.len() + r.len() + k) =~= a + (m + hc + seq!['\n']) + r + ind);
    assert(t.skip(l + 9int + hc.len() + r.len() + dn) =~= cr + z);
    assert(with_default(t, id) =~= a + (m + hc + seq!['\n']) + r + (ind + default_line(id) + cr) + z);
    assert forall|i: int| 0 <= i < cr.len() implies #[trigger] cr[i] == '\r' by {
        assert(cr[i] == d[dn + i]);
        assert(d[dn + i] != '\n');
    }
    assert forall|i: int| 0 <= i < ind.len() implies is_ws(#[trigger] ind[i]) by {
        assert(ind[i] == d[i]);
    }
    assert(!has_char(ind, '\n')) by {
        assert forall|i: int| 0 <= i < ind.len() implies ind[i] != '\n' by {
            assert(ind[i] == d[i]);
        }
    }
    lemma_read_back_lines(a, hc, p, ind, cr, z, id);
}

/// `find_char_from` gives the first occurrence: none lies before it, and
/// with none found, none lies after `k`.
#[verifier::spinoff_prover]
proof fn lemma_find_char_first(s: Seq<char>, c: char, k: int)
    requires
        0 <= k,
    ensures
        match find_char_from(s, c, k) {
            Some(j) => k <= j < s.len() && s[j] == c && forall|i: int| k <= i < j ==> s[i] != c,
            None => forall|i: int| k <= i < s.len() ==> s[i] != c,
        },
    decreases s.len() - k,
{
    if k < s.len() && s[k] != c {
        lemma_find_char_first(s, c, k + 1);
    }
}

/// With no line that starts (after indentation) with `default` from `off`
/// on, the scan for a `default` line finds none.
#[verifier::spinoff_prover]
proof fn lemma_no_default_line(s: Seq<char>, off: int)
    requires
        0 <= off,
        forall|i: int|
            off <= i < s.len() && (i == off || s[i - 1] == '\n') ==> !starts_with(
                trim_start(#[trigger] s.subrange(i, line_end(s, i))),
                "default"@,
            ),
    ensures
        default_line_from(s, off) is None,
    decreases s.len() - off,
{
    if off < s.len() {
        lemma_find_char_bounds(s, '\n', off);
        let e = line_end(s, off);
        assert(!starts_with(trim_start(s.subrange(off, line_end(s, off))), "default"@));
        if e < s.len() {
            assert(s[e - 1] == '\n');
            assert forall|i: int|
                e <= i < s.len() && (i == e || s[i - 1] == '\n') implies !starts_with(
                trim_start(#[trigger] s.subrange(i, line_end(s, i))),
                "default"@,
            ) by {}
            lemma_no_default_line(s, e);
        }
    }
}

/// A line of `y`, from its start to the line break that ends it (or the
/// end of `y`), is one of `lines(y)`, without the `\r` before the break.
#[verifier::spinoff_prover]
proof fn lemma_line_in_lines(y: Seq<char>, i: int, j: int)
    requires
        0 <= i < j <= y.len(),
        i == 0 || y[i - 1] == '\n',
        forall|c: int| i <= c < j ==> y[c] != '\n',
        j == y.len() || y[j] == '\n',
    ensures
        exists|k: int|
            0 <= k < lines(y).len() && (#[trigger] lines(y)[k] == y.subrange(i, j) || lines(y)[k]
                == strip_cr(y.subrange(i, j))),
{
    let y1 = y.take(i);
    let y2 = y.skip(i);
    assert(y =~= y1 + y2);
    if i > 0 {
        assert(y1.last() == y[i - 1]);
        lemma_split_ended(y1);
    } else {
        assert(y1 =~= Seq::<char>::empty());
    }
    lemma_split_concat(y1, y2);
    let x = y.subrange(i, j);
    assert(!has_char(x, '\n')) by {
        assert forall|c: int| 0 <= c < x.len() implies x[c] != '\n' by {
            assert(x[c] == y[i + c]);
        }
    }
    let s1 = split_acc(y1, '\n').0;
    let f = |l: Seq<char>| strip_cr(l);
    if j < y.len() {
        let y3 = y.skip(j + 1);
        assert(y2 =~= x.push('\n') + y3);
        lemma_split_line(x);
        lemma_split_concat(x.push('\n'), y3);
        let sp = split_acc(y, '\n');
        assert(sp.0 =~= s1 + (seq![x] + split_acc(y3, '\n').0));
        assert(sp.0[s1.len() as int] == x);
        assert(lines(y)[s1.len() as int] == f(sp.0[s1.len() as int]));
        assert(lines(y)[s1.len() as int] == strip_cr(x));
    } else {
        assert(y2 =~= x);
        lemma_split_no_newline(x);
        let sp = split_acc(y, '\n');
        assert(sp.0 =~= s1 + Seq::<Seq<char>>::empty());
        assert(sp.1 == x);
        assert(lines(y) == sp.0.map_values(f).push(x));
        assert(lines(y)[s1.len() as int] == x);
    }
}

/// A line that after its indentation starts with `default` does so still
/// once a `\r` that ends it is dropped.
#[verifier::spinoff_prover]
proof fn lemma_strip_cr_default(x: Seq<char>)
    requires
        starts_with(trim_start(x), "default"@),
    ensures
        starts_with(trim_start(strip_cr(x)), "default"@),
{
    reveal_strlit("default");
    if x.len() > 0 && x.last() == '\r' {
        let tx = trim_start(x);
        lemma_trim_start_split(x);
        let c = x.len() - tx.len();
        assert(tx.subrange(0, 7) =~= "default"@);
        assert(tx[6] == 't') by {
            assert(tx.subrange(0, 7)[6] == tx[6]);
        }
        assert(x[c + 6] == tx[6]);
        assert(c + 6 != x.len() - 1);
        let x2 = x.drop_last();
        assert(x2 =~= x.take(x.len() - 1));
        lemma_trim_start_take(x, x.len() - 1);
        lemma_trim_start_split(x2);
        let t2 = trim_start(x2);
        let c2 = x2.len() - t2.len();
        assert(x2[c] == x[c]);
        assert(tx[0] == 'd') by {
            assert(tx.subrange(0, 7)[0] == tx[0]);
        }
        assert(x[c] == tx[0]);
        assert(!is_ws(x2[c]));
        assert(c2 <= c);
        assert(t2.len() >= 7);
        assert(t2.subrange(0, 7) =~= tx.subrange(0, 7));
    }
}

/// A line with no line break that after its indentation does not start
/// with `default` does not either with a line break after it.
#[verifier::spinoff_prover]
proof fn lemma_line_not_default(x: Seq<char>)
    requires
        !has_char(x, '\n'),
        !starts_with(trim_start(x), "default"@),
    ensures
        !starts_with(trim_start(x + seq!['\n']), "default"@),
{
    reveal_strlit("default");
    lemma_trim_start_split(x);
    let tx = trim_start(x);
    if tx.len() > 0 {
        lemma_trim_start_append(x, seq!['\n']);
        let t = tx + seq!['\n'];
        if starts_with(t, "default"@) {
            if tx.len() >= 7 {
                assert(tx.subrange(0, 7) =~= t.subrange(0, 7));
            } else {
                assert(tx.len() == 6);
                assert(t[6] == '\n');
                assert(t.subrange(0, 7)[6] == t[6]);
            }
        }
    } else {
        lemma_ws_prefix_trim_start(x, seq!['\n']);
        assert(is_ws('\n'));
        assert(seq!['\n'].drop_first() =~= Seq::<char>::empty());
        assert(trim_start(seq!['\n']) == trim_start(Seq::<char>::empty()));
        assert(trim_start(Seq::<char>::empty()) =~= Seq::<char>::empty());
    }
}

/// Line breaks and lines are found in `h + y` as in `y`, moved by the
/// length of `h`.
#[verifier::spinoff_prover]
proof fn lemma_find_char_shift(h: Seq<char>, y: Seq<char>, c: char, k: int)
    requires
        h.len() <= k,
    ensures
        find_char_from(h + y, c, k) == (match find_char_from(y, c, k - h.len()) {
            Some(j) => Some(j + h.len()),
            None => None,
        }),
    decreases (h + y).len() - k,
{
    if k < (h + y).len() {
        assert((h + y)[k] == y[k - h.len()]);
        lemma_find_char_shift(h, y, c, k + 1);
    }
}

/// A line of the text after the `[models]` header line, cut where the
/// section ends, does not start with `default` after its indentation when
/// no line of that text does.
#[verifier::spinoff_prover]
proof fn lemma_cut_line(y: Seq<char>, nn: int, iy: int)
    requires
        0 <= iy < nn <= y.len(),
        nn == y.len() || y[nn] == '\n',
        iy == 0 || y[iy - 1] == '\n',
        forall|k: int|
            0 <= k < lines(y).len() ==> !starts_with(trim_start(#[trigger] lines(y)[k]), "default"@),
    ensures
        !starts_with(
            trim_start(y.take(nn).subrange(iy, line_end(y.take(nn), iy))),
            "default"@,
        ),
{
    let yt = y.take(nn);
    lemma_find_char_first(yt, '\n', iy);
    let jj: int = match find_char_from(yt, '\n', iy) {
        Some(j) => j,
        None => nn,
    };
    assert forall|c: int| iy <= c < jj implies y[c] != '\n' by {
        assert(yt[c] == y[c]);
    }
    assert(jj == y.len() || y[jj] == '\n') by {
        if jj < nn {
            assert(yt[jj] == y[jj]);
        }
    }
    let x = y.subrange(iy, jj);
    assert(!has_char(x, '\n')) by {
        assert forall|c: int| 0 <= c < x.len() implies x[c] != '\n' by {
            assert(x[c] == y[iy + c]);
        }
    }
    if iy < jj {
        assert(iy == 0 || y[iy - 1] == '\n');
        lemma_line_in_lines(y, iy, jj);
        let k = choose|k: int|
            0 <= k < lines(y).len() && (#[trigger] lines(y)[k] == y.subrange(iy, jj) || lines(y)[k]
                == strip_cr(y.subrange(iy, jj)));
        assert(!starts_with(trim_start(lines(y)[k]), "default"@));
        if starts_with(trim_start(x), "default"@) {
            lemma_strip_cr_default(x);
        }
        assert(!starts_with(trim_start(x), "default"@));
    } else {
        assert(x =~= Seq::<char>::empty());
        assert(!starts_with(trim_start(x), "default"@)) by {
            reveal_strlit("default");
        }
    }
    lemma_line_not_default(x);
    if jj < nn {
        assert(yt.subrange(iy, jj + 1) =~= x + seq!['\n']);
    } else {
        assert(yt.subrange(iy, nn) =~= x);
    }
}

/// A line of the section (cut where the section ends) after its header
/// line does not start with `default` after its indentation when no line
/// after the header does.
#[verifier::spinoff_prover]
#[verifier::rlimit(60)]
proof fn lemma_sec_line(hc: Seq<char>, y: Seq<char>, nn: int, i: int)
    requires
        0 <= nn <= y.len(),
        nn == y.len() || y[nn] == '\n',
        forall|k: int|
            0 <= k < lines(y).len() ==> !starts_with(trim_start(#[trigger] lines(y)[k]), "default"@),
        9 + hc.len() <= i < 9 + hc.len() + nn,
        ("[models]"@ + hc + seq!['\n'] + y.take(nn))[i - 1] == '\n',
        "[models]"@.len() == 8,
    ensures
        !starts_with(
            trim_start(
                ("[models]"@ + hc + seq!['\n'] + y.take(nn)).subrange(
                    i,
                    line_end("[models]"@ + hc + seq!['\n'] + y.take(nn), i),
                ),
            ),
            "default"@,
        ),
{
    let h = "[models]"@ + hc + seq!['\n'];
    let yt = y.take(nn);
    let sec = h + yt;
    let g = h.len() as int;
    let iy = i - g;
    lemma_find_char_shift(h, yt, '\n', i);
    lemma_find_char_bounds(yt, '\n', iy);
    assert(line_end(sec, i) == line_end(yt, iy) + g);
    assert(sec.subrange(i, line_end(sec, i)) =~= yt.subrange(iy, line_end(yt, iy)));
    if iy > 0 {
        assert(sec[i - 1] == yt[iy - 1]);
        assert(y[iy - 1] == yt[iy - 1]);
    }
    lemma_cut_line(y, nn, iy);
}

/// The `[models]` section, cut where it ends, has no `default` line when
/// no line after its header starts with `default`.
#[verifier::spinoff_prover]
#[verifier::rlimit(60)]
proof fn lemma_sec_no_default(hc: Seq<char>, z: Seq<char>, n8: int)
    requires
        !has_char(hc, '\n'),
        0 <= n8 <= z.len(),
        n8 == z.len() || z[n8] == '\n',
        z.len() == 0 || z[0] == '\n',
        z.len() > 0 ==> forall|k: int|
            0 <= k < lines(z.skip(1)).len() ==> !starts_with(
                trim_start(#[trigger] lines(z.skip(1))[k]),
                "default"@,
            ),
    ensures
        default_line_from("[models]"@ + hc + z.take(n8), 0) is None,
{
    lemma_models_no_newline();
    reveal_strlit("[models]");
    reveal_strlit("default");
    let m = "[models]"@;
    let mh = m + hc;
    let sec = mh + z.take(n8);
    let g = mh.len() as int;
    assert forall|c: int| 0 <= c < g implies mh[c] != '\n' by {
        if c < 8 {
            assert(mh[c] == m[c]);
        } else {
            assert(mh[c] == hc[c - 8]);
        }
    }
    assert(mh[0] == '[');
    if n8 == 0 {
        assert(sec =~= mh);
        assert forall|i: int|
            0 <= i < sec.len() && (i == 0 || sec[i - 1] == '\n') implies !starts_with(
            trim_start(#[trigger] sec.subrange(i, line_end(sec, i))),
            "default"@,
        ) by {
            lemma_find_none(sec, '\n', 0);
            assert(sec.subrange(0, g) =~= mh);
            assert(trim_start(mh) == mh);
            assert(mh.subrange(0, 7)[0] != "default"@[0]);
        }
        lemma_no_default_line(sec, 0);
    } else {
        let y = z.skip(1);
        let nn = n8 - 1;
        let yt = y.take(nn);
        let h = m + hc + seq!['\n'];
        assert(z.take(n8) =~= seq!['\n'] + yt);
        assert(sec =~= h + yt);
        assert(nn == y.len() || y[nn] == '\n') by {
            if nn < y.len() {
                assert(y[nn] == z[n8]);
            }
        }
        assert forall|i: int|
            0 <= i < sec.len() && (i == 0 || sec[i - 1] == '\n') implies !starts_with(
            trim_start(#[trigger] sec.subrange(i, line_end(sec, i))),
            "default"@,
        ) by {
            if i == 0 {
                assert forall|c: int| 0 <= c < g implies sec[c] != '\n' by {
                    assert(sec[c] == mh[c]);
                }
                assert(sec[g] == '\n');
                lemma_find_char_is(sec, '\n', 0, g);
                assert(sec.subrange(0, g + 1) =~= h);
                assert(h[0] == '[');
                assert(trim_start(h) == h);
                assert(h.subrange(0, 7)[0] != "default"@[0]);
            } else if i <= g {
                assert(sec[i - 1] == mh[i - 1]);
            } else {
                lemma_sec_line(hc, y, nn, i);
            }
        }
        lemma_no_default_line(sec, 0);
    }
}

/// The next section starts at a line break.
#[verifier::spinoff_prover]
proof fn lemma_next_header(z: Seq<char>)
    ensures
        match first_at(z, "\n["@) {
            Some(i) => 0 <= i < z.len() && z[i] == '\n',
            None => true,
        },
{
    reveal_strlit("\n[");
    if let Some(i) = first_at(z, "\n["@) {
        let k0 = choose|k: int| occurs_at(z, "\n["@, k);
        lemma_min_occurrence(z, "\n["@, k0);
        assert(occurs_at(z, "\n["@, i));
        assert(z.subrange(i, i + 2)[0] == z[i]);
    }
}

/// In a text with a single `[models]` section none of whose lines after
/// the header starts with `default`, the scan finds no `default` line.
#[verifier::spinoff_prover]
#[verifier::rlimit(100)]
proof fn lemma_absent_section(a: Seq<char>, hc: Seq<char>, z: Seq<char>, end: int)
    requires
        first_at(a, "[models]"@) is None,
        a.len() == 0 || a.last() == '\n',
        !has_char(hc, '\n'),
        z.len() == 0 || z[0] == '\n',
        z.len() > 0 ==> forall|k: int|
            0 <= k < lines(z.skip(1)).len() ==> !starts_with(
                trim_start(#[trigger] lines(z.skip(1))[k]),
                "default"@,
            ),
        end == (match first_at((a + ("[models]"@ + hc + z)).skip(a.len() + 8int), "\n["@) {
            Some(i) => a.len() + 8 + i,
            None => (a + ("[models]"@ + hc + z)).len() as int,
        }),
    ensures
        first_at(a + ("[models]"@ + hc + z), "[models]"@) == Some(a.len() as int),
        default_line_from((a + ("[models]"@ + hc + z)).subrange(a.len() as int, end), 0) is None,
{
    lemma_models_no_newline();
    reveal_strlit("\n[");
    let m = "[models]"@;
    let rest = m + hc + z;
    let t = a + rest;
    let l = a.len() as int;
    assert(rest.subrange(0, 8) =~= m);
    lemma_header_first_at(a, rest);
    let u = t.skip(l + 8);
    assert(u =~= hc + z);
    lemma_next_header(u);
    let n8: int = match first_at(u, "\n["@) {
        Some(i) => i - hc.len(),
        None => z.len() as int,
    };
    if let Some(i) = first_at(u, "\n["@) {
        if i < hc.len() {
            assert(u[i] == hc[i]);
        }
        assert(u[i] == z[i - hc.len()]);
    }
    assert(end == l + 8 + hc.len() + n8);
    assert(t.subrange(l, end) =~= m + hc + z.take(n8));
    lemma_sec_no_default(hc, z, n8);
}

#[verifier::spinoff_prover]
proof fn lemma_with_default_inserts(t: Seq<char>, id: Seq<char>, idx: int, end: int)
    requires
        first_at(t, "[models]"@) == Some(idx),
        end == (match first_at(t.skip(idx + 8), "\n["@) {
            Some(i) => idx + 8 + i,
            None => t.len() as int,
        }),
        default_line_from(t.subrange(idx, end), 0) is None,
    ensures
        with_default(t, id) == t.take(idx + 8) + seq!['\n'] + default_line(id) + (if starts_with(
            t.skip(idx + 8),
            seq!['\n'],
        ) {
            Seq::<char>::empty()
        } else {
            seq!['\n']
        }) + t.skip(idx + 8),
{
    reveal(with_default);
    reveal_strlit("[models]");
}

/// Where the `[models]` section has no `default` line, `with_default`
/// puts the line right after the header line, ended by a line break.
#[verifier::spinoff_prover]
#[verifier::rlimit(100)]
proof fn lemma_insert_shape(a: Seq<char>, hc: Seq<char>, z: Seq<char>, id: Seq<char>, end: int)
    requires
        "[models]"@.len() == 8,
        first_at(a + ("[models]"@ + hc + z), "[models]"@) == Some(a.len() as int),
        end == (match first_at((a + ("[models]"@ + hc + z)).skip(a.len() + 8int), "\n["@) {
            Some(i) => a.len() + 8 + i,
            None => (a + ("[models]"@ + hc + z)).len() as int,
        }),
        default_line_from((a + ("[models]"@ + hc + z)).subrange(a.len() as int, end), 0) is None,
        !has_char(hc, '\n'),
        z.len() == 0 || z[0] == '\n',
    ensures
        with_default(a + ("[models]"@ + hc + z), id) == a + "[models]"@ + seq!['\n'] + default_line(
            id,
        ) + (if hc.len() == 0 && z.len() > 0 {
            z
        } else {
            seq!['\n'] + hc + z
        }),
{
    let m = "[models]"@;
    let t = a + (m + hc + z);
    let l = a.len() as int;
    let e = Seq::<char>::empty();
    lemma_with_default_inserts(t, id, l, end);
    let u = t.skip(l + 8);
    assert(t.take(l + 8) =~= a + m);
    assert(u =~= hc + z);
    let nl = default_line(id);
    let x: Seq<char> = if starts_with(u, seq!['\n']) {
        e
    } else {
        seq!['\n']
    };
    assert(with_default(t, id) == (a + m) + seq!['\n'] + nl + x + u);
    if hc.len() == 0 && z.len() > 0 {
        assert(u =~= z);
        assert(starts_with(u, seq!['\n'])) by {
            assert(u.subrange(0, 1) =~= seq!['\n']);
        }
        assert((a + m) + seq!['\n'] + nl + x + u =~= a + m + seq!['\n'] + nl + z);
    } else {
        assert(!starts_with(u, seq!['\n'])) by {
            if starts_with(u, seq!['\n']) {
                assert(u.subrange(0, 1)[0] == u[0]);
                if hc.len() > 0 {
                    assert(u[0] == hc[0]);
                }
            }
        }
        assert((a + m) + seq!['\n'] + nl + x + u =~= a + m + seq!['\n'] + nl + (seq!['\n'] + hc + z));
    }
}

/// Setting the default model of a config text whose single `[models]`
/// section has no `default` line puts the line right after the header
/// line, ended by a line break.
proof fn lemma_insert_text(a: Seq<char>, hc: Seq<char>, z: Seq<char>, id: Seq<char>)
    requires
        first_at(a, "[models]"@) is None,
        a.len() == 0 || a.last() == '\n',
        !has_char(hc, '\n'),
        z.len() == 0 || z[0] == '\n',
        z.len() > 0 ==> forall|k: int|
            0 <= k < lines(z.skip(1)).len() ==> !starts_with(
                trim_start(#[trigger] lines(z.skip(1))[k]),
                "default"@,
            ),
    ensures
        with_default(a + ("[models]"@ + hc + z), id) == a + "[models]"@ + seq!['\n'] + default_line(
            id,
        ) + (if hc.len() == 0 && z.len() > 0 {
            z
        } else {
            seq!['\n'] + hc + z
        }),
{
    lemma_models_no_newline();
    let t = a + ("[models]"@ + hc + z);
    let end: int = match first_at(t.skip(a.len() + 8int), "\n["@) {
        Some(i) => a.len() + 8 + i,
        None => t.len() as int,
    };
    lemma_absent_section(a, hc, z, end);
    lemma_insert_shape(a, hc, z, id, end);
}

/// The lines of the text after the `[models]` header: the rest of the
/// header line, then the lines after it.
#[verifier::spinoff_prover]
proof fn lemma_lines_after_header(hc: Seq<char>, z: Seq<char>)
    requires
        !has_char(hc, '\n'),
        z.len() == 0 || z[0] == '\n',
    ensures
        z.len() == 0 ==> lines(hc + z) == (if hc.len() > 0 {
            seq![hc]
        } else {
            Seq::<Seq<char>>::empty()
        }),
        z.len() > 0 ==> lines(hc + z) == seq![strip_cr(hc)] + lines(z.skip(1)),
{
    lemma_split_no_newline(hc);
    if z.len() == 0 {
        assert(hc + z =~= hc);
    } else {
        let zr = z.skip(1);
        assert(hc + z =~= hc.push('\n') + zr);
        lemma_split_line(hc);
        lemma_split_concat(hc.push('\n'), zr);
        let sz = split_acc(zr, '\n');
        let f = |l: Seq<char>| strip_cr(l);
        assert(split_acc(hc + z, '\n').0 =~= seq![hc] + sz.0);
        assert((seq![hc] + sz.0).map_values(f) =~= seq![strip_cr(hc)] + sz.0.map_values(f));
        assert(lines(hc + z) =~= seq![strip_cr(hc)] + lines(zr));
    }
}

/// Setting the default model of a config text whose single `[models]`
/// section (its header line ended by blanks `hc` or by nothing) has no
/// `default` line puts one right after the header line, and reading the
/// catalog back gives the new model, as long as no line after the header
/// starts, after its indentation, with `default` and the id has no line
/// breaks.
pub proof fn lemma_default_model_read_back_inserted(
    a: Seq<char>,
    hc: Seq<char>,
    z: Seq<char>,
    id: Seq<char>,
)
    requires
        first_at(a, "[models]"@) is None,
        a.len() == 0 || a.last() == '\n',
        forall|i: int| 0 <= i < hc.len() ==> is_ws(#[trigger] hc[i]),
        !has_char(hc, '\n'),
        z.len() == 0 || z[0] == '\n',
        z.len() > 0 ==> forall|k: int|
            0 <= k < lines(z.skip(1)).len() ==> !starts_with(
                trim_start(#[trigger] lines(z.skip(1))[k]),
                "default"@,
            ),
        !has_char(id, '\n'),
    ensures
        catalog_of(with_default(a + ("[models]"@ + hc + z), id)).default_id == Some(id),
{
    reveal_strlit("default");
    lemma_insert_text(a, hc, z, id);
    let e = Seq::<char>::empty();
    let p = Seq::<Seq<char>>::empty();
    let z2 = if hc.len() == 0 && z.len() > 0 {
        z
    } else {
        seq!['\n'] + hc + z
    };
    if !(hc.len() == 0 && z.len() > 0) {
        assert(z2.skip(1) =~= hc + z);
        lemma_lines_after_header(hc, z);
        let hcl = strip_cr(hc);
        assert(trim_start(hc) =~= e) by {
            lemma_ws_prefix_trim_start(hc, e);
            assert(hc + e =~= hc);
        }
        assert(trim_start(hcl) =~= e) by {
            assert forall|i: int| 0 <= i < hcl.len() implies is_ws(#[trigger] hcl[i]) by {
                assert(hcl[i] == hc[i]);
            }
            lemma_ws_prefix_trim_start(hcl, e);
            assert(hcl + e =~= hcl);
        }
        assert forall|k: int| 0 <= k < lines(z2.skip(1)).len() implies !starts_with(
            trim_start(#[trigger] lines(z2.skip(1))[k]),
            "default"@,
        ) by {
            if z.len() > 0 && k > 0 {
                assert(lines(z2.skip(1))[k] == lines(z.skip(1))[k - 1]);
            }
        }
    }
    assert forall|i: int| 0 <= i < e.len() implies is_ws(#[trigger] e[i]) by {}
    assert(rows(p) =~= e);
    assert(with_default(a + ("[models]"@ + hc + z), id) =~= a + ("[models]"@ + e + seq!['\n'])
        + rows(p) + (e + default_line(id) + e) + z2);
    lemma_read_back_lines(a, e, p, e, e, z2, id);
}

/// The `env_key` that stands for a key written in the config itself.
pub const INLINE_API_KEY: &'static str = "__inline_api_key__";

/// The model keys to look up in the system's environment store: those
/// that are no inline key and not set (non-empty) in the process already;
/// `present[i]` tells whether `keys[i]` is.
pub fn keys_to_hydrate(keys: &Vec<String>, present: &[bool]) -> (r: Vec<String>)
    requires
        present@.len() == keys@.len(),
    ensures
        forall|s: Seq<char>|
            sviews(r@).contains(s) <==> exists|i: int|
                0 <= i < keys@.len() && #[trigger] keys@[i]@ == s && s != INLINE_API_KEY@
                    && !present@[i],
        r@.len() <= keys@.len(),
{
    let mut out: Vec<String> = Vec::new();
    let mut i: usize = 0;
    while i < keys.len()
        invariant
            i <= keys@.len(),
            present@.len() == keys@.len(),
            out@.len() <= i,
            forall|s: Seq<char>|
                sviews(out@).contains(s) <==> exists|k: int|
                    0 <= k < i && #[trigger] keys@[k]@ == s && s != INLINE_API_KEY@
                        && !present@[k],
        decreases keys.len() - i,
    {
        let key = chars_of(keys[i].as_str());
        let inline = eq_str(&key, INLINE_API_KEY);
        let here = present[i];
        assert(inline == (keys@[i as int]@ == INLINE_API_KEY@));
        assert(here == present@[i as int]);
        let ghost before = sviews(out@);
        let ghost ki = keys@[i as int]@;
        if !inline && !here {
            let k = keys[i].clone();
            out.push(k);
            assert(sviews(out@) =~= before.push(ki));
        }
        assert forall|s: Seq<char>|
            sviews(out@).contains(s) <==> exists|k: int|
                0 <= k < i + 1 && #[trigger] keys@[k]@ == s && s != INLINE_API_KEY@
                    && !present@[k] by {
            if sviews(out@).contains(s) {
                if before.contains(s) {
                    let k = choose|k: int|
                        0 <= k < i && #[trigger] keys@[k]@ == s && s != INLINE_API_KEY@
                            && !present@[k];
                    assert(0 <= k < i + 1 && keys@[k]@ == s);
                } else {
                    let j = choose|j: int| 0 <= j < sviews(out@).len() && sviews(out@)[j] == s;
                    if j < before.len() {
                        assert(before[j] == s);
                        assert(before.contains(s));
                    }
                    assert(s == ki);
                    assert(keys@[i as int]@ == s);
                }
            }
            if exists|k: int|
                0 <= k < i + 1 && #[trigger] keys@[k]@ == s && s != INLINE_API_KEY@
                    && !present@[k] {
                let k = choose|k: int|
                    0 <= k < i + 1 && #[trigger] keys@[k]@ == s && s != INLINE_API_KEY@
                        && !present@[k];
                if k < i {
                    assert(before.contains(s));
                    let j = choose|j: int| 0 <= j < before.len() && before[j] == s;
                    assert(sviews(out@)[j] == s);
                } else {
                    assert(sviews(out@)[sviews(out@).len() - 1] == s);
                }
            }
        }
        i = i + 1;
    }
    out
}

/// Whether some configured model has credentials now: an inline key, or an
/// `env_key` set (non-empty) in the process; `present[i]` tells whether
/// `keys[i]` is.
pub fn any_usable_credentials(keys: &Vec<String>, present: &[bool]) -> (r: bool)
    requires
        present@.len() == keys@.len(),
    ensures
        r == exists|i: int|
            #![trigger keys@[i]]
            0 <= i < keys@.len() && (keys@[i]@ == INLINE_API_KEY@ || present@[i]),
{
    let mut i: usize = 0;
    while i < keys.len()
        invariant
            i <= keys@.len(),
            present@.len() == keys@.len(),
            forall|k: int|
                #![trigger keys@[k]]
                0 <= k < i ==> !(keys@[k]@ == INLINE_API_KEY@ || present@[k]),
        decreases keys.len() - i,
    {
        let key = chars_of(keys[i].as_str());
        let inline = eq_str(&key, INLINE_API_KEY);
        let here = present[i];
        assert(inline == (keys@[i as int]@ == INLINE_API_KEY@));
        assert(here == present@[i as int]);
        if here || inline {
            assert(0 <= i < keys@.len() && (keys@[i as int]@ == INLINE_API_KEY@ || present@[i as int]));
            return true;
        }
        assert forall|k: int| 0 <= k < i + 1 implies !(#[trigger] keys@[k]@ == INLINE_API_KEY@
            || present@[k]) by {
            if k == i {
                assert(!(keys@[i as int]@ == INLINE_API_KEY@ || present@[i as int]));
            }
        }
        i = i + 1;
    }
    false
}

/// Whether one line of the config has no lone quote for its value.
pub open spec fn line_readable(raw: Seq<char>) -> bool {
    let t = trim(raw);
    (t.len() > 0 && !starts_with(t, seq!['#']) && !is_header(t)) ==> match find_char_from(
        t,
        '=',
        0,
    ) {
        Some(i) => !lone_quote(trim(t.skip(i + 1))),
        None => true,
    }
}

fn line_is_readable(raw: &[char]) -> (r: bool)
    ensures
        r == line_readable(raw@),
{
    let line = trimmed(raw);
    proof {
        lemma_ends(line@, '#');
        lemma_ends(line@, '[');
        lemma_ends(line@, ']');
    }
    if line.len() == 0 || line[0] == '#' {
        return true;
    }
    if line[0] == '[' && line[line.len() - 1] == ']' {
        return true;
    }
    match find_char(line.as_slice(), '=') {
        None => true,
        Some(i) => {
            let rest = slice_to_vec(slice_subrange(line.as_slice(), i + 1, line.len()));
            assert(rest@ =~= line@.skip(i + 1));
            let v = trimmed(&rest);
            let vv = trimmed(&v);
            proof {
                lemma_ends(vv@, '"');
                lemma_ends(vv@, '\'');
            }
            !(vv.len() == 1 && (vv[0] == '"' || vv[0] == '\''))
        },
    }
}

/// Whether `parse_models_catalog` can read the config (`values_readable`).
pub fn catalog_readable(text: &str) -> (r: bool)
    ensures
        r == values_readable(text@),
{
    let cs = chars_of(text);
    let ls = lines_of(&cs);
    let mut k: usize = 0;
    while k < ls.len()
        invariant
            k <= ls.len(),
            views(ls@) == lines(text@),
            forall|j: int| 0 <= j < k ==> line_readable(#[trigger] lines(text@)[j]),
        decreases ls.len() - k,
    {
        assert(views(ls@)[k as int] == ls@[k as int]@);
        if !line_is_readable(ls[k].as_slice()) {
            assert(!line_readable(lines(text@)[k as int]));
            return false;
        }
        k = k + 1;
    }
    assert forall|j: int| 0 <= j < lines(text@).len() implies line_readable(
        #[trigger] lines(text@)[j],
    ) by {}
    true
}

} // verus!
