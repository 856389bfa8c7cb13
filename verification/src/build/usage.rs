//! Token usage of a session, the record of each conversation turn, and the
//! summaries of usage by model and by task.

use vstd::prelude::*;
use crate::clock::now_unix;
use crate::text::{
    chars_lt, chars_of, copy_strings, dec, decimal, lines, lines_of, push_chars, push_str,
    seq_lt, string_of, sviews, trim, trimmed, views,
};

verus! {

/// A token bill: what a turn cost, or the running totals of a session.
#[derive(Debug, Clone, Copy, PartialEq, Eq, Structural)]
pub struct TokenUsage {
    pub total_tokens: u64,
    pub input_tokens: u64,
    pub output_tokens: u64,
    pub thought_tokens: u64,
    pub cached_read_tokens: u64,
    /// Context window currently used, if known.
    pub context_used: Option<u64>,
    /// Context window size, if known.
    pub context_size: Option<u64>,
}

/// `u64::saturating_add`.
pub open spec fn sat_add(a: u64, b: u64) -> u64 {
    if a + b > u64::MAX {
        u64::MAX
    } else {
        (a + b) as u64
    }
}

/// `a.or(b)`: the first value that is known.
pub open spec fn or_known(a: Option<u64>, b: Option<u64>) -> Option<u64> {
    match a {
        Some(x) => Some(x),
        None => b,
    }
}

/// Session totals after a turn's bill is added: token counts add up (held at
/// `u64::MAX`), and a context figure the turn reports replaces the old one.
pub open spec fn added(a: TokenUsage, t: TokenUsage) -> TokenUsage {
    TokenUsage {
        total_tokens: sat_add(a.total_tokens, t.total_tokens),
        input_tokens: sat_add(a.input_tokens, t.input_tokens),
        output_tokens: sat_add(a.output_tokens, t.output_tokens),
        thought_tokens: sat_add(a.thought_tokens, t.thought_tokens),
        cached_read_tokens: sat_add(a.cached_read_tokens, t.cached_read_tokens),
        context_used: or_known(t.context_used, a.context_used),
        context_size: or_known(t.context_size, a.context_size),
    }
}

/// The bill with nothing on it.
pub open spec fn no_usage() -> TokenUsage {
    TokenUsage {
        total_tokens: 0,
        input_tokens: 0,
        output_tokens: 0,
        thought_tokens: 0,
        cached_read_tokens: 0,
        context_used: None,
        context_size: None,
    }
}

impl Default for TokenUsage {
    fn default() -> (r: TokenUsage)
        ensures
            r == no_usage(),
    {
        TokenUsage {
            total_tokens: 0,
            input_tokens: 0,
            output_tokens: 0,
            thought_tokens: 0,
            cached_read_tokens: 0,
            context_used: None,
            context_size: None,
        }
    }
}

impl TokenUsage {
    /// Adds a per-turn bill onto session totals.
    pub fn add_turn(&mut self, turn: &TokenUsage)
        ensures
            *final(self) == added(*old(self), *turn),
    {
        self.total_tokens = self.total_tokens.saturating_add(turn.total_tokens);
        self.input_tokens = self.input_tokens.saturating_add(turn.input_tokens);
        self.output_tokens = self.output_tokens.saturating_add(turn.output_tokens);
        self.thought_tokens = self.thought_tokens.saturating_add(turn.thought_tokens);
        self.cached_read_tokens = self.cached_read_tokens.saturating_add(turn.cached_read_tokens);
        if turn.context_used.is_some() {
            self.context_used = turn.context_used;
        }
        if turn.context_size.is_some() {
            self.context_size = turn.context_size;
        }
    }
}

/// Adding an empty bill changes nothing.
pub proof fn lemma_add_no_usage(a: TokenUsage)
    ensures
        added(a, no_usage()) == a,
{
}

/// Adding bills one after the other is the same as adding their sum: the
/// order in which turns are grouped does not change the session totals.
pub proof fn lemma_add_grouping(a: TokenUsage, b: TokenUsage, c: TokenUsage)
    ensures
        added(added(a, b), c) == added(a, added(b, c)),
{
}

/// Adding a bill never lowers a token count.
pub proof fn lemma_add_monotone(a: TokenUsage, t: TokenUsage)
    ensures
        added(a, t).total_tokens >= a.total_tokens,
        added(a, t).input_tokens >= a.input_tokens,
        added(a, t).output_tokens >= a.output_tokens,
        added(a, t).thought_tokens >= a.thought_tokens,
        added(a, t).cached_read_tokens >= a.cached_read_tokens,
{
}

/// One conversation turn as it is logged.
#[derive(Debug)]
pub struct TurnRecord {
    pub id: String,
    pub session_id: String,
    pub model_id: String,
    pub model_name: String,
    pub started_at: String,
    pub finished_at: String,
    pub stop_reason: String,
    pub user_text: String,
    pub assistant_text: String,
    pub tool_titles: Vec<String>,
    /// Session usage after this turn.
    pub usage_cumulative: TokenUsage,
    /// What this turn cost.
    pub usage_delta: TokenUsage,
}

/// A turn record as plain values.
pub struct TurnView {
    pub id: Seq<char>,
    pub session_id: Seq<char>,
    pub model_id: Seq<char>,
    pub model_name: Seq<char>,
    pub started_at: Seq<char>,
    pub finished_at: Seq<char>,
    pub stop_reason: Seq<char>,
    pub user_text: Seq<char>,
    pub assistant_text: Seq<char>,
    pub tool_titles: Seq<Seq<char>>,
    pub usage_cumulative: TokenUsage,
    pub usage_delta: TokenUsage,
}

impl View for TurnRecord {
    type V = TurnView;

    open spec fn view(&self) -> TurnView {
        TurnView {
            id: self.id@,
            session_id: self.session_id@,
            model_id: self.model_id@,
            model_name: self.model_name@,
            started_at: self.started_at@,
            finished_at: self.finished_at@,
            stop_reason: self.stop_reason@,
            user_text: self.user_text@,
            assistant_text: self.assistant_text@,
            tool_titles: sviews(self.tool_titles@),
            usage_cumulative: self.usage_cumulative,
            usage_delta: self.usage_delta,
        }
    }
}

pub open spec fn turn_views(v: Seq<TurnRecord>) -> Seq<TurnView> {
    v.map_values(|t: TurnRecord| t@)
}

impl TurnRecord {
    /// An equal copy of the record.
    pub fn duplicate(&self) -> (r: TurnRecord)
        ensures
            r@ == self@,
    {
        TurnRecord {
            id: self.id.clone(),
            session_id: self.session_id.clone(),
            model_id: self.model_id.clone(),
            model_name: self.model_name.clone(),
            started_at: self.started_at.clone(),
            finished_at: self.finished_at.clone(),
            stop_reason: self.stop_reason.clone(),
            user_text: self.user_text.clone(),
            assistant_text: self.assistant_text.clone(),
            tool_titles: copy_strings(&self.tool_titles),
            usage_cumulative: self.usage_cumulative,
            usage_delta: self.usage_delta,
        }
    }
}

/// Usage of the current session and its finished turns.
#[derive(Debug)]
pub struct SessionUsageState {
    pub cumulative: TokenUsage,
    pub turns: Vec<TurnRecord>,
    /// User text of the turn in flight (set when it is sent).
    pub pending_user_text: String,
    pub pending_started_at: String,
}

/// The bill of a turn as it is recorded: context figures the agent did not
/// report are carried over from the session, and a missing total is the sum
/// of input and output.
pub open spec fn turn_bill(reported: TokenUsage, session: TokenUsage) -> TokenUsage {
    let total = if reported.total_tokens == 0 && (reported.input_tokens > 0
        || reported.output_tokens > 0) {
        sat_add(reported.input_tokens, reported.output_tokens)
    } else {
        reported.total_tokens
    };
    TokenUsage {
        total_tokens: total,
        context_used: or_known(reported.context_used, session.context_used),
        context_size: or_known(reported.context_size, session.context_size),
        ..reported
    }
}

/// The characters whose UTF-8 encoding is the first `n` bytes of that of
/// `s`.
pub open spec fn byte_prefix(s: Seq<char>, n: int, p: Seq<char>) -> bool {
    vstd::utf8::encode_utf8(p) =~= vstd::utf8::encode_utf8(s).subrange(0, n)
}

/// The byte length at which a turn id cuts the session id.
pub open spec fn id_cut(session_id: &str) -> int {
    let len = vstd::utf8::encode_utf8(session_id@).len() as usize;
    if len < 8 {
        len as int
    } else {
        8
    }
}

impl SessionUsageState {
    pub fn new() -> (r: SessionUsageState)
        ensures
            r.cumulative == no_usage(),
            r.turns@.len() == 0,
            r.pending_user_text@.len() == 0,
            r.pending_started_at@.len() == 0,
    {
        SessionUsageState {
            cumulative: TokenUsage::default(),
            turns: Vec::new(),
            pending_user_text: String::new(),
            pending_started_at: String::new(),
        }
    }

    /// Notes the user text of the turn being sent and the time it starts.
    pub fn begin_turn(&mut self, user_text: &str)
        ensures
            final(self).pending_user_text@ == user_text@,
            exists|t: u64| final(self).pending_started_at@ == dec(t as nat),
            final(self).cumulative == old(self).cumulative,
            turn_views(final(self).turns@) == turn_views(old(self).turns@),
    {
        self.pending_user_text = user_text.to_owned();
        let now = decimal(now_unix());
        self.pending_started_at = string_of(&now);
    }

    /// Closes the turn in flight: the reported bill (`turn_bill`) is added to
    /// the session totals, and the turn's record is kept and returned for
    /// the caller to append to the turn log.
    pub fn finish_turn(
        &mut self,
        session_id: &str,
        model_id: &str,
        model_name: &str,
        stop_reason: &str,
        assistant_text: String,
        tool_titles: Vec<String>,
        reported: TokenUsage,
    ) -> (r: TurnRecord)
        requires
            vstd::utf8::is_char_boundary(
                vstd::utf8::encode_utf8(session_id@),
                id_cut(session_id),
            ),
            old(self).turns@.len() < usize::MAX,
        ensures
            r.usage_delta == turn_bill(reported, old(self).cumulative),
            final(self).cumulative == added(old(self).cumulative, r.usage_delta),
            r.usage_cumulative == final(self).cumulative,
            exists|p: Seq<char>|
                byte_prefix(session_id@, id_cut(session_id), p) && r.id@ == p + "-"@ + dec(
                    (old(self).turns@.len() + 1) as nat,
                ),
            r.session_id@ == session_id@,
            r.model_id@ == model_id@,
            r.model_name@ == model_name@,
            r.stop_reason@ == stop_reason@,
            r.assistant_text@ == assistant_text@,
            sviews(r.tool_titles@) == sviews(tool_titles@),
            r.user_text@ == old(self).pending_user_text@,
            old(self).pending_started_at@.len() > 0 ==> r.started_at@
                == old(self).pending_started_at@,
            old(self).pending_started_at@.len() == 0 ==> exists|t: u64|
                r.started_at@ == dec(t as nat),
            exists|t: u64| r.finished_at@ == dec(t as nat),
            turn_views(final(self).turns@) == turn_views(old(self).turns@).push(r@),
            final(self).pending_user_text@.len() == 0,
            final(self).pending_started_at@.len() == 0,
    {
        let mut delta = reported;
        delta.context_used = match reported.context_used {
            Some(x) => Some(x),
            None => self.cumulative.context_used,
        };
        delta.context_size = match reported.context_size {
            Some(x) => Some(x),
            None => self.cumulative.context_size,
        };
        if delta.total_tokens == 0 && (delta.input_tokens > 0 || delta.output_tokens > 0) {
            delta.total_tokens = delta.input_tokens.saturating_add(delta.output_tokens);
        }
        self.cumulative.add_turn(&delta);
        let cut: usize = if session_id.len() < 8 {
            session_id.len()
        } else {
            8
        };
        let (head, _) = session_id.split_at(cut);
        let mut id = chars_of(head);
        push_str(&mut id, "-");
        let n = self.turns.len() + 1;
        let nd = decimal(n as u64);
        push_chars(&mut id, &nd);
        proof {
            assert(byte_prefix(session_id@, id_cut(session_id), head@));
        }
        let started_at = if self.pending_started_at.as_str().is_empty() {
            let d = decimal(now_unix());
            string_of(&d)
        } else {
            self.pending_started_at.clone()
        };
        let fin = decimal(now_unix());
        let user_text = self.pending_user_text.clone();
        let record = TurnRecord {
            id: string_of(&id),
            session_id: session_id.to_owned(),
            model_id: model_id.to_owned(),
            model_name: model_name.to_owned(),
            started_at,
            finished_at: string_of(&fin),
            stop_reason: stop_reason.to_owned(),
            user_text,
            assistant_text,
            tool_titles,
            usage_cumulative: self.cumulative,
            usage_delta: delta,
        };
        self.pending_user_text = String::new();
        self.pending_started_at = String::new();
        let kept = record.duplicate();
        let ghost before = self.turns@;
        self.turns.push(kept);
        assert(turn_views(self.turns@) =~= turn_views(before).push(record@));
        record
    }

    /// Records a context-window snapshot.
    pub fn apply_context_window(&mut self, used: u64, size: u64)
        ensures
            final(self).cumulative == (TokenUsage {
                context_used: Some(used),
                context_size: Some(size),
                ..old(self).cumulative
            }),
            turn_views(final(self).turns@) == turn_views(old(self).turns@),
            final(self).pending_user_text@ == old(self).pending_user_text@,
            final(self).pending_started_at@ == old(self).pending_started_at@,
    {
        self.cumulative.context_used = Some(used);
        self.cumulative.context_size = Some(size);
    }
}

/// `x` goes before `e` when `gt(x, e)`; a stable descending insertion:
/// `x` is placed before the first element it beats.
pub open spec fn insert_desc<T>(sorted: Seq<T>, x: T, gt: spec_fn(T, T) -> bool) -> Seq<T>
    decreases sorted.len(),
{
    if sorted.len() == 0 {
        seq![x]
    } else if gt(x, sorted[0]) {
        seq![x] + sorted
    } else {
        seq![sorted[0]] + insert_desc(sorted.drop_first(), x, gt)
    }
}

/// The stable sort of `s` in descending order of `gt` (what `sort_by` with
/// the reversed comparison gives).
pub open spec fn sort_desc<T>(s: Seq<T>, gt: spec_fn(T, T) -> bool) -> Seq<T>
    decreases s.len(),
{
    if s.len() == 0 {
        s
    } else {
        insert_desc(sort_desc(s.drop_last(), gt), s.last(), gt)
    }
}

proof fn lemma_insert_at<T>(sorted: Seq<T>, x: T, gt: spec_fn(T, T) -> bool, j: int)
    requires
        0 <= j <= sorted.len(),
        forall|k: int| 0 <= k < j ==> !gt(x, #[trigger] sorted[k]),
        j == sorted.len() || gt(x, sorted[j]),
    ensures
        insert_desc(sorted, x, gt) == sorted.take(j) + seq![x] + sorted.skip(j),
    decreases j,
{
    if sorted.len() == 0 {
        assert(sorted.take(j) + seq![x] + sorted.skip(j) =~= seq![x]);
    } else if j == 0 {
        assert(sorted.take(j) + seq![x] + sorted.skip(j) =~= seq![x] + sorted);
    } else {
        let rest = sorted.drop_first();
        assert forall|k: int| 0 <= k < j - 1 implies !gt(x, #[trigger] rest[k]) by {
            assert(rest[k] == sorted[k + 1]);
        }
        assert(j - 1 == rest.len() || rest[j - 1] == sorted[j]);
        lemma_insert_at(rest, x, gt, j - 1);
        assert(sorted.take(j) + seq![x] + sorted.skip(j) =~= seq![sorted[0]] + (rest.take(j - 1)
            + seq![x] + rest.skip(j - 1)));
    }
}

/// Summary of one model's turns.
#[derive(Debug, Clone)]
pub struct ModelUsageSummary {
    pub model_id: String,
    pub model_name: String,
    pub turn_count: usize,
    pub total_tokens: u64,
    pub input_tokens: u64,
    pub output_tokens: u64,
}

pub struct ModelUsageView {
    pub model_id: Seq<char>,
    pub model_name: Seq<char>,
    pub turn_count: nat,
    pub total_tokens: u64,
    pub input_tokens: u64,
    pub output_tokens: u64,
}

impl View for ModelUsageSummary {
    type V = ModelUsageView;

    open spec fn view(&self) -> ModelUsageView {
        ModelUsageView {
            model_id: self.model_id@,
            model_name: self.model_name@,
            turn_count: self.turn_count as nat,
            total_tokens: self.total_tokens,
            input_tokens: self.input_tokens,
            output_tokens: self.output_tokens,
        }
    }
}

pub open spec fn model_views(v: Seq<ModelUsageSummary>) -> Seq<ModelUsageView> {
    v.map_values(|m: ModelUsageSummary| m@)
}

/// The model a turn is counted under: its id, or its name when it has no id.
pub open spec fn model_key(t: TurnView) -> Seq<char> {
    if t.model_id.len() == 0 {
        t.model_name
    } else {
        t.model_id
    }
}

/// The model a summary counts.
pub open spec fn summary_key(m: ModelUsageView) -> Seq<char> {
    if m.model_id.len() == 0 {
        m.model_name
    } else {
        m.model_id
    }
}

/// Index of the summary of model `key` from `k` on.
pub open spec fn find_model_from(acc: Seq<ModelUsageView>, key: Seq<char>, k: int) -> Option<int>
    decreases acc.len() - k,
{
    if k < 0 || k >= acc.len() {
        None
    } else if summary_key(acc[k]) == key {
        Some(k)
    } else {
        find_model_from(acc, key, k + 1)
    }
}

/// A model's summary after one more of its turns.
pub open spec fn bump_model(m: ModelUsageView, t: TurnView) -> ModelUsageView {
    ModelUsageView {
        model_id: m.model_id,
        model_name: if m.model_name.len() == 0 && t.model_name.len() > 0 {
            t.model_name
        } else {
            m.model_name
        },
        turn_count: m.turn_count + 1,
        total_tokens: sat_add(m.total_tokens, t.usage_delta.total_tokens),
        input_tokens: sat_add(m.input_tokens, t.usage_delta.input_tokens),
        output_tokens: sat_add(m.output_tokens, t.usage_delta.output_tokens),
    }
}

/// The empty summary of the model of turn `t`.
pub open spec fn new_model(t: TurnView) -> ModelUsageView {
    ModelUsageView {
        model_id: t.model_id,
        model_name: if t.model_name.len() == 0 {
            t.model_id
        } else {
            t.model_name
        },
        turn_count: 0,
        total_tokens: 0,
        input_tokens: 0,
        output_tokens: 0,
    }
}

/// Summaries by model, in the order models first appear; turns with neither
/// model id nor name are left out.
pub open spec fn model_acc(ts: Seq<TurnView>) -> Seq<ModelUsageView>
    decreases ts.len(),
{
    if ts.len() == 0 {
        Seq::empty()
    } else {
        let acc = model_acc(ts.drop_last());
        let t = ts.last();
        let key = model_key(t);
        if key.len() == 0 {
            acc
        } else {
            match find_model_from(acc, key, 0) {
                Some(i) => acc.update(i, bump_model(acc[i], t)),
                None => acc.push(bump_model(new_model(t), t)),
            }
        }
    }
}

pub open spec fn more_tokens() -> spec_fn(ModelUsageView, ModelUsageView) -> bool {
    |x: ModelUsageView, e: ModelUsageView| x.total_tokens > e.total_tokens
}

/// Usage by model, highest total first (models with equal totals in order of
/// first appearance).
pub open spec fn model_usage(ts: Seq<TurnView>) -> Seq<ModelUsageView> {
    sort_desc(model_acc(ts), more_tokens())
}

fn key_chars(id: &String, name: &String) -> (r: Vec<char>)
    ensures
        r@ == (if id@.len() == 0 {
            name@
        } else {
            id@
        }),
{
    let i = chars_of(id.as_str());
    if i.len() == 0 {
        chars_of(name.as_str())
    } else {
        i
    }
}

fn sort_models(v: Vec<ModelUsageSummary>) -> (r: Vec<ModelUsageSummary>)
    ensures
        model_views(r@) == sort_desc(model_views(v@), more_tokens()),
{
    let ghost orig = model_views(v@);
    let mut rest = v;
    let n = rest.len();
    assert(orig.len() == n);
    let mut out: Vec<ModelUsageSummary> = Vec::new();
    let mut k: usize = 0;
    assert(orig.take(0) =~= Seq::<ModelUsageView>::empty());
    assert(model_views(out@) =~= Seq::<ModelUsageView>::empty());
    while rest.len() > 0
        invariant
            k + rest@.len() == orig.len(),
            orig.len() <= usize::MAX,
            model_views(rest@) == orig.skip(k as int),
            model_views(out@) == sort_desc(orig.take(k as int), more_tokens()),
        decreases rest@.len(),
    {
        let ghost old_rest = rest@;
        assert(model_views(old_rest)[0] == old_rest[0]@);
        let x = rest.remove(0);
        assert(x@ == orig[k as int]);
        assert(rest@ == old_rest.remove(0));
        assert forall|q: int| 0 <= q < rest@.len() implies #[trigger] model_views(rest@)[q] == orig.skip(k + 1)[q] by {
            assert(rest@[q] == old_rest[q + 1]);
            assert(model_views(old_rest)[q + 1] == orig.skip(k as int)[q + 1]);
        }
        assert(model_views(rest@) =~= orig.skip(k + 1));
        let mut j: usize = 0;
        while j < out.len() && !(x.total_tokens > out[j].total_tokens)
            invariant
                j <= out@.len(),
                forall|q: int| 0 <= q < j ==> !(more_tokens())(x@, #[trigger] model_views(out@)[q]),
            decreases out@.len() - j,
        {
            j = j + 1;
        }
        let ghost before = model_views(out@);
        proof {
            assert(orig.take(k + 1).drop_last() =~= orig.take(k as int));
            assert(orig.take(k + 1).last() == x@);
            lemma_insert_at(before, x@, more_tokens(), j as int);
        }
        out.insert(j, x);
        assert(model_views(out@) =~= before.take(j as int) + seq![x@] + before.skip(j as int));
        k = k + 1;
    }
    assert(orig.take(k as int) =~= orig);
    out
}

fn find_model(acc: &Vec<ModelUsageSummary>, key: &Vec<char>) -> (r: Option<usize>)
    ensures
        (match r {
            Some(j) => Some(j as int),
            None => None,
        }) == find_model_from(model_views(acc@), key@, 0),
        r matches Some(j) ==> j < acc@.len(),
{
    let ghost a = model_views(acc@);
    let mut j: usize = 0;
    while j < acc.len()
        invariant
            j <= acc@.len(),
            a == model_views(acc@),
            find_model_from(a, key@, 0) == find_model_from(a, key@, j as int),
        decreases acc@.len() - j,
    {
        let ek = key_chars(&acc[j].model_id, &acc[j].model_name);
        assert(a[j as int] == acc@[j as int]@);
        if crate::text::chars_eq(&ek, key) {
            return Some(j);
        }
        j = j + 1;
    }
    None
}

/// Aggregates token usage by model (`model_usage`).
pub fn aggregate_model_usage(turns: &[TurnRecord]) -> (r: Vec<ModelUsageSummary>)
    ensures
        model_views(r@) == model_usage(turn_views(turns@)),
{
    let ghost ts = turn_views(turns@);
    let mut acc: Vec<ModelUsageSummary> = Vec::new();
    let mut i: usize = 0;
    assert(ts.take(0) =~= Seq::<TurnView>::empty());
    assert(model_views(acc@) =~= Seq::<ModelUsageView>::empty());
    while i < turns.len()
        invariant
            i <= turns.len(),
            ts == turn_views(turns@),
            model_views(acc@) == model_acc(ts.take(i as int)),
            acc@.len() <= i,
            forall|q: int| 0 <= q < acc@.len() ==> #[trigger] acc@[q].turn_count <= i,
        decreases turns.len() - i,
    {
        let t = &turns[i];
        assert(ts[i as int] == t@);
        assert(ts.take(i + 1).drop_last() =~= ts.take(i as int));
        assert(ts.take(i + 1).last() == t@);
        let key = key_chars(&t.model_id, &t.model_name);
        if key.len() > 0 {
            let ghost a = model_views(acc@);
            let found = find_model(&acc, &key);
            if let Some(j) = found {
                let m = &acc[j];
                let name = if m.model_name.as_str().is_empty() && !t.model_name.as_str().is_empty() {
                    t.model_name.clone()
                } else {
                    m.model_name.clone()
                };
                let updated = ModelUsageSummary {
                    model_id: m.model_id.clone(),
                    model_name: name,
                    turn_count: m.turn_count + 1,
                    total_tokens: m.total_tokens.saturating_add(t.usage_delta.total_tokens),
                    input_tokens: m.input_tokens.saturating_add(t.usage_delta.input_tokens),
                    output_tokens: m.output_tokens.saturating_add(t.usage_delta.output_tokens),
                };
                assert(updated@ == bump_model(a[j as int], t@));
                acc.set(j, updated);
                assert(model_views(acc@) =~= a.update(j as int, bump_model(a[j as int], t@)));
                assert(model_acc(ts.take(i + 1)) == a.update(j as int, bump_model(a[j as int], t@)));
            } else {
                let name = if t.model_name.as_str().is_empty() {
                    t.model_id.clone()
                } else {
                    t.model_name.clone()
                };
                let created = ModelUsageSummary {
                    model_id: t.model_id.clone(),
                    model_name: name,
                    turn_count: 1,
                    total_tokens: t.usage_delta.total_tokens,
                    input_tokens: t.usage_delta.input_tokens,
                    output_tokens: t.usage_delta.output_tokens,
                };
                assert(created@ == bump_model(new_model(t@), t@));
                acc.push(created);
                assert(model_views(acc@) =~= a.push(bump_model(new_model(t@), t@)));
                assert(model_acc(ts.take(i + 1)) == a.push(bump_model(new_model(t@), t@)));
            }
        }
        i = i + 1;
    }
    assert(ts.take(turns.len() as int) =~= ts);
    sort_models(acc)
}

/// The first line of `s`, cut after `max` characters with `…` appended when
/// more follow.
pub open spec fn title_raw(s: Seq<char>, max: nat) -> Seq<char>
    decreases s.len(),
{
    if s.len() == 0 {
        Seq::empty()
    } else if max == 0 {
        seq!['…']
    } else if s[0] == '\n' || s[0] == '\r' {
        Seq::empty()
    } else {
        seq![s[0]] + title_raw(s.drop_first(), (max - 1) as nat)
    }
}

/// A one-line title of at most `max` characters (plus `…`), trimmed.
pub open spec fn title_of(s: Seq<char>, max: nat) -> Seq<char> {
    trim(title_raw(s, max))
}

/// Shortens `s` to a one-line title (`title_of`).
pub fn truncate_title(s: &str, max: usize) -> (r: String)
    ensures
        r@ == title_of(s@, max as nat),
{
    let cs = chars_of(s);
    let n = cs.len();
    let mut out: Vec<char> = Vec::new();
    let mut i: usize = 0;
    let mut stop = false;
    assert(cs@.skip(0) =~= cs@);
    while i < n && !stop
        invariant
            n == cs@.len(),
            i <= n,
            i <= max,
            stop ==> out@ == title_raw(cs@, max as nat),
            !stop ==> out@ + title_raw(cs@.skip(i as int), (max - i) as nat) == title_raw(
                cs@,
                max as nat,
            ),
        decreases n - i + (if stop { 0int } else { 1int }),
    {
        let ghost rest = cs@.skip(i as int);
        assert(rest[0] == cs@[i as int]);
        assert(rest.drop_first() =~= cs@.skip(i + 1));
        if i >= max {
            assert(title_raw(rest, 0) == seq!['…']);
            out.push('…');
            stop = true;
        } else if cs[i] == '\n' || cs[i] == '\r' {
            assert(out@ + Seq::<char>::empty() =~= out@);
            stop = true;
        } else {
            let ghost before = out@;
            out.push(cs[i]);
            assert(out@ + title_raw(cs@.skip(i + 1), (max - (i + 1)) as nat) =~= before + title_raw(
                rest,
                (max - i) as nat,
            ));
            i = i + 1;
        }
    }
    if !stop {
        assert(cs@.skip(i as int).len() == 0);
        assert(out@ + Seq::<char>::empty() =~= out@);
    }
    let t = trimmed(&out);
    string_of(&t)
}

/// Summary of one session's turns.
#[derive(Debug, Clone)]
pub struct TaskSummary {
    pub session_id: String,
    pub title: String,
    pub turn_count: usize,
    pub total_tokens: u64,
    pub updated_at: String,
}

pub struct TaskView {
    pub session_id: Seq<char>,
    pub title: Seq<char>,
    pub turn_count: nat,
    pub total_tokens: u64,
    pub updated_at: Seq<char>,
}

impl View for TaskSummary {
    type V = TaskView;

    open spec fn view(&self) -> TaskView {
        TaskView {
            session_id: self.session_id@,
            title: self.title@,
            turn_count: self.turn_count as nat,
            total_tokens: self.total_tokens,
            updated_at: self.updated_at@,
        }
    }
}

pub open spec fn task_views(v: Seq<TaskSummary>) -> Seq<TaskView> {
    v.map_values(|t: TaskSummary| t@)
}

/// The title a task gets when its first message has no text.
pub open spec fn untitled() -> Seq<char> {
    seq!['未', '命', '名', '任', '务']
}

/// Index of the task of session `sid` from `k` on.
pub open spec fn find_task_from(acc: Seq<TaskView>, sid: Seq<char>, k: int) -> Option<int>
    decreases acc.len() - k,
{
    if k < 0 || k >= acc.len() {
        None
    } else if acc[k].session_id == sid {
        Some(k)
    } else {
        find_task_from(acc, sid, k + 1)
    }
}

/// A task as its first turn `t` opens it, before counting the turn.
pub open spec fn new_task(t: TurnView) -> TaskView {
    let title = title_of(t.user_text, 42);
    TaskView {
        session_id: t.session_id,
        title: if title.len() == 0 {
            untitled()
        } else {
            title
        },
        turn_count: 0,
        total_tokens: 0,
        updated_at: t.finished_at,
    }
}

/// A task after one more of its turns.
pub open spec fn bump_task(m: TaskView, t: TurnView) -> TaskView {
    TaskView {
        turn_count: m.turn_count + 1,
        total_tokens: sat_add(m.total_tokens, t.usage_delta.total_tokens),
        updated_at: t.finished_at,
        ..m
    }
}

/// Tasks by session, in the order sessions first appear.
pub open spec fn task_acc(ts: Seq<TurnView>) -> Seq<TaskView>
    decreases ts.len(),
{
    if ts.len() == 0 {
        Seq::empty()
    } else {
        let acc = task_acc(ts.drop_last());
        let t = ts.last();
        match find_task_from(acc, t.session_id, 0) {
            Some(i) => acc.update(i, bump_task(acc[i], t)),
            None => acc.push(bump_task(new_task(t), t)),
        }
    }
}

pub open spec fn newer() -> spec_fn(TaskView, TaskView) -> bool {
    |x: TaskView, e: TaskView| seq_lt(e.updated_at, x.updated_at)
}

/// Tasks, latest update first (equal stamps in order of first appearance).
pub open spec fn task_list(ts: Seq<TurnView>) -> Seq<TaskView> {
    sort_desc(task_acc(ts), newer())
}

/// Every element of a descending insertion is the inserted one or one of
/// the sorted sequence.
proof fn lemma_insert_desc_members<T>(sorted: Seq<T>, x: T, gt: spec_fn(T, T) -> bool)
    ensures
        insert_desc(sorted, x, gt).len() == sorted.len() + 1,
        forall|k: int|
            0 <= k < insert_desc(sorted, x, gt).len() ==> #[trigger] insert_desc(sorted, x, gt)[k]
                == x || exists|i: int| 0 <= i < sorted.len() && insert_desc(sorted, x, gt)[k] == sorted[i],
    decreases sorted.len(),
{
    if sorted.len() > 0 && !gt(x, sorted[0]) {
        let rest = sorted.drop_first();
        lemma_insert_desc_members(rest, x, gt);
        let ins = insert_desc(sorted, x, gt);
        let ir = insert_desc(rest, x, gt);
        assert(ins == seq![sorted[0]] + ir);
        assert forall|k: int| 0 <= k < ins.len() implies #[trigger] ins[k] == x || exists|i: int|
            0 <= i < sorted.len() && ins[k] == sorted[i] by {
            if k == 0 {
                assert(ins[0] == sorted[0]);
            } else {
                assert(ins[k] == ir[k - 1]);
                if ir[k - 1] != x {
                    let i = choose|i: int| 0 <= i < rest.len() && ir[k - 1] == rest[i];
                    assert(rest[i] == sorted[i + 1]);
                }
            }
        }
    } else if sorted.len() > 0 {
        let ins = insert_desc(sorted, x, gt);
        assert forall|k: int| 0 <= k < ins.len() implies #[trigger] ins[k] == x || exists|i: int|
            0 <= i < sorted.len() && ins[k] == sorted[i] by {
            if k > 0 {
                assert(ins[k] == sorted[k - 1]);
            }
        }
    }
}

/// Every element of a descending sort is one of the sorted sequence.
proof fn lemma_sort_desc_members<T>(s: Seq<T>, gt: spec_fn(T, T) -> bool)
    ensures
        sort_desc(s, gt).len() == s.len(),
        forall|k: int|
            0 <= k < sort_desc(s, gt).len() ==> exists|i: int|
                0 <= i < s.len() && #[trigger] sort_desc(s, gt)[k] == s[i],
    decreases s.len(),
{
    if s.len() > 0 {
        let p = s.drop_last();
        lemma_sort_desc_members(p, gt);
        let sp = sort_desc(p, gt);
        lemma_insert_desc_members(sp, s.last(), gt);
        let r = sort_desc(s, gt);
        assert forall|k: int| 0 <= k < r.len() implies exists|i: int|
            0 <= i < s.len() && #[trigger] r[k] == s[i] by {
            if r[k] == s.last() {
                assert(r[k] == s[s.len() - 1]);
            } else {
                let i = choose|i: int| 0 <= i < sp.len() && r[k] == sp[i];
                assert(sp[i] == sp[i]);
                let i2 = choose|i2: int| 0 <= i2 < p.len() && #[trigger] sp[i] == p[i2];
                assert(p[i2] == s[i2]);
            }
        }
    }
}

/// The summaries are in non-increasing order of total tokens.
pub open spec fn tokens_descending(s: Seq<ModelUsageView>) -> bool {
    forall|i: int, j: int|
        0 <= i < j < s.len() ==> #[trigger] s[i].total_tokens >= #[trigger] s[j].total_tokens
}

proof fn lemma_insert_tokens(sorted: Seq<ModelUsageView>, x: ModelUsageView, b: u64)
    requires
        tokens_descending(sorted),
    ensures
        tokens_descending(insert_desc(sorted, x, more_tokens())),
        (x.total_tokens <= b && forall|k: int| 0 <= k < sorted.len() ==> #[trigger] sorted[k].total_tokens
            <= b) ==> forall|k: int|
            0 <= k < insert_desc(sorted, x, more_tokens()).len() ==> #[trigger] insert_desc(
                sorted,
                x,
                more_tokens(),
            )[k].total_tokens <= b,
    decreases sorted.len(),
{
    let gt = more_tokens();
    let ins = insert_desc(sorted, x, gt);
    lemma_insert_desc_members(sorted, x, gt);
    if sorted.len() == 0 {
    } else if gt(x, sorted[0]) {
        assert(ins == seq![x] + sorted);
        assert forall|i: int, j: int| 0 <= i < j < ins.len() implies #[trigger] ins[i].total_tokens
            >= #[trigger] ins[j].total_tokens by {
            if i == 0 {
                assert(sorted[0].total_tokens >= sorted[j - 1].total_tokens || j - 1 == 0);
            } else {
                assert(ins[i] == sorted[i - 1]);
                assert(ins[j] == sorted[j - 1]);
            }
        }
    } else {
        let rest = sorted.drop_first();
        let s0 = sorted[0];
        assert(tokens_descending(rest)) by {
            assert forall|i: int, j: int| 0 <= i < j < rest.len() implies #[trigger] rest[i].total_tokens
                >= #[trigger] rest[j].total_tokens by {
                assert(rest[i] == sorted[i + 1]);
                assert(rest[j] == sorted[j + 1]);
            }
        }
        lemma_insert_tokens(rest, x, s0.total_tokens);
        lemma_insert_tokens(rest, x, b);
        let ir = insert_desc(rest, x, gt);
        assert(ins == seq![s0] + ir);
        assert forall|k: int| 0 <= k < rest.len() implies #[trigger] rest[k].total_tokens
            <= s0.total_tokens by {
            assert(rest[k] == sorted[k + 1]);
        }
        assert forall|i: int, j: int| 0 <= i < j < ins.len() implies #[trigger] ins[i].total_tokens
            >= #[trigger] ins[j].total_tokens by {
            assert(ins[j] == ir[j - 1]);
            if i > 0 {
                assert(ins[i] == ir[i - 1]);
            }
        }
        if x.total_tokens <= b && forall|k: int| 0 <= k < sorted.len() ==> #[trigger] sorted[k].total_tokens
            <= b {
            assert forall|k: int| 0 <= k < rest.len() implies #[trigger] rest[k].total_tokens <= b by {
                assert(rest[k] == sorted[k + 1]);
            }
            assert forall|k: int| 0 <= k < ins.len() implies #[trigger] ins[k].total_tokens <= b by {
                if k > 0 {
                    assert(ins[k] == ir[k - 1]);
                }
            }
        }
    }
}

proof fn lemma_sort_tokens(s: Seq<ModelUsageView>)
    ensures
        tokens_descending(sort_desc(s, more_tokens())),
    decreases s.len(),
{
    if s.len() > 0 {
        lemma_sort_tokens(s.drop_last());
        lemma_insert_tokens(sort_desc(s.drop_last(), more_tokens()), s.last(), 0);
    }
}

/// Usage by model comes highest total first: for `i < j`, summary `i` has at
/// least as many tokens as summary `j`.
pub proof fn lemma_model_usage_descending(ts: Seq<TurnView>)
    ensures
        forall|i: int, j: int|
            0 <= i < j < model_usage(ts).len() ==> #[trigger] model_usage(ts)[i].total_tokens
                >= #[trigger] model_usage(ts)[j].total_tokens,
{
    lemma_sort_tokens(model_acc(ts));
}

/// The task's time is that of the last turn of its session: some turn of
/// the session finished at `m.updated_at`, and no later turn belongs to it.
pub open spec fn stamped_by_last_turn(ts: Seq<TurnView>, m: TaskView) -> bool {
    exists|j: int|
        0 <= j < ts.len() && #[trigger] ts[j].session_id == m.session_id && ts[j].finished_at
            == m.updated_at && forall|j2: int| j < j2 < ts.len() ==> #[trigger] ts[j2].session_id
            != m.session_id
}

proof fn lemma_find_task_facts(acc: Seq<TaskView>, sid: Seq<char>, k: int)
    requires
        0 <= k,
    ensures
        match find_task_from(acc, sid, k) {
            Some(i) => k <= i < acc.len() && acc[i].session_id == sid,
            None => forall|q: int| k <= q < acc.len() ==> #[trigger] acc[q].session_id != sid,
        },
    decreases acc.len() - k,
{
    if k < acc.len() && acc[k].session_id != sid {
        lemma_find_task_facts(acc, sid, k + 1);
    }
}

proof fn lemma_task_acc_last(ts: Seq<TurnView>)
    ensures
        forall|a: int, b: int|
            0 <= a < b < task_acc(ts).len() ==> #[trigger] task_acc(ts)[a].session_id
                != #[trigger] task_acc(ts)[b].session_id,
        forall|k: int| 0 <= k < task_acc(ts).len() ==> stamped_by_last_turn(ts, #[trigger] task_acc(ts)[k]),
    decreases ts.len(),
{
    if ts.len() > 0 {
        let p = ts.drop_last();
        lemma_task_acc_last(p);
        let acc = task_acc(p);
        let t = ts.last();
        let n = ts.len() - 1;
        assert(ts[n] == t);
        let na = task_acc(ts);
        lemma_find_task_facts(acc, t.session_id, 0);
        assert forall|k: int| 0 <= k < na.len() && na[k].session_id != t.session_id implies na[k]
            == acc[k] && stamped_by_last_turn(ts, #[trigger] na[k]) by {
            match find_task_from(acc, t.session_id, 0) {
                Some(i) => {
                    assert(k != i);
                },
                None => {
                    assert(k < acc.len());
                },
            }
            assert(stamped_by_last_turn(p, acc[k]));
            let j = choose|j: int|
                0 <= j < p.len() && #[trigger] p[j].session_id == acc[k].session_id && p[j].finished_at
                    == acc[k].updated_at && forall|j2: int| j < j2 < p.len() ==> #[trigger] p[j2].session_id
                    != acc[k].session_id;
            assert(ts[j] == p[j]);
            assert forall|j2: int| j < j2 < ts.len() implies #[trigger] ts[j2].session_id != na[k].session_id by {
                if j2 < n {
                    assert(ts[j2] == p[j2]);
                }
            }
        }
        assert forall|k: int| 0 <= k < na.len() && na[k].session_id == t.session_id implies na[k].updated_at
            == t.finished_at by {
            match find_task_from(acc, t.session_id, 0) {
                Some(i) => {
                    if k != i {
                        assert(na[k] == acc[k]);
                        assert(acc[i].session_id == t.session_id);
                        if k < i {
                            assert(acc[k].session_id != acc[i].session_id);
                        } else {
                            assert(acc[i].session_id != acc[k].session_id);
                        }
                    }
                },
                None => {
                    if k < acc.len() {
                        assert(na[k] == acc[k]);
                    }
                },
            }
        }
        assert forall|k: int| 0 <= k < na.len() implies stamped_by_last_turn(ts, #[trigger] na[k]) by {
            if na[k].session_id == t.session_id {
                assert(ts[n].session_id == na[k].session_id);
            }
        }
        assert forall|a: int, b: int| 0 <= a < b < na.len() implies #[trigger] na[a].session_id
            != #[trigger] na[b].session_id by {
            match find_task_from(acc, t.session_id, 0) {
                Some(i) => {
                    assert(na[a].session_id == acc[a].session_id);
                    assert(na[b].session_id == acc[b].session_id);
                },
                None => {
                    if b < acc.len() {
                        assert(na[a] == acc[a]);
                        assert(na[b] == acc[b]);
                    } else {
                        assert(na[a] == acc[a]);
                    }
                },
            }
        }
    }
}

/// Each task's time is when the last turn of its session finished.
pub proof fn lemma_task_updated_at_last_turn(ts: Seq<TurnView>)
    ensures
        forall|k: int|
            0 <= k < task_list(ts).len() ==> stamped_by_last_turn(ts, #[trigger] task_list(ts)[k]),
{
    lemma_task_acc_last(ts);
    lemma_sort_desc_members(task_acc(ts), newer());
    let acc = task_acc(ts);
    assert forall|k: int| 0 <= k < task_list(ts).len() implies stamped_by_last_turn(
        ts,
        #[trigger] task_list(ts)[k],
    ) by {
        let i = choose|i: int| 0 <= i < acc.len() && #[trigger] sort_desc(acc, newer())[k] == acc[i];
        assert(stamped_by_last_turn(ts, acc[i]));
    }
}

/// How many of the turns belong to session `sid`.
pub open spec fn session_turns(ts: Seq<TurnView>, sid: Seq<char>) -> nat
    decreases ts.len(),
{
    if ts.len() == 0 {
        0
    } else {
        session_turns(ts.drop_last(), sid) + if ts.last().session_id == sid {
            1nat
        } else {
            0nat
        }
    }
}

proof fn lemma_task_acc_counts(ts: Seq<TurnView>)
    ensures
        forall|k: int|
            0 <= k < task_acc(ts).len() ==> (#[trigger] task_acc(ts)[k]).turn_count == session_turns(
                ts,
                task_acc(ts)[k].session_id,
            ),
        forall|sid: Seq<char>|
            #[trigger] session_turns(ts, sid) > 0 ==> exists|k: int|
                0 <= k < task_acc(ts).len() && (#[trigger] task_acc(ts)[k]).session_id == sid,
    decreases ts.len(),
{
    if ts.len() > 0 {
        let p = ts.drop_last();
        lemma_task_acc_counts(p);
        lemma_task_acc_last(p);
        let acc = task_acc(p);
        let t = ts.last();
        let na = task_acc(ts);
        lemma_find_task_facts(acc, t.session_id, 0);
        assert forall|k: int| 0 <= k < na.len() implies (#[trigger] na[k]).turn_count == session_turns(
            ts,
            na[k].session_id,
        ) by {
            match find_task_from(acc, t.session_id, 0) {
                Some(i) => {
                    assert(na[k].session_id == acc[k].session_id);
                    if k != i {
                        assert(na[k] == acc[k]);
                        if acc[k].session_id == t.session_id {
                            if k < i {
                                assert(acc[k].session_id != acc[i].session_id);
                            } else {
                                assert(acc[i].session_id != acc[k].session_id);
                            }
                        }
                    }
                },
                None => {
                    if k < acc.len() {
                        assert(na[k] == acc[k]);
                    } else {
                        assert(session_turns(p, t.session_id) == 0) by {
                            if session_turns(p, t.session_id) > 0 {
                                let q = choose|q: int|
                                    0 <= q < acc.len() && (#[trigger] acc[q]).session_id == t.session_id;
                            }
                        }
                    }
                },
            }
        }
        assert forall|sid: Seq<char>| #[trigger] session_turns(ts, sid) > 0 implies exists|k: int|
            0 <= k < na.len() && (#[trigger] na[k]).session_id == sid by {
            match find_task_from(acc, t.session_id, 0) {
                Some(i) => {
                    if sid == t.session_id {
                        assert(na[i].session_id == sid);
                    } else {
                        assert(session_turns(p, sid) > 0);
                        let q = choose|q: int| 0 <= q < acc.len() && (#[trigger] acc[q]).session_id == sid;
                        assert(na[q].session_id == acc[q].session_id);
                    }
                },
                None => {
                    if sid == t.session_id {
                        assert(na[acc.len() as int].session_id == sid);
                    } else {
                        assert(session_turns(p, sid) > 0);
                        let q = choose|q: int| 0 <= q < acc.len() && (#[trigger] acc[q]).session_id == sid;
                        assert(na[q] == acc[q]);
                    }
                },
            }
        }
    }
}

/// Each task counts exactly the turns of its session.
pub proof fn lemma_task_turn_count(ts: Seq<TurnView>)
    ensures
        forall|k: int|
            0 <= k < task_list(ts).len() ==> (#[trigger] task_list(ts)[k]).turn_count == session_turns(
                ts,
                task_list(ts)[k].session_id,
            ),
{
    lemma_task_acc_counts(ts);
    lemma_sort_desc_members(task_acc(ts), newer());
    let acc = task_acc(ts);
    assert forall|k: int| 0 <= k < task_list(ts).len() implies (#[trigger] task_list(ts)[k]).turn_count
        == session_turns(ts, task_list(ts)[k].session_id) by {
        let i = choose|i: int| 0 <= i < acc.len() && #[trigger] sort_desc(acc, newer())[k] == acc[i];
        assert(acc[i].turn_count == session_turns(ts, acc[i].session_id));
    }
}

/// How many of the turns are of model `key` (by id, or by name where the
/// id is empty).
pub open spec fn model_turns(ts: Seq<TurnView>, key: Seq<char>) -> nat
    decreases ts.len(),
{
    if ts.len() == 0 {
        0
    } else {
        model_turns(ts.drop_last(), key) + if model_key(ts.last()) == key {
            1nat
        } else {
            0nat
        }
    }
}

/// The tokens of the turns of model `key`, added in turn order with
/// saturation.
pub open spec fn model_tokens(ts: Seq<TurnView>, key: Seq<char>) -> u64
    decreases ts.len(),
{
    if ts.len() == 0 {
        0
    } else if model_key(ts.last()) == key {
        sat_add(model_tokens(ts.drop_last(), key), ts.last().usage_delta.total_tokens)
    } else {
        model_tokens(ts.drop_last(), key)
    }
}

proof fn lemma_find_model_facts(acc: Seq<ModelUsageView>, key: Seq<char>, k: int)
    requires
        0 <= k,
    ensures
        match find_model_from(acc, key, k) {
            Some(i) => k <= i < acc.len() && summary_key(acc[i]) == key,
            None => forall|q: int| k <= q < acc.len() ==> summary_key(#[trigger] acc[q]) != key,
        },
    decreases acc.len() - k,
{
    if k < acc.len() && summary_key(acc[k]) != key {
        lemma_find_model_facts(acc, key, k + 1);
    }
}

proof fn lemma_model_acc_counts(ts: Seq<TurnView>)
    ensures
        forall|a: int, b: int|
            0 <= a < b < model_acc(ts).len() ==> summary_key(#[trigger] model_acc(ts)[a])
                != summary_key(#[trigger] model_acc(ts)[b]),
        forall|k: int|
            0 <= k < model_acc(ts).len() ==> summary_key(#[trigger] model_acc(ts)[k]).len() > 0
                && model_acc(ts)[k].turn_count == model_turns(ts, summary_key(model_acc(ts)[k]))
                && model_acc(ts)[k].total_tokens == model_tokens(ts, summary_key(model_acc(ts)[k])),
        forall|key: Seq<char>|
            #[trigger] model_turns(ts, key) > 0 && key.len() > 0 ==> exists|k: int|
                0 <= k < model_acc(ts).len() && summary_key(#[trigger] model_acc(ts)[k]) == key,
    decreases ts.len(),
{
    if ts.len() > 0 {
        let p = ts.drop_last();
        lemma_model_acc_counts(p);
        let acc = model_acc(p);
        let t = ts.last();
        let key = model_key(t);
        let na = model_acc(ts);
        if key.len() == 0 {
            assert(na == acc);
            assert forall|k: int| 0 <= k < na.len() implies summary_key(#[trigger] na[k]).len() > 0
                && na[k].turn_count == model_turns(ts, summary_key(na[k])) && na[k].total_tokens
                == model_tokens(ts, summary_key(na[k])) by {
                assert(summary_key(acc[k]) != key);
            }
            assert forall|key2: Seq<char>| #[trigger] model_turns(ts, key2) > 0 && key2.len() > 0 implies exists|k: int|
                0 <= k < na.len() && summary_key(#[trigger] na[k]) == key2 by {
                assert(model_turns(p, key2) > 0);
            }
        } else {
            lemma_find_model_facts(acc, key, 0);
            match find_model_from(acc, key, 0) {
                Some(i) => {
                    assert(summary_key(bump_model(acc[i], t)) == summary_key(acc[i]));
                    assert forall|k: int| 0 <= k < na.len() implies summary_key(#[trigger] na[k])
                        == summary_key(acc[k]) by {}
                    assert forall|k: int| 0 <= k < na.len() implies summary_key(#[trigger] na[k]).len()
                        > 0 && na[k].turn_count == model_turns(ts, summary_key(na[k]))
                        && na[k].total_tokens == model_tokens(ts, summary_key(na[k])) by {
                        if k != i {
                            assert(na[k] == acc[k]);
                            if k < i {
                                assert(summary_key(acc[k]) != summary_key(acc[i]));
                            } else {
                                assert(summary_key(acc[i]) != summary_key(acc[k]));
                            }
                        }
                    }
                    assert forall|key2: Seq<char>| #[trigger] model_turns(ts, key2) > 0 && key2.len()
                        > 0 implies exists|k: int| 0 <= k < na.len() && summary_key(#[trigger] na[k])
                        == key2 by {
                        if key2 == key {
                            assert(summary_key(na[i]) == key2);
                        } else {
                            assert(model_turns(p, key2) > 0);
                            let q = choose|q: int|
                                0 <= q < acc.len() && summary_key(#[trigger] acc[q]) == key2;
                            assert(summary_key(na[q]) == key2);
                        }
                    }
                },
                None => {
                    let nm = bump_model(new_model(t), t);
                    assert(summary_key(nm) == key);
                    assert(model_turns(p, key) == 0) by {
                        if model_turns(p, key) > 0 {
                            let q = choose|q: int|
                                0 <= q < acc.len() && summary_key(#[trigger] acc[q]) == key;
                        }
                    }
                    assert(model_tokens(p, key) == 0) by {
                        lemma_no_turns_no_tokens(p, key);
                    }
                    assert forall|k: int| 0 <= k < na.len() implies summary_key(#[trigger] na[k]).len()
                        > 0 && na[k].turn_count == model_turns(ts, summary_key(na[k]))
                        && na[k].total_tokens == model_tokens(ts, summary_key(na[k])) by {
                        if k < acc.len() {
                            assert(na[k] == acc[k]);
                        }
                    }
                    assert forall|key2: Seq<char>| #[trigger] model_turns(ts, key2) > 0 && key2.len()
                        > 0 implies exists|k: int| 0 <= k < na.len() && summary_key(#[trigger] na[k])
                        == key2 by {
                        if key2 == key {
                            assert(summary_key(na[acc.len() as int]) == key2);
                        } else {
                            assert(model_turns(p, key2) > 0);
                            let q = choose|q: int|
                                0 <= q < acc.len() && summary_key(#[trigger] acc[q]) == key2;
                            assert(na[q] == acc[q]);
                        }
                    }
                    assert forall|a: int, b: int| 0 <= a < b < na.len() implies summary_key(
                        #[trigger] na[a],
                    ) != summary_key(#[trigger] na[b]) by {
                        assert(na[a] == acc[a]);
                        if b < acc.len() {
                            assert(na[b] == acc[b]);
                        }
                    }
                },
            }
        }
    }
}

proof fn lemma_no_turns_no_tokens(ts: Seq<TurnView>, key: Seq<char>)
    requires
        model_turns(ts, key) == 0,
    ensures
        model_tokens(ts, key) == 0,
    decreases ts.len(),
{
    if ts.len() > 0 {
        lemma_no_turns_no_tokens(ts.drop_last(), key);
    }
}

/// Each model's summary counts exactly the turns of that model, and its
/// total is their tokens added (with saturation); every model that has a
/// turn has a summary.
pub proof fn lemma_model_usage_counts(ts: Seq<TurnView>)
    ensures
        forall|k: int|
            0 <= k < model_usage(ts).len() ==> (#[trigger] model_usage(ts)[k]).turn_count
                == model_turns(ts, summary_key(model_usage(ts)[k])) && model_usage(ts)[k].total_tokens
                == model_tokens(ts, summary_key(model_usage(ts)[k])),
{
    lemma_model_acc_counts(ts);
    let acc = model_acc(ts);
    lemma_sort_desc_members(acc, more_tokens());
    assert forall|k: int| 0 <= k < model_usage(ts).len() implies (#[trigger] model_usage(ts)[k]).turn_count
        == model_turns(ts, summary_key(model_usage(ts)[k])) && model_usage(ts)[k].total_tokens
        == model_tokens(ts, summary_key(model_usage(ts)[k])) by {
        let i = choose|i: int| 0 <= i < acc.len() && #[trigger] sort_desc(acc, more_tokens())[k] == acc[i];
        assert(acc[i].turn_count == model_turns(ts, summary_key(acc[i])));
    }
}

fn find_task(acc: &Vec<TaskSummary>, sid: &Vec<char>) -> (r: Option<usize>)
    ensures
        (match r {
            Some(j) => Some(j as int),
            None => None,
        }) == find_task_from(task_views(acc@), sid@, 0),
        r matches Some(j) ==> j < acc@.len(),
{
    let ghost a = task_views(acc@);
    let mut j: usize = 0;
    while j < acc.len()
        invariant
            j <= acc@.len(),
            a == task_views(acc@),
            find_task_from(a, sid@, 0) == find_task_from(a, sid@, j as int),
        decreases acc@.len() - j,
    {
        let ek = chars_of(acc[j].session_id.as_str());
        assert(a[j as int] == acc@[j as int]@);
        if crate::text::chars_eq(&ek, sid) {
            return Some(j);
        }
        j = j + 1;
    }
    None
}

fn sort_tasks(v: Vec<TaskSummary>) -> (r: Vec<TaskSummary>)
    ensures
        task_views(r@) == sort_desc(task_views(v@), newer()),
{
    let ghost orig = task_views(v@);
    let mut rest = v;
    let n = rest.len();
    assert(orig.len() == n);
    let mut out: Vec<TaskSummary> = Vec::new();
    let mut k: usize = 0;
    assert(orig.take(0) =~= Seq::<TaskView>::empty());
    assert(task_views(out@) =~= Seq::<TaskView>::empty());
    while rest.len() > 0
        invariant
            k + rest@.len() == orig.len(),
            orig.len() <= usize::MAX,
            task_views(rest@) == orig.skip(k as int),
            task_views(out@) == sort_desc(orig.take(k as int), newer()),
        decreases rest@.len(),
    {
        let ghost old_rest = rest@;
        assert(task_views(old_rest)[0] == old_rest[0]@);
        let x = rest.remove(0);
        assert(x@ == orig[k as int]);
        assert(rest@ == old_rest.remove(0));
        assert forall|q: int| 0 <= q < rest@.len() implies #[trigger] task_views(rest@)[q]
            == orig.skip(k + 1)[q] by {
            assert(rest@[q] == old_rest[q + 1]);
            assert(task_views(old_rest)[q + 1] == orig.skip(k as int)[q + 1]);
        }
        assert(task_views(rest@) =~= orig.skip(k + 1));
        let xs = chars_of(x.updated_at.as_str());
        let mut j: usize = 0;
        while j < out.len() && !chars_lt(&chars_of(out[j].updated_at.as_str()), &xs)
            invariant
                j <= out@.len(),
                xs@ == x@.updated_at,
                forall|q: int| 0 <= q < j ==> !(newer())(x@, #[trigger] task_views(out@)[q]),
            decreases out@.len() - j,
        {
            assert(task_views(out@)[j as int] == out@[j as int]@);
            j = j + 1;
        }
        proof {
            if j < out@.len() {
                assert(task_views(out@)[j as int] == out@[j as int]@);
            }
        }
        let ghost before = task_views(out@);
        proof {
            assert(orig.take(k + 1).drop_last() =~= orig.take(k as int));
            assert(orig.take(k + 1).last() == x@);
            lemma_insert_at(before, x@, newer(), j as int);
        }
        out.insert(j, x);
        assert(task_views(out@) =~= before.take(j as int) + seq![x@] + before.skip(j as int));
        k = k + 1;
    }
    assert(orig.take(k as int) =~= orig);
    out
}

/// Groups turns by session (`task_list`): newest updated sessions first.
pub fn aggregate_tasks(turns: &[TurnRecord]) -> (r: Vec<TaskSummary>)
    ensures
        task_views(r@) == task_list(turn_views(turns@)),
{
    let ghost ts = turn_views(turns@);
    let mut acc: Vec<TaskSummary> = Vec::new();
    let mut i: usize = 0;
    assert(ts.take(0) =~= Seq::<TurnView>::empty());
    assert(task_views(acc@) =~= Seq::<TaskView>::empty());
    while i < turns.len()
        invariant
            i <= turns.len(),
            ts == turn_views(turns@),
            task_views(acc@) == task_acc(ts.take(i as int)),
            forall|q: int| 0 <= q < acc@.len() ==> #[trigger] acc@[q].turn_count <= i,
        decreases turns.len() - i,
    {
        let t = &turns[i];
        assert(ts[i as int] == t@);
        assert(ts.take(i + 1).drop_last() =~= ts.take(i as int));
        assert(ts.take(i + 1).last() == t@);
        let sid = chars_of(t.session_id.as_str());
        let ghost a = task_views(acc@);
        let found = find_task(&acc, &sid);
        if let Some(j) = found {
            let m = &acc[j];
            let updated = TaskSummary {
                session_id: m.session_id.clone(),
                title: m.title.clone(),
                turn_count: m.turn_count + 1,
                total_tokens: m.total_tokens.saturating_add(t.usage_delta.total_tokens),
                updated_at: t.finished_at.clone(),
            };
            assert(updated@ == bump_task(a[j as int], t@));
            acc.set(j, updated);
            assert(task_views(acc@) =~= a.update(j as int, bump_task(a[j as int], t@)));
        } else {
            let title = truncate_title(t.user_text.as_str(), 42);
            let title = if title.as_str().is_empty() {
                "未命名任务".to_owned()
            } else {
                title
            };
            proof {
                reveal_strlit("未命名任务");
                assert("未命名任务"@ =~= untitled());
            }
            let created = TaskSummary {
                session_id: t.session_id.clone(),
                title,
                turn_count: 1,
                total_tokens: t.usage_delta.total_tokens,
                updated_at: t.finished_at.clone(),
            };
            assert(created@ == bump_task(new_task(t@), t@));
            acc.push(created);
            assert(task_views(acc@) =~= a.push(bump_task(new_task(t@), t@)));
        }
        i = i + 1;
    }
    assert(ts.take(turns.len() as int) =~= ts);
    sort_tasks(acc)
}

/// The projects kept when `path` is remembered: those that are not `path`
/// and whose canonical form (where it is known) differs from `canonical`.
pub open spec fn kept_projects(
    ps: Seq<Seq<char>>,
    cs: Seq<Option<Seq<char>>>,
    path: Seq<char>,
    canonical: Option<Seq<char>>,
) -> Seq<Seq<char>>
    decreases ps.len(),
{
    if ps.len() == 0 {
        Seq::empty()
    } else {
        let acc = kept_projects(ps.drop_last(), cs, path, canonical);
        let p = ps.last();
        let same_canonical = match (canonical, cs[ps.len() - 1]) {
            (Some(c), Some(pc)) => pc == c,
            _ => false,
        };
        if p == path || same_canonical {
            acc
        } else {
            acc.push(p)
        }
    }
}

/// The recent projects after remembering `path`: its canonical form (or the
/// path itself when it has none) first, then the kept projects, twelve at
/// most.
pub open spec fn remembered(
    ps: Seq<Seq<char>>,
    cs: Seq<Option<Seq<char>>>,
    path: Seq<char>,
    canonical: Option<Seq<char>>,
) -> Seq<Seq<char>> {
    let front = match canonical {
        Some(c) => c,
        None => path,
    };
    let all = seq![front] + kept_projects(ps, cs, path, canonical);
    if all.len() > 12 {
        all.take(12)
    } else {
        all
    }
}

/// Moves `path` to the front of the recent projects (`remembered`);
/// `canonicals` holds the canonical form of each listed project where it
/// could be found. Saving the list is the caller's.
pub fn remember_project(
    projects: &mut Vec<String>,
    canonicals: &Vec<Option<String>>,
    path: &str,
    canonical: Option<String>,
)
    requires
        canonicals.len() == old(projects).len(),
    ensures
        sviews(final(projects)@) == remembered(
            sviews(old(projects)@),
            canonicals@.map_values(|c: Option<String>| opt_string(c)),
            path@,
            opt_string(canonical),
        ),
{
    let ghost ps = sviews(projects@);
    let ghost cs = canonicals@.map_values(|c: Option<String>| opt_string(c));
    let ghost canon = opt_string(canonical);
    let pc = chars_of(path);
    let mut kept: Vec<String> = Vec::new();
    let mut i: usize = 0;
    assert(ps.take(0) =~= Seq::<Seq<char>>::empty());
    assert(sviews(kept@) =~= Seq::<Seq<char>>::empty());
    while i < projects.len()
        invariant
            i <= projects.len(),
            canonicals.len() == projects.len(),
            ps == sviews(projects@),
            cs == canonicals@.map_values(|c: Option<String>| opt_string(c)),
            canon == opt_string(canonical),
            pc@ == path@,
            sviews(kept@) == kept_projects(ps.take(i as int), cs, path@, canon),
        decreases projects.len() - i,
    {
        assert(ps.take(i + 1).drop_last() =~= ps.take(i as int));
        assert(ps[i as int] == projects@[i as int]@);
        assert(cs[i as int] == opt_string(canonicals@[i as int]));
        let p = chars_of(projects[i].as_str());
        let same_canonical = match (&canonical, &canonicals[i]) {
            (Some(c), Some(x)) => crate::text::chars_eq(&chars_of(x.as_str()), &chars_of(c.as_str())),
            _ => false,
        };
        if !(crate::text::chars_eq(&p, &pc) || same_canonical) {
            crate::text::push_string(&mut kept, &p);
        }
        i = i + 1;
    }
    assert(ps.take(projects.len() as int) =~= ps);
    let front: String = match canonical {
        Some(c) => c,
        None => path.to_owned(),
    };
    let mut out: Vec<String> = Vec::new();
    let ghost fv = front@;
    out.push(front);
    assert(sviews(out@) =~= seq![fv]);
    let mut j: usize = 0;
    while j < kept.len() && out.len() < 12
        invariant
            j <= kept.len(),
            out.len() == j + 1,
            out.len() <= 12,
            sviews(out@) == seq![fv] + sviews(kept@).take(j as int),
        decreases kept.len() - j,
    {
        let ghost before = sviews(out@);
        let c = kept[j].clone();
        assert(c@ == kept@[j as int]@);
        out.push(c);
        assert(sviews(out@) =~= before.push(c@));
        assert(sviews(out@) =~= seq![fv] + sviews(kept@).take(j + 1));
        j = j + 1;
    }
    proof {
        let all = seq![fv] + sviews(kept@);
        if all.len() > 12 {
            assert(sviews(out@) =~= all.take(12));
        } else {
            assert(sviews(out@) =~= all);
        }
    }
    *projects = out;
}

pub open spec fn opt_string(o: Option<String>) -> Option<Seq<char>> {
    match o {
        Some(s) => Some(s@),
        None => None,
    }
}

/// Remembering a project puts it first, keeps at most twelve projects, and
/// lists it only once.
pub proof fn lemma_remembered_front(
    ps: Seq<Seq<char>>,
    cs: Seq<Option<Seq<char>>>,
    path: Seq<char>,
)
    requires
        cs.len() == ps.len(),
    ensures
        remembered(ps, cs, path, None)[0] == path,
        remembered(ps, cs, path, None).len() <= 12,
        forall|i: int|
            1 <= i < remembered(ps, cs, path, None).len() ==> #[trigger] remembered(
                ps,
                cs,
                path,
                None,
            )[i] != path,
{
    lemma_kept_excludes(ps, cs, path, None);
    let all = seq![path] + kept_projects(ps, cs, path, None);
    assert forall|i: int| 1 <= i < remembered(ps, cs, path, None).len() implies #[trigger] remembered(
        ps,
        cs,
        path,
        None,
    )[i] != path by {
        assert(remembered(ps, cs, path, None)[i] == all[i]);
        assert(all[i] == kept_projects(ps, cs, path, None)[i - 1]);
    }
}

proof fn lemma_kept_excludes(
    ps: Seq<Seq<char>>,
    cs: Seq<Option<Seq<char>>>,
    path: Seq<char>,
    canonical: Option<Seq<char>>,
)
    ensures
        forall|i: int|
            0 <= i < kept_projects(ps, cs, path, canonical).len() ==> #[trigger] kept_projects(
                ps,
                cs,
                path,
                canonical,
            )[i] != path,
    decreases ps.len(),
{
    if ps.len() > 0 {
        lemma_kept_excludes(ps.drop_last(), cs, path, canonical);
        let k = kept_projects(ps, cs, path, canonical);
        let a = kept_projects(ps.drop_last(), cs, path, canonical);
        assert forall|i: int| 0 <= i < k.len() implies #[trigger] k[i] != path by {
            if i < a.len() {
                assert(k[i] == a[i]);
            }
        }
    }
}

/// The trimmed, non-empty lines among `ls`, in order.
pub open spec fn filled_lines(ls: Seq<Seq<char>>) -> Seq<Seq<char>>
    decreases ls.len(),
{
    if ls.len() == 0 {
        Seq::empty()
    } else {
        let prev = filled_lines(ls.drop_last());
        if trim(ls.last()).len() > 0 {
            prev.push(trim(ls.last()))
        } else {
            prev
        }
    }
}

/// The records of a turn log: its trimmed non-empty lines, oldest first.
pub fn turn_log_lines(text: &str) -> (r: Vec<String>)
    ensures
        sviews(r@) == filled_lines(lines(text@)),
{
    let cs = chars_of(text);
    let ls = lines_of(&cs);
    let mut out: Vec<String> = Vec::new();
    let mut i: usize = 0;
    while i < ls.len()
        invariant
            i <= ls.len(),
            views(ls@) == lines(text@),
            sviews(out@) == filled_lines(views(ls@).take(i as int)),
        decreases ls.len() - i,
    {
        assert(views(ls@).take(i + 1).drop_last() =~= views(ls@).take(i as int));
        assert(views(ls@).take(i + 1).last() == ls@[i as int]@);
        let t = trimmed(&ls[i]);
        if t.len() > 0 {
            let st = string_of(&t);
            assert(sviews(out@.push(st)) =~= sviews(out@).push(st@));
            out.push(st);
        }
        i = i + 1;
    }
    assert(views(ls@).take(ls.len() as int) =~= views(ls@));
    out
}

/// The values present in `s`, in order.
pub open spec fn somes<T>(s: Seq<Option<T>>) -> Seq<T>
    decreases s.len(),
{
    if s.len() == 0 {
        Seq::empty()
    } else {
        let p = somes(s.drop_last());
        match s.last() {
            Some(x) => p.push(x),
            None => p,
        }
    }
}

pub open spec fn reversed<T>(s: Seq<T>) -> Seq<T> {
    Seq::new(s.len(), |i: int| s[s.len() - 1 - i])
}

/// How many of `n` records a read of the log keeps: at most `limit`, and
/// at least one where there is one.
pub open spec fn recent_count(n: nat, limit: nat) -> nat {
    let k: nat = if limit == 0 {
        1
    } else {
        limit
    };
    if n < k {
        n
    } else {
        k
    }
}

/// The newest records of a turn log: of the lines that parsed (`parsed`,
/// oldest first, `None` for a line that did not), the last `recent_count`,
/// oldest first.
pub fn keep_recent<T>(parsed: Vec<Option<T>>, limit: usize) -> (r: Vec<T>)
    ensures
        r@.len() == recent_count(somes(parsed@).len(), limit as nat),
        r@ == somes(parsed@).skip(somes(parsed@).len() - r@.len()),
{
    let k: usize = if limit == 0 {
        1
    } else {
        limit
    };
    let ghost all = somes(parsed@);
    let mut rest = parsed;
    let mut newest: Vec<T> = Vec::new();
    assert(all =~= somes(rest@) + reversed(newest@));
    while newest.len() < k && rest.len() > 0
        invariant
            newest@.len() <= k,
            all == somes(rest@) + reversed(newest@),
        decreases rest.len(),
    {
        let ghost before = rest@;
        let item = rest.pop();
        match item {
            Some(Some(x)) => {
                assert(somes(before) == somes(rest@).push(x));
                assert(reversed(newest@.push(x)) =~= seq![x] + reversed(newest@));
                assert(somes(rest@).push(x) + reversed(newest@) =~= somes(rest@) + (seq![x]
                    + reversed(newest@)));
                newest.push(x);
            },
            _ => {
                assert(somes(before) == somes(rest@));
            },
        }
    }
    assert(rest@.len() == 0 ==> somes(rest@) =~= Seq::<T>::empty());
    let ghost picked = reversed(newest@);
    let mut out: Vec<T> = Vec::new();
    assert(picked =~= out@ + reversed(newest@));
    while newest.len() > 0
        invariant
            picked == out@ + reversed(newest@),
        decreases newest.len(),
    {
        let ghost before = newest@;
        let x = newest.pop().unwrap();
        assert(reversed(before) =~= seq![x] + reversed(newest@));
        assert(out@.push(x) + reversed(newest@) =~= out@ + (seq![x] + reversed(newest@)));
        out.push(x);
    }
    assert(out@ =~= picked);
    assert(all.skip(all.len() - out@.len()) =~= out@);
    out
}

/// The token bill of one prompt from the counts its reply reports; the
/// total is input plus output (saturating) where no total was reported.
pub fn usage_bill(total: u64, input: u64, output: u64, thought: u64, cached_read: u64) -> (r:
    TokenUsage)
    ensures
        r.total_tokens == (if total == 0 && (input > 0 || output > 0) {
            sat_add(input, output)
        } else {
            total
        }),
        r.input_tokens == input,
        r.output_tokens == output,
        r.thought_tokens == thought,
        r.cached_read_tokens == cached_read,
        r.context_used is None,
        r.context_size is None,
{
    let total_tokens = if total == 0 && (input > 0 || output > 0) {
        input.saturating_add(output)
    } else {
        total
    };
    TokenUsage {
        total_tokens,
        input_tokens: input,
        output_tokens: output,
        thought_tokens: thought,
        cached_read_tokens: cached_read,
        context_used: None,
        context_size: None,
    }
}

/// The token counters that a prompt reply's metadata may carry.
#[derive(Clone, Copy, Debug, PartialEq, Eq)]
pub enum UsageCount {
    Total,
    Input,
    Output,
    Thought,
    CachedRead,
}

/// The key names under which a counter may stand, in the order they are tried.
pub open spec fn count_key_names(c: UsageCount) -> Seq<Seq<char>> {
    match c {
        UsageCount::Total => seq!["totalTokens"@, "total_tokens"@],
        UsageCount::Input => seq!["inputTokens"@, "input_tokens"@],
        UsageCount::Output => seq!["outputTokens"@, "output_tokens"@],
        UsageCount::Thought => seq!["reasoningTokens"@, "thoughtTokens"@, "reasoning_tokens"@],
        UsageCount::CachedRead => seq!["cachedReadTokens"@, "cached_read_tokens"@],
    }
}

pub open spec fn str_views(s: Seq<&'static str>) -> Seq<Seq<char>> {
    s.map_values(|x: &'static str| x@)
}

/// The key names of counter `c`, in the order in which they are tried.
pub fn usage_count_keys(c: UsageCount) -> (r: Vec<&'static str>)
    ensures
        str_views(r@) == count_key_names(c),
{
    let r: Vec<&'static str> = match c {
        UsageCount::Total => vec!["totalTokens", "total_tokens"],
        UsageCount::Input => vec!["inputTokens", "input_tokens"],
        UsageCount::Output => vec!["outputTokens", "output_tokens"],
        UsageCount::Thought => vec!["reasoningTokens", "thoughtTokens", "reasoning_tokens"],
        UsageCount::CachedRead => vec!["cachedReadTokens", "cached_read_tokens"],
    };
    assert(str_views(r@) =~= count_key_names(c));
    r
}

/// Where a counter is read from: the `i`-th candidate key of the nested
/// `usage` object, the `i`-th of the top level, or nowhere.
#[derive(Clone, Copy, Debug, PartialEq, Eq)]
pub enum CountSource {
    Nested(usize),
    Top(usize),
    Absent,
}

/// `i` is the first index at which `present` holds.
pub open spec fn first_present(present: Seq<bool>, i: int) -> bool {
    &&& 0 <= i < present.len()
    &&& present[i]
    &&& forall|j: int| 0 <= j < i ==> !present[j]
}

pub open spec fn none_present(present: Seq<bool>) -> bool {
    forall|j: int| 0 <= j < present.len() ==> !present[j]
}

fn first_true(present: &[bool]) -> (r: Option<usize>)
    ensures
        match r {
            Some(i) => first_present(present@, i as int),
            None => none_present(present@),
        },
{
    let mut i: usize = 0;
    while i < present.len()
        invariant
            i <= present.len(),
            forall|j: int| 0 <= j < i ==> !present@[j],
        decreases present.len() - i,
    {
        if present[i] {
            return Some(i);
        }
        i = i + 1;
    }
    None
}

/// Which key a counter is read from, given which candidate keys are present
/// in the nested `usage` object (when there is one) and at the top level:
/// the first present key of the nested object, else the first present key
/// of the top level.
pub fn count_source(nested: Option<&[bool]>, top: &[bool]) -> (r: CountSource)
    ensures
        match r {
            CountSource::Nested(i) => nested matches Some(n) && first_present(n@, i as int),
            CountSource::Top(i) => (nested matches Some(n) ==> none_present(n@))
                && first_present(top@, i as int),
            CountSource::Absent => (nested matches Some(n) ==> none_present(n@))
                && none_present(top@),
        },
{
    if let Some(n) = nested {
        if let Some(i) = first_true(n) {
            return CountSource::Nested(i);
        }
    }
    match first_true(top) {
        Some(i) => CountSource::Top(i),
        None => CountSource::Absent,
    }
}

/// The sums of the turns' own bills: `(total, input, output)` tokens.
pub open spec fn delta_sums(ts: Seq<TurnRecord>) -> (int, int, int)
    decreases ts.len(),
{
    if ts.len() == 0 {
        (0, 0, 0)
    } else {
        let p = delta_sums(ts.drop_last());
        let d = ts.last().usage_delta;
        (p.0 + d.total_tokens, p.1 + d.input_tokens, p.2 + d.output_tokens)
    }
}

pub open spec fn max_of(a: int, b: int) -> int {
    if a >= b {
        a
    } else {
        b
    }
}

/// The token counts that the usage chips show: for total, input and output
/// tokens, the sum of the turns' bills or the session's count, whichever is
/// larger (the session's count can lag behind the logged turns). The sums
/// must fit in `u64`.
pub fn usage_chip_totals(turns: &[TurnRecord], session: &TokenUsage) -> (r: (u64, u64, u64))
    requires
        delta_sums(turns@).0 <= u64::MAX,
        delta_sums(turns@).1 <= u64::MAX,
        delta_sums(turns@).2 <= u64::MAX,
    ensures
        r.0 == max_of(delta_sums(turns@).0, session.total_tokens as int),
        r.1 == max_of(delta_sums(turns@).1, session.input_tokens as int),
        r.2 == max_of(delta_sums(turns@).2, session.output_tokens as int),
{
    let mut total: u64 = 0;
    let mut input: u64 = 0;
    let mut output: u64 = 0;
    let mut i: usize = 0;
    while i < turns.len()
        invariant
            i <= turns.len(),
            delta_sums(turns@).0 <= u64::MAX,
            delta_sums(turns@).1 <= u64::MAX,
            delta_sums(turns@).2 <= u64::MAX,
            (total as int, input as int, output as int) == delta_sums(turns@.take(i as int)),
        decreases turns.len() - i,
    {
        proof {
            lemma_delta_sums_prefix(turns@, i as int + 1);
            assert(turns@.take(i + 1).drop_last() =~= turns@.take(i as int));
        }
        let d = &turns[i].usage_delta;
        total = total + d.total_tokens;
        input = input + d.input_tokens;
        output = output + d.output_tokens;
        i = i + 1;
    }
    assert(turns@.take(turns.len() as int) =~= turns@);
    (
        if total >= session.total_tokens { total } else { session.total_tokens },
        if input >= session.input_tokens { input } else { session.input_tokens },
        if output >= session.output_tokens { output } else { session.output_tokens },
    )
}

proof fn lemma_delta_sums_prefix(ts: Seq<TurnRecord>, k: int)
    requires
        0 <= k <= ts.len(),
    ensures
        delta_sums(ts.take(k)).0 <= delta_sums(ts).0,
        delta_sums(ts.take(k)).1 <= delta_sums(ts).1,
        delta_sums(ts.take(k)).2 <= delta_sums(ts).2,
    decreases ts.len(),
{
    if k < ts.len() {
        lemma_delta_sums_prefix(ts.drop_last(), k);
        assert(ts.drop_last().take(k) =~= ts.take(k));
    } else {
        assert(ts.take(k) =~= ts);
    }
}

} // verus!
