//! The session as the UI shows it: connection, models, the timeline of
//! messages and tool cards, and a pending permission request.

use vstd::prelude::*;
use crate::build::events::{
    AgentEvent, ModelChoice, ModelChoiceView, OptionView, PermissionOptionView, model_views,
    option_views,
};
use crate::text::{chars_eq, chars_of, push_str};

verus! {

/// Who wrote a message.
#[derive(Debug, Clone, Copy, PartialEq, Eq, Structural)]
pub enum Role {
    User,
    Assistant,
    System,
}

/// One message of the timeline.
#[derive(Debug, Clone)]
pub struct ChatMessage {
    pub role: Role,
    pub text: String,
}

/// One tool call of the timeline.
#[derive(Debug, Clone)]
pub struct ToolCard {
    pub id: String,
    pub title: String,
    pub status: String,
    pub detail: String,
    pub open: bool,
}

/// An item of the timeline.
#[derive(Debug, Clone)]
pub enum TimelineItem {
    Message(ChatMessage),
    Tool(ToolCard),
}

pub struct CardView {
    pub id: Seq<char>,
    pub title: Seq<char>,
    pub status: Seq<char>,
    pub detail: Seq<char>,
    pub open: bool,
}

pub enum ItemView {
    Message { role: Role, text: Seq<char> },
    Tool(CardView),
}

impl View for ToolCard {
    type V = CardView;

    open spec fn view(&self) -> CardView {
        CardView {
            id: self.id@,
            title: self.title@,
            status: self.status@,
            detail: self.detail@,
            open: self.open,
        }
    }
}

impl View for TimelineItem {
    type V = ItemView;

    open spec fn view(&self) -> ItemView {
        match self {
            TimelineItem::Message(m) => ItemView::Message { role: m.role, text: m.text@ },
            TimelineItem::Tool(c) => ItemView::Tool(c@),
        }
    }
}

pub open spec fn item_views(v: Seq<TimelineItem>) -> Seq<ItemView> {
    v.map_values(|i: TimelineItem| i@)
}

/// A permission request waiting for the user.
#[derive(Debug, Clone)]
pub struct PendingPermission {
    pub tool_call_id: String,
    pub title: String,
    pub options: Vec<PermissionOptionView>,
}

pub struct PendingView {
    pub tool_call_id: Seq<char>,
    pub title: Seq<char>,
    pub options: Seq<OptionView>,
}

impl View for PendingPermission {
    type V = PendingView;

    open spec fn view(&self) -> PendingView {
        PendingView {
            tool_call_id: self.tool_call_id@,
            title: self.title@,
            options: option_views(self.options@),
        }
    }
}

/// The UI's model of the session.
#[derive(Debug)]
pub struct AppModel {
    pub status: String,
    pub session_id: Option<String>,
    pub cwd: Option<String>,
    pub timeline: Vec<TimelineItem>,
    pub pending_permission: Option<PendingPermission>,
    pub busy: bool,
    pub draft: String,
    pub auto_scroll: bool,
    pub connected: bool,
    pub needs_login: bool,
    pub login_message: String,
    pub current_model_id: String,
    pub current_model_name: String,
    pub available_models: Vec<ModelChoice>,
    pub show_model_picker: bool,
}

pub struct AppView {
    pub status: Seq<char>,
    pub session_id: Option<Seq<char>>,
    pub cwd: Option<Seq<char>>,
    pub timeline: Seq<ItemView>,
    pub pending_permission: Option<PendingView>,
    pub busy: bool,
    pub draft: Seq<char>,
    pub auto_scroll: bool,
    pub connected: bool,
    pub needs_login: bool,
    pub login_message: Seq<char>,
    pub current_model_id: Seq<char>,
    pub current_model_name: Seq<char>,
    pub available_models: Seq<ModelChoiceView>,
    pub show_model_picker: bool,
}

pub open spec fn opt_text(o: Option<String>) -> Option<Seq<char>> {
    match o {
        Some(s) => Some(s@),
        None => None,
    }
}

pub open spec fn opt_pending(o: Option<PendingPermission>) -> Option<PendingView> {
    match o {
        Some(p) => Some(p@),
        None => None,
    }
}

impl View for AppModel {
    type V = AppView;

    open spec fn view(&self) -> AppView {
        AppView {
            status: self.status@,
            session_id: opt_text(self.session_id),
            cwd: opt_text(self.cwd),
            timeline: item_views(self.timeline@),
            pending_permission: opt_pending(self.pending_permission),
            busy: self.busy,
            draft: self.draft@,
            auto_scroll: self.auto_scroll,
            connected: self.connected,
            needs_login: self.needs_login,
            login_message: self.login_message@,
            current_model_id: self.current_model_id@,
            current_model_name: self.current_model_name@,
            available_models: model_views(self.available_models@),
            show_model_picker: self.show_model_picker,
        }
    }
}

/// An event from the bridge, as the model reads it.
pub enum EventView {
    Status(Seq<char>),
    NeedsLogin(Seq<char>),
    Connected {
        session_id: Seq<char>,
        cwd: Seq<char>,
        model_id: Seq<char>,
        model_name: Seq<char>,
        models: Seq<ModelChoiceView>,
    },
    Disconnected,
    ModelChanged { model_id: Seq<char>, name: Seq<char> },
    AssistantDelta(Seq<char>),
    ToolStart { id: Seq<char>, title: Seq<char> },
    ToolUpdate { id: Seq<char>, status: Seq<char>, detail: Seq<char> },
    PermissionRequest { tool_call_id: Seq<char>, title: Seq<char>, options: Seq<OptionView> },
    TurnDone,
    Error(Seq<char>),
    /// A mode change or a context-window snapshot, which the timeline does
    /// not show.
    Other,
}

pub open spec fn event_view(e: AgentEvent) -> EventView {
    match e {
        AgentEvent::Status(s) => EventView::Status(s@),
        AgentEvent::NeedsLogin { message } => EventView::NeedsLogin(message@),
        AgentEvent::Connected { session_id, cwd, current_model_id, current_model_name, models, .. } =>
            EventView::Connected {
            session_id: session_id@,
            cwd: cwd@,
            model_id: current_model_id@,
            model_name: current_model_name@,
            models: model_views(models@),
        },
        AgentEvent::Disconnected => EventView::Disconnected,
        AgentEvent::ModelChanged { model_id, name } => EventView::ModelChanged {
            model_id: model_id@,
            name: name@,
        },
        AgentEvent::AssistantDelta(d) => EventView::AssistantDelta(d@),
        AgentEvent::ToolStart { id, title } => EventView::ToolStart { id: id@, title: title@ },
        AgentEvent::ToolUpdate { id, status, detail } => EventView::ToolUpdate {
            id: id@,
            status: status@,
            detail: detail@,
        },
        AgentEvent::PermissionRequest { tool_call_id, title, options } =>
            EventView::PermissionRequest {
            tool_call_id: tool_call_id@,
            title: title@,
            options: option_views(options@),
        },
        AgentEvent::TurnDone { .. } => EventView::TurnDone,
        AgentEvent::Error(err) => EventView::Error(err@),
        _ => EventView::Other,
    }
}

/// The index of the last tool card with id `id`.
pub open spec fn last_tool(tl: Seq<ItemView>, id: Seq<char>) -> Option<int>
    decreases tl.len(),
{
    if tl.len() == 0 {
        None
    } else if tl.last() matches ItemView::Tool(c) && c.id == id {
        Some(tl.len() - 1)
    } else {
        last_tool(tl.drop_last(), id)
    }
}

pub open spec fn is_role(it: ItemView, r: Role) -> bool {
    match it {
        ItemView::Message { role, .. } => role == r,
        ItemView::Tool(_) => false,
    }
}

pub open spec fn text_of(it: ItemView) -> Seq<char> {
    match it {
        ItemView::Message { text, .. } => text,
        ItemView::Tool(_) => Seq::empty(),
    }
}

/// The timeline after a piece of the assistant's answer: it extends the
/// assistant's message at the end, or starts a new one.
pub open spec fn with_delta(tl: Seq<ItemView>, d: Seq<char>) -> Seq<ItemView> {
    if tl.len() > 0 && is_role(tl.last(), Role::Assistant) {
        tl.update(tl.len() - 1, ItemView::Message { role: Role::Assistant, text: text_of(tl.last()) + d })
    } else {
        tl.push(ItemView::Message { role: Role::Assistant, text: d })
    }
}

/// A tool card after an update: a status replaces the old one, a detail is
/// added as a new line.
pub open spec fn updated_card(c: CardView, status: Seq<char>, detail: Seq<char>) -> CardView {
    CardView {
        status: if status.len() > 0 {
            status
        } else {
            c.status
        },
        detail: if detail.len() > 0 {
            (if c.detail.len() > 0 {
                c.detail.push('\n')
            } else {
                c.detail
            }) + detail
        } else {
            c.detail
        },
        ..c
    }
}

/// The model after an event.
pub open spec fn applied(m: AppView, e: EventView) -> AppView {
    match e {
        EventView::Status(s) => AppView { status: s, ..m },
        EventView::NeedsLogin(message) => AppView {
            needs_login: true,
            connected: false,
            busy: false,
            login_message: message,
            status: "Sign in required"@,
            ..m
        },
        EventView::Disconnected => AppView {
            connected: false,
            session_id: None,
            status: "Reconnecting…"@,
            ..m
        },
        EventView::Connected { session_id, cwd, model_id, model_name, models } => AppView {
            session_id: Some(session_id),
            cwd: Some(cwd),
            connected: true,
            needs_login: false,
            current_model_id: model_id,
            current_model_name: model_name,
            available_models: models,
            status: "Ready"@,
            ..m
        },
        EventView::ModelChanged { model_id, name } => AppView {
            current_model_id: model_id,
            current_model_name: name,
            show_model_picker: false,
            status: "Ready"@,
            ..m
        },
        EventView::AssistantDelta(d) => AppView {
            busy: true,
            status: "Working…"@,
            timeline: with_delta(m.timeline, d),
            ..m
        },
        EventView::ToolStart { id, title } => AppView {
            busy: true,
            status: "Running tools…"@,
            timeline: match last_tool(m.timeline, id) {
                Some(i) => m.timeline.update(
                    i,
                    match m.timeline[i] {
                        ItemView::Tool(c) => ItemView::Tool(
                            CardView { title, status: "InProgress"@, ..c },
                        ),
                        ItemView::Message { .. } => m.timeline[i],
                    },
                ),
                None => m.timeline.push(
                    ItemView::Tool(
                        CardView {
                            id,
                            title,
                            status: "InProgress"@,
                            detail: Seq::empty(),
                            open: false,
                        },
                    ),
                ),
            },
            ..m
        },
        EventView::ToolUpdate { id, status, detail } => AppView {
            timeline: match last_tool(m.timeline, id) {
                Some(i) => m.timeline.update(
                    i,
                    match m.timeline[i] {
                        ItemView::Tool(c) => ItemView::Tool(updated_card(c, status, detail)),
                        ItemView::Message { .. } => m.timeline[i],
                    },
                ),
                None => m.timeline.push(
                    ItemView::Tool(CardView { id, title: "Tool"@, status, detail, open: false }),
                ),
            },
            ..m
        },
        EventView::PermissionRequest { tool_call_id, title, options } => AppView {
            pending_permission: Some(PendingView { tool_call_id, title, options }),
            status: "Needs approval"@,
            ..m
        },
        EventView::TurnDone => AppView { busy: false, status: "Ready"@, ..m },
        EventView::Error(err) => AppView {
            busy: false,
            status: "Error"@,
            timeline: m.timeline.push(ItemView::Message { role: Role::System, text: err }),
            ..m
        },
        EventView::Other => m,
    }
}

/// The chat shows nothing of the user or the assistant: every item is a
/// system message.
pub open spec fn empty_chat(tl: Seq<ItemView>) -> bool {
    forall|i: int|
        0 <= i < tl.len() ==> is_role(#[trigger] tl[i], Role::System)
}

fn copy_item(it: &TimelineItem) -> (r: TimelineItem)
    ensures
        r@ == it@,
{
    match it {
        TimelineItem::Message(m) => TimelineItem::Message(
            ChatMessage { role: m.role, text: m.text.clone() },
        ),
        TimelineItem::Tool(c) => TimelineItem::Tool(
            ToolCard {
                id: c.id.clone(),
                title: c.title.clone(),
                status: c.status.clone(),
                detail: c.detail.clone(),
                open: c.open,
            },
        ),
    }
}

impl AppModel {
    /// A model that is connecting: no session, an empty timeline.
    pub fn new() -> (r: Self)
        ensures
            r@.status == "Connecting…"@,
            r@.session_id is None,
            r@.cwd is None,
            r@.timeline.len() == 0,
            r@.pending_permission is None,
            !r@.busy,
            r@.draft.len() == 0,
            r@.auto_scroll,
            !r@.connected,
            !r@.needs_login,
            r@.login_message == "Sign in to chat with Bony Build."@,
            r@.current_model_id.len() == 0,
            r@.current_model_name == "model"@,
            r@.available_models.len() == 0,
            !r@.show_model_picker,
    {
        let r = AppModel {
            status: "Connecting…".to_owned(),
            session_id: None,
            cwd: None,
            timeline: Vec::new(),
            pending_permission: None,
            busy: false,
            draft: String::new(),
            auto_scroll: true,
            connected: false,
            needs_login: false,
            login_message: "Sign in to chat with Bony Build.".to_owned(),
            current_model_id: String::new(),
            current_model_name: "model".to_owned(),
            available_models: Vec::new(),
            show_model_picker: false,
        };
        proof {
            reveal_strlit("");
        }
        r
    }

    /// The index of the last tool card with id `id` (`last_tool`).
    fn find_tool(&self, id: &str) -> (r: Option<usize>)
        ensures
            match r {
                Some(i) => last_tool(self@.timeline, id@) == Some(i as int) && i < self.timeline.len(),
                None => last_tool(self@.timeline, id@) is None,
            },
    {
        let ghost tl = self@.timeline;
        let idc = chars_of(id);
        let mut k: usize = self.timeline.len();
        assert(tl.take(k as int) =~= tl);
        while k > 0
            invariant
                k <= self.timeline.len(),
                tl == item_views(self.timeline@),
                idc@ == id@,
                last_tool(tl, id@) == last_tool(tl.take(k as int), id@),
            decreases k,
        {
            assert(tl.take(k as int).last() == self.timeline@[k - 1]@);
            assert(tl.take(k as int).drop_last() =~= tl.take(k - 1));
            match &self.timeline[k - 1] {
                TimelineItem::Tool(c) => {
                    if chars_eq(&chars_of(c.id.as_str()), &idc) {
                        return Some(k - 1);
                    }
                },
                TimelineItem::Message(_) => {},
            }
            k = k - 1;
        }
        None
    }

    /// Takes an event from the bridge (`applied`).
    pub fn apply(&mut self, event: AgentEvent)
        ensures
            final(self)@ == applied(old(self)@, event_view(event)),
    {
        let ghost ev = event_view(event);
        match event {
            AgentEvent::Status(s) => {
                self.status = s;
            },
            AgentEvent::NeedsLogin { message } => {
                self.needs_login = true;
                self.connected = false;
                self.busy = false;
                self.login_message = message;
                self.status = "Sign in required".to_owned();
            },
            AgentEvent::Disconnected => {
                self.connected = false;
                self.session_id = None;
                self.status = "Reconnecting…".to_owned();
            },
            AgentEvent::Connected {
                session_id,
                cwd,
                current_model_id,
                current_model_name,
                models,
                ..
            } => {
                self.session_id = Some(session_id);
                self.cwd = Some(cwd);
                self.connected = true;
                self.needs_login = false;
                self.current_model_id = current_model_id;
                self.current_model_name = current_model_name;
                self.available_models = models;
                self.status = "Ready".to_owned();
            },
            AgentEvent::ModelChanged { model_id, name } => {
                self.current_model_id = model_id;
                self.current_model_name = name;
                self.show_model_picker = false;
                self.status = "Ready".to_owned();
            },
            AgentEvent::AssistantDelta(delta) => {
                self.busy = true;
                self.status = "Working…".to_owned();
                let ghost tl = item_views(self.timeline@);
                let n = self.timeline.len();
                let extend = n > 0 && match &self.timeline[n - 1] {
                    TimelineItem::Message(m) => m.role == Role::Assistant,
                    TimelineItem::Tool(_) => false,
                };
                if extend {
                    let mut text = match &self.timeline[n - 1] {
                        TimelineItem::Message(m) => m.text.clone(),
                        TimelineItem::Tool(_) => String::new(),
                    };
                    let mut cs = chars_of(text.as_str());
                    push_str(&mut cs, delta.as_str());
                    let item = TimelineItem::Message(
                        ChatMessage { role: Role::Assistant, text: crate::text::string_of(&cs) },
                    );
                    self.timeline.set(n - 1, item);
                    assert(item_views(self.timeline@) =~= with_delta(tl, delta@));
                } else {
                    self.timeline.push(
                        TimelineItem::Message(ChatMessage { role: Role::Assistant, text: delta }),
                    );
                    assert(item_views(self.timeline@) =~= with_delta(tl, ev->AssistantDelta_0));
                }
            },
            AgentEvent::ToolStart { id, title } => {
                self.busy = true;
                self.status = "Running tools…".to_owned();
                let ghost tl = item_views(self.timeline@);
                match self.find_tool(id.as_str()) {
                    Some(i) => {
                        let item = match &self.timeline[i] {
                            TimelineItem::Tool(c) => TimelineItem::Tool(
                                ToolCard {
                                    id: c.id.clone(),
                                    title,
                                    status: "InProgress".to_owned(),
                                    detail: c.detail.clone(),
                                    open: c.open,
                                },
                            ),
                            TimelineItem::Message(_) => copy_item(&self.timeline[i]),
                        };
                        self.timeline.set(i, item);
                        assert(item_views(self.timeline@) =~= tl.update(i as int, item@));
                    },
                    None => {
                        let card = ToolCard {
                            id,
                            title,
                            status: "InProgress".to_owned(),
                            detail: String::new(),
                            open: false,
                        };
                        proof {
                            reveal_strlit("");
                        }
                        let ghost cv = card@;
                        self.timeline.push(TimelineItem::Tool(card));
                        assert(item_views(self.timeline@) =~= tl.push(ItemView::Tool(cv)));
                    },
                }
            },
            AgentEvent::ToolUpdate { id, status, detail } => {
                let ghost tl = item_views(self.timeline@);
                match self.find_tool(id.as_str()) {
                    Some(i) => {
                        let item = match &self.timeline[i] {
                            TimelineItem::Tool(c) => {
                                let st = if status.as_str().is_empty() {
                                    c.status.clone()
                                } else {
                                    status
                                };
                                let mut d = chars_of(c.detail.as_str());
                                if !detail.as_str().is_empty() {
                                    if d.len() > 0 {
                                        d.push('\n');
                                    }
                                    push_str(&mut d, detail.as_str());
                                }
                                TimelineItem::Tool(
                                    ToolCard {
                                        id: c.id.clone(),
                                        title: c.title.clone(),
                                        status: st,
                                        detail: crate::text::string_of(&d),
                                        open: c.open,
                                    },
                                )
                            },
                            TimelineItem::Message(_) => copy_item(&self.timeline[i]),
                        };
                        self.timeline.set(i, item);
                        assert(item_views(self.timeline@) =~= tl.update(i as int, item@));
                    },
                    None => {
                        let card = ToolCard {
                            id,
                            title: "Tool".to_owned(),
                            status,
                            detail,
                            open: false,
                        };
                        let ghost cv = card@;
                        self.timeline.push(TimelineItem::Tool(card));
                        assert(item_views(self.timeline@) =~= tl.push(ItemView::Tool(cv)));
                    },
                }
            },
            AgentEvent::PermissionRequest { tool_call_id, title, options } => {
                self.pending_permission = Some(PendingPermission { tool_call_id, title, options });
                self.status = "Needs approval".to_owned();
            },
            AgentEvent::TurnDone { .. } => {
                self.busy = false;
                self.status = "Ready".to_owned();
            },
            AgentEvent::Error(err) => {
                self.busy = false;
                self.status = "Error".to_owned();
                let ghost tl = item_views(self.timeline@);
                let ghost e = err@;
                self.timeline.push(TimelineItem::Message(ChatMessage { role: Role::System, text: err }));
                assert(item_views(self.timeline@) =~= tl.push(ItemView::Message { role: Role::System, text: e }));
            },
            AgentEvent::ModeChanged { .. } => {},
            AgentEvent::ContextUsage { .. } => {},
        }
    }

    /// Adds the user's message and waits for the answer.
    pub fn push_user(&mut self, text: String)
        ensures
            final(self)@ == (AppView {
                timeline: old(self)@.timeline.push(ItemView::Message { role: Role::User, text: text@ }),
                busy: true,
                status: "Working…"@,
                ..old(self)@
            }),
    {
        let ghost tl = item_views(self.timeline@);
        let ghost t = text@;
        self.timeline.push(TimelineItem::Message(ChatMessage { role: Role::User, text }));
        assert(item_views(self.timeline@) =~= tl.push(ItemView::Message { role: Role::User, text: t }));
        self.busy = true;
        self.status = "Working…".to_owned();
    }

    /// Whether the chat has nothing but system messages (`empty_chat`).
    pub fn is_empty_chat(&self) -> (r: bool)
        ensures
            r == empty_chat(self@.timeline),
    {
        let mut i: usize = 0;
        while i < self.timeline.len()
            invariant
                i <= self.timeline.len(),
                forall|k: int|
                    0 <= k < i ==> is_role(#[trigger] item_views(self.timeline@)[k], Role::System),
            decreases self.timeline.len() - i,
        {
            assert(item_views(self.timeline@)[i as int] == self.timeline@[i as int]@);
            let sys = match &self.timeline[i] {
                TimelineItem::Message(m) => m.role == Role::System,
                TimelineItem::Tool(_) => false,
            };
            if !sys {
                return false;
            }
            i = i + 1;
        }
        true
    }
}

/// Two pieces of the assistant's answer in a row read as one piece made of
/// both.
pub proof fn lemma_deltas_concatenate(m: AppView, a: Seq<char>, b: Seq<char>)
    ensures
        applied(applied(m, EventView::AssistantDelta(a)), EventView::AssistantDelta(b)) == applied(
            m,
            EventView::AssistantDelta(a + b),
        ),
{
    let t1 = with_delta(m.timeline, a);
    assert(t1.len() > 0 && is_role(t1.last(), Role::Assistant));
    if m.timeline.len() > 0 && is_role(m.timeline.last(), Role::Assistant) {
        assert(text_of(m.timeline.last()) + a + b =~= text_of(m.timeline.last()) + (a + b));
        assert(with_delta(t1, b) =~= with_delta(m.timeline, a + b));
    } else {
        assert(with_delta(t1, b) =~= with_delta(m.timeline, a + b));
    }
}

/// No event removes an item of the timeline: it keeps its length or grows
/// by one, and every item but one tool card or the last message stays.
pub proof fn lemma_timeline_grows(m: AppView, e: EventView)
    ensures
        applied(m, e).timeline.len() == m.timeline.len() || applied(m, e).timeline.len()
            == m.timeline.len() + 1,
        forall|i: int|
            0 <= i < m.timeline.len() && is_role(#[trigger] m.timeline[i], Role::User)
                ==> applied(m, e).timeline[i] == m.timeline[i],
{
    match e {
        EventView::ToolStart { id, title } => {
            lemma_last_tool_is_tool(m.timeline, id);
        },
        EventView::ToolUpdate { id, status, detail } => {
            lemma_last_tool_is_tool(m.timeline, id);
        },
        _ => {},
    }
}

proof fn lemma_last_tool_is_tool(tl: Seq<ItemView>, id: Seq<char>)
    ensures
        last_tool(tl, id) matches Some(i) ==> 0 <= i < tl.len() && tl[i] is Tool,
    decreases tl.len(),
{
    if tl.len() > 0 {
        lemma_last_tool_is_tool(tl.drop_last(), id);
    }
}

/// After the user writes, the chat is no longer empty and the model waits
/// for the answer; a finished turn or an error stops the waiting.
pub proof fn lemma_busy_cycle(m: AppView, text: Seq<char>, err: Seq<char>)
    ensures
        ({
            let u = AppView {
                timeline: m.timeline.push(ItemView::Message { role: Role::User, text }),
                busy: true,
                status: "Working…"@,
                ..m
            };
            &&& !empty_chat(u.timeline)
            &&& u.busy
            &&& !applied(u, EventView::TurnDone).busy
            &&& !applied(u, EventView::Error(err)).busy
        }),
{
    let tl = m.timeline.push(ItemView::Message { role: Role::User, text });
    assert(!is_role(tl[tl.len() - 1], Role::System));
}

} // verus!
