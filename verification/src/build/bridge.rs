//! The decisions of the agent bridge: which `grok` binary to run, whether
//! to sign in and how, what to do with each UI command, and what a prompt
//! sends. Running the agent process and speaking ACP to it is the caller's.

use vstd::prelude::*;
use base64::Engine;
use crate::build::config::{opt_chars, ConfigModels};
use crate::build::events::{
    AgentEvent, AttachmentPayload, ModeChoice, ModelChoice, ModelChoiceView, UiCommand,
    model_views,
};
use crate::text::{
    join, join_with, push_chars, views,
    chars_eq, chars_of, contains_str, eq_str, from_utf8_lossy, has_sub, lowercase, push_str,
    starts_with, starts_with_str, string_of, sviews, trim, trimmed, unicode_lowercase, utf8_lossy,
};

verus! {

/// How to start the agent: the binary, the working directory, whether
/// every permission request is approved, and a session to resume.
#[derive(Debug, Clone)]
pub struct BridgeConfig {
    pub grok_bin: String,
    pub cwd: String,
    pub always_approve: bool,
    pub resume_session_id: Option<String>,
}

/// The binary to run: the one given, else the one found on the search
/// path, else plain `grok`.
pub fn resolve_grok_bin(explicit: Option<&str>, found: Option<String>) -> (r: String)
    ensures
        r@ == match explicit {
            Some(p) => p@,
            None => match found {
                Some(f) => f@,
                None => "grok"@,
            },
        },
{
    match explicit {
        Some(p) => p.to_owned(),
        None => match found {
            Some(f) => f,
            None => "grok".to_owned(),
        },
    }
}

/// The kind of a permission option.
#[derive(Debug, Clone, Copy, PartialEq, Eq, Structural)]
pub enum OptionKind {
    AllowOnce,
    AllowAlways,
    RejectOnce,
    RejectAlways,
}

pub open spec fn first_kind(ks: Seq<OptionKind>, k: OptionKind) -> Option<int>
    decreases ks.len(),
{
    if ks.len() == 0 {
        None
    } else {
        match first_kind(ks.drop_last(), k) {
            Some(i) => Some(i),
            None => if ks.last() == k {
                Some(ks.len() - 1)
            } else {
                None
            },
        }
    }
}

fn find_kind(ks: &[OptionKind], k: OptionKind) -> (r: Option<usize>)
    ensures
        match r {
            Some(i) => first_kind(ks@, k) == Some(i as int),
            None => first_kind(ks@, k) is None,
        },
{
    let mut i: usize = 0;
    assert(ks@.take(0) =~= Seq::<OptionKind>::empty());
    while i < ks.len()
        invariant
            i <= ks.len(),
            first_kind(ks@.take(i as int), k) is None,
        decreases ks.len() - i,
    {
        assert(ks@.take(i + 1).drop_last() =~= ks@.take(i as int));
        if ks[i] == k {
            proof {
                lemma_first_kind_prefix(ks@, i + 1, k);
            }
            return Some(i);
        }
        i = i + 1;
    }
    assert(ks@.take(ks.len() as int) =~= ks@);
    None
}

proof fn lemma_first_kind_prefix(ks: Seq<OptionKind>, n: int, k: OptionKind)
    requires
        0 <= n <= ks.len(),
        first_kind(ks.take(n), k) is Some,
    ensures
        first_kind(ks, k) == first_kind(ks.take(n), k),
    decreases ks.len(),
{
    if ks.len() > n {
        assert(ks.drop_last().take(n) =~= ks.take(n));
        lemma_first_kind_prefix(ks.drop_last(), n, k);
    } else {
        assert(ks.take(n) =~= ks);
    }
}

/// The option that approves a request: the first "allow once", else the
/// first "allow always".
pub fn pick_allow(kinds: &[OptionKind]) -> (r: Option<usize>)
    ensures
        (match r {
            Some(i) => Some(i as int),
            None => None,
        }) == match first_kind(kinds@, OptionKind::AllowOnce) {
            Some(i) => Some(i),
            None => first_kind(kinds@, OptionKind::AllowAlways),
        },
{
    match find_kind(kinds, OptionKind::AllowOnce) {
        Some(i) => Some(i),
        None => find_kind(kinds, OptionKind::AllowAlways),
    }
}

/// The first index of `x` among `ids`.
pub open spec fn first_eq(ids: Seq<Seq<char>>, x: Seq<char>) -> Option<int>
    decreases ids.len(),
{
    if ids.len() == 0 {
        None
    } else {
        match first_eq(ids.drop_last(), x) {
            Some(i) => Some(i),
            None => if ids.last() == x {
                Some(ids.len() - 1)
            } else {
                None
            },
        }
    }
}

proof fn lemma_first_eq_prefix(ids: Seq<Seq<char>>, n: int, x: Seq<char>)
    requires
        0 <= n <= ids.len(),
        first_eq(ids.take(n), x) is Some,
    ensures
        first_eq(ids, x) == first_eq(ids.take(n), x),
    decreases ids.len(),
{
    if ids.len() > n {
        assert(ids.drop_last().take(n) =~= ids.take(n));
        lemma_first_eq_prefix(ids.drop_last(), n, x);
    } else {
        assert(ids.take(n) =~= ids);
    }
}

/// The first index of `x` among `ids` (`first_eq`).
pub fn index_of(ids: &[String], x: &str) -> (r: Option<usize>)
    ensures
        match r {
            Some(i) => first_eq(sviews(ids@), x@) == Some(i as int) && i < ids.len(),
            None => first_eq(sviews(ids@), x@) is None,
        },
{
    let ghost v = sviews(ids@);
    let xc = chars_of(x);
    let mut i: usize = 0;
    assert(v.take(0) =~= Seq::<Seq<char>>::empty());
    while i < ids.len()
        invariant
            i <= ids.len(),
            v == sviews(ids@),
            xc@ == x@,
            first_eq(v.take(i as int), x@) is None,
        decreases ids.len() - i,
    {
        assert(v.take(i + 1).drop_last() =~= v.take(i as int));
        assert(v[i as int] == ids@[i as int]@);
        if chars_eq(&chars_of(ids[i].as_str()), &xc) {
            proof {
                lemma_first_eq_prefix(v, i + 1, x@);
            }
            return Some(i);
        }
        i = i + 1;
    }
    assert(v.take(ids.len() as int) =~= v);
    None
}

/// A sign-in method that opens the browser.
pub open spec fn interactive(id: Seq<char>) -> bool {
    id == "grok.com"@ || has_sub(id, "oidc"@)
}

pub fn is_interactive(id: &str) -> (r: bool)
    ensures
        r == interactive(id@),
{
    let c = chars_of(id);
    eq_str(&c, "grok.com") || contains_str(&c, "oidc")
}

/// Whether the user must sign in before a session: no xAI credentials, no
/// usable configured model, and no sign-in method that needs no browser.
pub open spec fn must_sign_in(has_xai_creds: bool, has_byok: bool, ids: Seq<Seq<char>>) -> bool {
    !has_xai_creds && !has_byok && first_eq(ids, "cached_token"@) is None && first_eq(
        ids,
        "xai.api_key"@,
    ) is None
}

/// Whether the user must sign in before a session (`must_sign_in`).
pub fn needs_sign_in(has_xai_creds: bool, has_byok: bool, method_ids: &[String]) -> (r: bool)
    ensures
        r == must_sign_in(has_xai_creds, has_byok, sviews(method_ids@)),
{
    !has_xai_creds && !has_byok && index_of(method_ids, "cached_token").is_none() && index_of(
        method_ids,
        "xai.api_key",
    ).is_none()
}

/// The sign-in method to use: the agent's default (unless it opens the
/// browser while configured models are usable), else one that needs no
/// browser, else (without configured models) `grok.com` or the first.
pub open spec fn auth_choice(ids: Seq<Seq<char>>, default_id: Option<Seq<char>>, prefer_byok: bool) -> Option<
    int,
> {
    let by_default = match default_id {
        Some(d) => match first_eq(ids, d) {
            Some(i) => if !(prefer_byok && interactive(ids[i])) {
                Some(i)
            } else {
                None
            },
            None => None,
        },
        None => None,
    };
    let headless = match first_eq(ids, "xai.api_key"@) {
        Some(i) => Some(i),
        None => first_eq(ids, "cached_token"@),
    };
    if ids.len() == 0 {
        None
    } else if by_default is Some {
        by_default
    } else if headless is Some {
        headless
    } else if prefer_byok {
        None
    } else {
        match first_eq(ids, "grok.com"@) {
            Some(i) => Some(i),
            None => Some(0),
        }
    }
}

/// The index of the sign-in method to use (`auth_choice`).
pub fn select_auth_method(method_ids: &[String], default_id: Option<&str>, prefer_byok: bool) -> (r:
    Option<usize>)
    ensures
        (match r {
            Some(i) => Some(i as int),
            None => None,
        }) == auth_choice(
            sviews(method_ids@),
            match default_id {
                Some(d) => Some(d@),
                None => None,
            },
            prefer_byok,
        ),
        r matches Some(i) ==> i < method_ids.len(),
{
    if method_ids.len() == 0 {
        return None;
    }
    match default_id {
        Some(d) => match index_of(method_ids, d) {
            Some(i) => {
                assert(sviews(method_ids@)[i as int] == method_ids@[i as int]@);
                if !(prefer_byok && is_interactive(method_ids[i].as_str())) {
                    return Some(i);
                }
            },
            None => {},
        },
        None => {},
    }
    match index_of(method_ids, "xai.api_key") {
        Some(i) => {
            return Some(i);
        },
        None => {},
    }
    match index_of(method_ids, "cached_token") {
        Some(i) => {
            return Some(i);
        },
        None => {},
    }
    if prefer_byok {
        return None;
    }
    match index_of(method_ids, "grok.com") {
        Some(i) => Some(i),
        None => Some(0),
    }
}

/// Whether to skip a browser sign-in: the method opens the browser, models
/// are configured, and there are no xAI credentials.
pub fn skip_browser_sign_in(method_id: &str, has_byok: bool, has_xai_creds: bool) -> (r: bool)
    ensures
        r == (interactive(method_id@) && has_byok && !has_xai_creds),
{
    is_interactive(method_id) && has_byok && !has_xai_creds
}

/// What a command does while the bridge waits for a sign-in.
#[derive(Debug, Clone, PartialEq, Eq)]
pub enum WaitAction {
    /// Stop the bridge.
    Shutdown,
    /// Run `grok login`, then reconnect.
    Login,
    /// Tell the user to sign in first.
    Remind(String),
    /// Nothing.
    Ignore,
}

/// What a command does while the bridge waits for a sign-in: shutdown
/// stops, login signs in, a prompt gets the reminder, the rest is ignored.
pub fn wait_action(cmd: &UiCommand, reminder: &str) -> (r: WaitAction)
    ensures
        match cmd {
            UiCommand::Shutdown => r == WaitAction::Shutdown,
            UiCommand::Login => r == WaitAction::Login,
            UiCommand::Prompt { .. } => r matches WaitAction::Remind(m) && m@ == reminder@,
            _ => r == WaitAction::Ignore,
        },
{
    match cmd {
        UiCommand::Shutdown => WaitAction::Shutdown,
        UiCommand::Login => WaitAction::Login,
        UiCommand::Prompt { .. } => WaitAction::Remind(reminder.to_owned()),
        _ => WaitAction::Ignore,
    }
}

/// How a session ended.
#[derive(Debug, Clone, PartialEq, Eq)]
pub enum SessionEnd {
    Shutdown,
    Reconnect,
    Fatal(String),
}

/// What the bridge does after a session: stop on shutdown; announce the
/// disconnection and start again on a reconnect; report a fatal error and
/// wait for a sign-in.
pub fn after_session(end: SessionEnd) -> (r: (Option<AgentEvent>, bool))
    ensures
        match end {
            SessionEnd::Shutdown => r.0 is None && !r.1,
            SessionEnd::Reconnect => r.0 matches Some(AgentEvent::Disconnected) && r.1,
            SessionEnd::Fatal(e) => r.0 matches Some(AgentEvent::Error(m)) && m@ == e@ && r.1,
        },
{
    match end {
        SessionEnd::Shutdown => (None, false),
        SessionEnd::Reconnect => (Some(AgentEvent::Disconnected), true),
        SessionEnd::Fatal(e) => (Some(AgentEvent::Error(e)), true),
    }
}

/// A piece of a prompt as it is sent to the agent.
#[derive(Debug, Clone)]
pub enum PromptBlock {
    Text(String),
    /// An image with its MIME type, its bytes in base64 (`base64_text`).
    Image { mime_type: String, data: String },
}

pub enum BlockView {
    Text(Seq<char>),
    Image { mime_type: Seq<char>, data: Seq<char> },
}

impl View for PromptBlock {
    type V = BlockView;

    open spec fn view(&self) -> BlockView {
        match self {
            PromptBlock::Text(t) => BlockView::Text(t@),
            PromptBlock::Image { mime_type, data } => BlockView::Image {
                mime_type: mime_type@,
                data: data@,
            },
        }
    }
}

pub open spec fn prompt_views(v: Seq<PromptBlock>) -> Seq<BlockView> {
    v.map_values(|b: PromptBlock| b@)
}

pub struct AttachmentView {
    pub name: Seq<char>,
    pub mime_type: Seq<char>,
    pub data: Seq<u8>,
}

impl View for AttachmentPayload {
    type V = AttachmentView;

    open spec fn view(&self) -> AttachmentView {
        AttachmentView { name: self.name@, mime_type: self.mime_type@, data: self.data@ }
    }
}

pub open spec fn attachment_views(v: Seq<AttachmentPayload>) -> Seq<AttachmentView> {
    v.map_values(|a: AttachmentPayload| a@)
}

/// The character for a six-bit value in the standard base64 alphabet:
/// `A`–`Z`, `a`–`z`, `0`–`9`, `+`, `/`.
pub open spec fn base64_digit(v: int) -> char {
    if v < 26 {
        (65 + v) as char
    } else if v < 52 {
        (97 + v - 26) as char
    } else if v < 62 {
        (48 + v - 52) as char
    } else if v == 62 {
        '+'
    } else {
        '/'
    }
}

/// The standard base64 text (RFC 4648, padded with `=`) of the bytes: each
/// group of three bytes, read as 24 bits, gives four six-bit digits; a last
/// group of one or two bytes is filled with zero bits and padded to four
/// characters.
pub open spec fn base64_text(data: Seq<u8>) -> Seq<char>
    decreases data.len(),
{
    if data.len() == 0 {
        Seq::empty()
    } else if data.len() == 1 {
        let b0 = data[0] as int;
        seq![base64_digit(b0 / 4), base64_digit((b0 % 4) * 16), '=', '=']
    } else if data.len() == 2 {
        let b0 = data[0] as int;
        let b1 = data[1] as int;
        seq![
            base64_digit(b0 / 4),
            base64_digit((b0 % 4) * 16 + b1 / 16),
            base64_digit((b1 % 16) * 4),
            '=',
        ]
    } else {
        let b0 = data[0] as int;
        let b1 = data[1] as int;
        let b2 = data[2] as int;
        seq![
            base64_digit(b0 / 4),
            base64_digit((b0 % 4) * 16 + b1 / 16),
            base64_digit((b1 % 16) * 4 + b2 / 64),
            base64_digit(b2 % 64),
        ] + base64_text(data.skip(3))
    }
}

/// The bytes are few enough that their base64 text fits in memory
/// (`isize::MAX` bytes), which its allocation needs.
pub open spec fn encodable(n: nat) -> bool {
    4 * ((n + 2) / 3) <= isize::MAX
}

/// `base64::engine::general_purpose::STANDARD.encode`: the standard padded
/// base64 text of the bytes (`base64_text`), four characters for each
/// started group of three bytes. The crate panics when that length cannot
/// be allocated, which `encodable` rules out.
#[verifier::external_body]
fn base64_encode(data: &[u8]) -> (r: String)
    requires
        encodable(data@.len()),
    ensures
        r@ == base64_text(data@),
        r@.len() == 4 * ((data@.len() + 2) / 3),
{
    base64::engine::general_purpose::STANDARD.encode(data)
}

/// Every attachment's bytes are `encodable`.
pub open spec fn attachments_encodable(atts: Seq<AttachmentPayload>) -> bool {
    forall|i: int| 0 <= i < atts.len() ==> encodable(#[trigger] atts[i].data@.len())
}

/// The block of one attachment: an image with its bytes in base64,
/// anything else as text wrapped in an `<attachment>` element.
pub open spec fn attachment_block(a: AttachmentView) -> BlockView {
    if starts_with(a.mime_type, "image/"@) {
        BlockView::Image { mime_type: a.mime_type, data: base64_text(a.data) }
    } else {
        BlockView::Text(
            "\n<attachment name=\""@ + a.name + "\">\n"@ + utf8_lossy(a.data) + "\n</attachment>"@,
        )
    }
}

/// What a prompt sends: its trimmed text when there is any, then its
/// attachments; nothing at all when both are empty.
pub open spec fn prompt_of(text: Seq<char>, atts: Seq<AttachmentView>) -> Option<Seq<BlockView>> {
    let t = trim(text);
    if t.len() == 0 && atts.len() == 0 {
        None
    } else {
        Some(
            (if t.len() > 0 {
                seq![BlockView::Text(t)]
            } else {
                Seq::empty()
            }) + atts.map_values(|a: AttachmentView| attachment_block(a)),
        )
    }
}

/// The blocks of a prompt (`prompt_of`).
pub fn prompt_blocks(text: &str, attachments: &[AttachmentPayload]) -> (r: Option<Vec<PromptBlock>>)
    requires
        attachments_encodable(attachments@),
    ensures
        match r {
            Some(v) => prompt_of(text@, attachment_views(attachments@)) == Some(prompt_views(v@)),
            None => prompt_of(text@, attachment_views(attachments@)) is None,
        },
{
    let t = trimmed(&chars_of(text));
    if t.len() == 0 && attachments.len() == 0 {
        return None;
    }
    let ghost atts = attachment_views(attachments@);
    let mut out: Vec<PromptBlock> = Vec::new();
    if t.len() > 0 {
        out.push(PromptBlock::Text(string_of(&t)));
    }
    let ghost first = prompt_views(out@);
    assert(first =~= (if t@.len() > 0 {
        seq![BlockView::Text(t@)]
    } else {
        Seq::<BlockView>::empty()
    }));
    let mut i: usize = 0;
    while i < attachments.len()
        invariant
            i <= attachments.len(),
            atts == attachment_views(attachments@),
            attachments_encodable(attachments@),
            prompt_views(out@) == first + atts.take(i as int).map_values(
                |a: AttachmentView| attachment_block(a),
            ),
        decreases attachments.len() - i,
    {
        let a = &attachments[i];
        assert(atts[i as int] == a@);
        let b = if starts_with_str(&chars_of(a.mime_type.as_str()), "image/") {
            PromptBlock::Image {
                mime_type: a.mime_type.clone(),
                data: base64_encode(a.data.as_slice()),
            }
        } else {
            let body = from_utf8_lossy(a.data.as_slice());
            let mut s = chars_of("\n<attachment name=\"");
            push_str(&mut s, a.name.as_str());
            push_str(&mut s, "\">\n");
            push_str(&mut s, body.as_str());
            push_str(&mut s, "\n</attachment>");
            PromptBlock::Text(string_of(&s))
        };
        assert(b@ == attachment_block(a@));
        let ghost before = prompt_views(out@);
        out.push(b);
        assert(prompt_views(out@) =~= before.push(b@));
        assert(prompt_views(out@) =~= first + atts.take(i + 1).map_values(
            |a: AttachmentView| attachment_block(a),
        ));
        i = i + 1;
    }
    assert(atts.take(attachments.len() as int) =~= atts);
    Some(out)
}

/// What a command does while the session is connected.
#[derive(Debug, Clone)]
pub enum SessionAction {
    /// Nothing to send: keep reading commands.
    Continue,
    /// End the session this way (the agent process is stopped first).
    End(SessionEnd),
    /// Stop the agent, run `grok login`, then reconnect.
    Login,
    /// Ask the agent to switch to this model.
    SetModel(String),
    /// Ask the agent to switch to this mode.
    SetMode(String),
    /// Cancel the turn in flight.
    Cancel,
    /// Answer the pending permission request with this option (none
    /// cancels it).
    AnswerPermission(Option<String>),
    /// Send these prompt blocks as one turn.
    Send(Vec<PromptBlock>),
}

/// What a command does while the session is connected: shutdown ends it;
/// login signs in again and a forced stop restarts the agent, both ending
/// in a reconnect; a model or mode switch, a cancel and a permission answer
/// each make one request; a prompt sends its blocks (`prompt_of`), and a
/// blank prompt without attachments sends nothing and the session goes on
/// reading.
pub fn session_step(cmd: &UiCommand) -> (r: SessionAction)
    requires
        cmd matches UiCommand::Prompt { attachments, .. } ==> attachments_encodable(attachments@),
    ensures
        match cmd {
            UiCommand::Shutdown => r == SessionAction::End(SessionEnd::Shutdown),
            UiCommand::ForceStop => r == SessionAction::End(SessionEnd::Reconnect),
            UiCommand::Login => r is Login,
            UiCommand::SetModel { model_id } => r matches SessionAction::SetModel(m) && m@ == model_id@,
            UiCommand::SetMode { mode_id } => r matches SessionAction::SetMode(m) && m@ == mode_id@,
            UiCommand::Cancel => r is Cancel,
            UiCommand::PermissionResponse { option_id } => r matches SessionAction::AnswerPermission(
                o,
            ) && opt_chars(o) == opt_chars(*option_id),
            UiCommand::Prompt { text, attachments } => match prompt_of(
                text@,
                attachment_views(attachments@),
            ) {
                None => r is Continue,
                Some(bs) => r matches SessionAction::Send(v) && prompt_views(v@) == bs,
            },
        },
{
    match cmd {
        UiCommand::Shutdown => SessionAction::End(SessionEnd::Shutdown),
        UiCommand::ForceStop => SessionAction::End(SessionEnd::Reconnect),
        UiCommand::Login => SessionAction::Login,
        UiCommand::SetModel { model_id } => SessionAction::SetModel(model_id.clone()),
        UiCommand::SetMode { mode_id } => SessionAction::SetMode(mode_id.clone()),
        UiCommand::Cancel => SessionAction::Cancel,
        UiCommand::PermissionResponse { option_id } => SessionAction::AnswerPermission(
            match option_id {
                Some(o) => Some(o.clone()),
                None => None,
            },
        ),
        UiCommand::Prompt { text, attachments } => match prompt_blocks(
            text.as_str(),
            attachments.as_slice(),
        ) {
            None => SessionAction::Continue,
            Some(v) => SessionAction::Send(v),
        },
    }
}

/// The event for a failed prompt: a message that speaks of authorisation
/// (in any case) asks for a new sign-in; anything else is an error.
pub fn prompt_failure(msg: &str) -> (r: AgentEvent)
    ensures
        ({
            let l = unicode_lowercase(msg@);
            if has_sub(l, "auth"@) || has_sub(l, "unauthor"@) {
                r matches AgentEvent::NeedsLogin { message } && message@ == "Auth expired: "@ + msg@
                    + ". Please sign in again."@
            } else {
                r matches AgentEvent::Error(m) && m@ == "prompt failed: "@ + msg@
            }
        }),
{
    let l = lowercase(&chars_of(msg));
    if contains_str(&l, "auth") || contains_str(&l, "unauthor") {
        let mut m = chars_of("Auth expired: ");
        push_str(&mut m, msg);
        push_str(&mut m, ". Please sign in again.");
        AgentEvent::NeedsLogin { message: string_of(&m) }
    } else {
        let mut m = chars_of("prompt failed: ");
        push_str(&mut m, msg);
        AgentEvent::Error(string_of(&m))
    }
}

pub open spec fn model_ids(ms: Seq<ModelChoiceView>) -> Seq<Seq<char>> {
    ms.map_values(|m: ModelChoiceView| m.id)
}

/// The name of model `id` among `ms`, or `fallback` when it is not there.
pub open spec fn model_name_or(ms: Seq<ModelChoiceView>, id: Seq<char>, fallback: Seq<char>) -> Seq<char> {
    match first_eq(model_ids(ms), id) {
        Some(i) => ms[i].name,
        None => fallback,
    }
}

fn find_model(models: &Vec<ModelChoice>, id: &str) -> (r: Option<usize>)
    ensures
        match r {
            Some(i) => first_eq(model_ids(model_views(models@)), id@) == Some(i as int) && i
                < models.len(),
            None => first_eq(model_ids(model_views(models@)), id@) is None,
        },
{
    let ghost v = model_ids(model_views(models@));
    let idc = chars_of(id);
    let mut i: usize = 0;
    assert(v.take(0) =~= Seq::<Seq<char>>::empty());
    while i < models.len()
        invariant
            i <= models.len(),
            v == model_ids(model_views(models@)),
            idc@ == id@,
            first_eq(v.take(i as int), id@) is None,
        decreases models.len() - i,
    {
        assert(v.take(i + 1).drop_last() =~= v.take(i as int));
        assert(v[i as int] == models@[i as int]@.id);
        if chars_eq(&chars_of(models[i].id.as_str()), &idc) {
            proof {
                lemma_first_eq_prefix(v, i + 1, id@);
            }
            return Some(i);
        }
        i = i + 1;
    }
    assert(v.take(models.len() as int) =~= v);
    None
}

/// After a successful switch to model `model_id`: its name (the id when
/// the list lacks it), with the model added to the list when missing.
pub fn switch_model(models: &mut Vec<ModelChoice>, model_id: &str) -> (name: String)
    ensures
        name@ == model_name_or(model_views(old(models)@), model_id@, model_id@),
        model_views(final(models)@) == (if first_eq(model_ids(model_views(old(models)@)), model_id@)
            is Some {
            model_views(old(models)@)
        } else {
            model_views(old(models)@).push(
                ModelChoiceView { id: model_id@, name: model_id@, description: Seq::empty() },
            )
        }),
{
    match find_model(models, model_id) {
        Some(i) => {
            assert(model_views(models@)[i as int] == models@[i as int]@);
            models[i].name.clone()
        },
        None => {
            let m = ModelChoice {
                id: model_id.to_owned(),
                name: model_id.to_owned(),
                description: String::new(),
            };
            proof {
                reveal_strlit("");
            }
            let ghost before = model_views(models@);
            models.push(m);
            assert(model_views(models@) =~= before.push(
                ModelChoiceView { id: model_id@, name: model_id@, description: Seq::empty() },
            ));
            model_id.to_owned()
        },
    }
}

fn copy_models(v: &Vec<ModelChoice>) -> (r: Vec<ModelChoice>)
    ensures
        model_views(r@) == model_views(v@),
{
    let mut out: Vec<ModelChoice> = Vec::new();
    let mut i: usize = 0;
    while i < v.len()
        invariant
            i <= v.len(),
            model_views(out@) == model_views(v@).take(i as int),
        decreases v.len() - i,
    {
        let m = ModelChoice {
            id: v[i].id.clone(),
            name: v[i].name.clone(),
            description: v[i].description.clone(),
        };
        let ghost before = model_views(out@);
        out.push(m);
        assert(model_views(out@) =~= before.push(m@));
        assert(model_views(v@).take(i + 1) =~= model_views(v@).take(i as int).push(v@[i as int]@));
        i = i + 1;
    }
    assert(model_views(v@).take(v.len() as int) =~= model_views(v@));
    out
}

/// The current model of a new session: the agent's model state when it
/// has one (the current id and its name), else the configured default and
/// its name (未设置 when unknown) with the configured models.
pub fn extract_model_state(state: Option<(String, Vec<ModelChoice>)>, catalog: &ConfigModels) -> (r: (
    String,
    String,
    Vec<ModelChoice>,
))
    ensures
        match state {
            Some(s) => r.0@ == s.0@ && r.1@ == model_name_or(model_views(s.1@), s.0@, s.0@)
                && model_views(r.2@) == model_views(s.1@),
            None => {
                let id = match catalog@.default_id {
                    Some(d) => d,
                    None => Seq::empty(),
                };
                r.0@ == id && r.1@ == model_name_or(catalog@.models, id, "未设置"@)
                    && model_views(r.2@) == catalog@.models
            },
        },
{
    match state {
        Some((current_id, models)) => {
            let name = match find_model(&models, current_id.as_str()) {
                Some(i) => {
                    assert(model_views(models@)[i as int] == models@[i as int]@);
                    models[i].name.clone()
                },
                None => current_id.clone(),
            };
            (current_id, name, models)
        },
        None => {
            let id = match &catalog.default_id {
                Some(d) => d.clone(),
                None => String::new(),
            };
            proof {
                reveal_strlit("");
            }
            let name = match find_model(&catalog.models, id.as_str()) {
                Some(i) => {
                    assert(model_views(catalog.models@)[i as int] == catalog.models@[i as int]@);
                    catalog.models[i].name.clone()
                },
                None => "未设置".to_owned(),
            };
            (id, name, copy_models(&catalog.models))
        },
    }
}

/// A session mode as the agent lists it.
pub struct ModeInfo {
    pub id: String,
    pub name: String,
    pub description: Option<String>,
}

/// The mode choice shown for a listed mode: its id, name and description
/// (empty when it has none).
pub open spec fn mode_choice_of(m: ModeInfo) -> (Seq<char>, Seq<char>, Seq<char>) {
    (
        m.id@,
        m.name@,
        match m.description {
            Some(d) => d@,
            None => Seq::empty(),
        },
    )
}

pub open spec fn choice_view(c: ModeChoice) -> (Seq<char>, Seq<char>, Seq<char>) {
    (c.id@, c.name@, c.description@)
}

/// The current mode and the modes offered, from the agent's mode state
/// (its current mode id and listed modes); nothing without one.
pub fn extract_modes(state: Option<(String, Vec<ModeInfo>)>) -> (r: (String, Vec<ModeChoice>))
    ensures
        match state {
            None => r.0@.len() == 0 && r.1@.len() == 0,
            Some(st) => r.0@ == st.0@ && r.1@.len() == st.1@.len() && forall|i: int|
                0 <= i < r.1@.len() ==> choice_view(#[trigger] r.1@[i]) == mode_choice_of(
                    st.1@[i],
                ),
        },
{
    match state {
        None => {
            let e = String::new();
            assert(e@ =~= Seq::<char>::empty());
            (e, Vec::new())
        },
        Some((current, modes)) => {
            let mut out: Vec<ModeChoice> = Vec::new();
            let mut i: usize = 0;
            while i < modes.len()
                invariant
                    i <= modes.len(),
                    out@.len() == i,
                    forall|k: int|
                        0 <= k < i ==> choice_view(#[trigger] out@[k]) == mode_choice_of(
                            modes@[k],
                        ),
                decreases modes.len() - i,
            {
                let m = &modes[i];
                let description = match &m.description {
                    Some(d) => d.clone(),
                    None => {
                        let e = String::new();
                        assert(e@ =~= Seq::<char>::empty());
                        e
                    },
                };
                out.push(ModeChoice { id: m.id.clone(), name: m.name.clone(), description });
                i = i + 1;
            }
            (current, out)
        },
    }
}

/// A piece of a tool call's content, as far as the client reads it.
pub enum ToolContent {
    /// Text content.
    Text(String),
    /// A diff, by the path of its file.
    Diff(String),
    /// Anything else (images, terminals, …).
    Other,
}

/// A session update from the agent, as far as the client reads it.
pub enum SessionUpdate {
    /// A chunk of the agent's message; `Some` for a text block.
    MessageChunk(Option<String>),
    /// A new tool call.
    ToolCall { id: String, title: String },
    /// A change to a tool call: its status (by name), title and content,
    /// each where the update carries it.
    ToolCallUpdate {
        id: String,
        status: Option<String>,
        title: Option<String>,
        content: Option<Vec<ToolContent>>,
    },
    /// A context-window snapshot.
    Usage { used: u64, size: u64 },
    /// Any other update.
    Other,
}

/// The texts that a tool call's content shows: text blocks and diff paths.
pub open spec fn tool_texts(cs: Seq<ToolContent>) -> Seq<Seq<char>>
    decreases cs.len(),
{
    if cs.len() == 0 {
        Seq::empty()
    } else {
        let prev = tool_texts(cs.drop_last());
        match cs.last() {
            ToolContent::Text(t) => prev.push(t@),
            ToolContent::Diff(p) => prev.push(p@),
            ToolContent::Other => prev,
        }
    }
}

/// The detail line of a tool call update: its title, then its content's
/// texts, one per line.
pub open spec fn update_detail(title: Option<String>, content: Option<Seq<ToolContent>>) -> Seq<
    char,
> {
    let base = match title {
        Some(t) => t@,
        None => Seq::empty(),
    };
    match content {
        Some(cs) => {
            let ts = tool_texts(cs);
            if ts.len() > 0 {
                (if base.len() > 0 {
                    base + "\n"@
                } else {
                    base
                }) + join(ts, "\n"@)
            } else {
                base
            }
        },
        None => base,
    }
}

pub(crate) fn detail_of(title: &Option<String>, content: &Option<Vec<ToolContent>>) -> (r: String)
    ensures
        r@ == update_detail(
            *title,
            match content {
                Some(v) => Some(v@),
                None => None,
            },
        ),
{
    let mut out: Vec<char> = match title {
        Some(t) => chars_of(t.as_str()),
        None => Vec::new(),
    };
    let ghost base = out@;
    match content {
        Some(cs) => {
            let mut ts: Vec<Vec<char>> = Vec::new();
            let mut i: usize = 0;
            while i < cs.len()
                invariant
                    i <= cs@.len(),
                    views(ts@) == tool_texts(cs@.take(i as int)),
                decreases cs@.len() - i,
            {
                assert(cs@.take(i + 1).drop_last() =~= cs@.take(i as int));
                assert(cs@.take(i + 1).last() == cs@[i as int]);
                match &cs[i] {
                    ToolContent::Text(t) => {
                        let c = chars_of(t.as_str());
                        assert(views(ts@.push(c)) =~= views(ts@).push(c@));
                        ts.push(c);
                    },
                    ToolContent::Diff(p) => {
                        let c = chars_of(p.as_str());
                        assert(views(ts@.push(c)) =~= views(ts@).push(c@));
                        ts.push(c);
                    },
                    ToolContent::Other => {},
                }
                i = i + 1;
            }
            assert(cs@.take(cs@.len() as int) =~= cs@);
            if ts.len() > 0 {
                proof {
                    reveal_strlit("\n");
                }
                if out.len() > 0 {
                    out.push('\n');
                    assert(out@ =~= base + "\n"@);
                }
                let ghost head = out@;
                let j = join_with(&ts, "\n");
                push_chars(&mut out, &j);
                assert(out@ == head + join(tool_texts(cs@), "\n"@));
            }
        },
        None => {},
    }
    assert(title is None ==> base =~= Seq::<char>::empty());
    string_of(&out)
}

/// The UI event of a session update: message text streams in, tool calls
/// start and change, context snapshots pass on; the rest is dropped.
pub fn session_event(u: SessionUpdate) -> (r: Option<AgentEvent>)
    ensures
        match u {
            SessionUpdate::MessageChunk(Some(t)) => if t@.len() > 0 {
                r matches Some(AgentEvent::AssistantDelta(d)) && d@ == t@
            } else {
                r is None
            },
            SessionUpdate::ToolCall { id, title } => r matches Some(
                AgentEvent::ToolStart { id: i, title: t },
            ) && i@ == id@ && t@ == title@,
            SessionUpdate::ToolCallUpdate { id, status, title, content } => r matches Some(
                AgentEvent::ToolUpdate { id: i, status: s, detail: d },
            ) && i@ == id@ && s@ == (match status {
                Some(x) => x@,
                None => Seq::empty(),
            }) && d@ == update_detail(
                title,
                match content {
                    Some(v) => Some(v@),
                    None => None,
                },
            ),
            SessionUpdate::Usage { used, size } => r matches Some(
                AgentEvent::ContextUsage { used: a, size: b },
            ) && a == used && b == size,
            _ => r is None,
        },
{
    match u {
        SessionUpdate::MessageChunk(Some(t)) => {
            if t.as_str().is_empty() {
                None
            } else {
                Some(AgentEvent::AssistantDelta(t))
            }
        },
        SessionUpdate::ToolCall { id, title } => Some(AgentEvent::ToolStart { id, title }),
        SessionUpdate::ToolCallUpdate { id, status, title, content } => {
            let detail = detail_of(&title, &content);
            let status = match status {
                Some(s) => s,
                None => {
                    let e = String::new();
                    assert(e@ =~= Seq::<char>::empty());
                    e
                },
            };
            Some(AgentEvent::ToolUpdate { id, status, detail })
        },
        SessionUpdate::Usage { used, size } => Some(AgentEvent::ContextUsage { used, size }),
        _ => None,
    }
}

} // verus!
