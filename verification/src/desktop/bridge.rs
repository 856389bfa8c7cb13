//! The decisions of the earlier desktop client's agent bridge.

use vstd::prelude::*;
use crate::build::bridge::{
    OptionKind, SessionUpdate, detail_of, first_eq, first_kind, index_of, update_detail,
};
use crate::desktop::events::{AgentEvent, ModelChoice};
use crate::text::{chars_eq, chars_of, sviews};

verus! {

/// How to start the agent: the binary, the working directory, and whether
/// every permission request is approved.
#[derive(Debug, Clone)]
pub struct BridgeConfig {
    pub grok_bin: String,
    pub cwd: String,
    pub always_approve: bool,
}

/// The binary to run: the one given, else the one found on the search
/// path, else plain `grok`.
pub fn resolve_grok_bin(explicit: Option<&str>, found: Option<String>) -> (r: String)
    ensures
        r@ == match explicit {
            Some(p) => p@,
            None => match found {
                Some(f) => f@,
                None => "grok"@,
            },
        },
{
    crate::build::bridge::resolve_grok_bin(explicit, found)
}

/// The option that approves a request: the first "allow once", else the
/// first "allow always".
pub fn pick_allow(kinds: &[OptionKind]) -> (r: Option<usize>)
    ensures
        (match r {
            Some(i) => Some(i as int),
            None => None,
        }) == match first_kind(kinds@, OptionKind::AllowOnce) {
            Some(i) => Some(i),
            None => first_kind(kinds@, OptionKind::AllowAlways),
        },
{
    crate::build::bridge::pick_allow(kinds)
}

/// The option that denies a request: the first "reject once", else the
/// first "reject always".
pub fn pick_reject(kinds: &[OptionKind]) -> (r: Option<usize>)
    ensures
        (match r {
            Some(i) => Some(i as int),
            None => None,
        }) == match first_kind(kinds@, OptionKind::RejectOnce) {
            Some(i) => Some(i),
            None => first_kind(kinds@, OptionKind::RejectAlways),
        },
{
    let mut i: usize = 0;
    let ghost ks = kinds@;
    let mut once: Option<usize> = None;
    let mut always: Option<usize> = None;
    assert(ks.take(0) =~= Seq::<OptionKind>::empty());
    while i < kinds.len()
        invariant
            i <= kinds.len(),
            ks == kinds@,
            (match once {
                Some(j) => Some(j as int),
                None => None,
            }) == first_kind(ks.take(i as int), OptionKind::RejectOnce),
            (match always {
                Some(j) => Some(j as int),
                None => None,
            }) == first_kind(ks.take(i as int), OptionKind::RejectAlways),
        decreases kinds.len() - i,
    {
        assert(ks.take(i + 1).drop_last() =~= ks.take(i as int));
        if once.is_none() && kinds[i] == OptionKind::RejectOnce {
            once = Some(i);
        }
        if always.is_none() && kinds[i] == OptionKind::RejectAlways {
            always = Some(i);
        }
        i = i + 1;
    }
    assert(ks.take(kinds.len() as int) =~= ks);
    match once {
        Some(j) => Some(j),
        None => always,
    }
}

/// The sign-in method to use: the agent's default when it offers it, else
/// a cached token, an API key, `grok.com`, or the first, in that order.
pub open spec fn auth_choice(ids: Seq<Seq<char>>, default_id: Option<Seq<char>>) -> Option<int> {
    let by_default = match default_id {
        Some(d) => first_eq(ids, d),
        None => None,
    };
    if ids.len() == 0 {
        None
    } else if by_default is Some {
        by_default
    } else if first_eq(ids, "cached_token"@) is Some {
        first_eq(ids, "cached_token"@)
    } else if first_eq(ids, "xai.api_key"@) is Some {
        first_eq(ids, "xai.api_key"@)
    } else if first_eq(ids, "grok.com"@) is Some {
        first_eq(ids, "grok.com"@)
    } else {
        Some(0)
    }
}

/// The index of the sign-in method to use (`auth_choice`).
pub fn select_auth_method(method_ids: &[String], default_id: Option<&str>) -> (r: Option<usize>)
    ensures
        (match r {
            Some(i) => Some(i as int),
            None => None,
        }) == auth_choice(
            sviews(method_ids@),
            match default_id {
                Some(d) => Some(d@),
                None => None,
            },
        ),
{
    if method_ids.len() == 0 {
        return None;
    }
    match default_id {
        Some(d) => match index_of(method_ids, d) {
            Some(i) => {
                return Some(i);
            },
            None => {},
        },
        None => {},
    }
    match index_of(method_ids, "cached_token") {
        Some(i) => {
            return Some(i);
        },
        None => {},
    }
    match index_of(method_ids, "xai.api_key") {
        Some(i) => {
            return Some(i);
        },
        None => {},
    }
    match index_of(method_ids, "grok.com") {
        Some(i) => Some(i),
        None => Some(0),
    }
}

pub struct ChoiceView {
    pub id: Seq<char>,
    pub name: Seq<char>,
    pub description: Seq<char>,
}

impl View for ModelChoice {
    type V = ChoiceView;

    open spec fn view(&self) -> ChoiceView {
        ChoiceView { id: self.id@, name: self.name@, description: self.description@ }
    }
}

pub open spec fn choice_views(v: Seq<ModelChoice>) -> Seq<ChoiceView> {
    v.map_values(|m: ModelChoice| m@)
}

pub open spec fn choice_ids(v: Seq<ChoiceView>) -> Seq<Seq<char>> {
    v.map_values(|m: ChoiceView| m.id)
}

/// The current model of a new session: the agent's current id with its
/// name (the id when the list lacks it) and the models; with no model
/// state, no id, the name 未设置 and no models.
pub fn extract_models(state: Option<(String, Vec<ModelChoice>)>) -> (r: (String, String, Vec<ModelChoice>))
    ensures
        match state {
            Some(s) => r.0@ == s.0@ && r.1@ == (match first_eq(choice_ids(choice_views(s.1@)), s.0@) {
                Some(i) => choice_views(s.1@)[i].name,
                None => s.0@,
            }) && choice_views(r.2@) == choice_views(s.1@),
            None => r.0@.len() == 0 && r.1@ == "未设置"@ && r.2@.len() == 0,
        },
{
    match state {
        Some((current_id, models)) => {
            let ghost v = choice_ids(choice_views(models@));
            let idc = chars_of(current_id.as_str());
            let mut i: usize = 0;
            let mut found: Option<usize> = None;
            assert(v.take(0) =~= Seq::<Seq<char>>::empty());
            while i < models.len()
                invariant
                    i <= models.len(),
                    v == choice_ids(choice_views(models@)),
                    idc@ == current_id@,
                    (match found {
                        Some(j) => Some(j as int),
                        None => None,
                    }) == first_eq(v.take(i as int), current_id@),
                    found matches Some(j) ==> j < models.len(),
                decreases models.len() - i,
            {
                assert(v.take(i + 1).drop_last() =~= v.take(i as int));
                assert(v[i as int] == models@[i as int]@.id);
                if found.is_none() && chars_eq(&chars_of(models[i].id.as_str()), &idc) {
                    found = Some(i);
                }
                i = i + 1;
            }
            assert(v.take(models.len() as int) =~= v);
            let name = match found {
                Some(j) => {
                    assert(choice_views(models@)[j as int] == models@[j as int]@);
                    models[j].name.clone()
                },
                None => current_id.clone(),
            };
            (current_id, name, models)
        },
        None => {
            proof {
                reveal_strlit("");
            }
            (String::new(), "未设置".to_owned(), Vec::new())
        },
    }
}

/// The UI event of a session update: message text streams in and tool
/// calls start and change; the rest, context snapshots included, is
/// dropped.
pub fn session_event(u: SessionUpdate) -> (r: Option<AgentEvent>)
    ensures
        match u {
            SessionUpdate::MessageChunk(Some(t)) => if t@.len() > 0 {
                r matches Some(AgentEvent::AssistantDelta(d)) && d@ == t@
            } else {
                r is None
            },
            SessionUpdate::ToolCall { id, title } => r matches Some(
                AgentEvent::ToolStart { id: i, title: t },
            ) && i@ == id@ && t@ == title@,
            SessionUpdate::ToolCallUpdate { id, status, title, content } => r matches Some(
                AgentEvent::ToolUpdate { id: i, status: s, detail: d },
            ) && i@ == id@ && s@ == (match status {
                Some(x) => x@,
                None => Seq::empty(),
            }) && d@ == update_detail(
                title,
                match content {
                    Some(v) => Some(v@),
                    None => None,
                },
            ),
            _ => r is None,
        },
{
    match u {
        SessionUpdate::MessageChunk(Some(t)) => {
            if t.as_str().is_empty() {
                None
            } else {
                Some(AgentEvent::AssistantDelta(t))
            }
        },
        SessionUpdate::ToolCall { id, title } => Some(AgentEvent::ToolStart { id, title }),
        SessionUpdate::ToolCallUpdate { id, status, title, content } => {
            let detail = detail_of(&title, &content);
            let status = match status {
                Some(s) => s,
                None => {
                    let e = String::new();
                    assert(e@ =~= Seq::<char>::empty());
                    e
                },
            };
            Some(AgentEvent::ToolUpdate { id, status, detail })
        },
        _ => None,
    }
}

} // verus!
