//! What a peer's platform offers beyond the usual.

use crate::json::{
    json_as_bool, json_as_list, json_as_str, json_get, json_member, json_of, json_parse,
    json_parsed, Json,
};
use crate::message::SessionID;
use crate::session::{Sessions, SessionsView};
use crate::sessions::get_session_by_session_id;
use vstd::prelude::*;

verus! {

/// The first item of a JSON list.
pub open spec fn first_item(json: Option<Json>) -> Option<Json> {
    match json {
        Some(Json::List(items)) => if items.len() > 0 {
            Some(items[0])
        } else {
            None
        },
        _ => None,
    }
}

/// The first way to a private screen that a peer's additions offer: they list pairs of a key and a
/// hint.
pub open spec fn first_privacy_impl(additions: Json) -> Seq<char> {
    match first_item(first_item(json_member(additions, "supported_privacy_mode_impl"@))) {
        Some(Json::Text(key)) => key,
        _ => Seq::empty(),
    }
}

/// The first item of a JSON list.
fn first_of(value: Option<&serde_json::Value>) -> (first: Option<&serde_json::Value>)
    ensures
        match first {
            Some(item) => Some(json_of(*item)),
            None => None,
        } == first_item(
            match value {
                Some(v) => Some(json_of(*v)),
                None => None,
            },
        ),
{
    match value {
        Some(v) => match json_as_list(v) {
            Some(items) => if items.len() > 0 {
                Some(&items[0])
            } else {
                None
            },
            None => None,
        },
        None => None,
    }
}

/// The first way to a private screen that a peer's additions offer, or nothing.
pub fn default_privacy_mode_impl(additions: &serde_json::Value) -> (key: String)
    ensures
        key@ == first_privacy_impl(json_of(*additions)),
{
    match first_of(first_of(json_get(additions, "supported_privacy_mode_impl"))) {
        Some(item) => match json_as_str(item) {
            Some(text) => text.to_owned(),
            None => String::new(),
        },
        None => String::new(),
    }
}

/// Whether a peer's additions offer a camera.
pub open spec fn camera_offered(additions: Json) -> bool {
    json_member(additions, "support_view_camera"@) == Some(Json::Bool(true))
}

/// Whether a peer's additions offer a camera.
pub fn offers_camera(additions: &serde_json::Value) -> (offered: bool)
    ensures
        offered == camera_offered(json_of(*additions)),
{
    match json_get(additions, "support_view_camera") {
        Some(value) => match json_as_bool(value) {
            Some(b) => b,
            None => false,
        },
        None => false,
    }
}

impl SessionsView {
    /// What the peer of a session says that its platform offers, where that is JSON.
    pub open spec fn additions(self, id: SessionID) -> Option<Json> {
        match self.session(id) {
            Some(session) => json_parsed(session.ui_handler.peer_info.platform_additions),
            None => None,
        }
    }
}

fn additions_of(sessions: &Sessions, session_id: &SessionID) -> (additions: Option<
    serde_json::Value,
>)
    requires
        sessions.wf(),
    ensures
        match additions {
            Some(value) => sessions@.additions(*session_id) == Some(json_of(value)),
            None => sessions@.additions(*session_id) is None,
        },
{
    match get_session_by_session_id(sessions, session_id) {
        Some(session) => json_parse(session.ui_handler.peer_info.platform_additions.as_str()),
        None => None,
    }
}

/// The first way to a private screen that the peer offers, or nothing.
pub fn session_default_privacy_mode_impl(sessions: &Sessions, session_id: SessionID) -> (key: String)
    requires
        sessions.wf(),
    ensures
        key@ == match sessions@.additions(session_id) {
            Some(additions) => first_privacy_impl(additions),
            None => Seq::empty(),
        },
{
    match additions_of(sessions, &session_id) {
        Some(additions) => default_privacy_mode_impl(&additions),
        None => String::new(),
    }
}

/// Whether the peer offers a camera.
pub fn session_is_view_camera_supported(sessions: &Sessions, session_id: SessionID) -> (offered:
    bool)
    requires
        sessions.wf(),
    ensures
        offered == (sessions@.additions(session_id) matches Some(additions) && camera_offered(
            additions,
        )),
{
    match additions_of(sessions, &session_id) {
        Some(additions) => offers_camera(&additions),
        None => false,
    }
}

/// The first way to a private screen is the text that stands first in the first pair that is offered;
/// where the offer has another shape there is none.
pub proof fn lemma_first_privacy_impl(additions: Json, pairs: Seq<Json>, pair: Seq<Json>, key: Seq<char>)
    ensures
        json_member(additions, "supported_privacy_mode_impl"@) == Some(Json::List(pairs))
            && pairs.len() > 0 && pairs[0] == Json::List(pair) && pair.len() > 0 && pair[0]
            == Json::Text(key) ==> first_privacy_impl(additions) == key,
        json_member(additions, "supported_privacy_mode_impl"@) is None ==> first_privacy_impl(
            additions,
        ).len() == 0,
        json_member(additions, "supported_privacy_mode_impl"@) == Some(Json::List(pairs)) && (
        pairs.len() == 0 || !(pairs[0] is List)) ==> first_privacy_impl(additions).len() == 0,
        json_member(additions, "supported_privacy_mode_impl"@) == Some(Json::List(pairs))
            && pairs.len() > 0 && pairs[0] == Json::List(pair) && (pair.len() == 0 || !(pair[0]
            is Text)) ==> first_privacy_impl(additions).len() == 0,
        json_member(additions, "supported_privacy_mode_impl"@) matches Some(offer) && !(offer
            is List) ==> first_privacy_impl(additions).len() == 0,
{
}

/// A camera is offered exactly where the offer is the truth value `true`.
pub proof fn lemma_camera_offered(additions: Json)
    ensures
        match json_member(additions, "support_view_camera"@) {
            Some(Json::Bool(offered)) => camera_offered(additions) == offered,
            _ => !camera_offered(additions),
        },
{
}

/// The additions of a session's peer are what its text says, where that is JSON.
pub proof fn lemma_additions(sessions: SessionsView, id: SessionID)
    ensures
        match sessions.session(id) {
            Some(session) => sessions.additions(id) == json_parsed(
                session.ui_handler.peer_info.platform_additions,
            ),
            None => sessions.additions(id) is None,
        },
{
}

}
