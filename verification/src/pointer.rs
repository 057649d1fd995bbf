//! Touches that the user interface sends on to a peer.

use crate::json::{
    integer_of, json_as_i64, json_as_str, json_get, json_member, json_of, json_parse, json_parsed,
    Json,
};
use crate::message::SessionID;
use crate::session::Sessions;
use crate::sessions::get_session_by_session_id;
use crate::text::same_text;
use vstd::prelude::*;

verus! {

/// A touch.
pub enum Touch {
    /// The picture is scaled.
    Scale(i32),
    /// The picture is moved: what happens, and where.
    Pan(String, i32, i32),
}

/// What a touch is.
pub enum TouchView {
    Scale(i32),
    Pan(Seq<char>, i32, i32),
}

impl View for Touch {
    type V = TouchView;

    open spec fn view(&self) -> TouchView {
        match *self {
            Touch::Scale(scale) => TouchView::Scale(scale),
            Touch::Pan(event, x, y) => TouchView::Pan(event@, x, y),
        }
    }
}

/// A touch, and the keys that are held down.
pub struct Pointer {
    pub touch: Touch,
    pub alt: bool,
    pub ctrl: bool,
    pub shift: bool,
    pub command: bool,
}

/// What a touch with keys is.
pub struct PointerView {
    pub touch: TouchView,
    pub alt: bool,
    pub ctrl: bool,
    pub shift: bool,
    pub command: bool,
}

impl View for Pointer {
    type V = PointerView;

    open spec fn view(&self) -> PointerView {
        PointerView {
            touch: self.touch@,
            alt: self.alt,
            ctrl: self.ctrl,
            shift: self.shift,
            command: self.command,
        }
    }
}

/// The number of a JSON object's member, where it is an integer.
pub open spec fn integer_member(json: Json, key: Seq<char>) -> Option<i64> {
    match json_member(json, key) {
        Some(member) => integer_of(member),
        None => None,
    }
}

/// The scaling that a JSON object describes.
pub open spec fn touch_scale(v: Json) -> Option<TouchView> {
    match integer_member(v, "v"@) {
        Some(scale) => Some(TouchView::Scale(scale as i32)),
        None => None,
    }
}

/// The movement that a JSON object describes.
pub open spec fn touch_pan(v: Json, event: Seq<char>) -> Option<TouchView> {
    match json_member(v, "v"@) {
        Some(place) => match (integer_member(place, "x"@), integer_member(place, "y"@)) {
            (Some(x), Some(y)) => Some(TouchView::Pan(event, x as i32, y as i32)),
            _ => None,
        },
        None => None,
    }
}

/// The touch that a JSON object describes.
pub open spec fn touch_event(v: Json) -> Option<TouchView> {
    match json_member(v, "t"@) {
        Some(Json::Text(event)) => if event == "scale"@ {
            touch_scale(v)
        } else {
            touch_pan(v, event)
        },
        _ => None,
    }
}

/// The touch with keys that a JSON object describes. A key is held down where it is named at all.
pub open spec fn pointer_event(msg: Json) -> Option<PointerView> {
    match (json_member(msg, "k"@), json_member(msg, "v"@)) {
        (Some(k), Some(v)) => if k == Json::Text("touch"@) {
            match touch_event(v) {
                Some(touch) => Some(
                    PointerView {
                        touch,
                        alt: json_member(msg, "alt"@) is Some,
                        ctrl: json_member(msg, "ctrl"@) is Some,
                        shift: json_member(msg, "shift"@) is Some,
                        command: json_member(msg, "command"@) is Some,
                    },
                ),
                None => None,
            }
        } else {
            None
        },
        _ => None,
    }
}

/// What an optional touch is.
pub open spec fn opt_touch(touch: Option<Touch>) -> Option<TouchView> {
    match touch {
        Some(t) => Some(t@),
        None => None,
    }
}

/// What an optional touch with keys is.
pub open spec fn opt_pointer(pointer: Option<Pointer>) -> Option<PointerView> {
    match pointer {
        Some(p) => Some(p@),
        None => None,
    }
}

fn number_at(v: &serde_json::Value, key: &str) -> (n: Option<i64>)
    ensures
        n == integer_member(json_of(*v), key@),
{
    match json_get(v, key) {
        Some(member) => json_as_i64(member),
        None => None,
    }
}

/// The scaling that a JSON object describes.
pub fn session_send_touch_scale(v: &serde_json::Value) -> (touch: Option<Touch>)
    ensures
        opt_touch(touch) == touch_scale(json_of(*v)),
{
    match number_at(v, "v") {
        Some(scale) => Some(Touch::Scale(scale as i32)),
        None => None,
    }
}

/// The movement that a JSON object describes.
pub fn session_send_touch_pan(v: &serde_json::Value, pan_event: &str) -> (touch: Option<Touch>)
    ensures
        opt_touch(touch) == touch_pan(json_of(*v), pan_event@),
{
    match json_get(v, "v") {
        Some(place) => match (number_at(place, "x"), number_at(place, "y")) {
            (Some(x), Some(y)) => Some(Touch::Pan(pan_event.to_owned(), x as i32, y as i32)),
            _ => None,
        },
        None => None,
    }
}

/// The touch that a JSON object describes.
pub fn session_send_touch_event(v: &serde_json::Value) -> (touch: Option<Touch>)
    ensures
        opt_touch(touch) == touch_event(json_of(*v)),
{
    match json_get(v, "t") {
        Some(t) => match json_as_str(t) {
            Some(event) => if same_text(event, "scale") {
                session_send_touch_scale(v)
            } else {
                session_send_touch_pan(v, event)
            },
            None => None,
        },
        None => None,
    }
}

/// The touch with keys that a JSON value describes, if it does.
pub fn read_pointer(msg: &serde_json::Value) -> (pointer: Option<Pointer>)
    ensures
        opt_pointer(pointer) == pointer_event(json_of(*msg)),
{
    let alt = json_get(msg, "alt").is_some();
    let ctrl = json_get(msg, "ctrl").is_some();
    let shift = json_get(msg, "shift").is_some();
    let command = json_get(msg, "command").is_some();
    match (json_get(msg, "k"), json_get(msg, "v")) {
        (Some(k), Some(v)) => match json_as_str(k) {
            Some(kind) => if same_text(kind, "touch") {
                match session_send_touch_event(v) {
                    Some(touch) => Some(Pointer { touch, alt, ctrl, shift, command }),
                    None => None,
                }
            } else {
                None
            },
            None => None,
        },
        _ => None,
    }
}

/// What is sent to the peer of a session for a message of the user interface: a touch, where the
/// message is the JSON text of one and the session is there.
pub fn session_send_pointer(sessions: &Sessions, session_id: SessionID, msg: String) -> (pointer:
    Option<Pointer>)
    requires
        sessions.wf(),
    ensures
        opt_pointer(pointer) == match (sessions@.session(session_id), json_parsed(msg@)) {
            (Some(_), Some(json)) => pointer_event(json),
            _ => None,
        },
{
    if get_session_by_session_id(sessions, &session_id).is_none() {
        return None;
    }
    match json_parse(msg.as_str()) {
        Some(value) => read_pointer(&value),
        None => None,
    }
}

/// A message is a touch where its `k` says so and its `v` describes one; the keys that it names, with
/// any value, are held down. Everything else is no touch.
pub proof fn lemma_pointer_event(msg: Json)
    ensures
        match pointer_event(msg) {
            Some(pointer) => {
                &&& json_member(msg, "k"@) == Some(Json::Text("touch"@))
                &&& json_member(msg, "v"@) matches Some(v) && touch_event(v) == Some(pointer.touch)
                &&& pointer.alt <==> json_member(msg, "alt"@) is Some
                &&& pointer.ctrl <==> json_member(msg, "ctrl"@) is Some
                &&& pointer.shift <==> json_member(msg, "shift"@) is Some
                &&& pointer.command <==> json_member(msg, "command"@) is Some
            },
            None => json_member(msg, "k"@) == Some(Json::Text("touch"@)) ==> match json_member(
                msg,
                "v"@,
            ) {
                Some(v) => touch_event(v) is None,
                None => true,
            },
        },
{
}

/// A touch of type `scale` is a scaling by the integer under `v`; one of any other type is a movement
/// of that name to the integers under `x` and `y` of `v`. What lacks one of these, or has another kind
/// of value for it, is no touch.
pub proof fn lemma_touch_event(v: Json)
    ensures
        match touch_event(v) {
            Some(TouchView::Scale(scale)) => {
                &&& json_member(v, "t"@) == Some(Json::Text("scale"@))
                &&& json_member(v, "v"@) matches Some(Json::Integer(n)) && i64::MIN <= n
                    <= i64::MAX && scale == n as i64 as i32
            },
            Some(TouchView::Pan(event, x, y)) => {
                &&& event != "scale"@
                &&& json_member(v, "t"@) == Some(Json::Text(event))
                &&& json_member(v, "v"@) matches Some(place) && {
                    &&& json_member(place, "x"@) matches Some(Json::Integer(a)) && i64::MIN <= a
                        <= i64::MAX && x == a as i64 as i32
                    &&& json_member(place, "y"@) matches Some(Json::Integer(b)) && i64::MIN <= b
                        <= i64::MAX && y == b as i64 as i32
                }
            },
            None => match json_member(v, "t"@) {
                Some(Json::Text(event)) => if event == "scale"@ {
                    match json_member(v, "v"@) {
                        Some(Json::Integer(n)) => n < i64::MIN || n > i64::MAX,
                        _ => true,
                    }
                } else {
                    match json_member(v, "v"@) {
                        Some(place) => integer_member(place, "x"@) is None || integer_member(
                            place,
                            "y"@,
                        ) is None,
                        None => true,
                    }
                },
                _ => true,
            },
        },
{
}

/// A member counts as a number exactly where it is an integer that fits in 64 bits with a sign.
pub proof fn lemma_integer_member(json: Json, key: Seq<char>)
    ensures
        match json_member(json, key) {
            Some(Json::Integer(n)) => if i64::MIN <= n <= i64::MAX {
                integer_member(json, key) == Some(n as i64)
            } else {
                integer_member(json, key) is None
            },
            _ => integer_member(json, key) is None,
        },
{
}

}
