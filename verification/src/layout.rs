//! The JSON texts that lists of plain values are sent as.

use crate::handler::FlutterHandler;
use crate::json::{
    json_i64, json_member, json_of, json_text, json_u64, json_values, lemma_merged_distinct,
    lemma_merged_lookup, list_text, object_of, Fields, Json, JsonFields,
};
use crate::message::{DisplayInfo, Resolution, WindowsSession};
use crate::table::{distinct_keys, lemma_lookup_push, lookup};
use crate::text::decimal;
use vstd::prelude::*;

verus! {

/// The JSON object of a size.
pub open spec fn resolution_json(resolution: Resolution) -> Json {
    object_of(
        JsonFields::empty()
            .push(("width"@, Json::Integer(resolution.width as int)))
            .push(("height"@, Json::Integer(resolution.height as int))),
    )
}

/// The JSON list of sizes.
pub open spec fn resolutions_text(resolutions: Seq<Resolution>) -> Seq<char> {
    json_text(
        Json::List(resolutions.map_values(|resolution: Resolution| resolution_json(resolution))),
    )
}

/// The sizes as a JSON list of objects.
pub fn serialize_resolutions(resolutions: &Vec<Resolution>) -> (text: String)
    ensures
        text@ == resolutions_text(resolutions@),
{
    let mut values: Vec<serde_json::Value> = Vec::new();
    let ghost goal = resolutions@.map_values(
        |resolution: Resolution| resolution_json(resolution),
    );
    assert(json_values(values@) =~= goal.take(0));
    let mut i: usize = 0;
    while i < resolutions.len()
        invariant
            i <= resolutions.len(),
            goal == resolutions@.map_values(
                |resolution: Resolution| resolution_json(resolution),
            ),
            json_values(values@) == goal.take(i as int),
        decreases resolutions.len() - i,
    {
        let resolution = resolutions[i];
        let value = Fields::new()
            .integer("width", resolution.width as i64)
            .integer("height", resolution.height as i64)
            .object();
        let ghost before = values@;
        values.push(value);
        assert(json_values(values@) =~= json_values(before).push(json_of(value)));
        assert(goal.take(i + 1) =~= goal.take(i as int).push(goal[i as int]));
        i += 1;
    }
    assert(goal.take(goal.len() as int) =~= goal);
    list_text(values)
}

/// A truth value as a number.
pub open spec fn flag(b: bool) -> int {
    if b {
        1
    } else {
        0
    }
}

/// The fields of a display: where it is, how large it is, whether the cursor is part of its
/// picture, and, where they are known, its own resolution and its width without scaling.
pub open spec fn display_fields(d: DisplayInfo) -> JsonFields {
    let place = JsonFields::empty()
        .push(("x"@, Json::Integer(d.x as int)))
        .push(("y"@, Json::Integer(d.y as int)))
        .push(("width"@, Json::Integer(d.width as int)))
        .push(("height"@, Json::Integer(d.height as int)))
        .push(("cursor_embedded"@, Json::Integer(flag(d.cursor_embedded))));
    let sized = match d.original_resolution {
        Some(original) => place.push(
            ("original_width"@, Json::Integer(original.width as int)),
        ).push(("original_height"@, Json::Integer(original.height as int))),
        None => place,
    };
    match d.scaled_width {
        Some(width) => sized.push(("scaled_width"@, Json::Integer(width as int))),
        None => sized,
    }
}

/// The JSON list of displays.
pub open spec fn displays_text(displays: Seq<DisplayInfo>) -> Seq<char> {
    json_text(Json::List(displays.map_values(|d: DisplayInfo| object_of(display_fields(d)))))
}

fn display_value(d: &DisplayInfo) -> (value: serde_json::Value)
    ensures
        json_of(value) == object_of(display_fields(*d)),
{
    let place = Fields::new()
        .integer("x", d.x as i64)
        .integer("y", d.y as i64)
        .integer("width", d.width as i64)
        .integer("height", d.height as i64)
        .integer("cursor_embedded", if d.cursor_embedded { 1 } else { 0 });
    let sized = match d.original_resolution {
        Some(original) => place
            .integer("original_width", original.width as i64)
            .integer("original_height", original.height as i64),
        None => place,
    };
    match d.scaled_width {
        Some(width) => sized.integer("scaled_width", width as i64).object(),
        None => sized.object(),
    }
}

impl FlutterHandler {
    /// The displays as a JSON list of objects.
    pub fn make_displays_msg(displays: &Vec<DisplayInfo>) -> (text: String)
        ensures
            text@ == displays_text(displays@),
    {
        let mut values: Vec<serde_json::Value> = Vec::new();
        let ghost goal = displays@.map_values(|d: DisplayInfo| object_of(display_fields(d)));
        assert(json_values(values@) =~= goal.take(0));
        let mut i: usize = 0;
        while i < displays.len()
            invariant
                i <= displays.len(),
                goal == displays@.map_values(|d: DisplayInfo| object_of(display_fields(d))),
                json_values(values@) == goal.take(i as int),
            decreases displays.len() - i,
        {
            let value = display_value(&displays[i]);
            let ghost before = values@;
            values.push(value);
            assert(json_values(values@) =~= json_values(before).push(json_of(value)));
            assert(goal.take(i + 1) =~= goal.take(i as int).push(goal[i as int]));
            i += 1;
        }
        assert(goal.take(goal.len() as int) =~= goal);
        list_text(values)
    }
}

/// The JSON object of a session of the peer's system.
pub open spec fn windows_session_json(session: WindowsSession) -> Json {
    object_of(
        JsonFields::empty()
            .push(("sid"@, Json::Text(decimal(session.sid as int))))
            .push(("name"@, Json::Text(session.name@))),
    )
}

/// The JSON list of the sessions of the peer's system.
pub open spec fn windows_sessions_text(sessions: Seq<WindowsSession>) -> Seq<char> {
    json_text(
        Json::List(sessions.map_values(|session: WindowsSession| windows_session_json(session))),
    )
}

/// The sessions of the peer's system as a JSON list of objects.
pub(crate) fn windows_sessions_msg(sessions: &Vec<WindowsSession>) -> (text: String)
    ensures
        text@ == windows_sessions_text(sessions@),
{
    let mut values: Vec<serde_json::Value> = Vec::new();
    let ghost goal = sessions@.map_values(
        |session: WindowsSession| windows_session_json(session),
    );
    assert(json_values(values@) =~= goal.take(0));
    let mut i: usize = 0;
    while i < sessions.len()
        invariant
            i <= sessions.len(),
            goal == sessions@.map_values(
                |session: WindowsSession| windows_session_json(session),
            ),
            json_values(values@) == goal.take(i as int),
        decreases sessions.len() - i,
    {
        let value = Fields::new()
            .decimal("sid", sessions[i].sid as i64)
            .text("name", sessions[i].name.as_str())
            .object();
        let ghost before = values@;
        values.push(value);
        assert(json_values(values@) =~= json_values(before).push(json_of(value)));
        assert(goal.take(i + 1) =~= goal.take(i as int).push(goal[i as int]));
        i += 1;
    }
    assert(goal.take(goal.len() as int) =~= goal);
    list_text(values)
}

/// The JSON list of bytes.
pub open spec fn bytes_text(bytes: Seq<u8>) -> Seq<char> {
    json_text(Json::List(bytes.map_values(|byte: u8| Json::Integer(byte as int))))
}

/// The bytes as a JSON list of numbers.
pub(crate) fn bytes_msg(bytes: &Vec<u8>) -> (text: String)
    ensures
        text@ == bytes_text(bytes@),
{
    let mut values: Vec<serde_json::Value> = Vec::new();
    let ghost goal = bytes@.map_values(|byte: u8| Json::Integer(byte as int));
    assert(json_values(values@) =~= goal.take(0));
    let mut i: usize = 0;
    while i < bytes.len()
        invariant
            i <= bytes.len(),
            goal == bytes@.map_values(|byte: u8| Json::Integer(byte as int)),
            json_values(values@) == goal.take(i as int),
        decreases bytes.len() - i,
    {
        let value = json_u64(bytes[i] as u64);
        let ghost before = values@;
        values.push(value);
        assert(json_values(values@) =~= json_values(before).push(json_of(value)));
        assert(goal.take(i + 1) =~= goal.take(i as int).push(goal[i as int]));
        i += 1;
    }
    assert(goal.take(goal.len() as int) =~= goal);
    list_text(values)
}

/// The JSON values of a list of numbers.
pub open spec fn numbers_json(numbers: Seq<i32>) -> Seq<Json> {
    numbers.map_values(|n: i32| Json::Integer(n as int))
}

/// The numbers as JSON values.
pub(crate) fn number_values(numbers: &Vec<i32>) -> (values: Vec<serde_json::Value>)
    ensures
        json_values(values@) == numbers_json(numbers@),
{
    let mut values: Vec<serde_json::Value> = Vec::new();
    let ghost goal = numbers_json(numbers@);
    assert(json_values(values@) =~= goal.take(0));
    let mut i: usize = 0;
    while i < numbers.len()
        invariant
            i <= numbers.len(),
            goal == numbers_json(numbers@),
            json_values(values@) == goal.take(i as int),
        decreases numbers.len() - i,
    {
        let value = json_i64(numbers[i] as i64);
        let ghost before = values@;
        values.push(value);
        assert(json_values(values@) =~= json_values(before).push(json_of(value)));
        assert(goal.take(i + 1) =~= goal.take(i as int).push(goal[i as int]));
        i += 1;
    }
    assert(goal.take(goal.len() as int) =~= goal);
    values
}

/// The fields of the frames per second of the displays: each display's number is a key.
pub open spec fn fps_fields(fps: Seq<(usize, i32)>) -> JsonFields {
    fps.map_values(|entry: (usize, i32)| (decimal(entry.0 as int), Json::Integer(entry.1 as int)))
}

/// The frames per second of the displays as a JSON object.
pub(crate) fn fps_msg(fps: &Vec<(usize, i32)>) -> (text: String)
    ensures
        text@ == json_text(object_of(fps_fields(fps@))),
{
    let mut fields = Fields::new();
    let ghost goal = fps_fields(fps@);
    assert(fields@ =~= goal.take(0));
    let mut i: usize = 0;
    while i < fps.len()
        invariant
            i <= fps.len(),
            goal == fps_fields(fps@),
            fields@ == goal.take(i as int),
        decreases fps.len() - i,
    {
        let key = crate::text::decimal_u64(fps[i].0 as u64);
        fields = fields.integer(key.as_str(), fps[i].1 as i64);
        assert(goal.take(i + 1) =~= goal.take(i as int).push(goal[i as int]));
        i += 1;
    }
    assert(goal.take(goal.len() as int) =~= goal);
    fields.print()
}

/// A display is sent with where it is, how large it is and whether the cursor is part of its picture,
/// with its own resolution and its width without scaling exactly where they are known, and with
/// nothing else.
pub proof fn lemma_display_fields(d: DisplayInfo, key: Seq<char>)
    ensures
        ({
            let sent = display_fields(d);
            &&& lookup(sent, "x"@) == Some(Json::Integer(d.x as int))
            &&& lookup(sent, "y"@) == Some(Json::Integer(d.y as int))
            &&& lookup(sent, "width"@) == Some(Json::Integer(d.width as int))
            &&& lookup(sent, "height"@) == Some(Json::Integer(d.height as int))
            &&& d.cursor_embedded ==> lookup(sent, "cursor_embedded"@) == Some(Json::Integer(1))
            &&& !d.cursor_embedded ==> lookup(sent, "cursor_embedded"@) == Some(Json::Integer(0))
            &&& match d.original_resolution {
                Some(original) => {
                    &&& lookup(sent, "original_width"@) == Some(
                        Json::Integer(original.width as int),
                    )
                    &&& lookup(sent, "original_height"@) == Some(
                        Json::Integer(original.height as int),
                    )
                },
                None => lookup(sent, "original_width"@) is None && lookup(
                    sent,
                    "original_height"@,
                ) is None,
            }
            &&& match d.scaled_width {
                Some(width) => lookup(sent, "scaled_width"@) == Some(Json::Integer(width as int)),
                None => lookup(sent, "scaled_width"@) is None,
            }
            &&& key != "x"@ && key != "y"@ && key != "width"@ && key != "height"@ && key
                != "cursor_embedded"@ && key != "original_width"@ && key != "original_height"@ && key
                != "scaled_width"@ ==> lookup(sent, key) is None
        }),
{
    broadcast use lemma_lookup_push;

    reveal_strlit("x");
    reveal_strlit("y");
    reveal_strlit("width");
    reveal_strlit("height");
    reveal_strlit("cursor_embedded");
    reveal_strlit("original_width");
    reveal_strlit("original_height");
    reveal_strlit("scaled_width");
    assert("x"@.len() == 1 && "y"@.len() == 1 && "width"@.len() == 5 && "height"@.len() == 6 && "cursor_embedded"@.len() == 15 && "original_width"@.len() == 14 && "original_height"@.len() == 15 && "scaled_width"@.len() == 12);
    assert("y"@[0] == 'y' && "x"@[0] == 'x');
    assert("original_height"@[0] == 'o' && "cursor_embedded"@[0] == 'c');
}

/// Displays are sent as a list of objects, one for each display in its place, with the fields of that
/// display.
pub proof fn lemma_displays_text(displays: Seq<DisplayInfo>, i: int, key: Seq<char>)
    requires
        0 <= i < displays.len(),
    ensures
        exists|list: Seq<Json>|
            {
                &&& displays_text(displays) == #[trigger] json_text(Json::List(list))
                &&& list.len() == displays.len()
                &&& json_member(list[i], key) == lookup(display_fields(displays[i]), key)
            },
{
    let list = displays.map_values(|d: DisplayInfo| object_of(display_fields(d)));
    lemma_merged_lookup(display_fields(displays[i]), key);
    assert(displays_text(displays) == json_text(Json::List(list)));
}

/// Sizes are sent as a list of objects, one for each size in its place, with its width and height.
pub proof fn lemma_resolutions_text(resolutions: Seq<Resolution>, i: int)
    requires
        0 <= i < resolutions.len(),
    ensures
        exists|list: Seq<Json>|
            {
                &&& resolutions_text(resolutions) == #[trigger] json_text(Json::List(list))
                &&& list.len() == resolutions.len()
                &&& json_member(list[i], "width"@) == Some(
                    Json::Integer(resolutions[i].width as int),
                )
                &&& json_member(list[i], "height"@) == Some(
                    Json::Integer(resolutions[i].height as int),
                )
                &&& list[i]->Object_0.len() == 2
            },
{
    broadcast use lemma_lookup_push;

    reveal_strlit("width");
    reveal_strlit("height");
    assert("width"@.len() == 5 && "height"@.len() == 6);
    let fields = JsonFields::empty()
        .push(("width"@, Json::Integer(resolutions[i].width as int)))
        .push(("height"@, Json::Integer(resolutions[i].height as int)));
    assert(distinct_keys(fields));
    lemma_merged_distinct(fields);
    let list = resolutions.map_values(|resolution: Resolution| resolution_json(resolution));
    assert(list[i] == Json::Object(fields));
    assert(resolutions_text(resolutions) == json_text(Json::List(list)));
}

/// The sessions of the peer's system are sent as a list of objects, one for each in its place, with
/// the decimal text of its number and its name.
pub proof fn lemma_windows_sessions_text(sessions: Seq<WindowsSession>, i: int)
    requires
        0 <= i < sessions.len(),
    ensures
        exists|list: Seq<Json>|
            {
                &&& windows_sessions_text(sessions) == #[trigger] json_text(Json::List(list))
                &&& list.len() == sessions.len()
                &&& json_member(list[i], "sid"@) == Some(
                    Json::Text(decimal(sessions[i].sid as int)),
                )
                &&& json_member(list[i], "name"@) == Some(Json::Text(sessions[i].name@))
                &&& list[i]->Object_0.len() == 2
            },
{
    broadcast use lemma_lookup_push;

    reveal_strlit("sid");
    reveal_strlit("name");
    assert("sid"@.len() == 3 && "name"@.len() == 4);
    let fields = JsonFields::empty()
        .push(("sid"@, Json::Text(decimal(sessions[i].sid as int))))
        .push(("name"@, Json::Text(sessions[i].name@)));
    assert(distinct_keys(fields));
    lemma_merged_distinct(fields);
    let list = sessions.map_values(|session: WindowsSession| windows_session_json(session));
    assert(list[i] == Json::Object(fields));
    assert(windows_sessions_text(sessions) == json_text(Json::List(list)));
}

/// Bytes, and numbers, are sent as a list of integers, one for each in its place.
pub proof fn lemma_integer_lists(bytes: Seq<u8>, numbers: Seq<i32>, i: int)
    ensures
        exists|list: Seq<Json>|
            {
                &&& bytes_text(bytes) == #[trigger] json_text(Json::List(list))
                &&& list.len() == bytes.len()
                &&& 0 <= i < bytes.len() ==> list[i] == Json::Integer(bytes[i] as int)
            },
        numbers_json(numbers).len() == numbers.len(),
        0 <= i < numbers.len() ==> numbers_json(numbers)[i] == Json::Integer(numbers[i] as int),
{
    let list = bytes.map_values(|byte: u8| Json::Integer(byte as int));
    assert(bytes_text(bytes) == json_text(Json::List(list)));
}

/// The frames per second are sent under the decimal texts of the displays' numbers, in their order.
pub proof fn lemma_fps_fields(fps: Seq<(usize, i32)>, i: int)
    requires
        0 <= i < fps.len(),
    ensures
        fps_fields(fps).len() == fps.len(),
        fps_fields(fps)[i].0 == decimal(fps[i].0 as int),
        fps_fields(fps)[i].1 == Json::Integer(fps[i].1 as int),
{
}

}
