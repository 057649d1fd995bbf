//! What the window of the connection manager is told of the peers that control this computer.

use crate::global_events::{push_global_event, GlobalStreams};
use crate::handler::event_text;
use crate::json::{json_text, lemma_merged_lookup, merged, Fields, Json, JsonFields};
use crate::message::{Platform, StreamId};
use crate::table::lookup;
use crate::text::{bool_text, decimal};
use vstd::prelude::*;

verus! {

/// The channel of the connection manager: it has a window of its own, but on a phone.
pub open spec fn cm_channel(platform: Platform) -> Seq<char> {
    if platform.mobile() {
        "main"@
    } else {
        "cm"@
    }
}

/// The channel of the connection manager.
pub fn app_type_cm(platform: Platform) -> (channel: &'static str)
    ensures
        channel@ == cm_channel(platform),
{
    if platform.is_mobile() {
        "main"
    } else {
        "cm"
    }
}

/// The stream and the text of an event for the connection manager, where it listens.
pub open spec fn cm_event(
    platform: Platform,
    streams: Seq<(Seq<char>, StreamId)>,
    name: Seq<char>,
    fields: JsonFields,
) -> Option<(StreamId, Seq<char>)> {
    match lookup(streams, cm_channel(platform)) {
        Some(stream) => Some((stream, event_text(name, fields))),
        None => None,
    }
}

/// What is sent where.
pub open spec fn sent_text(sent: Option<(StreamId, String)>) -> Option<(StreamId, Seq<char>)> {
    match sent {
        Some(delivery) => Some((delivery.0, delivery.1@)),
        None => None,
    }
}

/// What a change of a peer's connection leads to.
pub struct ClientUpdate {
    /// Whether the service of the phone is told of it under the name of the event, so that it shows
    /// a notification without a window.
    pub tell_service: bool,
    /// The event for the window.
    pub sent: Option<(StreamId, String)>,
}

/// Tells the window of the connection manager.
pub struct FlutterHandler {}

impl FlutterHandler {
    /// The stream that takes a named event, and the event's JSON text; nothing where no window
    /// listens.
    pub fn push_event(
        &self,
        platform: Platform,
        streams: &GlobalStreams,
        name: &str,
        event: Fields,
    ) -> (sent: Option<(StreamId, String)>)
        requires
            streams.wf(),
        ensures
            sent_text(sent) == cm_event(platform, streams@.streams, name@, event@),
    {
        push_global_event(streams, app_type_cm(platform), event.text("name", name).print())
    }

    /// A peer connected. Its description is a JSON text.
    pub fn add_connection(
        &self,
        platform: Platform,
        streams: &GlobalStreams,
        client_json: &str,
    ) -> (update: ClientUpdate)
        requires
            streams.wf(),
        ensures
            update.tell_service == (platform == Platform::Android),
            sent_text(update.sent) == cm_event(
                platform,
                streams@.streams,
                "add_connection"@,
                JsonFields::empty().push(("client"@, Json::Text(client_json@))),
            ),
    {
        let tell_service = match platform {
            Platform::Android => true,
            _ => false,
        };
        let sent = self.push_event(
            platform,
            streams,
            "add_connection",
            Fields::new().text("client", client_json),
        );
        ClientUpdate { tell_service, sent }
    }

    /// A peer is gone; `close` says whether its entry goes too.
    pub fn remove_connection(
        &self,
        platform: Platform,
        streams: &GlobalStreams,
        id: i32,
        close: bool,
    ) -> (sent: Option<(StreamId, String)>)
        requires
            streams.wf(),
        ensures
            sent_text(sent) == cm_event(
                platform,
                streams@.streams,
                "on_client_remove"@,
                JsonFields::empty()
                    .push(("id"@, Json::Text(decimal(id as int))))
                    .push(("close"@, Json::Text(bool_text(close)))),
            ),
    {
        self.push_event(
            platform,
            streams,
            "on_client_remove",
            Fields::new()
                .decimal("id", id as i64)
                .bool_text("close", close),
        )
    }

    /// A peer wrote.
    pub fn new_message(
        &self,
        platform: Platform,
        streams: &GlobalStreams,
        id: i32,
        text: String,
    ) -> (sent: Option<(StreamId, String)>)
        requires
            streams.wf(),
        ensures
            sent_text(sent) == cm_event(
                platform,
                streams@.streams,
                "chat_server_mode"@,
                JsonFields::empty()
                    .push(("id"@, Json::Text(decimal(id as int))))
                    .push(("text"@, Json::Text(text@))),
            ),
    {
        self.push_event(
            platform,
            streams,
            "chat_server_mode",
            Fields::new()
                .decimal("id", id as i64)
                .text("text", text.as_str()),
        )
    }

    /// The colours changed.
    pub fn change_theme(
        &self,
        platform: Platform,
        streams: &GlobalStreams,
        dark: String,
    ) -> (sent: Option<(StreamId, String)>)
        requires
            streams.wf(),
        ensures
            sent_text(sent) == cm_event(
                platform,
                streams@.streams,
                "theme"@,
                JsonFields::empty()
                    .push(("dark"@, Json::Text(dark@))),
            ),
    {
        self.push_event(
            platform,
            streams,
            "theme",
            Fields::new()
                .text("dark", dark.as_str()),
        )
    }

    /// The language changed.
    pub fn change_language(
        &self,
        platform: Platform,
        streams: &GlobalStreams,
    ) -> (sent: Option<(StreamId, String)>)
        requires
            streams.wf(),
        ensures
            sent_text(sent) == cm_event(
                platform,
                streams@.streams,
                "language"@,
                JsonFields::empty(),
            ),
    {
        self.push_event(
            platform,
            streams,
            "language",
            Fields::new(),
        )
    }

    /// Elevation is offered, or no longer.
    pub fn show_elevation(
        &self,
        platform: Platform,
        streams: &GlobalStreams,
        show: bool,
    ) -> (sent: Option<(StreamId, String)>)
        requires
            streams.wf(),
        ensures
            sent_text(sent) == cm_event(
                platform,
                streams@.streams,
                "show_elevation"@,
                JsonFields::empty()
                    .push(("show"@, Json::Text(bool_text(show)))),
            ),
    {
        self.push_event(
            platform,
            streams,
            "show_elevation",
            Fields::new()
                .bool_text("show", show),
        )
    }

    /// A peer's voice call changed. Its description is a JSON text.
    pub fn update_voice_call_state(
        &self,
        platform: Platform,
        streams: &GlobalStreams,
        client_json: &str,
    ) -> (update: ClientUpdate)
        requires
            streams.wf(),
        ensures
            update.tell_service == (platform == Platform::Android),
            sent_text(update.sent) == cm_event(
                platform,
                streams@.streams,
                "update_voice_call_state"@,
                JsonFields::empty().push(("client"@, Json::Text(client_json@))),
            ),
    {
        let tell_service = match platform {
            Platform::Android => true,
            _ => false,
        };
        let sent = self.push_event(
            platform,
            streams,
            "update_voice_call_state",
            Fields::new().text("client", client_json),
        );
        ClientUpdate { tell_service, sent }
    }

    /// A peer transferred files.
    pub fn file_transfer_log(
        &self,
        platform: Platform,
        streams: &GlobalStreams,
        action: &str,
        log: &str,
    ) -> (sent: Option<(StreamId, String)>)
        requires
            streams.wf(),
        ensures
            sent_text(sent) == cm_event(
                platform,
                streams@.streams,
                "cm_file_transfer_log"@,
                JsonFields::empty().push((action@, Json::Text(log@))),
            ),
    {
        self.push_event(
            platform,
            streams,
            "cm_file_transfer_log",
            Fields::new().text(action, log),
        )
    }
}

/// An event goes to the stream of the connection manager's own window, on a phone to that of the main
/// window, and nowhere where that has no stream. Its text is that of the named event.
pub proof fn lemma_cm_event(
    platform: Platform,
    streams: Seq<(Seq<char>, StreamId)>,
    name: Seq<char>,
    fields: JsonFields,
)
    ensures
        ({
            let window = match platform {
                Platform::Android | Platform::Ios => "main"@,
                _ => "cm"@,
            };
            let sent = cm_event(platform, streams, name, fields);
            &&& sent is Some <==> lookup(streams, window) is Some
            &&& sent matches Some(delivery) ==> Some(delivery.0) == lookup(streams, window)
                && delivery.1 == event_text(name, fields)
        }),
{
}

/// The text of a named event is that of a JSON object with the last value of each field, and the name
/// under `name`.
pub proof fn lemma_event_text(name: Seq<char>, fields: JsonFields)
    ensures
        exists|members: JsonFields|
            {
                &&& event_text(name, fields) == #[trigger] json_text(Json::Object(members))
                &&& forall|key: Seq<char>| #[trigger]
                    lookup(members, key) == if key == "name"@ {
                        Some(Json::Text(name))
                    } else {
                        lookup(fields, key)
                    }
            },
{
    let all = fields.push(("name"@, Json::Text(name)));
    let members = merged(all);
    assert(all.drop_last() =~= fields);
    assert forall|key: Seq<char>| #[trigger] lookup(members, key) == if key == "name"@ {
        Some(Json::Text(name))
    } else {
        lookup(fields, key)
    } by {
        lemma_merged_lookup(all, key);
    }
    assert(event_text(name, fields) == json_text(Json::Object(members)));
}

/// What is sent is the text, to the stream.
pub proof fn lemma_sent_text(stream: StreamId, text: String)
    ensures
        sent_text(Some((stream, text))) == Some((stream, text@)),
        sent_text(None) is None,
{
}

}
