//! Asking the rendezvous server which peers are online.

use crate::connection_manager::sent_text;
use crate::error::Error;
use crate::global_events::{push_global_event, GlobalStreams, APP_TYPE_MAIN};
use crate::json::{json_text, lemma_merged_distinct, object_of, Fields, Json, JsonFields};
use crate::message::StreamId;
use crate::table::{distinct_keys, lemma_lookup_at, lookup};
use crate::text::{join, join_commas, texts};
use vstd::prelude::*;

verus! {

/// How the request for the states of peers was handed to the task that sends it.
pub enum QueryHandover {
    /// The task is not running.
    NotRunning,
    /// The task has it.
    Accepted,
    /// Another request still waits for the task, so this one is dropped.
    Full,
    /// The task is gone, and how that is said.
    Refused(String),
}

/// Asks which peers are online: an error where the task that asks is not running or is gone. A
/// request that comes while another one waits is ignored.
pub fn query_onlines(handover: QueryHandover) -> (done: Result<(), Error>)
    ensures
        match (handover, done) {
            (QueryHandover::Accepted, Ok(_)) => true,
            (QueryHandover::Full, Ok(_)) => true,
            (QueryHandover::NotRunning, Err(e)) => e@ == "No tx_query_onlines"@,
            (QueryHandover::Refused(why), Err(e)) => e@ == why@,
            _ => false,
        },
{
    match handover {
        QueryHandover::NotRunning => Err(Error::new("No tx_query_onlines")),
        QueryHandover::Accepted | QueryHandover::Full => Ok(()),
        QueryHandover::Refused(message) => Err(Error { message }),
    }
}

/// The text that the main window gets of the states of peers.
pub open spec fn states_text(onlines: Seq<Seq<char>>, offlines: Seq<Seq<char>>) -> Seq<char> {
    json_text(
        object_of(
            JsonFields::empty()
                .push(("name"@, Json::Text("callback_query_onlines"@)))
                .push(("onlines"@, Json::Text(join(onlines, ','))))
                .push(("offlines"@, Json::Text(join(offlines, ',')))),
        ),
    )
}

/// The server answered: the main window is told which peers are online and which are not.
pub fn handle_query_onlines(
    streams: &GlobalStreams,
    onlines: Vec<String>,
    offlines: Vec<String>,
) -> (sent: Option<(StreamId, String)>)
    requires
        streams.wf(),
    ensures
        sent_text(sent) == match lookup(streams@.streams, "main"@) {
            Some(stream) => Some((stream, states_text(texts(onlines@), texts(offlines@)))),
            None => None,
        },
{
    let text = Fields::new()
        .text("name", "callback_query_onlines")
        .text("onlines", join_commas(&onlines).as_str())
        .text("offlines", join_commas(&offlines).as_str())
        .print();
    push_global_event(streams, APP_TYPE_MAIN, text)
}

/// The main window gets both lists as texts of their names with commas between them, under the name
/// of the answer.
pub proof fn lemma_states_text(onlines: Seq<Seq<char>>, offlines: Seq<Seq<char>>)
    ensures
        exists|members: JsonFields|
            {
                &&& states_text(onlines, offlines) == #[trigger] json_text(Json::Object(members))
                &&& members.len() == 3
                &&& lookup(members, "name"@) == Some(Json::Text("callback_query_onlines"@))
                &&& lookup(members, "onlines"@) == Some(Json::Text(join(onlines, ',')))
                &&& lookup(members, "offlines"@) == Some(Json::Text(join(offlines, ',')))
            },
{
    reveal_strlit("name");
    reveal_strlit("onlines");
    reveal_strlit("offlines");
    assert("name"@.len() == 4 && "onlines"@.len() == 7 && "offlines"@.len() == 8);
    let fields = JsonFields::empty()
        .push(("name"@, Json::Text("callback_query_onlines"@)))
        .push(("onlines"@, Json::Text(join(onlines, ','))))
        .push(("offlines"@, Json::Text(join(offlines, ','))));
    assert(distinct_keys(fields));
    lemma_merged_distinct(fields);
    lemma_lookup_at(fields, 0);
    lemma_lookup_at(fields, 1);
    lemma_lookup_at(fields, 2);
    assert(states_text(onlines, offlines) == json_text(Json::Object(fields)));
}

}
