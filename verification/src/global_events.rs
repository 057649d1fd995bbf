//! The event streams that belong to no session, by the window that listens.

use crate::error::Error;
use crate::message::StreamId;
use crate::table::{
    distinct_keys, lemma_lookup_put, lemma_lookup_without, lookup, put, without, Table,
};
use crate::text::{split, split_commas, texts};
use vstd::prelude::*;

verus! {

/// The channel of the main window, and on a phone of every window.
pub const APP_TYPE_MAIN: &'static str = "main";

/// The streams, by the channel that they serve.
pub struct GlobalStreams {
    pub streams: Table<String, StreamId>,
}

/// What the streams are.
pub struct StreamsView {
    pub streams: Seq<(Seq<char>, StreamId)>,
}

impl View for GlobalStreams {
    type V = StreamsView;

    open spec fn view(&self) -> StreamsView {
        StreamsView { streams: self.streams@ }
    }
}

impl StreamsView {
    /// The channel that a new stream serves: the first one that its owner names, or, where that has
    /// a stream already, the whole list of names.
    pub open spec fn channel(self, app_type: Seq<char>) -> Seq<char> {
        let first = split(app_type, ',')[0];
        if lookup(self.streams, first) is None {
            first
        } else {
            app_type
        }
    }

    /// The streams with a new one.
    pub open spec fn started(self, stream: StreamId, app_type: Seq<char>) -> StreamsView {
        StreamsView { streams: put(self.streams, self.channel(app_type), stream) }
    }

    /// The streams without that of a channel.
    pub open spec fn stopped(self, app_type: Seq<char>) -> StreamsView {
        StreamsView { streams: without(self.streams, app_type) }
    }
}

impl GlobalStreams {
    /// No channel has two streams.
    pub open spec fn wf(&self) -> bool {
        distinct_keys(self@.streams)
    }

    pub fn new() -> (streams: GlobalStreams)
        ensures
            streams@.streams == Seq::<(Seq<char>, StreamId)>::empty(),
            streams.wf(),
    {
        GlobalStreams { streams: Table::new() }
    }
}

/// The stream that takes an event for a channel, if there is one.
pub fn push_global_event(streams: &GlobalStreams, channel: &str, event: String) -> (sent: Option<
    (StreamId, String),
>)
    requires
        streams.wf(),
    ensures
        match sent {
            Some(delivery) => lookup(streams@.streams, channel@) == Some(delivery.0)
                && delivery.1@ == event@,
            None => lookup(streams@.streams, channel@) is None,
        },
{
    match streams.streams.get(&channel.to_owned()) {
        Some(stream) => Some((*stream, event)),
        None => None,
    }
}

/// The channels that have a stream.
pub fn get_global_event_channels(streams: &GlobalStreams) -> (channels: Vec<String>)
    ensures
        texts(channels@) == streams@.streams.map_values(
            |entry: (Seq<char>, StreamId)| entry.0,
        ),
{
    let mut channels: Vec<String> = Vec::new();
    let ghost goal = streams@.streams.map_values(|entry: (Seq<char>, StreamId)| entry.0);
    assert(texts(channels@) =~= goal.take(0));
    let mut i: usize = 0;
    while i < streams.streams.len()
        invariant
            i <= streams@.streams.len(),
            goal == streams@.streams.map_values(|entry: (Seq<char>, StreamId)| entry.0),
            texts(channels@) == goal.take(i as int),
        decreases streams@.streams.len() - i,
    {
        let ghost before = channels@;
        channels.push(streams.streams.key_at(i).clone());
        assert(texts(channels@) =~= texts(before).push(goal[i as int]));
        assert(goal.take(i + 1) =~= goal.take(i as int).push(goal[i as int]));
        i += 1;
    }
    assert(goal.take(goal.len() as int) =~= goal);
    channels
}

/// Starts a stream for the channels that `app_type` names, separated by commas. Hands back the
/// stream that it replaces, where there is one.
pub fn start_global_event_stream(streams: &mut GlobalStreams, s: StreamId, app_type: String) -> (done:
    Result<Option<StreamId>, Error>)
    requires
        old(streams).wf(),
    ensures
        done == Ok::<Option<StreamId>, Error>(
            lookup(old(streams)@.streams, old(streams)@.channel(app_type@)),
        ),
        final(streams)@ == old(streams)@.started(s, app_type@),
        final(streams).wf(),
{
    let pieces = split_commas(app_type.as_str());
    let first = pieces[0].clone();
    assert(first@ == texts(pieces@)[0]);
    let replaced = if !streams.streams.contains_key(&first) {
        streams.streams.insert(first, s)
    } else {
        streams.streams.insert(app_type, s)
    };
    Ok(replaced)
}

/// Stops the stream of a channel.
pub fn stop_global_event_stream(streams: &mut GlobalStreams, app_type: String)
    requires
        old(streams).wf(),
    ensures
        final(streams)@ == old(streams)@.stopped(app_type@),
        final(streams).wf(),
{
    streams.streams.remove(&app_type);
}

/// A stream that was started takes the events of its channel, and leaves the other channels alone.
pub proof fn lemma_started(streams: StreamsView, stream: StreamId, app_type: Seq<char>, other: Seq<char>)
    ensures
        lookup(streams.started(stream, app_type).streams, streams.channel(app_type)) == Some(
            stream,
        ),
        other != streams.channel(app_type) ==> lookup(
            streams.started(stream, app_type).streams,
            other,
        ) == lookup(streams.streams, other),
{
    let channel = streams.channel(app_type);
    lemma_lookup_put(streams.streams, channel, stream, channel);
    lemma_lookup_put(streams.streams, channel, stream, other);
}

/// A channel whose stream was stopped has none; the other channels keep theirs.
pub proof fn lemma_stopped(streams: StreamsView, app_type: Seq<char>, other: Seq<char>)
    ensures
        lookup(streams.stopped(app_type).streams, app_type) is None,
        other != app_type ==> lookup(streams.stopped(app_type).streams, other) == lookup(
            streams.streams,
            other,
        ),
{
    lemma_lookup_without(streams.streams, app_type, app_type);
    lemma_lookup_without(streams.streams, app_type, other);
}

/// A stream serves the text before the first comma of what its owner names, unless that has a stream
/// already: then it serves the whole text.
pub proof fn lemma_channel(streams: StreamsView, first: Seq<char>, rest: Seq<char>)
    requires
        !first.contains(','),
    ensures
        lookup(streams.streams, first) is None ==> streams.channel(first) == first,
        lookup(streams.streams, first) is None ==> streams.channel(first.push(',') + rest) == first,
        lookup(streams.streams, first) is Some ==> streams.channel(first.push(',') + rest)
            == first.push(',') + rest,
        lookup(streams.streams, first) is Some ==> streams.channel(first) == first,
{
    lemma_split_first(first, rest);
    lemma_split_plain(first);
}

proof fn lemma_split_plain(first: Seq<char>)
    requires
        !first.contains(','),
    ensures
        split(first, ',') == seq![first],
    decreases first.len(),
{
    if first.len() > 0 {
        let shorter = first.drop_last();
        assert(first[first.len() - 1] == first.last());
        assert(!shorter.contains(',')) by {
            if shorter.contains(',') {
                let i = choose|i: int| 0 <= i < shorter.len() && shorter[i] == ',';
                assert(first[i] == ',');
            }
        }
        lemma_split_plain(shorter);
        assert(shorter.push(first.last()) =~= first);
        assert(split(first, ',') =~= seq![first]);
    } else {
        assert(first =~= Seq::empty());
        assert(split(first, ',') =~= seq![first]);
    }
}

proof fn lemma_split_first(first: Seq<char>, rest: Seq<char>)
    requires
        !first.contains(','),
    ensures
        split(first.push(',') + rest, ',').len() >= 2,
        split(first.push(',') + rest, ',')[0] == first,
    decreases rest.len(),
{
    let s = first.push(',') + rest;
    lemma_split_plain(first);
    if rest.len() == 0 {
        assert(s.drop_last() =~= first);
        assert(split(s, ',') == seq![first].push(Seq::empty()));
    } else {
        lemma_split_first(first, rest.drop_last());
        assert(s.drop_last() =~= first.push(',') + rest.drop_last());
    }
}

}
