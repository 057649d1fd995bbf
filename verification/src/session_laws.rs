//! What holds of the registry of connections as a whole.

use crate::handler::{FlutterHandlerView, RgbaView, SessionHandlerView};
use crate::message::{ConnType, PeerInfoView, SessionID, StreamId};
use crate::session::{
    holder, lemma_holder, lemma_holder_is, lemma_with_handler, lemma_with_session,
    FlutterSessionView, PeerKeyView, SessionsView,
};
use crate::renderer::{DisplaySessionInfo, VideoRendererView};
use crate::session_api::{existing_conn_type, new_session, wanted_conn_type};
use crate::sessions::{
    display_indexes, display_numbers, displays_of_others, distinct_values, joining, peer_of,
    refreshed, remaining_displays, rendered_displays, requested, with_value, ActionView,
    SessionAction,
};
use crate::table::{
    lemma_lookup_absent, lemma_lookup_at, lemma_lookup_put, lemma_lookup_without, lemma_put_at,
    lemma_put_distinct, lemma_put_new, lemma_without_at, lemma_without_distinct, lemma_without_kept,
    lookup, without,
};
use vstd::prelude::*;

verus! {

/// A connection is handed back by a removal exactly when the session was its last one.
pub proof fn lemma_last_session_takes_the_connection(sessions: SessionsView, id: SessionID)
    ensures
        sessions.is_last(id) <==> sessions.removal(id).0 is Some,
{
}

/// A session that was added is found again: it has no stream, shows nothing, and shares the
/// connection to its peer.
pub proof fn lemma_added_session_is_found(
    sessions: SessionsView,
    key: PeerKeyView,
    id: SessionID,
    session: FlutterSessionView,
)
    requires
        sessions.wf(),
        sessions.session(id) is None,
        session.ui_handler.wf(),
    ensures
        sessions.inserted(key, id, session).handler(id) == Some(SessionHandlerView::empty()),
        sessions.inserted(key, id, session).session(id) == Some(
            (match lookup(sessions.peers, key) {
                Some(known) => known,
                None => session,
            }).with_handler(id, SessionHandlerView::empty()),
        ),
{
    let peers = sessions.peers;
    let shared = match lookup(peers, key) {
        Some(known) => known,
        None => session,
    };
    let joined = shared.with_handler(id, SessionHandlerView::empty());
    lemma_lookup_put(
        shared.ui_handler.session_handlers,
        id,
        SessionHandlerView::empty(),
        id,
    );
    lemma_holder(peers, id);
    lemma_lookup_absent(peers, key);
    let after = sessions.inserted(key, id, session).peers;
    if lookup(peers, key) is Some {
        let i = choose|i: int| 0 <= i < peers.len() && (#[trigger] peers[i]).0 == key;
        lemma_put_at(peers, i, joined);
        assert forall|j: int| 0 <= j < i implies !(#[trigger] after[j]).1.has(id) by {
            assert(after[j] == peers[j]);
        }
        lemma_holder_is(after, id, i);
    } else {
        lemma_put_new(peers, key, joined);
        assert forall|j: int| 0 <= j < peers.len() implies !(#[trigger] after[j]).1.has(id) by {
            assert(after[j] == peers[j]);
        }
        lemma_holder_is(after, id, peers.len() as int);
    }
}

/// A session that was removed is gone, where no second connection has it.
pub proof fn lemma_removed_session_is_gone(sessions: SessionsView, id: SessionID)
    requires
        sessions.wf(),
        forall|i: int, j: int|
            0 <= i < j < sessions.peers.len() && (#[trigger] sessions.peers[i]).1.has(id) ==> !(
            #[trigger] sessions.peers[j]).1.has(id),
    ensures
        sessions.removed(id).session(id) is None,
{
    let peers = sessions.peers;
    lemma_holder(peers, id);
    let after = sessions.removed(id).peers;
    lemma_holder(after, id);
    if let Some(i) = holder(peers, id) {
        let session = peers[i].1;
        lemma_lookup_without(session.ui_handler.session_handlers, id, id);
        assert forall|k: int| 0 <= k < after.len() implies !(#[trigger] after[k]).1.has(id) by {
            if sessions.is_last(id) {
                if k < i {
                    assert(after[k] == peers[k]);
                } else {
                    assert(after[k] == peers[k + 1]);
                }
            } else if k != i {
                assert(after[k] == peers[k]);
                if k > i {
                    assert(peers[i].1.has(id));
                }
            }
        }
    }
}

/// Adding a session for a peer that is not connected to, and removing it, leaves the connections as
/// they were.
pub proof fn lemma_add_then_remove(
    sessions: SessionsView,
    key: PeerKeyView,
    id: SessionID,
    session: FlutterSessionView,
)
    requires
        sessions.wf(),
        sessions.session(id) is None,
        lookup(sessions.peers, key) is None,
        session.ui_handler.wf(),
        session.ui_handler.session_handlers.len() == 0,
    ensures
        sessions.inserted(key, id, session).removed(id) == sessions,
        sessions.inserted(key, id, session).removal(id).0 == Some(session),
{
    let peers = sessions.peers;
    let empty = Seq::<(SessionID, SessionHandlerView)>::empty();
    assert(session.ui_handler.session_handlers =~= empty);
    let joined = session.with_handler(id, SessionHandlerView::empty());
    let handlers = joined.ui_handler.session_handlers;
    lemma_put_new(peers, key, joined);
    lemma_put_new(empty, id, SessionHandlerView::empty());
    let after = sessions.inserted(key, id, session);
    lemma_holder(peers, id);
    assert forall|j: int| 0 <= j < peers.len() implies !(#[trigger] after.peers[j]).1.has(id) by {
        assert(after.peers[j] == peers[j]);
    }
    lemma_lookup_put(empty, id, SessionHandlerView::empty(), id);
    lemma_holder_is(after.peers, id, peers.len() as int);
    lemma_without_at(handlers, 0);
    assert(handlers.remove(0) =~= empty);
    assert(after.peers.remove(peers.len() as int) =~= peers);
    assert(session.with_handlers(empty) == session);
}

/// Adding a session leaves every other session alone.
pub proof fn lemma_added_session_leaves_others(
    sessions: SessionsView,
    key: PeerKeyView,
    id: SessionID,
    session: FlutterSessionView,
    other: SessionID,
)
    requires
        sessions.wf(),
        session.ui_handler.session_handlers.len() == 0,
        other != id,
    ensures
        sessions.inserted(key, id, session).handler(other) == sessions.handler(other),
{
    let peers = sessions.peers;
    let shared = match lookup(peers, key) {
        Some(known) => known,
        None => session,
    };
    let joined = shared.with_handler(id, SessionHandlerView::empty());
    let after = sessions.inserted(key, id, session).peers;
    lemma_lookup_put(
        shared.ui_handler.session_handlers,
        id,
        SessionHandlerView::empty(),
        other,
    );
    lemma_lookup_absent(peers, key);
    lemma_holder(peers, other);
    lemma_holder(after, other);
    if lookup(peers, key) is Some {
        let i = choose|i: int| 0 <= i < peers.len() && (#[trigger] peers[i]).0 == key;
        lemma_put_at(peers, i, joined);
        lemma_lookup_at(peers, i);
        assert forall|j: int| 0 <= j < peers.len() implies peers[j].1.has(other)
            == (#[trigger] after[j]).1.has(other) by {
            if j != i {
                assert(after[j] == peers[j]);
            }
        }
    } else {
        lemma_put_new(peers, key, joined);
        assert forall|j: int| 0 <= j < peers.len() implies (#[trigger] after[j]) == peers[j] by {}
        assert(!joined.has(other));
        assert(after[peers.len() as int].1 == joined);
    }
    match holder(peers, other) {
        Some(i) => {
            assert(after[i].1.has(other));
            assert forall|j: int| 0 <= j < i implies !(#[trigger] after[j]).1.has(other) by {
                assert(!peers[j].1.has(other));
            }
            lemma_holder_is(after, other, i);
        },
        None => {
            assert forall|j: int| 0 <= j < after.len() implies !(
            #[trigger] after[j]).1.has(other) by {
                if j < peers.len() {
                    assert(!peers[j].1.has(other));
                }
            }
        },
    }
}

/// What is changed in one session is found there, and leaves every other session alone.
pub proof fn lemma_changed_session(
    sessions: SessionsView,
    id: SessionID,
    handler: SessionHandlerView,
    other: SessionID,
)
    requires
        sessions.wf(),
        sessions.handler(id) is Some,
        handler.renderer.wf(),
        other != id,
    ensures
        sessions.with_handler(id, handler).handler(id) == Some(handler),
        sessions.with_handler(id, handler).handler(other) == sessions.handler(other),
{
    let session = sessions.session(id).unwrap();
    let changed = session.with_handler(id, handler);
    lemma_session_parts(sessions, id);
    lemma_with_handler(session, id, handler);
    lemma_with_session(sessions, id, changed);
    lemma_lookup_put(session.ui_handler.session_handlers, id, handler, other);
    let peers = sessions.peers;
    let after = sessions.with_handler(id, handler).peers;
    lemma_holder(peers, id);
    lemma_holder(peers, other);
    lemma_holder(after, other);
    let k = holder(peers, id).unwrap();
    assert forall|j: int| 0 <= j < peers.len() implies peers[j].1.has(other)
        == (#[trigger] after[j]).1.has(other) by {
        if j != k {
            assert(after[j] == peers[j]);
        }
    }
    match holder(peers, other) {
        Some(i) => {
            assert(after[i].1.has(other));
            assert forall|j: int| 0 <= j < i implies !(#[trigger] after[j]).1.has(other) by {
                assert(!peers[j].1.has(other));
            }
            lemma_holder_is(after, other, i);
        },
        None => {
            assert forall|j: int| 0 <= j < after.len() implies !(
            #[trigger] after[j]).1.has(other) by {
                assert(!peers[j].1.has(other));
            }
        },
    }
}

/// A session that joined a connection is found there, with its displays and without a stream.
pub proof fn lemma_joined_session_is_found(
    sessions: SessionsView,
    key: PeerKeyView,
    id: SessionID,
    displays: Seq<i32>,
    multi_ui: bool,
)
    requires
        sessions.wf(),
        sessions.session(id) is None,
        lookup(sessions.peers, key) is Some,
    ensures
        sessions.joined(key, id, displays, multi_ui).handler(id) == Some(
            joining(displays, multi_ui),
        ),
{
    let peers = sessions.peers;
    let session = lookup(peers, key).unwrap();
    lemma_lookup_put(
        session.ui_handler.session_handlers,
        id,
        joining(displays, multi_ui),
        id,
    );
    lemma_holder(peers, id);
    lemma_lookup_absent(peers, key);
    let after = sessions.joined(key, id, displays, multi_ui).peers;
    let i = choose|i: int| 0 <= i < peers.len() && (#[trigger] peers[i]).0 == key;
    let with = session.with_handler(id, joining(displays, multi_ui));
    let joined = if displays.len() == 1 {
        FlutterSessionView { ui_handler: with.ui_handler.next_rgba(displays[0] as usize), ..with }
    } else {
        with
    };
    lemma_put_at(peers, i, joined);
    assert(after == peers.update(i, (key, joined)));
    assert forall|j: int| 0 <= j < i implies !(#[trigger] after[j]).1.has(id) by {
        assert(after[j] == peers[j]);
    }
    lemma_holder_is(after, id, i);
}

/// A session that was started has its stream, and a further start makes no second connection.
pub proof fn lemma_started_once(sessions: SessionsView, id: SessionID, stream: StreamId)
    requires
        sessions.wf(),
        sessions.handler(id) is Some,
    ensures
        sessions.streaming(id, stream).handler(id) == Some(
            SessionHandlerView { event_stream: Some(stream), ..sessions.handler(id).unwrap() },
        ),
        !sessions.streaming(id, stream).connects(id),
{
    let session = sessions.session(id).unwrap();
    let handler = sessions.handler(id).unwrap();
    let started = SessionHandlerView { event_stream: Some(stream), ..handler };
    lemma_session_parts(sessions, id);
    lemma_with_handler(session, id, started);
    lemma_with_session(sessions, id, session.with_handler(id, started));
}

/// The connection of a session, and the session, are in order.
proof fn lemma_session_parts(sessions: SessionsView, id: SessionID)
    requires
        sessions.wf(),
        sessions.handler(id) is Some,
    ensures
        sessions.session(id).unwrap().ui_handler.wf(),
        sessions.handler(id).unwrap().renderer.wf(),
{
    lemma_holder(sessions.peers, id);
    let session = sessions.session(id).unwrap();
    let handlers = session.ui_handler.session_handlers;
    assert(sessions.peers[holder(sessions.peers, id).unwrap()].1.ui_handler.wf());
    lemma_lookup_absent(handlers, id);
    let k = choose|k: int| 0 <= k < handlers.len() && (#[trigger] handlers[k]).0 == id;
    lemma_lookup_at(handlers, k);
}

/// After a session switched displays it shows exactly those, and its stream and renderer are what
/// they were.
pub proof fn lemma_switched_session_shows(sessions: SessionsView, id: SessionID, value: Seq<i32>)
    requires
        sessions.wf(),
        sessions.handler(id) is Some,
    ensures
        sessions.switched(id, value).handler(id) == Some(
            SessionHandlerView {
                displays: display_indexes(value),
                ..sessions.handler(id).unwrap()
            },
        ),
{
    let session = sessions.session(id).unwrap();
    let handler = sessions.handler(id).unwrap();
    let shown = SessionHandlerView { displays: display_indexes(value), ..handler };
    lemma_session_parts(sessions, id);
    lemma_with_handler(session, id, shown);
    let after = session.with_handler(id, shown);
    let read = if value.len() == 1 {
        FlutterSessionView { ui_handler: after.ui_handler.next_rgba(value[0] as usize), ..after }
    } else {
        after
    };
    if value.len() == 1 {
        let d = value[0] as usize;
        if let Some(rgba) = lookup(after.ui_handler.display_rgbas, d) {
            crate::table::lemma_put_distinct(
                after.ui_handler.display_rgbas,
                d,
                crate::handler::RgbaView { valid: false, ..rgba },
            );
        }
    }
    lemma_with_session(sessions, id, read);
}

proof fn lemma_distinct_values(values: Seq<usize>, display: usize)
    ensures
        distinct_values(values).contains(display) <==> values.contains(display),
        distinct_values(values).no_duplicates(),
    decreases values.len(),
{
    if values.len() > 0 {
        let rest = values.drop_last();
        let last = values.last();
        let before = distinct_values(rest);
        lemma_distinct_values(rest, display);
        lemma_distinct_values(rest, last);
        if values.contains(display) && display != last {
            let k = choose|k: int| 0 <= k < values.len() && values[k] == display;
            assert(rest[k] == display);
        }
        if rest.contains(display) {
            let k = choose|k: int| 0 <= k < rest.len() && rest[k] == display;
            assert(values[k] == display);
        }
        assert(values[values.len() - 1] == last);
        if !before.contains(last) {
            let after = before.push(last);
            assert(after[before.len() as int] == last);
            if before.contains(display) {
                let k = choose|k: int| 0 <= k < before.len() && before[k] == display;
                assert(after[k] == display);
            }
            if after.contains(display) && display != last {
                let k = choose|k: int| 0 <= k < after.len() && after[k] == display;
                assert(before[k] == display);
            }
        }
    }
}

/// Whether another session than `id` shows something of a display.
pub open spec fn shown_by_other(
    handlers: Seq<(SessionID, SessionHandlerView)>,
    id: SessionID,
    display: usize,
) -> bool {
    exists|i: int|
        0 <= i < handlers.len() && (#[trigger] handlers[i]).0 != id && lookup(
            handlers[i].1.renderer.displays,
            display,
        ) is Some
}

proof fn lemma_rendered(renderer: VideoRendererView, display: usize)
    ensures
        rendered_displays(renderer).contains(display) <==> lookup(renderer.displays, display)
            is Some,
{
    let displays = renderer.displays;
    let keys = rendered_displays(renderer);
    lemma_lookup_absent(displays, display);
    if keys.contains(display) {
        let k = choose|k: int| 0 <= k < keys.len() && keys[k] == display;
        assert(displays[k].0 == display);
    }
    if lookup(displays, display) is Some {
        let k = choose|k: int| 0 <= k < displays.len() && (#[trigger] displays[k]).0 == display;
        assert(keys[k] == display);
    }
}

proof fn lemma_displays_of_others(
    handlers: Seq<(SessionID, SessionHandlerView)>,
    id: SessionID,
    display: usize,
)
    ensures
        displays_of_others(handlers, id).contains(display) <==> shown_by_other(
            handlers,
            id,
            display,
        ),
    decreases handlers.len(),
{
    let all = displays_of_others(handlers, id);
    if handlers.len() > 0 {
        let rest = handlers.drop_last();
        let last = handlers.last();
        let before = displays_of_others(rest, id);
        let own = rendered_displays(last.1.renderer);
        lemma_displays_of_others(rest, id, display);
        lemma_rendered(last.1.renderer, display);
        if shown_by_other(rest, id, display) {
            let i = choose|i: int|
                0 <= i < rest.len() && (#[trigger] rest[i]).0 != id && lookup(
                    rest[i].1.renderer.displays,
                    display,
                ) is Some;
            assert(handlers[i] == rest[i]);
        }
        if shown_by_other(handlers, id, display) {
            let i = choose|i: int|
                0 <= i < handlers.len() && (#[trigger] handlers[i]).0 != id && lookup(
                    handlers[i].1.renderer.displays,
                    display,
                ) is Some;
            if i < rest.len() {
                assert(rest[i] == handlers[i]);
            }
        }
        if last.0 != id {
            if before.contains(display) {
                let k = choose|k: int| 0 <= k < before.len() && before[k] == display;
                assert(all[k] == display);
            }
            if own.contains(display) {
                let k = choose|k: int| 0 <= k < own.len() && own[k] == display;
                assert(all[before.len() + k] == display);
                assert(handlers[rest.len() as int] == last);
            }
            if all.contains(display) {
                let k = choose|k: int| 0 <= k < all.len() && all[k] == display;
                if k < before.len() {
                    assert(before[k] == display);
                } else {
                    assert(own[k - before.len()] == display);
                }
            }
        }
    }
}

/// The displays that are still needed are the current one and those that another session shows
/// something of, all of them and each once.
pub proof fn lemma_remaining_displays(
    current: Option<usize>,
    id: SessionID,
    handlers: Seq<(SessionID, SessionHandlerView)>,
    display: usize,
)
    ensures
        remaining_displays(current, id, handlers).contains(display) <==> current == Some(display)
            || shown_by_other(handlers, id, display),
        remaining_displays(current, id, handlers).no_duplicates(),
{
    let own = match current {
        Some(d) => seq![d],
        None => Seq::<usize>::empty(),
    };
    let others = displays_of_others(handlers, id);
    let all = own + others;
    lemma_distinct_values(all, display);
    lemma_displays_of_others(handlers, id, display);
    if others.contains(display) {
        let k = choose|k: int| 0 <= k < others.len() && others[k] == display;
        assert(all[own.len() + k] == display);
    }
    if current == Some(display) {
        assert(all[0] == display);
    }
    if all.contains(display) {
        let k = choose|k: int| 0 <= k < all.len() && all[k] == display;
        if k >= own.len() {
            assert(others[k - own.len()] == display);
        }
    }
}

/// A display keeps its number on the way to an index and back.
proof fn lemma_display_number(n: i32)
    ensures
        (n as usize) as i32 == n,
{
    assert((n as usize) as i32 == n) by (bit_vector);
}

proof fn lemma_display_list(displays: Seq<usize>, display: usize)
    ensures
        displays.contains(display) ==> display_numbers(displays).contains(display as i32),
        forall|i: int|
            0 <= i < display_numbers(displays).len() ==> (#[trigger] display_numbers(displays)[i])
                == displays[i] as i32,
        display_numbers(displays).len() == displays.len(),
{
    if displays.contains(display) {
        let k = choose|k: int| 0 <= k < displays.len() && displays[k] == display;
        assert(display_numbers(displays)[k] == display as i32);
    }
}

/// When a session switches displays, the peer is asked last to capture: every display that the
/// session asked for is among them. Several displays, and one on a phone, are captured as they are
/// asked for; one on a computer together with what the other sessions show something of, and nothing
/// else. One display is also shown first.
pub proof fn lemma_switch_captures_what_is_shown(
    sessions: SessionsView,
    is_desktop: bool,
    id: SessionID,
    value: Seq<i32>,
    display: usize,
    i: int,
)
    requires
        sessions.session(id) is Some,
    ensures
        ({
            let out = sessions.switch_capture(is_desktop, id, value);
            let handlers = sessions.session(id).unwrap().ui_handler.session_handlers;
            &&& value.len() == 1 ==> out.len() == 2 && out[0] == ActionView::SwitchDisplay(value[0])
            &&& value.len() != 1 ==> out.len() == 1
            &&& out.last() is CaptureDisplays
            &&& ({
                let list = out.last()->CaptureDisplays_0;
                &&& 0 <= i < value.len() ==> list.contains(value[i])
                &&& value.len() != 1 || !is_desktop ==> list == value
                &&& value.len() == 1 && is_desktop && shown_by_other(handlers, id, display)
                    ==> list.contains(display as i32)
                &&& value.len() == 1 && is_desktop && 0 <= i < list.len() && list[i] != value[0]
                    ==> exists|d: usize| #[trigger]
                    shown_by_other(handlers, id, d) && list[i] == d as i32
            })
        }),
{
    let out = sessions.switch_capture(is_desktop, id, value);
    let handlers = sessions.session(id).unwrap().ui_handler.session_handlers;
    let list = out.last()->CaptureDisplays_0;
    if value.len() == 1 && is_desktop {
        let current = value[0] as usize;
        let remaining = remaining_displays(Some(current), id, handlers);
        lemma_display_number(value[0]);
        lemma_remaining_displays(Some(current), id, handlers, current);
        lemma_remaining_displays(Some(current), id, handlers, display);
        lemma_display_list(remaining, current);
        lemma_display_list(remaining, display);
        if 0 <= i < list.len() && list[i] != value[0] {
            let d = remaining[i];
            lemma_remaining_displays(Some(current), id, handlers, d);
            assert(remaining.contains(d));
            assert(list[i] == d as i32);
            assert(shown_by_other(handlers, id, d));
        }
    } else {
        assert(list == value);
    }
    if 0 <= i < value.len() && (value.len() != 1 || !is_desktop) {
        assert(list[i] == value[i]);
    }
}

/// Nothing is captured twice when a session switches to one display on a computer.
pub proof fn lemma_switch_captures_once(sessions: SessionsView, id: SessionID, value: Seq<i32>)
    requires
        sessions.session(id) is Some,
        value.len() == 1,
        value[0] >= 0,
        forall|d: usize| #[trigger]
            shown_by_other(sessions.session(id).unwrap().ui_handler.session_handlers, id, d) ==> d
                <= i32::MAX,
    ensures
        sessions.switch_capture(true, id, value).last()->CaptureDisplays_0.no_duplicates(),
{
    let handlers = sessions.session(id).unwrap().ui_handler.session_handlers;
    let current = value[0] as usize;
    let remaining = remaining_displays(Some(current), id, handlers);
    let list = sessions.switch_capture(true, id, value).last()->CaptureDisplays_0;
    lemma_remaining_displays(Some(current), id, handlers, current);
    lemma_display_list(remaining, current);
    assert forall|a: int, b: int| 0 <= a < list.len() && 0 <= b < list.len() && a != b implies list[a]
        != list[b] by {
        lemma_remaining_displays(Some(current), id, handlers, remaining[a]);
        lemma_remaining_displays(Some(current), id, handlers, remaining[b]);
        assert(remaining.contains(remaining[a]) && remaining.contains(remaining[b]));
    }
}

/// A whole picture is asked for of each display that was asked for, in that order.
pub proof fn lemma_refreshed(value: Seq<i32>, i: int)
    requires
        0 <= i < value.len(),
    ensures
        refreshed(value).len() == value.len(),
        refreshed(value)[i] == ActionView::RefreshVideo(value[i]),
{
}

/// Each request of a list says what it asks for, in the order of the list.
pub proof fn lemma_requested(actions: Seq<SessionAction>, i: int)
    requires
        0 <= i < actions.len(),
    ensures
        requested(actions).len() == actions.len(),
        match actions[i] {
            SessionAction::SwitchDisplay(d) => requested(actions)[i] == ActionView::SwitchDisplay(
                d,
            ),
            SessionAction::CaptureDisplays(list) => requested(actions)[i]
                == ActionView::CaptureDisplays(list@),
            SessionAction::RefreshVideo(d) => requested(actions)[i] == ActionView::RefreshVideo(d),
        },
{
}

proof fn lemma_shown_without(
    handlers: Seq<(SessionID, SessionHandlerView)>,
    id: SessionID,
    display: usize,
)
    ensures
        shown_by_other(without(handlers, id), id, display) <==> shown_by_other(
            handlers,
            id,
            display,
        ),
{
    let rest = without(handlers, id);
    if shown_by_other(rest, id, display) {
        let i = choose|i: int|
            0 <= i < rest.len() && (#[trigger] rest[i]).0 != id && lookup(
                rest[i].1.renderer.displays,
                display,
            ) is Some;
        lemma_without_kept(handlers, id, i);
        let j = choose|j: int| 0 <= j < handlers.len() && handlers[j] == rest[i];
        assert(handlers[j].0 != id);
    }
    if shown_by_other(handlers, id, display) {
        let i = choose|i: int|
            0 <= i < handlers.len() && (#[trigger] handlers[i]).0 != id && lookup(
                handlers[i].1.renderer.displays,
                display,
            ) is Some;
        let keep = |entry: (SessionID, SessionHandlerView)| entry.0 != id;
        handlers.lemma_filter_contains(keep, i);
        assert(rest.contains(handlers[i]));
        let j = choose|j: int| 0 <= j < rest.len() && rest[j] == handlers[i];
        assert(rest[j].0 != id);
    }
}

/// Whether a session is the last one of its connection.
pub proof fn lemma_is_last(sessions: SessionsView, id: SessionID)
    requires
        sessions.wf(),
    ensures
        sessions.is_last(id) <==> sessions.session(id) is Some && sessions.session(
            id,
        ).unwrap().ui_handler.session_handlers.len() == 1,
{
    lemma_holder(sessions.peers, id);
    if sessions.session(id) is Some {
        let session = sessions.session(id).unwrap();
        assert(sessions.peers[holder(sessions.peers, id).unwrap()].1.ui_handler.wf());
        lemma_without_distinct(session.ui_handler.session_handlers, id);
    }
}

/// A session that goes while others stay leaves the connection, and the peer goes on capturing every
/// display that one of the others shows something of, and no other display. Where they show nothing,
/// the peer is asked for nothing.
pub proof fn lemma_removal_keeps_what_others_show(
    sessions: SessionsView,
    id: SessionID,
    display: usize,
    i: int,
)
    requires
        sessions.wf(),
        sessions.session(id) is Some,
        sessions.session(id).unwrap().ui_handler.session_handlers.len() > 1,
    ensures
        ({
            let handlers = sessions.session(id).unwrap().ui_handler.session_handlers;
            &&& sessions.removal(id).0 is None
            &&& match sessions.removal(id).1 {
                Some((peer, list)) => {
                    &&& lookup(sessions.peers, peer) == sessions.session(id)
                    &&& list.len() > 0
                    &&& shown_by_other(handlers, id, display) ==> list.contains(display as i32)
                    &&& 0 <= i < list.len() ==> exists|d: usize| #[trigger]
                        shown_by_other(handlers, id, d) && list[i] == d as i32
                },
                None => !shown_by_other(handlers, id, display),
            }
        }),
{
    lemma_is_last(sessions, id);
    lemma_holder(sessions.peers, id);
    let handlers = sessions.session(id).unwrap().ui_handler.session_handlers;
    let others = without(handlers, id);
    let remaining = remaining_displays(None, id, others);
    lemma_shown_without(handlers, id, display);
    lemma_remaining_displays(None, id, others, display);
    lemma_display_list(remaining, display);
    lemma_lookup_at(sessions.peers, holder(sessions.peers, id).unwrap());
    if remaining.len() > 0 && 0 <= i < remaining.len() {
        let d = remaining[i];
        assert(remaining.contains(d));
        lemma_remaining_displays(None, id, others, d);
        lemma_shown_without(handlers, id, d);
        assert(shown_by_other(handlers, id, d));
        assert(display_numbers(remaining)[i] == d as i32);
    }
}

/// The last session of a connection takes it along: the connection comes back as it was, without
/// sessions, and the peer is asked for nothing. A session that is not there changes nothing.
pub proof fn lemma_removal_of_the_last(sessions: SessionsView, id: SessionID)
    requires
        sessions.wf(),
    ensures
        sessions.session(id) matches Some(session) ==> (
        session.ui_handler.session_handlers.len() == 1 ==> {
            &&& sessions.removal(id).0 matches Some(gone) && gone.ui_handler.session_handlers.len()
                == 0 && same_connection(gone, session) && gone.ui_handler.display_rgbas
                == session.ui_handler.display_rgbas
            &&& sessions.removal(id).1 is None
            &&& sessions.removed(id).peers.len() == sessions.peers.len() - 1
        }),
        sessions.session(id) is None ==> sessions.removal(id).0 is None && sessions.removal(id).1
            is None && sessions.removed(id) == sessions,
{
    lemma_is_last(sessions, id);
    lemma_holder(sessions.peers, id);
}

/// Two connections with the same peer, configuration and hooks; their sessions and frames may
/// differ.
pub open spec fn same_connection(a: FlutterSessionView, b: FlutterSessionView) -> bool {
    &&& a.lc == b.lc
    &&& a.password == b.password
    &&& a.server_keyboard_enabled == b.server_keyboard_enabled
    &&& a.server_file_transfer_enabled == b.server_file_transfer_enabled
    &&& a.server_clipboard_enabled == b.server_clipboard_enabled
    &&& a.reconnect_count == b.reconnect_count
    &&& a.connected == b.connected
    &&& a.ui_handler.peer_info == b.ui_handler.peer_info
    &&& a.ui_handler.hooks == b.ui_handler.hooks
    &&& a.ui_handler.use_texture_render == b.ui_handler.use_texture_render
}

/// The same peers in the same order; only the connection of a session may have other sessions and
/// frames.
pub open spec fn only_in_connection(
    before: SessionsView,
    after: SessionsView,
    id: SessionID,
) -> bool {
    &&& after.peers.len() == before.peers.len()
    &&& forall|j: int|
        0 <= j < before.peers.len() ==> (#[trigger] after.peers[j]).0 == before.peers[j].0
            && same_connection(after.peers[j].1, before.peers[j].1)
    &&& forall|j: int|
        0 <= j < before.peers.len() && holder(before.peers, id) != Some(j) ==> (
        #[trigger] after.peers[j]) == before.peers[j]
}

/// Where a removal leaves the connection, the session is gone from it, every other session of every
/// connection stays as it was, and nothing else changes.
pub proof fn lemma_removal_leaves_others(sessions: SessionsView, id: SessionID, other: SessionID)
    requires
        sessions.wf(),
        sessions.session(id) is Some,
        other != id,
    ensures
        sessions.session(id).unwrap().ui_handler.session_handlers.len() > 1 ==> only_in_connection(
            sessions,
            sessions.removed(id),
            id,
        ) && sessions.removed(id).peers[holder(sessions.peers, id).unwrap()].1.ui_handler.display_rgbas
            == sessions.session(id).unwrap().ui_handler.display_rgbas && !sessions.removed(
            id,
        ).peers[holder(sessions.peers, id).unwrap()].1.has(id),
        sessions.session(id).unwrap().ui_handler.session_handlers.len() == 1 ==> sessions.removed(
            id,
        ).peers == sessions.peers.take(holder(sessions.peers, id).unwrap()) + sessions.peers.skip(
            holder(sessions.peers, id).unwrap() + 1,
        ),
        sessions.removed(id).handler(other) == sessions.handler(other),
{
    lemma_is_last(sessions, id);
    let peers = sessions.peers;
    let after = sessions.removed(id).peers;
    lemma_holder(peers, id);
    lemma_holder(peers, other);
    lemma_holder(after, other);
    let k = holder(peers, id).unwrap();
    let handlers = peers[k].1.ui_handler.session_handlers;
    lemma_lookup_without(handlers, id, other);
    lemma_lookup_without(handlers, id, id);
    assert(peers[k].1.ui_handler.wf());
    if sessions.is_last(id) {
        assert(peers.remove(k) =~= peers.take(k) + peers.skip(k + 1));
        if peers[k].1.has(other) {
            lemma_lookup_absent(handlers, id);
            lemma_lookup_absent(handlers, other);
            let a = choose|a: int| 0 <= a < handlers.len() && (#[trigger] handlers[a]).0 == id;
            let b = choose|b: int| 0 <= b < handlers.len() && (#[trigger] handlers[b]).0 == other;
            assert(a == 0 && b == 0);
        }
        assert(forall|j: int| 0 <= j < k ==> after[j] == peers[j]);
        assert(forall|j: int| k <= j < after.len() ==> after[j] == peers[j + 1]);
        match holder(peers, other) {
            Some(i) => {
                let at = if i < k {
                    i
                } else {
                    i - 1
                };
                assert(i != k);
                assert(after[at] == peers[i]);
                assert forall|j: int| 0 <= j < at implies !(#[trigger] after[j]).1.has(other) by {
                    if j < k {
                        assert(!peers[j].1.has(other));
                    } else {
                        assert(!peers[j + 1].1.has(other));
                    }
                }
                lemma_holder_is(after, other, at);
            },
            None => {
                assert forall|j: int| 0 <= j < after.len() implies !(
                #[trigger] after[j]).1.has(other) by {
                    if j < k {
                        assert(!peers[j].1.has(other));
                    } else {
                        assert(!peers[j + 1].1.has(other));
                    }
                }
            },
        }
    } else {
        assert forall|j: int| 0 <= j < peers.len() implies peers[j].1.has(other)
            == (#[trigger] after[j]).1.has(other) by {
            if j != k {
                assert(after[j] == peers[j]);
            }
        }
        match holder(peers, other) {
            Some(i) => {
                assert(after[i].1.has(other));
                assert forall|j: int| 0 <= j < i implies !(#[trigger] after[j]).1.has(other) by {
                    assert(!peers[j].1.has(other));
                }
                lemma_holder_is(after, other, i);
            },
            None => {
                assert forall|j: int| 0 <= j < after.len() implies !(
                #[trigger] after[j]).1.has(other) by {
                    assert(!peers[j].1.has(other));
                }
            },
        }
    }
}

/// A connection that is made for a new peer is what its maker asked for: the peer, the purpose, the
/// route, the graphics card, the token, the invitation where there is one, and the password, either
/// as the preset one or as a shared one. Everything that the peer may forbid is allowed at first,
/// nothing is known of the peer, and nothing is connected.
pub proof fn lemma_new_connection_is_as_asked(
    sessions: SessionsView,
    session_id: SessionID,
    id: Seq<char>,
    conn_type: ConnType,
    switch_uuid: Seq<char>,
    force_relay: bool,
    password: Seq<char>,
    is_shared_password: bool,
    conn_token: Option<Seq<char>>,
    adapter_luid: Option<i64>,
    use_texture_render: bool,
)
    requires
        sessions.wf(),
        sessions.session(session_id) is None,
        lookup(sessions.peers, (PeerKeyView { peer_id: id, conn_type })) is None,
    ensures
        ({
            let session = new_session(
                id,
                conn_type,
                switch_uuid,
                force_relay,
                password,
                is_shared_password,
                conn_token,
                adapter_luid,
                use_texture_render,
            );
            let key = PeerKeyView { peer_id: id, conn_type };
            let after = sessions.inserted(key, session_id, session);
            &&& after.session(session_id) matches Some(made) && {
                &&& made.lc.id == id
                &&& made.lc.conn_type == conn_type
                &&& made.lc.force_relay == force_relay
                &&& made.lc.adapter_luid == adapter_luid
                &&& made.lc.conn_token == conn_token
                &&& switch_uuid.len() > 0 ==> made.lc.switch_uuid == Some(switch_uuid)
                &&& switch_uuid.len() == 0 ==> made.lc.switch_uuid is None
                &&& is_shared_password ==> made.lc.shared_password == Some(password)
                    && made.password.len() == 0
                &&& !is_shared_password ==> made.lc.shared_password is None && made.password
                    == password
                &&& !made.lc.view_only
                &&& made.server_keyboard_enabled
                &&& made.server_file_transfer_enabled
                &&& made.server_clipboard_enabled
                &&& made.reconnect_count == 0
                &&& !made.connected
                &&& made.ui_handler.use_texture_render == use_texture_render
                &&& made.ui_handler.session_handlers.len() == 1
                &&& made.ui_handler.display_rgbas.len() == 0
                &&& made.ui_handler.hooks.len() == 0
                &&& made.ui_handler.peer_info == PeerInfoView::unknown()
            }
            &&& lookup(after.peers, key) == after.session(session_id)
            &&& after.peers.len() == sessions.peers.len() + 1
            &&& forall|j: int|
                0 <= j < sessions.peers.len() ==> (#[trigger] after.peers[j]) == sessions.peers[j]
        }),
{
    let session = new_session(
        id,
        conn_type,
        switch_uuid,
        force_relay,
        password,
        is_shared_password,
        conn_token,
        adapter_luid,
        use_texture_render,
    );
    let key = PeerKeyView { peer_id: id, conn_type };
    let joined = session.with_handler(session_id, SessionHandlerView::empty());
    lemma_added_session_is_found(sessions, key, session_id, session);
    lemma_put_new(sessions.peers, key, joined);
    lemma_put_new(
        Seq::<(SessionID, SessionHandlerView)>::empty(),
        session_id,
        SessionHandlerView::empty(),
    );
    lemma_lookup_put(sessions.peers, key, joined, key);
}

/// A session that is added for a peer that is connected to shares that connection, of which nothing
/// changes but that it has one session more.
pub proof fn lemma_added_session_shares_the_connection(
    sessions: SessionsView,
    key: PeerKeyView,
    id: SessionID,
    session: FlutterSessionView,
)
    requires
        sessions.wf(),
        sessions.session(id) is None,
        session.ui_handler.wf(),
        lookup(sessions.peers, key) is Some,
    ensures
        ({
            let known = lookup(sessions.peers, key).unwrap();
            let after = sessions.inserted(key, id, session);
            &&& after.peers.len() == sessions.peers.len()
            &&& after.session(id) matches Some(shared) && {
                &&& same_connection(shared, known)
                &&& shared.ui_handler.display_rgbas == known.ui_handler.display_rgbas
                &&& shared.ui_handler.session_handlers.len()
                    == known.ui_handler.session_handlers.len() + 1
            }
            &&& lookup(after.peers, key) == after.session(id)
            &&& forall|j: int|
                0 <= j < sessions.peers.len() ==> (#[trigger] after.peers[j]).0
                    == sessions.peers[j].0 && (sessions.peers[j].0 != key ==> after.peers[j]
                    == sessions.peers[j])
        }),
{
    let peers = sessions.peers;
    let known = lookup(peers, key).unwrap();
    let joined = known.with_handler(id, SessionHandlerView::empty());
    lemma_added_session_is_found(sessions, key, id, session);
    lemma_holder(peers, id);
    lemma_lookup_absent(peers, key);
    let i = choose|i: int| 0 <= i < peers.len() && (#[trigger] peers[i]).0 == key;
    lemma_lookup_at(peers, i);
    lemma_put_at(peers, i, joined);
    lemma_lookup_put(peers, key, joined, key);
    assert(!peers[i].1.has(id));
    lemma_put_new(known.ui_handler.session_handlers, id, SessionHandlerView::empty());
}

/// What a connection is for follows the first wish that is named: files, the camera, a terminal, a
/// port, which may be that of the peer's desktop. Without any, the peer is controlled.
pub proof fn lemma_wanted_conn_type(
    files: bool,
    camera: bool,
    port: bool,
    rdp: bool,
    terminal: bool,
)
    ensures
        wanted_conn_type(files, camera, port, rdp, terminal) == ConnType::FILE_TRANSFER <==> files,
        wanted_conn_type(files, camera, port, rdp, terminal) == ConnType::VIEW_CAMERA <==> camera
            && !files,
        wanted_conn_type(files, camera, port, rdp, terminal) == ConnType::TERMINAL <==> terminal
            && !files && !camera,
        wanted_conn_type(files, camera, port, rdp, terminal) == ConnType::RDP <==> port && rdp
            && !files && !camera && !terminal,
        wanted_conn_type(files, camera, port, rdp, terminal) == ConnType::PORT_FORWARD <==> port
            && !rdp && !files && !camera && !terminal,
        existing_conn_type(camera) == ConnType::VIEW_CAMERA <==> camera,
        existing_conn_type(camera) == ConnType::DEFAULT_CONN <==> !camera,
{
}

proof fn lemma_read_frame_wf(handler: FlutterHandlerView, display: usize)
    requires
        handler.wf(),
    ensures
        handler.next_rgba(display).wf(),
{
    if let Some(rgba) = lookup(handler.display_rgbas, display) {
        lemma_put_distinct(
            handler.display_rgbas,
            display,
            RgbaView { valid: false, ..rgba },
        );
    }
}

/// After a switch the session shows what was asked for, each number as the display of that number.
/// The last frame of a display that is now shown alone may be replaced; every other frame stays.
/// Every other session and connection is left alone.
pub proof fn lemma_switched(
    sessions: SessionsView,
    id: SessionID,
    value: Seq<i32>,
    i: int,
    display: usize,
    other: SessionID,
)
    requires
        sessions.wf(),
        sessions.handler(id) is Some,
        other != id,
    ensures
        ({
            let before = sessions.handler(id).unwrap();
            let after = sessions.switched(id, value);
            &&& after.handler(id) matches Some(shown) && {
                &&& shown.event_stream == before.event_stream
                &&& shown.renderer == before.renderer
                &&& shown.displays.len() == value.len()
                &&& 0 <= i < value.len() ==> shown.displays[i] == value[i] as usize
            }
            &&& only_in_connection(sessions, after, id)
            &&& after.handler(other) == sessions.handler(other)
            &&& after.session(id).unwrap().ui_handler.readable(display) == if value.len() == 1
                && display == value[0] as usize {
                None
            } else {
                sessions.session(id).unwrap().ui_handler.readable(display)
            }
            &&& after.session(id).unwrap().ui_handler.kept(display) == sessions.session(
                id,
            ).unwrap().ui_handler.kept(display)
        }),
{
    let session = sessions.session(id).unwrap();
    let handler = sessions.handler(id).unwrap();
    let shown = SessionHandlerView { displays: display_indexes(value), ..handler };
    lemma_switched_session_shows(sessions, id, value);
    lemma_session_parts(sessions, id);
    lemma_with_handler(session, id, shown);
    let with = session.with_handler(id, shown);
    let read = if value.len() == 1 {
        FlutterSessionView { ui_handler: with.ui_handler.next_rgba(value[0] as usize), ..with }
    } else {
        with
    };
    if value.len() == 1 {
        lemma_read_frame_wf(with.ui_handler, value[0] as usize);
        lemma_read_frame(with.ui_handler, value[0] as usize, display);
    }
    lemma_with_session(sessions, id, read);
    lemma_holder(sessions.peers, id);
    lemma_lookup_put(session.ui_handler.session_handlers, id, shown, other);
    lemma_same_holder(sessions, id, read, other);
}

/// Changing a connection in a way that keeps the session `other` keeps where it is found.
proof fn lemma_same_holder(
    sessions: SessionsView,
    id: SessionID,
    session: FlutterSessionView,
    other: SessionID,
)
    requires
        sessions.session(id) is Some,
        lookup(session.ui_handler.session_handlers, other) == lookup(
            sessions.session(id).unwrap().ui_handler.session_handlers,
            other,
        ),
    ensures
        sessions.with_session(id, session).handler(other) == sessions.handler(other),
{
    let peers = sessions.peers;
    let after = sessions.with_session(id, session).peers;
    lemma_holder(peers, id);
    lemma_holder(peers, other);
    lemma_holder(after, other);
    let k = holder(peers, id).unwrap();
    assert forall|j: int| 0 <= j < peers.len() implies peers[j].1.has(other)
        == (#[trigger] after[j]).1.has(other) by {
        if j != k {
            assert(after[j] == peers[j]);
        }
    }
    match holder(peers, other) {
        Some(i) => {
            assert(after[i].1.has(other));
            assert forall|j: int| 0 <= j < i implies !(#[trigger] after[j]).1.has(other) by {
                assert(!peers[j].1.has(other));
            }
            lemma_holder_is(after, other, i);
        },
        None => {
            assert forall|j: int| 0 <= j < after.len() implies !(
            #[trigger] after[j]).1.has(other) by {
                assert(!peers[j].1.has(other));
            }
        },
    }
}

/// A frame that was read can no longer be read; its bytes stay for reuse, and the frames of other
/// displays stay as they are.
pub proof fn lemma_read_frame(handler: FlutterHandlerView, display: usize, other: usize)
    ensures
        handler.next_rgba(display).readable(display) is None,
        other != display ==> handler.next_rgba(display).readable(other) == handler.readable(other),
        handler.next_rgba(display).kept(other) == handler.kept(other),
        handler.next_rgba(display).session_handlers == handler.session_handlers,
        handler.next_rgba(display).peer_info == handler.peer_info,
        handler.next_rgba(display).hooks == handler.hooks,
        handler.next_rgba(display).use_texture_render == handler.use_texture_render,
{
    if let Some(rgba) = lookup(handler.display_rgbas, display) {
        let read = RgbaView { valid: false, ..rgba };
        lemma_lookup_put(handler.display_rgbas, display, read, display);
        lemma_lookup_put(handler.display_rgbas, display, read, other);
    }
}

/// After a session read a frame it can no longer be read, on its connection only, of which nothing
/// else changes.
pub proof fn lemma_session_read_frame(
    sessions: SessionsView,
    id: SessionID,
    display: usize,
    other: usize,
)
    requires
        sessions.wf(),
        sessions.session(id) is Some,
    ensures
        ({
            let before = sessions.session(id).unwrap();
            let after = sessions.next_rgba(id, display);
            &&& only_in_connection(sessions, after, id)
            &&& after.session(id) matches Some(read) && {
                &&& read.ui_handler.session_handlers == before.ui_handler.session_handlers
                &&& read.ui_handler.readable(display) is None
                &&& other != display ==> read.ui_handler.readable(other)
                    == before.ui_handler.readable(other)
                &&& read.ui_handler.kept(other) == before.ui_handler.kept(other)
            }
        }),
{
    let before = sessions.session(id).unwrap();
    let read = FlutterSessionView {
        ui_handler: before.ui_handler.next_rgba(display),
        ..before
    };
    lemma_holder(sessions.peers, id);
    assert(sessions.peers[holder(sessions.peers, id).unwrap()].1.ui_handler.wf());
    lemma_read_frame(before.ui_handler, display, other);
    lemma_read_frame_wf(before.ui_handler, display);
    lemma_with_session(sessions, id, read);
}

/// A change of one session stays on its connection.
proof fn lemma_changed_session_stays(
    sessions: SessionsView,
    id: SessionID,
    handler: SessionHandlerView,
)
    requires
        sessions.wf(),
        sessions.handler(id) is Some,
        handler.renderer.wf(),
    ensures
        only_in_connection(sessions, sessions.with_handler(id, handler), id),
        sessions.with_handler(id, handler).session(id).unwrap().ui_handler.display_rgbas
            == sessions.session(id).unwrap().ui_handler.display_rgbas,
{
    let session = sessions.session(id).unwrap();
    lemma_session_parts(sessions, id);
    lemma_with_handler(session, id, handler);
    lemma_with_session(sessions, id, session.with_handler(id, handler));
    lemma_holder(sessions.peers, id);
}

/// A session that knows the size of a display shows that display, after those that it showed
/// already, and notes the size; what else it knows stays. Every other session is left alone.
pub proof fn lemma_sized(
    sessions: SessionsView,
    id: SessionID,
    display: usize,
    width: usize,
    height: usize,
    shown: usize,
    other: SessionID,
)
    requires
        sessions.wf(),
        sessions.handler(id) is Some,
        other != id,
    ensures
        ({
            let before = sessions.handler(id).unwrap();
            let all = sessions.sized(id, display, width, height);
            &&& all.handler(id) matches Some(after) && {
                &&& after.event_stream == before.event_stream
                &&& before.displays.contains(display) ==> after.displays == before.displays
                &&& !before.displays.contains(display) ==> after.displays.len()
                    == before.displays.len() + 1 && after.displays.drop_last() == before.displays
                    && after.displays.last() == display
                &&& after.renderer.is_support_multi_ui_session
                    == before.renderer.is_support_multi_ui_session
                &&& after.renderer.info(display).size == (width, height)
                &&& after.renderer.info(display).texture_rgba_ptr == before.renderer.info(
                    display,
                ).texture_rgba_ptr
                &&& after.renderer.info(display).gpu_output_ptr == before.renderer.info(
                    display,
                ).gpu_output_ptr
                &&& after.renderer.info(display).notify_render_type is None
                &&& shown != display ==> lookup(after.renderer.displays, shown) == lookup(
                    before.renderer.displays,
                    shown,
                )
            }
            &&& all.handler(other) == sessions.handler(other)
            &&& only_in_connection(sessions, all, id)
        }),
{
    let before = sessions.handler(id).unwrap();
    let renderer = before.renderer.set_size(display, width, height);
    let after = SessionHandlerView {
        displays: with_value(before.displays, display),
        renderer,
        ..before
    };
    let info = DisplaySessionInfo {
        size: (width, height),
        notify_render_type: None,
        ..before.renderer.info(display)
    };
    lemma_session_parts(sessions, id);
    lemma_put_distinct(before.renderer.displays, display, info);
    lemma_lookup_put(before.renderer.displays, display, info, display);
    lemma_lookup_put(before.renderer.displays, display, info, shown);
    lemma_changed_session(sessions, id, after, other);
    lemma_changed_session_stays(sessions, id, after);
    assert(before.displays.push(display).drop_last() =~= before.displays);
}

/// A session with another renderer is otherwise what it was, and every other session is left alone.
pub proof fn lemma_rendering(
    sessions: SessionsView,
    id: SessionID,
    renderer: VideoRendererView,
    other: SessionID,
)
    requires
        sessions.wf(),
        renderer.wf(),
        other != id,
    ensures
        ({
            let all = sessions.rendering(id, renderer);
            &&& match sessions.handler(id) {
                Some(before) => {
                    &&& sessions.renderer(id) == before.renderer
                    &&& all.handler(id) matches Some(after) && after.renderer == renderer
                        && after.displays == before.displays && after.event_stream
                        == before.event_stream
                    &&& only_in_connection(sessions, all, id)
                },
                None => all == sessions,
            }
            &&& all.handler(other) == sessions.handler(other)
        }),
{
    if let Some(before) = sessions.handler(id) {
        let after = SessionHandlerView { renderer, ..before };
        lemma_changed_session(sessions, id, after, other);
        lemma_changed_session_stays(sessions, id, after);
    }
}

/// A session that was started listens to its stream and is otherwise what it was; every other
/// session is left alone. A session that is not there changes nothing.
pub proof fn lemma_streaming(
    sessions: SessionsView,
    id: SessionID,
    stream: StreamId,
    other: SessionID,
)
    requires
        sessions.wf(),
        other != id,
    ensures
        ({
            let all = sessions.streaming(id, stream);
            &&& match sessions.handler(id) {
                Some(before) => {
                    &&& all.handler(id) matches Some(after) && after.event_stream == Some(stream)
                        && after.displays == before.displays && after.renderer == before.renderer
                    &&& only_in_connection(sessions, all, id)
                },
                None => all == sessions,
            }
            &&& all.handler(other) == sessions.handler(other)
        }),
{
    if let Some(before) = sessions.handler(id) {
        let after = SessionHandlerView { event_stream: Some(stream), ..before };
        lemma_session_parts(sessions, id);
        lemma_changed_session(sessions, id, after, other);
        lemma_changed_session_stays(sessions, id, after);
    }
}

/// The connection is made by the start of a session that has no stream yet and shares it with no
/// other session, and by no other start.
pub proof fn lemma_connects(sessions: SessionsView, id: SessionID)
    ensures
        sessions.connects(id) ==> sessions.handler(id) is Some,
        sessions.handler(id) matches Some(handler) ==> (sessions.connects(id) <==> (
        handler.event_stream is None && sessions.session(
            id,
        ).unwrap().ui_handler.session_handlers.len() == 1)),
{
}

/// A session that joins a connection shows what it asked for, each number as the display of that
/// number, has no stream and no textures, and knows whether several sessions are served. The last
/// frame of a display that it shows alone may be replaced; every other frame, every other session
/// and every other connection stays as it was. Where there is no such connection nothing changes.
pub proof fn lemma_joined(
    sessions: SessionsView,
    key: PeerKeyView,
    id: SessionID,
    displays: Seq<i32>,
    multi_ui: bool,
    i: int,
    display: usize,
    other: SessionID,
)
    requires
        sessions.wf(),
        other != id,
    ensures
        ({
            let all = sessions.joined(key, id, displays, multi_ui);
            match lookup(sessions.peers, key) {
                Some(before) => {
                    &&& lookup(
                        lookup(all.peers, key).unwrap().ui_handler.session_handlers,
                        id,
                    ) matches Some(joined) && {
                        &&& joined.event_stream is None
                        &&& joined.displays.len() == displays.len()
                        &&& 0 <= i < displays.len() ==> joined.displays[i] == displays[i] as usize
                        &&& joined.renderer.displays.len() == 0
                        &&& joined.renderer.is_support_multi_ui_session == multi_ui
                    }
                    &&& lookup(all.peers, key) matches Some(after) && {
                        &&& same_connection(after, before)
                        &&& after.ui_handler.readable(display) == if displays.len() == 1 && display
                            == displays[0] as usize {
                            None
                        } else {
                            before.ui_handler.readable(display)
                        }
                        &&& after.ui_handler.kept(display) == before.ui_handler.kept(display)
                        &&& lookup(after.ui_handler.session_handlers, other) == lookup(
                            before.ui_handler.session_handlers,
                            other,
                        )
                    }
                    &&& all.peers.len() == sessions.peers.len()
                    &&& forall|j: int|
                        0 <= j < all.peers.len() ==> (#[trigger] all.peers[j]).0
                            == sessions.peers[j].0 && (sessions.peers[j].0 != key ==> all.peers[j]
                            == sessions.peers[j])
                },
                None => all == sessions,
            }
        }),
{
    let peers = sessions.peers;
    if let Some(before) = lookup(peers, key) {
        let with = before.with_handler(id, joining(displays, multi_ui));
        lemma_lookup_put(
            before.ui_handler.session_handlers,
            id,
            joining(displays, multi_ui),
            id,
        );
        let after = if displays.len() == 1 {
            FlutterSessionView {
                ui_handler: with.ui_handler.next_rgba(displays[0] as usize),
                ..with
            }
        } else {
            with
        };
        if displays.len() == 1 {
            lemma_read_frame(with.ui_handler, displays[0] as usize, display);
        }
        lemma_lookup_put(
            before.ui_handler.session_handlers,
            id,
            joining(displays, multi_ui),
            other,
        );
        lemma_lookup_absent(peers, key);
        let k = choose|k: int| 0 <= k < peers.len() && (#[trigger] peers[k]).0 == key;
        lemma_put_at(peers, k, after);
        lemma_lookup_put(peers, key, after, key);
    }
}

/// The peer of a session, for a purpose, is one to which a connection for that purpose has the
/// session; where there is none, no connection is both.
pub proof fn lemma_peer_of(
    peers: Seq<(PeerKeyView, FlutterSessionView)>,
    id: SessionID,
    conn_type: ConnType,
)
    ensures
        match peer_of(peers, id, conn_type) {
            Some(peer) => exists|i: int|
                0 <= i < peers.len() && (#[trigger] peers[i]).0.peer_id == peer
                    && peers[i].0.conn_type == conn_type && peers[i].1.has(id) && forall|j: int|
                    0 <= j < i ==> !((#[trigger] peers[j]).0.conn_type == conn_type
                        && peers[j].1.has(id)),
            None => forall|j: int|
                0 <= j < peers.len() ==> !((#[trigger] peers[j]).0.conn_type == conn_type
                    && peers[j].1.has(id)),
        },
    decreases peers.len(),
{
    if peers.len() > 0 {
        let rest = peers.drop_last();
        lemma_peer_of(rest, id, conn_type);
        assert(forall|j: int| 0 <= j < rest.len() ==> rest[j] == peers[j]);
        match peer_of(rest, id, conn_type) {
            Some(peer) => {
                let i = choose|i: int|
                    0 <= i < rest.len() && (#[trigger] rest[i]).0.peer_id == peer
                        && rest[i].0.conn_type == conn_type && rest[i].1.has(id) && forall|j: int|
                        0 <= j < i ==> !((#[trigger] rest[j]).0.conn_type == conn_type
                            && rest[j].1.has(id));
                assert(peers[i] == rest[i]);
                assert forall|j: int| 0 <= j < i implies !((#[trigger] peers[j]).0.conn_type
                    == conn_type && peers[j].1.has(id)) by {
                    assert(rest[j] == peers[j]);
                }
            },
            None => {
                let last = peers.len() - 1;
                assert(peers[last] == peers.last());
                assert forall|j: int| 0 <= j < last implies !((#[trigger] peers[j]).0.conn_type
                    == conn_type && peers[j].1.has(id)) by {
                    assert(rest[j] == peers[j]);
                }
            },
        }
    }
}

/// A session is on a connection exactly where the connection has a session of that id, and it is then
/// that one.
pub proof fn lemma_session_and_handler(sessions: SessionsView, id: SessionID)
    ensures
        match sessions.session(id) {
            Some(session) => {
                &&& sessions.handler(id) == lookup(session.ui_handler.session_handlers, id)
                &&& sessions.handler(id) is Some
                &&& exists|i: int|
                    0 <= i < sessions.peers.len() && (#[trigger] sessions.peers[i]).1 == session
            },
            None => {
                &&& sessions.handler(id) is None
                &&& forall|i: int|
                    0 <= i < sessions.peers.len() ==> lookup(
                        (#[trigger] sessions.peers[i]).1.ui_handler.session_handlers,
                        id,
                    ) is None
            },
        },
{
    lemma_holder(sessions.peers, id);
}

/// Whatever sessions there are already, one that is added to the connection to a peer is on it
/// afterwards, without a stream and showing nothing; the other sessions of that connection, and every
/// other connection, stay as they were.
pub proof fn lemma_inserted(
    sessions: SessionsView,
    key: PeerKeyView,
    id: SessionID,
    session: FlutterSessionView,
    other: SessionID,
    other_key: PeerKeyView,
)
    requires
        other != id,
        other_key != key,
    ensures
        ({
            let before = match lookup(sessions.peers, key) {
                Some(known) => known,
                None => session,
            };
            let all = sessions.inserted(key, id, session);
            &&& lookup(all.peers, key) matches Some(after) && {
                &&& same_connection(after, before)
                &&& after.ui_handler.display_rgbas == before.ui_handler.display_rgbas
                &&& lookup(after.ui_handler.session_handlers, id) matches Some(added) && {
                    &&& added.event_stream is None
                    &&& added.displays.len() == 0
                    &&& added.renderer.displays.len() == 0
                    &&& !added.renderer.is_support_multi_ui_session
                }
                &&& lookup(after.ui_handler.session_handlers, other) == lookup(
                    before.ui_handler.session_handlers,
                    other,
                )
            }
            &&& lookup(all.peers, other_key) == lookup(sessions.peers, other_key)
        }),
{
    let before = match lookup(sessions.peers, key) {
        Some(known) => known,
        None => session,
    };
    let after = before.with_handler(id, SessionHandlerView::empty());
    lemma_lookup_put(sessions.peers, key, after, key);
    lemma_lookup_put(sessions.peers, key, after, other_key);
    lemma_lookup_put(before.ui_handler.session_handlers, id, SessionHandlerView::empty(), id);
    lemma_lookup_put(before.ui_handler.session_handlers, id, SessionHandlerView::empty(), other);
}

/// A session that is not there changes nothing, whatever is asked of it.
pub proof fn lemma_unknown_session_changes_nothing(
    sessions: SessionsView,
    id: SessionID,
    value: Seq<i32>,
    display: usize,
    width: usize,
    height: usize,
    renderer: VideoRendererView,
    stream: StreamId,
)
    requires
        sessions.session(id) is None,
    ensures
        sessions.switched(id, value) == sessions,
        sessions.sized(id, display, width, height) == sessions,
        sessions.rendering(id, renderer) == sessions,
        sessions.streaming(id, stream) == sessions,
        sessions.next_rgba(id, display) == sessions,
        sessions.removed(id) == sessions,
        !sessions.connects(id),
{
}

}
