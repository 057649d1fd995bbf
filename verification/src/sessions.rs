//! The registry of connections: looking them up, adding to them and taking from them.

use crate::handler::{SessionHandler, SessionHandlerView};
use crate::message::{ConnType, Platform, SessionID};
use crate::renderer::{DisplaySessionInfo, VideoRendererView};
use crate::session::{
    holder, lemma_with_handler, lemma_with_session, FlutterSession, FlutterSessionView, PeerKey,
    PeerKeyView, Sessions, SessionsView,
};
use crate::table::{
    lemma_lookup_absent, lemma_lookup_at, lemma_put_at, lemma_put_distinct, lemma_put_new,
    lemma_without_at, lemma_without_distinct, lemma_without_kept, lookup, put, without, Table,
};
use crate::text::opt_text;
use vstd::prelude::*;

verus! {

/// How many sessions of the user interface share the connection to a peer.
pub fn get_session_count(sessions: &Sessions, peer_id: String, conn_type: ConnType) -> (count:
    usize)
    requires
        sessions.wf(),
    ensures
        count == match lookup(
            sessions@.peers,
            (PeerKeyView { peer_id: peer_id@, conn_type }),
        ) {
            Some(session) => session.ui_handler.session_handlers.len(),
            None => 0,
        },
{
    match sessions.peers.get(&PeerKey { peer_id, conn_type }) {
        Some(session) => session.ui_handler.session_handlers.len(),
        None => 0,
    }
}

/// The first peer whose connection is of the given type and has the session.
pub open spec fn peer_of(
    peers: Seq<(PeerKeyView, FlutterSessionView)>,
    id: SessionID,
    conn_type: ConnType,
) -> Option<Seq<char>>
    decreases peers.len(),
{
    if peers.len() == 0 {
        None
    } else {
        match peer_of(peers.drop_last(), id, conn_type) {
            Some(peer_id) => Some(peer_id),
            None => if peers.last().0.conn_type == conn_type && peers.last().1.has(id) {
                Some(peers.last().0.peer_id)
            } else {
                None
            },
        }
    }
}

proof fn lemma_peer_of_prefix(
    peers: Seq<(PeerKeyView, FlutterSessionView)>,
    id: SessionID,
    conn_type: ConnType,
    k: int,
)
    requires
        0 <= k <= peers.len(),
        peer_of(peers.take(k), id, conn_type) is Some,
    ensures
        peer_of(peers, id, conn_type) == peer_of(peers.take(k), id, conn_type),
    decreases peers.len(),
{
    if k < peers.len() {
        assert(peers.drop_last().take(k) =~= peers.take(k));
        lemma_peer_of_prefix(peers.drop_last(), id, conn_type, k);
    } else {
        assert(peers.take(k) =~= peers);
    }
}

/// The peer to which a session of the user interface has a connection of the given type.
pub fn get_peer_id_by_session_id(sessions: &Sessions, id: &SessionID, conn_type: ConnType) -> (peer:
    Option<String>)
    requires
        sessions.wf(),
    ensures
        opt_text(peer) == peer_of(sessions@.peers, *id, conn_type),
{
    let ghost peers = sessions@.peers;
    let mut i: usize = 0;
    assert(peers.take(0) =~= Seq::empty());
    while i < sessions.peers.len()
        invariant
            i <= peers.len(),
            sessions.wf(),
            peers == sessions@.peers,
            peer_of(peers.take(i as int), *id, conn_type) is None,
        decreases peers.len() - i,
    {
        assert(peers[i as int].1.ui_handler.wf());
        assert(peers.take(i + 1).drop_last() =~= peers.take(i as int));
        let key = sessions.peers.key_at(i);
        if key.conn_type == conn_type && sessions.peers.value_at(
            i,
        ).ui_handler.session_handlers.contains_key(id) {
            proof {
                lemma_peer_of_prefix(peers, *id, conn_type, i + 1);
            }
            return Some(key.peer_id.clone());
        }
        i += 1;
    }
    assert(peers.take(peers.len() as int) =~= peers);
    None
}

/// The connection that a session of the user interface shares.
pub fn get_session_by_session_id<'a>(sessions: &'a Sessions, id: &SessionID) -> (session: Option<
    &'a FlutterSession,
>)
    requires
        sessions.wf(),
    ensures
        match session {
            Some(s) => sessions@.session(*id) == Some(s@) && s.wf(),
            None => sessions@.session(*id) is None,
        },
{
    match sessions.holder(id) {
        Some(i) => {
            assert(sessions@.peers[i as int].1.ui_handler.wf());
            Some(sessions.peers.value_at(i))
        },
        None => None,
    }
}

/// The connection to a peer.
pub fn get_session_by_peer_id(sessions: &Sessions, peer_id: String, conn_type: ConnType) -> (session:
    Option<&FlutterSession>)
    requires
        sessions.wf(),
    ensures
        match session {
            Some(s) => lookup(
                sessions@.peers,
                (PeerKeyView { peer_id: peer_id@, conn_type }),
            ) == Some(s@) && s.wf(),
            None => lookup(
                sessions@.peers,
                (PeerKeyView { peer_id: peer_id@, conn_type }),
            ) is None,
        },
{
    let key = PeerKey { peer_id, conn_type };
    proof {
        if lookup(sessions@.peers, key@) is Some {
            lemma_found_wf(sessions@, key@);
        }
    }
    sessions.peers.get(&key)
}

/// All connections.
pub fn get_sessions(sessions: &Sessions) -> (all: Vec<&FlutterSession>)
    ensures
        all@.len() == sessions@.peers.len(),
        forall|i: int| 0 <= i < all@.len() ==> (#[trigger] all@[i])@ == sessions@.peers[i].1,
        sessions.wf() ==> forall|i: int| 0 <= i < all@.len() ==> (#[trigger] all@[i]).wf(),
{
    let mut all: Vec<&FlutterSession> = Vec::new();
    let mut i: usize = 0;
    while i < sessions.peers.len()
        invariant
            i <= sessions@.peers.len(),
            all@.len() == i,
            forall|j: int| 0 <= j < i ==> (#[trigger] all@[j])@ == sessions@.peers[j].1,
        decreases sessions@.peers.len() - i,
    {
        all.push(sessions.peers.value_at(i));
        i += 1;
    }
    proof {
        if sessions.wf() {
            assert forall|j: int| 0 <= j < all@.len() implies (#[trigger] all@[j]).wf() by {
                assert(sessions@.peers[j].1.ui_handler.wf());
            }
        }
    }
    all
}

/// Whether there is a connection of the given type with a session of the user interface.
pub fn has_sessions_running(sessions: &Sessions, conn_type: ConnType) -> (running: bool)
    ensures
        running == exists|i: int|
            0 <= i < sessions@.peers.len() && (#[trigger] sessions@.peers[i]).0.conn_type
                == conn_type && sessions@.peers[i].1.ui_handler.session_handlers.len() > 0,
{
    let mut i: usize = 0;
    while i < sessions.peers.len()
        invariant
            i <= sessions@.peers.len(),
            forall|j: int|
                0 <= j < i ==> !((#[trigger] sessions@.peers[j]).0.conn_type == conn_type
                    && sessions@.peers[j].1.ui_handler.session_handlers.len() > 0),
        decreases sessions@.peers.len() - i,
    {
        if sessions.peers.key_at(i).conn_type == conn_type && sessions.peers.value_at(
            i,
        ).ui_handler.session_handlers.len() != 0 {
            assert(sessions@.peers[i as int].0.conn_type == conn_type);
            return true;
        }
        i += 1;
    }
    false
}

/// Whether there is a connection of the given type that stands, with a session of the user
/// interface.
pub fn has_connected_sessions_running(sessions: &Sessions, conn_type: ConnType) -> (running: bool)
    ensures
        running == exists|i: int|
            0 <= i < sessions@.peers.len() && (#[trigger] sessions@.peers[i]).0.conn_type
                == conn_type && sessions@.peers[i].1.ui_handler.session_handlers.len() > 0
                && sessions@.peers[i].1.connected,
{
    let mut i: usize = 0;
    while i < sessions.peers.len()
        invariant
            i <= sessions@.peers.len(),
            forall|j: int|
                0 <= j < i ==> !((#[trigger] sessions@.peers[j]).0.conn_type == conn_type
                    && sessions@.peers[j].1.ui_handler.session_handlers.len() > 0
                    && sessions@.peers[j].1.connected),
        decreases sessions@.peers.len() - i,
    {
        let session = sessions.peers.value_at(i);
        if sessions.peers.key_at(i).conn_type == conn_type
            && session.ui_handler.session_handlers.len() != 0 && session.connected {
            assert(sessions@.peers[i as int].0.conn_type == conn_type);
            return true;
        }
        i += 1;
    }
    false
}

/// The number of connections that the server is told of; nothing on a phone.
pub fn update_session_count_to_server(platform: Platform, sessions: &Sessions) -> (count: Option<
    usize,
>)
    ensures
        match count {
            Some(n) => !platform.mobile() && n == sessions@.peers.len(),
            None => platform.mobile(),
        },
{
    if platform.is_mobile() {
        None
    } else {
        Some(sessions.peers.len())
    }
}

/// The values of a list, each where it first comes.
pub open spec fn distinct_values(values: Seq<usize>) -> Seq<usize>
    decreases values.len(),
{
    if values.len() == 0 {
        Seq::empty()
    } else {
        with_value(distinct_values(values.drop_last()), values.last())
    }
}

/// A list with a value, which is added at the end where it is new.
pub open spec fn with_value(values: Seq<usize>, value: usize) -> Seq<usize> {
    if values.contains(value) {
        values
    } else {
        values.push(value)
    }
}

/// The displays that a session shows something of.
pub open spec fn rendered_displays(renderer: VideoRendererView) -> Seq<usize> {
    renderer.displays.map_values(|entry: (usize, DisplaySessionInfo)| entry.0)
}

/// The displays that the other sessions show something of, one session after the other.
pub open spec fn displays_of_others(
    handlers: Seq<(SessionID, SessionHandlerView)>,
    id: SessionID,
) -> Seq<usize>
    decreases handlers.len(),
{
    if handlers.len() == 0 {
        Seq::empty()
    } else {
        let before = displays_of_others(handlers.drop_last(), id);
        if handlers.last().0 == id {
            before
        } else {
            before + rendered_displays(handlers.last().1.renderer)
        }
    }
}

/// The displays that are still needed: the current one of a session, where it has one, and those of
/// the other sessions.
pub open spec fn remaining_displays(
    current: Option<usize>,
    id: SessionID,
    handlers: Seq<(SessionID, SessionHandlerView)>,
) -> Seq<usize> {
    let own = match current {
        Some(display) => seq![display],
        None => Seq::empty(),
    };
    distinct_values(own + displays_of_others(handlers, id))
}

/// The numbers by which the peer knows displays.
pub open spec fn display_numbers(displays: Seq<usize>) -> Seq<i32> {
    displays.map_values(|display: usize| display as i32)
}

/// The displays behind the numbers that the user interface uses.
pub open spec fn display_indexes(numbers: Seq<i32>) -> Seq<usize> {
    numbers.map_values(|n: i32| n as usize)
}

/// Adds the displays of a renderer to a list, each where it is new.
fn add_displays(values: &mut Vec<usize>, renderer: &crate::renderer::VideoRenderer, sofar: Ghost<
    Seq<usize>,
>)
    requires
        old(values)@ == distinct_values(sofar@),
    ensures
        final(values)@ == distinct_values(sofar@ + rendered_displays(renderer@)),
{
    let ghost shown = rendered_displays(renderer@);
    let mut i: usize = 0;
    assert(sofar@ + shown.take(0) =~= sofar@);
    while i < renderer.map_display_sessions.len()
        invariant
            i <= shown.len(),
            shown == rendered_displays(renderer@),
            values@ == distinct_values(sofar@ + shown.take(i as int)),
        decreases shown.len() - i,
    {
        let display = *renderer.map_display_sessions.key_at(i);
        assert((sofar@ + shown.take(i + 1)).drop_last() =~= sofar@ + shown.take(i as int));
        if !crate::handler::holds_display(values, display) {
            values.push(display);
        }
        i += 1;
    }
    assert(shown.take(shown.len() as int) =~= shown);
}

/// The displays that the peer has to capture from now on, where there are any: those that are still
/// needed once a session shows something else or nothing.
pub fn check_remove_unused_displays(
    current: Option<usize>,
    session_id: &SessionID,
    handlers: &Table<SessionID, SessionHandler>,
) -> (captured: Option<Vec<i32>>)
    ensures
        match captured {
            Some(list) => list@.len() > 0 && list@ == display_numbers(
                remaining_displays(current, *session_id, handlers@),
            ),
            None => remaining_displays(current, *session_id, handlers@).len() == 0,
        },
{
    let mut values: Vec<usize> = Vec::new();
    let ghost own = match current {
        Some(display) => seq![display],
        None => Seq::<usize>::empty(),
    };
    if let Some(display) = current {
        values.push(display);
        assert(own.drop_last() =~= Seq::empty());
        assert(distinct_values(own.drop_last()) =~= Seq::empty());
    }
    assert(values@ =~= distinct_values(own));
    let mut i: usize = 0;
    assert(handlers@.take(0) =~= Seq::empty());
    assert(own + displays_of_others(handlers@.take(0), *session_id) =~= own);
    while i < handlers.len()
        invariant
            i <= handlers@.len(),
            values@ == distinct_values(
                own + displays_of_others(handlers@.take(i as int), *session_id),
            ),
        decreases handlers@.len() - i,
    {
        let ghost before = displays_of_others(handlers@.take(i as int), *session_id);
        assert(handlers@.take(i + 1).drop_last() =~= handlers@.take(i as int));
        if *handlers.key_at(i) != *session_id {
            let renderer = &handlers.value_at(i).renderer;
            add_displays(&mut values, renderer, Ghost(own + before));
            assert(own + (before + rendered_displays(renderer@)) =~= (own + before)
                + rendered_displays(renderer@));
        }
        i += 1;
    }
    assert(handlers@.take(handlers@.len() as int) =~= handlers@);
    if values.len() == 0 {
        return None;
    }
    let mut list: Vec<i32> = Vec::new();
    let ghost goal = display_numbers(values@);
    let mut k: usize = 0;
    while k < values.len()
        invariant
            k <= values@.len(),
            goal == display_numbers(values@),
            list@ == goal.take(k as int),
        decreases values@.len() - k,
    {
        list.push(values[k] as i32);
        assert(goal.take(k + 1) =~= goal.take(k as int).push(goal[k as int]));
        k += 1;
    }
    assert(goal.take(goal.len() as int) =~= goal);
    Some(list)
}

/// What is left of a connection, or of its sessions, once a session of the user interface is gone.
pub struct Removal {
    /// The connection, where the session was its last one.
    pub session: Option<FlutterSession>,
    /// The peer that captures fewer displays now, and the displays that it has to capture.
    pub capture: Option<(PeerKey, Vec<i32>)>,
}

impl Removal {
    /// What the removal of a session comes to.
    pub open spec fn parts(self) -> (
        Option<FlutterSessionView>,
        Option<(PeerKeyView, Seq<i32>)>,
    ) {
        (
            match self.session {
                Some(session) => Some(session@),
                None => None,
            },
            match self.capture {
                Some(capture) => Some((capture.0@, capture.1@)),
                None => None,
            },
        )
    }
}

impl SessionsView {
    /// The sessions that are left of a connection without the session `id`.
    pub open spec fn others(self, id: SessionID) -> Seq<(SessionID, SessionHandlerView)> {
        match self.session(id) {
            Some(session) => without(session.ui_handler.session_handlers, id),
            None => Seq::empty(),
        }
    }

    /// Whether the connection of a session has no other session.
    pub open spec fn is_last(self, id: SessionID) -> bool {
        self.session(id) is Some && self.others(id).len() == 0
    }

    /// The connections without a session of the user interface. A connection goes with its last
    /// session.
    pub open spec fn removed(self, id: SessionID) -> SessionsView {
        match self.session(id) {
            Some(session) => if self.is_last(id) {
                SessionsView { peers: self.peers.remove(holder(self.peers, id).unwrap()) }
            } else {
                self.with_session(id, session.with_handlers(self.others(id)))
            },
            None => self,
        }
    }

    /// What the removal of a session comes to: the connection that goes, or what its peer has to
    /// capture for the others.
    pub open spec fn removal(self, id: SessionID) -> (
        Option<FlutterSessionView>,
        Option<(PeerKeyView, Seq<i32>)>,
    ) {
        match self.session(id) {
            Some(session) => if self.is_last(id) {
                (Some(session.with_handlers(Seq::empty())), None)
            } else {
                let remaining = remaining_displays(None, id, self.others(id));
                (
                    None,
                    if remaining.len() > 0 {
                        Some(
                            (
                                self.peers[holder(self.peers, id).unwrap()].0,
                                display_numbers(remaining),
                            ),
                        )
                    } else {
                        None
                    },
                )
            },
            None => (None, None),
        }
    }
}

proof fn lemma_without_handlers_wf(session: FlutterSessionView, id: SessionID)
    requires
        session.ui_handler.wf(),
    ensures
        session.with_handlers(
            without(session.ui_handler.session_handlers, id),
        ).ui_handler.wf(),
{
    let handlers = session.ui_handler.session_handlers;
    let rest = without(handlers, id);
    lemma_without_distinct(handlers, id);
    assert forall|i: int| 0 <= i < rest.len() implies (#[trigger] rest[i]).1.renderer.wf() by {
        lemma_without_kept(handlers, id, i);
        let j = choose|j: int| 0 <= j < handlers.len() && handlers[j] == rest[i];
        assert(handlers[j].1.renderer.wf());
    }
}

/// Takes a session of the user interface from its connection. The last one takes the connection
/// with it.
pub fn remove_session_by_session_id(sessions: &mut Sessions, id: &SessionID) -> (removal: Removal)
    requires
        old(sessions).wf(),
    ensures
        final(sessions)@ == old(sessions)@.removed(*id),
        removal.parts() == old(sessions)@.removal(*id),
        final(sessions).wf(),
{
    let i = match sessions.holder(id) {
        Some(i) => i,
        None => return Removal { session: None, capture: None },
    };
    let ghost before = sessions@;
    let ghost session = before.peers[i as int].1;
    let ghost rest = without(session.ui_handler.session_handlers, *id);
    assert(session.ui_handler.wf());
    proof {
        lemma_without_handlers_wf(session, *id);
    }
    sessions.peers.value_at_mut(i).ui_handler.session_handlers.remove(id);
    assert(sessions@.peers[i as int].1 == session.with_handlers(rest));
    let left = sessions.peers.value_at(i);
    let captured = check_remove_unused_displays(None, id, &left.ui_handler.session_handlers);
    let key = sessions.peers.key_at(i);
    let peer = PeerKey { peer_id: key.peer_id.clone(), conn_type: key.conn_type };
    if left.ui_handler.session_handlers.is_empty() {
        proof {
            lemma_without_at(sessions@.peers, i as int);
            lemma_lookup_at(sessions@.peers, i as int);
            assert(sessions@.peers.remove(i as int) =~= before.peers.remove(i as int));
            assert(rest =~= Seq::empty());
        }
        let session = sessions.peers.remove(&peer);
        return Removal { session, capture: None };
    }
    match captured {
        Some(list) => Removal { session: None, capture: Some((peer, list)) },
        None => Removal { session: None, capture: None },
    }
}

/// Whether taking a session from its connection would take the connection too.
pub fn would_remove_peer_by_session_id(sessions: &Sessions, id: &SessionID) -> (last: bool)
    requires
        sessions.wf(),
    ensures
        last == sessions@.is_last(*id),
{
    match sessions.holder(id) {
        Some(i) => {
            let ghost handlers = sessions@.peers[i as int].1.ui_handler.session_handlers;
            proof {
                assert(sessions@.peers[i as int].1.ui_handler.wf());
                lemma_without_distinct(handlers, *id);
            }
            sessions.peers.value_at(i).ui_handler.session_handlers.len() == 1
        },
        None => false,
    }
}

/// What the peer is asked for.
pub enum SessionAction {
    /// To show a display.
    SwitchDisplay(i32),
    /// To capture these displays and no others.
    CaptureDisplays(Vec<i32>),
    /// To send a whole picture of a display.
    RefreshVideo(i32),
}

/// What a request to the peer is.
pub enum ActionView {
    SwitchDisplay(i32),
    CaptureDisplays(Seq<i32>),
    RefreshVideo(i32),
}

impl View for SessionAction {
    type V = ActionView;

    open spec fn view(&self) -> ActionView {
        match *self {
            SessionAction::SwitchDisplay(display) => ActionView::SwitchDisplay(display),
            SessionAction::CaptureDisplays(displays) => ActionView::CaptureDisplays(displays@),
            SessionAction::RefreshVideo(display) => ActionView::RefreshVideo(display),
        }
    }
}

/// What a list of requests is.
pub open spec fn requested(actions: Seq<SessionAction>) -> Seq<ActionView> {
    actions.map_values(|action: SessionAction| action@)
}

impl SessionsView {
    /// The connections once a session of the user interface shows other displays. The last frame of
    /// a display that is shown alone may be replaced.
    pub open spec fn switched(self, id: SessionID, value: Seq<i32>) -> SessionsView {
        match self.session(id) {
            Some(session) => {
                let handler = lookup(session.ui_handler.session_handlers, id).unwrap();
                let shown = session.with_handler(
                    id,
                    SessionHandlerView { displays: display_indexes(value), ..handler },
                );
                self.with_session(
                    id,
                    if value.len() == 1 {
                        FlutterSessionView {
                            ui_handler: shown.ui_handler.next_rgba(value[0] as usize),
                            ..shown
                        }
                    } else {
                        shown
                    },
                )
            },
            None => self,
        }
    }

    /// What the peer is asked for when a session of the user interface shows other displays: on a
    /// phone to show and capture them; on a computer to capture what the other sessions need too.
    pub open spec fn switch_capture(
        self,
        is_desktop: bool,
        id: SessionID,
        value: Seq<i32>,
    ) -> Seq<ActionView> {
        if value.len() == 1 {
            seq![
                ActionView::SwitchDisplay(value[0]),
                ActionView::CaptureDisplays(
                    if is_desktop {
                        display_numbers(
                            remaining_displays(
                                Some(value[0] as usize),
                                id,
                                self.session(id).unwrap().ui_handler.session_handlers,
                            ),
                        )
                    } else {
                        value
                    },
                ),
            ]
        } else {
            seq![ActionView::CaptureDisplays(value)]
        }
    }
}

/// Whole pictures of the displays.
pub open spec fn refreshed(value: Seq<i32>) -> Seq<ActionView> {
    value.map_values(|display: i32| ActionView::RefreshVideo(display))
}

/// The displays behind the numbers that the user interface uses.
fn indexes_of(numbers: &Vec<i32>) -> (displays: Vec<usize>)
    ensures
        displays@ == display_indexes(numbers@),
{
    let mut displays: Vec<usize> = Vec::new();
    let ghost goal = display_indexes(numbers@);
    let mut i: usize = 0;
    while i < numbers.len()
        invariant
            i <= numbers@.len(),
            goal == display_indexes(numbers@),
            displays@ == goal.take(i as int),
        decreases numbers@.len() - i,
    {
        displays.push(numbers[i] as usize);
        assert(goal.take(i + 1) =~= goal.take(i as int).push(goal[i as int]));
        i += 1;
    }
    assert(goal.take(goal.len() as int) =~= goal);
    displays
}

/// Changing what a session shows changes nothing in what the others need.
proof fn lemma_others_stay(
    handlers: Seq<(SessionID, SessionHandlerView)>,
    id: SessionID,
    handler: SessionHandlerView,
)
    requires
        lookup(handlers, id) is Some,
    ensures
        displays_of_others(put(handlers, id, handler), id) == displays_of_others(handlers, id),
    decreases handlers.len(),
{
    let after = put(handlers, id, handler);
    if handlers.last().0 == id {
        assert(after.drop_last() =~= handlers.drop_last());
    } else {
        lemma_others_stay(handlers.drop_last(), id, handler);
        assert(after.drop_last() =~= put(handlers.drop_last(), id, handler));
    }
}

proof fn lemma_distinct_nonempty(values: Seq<usize>)
    ensures
        values.len() > 0 ==> distinct_values(values).len() > 0,
    decreases values.len(),
{
    if values.len() > 1 {
        lemma_distinct_nonempty(values.drop_last());
    } else if values.len() == 1 {
        assert(distinct_values(values.drop_last()) =~= Seq::empty());
    }
}

/// Changes the displays that a session of the user interface shows, and says what the peer is asked
/// for. `multi_ui` says whether a peer of this version serves several user interfaces; such a one
/// is also asked for whole pictures, though not by a phone.
pub fn session_switch_display(
    platform: Platform,
    sessions: &mut Sessions,
    is_desktop: bool,
    session_id: SessionID,
    value: Vec<i32>,
    multi_ui: bool,
) -> (actions: Vec<SessionAction>)
    requires
        old(sessions).wf(),
    ensures
        final(sessions)@ == old(sessions)@.switched(session_id, value@),
        final(sessions).wf(),
        requested(actions@) == if old(sessions)@.session(session_id) is Some {
            old(sessions)@.switch_capture(is_desktop, session_id, value@) + if multi_ui
                && !platform.mobile() {
                refreshed(value@)
            } else {
                Seq::empty()
            }
        } else {
            Seq::empty()
        },
{
    let mut actions: Vec<SessionAction> = Vec::new();
    assert(requested(actions@) =~= Seq::empty());
    let i = match sessions.holder(&session_id) {
        Some(i) => i,
        None => return actions,
    };
    let ghost before = sessions@;
    let ghost session = before.peers[i as int].1;
    let ghost handlers = session.ui_handler.session_handlers;
    let ghost handler = lookup(handlers, session_id).unwrap();
    let ghost after = SessionHandlerView { displays: display_indexes(value@), ..handler };
    proof {
        assert(session.ui_handler.wf());
        lemma_lookup_absent(handlers, session_id);
        let k = choose|k: int| 0 <= k < handlers.len() && (#[trigger] handlers[k]).0 == session_id;
        lemma_lookup_at(handlers, k);
        assert(handler.renderer.wf());
        lemma_with_handler(session, session_id, after);
        lemma_others_stay(handlers, session_id, after);
        let shown = session.with_handler(session_id, after);
        lemma_with_session(before, session_id, shown);
        if value@.len() == 1 {
            let read = shown.ui_handler.next_rgba(value@[0] as usize);
            if let Some(rgba) = lookup(shown.ui_handler.display_rgbas, value@[0] as usize) {
                lemma_put_distinct(
                    shown.ui_handler.display_rgbas,
                    value@[0] as usize,
                    crate::handler::RgbaView { valid: false, ..rgba },
                );
            }
            lemma_with_session(
                before,
                session_id,
                FlutterSessionView { ui_handler: read, ..shown },
            );
        }
    }
    let shared = sessions.peers.value_at_mut(i);
    let displays = indexes_of(&value);
    if let Some(h) = shared.ui_handler.session_handlers.get_mut(&session_id) {
        h.displays = displays;
    }
    if value.len() == 1 {
        let display: usize = value[0] as usize;
        actions.push(SessionAction::SwitchDisplay(value[0]));
        shared.ui_handler.next_rgba(display);
        if is_desktop {
            proof {
                let own = seq![display] + displays_of_others(handlers, session_id);
                lemma_distinct_nonempty(own);
            }
            if let Some(list) = check_remove_unused_displays(
                Some(display),
                &session_id,
                &shared.ui_handler.session_handlers,
            ) {
                actions.push(SessionAction::CaptureDisplays(list));
            }
        } else {
            actions.push(SessionAction::CaptureDisplays(copy_numbers(&value)));
        }
    } else {
        actions.push(SessionAction::CaptureDisplays(copy_numbers(&value)));
    }
    let ghost captured = before.switch_capture(is_desktop, session_id, value@);
    assert(requested(actions@) =~= captured);
    if multi_ui && !platform.is_mobile() {
        let ghost goal = refreshed(value@);
        assert(requested(actions@) =~= captured + goal.take(0));
        let mut k: usize = 0;
        while k < value.len()
            invariant
                k <= value@.len(),
                goal == refreshed(value@),
                requested(actions@) == captured + goal.take(k as int),
            decreases value@.len() - k,
        {
            let ghost asked = actions@;
            actions.push(SessionAction::RefreshVideo(value[k]));
            assert(requested(actions@) =~= requested(asked).push(goal[k as int]));
            assert(goal.take(k + 1) =~= goal.take(k as int).push(goal[k as int]));
            assert(captured + goal.take(k + 1) =~= (captured + goal.take(k as int)).push(
                goal[k as int],
            ));
            k += 1;
        }
        assert(goal.take(goal.len() as int) =~= goal);
    } else {
        assert(captured + Seq::<ActionView>::empty() =~= captured);
    }
    actions
}

/// A copy of a list of numbers.
fn copy_numbers(numbers: &Vec<i32>) -> (copy: Vec<i32>)
    ensures
        copy@ == numbers@,
{
    let copy = numbers.clone();
    assert(copy@ =~= numbers@);
    copy
}

impl SessionsView {
    /// The connections with a session of the user interface on the connection to a peer; it is made
    /// where there is none yet.
    pub open spec fn inserted(
        self,
        key: PeerKeyView,
        id: SessionID,
        session: FlutterSessionView,
    ) -> SessionsView {
        let shared = match lookup(self.peers, key) {
            Some(known) => known,
            None => session,
        };
        SessionsView {
            peers: put(self.peers, key, shared.with_handler(id, SessionHandlerView::empty())),
        }
    }

    /// The connections with a further session of the user interface on a connection, which shows
    /// `displays`. The last frame of a display that is shown alone may be replaced.
    pub open spec fn joined(
        self,
        key: PeerKeyView,
        id: SessionID,
        displays: Seq<i32>,
        multi_ui: bool,
    ) -> SessionsView {
        match lookup(self.peers, key) {
            Some(session) => {
                let shared = session.with_handler(id, joining(displays, multi_ui));
                SessionsView {
                    peers: put(
                        self.peers,
                        key,
                        if displays.len() == 1 {
                            FlutterSessionView {
                                ui_handler: shared.ui_handler.next_rgba(displays[0] as usize),
                                ..shared
                            }
                        } else {
                            shared
                        },
                    ),
                }
            },
            None => self,
        }
    }
}

/// A session of the user interface that joins a connection.
pub open spec fn joining(displays: Seq<i32>, multi_ui: bool) -> SessionHandlerView {
    SessionHandlerView {
        displays: display_indexes(displays),
        renderer: VideoRendererView {
            is_support_multi_ui_session: multi_ui,
            ..VideoRendererView::empty()
        },
        ..SessionHandlerView::empty()
    }
}

/// Storing a connection that is in order keeps the others in order.
proof fn lemma_put_session(sessions: SessionsView, key: PeerKeyView, session: FlutterSessionView)
    requires
        sessions.wf(),
        session.ui_handler.wf(),
    ensures
        (SessionsView { peers: put(sessions.peers, key, session) }).wf(),
{
    let peers = sessions.peers;
    lemma_put_distinct(peers, key, session);
    lemma_lookup_absent(peers, key);
    if lookup(peers, key) is Some {
        let i = choose|i: int| 0 <= i < peers.len() && (#[trigger] peers[i]).0 == key;
        lemma_put_at(peers, i, session);
    } else {
        lemma_put_new(peers, key, session);
    }
}

/// A connection that is found is in order.
proof fn lemma_found_wf(sessions: SessionsView, key: PeerKeyView)
    requires
        sessions.wf(),
        lookup(sessions.peers, key) is Some,
    ensures
        lookup(sessions.peers, key).unwrap().ui_handler.wf(),
{
    lemma_lookup_absent(sessions.peers, key);
    let i = choose|i: int|
        0 <= i < sessions.peers.len() && (#[trigger] sessions.peers[i]).0 == key;
    lemma_lookup_at(sessions.peers, i);
}

/// Adds a session of the user interface to the connection to a peer. Where there is none yet,
/// `session` becomes it; else `session` is handed back.
pub fn insert_session(
    sessions: &mut Sessions,
    session_id: SessionID,
    conn_type: ConnType,
    session: FlutterSession,
) -> (unused: Option<FlutterSession>)
    requires
        old(sessions).wf(),
        session.wf(),
    ensures
        final(sessions)@ == old(sessions)@.inserted(
            (PeerKeyView { peer_id: session@.lc.id, conn_type }),
            session_id,
            session@,
        ),
        final(sessions).wf(),
        match unused {
            Some(back) => back == session,
            None => true,
        },
        unused is Some == (lookup(
            old(sessions)@.peers,
            (PeerKeyView { peer_id: session@.lc.id, conn_type }),
        ) is Some),
{
    let key = PeerKey { peer_id: session.lc.id.clone(), conn_type };
    let ghost before = sessions@;
    let ghost view = key@;
    let handler = SessionHandler::new();
    proof {
        let shared = match lookup(before.peers, view) {
            Some(known) => known,
            None => session@,
        };
        if lookup(before.peers, view) is Some {
            lemma_found_wf(before, view);
        }
        lemma_with_handler(shared, session_id, SessionHandlerView::empty());
        lemma_put_session(
            before,
            view,
            shared.with_handler(session_id, SessionHandlerView::empty()),
        );
    }
    match sessions.peers.get_mut(&key) {
        Some(shared) => {
            shared.ui_handler.session_handlers.insert(session_id, handler);
            Some(session)
        },
        None => {
            let mut fresh = session;
            fresh.ui_handler.session_handlers.insert(session_id, handler);
            sessions.peers.insert(key, fresh);
            None
        },
    }
}

/// Adds a further session of the user interface to a connection that stands; says whether there is
/// one. `multi_ui` says whether a peer of this version serves several user interfaces; a phone
/// never has several.
pub fn insert_peer_session_id(
    platform: Platform,
    sessions: &mut Sessions,
    peer_id: String,
    conn_type: ConnType,
    session_id: SessionID,
    displays: Vec<i32>,
    multi_ui: bool,
) -> (found: bool)
    requires
        old(sessions).wf(),
    ensures
        found == (lookup(
            old(sessions)@.peers,
            (PeerKeyView { peer_id: peer_id@, conn_type }),
        ) is Some),
        final(sessions)@ == old(sessions)@.joined(
            (PeerKeyView { peer_id: peer_id@, conn_type }),
            session_id,
            displays@,
            multi_ui && !platform.mobile(),
        ),
        final(sessions).wf(),
{
    let key = PeerKey { peer_id, conn_type };
    let multi_ui = multi_ui && !platform.is_mobile();
    let ghost before = sessions@;
    let ghost view = key@;
    let mut handler = SessionHandler::new();
    handler.displays = indexes_of(&displays);
    handler.renderer.is_support_multi_ui_session = multi_ui;
    assert(handler@ == joining(displays@, multi_ui));
    proof {
        if let Some(session) = lookup(before.peers, view) {
            lemma_found_wf(before, view);
            let shared = session.with_handler(session_id, handler@);
            lemma_with_handler(session, session_id, handler@);
            lemma_put_session(before, view, shared);
            if displays@.len() == 1 {
                let d = displays@[0] as usize;
                if let Some(rgba) = lookup(shared.ui_handler.display_rgbas, d) {
                    lemma_put_distinct(
                        shared.ui_handler.display_rgbas,
                        d,
                        crate::handler::RgbaView { valid: false, ..rgba },
                    );
                }
                lemma_put_session(
                    before,
                    view,
                    FlutterSessionView { ui_handler: shared.ui_handler.next_rgba(d), ..shared },
                );
            }
        }
    }
    match sessions.peers.get_mut(&key) {
        Some(shared) => {
            shared.ui_handler.session_handlers.insert(session_id, handler);
            if displays.len() == 1 {
                shared.ui_handler.next_rgba(displays[0] as usize);
            }
            true
        },
        None => false,
    }
}

/// A removal is the connection that goes, and the peer with the displays that it captures.
pub proof fn lemma_removal_parts(removal: Removal)
    ensures
        match removal.session {
            Some(session) => removal.parts().0 == Some(session@),
            None => removal.parts().0 is None,
        },
        match removal.capture {
            Some((peer, list)) => removal.parts().1 == Some((peer@, list@)),
            None => removal.parts().1 is None,
        },
{
}

}
