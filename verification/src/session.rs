//! A connection to a peer, and the peers that are connected to.

use crate::handler::{FlutterHandler, FlutterHandlerView, SessionHandlerView};
use crate::message::{ConnType, SessionID};
use crate::table::{distinct_keys, lemma_lookup_put, lemma_put_distinct, lookup, put, Key, Table};
use crate::text::opt_text;
use vstd::prelude::*;

verus! {

/// How a peer is connected to.
pub struct LoginConfig {
    pub id: String,
    pub conn_type: ConnType,
    /// The invitation of a peer that changes roles.
    pub switch_uuid: Option<String>,
    pub force_relay: bool,
    /// The graphics card that textures are made on.
    pub adapter_luid: Option<i64>,
    pub shared_password: Option<String>,
    pub conn_token: Option<String>,
    pub view_only: bool,
}

/// What the configuration of a connection is.
pub struct LoginConfigView {
    pub id: Seq<char>,
    pub conn_type: ConnType,
    pub switch_uuid: Option<Seq<char>>,
    pub force_relay: bool,
    pub adapter_luid: Option<i64>,
    pub shared_password: Option<Seq<char>>,
    pub conn_token: Option<Seq<char>>,
    pub view_only: bool,
}

impl View for LoginConfig {
    type V = LoginConfigView;

    open spec fn view(&self) -> LoginConfigView {
        LoginConfigView {
            id: self.id@,
            conn_type: self.conn_type,
            switch_uuid: opt_text(self.switch_uuid),
            force_relay: self.force_relay,
            adapter_luid: self.adapter_luid,
            shared_password: opt_text(self.shared_password),
            conn_token: opt_text(self.conn_token),
            view_only: self.view_only,
        }
    }
}

/// A connection to a peer, with the sessions of the user interface that share it.
pub struct FlutterSession {
    pub ui_handler: FlutterHandler,
    pub lc: LoginConfig,
    pub password: String,
    pub server_keyboard_enabled: bool,
    pub server_file_transfer_enabled: bool,
    pub server_clipboard_enabled: bool,
    pub reconnect_count: usize,
    /// Whether the current round of the connection stands.
    pub connected: bool,
}

/// What a connection to a peer is.
pub struct FlutterSessionView {
    pub ui_handler: FlutterHandlerView,
    pub lc: LoginConfigView,
    pub password: Seq<char>,
    pub server_keyboard_enabled: bool,
    pub server_file_transfer_enabled: bool,
    pub server_clipboard_enabled: bool,
    pub reconnect_count: usize,
    pub connected: bool,
}

impl View for FlutterSession {
    type V = FlutterSessionView;

    open spec fn view(&self) -> FlutterSessionView {
        FlutterSessionView {
            ui_handler: self.ui_handler@,
            lc: self.lc@,
            password: self.password@,
            server_keyboard_enabled: self.server_keyboard_enabled,
            server_file_transfer_enabled: self.server_file_transfer_enabled,
            server_clipboard_enabled: self.server_clipboard_enabled,
            reconnect_count: self.reconnect_count,
            connected: self.connected,
        }
    }
}

impl FlutterSessionView {
    /// Whether a session of the user interface shares the connection.
    pub open spec fn has(self, id: SessionID) -> bool {
        lookup(self.ui_handler.session_handlers, id) is Some
    }

    /// The connection with other sessions of the user interface.
    pub open spec fn with_handlers(
        self,
        session_handlers: Seq<(SessionID, SessionHandlerView)>,
    ) -> FlutterSessionView {
        FlutterSessionView {
            ui_handler: FlutterHandlerView { session_handlers, ..self.ui_handler },
            ..self
        }
    }

    /// The connection with the session `id` of the user interface as given.
    pub open spec fn with_handler(
        self,
        id: SessionID,
        handler: SessionHandlerView,
    ) -> FlutterSessionView {
        self.with_handlers(put(self.ui_handler.session_handlers, id, handler))
    }
}

impl FlutterSession {
    pub open spec fn wf(&self) -> bool {
        self.ui_handler.wf()
    }

    /// Whether the connection is one to control the peer.
    pub fn is_default(&self) -> (yes: bool)
        ensures
            yes == (self@.lc.conn_type == ConnType::DEFAULT_CONN),
    {
        match self.lc.conn_type {
            ConnType::DEFAULT_CONN => true,
            _ => false,
        }
    }
}

/// Peers are told apart by their id and by what the connection is for.
pub struct PeerKey {
    pub peer_id: String,
    pub conn_type: ConnType,
}

/// What tells two connections apart.
pub struct PeerKeyView {
    pub peer_id: Seq<char>,
    pub conn_type: ConnType,
}

impl View for PeerKey {
    type V = PeerKeyView;

    open spec fn view(&self) -> PeerKeyView {
        PeerKeyView { peer_id: self.peer_id@, conn_type: self.conn_type }
    }
}

impl Key for PeerKey {
    fn same(&self, other: &Self) -> (r: bool) {
        self.peer_id == other.peer_id && self.conn_type == other.conn_type
    }
}

/// The connections to peers.
pub struct Sessions {
    pub peers: Table<PeerKey, FlutterSession>,
}

/// What the connections to peers are.
pub struct SessionsView {
    pub peers: Seq<(PeerKeyView, FlutterSessionView)>,
}

impl View for Sessions {
    type V = SessionsView;

    open spec fn view(&self) -> SessionsView {
        SessionsView { peers: self.peers@ }
    }
}

/// Which connection a session of the user interface shares: the first one that has it.
pub open spec fn holder(peers: Seq<(PeerKeyView, FlutterSessionView)>, id: SessionID) -> Option<int>
    decreases peers.len(),
{
    if peers.len() == 0 {
        None
    } else {
        match holder(peers.drop_last(), id) {
            Some(i) => Some(i),
            None => if peers.last().1.has(id) {
                Some(peers.len() - 1)
            } else {
                None
            },
        }
    }
}

impl SessionsView {
    /// Peers are distinct, and every connection is in order.
    pub open spec fn wf(self) -> bool {
        &&& distinct_keys(self.peers)
        &&& forall|i: int|
            0 <= i < self.peers.len() ==> (#[trigger] self.peers[i]).1.ui_handler.wf()
    }

    /// The connection that a session of the user interface shares.
    pub open spec fn session(self, id: SessionID) -> Option<FlutterSessionView> {
        match holder(self.peers, id) {
            Some(i) => Some(self.peers[i].1),
            None => None,
        }
    }

    /// A session of the user interface.
    pub open spec fn handler(self, id: SessionID) -> Option<SessionHandlerView> {
        match self.session(id) {
            Some(session) => lookup(session.ui_handler.session_handlers, id),
            None => None,
        }
    }

    /// The connections with that of a session of the user interface as given.
    pub open spec fn with_session(
        self,
        id: SessionID,
        session: FlutterSessionView,
    ) -> SessionsView {
        match holder(self.peers, id) {
            Some(i) => SessionsView { peers: self.peers.update(i, (self.peers[i].0, session)) },
            None => self,
        }
    }

    /// The connections with a session of the user interface as given.
    pub open spec fn with_handler(self, id: SessionID, handler: SessionHandlerView) -> SessionsView {
        match self.session(id) {
            Some(session) => self.with_session(id, session.with_handler(id, handler)),
            None => self,
        }
    }
}

/// The holder has the session, and none before it has.
pub proof fn lemma_holder(peers: Seq<(PeerKeyView, FlutterSessionView)>, id: SessionID)
    ensures
        match holder(peers, id) {
            Some(i) => 0 <= i < peers.len() && peers[i].1.has(id) && forall|j: int|
                0 <= j < i ==> !(#[trigger] peers[j]).1.has(id),
            None => forall|j: int| 0 <= j < peers.len() ==> !(#[trigger] peers[j]).1.has(id),
        },
    decreases peers.len(),
{
    if peers.len() > 0 {
        let rest = peers.drop_last();
        lemma_holder(rest, id);
        assert(forall|j: int| 0 <= j < rest.len() ==> rest[j] == peers[j]);
    }
}

/// The first connection that has a session is its holder.
pub proof fn lemma_holder_is(peers: Seq<(PeerKeyView, FlutterSessionView)>, id: SessionID, i: int)
    requires
        0 <= i < peers.len(),
        peers[i].1.has(id),
        forall|j: int| 0 <= j < i ==> !(#[trigger] peers[j]).1.has(id),
    ensures
        holder(peers, id) == Some(i),
{
    lemma_holder(peers, id);
    assert(peers[i].1.has(id));
}

/// Changing the connection of a session in a way that keeps the session keeps its holder.
pub proof fn lemma_with_session(sessions: SessionsView, id: SessionID, session: FlutterSessionView)
    requires
        sessions.wf(),
        sessions.session(id) is Some,
        session.has(id),
        session.ui_handler.wf(),
    ensures
        sessions.with_session(id, session).wf(),
        sessions.with_session(id, session).session(id) == Some(session),
{
    lemma_holder(sessions.peers, id);
    let i = holder(sessions.peers, id).unwrap();
    let after = sessions.with_session(id, session);
    assert forall|j: int| 0 <= j < i implies !(#[trigger] after.peers[j]).1.has(id) by {
        assert(after.peers[j] == sessions.peers[j]);
    }
    lemma_holder_is(after.peers, id, i);
}

/// Storing a session of the user interface keeps a connection in order.
pub proof fn lemma_with_handler(
    session: FlutterSessionView,
    id: SessionID,
    handler: SessionHandlerView,
)
    requires
        session.ui_handler.wf(),
        handler.renderer.wf(),
    ensures
        session.with_handler(id, handler).ui_handler.wf(),
        session.with_handler(id, handler).has(id),
        lookup(session.with_handler(id, handler).ui_handler.session_handlers, id) == Some(handler),
{
    let handlers = session.ui_handler.session_handlers;
    lemma_put_distinct(handlers, id, handler);
    lemma_lookup_put(handlers, id, handler, id);
    crate::table::lemma_lookup_absent(handlers, id);
    if lookup(handlers, id) is Some {
        let i = choose|i: int| 0 <= i < handlers.len() && (#[trigger] handlers[i]).0 == id;
        crate::table::lemma_put_at(handlers, i, handler);
    } else {
        crate::table::lemma_put_new(handlers, id, handler);
    }
}

impl Sessions {
    pub open spec fn wf(&self) -> bool {
        self@.wf()
    }

    pub fn new() -> (sessions: Sessions)
        ensures
            sessions@.peers == Seq::<(PeerKeyView, FlutterSessionView)>::empty(),
            sessions.wf(),
    {
        Sessions { peers: Table::new() }
    }

    /// Which connection a session of the user interface shares.
    pub(crate) fn holder(&self, id: &SessionID) -> (index: Option<usize>)
        requires
            self.wf(),
        ensures
            match index {
                Some(i) => holder(self@.peers, *id) == Some(i as int) && i < self@.peers.len()
                    && self@.peers[i as int].1.has(*id),
                None => holder(self@.peers, *id) is None,
            },
    {
        let mut i: usize = 0;
        while i < self.peers.len()
            invariant
                i <= self@.peers.len(),
                self.wf(),
                forall|j: int| 0 <= j < i ==> !(#[trigger] self@.peers[j]).1.has(*id),
            decreases self@.peers.len() - i,
        {
            assert(self@.peers[i as int].1.ui_handler.wf());
            if self.peers.value_at(i).ui_handler.session_handlers.contains_key(id) {
                proof {
                    lemma_holder_is(self@.peers, *id, i as int);
                }
                return Some(i);
            }
            i += 1;
        }
        proof {
            lemma_holder(self@.peers, *id);
        }
        None
    }

    /// A session of the user interface, to be changed in place.
    pub(crate) fn handler_mut(&mut self, id: &SessionID) -> (handler: Option<
        &mut crate::handler::SessionHandler,
    >)
        requires
            old(self).wf(),
        ensures
            match handler {
                Some(h) => {
                    &&& old(self)@.handler(*id) == Some((*h)@)
                    &&& (*h)@.renderer.wf()
                    &&& final(self)@ == old(self)@.with_handler(*id, (*final(h))@)
                    &&& (*final(h))@.renderer.wf() ==> final(self).wf()
                },
                None => {
                    &&& old(self)@.handler(*id) is None
                    &&& final(self)@ == old(self)@
                    &&& final(self).wf()
                },
            },
    {
        match self.holder(id) {
            Some(i) => {
                let ghost before = self@;
                let ghost session = self@.peers[i as int].1;
                assert(session.ui_handler.wf());
                proof {
                    assert forall|h: SessionHandlerView|
                        h.renderer.wf() implies (#[trigger] before.with_handler(
                        *id,
                        h,
                    )).wf() by {
                        lemma_with_handler(session, *id, h);
                        lemma_with_session(before, *id, session.with_handler(*id, h));
                    }
                    let handlers = session.ui_handler.session_handlers;
                    crate::table::lemma_lookup_absent(handlers, *id);
                    let k = choose|k: int|
                        0 <= k < handlers.len() && (#[trigger] handlers[k]).0 == *id;
                    crate::table::lemma_lookup_at(handlers, k);
                }
                self.peers.value_at_mut(i).ui_handler.session_handlers.get_mut(id)
            },
            None => None,
        }
    }
}

}
