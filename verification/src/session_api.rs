//! What the user interface asks of its sessions.

use crate::error::Error;
use crate::handler::{event_text, FlutterHandler, FlutterHandlerView, SessionHandlerView};
use crate::json::{Fields, Json, JsonFields};
use crate::message::{
    delivered, nothing_told, ConnType, Delivery, DisplayInfo, EventView, PeerInfoView, Platform,
    SessionID, StreamId,
};
use crate::renderer::VideoRendererView;
use crate::session::{
    lemma_with_handler, lemma_with_session, FlutterSession, FlutterSessionView, LoginConfig,
    LoginConfigView, PeerKeyView, Sessions, SessionsView,
};
use crate::session_id::{
    lemma_session_id_text_reads_back, parse_session_id, print_session_id, session_id_error,
    session_id_text, session_id_value,
};
use crate::sessions::{
    get_peer_id_by_session_id, get_session_by_session_id, insert_peer_session_id, insert_session,
    peer_of, with_value,
};
use crate::table::{
    lemma_lookup_absent, lemma_lookup_at, lemma_lookup_push, lemma_lookup_put, lemma_put_distinct,
    lookup,
};
use crate::text::{opt_text, same_text};
use vstd::prelude::*;

verus! {

/// What a further session of the user interface is for.
pub open spec fn existing_conn_type(is_view_camera: bool) -> ConnType {
    if is_view_camera {
        ConnType::VIEW_CAMERA
    } else {
        ConnType::DEFAULT_CONN
    }
}

/// Adds a further session of the user interface to the connection to a peer, where there is one.
pub fn session_add_existed(
    platform: Platform,
    sessions: &mut Sessions,
    peer_id: String,
    session_id: SessionID,
    displays: Vec<i32>,
    is_view_camera: bool,
    multi_ui: bool,
) -> (done: Result<(), Error>)
    requires
        old(sessions).wf(),
    ensures
        done is Ok,
        final(sessions)@ == old(sessions)@.joined(
            (PeerKeyView {
                peer_id: peer_id@,
                conn_type: existing_conn_type(is_view_camera),
            }),
            session_id,
            displays@,
            multi_ui && !platform.mobile(),
        ),
        final(sessions).wf(),
{
    let conn_type = if is_view_camera {
        ConnType::VIEW_CAMERA
    } else {
        ConnType::DEFAULT_CONN
    };
    insert_peer_session_id(platform, sessions, peer_id, conn_type, session_id, displays, multi_ui);
    Ok(())
}

/// What a new connection is for. Of several wishes the first in this order counts: files, the
/// camera, a terminal, a port.
pub open spec fn wanted_conn_type(
    is_file_transfer: bool,
    is_view_camera: bool,
    is_port_forward: bool,
    is_rdp: bool,
    is_terminal: bool,
) -> ConnType {
    if is_file_transfer {
        ConnType::FILE_TRANSFER
    } else if is_view_camera {
        ConnType::VIEW_CAMERA
    } else if is_terminal {
        ConnType::TERMINAL
    } else if is_port_forward {
        if is_rdp {
            ConnType::RDP
        } else {
            ConnType::PORT_FORWARD
        }
    } else {
        ConnType::DEFAULT_CONN
    }
}

/// A new connection. A shared password is not a preset one: the order in which passwords are tried
/// differs.
pub open spec fn new_session(
    id: Seq<char>,
    conn_type: ConnType,
    switch_uuid: Seq<char>,
    force_relay: bool,
    password: Seq<char>,
    is_shared_password: bool,
    conn_token: Option<Seq<char>>,
    adapter_luid: Option<i64>,
    use_texture_render: bool,
) -> FlutterSessionView {
    FlutterSessionView {
        ui_handler: FlutterHandlerView {
            session_handlers: Seq::empty(),
            display_rgbas: Seq::empty(),
            peer_info: PeerInfoView::unknown(),
            hooks: Seq::empty(),
            use_texture_render,
        },
        lc: LoginConfigView {
            id,
            conn_type,
            switch_uuid: if switch_uuid.len() == 0 {
                None
            } else {
                Some(switch_uuid)
            },
            force_relay,
            adapter_luid,
            shared_password: if is_shared_password {
                Some(password)
            } else {
                None
            },
            conn_token,
            view_only: false,
        },
        password: if is_shared_password {
            Seq::empty()
        } else {
            password
        },
        server_keyboard_enabled: true,
        server_file_transfer_enabled: true,
        server_clipboard_enabled: true,
        reconnect_count: 0,
        connected: false,
    }
}

/// Adds a session of the user interface for a new connection to the peer `id`. It is refused where
/// the session is there already. The new connection is handed back where the peer has one of this
/// type, which the session then shares.
pub fn session_add(
    sessions: &mut Sessions,
    session_id: &SessionID,
    id: &str,
    is_file_transfer: bool,
    is_view_camera: bool,
    is_port_forward: bool,
    is_rdp: bool,
    is_terminal: bool,
    switch_uuid: &str,
    force_relay: bool,
    password: String,
    is_shared_password: bool,
    conn_token: Option<String>,
    adapter_luid: Option<i64>,
    use_texture_render: bool,
) -> (added: Result<Option<FlutterSession>, Error>)
    requires
        old(sessions).wf(),
    ensures
        final(sessions).wf(),
        ({
            let conn_type = wanted_conn_type(
                is_file_transfer,
                is_view_camera,
                is_port_forward,
                is_rdp,
                is_terminal,
            );
            let session = new_session(
                id@,
                conn_type,
                switch_uuid@,
                force_relay,
                password@,
                is_shared_password,
                opt_text(conn_token),
                adapter_luid,
                use_texture_render,
            );
            let key = PeerKeyView { peer_id: id@, conn_type };
            match old(sessions)@.session(*session_id) {
                Some(known) => {
                    &&& final(sessions)@ == old(sessions)@
                    &&& added matches Err(e) && e@ == if known.lc.conn_type != conn_type {
                        "same session id is found with different conn type?"@
                    } else {
                        "same session id is found"@
                    }
                },
                None => {
                    &&& final(sessions)@ == old(sessions)@.inserted(key, *session_id, session)
                    &&& added matches Ok(unused) && match unused {
                        Some(back) => back@ == session && lookup(old(sessions)@.peers, key) is Some,
                        None => lookup(old(sessions)@.peers, key) is None,
                    }
                },
            }
        }),
{
    let conn_type = if is_file_transfer {
        ConnType::FILE_TRANSFER
    } else if is_view_camera {
        ConnType::VIEW_CAMERA
    } else if is_terminal {
        ConnType::TERMINAL
    } else if is_port_forward {
        if is_rdp {
            ConnType::RDP
        } else {
            ConnType::PORT_FORWARD
        }
    } else {
        ConnType::DEFAULT_CONN
    };
    if let Some(known) = get_session_by_session_id(sessions, session_id) {
        if known.lc.conn_type != conn_type {
            return Err(Error::new("same session id is found with different conn type?"));
        }
        return Err(Error::new("same session id is found"));
    }
    let (preset_password, shared_password) = if is_shared_password {
        (String::new(), Some(password))
    } else {
        (password, None)
    };
    let switch_uuid = if switch_uuid.is_empty() {
        None
    } else {
        Some(switch_uuid.to_owned())
    };
    let session = FlutterSession {
        ui_handler: FlutterHandler::new(use_texture_render),
        lc: LoginConfig {
            id: id.to_owned(),
            conn_type,
            switch_uuid,
            force_relay,
            adapter_luid,
            shared_password,
            conn_token,
            view_only: false,
        },
        password: preset_password,
        server_keyboard_enabled: true,
        server_file_transfer_enabled: true,
        server_clipboard_enabled: true,
        reconnect_count: 0,
        connected: false,
    };
    Ok(insert_session(sessions, *session_id, conn_type, session))
}

/// What the start of a session asks for.
pub struct Start {
    /// The message that ends the stream that the session had, where it had one.
    pub close: Option<Delivery>,
    /// Whether the connection to the peer has to be made.
    pub connect: bool,
}

/// What is said where a session is not there.
pub open spec fn no_session_text(id: Seq<char>, session_id: SessionID) -> Seq<char> {
    "No session with peer id "@ + id + ", session id: "@ + session_id_text(session_id)
}

fn no_session(id: &str, session_id: &SessionID) -> (error: Error)
    ensures
        error@ == no_session_text(id@, *session_id),
{
    let mut message = "No session with peer id ".to_owned();
    message.append(id);
    message.append(", session id: ");
    message.append(print_session_id(*session_id).as_str());
    Error { message }
}

impl SessionsView {
    /// Whether the start of a session makes the connection: it is the only session, and has had no
    /// stream yet.
    pub open spec fn connects(self, id: SessionID) -> bool {
        &&& self.handler(id) matches Some(handler) && handler.event_stream is None
        &&& self.session(id).unwrap().ui_handler.session_handlers.len() == 1
    }

    /// The sessions with a stream for the events of one of them.
    pub open spec fn streaming(self, id: SessionID, stream: StreamId) -> SessionsView {
        match self.handler(id) {
            Some(handler) => self.with_handler(
                id,
                SessionHandlerView { event_stream: Some(stream), ..handler },
            ),
            None => self,
        }
    }
}

/// Starts a session: its events go to `event_stream` from now on.
pub fn session_start_(
    sessions: &mut Sessions,
    session_id: &SessionID,
    id: &str,
    event_stream: StreamId,
) -> (start: Result<Start, Error>)
    requires
        old(sessions).wf(),
    ensures
        final(sessions).wf(),
        final(sessions)@ == old(sessions)@.streaming(*session_id, event_stream),
        match start {
            Ok(start) => {
                &&& old(sessions)@.handler(*session_id) matches Some(handler) && match start.close {
                    Some(delivery) => handler.event_stream == Some(delivery.stream)
                        && delivery@.event == EventView::Event("close"@),
                    None => handler.event_stream is None,
                }
                &&& start.connect == old(sessions)@.connects(*session_id)
            },
            Err(e) => {
                &&& old(sessions)@.handler(*session_id) is None
                &&& e@ == no_session_text(id@, *session_id)
            },
        },
{
    let ui_sessions = match get_session_by_session_id(sessions, session_id) {
        Some(session) => session.ui_handler.session_handlers.len(),
        None => 0,
    };
    match sessions.handler_mut(session_id) {
        Some(handler) => {
            let is_connected = handler.event_stream.is_some();
            let close = crate::handler::try_send_close_event(handler.event_stream);
            handler.event_stream = Some(event_stream);
            Ok(Start { close, connect: !is_connected && ui_sessions == 1 })
        },
        None => Err(no_session(id, session_id)),
    }
}

/// Starts a session that polls: no stream is set, and one that it has is left alone. Says whether
/// the connection to the peer has to be made.
pub fn session_start_headless(sessions: &Sessions, session_id: &SessionID, id: &str) -> (connect:
    Result<bool, Error>)
    requires
        sessions.wf(),
    ensures
        match connect {
            Ok(connect) => {
                &&& sessions@.handler(*session_id) is Some
                &&& connect == sessions@.connects(*session_id)
            },
            Err(e) => {
                &&& sessions@.handler(*session_id) is None
                &&& e@ == no_session_text(id@, *session_id)
            },
        },
{
    match get_session_by_session_id(sessions, session_id) {
        Some(session) => match session.ui_handler.session_handlers.get(session_id) {
            Some(handler) => Ok(
                handler.event_stream.is_none() && session.ui_handler.session_handlers.len() == 1,
            ),
            None => Err(no_session(id, session_id)),
        },
        None => Err(no_session(id, session_id)),
    }
}

/// How many bytes are kept of the last frame of a display.
pub fn session_get_rgba_size(sessions: &Sessions, session_id: SessionID, display: usize) -> (size:
    usize)
    requires
        sessions.wf(),
    ensures
        size == match sessions@.session(session_id) {
            Some(session) => session.ui_handler.kept(display).len(),
            None => 0,
        },
{
    match get_session_by_session_id(sessions, &session_id) {
        Some(session) => match session.ui_handler.display_rgbas.get(&display) {
            Some(rgba) => rgba.data.len(),
            None => 0,
        },
        None => 0,
    }
}

impl SessionsView {
    /// A display of the peer, where it is known.
    pub open spec fn display(self, id: SessionID, display: usize) -> Option<DisplayInfo> {
        match self.session(id) {
            Some(session) => if display < session.ui_handler.peer_info.displays.len() {
                Some(session.ui_handler.peer_info.displays[display as int])
            } else {
                None
            },
            None => None,
        }
    }
}

fn known_display(sessions: &Sessions, session_id: SessionID, display: usize) -> (info: Option<
    DisplayInfo,
>)
    requires
        sessions.wf(),
    ensures
        info == sessions@.display(session_id, display),
{
    match get_session_by_session_id(sessions, &session_id) {
        Some(session) => if display < session.ui_handler.peer_info.displays.len() {
            Some(session.ui_handler.peer_info.displays[display])
        } else {
            None
        },
        None => None,
    }
}

/// The width and height of a display of the peer; zeros while they are not known.
pub fn session_get_display_size(sessions: &Sessions, session_id: SessionID, display: usize) -> (size:
    (i32, i32))
    requires
        sessions.wf(),
    ensures
        size == match sessions@.display(session_id, display) {
            Some(d) => (d.width, d.height),
            None => (0i32, 0i32),
        },
{
    match known_display(sessions, session_id, display) {
        Some(d) => (d.width, d.height),
        None => (0, 0),
    }
}

/// Where a display of the peer lies on the peer's whole desktop; zeros while that is not known.
pub fn session_get_display_origin(
    sessions: &Sessions,
    session_id: SessionID,
    display: usize,
) -> (origin: (i32, i32))
    requires
        sessions.wf(),
    ensures
        origin == match sessions@.display(session_id, display) {
            Some(d) => (d.x, d.y),
            None => (0i32, 0i32),
        },
{
    match known_display(sessions, session_id, display) {
        Some(d) => (d.x, d.y),
        None => (0, 0),
    }
}

/// How many displays the peer has; 0 while that is not known.
pub fn session_get_display_count(sessions: &Sessions, session_id: SessionID) -> (count: i32)
    requires
        sessions.wf(),
    ensures
        count == match sessions@.session(session_id) {
            Some(session) => session.ui_handler.peer_info.displays.len() as i32,
            None => 0,
        },
{
    match get_session_by_session_id(sessions, &session_id) {
        Some(session) => session.ui_handler.peer_info.displays.len() as i32,
        None => 0,
    }
}

/// Whether the peer says that it has a privacy mode.
pub fn session_is_privacy_mode_supported(sessions: &Sessions, session_id: SessionID) -> (supported:
    bool)
    requires
        sessions.wf(),
    ensures
        supported == (sessions@.session(session_id) matches Some(session)
            && session.ui_handler.peer_info.features matches Some(f) && f.privacy_mode),
{
    match get_session_by_session_id(sessions, &session_id) {
        Some(session) => match session.ui_handler.peer_info.features {
            Some(f) => f.privacy_mode,
            None => false,
        },
        None => false,
    }
}

/// Whether a text is in a list.
fn listed(list: &Vec<String>, text: &String) -> (found: bool)
    ensures
        found == crate::text::texts(list@).contains(text@),
{
    let mut i: usize = 0;
    while i < list.len()
        invariant
            i <= list@.len(),
            forall|j: int| 0 <= j < i ==> (#[trigger] list@[j])@ != text@,
        decreases list@.len() - i,
    {
        if list[i] == *text {
            assert(crate::text::texts(list@)[i as int] == text@);
            return true;
        }
        i += 1;
    }
    proof {
        assert forall|j: int| 0 <= j < list@.len() implies crate::text::texts(list@)[j]
            != text@ by {
            assert(list@[j]@ != text@);
        }
    }
    false
}

/// What the rendezvous server says of a peer: 1 where it is online, 0 where it is offline, -1 where
/// the server was not reached or names it in neither list.
pub fn session_is_id_online(id: String, states: Option<(Vec<String>, Vec<String>)>) -> (state: i32)
    ensures
        state == match states {
            Some((onlines, offlines)) => if crate::text::texts(onlines@).contains(id@) {
                1int
            } else if crate::text::texts(offlines@).contains(id@) {
                0
            } else {
                -1
            },
            None => -1,
        },
{
    match states {
        Some((onlines, offlines)) => if listed(&onlines, &id) {
            1
        } else if listed(&offlines, &id) {
            0
        } else {
            -1
        },
        None => -1,
    }
}

/// The session id in a text of the user interface, which may be missing.
pub fn char_to_session_id(c: Option<&str>) -> (id: Result<SessionID, Error>)
    ensures
        match (c, id) {
            (Some(text), Ok(id)) => session_id_value(text@) == Some(id),
            (Some(text), Err(e)) => session_id_value(text@) is None && e@ == session_id_error(
                text@,
            ),
            (None, Ok(_)) => false,
            (None, Err(e)) => e@ == "Session id ptr is null"@,
        },
{
    match c {
        Some(text) => parse_session_id(text),
        None => Err(Error::new("Session id ptr is null")),
    }
}

/// The last frame of a display, while it may be read.
pub fn session_get_rgba<'a>(
    sessions: &'a Sessions,
    session_uuid_str: Option<&str>,
    display: usize,
) -> (frame: Option<&'a Vec<u8>>)
    requires
        sessions.wf(),
    ensures
        match frame {
            Some(data) => Some(data@),
            None => None,
        } == match session_uuid_str {
            Some(text) => match session_id_value(text@) {
                Some(id) => match sessions@.session(id) {
                    Some(session) => session.ui_handler.readable(display),
                    None => None,
                },
                None => None,
            },
            None => None,
        },
{
    match char_to_session_id(session_uuid_str) {
        Ok(id) => match get_session_by_session_id(sessions, &id) {
            Some(session) => session.ui_handler.get_rgba(display),
            None => None,
        },
        Err(_) => None,
    }
}

impl SessionsView {
    /// The sessions once the last frame of a display was read.
    pub open spec fn next_rgba(self, id: SessionID, display: usize) -> SessionsView {
        match self.session(id) {
            Some(session) => self.with_session(
                id,
                FlutterSessionView { ui_handler: session.ui_handler.next_rgba(display), ..session },
            ),
            None => self,
        }
    }

    /// The sessions once one of them knows the size of a display, which it shows from now on.
    pub open spec fn sized(
        self,
        id: SessionID,
        display: usize,
        width: usize,
        height: usize,
    ) -> SessionsView {
        match self.handler(id) {
            Some(handler) => self.with_handler(
                id,
                SessionHandlerView {
                    displays: with_value(handler.displays, display),
                    renderer: handler.renderer.set_size(display, width, height),
                    ..handler
                },
            ),
            None => self,
        }
    }

    /// The sessions once one of them has another renderer.
    pub open spec fn rendering(self, id: SessionID, renderer: VideoRendererView) -> SessionsView {
        match self.handler(id) {
            Some(handler) => self.with_handler(id, SessionHandlerView { renderer, ..handler }),
            None => self,
        }
    }

    /// The renderer of a session; one without displays where there is no such session.
    pub open spec fn renderer(self, id: SessionID) -> VideoRendererView {
        match self.handler(id) {
            Some(handler) => handler.renderer,
            None => VideoRendererView::empty(),
        }
    }
}

/// The last frame of a display was read, and may be replaced.
pub fn session_next_rgba(sessions: &mut Sessions, session_id: SessionID, display: usize)
    requires
        old(sessions).wf(),
    ensures
        final(sessions)@ == old(sessions)@.next_rgba(session_id, display),
        final(sessions).wf(),
{
    if let Some(i) = sessions.holder(&session_id) {
        let ghost before = sessions@;
        let ghost session = before.peers[i as int].1;
        assert(session.ui_handler.wf());
        sessions.peers.value_at_mut(i).ui_handler.next_rgba(display);
        proof {
            let read = FlutterSessionView {
                ui_handler: session.ui_handler.next_rgba(display),
                ..session
            };
            if let Some(rgba) = lookup(session.ui_handler.display_rgbas, display) {
                lemma_put_distinct(
                    session.ui_handler.display_rgbas,
                    display,
                    crate::handler::RgbaView { valid: false, ..rgba },
                );
            }
            lemma_with_session(before, session_id, read);
        }
    }
}

/// The size of a display is known to a session of the user interface.
pub fn session_set_size(
    sessions: &mut Sessions,
    session_id: SessionID,
    display: usize,
    width: usize,
    height: usize,
)
    requires
        old(sessions).wf(),
    ensures
        final(sessions)@ == old(sessions)@.sized(session_id, display, width, height),
        final(sessions).wf(),
{
    if let Some(handler) = sessions.handler_mut(&session_id) {
        if !crate::handler::holds_display(&handler.displays, display) {
            handler.displays.push(display);
        }
        handler.renderer.set_size(display, width, height);
    }
}

/// Registers the texture for a display's frames with a session, or takes it back with 0.
pub fn session_register_pixelbuffer_texture(
    sessions: &mut Sessions,
    session_id: SessionID,
    display: usize,
    ptr: usize,
)
    requires
        old(sessions).wf(),
    ensures
        final(sessions)@ == old(sessions)@.rendering(
            session_id,
            old(sessions)@.renderer(session_id).register_pixelbuffer_texture(display, ptr),
        ),
        final(sessions).wf(),
{
    if let Some(handler) = sessions.handler_mut(&session_id) {
        handler.renderer.register_pixelbuffer_texture(display, ptr);
    }
}

/// Registers the output for a display's textures with a session, or takes it back with 0.
pub fn session_register_gpu_texture(
    sessions: &mut Sessions,
    session_id: SessionID,
    display: usize,
    output_ptr: usize,
)
    requires
        old(sessions).wf(),
    ensures
        final(sessions)@ == old(sessions)@.rendering(
            session_id,
            old(sessions)@.renderer(session_id).register_gpu_output(display, output_ptr),
        ),
        final(sessions).wf(),
{
    if let Some(handler) = sessions.handler_mut(&session_id) {
        handler.renderer.register_gpu_output(display, output_ptr);
    }
}

/// The graphics card that textures are made on: none where frames are not shown in textures, else
/// what the plugin says, if it says anything.
pub fn get_adapter_luid(use_texture_render: bool, plugin_luid: Option<i64>) -> (luid: Option<i64>)
    ensures
        luid == if use_texture_render {
            plugin_luid
        } else {
            None
        },
{
    if use_texture_render {
        plugin_luid
    } else {
        None
    }
}

/// The fields of an event whose values are texts.
pub open spec fn text_fields(event: Seq<(&str, &str)>) -> JsonFields {
    event.map_values(|field: (&str, &str)| (field.0@, Json::Text(field.1@)))
}

/// An event to all sessions of the user interface on the connection of one of them.
pub fn push_session_event(
    sessions: &Sessions,
    session_id: &SessionID,
    name: &str,
    event: Vec<(&str, &str)>,
) -> (out: Vec<Delivery>)
    requires
        sessions.wf(),
    ensures
        delivered(out@) == match sessions@.session(*session_id) {
            Some(session) => session.ui_handler.event(name@, text_fields(event@)),
            None => Seq::empty(),
        },
{
    match get_session_by_session_id(sessions, session_id) {
        Some(session) => {
            let mut fields = Fields::new();
            let ghost goal = text_fields(event@);
            assert(fields@ =~= goal.take(0));
            let mut i: usize = 0;
            while i < event.len()
                invariant
                    i <= event@.len(),
                    goal == text_fields(event@),
                    fields@ == goal.take(i as int),
                decreases event@.len() - i,
            {
                fields = fields.text(event[i].0, event[i].1);
                assert(goal.take(i + 1) =~= goal.take(i as int).push(goal[i as int]));
                i += 1;
            }
            assert(goal.take(goal.len() as int) =~= goal);
            let nobody: Vec<SessionID> = Vec::new();
            session.ui_handler.push_event(name, fields, nobody.as_slice())
        },
        None => nothing_told(),
    }
}

/// A connection once one of its sessions waits for an image.
pub open spec fn waiting(session: FlutterSessionView, id: SessionID) -> FlutterSessionView {
    match lookup(session.ui_handler.session_handlers, id) {
        Some(handler) => session.with_handler(
            id,
            SessionHandlerView { renderer: handler.renderer.reset(), ..handler },
        ),
        None => session,
    }
}

/// A session of the user interface waits for an image, on every connection that has it: it is told
/// anew how each display is shown.
pub fn session_on_waiting_for_image_dialog_show(sessions: &mut Sessions, session_id: SessionID)
    requires
        old(sessions).wf(),
    ensures
        final(sessions)@.peers == old(sessions)@.peers.map_values(
            |peer: (PeerKeyView, FlutterSessionView)| (peer.0, waiting(peer.1, session_id)),
        ),
        final(sessions).wf(),
{
    let ghost before = sessions@.peers;
    let ghost goal = before.map_values(
        |peer: (PeerKeyView, FlutterSessionView)| (peer.0, waiting(peer.1, session_id)),
    );
    let mut i: usize = 0;
    while i < sessions.peers.len()
        invariant
            i <= before.len(),
            before == old(sessions)@.peers,
            old(sessions).wf(),
            goal == before.map_values(
                |peer: (PeerKeyView, FlutterSessionView)| (peer.0, waiting(peer.1, session_id)),
            ),
            sessions.peers.wf(),
            sessions@.peers.len() == before.len(),
            forall|j: int| 0 <= j < i ==> sessions@.peers[j] == goal[j],
            forall|j: int| 0 <= j < i ==> (#[trigger] sessions@.peers[j]).1.ui_handler.wf(),
            forall|j: int| i <= j < before.len() ==> sessions@.peers[j] == before[j],
        decreases before.len() - i,
    {
        let ghost session = before[i as int].1;
        let ghost handlers = session.ui_handler.session_handlers;
        proof {
            assert(session.ui_handler.wf());
            if let Some(handler) = lookup(handlers, session_id) {
                lemma_lookup_absent(handlers, session_id);
                let k = choose|k: int|
                    0 <= k < handlers.len() && (#[trigger] handlers[k]).0 == session_id;
                lemma_lookup_at(handlers, k);
                assert(handler.renderer.wf());
                lemma_with_handler(
                    session,
                    session_id,
                    SessionHandlerView { renderer: handler.renderer.reset(), ..handler },
                );
            }
        }
        if let Some(handler) = sessions.peers.value_at_mut(i).ui_handler.session_handlers.get_mut(
            &session_id,
        ) {
            handler.on_waiting_for_image_dialog_show();
        }
        assert(sessions@.peers[i as int] == goal[i as int]);
        i += 1;
    }
    assert(sessions@.peers =~= goal);
}

/// The session of the user interface that has the focus.
pub fn get_cur_session_id(current: &SessionID) -> (id: SessionID)
    ensures
        id == *current,
{
    *current
}

/// Gives the focus to a session of the user interface.
pub fn set_cur_session_id(current: &mut SessionID, session_id: SessionID)
    ensures
        *final(current) == session_id,
{
    if *current != session_id {
        *current = session_id;
    }
}

/// The peer that the session with the focus controls; nothing where it controls none.
pub fn get_cur_peer_id(sessions: &Sessions, current: &SessionID) -> (peer: String)
    requires
        sessions.wf(),
    ensures
        peer@ == match peer_of(sessions@.peers, *current, ConnType::DEFAULT_CONN) {
            Some(peer) => peer,
            None => Seq::empty(),
        },
{
    match get_peer_id_by_session_id(sessions, current, ConnType::DEFAULT_CONN) {
        Some(peer) => peer,
        None => String::new(),
    }
}

/// The connection of the session that has the focus.
pub fn get_cur_session<'a>(sessions: &'a Sessions, current: &SessionID) -> (session: Option<
    &'a FlutterSession,
>)
    requires
        sessions.wf(),
    ensures
        match session {
            Some(s) => sessions@.session(*current) == Some(s@) && s.wf(),
            None => sessions@.session(*current) is None,
        },
{
    get_session_by_session_id(sessions, current)
}

/// What the other sessions are told of an option that changed: on a computer whether the connection
/// is for viewing only, and of two other options that they changed.
pub open spec fn synced_option(platform: Platform, key: Seq<char>, view_only: bool) -> Option<
    JsonFields,
> {
    if key == "keyboard_mode"@ || key == "input_source"@ {
        Some(
            JsonFields::empty().push(("k"@, Json::Text(key))).push(
                ("v"@, Json::Text(Seq::empty())),
            ),
        )
    } else if key == "view-only"@ && !platform.mobile() {
        Some(
            JsonFields::empty().push(("k"@, Json::Text(key))).push(("v"@, Json::Bool(view_only))),
        )
    } else {
        None
    }
}

/// Tells the other sessions of a connection of an option that the session `cur_id` changed, where
/// they have to know it.
pub fn try_sync_peer_option(
    platform: Platform,
    session: &FlutterSession,
    cur_id: &SessionID,
    key: &str,
    _value: Option<serde_json::Value>,
) -> (out: Vec<Delivery>)
    ensures
        delivered(out@) == match synced_option(platform, key@, session@.lc.view_only) {
            Some(fields) => session@.ui_handler.deliveries(
                EventView::Event(event_text("sync_peer_option"@, fields)),
                Seq::empty(),
                seq![*cur_id],
            ),
            None => Seq::empty(),
        },
{
    let mut origin: Vec<SessionID> = Vec::new();
    origin.push(*cur_id);
    assert(origin@ =~= seq![*cur_id]);
    if same_text(key, "keyboard_mode") || same_text(key, "input_source") {
        proof {
            reveal_strlit("");
            assert(""@ =~= Seq::empty());
        }
        return session.ui_handler.push_event(
            "sync_peer_option",
            Fields::new().text("k", key).text("v", ""),
            origin.as_slice(),
        );
    }
    if same_text(key, "view-only") && !platform.is_mobile() {
        return session.ui_handler.push_event(
            "sync_peer_option",
            Fields::new().text("k", key).truth("v", session.lc.view_only),
            origin.as_slice(),
        );
    }
    nothing_told()
}

/// The other sessions are told of two options by name alone, and on a computer whether the connection
/// is for viewing only. Of other options they are told nothing.
pub proof fn lemma_synced_option(platform: Platform, key: Seq<char>, view_only: bool)
    ensures
        ({
            let told = synced_option(platform, key, view_only);
            let phone = platform == Platform::Android || platform == Platform::Ios;
            &&& told is Some <==> key == "keyboard_mode"@ || key == "input_source"@ || (key
                == "view-only"@ && !phone)
            &&& told matches Some(fields) ==> {
                &&& fields.len() == 2
                &&& lookup(fields, "k"@) == Some(Json::Text(key))
                &&& key == "view-only"@ ==> lookup(fields, "v"@) == Some(Json::Bool(view_only))
                &&& key != "view-only"@ ==> (lookup(fields, "v"@) matches Some(Json::Text(v))
                    && v.len() == 0)
            }
        }),
{
    broadcast use lemma_lookup_push;

    reveal_strlit("k");
    reveal_strlit("v");
    assert("k"@.len() == 1 && "v"@.len() == 1);
    assert("v"@[0] == 'v' && "k"@[0] == 'k');
    reveal_strlit("keyboard_mode");
    reveal_strlit("input_source");
    reveal_strlit("view-only");
    assert("keyboard_mode"@.len() == 13 && "input_source"@.len() == 12 && "view-only"@.len() == 9);
}

/// The fields of an event are the texts that it was given, in their order.
pub proof fn lemma_text_fields(event: Seq<(&str, &str)>, i: int)
    requires
        0 <= i < event.len(),
    ensures
        text_fields(event).len() == event.len(),
        text_fields(event)[i].0 == event[i].0@,
        text_fields(event)[i].1 == Json::Text(event[i].1@),
{
}

/// What is said where a session is not there names the peer and the session.
pub proof fn lemma_no_session_text(id: Seq<char>, session_id: SessionID)
    ensures
        ({
            let said = no_session_text(id, session_id);
            let first = "No session with peer id "@;
            let second = ", session id: "@;
            &&& said.len() == first.len() + id.len() + second.len() + 36
            &&& said.take(first.len() as int) == first
            &&& said.subrange(first.len() as int, (first.len() + id.len()) as int) == id
            &&& said.subrange(
                (first.len() + id.len()) as int,
                (first.len() + id.len() + second.len()) as int,
            ) == second
            &&& session_id_value(said.skip((first.len() + id.len() + second.len()) as int))
                == Some(session_id)
        }),
{
    let said = no_session_text(id, session_id);
    let first = "No session with peer id "@;
    let second = ", session id: "@;
    let text = session_id_text(session_id);
    lemma_session_id_text_reads_back(session_id);
    assert(text.len() == 36);
    assert(said.take(first.len() as int) =~= first);
    assert(said.subrange(first.len() as int, (first.len() + id.len()) as int) =~= id);
    assert(said.subrange(
        (first.len() + id.len()) as int,
        (first.len() + id.len() + second.len()) as int,
    ) =~= second);
    assert(said.skip((first.len() + id.len() + second.len()) as int) =~= text);
}

/// A display is known exactly where the peer of the session named that many displays, and is then the
/// one that it named in that place.
pub proof fn lemma_known_display(sessions: SessionsView, id: SessionID, display: usize)
    ensures
        match sessions.session(id) {
            Some(session) => {
                let named = session.ui_handler.peer_info.displays;
                &&& display < named.len() ==> sessions.display(id, display) == Some(
                    named[display as int],
                )
                &&& display >= named.len() ==> sessions.display(id, display) is None
            },
            None => sessions.display(id, display) is None,
        },
{
}

/// A session that waits for an image keeps its stream, its displays and its textures, and is told
/// anew how each display is shown. The other sessions of the connection stay as they are, and a
/// connection without that session does not change.
pub proof fn lemma_waiting(
    session: FlutterSessionView,
    id: SessionID,
    other: SessionID,
    i: int,
)
    requires
        other != id,
    ensures
        ({
            let after = waiting(session, id);
            &&& lookup(after.ui_handler.session_handlers, other) == lookup(
                session.ui_handler.session_handlers,
                other,
            )
            &&& after.lc == session.lc
            &&& after.password == session.password
            &&& after.connected == session.connected
            &&& after.ui_handler.display_rgbas == session.ui_handler.display_rgbas
            &&& after.ui_handler.peer_info == session.ui_handler.peer_info
            &&& after.ui_handler.hooks == session.ui_handler.hooks
            &&& match lookup(session.ui_handler.session_handlers, id) {
                Some(before) => lookup(after.ui_handler.session_handlers, id) matches Some(told) && {
                    &&& told.event_stream == before.event_stream
                    &&& told.displays == before.displays
                    &&& told.renderer.is_support_multi_ui_session
                        == before.renderer.is_support_multi_ui_session
                    &&& told.renderer.displays.len() == before.renderer.displays.len()
                    &&& 0 <= i < before.renderer.displays.len() ==> {
                        let was = before.renderer.displays[i];
                        let is = told.renderer.displays[i];
                        &&& is.0 == was.0
                        &&& is.1.texture_rgba_ptr == was.1.texture_rgba_ptr
                        &&& is.1.gpu_output_ptr == was.1.gpu_output_ptr
                        &&& is.1.size == was.1.size
                        &&& is.1.notify_render_type is None
                    }
                },
                None => after == session,
            }
        }),
{
    if let Some(handler) = lookup(session.ui_handler.session_handlers, id) {
        let told = SessionHandlerView { renderer: handler.renderer.reset(), ..handler };
        lemma_lookup_put(session.ui_handler.session_handlers, id, told, id);
        lemma_lookup_put(session.ui_handler.session_handlers, id, told, other);
    }
}

}
