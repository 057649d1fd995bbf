//! The sessions of the user interface that share one connection to a peer.

use crate::image::ImageRgb;
use crate::json::{json_text, lemma_merged_lookup, merged, object_of, Fields, Json, JsonFields};
use crate::message::{
    delivered, Delivery, DeliveryView, EventToUI, EventView, HookId, PeerInfo, PeerInfoView,
    Platform, SessionID, StreamId,
};
use crate::renderer::{RenderType, VideoRenderer, VideoRendererView};
use crate::table::{
    distinct_keys, lemma_lookup_at, lemma_lookup_put, lemma_put_new, lemma_without_absent, lookup,
    put, without, Table,
};
use vstd::prelude::*;

verus! {

/// One session of the user interface.
pub struct SessionHandler {
    /// Where its events go; a session that polls has none.
    pub event_stream: Option<StreamId>,
    /// The displays that it shows.
    pub displays: Vec<usize>,
    pub renderer: VideoRenderer,
}

/// What a session of the user interface is.
pub struct SessionHandlerView {
    pub event_stream: Option<StreamId>,
    pub displays: Seq<usize>,
    pub renderer: VideoRendererView,
}

impl View for SessionHandler {
    type V = SessionHandlerView;

    open spec fn view(&self) -> SessionHandlerView {
        SessionHandlerView {
            event_stream: self.event_stream,
            displays: self.displays@,
            renderer: self.renderer@,
        }
    }
}

impl SessionHandlerView {
    /// A session that shows nothing yet.
    pub open spec fn empty() -> SessionHandlerView {
        SessionHandlerView {
            event_stream: None,
            displays: Seq::empty(),
            renderer: VideoRendererView::empty(),
        }
    }
}

impl Default for SessionHandler {
    fn default() -> (value: SessionHandler)
        ensures
            value@ == SessionHandlerView::empty(),
    {
        SessionHandler::new()
    }
}

impl SessionHandler {
    pub fn new() -> (handler: SessionHandler)
        ensures
            handler@ == SessionHandlerView::empty(),
    {
        SessionHandler {
            event_stream: None,
            displays: Vec::new(),
            renderer: VideoRenderer::new(),
        }
    }

    /// The user interface waits for an image: it is told anew how each display is shown.
    pub fn on_waiting_for_image_dialog_show(&mut self)
        requires
            old(self)@.renderer.wf(),
        ensures
            final(self)@ == (SessionHandlerView {
                renderer: old(self)@.renderer.reset(),
                ..old(self)@
            }),
            final(self)@.renderer.wf(),
    {
        self.renderer.reset_all_display_render_type();
    }
}

/// The last frame of a display; it may be read while it is valid.
pub struct RgbaData {
    pub data: Vec<u8>,
    pub valid: bool,
}

/// What the last frame of a display is.
pub struct RgbaView {
    pub data: Seq<u8>,
    pub valid: bool,
}

impl View for RgbaData {
    type V = RgbaView;

    open spec fn view(&self) -> RgbaView {
        RgbaView { data: self.data@, valid: self.valid }
    }
}

/// A callback of an extension.
#[derive(Debug, PartialEq, Eq, Clone, Copy, Structural)]
pub enum SessionHook {
    /// Looks at each frame and may change it.
    OnSessionRgba(HookId),
}

impl View for SessionHook {
    type V = SessionHook;

    open spec fn view(&self) -> SessionHook {
        *self
    }
}

/// The state that the sessions of one connection share.
pub struct FlutterHandler {
    pub session_handlers: Table<SessionID, SessionHandler>,
    pub display_rgbas: Table<usize, RgbaData>,
    pub peer_info: PeerInfo,
    pub hooks: Table<String, SessionHook>,
    pub use_texture_render: bool,
}

/// What the sessions of one connection share.
pub struct FlutterHandlerView {
    pub session_handlers: Seq<(SessionID, SessionHandlerView)>,
    pub display_rgbas: Seq<(usize, RgbaView)>,
    pub peer_info: PeerInfoView,
    pub hooks: Seq<(Seq<char>, SessionHook)>,
    pub use_texture_render: bool,
}

impl View for FlutterHandler {
    type V = FlutterHandlerView;

    open spec fn view(&self) -> FlutterHandlerView {
        FlutterHandlerView {
            session_handlers: self.session_handlers@,
            display_rgbas: self.display_rgbas@,
            peer_info: self.peer_info@,
            hooks: self.hooks@,
            use_texture_render: self.use_texture_render,
        }
    }
}

/// The text of an event: the JSON object of its fields and its name.
pub open spec fn event_text(name: Seq<char>, fields: JsonFields) -> Seq<char> {
    json_text(object_of(fields.push(("name"@, Json::Text(name)))))
}

/// Whether an event goes to a session: to those that are asked for, or, where none is asked for, to
/// all but those that are left out.
pub open spec fn addressed(id: SessionID, includes: Seq<SessionID>, excludes: Seq<SessionID>) -> bool {
    if includes.len() == 0 {
        !excludes.contains(id)
    } else {
        includes.contains(id)
    }
}

impl FlutterHandlerView {
    /// Ids, displays and hooks are distinct, in every renderer too.
    pub open spec fn wf(self) -> bool {
        &&& distinct_keys(self.session_handlers)
        &&& distinct_keys(self.display_rgbas)
        &&& distinct_keys(self.hooks)
        &&& handlers_wf(self.session_handlers)
    }

    /// The deliveries of an event to the sessions that it is addressed to and that have a stream.
    pub open spec fn deliveries(
        self,
        event: EventView,
        includes: Seq<SessionID>,
        excludes: Seq<SessionID>,
    ) -> Seq<DeliveryView> {
        self.session_handlers.filter_map(
            |entry: (SessionID, SessionHandlerView)|
                if addressed(entry.0, includes, excludes) {
                    delivery_to(entry.1, event)
                } else {
                    None
                },
        )
    }

    /// The deliveries of a named event to every session.
    pub open spec fn event(self, name: Seq<char>, fields: JsonFields) -> Seq<DeliveryView> {
        self.deliveries(
            EventView::Event(event_text(name, fields)),
            Seq::empty(),
            Seq::empty(),
        )
    }

    /// The id of the only session of a handler that polls.
    pub open spec fn headless_session_id(self) -> Option<SessionID> {
        if self.session_handlers.len() > 0 {
            Some(self.session_handlers[0].0)
        } else {
            None
        }
    }

    /// Whether several sessions share the connection.
    pub open spec fn multi(self) -> bool {
        self.session_handlers.len() > 1
    }

    /// The frame of a display may be replaced.
    pub open spec fn next_rgba(self, display: usize) -> FlutterHandlerView {
        match lookup(self.display_rgbas, display) {
            Some(rgba) => FlutterHandlerView {
                display_rgbas: put(self.display_rgbas, display, RgbaView { valid: false, ..rgba }),
                ..self
            },
            None => self,
        }
    }

    /// The pixels of a display's frame, while they may be read.
    pub open spec fn readable(self, display: usize) -> Option<Seq<u8>> {
        match lookup(self.display_rgbas, display) {
            Some(rgba) => if rgba.valid {
                Some(rgba.data)
            } else {
                None
            },
            None => None,
        }
    }

    /// The pixels that are kept for a display, valid or not.
    pub open spec fn kept(self, display: usize) -> Seq<u8> {
        match lookup(self.display_rgbas, display) {
            Some(rgba) => rgba.data,
            None => Seq::empty(),
        }
    }

    /// A frame came for a display that has none to be read: it is kept, and stays readable when
    /// there is a session that could read it.
    pub open spec fn soft_rendered(self, display: usize, frame: Seq<u8>) -> FlutterHandlerView {
        if self.readable(display) is Some {
            self
        } else {
            FlutterHandlerView {
                display_rgbas: put(
                    self.display_rgbas,
                    display,
                    RgbaView { data: frame, valid: self.session_handlers.len() > 0 },
                ),
                ..self
            }
        }
    }

    /// The sessions that are told of a frame: those that show at most one display, and, where
    /// several share the connection, this one.
    pub open spec fn soft_deliveries(self, display: usize) -> Seq<DeliveryView> {
        self.session_handlers.filter_map(
            |entry: (SessionID, SessionHandlerView)|
                if entry.1.displays.len() <= 1 && (self.multi() ==> entry.1.displays.contains(
                    display,
                )) {
                    delivery_to(entry.1, EventView::Rgba(display))
                } else {
                    None
                },
        )
    }

    /// The sessions after a frame was shown in their textures.
    pub open spec fn texture_rendered(
        self,
        use_texture_render: bool,
        display: usize,
        w: usize,
        h: usize,
    ) -> FlutterHandlerView {
        FlutterHandlerView {
            session_handlers: self.session_handlers.map_values(
                |entry: (SessionID, SessionHandlerView)|
                    (entry.0, textured(entry.1, use_texture_render, display, w, h)),
            ),
            ..self
        }
    }
}

/// The addresses of the textures of a session that take a frame.
pub open spec fn texture_address(
    handler: SessionHandlerView,
    use_texture_render: bool,
    display: usize,
    w: usize,
    h: usize,
) -> Option<usize> {
    match handler.renderer.rgba_target(display, w, h) {
        Some(d) => if uses_textures(handler, use_texture_render) {
            Some(handler.renderer.info(d).texture_rgba_ptr)
        } else {
            None
        },
        None => None,
    }
}

/// What a session is told of a frame that is shown in its texture: only what is news to it.
pub open spec fn texture_news(
    handler: SessionHandlerView,
    use_texture_render: bool,
    display: usize,
    w: usize,
    h: usize,
) -> Option<DeliveryView> {
    if uses_textures(handler, use_texture_render) && handler.renderer.news(
        handler.renderer.rgba_target(display, w, h),
        RenderType::PixelBuffer,
    ) {
        delivery_to(handler, EventView::Texture(display, false))
    } else {
        None
    }
}

/// A session after a texture of the graphics card was shown.
pub open spec fn gpu_textured(handler: SessionHandlerView, display: usize) -> SessionHandlerView {
    SessionHandlerView {
        renderer: handler.renderer.notified(
            handler.renderer.texture_target(display),
            RenderType::Texture,
        ),
        ..handler
    }
}

/// The output of a session that takes a texture of the graphics card.
pub open spec fn gpu_address(handler: SessionHandlerView, display: usize) -> Option<usize> {
    match handler.renderer.texture_target(display) {
        Some(d) => Some(handler.renderer.info(d).gpu_output_ptr),
        None => None,
    }
}

/// What a session is told of a texture of the graphics card: only what is news to it.
pub open spec fn gpu_news(handler: SessionHandlerView, display: usize) -> Option<DeliveryView> {
    if handler.renderer.news(handler.renderer.texture_target(display), RenderType::Texture) {
        delivery_to(handler, EventView::Texture(display, true))
    } else {
        None
    }
}

/// The renderers of the sessions are in order.
pub open spec fn handlers_wf(handlers: Seq<(SessionID, SessionHandlerView)>) -> bool {
    forall|i: int| 0 <= i < handlers.len() ==> (#[trigger] handlers[i]).1.renderer.wf()
}

/// The delivery of an event to a session, where it has a stream.
pub open spec fn delivery_to(handler: SessionHandlerView, event: EventView) -> Option<DeliveryView> {
    match handler.event_stream {
        Some(stream) => Some(DeliveryView { stream, event }),
        None => None,
    }
}

/// Whether a session shows its frames in textures.
pub open spec fn uses_textures(handler: SessionHandlerView, use_texture_render: bool) -> bool {
    use_texture_render || handler.displays.len() > 1
}

/// A session after a frame was shown in its texture.
pub open spec fn textured(
    handler: SessionHandlerView,
    use_texture_render: bool,
    display: usize,
    w: usize,
    h: usize,
) -> SessionHandlerView {
    if uses_textures(handler, use_texture_render) {
        SessionHandlerView {
            renderer: handler.renderer.notified(
                handler.renderer.rgba_target(display, w, h),
                RenderType::PixelBuffer,
            ),
            ..handler
        }
    } else {
        handler
    }
}

/// Whether `ids` holds `id`.
fn holds(ids: &[SessionID], id: SessionID) -> (found: bool)
    ensures
        found == ids@.contains(id),
{
    let mut i: usize = 0;
    while i < ids.len()
        invariant
            i <= ids.len(),
            forall|j: int| 0 <= j < i ==> ids@[j] != id,
        decreases ids.len() - i,
    {
        if ids[i] == id {
            return true;
        }
        i += 1;
    }
    false
}

/// Whether `displays` holds `display`.
pub(crate) fn holds_display(displays: &Vec<usize>, display: usize) -> (found: bool)
    ensures
        found == displays@.contains(display),
{
    let mut i: usize = 0;
    while i < displays.len()
        invariant
            i <= displays.len(),
            forall|j: int| 0 <= j < i ==> displays@[j] != display,
        decreases displays.len() - i,
    {
        if displays[i] == display {
            return true;
        }
        i += 1;
    }
    false
}

/// The frames and events that a frame of the peer leads to: the addresses of the textures that take
/// it, and what the user interface is told.
pub struct RgbaActions {
    pub targets: Vec<usize>,
    pub deliveries: Vec<Delivery>,
}

impl FlutterHandler {
    pub open spec fn wf(&self) -> bool {
        self@.wf()
    }

    pub fn new(use_texture_render: bool) -> (handler: FlutterHandler)
        ensures
            handler@ == (FlutterHandlerView {
                session_handlers: Seq::empty(),
                display_rgbas: Seq::empty(),
                peer_info: PeerInfoView::unknown(),
                hooks: Seq::empty(),
                use_texture_render,
            }),
            handler.wf(),
    {
        FlutterHandler {
            session_handlers: Table::new(),
            display_rgbas: Table::new(),
            peer_info: PeerInfo::new(),
            hooks: Table::new(),
            use_texture_render,
        }
    }

    /// An event to every session but those in `excludes`.
    pub fn push_event(&self, name: &str, event: Fields, excludes: &[SessionID]) -> (out: Vec<
        Delivery,
    >)
        ensures
            delivered(out@) == self@.deliveries(
                EventView::Event(event_text(name@, event@)),
                Seq::empty(),
                excludes@,
            ),
    {
        let nobody: Vec<SessionID> = Vec::new();
        self.push_event_(name, event, nobody.as_slice(), excludes)
    }

    /// An event to the sessions in `includes`, or to every session where that is empty.
    pub fn push_event_to(&self, name: &str, event: Fields, includes: &[SessionID]) -> (out: Vec<
        Delivery,
    >)
        ensures
            delivered(out@) == self@.deliveries(
                EventView::Event(event_text(name@, event@)),
                includes@,
                Seq::empty(),
            ),
    {
        let nobody: Vec<SessionID> = Vec::new();
        self.push_event_(name, event, includes, nobody.as_slice())
    }

    /// An event to the sessions that it is addressed to. It is a JSON object of the fields and the
    /// name.
    pub fn push_event_(
        &self,
        name: &str,
        event: Fields,
        includes: &[SessionID],
        excludes: &[SessionID],
    ) -> (out: Vec<Delivery>)
        ensures
            delivered(out@) == self@.deliveries(
                EventView::Event(event_text(name@, event@)),
                includes@,
                excludes@,
            ),
    {
        let text = event.text("name", name).print();
        let ghost view = EventView::Event(text@);
        let ghost pick = |entry: (SessionID, SessionHandlerView)|
            if addressed(entry.0, includes@, excludes@) {
                delivery_to(entry.1, view)
            } else {
                None
            };
        let ghost handlers = self@.session_handlers;
        let mut out: Vec<Delivery> = Vec::new();
        assert(delivered(out@) =~= handlers.take(0).filter_map(pick));
        let mut i: usize = 0;
        while i < self.session_handlers.len()
            invariant
                i <= handlers.len(),
                handlers == self@.session_handlers,
                view == EventView::Event(text@),
                pick == (|entry: (SessionID, SessionHandlerView)|
                    if addressed(entry.0, includes@, excludes@) {
                        delivery_to(entry.1, view)
                    } else {
                        None
                    }),
                delivered(out@) == handlers.take(i as int).filter_map(pick),
            decreases handlers.len() - i,
        {
            let id = *self.session_handlers.key_at(i);
            let push = if includes.len() == 0 {
                !holds(excludes, id)
            } else {
                holds(includes, id)
            };
            let ghost before = out@;
            if push {
                if let Some(stream) = self.session_handlers.value_at(i).event_stream {
                    out.push(Delivery { stream, event: EventToUI::Event(text.clone()) });
                    assert(delivered(out@) =~= delivered(before).push(
                        DeliveryView { stream, event: view },
                    ));
                }
            }
            proof {
                handlers.lemma_filter_map_take_succ(pick, i as int);
            }
            i += 1;
        }
        assert(handlers.take(handlers.len() as int) =~= handlers);
        out
    }

    /// The message that ends the stream of a session, where it has one.
    pub fn close_event_stream(&self, session_id: SessionID) -> (out: Option<Delivery>)
        requires
            self.wf(),
        ensures
            match out {
                Some(delivery) => Some(delivery@),
                None => None,
            } == match lookup(self@.session_handlers, session_id) {
                Some(handler) => delivery_to(handler, EventView::Event("close"@)),
                None => None,
            },
    {
        match self.session_handlers.get(&session_id) {
            Some(handler) => try_send_close_event(handler.event_stream),
            None => None,
        }
    }

    /// Adds a hook, unless there is one with this key.
    pub fn add_session_hook(&mut self, key: String, hook: SessionHook) -> (added: bool)
        requires
            old(self).wf(),
        ensures
            added == (lookup(old(self)@.hooks, key@) is None),
            final(self)@ == if added {
                FlutterHandlerView { hooks: put(old(self)@.hooks, key@, hook), ..old(self)@ }
            } else {
                old(self)@
            },
            final(self).wf(),
    {
        if self.hooks.contains_key(&key) {
            return false;
        }
        self.hooks.insert(key, hook);
        true
    }

    /// Removes a hook, if there is one with this key.
    pub fn remove_session_hook(&mut self, key: &String) -> (removed: bool)
        requires
            old(self).wf(),
        ensures
            removed == (lookup(old(self)@.hooks, key@) is Some),
            final(self)@ == (FlutterHandlerView {
                hooks: without(old(self)@.hooks, key@),
                ..old(self)@
            }),
            final(self).wf(),
    {
        self.hooks.remove(key).is_some()
    }

    /// Changes how frames are shown; the frames that wait are dropped.
    pub fn update_use_texture_render(&mut self, use_texture_render: bool)
        requires
            old(self).wf(),
        ensures
            final(self)@ == (FlutterHandlerView {
                use_texture_render,
                display_rgbas: Seq::empty(),
                ..old(self)@
            }),
            final(self).wf(),
    {
        self.use_texture_render = use_texture_render;
        self.display_rgbas = Table::new();
    }

    /// The id of the only session of a handler that polls; nothing before it is registered.
    pub fn headless_session_id(&self) -> (id: Option<SessionID>)
        ensures
            id == self@.headless_session_id(),
    {
        if self.session_handlers.len() > 0 {
            Some(*self.session_handlers.key_at(0))
        } else {
            None
        }
    }

    /// Whether several sessions share the connection.
    pub fn is_multi_ui_session(&self) -> (multi: bool)
        ensures
            multi == self@.multi(),
    {
        self.session_handlers.len() > 1
    }

    /// The frame of a display, while it may be read.
    pub fn get_rgba(&self, display: usize) -> (frame: Option<&Vec<u8>>)
        requires
            self.wf(),
        ensures
            match frame {
                Some(data) => self@.readable(display) == Some(data@),
                None => self@.readable(display) is None,
            },
    {
        match self.display_rgbas.get(&display) {
            Some(rgba) => if rgba.valid {
                Some(&rgba.data)
            } else {
                None
            },
            None => None,
        }
    }

    /// The frame of a display was read, and may be replaced.
    pub fn next_rgba(&mut self, display: usize)
        requires
            old(self).wf(),
        ensures
            final(self)@ == old(self)@.next_rgba(display),
            final(self).wf(),
    {
        if let Some(rgba) = self.display_rgbas.get_mut(&display) {
            rgba.valid = false;
        }
    }

    /// A frame came that is handed over as pixels. While the last one waits to be read the new one
    /// is dropped; else it is kept, the frame gets the old buffer to be used again, and the
    /// sessions are told. A frame that no session could ever read does not stay readable.
    pub fn on_rgba_soft_render(&mut self, display: usize, rgba: &mut ImageRgb) -> (out: Vec<
        Delivery,
    >)
        requires
            old(self).wf(),
        ensures
            final(self)@ == old(self)@.soft_rendered(display, old(rgba)@.raw),
            final(self).wf(),
            final(rgba)@ == if old(self)@.readable(display) is Some {
                old(rgba)@
            } else {
                crate::image::ImageRgbView { raw: old(self)@.kept(display), ..old(rgba)@ }
            },
            delivered(out@) == if old(self)@.readable(display) is Some {
                Seq::empty()
            } else {
                old(self)@.soft_deliveries(display)
            },
    {
        let mut out: Vec<Delivery> = Vec::new();
        assert(delivered(out@) =~= Seq::empty());
        let orphaned = self.session_handlers.len() == 0;
        let ghost frame = rgba.raw@;
        match self.display_rgbas.get_mut(&display) {
            Some(kept) => {
                if kept.valid {
                    proof {
                        crate::table::lemma_put_same(old(self)@.display_rgbas, display);
                    }
                    return out;
                }
                kept.valid = !orphaned;
                std::mem::swap(&mut rgba.raw, &mut kept.data);
            },
            None => {
                let mut kept = RgbaData { data: Vec::new(), valid: !orphaned };
                std::mem::swap(&mut rgba.raw, &mut kept.data);
                self.display_rgbas.insert(display, kept);
            },
        }
        let ghost before = old(self)@;
        let ghost handlers = before.session_handlers;
        let ghost pick = |entry: (SessionID, SessionHandlerView)|
            if entry.1.displays.len() <= 1 && (before.multi() ==> entry.1.displays.contains(
                display,
            )) {
                delivery_to(entry.1, EventView::Rgba(display))
            } else {
                None
            };
        assert(delivered(out@) =~= handlers.take(0).filter_map(pick));
        let multi = self.is_multi_ui_session();
        let mut i: usize = 0;
        while i < self.session_handlers.len()
            invariant
                i <= handlers.len(),
                handlers == self@.session_handlers,
                handlers == before.session_handlers,
                multi == before.multi(),
                pick == (|entry: (SessionID, SessionHandlerView)|
                    if entry.1.displays.len() <= 1 && (before.multi()
                        ==> entry.1.displays.contains(display)) {
                        delivery_to(entry.1, EventView::Rgba(display))
                    } else {
                        None
                    }),
                delivered(out@) == handlers.take(i as int).filter_map(pick),
            decreases handlers.len() - i,
        {
            let handler = self.session_handlers.value_at(i);
            let ghost so_far = out@;
            if handler.displays.len() <= 1 && (!multi || holds_display(
                &handler.displays,
                display,
            )) {
                if let Some(stream) = handler.event_stream {
                    out.push(Delivery { stream, event: EventToUI::Rgba(display) });
                    assert(delivered(out@) =~= delivered(so_far).push(
                        DeliveryView { stream, event: EventView::Rgba(display) },
                    ));
                }
            }
            proof {
                handlers.lemma_filter_map_take_succ(pick, i as int);
            }
            i += 1;
        }
        assert(handlers.take(handlers.len() as int) =~= handlers);
        out
    }
}

/// What the sessions do with a frame that is shown in textures.
pub open spec fn texture_actions(
    handlers: Seq<(SessionID, SessionHandlerView)>,
    use_texture_render: bool,
    display: usize,
    w: usize,
    h: usize,
) -> (Seq<usize>, Seq<DeliveryView>) {
    (
        handlers.filter_map(
            |entry: (SessionID, SessionHandlerView)|
                texture_address(entry.1, use_texture_render, display, w, h),
        ),
        handlers.filter_map(
            |entry: (SessionID, SessionHandlerView)|
                texture_news(entry.1, use_texture_render, display, w, h),
        ),
    )
}

/// What the sessions do with a texture of the graphics card.
pub open spec fn gpu_actions(handlers: Seq<(SessionID, SessionHandlerView)>, display: usize) -> (
    Seq<usize>,
    Seq<DeliveryView>,
) {
    (
        handlers.filter_map(
            |entry: (SessionID, SessionHandlerView)| gpu_address(entry.1, display),
        ),
        handlers.filter_map(|entry: (SessionID, SessionHandlerView)| gpu_news(entry.1, display)),
    )
}

impl RgbaActions {
    /// The addresses and the deliveries.
    pub open spec fn parts(self) -> (Seq<usize>, Seq<DeliveryView>) {
        (self.targets@, delivered(self.deliveries@))
    }
}

impl FlutterHandler {
    /// A frame came that is shown in textures: by every session, or only by those that show several
    /// displays.
    pub fn on_rgba_flutter_texture_render(
        &mut self,
        use_texture_render: bool,
        display: usize,
        rgba: &ImageRgb,
    ) -> (actions: RgbaActions)
        requires
            old(self).wf(),
        ensures
            final(self)@ == old(self)@.texture_rendered(
                use_texture_render,
                display,
                rgba.w,
                rgba.h,
            ),
            final(self).wf(),
            actions.parts() == texture_actions(
                old(self)@.session_handlers,
                use_texture_render,
                display,
                rgba.w,
                rgba.h,
            ),
    {
        let ghost before = old(self)@;
        let ghost handlers = before.session_handlers;
        let ghost goal = before.texture_rendered(use_texture_render, display, rgba.w, rgba.h);
        let ghost address = |entry: (SessionID, SessionHandlerView)|
            texture_address(entry.1, use_texture_render, display, rgba.w, rgba.h);
        let ghost news = |entry: (SessionID, SessionHandlerView)|
            texture_news(entry.1, use_texture_render, display, rgba.w, rgba.h);
        let mut targets: Vec<usize> = Vec::new();
        let mut deliveries: Vec<Delivery> = Vec::new();
        assert(targets@ =~= handlers.take(0).filter_map(address));
        assert(delivered(deliveries@) =~= handlers.take(0).filter_map(news));
        let mut i: usize = 0;
        while i < self.session_handlers.len()
            invariant
                i <= handlers.len(),
                before == old(self)@,
                before.wf(),
                handlers == before.session_handlers,
                goal == before.texture_rendered(use_texture_render, display, rgba.w, rgba.h),
                address == (|entry: (SessionID, SessionHandlerView)|
                    texture_address(entry.1, use_texture_render, display, rgba.w, rgba.h)),
                news == (|entry: (SessionID, SessionHandlerView)|
                    texture_news(entry.1, use_texture_render, display, rgba.w, rgba.h)),
                self.session_handlers.wf(),
                self@.session_handlers.len() == handlers.len(),
                forall|j: int| 0 <= j < i ==> self@.session_handlers[j] == goal.session_handlers[j],
                forall|j: int|
                    0 <= j < i ==> (#[trigger] self@.session_handlers[j]).1.renderer.wf(),
                forall|j: int| i <= j < handlers.len() ==> self@.session_handlers[j] == handlers[j],
                self.display_rgbas == old(self).display_rgbas,
                self.peer_info == old(self).peer_info,
                self.hooks == old(self).hooks,
                self.use_texture_render == old(self).use_texture_render,
                targets@ == handlers.take(i as int).filter_map(address),
                delivered(deliveries@) == handlers.take(i as int).filter_map(news),
            decreases handlers.len() - i,
        {
            let ghost told = deliveries@;
            assert(handlers[i as int].1.renderer.wf());
            let handler = self.session_handlers.value_at_mut(i);
            let stream = handler.event_stream;
            if use_texture_render || handler.displays.len() > 1 {
                let step = handler.renderer.on_rgba(display, rgba);
                if let Some(target) = step.target {
                    targets.push(target);
                }
                if step.notify {
                    if let Some(stream) = stream {
                        deliveries.push(
                            Delivery { stream, event: EventToUI::Texture(display, false) },
                        );
                        assert(delivered(deliveries@) =~= delivered(told).push(
                            DeliveryView { stream, event: EventView::Texture(display, false) },
                        ));
                    }
                }
            }
            proof {
                handlers.lemma_filter_map_take_succ(address, i as int);
                handlers.lemma_filter_map_take_succ(news, i as int);
            }
            i += 1;
        }
        assert(handlers.take(handlers.len() as int) =~= handlers);
        assert(self@.session_handlers =~= goal.session_handlers);
        RgbaActions { targets, deliveries }
    }

    /// A texture of the graphics card came. It is shown only where frames are shown in textures.
    pub fn on_texture(&mut self, display: usize) -> (actions: RgbaActions)
        requires
            old(self).wf(),
        ensures
            final(self)@ == if old(self)@.use_texture_render {
                FlutterHandlerView {
                    session_handlers: old(self)@.session_handlers.map_values(
                        |entry: (SessionID, SessionHandlerView)|
                            (entry.0, gpu_textured(entry.1, display)),
                    ),
                    ..old(self)@
                }
            } else {
                old(self)@
            },
            final(self).wf(),
            actions.parts() == if old(self)@.use_texture_render {
                gpu_actions(old(self)@.session_handlers, display)
            } else {
                (Seq::empty(), Seq::empty())
            },
    {
        let ghost before = old(self)@;
        let ghost handlers = before.session_handlers;
        let ghost goal = handlers.map_values(
            |entry: (SessionID, SessionHandlerView)| (entry.0, gpu_textured(entry.1, display)),
        );
        let ghost address = |entry: (SessionID, SessionHandlerView)| gpu_address(entry.1, display);
        let ghost news = |entry: (SessionID, SessionHandlerView)| gpu_news(entry.1, display);
        let mut targets: Vec<usize> = Vec::new();
        let mut deliveries: Vec<Delivery> = Vec::new();
        assert(delivered(deliveries@) =~= Seq::empty());
        if !self.use_texture_render {
            return RgbaActions { targets, deliveries };
        }
        assert(targets@ =~= handlers.take(0).filter_map(address));
        assert(delivered(deliveries@) =~= handlers.take(0).filter_map(news));
        let mut i: usize = 0;
        while i < self.session_handlers.len()
            invariant
                i <= handlers.len(),
                before == old(self)@,
                before.wf(),
                handlers == before.session_handlers,
                goal == handlers.map_values(
                    |entry: (SessionID, SessionHandlerView)|
                        (entry.0, gpu_textured(entry.1, display)),
                ),
                address == (|entry: (SessionID, SessionHandlerView)|
                    gpu_address(entry.1, display)),
                news == (|entry: (SessionID, SessionHandlerView)| gpu_news(entry.1, display)),
                self.session_handlers.wf(),
                self@.session_handlers.len() == handlers.len(),
                forall|j: int| 0 <= j < i ==> self@.session_handlers[j] == goal[j],
                forall|j: int|
                    0 <= j < i ==> (#[trigger] self@.session_handlers[j]).1.renderer.wf(),
                forall|j: int| i <= j < handlers.len() ==> self@.session_handlers[j] == handlers[j],
                self.display_rgbas == old(self).display_rgbas,
                self.peer_info == old(self).peer_info,
                self.hooks == old(self).hooks,
                self.use_texture_render == old(self).use_texture_render,
                targets@ == handlers.take(i as int).filter_map(address),
                delivered(deliveries@) == handlers.take(i as int).filter_map(news),
            decreases handlers.len() - i,
        {
            let ghost told = deliveries@;
            assert(handlers[i as int].1.renderer.wf());
            let handler = self.session_handlers.value_at_mut(i);
            let stream = handler.event_stream;
            let step = handler.renderer.on_texture(display);
            if let Some(target) = step.target {
                targets.push(target);
            }
            if step.notify {
                if let Some(stream) = stream {
                    deliveries.push(Delivery { stream, event: EventToUI::Texture(display, true) });
                    assert(delivered(deliveries@) =~= delivered(told).push(
                        DeliveryView { stream, event: EventView::Texture(display, true) },
                    ));
                }
            }
            proof {
                handlers.lemma_filter_map_take_succ(address, i as int);
                handlers.lemma_filter_map_take_succ(news, i as int);
            }
            i += 1;
        }
        assert(handlers.take(handlers.len() as int) =~= handlers);
        assert(self@.session_handlers =~= goal);
        RgbaActions { targets, deliveries }
    }

    /// A frame came: on a computer it is first shown in textures. Says what that takes, and whether
    /// the frame is then to be handed over as pixels too.
    pub fn on_rgba(&mut self, platform: Platform, display: usize, rgba: &ImageRgb) -> (plan: (
        RgbaActions,
        bool,
    ))
        requires
            old(self).wf(),
        ensures
            final(self)@ == if platform.mobile() {
                old(self)@
            } else {
                old(self)@.texture_rendered(
                    old(self)@.use_texture_render,
                    display,
                    rgba.w,
                    rgba.h,
                )
            },
            final(self).wf(),
            plan.0.parts() == if platform.mobile() {
                (Seq::empty(), Seq::empty())
            } else {
                texture_actions(
                    old(self)@.session_handlers,
                    old(self)@.use_texture_render,
                    display,
                    rgba.w,
                    rgba.h,
                )
            },
            plan.1 == (platform.mobile() || !old(self)@.use_texture_render),
    {
        if platform.is_mobile() {
            let nothing = RgbaActions { targets: Vec::new(), deliveries: Vec::new() };
            assert(delivered(nothing.deliveries@) =~= Seq::empty());
            return (nothing, true);
        }
        let use_texture_render = self.use_texture_render;
        let actions = self.on_rgba_flutter_texture_render(use_texture_render, display, rgba);
        (actions, !use_texture_render)
    }

    /// The callbacks that look at a frame before it is handed over as pixels, with their keys.
    pub fn rgba_hooks(&self, platform: Platform) -> (hooks: Vec<(String, HookId)>)
        ensures
            hooks@.map_values(|hook: (String, HookId)| (hook.0@, hook.1)) == if platform.mobile() {
                Seq::empty()
            } else {
                self@.hooks.map_values(
                    |hook: (Seq<char>, SessionHook)| (hook.0, hook.1->OnSessionRgba_0),
                )
            },
    {
        let mut hooks: Vec<(String, HookId)> = Vec::new();
        let ghost shape = |hook: (String, HookId)| (hook.0@, hook.1);
        let ghost goal = self@.hooks.map_values(
            |hook: (Seq<char>, SessionHook)| (hook.0, hook.1->OnSessionRgba_0),
        );
        assert(hooks@.map_values(shape) =~= goal.take(0));
        if platform.is_mobile() {
            assert(hooks@.map_values(shape) =~= Seq::empty());
            return hooks;
        }
        let mut i: usize = 0;
        while i < self.hooks.len()
            invariant
                i <= self@.hooks.len(),
                shape == (|hook: (String, HookId)| (hook.0@, hook.1)),
                goal == self@.hooks.map_values(
                    |hook: (Seq<char>, SessionHook)| (hook.0, hook.1->OnSessionRgba_0),
                ),
                hooks@.map_values(shape) == goal.take(i as int),
            decreases self@.hooks.len() - i,
        {
            let ghost before = hooks@;
            match self.hooks.value_at(i) {
                SessionHook::OnSessionRgba(id) => {
                    hooks.push((self.hooks.key_at(i).clone(), *id));
                },
            }
            assert(hooks@.map_values(shape) =~= before.map_values(shape).push(goal[i as int]));
            assert(goal.take(i + 1) =~= goal.take(i as int).push(goal[i as int]));
            i += 1;
        }
        assert(goal.take(goal.len() as int) =~= goal);
        hooks
    }
}

/// The message that ends a stream.
pub fn try_send_close_event(event_stream: Option<StreamId>) -> (out: Option<Delivery>)
    ensures
        match out {
            Some(delivery) => event_stream == Some(delivery.stream) && delivery@.event
                == EventView::Event("close"@),
            None => event_stream is None,
        },
{
    match event_stream {
        Some(stream) => Some(Delivery { stream, event: EventToUI::Event("close".to_owned()) }),
        None => None,
    }
}

/// A frame that waits to be read is not replaced.
pub proof fn lemma_waiting_frame_stays(handler: FlutterHandlerView, display: usize, frame: Seq<u8>)
    requires
        handler.readable(display) is Some,
    ensures
        handler.soft_rendered(display, frame) == handler,
{
}

/// A frame that comes while none waits can be read where there is a session, with a stream or
/// without; once it was read it is gone. Frames of other displays are left alone.
pub proof fn lemma_frame_comes_back(
    handler: FlutterHandlerView,
    display: usize,
    frame: Seq<u8>,
    other: usize,
)
    requires
        handler.readable(display) is None,
        other != display,
    ensures
        handler.soft_rendered(display, frame).readable(display) == if handler.session_handlers.len()
            > 0 {
            Some(frame)
        } else {
            None
        },
        handler.soft_rendered(display, frame).kept(display) == frame,
        handler.soft_rendered(display, frame).next_rgba(display).readable(display) is None,
        handler.soft_rendered(display, frame).readable(other) == handler.readable(other),
        handler.next_rgba(display).readable(other) == handler.readable(other),
{
    let kept = RgbaView { data: frame, valid: handler.session_handlers.len() > 0 };
    lemma_lookup_put(handler.display_rgbas, display, kept, display);
    lemma_lookup_put(handler.display_rgbas, display, kept, other);
    let after = handler.soft_rendered(display, frame);
    lemma_lookup_put(
        after.display_rgbas,
        display,
        RgbaView { valid: false, ..kept },
        display,
    );
    if let Some(rgba) = lookup(handler.display_rgbas, display) {
        lemma_lookup_put(
            handler.display_rgbas,
            display,
            RgbaView { valid: false, ..rgba },
            other,
        );
    }
}

proof fn lemma_filter_map_holds<A, B>(items: Seq<A>, f: spec_fn(A) -> Option<B>, i: int)
    requires
        0 <= i < items.len(),
        f(items[i]) is Some,
    ensures
        items.filter_map(f).contains(f(items[i]).unwrap()),
    decreases items.len(),
{
    let n = items.len() as int;
    assert(items.take(n) =~= items);
    items.lemma_filter_map_take_succ(f, n - 1);
    let rest = items.take(n - 1);
    let before = rest.filter_map(f);
    let wanted = f(items[i]).unwrap();
    if i == n - 1 {
        assert(items.filter_map(f)[before.len() as int] == wanted);
    } else {
        lemma_filter_map_holds(rest, f, i);
        let k = choose|k: int| 0 <= k < before.len() && before[k] == wanted;
        assert(items.filter_map(f)[k] == wanted);
    }
}

/// An event goes to the streams of the sessions that it is addressed to, to all of them and to no
/// others.
pub proof fn lemma_event_reaches_the_addressed(
    handler: FlutterHandlerView,
    event: EventView,
    includes: Seq<SessionID>,
    excludes: Seq<SessionID>,
    stream: StreamId,
)
    ensures
        handler.deliveries(event, includes, excludes).contains(DeliveryView { stream, event })
            <==> exists|i: int|
            0 <= i < handler.session_handlers.len() && addressed(
                (#[trigger] handler.session_handlers[i]).0,
                includes,
                excludes,
            ) && handler.session_handlers[i].1.event_stream == Some(stream),
{
    let handlers = handler.session_handlers;
    let pick = |entry: (SessionID, SessionHandlerView)|
        if addressed(entry.0, includes, excludes) {
            delivery_to(entry.1, event)
        } else {
            None
        };
    let wanted = DeliveryView { stream, event };
    assert(handler.deliveries(event, includes, excludes) == handlers.filter_map(pick));
    if handlers.filter_map(pick).contains(wanted) {
        handlers.lemma_filter_map_contains(pick, wanted);
        let entry = choose|entry: (SessionID, SessionHandlerView)| #[trigger]
            handlers.contains(entry) && pick(entry) == Some(wanted);
        let i = choose|i: int| 0 <= i < handlers.len() && handlers[i] == entry;
        assert(handlers[i].1.event_stream == Some(stream));
    }
    if exists|i: int|
        0 <= i < handlers.len() && addressed((#[trigger] handlers[i]).0, includes, excludes)
            && handlers[i].1.event_stream == Some(stream) {
        let i = choose|i: int|
            0 <= i < handlers.len() && addressed((#[trigger] handlers[i]).0, includes, excludes)
                && handlers[i].1.event_stream == Some(stream);
        assert(pick(handlers[i]) == Some(wanted));
        lemma_filter_map_holds(handlers, pick, i);
    }
}

/// Where no session has a stream, an event goes nowhere: such sessions poll.
pub proof fn lemma_nobody_listens(
    handler: FlutterHandlerView,
    event: EventView,
    includes: Seq<SessionID>,
    excludes: Seq<SessionID>,
)
    requires
        forall|i: int|
            0 <= i < handler.session_handlers.len() ==> (
            #[trigger] handler.session_handlers[i]).1.event_stream is None,
    ensures
        handler.deliveries(event, includes, excludes) == Seq::<DeliveryView>::empty(),
{
    let handlers = handler.session_handlers;
    let pick = |entry: (SessionID, SessionHandlerView)|
        if addressed(entry.0, includes, excludes) {
            delivery_to(entry.1, event)
        } else {
            None
        };
    assert(handler.deliveries(event, includes, excludes) == handlers.filter_map(pick));
    let out = handlers.filter_map(pick);
    if out.len() > 0 {
        assert(out.contains(out[0]));
        handlers.lemma_filter_map_contains(pick, out[0]);
        let entry = choose|entry: (SessionID, SessionHandlerView)| #[trigger]
            handlers.contains(entry) && pick(entry) == Some(out[0]);
        let i = choose|i: int| 0 <= i < handlers.len() && handlers[i] == entry;
        assert(handlers[i].1.event_stream is None);
    }
    assert(out =~= Seq::<DeliveryView>::empty());
}

/// A hook that was added and then removed leaves no trace.
pub proof fn lemma_hook_added_then_removed(
    hooks: Seq<(Seq<char>, SessionHook)>,
    key: Seq<char>,
    hook: SessionHook,
)
    requires
        lookup(hooks, key) is None,
    ensures
        lookup(put(hooks, key, hook), key) == Some(hook),
        without(put(hooks, key, hook), key) == hooks,
{
    lemma_lookup_put(hooks, key, hook, key);
    lemma_put_new(hooks, key, hook);
    lemma_without_absent(hooks, key);
    reveal(Seq::filter);
    let more = hooks.push((key, hook));
    assert(more.drop_last() =~= hooks);
    assert(without(more, key) =~= hooks);
}

/// What is picked from a list, item by item, comes from the items that are picked, in their order.
proof fn lemma_picked<A, B>(
    items: Seq<A>,
    f: spec_fn(A) -> Option<B>,
    chosen: spec_fn(A) -> bool,
)
    requires
        forall|x: A| #[trigger] chosen(x) <==> f(x) is Some,
    ensures
        items.filter_map(f).len() == items.filter(chosen).len(),
        forall|k: int|
            0 <= k < items.filter(chosen).len() ==> Some(#[trigger] items.filter_map(f)[k]) == f(
                items.filter(chosen)[k],
            ),
    decreases items.len(),
{
    reveal(Seq::filter);
    if items.len() > 0 {
        let n = items.len() as int;
        let rest = items.drop_last();
        lemma_picked(rest, f, chosen);
        items.lemma_filter_map_take_succ(f, n - 1);
        assert(items.take(n) =~= items);
        assert(items.take(n - 1) =~= rest);
        assert(chosen(items.last()) <==> f(items.last()) is Some);
    }
}

/// The sessions that are told of a frame are those with a stream that show at most one display and,
/// where several share the connection, this one. Each is told once, in their order, of the display
/// that the frame is of.
pub proof fn lemma_frame_is_told(handler: FlutterHandlerView, display: usize, k: int)
    ensures
        ({
            let told = handler.session_handlers.filter(
                |entry: (SessionID, SessionHandlerView)|
                    entry.1.event_stream is Some && entry.1.displays.len() <= 1 && (
                    handler.session_handlers.len() > 1 ==> entry.1.displays.contains(display)),
            );
            let out = handler.soft_deliveries(display);
            &&& out.len() == told.len()
            &&& 0 <= k < out.len() ==> Some(out[k].stream) == told[k].1.event_stream
            &&& 0 <= k < out.len() ==> out[k].event == EventView::Rgba(display)
        }),
{
    let pick = |entry: (SessionID, SessionHandlerView)|
        if entry.1.displays.len() <= 1 && (handler.multi() ==> entry.1.displays.contains(
            display,
        )) {
            delivery_to(entry.1, EventView::Rgba(display))
        } else {
            None
        };
    let chosen = |entry: (SessionID, SessionHandlerView)|
        entry.1.event_stream is Some && entry.1.displays.len() <= 1 && (
        handler.session_handlers.len() > 1 ==> entry.1.displays.contains(display));
    assert(handler.soft_deliveries(display) == handler.session_handlers.filter_map(pick));
    lemma_picked(handler.session_handlers, pick, chosen);
    let told = handler.session_handlers.filter(chosen);
    if 0 <= k < told.len() {
        assert(Some(handler.session_handlers.filter_map(pick)[k]) == pick(told[k]));
    }
}

/// A stream is told of a frame exactly where a session that listens to it shows at most one display
/// and, where several sessions share the connection, this one; and it is told of this display only.
pub proof fn lemma_frame_reaches_its_sessions(
    handler: FlutterHandlerView,
    display: usize,
    stream: StreamId,
    event: EventView,
)
    ensures
        handler.soft_deliveries(display).contains(DeliveryView { stream, event }) <==> event
            == EventView::Rgba(display) && exists|i: int|
            0 <= i < handler.session_handlers.len() && (
            #[trigger] handler.session_handlers[i]).1.event_stream == Some(stream)
                && handler.session_handlers[i].1.displays.len() <= 1 && (
            handler.session_handlers.len() > 1 ==> handler.session_handlers[i].1.displays.contains(
                display,
            )),
{
    let handlers = handler.session_handlers;
    let pick = |entry: (SessionID, SessionHandlerView)|
        if entry.1.displays.len() <= 1 && (handler.multi() ==> entry.1.displays.contains(
            display,
        )) {
            delivery_to(entry.1, EventView::Rgba(display))
        } else {
            None
        };
    let wanted = DeliveryView { stream, event };
    assert(handler.soft_deliveries(display) == handlers.filter_map(pick));
    if handlers.filter_map(pick).contains(wanted) {
        handlers.lemma_filter_map_contains(pick, wanted);
        let entry = choose|entry: (SessionID, SessionHandlerView)| #[trigger]
            handlers.contains(entry) && pick(entry) == Some(wanted);
        let i = choose|i: int| 0 <= i < handlers.len() && handlers[i] == entry;
        assert(handlers[i].1.event_stream == Some(stream));
    }
    if event == EventView::Rgba(display) && exists|i: int|
        0 <= i < handlers.len() && (#[trigger] handlers[i]).1.event_stream == Some(stream)
            && handlers[i].1.displays.len() <= 1 && (handlers.len() > 1
            ==> handlers[i].1.displays.contains(display)) {
        let i = choose|i: int|
            0 <= i < handlers.len() && (#[trigger] handlers[i]).1.event_stream == Some(stream)
                && handlers[i].1.displays.len() <= 1 && (handlers.len() > 1
                ==> handlers[i].1.displays.contains(display));
        assert(pick(handlers[i]) == Some(wanted));
        lemma_filter_map_holds(handlers, pick, i);
    }
}

/// An event goes, as it is and once each, to the sessions with a stream that it is addressed to:
/// those that are named, or, where none is, all but those that are left out.
pub proof fn lemma_event_is_told(
    handler: FlutterHandlerView,
    event: EventView,
    includes: Seq<SessionID>,
    excludes: Seq<SessionID>,
    k: int,
)
    ensures
        ({
            let told = handler.session_handlers.filter(
                |entry: (SessionID, SessionHandlerView)|
                    entry.1.event_stream is Some && (includes.contains(entry.0) || (includes.len()
                        == 0 && !excludes.contains(entry.0))),
            );
            let out = handler.deliveries(event, includes, excludes);
            &&& out.len() == told.len()
            &&& 0 <= k < out.len() ==> Some(out[k].stream) == told[k].1.event_stream
            &&& 0 <= k < out.len() ==> out[k].event == event
        }),
{
    let pick = |entry: (SessionID, SessionHandlerView)|
        if addressed(entry.0, includes, excludes) {
            delivery_to(entry.1, event)
        } else {
            None
        };
    let chosen = |entry: (SessionID, SessionHandlerView)|
        entry.1.event_stream is Some && (includes.contains(entry.0) || (includes.len() == 0
            && !excludes.contains(entry.0)));
    assert(handler.deliveries(event, includes, excludes) == handler.session_handlers.filter_map(
        pick,
    ));
    lemma_picked(handler.session_handlers, pick, chosen);
    let told = handler.session_handlers.filter(chosen);
    if 0 <= k < told.len() {
        assert(Some(handler.session_handlers.filter_map(pick)[k]) == pick(told[k]));
    }
}

/// A named event goes to every session with a stream, once each, as a JSON object that holds the name
/// and the fields: each field has its last value, and the name stands under `name`.
pub proof fn lemma_named_event(
    handler: FlutterHandlerView,
    name: Seq<char>,
    fields: JsonFields,
    k: int,
)
    ensures
        ({
            let told = handler.session_handlers.filter(
                |entry: (SessionID, SessionHandlerView)| entry.1.event_stream is Some,
            );
            let out = handler.event(name, fields);
            &&& out.len() == told.len()
            &&& 0 <= k < out.len() ==> Some(out[k].stream) == told[k].1.event_stream
            &&& 0 <= k < out.len() ==> exists|members: JsonFields|
                {
                    &&& distinct_keys(members)
                    &&& forall|key: Seq<char>| #[trigger]
                        lookup(members, key) == if key == "name"@ {
                            Some(Json::Text(name))
                        } else {
                            lookup(fields, key)
                        }
                    &&& out[k].event == EventView::Event(#[trigger] json_text(Json::Object(members)))
                }
        }),
{
    let text = event_text(name, fields);
    let pick = |entry: (SessionID, SessionHandlerView)|
        if addressed(entry.0, Seq::empty(), Seq::empty()) {
            delivery_to(entry.1, EventView::Event(text))
        } else {
            None
        };
    let chosen = |entry: (SessionID, SessionHandlerView)| entry.1.event_stream is Some;
    assert(handler.event(name, fields) == handler.session_handlers.filter_map(pick));
    lemma_picked(handler.session_handlers, pick, chosen);
    let told = handler.session_handlers.filter(chosen);
    if 0 <= k < told.len() {
        assert(Some(handler.session_handlers.filter_map(pick)[k]) == pick(told[k]));
    }
    let all = fields.push(("name"@, Json::Text(name)));
    let members = merged(all);
    assert(all.drop_last() =~= fields);
    lemma_merged_lookup(all, "name"@);
    assert forall|key: Seq<char>| #[trigger] lookup(members, key) == if key == "name"@ {
        Some(Json::Text(name))
    } else {
        lookup(fields, key)
    } by {
        lemma_merged_lookup(all, key);
    }
    assert(text == json_text(Json::Object(members)));
}

/// A frame that is shown in textures changes in each session at most what it was told of the display
/// that takes the frame: sessions that use textures, and have one for it, were told that it is shown
/// from pixels. Everything else stays.
pub proof fn lemma_texture_rendered(
    handler: FlutterHandlerView,
    use_texture_render: bool,
    display: usize,
    w: usize,
    h: usize,
    i: int,
    other: usize,
)
    requires
        0 <= i < handler.session_handlers.len(),
    ensures
        ({
            let all = handler.texture_rendered(use_texture_render, display, w, h);
            let before = handler.session_handlers[i].1;
            let after = all.session_handlers[i].1;
            let target = before.renderer.rgba_target(display, w, h);
            &&& all.session_handlers.len() == handler.session_handlers.len()
            &&& all.session_handlers[i].0 == handler.session_handlers[i].0
            &&& all.display_rgbas == handler.display_rgbas
            &&& all.peer_info == handler.peer_info
            &&& all.hooks == handler.hooks
            &&& all.use_texture_render == handler.use_texture_render
            &&& after.event_stream == before.event_stream
            &&& after.displays == before.displays
            &&& after.renderer.is_support_multi_ui_session
                == before.renderer.is_support_multi_ui_session
            &&& !use_texture_render && before.displays.len() <= 1 ==> after == before
            &&& target != Some(other) ==> lookup(after.renderer.displays, other) == lookup(
                before.renderer.displays,
                other,
            )
            &&& (use_texture_render || before.displays.len() > 1) && target == Some(other)
                ==> after.renderer.info(other).notify_render_type == Some(RenderType::PixelBuffer)
            &&& after.renderer.info(other).texture_rgba_ptr == before.renderer.info(
                other,
            ).texture_rgba_ptr
            &&& after.renderer.info(other).gpu_output_ptr == before.renderer.info(
                other,
            ).gpu_output_ptr
            &&& after.renderer.info(other).size == before.renderer.info(other).size
        }),
{
    let before = handler.session_handlers[i].1;
    let target = before.renderer.rgba_target(display, w, h);
    crate::renderer::lemma_notified(before.renderer, target, RenderType::PixelBuffer, other);
}

/// The textures that take a frame are those of the sessions that use textures and have one for it,
/// one of each, in their order. Those of them to which that is news, and that have a stream, are
/// told, once each, that this display is shown from pixels.
pub proof fn lemma_texture_actions(
    handlers: Seq<(SessionID, SessionHandlerView)>,
    use_texture_render: bool,
    display: usize,
    w: usize,
    h: usize,
    k: int,
)
    ensures
        ({
            let shown = handlers.filter(
                |entry: (SessionID, SessionHandlerView)|
                    (use_texture_render || entry.1.displays.len() > 1)
                        && entry.1.renderer.rgba_target(display, w, h) is Some,
            );
            let told = handlers.filter(
                |entry: (SessionID, SessionHandlerView)|
                    (use_texture_render || entry.1.displays.len() > 1) && entry.1.event_stream
                        is Some && entry.1.renderer.news(
                        entry.1.renderer.rgba_target(display, w, h),
                        RenderType::PixelBuffer,
                    ),
            );
            let out = texture_actions(handlers, use_texture_render, display, w, h);
            &&& out.0.len() == shown.len()
            &&& 0 <= k < shown.len() ==> out.0[k] == shown[k].1.renderer.info(
                shown[k].1.renderer.rgba_target(display, w, h).unwrap(),
            ).texture_rgba_ptr
            &&& out.1.len() == told.len()
            &&& 0 <= k < told.len() ==> Some(out.1[k].stream) == told[k].1.event_stream
            &&& 0 <= k < told.len() ==> out.1[k].event == EventView::Texture(display, false)
        }),
{
    let address = |entry: (SessionID, SessionHandlerView)|
        texture_address(entry.1, use_texture_render, display, w, h);
    let news = |entry: (SessionID, SessionHandlerView)|
        texture_news(entry.1, use_texture_render, display, w, h);
    let shows = |entry: (SessionID, SessionHandlerView)|
        (use_texture_render || entry.1.displays.len() > 1) && entry.1.renderer.rgba_target(
            display,
            w,
            h,
        ) is Some;
    let tells = |entry: (SessionID, SessionHandlerView)|
        (use_texture_render || entry.1.displays.len() > 1) && entry.1.event_stream is Some
            && entry.1.renderer.news(
            entry.1.renderer.rgba_target(display, w, h),
            RenderType::PixelBuffer,
        );
    lemma_picked(handlers, address, shows);
    lemma_picked(handlers, news, tells);
    let shown = handlers.filter(shows);
    let told = handlers.filter(tells);
    if 0 <= k < shown.len() {
        assert(Some(handlers.filter_map(address)[k]) == address(shown[k]));
        handlers.lemma_filter_pred(shows, k);
    }
    if 0 <= k < told.len() {
        assert(Some(handlers.filter_map(news)[k]) == news(told[k]));
    }
}

/// The outputs that take a texture of the graphics card are those of the sessions that have one for
/// it, one of each, in their order. Those of them to which that is news, and that have a stream, are
/// told, once each, that this display is shown from textures.
pub proof fn lemma_gpu_actions(
    handlers: Seq<(SessionID, SessionHandlerView)>,
    display: usize,
    k: int,
)
    ensures
        ({
            let shown = handlers.filter(
                |entry: (SessionID, SessionHandlerView)|
                    entry.1.renderer.texture_target(display) is Some,
            );
            let told = handlers.filter(
                |entry: (SessionID, SessionHandlerView)|
                    entry.1.event_stream is Some && entry.1.renderer.news(
                        entry.1.renderer.texture_target(display),
                        RenderType::Texture,
                    ),
            );
            let out = gpu_actions(handlers, display);
            &&& out.0.len() == shown.len()
            &&& 0 <= k < shown.len() ==> out.0[k] == shown[k].1.renderer.info(
                shown[k].1.renderer.texture_target(display).unwrap(),
            ).gpu_output_ptr
            &&& out.1.len() == told.len()
            &&& 0 <= k < told.len() ==> Some(out.1[k].stream) == told[k].1.event_stream
            &&& 0 <= k < told.len() ==> out.1[k].event == EventView::Texture(display, true)
        }),
{
    let address = |entry: (SessionID, SessionHandlerView)| gpu_address(entry.1, display);
    let news = |entry: (SessionID, SessionHandlerView)| gpu_news(entry.1, display);
    let shows = |entry: (SessionID, SessionHandlerView)|
        entry.1.renderer.texture_target(display) is Some;
    let tells = |entry: (SessionID, SessionHandlerView)|
        entry.1.event_stream is Some && entry.1.renderer.news(
            entry.1.renderer.texture_target(display),
            RenderType::Texture,
        );
    lemma_picked(handlers, address, shows);
    lemma_picked(handlers, news, tells);
    let shown = handlers.filter(shows);
    let told = handlers.filter(tells);
    if 0 <= k < shown.len() {
        assert(Some(handlers.filter_map(address)[k]) == address(shown[k]));
        handlers.lemma_filter_pred(shows, k);
    }
    if 0 <= k < told.len() {
        assert(Some(handlers.filter_map(news)[k]) == news(told[k]));
    }
}

/// A texture of the graphics card changes in a session at most what it was told of the display that
/// takes it.
pub proof fn lemma_gpu_textured(handler: SessionHandlerView, display: usize, other: usize)
    ensures
        ({
            let after = gpu_textured(handler, display);
            let target = handler.renderer.texture_target(display);
            &&& after.event_stream == handler.event_stream
            &&& after.displays == handler.displays
            &&& after.renderer.is_support_multi_ui_session
                == handler.renderer.is_support_multi_ui_session
            &&& target != Some(other) ==> lookup(after.renderer.displays, other) == lookup(
                handler.renderer.displays,
                other,
            )
            &&& target == Some(other) ==> after.renderer.info(other).notify_render_type == Some(
                RenderType::Texture,
            )
            &&& after.renderer.info(other).texture_rgba_ptr == handler.renderer.info(
                other,
            ).texture_rgba_ptr
            &&& after.renderer.info(other).gpu_output_ptr == handler.renderer.info(
                other,
            ).gpu_output_ptr
            &&& after.renderer.info(other).size == handler.renderer.info(other).size
        }),
{
    crate::renderer::lemma_notified(
        handler.renderer,
        handler.renderer.texture_target(display),
        RenderType::Texture,
        other,
    );
}

/// A frame can be read exactly where one is kept for the display and is valid; its bytes are those
/// that are kept.
pub proof fn lemma_readable(handler: FlutterHandlerView, display: usize)
    ensures
        match lookup(handler.display_rgbas, display) {
            Some(rgba) => {
                &&& handler.kept(display) == rgba.data
                &&& rgba.valid ==> handler.readable(display) == Some(rgba.data)
                &&& !rgba.valid ==> handler.readable(display) is None
            },
            None => handler.readable(display) is None && handler.kept(display).len() == 0,
        },
{
}

/// Keeping a frame changes the frames only.
pub proof fn lemma_soft_rendered_keeps_the_rest(
    handler: FlutterHandlerView,
    display: usize,
    frame: Seq<u8>,
    other: usize,
)
    ensures
        ({
            let after = handler.soft_rendered(display, frame);
            &&& after.session_handlers == handler.session_handlers
            &&& after.peer_info == handler.peer_info
            &&& after.hooks == handler.hooks
            &&& after.use_texture_render == handler.use_texture_render
            &&& other != display ==> lookup(after.display_rgbas, other) == lookup(
                handler.display_rgbas,
                other,
            )
        }),
{
    lemma_lookup_put(
        handler.display_rgbas,
        display,
        RgbaView { data: frame, valid: handler.session_handlers.len() > 0 },
        other,
    );
}

/// A handler that polls is known by one of its sessions; without sessions it is not known.
pub proof fn lemma_headless_session(handler: FlutterHandlerView)
    requires
        handler.wf(),
    ensures
        match handler.headless_session_id() {
            Some(id) => lookup(handler.session_handlers, id) is Some && id
                == handler.session_handlers.first().0,
            None => handler.session_handlers.len() == 0,
        },
        handler.multi() <==> handler.session_handlers.len() >= 2,
{
    if handler.session_handlers.len() > 0 {
        lemma_lookup_at(handler.session_handlers, 0);
    }
}

/// A new session has no stream, shows nothing and has no textures.
pub proof fn lemma_new_session_shows_nothing()
    ensures
        SessionHandlerView::empty().event_stream is None,
        SessionHandlerView::empty().displays.len() == 0,
        SessionHandlerView::empty().renderer.displays.len() == 0,
        !SessionHandlerView::empty().renderer.is_support_multi_ui_session,
{
}

/// What a frame leads to are its targets and its deliveries.
pub proof fn lemma_parts(actions: RgbaActions)
    ensures
        actions.parts().0 == actions.targets@,
        actions.parts().1 == delivered(actions.deliveries@),
{
}

}
